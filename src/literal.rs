//! Integer literals as instruction operands.
use vstd::prelude::*;

verus! {

/// An immediate integer operand.
#[derive(Clone, Copy, Debug)]
pub struct IntLiteral {
    pub data: i64,
}

impl View for IntLiteral {
    type V = i64;

    open spec fn view(&self) -> i64 {
        self.data
    }
}

impl From<i64> for IntLiteral {
    fn from(value: i64) -> (r: IntLiteral) {
        IntLiteral { data: value }
    }
}

impl vstd::std_specs::convert::FromSpecImpl<i64> for IntLiteral {
    open spec fn obeys_from_spec() -> bool {
        true
    }

    open spec fn from_spec(v: i64) -> IntLiteral {
        IntLiteral { data: v }
    }
}

} // verus!
