//! Registers: named scoreboard counters, and the commands that act on them.
use vstd::prelude::*;

use crate::error::MCAsmError;
use crate::opecode::{Command, Condition};
use crate::text::{chars_of, dec_int, dec_string, string_of};

verus! {

/// A register: the score that `scoreholder` holds in `objective`. Written
/// `objective::scoreholder` in assembly.
#[derive(Clone, Debug)]
pub struct Scoreboard {
    pub scoreholder: String,
    pub objective: String,
}

/// The texts that name a register.
pub struct ScoreboardView {
    pub scoreholder: Seq<char>,
    pub objective: Seq<char>,
}

impl View for Scoreboard {
    type V = ScoreboardView;

    open spec fn view(&self) -> ScoreboardView {
        ScoreboardView { scoreholder: self.scoreholder@, objective: self.objective@ }
    }
}

/// The register that stages literals for operations with no immediate form.
pub open spec fn lsc_view() -> ScoreboardView {
    ScoreboardView { scoreholder: "LITERAL_SCORE_CONVERSION"@, objective: "MC_ASM"@ }
}

/// The reserved scratch register of [`lsc_view`].
pub fn lsc() -> (r: Scoreboard)
    ensures
        r@ == lsc_view(),
{
    Scoreboard {
        scoreholder: String::from_str("LITERAL_SCORE_CONVERSION"),
        objective: String::from_str("MC_ASM"),
    }
}

/// How a command names a register: `<scoreholder> <objective>`.
pub open spec fn score_text(s: ScoreboardView) -> Seq<char> {
    s.scoreholder + " "@ + s.objective
}

/// `scoreboard players set <register> <value>`.
pub open spec fn set_text(s: ScoreboardView, v: int) -> Seq<char> {
    "scoreboard players set "@ + score_text(s) + " "@ + dec_int(v)
}

/// `scoreboard players add <register> <value>`.
pub open spec fn add_text(s: ScoreboardView, v: int) -> Seq<char> {
    "scoreboard players add "@ + score_text(s) + " "@ + dec_int(v)
}

/// `scoreboard players remove <register> <value>`.
pub open spec fn remove_text(s: ScoreboardView, v: int) -> Seq<char> {
    "scoreboard players remove "@ + score_text(s) + " "@ + dec_int(v)
}

/// `scoreboard players reset <register>`.
pub open spec fn free_text(s: ScoreboardView) -> Seq<char> {
    "scoreboard players reset "@ + score_text(s)
}

/// `scoreboard players operation <register> <operation> <other>`.
pub open spec fn operate_text(
    s: ScoreboardView,
    operation: Seq<char>,
    other: ScoreboardView,
) -> Seq<char> {
    "scoreboard players operation "@ + score_text(s) + " "@ + operation + " "@ + score_text(
        other,
    )
}

/// `if score <lhs> <comparison> <s>`, or `unless score ...` when negated.
pub open spec fn compare_text(
    s: ScoreboardView,
    is_unless: bool,
    comparison: Seq<char>,
    lhs: ScoreboardView,
) -> Seq<char> {
    (if is_unless {
        "unless"@
    } else {
        "if"@
    }) + " score "@ + score_text(lhs) + " "@ + comparison + " "@ + score_text(s)
}

/// `scoreboard players get <register>`.
pub open spec fn get_text(s: ScoreboardView) -> Seq<char> {
    "scoreboard players get "@ + score_text(s)
}

/// Whether `from[k..k + 2]` is the separator `::`.
pub open spec fn sep_at(from: Seq<char>, k: int) -> bool {
    0 <= k && k + 1 < from.len() && from[k] == ':' && from[k + 1] == ':'
}

/// The register written `objective::scoreholder`, split at the first `::`.
#[verifier::opaque]
pub open spec fn scoreboard_of(from: Seq<char>) -> Option<ScoreboardView> {
    if exists|k: int| sep_at(from, k) {
        let k = choose|k: int| sep_at(from, k) && forall|j: int| 0 <= j < k ==> !sep_at(from, j);
        Some(ScoreboardView { scoreholder: from.skip(k + 2), objective: from.take(k) })
    } else {
        None
    }
}

pub(crate) fn append_score(out: &mut String, s: &Scoreboard)
    ensures
        final(out)@ == old(out)@ + score_text(s@),
{
    out.append(s.scoreholder.as_str());
    out.append(" ");
    out.append(s.objective.as_str());
    assert(out@ =~= old(out)@ + score_text(s@));
}

impl Scoreboard {
    /// The register of `scoreholder` in `objective`.
    pub fn new(scoreholder: &str, objective: &str) -> (r: Scoreboard)
        ensures
            r@ == (ScoreboardView { scoreholder: scoreholder@, objective: objective@ }),
    {
        Scoreboard {
            scoreholder: String::from_str(scoreholder),
            objective: String::from_str(objective),
        }
    }

    /// Reads `objective::scoreholder`, split at the first `::`.
    pub fn try_from(from: &str) -> (r: Result<Scoreboard, MCAsmError>)
        ensures
            match r {
                Ok(s) => scoreboard_of(from@) == Some(s@),
                Err(e) => scoreboard_of(from@) is None && e == MCAsmError::InvalidScoreboard,
            },
    {
        let cs = chars_of(from);
        Scoreboard::from_chars(cs.as_slice())
    }

    /// [`Scoreboard::try_from`] on the characters of a word.
    pub fn from_chars(cs: &[char]) -> (r: Result<Scoreboard, MCAsmError>)
        ensures
            match r {
                Ok(s) => scoreboard_of(cs@) == Some(s@),
                Err(e) => scoreboard_of(cs@) is None && e == MCAsmError::InvalidScoreboard,
            },
    {
        reveal(scoreboard_of);
        let n = cs.len();
        let mut k: usize = 0;
        while k < n && k + 1 < n
            invariant
                n == cs@.len(),
                forall|j: int| 0 <= j < k ==> !sep_at(cs@, j),
            decreases n - k,
        {
            if cs[k] == ':' && cs[k + 1] == ':' {
                proof {
                    reveal(scoreboard_of);
                    assert(sep_at(cs@, k as int));
                    let c = choose|c: int|
                        sep_at(cs@, c) && forall|j: int| 0 <= j < c ==> !sep_at(cs@, j);
                    assert(c == k);
                    assert(scoreboard_of(cs@) == Some(
                        ScoreboardView { scoreholder: cs@.skip(k + 2), objective: cs@.take(k as int) },
                    ));
                }
                let objective = string_of(vstd::slice::slice_subrange(cs, 0, k));
                let scoreholder = string_of(vstd::slice::slice_subrange(cs, k + 2, n));
                assert(cs@.subrange(0, k as int) == cs@.take(k as int));
                assert(cs@.subrange(k + 2, n as int) == cs@.skip(k + 2));
                return Ok(Scoreboard { scoreholder, objective });
            }
            k = k + 1;
        }
        assert forall|j: int| !sep_at(cs@, j) by {
            if 0 <= j < k {
            }
        }
        Err(MCAsmError::InvalidScoreboard)
    }

    /// Sets this register to `source`.
    pub fn set(&self, source: i32) -> (r: Command)
        ensures
            r@ == set_text(self@, source as int),
    {
        let mut out = String::new();
        out.append("scoreboard players set ");
        append_score(&mut out, self);
        out.append(" ");
        out.append(dec_string(source as i64).as_str());
        assert(out@ =~= set_text(self@, source as int));
        Command { command: out }
    }

    /// Adds `source` to this register.
    pub fn add(&self, source: i32) -> (r: Command)
        ensures
            r@ == add_text(self@, source as int),
    {
        let mut out = String::new();
        out.append("scoreboard players add ");
        append_score(&mut out, self);
        out.append(" ");
        out.append(dec_string(source as i64).as_str());
        assert(out@ =~= add_text(self@, source as int));
        Command { command: out }
    }

    /// Takes `source` away from this register.
    pub fn remove(&self, source: i32) -> (r: Command)
        ensures
            r@ == remove_text(self@, source as int),
    {
        let mut out = String::new();
        out.append("scoreboard players remove ");
        append_score(&mut out, self);
        out.append(" ");
        out.append(dec_string(source as i64).as_str());
        assert(out@ =~= remove_text(self@, source as int));
        Command { command: out }
    }

    /// Clears this register.
    pub fn free(&self) -> (r: Command)
        ensures
            r@ == free_text(self@),
    {
        let mut out = String::new();
        out.append("scoreboard players reset ");
        append_score(&mut out, self);
        assert(out@ =~= free_text(self@));
        Command { command: out }
    }

    /// Combines `other` into this register with `operation` (`=`, `+=`, `*=`, ...).
    pub fn operate(&self, operation: &str, other: &Scoreboard) -> (r: Command)
        ensures
            r@ == operate_text(self@, operation@, other@),
    {
        let mut out = String::new();
        out.append("scoreboard players operation ");
        append_score(&mut out, self);
        out.append(" ");
        out.append(operation);
        out.append(" ");
        append_score(&mut out, other);
        assert(out@ =~= operate_text(self@, operation@, other@));
        Command { command: out }
    }

    /// The guard that `lhs` stands in `comparison` to this register, or, when
    /// `is_unless`, that it does not.
    pub fn compare(&self, is_unless: bool, comparison: &str, lhs: &Scoreboard) -> (r: Condition)
        ensures
            r@ == compare_text(self@, is_unless, comparison@, lhs@),
    {
        let mut out = String::new();
        if is_unless {
            out.append("unless");
        } else {
            out.append("if");
        }
        out.append(" score ");
        append_score(&mut out, lhs);
        out.append(" ");
        out.append(comparison);
        out.append(" ");
        append_score(&mut out, self);
        assert(out@ =~= compare_text(self@, is_unless, comparison@, lhs@));
        Condition { condition: out }
    }

    /// Reads this register.
    pub fn get(&self) -> (r: Command)
        ensures
            r@ == get_text(self@),
    {
        let mut out = String::new();
        out.append("scoreboard players get ");
        append_score(&mut out, self);
        assert(out@ =~= get_text(self@));
        Command { command: out }
    }
}

} // verus!
