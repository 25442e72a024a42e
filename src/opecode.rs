//! Commands, guard conditions, and the instructions that lower to them.
use vstd::prelude::*;

use crate::error::MCAsmError;
use crate::literal::IntLiteral;
use crate::scoreboard::{
    add_text, free_text, lsc, lsc_view, operate_text, remove_text, set_text, compare_text,
    Scoreboard, ScoreboardView,
};
use crate::storage::{
    path_of, store_to_score_text, storage_to_score_text, Path, PathView, Storage, StorageType,
    StorageView,
};

verus! {

/// One rendered command of the target scripting language.
#[derive(Clone, Debug)]
pub struct Command {
    pub command: String,
}

impl View for Command {
    type V = Seq<char>;

    open spec fn view(&self) -> Seq<char> {
        self.command@
    }
}

impl From<String> for Command {
    fn from(value: String) -> (r: Command) {
        Command { command: value }
    }
}

impl vstd::std_specs::convert::FromSpecImpl<String> for Command {
    open spec fn obeys_from_spec() -> bool {
        true
    }

    open spec fn from_spec(v: String) -> Command {
        Command { command: v }
    }
}

impl From<Command> for String {
    fn from(value: Command) -> (r: String) {
        value.command
    }
}

impl vstd::std_specs::convert::FromSpecImpl<Command> for String {
    open spec fn obeys_from_spec() -> bool {
        true
    }

    open spec fn from_spec(v: Command) -> String {
        v.command
    }
}

/// One rendered guard predicate (`if score ...` or `unless score ...`).
#[derive(Clone, Debug)]
pub struct Condition {
    pub condition: String,
}

impl View for Condition {
    type V = Seq<char>;

    open spec fn view(&self) -> Seq<char> {
        self.condition@
    }
}

impl Condition {
    /// A second condition with the same text.
    pub fn duplicate(&self) -> (r: Condition)
        ensures
            r@ == self@,
    {
        Condition { condition: self.condition.clone() }
    }
}

impl From<String> for Condition {
    fn from(value: String) -> (r: Condition) {
        Condition { condition: value }
    }
}

impl vstd::std_specs::convert::FromSpecImpl<String> for Condition {
    open spec fn obeys_from_spec() -> bool {
        true
    }

    open spec fn from_spec(v: String) -> Condition {
        Condition { condition: v }
    }
}

/// A command with the texts of the guards it runs under, in the order they
/// were attached.
pub struct QualifiedView {
    pub command: Seq<char>,
    pub conditions: Seq<Seq<char>>,
}

/// A command that runs only where every one of its conditions holds.
#[derive(Clone, Debug)]
pub struct Qualified {
    pub command: Command,
    pub conditions: Vec<Condition>,
}

impl View for Qualified {
    type V = QualifiedView;

    open spec fn view(&self) -> QualifiedView {
        QualifiedView {
            command: self.command@,
            conditions: self.conditions@.map_values(|c: Condition| c@),
        }
    }
}

/// An unguarded command.
pub open spec fn plain(command: Seq<char>) -> QualifiedView {
    QualifiedView { command, conditions: Seq::empty() }
}

/// `parts` joined with `sep` between each two neighbours.
pub open spec fn join(parts: Seq<Seq<char>>, sep: Seq<char>) -> Seq<char>
    decreases parts.len(),
{
    if parts.len() == 0 {
        Seq::empty()
    } else if parts.len() == 1 {
        parts[0]
    } else {
        join(parts.drop_last(), sep) + sep + parts.last()
    }
}

/// The text of a guarded command: the bare command when it has no guard, else
/// `execute <conditions> run <command>`.
pub open spec fn serialised(q: QualifiedView) -> Seq<char> {
    if q.conditions.len() == 0 {
        q.command
    } else {
        "execute "@ + join(q.conditions, " "@) + " run "@ + q.command
    }
}

impl Qualified {
    /// An unguarded command.
    pub fn new(command: Command) -> (r: Qualified)
        ensures
            r@ == plain(command@),
    {
        let r = Qualified { command, conditions: Vec::new() };
        assert(r@.conditions =~= Seq::<Seq<char>>::empty());
        r
    }

    /// The command text, preceded by its guards when it has any.
    pub fn serialise(self) -> (r: String)
        ensures
            r@ == serialised(self@),
    {
        self.render()
    }

    fn render(&self) -> (r: String)
        ensures
            r@ == serialised(self@),
    {
        let n = self.conditions.len();
        if n == 0 {
            return self.command.command.clone();
        }
        let mut out = String::new();
        out.append("execute ");
        let ghost conds = self@.conditions;
        let mut i: usize = 0;
        while i < n
            invariant
                n == self.conditions.len(),
                conds == self@.conditions,
                0 < n,
                i <= n,
                i == 0 ==> out@ == "execute "@,
                i > 0 ==> out@ == "execute "@ + join(conds.take(i as int), " "@),
            decreases n - i,
        {
            if i > 0 {
                out.append(" ");
            }
            out.append(self.conditions[i].condition.as_str());
            proof {
                let t = conds.take(i + 1);
                assert(t.drop_last() =~= conds.take(i as int));
                assert(out@ =~= "execute "@ + join(t, " "@));
            }
            i = i + 1;
        }
        assert(conds.take(n as int) =~= conds);
        out.append(" run ");
        out.append(self.command.command.as_str());
        out
    }

    /// Attaches one more guard after the ones already there.
    pub fn push_condition(&mut self, condition: Condition)
        ensures
            final(self)@ == (QualifiedView {
                command: old(self)@.command,
                conditions: old(self)@.conditions.push(condition@),
            }),
    {
        self.conditions.push(condition);
        assert(self@.conditions =~= old(self)@.conditions.push(condition@));
    }
}

/// The views of a sequence of guarded commands.
pub open spec fn views(v: Seq<Qualified>) -> Seq<QualifiedView> {
    v.map_values(|q: Qualified| q@)
}

/// The views of a lowering result.
pub open spec fn lowered(r: Result<Vec<Qualified>, MCAsmError>) -> Result<
    Seq<QualifiedView>,
    MCAsmError,
> {
    match r {
        Ok(v) => Ok(views(v@)),
        Err(e) => Err(e),
    }
}

/// The views of a comparison result: its setup commands and its guard.
pub open spec fn compared(r: Result<(Vec<Qualified>, Condition), MCAsmError>) -> Result<
    (Seq<QualifiedView>, Seq<char>),
    MCAsmError,
> {
    match r {
        Ok(p) => Ok((views(p.0@), p.1@)),
        Err(e) => Err(e),
    }
}

/// A source operand: a register or an integer literal.
pub enum OperandView {
    Score(ScoreboardView),
    Int(i64),
}

/// The value a literal takes in a 32-bit scoreboard: its low 32 bits.
pub open spec fn narrowed(v: i64) -> int {
    (v as i32) as int
}

/// What `MOV <destination> <source>` lowers to.
pub open spec fn assign_result(o: OperandView, dst: ScoreboardView) -> Result<
    Seq<QualifiedView>,
    MCAsmError,
> {
    match o {
        OperandView::Score(s) => Ok(seq![plain(operate_text(dst, "="@, s))]),
        OperandView::Int(v) => if v < i32::MAX {
            Ok(seq![plain(set_text(dst, narrowed(v)))])
        } else {
            Err(MCAsmError::NarrowingConversion)
        },
    }
}

/// What `ADD <destination> <source>` lowers to.
pub open spec fn add_result(o: OperandView, dst: ScoreboardView) -> Seq<QualifiedView> {
    match o {
        OperandView::Score(s) => seq![plain(operate_text(dst, "+="@, s))],
        OperandView::Int(v) => seq![plain(add_text(dst, narrowed(v)))],
    }
}

/// What `SUB <destination> <source>` lowers to.
pub open spec fn sub_result(o: OperandView, dst: ScoreboardView) -> Seq<QualifiedView> {
    match o {
        OperandView::Score(s) => seq![plain(operate_text(dst, "-="@, s))],
        OperandView::Int(v) => seq![plain(remove_text(dst, narrowed(v)))],
    }
}

/// What an operation with no immediate form lowers to: with a register, one
/// `operation` command; with a literal, the literal is first staged into the
/// scratch register.
pub open spec fn staged_result(
    o: OperandView,
    operation: Seq<char>,
    dst: ScoreboardView,
) -> Seq<QualifiedView> {
    match o {
        OperandView::Score(s) => seq![plain(operate_text(dst, operation, s))],
        OperandView::Int(v) => seq![
            plain(set_text(lsc_view(), narrowed(v))),
            plain(operate_text(dst, operation, lsc_view())),
        ],
    }
}

/// What comparing `lhs` with an operand lowers to: the setup commands and the
/// guard `if score <lhs> <comparison> <operand>` (`unless` when negated). A
/// literal is staged into the scratch register first, which then stands for it.
pub open spec fn cmp_result(
    o: OperandView,
    unless: bool,
    comparison: Seq<char>,
    lhs: ScoreboardView,
) -> (Seq<QualifiedView>, Seq<char>) {
    match o {
        OperandView::Score(s) => (Seq::empty(), compare_text(s, unless, comparison, lhs)),
        OperandView::Int(v) => (
            seq![plain(set_text(lsc_view(), narrowed(v)))],
            compare_text(lsc_view(), unless, comparison, lhs),
        ),
    }
}

fn single(c: Command) -> (r: Vec<Qualified>)
    ensures
        views(r@) == seq![plain(c@)],
{
    let mut r: Vec<Qualified> = Vec::new();
    r.push(Qualified::new(c));
    assert(views(r@) =~= seq![plain(c@)]);
    r
}

fn pair(c: Command, d: Command) -> (r: Vec<Qualified>)
    ensures
        views(r@) == seq![plain(c@), plain(d@)],
{
    let mut r: Vec<Qualified> = Vec::new();
    r.push(Qualified::new(c));
    r.push(Qualified::new(d));
    assert(views(r@) =~= seq![plain(c@), plain(d@)]);
    r
}

/// An operand that can be assigned to a register.
pub trait ScoreAssignable {
    /// What assigning this operand to `scoreboard` lowers to.
    spec fn assign_spec(&self, scoreboard: ScoreboardView) -> Result<
        Seq<QualifiedView>,
        MCAsmError,
    >;

    fn assign(&self, scoreboard: &Scoreboard) -> (r: Result<Vec<Qualified>, MCAsmError>)
        ensures
            lowered(r) == self.assign_spec(scoreboard@),
    ;
}

/// An operand that can be added to a register.
pub trait ScoreAddable {
    /// What adding this operand to `scoreboard` lowers to.
    spec fn add_spec(&self, scoreboard: ScoreboardView) -> Result<
        Seq<QualifiedView>,
        MCAsmError,
    >;

    fn add(&self, scoreboard: &Scoreboard) -> (r: Result<Vec<Qualified>, MCAsmError>)
        ensures
            lowered(r) == self.add_spec(scoreboard@),
    ;
}

/// An operand that can be taken away from a register.
pub trait ScoreSubtractable {
    /// What taking this operand away from `scoreboard` lowers to.
    spec fn sub_spec(&self, scoreboard: ScoreboardView) -> Result<
        Seq<QualifiedView>,
        MCAsmError,
    >;

    fn sub(&self, scoreboard: &Scoreboard) -> (r: Result<Vec<Qualified>, MCAsmError>)
        ensures
            lowered(r) == self.sub_spec(scoreboard@),
    ;
}

/// An operand that a register can be multiplied by.
pub trait ScoreMultiplicatable {
    /// What multiplying `scoreboard` by this operand lowers to.
    spec fn mul_spec(&self, scoreboard: ScoreboardView) -> Result<
        Seq<QualifiedView>,
        MCAsmError,
    >;

    fn mul(&self, scoreboard: &Scoreboard) -> (r: Result<Vec<Qualified>, MCAsmError>)
        ensures
            lowered(r) == self.mul_spec(scoreboard@),
    ;
}

/// An operand that a register can be divided by.
pub trait ScoreDividable {
    /// What dividing `scoreboard` by this operand lowers to.
    spec fn div_spec(&self, scoreboard: ScoreboardView) -> Result<
        Seq<QualifiedView>,
        MCAsmError,
    >;

    fn div(&self, scoreboard: &Scoreboard) -> (r: Result<Vec<Qualified>, MCAsmError>)
        ensures
            lowered(r) == self.div_spec(scoreboard@),
    ;
}

/// An operand that a register can be reduced modulo.
pub trait ScoreSurplusable {
    /// What reducing `scoreboard` modulo this operand lowers to.
    spec fn sur_spec(&self, scoreboard: ScoreboardView) -> Result<
        Seq<QualifiedView>,
        MCAsmError,
    >;

    fn sur(&self, scoreboard: &Scoreboard) -> (r: Result<Vec<Qualified>, MCAsmError>)
        ensures
            lowered(r) == self.sur_spec(scoreboard@),
    ;
}

/// Something that can be cleared.
pub trait Releasable {
    /// What clearing it lowers to.
    spec fn rel_spec(&self) -> Seq<QualifiedView>;

    fn rel(&self) -> (r: Vec<Qualified>)
        ensures
            views(r@) == self.rel_spec(),
    ;
}

/// An operand that a register can be compared with.
pub trait ScoreCompareble {
    /// The setup commands and the guard of comparing `scoreboard` with this
    /// operand.
    spec fn cmp_spec(&self, unless: bool, comparison: Seq<char>, scoreboard: ScoreboardView) -> Result<
        (Seq<QualifiedView>, Seq<char>),
        MCAsmError,
    >;

    fn cmp(&self, unless: bool, comparison: &str, scoreboard: &Scoreboard) -> (r: Result<
        (Vec<Qualified>, Condition),
        MCAsmError,
    >)
        ensures
            compared(r) == self.cmp_spec(unless, comparison@, scoreboard@),
    ;
}

impl ScoreAssignable for Scoreboard {
    open spec fn assign_spec(&self, scoreboard: ScoreboardView) -> Result<
        Seq<QualifiedView>,
        MCAsmError,
    > {
        assign_result(OperandView::Score(self@), scoreboard)
    }

    fn assign(&self, other: &Scoreboard) -> (r: Result<Vec<Qualified>, MCAsmError>) {
        Ok(single(other.operate("=", self)))
    }
}

impl ScoreAddable for Scoreboard {
    open spec fn add_spec(&self, scoreboard: ScoreboardView) -> Result<
        Seq<QualifiedView>,
        MCAsmError,
    > {
        Ok(add_result(OperandView::Score(self@), scoreboard))
    }

    fn add(&self, other: &Scoreboard) -> (r: Result<Vec<Qualified>, MCAsmError>) {
        Ok(single(other.operate("+=", self)))
    }
}

impl ScoreSubtractable for Scoreboard {
    open spec fn sub_spec(&self, scoreboard: ScoreboardView) -> Result<
        Seq<QualifiedView>,
        MCAsmError,
    > {
        Ok(sub_result(OperandView::Score(self@), scoreboard))
    }

    fn sub(&self, other: &Scoreboard) -> (r: Result<Vec<Qualified>, MCAsmError>) {
        Ok(single(other.operate("-=", self)))
    }
}

impl ScoreMultiplicatable for Scoreboard {
    open spec fn mul_spec(&self, scoreboard: ScoreboardView) -> Result<
        Seq<QualifiedView>,
        MCAsmError,
    > {
        Ok(staged_result(OperandView::Score(self@), "*="@, scoreboard))
    }

    fn mul(&self, other: &Scoreboard) -> (r: Result<Vec<Qualified>, MCAsmError>) {
        Ok(single(other.operate("*=", self)))
    }
}

impl ScoreDividable for Scoreboard {
    open spec fn div_spec(&self, scoreboard: ScoreboardView) -> Result<
        Seq<QualifiedView>,
        MCAsmError,
    > {
        Ok(staged_result(OperandView::Score(self@), "/="@, scoreboard))
    }

    fn div(&self, other: &Scoreboard) -> (r: Result<Vec<Qualified>, MCAsmError>) {
        Ok(single(other.operate("/=", self)))
    }
}

impl ScoreSurplusable for Scoreboard {
    open spec fn sur_spec(&self, scoreboard: ScoreboardView) -> Result<
        Seq<QualifiedView>,
        MCAsmError,
    > {
        Ok(staged_result(OperandView::Score(self@), "%="@, scoreboard))
    }

    fn sur(&self, other: &Scoreboard) -> (r: Result<Vec<Qualified>, MCAsmError>) {
        Ok(single(other.operate("%=", self)))
    }
}

impl Releasable for Scoreboard {
    open spec fn rel_spec(&self) -> Seq<QualifiedView> {
        seq![plain(free_text(self@))]
    }

    fn rel(&self) -> (r: Vec<Qualified>) {
        single(self.free())
    }
}

impl ScoreCompareble for Scoreboard {
    open spec fn cmp_spec(&self, unless: bool, comparison: Seq<char>, scoreboard: ScoreboardView) -> Result<
        (Seq<QualifiedView>, Seq<char>),
        MCAsmError,
    > {
        Ok(cmp_result(OperandView::Score(self@), unless, comparison, scoreboard))
    }

    fn cmp(&self, unless: bool, comparison: &str, lhs: &Scoreboard) -> (r: Result<
        (Vec<Qualified>, Condition),
        MCAsmError,
    >) {
        let setup: Vec<Qualified> = Vec::new();
        assert(views(setup@) =~= Seq::<QualifiedView>::empty());
        Ok((setup, self.compare(unless, comparison, lhs)))
    }
}

impl ScoreAssignable for IntLiteral {
    open spec fn assign_spec(&self, scoreboard: ScoreboardView) -> Result<
        Seq<QualifiedView>,
        MCAsmError,
    > {
        assign_result(OperandView::Int(self@), scoreboard)
    }

    fn assign(&self, scoreboard: &Scoreboard) -> (r: Result<Vec<Qualified>, MCAsmError>) {
        if self.data < (i32::MAX as i64) {
            Ok(single(scoreboard.set(self.data as i32)))
        } else {
            Err(MCAsmError::NarrowingConversion)
        }
    }
}

impl ScoreAddable for IntLiteral {
    open spec fn add_spec(&self, scoreboard: ScoreboardView) -> Result<
        Seq<QualifiedView>,
        MCAsmError,
    > {
        Ok(add_result(OperandView::Int(self@), scoreboard))
    }

    fn add(&self, scoreboard: &Scoreboard) -> (r: Result<Vec<Qualified>, MCAsmError>) {
        Ok(single(scoreboard.add(self.data as i32)))
    }
}

impl ScoreSubtractable for IntLiteral {
    open spec fn sub_spec(&self, scoreboard: ScoreboardView) -> Result<
        Seq<QualifiedView>,
        MCAsmError,
    > {
        Ok(sub_result(OperandView::Int(self@), scoreboard))
    }

    fn sub(&self, scoreboard: &Scoreboard) -> (r: Result<Vec<Qualified>, MCAsmError>) {
        Ok(single(scoreboard.remove(self.data as i32)))
    }
}

impl ScoreMultiplicatable for IntLiteral {
    open spec fn mul_spec(&self, scoreboard: ScoreboardView) -> Result<
        Seq<QualifiedView>,
        MCAsmError,
    > {
        Ok(staged_result(OperandView::Int(self@), "*="@, scoreboard))
    }

    fn mul(&self, scoreboard: &Scoreboard) -> (r: Result<Vec<Qualified>, MCAsmError>) {
        let scratch = lsc();
        Ok(pair(scratch.set(self.data as i32), scoreboard.operate("*=", &scratch)))
    }
}

impl ScoreDividable for IntLiteral {
    open spec fn div_spec(&self, scoreboard: ScoreboardView) -> Result<
        Seq<QualifiedView>,
        MCAsmError,
    > {
        Ok(staged_result(OperandView::Int(self@), "/="@, scoreboard))
    }

    fn div(&self, scoreboard: &Scoreboard) -> (r: Result<Vec<Qualified>, MCAsmError>) {
        let scratch = lsc();
        Ok(pair(scratch.set(self.data as i32), scoreboard.operate("/=", &scratch)))
    }
}

impl ScoreSurplusable for IntLiteral {
    open spec fn sur_spec(&self, scoreboard: ScoreboardView) -> Result<
        Seq<QualifiedView>,
        MCAsmError,
    > {
        Ok(staged_result(OperandView::Int(self@), "%="@, scoreboard))
    }

    fn sur(&self, scoreboard: &Scoreboard) -> (r: Result<Vec<Qualified>, MCAsmError>) {
        let scratch = lsc();
        Ok(pair(scratch.set(self.data as i32), scoreboard.operate("%=", &scratch)))
    }
}

impl ScoreCompareble for IntLiteral {
    open spec fn cmp_spec(&self, unless: bool, comparison: Seq<char>, scoreboard: ScoreboardView) -> Result<
        (Seq<QualifiedView>, Seq<char>),
        MCAsmError,
    > {
        Ok(cmp_result(OperandView::Int(self@), unless, comparison, scoreboard))
    }

    fn cmp(&self, unless: bool, comparison: &str, scoreboard: &Scoreboard) -> (r: Result<
        (Vec<Qualified>, Condition),
        MCAsmError,
    >) {
        let scratch = lsc();
        Ok((single(scratch.set(self.data as i32)), scratch.compare(unless, comparison, scoreboard)))
    }
}

/// A source operand: a register or an integer literal.
pub enum Operand {
    Score(Scoreboard),
    Int(IntLiteral),
}

impl View for Operand {
    type V = OperandView;

    open spec fn view(&self) -> OperandView {
        match self {
            Operand::Score(s) => OperandView::Score(s@),
            Operand::Int(i) => OperandView::Int(i@),
        }
    }
}

impl ScoreAssignable for Operand {
    open spec fn assign_spec(&self, scoreboard: ScoreboardView) -> Result<
        Seq<QualifiedView>,
        MCAsmError,
    > {
        assign_result(self@, scoreboard)
    }

    fn assign(&self, scoreboard: &Scoreboard) -> (r: Result<Vec<Qualified>, MCAsmError>) {
        match self {
            Operand::Score(s) => s.assign(scoreboard),
            Operand::Int(i) => i.assign(scoreboard),
        }
    }
}

impl ScoreAddable for Operand {
    open spec fn add_spec(&self, scoreboard: ScoreboardView) -> Result<
        Seq<QualifiedView>,
        MCAsmError,
    > {
        Ok(add_result(self@, scoreboard))
    }

    fn add(&self, scoreboard: &Scoreboard) -> (r: Result<Vec<Qualified>, MCAsmError>) {
        match self {
            Operand::Score(s) => ScoreAddable::add(s, scoreboard),
            Operand::Int(i) => i.add(scoreboard),
        }
    }
}

impl ScoreSubtractable for Operand {
    open spec fn sub_spec(&self, scoreboard: ScoreboardView) -> Result<
        Seq<QualifiedView>,
        MCAsmError,
    > {
        Ok(sub_result(self@, scoreboard))
    }

    fn sub(&self, scoreboard: &Scoreboard) -> (r: Result<Vec<Qualified>, MCAsmError>) {
        match self {
            Operand::Score(s) => s.sub(scoreboard),
            Operand::Int(i) => i.sub(scoreboard),
        }
    }
}

impl ScoreMultiplicatable for Operand {
    open spec fn mul_spec(&self, scoreboard: ScoreboardView) -> Result<
        Seq<QualifiedView>,
        MCAsmError,
    > {
        Ok(staged_result(self@, "*="@, scoreboard))
    }

    fn mul(&self, scoreboard: &Scoreboard) -> (r: Result<Vec<Qualified>, MCAsmError>) {
        match self {
            Operand::Score(s) => s.mul(scoreboard),
            Operand::Int(i) => i.mul(scoreboard),
        }
    }
}

impl ScoreDividable for Operand {
    open spec fn div_spec(&self, scoreboard: ScoreboardView) -> Result<
        Seq<QualifiedView>,
        MCAsmError,
    > {
        Ok(staged_result(self@, "/="@, scoreboard))
    }

    fn div(&self, scoreboard: &Scoreboard) -> (r: Result<Vec<Qualified>, MCAsmError>) {
        match self {
            Operand::Score(s) => s.div(scoreboard),
            Operand::Int(i) => i.div(scoreboard),
        }
    }
}

impl ScoreSurplusable for Operand {
    open spec fn sur_spec(&self, scoreboard: ScoreboardView) -> Result<
        Seq<QualifiedView>,
        MCAsmError,
    > {
        Ok(staged_result(self@, "%="@, scoreboard))
    }

    fn sur(&self, scoreboard: &Scoreboard) -> (r: Result<Vec<Qualified>, MCAsmError>) {
        match self {
            Operand::Score(s) => s.sur(scoreboard),
            Operand::Int(i) => i.sur(scoreboard),
        }
    }
}

impl ScoreCompareble for Operand {
    open spec fn cmp_spec(&self, unless: bool, comparison: Seq<char>, scoreboard: ScoreboardView) -> Result<
        (Seq<QualifiedView>, Seq<char>),
        MCAsmError,
    > {
        Ok(cmp_result(self@, unless, comparison, scoreboard))
    }

    fn cmp(&self, unless: bool, comparison: &str, scoreboard: &Scoreboard) -> (r: Result<
        (Vec<Qualified>, Condition),
        MCAsmError,
    >) {
        match self {
            Operand::Score(s) => s.cmp(unless, comparison, scoreboard),
            Operand::Int(i) => i.cmp(unless, comparison, scoreboard),
        }
    }
}

/// One instruction of the assembly language.
pub enum Mnemonic {
    /// `DEF <register> <source>`: the same as `MOV`.
    Def((Scoreboard, Operand)),
    /// `MOV <register> <source>`
    Mov((Scoreboard, Operand)),
    /// `ADD <register> <source>`
    Add((Scoreboard, Operand)),
    /// `SUB <register> <source>`
    Sub((Scoreboard, Operand)),
    /// `MUL <register> <source>`
    Mul((Scoreboard, Operand)),
    /// `DIV <register> <source>`
    Div((Scoreboard, Operand)),
    /// `SUR <register> <source>`: remainder.
    Sur((Scoreboard, Operand)),
    /// `NTS <register> <storage> <path> <magnification>`: storage to register.
    Nts((Scoreboard, Storage, Path, u32)),
    /// `STN <storage> <path> <register> <magnification>`: register to storage.
    Stn((Storage, Path, Scoreboard, u32)),
    /// `REL <register>`: clear the register.
    Rel(Scoreboard),
    /// `(register, operand, nested)`: run the nested instruction under the guard
    /// `if score <register> = <operand>`.
    Je((Scoreboard, Operand, Box<Mnemonic>)),
    /// Run the nested instruction under `unless score <register> = <operand>`.
    Jne((Scoreboard, Operand, Box<Mnemonic>)),
    /// Run the nested instruction under `if score <register> < <operand>`.
    Jl((Scoreboard, Operand, Box<Mnemonic>)),
    /// Run the nested instruction under `if score <register> > <operand>`.
    Jg((Scoreboard, Operand, Box<Mnemonic>)),
}

/// An instruction with its operands as their views.
pub enum MnemonicView {
    Def((ScoreboardView, OperandView)),
    Mov((ScoreboardView, OperandView)),
    Add((ScoreboardView, OperandView)),
    Sub((ScoreboardView, OperandView)),
    Mul((ScoreboardView, OperandView)),
    Div((ScoreboardView, OperandView)),
    Sur((ScoreboardView, OperandView)),
    Nts((ScoreboardView, StorageView, PathView, u32)),
    Stn((StorageView, PathView, ScoreboardView, u32)),
    Rel(ScoreboardView),
    Je((ScoreboardView, OperandView, Box<MnemonicView>)),
    Jne((ScoreboardView, OperandView, Box<MnemonicView>)),
    Jl((ScoreboardView, OperandView, Box<MnemonicView>)),
    Jg((ScoreboardView, OperandView, Box<MnemonicView>)),
}

impl View for Mnemonic {
    type V = MnemonicView;

    open spec fn view(&self) -> MnemonicView
        decreases self,
    {
        match self {
            Mnemonic::Def((s, o)) => MnemonicView::Def((s@, o@)),
            Mnemonic::Mov((s, o)) => MnemonicView::Mov((s@, o@)),
            Mnemonic::Add((s, o)) => MnemonicView::Add((s@, o@)),
            Mnemonic::Sub((s, o)) => MnemonicView::Sub((s@, o@)),
            Mnemonic::Mul((s, o)) => MnemonicView::Mul((s@, o@)),
            Mnemonic::Div((s, o)) => MnemonicView::Div((s@, o@)),
            Mnemonic::Sur((s, o)) => MnemonicView::Sur((s@, o@)),
            Mnemonic::Nts((s, st, p, m)) => MnemonicView::Nts((s@, st@, p@, *m)),
            Mnemonic::Stn((st, p, s, m)) => MnemonicView::Stn((st@, p@, s@, *m)),
            Mnemonic::Rel(s) => MnemonicView::Rel(s@),
            Mnemonic::Je((l, o, m)) => MnemonicView::Je((l@, o@, Box::new((**m)@))),
            Mnemonic::Jne((l, o, m)) => MnemonicView::Jne((l@, o@, Box::new((**m)@))),
            Mnemonic::Jl((l, o, m)) => MnemonicView::Jl((l@, o@, Box::new((**m)@))),
            Mnemonic::Jg((l, o, m)) => MnemonicView::Jg((l@, o@, Box::new((**m)@))),
        }
    }
}

/// `q` with `condition` attached after its other guards.
pub open spec fn with_condition(q: QualifiedView, condition: Seq<char>) -> QualifiedView {
    QualifiedView { command: q.command, conditions: q.conditions.push(condition) }
}

/// A jump: the setup commands, unguarded, then every command of the nested
/// instruction with the guard attached.
pub open spec fn guarded(
    g: Result<(Seq<QualifiedView>, Seq<char>), MCAsmError>,
    inner: Result<Seq<QualifiedView>, MCAsmError>,
) -> Result<Seq<QualifiedView>, MCAsmError> {
    match g {
        Err(e) => Err(e),
        Ok(p) => match inner {
            Err(e) => Err(e),
            Ok(v) => Ok(p.0 + v.map_values(|q: QualifiedView| with_condition(q, p.1))),
        },
    }
}

/// What an instruction lowers to: its commands in order, or the first error.
pub open spec fn lower(m: MnemonicView) -> Result<Seq<QualifiedView>, MCAsmError>
    decreases m,
{
    match m {
        MnemonicView::Def((s, o)) => assign_result(o, s),
        MnemonicView::Mov((s, o)) => assign_result(o, s),
        MnemonicView::Add((s, o)) => Ok(add_result(o, s)),
        MnemonicView::Sub((s, o)) => Ok(sub_result(o, s)),
        MnemonicView::Mul((s, o)) => Ok(staged_result(o, "*="@, s)),
        MnemonicView::Div((s, o)) => Ok(staged_result(o, "/="@, s)),
        MnemonicView::Sur((s, o)) => Ok(staged_result(o, "%="@, s)),
        MnemonicView::Nts((s, st, p, m)) => Ok(
            seq![plain(store_to_score_text(st, s, p.path, m as nat))],
        ),
        MnemonicView::Stn((st, p, s, m)) => Ok(
            seq![plain(storage_to_score_text(s, st, p.type_annotation, p.path, m as nat))],
        ),
        MnemonicView::Rel(s) => Ok(seq![plain(free_text(s))]),
        MnemonicView::Je((l, o, inner)) => guarded(Ok(cmp_result(o, false, "="@, l)), lower(*inner)),
        MnemonicView::Jne((l, o, inner)) => guarded(Ok(cmp_result(o, true, "="@, l)), lower(*inner)),
        MnemonicView::Jl((l, o, inner)) => guarded(Ok(cmp_result(o, false, "<"@, l)), lower(*inner)),
        MnemonicView::Jg((l, o, inner)) => guarded(Ok(cmp_result(o, false, ">"@, l)), lower(*inner)),
    }
}

fn attach(
    g: Result<(Vec<Qualified>, Condition), MCAsmError>,
    inner: Result<Vec<Qualified>, MCAsmError>,
) -> (r: Result<Vec<Qualified>, MCAsmError>)
    ensures
        lowered(r) == guarded(compared(g), lowered(inner)),
{
    let (mut out, condition) = match g {
        Err(e) => return Err(e),
        Ok(p) => p,
    };
    let mut rest = match inner {
        Err(e) => return Err(e),
        Ok(v) => v,
    };
    let ghost setup = views(out@);
    let ghost todo = views(rest@);
    let ghost c = condition@;
    let ghost done = todo.map_values(|q: QualifiedView| with_condition(q, c));
    let ghost k: int = 0;
    while rest.len() > 0
        invariant
            condition@ == c,
            0 <= k <= todo.len(),
            rest@.len() == todo.len() - k,
            views(rest@) == todo.skip(k),
            views(out@) == setup + done.take(k),
            done == todo.map_values(|q: QualifiedView| with_condition(q, c)),
        decreases rest.len(),
    {
        let ghost before = rest@;
        assert(views(before)[0] == todo.skip(k)[0]);
        let mut q = rest.remove(0);
        assert(q@ == todo[k]);
        q.push_condition(condition.duplicate());
        assert(q@ == done[k]);
        let ghost out_before = out@;
        out.push(q);
        assert(views(out@) =~= views(out_before).push(done[k]));
        assert(done.take(k + 1) =~= done.take(k).push(done[k]));
        proof {
            assert forall|j: int| 0 <= j < rest@.len() implies views(rest@)[j] == todo.skip(
                k + 1,
            )[j] by {
                assert(rest@[j] == before[j + 1]);
                assert(views(before)[j + 1] == todo.skip(k)[j + 1]);
            }
            assert(views(rest@) =~= todo.skip(k + 1));
            assert(views(out@) =~= setup + done.take(k + 1));
            k = k + 1;
        }
    }
    assert(k == todo.len());
    assert(done.take(k) =~= done);
    Ok(out)
}

impl Mnemonic {
    /// The commands this instruction lowers to, in order; a failure stops the
    /// lowering at once.
    pub fn to_qualified(&self) -> (r: Result<Vec<Qualified>, MCAsmError>)
        ensures
            lowered(r) == lower(self@),
        decreases self,
    {
        match self {
            Mnemonic::Def((score, assignable)) => assignable.assign(score),
            Mnemonic::Mov((score, assignable)) => assignable.assign(score),
            Mnemonic::Add((score, source)) => ScoreAddable::add(source, score),
            Mnemonic::Sub((score, source)) => source.sub(score),
            Mnemonic::Mul((score, source)) => source.mul(score),
            Mnemonic::Div((score, source)) => source.div(score),
            Mnemonic::Sur((score, source)) => source.sur(score),
            Mnemonic::Nts((score, storage, path, magnif)) => Ok(
                single(Command { command: storage.store_to_score(score, &path.path, *magnif) }),
            ),
            Mnemonic::Stn((storage, path, score, magnif)) => Ok(
                single(
                    Command {
                        command: score.storage_to_score(
                            storage,
                            &path.type_annotation,
                            &path.path,
                            *magnif,
                        ),
                    },
                ),
            ),
            Mnemonic::Rel(releasable) => Ok(releasable.rel()),
            Mnemonic::Je((lhs, rhs, mnemonic)) => attach(
                rhs.cmp(false, "=", lhs),
                mnemonic.to_qualified(),
            ),
            Mnemonic::Jne((lhs, rhs, mnemonic)) => attach(
                rhs.cmp(true, "=", lhs),
                mnemonic.to_qualified(),
            ),
            Mnemonic::Jl((lhs, rhs, mnemonic)) => attach(
                rhs.cmp(false, "<", lhs),
                mnemonic.to_qualified(),
            ),
            Mnemonic::Jg((lhs, rhs, mnemonic)) => attach(
                rhs.cmp(false, ">", lhs),
                mnemonic.to_qualified(),
            ),
        }
    }
}

/// The texts of `v`, one per line.
pub open spec fn text_of(v: Seq<QualifiedView>) -> Seq<char> {
    join(v.map_values(|q: QualifiedView| serialised(q)), "\n"@)
}

/// Commands that can be written out as one text.
pub trait IntoSingleString {
    /// The text written out.
    spec fn single_string_spec(&self) -> Seq<char>;

    fn into_single_string(self) -> (r: String)
        ensures
            r@ == self.single_string_spec(),
    ;
}

impl IntoSingleString for Vec<Qualified> {
    open spec fn single_string_spec(&self) -> Seq<char> {
        text_of(views(self@))
    }

    fn into_single_string(self) -> (r: String) {
        join_lines(&self)
    }
}

fn join_lines(v: &Vec<Qualified>) -> (r: String)
    ensures
        r@ == text_of(views(v@)),
{
    let ghost texts = views(v@).map_values(|q: QualifiedView| serialised(q));
    let mut out = String::new();
    let mut i: usize = 0;
    while i < v.len()
        invariant
            i <= v.len(),
            texts == views(v@).map_values(|q: QualifiedView| serialised(q)),
            out@ == join(texts.take(i as int), "\n"@),
        decreases v.len() - i,
    {
        if i > 0 {
            out.append("\n");
        }
        let line = v[i].render();
        out.append(line.as_str());
        proof {
            let t = texts.take(i + 1);
            assert(t.drop_last() =~= texts.take(i as int));
            assert(t.last() == line@);
            assert(out@ =~= join(t, "\n"@));
        }
        i = i + 1;
    }
    assert(texts.take(i as int) =~= texts);
    out
}

impl Mnemonic {
    /// The text of the commands this instruction lowers to, one per line.
    pub fn to_string(&self) -> (r: Result<String, MCAsmError>)
        ensures
            match r {
                Ok(s) => lower(self@) matches Ok(v) && s@ == text_of(v),
                Err(e) => lower(self@) == Err::<Seq<QualifiedView>, MCAsmError>(e),
            },
    {
        match self.to_qualified() {
            Ok(v) => Ok(join_lines(&v)),
            Err(e) => Err(e),
        }
    }
}

/// Nested jumps accumulate their guards: `JE a b (JL c d (REL e))`, with `d` a
/// register, lowers to the setup commands of comparing `a` with `b`, unguarded,
/// then the one reset of `e`, guarded first by the `<` test of `c` and `d`,
/// then by the `=` test of `a` and `b`.
pub proof fn lemma_nested_jump_guards(
    a: ScoreboardView,
    b: OperandView,
    c: ScoreboardView,
    d: ScoreboardView,
    e: ScoreboardView,
)
    ensures
        lower(
            MnemonicView::Je(
                (
                    a,
                    b,
                    Box::new(
                        MnemonicView::Jl(
                            (c, OperandView::Score(d), Box::new(MnemonicView::Rel(e))),
                        ),
                    ),
                ),
            ),
        ) == Ok::<Seq<QualifiedView>, MCAsmError>(
            cmp_result(b, false, "="@, a).0 + seq![
                QualifiedView {
                    command: free_text(e),
                    conditions: seq![
                        compare_text(d, false, "<"@, c),
                        cmp_result(b, false, "="@, a).1,
                    ],
                },
            ],
        ),
{
    let inner = MnemonicView::Jl((c, OperandView::Score(d), Box::new(MnemonicView::Rel(e))));
    let reset = seq![plain(free_text(e))];
    let once = seq![with_condition(plain(free_text(e)), compare_text(d, false, "<"@, c))];
    assert(lower(MnemonicView::Rel(e)) == Ok::<Seq<QualifiedView>, MCAsmError>(reset));
    assert(lower(inner) == Ok::<Seq<QualifiedView>, MCAsmError>(once)) by {
        assert(Seq::<QualifiedView>::empty() + reset.map_values(
            |q: QualifiedView| with_condition(q, compare_text(d, false, "<"@, c)),
        ) =~= once);
    }
    assert(once[0].conditions =~= seq![compare_text(d, false, "<"@, c)]);
    let g = cmp_result(b, false, "="@, a);
    let guarded_once = once.map_values(|q: QualifiedView| with_condition(q, g.1));
    assert(guarded_once[0].conditions =~= seq![compare_text(d, false, "<"@, c), g.1]);
    assert(guarded_once =~= seq![
        QualifiedView {
            command: free_text(e),
            conditions: seq![compare_text(d, false, "<"@, c), g.1],
        },
    ]);
}

/// A jump with any operands emits the comparison's setup commands unguarded,
/// then each command of the nested instruction, in order, with the jump's guard
/// attached after the guards it already had.
pub proof fn lemma_jump_order(
    l: ScoreboardView,
    o: OperandView,
    inner: MnemonicView,
    k: int,
)
    requires
        lower(inner) is Ok,
        0 <= k < lower(inner)->Ok_0.len(),
    ensures
        ({
            let setup = cmp_result(o, false, "="@, l).0;
            let guard = cmp_result(o, false, "="@, l).1;
            let out = lower(MnemonicView::Je((l, o, Box::new(inner))))->Ok_0;
            &&& lower(MnemonicView::Je((l, o, Box::new(inner)))) is Ok
            &&& out.len() == setup.len() + lower(inner)->Ok_0.len()
            &&& out.take(setup.len() as int) == setup
            &&& out[setup.len() + k].command == lower(inner)->Ok_0[k].command
            &&& out[setup.len() + k].conditions == lower(inner)->Ok_0[k].conditions.push(guard)
        }),
{
    let setup = cmp_result(o, false, "="@, l).0;
    let out = lower(MnemonicView::Je((l, o, Box::new(inner))))->Ok_0;
    assert(out.take(setup.len() as int) =~= setup);
}

/// Moving a value from a storage path into a register, and back from the
/// register into the same path, each lower to exactly one command; a path text
/// that does not end in a `>` carries no type and reads as `int`.
pub proof fn lemma_storage_round_trip(
    score: ScoreboardView,
    storage: StorageView,
    path_text: Seq<char>,
    to_score: u32,
    to_storage: u32,
)
    requires
        path_of(path_text) is Ok,
    ensures
        ({
            let p = path_of(path_text)->Ok_0;
            &&& lower(MnemonicView::Nts((score, storage, p, to_score))) == Ok::<
                Seq<QualifiedView>,
                MCAsmError,
            >(seq![plain(store_to_score_text(storage, score, p.path, to_score as nat))])
            &&& lower(MnemonicView::Stn((storage, p, score, to_storage))) == Ok::<
                Seq<QualifiedView>,
                MCAsmError,
            >(
                seq![
                    plain(
                        storage_to_score_text(
                            score,
                            storage,
                            p.type_annotation,
                            p.path,
                            to_storage as nat,
                        ),
                    ),
                ],
            )
        }),
        !(path_text.len() > 0 && path_text.last() == '>') ==> path_of(path_text) == Ok::<
            PathView,
            MCAsmError,
        >(PathView { path: path_text, type_annotation: StorageType::Int }),
{
    reveal(path_of);
}

/// Writing out depends on nothing but the commands: two renderings of the same
/// lowered instructions give the same text.
pub proof fn lemma_render_deterministic(m1: MnemonicView, m2: MnemonicView)
    requires
        m1 == m2,
        lower(m1) is Ok,
    ensures
        lower(m2) is Ok,
        text_of(lower(m1)->Ok_0) == text_of(lower(m2)->Ok_0),
{
}

} // verus!
