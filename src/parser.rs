//! Reading assembly text into instructions.
use vstd::prelude::*;

use crate::error::MCAsmError;
use crate::literal::IntLiteral;
use crate::opecode::{Mnemonic, MnemonicView, Operand, OperandView};
use crate::scoreboard::{scoreboard_of, Scoreboard, ScoreboardView};
use crate::storage::{path_of, storage_of, Path, PathView, Storage, StorageView};
use crate::text::{
    chars_eq_str, chars_of, i64_of, lemma_chars_deep_view, lines, parse_i64, parse_u32,
    split_lines, split_words, string_of, u32_of, words,
};

verus! {

/// A source operand: a register if the word reads as one, else an integer.
pub open spec fn operand_of(w: Seq<char>) -> Option<OperandView> {
    match scoreboard_of(w) {
        Some(s) => Some(OperandView::Score(s)),
        None => match i64_of(w) {
            Some(v) => Some(OperandView::Int(v)),
            None => None,
        },
    }
}

/// The operands of `<op> <register> <source>`.
pub open spec fn binary_of(ws: Seq<Seq<char>>) -> Result<
    (ScoreboardView, OperandView),
    MCAsmError,
> {
    if ws.len() < 3 {
        Err(MCAsmError::TooFewOperand)
    } else if ws.len() > 3 {
        Err(MCAsmError::InvalidOperand)
    } else {
        match (scoreboard_of(ws[1]), operand_of(ws[2])) {
            (Some(d), Some(o)) => Ok((d, o)),
            _ => Err(MCAsmError::InvalidOperand),
        }
    }
}

/// The operands of `NTS <register> <storage> <path> <magnification>`.
pub open spec fn nts_of(ws: Seq<Seq<char>>) -> Result<
    (ScoreboardView, StorageView, PathView, u32),
    MCAsmError,
> {
    if ws.len() < 5 {
        Err(MCAsmError::TooFewOperand)
    } else if ws.len() > 5 {
        Err(MCAsmError::InvalidOperand)
    } else if scoreboard_of(ws[1]) is None {
        Err(MCAsmError::InvalidScoreboard)
    } else if storage_of(ws[2]) is None {
        Err(MCAsmError::InvalidStorage)
    } else if path_of(ws[3]) is Err {
        Err(MCAsmError::UnknownType)
    } else if u32_of(ws[4]) is None {
        Err(MCAsmError::CantImplicateAsUnsignedInteger)
    } else {
        Ok(
            (
                scoreboard_of(ws[1])->Some_0,
                storage_of(ws[2])->Some_0,
                path_of(ws[3])->Ok_0,
                u32_of(ws[4])->Some_0,
            ),
        )
    }
}

/// The operands of `STN <storage> <path> <register> <magnification>`.
pub open spec fn stn_of(ws: Seq<Seq<char>>) -> Result<
    (StorageView, PathView, ScoreboardView, u32),
    MCAsmError,
> {
    if ws.len() < 5 {
        Err(MCAsmError::TooFewOperand)
    } else if ws.len() > 5 {
        Err(MCAsmError::InvalidOperand)
    } else if storage_of(ws[1]) is None {
        Err(MCAsmError::InvalidStorage)
    } else if path_of(ws[2]) is Err {
        Err(MCAsmError::UnknownType)
    } else if scoreboard_of(ws[3]) is None {
        Err(MCAsmError::InvalidScoreboard)
    } else if u32_of(ws[4]) is None {
        Err(MCAsmError::CantImplicateAsUnsignedInteger)
    } else {
        Ok(
            (
                storage_of(ws[1])->Some_0,
                path_of(ws[2])->Ok_0,
                scoreboard_of(ws[3])->Some_0,
                u32_of(ws[4])->Some_0,
            ),
        )
    }
}

/// The operand of `REL <register>`.
pub open spec fn rel_of(ws: Seq<Seq<char>>) -> Result<ScoreboardView, MCAsmError> {
    if ws.len() < 2 {
        Err(MCAsmError::TooFewOperand)
    } else if ws.len() > 2 {
        Err(MCAsmError::InvalidOperand)
    } else {
        match scoreboard_of(ws[1]) {
            Some(s) => Ok(s),
            None => Err(MCAsmError::InvalidScoreboard),
        }
    }
}

/// `binary_of` wrapped by an instruction constructor.
pub open spec fn binary_with(
    ws: Seq<Seq<char>>,
    f: spec_fn((ScoreboardView, OperandView)) -> MnemonicView,
) -> Result<MnemonicView, MCAsmError> {
    match binary_of(ws) {
        Ok(p) => Ok(f(p)),
        Err(e) => Err(e),
    }
}

/// The instruction written by the words of one line: an instruction word, then
/// exactly as many operands as it takes. Too few operands give
/// `TooFewOperand`, too many give `InvalidOperand`; the count is checked before
/// the operands are read.
pub open spec fn parse_words(ws: Seq<Seq<char>>) -> Result<MnemonicView, MCAsmError> {
    if ws.len() == 0 {
        Err(MCAsmError::EmptyLineGiven)
    } else if ws[0] == "DEF"@ {
        binary_with(ws, |p| MnemonicView::Def(p))
    } else if ws[0] == "MOV"@ {
        binary_with(ws, |p| MnemonicView::Mov(p))
    } else if ws[0] == "ADD"@ {
        binary_with(ws, |p| MnemonicView::Add(p))
    } else if ws[0] == "SUB"@ {
        binary_with(ws, |p| MnemonicView::Sub(p))
    } else if ws[0] == "MUL"@ {
        binary_with(ws, |p| MnemonicView::Mul(p))
    } else if ws[0] == "DIV"@ {
        binary_with(ws, |p| MnemonicView::Div(p))
    } else if ws[0] == "SUR"@ {
        binary_with(ws, |p| MnemonicView::Sur(p))
    } else if ws[0] == "NTS"@ {
        match nts_of(ws) {
            Ok(p) => Ok(MnemonicView::Nts(p)),
            Err(e) => Err(e),
        }
    } else if ws[0] == "STN"@ {
        match stn_of(ws) {
            Ok(p) => Ok(MnemonicView::Stn(p)),
            Err(e) => Err(e),
        }
    } else if ws[0] == "REL"@ {
        match rel_of(ws) {
            Ok(s) => Ok(MnemonicView::Rel(s)),
            Err(e) => Err(e),
        }
    } else {
        Err(MCAsmError::UnknownMnemonic)
    }
}

/// The views of a parse result.
pub open spec fn parsed(r: Result<Mnemonic, MCAsmError>) -> Result<MnemonicView, MCAsmError> {
    match r {
        Ok(m) => Ok(m@),
        Err(e) => Err(e),
    }
}

proof fn lemma_word_views(ws: &Vec<Vec<char>>)
    ensures
        forall|i: int| 0 <= i < ws.len() ==> ws.deep_view()[i] == #[trigger] ws@[i]@,
{
    assert forall|i: int| 0 <= i < ws.len() implies ws.deep_view()[i] == #[trigger] ws@[i]@ by {
        lemma_chars_deep_view(&ws@[i]);
    }
}

fn operand_from(w: &Vec<char>) -> (r: Option<Operand>)
    ensures
        match r {
            Some(o) => operand_of(w@) == Some(o@),
            None => operand_of(w@) is None,
        },
{
    match Scoreboard::from_chars(w.as_slice()) {
        Ok(s) => Some(Operand::Score(s)),
        Err(_) => match parse_i64(w) {
            Some(v) => Some(Operand::Int(IntLiteral { data: v })),
            None => None,
        },
    }
}

fn binary_from(ws: &Vec<Vec<char>>) -> (r: Result<(Scoreboard, Operand), MCAsmError>)
    ensures
        match r {
            Ok(p) => binary_of(ws.deep_view()) == Ok::<
                (ScoreboardView, OperandView),
                MCAsmError,
            >((p.0@, p.1@)),
            Err(e) => binary_of(ws.deep_view()) == Err::<
                (ScoreboardView, OperandView),
                MCAsmError,
            >(e),
        },
{
    proof {
        lemma_word_views(ws);
    }
    if ws.len() < 3 {
        return Err(MCAsmError::TooFewOperand);
    }
    if ws.len() > 3 {
        return Err(MCAsmError::InvalidOperand);
    }
    match (Scoreboard::from_chars(ws[1].as_slice()), operand_from(&ws[2])) {
        (Ok(d), Some(o)) => Ok((d, o)),
        _ => Err(MCAsmError::InvalidOperand),
    }
}

fn u32_from(w: &Vec<char>) -> (r: Result<u32, MCAsmError>)
    ensures
        match r {
            Ok(v) => u32_of(w@) == Some(v),
            Err(e) => u32_of(w@) is None && e == MCAsmError::CantImplicateAsUnsignedInteger,
        },
{
    match parse_u32(w) {
        Some(v) => Ok(v),
        None => Err(MCAsmError::CantImplicateAsUnsignedInteger),
    }
}

fn storage_from(w: &Vec<char>) -> (r: Result<Storage, MCAsmError>)
    ensures
        match r {
            Ok(s) => storage_of(w@) == Some(s@),
            Err(e) => storage_of(w@) is None && e == MCAsmError::InvalidStorage,
        },
{
    let text = string_of(w.as_slice());
    Storage::try_from(text.as_str())
}

fn nts_from(ws: &Vec<Vec<char>>) -> (r: Result<(Scoreboard, Storage, Path, u32), MCAsmError>)
    ensures
        match r {
            Ok(p) => nts_of(ws.deep_view()) == Ok::<
                (ScoreboardView, StorageView, PathView, u32),
                MCAsmError,
            >((p.0@, p.1@, p.2@, p.3)),
            Err(e) => nts_of(ws.deep_view()) == Err::<
                (ScoreboardView, StorageView, PathView, u32),
                MCAsmError,
            >(e),
        },
{
    proof {
        lemma_word_views(ws);
    }
    if ws.len() < 5 {
        return Err(MCAsmError::TooFewOperand);
    }
    if ws.len() > 5 {
        return Err(MCAsmError::InvalidOperand);
    }
    let score = Scoreboard::from_chars(ws[1].as_slice())?;
    let storage = storage_from(&ws[2])?;
    let path = match Path::from_chars(ws[3].as_slice()) {
        Ok(p) => p,
        Err(_) => return Err(MCAsmError::UnknownType),
    };
    let magnif = u32_from(&ws[4])?;
    Ok((score, storage, path, magnif))
}

fn stn_from(ws: &Vec<Vec<char>>) -> (r: Result<(Storage, Path, Scoreboard, u32), MCAsmError>)
    ensures
        match r {
            Ok(p) => stn_of(ws.deep_view()) == Ok::<
                (StorageView, PathView, ScoreboardView, u32),
                MCAsmError,
            >((p.0@, p.1@, p.2@, p.3)),
            Err(e) => stn_of(ws.deep_view()) == Err::<
                (StorageView, PathView, ScoreboardView, u32),
                MCAsmError,
            >(e),
        },
{
    proof {
        lemma_word_views(ws);
    }
    if ws.len() < 5 {
        return Err(MCAsmError::TooFewOperand);
    }
    if ws.len() > 5 {
        return Err(MCAsmError::InvalidOperand);
    }
    let storage = storage_from(&ws[1])?;
    let path = match Path::from_chars(ws[2].as_slice()) {
        Ok(p) => p,
        Err(_) => return Err(MCAsmError::UnknownType),
    };
    let score = Scoreboard::from_chars(ws[3].as_slice())?;
    let magnif = u32_from(&ws[4])?;
    Ok((storage, path, score, magnif))
}

/// The instruction written by `ws`, the words of one line.
fn parse_word_list(ws: &Vec<Vec<char>>) -> (r: Result<Mnemonic, MCAsmError>)
    ensures
        parsed(r) == parse_words(ws.deep_view()),
{
    proof {
        lemma_word_views(ws);
    }
    if ws.len() == 0 {
        return Err(MCAsmError::EmptyLineGiven);
    }
    let op = ws[0].as_slice();
    if chars_eq_str(op, "DEF") {
        match binary_from(ws) {
            Ok(p) => Ok(Mnemonic::Def(p)),
            Err(e) => Err(e),
        }
    } else if chars_eq_str(op, "MOV") {
        match binary_from(ws) {
            Ok(p) => Ok(Mnemonic::Mov(p)),
            Err(e) => Err(e),
        }
    } else if chars_eq_str(op, "ADD") {
        match binary_from(ws) {
            Ok(p) => Ok(Mnemonic::Add(p)),
            Err(e) => Err(e),
        }
    } else if chars_eq_str(op, "SUB") {
        match binary_from(ws) {
            Ok(p) => Ok(Mnemonic::Sub(p)),
            Err(e) => Err(e),
        }
    } else if chars_eq_str(op, "MUL") {
        match binary_from(ws) {
            Ok(p) => Ok(Mnemonic::Mul(p)),
            Err(e) => Err(e),
        }
    } else if chars_eq_str(op, "DIV") {
        match binary_from(ws) {
            Ok(p) => Ok(Mnemonic::Div(p)),
            Err(e) => Err(e),
        }
    } else if chars_eq_str(op, "SUR") {
        match binary_from(ws) {
            Ok(p) => Ok(Mnemonic::Sur(p)),
            Err(e) => Err(e),
        }
    } else if chars_eq_str(op, "NTS") {
        match nts_from(ws) {
            Ok(p) => Ok(Mnemonic::Nts(p)),
            Err(e) => Err(e),
        }
    } else if chars_eq_str(op, "STN") {
        match stn_from(ws) {
            Ok(p) => Ok(Mnemonic::Stn(p)),
            Err(e) => Err(e),
        }
    } else if chars_eq_str(op, "REL") {
        if ws.len() < 2 {
            return Err(MCAsmError::TooFewOperand);
        }
        if ws.len() > 2 {
            return Err(MCAsmError::InvalidOperand);
        }
        match Scoreboard::from_chars(ws[1].as_slice()) {
            Ok(s) => Ok(Mnemonic::Rel(s)),
            Err(e) => Err(e),
        }
    } else {
        Err(MCAsmError::UnknownMnemonic)
    }
}

/// Reads one line: its first word names the instruction, the next ones are its
/// operands.
pub fn parse_line(line: &str) -> (r: Result<Mnemonic, MCAsmError>)
    ensures
        parsed(r) == parse_words(words(line@)),
{
    let cs = chars_of(line);
    let ws = split_words(&cs);
    parse_word_list(&ws)
}

/// Whether a word opens a comment.
pub open spec fn is_comment(w: Seq<char>) -> bool {
    w.len() >= 2 && w[0] == '/' && w[1] == '/'
}

/// Whether a line holds an instruction: it is neither blank nor a comment.
pub open spec fn is_code(line: Seq<char>) -> bool {
    words(line).len() > 0 && !is_comment(words(line)[0])
}

/// The instructions of the code lines among the first `n` lines, and the
/// index and error of each of them that does not parse, both in line order.
pub open spec fn parse_upto(ls: Seq<Seq<char>>, n: nat) -> (
    Seq<MnemonicView>,
    Seq<(usize, MCAsmError)>,
)
    decreases n,
{
    if n == 0 {
        (Seq::empty(), Seq::empty())
    } else {
        let (oks, errs) = parse_upto(ls, (n - 1) as nat);
        let l = ls[n - 1];
        if !is_code(l) {
            (oks, errs)
        } else {
            match parse_words(words(l)) {
                Ok(m) => (oks.push(m), errs),
                Err(e) => (oks, errs.push(((n - 1) as usize, e))),
            }
        }
    }
}

/// What reading a whole source gives: every instruction when all code lines
/// parse, else the error of every code line that does not.
pub open spec fn parse_source(src: Seq<char>) -> Result<
    Seq<MnemonicView>,
    Seq<(usize, MCAsmError)>,
> {
    let (oks, errs) = parse_upto(lines(src), lines(src).len());
    if errs.len() == 0 {
        Ok(oks)
    } else {
        Err(errs)
    }
}

/// The views of a sequence of instructions.
pub open spec fn mnemonic_views(v: Seq<Mnemonic>) -> Seq<MnemonicView> {
    v.map_values(|m: Mnemonic| m@)
}

/// The indices of the lines, among the first `n`, that hold an instruction
/// that parses, in order.
pub open spec fn ok_lines(ls: Seq<Seq<char>>, n: nat) -> Seq<usize>
    decreases n,
{
    if n == 0 {
        Seq::empty()
    } else if is_code(ls[n - 1]) && parse_words(words(ls[n - 1])) is Ok {
        ok_lines(ls, (n - 1) as nat).push((n - 1) as usize)
    } else {
        ok_lines(ls, (n - 1) as nat)
    }
}

/// Reads every line of a source: the instructions that parse with the index of
/// their line, and the errors of the lines that do not.
pub(crate) fn parse_numbered(mcassembly: &str) -> (r: (
    Vec<Mnemonic>,
    Vec<usize>,
    Vec<(usize, MCAsmError)>,
))
    ensures
        (mnemonic_views(r.0@), r.2@) == parse_upto(
            lines(mcassembly@),
            lines(mcassembly@).len(),
        ),
        r.1@ == ok_lines(lines(mcassembly@), lines(mcassembly@).len()),
        r.1@.len() == r.0@.len(),
{
    let cs = chars_of(mcassembly);
    let ls = split_lines(&cs);
    let ghost lv = ls.deep_view();
    proof {
        lemma_word_views(&ls);
    }
    let mut mnemonics: Vec<Mnemonic> = Vec::new();
    let mut numbers: Vec<usize> = Vec::new();
    let mut errors: Vec<(usize, MCAsmError)> = Vec::new();
    let mut index: usize = 0;
    while index < ls.len()
        invariant
            index <= ls.len(),
            lv == ls.deep_view(),
            lv == lines(mcassembly@),
            forall|i: int| 0 <= i < ls.len() ==> lv[i] == #[trigger] ls@[i]@,
            (mnemonic_views(mnemonics@), errors@) == parse_upto(lv, index as nat),
            numbers@ == ok_lines(lv, index as nat),
            numbers@.len() == mnemonics@.len(),
        decreases ls.len() - index,
    {
        let ws = split_words(&ls[index]);
        proof {
            lemma_word_views(&ws);
        }
        let code = ws.len() > 0 && !(ws[0].len() >= 2 && ws[0][0] == '/' && ws[0][1] == '/');
        assert(code == is_code(lv[index as int]));
        if code {
            match parse_word_list(&ws) {
                Ok(m) => {
                    let ghost before = mnemonics@;
                    mnemonics.push(m);
                    numbers.push(index);
                    assert(mnemonic_views(mnemonics@) =~= mnemonic_views(before).push(m@));
                },
                Err(e) => {
                    errors.push((index, e));
                },
            }
        }
        index = index + 1;
    }
    (mnemonics, numbers, errors)
}

/// Reads a whole source, line by line. Blank lines and lines whose first word
/// starts with `//` are skipped; every other line must hold one instruction.
/// Lines are numbered from 0 in the errors, and every line is read even after
/// one fails.
pub fn parse(mcassembly: &str) -> (r: Result<Vec<Mnemonic>, Vec<(usize, MCAsmError)>>)
    ensures
        match r {
            Ok(v) => parse_source(mcassembly@) == Ok::<
                Seq<MnemonicView>,
                Seq<(usize, MCAsmError)>,
            >(mnemonic_views(v@)),
            Err(e) => parse_source(mcassembly@) == Err::<
                Seq<MnemonicView>,
                Seq<(usize, MCAsmError)>,
            >(e@),
        },
{
    let (mnemonics, _numbers, errors) = parse_numbered(mcassembly);
    if errors.len() == 0 {
        Ok(mnemonics)
    } else {
        Err(errors)
    }
}

/// The code lines among the first `n` lines, in order.
pub open spec fn code_lines(ls: Seq<Seq<char>>, n: nat) -> Seq<Seq<char>>
    decreases n,
{
    if n == 0 {
        Seq::empty()
    } else if is_code(ls[n - 1]) {
        code_lines(ls, (n - 1) as nat).push(ls[n - 1])
    } else {
        code_lines(ls, (n - 1) as nat)
    }
}

/// The instruction a code line that parses holds.
pub open spec fn instruction_of(line: Seq<char>) -> MnemonicView {
    parse_words(words(line))->Ok_0
}

/// Whether a line is a code line that does not parse.
pub open spec fn is_failing(line: Seq<char>) -> bool {
    is_code(line) && parse_words(words(line)) is Err
}

/// How many of the first `n` lines are code lines that do not parse.
pub open spec fn failing_count(ls: Seq<Seq<char>>, n: nat) -> nat
    decreases n,
{
    if n == 0 {
        0
    } else if is_failing(ls[n - 1]) {
        failing_count(ls, (n - 1) as nat) + 1
    } else {
        failing_count(ls, (n - 1) as nat)
    }
}

proof fn lemma_parse_upto_all_valid(ls: Seq<Seq<char>>, n: nat)
    requires
        n <= ls.len(),
        forall|i: int| 0 <= i < n ==> !is_failing(#[trigger] ls[i]),
    ensures
        parse_upto(ls, n) == (
            code_lines(ls, n).map_values(|l: Seq<char>| instruction_of(l)),
            Seq::<(usize, MCAsmError)>::empty(),
        ),
    decreases n,
{
    if n > 0 {
        lemma_parse_upto_all_valid(ls, (n - 1) as nat);
        assert(!is_failing(ls[n - 1]));
        let prev = code_lines(ls, (n - 1) as nat);
        if is_code(ls[n - 1]) {
            assert(prev.push(ls[n - 1]).map_values(|l: Seq<char>| instruction_of(l))
                =~= prev.map_values(|l: Seq<char>| instruction_of(l)).push(
                instruction_of(ls[n - 1]),
            ));
        }
    }
}

/// Reading a source none of whose code lines fails gives one instruction for
/// each code line, in source order.
pub proof fn lemma_parse_all_valid(src: Seq<char>)
    requires
        forall|i: int| 0 <= i < lines(src).len() ==> !is_failing(#[trigger] lines(src)[i]),
    ensures
        parse_source(src) == Ok::<Seq<MnemonicView>, Seq<(usize, MCAsmError)>>(
            code_lines(lines(src), lines(src).len()).map_values(
                |l: Seq<char>| instruction_of(l),
            ),
        ),
{
    lemma_parse_upto_all_valid(lines(src), lines(src).len());
}

proof fn lemma_parse_upto_errors(ls: Seq<Seq<char>>, n: nat)
    requires
        n <= ls.len(),
        ls.len() <= usize::MAX,
    ensures
        parse_upto(ls, n).1.len() == failing_count(ls, n),
        forall|k: int|
            0 <= k < parse_upto(ls, n).1.len() ==> {
                let (i, e) = #[trigger] parse_upto(ls, n).1[k];
                &&& i < n
                &&& is_code(ls[i as int])
                &&& parse_words(words(ls[i as int])) == Err::<MnemonicView, MCAsmError>(e)
            },
        forall|k1: int, k2: int|
            0 <= k1 < k2 < parse_upto(ls, n).1.len() ==> parse_upto(ls, n).1[k1].0
                < parse_upto(ls, n).1[k2].0,
    decreases n,
{
    if n > 0 {
        lemma_parse_upto_errors(ls, (n - 1) as nat);
    }
}

proof fn lemma_failing_count_positive(ls: Seq<Seq<char>>, n: nat, i: int)
    requires
        0 <= i < n <= ls.len(),
        is_failing(ls[i]),
    ensures
        failing_count(ls, n) > 0,
    decreases n,
{
    if i < n - 1 {
        lemma_failing_count_positive(ls, (n - 1) as nat, i);
    }
}

/// Reading a source with a code line that fails gives exactly one error for
/// each such line, in line order, each with the line's index (from 0) and the
/// error it gives on its own.
pub proof fn lemma_parse_reports_every_failure(src: Seq<char>)
    requires
        lines(src).len() <= usize::MAX,
        exists|i: int| 0 <= i < lines(src).len() && is_failing(#[trigger] lines(src)[i]),
    ensures
        parse_source(src) is Err,
        parse_source(src)->Err_0.len() == failing_count(lines(src), lines(src).len()),
        forall|k: int|
            0 <= k < parse_source(src)->Err_0.len() ==> {
                let (i, e) = #[trigger] parse_source(src)->Err_0[k];
                &&& i < lines(src).len()
                &&& is_code(lines(src)[i as int])
                &&& parse_words(words(lines(src)[i as int])) == Err::<MnemonicView, MCAsmError>(e)
            },
        forall|k1: int, k2: int|
            0 <= k1 < k2 < parse_source(src)->Err_0.len() ==> parse_source(src)->Err_0[k1].0
                < parse_source(src)->Err_0[k2].0,
{
    let ls = lines(src);
    let i = choose|i: int| 0 <= i < ls.len() && is_failing(#[trigger] ls[i]);
    lemma_failing_count_positive(ls, ls.len(), i);
    lemma_parse_upto_errors(ls, ls.len());
}

/// The errors a source's lines give, in line order; empty when every line
/// parses. `parse_source` is `Err` of exactly these when there are any.
pub open spec fn parse_errors(src: Seq<char>) -> Seq<(usize, MCAsmError)> {
    parse_upto(lines(src), lines(src).len()).1
}

/// Whether an error is reported for some line other than `j`.
pub open spec fn not_at_line(j: int) -> spec_fn((usize, MCAsmError)) -> bool {
    |p: (usize, MCAsmError)| p.0 as int != j
}

proof fn lemma_parse_upto_elsewhere(ls1: Seq<Seq<char>>, ls2: Seq<Seq<char>>, j: int, n: nat)
    requires
        n <= ls1.len(),
        ls1.len() == ls2.len(),
        ls1.len() <= usize::MAX,
        forall|i: int| 0 <= i < ls1.len() && i != j ==> ls1[i] == ls2[i],
    ensures
        parse_upto(ls1, n).1.filter(not_at_line(j)) == parse_upto(ls2, n).1.filter(
            not_at_line(j),
        ),
    decreases n,
{
    if n > 0 {
        lemma_parse_upto_elsewhere(ls1, ls2, j, (n - 1) as nat);
        let e1 = parse_upto(ls1, (n - 1) as nat).1;
        let e2 = parse_upto(ls2, (n - 1) as nat).1;
        let f = not_at_line(j);
        if n - 1 == j {
            let l1 = ls1[n - 1];
            let l2 = ls2[n - 1];
            if is_code(l1) && parse_words(words(l1)) is Err {
                e1.lemma_filter_push(((n - 1) as usize, parse_words(words(l1))->Err_0), f);
            }
            if is_code(l2) && parse_words(words(l2)) is Err {
                e2.lemma_filter_push(((n - 1) as usize, parse_words(words(l2))->Err_0), f);
            }
        } else {
            let l = ls1[n - 1];
            assert(ls2[n - 1] == l);
            if is_code(l) && parse_words(words(l)) is Err {
                let x = ((n - 1) as usize, parse_words(words(l))->Err_0);
                e1.lemma_filter_push(x, f);
                e2.lemma_filter_push(x, f);
            }
        }
    }
}

/// The errors reported for a line do not depend on the other lines: two
/// sources whose lines differ at most at line `j` report the same errors, with
/// the same indices and kinds, for every line but `j`.
pub proof fn lemma_errors_independent(src1: Seq<char>, src2: Seq<char>, j: int)
    requires
        lines(src1).len() == lines(src2).len(),
        lines(src1).len() <= usize::MAX,
        forall|i: int|
            0 <= i < lines(src1).len() && i != j ==> lines(src1)[i] == lines(src2)[i],
    ensures
        parse_errors(src1).filter(not_at_line(j)) == parse_errors(src2).filter(not_at_line(j)),
{
    lemma_parse_upto_elsewhere(lines(src1), lines(src2), j, lines(src1).len());
}

} // verus!
