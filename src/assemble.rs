//! Assembling a whole source into the text of its commands.
use vstd::prelude::*;

use crate::error::MCAsmError;
use crate::opecode::{join, lower, text_of, MnemonicView};
use crate::parser::{mnemonic_views, ok_lines, parse_numbered, parse_upto};
use crate::text::lines;

verus! {

/// The command texts of the first `n` instructions, one for each, or the first
/// instruction that fails to lower, as the index of its line (from `at`) and
/// its error.
pub open spec fn lower_upto(ms: Seq<MnemonicView>, at: Seq<usize>, n: nat) -> Result<
    Seq<Seq<char>>,
    (usize, MCAsmError),
>
    decreases n,
{
    if n == 0 {
        Ok(Seq::empty())
    } else {
        match lower_upto(ms, at, (n - 1) as nat) {
            Err(p) => Err(p),
            Ok(prev) => match lower(ms[n - 1]) {
                Ok(v) => Ok(prev.push(text_of(v))),
                Err(e) => Err((at[n - 1], e)),
            },
        }
    }
}

proof fn lemma_lower_upto_stops(ms: Seq<MnemonicView>, at: Seq<usize>, k: nat, n: nat)
    requires
        k <= n,
        lower_upto(ms, at, k) is Err,
    ensures
        lower_upto(ms, at, n) == lower_upto(ms, at, k),
    decreases n,
{
    if k < n {
        lemma_lower_upto_stops(ms, at, k, (n - 1) as nat);
    }
}

/// What assembling a source gives: the error of every line that does not
/// parse; else the error of the first instruction that does not lower, with its
/// line; else the commands of all instructions, one per line.
pub open spec fn compile_source(src: Seq<char>) -> Result<Seq<char>, Seq<(usize, MCAsmError)>> {
    let ls = lines(src);
    let (ms, errs) = parse_upto(ls, ls.len());
    if errs.len() > 0 {
        Err(errs)
    } else {
        match lower_upto(ms, ok_lines(ls, ls.len()), ms.len()) {
            Ok(texts) => Ok(join(texts, "\n"@)),
            Err(p) => Err(seq![p]),
        }
    }
}

/// Reads a whole source and writes out its commands, one per line. When lines
/// do not parse, returns the error of each of them; when an instruction does
/// not lower, stops there and returns its error with its line index.
pub fn compile(assembly: &str) -> (r: Result<String, Vec<(usize, MCAsmError)>>)
    ensures
        match r {
            Ok(s) => compile_source(assembly@) == Ok::<Seq<char>, Seq<(usize, MCAsmError)>>(s@),
            Err(e) => compile_source(assembly@) == Err::<Seq<char>, Seq<(usize, MCAsmError)>>(
                e@,
            ),
        },
{
    let (ms, numbers, errors) = parse_numbered(assembly);
    if errors.len() > 0 {
        return Err(errors);
    }
    let ghost mv = mnemonic_views(ms@);
    let ghost at = numbers@;
    let mut out = String::new();
    let mut i: usize = 0;
    while i < ms.len()
        invariant
            i <= ms.len(),
            mv == mnemonic_views(ms@),
            at == numbers@,
            numbers@.len() == ms@.len(),
            parse_upto(lines(assembly@), lines(assembly@).len()).0 == mv,
            parse_upto(lines(assembly@), lines(assembly@).len()).1.len() == 0,
            at == ok_lines(lines(assembly@), lines(assembly@).len()),
            lower_upto(mv, at, i as nat) is Ok,
            out@ == join(lower_upto(mv, at, i as nat)->Ok_0, "\n"@),
            lower_upto(mv, at, i as nat)->Ok_0.len() == i,
        decreases ms.len() - i,
    {
        assert(mv[i as int] == ms@[i as int]@);
        match ms[i].to_string() {
            Ok(text) => {
                if i > 0 {
                    out.append("\n");
                }
                out.append(text.as_str());
                proof {
                    let t = lower_upto(mv, at, (i + 1) as nat)->Ok_0;
                    assert(t.drop_last() =~= lower_upto(mv, at, i as nat)->Ok_0);
                    assert(out@ =~= join(t, "\n"@));
                }
            },
            Err(e) => {
                let mut one: Vec<(usize, MCAsmError)> = Vec::new();
                one.push((numbers[i], e));
                assert(one@ =~= seq![(at[i as int], e)]);
                proof {
                    assert(lower_upto(mv, at, (i + 1) as nat) == Err::<
                        Seq<Seq<char>>,
                        (usize, MCAsmError),
                    >((at[i as int], e)));
                    lemma_lower_upto_stops(mv, at, (i + 1) as nat, mv.len());
                    assert(mv.len() == ms@.len());
                    assert(compile_source(assembly@) == Err::<Seq<char>, Seq<(usize, MCAsmError)>>(
                        seq![(at[i as int], e)],
                    ));
                }
                return Err(one);
            },
        }
        i = i + 1;
    }
    Ok(out)
}

} // verus!
