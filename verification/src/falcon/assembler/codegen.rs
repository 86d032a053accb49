//! The assembler's second pass: every text line expanded to its
//! instructions, now that all labels are known, and encoded.
use vstd::prelude::*;
use crate::falcon::assembler::instr::{self, parse_instr};
use crate::falcon::assembler::layout;
use crate::falcon::assembler::operands;
use crate::falcon::assembler::labels::Labels;
use crate::falcon::assembler::layout::{Item, LineKind};
use crate::falcon::assembler::pseudo::{
    self, agrees_seq, all_encodable, parse_la, parse_pop, parse_print, parse_print_string, parse_push,
    parse_read,
};
use crate::falcon::encoder::{self, encode};
use crate::falcon::instruction::Instruction;

verus! {

/// The instructions text line `t` of kind `kind` at address `pc` stands for.
#[verifier::opaque]
pub open spec fn expansion(kind: LineKind, t: Seq<char>, pc: u32, ls: Seq<(Seq<char>, u32)>) -> Result<
    Seq<Instruction>,
    Seq<char>,
> {
    match kind {
        LineKind::Instr => match instr::instr_of(t, pc, ls) {
            Ok(i) => Ok(seq![i]),
            Err(e) => Err(e),
        },
        LineKind::La => pseudo::la_expansion(t, ls),
        LineKind::Push => pseudo::push_expansion(t),
        LineKind::Pop => pseudo::pop_expansion(t),
        LineKind::Print => pseudo::print_expansion(t),
        LineKind::PrintString => pseudo::print_string_expansion(t, ls),
        LineKind::Read => pseudo::read_expansion(t),
    }
}

/// The machine words of encodable instructions.
pub open spec fn machine_words(is: Seq<Instruction>) -> Seq<u32> {
    is.map_values(|i: Instruction| encoder::encoding(i)->Ok_0)
}

/// The machine words of the text items, in order, or the line number and
/// message of the first item that cannot be assembled.
pub open spec fn second_pass(items: Seq<(u32, LineKind, Seq<char>, int)>, ls: Seq<(Seq<char>, u32)>) -> Result<
    Seq<u32>,
    (int, Seq<char>),
>
    decreases items.len(),
{
    if items.len() == 0 {
        Ok(seq![])
    } else {
        match second_pass(items.drop_last(), ls) {
            Err(e) => Err(e),
            Ok(ws) => {
                let it = items.last();
                match expansion(it.1, it.2, it.0, ls) {
                    Err(m) => Err((it.3, m)),
                    Ok(is) => Ok(ws + machine_words(is)),
                }
            },
        }
    }
}

/// The instructions of one text line.
fn expand(kind: LineKind, t: &[char], pc: u32, ls: &Labels) -> (r: Result<Vec<Instruction>, Vec<char>>)
    ensures
        agrees_seq(r, expansion(kind, t@, pc, ls@)),
{
    proof {
        reveal(expansion);
    }
    match kind {
        LineKind::Instr => match parse_instr(t, pc, ls) {
            Ok(i) => {
                let v = vec![i];
                assert(v@ =~= seq![i]);
                Ok(v)
            },
            Err(e) => Err(e),
        },
        LineKind::La => parse_la(t, ls),
        LineKind::Push => parse_push(t),
        LineKind::Pop => parse_pop(t),
        LineKind::Print => parse_print(t),
        LineKind::PrintString => parse_print_string(t, ls),
        LineKind::Read => parse_read(t),
    }
}

/// Appends the machine words of `is` to `words`.
fn encode_all(is: &Vec<Instruction>, words: &mut Vec<u32>)
    requires
        all_encodable(is@),
    ensures
        final(words)@ == old(words)@ + machine_words(is@),
{
    let ghost w0 = words@;
    let mut i: usize = 0;
    while i < is.len()
        invariant
            i <= is@.len(),
            all_encodable(is@),
            words@ == w0 + machine_words(is@.subrange(0, i as int)),
        decreases is@.len() - i,
    {
        assert(encoder::encodable(is@[i as int]));
        match encode(is[i]) {
            Ok(w) => words.push(w),
            Err(_) => {},
        }
        i += 1;
        assert(machine_words(is@.subrange(0, i as int)) =~= machine_words(
            is@.subrange(0, i - 1),
        ).push(encoder::encoding(is@[i - 1])->Ok_0));
    }
    assert(is@.subrange(0, i as int) =~= is@);
}

/// The second pass over the items of the first: the machine words, or the
/// line number and message of the first item that fails.
pub fn run_second_pass(items: &Vec<Item>, ls: &Labels) -> (r: Result<Vec<u32>, (usize, Vec<char>)>)
    ensures
        match second_pass(crate::falcon::assembler::layout::items_view(items@), ls@) {
            Ok(ws) => r matches Ok(v) && v@ == ws,
            Err(e) => r matches Err(f) && f.0 as int == e.0 && f.1@ == e.1,
        },
{
    let ghost its = crate::falcon::assembler::layout::items_view(items@);
    let mut words: Vec<u32> = Vec::new();
    let mut i: usize = 0;
    while i < items.len()
        invariant
            i <= items@.len(),
            its == crate::falcon::assembler::layout::items_view(items@),
            second_pass(its.subrange(0, i as int), ls@) == Ok::<Seq<u32>, (int, Seq<char>)>(words@),
        decreases items@.len() - i,
    {
        let ghost sub = its.subrange(0, i + 1);
        assert(sub.drop_last() =~= its.subrange(0, i as int));
        let it = &items[i];
        assert(sub.last() == (it.pc, it.kind, it.text@, it.line as int));
        match expand(it.kind, it.text.as_slice(), it.pc, ls) {
            Err(m) => {
                proof {
                    lemma_second_pass_err(its, i + 1, ls@);
                }
                return Err((it.line, m));
            },
            Ok(is) => {
                encode_all(&is, &mut words);
            },
        }
        i += 1;
    }
    assert(its.subrange(0, i as int) =~= its);
    Ok(words)
}

/// Once an item fails, the second pass fails with that item's error.
proof fn lemma_second_pass_err(
    its: Seq<(u32, LineKind, Seq<char>, int)>,
    j: int,
    ls: Seq<(Seq<char>, u32)>,
)
    requires
        0 <= j <= its.len(),
        second_pass(its.subrange(0, j), ls) is Err,
    ensures
        second_pass(its, ls) == second_pass(its.subrange(0, j), ls),
    decreases its.len() - j,
{
    if j < its.len() {
        assert(its.subrange(0, j + 1).drop_last() =~= its.subrange(0, j));
        lemma_second_pass_err(its, j + 1, ls);
    } else {
        assert(its.subrange(0, j) =~= its);
    }
}

// ---------- sizes ----------

/// Whether the two passes read the operand of `printString` line `t` the
/// same way, as a register or not. The first pass decides the line's size
/// from the text after the mnemonic as written; the second reads the
/// operand from the line's words.
pub open spec fn print_string_agrees(t: Seq<char>) -> bool {
    let a = layout::print_string_operands(t);
    let b = instr::tail_operands(t);
    (a.len() == 1 && operands::reg_number(a[0]) is Some) == (b.len() == 1
        && operands::reg_number(b[0]) is Some)
}

/// Whether every `printString` item of `its` is read the same way by both passes.
pub open spec fn print_strings_agree(its: Seq<(u32, LineKind, Seq<char>, int)>) -> bool {
    forall|k: int|
        0 <= k < its.len() && #[trigger] its[k].1 == LineKind::PrintString ==> print_string_agrees(
            its[k].2,
        )
}

/// Whether every item has the kind of its text.
pub open spec fn kinds_match(its: Seq<(u32, LineKind, Seq<char>, int)>) -> bool {
    forall|k: int| 0 <= k < its.len() ==> #[trigger] its[k].1 == layout::text_kind(its[k].2).0
}

/// A line expands to one instruction per four bytes the first pass gave it.
proof fn lemma_expansion_size(kind: LineKind, t: Seq<char>, pc: u32, ls: Seq<(Seq<char>, u32)>)
    requires
        kind == layout::text_kind(t).0,
        expansion(kind, t, pc, ls) is Ok,
        kind == LineKind::PrintString ==> print_string_agrees(t),
    ensures
        4 * expansion(kind, t, pc, ls)->Ok_0.len() == layout::text_kind(t).1,
{
    reveal(expansion);
    reveal(pseudo::la_expansion);
}

/// The second pass over a prefix of the items succeeds too, gives a prefix
/// of the words, and four bytes per word of what the first pass laid out.
proof fn lemma_second_pass_prefix(its: Seq<(u32, LineKind, Seq<char>, int)>, ls: Seq<(Seq<char>, u32)>)
    requires
        second_pass(its, ls) is Ok,
        kinds_match(its),
        print_strings_agree(its),
    ensures
        4 * second_pass(its, ls)->Ok_0.len() == layout::text_size(its),
        forall|j: int|
            0 <= j <= its.len() ==> {
                let w = #[trigger] second_pass(its.subrange(0, j), ls);
                &&& w is Ok
                &&& w->Ok_0.len() <= second_pass(its, ls)->Ok_0.len()
                &&& second_pass(its, ls)->Ok_0.subrange(0, w->Ok_0.len() as int) == w->Ok_0
                &&& 4 * w->Ok_0.len() == layout::text_size(its.subrange(0, j))
            },
    decreases its.len(),
{
    let ws = second_pass(its, ls)->Ok_0;
    if its.len() == 0 {
        assert(its.subrange(0, 0) =~= its);
        assert(ws.subrange(0, 0) =~= ws);
    } else {
        let pre = its.drop_last();
        assert(kinds_match(pre)) by {
            assert forall|k: int| 0 <= k < pre.len() implies #[trigger] pre[k].1 == layout::text_kind(
                pre[k].2,
            ).0 by {
                assert(pre[k] == its[k]);
            }
        }
        assert(print_strings_agree(pre)) by {
            assert forall|k: int|
                0 <= k < pre.len() && #[trigger] pre[k].1 == LineKind::PrintString implies print_string_agrees(
                pre[k].2,
            ) by {
                assert(pre[k] == its[k]);
            }
        }
        lemma_second_pass_prefix(pre, ls);
        let wp = second_pass(pre, ls)->Ok_0;
        let it = its.last();
        assert(its[its.len() - 1] == it);
        lemma_expansion_size(it.1, it.2, it.0, ls);
        assert(ws == wp + machine_words(expansion(it.1, it.2, it.0, ls)->Ok_0));
        assert forall|j: int| 0 <= j <= its.len() implies {
            let w = #[trigger] second_pass(its.subrange(0, j), ls);
            &&& w is Ok
            &&& w->Ok_0.len() <= ws.len()
            &&& ws.subrange(0, w->Ok_0.len() as int) == w->Ok_0
            &&& 4 * w->Ok_0.len() == layout::text_size(its.subrange(0, j))
        } by {
            if j == its.len() {
                assert(its.subrange(0, j) =~= its);
                assert(ws.subrange(0, ws.len() as int) =~= ws);
            } else {
                assert(its.subrange(0, j) =~= pre.subrange(0, j));
                let w = second_pass(pre.subrange(0, j), ls);
                assert(wp.subrange(0, w->Ok_0.len() as int) == w->Ok_0);
                assert(ws.subrange(0, w->Ok_0.len() as int) =~= wp.subrange(0, w->Ok_0.len() as int));
            }
        }
    }
}

/// The second pass over items the first pass laid out.
pub proof fn lemma_second_pass_addresses(
    its: Seq<(u32, LineKind, Seq<char>, int)>,
    ls: Seq<(Seq<char>, u32)>,
    base: u32,
)
    requires
        second_pass(its, ls) is Ok,
        print_strings_agree(its),
        forall|k: int|
            #![trigger its[k]]
            0 <= k < its.len() ==> its[k].1 == layout::text_kind(its[k].2).0 && its[k].0
                == crate::falcon::machine::wrap32(base + layout::text_size(its.subrange(0, k))),
    ensures
        4 * second_pass(its, ls)->Ok_0.len() == layout::text_size(its),
        forall|k: int|
            0 <= k < its.len() ==> {
                let w = #[trigger] second_pass(its.subrange(0, k), ls);
                &&& w is Ok
                &&& second_pass(its, ls)->Ok_0.subrange(0, w->Ok_0.len() as int) == w->Ok_0
                &&& its[k].0 == crate::falcon::machine::wrap32(base + 4 * w->Ok_0.len())
            },
{
    assert(kinds_match(its)) by {
        assert forall|k: int| 0 <= k < its.len() implies #[trigger] its[k].1 == layout::text_kind(
            its[k].2,
        ).0 by {
            assert(its[k].1 == layout::text_kind(its[k].2).0);
        }
    }
    lemma_second_pass_prefix(its, ls);
    assert forall|k: int| 0 <= k < its.len() implies {
        let w = #[trigger] second_pass(its.subrange(0, k), ls);
        &&& w is Ok
        &&& second_pass(its, ls)->Ok_0.subrange(0, w->Ok_0.len() as int) == w->Ok_0
        &&& its[k].0 == crate::falcon::machine::wrap32(base + 4 * w->Ok_0.len())
    } by {
        assert(its[k].0 == crate::falcon::machine::wrap32(base + layout::text_size(its.subrange(0, k))));
    }
}

} // verus!
