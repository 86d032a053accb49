//! Source lines: the text split into lines, comments (after `;` or `#`)
//! removed, white space trimmed, blank lines dropped, each line with its
//! 0-based number.
use vstd::prelude::*;
use crate::falcon::assembler::chars::{self, find_char, slice_chars, split_chars, trim_chars};

verus! {

/// A line without its comment, trimmed.
pub open spec fn clean(l: Seq<char>) -> Seq<char> {
    chars::trim(chars::before(chars::before(l, ';'), '#'))
}

/// The non-blank cleaned lines of `ls`, numbered by their position in `ls`.
pub open spec fn numbered(ls: Seq<Seq<char>>) -> Seq<(int, Seq<char>)>
    decreases ls.len(),
{
    if ls.len() == 0 {
        seq![]
    } else {
        let r = numbered(ls.drop_last());
        let c = clean(ls.last());
        if c.len() == 0 {
            r
        } else {
            r.push(((ls.len() - 1) as int, c))
        }
    }
}

/// The numbered source lines of `text`.
pub open spec fn source_lines(text: Seq<char>) -> Seq<(int, Seq<char>)> {
    numbered(chars::split_on(text, '\n'))
}

/// The executable source lines and the specified ones agree.
pub open spec fn lines_view(v: Seq<(usize, Vec<char>)>) -> Seq<(int, Seq<char>)> {
    v.map_values(|e: (usize, Vec<char>)| (e.0 as int, e.1@))
}

fn clean_line(l: &[char]) -> (r: Vec<char>)
    ensures
        r@ == clean(l@),
{
    let k = find_char(l, ';');
    let a = slice_chars(l, 0, k);
    let k2 = find_char(a.as_slice(), '#');
    let b = slice_chars(a.as_slice(), 0, k2);
    trim_chars(b.as_slice())
}

/// Splits `text` into numbered, cleaned, non-blank lines.
pub fn preprocess(text: &[char]) -> (r: Vec<(usize, Vec<char>)>)
    ensures
        lines_view(r@) == source_lines(text@),
        forall|i: int| 0 <= i < r@.len() ==> #[trigger] r@[i].0 <= text@.len(),
{
    let pieces = split_chars(text, '\n');
    let ghost ps = pieces@.map_values(|v: Vec<char>| v@);
    proof {
        lemma_split_len(text@, '\n');
    }
    let mut r: Vec<(usize, Vec<char>)> = Vec::new();
    let mut i: usize = 0;
    while i < pieces.len()
        invariant
            i <= pieces@.len(),
            ps == pieces@.map_values(|v: Vec<char>| v@),
            ps == chars::split_on(text@, '\n'),
            pieces@.len() <= text@.len() + 1,
            lines_view(r@) == numbered(ps.subrange(0, i as int)),
            forall|j: int| 0 <= j < r@.len() ==> #[trigger] r@[j].0 < i,
        decreases pieces@.len() - i,
    {
        let c = clean_line(pieces[i].as_slice());
        assert(ps.subrange(0, i + 1).drop_last() =~= ps.subrange(0, i as int));
        assert(ps.subrange(0, i + 1).last() == pieces@[i as int]@);
        if c.len() > 0 {
            r.push((i, c));
        }
        i += 1;
        assert(lines_view(r@) =~= numbered(ps.subrange(0, i as int)));
    }
    assert(ps.subrange(0, i as int) =~= ps);
    r
}

proof fn lemma_split_len(s: Seq<char>, c: char)
    ensures
        chars::split_on(s, c).len() <= s.len() + 1,
    decreases s.len(),
{
    if s.len() > 0 {
        lemma_split_len(s.drop_last(), c);
        chars::lemma_split_nonempty(s.drop_last(), c);
    }
}

} // verus!
