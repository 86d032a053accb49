//! The source being edited: its lines, the cursor and the selection anchor.
use vstd::prelude::*;
use crate::falcon::assembler::chars::{self, push_chars, push_text, slice_chars, split_chars};
use crate::text::{chars_of, string_of};
use crate::ui::console::texts;

verus! {

/// The lines `ls` joined with newlines.
pub open spec fn joined(ls: Seq<Seq<char>>) -> Seq<char>
    decreases ls.len(),
{
    if ls.len() == 0 {
        seq![]
    } else if ls.len() == 1 {
        ls[0]
    } else {
        joined(ls.drop_last()) + seq!['\n'] + ls.last()
    }
}

/// The lines of the program the editor opens with.
pub open spec fn sample_lines() -> Seq<Seq<char>> {
    seq![
        ".data"@,
        "msg: .asciz \"Hello, Falcon!\""@,
        ".text"@,
        "main:"@,
        "    printString msg"@,
        "    li t0, 5"@,
        "    print t0"@,
        "    ebreak"@,
    ]
}

/// Lines and cursor as they were before an edit, for undo.
pub struct Snapshot {
    pub lines: Vec<String>,
    pub row: usize,
    pub col: usize,
}

/// Rows a page up or page down moves.
pub const PAGE_ROWS: usize = 10;

/// A change to the text at the cursor.
#[derive(Clone, Copy, Debug, PartialEq, Eq, Structural)]
pub enum Edit {
    Insert(char),
    Tab,
    Backspace,
    Delete,
    Enter,
}

/// Lines and cursor after edit `e` on tidy lines `ls` with the cursor at `(r, c)`.
pub open spec fn edited(ls: Seq<Seq<char>>, r: int, c: int, e: Edit) -> (Seq<Seq<char>>, int, int) {
    let line = ls[r];
    let n = line.len() as int;
    match e {
        Edit::Insert(ch) => (ls.update(r, line.subrange(0, c).push(ch) + line.subrange(c, n)), r, c + 1),
        Edit::Tab => (ls.update(r, line.subrange(0, c) + "    "@ + line.subrange(c, n)), r, c + 4),
        Edit::Backspace => if c > 0 {
            (ls.update(r, line.subrange(0, c - 1) + line.subrange(c, n)), r, c - 1)
        } else if r > 0 {
            (ls.update(r - 1, ls[r - 1] + line).remove(r), r - 1, ls[r - 1].len() as int)
        } else {
            (ls, r, c)
        },
        Edit::Delete => if c < n {
            (ls.update(r, line.subrange(0, c) + line.subrange(c + 1, n)), r, c)
        } else if r + 1 < ls.len() {
            (ls.update(r, line + ls[r + 1]).remove(r + 1), r, c)
        } else {
            (ls, r, c)
        },
        Edit::Enter => (ls.update(r, line.subrange(0, c)).insert(r + 1, line.subrange(c, n)), r + 1, 0),
    }
}

/// `b` is `a` after edit `e`: the lines made tidy, the tidy state kept in
/// the history, the edit applied, and the selection dropped.
pub open spec fn text_edited(a: &Editor, b: &Editor, e: Edit) -> bool {
    let (ls, r, c) = tidy(texts(a.lines@), a.cursor_row as int, a.cursor_col as int);
    let (ls2, r2, c2) = edited(ls, r, c, e);
    &&& texts(b.lines@) == ls2
    &&& (b.cursor_row as int, b.cursor_col as int) == (r2, c2)
    &&& b.selection_anchor is None
    &&& history_view(b.history@) == history_view(a.history@).push((ls, r, c))
}

/// Characters before line `r` in the joined text, newlines included.
pub open spec fn prefix_len(ls: Seq<Seq<char>>, r: int) -> int
    decreases r,
{
    if r <= 0 {
        0
    } else {
        prefix_len(ls, r - 1) + ls[r - 1].len() + 1
    }
}

/// Position of line `r`, column `c` in the joined text.
pub open spec fn offset(ls: Seq<Seq<char>>, r: int, c: int) -> int {
    prefix_len(ls, r) + c
}

/// The selected text: what lies in the joined text between the anchor and
/// the cursor (both first placed on the lines), when they differ.
pub open spec fn selection(e: &Editor) -> Option<Seq<char>> {
    match e.selection_anchor {
        None => None,
        Some((ar, ac)) => {
            let (ls, r, c) = tidy(texts(e.lines@), e.cursor_row as int, e.cursor_col as int);
            let (_, r2, c2) = tidy(texts(e.lines@), ar as int, ac as int);
            let a = offset(ls, r2, c2);
            let b = offset(ls, r, c);
            if a == b {
                None
            } else if a < b {
                Some(joined(ls).subrange(a, b))
            } else {
                Some(joined(ls).subrange(b, a))
            }
        },
    }
}

proof fn lemma_prefix_drop_last(ls: Seq<Seq<char>>, k: int)
    requires
        0 <= k < ls.len(),
    ensures
        prefix_len(ls.drop_last(), k) == prefix_len(ls, k),
    decreases k,
{
    if k > 0 {
        lemma_prefix_drop_last(ls, k - 1);
    }
}

/// The joined text ends with the last line.
proof fn lemma_joined_len(ls: Seq<Seq<char>>)
    requires
        ls.len() >= 1,
    ensures
        joined(ls).len() == prefix_len(ls, ls.len() - 1) + ls[ls.len() - 1].len(),
    decreases ls.len(),
{
    if ls.len() > 1 {
        let dl = ls.drop_last();
        lemma_joined_len(dl);
        lemma_prefix_drop_last(ls, ls.len() - 2);
    }
}

/// Every line ends inside the joined text.
proof fn lemma_line_end_bound(ls: Seq<Seq<char>>, r: int)
    requires
        0 <= r < ls.len(),
    ensures
        prefix_len(ls, r) + ls[r].len() <= joined(ls).len(),
    decreases ls.len() - r,
{
    if r + 1 < ls.len() {
        lemma_line_end_bound(ls, r + 1);
    } else {
        lemma_joined_len(ls);
    }
}

/// `s` without one trailing carriage return.
pub open spec fn strip_cr(s: Seq<char>) -> Seq<char> {
    if s.len() > 0 && s.last() == '\r' {
        s.drop_last()
    } else {
        s
    }
}

/// The lines of text `t` (`str::lines`): split at `\n`, a `\r` before a
/// `\n` dropped, and no empty line after a final `\n`.
pub open spec fn text_lines(t: Seq<char>) -> Seq<Seq<char>> {
    let ps = chars::split_on(t, '\n');
    let n = ps.len() as int;
    let k = if ps[n - 1].len() == 0 {
        n - 1
    } else {
        n
    };
    Seq::new(k as nat, |i: int| if i < n - 1 { strip_cr(ps[i]) } else { ps[i] })
}

/// `b` is `a` after a cursor move `m`, extending the selection when
/// `select` holds (starting it at the cursor if none is started) and
/// dropping it otherwise.
pub open spec fn moved_selecting(a: &Editor, b: &Editor, m: Motion, select: bool) -> bool {
    let (ls, r, c) = tidy(texts(a.lines@), a.cursor_row as int, a.cursor_col as int);
    &&& texts(b.lines@) == ls
    &&& (b.cursor_row as int, b.cursor_col as int) == moved(ls, r, c, m)
    &&& b.selection_anchor == if !select {
        None
    } else if a.selection_anchor is None {
        Some((r as usize, c as usize))
    } else {
        a.selection_anchor
    }
    &&& history_view(b.history@) == history_view(a.history@)
}

/// `b` is `a` after undo in the editor.
pub open spec fn undone(a: &Editor, b: &Editor) -> bool {
    &&& a.history@.len() > 0 ==> {
        let s = history_view(a.history@).last();
        &&& b.model() == s.0
        &&& b.cursor_row as int == s.1
        &&& b.cursor_col as int == s.2
        &&& b.selection_anchor is None
        &&& history_view(b.history@) == history_view(a.history@).drop_last()
    }
    &&& a.history@.len() == 0 ==> {
        &&& b.model() == a.model()
        &&& b.cursor_row == a.cursor_row
        &&& b.cursor_col == a.cursor_col
        &&& b.selection_anchor == a.selection_anchor
        &&& b.history@.len() == 0
    }
}

/// `b` is `a` with everything selected.
pub open spec fn all_selected(a: &Editor, b: &Editor) -> bool {
    let (ls, _, _) = tidy(a.model(), a.cursor_row as int, a.cursor_col as int);
    &&& b.model() == ls
    &&& b.cursor_row as int == ls.len() - 1
    &&& b.cursor_col as int == ls[ls.len() - 1].len()
    &&& b.selection_anchor == Some((0usize, 0usize))
    &&& history_view(b.history@) == history_view(a.history@)
}

/// `b` is `a` after the cursor move `m`: the lines made tidy, the cursor
/// moved, the selection anchor and the history kept.
pub open spec fn cursor_moved(a: &Editor, b: &Editor, m: Motion) -> bool {
    let (ls, r, c) = tidy(texts(a.lines@), a.cursor_row as int, a.cursor_col as int);
    &&& texts(b.lines@) == ls
    &&& (b.cursor_row as int, b.cursor_col as int) == moved(ls, r, c, m)
    &&& placed(texts(b.lines@), b.cursor_row as int, b.cursor_col as int)
    &&& b.selection_anchor == a.selection_anchor
    &&& history_view(b.history@) == history_view(a.history@)
}

pub struct Editor {
    pub lines: Vec<String>,
    pub cursor_row: usize,
    pub cursor_col: usize,
    pub selection_anchor: Option<(usize, usize)>,
    pub history: Vec<Snapshot>,
}

/// The lines, row and column of a snapshot.
pub open spec fn snap_view(s: Snapshot) -> (Seq<Seq<char>>, int, int) {
    (texts(s.lines@), s.row as int, s.col as int)
}

/// The snapshots of a history, oldest first.
pub open spec fn history_view(h: Seq<Snapshot>) -> Seq<(Seq<Seq<char>>, int, int)> {
    h.map_values(|s: Snapshot| snap_view(s))
}

/// Length of line `r`, or 0 when there is no such line.
pub open spec fn line_len(ls: Seq<Seq<char>>, r: int) -> int {
    if 0 <= r < ls.len() {
        ls[r].len() as int
    } else {
        0
    }
}

/// At least one line, and the cursor on a line and within it (or at its end).
pub open spec fn tidy(ls: Seq<Seq<char>>, r: int, c: int) -> (Seq<Seq<char>>, int, int) {
    let ls2 = if ls.len() == 0 {
        seq![Seq::<char>::empty()]
    } else {
        ls
    };
    let r2 = if r < ls2.len() {
        r
    } else {
        ls2.len() - 1
    };
    let c2 = if c <= ls2[r2].len() {
        c
    } else {
        ls2[r2].len() as int
    };
    (ls2, r2, c2)
}

/// Whether the cursor `(r, c)` lies on one of the lines `ls`.
pub open spec fn placed(ls: Seq<Seq<char>>, r: int, c: int) -> bool {
    ls.len() >= 1 && 0 <= r < ls.len() && 0 <= c <= ls[r].len()
}

pub open spec fn min(a: int, b: int) -> int {
    if a <= b {
        a
    } else {
        b
    }
}

/// Cursor after a move left: back one character, or to the end of the previous line.
pub open spec fn left_of(ls: Seq<Seq<char>>, r: int, c: int) -> (int, int) {
    if c > 0 {
        (r, c - 1)
    } else if r > 0 {
        (r - 1, line_len(ls, r - 1))
    } else {
        (r, c)
    }
}

/// Cursor after a move right: on one character, or to the start of the next line.
pub open spec fn right_of(ls: Seq<Seq<char>>, r: int, c: int) -> (int, int) {
    if c < line_len(ls, r) {
        (r, c + 1)
    } else if r + 1 < ls.len() {
        (r + 1, 0)
    } else {
        (r, c)
    }
}

/// Cursor moved to row `nr`, keeping the column where that line allows.
pub open spec fn to_row(ls: Seq<Seq<char>>, nr: int, c: int) -> (int, int) {
    (nr, min(c, line_len(ls, nr)))
}

/// Cursor after a move up.
pub open spec fn up_of(ls: Seq<Seq<char>>, r: int, c: int) -> (int, int) {
    if r > 0 {
        to_row(ls, r - 1, c)
    } else {
        (r, c)
    }
}

/// Cursor after a move down.
pub open spec fn down_of(ls: Seq<Seq<char>>, r: int, c: int) -> (int, int) {
    if r + 1 < ls.len() {
        to_row(ls, r + 1, c)
    } else {
        (r, c)
    }
}

/// Cursor after a page up.
pub open spec fn page_up_of(ls: Seq<Seq<char>>, r: int, c: int) -> (int, int) {
    to_row(ls, if r >= PAGE_ROWS { r - PAGE_ROWS } else { 0 }, c)
}

/// Cursor after a page down.
pub open spec fn page_down_of(ls: Seq<Seq<char>>, r: int, c: int) -> (int, int) {
    to_row(ls, min(r + PAGE_ROWS, ls.len() - 1), c)
}

/// Which way a cursor move goes.
#[derive(Clone, Copy, Debug, PartialEq, Eq, Structural)]
pub enum Motion {
    Left,
    Right,
    Up,
    Down,
    Home,
    End,
    PageUp,
    PageDown,
}

/// Cursor after `m` on tidy lines.
pub open spec fn moved(ls: Seq<Seq<char>>, r: int, c: int, m: Motion) -> (int, int) {
    match m {
        Motion::Left => left_of(ls, r, c),
        Motion::Right => right_of(ls, r, c),
        Motion::Up => up_of(ls, r, c),
        Motion::Down => down_of(ls, r, c),
        Motion::Home => (r, 0),
        Motion::End => (r, line_len(ls, r)),
        Motion::PageUp => page_up_of(ls, r, c),
        Motion::PageDown => page_down_of(ls, r, c),
    }
}

impl Editor {
    /// An editor holding a short sample program, cursor at the start.
    pub fn with_sample() -> (e: Self)
        ensures
            texts(e.lines@) == sample_lines(),
            e.cursor_row == 0,
            e.cursor_col == 0,
            e.selection_anchor is None,
            e.history@.len() == 0,
    {
        let lines = vec![
            ".data".to_owned(),
            "msg: .asciz \"Hello, Falcon!\"".to_owned(),
            ".text".to_owned(),
            "main:".to_owned(),
            "    printString msg".to_owned(),
            "    li t0, 5".to_owned(),
            "    print t0".to_owned(),
            "    ebreak".to_owned(),
        ];
        assert(texts(lines@) =~= sample_lines());
        Editor { lines, cursor_row: 0, cursor_col: 0, selection_anchor: None, history: Vec::new() }
    }

    /// The whole text: the lines joined with newlines.
    pub fn text(&self) -> (s: String)
        ensures
            s@ == joined(texts(self.lines@)),
    {
        let n = self.lines.len();
        let s = join_lines(&self.lines, 0, n);
        assert(texts(self.lines@).subrange(0, n as int) =~= texts(self.lines@));
        s
    }

    /// The lines as character sequences.
    pub open spec fn model(&self) -> Seq<Seq<char>> {
        texts(self.lines@)
    }

    /// Number of characters of `line`.
    pub fn char_count(line: &str) -> (n: usize)
        ensures
            n == line@.len(),
    {
        chars_of(line).len()
    }

    fn line_chars(&self, r: usize) -> (cs: Vec<char>)
        requires
            r < self.lines@.len(),
        ensures
            cs@ == self.model()[r as int],
    {
        chars_of(self.lines[r].as_str())
    }

    fn put_line(&mut self, r: usize, cs: &[char])
        requires
            r < old(self).lines@.len(),
        ensures
            final(self).model() == old(self).model().update(r as int, cs@),
            final(self).cursor_row == old(self).cursor_row,
            final(self).cursor_col == old(self).cursor_col,
            final(self).selection_anchor == old(self).selection_anchor,
            history_view(final(self).history@) == history_view(old(self).history@),
    {
        let line = string_of(cs);
        self.lines.set(r, line);
        assert(self.model() =~= old(self).model().update(r as int, cs@));
    }

    /// Makes sure there is a line and that the cursor is on a line, within it.
    fn tidy_up(&mut self)
        ensures
            (final(self).model(), final(self).cursor_row as int, final(self).cursor_col as int) == tidy(
                old(self).model(),
                old(self).cursor_row as int,
                old(self).cursor_col as int,
            ),
            final(self).selection_anchor == old(self).selection_anchor,
            history_view(final(self).history@) == history_view(old(self).history@),
    {
        if self.lines.len() == 0 {
            self.lines.push(String::new());
            assert(self.model() =~= seq![Seq::<char>::empty()]);
        }
        if self.cursor_row >= self.lines.len() {
            self.cursor_row = self.lines.len() - 1;
        }
        let n = self.line_chars(self.cursor_row).len();
        if self.cursor_col > n {
            self.cursor_col = n;
        }
    }

    /// Moves the cursor by `m`, first making sure it is on a line.
    pub fn move_cursor(&mut self, m: Motion)
        ensures
            cursor_moved(old(self), final(self), m),
    {
        self.tidy_up();
        let n = self.lines.len();
        let r = self.cursor_row;
        let c = self.cursor_col;
        let len = self.line_chars(r).len();
        match m {
            Motion::Left => {
                if c > 0 {
                    self.cursor_col = c - 1;
                } else if r > 0 {
                    self.cursor_row = r - 1;
                    self.cursor_col = self.line_chars(r - 1).len();
                }
            },
            Motion::Right => {
                if c < len {
                    self.cursor_col = c + 1;
                } else if r + 1 < n {
                    self.cursor_row = r + 1;
                    self.cursor_col = 0;
                }
            },
            Motion::Up => {
                if r > 0 {
                    self.go_to_row(r - 1, c);
                }
            },
            Motion::Down => {
                if r + 1 < n {
                    self.go_to_row(r + 1, c);
                }
            },
            Motion::Home => {
                self.cursor_col = 0;
            },
            Motion::End => {
                self.cursor_col = len;
            },
            Motion::PageUp => {
                let nr = if r >= PAGE_ROWS {
                    r - PAGE_ROWS
                } else {
                    0
                };
                self.go_to_row(nr, c);
            },
            Motion::PageDown => {
                let far = r.saturating_add(PAGE_ROWS);
                let nr = if far < n - 1 {
                    far
                } else {
                    n - 1
                };
                self.go_to_row(nr, c);
            },
        }
    }

    fn go_to_row(&mut self, nr: usize, c: usize)
        requires
            nr < old(self).lines@.len(),
        ensures
            final(self).model() == old(self).model(),
            (final(self).cursor_row as int, final(self).cursor_col as int) == to_row(
                old(self).model(),
                nr as int,
                c as int,
            ),
            final(self).selection_anchor == old(self).selection_anchor,
            history_view(final(self).history@) == history_view(old(self).history@),
    {
        let len = self.line_chars(nr).len();
        self.cursor_row = nr;
        self.cursor_col = if c <= len {
            c
        } else {
            len
        };
    }

    /// Moves the cursor one character left, or to the end of the previous line.
    pub fn move_left(&mut self)
        ensures
            cursor_moved(old(self), final(self), Motion::Left),
    {
        self.move_cursor(Motion::Left);
    }

    /// Moves the cursor one character right, or to the start of the next line.
    pub fn move_right(&mut self)
        ensures
            cursor_moved(old(self), final(self), Motion::Right),
    {
        self.move_cursor(Motion::Right);
    }

    /// Moves the cursor one line up.
    pub fn move_up(&mut self)
        ensures
            cursor_moved(old(self), final(self), Motion::Up),
    {
        self.move_cursor(Motion::Up);
    }

    /// Moves the cursor one line down.
    pub fn move_down(&mut self)
        ensures
            cursor_moved(old(self), final(self), Motion::Down),
    {
        self.move_cursor(Motion::Down);
    }

    /// Moves the cursor to the start of its line.
    pub fn move_home(&mut self)
        ensures
            cursor_moved(old(self), final(self), Motion::Home),
    {
        self.move_cursor(Motion::Home);
    }

    /// Moves the cursor to the end of its line.
    pub fn move_end(&mut self)
        ensures
            cursor_moved(old(self), final(self), Motion::End),
    {
        self.move_cursor(Motion::End);
    }

    /// Moves the cursor a page up.
    pub fn page_up(&mut self)
        ensures
            cursor_moved(old(self), final(self), Motion::PageUp),
    {
        self.move_cursor(Motion::PageUp);
    }

    /// Moves the cursor a page down.
    pub fn page_down(&mut self)
        ensures
            cursor_moved(old(self), final(self), Motion::PageDown),
    {
        self.move_cursor(Motion::PageDown);
    }


    /// Keeps the current lines and cursor for undo.
    fn remember(&mut self)
        ensures
            history_view(final(self).history@) == history_view(old(self).history@).push(
                (old(self).model(), old(self).cursor_row as int, old(self).cursor_col as int),
            ),
            final(self).model() == old(self).model(),
            final(self).cursor_row == old(self).cursor_row,
            final(self).cursor_col == old(self).cursor_col,
            final(self).selection_anchor == old(self).selection_anchor,
    {
        let snap = Snapshot { lines: copy_lines(&self.lines), row: self.cursor_row, col: self.cursor_col };
        self.history.push(snap);
        assert(history_view(self.history@) =~= history_view(old(self).history@).push(
            (old(self).model(), old(self).cursor_row as int, old(self).cursor_col as int),
        ));
    }

    /// Applies edit `e` at the cursor, keeping the state before it for undo.
    pub fn apply_edit(&mut self, e: Edit)
        ensures
            text_edited(old(self), final(self), e),
    {
        self.tidy_up();
        self.remember();
        let ghost ls = self.model();
        let r = self.cursor_row;
        let c = self.cursor_col;
        let total = self.lines.len();
        let line = self.line_chars(r);
        let n = line.len();
        match e {
            Edit::Insert(ch) => {
                let mut nl = slice_chars(line.as_slice(), 0, c);
                nl.push(ch);
                let tail = slice_chars(line.as_slice(), c, n);
                push_chars(&mut nl, tail.as_slice());
                let _ = nl.len();
                self.put_line(r, nl.as_slice());
                self.cursor_col = c + 1;
            },
            Edit::Tab => {
                let mut nl = slice_chars(line.as_slice(), 0, c);
                proof {
                    reveal_strlit("    ");
                }
                push_text(&mut nl, "    ");
                let tail = slice_chars(line.as_slice(), c, n);
                push_chars(&mut nl, tail.as_slice());
                let _ = nl.len();
                self.put_line(r, nl.as_slice());
                self.cursor_col = c + 4;
            },
            Edit::Backspace => {
                if c > 0 {
                    let mut nl = slice_chars(line.as_slice(), 0, c - 1);
                    let tail = slice_chars(line.as_slice(), c, n);
                    push_chars(&mut nl, tail.as_slice());
                    self.put_line(r, nl.as_slice());
                    self.cursor_col = c - 1;
                } else if r > 0 {
                    let mut prev = self.line_chars(r - 1);
                    let plen = prev.len();
                    push_chars(&mut prev, line.as_slice());
                    self.put_line(r - 1, prev.as_slice());
                    assert(self.model().len() == total);
                    self.lines.remove(r);
                    assert(self.model() =~= ls.update(r - 1, ls[r - 1] + ls[r as int]).remove(r as int));
                    self.cursor_row = r - 1;
                    self.cursor_col = plen;
                }
            },
            Edit::Delete => {
                if c < n {
                    let mut nl = slice_chars(line.as_slice(), 0, c);
                    let tail = slice_chars(line.as_slice(), c + 1, n);
                    push_chars(&mut nl, tail.as_slice());
                    self.put_line(r, nl.as_slice());
                } else if r + 1 < total {
                    let next = self.line_chars(r + 1);
                    let mut nl = line;
                    push_chars(&mut nl, next.as_slice());
                    self.put_line(r, nl.as_slice());
                    assert(self.model().len() == total);
                    self.lines.remove(r + 1);
                    assert(self.model() =~= ls.update(r as int, ls[r as int] + ls[r + 1]).remove(r + 1));
                }
            },
            Edit::Enter => {
                let head = slice_chars(line.as_slice(), 0, c);
                let tail = slice_chars(line.as_slice(), c, n);
                self.put_line(r, head.as_slice());
                self.lines.insert(r + 1, string_of(tail.as_slice()));
                assert(self.model() =~= ls.update(r as int, ls[r as int].subrange(0, c as int)).insert(
                    r + 1,
                    ls[r as int].subrange(c as int, n as int),
                ));
                self.cursor_row = r + 1;
                self.cursor_col = 0;
            },
        }
        self.selection_anchor = None;
    }

    /// Types `ch` at the cursor.
    pub fn insert_char(&mut self, ch: char)
        ensures
            text_edited(old(self), final(self), Edit::Insert(ch)),
    {
        self.apply_edit(Edit::Insert(ch));
    }

    /// Types four spaces at the cursor.
    pub fn tab(&mut self)
        ensures
            text_edited(old(self), final(self), Edit::Tab),
    {
        self.apply_edit(Edit::Tab);
    }

    /// Deletes the character before the cursor, or joins the line to the previous one.
    pub fn backspace(&mut self)
        ensures
            text_edited(old(self), final(self), Edit::Backspace),
    {
        self.apply_edit(Edit::Backspace);
    }

    /// Deletes the character at the cursor, or joins the next line to this one.
    pub fn delete_char(&mut self)
        ensures
            text_edited(old(self), final(self), Edit::Delete),
    {
        self.apply_edit(Edit::Delete);
    }

    /// Splits the line at the cursor.
    pub fn enter(&mut self)
        ensures
            text_edited(old(self), final(self), Edit::Enter),
    {
        self.apply_edit(Edit::Enter);
    }

    /// Moves the cursor by `m`, extending the selection when `select`
    /// holds and dropping it otherwise.
    pub fn move_selecting(&mut self, m: Motion, select: bool)
        ensures
            moved_selecting(old(self), final(self), m, select),
    {
        if select {
            self.start_selection();
        } else {
            self.clear_selection();
        }
        self.move_cursor(m);
    }

    /// Replaces the text with the lines of `content` and puts the cursor at the start.
    pub fn load_text(&mut self, content: &str)
        ensures
            final(self).model() == text_lines(content@),
            final(self).cursor_row == 0,
            final(self).cursor_col == 0,
            final(self).selection_anchor == old(self).selection_anchor,
            history_view(final(self).history@) == history_view(old(self).history@),
    {
        self.lines = split_lines(content);
        self.cursor_row = 0;
        self.cursor_col = 0;
    }

    /// Puts back the lines and cursor from before the last edit and drops
    /// the selection; does nothing when no edit is left to undo.
    pub fn undo(&mut self)
        ensures
            undone(old(self), final(self)),
    {
        match self.history.pop() {
            Some(snap) => {
                assert(history_view(self.history@) =~= history_view(old(self).history@).drop_last());
                self.lines = snap.lines;
                self.cursor_row = snap.row;
                self.cursor_col = snap.col;
                self.selection_anchor = None;
            },
            None => {},
        }
    }

    /// Starts a selection at the cursor unless one is already started.
    pub fn start_selection(&mut self)
        ensures
            ({
                let (ls, r, c) = tidy(
                    old(self).model(),
                    old(self).cursor_row as int,
                    old(self).cursor_col as int,
                );
                &&& final(self).model() == ls
                &&& final(self).cursor_row as int == r
                &&& final(self).cursor_col as int == c
                &&& final(self).selection_anchor == if old(self).selection_anchor is None {
                    Some((r as usize, c as usize))
                } else {
                    old(self).selection_anchor
                }
            }),
            history_view(final(self).history@) == history_view(old(self).history@),
    {
        self.tidy_up();
        if self.selection_anchor.is_none() {
            self.selection_anchor = Some((self.cursor_row, self.cursor_col));
        }
    }

    /// Drops the selection.
    pub fn clear_selection(&mut self)
        ensures
            final(self).selection_anchor is None,
            final(self).model() == old(self).model(),
            final(self).cursor_row == old(self).cursor_row,
            final(self).cursor_col == old(self).cursor_col,
            history_view(final(self).history@) == history_view(old(self).history@),
    {
        self.selection_anchor = None;
    }

    /// Selects the whole text: anchor at the start, cursor at the end.
    pub fn select_all(&mut self)
        ensures
            all_selected(old(self), final(self)),
    {
        self.tidy_up();
        let last = self.lines.len() - 1;
        let n = self.line_chars(last).len();
        self.cursor_row = last;
        self.cursor_col = n;
        self.selection_anchor = Some((0, 0));
    }

    /// Where `(r, c)` lies in the joined text, once placed on the lines.
    fn place(&self, r: usize, c: usize, bound: usize) -> (p: (usize, usize, usize))
        requires
            bound == joined(tidy(self.model(), 0, 0).0).len(),
        ensures
            ({
                let (ls, r2, c2) = tidy(self.model(), r as int, c as int);
                &&& p.0 as int == r2
                &&& p.1 as int == c2
                &&& p.2 as int == offset(ls, r2, c2)
                &&& p.2 <= bound
            }),
    {
        let ghost ls = tidy(self.model(), r as int, c as int).0;
        let n = self.lines.len();
        let (r2, c2) = if n == 0 {
            (0, 0)
        } else {
            let r2 = if r < n {
                r
            } else {
                n - 1
            };
            let len = self.line_chars(r2).len();
            (r2, if c <= len {
                c
            } else {
                len
            })
        };
        proof {
            lemma_line_end_bound(ls, r2 as int);
        }
        let mut acc: usize = 0;
        let mut i: usize = 0;
        while i < r2
            invariant
                i <= r2,
                r2 < ls.len(),
                n == self.model().len(),
                n > 0 ==> ls == self.model(),
                n == 0 ==> r2 == 0,
                acc as int == prefix_len(ls, i as int),
                prefix_len(ls, r2 as int) + ls[r2 as int].len() <= bound,
            decreases r2 - i,
        {
            proof {
                lemma_prefix_mono(ls, i as int + 1, r2 as int);
            }
            let len = self.line_chars(i).len();
            acc = acc + len + 1;
            i += 1;
        }
        (r2, c2, acc + c2)
    }

    /// The selected text, if a selection is started and is not empty.
    pub fn selected_text(&self) -> (r: Option<String>)
        ensures
            match r {
                Some(s) => selection(self) == Some(s@),
                None => selection(self) is None,
            },
    {
        match self.selection_anchor {
            None => None,
            Some((ar, ac)) => {
                let whole = self.text();
                let cs = chars_of(whole.as_str());
                proof {
                    let ls = self.model();
                    if ls.len() == 0 {
                        assert(joined(tidy(ls, 0, 0).0) =~= joined(ls));
                    }
                }
                let bound = cs.len();
                let (_, _, b) = self.place(self.cursor_row, self.cursor_col, bound);
                let (_, _, a) = self.place(ar, ac, bound);
                if a == b {
                    None
                } else if a < b {
                    Some(string_of(slice_chars(cs.as_slice(), a, b).as_slice()))
                } else {
                    Some(string_of(slice_chars(cs.as_slice(), b, a).as_slice()))
                }
            },
        }
    }
}

proof fn lemma_prefix_mono(ls: Seq<Seq<char>>, i: int, j: int)
    requires
        0 <= i <= j,
    ensures
        prefix_len(ls, i) <= prefix_len(ls, j),
    decreases j - i,
{
    if i < j {
        lemma_prefix_mono(ls, i, j - 1);
    }
}

/// The lines of `content` (`str::lines`).
pub fn split_lines(content: &str) -> (v: Vec<String>)
    ensures
        texts(v@) == text_lines(content@),
{
    let cs = chars_of(content);
    let pieces = split_chars(cs.as_slice(), '\n');
    let ghost ps = pieces@.map_values(|v: Vec<char>| v@);
    proof {
        chars::lemma_split_nonempty(cs@, '\n');
    }
    let n = pieces.len();
    let k = if pieces[n - 1].len() == 0 {
        n - 1
    } else {
        n
    };
    let ghost want = text_lines(content@);
    let mut lines: Vec<String> = Vec::new();
    let mut i: usize = 0;
    while i < k
        invariant
            i <= k,
            k <= n,
            n == pieces@.len(),
            ps == pieces@.map_values(|v: Vec<char>| v@),
            ps == chars::split_on(content@, '\n'),
            want == text_lines(content@),
            want.len() == k,
            texts(lines@) == want.subrange(0, i as int),
        decreases k - i,
    {
        let p = &pieces[i];
        let len = p.len();
        let line = if i + 1 < n && len > 0 && p[len - 1] == '\r' {
            slice_chars(p.as_slice(), 0, len - 1)
        } else {
            slice_chars(p.as_slice(), 0, len)
        };
        proof {
            assert(ps[i as int] == p@);
            assert(p@.subrange(0, len as int) =~= p@);
            assert(p@.subrange(0, len - 1) =~= p@.drop_last());
        }
        let ghost before = lines@;
        lines.push(string_of(line.as_slice()));
        assert(texts(lines@) =~= texts(before).push(want[i as int]));
        assert(want.subrange(0, i + 1) =~= want.subrange(0, i as int).push(want[i as int]));
        i += 1;
    }
    assert(want.subrange(0, k as int) =~= want);
    lines
}

/// Lines `from..to` of `lines`, joined with newlines.
pub fn join_lines(lines: &Vec<String>, from: usize, to: usize) -> (s: String)
    requires
        from <= to <= lines@.len(),
    ensures
        s@ == joined(texts(lines@).subrange(from as int, to as int)),
{
    let ghost ls = texts(lines@);
    let mut out: Vec<char> = Vec::new();
    let mut i: usize = from;
    assert(ls.subrange(from as int, from as int) =~= Seq::<Seq<char>>::empty());
    while i < to
        invariant
            from <= i <= to,
            to <= lines@.len(),
            ls == texts(lines@),
            out@ == joined(ls.subrange(from as int, i as int)),
        decreases to - i,
    {
        assert(ls.subrange(from as int, i + 1).drop_last() =~= ls.subrange(from as int, i as int));
        if i > from {
            out.push('\n');
        }
        let mut cs = chars_of(lines[i].as_str());
        out.append(&mut cs);
        i += 1;
    }
    string_of(out.as_slice())
}

fn copy_lines(v: &Vec<String>) -> (r: Vec<String>)
    ensures
        texts(r@) == texts(v@),
{
    let mut r: Vec<String> = Vec::new();
    let mut i: usize = 0;
    while i < v.len()
        invariant
            i <= v@.len(),
            texts(r@) == texts(v@.subrange(0, i as int)),
        decreases v@.len() - i,
    {
        let cs = chars_of(v[i].as_str());
        let line = string_of(cs.as_slice());
        let ghost before = r@;
        r.push(line);
        assert(v@.subrange(0, i + 1) =~= v@.subrange(0, i as int).push(v@[i as int]));
        assert(texts(r@) =~= texts(before).push(line@));
        i += 1;
    }
    assert(v@.subrange(0, i as int) =~= v@);
    r
}

/// Undo reverts an edit: after any edit and then an undo, the lines and
/// the cursor are what they were before the edit (once placed on the
/// lines), no selection remains, and the history is back to what it was.
pub proof fn lemma_undo_reverts_edit(a: &Editor, b: &Editor, c: &Editor, e: Edit)
    requires
        text_edited(a, b, e),
        undone(b, c),
    ensures
        ({
            let (ls, r, col) = tidy(a.model(), a.cursor_row as int, a.cursor_col as int);
            &&& c.model() == ls
            &&& c.cursor_row as int == r
            &&& c.cursor_col as int == col
            &&& c.selection_anchor is None
            &&& history_view(c.history@) == history_view(a.history@)
        }),
{
    assert(history_view(b.history@).len() == b.history@.len());
    assert(history_view(a.history@).push(
        tidy(a.model(), a.cursor_row as int, a.cursor_col as int),
    ).drop_last() =~= history_view(a.history@));
}

/// Selecting everything selects the whole text: after select-all, the
/// selection is the joined text, unless the text is empty.
pub proof fn lemma_select_all_selects_text(a: &Editor, b: &Editor)
    requires
        all_selected(a, b),
    ensures
        ({
            let ls = b.model();
            &&& joined(ls).len() == 0 ==> selection(b) is None
            &&& joined(ls).len() > 0 ==> selection(b) == Some(joined(ls))
        }),
{
    let ls = b.model();
    lemma_joined_len(ls);
    assert(joined(ls).subrange(0, joined(ls).len() as int) =~= joined(ls));
}

} // verus!
