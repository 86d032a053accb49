//! The program console: lines shown on screen and the queue of input lines
//! the emulated program reads.
use vstd::prelude::*;
use vstd::string::StringExecFns;
use std::collections::VecDeque;

verus! {

/// The texts of a sequence of strings.
pub open spec fn texts(lines: Seq<String>) -> Seq<Seq<char>> {
    lines.map_values(|s: String| s@)
}

pub struct Console {
    /// Lines to be rendered on screen
    pub lines: Vec<String>,
    /// Scroll offset from the bottom (0 = follow latest)
    pub scroll: usize,
    /// Queue of lines waiting to be consumed by the emulator (read syscall)
    pub input: VecDeque<String>,
    /// When true the emulator is waiting for user input
    pub reading: bool,
    /// Current line being typed by the user
    pub current: String,
}

impl Default for Console {
    fn default() -> (c: Self)
        ensures
            c.lines@ == Seq::<String>::empty(),
            c.scroll == 0,
            c.queued() == Seq::<Seq<char>>::empty(),
            !c.reading,
            c.current@ == Seq::<char>::empty(),
    {
        let c = Console {
            lines: Vec::new(),
            scroll: 0,
            input: VecDeque::new(),
            reading: false,
            current: String::new(),
        };
        assert(c.queued() =~= Seq::<Seq<char>>::empty());
        c
    }
}

impl Console {
    /// The input lines waiting to be read, oldest first.
    pub open spec fn queued(&self) -> Seq<Seq<char>> {
        texts(self.input@)
    }

    /// Shows `line` on screen.
    pub fn push_line(&mut self, line: String)
        ensures
            texts(final(self).lines@) == texts(old(self).lines@).push(line@),
            final(self).input@ == old(self).input@,
            final(self).scroll == old(self).scroll,
            final(self).reading == old(self).reading,
            final(self).current == old(self).current,
    {
        self.lines.push(line);
        assert(texts(self.lines@) =~= texts(old(self).lines@).push(line@));
    }

    /// Shows an error message on screen.
    pub fn push_error(&mut self, msg: String)
        ensures
            texts(final(self).lines@) == texts(old(self).lines@).push(msg@),
            final(self).input@ == old(self).input@,
            final(self).scroll == old(self).scroll,
            final(self).reading == old(self).reading,
            final(self).current == old(self).current,
    {
        self.push_line(msg);
    }

    /// Provide a line of user input (displayed and queued)
    pub fn push_input(&mut self, line: &str)
        ensures
            texts(final(self).lines@) == texts(old(self).lines@).push(line@),
            final(self).queued() == old(self).queued().push(line@),
            final(self).scroll == old(self).scroll,
            final(self).reading == old(self).reading,
            final(self).current == old(self).current,
    {
        let line = String::from_str(line);
        let shown = line.clone();
        self.lines.push(shown);
        self.input.push_back(line);
        assert(texts(self.lines@) =~= texts(old(self).lines@).push(line@));
        assert(texts(self.input@) =~= texts(old(self).input@).push(line@));
    }

    /// Retrieve next queued input line for the emulator
    pub fn read_line(&mut self) -> (r: Option<String>)
        ensures
            old(self).queued().len() == 0 ==> r is None && final(self).queued() == old(self).queued(),
            old(self).queued().len() > 0 ==> (r matches Some(s) && s@ == old(self).queued()[0]
                && final(self).queued() == old(self).queued().drop_first()),
            final(self).lines == old(self).lines,
            final(self).scroll == old(self).scroll,
            final(self).reading == old(self).reading,
            final(self).current == old(self).current,
    {
        let r = self.input.pop_front();
        assert(texts(self.input@) =~= if old(self).input@.len() > 0 {
            texts(old(self).input@).drop_first()
        } else {
            texts(old(self).input@)
        });
        r
    }
}

/// Lines come out of the input queue in the order they went in: after
/// queueing `a` then `b` on an empty queue, reading gives `a`, then `b`.
pub proof fn lemma_input_fifo(q: Seq<Seq<char>>, a: Seq<char>, b: Seq<char>)
    requires
        q.len() == 0,
    ensures
        q.push(a).push(b)[0] == a,
        q.push(a).push(b).drop_first()[0] == b,
        q.push(a).push(b).drop_first().drop_first().len() == 0,
{
}

} // verus!
