use vstd::prelude::*;
use crate::cell::Cell;

verus! {

/// The number of lines a scrollback buffer made by `with_defaults` keeps.
pub const DEFAULT_SCROLLBACK_LINES: usize = 10000;

/// The last `max` lines of `s` (all of them when there are fewer).
pub open spec fn last_lines(s: Seq<Seq<Cell>>, max: nat) -> Seq<Seq<Cell>> {
    if s.len() > max {
        s.subrange(s.len() - max, s.len() as int)
    } else {
        s
    }
}

/// Lines scrolled off the top of the screen, oldest first, with a limit on
/// how many are kept.
pub struct ScrollbackBuffer {
    lines: Vec<Vec<Cell>>,
    max_lines: usize,
}

impl ScrollbackBuffer {
    /// The kept lines, oldest first.
    pub closed spec fn lines_view(&self) -> Seq<Seq<Cell>> {
        self.lines@.map_values(|r: Vec<Cell>| r@)
    }

    /// How many lines the buffer keeps at most.
    pub closed spec fn max_view(&self) -> nat {
        self.max_lines as nat
    }

    /// Whether the buffer holds at most its limit of lines, and the limit is
    /// at least one.
    pub closed spec fn wf(&self) -> bool {
        &&& self.max_lines >= 1
        &&& self.lines@.len() <= self.max_lines
    }

    /// The limits that `wf` gives.
    pub proof fn lemma_wf(&self)
        requires
            self.wf(),
        ensures
            self.max_view() >= 1,
            self.lines_view().len() <= self.max_view(),
    {
    }

    /// An empty buffer that keeps at most `max_lines` lines.
    pub fn new(max_lines: usize) -> (r: Self)
        requires
            max_lines >= 1,
        ensures
            r.wf(),
            r.lines_view() == Seq::<Seq<Cell>>::empty(),
            r.max_view() == max_lines,
    {
        let r = ScrollbackBuffer { lines: Vec::new(), max_lines };
        assert(r.lines_view() =~= Seq::<Seq<Cell>>::empty());
        r
    }

    /// An empty buffer with the default limit.
    pub fn with_defaults() -> (r: Self)
        ensures
            r.wf(),
            r.lines_view() == Seq::<Seq<Cell>>::empty(),
            r.max_view() == DEFAULT_SCROLLBACK_LINES,
    {
        ScrollbackBuffer::new(DEFAULT_SCROLLBACK_LINES)
    }

    /// Append `row` as the newest line, dropping the oldest line when the
    /// limit is exceeded.
    pub fn push(&mut self, row: Vec<Cell>)
        requires
            old(self).wf(),
        ensures
            final(self).wf(),
            final(self).max_view() == old(self).max_view(),
            final(self).lines_view() == last_lines(old(self).lines_view().push(row@), old(self).max_view()),
    {
        let ghost r = row@;
        let ghost before = self.lines_view();
        self.lines.push(row);
        assert(self.lines_view() =~= before.push(r));
        if self.lines.len() > self.max_lines {
            let ghost pushed = self.lines_view();
            self.lines.remove(0);
            assert(self.lines_view() =~= pushed.subrange(pushed.len() - self.max_lines as int, pushed.len() as int));
        }
    }

    /// The number of kept lines.
    pub fn len(&self) -> (r: usize)
        ensures
            r == self.lines_view().len(),
    {
        self.lines.len()
    }

    /// Whether no line is kept.
    pub fn is_empty(&self) -> (r: bool)
        ensures
            r == (self.lines_view().len() == 0),
    {
        self.lines.len() == 0
    }

    /// The line `idx` places back from the newest (0 is the newest).
    pub fn get(&self, idx: usize) -> (r: Option<&[Cell]>)
        ensures
            match r {
                Some(line) => idx < self.lines_view().len() && line@ == self.lines_view()[
                    self.lines_view().len() - 1 - idx],
                None => idx >= self.lines_view().len(),
            },
    {
        if idx < self.lines.len() {
            let i = self.lines.len() - 1 - idx;
            Some(self.lines[i].as_slice())
        } else {
            None
        }
    }

    /// Drop every line.
    pub fn clear(&mut self)
        requires
            old(self).wf(),
        ensures
            final(self).wf(),
            final(self).max_view() == old(self).max_view(),
            final(self).lines_view() == Seq::<Seq<Cell>>::empty(),
    {
        self.lines.clear();
        assert(self.lines_view() =~= Seq::<Seq<Cell>>::empty());
    }
}

/// What a read gives back of a write: right after a push, line 0 (the
/// newest) is the pushed line, and the buffer holds one more line, up to
/// its limit.
pub proof fn law_scrollback_push_then_newest(lines: Seq<Seq<Cell>>, row: Seq<Cell>, max: nat)
    requires
        max >= 1,
        lines.len() <= max,
    ensures
        ({
            let after = last_lines(lines.push(row), max);
            &&& after.len() == if lines.len() < max { lines.len() + 1 } else { max }
            &&& after[after.len() - 1] == row
        }),
{
}

} // verus!
