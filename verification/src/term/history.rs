//! Command history navigation and snapshots of the terminal state.

use vstd::prelude::*;
use super::{CommandRecord, CommandView, OscView, TermView, Terminal, initial_view, last_index, min_int, now_millis};
use super::csi::{add_usize, sub_floor};
use crate::cell::{Cell, Pen};
use crate::grid::resized;
use crate::modes::CursorShape;

verus! {

/// The number of leading records whose prompt line is before `t` (`strict`)
/// or at most `t`.
pub open spec fn leading_before(h: Seq<CommandView>, t: int, strict: bool) -> int
    decreases h.len(),
{
    if h.len() == 0 {
        0
    } else if (strict && (h[0].prompt_line as int) < t) || (!strict && (h[0].prompt_line as int) <= t) {
        1 + leading_before(h.skip(1), t, strict)
    } else {
        0
    }
}

/// The absolute line at the top of the viewport.
pub open spec fn viewport_top(v: TermView) -> int {
    if v.scroll_offset == 0 {
        add_usize(v.total_scrolled, v.rows)
    } else {
        sub_floor(v.total_scrolled, v.scroll_offset)
    }
}

/// The scroll offset that shows absolute line `abs` at the top.
pub open spec fn offset_for(v: TermView, abs: int) -> int {
    if abs >= v.total_scrolled {
        0
    } else {
        v.total_scrolled - abs
    }
}

/// The record the previous-command jump goes to, if any.
pub open spec fn prev_command_index(v: TermView) -> Option<int> {
    let pos = leading_before(v.history, viewport_top(v), true);
    if pos == 0 {
        None
    } else {
        Some(pos - 1)
    }
}

/// The record the next-command jump goes to, if any (none while at the
/// live view).
pub open spec fn next_command_index(v: TermView) -> Option<int> {
    let pos = leading_before(v.history, viewport_top(v), false);
    if v.scroll_offset == 0 || pos >= v.history.len() {
        None
    } else {
        Some(pos)
    }
}

/// The first record with ID `id`, if any.
pub open spec fn index_of_id(h: Seq<CommandView>, id: u64) -> Option<int>
    decreases h.len(),
{
    if h.len() == 0 {
        None
    } else if h[0].id == id {
        Some(0)
    } else {
        match index_of_id(h.skip(1), id) {
            Some(i) => Some(i + 1),
            None => None,
        }
    }
}

/// The state scrolled to the prompt of record `idx`.
pub open spec fn jumped(v: TermView, idx: int) -> TermView {
    TermView { scroll_offset: offset_for(v, v.history[idx].prompt_line as int), ..v }
}

/// A snapshot of the terminal as plain values.
pub struct SnapshotView {
    pub grid: Seq<Seq<Cell>>,
    pub cursor_col: usize,
    pub cursor_row: usize,
    pub cursor_shape: CursorShape,
    pub pen: Pen,
    pub cols: usize,
    pub rows: usize,
    pub history: Seq<CommandView>,
    pub total_scrolled: usize,
    pub title: Seq<char>,
    pub cwd: Seq<char>,
}

/// A serializable snapshot of the terminal state, for session persistence
/// and named snapshots.
pub struct TerminalSnapshot {
    /// The cells of the grid on display, row by row.
    pub grid_cells: Vec<Vec<Cell>>,
    pub cursor_col: usize,
    pub cursor_row: usize,
    pub cursor_shape: CursorShape,
    pub pen: Pen,
    pub cols: usize,
    pub rows: usize,
    /// The command history.
    pub command_history: Vec<CommandRecord>,
    /// Lines scrolled into the scrollback so far.
    pub total_scrolled_lines: usize,
    pub title: String,
    pub cwd: String,
}

impl TerminalSnapshot {
    pub open spec fn view(&self) -> SnapshotView {
        SnapshotView {
            grid: self.grid_cells@.map_values(|r: Vec<Cell>| r@),
            cursor_col: self.cursor_col,
            cursor_row: self.cursor_row,
            cursor_shape: self.cursor_shape,
            pen: self.pen,
            cols: self.cols,
            rows: self.rows,
            history: self.command_history@.map_values(|r: CommandRecord| r.view()),
            total_scrolled: self.total_scrolled_lines,
            title: self.title@,
            cwd: self.cwd@,
        }
    }
}

/// A named snapshot.
pub struct NamedSnapshot {
    /// The user's name for it.
    pub name: String,
    /// When it was taken (milliseconds since the Unix epoch).
    pub created_at: i64,
    /// The terminal state then.
    pub terminal_snapshot: TerminalSnapshot,
}

/// The snapshot of state `v`.
pub open spec fn snapshot_spec(v: TermView) -> SnapshotView {
    SnapshotView {
        grid: v.grid(),
        cursor_col: v.cursor_col as usize,
        cursor_row: v.cursor_row as usize,
        cursor_shape: v.cursor_shape,
        pen: v.pen,
        cols: v.cols as usize,
        rows: v.rows as usize,
        history: v.history,
        total_scrolled: v.total_scrolled as usize,
        title: v.osc.title,
        cwd: v.osc.cwd,
    }
}

/// A restored record: its line positions no longer point into a scrollback.
pub open spec fn unanchored(c: CommandView) -> CommandView {
    CommandView { scrollback_line_start: 0, scrollback_line_end: Some(0usize), prompt_line: 0, ..c }
}

/// The terminal restored from snapshot `s`: a new terminal of its size
/// with its cells (cut to the size), cursor (kept on screen), shape, pen,
/// title and working directory, and its command history without line
/// positions; IDs continue after the last record.
#[verifier::opaque]
pub open spec fn restore_spec(s: SnapshotView) -> TermView {
    let v0 = initial_view(s.cols as int, s.rows as int);
    TermView {
        main: resized(s.grid, s.cols as int, s.rows as int),
        cursor_col: min_int(s.cursor_col as int, last_index(s.cols as int)),
        cursor_row: min_int(s.cursor_row as int, last_index(s.rows as int)),
        cursor_shape: s.cursor_shape,
        pen: s.pen,
        total_scrolled: 0,
        history: s.history.map_values(|c: CommandView| unanchored(c)),
        next_command_id: if s.history.len() == 0 {
            0
        } else if s.history.last().id == u64::MAX {
            u64::MAX
        } else {
            (s.history.last().id + 1) as u64
        },
        osc: OscView { title: s.title, cwd: s.cwd, ..v0.osc },
        ..v0
    }
}

/// A copy of `r`.
fn copy_record(r: &CommandRecord) -> (c: CommandRecord)
    ensures
        c.view() == r.view(),
{
    CommandRecord {
        id: r.id,
        command_text: r.command_text.clone(),
        cwd: r.cwd.clone(),
        timestamp: r.timestamp,
        duration_ms: r.duration_ms,
        exit_code: r.exit_code,
        scrollback_line_start: r.scrollback_line_start,
        scrollback_line_end: r.scrollback_line_end,
        prompt_line: r.prompt_line,
    }
}

impl Terminal {
    /// The completed command records, oldest first.
    pub fn command_history(&self) -> (r: &Vec<CommandRecord>)
        ensures
            r@.map_values(|c: CommandRecord| c.view()) == self@.history,
    {
        &self.command_history
    }

    /// Turn command history tracking on or off.
    pub fn set_command_history_enabled(&mut self, enabled: bool)
        requires
            old(self).wf(),
        ensures
            final(self).wf(),
            final(self)@ == (TermView { history_enabled: enabled, ..old(self)@ }),
    {
        self.command_history_enabled = enabled;
    }

    /// Set how many command records are kept (the next record applies it).
    pub fn set_max_command_history(&mut self, max: usize)
        requires
            old(self).wf(),
        ensures
            final(self).wf(),
            final(self)@ == (TermView { max_history: max as int, ..old(self)@ }),
    {
        self.max_command_history = max;
    }

    /// The absolute line at the top of the viewport.
    fn viewport_top_abs(&self) -> (r: usize)
        ensures
            r == viewport_top(self@),
    {
        if self.scroll_offset == 0 {
            if self.total_scrolled_lines <= usize::MAX - self.rows {
                self.total_scrolled_lines + self.rows
            } else {
                usize::MAX
            }
        } else if self.total_scrolled_lines >= self.scroll_offset {
            self.total_scrolled_lines - self.scroll_offset
        } else {
            0
        }
    }

    /// The number of leading records whose prompt line is before `t`
    /// (`strict`) or at most `t`.
    fn count_before(&self, t: usize, strict: bool) -> (r: usize)
        ensures
            r == leading_before(self@.history, t as int, strict),
            r <= self@.history.len(),
    {
        let ghost h = self@.history;
        assert(h.skip(0) =~= h);
        let mut i: usize = 0;
        while i < self.command_history.len()
            invariant
                i <= h.len(),
                h == self@.history,
                h.len() == self.command_history@.len(),
                leading_before(h, t as int, strict) == i + leading_before(h.skip(i as int), t as int, strict),
            decreases h.len() - i,
        {
            let p = self.command_history[i].prompt_line;
            assert(h[i as int].prompt_line == p);
            assert(h.skip(i as int)[0] == h[i as int]);
            assert(h.skip(i as int).skip(1) =~= h.skip(i + 1));
            if (strict && p < t) || (!strict && p <= t) {
                i += 1;
            } else {
                return i;
            }
        }
        assert(h.skip(i as int).len() == 0);
        i
    }

    /// Scroll so that the prompt of record `idx` is at the top.
    fn scroll_to_record(&mut self, idx: usize)
        requires
            old(self).wf(),
            idx < old(self)@.history.len(),
        ensures
            final(self).wf(),
            final(self)@ == jumped(old(self)@, idx as int),
    {
        let target = self.command_history[idx].prompt_line;
        assert(self@.history[idx as int].prompt_line == target);
        self.scroll_offset = if target >= self.total_scrolled_lines {
            0
        } else {
            self.total_scrolled_lines - target
        };
    }

    /// Jump to the previous command's prompt from the viewport.
    pub fn jump_to_prev_command(&mut self) -> (r: Option<&CommandRecord>)
        requires
            old(self).wf(),
        ensures
            final(self).wf(),
            match prev_command_index(old(self)@) {
                None => r is None && final(self)@ == old(self)@,
                Some(i) => r is Some && r->0.view() == old(self)@.history[i] && final(self)@ == jumped(old(self)@, i),
            },
    {
        let top = self.viewport_top_abs();
        let pos = self.count_before(top, true);
        if pos == 0 {
            return None;
        }
        self.scroll_to_record(pos - 1);
        Some(&self.command_history[pos - 1])
    }

    /// Jump to the next command's prompt from the viewport (nothing while at
    /// the live view).
    pub fn jump_to_next_command(&mut self) -> (r: Option<&CommandRecord>)
        requires
            old(self).wf(),
        ensures
            final(self).wf(),
            match next_command_index(old(self)@) {
                None => r is None && final(self)@ == old(self)@,
                Some(i) => r is Some && r->0.view() == old(self)@.history[i] && final(self)@ == jumped(old(self)@, i),
            },
    {
        if self.scroll_offset == 0 {
            return None;
        }
        let top = self.viewport_top_abs();
        let pos = self.count_before(top, false);
        if pos >= self.command_history.len() {
            return None;
        }
        self.scroll_to_record(pos);
        Some(&self.command_history[pos])
    }

    /// Jump to the record with ID `id`.
    pub fn jump_to_command(&mut self, id: u64) -> (r: Option<&CommandRecord>)
        requires
            old(self).wf(),
        ensures
            final(self).wf(),
            match index_of_id(old(self)@.history, id) {
                None => r is None && final(self)@ == old(self)@,
                Some(i) => r is Some && r->0.view() == old(self)@.history[i] && final(self)@ == jumped(old(self)@, i),
            },
    {
        let ghost h = self@.history;
        assert(h.skip(0) =~= h);
        let mut i: usize = 0;
        while i < self.command_history.len()
            invariant
                self.wf(),
                self@ == old(self)@,
                i <= h.len(),
                h == self@.history,
                h.len() == self.command_history@.len(),
                index_of_id(h, id) == match index_of_id(h.skip(i as int), id) {
                    Some(k) => Some(k + i),
                    None => None,
                },
            decreases h.len() - i,
        {
            assert(h.skip(i as int)[0] == h[i as int]);
            assert(h.skip(i as int).skip(1) =~= h.skip(i + 1));
            if self.command_history[i].id == id {
                self.scroll_to_record(i);
                return Some(&self.command_history[i]);
            }
            i += 1;
        }
        assert(h.skip(i as int).len() == 0);
        None
    }

    /// The command whose prompt is the last one at or above the viewport
    /// top, with its index.
    pub fn current_visible_command(&self) -> (r: Option<(usize, &CommandRecord)>)
        ensures
            ({
                let pos = leading_before(self@.history, viewport_top(self@), false);
                if pos == 0 {
                    r is None
                } else {
                    r is Some && (r->0).0 == pos - 1 && (r->0).1.view() == self@.history[pos - 1]
                }
            }),
    {
        let top = self.viewport_top_abs();
        let pos = self.count_before(top, false);
        if pos == 0 {
            None
        } else {
            Some((pos - 1, &self.command_history[pos - 1]))
        }
    }

    /// A snapshot of the state (see `snapshot_spec`).
    pub fn snapshot(&self) -> (s: TerminalSnapshot)
        requires
            self.wf(),
        ensures
            s.view() == snapshot_spec(self@),
    {
        proof {
            self.main_grid.lemma_wf();
            self.alt_grid.lemma_wf();
        }
        let mut grid_cells: Vec<Vec<Cell>> = Vec::new();
        let mut r: usize = 0;
        while r < self.rows
            invariant
                r <= self.rows,
                self.wf(),
                grid_cells@.len() == r,
                forall|k: int| 0 <= k < r ==> #[trigger] grid_cells@[k]@ == self@.grid()[k],
            decreases self.rows - r,
        {
            grid_cells.push(self.grid_row(r));
            r += 1;
        }
        assert(grid_cells@.map_values(|x: Vec<Cell>| x@) =~= self@.grid());
        let mut history: Vec<CommandRecord> = Vec::new();
        let mut i: usize = 0;
        while i < self.command_history.len()
            invariant
                i <= self.command_history@.len(),
                history@.len() == i,
                forall|k: int| 0 <= k < i ==> #[trigger] history@[k].view() == self.command_history@[k].view(),
            decreases self.command_history@.len() - i,
        {
            history.push(copy_record(&self.command_history[i]));
            i += 1;
        }
        assert(history@.map_values(|c: CommandRecord| c.view()) =~= self@.history);
        TerminalSnapshot {
            grid_cells,
            cursor_col: self.cursor_col,
            cursor_row: self.cursor_row,
            cursor_shape: self.cursor_shape,
            pen: self.pen,
            cols: self.cols,
            rows: self.rows,
            command_history: history,
            total_scrolled_lines: self.total_scrolled_lines,
            title: self.osc.title.clone(),
            cwd: self.osc.cwd.clone(),
        }
    }

    /// A new terminal in the state of `snapshot` (see `restore_spec`).
    pub fn restore_from_snapshot(snapshot: &TerminalSnapshot) -> (t: Terminal)
        ensures
            t.wf(),
            t@ == restore_spec(snapshot.view()),
    {
        proof {
            reveal(restore_spec);
            reveal(initial_view);
        }
        let mut t = Terminal::new(snapshot.cols, snapshot.rows);
        let ghost g: Seq<Seq<Cell>> = snapshot.view().grid;
        let ghost v0 = t@;
        t.load_main_grid(&snapshot.grid_cells);
        let cc = if snapshot.cols > 0 { snapshot.cols - 1 } else { 0 };
        let cr = if snapshot.rows > 0 { snapshot.rows - 1 } else { 0 };
        t.cursor_col = if snapshot.cursor_col < cc { snapshot.cursor_col } else { cc };
        t.cursor_row = if snapshot.cursor_row < cr { snapshot.cursor_row } else { cr };
        t.cursor_shape = snapshot.cursor_shape;
        t.pen = snapshot.pen;
        t.total_scrolled_lines = 0;
        let mut history: Vec<CommandRecord> = Vec::new();
        let mut i: usize = 0;
        while i < snapshot.command_history.len()
            invariant
                i <= snapshot.command_history@.len(),
                history@.len() == i,
                forall|k: int| 0 <= k < i ==> #[trigger] history@[k].view() == unanchored(snapshot.command_history@[k].view()),
            decreases snapshot.command_history@.len() - i,
        {
            let mut c = copy_record(&snapshot.command_history[i]);
            c.scrollback_line_start = 0;
            c.scrollback_line_end = Some(0);
            c.prompt_line = 0;
            history.push(c);
            i += 1;
        }
        assert(history@.map_values(|c: CommandRecord| c.view()) =~= snapshot.view().history.map_values(
            |c: CommandView| unanchored(c),
        ));
        t.command_history = history;
        let n = snapshot.command_history.len();
        t.next_command_id = if n == 0 {
            0
        } else {
            let last = snapshot.command_history[n - 1].id;
            assert(snapshot.view().history.last().id == last);
            if last == u64::MAX { u64::MAX } else { last + 1 }
        };
        t.osc.title = snapshot.title.clone();
        t.osc.cwd = snapshot.cwd.clone();
        assert(t@ == restore_spec(snapshot.view()));
        t
    }

    /// Copy `cells` into the main grid, as far as they fit.
    fn load_main_grid(&mut self, cells: &Vec<Vec<Cell>>)
        requires
            old(self).wf(),
            old(self)@.main == crate::grid::filled(old(self)@.cols, old(self)@.rows, crate::cell::default_cell()),
        ensures
            final(self).wf(),
            final(self)@ == (TermView {
                main: resized(cells@.map_values(|r: Vec<Cell>| r@), old(self)@.cols, old(self)@.rows),
                ..old(self)@
            }),
    {
        proof {
            self.main_grid.lemma_wf();
        }
        let ghost g = cells@.map_values(|r: Vec<Cell>| r@);
        let rows = self.rows;
        let cols = self.cols;
        let mut r: usize = 0;
        while r < rows
            invariant
                r <= rows,
                rows == self.rows,
                cols == self.cols,
                self.wf(),
                g == cells@.map_values(|x: Vec<Cell>| x@),
                self@ == (TermView { main: self@.main, ..old(self)@ }),
                self@.main.len() == rows,
                forall|k: int| 0 <= k < rows ==> #[trigger] self@.main[k] == (if k < r {
                    resized(g, cols as int, rows as int)[k]
                } else {
                    old(self)@.main[k]
                }),
            decreases rows - r,
        {
            let mut row: Vec<Cell> = Vec::new();
            let mut c: usize = 0;
            while c < cols
                invariant
                    c <= cols,
                    r < rows,
                    g == cells@.map_values(|x: Vec<Cell>| x@),
                    row@.len() == c,
                    forall|k: int| 0 <= k < c ==> #[trigger] row@[k] == resized(g, cols as int, rows as int)[r as int][k],
                decreases cols - c,
            {
                if r < cells.len() && c < cells[r].len() {
                    assert(g[r as int] == cells@[r as int]@);
                    row.push(cells[r][c]);
                } else {
                    row.push(Cell::blank());
                }
                c += 1;
            }
            assert(row@ =~= resized(g, cols as int, rows as int)[r as int]);
            self.main_grid.put_row(r, row);
            r += 1;
        }
        assert(self@.main =~= resized(g, cols as int, rows as int));
    }

    /// A named snapshot of the state now.
    pub fn create_named_snapshot(&self, name: &str) -> (n: NamedSnapshot)
        requires
            self.wf(),
        ensures
            n.name@ == name@,
            n.terminal_snapshot.view() == snapshot_spec(self@),
    {
        NamedSnapshot { name: name.to_owned(), created_at: now_millis(), terminal_snapshot: self.snapshot() }
    }
}

} // verus!
