//! CSI sequences: cursor movement, erasing, scrolling, modes, reports.

use vstd::prelude::*;
use super::{Terminal, TermView, last_index, min_int, inc_usize, region_up_spec, region_down_spec,
    enter_alt_spec, leave_alt_spec, restore_cursor_spec, save_cursor_spec};
use crate::cell::{Cell, Pen, blank_cell};
use crate::color::Color;
use crate::grid::{
    blank_row, blanked, cells_deleted, cells_inserted, erased_above, erased_below, filled,
    scrolled_down, scrolled_up, with_row,
};
use crate::image_store::scrolled_store;
use crate::modes::{CursorShape, Modes, MouseFormat, MouseMode};
use crate::scrollback::{DEFAULT_SCROLLBACK_LINES, last_lines};
use crate::sgr::{apply_sgr, params_view, sgr_spec};
use crate::text::{decimal_bytes, push_decimal};

verus! {

/// Parameter `idx` (its first value), with 0 or absence meaning `default`.
pub open spec fn param_spec(p: Seq<Seq<u16>>, idx: int, default: u16) -> u16 {
    if 0 <= idx < p.len() && p[idx].len() > 0 && p[idx][0] != 0 {
        p[idx][0]
    } else {
        default
    }
}

/// Parameter `idx` of `params` (see `param_spec`).
pub fn param(params: &Vec<Vec<u16>>, idx: usize, default: u16) -> (r: u16)
    ensures
        r == param_spec(params_view(params@), idx as int, default),
{
    if idx < params.len() {
        let sub = &params[idx];
        assert(sub@ == params_view(params@)[idx as int]);
        if sub.len() > 0 && sub[0] != 0 {
            return sub[0];
        }
    }
    default
}

/// The cursor moved to `(col, row)`, with no wrap pending.
pub open spec fn moved(v: TermView, col: int, row: int) -> TermView {
    TermView { cursor_col: col, cursor_row: row, wrap_pending: false, ..v }
}

pub open spec fn sub_floor(a: int, n: int) -> int {
    if a >= n {
        a - n
    } else {
        0
    }
}

/// Erase in display (ED) with mode `mode`, in the pen's background.
#[verifier::opaque]
pub open spec fn ed_spec(v: TermView, mode: u16) -> TermView {
    let g = v.grid();
    let bg = v.pen.bg;
    if mode == 0 {
        v.with_grid(erased_below(g, v.cursor_col, v.cursor_row, v.cols, bg))
    } else if mode == 1 {
        v.with_grid(erased_above(g, v.cursor_col, v.cursor_row, v.cols, bg))
    } else if mode == 2 || mode == 3 {
        v.with_grid(filled(v.cols, v.rows, blank_cell(bg)))
    } else {
        v
    }
}

/// Erase in line (EL) with mode `mode`, in the pen's background.
#[verifier::opaque]
pub open spec fn el_spec(v: TermView, mode: u16) -> TermView {
    let g = v.grid();
    let bg = v.pen.bg;
    let row = v.cursor_row;
    if mode == 0 {
        v.with_grid(with_row(g, row, blanked(g[row], v.cursor_col, v.cols, bg)))
    } else if mode == 1 {
        v.with_grid(with_row(g, row, blanked(g[row], 0, v.cursor_col + 1, bg)))
    } else if mode == 2 {
        v.with_grid(with_row(g, row, blank_row(v.cols, bg)))
    } else {
        v
    }
}

/// The scrollback after the first `k` rows of `g` went to it, in order.
pub open spec fn pushed_rows(sb: Seq<Seq<Cell>>, g: Seq<Seq<Cell>>, k: nat) -> Seq<Seq<Cell>>
    decreases k,
{
    if k == 0 {
        sb
    } else {
        last_lines(pushed_rows(sb, g, (k - 1) as nat).push(g[k - 1]), DEFAULT_SCROLLBACK_LINES as nat)
    }
}

/// `x + k`, stopping at the largest `usize`.
pub open spec fn add_usize(x: int, k: int) -> int {
    if x + k <= usize::MAX {
        x + k
    } else {
        usize::MAX as int
    }
}

/// Scroll up (SU) by `n` lines; with the region at the top of the main
/// screen, the lines scrolled off go to the scrollback and the image
/// placements move up with them.
#[verifier::opaque]
pub open spec fn su_spec(v: TermView, n: int) -> TermView {
    let k = if v.rows == 0 { 0 } else { min_int(n, v.scroll_bottom + 1) };
    let v1 = if v.scroll_top == 0 && !v.using_alt {
        TermView {
            scrollback: pushed_rows(v.scrollback, v.main, k as nat),
            total_scrolled: add_usize(v.total_scrolled, k),
            images: scrolled_store(v.images, n),
            ..v
        }
    } else {
        v
    };
    region_up_spec(v1, n)
}

/// The row after erasing `n` characters at `col` (ECH), clearing the halves
/// of wide characters that the erase breaks.
pub open spec fn ech_row(r: Seq<Cell>, col: int, n: int, bg: Color) -> Seq<Cell> {
    let cols = r.len() as int;
    let r1 = if col < cols && r[col].width == 0 && col > 0 {
        r.update(col - 1, blank_cell(bg))
    } else {
        r
    };
    let end = min_int(col + n, cols);
    let r2 = if end > 0 && end < cols && r1[end].width == 0 {
        r1.update(end, blank_cell(bg))
    } else {
        r1
    };
    blanked(r2, col, col + n, bg)
}

/// Erase `n` characters at the cursor (ECH).
#[verifier::opaque]
pub open spec fn ech_spec(v: TermView, n: int) -> TermView {
    let g = v.grid();
    v.with_grid(with_row(g, v.cursor_row, ech_row(g[v.cursor_row], v.cursor_col, n, v.pen.bg)))
}

/// The cursor position report for 1-based `row` and `col`:
/// `ESC [ row ; col R`.
pub open spec fn cpr_bytes(row: nat, col: nat) -> Seq<u8> {
    seq![0x1bu8, 0x5bu8] + decimal_bytes(row) + seq![0x3bu8] + decimal_bytes(col) + seq![0x52u8]
}

/// The status report reply `ESC [ 0 n`.
pub open spec fn status_ok_bytes() -> Seq<u8> {
    seq![0x1bu8, 0x5bu8, 0x30u8, 0x6eu8]
}

/// The primary device attributes reply `ESC [ ? 62 ; 4 ; 22 c`.
pub open spec fn da_bytes() -> Seq<u8> {
    seq![0x1bu8, 0x5bu8, 0x3fu8, 0x36u8, 0x32u8, 0x3bu8, 0x34u8, 0x3bu8, 0x32u8, 0x32u8, 0x63u8]
}

/// The secondary device attributes reply `ESC [ > 1 ; 1 ; 0 c`.
pub open spec fn da2_bytes() -> Seq<u8> {
    seq![0x1bu8, 0x5bu8, 0x3eu8, 0x31u8, 0x3bu8, 0x31u8, 0x3bu8, 0x30u8, 0x63u8]
}

/// Device status report (DSR): 5 answers "OK", 6 the cursor position.
#[verifier::opaque]
pub open spec fn dsr_spec(v: TermView, mode: u16) -> TermView {
    if mode == 5 {
        TermView { responses: v.responses.push(status_ok_bytes()), ..v }
    } else if mode == 6 {
        TermView {
            responses: v.responses.push(cpr_bytes((v.cursor_row + 1) as nat, (v.cursor_col + 1) as nat)),
            ..v
        }
    } else {
        v
    }
}

/// Set the scroll region (DECSTBM) from 1-based `top` and `bottom`; an
/// empty region means the whole screen. The cursor goes home.
#[verifier::opaque]
pub open spec fn decstbm_spec(v: TermView, top: u16, bottom: u16) -> TermView {
    let t = sub_floor(top as int, 1);
    let b = min_int(sub_floor(bottom as int, 1), v.rows - 1);
    if v.rows == 0 {
        v
    } else if t >= b {
        moved(TermView { scroll_top: 0, scroll_bottom: v.rows - 1, ..v }, 0, 0)
    } else {
        moved(TermView { scroll_top: t, scroll_bottom: b, ..v }, 0, 0)
    }
}

/// The nearest tab stop at or before `c`, or column 0.
pub open spec fn prev_stop(stops: Seq<bool>, c: int) -> int
    decreases c,
{
    if c <= 0 {
        0
    } else if stops[c] {
        c
    } else {
        prev_stop(stops, c - 1)
    }
}

/// The column after `n` backward tabs from `col`.
pub open spec fn back_tabs(stops: Seq<bool>, col: int, n: nat) -> int
    decreases n,
{
    if n == 0 || col <= 0 {
        col
    } else {
        back_tabs(stops, prev_stop(stops, col - 1), (n - 1) as nat)
    }
}

/// Tab clear (TBC): 0 clears the stop at the cursor, 3 all stops.
#[verifier::opaque]
pub open spec fn tbc_spec(v: TermView, mode: u16) -> TermView {
    if mode == 0 {
        if v.cursor_col < v.cols {
            TermView { tab_stops: v.tab_stops.update(v.cursor_col, false), ..v }
        } else {
            v
        }
    } else if mode == 3 {
        TermView { tab_stops: Seq::new(v.cols as nat, |_i: int| false), ..v }
    } else {
        v
    }
}

/// The cursor shape DECSCUSR selects.
pub open spec fn shape_for(n: u16) -> CursorShape {
    if n == 2 {
        CursorShape::Block
    } else if n == 3 {
        CursorShape::BlinkingUnderline
    } else if n == 4 {
        CursorShape::Underline
    } else if n == 5 {
        CursorShape::BlinkingBar
    } else if n == 6 {
        CursorShape::Bar
    } else {
        CursorShape::BlinkingBlock
    }
}

/// The private modes that set one flag of `Modes`.
pub open spec fn is_flag_mode(code: u16) -> bool {
    code == 1 || code == 7 || code == 25 || code == 1004 || code == 80 || code == 2004
}

/// The private modes that select mouse reporting or its encoding.
pub open spec fn is_mouse_mode(code: u16) -> bool {
    code == 9 || code == 1000 || code == 1002 || code == 1003 || code == 1005 || code == 1006 || code == 1015
}

/// A flag mode: 1 DECCKM, 7 auto-wrap, 25 cursor visible, 1004 focus
/// events, 80 DECSDM, 2004 bracketed paste.
#[verifier::opaque]
pub open spec fn flag_mode_spec(m: Modes, code: u16, enable: bool) -> Modes {
    if code == 1 {
        Modes { application_cursor_keys: enable, ..m }
    } else if code == 7 {
        Modes { auto_wrap: enable, ..m }
    } else if code == 25 {
        Modes { cursor_visible: enable, ..m }
    } else if code == 1004 {
        Modes { focus_events: enable, ..m }
    } else if code == 80 {
        Modes { sixel_display_mode: enable, ..m }
    } else {
        Modes { bracketed_paste: enable, ..m }
    }
}

/// A mouse mode: 9 and 1000 clicks, 1002 button motion, 1003 any motion
/// (off when reset); 1005 UTF-8, 1006 SGR, 1015 urxvt encoding (X10 when
/// reset).
#[verifier::opaque]
pub open spec fn mouse_mode_spec(m: Modes, code: u16, enable: bool) -> Modes {
    if code == 9 || code == 1000 {
        Modes { mouse_mode: if enable { MouseMode::Click } else { MouseMode::Off }, ..m }
    } else if code == 1002 {
        Modes { mouse_mode: if enable { MouseMode::ButtonMotion } else { MouseMode::Off }, ..m }
    } else if code == 1003 {
        Modes { mouse_mode: if enable { MouseMode::AnyMotion } else { MouseMode::Off }, ..m }
    } else if code == 1005 {
        Modes { mouse_format: if enable { MouseFormat::Utf8 } else { MouseFormat::X10 }, ..m }
    } else if code == 1006 {
        Modes { mouse_format: if enable { MouseFormat::Sgr } else { MouseFormat::X10 }, ..m }
    } else {
        Modes { mouse_format: if enable { MouseFormat::Urxvt } else { MouseFormat::X10 }, ..m }
    }
}

/// Origin mode (DECOM): the cursor goes to the origin, the top of the
/// scroll region when set and the screen's top when reset.
#[verifier::opaque]
pub open spec fn origin_mode_spec(v: TermView, enable: bool) -> TermView {
    moved(TermView { modes: Modes { origin_mode: enable, ..v.modes }, ..v }, 0, if enable { v.scroll_top } else { 0 })
}

/// A private mode (DECSET with `enable`, DECRST without).
#[verifier::opaque]
pub open spec fn private_mode_spec(v: TermView, code: u16, enable: bool) -> TermView {
    if is_flag_mode(code) {
        TermView { modes: flag_mode_spec(v.modes, code, enable), ..v }
    } else if is_mouse_mode(code) {
        TermView { modes: mouse_mode_spec(v.modes, code, enable), ..v }
    } else if code == 6 {
        origin_mode_spec(v, enable)
    } else if code == 47 || code == 1047 || code == 1049 {
        if enable {
            enter_alt_spec(v)
        } else {
            leave_alt_spec(v)
        }
    } else if code == 1048 {
        if enable {
            save_cursor_spec(v)
        } else {
            restore_cursor_spec(v, false)
        }
    } else {
        v
    }
}

/// The private modes named by parameters `i..` applied in order.
pub open spec fn private_modes_from(v: TermView, p: Seq<Seq<u16>>, enable: bool, i: int) -> TermView
    decreases p.len() - i,
{
    if i < 0 || i >= p.len() {
        v
    } else {
        private_modes_from(private_mode_spec(v, first_value_spec(p[i]), enable), p, enable, i + 1)
    }
}

pub open spec fn first_value_spec(sub: Seq<u16>) -> u16 {
    if sub.len() > 0 {
        sub[0]
    } else {
        0
    }
}

/// An ANSI mode (SM with `enable`, RM without): 4 insert, 20 LNM.
#[verifier::opaque]
pub open spec fn ansi_mode_spec(v: TermView, code: u16, enable: bool) -> TermView {
    if code == 4 {
        TermView { modes: Modes { insert_mode: enable, ..v.modes }, ..v }
    } else if code == 20 {
        TermView { modes: Modes { linefeed_mode: enable, ..v.modes }, ..v }
    } else {
        v
    }
}

/// Pop `count` Kitty keyboard flag entries (fewer when the stack is
/// shorter).
pub open spec fn popped(s: Seq<u32>, count: int) -> Seq<u32> {
    if count >= s.len() {
        Seq::empty()
    } else {
        s.take(s.len() - count)
    }
}

/// A CSI sequence with parameters `p`, intermediates `im` and final
/// character `action`.
#[verifier::opaque]
pub open spec fn csi_spec(v: TermView, p: Seq<Seq<u16>>, im: Seq<u8>, action: char) -> TermView {
    let p0 = param_spec(p, 0, 1) as int;
    if im.len() == 0 {
        if action == 'A' {
            moved(v, v.cursor_col, sub_floor(v.cursor_row, p0))
        } else if action == 'B' {
            moved(v, v.cursor_col, min_int(v.cursor_row + p0, last_index(v.rows)))
        } else if action == 'C' {
            moved(v, min_int(v.cursor_col + p0, last_index(v.cols)), v.cursor_row)
        } else if action == 'D' {
            moved(v, sub_floor(v.cursor_col, p0), v.cursor_row)
        } else if action == 'E' {
            moved(v, 0, min_int(v.cursor_row + p0, last_index(v.rows)))
        } else if action == 'F' {
            moved(v, 0, sub_floor(v.cursor_row, p0))
        } else if action == 'G' {
            moved(v, min_int(p0 - 1, last_index(v.cols)), v.cursor_row)
        } else if action == 'H' || action == 'f' {
            moved(
                v,
                min_int(param_spec(p, 1, 1) - 1, last_index(v.cols)),
                min_int(p0 - 1, last_index(v.rows)),
            )
        } else if action == 'J' {
            ed_spec(v, param_spec(p, 0, 0))
        } else if action == 'K' {
            el_spec(v, param_spec(p, 0, 0))
        } else if action == 'L' {
            v.with_grid(scrolled_down(v.grid(), v.cursor_row, v.scroll_bottom, p0, v.cols, v.pen.bg))
        } else if action == 'M' {
            v.with_grid(scrolled_up(v.grid(), v.cursor_row, v.scroll_bottom, p0, v.cols, v.pen.bg))
        } else if action == 'P' {
            let g = v.grid();
            v.with_grid(with_row(g, v.cursor_row, cells_deleted(g[v.cursor_row], v.cursor_col, p0, v.pen.bg)))
        } else if action == 'S' {
            su_spec(v, p0)
        } else if action == 'T' {
            region_down_spec(v, p0)
        } else if action == 'X' {
            ech_spec(v, p0)
        } else if action == '@' {
            let g = v.grid();
            v.with_grid(with_row(g, v.cursor_row, cells_inserted(g[v.cursor_row], v.cursor_col, p0, v.pen.bg)))
        } else if action == 'd' {
            moved(v, v.cursor_col, min_int(p0 - 1, last_index(v.rows)))
        } else if action == 'm' {
            TermView { pen: sgr_spec(v.pen, p), ..v }
        } else if action == 'n' {
            dsr_spec(v, param_spec(p, 0, 0))
        } else if action == 'r' {
            decstbm_spec(v, param_spec(p, 0, 1), param_spec(p, 1, v.rows as u16))
        } else if action == 'Z' {
            TermView { cursor_col: back_tabs(v.tab_stops, v.cursor_col, p0 as nat), wrap_pending: false, ..v }
        } else if action == 'g' {
            tbc_spec(v, param_spec(p, 0, 0))
        } else if action == 'h' {
            ansi_mode_spec(v, param_spec(p, 0, 0), true)
        } else if action == 'l' {
            ansi_mode_spec(v, param_spec(p, 0, 0), false)
        } else if action == 'c' {
            if param_spec(p, 0, 0) == 0 {
                TermView { responses: v.responses.push(da_bytes()), ..v }
            } else {
                v
            }
        } else {
            v
        }
    } else if im.len() == 1 {
        let b = im[0];
        if b == 0x20 && action == 'q' {
            TermView { cursor_shape: shape_for(p0 as u16), ..v }
        } else if b == 0x3f && action == 'h' {
            private_modes_from(v, p, true, 0)
        } else if b == 0x3f && action == 'l' {
            private_modes_from(v, p, false, 0)
        } else if b == 0x3e && action == 'u' {
            TermView { kitty_flags: v.kitty_flags.push(param_spec(p, 0, 0) as u32), ..v }
        } else if b == 0x3c && action == 'u' {
            TermView { kitty_flags: popped(v.kitty_flags, p0), ..v }
        } else if b == 0x3e && action == 'c' {
            if param_spec(p, 0, 0) == 0 {
                TermView { responses: v.responses.push(da2_bytes()), ..v }
            } else {
                v
            }
        } else {
            v
        }
    } else {
        v
    }
}

/// `x` kept at most `n - 1` (0 when `n` is 0).
fn clamp_last(x: usize, n: usize) -> (r: usize)
    ensures
        r == min_int(x as int, last_index(n as int)),
{
    let last = if n > 0 { n - 1 } else { 0 };
    if x < last { x } else { last }
}

/// `a + n` kept at most `last_index(lim)`, without overflow.
fn add_clamped(a: usize, n: usize, lim: usize) -> (r: usize)
    ensures
        r == min_int(a + n, last_index(lim as int)),
{
    let last = if lim > 0 { lim - 1 } else { 0 };
    if a >= last || n >= last - a { last } else { a + n }
}

impl Terminal {
    /// Move the cursor to `(col, row)` with no wrap pending.
    fn move_to(&mut self, col: usize, row: usize)
        requires
            old(self).wf(),
            col as int <= last_index(old(self).cols as int),
            row as int <= last_index(old(self).rows as int),
        ensures
            final(self).wf(),
            final(self)@ == moved(old(self)@, col as int, row as int),
    {
        self.cursor_col = col;
        self.cursor_row = row;
        self.wrap_pending = false;
    }

    /// Erase in display (see `ed_spec`).
    fn erase_display(&mut self, mode: u16)
        requires
            old(self).wf(),
        ensures
            final(self).wf(),
            final(self)@ == ed_spec(old(self)@, mode),
    {
        proof {
            reveal(ed_spec);
        }
        let col = self.cursor_col;
        let row = self.cursor_row;
        let bg = self.pen.bg;
        if mode == 0 {
            if self.using_alt {
                self.alt_grid.erase_below_with_bg(col, row, bg);
            } else {
                self.main_grid.erase_below_with_bg(col, row, bg);
            }
        } else if mode == 1 {
            if self.using_alt {
                self.alt_grid.erase_above_with_bg(col, row, bg);
            } else {
                self.main_grid.erase_above_with_bg(col, row, bg);
            }
        } else if mode == 2 || mode == 3 {
            if self.using_alt {
                self.alt_grid.clear_with_bg(bg);
            } else {
                self.main_grid.clear_with_bg(bg);
            }
        }
        assert(self@ == ed_spec(old(self)@, mode));
    }

    /// Erase in line (see `el_spec`).
    fn erase_line(&mut self, mode: u16)
        requires
            old(self).wf(),
        ensures
            final(self).wf(),
            final(self)@ == el_spec(old(self)@, mode),
    {
        proof {
            reveal(el_spec);
        }
        let col = self.cursor_col;
        let row = self.cursor_row;
        let bg = self.pen.bg;
        if mode == 0 {
            if self.using_alt {
                self.alt_grid.clear_to_eol_with_bg(col, row, bg);
            } else {
                self.main_grid.clear_to_eol_with_bg(col, row, bg);
            }
        } else if mode == 1 {
            if self.using_alt {
                self.alt_grid.clear_from_bol_with_bg(col, row, bg);
            } else {
                self.main_grid.clear_from_bol_with_bg(col, row, bg);
            }
        } else if mode == 2 {
            if self.using_alt {
                self.alt_grid.clear_row_with_bg(row, bg);
            } else {
                self.main_grid.clear_row_with_bg(row, bg);
            }
        }
        assert(self@ == el_spec(old(self)@, mode));
    }

    /// Insert `n` lines at the cursor row within the scroll region (IL).
    fn insert_lines(&mut self, n: usize)
        requires
            old(self).wf(),
        ensures
            final(self).wf(),
            final(self)@ == old(self)@.with_grid(
                scrolled_down(old(self)@.grid(), old(self)@.cursor_row, old(self)@.scroll_bottom, n as int, old(self)@.cols, old(self)@.pen.bg),
            ),
    {
        let row = self.cursor_row;
        let bottom = self.scroll_bottom;
        let bg = self.pen.bg;
        if self.using_alt {
            self.alt_grid.insert_lines_with_bg(row, n, bottom, bg);
        } else {
            self.main_grid.insert_lines_with_bg(row, n, bottom, bg);
        }
        assert(self@ == old(self)@.with_grid(
            scrolled_down(old(self)@.grid(), old(self)@.cursor_row, old(self)@.scroll_bottom, n as int, old(self)@.cols, old(self)@.pen.bg),
        ));
    }

    /// Delete `n` lines at the cursor row within the scroll region (DL).
    fn delete_lines(&mut self, n: usize)
        requires
            old(self).wf(),
        ensures
            final(self).wf(),
            final(self)@ == old(self)@.with_grid(
                scrolled_up(old(self)@.grid(), old(self)@.cursor_row, old(self)@.scroll_bottom, n as int, old(self)@.cols, old(self)@.pen.bg),
            ),
    {
        let row = self.cursor_row;
        let bottom = self.scroll_bottom;
        let bg = self.pen.bg;
        if self.using_alt {
            self.alt_grid.delete_lines_with_bg(row, n, bottom, bg);
        } else {
            self.main_grid.delete_lines_with_bg(row, n, bottom, bg);
        }
        assert(self@ == old(self)@.with_grid(
            scrolled_up(old(self)@.grid(), old(self)@.cursor_row, old(self)@.scroll_bottom, n as int, old(self)@.cols, old(self)@.pen.bg),
        ));
    }

    /// Delete `n` characters at the cursor (DCH).
    fn delete_chars(&mut self, n: usize)
        requires
            old(self).wf(),
        ensures
            final(self).wf(),
            final(self)@ == old(self)@.with_grid(
                with_row(old(self)@.grid(), old(self)@.cursor_row, cells_deleted(old(self)@.grid()[old(self)@.cursor_row], old(self)@.cursor_col, n as int, old(self)@.pen.bg)),
            ),
    {
        let row = self.cursor_row;
        let col = self.cursor_col;
        let bg = self.pen.bg;
        if self.using_alt {
            self.alt_grid.delete_cells_with_bg(col, row, n, bg);
        } else {
            self.main_grid.delete_cells_with_bg(col, row, n, bg);
        }
        assert(self@ == old(self)@.with_grid(
            with_row(old(self)@.grid(), old(self)@.cursor_row, cells_deleted(old(self)@.grid()[old(self)@.cursor_row], old(self)@.cursor_col, n as int, old(self)@.pen.bg)),
        ));
    }

    /// Insert `n` blank characters at the cursor (ICH).
    fn insert_chars(&mut self, n: usize)
        requires
            old(self).wf(),
        ensures
            final(self).wf(),
            final(self)@ == old(self)@.with_grid(
                with_row(old(self)@.grid(), old(self)@.cursor_row, cells_inserted(old(self)@.grid()[old(self)@.cursor_row], old(self)@.cursor_col, n as int, old(self)@.pen.bg)),
            ),
    {
        let row = self.cursor_row;
        let col = self.cursor_col;
        let bg = self.pen.bg;
        if self.using_alt {
            self.alt_grid.insert_cells_with_bg(col, row, n, bg);
        } else {
            self.main_grid.insert_cells_with_bg(col, row, n, bg);
        }
        assert(self@ == old(self)@.with_grid(
            with_row(old(self)@.grid(), old(self)@.cursor_row, cells_inserted(old(self)@.grid()[old(self)@.cursor_row], old(self)@.cursor_col, n as int, old(self)@.pen.bg)),
        ));
    }

    /// Move the first `k` rows of the main grid to the scrollback.
    fn push_rows(&mut self, k: usize)
        requires
            old(self).wf(),
            k <= old(self).rows,
        ensures
            final(self).wf(),
            final(self)@ == (TermView {
                scrollback: pushed_rows(old(self)@.scrollback, old(self)@.main, k as nat),
                total_scrolled: add_usize(old(self)@.total_scrolled, k as int),
                ..old(self)@
            }),
    {
        proof {
            self.main_grid.lemma_wf();
            self.scrollback.lemma_wf();
        }
        let ghost v = self@;
        let mut i: usize = 0;
        while i < k
            invariant
                i <= k,
                k <= self.rows,
                self.wf(),
                v.scrollback.len() <= DEFAULT_SCROLLBACK_LINES,
                self@ == (TermView { scrollback: pushed_rows(v.scrollback, v.main, i as nat), ..v }),
            decreases k - i,
        {
            proof {
                self.main_grid.lemma_wf();
                self.scrollback.lemma_wf();
            }
            let row = self.main_grid.row_cells(i);
            self.scrollback.push(row);
            i += 1;
            assert(self.scrollback.lines_view().len() >= v.scrollback.len()) by {
                lemma_pushed_len(v.scrollback, v.main, i as nat);
            }
            assert(self@ == (TermView { scrollback: pushed_rows(v.scrollback, v.main, i as nat), ..v }));
        }
        self.total_scrolled_lines = if self.total_scrolled_lines <= usize::MAX - k {
            self.total_scrolled_lines + k
        } else {
            usize::MAX
        };
    }

    /// Scroll up (see `su_spec`).
    fn scroll_up_lines(&mut self, n: usize)
        requires
            old(self).wf(),
        ensures
            final(self).wf(),
            final(self)@ == su_spec(old(self)@, n as int),
    {
        proof {
            reveal(su_spec);
        }
        let bottom = self.scroll_bottom;
        if self.scroll_top == 0 && !self.using_alt {
            let k = if self.rows == 0 { 0 } else if n <= bottom { n } else { bottom + 1 };
            self.push_rows(k);
            self.scroll_images(n);
        }
        self.region_up(n);
    }

    /// Move the image placements up by `n` rows (see `scrolled_store`).
    fn scroll_images(&mut self, n: usize)
        requires
            old(self).wf(),
        ensures
            final(self).wf(),
            final(self)@ == (TermView { images: scrolled_store(old(self)@.images, n as int), ..old(self)@ }),
    {
        self.image_store.scroll_up_if_fits(n);
    }

    /// Set the scroll region rows.
    fn set_region(&mut self, top: usize, bottom: usize)
        requires
            old(self).wf(),
            top <= bottom,
            bottom as int <= last_index(old(self).rows as int),
        ensures
            final(self).wf(),
            final(self)@ == (TermView { scroll_top: top as int, scroll_bottom: bottom as int, ..old(self)@ }),
    {
        self.scroll_top = top;
        self.scroll_bottom = bottom;
    }

    /// Erase characters (see `ech_spec`).
    fn erase_chars(&mut self, n: usize)
        requires
            old(self).wf(),
        ensures
            final(self).wf(),
            final(self)@ == ech_spec(old(self)@, n as int),
    {
        proof {
            reveal(ech_spec);
        }
        if self.rows == 0 {
            proof {
                self.main_grid.lemma_wf();
                self.alt_grid.lemma_wf();
                assert(old(self)@.with_grid(old(self)@.grid()) == old(self)@);
            }
            return;
        }
        proof {
            self.main_grid.lemma_wf();
            self.alt_grid.lemma_wf();
        }
        let row = self.cursor_row;
        let col = self.cursor_col;
        let bg = self.pen.bg;
        let r = self.grid_row(row);
        let nr = ech_row_exec(r, col, n, bg);
        self.set_grid_row(row, nr);
    }

    /// Device status report (see `dsr_spec`).
    fn device_status(&mut self, mode: u16)
        requires
            old(self).wf(),
        ensures
            final(self).wf(),
            final(self)@ == dsr_spec(old(self)@, mode),
    {
        proof {
            reveal(dsr_spec);
        }
        if mode == 5 {
            let mut v: Vec<u8> = Vec::new();
            v.push(0x1b);
            v.push(0x5b);
            v.push(0x30);
            v.push(0x6e);
            assert(v@ =~= status_ok_bytes());
            self.queue_response(v);
        } else if mode == 6 {
            let mut v: Vec<u8> = Vec::new();
            v.push(0x1b);
            v.push(0x5b);
            push_decimal(&mut v, self.cursor_row + 1);
            v.push(0x3b);
            push_decimal(&mut v, self.cursor_col + 1);
            v.push(0x52);
            assert(v@ =~= cpr_bytes((self.cursor_row + 1) as nat, (self.cursor_col + 1) as nat));
            self.queue_response(v);
        }
    }

    /// Set the scroll region (see `decstbm_spec`).
    fn set_scroll_region(&mut self, top: u16, bottom: u16)
        requires
            old(self).wf(),
        ensures
            final(self).wf(),
            final(self)@ == decstbm_spec(old(self)@, top, bottom),
    {
        proof {
            reveal(decstbm_spec);
        }
        if self.rows == 0 {
            return;
        }
        let t: usize = if top >= 1 { (top - 1) as usize } else { 0 };
        let b0: usize = if bottom >= 1 { (bottom - 1) as usize } else { 0 };
        let b = if b0 < self.rows - 1 { b0 } else { self.rows - 1 };
        if t >= b {
            let last = self.rows - 1;
            self.set_region(0, last);
        } else {
            self.set_region(t, b);
        }
        self.move_to(0, 0);
    }

    /// Backward tabs (CBT).
    fn back_tab(&mut self, n: usize)
        requires
            old(self).wf(),
        ensures
            final(self).wf(),
            final(self)@ == (TermView {
                cursor_col: back_tabs(old(self)@.tab_stops, old(self)@.cursor_col, n as nat),
                wrap_pending: false,
                ..old(self)@
            }),
    {
        let ghost stops = self.tab_stops@;
        let ghost c0 = self.cursor_col as int;
        let mut col = self.cursor_col;
        let mut k: usize = 0;
        while k < n && col > 0
            invariant
                k <= n,
                col <= c0,
                stops == self.tab_stops@,
                stops.len() == self.cols,
                c0 < self.cols || c0 == 0,
                back_tabs(stops, col as int, (n - k) as nat) == back_tabs(stops, c0, n as nat),
            decreases n - k,
        {
            col -= 1;
            let ghost start = col as int;
            while col > 0 && !self.tab_stops[col]
                invariant
                    col <= start,
                    start < c0,
                    stops == self.tab_stops@,
                    stops.len() == self.cols,
                    c0 < self.cols,
                    prev_stop(stops, col as int) == prev_stop(stops, start),
                decreases col,
            {
                col -= 1;
            }
            k += 1;
        }
        self.cursor_col = col;
        self.wrap_pending = false;
    }
}

impl Terminal {
    /// A private mode (see `private_mode_spec`).
    fn private_mode(&mut self, code: u16, enable: bool)
        requires
            old(self).wf(),
        ensures
            final(self).wf(),
            final(self)@ == private_mode_spec(old(self)@, code, enable),
    {
        proof {
            reveal(private_mode_spec);
        }
        if code == 1 || code == 7 || code == 25 || code == 1004 || code == 80 || code == 2004 {
            let m = flag_mode(self.modes, code, enable);
            self.set_modes(m);
        } else if code == 9 || code == 1000 || code == 1002 || code == 1003 || code == 1005 || code == 1006
            || code == 1015 {
            let m = mouse_mode(self.modes, code, enable);
            self.set_modes(m);
        } else if code == 6 {
            self.origin_mode(enable);
        } else if code == 47 || code == 1047 || code == 1049 {
            if enable {
                self.enter_alt_screen();
            } else {
                self.leave_alt_screen();
            }
        } else if code == 1048 {
            if enable {
                self.save_cursor();
            } else {
                self.restore_cursor(false);
            }
        }
    }

    /// Origin mode (see `origin_mode_spec`).
    fn origin_mode(&mut self, enable: bool)
        requires
            old(self).wf(),
        ensures
            final(self).wf(),
            final(self)@ == origin_mode_spec(old(self)@, enable),
    {
        proof {
            reveal(origin_mode_spec);
        }
        let m = Modes { origin_mode: enable, ..self.modes };
        self.set_modes(m);
        let r = if enable { self.scroll_top } else { 0 };
        self.move_to(0, r);
    }

    /// Replace the mode flags.
    fn set_modes(&mut self, m: Modes)
        requires
            old(self).wf(),
        ensures
            final(self).wf(),
            final(self)@ == (TermView { modes: m, ..old(self)@ }),
    {
        self.modes = m;
    }

    /// The private modes named by all parameters, in order (DECSET/DECRST).
    fn private_modes(&mut self, params: &Vec<Vec<u16>>, enable: bool)
        requires
            old(self).wf(),
        ensures
            final(self).wf(),
            final(self)@ == private_modes_from(old(self)@, params_view(params@), enable, 0),
    {
        let ghost p = params_view(params@);
        let ghost v0 = self@;
        let mut i: usize = 0;
        while i < params.len()
            invariant
                i <= params.len(),
                p == params_view(params@),
                self.wf(),
                private_modes_from(self@, p, enable, i as int) == private_modes_from(v0, p, enable, 0),
            decreases params.len() - i,
        {
            let sub = &params[i];
            assert(sub@ == p[i as int]);
            let code = if sub.len() > 0 { sub[0] } else { 0 };
            self.private_mode(code, enable);
            i += 1;
        }
    }

    /// An ANSI mode (see `ansi_mode_spec`).
    #[verifier::spinoff_prover]
    #[verifier::rlimit(30)]
    fn ansi_mode(&mut self, code: u16, enable: bool)
        requires
            old(self).wf(),
        ensures
            final(self).wf(),
            final(self)@ == ansi_mode_spec(old(self)@, code, enable),
    {
        proof {
            reveal(ansi_mode_spec);
        }
        if code == 4 {
            self.modes.insert_mode = enable;
        } else if code == 20 {
            self.modes.linefeed_mode = enable;
        }
    }

    /// Tab clear (see `tbc_spec`).
    fn tab_clear(&mut self, mode: u16)
        requires
            old(self).wf(),
        ensures
            final(self).wf(),
            final(self)@ == tbc_spec(old(self)@, mode),
    {
        proof {
            reveal(tbc_spec);
        }
        if mode == 0 {
            if self.cursor_col < self.cols {
                let c = self.cursor_col;
                self.tab_stops.set(c, false);
                assert(self@ == tbc_spec(old(self)@, mode));
            }
        } else if mode == 3 {
            let n = self.tab_stops.len();
            let mut i: usize = 0;
            while i < n
                invariant
                    i <= n,
                    n == self.tab_stops@.len(),
                    self.wf(),
                    self@ == (TermView { tab_stops: self.tab_stops@, ..old(self)@ }),
                    forall|k: int| 0 <= k < i ==> !#[trigger] self.tab_stops@[k],
                    forall|k: int| i <= k < n ==> #[trigger] self.tab_stops@[k] == old(self)@.tab_stops[k],
                decreases n - i,
            {
                self.tab_stops.set(i, false);
                i += 1;
            }
            assert(self.tab_stops@ =~= Seq::new(self.cols as nat, |_i: int| false));
            assert(self@ == tbc_spec(old(self)@, mode));
        }
    }

    /// Set the pen from SGR parameters.
    fn select_graphic_rendition(&mut self, params: &Vec<Vec<u16>>)
        requires
            old(self).wf(),
        ensures
            final(self).wf(),
            final(self)@ == (TermView { pen: sgr_spec(old(self)@.pen, params_view(params@)), ..old(self)@ }),
    {
        self.pen = apply_sgr(self.pen, params);
    }

    /// Set the cursor shape.
    fn set_cursor_shape(&mut self, shape: CursorShape)
        requires
            old(self).wf(),
        ensures
            final(self).wf(),
            final(self)@ == (TermView { cursor_shape: shape, ..old(self)@ }),
    {
        self.cursor_shape = shape;
    }

    /// Push Kitty keyboard flags.
    fn kitty_push(&mut self, flags: u32)
        requires
            old(self).wf(),
        ensures
            final(self).wf(),
            final(self)@ == (TermView { kitty_flags: old(self)@.kitty_flags.push(flags), ..old(self)@ }),
    {
        self.kitty_keyboard_flags.push(flags);
    }

    /// Pop up to `count` Kitty keyboard flag entries.
    fn kitty_pop(&mut self, count: usize)
        requires
            old(self).wf(),
        ensures
            final(self).wf(),
            final(self)@ == (TermView { kitty_flags: popped(old(self)@.kitty_flags, count as int), ..old(self)@ }),
    {
        let ghost s0 = self.kitty_keyboard_flags@;
        let mut k: usize = 0;
        while k < count && self.kitty_keyboard_flags.len() > 0
            invariant
                k <= count,
                self.wf(),
                self@ == (TermView { kitty_flags: self.kitty_keyboard_flags@, ..old(self)@ }),
                self.kitty_keyboard_flags@ == popped(s0, k as int),
                s0 == old(self)@.kitty_flags,
            decreases count - k,
        {
            self.kitty_keyboard_flags.pop();
            k += 1;
            assert(self.kitty_keyboard_flags@ =~= popped(s0, k as int));
        }
        assert(self.kitty_keyboard_flags@ =~= popped(s0, count as int));
    }

    /// Queue the primary device attributes reply.
    fn reply_da(&mut self)
        requires
            old(self).wf(),
        ensures
            final(self).wf(),
            final(self)@ == (TermView { responses: old(self)@.responses.push(da_bytes()), ..old(self)@ }),
    {
        let mut v: Vec<u8> = Vec::new();
        v.push(0x1b);
        v.push(0x5b);
        v.push(0x3f);
        v.push(0x36);
        v.push(0x32);
        v.push(0x3b);
        v.push(0x34);
        v.push(0x3b);
        v.push(0x32);
        v.push(0x32);
        v.push(0x63);
        assert(v@ =~= da_bytes());
        self.queue_response(v);
    }

    /// Queue the secondary device attributes reply.
    fn reply_da2(&mut self)
        requires
            old(self).wf(),
        ensures
            final(self).wf(),
            final(self)@ == (TermView { responses: old(self)@.responses.push(da2_bytes()), ..old(self)@ }),
    {
        let mut v: Vec<u8> = Vec::new();
        v.push(0x1b);
        v.push(0x5b);
        v.push(0x3e);
        v.push(0x31);
        v.push(0x3b);
        v.push(0x31);
        v.push(0x3b);
        v.push(0x30);
        v.push(0x63);
        assert(v@ =~= da2_bytes());
        self.queue_response(v);
    }

    /// A CSI sequence (see `csi_spec`).
    pub fn csi_dispatch(&mut self, params: &Vec<Vec<u16>>, intermediates: &[u8], ignore: bool, action: char)
        requires
            old(self).wf(),
        ensures
            final(self).wf(),
            final(self)@ == csi_spec(old(self)@, params_view(params@), intermediates@, action),
    {
        proof {
            reveal(csi_spec);
        }
        let p0 = param(params, 0, 1) as usize;
        if intermediates.len() == 0 {
            self.csi_plain(params, p0, action);
        } else if intermediates.len() == 1 {
            let b = intermediates[0];
            if b == 0x20 && action == 'q' {
                let shape = if p0 == 2 {
                    CursorShape::Block
                } else if p0 == 3 {
                    CursorShape::BlinkingUnderline
                } else if p0 == 4 {
                    CursorShape::Underline
                } else if p0 == 5 {
                    CursorShape::BlinkingBar
                } else if p0 == 6 {
                    CursorShape::Bar
                } else {
                    CursorShape::BlinkingBlock
                };
                self.set_cursor_shape(shape);
            } else if b == 0x3f && action == 'h' {
                self.private_modes(params, true);
            } else if b == 0x3f && action == 'l' {
                self.private_modes(params, false);
            } else if b == 0x3e && action == 'u' {
                let flags = param(params, 0, 0) as u32;
                self.kitty_push(flags);
            } else if b == 0x3c && action == 'u' {
                self.kitty_pop(p0);
            } else if b == 0x3e && action == 'c' {
                if param(params, 0, 0) == 0 {
                    self.reply_da2();
                }
            }
        }
    }

    /// A CSI sequence without intermediates (the first branch of `csi_spec`).
    fn csi_plain(&mut self, params: &Vec<Vec<u16>>, p0: usize, action: char)
        requires
            old(self).wf(),
            p0 == param_spec(params_view(params@), 0, 1),
        ensures
            final(self).wf(),
            final(self)@ == csi_spec(old(self)@, params_view(params@), Seq::<u8>::empty(), action),
    {
        proof {
            reveal(csi_spec);
        }
        let col = self.cursor_col;
        let row = self.cursor_row;
        let cols = self.cols;
        let rows = self.rows;
        if action == 'A' {
            let r = if row >= p0 { row - p0 } else { 0 };
            self.move_to(col, r);
        } else if action == 'B' {
            let r = add_clamped(row, p0, rows);
            self.move_to(col, r);
        } else if action == 'C' {
            let c = add_clamped(col, p0, cols);
            self.move_to(c, row);
        } else if action == 'D' {
            let c = if col >= p0 { col - p0 } else { 0 };
            self.move_to(c, row);
        } else if action == 'E' {
            let r = add_clamped(row, p0, rows);
            self.move_to(0, r);
        } else if action == 'F' {
            let r = if row >= p0 { row - p0 } else { 0 };
            self.move_to(0, r);
        } else if action == 'G' {
            let c = clamp_last(p0 - 1, cols);
            self.move_to(c, row);
        } else if action == 'H' || action == 'f' {
            let p1 = param(params, 1, 1) as usize;
            let r = clamp_last(p0 - 1, rows);
            let c = clamp_last(p1 - 1, cols);
            self.move_to(c, r);
        } else if action == 'J' {
            let mode = param(params, 0, 0);
            self.erase_display(mode);
        } else if action == 'K' {
            let mode = param(params, 0, 0);
            self.erase_line(mode);
        } else if action == 'L' {
            self.insert_lines(p0);
        } else if action == 'M' {
            self.delete_lines(p0);
        } else if action == 'P' {
            self.delete_chars(p0);
        } else if action == 'S' {
            self.scroll_up_lines(p0);
        } else if action == 'T' {
            self.region_down(p0);
        } else if action == 'X' {
            self.erase_chars(p0);
        } else if action == '@' {
            self.insert_chars(p0);
        } else if action == 'd' {
            let r = clamp_last(p0 - 1, rows);
            self.move_to(col, r);
        } else if action == 'm' {
            self.select_graphic_rendition(params);
        } else if action == 'n' {
            let mode = param(params, 0, 0);
            self.device_status(mode);
        } else if action == 'r' {
            let bottom_default = rows as u16;
            let top = param(params, 0, 1);
            let bottom = param(params, 1, bottom_default);
            self.set_scroll_region(top, bottom);
        } else if action == 'Z' {
            self.back_tab(p0);
        } else if action == 'g' {
            let mode = param(params, 0, 0);
            self.tab_clear(mode);
        } else if action == 'h' {
            let mode = param(params, 0, 0);
            self.ansi_mode(mode, true);
        } else if action == 'l' {
            let mode = param(params, 0, 0);
            self.ansi_mode(mode, false);
        } else if action == 'c' {
            if param(params, 0, 0) == 0 {
                self.reply_da();
            }
        }
    }
}

/// `m` after a flag mode (see `flag_mode_spec`).
fn flag_mode(m: Modes, code: u16, enable: bool) -> (r: Modes)
    ensures
        r == flag_mode_spec(m, code, enable),
{
    proof {
        reveal(flag_mode_spec);
    }
    let mut r = m;
    if code == 1 {
        r.application_cursor_keys = enable;
    } else if code == 7 {
        r.auto_wrap = enable;
    } else if code == 25 {
        r.cursor_visible = enable;
    } else if code == 1004 {
        r.focus_events = enable;
    } else if code == 80 {
        r.sixel_display_mode = enable;
    } else {
        r.bracketed_paste = enable;
    }
    r
}

/// `m` after a mouse mode (see `mouse_mode_spec`).
fn mouse_mode(m: Modes, code: u16, enable: bool) -> (r: Modes)
    ensures
        r == mouse_mode_spec(m, code, enable),
{
    proof {
        reveal(mouse_mode_spec);
    }
    let mut r = m;
    if code == 9 || code == 1000 {
        r.mouse_mode = if enable { MouseMode::Click } else { MouseMode::Off };
    } else if code == 1002 {
        r.mouse_mode = if enable { MouseMode::ButtonMotion } else { MouseMode::Off };
    } else if code == 1003 {
        r.mouse_mode = if enable { MouseMode::AnyMotion } else { MouseMode::Off };
    } else if code == 1005 {
        r.mouse_format = if enable { MouseFormat::Utf8 } else { MouseFormat::X10 };
    } else if code == 1006 {
        r.mouse_format = if enable { MouseFormat::Sgr } else { MouseFormat::X10 };
    } else {
        r.mouse_format = if enable { MouseFormat::Urxvt } else { MouseFormat::X10 };
    }
    r
}

/// `ech_row` computed on a vector.
fn ech_row_exec(r: Vec<Cell>, col: usize, n: usize, bg: Color) -> (out: Vec<Cell>)
    ensures
        out@ == ech_row(r@, col as int, n as int, bg),
        out@.len() == r@.len(),
{
    let cols = r.len();
    let mut v = r;
    if col < cols && v[col].width == 0 && col > 0 {
        v.set(col - 1, Cell::blank_with_bg(bg));
    }
    let end = if col < cols && n < cols - col { col + n } else { cols };
    if end > 0 && end < cols && v[end].width == 0 {
        v.set(end, Cell::blank_with_bg(bg));
    }
    let ghost r2 = v@;
    let mut c: usize = 0;
    while c < cols
        invariant
            c <= cols,
            cols == r2.len(),
            v@.len() == cols,
            forall|k: int| 0 <= k < cols ==> #[trigger] v@[k] == (if k < c && col <= k < col + n {
                blank_cell(bg)
            } else {
                r2[k]
            }),
        decreases cols - c,
    {
        if col <= c && c - col < n {
            v.set(c, Cell::blank_with_bg(bg));
        }
        c += 1;
    }
    assert(v@ =~= blanked(r2, col as int, col + n, bg));
    v
}

/// Each step of `pushed_rows` keeps at least as many lines as before, up to
/// the limit.
proof fn lemma_pushed_len(sb: Seq<Seq<Cell>>, g: Seq<Seq<Cell>>, k: nat)
    requires
        sb.len() <= DEFAULT_SCROLLBACK_LINES,
    ensures
        pushed_rows(sb, g, k).len() >= sb.len(),
        pushed_rows(sb, g, k).len() <= DEFAULT_SCROLLBACK_LINES,
    decreases k,
{
    if k > 0 {
        lemma_pushed_len(sb, g, (k - 1) as nat);
    }
}

} // verus!
