//! Properties of the terminal that span several operations.

use vstd::prelude::*;
use super::{
    TermView, apply_saved_spec, resize_spec, enter_alt_spec, esc_spec, initial_view, last_index, leave_alt_spec,
    min_int, restore_cursor_spec, save_cursor_spec, saved_for, saved_of, to_main_spec,
};
use super::csi::{csi_spec, ed_spec, el_spec, first_value_spec, param_spec, popped, private_mode_spec, private_modes_from};
use super::history::{restore_spec, snapshot_spec, unanchored};
use super::osc::{color_reply, dark_rgb, is_iterm2, light_rgb, osc_rel, osc_spec, trimmed, with_record};
use super::{region_down_spec, reverse_index_spec, CommandView};
use crate::cell::{blank_cell, default_pen, Attrs};
use crate::color::{named_color_at, Color};
use crate::grid::{resized, shaped};
use crate::sgr::{sgr_from, sgr_code};

verus! {

/// DECSET/DECRST of the one private mode `code`.
pub open spec fn one_private_mode(v: TermView, code: u16, enable: bool) -> TermView {
    csi_spec(v, seq![seq![code]], seq![0x3fu8], if enable { 'h' } else { 'l' })
}

proof fn lemma_one_private_mode(v: TermView, code: u16, enable: bool)
    ensures
        one_private_mode(v, code, enable) == private_mode_spec(v, code, enable),
{
    reveal(csi_spec);
    let p = seq![seq![code]];
    assert(first_value_spec(p[0]) == code);
    assert(private_modes_from(private_mode_spec(v, code, enable), p, enable, 1) == private_mode_spec(
        v,
        code,
        enable,
    ));
}

/// ESC 8 (DECRC) puts back the cursor position, pen, shape and visibility
/// that ESC 7 (DECSC) saved in state `v`, whatever moved or changed in
/// between (state `u`), as long as the screen on display and the size are
/// the same and nothing saved the cursor again.
pub proof fn law_decsc_then_decrc(v: TermView, u: TermView)
    requires
        v.ok(),
        u.cols == v.cols,
        u.rows == v.rows,
        u.using_alt == v.using_alt,
        saved_for(u) == saved_for(esc_spec(v, Seq::empty(), 0x37)),
    ensures
        ({
            let w = esc_spec(u, Seq::empty(), 0x38);
            &&& w.cursor_col == v.cursor_col
            &&& w.cursor_row == v.cursor_row
            &&& w.pen == v.pen
            &&& w.cursor_shape == v.cursor_shape
            &&& w.modes.cursor_visible == v.modes.cursor_visible
        }),
{
    reveal(esc_spec);
    reveal(save_cursor_spec);
    reveal(restore_cursor_spec);
    reveal(apply_saved_spec);
}

/// Entering the alternate screen (DECSET 1049) leaves the main grid as it
/// was and keeps the cursor of the main screen for later.
pub proof fn law_alt_screen_enter(v: TermView)
    requires
        v.ok(),
        !v.using_alt,
    ensures
        ({
            let u = one_private_mode(v, 1049, true);
            &&& u.using_alt
            &&& u.main == v.main
            &&& u.saved_main == Some(saved_of(v))
            &&& u.cols == v.cols
            &&& u.rows == v.rows
        }),
{
    lemma_one_private_mode(v, 1049, true);
    reveal(private_mode_spec);
    reveal(enter_alt_spec);
}

/// Leaving the alternate screen (DECRST 1049) shows the main grid of the
/// time the alternate screen was entered (state `v`) again, whatever ran
/// on the alternate screen meanwhile (state `u`), and puts back that
/// time's cursor position, pen, shape and visibility.
pub proof fn law_alt_screen_leave(v: TermView, u: TermView)
    requires
        v.ok(),
        u.using_alt,
        u.main == v.main,
        u.saved_main == Some(saved_of(v)),
        u.cols == v.cols,
        u.rows == v.rows,
    ensures
        ({
            let w = one_private_mode(u, 1049, false);
            &&& !w.using_alt
            &&& w.main == v.main
            &&& w.grid() == v.main
            &&& w.cursor_col == v.cursor_col
            &&& w.cursor_row == v.cursor_row
            &&& w.pen == v.pen
            &&& w.cursor_shape == v.cursor_shape
            &&& w.modes.cursor_visible == v.modes.cursor_visible
        }),
{
    lemma_one_private_mode(u, 1049, false);
    reveal(private_mode_spec);
    reveal(leave_alt_spec);
    reveal(to_main_spec);
    reveal(apply_saved_spec);
}

/// Pushing Kitty keyboard flags (CSI > flags u) and popping once (CSI < u)
/// gives back the flag stack as it was.
pub proof fn law_kitty_flags_push_pop(v: TermView, flags: u16)
    ensures
        csi_spec(csi_spec(v, seq![seq![flags]], seq![0x3eu8], 'u'), Seq::empty(), seq![0x3cu8], 'u').kitty_flags
            == v.kitty_flags,
{
    reveal(csi_spec);
    let p: Seq<Seq<u16>> = seq![seq![flags]];
    let u = csi_spec(v, p, seq![0x3eu8], 'u');
    assert(u.kitty_flags == v.kitty_flags.push(param_spec(p, 0, 0) as u32));
    assert(param_spec(Seq::empty(), 0, 1) == 1);
    assert(popped(u.kitty_flags, 1) =~= v.kitty_flags);
}

/// SGR 0, and SGR with no parameter, reset the pen whatever it was.
pub proof fn law_sgr_reset(v: TermView)
    ensures
        csi_spec(v, seq![seq![0u16]], Seq::empty(), 'm').pen == default_pen(),
        csi_spec(v, Seq::empty(), Seq::empty(), 'm').pen == default_pen(),
{
    reveal(csi_spec);
    let p: Seq<Seq<u16>> = seq![seq![0u16]];
    assert(sgr_from(sgr_code(v.pen, p[0]), p, 1) == sgr_code(v.pen, p[0]));
}

/// RIS (ESC c) brings any state back to that of a new terminal of its size.
pub proof fn law_full_reset(v: TermView)
    ensures
        esc_spec(v, Seq::empty(), 0x63) == initial_view(v.cols, v.rows),
{
    reveal(esc_spec);
}

/// Restoring a snapshot gives back the grid on display, the cursor, pen,
/// cursor shape, title, working directory and size, and the command
/// history with its IDs, texts and exit codes (line positions are dropped,
/// as the scrollback is not part of a snapshot).
pub proof fn law_snapshot_restore(v: TermView)
    requires
        v.ok(),
    ensures
        ({
            let r = restore_spec(snapshot_spec(v));
            &&& r.grid() == v.grid()
            &&& r.cursor_col == v.cursor_col
            &&& r.cursor_row == v.cursor_row
            &&& r.pen == v.pen
            &&& r.cursor_shape == v.cursor_shape
            &&& r.osc.title == v.osc.title
            &&& r.osc.cwd == v.osc.cwd
            &&& r.cols == v.cols
            &&& r.rows == v.rows
            &&& r.history == v.history.map_values(|c| unanchored(c))
        }),
{
    reveal(restore_spec);
    reveal(initial_view);
    let g = v.grid();
    assert(shaped(g, v.cols, v.rows));
    assert(resized(g, v.cols, v.rows) =~= g) by {
        assert forall|r: int| 0 <= r < v.rows implies #[trigger] resized(g, v.cols, v.rows)[r] =~= g[r] by {}
    }
}

/// Recording a command keeps at most the configured number of records:
/// the newest ones, ending with the new record (when the limit allows any),
/// in their order.
pub proof fn law_history_keeps_newest(v: TermView, rec: CommandView)
    requires
        v.max_history >= 0,
    ensures
        ({
            let h = with_record(v, rec).history;
            &&& h.len() <= v.max_history
            &&& h.len() as int == if v.history.len() + 1 <= v.max_history { (v.history.len() + 1) as int } else { v.max_history }
            &&& v.max_history >= 1 ==> h.last() == rec
            &&& forall|k: int| 0 <= k < h.len() ==> #[trigger] h[k] == v.history.push(rec)[v.history.len() + 1 - h.len() + k]
        }),
{
    let all = v.history.push(rec);
    assert(trimmed(all, v.max_history).len() <= v.max_history || all.len() <= v.max_history);
}

/// Resizing keeps every cell that still fits in the new size, on both
/// screens; the cells that come into view are blank.
pub proof fn law_resize_keeps_cells(v: TermView, cols: int, rows: int, r: int, c: int)
    requires
        v.ok(),
        0 <= r < rows,
        0 <= c < cols,
    ensures
        ({
            let w = resize_spec(v, cols, rows);
            &&& (r < v.rows && c < v.cols) ==> w.main[r][c] == v.main[r][c] && w.alt[r][c] == v.alt[r][c]
            &&& !(r < v.rows && c < v.cols) ==> w.main[r][c] == crate::cell::default_cell()
        }),
{
    reveal(resize_spec);
}

/// Growing the terminal and shrinking it back to its size gives back both
/// grids and the cursor.
pub proof fn law_resize_grow_then_back(v: TermView, cols: int, rows: int)
    requires
        v.ok(),
        v.cols <= cols,
        v.rows <= rows,
    ensures
        ({
            let w = resize_spec(resize_spec(v, cols, rows), v.cols, v.rows);
            &&& w.main == v.main
            &&& w.alt == v.alt
            &&& w.cursor_col == v.cursor_col
            &&& w.cursor_row == v.cursor_row
        }),
{
    reveal(resize_spec);
    let u = resize_spec(v, cols, rows);
    let w = resize_spec(u, v.cols, v.rows);
    assert(w.main =~= v.main) by {
        assert forall|r: int| 0 <= r < v.rows implies #[trigger] w.main[r] =~= v.main[r] by {}
    }
    assert(w.alt =~= v.alt) by {
        assert forall|r: int| 0 <= r < v.rows implies #[trigger] w.alt[r] =~= v.alt[r] by {}
    }
}

/// OSC 10, 11 and 12 with `?` queue exactly one reply, the foreground,
/// background or cursor color (`rgb:cccc/cccc/cccc`, `rgb:1e1e/1e1e/2e2e`,
/// `rgb:cccc/cccc/cccc`); with anything else they queue nothing and change
/// nothing.
pub proof fn law_osc_color_query(v: TermView, p: Seq<Seq<u8>>, now: i64, w: TermView)
    requires
        p.len() >= 1,
        p[0] == seq![0x31u8, 0x30u8] || p[0] == seq![0x31u8, 0x31u8] || p[0] == seq![0x31u8, 0x32u8],
        osc_rel(v, p, now, w),
    ensures
        p.len() > 1 && p[1] == seq![0x3fu8] ==> w == (TermView {
            responses: v.responses.push(color_reply(
                p[0],
                if p[0] == seq![0x31u8, 0x31u8] { dark_rgb() } else { light_rgb() },
            )),
            ..v
        }),
        !(p.len() > 1 && p[1] == seq![0x3fu8]) ==> w == v,
{
    reveal(osc_spec);
    assert(!is_iterm2(p)) by {
        if p[0] == seq![0x31u8, 0x33u8, 0x33u8, 0x37u8] {
            assert(p[0].len() == 4);
        }
    }
    assert(p[0] != seq![0x30u8] && p[0] != seq![0x32u8]) by {
        assert(p[0].len() == 2);
    }
    if p[0] == seq![0x31u8, 0x30u8] {
        assert(p[0] != seq![0x31u8, 0x31u8] && p[0] != seq![0x31u8, 0x32u8]) by {
            assert(p[0][1] == 0x30u8);
        }
    } else if p[0] == seq![0x31u8, 0x31u8] {
        assert(p[0] != seq![0x31u8, 0x30u8] && p[0] != seq![0x31u8, 0x32u8]) by {
            assert(p[0][1] == 0x31u8);
        }
    } else {
        assert(p[0] != seq![0x31u8, 0x30u8] && p[0] != seq![0x31u8, 0x31u8]) by {
            assert(p[0][1] == 0x32u8);
        }
    }
}

/// Taking a snapshot of a restored terminal gives back the snapshot it was
/// restored from, but for the command records' line positions (reset) and
/// the scrolled-line count (zero, as the scrollback is not restored).
pub proof fn law_snapshot_of_restored(v: TermView)
    requires
        v.ok(),
    ensures
        ({
            let s = snapshot_spec(v);
            let s2 = snapshot_spec(restore_spec(s));
            &&& s2.grid == s.grid
            &&& s2.cursor_col == s.cursor_col
            &&& s2.cursor_row == s.cursor_row
            &&& s2.cursor_shape == s.cursor_shape
            &&& s2.pen == s.pen
            &&& s2.cols == s.cols
            &&& s2.rows == s.rows
            &&& s2.title == s.title
            &&& s2.cwd == s.cwd
            &&& s2.history == s.history.map_values(|c| unanchored(c))
            &&& s2.total_scrolled == 0
        }),
{
    law_snapshot_restore(v);
    reveal(restore_spec);
}

/// Restoring any snapshot: the cursor is kept on screen, no lines count as
/// scrolled, the command records are kept in order without line positions,
/// and command IDs continue after the last record.
pub proof fn law_restore_any_snapshot(s: super::history::SnapshotView)
    ensures
        ({
            let u = restore_spec(s);
            &&& u.cursor_col == min_int(s.cursor_col as int, last_index(s.cols as int))
            &&& u.cursor_row == min_int(s.cursor_row as int, last_index(s.rows as int))
            &&& u.total_scrolled == 0
            &&& u.history == s.history.map_values(|c| unanchored(c))
            &&& u.next_command_id == if s.history.len() == 0 {
                0
            } else if s.history.last().id == u64::MAX {
                u64::MAX
            } else {
                (s.history.last().id + 1) as u64
            }
            &&& u.main == resized(s.grid, s.cols as int, s.rows as int)
            &&& u.cols == s.cols
            &&& u.rows == s.rows
            &&& !u.using_alt
        }),
{
    reveal(restore_spec);
    reveal(initial_view);
}

/// Whether ED with mode `mode` erases cell `(r, c)` when the cursor is at
/// `(col, row)`: mode 0 from the cursor to the end of the screen, mode 1
/// from the start of the screen to the cursor inclusive, modes 2 and 3 the
/// whole screen, any other mode nothing.
pub open spec fn ed_erases(mode: u16, col: int, row: int, r: int, c: int) -> bool {
    if mode == 0 {
        r > row || (r == row && c >= col)
    } else if mode == 1 {
        r < row || (r == row && c <= col)
    } else {
        mode == 2 || mode == 3
    }
}

/// Whether EL with mode `mode` erases cell `(r, c)` when the cursor is at
/// `(col, row)`: only cells of the cursor's row, mode 0 from the cursor to
/// the end of the line, mode 1 from its start to the cursor inclusive,
/// mode 2 the whole line.
pub open spec fn el_erases(mode: u16, col: int, row: int, r: int, c: int) -> bool {
    r == row && (if mode == 0 {
        c >= col
    } else if mode == 1 {
        c <= col
    } else {
        mode == 2
    })
}

/// Erase in display (CSI J; no parameter is mode 0) blanks, in the pen's
/// background, exactly the cells its mode names and keeps every other
/// cell, the cursor and the rest of the state: ED 0 keeps everything
/// before the cursor, ED 1 everything after it.
pub proof fn law_erase_in_display(v: TermView, mode: u16)
    requires
        v.ok(),
    ensures
        ({
            let w = csi_spec(v, seq![seq![mode]], Seq::empty(), 'J');
            &&& w == v.with_grid(w.grid())
            &&& shaped(w.grid(), v.cols, v.rows)
            &&& forall|r: int, c: int|
                0 <= r < v.rows && 0 <= c < v.cols ==> #[trigger] w.grid()[r][c] == if ed_erases(
                    mode,
                    v.cursor_col,
                    v.cursor_row,
                    r,
                    c,
                ) {
                    blank_cell(v.pen.bg)
                } else {
                    v.grid()[r][c]
                }
        }),
        csi_spec(v, Seq::empty(), Seq::empty(), 'J') == csi_spec(v, seq![seq![0u16]], Seq::empty(), 'J'),
{
    reveal(csi_spec);
    reveal(ed_spec);
    let p: Seq<Seq<u16>> = seq![seq![mode]];
    assert(param_spec(p, 0, 0) == mode);
    assert(param_spec(seq![seq![0u16]], 0, 0) == 0);
    let w = csi_spec(v, p, Seq::empty(), 'J');
    let g = v.grid();
    assert(shaped(g, v.cols, v.rows));
    assert forall|r: int| 0 <= r < v.rows implies #[trigger] w.grid()[r].len() == v.cols by {}
    if !(mode == 0 || mode == 1 || mode == 2 || mode == 3) {
        assert(w.grid() == g);
    }
}

/// Erase in line (CSI K; no parameter is mode 0) blanks, in the pen's
/// background, exactly the cells of the cursor's row its mode names and
/// keeps every other cell, the cursor and the rest of the state.
pub proof fn law_erase_in_line(v: TermView, mode: u16)
    requires
        v.ok(),
        v.rows > 0,
    ensures
        ({
            let w = csi_spec(v, seq![seq![mode]], Seq::empty(), 'K');
            &&& w == v.with_grid(w.grid())
            &&& shaped(w.grid(), v.cols, v.rows)
            &&& forall|r: int, c: int|
                0 <= r < v.rows && 0 <= c < v.cols ==> #[trigger] w.grid()[r][c] == if el_erases(
                    mode,
                    v.cursor_col,
                    v.cursor_row,
                    r,
                    c,
                ) {
                    blank_cell(v.pen.bg)
                } else {
                    v.grid()[r][c]
                }
        }),
        csi_spec(v, Seq::empty(), Seq::empty(), 'K') == csi_spec(v, seq![seq![0u16]], Seq::empty(), 'K'),
{
    reveal(csi_spec);
    reveal(el_spec);
    let p: Seq<Seq<u16>> = seq![seq![mode]];
    assert(param_spec(p, 0, 0) == mode);
    assert(param_spec(seq![seq![0u16]], 0, 0) == 0);
    let w = csi_spec(v, p, Seq::empty(), 'K');
    let g = v.grid();
    assert(shaped(g, v.cols, v.rows));
    assert forall|r: int| 0 <= r < v.rows implies #[trigger] w.grid()[r].len() == v.cols by {}
    if !(mode == 0 || mode == 1 || mode == 2) {
        assert(w.grid() == g);
    }
}

/// Reverse index (ESC M) with the cursor on the top row of the scroll
/// region scrolls the region down: its top row becomes blank in the pen's
/// background, each other row of the region shows the row above it, the
/// rows outside the region, the cursor and the rest of the state stay.
/// Anywhere else the cursor moves up one row (staying on the top row of the
/// screen) and nothing else changes.
pub proof fn law_reverse_index(v: TermView)
    requires
        v.ok(),
        v.rows > 0,
    ensures
        ({
            let w = esc_spec(v, Seq::empty(), 0x4D);
            &&& v.cursor_row == v.scroll_top ==> {
                &&& w == v.with_grid(w.grid())
                &&& shaped(w.grid(), v.cols, v.rows)
                &&& forall|c: int| 0 <= c < v.cols ==> #[trigger] w.grid()[v.scroll_top][c] == blank_cell(v.pen.bg)
                &&& forall|r: int| v.scroll_top <= r < v.scroll_bottom ==> #[trigger] w.grid()[r + 1] == v.grid()[r]
                &&& forall|r: int|
                    0 <= r < v.rows && (r < v.scroll_top || r > v.scroll_bottom) ==> #[trigger] w.grid()[r] == v.grid()[r]
            }
            &&& v.cursor_row != v.scroll_top ==> w == (TermView {
                cursor_row: if v.cursor_row > 0 { v.cursor_row - 1 } else { 0 },
                ..v
            })
        }),
{
    reveal(esc_spec);
    reveal(reverse_index_spec);
    reveal(region_down_spec);
    let w = esc_spec(v, Seq::empty(), 0x4D);
    let g = v.grid();
    assert(shaped(g, v.cols, v.rows));
    if v.cursor_row == v.scroll_top {
        assert forall|r: int| 0 <= r < v.rows implies #[trigger] w.grid()[r].len() == v.cols by {}
        assert forall|r: int| v.scroll_top <= r < v.scroll_bottom implies #[trigger] w.grid()[r + 1] == v.grid()[r] by {
            assert(r + 1 - 1 == r);
        }
    }
}

/// An SGR color parameter changes only the color it is for: 30 to 37 and
/// 90 to 97 set the foreground to normal or bright color `code - 30` or
/// `code - 90 + 8`, 39 resets the foreground; 40 to 47 and 100 to 107 set
/// the background likewise, 49 resets it. The other color and the
/// attributes are kept, and nothing but the pen changes.
pub proof fn law_sgr_colors(v: TermView, code: u16)
    ensures
        ({
            let w = csi_spec(v, seq![seq![code]], Seq::empty(), 'm');
            let fg = 30 <= code <= 37 || 90 <= code <= 97 || code == 39;
            let bg = 40 <= code <= 47 || 100 <= code <= 107 || code == 49;
            &&& w == (TermView { pen: w.pen, ..v })
            &&& fg ==> w.pen.bg == v.pen.bg && w.pen.attrs == v.pen.attrs && w.pen.underline_color == v.pen.underline_color
            &&& bg ==> w.pen.fg == v.pen.fg && w.pen.attrs == v.pen.attrs && w.pen.underline_color == v.pen.underline_color
            &&& 30 <= code <= 37 ==> w.pen.fg == Color::Named(named_color_at(code - 30))
            &&& 90 <= code <= 97 ==> w.pen.fg == Color::Named(named_color_at(code - 90 + 8))
            &&& code == 39 ==> w.pen.fg == Color::Default
            &&& 40 <= code <= 47 ==> w.pen.bg == Color::Named(named_color_at(code - 40))
            &&& 100 <= code <= 107 ==> w.pen.bg == Color::Named(named_color_at(code - 100 + 8))
            &&& code == 49 ==> w.pen.bg == Color::Default
        }),
{
    reveal(csi_spec);
    let p: Seq<Seq<u16>> = seq![seq![code]];
    assert(sgr_from(sgr_code(v.pen, p[0]), p, 1) == sgr_code(v.pen, p[0]));
}

/// The attribute flag that SGR `code` turns on: 1 bold, 2 dim, 3 italic,
/// 4 underline, 5 and 6 blink, 7 reverse, 8 hidden, 9 strikethrough, 21
/// double underline (0 for any other code).
pub open spec fn sgr_on_flag(code: u16) -> u16 {
    if code == 1 {
        Attrs::BOLD
    } else if code == 2 {
        Attrs::DIM
    } else if code == 3 {
        Attrs::ITALIC
    } else if code == 4 {
        Attrs::UNDERLINE
    } else if code == 5 || code == 6 {
        Attrs::BLINK
    } else if code == 7 {
        Attrs::REVERSE
    } else if code == 8 {
        Attrs::HIDDEN
    } else if code == 9 {
        Attrs::STRIKETHROUGH
    } else if code == 21 {
        Attrs::DOUBLE_UNDERLINE
    } else {
        0
    }
}

/// The attribute flags that SGR `code` turns off: 22 bold and dim, 23
/// italic, 24 every underline style, 25 blink, 27 reverse, 28 hidden, 29
/// strikethrough (0 for any other code).
pub open spec fn sgr_off_flags(code: u16) -> u16 {
    if code == 22 {
        (Attrs::BOLD | Attrs::DIM) as u16
    } else if code == 23 {
        Attrs::ITALIC
    } else if code == 24 {
        (Attrs::UNDERLINE | Attrs::DOUBLE_UNDERLINE | Attrs::CURLY_UNDERLINE | Attrs::DOTTED_UNDERLINE
            | Attrs::DASHED_UNDERLINE) as u16
    } else if code == 25 {
        Attrs::BLINK
    } else if code == 27 {
        Attrs::REVERSE
    } else if code == 28 {
        Attrs::HIDDEN
    } else if code == 29 {
        Attrs::STRIKETHROUGH
    } else {
        0
    }
}

/// An SGR attribute parameter turns its flags on or off and keeps every
/// other flag and the colors; nothing but the pen changes.
pub proof fn law_sgr_attributes(v: TermView, code: u16)
    requires
        sgr_on_flag(code) != 0 || sgr_off_flags(code) != 0,
    ensures
        ({
            let w = csi_spec(v, seq![seq![code]], Seq::empty(), 'm');
            &&& w == (TermView { pen: w.pen, ..v })
            &&& w.pen.fg == v.pen.fg && w.pen.bg == v.pen.bg && w.pen.underline_color == v.pen.underline_color
            &&& sgr_on_flag(code) != 0 ==> w.pen.attrs.bits == v.pen.attrs.bits | sgr_on_flag(code)
            &&& sgr_off_flags(code) != 0 ==> w.pen.attrs.bits == v.pen.attrs.bits & !sgr_off_flags(code)
        }),
{
    reveal(csi_spec);
    let p: Seq<Seq<u16>> = seq![seq![code]];
    assert(sgr_from(sgr_code(v.pen, p[0]), p, 1) == sgr_code(v.pen, p[0]));
}

} // verus!
