//! The terminal state machine: the screen grids, the cursor, modes and the
//! effect of each VT parser callback on them.

use vstd::prelude::*;
use crate::apc::{ApcExtractor, ApcState};
use crate::cell::{Attrs, Cell, Pen, blank_cell, default_cell, default_pen};
use crate::color::{Color, NamedColor};
use crate::grid::{
    Grid, blanked, cells_deleted, cells_inserted, erased_above, erased_below, filled, resized,
    scrolled_down, scrolled_up, shaped, with_row,
};
use crate::image_store::{ImageStore, ImageStoreView, TerminalImage, capped, scrolled_store};
use crate::iterm2::{Iterm2Accumulator, Iterm2ParamsView};
use crate::kitty::{KittyAccumulator, KittyCommand};
use crate::modes::{
    ClipboardEvent, CursorShape, DrcsFontStore, DrcsGlyph, FileTransferEvent, Modes, MouseFormat,
    MouseMode, OscState, SavedCursor,
};
use crate::scrollback::{DEFAULT_SCROLLBACK_LINES, ScrollbackBuffer, last_lines};
use crate::width::{char_width, char_width_spec, is_zero_width_combining, zero_width_combining};

pub mod csi;
pub mod osc;
pub mod images;
pub mod dcs;
pub mod graphics;
pub mod history;
pub mod laws;
pub use history::{NamedSnapshot, SnapshotView, TerminalSnapshot};

verus! {

/// The clock: milliseconds since the Unix epoch, from
/// `chrono::Utc::now().timestamp_millis()`. Nothing is stated of the result:
/// it depends on the time.
#[verifier::external_body]
pub(crate) fn now_millis() -> (r: i64) {
    chrono::Utc::now().timestamp_millis()
}

/// The number of command records kept by default.
pub const DEFAULT_MAX_COMMAND_HISTORY: usize = 10000;

/// DCS accumulation mode.
#[derive(Debug, Clone, Copy, PartialEq, Eq, Structural)]
pub enum DcsMode {
    /// Not accumulating DCS data.
    Idle,
    /// Accumulating sixel data (DCS with final `q`).
    Sixel,
    /// Accumulating DECDLD soft font data.
    Decdld {
        /// Font number (Pfn).
        font_number: u8,
        /// Starting character code (Pcn).
        start_char: u8,
        /// Character cell width in pixels.
        cell_width: u8,
        /// Character cell height in pixels.
        cell_height: u8,
        /// Erase control (Pe).
        erase_control: u8,
    },
}

/// A completed shell command, built from the OSC 133 marks.
#[derive(Debug, Clone)]
pub struct CommandRecord {
    /// Increasing command ID within a session.
    pub id: u64,
    /// The command text between the B and C marks.
    pub command_text: String,
    /// The working directory when the command ran.
    pub cwd: String,
    /// When the command started (milliseconds since the Unix epoch).
    pub timestamp: i64,
    /// How long it ran in milliseconds (set by the D mark).
    pub duration_ms: Option<u64>,
    /// The exit code from the D mark.
    pub exit_code: Option<i32>,
    /// Absolute line where the output begins.
    pub scrollback_line_start: usize,
    /// Absolute line where the output ends.
    pub scrollback_line_end: Option<usize>,
    /// Absolute line of the prompt.
    pub prompt_line: usize,
}

/// A command record as plain values.
pub struct CommandView {
    pub id: u64,
    pub command_text: Seq<char>,
    pub cwd: Seq<char>,
    pub timestamp: i64,
    pub duration_ms: Option<u64>,
    pub exit_code: Option<i32>,
    pub scrollback_line_start: usize,
    pub scrollback_line_end: Option<usize>,
    pub prompt_line: usize,
}

impl CommandRecord {
    pub open spec fn view(&self) -> CommandView {
        CommandView {
            id: self.id,
            command_text: self.command_text@,
            cwd: self.cwd@,
            timestamp: self.timestamp,
            duration_ms: self.duration_ms,
            exit_code: self.exit_code,
            scrollback_line_start: self.scrollback_line_start,
            scrollback_line_end: self.scrollback_line_end,
            prompt_line: self.prompt_line,
        }
    }
}

/// What is known of a command between its OSC 133 marks.
#[derive(Debug, Clone)]
pub struct PendingCommand {
    /// Absolute line of the prompt (A).
    pub prompt_abs_line: usize,
    /// Absolute line where the command input starts (B).
    pub command_start_abs_line: usize,
    /// Column where the command input starts (B).
    pub command_start_col: usize,
    /// Working directory at the prompt.
    pub cwd: String,
    /// When the command was executed (C), in milliseconds.
    pub started_at: Option<i64>,
    /// Absolute line where the output begins (C).
    pub output_start_abs_line: Option<usize>,
}

/// A pending command as plain values.
pub struct PendingView {
    pub prompt_abs_line: usize,
    pub command_start_abs_line: usize,
    pub command_start_col: usize,
    pub cwd: Seq<char>,
    pub started_at: Option<i64>,
    pub output_start_abs_line: Option<usize>,
}

impl PendingCommand {
    pub open spec fn view(&self) -> PendingView {
        PendingView {
            prompt_abs_line: self.prompt_abs_line,
            command_start_abs_line: self.command_start_abs_line,
            command_start_col: self.command_start_col,
            cwd: self.cwd@,
            started_at: self.started_at,
            output_start_abs_line: self.output_start_abs_line,
        }
    }
}

/// OSC state as plain values.
pub struct OscView {
    pub title: Seq<char>,
    pub cwd: Seq<char>,
    pub cwd_uri: Seq<char>,
    pub last_notification: Option<Seq<char>>,
    pub prompt_start: Option<(usize, usize)>,
    pub command_start: Option<(usize, usize)>,
}

pub open spec fn str_opt_view(o: Option<String>) -> Option<Seq<char>> {
    match o {
        Some(s) => Some(s@),
        None => None,
    }
}

pub open spec fn osc_view(o: OscState) -> OscView {
    OscView {
        title: o.title@,
        cwd: o.cwd@,
        cwd_uri: o.cwd_uri@,
        last_notification: str_opt_view(o.last_notification),
        prompt_start: o.prompt_start,
        command_start: o.command_start,
    }
}

/// A clipboard event as plain values.
pub enum ClipboardView {
    Store { selection: Seq<char>, data: Seq<char> },
    Query { selection: Seq<char> },
}

pub open spec fn clipboard_view(e: Option<ClipboardEvent>) -> Option<ClipboardView> {
    match e {
        Some(ClipboardEvent::Store { selection, data }) => Some(ClipboardView::Store { selection: selection@, data: data@ }),
        Some(ClipboardEvent::Query { selection }) => Some(ClipboardView::Query { selection: selection@ }),
        None => None,
    }
}

/// A DRCS glyph as plain values.
pub struct GlyphView {
    pub bitmap: Seq<u8>,
    pub width: u8,
    pub height: u8,
}

pub open spec fn glyph_view(g: DrcsGlyph) -> GlyphView {
    GlyphView { bitmap: g.bitmap@, width: g.width, height: g.height }
}

/// The whole terminal state as plain values.
pub struct TermView {
    pub main: Seq<Seq<Cell>>,
    pub alt: Seq<Seq<Cell>>,
    pub using_alt: bool,
    pub cursor_col: int,
    pub cursor_row: int,
    pub cursor_shape: CursorShape,
    pub pen: Pen,
    pub scroll_top: int,
    pub scroll_bottom: int,
    pub saved_main: Option<SavedCursor>,
    pub saved_alt: Option<SavedCursor>,
    pub modes: Modes,
    pub osc: OscView,
    pub cols: int,
    pub rows: int,
    pub wrap_pending: bool,
    pub tab_stops: Seq<bool>,
    pub scrollback: Seq<Seq<Cell>>,
    pub scroll_offset: int,
    pub kitty_flags: Seq<u32>,
    pub hyperlink: Option<Seq<char>>,
    pub clipboard: Option<ClipboardView>,
    pub images: ImageStoreView,
    pub apc_state: ApcState,
    pub apc_buffer: Seq<u8>,
    pub kitty_command: Option<KittyCommand>,
    pub kitty_data: Seq<u8>,
    pub iterm2_params: Option<Iterm2ParamsView>,
    pub iterm2_data: Seq<u8>,
    pub dcs_data: Seq<u8>,
    pub dcs_mode: DcsMode,
    pub drcs: Map<u16, GlyphView>,
    pub responses: Seq<Seq<u8>>,
    pub file_transfer: Option<(Seq<char>, Seq<u8>)>,
    pub history: Seq<CommandView>,
    pub next_command_id: u64,
    pub pending: Option<PendingView>,
    pub total_scrolled: int,
    pub history_enabled: bool,
    pub max_history: int,
    pub pending_text: Option<Seq<char>>,
    pub cjk: bool,
}

/// The largest index below `n`, or 0 when `n` is 0.
pub open spec fn last_index(n: int) -> int {
    if n <= 0 {
        0
    } else {
        n - 1
    }
}

pub open spec fn min_int(a: int, b: int) -> int {
    if a <= b {
        a
    } else {
        b
    }
}

/// `x + 1`, stopping at the largest `usize`.
pub open spec fn inc_usize(x: int) -> int {
    if x < usize::MAX {
        x + 1
    } else {
        x
    }
}

/// The default tab stops: every eighth column.
pub open spec fn default_tab_stops(cols: int) -> Seq<bool> {
    Seq::new(cols as nat, |i: int| i % 8 == 0)
}

impl TermView {
    /// The grid on display.
    pub open spec fn grid(self) -> Seq<Seq<Cell>> {
        if self.using_alt {
            self.alt
        } else {
            self.main
        }
    }

    /// The state with the grid on display replaced by `g`.
    pub open spec fn with_grid(self, g: Seq<Seq<Cell>>) -> TermView {
        if self.using_alt {
            TermView { alt: g, ..self }
        } else {
            TermView { main: g, ..self }
        }
    }

    /// The well-formedness facts of a terminal state: grids of the
    /// terminal's size, cursor and scroll region on screen, one tab stop
    /// flag per column, and no more scrollback lines than the limit.
    pub open spec fn ok(self) -> bool {
        &&& shaped(self.main, self.cols, self.rows)
        &&& shaped(self.alt, self.cols, self.rows)
        &&& 0 <= self.cursor_col <= last_index(self.cols)
        &&& 0 <= self.cursor_row <= last_index(self.rows)
        &&& 0 <= self.scroll_top <= self.scroll_bottom <= last_index(self.rows)
        &&& self.tab_stops.len() == self.cols
        &&& 0 <= self.cols <= usize::MAX
        &&& 0 <= self.rows <= usize::MAX
        &&& 0 <= self.total_scrolled <= usize::MAX
        &&& 0 <= self.scroll_offset <= usize::MAX
        &&& self.scrollback.len() <= DEFAULT_SCROLLBACK_LINES
    }
}

/// A fresh image store's contents.
pub open spec fn initial_images() -> ImageStoreView {
    ImageStoreView {
        images: Map::empty(),
        placements: Seq::empty(),
        next_id: 1,
        cell_width: 8,
        cell_height: 16,
        dirty: false,
    }
}

/// The state of a new `cols` x `rows` terminal.
#[verifier::opaque]
pub open spec fn initial_view(cols: int, rows: int) -> TermView {
    TermView {
        main: filled(cols, rows, default_cell()),
        alt: filled(cols, rows, default_cell()),
        using_alt: false,
        cursor_col: 0,
        cursor_row: 0,
        cursor_shape: CursorShape::BlinkingBlock,
        pen: default_pen(),
        scroll_top: 0,
        scroll_bottom: last_index(rows),
        saved_main: None,
        saved_alt: None,
        modes: Modes {
            alternate_screen: false,
            bracketed_paste: false,
            auto_wrap: true,
            origin_mode: false,
            insert_mode: false,
            cursor_visible: true,
            application_cursor_keys: false,
            linefeed_mode: false,
            sixel_display_mode: false,
            mouse_mode: MouseMode::Off,
            mouse_format: MouseFormat::X10,
            focus_events: false,
        },
        osc: OscView {
            title: Seq::empty(),
            cwd: Seq::empty(),
            cwd_uri: Seq::empty(),
            last_notification: None,
            prompt_start: None,
            command_start: None,
        },
        cols: cols,
        rows: rows,
        wrap_pending: false,
        tab_stops: default_tab_stops(cols),
        scrollback: Seq::empty(),
        scroll_offset: 0,
        kitty_flags: Seq::empty(),
        hyperlink: None,
        clipboard: None,
        images: initial_images(),
        apc_state: ApcState::Ground,
        apc_buffer: Seq::empty(),
        kitty_command: None,
        kitty_data: Seq::empty(),
        iterm2_params: None,
        iterm2_data: Seq::empty(),
        dcs_data: Seq::empty(),
        dcs_mode: DcsMode::Idle,
        drcs: Map::empty(),
        responses: Seq::empty(),
        file_transfer: None,
        history: Seq::empty(),
        next_command_id: 0,
        pending: None,
        total_scrolled: 0,
        history_enabled: true,
        max_history: DEFAULT_MAX_COMMAND_HISTORY as int,
        pending_text: None,
        cjk: false,
    }
}

/// The top line of the main screen moved to the scrollback, with the image
/// placements moved up by one line.
#[verifier::opaque]
pub open spec fn push_top_spec(v: TermView) -> TermView {
    TermView {
        scrollback: last_lines(v.scrollback.push(v.main[0]), DEFAULT_SCROLLBACK_LINES as nat),
        total_scrolled: inc_usize(v.total_scrolled),
        images: scrolled_store(v.images, 1),
        ..v
    }
}

/// The scroll region of the grid on display moved up by `n` lines.
#[verifier::opaque]
pub open spec fn region_up_spec(v: TermView, n: int) -> TermView {
    v.with_grid(scrolled_up(v.grid(), v.scroll_top, v.scroll_bottom, n, v.cols, v.pen.bg))
}

/// The scroll region of the grid on display moved down by `n` lines.
#[verifier::opaque]
pub open spec fn region_down_spec(v: TermView, n: int) -> TermView {
    v.with_grid(scrolled_down(v.grid(), v.scroll_top, v.scroll_bottom, n, v.cols, v.pen.bg))
}

/// One line feed: the cursor moves down, or at the bottom of the scroll
/// region the region scrolls up by one line (the top line going to the
/// scrollback, with the image placements, when the region starts at the
/// top of the main screen).
#[verifier::opaque]
pub open spec fn newline_spec(v: TermView) -> TermView {
    if v.rows == 0 {
        v
    } else if v.cursor_row == v.scroll_bottom {
        let v1 = if v.scroll_top == 0 && !v.using_alt {
            push_top_spec(v)
        } else {
            v
        };
        region_up_spec(v1, 1)
    } else {
        TermView { cursor_row: min_int(v.cursor_row + 1, v.rows - 1), ..v }
    }
}

/// `n` line feeds.
pub open spec fn newlines(v: TermView, n: nat) -> TermView
    decreases n,
{
    if n == 0 {
        v
    } else {
        newline_spec(newlines(v, (n - 1) as nat))
    }
}

/// Reverse index: the cursor moves up, or at the top of the scroll region
/// the region scrolls down by one line.
#[verifier::opaque]
pub open spec fn reverse_index_spec(v: TermView) -> TermView {
    if v.cursor_row == v.scroll_top {
        region_down_spec(v, 1)
    } else {
        TermView { cursor_row: if v.cursor_row > 0 { v.cursor_row - 1 } else { 0 }, ..v }
    }
}

/// The cursor as DECSC saves it.
pub open spec fn saved_of(v: TermView) -> SavedCursor {
    SavedCursor {
        col: v.cursor_col as usize,
        row: v.cursor_row as usize,
        pen: v.pen,
        cursor_visible: v.modes.cursor_visible,
        cursor_shape: v.cursor_shape,
    }
}

/// Switch to the alternate screen, saving the cursor and clearing the
/// alternate grid.
#[verifier::opaque]
pub open spec fn enter_alt_spec(v: TermView) -> TermView {
    if v.using_alt {
        v
    } else {
        TermView {
            saved_main: Some(saved_of(v)),
            using_alt: true,
            modes: Modes { alternate_screen: true, ..v.modes },
            alt: filled(v.cols, v.rows, default_cell()),
            cursor_col: 0,
            cursor_row: 0,
            ..v
        }
    }
}

/// The saved cursor `s` put back: its position (kept on screen) and pen,
/// and with `full` also its visibility and shape.
#[verifier::opaque]
pub open spec fn apply_saved_spec(v: TermView, s: SavedCursor, full: bool) -> TermView {
    let v1 = TermView {
        cursor_col: min_int(s.col as int, last_index(v.cols)),
        cursor_row: min_int(s.row as int, last_index(v.rows)),
        pen: s.pen,
        ..v
    };
    if full {
        TermView {
            modes: Modes { cursor_visible: s.cursor_visible, ..v.modes },
            cursor_shape: s.cursor_shape,
            ..v1
        }
    } else {
        v1
    }
}

/// The main screen on display again, the alternate grid cleared.
#[verifier::opaque]
pub open spec fn to_main_spec(v: TermView) -> TermView {
    TermView {
        using_alt: false,
        modes: Modes { alternate_screen: false, ..v.modes },
        alt: filled(v.cols, v.rows, default_cell()),
        ..v
    }
}

/// Switch back to the main screen, clearing the alternate grid and
/// restoring the cursor saved on entry (its position kept on screen), or a
/// visible default cursor when none was saved.
#[verifier::opaque]
pub open spec fn leave_alt_spec(v: TermView) -> TermView {
    if !v.using_alt {
        v
    } else {
        let v1 = to_main_spec(v);
        match v.saved_main {
            Some(s) => apply_saved_spec(TermView { saved_main: None, ..v1 }, s, true),
            None => TermView {
                modes: Modes { cursor_visible: true, ..v1.modes },
                cursor_shape: CursorShape::BlinkingBlock,
                ..v1
            },
        }
    }
}

/// Save the cursor (DECSC) for the screen on display.
#[verifier::opaque]
pub open spec fn save_cursor_spec(v: TermView) -> TermView {
    if v.using_alt {
        TermView { saved_alt: Some(saved_of(v)), ..v }
    } else {
        TermView { saved_main: Some(saved_of(v)), ..v }
    }
}

/// The cursor saved for the screen on display.
pub open spec fn saved_for(v: TermView) -> Option<SavedCursor> {
    if v.using_alt {
        v.saved_alt
    } else {
        v.saved_main
    }
}

/// Restore the saved cursor (DECRC): position (kept on screen) and pen, and
/// with `full` also visibility and shape.
#[verifier::opaque]
pub open spec fn restore_cursor_spec(v: TermView, full: bool) -> TermView {
    match saved_for(v) {
        None => v,
        Some(s) => apply_saved_spec(v, s, full),
    }
}

/// The first tab stop at or after `i`, or the last column.
pub open spec fn tab_stop_from(stops: Seq<bool>, i: int, cols: int) -> int
    decreases cols - i,
{
    if i >= cols {
        cols - 1
    } else if stops[i] {
        i
    } else {
        tab_stop_from(stops, i + 1, cols)
    }
}

/// Backspace: one column left, if any.
#[verifier::opaque]
pub open spec fn backspace_spec(v: TermView) -> TermView {
    TermView { cursor_col: if v.cursor_col > 0 { v.cursor_col - 1 } else { 0 }, wrap_pending: false, ..v }
}

/// Horizontal tab: to the next tab stop, or the last column.
#[verifier::opaque]
pub open spec fn tab_spec(v: TermView) -> TermView {
    if v.cols == 0 {
        v
    } else {
        TermView { cursor_col: tab_stop_from(v.tab_stops, v.cursor_col + 1, v.cols), wrap_pending: false, ..v }
    }
}

/// Line feed (also VT and FF), with a carriage return in LNM mode.
#[verifier::opaque]
pub open spec fn linefeed_spec(v: TermView) -> TermView {
    let v1 = newline_spec(v);
    TermView {
        cursor_col: if v1.modes.linefeed_mode { 0 } else { v1.cursor_col },
        wrap_pending: false,
        ..v1
    }
}

/// Carriage return.
#[verifier::opaque]
pub open spec fn carriage_return_spec(v: TermView) -> TermView {
    TermView { cursor_col: 0, wrap_pending: false, ..v }
}

/// A C0 control character.
#[verifier::opaque]
pub open spec fn execute_spec(v: TermView, byte: u8) -> TermView {
    if byte == 0x08 {
        backspace_spec(v)
    } else if byte == 0x09 {
        tab_spec(v)
    } else if byte == 0x0A || byte == 0x0B || byte == 0x0C {
        linefeed_spec(v)
    } else if byte == 0x0D {
        carriage_return_spec(v)
    } else {
        v
    }
}

/// An ESC sequence with intermediates `im` and final byte `byte`.
#[verifier::opaque]
pub open spec fn esc_spec(v: TermView, im: Seq<u8>, byte: u8) -> TermView {
    if im.len() != 0 {
        v
    } else if byte == 0x37 {
        save_cursor_spec(v)
    } else if byte == 0x38 {
        restore_cursor_spec(v, true)
    } else if byte == 0x4D {
        reverse_index_spec(v)
    } else if byte == 0x44 {
        newline_spec(v)
    } else if byte == 0x45 {
        cr_newline_spec(v)
    } else if byte == 0x48 {
        if v.cursor_col < v.cols {
            TermView { tab_stops: v.tab_stops.update(v.cursor_col, true), ..v }
        } else {
            v
        }
    } else if byte == 0x63 {
        initial_view(v.cols, v.rows)
    } else {
        v
    }
}

/// The cell a printed character becomes.
pub open spec fn printed_cell(c: char, pen: Pen, w: int, link: bool) -> Cell {
    Cell {
        c: c,
        fg: pen.fg,
        bg: pen.bg,
        attrs: pen.attrs,
        underline_color: pen.underline_color,
        width: w as u8,
        hyperlink: link,
    }
}

/// The row after writing a character of width `w` at `col`, clearing the
/// halves of wide characters that the write breaks.
pub open spec fn row_after_print(r: Seq<Cell>, col: int, c: char, w: int, pen: Pen, link: bool) -> Seq<Cell> {
    let n = r.len() as int;
    let r1 = if col > 0 && r[col].width == 0 {
        r.update(col - 1, default_cell())
    } else {
        r
    };
    let r2 = if r1[col].width == 2 && col + 1 < n {
        r1.update(col + 1, default_cell())
    } else {
        r1
    };
    let r3 = if w == 2 && col + 1 < n && r2[col + 1].width == 2 && col + 2 < n {
        r2.update(col + 2, default_cell())
    } else {
        r2
    };
    let r4 = r3.update(col, printed_cell(c, pen, w, link));
    if w == 2 && col + 1 < n {
        r4.update(col + 1, Cell { c: '\0', width: 0, fg: pen.fg, bg: pen.bg, attrs: pen.attrs, hyperlink: link, ..r4[col + 1] })
    } else {
        r4
    }
}

/// Write `c` at the cursor once any wrap is done.
#[verifier::opaque]
pub open spec fn put_char_spec(v: TermView, c: char, w: int) -> TermView {
    let col = v.cursor_col;
    let row = v.cursor_row;
    let g = v.grid();
    let v1 = v.with_grid(g.update(row, row_after_print(g[row], col, c, w, v.pen, v.hyperlink is Some)));
    if col + w >= v.cols {
        TermView { cursor_col: v.cols - 1, wrap_pending: true, ..v1 }
    } else {
        TermView { cursor_col: col + w, ..v1 }
    }
}

/// A pending wrap carried out before printing: with auto-wrap, a carriage
/// return and line feed.
#[verifier::opaque]
pub open spec fn wrap_step_spec(v: TermView) -> TermView {
    if v.wrap_pending {
        if v.modes.auto_wrap {
            cr_newline_spec(TermView { wrap_pending: false, ..v })
        } else {
            TermView { wrap_pending: false, ..v }
        }
    } else {
        v
    }
}

/// Carriage return and line feed.
#[verifier::opaque]
pub open spec fn cr_newline_spec(v: TermView) -> TermView {
    newline_spec(TermView { cursor_col: 0, ..v })
}

/// A printable character.
#[verifier::opaque]
pub open spec fn print_spec(v: TermView, c: char) -> TermView {
    if zero_width_combining(c) || v.cols == 0 || v.rows == 0 {
        v
    } else {
        let w = char_width_spec(c, v.cjk) as int;
        let v1 = wrap_step_spec(v);
        if w == 2 && v1.cursor_col >= v1.cols - 1 {
            if v1.modes.auto_wrap {
                put_char_spec(cr_newline_spec(v1), c, w)
            } else {
                v1
            }
        } else {
            put_char_spec(v1, c, w)
        }
    }
}

/// The terminal resized to `cols` x `rows`: both grids cut or padded, the
/// scroll region the whole screen, the cursor kept on screen, the tab stops
/// reset, and a command in progress forgotten.
#[verifier::opaque]
pub open spec fn resize_spec(v: TermView, cols: int, rows: int) -> TermView {
    TermView {
        main: resized(v.main, cols, rows),
        alt: resized(v.alt, cols, rows),
        cols: cols,
        rows: rows,
        scroll_top: 0,
        scroll_bottom: last_index(rows),
        cursor_col: min_int(v.cursor_col, last_index(cols)),
        cursor_row: min_int(v.cursor_row, last_index(rows)),
        wrap_pending: false,
        tab_stops: default_tab_stops(cols),
        pending: None,
        pending_text: None,
        ..v
    }
}

/// The screen and scrollback cleared (Cmd+K): the scrollback emptied, the
/// live view shown, the grid on display reset, the cursor home and every
/// image deleted.
#[verifier::opaque]
pub open spec fn clear_all_spec(v: TermView) -> TermView {
    TermView {
        scrollback: Seq::empty(),
        scroll_offset: 0,
        cursor_col: 0,
        cursor_row: 0,
        wrap_pending: false,
        images: ImageStoreView { images: Map::empty(), placements: Seq::empty(), dirty: true, ..v.images },
        ..v.with_grid(filled(v.cols, v.rows, default_cell()))
    }
}

/// The full terminal state.
pub struct Terminal {
    main_grid: Grid,
    alt_grid: Grid,
    using_alt: bool,
    /// Cursor column.
    pub cursor_col: usize,
    /// Cursor row.
    pub cursor_row: usize,
    /// Cursor shape.
    pub cursor_shape: CursorShape,
    pen: Pen,
    scroll_top: usize,
    scroll_bottom: usize,
    saved_cursor_main: Option<SavedCursor>,
    saved_cursor_alt: Option<SavedCursor>,
    /// Terminal modes.
    pub modes: Modes,
    /// OSC-derived state.
    pub osc: OscState,
    cols: usize,
    rows: usize,
    wrap_pending: bool,
    tab_stops: Vec<bool>,
    scrollback: ScrollbackBuffer,
    scroll_offset: usize,
    kitty_keyboard_flags: Vec<u32>,
    current_hyperlink: Option<String>,
    /// Clipboard request from OSC 52, for the application to consume.
    pub clipboard_event: Option<ClipboardEvent>,
    /// Images of the Kitty, iTerm2 and sixel protocols.
    pub image_store: ImageStore,
    apc_extractor: ApcExtractor,
    kitty_accumulator: KittyAccumulator,
    iterm2_accumulator: Iterm2Accumulator,
    dcs_data: Vec<u8>,
    dcs_mode: DcsMode,
    /// DRCS soft fonts (DECDLD).
    pub drcs_fonts: DrcsFontStore,
    pending_responses: Vec<Vec<u8>>,
    /// File sent by iTerm2 OSC 1337 with `inline=0`.
    pub file_transfer_event: Option<FileTransferEvent>,
    command_history: Vec<CommandRecord>,
    next_command_id: u64,
    pending_command: Option<PendingCommand>,
    total_scrolled_lines: usize,
    command_history_enabled: bool,
    max_command_history: usize,
    pending_command_text: Option<String>,
    /// Whether East Asian ambiguous characters are two cells wide.
    pub cjk_width: bool,
}

impl View for Terminal {
    type V = TermView;

    closed spec fn view(&self) -> TermView {
        TermView {
            main: self.main_grid@,
            alt: self.alt_grid@,
            using_alt: self.using_alt,
            cursor_col: self.cursor_col as int,
            cursor_row: self.cursor_row as int,
            cursor_shape: self.cursor_shape,
            pen: self.pen,
            scroll_top: self.scroll_top as int,
            scroll_bottom: self.scroll_bottom as int,
            saved_main: self.saved_cursor_main,
            saved_alt: self.saved_cursor_alt,
            modes: self.modes,
            osc: osc_view(self.osc),
            cols: self.cols as int,
            rows: self.rows as int,
            wrap_pending: self.wrap_pending,
            tab_stops: self.tab_stops@,
            scrollback: self.scrollback.lines_view(),
            scroll_offset: self.scroll_offset as int,
            kitty_flags: self.kitty_keyboard_flags@,
            hyperlink: str_opt_view(self.current_hyperlink),
            clipboard: clipboard_view(self.clipboard_event),
            images: self.image_store.sview(),
            apc_state: self.apc_extractor.view_state(),
            apc_buffer: self.apc_extractor.view_buffer(),
            kitty_command: self.kitty_accumulator.command,
            kitty_data: self.kitty_accumulator.base64_data@,
            iterm2_params: self.iterm2_accumulator.params_view(),
            iterm2_data: self.iterm2_accumulator.data_view(),
            dcs_data: self.dcs_data@,
            dcs_mode: self.dcs_mode,
            drcs: self.drcs_fonts.view_map().map_values(|g: DrcsGlyph| glyph_view(g)),
            responses: self.pending_responses@.map_values(|r: Vec<u8>| r@),
            file_transfer: match self.file_transfer_event {
                Some(e) => Some((e.name@, e.data@)),
                None => None,
            },
            history: self.command_history@.map_values(|r: CommandRecord| r.view()),
            next_command_id: self.next_command_id,
            pending: match self.pending_command {
                Some(p) => Some(p.view()),
                None => None,
            },
            total_scrolled: self.total_scrolled_lines as int,
            history_enabled: self.command_history_enabled,
            max_history: self.max_command_history as int,
            pending_text: str_opt_view(self.pending_command_text),
            cjk: self.cjk_width,
        }
    }
}

/// A vector of `n` tab stop flags set at every eighth column.
fn default_tabs(n: usize) -> (r: Vec<bool>)
    ensures
        r@ == default_tab_stops(n as int),
{
    let mut v: Vec<bool> = Vec::new();
    let mut i: usize = 0;
    while i < n
        invariant
            i <= n,
            v@ == Seq::new(i as nat, |k: int| k % 8 == 0),
        decreases n - i,
    {
        v.push(i % 8 == 0);
        i += 1;
        assert(v@ =~= Seq::new(i as nat, |k: int| k % 8 == 0));
    }
    v
}

impl Terminal {
    /// Internal consistency: the grids have the terminal's size, the cursor
    /// and scroll region lie on screen, there is one tab stop flag per
    /// column, and the parts hold their own invariants.
    pub closed spec fn wf(&self) -> bool {
        &&& self.main_grid.wf()
        &&& self.alt_grid.wf()
        &&& self.main_grid.cols_view() == self.cols
        &&& self.main_grid.rows_view() == self.rows
        &&& self.alt_grid.cols_view() == self.cols
        &&& self.alt_grid.rows_view() == self.rows
        &&& self.scrollback.wf()
        &&& self.scrollback.max_view() == DEFAULT_SCROLLBACK_LINES
        &&& self.image_store.wf()
        &&& self.cursor_col as int <= last_index(self.cols as int)
        &&& self.cursor_row as int <= last_index(self.rows as int)
        &&& self.scroll_top <= self.scroll_bottom
        &&& self.scroll_bottom as int <= last_index(self.rows as int)
        &&& self.tab_stops@.len() == self.cols
    }

    /// What `wf` gives callers.
    pub proof fn lemma_wf(&self)
        requires
            self.wf(),
        ensures
            self@.ok(),
    {
        self.main_grid.lemma_wf();
        self.alt_grid.lemma_wf();
        self.scrollback.lemma_wf();
    }

    /// A `cols` x `rows` terminal in its initial state.
    pub fn new(cols: usize, rows: usize) -> (t: Self)
        ensures
            t.wf(),
            t@ == initial_view(cols as int, rows as int),
    {
        proof {
            reveal(initial_view);
        }
        let t = Terminal {
            main_grid: Grid::new(cols, rows),
            alt_grid: Grid::new(cols, rows),
            using_alt: false,
            cursor_col: 0,
            cursor_row: 0,
            cursor_shape: CursorShape::BlinkingBlock,
            pen: Pen::plain(),
            scroll_top: 0,
            scroll_bottom: if rows > 0 { rows - 1 } else { 0 },
            saved_cursor_main: None,
            saved_cursor_alt: None,
            modes: Modes {
                alternate_screen: false,
                bracketed_paste: false,
                auto_wrap: true,
                origin_mode: false,
                insert_mode: false,
                cursor_visible: true,
                application_cursor_keys: false,
                linefeed_mode: false,
                sixel_display_mode: false,
                mouse_mode: MouseMode::Off,
                mouse_format: MouseFormat::X10,
                focus_events: false,
            },
            osc: OscState::default(),
            cols,
            rows,
            wrap_pending: false,
            tab_stops: default_tabs(cols),
            scrollback: ScrollbackBuffer::with_defaults(),
            scroll_offset: 0,
            kitty_keyboard_flags: Vec::new(),
            current_hyperlink: None,
            clipboard_event: None,
            image_store: ImageStore::new(),
            apc_extractor: ApcExtractor::new(),
            kitty_accumulator: KittyAccumulator::new(),
            iterm2_accumulator: Iterm2Accumulator::new(),
            dcs_data: Vec::new(),
            dcs_mode: DcsMode::Idle,
            drcs_fonts: DrcsFontStore::new(),
            pending_responses: Vec::new(),
            file_transfer_event: None,
            command_history: Vec::new(),
            next_command_id: 0,
            pending_command: None,
            total_scrolled_lines: 0,
            command_history_enabled: true,
            max_command_history: DEFAULT_MAX_COMMAND_HISTORY,
            pending_command_text: None,
            cjk_width: false,
        };
        proof {
            t.main_grid.lemma_wf();
            t.alt_grid.lemma_wf();
            assert(t@.drcs =~= Map::<u16, GlyphView>::empty());
            assert(t@.responses =~= Seq::<Seq<u8>>::empty());
            assert(t@.history =~= Seq::<CommandView>::empty());
            assert(t@.images =~= initial_images());
            assert(t@ == initial_view(cols as int, rows as int));
        }
        t
    }

    /// Set whether East Asian ambiguous characters are two cells wide.
    pub fn set_cjk_width(&mut self, cjk: bool)
        requires
            old(self).wf(),
        ensures
            final(self).wf(),
            final(self)@ == (TermView { cjk: cjk, ..old(self)@ }),
    {
        self.cjk_width = cjk;
    }

    /// The grid on display.
    pub fn grid(&self) -> (g: &Grid)
        requires
            self.wf(),
        ensures
            g.wf(),
            g@ == self@.grid(),
            g.cols_view() == self@.cols,
            g.rows_view() == self@.rows,
    {
        if self.using_alt {
            &self.alt_grid
        } else {
            &self.main_grid
        }
    }

    /// The number of columns.
    pub fn cols(&self) -> (r: usize)
        ensures
            r == self@.cols,
    {
        self.cols
    }

    /// The number of rows.
    pub fn rows(&self) -> (r: usize)
        ensures
            r == self@.rows,
    {
        self.rows
    }

    /// The number of lines in the scrollback buffer.
    pub fn scrollback_len(&self) -> (r: usize)
        ensures
            r == self@.scrollback.len(),
    {
        self.scrollback.len()
    }

    /// The top row of the scroll region.
    pub fn scroll_top(&self) -> (r: usize)
        ensures
            r == self@.scroll_top,
    {
        self.scroll_top
    }

    /// The bottom row of the scroll region (inclusive).
    pub fn scroll_bottom(&self) -> (r: usize)
        ensures
            r == self@.scroll_bottom,
    {
        self.scroll_bottom
    }

    /// The scroll offset (0 is the live view).
    pub fn scroll_offset(&self) -> (r: usize)
        ensures
            r == self@.scroll_offset,
    {
        self.scroll_offset
    }

    /// Set the scroll offset, capped at the scrollback length.
    pub fn set_scroll_offset(&mut self, offset: usize)
        requires
            old(self).wf(),
        ensures
            final(self).wf(),
            final(self)@ == (TermView {
                scroll_offset: min_int(offset as int, old(self)@.scrollback.len() as int),
                ..old(self)@
            }),
    {
        let n = self.scrollback.len();
        self.scroll_offset = if offset < n { offset } else { n };
    }

    /// The line `idx` places back in the scrollback (0 is the newest).
    pub fn scrollback_row(&self, idx: usize) -> (r: Option<&[Cell]>)
        ensures
            match r {
                Some(line) => idx < self@.scrollback.len() && line@ == self@.scrollback[self@.scrollback.len() - 1 - idx],
                None => idx >= self@.scrollback.len(),
            },
    {
        self.scrollback.get(idx)
    }

    /// The Kitty keyboard protocol flags in force (0 when none is pushed).
    pub fn kitty_keyboard_mode(&self) -> (r: u32)
        ensures
            r == if self@.kitty_flags.len() == 0 { 0 } else { self@.kitty_flags.last() },
    {
        if self.kitty_keyboard_flags.len() == 0 {
            0
        } else {
            self.kitty_keyboard_flags[self.kitty_keyboard_flags.len() - 1]
        }
    }

    /// Queue a reply for the PTY.
    fn queue_response(&mut self, data: Vec<u8>)
        requires
            old(self).wf(),
        ensures
            final(self).wf(),
            final(self)@ == (TermView { responses: old(self)@.responses.push(data@), ..old(self)@ }),
    {
        let ghost d = data@;
        self.pending_responses.push(data);
        assert(self@.responses =~= old(self)@.responses.push(d));
        assert(self@ == (TermView { responses: old(self)@.responses.push(d), ..old(self)@ }));
    }

    /// Take all queued replies for the PTY, oldest first.
    pub fn drain_responses(&mut self) -> (r: Vec<Vec<u8>>)
        requires
            old(self).wf(),
        ensures
            final(self).wf(),
            r@.map_values(|x: Vec<u8>| x@) == old(self)@.responses,
            final(self)@ == (TermView { responses: Seq::empty(), ..old(self)@ }),
    {
        let mut r: Vec<Vec<u8>> = Vec::new();
        std::mem::swap(&mut r, &mut self.pending_responses);
        assert(self@.responses =~= Seq::<Seq<u8>>::empty());
        assert(self@ == (TermView { responses: Seq::empty(), ..old(self)@ }));
        r
    }

    /// Whether a reply for the PTY is queued.
    pub fn has_pending_responses(&self) -> (r: bool)
        ensures
            r == (self@.responses.len() > 0),
    {
        self.pending_responses.len() > 0
    }

    /// The total number of lines scrolled into the scrollback.
    pub fn total_scrolled_lines(&self) -> (r: usize)
        ensures
            r == self@.total_scrolled,
    {
        self.total_scrolled_lines
    }

    /// Move the top line of the main screen to the scrollback (see
    /// `push_top_spec`).
    fn push_top_line(&mut self)
        requires
            old(self).wf(),
            old(self).rows > 0,
        ensures
            final(self).cols == old(self).cols,
            final(self).rows == old(self).rows,
            final(self).wf(),
            final(self)@ == push_top_spec(old(self)@),
    {
        proof {
            reveal(push_top_spec);
        }
        proof {
            self.main_grid.lemma_wf();
            self.scrollback.lemma_wf();
        }
        let row = self.main_grid.row_cells(0);
        self.scrollback.push(row);
        self.total_scrolled_lines = if self.total_scrolled_lines < usize::MAX {
            self.total_scrolled_lines + 1
        } else {
            self.total_scrolled_lines
        };
        self.image_store.scroll_up_if_fits(1);
        assert(self.scrollback.lines_view().len() >= old(self).scrollback.lines_view().len());
        assert(self@ == push_top_spec(old(self)@));
    }

    /// Move the scroll region of the grid on display up by `n` lines.
    fn region_up(&mut self, n: usize)
        requires
            old(self).wf(),
        ensures
            final(self).cols == old(self).cols,
            final(self).rows == old(self).rows,
            final(self).wf(),
            final(self)@ == region_up_spec(old(self)@, n as int),
    {
        proof {
            reveal(region_up_spec);
        }
        let top = self.scroll_top;
        let bottom = self.scroll_bottom;
        let bg = self.pen.bg;
        if self.using_alt {
            self.alt_grid.scroll_up_with_bg(top, bottom, n, bg);
        } else {
            self.main_grid.scroll_up_with_bg(top, bottom, n, bg);
        }
        assert(self@ == region_up_spec(old(self)@, n as int));
    }

    /// Move the scroll region of the grid on display down by `n` lines.
    fn region_down(&mut self, n: usize)
        requires
            old(self).wf(),
        ensures
            final(self).cols == old(self).cols,
            final(self).rows == old(self).rows,
            final(self).wf(),
            final(self)@ == region_down_spec(old(self)@, n as int),
    {
        proof {
            reveal(region_down_spec);
        }
        let top = self.scroll_top;
        let bottom = self.scroll_bottom;
        let bg = self.pen.bg;
        if self.using_alt {
            self.alt_grid.scroll_down_with_bg(top, bottom, n, bg);
        } else {
            self.main_grid.scroll_down_with_bg(top, bottom, n, bg);
        }
        assert(self@ == region_down_spec(old(self)@, n as int));
    }

    /// Line feed (see `newline_spec`).
    fn newline(&mut self)
        requires
            old(self).wf(),
        ensures
            final(self).cols == old(self).cols,
            final(self).rows == old(self).rows,
            final(self).wf(),
            final(self)@ == newline_spec(old(self)@),
    {
        proof {
            reveal(newline_spec);
        }
        if self.rows == 0 {
            return;
        }
        if self.cursor_row == self.scroll_bottom {
            if self.scroll_top == 0 && !self.using_alt {
                self.push_top_line();
            }
            self.region_up(1);
        } else {
            self.cursor_row = if self.cursor_row + 1 < self.rows {
                self.cursor_row + 1
            } else {
                self.rows - 1
            };
        }
    }

    /// Carriage return and line feed.
    fn cr_newline(&mut self)
        requires
            old(self).wf(),
        ensures
            final(self).cols == old(self).cols,
            final(self).rows == old(self).rows,
            final(self).wf(),
            final(self)@ == cr_newline_spec(old(self)@),
    {
        proof {
            reveal(cr_newline_spec);
        }
        self.cursor_col = 0;
        self.newline();
    }

    /// Reverse index (see `reverse_index_spec`).
    fn reverse_index(&mut self)
        requires
            old(self).wf(),
        ensures
            final(self).wf(),
            final(self)@ == reverse_index_spec(old(self)@),
    {
        proof {
            reveal(reverse_index_spec);
        }
        if self.cursor_row == self.scroll_top {
            self.region_down(1);
        } else {
            self.cursor_row = if self.cursor_row > 0 { self.cursor_row - 1 } else { 0 };
        }
    }

    /// Move to column 0 and feed `cell_rows` lines, so that the text after
    /// an inline image flows below it.
    fn advance_cursor_past_image(&mut self, cell_rows: usize)
        requires
            old(self).wf(),
        ensures
            final(self).wf(),
            final(self)@ == newlines((TermView { cursor_col: 0, wrap_pending: false, ..old(self)@ }), cell_rows as nat),
    {
        self.cursor_col = 0;
        self.wrap_pending = false;
        let ghost v0 = self@;
        let mut i: usize = 0;
        while i < cell_rows
            invariant
                i <= cell_rows,
                self.wf(),
                self@ == newlines(v0, i as nat),
            decreases cell_rows - i,
        {
            self.newline();
            i += 1;
        }
    }

    /// Switch to the alternate screen (see `enter_alt_spec`).
    fn enter_alt_screen(&mut self)
        requires
            old(self).wf(),
        ensures
            final(self).wf(),
            final(self)@ == enter_alt_spec(old(self)@),
    {
        proof {
            reveal(enter_alt_spec);
        }
        if !self.using_alt {
            self.saved_cursor_main = Some(SavedCursor {
                col: self.cursor_col,
                row: self.cursor_row,
                pen: self.pen,
                cursor_visible: self.modes.cursor_visible,
                cursor_shape: self.cursor_shape,
            });
            self.using_alt = true;
            self.modes.alternate_screen = true;
            self.alt_grid.clear();
            self.cursor_col = 0;
            self.cursor_row = 0;
            assert(self@ == enter_alt_spec(old(self)@));
        }
    }

    /// Show the main screen again and clear the alternate grid.
    fn to_main(&mut self)
        requires
            old(self).wf(),
        ensures
            final(self).wf(),
            final(self)@ == to_main_spec(old(self)@),
    {
        proof {
            reveal(to_main_spec);
        }
        self.using_alt = false;
        self.modes.alternate_screen = false;
        self.alt_grid.clear();
        assert(self@ == to_main_spec(old(self)@));
    }

    /// Put back the saved cursor `s` (see `apply_saved_spec`).
    fn apply_saved(&mut self, s: SavedCursor, full: bool)
        requires
            old(self).wf(),
        ensures
            final(self).wf(),
            final(self)@ == apply_saved_spec(old(self)@, s, full),
    {
        proof {
            reveal(apply_saved_spec);
        }
        let c = clamp_to(s.col, self.cols);
        let r = clamp_to(s.row, self.rows);
        self.set_pos_pen(c, r, s.pen);
        if full {
            self.set_visibility_shape(s.cursor_visible, s.cursor_shape);
        }
    }

    /// Move the cursor to `(col, row)` and take pen `pen`.
    fn set_pos_pen(&mut self, col: usize, row: usize, pen: Pen)
        requires
            old(self).wf(),
            col as int <= last_index(old(self).cols as int),
            row as int <= last_index(old(self).rows as int),
        ensures
            final(self).wf(),
            final(self)@ == (TermView { cursor_col: col as int, cursor_row: row as int, pen: pen, ..old(self)@ }),
    {
        self.cursor_col = col;
        self.cursor_row = row;
        self.pen = pen;
    }

    /// Forget the cursor saved for the main screen.
    fn clear_saved_main(&mut self)
        requires
            old(self).wf(),
        ensures
            final(self).wf(),
            final(self)@ == (TermView { saved_main: None, ..old(self)@ }),
    {
        self.saved_cursor_main = None;
    }

    /// Set the cursor's visibility and shape.
    fn set_visibility_shape(&mut self, visible: bool, shape: CursorShape)
        requires
            old(self).wf(),
        ensures
            final(self).wf(),
            final(self)@ == (TermView {
                modes: Modes { cursor_visible: visible, ..old(self)@.modes },
                cursor_shape: shape,
                ..old(self)@
            }),
    {
        self.modes.cursor_visible = visible;
        self.cursor_shape = shape;
    }

    /// Switch back to the main screen (see `leave_alt_spec`).
    fn leave_alt_screen(&mut self)
        requires
            old(self).wf(),
        ensures
            final(self).wf(),
            final(self)@ == leave_alt_spec(old(self)@),
    {
        proof {
            reveal(leave_alt_spec);
        }
        if !self.using_alt {
            return;
        }
        let saved = self.saved_cursor_main;
        self.to_main();
        match saved {
            Some(s) => {
                self.clear_saved_main();
                self.apply_saved(s, true);
            },
            None => {
                self.set_visibility_shape(true, CursorShape::BlinkingBlock);
            },
        }
    }

    /// Save the cursor for the screen on display (DECSC).
    fn save_cursor(&mut self)
        requires
            old(self).wf(),
        ensures
            final(self).wf(),
            final(self)@ == save_cursor_spec(old(self)@),
    {
        proof {
            reveal(save_cursor_spec);
        }
        let saved = SavedCursor {
            col: self.cursor_col,
            row: self.cursor_row,
            pen: self.pen,
            cursor_visible: self.modes.cursor_visible,
            cursor_shape: self.cursor_shape,
        };
        if self.using_alt {
            self.saved_cursor_alt = Some(saved);
        } else {
            self.saved_cursor_main = Some(saved);
        }
    }

    /// Restore the cursor saved for the screen on display (DECRC).
    fn restore_cursor(&mut self, full: bool)
        requires
            old(self).wf(),
        ensures
            final(self).wf(),
            final(self)@ == restore_cursor_spec(old(self)@, full),
    {
        proof {
            reveal(restore_cursor_spec);
        }
        if self.using_alt {
            if let Some(s) = self.saved_cursor_alt {
                self.apply_saved(s, full);
            }
        } else {
            if let Some(s) = self.saved_cursor_main {
                self.apply_saved(s, full);
            }
        }
    }

    /// A copy of row `row` of the grid on display.
    fn grid_row(&self, row: usize) -> (r: Vec<Cell>)
        requires
            self.wf(),
            row < self.rows,
        ensures
            r@ == self@.grid()[row as int],
            r@.len() == self.cols,
    {
        proof {
            self.main_grid.lemma_wf();
            self.alt_grid.lemma_wf();
        }
        if self.using_alt {
            self.alt_grid.row_cells(row)
        } else {
            self.main_grid.row_cells(row)
        }
    }

    /// Replace row `row` of the grid on display.
    fn set_grid_row(&mut self, row: usize, new_row: Vec<Cell>)
        requires
            old(self).wf(),
            row < old(self).rows,
            new_row@.len() == old(self).cols,
        ensures
            final(self).wf(),
            final(self)@ == old(self)@.with_grid(old(self)@.grid().update(row as int, new_row@)),
    {
        let ghost nr = new_row@;
        if self.using_alt {
            self.alt_grid.put_row(row, new_row);
        } else {
            self.main_grid.put_row(row, new_row);
        }
        assert(self@ == old(self)@.with_grid(old(self)@.grid().update(row as int, nr)));
    }

    /// Write `c` of width `w` at the cursor (see `put_char_spec`).
    fn put_char(&mut self, c: char, w: usize)
        requires
            old(self).wf(),
            old(self).cols > 0,
            old(self).rows > 0,
            w <= 3,
        ensures
            final(self).wf(),
            final(self)@ == put_char_spec(old(self)@, c, w as int),
    {
        proof {
            reveal(put_char_spec);
        }
        let cols = self.cols;
        let col = self.cursor_col;
        let row = self.cursor_row;
        let pen = self.pen;
        let link = self.current_hyperlink.is_some();
        let r = self.grid_row(row);
        let nr = print_row(r, col, c, w, pen, link);
        self.set_grid_row(row, nr);
        self.advance_after_print(w);
    }

    /// Move the cursor `w` columns right, stopping at the last column with a
    /// pending wrap.
    #[verifier::spinoff_prover]
    fn advance_after_print(&mut self, w: usize)
        requires
            old(self).wf(),
            old(self).cols > 0,
        ensures
            final(self).wf(),
            old(self)@.cursor_col + w >= old(self)@.cols ==> final(self)@ == (TermView {
                cursor_col: old(self)@.cols - 1,
                wrap_pending: true,
                ..old(self)@
            }),
            old(self)@.cursor_col + w < old(self)@.cols ==> final(self)@ == (TermView {
                cursor_col: old(self)@.cursor_col + w,
                ..old(self)@
            }),
    {
        let cols = self.cols;
        let col = self.cursor_col;
        if w >= cols - col {
            self.cursor_col = cols - 1;
            self.wrap_pending = true;
        } else {
            self.cursor_col = col + w;
        }
    }

    /// Carry out a pending wrap before printing (see `wrap_step_spec`).
    fn wrap_step(&mut self)
        requires
            old(self).wf(),
        ensures
            final(self).cols == old(self).cols,
            final(self).rows == old(self).rows,
            final(self).wf(),
            final(self)@ == wrap_step_spec(old(self)@),
    {
        proof {
            reveal(wrap_step_spec);
        }
        if self.wrap_pending {
            self.wrap_pending = false;
            if self.modes.auto_wrap {
                self.cr_newline();
            }
        }
    }

    /// Print a character (see `print_spec`).
    pub fn print(&mut self, c: char)
        requires
            old(self).wf(),
        ensures
            final(self).wf(),
            final(self)@ == print_spec(old(self)@, c),
    {
        proof {
            reveal(print_spec);
        }
        if is_zero_width_combining(c) {
            return;
        }
        if self.cols == 0 || self.rows == 0 {
            return;
        }
        let w = char_width(c, self.cjk_width);
        self.wrap_step();
        if w == 2 && self.cursor_col >= self.cols - 1 {
            if self.modes.auto_wrap {
                self.cr_newline();
            } else {
                return;
            }
        }
        self.put_char(c, w);
    }

    /// Backspace (see `backspace_spec`).
    fn backspace(&mut self)
        requires
            old(self).wf(),
        ensures
            final(self).wf(),
            final(self)@ == backspace_spec(old(self)@),
    {
        proof {
            reveal(backspace_spec);
        }
        self.cursor_col = if self.cursor_col > 0 { self.cursor_col - 1 } else { 0 };
        self.wrap_pending = false;
    }

    /// Horizontal tab (see `tab_spec`).
    fn tab(&mut self)
        requires
            old(self).wf(),
        ensures
            final(self).wf(),
            final(self)@ == tab_spec(old(self)@),
    {
        proof {
            reveal(tab_spec);
        }
        if self.cols == 0 {
            return;
        }
        let cols = self.cols;
        let start = self.cursor_col + 1;
        let mut i: usize = start;
        while i < cols && !self.tab_stops[i]
            invariant
                start <= i <= cols,
                start == self.cursor_col + 1,
                cols == self.cols,
                self.tab_stops@.len() == cols,
                tab_stop_from(self.tab_stops@, i as int, cols as int) == tab_stop_from(
                    self.tab_stops@,
                    start as int,
                    cols as int,
                ),
            decreases cols - i,
        {
            i += 1;
        }
        self.cursor_col = if i < cols { i } else { cols - 1 };
        self.wrap_pending = false;
    }

    /// Line feed with LNM (see `linefeed_spec`).
    fn linefeed(&mut self)
        requires
            old(self).wf(),
        ensures
            final(self).wf(),
            final(self)@ == linefeed_spec(old(self)@),
    {
        proof {
            reveal(linefeed_spec);
        }
        self.newline();
        if self.modes.linefeed_mode {
            self.cursor_col = 0;
        }
        self.wrap_pending = false;
    }

    /// A C0 control character (see `execute_spec`).
    pub fn execute(&mut self, byte: u8)
        requires
            old(self).wf(),
        ensures
            final(self).wf(),
            final(self)@ == execute_spec(old(self)@, byte),
    {
        proof {
            reveal(execute_spec);
            reveal(carriage_return_spec);
        }
        if byte == 0x08 {
            self.backspace();
        } else if byte == 0x09 {
            self.tab();
        } else if byte == 0x0A || byte == 0x0B || byte == 0x0C {
            self.linefeed();
        } else if byte == 0x0D {
            self.cursor_col = 0;
            self.wrap_pending = false;
        }
    }

    /// Clear the screen and the scrollback (see `clear_all_spec`).
    pub fn clear_all(&mut self)
        requires
            old(self).wf(),
        ensures
            final(self).wf(),
            final(self)@ == clear_all_spec(old(self)@),
    {
        proof {
            reveal(clear_all_spec);
        }
        self.scrollback.clear();
        self.scroll_offset = 0;
        if self.using_alt {
            self.alt_grid.clear();
        } else {
            self.main_grid.clear();
        }
        self.cursor_col = 0;
        self.cursor_row = 0;
        self.wrap_pending = false;
        self.image_store.delete_all();
        assert(self@.images == (ImageStoreView { images: Map::empty(), placements: Seq::empty(), dirty: true, ..old(self)@.images }));
        assert(self@ == clear_all_spec(old(self)@));
    }

    /// Resize the terminal (see `resize_spec`).
    pub fn resize(&mut self, cols: usize, rows: usize)
        requires
            old(self).wf(),
        ensures
            final(self).wf(),
            final(self)@ == resize_spec(old(self)@, cols as int, rows as int),
    {
        proof {
            reveal(resize_spec);
        }
        self.main_grid.resize(cols, rows);
        self.alt_grid.resize(cols, rows);
        self.cols = cols;
        self.rows = rows;
        self.scroll_top = 0;
        self.scroll_bottom = if rows > 0 { rows - 1 } else { 0 };
        self.cursor_col = clamp_to(self.cursor_col, cols);
        self.cursor_row = clamp_to(self.cursor_row, rows);
        self.wrap_pending = false;
        self.tab_stops = default_tabs(cols);
        self.pending_command = None;
        self.pending_command_text = None;
        assert(self@ == resize_spec(old(self)@, cols as int, rows as int));
    }

    /// An ESC sequence (see `esc_spec`).
    pub fn esc_dispatch(&mut self, intermediates: &[u8], ignore: bool, byte: u8)
        requires
            old(self).wf(),
        ensures
            final(self).wf(),
            final(self)@ == esc_spec(old(self)@, intermediates@, byte),
    {
        proof {
            reveal(esc_spec);
        }
        if intermediates.len() != 0 {
            return;
        }
        if byte == 0x37 {
            self.save_cursor();
        } else if byte == 0x38 {
            self.restore_cursor(true);
        } else if byte == 0x4D {
            self.reverse_index();
        } else if byte == 0x44 {
            self.newline();
        } else if byte == 0x45 {
            self.cr_newline();
        } else if byte == 0x48 {
            if self.cursor_col < self.cols {
                let c = self.cursor_col;
                self.tab_stops.set(c, true);
                assert(self@ == esc_spec(old(self)@, intermediates@, byte));
            }
        } else if byte == 0x63 {
            let cols = self.cols;
            let rows = self.rows;
            *self = Terminal::new(cols, rows);
        }
    }
}

/// `x` kept below `n` (0 when `n` is 0).
fn clamp_to(x: usize, n: usize) -> (r: usize)
    ensures
        r == min_int(x as int, last_index(n as int)),
{
    let last = if n > 0 { n - 1 } else { 0 };
    if x < last { x } else { last }
}

/// `r` after writing `c` of width `w` at `col` (see `row_after_print`).
fn print_row(r: Vec<Cell>, col: usize, c: char, w: usize, pen: Pen, link: bool) -> (out: Vec<Cell>)
    requires
        col < r@.len(),
        w <= 3,
    ensures
        out@ == row_after_print(r@, col as int, c, w as int, pen, link),
        out@.len() == r@.len(),
{
    let ghost r0 = r@;
    let n = r.len();
    let mut v = r;
    if col > 0 && v[col].width == 0 {
        v.set(col - 1, Cell::blank());
    }
    if v[col].width == 2 && col + 1 < n {
        v.set(col + 1, Cell::blank());
    }
    if w == 2 && col + 1 < n && v[col + 1].width == 2 && col + 2 < n {
        v.set(col + 2, Cell::blank());
    }
    v.set(col, Cell {
        c: c,
        fg: pen.fg,
        bg: pen.bg,
        attrs: pen.attrs,
        underline_color: pen.underline_color,
        width: w as u8,
        hyperlink: link,
    });
    if w == 2 && col + 1 < n {
        let cont = v[col + 1];
        v.set(col + 1, Cell { c: '\0', width: 0, fg: pen.fg, bg: pen.bg, attrs: pen.attrs, hyperlink: link, ..cont });
    }
    v
}
} // verus!
