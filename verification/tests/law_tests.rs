use termojinal::cell::{Cell, Pen};
use termojinal::color::{Color, NamedColor};
use termojinal::emoji::is_emoji;
use termojinal::glyph::{
    fallback_font, is_cjk, needs_fallback_check, primary_missing, try_procedural_block, FontChoice, ProceduralGlyph,
};
use termojinal::frame::{frame_payload_len, read_frame, Frame, FrameError, MSG_CONTROL, MSG_PTY_OUTPUT, MSG_SNAPSHOT};
use termojinal::hotkey::{hotkey_for, HotkeyEvent, KEYCODE_A, KEYCODE_BACKTICK, KEYCODE_P};
use termojinal::modes::{DrcsFontStore, DrcsGlyph};
use termojinal::scrollback::ScrollbackBuffer;
use termojinal::term::Terminal;

fn hls(_h: u16, l: u16, _s: u16) -> (u8, u8, u8) {
    let v = (l.min(100) as u32 * 255 / 100) as u8;
    (v, v, v)
}

struct Feeder<'a> {
    term: &'a mut Terminal,
}

fn params_of(params: &vte::Params) -> Vec<Vec<u16>> {
    params.iter().map(|p| p.to_vec()).collect()
}

impl<'a> vte::Perform for Feeder<'a> {
    fn print(&mut self, c: char) {
        self.term.print(c);
    }
    fn execute(&mut self, byte: u8) {
        self.term.execute(byte);
    }
    fn hook(&mut self, params: &vte::Params, intermediates: &[u8], ignore: bool, action: char) {
        self.term.hook(&params_of(params), intermediates, ignore, action);
    }
    fn put(&mut self, byte: u8) {
        self.term.put(byte);
    }
    fn unhook(&mut self) {
        self.term.unhook(&hls);
    }
    fn osc_dispatch(&mut self, params: &[&[u8]], bell_terminated: bool) {
        let p: Vec<Vec<u8>> = params.iter().map(|x| x.to_vec()).collect();
        self.term.osc_dispatch(&p, bell_terminated);
    }
    fn csi_dispatch(&mut self, params: &vte::Params, intermediates: &[u8], ignore: bool, action: char) {
        self.term.csi_dispatch(&params_of(params), intermediates, ignore, action);
    }
    fn esc_dispatch(&mut self, intermediates: &[u8], ignore: bool, byte: u8) {
        self.term.esc_dispatch(intermediates, ignore, byte);
    }
}

fn feed(term: &mut Terminal, s: &str) {
    let mut parser = vte::Parser::new();
    let passthrough = term.feed_apc(s.as_bytes());
    let mut feeder = Feeder { term };
    for b in passthrough {
        parser.advance(&mut feeder, b);
    }
}

fn row_text(term: &Terminal, row: usize) -> String {
    (0..term.cols()).map(|c| term.grid().cell(c, row).c).collect::<String>().trim_end().to_string()
}

// -- DECSC / DECRC --

#[test]
fn decsc_decrc_restores_position_and_pen() {
    let mut term = Terminal::new(40, 10);
    feed(&mut term, "\x1b[3;7H\x1b[1;32m\x1b7");
    feed(&mut term, "\x1b[0m\x1b[9;1HZ\x1b[34m");
    feed(&mut term, "\x1b8");
    assert_eq!((term.cursor_col, term.cursor_row), (6, 2));
    feed(&mut term, "Q");
    let cell = term.grid().cell(6, 2);
    assert_eq!(cell.c, 'Q');
    assert_eq!(cell.fg, Color::Named(NamedColor::Green));
}

#[test]
fn decrc_without_save_changes_nothing() {
    let mut term = Terminal::new(40, 10);
    feed(&mut term, "\x1b[4;5H\x1b8");
    assert_eq!((term.cursor_col, term.cursor_row), (4, 3));
}

// -- Alternate screen --

#[test]
fn alt_screen_1049_restores_main_grid_and_cursor() {
    let mut term = Terminal::new(20, 5);
    feed(&mut term, "shell$ ls\r\nfile");
    let (col, row) = (term.cursor_col, term.cursor_row);
    feed(&mut term, "\x1b[?1049h\x1b[2J\x1b[3;3Hvim screen");
    assert_eq!(row_text(&term, 0), "");
    feed(&mut term, "\x1b[?1049l");
    assert_eq!(row_text(&term, 0), "shell$ ls");
    assert_eq!(row_text(&term, 1), "file");
    assert_eq!((term.cursor_col, term.cursor_row), (col, row));
}

// -- Kitty keyboard --

#[test]
fn kitty_push_then_pop_gives_back_the_stack() {
    let mut term = Terminal::new(10, 3);
    feed(&mut term, "\x1b[>9u");
    feed(&mut term, "\x1b[>4u\x1b[<u");
    assert_eq!(term.kitty_keyboard_mode(), 9);
}

// -- SGR reset --

#[test]
fn sgr_zero_and_empty_reset_the_pen() {
    let mut term = Terminal::new(10, 3);
    feed(&mut term, "\x1b[1;4;31;42mA\x1b[0mB\x1b[7;33mC\x1b[mD");
    assert_eq!(term.grid().cell(1, 0).fg, Pen::default().fg);
    assert_eq!(term.grid().cell(1, 0).bg, Pen::default().bg);
    assert!(term.grid().cell(1, 0).attrs.is_empty());
    assert_eq!(term.grid().cell(3, 0).fg, Pen::default().fg);
    assert!(term.grid().cell(3, 0).attrs.is_empty());
}

#[test]
fn sgr_bright_and_background_codes() {
    assert_eq!(NamedColor::from_sgr_fg(31), Some(NamedColor::Red));
    assert_eq!(NamedColor::from_sgr_bg(41), Some(NamedColor::Red));
    assert_eq!(NamedColor::from_sgr_fg(97), Some(NamedColor::BrightWhite));
    assert_eq!(NamedColor::from_sgr_bg(107), Some(NamedColor::BrightWhite));
    assert_eq!(NamedColor::from_sgr_fg(38), None);
    assert_eq!(NamedColor::from_sgr_bg(48), None);
}

// -- Full reset --

#[test]
fn ris_resets_the_terminal() {
    let mut term = Terminal::new(12, 4);
    feed(&mut term, "abc\x1b[?1049h\x1b[>3u\x1b[2;3r\x1b[3;3H");
    feed(&mut term, "\x1bc");
    assert!(!term.modes.alternate_screen);
    assert_eq!(term.kitty_keyboard_mode(), 0);
    assert_eq!((term.cursor_col, term.cursor_row), (0, 0));
    assert_eq!(term.scroll_top(), 0);
    assert_eq!(term.scroll_bottom(), 3);
    assert_eq!(row_text(&term, 0), "");
}

// -- Snapshot and restore --

#[test]
fn snapshot_then_restore_gives_back_the_screen() {
    let mut term = Terminal::new(16, 4);
    feed(&mut term, "\x1b]0;my title\x07\x1b]7;file:///home/me\x07");
    feed(&mut term, "one\r\n\x1b[35mtwo");
    let snap = term.snapshot();
    let back = Terminal::restore_from_snapshot(&snap);
    assert_eq!(back.cols(), 16);
    assert_eq!(back.rows(), 4);
    for r in 0..4 {
        for c in 0..16 {
            assert_eq!(back.grid().cell(c, r).c, term.grid().cell(c, r).c);
            assert_eq!(back.grid().cell(c, r).fg, term.grid().cell(c, r).fg);
        }
    }
    assert_eq!((back.cursor_col, back.cursor_row), (term.cursor_col, term.cursor_row));
    assert_eq!(snap.title, "my title");
    let snap2 = back.snapshot();
    assert_eq!(snap2.title, snap.title);
    assert_eq!(snap2.cwd, snap.cwd);
}

#[test]
fn restore_clamps_cursor_and_fills_missing_cells() {
    let mut term = Terminal::new(4, 2);
    feed(&mut term, "ab");
    let mut snap = term.snapshot();
    snap.cursor_col = 100;
    snap.cursor_row = 100;
    snap.grid_cells.truncate(1);
    let back = Terminal::restore_from_snapshot(&snap);
    assert_eq!((back.cursor_col, back.cursor_row), (3, 1));
    assert_eq!(back.grid().cell(0, 0).c, 'a');
    assert_eq!(back.grid().cell(0, 1).c, Cell::default().c);
}

// -- Scrollback --

#[test]
fn scrollback_push_then_newest_is_the_pushed_line() {
    let mut sb = ScrollbackBuffer::new(2);
    sb.push(vec![Cell::default(); 1]);
    let mut line = vec![Cell::default(); 1];
    line[0].c = 'x';
    sb.push(line);
    assert_eq!(sb.len(), 2);
    assert_eq!(sb.get(0).unwrap()[0].c, 'x');
    let mut line2 = vec![Cell::default(); 1];
    line2[0].c = 'y';
    sb.push(line2);
    assert_eq!(sb.len(), 2);
    assert_eq!(sb.get(0).unwrap()[0].c, 'y');
    assert_eq!(sb.get(1).unwrap()[0].c, 'x');
    assert!(sb.get(2).is_none());
    sb.clear();
    assert!(sb.is_empty());
}

#[test]
fn lines_scrolled_off_go_to_the_scrollback() {
    let mut term = Terminal::new(5, 2);
    feed(&mut term, "a\r\nb\r\nc\r\nd");
    assert_eq!(term.scrollback_len(), 2);
    assert_eq!(term.total_scrolled_lines(), 2);
    assert_eq!(term.scrollback_row(0).unwrap()[0].c, 'b');
    assert_eq!(term.scrollback_row(1).unwrap()[0].c, 'a');
    term.set_scroll_offset(99);
    assert_eq!(term.scroll_offset(), 2);
    term.clear_all();
    assert_eq!(term.scrollback_len(), 0);
    assert_eq!(term.scroll_offset(), 0);
}

// -- Resize and wrapping --

#[test]
fn resize_keeps_the_cursor_on_screen() {
    let mut term = Terminal::new(20, 10);
    feed(&mut term, "\x1b[10;20H");
    term.resize(5, 3);
    assert_eq!(term.cols(), 5);
    assert_eq!(term.rows(), 3);
    assert!(term.cursor_col < 5);
    assert!(term.cursor_row < 3);
}

#[test]
fn printing_past_the_last_column_wraps() {
    let mut term = Terminal::new(3, 2);
    feed(&mut term, "abcd");
    assert_eq!(row_text(&term, 0), "abc");
    assert_eq!(row_text(&term, 1), "d");
    assert_eq!((term.cursor_col, term.cursor_row), (1, 1));
}

#[test]
fn zero_width_joiner_takes_no_cell() {
    let mut term = Terminal::new(10, 2);
    feed(&mut term, "a\u{200D}b");
    assert_eq!(term.grid().cell(1, 0).c, 'b');
    assert_eq!(term.cursor_col, 2);
}

#[test]
fn tab_goes_to_the_next_stop_of_eight() {
    let mut term = Terminal::new(20, 2);
    feed(&mut term, "ab\t");
    assert_eq!(term.cursor_col, 8);
    feed(&mut term, "\t\t");
    assert_eq!(term.cursor_col, 19);
}

// -- Command history --

#[test]
fn shell_marks_record_a_command() {
    let mut term = Terminal::new(20, 6);
    feed(&mut term, "\x1b]133;A\x07$ \x1b]133;B\x07ls\x1b]133;C\x07\r\nout\r\n\x1b]133;D\x07");
    assert_eq!(term.command_history().len(), 1);
    assert_eq!(term.command_history()[0].command_text, "ls");
    assert_eq!(term.command_history()[0].id, 0);
    assert_eq!(term.command_history()[0].prompt_line, 0);
}

#[test]
fn jump_to_command_by_id() {
    let mut term = Terminal::new(20, 3);
    feed(&mut term, "\x1b]133;A\x07$ \x1b]133;B\x07a\x1b]133;C\x07\r\n\x1b]133;D\x07");
    feed(&mut term, "1\r\n2\r\n3\r\n4\r\n");
    assert!(term.jump_to_command(0).is_some());
    assert_eq!(term.scroll_offset(), term.total_scrolled_lines());
    assert!(term.jump_to_command(42).is_none());
}

// -- DRCS --

#[test]
fn drcs_erase_font_keeps_other_fonts() {
    let mut store = DrcsFontStore::new();
    store.set_glyph(1, 5, DrcsGlyph { bitmap: vec![1], width: 8, height: 8 });
    store.set_glyph(2, 5, DrcsGlyph { bitmap: vec![2], width: 8, height: 8 });
    store.erase_font(1);
    assert!(store.get_glyph(1, 5).is_none());
    assert_eq!(store.get_glyph(2, 5).unwrap().bitmap, vec![2]);
}

// -- Font fallback --

#[test]
fn primary_font_missing_glyphs() {
    assert!(primary_missing('A', 0, 10, 5, &[1]));
    assert!(primary_missing('A', 8, 10, 0, &[1]));
    assert!(!primary_missing('A', 8, 10, 5, &[0, 0]));
    assert!(primary_missing('\u{E0A0}', 8, 10, 5, &[0, 0]));
    assert!(!primary_missing('\u{E0A0}', 8, 10, 5, &[0, 3]));
}

#[test]
fn fallback_font_choice() {
    // Ideographs prefer the CJK font.
    assert_eq!(fallback_font('漢', false, false, true, true, true), FontChoice::Cjk);
    assert_eq!(fallback_font('漢', false, false, false, true, true), FontChoice::Primary);
    assert_eq!(fallback_font('漢', false, true, false, true, true), FontChoice::Fallback);
    // A geometric shape: the primary font first unless ambiguous characters are wide.
    assert_eq!(fallback_font('■', false, false, true, true, true), FontChoice::Primary);
    assert_eq!(fallback_font('■', true, false, true, true, true), FontChoice::Cjk);
    assert_eq!(fallback_font('■', false, true, true, true, true), FontChoice::Cjk);
    // A Nerd Font icon: the Nerd Font before the symbols font.
    assert_eq!(fallback_font('\u{E0A0}', false, true, false, true, true), FontChoice::Fallback);
    assert_eq!(fallback_font('\u{E0A0}', false, true, false, false, true), FontChoice::Symbols);
    // Anything else the primary font lacks: the symbols font first.
    assert_eq!(fallback_font('\u{1D400}', false, true, false, true, true), FontChoice::Symbols);
    assert_eq!(fallback_font('\u{1D400}', false, true, false, true, false), FontChoice::Fallback);
    assert_eq!(fallback_font('A', false, false, true, true, true), FontChoice::Primary);
    assert_eq!(fallback_font('A', false, true, false, false, false), FontChoice::Primary);
}

// -- Frames --

#[test]
fn session_frame_roundtrip() {
    let f = Frame::pty_output("session-é", b"\x1b[0mhello");
    assert_eq!(f.msg_type, MSG_PTY_OUTPUT);
    assert_eq!(f.payload[0] as usize, "session-é".len());
    let (sid, data) = f.parse_session_payload().unwrap();
    assert_eq!(sid, "session-é");
    assert_eq!(data, b"\x1b[0mhello");
    let s = Frame::snapshot("id", b"{}");
    assert_eq!(s.msg_type, MSG_SNAPSHOT);
    assert_eq!(s.payload, b"\x02id{}".to_vec());
}

#[test]
fn session_payload_errors() {
    assert!(Frame { msg_type: 3, payload: vec![] }.parse_session_payload().is_none());
    assert!(Frame { msg_type: 3, payload: vec![5, b'a'] }.parse_session_payload().is_none());
    assert!(Frame { msg_type: 3, payload: vec![1, 0xff, 1] }.parse_session_payload().is_none());
    let f = Frame { msg_type: 3, payload: vec![0, 9] };
    let (sid, data) = f.parse_session_payload().unwrap();
    assert_eq!(sid, "");
    assert_eq!(data, &[9]);
}

#[test]
fn frame_header_roundtrip() {
    let f = Frame::control(b"{\"type\":\"ping\"}".to_vec());
    assert_eq!(f.msg_type, MSG_CONTROL);
    let h = f.header();
    assert_eq!(h, vec![0, 0, 0, 16, MSG_CONTROL]);
    let len = frame_payload_len(&[h[0], h[1], h[2], h[3]]);
    assert_eq!(len, Some(f.payload.len()));
}

#[test]
fn frame_length_limits() {
    assert_eq!(frame_payload_len(&[0, 0, 0, 0]), None);
    assert_eq!(frame_payload_len(&[0, 0, 0, 1]), Some(0));
    assert_eq!(frame_payload_len(&[1, 0, 0, 0]), Some(16 * 1024 * 1024 - 1));
    assert_eq!(frame_payload_len(&[1, 0, 0, 1]), None);
}

#[test]
fn frame_encode_then_read() {
    let f = Frame::pty_output("s1", b"abc");
    let mut wire = f.encode();
    assert_eq!(wire, vec![0, 0, 0, 7, MSG_PTY_OUTPUT, 2, b's', b'1', b'a', b'b', b'c']);
    wire.extend_from_slice(&[9, 9]);
    let (g, used) = read_frame(&wire).unwrap();
    assert_eq!(used, 11);
    assert_eq!(g.msg_type, MSG_PTY_OUTPUT);
    assert_eq!(g.payload, f.payload);
    let (e, used) = read_frame(&Frame::control(vec![]).encode()).unwrap();
    assert_eq!(used, 5);
    assert_eq!(e.msg_type, MSG_CONTROL);
    assert!(e.payload.is_empty());
}

#[test]
fn frame_read_errors() {
    assert_eq!(read_frame(&[0, 0, 0]).err(), Some(FrameError::Incomplete));
    assert_eq!(read_frame(&[0, 0, 0, 0, 1]).err(), Some(FrameError::InvalidLength));
    assert_eq!(read_frame(&[1, 0, 0, 1, 1]).err(), Some(FrameError::InvalidLength));
    assert_eq!(read_frame(&[0, 0, 0, 3, 1, 7]).err(), Some(FrameError::Incomplete));
    assert_eq!(read_frame(&[0, 0, 0, 1]).err(), Some(FrameError::Incomplete));
}

// -- Hotkeys --

#[test]
fn hotkeys_by_modifiers_and_key() {
    assert_eq!(hotkey_for(true, true, KEYCODE_P), Some(HotkeyEvent::CommandPalette));
    assert_eq!(hotkey_for(true, true, KEYCODE_A), Some(HotkeyEvent::AllowFlowPanel));
    assert_eq!(hotkey_for(true, false, KEYCODE_BACKTICK), Some(HotkeyEvent::QuickTerminal));
    assert_eq!(hotkey_for(true, true, KEYCODE_BACKTICK), None);
    assert_eq!(hotkey_for(true, false, KEYCODE_P), None);
    assert_eq!(hotkey_for(false, true, KEYCODE_P), None);
}

// -- Emoji --

#[test]
fn test_is_emoji() {
    assert!(is_emoji('\u{1F600}'));
    assert!(is_emoji('\u{1F680}'));
    assert!(is_emoji('\u{1F4A9}'));
    assert!(!is_emoji('\u{2764}'));
    assert!(!is_emoji('A'));
    assert!(!is_emoji('z'));
    assert!(!is_emoji('0'));
    assert!(!is_emoji(' '));
}

#[test]
fn later_emoji_blocks_count_as_emoji() {
    assert!(is_emoji('\u{1FA99}'));
    assert!(is_emoji('\u{1FAE0}'));
}

// -- Procedural glyphs --


fn bitmap_of(c: char, w: u32, h: u32) -> Vec<u8> {
    match try_procedural_block(c, w, h) {
        Some(ProceduralGlyph::Bitmap(b)) => b,
        _ => panic!("no bitmap for {c:?}"),
    }
}

#[test]
fn full_and_half_blocks() {
    let full = bitmap_of('\u{2588}', 8, 16);
    assert_eq!(full.len(), 128);
    assert!(full.iter().all(|&p| p == 255));
    let upper = bitmap_of('\u{2580}', 8, 16);
    for y in 0..16 {
        for x in 0..8 {
            assert_eq!(upper[y * 8 + x], if y < 8 { 255 } else { 0 });
        }
    }
    let quad = bitmap_of('\u{2597}', 8, 16);
    assert_eq!(quad[8 * 8 + 4], 255);
    assert_eq!(quad[8 * 8 + 3], 0);
}

#[test]
fn shades_are_uniform() {
    assert!(bitmap_of('\u{2591}', 4, 4).iter().all(|&p| p == 64));
    assert!(bitmap_of('\u{2592}', 4, 4).iter().all(|&p| p == 128));
    assert!(bitmap_of('\u{2593}', 4, 4).iter().all(|&p| p == 192));
}

#[test]
fn box_drawing_lines() {
    let h = bitmap_of('\u{2500}', 8, 16);
    for y in 0..16 {
        for x in 0..8 {
            assert_eq!(h[y * 8 + x], if y == 8 { 255 } else { 0 }, "({x},{y})");
        }
    }
    let v = bitmap_of('\u{2502}', 8, 16);
    for y in 0..16 {
        for x in 0..8 {
            assert_eq!(v[y * 8 + x], if x == 4 { 255 } else { 0 }, "({x},{y})");
        }
    }
    let dh = bitmap_of('\u{2550}', 8, 16);
    for y in 0..16 {
        for x in 0..8 {
            assert_eq!(dh[y * 8 + x], if y == 6 || y == 9 { 255 } else { 0 }, "({x},{y})");
        }
    }
    let dv = bitmap_of('\u{2551}', 8, 16);
    for y in 0..16 {
        for x in 0..8 {
            assert_eq!(dv[y * 8 + x], if x == 2 || x == 5 { 255 } else { 0 }, "({x},{y})");
        }
    }
}

#[test]
fn curve_symbols_and_font_glyphs() {
    assert!(matches!(try_procedural_block('\\', 8, 16), Some(ProceduralGlyph::Backslash)));
    assert!(matches!(try_procedural_block('\u{2714}', 8, 16), Some(ProceduralGlyph::CheckMark)));
    assert!(try_procedural_block('A', 8, 16).is_none());
    assert!(try_procedural_block('\u{2571}', 8, 16).is_none());
}

#[test]
fn atlas_test_needs_fallback_check_includes_braille() {
    assert!(needs_fallback_check('\u{2800}'));
    assert!(needs_fallback_check('\u{280B}'));
    assert!(needs_fallback_check('\u{28FF}'));
    assert!(needs_fallback_check('\u{2714}'));
    assert!(needs_fallback_check('\u{2718}'));
    assert!(needs_fallback_check('\u{25CF}'));
    assert!(needs_fallback_check('\u{2190}'));
    assert!(needs_fallback_check('\u{2588}'));
}

#[test]
fn tests_test_needs_fallback_check_includes_braille() {
    assert!(needs_fallback_check('\u{2800}'));
    assert!(needs_fallback_check('\u{280B}'));
    assert!(needs_fallback_check('\u{28FF}'));
    assert!(needs_fallback_check('\u{2714}'));
    assert!(needs_fallback_check('\u{2718}'));
    assert!(needs_fallback_check('\u{25CF}'));
    assert!(needs_fallback_check('\u{2190}'));
    assert!(needs_fallback_check('\u{2588}'));
}

#[test]
fn fallback_and_cjk_ranges() {
    assert!(!needs_fallback_check('A'));
    assert!(needs_fallback_check('\u{E0A0}'));
    assert!(is_cjk('漢'));
    assert!(is_cjk('\u{25EF}'));
    assert!(!is_cjk('\u{2800}'));
    assert!(!is_cjk('a'));
}

#[test]
fn history_keeps_the_newest_records() {
    let mut term = Terminal::new(20, 6);
    term.set_max_command_history(1);
    feed(&mut term, "\x1b]133;A\x07$ \x1b]133;B\x07one\x1b]133;C\x07\r\n\x1b]133;D\x07");
    feed(&mut term, "\x1b]133;A\x07$ \x1b]133;B\x07two\x1b]133;C\x07\r\n\x1b]133;D\x07");
    assert_eq!(term.command_history().len(), 1);
    assert_eq!(term.command_history()[0].command_text, "two");
    assert_eq!(term.command_history()[0].id, 1);
}

#[test]
fn grow_then_shrink_back_restores_the_grid() {
    let mut term = Terminal::new(6, 3);
    feed(&mut term, "abc\r\ndef\x1b[2;2H");
    term.resize(10, 8);
    assert_eq!(row_text(&term, 0), "abc");
    term.resize(6, 3);
    assert_eq!(row_text(&term, 0), "abc");
    assert_eq!(row_text(&term, 1), "def");
    assert_eq!((term.cursor_col, term.cursor_row), (1, 1));
}
