use termojinal::cell::Attrs;
use termojinal::color::{Color, NamedColor};
use termojinal::modes::{ClipboardEvent, DrcsFontStore, DrcsGlyph, MouseFormat, MouseMode};
use termojinal::term::Terminal;
use termojinal::width::char_width;

/// HLS to RGB for sixel palettes (grey by lightness is enough here).
fn hls(_h: u16, l: u16, _s: u16) -> (u8, u8, u8) {
    let v = (l.min(100) as u32 * 255 / 100) as u8;
    (v, v, v)
}

/// Hands the parser's callbacks to the terminal.
struct Feeder<'a> {
    term: &'a mut Terminal,
}

fn params_of(params: &vte::Params) -> Vec<Vec<u16>> {
    params.iter().map(|p| p.to_vec()).collect()
}

impl<'a> vte::Perform for Feeder<'a> {
    fn print(&mut self, c: char) {
        self.term.print(c);
    }
    fn execute(&mut self, byte: u8) {
        self.term.execute(byte);
    }
    fn hook(&mut self, params: &vte::Params, intermediates: &[u8], ignore: bool, action: char) {
        self.term.hook(&params_of(params), intermediates, ignore, action);
    }
    fn put(&mut self, byte: u8) {
        self.term.put(byte);
    }
    fn unhook(&mut self) {
        self.term.unhook(&hls);
    }
    fn osc_dispatch(&mut self, params: &[&[u8]], bell_terminated: bool) {
        let p: Vec<Vec<u8>> = params.iter().map(|x| x.to_vec()).collect();
        self.term.osc_dispatch(&p, bell_terminated);
    }
    fn csi_dispatch(&mut self, params: &vte::Params, intermediates: &[u8], ignore: bool, action: char) {
        self.term.csi_dispatch(&params_of(params), intermediates, ignore, action);
    }
    fn esc_dispatch(&mut self, intermediates: &[u8], ignore: bool, byte: u8) {
        self.term.esc_dispatch(intermediates, ignore, byte);
    }
}

fn feed_str(term: &mut Terminal, parser: &mut vte::Parser, s: &str) {
    let passthrough = term.feed_apc(s.as_bytes());
    let mut feeder = Feeder { term };
    for b in passthrough {
        parser.advance(&mut feeder, b);
    }
}

#[test]
fn test_print_basic() {
    let mut term = Terminal::new(80, 24);
    let mut parser = vte::Parser::new();
    feed_str(&mut term, &mut parser, "Hello");
    assert_eq!(term.grid().cell(0, 0).c, 'H');
    assert_eq!(term.grid().cell(4, 0).c, 'o');
    assert_eq!(term.cursor_col, 5);
}

#[test]
fn test_newline() {
    let mut term = Terminal::new(80, 24);
    let mut parser = vte::Parser::new();
    feed_str(&mut term, &mut parser, "Line1\r\nLine2");
    assert_eq!(term.grid().cell(0, 0).c, 'L');
    assert_eq!(term.grid().cell(0, 1).c, 'L');
    assert_eq!(term.cursor_row, 1);
}

#[test]
fn test_cursor_movement() {
    let mut term = Terminal::new(80, 24);
    let mut parser = vte::Parser::new();
    feed_str(&mut term, &mut parser, "\x1b[5;10H");
    assert_eq!(term.cursor_row, 4);
    assert_eq!(term.cursor_col, 9);
}

#[test]
fn test_erase_in_line() {
    let mut term = Terminal::new(10, 1);
    let mut parser = vte::Parser::new();
    feed_str(&mut term, &mut parser, "ABCDEFGHIJ");
    feed_str(&mut term, &mut parser, "\x1b[6G\x1b[K");
    assert_eq!(term.grid().cell(4, 0).c, 'E');
    assert_eq!(term.grid().cell(5, 0).c, ' ');
}

#[test]
fn test_alternate_screen() {
    let mut term = Terminal::new(80, 24);
    let mut parser = vte::Parser::new();
    feed_str(&mut term, &mut parser, "Main");
    assert_eq!(term.grid().cell(0, 0).c, 'M');

    feed_str(&mut term, &mut parser, "\x1b[?1049h");
    assert!(term.modes.alternate_screen);
    assert_eq!(term.grid().cell(0, 0).c, ' ');

    feed_str(&mut term, &mut parser, "Alt");
    assert_eq!(term.grid().cell(0, 0).c, 'A');

    feed_str(&mut term, &mut parser, "\x1b[?1049l");
    assert!(!term.modes.alternate_screen);
    assert_eq!(term.grid().cell(0, 0).c, 'M');
}

#[test]
fn test_sgr_colors() {
    let mut term = Terminal::new(80, 24);
    let mut parser = vte::Parser::new();
    feed_str(&mut term, &mut parser, "\x1b[1;31;44mX");
    let cell = term.grid().cell(0, 0);
    assert_eq!(cell.c, 'X');
    assert_eq!(cell.fg, Color::Named(NamedColor::Red));
    assert_eq!(cell.bg, Color::Named(NamedColor::Blue));
    assert!(cell.attrs.contains(Attrs::BOLD));
}

#[test]
fn test_sgr_truecolor() {
    let mut term = Terminal::new(80, 24);
    let mut parser = vte::Parser::new();
    feed_str(&mut term, &mut parser, "\x1b[38;2;255;128;0mX");
    assert_eq!(term.grid().cell(0, 0).fg, Color::Rgb(255, 128, 0));
}

#[test]
fn test_sgr_256color() {
    let mut term = Terminal::new(80, 24);
    let mut parser = vte::Parser::new();
    feed_str(&mut term, &mut parser, "\x1b[38;5;196mX");
    assert_eq!(term.grid().cell(0, 0).fg, Color::Indexed(196));
}

#[test]
fn test_scroll_region() {
    let mut term = Terminal::new(80, 10);
    let mut parser = vte::Parser::new();
    feed_str(&mut term, &mut parser, "\x1b[3;7r");
    assert_eq!(term.scroll_top(), 2);
    assert_eq!(term.scroll_bottom(), 6);
}

#[test]
fn test_bracketed_paste_mode() {
    let mut term = Terminal::new(80, 24);
    let mut parser = vte::Parser::new();
    assert!(!term.modes.bracketed_paste);
    feed_str(&mut term, &mut parser, "\x1b[?2004h");
    assert!(term.modes.bracketed_paste);
    feed_str(&mut term, &mut parser, "\x1b[?2004l");
    assert!(!term.modes.bracketed_paste);
}

#[test]
fn test_cursor_save_restore() {
    let mut term = Terminal::new(80, 24);
    let mut parser = vte::Parser::new();
    feed_str(&mut term, &mut parser, "\x1b[5;10H");
    feed_str(&mut term, &mut parser, "\x1b7");
    feed_str(&mut term, &mut parser, "\x1b[1;1H");
    assert_eq!(term.cursor_col, 0);
    assert_eq!(term.cursor_row, 0);
    feed_str(&mut term, &mut parser, "\x1b8");
    assert_eq!(term.cursor_col, 9);
    assert_eq!(term.cursor_row, 4);
}

#[test]
fn test_wide_char() {
    let mut term = Terminal::new(80, 24);
    let mut parser = vte::Parser::new();
    feed_str(&mut term, &mut parser, "A漢B");
    assert_eq!(term.grid().cell(0, 0).c, 'A');
    assert_eq!(term.grid().cell(0, 0).width, 1);
    assert_eq!(term.grid().cell(1, 0).c, '漢');
    assert_eq!(term.grid().cell(1, 0).width, 2);
    assert_eq!(term.grid().cell(2, 0).width, 0);
    assert_eq!(term.grid().cell(3, 0).c, 'B');
}

#[test]
fn test_emoji() {
    let mut term = Terminal::new(80, 24);
    let mut parser = vte::Parser::new();
    feed_str(&mut term, &mut parser, "A😀B");
    assert_eq!(term.grid().cell(0, 0).c, 'A');
    let emoji_cell = term.grid().cell(1, 0);
    assert_eq!(emoji_cell.c, '😀');
    assert_eq!(emoji_cell.width, 2);
    assert_eq!(term.grid().cell(2, 0).width, 0);
    assert_eq!(term.grid().cell(3, 0).c, 'B');
}

#[test]
fn test_mouse_mode_click() {
    let mut term = Terminal::new(80, 24);
    let mut parser = vte::Parser::new();
    assert_eq!(term.modes.mouse_mode, MouseMode::Off);
    feed_str(&mut term, &mut parser, "\x1b[?1000h");
    assert_eq!(term.modes.mouse_mode, MouseMode::Click);
    feed_str(&mut term, &mut parser, "\x1b[?1000l");
    assert_eq!(term.modes.mouse_mode, MouseMode::Off);
}

#[test]
fn test_mouse_mode_button_motion() {
    let mut term = Terminal::new(80, 24);
    let mut parser = vte::Parser::new();
    feed_str(&mut term, &mut parser, "\x1b[?1002h");
    assert_eq!(term.modes.mouse_mode, MouseMode::ButtonMotion);
    feed_str(&mut term, &mut parser, "\x1b[?1002l");
    assert_eq!(term.modes.mouse_mode, MouseMode::Off);
}

#[test]
fn test_mouse_mode_any_motion() {
    let mut term = Terminal::new(80, 24);
    let mut parser = vte::Parser::new();
    feed_str(&mut term, &mut parser, "\x1b[?1003h");
    assert_eq!(term.modes.mouse_mode, MouseMode::AnyMotion);
    feed_str(&mut term, &mut parser, "\x1b[?1003l");
    assert_eq!(term.modes.mouse_mode, MouseMode::Off);
}

#[test]
fn test_mouse_format_sgr() {
    let mut term = Terminal::new(80, 24);
    let mut parser = vte::Parser::new();
    assert_eq!(term.modes.mouse_format, MouseFormat::X10);
    feed_str(&mut term, &mut parser, "\x1b[?1006h");
    assert_eq!(term.modes.mouse_format, MouseFormat::Sgr);
    feed_str(&mut term, &mut parser, "\x1b[?1006l");
    assert_eq!(term.modes.mouse_format, MouseFormat::X10);
}

#[test]
fn test_mouse_format_utf8() {
    let mut term = Terminal::new(80, 24);
    let mut parser = vte::Parser::new();
    feed_str(&mut term, &mut parser, "\x1b[?1005h");
    assert_eq!(term.modes.mouse_format, MouseFormat::Utf8);
    feed_str(&mut term, &mut parser, "\x1b[?1005l");
    assert_eq!(term.modes.mouse_format, MouseFormat::X10);
}

#[test]
fn test_mouse_format_urxvt() {
    let mut term = Terminal::new(80, 24);
    let mut parser = vte::Parser::new();
    feed_str(&mut term, &mut parser, "\x1b[?1015h");
    assert_eq!(term.modes.mouse_format, MouseFormat::Urxvt);
    feed_str(&mut term, &mut parser, "\x1b[?1015l");
    assert_eq!(term.modes.mouse_format, MouseFormat::X10);
}

#[test]
fn test_focus_events_mode() {
    let mut term = Terminal::new(80, 24);
    let mut parser = vte::Parser::new();
    assert!(!term.modes.focus_events);
    feed_str(&mut term, &mut parser, "\x1b[?1004h");
    assert!(term.modes.focus_events);
    feed_str(&mut term, &mut parser, "\x1b[?1004l");
    assert!(!term.modes.focus_events);
}

#[test]
fn test_kitty_keyboard_push_pop() {
    let mut term = Terminal::new(80, 24);
    let mut parser = vte::Parser::new();
    assert_eq!(term.kitty_keyboard_mode(), 0);
    feed_str(&mut term, &mut parser, "\x1b[>1u");
    assert_eq!(term.kitty_keyboard_mode(), 1);
    feed_str(&mut term, &mut parser, "\x1b[>3u");
    assert_eq!(term.kitty_keyboard_mode(), 3);
    feed_str(&mut term, &mut parser, "\x1b[<1u");
    assert_eq!(term.kitty_keyboard_mode(), 1);
    feed_str(&mut term, &mut parser, "\x1b[<1u");
    assert_eq!(term.kitty_keyboard_mode(), 0);
}

#[test]
fn test_kitty_keyboard_pop_multiple() {
    let mut term = Terminal::new(80, 24);
    let mut parser = vte::Parser::new();
    feed_str(&mut term, &mut parser, "\x1b[>1u");
    feed_str(&mut term, &mut parser, "\x1b[>2u");
    feed_str(&mut term, &mut parser, "\x1b[>3u");
    assert_eq!(term.kitty_keyboard_mode(), 3);
    feed_str(&mut term, &mut parser, "\x1b[<2u");
    assert_eq!(term.kitty_keyboard_mode(), 1);
}

#[test]
fn test_kitty_keyboard_pop_empty_stack() {
    let mut term = Terminal::new(80, 24);
    let mut parser = vte::Parser::new();
    feed_str(&mut term, &mut parser, "\x1b[<5u");
    assert_eq!(term.kitty_keyboard_mode(), 0);
}

#[test]
fn test_kitty_keyboard_query() {
    let mut term = Terminal::new(80, 24);
    let mut parser = vte::Parser::new();
    feed_str(&mut term, &mut parser, "\x1b[?u");
    assert_eq!(term.kitty_keyboard_mode(), 0);
    feed_str(&mut term, &mut parser, "\x1b[>5u");
    feed_str(&mut term, &mut parser, "\x1b[?u");
    assert_eq!(term.kitty_keyboard_mode(), 5);
}

#[test]
fn test_osc8_hyperlink() {
    let mut term = Terminal::new(80, 24);
    let mut parser = vte::Parser::new();
    feed_str(&mut term, &mut parser, "\x1b]8;;https://example.com\x1b\\");
    feed_str(&mut term, &mut parser, "link");
    assert!(term.grid().cell(0, 0).hyperlink);
    assert!(term.grid().cell(1, 0).hyperlink);
    assert!(term.grid().cell(2, 0).hyperlink);
    assert!(term.grid().cell(3, 0).hyperlink);
    feed_str(&mut term, &mut parser, "\x1b]8;;\x1b\\");
    feed_str(&mut term, &mut parser, "text");
    assert!(!term.grid().cell(4, 0).hyperlink);
    assert!(!term.grid().cell(5, 0).hyperlink);
}

#[test]
fn test_osc8_hyperlink_not_set_by_default() {
    let mut term = Terminal::new(80, 24);
    let mut parser = vte::Parser::new();
    feed_str(&mut term, &mut parser, "hello");
    assert!(!term.grid().cell(0, 0).hyperlink);
    assert!(!term.grid().cell(4, 0).hyperlink);
}

#[test]
fn test_osc52_set_clipboard() {
    let mut term = Terminal::new(80, 24);
    let mut parser = vte::Parser::new();
    assert!(term.clipboard_event.is_none());
    feed_str(&mut term, &mut parser, "\x1b]52;c;aGVsbG8=\x1b\\");
    match &term.clipboard_event {
        Some(ClipboardEvent::Store { selection, data }) => {
            assert_eq!(selection, "c");
            assert_eq!(data, "hello");
        }
        other => panic!("expected ClipboardEvent::Store, got {other:?}"),
    }
}

#[test]
fn test_osc52_query_clipboard() {
    let mut term = Terminal::new(80, 24);
    let mut parser = vte::Parser::new();
    feed_str(&mut term, &mut parser, "\x1b]52;c;?\x1b\\");
    match &term.clipboard_event {
        Some(ClipboardEvent::Query { selection }) => {
            assert_eq!(selection, "c");
        }
        other => panic!("expected ClipboardEvent::Query, got {other:?}"),
    }
}

#[test]
fn test_osc52_primary_selection() {
    let mut term = Terminal::new(80, 24);
    let mut parser = vte::Parser::new();
    feed_str(&mut term, &mut parser, "\x1b]52;p;dGVzdA==\x1b\\");
    match &term.clipboard_event {
        Some(ClipboardEvent::Store { selection, data }) => {
            assert_eq!(selection, "p");
            assert_eq!(data, "test");
        }
        other => panic!("expected ClipboardEvent::Store, got {other:?}"),
    }
}

#[test]
fn test_osc52_invalid_base64() {
    let mut term = Terminal::new(80, 24);
    let mut parser = vte::Parser::new();
    feed_str(&mut term, &mut parser, "\x1b]52;c;!!!invalid!!!\x1b\\");
    assert!(term.clipboard_event.is_none());
}

#[test]
fn test_char_width_basic() {
    assert_eq!(char_width('A', false), 1);
    assert_eq!(char_width('A', true), 1);
    assert_eq!(char_width('あ', false), 2);
    assert_eq!(char_width('あ', true), 2);
    assert_eq!(char_width('漢', false), 2);
    assert_eq!(char_width('漢', true), 2);
    assert_eq!(char_width('！', false), 2);
    assert_eq!(char_width('！', true), 2);
}

#[test]
fn test_char_width_ambiguous() {
    assert_eq!(char_width('\u{25EF}', false), 1);
    assert_eq!(char_width('\u{25EF}', true), 2);
    assert_eq!(char_width('\u{25CB}', false), 1);
    assert_eq!(char_width('\u{25CB}', true), 2);
    assert_eq!(char_width('\u{25CF}', false), 1);
    assert_eq!(char_width('\u{25CF}', true), 2);
    assert_eq!(char_width('\u{25A0}', false), 1);
    assert_eq!(char_width('\u{25A0}', true), 2);
    assert_eq!(char_width('\u{25B3}', false), 1);
    assert_eq!(char_width('\u{25B3}', true), 2);
    assert_eq!(char_width('\u{2605}', false), 1);
    assert_eq!(char_width('\u{2605}', true), 2);
    assert_eq!(char_width('\u{2460}', false), 1);
    assert_eq!(char_width('\u{2460}', true), 2);
}

#[test]
fn test_cjk_width_terminal_print() {
    let mut term = Terminal::new(80, 24);
    term.set_cjk_width(true);
    let mut parser = vte::Parser::new();
    feed_str(&mut term, &mut parser, "\u{25EF}");
    let cell = term.grid().cell(0, 0);
    assert_eq!(cell.c, '\u{25EF}');
    assert_eq!(cell.width, 2);
    let cont = term.grid().cell(1, 0);
    assert_eq!(cont.c, '\0');
    assert_eq!(cont.width, 0);
    assert_eq!(term.cursor_col, 2);
}

#[test]
fn test_narrow_width_terminal_print() {
    let mut term = Terminal::new(80, 24);
    term.set_cjk_width(false);
    let mut parser = vte::Parser::new();
    feed_str(&mut term, &mut parser, "\u{25EF}");
    let cell = term.grid().cell(0, 0);
    assert_eq!(cell.c, '\u{25EF}');
    assert_eq!(cell.width, 1);
    assert_eq!(term.cursor_col, 1);
}

#[test]
fn test_decckm_application_cursor_keys() {
    let mut term = Terminal::new(80, 24);
    let mut parser = vte::Parser::new();
    assert!(!term.modes.application_cursor_keys);
    feed_str(&mut term, &mut parser, "\x1b[?1h");
    assert!(term.modes.application_cursor_keys);
    feed_str(&mut term, &mut parser, "\x1b[?1l");
    assert!(!term.modes.application_cursor_keys);
}

#[test]
fn test_decom_origin_mode() {
    let mut term = Terminal::new(80, 24);
    let mut parser = vte::Parser::new();
    assert!(!term.modes.origin_mode);
    feed_str(&mut term, &mut parser, "\x1b[5;20r");
    feed_str(&mut term, &mut parser, "\x1b[10;10H");
    assert_eq!(term.cursor_row, 9);
    assert_eq!(term.cursor_col, 9);
    feed_str(&mut term, &mut parser, "\x1b[?6h");
    assert!(term.modes.origin_mode);
    assert_eq!(term.cursor_col, 0);
    assert_eq!(term.cursor_row, 4);
    feed_str(&mut term, &mut parser, "\x1b[?6l");
    assert!(!term.modes.origin_mode);
    assert_eq!(term.cursor_col, 0);
    assert_eq!(term.cursor_row, 0);
}

#[test]
fn test_x10_mouse_mode() {
    let mut term = Terminal::new(80, 24);
    let mut parser = vte::Parser::new();
    assert_eq!(term.modes.mouse_mode, MouseMode::Off);
    feed_str(&mut term, &mut parser, "\x1b[?9h");
    assert_eq!(term.modes.mouse_mode, MouseMode::Click);
    feed_str(&mut term, &mut parser, "\x1b[?9l");
    assert_eq!(term.modes.mouse_mode, MouseMode::Off);
}

#[test]
fn test_decsdm_sixel_display_mode() {
    let mut term = Terminal::new(80, 24);
    let mut parser = vte::Parser::new();
    assert!(!term.modes.sixel_display_mode);
    feed_str(&mut term, &mut parser, "\x1b[?80h");
    assert!(term.modes.sixel_display_mode);
    feed_str(&mut term, &mut parser, "\x1b[?80l");
    assert!(!term.modes.sixel_display_mode);
}

#[test]
fn test_mode_1047_alt_screen() {
    let mut term = Terminal::new(80, 24);
    let mut parser = vte::Parser::new();
    feed_str(&mut term, &mut parser, "Main");
    assert_eq!(term.grid().cell(0, 0).c, 'M');
    feed_str(&mut term, &mut parser, "\x1b[?1047h");
    assert!(term.modes.alternate_screen);
    assert_eq!(term.grid().cell(0, 0).c, ' ');
    feed_str(&mut term, &mut parser, "\x1b[?1047l");
    assert!(!term.modes.alternate_screen);
    assert_eq!(term.grid().cell(0, 0).c, 'M');
}

#[test]
fn test_mode_1048_save_restore_cursor() {
    let mut term = Terminal::new(80, 24);
    let mut parser = vte::Parser::new();
    feed_str(&mut term, &mut parser, "\x1b[5;10H");
    assert_eq!(term.cursor_row, 4);
    assert_eq!(term.cursor_col, 9);
    feed_str(&mut term, &mut parser, "\x1b[?1048h");
    feed_str(&mut term, &mut parser, "\x1b[1;1H");
    assert_eq!(term.cursor_row, 0);
    assert_eq!(term.cursor_col, 0);
    feed_str(&mut term, &mut parser, "\x1b[?1048l");
    assert_eq!(term.cursor_row, 4);
    assert_eq!(term.cursor_col, 9);
}

#[test]
fn test_lnm_linefeed_mode() {
    let mut term = Terminal::new(80, 24);
    let mut parser = vte::Parser::new();
    assert!(!term.modes.linefeed_mode);
    feed_str(&mut term, &mut parser, "\x1b[20h");
    assert!(term.modes.linefeed_mode);
    feed_str(&mut term, &mut parser, "\x1b[1;6H");
    assert_eq!(term.cursor_col, 5);
    feed_str(&mut term, &mut parser, "\n");
    assert_eq!(term.cursor_col, 0);
    assert_eq!(term.cursor_row, 1);
    feed_str(&mut term, &mut parser, "\x1b[20l");
    assert!(!term.modes.linefeed_mode);
    feed_str(&mut term, &mut parser, "\x1b[3;6H");
    assert_eq!(term.cursor_col, 5);
    feed_str(&mut term, &mut parser, "\n");
    assert_eq!(term.cursor_col, 5);
}

#[test]
fn test_osc10_color_query() {
    let mut term = Terminal::new(80, 24);
    let mut parser = vte::Parser::new();
    feed_str(&mut term, &mut parser, "\x1b]10;?\x1b\\");
    assert!(term.has_pending_responses());
    let responses: Vec<Vec<u8>> = term.drain_responses().into_iter().collect();
    assert_eq!(responses.len(), 1);
    let resp = std::str::from_utf8(&responses[0]).unwrap();
    assert!(resp.contains("]10;rgb:"));
}

#[test]
fn test_osc11_color_query() {
    let mut term = Terminal::new(80, 24);
    let mut parser = vte::Parser::new();
    feed_str(&mut term, &mut parser, "\x1b]11;?\x1b\\");
    assert!(term.has_pending_responses());
    let responses: Vec<Vec<u8>> = term.drain_responses().into_iter().collect();
    assert_eq!(responses.len(), 1);
    let resp = std::str::from_utf8(&responses[0]).unwrap();
    assert!(resp.contains("]11;rgb:"));
}

#[test]
fn test_osc12_color_query() {
    let mut term = Terminal::new(80, 24);
    let mut parser = vte::Parser::new();
    feed_str(&mut term, &mut parser, "\x1b]12;?\x1b\\");
    assert!(term.has_pending_responses());
    let responses: Vec<Vec<u8>> = term.drain_responses().into_iter().collect();
    assert_eq!(responses.len(), 1);
    let resp = std::str::from_utf8(&responses[0]).unwrap();
    assert!(resp.contains("]12;rgb:"));
}

#[test]
fn test_osc10_set_color_no_response() {
    let mut term = Terminal::new(80, 24);
    let mut parser = vte::Parser::new();
    feed_str(&mut term, &mut parser, "\x1b]10;rgb:ffff/0000/0000\x1b\\");
    assert!(!term.has_pending_responses());
}

#[test]
fn test_dsr_status_report() {
    let mut term = Terminal::new(80, 24);
    let mut parser = vte::Parser::new();
    feed_str(&mut term, &mut parser, "\x1b[5n");
    let responses: Vec<Vec<u8>> = term.drain_responses().into_iter().collect();
    assert_eq!(responses.len(), 1);
    assert_eq!(responses[0], b"\x1b[0n");
}

#[test]
fn test_dsr_cursor_position_report() {
    let mut term = Terminal::new(80, 24);
    let mut parser = vte::Parser::new();
    feed_str(&mut term, &mut parser, "\x1b[5;10H");
    feed_str(&mut term, &mut parser, "\x1b[6n");
    let responses: Vec<Vec<u8>> = term.drain_responses().into_iter().collect();
    assert_eq!(responses.len(), 1);
    assert_eq!(responses[0], b"\x1b[5;10R");
}

#[test]
fn test_da_primary() {
    let mut term = Terminal::new(80, 24);
    let mut parser = vte::Parser::new();
    feed_str(&mut term, &mut parser, "\x1b[0c");
    let responses: Vec<Vec<u8>> = term.drain_responses().into_iter().collect();
    assert_eq!(responses.len(), 1);
    let resp = std::str::from_utf8(&responses[0]).unwrap();
    assert!(resp.starts_with("\x1b[?"));
    assert!(resp.contains("62"));
    assert!(resp.contains("4"));
}

#[test]
fn test_da_secondary() {
    let mut term = Terminal::new(80, 24);
    let mut parser = vte::Parser::new();
    feed_str(&mut term, &mut parser, "\x1b[>0c");
    let responses: Vec<Vec<u8>> = term.drain_responses().into_iter().collect();
    assert_eq!(responses.len(), 1);
    let resp = std::str::from_utf8(&responses[0]).unwrap();
    assert!(resp.starts_with("\x1b[>"));
}

#[test]
fn test_drcs_font_store() {
    let mut store = DrcsFontStore::new();
    assert!(store.is_empty());
    store.set_glyph(0, 0, DrcsGlyph { bitmap: vec![0xFF, 0x00], width: 10, height: 20 });
    assert!(!store.is_empty());
    assert!(store.get_glyph(0, 0).is_some());
    assert!(store.get_glyph(0, 1).is_none());
    assert!(store.get_glyph(1, 0).is_none());
    let glyph = store.get_glyph(0, 0).unwrap();
    assert_eq!(glyph.width, 10);
    assert_eq!(glyph.height, 20);
    store.erase_font(0);
    assert!(store.is_empty());
}

#[test]
fn test_drcs_font_store_erase_all() {
    let mut store = DrcsFontStore::new();
    store.set_glyph(0, 0, DrcsGlyph { bitmap: vec![0xFF], width: 8, height: 16 });
    store.set_glyph(1, 0, DrcsGlyph { bitmap: vec![0xFF], width: 8, height: 16 });
    assert_eq!(store.glyphs().len(), 2);
    store.erase_all();
    assert!(store.is_empty());
}

#[test]
fn test_decdld_basic_dcs_hook() {
    let mut term = Terminal::new(80, 24);
    let mut parser = vte::Parser::new();
    feed_str(&mut term, &mut parser, "\x1bP0;0;0;10;0;0;20;0{B~\x1b\\");
    assert!(!term.drcs_fonts.is_empty());
}

#[test]
fn test_response_queue_drain() {
    let mut term = Terminal::new(80, 24);
    let mut parser = vte::Parser::new();
    assert!(!term.has_pending_responses());
    feed_str(&mut term, &mut parser, "\x1b[5n");
    assert!(term.has_pending_responses());
    let responses: Vec<Vec<u8>> = term.drain_responses().into_iter().collect();
    assert_eq!(responses.len(), 1);
    assert!(!term.has_pending_responses());
}

#[test]
fn test_multiple_private_modes() {
    let mut term = Terminal::new(80, 24);
    let mut parser = vte::Parser::new();
    feed_str(&mut term, &mut parser, "\x1b[?1;7;2004h");
    assert!(term.modes.application_cursor_keys);
    assert!(term.modes.auto_wrap);
    assert!(term.modes.bracketed_paste);
    feed_str(&mut term, &mut parser, "\x1b[?1;7;2004l");
    assert!(!term.modes.application_cursor_keys);
    assert!(!term.modes.auto_wrap);
    assert!(!term.modes.bracketed_paste);
}

#[test]
fn osc52_invalid_utf8_is_replaced() {
    let mut term = Terminal::new(80, 24);
    let mut parser = vte::Parser::new();
    // [0x68, 0xff, 0x69] in base64.
    feed_str(&mut term, &mut parser, "\x1b]52;c;aP9p\x1b\\");
    match &term.clipboard_event {
        Some(ClipboardEvent::Store { data, .. }) => assert_eq!(data, "h\u{FFFD}i"),
        other => panic!("expected ClipboardEvent::Store, got {other:?}"),
    }
}

#[test]
fn osc_title_and_cwd() {
    let mut term = Terminal::new(20, 4);
    let mut parser = vte::Parser::new();
    feed_str(&mut term, &mut parser, "\x1b]2;hello\x07");
    let snap = term.snapshot();
    assert_eq!(snap.title, "hello");
}
