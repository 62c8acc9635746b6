use vstd::prelude::*;
use std::collections::HashMap;
use crate::cell::Pen;

verus! {

/// A single DRCS (dynamically redefinable character set) glyph defined by
/// DECDLD: a 1-bit-per-pixel bitmap, MSB first, row-major.
#[derive(Debug, Clone)]
pub struct DrcsGlyph {
    /// Bitmap data.
    pub bitmap: Vec<u8>,
    /// Width in pixels.
    pub width: u8,
    /// Height in pixels.
    pub height: u8,
}

/// The map key of a glyph: the font number in the high byte, the character
/// code in the low byte.
pub open spec fn drcs_key(font_number: u8, char_code: u8) -> u16 {
    (font_number as int * 256 + char_code as int) as u16
}

/// The key a glyph of `font_number` and `char_code` is stored under.
pub fn glyph_key(font_number: u8, char_code: u8) -> (k: u16)
    ensures
        k == drcs_key(font_number, char_code),
        k as int == font_number as int * 256 + char_code as int,
{
    font_number as u16 * 256 + char_code as u16
}

/// The glyphs of `m` whose font is not `font_number`.
pub open spec fn without_font(m: Map<u16, DrcsGlyph>, font_number: u8) -> Map<u16, DrcsGlyph> {
    m.restrict(m.dom().filter(|k: u16| k / 256 != font_number))
}

/// Store for DRCS soft fonts loaded via DECDLD.
#[derive(Debug, Clone)]
pub struct DrcsFontStore {
    glyphs: HashMap<u16, DrcsGlyph>,
}

impl DrcsFontStore {
    /// The stored glyphs by key (see `drcs_key`).
    pub closed spec fn view_map(&self) -> Map<u16, DrcsGlyph> {
        self.glyphs@
    }

    /// The store holds finitely many glyphs.
    pub proof fn lemma_finite(&self)
        ensures
            self.view_map().dom().finite(),
    {
        vstd::std_specs::hash::axiom_hashmap_view_finite_dom(self.glyphs);
    }

    /// An empty store.
    pub fn new() -> (r: Self)
        ensures
            r.view_map() == Map::<u16, DrcsGlyph>::empty(),
    {
        DrcsFontStore { glyphs: HashMap::new() }
    }

    /// Store a glyph for the given font number and character code.
    pub fn set_glyph(&mut self, font_number: u8, char_code: u8, glyph: DrcsGlyph)
        ensures
            final(self).view_map() == old(self).view_map().insert(drcs_key(font_number, char_code), glyph),
            final(self).view_map().dom().finite(),
            final(self).view_map().len() > 0,
    {
        let k = glyph_key(font_number, char_code);
        self.glyphs.insert(k, glyph);
        proof {
            self.lemma_finite();
            assert(self.view_map().dom().contains(k));
        }
    }

    /// Look up a glyph by font number and character code.
    pub fn get_glyph(&self, font_number: u8, char_code: u8) -> (r: Option<&DrcsGlyph>)
        ensures
            match r {
                Some(g) => self.view_map().contains_key(drcs_key(font_number, char_code))
                    && *g == self.view_map()[drcs_key(font_number, char_code)],
                None => !self.view_map().contains_key(drcs_key(font_number, char_code)),
            },
    {
        let k = glyph_key(font_number, char_code);
        self.glyphs.get(&k)
    }

    /// Erase all glyphs of font `font_number`.
    pub fn erase_font(&mut self, font_number: u8)
        ensures
            final(self).view_map() == without_font(old(self).view_map(), font_number),
            final(self).view_map().dom().finite(),
    {
        let ghost m0 = self.glyphs@;
        let mut code: u16 = 0;
        while code < 256
            invariant
                code <= 256,
                self.glyphs@ == m0.restrict(
                    m0.dom().filter(|k: u16| !(k / 256 == font_number && k % 256 < code)),
                ),
            decreases 256 - code,
        {
            let k = glyph_key(font_number, code as u8);
            let ghost before = self.glyphs@;
            self.glyphs.remove(&k);
            code += 1;
            assert(self.glyphs@ =~= m0.restrict(
                m0.dom().filter(|k: u16| !(k / 256 == font_number && k % 256 < code)),
            )) by {
                assert forall|j: u16| #[trigger] self.glyphs@.contains_key(j) == m0.restrict(
                    m0.dom().filter(|k: u16| !(k / 256 == font_number && k % 256 < code)),
                ).contains_key(j) by {
                    if j == k {
                        assert(j / 256 == font_number && j % 256 == code - 1) by (nonlinear_arith)
                            requires j as int == font_number as int * 256 + (code - 1) as int, 0 <= code - 1 < 256;
                    } else if j / 256 == font_number && j % 256 == code - 1 {
                        assert(j as int == font_number as int * 256 + (code - 1) as int) by (nonlinear_arith)
                            requires j / 256 == font_number, j % 256 == code - 1, j >= 0;
                    }
                }
            }
        }
        assert(self.glyphs@ =~= without_font(m0, font_number));
        proof {
            self.lemma_finite();
        }
    }

    /// Erase all glyphs.
    pub fn erase_all(&mut self)
        ensures
            final(self).view_map() == Map::<u16, DrcsGlyph>::empty(),
    {
        self.glyphs.clear();
    }

    /// Whether no glyph is defined.
    pub fn is_empty(&self) -> (r: bool)
        ensures
            r == (self.view_map().len() == 0),
    {
        self.glyphs.is_empty()
    }

    /// All defined glyphs, by key (see `drcs_key`).
    pub fn glyphs(&self) -> (r: &HashMap<u16, DrcsGlyph>)
        ensures
            r@ == self.view_map(),
    {
        &self.glyphs
    }
}

impl Default for DrcsFontStore {
    fn default() -> (r: Self)
        ensures
            r.view_map() == Map::<u16, DrcsGlyph>::empty(),
    {
        DrcsFontStore::new()
    }
}

/// A file sent by iTerm2's OSC 1337 with `inline=0`.
#[derive(Debug, Clone)]
pub struct FileTransferEvent {
    /// The file name (decoded from the base64 `name=` parameter).
    pub name: String,
    /// The file data (decoded from the base64 payload).
    pub data: Vec<u8>,
}

/// Cursor shape (DECSCUSR).
#[derive(Debug, Clone, Copy, PartialEq, Eq, Structural)]
pub enum CursorShape {
    Block,
    Underline,
    Bar,
    BlinkingBlock,
    BlinkingUnderline,
    BlinkingBar,
}

impl Default for CursorShape {
    fn default() -> (r: Self)
        ensures
            r == CursorShape::BlinkingBlock,
    {
        CursorShape::BlinkingBlock
    }
}

/// Saved cursor state (DECSC/DECRC).
#[derive(Debug, Clone, Copy, PartialEq, Eq, Structural)]
pub struct SavedCursor {
    pub col: usize,
    pub row: usize,
    pub pen: Pen,
    pub cursor_visible: bool,
    pub cursor_shape: CursorShape,
}

/// Which mouse events are reported to the application.
#[derive(Debug, Clone, Copy, PartialEq, Eq, Structural)]
pub enum MouseMode {
    /// No mouse reporting.
    Off,
    /// Mode 1000: button press and release.
    Click,
    /// Mode 1002: motion while a button is held.
    ButtonMotion,
    /// Mode 1003: all motion.
    AnyMotion,
}

impl Default for MouseMode {
    fn default() -> (r: Self)
        ensures
            r == MouseMode::Off,
    {
        MouseMode::Off
    }
}

/// How mouse coordinates are encoded in reports.
#[derive(Debug, Clone, Copy, PartialEq, Eq, Structural)]
pub enum MouseFormat {
    /// The legacy format.
    X10,
    /// Mode 1005: UTF-8.
    Utf8,
    /// Mode 1006: `ESC[<btn;col;row;M/m`.
    Sgr,
    /// Mode 1015: urxvt.
    Urxvt,
}

impl Default for MouseFormat {
    fn default() -> (r: Self)
        ensures
            r == MouseFormat::X10,
    {
        MouseFormat::X10
    }
}

/// Clipboard request from OSC 52.
#[derive(Debug, Clone)]
pub enum ClipboardEvent {
    /// Set the clipboard; `data` is already decoded from base64.
    Store { selection: String, data: String },
    /// Ask for the clipboard contents.
    Query { selection: String },
}

/// Terminal mode flags.
#[derive(Debug, Clone, Copy, PartialEq, Eq, Structural)]
pub struct Modes {
    pub alternate_screen: bool,
    pub bracketed_paste: bool,
    pub auto_wrap: bool,
    pub origin_mode: bool,
    pub insert_mode: bool,
    pub cursor_visible: bool,
    /// DECCKM: cursor keys send application sequences.
    pub application_cursor_keys: bool,
    /// LNM: LF, VT and FF also return the carriage.
    pub linefeed_mode: bool,
    /// DECSDM (mode 80): sixel display mode.
    pub sixel_display_mode: bool,
    /// Which mouse events are reported.
    pub mouse_mode: MouseMode,
    /// How mouse coordinates are encoded.
    pub mouse_format: MouseFormat,
    /// Whether focus in and out events are reported (mode 1004).
    pub focus_events: bool,
}

/// Every flag off, no mouse reporting, legacy mouse format.
pub open spec fn default_modes() -> Modes {
    Modes {
        alternate_screen: false,
        bracketed_paste: false,
        auto_wrap: false,
        origin_mode: false,
        insert_mode: false,
        cursor_visible: false,
        application_cursor_keys: false,
        linefeed_mode: false,
        sixel_display_mode: false,
        mouse_mode: MouseMode::Off,
        mouse_format: MouseFormat::X10,
        focus_events: false,
    }
}

impl Default for Modes {
    fn default() -> (r: Self)
        ensures
            r == default_modes(),
    {
        Modes {
            alternate_screen: false,
            bracketed_paste: false,
            auto_wrap: false,
            origin_mode: false,
            insert_mode: false,
            cursor_visible: false,
            application_cursor_keys: false,
            linefeed_mode: false,
            sixel_display_mode: false,
            mouse_mode: MouseMode::Off,
            mouse_format: MouseFormat::X10,
            focus_events: false,
        }
    }
}

/// State set by OSC sequences.
#[derive(Debug, Clone)]
pub struct OscState {
    pub title: String,
    pub cwd: String,
    /// The raw OSC 7 URI (such as `file://user@host/path`).
    pub cwd_uri: String,
    pub last_notification: Option<String>,
    /// OSC 133 shell integration marks: `(col, row)`.
    pub prompt_start: Option<(usize, usize)>,
    pub command_start: Option<(usize, usize)>,
}

impl Default for OscState {
    fn default() -> (r: Self)
        ensures
            r.title@ == Seq::<char>::empty(),
            r.cwd@ == Seq::<char>::empty(),
            r.cwd_uri@ == Seq::<char>::empty(),
            r.last_notification is None,
            r.prompt_start is None,
            r.command_start is None,
    {
        OscState {
            title: String::new(),
            cwd: String::new(),
            cwd_uri: String::new(),
            last_notification: None,
            prompt_start: None,
            command_start: None,
        }
    }
}

/// Glyphs of different fonts or codes never share a key, and erasing a
/// font keeps every glyph of every other font.
pub proof fn law_drcs_fonts_independent(m: Map<u16, DrcsGlyph>, f: u8, c: u8, g: u8, d: u8)
    ensures
        drcs_key(f, c) == drcs_key(g, d) ==> f == g && c == d,
        f != g ==> without_font(m, f).contains_key(drcs_key(g, d)) == m.contains_key(drcs_key(g, d)),
        f != g && m.contains_key(drcs_key(g, d)) ==> without_font(m, f)[drcs_key(g, d)] == m[drcs_key(g, d)],
        !without_font(m, f).contains_key(drcs_key(f, c)),
{
    assert(drcs_key(f, c) as int == f as int * 256 + c as int);
    assert(drcs_key(g, d) as int == g as int * 256 + d as int);
    assert(drcs_key(f, c) / 256 == f);
    assert(drcs_key(g, d) / 256 == g);
}

} // verus!
