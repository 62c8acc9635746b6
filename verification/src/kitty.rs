//! Kitty graphics protocol: header parsing, chunked transfer, and command
//! processing against the image store.

use vstd::prelude::*;
use vstd::string::StringSliceAdditionalSpecFns;
use crate::text::{
    after_first, before_first, chars_of, parse_uint, parse_uint_spec, split_chars,
    split_once, split_spec, trim_chars, trim_spec,
};
use crate::codec::{base64_decode, base64_standard, decode_png, decoded_view, png_rgba, DecodedImage};
use crate::image_store::{placed, without_image, ImagePlacement, ImageStore, ImageStoreView, TerminalImage};

verus! {

/// Kitty graphics action type.
#[derive(Debug, Clone, Copy, PartialEq, Eq, Structural)]
pub enum KittyAction {
    /// `a=t`: transmit image data (store but don't display).
    Transmit,
    /// `a=T`: transmit and display at the cursor.
    TransmitAndDisplay,
    /// `a=p`: display a previously transmitted image.
    Place,
    /// `a=d`: delete image(s).
    Delete,
    /// `a=q`: query support.
    Query,
}

/// Kitty graphics data format.
#[derive(Debug, Clone, Copy, PartialEq, Eq, Structural)]
pub enum KittyFormat {
    /// `f=24`: RGB, 3 bytes per pixel.
    Rgb,
    /// `f=32`: RGBA, 4 bytes per pixel.
    Rgba,
    /// `f=100`: PNG compressed.
    Png,
}

/// Parsed Kitty graphics command header.
#[derive(Debug, Clone, Copy, PartialEq, Eq, Structural)]
pub struct KittyCommand {
    pub action: KittyAction,
    pub format: KittyFormat,
    /// Image ID (`i=`).
    pub image_id: Option<u32>,
    /// Pixel width (`s=`).
    pub width: Option<u32>,
    /// Pixel height (`v=`).
    pub height: Option<u32>,
    /// Cell columns for placement (`c=`).
    pub cell_cols: Option<usize>,
    /// Cell rows for placement (`r=`).
    pub cell_rows: Option<usize>,
    /// More data chunks follow (`m=1`).
    pub more_chunks: bool,
    /// Transmission type (only `d` = direct is supported).
    pub transmission: char,
    /// Delete target for `a=d`.
    pub delete_target: Option<char>,
    /// Quiet mode (`q=`).
    pub quiet: u8,
}

/// The command a header without keys describes.
pub open spec fn default_kitty_command() -> KittyCommand {
    KittyCommand {
        action: KittyAction::TransmitAndDisplay,
        format: KittyFormat::Rgba,
        image_id: None,
        width: None,
        height: None,
        cell_cols: None,
        cell_rows: None,
        more_chunks: false,
        transmission: 'd',
        delete_target: None,
        quiet: 0,
    }
}

impl Default for KittyCommand {
    fn default() -> (r: Self)
        ensures
            r == default_kitty_command(),
    {
        KittyCommand {
            action: KittyAction::TransmitAndDisplay,
            format: KittyFormat::Rgba,
            image_id: None,
            width: None,
            height: None,
            cell_cols: None,
            cell_rows: None,
            more_chunks: false,
            transmission: 'd',
            delete_target: None,
            quiet: 0,
        }
    }
}

pub open spec fn parse_u32_opt(s: Seq<char>) -> Option<u32> {
    match parse_uint_spec(s, u32::MAX as int) {
        Some(v) => Some(v as u32),
        None => None,
    }
}

pub open spec fn parse_usize_opt(s: Seq<char>) -> Option<usize> {
    match parse_uint_spec(s, usize::MAX as int) {
        Some(v) => Some(v as usize),
        None => None,
    }
}

pub open spec fn first_char(s: Seq<char>) -> Option<char> {
    if s.len() > 0 { Some(s[0]) } else { None }
}

/// The command after one `key=value` item of a header.
pub open spec fn kitty_apply(cmd: KittyCommand, kv: Seq<char>) -> KittyCommand {
    let key = trim_spec(before_first(kv, '='));
    let value = trim_spec(after_first(kv, '='));
    if key == seq!['a'] {
        KittyCommand {
            action: if value == seq!['t'] {
                KittyAction::Transmit
            } else if value == seq!['p'] {
                KittyAction::Place
            } else if value == seq!['d'] {
                KittyAction::Delete
            } else if value == seq!['q'] {
                KittyAction::Query
            } else {
                KittyAction::TransmitAndDisplay
            },
            ..cmd
        }
    } else if key == seq!['f'] {
        KittyCommand {
            format: if value == seq!['2', '4'] {
                KittyFormat::Rgb
            } else if value == seq!['1', '0', '0'] {
                KittyFormat::Png
            } else {
                KittyFormat::Rgba
            },
            ..cmd
        }
    } else if key == seq!['t'] {
        KittyCommand { transmission: if value.len() > 0 { value[0] } else { 'd' }, ..cmd }
    } else if key == seq!['i'] {
        KittyCommand { image_id: parse_u32_opt(value), ..cmd }
    } else if key == seq!['s'] {
        KittyCommand { width: parse_u32_opt(value), ..cmd }
    } else if key == seq!['v'] {
        KittyCommand { height: parse_u32_opt(value), ..cmd }
    } else if key == seq!['c'] {
        KittyCommand { cell_cols: parse_usize_opt(value), ..cmd }
    } else if key == seq!['r'] {
        KittyCommand { cell_rows: parse_usize_opt(value), ..cmd }
    } else if key == seq!['m'] {
        KittyCommand { more_chunks: value == seq!['1'], ..cmd }
    } else if key == seq!['d'] {
        KittyCommand { delete_target: first_char(value), ..cmd }
    } else if key == seq!['q'] {
        KittyCommand {
            quiet: match parse_uint_spec(value, 255) {
                Some(v) => v as u8,
                None => 0,
            },
            ..cmd
        }
    } else {
        cmd
    }
}

/// The command a header describes: its comma-separated `key=value` items
/// applied in order to the default command.
pub open spec fn kitty_header_spec(header: Seq<char>) -> KittyCommand {
    split_spec(header, ',').fold_left(default_kitty_command(), |c: KittyCommand, kv: Seq<char>| kitty_apply(c, kv))
}

fn kitty_apply_exec(cmd: &mut KittyCommand, kv: &Vec<char>)
    ensures
        *final(cmd) == kitty_apply(*old(cmd), kv@),
{
    let (k, v) = split_once(kv, '=');
    let key = trim_chars(&k);
    let value = trim_chars(&v);
    if chars_eq_lit1(&key, 'a') {
        cmd.action = if chars_eq_lit1(&value, 't') {
            KittyAction::Transmit
        } else if chars_eq_lit1(&value, 'p') {
            KittyAction::Place
        } else if chars_eq_lit1(&value, 'd') {
            KittyAction::Delete
        } else if chars_eq_lit1(&value, 'q') {
            KittyAction::Query
        } else {
            KittyAction::TransmitAndDisplay
        };
    } else if chars_eq_lit1(&key, 'f') {
        cmd.format = if chars_eq_lit2(&value, '2', '4') {
            KittyFormat::Rgb
        } else if chars_eq_lit3(&value, '1', '0', '0') {
            KittyFormat::Png
        } else {
            KittyFormat::Rgba
        };
    } else if chars_eq_lit1(&key, 't') {
        cmd.transmission = if value.len() > 0 { value[0] } else { 'd' };
    } else if chars_eq_lit1(&key, 'i') {
        cmd.image_id = parse_u32(&value);
    } else if chars_eq_lit1(&key, 's') {
        cmd.width = parse_u32(&value);
    } else if chars_eq_lit1(&key, 'v') {
        cmd.height = parse_u32(&value);
    } else if chars_eq_lit1(&key, 'c') {
        cmd.cell_cols = parse_usize(&value);
    } else if chars_eq_lit1(&key, 'r') {
        cmd.cell_rows = parse_usize(&value);
    } else if chars_eq_lit1(&key, 'm') {
        cmd.more_chunks = chars_eq_lit1(&value, '1');
    } else if chars_eq_lit1(&key, 'd') {
        cmd.delete_target = if value.len() > 0 { Some(value[0]) } else { None };
    } else if chars_eq_lit1(&key, 'q') {
        cmd.quiet = match parse_uint(&value, 255) {
            Some(v) => v as u8,
            None => 0,
        };
    }
}

fn chars_eq_lit1(v: &Vec<char>, a: char) -> (r: bool)
    ensures
        r == (v@ == seq![a]),
{
    let r = v.len() == 1 && v[0] == a;
    assert(r ==> v@ =~= seq![a]);
    r
}

fn chars_eq_lit2(v: &Vec<char>, a: char, b: char) -> (r: bool)
    ensures
        r == (v@ == seq![a, b]),
{
    let r = v.len() == 2 && v[0] == a && v[1] == b;
    assert(r ==> v@ =~= seq![a, b]);
    r
}

fn chars_eq_lit3(v: &Vec<char>, a: char, b: char, c: char) -> (r: bool)
    ensures
        r == (v@ == seq![a, b, c]),
{
    let r = v.len() == 3 && v[0] == a && v[1] == b && v[2] == c;
    assert(r ==> v@ =~= seq![a, b, c]);
    r
}

/// Parse a `u32` (`str::parse::<u32>().ok()`).
pub fn parse_u32(s: &Vec<char>) -> (r: Option<u32>)
    ensures
        r == parse_u32_opt(s@),
{
    match parse_uint(s, u32::MAX as u64) {
        Some(v) => Some(v as u32),
        None => None,
    }
}

/// Parse a `usize` (`str::parse::<usize>().ok()`).
pub fn parse_usize(s: &Vec<char>) -> (r: Option<usize>)
    ensures
        r == parse_usize_opt(s@),
{
    match parse_uint(s, usize::MAX as u64) {
        Some(v) => Some(v as usize),
        None => None,
    }
}

/// Parse a Kitty graphics payload header (everything before the `;`): its
/// comma-separated `key=value` pairs, applied in order to the default.
pub fn parse_kitty_header(header: &str) -> (cmd: KittyCommand)
    ensures
        cmd == kitty_header_spec(header@),
{
    let chars = chars_of(header);
    parse_kitty_header_chars(&chars)
}

/// Parse a Kitty graphics header given as characters.
pub fn parse_kitty_header_chars(chars: &Vec<char>) -> (cmd: KittyCommand)
    ensures
        cmd == kitty_header_spec(chars@),
{
    let pieces = split_chars(chars, ',');
    let ghost sp = split_spec(chars@, ',');
    let ghost f = |c: KittyCommand, kv: Seq<char>| kitty_apply(c, kv);
    let mut cmd = KittyCommand::default();
    let mut i: usize = 0;
    while i < pieces.len()
        invariant
            0 <= i <= pieces.len(),
            pieces.len() == sp.len(),
            forall|j: int| 0 <= j < pieces.len() ==> #[trigger] pieces[j]@ == sp[j],
            f == (|c: KittyCommand, kv: Seq<char>| kitty_apply(c, kv)),
            cmd == sp.take(i as int).fold_left(default_kitty_command(), f),
        decreases pieces.len() - i,
    {
        assert(sp.take(i + 1).drop_last() =~= sp.take(i as int));
        assert(pieces[i as int]@ == sp[i as int]);
        kitty_apply_exec(&mut cmd, &pieces[i]);
        i += 1;
    }
    assert(sp.take(sp.len() as int) =~= sp);
    cmd
}

/// Accumulator for chunked Kitty graphics transmissions.
#[derive(Debug, Default)]
pub struct KittyAccumulator {
    /// The command header from the first chunk.
    pub command: Option<KittyCommand>,
    /// Accumulated base64 data across chunks (as bytes).
    pub base64_data: Vec<u8>,
}

impl KittyAccumulator {
    pub fn new() -> (r: Self)
        ensures
            r.command is None,
            r.base64_data@ == Seq::<u8>::empty(),
    {
        KittyAccumulator { command: None, base64_data: Vec::new() }
    }

    /// Feed one APC payload (header and base64 chunk). While `m=1` the data
    /// is kept and `None` comes back; the final chunk gives the first
    /// chunk's command with all data decoded (empty where base64 fails).
    pub fn feed(&mut self, header: &str, base64_chunk: &str) -> (r: Option<(KittyCommand, Vec<u8>)>)
        ensures
            ({
                let cmd = kitty_header_spec(header@);
                let stored = match old(self).command {
                    Some(c) => c,
                    None => cmd,
                };
                let data = old(self).base64_data@ + base64_chunk.spec_bytes();
                if cmd.more_chunks {
                    &&& r is None
                    &&& final(self).command == Some(KittyCommand { more_chunks: true, ..stored })
                    &&& final(self).base64_data@ == data
                } else {
                    &&& r is Some
                    &&& (r->0).0 == stored
                    &&& (r->0).1@ == match base64_standard(data) {
                        Some(d) => d,
                        None => Seq::<u8>::empty(),
                    }
                    &&& final(self).command is None
                    &&& final(self).base64_data@ == Seq::<u8>::empty()
                }
            }),
    {
        let cmd = parse_kitty_header(header);
        if self.command.is_none() {
            self.command = Some(cmd);
        }
        let ghost cmd_now = self.command;
        let bytes = base64_chunk.as_bytes();
        let mut i: usize = 0;
        let ghost before = self.base64_data@;
        while i < bytes.len()
            invariant
                0 <= i <= bytes.len(),
                self.base64_data@ == before + bytes@.take(i as int),
                self.command == cmd_now,
            decreases bytes.len() - i,
        {
            self.base64_data.push(bytes[i]);
            assert(bytes@.take(i + 1) =~= bytes@.take(i as int).push(bytes@[i as int]));
            i += 1;
        }
        assert(bytes@.take(bytes.len() as int) =~= bytes@);
        if cmd.more_chunks {
            if let Some(stored) = self.command {
                self.command = Some(KittyCommand { more_chunks: true, ..stored });
            }
            return None;
        }
        let full_cmd = match self.command {
            Some(c) => c,
            None => cmd,
        };
        self.command = None;
        let mut b64: Vec<u8> = Vec::new();
        std::mem::swap(&mut b64, &mut self.base64_data);
        let decoded = match base64_decode(b64.as_slice()) {
            Some(d) => d,
            None => Vec::new(),
        };
        Some((full_cmd, decoded))
    }

    /// Reset the accumulator.
    pub fn reset(&mut self)
        ensures
            final(self).command is None,
            final(self).base64_data@ == Seq::<u8>::empty(),
    {
        self.command = None;
        self.base64_data.clear();
    }
}

/// RGB pixels widened to RGBA with full alpha.
pub open spec fn rgb_to_rgba(p: Seq<u8>) -> Seq<u8> {
    Seq::new((p.len() / 3 * 4) as nat, |i: int| if i % 4 == 3 { 255u8 } else { p[i / 4 * 3 + i % 4] })
}

/// The pixels a transmit command yields, or `None` where it is rejected.
pub open spec fn kitty_pixels(cmd: KittyCommand, payload: Seq<u8>) -> Option<(Seq<u8>, u32, u32)> {
    let w = match cmd.width { Some(v) => v, None => 0 };
    let h = match cmd.height { Some(v) => v, None => 0 };
    match cmd.format {
        KittyFormat::Png => png_rgba(payload),
        KittyFormat::Rgba => if w == 0 || h == 0 || payload.len() != w * h * 4 {
            None
        } else {
            Some((payload, w, h))
        },
        KittyFormat::Rgb => if w == 0 || h == 0 || payload.len() != w * h * 3 {
            None
        } else {
            Some((rgb_to_rgba(payload), w, h))
        },
    }
}

/// Whether the pixel-size arithmetic of a raw-pixel transmit stays within
/// `u32` (larger sizes overflow it).
pub open spec fn kitty_sizes_fit(cmd: KittyCommand) -> bool {
    (cmd.format == KittyFormat::Rgba || cmd.format == KittyFormat::Rgb) ==> {
        let w = match cmd.width { Some(v) => v, None => 0 };
        let h = match cmd.height { Some(v) => v, None => 0 };
        w * h * 4 <= u32::MAX
    }
}

/// Whether the raw-pixel size arithmetic of `cmd` stays within `u32`.
pub fn kitty_command_fits(cmd: &KittyCommand) -> (r: bool)
    ensures
        r == kitty_sizes_fit(*cmd),
{
    match cmd.format {
        KittyFormat::Png => true,
        _ => {
            let w: u64 = match cmd.width { Some(v) => v as u64, None => 0 };
            let h: u64 = match cmd.height { Some(v) => v as u64, None => 0 };
            assert(w * h <= 0xffff_ffffu64 * 0xffff_ffffu64) by (nonlinear_arith)
                requires w <= 0xffff_ffff, h <= 0xffff_ffff;
            w * h <= 0x3fff_ffff
        },
    }
}

/// The ID a transmitted image gets: its own, or the store's next auto ID.
pub open spec fn kitty_id(cmd: KittyCommand, next: u32) -> u32 {
    match cmd.image_id {
        Some(id) => id,
        None => next,
    }
}

pub open spec fn advance_id(next: u32) -> u32 {
    if next == u32::MAX { 1 } else { (next + 1) as u32 }
}

/// The placement a command puts at the cursor for an image of `w` x `h` px.
pub open spec fn kitty_placement(cmd: KittyCommand, id: u32, col: usize, row: usize, w: u32, h: u32) -> ImagePlacement {
    ImagePlacement {
        image_id: id,
        col: col,
        row: row as isize,
        cell_cols: match cmd.cell_cols { Some(v) => v, None => 0 },
        cell_rows: match cmd.cell_rows { Some(v) => v, None => 0 },
        src_width: w,
        src_height: h,
    }
}

/// Whether `img` is the image `id` with pixels `px` of size `w` x `h`.
pub open spec fn image_is(img: TerminalImage, id: u32, px: Seq<u8>, w: u32, h: u32) -> bool {
    img.id == id && img.data@ == px && img.width == w && img.height == h
}

/// Whether `new` is `old` with one image stored under `id`.
pub open spec fn map_stores(old: Map<u32, TerminalImage>, new: Map<u32, TerminalImage>, id: u32, px: Seq<u8>, w: u32, h: u32) -> bool {
    &&& new.dom() == old.dom().insert(id)
    &&& forall|k: u32| k != id && old.contains_key(k) ==> new[k] == old[k]
    &&& image_is(new[id], id, px, w, h)
}

/// Whether `new` and `old` hold the same images, placements, next ID and
/// redraw flag.
pub open spec fn store_unchanged(old: ImageStoreView, new: ImageStoreView) -> bool {
    &&& new.images == old.images
    &&& new.placements == old.placements
    &&& new.next_id == old.next_id
    &&& new.dirty == old.dirty
}

/// What processing the Kitty command `cmd` with its decoded `payload` does
/// to a store (`o` before, `n` after), with placements at `(cursor_col,
/// cursor_row)`.
pub open spec fn kitty_effect(o: ImageStoreView, n: ImageStoreView, cmd: KittyCommand, payload: Seq<u8>, cursor_col: usize, cursor_row: usize) -> bool {
    match cmd.action {
        KittyAction::Transmit | KittyAction::TransmitAndDisplay => {
            if cmd.transmission != 'd' || kitty_pixels(cmd, payload) is None {
                store_unchanged(o, n)
            } else {
                let (px, w, h) = kitty_pixels(cmd, payload)->0;
                let id = kitty_id(cmd, o.next_id);
                &&& map_stores(o.images, n.images, id, px, w, h)
                &&& n.dirty
                &&& n.next_id == if cmd.image_id is None {
                    advance_id(o.next_id)
                } else {
                    o.next_id
                }
                &&& n.placements == if cmd.action == KittyAction::TransmitAndDisplay {
                    o.placements.push(placed(
                        kitty_placement(cmd, id, cursor_col, cursor_row, w, h),
                        o.cell_width as int,
                        o.cell_height as int,
                    ))
                } else {
                    o.placements
                }
            }
        },
        KittyAction::Place => {
            if cmd.image_id is None || !o.images.contains_key(cmd.image_id->0) {
                store_unchanged(o, n)
            } else {
                let img = o.images[cmd.image_id->0];
                &&& n.images == o.images
                &&& n.dirty
                &&& n.next_id == o.next_id
                &&& n.placements == o.placements.push(placed(
                    kitty_placement(cmd, cmd.image_id->0, cursor_col, cursor_row, img.width, img.height),
                    o.cell_width as int,
                    o.cell_height as int,
                ))
            }
        },
        KittyAction::Delete => {
            match cmd.delete_target {
                Some('a') | None => match cmd.image_id {
                    Some(id) => {
                        &&& n.images == o.images.remove(id)
                        &&& n.placements == without_image(o.placements, id)
                        &&& n.next_id == o.next_id
                        &&& n.dirty
                    },
                    None => {
                        &&& n.images == Map::<u32, TerminalImage>::empty()
                        &&& n.placements == Seq::<ImagePlacement>::empty()
                        &&& n.next_id == o.next_id
                        &&& n.dirty
                    },
                },
                Some('i') => match cmd.image_id {
                    Some(id) => {
                        &&& n.images == o.images.remove(id)
                        &&& n.placements == without_image(o.placements, id)
                        &&& n.next_id == o.next_id
                        &&& n.dirty
                    },
                    None => store_unchanged(o, n),
                },
                Some(_) => store_unchanged(o, n),
            }
        },
        KittyAction::Query => store_unchanged(o, n),
    }
}



/// Process a complete Kitty graphics command with its decoded payload;
/// placements go at the cursor position.
pub fn process_kitty_command(
    cmd: &KittyCommand,
    payload: &[u8],
    store: &mut ImageStore,
    cursor_col: usize,
    cursor_row: usize,
)
    requires
        old(store).wf(),
        (cmd.action == KittyAction::Transmit || cmd.action == KittyAction::TransmitAndDisplay)
            ==> kitty_sizes_fit(*cmd),
    ensures
        final(store).wf(),
        final(store).cell_width_view() == old(store).cell_width_view(),
        final(store).cell_height_view() == old(store).cell_height_view(),
        kitty_effect(old(store).sview(), final(store).sview(), *cmd, payload@, cursor_col, cursor_row),
{
    match cmd.action {
        KittyAction::Transmit | KittyAction::TransmitAndDisplay => {
            if cmd.transmission != 'd' {
                return;
            }
            let decoded = match kitty_decode_pixels(cmd, payload) {
                Some(d) => d,
                None => return,
            };
            let id = match cmd.image_id {
                Some(id) => id,
                None => store.next_id(),
            };
            let should_place = cmd.action == KittyAction::TransmitAndDisplay;
            let img_w = decoded.width;
            let img_h = decoded.height;
            store.store_image(TerminalImage { id, data: decoded.data, width: img_w, height: img_h });
            if should_place {
                store.add_placement(ImagePlacement {
                    image_id: id,
                    col: cursor_col,
                    row: cursor_row as isize,
                    cell_cols: match cmd.cell_cols { Some(v) => v, None => 0 },
                    cell_rows: match cmd.cell_rows { Some(v) => v, None => 0 },
                    src_width: img_w,
                    src_height: img_h,
                });
            }
        },
        KittyAction::Place => {
            let id = match cmd.image_id {
                Some(id) => id,
                None => return,
            };
            let (img_w, img_h) = match store.get_image(id) {
                Some(img) => (img.width, img.height),
                None => return,
            };
            store.add_placement(ImagePlacement {
                image_id: id,
                col: cursor_col,
                row: cursor_row as isize,
                cell_cols: match cmd.cell_cols { Some(v) => v, None => 0 },
                cell_rows: match cmd.cell_rows { Some(v) => v, None => 0 },
                src_width: img_w,
                src_height: img_h,
            });
        },
        KittyAction::Delete => {
            match cmd.delete_target {
                Some('a') | None => {
                    match cmd.image_id {
                        Some(id) => store.delete_image(id),
                        None => store.delete_all(),
                    }
                },
                Some('i') => {
                    if let Some(id) = cmd.image_id {
                        store.delete_image(id);
                    }
                },
                Some(_) => {},
            }
        },
        KittyAction::Query => {},
    }
}

/// The pixels of a transmit command, decoded or widened to RGBA.
fn kitty_decode_pixels(cmd: &KittyCommand, payload: &[u8]) -> (r: Option<DecodedImage>)
    requires
        kitty_sizes_fit(*cmd),
    ensures
        match kitty_pixels(*cmd, payload@) {
            Some(v) => r is Some && decoded_view(r->0) == v,
            None => r is None,
        },
{
    match cmd.format {
        KittyFormat::Png => decode_png(payload),
        KittyFormat::Rgba => {
            let w = match cmd.width { Some(v) => v, None => 0 };
            let h = match cmd.height { Some(v) => v, None => 0 };
            if w == 0 || h == 0 {
                return None;
            }
            let expected = (w * h * 4) as usize;
            if payload.len() != expected {
                return None;
            }
            let mut data: Vec<u8> = Vec::new();
            let mut i: usize = 0;
            while i < payload.len()
                invariant
                    0 <= i <= payload.len(),
                    data@ == payload@.take(i as int),
                decreases payload.len() - i,
            {
                data.push(payload[i]);
                assert(payload@.take(i + 1) =~= payload@.take(i as int).push(payload@[i as int]));
                i += 1;
            }
            assert(payload@.take(payload.len() as int) =~= payload@);
            Some(DecodedImage { data, width: w, height: h })
        },
        KittyFormat::Rgb => {
            let w = match cmd.width { Some(v) => v, None => 0 };
            let h = match cmd.height { Some(v) => v, None => 0 };
            if w == 0 || h == 0 {
                return None;
            }
            let expected = (w * h * 3) as usize;
            if payload.len() != expected {
                return None;
            }
            let mut rgba: Vec<u8> = Vec::new();
            let mut k: usize = 0;
            while k < payload.len()
                invariant
                    k % 3 == 0,
                    k <= payload.len(),
                    payload.len() % 3 == 0,
                    rgba@.len() == k / 3 * 4,
                    forall|j: int| 0 <= j < rgba@.len() ==> #[trigger] rgba@[j] == rgb_to_rgba(payload@)[j],
                decreases payload.len() - k,
            {
                rgba.push(payload[k]);
                rgba.push(payload[k + 1]);
                rgba.push(payload[k + 2]);
                rgba.push(255);
                k += 3;
            }
            let ghost t = rgb_to_rgba(payload@);
            assert(rgba@ =~= t);
            Some(DecodedImage { data: rgba, width: w, height: h })
        },
    }
}

} // verus!
