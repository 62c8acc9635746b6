//! DCS sequences: sixel images and DECDLD soft fonts.

use vstd::prelude::*;
use super::{DcsMode, GlyphView, TermView, Terminal, glyph_view};
use super::images::{after_image_spec, same_cells};
use super::csi::param;
use crate::image_store::ImageStoreView;
use crate::modes::{DrcsGlyph, drcs_key};
use crate::sgr::{first_or_zero, params_view};
use crate::sixel::{hls_fn, hls_ok, process_sixel, sixel_placed, sixel_spec};

verus! {

/// `s` split at every `sep` (as `<[u8]>::split` does: `n` separators give
/// `n + 1` pieces).
pub open spec fn split_bytes(s: Seq<u8>, sep: u8) -> Seq<Seq<u8>>
    decreases s.len(),
{
    if s.len() == 0 {
        seq![Seq::<u8>::empty()]
    } else {
        let r = split_bytes(s.drop_last(), sep);
        if s.last() == sep {
            r.push(Seq::<u8>::empty())
        } else {
            r.update(r.len() - 1, r.last().push(s.last()))
        }
    }
}

/// `a + b`, stopping at the largest `usize`.
pub open spec fn sat_add(a: int, b: int) -> int {
    if a + b > usize::MAX {
        usize::MAX as int
    } else {
        a + b
    }
}

/// The decimal number at `i` (added to `acc`, saturating at the largest
/// `usize`) and the index after its digits.
pub open spec fn count_from(s: Seq<u8>, i: int, acc: int) -> (int, int)
    decreases s.len() - i,
{
    if 0 <= i < s.len() && 0x30 <= s[i] <= 0x39 {
        count_from(s, i + 1, sat_add(sat_mul10(acc), (s[i] - 0x30) as int))
    } else {
        (acc, i)
    }
}

pub open spec fn sat_mul10(a: int) -> int {
    if a * 10 > usize::MAX {
        usize::MAX as int
    } else {
        a * 10
    }
}

/// Bit `(x, y)` of a `w` x `h` glyph bitmap (MSB first, row-major) set.
pub open spec fn set_bit(bm: Seq<u8>, w: int, h: int, x: int, y: int) -> Seq<u8> {
    if x < w && y < h {
        let k = y * w + x;
        if k / 8 < bm.len() {
            bm.update(k / 8, bm[k / 8] | (1u8 << ((7 - k % 8) as u8)))
        } else {
            bm
        }
    } else {
        bm
    }
}

/// Bits `0..k` of sixel value `val` set at column `x`, rows from `y`.
pub open spec fn glyph_bits(bm: Seq<u8>, w: int, h: int, x: int, y: int, val: u8, k: int) -> Seq<u8>
    decreases k,
{
    if k <= 0 {
        bm
    } else {
        let b1 = glyph_bits(bm, w, h, x, y, val, k - 1);
        if val & (1u8 << ((k - 1) as u8)) != 0 {
            set_bit(b1, w, h, x, y + k - 1)
        } else {
            b1
        }
    }
}

/// Columns `x..x+n` of sixel value `val` (those inside the glyph).
pub open spec fn glyph_cols(bm: Seq<u8>, w: int, h: int, x: int, y: int, val: u8, n: int) -> Seq<u8>
    decreases n,
{
    if n <= 0 || x >= w {
        bm
    } else {
        glyph_cols(glyph_bits(bm, w, h, x, y, val, 6), w, h, x + 1, y, val, n - 1)
    }
}

/// A row of sixel data from index `i`, drawn at column `px`, rows from
/// `py`.
pub open spec fn glyph_row(bm: Seq<u8>, w: int, h: int, row: Seq<u8>, i: int, px: int, py: int) -> Seq<u8>
    decreases row.len() - i,
{
    if i < 0 || i >= row.len() {
        bm
    } else if row[i] == 0x21 {
        let (count, j) = count_from(row, i + 1, 0);
        if i < j < row.len() && 0x3F <= row[j] <= 0x7E {
            glyph_row(glyph_cols(bm, w, h, px, py, (row[j] - 0x3F) as u8, count), w, h, row, j + 1, sat_add(px, count), py)
        } else if i < j <= row.len() {
            glyph_row(bm, w, h, row, j, px, py)
        } else {
            bm
        }
    } else if 0x3F <= row[i] <= 0x7E {
        glyph_row(glyph_cols(bm, w, h, px, py, (row[i] - 0x3F) as u8, 1), w, h, row, i + 1, sat_add(px, 1), py)
    } else {
        glyph_row(bm, w, h, row, i + 1, px, py)
    }
}

/// The glyph rows `k..` drawn, row `k` at `py` and each next row six
/// pixels lower.
pub open spec fn glyph_rows(bm: Seq<u8>, w: int, h: int, rows: Seq<Seq<u8>>, k: int, py: int) -> Seq<u8>
    decreases rows.len() - k,
{
    if k < 0 || k >= rows.len() {
        bm
    } else {
        glyph_rows(glyph_row(bm, w, h, rows[k], 0, 0, py), w, h, rows, k + 1, sat_add(py, 6))
    }
}

/// The bitmap of one glyph's data (rows separated by `/`).
pub open spec fn glyph_bitmap(w: int, h: int, data: Seq<u8>) -> Seq<u8> {
    glyph_rows(Seq::new(((w * h + 7) / 8) as nat, |_i: int| 0u8), w, h, split_bytes(data, 0x2f), 0, 0)
}

/// The glyphs `k..` of a DECDLD body defined from character code `code`
/// on; an empty piece skips a code.
pub open spec fn decdld_glyphs(m: Map<u16, GlyphView>, font: u8, code: u8, w: u8, h: u8, pieces: Seq<Seq<u8>>, k: int) -> Map<u16, GlyphView>
    decreases pieces.len() - k,
{
    if k < 0 || k >= pieces.len() {
        m
    } else if pieces[k].len() == 0 {
        decdld_glyphs(m, font, next_code(code), w, h, pieces, k + 1)
    } else {
        let g = GlyphView { bitmap: glyph_bitmap(w as int, h as int, pieces[k]), width: w, height: h };
        decdld_glyphs(m.insert(drcs_key(font, code), g), font, next_code(code), w, h, pieces, k + 1)
    }
}

/// The next character code, wrapping after 255.
pub open spec fn next_code(code: u8) -> u8 {
    if code == 255 {
        0
    } else {
        (code + 1) as u8
    }
}

/// The glyphs of `m` whose font is not `font`.
pub open spec fn drcs_without_font(m: Map<u16, GlyphView>, font: u8) -> Map<u16, GlyphView> {
    m.restrict(m.dom().filter(|k: u16| k / 256 != font))
}

/// DCS hook with parameters `p` and final character `action`: `q` starts
/// sixel data; `{` starts a DECDLD soft font (erasing the font unless Pe is
/// 1); anything else is ignored.
#[verifier::opaque]
pub open spec fn hook_spec(v: TermView, p: Seq<Seq<u16>>, action: char) -> TermView {
    if action == 'q' {
        TermView { dcs_mode: DcsMode::Sixel, dcs_data: Seq::empty(), ..v }
    } else if action == '{' {
        let pfn = if first_value(p, 0) > 3 { 3u8 } else { first_value(p, 0) as u8 };
        let pcn = if first_value(p, 1) > 95 { 95u8 } else { first_value(p, 1) as u8 };
        let pe = if first_value(p, 2) > 2 { 2u8 } else { first_value(p, 2) as u8 };
        let pcmw = first_value(p, 3) as u8;
        let pcmh = first_value(p, 6) as u8;
        TermView {
            drcs: if pe == 1 { v.drcs } else { drcs_without_font(v.drcs, pfn) },
            dcs_mode: DcsMode::Decdld {
                font_number: pfn,
                start_char: pcn,
                cell_width: if pcmw == 0 { 10u8 } else { pcmw },
                cell_height: if pcmh == 0 { 20u8 } else { pcmh },
                erase_control: pe,
            },
            dcs_data: Seq::empty(),
            ..v
        }
    } else {
        TermView { dcs_mode: DcsMode::Idle, ..v }
    }
}

/// The first value of parameter `i`, or 0.
pub open spec fn first_value(p: Seq<Seq<u16>>, i: int) -> u16 {
    if 0 <= i < p.len() {
        first_or_zero(p[i])
    } else {
        0
    }
}

/// A byte of DCS data: kept while a sixel or DECDLD sequence is open.
pub open spec fn put_spec(v: TermView, byte: u8) -> TermView {
    if v.dcs_mode == DcsMode::Idle {
        v
    } else {
        TermView { dcs_data: v.dcs_data.push(byte), ..v }
    }
}

/// How the DCS sequence ends (`v` before, `w` after): sixel data becomes an
/// image at the cursor (HLS colors by `hls`), DECDLD data becomes glyphs.
pub open spec fn unhook_rel(v: TermView, hls: spec_fn(u16, u16, u16) -> (u8, u8, u8), w: TermView) -> bool {
    let v0 = TermView { dcs_mode: DcsMode::Idle, dcs_data: Seq::empty(), ..v };
    match v.dcs_mode {
        DcsMode::Idle => w == TermView { dcs_mode: DcsMode::Idle, ..v },
        DcsMode::Sixel => exists|s1: ImageStoreView|
            {
                &&& same_cells(v.images, s1)
                &&& match sixel_spec(v.dcs_data, hls) {
                    None => s1 == v.images,
                    Some(px) => sixel_placed(v.images, s1, px, v.cursor_col as usize, v.cursor_row as usize),
                }
                &&& w == after_image_spec(TermView { images: s1, ..v0 }, v.images.placements.len() as int)
            },
        DcsMode::Decdld { font_number, start_char, cell_width, cell_height, .. } => w == TermView {
            drcs: decdld_glyphs(v.drcs, font_number, start_char, cell_width, cell_height, split_bytes(v.dcs_data, 0x3b), 0),
            ..v0
        },
    }
}

/// `s` split at every `sep` (see `split_bytes`).
fn split_bytes_exec(s: &Vec<u8>, sep: u8) -> (r: Vec<Vec<u8>>)
    ensures
        r@.map_values(|x: Vec<u8>| x@) == split_bytes(s@, sep),
{
    let mut pieces: Vec<Vec<u8>> = Vec::new();
    let mut cur: Vec<u8> = Vec::new();
    let mut i: usize = 0;
    while i < s.len()
        invariant
            i <= s@.len(),
            pieces@.map_values(|x: Vec<u8>| x@).push(cur@) == split_bytes(s@.take(i as int), sep),
        decreases s@.len() - i,
    {
        let ghost before = pieces@.map_values(|x: Vec<u8>| x@).push(cur@);
        assert(s@.take(i + 1).drop_last() =~= s@.take(i as int));
        if s[i] == sep {
            let mut done: Vec<u8> = Vec::new();
            std::mem::swap(&mut done, &mut cur);
            pieces.push(done);
            assert(pieces@.map_values(|x: Vec<u8>| x@).push(cur@) =~= before.push(Seq::<u8>::empty()));
        } else {
            cur.push(s[i]);
            assert(pieces@.map_values(|x: Vec<u8>| x@).push(cur@) =~= before.update(before.len() - 1, before.last().push(s@[i as int])));
        }
        i += 1;
    }
    assert(s@.take(s@.len() as int) =~= s@);
    pieces.push(cur);
    pieces
}

/// The number at `i` (saturating) and the index after its digits (see
/// `count_from`).
fn read_count(s: &Vec<u8>, i: usize) -> (r: (usize, usize))
    requires
        i <= s@.len(),
    ensures
        (r.0 as int, r.1 as int) == count_from(s@, i as int, 0),
        i <= r.1 <= s@.len(),
{
    let mut acc: usize = 0;
    let mut j = i;
    while j < s.len() && 0x30 <= s[j] && s[j] <= 0x39
        invariant
            i <= j <= s@.len(),
            count_from(s@, j as int, acc as int) == count_from(s@, i as int, 0),
        decreases s@.len() - j,
    {
        let d = (s[j] - 0x30) as usize;
        let m = if acc > usize::MAX / 10 { usize::MAX } else { acc * 10 };
        assert(m as int == sat_mul10(acc as int)) by (nonlinear_arith)
            requires m == (if acc > usize::MAX / 10 { usize::MAX as int } else { acc * 10 });
        acc = if m > usize::MAX - d { usize::MAX } else { m + d };
        j += 1;
    }
    (acc, j)
}

/// Set bit `(x, y)` of the glyph bitmap (see `set_bit`).
fn set_bit_exec(bm: &mut Vec<u8>, w: u8, h: u8, x: usize, y: usize)
    ensures
        final(bm)@ == set_bit(old(bm)@, w as int, h as int, x as int, y as int),
{
    if x < w as usize && y < h as usize {
        assert(y * w + x <= 255 * 255) by (nonlinear_arith)
            requires y < h, x < w, h <= 255, w <= 255;
        let k = y * (w as usize) + x;
        if k / 8 < bm.len() {
            let old_b = bm[k / 8];
            let sh = (7 - k % 8) as u8;
            bm.set(k / 8, old_b | (1u8 << sh));
        }
    }
}

/// Columns `x..x+n` of sixel value `val` (see `glyph_cols`).
fn glyph_cols_exec(bm: &mut Vec<u8>, w: u8, h: u8, x: usize, y: usize, val: u8, n: usize)
    ensures
        final(bm)@ == glyph_cols(old(bm)@, w as int, h as int, x as int, y as int, val, n as int),
{
    let mut cx = x;
    let mut left = n;
    while left > 0 && cx < w as usize
        invariant
            glyph_cols(bm@, w as int, h as int, cx as int, y as int, val, left as int)
                == glyph_cols(old(bm)@, w as int, h as int, x as int, y as int, val, n as int),
        decreases left,
    {
        let ghost b0 = bm@;
        let mut bit: u8 = 0;
        while bit < 6
            invariant
                bit <= 6,
                bm@ == glyph_bits(b0, w as int, h as int, cx as int, y as int, val, bit as int),
            decreases 6 - bit,
        {
            if val & (1u8 << bit) != 0 {
                if y <= usize::MAX - 6 {
                    set_bit_exec(bm, w, h, cx, y + bit as usize);
                } else {
                    assert(set_bit(bm@, w as int, h as int, cx as int, y + bit) == bm@);
                }
            }
            bit += 1;
        }
        cx += 1;
        left -= 1;
    }
}

/// A row of sixel data drawn at rows from `py` (see `glyph_row`).
fn glyph_row_exec(bm: &mut Vec<u8>, w: u8, h: u8, row: &Vec<u8>, py: usize)
    ensures
        final(bm)@ == glyph_row(old(bm)@, w as int, h as int, row@, 0, 0, py as int),
{
    let mut i: usize = 0;
    let mut px: usize = 0;
    while i < row.len()
        invariant
            i <= row@.len(),
            glyph_row(bm@, w as int, h as int, row@, i as int, px as int, py as int)
                == glyph_row(old(bm)@, w as int, h as int, row@, 0, 0, py as int),
        decreases row@.len() - i,
    {
        let b = row[i];
        if b == 0x21 {
            let (count, j) = read_count(row, i + 1);
            if j < row.len() && 0x3F <= row[j] && row[j] <= 0x7E {
                glyph_cols_exec(bm, w, h, px, py, row[j] - 0x3F, count);
                px = if px > usize::MAX - count { usize::MAX } else { px + count };
                i = j + 1;
            } else {
                i = j;
            }
        } else if 0x3F <= b && b <= 0x7E {
            glyph_cols_exec(bm, w, h, px, py, b - 0x3F, 1);
            px = if px == usize::MAX { usize::MAX } else { px + 1 };
            i += 1;
        } else {
            i += 1;
        }
    }
}

/// The bitmap of one glyph's data (see `glyph_bitmap`).
fn glyph_bitmap_exec(w: u8, h: u8, data: &Vec<u8>) -> (r: Vec<u8>)
    ensures
        r@ == glyph_bitmap(w as int, h as int, data@),
{
    assert(w as int * h as int + 7 <= 255 * 255 + 7) by (nonlinear_arith)
        requires w <= 255, h <= 255;
    let n = ((w as usize) * (h as usize) + 7) / 8;
    let mut bm: Vec<u8> = vec![0u8; n];
    assert(bm@ =~= Seq::new(((w * h + 7) / 8) as nat, |_i: int| 0u8));
    let rows = split_bytes_exec(data, 0x2f);
    let ghost rs = split_bytes(data@, 0x2f);
    let ghost b0 = bm@;
    let mut k: usize = 0;
    let mut py: usize = 0;
    while k < rows.len()
        invariant
            k <= rows@.len(),
            rows@.map_values(|x: Vec<u8>| x@) == rs,
            glyph_rows(bm@, w as int, h as int, rs, k as int, py as int) == glyph_rows(b0, w as int, h as int, rs, 0, 0),
        decreases rows@.len() - k,
    {
        assert(rows@[k as int]@ == rs[k as int]);
        glyph_row_exec(&mut bm, w, h, &rows[k], py);
        py = if py > usize::MAX - 6 { usize::MAX } else { py + 6 };
        k += 1;
    }
    bm
}

impl Terminal {
    /// Define one glyph of the soft font.
    fn define_glyph(&mut self, font: u8, code: u8, glyph: DrcsGlyph)
        requires
            old(self).wf(),
        ensures
            final(self).wf(),
            final(self)@ == (TermView { drcs: old(self)@.drcs.insert(drcs_key(font, code), glyph_view(glyph)), ..old(self)@ }),
    {
        let ghost g = glyph;
        self.drcs_fonts.set_glyph(font, code, glyph);
        assert(self@.drcs =~= old(self)@.drcs.insert(drcs_key(font, code), glyph_view(g)));
    }

    /// Erase one font of the soft fonts.
    fn erase_drcs_font(&mut self, font: u8)
        requires
            old(self).wf(),
        ensures
            final(self).wf(),
            final(self)@ == (TermView { drcs: drcs_without_font(old(self)@.drcs, font), ..old(self)@ }),
    {
        self.drcs_fonts.erase_font(font);
        assert(self@.drcs =~= drcs_without_font(old(self)@.drcs, font));
    }

    /// Set the DCS mode and clear its data.
    fn start_dcs(&mut self, mode: DcsMode)
        requires
            old(self).wf(),
        ensures
            final(self).wf(),
            final(self)@ == (TermView { dcs_mode: mode, dcs_data: Seq::empty(), ..old(self)@ }),
    {
        self.dcs_mode = mode;
        self.dcs_data.clear();
    }

    /// DCS hook (see `hook_spec`).
    pub fn hook(&mut self, params: &Vec<Vec<u16>>, intermediates: &[u8], ignore: bool, action: char)
        requires
            old(self).wf(),
        ensures
            final(self).wf(),
            final(self)@ == hook_spec(old(self)@, params_view(params@), action),
    {
        proof {
            reveal(hook_spec);
        }
        let ghost p = params_view(params@);
        if action == 'q' {
            self.start_dcs(DcsMode::Sixel);
        } else if action == '{' {
            let v0 = first_param(params, 0);
            let v1 = first_param(params, 1);
            let v2 = first_param(params, 2);
            let pfn: u8 = if v0 > 3 { 3 } else { v0 as u8 };
            let pcn: u8 = if v1 > 95 { 95 } else { v1 as u8 };
            let pe: u8 = if v2 > 2 { 2 } else { v2 as u8 };
            let pcmw = first_param(params, 3) as u8;
            let pcmh = first_param(params, 6) as u8;
            let cw: u8 = if pcmw == 0 { 10 } else { pcmw };
            let ch: u8 = if pcmh == 0 { 20 } else { pcmh };
            if pe != 1 {
                self.erase_drcs_font(pfn);
            }
            self.start_dcs(DcsMode::Decdld {
                font_number: pfn,
                start_char: pcn,
                cell_width: cw,
                cell_height: ch,
                erase_control: pe,
            });
        } else {
            self.dcs_mode = DcsMode::Idle;
        }
    }

    /// A byte of DCS data (see `put_spec`).
    pub fn put(&mut self, byte: u8)
        requires
            old(self).wf(),
        ensures
            final(self).wf(),
            final(self)@ == put_spec(old(self)@, byte),
    {
        if self.dcs_mode != DcsMode::Idle {
            self.dcs_data.push(byte);
        }
    }

    /// Take the DCS mode and data, leaving none.
    fn take_dcs(&mut self) -> (r: (DcsMode, Vec<u8>))
        requires
            old(self).wf(),
        ensures
            final(self).wf(),
            r.0 == old(self)@.dcs_mode,
            r.1@ == old(self)@.dcs_data,
            final(self)@ == (TermView { dcs_mode: DcsMode::Idle, dcs_data: Seq::empty(), ..old(self)@ }),
    {
        let mode = self.dcs_mode;
        self.dcs_mode = DcsMode::Idle;
        let mut data: Vec<u8> = Vec::new();
        std::mem::swap(&mut data, &mut self.dcs_data);
        (mode, data)
    }

    /// Define the glyphs of a DECDLD body (see `decdld_glyphs`).
    fn define_glyphs(&mut self, font: u8, start: u8, w: u8, h: u8, data: &Vec<u8>)
        requires
            old(self).wf(),
        ensures
            final(self).wf(),
            final(self)@ == (TermView {
                drcs: decdld_glyphs(old(self)@.drcs, font, start, w, h, split_bytes(data@, 0x3b), 0),
                ..old(self)@
            }),
    {
        let pieces = split_bytes_exec(data, 0x3b);
        let ghost ps = split_bytes(data@, 0x3b);
        let mut code = start;
        let mut k: usize = 0;
        while k < pieces.len()
            invariant
                k <= pieces@.len(),
                self.wf(),
                pieces@.map_values(|x: Vec<u8>| x@) == ps,
                self@ == (TermView { drcs: self@.drcs, ..old(self)@ }),
                decdld_glyphs(self@.drcs, font, code, w, h, ps, k as int)
                    == decdld_glyphs(old(self)@.drcs, font, start, w, h, ps, 0),
            decreases pieces@.len() - k,
        {
            assert(pieces@[k as int]@ == ps[k as int]);
            if pieces[k].len() > 0 {
                let bitmap = glyph_bitmap_exec(w, h, &pieces[k]);
                self.define_glyph(font, code, DrcsGlyph { bitmap, width: w, height: h });
            }
            code = if code == 255 { 0 } else { code + 1 };
            k += 1;
        }
    }

    /// End a DCS sequence (see `unhook_rel`), converting HLS sixel colors
    /// with `hls`.
    #[verifier::spinoff_prover]
    #[verifier::rlimit(30)]
    pub fn unhook<H: Fn(u16, u16, u16) -> (u8, u8, u8)>(&mut self, hls: &H)
        requires
            old(self).wf(),
            hls_ok(*hls),
        ensures
            final(self).wf(),
            unhook_rel(old(self)@, hls_fn(*hls), final(self)@),
    {
        match self.dcs_mode {
            DcsMode::Idle => {},
            DcsMode::Sixel => {
                let (_mode, data) = self.take_dcs();
                let before = self.image_store.placements().len();
                let col = self.cursor_col;
                let row = self.cursor_row;
                process_sixel(data.as_slice(), &mut self.image_store, col, row, hls);
                let ghost mid = self@;
                let ghost s1 = mid.images;
                assert(mid == (TermView { images: s1, dcs_mode: DcsMode::Idle, dcs_data: Seq::empty(), ..old(self)@ }));
                self.finish_image(before);
                assert(same_cells(old(self)@.images, s1));
            },
            DcsMode::Decdld { font_number, start_char, cell_width, cell_height, .. } => {
                let (_mode, data) = self.take_dcs();
                self.define_glyphs(font_number, start_char, cell_width, cell_height, &data);
            },
        }
    }
}

/// The first value of parameter `i`, or 0.
fn first_param(params: &Vec<Vec<u16>>, i: usize) -> (r: u16)
    ensures
        r == first_value(params_view(params@), i as int),
{
    if i < params.len() {
        let sub = &params[i];
        assert(sub@ == params_view(params@)[i as int]);
        if sub.len() > 0 {
            sub[0]
        } else {
            0
        }
    } else {
        0
    }
}

} // verus!
