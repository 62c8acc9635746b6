//! Sixel graphics: decoding sixel data into RGBA pixels.
//!
//! Each byte from `?` (0x3F) to `~` (0x7E) encodes six vertical pixels;
//! `#<reg>` selects a color register and `#<reg>;<type>;<a>;<b>;<c>` defines
//! it (type 2 RGB percentages, type 1 HLS); `$` returns to the start of the
//! sixel row, `-` moves to the next one, and `!<count><byte>` repeats.
//! Decoding gives up (`None`) where a coordinate, count or register number
//! would leave its integer type.

use vstd::prelude::*;
use std::collections::HashMap;
use crate::codec::DecodedImage;
use crate::image_store::{ImagePlacement, ImageStore, ImageStoreView, TerminalImage, placed};
use crate::kitty::{advance_id, map_stores};

verus! {

/// A sixel color register.
#[derive(Debug, Clone, Copy, PartialEq, Eq, Structural)]
pub struct SixelColor {
    pub r: u8,
    pub g: u8,
    pub b: u8,
}

pub open spec fn color(r: u8, g: u8, b: u8) -> SixelColor {
    SixelColor { r: r, g: g, b: b }
}

/// The VGA color `i` of the default palette.
pub open spec fn vga16(i: int) -> SixelColor {
    if i == 0 {
        color(0, 0, 0)
    } else if i == 1 {
        color(0, 0, 170)
    } else if i == 2 {
        color(170, 0, 0)
    } else if i == 3 {
        color(0, 170, 0)
    } else if i == 4 {
        color(170, 0, 170)
    } else if i == 5 {
        color(0, 170, 170)
    } else if i == 6 {
        color(170, 170, 0)
    } else if i == 7 {
        color(170, 170, 170)
    } else if i == 8 {
        color(85, 85, 85)
    } else if i == 9 {
        color(85, 85, 255)
    } else if i == 10 {
        color(255, 85, 85)
    } else if i == 11 {
        color(85, 255, 85)
    } else if i == 12 {
        color(255, 85, 255)
    } else if i == 13 {
        color(85, 255, 255)
    } else if i == 14 {
        color(255, 255, 85)
    } else {
        color(255, 255, 255)
    }
}

/// `m` with registers 0 to 15 set to the VGA colors.
pub open spec fn with_vga16(m: Map<u16, SixelColor>) -> Map<u16, SixelColor> {
    Map::new(|k: u16| m.contains_key(k) || k < 16, |k: u16| if k < 16 { vga16(k as int) } else { m[k] })
}

/// Set registers 0 to 15 of `palette` to the VGA colors.
pub fn init_default_sixel_palette(palette: &mut HashMap<u16, SixelColor>)
    ensures
        final(palette)@ == with_vga16(old(palette)@),
{
    let mut i: u16 = 0;
    while i < 16
        invariant
            i <= 16,
            palette@ == Map::new(
                |k: u16| old(palette)@.contains_key(k) || k < i,
                |k: u16| if k < i { vga16(k as int) } else { old(palette)@[k] },
            ),
        decreases 16 - i,
    {
        let c = vga16_exec(i);
        palette.insert(i, c);
        i += 1;
        assert(palette@ =~= Map::new(
            |k: u16| old(palette)@.contains_key(k) || k < i,
            |k: u16| if k < i { vga16(k as int) } else { old(palette)@[k] },
        ));
    }
    assert(palette@ =~= with_vga16(old(palette)@));
}

fn vga16_exec(i: u16) -> (c: SixelColor)
    ensures
        c == vga16(i as int),
{
    if i == 0 {
        SixelColor { r: 0, g: 0, b: 0 }
    } else if i == 1 {
        SixelColor { r: 0, g: 0, b: 170 }
    } else if i == 2 {
        SixelColor { r: 170, g: 0, b: 0 }
    } else if i == 3 {
        SixelColor { r: 0, g: 170, b: 0 }
    } else if i == 4 {
        SixelColor { r: 170, g: 0, b: 170 }
    } else if i == 5 {
        SixelColor { r: 0, g: 170, b: 170 }
    } else if i == 6 {
        SixelColor { r: 170, g: 170, b: 0 }
    } else if i == 7 {
        SixelColor { r: 170, g: 170, b: 170 }
    } else if i == 8 {
        SixelColor { r: 85, g: 85, b: 85 }
    } else if i == 9 {
        SixelColor { r: 85, g: 85, b: 255 }
    } else if i == 10 {
        SixelColor { r: 255, g: 85, b: 85 }
    } else if i == 11 {
        SixelColor { r: 85, g: 255, b: 85 }
    } else if i == 12 {
        SixelColor { r: 255, g: 85, b: 255 }
    } else if i == 13 {
        SixelColor { r: 85, g: 255, b: 255 }
    } else if i == 14 {
        SixelColor { r: 255, g: 255, b: 85 }
    } else {
        SixelColor { r: 255, g: 255, b: 255 }
    }
}

pub open spec fn is_digit_byte(b: u8) -> bool {
    0x30 <= b <= 0x39
}

pub open spec fn is_sixel_byte(b: u8) -> bool {
    0x3F <= b <= 0x7E
}

/// The decimal number at `i` (added to `acc`) and the index after its
/// digits, or `None` when it exceeds `max`.
pub open spec fn digits_from(data: Seq<u8>, i: int, acc: int, max: int) -> Option<(int, int)>
    decreases data.len() - i,
{
    if 0 <= i < data.len() && is_digit_byte(data[i]) {
        let a = acc * 10 + (data[i] - 0x30);
        if a > max {
            None
        } else {
            digits_from(data, i + 1, a, max)
        }
    } else {
        Some((acc, i))
    }
}

/// The index after the digits and `;` from `i`.
pub open spec fn skip_params(data: Seq<u8>, i: int) -> int
    decreases data.len() - i,
{
    if 0 <= i < data.len() && (is_digit_byte(data[i]) || data[i] == 0x3b) {
        skip_params(data, i + 1)
    } else {
        i
    }
}

pub open spec fn max_int(a: int, b: int) -> int {
    if a >= b {
        a
    } else {
        b
    }
}

/// The first pass from index `i`: the extent `(width, height)` of what is
/// drawn, with the current position `(px, py)` and extent `(mx, my)` so far.
pub open spec fn scan(data: Seq<u8>, i: int, px: int, py: int, mx: int, my: int) -> Option<(int, int)>
    decreases data.len() + 1 - i,
{
    if i < 0 || i >= data.len() {
        Some((mx, my))
    } else {
        let b = data[i];
        if b == 0x24 {
            scan(data, i + 1, 0, py, mx, my)
        } else if b == 0x2d {
            if py + 6 > u32::MAX {
                None
            } else {
                scan(data, i + 1, 0, py + 6, mx, my)
            }
        } else if b == 0x23 {
            let j = skip_params(data, i + 1);
            if i < j <= data.len() {
                scan(data, j, px, py, mx, my)
            } else {
                None
            }
        } else if b == 0x21 {
            match digits_from(data, i + 1, 0, u32::MAX as int) {
                None => None,
                Some((count, j)) => if j <= i || j > data.len() {
                    None
                } else if j < data.len() && is_sixel_byte(data[j]) {
                    if px + count > u32::MAX || py + 6 > u32::MAX {
                        None
                    } else {
                        scan(data, j + 1, px + count, py, max_int(mx, px + count), max_int(my, py + 6))
                    }
                } else {
                    scan(data, j + 1, px, py, mx, my)
                },
            }
        } else if is_sixel_byte(b) {
            if px + 1 > u32::MAX || py + 6 > u32::MAX {
                None
            } else {
                scan(data, i + 1, px + 1, py, max_int(mx, px + 1), max_int(my, py + 6))
            }
        } else {
            scan(data, i + 1, px, py, mx, my)
        }
    }
}

/// The parameters of a color definition from `i`: the numbers separated by
/// `;` and the index after them, or `None` when a number exceeds `u16`.
pub open spec fn color_params(data: Seq<u8>, i: int, ps: Seq<u16>, num: int, has: bool) -> Option<(Seq<u16>, int)>
    decreases data.len() - i,
{
    if 0 <= i < data.len() && (is_digit_byte(data[i]) || data[i] == 0x3b) {
        if data[i] == 0x3b {
            color_params(data, i + 1, ps.push(num as u16), 0, false)
        } else {
            let n = num * 10 + (data[i] - 0x30);
            if n > u16::MAX {
                None
            } else {
                color_params(data, i + 1, ps, n, true)
            }
        }
    } else {
        Some((if has { ps.push(num as u16) } else { ps }, i))
    }
}

/// A percentage (at most 100) scaled to 0..=255.
pub open spec fn pct(p: u16) -> u8 {
    let q = if p > 100 { 100 } else { p as int };
    (q * 255 / 100) as u8
}

/// The color a definition with parameters `ps` (at least four) gives: type
/// 2 RGB percentages, type 1 HLS converted by `hls`, black otherwise.
pub open spec fn color_of(ps: Seq<u16>, hls: spec_fn(u16, u16, u16) -> (u8, u8, u8)) -> SixelColor {
    if ps[0] == 2 {
        color(pct(ps[1]), pct(ps[2]), pct(ps[3]))
    } else if ps[0] == 1 {
        let c = hls(ps[1], ps[2], ps[3]);
        color(c.0, c.1, c.2)
    } else {
        color(0, 0, 0)
    }
}

/// The color of register `cur`, or white when it is undefined.
pub open spec fn color_for(pal: Map<u16, SixelColor>, cur: u16) -> SixelColor {
    if pal.contains_key(cur) {
        pal[cur]
    } else {
        color(255, 255, 255)
    }
}

/// Pixel `(x, py)` of a `w` x `h` RGBA buffer set to `c` when it lies
/// inside the image.
pub open spec fn set_pixel(px: Seq<u8>, w: int, h: int, x: int, py: int, c: SixelColor) -> Seq<u8> {
    if x < w && py < h {
        let off = (py * w + x) * 4;
        if off + 3 < px.len() {
            px.update(off, c.r).update(off + 1, c.g).update(off + 2, c.b).update(off + 3, 255)
        } else {
            px
        }
    } else {
        px
    }
}

/// The pixels of bits `0..k` of sixel value `val` drawn at column `x`, rows
/// from `y`.
pub open spec fn draw_bits(px: Seq<u8>, w: int, h: int, x: int, y: int, val: u8, c: SixelColor, k: int) -> Seq<u8>
    decreases k,
{
    if k <= 0 {
        px
    } else {
        let p1 = draw_bits(px, w, h, x, y, val, c, k - 1);
        if val & (1u8 << ((k - 1) as u8)) != 0 {
            set_pixel(p1, w, h, x, y + k - 1, c)
        } else {
            p1
        }
    }
}

/// The sixel `val` drawn at column `x`, rows `y..y+6`.
pub open spec fn draw_col(px: Seq<u8>, w: int, h: int, x: int, y: int, val: u8, c: SixelColor) -> Seq<u8> {
    draw_bits(px, w, h, x, y, val, c, 6)
}

/// The sixel `val` drawn in columns `x..x+n`.
pub open spec fn draw_cols(px: Seq<u8>, w: int, h: int, x: int, y: int, val: u8, c: SixelColor, n: int) -> Seq<u8>
    decreases n,
{
    if n <= 0 {
        px
    } else {
        draw_col(draw_cols(px, w, h, x, y, val, c, n - 1), w, h, x + n - 1, y, val, c)
    }
}

/// The second pass from index `i`: the pixels drawn, at position `(x, y)`
/// with register `cur` and palette `pal`.
pub open spec fn paint(
    data: Seq<u8>,
    i: int,
    x: int,
    y: int,
    cur: u16,
    pal: Map<u16, SixelColor>,
    px: Seq<u8>,
    w: int,
    h: int,
    hls: spec_fn(u16, u16, u16) -> (u8, u8, u8),
) -> Option<Seq<u8>>
    decreases data.len() + 1 - i,
{
    if i < 0 || i >= data.len() {
        Some(px)
    } else {
        let b = data[i];
        if b == 0x24 {
            paint(data, i + 1, 0, y, cur, pal, px, w, h, hls)
        } else if b == 0x2d {
            if y + 6 > u32::MAX {
                None
            } else {
                paint(data, i + 1, 0, y + 6, cur, pal, px, w, h, hls)
            }
        } else if b == 0x23 {
            match digits_from(data, i + 1, 0, u16::MAX as int) {
                None => None,
                Some((reg, j)) => if j <= i || j > data.len() {
                    None
                } else if j < data.len() && data[j] == 0x3b {
                    match color_params(data, j + 1, Seq::empty(), 0, false) {
                        None => None,
                        Some((ps, k)) => if k <= i || k > data.len() {
                            None
                        } else {
                            let pal2 = if ps.len() >= 4 { pal.insert(reg as u16, color_of(ps, hls)) } else { pal };
                            paint(data, k, x, y, reg as u16, pal2, px, w, h, hls)
                        },
                    }
                } else {
                    paint(data, j, x, y, reg as u16, pal, px, w, h, hls)
                },
            }
        } else if b == 0x21 {
            match digits_from(data, i + 1, 0, u32::MAX as int) {
                None => None,
                Some((count, j)) => if j <= i || j > data.len() {
                    None
                } else if j < data.len() && is_sixel_byte(data[j]) {
                    if x + count > u32::MAX {
                        None
                    } else {
                        let px2 = draw_cols(px, w, h, x, y, (data[j] - 0x3F) as u8, color_for(pal, cur), count);
                        paint(data, j + 1, x + count, y, cur, pal, px2, w, h, hls)
                    }
                } else {
                    paint(data, j + 1, x, y, cur, pal, px, w, h, hls)
                },
            }
        } else if is_sixel_byte(b) {
            if x + 1 > u32::MAX {
                None
            } else {
                let px2 = draw_col(px, w, h, x, y, (b - 0x3F) as u8, color_for(pal, cur));
                paint(data, i + 1, x + 1, y, cur, pal, px2, w, h, hls)
            }
        } else {
            paint(data, i + 1, x, y, cur, pal, px, w, h, hls)
        }
    }
}

/// The default palette: the VGA colors in registers 0 to 15.
pub open spec fn default_palette() -> Map<u16, SixelColor> {
    with_vga16(Map::empty())
}

/// What decoding `data` gives, with HLS colors converted by `hls`: the RGBA
/// pixels, width and height, or `None` when nothing is drawn or a number
/// leaves its integer type.
pub open spec fn sixel_spec(data: Seq<u8>, hls: spec_fn(u16, u16, u16) -> (u8, u8, u8)) -> Option<(Seq<u8>, u32, u32)> {
    match scan(data, 0, 0, 0, 0, 0) {
        None => None,
        Some((w, h)) => if w == 0 || h == 0 || w * h * 4 > u32::MAX {
            None
        } else {
            match paint(data, 0, 0, 0, 0, default_palette(), Seq::new((w * h * 4) as nat, |_i: int| 0u8), w, h, hls) {
                None => None,
                Some(px) => Some((px, w as u32, h as u32)),
            }
        },
    }
}

/// The conversion `hls` performs, as a spec function.
pub open spec fn hls_fn<H: Fn(u16, u16, u16) -> (u8, u8, u8)>(hls: H) -> spec_fn(u16, u16, u16) -> (u8, u8, u8) {
    |h: u16, l: u16, s: u16| choose|r: (u8, u8, u8)| call_ensures(hls, (h, l, s), r)
}

/// Whether `hls` can be called on every input and gives one result for
/// each.
pub open spec fn hls_ok<H: Fn(u16, u16, u16) -> (u8, u8, u8)>(hls: H) -> bool {
    &&& forall|h: u16, l: u16, s: u16| call_requires(hls, (h, l, s))
    &&& forall|h: u16, l: u16, s: u16, r1: (u8, u8, u8), r2: (u8, u8, u8)|
        #![trigger call_ensures(hls, (h, l, s), r1), call_ensures(hls, (h, l, s), r2)]
        call_ensures(hls, (h, l, s), r1) && call_ensures(hls, (h, l, s), r2) ==> r1 == r2
}

/// The decoded image as plain values.
pub open spec fn decoded_opt(r: Option<DecodedImage>) -> Option<(Seq<u8>, u32, u32)> {
    match r {
        Some(d) => Some((d.data@, d.width, d.height)),
        None => None,
    }
}

/// Whether the alpha byte of every RGBA pixel (each fourth byte) is 0 or
/// 255.
pub open spec fn alpha_binary(px: Seq<u8>) -> bool {
    forall|j: int| 0 <= j < px.len() && j % 4 == 3 ==> #[trigger] px[j] == 0 || px[j] == 255
}

/// The shape of a decoded sixel image: at least one column, a height that
/// is a positive multiple of six, four bytes for each pixel, and each pixel
/// either fully transparent or fully opaque.
pub open spec fn sixel_shape(r: Option<(Seq<u8>, u32, u32)>) -> bool {
    match r {
        None => true,
        Some((px, w, h)) => {
            &&& w >= 1
            &&& h >= 6
            &&& h % 6 == 0
            &&& px.len() == w * h * 4
            &&& forall|i: int| 0 <= i < w * h ==> #[trigger] px[4 * i + 3] == 0 || px[4 * i + 3] == 255
        },
    }
}

proof fn lemma_digits_from(data: Seq<u8>, i: int, acc: int, max: int)
    requires
        acc >= 0,
    ensures
        digits_from(data, i, acc, max) matches Some((n, _j)) ==> n >= acc,
    decreases data.len() - i,
{
    if 0 <= i < data.len() && is_digit_byte(data[i]) {
        let a = acc * 10 + (data[i] - 0x30);
        if a <= max {
            lemma_digits_from(data, i + 1, a, max);
        }
    }
}

proof fn lemma_scan_extent(data: Seq<u8>, i: int, px: int, py: int, mx: int, my: int)
    requires
        px >= 0,
        py >= 0,
        mx >= 0,
        my >= 0,
        py % 6 == 0,
        my % 6 == 0,
    ensures
        scan(data, i, px, py, mx, my) matches Some((w, h)) ==> w >= 0 && h >= 0 && h % 6 == 0,
    decreases data.len() + 1 - i,
{
    if 0 <= i < data.len() {
        let b = data[i];
        if b == 0x24 {
            lemma_scan_extent(data, i + 1, 0, py, mx, my);
        } else if b == 0x2d {
            if py + 6 <= u32::MAX {
                lemma_scan_extent(data, i + 1, 0, py + 6, mx, my);
            }
        } else if b == 0x23 {
            let j = skip_params(data, i + 1);
            if i < j <= data.len() {
                lemma_scan_extent(data, j, px, py, mx, my);
            }
        } else if b == 0x21 {
            lemma_digits_from(data, i + 1, 0, u32::MAX as int);
            match digits_from(data, i + 1, 0, u32::MAX as int) {
                None => {},
                Some((count, j)) => if j <= i || j > data.len() {
                } else if j < data.len() && is_sixel_byte(data[j]) {
                    if px + count <= u32::MAX && py + 6 <= u32::MAX {
                        lemma_scan_extent(data, j + 1, px + count, py, max_int(mx, px + count), max_int(my, py + 6));
                    }
                } else {
                    lemma_scan_extent(data, j + 1, px, py, mx, my);
                },
            }
        } else if is_sixel_byte(b) {
            if px + 1 <= u32::MAX && py + 6 <= u32::MAX {
                lemma_scan_extent(data, i + 1, px + 1, py, max_int(mx, px + 1), max_int(my, py + 6));
            }
        } else {
            lemma_scan_extent(data, i + 1, px, py, mx, my);
        }
    }
}

proof fn lemma_set_pixel(px: Seq<u8>, w: int, h: int, x: int, py: int, c: SixelColor)
    requires
        w >= 0,
        x >= 0,
        py >= 0,
        alpha_binary(px),
    ensures
        set_pixel(px, w, h, x, py, c).len() == px.len(),
        alpha_binary(set_pixel(px, w, h, x, py, c)),
{
    if x < w && py < h {
        let off = (py * w + x) * 4;
        assert(off >= 0 && off % 4 == 0) by (nonlinear_arith)
            requires
                w >= 0,
                x >= 0,
                py >= 0,
                off == (py * w + x) * 4,
        ;
        if off + 3 < px.len() {
            let q = set_pixel(px, w, h, x, py, c);
            assert forall|j: int| 0 <= j < q.len() && j % 4 == 3 implies #[trigger] q[j] == 0 || q[j] == 255 by {
                if j != off + 3 {
                    assert(j != off && j != off + 1 && j != off + 2);
                    assert(q[j] == px[j]);
                }
            }
        }
    }
}

proof fn lemma_draw_bits(px: Seq<u8>, w: int, h: int, x: int, y: int, val: u8, c: SixelColor, k: int)
    requires
        w >= 0,
        x >= 0,
        y >= 0,
        alpha_binary(px),
    ensures
        draw_bits(px, w, h, x, y, val, c, k).len() == px.len(),
        alpha_binary(draw_bits(px, w, h, x, y, val, c, k)),
    decreases k,
{
    if k > 0 {
        lemma_draw_bits(px, w, h, x, y, val, c, k - 1);
        lemma_set_pixel(draw_bits(px, w, h, x, y, val, c, k - 1), w, h, x, y + k - 1, c);
    }
}

proof fn lemma_draw_cols(px: Seq<u8>, w: int, h: int, x: int, y: int, val: u8, c: SixelColor, n: int)
    requires
        w >= 0,
        x >= 0,
        y >= 0,
        alpha_binary(px),
    ensures
        draw_cols(px, w, h, x, y, val, c, n).len() == px.len(),
        alpha_binary(draw_cols(px, w, h, x, y, val, c, n)),
    decreases n,
{
    if n > 0 {
        lemma_draw_cols(px, w, h, x, y, val, c, n - 1);
        lemma_draw_bits(draw_cols(px, w, h, x, y, val, c, n - 1), w, h, x + n - 1, y, val, c, 6);
    }
}

proof fn lemma_paint_shape(
    data: Seq<u8>,
    i: int,
    x: int,
    y: int,
    cur: u16,
    pal: Map<u16, SixelColor>,
    px: Seq<u8>,
    w: int,
    h: int,
    hls: spec_fn(u16, u16, u16) -> (u8, u8, u8),
)
    requires
        w >= 0,
        x >= 0,
        y >= 0,
        alpha_binary(px),
    ensures
        paint(data, i, x, y, cur, pal, px, w, h, hls) matches Some(q) ==> q.len() == px.len() && alpha_binary(q),
    decreases data.len() + 1 - i,
{
    if 0 <= i < data.len() {
        let b = data[i];
        if b == 0x24 {
            lemma_paint_shape(data, i + 1, 0, y, cur, pal, px, w, h, hls);
        } else if b == 0x2d {
            if y + 6 <= u32::MAX {
                lemma_paint_shape(data, i + 1, 0, y + 6, cur, pal, px, w, h, hls);
            }
        } else if b == 0x23 {
            match digits_from(data, i + 1, 0, u16::MAX as int) {
                None => {},
                Some((reg, j)) => if j <= i || j > data.len() {
                } else if j < data.len() && data[j] == 0x3b {
                    match color_params(data, j + 1, Seq::empty(), 0, false) {
                        None => {},
                        Some((ps, k)) => if i < k <= data.len() {
                            let pal2 = if ps.len() >= 4 { pal.insert(reg as u16, color_of(ps, hls)) } else { pal };
                            lemma_paint_shape(data, k, x, y, reg as u16, pal2, px, w, h, hls);
                        },
                    }
                } else {
                    lemma_paint_shape(data, j, x, y, reg as u16, pal, px, w, h, hls);
                },
            }
        } else if b == 0x21 {
            lemma_digits_from(data, i + 1, 0, u32::MAX as int);
            match digits_from(data, i + 1, 0, u32::MAX as int) {
                None => {},
                Some((count, j)) => if j <= i || j > data.len() {
                } else if j < data.len() && is_sixel_byte(data[j]) {
                    if x + count <= u32::MAX {
                        let val = (data[j] - 0x3F) as u8;
                        let c = color_for(pal, cur);
                        lemma_draw_cols(px, w, h, x, y, val, c, count);
                        lemma_paint_shape(data, j + 1, x + count, y, cur, pal, draw_cols(px, w, h, x, y, val, c, count), w, h, hls);
                    }
                } else {
                    lemma_paint_shape(data, j + 1, x, y, cur, pal, px, w, h, hls);
                },
            }
        } else if is_sixel_byte(b) {
            if x + 1 <= u32::MAX {
                let val = (b - 0x3F) as u8;
                let c = color_for(pal, cur);
                lemma_draw_bits(px, w, h, x, y, val, c, 6);
                lemma_paint_shape(data, i + 1, x + 1, y, cur, pal, draw_col(px, w, h, x, y, val, c), w, h, hls);
            }
        } else {
            lemma_paint_shape(data, i + 1, x, y, cur, pal, px, w, h, hls);
        }
    }
}

/// Byte `t` (0 red, 1 green, 2 blue, 3 alpha) of an opaque pixel of color
/// `c`.
pub open spec fn channel(c: SixelColor, t: int) -> u8 {
    if t == 0 {
        c.r
    } else if t == 1 {
        c.g
    } else if t == 2 {
        c.b
    } else {
        255
    }
}

/// The index of byte `t` of pixel `(x, row)` in a `w`-wide RGBA buffer.
pub open spec fn pixel_byte(w: int, x: int, row: int, t: int) -> int {
    (row * w + x) * 4 + t
}

/// Whether byte `j` belongs to one of the pixels `(x, y + b)`, `b < k`.
pub open spec fn in_column(j: int, w: int, x: int, y: int, k: int) -> bool {
    exists|b: int, t: int| 0 <= b < k && 0 <= t < 4 && j == #[trigger] pixel_byte(w, x, y + b, t)
}

proof fn lemma_pixel_bytes_distinct(w: int, x: int, r1: int, t1: int, r2: int, t2: int)
    requires
        w >= 1,
        0 <= x < w,
        0 <= t1 < 4,
        0 <= t2 < 4,
        r1 != r2,
    ensures
        pixel_byte(w, x, r1, t1) != pixel_byte(w, x, r2, t2),
{
    assert(pixel_byte(w, x, r1, t1) - pixel_byte(w, x, r2, t2) == (r1 - r2) * w * 4 + t1 - t2) by (nonlinear_arith);
    assert((r1 - r2) * w * 4 >= 4 || (r1 - r2) * w * 4 <= -4) by (nonlinear_arith)
        requires
            w >= 1,
            r1 != r2,
    ;
}

proof fn lemma_pixel_in_buffer(w: int, h: int, x: int, row: int)
    requires
        0 <= x < w,
        0 <= row < h,
    ensures
        0 <= pixel_byte(w, x, row, 0),
        pixel_byte(w, x, row, 3) < w * h * 4,
{
    assert(0 <= (row * w + x) * 4) by (nonlinear_arith)
        requires
            0 <= x,
            0 <= row,
            w >= 0,
    ;
    assert((row * w + x) * 4 + 3 < w * h * 4) by (nonlinear_arith)
        requires
            0 <= x < w,
            0 <= row < h,
    ;
}

proof fn lemma_draw_bits_pixels(px: Seq<u8>, w: int, h: int, x: int, y: int, val: u8, c: SixelColor, k: int)
    requires
        0 <= x < w,
        0 <= y,
        h >= 0,
        0 <= k <= 6,
        px.len() == w * h * 4,
    ensures
        ({
            let q = draw_bits(px, w, h, x, y, val, c, k);
            &&& q.len() == px.len()
            &&& forall|b: int, t: int|
                0 <= b < k && y + b < h && 0 <= t < 4 ==> #[trigger] q[pixel_byte(w, x, y + b, t)] == if val & (1u8
                    << (b as u8)) != 0 {
                    channel(c, t)
                } else {
                    px[pixel_byte(w, x, y + b, t)]
                }
            &&& forall|j: int| 0 <= j < px.len() && !in_column(j, w, x, y, k) ==> #[trigger] q[j] == px[j]
        }),
    decreases k,
{
    if k > 0 {
        lemma_draw_bits_pixels(px, w, h, x, y, val, c, k - 1);
        let p1 = draw_bits(px, w, h, x, y, val, c, k - 1);
        let q = draw_bits(px, w, h, x, y, val, c, k);
        let row = y + k - 1;
        let off = pixel_byte(w, x, row, 0);
        assert(pixel_byte(w, x, row, 1) == off + 1 && pixel_byte(w, x, row, 2) == off + 2 && pixel_byte(w, x, row, 3)
            == off + 3);
        assert(off == (row * w + x) * 4);
        if row < h {
            lemma_pixel_in_buffer(w, h, x, row);
        }
        assert forall|b: int, t: int|
            0 <= b < k && y + b < h && 0 <= t < 4 implies #[trigger] q[pixel_byte(w, x, y + b, t)] == if val & (1u8
                << (b as u8)) != 0 {
                channel(c, t)
            } else {
                px[pixel_byte(w, x, y + b, t)]
            } by {
            let jb = pixel_byte(w, x, y + b, t);
            lemma_pixel_in_buffer(w, h, x, y + b);
            if b < k - 1 {
                assert(p1[jb] == if val & (1u8 << (b as u8)) != 0 {
                    channel(c, t)
                } else {
                    px[jb]
                });
                lemma_pixel_bytes_distinct(w, x, y + b, t, row, 0);
                lemma_pixel_bytes_distinct(w, x, y + b, t, row, 1);
                lemma_pixel_bytes_distinct(w, x, y + b, t, row, 2);
                lemma_pixel_bytes_distinct(w, x, y + b, t, row, 3);
            } else {
                assert(b == k - 1);
                assert(!in_column(jb, w, x, y, k - 1)) by {
                    if in_column(jb, w, x, y, k - 1) {
                        let (b2, t2) = choose|b2: int, t2: int|
                            0 <= b2 < k - 1 && 0 <= t2 < 4 && jb == #[trigger] pixel_byte(w, x, y + b2, t2);
                        lemma_pixel_bytes_distinct(w, x, y + b2, t2, y + b, t);
                    }
                }
                assert(p1[jb] == px[jb]);
            }
        }
        assert forall|j: int| 0 <= j < px.len() && !in_column(j, w, x, y, k) implies #[trigger] q[j] == px[j] by {
            assert(!in_column(j, w, x, y, k - 1)) by {
                if in_column(j, w, x, y, k - 1) {
                    let (b2, t2) = choose|b2: int, t2: int|
                        0 <= b2 < k - 1 && 0 <= t2 < 4 && j == #[trigger] pixel_byte(w, x, y + b2, t2);
                    assert(0 <= b2 < k && 0 <= t2 < 4 && j == pixel_byte(w, x, y + b2, t2));
                }
            }
            assert(j != off && j != off + 1 && j != off + 2 && j != off + 3) by {
                if j == off || j == off + 1 || j == off + 2 || j == off + 3 {
                    let t = j - off;
                    assert(j == pixel_byte(w, x, y + (k - 1), t));
                    assert(in_column(j, w, x, y, k));
                }
            }
        }
    }
}

/// Drawing the sixel `val` at column `x` from row `y` (of a `w` x `h` image
/// with four bytes per pixel) paints pixel `(x, y + b)` opaque in color `c`
/// for each bit `b` of `val` that is set, leaves that pixel as it was for
/// each bit that is clear, and changes no other byte.
pub proof fn law_sixel_column(px: Seq<u8>, w: int, h: int, x: int, y: int, val: u8, c: SixelColor)
    requires
        0 <= x < w,
        0 <= y,
        h >= 0,
        px.len() == w * h * 4,
    ensures
        ({
            let q = draw_col(px, w, h, x, y, val, c);
            &&& q.len() == px.len()
            &&& forall|b: int, t: int|
                0 <= b < 6 && y + b < h && 0 <= t < 4 ==> #[trigger] q[pixel_byte(w, x, y + b, t)] == if val & (1u8
                    << (b as u8)) != 0 {
                    channel(c, t)
                } else {
                    px[pixel_byte(w, x, y + b, t)]
                }
            &&& forall|j: int| 0 <= j < px.len() && !in_column(j, w, x, y, 6) ==> #[trigger] q[j] == px[j]
        }),
{
    lemma_draw_bits_pixels(px, w, h, x, y, val, c, 6);
}

/// A graphics carriage return (`$`) forgets the column: decoding goes on
/// from column 0 of the same band, with the same color and palette, so a
/// sixel right after it is drawn at column 0 in the current color and
/// the next one at column 1.
pub proof fn law_sixel_carriage_return(
    data: Seq<u8>,
    i: int,
    x: int,
    y: int,
    cur: u16,
    pal: Map<u16, SixelColor>,
    px: Seq<u8>,
    w: int,
    h: int,
    hls: spec_fn(u16, u16, u16) -> (u8, u8, u8),
)
    requires
        0 <= i < data.len(),
        data[i] == 0x24,
    ensures
        paint(data, i, x, y, cur, pal, px, w, h, hls) == paint(data, i + 1, 0, y, cur, pal, px, w, h, hls),
        i + 1 < data.len() && is_sixel_byte(data[i + 1]) ==> paint(data, i, x, y, cur, pal, px, w, h, hls) == paint(
            data,
            i + 2,
            1,
            y,
            cur,
            pal,
            draw_col(px, w, h, 0, y, (data[i + 1] - 0x3F) as u8, color_for(pal, cur)),
            w,
            h,
            hls,
        ),
{
}

proof fn lemma_pixels_distinct(w: int, x1: int, r1: int, t1: int, x2: int, r2: int, t2: int)
    requires
        0 <= x1 < w,
        0 <= x2 < w,
        0 <= t1 < 4,
        0 <= t2 < 4,
        x1 != x2 || r1 != r2,
    ensures
        pixel_byte(w, x1, r1, t1) != pixel_byte(w, x2, r2, t2),
{
    if pixel_byte(w, x1, r1, t1) == pixel_byte(w, x2, r2, t2) {
        assert(t1 == t2 && r1 * w + x1 == r2 * w + x2) by (nonlinear_arith)
            requires
                (r1 * w + x1) * 4 + t1 == (r2 * w + x2) * 4 + t2,
                0 <= t1 < 4,
                0 <= t2 < 4,
        ;
        assert(r1 == r2 && x1 == x2) by (nonlinear_arith)
            requires
                r1 * w + x1 == r2 * w + x2,
                0 <= x1 < w,
                0 <= x2 < w,
        ;
    }
}

proof fn lemma_draw_bits_outside(px: Seq<u8>, w: int, h: int, x: int, y: int, val: u8, c: SixelColor, k: int)
    requires
        x >= w,
    ensures
        draw_bits(px, w, h, x, y, val, c, k) == px,
    decreases k,
{
    if k > 0 {
        lemma_draw_bits_outside(px, w, h, x, y, val, c, k - 1);
    }
}

/// Whether byte `j` belongs to one of the pixels `(x + m, y + b)` with
/// `m < n`, `x + m < w` and `b < 6`.
pub open spec fn in_columns(j: int, w: int, x: int, y: int, n: int) -> bool {
    exists|m: int, b: int, t: int|
        0 <= m < n && x + m < w && 0 <= b < 6 && 0 <= t < 4 && j == #[trigger] pixel_byte(w, x + m, y + b, t)
}

/// Drawing the sixel `val` in `n` columns from column `x` (a repeat) paints
/// every one of those columns inside the image as one sixel would, and
/// changes no other byte.
pub proof fn law_sixel_repeat(px: Seq<u8>, w: int, h: int, x: int, y: int, val: u8, c: SixelColor, n: int)
    requires
        0 <= x,
        0 <= y,
        h >= 0,
        w >= 0,
        n >= 0,
        px.len() == w * h * 4,
    ensures
        ({
            let q = draw_cols(px, w, h, x, y, val, c, n);
            &&& q.len() == px.len()
            &&& forall|m: int, b: int, t: int|
                0 <= m < n && x + m < w && 0 <= b < 6 && y + b < h && 0 <= t < 4 ==> #[trigger] q[pixel_byte(
                    w,
                    x + m,
                    y + b,
                    t,
                )] == if val & (1u8 << (b as u8)) != 0 {
                    channel(c, t)
                } else {
                    px[pixel_byte(w, x + m, y + b, t)]
                }
            &&& forall|j: int| 0 <= j < px.len() && !in_columns(j, w, x, y, n) ==> #[trigger] q[j] == px[j]
        }),
    decreases n,
{
    if n > 0 {
        law_sixel_repeat(px, w, h, x, y, val, c, n - 1);
        let p1 = draw_cols(px, w, h, x, y, val, c, n - 1);
        let q = draw_cols(px, w, h, x, y, val, c, n);
        let xc = x + n - 1;
        if xc >= w {
            lemma_draw_bits_outside(p1, w, h, xc, y, val, c, 6);
            assert(q == p1);
            assert forall|j: int| 0 <= j < px.len() && !in_columns(j, w, x, y, n) implies #[trigger] q[j] == px[j] by {
                assert(!in_columns(j, w, x, y, n - 1)) by {
                    if in_columns(j, w, x, y, n - 1) {
                        let (m, b, t) = choose|m: int, b: int, t: int|
                            0 <= m < n - 1 && x + m < w && 0 <= b < 6 && 0 <= t < 4 && j == #[trigger] pixel_byte(
                                w,
                                x + m,
                                y + b,
                                t,
                            );
                        assert(0 <= m < n && x + m < w && 0 <= b < 6 && 0 <= t < 4 && j == pixel_byte(w, x + m, y + b, t));
                    }
                }
            }
        } else {
            lemma_draw_bits_pixels(p1, w, h, xc, y, val, c, 6);
            assert forall|m: int, b: int, t: int|
                0 <= m < n && x + m < w && 0 <= b < 6 && y + b < h && 0 <= t < 4 implies #[trigger] q[pixel_byte(
                    w,
                    x + m,
                    y + b,
                    t,
                )] == if val & (1u8 << (b as u8)) != 0 {
                    channel(c, t)
                } else {
                    px[pixel_byte(w, x + m, y + b, t)]
                } by {
                let jb = pixel_byte(w, x + m, y + b, t);
                if m < n - 1 {
                    assert(!in_column(jb, w, xc, y, 6)) by {
                        if in_column(jb, w, xc, y, 6) {
                            let (b2, t2) = choose|b2: int, t2: int|
                                0 <= b2 < 6 && 0 <= t2 < 4 && jb == #[trigger] pixel_byte(w, xc, y + b2, t2);
                            lemma_pixels_distinct(w, x + m, y + b, t, xc, y + b2, t2);
                        }
                    }
                    lemma_pixel_in_buffer(w, h, x + m, y + b);
                    assert(q[jb] == p1[jb]);
                } else {
                    assert(x + m == xc);
                    assert(!in_columns(jb, w, x, y, n - 1)) by {
                        if in_columns(jb, w, x, y, n - 1) {
                            let (m2, b2, t2) = choose|m2: int, b2: int, t2: int|
                                0 <= m2 < n - 1 && x + m2 < w && 0 <= b2 < 6 && 0 <= t2 < 4 && jb == #[trigger] pixel_byte(
                                    w,
                                    x + m2,
                                    y + b2,
                                    t2,
                                );
                            lemma_pixels_distinct(w, x + m2, y + b2, t2, xc, y + b, t);
                        }
                    }
                    lemma_pixel_in_buffer(w, h, x + m, y + b);
                    assert(p1[jb] == px[jb]);
                    assert(q[pixel_byte(w, xc, y + b, t)] == if val & (1u8 << (b as u8)) != 0 {
                        channel(c, t)
                    } else {
                        p1[pixel_byte(w, xc, y + b, t)]
                    });
                }
            }
            assert forall|j: int| 0 <= j < px.len() && !in_columns(j, w, x, y, n) implies #[trigger] q[j] == px[j] by {
                assert(!in_columns(j, w, x, y, n - 1)) by {
                    if in_columns(j, w, x, y, n - 1) {
                        let (m, b, t) = choose|m: int, b: int, t: int|
                            0 <= m < n - 1 && x + m < w && 0 <= b < 6 && 0 <= t < 4 && j == #[trigger] pixel_byte(
                                w,
                                x + m,
                                y + b,
                                t,
                            );
                        assert(0 <= m < n && x + m < w && 0 <= b < 6 && 0 <= t < 4 && j == pixel_byte(w, x + m, y + b, t));
                    }
                }
                assert(!in_column(j, w, xc, y, 6)) by {
                    if in_column(j, w, xc, y, 6) {
                        let (b, t) = choose|b: int, t: int| 0 <= b < 6 && 0 <= t < 4 && j == #[trigger] pixel_byte(w, xc, y + b, t);
                        assert(0 <= n - 1 < n && x + (n - 1) < w && 0 <= b < 6 && 0 <= t < 4 && j == pixel_byte(
                            w,
                            x + (n - 1),
                            y + b,
                            t,
                        ));
                    }
                }
            }
        }
    }
}

/// A sixel byte is drawn at the current column in the current color, and
/// decoding goes on from the next column; a repeat `!<count>` followed by
/// a sixel byte draws it in `count` columns from the current one and goes
/// on after them; selecting a register (`#<n>`, with no color definition
/// after it) changes only the current register.
pub proof fn law_sixel_draw_steps(
    data: Seq<u8>,
    i: int,
    x: int,
    y: int,
    cur: u16,
    pal: Map<u16, SixelColor>,
    px: Seq<u8>,
    w: int,
    h: int,
    hls: spec_fn(u16, u16, u16) -> (u8, u8, u8),
)
    requires
        0 <= i < data.len(),
    ensures
        is_sixel_byte(data[i]) && x + 1 <= u32::MAX ==> paint(data, i, x, y, cur, pal, px, w, h, hls) == paint(
            data,
            i + 1,
            x + 1,
            y,
            cur,
            pal,
            draw_col(px, w, h, x, y, (data[i] - 0x3F) as u8, color_for(pal, cur)),
            w,
            h,
            hls,
        ),
        data[i] == 0x21 ==> match digits_from(data, i + 1, 0, u32::MAX as int) {
            Some((count, j)) => i < j < data.len() && is_sixel_byte(data[j]) && x + count <= u32::MAX ==> paint(
                data,
                i,
                x,
                y,
                cur,
                pal,
                px,
                w,
                h,
                hls,
            ) == paint(
                data,
                j + 1,
                x + count,
                y,
                cur,
                pal,
                draw_cols(px, w, h, x, y, (data[j] - 0x3F) as u8, color_for(pal, cur), count),
                w,
                h,
                hls,
            ),
            None => true,
        },
        data[i] == 0x23 ==> match digits_from(data, i + 1, 0, u16::MAX as int) {
            Some((reg, j)) => i < j <= data.len() && (j == data.len() || data[j] != 0x3b) ==> paint(
                data,
                i,
                x,
                y,
                cur,
                pal,
                px,
                w,
                h,
                hls,
            ) == paint(data, j, x, y, reg as u16, pal, px, w, h, hls),
            None => true,
        },
{
}

/// A graphics new line (`-`) goes on from column 0 of the next band, six
/// rows down, with the same color and palette.
pub proof fn law_sixel_new_line(
    data: Seq<u8>,
    i: int,
    x: int,
    y: int,
    cur: u16,
    pal: Map<u16, SixelColor>,
    px: Seq<u8>,
    w: int,
    h: int,
    hls: spec_fn(u16, u16, u16) -> (u8, u8, u8),
)
    requires
        0 <= i < data.len(),
        data[i] == 0x2d,
        y + 6 <= u32::MAX,
    ensures
        paint(data, i, x, y, cur, pal, px, w, h, hls) == paint(data, i + 1, 0, y + 6, cur, pal, px, w, h, hls),
{
}

/// Every image that sixel data decodes to, whatever the data and however
/// HLS colors convert, has at least one column, a height that is a positive
/// multiple of six, four bytes for each of its pixels, and an alpha of 0 or
/// 255 in each pixel.
pub proof fn law_sixel_image_shape(data: Seq<u8>, hls: spec_fn(u16, u16, u16) -> (u8, u8, u8))
    ensures
        sixel_shape(sixel_spec(data, hls)),
{
    lemma_scan_extent(data, 0, 0, 0, 0, 0);
    match scan(data, 0, 0, 0, 0, 0) {
        None => {},
        Some((w, h)) => if !(w == 0 || h == 0 || w * h * 4 > u32::MAX) {
            assert(w * h * 4 >= 0 && w <= w * h * 4 && h <= w * h * 4) by (nonlinear_arith)
                requires w >= 1, h >= 1;
            let z = Seq::new((w * h * 4) as nat, |_i: int| 0u8);
            lemma_paint_shape(data, 0, 0, 0, 0, default_palette(), z, w, h, hls);
            match paint(data, 0, 0, 0, 0, default_palette(), z, w, h, hls) {
                None => {},
                Some(q) => {
                    assert((w as u32) as int == w && (h as u32) as int == h);
                    assert forall|i: int| 0 <= i < w * h implies #[trigger] q[4 * i + 3] == 0 || q[4 * i + 3] == 255 by {
                        assert((4 * i + 3) % 4 == 3);
                        assert(4 * i + 3 < q.len());
                    }
                },
            }
        },
    }
}

/// The number at `i` and the index after its digits (see `digits_from`).
fn read_digits(data: &[u8], i: usize, max: u32) -> (r: Option<(u32, usize)>)
    requires
        i <= data@.len(),
        max >= 9,
    ensures
        match digits_from(data@, i as int, 0, max as int) {
            None => r is None,
            Some((v, j)) => r == Some((v as u32, j as usize)) && i <= j <= data@.len() && 0 <= v <= max,
        },
{
    let mut acc: u32 = 0;
    let mut j: usize = i;
    while j < data.len() && 0x30 <= data[j] && data[j] <= 0x39
        invariant
            i <= j <= data@.len(),
            acc <= max,
            max >= 9,
            digits_from(data@, j as int, acc as int, max as int) == digits_from(data@, i as int, 0, max as int),
        decreases data@.len() - j,
    {
        let d = (data[j] - 0x30) as u32;
        assert(d <= 9);
        if acc > (max - d) / 10 {
            assert(acc * 10 + d > max) by (nonlinear_arith)
                requires acc > (max - d) / 10, d <= 9, d <= max;
            return None;
        }
        assert(acc * 10 + d <= max) by (nonlinear_arith)
            requires acc <= (max - d) / 10, d <= max;
        acc = acc * 10 + d;
        j += 1;
    }
    Some((acc, j))
}

/// The index after the digits and `;` from `i` (see `skip_params`).
fn skip_color_params(data: &[u8], i: usize) -> (r: usize)
    requires
        i <= data@.len(),
    ensures
        r as int == skip_params(data@, i as int),
        i <= r <= data@.len(),
{
    let mut j = i;
    while j < data.len() && ((0x30 <= data[j] && data[j] <= 0x39) || data[j] == 0x3b)
        invariant
            i <= j <= data@.len(),
            skip_params(data@, j as int) == skip_params(data@, i as int),
        decreases data@.len() - j,
    {
        j += 1;
    }
    j
}

/// The first pass (see `scan`): the extent of what `data` draws.
fn scan_dims(data: &[u8]) -> (r: Option<(u32, u32)>)
    ensures
        match scan(data@, 0, 0, 0, 0, 0) {
            None => r is None,
            Some((w, h)) => r == Some((w as u32, h as u32)) && 0 <= w <= u32::MAX && 0 <= h <= u32::MAX,
        },
{
    let mut i: usize = 0;
    let mut px: u32 = 0;
    let mut py: u32 = 0;
    let mut mx: u32 = 0;
    let mut my: u32 = 0;
    while i < data.len()
        invariant
            i <= data@.len(),
            scan(data@, i as int, px as int, py as int, mx as int, my as int) == scan(data@, 0, 0, 0, 0, 0),
        decreases data@.len() - i,
    {
        let b = data[i];
        let ghost st = scan(data@, i as int, px as int, py as int, mx as int, my as int);
        if b == 0x24 {
            px = 0;
            i += 1;
            assert(scan(data@, i as int, px as int, py as int, mx as int, my as int) == st);
        } else if b == 0x2d {
            if py > u32::MAX - 6 {
                return None;
            }
            px = 0;
            py = py + 6;
            i += 1;
            assert(scan(data@, i as int, px as int, py as int, mx as int, my as int) == st);
        } else if b == 0x23 {
            i = skip_color_params(data, i + 1);
            assert(scan(data@, i as int, px as int, py as int, mx as int, my as int) == st);
        } else if b == 0x21 {
            match read_digits(data, i + 1, u32::MAX) {
                None => {
                    return None;
                },
                Some((count, j)) => {
                    if j < data.len() && 0x3F <= data[j] && data[j] <= 0x7E {
                        if count > u32::MAX - px || py > u32::MAX - 6 {
                            return None;
                        }
                        px = px + count;
                        if px > mx {
                            mx = px;
                        }
                        if py + 6 > my {
                            my = py + 6;
                        }
                        i = j + 1;
                        assert(scan(data@, i as int, px as int, py as int, mx as int, my as int) == st);
                    } else if j < data.len() {
                        i = j + 1;
                        assert(scan(data@, i as int, px as int, py as int, mx as int, my as int) == st);
                    } else {
                        assert(scan(data@, j + 1, px as int, py as int, mx as int, my as int) == Some((mx as int, my as int)));
                        i = data.len();
                        assert(scan(data@, i as int, px as int, py as int, mx as int, my as int) == st);
                    }
                },
            }
        } else if 0x3F <= b && b <= 0x7E {
            if px == u32::MAX || py > u32::MAX - 6 {
                return None;
            }
            px = px + 1;
            if px > mx {
                mx = px;
            }
            if py + 6 > my {
                my = py + 6;
            }
            i += 1;
            assert(scan(data@, i as int, px as int, py as int, mx as int, my as int) == st);
        } else {
            i += 1;
            assert(scan(data@, i as int, px as int, py as int, mx as int, my as int) == st);
        }
    }
    Some((mx, my))
}

/// The parameters of a color definition from `k` (see `color_params`).
fn read_color_params(data: &[u8], k: usize) -> (r: Option<(Vec<u16>, usize)>)
    requires
        k <= data@.len(),
    ensures
        match color_params(data@, k as int, Seq::empty(), 0, false) {
            None => r is None,
            Some((ps, e)) => r is Some && (r->0).0@ == ps && (r->0).1 as int == e && k <= e <= data@.len(),
        },
{
    let mut ps: Vec<u16> = Vec::new();
    let mut num: u16 = 0;
    let mut has = false;
    let mut i = k;
    while i < data.len() && ((0x30 <= data[i] && data[i] <= 0x39) || data[i] == 0x3b)
        invariant
            k <= i <= data@.len(),
            color_params(data@, i as int, ps@, num as int, has) == color_params(data@, k as int, Seq::empty(), 0, false),
        decreases data@.len() - i,
    {
        if data[i] == 0x3b {
            ps.push(num);
            num = 0;
            has = false;
        } else {
            let d = (data[i] - 0x30) as u16;
            assert(d <= 9);
            if num > (u16::MAX - d) / 10 {
                assert(num * 10 + d > u16::MAX) by (nonlinear_arith)
                    requires num > (u16::MAX - d) / 10, d <= 9;
                return None;
            }
            assert(num * 10 + d <= u16::MAX) by (nonlinear_arith)
                requires num <= (u16::MAX - d) / 10, d <= 9;
            num = num * 10 + d;
            has = true;
        }
        i += 1;
    }
    if has {
        ps.push(num);
    }
    Some((ps, i))
}

/// `pct` computed.
fn pct_exec(p: u16) -> (r: u8)
    ensures
        r == pct(p),
{
    let q: u32 = if p > 100 { 100 } else { p as u32 };
    (q * 255 / 100) as u8
}

/// The color a definition with parameters `ps` gives (see `color_of`).
fn color_of_exec<H: Fn(u16, u16, u16) -> (u8, u8, u8)>(ps: &Vec<u16>, hls: &H) -> (c: SixelColor)
    requires
        ps@.len() >= 4,
        hls_ok(*hls),
    ensures
        c == color_of(ps@, hls_fn(*hls)),
{
    if ps[0] == 2 {
        SixelColor { r: pct_exec(ps[1]), g: pct_exec(ps[2]), b: pct_exec(ps[3]) }
    } else if ps[0] == 1 {
        let (r, g, b) = hls(ps[1], ps[2], ps[3]);
        proof {
            let args = (ps@[1], ps@[2], ps@[3]);
            let chosen = choose|x: (u8, u8, u8)| call_ensures(*hls, args, x);
            assert(call_ensures(*hls, args, (r, g, b)));
            assert(call_ensures(*hls, args, chosen));
            assert(chosen == (r, g, b));
        }
        SixelColor { r, g, b }
    } else {
        SixelColor { r: 0, g: 0, b: 0 }
    }
}

/// Draw one sixel column: the set bits of `sixel_val` at column `x`, rows
/// `y..y+6`, in `color` (see `draw_col`).
fn draw_sixel_column(pixels: &mut Vec<u8>, width: u32, height: u32, x: u32, y: u32, sixel_val: u8, color: &SixelColor)
    requires
        width as int * height as int * 4 <= u32::MAX,
    ensures
        final(pixels)@ == draw_col(old(pixels)@, width as int, height as int, x as int, y as int, sixel_val, *color),
{
    let mut bit: u8 = 0;
    while bit < 6
        invariant
            bit <= 6,
            width as int * height as int * 4 <= u32::MAX,
            pixels@ == draw_bits(old(pixels)@, width as int, height as int, x as int, y as int, sixel_val, *color, bit as int),
        decreases 6 - bit,
    {
        if sixel_val & (1u8 << bit) != 0 {
            let py: u64 = y as u64 + bit as u64;
            if x < width && py < height as u64 {
                assert(py * width + x < height as int * width as int) by (nonlinear_arith)
                    requires py < height, x < width;
                assert(py * width <= width as int * height as int) by (nonlinear_arith)
                    requires py < height;
                assert(py * width + x < width as int * height as int) by (nonlinear_arith)
                    requires py < height, x < width;
                let off: u64 = (py * (width as u64) + (x as u64)) * 4;
                if off + 3 < pixels.len() as u64 {
                    let o = off as usize;
                    pixels.set(o, color.r);
                    pixels.set(o + 1, color.g);
                    pixels.set(o + 2, color.b);
                    pixels.set(o + 3, 255);
                }
            }
        }
        bit += 1;
    }
}

/// The second pass (see `paint`).
fn paint_pixels<H: Fn(u16, u16, u16) -> (u8, u8, u8)>(data: &[u8], w: u32, h: u32, hls: &H) -> (r: Option<Vec<u8>>)
    requires
        w as int * h as int * 4 <= u32::MAX,
        hls_ok(*hls),
    ensures
        match paint(data@, 0, 0, 0, 0, default_palette(), Seq::new((w * h * 4) as nat, |_i: int| 0u8), w as int, h as int, hls_fn(*hls)) {
            None => r is None,
            Some(px) => r is Some && r->0@ == px,
        },
{
    let ghost conv = hls_fn(*hls);
    let n: usize = (w * h * 4) as usize;
    let mut pixels: Vec<u8> = vec![0u8; n];
    assert(pixels@ =~= Seq::new((w * h * 4) as nat, |_i: int| 0u8));
    let mut palette: HashMap<u16, SixelColor> = HashMap::new();
    init_default_sixel_palette(&mut palette);
    assert(palette@ =~= default_palette());
    let mut cur: u16 = 0;
    let mut x: u32 = 0;
    let mut y: u32 = 0;
    let mut i: usize = 0;
    while i < data.len()
        invariant
            i <= data@.len(),
            w as int * h as int * 4 <= u32::MAX,
            hls_ok(*hls),
            conv == hls_fn(*hls),
            paint(data@, i as int, x as int, y as int, cur, palette@, pixels@, w as int, h as int, conv)
                == paint(data@, 0, 0, 0, 0, default_palette(), Seq::new((w * h * 4) as nat, |_i: int| 0u8), w as int, h as int, conv),
        decreases data@.len() - i,
    {
        let b = data[i];
        if b == 0x24 {
            x = 0;
            i += 1;
        } else if b == 0x2d {
            if y > u32::MAX - 6 {
                return None;
            }
            x = 0;
            y = y + 6;
            i += 1;
        } else if b == 0x23 {
            match read_digits(data, i + 1, u16::MAX as u32) {
                None => {
                    return None;
                },
                Some((reg32, j)) => {
                    let reg = reg32 as u16;
                    if j < data.len() && data[j] == 0x3b {
                        match read_color_params(data, j + 1) {
                            None => {
                                return None;
                            },
                            Some((ps, k)) => {
                                if ps.len() >= 4 {
                                    let c = color_of_exec(&ps, hls);
                                    palette.insert(reg, c);
                                }
                                cur = reg;
                                i = k;
                            },
                        }
                    } else {
                        cur = reg;
                        i = j;
                    }
                },
            }
        } else if b == 0x21 {
            match read_digits(data, i + 1, u32::MAX) {
                None => {
                    return None;
                },
                Some((count, j)) => {
                    if j < data.len() && 0x3F <= data[j] && data[j] <= 0x7E {
                        if count > u32::MAX - x {
                            return None;
                        }
                        let val = data[j] - 0x3F;
                        let c = match palette.get(&cur) {
                            Some(c) => *c,
                            None => SixelColor { r: 255, g: 255, b: 255 },
                        };
                        let ghost px0 = pixels@;
                        let mut rep: u32 = 0;
                        while rep < count
                            invariant
                                rep <= count,
                                x as int + count as int <= u32::MAX,
                                w as int * h as int * 4 <= u32::MAX,
                                pixels@ == draw_cols(px0, w as int, h as int, x as int, y as int, val, c, rep as int),
                            decreases count - rep,
                        {
                            draw_sixel_column(&mut pixels, w, h, x + rep, y, val, &c);
                            rep += 1;
                        }
                        x = x + count;
                        i = j + 1;
                    } else if j < data.len() {
                        i = j + 1;
                    } else {
                        assert(paint(data@, j + 1, x as int, y as int, cur, palette@, pixels@, w as int, h as int, conv) == Some(pixels@));
                        i = data.len();
                    }
                },
            }
        } else if 0x3F <= b && b <= 0x7E {
            if x == u32::MAX {
                return None;
            }
            let c = match palette.get(&cur) {
                Some(c) => *c,
                None => SixelColor { r: 255, g: 255, b: 255 },
            };
            draw_sixel_column(&mut pixels, w, h, x, y, b - 0x3F, &c);
            x = x + 1;
            i += 1;
        } else {
            i += 1;
        }
    }
    Some(pixels)
}

/// Decode sixel data into an RGBA image, with HLS colors converted by
/// `hls` (see `sixel_spec`).
pub fn decode_sixel<H: Fn(u16, u16, u16) -> (u8, u8, u8)>(data: &[u8], hls: &H) -> (r: Option<DecodedImage>)
    requires
        hls_ok(*hls),
    ensures
        decoded_opt(r) == sixel_spec(data@, hls_fn(*hls)),
        sixel_shape(decoded_opt(r)),
{
    proof {
        law_sixel_image_shape(data@, hls_fn(*hls));
    }
    let (w, h) = match scan_dims(data) {
        None => return None,
        Some(d) => d,
    };
    if w == 0 || h == 0 {
        return None;
    }
    assert(w as int * h as int <= u64::MAX) by (nonlinear_arith)
        requires w <= u32::MAX, h <= u32::MAX;
    if w as u64 * h as u64 > (u32::MAX / 4) as u64 {
        return None;
    }
    match paint_pixels(data, w, h, hls) {
        None => None,
        Some(px) => Some(DecodedImage { data: px, width: w, height: h }),
    }
}

/// Whether `n` is `o` with the image `px` stored under the next auto ID and
/// placed at `(col, row)` with spans computed from its size.
pub open spec fn sixel_placed(o: ImageStoreView, n: ImageStoreView, px: (Seq<u8>, u32, u32), col: usize, row: usize) -> bool {
    let id = o.next_id;
    &&& map_stores(o.images, n.images, id, px.0, px.1, px.2)
    &&& n.next_id == advance_id(id)
    &&& n.placements == o.placements.push(placed(
        ImagePlacement { image_id: id, col: col, row: row as isize, cell_cols: 0, cell_rows: 0, src_width: px.1, src_height: px.2 },
        o.cell_width as int,
        o.cell_height as int,
    ))
}

/// Decode a sixel sequence and place the image at the cursor; nothing
/// changes when it does not decode.
pub fn process_sixel<H: Fn(u16, u16, u16) -> (u8, u8, u8)>(
    data: &[u8],
    store: &mut ImageStore,
    cursor_col: usize,
    cursor_row: usize,
    hls: &H,
)
    requires
        old(store).wf(),
        hls_ok(*hls),
    ensures
        final(store).wf(),
        final(store).cell_width_view() == old(store).cell_width_view(),
        final(store).cell_height_view() == old(store).cell_height_view(),
        match sixel_spec(data@, hls_fn(*hls)) {
            None => final(store).sview() == old(store).sview(),
            Some(px) => sixel_placed(old(store).sview(), final(store).sview(), px, cursor_col, cursor_row),
        },
{
    match decode_sixel(data, hls) {
        Some(decoded) => {
            let id = store.next_id();
            let w = decoded.width;
            let h = decoded.height;
            store.store_image(TerminalImage { id, data: decoded.data, width: w, height: h });
            store.add_placement(ImagePlacement {
                image_id: id,
                col: cursor_col,
                row: cursor_row as isize,
                cell_cols: 0,
                cell_rows: 0,
                src_width: w,
                src_height: h,
            });
        },
        None => {},
    }
}

} // verus!
