//! Glyphs drawn from rectangles rather than taken from a font: shade
//! characters, block elements and box-drawing lines, as alpha bitmaps of
//! one cell (row-major, 255 inside, 0 outside).

use vstd::prelude::*;

verus! {

/// A filled rectangle of pixels `x0 <= x < x1`, `y0 <= y < y1`.
#[derive(Debug, Clone, Copy, PartialEq, Eq, Structural)]
pub struct Rect {
    pub x0: u32,
    pub y0: u32,
    pub x1: u32,
    pub y1: u32,
}

/// Whether one of `rects` covers pixel `(x, y)`.
pub open spec fn covers(rects: Seq<Rect>, x: int, y: int) -> bool {
    exists|i: int| 0 <= i < rects.len() && #[trigger] rects[i].x0 <= x < rects[i].x1 && rects[i].y0 <= y < rects[i].y1
}

/// The `w` x `h` bitmap, row-major, with 255 on the pixels `rects` cover and
/// 0 elsewhere.
pub open spec fn rect_bitmap(w: u32, h: u32, rects: Seq<Rect>) -> Seq<u8> {
    Seq::new((w * h) as nat, |k: int| if covers(rects, k % (w as int), k / (w as int)) { 255u8 } else { 0u8 })
}

/// How a box-drawing character is drawn: the style of its left, right, up
/// and down arms (0 none, 1 thin, 2 heavy, 3 double). Dashed lines are drawn
/// solid and rounded corners square.
pub open spec fn box_segments(c: char) -> Option<(u8, u8, u8, u8)> {
    match c {
        '\u{2500}' => Some((1, 1, 0, 0)),
        '\u{2501}' => Some((2, 2, 0, 0)),
        '\u{2502}' => Some((0, 0, 1, 1)),
        '\u{2503}' => Some((0, 0, 2, 2)),
        '\u{250C}' => Some((0, 1, 0, 1)),
        '\u{2510}' => Some((1, 0, 0, 1)),
        '\u{2514}' => Some((0, 1, 1, 0)),
        '\u{2518}' => Some((1, 0, 1, 0)),
        '\u{251C}' => Some((0, 1, 1, 1)),
        '\u{2524}' => Some((1, 0, 1, 1)),
        '\u{252C}' => Some((1, 1, 0, 1)),
        '\u{2534}' => Some((1, 1, 1, 0)),
        '\u{253C}' => Some((1, 1, 1, 1)),
        '\u{254C}' => Some((1, 1, 0, 0)),
        '\u{254E}' => Some((0, 0, 1, 1)),
        '\u{2504}' => Some((1, 1, 0, 0)),
        '\u{2506}' => Some((0, 0, 1, 1)),
        '\u{2508}' => Some((1, 1, 0, 0)),
        '\u{250A}' => Some((0, 0, 1, 1)),
        '\u{250D}' => Some((0, 2, 0, 1)),
        '\u{250E}' => Some((0, 1, 0, 2)),
        '\u{250F}' => Some((0, 2, 0, 2)),
        '\u{2511}' => Some((2, 0, 0, 1)),
        '\u{2512}' => Some((1, 0, 0, 2)),
        '\u{2513}' => Some((2, 0, 0, 2)),
        '\u{2515}' => Some((0, 2, 1, 0)),
        '\u{2516}' => Some((0, 1, 2, 0)),
        '\u{2517}' => Some((0, 2, 2, 0)),
        '\u{2519}' => Some((2, 0, 1, 0)),
        '\u{251A}' => Some((1, 0, 2, 0)),
        '\u{251B}' => Some((2, 0, 2, 0)),
        '\u{251D}' => Some((0, 2, 1, 1)),
        '\u{251E}' => Some((0, 1, 2, 1)),
        '\u{251F}' => Some((0, 1, 1, 2)),
        '\u{2520}' => Some((0, 1, 2, 2)),
        '\u{2521}' => Some((0, 2, 2, 1)),
        '\u{2522}' => Some((0, 2, 1, 2)),
        '\u{2523}' => Some((0, 2, 2, 2)),
        '\u{2525}' => Some((2, 0, 1, 1)),
        '\u{2526}' => Some((1, 0, 2, 1)),
        '\u{2527}' => Some((1, 0, 1, 2)),
        '\u{2528}' => Some((1, 0, 2, 2)),
        '\u{2529}' => Some((2, 0, 2, 1)),
        '\u{252A}' => Some((2, 0, 1, 2)),
        '\u{252B}' => Some((2, 0, 2, 2)),
        '\u{252D}' => Some((2, 1, 0, 1)),
        '\u{252E}' => Some((1, 2, 0, 1)),
        '\u{252F}' => Some((2, 2, 0, 1)),
        '\u{2530}' => Some((1, 1, 0, 2)),
        '\u{2531}' => Some((2, 1, 0, 2)),
        '\u{2532}' => Some((1, 2, 0, 2)),
        '\u{2533}' => Some((2, 2, 0, 2)),
        '\u{2535}' => Some((2, 1, 1, 0)),
        '\u{2536}' => Some((1, 2, 1, 0)),
        '\u{2537}' => Some((2, 2, 1, 0)),
        '\u{2538}' => Some((1, 1, 2, 0)),
        '\u{2539}' => Some((2, 1, 2, 0)),
        '\u{253A}' => Some((1, 2, 2, 0)),
        '\u{253B}' => Some((2, 2, 2, 0)),
        '\u{253D}' => Some((2, 1, 1, 1)),
        '\u{253E}' => Some((1, 2, 1, 1)),
        '\u{253F}' => Some((2, 2, 1, 1)),
        '\u{2540}' => Some((1, 1, 2, 1)),
        '\u{2541}' => Some((1, 1, 1, 2)),
        '\u{2542}' => Some((1, 1, 2, 2)),
        '\u{2543}' => Some((2, 1, 2, 1)),
        '\u{2544}' => Some((1, 2, 2, 1)),
        '\u{2545}' => Some((2, 1, 1, 2)),
        '\u{2546}' => Some((1, 2, 1, 2)),
        '\u{2547}' => Some((2, 2, 2, 1)),
        '\u{2548}' => Some((2, 2, 1, 2)),
        '\u{2549}' => Some((2, 1, 2, 2)),
        '\u{254A}' => Some((1, 2, 2, 2)),
        '\u{254B}' => Some((2, 2, 2, 2)),
        '\u{2550}' => Some((3, 3, 0, 0)),
        '\u{2551}' => Some((0, 0, 3, 3)),
        '\u{2554}' => Some((0, 3, 0, 3)),
        '\u{2557}' => Some((3, 0, 0, 3)),
        '\u{255A}' => Some((0, 3, 3, 0)),
        '\u{255D}' => Some((3, 0, 3, 0)),
        '\u{2560}' => Some((0, 3, 3, 3)),
        '\u{2563}' => Some((3, 0, 3, 3)),
        '\u{2566}' => Some((3, 3, 0, 3)),
        '\u{2569}' => Some((3, 3, 3, 0)),
        '\u{256C}' => Some((3, 3, 3, 3)),
        '\u{2552}' => Some((0, 3, 0, 1)),
        '\u{2553}' => Some((0, 1, 0, 3)),
        '\u{2555}' => Some((3, 0, 0, 1)),
        '\u{2556}' => Some((1, 0, 0, 3)),
        '\u{2558}' => Some((0, 3, 1, 0)),
        '\u{2559}' => Some((0, 1, 3, 0)),
        '\u{255B}' => Some((3, 0, 1, 0)),
        '\u{255C}' => Some((1, 0, 3, 0)),
        '\u{255E}' => Some((0, 3, 1, 1)),
        '\u{255F}' => Some((0, 1, 3, 3)),
        '\u{2561}' => Some((3, 0, 1, 1)),
        '\u{2562}' => Some((1, 0, 3, 3)),
        '\u{2564}' => Some((3, 3, 0, 1)),
        '\u{2565}' => Some((1, 1, 0, 3)),
        '\u{2567}' => Some((3, 3, 1, 0)),
        '\u{2568}' => Some((1, 1, 3, 0)),
        '\u{256A}' => Some((3, 3, 1, 1)),
        '\u{256B}' => Some((1, 1, 3, 3)),
        '\u{256D}' => Some((0, 1, 0, 1)),
        '\u{256E}' => Some((1, 0, 0, 1)),
        '\u{256F}' => Some((1, 0, 1, 0)),
        '\u{2570}' => Some((0, 1, 1, 0)),
        _ => None,
    }
}

/// The thin line width for cells `w` pixels wide: a tenth, at least one.
pub open spec fn thin_width(w: u32) -> u32 {
    if w / 10 > 1 { w / 10 } else { 1 }
}

/// The heavy line width: twice thin (at least two), at most a quarter of
/// the cell width.
pub open spec fn heavy_width(w: u32) -> u32 {
    let d = if 2 * thin_width(w) > 2 { (2 * thin_width(w)) as u32 } else { 2u32 };
    if d < w / 4 { d } else { w / 4 }
}

/// `a - b`, or 0 when `b > a`.
pub open spec fn sat_sub(a: u32, b: u32) -> u32 {
    if a >= b { (a - b) as u32 } else { 0 }
}

/// The rectangles of one arm (`dir`: 0 left, 1 right, 2 up, 3 down) drawn
/// with line width `t` from the cell center `(cx, cy)`: one bar, or two
/// parallel bars `gap` from the center line for a double line.
pub open spec fn arm_rects(dir: int, t: u32, double: bool, w: u32, h: u32) -> Seq<Rect> {
    let cx = w / 2;
    let cy = h / 2;
    if double {
        let gap = if t + 1 > 2 { (t + 1) as u32 } else { 2u32 };
        let tt = if t > 1 { t } else { 1u32 };
        if dir == 0 {
            seq![
                Rect { x0: 0, y0: (cy - gap) as u32, x1: cx, y1: (cy - gap + tt) as u32 },
                Rect { x0: 0, y0: (cy + gap - tt) as u32, x1: cx, y1: (cy + gap) as u32 },
            ]
        } else if dir == 1 {
            seq![
                Rect { x0: cx, y0: (cy - gap) as u32, x1: w, y1: (cy - gap + tt) as u32 },
                Rect { x0: cx, y0: (cy + gap - tt) as u32, x1: w, y1: (cy + gap) as u32 },
            ]
        } else if dir == 2 {
            seq![
                Rect { x0: (cx - gap) as u32, y0: 0, x1: (cx - gap + tt) as u32, y1: cy },
                Rect { x0: (cx + gap - tt) as u32, y0: 0, x1: (cx + gap) as u32, y1: cy },
            ]
        } else {
            seq![
                Rect { x0: (cx - gap) as u32, y0: cy, x1: (cx - gap + tt) as u32, y1: h },
                Rect { x0: (cx + gap - tt) as u32, y0: cy, x1: (cx + gap) as u32, y1: h },
            ]
        }
    } else {
        let half = t / 2;
        if dir == 0 {
            seq![Rect { x0: 0, y0: sat_sub(cy, half), x1: (cx + half) as u32, y1: (cy + t - half) as u32 }]
        } else if dir == 1 {
            seq![Rect { x0: sat_sub(cx, half), y0: sat_sub(cy, half), x1: w, y1: (cy + t - half) as u32 }]
        } else if dir == 2 {
            seq![Rect { x0: sat_sub(cx, half), y0: 0, x1: (cx + t - half) as u32, y1: (cy + half) as u32 }]
        } else {
            seq![Rect { x0: sat_sub(cx, half), y0: sat_sub(cy, half), x1: (cx + t - half) as u32, y1: h }]
        }
    }
}

/// The rectangles of an arm of style `style` (0 draws nothing).
pub open spec fn styled_arm(dir: int, style: u8, w: u32, h: u32) -> Seq<Rect> {
    if style == 0 {
        Seq::empty()
    } else if style == 2 {
        arm_rects(dir, heavy_width(w), false, w, h)
    } else {
        arm_rects(dir, thin_width(w), style == 3, w, h)
    }
}

/// The rectangles of a box-drawing glyph with arm styles `s`.
pub open spec fn box_rects(s: (u8, u8, u8, u8), w: u32, h: u32) -> Seq<Rect> {
    styled_arm(0, s.0, w, h) + styled_arm(1, s.1, w, h) + styled_arm(2, s.2, w, h) + styled_arm(3, s.3, w, h)
}

/// Whether a cell of `w` x `h` pixels is large enough for the double lines
/// of arm styles `s`: their bars sit `thin + 1` pixels from the center.
pub open spec fn double_lines_fit(s: (u8, u8, u8, u8), w: u32, h: u32) -> bool {
    &&& (s.0 == 3 || s.1 == 3) ==> h / 2 >= thin_width(w) + 1
    &&& (s.2 == 3 || s.3 == 3) ==> w / 2 >= thin_width(w) + 1
}

/// The block-element rectangles of `c` (half blocks and quadrants), if it
/// is one.
pub open spec fn block_rects(c: char, w: u32, h: u32) -> Option<Seq<Rect>> {
    let hw = w / 2;
    let hh = h / 2;
    match c {
        '\u{2588}' => Some(seq![Rect { x0: 0, y0: 0, x1: w, y1: h }]),
        '\u{2580}' => Some(seq![Rect { x0: 0, y0: 0, x1: w, y1: hh }]),
        '\u{2584}' => Some(seq![Rect { x0: 0, y0: hh, x1: w, y1: h }]),
        '\u{258C}' => Some(seq![Rect { x0: 0, y0: 0, x1: hw, y1: h }]),
        '\u{2590}' => Some(seq![Rect { x0: hw, y0: 0, x1: w, y1: h }]),
        '\u{2596}' => Some(seq![Rect { x0: 0, y0: hh, x1: hw, y1: h }]),
        '\u{2597}' => Some(seq![Rect { x0: hw, y0: hh, x1: w, y1: h }]),
        '\u{2598}' => Some(seq![Rect { x0: 0, y0: 0, x1: hw, y1: hh }]),
        '\u{259D}' => Some(seq![Rect { x0: hw, y0: 0, x1: w, y1: hh }]),
        '\u{2599}' => Some(seq![Rect { x0: 0, y0: 0, x1: hw, y1: h }, Rect { x0: hw, y0: hh, x1: w, y1: h }]),
        '\u{259B}' => Some(seq![Rect { x0: 0, y0: 0, x1: w, y1: hh }, Rect { x0: 0, y0: hh, x1: hw, y1: h }]),
        '\u{259C}' => Some(seq![Rect { x0: 0, y0: 0, x1: w, y1: hh }, Rect { x0: hw, y0: hh, x1: w, y1: h }]),
        '\u{259F}' => Some(seq![Rect { x0: hw, y0: 0, x1: w, y1: hh }, Rect { x0: 0, y0: hh, x1: w, y1: h }]),
        _ => None,
    }
}

/// The alpha of a shade character (light, medium, dark), if it is one.
pub open spec fn shade_alpha(c: char) -> Option<u8> {
    match c {
        '\u{2591}' => Some(64u8),
        '\u{2592}' => Some(128u8),
        '\u{2593}' => Some(192u8),
        _ => None,
    }
}

/// A glyph drawn without the font: a bitmap computed here, or one of the
/// symbols drawn from curves (reverse solidus, right-pointing triangle,
/// check mark, record circle).
pub enum ProceduralGlyph {
    Bitmap(Vec<u8>),
    Backslash,
    RightTriangle,
    CheckMark,
    FilledCircle,
}

/// What the procedural glyph of `c` is, as a bitmap's bytes or a symbol
/// (a symbol is given as an empty bitmap with its tag), or `None` when the
/// font draws `c`.
pub enum GlyphPlan {
    Pixels(Seq<u8>),
    Symbol(int),
}

/// The plan for `c` in a `w` x `h` cell.
pub open spec fn procedural_plan(c: char, w: u32, h: u32) -> Option<GlyphPlan> {
    if c == '\\' {
        Some(GlyphPlan::Symbol(0))
    } else if c == '\u{23F5}' {
        Some(GlyphPlan::Symbol(1))
    } else if c == '\u{2714}' {
        Some(GlyphPlan::Symbol(2))
    } else if c == '\u{23FA}' {
        Some(GlyphPlan::Symbol(3))
    } else if shade_alpha(c) is Some {
        Some(GlyphPlan::Pixels(Seq::new((w * h) as nat, |k: int| shade_alpha(c)->0)))
    } else if '\u{2500}' <= c <= '\u{257F}' {
        match box_segments(c) {
            Some(s) => Some(GlyphPlan::Pixels(rect_bitmap(w, h, box_rects(s, w, h)))),
            None => None,
        }
    } else {
        match block_rects(c, w, h) {
            Some(r) => Some(GlyphPlan::Pixels(rect_bitmap(w, h, r))),
            None => None,
        }
    }
}

/// The plan a procedural glyph carries out.
pub open spec fn plan_of(g: ProceduralGlyph) -> GlyphPlan {
    match g {
        ProceduralGlyph::Bitmap(b) => GlyphPlan::Pixels(b@),
        ProceduralGlyph::Backslash => GlyphPlan::Symbol(0),
        ProceduralGlyph::RightTriangle => GlyphPlan::Symbol(1),
        ProceduralGlyph::CheckMark => GlyphPlan::Symbol(2),
        ProceduralGlyph::FilledCircle => GlyphPlan::Symbol(3),
    }
}

/// Whether the cell size can be drawn for `c`: the bitmap's size fits in
/// 32 bits and double lines fit in the cell.
pub open spec fn procedural_fits(c: char, w: u32, h: u32) -> bool {
    &&& w * h <= u32::MAX
    &&& match box_segments(c) {
        Some(s) => double_lines_fit(s, w, h),
        None => true,
    }
}

/// Whether one of `rects` covers `(x, y)`.
fn covered(rects: &Vec<Rect>, x: u32, y: u32) -> (r: bool)
    ensures
        r == covers(rects@, x as int, y as int),
{
    let mut i: usize = 0;
    while i < rects.len()
        invariant
            i <= rects@.len(),
            forall|j: int| 0 <= j < i ==> !(#[trigger] rects@[j].x0 <= x < rects@[j].x1 && rects@[j].y0 <= y < rects@[j].y1),
        decreases rects@.len() - i,
    {
        let r = rects[i];
        if r.x0 <= x && x < r.x1 && r.y0 <= y && y < r.y1 {
            assert(rects@[i as int].x0 <= x < rects@[i as int].x1 && rects@[i as int].y0 <= y < rects@[i as int].y1);
            return true;
        }
        i += 1;
    }
    false
}

/// The `w` x `h` bitmap of `rects` (see `rect_bitmap`).
pub fn fill_rects(w: u32, h: u32, rects: &Vec<Rect>) -> (b: Vec<u8>)
    requires
        w * h <= u32::MAX,
    ensures
        b@ == rect_bitmap(w, h, rects@),
{
    let n: u32 = w * h;
    let mut b: Vec<u8> = Vec::new();
    let mut k: u32 = 0;
    while k < n
        invariant
            k <= n,
            n == w * h,
            b@ =~= rect_bitmap(w, h, rects@).take(k as int),
        decreases n - k,
    {
        proof {
            if w == 0 {
                assert(w * h == 0) by (nonlinear_arith)
                    requires
                        w == 0,
                ;
            }
        }
        let x = k % w;
        let y = k / w;
        let v: u8 = if covered(rects, x, y) { 255 } else { 0 };
        b.push(v);
        k += 1;
        assert(b@ =~= rect_bitmap(w, h, rects@).take(k as int));
    }
    b
}

/// A bitmap of `w * h` pixels all of alpha `a`.
fn uniform(w: u32, h: u32, a: u8) -> (b: Vec<u8>)
    requires
        w * h <= u32::MAX,
    ensures
        b@ == Seq::new((w * h) as nat, |k: int| a),
{
    let n: u32 = w * h;
    let mut b: Vec<u8> = Vec::new();
    let mut k: u32 = 0;
    while k < n
        invariant
            k <= n,
            n == w * h,
            b@ =~= Seq::new(k as nat, |j: int| a),
        decreases n - k,
    {
        b.push(a);
        k += 1;
    }
    b
}

/// The arm styles of box-drawing character `c` (see `box_segments`).
pub fn box_segments_of(c: char) -> (r: Option<(u8, u8, u8, u8)>)
    ensures
        r == box_segments(c),
{
    match c {
        '\u{2500}' => Some((1, 1, 0, 0)),
        '\u{2501}' => Some((2, 2, 0, 0)),
        '\u{2502}' => Some((0, 0, 1, 1)),
        '\u{2503}' => Some((0, 0, 2, 2)),
        '\u{250C}' => Some((0, 1, 0, 1)),
        '\u{2510}' => Some((1, 0, 0, 1)),
        '\u{2514}' => Some((0, 1, 1, 0)),
        '\u{2518}' => Some((1, 0, 1, 0)),
        '\u{251C}' => Some((0, 1, 1, 1)),
        '\u{2524}' => Some((1, 0, 1, 1)),
        '\u{252C}' => Some((1, 1, 0, 1)),
        '\u{2534}' => Some((1, 1, 1, 0)),
        '\u{253C}' => Some((1, 1, 1, 1)),
        '\u{254C}' => Some((1, 1, 0, 0)),
        '\u{254E}' => Some((0, 0, 1, 1)),
        '\u{2504}' => Some((1, 1, 0, 0)),
        '\u{2506}' => Some((0, 0, 1, 1)),
        '\u{2508}' => Some((1, 1, 0, 0)),
        '\u{250A}' => Some((0, 0, 1, 1)),
        '\u{250D}' => Some((0, 2, 0, 1)),
        '\u{250E}' => Some((0, 1, 0, 2)),
        '\u{250F}' => Some((0, 2, 0, 2)),
        '\u{2511}' => Some((2, 0, 0, 1)),
        '\u{2512}' => Some((1, 0, 0, 2)),
        '\u{2513}' => Some((2, 0, 0, 2)),
        '\u{2515}' => Some((0, 2, 1, 0)),
        '\u{2516}' => Some((0, 1, 2, 0)),
        '\u{2517}' => Some((0, 2, 2, 0)),
        '\u{2519}' => Some((2, 0, 1, 0)),
        '\u{251A}' => Some((1, 0, 2, 0)),
        '\u{251B}' => Some((2, 0, 2, 0)),
        '\u{251D}' => Some((0, 2, 1, 1)),
        '\u{251E}' => Some((0, 1, 2, 1)),
        '\u{251F}' => Some((0, 1, 1, 2)),
        '\u{2520}' => Some((0, 1, 2, 2)),
        '\u{2521}' => Some((0, 2, 2, 1)),
        '\u{2522}' => Some((0, 2, 1, 2)),
        '\u{2523}' => Some((0, 2, 2, 2)),
        '\u{2525}' => Some((2, 0, 1, 1)),
        '\u{2526}' => Some((1, 0, 2, 1)),
        '\u{2527}' => Some((1, 0, 1, 2)),
        '\u{2528}' => Some((1, 0, 2, 2)),
        '\u{2529}' => Some((2, 0, 2, 1)),
        '\u{252A}' => Some((2, 0, 1, 2)),
        '\u{252B}' => Some((2, 0, 2, 2)),
        '\u{252D}' => Some((2, 1, 0, 1)),
        '\u{252E}' => Some((1, 2, 0, 1)),
        '\u{252F}' => Some((2, 2, 0, 1)),
        '\u{2530}' => Some((1, 1, 0, 2)),
        '\u{2531}' => Some((2, 1, 0, 2)),
        '\u{2532}' => Some((1, 2, 0, 2)),
        '\u{2533}' => Some((2, 2, 0, 2)),
        '\u{2535}' => Some((2, 1, 1, 0)),
        '\u{2536}' => Some((1, 2, 1, 0)),
        '\u{2537}' => Some((2, 2, 1, 0)),
        '\u{2538}' => Some((1, 1, 2, 0)),
        '\u{2539}' => Some((2, 1, 2, 0)),
        '\u{253A}' => Some((1, 2, 2, 0)),
        '\u{253B}' => Some((2, 2, 2, 0)),
        '\u{253D}' => Some((2, 1, 1, 1)),
        '\u{253E}' => Some((1, 2, 1, 1)),
        '\u{253F}' => Some((2, 2, 1, 1)),
        '\u{2540}' => Some((1, 1, 2, 1)),
        '\u{2541}' => Some((1, 1, 1, 2)),
        '\u{2542}' => Some((1, 1, 2, 2)),
        '\u{2543}' => Some((2, 1, 2, 1)),
        '\u{2544}' => Some((1, 2, 2, 1)),
        '\u{2545}' => Some((2, 1, 1, 2)),
        '\u{2546}' => Some((1, 2, 1, 2)),
        '\u{2547}' => Some((2, 2, 2, 1)),
        '\u{2548}' => Some((2, 2, 1, 2)),
        '\u{2549}' => Some((2, 1, 2, 2)),
        '\u{254A}' => Some((1, 2, 2, 2)),
        '\u{254B}' => Some((2, 2, 2, 2)),
        '\u{2550}' => Some((3, 3, 0, 0)),
        '\u{2551}' => Some((0, 0, 3, 3)),
        '\u{2554}' => Some((0, 3, 0, 3)),
        '\u{2557}' => Some((3, 0, 0, 3)),
        '\u{255A}' => Some((0, 3, 3, 0)),
        '\u{255D}' => Some((3, 0, 3, 0)),
        '\u{2560}' => Some((0, 3, 3, 3)),
        '\u{2563}' => Some((3, 0, 3, 3)),
        '\u{2566}' => Some((3, 3, 0, 3)),
        '\u{2569}' => Some((3, 3, 3, 0)),
        '\u{256C}' => Some((3, 3, 3, 3)),
        '\u{2552}' => Some((0, 3, 0, 1)),
        '\u{2553}' => Some((0, 1, 0, 3)),
        '\u{2555}' => Some((3, 0, 0, 1)),
        '\u{2556}' => Some((1, 0, 0, 3)),
        '\u{2558}' => Some((0, 3, 1, 0)),
        '\u{2559}' => Some((0, 1, 3, 0)),
        '\u{255B}' => Some((3, 0, 1, 0)),
        '\u{255C}' => Some((1, 0, 3, 0)),
        '\u{255E}' => Some((0, 3, 1, 1)),
        '\u{255F}' => Some((0, 1, 3, 3)),
        '\u{2561}' => Some((3, 0, 1, 1)),
        '\u{2562}' => Some((1, 0, 3, 3)),
        '\u{2564}' => Some((3, 3, 0, 1)),
        '\u{2565}' => Some((1, 1, 0, 3)),
        '\u{2567}' => Some((3, 3, 1, 0)),
        '\u{2568}' => Some((1, 1, 3, 0)),
        '\u{256A}' => Some((3, 3, 1, 1)),
        '\u{256B}' => Some((1, 1, 3, 3)),
        '\u{256D}' => Some((0, 1, 0, 1)),
        '\u{256E}' => Some((1, 0, 0, 1)),
        '\u{256F}' => Some((1, 0, 1, 0)),
        '\u{2570}' => Some((0, 1, 1, 0)),
        _ => None,
    }
}

/// Append the two bars of a double arm (see `arm_rects`).
#[verifier::spinoff_prover]
fn push_double_arm(rects: &mut Vec<Rect>, dir: u32, w: u32, h: u32)
    requires
        dir <= 3,
        dir <= 1 ==> h / 2 >= thin_width(w) + 1,
        dir >= 2 ==> w / 2 >= thin_width(w) + 1,
    ensures
        final(rects)@ == old(rects)@ + arm_rects(dir as int, thin_width(w), true, w, h),
{
    let thin: u32 = if w / 10 > 1 { w / 10 } else { 1 };
    let cx = w / 2;
    let cy = h / 2;
    let gap: u32 = thin + 1;
    let t: u32 = thin;
    if dir == 0 {
        rects.push(Rect { x0: 0, y0: cy - gap, x1: cx, y1: cy - gap + t });
        rects.push(Rect { x0: 0, y0: cy + gap - t, x1: cx, y1: cy + gap });
    } else if dir == 1 {
        rects.push(Rect { x0: cx, y0: cy - gap, x1: w, y1: cy - gap + t });
        rects.push(Rect { x0: cx, y0: cy + gap - t, x1: w, y1: cy + gap });
    } else if dir == 2 {
        rects.push(Rect { x0: cx - gap, y0: 0, x1: cx - gap + t, y1: cy });
        rects.push(Rect { x0: cx + gap - t, y0: 0, x1: cx + gap, y1: cy });
    } else {
        rects.push(Rect { x0: cx - gap, y0: cy, x1: cx - gap + t, y1: h });
        rects.push(Rect { x0: cx + gap - t, y0: cy, x1: cx + gap, y1: h });
    }
    assert(rects@ =~= old(rects)@ + arm_rects(dir as int, thin_width(w), true, w, h));
}

/// Append the bar of a single arm of line width `t` (see `arm_rects`).
#[verifier::spinoff_prover]
fn push_single_arm(rects: &mut Vec<Rect>, dir: u32, t: u32, w: u32, h: u32)
    requires
        dir <= 3,
        t <= w / 4 + 1,
    ensures
        final(rects)@ == old(rects)@ + arm_rects(dir as int, t, false, w, h),
{
    let cx = w / 2;
    let cy = h / 2;
    let half = t / 2;
    let sx = if cx >= half { cx - half } else { 0 };
    let sy = if cy >= half { cy - half } else { 0 };
    if dir == 0 {
        rects.push(Rect { x0: 0, y0: sy, x1: cx + half, y1: cy + t - half });
    } else if dir == 1 {
        rects.push(Rect { x0: sx, y0: sy, x1: w, y1: cy + t - half });
    } else if dir == 2 {
        rects.push(Rect { x0: sx, y0: 0, x1: cx + t - half, y1: cy + half });
    } else {
        rects.push(Rect { x0: sx, y0: sy, x1: cx + t - half, y1: h });
    }
    assert(rects@ =~= old(rects)@ + arm_rects(dir as int, t, false, w, h));
}

/// Append the rectangles of one arm (see `styled_arm`).
fn push_arm(rects: &mut Vec<Rect>, dir: u32, style: u8, w: u32, h: u32)
    requires
        dir <= 3,
        style == 3 && dir <= 1 ==> h / 2 >= thin_width(w) + 1,
        style == 3 && dir >= 2 ==> w / 2 >= thin_width(w) + 1,
    ensures
        final(rects)@ == old(rects)@ + styled_arm(dir as int, style, w, h),
{
    if style == 0 {
        assert(old(rects)@ + Seq::<Rect>::empty() =~= old(rects)@);
        return;
    }
    if style == 3 {
        push_double_arm(rects, dir, w, h);
        return;
    }
    let thin: u32 = if w / 10 > 1 { w / 10 } else { 1 };
    let t: u32 = if style == 2 {
        let d: u32 = if 2 * thin > 2 { 2 * thin } else { 2 };
        if d < w / 4 { d } else { w / 4 }
    } else {
        thin
    };
    push_single_arm(rects, dir, t, w, h);
}

/// The bitmap of a box-drawing glyph with arm styles `s` (see `box_rects`).
pub fn box_bitmap(s: (u8, u8, u8, u8), w: u32, h: u32) -> (b: Vec<u8>)
    requires
        w * h <= u32::MAX,
        double_lines_fit(s, w, h),
    ensures
        b@ == rect_bitmap(w, h, box_rects(s, w, h)),
{
    let mut rects: Vec<Rect> = Vec::new();
    push_arm(&mut rects, 0, s.0, w, h);
    push_arm(&mut rects, 1, s.1, w, h);
    push_arm(&mut rects, 2, s.2, w, h);
    push_arm(&mut rects, 3, s.3, w, h);
    assert(rects@ =~= box_rects(s, w, h));
    fill_rects(w, h, &rects)
}

/// The block-element rectangles of `c` (see `block_rects`).
fn block_rects_of(c: char, w: u32, h: u32) -> (r: Option<Vec<Rect>>)
    ensures
        match block_rects(c, w, h) {
            None => r is None,
            Some(s) => r is Some && r->0@ == s,
        },
{
    let hw = w / 2;
    let hh = h / 2;
    let v: Vec<Rect> = match c {
        '\u{2588}' => vec![Rect { x0: 0, y0: 0, x1: w, y1: h }],
        '\u{2580}' => vec![Rect { x0: 0, y0: 0, x1: w, y1: hh }],
        '\u{2584}' => vec![Rect { x0: 0, y0: hh, x1: w, y1: h }],
        '\u{258C}' => vec![Rect { x0: 0, y0: 0, x1: hw, y1: h }],
        '\u{2590}' => vec![Rect { x0: hw, y0: 0, x1: w, y1: h }],
        '\u{2596}' => vec![Rect { x0: 0, y0: hh, x1: hw, y1: h }],
        '\u{2597}' => vec![Rect { x0: hw, y0: hh, x1: w, y1: h }],
        '\u{2598}' => vec![Rect { x0: 0, y0: 0, x1: hw, y1: hh }],
        '\u{259D}' => vec![Rect { x0: hw, y0: 0, x1: w, y1: hh }],
        '\u{2599}' => vec![Rect { x0: 0, y0: 0, x1: hw, y1: h }, Rect { x0: hw, y0: hh, x1: w, y1: h }],
        '\u{259B}' => vec![Rect { x0: 0, y0: 0, x1: w, y1: hh }, Rect { x0: 0, y0: hh, x1: hw, y1: h }],
        '\u{259C}' => vec![Rect { x0: 0, y0: 0, x1: w, y1: hh }, Rect { x0: hw, y0: hh, x1: w, y1: h }],
        '\u{259F}' => vec![Rect { x0: hw, y0: 0, x1: w, y1: hh }, Rect { x0: 0, y0: hh, x1: w, y1: h }],
        _ => {
            return None;
        },
    };
    assert(v@ =~= block_rects(c, w, h)->0);
    Some(v)
}

/// Whether `c` lies in `lo..=hi`.
pub open spec fn in_range(c: char, lo: u32, hi: u32) -> bool {
    lo <= (c as u32) <= hi
}

/// Whether `c` may be missing from the primary font, so that fallback fonts
/// are tried: private use areas (Nerd Font icons), box drawing and blocks,
/// arrows, mathematical and technical symbols, enclosed alphanumerics,
/// geometric shapes, miscellaneous symbols, dingbats, Braille, CJK,
/// Hangul, full-width forms, and mahjong and domino tiles.
pub open spec fn needs_fallback(c: char) -> bool {
    ||| in_range(c, 0xE000, 0xF8FF)
    ||| in_range(c, 0xF0000, 0xFFFFF)
    ||| in_range(c, 0x2500, 0x257F)
    ||| in_range(c, 0x2580, 0x259F)
    ||| in_range(c, 0x2190, 0x21FF)
    ||| in_range(c, 0x2200, 0x22FF)
    ||| in_range(c, 0x2300, 0x23FF)
    ||| in_range(c, 0x2460, 0x24FF)
    ||| in_range(c, 0x25A0, 0x25FF)
    ||| in_range(c, 0x2600, 0x26FF)
    ||| in_range(c, 0x2700, 0x27BF)
    ||| in_range(c, 0x27C0, 0x27EF)
    ||| in_range(c, 0x27F0, 0x27FF)
    ||| in_range(c, 0x2800, 0x28FF)
    ||| in_range(c, 0x2900, 0x297F)
    ||| in_range(c, 0x2B00, 0x2BFF)
    ||| in_range(c, 0x3000, 0x9FFF)
    ||| in_range(c, 0xF900, 0xFAFF)
    ||| in_range(c, 0xAC00, 0xD7AF)
    ||| in_range(c, 0xFF00, 0xFFEF)
    ||| in_range(c, 0xFE30, 0xFE4F)
    ||| in_range(c, 0xFE50, 0xFE6F)
    ||| in_range(c, 0x20000, 0x2A6DF)
    ||| in_range(c, 0x2A700, 0x2B73F)
    ||| in_range(c, 0x1F000, 0x1F02F)
    ||| in_range(c, 0x1F030, 0x1F09F)
}

/// Whether `c` is best drawn with the CJK fallback font: CJK ideographs,
/// kana, Hangul, full-width and compatibility forms, and the shapes,
/// symbols and enclosed alphanumerics that CJK fonts draw full-width.
pub open spec fn cjk_font_char(c: char) -> bool {
    ||| in_range(c, 0x3000, 0x9FFF)
    ||| in_range(c, 0xF900, 0xFAFF)
    ||| in_range(c, 0xAC00, 0xD7AF)
    ||| in_range(c, 0xFF00, 0xFFEF)
    ||| in_range(c, 0xFE30, 0xFE4F)
    ||| in_range(c, 0xFE50, 0xFE6F)
    ||| in_range(c, 0x25A0, 0x25FF)
    ||| in_range(c, 0x2600, 0x26FF)
    ||| in_range(c, 0x2460, 0x24FF)
    ||| in_range(c, 0x20000, 0x2A6DF)
    ||| in_range(c, 0x2A700, 0x2B73F)
}

/// Whether fallback fonts are tried for `c` (see `needs_fallback`).
pub fn needs_fallback_check(c: char) -> (r: bool)
    ensures
        r == needs_fallback(c),
{
    let u = c as u32;
    (0xE000 <= u && u <= 0xF8FF) || (0xF0000 <= u && u <= 0xFFFFF) || (0x2500 <= u && u <= 0x257F)
        || (0x2580 <= u && u <= 0x259F) || (0x2190 <= u && u <= 0x21FF) || (0x2200 <= u && u <= 0x22FF)
        || (0x2300 <= u && u <= 0x23FF) || (0x2460 <= u && u <= 0x24FF) || (0x25A0 <= u && u <= 0x25FF)
        || (0x2600 <= u && u <= 0x26FF) || (0x2700 <= u && u <= 0x27BF) || (0x27C0 <= u && u <= 0x27EF)
        || (0x27F0 <= u && u <= 0x27FF) || (0x2800 <= u && u <= 0x28FF) || (0x2900 <= u && u <= 0x297F)
        || (0x2B00 <= u && u <= 0x2BFF) || (0x3000 <= u && u <= 0x9FFF) || (0xF900 <= u && u <= 0xFAFF)
        || (0xAC00 <= u && u <= 0xD7AF) || (0xFF00 <= u && u <= 0xFFEF) || (0xFE30 <= u && u <= 0xFE4F)
        || (0xFE50 <= u && u <= 0xFE6F) || (0x20000 <= u && u <= 0x2A6DF) || (0x2A700 <= u && u <= 0x2B73F)
        || (0x1F000 <= u && u <= 0x1F02F) || (0x1F030 <= u && u <= 0x1F09F)
}

/// Whether `c` is drawn with the CJK fallback font (see `cjk_font_char`).
pub fn is_cjk(c: char) -> (r: bool)
    ensures
        r == cjk_font_char(c),
{
    let u = c as u32;
    (0x3000 <= u && u <= 0x9FFF) || (0xF900 <= u && u <= 0xFAFF) || (0xAC00 <= u && u <= 0xD7AF)
        || (0xFF00 <= u && u <= 0xFFEF) || (0xFE30 <= u && u <= 0xFE4F) || (0xFE50 <= u && u <= 0xFE6F)
        || (0x25A0 <= u && u <= 0x25FF) || (0x2600 <= u && u <= 0x26FF) || (0x2460 <= u && u <= 0x24FF)
        || (0x20000 <= u && u <= 0x2A6DF) || (0x2A700 <= u && u <= 0x2B73F)
}

/// Whether the primary font lacks `c`: its bitmap has no size, the font has
/// no glyph for it (glyph index 0), or, for a character that may need a
/// fallback, every pixel of the bitmap is blank.
pub open spec fn primary_missing_spec(c: char, width: u32, height: u32, glyph_index: u16, bitmap: Seq<u8>) -> bool {
    ||| width == 0
    ||| height == 0
    ||| glyph_index == 0
    ||| (needs_fallback(c) && forall|i: int| 0 <= i < bitmap.len() ==> bitmap[i] == 0)
}

/// Whether the primary font lacks `c` (see `primary_missing_spec`).
pub fn primary_missing(c: char, width: u32, height: u32, glyph_index: u16, bitmap: &[u8]) -> (r: bool)
    ensures
        r == primary_missing_spec(c, width, height, glyph_index, bitmap@),
{
    if width == 0 || height == 0 || glyph_index == 0 {
        return true;
    }
    if !needs_fallback_check(c) {
        return false;
    }
    let mut i: usize = 0;
    while i < bitmap.len()
        invariant
            i <= bitmap@.len(),
            width != 0 && height != 0 && glyph_index != 0,
            needs_fallback(c),
            forall|k: int| 0 <= k < i ==> bitmap@[k] == 0,
        decreases bitmap@.len() - i,
    {
        if bitmap[i] != 0 {
            assert(bitmap@[i as int] != 0);
            return false;
        }
        i += 1;
    }
    true
}

/// The font a glyph is drawn with.
#[derive(Debug, Clone, Copy, PartialEq, Eq, Structural)]
pub enum FontChoice {
    /// The primary font (also when no other font has the glyph).
    Primary,
    /// The CJK fallback font.
    Cjk,
    /// The Nerd Font fallback.
    Fallback,
    /// The symbols font.
    Symbols,
}

/// The font that draws `c`, given whether the primary font lacks it and
/// whether the CJK, Nerd Font and symbols fonts are loaded and have a glyph
/// for it. For CJK characters the CJK font comes first for ideographs and
/// kana (U+3000 on) or when ambiguous characters are wide, else only when
/// the primary font lacks the glyph; for other characters that may need a
/// fallback the Nerd Font comes before the symbols font, for any other
/// character the primary font lacks the symbols font comes first.
pub open spec fn fallback_font_spec(
    c: char,
    cjk_width: bool,
    primary_missing: bool,
    has_cjk: bool,
    has_fallback: bool,
    has_symbols: bool,
) -> FontChoice {
    if cjk_font_char(c) {
        if c >= '\u{3000}' || cjk_width {
            if has_cjk {
                FontChoice::Cjk
            } else if !primary_missing {
                FontChoice::Primary
            } else if has_fallback {
                FontChoice::Fallback
            } else {
                FontChoice::Primary
            }
        } else if !primary_missing {
            FontChoice::Primary
        } else if has_cjk {
            FontChoice::Cjk
        } else if has_fallback {
            FontChoice::Fallback
        } else {
            FontChoice::Primary
        }
    } else if primary_missing && needs_fallback(c) {
        if has_fallback {
            FontChoice::Fallback
        } else if has_symbols {
            FontChoice::Symbols
        } else {
            FontChoice::Primary
        }
    } else if primary_missing {
        if has_symbols {
            FontChoice::Symbols
        } else if has_fallback {
            FontChoice::Fallback
        } else {
            FontChoice::Primary
        }
    } else {
        FontChoice::Primary
    }
}

/// The font that draws `c` (see `fallback_font_spec`).
pub fn fallback_font(
    c: char,
    cjk_width: bool,
    primary_missing: bool,
    has_cjk: bool,
    has_fallback: bool,
    has_symbols: bool,
) -> (r: FontChoice)
    ensures
        r == fallback_font_spec(c, cjk_width, primary_missing, has_cjk, has_fallback, has_symbols),
{
    if is_cjk(c) {
        if c >= '\u{3000}' || cjk_width {
            if has_cjk {
                FontChoice::Cjk
            } else if !primary_missing {
                FontChoice::Primary
            } else if has_fallback {
                FontChoice::Fallback
            } else {
                FontChoice::Primary
            }
        } else if !primary_missing {
            FontChoice::Primary
        } else if has_cjk {
            FontChoice::Cjk
        } else if has_fallback {
            FontChoice::Fallback
        } else {
            FontChoice::Primary
        }
    } else if primary_missing && needs_fallback_check(c) {
        if has_fallback {
            FontChoice::Fallback
        } else if has_symbols {
            FontChoice::Symbols
        } else {
            FontChoice::Primary
        }
    } else if primary_missing {
        if has_symbols {
            FontChoice::Symbols
        } else if has_fallback {
            FontChoice::Fallback
        } else {
            FontChoice::Primary
        }
    } else {
        FontChoice::Primary
    }
}

/// The bitmap of box-drawing character `c`, or `None` when it is not one
/// the table draws (see `box_segments` and `box_rects`).
pub fn try_procedural_box_drawing(c: char, w: u32, h: u32) -> (r: Option<Vec<u8>>)
    requires
        procedural_fits(c, w, h),
    ensures
        match box_segments(c) {
            None => r is None,
            Some(s) => r is Some && r->0@ == rect_bitmap(w, h, box_rects(s, w, h)),
        },
{
    match box_segments_of(c) {
        Some(s) => Some(box_bitmap(s, w, h)),
        None => None,
    }
}

/// Draw `c` procedurally in a `w` x `h` cell, if it is one of the glyphs
/// drawn without the font (see `procedural_plan`).
pub fn try_procedural_block(c: char, w: u32, h: u32) -> (r: Option<ProceduralGlyph>)
    requires
        procedural_fits(c, w, h),
    ensures
        match procedural_plan(c, w, h) {
            None => r is None,
            Some(p) => r is Some && plan_of(r->0) == p,
        },
{
    if c == '\\' {
        return Some(ProceduralGlyph::Backslash);
    }
    if c == '\u{23F5}' {
        return Some(ProceduralGlyph::RightTriangle);
    }
    if c == '\u{2714}' {
        return Some(ProceduralGlyph::CheckMark);
    }
    if c == '\u{23FA}' {
        return Some(ProceduralGlyph::FilledCircle);
    }
    let shade: Option<u8> = if c == '\u{2591}' {
        Some(64)
    } else if c == '\u{2592}' {
        Some(128)
    } else if c == '\u{2593}' {
        Some(192)
    } else {
        None
    };
    if let Some(a) = shade {
        return Some(ProceduralGlyph::Bitmap(uniform(w, h, a)));
    }
    if '\u{2500}' <= c && c <= '\u{257F}' {
        return match try_procedural_box_drawing(c, w, h) {
            Some(b) => Some(ProceduralGlyph::Bitmap(b)),
            None => None,
        };
    }
    match block_rects_of(c, w, h) {
        Some(rects) => Some(ProceduralGlyph::Bitmap(fill_rects(w, h, &rects))),
        None => None,
    }
}

} // verus!
