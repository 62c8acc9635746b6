//! SGR (Select Graphic Rendition): how CSI `m` parameters change the pen.

use vstd::prelude::*;
use crate::cell::{Attrs, Pen, default_pen};
use crate::color::{Color, NamedColor, sgr_named};

verus! {

/// The first value of a parameter, or 0 for an empty one.
pub open spec fn first_or_zero(sub: Seq<u16>) -> u16 {
    if sub.len() > 0 {
        sub[0]
    } else {
        0
    }
}

/// All underline style flags.
pub open spec fn underline_styles() -> u16 {
    (Attrs::UNDERLINE | Attrs::DOUBLE_UNDERLINE | Attrs::CURLY_UNDERLINE | Attrs::DOTTED_UNDERLINE
        | Attrs::DASHED_UNDERLINE) as u16
}

/// `pen` with `flags` set.
pub open spec fn with_flags(pen: Pen, flags: u16) -> Pen {
    Pen { attrs: Attrs { bits: pen.attrs.bits | flags }, ..pen }
}

/// `pen` with `flags` cleared.
pub open spec fn without_flags(pen: Pen, flags: u16) -> Pen {
    Pen { attrs: Attrs { bits: pen.attrs.bits & !flags }, ..pen }
}

/// The pen after one SGR parameter other than an extended color.
pub open spec fn sgr_code(pen: Pen, sub: Seq<u16>) -> Pen {
    let code = first_or_zero(sub);
    if code == 0 {
        default_pen()
    } else if code == 1 {
        with_flags(pen, Attrs::BOLD)
    } else if code == 2 {
        with_flags(pen, Attrs::DIM)
    } else if code == 3 {
        with_flags(pen, Attrs::ITALIC)
    } else if code == 4 {
        if sub.len() > 1 {
            let style = sub[1];
            if style == 0 {
                without_flags(pen, underline_styles())
            } else if style == 1 {
                with_flags(pen, Attrs::UNDERLINE)
            } else if style == 2 {
                with_flags(pen, Attrs::DOUBLE_UNDERLINE)
            } else if style == 3 {
                with_flags(pen, Attrs::CURLY_UNDERLINE)
            } else if style == 4 {
                with_flags(pen, Attrs::DOTTED_UNDERLINE)
            } else if style == 5 {
                with_flags(pen, Attrs::DASHED_UNDERLINE)
            } else {
                pen
            }
        } else {
            with_flags(pen, Attrs::UNDERLINE)
        }
    } else if code == 5 || code == 6 {
        with_flags(pen, Attrs::BLINK)
    } else if code == 7 {
        with_flags(pen, Attrs::REVERSE)
    } else if code == 8 {
        with_flags(pen, Attrs::HIDDEN)
    } else if code == 9 {
        with_flags(pen, Attrs::STRIKETHROUGH)
    } else if code == 21 {
        with_flags(pen, Attrs::DOUBLE_UNDERLINE)
    } else if code == 22 {
        without_flags(pen, (Attrs::BOLD | Attrs::DIM) as u16)
    } else if code == 23 {
        without_flags(pen, Attrs::ITALIC)
    } else if code == 24 {
        without_flags(pen, underline_styles())
    } else if code == 25 {
        without_flags(pen, Attrs::BLINK)
    } else if code == 27 {
        without_flags(pen, Attrs::REVERSE)
    } else if code == 28 {
        without_flags(pen, Attrs::HIDDEN)
    } else if code == 29 {
        without_flags(pen, Attrs::STRIKETHROUGH)
    } else if sgr_named(code as int, 30, 90) is Some {
        Pen { fg: Color::Named(sgr_named(code as int, 30, 90)->0), ..pen }
    } else if code == 39 {
        Pen { fg: Color::Default, ..pen }
    } else if sgr_named(code as int, 40, 100) is Some {
        Pen { bg: Color::Named(sgr_named(code as int, 40, 100)->0), ..pen }
    } else if code == 49 {
        Pen { bg: Color::Default, ..pen }
    } else if code == 59 {
        Pen { underline_color: Color::Default, ..pen }
    } else {
        pen
    }
}

/// `p[j]` as a byte (its first value truncated), or 0 past the end.
pub open spec fn byte_at(p: Seq<Seq<u16>>, j: int) -> u8 {
    if j < p.len() {
        first_or_zero(p[j]) as u8
    } else {
        0
    }
}

/// `sub[k]` truncated to a byte, or 0 when absent.
pub open spec fn sub_byte(sub: Seq<u16>, k: int) -> u8 {
    if k < sub.len() {
        sub[k] as u8
    } else {
        0
    }
}

/// An extended color (after 38, 48 or 58) read from the parameters at
/// `j`, and the index of the first parameter after it: `5;N` (256-color),
/// `2;R;G;B` (truecolor), or the colon forms `5:N` and `2:R:G:B`.
pub open spec fn ext_color(p: Seq<Seq<u16>>, j: int) -> (Color, int) {
    if j >= p.len() {
        (Color::Default, j)
    } else {
        let sub = p[j];
        if sub =~= seq![5u16] {
            if j + 1 < p.len() {
                if p[j + 1].len() == 1 {
                    (Color::Indexed(p[j + 1][0] as u8), j + 2)
                } else {
                    (Color::Default, j + 2)
                }
            } else {
                (Color::Default, j + 1)
            }
        } else if sub =~= seq![2u16] {
            let r = byte_at(p, j + 1);
            let g = byte_at(p, j + 2);
            let b = byte_at(p, j + 3);
            (Color::Rgb(r, g, b), min_len(j + 4, p.len() as int))
        } else if sub.len() >= 2 && sub[0] == 2 {
            (Color::Rgb(sub_byte(sub, 1), sub_byte(sub, 2), sub_byte(sub, 3)), j + 1)
        } else if sub.len() >= 2 && sub[0] == 5 {
            (Color::Indexed(sub[1] as u8), j + 1)
        } else {
            (Color::Default, j + 1)
        }
    }
}

pub open spec fn min_len(a: int, b: int) -> int {
    if a <= b {
        a
    } else {
        b
    }
}

/// The pen after the SGR parameters from index `i` on.
pub open spec fn sgr_from(pen: Pen, p: Seq<Seq<u16>>, i: int) -> Pen
    decreases p.len() - i,
{
    if i < 0 || i >= p.len() {
        pen
    } else {
        let code = first_or_zero(p[i]);
        if code == 38 || code == 48 || code == 58 {
            let (c, next) = ext_color(p, i + 1);
            let pen1 = if code == 38 {
                Pen { fg: c, ..pen }
            } else if code == 48 {
                Pen { bg: c, ..pen }
            } else {
                Pen { underline_color: c, ..pen }
            };
            if next > i {
                sgr_from(pen1, p, next)
            } else {
                pen1
            }
        } else {
            sgr_from(sgr_code(pen, p[i]), p, i + 1)
        }
    }
}

/// The pen after a whole SGR sequence; no parameter at all resets it.
pub open spec fn sgr_spec(pen: Pen, p: Seq<Seq<u16>>) -> Pen {
    if p.len() == 0 {
        default_pen()
    } else {
        sgr_from(pen, p, 0)
    }
}

/// The parameters as plain values.
pub open spec fn params_view(p: Seq<Vec<u16>>) -> Seq<Seq<u16>> {
    p.map_values(|v: Vec<u16>| v@)
}

fn first_value(sub: &Vec<u16>) -> (r: u16)
    ensures
        r == first_or_zero(sub@),
{
    if sub.len() > 0 {
        sub[0]
    } else {
        0
    }
}

/// The pen after one SGR parameter other than an extended color.
pub fn apply_sgr_code(pen: Pen, sub: &Vec<u16>) -> (r: Pen)
    ensures
        r == sgr_code(pen, sub@),
{
    let code = first_value(sub);
    let mut p = pen;
    if code == 0 {
        p.reset();
    } else if code == 1 {
        p.attrs.insert(Attrs::BOLD);
    } else if code == 2 {
        p.attrs.insert(Attrs::DIM);
    } else if code == 3 {
        p.attrs.insert(Attrs::ITALIC);
    } else if code == 4 {
        if sub.len() > 1 {
            let style = sub[1];
            if style == 0 {
                p.attrs.remove(
                    Attrs::UNDERLINE | Attrs::DOUBLE_UNDERLINE | Attrs::CURLY_UNDERLINE
                        | Attrs::DOTTED_UNDERLINE | Attrs::DASHED_UNDERLINE,
                );
            } else if style == 1 {
                p.attrs.insert(Attrs::UNDERLINE);
            } else if style == 2 {
                p.attrs.insert(Attrs::DOUBLE_UNDERLINE);
            } else if style == 3 {
                p.attrs.insert(Attrs::CURLY_UNDERLINE);
            } else if style == 4 {
                p.attrs.insert(Attrs::DOTTED_UNDERLINE);
            } else if style == 5 {
                p.attrs.insert(Attrs::DASHED_UNDERLINE);
            }
        } else {
            p.attrs.insert(Attrs::UNDERLINE);
        }
    } else if code == 5 || code == 6 {
        p.attrs.insert(Attrs::BLINK);
    } else if code == 7 {
        p.attrs.insert(Attrs::REVERSE);
    } else if code == 8 {
        p.attrs.insert(Attrs::HIDDEN);
    } else if code == 9 {
        p.attrs.insert(Attrs::STRIKETHROUGH);
    } else if code == 21 {
        p.attrs.insert(Attrs::DOUBLE_UNDERLINE);
    } else if code == 22 {
        p.attrs.remove(Attrs::BOLD | Attrs::DIM);
    } else if code == 23 {
        p.attrs.remove(Attrs::ITALIC);
    } else if code == 24 {
        p.attrs.remove(
            Attrs::UNDERLINE | Attrs::DOUBLE_UNDERLINE | Attrs::CURLY_UNDERLINE
                | Attrs::DOTTED_UNDERLINE | Attrs::DASHED_UNDERLINE,
        );
    } else if code == 25 {
        p.attrs.remove(Attrs::BLINK);
    } else if code == 27 {
        p.attrs.remove(Attrs::REVERSE);
    } else if code == 28 {
        p.attrs.remove(Attrs::HIDDEN);
    } else if code == 29 {
        p.attrs.remove(Attrs::STRIKETHROUGH);
    } else if let Some(c) = NamedColor::from_sgr_fg(code) {
        p.fg = Color::Named(c);
    } else if code == 39 {
        p.fg = Color::Default;
    } else if let Some(c) = NamedColor::from_sgr_bg(code) {
        p.bg = Color::Named(c);
    } else if code == 49 {
        p.bg = Color::Default;
    } else if code == 59 {
        p.underline_color = Color::Default;
    }
    p
}

/// The first value of `params[j + k]` as a byte, or 0 past the end.
fn byte_param(params: &Vec<Vec<u16>>, j: usize, k: usize) -> (r: u8)
    requires
        j <= params.len(),
    ensures
        r == byte_at(params_view(params@), j + k),
{
    if k < params.len() - j {
        assert(params@[j + k]@ == params_view(params@)[j + k]);
        first_value(&params[j + k]) as u8
    } else {
        0
    }
}

fn sub_value(sub: &Vec<u16>, k: usize) -> (r: u8)
    ensures
        r == sub_byte(sub@, k as int),
{
    if k < sub.len() {
        sub[k] as u8
    } else {
        0
    }
}

/// Parse an extended color at `params[j]` (see `ext_color`): the color and
/// the index of the first parameter after it.
pub fn parse_extended_color(params: &Vec<Vec<u16>>, j: usize) -> (r: (Color, usize))
    requires
        j <= params.len(),
    ensures
        r.0 == ext_color(params_view(params@), j as int).0,
        r.1 as int == ext_color(params_view(params@), j as int).1,
        j < r.1 <= params.len() || (j == params.len() && r.1 == j),
{
    let ghost p = params_view(params@);
    if j >= params.len() {
        return (Color::Default, j);
    }
    let sub = &params[j];
    assert(sub@ == p[j as int]);
    if sub.len() == 1 && sub[0] == 5 {
        assert(sub@ =~= seq![5u16]);
        if j + 1 < params.len() {
            let nxt = &params[j + 1];
            assert(nxt@ == p[j + 1]);
            if nxt.len() == 1 {
                (Color::Indexed(nxt[0] as u8), j + 2)
            } else {
                (Color::Default, j + 2)
            }
        } else {
            (Color::Default, j + 1)
        }
    } else if sub.len() == 1 && sub[0] == 2 {
        assert(sub@ =~= seq![2u16]);
        let r = byte_param(params, j, 1);
        let g = byte_param(params, j, 2);
        let b = byte_param(params, j, 3);
        let n = params.len();
        let next = if n - j >= 4 { j + 4 } else { n };
        (Color::Rgb(r, g, b), next)
    } else {
        assert(!(sub@ =~= seq![5u16])) by {
            if sub@ =~= seq![5u16] {
                assert(sub@.len() == 1 && sub@[0] == 5);
            }
        }
        assert(!(sub@ =~= seq![2u16])) by {
            if sub@ =~= seq![2u16] {
                assert(sub@.len() == 1 && sub@[0] == 2);
            }
        }
        if sub.len() >= 2 && sub[0] == 2 {
            (Color::Rgb(sub_value(sub, 1), sub_value(sub, 2), sub_value(sub, 3)), j + 1)
        } else if sub.len() >= 2 && sub[0] == 5 {
            (Color::Indexed(sub[1] as u8), j + 1)
        } else {
            (Color::Default, j + 1)
        }
    }
}

/// The pen after the SGR parameters `params` (see `sgr_spec`).
pub fn apply_sgr(pen: Pen, params: &Vec<Vec<u16>>) -> (r: Pen)
    ensures
        r == sgr_spec(pen, params_view(params@)),
{
    let ghost p = params_view(params@);
    if params.len() == 0 {
        return Pen::plain();
    }
    let mut cur = pen;
    let mut i: usize = 0;
    while i < params.len()
        invariant
            i <= params.len(),
            p == params_view(params@),
            sgr_from(cur, p, i as int) == sgr_from(pen, p, 0),
        decreases params.len() - i,
    {
        let code = first_value(&params[i]);
        assert(params@[i as int]@ == p[i as int]);
        if code == 38 || code == 48 || code == 58 {
            let (c, next) = parse_extended_color(params, i + 1);
            if code == 38 {
                cur.fg = c;
            } else if code == 48 {
                cur.bg = c;
            } else {
                cur.underline_color = c;
            }
            i = next;
        } else {
            cur = apply_sgr_code(cur, &params[i]);
            i += 1;
        }
    }
    cur
}

} // verus!
