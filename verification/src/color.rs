use vstd::prelude::*;

verus! {

/// The 16 standard ANSI named colors.
#[derive(Debug, Clone, Copy, PartialEq, Eq, Structural)]
pub enum NamedColor {
    Black,
    Red,
    Green,
    Yellow,
    Blue,
    Magenta,
    Cyan,
    White,
    BrightBlack,
    BrightRed,
    BrightGreen,
    BrightYellow,
    BrightBlue,
    BrightMagenta,
    BrightCyan,
    BrightWhite,
}

/// Terminal color representation.
#[derive(Debug, Clone, Copy, PartialEq, Eq, Structural)]
pub enum Color {
    /// Default foreground or background color (from theme).
    Default,
    /// Named ANSI color (0–15).
    Named(NamedColor),
    /// 256-color palette index (0–255).
    Indexed(u8),
    /// 24-bit true color.
    Rgb(u8, u8, u8),
}

/// The named color with ANSI index `i` (0–15).
pub open spec fn named_color_at(i: int) -> NamedColor
    recommends
        0 <= i < 16,
{
    if i == 0 {
        NamedColor::Black
    } else if i == 1 {
        NamedColor::Red
    } else if i == 2 {
        NamedColor::Green
    } else if i == 3 {
        NamedColor::Yellow
    } else if i == 4 {
        NamedColor::Blue
    } else if i == 5 {
        NamedColor::Magenta
    } else if i == 6 {
        NamedColor::Cyan
    } else if i == 7 {
        NamedColor::White
    } else if i == 8 {
        NamedColor::BrightBlack
    } else if i == 9 {
        NamedColor::BrightRed
    } else if i == 10 {
        NamedColor::BrightGreen
    } else if i == 11 {
        NamedColor::BrightYellow
    } else if i == 12 {
        NamedColor::BrightBlue
    } else if i == 13 {
        NamedColor::BrightMagenta
    } else if i == 14 {
        NamedColor::BrightCyan
    } else {
        NamedColor::BrightWhite
    }
}

/// The named color an SGR parameter selects, where `base` is the code of
/// normal black (30 for foreground, 40 for background) and `bright_base`
/// the code of bright black (90 or 100).
pub open spec fn sgr_named(code: int, base: int, bright_base: int) -> Option<NamedColor> {
    if base <= code < base + 8 {
        Some(named_color_at(code - base))
    } else if bright_base <= code < bright_base + 8 {
        Some(named_color_at(code - bright_base + 8))
    } else {
        None
    }
}

fn named_color_from_index(i: u16) -> (c: NamedColor)
    requires
        i < 16,
    ensures
        c == named_color_at(i as int),
{
    match i {
        0 => NamedColor::Black,
        1 => NamedColor::Red,
        2 => NamedColor::Green,
        3 => NamedColor::Yellow,
        4 => NamedColor::Blue,
        5 => NamedColor::Magenta,
        6 => NamedColor::Cyan,
        7 => NamedColor::White,
        8 => NamedColor::BrightBlack,
        9 => NamedColor::BrightRed,
        10 => NamedColor::BrightGreen,
        11 => NamedColor::BrightYellow,
        12 => NamedColor::BrightBlue,
        13 => NamedColor::BrightMagenta,
        14 => NamedColor::BrightCyan,
        _ => NamedColor::BrightWhite,
    }
}

impl NamedColor {
    /// The foreground color selected by SGR codes 30–37 and 90–97.
    pub fn from_sgr_fg(code: u16) -> (r: Option<Self>)
        ensures
            r == sgr_named(code as int, 30, 90),
    {
        if 30 <= code && code < 38 {
            Some(named_color_from_index(code - 30))
        } else if 90 <= code && code < 98 {
            Some(named_color_from_index(code - 90 + 8))
        } else {
            None
        }
    }

    /// The background color selected by SGR codes 40–47 and 100–107.
    pub fn from_sgr_bg(code: u16) -> (r: Option<Self>)
        ensures
            r == sgr_named(code as int, 40, 100),
    {
        if 40 <= code && code < 48 {
            Some(named_color_from_index(code - 40))
        } else if 100 <= code && code < 108 {
            Some(named_color_from_index(code - 100 + 8))
        } else {
            None
        }
    }
}

/// A background SGR code selects the same color as the foreground code ten
/// below it, and every code that selects a foreground color has such a
/// background partner.
pub proof fn lemma_sgr_bg_is_fg_plus_ten(code: int)
    ensures
        sgr_named(code + 10, 40, 100) == sgr_named(code, 30, 90),
{
}

} // verus!
