use vstd::prelude::*;
use crate::color::Color;

verus! {

/// Cell rendering attributes: a set of flags packed in 12 bits.
#[derive(Debug, Clone, Copy, PartialEq, Eq, Structural)]
pub struct Attrs {
    pub bits: u16,
}

/// The bits that name a defined attribute flag.
pub const ATTRS_ALL: u16 = 0x0FFF;

impl Attrs {
    pub const BOLD: u16 = 1;
    pub const DIM: u16 = 2;
    pub const ITALIC: u16 = 4;
    pub const UNDERLINE: u16 = 8;
    pub const BLINK: u16 = 16;
    pub const REVERSE: u16 = 32;
    pub const HIDDEN: u16 = 64;
    pub const STRIKETHROUGH: u16 = 128;
    pub const DOUBLE_UNDERLINE: u16 = 256;
    pub const CURLY_UNDERLINE: u16 = 512;
    pub const DOTTED_UNDERLINE: u16 = 1024;
    pub const DASHED_UNDERLINE: u16 = 2048;

    /// The set with no flag.
    pub fn empty() -> (r: Attrs)
        ensures
            r.bits == 0,
    {
        Attrs { bits: 0 }
    }

    /// The raw flag bits.
    pub fn bits(&self) -> (r: u16)
        ensures
            r == self.bits,
    {
        self.bits
    }

    /// The set named by `bits`, with undefined bits dropped.
    pub fn from_bits_truncate(bits: u16) -> (r: Attrs)
        ensures
            r.bits == bits & ATTRS_ALL,
    {
        Attrs { bits: bits & ATTRS_ALL }
    }

    /// Whether every flag of `flags` is set in `self`.
    pub fn contains(&self, flags: u16) -> (r: bool)
        ensures
            r == (self.bits & flags == flags),
    {
        self.bits & flags == flags
    }

    /// Whether no flag is set.
    pub fn is_empty(&self) -> (r: bool)
        ensures
            r == (self.bits == 0),
    {
        self.bits == 0
    }

    /// Set every flag of `flags`.
    pub fn insert(&mut self, flags: u16)
        ensures
            final(self).bits == old(self).bits | flags,
    {
        self.bits = self.bits | flags;
    }

    /// Clear every flag of `flags`.
    pub fn remove(&mut self, flags: u16)
        ensures
            final(self).bits == old(self).bits & !flags,
    {
        self.bits = self.bits & !flags;
    }

    /// The flags set in either operand.
    pub fn union(self, other: Attrs) -> (r: Attrs)
        ensures
            r.bits == self.bits | other.bits,
    {
        Attrs { bits: self.bits | other.bits }
    }
}

/// A single terminal cell.
#[derive(Debug, Clone, Copy, PartialEq, Eq, Structural)]
pub struct Cell {
    /// The character displayed in this cell.
    pub c: char,
    /// Foreground color.
    pub fg: Color,
    /// Background color.
    pub bg: Color,
    /// Rendering attributes.
    pub attrs: Attrs,
    /// Underline color (separate from fg).
    pub underline_color: Color,
    /// Display width: 1 for normal, 2 for wide (CJK/emoji), 0 for continuation.
    pub width: u8,
    /// Whether this cell is part of a hyperlink (OSC 8).
    pub hyperlink: bool,
}

/// A blank cell: a space in default colors, width 1, no attributes.
pub open spec fn default_cell() -> Cell {
    Cell {
        c: ' ',
        fg: Color::Default,
        bg: Color::Default,
        attrs: Attrs { bits: 0 },
        underline_color: Color::Default,
        width: 1,
        hyperlink: false,
    }
}

/// A blank cell whose background is `bg` (background color erase).
pub open spec fn blank_cell(bg: Color) -> Cell {
    Cell { bg: bg, ..default_cell() }
}

impl Default for Cell {
    fn default() -> (r: Self)
        ensures
            r == default_cell(),
    {
        Cell::blank()
    }
}

impl Cell {
    /// A blank cell (the same as `Cell::default()`).
    pub fn blank() -> (r: Cell)
        ensures
            r == default_cell(),
    {
        Cell {
            c: ' ',
            fg: Color::Default,
            bg: Color::Default,
            attrs: Attrs { bits: 0 },
            underline_color: Color::Default,
            width: 1,
            hyperlink: false,
        }
    }

    /// A blank cell with background `bg`.
    pub fn blank_with_bg(bg: Color) -> (r: Cell)
        ensures
            r == blank_cell(bg),
    {
        Cell { bg: bg, ..Cell::blank() }
    }

    /// Reset this cell to a blank cell.
    pub fn reset(&mut self)
        ensures
            *final(self) == default_cell(),
    {
        *self = Cell::blank();
    }

    /// Reset this cell to a blank cell with background `bg`.
    pub fn reset_with_bg(&mut self, bg: Color)
        ensures
            *final(self) == blank_cell(bg),
    {
        *self = Cell::blank_with_bg(bg);
    }
}

/// The "pen": the style applied to newly printed characters.
#[derive(Debug, Clone, Copy, PartialEq, Eq, Structural)]
pub struct Pen {
    pub fg: Color,
    pub bg: Color,
    pub attrs: Attrs,
    pub underline_color: Color,
}

/// The pen with default colors and no attributes.
pub open spec fn default_pen() -> Pen {
    Pen {
        fg: Color::Default,
        bg: Color::Default,
        attrs: Attrs { bits: 0 },
        underline_color: Color::Default,
    }
}

impl Default for Pen {
    fn default() -> (r: Self)
        ensures
            r == default_pen(),
    {
        Pen::plain()
    }
}

impl Pen {
    /// The pen with default colors and no attributes.
    pub fn plain() -> (r: Pen)
        ensures
            r == default_pen(),
    {
        Pen {
            fg: Color::Default,
            bg: Color::Default,
            attrs: Attrs { bits: 0 },
            underline_color: Color::Default,
        }
    }

    /// Reset the pen to its default.
    pub fn reset(&mut self)
        ensures
            *final(self) == default_pen(),
    {
        *self = Pen::plain();
    }
}

} // verus!
