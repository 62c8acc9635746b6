use vstd::prelude::*;
use unicode_width::UnicodeWidthChar;

verus! {

/// The display width that `unicode-width` gives `c`, with East Asian
/// ambiguous characters narrow (`None` for control characters).
pub uninterp spec fn unicode_width(c: char) -> Option<usize>;

/// The display width that `unicode-width` gives `c`, with East Asian
/// ambiguous characters wide (`None` for control characters).
pub uninterp spec fn unicode_width_cjk(c: char) -> Option<usize>;

/// Facts that `unicode-width` shows of both width functions: printable ASCII
/// is one column, the C0 and C1 control characters have no width, and no
/// width exceeds three columns.
pub open spec fn width_facts(c: char, r: Option<usize>) -> bool {
    &&& (' ' <= c < '\u{7F}' ==> r == Some(1usize))
    &&& (c < ' ' || ('\u{7F}' <= c < '\u{A0}') ==> r is None)
    &&& (r matches Some(w) ==> w <= 3)
}

/// `UnicodeWidthChar::width` of `c`: its column width with ambiguous
/// characters narrow. The contract names the result and states the facts of
/// `width_facts`, which the crate's table lookup shows.
#[verifier::external_body]
fn width_narrow(c: char) -> (r: Option<usize>)
    ensures
        r == unicode_width(c),
        width_facts(c, r),
{
    UnicodeWidthChar::width(c)
}

/// `UnicodeWidthChar::width_cjk` of `c`: its column width with ambiguous
/// characters wide. The contract names the result and states the facts of
/// `width_facts`, which the crate's table lookup shows.
#[verifier::external_body]
fn width_wide(c: char) -> (r: Option<usize>)
    ensures
        r == unicode_width_cjk(c),
        width_facts(c, r),
{
    UnicodeWidthChar::width_cjk(c)
}

/// The number of cells `c` takes: one for printable ASCII; otherwise its
/// Unicode width (East Asian ambiguous characters wide when `cjk`), and 1
/// for characters without a width.
pub open spec fn char_width_spec(c: char, cjk: bool) -> nat {
    if ' ' <= c <= '~' {
        1
    } else {
        let w = if cjk { unicode_width_cjk(c) } else { unicode_width(c) };
        match w {
            Some(n) => n as nat,
            None => 1,
        }
    }
}

/// The display width of `c` in cells, respecting CJK ambiguous width.
pub fn char_width(c: char, cjk: bool) -> (r: usize)
    ensures
        r == char_width_spec(c, cjk),
        r <= 3,
        ' ' <= c < '\u{7F}' ==> r == 1,
{
    let w = if cjk { width_wide(c) } else { width_narrow(c) };
    match w {
        Some(n) => n,
        None => 1,
    }
}

/// Whether `c` is a zero-width combining code point that takes no cell:
/// variation selectors, zero-width joiners and spaces, skin tone
/// modifiers, tag characters, the keycap combiner, invisible separators
/// and the byte order mark.
pub open spec fn zero_width_combining(c: char) -> bool {
    let cp = c as u32;
    ||| 0xFE00 <= cp <= 0xFE0F
    ||| cp == 0x200D
    ||| 0x200B <= cp <= 0x200F
    ||| 0x1F3FB <= cp <= 0x1F3FF
    ||| 0xE0020 <= cp <= 0xE007F
    ||| cp == 0xE0001
    ||| cp == 0x20E3
    ||| 0x2060 <= cp <= 0x2064
    ||| cp == 0xFEFF
}

/// Whether `c` is a zero-width combining code point (see
/// `zero_width_combining`).
pub fn is_zero_width_combining(c: char) -> (r: bool)
    ensures
        r == zero_width_combining(c),
{
    let cp = c as u32;
    (0xFE00 <= cp && cp <= 0xFE0F) || cp == 0x200D || (0x200B <= cp && cp <= 0x200F) || (0x1F3FB
        <= cp && cp <= 0x1F3FF) || (0xE0020 <= cp && cp <= 0xE007F) || cp == 0xE0001 || cp
        == 0x20E3 || (0x2060 <= cp && cp <= 0x2064) || cp == 0xFEFF
}

} // verus!
