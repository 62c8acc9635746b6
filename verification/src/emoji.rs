//! Which characters the renderer draws as color emoji.

use vstd::prelude::*;

verus! {

/// The Unicode `Emoji_Presentation` property of `c` as `unic-emoji-char`
/// (Unicode 12.0 tables) reports it.
pub uninterp spec fn emoji_presentation(c: char) -> bool;

/// Calls `unic_emoji_char::is_emoji_presentation`: the result is the named
/// property of the character.
#[verifier::external_body]
fn has_emoji_presentation(c: char) -> (r: bool)
    ensures
        r == emoji_presentation(c),
{
    unic_emoji_char::is_emoji_presentation(c)
}

/// Whether `c` lies in a block of emoji added after Unicode 12.0 that the
/// tables miss: Symbols and Pictographs Extended-A, Supplemental Symbols
/// and Pictographs, Symbols for Legacy Computing.
pub open spec fn later_emoji_block(c: char) -> bool {
    let cp = c as u32;
    (0x1FA70 <= cp <= 0x1FAFF) || (0x1F900 <= cp <= 0x1F9FF) || (0x1FC00 <= cp <= 0x1FCFF)
}

/// Whether `c` is drawn as a color emoji: it has emoji presentation by
/// default, or lies in a later emoji block.
pub fn is_emoji(c: char) -> (r: bool)
    ensures
        r == (emoji_presentation(c) || later_emoji_block(c)),
{
    if has_emoji_presentation(c) {
        return true;
    }
    let cp = c as u32;
    (0x1FA70 <= cp && cp <= 0x1FAFF) || (0x1F900 <= cp && cp <= 0x1F9FF) || (0x1FC00 <= cp && cp <= 0x1FCFF)
}

} // verus!
