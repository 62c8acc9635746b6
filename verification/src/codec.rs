//! Byte-level codecs: UTF-8 encoding and decoding of character sequences,
//! and the base64 and raster-image decoders of outside crates.

use vstd::prelude::*;
use vstd::utf8::*;
use base64::Engine as _;

verus! {

/// What `base64`'s standard engine (RFC 4648 alphabet, padding required)
/// decodes `input` to, or `None` where it reports an error.
pub uninterp spec fn base64_standard(input: Seq<u8>) -> Option<Seq<u8>>;

/// What the `image` crate decodes PNG data to, as RGBA8 pixels with width and
/// height, or `None` where it reports an error.
pub uninterp spec fn png_rgba(data: Seq<u8>) -> Option<(Seq<u8>, u32, u32)>;

/// What the `image` crate decodes JPEG data to, as RGBA8 pixels with width
/// and height, or `None` where it reports an error.
pub uninterp spec fn jpeg_rgba(data: Seq<u8>) -> Option<(Seq<u8>, u32, u32)>;

/// An image decoded to RGBA pixels.
pub struct DecodedImage {
    pub data: Vec<u8>,
    pub width: u32,
    pub height: u32,
}

/// The decoded image as pixels, width and height.
pub open spec fn decoded_view(d: DecodedImage) -> (Seq<u8>, u32, u32) {
    (d.data@, d.width, d.height)
}

/// Calls `base64::engine::general_purpose::STANDARD.decode`: the result is
/// exactly `base64_standard` of the input. Nothing more about base64 is
/// claimed here.
#[verifier::external_body]
pub(crate) fn base64_decode(input: &[u8]) -> (r: Option<Vec<u8>>)
    ensures
        match base64_standard(input@) {
            Some(v) => r is Some && r->0@ == v,
            None => r is None,
        },
{
    base64::engine::general_purpose::STANDARD.decode(input).ok()
}

/// Calls `image::load_from_memory_with_format(data, ImageFormat::Png)` and
/// converts the image to RGBA8: the result is exactly `png_rgba` of the data.
#[verifier::external_body]
fn png_decode_raw(data: &[u8]) -> (r: Option<DecodedImage>)
    ensures
        match png_rgba(data@) {
            Some(v) => r is Some && decoded_view(r->0) == v,
            None => r is None,
        },
{
    let img = image::load_from_memory_with_format(data, image::ImageFormat::Png).ok()?;
    let rgba = img.to_rgba8();
    Some(DecodedImage { width: rgba.width(), height: rgba.height(), data: rgba.into_raw() })
}

/// Calls `image::load_from_memory_with_format(data, ImageFormat::Jpeg)` and
/// converts the image to RGBA8: the result is exactly `jpeg_rgba` of the data.
#[verifier::external_body]
fn jpeg_decode_raw(data: &[u8]) -> (r: Option<DecodedImage>)
    ensures
        match jpeg_rgba(data@) {
            Some(v) => r is Some && decoded_view(r->0) == v,
            None => r is None,
        },
{
    let img = image::load_from_memory_with_format(data, image::ImageFormat::Jpeg).ok()?;
    let rgba = img.to_rgba8();
    Some(DecodedImage { width: rgba.width(), height: rgba.height(), data: rgba.into_raw() })
}

/// Decode PNG data to RGBA pixels.
pub fn decode_png(data: &[u8]) -> (r: Option<DecodedImage>)
    ensures
        match png_rgba(data@) {
            Some(v) => r is Some && decoded_view(r->0) == v,
            None => r is None,
        },
{
    png_decode_raw(data)
}

/// Decode JPEG data to RGBA pixels.
pub fn decode_jpeg(data: &[u8]) -> (r: Option<DecodedImage>)
    ensures
        match jpeg_rgba(data@) {
            Some(v) => r is Some && decoded_view(r->0) == v,
            None => r is None,
        },
{
    jpeg_decode_raw(data)
}

/// Whether `data` starts with the PNG signature.
pub open spec fn png_signature(data: Seq<u8>) -> bool {
    data.len() >= 8 && data.take(8) == seq![0x89u8, 0x50u8, 0x4eu8, 0x47u8, 0x0du8, 0x0au8, 0x1au8, 0x0au8]
}

/// Whether `data` starts with the JPEG SOI marker.
pub open spec fn jpeg_signature(data: Seq<u8>) -> bool {
    data.len() >= 2 && data[0] == 0xff && data[1] == 0xd8
}

/// Check if data starts with the PNG magic bytes.
pub fn is_png(data: &[u8]) -> (r: bool)
    ensures
        r == png_signature(data@),
{
    if data.len() < 8 {
        return false;
    }
    let r = data[0] == 0x89 && data[1] == 0x50 && data[2] == 0x4e && data[3] == 0x47 && data[4]
        == 0x0d && data[5] == 0x0a && data[6] == 0x1a && data[7] == 0x0a;
    assert(r == (data@.take(8) =~= seq![0x89u8, 0x50u8, 0x4eu8, 0x47u8, 0x0du8, 0x0au8, 0x1au8, 0x0au8]));
    r
}

/// Check if data starts with the JPEG magic bytes.
pub fn is_jpeg(data: &[u8]) -> (r: bool)
    ensures
        r == jpeg_signature(data@),
{
    data.len() >= 2 && data[0] == 0xff && data[1] == 0xd8
}

/// Raster data as an iTerm2 inline image carries it: PNG or JPEG by its
/// signature, anything else unsupported.
pub open spec fn raster_rgba(data: Seq<u8>) -> Option<(Seq<u8>, u32, u32)> {
    if png_signature(data) {
        png_rgba(data)
    } else if jpeg_signature(data) {
        jpeg_rgba(data)
    } else {
        None
    }
}

/// Decode PNG or JPEG data, chosen by its signature.
pub fn decode_raster(data: &[u8]) -> (r: Option<DecodedImage>)
    ensures
        match raster_rgba(data@) {
            Some(v) => r is Some && decoded_view(r->0) == v,
            None => r is None,
        },
{
    if is_png(data) {
        decode_png(data)
    } else if is_jpeg(data) {
        decode_jpeg(data)
    } else {
        None
    }
}

// ---------------------------------------------------------------------------
// UTF-8
// ---------------------------------------------------------------------------

proof fn lemma_encode_utf8_push(s: Seq<char>, c: char)
    ensures
        encode_utf8(s.push(c)) == encode_utf8(s) + encode_scalar(c as u32),
    decreases s.len(),
{
    if s.len() == 0 {
        assert(s.push(c).drop_first() =~= Seq::<char>::empty());
        assert(encode_utf8(s.push(c)) =~= encode_scalar(c as u32) + encode_utf8(Seq::<char>::empty()));
        assert(encode_utf8(s) + encode_scalar(c as u32) =~= encode_scalar(c as u32));
    } else {
        lemma_encode_utf8_push(s.drop_first(), c);
        assert(s.push(c).drop_first() =~= s.drop_first().push(c));
        assert(encode_utf8(s.push(c)) =~= encode_scalar(s[0] as u32) + encode_utf8(s.drop_first().push(c)));
    }
}

/// The UTF-8 bytes of one character, appended to `out`.
fn push_scalar(out: &mut Vec<u8>, c: char)
    ensures
        final(out)@ == old(out)@ + encode_scalar(c as u32),
{
    let v = c as u32;
    if v <= 0x7f {
        out.push((v & 0x7f) as u8);
        assert(out@ =~= old(out)@ + encode_scalar(c as u32));
    } else if v <= 0x7ff {
        out.push(0xc0 | ((v >> 6) & 0x1f) as u8);
        out.push(0x80 | (v & 0x3f) as u8);
        assert(out@ =~= old(out)@ + encode_scalar(c as u32));
    } else if v <= 0xffff {
        out.push(0xe0 | ((v >> 12) & 0x0f) as u8);
        out.push(0x80 | ((v >> 6) & 0x3f) as u8);
        out.push(0x80 | (v & 0x3f) as u8);
        assert(out@ =~= old(out)@ + encode_scalar(c as u32));
    } else {
        out.push(0xf0 | ((v >> 18) & 0x7) as u8);
        out.push(0x80 | ((v >> 12) & 0x3f) as u8);
        out.push(0x80 | ((v >> 6) & 0x3f) as u8);
        out.push(0x80 | (v & 0x3f) as u8);
        assert(out@ =~= old(out)@ + encode_scalar(c as u32));
    }
}

/// The UTF-8 encoding of a character sequence.
pub fn chars_to_utf8(v: &Vec<char>) -> (r: Vec<u8>)
    ensures
        r@ == encode_utf8(v@),
{
    let mut out: Vec<u8> = Vec::new();
    let mut i: usize = 0;
    while i < v.len()
        invariant
            0 <= i <= v.len(),
            out@ == encode_utf8(v@.take(i as int)),
        decreases v.len() - i,
    {
        proof {
            lemma_encode_utf8_push(v@.take(i as int), v@[i as int]);
            assert(v@.take(i as int).push(v@[i as int]) =~= v@.take(i + 1));
        }
        push_scalar(&mut out, v[i]);
        i += 1;
    }
    assert(v@.take(v.len() as int) =~= v@);
    out
}

/// Calls `std::str::from_utf8` and collects the characters: `Some` exactly
/// when the bytes are valid UTF-8, holding the characters they encode.
#[verifier::external_body]
pub(crate) fn utf8_to_chars(bytes: &[u8]) -> (r: Option<Vec<char>>)
    ensures
        r is Some <==> valid_utf8(bytes@),
        r is Some ==> r->0@ == decode_utf8(bytes@),
{
    std::str::from_utf8(bytes).ok().map(|s| s.chars().collect())
}

/// The characters `String::from_utf8_lossy` gives for `bytes`: invalid
/// sequences replaced by U+FFFD.
pub uninterp spec fn utf8_lossy(bytes: Seq<u8>) -> Seq<char>;

/// Calls `String::from_utf8_lossy` and collects the characters. The result
/// is named; for valid UTF-8 it is the decoded text, as the documentation
/// states.
#[verifier::external_body]
pub(crate) fn utf8_lossy_chars(bytes: &[u8]) -> (r: Vec<char>)
    ensures
        r@ == utf8_lossy(bytes@),
        valid_utf8(bytes@) ==> r@ == decode_utf8(bytes@),
{
    String::from_utf8_lossy(bytes).chars().collect()
}

/// Calls `String::from_iter` on the characters: a string holding exactly them.
#[verifier::external_body]
pub(crate) fn string_from_chars(v: &Vec<char>) -> (r: String)
    ensures
        r@ == v@,
{
    v.iter().collect()
}

} // verus!
