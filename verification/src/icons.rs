//! The per-app icon cache: file names, pixel order, and data URLs.
use vstd::prelude::*;
use base64::Engine as _;
use crate::text::{lowercase, to_lowercase};

verus! {

/// A digit of the standard base64 alphabet (RFC 4648): `A`-`Z`, `a`-`z`,
/// `0`-`9`, `+`, `/` for the values 0 to 63.
pub open spec fn base64_digit(v: int) -> char {
    if v < 26 {
        (65 + v) as char
    } else if v < 52 {
        (97 + (v - 26)) as char
    } else if v < 62 {
        (48 + (v - 52)) as char
    } else if v == 62 {
        '+'
    } else {
        '/'
    }
}

/// Padded standard base64 (RFC 4648): every group of three bytes becomes
/// four digits of six bits each, high bits first; a last group of one or two
/// bytes becomes two or three digits, padded with `=` to four characters.
pub open spec fn base64_standard(b: Seq<u8>) -> Seq<char>
    decreases b.len(),
{
    if b.len() == 0 {
        Seq::empty()
    } else if b.len() == 1 {
        seq![base64_digit(b[0] as int / 4), base64_digit((b[0] as int % 4) * 16), '=', '=']
    } else if b.len() == 2 {
        seq![
            base64_digit(b[0] as int / 4),
            base64_digit((b[0] as int % 4) * 16 + b[1] as int / 16),
            base64_digit((b[1] as int % 16) * 4),
            '=',
        ]
    } else {
        seq![
            base64_digit(b[0] as int / 4),
            base64_digit((b[0] as int % 4) * 16 + b[1] as int / 16),
            base64_digit((b[1] as int % 16) * 4 + b[2] as int / 64),
            base64_digit(b[2] as int % 64),
        ] + base64_standard(b.subrange(3, b.len() as int))
    }
}

/// Length of the padded base64 text of `n` bytes.
pub open spec fn base64_len(n: nat) -> nat {
    4 * ((n + 2) / 3)
}

/// `base64::engine::general_purpose::STANDARD.encode`: the padded standard
/// base64 text of `bytes`. The encoder panics when the length of that text
/// does not fit in `usize`, which the requirement rules out.
#[verifier::external_body]
fn encode_base64(bytes: &[u8]) -> (r: String)
    requires
        base64_len(bytes@.len()) <= usize::MAX,
    ensures
        r@ == base64_standard(bytes@),
{
    base64::engine::general_purpose::STANDARD.encode(bytes)
}

/// The PNG file name for an already lower-cased executable name.
pub fn png_file_name(lower: &str) -> (name: String)
    ensures
        name@ == lower@ + ".png"@,
{
    let mut s = String::from_str(lower);
    s.append(".png");
    s
}

/// The cached icon's file name for an executable: its lower-cased name with `.png`.
pub fn icon_file_name(exe_name: &str) -> (name: String)
    ensures
        name@ == lowercase(exe_name@) + ".png"@,
{
    let lower = to_lowercase(exe_name);
    png_file_name(lower.as_str())
}

/// The `data:` URL of a PNG given as base64 text.
pub fn data_url_of_base64(encoded: &str) -> (url: String)
    ensures
        url@ == "data:image/png;base64,"@ + encoded@,
{
    let mut s = String::from_str("data:image/png;base64,");
    s.append(encoded);
    s
}

/// The `data:` URL of PNG bytes, as the webview shows it.
pub fn png_data_url(bytes: &[u8]) -> (url: String)
    requires
        base64_len(bytes@.len()) <= usize::MAX,
    ensures
        url@ == "data:image/png;base64,"@ + base64_standard(bytes@),
{
    let b = encode_base64(bytes);
    data_url_of_base64(b.as_str())
}

/// Pixel bytes after swapping blue and red in every complete 4-byte pixel
/// (BGRA to RGBA); a trailing partial pixel is left as it is.
pub open spec fn swapped_pixels(old: Seq<u8>, i: int) -> u8 {
    if i < old.len() - old.len() % 4 && i % 4 == 0 {
        old[i + 2]
    } else if i < old.len() - old.len() % 4 && i % 4 == 2 {
        old[i - 2]
    } else {
        old[i]
    }
}

/// Turns BGRA pixel data into RGBA, in place.
pub fn bgra_to_rgba(pixels: &mut Vec<u8>)
    ensures
        final(pixels)@.len() == old(pixels)@.len(),
        forall|i: int| 0 <= i < old(pixels)@.len() ==> #[trigger] final(pixels)@[i] == swapped_pixels(old(pixels)@, i),
{
    let ghost orig = pixels@;
    let n = pixels.len();
    let full = n - n % 4;
    let mut p: usize = 0;
    while p < full
        invariant
            pixels@.len() == n,
            orig.len() == n,
            full == n - n % 4,
            p % 4 == 0,
            p <= full,
            forall|i: int| 0 <= i < p ==> #[trigger] pixels@[i] == swapped_pixels(orig, i),
            forall|i: int| p <= i < n ==> #[trigger] pixels@[i] == orig[i],
        decreases full - p,
    {
        let b = pixels[p];
        let r = pixels[p + 2];
        pixels.set(p, r);
        pixels.set(p + 2, b);
        p = p + 4;
    }
}

/// A cached icon's image: the `image` crate's RGBA image, built and encoded
/// only by the functions of this module.
#[verifier::external_body]
pub struct IconImage {
    image: image::RgbaImage,
}

/// Side of the square icons that are cached, in pixels.
pub const ICON_SIZE: u32 = 48;

/// Bytes of an icon's RGBA pixels: four per pixel.
pub open spec fn icon_bytes() -> nat {
    4 * 48 * 48
}

/// The RGBA bytes an icon image holds, row by row.
pub uninterp spec fn image_bytes(img: IconImage) -> Seq<u8>;

/// The width and height an icon image was made with.
pub uninterp spec fn image_side(img: IconImage) -> u32;

/// What the `image` crate's PNG encoder writes for a `side` x `side` RGBA
/// image over the bytes `rgba`, or the text of its error.
pub uninterp spec fn png_encoding(side: u32, rgba: Seq<u8>) -> Result<Seq<u8>, Seq<char>>;

/// An encoding result with the bytes and the error message as values.
pub open spec fn encoded_view(r: Result<Vec<u8>, String>) -> Result<Seq<u8>, Seq<char>> {
    match r {
        Ok(b) => Ok(b@),
        Err(e) => Err(e@),
    }
}

/// `image::ImageBuffer::from_raw(side, side, pixels)` for RGBA pixels, kept
/// as an [`IconImage`]: an image over the bytes as given when there are at
/// least four bytes per pixel of the square, and `None` otherwise. (The
/// crate also answers `None` when that byte count overflows `usize`, which
/// the requirement rules out.)
#[verifier::external_body]
fn rgba_from_raw(side: u32, pixels: Vec<u8>) -> (img: Option<IconImage>)
    requires
        4 * side * side <= usize::MAX,
    ensures
        img is Some <==> pixels@.len() >= 4 * side * side,
        img matches Some(i) ==> image_bytes(i) == pixels@ && image_side(i) == side,
{
    image::ImageBuffer::from_raw(side, side, pixels).map(|image| IconImage { image })
}

/// The 48 x 48 icon image of pixels read in BGRA order: the pixels turned
/// into RGBA, or `None` when there are too few bytes for the square.
pub fn icon_image(bgra: Vec<u8>) -> (img: Option<IconImage>)
    ensures
        img is Some <==> bgra@.len() >= icon_bytes(),
        img matches Some(i) ==> image_side(i) == ICON_SIZE,
        img matches Some(i) ==> image_bytes(i).len() == bgra@.len() && forall|k: int|
            0 <= k < bgra@.len() ==> #[trigger] image_bytes(i)[k] == swapped_pixels(bgra@, k),
{
    let mut pixels = bgra;
    bgra_to_rgba(&mut pixels);
    assert(4 * ICON_SIZE * ICON_SIZE == icon_bytes());
    rgba_from_raw(ICON_SIZE, pixels)
}

/// `ImageBuffer::write_to` with the PNG format, into memory: the PNG file
/// the encoder writes for the image (the same bytes `save` writes to a
/// `.png` path), or the text of its error.
#[verifier::external_body]
fn encode_png(img: &IconImage) -> (r: Result<Vec<u8>, String>)
    ensures
        encoded_view(r) == png_encoding(image_side(*img), image_bytes(*img)),
{
    let mut out = std::io::Cursor::new(Vec::new());
    img.image.write_to(&mut out, image::ImageFormat::Png).map(|_| out.into_inner()).map_err(|e| e.to_string())
}

impl IconImage {
    /// The icon as a PNG file, to be stored in the icon cache.
    pub fn png(&self) -> (r: Result<Vec<u8>, String>)
        ensures
            encoded_view(r) == png_encoding(image_side(*self), image_bytes(*self)),
    {
        encode_png(self)
    }
}

} // verus!
