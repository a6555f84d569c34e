//! Window thumbnails: which windows can be captured, and how the captured
//! pixels become a PNG data URL.
use vstd::prelude::*;
use crate::text::{owned, push_char};

verus! {

/// The largest width or height that is captured.
pub const MAX_CAPTURE_EXTENT: i32 = 10_000;

/// The size of a window capture and of its 32-bit pixel buffer.
#[derive(Debug, Clone, Copy, PartialEq, Eq, Structural)]
pub struct CaptureSize {
    pub width: i32,
    pub height: i32,
    /// `width * height * 4` bytes.
    pub buffer_len: usize,
}

/// The capture size of a window with the given rectangle, or `None` when the
/// window is empty or larger than 10 000 pixels either way.
pub fn capture_size(left: i32, top: i32, right: i32, bottom: i32) -> (r: Option<CaptureSize>)
    requires
        i32::MIN <= right - left <= i32::MAX,
        i32::MIN <= bottom - top <= i32::MAX,
    ensures
        ({
            let w = right - left;
            let h = bottom - top;
            match r {
                Some(c) => 0 < w <= 10_000 && 0 < h <= 10_000 && c.width == w && c.height == h
                    && c.buffer_len == w * h * 4,
                None => !(0 < w <= 10_000 && 0 < h <= 10_000),
            }
        }),
{
    let width = right - left;
    let height = bottom - top;
    if width <= 0 || height <= 0 || width > MAX_CAPTURE_EXTENT || height > MAX_CAPTURE_EXTENT {
        return None;
    }
    let w = width as usize;
    let h = height as usize;
    assert(w * h <= 100_000_000) by (nonlinear_arith)
        requires
            w <= 10_000,
            h <= 10_000,
    ;
    Some(CaptureSize { width, height, buffer_len: w * h * 4 })
}

/// The RGBA pixels of BGRA pixels: red and blue swapped and the alpha made
/// opaque, pixel by pixel (bytes past the last whole pixel are dropped).
pub open spec fn spec_bgra_to_rgba(bgra: Seq<u8>) -> Seq<u8> {
    Seq::new(
        ((bgra.len() / 4) * 4) as nat,
        |i: int|
            {
                let p = i / 4;
                let c = i % 4;
                if c == 0 {
                    bgra[4 * p + 2]
                } else if c == 1 {
                    bgra[4 * p + 1]
                } else if c == 2 {
                    bgra[4 * p]
                } else {
                    255u8
                }
            },
    )
}

/// Converts BGRA pixels to opaque RGBA pixels.
pub fn bgra_to_rgba(bgra: &Vec<u8>) -> (r: Vec<u8>)
    ensures
        r@ == spec_bgra_to_rgba(bgra@),
{
    let pixels = bgra.len() / 4;
    let mut rgba: Vec<u8> = Vec::new();
    let mut p: usize = 0;
    while p < pixels
        invariant
            pixels == bgra.len() / 4,
            p <= pixels,
            rgba@.len() == 4 * p,
            forall|i: int| 0 <= i < 4 * p ==> #[trigger] rgba@[i] == spec_bgra_to_rgba(bgra@)[i],
        decreases pixels - p,
    {
        let base = 4 * p;
        let b = bgra[base];
        let g = bgra[base + 1];
        let r = bgra[base + 2];
        rgba.push(r);
        rgba.push(g);
        rgba.push(b);
        rgba.push(255u8);
        proof {
            let s = spec_bgra_to_rgba(bgra@);
            assert((4 * p) / 4 == p && (4 * p) % 4 == 0) by (nonlinear_arith);
            assert((4 * p + 1) / 4 == p && (4 * p + 1) % 4 == 1) by (nonlinear_arith);
            assert((4 * p + 2) / 4 == p && (4 * p + 2) % 4 == 2) by (nonlinear_arith);
            assert((4 * p + 3) / 4 == p && (4 * p + 3) % 4 == 3) by (nonlinear_arith);
            assert(p < pixels ==> 4 * p + 3 < (bgra@.len() / 4) * 4) by (nonlinear_arith)
                requires
                    pixels == bgra@.len() / 4,
            ;
        }
        p += 1;
    }
    proof {
        assert(rgba@ =~= spec_bgra_to_rgba(bgra@));
    }
    rgba
}

/// The PNG encoding of 8-bit RGBA pixels of the given size, as `image`'s
/// `PngEncoder` writes it with its default compression and filter, or `None`
/// when the encoder refuses the image.
pub uninterp spec fn png_rgba8(rgba: Seq<u8>, width: u32, height: u32) -> Option<Seq<u8>>;

/// Encodes RGBA pixels as PNG with `image::codecs::png::PngEncoder`
/// (`write_image`, colour type `Rgba8`). The bytes written are named by
/// `png_rgba8`; nothing more is stated of them.
#[verifier::external_body]
fn encode_png_rgba8(rgba: &[u8], width: u32, height: u32) -> (r: Option<Vec<u8>>)
    requires
        rgba@.len() == width as int * height as int * 4,
    ensures
        match r {
            Some(png) => png_rgba8(rgba@, width, height) == Some(png@),
            None => png_rgba8(rgba@, width, height) is None,
        },
{
    let mut png = Vec::new();
    let encoder = image::codecs::png::PngEncoder::new(&mut png);
    match image::ImageEncoder::write_image(
        encoder,
        rgba,
        width,
        height,
        image::ExtendedColorType::Rgba8,
    ) {
        Ok(()) => Some(png),
        Err(_) => None,
    }
}

/// The character of a 6-bit value in the standard Base64 alphabet
/// (`A`-`Z`, `a`-`z`, `0`-`9`, `+`, `/`).
pub open spec fn base64_char(v: int) -> char {
    if v < 26 {
        ('A' as int + v) as char
    } else if v < 52 {
        ('a' as int + (v - 26)) as char
    } else if v < 62 {
        ('0' as int + (v - 52)) as char
    } else if v == 62 {
        '+'
    } else {
        '/'
    }
}

/// The standard Base64 encoding of bytes: each group of three bytes becomes
/// four characters of six bits each, and a final group of one or two bytes is
/// padded with `=` to four characters.
pub open spec fn base64_standard(bytes: Seq<u8>) -> Seq<char>
    decreases bytes.len(),
{
    if bytes.len() == 0 {
        seq![]
    } else if bytes.len() == 1 {
        let b0 = bytes[0] as int;
        seq![base64_char(b0 / 4), base64_char((b0 % 4) * 16), '=', '=']
    } else if bytes.len() == 2 {
        let b0 = bytes[0] as int;
        let b1 = bytes[1] as int;
        seq![
            base64_char(b0 / 4),
            base64_char((b0 % 4) * 16 + b1 / 16),
            base64_char((b1 % 16) * 4),
            '=',
        ]
    } else {
        let b0 = bytes[0] as int;
        let b1 = bytes[1] as int;
        let b2 = bytes[2] as int;
        seq![
            base64_char(b0 / 4),
            base64_char((b0 % 4) * 16 + b1 / 16),
            base64_char((b1 % 16) * 4 + b2 / 64),
            base64_char(b2 % 64),
        ] + base64_standard(bytes.skip(3))
    }
}

/// Encodes bytes with `base64`'s `general_purpose::STANDARD` engine, whose
/// output is the standard padded Base64 text of the bytes.
#[verifier::external_body]
fn encode_base64(bytes: &[u8]) -> (r: String)
    ensures
        r@ == base64_standard(bytes@),
{
    base64::Engine::encode(&base64::engine::general_purpose::STANDARD, bytes)
}

pub open spec fn png_data_url_prefix() -> Seq<char> {
    seq![
        'd',
        'a',
        't',
        'a',
        ':',
        'i',
        'm',
        'a',
        'g',
        'e',
        '/',
        'p',
        'n',
        'g',
        ';',
        'b',
        'a',
        's',
        'e',
        '6',
        '4',
        ',',
    ]
}

/// A PNG data URL around Base64 text.
pub fn png_data_url_from_base64(encoded: &str) -> (r: String)
    ensures
        r@ == png_data_url_prefix() + encoded@,
{
    let mut url = owned("data:image/png;base64,");
    proof {
        reveal_strlit("data:image/png;base64,");
    }
    assert(url@ =~= png_data_url_prefix());
    let payload = owned(encoded);
    url.append(payload.as_str());
    url
}

/// Why a thumbnail could not be made.
#[derive(Debug, Clone, Copy, PartialEq, Eq, Structural)]
pub enum ThumbnailError {
    /// The PNG encoder refused the pixels.
    EncodeFailed,
}

impl ThumbnailError {
    /// The error as a sentence.
    pub fn message(&self) -> (r: String)
        ensures
            r@ == "failed to encode window thumbnail"@,
    {
        owned("failed to encode window thumbnail")
    }
}

/// The PNG data URL of a captured window: the BGRA pixels turned into opaque
/// RGBA, encoded as PNG, then as Base64.
pub fn png_data_url(bgra: &Vec<u8>, width: u32, height: u32) -> (r: Result<String, ThumbnailError>)
    requires
        bgra@.len() == width as int * height as int * 4,
    ensures
        match png_rgba8(spec_bgra_to_rgba(bgra@), width, height) {
            Some(png) => r matches Ok(url) && url@ == png_data_url_prefix() + base64_standard(png),
            None => r == Err::<String, ThumbnailError>(ThumbnailError::EncodeFailed),
        },
{
    let rgba = bgra_to_rgba(bgra);
    assert((bgra@.len() / 4) * 4 == bgra@.len()) by (nonlinear_arith)
        requires
            bgra@.len() == width as int * height as int * 4,
    ;
    match encode_png_rgba8(rgba.as_slice(), width, height) {
        Some(png) => {
            let encoded = encode_base64(png.as_slice());
            Ok(png_data_url_from_base64(encoded.as_str()))
        },
        None => Err(ThumbnailError::EncodeFailed),
    }
}

} // verus!
