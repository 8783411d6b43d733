//! Image formats, dimensions read from file headers, ASCII art previews and
//! thumbnail payloads.
//!
//! Scaling to fit and the SVG size attributes work in floating point; their
//! results come in as arguments.
use vstd::prelude::*;
use crate::text::{append_chars, append_str, chars_of, find, find_exec, lemma_find_from_matches, contains, contains_str, decimal, decimal_string, eq_str, lowercase_chars, push_char, starts_with, starts_with_str, string_from, suffix, trim_start, trim_start_index, unicode_lowercase};
use crate::files_preview::hex::{hex_digit};

verus! {

/// Supported image formats for preview generation.
#[derive(Debug, Clone, Copy, PartialEq, Eq, Structural, Hash)]
pub enum ImageFormat {
    Png,
    Jpeg,
    Gif,
    Bmp,
    WebP,
    Svg,
    Ico,
    Unknown,
}

/// Calls `std::str::from_utf8`; the documentation promises `Ok` exactly for
/// valid UTF-8, holding the decoded text.
#[verifier::external_body]
fn text_of_bytes(bytes: &[u8]) -> (r: Option<String>)
    ensures
        r is Some <==> vstd::utf8::valid_utf8(bytes@),
        r matches Some(s) ==> s@ == vstd::utf8::decode_utf8(bytes@),
{
    std::str::from_utf8(bytes).ok().map(|s| s.to_string())
}

/// Whether the text looks like SVG.
pub open spec fn looks_like_svg(text: Seq<char>) -> bool {
    let t = trim_start(text);
    starts_with(t, "<?xml"@) || starts_with(t, "<svg"@) || contains(t, "<svg"@)
}

/// Whether `b` starts with `p`.
pub open spec fn bytes_start(b: Seq<u8>, p: Seq<u8>) -> bool {
    p.len() <= b.len() && b.take(p.len() as int) == p
}

/// The format that the leading bytes announce.
pub open spec fn format_of_bytes(b: Seq<u8>) -> ImageFormat {
    if bytes_start(b, seq![0x89u8, 0x50, 0x4E, 0x47, 0x0D, 0x0A, 0x1A, 0x0A]) {
        ImageFormat::Png
    } else if bytes_start(b, seq![0xFFu8, 0xD8, 0xFF]) {
        ImageFormat::Jpeg
    } else if bytes_start(b, seq![0x47u8, 0x49, 0x46, 0x38, 0x37, 0x61]) || bytes_start(
        b,
        seq![0x47u8, 0x49, 0x46, 0x38, 0x39, 0x61],
    ) {
        ImageFormat::Gif
    } else if bytes_start(b, seq![0x42u8, 0x4D]) {
        ImageFormat::Bmp
    } else if b.len() >= 12 && bytes_start(b, seq![0x52u8, 0x49, 0x46, 0x46]) && b.subrange(8, 12)
        == seq![0x57u8, 0x45, 0x42, 0x50] {
        ImageFormat::WebP
    } else if bytes_start(b, seq![0x00u8, 0x00, 0x01, 0x00]) {
        ImageFormat::Ico
    } else {
        let sample = b.take(if b.len() < 1024 { b.len() as int } else { 1024 });
        if vstd::utf8::valid_utf8(sample) && looks_like_svg(vstd::utf8::decode_utf8(sample)) {
            ImageFormat::Svg
        } else {
            ImageFormat::Unknown
        }
    }
}

/// The format a (lowercased) extension names.
pub open spec fn format_of_extension(e: Seq<char>) -> ImageFormat {
    if e == "png"@ {
        ImageFormat::Png
    } else if e == "jpg"@ || e == "jpeg"@ || e == "jpe"@ {
        ImageFormat::Jpeg
    } else if e == "gif"@ {
        ImageFormat::Gif
    } else if e == "bmp"@ {
        ImageFormat::Bmp
    } else if e == "webp"@ {
        ImageFormat::WebP
    } else if e == "svg"@ || e == "svgz"@ {
        ImageFormat::Svg
    } else if e == "ico"@ {
        ImageFormat::Ico
    } else {
        ImageFormat::Unknown
    }
}

/// The MIME type of a format.
pub open spec fn image_mime(f: ImageFormat) -> Seq<char> {
    match f {
        ImageFormat::Png => "image/png"@,
        ImageFormat::Jpeg => "image/jpeg"@,
        ImageFormat::Gif => "image/gif"@,
        ImageFormat::Bmp => "image/bmp"@,
        ImageFormat::WebP => "image/webp"@,
        ImageFormat::Svg => "image/svg+xml"@,
        ImageFormat::Ico => "image/x-icon"@,
        ImageFormat::Unknown => "application/octet-stream"@,
    }
}

/// Whether the byte slice starts with the given bytes.
fn starts_with_bytes(b: &[u8], p: &[u8]) -> (r: bool)
    ensures
        r == bytes_start(b@, p@),
{
    if p.len() > b.len() {
        return false;
    }
    let mut i: usize = 0;
    while i < p.len()
        invariant
            i <= p@.len() <= b@.len(),
            forall|k: int| 0 <= k < i ==> b@[k] == p@[k],
        decreases p.len() - i,
    {
        if b[i] != p[i] {
            assert(b@.take(p@.len() as int)[i as int] != p@[i as int]);
            return false;
        }
        i += 1;
    }
    assert(b@.take(p@.len() as int) =~= p@);
    true
}

/// Copies a prefix of a byte slice.
fn prefix_bytes(b: &[u8], n: usize) -> (r: Vec<u8>)
    requires
        n <= b@.len(),
    ensures
        r@ == b@.take(n as int),
{
    let mut v: Vec<u8> = Vec::new();
    let mut i: usize = 0;
    while i < n
        invariant
            i <= n <= b@.len(),
            v@ == b@.take(i as int),
        decreases n - i,
    {
        v.push(b[i]);
        assert(b@.take(i + 1) =~= b@.take(i as int).push(b@[i as int]));
        i += 1;
    }
    v
}

impl ImageFormat {
    /// Detects the format from the magic bytes at the start of a buffer.
    pub fn from_bytes(bytes: &[u8]) -> (r: Self)
        ensures
            r == format_of_bytes(bytes@),
    {
        if starts_with_bytes(bytes, &[0x89u8, 0x50, 0x4E, 0x47, 0x0D, 0x0A, 0x1A, 0x0A]) {
            assert([0x89u8, 0x50, 0x4E, 0x47, 0x0D, 0x0A, 0x1A, 0x0A]@ =~= seq![0x89u8, 0x50, 0x4E, 0x47, 0x0D, 0x0A, 0x1A, 0x0A]);
            return ImageFormat::Png;
        }
        assert([0x89u8, 0x50, 0x4E, 0x47, 0x0D, 0x0A, 0x1A, 0x0A]@ =~= seq![0x89u8, 0x50, 0x4E, 0x47, 0x0D, 0x0A, 0x1A, 0x0A]);
        assert([0xFFu8, 0xD8, 0xFF]@ =~= seq![0xFFu8, 0xD8, 0xFF]);
        if starts_with_bytes(bytes, &[0xFFu8, 0xD8, 0xFF]) {
            return ImageFormat::Jpeg;
        }
        assert([0x47u8, 0x49, 0x46, 0x38, 0x37, 0x61]@ =~= seq![0x47u8, 0x49, 0x46, 0x38, 0x37, 0x61]);
        assert([0x47u8, 0x49, 0x46, 0x38, 0x39, 0x61]@ =~= seq![0x47u8, 0x49, 0x46, 0x38, 0x39, 0x61]);
        if starts_with_bytes(bytes, &[0x47u8, 0x49, 0x46, 0x38, 0x37, 0x61]) || starts_with_bytes(
            bytes,
            &[0x47u8, 0x49, 0x46, 0x38, 0x39, 0x61],
        ) {
            return ImageFormat::Gif;
        }
        assert([0x42u8, 0x4D]@ =~= seq![0x42u8, 0x4D]);
        if starts_with_bytes(bytes, &[0x42u8, 0x4D]) {
            return ImageFormat::Bmp;
        }
        assert([0x52u8, 0x49, 0x46, 0x46]@ =~= seq![0x52u8, 0x49, 0x46, 0x46]);
        if bytes.len() >= 12 && starts_with_bytes(bytes, &[0x52u8, 0x49, 0x46, 0x46]) && bytes[8]
            == 0x57 && bytes[9] == 0x45 && bytes[10] == 0x42 && bytes[11] == 0x50 {
            assert(bytes@.subrange(8, 12) =~= seq![0x57u8, 0x45, 0x42, 0x50]);
            return ImageFormat::WebP;
        }
        if bytes.len() >= 12 {
            proof {
                let sub = bytes@.subrange(8, 12);
                if sub == seq![0x57u8, 0x45, 0x42, 0x50] {
                    assert(sub[0] == bytes@[8]);
                    assert(sub[1] == bytes@[9]);
                    assert(sub[2] == bytes@[10]);
                    assert(sub[3] == bytes@[11]);
                }
            }
        }
        assert([0x00u8, 0x00, 0x01, 0x00]@ =~= seq![0x00u8, 0x00, 0x01, 0x00]);
        if starts_with_bytes(bytes, &[0x00u8, 0x00, 0x01, 0x00]) {
            return ImageFormat::Ico;
        }
        let n = if bytes.len() < 1024 {
            bytes.len()
        } else {
            1024
        };
        let sample = prefix_bytes(bytes, n);
        match text_of_bytes(sample.as_slice()) {
            Some(text) => {
                let t = chars_of(text.as_str());
                let ts = suffix(&t, trim_start_index(&t));
                proof {
                    reveal_strlit("<?xml");
                    reveal_strlit("<svg");
                }
                if starts_with_str(&ts, "<?xml") || starts_with_str(&ts, "<svg") || contains_str(
                    &ts,
                    "<svg",
                ) {
                    ImageFormat::Svg
                } else {
                    ImageFormat::Unknown
                }
            },
            None => ImageFormat::Unknown,
        }
    }

    /// Detects the format from a file extension (any case).
    pub fn from_extension(ext: &str) -> (r: Self)
        ensures
            r == format_of_extension(unicode_lowercase(ext@)),
    {
        let e = lowercase_chars(ext);
        if eq_str(&e, "png") {
            ImageFormat::Png
        } else if eq_str(&e, "jpg") || eq_str(&e, "jpeg") || eq_str(&e, "jpe") {
            ImageFormat::Jpeg
        } else if eq_str(&e, "gif") {
            ImageFormat::Gif
        } else if eq_str(&e, "bmp") {
            ImageFormat::Bmp
        } else if eq_str(&e, "webp") {
            ImageFormat::WebP
        } else if eq_str(&e, "svg") || eq_str(&e, "svgz") {
            ImageFormat::Svg
        } else if eq_str(&e, "ico") {
            ImageFormat::Ico
        } else {
            ImageFormat::Unknown
        }
    }

    /// Returns the MIME type associated with the image format.
    pub fn mime_type(&self) -> (r: &'static str)
        ensures
            r@ == image_mime(*self),
    {
        match self {
            ImageFormat::Png => "image/png",
            ImageFormat::Jpeg => "image/jpeg",
            ImageFormat::Gif => "image/gif",
            ImageFormat::Bmp => "image/bmp",
            ImageFormat::WebP => "image/webp",
            ImageFormat::Svg => "image/svg+xml",
            ImageFormat::Ico => "image/x-icon",
            ImageFormat::Unknown => "application/octet-stream",
        }
    }
}

/// Image width and height in pixels.
#[derive(Debug, Clone, Copy, PartialEq, Eq, Structural)]
pub struct Dimensions {
    pub width: u32,
    pub height: u32,
}

impl Dimensions {
    pub fn new(width: u32, height: u32) -> (r: Self)
        ensures
            r == (Dimensions { width, height }),
    {
        Dimensions { width, height }
    }
}

/// Resizing fit strategy for thumbnail generation.
#[derive(Debug, Clone, Copy, PartialEq, Eq, Structural)]
pub enum FitMode {
    Fit,
    Fill,
    Stretch,
}

/// Output representation format for generated thumbnails.
#[derive(Debug, Clone, Copy, PartialEq, Eq, Structural)]
pub enum ThumbnailOutputFormat {
    DataUrlSvg,
    AsciiArt,
    RawRgba,
}

/// Thumbnail configuration options.
#[derive(Debug, Clone, Copy, PartialEq, Eq, Structural)]
pub struct ThumbnailOptions {
    pub max_width: u32,
    pub max_height: u32,
    pub fit_mode: FitMode,
    pub output_format: ThumbnailOutputFormat,
}

impl Default for ThumbnailOptions {
    fn default() -> (r: Self)
        ensures
            r == (ThumbnailOptions {
                max_width: 256,
                max_height: 256,
                fit_mode: FitMode::Fit,
                output_format: ThumbnailOutputFormat::DataUrlSvg,
            }),
    {
        ThumbnailOptions {
            max_width: 256,
            max_height: 256,
            fit_mode: FitMode::Fit,
            output_format: ThumbnailOutputFormat::DataUrlSvg,
        }
    }
}

/// Generated thumbnail with its dimensions and payload.
#[derive(Debug, Clone, PartialEq, Eq)]
pub struct Thumbnail {
    pub dimensions: Dimensions,
    pub original_dimensions: Option<Dimensions>,
    pub format: ImageFormat,
    pub data: String,
    pub ascii_representation: Option<String>,
}

/// Errors of image processing and thumbnail generation.
#[derive(Debug, Clone, PartialEq, Eq)]
pub enum ImageError {
    IoError(String),
    UnsupportedFormat(String),
    InvalidHeader,
    ProcessingFailed(String),
}

/// The message of an image error.
pub open spec fn image_error_message(e: ImageError) -> Seq<char> {
    match e {
        ImageError::IoError(m) => "IO error: "@ + m@,
        ImageError::UnsupportedFormat(m) => "Unsupported image format: "@ + m@,
        ImageError::InvalidHeader => "Invalid image header"@,
        ImageError::ProcessingFailed(m) => "Image processing failed: "@ + m@,
    }
}

impl ImageError {
    /// The message shown for the error.
    pub fn to_string(&self) -> (r: String)
        ensures
            r@ == image_error_message(*self),
    {
        match self {
            ImageError::IoError(m) => {
                let mut s = string_from("IO error: ");
                append_str(&mut s, m.as_str());
                s
            },
            ImageError::UnsupportedFormat(m) => {
                let mut s = string_from("Unsupported image format: ");
                append_str(&mut s, m.as_str());
                s
            },
            ImageError::InvalidHeader => string_from("Invalid image header"),
            ImageError::ProcessingFailed(m) => {
                let mut s = string_from("Image processing failed: ");
                append_str(&mut s, m.as_str());
                s
            },
        }
    }
}

// ------------------------------------------------------------------
// Dimensions from headers
// ------------------------------------------------------------------

/// Little-endian 16-bit value at `i`.
pub open spec fn le16(b: Seq<u8>, i: int) -> nat {
    (b[i] + 256 * b[i + 1]) as nat
}

/// Big-endian 16-bit value at `i`.
pub open spec fn be16(b: Seq<u8>, i: int) -> nat {
    (256 * b[i] + b[i + 1]) as nat
}

/// Big-endian 32-bit value at `i`.
pub open spec fn be32(b: Seq<u8>, i: int) -> nat {
    (16777216 * b[i] + 65536 * b[i + 1] + 256 * b[i + 2] + b[i + 3]) as nat
}

/// Little-endian 32-bit value at `i`.
pub open spec fn le32(b: Seq<u8>, i: int) -> nat {
    (b[i] + 256 * b[i + 1] + 65536 * b[i + 2] + 16777216 * b[i + 3]) as nat
}

/// The magnitude of a little-endian two's complement 32-bit value.
pub open spec fn abs_i32_le(b: Seq<u8>, i: int) -> nat {
    let u = le32(b, i);
    if u >= 0x8000_0000 { (0x1_0000_0000 - u) as nat } else { u }
}

/// Whether a JPEG marker starts a frame (SOF0..SOF15 but DHT, JPG and DAC).
pub open spec fn is_frame_marker(m: u8) -> bool {
    (0xC0 <= m <= 0xC3) || (0xC5 <= m <= 0xC7) || (0xC9 <= m <= 0xCB) || (0xCD <= m <= 0xCF)
}

/// The JPEG frame size found scanning segments from `pos`.
pub open spec fn jpeg_scan(b: Seq<u8>, pos: int) -> Option<Dimensions>
    decreases (if pos < b.len() { b.len() - pos } else { 0 }),
{
    if pos < 0 || !(pos + 8 < b.len()) {
        None
    } else if b[pos] != 0xFF {
        jpeg_scan(b, pos + 1)
    } else {
        let marker = b[pos + 1];
        let p = pos + 2;
        if is_frame_marker(marker) {
            if p + 5 <= b.len() {
                Some(Dimensions { width: be16(b, p + 3) as u32, height: be16(b, p + 1) as u32 })
            } else {
                None
            }
        } else if p + 2 > b.len() {
            None
        } else {
            let len = be16(b, p);
            if len < 2 {
                None
            } else {
                jpeg_scan(b, p + len)
            }
        }
    }
}

/// The size of a WebP image from its chunk header.
pub open spec fn webp_size(b: Seq<u8>) -> Option<Dimensions> {
    if b.len() < 30 {
        None
    } else {
        let t = b.subrange(12, 16);
        if t == seq![0x56u8, 0x50, 0x38, 0x20] {
            Some(Dimensions { width: (le16(b, 26) % 16384) as u32, height: (le16(b, 28) % 16384) as u32 })
        } else if t == seq![0x56u8, 0x50, 0x38, 0x4C] {
            let bits = le32(b, 21);
            Some(Dimensions { width: (bits % 16384 + 1) as u32, height: ((bits / 16384) % 16384 + 1) as u32 })
        } else if t == seq![0x56u8, 0x50, 0x38, 0x58] {
            Some(Dimensions {
                width: (b[24] + 256 * b[25] + 65536 * b[26] + 1) as u32,
                height: (b[27] + 256 * b[28] + 65536 * b[29] + 1) as u32,
            })
        } else {
            None
        }
    }
}

/// The size an image header states; for SVG, `svg` (what the SVG size
/// attributes give) when the bytes are text.
pub open spec fn header_dimensions(b: Seq<u8>, svg: Option<Dimensions>) -> Option<Dimensions> {
    match format_of_bytes(b) {
        ImageFormat::Png => if b.len() >= 24 {
            Some(Dimensions { width: be32(b, 16) as u32, height: be32(b, 20) as u32 })
        } else {
            None
        },
        ImageFormat::Gif => if b.len() >= 10 {
            Some(Dimensions { width: le16(b, 6) as u32, height: le16(b, 8) as u32 })
        } else {
            None
        },
        ImageFormat::Bmp => if b.len() >= 26 {
            Some(Dimensions { width: abs_i32_le(b, 18) as u32, height: abs_i32_le(b, 22) as u32 })
        } else {
            None
        },
        ImageFormat::Jpeg => if b.len() < 4 || b[0] != 0xFF || b[1] != 0xD8 {
            None
        } else {
            jpeg_scan(b, 2)
        },
        ImageFormat::WebP => webp_size(b),
        ImageFormat::Svg => if vstd::utf8::valid_utf8(b) {
            svg
        } else {
            None
        },
        ImageFormat::Ico => if b.len() >= 8 {
            Some(Dimensions {
                width: if b[6] == 0 { 256 } else { b[6] as u32 },
                height: if b[7] == 0 { 256 } else { b[7] as u32 },
            })
        } else {
            None
        },
        ImageFormat::Unknown => None,
    }
}

fn jpeg_dimensions(bytes: &[u8]) -> (r: Option<Dimensions>)
    requires
        bytes@.len() >= 4,
    ensures
        r == jpeg_scan(bytes@, 2),
{
    let n = bytes.len();
    let mut pos: usize = 2;
    while pos < n && n - pos > 8
        invariant
            n == bytes@.len(),
            2 <= pos,
            jpeg_scan(bytes@, pos as int) == jpeg_scan(bytes@, 2),
        decreases n - pos,
    {
        if bytes[pos] != 0xFF {
            pos += 1;
        } else {
            let marker = bytes[pos + 1];
            let p = pos + 2;
            if (0xC0 <= marker && marker <= 0xC3) || (0xC5 <= marker && marker <= 0xC7) || (0xC9
                <= marker && marker <= 0xCB) || (0xCD <= marker && marker <= 0xCF) {
                if p + 5 <= n {
                    let h = (bytes[p + 1] as u32) * 256 + (bytes[p + 2] as u32);
                    let w = (bytes[p + 3] as u32) * 256 + (bytes[p + 4] as u32);
                    return Some(Dimensions { width: w, height: h });
                }
                return None;
            }
            if p + 2 > n {
                return None;
            }
            let len = (bytes[p] as usize) * 256 + (bytes[p + 1] as usize);
            if len < 2 {
                return None;
            }
            if len >= n - p {
                assert(jpeg_scan(bytes@, (p + len) as int) is None);
                return None;
            }
            pos = p + len;
        }
    }
    None
}

fn webp_dimensions(bytes: &[u8]) -> (r: Option<Dimensions>)
    ensures
        r == webp_size(bytes@),
{
    if bytes.len() < 30 {
        return None;
    }
    let b = bytes;
    let t0 = b[12];
    let t1 = b[13];
    let t2 = b[14];
    let t3 = b[15];
    let ghost t = bytes@.subrange(12, 16);
    assert(t[0] == t0 && t[1] == t1 && t[2] == t2 && t[3] == t3);
    if t0 == 0x56 && t1 == 0x50 && t2 == 0x38 && t3 == 0x20 {
        assert(t =~= seq![0x56u8, 0x50, 0x38, 0x20]);
        let w = ((b[26] as u32) + 256 * (b[27] as u32)) % 16384;
        let h = ((b[28] as u32) + 256 * (b[29] as u32)) % 16384;
        Some(Dimensions { width: w, height: h })
    } else if t0 == 0x56 && t1 == 0x50 && t2 == 0x38 && t3 == 0x4C {
        assert(t =~= seq![0x56u8, 0x50, 0x38, 0x4C]);
        let bits: u64 = (b[21] as u64) + 256 * (b[22] as u64) + 65536 * (b[23] as u64) + 16777216 * (b[24] as u64);
        let w = (bits % 16384 + 1) as u32;
        let h = ((bits / 16384) % 16384 + 1) as u32;
        Some(Dimensions { width: w, height: h })
    } else if t0 == 0x56 && t1 == 0x50 && t2 == 0x38 && t3 == 0x58 {
        assert(t =~= seq![0x56u8, 0x50, 0x38, 0x58]);
        let w = (b[24] as u32) + 256 * (b[25] as u32) + 65536 * (b[26] as u32) + 1;
        let h = (b[27] as u32) + 256 * (b[28] as u32) + 65536 * (b[29] as u32) + 1;
        Some(Dimensions { width: w, height: h })
    } else {
        None
    }
}

fn abs_i32_le_exec(b: &[u8], i: usize) -> (r: u32)
    requires
        i + 4 <= b@.len(),
    ensures
        r == abs_i32_le(b@, i as int),
{
    let u: u64 = (b[i] as u64) + 256 * (b[i + 1] as u64) + 65536 * (b[i + 2] as u64) + 16777216 * (b[i + 3] as u64);
    if u >= 0x8000_0000 {
        (0x1_0000_0000 - u) as u32
    } else {
        u as u32
    }
}

/// Extracts the dimensions from the header of an image buffer. For SVG the
/// size comes from `svg_dimensions`, what the SVG size attributes give.
pub fn extract_dimensions(bytes: &[u8], svg_dimensions: Option<Dimensions>) -> (r: Option<Dimensions>)
    ensures
        r == header_dimensions(bytes@, svg_dimensions),
{
    let format = ImageFormat::from_bytes(bytes);
    match format {
        ImageFormat::Png => {
            if bytes.len() >= 24 {
                let w = (bytes[16] as u32) * 16777216 + (bytes[17] as u32) * 65536 + (bytes[18] as u32) * 256 + (bytes[19] as u32);
                let h = (bytes[20] as u32) * 16777216 + (bytes[21] as u32) * 65536 + (bytes[22] as u32) * 256 + (bytes[23] as u32);
                Some(Dimensions { width: w, height: h })
            } else {
                None
            }
        },
        ImageFormat::Gif => {
            if bytes.len() >= 10 {
                let w = (bytes[6] as u32) + 256 * (bytes[7] as u32);
                let h = (bytes[8] as u32) + 256 * (bytes[9] as u32);
                Some(Dimensions { width: w, height: h })
            } else {
                None
            }
        },
        ImageFormat::Bmp => {
            if bytes.len() >= 26 {
                Some(Dimensions { width: abs_i32_le_exec(bytes, 18), height: abs_i32_le_exec(bytes, 22) })
            } else {
                None
            }
        },
        ImageFormat::Jpeg => {
            if bytes.len() < 4 || bytes[0] != 0xFF || bytes[1] != 0xD8 {
                None
            } else {
                jpeg_dimensions(bytes)
            }
        },
        ImageFormat::WebP => webp_dimensions(bytes),
        ImageFormat::Svg => {
            match text_of_bytes(bytes) {
                Some(_) => svg_dimensions,
                None => None,
            }
        },
        ImageFormat::Ico => {
            if bytes.len() >= 8 {
                let w: u32 = if bytes[6] == 0 {
                    256
                } else {
                    bytes[6] as u32
                };
                let h: u32 = if bytes[7] == 0 {
                    256
                } else {
                    bytes[7] as u32
                };
                Some(Dimensions { width: w, height: h })
            } else {
                None
            }
        },
        ImageFormat::Unknown => None,
    }
}

/// Whether an image buffer carries transparency: PNG by its colour type
/// (grey with alpha, or RGBA), SVG when the buffer is text, and WebP, GIF
/// and ICO always.
pub open spec fn has_alpha_of(b: Seq<u8>) -> bool {
    match format_of_bytes(b) {
        ImageFormat::Png => b.len() >= 26 && (b[25] == 4 || b[25] == 6),
        ImageFormat::Svg => vstd::utf8::valid_utf8(b),
        ImageFormat::WebP | ImageFormat::Gif | ImageFormat::Ico => true,
        _ => false,
    }
}

/// Checks that a buffer is in a known image format: an empty buffer passes,
/// an unknown non-empty one is refused.
pub fn check_image_format(bytes: &[u8]) -> (r: Result<ImageFormat, ImageError>)
    ensures
        match r {
            Ok(f) => f == format_of_bytes(bytes@) && (f is Unknown ==> bytes@.len() == 0),
            Err(e) => format_of_bytes(bytes@) is Unknown && bytes@.len() > 0 && e
                == ImageError::UnsupportedFormat(e->UnsupportedFormat_0)
                && e->UnsupportedFormat_0@ == "Unknown image binary format"@,
        },
{
    let format = ImageFormat::from_bytes(bytes);
    if format == ImageFormat::Unknown && bytes.len() > 0 {
        return Err(ImageError::UnsupportedFormat(string_from("Unknown image binary format")));
    }
    Ok(format)
}

/// Whether the image in a buffer carries transparency.
pub fn has_alpha(bytes: &[u8]) -> (r: bool)
    ensures
        r == has_alpha_of(bytes@),
{
    match ImageFormat::from_bytes(bytes) {
        ImageFormat::Png => bytes.len() >= 26 && (bytes[25] == 4 || bytes[25] == 6),
        ImageFormat::Svg => text_of_bytes(bytes).is_some(),
        ImageFormat::WebP | ImageFormat::Gif | ImageFormat::Ico => true,
        _ => false,
    }
}

// ------------------------------------------------------------------
// ASCII art
// ------------------------------------------------------------------

/// The shading characters, lightest first.
pub open spec fn art_char(i: nat) -> char {
    if i == 0 { ' ' }
    else if i == 1 { '.' }
    else if i == 2 { ':' }
    else if i == 3 { '-' }
    else if i == 4 { '=' }
    else if i == 5 { '+' }
    else if i == 6 { '*' }
    else if i == 7 { '%' }
    else if i == 8 { '@' }
    else { '#' }
}

fn art_char_exec(i: usize) -> (c: char)
    requires
        i < 10,
    ensures
        c == art_char(i as nat),
{
    if i == 0 { ' ' }
    else if i == 1 { '.' }
    else if i == 2 { ':' }
    else if i == 3 { '-' }
    else if i == 4 { '=' }
    else if i == 5 { '+' }
    else if i == 6 { '*' }
    else if i == 7 { '%' }
    else if i == 8 { '@' }
    else { '#' }
}

/// `rows` lines of `w` cells each, every line ending in a newline.
pub open spec fn art_text(w: nat, rows: nat, cell: spec_fn(nat, nat) -> char) -> Seq<char>
    decreases rows,
{
    if rows == 0 {
        seq![]
    } else {
        art_text(w, (rows - 1) as nat, cell) + Seq::new(w, |x: int| cell(x as nat, (rows - 1) as nat)).push('\n')
    }
}

/// The pattern drawn for SVG content with `d` elements.
pub open spec fn svg_cell(d: nat) -> spec_fn(nat, nat) -> char {
    |x: nat, y: nat| art_char((x * 7 + y * 13 + d * 3) % 10)
}

/// The shade of the byte sampled for each cell of a `w` by `h` grid.
pub open spec fn byte_cell(b: Seq<u8>, w: nat, h: nat) -> spec_fn(nat, nat) -> char {
    |x: nat, y: nat|
        {
            let offset: nat = ((y * w + x) * b.len()) / (w * h);
            let v: nat = b[(offset % b.len()) as int] as nat;
            art_char(v * 9 / 255)
        }
}

/// How many times `c` occurs in `s`.
pub open spec fn count_char(s: Seq<char>, c: char) -> nat
    decreases s.len(),
{
    if s.len() == 0 {
        0
    } else {
        count_char(s.drop_last(), c) + if s.last() == c { 1nat } else { 0nat }
    }
}

/// `v` clamped to `[lo, hi]`.
pub open spec fn clamp(v: u32, lo: nat, hi: nat) -> nat {
    if v < lo { lo } else if v > hi { hi } else { v as nat }
}

/// The ASCII art of a buffer: a pattern for SVG text, else a grid of
/// sampled bytes; an empty buffer is refused.
pub open spec fn ascii_art_of(b: Seq<u8>, tw: u32, th: u32) -> Option<Seq<char>> {
    let w = clamp(tw, 10, 120);
    let h = clamp(th, 5, 60);
    if format_of_bytes(b) is Svg && vstd::utf8::valid_utf8(b) {
        Some(art_text(w, h, svg_cell(count_char(vstd::utf8::decode_utf8(b), '<'))))
    } else if b.len() == 0 {
        None
    } else {
        Some(art_text(w, h, byte_cell(b, w, h)))
    }
}

fn count_lt(s: &Vec<char>) -> (r: usize)
    ensures
        r == count_char(s@, '<'),
{
    let mut n: usize = 0;
    let mut i: usize = 0;
    while i < s.len()
        invariant
            i <= s.len(),
            n == count_char(s@.take(i as int), '<'),
            n <= i,
        decreases s.len() - i,
    {
        assert(s@.take(i + 1).drop_last() =~= s@.take(i as int));
        if s[i] == '<' {
            n += 1;
        }
        i += 1;
    }
    assert(s@.take(s.len() as int) =~= s@);
    n
}

fn clamp_exec(v: u32, lo: u32, hi: u32) -> (r: usize)
    requires
        lo <= hi,
    ensures
        r == clamp(v, lo as nat, hi as nat),
{
    if v < lo {
        lo as usize
    } else if v > hi {
        hi as usize
    } else {
        v as usize
    }
}

/// Generates an ASCII art preview of raster or vector content.
pub fn generate_ascii_art(bytes: &[u8], target_width: u32, target_height: u32) -> (r: Result<String, ImageError>)
    requires
        bytes@.len() * 8192 <= usize::MAX,
    ensures
        match (r, ascii_art_of(bytes@, target_width, target_height)) {
            (Ok(s), Some(t)) => s@ == t,
            (Err(e), None) => e == ImageError::ProcessingFailed(e->ProcessingFailed_0) && e->ProcessingFailed_0@
                == "Empty buffer provided"@,
            _ => false,
        },
{
    let w = clamp_exec(target_width, 10, 120);
    let h = clamp_exec(target_height, 5, 60);
    let format = ImageFormat::from_bytes(bytes);
    if format == ImageFormat::Svg {
        if let Some(text) = text_of_bytes(bytes) {
            let tc = chars_of(text.as_str());
            let density = count_lt(&tc);
            let ghost cell = svg_cell(density as nat);
            let mut out = String::new();
            let mut y: usize = 0;
            while y < h
                invariant
                    y <= h <= 60,
                    10 <= w <= 120,
                    cell == svg_cell(density as nat),
                    out@ == art_text(w as nat, y as nat, cell),
                decreases h - y,
            {
                let ghost start = out@;
                let mut x: usize = 0;
                while x < w
                    invariant
                        x <= w <= 120,
                        y < h <= 60,
                        cell == svg_cell(density as nat),
                        out@ == start + Seq::new(x as nat, |i: int| cell(i as nat, y as nat)),
                    decreases w - x,
                {
                    let dm = density % 10;
                    proof {
                        let a = (x * 7 + y * 13) as int;
                        let q = (density / 10) as int;
                        vstd::arithmetic::div_mod::lemma_fundamental_div_mod(density as int, 10);
                        vstd::arithmetic::div_mod::lemma_mod_multiples_vanish(3 * q, a + dm * 3, 10);
                        assert(a + density * 3 == 10 * (3 * q) + (a + dm * 3));
                    }
                    let c = art_char_exec((x * 7 + y * 13 + dm * 3) % 10);
                    push_char(&mut out, c);
                    assert(Seq::new((x + 1) as nat, |i: int| cell(i as nat, y as nat)) =~= Seq::new(
                        x as nat,
                        |i: int| cell(i as nat, y as nat),
                    ).push(cell(x as nat, y as nat)));
                    x += 1;
                }
                push_char(&mut out, '\n');
                assert(art_text(w as nat, (y + 1) as nat, cell) == art_text(w as nat, y as nat, cell)
                    + Seq::new(w as nat, |i: int| cell(i as nat, y as nat)).push('\n'));
                assert(out@ =~= art_text(w as nat, (y + 1) as nat, cell));
                y += 1;
            }
            return Ok(out);
        }
    }
    let total = bytes.len();
    if total == 0 {
        return Err(ImageError::ProcessingFailed(string_from("Empty buffer provided")));
    }
    let ghost cell = byte_cell(bytes@, w as nat, h as nat);
    let mut out = String::new();
    let mut y: usize = 0;
    while y < h
        invariant
            y <= h <= 60,
            10 <= w <= 120,
            total == bytes@.len(),
            0 < total,
            5 <= h,
            total * 8192 <= usize::MAX,
            cell == byte_cell(bytes@, w as nat, h as nat),
            out@ == art_text(w as nat, y as nat, cell),
        decreases h - y,
    {
        let ghost start = out@;
        let mut x: usize = 0;
        while x < w
            invariant
                x <= w <= 120,
                10 <= w,
                y < h <= 60,
                5 <= h,
                total == bytes@.len(),
                0 < total,
                total * 8192 <= usize::MAX,
                cell == byte_cell(bytes@, w as nat, h as nat),
                out@ == start + Seq::new(x as nat, |i: int| cell(i as nat, y as nat)),
            decreases w - x,
        {
            assert(y * w <= 7200) by (nonlinear_arith)
                requires
                    y < 60,
                    w <= 120,
            ;
            assert((y * w + x) * total <= 8192 * total) by (nonlinear_arith)
                requires
                    y < 60,
                    w <= 120,
                    x < w,
            ;
            assert(w * h >= 50) by (nonlinear_arith)
                requires
                    w >= 10,
                    h >= 5,
            ;
            assert(w * h <= 7200) by (nonlinear_arith)
                requires
                    w <= 120,
                    h <= 60,
            ;
            let offset = ((y * w + x) * total) / (w * h);
            let byte_val = bytes[offset % total] as usize;
            let c = art_char_exec((byte_val * 9) / 255);
            push_char(&mut out, c);
            assert(Seq::new((x + 1) as nat, |i: int| cell(i as nat, y as nat)) =~= Seq::new(
                x as nat,
                |i: int| cell(i as nat, y as nat),
            ).push(cell(x as nat, y as nat)));
            x += 1;
        }
        push_char(&mut out, '\n');
        assert(out@ =~= art_text(w as nat, (y + 1) as nat, cell));
        y += 1;
    }
    Ok(out)
}

// ------------------------------------------------------------------
// Thumbnail payloads
// ------------------------------------------------------------------

/// Whether a byte is left as is in a URL.
pub open spec fn url_safe(b: u8) -> bool {
    (0x61 <= b <= 0x7a) || (0x41 <= b <= 0x5a) || (0x30 <= b <= 0x39) || b == 0x2d || b == 0x5f
        || b == 0x2e || b == 0x7e
}

/// Percent-encoding of bytes: unreserved bytes as themselves, others as `%XX`.
pub open spec fn url_encoded(b: Seq<u8>) -> Seq<char>
    decreases b.len(),
{
    if b.len() == 0 {
        seq![]
    } else {
        let x = b.last();
        url_encoded(b.drop_last()) + if url_safe(x) {
            seq![x as char]
        } else {
            seq!['%', hex_digit((x / 16) as nat, true), hex_digit((x % 16) as nat, true)]
        }
    }
}

fn hex_upper_exec(d: u8) -> (c: char)
    requires
        d < 16,
    ensures
        c == hex_digit(d as nat, true),
{
    if d < 10 {
        (d + 48) as char
    } else {
        (d + 55) as char
    }
}

/// Percent-encodes the UTF-8 bytes of a text.
pub fn url_encode(input: &str) -> (r: String)
    ensures
        r@ == url_encoded(vstd::utf8::encode_utf8(input@)),
{
    let bytes = input.as_bytes();
    let ghost bs = bytes@;
    assert(bs == vstd::utf8::encode_utf8(input@));
    let mut out = String::new();
    let mut i: usize = 0;
    while i < bytes.len()
        invariant
            i <= bytes@.len(),
            bs == bytes@,
            out@ == url_encoded(bs.take(i as int)),
        decreases bytes.len() - i,
    {
        let b = bytes[i];
        assert(bs.take(i + 1).drop_last() =~= bs.take(i as int));
        assert(bs.take(i + 1).last() == b);
        let ghost before = out@;
        if (0x61 <= b && b <= 0x7a) || (0x41 <= b && b <= 0x5a) || (0x30 <= b && b <= 0x39) || b
            == 0x2d || b == 0x5f || b == 0x2e || b == 0x7e {
            push_char(&mut out, b as char);
            assert(out@ =~= before + seq![b as char]);
        } else {
            push_char(&mut out, '%');
            push_char(&mut out, hex_upper_exec(b / 16));
            push_char(&mut out, hex_upper_exec(b % 16));
            assert(out@ =~= before + seq!['%', hex_digit((b / 16) as nat, true), hex_digit((b % 16) as nat, true)]);
        }
        i += 1;
    }
    assert(bs.take(bytes@.len() as int) =~= bs);
    out
}

/// The name of a format as `Debug` prints it.
pub open spec fn format_name(f: ImageFormat) -> Seq<char> {
    match f {
        ImageFormat::Png => "Png"@,
        ImageFormat::Jpeg => "Jpeg"@,
        ImageFormat::Gif => "Gif"@,
        ImageFormat::Bmp => "Bmp"@,
        ImageFormat::WebP => "WebP"@,
        ImageFormat::Svg => "Svg"@,
        ImageFormat::Ico => "Ico"@,
        ImageFormat::Unknown => "Unknown"@,
    }
}

/// The upper-case name of a format.
pub open spec fn format_label(f: ImageFormat) -> Seq<char> {
    match f {
        ImageFormat::Png => "PNG"@,
        ImageFormat::Jpeg => "JPEG"@,
        ImageFormat::Gif => "GIF"@,
        ImageFormat::Bmp => "BMP"@,
        ImageFormat::WebP => "WEBP"@,
        ImageFormat::Svg => "SVG"@,
        ImageFormat::Ico => "ICO"@,
        ImageFormat::Unknown => "UNKNOWN"@,
    }
}

/// The placeholder colour of a raster format.
pub open spec fn format_color(f: ImageFormat) -> Seq<char> {
    match f {
        ImageFormat::Png => "#3b82f6"@,
        ImageFormat::Jpeg => "#ef4444"@,
        ImageFormat::Gif => "#10b981"@,
        ImageFormat::Bmp => "#f59e0b"@,
        ImageFormat::WebP => "#8b5cf6"@,
        _ => "#6b7280"@,
    }
}

/// The SVG card shown as the thumbnail of a raster image.
pub open spec fn placeholder_svg(f: ImageFormat, d: Dimensions) -> Seq<char> {
    let w = decimal(d.width as nat);
    let h = decimal(d.height as nat);
    "<svg xmlns='http://www.w3.org/2000/svg' width='"@ + w + "' height='"@ + h
        + "'><rect width='100%' height='100%' fill='"@ + format_color(f)
        + "'/><text x='50%' y='50%' dominant-baseline='middle' text-anchor='middle' fill='#ffffff' font-family='sans-serif' font-size='14'>"@
        + format_label(f) + " ("@ + w + "x"@ + h + ")</text></svg>"@
}

/// The payload of a raster thumbnail in the requested output format.
pub open spec fn raster_payload(f: ImageFormat, d: Dimensions, out: ThumbnailOutputFormat, ascii: Option<Seq<char>>) -> Seq<char> {
    match out {
        ThumbnailOutputFormat::DataUrlSvg => "data:image/svg+xml;utf8,"@ + url_encoded(
            vstd::utf8::encode_utf8(placeholder_svg(f, d)),
        ),
        ThumbnailOutputFormat::AsciiArt => match ascii {
            Some(a) => a,
            None => seq![],
        },
        ThumbnailOutputFormat::RawRgba => "RAW_RGBA_"@ + decimal(d.width as nat) + "x"@ + decimal(
            d.height as nat,
        ) + "_"@ + format_name(f),
    }
}

fn format_label_exec(f: ImageFormat) -> (r: &'static str)
    ensures
        r@ == format_label(f),
{
    match f {
        ImageFormat::Png => "PNG",
        ImageFormat::Jpeg => "JPEG",
        ImageFormat::Gif => "GIF",
        ImageFormat::Bmp => "BMP",
        ImageFormat::WebP => "WEBP",
        ImageFormat::Svg => "SVG",
        ImageFormat::Ico => "ICO",
        ImageFormat::Unknown => "UNKNOWN",
    }
}

fn format_name_exec(f: ImageFormat) -> (r: &'static str)
    ensures
        r@ == format_name(f),
{
    match f {
        ImageFormat::Png => "Png",
        ImageFormat::Jpeg => "Jpeg",
        ImageFormat::Gif => "Gif",
        ImageFormat::Bmp => "Bmp",
        ImageFormat::WebP => "WebP",
        ImageFormat::Svg => "Svg",
        ImageFormat::Ico => "Ico",
        ImageFormat::Unknown => "Unknown",
    }
}

fn format_color_exec(f: ImageFormat) -> (r: &'static str)
    ensures
        r@ == format_color(f),
{
    match f {
        ImageFormat::Png => "#3b82f6",
        ImageFormat::Jpeg => "#ef4444",
        ImageFormat::Gif => "#10b981",
        ImageFormat::Bmp => "#f59e0b",
        ImageFormat::WebP => "#8b5cf6",
        _ => "#6b7280",
    }
}

/// The thumbnail of a raster image scaled to `target` (the size that
/// fitting the original into the options' box gives), with ASCII art when
/// asked for.
pub fn raster_thumbnail(
    bytes: &[u8],
    options: &ThumbnailOptions,
    original: Option<Dimensions>,
    target: Dimensions,
) -> (r: Result<Thumbnail, ImageError>)
    requires
        bytes@.len() * 8192 <= usize::MAX,
    ensures
        match r {
            Ok(t) => {
                let ascii = if options.output_format == ThumbnailOutputFormat::AsciiArt {
                    ascii_art_of(bytes@, target.width / 4, target.height / 8)
                } else {
                    None
                };
                &&& t.dimensions == target
                &&& t.original_dimensions == original
                &&& t.format == format_of_bytes(bytes@)
                &&& (options.output_format == ThumbnailOutputFormat::AsciiArt ==> ascii is Some)
                &&& t.data@ == raster_payload(t.format, target, options.output_format, ascii)
                &&& match t.ascii_representation {
                    Some(a) => ascii == Some(a@),
                    None => ascii is None,
                }
            },
            Err(_) => options.output_format == ThumbnailOutputFormat::AsciiArt && ascii_art_of(
                bytes@,
                target.width / 4,
                target.height / 8,
            ) is None,
        },
{
    let format = ImageFormat::from_bytes(bytes);
    let ascii: Option<String> = if options.output_format == ThumbnailOutputFormat::AsciiArt {
        match generate_ascii_art(bytes, target.width / 4, target.height / 8) {
            Ok(a) => Some(a),
            Err(e) => return Err(e),
        }
    } else {
        None
    };
    let data = match options.output_format {
        ThumbnailOutputFormat::DataUrlSvg => {
            let w = decimal_string(target.width as u64);
            let h = decimal_string(target.height as u64);
            let mut svg = string_from("<svg xmlns='http://www.w3.org/2000/svg' width='");
            append_str(&mut svg, w.as_str());
            append_str(&mut svg, "' height='");
            append_str(&mut svg, h.as_str());
            append_str(&mut svg, "'><rect width='100%' height='100%' fill='");
            append_str(&mut svg, format_color_exec(format));
            append_str(
                &mut svg,
                "'/><text x='50%' y='50%' dominant-baseline='middle' text-anchor='middle' fill='#ffffff' font-family='sans-serif' font-size='14'>",
            );
            append_str(&mut svg, format_label_exec(format));
            append_str(&mut svg, " (");
            append_str(&mut svg, w.as_str());
            append_str(&mut svg, "x");
            append_str(&mut svg, h.as_str());
            append_str(&mut svg, ")</text></svg>");
            assert(svg@ =~= placeholder_svg(format, target));
            let mut s = string_from("data:image/svg+xml;utf8,");
            let enc = url_encode(svg.as_str());
            append_str(&mut s, enc.as_str());
            s
        },
        ThumbnailOutputFormat::AsciiArt => match &ascii {
            Some(a) => a.clone(),
            None => String::new(),
        },
        ThumbnailOutputFormat::RawRgba => {
            let mut s = string_from("RAW_RGBA_");
            append_str(&mut s, decimal_string(target.width as u64).as_str());
            append_str(&mut s, "x");
            append_str(&mut s, decimal_string(target.height as u64).as_str());
            append_str(&mut s, "_");
            append_str(&mut s, format_name_exec(format));
            s
        },
    };
    Ok(Thumbnail { dimensions: target, original_dimensions: original, format, data, ascii_representation: ascii })
}

// ------------------------------------------------------------------
// SVG thumbnails
// ------------------------------------------------------------------

/// The content of an SVG document after its opening `<svg ...>` tag (the
/// whole text when there is none).
pub open spec fn svg_body(s: Seq<char>) -> Seq<char> {
    match find(s, "<svg"@) {
        Some(p) => match find(s.skip(p), ">"@) {
            Some(q) => s.skip(p + q + 1),
            None => s,
        },
        None => s,
    }
}

/// An SVG thumbnail document: the body in a new `<svg>` element of the target
/// size with the given view-box attribute.
pub open spec fn svg_thumbnail_text(body: Seq<char>, target: Dimensions, view_box: Seq<char>) -> Seq<char> {
    "<svg xmlns='http://www.w3.org/2000/svg' width='"@ + decimal(target.width as nat) + "' height='"@
        + decimal(target.height as nat) + "' "@ + view_box + ">"@ + body + "</svg>"@
}

/// The data URL of an SVG thumbnail of `svg_content` at the target size,
/// with the view-box attribute written by the caller.
pub fn svg_data_url(svg_content: &str, target: Dimensions, view_box: &str) -> (r: String)
    ensures
        r@ == "data:image/svg+xml;utf8,"@ + url_encoded(
            vstd::utf8::encode_utf8(svg_thumbnail_text(svg_body(svg_content@), target, view_box@)),
        ),
{
    let cs = chars_of(svg_content);
    let open_tag = chars_of("<svg");
    let close = chars_of(">");
    let body: Vec<char> = match find_exec(&cs, &open_tag) {
        Some(p) => {
            proof {
                lemma_find_from_matches(cs@, open_tag@, 0);
            }
            let rest = suffix(&cs, p);
            match find_exec(&rest, &close) {
                Some(q) => {
                    proof {
                        reveal_strlit(">");
                        reveal_strlit("<svg");
                        lemma_find_from_matches(rest@, close@, 0);
                        assert(q + 1 <= rest@.len());
                        assert(p + 4 <= cs@.len());
                        assert(cs@.skip(p as int).skip(q + 1) =~= cs@.skip(p + q + 1));
                    }
                    suffix(&cs, p + q + 1)
                },
                None => cs,
            }
        },
        None => cs,
    };
    let mut w = string_from("<svg xmlns='http://www.w3.org/2000/svg' width='");
    append_str(&mut w, decimal_string(target.width as u64).as_str());
    append_str(&mut w, "' height='");
    append_str(&mut w, decimal_string(target.height as u64).as_str());
    append_str(&mut w, "' ");
    append_str(&mut w, view_box);
    append_str(&mut w, ">");
    append_chars(&mut w, &body);
    append_str(&mut w, "</svg>");
    assert(w@ =~= svg_thumbnail_text(svg_body(svg_content@), target, view_box@));
    let mut s = string_from("data:image/svg+xml;utf8,");
    append_str(&mut s, url_encode(w.as_str()).as_str());
    s
}

/// The raw-pixel placeholder of an SVG thumbnail: `RGBA_THUMBNAIL_<w>x<h>`.
pub fn svg_rgba_placeholder(target: Dimensions) -> (r: String)
    ensures
        r@ == "RGBA_THUMBNAIL_"@ + decimal(target.width as nat) + "x"@ + decimal(target.height as nat),
{
    let mut s = string_from("RGBA_THUMBNAIL_");
    append_str(&mut s, decimal_string(target.width as u64).as_str());
    append_str(&mut s, "x");
    append_str(&mut s, decimal_string(target.height as u64).as_str());
    s
}

} // verus!
