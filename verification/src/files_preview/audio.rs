//! Audio formats recognised from leading bytes or extensions, and the
//! metadata that the headers and tags of a buffer carry.
use vstd::prelude::*;
use crate::text::{append_str, chars_of, eq_str, lines, lines_exec, lowercase_chars, opt_view, split_once_char, split_once_char_exec, string_from, string_of, trim, trim_char, trim_char_exec, trim_exec, unicode_lowercase, views};
use crate::files_preview::image::{bytes_start};

verus! {

/// Supported audio formats for previews and metadata.
#[derive(Debug, Clone, Copy, PartialEq, Eq, Structural, Hash)]
pub enum AudioFormat {
    Mp3,
    Flac,
    Wav,
    Ogg,
    Unknown,
}

/// The format that the leading bytes announce.
pub open spec fn audio_format_of_bytes(b: Seq<u8>) -> AudioFormat {
    if bytes_start(b, seq![0x49u8, 0x44, 0x33]) || (b.len() >= 2 && b[0] == 0xFF && b[1] & 0xE0
        == 0xE0) {
        AudioFormat::Mp3
    } else if bytes_start(b, seq![0x66u8, 0x4C, 0x61, 0x43]) {
        AudioFormat::Flac
    } else if b.len() >= 12 && bytes_start(b, seq![0x52u8, 0x49, 0x46, 0x46]) && b.subrange(8, 12)
        == seq![0x57u8, 0x41, 0x56, 0x45] {
        AudioFormat::Wav
    } else if bytes_start(b, seq![0x4Fu8, 0x67, 0x67, 0x53]) {
        AudioFormat::Ogg
    } else {
        AudioFormat::Unknown
    }
}

/// The format a (lowercased) extension names.
pub open spec fn audio_format_of_extension(e: Seq<char>) -> AudioFormat {
    if e == "mp3"@ {
        AudioFormat::Mp3
    } else if e == "flac"@ {
        AudioFormat::Flac
    } else if e == "wav"@ {
        AudioFormat::Wav
    } else if e == "ogg"@ || e == "oga"@ {
        AudioFormat::Ogg
    } else {
        AudioFormat::Unknown
    }
}

/// The MIME type of an audio format.
pub open spec fn audio_mime(f: AudioFormat) -> Seq<char> {
    match f {
        AudioFormat::Mp3 => "audio/mpeg"@,
        AudioFormat::Flac => "audio/flac"@,
        AudioFormat::Wav => "audio/wav"@,
        AudioFormat::Ogg => "audio/ogg"@,
        AudioFormat::Unknown => "application/octet-stream"@,
    }
}

/// Whether four bytes at `i` are `a b c d`.
fn four_at(b: &[u8], i: usize, a: u8, c1: u8, c2: u8, c3: u8) -> (r: bool)
    requires
        i + 4 <= b@.len(),
    ensures
        r == (b@.subrange(i as int, i + 4) == seq![a, c1, c2, c3]),
{
    let r = b[i] == a && b[i + 1] == c1 && b[i + 2] == c2 && b[i + 3] == c3;
    proof {
        let s = b@.subrange(i as int, i + 4);
        if r {
            assert(s =~= seq![a, c1, c2, c3]);
        } else if s == seq![a, c1, c2, c3] {
            assert(s[0] == b@[i as int] && s[1] == b@[i + 1] && s[2] == b@[i + 2] && s[3] == b@[i + 3]);
        }
    }
    r
}

impl AudioFormat {
    /// Detects the format from the magic bytes at the start of a buffer.
    pub fn from_bytes(b: &[u8]) -> (r: Self)
        ensures
            r == audio_format_of_bytes(b@),
    {
        let id3 = b.len() >= 3 && b[0] == 0x49 && b[1] == 0x44 && b[2] == 0x33;
        proof {
            if b@.len() >= 3 {
                if id3 {
                    assert(b@.take(3) =~= seq![0x49u8, 0x44, 0x33]);
                } else if b@.take(3) == seq![0x49u8, 0x44, 0x33] {
                    assert(b@.take(3)[0] == b@[0] && b@.take(3)[1] == b@[1] && b@.take(3)[2] == b@[2]);
                }
            }
        }
        if id3 || (b.len() >= 2 && b[0] == 0xFF && (b[1] & 0xE0) == 0xE0) {
            return AudioFormat::Mp3;
        }
        if b.len() >= 4 && four_at(b, 0, 0x66, 0x4C, 0x61, 0x43) {
            assert(b@.take(4) =~= b@.subrange(0, 4));
            return AudioFormat::Flac;
        }
        if b.len() >= 4 {
            assert(b@.take(4) =~= b@.subrange(0, 4));
        }
        if b.len() >= 12 && four_at(b, 0, 0x52, 0x49, 0x46, 0x46) && four_at(b, 8, 0x57, 0x41, 0x56, 0x45) {
            return AudioFormat::Wav;
        }
        if b.len() >= 4 && four_at(b, 0, 0x4F, 0x67, 0x67, 0x53) {
            return AudioFormat::Ogg;
        }
        AudioFormat::Unknown
    }

    /// Detects the format from a file extension (any case).
    pub fn from_extension(ext: &str) -> (r: Self)
        ensures
            r == audio_format_of_extension(unicode_lowercase(ext@)),
    {
        let e = lowercase_chars(ext);
        if eq_str(&e, "mp3") {
            AudioFormat::Mp3
        } else if eq_str(&e, "flac") {
            AudioFormat::Flac
        } else if eq_str(&e, "wav") {
            AudioFormat::Wav
        } else if eq_str(&e, "ogg") || eq_str(&e, "oga") {
            AudioFormat::Ogg
        } else {
            AudioFormat::Unknown
        }
    }

    /// Returns the MIME type associated with the format.
    pub fn mime_type(&self) -> (r: &'static str)
        ensures
            r@ == audio_mime(*self),
    {
        match self {
            AudioFormat::Mp3 => "audio/mpeg",
            AudioFormat::Flac => "audio/flac",
            AudioFormat::Wav => "audio/wav",
            AudioFormat::Ogg => "audio/ogg",
            AudioFormat::Unknown => "application/octet-stream",
        }
    }
}

/// Errors of audio metadata parsing.
#[derive(Debug, Clone, PartialEq, Eq)]
pub enum AudioError {
    IoError(String),
    UnsupportedFormat(String),
    InvalidHeader,
    ParsingFailed(String),
}

/// The message of an audio error.
pub open spec fn audio_error_message(e: AudioError) -> Seq<char> {
    match e {
        AudioError::IoError(m) => "IO error: "@ + m@,
        AudioError::UnsupportedFormat(m) => "Unsupported format: "@ + m@,
        AudioError::InvalidHeader => "Invalid audio header"@,
        AudioError::ParsingFailed(m) => "Parsing failed: "@ + m@,
    }
}

impl AudioError {
    /// The message shown for the error.
    pub fn to_string(&self) -> (r: String)
        ensures
            r@ == audio_error_message(*self),
    {
        match self {
            AudioError::IoError(m) => {
                let mut s = string_from("IO error: ");
                append_str(&mut s, m.as_str());
                s
            },
            AudioError::UnsupportedFormat(m) => {
                let mut s = string_from("Unsupported format: ");
                append_str(&mut s, m.as_str());
                s
            },
            AudioError::InvalidHeader => string_from("Invalid audio header"),
            AudioError::ParsingFailed(m) => {
                let mut s = string_from("Parsing failed: ");
                append_str(&mut s, m.as_str());
                s
            },
        }
    }
}

/// Previewer and metadata parser for audio streams.
pub struct AudioPreviewer;

/// Checks that a buffer is in a known audio format: an empty buffer passes,
/// an unknown non-empty one is refused.
pub fn check_audio_format(bytes: &[u8]) -> (r: Result<AudioFormat, AudioError>)
    ensures
        match r {
            Ok(f) => f == audio_format_of_bytes(bytes@) && (f is Unknown ==> bytes@.len() == 0),
            Err(e) => audio_format_of_bytes(bytes@) is Unknown && bytes@.len() > 0 && e
                == AudioError::UnsupportedFormat(e->UnsupportedFormat_0)
                && e->UnsupportedFormat_0@ == "Unknown audio format"@,
        },
{
    let format = AudioFormat::from_bytes(bytes);
    if format == AudioFormat::Unknown && bytes.len() > 0 {
        return Err(AudioError::UnsupportedFormat(string_from("Unknown audio format")));
    }
    Ok(format)
}

// ------------------------------------------------------------------
// Metadata
// ------------------------------------------------------------------

/// Result of `String::from_utf8_lossy`: the bytes decoded, each invalid
/// sequence replaced by U+FFFD.
pub uninterp spec fn utf8_lossy(b: Seq<u8>) -> Seq<char>;

/// Result of `str::to_uppercase` (full Unicode uppercase mapping).
pub uninterp spec fn unicode_uppercase(s: Seq<char>) -> Seq<char>;

/// Calls `String::from_utf8_lossy`. The result is named `utf8_lossy`; the
/// documentation promises the plain decoding for valid UTF-8.
#[verifier::external_body]
fn lossy_text(bytes: &[u8]) -> (r: String)
    ensures
        r@ == utf8_lossy(bytes@),
        vstd::utf8::valid_utf8(bytes@) ==> r@ == vstd::utf8::decode_utf8(bytes@),
{
    String::from_utf8_lossy(bytes).into_owned()
}

/// Calls `str::to_uppercase`; the result is named `unicode_uppercase`.
#[verifier::external_body]
fn to_uppercase(s: &str) -> (r: String)
    ensures
        r@ == unicode_uppercase(s@),
{
    s.to_uppercase()
}

/// Title, artist and album found so far.
pub type Tags = (Option<Seq<char>>, Option<Seq<char>>, Option<Seq<char>>);

/// Metadata extracted from an audio buffer. The duration is exact: seconds
/// as a numerator and a denominator.
#[derive(Debug, Clone, PartialEq, Eq)]
pub struct AudioMetadata {
    pub format: AudioFormat,
    pub title: Option<String>,
    pub artist: Option<String>,
    pub album: Option<String>,
    pub duration: Option<(u128, u64)>,
    pub bitrate_kbps: Option<u32>,
    pub sample_rate: Option<u32>,
    pub channels: Option<u16>,
    pub file_size: u64,
}

pub open spec fn tags_of(m: AudioMetadata) -> Tags {
    (opt_view(m.title), opt_view(m.artist), opt_view(m.album))
}

/// A big-endian 32-bit number at `i`.
pub open spec fn be32(b: Seq<u8>, i: int) -> nat {
    (b[i] as nat) * 16777216 + (b[i + 1] as nat) * 65536 + (b[i + 2] as nat) * 256 + (b[i + 3] as nat)
}

/// A little-endian 32-bit number at `i`.
pub open spec fn le32(b: Seq<u8>, i: int) -> nat {
    (b[i] as nat) + (b[i + 1] as nat) * 256 + (b[i + 2] as nat) * 65536 + (b[i + 3] as nat) * 16777216
}

/// A little-endian 16-bit number at `i`.
pub open spec fn le16(b: Seq<u8>, i: int) -> nat {
    (b[i] as nat) + (b[i + 1] as nat) * 256
}

/// The tags after an ID3v2 text frame `id` with text `text`: `TIT2` sets
/// the title, `TPE1` the artist, `TALB` the album.
pub open spec fn id3_frame(id: Seq<u8>, text: Seq<char>, t: Tags) -> Tags {
    if id == seq![0x54u8, 0x49, 0x54, 0x32] {
        (Some(text), t.1, t.2)
    } else if id == seq![0x54u8, 0x50, 0x45, 0x31] {
        (t.0, Some(text), t.2)
    } else if id == seq![0x54u8, 0x41, 0x4C, 0x42] {
        (t.0, t.1, Some(text))
    } else {
        t
    }
}

/// The text of an ID3v2 frame payload: after the encoding byte, decoded,
/// without surrounding NULs and whitespace.
pub open spec fn id3_text(payload: Seq<u8>) -> Seq<char> {
    trim(trim_char(utf8_lossy(payload.skip(1)), '\0'))
}

/// The tags read from the ID3v2 frames from `idx` up to `limit`; reading
/// stops at an empty frame or one that runs past the limit.
pub open spec fn id3_scan(b: Seq<u8>, idx: int, limit: int, t: Tags) -> Tags
    decreases limit - idx,
{
    if idx < 0 || idx + 10 > limit || limit > b.len() {
        t
    } else {
        let size = be32(b, idx + 4) as int;
        if size == 0 || idx + 10 + size > limit {
            t
        } else {
            let payload = b.subrange(idx + 10, idx + 10 + size);
            let t2 = if payload.len() > 1 && id3_text(payload).len() > 0 {
                id3_frame(b.subrange(idx, idx + 4), id3_text(payload), t)
            } else {
                t
            };
            id3_scan(b, idx + 10 + size, limit, t2)
        }
    }
}

/// The size of an ID3v2 tag (synchsafe, at bytes 6..10).
pub open spec fn id3_size(b: Seq<u8>) -> nat {
    ((b[6] % 128) as nat) * 2097152 + ((b[7] % 128) as nat) * 16384 + ((b[8] % 128) as nat) * 128 + ((b[9] % 128) as nat)
}

/// The tags of an MP3 buffer: ID3v2 frames at the start, else an ID3v1 tag
/// in the last 128 bytes.
pub open spec fn mp3_tags(b: Seq<u8>) -> Tags {
    if bytes_start(b, seq![0x49u8, 0x44, 0x33]) && b.len() >= 10 {
        let limit: int = if 10 + id3_size(b) < b.len() { 10 + id3_size(b) as int } else { b.len() as int };
        id3_scan(b, 10, limit, (None, None, None))
    } else if b.len() >= 128 && b.subrange(b.len() - 128, b.len() - 125) == seq![0x54u8, 0x41, 0x47] {
        let l = b.len() as int;
        (
            Some(trim(utf8_lossy(b.subrange(l - 125, l - 95)))),
            Some(trim(utf8_lossy(b.subrange(l - 95, l - 65)))),
            Some(trim(utf8_lossy(b.subrange(l - 65, l - 35)))),
        )
    } else {
        (None, None, None)
    }
}

/// The tags after a `KEY=value` line: the first non-empty `TITLE`/`INAM`,
/// `ARTIST`/`IART` and `ALBUM`/`IPRD` (keys in any case) are kept.
pub open spec fn kv_line(t: Tags, line: Seq<char>) -> Tags {
    match split_once_char(line, '=') {
        Some((k, v)) => {
            let key = unicode_uppercase(trim(k));
            let val = trim(v);
            if val.len() == 0 {
                t
            } else if (key == "TITLE"@ || key == "INAM"@) && t.0 is None {
                (Some(val), t.1, t.2)
            } else if (key == "ARTIST"@ || key == "IART"@) && t.1 is None {
                (t.0, Some(val), t.2)
            } else if (key == "ALBUM"@ || key == "IPRD"@) && t.2 is None {
                (t.0, t.1, Some(val))
            } else {
                t
            }
        },
        None => t,
    }
}

/// The tags after the given lines.
pub open spec fn kv_scan(ls: Seq<Seq<char>>, t: Tags) -> Tags
    decreases ls.len(),
{
    if ls.len() == 0 {
        t
    } else {
        kv_line(kv_scan(ls.drop_last(), t), ls.last())
    }
}

/// The tags of the `KEY=value` lines in the first 8 KiB of a buffer.
pub open spec fn kv_tags(b: Seq<u8>, t: Tags) -> Tags {
    let n = if b.len() < 8192 { b.len() as int } else { 8192 };
    kv_scan(lines(utf8_lossy(b.take(n))), t)
}

/// The tags of a buffer in format `f`.
pub open spec fn audio_tags(b: Seq<u8>, f: AudioFormat) -> Tags {
    match f {
        AudioFormat::Mp3 => mp3_tags(b),
        AudioFormat::Unknown => (None, None, None),
        _ => kv_tags(b, (None, None, None)),
    }
}

/// Sample rate, channels, bitrate and duration of a buffer in format `f`.
/// MP3 and Ogg get nominal values; FLAC's bitrate is left unset.
pub open spec fn audio_stream(b: Seq<u8>, f: AudioFormat, file_size: u64) -> (Option<u32>, Option<u16>, Option<u32>, Option<(u128, u64)>) {
    match f {
        AudioFormat::Mp3 => (Some(44100), Some(2), Some(192),
            if file_size > 0 { Some(((file_size * 8) as u128, 192000u64)) } else { None }),
        AudioFormat::Ogg => (Some(44100), Some(2), Some(160),
            if file_size > 0 { Some(((file_size * 8) as u128, 160000u64)) } else { None }),
        AudioFormat::Flac => if b.len() >= 42 && bytes_start(b, seq![0x66u8, 0x4C, 0x61, 0x43]) {
            let sr = (b[18] as nat) * 4096 + (b[19] as nat) * 16 + (b[20] as nat) / 16;
            let ch = ((b[20] as nat) / 2) % 8 + 1;
            let samples = ((b[21] % 16) as nat) * 4294967296 + (b[22] as nat) * 16777216 + (b[23] as nat) * 65536
                + (b[24] as nat) * 256 + (b[25] as nat);
            if sr > 0 {
                (Some(sr as u32), Some(ch as u16), None, Some((samples as u128, sr as u64)))
            } else {
                (None, None, None, None)
            }
        } else {
            (None, None, None, None)
        },
        AudioFormat::Wav => if is_wav_header(b) {
            let rate = le32(b, 28);
            (Some(le32(b, 24) as u32), Some(le16(b, 22) as u16),
                if rate > 0 { Some((rate * 8 / 1000) as u32) } else { None },
                if rate > 0 { Some((file_size as u128, rate as u64)) } else { None })
        } else {
            (None, None, None, None)
        },
        AudioFormat::Unknown => (None, None, None, None),
    }
}

/// A RIFF/WAVE header with its format chunk.
pub open spec fn is_wav_header(b: Seq<u8>) -> bool {
    b.len() >= 36 && bytes_start(b, seq![0x52u8, 0x49, 0x46, 0x46]) && b.subrange(8, 12) == seq![0x57u8, 0x41, 0x56, 0x45]
}

/// The byte rate of a WAVE header fits in a bitrate computation (8 times it
/// fits in 32 bits).
pub open spec fn wav_rate_fits(b: Seq<u8>) -> bool {
    audio_format_of_bytes(b) is Wav && is_wav_header(b) ==> le32(b, 28) * 8 <= u32::MAX
}

fn id3_frame_exec(b: &[u8], i: usize, text: String, t: &mut (Option<String>, Option<String>, Option<String>))
    requires
        i + 4 <= b@.len(),
    ensures
        (opt_view(final(t).0), opt_view(final(t).1), opt_view(final(t).2)) == id3_frame(
            b@.subrange(i as int, i + 4),
            text@,
            (opt_view(old(t).0), opt_view(old(t).1), opt_view(old(t).2)),
        ),
{
    if four_at(b, i, 0x54, 0x49, 0x54, 0x32) {
        t.0 = Some(text);
    } else if four_at(b, i, 0x54, 0x50, 0x45, 0x31) {
        t.1 = Some(text);
    } else if four_at(b, i, 0x54, 0x41, 0x4C, 0x42) {
        t.2 = Some(text);
    }
}

fn be32_exec(b: &[u8], i: usize) -> (r: u64)
    requires
        i + 4 <= b@.len(),
    ensures
        r == be32(b@, i as int),
{
    (b[i] as u64) * 16777216 + (b[i + 1] as u64) * 65536 + (b[i + 2] as u64) * 256 + (b[i + 3] as u64)
}

fn le32_exec(b: &[u8], i: usize) -> (r: u32)
    requires
        i + 4 <= b@.len(),
    ensures
        r == le32(b@, i as int),
{
    (b[i] as u32) + (b[i + 1] as u32) * 256 + (b[i + 2] as u32) * 65536 + (b[i + 3] as u32) * 16777216
}

/// The text of an ID3v2 payload.
fn id3_text_exec(payload: &[u8]) -> (r: Vec<char>)
    requires
        payload@.len() > 1,
    ensures
        r@ == id3_text(payload@),
{
    let rest = slice_bytes(payload, 1, payload.len());
    assert(rest@ == payload@.skip(1));
    let raw = lossy_text(rest.as_slice());
    let c = chars_of(raw.as_str());
    trim_exec(&trim_char_exec(&c, '\0'))
}

/// Copies `b[lo..hi]`.
fn slice_bytes(b: &[u8], lo: usize, hi: usize) -> (r: Vec<u8>)
    requires
        lo <= hi <= b@.len(),
    ensures
        r@ == b@.subrange(lo as int, hi as int),
{
    let mut out: Vec<u8> = Vec::new();
    let mut i = lo;
    while i < hi
        invariant
            lo <= i <= hi <= b@.len(),
            out@ == b@.subrange(lo as int, i as int),
        decreases hi - i,
    {
        out.push(b[i]);
        i += 1;
    }
    out
}

/// Reads the tags of an MP3 buffer.
fn mp3_tags_exec(b: &[u8]) -> (r: (Option<String>, Option<String>, Option<String>))
    ensures
        (opt_view(r.0), opt_view(r.1), opt_view(r.2)) == mp3_tags(b@),
{
    let mut t: (Option<String>, Option<String>, Option<String>) = (None, None, None);
    let id3 = b.len() >= 3 && b[0] == 0x49 && b[1] == 0x44 && b[2] == 0x33;
    proof {
        if b@.len() >= 3 {
            if id3 {
                assert(b@.take(3) =~= seq![0x49u8, 0x44, 0x33]);
            } else if b@.take(3) == seq![0x49u8, 0x44, 0x33] {
                assert(b@.take(3)[0] == b@[0] && b@.take(3)[1] == b@[1] && b@.take(3)[2] == b@[2]);
            }
        }
    }
    if id3 && b.len() >= 10 {
        let tag_size: u64 = ((b[6] % 128) as u64) * 2097152 + ((b[7] % 128) as u64) * 16384
            + ((b[8] % 128) as u64) * 128 + ((b[9] % 128) as u64);
        let limit: usize = if 10 + tag_size < b.len() as u64 { (10 + tag_size) as usize } else { b.len() };
        let ghost lim = limit as int;
        assert(lim == (if 10 + id3_size(b@) < b@.len() { 10 + id3_size(b@) as int } else { b@.len() as int }));
        let mut idx: usize = 10;
        assert(mp3_tags(b@) == id3_scan(b@, 10, lim, (None, None, None)));
        while limit - idx >= 10
            invariant
                10 <= idx <= limit,
                limit <= b@.len(),
                lim == limit,
                mp3_tags(b@) == id3_scan(b@, 10, lim, (None, None, None)),
                id3_scan(b@, 10, lim, (None, None, None)) == id3_scan(b@, idx as int, lim, (opt_view(t.0), opt_view(t.1), opt_view(t.2))),
            decreases limit - idx,
        {
            let size = be32_exec(b, idx + 4);
            if size == 0 || size > (limit - idx - 10) as u64 {
                return t;
            }
            let end = idx + 10 + size as usize;
            if size > 1 {
                let payload = slice_bytes(b, idx + 10, end);
                let text = id3_text_exec(payload.as_slice());
                if text.len() > 0 {
                    id3_frame_exec(b, idx, string_of(&text), &mut t);
                }
            }
            idx = end;
        }
        t
    } else if b.len() >= 128 && b[b.len() - 128] == 0x54 && b[b.len() - 127] == 0x41 && b[b.len() - 126] == 0x47 {
        let l = b.len();
        assert(b@.subrange(l - 128, l - 125) =~= seq![0x54u8, 0x41, 0x47]);
        let title = lossy_text(slice_bytes(b, l - 125, l - 95).as_slice());
        let artist = lossy_text(slice_bytes(b, l - 95, l - 65).as_slice());
        let album = lossy_text(slice_bytes(b, l - 65, l - 35).as_slice());
        (
            Some(string_of(&trim_exec(&chars_of(title.as_str())))),
            Some(string_of(&trim_exec(&chars_of(artist.as_str())))),
            Some(string_of(&trim_exec(&chars_of(album.as_str())))),
        )
    } else {
        proof {
            if b@.len() >= 128 && b@.subrange(b@.len() - 128, b@.len() - 125) == seq![0x54u8, 0x41, 0x47] {
                let l = b@.len() as int;
                assert(b@.subrange(l - 128, l - 125)[0] == b@[l - 128]);
                assert(b@.subrange(l - 128, l - 125)[1] == b@[l - 127]);
                assert(b@.subrange(l - 128, l - 125)[2] == b@[l - 126]);
            }
        }
        t
    }
}

type TagSlots = (Option<String>, Option<String>, Option<String>);

pub open spec fn slots_view(t: TagSlots) -> Tags {
    (opt_view(t.0), opt_view(t.1), opt_view(t.2))
}

fn kv_line_exec(line: &Vec<char>, t: &mut TagSlots)
    ensures
        slots_view(*final(t)) == kv_line(slots_view(*old(t)), line@),
{
    match split_once_char_exec(line, '=') {
        Some((k, v)) => {
            let key = to_uppercase(string_of(&trim_exec(&k)).as_str());
            let kc = chars_of(key.as_str());
            let val = trim_exec(&v);
            if val.len() == 0 {
                return;
            }
            if (eq_str(&kc, "TITLE") || eq_str(&kc, "INAM")) && t.0.is_none() {
                t.0 = Some(string_of(&val));
            } else if (eq_str(&kc, "ARTIST") || eq_str(&kc, "IART")) && t.1.is_none() {
                t.1 = Some(string_of(&val));
            } else if (eq_str(&kc, "ALBUM") || eq_str(&kc, "IPRD")) && t.2.is_none() {
                t.2 = Some(string_of(&val));
            }
        },
        None => {},
    }
}

fn kv_tags_exec(b: &[u8], t: &mut TagSlots)
    ensures
        slots_view(*final(t)) == kv_tags(b@, slots_view(*old(t))),
{
    let n = if b.len() < 8192 { b.len() } else { 8192 };
    let head = slice_bytes(b, 0, n);
    assert(head@ =~= b@.take(n as int));
    let text = lossy_text(head.as_slice());
    let ls = lines_exec(&chars_of(text.as_str()));
    let ghost lv = views(ls@);
    let ghost t0 = slots_view(*t);
    let mut i: usize = 0;
    while i < ls.len()
        invariant
            i <= ls.len(),
            lv == views(ls@),
            slots_view(*t) == kv_scan(lv.take(i as int), t0),
        decreases ls.len() - i,
    {
        assert(lv.take(i + 1).drop_last() =~= lv.take(i as int));
        assert(lv.take(i + 1).last() == ls@[i as int]@);
        kv_line_exec(&ls[i], t);
        i += 1;
    }
    assert(lv.take(ls.len() as int) =~= lv);
}

impl AudioPreviewer {
    /// Reads the metadata of an audio buffer of `file_size` bytes. A
    /// non-empty buffer of unknown format is refused.
    pub fn parse_metadata(bytes: &[u8], file_size: u64) -> (r: Result<AudioMetadata, AudioError>)
        requires
            wav_rate_fits(bytes@),
        ensures
            match r {
                Ok(m) => {
                    let f = audio_format_of_bytes(bytes@);
                    let st = audio_stream(bytes@, f, file_size);
                    &&& !(f is Unknown && bytes@.len() > 0)
                    &&& m.format == f
                    &&& tags_of(m) == audio_tags(bytes@, f)
                    &&& (m.sample_rate, m.channels, m.bitrate_kbps, m.duration) == st
                    &&& m.file_size == file_size
                },
                Err(e) => audio_format_of_bytes(bytes@) is Unknown && bytes@.len() > 0
                    && (e matches AudioError::UnsupportedFormat(msg) && msg@ == "Unknown audio format"@),
            },
    {
        let format = match check_audio_format(bytes) {
            Ok(f) => f,
            Err(e) => return Err(e),
        };
        let mut t: TagSlots = (None, None, None);
        let mut sample_rate: Option<u32> = None;
        let mut channels: Option<u16> = None;
        let mut bitrate: Option<u32> = None;
        let mut duration: Option<(u128, u64)> = None;
        match format {
            AudioFormat::Mp3 => {
                t = mp3_tags_exec(bytes);
                sample_rate = Some(44100);
                channels = Some(2);
                bitrate = Some(192);
                if file_size > 0 {
                    duration = Some(((file_size as u128) * 8, 192000));
                }
            },
            AudioFormat::Ogg => {
                sample_rate = Some(44100);
                channels = Some(2);
                bitrate = Some(160);
                if file_size > 0 {
                    duration = Some(((file_size as u128) * 8, 160000));
                }
                kv_tags_exec(bytes, &mut t);
            },
            AudioFormat::Flac => {
                if bytes.len() >= 42 && four_at(bytes, 0, 0x66, 0x4C, 0x61, 0x43) {
                    assert(bytes@.take(4) =~= bytes@.subrange(0, 4));
                    let sr: u32 = (bytes[18] as u32) * 4096 + (bytes[19] as u32) * 16 + (bytes[20] as u32) / 16;
                    let ch: u16 = ((bytes[20] as u16) / 2) % 8 + 1;
                    let samples: u64 = ((bytes[21] % 16) as u64) * 4294967296 + (bytes[22] as u64) * 16777216
                        + (bytes[23] as u64) * 65536 + (bytes[24] as u64) * 256 + (bytes[25] as u64);
                    if sr > 0 {
                        sample_rate = Some(sr);
                        channels = Some(ch);
                        duration = Some((samples as u128, sr as u64));
                    }
                } else {
                    proof {
                        if bytes@.len() >= 4 {
                            assert(bytes@.take(4) =~= bytes@.subrange(0, 4));
                        }
                    }
                }
                kv_tags_exec(bytes, &mut t);
            },
            AudioFormat::Wav => {
                if bytes.len() >= 36 && four_at(bytes, 0, 0x52, 0x49, 0x46, 0x46) && four_at(bytes, 8, 0x57, 0x41, 0x56, 0x45) {
                    assert(bytes@.take(4) =~= bytes@.subrange(0, 4));
                    let ch: u16 = (bytes[22] as u16) + (bytes[23] as u16) * 256;
                    let sr = le32_exec(bytes, 24);
                    let byte_rate = le32_exec(bytes, 28);
                    channels = Some(ch);
                    sample_rate = Some(sr);
                    if byte_rate > 0 {
                        bitrate = Some((byte_rate * 8) / 1000);
                        duration = Some((file_size as u128, byte_rate as u64));
                    }
                } else {
                    proof {
                        if bytes@.len() >= 4 {
                            assert(bytes@.take(4) =~= bytes@.subrange(0, 4));
                        }
                    }
                }
                kv_tags_exec(bytes, &mut t);
            },
            AudioFormat::Unknown => {},
        }
        let (title, artist, album) = t;
        Ok(AudioMetadata {
            format,
            title,
            artist,
            album,
            duration,
            bitrate_kbps: bitrate,
            sample_rate,
            channels,
            file_size,
        })
    }
}

/// Distance of a byte from the midpoint 128.
pub open spec fn deviation(b: u8) -> u8 {
    if b >= 128 { (b - 128) as u8 } else { (128 - b) as u8 }
}

/// The largest deviation in a run of bytes (0 for none).
pub open spec fn max_deviation(s: Seq<u8>) -> u8
    decreases s.len(),
{
    if s.len() == 0 {
        0
    } else {
        let m = max_deviation(s.drop_last());
        if deviation(s.last()) > m { deviation(s.last()) } else { m }
    }
}

/// The number of bins a waveform is cut into: the request, clamped to 8..=256.
pub open spec fn bin_count(n: nat) -> nat {
    if n < 8 { 8 } else if n > 256 { 256 } else { n }
}

/// The bytes per bin.
pub open spec fn chunk_len(len: nat, bins: nat) -> nat {
    if len / bins > 1 { len / bins } else { 1 }
}

/// The peak deviation of each bin of a buffer.
pub open spec fn waveform_levels_of(b: Seq<u8>, bins: nat) -> Seq<u8> {
    let c = chunk_len(b.len(), bins);
    Seq::new(bins, |i: int| {
        let start = i * c;
        let end = if start + c < b.len() { start + c } else { b.len() as int };
        max_deviation(b.subrange(start, end))
    })
}

fn max_deviation_exec(b: &[u8], start: usize, end: usize) -> (r: u8)
    requires
        start <= end <= b@.len(),
    ensures
        r == max_deviation(b@.subrange(start as int, end as int)),
{
    let mut m: u8 = 0;
    let mut i = start;
    while i < end
        invariant
            start <= i <= end <= b@.len(),
            m == max_deviation(b@.subrange(start as int, i as int)),
        decreases end - i,
    {
        assert(b@.subrange(start as int, i + 1).drop_last() =~= b@.subrange(start as int, i as int));
        let x = b[i];
        let d: u8 = if x >= 128 { x - 128 } else { 128 - x };
        if d > m {
            m = d;
        }
        i += 1;
    }
    m
}

impl AudioPreviewer {
    /// The waveform of a buffer as the peak deviation from 128 of each of
    /// `num_bins` (clamped to 8..=256) equal chunks; a peak of 128 is full
    /// scale. An empty buffer and one of unknown format are refused.
    pub fn waveform_levels(bytes: &[u8], num_bins: usize) -> (r: Result<Vec<u8>, AudioError>)
        requires
            wav_rate_fits(bytes@),
            bytes@.len() == 0 || bytes@.len() + 1 >= bin_count(num_bins as nat),
        ensures
            bytes@.len() == 0 ==> (r matches Err(e) && e matches AudioError::ParsingFailed(m) && m@ == "Empty payload"@),
            bytes@.len() > 0 && audio_format_of_bytes(bytes@) is Unknown ==> (r matches Err(e) && e matches AudioError::UnsupportedFormat(m) && m@ == "Unknown audio format"@),
            bytes@.len() > 0 && !(audio_format_of_bytes(bytes@) is Unknown) ==> (r matches Ok(v)
                && v@ == waveform_levels_of(bytes@, bin_count(num_bins as nat))),
    {
        if bytes.len() == 0 {
            return Err(AudioError::ParsingFailed(string_from("Empty payload")));
        }
        match Self::parse_metadata(bytes, bytes.len() as u64) {
            Ok(_) => {},
            Err(e) => return Err(e),
        }
        let bins: usize = if num_bins < 8 { 8 } else if num_bins > 256 { 256 } else { num_bins };
        let chunk: usize = if bytes.len() / bins > 1 { bytes.len() / bins } else { 1 };
        let ghost want = waveform_levels_of(bytes@, bins as nat);
        let mut out: Vec<u8> = Vec::new();
        let mut bin: usize = 0;
        while bin < bins
            invariant
                bin <= bins <= 256,
                bins == bin_count(num_bins as nat),
                chunk == chunk_len(bytes@.len(), bins as nat),
                bytes@.len() + 1 >= bins,
                bytes@.len() > 0,
                want == waveform_levels_of(bytes@, bins as nat),
                out@ == want.take(bin as int),
            decreases bins - bin,
        {
            proof {
                if chunk > 1 {
                    vstd::arithmetic::div_mod::lemma_fundamental_div_mod(bytes@.len() as int, bins as int);
                    assert(bin * chunk <= (bins - 1) * chunk) by (nonlinear_arith)
                        requires bin < bins, chunk > 1;
                    assert((bins - 1) * chunk + chunk == bins * chunk) by (nonlinear_arith);
                    assert(bins * chunk <= bytes@.len()) by (nonlinear_arith)
                        requires chunk == bytes@.len() / (bins as nat), bins > 0;
                } else {
                    assert(bin * chunk == bin) by (nonlinear_arith)
                        requires chunk == 1;
                }
            }
            assert(bin * chunk <= bytes.len());
            let start = bin * chunk;
            let end = if chunk < bytes.len() - start { start + chunk } else { bytes.len() };
            let m = max_deviation_exec(bytes, start, end);
            out.push(m);
            assert(out@ =~= want.take(bin + 1));
            bin += 1;
        }
        assert(out@ =~= want);
        Ok(out)
    }
}

} // verus!
