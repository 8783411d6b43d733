//! Hex dump of binary content.
use vstd::prelude::*;
use crate::text::{append_chars, append_str, chars_of, decimal, decimal_string, push_char, string_from};

verus! {

/// Configuration for hex chunk formatting.
#[derive(Debug, Clone, Copy, PartialEq, Eq, Structural)]
pub struct HexChunkConfig {
    pub bytes_per_row: usize,
    pub max_bytes: usize,
    pub uppercase: bool,
}

impl Default for HexChunkConfig {
    fn default() -> (r: Self)
        ensures
            r == (HexChunkConfig { bytes_per_row: 16, max_bytes: 1_000_000, uppercase: false }),
    {
        HexChunkConfig { bytes_per_row: 16, max_bytes: 1_000_000, uppercase: false }
    }
}

/// Represents a single formatted row of a hex dump.
#[derive(Debug, Clone, PartialEq, Eq)]
pub struct HexDumpRow {
    pub offset: usize,
    pub bytes: Vec<u8>,
    pub hex_bytes: String,
    pub ascii: String,
}

/// The hex digit of `d < 16`.
pub open spec fn hex_digit(d: nat, upper: bool) -> char {
    if d < 10 {
        ((d + 48) as u8) as char
    } else if upper {
        ((d + 55) as u8) as char
    } else {
        ((d + 87) as u8) as char
    }
}

/// The two hex digits of a byte.
pub open spec fn byte_hex(b: u8, upper: bool) -> Seq<char> {
    seq![hex_digit((b / 16) as nat, upper), hex_digit((b % 16) as nat, upper)]
}

/// The hex digits of the bytes, separated by spaces.
pub open spec fn row_hex(bytes: Seq<u8>, upper: bool) -> Seq<char>
    decreases bytes.len(),
{
    if bytes.len() == 0 {
        seq![]
    } else if bytes.len() == 1 {
        byte_hex(bytes[0], upper)
    } else {
        row_hex(bytes.drop_last(), upper) + " "@ + byte_hex(bytes.last(), upper)
    }
}

/// How a byte shows in the text column: printable ASCII and space as
/// themselves, anything else as `.`.
pub open spec fn shown_char(b: u8) -> char {
    if (0x21 <= b && b <= 0x7e) || b == 0x20 {
        b as char
    } else {
        '.'
    }
}

/// The text column of the bytes.
pub open spec fn row_ascii(bytes: Seq<u8>) -> Seq<char> {
    bytes.map_values(|b: u8| shown_char(b))
}

/// The row width: at least one byte per row.
pub open spec fn row_width(cfg: HexChunkConfig) -> nat {
    if cfg.bytes_per_row == 0 { 1 } else { cfg.bytes_per_row as nat }
}

/// The number of bytes shown.
pub open spec fn shown_len(len: nat, cfg: HexChunkConfig) -> nat {
    if len < cfg.max_bytes { len } else { cfg.max_bytes as nat }
}

/// Whether `rows` is the hex dump of `data` under `cfg`: the shown bytes cut
/// into rows of the row width, each with its offset, bytes, hex and text.
pub open spec fn is_dump(rows: Seq<HexDumpRow>, data: Seq<u8>, cfg: HexChunkConfig) -> bool {
    let n = shown_len(data.len(), cfg);
    let w = row_width(cfg);
    &&& rows.len() == (n + w - 1) / (w as int)
    &&& forall|k: int|
        0 <= k < rows.len() ==> {
            let lo = k * w;
            let hi = if lo + w < n { lo + w } else { n as int };
            let chunk = data.subrange(lo, hi);
            &&& (#[trigger] rows[k]).offset == lo
            &&& rows[k].bytes@ == chunk
            &&& rows[k].hex_bytes@ == row_hex(chunk, cfg.uppercase)
            &&& rows[k].ascii@ == row_ascii(chunk)
        }
}

fn hex_digit_exec(d: u8, upper: bool) -> (c: char)
    requires
        d < 16,
    ensures
        c == hex_digit(d as nat, upper),
{
    if d < 10 {
        (d + 48) as char
    } else if upper {
        (d + 55) as char
    } else {
        (d + 87) as char
    }
}

fn shown_char_exec(b: u8) -> (c: char)
    ensures
        c == shown_char(b),
{
    if (0x21 <= b && b <= 0x7e) || b == 0x20 {
        b as char
    } else {
        '.'
    }
}

/// The lowercase hex digits of `n`.
pub open spec fn hex_lower(n: nat) -> Seq<char>
    decreases n,
{
    if n < 16 {
        seq![hex_digit(n, false)]
    } else {
        hex_lower(n / 16).push(hex_digit(n % 16, false))
    }
}

/// `s` padded on the left with `c` to at least `w` characters.
pub open spec fn pad_left(s: Seq<char>, w: nat, c: char) -> Seq<char> {
    if s.len() >= w {
        s
    } else {
        Seq::new((w - s.len()) as nat, |_i: int| c) + s
    }
}

/// `s` padded on the right with spaces to at least `w` characters.
pub open spec fn pad_right(s: Seq<char>, w: nat) -> Seq<char> {
    if s.len() >= w {
        s
    } else {
        s + Seq::new((w - s.len()) as nat, |_i: int| ' ')
    }
}

/// The printed line of a row: offset in eight or more hex digits, the hex
/// column padded to the row width, then the text column between bars.
pub open spec fn row_line(r: HexDumpRow, bytes_per_row: nat) -> Seq<char> {
    pad_left(hex_lower(r.offset as nat), 8, '0') + "  "@ + pad_right(
        r.hex_bytes@,
        (bytes_per_row * 3 - 1) as nat,
    ) + "  |"@ + r.ascii@ + "|"@
}

fn hex_lower_exec(n: usize) -> (r: Vec<char>)
    ensures
        r@ == hex_lower(n as nat),
    decreases n,
{
    if n < 16 {
        let mut v: Vec<char> = Vec::new();
        v.push(hex_digit_exec(n as u8, false));
        assert(v@ =~= seq![hex_digit(n as nat, false)]);
        v
    } else {
        let mut v = hex_lower_exec(n / 16);
        v.push(hex_digit_exec((n % 16) as u8, false));
        v
    }
}

pub(crate) fn push_repeated(s: &mut String, c: char, count: usize)
    ensures
        final(s)@ == old(s)@ + Seq::new(count as nat, |_i: int| c),
{
    let mut i: usize = 0;
    while i < count
        invariant
            i <= count,
            s@ == old(s)@ + Seq::new(i as nat, |_i: int| c),
        decreases count - i,
    {
        push_char(s, c);
        assert(Seq::new((i + 1) as nat, |_i: int| c) =~= Seq::new(i as nat, |_i: int| c).push(c));
        i += 1;
    }
}

impl HexDumpRow {
    /// Formats the row as a dump line.
    pub fn format_line(&self, bytes_per_row: usize) -> (r: String)
        requires
            1 <= bytes_per_row,
            bytes_per_row * 3 <= usize::MAX,
        ensures
            r@ == row_line(*self, bytes_per_row as nat),
    {
        let digits = hex_lower_exec(self.offset);
        let mut s = String::new();
        if digits.len() < 8 {
            push_repeated(&mut s, '0', 8 - digits.len());
        }
        append_chars(&mut s, &digits);
        append_str(&mut s, "  ");
        let hex_len = chars_of(self.hex_bytes.as_str()).len();
        append_str(&mut s, self.hex_bytes.as_str());
        let width = bytes_per_row * 3 - 1;
        if hex_len < width {
            push_repeated(&mut s, ' ', width - hex_len);
        }
        append_str(&mut s, "  |");
        append_str(&mut s, self.ascii.as_str());
        append_str(&mut s, "|");
        assert(s@ =~= row_line(*self, bytes_per_row as nat));
        s
    }
}

/// Error type for hex inspection.
#[derive(Debug, Clone, PartialEq, Eq)]
pub enum HexError {
    IoError(String),
    ExceedsLimit { size: usize, limit: usize },
}

/// The message of a hex inspection error.
pub open spec fn hex_error_message(e: HexError) -> Seq<char> {
    match e {
        HexError::IoError(m) => "IO Error: "@ + m@,
        HexError::ExceedsLimit { size, limit } => "Size ("@ + decimal(size as nat) + " bytes) exceeds limit ("@
            + decimal(limit as nat) + " bytes)"@,
    }
}

impl HexError {
    /// The message shown for the error.
    pub fn to_string(&self) -> (r: String)
        ensures
            r@ == hex_error_message(*self),
    {
        match self {
            HexError::IoError(m) => {
                let mut s = string_from("IO Error: ");
                append_str(&mut s, m.as_str());
                s
            },
            HexError::ExceedsLimit { size, limit } => {
                let mut s = string_from("Size (");
                append_str(&mut s, decimal_string(*size as u64).as_str());
                append_str(&mut s, " bytes) exceeds limit (");
                append_str(&mut s, decimal_string(*limit as u64).as_str());
                append_str(&mut s, " bytes)");
                s
            },
        }
    }
}

/// Hex and binary content inspector.
#[derive(Debug, Clone)]
pub struct HexInspector {
    config: HexChunkConfig,
}

/// Builds one row from `data[lo..hi]`.
fn make_row(data: &[u8], lo: usize, hi: usize, upper: bool) -> (r: HexDumpRow)
    requires
        lo < hi <= data@.len(),
    ensures
        r.offset == lo,
        r.bytes@ == data@.subrange(lo as int, hi as int),
        r.hex_bytes@ == row_hex(data@.subrange(lo as int, hi as int), upper),
        r.ascii@ == row_ascii(data@.subrange(lo as int, hi as int)),
{
    let mut bytes: Vec<u8> = Vec::new();
    let mut hex = String::new();
    let mut ascii = String::new();
    let mut i: usize = lo;
    while i < hi
        invariant
            lo <= i <= hi <= data@.len(),
            bytes@ == data@.subrange(lo as int, i as int),
            hex@ == row_hex(bytes@, upper),
            ascii@ == row_ascii(bytes@),
        decreases hi - i,
    {
        proof {
            reveal_strlit(" ");
        }
        let b = data[i];
        let ghost before = bytes@;
        if i > lo {
            push_char(&mut hex, ' ');
        }
        push_char(&mut hex, hex_digit_exec(b / 16, upper));
        push_char(&mut hex, hex_digit_exec(b % 16, upper));
        push_char(&mut ascii, shown_char_exec(b));
        bytes.push(b);
        assert(bytes@.drop_last() =~= before);
        assert(data@.subrange(lo as int, i + 1) =~= data@.subrange(lo as int, i as int).push(b));
        if i > lo {
            assert(hex@ =~= row_hex(before, upper) + " "@ + byte_hex(b, upper));
        } else {
            assert(hex@ =~= byte_hex(b, upper));
        }
        assert(row_ascii(bytes@) =~= row_ascii(before).push(shown_char(b)));
        i += 1;
    }
    HexDumpRow { offset: lo, bytes, hex_bytes: hex, ascii }
}

impl HexInspector {
    /// The configuration the inspector uses.
    pub closed spec fn chunk_config(&self) -> HexChunkConfig {
        self.config
    }

    pub fn new(config: HexChunkConfig) -> (r: Self)
        ensures
            r.chunk_config() == config,
    {
        HexInspector { config }
    }

    /// The number of bytes an inspection reads at most.
    pub fn max_bytes(&self) -> (r: usize)
        ensures
            r == self.chunk_config().max_bytes,
    {
        self.config.max_bytes
    }

    /// The hex dump of the first `max_bytes` bytes.
    pub fn inspect_bytes(&self, data: &[u8]) -> (r: Vec<HexDumpRow>)
        ensures
            is_dump(r@, data@, self.chunk_config()),
    {
        let cfg = self.config;
        let n = if data.len() < cfg.max_bytes {
            data.len()
        } else {
            cfg.max_bytes
        };
        let w = if cfg.bytes_per_row == 0 {
            1
        } else {
            cfg.bytes_per_row
        };
        let mut rows: Vec<HexDumpRow> = Vec::new();
        let mut lo: usize = 0;
        assert(0 * w == 0) by (nonlinear_arith);
        while lo < n
            invariant
                n == shown_len(data@.len(), cfg),
                w == row_width(cfg),
                w >= 1,
                n <= data@.len(),
                lo <= n,
                lo < n ==> lo == rows@.len() * w,
                lo == n ==> rows@.len() * w >= n,
                rows@.len() > 0 ==> (rows@.len() - 1) * w < n,
                forall|k: int|
                    0 <= k < rows@.len() ==> {
                        let a = k * w;
                        let b = if a + w < n { a + w } else { n as int };
                        let chunk = data@.subrange(a, b);
                        &&& (#[trigger] rows@[k]).offset == a
                        &&& rows@[k].bytes@ == chunk
                        &&& rows@[k].hex_bytes@ == row_hex(chunk, cfg.uppercase)
                        &&& rows@[k].ascii@ == row_ascii(chunk)
                    },
            decreases n - lo,
        {
            let hi = if n - lo > w {
                lo + w
            } else {
                n
            };
            let ghost k = rows@.len();
            let row = make_row(data, lo, hi, cfg.uppercase);
            rows.push(row);
            assert(rows@[k as int] == row);
            assert((k + 1) * w == lo + w) by (nonlinear_arith)
                requires
                    lo == k * w,
            ;
            lo = hi;
        }
        proof {
            let m = rows@.len();
            if m == 0 {
                assert(n == 0);
                assert((n + w - 1) / (w as int) == 0) by (nonlinear_arith)
                    requires
                        n == 0,
                        w >= 1,
                ;
            } else {
                assert((n + w - 1) / (w as int) == m) by (nonlinear_arith)
                    requires
                        m * w >= n,
                        (m - 1) * w < n,
                        w >= 1,
                ;
            }
        }
        rows
    }
}

impl Default for HexInspector {
    fn default() -> (r: Self)
        ensures
            r.chunk_config() == (HexChunkConfig { bytes_per_row: 16, max_bytes: 1_000_000, uppercase: false }),
    {
        HexInspector { config: HexChunkConfig::default() }
    }
}

} // verus!
