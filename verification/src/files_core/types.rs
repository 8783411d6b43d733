//! Core filesystem types: node kinds, permissions and the size formatter.
use vstd::prelude::*;
use crate::files_core::scanner::{int_order, int_order_u64, lemma_text_order_antisym, text_order, text_order_exec, time_order, time_order_exec};
use crate::text::{append_str, chars_of, lowercase_chars, decimal, decimal_string, digit_char, digit_char_exec, eq_str, file_name, file_name_exec, lowercase_vec, opt_view, path_extension, path_extension_exec, push_char, string_from, string_of, unicode_lowercase};

verus! {

/// Represents the high-level category of a filesystem node.
#[derive(Debug, Clone, PartialEq, Eq, Hash)]
pub enum FileType {
    File,
    Directory,
    Symlink { target: Option<String> },
    Special,
}

impl FileType {
    pub fn is_file(&self) -> (r: bool)
        ensures
            r == (*self is File),
    {
        matches!(self, FileType::File)
    }

    pub fn is_dir(&self) -> (r: bool)
        ensures
            r == (*self is Directory),
    {
        matches!(self, FileType::Directory)
    }

    pub fn is_symlink(&self) -> (r: bool)
        ensures
            r == (*self is Symlink),
    {
        matches!(self, FileType::Symlink { .. })
    }

    pub fn is_special(&self) -> (r: bool)
        ensures
            r == (*self is Special),
    {
        matches!(self, FileType::Special)
    }
}

/// Categorizes a file by format or role for icons and preview dispatch.
#[derive(Debug, Clone, Copy, PartialEq, Eq, Structural, Hash)]
pub enum FileKind {
    Image,
    Audio,
    Video,
    Document,
    Code,
    Archive,
    Directory,
    Symlink,
    Unknown,
}

/// The kind that a (lowercased) extension stands for.
pub open spec fn kind_of_extension(e: Seq<char>) -> FileKind {
    if e == "png"@ || e == "jpg"@ || e == "jpeg"@ || e == "gif"@ || e == "webp"@ || e == "svg"@
        || e == "bmp"@ || e == "ico"@ || e == "tiff"@ || e == "avif"@ {
        FileKind::Image
    } else if e == "mp3"@ || e == "flac"@ || e == "wav"@ || e == "aac"@ || e == "ogg"@ || e
        == "m4a"@ || e == "opus"@ {
        FileKind::Audio
    } else if e == "mp4"@ || e == "mkv"@ || e == "webm"@ || e == "avi"@ || e == "mov"@ || e
        == "flv"@ || e == "wmv"@ {
        FileKind::Video
    } else if e == "pdf"@ || e == "md"@ || e == "markdown"@ || e == "txt"@ || e == "doc"@ || e
        == "docx"@ || e == "odt"@ || e == "epub"@ || e == "rtf"@ {
        FileKind::Document
    } else if e == "rs"@ || e == "js"@ || e == "ts"@ || e == "jsx"@ || e == "tsx"@ || e == "py"@
        || e == "c"@ || e == "cpp"@ || e == "h"@ || e == "hpp"@ || e == "go"@ || e == "java"@ || e
        == "json"@ || e == "toml"@ || e == "yaml"@ || e == "yml"@ || e == "html"@ || e == "css"@
        || e == "sh"@ || e == "bash"@ || e == "zsh"@ || e == "sql"@ || e == "xml"@ {
        FileKind::Code
    } else if e == "zip"@ || e == "tar"@ || e == "gz"@ || e == "bz2"@ || e == "xz"@ || e == "7z"@
        || e == "rar"@ || e == "zst"@ {
        FileKind::Archive
    } else {
        FileKind::Unknown
    }
}

/// The kind of the node at `path` with type `t`: directories and symlinks by
/// their type, everything else by the lowercased extension of the path.
pub open spec fn kind_of_path(path: Seq<char>, t: FileType) -> FileKind {
    if t is Directory {
        FileKind::Directory
    } else if t is Symlink {
        FileKind::Symlink
    } else {
        let ext = match path_extension(path) {
            Some(e) => e,
            None => Seq::<char>::empty(),
        };
        kind_of_extension(unicode_lowercase(ext))
    }
}

/// Classifies a lowercased extension.
fn classify_extension(e: &Vec<char>) -> (r: FileKind)
    ensures
        r == kind_of_extension(e@),
{
    if eq_str(e, "png") || eq_str(e, "jpg") || eq_str(e, "jpeg") || eq_str(e, "gif") || eq_str(
        e,
        "webp",
    ) || eq_str(e, "svg") || eq_str(e, "bmp") || eq_str(e, "ico") || eq_str(e, "tiff") || eq_str(
        e,
        "avif",
    ) {
        FileKind::Image
    } else if eq_str(e, "mp3") || eq_str(e, "flac") || eq_str(e, "wav") || eq_str(e, "aac")
        || eq_str(e, "ogg") || eq_str(e, "m4a") || eq_str(e, "opus") {
        FileKind::Audio
    } else if eq_str(e, "mp4") || eq_str(e, "mkv") || eq_str(e, "webm") || eq_str(e, "avi")
        || eq_str(e, "mov") || eq_str(e, "flv") || eq_str(e, "wmv") {
        FileKind::Video
    } else if eq_str(e, "pdf") || eq_str(e, "md") || eq_str(e, "markdown") || eq_str(e, "txt")
        || eq_str(e, "doc") || eq_str(e, "docx") || eq_str(e, "odt") || eq_str(e, "epub")
        || eq_str(e, "rtf") {
        FileKind::Document
    } else if eq_str(e, "rs") || eq_str(e, "js") || eq_str(e, "ts") || eq_str(e, "jsx") || eq_str(
        e,
        "tsx",
    ) || eq_str(e, "py") || eq_str(e, "c") || eq_str(e, "cpp") || eq_str(e, "h") || eq_str(
        e,
        "hpp",
    ) || eq_str(e, "go") || eq_str(e, "java") || eq_str(e, "json") || eq_str(e, "toml")
        || eq_str(e, "yaml") || eq_str(e, "yml") || eq_str(e, "html") || eq_str(e, "css")
        || eq_str(e, "sh") || eq_str(e, "bash") || eq_str(e, "zsh") || eq_str(e, "sql")
        || eq_str(e, "xml") {
        FileKind::Code
    } else if eq_str(e, "zip") || eq_str(e, "tar") || eq_str(e, "gz") || eq_str(e, "bz2")
        || eq_str(e, "xz") || eq_str(e, "7z") || eq_str(e, "rar") || eq_str(e, "zst") {
        FileKind::Archive
    } else {
        FileKind::Unknown
    }
}

impl FileKind {
    /// Determines the `FileKind` from a file path and file type.
    pub fn from_path_and_type(path: &str, file_type: &FileType) -> (r: Self)
        ensures
            r == kind_of_path(path@, *file_type),
    {
        if file_type.is_dir() {
            return FileKind::Directory;
        }
        if file_type.is_symlink() {
            return FileKind::Symlink;
        }
        let p = chars_of(path);
        let ext = match path_extension_exec(&p) {
            Some(e) => e,
            None => Vec::new(),
        };
        let lower = lowercase_vec(&ext);
        classify_extension(&lower)
    }
}

/// File permissions metadata across OS platforms.
#[derive(Debug, Clone, PartialEq, Eq, Structural)]
pub struct FilePermissions {
    pub readonly: bool,
    pub mode: Option<u32>,
}

/// The permission letter `c` when `bit` is set in `mode`, else `-`.
pub open spec fn perm_char(mode: u32, bit: u32, c: char) -> char {
    if mode & bit != 0 { c } else { '-' }
}

/// The POSIX permission string of the low nine bits of `mode`.
pub open spec fn mode_string(mode: u32) -> Seq<char> {
    seq![
        perm_char(mode, 0o400, 'r'), perm_char(mode, 0o200, 'w'), perm_char(mode, 0o100, 'x'),
        perm_char(mode, 0o040, 'r'), perm_char(mode, 0o020, 'w'), perm_char(mode, 0o010, 'x'),
        perm_char(mode, 0o004, 'r'), perm_char(mode, 0o002, 'w'), perm_char(mode, 0o001, 'x'),
    ]
}

/// What `to_mode_string` shows for a permission set.
pub open spec fn permissions_string(p: FilePermissions) -> Seq<char> {
    match p.mode {
        Some(m) => mode_string(m),
        None => if p.readonly { "r--r--r--"@ } else { "rw-r--r--"@ },
    }
}

fn perm_char_exec(mode: u32, bit: u32, c: char) -> (r: char)
    ensures
        r == perm_char(mode, bit, c),
{
    if mode & bit != 0 { c } else { '-' }
}

impl FilePermissions {
    pub fn new(readonly: bool, mode: Option<u32>) -> (r: Self)
        ensures
            r == (FilePermissions { readonly, mode }),
    {
        FilePermissions { readonly, mode }
    }

    /// Formats unix mode as a POSIX permissions string (e.g., `rwxr-xr-x`).
    pub fn to_mode_string(&self) -> (r: String)
        ensures
            r@ == permissions_string(*self),
    {
        match self.mode {
            Some(mode) => {
                let mut s = String::new();
                push_char(&mut s, perm_char_exec(mode, 0o400, 'r'));
                push_char(&mut s, perm_char_exec(mode, 0o200, 'w'));
                push_char(&mut s, perm_char_exec(mode, 0o100, 'x'));
                push_char(&mut s, perm_char_exec(mode, 0o040, 'r'));
                push_char(&mut s, perm_char_exec(mode, 0o020, 'w'));
                push_char(&mut s, perm_char_exec(mode, 0o010, 'x'));
                push_char(&mut s, perm_char_exec(mode, 0o004, 'r'));
                push_char(&mut s, perm_char_exec(mode, 0o002, 'w'));
                push_char(&mut s, perm_char_exec(mode, 0o001, 'x'));
                assert(s@ =~= mode_string(mode));
                s
            },
            None => {
                if self.readonly {
                    string_from("r--r--r--")
                } else {
                    string_from("rw-r--r--")
                }
            },
        }
    }
}


/// Complete metadata of a file entry. Timestamps are UTC instants as
/// (seconds since the Unix epoch, nanoseconds).
#[derive(Debug, Clone, PartialEq, Eq)]
pub struct FileMetadata {
    pub size: u64,
    pub created: Option<(i64, u32)>,
    pub modified: Option<(i64, u32)>,
    pub accessed: Option<(i64, u32)>,
    pub permissions: FilePermissions,
    pub is_hidden: bool,
}

impl FileMetadata {
    /// The size in human-readable form (e.g. "500 B", "12.4 KB").
    pub fn formatted_size(&self) -> (r: String)
        ensures
            r@ == bytes_string(self.size as nat),
    {
        format_bytes(self.size)
    }
}

/// A file entry of the file views.
#[derive(Debug, Clone, PartialEq, Eq)]
pub struct FileEntry {
    pub path: String,
    pub name: String,
    pub file_type: FileType,
    pub file_kind: FileKind,
    pub metadata: FileMetadata,
    pub git_status: Option<String>,
    pub ai_tags: Vec<String>,
}

impl FileEntry {
    /// Builds an entry from its path, type and metadata: the name is the
    /// path's file name (empty when it has none) and the kind follows from
    /// the path and type.
    pub fn from_parts(path: &str, file_type: FileType, metadata: FileMetadata) -> (r: Self)
        ensures
            r.path@ == path@,
            r.name@ == (match file_name(path@) { Some(n) => n, None => seq![] }),
            r.file_type == file_type,
            r.file_kind == kind_of_path(path@, file_type),
            r.metadata == metadata,
            r.git_status is None,
            r.ai_tags@.len() == 0,
    {
        let p = chars_of(path);
        let name = match file_name_exec(&p) {
            Some(n) => string_of(&n),
            None => String::new(),
        };
        let file_kind = FileKind::from_path_and_type(path, &file_type);
        FileEntry {
            path: string_from(path),
            name,
            file_type,
            file_kind,
            metadata,
            git_status: None,
            ai_tags: Vec::new(),
        }
    }

    /// The extension of the entry's path.
    pub fn extension(&self) -> (r: Option<String>)
        ensures
            opt_view(r) == path_extension(self.path@),
    {
        let p = chars_of(self.path.as_str());
        match path_extension_exec(&p) {
            Some(e) => Some(string_of(&e)),
            None => None,
        }
    }

    pub fn is_hidden(&self) -> (r: bool)
        ensures
            r == self.metadata.is_hidden,
    {
        self.metadata.is_hidden
    }

    pub fn is_dir(&self) -> (r: bool)
        ensures
            r == (self.file_type is Directory),
    {
        self.file_type.is_dir()
    }

    pub fn is_file(&self) -> (r: bool)
        ensures
            r == (self.file_type is File),
    {
        self.file_type.is_file()
    }

    pub fn is_symlink(&self) -> (r: bool)
        ensures
            r == (self.file_type is Symlink),
    {
        self.file_type.is_symlink()
    }
}

/// Criteria by which file entries can be sorted.
#[derive(Debug, Clone, Copy, PartialEq, Eq, Structural)]
pub enum FileSortKey {
    Name,
    Size,
    Modified,
    Extension,
    Kind,
}

/// Direction of sorting.
#[derive(Debug, Clone, Copy, PartialEq, Eq, Structural)]
pub enum SortDirection {
    Ascending,
    Descending,
}

/// Criteria container combining key and direction.
#[derive(Debug, Clone, Copy, PartialEq, Eq, Structural)]
pub struct SortCriteria {
    pub key: FileSortKey,
    pub direction: SortDirection,
}

impl Default for SortCriteria {
    fn default() -> (r: Self)
        ensures
            r == (SortCriteria { key: FileSortKey::Name, direction: SortDirection::Ascending }),
    {
        SortCriteria { key: FileSortKey::Name, direction: SortDirection::Ascending }
    }
}

/// Whether the file name of `path` starts with a dot.
pub open spec fn path_is_hidden(path: Seq<char>) -> bool {
    match file_name(path) {
        Some(n) => n.len() > 0 && n[0] == '.',
        None => false,
    }
}

/// Whether the last component of `path` is a dot-file.
pub fn is_path_hidden(path: &str) -> (r: bool)
    ensures
        r == path_is_hidden(path@),
{
    let p = chars_of(path);
    match file_name_exec(&p) {
        Some(n) => n.len() > 0 && n[0] == '.',
        None => false,
    }
}

// ------------------------------------------------------------------
// Human-readable sizes
// ------------------------------------------------------------------

/// `num / den` rounded to the nearest integer, ties to even.
pub open spec fn div_round_even(num: nat, den: nat) -> nat {
    let q = num / den;
    let r = num % den;
    if 2 * r > den || (2 * r == den && q % 2 == 1) {
        q + 1
    } else {
        q
    }
}

/// The spacing of `f64` values near `x * u`, where `u` is the spacing found so far.
pub open spec fn f64_spacing_from(x: nat, u: nat) -> nat
    decreases x,
{
    if x < 0x20_0000_0000_0000 {
        u
    } else {
        f64_spacing_from(x / 2, 2 * u)
    }
}

/// The value of `b as f64`: the nearest multiple of the spacing of 53-bit
/// mantissas, ties to even.
pub open spec fn as_f64_value(b: nat) -> nat {
    let u = f64_spacing_from(b, 1);
    div_round_even(b, u) * u
}

/// A number of tenths shown with one decimal (`{:.1}`).
pub open spec fn tenths_string(t: nat) -> Seq<char> {
    decimal(t / 10) + seq!['.', digit_char(t % 10)]
}

/// `num / den` printed with one decimal, rounded half to even.
pub open spec fn one_decimal(num: nat, den: nat) -> Seq<char> {
    tenths_string(div_round_even(num * 10, den))
}

pub open spec fn kib() -> nat { 1024 }
pub open spec fn mib() -> nat { 1024 * 1024 }
pub open spec fn gib() -> nat { 1024 * 1024 * 1024 }
pub open spec fn tib() -> nat { 1024 * 1024 * 1024 * 1024 }

/// A size in bytes in human-readable form ("512 B", "1.5 KB", "3.1 MB").
pub open spec fn bytes_string(b: nat) -> Seq<char> {
    if b >= tib() {
        one_decimal(as_f64_value(b), tib()) + " TB"@
    } else if b >= gib() {
        one_decimal(b, gib()) + " GB"@
    } else if b >= mib() {
        one_decimal(b, mib()) + " MB"@
    } else if b >= kib() {
        one_decimal(b, kib()) + " KB"@
    } else {
        decimal(b) + " B"@
    }
}

fn div_round_even_exec(num: u128, den: u128) -> (r: u128)
    requires
        den > 0,
        den < 0x1_0000_0000_0000_0000_0000_0000,
        num < 0x1_0000_0000_0000_0000_0000_0000,
    ensures
        r == div_round_even(num as nat, den as nat),
{
    let q = num / den;
    let r = num % den;
    if 2 * r > den || (2 * r == den && q % 2 == 1) {
        q + 1
    } else {
        q
    }
}

/// `b as f64`, as an exact integer.
fn as_f64_exact(b: u64) -> (r: u128)
    ensures
        r == as_f64_value(b as nat),
        r <= 2 * (b as nat) + 1,
{
    let mut x: u64 = b;
    let mut u: u64 = 1;
    while x >= 0x20_0000_0000_0000
        invariant
            u >= 1,
            u == 1 || x >= 0x10_0000_0000_0000,
            (x as nat) * (u as nat) <= b as nat,
            f64_spacing_from(x as nat, u as nat) == f64_spacing_from(b as nat, 1),
        decreases x,
    {
        assert((x as nat / 2) * (2 * u as nat) <= (x as nat) * (u as nat)) by (nonlinear_arith);
        assert(2 * (u as nat) <= (x as nat) * (u as nat)) by (nonlinear_arith)
            requires
                x >= 2,
        ;
        x = x / 2;
        u = u * 2;
    }
    let q = div_round_even_exec(b as u128, u as u128);
    proof {
        let bn = b as nat;
        let un = u as nat;
        assert(bn / un * un <= bn) by (nonlinear_arith)
            requires
                un > 0,
        ;
        assert(q <= bn / un + 1);
        assert((q as nat) * un <= (bn / un + 1) * un) by (nonlinear_arith)
            requires
                q <= bn / un + 1,
        ;
        assert((bn / un + 1) * un == bn / un * un + un) by (nonlinear_arith);
        if un > 1 {
            assert(un <= (x as nat) * un) by (nonlinear_arith)
                requires
                    x >= 1,
            ;
        }
        assert((q as nat) * un <= 2 * bn + 1);
    }
    q * (u as u128)
}

/// `num / den` printed with one decimal.
fn one_decimal_exec(num: u128, den: u128) -> (r: String)
    requires
        1024 <= den <= 0x1_0000_0000_0000_0000,
        num < 0x4_0000_0000_0000_0000,
    ensures
        r@ == one_decimal(num as nat, den as nat),
{
    let t = div_round_even_exec(num * 10, den);
    proof {
        vstd::arithmetic::div_mod::lemma_div_is_ordered_by_denominator(
            (num * 10) as int,
            1024,
            den as int,
        );
        assert(t <= (num as nat * 10) / (den as nat) + 1);
        assert((num as nat * 10) / 1024 < 0x4000_0000_0000_0000);
        assert(t < 0x4000_0000_0000_0001);
        assert(t / 10 < 0x4000_0000_0000_0000);
    }
    let hi = (t / 10) as u64;
    let lo = (t % 10) as u64;
    assert(hi as nat == t as nat / 10);
    assert(lo as nat == t as nat % 10);
    let mut s = decimal_string(hi);
    push_char(&mut s, '.');
    push_char(&mut s, digit_char_exec(lo));
    assert(s@ =~= tenths_string(t as nat));
    s
}

/// Formats a byte count into a human-readable string ("500 B", "12.4 KB").
pub fn format_bytes(bytes: u64) -> (r: String)
    ensures
        r@ == bytes_string(bytes as nat),
{
    let kb: u64 = 1024;
    let mb: u64 = kb * 1024;
    let gb: u64 = mb * 1024;
    let tb: u64 = gb * 1024;
    if bytes >= tb {
        let v = as_f64_exact(bytes);
        let mut s = one_decimal_exec(v, tb as u128);
        append_str(&mut s, " TB");
        s
    } else if bytes >= gb {
        let mut s = one_decimal_exec(bytes as u128, gb as u128);
        append_str(&mut s, " GB");
        s
    } else if bytes >= mb {
        let mut s = one_decimal_exec(bytes as u128, mb as u128);
        append_str(&mut s, " MB");
        s
    } else if bytes >= kb {
        let mut s = one_decimal_exec(bytes as u128, kb as u128);
        append_str(&mut s, " KB");
        s
    } else {
        let mut s = decimal_string(bytes);
        append_str(&mut s, " B");
        s
    }
}

// ------------------------------------------------------------------
// Ordering of entries
// ------------------------------------------------------------------

/// The name a kind is listed under (its variant name).
pub open spec fn kind_name(k: FileKind) -> Seq<char> {
    match k {
        FileKind::Image => "Image"@,
        FileKind::Audio => "Audio"@,
        FileKind::Video => "Video"@,
        FileKind::Document => "Document"@,
        FileKind::Code => "Code"@,
        FileKind::Archive => "Archive"@,
        FileKind::Directory => "Directory"@,
        FileKind::Symlink => "Symlink"@,
        FileKind::Unknown => "Unknown"@,
    }
}

/// The lowercased extension used for sorting (absent sorts as empty).
pub open spec fn ext_key(e: FileEntry) -> Seq<char> {
    unicode_lowercase(match path_extension(e.path@) {
        Some(x) => x,
        None => Seq::<char>::empty(),
    })
}

/// How two entries compare by the sort key, before the direction applies.
pub open spec fn key_order(a: FileEntry, b: FileEntry, key: FileSortKey) -> int {
    match key {
        FileSortKey::Name => text_order(unicode_lowercase(a.name@), unicode_lowercase(b.name@)),
        FileSortKey::Size => int_order(a.metadata.size as int, b.metadata.size as int),
        FileSortKey::Modified => time_order(a.metadata.modified, b.metadata.modified),
        FileSortKey::Extension => text_order(ext_key(a), ext_key(b)),
        FileSortKey::Kind => text_order(kind_name(a.file_kind), kind_name(b.file_kind)),
    }
}

/// How two entries compare: directories first when asked, then the key in
/// the chosen direction; 0 when they tie.
pub open spec fn criteria_order(a: FileEntry, b: FileEntry, c: SortCriteria, dirs_first: bool) -> int {
    let ad = a.file_type is Directory;
    let bd = b.file_type is Directory;
    if dirs_first && ad && !bd {
        -1
    } else if dirs_first && !ad && bd {
        1
    } else {
        match c.direction {
            SortDirection::Ascending => key_order(a, b, c.key),
            SortDirection::Descending => -key_order(a, b, c.key),
        }
    }
}

/// Inserts `x` before the first entry that it does not follow.
pub open spec fn insert_by_criteria(t: Seq<FileEntry>, x: FileEntry, c: SortCriteria, d: bool) -> Seq<FileEntry>
    decreases t.len(),
{
    if t.len() == 0 {
        seq![x]
    } else if criteria_order(x, t[0], c, d) <= 0 {
        seq![x] + t
    } else {
        seq![t[0]] + insert_by_criteria(t.drop_first(), x, c, d)
    }
}

/// The entries in the stable order of the comparison: entries that tie keep
/// their relative order.
pub open spec fn sorted_by_criteria(s: Seq<FileEntry>, c: SortCriteria, d: bool) -> Seq<FileEntry>
    decreases s.len(),
{
    if s.len() == 0 {
        s
    } else {
        insert_by_criteria(sorted_by_criteria(s.drop_first(), c, d), s[0], c, d)
    }
}

fn kind_name_exec(k: FileKind) -> (r: &'static str)
    ensures
        r@ == kind_name(k),
{
    match k {
        FileKind::Image => "Image",
        FileKind::Audio => "Audio",
        FileKind::Video => "Video",
        FileKind::Document => "Document",
        FileKind::Code => "Code",
        FileKind::Archive => "Archive",
        FileKind::Directory => "Directory",
        FileKind::Symlink => "Symlink",
        FileKind::Unknown => "Unknown",
    }
}

fn ext_key_exec(e: &FileEntry) -> (r: Vec<char>)
    ensures
        r@ == ext_key(*e),
{
    let p = chars_of(e.path.as_str());
    let x = match path_extension_exec(&p) {
        Some(x) => x,
        None => Vec::new(),
    };
    lowercase_vec(&x)
}

/// Compares two entries under the criteria.
pub fn compare_by_criteria(a: &FileEntry, b: &FileEntry, c: SortCriteria, dirs_first: bool) -> (r: i8)
    ensures
        r == criteria_order(*a, *b, c, dirs_first),
{
    let ad = a.is_dir();
    let bd = b.is_dir();
    if dirs_first && ad && !bd {
        return -1;
    } else if dirs_first && !ad && bd {
        return 1;
    }
    let k: i8 = match c.key {
        FileSortKey::Name => {
            let la = lowercase_chars(a.name.as_str());
            let lb = lowercase_chars(b.name.as_str());
            text_order_exec(&la, &lb)
        },
        FileSortKey::Size => int_order_u64(a.metadata.size, b.metadata.size),
        FileSortKey::Modified => time_order_exec(a.metadata.modified, b.metadata.modified),
        FileSortKey::Extension => {
            let ea = ext_key_exec(a);
            let eb = ext_key_exec(b);
            text_order_exec(&ea, &eb)
        },
        FileSortKey::Kind => {
            let na = chars_of(kind_name_exec(a.file_kind));
            let nb = chars_of(kind_name_exec(b.file_kind));
            text_order_exec(&na, &nb)
        },
    };
    match c.direction {
        SortDirection::Ascending => k,
        SortDirection::Descending => -k,
    }
}

proof fn lemma_insert_by_criteria_at(t: Seq<FileEntry>, x: FileEntry, c: SortCriteria, d: bool, j: int)
    requires
        0 <= j <= t.len(),
        forall|k: int| 0 <= k < j ==> criteria_order(x, #[trigger] t[k], c, d) > 0,
        j < t.len() ==> criteria_order(x, t[j], c, d) <= 0,
    ensures
        insert_by_criteria(t, x, c, d) == t.take(j).push(x) + t.skip(j),
    decreases j,
{
    if j == 0 {
        assert(t.take(0).push(x) + t.skip(0) =~= seq![x] + t);
        if t.len() == 0 {
            assert(seq![x] + t =~= seq![x]);
        }
    } else {
        let u = t.drop_first();
        assert forall|k: int| 0 <= k < j - 1 implies criteria_order(x, #[trigger] u[k], c, d) > 0 by {
            assert(u[k] == t[k + 1]);
        }
        lemma_insert_by_criteria_at(u, x, c, d, j - 1);
        assert(t.take(j).push(x) + t.skip(j) =~= seq![t[0]] + (u.take(j - 1).push(x) + u.skip(j - 1)));
    }
}

/// Each entry is ordered before or together with the next.
pub open spec fn ordered_by_criteria(s: Seq<FileEntry>, c: SortCriteria, d: bool) -> bool {
    forall|i: int| 0 <= i < s.len() - 1 ==> criteria_order(#[trigger] s[i], s[i + 1], c, d) <= 0
}

/// Swapping the entries negates their comparison.
proof fn lemma_criteria_order_antisym(a: FileEntry, b: FileEntry, c: SortCriteria, d: bool)
    ensures
        criteria_order(a, b, c, d) == -criteria_order(b, a, c, d),
{
    lemma_text_order_antisym(unicode_lowercase(a.name@), unicode_lowercase(b.name@));
    lemma_text_order_antisym(ext_key(a), ext_key(b));
    lemma_text_order_antisym(kind_name(a.file_kind), kind_name(b.file_kind));
}

proof fn lemma_insert_by_criteria_keeps_order(t: Seq<FileEntry>, x: FileEntry, c: SortCriteria, d: bool)
    requires
        ordered_by_criteria(t, c, d),
    ensures
        ordered_by_criteria(insert_by_criteria(t, x, c, d), c, d),
        insert_by_criteria(t, x, c, d).to_multiset() == t.to_multiset().insert(x),
        insert_by_criteria(t, x, c, d).len() == t.len() + 1,
        insert_by_criteria(t, x, c, d)[0] == x || (t.len() > 0 && insert_by_criteria(t, x, c, d)[0] == t[0]),
    decreases t.len(),
{
    broadcast use vstd::seq_lib::group_to_multiset_ensures;
    if t.len() == 0 {
        assert(seq![x] =~= Seq::<FileEntry>::empty().push(x));
    } else if criteria_order(x, t[0], c, d) <= 0 {
        let r = seq![x] + t;
        assert forall|i: int| 0 <= i < r.len() - 1 implies criteria_order(#[trigger] r[i], r[i + 1], c, d) <= 0 by {
            if i > 0 {
                assert(r[i] == t[i - 1]);
                assert(r[i + 1] == t[i]);
            }
        }
        vstd::seq_lib::lemma_multiset_commutative(seq![x], t);
        assert(seq![x] =~= Seq::<FileEntry>::empty().push(x));
    } else {
        let u = t.drop_first();
        assert forall|i: int| 0 <= i < u.len() - 1 implies criteria_order(#[trigger] u[i], u[i + 1], c, d) <= 0 by {
            assert(u[i] == t[i + 1]);
            assert(u[i + 1] == t[i + 2]);
        }
        lemma_insert_by_criteria_keeps_order(u, x, c, d);
        let iu = insert_by_criteria(u, x, c, d);
        let r = seq![t[0]] + iu;
        lemma_criteria_order_antisym(x, t[0], c, d);
        assert forall|i: int| 0 <= i < r.len() - 1 implies criteria_order(#[trigger] r[i], r[i + 1], c, d) <= 0 by {
            if i > 0 {
                assert(r[i] == iu[i - 1]);
                assert(r[i + 1] == iu[i]);
            } else {
                assert(r[1] == iu[0]);
                if iu[0] != x {
                    assert(iu[0] == u[0]);
                    assert(u[0] == t[1]);
                }
            }
        }
        vstd::seq_lib::lemma_multiset_commutative(seq![t[0]], iu);
        vstd::seq_lib::lemma_multiset_commutative(seq![t[0]], u);
        assert(t =~= seq![t[0]] + u);
        assert(seq![t[0]] =~= Seq::<FileEntry>::empty().push(t[0]));
    }
}

/// Sorting by criteria puts every entry before or together with the next,
/// and keeps the same entries.
pub proof fn law_sorted_by_criteria_ordered(s: Seq<FileEntry>, c: SortCriteria, d: bool)
    ensures
        ordered_by_criteria(sorted_by_criteria(s, c, d), c, d),
        sorted_by_criteria(s, c, d).to_multiset() == s.to_multiset(),
    decreases s.len(),
{
    broadcast use vstd::seq_lib::group_to_multiset_ensures;
    if s.len() > 0 {
        law_sorted_by_criteria_ordered(s.drop_first(), c, d);
        lemma_insert_by_criteria_keeps_order(sorted_by_criteria(s.drop_first(), c, d), s[0], c, d);
        vstd::seq_lib::lemma_multiset_commutative(seq![s[0]], s.drop_first());
        assert(s =~= seq![s[0]] + s.drop_first());
        assert(seq![s[0]] =~= Seq::<FileEntry>::empty().push(s[0]));
    }
}

/// Sorts entries in place by the criteria, stably, directories first when
/// `dirs_first` is set.
pub fn sort_entries(entries: &mut Vec<FileEntry>, criteria: SortCriteria, dirs_first: bool)
    ensures
        final(entries)@ == sorted_by_criteria(old(entries)@, criteria, dirs_first),
{
    let ghost s = entries@;
    let mut acc: Vec<FileEntry> = Vec::new();
    while entries.len() > 0
        invariant
            entries@ == s.take(entries.len() as int),
            entries.len() <= s.len(),
            acc@ == sorted_by_criteria(s.skip(entries.len() as int), criteria, dirs_first),
        decreases entries.len(),
    {
        let n = entries.len();
        let x = entries.pop().unwrap();
        assert(x == s[n - 1]);
        assert(s.skip(n - 1).drop_first() =~= s.skip(n as int));
        assert(s.skip(n - 1)[0] == x);
        let mut j: usize = 0;
        while j < acc.len() && compare_by_criteria(&x, &acc[j], criteria, dirs_first) > 0
            invariant
                j <= acc.len(),
                forall|k: int| 0 <= k < j ==> criteria_order(x, #[trigger] acc@[k], criteria, dirs_first) > 0,
            decreases acc.len() - j,
        {
            j += 1;
        }
        proof {
            lemma_insert_by_criteria_at(acc@, x, criteria, dirs_first, j as int);
        }
        let ghost before = acc@;
        acc.insert(j, x);
        assert(acc@ =~= before.take(j as int).push(x) + before.skip(j as int));
        assert(entries@ =~= s.take(entries.len() as int));
    }
    assert(s.skip(0) =~= s);
    *entries = acc;
}

} // verus!
