//! Directory scan options and the ordering of scanned entries.
//!
//! Reading directories is the caller's part; this module decides which
//! options apply and in what order the entries are listed.
use vstd::prelude::*;
use crate::text::{chars_of, eq_chars, lowercase_chars, opt_view, path_extension, path_extension_exec, string_from, string_of, unicode_lowercase};
use crate::files_core::fuzzy_search::{chars_lt, lemma_seq_lt_total, seq_lt};

verus! {

/// Represents the type of a filesystem entry.
#[derive(Debug, Clone, Copy, PartialEq, Eq, Structural, Hash)]
pub enum FileType {
    Directory,
    File,
    Symlink,
    Other,
}

impl FileType {
    /// Returns true if this entry is a directory.
    pub fn is_dir(&self) -> (r: bool)
        ensures
            r == (*self is Directory),
    {
        matches!(self, FileType::Directory)
    }

    /// Returns true if this entry is a regular file.
    pub fn is_file(&self) -> (r: bool)
        ensures
            r == (*self is File),
    {
        matches!(self, FileType::File)
    }

    /// Returns true if this entry is a symbolic link.
    pub fn is_symlink(&self) -> (r: bool)
        ensures
            r == (*self is Symlink),
    {
        matches!(self, FileType::Symlink)
    }
}

/// A scanned file system entry. Times are seconds since the Unix epoch with
/// their nanoseconds, which order as the instants do.
#[derive(Debug, Clone, PartialEq, Eq)]
pub struct FileEntry {
    pub name: String,
    pub path: String,
    pub file_type: FileType,
    pub size: u64,
    pub modified: Option<(i64, u32)>,
    pub created: Option<(i64, u32)>,
    pub is_hidden: bool,
    pub extension: Option<String>,
    pub readonly: bool,
}

impl FileEntry {
    /// Returns true if the entry is a directory.
    pub fn is_dir(&self) -> (r: bool)
        ensures
            r == (self.file_type is Directory),
    {
        self.file_type.is_dir()
    }
}

/// Supported criteria for sorting directory entries.
#[derive(Debug, Clone, Copy, PartialEq, Eq, Structural)]
pub enum SortBy {
    Name,
    Size,
    Modified,
    Created,
    Extension,
    FileType,
}

impl Default for SortBy {
    fn default() -> (r: Self)
        ensures
            r == SortBy::Name,
    {
        SortBy::Name
    }
}

/// Ordering direction for sorting.
#[derive(Debug, Clone, Copy, PartialEq, Eq, Structural)]
pub enum SortOrder {
    Ascending,
    Descending,
}

impl Default for SortOrder {
    fn default() -> (r: Self)
        ensures
            r == SortOrder::Ascending,
    {
        SortOrder::Ascending
    }
}

/// Configuration options for scanning and sorting directories.
#[derive(Debug, Clone, Copy, PartialEq, Eq, Structural)]
pub struct ScanOptions {
    /// Include hidden files (names starting with '.').
    pub show_hidden: bool,
    /// Scan subdirectories recursively.
    pub recursive: bool,
    /// Maximum depth for recursive scanning (None = unlimited).
    pub max_depth: Option<usize>,
    /// Field to sort entries by.
    pub sort_by: SortBy,
    /// Sorting direction.
    pub sort_order: SortOrder,
    /// Keep directories at the top regardless of sort field.
    pub directories_first: bool,
    /// Follow symlinks when querying metadata or scanning directories.
    pub follow_symlinks: bool,
    /// Case-sensitive string comparison for name sorting.
    pub case_sensitive_sort: bool,
}

/// The options a scanner starts with.
pub open spec fn default_scan_options() -> ScanOptions {
    ScanOptions {
        show_hidden: false,
        recursive: false,
        max_depth: None,
        sort_by: SortBy::Name,
        sort_order: SortOrder::Ascending,
        directories_first: true,
        follow_symlinks: false,
        case_sensitive_sort: false,
    }
}

impl Default for ScanOptions {
    fn default() -> (r: Self)
        ensures
            r == default_scan_options(),
    {
        ScanOptions {
            show_hidden: false,
            recursive: false,
            max_depth: None,
            sort_by: SortBy::Name,
            sort_order: SortOrder::Ascending,
            directories_first: true,
            follow_symlinks: false,
            case_sensitive_sort: false,
        }
    }
}

impl ScanOptions {
    /// Builder method to toggle `show_hidden`.
    pub fn with_hidden(self, show_hidden: bool) -> (r: Self)
        ensures
            r == (ScanOptions { show_hidden, ..self }),
    {
        let mut s = self;
        s.show_hidden = show_hidden;
        s
    }

    /// Builder method to toggle `recursive` mode.
    pub fn with_recursive(self, recursive: bool) -> (r: Self)
        ensures
            r == (ScanOptions { recursive, ..self }),
    {
        let mut s = self;
        s.recursive = recursive;
        s
    }

    /// Builder method to set `max_depth`.
    pub fn with_max_depth(self, max_depth: Option<usize>) -> (r: Self)
        ensures
            r == (ScanOptions { max_depth, ..self }),
    {
        let mut s = self;
        s.max_depth = max_depth;
        s
    }

    /// Builder method to set sorting field.
    pub fn with_sort_by(self, sort_by: SortBy) -> (r: Self)
        ensures
            r == (ScanOptions { sort_by, ..self }),
    {
        let mut s = self;
        s.sort_by = sort_by;
        s
    }

    /// Builder method to set sort order direction.
    pub fn with_sort_order(self, sort_order: SortOrder) -> (r: Self)
        ensures
            r == (ScanOptions { sort_order, ..self }),
    {
        let mut s = self;
        s.sort_order = sort_order;
        s
    }

    /// Builder method to set `directories_first`.
    pub fn with_directories_first(self, directories_first: bool) -> (r: Self)
        ensures
            r == (ScanOptions { directories_first, ..self }),
    {
        let mut s = self;
        s.directories_first = directories_first;
        s
    }
}

/// Whether a scan at `depth` descends into a subdirectory.
pub open spec fn may_descend(options: ScanOptions, depth: nat) -> bool {
    options.recursive && match options.max_depth {
        Some(max_d) => depth + 1 <= max_d,
        None => true,
    }
}

/// Whether an entry named `name` is listed.
pub open spec fn is_listed(options: ScanOptions, name: Seq<char>) -> bool {
    !(name.len() > 0 && name[0] == '.') || options.show_hidden
}

/// Decides whether an entry with the given name is listed by a scan.
pub fn should_list(options: &ScanOptions, name: &str) -> (r: bool)
    ensures
        r == is_listed(*options, name@),
{
    let n = chars_of(name);
    let hidden = n.len() > 0 && n[0] == '.';
    !hidden || options.show_hidden
}

/// Decides whether a scan at `depth` descends into a subdirectory.
pub fn should_descend(options: &ScanOptions, depth: usize) -> (r: bool)
    ensures
        r == may_descend(*options, depth as nat),
{
    if !options.recursive {
        return false;
    }
    match options.max_depth {
        Some(max_d) => depth < max_d,
        None => true,
    }
}

/// What a file-type query says: directory, regular file, symbolic link.
pub type TypeFlags = (bool, bool, bool);

/// The type of a scanned entry: by the entry's own file type when it tells
/// one of the three kinds, else by its metadata, else another kind.
pub open spec fn entry_kind(own: Option<TypeFlags>, meta: TypeFlags) -> FileType {
    match own {
        Some(f) if f.0 => FileType::Directory,
        Some(f) if f.1 => FileType::File,
        Some(f) if f.2 => FileType::Symlink,
        _ => if meta.0 {
            FileType::Directory
        } else if meta.1 {
            FileType::File
        } else if meta.2 {
            FileType::Symlink
        } else {
            FileType::Other
        },
    }
}

/// The entry a scan records for a directory item at `path` named `name`:
/// hidden when the name starts with a dot, with the lowercased extension of
/// the path.
pub fn scanned_entry(
    path: &str,
    name: &str,
    own: Option<TypeFlags>,
    meta: TypeFlags,
    size: u64,
    modified: Option<(i64, u32)>,
    created: Option<(i64, u32)>,
    readonly: bool,
) -> (r: FileEntry)
    ensures
        r.name@ == name@,
        r.path@ == path@,
        r.file_type == entry_kind(own, meta),
        r.size == size,
        r.modified == modified,
        r.created == created,
        r.is_hidden == (name@.len() > 0 && name@[0] == '.'),
        opt_view(r.extension) == (match path_extension(path@) {
            Some(e) => Some(unicode_lowercase(e)),
            None => None,
        }),
        r.readonly == readonly,
{
    let file_type = match own {
        Some(f) if f.0 => FileType::Directory,
        Some(f) if f.1 => FileType::File,
        Some(f) if f.2 => FileType::Symlink,
        _ => if meta.0 {
            FileType::Directory
        } else if meta.1 {
            FileType::File
        } else if meta.2 {
            FileType::Symlink
        } else {
            FileType::Other
        },
    };
    let n = chars_of(name);
    let is_hidden = n.len() > 0 && n[0] == '.';
    let extension = match path_extension_exec(&chars_of(path)) {
        Some(e) => {
            let es = string_of(&e);
            Some(string_of(&lowercase_chars(es.as_str())))
        },
        None => None,
    };
    FileEntry {
        name: string_from(name),
        path: string_from(path),
        file_type,
        size,
        modified,
        created,
        is_hidden,
        extension,
        readonly,
    }
}

/// Whether a directory that cannot be read ends the scan with its error:
/// only the root, when nothing else is queued or found.
pub fn read_failure_ends_scan(queue_empty: bool, entries_empty: bool, depth: usize) -> (r: bool)
    ensures
        r == (queue_empty && entries_empty && depth == 0),
{
    queue_empty && entries_empty && depth == 0
}

/// High-performance directory scanner and sorter.
#[derive(Debug, Clone)]
pub struct DirectoryScanner {
    options: ScanOptions,
}

impl DirectoryScanner {
    /// The options the scanner uses.
    pub closed spec fn scan_options(&self) -> ScanOptions {
        self.options
    }

    /// Creates a new `DirectoryScanner` with specified configuration options.
    pub fn new(options: ScanOptions) -> (r: Self)
        ensures
            r.scan_options() == options,
    {
        DirectoryScanner { options }
    }

    /// Returns a reference to current scanner options.
    pub fn options(&self) -> (r: &ScanOptions)
        ensures
            *r == self.scan_options(),
    {
        &self.options
    }

    /// Returns a mutable reference to current scanner options.
    pub fn options_mut(&mut self) -> (r: &mut ScanOptions)
        ensures
            *r == old(self).scan_options(),
            final(self).scan_options() == *final(r),
    {
        &mut self.options
    }
}

impl Default for DirectoryScanner {
    fn default() -> (r: Self)
        ensures
            r.scan_options() == default_scan_options(),
    {
        DirectoryScanner { options: ScanOptions::default() }
    }
}

// ------------------------------------------------------------------
// Ordering of entries
// ------------------------------------------------------------------

/// Three-way comparison of strings by character (which is byte order in UTF-8).
pub open spec fn text_order(a: Seq<char>, b: Seq<char>) -> int {
    if seq_lt(a, b) {
        -1
    } else if a == b {
        0
    } else {
        1
    }
}

/// Three-way comparison of integers.
pub open spec fn int_order(a: int, b: int) -> int {
    if a < b {
        -1
    } else if a == b {
        0
    } else {
        1
    }
}

/// Three-way comparison of optional instants (absent first).
pub open spec fn time_order(a: Option<(i64, u32)>, b: Option<(i64, u32)>) -> int {
    match (a, b) {
        (None, None) => 0,
        (None, Some(_)) => -1,
        (Some(_), None) => 1,
        (Some(x), Some(y)) => if x.0 != y.0 { int_order(x.0 as int, y.0 as int) } else { int_order(x.1 as int, y.1 as int) },
    }
}

/// Rank of a file type when sorting by type.
pub open spec fn type_rank(t: FileType) -> int {
    match t {
        FileType::Directory => 0,
        FileType::Symlink => 1,
        FileType::File => 2,
        FileType::Other => 3,
    }
}

/// The extension used for sorting (absent sorts as empty).
pub open spec fn sort_ext(e: Option<String>) -> Seq<char> {
    match e {
        Some(s) => s@,
        None => Seq::<char>::empty(),
    }
}

/// Comparison of lowercased names.
pub open spec fn lower_name_order(a: FileEntry, b: FileEntry) -> int {
    text_order(unicode_lowercase(a.name@), unicode_lowercase(b.name@))
}

/// The comparison by the chosen field, before the direction applies.
pub open spec fn primary_order(a: FileEntry, b: FileEntry, o: ScanOptions) -> int {
    match o.sort_by {
        SortBy::Name => if o.case_sensitive_sort { text_order(a.name@, b.name@) } else { lower_name_order(a, b) },
        SortBy::Size => int_order(a.size as int, b.size as int),
        SortBy::Modified => time_order(a.modified, b.modified),
        SortBy::Created => time_order(a.created, b.created),
        SortBy::Extension => {
            let c = text_order(sort_ext(a.extension), sort_ext(b.extension));
            if c == 0 { lower_name_order(a, b) } else { c }
        },
        SortBy::FileType => {
            let c = int_order(type_rank(a.file_type), type_rank(b.file_type));
            if c == 0 { lower_name_order(a, b) } else { c }
        },
    }
}

/// How two entries compare under the options: directories first when asked,
/// then the chosen field in the chosen direction, then the exact name.
pub open spec fn entry_order(a: FileEntry, b: FileEntry, o: ScanOptions) -> int {
    let ad = a.file_type is Directory;
    let bd = b.file_type is Directory;
    if o.directories_first && ad && !bd {
        -1
    } else if o.directories_first && !ad && bd {
        1
    } else {
        let p = primary_order(a, b, o);
        let c = match o.sort_order {
            SortOrder::Ascending => p,
            SortOrder::Descending => -p,
        };
        if c == 0 { text_order(a.name@, b.name@) } else { c }
    }
}

/// Inserts `x` before the first entry that it does not follow.
pub open spec fn insert_entry(t: Seq<FileEntry>, x: FileEntry, o: ScanOptions) -> Seq<FileEntry>
    decreases t.len(),
{
    if t.len() == 0 {
        seq![x]
    } else if entry_order(x, t[0], o) <= 0 {
        seq![x] + t
    } else {
        seq![t[0]] + insert_entry(t.drop_first(), x, o)
    }
}

/// The entries in the stable order of the comparison: equal entries keep
/// their relative order.
pub open spec fn sorted_entries(s: Seq<FileEntry>, o: ScanOptions) -> Seq<FileEntry>
    decreases s.len(),
{
    if s.len() == 0 {
        s
    } else {
        insert_entry(sorted_entries(s.drop_first(), o), s[0], o)
    }
}

pub(crate) fn text_order_exec(a: &Vec<char>, b: &Vec<char>) -> (r: i8)
    ensures
        r == text_order(a@, b@),
{
    if chars_lt(a, b) {
        -1
    } else if eq_chars(a, b) {
        0
    } else {
        1
    }
}

pub(crate) fn int_order_u64(a: u64, b: u64) -> (r: i8)
    ensures
        r == int_order(a as int, b as int),
{
    if a < b {
        -1
    } else if a == b {
        0
    } else {
        1
    }
}

pub(crate) fn time_order_exec(a: Option<(i64, u32)>, b: Option<(i64, u32)>) -> (r: i8)
    ensures
        r == time_order(a, b),
{
    match (a, b) {
        (None, None) => 0,
        (None, Some(_)) => -1,
        (Some(_), None) => 1,
        (Some(x), Some(y)) => {
            if x.0 != y.0 {
                if x.0 < y.0 { -1 } else { 1 }
            } else {
                if x.1 < y.1 {
                    -1
                } else if x.1 == y.1 {
                    0
                } else {
                    1
                }
            }
        },
    }
}

fn type_rank_exec(t: FileType) -> (r: i8)
    ensures
        r == type_rank(t),
{
    match t {
        FileType::Directory => 0,
        FileType::Symlink => 1,
        FileType::File => 2,
        FileType::Other => 3,
    }
}

fn lower_name_order_exec(a: &FileEntry, b: &FileEntry) -> (r: i8)
    ensures
        r == lower_name_order(*a, *b),
{
    let la = lowercase_chars(a.name.as_str());
    let lb = lowercase_chars(b.name.as_str());
    text_order_exec(&la, &lb)
}

fn sort_ext_exec(e: &Option<String>) -> (r: Vec<char>)
    ensures
        r@ == sort_ext(*e),
{
    match e {
        Some(s) => chars_of(s.as_str()),
        None => Vec::new(),
    }
}

/// Compares two entries under the scan options.
pub fn compare_entries(a: &FileEntry, b: &FileEntry, o: &ScanOptions) -> (r: i8)
    ensures
        r == entry_order(*a, *b, *o),
{
    let ad = a.is_dir();
    let bd = b.is_dir();
    if o.directories_first && ad && !bd {
        return -1;
    } else if o.directories_first && !ad && bd {
        return 1;
    }
    let p: i8 = match o.sort_by {
        SortBy::Name => {
            if o.case_sensitive_sort {
                let an = chars_of(a.name.as_str());
                let bn = chars_of(b.name.as_str());
                text_order_exec(&an, &bn)
            } else {
                lower_name_order_exec(a, b)
            }
        },
        SortBy::Size => int_order_u64(a.size, b.size),
        SortBy::Modified => time_order_exec(a.modified, b.modified),
        SortBy::Created => time_order_exec(a.created, b.created),
        SortBy::Extension => {
            let ea = sort_ext_exec(&a.extension);
            let eb = sort_ext_exec(&b.extension);
            let c = text_order_exec(&ea, &eb);
            if c == 0 {
                lower_name_order_exec(a, b)
            } else {
                c
            }
        },
        SortBy::FileType => {
            let ra = type_rank_exec(a.file_type);
            let rb = type_rank_exec(b.file_type);
            let c: i8 = if ra < rb {
                -1
            } else if ra == rb {
                0
            } else {
                1
            };
            if c == 0 {
                lower_name_order_exec(a, b)
            } else {
                c
            }
        },
    };
    let c: i8 = match o.sort_order {
        SortOrder::Ascending => p,
        SortOrder::Descending => -p,
    };
    if c == 0 {
        let an = chars_of(a.name.as_str());
        let bn = chars_of(b.name.as_str());
        text_order_exec(&an, &bn)
    } else {
        c
    }
}

/// Inserting at the first position the entry does not follow.
proof fn lemma_insert_entry_at(t: Seq<FileEntry>, x: FileEntry, o: ScanOptions, j: int)
    requires
        0 <= j <= t.len(),
        forall|k: int| 0 <= k < j ==> entry_order(x, #[trigger] t[k], o) > 0,
        j < t.len() ==> entry_order(x, t[j], o) <= 0,
    ensures
        insert_entry(t, x, o) == t.take(j).push(x) + t.skip(j),
    decreases j,
{
    if j == 0 {
        assert(t.take(0).push(x) + t.skip(0) =~= seq![x] + t);
        if t.len() == 0 {
            assert(seq![x] + t =~= seq![x]);
        }
    } else {
        let u = t.drop_first();
        assert forall|k: int| 0 <= k < j - 1 implies entry_order(x, #[trigger] u[k], o) > 0 by {
            assert(u[k] == t[k + 1]);
        }
        lemma_insert_entry_at(u, x, o, j - 1);
        assert(t.take(j).push(x) + t.skip(j) =~= seq![t[0]] + (u.take(j - 1).push(x) + u.skip(j - 1)));
    }
}

/// Each entry is ordered before or together with the next.
pub open spec fn is_ordered(s: Seq<FileEntry>, o: ScanOptions) -> bool {
    forall|i: int| 0 <= i < s.len() - 1 ==> entry_order(#[trigger] s[i], s[i + 1], o) <= 0
}

pub(crate) proof fn lemma_text_order_antisym(a: Seq<char>, b: Seq<char>)
    ensures
        text_order(a, b) == -text_order(b, a),
{
    lemma_seq_lt_total(a, b);
    lemma_seq_lt_total(a, a);
    lemma_seq_lt_total(b, b);
}

/// Swapping the entries negates their comparison.
pub proof fn lemma_entry_order_antisym(a: FileEntry, b: FileEntry, o: ScanOptions)
    ensures
        entry_order(a, b, o) == -entry_order(b, a, o),
{
    lemma_text_order_antisym(a.name@, b.name@);
    lemma_text_order_antisym(unicode_lowercase(a.name@), unicode_lowercase(b.name@));
    lemma_text_order_antisym(sort_ext(a.extension), sort_ext(b.extension));
}

proof fn lemma_insert_entry_keeps_order(t: Seq<FileEntry>, x: FileEntry, o: ScanOptions)
    requires
        is_ordered(t, o),
    ensures
        is_ordered(insert_entry(t, x, o), o),
        insert_entry(t, x, o).to_multiset() == t.to_multiset().insert(x),
        insert_entry(t, x, o).len() == t.len() + 1,
        insert_entry(t, x, o)[0] == x || (t.len() > 0 && insert_entry(t, x, o)[0] == t[0]),
    decreases t.len(),
{
    broadcast use vstd::seq_lib::group_to_multiset_ensures;
    if t.len() == 0 {
        assert(seq![x] =~= Seq::<FileEntry>::empty().push(x));
    } else if entry_order(x, t[0], o) <= 0 {
        let r = seq![x] + t;
        assert forall|i: int| 0 <= i < r.len() - 1 implies entry_order(#[trigger] r[i], r[i + 1], o) <= 0 by {
            if i > 0 {
                assert(r[i] == t[i - 1]);
                assert(r[i + 1] == t[i]);
            }
        }
        vstd::seq_lib::lemma_multiset_commutative(seq![x], t);
        assert(seq![x] =~= Seq::<FileEntry>::empty().push(x));
    } else {
        let u = t.drop_first();
        assert forall|i: int| 0 <= i < u.len() - 1 implies entry_order(#[trigger] u[i], u[i + 1], o) <= 0 by {
            assert(u[i] == t[i + 1]);
            assert(u[i + 1] == t[i + 2]);
        }
        lemma_insert_entry_keeps_order(u, x, o);
        let iu = insert_entry(u, x, o);
        let r = seq![t[0]] + iu;
        lemma_entry_order_antisym(x, t[0], o);
        assert forall|i: int| 0 <= i < r.len() - 1 implies entry_order(#[trigger] r[i], r[i + 1], o) <= 0 by {
            if i > 0 {
                assert(r[i] == iu[i - 1]);
                assert(r[i + 1] == iu[i]);
            } else {
                assert(r[1] == iu[0]);
                if iu[0] != x {
                    assert(iu[0] == u[0]);
                    assert(u[0] == t[1]);
                }
            }
        }
        vstd::seq_lib::lemma_multiset_commutative(seq![t[0]], iu);
        vstd::seq_lib::lemma_multiset_commutative(seq![t[0]], u);
        assert(t =~= seq![t[0]] + u);
        assert(seq![t[0]] =~= Seq::<FileEntry>::empty().push(t[0]));
    }
}

/// The sorted entries are in order and are the same entries as before.
pub proof fn law_sorted_entries_ordered(s: Seq<FileEntry>, o: ScanOptions)
    ensures
        is_ordered(sorted_entries(s, o), o),
        sorted_entries(s, o).to_multiset() == s.to_multiset(),
    decreases s.len(),
{
    broadcast use vstd::seq_lib::group_to_multiset_ensures;
    if s.len() > 0 {
        law_sorted_entries_ordered(s.drop_first(), o);
        lemma_insert_entry_keeps_order(sorted_entries(s.drop_first(), o), s[0], o);
        vstd::seq_lib::lemma_multiset_commutative(seq![s[0]], s.drop_first());
        assert(s =~= seq![s[0]] + s.drop_first());
        assert(seq![s[0]] =~= Seq::<FileEntry>::empty().push(s[0]));
    }
}

impl DirectoryScanner {
    /// Sorts the entries in place under the options, stably.
    pub fn sort_entries(entries: &mut Vec<FileEntry>, options: &ScanOptions)
        ensures
            final(entries)@ == sorted_entries(old(entries)@, *options),
    {
        let ghost s = entries@;
        let mut acc: Vec<FileEntry> = Vec::new();
        while entries.len() > 0
            invariant
                entries@ == s.take(entries.len() as int),
                entries.len() <= s.len(),
                acc@ == sorted_entries(s.skip(entries.len() as int), *options),
            decreases entries.len(),
        {
            let n = entries.len();
            let x = entries.pop().unwrap();
            assert(x == s[n - 1]);
            assert(s.skip(n - 1).drop_first() =~= s.skip(n as int));
            assert(s.skip(n - 1)[0] == x);
            let mut j: usize = 0;
            while j < acc.len() && compare_entries(&x, &acc[j], options) > 0
                invariant
                    j <= acc.len(),
                    forall|k: int| 0 <= k < j ==> entry_order(x, #[trigger] acc@[k], *options) > 0,
                decreases acc.len() - j,
            {
                j += 1;
            }
            proof {
                lemma_insert_entry_at(acc@, x, *options, j as int);
            }
            let ghost before = acc@;
            acc.insert(j, x);
            assert(acc@ =~= before.take(j as int).push(x) + before.skip(j as int));
            assert(entries@ =~= s.take(entries.len() as int));
        }
        assert(s.skip(0) =~= s);
        *entries = acc;
    }
}

/// The number of regular files, the number of directories, and the total
/// size of the entries.
pub open spec fn scan_totals_of(s: Seq<FileEntry>) -> (nat, nat, nat)
    decreases s.len(),
{
    if s.len() == 0 {
        (0, 0, 0)
    } else {
        let (f, d, b) = scan_totals_of(s.drop_last());
        let e = s.last();
        (
            f + if e.file_type is File { 1nat } else { 0nat },
            d + if e.file_type is Directory { 1nat } else { 0nat },
            b + (e.size as nat),
        )
    }
}

/// Counts the files and directories among scanned entries and sums their
/// sizes (the sum must fit in 64 bits).
pub fn scan_totals(entries: &Vec<FileEntry>) -> (r: (usize, usize, u64))
    requires
        scan_totals_of(entries@).2 <= u64::MAX,
    ensures
        (r.0 as nat, r.1 as nat, r.2 as nat) == scan_totals_of(entries@),
{
    let mut files: usize = 0;
    let mut dirs: usize = 0;
    let mut bytes: u64 = 0;
    let mut i: usize = 0;
    while i < entries.len()
        invariant
            i <= entries.len(),
            scan_totals_of(entries@).2 <= u64::MAX,
            (files as nat, dirs as nat, bytes as nat) == scan_totals_of(entries@.take(i as int)),
            files <= i && dirs <= i,
        decreases entries.len() - i,
    {
        assert(entries@.take(i + 1).drop_last() =~= entries@.take(i as int));
        proof {
            lemma_scan_totals_prefix(entries@, i + 1);
        }
        let e = &entries[i];
        if e.file_type.is_file() {
            files += 1;
        }
        if e.is_dir() {
            dirs += 1;
        }
        bytes = bytes + e.size;
        i += 1;
    }
    assert(entries@.take(entries.len() as int) =~= entries@);
    (files, dirs, bytes)
}

proof fn lemma_scan_totals_prefix(s: Seq<FileEntry>, k: int)
    requires
        0 <= k <= s.len(),
    ensures
        scan_totals_of(s.take(k)).2 <= scan_totals_of(s).2,
    decreases s.len() - k,
{
    if k < s.len() {
        lemma_scan_totals_prefix(s, k + 1);
        assert(s.take(k + 1).drop_last() =~= s.take(k));
    } else {
        assert(s.take(k) =~= s);
    }
}

proof fn lemma_order_pair(x: FileEntry, y: FileEntry, o: ScanOptions)
    requires
        entry_order(x, y, o) <= 0,
    ensures
        o.directories_first ==> !(!(x.file_type is Directory) && (y.file_type is Directory)),
        (o.sort_by == SortBy::Size && !o.directories_first && o.sort_order == SortOrder::Ascending) ==> x.size <= y.size,
        (o.sort_by == SortBy::Size && !o.directories_first && o.sort_order == SortOrder::Descending) ==> x.size >= y.size,
{
}

proof fn lemma_insert_entry_len(t: Seq<FileEntry>, x: FileEntry, o: ScanOptions)
    ensures
        insert_entry(t, x, o).len() == t.len() + 1,
    decreases t.len(),
{
    if t.len() > 0 && entry_order(x, t[0], o) > 0 {
        lemma_insert_entry_len(t.drop_first(), x, o);
    }
}

proof fn lemma_sorted_entries_len(s: Seq<FileEntry>, o: ScanOptions)
    ensures
        sorted_entries(s, o).len() == s.len(),
    decreases s.len(),
{
    if s.len() > 0 {
        lemma_sorted_entries_len(s.drop_first(), o);
        lemma_insert_entry_len(sorted_entries(s.drop_first(), o), s[0], o);
    }
}

/// Sorting keeps the same entries; with directories first no other entry
/// precedes a directory; sorting by size without directories first puts
/// sizes in non-decreasing order when ascending and non-increasing order
/// when descending.
pub proof fn law_sort_entries_sizes(s: Seq<FileEntry>, o: ScanOptions)
    ensures
        sorted_entries(s, o).to_multiset() == s.to_multiset(),
        sorted_entries(s, o).len() == s.len(),
        o.directories_first ==> forall|i: int, j: int|
            0 <= i && j == i + 1 && j < sorted_entries(s, o).len() ==> !(!((#[trigger] sorted_entries(s, o)[i]).file_type is Directory)
                && ((#[trigger] sorted_entries(s, o)[j]).file_type is Directory)),
        (o.sort_by == SortBy::Size && !o.directories_first && o.sort_order == SortOrder::Ascending) ==> forall|i: int, j: int|
            0 <= i < j < sorted_entries(s, o).len() ==> (#[trigger] sorted_entries(s, o)[i]).size <= (#[trigger] sorted_entries(s, o)[j]).size,
        (o.sort_by == SortBy::Size && !o.directories_first && o.sort_order == SortOrder::Descending) ==> forall|i: int, j: int|
            0 <= i < j < sorted_entries(s, o).len() ==> (#[trigger] sorted_entries(s, o)[i]).size >= (#[trigger] sorted_entries(s, o)[j]).size,
{
    law_sorted_entries_ordered(s, o);
    lemma_sorted_entries_len(s, o);
    let r = sorted_entries(s, o);
    lemma_ordered_pairs(r, o);
    lemma_pairs_props(r, o);
    if o.sort_by == SortBy::Size && !o.directories_first && o.sort_order == SortOrder::Ascending {
        lemma_sizes_up(r);
    }
    if o.sort_by == SortBy::Size && !o.directories_first && o.sort_order == SortOrder::Descending {
        lemma_sizes_down(r);
    }
}

/// Entries `i` and `i + 1` are in order.
spec fn pair_ok(r: Seq<FileEntry>, i: int, o: ScanOptions) -> bool {
    entry_order(r[i], r[i + 1], o) <= 0
}

proof fn lemma_ordered_pairs(r: Seq<FileEntry>, o: ScanOptions)
    requires
        is_ordered(r, o),
    ensures
        forall|i: int| 0 <= i < r.len() - 1 ==> #[trigger] pair_ok(r, i, o),
{
}

/// Adjacent entries have non-decreasing sizes.
spec fn sizes_up_at(r: Seq<FileEntry>, i: int) -> bool {
    r[i].size <= r[i + 1].size
}

/// Adjacent entries have non-increasing sizes.
spec fn sizes_down_at(r: Seq<FileEntry>, i: int) -> bool {
    r[i].size >= r[i + 1].size
}

proof fn lemma_pairs_props(r: Seq<FileEntry>, o: ScanOptions)
    requires
        forall|i: int| 0 <= i < r.len() - 1 ==> #[trigger] pair_ok(r, i, o),
    ensures
        o.directories_first ==> forall|i: int, j: int|
            0 <= i && j == i + 1 && j < r.len() ==> !(!((#[trigger] r[i]).file_type is Directory) && ((#[trigger] r[j]).file_type is Directory)),
        (o.sort_by == SortBy::Size && !o.directories_first && o.sort_order == SortOrder::Ascending) ==> forall|i: int|
            0 <= i < r.len() - 1 ==> #[trigger] sizes_up_at(r, i),
        (o.sort_by == SortBy::Size && !o.directories_first && o.sort_order == SortOrder::Descending) ==> forall|i: int|
            0 <= i < r.len() - 1 ==> #[trigger] sizes_down_at(r, i),
{
    assert forall|i: int, j: int| 0 <= i && j == i + 1 && j < r.len() && o.directories_first implies !(!((#[trigger] r[i]).file_type is Directory) && ((#[trigger] r[j]).file_type is Directory)) by {
        assert(pair_ok(r, i, o));
        lemma_order_pair(r[i], r[i + 1], o);
    }
    assert forall|i: int| 0 <= i < r.len() - 1 && o.sort_by == SortBy::Size && !o.directories_first && o.sort_order == SortOrder::Ascending implies #[trigger] sizes_up_at(r, i) by {
        assert(pair_ok(r, i, o));
        lemma_order_pair(r[i], r[i + 1], o);
    }
    assert forall|i: int| 0 <= i < r.len() - 1 && o.sort_by == SortBy::Size && !o.directories_first && o.sort_order == SortOrder::Descending implies #[trigger] sizes_down_at(r, i) by {
        assert(pair_ok(r, i, o));
        lemma_order_pair(r[i], r[i + 1], o);
    }
}

proof fn lemma_sizes_up(r: Seq<FileEntry>)
    requires
        forall|i: int| 0 <= i < r.len() - 1 ==> #[trigger] sizes_up_at(r, i),
    ensures
        forall|i: int, j: int| 0 <= i < j < r.len() ==> (#[trigger] r[i]).size <= (#[trigger] r[j]).size,
{
    assert forall|i: int, j: int| 0 <= i < j < r.len() implies (#[trigger] r[i]).size <= (#[trigger] r[j]).size by {
        lemma_sizes_up_from(r, i, j);
    }
}

proof fn lemma_sizes_up_from(r: Seq<FileEntry>, i: int, j: int)
    requires
        forall|k: int| 0 <= k < r.len() - 1 ==> #[trigger] sizes_up_at(r, k),
        0 <= i <= j < r.len(),
    ensures
        r[i].size <= r[j].size,
    decreases j - i,
{
    if i < j {
        lemma_sizes_up_from(r, i, j - 1);
        assert(sizes_up_at(r, j - 1));
    }
}

proof fn lemma_sizes_down(r: Seq<FileEntry>)
    requires
        forall|i: int| 0 <= i < r.len() - 1 ==> #[trigger] sizes_down_at(r, i),
    ensures
        forall|i: int, j: int| 0 <= i < j < r.len() ==> (#[trigger] r[i]).size >= (#[trigger] r[j]).size,
{
    assert forall|i: int, j: int| 0 <= i < j < r.len() implies (#[trigger] r[i]).size >= (#[trigger] r[j]).size by {
        lemma_sizes_down_from(r, i, j);
    }
}

proof fn lemma_sizes_down_from(r: Seq<FileEntry>, i: int, j: int)
    requires
        forall|k: int| 0 <= k < r.len() - 1 ==> #[trigger] sizes_down_at(r, k),
        0 <= i <= j < r.len(),
    ensures
        r[i].size >= r[j].size,
    decreases j - i,
{
    if i < j {
        lemma_sizes_down_from(r, i, j - 1);
        assert(sizes_down_at(r, j - 1));
    }
}

/// Instant `a` comes no later than `b`, an absent instant counting as the
/// earliest.
pub open spec fn instant_le(a: Option<(i64, u32)>, b: Option<(i64, u32)>) -> bool {
    match (a, b) {
        (None, _) => true,
        (Some(_), None) => false,
        (Some(x), Some(y)) => x.0 < y.0 || (x.0 == y.0 && x.1 <= y.1),
    }
}

/// Under sorting by type, `x` may stand right before `y`: directories, then
/// symbolic links, then files, then other entries.
pub open spec fn type_may_precede(x: FileType, y: FileType) -> bool {
    match y {
        FileType::Directory => x is Directory,
        FileType::Symlink => x is Directory || x is Symlink,
        FileType::File => !(x is Other),
        FileType::Other => true,
    }
}

proof fn lemma_key_pair(x: FileEntry, y: FileEntry, o: ScanOptions)
    requires
        entry_order(x, y, o) <= 0,
        !o.directories_first,
    ensures
        (o.sort_by == SortBy::Modified && o.sort_order == SortOrder::Ascending) ==> instant_le(x.modified, y.modified),
        (o.sort_by == SortBy::Modified && o.sort_order == SortOrder::Descending) ==> instant_le(y.modified, x.modified),
        (o.sort_by == SortBy::Created && o.sort_order == SortOrder::Ascending) ==> instant_le(x.created, y.created),
        (o.sort_by == SortBy::Created && o.sort_order == SortOrder::Descending) ==> instant_le(y.created, x.created),
        (o.sort_by == SortBy::FileType && o.sort_order == SortOrder::Ascending) ==> type_may_precede(x.file_type, y.file_type),
        (o.sort_by == SortBy::FileType && o.sort_order == SortOrder::Descending) ==> type_may_precede(y.file_type, x.file_type),
{
}

/// Sorting by modification or creation time without directories first puts
/// each entry's instant no later than the next one's when ascending (an
/// absent instant first) and no earlier when descending; sorting by type
/// puts directories, then symbolic links, then files, then other entries
/// (the reverse when descending).
pub proof fn law_sort_entries_keys(s: Seq<FileEntry>, o: ScanOptions)
    requires
        !o.directories_first,
    ensures
        ({
            let r = sorted_entries(s, o);
            forall|i: int| 0 <= i < r.len() - 1 ==> {
                &&& (o.sort_by == SortBy::Modified && o.sort_order == SortOrder::Ascending)
                    ==> instant_le((#[trigger] r[i]).modified, r[i + 1].modified)
                &&& (o.sort_by == SortBy::Modified && o.sort_order == SortOrder::Descending)
                    ==> instant_le(r[i + 1].modified, r[i].modified)
                &&& (o.sort_by == SortBy::Created && o.sort_order == SortOrder::Ascending)
                    ==> instant_le(r[i].created, r[i + 1].created)
                &&& (o.sort_by == SortBy::Created && o.sort_order == SortOrder::Descending)
                    ==> instant_le(r[i + 1].created, r[i].created)
                &&& (o.sort_by == SortBy::FileType && o.sort_order == SortOrder::Ascending)
                    ==> type_may_precede(r[i].file_type, r[i + 1].file_type)
                &&& (o.sort_by == SortBy::FileType && o.sort_order == SortOrder::Descending)
                    ==> type_may_precede(r[i + 1].file_type, r[i].file_type)
            }
        }),
{
    law_sorted_entries_ordered(s, o);
    let r = sorted_entries(s, o);
    lemma_ordered_pairs(r, o);
    assert forall|i: int| 0 <= i < r.len() - 1 implies {
        &&& (o.sort_by == SortBy::Modified && o.sort_order == SortOrder::Ascending)
            ==> instant_le((#[trigger] r[i]).modified, r[i + 1].modified)
        &&& (o.sort_by == SortBy::Modified && o.sort_order == SortOrder::Descending)
            ==> instant_le(r[i + 1].modified, r[i].modified)
        &&& (o.sort_by == SortBy::Created && o.sort_order == SortOrder::Ascending)
            ==> instant_le(r[i].created, r[i + 1].created)
        &&& (o.sort_by == SortBy::Created && o.sort_order == SortOrder::Descending)
            ==> instant_le(r[i + 1].created, r[i].created)
        &&& (o.sort_by == SortBy::FileType && o.sort_order == SortOrder::Ascending)
            ==> type_may_precede(r[i].file_type, r[i + 1].file_type)
        &&& (o.sort_by == SortBy::FileType && o.sort_order == SortOrder::Descending)
            ==> type_may_precede(r[i + 1].file_type, r[i].file_type)
    } by {
        assert(pair_ok(r, i, o));
        lemma_key_pair(r[i], r[i + 1], o);
    }
}

} // verus!
