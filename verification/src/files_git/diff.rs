//! Unified diff parser and side-by-side conversion.
use vstd::prelude::*;
use crate::text::{find_from, is_ws, matches_at, trim_end, trim_start, words_state, all_digits, decimal, digit_char, digits_value, is_digit_char, splitn, splitn_state, append_str, chars_of, copy_chars, ends_with, ends_with_str, eq_str, lines, lines_exec, opt_view, or_zero, parse_usize, parse_usize_exec, split_once, split_once_char, split_once_str, split_whitespace, split_whitespace_exec, splitn_exec, starts_with, starts_with_str, string_from, string_of, strip_prefix, strip_prefix_str, suffix, trim, trim_char, trim_char_exec, trim_exec, trim_start_char, trim_start_char_exec, trim_start_pat, trim_start_pat_str, views};

verus! {

/// Represents the type of line in a unified diff format.
#[derive(Debug, Clone, Copy, PartialEq, Eq, Structural)]
pub enum LineType {
    Context,
    Addition,
    Deletion,
    Header,
}

/// A single line in a diff hunk, including old and new line numbers.
#[derive(Debug, Clone, PartialEq, Eq)]
pub struct DiffLine {
    pub line_type: LineType,
    pub content: String,
    pub old_line_number: Option<usize>,
    pub new_line_number: Option<usize>,
}

/// Mathematical view of a [`DiffLine`]; line numbers are integers.
pub struct DiffLineView {
    pub line_type: LineType,
    pub content: Seq<char>,
    pub old_line_number: Option<int>,
    pub new_line_number: Option<int>,
}

/// An optional machine number as an optional integer.
pub open spec fn opt_int(o: Option<usize>) -> Option<int> {
    match o {
        Some(n) => Some(n as int),
        None => None,
    }
}

impl View for DiffLine {
    type V = DiffLineView;

    open spec fn view(&self) -> DiffLineView {
        DiffLineView {
            line_type: self.line_type,
            content: self.content@,
            old_line_number: opt_int(self.old_line_number),
            new_line_number: opt_int(self.new_line_number),
        }
    }
}

impl DiffLine {
    /// A copy of the line.
    pub fn copy(&self) -> (r: DiffLine)
        ensures
            r@ == self@,
    {
        DiffLine {
            line_type: self.line_type,
            content: self.content.clone(),
            old_line_number: self.old_line_number,
            new_line_number: self.new_line_number,
        }
    }
}

/// Metadata header for a diff hunk (`@@ -old_start,old_lines +new_start,new_lines @@ heading`).
#[derive(Debug, Clone, PartialEq, Eq)]
pub struct HunkHeader {
    pub old_start: usize,
    pub old_lines: usize,
    pub new_start: usize,
    pub new_lines: usize,
    pub heading: Option<String>,
}

/// Mathematical view of a [`HunkHeader`].
pub struct HunkHeaderView {
    pub old_start: usize,
    pub old_lines: usize,
    pub new_start: usize,
    pub new_lines: usize,
    pub heading: Option<Seq<char>>,
}

impl View for HunkHeader {
    type V = HunkHeaderView;

    open spec fn view(&self) -> HunkHeaderView {
        HunkHeaderView {
            old_start: self.old_start,
            old_lines: self.old_lines,
            new_start: self.new_start,
            new_lines: self.new_lines,
            heading: opt_view(self.heading),
        }
    }
}

impl HunkHeader {
    /// A copy of the header.
    pub fn copy(&self) -> (r: HunkHeader)
        ensures
            r@ == self@,
    {
        HunkHeader {
            old_start: self.old_start,
            old_lines: self.old_lines,
            new_start: self.new_start,
            new_lines: self.new_lines,
            heading: copy_opt_string(&self.heading),
        }
    }
}

/// A hunk within a file diff containing a header and a sequence of diff lines.
#[derive(Debug, Clone, PartialEq, Eq)]
pub struct DiffHunk {
    pub header: HunkHeader,
    pub lines: Vec<DiffLine>,
}

/// Mathematical view of a [`DiffHunk`].
pub struct DiffHunkView {
    pub header: HunkHeaderView,
    pub lines: Seq<DiffLineView>,
}

/// Views of a sequence of diff lines.
pub open spec fn line_views(s: Seq<DiffLine>) -> Seq<DiffLineView> {
    s.map_values(|l: DiffLine| l@)
}

impl View for DiffHunk {
    type V = DiffHunkView;

    open spec fn view(&self) -> DiffHunkView {
        DiffHunkView { header: self.header@, lines: line_views(self.lines@) }
    }
}

/// Unified diff representation for a single file.
#[derive(Debug, Clone, PartialEq, Eq)]
pub struct FileDiff {
    pub old_path: Option<String>,
    pub new_path: Option<String>,
    pub is_binary: bool,
    pub is_new_file: bool,
    pub is_deleted_file: bool,
    pub is_rename: bool,
    pub hunks: Vec<DiffHunk>,
    pub additions: usize,
    pub deletions: usize,
}

/// Mathematical view of a [`FileDiff`].
pub struct FileDiffView {
    pub old_path: Option<Seq<char>>,
    pub new_path: Option<Seq<char>>,
    pub is_binary: bool,
    pub is_new_file: bool,
    pub is_deleted_file: bool,
    pub is_rename: bool,
    pub hunks: Seq<DiffHunkView>,
    pub additions: int,
    pub deletions: int,
}

/// Views of a sequence of hunks.
pub open spec fn hunk_views(s: Seq<DiffHunk>) -> Seq<DiffHunkView> {
    s.map_values(|h: DiffHunk| h@)
}

impl View for FileDiff {
    type V = FileDiffView;

    open spec fn view(&self) -> FileDiffView {
        FileDiffView {
            old_path: opt_view(self.old_path),
            new_path: opt_view(self.new_path),
            is_binary: self.is_binary,
            is_new_file: self.is_new_file,
            is_deleted_file: self.is_deleted_file,
            is_rename: self.is_rename,
            hunks: hunk_views(self.hunks@),
            additions: self.additions as int,
            deletions: self.deletions as int,
        }
    }
}

/// Views of a sequence of file diffs.
pub open spec fn file_diff_views(s: Seq<FileDiff>) -> Seq<FileDiffView> {
    s.map_values(|f: FileDiff| f@)
}

// ------------------------------------------------------------------
// Specification of the unified diff parser
// ------------------------------------------------------------------

/// Removes surrounding quotes and an `a/` or `b/` prefix from a diff path.
pub open spec fn spec_strip_prefix_path(path: Seq<char>) -> Seq<char> {
    let p = trim_char(path, '"');
    match strip_prefix(p, "a/"@) {
        Some(s) => s,
        None => match strip_prefix(p, "b/"@) {
            Some(s) => s,
            None => p,
        },
    }
}

/// The old and new paths named on a `diff --git` line.
pub open spec fn spec_split_git_paths(raw: Seq<char>) -> Option<(Seq<char>, Seq<char>)> {
    let parts = split_whitespace(raw);
    if parts.len() >= 2 {
        Some((spec_strip_prefix_path(parts[0]), spec_strip_prefix_path(parts[1])))
    } else {
        None
    }
}

/// Start and count of a `-a,b` or `+a,b` range.
pub open spec fn spec_parse_range_spec(spec: Seq<char>, prefix: char) -> (usize, usize) {
    let clean = trim_start_char(spec, prefix);
    match split_once_char(clean, ',') {
        Some((a, b)) => (or_zero(parse_usize(a)), or_zero(parse_usize(b))),
        None => {
            let start = or_zero(parse_usize(clean));
            (start, if start > 0 { 1 } else { 0 })
        },
    }
}

/// The header of a hunk line.
pub open spec fn spec_parse_hunk_header(line: Seq<char>) -> HunkHeaderView {
    let rest = trim_start_pat(line, "@@ "@);
    match split_once(rest, " @@"@) {
        Some((range, heading_part)) => {
            let heading = trim(heading_part);
            let h = if heading.len() > 0 { Some(heading) } else { None };
            let parts = split_whitespace(range);
            if parts.len() >= 2 {
                let (os, ol) = spec_parse_range_spec(parts[0], '-');
                let (ns, nl) = spec_parse_range_spec(parts[1], '+');
                HunkHeaderView { old_start: os, old_lines: ol, new_start: ns, new_lines: nl, heading: h }
            } else {
                HunkHeaderView { old_start: 0, old_lines: 0, new_start: 0, new_lines: 0, heading: h }
            }
        },
        None => HunkHeaderView { old_start: 0, old_lines: 0, new_start: 0, new_lines: 0, heading: None },
    }
}

/// A line of diff output that begins a file diff.
pub open spec fn is_diff_start(line: Seq<char>) -> bool {
    starts_with(line, "diff --git "@)
}

/// A line of diff output that begins a hunk.
pub open spec fn is_hunk_start(line: Seq<char>) -> bool {
    starts_with(line, "@@ "@)
}

/// The state of scanning the body of a hunk.
pub struct HunkScan {
    pub lines: Seq<DiffLineView>,
    pub next: int,
    pub old_line: int,
    pub new_line: int,
    pub additions: int,
    pub deletions: int,
}

/// The line of a hunk body at `line`, given the running line numbers;
/// `None` ends the hunk.
pub open spec fn hunk_line(line: Seq<char>, co: int, cn: int) -> Option<DiffLineView> {
    if is_diff_start(line) || is_hunk_start(line) {
        None
    } else if line.len() > 0 && line[0] == '+' {
        Some(DiffLineView { line_type: LineType::Addition, content: line.skip(1), old_line_number: None, new_line_number: Some(cn) })
    } else if line.len() > 0 && line[0] == '-' {
        Some(DiffLineView { line_type: LineType::Deletion, content: line.skip(1), old_line_number: Some(co), new_line_number: None })
    } else if line.len() > 0 && line[0] == '\\' {
        Some(DiffLineView { line_type: LineType::Header, content: line, old_line_number: None, new_line_number: None })
    } else if line.len() == 0 || line[0] == ' ' {
        Some(DiffLineView {
            line_type: LineType::Context,
            content: if line.len() > 0 { line.skip(1) } else { line },
            old_line_number: Some(co),
            new_line_number: Some(cn),
        })
    } else {
        None
    }
}

/// Scans a hunk body from line `k`.
pub open spec fn scan_hunk(ls: Seq<Seq<char>>, k: int, st: HunkScan) -> HunkScan
    decreases ls.len() - k,
{
    if k < 0 || k >= ls.len() {
        HunkScan { next: k, ..st }
    } else {
        match hunk_line(ls[k], st.old_line, st.new_line) {
            None => HunkScan { next: k, ..st },
            Some(dl) => {
                let st2 = HunkScan {
                    lines: st.lines.push(dl),
                    next: k + 1,
                    old_line: if dl.old_line_number is Some { st.old_line + 1 } else { st.old_line },
                    new_line: if dl.new_line_number is Some { st.new_line + 1 } else { st.new_line },
                    additions: if dl.line_type == LineType::Addition { st.additions + 1 } else { st.additions },
                    deletions: if dl.line_type == LineType::Deletion { st.deletions + 1 } else { st.deletions },
                };
                scan_hunk(ls, k + 1, st2)
            },
        }
    }
}

/// The scan of the hunk whose header is line `k`, counting from the running totals.
pub open spec fn hunk_at(ls: Seq<Seq<char>>, k: int, adds: int, dels: int) -> HunkScan {
    let h = spec_parse_hunk_header(ls[k]);
    scan_hunk(ls, k + 1, HunkScan {
        lines: Seq::empty(),
        next: k + 1,
        old_line: h.old_start as int,
        new_line: h.new_start as int,
        additions: adds,
        deletions: dels,
    })
}

/// The path of a `--- ` or `+++ ` line.
pub open spec fn marker_path(line: Seq<char>, marker: Seq<char>) -> Option<Seq<char>> {
    let p = trim(trim_start_pat(line, marker));
    if p == "/dev/null"@ {
        None
    } else {
        Some(spec_strip_prefix_path(p))
    }
}

/// Effect of a non-hunk line on the scan of a file diff.
pub open spec fn file_line_step(st: FileDiffView, line: Seq<char>) -> FileDiffView {
    if starts_with(line, "new file mode "@) {
        FileDiffView { is_new_file: true, ..st }
    } else if starts_with(line, "deleted file mode "@) {
        FileDiffView { is_deleted_file: true, ..st }
    } else if starts_with(line, "rename from "@) {
        FileDiffView { is_rename: true, old_path: Some(trim(trim_start_pat(line, "rename from "@))), ..st }
    } else if starts_with(line, "rename to "@) {
        FileDiffView { is_rename: true, new_path: Some(trim(trim_start_pat(line, "rename to "@))), ..st }
    } else if starts_with(line, "Binary files "@) && ends_with(line, " differ"@) {
        FileDiffView { is_binary: true, ..st }
    } else if starts_with(line, "--- "@) {
        FileDiffView { old_path: marker_path(line, "--- "@), ..st }
    } else if starts_with(line, "+++ "@) {
        FileDiffView { new_path: marker_path(line, "+++ "@), ..st }
    } else {
        st
    }
}

/// Scans the lines of a file diff from line `k`; returns the state and the
/// index of the line that ends the file diff.
pub open spec fn scan_file(ls: Seq<Seq<char>>, k: int, st: FileDiffView) -> (FileDiffView, int)
    decreases ls.len() - k,
{
    if k < 0 || k >= ls.len() || is_diff_start(ls[k]) {
        (st, k)
    } else if is_hunk_start(ls[k]) {
        let hs = hunk_at(ls, k, st.additions, st.deletions);
        let hunk = DiffHunkView { header: spec_parse_hunk_header(ls[k]), lines: hs.lines };
        let st2 = FileDiffView { hunks: st.hunks.push(hunk), additions: hs.additions, deletions: hs.deletions, ..st };
        let next = if k < hs.next && hs.next <= ls.len() { hs.next } else { k + 1 };
        scan_file(ls, next, st2)
    } else {
        scan_file(ls, k + 1, file_line_step(st, ls[k]))
    }
}

/// The file diff whose `diff --git` line is line `k`, and the index after it.
pub open spec fn file_diff_at(ls: Seq<Seq<char>>, k: int) -> (FileDiffView, int) {
    let paths = match strip_prefix(ls[k], "diff --git "@) {
        Some(rest) => spec_split_git_paths(rest),
        None => None,
    };
    let init = FileDiffView {
        old_path: match paths { Some((o, _)) => Some(o), None => None },
        new_path: match paths { Some((_, n)) => Some(n), None => None },
        is_binary: false,
        is_new_file: false,
        is_deleted_file: false,
        is_rename: false,
        hunks: Seq::empty(),
        additions: 0,
        deletions: 0,
    };
    let (st, next) = scan_file(ls, k + 1, init);
    (FileDiffView {
        old_path: if st.is_new_file { None } else { st.old_path },
        new_path: if st.is_deleted_file { None } else { st.new_path },
        is_binary: st.is_binary,
        is_new_file: st.is_new_file,
        is_deleted_file: st.is_deleted_file,
        is_rename: st.is_rename,
        hunks: st.hunks,
        additions: st.additions,
        deletions: st.deletions,
    }, next)
}

/// The file diffs found from line `k` on.
pub open spec fn parse_from(ls: Seq<Seq<char>>, k: int) -> Seq<FileDiffView>
    decreases ls.len() - k,
{
    if k < 0 || k >= ls.len() {
        Seq::empty()
    } else if is_diff_start(ls[k]) {
        let (fd, next) = file_diff_at(ls, k);
        let n = if k < next && next <= ls.len() { next } else { k + 1 };
        seq![fd] + parse_from(ls, n)
    } else {
        parse_from(ls, k + 1)
    }
}

/// What `GitDiffParser::parse` returns for `raw`.
pub open spec fn spec_parse_diff(raw: Seq<char>) -> Seq<FileDiffView> {
    parse_from(lines(raw), 0)
}

/// The running line numbers of every hunk that follows a `diff --git` line
/// stay within `usize` (the original's counters would overflow otherwise).
pub open spec fn diff_counters_fit(raw: Seq<char>) -> bool {
    let ls = lines(raw);
    forall|k: int|
        #![trigger ls[k]]
        0 <= k < ls.len() && is_hunk_start(ls[k]) && (exists|j: int| 0 <= j < k && is_diff_start(#[trigger] ls[j]))
            ==> {
            let hs = hunk_at(ls, k, 0, 0);
            hs.old_line <= usize::MAX && hs.new_line <= usize::MAX
        }
}


/// Copy of an optional string.
pub fn copy_opt_string(o: &Option<String>) -> (r: Option<String>)
    ensures
        opt_view(r) == opt_view(*o),
{
    match o {
        Some(s) => Some(s.clone()),
        None => None,
    }
}

// ------------------------------------------------------------------
// Lemmas about the scans
// ------------------------------------------------------------------

/// The scan of a hunk only moves forward and its line numbers only grow.
proof fn lemma_scan_hunk_mono(ls: Seq<Seq<char>>, k: int, st: HunkScan)
    requires
        0 <= k <= ls.len(),
    ensures
        scan_hunk(ls, k, st).next >= k,
        scan_hunk(ls, k, st).next <= ls.len(),
        scan_hunk(ls, k, st).old_line >= st.old_line,
        scan_hunk(ls, k, st).new_line >= st.new_line,
        scan_hunk(ls, k, st).additions >= st.additions,
        scan_hunk(ls, k, st).deletions >= st.deletions,
        scan_hunk(ls, k, st).additions + scan_hunk(ls, k, st).deletions - st.additions - st.deletions
            <= scan_hunk(ls, k, st).next - k,
    decreases ls.len() - k,
{
    if k < ls.len() {
        match hunk_line(ls[k], st.old_line, st.new_line) {
            None => {},
            Some(dl) => {
                let st2 = HunkScan {
                    lines: st.lines.push(dl),
                    next: k + 1,
                    old_line: if dl.old_line_number is Some { st.old_line + 1 } else { st.old_line },
                    new_line: if dl.new_line_number is Some { st.new_line + 1 } else { st.new_line },
                    additions: if dl.line_type == LineType::Addition { st.additions + 1 } else { st.additions },
                    deletions: if dl.line_type == LineType::Deletion { st.deletions + 1 } else { st.deletions },
                };
                lemma_scan_hunk_mono(ls, k + 1, st2);
            },
        }
    }
}

/// The lines and line numbers of a hunk scan do not depend on the running totals.
proof fn lemma_scan_hunk_indep(ls: Seq<Seq<char>>, k: int, st: HunkScan, a: int, d: int)
    ensures
        scan_hunk(ls, k, HunkScan { additions: a, deletions: d, ..st }).lines == scan_hunk(ls, k, st).lines,
        scan_hunk(ls, k, HunkScan { additions: a, deletions: d, ..st }).next == scan_hunk(ls, k, st).next,
        scan_hunk(ls, k, HunkScan { additions: a, deletions: d, ..st }).old_line == scan_hunk(ls, k, st).old_line,
        scan_hunk(ls, k, HunkScan { additions: a, deletions: d, ..st }).new_line == scan_hunk(ls, k, st).new_line,
    decreases ls.len() - k,
{
    if 0 <= k < ls.len() {
        match hunk_line(ls[k], st.old_line, st.new_line) {
            None => {},
            Some(dl) => {
                let st2 = HunkScan {
                    lines: st.lines.push(dl),
                    next: k + 1,
                    old_line: if dl.old_line_number is Some { st.old_line + 1 } else { st.old_line },
                    new_line: if dl.new_line_number is Some { st.new_line + 1 } else { st.new_line },
                    additions: if dl.line_type == LineType::Addition { st.additions + 1 } else { st.additions },
                    deletions: if dl.line_type == LineType::Deletion { st.deletions + 1 } else { st.deletions },
                };
                let a2 = if dl.line_type == LineType::Addition { a + 1 } else { a };
                let d2 = if dl.line_type == LineType::Deletion { d + 1 } else { d };
                lemma_scan_hunk_indep(ls, k + 1, st2, a2, d2);
            },
        }
    }
}

// ------------------------------------------------------------------
// Executable parser
// ------------------------------------------------------------------

fn strip_prefix_path(path: &Vec<char>) -> (r: String)
    ensures
        r@ == spec_strip_prefix_path(path@),
{
    let p = trim_char_exec(path, '"');
    if let Some(s) = strip_prefix_str(&p, "a/") {
        string_of(&s)
    } else if let Some(s) = strip_prefix_str(&p, "b/") {
        string_of(&s)
    } else {
        string_of(&p)
    }
}

fn split_git_paths(raw: &Vec<char>) -> (r: Option<(String, String)>)
    ensures
        match (r, spec_split_git_paths(raw@)) {
            (Some((a, b)), Some((sa, sb))) => a@ == sa && b@ == sb,
            (None, None) => true,
            _ => false,
        },
{
    let parts = split_whitespace_exec(raw);
    if parts.len() >= 2 {
        assert(parts@[0]@ == views(parts@)[0]);
        assert(parts@[1]@ == views(parts@)[1]);
        Some((strip_prefix_path(&parts[0]), strip_prefix_path(&parts[1])))
    } else {
        None
    }
}

fn parse_range_spec(spec: &Vec<char>, prefix: char) -> (r: (usize, usize))
    ensures
        r == spec_parse_range_spec(spec@, prefix),
{
    let clean = trim_start_char_exec(spec, prefix);
    let parts = splitn_exec(&clean, ',', 2);
    if parts.len() == 2 {
        assert(parts@[0]@ == views(parts@)[0]);
        assert(parts@[1]@ == views(parts@)[1]);
        let start = match parse_usize_exec(&parts[0]) { Some(n) => n, None => 0 };
        let count = match parse_usize_exec(&parts[1]) { Some(n) => n, None => 0 };
        (start, count)
    } else {
        let start = match parse_usize_exec(&clean) { Some(n) => n, None => 0 };
        let count: usize = if start > 0 { 1 } else { 0 };
        (start, count)
    }
}

fn parse_hunk_header(line: &Vec<char>) -> (r: HunkHeader)
    ensures
        r@ == spec_parse_hunk_header(line@),
{
    let rest = trim_start_pat_str(line, "@@ ");
    match split_once_str(&rest, " @@") {
        Some((range_part, heading_part)) => {
            let heading = trim_exec(&heading_part);
            let h = if heading.len() > 0 { Some(string_of(&heading)) } else { None };
            let parts = split_whitespace_exec(&range_part);
            if parts.len() >= 2 {
                assert(parts@[0]@ == views(parts@)[0]);
                assert(parts@[1]@ == views(parts@)[1]);
                let (os, ol) = parse_range_spec(&parts[0], '-');
                let (ns, nl) = parse_range_spec(&parts[1], '+');
                HunkHeader { old_start: os, old_lines: ol, new_start: ns, new_lines: nl, heading: h }
            } else {
                HunkHeader { old_start: 0, old_lines: 0, new_start: 0, new_lines: 0, heading: h }
            }
        },
        None => HunkHeader { old_start: 0, old_lines: 0, new_start: 0, new_lines: 0, heading: None },
    }
}

/// Views of a vector of lines.
pub open spec fn lines_view(ls: &Vec<Vec<char>>) -> Seq<Seq<char>> {
    views(ls@)
}

fn parse_hunk(ls: &Vec<Vec<char>>, start: usize, adds: &mut usize, dels: &mut usize) -> (r: (DiffHunk, usize))
    requires
        start < ls.len(),
        is_hunk_start(lines_view(ls)[start as int]),
        hunk_at(lines_view(ls), start as int, 0, 0).old_line <= usize::MAX,
        hunk_at(lines_view(ls), start as int, 0, 0).new_line <= usize::MAX,
        *old(adds) + *old(dels) <= start,
    ensures
        ({
            let hs = hunk_at(lines_view(ls), start as int, *old(adds) as int, *old(dels) as int);
            &&& r.0@ == (DiffHunkView { header: spec_parse_hunk_header(lines_view(ls)[start as int]), lines: hs.lines })
            &&& r.1 as int == hs.next
            &&& *final(adds) as int == hs.additions
            &&& *final(dels) as int == hs.deletions
        }),
        r.1 > start,
        r.1 <= ls.len(),
        *final(adds) + *final(dels) <= r.1,
{
    let ghost L = lines_view(ls);
    assert(L[start as int] == ls@[start as int]@);
    let header = parse_hunk_header(&ls[start]);
    let mut co: usize = header.old_start;
    let mut cn: usize = header.new_start;
    let mut hunk_lines: Vec<DiffLine> = Vec::new();
    let mut i: usize = start + 1;
    let ghost init = HunkScan {
        lines: Seq::empty(),
        next: start + 1,
        old_line: header.old_start as int,
        new_line: header.new_start as int,
        additions: *old(adds) as int,
        deletions: *old(dels) as int,
    };
    let ghost fin = scan_hunk(L, start + 1, init);
    proof {
        lemma_scan_hunk_indep(L, start + 1, init, 0, 0);
        assert(HunkScan { additions: 0, deletions: 0, ..init } == HunkScan {
            lines: Seq::empty(),
            next: start + 1,
            old_line: header.old_start as int,
            new_line: header.new_start as int,
            additions: 0,
            deletions: 0,
        });
        assert(line_views(hunk_lines@) =~= Seq::<DiffLineView>::empty());
    }
    let mut done = false;
    while i < ls.len() && !done
        invariant
            start < i <= ls.len(),
            L == lines_view(ls),
            fin == scan_hunk(L, start + 1, init),
            fin.old_line <= usize::MAX,
            fin.new_line <= usize::MAX,
            *adds + *dels <= i,
            scan_hunk(L, i as int, HunkScan {
                lines: line_views(hunk_lines@),
                next: i as int,
                old_line: co as int,
                new_line: cn as int,
                additions: *adds as int,
                deletions: *dels as int,
            }) == fin,
            done ==> fin == (HunkScan {
                lines: line_views(hunk_lines@),
                next: i as int,
                old_line: co as int,
                new_line: cn as int,
                additions: *adds as int,
                deletions: *dels as int,
            }),
        decreases ls.len() - i, if done { 0int } else { 1int },
    {
        let line = &ls[i];
        assert(L[i as int] == line@);
        let ghost cur = HunkScan {
            lines: line_views(hunk_lines@),
            next: i as int,
            old_line: co as int,
            new_line: cn as int,
            additions: *adds as int,
            deletions: *dels as int,
        };
        let ghost hl = hunk_line(line@, co as int, cn as int);
        let next_line: Option<DiffLine> = if starts_with_str(line, "diff --git ") || starts_with_str(line, "@@ ") {
            None
        } else if line.len() > 0 && line[0] == '+' {
            Some(DiffLine { line_type: LineType::Addition, content: string_of(&suffix(line, 1)), old_line_number: None, new_line_number: Some(cn) })
        } else if line.len() > 0 && line[0] == '-' {
            Some(DiffLine { line_type: LineType::Deletion, content: string_of(&suffix(line, 1)), old_line_number: Some(co), new_line_number: None })
        } else if line.len() > 0 && line[0] == '\\' {
            Some(DiffLine { line_type: LineType::Header, content: string_of(line), old_line_number: None, new_line_number: None })
        } else if line.len() == 0 || line[0] == ' ' {
            let content = if line.len() > 0 { suffix(line, 1) } else { copy_chars(line) };
            Some(DiffLine { line_type: LineType::Context, content: string_of(&content), old_line_number: Some(co), new_line_number: Some(cn) })
        } else {
            None
        };
        match next_line {
            None => {
                assert(hl is None);
                done = true;
            },
            Some(dl) => {
                assert(hl == Some(dl@));
                let ghost st2 = HunkScan {
                    lines: cur.lines.push(dl@),
                    next: i + 1,
                    old_line: if dl@.old_line_number is Some { co + 1 } else { co as int },
                    new_line: if dl@.new_line_number is Some { cn + 1 } else { cn as int },
                    additions: if dl@.line_type == LineType::Addition { *adds + 1 } else { *adds as int },
                    deletions: if dl@.line_type == LineType::Deletion { *dels + 1 } else { *dels as int },
                };
                assert(scan_hunk(L, i as int, cur) == scan_hunk(L, i + 1, st2));
                proof { lemma_scan_hunk_mono(L, i + 1, st2); }
                let lt = dl.line_type;
                let has_old = dl.old_line_number.is_some();
                let has_new = dl.new_line_number.is_some();
                let ghost old_lines = hunk_lines@;
                hunk_lines.push(dl);
                assert(line_views(hunk_lines@) =~= line_views(old_lines).push(dl@));
                if has_old {
                    co = co + 1;
                }
                if has_new {
                    cn = cn + 1;
                }
                if lt == LineType::Addition {
                    *adds = *adds + 1;
                }
                if lt == LineType::Deletion {
                    *dels = *dels + 1;
                }
                i += 1;
            },
        }
    }
    assert(fin == (HunkScan {
                lines: line_views(hunk_lines@),
                next: i as int,
                old_line: co as int,
                new_line: cn as int,
                additions: *adds as int,
                deletions: *dels as int,
            }));
    assert(hunk_at(L, start as int, *old(adds) as int, *old(dels) as int) == fin);
    assert(line_views(hunk_lines@) == fin.lines);
    let hunk = DiffHunk { header, lines: hunk_lines };
    assert(hunk@.lines == fin.lines);
    (hunk, i)
}


/// Every hunk after line `start` keeps its running line numbers within `usize`.
pub open spec fn hunks_fit_after(L: Seq<Seq<char>>, start: int) -> bool {
    forall|k: int|
        #![trigger L[k]]
        start < k < L.len() && is_hunk_start(L[k]) ==> hunk_at(L, k, 0, 0).old_line <= usize::MAX
            && hunk_at(L, k, 0, 0).new_line <= usize::MAX
}

fn apply_file_line(fd: &mut FileDiff, line: &Vec<char>)
    ensures
        final(fd)@ == file_line_step(old(fd)@, line@),
{
    if starts_with_str(line, "new file mode ") {
        fd.is_new_file = true;
    } else if starts_with_str(line, "deleted file mode ") {
        fd.is_deleted_file = true;
    } else if starts_with_str(line, "rename from ") {
        fd.is_rename = true;
        let t = trim_start_pat_str(line, "rename from ");
        fd.old_path = Some(string_of(&trim_exec(&t)));
    } else if starts_with_str(line, "rename to ") {
        fd.is_rename = true;
        let t = trim_start_pat_str(line, "rename to ");
        fd.new_path = Some(string_of(&trim_exec(&t)));
    } else if starts_with_str(line, "Binary files ") && ends_with_str(line, " differ") {
        fd.is_binary = true;
    } else if starts_with_str(line, "--- ") {
        fd.old_path = marker_path_exec(line, "--- ");
    } else if starts_with_str(line, "+++ ") {
        fd.new_path = marker_path_exec(line, "+++ ");
    }
}

fn marker_path_exec(line: &Vec<char>, marker: &str) -> (r: Option<String>)
    ensures
        opt_view(r) == marker_path(line@, marker@),
{
    let t = trim_start_pat_str(line, marker);
    let p = trim_exec(&t);
    if eq_str(&p, "/dev/null") {
        None
    } else {
        Some(strip_prefix_path(&p))
    }
}

fn parse_file_diff(ls: &Vec<Vec<char>>, start: usize) -> (r: (FileDiff, usize))
    requires
        start < ls.len(),
        is_diff_start(lines_view(ls)[start as int]),
        hunks_fit_after(lines_view(ls), start as int),
    ensures
        r.0@ == file_diff_at(lines_view(ls), start as int).0,
        r.1 as int == file_diff_at(lines_view(ls), start as int).1,
        start < r.1 <= ls.len(),
{
    let ghost L = lines_view(ls);
    assert(L[start as int] == ls@[start as int]@);
    let mut fd = FileDiff {
        old_path: None,
        new_path: None,
        is_binary: false,
        is_new_file: false,
        is_deleted_file: false,
        is_rename: false,
        hunks: Vec::new(),
        additions: 0,
        deletions: 0,
    };
    if let Some(paths) = strip_prefix_str(&ls[start], "diff --git ") {
        if let Some((o, n)) = split_git_paths(&paths) {
            fd.old_path = Some(o);
            fd.new_path = Some(n);
        }
    }
    assert(hunk_views(fd.hunks@) =~= Seq::<DiffHunkView>::empty());
    let ghost init = fd@;
    let mut i: usize = start + 1;
    let mut done = false;
    while i < ls.len() && !done
        invariant
            start < i <= ls.len(),
            L == lines_view(ls),
            hunks_fit_after(L, start as int),
            fd.additions + fd.deletions <= i,
            scan_file(L, start + 1, init) == scan_file(L, i as int, fd@),
            done ==> scan_file(L, i as int, fd@) == (fd@, i as int),
        decreases ls.len() - i, if done { 0int } else { 1int },
    {
        let line = &ls[i];
        assert(L[i as int] == line@);
        if starts_with_str(line, "diff --git ") {
            done = true;
        } else if starts_with_str(line, "@@ ") {
            let ghost before = fd@;
            let (hunk, next) = parse_hunk(ls, i, &mut fd.additions, &mut fd.deletions);
            let ghost old_hunks = fd.hunks@;
            fd.hunks.push(hunk);
            assert(hunk_views(fd.hunks@) =~= hunk_views(old_hunks).push(hunk@));
            i = next;
        } else {
            apply_file_line(&mut fd, line);
            i += 1;
        }
    }
    if fd.is_new_file {
        fd.old_path = None;
    }
    if fd.is_deleted_file {
        fd.new_path = None;
    }
    (fd, i)
}

/// The old and new line numbers reached at the end of the hunk whose header
/// is line `start`.
fn hunk_end_lines(ls: &Vec<Vec<char>>, start: usize) -> (r: (u128, u128))
    requires
        start < ls.len(),
    ensures
        r.0 as int == hunk_at(lines_view(ls), start as int, 0, 0).old_line,
        r.1 as int == hunk_at(lines_view(ls), start as int, 0, 0).new_line,
{
    let ghost L = lines_view(ls);
    assert(L[start as int] == ls@[start as int]@);
    let header = parse_hunk_header(&ls[start]);
    let mut co: u128 = header.old_start as u128;
    let mut cn: u128 = header.new_start as u128;
    let ghost mut gl: Seq<DiffLineView> = Seq::empty();
    let ghost mut ga: int = 0;
    let ghost mut gd: int = 0;
    let ghost fin = hunk_at(L, start as int, 0, 0);
    let mut i: usize = start + 1;
    let mut done = false;
    while i < ls.len() && !done
        invariant
            start < i <= ls.len(),
            L == lines_view(ls),
            co <= usize::MAX + i,
            cn <= usize::MAX + i,
            scan_hunk(L, i as int, HunkScan { lines: gl, next: i as int, old_line: co as int, new_line: cn as int, additions: ga, deletions: gd }) == fin,
            done ==> fin == (HunkScan { lines: gl, next: i as int, old_line: co as int, new_line: cn as int, additions: ga, deletions: gd }),
        decreases ls.len() - i, if done { 0int } else { 1int },
    {
        let line = &ls[i];
        assert(L[i as int] == line@);
        let ghost cur = HunkScan { lines: gl, next: i as int, old_line: co as int, new_line: cn as int, additions: ga, deletions: gd };
        let ghost hl = hunk_line(line@, co as int, cn as int);
        let stop = starts_with_str(line, "diff --git ") || starts_with_str(line, "@@ ") || (line.len() > 0
            && line[0] != '+' && line[0] != '-' && line[0] != '\\' && line[0] != ' ');
        if stop {
            assert(hl is None);
            done = true;
        } else {
            assert(hl is Some);
            let ghost dl = hl->Some_0;
            let has_old = line.len() == 0 || line[0] == '-' || line[0] == ' ';
            let has_new = line.len() == 0 || line[0] == '+' || line[0] == ' ';
            assert(dl.old_line_number is Some <==> has_old);
            assert(dl.new_line_number is Some <==> has_new);
            proof {
                let st2 = HunkScan {
                    lines: gl.push(dl),
                    next: i + 1,
                    old_line: if dl.old_line_number is Some { co + 1 } else { co as int },
                    new_line: if dl.new_line_number is Some { cn + 1 } else { cn as int },
                    additions: if dl.line_type == LineType::Addition { ga + 1 } else { ga },
                    deletions: if dl.line_type == LineType::Deletion { gd + 1 } else { gd },
                };
                assert(scan_hunk(L, i as int, cur) == scan_hunk(L, i + 1, st2));
                gl = st2.lines;
                ga = st2.additions;
                gd = st2.deletions;
            }
            if has_old {
                co = co + 1;
            }
            if has_new {
                cn = cn + 1;
            }
            i += 1;
        }
    }
    (co, cn)
}

/// Whether the line numbers of every hunk of a diff fit in `usize`, which
/// `GitDiffParser::parse` and `parse_side_by_side` need.
pub fn diff_counters_fit_exec(raw_diff: &str) -> (r: bool)
    ensures
        r == diff_counters_fit(raw_diff@),
{
    let cs = chars_of(raw_diff);
    let ls = lines_exec(&cs);
    let ghost L = lines_view(&ls);
    assert(L == lines(raw_diff@));
    let mut seen = false;
    let mut k: usize = 0;
    while k < ls.len()
        invariant
            k <= ls.len(),
            L == lines_view(&ls),
            L == lines(raw_diff@),
            seen <==> exists|j: int| 0 <= j < k && is_diff_start(#[trigger] L[j]),
            forall|m: int|
                #![trigger L[m]]
                0 <= m < k && is_hunk_start(L[m]) && (exists|j: int| 0 <= j < m && is_diff_start(#[trigger] L[j]))
                    ==> hunk_at(L, m, 0, 0).old_line <= usize::MAX && hunk_at(L, m, 0, 0).new_line <= usize::MAX,
        decreases ls.len() - k,
    {
        assert(L[k as int] == ls@[k as int]@);
        if seen && starts_with_str(&ls[k], "@@ ") {
            let (o, n) = hunk_end_lines(&ls, k);
            if o > usize::MAX as u128 || n > usize::MAX as u128 {
                assert(!diff_counters_fit(raw_diff@)) by {
                    let j = choose|j: int| 0 <= j < k && is_diff_start(#[trigger] L[j]);
                    assert(is_diff_start(L[j]));
                    assert(is_hunk_start(L[k as int]));
                }
                return false;
            }
        }
        if starts_with_str(&ls[k], "diff --git ") {
            seen = true;
        }
        proof {
            if !seen {
                assert forall|j: int| 0 <= j < k + 1 implies !is_diff_start(#[trigger] L[j]) by {
                    if j == k as int {
                    }
                }
            }
        }
        k += 1;
    }
    true
}

impl GitDiffParser {
    /// Parses a raw unified git diff string into a vector of [`FileDiff`] structs.
    pub fn parse(raw_diff: &str) -> (r: Vec<FileDiff>)
        requires
            diff_counters_fit(raw_diff@),
        ensures
            file_diff_views(r@) == spec_parse_diff(raw_diff@),
    {
        let cs = chars_of(raw_diff);
        let ls = lines_exec(&cs);
        let ghost L = lines_view(&ls);
        let mut out: Vec<FileDiff> = Vec::new();
        let mut i: usize = 0;
        assert(file_diff_views(out@) =~= Seq::<FileDiffView>::empty());
        while i < ls.len()
            invariant
                i <= ls.len(),
                L == lines_view(&ls),
                L == lines(raw_diff@),
                diff_counters_fit(raw_diff@),
                parse_from(L, 0) == file_diff_views(out@) + parse_from(L, i as int),
            decreases ls.len() - i,
        {
            assert(L[i as int] == ls@[i as int]@);
            if starts_with_str(&ls[i], "diff --git ") {
                assert(hunks_fit_after(L, i as int)) by {
                    assert forall|k: int|
                        #![trigger L[k]]
                        i < k < L.len() && is_hunk_start(L[k]) implies hunk_at(L, k, 0, 0).old_line <= usize::MAX
                            && hunk_at(L, k, 0, 0).new_line <= usize::MAX by {
                        assert(is_diff_start(L[i as int]));
                    }
                }
                let (fd, next) = parse_file_diff(&ls, i);
                let ghost old_out = out@;
                out.push(fd);
                assert(file_diff_views(out@) =~= file_diff_views(old_out).push(fd@));
                assert(file_diff_views(old_out).push(fd@) + parse_from(L, next as int) =~= file_diff_views(old_out) + (seq![fd@] + parse_from(L, next as int)));
                i = next;
            } else {
                i += 1;
            }
        }
        assert(file_diff_views(out@) + Seq::<FileDiffView>::empty() == file_diff_views(out@));
        out
    }
}

/// High-performance Git diff parser supporting unified and side-by-side outputs.
pub struct GitDiffParser;

impl FileDiff {
    /// Returns the total number of line modifications (additions + deletions).
    pub fn total_changes(&self) -> (r: usize)
        requires
            self.additions + self.deletions <= usize::MAX,
        ensures
            r == self.additions + self.deletions,
    {
        self.additions + self.deletions
    }
}


/// Line change classification for side-by-side diff rows.
#[derive(Debug, Clone, Copy, PartialEq, Eq, Structural)]
pub enum SideBySideLineType {
    Equal,
    Addition,
    Deletion,
    Modification,
}

/// A single side-by-side diff row containing left (old) and right (new) diff lines.
#[derive(Debug, Clone, PartialEq, Eq)]
pub struct SideBySideLine {
    pub left: Option<DiffLine>,
    pub right: Option<DiffLine>,
    pub line_type: SideBySideLineType,
}

/// Mathematical view of a [`SideBySideLine`].
pub struct SideBySideLineView {
    pub left: Option<DiffLineView>,
    pub right: Option<DiffLineView>,
    pub line_type: SideBySideLineType,
}

/// View of an optional diff line.
pub open spec fn opt_line_view(o: Option<DiffLine>) -> Option<DiffLineView> {
    match o {
        Some(l) => Some(l@),
        None => None,
    }
}

impl View for SideBySideLine {
    type V = SideBySideLineView;

    open spec fn view(&self) -> SideBySideLineView {
        SideBySideLineView { left: opt_line_view(self.left), right: opt_line_view(self.right), line_type: self.line_type }
    }
}

/// A side-by-side diff hunk holding side-by-side rows.
#[derive(Debug, Clone, PartialEq, Eq)]
pub struct SideBySideHunk {
    pub header: HunkHeader,
    pub lines: Vec<SideBySideLine>,
}

/// Mathematical view of a [`SideBySideHunk`].
pub struct SideBySideHunkView {
    pub header: HunkHeaderView,
    pub lines: Seq<SideBySideLineView>,
}

/// Views of a sequence of side-by-side rows.
pub open spec fn row_views(s: Seq<SideBySideLine>) -> Seq<SideBySideLineView> {
    s.map_values(|l: SideBySideLine| l@)
}

impl View for SideBySideHunk {
    type V = SideBySideHunkView;

    open spec fn view(&self) -> SideBySideHunkView {
        SideBySideHunkView { header: self.header@, lines: row_views(self.lines@) }
    }
}

/// Side-by-side diff representation for a single file.
#[derive(Debug, Clone, PartialEq, Eq)]
pub struct SideBySideDiff {
    pub old_path: Option<String>,
    pub new_path: Option<String>,
    pub is_binary: bool,
    pub is_new_file: bool,
    pub is_deleted_file: bool,
    pub is_rename: bool,
    pub hunks: Vec<SideBySideHunk>,
    pub additions: usize,
    pub deletions: usize,
}

/// Mathematical view of a [`SideBySideDiff`].
pub struct SideBySideDiffView {
    pub old_path: Option<Seq<char>>,
    pub new_path: Option<Seq<char>>,
    pub is_binary: bool,
    pub is_new_file: bool,
    pub is_deleted_file: bool,
    pub is_rename: bool,
    pub hunks: Seq<SideBySideHunkView>,
    pub additions: int,
    pub deletions: int,
}

/// Views of a sequence of side-by-side hunks.
pub open spec fn sbs_hunk_views(s: Seq<SideBySideHunk>) -> Seq<SideBySideHunkView> {
    s.map_values(|h: SideBySideHunk| h@)
}

impl View for SideBySideDiff {
    type V = SideBySideDiffView;

    open spec fn view(&self) -> SideBySideDiffView {
        SideBySideDiffView {
            old_path: opt_view(self.old_path),
            new_path: opt_view(self.new_path),
            is_binary: self.is_binary,
            is_new_file: self.is_new_file,
            is_deleted_file: self.is_deleted_file,
            is_rename: self.is_rename,
            hunks: sbs_hunk_views(self.hunks@),
            additions: self.additions as int,
            deletions: self.deletions as int,
        }
    }
}

impl SideBySideDiff {
    /// Returns total additions and deletions in this diff.
    pub fn total_changes(&self) -> (r: usize)
        requires
            self.additions + self.deletions <= usize::MAX,
        ensures
            r == self.additions + self.deletions,
    {
        self.additions + self.deletions
    }
}

/// Row `i` of a pending block of deletions and additions.
pub open spec fn block_row(del: Seq<DiffLineView>, add: Seq<DiffLineView>, i: int) -> SideBySideLineView {
    let left = if i < del.len() { Some(del[i]) } else { None };
    let right = if i < add.len() { Some(add[i]) } else { None };
    SideBySideLineView {
        left,
        right,
        line_type: if left is Some && right is Some {
            SideBySideLineType::Modification
        } else if left is Some {
            SideBySideLineType::Deletion
        } else if right is Some {
            SideBySideLineType::Addition
        } else {
            SideBySideLineType::Equal
        },
    }
}

/// Pairs pending deletions with pending additions, row by row.
pub open spec fn flush_rows(del: Seq<DiffLineView>, add: Seq<DiffLineView>) -> Seq<SideBySideLineView> {
    let n = if del.len() >= add.len() { del.len() } else { add.len() };
    Seq::new(n, |i: int| block_row(del, add, i))
}

/// State of the side-by-side conversion of a hunk's lines: emitted rows and
/// the pending deletion and addition blocks.
pub open spec fn sbs_state(ls: Seq<DiffLineView>) -> (Seq<SideBySideLineView>, Seq<DiffLineView>, Seq<DiffLineView>)
    decreases ls.len(),
{
    if ls.len() == 0 {
        (Seq::empty(), Seq::empty(), Seq::empty())
    } else {
        let (out, del, add) = sbs_state(ls.drop_last());
        let l = ls.last();
        match l.line_type {
            LineType::Deletion => (out, del.push(l), add),
            LineType::Addition => (out, del, add.push(l)),
            _ => (out + flush_rows(del, add) + seq![SideBySideLineView { left: Some(l), right: Some(l), line_type: SideBySideLineType::Equal }], Seq::empty(), Seq::empty()),
        }
    }
}

/// The side-by-side rows of a hunk's lines.
pub open spec fn sbs_rows(ls: Seq<DiffLineView>) -> Seq<SideBySideLineView> {
    let (out, del, add) = sbs_state(ls);
    out + flush_rows(del, add)
}

/// Views of a sequence of diff lines, as the state of the conversion keeps them.
fn flush_blocks(del: &mut Vec<DiffLine>, add: &mut Vec<DiffLine>, out: &mut Vec<SideBySideLine>)
    ensures
        row_views(final(out)@) == row_views(old(out)@) + flush_rows(line_views(old(del)@), line_views(old(add)@)),
        final(del)@.len() == 0,
        final(add)@.len() == 0,
{
    let n = if del.len() >= add.len() { del.len() } else { add.len() };
    let ghost base = row_views(out@);
    let ghost dv = line_views(del@);
    let ghost av = line_views(add@);
    let mut i: usize = 0;
    while i < n
        invariant
            i <= n,
            n == (if del.len() >= add.len() { del.len() } else { add.len() }),
            dv == line_views(del@),
            av == line_views(add@),
            row_views(out@) == base + Seq::new(i as nat, |j: int| block_row(dv, av, j)),
        decreases n - i,
    {
        let left = if i < del.len() { Some(del[i].copy()) } else { None };
        let right = if i < add.len() { Some(add[i].copy()) } else { None };
        let lt = match (&left, &right) {
            (Some(_), Some(_)) => SideBySideLineType::Modification,
            (Some(_), None) => SideBySideLineType::Deletion,
            (None, Some(_)) => SideBySideLineType::Addition,
            (None, None) => SideBySideLineType::Equal,
        };
        let row = SideBySideLine { left, right, line_type: lt };
        assert(row@ == block_row(dv, av, i as int));
        let ghost old_out = out@;
        out.push(row);
        assert(row_views(out@) =~= row_views(old_out).push(row@));
        assert(base + Seq::new((i + 1) as nat, |j: int| block_row(dv, av, j)) =~= (base + Seq::new(i as nat, |j: int| block_row(dv, av, j))).push(block_row(dv, av, i as int)));
        i += 1;
    }
    del.clear();
    add.clear();
}

fn convert_hunk_to_side_by_side(hunk: &DiffHunk) -> (r: SideBySideHunk)
    ensures
        r@ == (SideBySideHunkView { header: hunk@.header, lines: sbs_rows(hunk@.lines) }),
{
    let mut out: Vec<SideBySideLine> = Vec::new();
    let mut del: Vec<DiffLine> = Vec::new();
    let mut add: Vec<DiffLine> = Vec::new();
    let ghost lv = hunk@.lines;
    let mut i: usize = 0;
    assert(row_views(out@) =~= Seq::<SideBySideLineView>::empty());
    assert(line_views(del@) =~= Seq::<DiffLineView>::empty());
    assert(line_views(add@) =~= Seq::<DiffLineView>::empty());
    while i < hunk.lines.len()
        invariant
            i <= hunk.lines.len(),
            lv == hunk@.lines,
            sbs_state(lv.take(i as int)) == (row_views(out@), line_views(del@), line_views(add@)),
        decreases hunk.lines.len() - i,
    {
        assert(lv.take(i + 1).drop_last() == lv.take(i as int));
        assert(lv.take(i + 1).last() == hunk.lines@[i as int]@);
        let line = &hunk.lines[i];
        match line.line_type {
            LineType::Deletion => {
                let ghost d = del@;
                del.push(line.copy());
                assert(line_views(del@) =~= line_views(d).push(line@));
            },
            LineType::Addition => {
                let ghost a = add@;
                add.push(line.copy());
                assert(line_views(add@) =~= line_views(a).push(line@));
            },
            _ => {
                flush_blocks(&mut del, &mut add, &mut out);
                let row = SideBySideLine { left: Some(line.copy()), right: Some(line.copy()), line_type: SideBySideLineType::Equal };
                let ghost o = out@;
                out.push(row);
                assert(row_views(out@) =~= row_views(o).push(row@));
                assert(line_views(del@) =~= Seq::<DiffLineView>::empty());
                assert(line_views(add@) =~= Seq::<DiffLineView>::empty());
            },
        }
        i += 1;
    }
    assert(lv.take(hunk.lines.len() as int) == lv);
    flush_blocks(&mut del, &mut add, &mut out);
    SideBySideHunk { header: hunk.header.copy(), lines: out }
}

/// The side-by-side form of a file diff.
pub open spec fn spec_to_side_by_side(fd: FileDiffView) -> SideBySideDiffView {
    SideBySideDiffView {
        old_path: fd.old_path,
        new_path: fd.new_path,
        is_binary: fd.is_binary,
        is_new_file: fd.is_new_file,
        is_deleted_file: fd.is_deleted_file,
        is_rename: fd.is_rename,
        hunks: fd.hunks.map_values(|h: DiffHunkView| SideBySideHunkView { header: h.header, lines: sbs_rows(h.lines) }),
        additions: fd.additions,
        deletions: fd.deletions,
    }
}

impl FileDiff {
    /// Converts this unified file diff into a side-by-side diff format.
    pub fn to_side_by_side(&self) -> (r: SideBySideDiff)
        ensures
            r@ == spec_to_side_by_side(self@),
    {
        let mut hunks: Vec<SideBySideHunk> = Vec::new();
        let mut i: usize = 0;
        while i < self.hunks.len()
            invariant
                i <= self.hunks.len(),
                sbs_hunk_views(hunks@) == self@.hunks.take(i as int).map_values(
                    |h: DiffHunkView| SideBySideHunkView { header: h.header, lines: sbs_rows(h.lines) },
                ),
            decreases self.hunks.len() - i,
        {
            let h = convert_hunk_to_side_by_side(&self.hunks[i]);
            let ghost old_h = hunks@;
            hunks.push(h);
            assert(sbs_hunk_views(hunks@) =~= sbs_hunk_views(old_h).push(h@));
            assert(self@.hunks[i as int] == self.hunks@[i as int]@);
            assert(self@.hunks.take(i + 1) =~= self@.hunks.take(i as int).push(self@.hunks[i as int]));
            assert(sbs_hunk_views(hunks@) =~= self@.hunks.take(i + 1).map_values(
                |h: DiffHunkView| SideBySideHunkView { header: h.header, lines: sbs_rows(h.lines) },
            ));
            i += 1;
        }
        assert(self@.hunks.take(self.hunks.len() as int) == self@.hunks);
        SideBySideDiff {
            old_path: copy_opt_string(&self.old_path),
            new_path: copy_opt_string(&self.new_path),
            is_binary: self.is_binary,
            is_new_file: self.is_new_file,
            is_deleted_file: self.is_deleted_file,
            is_rename: self.is_rename,
            hunks,
            additions: self.additions,
            deletions: self.deletions,
        }
    }
}

impl GitDiffParser {
    /// Parses a raw unified git diff string directly into side-by-side file diffs.
    pub fn parse_side_by_side(raw_diff: &str) -> (r: Vec<SideBySideDiff>)
        requires
            diff_counters_fit(raw_diff@),
        ensures
            r@.map_values(|d: SideBySideDiff| d@) == spec_parse_diff(raw_diff@).map_values(
                |f: FileDiffView| spec_to_side_by_side(f),
            ),
    {
        let fds = Self::parse(raw_diff);
        let ghost fv = file_diff_views(fds@);
        let mut out: Vec<SideBySideDiff> = Vec::new();
        let mut i: usize = 0;
        while i < fds.len()
            invariant
                i <= fds.len(),
                fv == file_diff_views(fds@),
                out@.map_values(|d: SideBySideDiff| d@) == fv.take(i as int).map_values(
                    |f: FileDiffView| spec_to_side_by_side(f),
                ),
            decreases fds.len() - i,
        {
            let sd = fds[i].to_side_by_side();
            let ghost old_out = out@;
            out.push(sd);
            assert(out@.map_values(|d: SideBySideDiff| d@) =~= old_out.map_values(|d: SideBySideDiff| d@).push(sd@));
            assert(fv[i as int] == fds@[i as int]@);
            assert(fv.take(i + 1) =~= fv.take(i as int).push(fv[i as int]));
            assert(out@.map_values(|d: SideBySideDiff| d@) =~= fv.take(i + 1).map_values(
                |f: FileDiffView| spec_to_side_by_side(f),
            ));
            i += 1;
        }
        assert(fv.take(fds.len() as int) == fv);
        out
    }
}

/// Custom error type for Git diff parsing errors.
#[derive(Debug, Clone, PartialEq, Eq)]
pub enum DiffError {
    ParseError(String),
    AsyncJoinError(String),
}

impl DiffError {
    /// The message that `Display` shows for the error.
    pub fn to_string(&self) -> (r: String)
        ensures
            r@ == match self {
                DiffError::ParseError(m) => "Parse error: "@ + m@,
                DiffError::AsyncJoinError(m) => "Async task join error: "@ + m@,
            },
    {
        match self {
            DiffError::ParseError(m) => {
                let mut r = string_from("Parse error: ");
                append_str(&mut r, m.as_str());
                r
            },
            DiffError::AsyncJoinError(m) => {
                let mut r = string_from("Async task join error: ");
                append_str(&mut r, m.as_str());
                r
            },
        }
    }
}

proof fn lemma_decimal_digits(n: nat)
    ensures
        decimal(n).len() > 0,
        all_digits(decimal(n)),
        digits_value(decimal(n)) == n,
    decreases n,
{
    let d = (n % 10) as nat;
    assert(digit_char(d) as nat - '0' as nat == d) by {
        assert(d < 10);
    }
    assert('0' <= digit_char(d) && digit_char(d) <= '9');
    if n >= 10 {
        lemma_decimal_digits(n / 10);
        let s = decimal(n);
        assert(s.drop_last() == decimal(n / 10));
        assert(s.last() == digit_char(d));
        assert forall|i: int| 0 <= i < s.len() implies is_digit_char(#[trigger] s[i]) by {
            if i < s.len() - 1 {
                assert(s[i] == decimal(n / 10)[i]);
            }
        }
        assert(digits_value(s) == digits_value(s.drop_last()) * 10 + ((s.last() as nat) - ('0' as nat)) as nat);
        assert(digits_value(s) == digits_value(decimal(n / 10)) * 10 + d);
        assert((n / 10) * 10 + d == n);
    } else {
        let s = decimal(n);
        assert(s == seq![digit_char(n)]);
        assert(s.drop_last() =~= Seq::<char>::empty());
        assert(s.last() == digit_char(d));
        assert(digits_value(s.drop_last()) == 0);
        assert(digits_value(s) == digits_value(s.drop_last()) * 10 + ((s.last() as nat) - ('0' as nat)) as nat);
        assert(is_digit_char(s[0]));
    }
}

proof fn lemma_splitn_no_sep(s: Seq<char>, sep: char, n: nat)
    requires
        forall|i: int| 0 <= i < s.len() ==> s[i] != sep,
    ensures
        splitn_state(s, sep, n).0.len() == 0,
    decreases s.len(),
{
    if s.len() > 0 {
        lemma_splitn_no_sep(s.drop_last(), sep, n);
    }
}

/// A hunk range written as a sign and a positive start without a count
/// (`-N` or `+N`, as git writes a one-line range) stands for exactly one
/// line starting at `N`.
pub proof fn law_range_without_count(prefix: char, start: usize)
    requires
        prefix == '-' || prefix == '+',
        start > 0,
    ensures
        spec_parse_range_spec(seq![prefix] + decimal(start as nat), prefix) == (start, 1usize),
{
    let d = decimal(start as nat);
    lemma_decimal_digits(start as nat);
    let t = seq![prefix] + d;
    assert(is_digit_char(d[0]));
    assert(t[0] == prefix);
    assert(t.drop_first() =~= d);
    assert(trim_start_char(d, prefix) == d);
    assert(trim_start_char(t, prefix) == d);
    assert forall|i: int| 0 <= i < d.len() implies d[i] != ',' by {
        assert(is_digit_char(d[i]));
    }
    lemma_splitn_no_sep(d, ',', 2);
    assert(split_once_char(d, ',') is None);
    assert(parse_usize(d) == Some(start));
}

proof fn lemma_splitn_plain(s: Seq<char>, sep: char, n: nat)
    requires
        forall|i: int| 0 <= i < s.len() ==> s[i] != sep,
    ensures
        splitn_state(s, sep, n) == (Seq::<Seq<char>>::empty(), s),
    decreases s.len(),
{
    if s.len() > 0 {
        lemma_splitn_plain(s.drop_last(), sep, n);
        assert(s.drop_last().push(s.last()) =~= s);
    }
}

proof fn lemma_splitn_at_first(p: Seq<char>, sep: char, c: Seq<char>)
    requires
        forall|i: int| 0 <= i < p.len() ==> p[i] != sep,
    ensures
        splitn_state(p + seq![sep] + c, sep, 2) == (seq![p], c),
    decreases c.len(),
{
    let s = p + seq![sep] + c;
    if c.len() == 0 {
        assert(s.drop_last() =~= p);
        lemma_splitn_plain(p, sep, 2);
        assert(s.last() == sep);
        assert(Seq::<Seq<char>>::empty().push(p) =~= seq![p]);
    } else {
        lemma_splitn_at_first(p, sep, c.drop_last());
        assert(s.drop_last() =~= p + seq![sep] + c.drop_last());
        assert(s.last() == c.last());
        assert(c.drop_last().push(c.last()) =~= c);
    }
}

/// A hunk range written as a sign, a start and a count (`-N,C` or `+N,C`)
/// stands for `C` lines starting at `N`.
pub proof fn law_range_with_count(prefix: char, start: usize, count: usize)
    requires
        prefix == '-' || prefix == '+',
    ensures
        spec_parse_range_spec(
            seq![prefix] + decimal(start as nat) + seq![','] + decimal(count as nat),
            prefix,
        ) == (start, count),
{
    let d = decimal(start as nat);
    let c = decimal(count as nat);
    lemma_decimal_digits(start as nat);
    lemma_decimal_digits(count as nat);
    let t = seq![prefix] + d + seq![','] + c;
    let body = d + seq![','] + c;
    assert(is_digit_char(d[0]));
    assert(t[0] == prefix);
    assert(t.drop_first() =~= body);
    assert(body[0] == d[0]);
    assert(trim_start_char(body, prefix) == body);
    assert(trim_start_char(t, prefix) == body);
    assert forall|i: int| 0 <= i < d.len() implies d[i] != ',' by {
        assert(is_digit_char(d[i]));
    }
    lemma_splitn_at_first(d, ',', c);
    assert(splitn(body, ',', 2) =~= seq![d, c]);
    assert(split_once_char(body, ',') == Some((d, c)));
    assert(is_digit_char(c[0]));
    assert(parse_usize(d) == Some(start));
    assert(parse_usize(c) == Some(count));
}

proof fn lemma_words_plain(x: Seq<char>)
    requires
        forall|i: int| 0 <= i < x.len() ==> !is_ws(x[i]),
    ensures
        words_state(x) == (Seq::<Seq<char>>::empty(), x),
    decreases x.len(),
{
    if x.len() > 0 {
        lemma_words_plain(x.drop_last());
        assert(x.drop_last().push(x.last()) =~= x);
    }
}

proof fn lemma_words_two(a: Seq<char>, b: Seq<char>)
    requires
        a.len() > 0,
        forall|i: int| 0 <= i < a.len() ==> !is_ws(a[i]),
        forall|i: int| 0 <= i < b.len() ==> !is_ws(b[i]),
    ensures
        words_state(a + seq![' '] + b) == (seq![a], b),
    decreases b.len(),
{
    let s = a + seq![' '] + b;
    if b.len() == 0 {
        assert(s.drop_last() =~= a);
        lemma_words_plain(a);
        assert(is_ws(s.last()));
        assert(Seq::<Seq<char>>::empty().push(a) =~= seq![a]);
    } else {
        lemma_words_two(a, b.drop_last());
        assert(s.drop_last() =~= a + seq![' '] + b.drop_last());
        assert(s.last() == b.last());
        assert(!is_ws(b[b.len() - 1]));
        assert(b.drop_last().push(b.last()) =~= b);
    }
}

proof fn lemma_find_first(s: Seq<char>, p: Seq<char>, i: int, k: int)
    requires
        0 <= i <= k,
        matches_at(s, k, p),
        forall|j: int| i <= j < k ==> !matches_at(s, j, p),
    ensures
        find_from(s, p, i) == Some(k),
    decreases k - i,
{
    if i < k {
        lemma_find_first(s, p, i + 1, k);
    }
}

/// Neither whitespace nor `@`.
spec fn plain_range_text(x: Seq<char>) -> bool {
    x.len() > 0 && forall|i: int| 0 <= i < x.len() ==> !is_ws(x[i]) && x[i] != '@'
}

proof fn lemma_header_ranges(a: Seq<char>, b: Seq<char>)
    requires
        plain_range_text(a),
        plain_range_text(b),
    ensures
        spec_parse_hunk_header("@@ "@ + a + seq![' '] + b + " @@"@) == (HunkHeaderView {
            old_start: spec_parse_range_spec(a, '-').0,
            old_lines: spec_parse_range_spec(a, '-').1,
            new_start: spec_parse_range_spec(b, '+').0,
            new_lines: spec_parse_range_spec(b, '+').1,
            heading: None,
        }),
{
    reveal_strlit("@@ ");
    reveal_strlit(" @@");
    let open = "@@ "@;
    let close = " @@"@;
    assert(open =~= seq!['@', '@', ' ']);
    assert(close =~= seq![' ', '@', '@']);
    let range = a + seq![' '] + b;
    let rest = range + close;
    let line = open + rest;
    assert(line =~= open + a + seq![' '] + b + close);
    assert(line.subrange(0, 3) =~= open);
    assert(starts_with(line, open));
    assert(line.skip(3) =~= rest);
    assert(!starts_with(rest, open)) by {
        assert(rest[0] == a[0]);
        if starts_with(rest, open) {
            assert(rest.subrange(0, 3)[0] == open[0]);
        }
    }
    assert(trim_start_pat(rest, open) == rest);
    assert(trim_start_pat(line, open) == rest);
    let k = range.len() as int;
    assert(rest.subrange(k, k + 3) =~= close);
    assert forall|j: int| 0 <= j < k implies !matches_at(rest, j, close) by {
        if matches_at(rest, j, close) {
            assert(rest.subrange(j, j + 3)[1] == close[1]);
            assert(rest[j + 1] == '@');
            if j + 1 < a.len() {
                assert(rest[j + 1] == a[j + 1]);
            } else if j + 1 == a.len() {
                assert(rest[j + 1] == ' ');
            } else if j + 1 < k {
                assert(rest[j + 1] == b[j + 1 - a.len() - 1]);
            } else {
                assert(rest[j + 1] == ' ');
            }
        }
    }
    lemma_find_first(rest, close, 0, k);
    assert(rest.take(k) =~= range);
    assert(rest.skip(k + 3) =~= Seq::<char>::empty());
    assert(trim_start(Seq::<char>::empty()) == Seq::<char>::empty());
    assert(trim_end(Seq::<char>::empty()) == Seq::<char>::empty());
    assert(trim(Seq::<char>::empty()) == Seq::<char>::empty());
    lemma_words_two(a, b);
    assert(split_whitespace(range) =~= seq![a, b]);
}

/// The header `@@ -N +M @@` of a one-line change, where git leaves out both
/// counts, covers one old line from `N` and one new line from `M`.
pub proof fn law_header_without_counts(old_start: usize, new_start: usize)
    requires
        old_start > 0,
        new_start > 0,
    ensures
        spec_parse_hunk_header(
            "@@ "@ + (seq!['-'] + decimal(old_start as nat)) + seq![' '] + (seq!['+'] + decimal(new_start as nat)) + " @@"@,
        ) == (HunkHeaderView { old_start: old_start, old_lines: 1, new_start: new_start, new_lines: 1, heading: None }),
{
    let a = seq!['-'] + decimal(old_start as nat);
    let b = seq!['+'] + decimal(new_start as nat);
    lemma_decimal_digits(old_start as nat);
    lemma_decimal_digits(new_start as nat);
    assert forall|i: int| 0 <= i < a.len() implies !is_ws(a[i]) && a[i] != '@' by {
        if i > 0 {
            assert(a[i] == decimal(old_start as nat)[i - 1]);
            assert(is_digit_char(decimal(old_start as nat)[i - 1]));
        }
    }
    assert forall|i: int| 0 <= i < b.len() implies !is_ws(b[i]) && b[i] != '@' by {
        if i > 0 {
            assert(b[i] == decimal(new_start as nat)[i - 1]);
            assert(is_digit_char(decimal(new_start as nat)[i - 1]));
        }
    }
    lemma_header_ranges(a, b);
    law_range_without_count('-', old_start);
    law_range_without_count('+', new_start);
}

} // verus!
