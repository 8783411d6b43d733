//! Working-tree status: the model of `git status` output and its parsers.
use vstd::prelude::*;
use crate::text::{same_path, same_path_exec, append_chars, byte_len, byte_len_prefix, chars_of, copy_chars, eq_chars, eq_str, lines, lines_exec, opt_view, or_zero, parse_usize, parse_usize_exec, slice_chars, split_once, split_once_char, split_once_str, split_whitespace, split_whitespace_exec, splitn, splitn_exec, starts_with, starts_with_str, string_from, string_of, strip_prefix, strip_prefix_str, suffix, trim, trim_char, trim_char_exec, trim_exec, trim_start_pat, trim_start_pat_str, utf8_len, utf8_len_exec, views};

verus! {

/// Represents the status of a single file in the index or working tree.
#[derive(Debug, Clone, Copy, PartialEq, Eq, Structural, Hash)]
pub enum GitStatusKind {
    Unmodified,
    Modified,
    Added,
    Deleted,
    Renamed,
    Copied,
    TypeChanged,
    Untracked,
    Ignored,
    Conflicted,
    Unknown,
}

/// The status letter meaning of `c` in porcelain output.
pub open spec fn kind_of_char(c: char) -> GitStatusKind {
    if c == '.' || c == ' ' {
        GitStatusKind::Unmodified
    } else if c == 'M' {
        GitStatusKind::Modified
    } else if c == 'A' {
        GitStatusKind::Added
    } else if c == 'D' {
        GitStatusKind::Deleted
    } else if c == 'R' {
        GitStatusKind::Renamed
    } else if c == 'C' {
        GitStatusKind::Copied
    } else if c == 'T' {
        GitStatusKind::TypeChanged
    } else if c == '?' {
        GitStatusKind::Untracked
    } else if c == '!' {
        GitStatusKind::Ignored
    } else if c == 'U' {
        GitStatusKind::Conflicted
    } else {
        GitStatusKind::Unknown
    }
}

/// Display name of a status kind.
pub open spec fn kind_name(k: GitStatusKind) -> Seq<char> {
    match k {
        GitStatusKind::Unmodified => "Unmodified"@,
        GitStatusKind::Modified => "Modified"@,
        GitStatusKind::Added => "Added"@,
        GitStatusKind::Deleted => "Deleted"@,
        GitStatusKind::Renamed => "Renamed"@,
        GitStatusKind::Copied => "Copied"@,
        GitStatusKind::TypeChanged => "TypeChanged"@,
        GitStatusKind::Untracked => "Untracked"@,
        GitStatusKind::Ignored => "Ignored"@,
        GitStatusKind::Conflicted => "Conflicted"@,
        GitStatusKind::Unknown => "Unknown"@,
    }
}

impl GitStatusKind {
    /// Maps a porcelain status letter to its kind.
    pub fn from_char(c: char) -> (r: Self)
        ensures
            r == kind_of_char(c),
    {
        match c {
            '.' | ' ' => GitStatusKind::Unmodified,
            'M' => GitStatusKind::Modified,
            'A' => GitStatusKind::Added,
            'D' => GitStatusKind::Deleted,
            'R' => GitStatusKind::Renamed,
            'C' => GitStatusKind::Copied,
            'T' => GitStatusKind::TypeChanged,
            '?' => GitStatusKind::Untracked,
            '!' => GitStatusKind::Ignored,
            'U' => GitStatusKind::Conflicted,
            _ => GitStatusKind::Unknown,
        }
    }

    /// The display name of the kind (what `Display` shows).
    pub fn to_string(&self) -> (r: String)
        ensures
            r@ == kind_name(*self),
    {
        match self {
            GitStatusKind::Unmodified => string_from("Unmodified"),
            GitStatusKind::Modified => string_from("Modified"),
            GitStatusKind::Added => string_from("Added"),
            GitStatusKind::Deleted => string_from("Deleted"),
            GitStatusKind::Renamed => string_from("Renamed"),
            GitStatusKind::Copied => string_from("Copied"),
            GitStatusKind::TypeChanged => string_from("TypeChanged"),
            GitStatusKind::Untracked => string_from("Untracked"),
            GitStatusKind::Ignored => string_from("Ignored"),
            GitStatusKind::Conflicted => string_from("Conflicted"),
            GitStatusKind::Unknown => string_from("Unknown"),
        }
    }
}

/// The status letters of porcelain output (`.` is the v2 spelling of ` `).
pub open spec fn is_status_letter(c: char) -> bool {
    c == ' ' || c == 'M' || c == 'A' || c == 'D' || c == 'R' || c == 'C' || c == 'T' || c == '?' || c == '!' || c == 'U'
}

/// Each change letter stands for the kind whose name begins with it, `?`,
/// `!` and `U` for untracked, ignored and conflicted, ` ` and `.` for
/// unmodified; distinct letters stand for distinct kinds, and no letter for
/// the unknown kind.
pub proof fn law_status_letters()
    ensures
        forall|c: char|
            (c == 'M' || c == 'A' || c == 'D' || c == 'R' || c == 'C' || c == 'T') ==> #[trigger] kind_name(kind_of_char(c))[0] == c,
        forall|a: char, b: char|
            is_status_letter(a) && is_status_letter(b) && a != b ==> #[trigger] kind_of_char(a) != #[trigger] kind_of_char(b),
        forall|c: char| is_status_letter(c) ==> #[trigger] kind_of_char(c) != GitStatusKind::Unknown,
        kind_of_char('M') == GitStatusKind::Modified,
        kind_of_char('A') == GitStatusKind::Added,
        kind_of_char('D') == GitStatusKind::Deleted,
        kind_of_char('R') == GitStatusKind::Renamed,
        kind_of_char('C') == GitStatusKind::Copied,
        kind_of_char('T') == GitStatusKind::TypeChanged,
        kind_of_char('?') == GitStatusKind::Untracked,
        kind_of_char('!') == GitStatusKind::Ignored,
        kind_of_char('U') == GitStatusKind::Conflicted,
        kind_of_char(' ') == GitStatusKind::Unmodified,
        kind_of_char('.') == GitStatusKind::Unmodified,
{
    reveal_strlit("Modified");
    reveal_strlit("Added");
    reveal_strlit("Deleted");
    reveal_strlit("Renamed");
    reveal_strlit("Copied");
    reveal_strlit("TypeChanged");
}

/// Information about the current branch / HEAD state.
#[derive(Debug, Clone, PartialEq, Eq)]
pub struct BranchStatus {
    pub head: Option<String>,
    pub oid: Option<String>,
    pub upstream: Option<String>,
    pub ahead: usize,
    pub behind: usize,
    pub is_detached: bool,
}

/// Mathematical view of a [`BranchStatus`].
pub struct BranchStatusView {
    pub head: Option<Seq<char>>,
    pub oid: Option<Seq<char>>,
    pub upstream: Option<Seq<char>>,
    pub ahead: usize,
    pub behind: usize,
    pub is_detached: bool,
}

impl View for BranchStatus {
    type V = BranchStatusView;

    open spec fn view(&self) -> BranchStatusView {
        BranchStatusView {
            head: opt_view(self.head),
            oid: opt_view(self.oid),
            upstream: opt_view(self.upstream),
            ahead: self.ahead,
            behind: self.behind,
            is_detached: self.is_detached,
        }
    }
}

/// The branch status before any header line.
pub open spec fn empty_branch_view() -> BranchStatusView {
    BranchStatusView {
        head: None,
        oid: None,
        upstream: None,
        ahead: 0,
        behind: 0,
        is_detached: false,
    }
}

impl BranchStatus {
    /// The branch status before any header line is read (`Default`).
    pub fn empty() -> (r: Self)
        ensures
            r@ == empty_branch_view(),
    {
        BranchStatus { head: None, oid: None, upstream: None, ahead: 0, behind: 0, is_detached: false }
    }
}

/// Represents the status of a file entry.
#[derive(Debug, Clone, PartialEq, Eq)]
pub struct FileStatus {
    pub path: String,
    pub orig_path: Option<String>,
    pub index_status: GitStatusKind,
    pub worktree_status: GitStatusKind,
}

/// Mathematical view of a [`FileStatus`].
pub struct FileStatusView {
    pub path: Seq<char>,
    pub orig_path: Option<Seq<char>>,
    pub index_status: GitStatusKind,
    pub worktree_status: GitStatusKind,
}

impl View for FileStatus {
    type V = FileStatusView;

    open spec fn view(&self) -> FileStatusView {
        FileStatusView {
            path: self.path@,
            orig_path: opt_view(self.orig_path),
            index_status: self.index_status,
            worktree_status: self.worktree_status,
        }
    }
}

/// Either side is in conflict.
pub open spec fn spec_is_conflicted(f: FileStatusView) -> bool {
    f.index_status == GitStatusKind::Conflicted || f.worktree_status == GitStatusKind::Conflicted
}

/// The index side holds a change.
pub open spec fn spec_is_staged(f: FileStatusView) -> bool {
    !spec_is_conflicted(f) && f.index_status != GitStatusKind::Unmodified && f.index_status
        != GitStatusKind::Untracked && f.index_status != GitStatusKind::Ignored
}

/// The working tree side holds a change.
pub open spec fn spec_is_unstaged(f: FileStatusView) -> bool {
    !spec_is_conflicted(f) && f.worktree_status != GitStatusKind::Unmodified && f.worktree_status
        != GitStatusKind::Untracked && f.worktree_status != GitStatusKind::Ignored
}

/// Either side is untracked.
pub open spec fn spec_is_untracked(f: FileStatusView) -> bool {
    f.index_status == GitStatusKind::Untracked || f.worktree_status == GitStatusKind::Untracked
}

impl FileStatus {
    /// A status entry without an original path.
    pub fn new(path: String, index_status: GitStatusKind, worktree_status: GitStatusKind) -> (r: Self)
        ensures
            r@ == (FileStatusView { path: path@, orig_path: None, index_status, worktree_status }),
    {
        FileStatus { path, orig_path: None, index_status, worktree_status }
    }

    /// A status entry of a renamed or copied file.
    pub fn with_orig_path(
        path: String,
        orig_path: String,
        index_status: GitStatusKind,
        worktree_status: GitStatusKind,
    ) -> (r: Self)
        ensures
            r@ == (FileStatusView {
                path: path@,
                orig_path: Some(orig_path@),
                index_status,
                worktree_status,
            }),
    {
        FileStatus { path, orig_path: Some(orig_path), index_status, worktree_status }
    }

    pub fn is_staged(&self) -> (r: bool)
        ensures
            r == spec_is_staged(self@),
    {
        !self.is_conflicted() && self.index_status != GitStatusKind::Unmodified && self.index_status
            != GitStatusKind::Untracked && self.index_status != GitStatusKind::Ignored
    }

    pub fn is_unstaged(&self) -> (r: bool)
        ensures
            r == spec_is_unstaged(self@),
    {
        !self.is_conflicted() && self.worktree_status != GitStatusKind::Unmodified
            && self.worktree_status != GitStatusKind::Untracked && self.worktree_status
            != GitStatusKind::Ignored
    }

    pub fn is_untracked(&self) -> (r: bool)
        ensures
            r == spec_is_untracked(self@),
    {
        self.index_status == GitStatusKind::Untracked || self.worktree_status == GitStatusKind::Untracked
    }

    pub fn is_conflicted(&self) -> (r: bool)
        ensures
            r == spec_is_conflicted(self@),
    {
        self.index_status == GitStatusKind::Conflicted || self.worktree_status
            == GitStatusKind::Conflicted
    }
}

/// Full Git working tree status snapshot.
#[derive(Debug, Clone, PartialEq, Eq)]
pub struct GitWorkingTreeStatus {
    pub branch: BranchStatus,
    pub files: Vec<FileStatus>,
}

/// Mathematical view of a [`GitWorkingTreeStatus`].
pub struct StatusView {
    pub branch: BranchStatusView,
    pub files: Seq<FileStatusView>,
}

/// Views of a sequence of file statuses.
pub open spec fn file_views(s: Seq<FileStatus>) -> Seq<FileStatusView> {
    s.map_values(|f: FileStatus| f@)
}

impl View for GitWorkingTreeStatus {
    type V = StatusView;

    open spec fn view(&self) -> StatusView {
        StatusView { branch: self.branch@, files: file_views(self.files@) }
    }
}

/// The status before any line of output is read.
pub open spec fn empty_status_view() -> StatusView {
    StatusView { branch: empty_branch_view(), files: Seq::empty() }
}

/// Every entry is unmodified on both sides (true for no entries).
pub open spec fn spec_is_clean(s: StatusView) -> bool {
    forall|i: int|
        0 <= i < s.files.len() ==> (#[trigger] s.files[i]).index_status == GitStatusKind::Unmodified
            && s.files[i].worktree_status == GitStatusKind::Unmodified
}

/// Entry `f` is about `p`, as its path or its original path (paths compared
/// component by component).
pub open spec fn is_about_path(f: FileStatusView, p: Seq<char>) -> bool {
    same_path(f.path, p) || (f.orig_path matches Some(o) && same_path(o, p))
}

/// Views of a sequence of borrowed file statuses.
pub open spec fn ref_views(s: Seq<&FileStatus>) -> Seq<FileStatusView> {
    s.map_values(|f: &FileStatus| f@)
}

impl GitWorkingTreeStatus {
    /// An empty status (`Default`).
    pub fn empty() -> (r: Self)
        ensures
            r@ == empty_status_view(),
    {
        let r = GitWorkingTreeStatus { branch: BranchStatus::empty(), files: Vec::new() };
        assert(r@.files =~= Seq::<FileStatusView>::empty());
        r
    }

    pub fn is_clean(&self) -> (r: bool)
        ensures
            r == spec_is_clean(self@),
    {
        let mut i: usize = 0;
        while i < self.files.len()
            invariant
                i <= self.files.len(),
                forall|j: int|
                    0 <= j < i ==> (#[trigger] self@.files[j]).index_status == GitStatusKind::Unmodified
                        && self@.files[j].worktree_status == GitStatusKind::Unmodified,
            decreases self.files.len() - i,
        {
            let f = &self.files[i];
            if !(f.index_status == GitStatusKind::Unmodified && f.worktree_status
                == GitStatusKind::Unmodified) {
                assert(self@.files[i as int] == f@);
                return false;
            }
            i += 1;
        }
        true
    }

    /// Entries with a staged change, in order.
    pub fn staged(&self) -> (r: Vec<&FileStatus>)
        ensures
            ref_views(r@) == self@.files.filter(|f: FileStatusView| spec_is_staged(f)),
    {
        let mut r: Vec<&FileStatus> = Vec::new();
        let mut i: usize = 0;
        while i < self.files.len()
            invariant
                i <= self.files.len(),
                ref_views(r@) == self@.files.take(i as int).filter(|f: FileStatusView| spec_is_staged(f)),
            decreases self.files.len() - i,
        {
            proof { reveal_with_fuel(Seq::<_>::filter, 1); }
            assert(self@.files.take(i + 1).drop_last() == self@.files.take(i as int));
            let ghost old_r = r@;
            if self.files[i].is_staged() {
                r.push(&self.files[i]);
                assert(ref_views(r@) =~= ref_views(old_r).push(self.files@[i as int]@));
            }
            i += 1;
        }
        assert(self@.files.take(self.files.len() as int) == self@.files);
        r
    }

    /// Entries with an unstaged change, in order.
    pub fn unstaged(&self) -> (r: Vec<&FileStatus>)
        ensures
            ref_views(r@) == self@.files.filter(|f: FileStatusView| spec_is_unstaged(f)),
    {
        let mut r: Vec<&FileStatus> = Vec::new();
        let mut i: usize = 0;
        while i < self.files.len()
            invariant
                i <= self.files.len(),
                ref_views(r@) == self@.files.take(i as int).filter(|f: FileStatusView| spec_is_unstaged(f)),
            decreases self.files.len() - i,
        {
            proof { reveal_with_fuel(Seq::<_>::filter, 1); }
            assert(self@.files.take(i + 1).drop_last() == self@.files.take(i as int));
            let ghost old_r = r@;
            if self.files[i].is_unstaged() {
                r.push(&self.files[i]);
                assert(ref_views(r@) =~= ref_views(old_r).push(self.files@[i as int]@));
            }
            i += 1;
        }
        assert(self@.files.take(self.files.len() as int) == self@.files);
        r
    }

    /// Untracked entries, in order.
    pub fn untracked(&self) -> (r: Vec<&FileStatus>)
        ensures
            ref_views(r@) == self@.files.filter(|f: FileStatusView| spec_is_untracked(f)),
    {
        let mut r: Vec<&FileStatus> = Vec::new();
        let mut i: usize = 0;
        while i < self.files.len()
            invariant
                i <= self.files.len(),
                ref_views(r@) == self@.files.take(i as int).filter(|f: FileStatusView| spec_is_untracked(f)),
            decreases self.files.len() - i,
        {
            proof { reveal_with_fuel(Seq::<_>::filter, 1); }
            assert(self@.files.take(i + 1).drop_last() == self@.files.take(i as int));
            let ghost old_r = r@;
            if self.files[i].is_untracked() {
                r.push(&self.files[i]);
                assert(ref_views(r@) =~= ref_views(old_r).push(self.files@[i as int]@));
            }
            i += 1;
        }
        assert(self@.files.take(self.files.len() as int) == self@.files);
        r
    }

    /// Conflicted entries, in order.
    pub fn conflicted(&self) -> (r: Vec<&FileStatus>)
        ensures
            ref_views(r@) == self@.files.filter(|f: FileStatusView| spec_is_conflicted(f)),
    {
        let mut r: Vec<&FileStatus> = Vec::new();
        let mut i: usize = 0;
        while i < self.files.len()
            invariant
                i <= self.files.len(),
                ref_views(r@) == self@.files.take(i as int).filter(|f: FileStatusView| spec_is_conflicted(f)),
            decreases self.files.len() - i,
        {
            proof { reveal_with_fuel(Seq::<_>::filter, 1); }
            assert(self@.files.take(i + 1).drop_last() == self@.files.take(i as int));
            let ghost old_r = r@;
            if self.files[i].is_conflicted() {
                r.push(&self.files[i]);
                assert(ref_views(r@) =~= ref_views(old_r).push(self.files@[i as int]@));
            }
            i += 1;
        }
        assert(self@.files.take(self.files.len() as int) == self@.files);
        r
    }

    /// The first entry whose path or original path is `path`.
    pub fn get_status_for_path(&self, path: &str) -> (r: Option<&FileStatus>)
        ensures
            r matches Some(f) ==> exists|i: int|
                0 <= i < self.files.len() && self.files@[i] == *f && is_about_path(f@, path@)
                    && forall|j: int| 0 <= j < i ==> !is_about_path(#[trigger] self@.files[j], path@),
            r is None ==> forall|j: int| 0 <= j < self.files.len() ==> !is_about_path(#[trigger] self@.files[j], path@),
    {
        let p = chars_of(path);
        let mut i: usize = 0;
        while i < self.files.len()
            invariant
                i <= self.files.len(),
                p@ == path@,
                forall|j: int| 0 <= j < i ==> !is_about_path(#[trigger] self@.files[j], path@),
            decreases self.files.len() - i,
        {
            let f = &self.files[i];
            assert(self@.files[i as int] == f@);
            let pc = chars_of(f.path.as_str());
            let mut hit = same_path_exec(&pc, &p);
            if !hit {
                match &f.orig_path {
                    Some(o) => {
                        let oc = chars_of(o.as_str());
                        hit = same_path_exec(&oc, &p);
                    },
                    None => {},
                }
            }
            if hit {
                return Some(f);
            }
            i += 1;
        }
        None
    }
}

// ------------------------------------------------------------------
// Porcelain v2
// ------------------------------------------------------------------

/// Status kinds of an `XY` field; a missing letter reads as unmodified.
pub open spec fn spec_parse_xy(xy: Seq<char>) -> (GitStatusKind, GitStatusKind) {
    let x = if xy.len() > 0 { kind_of_char(xy[0]) } else { GitStatusKind::Unmodified };
    let y = if xy.len() > 1 { kind_of_char(xy[1]) } else { GitStatusKind::Unmodified };
    (x, y)
}

/// The ahead/behind counts of a `branch.ab` header.
pub open spec fn header_ab(b: BranchStatusView, rest: Seq<char>) -> BranchStatusView {
    let parts = split_whitespace(rest);
    if parts.len() == 2 {
        let b1 = match strip_prefix(parts[0], "+"@) {
            Some(a) => BranchStatusView { ahead: or_zero(parse_usize(a)), ..b },
            None => b,
        };
        match strip_prefix(parts[1], "-"@) {
            Some(d) => BranchStatusView { behind: or_zero(parse_usize(d)), ..b1 },
            None => b1,
        }
    } else {
        b
    }
}

/// Effect of a `# ` header line on the branch status.
pub open spec fn header_step(b: BranchStatusView, line: Seq<char>) -> BranchStatusView {
    let h = trim(trim_start_pat(line, "# "@));
    match strip_prefix(h, "branch.oid "@) {
        Some(rest) => if rest != "(initial)"@ {
            BranchStatusView { oid: Some(rest), ..b }
        } else {
            b
        },
        None => match strip_prefix(h, "branch.head "@) {
            Some(rest) => if rest == "(detached)"@ {
                BranchStatusView { is_detached: true, head: None, ..b }
            } else {
                BranchStatusView { head: Some(rest), ..b }
            },
            None => match strip_prefix(h, "branch.upstream "@) {
                Some(rest) => BranchStatusView { upstream: Some(rest), ..b },
                None => match strip_prefix(h, "branch.ab "@) {
                    Some(rest) => header_ab(b, rest),
                    None => b,
                },
            },
        },
    }
}

/// The path and original path of a rename/copy entry's last field.
pub open spec fn rename_paths(paths: Seq<char>) -> (Seq<char>, Seq<char>) {
    match split_once_char(paths, '\t') {
        Some(pr) => pr,
        None => match split_once_char(paths, ' ') {
            Some(pr) => pr,
            None => (paths, Seq::empty()),
        },
    }
}

/// Adds an entry to the status.
pub open spec fn with_file(st: StatusView, f: FileStatusView) -> StatusView {
    StatusView { branch: st.branch, files: st.files.push(f) }
}

/// Effect of one line of porcelain v2 output; `Err` holds the parse error message.
pub open spec fn v2_step(st: StatusView, line: Seq<char>) -> Result<StatusView, Seq<char>> {
    if line.len() == 0 {
        Ok(st)
    } else if starts_with(line, "# "@) {
        Ok(StatusView { branch: header_step(st.branch, line), files: st.files })
    } else if line[0] == '1' {
        let parts = splitn(line, ' ', 9);
        if parts.len() < 9 {
            Err("Invalid v2 ordinary entry line: "@ + line)
        } else {
            let (x, y) = spec_parse_xy(parts[1]);
            Ok(with_file(st, FileStatusView { path: parts[8], orig_path: None, index_status: x, worktree_status: y }))
        }
    } else if line[0] == '2' {
        let parts = splitn(line, ' ', 10);
        if parts.len() < 10 {
            Err("Invalid v2 rename/copy line: "@ + line)
        } else {
            let (x, y) = spec_parse_xy(parts[1]);
            let (p, o) = rename_paths(parts[9]);
            let orig = if o.len() == 0 { None } else { Some(o) };
            Ok(with_file(st, FileStatusView { path: p, orig_path: orig, index_status: x, worktree_status: y }))
        }
    } else if line[0] == 'u' {
        let parts = splitn(line, ' ', 11);
        if parts.len() < 11 {
            Err("Invalid v2 unmerged line: "@ + line)
        } else {
            Ok(with_file(st, FileStatusView {
                path: parts[10],
                orig_path: None,
                index_status: GitStatusKind::Conflicted,
                worktree_status: GitStatusKind::Conflicted,
            }))
        }
    } else if line[0] == '?' {
        match strip_prefix(line, "? "@) {
            Some(p) => Ok(with_file(st, FileStatusView {
                path: p,
                orig_path: None,
                index_status: GitStatusKind::Untracked,
                worktree_status: GitStatusKind::Untracked,
            })),
            None => Ok(st),
        }
    } else if line[0] == '!' {
        match strip_prefix(line, "! "@) {
            Some(p) => Ok(with_file(st, FileStatusView {
                path: p,
                orig_path: None,
                index_status: GitStatusKind::Ignored,
                worktree_status: GitStatusKind::Ignored,
            })),
            None => Ok(st),
        }
    } else {
        Ok(st)
    }
}

/// Porcelain v2 parse of a sequence of lines, stopping at the first error.
pub open spec fn v2_parse_lines(ls: Seq<Seq<char>>) -> Result<StatusView, Seq<char>>
    decreases ls.len(),
{
    if ls.len() == 0 {
        Ok(empty_status_view())
    } else {
        match v2_parse_lines(ls.drop_last()) {
            Ok(st) => v2_step(st, ls.last()),
            Err(e) => Err(e),
        }
    }
}

/// What `parse_porcelain_v2` returns for `output`.
pub open spec fn spec_parse_porcelain_v2(output: Seq<char>) -> Result<StatusView, Seq<char>> {
    v2_parse_lines(lines(output))
}

/// Errors that can occur during git status operations.
#[derive(Debug, Clone, PartialEq, Eq)]
pub enum GitStatusError {
    Io(String),
    GitCommandFailed { code: Option<i32>, stderr: String },
    NotAGitRepository(String),
    ParseError(String),
}

/// The parser result `r` is the specified result `s`.
pub open spec fn status_result_is(
    r: Result<GitWorkingTreeStatus, GitStatusError>,
    s: Result<StatusView, Seq<char>>,
) -> bool {
    match (r, s) {
        (Ok(v), Ok(sv)) => v@ == sv,
        (Err(GitStatusError::ParseError(m)), Err(e)) => m@ == e,
        _ => false,
    }
}

fn parse_xy(xy: &Vec<char>) -> (r: (GitStatusKind, GitStatusKind))
    ensures
        r == spec_parse_xy(xy@),
{
    let x = if xy.len() > 0 { GitStatusKind::from_char(xy[0]) } else { GitStatusKind::Unmodified };
    let y = if xy.len() > 1 { GitStatusKind::from_char(xy[1]) } else { GitStatusKind::Unmodified };
    (x, y)
}

fn parse_header_line(line: &Vec<char>, branch: &mut BranchStatus)
    ensures
        final(branch)@ == header_step(old(branch)@, line@),
{
    let t = trim_start_pat_str(line, "# ");
    let h = trim_exec(&t);
    if let Some(rest) = strip_prefix_str(&h, "branch.oid ") {
        if !eq_str(&rest, "(initial)") {
            branch.oid = Some(string_of(&rest));
        }
    } else if let Some(rest) = strip_prefix_str(&h, "branch.head ") {
        if eq_str(&rest, "(detached)") {
            branch.is_detached = true;
            branch.head = None;
        } else {
            branch.head = Some(string_of(&rest));
        }
    } else if let Some(rest) = strip_prefix_str(&h, "branch.upstream ") {
        branch.upstream = Some(string_of(&rest));
    } else if let Some(rest) = strip_prefix_str(&h, "branch.ab ") {
        let parts = split_whitespace_exec(&rest);
        if parts.len() == 2 {
            assert(parts@[0]@ == views(parts@)[0]);
            assert(parts@[1]@ == views(parts@)[1]);
            if let Some(a) = strip_prefix_str(&parts[0], "+") {
                branch.ahead = match parse_usize_exec(&a) { Some(n) => n, None => 0 };
            }
            if let Some(d) = strip_prefix_str(&parts[1], "-") {
                branch.behind = match parse_usize_exec(&d) { Some(n) => n, None => 0 };
            }
        }
    }
}

/// Concatenates a literal message with the characters of a line.
fn message_with(msg: &str, line: &Vec<char>) -> (r: String)
    ensures
        r@ == msg@ + line@,
{
    let mut r = string_from(msg);
    append_chars(&mut r, line);
    r
}

fn push_file(status: &mut GitWorkingTreeStatus, f: FileStatus)
    ensures
        final(status)@ == with_file(old(status)@, f@),
{
    let ghost old_files = status.files@;
    status.files.push(f);
    assert(file_views(status.files@) =~= file_views(old_files).push(f@));
}

fn apply_v2_line(status: &mut GitWorkingTreeStatus, line: &Vec<char>) -> (r: Result<(), String>)
    ensures
        v2_step(old(status)@, line@) matches Ok(st) ==> r is Ok && final(status)@ == st,
        v2_step(old(status)@, line@) matches Err(m) ==> r matches Err(e) && e@ == m,
{
    if line.len() == 0 {
        return Ok(());
    }
    if starts_with_str(line, "# ") {
        parse_header_line(line, &mut status.branch);
        return Ok(());
    }
    let prefix = line[0];
    if prefix == '1' {
        let parts = splitn_exec(line, ' ', 9);
        if parts.len() < 9 {
            return Err(message_with("Invalid v2 ordinary entry line: ", line));
        }
        assert(parts@[1]@ == views(parts@)[1]);
        assert(parts@[8]@ == views(parts@)[8]);
        let (x, y) = parse_xy(&parts[1]);
        push_file(status, FileStatus::new(string_of(&parts[8]), x, y));
        Ok(())
    } else if prefix == '2' {
        let parts = splitn_exec(line, ' ', 10);
        if parts.len() < 10 {
            return Err(message_with("Invalid v2 rename/copy line: ", line));
        }
        assert(parts@[1]@ == views(parts@)[1]);
        assert(parts@[9]@ == views(parts@)[9]);
        let paths = &parts[9];
        let (x, y) = parse_xy(&parts[1]);
        let tab = splitn_exec(paths, '\t', 2);
        let (p, o) = if tab.len() == 2 {
            assert(tab@[0]@ == views(tab@)[0]);
            assert(tab@[1]@ == views(tab@)[1]);
            (copy_chars(&tab[0]), copy_chars(&tab[1]))
        } else {
            let sp = splitn_exec(paths, ' ', 2);
            if sp.len() == 2 {
                assert(sp@[0]@ == views(sp@)[0]);
                assert(sp@[1]@ == views(sp@)[1]);
                (copy_chars(&sp[0]), copy_chars(&sp[1]))
            } else {
                (copy_chars(paths), Vec::new())
            }
        };
        assert((p@, o@) == rename_paths(paths@));
        if o.len() == 0 {
            push_file(status, FileStatus::new(string_of(&p), x, y));
        } else {
            push_file(status, FileStatus::with_orig_path(string_of(&p), string_of(&o), x, y));
        }
        Ok(())
    } else if prefix == 'u' {
        let parts = splitn_exec(line, ' ', 11);
        if parts.len() < 11 {
            return Err(message_with("Invalid v2 unmerged line: ", line));
        }
        assert(parts@[10]@ == views(parts@)[10]);
        push_file(
            status,
            FileStatus::new(string_of(&parts[10]), GitStatusKind::Conflicted, GitStatusKind::Conflicted),
        );
        Ok(())
    } else if prefix == '?' {
        if let Some(p) = strip_prefix_str(line, "? ") {
            push_file(
                status,
                FileStatus::new(string_of(&p), GitStatusKind::Untracked, GitStatusKind::Untracked),
            );
        }
        Ok(())
    } else if prefix == '!' {
        if let Some(p) = strip_prefix_str(line, "! ") {
            push_file(status, FileStatus::new(string_of(&p), GitStatusKind::Ignored, GitStatusKind::Ignored));
        }
        Ok(())
    } else {
        Ok(())
    }
}

/// Parses output from `git status --porcelain=v2 --branch`.
pub fn parse_porcelain_v2(output: &str) -> (r: Result<GitWorkingTreeStatus, GitStatusError>)
    ensures
        status_result_is(r, spec_parse_porcelain_v2(output@)),
{
    let cs = chars_of(output);
    let ls = lines_exec(&cs);
    let mut status = GitWorkingTreeStatus::empty();
    let mut i: usize = 0;
    while i < ls.len()
        invariant
            i <= ls.len(),
            views(ls@) == lines(output@),
            v2_parse_lines(views(ls@).take(i as int)) == Ok::<StatusView, Seq<char>>(status@),
        decreases ls.len() - i,
    {
        assert(views(ls@).take(i + 1).drop_last() == views(ls@).take(i as int));
        assert(views(ls@).take(i + 1).last() == ls@[i as int]@);
        match apply_v2_line(&mut status, &ls[i]) {
            Ok(()) => {},
            Err(m) => {
                proof { lemma_v2_err_persists(views(ls@), i as int + 1); }
                assert(views(ls@).take(ls.len() as int) == views(ls@));
                return Err(GitStatusError::ParseError(m));
            },
        }
        i += 1;
    }
    assert(views(ls@).take(ls.len() as int) == views(ls@));
    Ok(status)
}

/// Once the parse of a prefix fails, the parse of the whole fails with the same message.
proof fn lemma_v2_err_persists(ls: Seq<Seq<char>>, k: int)
    requires
        0 <= k <= ls.len(),
        v2_parse_lines(ls.take(k)) is Err,
    ensures
        v2_parse_lines(ls) == v2_parse_lines(ls.take(k)),
    decreases ls.len() - k,
{
    if k < ls.len() {
        assert(ls.take(k + 1).drop_last() == ls.take(k));
        lemma_v2_err_persists(ls, k + 1);
    } else {
        assert(ls.take(k) == ls);
    }
}

/// A line that porcelain v2 parsing refuses: an ordinary, rename or unmerged
/// entry with fewer space-separated fields than its kind has (header lines
/// never fail).
pub open spec fn v2_bad_line(line: Seq<char>) -> bool {
    &&& line.len() > 0
    &&& !starts_with(line, "# "@)
    &&& ((line[0] == '1' && splitn(line, ' ', 9).len() < 9) || (line[0] == '2' && splitn(line, ' ', 10).len() < 10)
        || (line[0] == 'u' && splitn(line, ' ', 11).len() < 11))
}

proof fn lemma_v2_parse_err(ls: Seq<Seq<char>>)
    ensures
        v2_parse_lines(ls) is Err <==> exists|k: int| 0 <= k < ls.len() && v2_bad_line(#[trigger] ls[k]),
    decreases ls.len(),
{
    if ls.len() > 0 {
        let init = ls.drop_last();
        lemma_v2_parse_err(init);
        if exists|k: int| 0 <= k < init.len() && v2_bad_line(#[trigger] init[k]) {
            let k = choose|k: int| 0 <= k < init.len() && v2_bad_line(#[trigger] init[k]);
            assert(ls[k] == init[k]);
        }
        if exists|k: int| 0 <= k < ls.len() && v2_bad_line(#[trigger] ls[k]) {
            let k = choose|k: int| 0 <= k < ls.len() && v2_bad_line(#[trigger] ls[k]);
            if k < init.len() {
                assert(init[k] == ls[k]);
            }
        }
    }
}

/// Porcelain v2 parsing fails exactly when some line is a malformed entry
/// line, and then with a parse error.
pub proof fn law_porcelain_v2_errors(output: Seq<char>)
    ensures
        spec_parse_porcelain_v2(output) is Err <==> exists|k: int|
            0 <= k < lines(output).len() && v2_bad_line(#[trigger] lines(output)[k]),
{
    lemma_v2_parse_err(lines(output));
}

// ------------------------------------------------------------------
// Porcelain v1
// ------------------------------------------------------------------

/// Byte index 2 of `line` falls on a character boundary (slicing `line[0..2]`
/// does not panic).
pub open spec fn xy_boundary_ok(line: Seq<char>) -> bool {
    byte_len(line) < 3 || (line.len() >= 1 && byte_len(line.take(1)) == 2) || (line.len() >= 2
        && byte_len(line.take(2)) == 2)
}

/// Number of characters in the first two bytes of a line that `xy_boundary_ok` admits.
pub open spec fn xy_chars(line: Seq<char>) -> int {
    if line.len() >= 1 && byte_len(line.take(1)) == 2 {
        1
    } else {
        2
    }
}

/// A conflict code of porcelain v1.
pub open spec fn is_conflict_code(xy: Seq<char>) -> bool {
    xy == "DD"@ || xy == "AU"@ || xy == "UD"@ || xy == "UA"@ || xy == "DU"@ || xy == "AA"@ || xy
        == "UU"@
}

/// Effect of one line of porcelain v1 output.
pub open spec fn v1_step(st: StatusView, line: Seq<char>) -> StatusView {
    if byte_len(line) < 3 {
        st
    } else {
        let n = xy_chars(line);
        let xy = line.take(n);
        let rest = trim(line.skip(n));
        if xy == "??"@ {
            with_file(st, FileStatusView { path: rest, orig_path: None, index_status: GitStatusKind::Untracked, worktree_status: GitStatusKind::Untracked })
        } else if xy == "!!"@ {
            with_file(st, FileStatusView { path: rest, orig_path: None, index_status: GitStatusKind::Ignored, worktree_status: GitStatusKind::Ignored })
        } else if is_conflict_code(xy) {
            with_file(st, FileStatusView { path: rest, orig_path: None, index_status: GitStatusKind::Conflicted, worktree_status: GitStatusKind::Conflicted })
        } else {
            let (x, y) = spec_parse_xy(xy);
            match split_once(rest, " -> "@) {
                Some((p, o)) => with_file(st, FileStatusView { path: p, orig_path: Some(o), index_status: x, worktree_status: y }),
                None => with_file(st, FileStatusView { path: trim_char(rest, '"'), orig_path: None, index_status: x, worktree_status: y }),
            }
        }
    }
}

/// Porcelain v1 parse of a sequence of lines.
pub open spec fn v1_parse_lines(ls: Seq<Seq<char>>) -> StatusView
    decreases ls.len(),
{
    if ls.len() == 0 {
        empty_status_view()
    } else {
        v1_step(v1_parse_lines(ls.drop_last()), ls.last())
    }
}

fn apply_v1_line(status: &mut GitWorkingTreeStatus, line: &Vec<char>)
    requires
        xy_boundary_ok(line@),
    ensures
        final(status)@ == v1_step(old(status)@, line@),
{
    let blen = byte_len_prefix(line, line.len());
    assert(line@.take(line.len() as int) == line@);
    if blen < 3 {
        proof { lemma_byte_len_bound(line@); }
        return;
    }
    let n: usize = if line.len() >= 1 && utf8_len_exec(line[0]) == 2 { 1 } else { 2 };
    proof {
        assert(line@.take(1).drop_last() =~= Seq::<char>::empty());
        assert(line@.take(1).last() == line@[0]);
        assert(byte_len(Seq::<char>::empty()) == 0);
        assert(byte_len(line@.take(1)) == utf8_len(line@[0]));
        assert(n as int == xy_chars(line@));
        lemma_byte_len_bound(line@);
        if n == 2 {
            lemma_byte_len_take_mono(line@, 2);
        }
    }
    let xy = slice_chars(line, 0, n);
    let rest_raw = suffix(line, n);
    let rest = trim_exec(&rest_raw);
    assert(xy@ == line@.take(n as int));
    if eq_str(&xy, "??") {
        push_file(status, FileStatus::new(string_of(&rest), GitStatusKind::Untracked, GitStatusKind::Untracked));
        return;
    }
    if eq_str(&xy, "!!") {
        push_file(status, FileStatus::new(string_of(&rest), GitStatusKind::Ignored, GitStatusKind::Ignored));
        return;
    }
    if eq_str(&xy, "DD") || eq_str(&xy, "AU") || eq_str(&xy, "UD") || eq_str(&xy, "UA") || eq_str(&xy, "DU")
        || eq_str(&xy, "AA") || eq_str(&xy, "UU") {
        push_file(status, FileStatus::new(string_of(&rest), GitStatusKind::Conflicted, GitStatusKind::Conflicted));
        return;
    }
    let (x, y) = parse_xy(&xy);
    match split_once_str(&rest, " -> ") {
        Some((p, o)) => {
            push_file(status, FileStatus::with_orig_path(string_of(&p), string_of(&o), x, y));
        },
        None => {
            let p = trim_char_exec(&rest, '"');
            push_file(status, FileStatus::new(string_of(&p), x, y));
        },
    }
}

/// A line of at least 3 bytes has at least one character; the byte count of a
/// prefix is at least its character count.
proof fn lemma_byte_len_bound(s: Seq<char>)
    ensures
        byte_len(s) >= s.len(),
    decreases s.len(),
{
    if s.len() > 0 {
        lemma_byte_len_bound(s.drop_last());
    }
}

/// The byte count of a prefix grows with the prefix.
proof fn lemma_byte_len_take_mono(s: Seq<char>, k: int)
    requires
        0 <= k <= s.len(),
    ensures
        byte_len(s.take(k)) <= byte_len(s),
    decreases s.len() - k,
{
    if k < s.len() {
        lemma_byte_len_take_mono(s, k + 1);
        assert(s.take(k + 1).drop_last() == s.take(k));
    } else {
        assert(s.take(k) == s);
    }
}

/// Every line admits byte slicing at index 2.
pub open spec fn v1_input_ok(output: Seq<char>) -> bool {
    forall|i: int| 0 <= i < lines(output).len() ==> xy_boundary_ok(#[trigger] lines(output)[i])
}

fn xy_boundary_ok_exec(line: &Vec<char>) -> (r: bool)
    ensures
        r == xy_boundary_ok(line@),
{
    let whole = byte_len_prefix(line, line.len());
    assert(line@.take(line.len() as int) == line@);
    if whole < 3 {
        return true;
    }
    if line.len() >= 1 && byte_len_prefix(line, 1) == 2 {
        return true;
    }
    line.len() >= 2 && byte_len_prefix(line, 2) == 2
}

/// Whether every line of porcelain v1 output has a character boundary after
/// its first two bytes, which `parse_porcelain_v1` needs.
pub fn porcelain_v1_input_ok(output: &str) -> (r: bool)
    ensures
        r == v1_input_ok(output@),
{
    let cs = chars_of(output);
    let ls = lines_exec(&cs);
    let mut i: usize = 0;
    while i < ls.len()
        invariant
            i <= ls.len(),
            views(ls@) == lines(output@),
            forall|k: int| 0 <= k < i ==> xy_boundary_ok(#[trigger] lines(output@)[k]),
        decreases ls.len() - i,
    {
        assert(lines(output@)[i as int] == ls@[i as int]@);
        if !xy_boundary_ok_exec(&ls[i]) {
            return false;
        }
        i += 1;
    }
    true
}

/// Parses output from `git status --porcelain` (v1 format).
pub fn parse_porcelain_v1(output: &str) -> (r: Result<GitWorkingTreeStatus, GitStatusError>)
    requires
        v1_input_ok(output@),
    ensures
        r matches Ok(st) && st@ == v1_parse_lines(lines(output@)),
{
    let cs = chars_of(output);
    let ls = lines_exec(&cs);
    let mut status = GitWorkingTreeStatus::empty();
    let mut i: usize = 0;
    while i < ls.len()
        invariant
            i <= ls.len(),
            views(ls@) == lines(output@),
            v1_input_ok(output@),
            v1_parse_lines(views(ls@).take(i as int)) == status@,
        decreases ls.len() - i,
    {
        assert(views(ls@).take(i + 1).drop_last() == views(ls@).take(i as int));
        assert(views(ls@).take(i + 1).last() == ls@[i as int]@);
        assert(xy_boundary_ok(lines(output@)[i as int]));
        apply_v1_line(&mut status, &ls[i]);
        i += 1;
    }
    assert(views(ls@).take(ls.len() as int) == views(ls@));
    Ok(status)
}

} // verus!
