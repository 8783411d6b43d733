//! Repository detection: what `.git` files say about HEAD, branches,
//! upstreams and the operation in progress.
//!
//! Reading the files is the caller's part; these functions decide what the
//! contents mean.
use vstd::prelude::*;
use crate::text::{append_chars, append_str, chars_of, contains, contains_str, copy_chars, ends_with, ends_with_str, eq_chars, eq_str, lines, lines_exec, opt_view, slice_chars, split_once_char, split_once_char_exec, split_whitespace, split_whitespace_exec, string_from, string_of, strip_prefix, strip_prefix_str, trim, trim_char, trim_char_exec, trim_exec, views};
use crate::files_agent::graph::{parent_display, parent_of};
use crate::files_core::fuzzy_search::{chars_lt, lemma_seq_lt_total, lemma_seq_lt_trans, seq_lt};

verus! {

/// Current HEAD state of a repository.
#[derive(Debug, Clone, PartialEq, Eq)]
pub enum HeadState {
    /// Attached to a local branch.
    Branch(String),
    /// Detached, pointing directly at a commit.
    Detached(String),
    /// On a branch without commits yet.
    Unborn(String),
    /// HEAD cannot be resolved.
    Unknown,
}

/// Operational state of a repository.
#[derive(Debug, Clone, Copy, PartialEq, Eq, Structural)]
pub enum RepoState {
    Normal,
    Merging,
    Rebasing,
    CherryPicking,
    Reverting,
    Bisecting,
    Bare,
}

/// Whether a branch is local or remote tracking.
#[derive(Debug, Clone, Copy, PartialEq, Eq, Structural)]
pub enum BranchType {
    Local,
    Remote,
}

/// Details about a branch.
#[derive(Debug, Clone, PartialEq, Eq)]
pub struct BranchInfo {
    /// Display name (e.g., "main" or "origin/main").
    pub name: String,
    /// Full ref (e.g., "refs/heads/main").
    pub ref_name: String,
    /// Commit the branch points at, if known.
    pub commit_hash: Option<String>,
    /// Whether this branch is checked out.
    pub is_head: bool,
    /// Local or remote.
    pub branch_type: BranchType,
    /// Upstream tracking branch, if configured.
    pub upstream: Option<String>,
}

/// Metadata and state of a detected repository.
#[derive(Debug, Clone, PartialEq, Eq)]
pub struct GitRepoInfo {
    pub root_path: String,
    pub git_dir: String,
    pub head_state: HeadState,
    pub repo_state: RepoState,
    pub is_bare: bool,
    pub is_worktree: bool,
}

/// Repository detector.
#[derive(Debug, Clone)]
pub struct GitDetector;

impl GitDetector {
    pub fn new() -> (r: Self) {
        GitDetector
    }
}

impl Default for GitDetector {
    fn default() -> (r: Self) {
        GitDetector
    }
}

/// Branch and HEAD resolution from the contents of `.git`.
#[derive(Debug, Clone)]
pub struct BranchResolver;

// ------------------------------------------------------------------
// Small parsers
// ------------------------------------------------------------------

/// Whether a character is an ASCII hex digit.
pub open spec fn is_hex_char(c: char) -> bool {
    ('0' <= c && c <= '9') || ('a' <= c && c <= 'f') || ('A' <= c && c <= 'F')
}

/// A full SHA-1: forty hex digits.
pub open spec fn is_sha1(s: Seq<char>) -> bool {
    s.len() == 40 && forall|i: int| 0 <= i < s.len() ==> is_hex_char(#[trigger] s[i])
}

/// Whether text is a full SHA-1.
pub fn is_valid_sha1(s: &Vec<char>) -> (r: bool)
    ensures
        r == is_sha1(s@),
{
    if s.len() != 40 {
        return false;
    }
    let mut i: usize = 0;
    while i < s.len()
        invariant
            i <= s.len(),
            forall|k: int| 0 <= k < i ==> is_hex_char(#[trigger] s@[k]),
        decreases s.len() - i,
    {
        let c = s[i];
        if !(('0' <= c && c <= '9') || ('a' <= c && c <= 'f') || ('A' <= c && c <= 'F')) {
            return false;
        }
        i += 1;
    }
    true
}

/// The git directory a `.git` file points to (`gitdir: <path>`), from the
/// first line that names one.
pub open spec fn gitdir_of_lines(ls: Seq<Seq<char>>) -> Option<Seq<char>>
    decreases ls.len(),
{
    if ls.len() == 0 {
        None
    } else {
        match strip_prefix(trim(ls[0]), "gitdir:"@) {
            Some(rest) => Some(trim(rest)),
            None => gitdir_of_lines(ls.drop_first()),
        }
    }
}

/// Parses a `.git` pointer file.
pub fn parse_gitdir_file(content: &str) -> (r: Option<String>)
    ensures
        opt_view(r) == gitdir_of_lines(lines(content@)),
{
    let c = chars_of(content);
    let ls = lines_exec(&c);
    let ghost lv = views(ls@);
    let mut i: usize = 0;
    assert(lv.skip(0) =~= lv);
    while i < ls.len()
        invariant
            i <= ls.len(),
            lv == views(ls@),
            lv == lines(content@),
            gitdir_of_lines(lv) == gitdir_of_lines(lv.skip(i as int)),
        decreases ls.len() - i,
    {
        assert(lv.skip(i as int)[0] == ls@[i as int]@);
        assert(lv.skip(i as int).drop_first() =~= lv.skip(i + 1));
        let l = trim_exec(&ls[i]);
        if let Some(rest) = strip_prefix_str(&l, "gitdir:") {
            let t = trim_exec(&rest);
            let r = string_of(&t);
            assert(strip_prefix(trim(lv.skip(i as int)[0]), "gitdir:"@) == Some(rest@));
            assert(gitdir_of_lines(lv.skip(i as int)) == Some(trim(rest@)));
            return Some(r);
        }
        i += 1;
    }
    None
}

/// The sha and ref of a packed-refs line, if it lists one with a valid sha.
pub open spec fn packed_line(line: Seq<char>) -> Option<(Seq<char>, Seq<char>)> {
    let l = trim(line);
    if l.len() == 0 || l[0] == '#' || l[0] == '^' {
        None
    } else {
        let w = split_whitespace(l);
        if w.len() >= 2 && is_sha1(w[0]) {
            Some((w[1], w[0]))
        } else {
            None
        }
    }
}

/// The (ref, sha) pairs of packed-refs lines, in order.
pub open spec fn packed_entries(ls: Seq<Seq<char>>) -> Seq<(Seq<char>, Seq<char>)>
    decreases ls.len(),
{
    if ls.len() == 0 {
        seq![]
    } else {
        let prev = packed_entries(ls.drop_last());
        match packed_line(ls.last()) {
            Some(e) => prev.push(e),
            None => prev,
        }
    }
}

/// The sha of the first packed-refs line that lists `target`.
pub open spec fn packed_lookup(entries: Seq<(Seq<char>, Seq<char>)>, target: Seq<char>) -> Option<Seq<char>>
    decreases entries.len(),
{
    if entries.len() == 0 {
        None
    } else if entries[0].0 == target {
        Some(entries[0].1)
    } else {
        packed_lookup(entries.drop_first(), target)
    }
}

/// The value of the last pair with key `k`.
pub open spec fn last_value(pairs: Seq<(Seq<char>, Seq<char>)>, k: Seq<char>) -> Option<Seq<char>>
    decreases pairs.len(),
{
    if pairs.len() == 0 {
        None
    } else if pairs.last().0 == k {
        Some(pairs.last().1)
    } else {
        last_value(pairs.drop_last(), k)
    }
}

pub open spec fn pair_texts(v: Seq<(String, String)>) -> Seq<(Seq<char>, Seq<char>)> {
    v.map_values(|p: (String, String)| (p.0@, p.1@))
}

fn packed_line_exec(line: &Vec<char>) -> (r: Option<(Vec<char>, Vec<char>)>)
    ensures
        match (r, packed_line(line@)) {
            (Some(a), Some(b)) => (a.0@, a.1@) == b,
            (None, None) => true,
            _ => false,
        },
{
    let l = trim_exec(line);
    if l.len() == 0 || l[0] == '#' || l[0] == '^' {
        return None;
    }
    let w = split_whitespace_exec(&l);
    assert(views(w@).len() == w@.len());
    if w.len() >= 2 && is_valid_sha1(&w[0]) {
        Some((copy_chars(&w[1]), copy_chars(&w[0])))
    } else {
        None
    }
}

/// The (ref, sha) pairs listed in a packed-refs file, in file order; a ref
/// listed twice counts with its last sha.
pub fn parse_all_packed_refs(content: &str) -> (r: Vec<(String, String)>)
    ensures
        pair_texts(r@) == packed_entries(lines(content@)),
{
    let c = chars_of(content);
    let ls = lines_exec(&c);
    let ghost lv = views(ls@);
    let mut out: Vec<(String, String)> = Vec::new();
    let mut i: usize = 0;
    while i < ls.len()
        invariant
            i <= ls.len(),
            lv == views(ls@),
            lv == lines(content@),
            pair_texts(out@) == packed_entries(lv.take(i as int)),
        decreases ls.len() - i,
    {
        assert(lv.take(i + 1).drop_last() =~= lv.take(i as int));
        assert(lv.take(i + 1).last() == ls@[i as int]@);
        let ghost before = out@;
        if let Some((rf, sha)) = packed_line_exec(&ls[i]) {
            let p = (string_of(&rf), string_of(&sha));
            out.push(p);
            assert(pair_texts(out@) =~= pair_texts(before).push((p.0@, p.1@)));
        }
        i += 1;
    }
    assert(lv.take(ls.len() as int) =~= lv);
    out
}

/// The sha of `target_ref` in a packed-refs file (its first listing).
pub fn parse_packed_refs(content: &str, target_ref: &str) -> (r: Option<String>)
    ensures
        opt_view(r) == packed_lookup(packed_entries(lines(content@)), target_ref@),
{
    let all = parse_all_packed_refs(content);
    let ghost pv = pair_texts(all@);
    let t = chars_of(target_ref);
    let mut i: usize = 0;
    assert(pv.skip(0) =~= pv);
    while i < all.len()
        invariant
            i <= all.len(),
            pv == pair_texts(all@),
            pv == packed_entries(lines(content@)),
            t@ == target_ref@,
            packed_lookup(pv, target_ref@) == packed_lookup(pv.skip(i as int), target_ref@),
        decreases all.len() - i,
    {
        assert(pv.skip(i as int)[0] == (all@[i as int].0@, all@[i as int].1@));
        assert(pv.skip(i as int).drop_first() =~= pv.skip(i + 1));
        let k = chars_of(all[i].0.as_str());
        if eq_chars(&k, &t) {
            let r = string_from(all[i].1.as_str());
            assert(packed_lookup(pv.skip(i as int), target_ref@) == Some(all@[i as int].1@));
            return Some(r);
        }
        assert(pv.skip(i as int)[0].0 != target_ref@);
        i += 1;
    }
    None
}

/// The upstream of a branch: the merged branch, under its remote unless the
/// remote is `.`.
pub open spec fn upstream_name(remote: Seq<char>, merge: Seq<char>) -> Seq<char> {
    let branch = match strip_prefix(merge, "refs/heads/"@) {
        Some(b) => b,
        None => merge,
    };
    if remote == "."@ {
        branch
    } else {
        remote + "/"@ + branch
    }
}

/// Builds the upstream of a branch from its remote and merge ref.
pub fn build_upstream_string(remote: &str, merge: &str) -> (r: String)
    ensures
        r@ == upstream_name(remote@, merge@),
{
    let m = chars_of(merge);
    let branch = match strip_prefix_str(&m, "refs/heads/") {
        Some(b) => b,
        None => m,
    };
    let rv = chars_of(remote);
    if eq_str(&rv, ".") {
        string_of(&branch)
    } else {
        let mut s = string_from(remote);
        append_str(&mut s, "/");
        append_chars(&mut s, &branch);
        s
    }
}

/// What the config reader carries from line to line: the upstreams found,
/// the branch section being read, and its remote and merge values.
pub type ConfigScan = (Seq<(Seq<char>, Seq<char>)>, Option<Seq<char>>, Option<Seq<char>>, Option<Seq<char>>);

/// The upstreams with the current section's added, when it is complete.
pub open spec fn flush_section(s: ConfigScan) -> Seq<(Seq<char>, Seq<char>)> {
    match (s.1, s.2, s.3) {
        (Some(b), Some(r), Some(m)) => s.0.push((b, upstream_name(r, m))),
        _ => s.0,
    }
}

/// The config reader after the given lines.
pub open spec fn config_scan(ls: Seq<Seq<char>>) -> ConfigScan
    decreases ls.len(),
{
    if ls.len() == 0 {
        (seq![], None, None, None)
    } else {
        let s = config_scan(ls.drop_last());
        let l = trim(ls.last());
        if l.len() > 0 && l[0] == '[' && l.last() == ']' {
            let section = l.subrange(1, l.len() - 1);
            let branch = match strip_prefix(section, "branch "@) {
                Some(rest) => Some(trim_char(trim(rest), '"')),
                None => None,
            };
            (flush_section(s), branch, None, None)
        } else if s.1 is Some {
            match split_once_char(l, '=') {
                Some((k, v)) => {
                    let key = trim(k);
                    let val = trim_char(trim(v), '"');
                    if key == "remote"@ {
                        (s.0, s.1, Some(val), s.3)
                    } else if key == "merge"@ {
                        (s.0, s.1, s.2, Some(val))
                    } else {
                        s
                    }
                },
                None => s,
            }
        } else {
            s
        }
    }
}

/// The (branch, upstream) pairs a git config sets up; a branch listed twice
/// counts with its last upstream.
pub open spec fn config_upstreams(content: Seq<char>) -> Seq<(Seq<char>, Seq<char>)> {
    flush_section(config_scan(lines(content)))
}

fn flush_exec(
    out: &mut Vec<(String, String)>,
    branch: &Option<String>,
    remote: &Option<String>,
    merge: &Option<String>,
)
    ensures
        pair_texts(final(out)@) == flush_section(
            (pair_texts(old(out)@), opt_view(*branch), opt_view(*remote), opt_view(*merge)),
        ),
{
    match (branch, remote, merge) {
        (Some(b), Some(r), Some(m)) => {
            let ghost before = out@;
            let up = build_upstream_string(r.as_str(), m.as_str());
            let p = (b.clone(), up);
            out.push(p);
            assert(pair_texts(out@) =~= pair_texts(before).push((b@, upstream_name(r@, m@))));
        },
        _ => {},
    }
}

/// Parses the `[branch "x"]` sections of a git config into upstreams.
pub fn parse_git_config_upstreams(content: &str) -> (r: Vec<(String, String)>)
    ensures
        pair_texts(r@) == config_upstreams(content@),
{
    proof {
        reveal_strlit("branch ");
    }
    let c = chars_of(content);
    let ls = lines_exec(&c);
    let ghost lv = views(ls@);
    let mut out: Vec<(String, String)> = Vec::new();
    let mut branch: Option<String> = None;
    let mut remote: Option<String> = None;
    let mut merge: Option<String> = None;
    let mut i: usize = 0;
    while i < ls.len()
        invariant
            i <= ls.len(),
            lv == views(ls@),
            lv == lines(content@),
            config_scan(lv.take(i as int)) == (pair_texts(out@), opt_view(branch), opt_view(remote), opt_view(merge)),
        decreases ls.len() - i,
    {
        assert(lv.take(i + 1).drop_last() =~= lv.take(i as int));
        assert(lv.take(i + 1).last() == ls@[i as int]@);
        let l = trim_exec(&ls[i]);
        if l.len() > 0 && l[0] == '[' && l[l.len() - 1] == ']' {
            flush_exec(&mut out, &branch, &remote, &merge);
            let section = slice_chars(&l, 1, l.len() - 1);
            branch = match strip_prefix_str(&section, "branch ") {
                Some(rest) => Some(string_of(&trim_char_exec(&trim_exec(&rest), '"'))),
                None => None,
            };
            remote = None;
            merge = None;
        } else if branch.is_some() {
            if let Some((k, v)) = split_once_char_exec(&l, '=') {
                let key = trim_exec(&k);
                let val = trim_char_exec(&trim_exec(&v), '"');
                if eq_str(&key, "remote") {
                    remote = Some(string_of(&val));
                } else if eq_str(&key, "merge") {
                    merge = Some(string_of(&val));
                }
            }
        }
        i += 1;
    }
    assert(lv.take(ls.len() as int) =~= lv);
    flush_exec(&mut out, &branch, &remote, &merge);
    out
}

// ------------------------------------------------------------------
// HEAD
// ------------------------------------------------------------------

/// The ref a HEAD file points to (`ref: <path>`), if it is symbolic.
pub open spec fn head_ref(content: Seq<char>) -> Option<Seq<char>> {
    match strip_prefix(trim(content), "ref: "@) {
        Some(r) => Some(trim(r)),
        None => None,
    }
}

/// The HEAD state from the HEAD file and the commit its ref resolves to.
pub open spec fn head_state_of(content: Seq<char>, commit: Option<Seq<char>>) -> (nat, Seq<char>) {
    match head_ref(content) {
        Some(r) => match strip_prefix(r, "refs/heads/"@) {
            Some(b) => if commit is Some { (0, b) } else { (2, b) },
            None => match commit {
                Some(sha) => (1, sha),
                None => (3, seq![]),
            },
        },
        None => if is_sha1(trim(content)) { (1, trim(content)) } else { (3, seq![]) },
    }
}

/// A HEAD state as its variant number and text.
pub open spec fn head_view(h: HeadState) -> (nat, Seq<char>) {
    match h {
        HeadState::Branch(b) => (0, b@),
        HeadState::Detached(s) => (1, s@),
        HeadState::Unborn(b) => (2, b@),
        HeadState::Unknown => (3, seq![]),
    }
}

impl BranchResolver {
    /// The ref that a HEAD file points to, which the caller resolves.
    pub fn head_ref_path(content: &str) -> (r: Option<String>)
        ensures
            opt_view(r) == head_ref(content@),
    {
        let c = chars_of(content);
        let t = trim_exec(&c);
        match strip_prefix_str(&t, "ref: ") {
            Some(r) => Some(string_of(&trim_exec(&r))),
            None => None,
        }
    }

    /// The HEAD state from the HEAD file and what its ref resolved to.
    pub fn head_state_from(content: &str, commit: Option<String>) -> (r: HeadState)
        ensures
            head_view(r) == head_state_of(content@, opt_view(commit)),
    {
        let c = chars_of(content);
        let t = trim_exec(&c);
        match strip_prefix_str(&t, "ref: ") {
            Some(r) => {
                let rp = trim_exec(&r);
                match strip_prefix_str(&rp, "refs/heads/") {
                    Some(b) => {
                        if commit.is_some() {
                            HeadState::Branch(string_of(&b))
                        } else {
                            HeadState::Unborn(string_of(&b))
                        }
                    },
                    None => match commit {
                        Some(sha) => HeadState::Detached(sha),
                        None => HeadState::Unknown,
                    },
                }
            },
            None => {
                if is_valid_sha1(&t) {
                    HeadState::Detached(string_of(&t))
                } else {
                    HeadState::Unknown
                }
            },
        }
    }

    /// The operation in progress from which marker entries `.git` holds,
    /// checked in order: rebase, merge, cherry-pick, revert, bisect.
    pub fn repo_state_from_markers(
        rebase_merge: bool,
        rebase_apply: bool,
        merge_head: bool,
        cherry_pick_head: bool,
        revert_head: bool,
        bisect_log: bool,
    ) -> (r: RepoState)
        ensures
            r == if rebase_merge || rebase_apply {
                RepoState::Rebasing
            } else if merge_head {
                RepoState::Merging
            } else if cherry_pick_head {
                RepoState::CherryPicking
            } else if revert_head {
                RepoState::Reverting
            } else if bisect_log {
                RepoState::Bisecting
            } else {
                RepoState::Normal
            },
    {
        if rebase_merge || rebase_apply {
            RepoState::Rebasing
        } else if merge_head {
            RepoState::Merging
        } else if cherry_pick_head {
            RepoState::CherryPicking
        } else if revert_head {
            RepoState::Reverting
        } else if bisect_log {
            RepoState::Bisecting
        } else {
            RepoState::Normal
        }
    }
}

/// The commit a ref resolves to: the loose ref file's content when it is a
/// full sha, else the ref's first listing in packed-refs.
pub open spec fn resolved_ref(loose: Option<Seq<char>>, packed: Option<Seq<char>>, ref_name: Seq<char>) -> Option<Seq<char>> {
    match loose {
        Some(c) if is_sha1(trim(c)) => Some(trim(c)),
        _ => match packed {
            Some(p) => packed_lookup(packed_entries(lines(p)), ref_name),
            None => None,
        },
    }
}

impl BranchResolver {
    /// Resolves a ref from the content of its loose ref file and of
    /// packed-refs, each where it could be read.
    pub fn resolve_ref_from(loose: Option<&str>, packed: Option<&str>, ref_name: &str) -> (r: Option<String>)
        ensures
            opt_view(r) == resolved_ref(
                match loose { Some(c) => Some(c@), None => None },
                match packed { Some(p) => Some(p@), None => None },
                ref_name@,
            ),
    {
        if let Some(c) = loose {
            let t = trim_exec(&chars_of(c));
            if is_valid_sha1(&t) {
                return Some(string_of(&t));
            }
        }
        match packed {
            Some(p) => parse_packed_refs(p, ref_name),
            None => None,
        }
    }
}

/// Whether a directory with `HEAD`, `refs`, `objects` and `config` and this
/// config content is a bare repository.
pub fn is_bare_config(has_layout: bool, config: &str) -> (r: bool)
    ensures
        r == (has_layout && contains(config@, "bare = true"@)),
{
    has_layout && contains_str(&chars_of(config), "bare = true")
}

// ------------------------------------------------------------------
// Branch listing
// ------------------------------------------------------------------

/// A branch as plain values: name, ref, commit, head mark, type, upstream.
pub type BranchView = (Seq<char>, Seq<char>, Option<Seq<char>>, bool, BranchType, Option<Seq<char>>);

pub open spec fn branch_view(b: BranchInfo) -> BranchView {
    (b.name@, b.ref_name@, opt_view(b.commit_hash), b.is_head, b.branch_type, opt_view(b.upstream))
}

/// A loose ref file as plain values: ref, display name, resolved commit.
pub type RefView = (Seq<char>, Seq<char>, Option<Seq<char>>);

pub open spec fn ref_texts(v: Seq<(String, String, Option<String>)>) -> Seq<RefView> {
    v.map_values(|r: (String, String, Option<String>)| (r.0@, r.1@, opt_view(r.2)))
}

/// Whether HEAD is attached to the branch named `name`.
pub open spec fn head_is(head: HeadState, name: Seq<char>) -> bool {
    match head {
        HeadState::Branch(b) => b@ == name,
        _ => false,
    }
}

/// The local branches from loose refs.
pub open spec fn local_branches(refs: Seq<RefView>, head: HeadState, ups: Seq<(Seq<char>, Seq<char>)>) -> Seq<BranchView> {
    refs.map_values(|r: RefView| (r.1, r.0, r.2, head_is(head, r.1), BranchType::Local, last_value(ups, r.1)))
}

/// The remote branches from loose refs (remote `HEAD` aliases left out).
pub open spec fn remote_branches(refs: Seq<RefView>) -> Seq<BranchView>
    decreases refs.len(),
{
    if refs.len() == 0 {
        seq![]
    } else {
        let prev = remote_branches(refs.drop_last());
        let r = refs.last();
        if ends_with(r.1, "/HEAD"@) {
            prev
        } else {
            prev.push((r.1, r.0, r.2, false, BranchType::Remote, None))
        }
    }
}

/// The branches that packed refs add: those not already listed from loose
/// refs, each ref with its last sha.
pub open spec fn packed_branches(
    packed: Seq<(Seq<char>, Seq<char>)>,
    n: int,
    seen: Set<Seq<char>>,
    head: HeadState,
    ups: Seq<(Seq<char>, Seq<char>)>,
) -> Seq<BranchView>
    decreases n,
{
    if n <= 0 || n > packed.len() {
        seq![]
    } else {
        let prev = packed_branches(packed, n - 1, seen, head, ups);
        let (rf, sha) = packed[n - 1];
        let later = exists|j: int| n - 1 < j < packed.len() && (#[trigger] packed[j]).0 == rf;
        if seen.contains(rf) || later {
            prev
        } else {
            match strip_prefix(rf, "refs/heads/"@) {
                Some(d) => prev.push((d, rf, Some(sha), head_is(head, d), BranchType::Local, last_value(ups, d))),
                None => match strip_prefix(rf, "refs/remotes/"@) {
                    Some(d) => if ends_with(d, "/HEAD"@) {
                        prev
                    } else {
                        prev.push((d, rf, Some(sha), false, BranchType::Remote, None))
                    },
                    None => prev,
                },
            }
        }
    }
}

/// The refs listed from loose ref files.
pub open spec fn loose_refs(local: Seq<RefView>, remote: Seq<RefView>) -> Set<Seq<char>> {
    local.map_values(|r: RefView| r.0).to_set() + remote_branches(remote).map_values(
        |b: BranchView| b.1,
    ).to_set()
}

/// Inserts a branch before the first one with a greater ref.
pub open spec fn insert_by_ref(t: Seq<BranchView>, x: BranchView) -> Seq<BranchView>
    decreases t.len(),
{
    if t.len() == 0 {
        seq![x]
    } else if !seq_lt(t[0].1, x.1) {
        seq![x] + t
    } else {
        seq![t[0]] + insert_by_ref(t.drop_first(), x)
    }
}

/// The branches ordered by ref (stable).
pub open spec fn sort_by_ref(s: Seq<BranchView>) -> Seq<BranchView>
    decreases s.len(),
{
    if s.len() == 0 {
        s
    } else {
        insert_by_ref(sort_by_ref(s.drop_first()), s[0])
    }
}

/// All branches of a repository, ordered by ref.
pub open spec fn branch_listing(
    head: HeadState,
    ups: Seq<(Seq<char>, Seq<char>)>,
    packed: Seq<(Seq<char>, Seq<char>)>,
    local: Seq<RefView>,
    remote: Seq<RefView>,
) -> Seq<BranchView> {
    sort_by_ref(
        local_branches(local, head, ups) + remote_branches(remote) + packed_branches(
            packed,
            packed.len() as int,
            loose_refs(local, remote),
            head,
            ups,
        ),
    )
}

fn last_value_exec(pairs: &Vec<(String, String)>, k: &Vec<char>) -> (r: Option<String>)
    ensures
        opt_view(r) == last_value(pair_texts(pairs@), k@),
{
    let ghost pv = pair_texts(pairs@);
    let mut i: usize = pairs.len();
    assert(pv.take(i as int) =~= pv);
    while i > 0
        invariant
            i <= pairs.len(),
            pv == pair_texts(pairs@),
            last_value(pv, k@) == last_value(pv.take(i as int), k@),
        decreases i,
    {
        assert(pv.take(i as int).last() == (pairs@[i - 1].0@, pairs@[i - 1].1@));
        assert(pv.take(i as int).drop_last() =~= pv.take(i - 1));
        let key = chars_of(pairs[i - 1].0.as_str());
        if eq_chars(&key, k) {
            return Some(pairs[i - 1].1.clone());
        }
        i -= 1;
    }
    None
}

fn head_is_exec(head: &HeadState, name: &Vec<char>) -> (r: bool)
    ensures
        r == head_is(*head, name@),
{
    match head {
        HeadState::Branch(b) => eq_chars(&chars_of(b.as_str()), name),
        _ => false,
    }
}

fn clone_opt(o: &Option<String>) -> (r: Option<String>)
    ensures
        r == *o,
{
    match o {
        Some(s) => Some(s.clone()),
        None => None,
    }
}

/// Inserts a branch into a ref-ordered list.
fn insert_branch(list: &mut Vec<BranchInfo>, b: BranchInfo)
    ensures
        final(list)@.map_values(|x: BranchInfo| branch_view(x)) == insert_by_ref(
            old(list)@.map_values(|x: BranchInfo| branch_view(x)),
            branch_view(b),
        ),
{
    let ghost lv = list@.map_values(|x: BranchInfo| branch_view(x));
    let bref = chars_of(b.ref_name.as_str());
    let mut j: usize = 0;
    while j < list.len() && chars_lt(&chars_of(list[j].ref_name.as_str()), &bref)
        invariant
            j <= list.len(),
            lv == list@.map_values(|x: BranchInfo| branch_view(x)),
            bref@ == b.ref_name@,
            forall|k: int| 0 <= k < j ==> seq_lt(#[trigger] lv[k].1, bref@),
        decreases list.len() - j,
    {
        j += 1;
    }
    proof {
        lemma_insert_by_ref_at(lv, branch_view(b), j as int);
    }
    list.insert(j, b);
    assert(list@.map_values(|x: BranchInfo| branch_view(x)) =~= lv.take(j as int).push(branch_view(b)) + lv.skip(j as int));
}

proof fn lemma_insert_by_ref_at(t: Seq<BranchView>, x: BranchView, j: int)
    requires
        0 <= j <= t.len(),
        forall|k: int| 0 <= k < j ==> seq_lt(#[trigger] t[k].1, x.1),
        j < t.len() ==> !seq_lt(t[j].1, x.1),
    ensures
        insert_by_ref(t, x) == t.take(j).push(x) + t.skip(j),
    decreases j,
{
    if j == 0 {
        assert(t.take(0).push(x) + t.skip(0) =~= seq![x] + t);
        if t.len() == 0 {
            assert(seq![x] + t =~= seq![x]);
        }
    } else {
        let u = t.drop_first();
        assert forall|k: int| 0 <= k < j - 1 implies seq_lt(#[trigger] u[k].1, x.1) by {
            assert(u[k] == t[k + 1]);
        }
        lemma_insert_by_ref_at(u, x, j - 1);
        assert(t.take(j).push(x) + t.skip(j) =~= seq![t[0]] + (u.take(j - 1).push(x) + u.skip(j - 1)));
    }
}

proof fn lemma_sort_by_ref_append(s: Seq<BranchView>, x: BranchView)
    ensures
        sort_by_ref(seq![x] + s) == insert_by_ref(sort_by_ref(s), x),
{
    assert((seq![x] + s).drop_first() =~= s);
}

impl BranchResolver {
    /// Lists the branches of a repository from what its files hold: the HEAD
    /// state, the configured upstreams, the packed refs, and the loose local
    /// and remote ref files (ref, display name, resolved commit). The result
    /// is ordered by ref.
    pub fn list_branches_from(
        head: &HeadState,
        upstreams: &Vec<(String, String)>,
        packed: &Vec<(String, String)>,
        local: &Vec<(String, String, Option<String>)>,
        remote: &Vec<(String, String, Option<String>)>,
    ) -> (r: Vec<BranchInfo>)
        ensures
            r@.map_values(|x: BranchInfo| branch_view(x)) == branch_listing(
                *head,
                pair_texts(upstreams@),
                pair_texts(packed@),
                ref_texts(local@),
                ref_texts(remote@),
            ),
    {
        let ghost ups = pair_texts(upstreams@);
        let ghost pk = pair_texts(packed@);
        let ghost lo = ref_texts(local@);
        let ghost re = ref_texts(remote@);
        // Unsorted listing, built in order.
        let mut all: Vec<BranchInfo> = Vec::new();
        let mut i: usize = 0;
        while i < local.len()
            invariant
                i <= local.len(),
                ups == pair_texts(upstreams@),
                lo == ref_texts(local@),
                all@.map_values(|x: BranchInfo| branch_view(x)) == local_branches(lo.take(i as int), *head, ups),
            decreases local.len() - i,
        {
            let ghost before = all@;
            let name = chars_of(local[i].1.as_str());
            let b = BranchInfo {
                name: local[i].1.clone(),
                ref_name: local[i].0.clone(),
                commit_hash: clone_opt(&local[i].2),
                is_head: head_is_exec(head, &name),
                branch_type: BranchType::Local,
                upstream: last_value_exec(upstreams, &name),
            };
            all.push(b);
            assert(lo.take(i + 1) =~= lo.take(i as int).push(lo[i as int]));
            assert(all@.map_values(|x: BranchInfo| branch_view(x)) =~= before.map_values(|x: BranchInfo| branch_view(x)).push(branch_view(b)));
            i += 1;
        }
        assert(lo.take(local.len() as int) =~= lo);
        let ghost part1 = all@.map_values(|x: BranchInfo| branch_view(x));
        let mut i: usize = 0;
        while i < remote.len()
            invariant
                i <= remote.len(),
                re == ref_texts(remote@),
                all@.map_values(|x: BranchInfo| branch_view(x)) == part1 + remote_branches(re.take(i as int)),
            decreases remote.len() - i,
        {
            let ghost before = all@;
            assert(re.take(i + 1).drop_last() =~= re.take(i as int));
            assert(re.take(i + 1).last() == re[i as int]);
            let name = chars_of(remote[i].1.as_str());
            if !ends_with_str(&name, "/HEAD") {
                let b = BranchInfo {
                    name: remote[i].1.clone(),
                    ref_name: remote[i].0.clone(),
                    commit_hash: clone_opt(&remote[i].2),
                    is_head: false,
                    branch_type: BranchType::Remote,
                    upstream: None,
                };
                all.push(b);
                assert(all@.map_values(|x: BranchInfo| branch_view(x)) =~= before.map_values(|x: BranchInfo| branch_view(x)).push(branch_view(b)));
            }
            i += 1;
        }
        assert(re.take(remote.len() as int) =~= re);
        let ghost part2 = all@.map_values(|x: BranchInfo| branch_view(x));
        let ghost seen = loose_refs(lo, re);
        let mut k: usize = 0;
        while k < packed.len()
            invariant
                k <= packed.len(),
                pk == pair_texts(packed@),
                ups == pair_texts(upstreams@),
                lo == ref_texts(local@),
                re == ref_texts(remote@),
                seen == loose_refs(lo, re),
                part2 == local_branches(lo, *head, ups) + remote_branches(re),
                all@.map_values(|x: BranchInfo| branch_view(x)) == part2 + packed_branches(pk, k as int, seen, *head, ups),
            decreases packed.len() - k,
        {
            let ghost before = all@;
            let rf = chars_of(packed[k].0.as_str());
            assert(pk[k as int] == (packed@[k as int].0@, packed@[k as int].1@));
            // Is the ref listed later in the packed refs?
            let mut later = false;
            let mut j: usize = k + 1;
            while j < packed.len()
                invariant
                    k < j <= packed.len(),
                    pk == pair_texts(packed@),
                    rf@ == pk[k as int].0,
                    later == exists|m: int| k < m < j && (#[trigger] pk[m]).0 == pk[k as int].0,
                decreases packed.len() - j,
            {
                let other = chars_of(packed[j].0.as_str());
                assert(pk[j as int] == (packed@[j as int].0@, packed@[j as int].1@));
                if eq_chars(&other, &rf) {
                    later = true;
                }
                j += 1;
            }
            // Was it listed from loose refs?
            let mut in_loose = false;
            let mut a: usize = 0;
            while a < local.len()
                invariant
                    a <= local.len(),
                    lo == ref_texts(local@),
                    in_loose == exists|m: int| 0 <= m < a && (#[trigger] lo[m]).0 == rf@,
                decreases local.len() - a,
            {
                assert(lo[a as int] == (local@[a as int].0@, local@[a as int].1@, opt_view(local@[a as int].2)));
                if eq_chars(&chars_of(local[a].0.as_str()), &rf) {
                    in_loose = true;
                }
                assert(in_loose == exists|m: int| 0 <= m < a + 1 && (#[trigger] lo[m]).0 == rf@) by {
                    if lo[a as int].0 == rf@ {
                        assert(lo[a as int].0 == rf@);
                    }
                }
                a += 1;
            }
            assert(lo.len() == local.len());
            let mut b2: usize = 0;
            while b2 < remote.len()
                invariant
                    b2 <= remote.len(),
                    re == ref_texts(remote@),
                    lo == ref_texts(local@),
                    in_loose ==> (exists|m: int| 0 <= m < lo.len() && (#[trigger] lo[m]).0 == rf@) || (
                    exists|m: int| 0 <= m < b2 && (#[trigger] re[m]).0 == rf@ && !ends_with(re[m].1, "/HEAD"@)),
                    !in_loose ==> !(exists|m: int| 0 <= m < lo.len() && (#[trigger] lo[m]).0 == rf@) && !(
                    exists|m: int| 0 <= m < b2 && (#[trigger] re[m]).0 == rf@ && !ends_with(re[m].1, "/HEAD"@)),
                decreases remote.len() - b2,
            {
                assert(re[b2 as int] == (remote@[b2 as int].0@, remote@[b2 as int].1@, opt_view(remote@[b2 as int].2)));
                let ghost was = in_loose;
                if eq_chars(&chars_of(remote[b2].0.as_str()), &rf) && !ends_with_str(&chars_of(remote[b2].1.as_str()), "/HEAD") {
                    in_loose = true;
                    assert(re[b2 as int].0 == rf@ && !ends_with(re[b2 as int].1, "/HEAD"@));
                }
                b2 += 1;
            }
            proof {
                lemma_loose_refs_contains(lo, re, rf@);
            }
            if !in_loose && !later {
                match strip_prefix_str(&rf, "refs/heads/") {
                    Some(d) => {
                        let b = BranchInfo {
                            name: string_of(&d),
                            ref_name: packed[k].0.clone(),
                            commit_hash: Some(packed[k].1.clone()),
                            is_head: head_is_exec(head, &d),
                            branch_type: BranchType::Local,
                            upstream: last_value_exec(upstreams, &d),
                        };
                        all.push(b);
                        assert(all@.map_values(|x: BranchInfo| branch_view(x)) =~= before.map_values(|x: BranchInfo| branch_view(x)).push(branch_view(b)));
                    },
                    None => match strip_prefix_str(&rf, "refs/remotes/") {
                        Some(d) => {
                            if !ends_with_str(&d, "/HEAD") {
                                let b = BranchInfo {
                                    name: string_of(&d),
                                    ref_name: packed[k].0.clone(),
                                    commit_hash: Some(packed[k].1.clone()),
                                    is_head: false,
                                    branch_type: BranchType::Remote,
                                    upstream: None,
                                };
                                all.push(b);
                                assert(all@.map_values(|x: BranchInfo| branch_view(x)) =~= before.map_values(|x: BranchInfo| branch_view(x)).push(branch_view(b)));
                            }
                        },
                        None => {},
                    },
                }
            }
            k += 1;
        }
        // Order by ref.
        let ghost unsorted = all@.map_values(|x: BranchInfo| branch_view(x));
        assert(unsorted == branch_listing_unsorted(*head, ups, pk, lo, re));
        let mut sorted: Vec<BranchInfo> = Vec::new();
        while all.len() > 0
            invariant
                all@.map_values(|x: BranchInfo| branch_view(x)) == unsorted.take(all@.len() as int),
                all@.len() <= unsorted.len(),
                sorted@.map_values(|x: BranchInfo| branch_view(x)) == sort_by_ref(unsorted.skip(all@.len() as int)),
            decreases all.len(),
        {
            let n = all.len();
            let ghost before = all@;
            let x = all.pop().unwrap();
            assert(branch_view(x) == unsorted[n - 1]) by {
                assert(before.map_values(|x: BranchInfo| branch_view(x))[n - 1] == branch_view(before[n - 1]));
            }
            assert(all@.map_values(|x: BranchInfo| branch_view(x)) =~= unsorted.take(n - 1));
            assert(unsorted.skip(n - 1) =~= seq![unsorted[n - 1]] + unsorted.skip(n as int));
            proof {
                lemma_sort_by_ref_append(unsorted.skip(n as int), unsorted[n - 1]);
            }
            insert_branch(&mut sorted, x);
        }
        assert(unsorted.skip(0) =~= unsorted);
        sorted
    }
}

/// The listing before ordering.
pub open spec fn branch_listing_unsorted(
    head: HeadState,
    ups: Seq<(Seq<char>, Seq<char>)>,
    packed: Seq<(Seq<char>, Seq<char>)>,
    local: Seq<RefView>,
    remote: Seq<RefView>,
) -> Seq<BranchView> {
    local_branches(local, head, ups) + remote_branches(remote) + packed_branches(
        packed,
        packed.len() as int,
        loose_refs(local, remote),
        head,
        ups,
    )
}

proof fn lemma_remote_branches_refs(re: Seq<RefView>, rf: Seq<char>)
    ensures
        remote_branches(re).map_values(|b: BranchView| b.1).contains(rf) <==> exists|m: int|
            0 <= m < re.len() && (#[trigger] re[m]).0 == rf && !ends_with(re[m].1, "/HEAD"@),
    decreases re.len(),
{
    if re.len() > 0 {
        let u = re.drop_last();
        lemma_remote_branches_refs(u, rf);
        let prev = remote_branches(u);
        let pm = prev.map_values(|b: BranchView| b.1);
        let cm = remote_branches(re).map_values(|b: BranchView| b.1);
        let r = re.last();
        let in_u = exists|m: int| 0 <= m < u.len() && (#[trigger] u[m]).0 == rf && !ends_with(u[m].1, "/HEAD"@);
        let in_re = exists|m: int| 0 <= m < re.len() && (#[trigger] re[m]).0 == rf && !ends_with(re[m].1, "/HEAD"@);
        if in_u {
            let m = choose|m: int| 0 <= m < u.len() && (#[trigger] u[m]).0 == rf && !ends_with(u[m].1, "/HEAD"@);
            assert(re[m] == u[m]);
            assert(in_re);
        }
        if in_re {
            let m = choose|m: int| 0 <= m < re.len() && (#[trigger] re[m]).0 == rf && !ends_with(re[m].1, "/HEAD"@);
            if m < re.len() - 1 {
                assert(u[m] == re[m]);
                assert(in_u);
            } else {
                assert(re[m] == r);
            }
        }
        if ends_with(r.1, "/HEAD"@) {
            assert(remote_branches(re) == prev);
            assert(in_re == in_u);
        } else {
            assert(cm =~= pm.push(r.0));
            if cm.contains(rf) {
                let i = choose|i: int| 0 <= i < cm.len() && cm[i] == rf;
                if i < pm.len() {
                    assert(pm[i] == rf);
                    assert(pm.contains(rf));
                } else {
                    assert(r.0 == rf);
                    assert(re[re.len() - 1] == r);
                    assert(in_re);
                }
            }
            if in_re {
                if in_u {
                    let i = choose|i: int| 0 <= i < pm.len() && pm[i] == rf;
                    assert(cm[i] == rf);
                } else {
                    assert(cm[cm.len() - 1] == rf);
                }
                assert(cm.contains(rf));
            }
        }
    }
}

proof fn lemma_loose_refs_contains(lo: Seq<RefView>, re: Seq<RefView>, rf: Seq<char>)
    ensures
        loose_refs(lo, re).contains(rf) <==> (exists|m: int| 0 <= m < lo.len() && (#[trigger] lo[m]).0 == rf) || (
        exists|m: int| 0 <= m < re.len() && (#[trigger] re[m]).0 == rf && !ends_with(re[m].1, "/HEAD"@)),
{
    lemma_remote_branches_refs(re, rf);
    let lm = lo.map_values(|r: RefView| r.0);
    if exists|m: int| 0 <= m < lo.len() && (#[trigger] lo[m]).0 == rf {
        let m = choose|m: int| 0 <= m < lo.len() && (#[trigger] lo[m]).0 == rf;
        assert(lm[m] == rf);
        assert(lm.contains(rf));
    }
    if lm.contains(rf) {
        let m = choose|m: int| 0 <= m < lm.len() && lm[m] == rf;
        assert(lo[m].0 == rf);
    }
}

/// Branches ordered by ref: no ref is below an earlier one.
pub open spec fn ordered_by_ref(s: Seq<BranchView>) -> bool {
    forall|i: int, j: int| 0 <= i < j < s.len() ==> !seq_lt(#[trigger] s[j].1, #[trigger] s[i].1)
}

proof fn lemma_not_below_trans(a: Seq<char>, b: Seq<char>, c: Seq<char>)
    requires
        !seq_lt(b, a),
        !seq_lt(c, b),
    ensures
        !seq_lt(c, a),
{
    lemma_seq_lt_total(a, b);
    if seq_lt(c, a) {
        if a == b {
        } else {
            assert(seq_lt(a, b));
            lemma_seq_lt_trans(c, a, b);
        }
    }
}

proof fn lemma_insert_by_ref_ordered(t: Seq<BranchView>, x: BranchView)
    requires
        ordered_by_ref(t),
    ensures
        ordered_by_ref(insert_by_ref(t, x)),
        insert_by_ref(t, x).len() == t.len() + 1,
        forall|i: int|
            0 <= i < insert_by_ref(t, x).len() ==> #[trigger] insert_by_ref(t, x)[i] == x || exists|m: int|
                0 <= m < t.len() && insert_by_ref(t, x)[i] == #[trigger] t[m],
    decreases t.len(),
{
    let r = insert_by_ref(t, x);
    if t.len() == 0 {
    } else if !seq_lt(t[0].1, x.1) {
        assert forall|i: int, j: int| 0 <= i < j < r.len() implies !seq_lt(#[trigger] r[j].1, #[trigger] r[i].1) by {
            if i == 0 {
                assert(r[j] == t[j - 1]);
                if j - 1 > 0 {
                    assert(!seq_lt(t[j - 1].1, t[0].1));
                } else {
                    lemma_seq_lt_total(t[0].1, t[0].1);
                }
                lemma_not_below_trans(x.1, t[0].1, t[j - 1].1);
            } else {
                assert(r[i] == t[i - 1] && r[j] == t[j - 1]);
            }
        }
        assert forall|i: int| 0 <= i < r.len() implies #[trigger] r[i] == x || exists|m: int|
            0 <= m < t.len() && r[i] == #[trigger] t[m] by {
            if i > 0 {
                assert(r[i] == t[i - 1]);
            }
        }
    } else {
        let u = t.drop_first();
        assert(ordered_by_ref(u)) by {
            assert forall|i: int, j: int| 0 <= i < j < u.len() implies !seq_lt(#[trigger] u[j].1, #[trigger] u[i].1) by {
                assert(u[i] == t[i + 1] && u[j] == t[j + 1]);
            }
        }
        lemma_insert_by_ref_ordered(u, x);
        let w = insert_by_ref(u, x);
        assert(r == seq![t[0]] + w);
        assert forall|i: int, j: int| 0 <= i < j < r.len() implies !seq_lt(#[trigger] r[j].1, #[trigger] r[i].1) by {
            if i == 0 {
                assert(r[j] == w[j - 1]);
                if w[j - 1] == x {
                    lemma_seq_lt_total(t[0].1, x.1);
                } else {
                    let m = choose|m: int| 0 <= m < u.len() && w[j - 1] == #[trigger] u[m];
                    assert(u[m] == t[m + 1]);
                }
            } else {
                assert(r[i] == w[i - 1] && r[j] == w[j - 1]);
            }
        }
        assert forall|i: int| 0 <= i < r.len() implies #[trigger] r[i] == x || exists|m: int|
            0 <= m < t.len() && r[i] == #[trigger] t[m] by {
            if i == 0 {
                assert(r[0] == t[0]);
            } else {
                assert(r[i] == w[i - 1]);
                if w[i - 1] != x {
                    let m = choose|m: int| 0 <= m < u.len() && w[i - 1] == #[trigger] u[m];
                    assert(u[m] == t[m + 1]);
                }
            }
        }
    }
}

proof fn lemma_sort_by_ref_ordered(s: Seq<BranchView>)
    ensures
        ordered_by_ref(sort_by_ref(s)),
        sort_by_ref(s).len() == s.len(),
    decreases s.len(),
{
    if s.len() > 0 {
        lemma_sort_by_ref_ordered(s.drop_first());
        lemma_insert_by_ref_ordered(sort_by_ref(s.drop_first()), s[0]);
    }
}

/// The branch listing is ordered by ref, whatever the repository holds.
pub proof fn law_branch_listing_ordered(
    head: HeadState,
    ups: Seq<(Seq<char>, Seq<char>)>,
    packed: Seq<(Seq<char>, Seq<char>)>,
    local: Seq<RefView>,
    remote: Seq<RefView>,
)
    ensures
        ordered_by_ref(branch_listing(head, ups, packed, local, remote)),
{
    lemma_sort_by_ref_ordered(branch_listing_unsorted(head, ups, packed, local, remote));
}

/// One step of the walk up to a repository root.
#[derive(Debug, Clone, PartialEq, Eq)]
pub enum RootSearch {
    /// The directory is a root: with a `.git` entry, or itself a bare repository.
    Found { root: String, bare: bool },
    /// Look at this parent directory next.
    Continue(String),
    /// The walk reached the top without finding a root.
    NotFound,
}

/// Decides the walk from the absolute directory `dir`, given whether it has
/// a `.git` entry and whether it is a bare repository: a `.git` entry wins,
/// then a bare repository, else the walk goes on to the parent (`Path::parent`),
/// and stops at the top.
pub fn repo_root_step(dir: &str, has_dot_git: bool, is_bare_dir: bool) -> (r: RootSearch)
    ensures
        has_dot_git ==> r == (RootSearch::Found { root: r->root, bare: false }) && r->root@ == dir@,
        !has_dot_git && is_bare_dir ==> r == (RootSearch::Found { root: r->root, bare: true }) && r->root@ == dir@,
        !has_dot_git && !is_bare_dir && parent_display(dir@).len() > 0 ==> r is Continue && r->Continue_0@
            == parent_display(dir@),
        !has_dot_git && !is_bare_dir && parent_display(dir@).len() == 0 ==> r is NotFound,
{
    if has_dot_git {
        return RootSearch::Found { root: string_from(dir), bare: false };
    }
    if is_bare_dir {
        return RootSearch::Found { root: string_from(dir), bare: true };
    }
    let parent = parent_of(dir);
    if parent.as_str().is_empty() {
        RootSearch::NotFound
    } else {
        RootSearch::Continue(parent)
    }
}

} // verus!
