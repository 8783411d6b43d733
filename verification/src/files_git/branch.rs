//! Branches: name rules, the branch listing, the arguments of branch commands
//! and how their failures are read.
use vstd::prelude::*;
use crate::text::{append_str, chars_of, contains, contains_str, decimal, decimal_string, ends_with, ends_with_str, eq_chars, eq_str, is_control_char, is_whitespace, is_ws, lines, lines_exec, lowercase_chars, opt_view, or_zero, parse_usize, parse_usize_exec, split, split_exec, string_from, string_of, strip_prefix, strip_prefix_str, trim, trim_char, trim_char_exec, trim_exec, unicode_lowercase, views};

verus! {

/// Information about a Git branch (local or remote).
#[derive(Debug, Clone, PartialEq, Eq)]
pub struct BranchInfo {
    pub name: String,
    pub is_head: bool,
    pub is_remote: bool,
    pub commit_hash: Option<String>,
    pub upstream: Option<String>,
    pub ahead: usize,
    pub behind: usize,
}

/// A branch as plain values.
pub type BranchView = (Seq<char>, bool, bool, Option<Seq<char>>, Option<Seq<char>>, usize, usize);

pub open spec fn branch_view(b: BranchInfo) -> BranchView {
    (b.name@, b.is_head, b.is_remote, opt_view(b.commit_hash), opt_view(b.upstream), b.ahead, b.behind)
}

/// Options for checking out / switching branches.
#[derive(Debug, Clone, PartialEq, Eq)]
pub struct CheckoutOptions {
    pub branch_name: String,
    pub force: bool,
    pub create_if_missing: bool,
    pub start_point: Option<String>,
    pub detach: bool,
}

impl CheckoutOptions {
    pub fn new(branch_name: &str) -> (r: Self)
        ensures
            r.branch_name@ == branch_name@,
            !r.force,
            !r.create_if_missing,
            r.start_point is None,
            !r.detach,
    {
        CheckoutOptions {
            branch_name: string_from(branch_name),
            force: false,
            create_if_missing: false,
            start_point: None,
            detach: false,
        }
    }

    pub fn force(self, force: bool) -> (r: Self)
        ensures
            r == (CheckoutOptions { force, ..self }),
    {
        let mut s = self;
        s.force = force;
        s
    }

    pub fn create_if_missing(self, create: bool) -> (r: Self)
        ensures
            r == (CheckoutOptions { create_if_missing: create, ..self }),
    {
        let mut s = self;
        s.create_if_missing = create;
        s
    }

    pub fn start_point(self, point: &str) -> (r: Self)
        ensures
            r.start_point matches Some(p) && p@ == point@,
            r.branch_name == self.branch_name,
            r.force == self.force,
            r.create_if_missing == self.create_if_missing,
            r.detach == self.detach,
    {
        let mut s = self;
        s.start_point = Some(string_from(point));
        s
    }

    pub fn detach(self, detach: bool) -> (r: Self)
        ensures
            r == (CheckoutOptions { detach, ..self }),
    {
        let mut s = self;
        s.detach = detach;
        s
    }
}

/// Options for creating a branch.
#[derive(Debug, Clone, PartialEq, Eq)]
pub struct BranchCreateOptions {
    pub name: String,
    pub start_point: Option<String>,
    pub force: bool,
    pub track: bool,
}

impl BranchCreateOptions {
    pub fn new(name: &str) -> (r: Self)
        ensures
            r.name@ == name@,
            r.start_point is None,
            !r.force,
            !r.track,
    {
        BranchCreateOptions { name: string_from(name), start_point: None, force: false, track: false }
    }

    pub fn start_point(self, point: &str) -> (r: Self)
        ensures
            r.start_point matches Some(p) && p@ == point@,
            r.name == self.name,
            r.force == self.force,
            r.track == self.track,
    {
        let mut s = self;
        s.start_point = Some(string_from(point));
        s
    }

    pub fn force(self, force: bool) -> (r: Self)
        ensures
            r == (BranchCreateOptions { force, ..self }),
    {
        let mut s = self;
        s.force = force;
        s
    }

    pub fn track(self, track: bool) -> (r: Self)
        ensures
            r == (BranchCreateOptions { track, ..self }),
    {
        let mut s = self;
        s.track = track;
        s
    }
}

/// Errors of branch operations.
#[derive(Debug, Clone, PartialEq, Eq)]
pub enum GitBranchError {
    BranchNotFound(String),
    BranchAlreadyExists(String),
    CannotDeleteCurrentBranch(String),
    CheckoutFailed(String),
    DeleteFailed(String),
    HasUncommittedChanges(String),
    InvalidBranchName(String),
    NotAGitRepository(String),
    GitCommandFailed { code: Option<i32>, stderr: String },
    Io(String),
}

/// `{:?}` of an optional exit code.
pub open spec fn code_text(code: Option<i32>) -> Seq<char> {
    match code {
        Some(c) => "Some("@ + (if c < 0 { "-"@ + decimal((-c) as nat) } else { decimal(c as nat) }) + ")"@,
        None => "None"@,
    }
}

/// The message of a branch error.
pub open spec fn branch_error_message(e: GitBranchError) -> Seq<char> {
    match e {
        GitBranchError::BranchNotFound(n) => "Branch not found: '"@ + n@ + "'"@,
        GitBranchError::BranchAlreadyExists(n) => "Branch already exists: '"@ + n@ + "'"@,
        GitBranchError::CannotDeleteCurrentBranch(n) => "Cannot delete active branch: '"@ + n@ + "'"@,
        GitBranchError::CheckoutFailed(m) => "Checkout failed: "@ + m@,
        GitBranchError::DeleteFailed(m) => "Delete branch failed: "@ + m@,
        GitBranchError::HasUncommittedChanges(m) => "Uncommitted changes: "@ + m@,
        GitBranchError::InvalidBranchName(m) => "Invalid branch name: "@ + m@,
        GitBranchError::NotAGitRepository(p) => "Not a git repo: "@ + p@,
        GitBranchError::GitCommandFailed { code, stderr } => "Git failed ("@ + code_text(code) + "): "@
            + stderr@,
        GitBranchError::Io(m) => "I/O error: "@ + m@,
    }
}

/// `{:?}` of an optional exit code.
pub fn code_text_exec(code: Option<i32>) -> (r: String)
    ensures
        r@ == code_text(code),
{
    match code {
        Some(c) => {
            let mut s = string_from("Some(");
            if c < 0 {
                append_str(&mut s, "-");
                let m: i64 = -(c as i64);
                append_str(&mut s, decimal_string(m as u64).as_str());
            } else {
                append_str(&mut s, decimal_string(c as u64).as_str());
            }
            append_str(&mut s, ")");
            s
        },
        None => string_from("None"),
    }
}

fn quoted(prefix: &str, n: &String) -> (r: String)
    ensures
        r@ == prefix@ + n@ + "'"@,
{
    let mut s = string_from(prefix);
    append_str(&mut s, n.as_str());
    append_str(&mut s, "'");
    s
}

fn prefixed(prefix: &str, m: &String) -> (r: String)
    ensures
        r@ == prefix@ + m@,
{
    let mut s = string_from(prefix);
    append_str(&mut s, m.as_str());
    s
}

impl GitBranchError {
    /// The message shown for the error.
    pub fn to_string(&self) -> (r: String)
        ensures
            r@ == branch_error_message(*self),
    {
        match self {
            GitBranchError::BranchNotFound(n) => quoted("Branch not found: '", n),
            GitBranchError::BranchAlreadyExists(n) => quoted("Branch already exists: '", n),
            GitBranchError::CannotDeleteCurrentBranch(n) => quoted("Cannot delete active branch: '", n),
            GitBranchError::CheckoutFailed(m) => prefixed("Checkout failed: ", m),
            GitBranchError::DeleteFailed(m) => prefixed("Delete branch failed: ", m),
            GitBranchError::HasUncommittedChanges(m) => prefixed("Uncommitted changes: ", m),
            GitBranchError::InvalidBranchName(m) => prefixed("Invalid branch name: ", m),
            GitBranchError::NotAGitRepository(p) => prefixed("Not a git repo: ", p),
            GitBranchError::GitCommandFailed { code, stderr } => {
                let mut s = string_from("Git failed (");
                append_str(&mut s, code_text_exec(*code).as_str());
                append_str(&mut s, "): ");
                append_str(&mut s, stderr.as_str());
                s
            },
            GitBranchError::Io(m) => prefixed("I/O error: ", m),
        }
    }
}

/// Whether a character is banned anywhere in a branch name.
pub open spec fn banned_char(c: char) -> bool {
    c == '~' || c == '^' || c == ':' || c == '?' || c == '*' || c == '[' || c == '\\' || is_ws(c)
        || is_control_char(c)
}

/// Why a branch name is refused, if it is.
pub open spec fn branch_name_problem(name: Seq<char>) -> Option<Seq<char>> {
    let t = trim(name);
    if t.len() == 0 {
        Some("Empty branch name"@)
    } else if t[0] == '-' || t.last() == '/' || ends_with(t, ".lock"@) {
        Some("Invalid format: '"@ + name + "'"@)
    } else if contains(t, ".."@) || contains(t, "@{"@) || (exists|i: int|
        0 <= i < t.len() && banned_char(#[trigger] t[i])) {
        Some("Invalid character: '"@ + name + "'"@)
    } else {
        None
    }
}

/// Async Git branch and checkout manager.
#[derive(Debug, Clone)]
pub struct GitBranchManager;

impl Default for GitBranchManager {
    fn default() -> (r: Self) {
        GitBranchManager
    }
}

fn has_banned_char(t: &Vec<char>) -> (r: bool)
    ensures
        r == exists|i: int| 0 <= i < t@.len() && banned_char(#[trigger] t@[i]),
{
    let mut i: usize = 0;
    while i < t.len()
        invariant
            i <= t.len(),
            forall|k: int| 0 <= k < i ==> !banned_char(#[trigger] t@[k]),
        decreases t.len() - i,
    {
        let c = t[i];
        let control = (c as u32) < 0x20 || (0x7F <= (c as u32) && (c as u32) <= 0x9F);
        if c == '~' || c == '^' || c == ':' || c == '?' || c == '*' || c == '[' || c == '\\'
            || is_whitespace(c) || control {
            return true;
        }
        i += 1;
    }
    false
}

impl GitBranchManager {
    pub fn new() -> (r: Self) {
        GitBranchManager
    }

    /// Validates a branch name against the ref name rules.
    pub fn validate_branch_name(&self, name: &str) -> (r: Result<(), GitBranchError>)
        ensures
            match (r, branch_name_problem(name@)) {
                (Ok(()), None) => true,
                (Err(GitBranchError::InvalidBranchName(m)), Some(p)) => m@ == p,
                _ => false,
            },
    {
        let n = chars_of(name);
        let t = trim_exec(&n);
        if t.len() == 0 {
            return Err(GitBranchError::InvalidBranchName(string_from("Empty branch name")));
        }
        if t[0] == '-' || t[t.len() - 1] == '/' || ends_with_str(&t, ".lock") {
            return Err(GitBranchError::InvalidBranchName(quoted("Invalid format: '", &string_from(name))));
        }
        if contains_str(&t, "..") || contains_str(&t, "@{") || has_banned_char(&t) {
            return Err(GitBranchError::InvalidBranchName(quoted("Invalid character: '", &string_from(name))));
        }
        Ok(())
    }
}

// ------------------------------------------------------------------
// The branch listing (`git for-each-ref`)
// ------------------------------------------------------------------

/// The ahead/behind counts of an upstream track text such as `[ahead 3, behind 2]`.
pub open spec fn track_counts(parts: Seq<Seq<char>>) -> (usize, usize)
    decreases parts.len(),
{
    if parts.len() == 0 {
        (0, 0)
    } else {
        let (a, b) = track_counts(parts.drop_last());
        let p = trim(parts.last());
        match strip_prefix(p, "ahead "@) {
            Some(r) => (or_zero(parse_usize(r)), b),
            None => match strip_prefix(p, "behind "@) {
                Some(r) => (a, or_zero(parse_usize(r))),
                None => (a, b),
            },
        }
    }
}

/// The ahead/behind counts of an upstream track text.
pub open spec fn upstream_track(track: Seq<char>) -> (usize, usize) {
    track_counts(split(trim_char(trim_char(trim(track), '['), ']'), ','))
}

/// Parses an upstream track text such as `[ahead 3, behind 2]`.
pub fn parse_upstream_track(track: &str) -> (r: (usize, usize))
    ensures
        r == upstream_track(track@),
{
    let t = chars_of(track);
    let a = trim_exec(&t);
    let b = trim_char_exec(&a, '[');
    let c = trim_char_exec(&b, ']');
    let parts = split_exec(&c, ',');
    let ghost pv = views(parts@);
    let mut ahead: usize = 0;
    let mut behind: usize = 0;
    let mut i: usize = 0;
    while i < parts.len()
        invariant
            i <= parts.len(),
            pv == views(parts@),
            (ahead, behind) == track_counts(pv.take(i as int)),
        decreases parts.len() - i,
    {
        assert(pv.take(i + 1).drop_last() =~= pv.take(i as int));
        assert(pv.take(i + 1).last() == parts@[i as int]@);
        let p = trim_exec(&parts[i]);
        match strip_prefix_str(&p, "ahead ") {
            Some(r) => {
                ahead = match parse_usize_exec(&r) {
                    Some(v) => v,
                    None => 0,
                };
            },
            None => {
                match strip_prefix_str(&p, "behind ") {
                    Some(r) => {
                        behind = match parse_usize_exec(&r) {
                            Some(v) => v,
                            None => 0,
                        };
                    },
                    None => {},
                }
            },
        }
        i += 1;
    }
    assert(pv.take(parts.len() as int) =~= pv);
    (ahead, behind)
}

/// The branch one line of the listing describes, if any: five `|`-separated
/// fields (head mark, ref name, object, upstream, track); remote `HEAD`
/// aliases and refs outside heads and remotes are skipped.
pub open spec fn branch_of_line(line: Seq<char>) -> Option<BranchView> {
    let parts = split(line, '|');
    if parts.len() < 5 {
        None
    } else {
        let head = trim(parts[0]);
        let refname = trim(parts[1]);
        let hash = trim(parts[2]);
        let up = trim(parts[3]);
        let track = trim(parts[4]);
        let named: Option<(Seq<char>, bool)> = match strip_prefix(refname, "refs/heads/"@) {
            Some(s) => Some((s, false)),
            None => match strip_prefix(refname, "refs/remotes/"@) {
                Some(s) => if ends_with(s, "/HEAD"@) { None } else { Some((s, true)) },
                None => None,
            },
        };
        match named {
            Some((name, remote)) => Some(
                (
                    name,
                    head == "*"@,
                    remote,
                    if hash.len() == 0 { None } else { Some(hash) },
                    if up.len() == 0 { None } else { Some(up) },
                    upstream_track(track).0,
                    upstream_track(track).1,
                ),
            ),
            None => None,
        }
    }
}

/// The branches of the listing lines, in order.
pub open spec fn branches_of_lines(ls: Seq<Seq<char>>) -> Seq<BranchView>
    decreases ls.len(),
{
    if ls.len() == 0 {
        seq![]
    } else {
        let prev = branches_of_lines(ls.drop_last());
        match branch_of_line(ls.last()) {
            Some(b) => prev.push(b),
            None => prev,
        }
    }
}

fn opt_nonempty(v: &Vec<char>) -> (r: Option<String>)
    ensures
        opt_view(r) == if v@.len() == 0 { None } else { Some(v@) },
{
    if v.len() == 0 {
        None
    } else {
        Some(string_of(v))
    }
}

fn parse_branch_line(line: &Vec<char>) -> (r: Option<BranchInfo>)
    ensures
        match (r, branch_of_line(line@)) {
            (Some(b), Some(v)) => branch_view(b) == v,
            (None, None) => true,
            _ => false,
        },
{
    let parts = split_exec(line, '|');
    assert(views(parts@).len() == parts@.len());
    if parts.len() < 5 {
        return None;
    }
    let head = trim_exec(&parts[0]);
    let refname = trim_exec(&parts[1]);
    let hash = trim_exec(&parts[2]);
    let up = trim_exec(&parts[3]);
    let track = trim_exec(&parts[4]);
    let named: Option<(Vec<char>, bool)> = match strip_prefix_str(&refname, "refs/heads/") {
        Some(s) => Some((s, false)),
        None => match strip_prefix_str(&refname, "refs/remotes/") {
            Some(s) => {
                if ends_with_str(&s, "/HEAD") {
                    None
                } else {
                    Some((s, true))
                }
            },
            None => None,
        },
    };
    match named {
        Some((name, remote)) => {
            let track_text = string_of(&track);
            let (ahead, behind) = parse_upstream_track(track_text.as_str());
            Some(
                BranchInfo {
                    name: string_of(&name),
                    is_head: eq_str(&head, "*"),
                    is_remote: remote,
                    commit_hash: opt_nonempty(&hash),
                    upstream: opt_nonempty(&up),
                    ahead,
                    behind,
                },
            )
        },
        None => None,
    }
}

/// Parses the output of the branch listing into branches.
pub fn parse_branch_listing(output: &str) -> (r: Vec<BranchInfo>)
    ensures
        r@.map_values(|b: BranchInfo| branch_view(b)) == branches_of_lines(lines(output@)),
{
    let o = chars_of(output);
    let ls = lines_exec(&o);
    let ghost lv = views(ls@);
    let mut out: Vec<BranchInfo> = Vec::new();
    let mut i: usize = 0;
    while i < ls.len()
        invariant
            i <= ls.len(),
            lv == views(ls@),
            lv == lines(output@),
            out@.map_values(|b: BranchInfo| branch_view(b)) == branches_of_lines(lv.take(i as int)),
        decreases ls.len() - i,
    {
        assert(lv.take(i + 1).drop_last() =~= lv.take(i as int));
        assert(lv.take(i + 1).last() == ls@[i as int]@);
        let ghost before = out@;
        match parse_branch_line(&ls[i]) {
            Some(b) => {
                out.push(b);
                assert(out@.map_values(|b: BranchInfo| branch_view(b)) =~= before.map_values(
                    |b: BranchInfo| branch_view(b),
                ).push(branch_view(b)));
            },
            None => {},
        }
        i += 1;
    }
    assert(lv.take(ls.len() as int) =~= lv);
    out
}

// ------------------------------------------------------------------
// Command arguments and failures
// ------------------------------------------------------------------

/// The arguments of `git` that list the branches.
pub open spec fn list_branch_args() -> Seq<Seq<char>> {
    seq![
        "for-each-ref"@,
        "--format=%(HEAD)|%(refname)|%(objectname)|%(upstream:short)|%(upstream:track)"@,
        "refs/heads/"@,
        "refs/remotes/"@,
    ]
}

/// The arguments of `git` that create a branch.
pub open spec fn create_branch_args(o: BranchCreateOptions) -> Seq<Seq<char>> {
    seq!["branch"@] + (if o.force { seq!["-f"@] } else { seq![] }) + (if o.track {
        seq!["--track"@]
    } else {
        seq![]
    }) + seq![o.name@] + match o.start_point {
        Some(s) => seq![s@],
        None => seq![],
    }
}

/// The arguments of `git` that check out a branch.
pub open spec fn checkout_args(o: CheckoutOptions) -> Seq<Seq<char>> {
    if o.create_if_missing {
        seq!["checkout"@, if o.force { "-B"@ } else { "-b"@ }, o.branch_name@] + match o.start_point {
            Some(s) => seq![s@],
            None => seq![],
        }
    } else {
        seq!["checkout"@] + (if o.force { seq!["--force"@] } else { seq![] }) + (if o.detach {
            seq!["--detach"@]
        } else {
            seq![]
        }) + seq![o.branch_name@]
    }
}

/// The arguments of `git` that delete a branch.
pub open spec fn delete_branch_args(name: Seq<char>, force: bool) -> Seq<Seq<char>> {
    seq!["branch"@, if force { "-D"@ } else { "-d"@ }, name]
}

fn push_arg(args: &mut Vec<String>, a: &str)
    ensures
        final(args)@.map_values(|s: String| s@) == old(args)@.map_values(|s: String| s@).push(a@),
{
    let ghost before = args@;
    let s = string_from(a);
    args.push(s);
    assert(args@.map_values(|s: String| s@) =~= before.map_values(|s: String| s@).push(a@));
}

impl GitBranchManager {
    /// The arguments of `git` that list the branches.
    pub fn list_args(&self) -> (r: Vec<String>)
        ensures
            r@.map_values(|s: String| s@) == list_branch_args(),
    {
        let mut args: Vec<String> = Vec::new();
        push_arg(&mut args, "for-each-ref");
        push_arg(&mut args, "--format=%(HEAD)|%(refname)|%(objectname)|%(upstream:short)|%(upstream:track)");
        push_arg(&mut args, "refs/heads/");
        push_arg(&mut args, "refs/remotes/");
        assert(args@.map_values(|s: String| s@) =~= list_branch_args());
        args
    }

    /// The arguments of `git` that create a branch; the name is validated first.
    pub fn create_args(&self, opts: &BranchCreateOptions) -> (r: Result<Vec<String>, GitBranchError>)
        ensures
            match (r, branch_name_problem(opts.name@)) {
                (Ok(a), None) => a@.map_values(|s: String| s@) == create_branch_args(*opts),
                (Err(GitBranchError::InvalidBranchName(m)), Some(p)) => m@ == p,
                _ => false,
            },
    {
        match self.validate_branch_name(opts.name.as_str()) {
            Err(e) => return Err(e),
            Ok(()) => {},
        }
        let mut args: Vec<String> = Vec::new();
        push_arg(&mut args, "branch");
        if opts.force {
            push_arg(&mut args, "-f");
        }
        if opts.track {
            push_arg(&mut args, "--track");
        }
        push_arg(&mut args, opts.name.as_str());
        if let Some(start) = &opts.start_point {
            push_arg(&mut args, start.as_str());
        }
        assert(args@.map_values(|s: String| s@) =~= create_branch_args(*opts));
        Ok(args)
    }

    /// The arguments of `git` that check out a branch; unless detaching, the
    /// name is validated first.
    pub fn checkout_args(&self, opts: &CheckoutOptions) -> (r: Result<Vec<String>, GitBranchError>)
        ensures
            opts.detach ==> (r matches Ok(a) && a@.map_values(|s: String| s@) == checkout_args(*opts)),
            !opts.detach ==> match (r, branch_name_problem(opts.branch_name@)) {
                (Ok(a), None) => a@.map_values(|s: String| s@) == checkout_args(*opts),
                (Err(GitBranchError::InvalidBranchName(m)), Some(p)) => m@ == p,
                _ => false,
            },
    {
        if !opts.detach {
            match self.validate_branch_name(opts.branch_name.as_str()) {
                Err(e) => return Err(e),
                Ok(()) => {},
            }
        }
        let mut args: Vec<String> = Vec::new();
        push_arg(&mut args, "checkout");
        if opts.create_if_missing {
            push_arg(&mut args, if opts.force { "-B" } else { "-b" });
            push_arg(&mut args, opts.branch_name.as_str());
            if let Some(start) = &opts.start_point {
                push_arg(&mut args, start.as_str());
            }
        } else {
            if opts.force {
                push_arg(&mut args, "--force");
            }
            if opts.detach {
                push_arg(&mut args, "--detach");
            }
            push_arg(&mut args, opts.branch_name.as_str());
        }
        assert(args@.map_values(|s: String| s@) =~= checkout_args(*opts));
        Ok(args)
    }

    /// The arguments of `git` that delete a branch, refused for an invalid
    /// name or for the branch that is checked out.
    pub fn delete_args(&self, branches: &Vec<BranchInfo>, branch_name: &str, force: bool) -> (r: Result<Vec<String>, GitBranchError>)
        ensures
            match branch_name_problem(branch_name@) {
                Some(p) => (r matches Err(GitBranchError::InvalidBranchName(m)) && m@ == p),
                None => match r {
                    Ok(a) => a@.map_values(|s: String| s@) == delete_branch_args(branch_name@, force)
                        && !is_current_branch(branches@, branch_name@),
                    Err(GitBranchError::CannotDeleteCurrentBranch(n)) => n@ == branch_name@
                        && is_current_branch(branches@, branch_name@),
                    _ => false,
                },
            },
    {
        match self.validate_branch_name(branch_name) {
            Err(e) => return Err(e),
            Ok(()) => {},
        }
        let mut i: usize = 0;
        while i < branches.len()
            invariant
                i <= branches.len(),
                branch_name_problem(branch_name@) is None,
                forall|k: int| 0 <= k < i ==> !(#[trigger] branches@[k]).is_head,
            decreases branches.len() - i,
        {
            if branches[i].is_head {
                let n = chars_of(branches[i].name.as_str());
                let b = chars_of(branch_name);
                if eq_chars(&n, &b) {
                    assert(is_current_branch(branches@, branch_name@)) by {
                        assert(branches@[i as int].is_head);
                    }
                    return Err(GitBranchError::CannotDeleteCurrentBranch(string_from(branch_name)));
                }
                return self.delete_args_unchecked(branch_name, force, branches, i);
            }
            i += 1;
        }
        self.delete_args_unchecked(branch_name, force, branches, branches.len())
    }

    fn delete_args_unchecked(&self, branch_name: &str, force: bool, branches: &Vec<BranchInfo>, first_head: usize) -> (r: Result<Vec<String>, GitBranchError>)
        requires
            first_head <= branches@.len(),
            forall|k: int| 0 <= k < first_head ==> !(#[trigger] branches@[k]).is_head,
            first_head < branches@.len() ==> branches@[first_head as int].is_head
                && branches@[first_head as int].name@ != branch_name@,
        ensures
            r matches Ok(a) && a@.map_values(|s: String| s@) == delete_branch_args(branch_name@, force),
            !is_current_branch(branches@, branch_name@),
    {
        let mut args: Vec<String> = Vec::new();
        push_arg(&mut args, "branch");
        push_arg(&mut args, if force { "-D" } else { "-d" });
        push_arg(&mut args, branch_name);
        assert(args@.map_values(|s: String| s@) =~= delete_branch_args(branch_name@, force));
        Ok(args)
    }
}

/// Whether the first branch marked as checked out has this name.
pub open spec fn is_current_branch(bs: Seq<BranchInfo>, name: Seq<char>) -> bool {
    exists|k: int|
        0 <= k < bs.len() && (#[trigger] bs[k]).is_head && bs[k].name@ == name && forall|j: int|
            0 <= j < k ==> !(#[trigger] bs[j]).is_head
}

/// The error of a failed branch listing: not a repository when git says so,
/// else the failure with its code and message.
pub fn list_failure_error(path: &str, code: Option<i32>, stderr: &str) -> (r: GitBranchError)
    ensures
        contains(unicode_lowercase(stderr@), "not a git repository"@) ==> (r matches GitBranchError::NotAGitRepository(p) && p@ == path@),
        !contains(unicode_lowercase(stderr@), "not a git repository"@) ==> (r matches GitBranchError::GitCommandFailed { code: c, stderr: s } && c == code && s@ == stderr@),
{
    let l = lowercase_chars(stderr);
    if contains_str(&l, "not a git repository") {
        GitBranchError::NotAGitRepository(string_from(path))
    } else {
        GitBranchError::GitCommandFailed { code, stderr: string_from(stderr) }
    }
}

/// The error of a failed branch creation.
pub fn create_failure_error(name: &str, code: Option<i32>, stderr: &str) -> (r: GitBranchError)
    ensures
        contains(stderr@, "already exists"@) ==> (r matches GitBranchError::BranchAlreadyExists(n) && n@ == name@),
        !contains(stderr@, "already exists"@) ==> (r matches GitBranchError::GitCommandFailed { code: c, stderr: s } && c == code && s@ == stderr@),
{
    let s = chars_of(stderr);
    if contains_str(&s, "already exists") {
        GitBranchError::BranchAlreadyExists(string_from(name))
    } else {
        GitBranchError::GitCommandFailed { code, stderr: string_from(stderr) }
    }
}

/// The error of a failed checkout: local changes in the way, an unknown
/// branch, or another failure (message trimmed).
pub fn checkout_failure_error(name: &str, stderr: &str) -> (r: GitBranchError)
    ensures
        (contains(stderr@, "local changes"@) || contains(stderr@, "overwritten by checkout"@)) ==> (r matches GitBranchError::HasUncommittedChanges(m) && m@ == trim(stderr@)),
        !(contains(stderr@, "local changes"@) || contains(stderr@, "overwritten by checkout"@)) && (contains(stderr@, "did not match any file"@) || contains(stderr@, "pathspec"@)) ==> (r matches GitBranchError::BranchNotFound(n) && n@ == name@),
        !(contains(stderr@, "local changes"@) || contains(stderr@, "overwritten by checkout"@)) && !(contains(stderr@, "did not match any file"@) || contains(stderr@, "pathspec"@)) ==> (r matches GitBranchError::CheckoutFailed(m) && m@ == trim(stderr@)),
{
    let s = chars_of(stderr);
    if contains_str(&s, "local changes") || contains_str(&s, "overwritten by checkout") {
        GitBranchError::HasUncommittedChanges(string_of(&trim_exec(&s)))
    } else if contains_str(&s, "did not match any file") || contains_str(&s, "pathspec") {
        GitBranchError::BranchNotFound(string_from(name))
    } else {
        GitBranchError::CheckoutFailed(string_of(&trim_exec(&s)))
    }
}

/// The error of a failed branch deletion.
pub fn delete_failure_error(name: &str, stderr: &str) -> (r: GitBranchError)
    ensures
        contains(stderr@, "not found"@) ==> (r matches GitBranchError::BranchNotFound(n) && n@ == name@),
        !contains(stderr@, "not found"@) ==> (r matches GitBranchError::DeleteFailed(m) && m@ == trim(stderr@)),
{
    let s = chars_of(stderr);
    if contains_str(&s, "not found") {
        GitBranchError::BranchNotFound(string_from(name))
    } else {
        GitBranchError::DeleteFailed(string_of(&trim_exec(&s)))
    }
}

proof fn lemma_line_not_remote_head(line: Seq<char>)
    ensures
        branch_of_line(line) matches Some(b) ==> (b.2 ==> !ends_with(b.0, "/HEAD"@)),
{
}

/// No branch of a listing is a remote whose name ends in `/HEAD`: the
/// symbolic `refs/remotes/<remote>/HEAD` alias contributes no branch.
pub proof fn law_listing_skips_remote_head(ls: Seq<Seq<char>>)
    ensures
        forall|i: int|
            0 <= i < branches_of_lines(ls).len() && (#[trigger] branches_of_lines(ls)[i]).2 ==> !ends_with(
                branches_of_lines(ls)[i].0,
                "/HEAD"@,
            ),
    decreases ls.len(),
{
    if ls.len() > 0 {
        law_listing_skips_remote_head(ls.drop_last());
        lemma_line_not_remote_head(ls.last());
        let prev = branches_of_lines(ls.drop_last());
        assert forall|i: int|
            0 <= i < branches_of_lines(ls).len() && (#[trigger] branches_of_lines(ls)[i]).2 implies !ends_with(
                branches_of_lines(ls)[i].0,
                "/HEAD"@,
            ) by {
            if i < prev.len() {
                assert(branches_of_lines(ls)[i] == prev[i]);
            }
        }
    }
}

} // verus!
