//! Staging and commits: the git commands they run and how the output becomes
//! a commit result.
use vstd::prelude::*;
use crate::text::{append_str, chars_of, contains, contains_str, decimal, decimal_string, eq_str, lines, lines_exec, opt_view, or_zero, parse_usize, parse_usize_exec, split, split_exec, split_whitespace, split_whitespace_exec, string_from, string_of, trim, trim_exec, views};

verus! {

/// Author or committer identity signature.
#[derive(Debug, Clone, PartialEq, Eq)]
pub struct Signature {
    pub name: String,
    pub email: String,
    pub timestamp: Option<i64>,
}

impl Signature {
    pub fn new(name: &str, email: &str) -> (r: Self)
        ensures
            r.name@ == name@,
            r.email@ == email@,
            r.timestamp is None,
    {
        Signature { name: string_from(name), email: string_from(email), timestamp: None }
    }

    pub fn with_timestamp(self, timestamp: i64) -> (r: Self)
        ensures
            r == (Signature { timestamp: Some(timestamp), ..self }),
    {
        let mut s = self;
        s.timestamp = Some(timestamp);
        s
    }
}

/// Staging operation.
#[derive(Debug, Clone, PartialEq, Eq)]
pub enum StageOperation {
    /// Stage a file or directory (`git add <path>`).
    StagePath(String),
    /// Unstage a file or directory.
    UnstagePath(String),
    /// Stage all changes (`git add -A`).
    StageAll,
    /// Unstage all staged changes (`git reset`).
    UnstageAll,
    /// Discard changes in the working directory.
    DiscardChanges(String),
}

/// Options of a commit.
#[derive(Debug, Clone, PartialEq, Eq)]
pub struct CommitOptions {
    pub message: String,
    pub author: Option<Signature>,
    pub committer: Option<Signature>,
    pub amend: bool,
    pub allow_empty: bool,
    pub sign_gpg: bool,
}

/// Information returned after a successful commit.
#[derive(Debug, Clone, PartialEq, Eq)]
pub struct CommitResult {
    pub commit_hash: String,
    pub summary: String,
    pub files_changed: usize,
    pub insertions: usize,
    pub deletions: usize,
    pub branch: Option<String>,
}

/// Errors of staging or commit operations.
#[derive(Debug, Clone, PartialEq, Eq)]
pub enum GitCommitError {
    EmptyCommitMessage,
    GitExecutionFailed(String),
    IoError(String),
    RepositoryNotFound(String),
}

/// The message of a commit error.
pub open spec fn commit_error_message(e: GitCommitError) -> Seq<char> {
    match e {
        GitCommitError::EmptyCommitMessage => "Commit message cannot be empty"@,
        GitCommitError::GitExecutionFailed(m) => "Git command failed: "@ + m@,
        GitCommitError::IoError(m) => "IO error: "@ + m@,
        GitCommitError::RepositoryNotFound(p) => "Git repository not found at path: "@ + p@,
    }
}

impl GitCommitError {
    /// The message shown for the error.
    pub fn to_string(&self) -> (r: String)
        ensures
            r@ == commit_error_message(*self),
    {
        match self {
            GitCommitError::EmptyCommitMessage => string_from("Commit message cannot be empty"),
            GitCommitError::GitExecutionFailed(m) => {
                let mut s = string_from("Git command failed: ");
                append_str(&mut s, m.as_str());
                s
            },
            GitCommitError::IoError(m) => {
                let mut s = string_from("IO error: ");
                append_str(&mut s, m.as_str());
                s
            },
            GitCommitError::RepositoryNotFound(p) => {
                let mut s = string_from("Git repository not found at path: ");
                append_str(&mut s, p.as_str());
                s
            },
        }
    }
}

/// When a second command of a staging operation runs.
#[derive(Debug, Clone, PartialEq, Eq)]
pub enum FollowUp {
    /// There is no second command.
    Nothing,
    /// Runs when the first one fails; the operation fails (with the first
    /// command's message) only if this one fails too.
    OnFailure(Vec<String>),
    /// Runs when the first one succeeds; its failure fails the operation.
    OnSuccess(Vec<String>),
}

/// The git commands of a staging operation: the first, and what follows.
pub open spec fn stage_plan(op: StageOperation) -> (Seq<Seq<char>>, nat, Seq<Seq<char>>) {
    match op {
        StageOperation::StagePath(p) => (seq!["add"@, "--"@, p@], 0, seq![]),
        StageOperation::UnstagePath(p) => (
            seq!["restore"@, "--staged"@, "--"@, p@],
            1,
            seq!["rm"@, "--cached"@, "-r"@, "--quiet"@, "--"@, p@],
        ),
        StageOperation::StageAll => (seq!["add"@, "-A"@], 0, seq![]),
        StageOperation::UnstageAll => (seq!["reset"@], 0, seq![]),
        StageOperation::DiscardChanges(p) => (seq!["restore"@, "--"@, p@], 2, seq!["clean"@, "-fd"@, "--"@, p@]),
    }
}

pub open spec fn texts(v: Seq<String>) -> Seq<Seq<char>> {
    v.map_values(|s: String| s@)
}

fn args_of(items: &[&str]) -> (r: Vec<String>)
    ensures
        texts(r@) == items@.map_values(|s: &str| s@),
{
    let mut out: Vec<String> = Vec::new();
    let mut i: usize = 0;
    while i < items.len()
        invariant
            i <= items@.len(),
            texts(out@) == items@.take(i as int).map_values(|s: &str| s@),
        decreases items@.len() - i,
    {
        let ghost before = out@;
        let s = string_from(items[i]);
        out.push(s);
        assert(texts(out@) =~= texts(before).push(s@));
        assert(items@.take(i + 1).map_values(|s: &str| s@) =~= items@.take(i as int).map_values(|s: &str| s@).push(items@[i as int]@));
        i += 1;
    }
    assert(items@.take(items@.len() as int) =~= items@);
    out
}

/// Non-blocking Git stage operator.
#[derive(Debug, Clone)]
pub struct GitStageOperator;

impl Default for GitStageOperator {
    fn default() -> (r: Self) {
        GitStageOperator
    }
}

impl GitStageOperator {
    pub fn new() -> (r: Self) {
        GitStageOperator
    }

    /// The git commands that carry out a staging operation.
    pub fn plan(&self, op: &StageOperation) -> (r: (Vec<String>, FollowUp))
        ensures
            texts(r.0@) == stage_plan(*op).0,
            match r.1 {
                FollowUp::Nothing => stage_plan(*op).1 == 0,
                FollowUp::OnFailure(a) => stage_plan(*op).1 == 1 && texts(a@) == stage_plan(*op).2,
                FollowUp::OnSuccess(a) => stage_plan(*op).1 == 2 && texts(a@) == stage_plan(*op).2,
            },
    {
        match op {
            StageOperation::StagePath(p) => {
                let r = args_of(&["add", "--", p.as_str()]);
                assert(texts(r@) =~= stage_plan(*op).0);
                (r, FollowUp::Nothing)
            },
            StageOperation::UnstagePath(p) => {
                let a = args_of(&["restore", "--staged", "--", p.as_str()]);
                let b = args_of(&["rm", "--cached", "-r", "--quiet", "--", p.as_str()]);
                assert(texts(a@) =~= stage_plan(*op).0);
                assert(texts(b@) =~= stage_plan(*op).2);
                (a, FollowUp::OnFailure(b))
            },
            StageOperation::StageAll => {
                let r = args_of(&["add", "-A"]);
                assert(texts(r@) =~= stage_plan(*op).0);
                (r, FollowUp::Nothing)
            },
            StageOperation::UnstageAll => {
                let r = args_of(&["reset"]);
                assert(texts(r@) =~= stage_plan(*op).0);
                (r, FollowUp::Nothing)
            },
            StageOperation::DiscardChanges(p) => {
                let a = args_of(&["restore", "--", p.as_str()]);
                let b = args_of(&["clean", "-fd", "--", p.as_str()]);
                assert(texts(a@) =~= stage_plan(*op).0);
                assert(texts(b@) =~= stage_plan(*op).2);
                (a, FollowUp::OnSuccess(b))
            },
        }
    }

    /// The error of a failed git command: its message, trimmed.
    pub fn failure(&self, stderr: &str) -> (r: GitCommitError)
        ensures
            r matches GitCommitError::GitExecutionFailed(m) && m@ == trim(stderr@),
    {
        let s = chars_of(stderr);
        GitCommitError::GitExecutionFailed(string_of(&trim_exec(&s)))
    }
}

/// Builder for commits.
#[derive(Debug, Clone)]
pub struct CommitBuilder {
    options: CommitOptions,
}

/// `name <email>`.
pub open spec fn identity(s: Signature) -> Seq<char> {
    s.name@ + " <"@ + s.email@ + ">"@
}

/// A date for git: seconds since the epoch in UTC.
pub open spec fn git_date(ts: i64) -> Seq<char> {
    (if ts < 0 { "-"@ + decimal((-ts) as nat) } else { decimal(ts as nat) }) + " +0000"@
}

/// The arguments of `git commit` for the options, with the trimmed message.
pub open spec fn commit_args(o: CommitOptions) -> Seq<Seq<char>> {
    seq!["commit"@, "-m"@, trim(o.message@)] + (if o.amend { seq!["--amend"@] } else { seq![] }) + (
    if o.allow_empty {
        seq!["--allow-empty"@]
    } else {
        seq![]
    }) + (if o.sign_gpg { seq!["-S"@] } else { seq!["--no-gpg-sign"@] }) + match o.author {
        Some(a) => seq!["--author"@, identity(a)],
        None => seq![],
    }
}

/// The environment of `git commit` for the options.
pub open spec fn commit_env(o: CommitOptions) -> Seq<(Seq<char>, Seq<char>)> {
    (match o.author {
        Some(a) => match a.timestamp {
            Some(t) => seq![("GIT_AUTHOR_DATE"@, git_date(t))],
            None => seq![],
        },
        None => seq![],
    }) + match o.committer {
        Some(c) => seq![("GIT_COMMITTER_NAME"@, c.name@), ("GIT_COMMITTER_EMAIL"@, c.email@)] + match c.timestamp {
            Some(t) => seq![("GIT_COMMITTER_DATE"@, git_date(t))],
            None => seq![],
        },
        None => seq![],
    }
}

pub open spec fn pair_texts(v: Seq<(String, String)>) -> Seq<(Seq<char>, Seq<char>)> {
    v.map_values(|p: (String, String)| (p.0@, p.1@))
}

fn git_date_exec(ts: i64) -> (r: String)
    ensures
        r@ == git_date(ts),
{
    let mut s = String::new();
    if ts < 0 {
        append_str(&mut s, "-");
        let m: u64 = if ts == i64::MIN {
            9223372036854775808u64
        } else {
            (-ts) as u64
        };
        append_str(&mut s, decimal_string(m).as_str());
    } else {
        append_str(&mut s, decimal_string(ts as u64).as_str());
    }
    append_str(&mut s, " +0000");
    s
}

fn push_pair(env: &mut Vec<(String, String)>, k: &str, v: String)
    ensures
        pair_texts(final(env)@) == pair_texts(old(env)@).push((k@, v@)),
{
    let ghost before = env@;
    let key = string_from(k);
    let ghost vv = v@;
    env.push((key, v));
    assert(pair_texts(env@) =~= pair_texts(before).push((k@, vv)));
}

fn push_arg(args: &mut Vec<String>, a: String)
    ensures
        texts(final(args)@) == texts(old(args)@).push(a@),
{
    let ghost before = args@;
    let ghost av = a@;
    args.push(a);
    assert(texts(args@) =~= texts(before).push(av));
}

/// The counts of a commit summary line's parts: files changed, insertions,
/// deletions (the last mention of each wins).
pub open spec fn stat_parts(parts: Seq<Seq<char>>, acc: (usize, usize, usize)) -> (usize, usize, usize)
    decreases parts.len(),
{
    if parts.len() == 0 {
        acc
    } else {
        let prev = stat_parts(parts.drop_last(), acc);
        let p = trim(parts.last());
        let first = split_whitespace(p);
        let n = if first.len() > 0 { Some(or_zero(parse_usize(first[0]))) } else { None };
        if contains(p, "file changed"@) || contains(p, "files changed"@) {
            match n {
                Some(v) => (v, prev.1, prev.2),
                None => prev,
            }
        } else if contains(p, "insertion"@) {
            match n {
                Some(v) => (prev.0, v, prev.2),
                None => prev,
            }
        } else if contains(p, "deletion"@) {
            match n {
                Some(v) => (prev.0, prev.1, v),
                None => prev,
            }
        } else {
            prev
        }
    }
}

/// The counts of a commit's output: each summary line overrides what it mentions.
pub open spec fn stat_lines(ls: Seq<Seq<char>>) -> (usize, usize, usize)
    decreases ls.len(),
{
    if ls.len() == 0 {
        (0, 0, 0)
    } else {
        let prev = stat_lines(ls.drop_last());
        let l = ls.last();
        if contains(l, "file changed"@) || contains(l, "files changed"@) {
            stat_parts(split(l, ','), prev)
        } else {
            prev
        }
    }
}

fn stat_parts_exec(parts: &Vec<Vec<char>>, acc: (usize, usize, usize)) -> (r: (usize, usize, usize))
    ensures
        r == stat_parts(views(parts@), acc),
{
    let ghost pv = views(parts@);
    let mut cur = acc;
    let mut i: usize = 0;
    while i < parts.len()
        invariant
            i <= parts.len(),
            pv == views(parts@),
            cur == stat_parts(pv.take(i as int), acc),
        decreases parts.len() - i,
    {
        assert(pv.take(i + 1).drop_last() =~= pv.take(i as int));
        assert(pv.take(i + 1).last() == parts@[i as int]@);
        let p = trim_exec(&parts[i]);
        let words = split_whitespace_exec(&p);
        assert(views(words@).len() == words@.len());
        let n: Option<usize> = if words.len() > 0 {
            match parse_usize_exec(&words[0]) {
                Some(v) => Some(v),
                None => Some(0),
            }
        } else {
            None
        };
        if contains_str(&p, "file changed") || contains_str(&p, "files changed") {
            if let Some(v) = n {
                cur = (v, cur.1, cur.2);
            }
        } else if contains_str(&p, "insertion") {
            if let Some(v) = n {
                cur = (cur.0, v, cur.2);
            }
        } else if contains_str(&p, "deletion") {
            if let Some(v) = n {
                cur = (cur.0, cur.1, v);
            }
        }
        i += 1;
    }
    assert(pv.take(parts.len() as int) =~= pv);
    cur
}

/// Parses the file, insertion and deletion counts from `git commit` output.
pub fn parse_commit_stats(stdout: &str) -> (r: (usize, usize, usize))
    ensures
        r == stat_lines(lines(stdout@)),
{
    let o = chars_of(stdout);
    let ls = lines_exec(&o);
    let ghost lv = views(ls@);
    let mut cur: (usize, usize, usize) = (0, 0, 0);
    let mut i: usize = 0;
    while i < ls.len()
        invariant
            i <= ls.len(),
            lv == views(ls@),
            lv == lines(stdout@),
            cur == stat_lines(lv.take(i as int)),
        decreases ls.len() - i,
    {
        assert(lv.take(i + 1).drop_last() =~= lv.take(i as int));
        assert(lv.take(i + 1).last() == ls@[i as int]@);
        if contains_str(&ls[i], "file changed") || contains_str(&ls[i], "files changed") {
            let parts = split_exec(&ls[i], ',');
            cur = stat_parts_exec(&parts, cur);
        }
        i += 1;
    }
    assert(lv.take(ls.len() as int) =~= lv);
    cur
}

/// The summary of a commit: the first line of its trimmed message.
pub open spec fn commit_summary(message: Seq<char>) -> Seq<char> {
    let ls = lines(trim(message));
    if ls.len() > 0 { ls[0] } else { seq![] }
}

/// The branch named by `git rev-parse --abbrev-ref HEAD` output, unless detached.
pub open spec fn branch_from_output(out: Option<Seq<char>>) -> Option<Seq<char>> {
    match out {
        Some(o) => if trim(o).len() == 0 || trim(o) == "HEAD"@ { None } else { Some(trim(o)) },
        None => None,
    }
}

impl CommitBuilder {
    /// The options gathered so far.
    pub closed spec fn commit_options(&self) -> CommitOptions {
        self.options
    }

    pub fn new() -> (r: Self)
        ensures
            r.commit_options().message@.len() == 0,
            r.commit_options().author is None,
            r.commit_options().committer is None,
            !r.commit_options().amend,
            !r.commit_options().allow_empty,
            !r.commit_options().sign_gpg,
    {
        CommitBuilder {
            options: CommitOptions {
                message: String::new(),
                author: None,
                committer: None,
                amend: false,
                allow_empty: false,
                sign_gpg: false,
            },
        }
    }

    pub fn message(self, message: &str) -> (r: Self)
        ensures
            r.commit_options().message@ == message@,
            r.commit_options().author == self.commit_options().author,
            r.commit_options().committer == self.commit_options().committer,
            r.commit_options().amend == self.commit_options().amend,
            r.commit_options().allow_empty == self.commit_options().allow_empty,
            r.commit_options().sign_gpg == self.commit_options().sign_gpg,
    {
        let mut s = self;
        s.options.message = string_from(message);
        s
    }

    pub fn author(self, author: Signature) -> (r: Self)
        ensures
            r.commit_options() == (CommitOptions { author: Some(author), ..self.commit_options() }),
    {
        let mut s = self;
        s.options.author = Some(author);
        s
    }

    pub fn committer(self, committer: Signature) -> (r: Self)
        ensures
            r.commit_options() == (CommitOptions { committer: Some(committer), ..self.commit_options() }),
    {
        let mut s = self;
        s.options.committer = Some(committer);
        s
    }

    pub fn amend(self, amend: bool) -> (r: Self)
        ensures
            r.commit_options() == (CommitOptions { amend, ..self.commit_options() }),
    {
        let mut s = self;
        s.options.amend = amend;
        s
    }

    pub fn allow_empty(self, allow_empty: bool) -> (r: Self)
        ensures
            r.commit_options() == (CommitOptions { allow_empty, ..self.commit_options() }),
    {
        let mut s = self;
        s.options.allow_empty = allow_empty;
        s
    }

    pub fn sign_gpg(self, sign_gpg: bool) -> (r: Self)
        ensures
            r.commit_options() == (CommitOptions { sign_gpg, ..self.commit_options() }),
    {
        let mut s = self;
        s.options.sign_gpg = sign_gpg;
        s
    }

    /// The arguments and environment of `git commit`; an empty (trimmed)
    /// message is refused.
    pub fn command(&self) -> (r: Result<(Vec<String>, Vec<(String, String)>), GitCommitError>)
        ensures
            trim(self.commit_options().message@).len() == 0 <==> r is Err,
            r matches Err(e) ==> e == GitCommitError::EmptyCommitMessage,
            r matches Ok(c) ==> texts(c.0@) == commit_args(self.commit_options()) && pair_texts(c.1@)
                == commit_env(self.commit_options()),
    {
        let o = &self.options;
        let mc = chars_of(o.message.as_str());
        let message = trim_exec(&mc);
        if message.len() == 0 {
            return Err(GitCommitError::EmptyCommitMessage);
        }
        let mut args: Vec<String> = Vec::new();
        push_arg(&mut args, string_from("commit"));
        push_arg(&mut args, string_from("-m"));
        push_arg(&mut args, string_of(&message));
        let ghost a0 = texts(args@);
        if o.amend {
            push_arg(&mut args, string_from("--amend"));
        }
        let ghost a1 = texts(args@);
        if o.allow_empty {
            push_arg(&mut args, string_from("--allow-empty"));
        }
        let ghost a2 = texts(args@);
        if o.sign_gpg {
            push_arg(&mut args, string_from("-S"));
        } else {
            push_arg(&mut args, string_from("--no-gpg-sign"));
        }
        let ghost a3 = texts(args@);
        let mut env: Vec<(String, String)> = Vec::new();
        if let Some(author) = &o.author {
            push_arg(&mut args, string_from("--author"));
            let mut id = string_from(author.name.as_str());
            append_str(&mut id, " <");
            append_str(&mut id, author.email.as_str());
            append_str(&mut id, ">");
            push_arg(&mut args, id);
            if let Some(ts) = author.timestamp {
                push_pair(&mut env, "GIT_AUTHOR_DATE", git_date_exec(ts));
            }
        }
        let ghost e0 = pair_texts(env@);
        if let Some(c) = &o.committer {
            push_pair(&mut env, "GIT_COMMITTER_NAME", c.name.clone());
            push_pair(&mut env, "GIT_COMMITTER_EMAIL", c.email.clone());
            if let Some(ts) = c.timestamp {
                push_pair(&mut env, "GIT_COMMITTER_DATE", git_date_exec(ts));
            }
        }
        assert(a0 =~= seq!["commit"@, "-m"@, trim(o.message@)]);
        assert(a1 =~= a0 + (if o.amend { seq!["--amend"@] } else { seq![] }));
        assert(a2 =~= a1 + (if o.allow_empty { seq!["--allow-empty"@] } else { seq![] }));
        assert(a3 =~= a2 + (if o.sign_gpg { seq!["-S"@] } else { seq!["--no-gpg-sign"@] }));
        assert(texts(args@) =~= commit_args(*o));
        assert(e0 =~= match o.author {
            Some(a) => match a.timestamp {
                Some(t) => seq![("GIT_AUTHOR_DATE"@, git_date(t))],
                None => seq![],
            },
            None => seq![],
        });
        assert(pair_texts(env@) =~= commit_env(*o));
        Ok((args, env))
    }

    /// The result of a commit from what git printed: the hash from
    /// `rev-parse HEAD` (empty when it failed), the branch from
    /// `rev-parse --abbrev-ref HEAD` (`None` when it failed), and the counts
    /// from the commit's own output.
    pub fn result(&self, commit_stdout: &str, hash_stdout: Option<&str>, branch_stdout: Option<&str>) -> (r: CommitResult)
        ensures
            r.commit_hash@ == match hash_stdout {
                Some(h) => trim(h@),
                None => Seq::<char>::empty(),
            },
            opt_view(r.branch) == branch_from_output(match branch_stdout {
                Some(b) => Some(b@),
                None => None,
            }),
            (r.files_changed, r.insertions, r.deletions) == stat_lines(lines(commit_stdout@)),
            r.summary@ == commit_summary(self.commit_options().message@),
    {
        let commit_hash = match hash_stdout {
            Some(h) => string_of(&trim_exec(&chars_of(h))),
            None => String::new(),
        };
        let branch = match branch_stdout {
            Some(b) => {
                let t = trim_exec(&chars_of(b));
                if t.len() == 0 || eq_str(&t, "HEAD") {
                    None
                } else {
                    Some(string_of(&t))
                }
            },
            None => None,
        };
        let (files_changed, insertions, deletions) = parse_commit_stats(commit_stdout);
        let mc = chars_of(self.options.message.as_str());
        let m = trim_exec(&mc);
        let ls = lines_exec(&m);
        assert(views(ls@).len() == ls@.len());
        let summary = if ls.len() > 0 {
            string_of(&ls[0])
        } else {
            String::new()
        };
        CommitResult { commit_hash, summary, files_changed, insertions, deletions, branch }
    }
}

impl Default for CommitBuilder {
    fn default() -> (r: Self)
        ensures
            r.commit_options().message@.len() == 0,
            r.commit_options().author is None,
            r.commit_options().committer is None,
            !r.commit_options().amend,
            !r.commit_options().allow_empty,
            !r.commit_options().sign_gpg,
    {
        Self::new()
    }
}

} // verus!
