//! Stashes: the stash listing, the arguments of stash commands and what
//! their output means.
use vstd::prelude::*;
use crate::text::{append_str, chars_of, contains, contains_str, decimal, decimal_string, lines, lines_exec, parse_usize, parse_usize_exec, slice_chars, split_once, split_once_str, string_from, string_of, strip_prefix, strip_prefix_str, trim, trim_exec, views};

verus! {

#[derive(Debug, Clone, PartialEq, Eq)]
pub struct StashEntry {
    pub index: usize,
    pub name: String,
    pub branch: String,
    pub message: String,
}

#[derive(Debug, Clone, PartialEq, Eq)]
pub struct StashApplyResult {
    pub success: bool,
    pub message: String,
    pub has_conflicts: bool,
}

#[derive(Debug, Clone, PartialEq, Eq)]
pub enum GitStashError {
    RepositoryNotFound(String),
    ExecutionFailed(String),
    StashNotFound(usize),
    Io(String),
}

/// The message of a stash error.
pub open spec fn stash_error_message(e: GitStashError) -> Seq<char> {
    match e {
        GitStashError::RepositoryNotFound(p) => "Repo not found: "@ + p@,
        GitStashError::ExecutionFailed(m) => "Git failed: "@ + m@,
        GitStashError::StashNotFound(i) => "Stash @{"@ + decimal(i as nat) + "} not found"@,
        GitStashError::Io(m) => "I/O error: "@ + m@,
    }
}

impl GitStashError {
    /// The message shown for the error.
    pub fn to_string(&self) -> (r: String)
        ensures
            r@ == stash_error_message(*self),
    {
        match self {
            GitStashError::RepositoryNotFound(p) => {
                let mut s = string_from("Repo not found: ");
                append_str(&mut s, p.as_str());
                s
            },
            GitStashError::ExecutionFailed(m) => {
                let mut s = string_from("Git failed: ");
                append_str(&mut s, m.as_str());
                s
            },
            GitStashError::StashNotFound(i) => {
                let mut s = string_from("Stash @{");
                append_str(&mut s, decimal_string(*i as u64).as_str());
                append_str(&mut s, "} not found");
                s
            },
            GitStashError::Io(m) => {
                let mut s = string_from("I/O error: ");
                append_str(&mut s, m.as_str());
                s
            },
        }
    }
}

/// The name of the stash at an index.
pub open spec fn stash_name(i: nat) -> Seq<char> {
    "stash@{"@ + decimal(i) + "}"@
}

/// The branch and message of a stash description (`WIP on b: msg`, `On b: msg`).
pub open spec fn branch_and_message(rest: Seq<char>) -> (Seq<char>, Seq<char>) {
    match strip_prefix(rest, "WIP on "@) {
        Some(r) => match split_once(r, ": "@) {
            Some((b, m)) => (b, m),
            None => (r, rest),
        },
        None => match strip_prefix(rest, "On "@) {
            Some(r) => match split_once(r, ": "@) {
                Some((b, m)) => (b, m),
                None => (r, rest),
            },
            None => ("unknown"@, rest),
        },
    }
}

/// The stash one line of `git stash list` describes, if any.
pub open spec fn stash_of_line(l: Seq<char>) -> Option<(usize, Seq<char>, Seq<char>)> {
    match split_once(trim(l), ": "@) {
        Some((ref_part, rest)) => match strip_prefix(ref_part, "stash@{"@) {
            Some(s) => if s.len() > 0 && s.last() == '}' {
                match parse_usize(s.drop_last()) {
                    Some(i) => Some((i, branch_and_message(rest).0, branch_and_message(rest).1)),
                    None => None,
                }
            } else {
                None
            },
            None => None,
        },
        None => None,
    }
}

/// The stashes of the listing lines, in order.
pub open spec fn stashes_of_lines(ls: Seq<Seq<char>>) -> Seq<(usize, Seq<char>, Seq<char>)>
    decreases ls.len(),
{
    if ls.len() == 0 {
        seq![]
    } else {
        let prev = stashes_of_lines(ls.drop_last());
        match stash_of_line(ls.last()) {
            Some(e) => prev.push(e),
            None => prev,
        }
    }
}

/// A stash entry as its index, branch and message, with its name checked.
pub open spec fn stash_view(e: StashEntry) -> (usize, Seq<char>, Seq<char>) {
    (e.index, e.branch@, e.message@)
}

/// Splits a stash description into branch and message.
pub fn parse_branch_msg(rest: &Vec<char>) -> (r: (String, String))
    ensures
        (r.0@, r.1@) == branch_and_message(rest@),
{
    match strip_prefix_str(rest, "WIP on ") {
        Some(r) => match split_once_str(&r, ": ") {
            Some((b, m)) => (string_of(&b), string_of(&m)),
            None => (string_of(&r), string_of(rest)),
        },
        None => match strip_prefix_str(rest, "On ") {
            Some(r) => match split_once_str(&r, ": ") {
                Some((b, m)) => (string_of(&b), string_of(&m)),
                None => (string_of(&r), string_of(rest)),
            },
            None => (string_from("unknown"), string_of(rest)),
        },
    }
}

/// The name of the stash at an index.
pub fn stash_ref(index: usize) -> (r: String)
    ensures
        r@ == stash_name(index as nat),
{
    let mut s = string_from("stash@{");
    append_str(&mut s, decimal_string(index as u64).as_str());
    append_str(&mut s, "}");
    s
}

fn parse_stash_line(l: &Vec<char>) -> (r: Option<StashEntry>)
    ensures
        match (r, stash_of_line(l@)) {
            (Some(e), Some(v)) => stash_view(e) == v && e.name@ == stash_name(e.index as nat),
            (None, None) => true,
            _ => false,
        },
{
    let t = trim_exec(l);
    match split_once_str(&t, ": ") {
        Some((ref_part, rest)) => match strip_prefix_str(&ref_part, "stash@{") {
            Some(s) => {
                if s.len() > 0 && s[s.len() - 1] == '}' {
                    let digits = slice_chars(&s, 0, s.len() - 1);
                    assert(digits@ == s@.drop_last());
                    match parse_usize_exec(&digits) {
                        Some(index) => {
                            let (branch, message) = parse_branch_msg(&rest);
                            Some(StashEntry { index, name: stash_ref(index), branch, message })
                        },
                        None => None,
                    }
                } else {
                    None
                }
            },
            None => None,
        },
        None => None,
    }
}

/// Parses the output of `git stash list`.
pub fn parse_stash_list(output: &str) -> (r: Vec<StashEntry>)
    ensures
        r@.map_values(|e: StashEntry| stash_view(e)) == stashes_of_lines(lines(output@)),
        forall|k: int| 0 <= k < r@.len() ==> (#[trigger] r@[k]).name@ == stash_name(r@[k].index as nat),
{
    let o = chars_of(output);
    let ls = lines_exec(&o);
    let ghost lv = views(ls@);
    let mut out: Vec<StashEntry> = Vec::new();
    let mut i: usize = 0;
    while i < ls.len()
        invariant
            i <= ls.len(),
            lv == views(ls@),
            lv == lines(output@),
            out@.map_values(|e: StashEntry| stash_view(e)) == stashes_of_lines(lv.take(i as int)),
            forall|k: int| 0 <= k < out@.len() ==> (#[trigger] out@[k]).name@ == stash_name(out@[k].index as nat),
        decreases ls.len() - i,
    {
        assert(lv.take(i + 1).drop_last() =~= lv.take(i as int));
        assert(lv.take(i + 1).last() == ls@[i as int]@);
        let ghost before = out@;
        match parse_stash_line(&ls[i]) {
            Some(e) => {
                out.push(e);
                assert(out@.map_values(|e: StashEntry| stash_view(e)) =~= before.map_values(
                    |e: StashEntry| stash_view(e),
                ).push(stash_view(e)));
            },
            None => {},
        }
        i += 1;
    }
    assert(lv.take(ls.len() as int) =~= lv);
    out
}

/// The arguments of `git` that push a stash.
pub open spec fn stash_push_args(msg: Option<Seq<char>>, untracked: bool) -> Seq<Seq<char>> {
    seq!["stash"@, "push"@] + (if untracked { seq!["--include-untracked"@] } else { seq![] }) + match msg {
        Some(m) => seq!["-m"@, m],
        None => seq![],
    }
}

/// The result of applying or popping a stash, from the command's output.
pub open spec fn apply_outcome(index: usize, success: bool, stdout: Seq<char>, stderr: Seq<char>) -> Result<(bool, Seq<char>, bool), usize> {
    let combined = stdout + "\n"@ + stderr;
    if contains(combined, "is not a valid reference"@) || contains(stderr, "unknown revision"@) {
        Err(index)
    } else {
        let conflicts = contains(combined, "CONFLICT"@) || contains(combined, "needs merge"@);
        Ok((success && !conflicts, trim(combined), conflicts))
    }
}

fn push_arg(args: &mut Vec<String>, a: &str)
    ensures
        final(args)@.map_values(|s: String| s@) == old(args)@.map_values(|s: String| s@).push(a@),
{
    let ghost before = args@;
    let s = string_from(a);
    args.push(s);
    assert(args@.map_values(|s: String| s@) =~= before.map_values(|s: String| s@).push(a@));
}

#[derive(Debug, Clone)]
pub struct GitStashManager;

impl Default for GitStashManager {
    fn default() -> (r: Self) {
        GitStashManager
    }
}

impl GitStashManager {
    pub fn new() -> (r: Self) {
        GitStashManager
    }

    /// The arguments of `git` that push a stash.
    pub fn push_args(&self, msg: Option<&str>, untracked: bool) -> (r: Vec<String>)
        ensures
            r@.map_values(|s: String| s@) == stash_push_args(
                match msg {
                    Some(m) => Some(m@),
                    None => None,
                },
                untracked,
            ),
    {
        let mut args: Vec<String> = Vec::new();
        push_arg(&mut args, "stash");
        push_arg(&mut args, "push");
        if untracked {
            push_arg(&mut args, "--include-untracked");
        }
        if let Some(m) = msg {
            push_arg(&mut args, "-m");
            push_arg(&mut args, m);
        }
        assert(args@.map_values(|s: String| s@) =~= stash_push_args(
            match msg {
                Some(m) => Some(m@),
                None => None,
            },
            untracked,
        ));
        args
    }

    /// Whether a stash push saved anything, from its output.
    pub fn push_saved(&self, stdout: &str) -> (r: bool)
        ensures
            r == !contains(stdout@, "No local changes to save"@),
    {
        let o = chars_of(stdout);
        !contains_str(&o, "No local changes to save")
    }

    /// The result of applying or popping the stash at `index`, from the
    /// command's exit status and output.
    pub fn apply_result(&self, index: usize, success: bool, stdout: &str, stderr: &str) -> (r: Result<StashApplyResult, GitStashError>)
        ensures
            match (r, apply_outcome(index, success, stdout@, stderr@)) {
                (Ok(a), Ok(v)) => (a.success, a.message@, a.has_conflicts) == v,
                (Err(GitStashError::StashNotFound(i)), Err(j)) => i == j,
                _ => false,
            },
    {
        let mut combined = string_from(stdout);
        append_str(&mut combined, "\n");
        append_str(&mut combined, stderr);
        let c = chars_of(combined.as_str());
        let e = chars_of(stderr);
        if contains_str(&c, "is not a valid reference") || contains_str(&e, "unknown revision") {
            return Err(GitStashError::StashNotFound(index));
        }
        let conflicts = contains_str(&c, "CONFLICT") || contains_str(&c, "needs merge");
        Ok(StashApplyResult { success: success && !conflicts, message: string_of(&trim_exec(&c)), has_conflicts: conflicts })
    }

    /// The error of a failed stash drop.
    pub fn drop_failure(&self, index: usize, stderr: &str) -> (r: GitStashError)
        ensures
            (contains(stderr@, "is not a valid reference"@) || contains(stderr@, "unknown revision"@))
                ==> r == GitStashError::StashNotFound(index),
            !(contains(stderr@, "is not a valid reference"@) || contains(stderr@, "unknown revision"@))
                ==> (r matches GitStashError::ExecutionFailed(m) && m@ == stderr@),
    {
        let e = chars_of(stderr);
        if contains_str(&e, "is not a valid reference") || contains_str(&e, "unknown revision") {
            GitStashError::StashNotFound(index)
        } else {
            GitStashError::ExecutionFailed(string_from(stderr))
        }
    }
}

} // verus!
