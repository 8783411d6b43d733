//! The command bar: what an input means, breadcrumbs of a path, and the
//! input history.
use vstd::prelude::*;
use crate::text::{append_chars, chars_of, copy_chars, eq_chars, eq_str, path_names, push_char, split_exec, starts_with, starts_with_str, string_from, string_of, suffix, trim, trim_exec, views};
use crate::files_core::tabs::{path_is_absolute, path_names_exec, path_starts_at_current};

verus! {

/// Intention parsed from the command bar input.
#[derive(Debug, Clone, PartialEq, Eq)]
pub enum OmnibarIntent {
    /// Direct directory or file path navigation
    Navigation(String),
    /// Fuzzy search query (prefixed with `?`)
    Search(String),
    /// Shell command execution (prefixed with `>`)
    ShellCommand(String),
    /// Agent natural language query (prefixed with `@`)
    AgentQuery(String),
    /// Empty input
    Empty,
}

/// An intent as its variant number and text.
pub open spec fn intent_view(i: OmnibarIntent) -> (nat, Seq<char>) {
    match i {
        OmnibarIntent::Navigation(p) => (0nat, p@),
        OmnibarIntent::Search(q) => (1nat, q@),
        OmnibarIntent::ShellCommand(c) => (2nat, c@),
        OmnibarIntent::AgentQuery(q) => (3nat, q@),
        OmnibarIntent::Empty => (4nat, Seq::<char>::empty()),
    }
}

/// `PathBuf::join`: an absolute path replaces the base, otherwise a separator
/// is added unless the base is empty or already ends with one.
pub open spec fn path_join(base: Seq<char>, p: Seq<char>) -> Seq<char> {
    if p.len() > 0 && p[0] == '/' {
        p
    } else if base.len() == 0 || base.last() == '/' {
        base + p
    } else {
        base + "/"@ + p
    }
}

/// A leading `~` expanded with the home directory `home`, when there is one.
pub open spec fn expand_with_home(input: Seq<char>, home: Option<Seq<char>>) -> Seq<char> {
    if input == "~"@ {
        match home {
            Some(h) => h,
            None => "~"@,
        }
    } else if starts_with(input, "~/"@) || starts_with(input, "~\\"@) {
        match home {
            Some(h) => path_join(h, input.skip(2)),
            None => input,
        }
    } else {
        input
    }
}

/// The intent of an input, with `home` for expanding `~`.
pub open spec fn intent_of(input: Seq<char>, home: Option<Seq<char>>) -> (nat, Seq<char>) {
    let t = trim(input);
    if t.len() == 0 {
        (4nat, Seq::<char>::empty())
    } else if t[0] == '?' {
        (1nat, trim(t.drop_first()))
    } else if t[0] == '>' {
        (2nat, trim(t.drop_first()))
    } else if t[0] == '@' {
        (3nat, trim(t.drop_first()))
    } else {
        (0nat, expand_with_home(t, home))
    }
}

/// Calls `dirs::home_dir`. Where the home directory is depends on the
/// environment, so nothing is stated of the result; a path that is not valid
/// UTF-8 is converted lossily.
#[verifier::external_body]
fn home_dir() -> (r: Option<String>) {
    dirs::home_dir().map(|p| p.to_string_lossy().into_owned())
}

/// Joins `p` onto `base` as `PathBuf::join` does.
pub fn path_join_exec(base: &Vec<char>, p: &Vec<char>) -> (r: Vec<char>)
    ensures
        r@ == path_join(base@, p@),
{
    if p.len() > 0 && p[0] == '/' {
        copy_chars(p)
    } else {
        let mut r = copy_chars(base);
        if !(base.len() == 0 || base[base.len() - 1] == '/') {
            r.push('/');
        }
        let mut i: usize = 0;
        let ghost start = r@;
        while i < p.len()
            invariant
                i <= p.len(),
                r@ == start + p@.take(i as int),
            decreases p.len() - i,
        {
            r.push(p[i]);
            assert(p@.take(i + 1) == p@.take(i as int).push(p@[i as int]));
            i += 1;
        }
        assert(p@.take(p.len() as int) == p@);
        proof {
            reveal_strlit("/");
        }
        assert(r@ =~= path_join(base@, p@));
        r
    }
}

/// Expands a leading `~` with a given home directory.
pub fn expand_path_with_home(input: &str, home: Option<&str>) -> (r: String)
    ensures
        r@ == expand_with_home(input@, match home {
            Some(h) => Some(h@),
            None => None,
        }),
{
    proof {
        reveal_strlit("~");
        reveal_strlit("~/");
        reveal_strlit("~\\");
    }
    let s = chars_of(input);
    if eq_str(&s, "~") {
        match home {
            Some(h) => string_from(h),
            None => string_from("~"),
        }
    } else if starts_with_str(&s, "~/") || starts_with_str(&s, "~\\") {
        match home {
            Some(h) => {
                let hv = chars_of(h);
                let rest = suffix(&s, 2);
                let j = path_join_exec(&hv, &rest);
                string_of(&j)
            },
            None => string_from(input),
        }
    } else {
        string_from(input)
    }
}

/// Expands a leading `~` in a path to the current user's home directory.
pub fn expand_path(input: &str) -> (r: String)
    ensures
        exists|h: Option<Seq<char>>| r@ == expand_with_home(input@, h),
{
    let home = home_dir();
    let r = match &home {
        Some(h) => expand_path_with_home(input, Some(h.as_str())),
        None => expand_path_with_home(input, None),
    };
    let ghost hv: Option<Seq<char>> = match home {
        Some(h) => Some(h@),
        None => None,
    };
    assert(r@ == expand_with_home(input@, hv));
    r
}

impl OmnibarIntent {
    /// The intent of an input, with a given home directory for `~`.
    pub fn parse_with_home(input: &str, home: Option<&str>) -> (r: Self)
        ensures
            intent_view(r) == intent_of(input@, match home {
                Some(h) => Some(h@),
                None => None,
            }),
    {
        let s = chars_of(input);
        let t = trim_exec(&s);
        if t.len() == 0 {
            return OmnibarIntent::Empty;
        }
        let rest = suffix(&t, 1);
        assert(rest@ == t@.drop_first());
        if t[0] == '?' {
            OmnibarIntent::Search(string_of(&trim_exec(&rest)))
        } else if t[0] == '>' {
            OmnibarIntent::ShellCommand(string_of(&trim_exec(&rest)))
        } else if t[0] == '@' {
            OmnibarIntent::AgentQuery(string_of(&trim_exec(&rest)))
        } else {
            let ts = string_of(&t);
            OmnibarIntent::Navigation(expand_path_with_home(ts.as_str(), home))
        }
    }

    /// Parses an input string into an intent: `?query` searches, `>cmd` runs a
    /// shell command, `@prompt` asks the agent, anything else navigates.
    pub fn parse(input: &str) -> (r: Self)
        ensures
            exists|h: Option<Seq<char>>| intent_view(r) == intent_of(input@, h),
    {
        let home = home_dir();
        let r = match &home {
            Some(h) => Self::parse_with_home(input, Some(h.as_str())),
            None => Self::parse_with_home(input, None),
        };
        let ghost hv: Option<Seq<char>> = match home {
            Some(h) => Some(h@),
            None => None,
        };
        assert(intent_view(r) == intent_of(input@, hv));
        r
    }

    /// A copy of the intent.
    pub fn duplicate(&self) -> (r: Self)
        ensures
            r == *self,
    {
        match self {
            OmnibarIntent::Navigation(p) => OmnibarIntent::Navigation(p.clone()),
            OmnibarIntent::Search(q) => OmnibarIntent::Search(q.clone()),
            OmnibarIntent::ShellCommand(c) => OmnibarIntent::ShellCommand(c.clone()),
            OmnibarIntent::AgentQuery(q) => OmnibarIntent::AgentQuery(q.clone()),
            OmnibarIntent::Empty => OmnibarIntent::Empty,
        }
    }

    /// Returns `true` if the intent is a navigation.
    pub fn is_navigation(&self) -> (r: bool)
        ensures
            r == (*self is Navigation),
    {
        matches!(self, OmnibarIntent::Navigation(_))
    }

    /// Returns `true` if the intent is a search.
    pub fn is_search(&self) -> (r: bool)
        ensures
            r == (*self is Search),
    {
        matches!(self, OmnibarIntent::Search(_))
    }

    /// Returns `true` if the intent is a shell command.
    pub fn is_shell_command(&self) -> (r: bool)
        ensures
            r == (*self is ShellCommand),
    {
        matches!(self, OmnibarIntent::ShellCommand(_))
    }

    /// Returns `true` if the intent is an agent query.
    pub fn is_agent_query(&self) -> (r: bool)
        ensures
            r == (*self is AgentQuery),
    {
        matches!(self, OmnibarIntent::AgentQuery(_))
    }

    /// Returns `true` if the intent is empty.
    pub fn is_empty(&self) -> (r: bool)
        ensures
            r == (*self is Empty),
    {
        matches!(self, OmnibarIntent::Empty)
    }
}

// ------------------------------------------------------------------
// Breadcrumbs
// ------------------------------------------------------------------

/// Represents an interactive segment in a directory path breadcrumb trail.
#[derive(Debug, Clone, PartialEq, Eq)]
pub struct Breadcrumb {
    /// The display name for this path segment
    pub name: String,
    /// Path up to and including this segment
    pub path: String,
    /// Whether this segment is the root directory
    pub is_root: bool,
    /// Whether this segment is the last one
    pub is_last: bool,
}

/// The names of the components of a path (`Path::components`): the root as
/// `/`, a leading `.`, then the named parts.
pub open spec fn component_names(p: Seq<char>) -> Seq<Seq<char>> {
    if path_is_absolute(p) {
        seq!["/"@] + path_names(p)
    } else if path_starts_at_current(p) {
        seq!["."@] + path_names(p)
    } else {
        path_names(p)
    }
}

/// `PathBuf::push` of one component.
pub open spec fn push_component(buf: Seq<char>, c: Seq<char>) -> Seq<char> {
    if c == "/"@ {
        "/"@
    } else if buf.len() == 0 || buf.last() == '/' {
        buf + c
    } else {
        buf + "/"@ + c
    }
}

/// The path made of the first `k` components.
pub open spec fn crumb_path(names: Seq<Seq<char>>, k: nat) -> Seq<char>
    decreases k,
{
    if k == 0 {
        Seq::<char>::empty()
    } else {
        push_component(crumb_path(names, (k - 1) as nat), names[k - 1])
    }
}

/// Whether `crumbs` are the breadcrumbs of the path `p`.
pub open spec fn breadcrumbs_of(crumbs: Seq<Breadcrumb>, p: Seq<char>) -> bool {
    let names = component_names(p);
    &&& crumbs.len() == names.len()
    &&& forall|k: int|
        0 <= k < crumbs.len() ==> {
            &&& (#[trigger] crumbs[k]).name@ == names[k]
            &&& crumbs[k].path@ == crumb_path(names, (k + 1) as nat)
            &&& crumbs[k].is_root == (k == 0 && path_is_absolute(p))
            &&& crumbs[k].is_last == (k == crumbs.len() - 1)
        }
}

fn push_component_exec(buf: &String, c: &Vec<char>) -> (r: String)
    ensures
        r@ == push_component(buf@, c@),
{
    proof {
        reveal_strlit("/");
    }
    if eq_str(c, "/") {
        return string_from("/");
    }
    let b = chars_of(buf.as_str());
    let mut r = string_of(&b);
    if !(b.len() == 0 || b[b.len() - 1] == '/') {
        push_char(&mut r, '/');
    }
    append_chars(&mut r, c);
    assert(r@ =~= push_component(buf@, c@));
    r
}

impl Breadcrumb {
    /// The breadcrumbs of a path, one per component.
    pub fn parse(path: &str) -> (r: Vec<Breadcrumb>)
        ensures
            breadcrumbs_of(r@, path@),
    {
        proof {
            reveal_strlit("/");
            reveal_strlit(".");
        }
        let p = chars_of(path);
        let named = path_names_exec(&p);
        let mut names: Vec<Vec<char>> = Vec::new();
        let is_abs = p.len() > 0 && p[0] == '/';
        if is_abs {
            names.push(chars_of("/"));
        } else {
            let parts = split_exec(&p, '/');
            assert(views(parts@).len() == parts@.len());
            if eq_str(&parts[0], ".") {
                names.push(chars_of("."));
            }
        }
        let ghost lead = views(names@);
        let mut i: usize = 0;
        while i < named.len()
            invariant
                i <= named.len(),
                views(names@) == lead + views(named@).take(i as int),
            decreases named.len() - i,
        {
            let ghost before = names@;
            let c = copy_chars(&named[i]);
            names.push(c);
            assert(views(named@).take(i + 1) =~= views(named@).take(i as int).push(named@[i as int]@));
            assert(views(names@) =~= views(before).push(c@));
            i += 1;
        }
        assert(views(named@).take(named.len() as int) =~= views(named@));
        let ghost nv = views(names@);
        assert(nv =~= component_names(path@));
        let mut crumbs: Vec<Breadcrumb> = Vec::new();
        let mut current = String::new();
        let n = names.len();
        let mut k: usize = 0;
        while k < n
            invariant
                n == names.len(),
                nv == views(names@),
                nv == component_names(path@),
                is_abs == path_is_absolute(path@),
                k <= n,
                crumbs@.len() == k,
                current@ == crumb_path(nv, k as nat),
                forall|j: int|
                    0 <= j < k ==> {
                        &&& (#[trigger] crumbs@[j]).name@ == nv[j]
                        &&& crumbs@[j].path@ == crumb_path(nv, (j + 1) as nat)
                        &&& crumbs@[j].is_root == (j == 0 && path_is_absolute(path@))
                        &&& crumbs@[j].is_last == (j == n - 1)
                    },
            decreases n - k,
        {
            current = push_component_exec(&current, &names[k]);
            assert(names@[k as int]@ == nv[k as int]);
            crumbs.push(
                Breadcrumb {
                    name: string_of(&names[k]),
                    path: current.clone(),
                    is_root: k == 0 && is_abs,
                    is_last: k + 1 == n,
                },
            );
            k += 1;
        }
        crumbs
    }
}

/// Represents the output of a shell command run from the command bar.
#[derive(Debug, Clone, PartialEq, Eq)]
pub struct ShellOutput {
    /// Captured standard output
    pub stdout: String,
    /// Captured standard error
    pub stderr: String,
    /// Process exit status code (if available)
    pub exit_code: Option<i32>,
    /// Whether the command terminated successfully (exit status 0)
    pub success: bool,
}

// ------------------------------------------------------------------
// The command bar state
// ------------------------------------------------------------------

/// State container for the command bar.
#[derive(Debug, Clone)]
pub struct Omnibar {
    /// Active text input
    pub input: String,
    /// Current path of the active panel/tab
    pub current_path: String,
    /// History of submitted inputs
    pub history: Vec<String>,
    /// Index pointer when traversing history (`None` when typing new input)
    pub history_index: Option<usize>,
    /// Whether the input box is focused
    pub is_focused: bool,
    /// Parsed intent of `input`
    pub active_intent: OmnibarIntent,
}

/// The history position after stepping back.
pub open spec fn prev_index(len: nat, idx: Option<usize>) -> nat {
    match idx {
        None => if len > 0 { (len - 1) as nat } else { 0 },
        Some(i) => if i > 0 { (i - 1) as nat } else { 0 },
    }
}

/// The history after submitting an input whose trimmed text is `t`.
pub open spec fn history_after_submit(h: Seq<Seq<char>>, t: Seq<char>) -> Seq<Seq<char>> {
    if t.len() > 0 && !(h.len() > 0 && h.last() == t) {
        h.push(t)
    } else {
        h
    }
}

impl Omnibar {
    /// The submitted inputs, oldest first.
    pub open spec fn hist(&self) -> Seq<Seq<char>> {
        self.history@.map_values(|s: String| s@)
    }

    /// Creates a new command bar at the given working path.
    pub fn new(initial_path: &str) -> (r: Self)
        ensures
            r.input@.len() == 0,
            r.current_path@ == initial_path@,
            r.history@.len() == 0,
            r.history_index is None,
            !r.is_focused,
            r.active_intent == OmnibarIntent::Empty,
    {
        Omnibar {
            input: String::new(),
            current_path: string_from(initial_path),
            history: Vec::new(),
            history_index: None,
            is_focused: false,
            active_intent: OmnibarIntent::Empty,
        }
    }

    /// Sets the text input and updates the parsed intent.
    pub fn set_input(&mut self, input: String)
        ensures
            final(self).input == input,
            exists|h: Option<Seq<char>>| intent_view(final(self).active_intent) == intent_of(input@, h),
            final(self).history_index is None,
            final(self).history == old(self).history,
            final(self).current_path == old(self).current_path,
            final(self).is_focused == old(self).is_focused,
    {
        self.active_intent = OmnibarIntent::parse(input.as_str());
        self.input = input;
        self.history_index = None;
    }

    /// Sets the current working path for breadcrumb generation.
    pub fn set_current_path(&mut self, path: &str)
        ensures
            final(self).current_path@ == path@,
            final(self).input == old(self).input,
            final(self).history == old(self).history,
            final(self).history_index == old(self).history_index,
            final(self).is_focused == old(self).is_focused,
            final(self).active_intent == old(self).active_intent,
    {
        self.current_path = string_from(path);
    }

    /// Breadcrumbs of the navigation target being typed, else of the current path.
    pub fn breadcrumbs(&self) -> (r: Vec<Breadcrumb>)
        ensures
            breadcrumbs_of(r@, match self.active_intent {
                OmnibarIntent::Navigation(p) => p@,
                _ => self.current_path@,
            }),
    {
        match &self.active_intent {
            OmnibarIntent::Navigation(nav_path) => Breadcrumb::parse(nav_path.as_str()),
            _ => Breadcrumb::parse(self.current_path.as_str()),
        }
    }

    /// Focuses the command bar.
    pub fn focus(&mut self)
        ensures
            *final(self) == (Omnibar { is_focused: true, ..*old(self) }),
    {
        self.is_focused = true;
    }

    /// Unfocuses the command bar.
    pub fn unfocus(&mut self)
        ensures
            *final(self) == (Omnibar { is_focused: false, ..*old(self) }),
    {
        self.is_focused = false;
    }

    /// Toggles the focus state.
    pub fn toggle_focus(&mut self)
        ensures
            *final(self) == (Omnibar { is_focused: !old(self).is_focused, ..*old(self) }),
    {
        self.is_focused = !self.is_focused;
    }

    /// Clears the input field and resets the intent.
    pub fn clear(&mut self)
        ensures
            final(self).input@.len() == 0,
            final(self).active_intent == OmnibarIntent::Empty,
            final(self).history_index is None,
            final(self).history == old(self).history,
            final(self).current_path == old(self).current_path,
            final(self).is_focused == old(self).is_focused,
    {
        self.input = String::new();
        self.active_intent = OmnibarIntent::Empty;
        self.history_index = None;
    }

    /// Submits the current input: its trimmed text joins the history unless it
    /// is empty or repeats the last entry; a navigation moves the current path
    /// and clears the input. Returns the intent.
    pub fn submit(&mut self) -> (r: OmnibarIntent)
        ensures
            r == old(self).active_intent,
            final(self).hist() == history_after_submit(old(self).hist(), trim(old(self).input@)),
            final(self).history_index is None,
            final(self).is_focused == old(self).is_focused,
            old(self).active_intent matches OmnibarIntent::Navigation(t) ==> {
                &&& final(self).current_path == t
                &&& final(self).input@.len() == 0
                &&& final(self).active_intent == OmnibarIntent::Empty
            },
            !(old(self).active_intent is Navigation) ==> {
                &&& final(self).current_path == old(self).current_path
                &&& final(self).input == old(self).input
                &&& final(self).active_intent == old(self).active_intent
            },
    {
        let intent = self.active_intent.duplicate();
        let ic = chars_of(self.input.as_str());
        let tc = trim_exec(&ic);
        let ghost h0 = self.hist();
        if tc.len() > 0 {
            let n = self.history.len();
            let same_as_last = n > 0 && {
                let lc = chars_of(self.history[n - 1].as_str());
                eq_chars(&lc, &tc)
            };
            if !same_as_last {
                self.history.push(string_of(&tc));
                assert(self.hist() =~= h0.push(tc@));
            }
        }
        self.history_index = None;
        if let OmnibarIntent::Navigation(target) = &intent {
            self.current_path = target.clone();
            self.clear();
        }
        intent
    }

    /// Steps back through the history, showing the entry in the input.
    pub fn history_prev(&mut self)
        ensures
            old(self).history@.len() == 0 ==> *final(self) == *old(self),
            old(self).history@.len() > 0 ==> {
                let i = prev_index(old(self).history@.len(), old(self).history_index);
                &&& final(self).history_index == Some(i as usize)
                &&& final(self).history == old(self).history
                &&& final(self).current_path == old(self).current_path
                &&& final(self).is_focused == old(self).is_focused
                &&& (i < old(self).history@.len() ==> {
                    &&& final(self).input == old(self).history@[i as int]
                    &&& exists|h: Option<Seq<char>>|
                        intent_view(final(self).active_intent) == #[trigger] intent_of(old(self).history@[i as int]@, h)
                })
            },
    {
        if self.history.len() == 0 {
            return;
        }
        let new_index = match self.history_index {
            None => self.history.len() - 1,
            Some(idx) => if idx > 0 { idx - 1 } else { 0 },
        };
        self.history_index = Some(new_index);
        if new_index < self.history.len() {
            let entry = self.history[new_index].clone();
            self.set_input(entry);
            self.history_index = Some(new_index);
        }
    }

    /// Steps forward through the history; past the newest entry the input clears.
    pub fn history_next(&mut self)
        ensures
            (old(self).history@.len() == 0 || old(self).history_index is None) ==> *final(self)
                == *old(self),
            (old(self).history@.len() > 0 && old(self).history_index is Some) ==> {
                let i = old(self).history_index.unwrap();
                &&& final(self).history == old(self).history
                &&& final(self).is_focused == old(self).is_focused
                &&& final(self).current_path == old(self).current_path
                &&& (i + 1 < old(self).history@.len() ==> {
                    &&& final(self).history_index == Some((i + 1) as usize)
                    &&& final(self).input == old(self).history@[i + 1]
                    &&& exists|h: Option<Seq<char>>|
                        intent_view(final(self).active_intent) == #[trigger] intent_of(old(self).history@[i + 1]@, h)
                })
                &&& (i + 1 >= old(self).history@.len() ==> {
                    &&& final(self).history_index is None
                    &&& final(self).input@.len() == 0
                    &&& final(self).active_intent == OmnibarIntent::Empty
                })
            },
    {
        if self.history.len() == 0 {
            return;
        }
        if let Some(idx) = self.history_index {
            if idx < self.history.len() - 1 {
                let new_index = idx + 1;
                self.history_index = Some(new_index);
                let entry = self.history[new_index].clone();
                self.set_input(entry);
                self.history_index = Some(new_index);
            } else {
                self.clear();
            }
        }
    }
}

/// Stepping back from a fresh input shows the newest entry, and stepping
/// forward from the newest entry clears the input.
pub proof fn law_history_prev_shows_newest(len: nat)
    requires
        len > 0,
    ensures
        prev_index(len, None) == len - 1,
        !(prev_index(len, None) + 1 < len),
{
}

/// Submitting a non-empty input makes it the newest history entry.
pub proof fn law_submit_records_input(h: Seq<Seq<char>>, t: Seq<char>)
    requires
        t.len() > 0,
    ensures
        history_after_submit(h, t).last() == t,
        history_after_submit(h, t).len() > 0,
        history_after_submit(history_after_submit(h, t), t) == history_after_submit(h, t),
{
}

} // verus!
