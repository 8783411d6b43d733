//! Tabs with navigation history, and the identifiers of panes and layouts.
use vstd::prelude::*;
use crate::text::{append_str, chars_of, copy_chars, eq_chars, eq_str, file_name, file_name_exec, path_names, split, split_exec, string_from, string_of, views};

verus! {

/// Unique identifier for a tab.
#[derive(Debug, Clone, Copy, PartialEq, Eq, Structural, Hash)]
pub struct TabId(pub u64);

/// Classification of tab content type.
#[derive(Debug, Clone, PartialEq, Eq)]
pub enum TabKind {
    /// Standard file browsing tab.
    Standard,
    /// Git changes and diff viewer tab.
    Git,
    /// Preview tab.
    Preview,
    /// Search results tab.
    Search,
    /// Custom extension tab.
    Custom(String),
}

impl Default for TabKind {
    fn default() -> (r: Self)
        ensures
            r == TabKind::Standard,
    {
        TabKind::Standard
    }
}

/// Identifies the active pane in a dual-pane layout.
#[derive(Debug, Clone, Copy, PartialEq, Eq, Structural, Hash)]
pub enum PaneId {
    Left,
    Right,
}

impl Default for PaneId {
    fn default() -> (r: Self)
        ensures
            r == PaneId::Left,
    {
        PaneId::Left
    }
}

/// Defines the layout mode of the dual-pane system.
#[derive(Debug, Clone, Copy, PartialEq, Eq, Structural)]
pub enum DualPaneLayout {
    /// Single pane mode (only the left pane visible).
    Single,
    /// Dual pane split side by side.
    SplitHorizontal,
    /// Dual pane split top and bottom.
    SplitVertical,
}

impl Default for DualPaneLayout {
    fn default() -> (r: Self)
        ensures
            r == DualPaneLayout::Single,
    {
        DualPaneLayout::Single
    }
}

/// Events emitted during tab and pane state operations.
#[derive(Debug, Clone, PartialEq, Eq)]
pub enum TabEvent {
    Opened { pane_id: PaneId, tab_id: TabId, path: String },
    Closed { pane_id: PaneId, tab_id: TabId },
    Switched { pane_id: PaneId, active_tab_id: TabId },
    Navigated { pane_id: PaneId, tab_id: TabId, path: String },
    PinnedChanged { pane_id: PaneId, tab_id: TabId, is_pinned: bool },
    PaneLayoutChanged { layout: DualPaneLayout },
    ActivePaneChanged { active_pane: PaneId },
    PanesSwapped,
}

// ------------------------------------------------------------------
// Paths as `Path` compares them
// ------------------------------------------------------------------

/// Whether the path is absolute.
pub open spec fn path_is_absolute(p: Seq<char>) -> bool {
    p.len() > 0 && p[0] == '/'
}

/// Whether the path starts with a `.` component (kept by `Path::components`).
pub open spec fn path_starts_at_current(p: Seq<char>) -> bool {
    !path_is_absolute(p) && split(p, '/')[0] == "."@
}

/// `Path` equality: the same components (repeated and trailing separators
/// and inner `.` components do not count).
pub open spec fn same_path(a: Seq<char>, b: Seq<char>) -> bool {
    &&& path_is_absolute(a) == path_is_absolute(b)
    &&& path_starts_at_current(a) == path_starts_at_current(b)
    &&& path_names(a) == path_names(b)
}

/// The named components of a path.
pub fn path_names_exec(p: &Vec<char>) -> (r: Vec<Vec<char>>)
    ensures
        views(r@) == path_names(p@),
{
    let parts = split_exec(p, '/');
    let ghost pv = views(parts@);
    let mut out: Vec<Vec<char>> = Vec::new();
    let mut i: usize = 0;
    while i < parts.len()
        invariant
            i <= parts.len(),
            pv == views(parts@),
            views(out@) == pv.take(i as int).filter(|x: Seq<char>| x.len() > 0 && x != "."@),
        decreases parts.len() - i,
    {
        proof {
            reveal_with_fuel(Seq::<_>::filter, 1);
        }
        assert(pv.take(i + 1).drop_last() == pv.take(i as int));
        assert(pv.take(i + 1).last() == parts@[i as int]@);
        if parts[i].len() > 0 && !eq_str(&parts[i], ".") {
            out.push(copy_chars(&parts[i]));
            assert(views(out@) =~= views(out@.drop_last()).push(out@.last()@));
        } else {
            assert(views(out@) == pv.take(i + 1).filter(|x: Seq<char>| x.len() > 0 && x != "."@));
        }
        i += 1;
    }
    assert(pv.take(parts.len() as int) == pv);
    out
}

/// Equality of two lists of names.
fn eq_name_lists(a: &Vec<Vec<char>>, b: &Vec<Vec<char>>) -> (r: bool)
    ensures
        r == (views(a@) == views(b@)),
{
    if a.len() != b.len() {
        assert(views(a@).len() != views(b@).len());
        return false;
    }
    let mut i: usize = 0;
    while i < a.len()
        invariant
            i <= a.len() == b.len(),
            forall|k: int| 0 <= k < i ==> a@[k]@ == b@[k]@,
        decreases a.len() - i,
    {
        if !eq_chars(&a[i], &b[i]) {
            assert(views(a@)[i as int] != views(b@)[i as int]);
            return false;
        }
        i += 1;
    }
    assert(views(a@) =~= views(b@));
    true
}

/// `Path` equality of two paths.
pub fn same_path_exec(a: &str, b: &str) -> (r: bool)
    ensures
        r == same_path(a@, b@),
{
    let av = chars_of(a);
    let bv = chars_of(b);
    let a_abs = av.len() > 0 && av[0] == '/';
    let b_abs = bv.len() > 0 && bv[0] == '/';
    if a_abs != b_abs {
        return false;
    }
    let a_parts = split_exec(&av, '/');
    let b_parts = split_exec(&bv, '/');
    assert(views(a_parts@).len() == a_parts@.len());
    assert(views(b_parts@).len() == b_parts@.len());
    let a_cur = !a_abs && eq_str(&a_parts[0], ".");
    let b_cur = !b_abs && eq_str(&b_parts[0], ".");
    if a_cur != b_cur {
        return false;
    }
    let an = path_names_exec(&av);
    let bn = path_names_exec(&bv);
    eq_name_lists(&an, &bn)
}

// ------------------------------------------------------------------
// Tabs
// ------------------------------------------------------------------

/// The title shown for a path: its file name, or the whole path when it has none.
pub open spec fn title_of(p: Seq<char>) -> Seq<char> {
    match file_name(p) {
        Some(n) => if n.len() > 0 { n } else { p },
        None => p,
    }
}

/// History after navigating from index `i` to `p`: forward entries are dropped.
pub open spec fn history_after_navigate(h: Seq<Seq<char>>, i: int, p: Seq<char>) -> Seq<Seq<char>> {
    h.take(i + 1).push(p)
}

/// History index after going back.
pub open spec fn index_after_back(i: nat) -> nat {
    if i > 0 { (i - 1) as nat } else { i }
}

/// History index after going forward in a history of `len` entries.
pub open spec fn index_after_forward(len: nat, i: nat) -> nat {
    if i + 1 < len { i + 1 } else { i }
}

/// Going forward right after going back returns to the same history entry.
pub proof fn law_forward_undoes_back(len: nat, i: nat)
    requires
        0 < i < len,
    ensures
        index_after_forward(len, index_after_back(i)) == i,
{
}

/// Going back right after going forward returns to the same history entry.
pub proof fn law_back_undoes_forward(len: nat, i: nat)
    requires
        i + 1 < len,
    ensures
        index_after_back(index_after_forward(len, i)) == i,
{
}

/// After navigating to a new path, going back lands on the entry that was current
/// before, and nothing lies ahead of the new entry.
pub proof fn law_back_after_navigate(h: Seq<Seq<char>>, i: nat, p: Seq<char>)
    requires
        i < h.len(),
    ensures
        history_after_navigate(h, i as int, p).len() == i + 2,
        history_after_navigate(h, i as int, p)[index_after_back(i + 1) as int] == h[i as int],
        index_after_forward(history_after_navigate(h, i as int, p).len(), i + 1) == i + 1,
        history_after_navigate(h, i as int, p).take(i as int + 1) == h.take(i as int + 1),
{
    assert(history_after_navigate(h, i as int, p).take(i as int + 1) =~= h.take(i as int + 1));
}

/// Represents an individual tab with navigation history and metadata.
#[derive(Debug, Clone, PartialEq, Eq)]
pub struct Tab {
    pub id: TabId,
    pub title: String,
    pub path: String,
    pub history: Vec<String>,
    pub history_index: usize,
    pub is_pinned: bool,
    pub icon: Option<String>,
    pub kind: TabKind,
}

impl Tab {
    /// The visited paths, oldest first.
    pub open spec fn hist(&self) -> Seq<Seq<char>> {
        self.history@.map_values(|s: String| s@)
    }

    /// The history index points into the history, at the current path.
    pub open spec fn wf(&self) -> bool {
        &&& self.history_index < self.history.len()
        &&& self.hist()[self.history_index as int] == self.path@
    }

    /// Creates a new tab at the given path.
    pub fn new(id: TabId, path: &str) -> (t: Self)
        ensures
            t.wf(),
            t.id == id,
            t.path@ == path@,
            t.title@ == title_of(path@),
            t.hist() == seq![path@],
            t.history_index == 0,
            !t.is_pinned,
            t.icon is None,
            t.kind == TabKind::Standard,
    {
        Self::with_kind(id, path, TabKind::Standard)
    }

    /// Creates a new tab with a specific `TabKind`.
    pub fn with_kind(id: TabId, path: &str, kind: TabKind) -> (t: Self)
        ensures
            t.wf(),
            t.id == id,
            t.path@ == path@,
            t.title@ == title_of(path@),
            t.hist() == seq![path@],
            t.history_index == 0,
            !t.is_pinned,
            t.icon is None,
            t.kind == kind,
    {
        let title = Self::derive_title_from_path(path);
        let mut history: Vec<String> = Vec::new();
        history.push(string_from(path));
        let t = Tab {
            id,
            title,
            path: string_from(path),
            history,
            history_index: 0,
            is_pinned: false,
            icon: None,
            kind,
        };
        assert(t.hist() =~= seq![path@]);
        t
    }

    /// Derives a display title from a path.
    pub fn derive_title_from_path(path: &str) -> (r: String)
        ensures
            r@ == title_of(path@),
    {
        let p = chars_of(path);
        match file_name_exec(&p) {
            Some(n) => {
                if n.len() > 0 {
                    string_of(&n)
                } else {
                    string_from(path)
                }
            },
            None => string_from(path),
        }
    }

    /// Navigates the tab to a new path, dropping any forward history.
    pub fn navigate_to(&mut self, new_path: &str)
        requires
            old(self).wf(),
        ensures
            final(self).wf(),
            same_path(old(self).path@, new_path@) ==> *final(self) == *old(self),
            !same_path(old(self).path@, new_path@) ==> {
                &&& final(self).hist() == history_after_navigate(
                    old(self).hist(),
                    old(self).history_index as int,
                    new_path@,
                )
                &&& final(self).history_index == old(self).history_index + 1
                &&& final(self).path@ == new_path@
                &&& final(self).title@ == title_of(new_path@)
                &&& final(self).id == old(self).id
                &&& final(self).is_pinned == old(self).is_pinned
                &&& final(self).icon == old(self).icon
                &&& final(self).kind == old(self).kind
            },
    {
        if same_path_exec(self.path.as_str(), new_path) {
            return;
        }
        let ghost h0 = self.hist();
        if self.history_index + 1 < self.history.len() {
            self.history.truncate(self.history_index + 1);
        }
        assert(self.hist() =~= h0.take(old(self).history_index + 1));
        self.history.push(string_from(new_path));
        assert(self.hist() =~= history_after_navigate(h0, old(self).history_index as int, new_path@));
        self.history_index = self.history.len() - 1;
        self.path = string_from(new_path);
        self.title = Self::derive_title_from_path(new_path);
    }

    /// Returns `true` if back navigation is possible.
    pub fn can_go_back(&self) -> (r: bool)
        ensures
            r == (self.history_index > 0),
    {
        self.history_index > 0
    }

    /// Navigates back in history if possible, returning the new path.
    pub fn go_back(&mut self) -> (r: Option<String>)
        requires
            old(self).wf(),
        ensures
            final(self).wf(),
            final(self).hist() == old(self).hist(),
            final(self).id == old(self).id,
            final(self).is_pinned == old(self).is_pinned,
            final(self).icon == old(self).icon,
            final(self).kind == old(self).kind,
            final(self).history_index == index_after_back(old(self).history_index as nat),
            old(self).history_index == 0 ==> r is None && *final(self) == *old(self),
            old(self).history_index > 0 ==> {
                &&& final(self).history_index == old(self).history_index - 1
                &&& final(self).path@ == old(self).hist()[old(self).history_index - 1]
                &&& final(self).title@ == title_of(final(self).path@)
                &&& r matches Some(p) && p@ == final(self).path@
            },
    {
        if self.can_go_back() {
            self.history_index -= 1;
            self.path = self.history[self.history_index].clone();
            self.title = Self::derive_title_from_path(self.path.as_str());
            Some(self.path.clone())
        } else {
            None
        }
    }

    /// Returns `true` if forward navigation is possible.
    pub fn can_go_forward(&self) -> (r: bool)
        requires
            self.wf(),
        ensures
            r == (self.history_index + 1 < self.history.len()),
    {
        self.history_index + 1 < self.history.len()
    }

    /// Navigates forward in history if possible, returning the new path.
    pub fn go_forward(&mut self) -> (r: Option<String>)
        requires
            old(self).wf(),
        ensures
            final(self).wf(),
            final(self).hist() == old(self).hist(),
            final(self).id == old(self).id,
            final(self).is_pinned == old(self).is_pinned,
            final(self).icon == old(self).icon,
            final(self).kind == old(self).kind,
            final(self).history_index == index_after_forward(
                old(self).history.len() as nat,
                old(self).history_index as nat,
            ),
            old(self).history_index + 1 >= old(self).history.len() ==> r is None && *final(self)
                == *old(self),
            old(self).history_index + 1 < old(self).history.len() ==> {
                &&& final(self).history_index == old(self).history_index + 1
                &&& final(self).path@ == old(self).hist()[old(self).history_index + 1]
                &&& final(self).title@ == title_of(final(self).path@)
                &&& r matches Some(p) && p@ == final(self).path@
            },
    {
        if self.can_go_forward() {
            self.history_index += 1;
            self.path = self.history[self.history_index].clone();
            self.title = Self::derive_title_from_path(self.path.as_str());
            Some(self.path.clone())
        } else {
            None
        }
    }

    /// Sets a custom title for the tab.
    pub fn set_title(&mut self, title: String)
        ensures
            final(self).title == title,
            final(self).id == old(self).id,
            final(self).path == old(self).path,
            final(self).history == old(self).history,
            final(self).history_index == old(self).history_index,
            final(self).is_pinned == old(self).is_pinned,
            final(self).icon == old(self).icon,
            final(self).kind == old(self).kind,
    {
        self.title = title;
    }
}

// ------------------------------------------------------------------
// Tab manager
// ------------------------------------------------------------------

/// The first index at or after `i` of a tab with id `id`.
pub open spec fn first_from(tabs: Seq<Tab>, id: TabId, i: int) -> Option<int>
    decreases tabs.len() - i,
{
    if i < 0 || i >= tabs.len() {
        None
    } else if tabs[i].id == id {
        Some(i)
    } else {
        first_from(tabs, id, i + 1)
    }
}

/// The index of the first tab with id `id`.
pub open spec fn position_of(tabs: Seq<Tab>, id: TabId) -> Option<int> {
    first_from(tabs, id, 0)
}

/// No two tabs share an id.
pub open spec fn ids_unique(tabs: Seq<Tab>) -> bool {
    forall|i: int, j: int| 0 <= i < tabs.len() && 0 <= j < tabs.len() && i != j ==> #[trigger] tabs[i].id != #[trigger] tabs[j].id
}

/// A tab as `Tab::with_kind` makes it.
pub open spec fn is_new_tab(t: Tab, id: TabId, path: Seq<char>, kind: TabKind) -> bool {
    &&& t.wf()
    &&& t.id == id
    &&& t.path@ == path
    &&& t.title@ == title_of(path)
    &&& t.hist() == seq![path]
    &&& t.history_index == 0
    &&& !t.is_pinned
    &&& t.icon is None
    &&& t.kind == kind
}

/// The event log after an operation that emits `added`: the events are kept
/// only while events are enabled.
pub open spec fn logged(before: Seq<TabEvent>, after: Seq<TabEvent>, on: bool, added: Seq<TabEvent>) -> bool {
    if on { after == before + added } else { after == before }
}

/// The active index after closing the tab at `index`, with `new_len` tabs left.
pub open spec fn active_after_close(active: nat, index: nat, new_len: nat) -> nat {
    if new_len == 0 {
        0
    } else if active > index || active >= new_len {
        if active > 0 { (active - 1) as nat } else { 0 }
    } else {
        active
    }
}

proof fn lemma_first_from_some(tabs: Seq<Tab>, id: TabId, i: int)
    ensures
        first_from(tabs, id, i) matches Some(p) ==> i <= p < tabs.len() && tabs[p].id == id,
    decreases tabs.len() - i,
{
    if 0 <= i < tabs.len() && tabs[i].id != id {
        lemma_first_from_some(tabs, id, i + 1);
    }
}

proof fn lemma_first_from_found(tabs: Seq<Tab>, id: TabId, i: int, k: int)
    requires
        0 <= i <= k < tabs.len(),
        tabs[k].id == id,
    ensures
        first_from(tabs, id, i) matches Some(p) && i <= p <= k && tabs[p].id == id,
    decreases k - i,
{
    if tabs[i].id != id {
        lemma_first_from_found(tabs, id, i + 1, k);
    }
}

proof fn lemma_first_from_unique(tabs: Seq<Tab>, id: TabId, i: int, k: int)
    requires
        0 <= i <= k < tabs.len(),
        tabs[k].id == id,
        ids_unique(tabs),
    ensures
        first_from(tabs, id, i) == Some(k),
    decreases k - i,
{
    if i < k {
        assert(tabs[i].id != tabs[k].id);
        lemma_first_from_unique(tabs, id, i + 1, k);
    }
}

proof fn lemma_unique_remove(s: Seq<Tab>, k: int, n: u64)
    requires
        0 <= k < s.len(),
        ids_unique(s),
        forall|i: int| 0 <= i < s.len() ==> (#[trigger] s[i]).id.0 < n,
    ensures
        ids_unique(s.remove(k)),
        forall|i: int| 0 <= i < s.remove(k).len() ==> (#[trigger] s.remove(k)[i]).id.0 < n,
{
    let r = s.remove(k);
    assert forall|i: int, j: int| 0 <= i < r.len() && 0 <= j < r.len() && i != j implies #[trigger] r[i].id != #[trigger] r[j].id by {
        let oi = if i < k { i } else { i + 1 };
        let oj = if j < k { j } else { j + 1 };
        assert(r[i] == s[oi]);
        assert(r[j] == s[oj]);
    }
    assert forall|i: int| 0 <= i < r.len() implies (#[trigger] r[i]).id.0 < n by {
        let oi = if i < k { i } else { i + 1 };
        assert(r[i] == s[oi]);
    }
}

proof fn lemma_unique_insert(s: Seq<Tab>, k: int, x: Tab, n: u64)
    requires
        0 <= k <= s.len(),
        ids_unique(s),
        forall|i: int| 0 <= i < s.len() ==> (#[trigger] s[i]).id != x.id,
        forall|i: int| 0 <= i < s.len() ==> (#[trigger] s[i]).id.0 < n,
        x.id.0 < n,
    ensures
        ids_unique(s.insert(k, x)),
        forall|i: int| 0 <= i < s.insert(k, x).len() ==> (#[trigger] s.insert(k, x)[i]).id.0 < n,
{
    let r = s.insert(k, x);
    assert forall|i: int, j: int| 0 <= i < r.len() && 0 <= j < r.len() && i != j implies #[trigger] r[i].id != #[trigger] r[j].id by {
        if i != k && j != k {
            let oi = if i < k { i } else { i - 1 };
            let oj = if j < k { j } else { j - 1 };
            assert(r[i] == s[oi]);
            assert(r[j] == s[oj]);
        } else if i == k {
            let oj = if j < k { j } else { j - 1 };
            assert(r[j] == s[oj]);
        } else {
            let oi = if i < k { i } else { i - 1 };
            assert(r[i] == s[oi]);
        }
    }
    assert forall|i: int| 0 <= i < r.len() implies (#[trigger] r[i]).id.0 < n by {
        if i != k {
            let oi = if i < k { i } else { i - 1 };
            assert(r[i] == s[oi]);
        }
    }
}

/// A copy of a tab kind.
fn copy_kind(k: &TabKind) -> (r: TabKind)
    ensures
        r == *k,
{
    match k {
        TabKind::Standard => TabKind::Standard,
        TabKind::Git => TabKind::Git,
        TabKind::Preview => TabKind::Preview,
        TabKind::Search => TabKind::Search,
        TabKind::Custom(s) => TabKind::Custom(s.clone()),
    }
}

/// Tab ordering, switching and operations within a single pane.
///
/// Each state change is also recorded as a `TabEvent` once events are
/// enabled; `take_events` hands the recorded events out.
#[derive(Debug, Clone)]
pub struct TabManager {
    pub pane_id: PaneId,
    tabs: Vec<Tab>,
    active_index: usize,
    next_id: u64,
    events_enabled: bool,
    events: Vec<TabEvent>,
}

impl TabManager {
    pub closed spec fn pane(&self) -> PaneId {
        self.pane_id
    }

    /// The tabs, in display order.
    pub closed spec fn tab_seq(&self) -> Seq<Tab> {
        self.tabs@
    }

    /// Index of the active tab.
    pub closed spec fn active(&self) -> nat {
        self.active_index as nat
    }

    /// The id the next opened tab gets.
    pub closed spec fn next(&self) -> u64 {
        self.next_id
    }

    pub closed spec fn events_on(&self) -> bool {
        self.events_enabled
    }

    /// The events recorded and not yet taken.
    pub closed spec fn event_log(&self) -> Seq<TabEvent> {
        self.events@
    }

    /// The active index points at a tab (or is 0 with no tabs), every tab's
    /// history is consistent, and tab ids are unique and below the next id.
    pub open spec fn wf(&self) -> bool {
        &&& (self.tab_seq().len() == 0 ==> self.active() == 0)
        &&& (self.tab_seq().len() > 0 ==> self.active() < self.tab_seq().len())
        &&& forall|i: int| 0 <= i < self.tab_seq().len() ==> (#[trigger] self.tab_seq()[i]).wf()
        &&& forall|i: int| 0 <= i < self.tab_seq().len() ==> (#[trigger] self.tab_seq()[i]).id.0 < self.next()
        &&& ids_unique(self.tab_seq())
    }

    /// Everything but the tabs, the active index and the log is unchanged.
    pub open spec fn same_config(&self, other: &Self) -> bool {
        &&& self.pane() == other.pane()
        &&& self.events_on() == other.events_on()
    }

    /// A manager with one tab, at `initial_path`.
    pub fn new(pane_id: PaneId, initial_path: &str) -> (r: Self)
        ensures
            r.wf(),
            r.pane() == pane_id,
            r.tab_seq().len() == 1,
            is_new_tab(r.tab_seq()[0], TabId(1), initial_path@, TabKind::Standard),
            r.active() == 0,
            r.next() == 2,
            !r.events_on(),
            r.event_log().len() == 0,
    {
        let first_tab = Tab::new(TabId(1), initial_path);
        let mut tabs: Vec<Tab> = Vec::new();
        tabs.push(first_tab);
        TabManager {
            pane_id,
            tabs,
            active_index: 0,
            next_id: 2,
            events_enabled: false,
            events: Vec::new(),
        }
    }

    /// Starts recording events.
    pub fn enable_events(&mut self)
        ensures
            final(self).events_on(),
            final(self).pane() == old(self).pane(),
            final(self).tab_seq() == old(self).tab_seq(),
            final(self).active() == old(self).active(),
            final(self).next() == old(self).next(),
            final(self).event_log() == old(self).event_log(),
    {
        self.events_enabled = true;
    }

    /// Hands out the recorded events, oldest first, and clears the log.
    pub fn take_events(&mut self) -> (r: Vec<TabEvent>)
        ensures
            r@ == old(self).event_log(),
            final(self).event_log().len() == 0,
            final(self).same_config(old(self)),
            final(self).tab_seq() == old(self).tab_seq(),
            final(self).active() == old(self).active(),
            final(self).next() == old(self).next(),
    {
        let mut out: Vec<TabEvent> = Vec::new();
        std::mem::swap(&mut out, &mut self.events);
        out
    }

    fn notify(&mut self, event: TabEvent)
        ensures
            logged(old(self).event_log(), final(self).event_log(), old(self).events_on(), seq![event]),
            final(self).same_config(old(self)),
            final(self).tab_seq() == old(self).tab_seq(),
            final(self).active() == old(self).active(),
            final(self).next() == old(self).next(),
    {
        if self.events_enabled {
            let ghost e = event;
            self.events.push(event);
            assert(self.events@ =~= old(self).events@ + seq![e]);
        }
    }

    /// The tabs, in display order.
    pub fn tabs(&self) -> (r: &[Tab])
        ensures
            r@ == self.tab_seq(),
    {
        self.tabs.as_slice()
    }

    pub fn active_index(&self) -> (r: usize)
        ensures
            r == self.active(),
    {
        self.active_index
    }

    pub fn len(&self) -> (r: usize)
        ensures
            r == self.tab_seq().len(),
    {
        self.tabs.len()
    }

    pub fn is_empty(&self) -> (r: bool)
        ensures
            r == (self.tab_seq().len() == 0),
    {
        self.tabs.len() == 0
    }

    /// The active tab, if there is one.
    pub fn active_tab(&self) -> (r: Option<&Tab>)
        ensures
            r == (if self.active() < self.tab_seq().len() {
                Some(&self.tab_seq()[self.active() as int])
            } else {
                None
            }),
    {
        if self.active_index < self.tabs.len() {
            Some(&self.tabs[self.active_index])
        } else {
            None
        }
    }

    /// The index of the tab with id `id`.
    pub fn position(&self, id: TabId) -> (r: Option<usize>)
        ensures
            match (r, position_of(self.tab_seq(), id)) {
                (Some(a), Some(b)) => a == b,
                (None, None) => true,
                _ => false,
            },
    {
        let mut i: usize = 0;
        while i < self.tabs.len()
            invariant
                i <= self.tabs.len(),
                first_from(self.tabs@, id, 0) == first_from(self.tabs@, id, i as int),
            decreases self.tabs.len() - i,
        {
            if self.tabs[i].id == id {
                return Some(i);
            }
            i += 1;
        }
        None
    }

    /// Opens a tab at `path` right after the active one and activates it.
    pub fn open_tab(&mut self, path: &str) -> (r: TabId)
        requires
            old(self).wf(),
            old(self).next() < u64::MAX,
        ensures
            final(self).wf(),
            ({
                let i: int = if old(self).tab_seq().len() == 0 { 0 } else { old(self).active() + 1 as int };
                &&& r == TabId(old(self).next())
                &&& final(self).next() == old(self).next() + 1
                &&& final(self).tab_seq() == old(self).tab_seq().insert(i, final(self).tab_seq()[i])
                &&& is_new_tab(final(self).tab_seq()[i], r, path@, TabKind::Standard)
                &&& final(self).active() == i
                &&& logged(old(self).event_log(), final(self).event_log(), old(self).events_on(), seq![
                    TabEvent::Opened { pane_id: old(self).pane(), tab_id: r, path: final(self).tab_seq()[i].path },
                    TabEvent::Switched { pane_id: old(self).pane(), active_tab_id: r },
                ])
            }),
            final(self).same_config(old(self)),
    {
        let insert_index = if self.tabs.len() == 0 { 0 } else { self.active_index + 1 };
        self.open_tab_at(path, insert_index)
    }

    /// Opens a tab at `path` at `index` (at most the end) and activates it.
    pub fn open_tab_at(&mut self, path: &str, index: usize) -> (r: TabId)
        requires
            old(self).wf(),
            old(self).next() < u64::MAX,
        ensures
            final(self).wf(),
            ({
                let i = if index < old(self).tab_seq().len() { index as int } else { old(self).tab_seq().len() as int };
                &&& r == TabId(old(self).next())
                &&& final(self).next() == old(self).next() + 1
                &&& final(self).tab_seq() == old(self).tab_seq().insert(i, final(self).tab_seq()[i])
                &&& is_new_tab(final(self).tab_seq()[i], r, path@, TabKind::Standard)
                &&& final(self).active() == i
                &&& logged(old(self).event_log(), final(self).event_log(), old(self).events_on(), seq![
                    TabEvent::Opened { pane_id: old(self).pane(), tab_id: r, path: final(self).tab_seq()[i].path },
                    TabEvent::Switched { pane_id: old(self).pane(), active_tab_id: r },
                ])
            }),
            final(self).same_config(old(self)),
    {
        let id = TabId(self.next_id);
        self.next_id = self.next_id + 1;
        let new_tab = Tab::new(id, path);
        let ev_path = new_tab.path.clone();
        let clamped = if index < self.tabs.len() { index } else { self.tabs.len() };
        proof {
            lemma_unique_insert(self.tabs@, clamped as int, new_tab, self.next_id);
        }
        self.tabs.insert(clamped, new_tab);
        self.active_index = clamped;
        let ghost log0 = self.events@;
        self.notify(TabEvent::Opened { pane_id: self.pane_id, tab_id: id, path: ev_path });
        self.notify(TabEvent::Switched { pane_id: self.pane_id, active_tab_id: id });
        proof {
            if self.events_enabled {
                assert(self.events@ =~= log0 + seq![
                    TabEvent::Opened { pane_id: self.pane_id, tab_id: id, path: ev_path },
                    TabEvent::Switched { pane_id: self.pane_id, active_tab_id: id },
                ]);
            }
        }
        id
    }
}

impl TabManager {
    /// Closes the tab at `index` and returns it; the active index stays on
    /// the same tab, or moves left when that tab was the active one at the end.
    pub fn close_tab_at(&mut self, index: usize) -> (r: Option<Tab>)
        requires
            old(self).wf(),
        ensures
            final(self).wf(),
            final(self).same_config(old(self)),
            final(self).next() == old(self).next(),
            index >= old(self).tab_seq().len() ==> r is None && final(self).tab_seq() == old(self).tab_seq()
                && final(self).active() == old(self).active() && final(self).event_log() == old(self).event_log(),
            index < old(self).tab_seq().len() ==> {
                let t = old(self).tab_seq()[index as int];
                let rest = old(self).tab_seq().remove(index as int);
                let a = active_after_close(old(self).active(), index as nat, rest.len());
                &&& r == Some(t)
                &&& final(self).tab_seq() == rest
                &&& final(self).active() == a
                &&& logged(old(self).event_log(), final(self).event_log(), old(self).events_on(),
                    if rest.len() == 0 {
                        seq![TabEvent::Closed { pane_id: old(self).pane(), tab_id: t.id }]
                    } else {
                        seq![
                            TabEvent::Closed { pane_id: old(self).pane(), tab_id: t.id },
                            TabEvent::Switched { pane_id: old(self).pane(), active_tab_id: rest[a as int].id },
                        ]
                    })
            },
    {
        if index >= self.tabs.len() {
            return None;
        }
        proof {
            lemma_unique_remove(self.tabs@, index as int, self.next_id);
        }
        let closed = self.tabs.remove(index);
        let closed_id = closed.id;
        let ghost log0 = self.events@;
        self.notify(TabEvent::Closed { pane_id: self.pane_id, tab_id: closed_id });
        if self.tabs.len() == 0 {
            self.active_index = 0;
        } else {
            if self.active_index > index || self.active_index >= self.tabs.len() {
                self.active_index = if self.active_index > 0 { self.active_index - 1 } else { 0 };
            }
            let active_id = self.tabs[self.active_index].id;
            self.notify(TabEvent::Switched { pane_id: self.pane_id, active_tab_id: active_id });
            proof {
                if self.events_enabled {
                    assert(self.events@ =~= log0 + seq![
                        TabEvent::Closed { pane_id: self.pane_id, tab_id: closed_id },
                        TabEvent::Switched { pane_id: self.pane_id, active_tab_id: active_id },
                    ]);
                }
            }
        }
        Some(closed)
    }

    /// Closes the tab with id `id`, if there is one.
    pub fn close_tab(&mut self, id: TabId) -> (r: Option<Tab>)
        requires
            old(self).wf(),
        ensures
            final(self).wf(),
            final(self).same_config(old(self)),
            final(self).next() == old(self).next(),
            position_of(old(self).tab_seq(), id) is None ==> r is None && final(self).tab_seq() == old(self).tab_seq()
                && final(self).active() == old(self).active() && final(self).event_log() == old(self).event_log(),
            position_of(old(self).tab_seq(), id) matches Some(p) ==> {
                let t = old(self).tab_seq()[p];
                let rest = old(self).tab_seq().remove(p);
                let a = active_after_close(old(self).active(), p as nat, rest.len());
                &&& r == Some(t)
                &&& t.id == id
                &&& final(self).tab_seq() == rest
                &&& final(self).active() == a
                &&& logged(old(self).event_log(), final(self).event_log(), old(self).events_on(),
                    if rest.len() == 0 {
                        seq![TabEvent::Closed { pane_id: old(self).pane(), tab_id: t.id }]
                    } else {
                        seq![
                            TabEvent::Closed { pane_id: old(self).pane(), tab_id: t.id },
                            TabEvent::Switched { pane_id: old(self).pane(), active_tab_id: rest[a as int].id },
                        ]
                    })
            },
    {
        match self.position(id) {
            Some(pos) => {
                proof {
                    lemma_first_from_some(self.tabs@, id, 0);
                }
                self.close_tab_at(pos)
            },
            None => None,
        }
    }

    /// Selects the tab at `index`, if there is one.
    pub fn select_tab_at(&mut self, index: usize) -> (r: bool)
        requires
            old(self).wf(),
        ensures
            final(self).wf(),
            final(self).same_config(old(self)),
            final(self).next() == old(self).next(),
            final(self).tab_seq() == old(self).tab_seq(),
            r == (index < old(self).tab_seq().len()),
            r ==> final(self).active() == index && logged(old(self).event_log(), final(self).event_log(),
                old(self).events_on(), seq![
                TabEvent::Switched { pane_id: old(self).pane(), active_tab_id: old(self).tab_seq()[index as int].id },
            ]),
            !r ==> final(self).active() == old(self).active() && final(self).event_log() == old(self).event_log(),
    {
        if index < self.tabs.len() {
            self.active_index = index;
            let active_id = self.tabs[index].id;
            self.notify(TabEvent::Switched { pane_id: self.pane_id, active_tab_id: active_id });
            true
        } else {
            false
        }
    }

    /// Selects the tab with id `id`, if there is one.
    pub fn select_tab(&mut self, id: TabId) -> (r: bool)
        requires
            old(self).wf(),
        ensures
            final(self).wf(),
            final(self).same_config(old(self)),
            final(self).next() == old(self).next(),
            final(self).tab_seq() == old(self).tab_seq(),
            r == position_of(old(self).tab_seq(), id) is Some,
            position_of(old(self).tab_seq(), id) matches Some(p) ==> final(self).active() == p && logged(
                old(self).event_log(), final(self).event_log(), old(self).events_on(), seq![
                TabEvent::Switched { pane_id: old(self).pane(), active_tab_id: id },
            ]),
            !r ==> final(self).active() == old(self).active() && final(self).event_log() == old(self).event_log(),
    {
        match self.position(id) {
            Some(pos) => {
                proof {
                    lemma_first_from_some(self.tabs@, id, 0);
                }
                self.select_tab_at(pos)
            },
            None => false,
        }
    }

    /// Selects the next tab, wrapping to the first.
    pub fn select_next_tab(&mut self)
        requires
            old(self).wf(),
        ensures
            final(self).wf(),
            final(self).same_config(old(self)),
            final(self).next() == old(self).next(),
            final(self).tab_seq() == old(self).tab_seq(),
            old(self).tab_seq().len() == 0 ==> final(self).active() == old(self).active() && final(self).event_log() == old(self).event_log(),
            old(self).tab_seq().len() > 0 ==> {
                let i = next_index(old(self).active(), old(self).tab_seq().len()) as int;
                &&& final(self).active() == i
                &&& logged(old(self).event_log(), final(self).event_log(), old(self).events_on(), seq![
                    TabEvent::Switched { pane_id: old(self).pane(), active_tab_id: old(self).tab_seq()[i].id },
                ])
            },
    {
        if self.tabs.len() > 0 {
            let next_index = (self.active_index + 1) % self.tabs.len();
            self.select_tab_at(next_index);
        }
    }

    /// Selects the previous tab, wrapping to the last.
    pub fn select_previous_tab(&mut self)
        requires
            old(self).wf(),
        ensures
            final(self).wf(),
            final(self).same_config(old(self)),
            final(self).next() == old(self).next(),
            final(self).tab_seq() == old(self).tab_seq(),
            old(self).tab_seq().len() == 0 ==> final(self).active() == old(self).active() && final(self).event_log() == old(self).event_log(),
            old(self).tab_seq().len() > 0 ==> {
                let i = previous_index(old(self).active(), old(self).tab_seq().len()) as int;
                &&& final(self).active() == i
                &&& logged(old(self).event_log(), final(self).event_log(), old(self).events_on(), seq![
                    TabEvent::Switched { pane_id: old(self).pane(), active_tab_id: old(self).tab_seq()[i].id },
                ])
            },
    {
        if self.tabs.len() > 0 {
            let prev_index = if self.active_index == 0 { self.tabs.len() - 1 } else { self.active_index - 1 };
            self.select_tab_at(prev_index);
        }
    }

    /// Moves the tab at `from_index` to `to_index`; the active tab stays active.
    pub fn move_tab(&mut self, from_index: usize, to_index: usize) -> (r: bool)
        requires
            old(self).wf(),
        ensures
            final(self).wf(),
            final(self).same_config(old(self)),
            final(self).next() == old(self).next(),
            final(self).event_log() == old(self).event_log(),
            r == (from_index < old(self).tab_seq().len() && to_index < old(self).tab_seq().len() && from_index != to_index),
            !r ==> final(self).tab_seq() == old(self).tab_seq() && final(self).active() == old(self).active(),
            r ==> {
                let s = old(self).tab_seq();
                &&& final(self).tab_seq() == s.remove(from_index as int).insert(to_index as int, s[from_index as int])
                &&& final(self).tab_seq()[final(self).active() as int] == s[old(self).active() as int]
            },
    {
        if from_index >= self.tabs.len() || to_index >= self.tabs.len() || from_index == to_index {
            return false;
        }
        let active_id = self.tabs[self.active_index].id;
        let ghost s = self.tabs@;
        let ghost a = self.active_index as int;
        proof {
            lemma_unique_remove(s, from_index as int, self.next_id);
            assert forall|i: int| 0 <= i < s.remove(from_index as int).len() implies (#[trigger] s.remove(from_index as int)[i]).id != s[from_index as int].id by {
                let oi = if i < from_index { i } else { i + 1 };
                assert(s.remove(from_index as int)[i] == s[oi]);
            }
            lemma_unique_insert(s.remove(from_index as int), to_index as int, s[from_index as int], self.next_id);
        }
        let tab = self.tabs.remove(from_index);
        self.tabs.insert(to_index, tab);
        let ghost t = self.tabs@;
        // The active tab is still in the list.
        let ghost k: int = if a == from_index {
            to_index as int
        } else {
            let ri = if a < from_index { a } else { a - 1 };
            if ri < to_index { ri } else { ri + 1 }
        };
        assert(t[k] == s[a]);
        proof {
            lemma_first_from_unique(t, active_id, 0, k);
        }
        match self.position(active_id) {
            Some(p) => {
                self.active_index = p;
            },
            None => {},
        }
        true
    }

    /// Sets the pinned flag of tab `id` to `pinned`; an event is recorded
    /// only when the flag changes.
    fn set_pinned(&mut self, id: TabId, pinned: bool) -> (r: bool)
        requires
            old(self).wf(),
        ensures
            final(self).wf(),
            final(self).same_config(old(self)),
            final(self).next() == old(self).next(),
            final(self).active() == old(self).active(),
            r == position_of(old(self).tab_seq(), id) is Some,
            !r ==> final(self).tab_seq() == old(self).tab_seq() && final(self).event_log() == old(self).event_log(),
            position_of(old(self).tab_seq(), id) matches Some(p) ==> {
                let t = old(self).tab_seq()[p];
                &&& final(self).tab_seq() == old(self).tab_seq().update(p, Tab { is_pinned: pinned, ..t })
                &&& t.is_pinned == pinned ==> final(self).event_log() == old(self).event_log()
                &&& t.is_pinned != pinned ==> logged(old(self).event_log(), final(self).event_log(), old(self).events_on(), seq![
                    TabEvent::PinnedChanged { pane_id: old(self).pane(), tab_id: id, is_pinned: pinned },
                ])
            },
    {
        match self.position(id) {
            Some(pos) => {
                proof {
                    lemma_first_from_some(self.tabs@, id, 0);
                }
                if self.tabs[pos].is_pinned == pinned {
                    assert(self.tabs@ =~= self.tabs@.update(pos as int, Tab { is_pinned: pinned, ..self.tabs@[pos as int] }));
                    return true;
                }
                let ghost s = self.tabs@;
                let mut t = self.tabs.remove(pos);
                t.is_pinned = pinned;
                self.tabs.insert(pos, t);
                assert(self.tabs@ =~= s.update(pos as int, Tab { is_pinned: pinned, ..s[pos as int] }));
                assert forall|i: int| 0 <= i < self.tabs@.len() implies (#[trigger] self.tabs@[i]).id == s[i].id by {}
                self.notify(TabEvent::PinnedChanged { pane_id: self.pane_id, tab_id: id, is_pinned: pinned });
                true
            },
            None => false,
        }
    }

    /// Pins tab `id`. False when there is no such tab.
    pub fn pin_tab(&mut self, id: TabId) -> (r: bool)
        requires
            old(self).wf(),
        ensures
            final(self).wf(),
            final(self).same_config(old(self)),
            final(self).next() == old(self).next(),
            final(self).active() == old(self).active(),
            r == position_of(old(self).tab_seq(), id) is Some,
            !r ==> final(self).tab_seq() == old(self).tab_seq() && final(self).event_log() == old(self).event_log(),
            position_of(old(self).tab_seq(), id) matches Some(p) ==> {
                let t = old(self).tab_seq()[p];
                &&& final(self).tab_seq() == old(self).tab_seq().update(p, Tab { is_pinned: true, ..t })
                &&& t.is_pinned ==> final(self).event_log() == old(self).event_log()
                &&& !t.is_pinned ==> logged(old(self).event_log(), final(self).event_log(), old(self).events_on(), seq![
                    TabEvent::PinnedChanged { pane_id: old(self).pane(), tab_id: id, is_pinned: true },
                ])
            },
    {
        self.set_pinned(id, true)
    }

    /// Unpins tab `id`. False when there is no such tab.
    pub fn unpin_tab(&mut self, id: TabId) -> (r: bool)
        requires
            old(self).wf(),
        ensures
            final(self).wf(),
            final(self).same_config(old(self)),
            final(self).next() == old(self).next(),
            final(self).active() == old(self).active(),
            r == position_of(old(self).tab_seq(), id) is Some,
            !r ==> final(self).tab_seq() == old(self).tab_seq() && final(self).event_log() == old(self).event_log(),
            position_of(old(self).tab_seq(), id) matches Some(p) ==> {
                let t = old(self).tab_seq()[p];
                &&& final(self).tab_seq() == old(self).tab_seq().update(p, Tab { is_pinned: false, ..t })
                &&& !t.is_pinned ==> final(self).event_log() == old(self).event_log()
                &&& t.is_pinned ==> logged(old(self).event_log(), final(self).event_log(), old(self).events_on(), seq![
                    TabEvent::PinnedChanged { pane_id: old(self).pane(), tab_id: id, is_pinned: false },
                ])
            },
    {
        self.set_pinned(id, false)
    }

    /// Duplicates tab `id` next to it, titled "<title> (copy)", and
    /// activates the copy.
    pub fn duplicate_tab(&mut self, id: TabId) -> (r: Option<TabId>)
        requires
            old(self).wf(),
            old(self).next() < u64::MAX,
        ensures
            final(self).wf(),
            final(self).same_config(old(self)),
            position_of(old(self).tab_seq(), id) is None ==> r is None && final(self).tab_seq() == old(self).tab_seq()
                && final(self).active() == old(self).active() && final(self).event_log() == old(self).event_log()
                && final(self).next() == old(self).next(),
            position_of(old(self).tab_seq(), id) matches Some(p) ==> {
                let t = old(self).tab_seq()[p];
                let d = final(self).tab_seq()[p + 1];
                &&& r == Some(TabId(old(self).next()))
                &&& final(self).next() == old(self).next() + 1
                &&& final(self).tab_seq() == old(self).tab_seq().insert(p + 1, d)
                &&& d.wf() && d.id == TabId(old(self).next()) && d.path@ == t.path@ && d.hist() == seq![t.path@]
                &&& d.history_index == 0 && !d.is_pinned && d.icon is None && d.kind == t.kind
                &&& d.title@ == t.title@ + " (copy)"@
                &&& final(self).active() == p + 1
                &&& logged(old(self).event_log(), final(self).event_log(), old(self).events_on(), seq![
                    TabEvent::Opened { pane_id: old(self).pane(), tab_id: TabId(old(self).next()), path: t.path },
                    TabEvent::Switched { pane_id: old(self).pane(), active_tab_id: TabId(old(self).next()) },
                ])
            },
    {
        let pos = match self.position(id) {
            Some(p) => p,
            None => return None,
        };
        proof {
            lemma_first_from_some(self.tabs@, id, 0);
        }
        let path = self.tabs[pos].path.clone();
        let kind = copy_kind(&self.tabs[pos].kind);
        let new_id = TabId(self.next_id);
        self.next_id = self.next_id + 1;
        let mut dup = Tab::with_kind(new_id, path.as_str(), kind);
        let mut title = string_from(self.tabs[pos].title.as_str());
        append_str(&mut title, " (copy)");
        dup.title = title;
        proof {
            lemma_unique_insert(self.tabs@, pos + 1, dup, self.next_id);
        }
        assert(pos < self.tabs.len());
        self.tabs.insert(pos + 1, dup);
        self.active_index = pos + 1;
        let ghost log0 = self.events@;
        self.notify(TabEvent::Opened { pane_id: self.pane_id, tab_id: new_id, path: path });
        self.notify(TabEvent::Switched { pane_id: self.pane_id, active_tab_id: new_id });
        proof {
            if self.events_enabled {
                assert(self.events@ =~= log0 + seq![
                    TabEvent::Opened { pane_id: self.pane_id, tab_id: new_id, path: old(self).tabs@[pos as int].path },
                    TabEvent::Switched { pane_id: self.pane_id, active_tab_id: new_id },
                ]);
            }
        }
        Some(new_id)
    }

    /// Navigates the active tab to `path`. False when there are no tabs.
    pub fn navigate_active(&mut self, path: &str) -> (r: bool)
        requires
            old(self).wf(),
        ensures
            final(self).wf(),
            final(self).same_config(old(self)),
            final(self).next() == old(self).next(),
            final(self).active() == old(self).active(),
            r == (old(self).tab_seq().len() > 0),
            !r ==> final(self).tab_seq() == old(self).tab_seq() && final(self).event_log() == old(self).event_log(),
            r ==> {
                let a = old(self).active() as int;
                let t = old(self).tab_seq()[a];
                let n = final(self).tab_seq()[a];
                &&& final(self).tab_seq() == old(self).tab_seq().update(a, n)
                &&& n.wf()
                &&& n.id == t.id
                &&& same_path(t.path@, path@) ==> n == t
                &&& !same_path(t.path@, path@) ==> {
                    &&& n.hist() == history_after_navigate(t.hist(), t.history_index as int, path@)
                    &&& n.history_index == t.history_index + 1
                    &&& n.path@ == path@
                    &&& n.title@ == title_of(path@)
                    &&& n.is_pinned == t.is_pinned
                    &&& n.icon == t.icon
                    &&& n.kind == t.kind
                }
                &&& final(self).event_log().len() == old(self).event_log().len() + if old(self).events_on() { 1int } else { 0int }
                &&& final(self).event_log().take(old(self).event_log().len() as int) == old(self).event_log()
                &&& old(self).events_on() ==> (final(self).event_log().last() matches TabEvent::Navigated {
                    pane_id,
                    tab_id,
                    path: p,
                } && pane_id == old(self).pane() && tab_id == t.id && p@ == path@)
            },
    {
        if self.tabs.len() == 0 {
            return false;
        }
        let a = self.active_index;
        let ghost s = self.tabs@;
        let mut tab = self.tabs.remove(a);
        tab.navigate_to(path);
        let tab_id = tab.id;
        self.tabs.insert(a, tab);
        assert(self.tabs@ =~= s.update(a as int, self.tabs@[a as int]));
        assert forall|i: int| 0 <= i < self.tabs@.len() implies (#[trigger] self.tabs@[i]).id == s[i].id by {}
        let ghost log0 = self.events@;
        self.notify(TabEvent::Navigated { pane_id: self.pane_id, tab_id, path: string_from(path) });
        true
    }
}

/// The `Closed` events for the tabs other than `keep`, in order.
pub open spec fn closed_events(pane: PaneId, tabs: Seq<Tab>, keep: TabId) -> Seq<TabEvent>
    decreases tabs.len(),
{
    if tabs.len() == 0 {
        seq![]
    } else {
        let prev = closed_events(pane, tabs.drop_last(), keep);
        if tabs.last().id != keep {
            prev.push(TabEvent::Closed { pane_id: pane, tab_id: tabs.last().id })
        } else {
            prev
        }
    }
}

/// The active index and the events after closing, one by one, the first
/// `k` tabs right of `pos`.
pub open spec fn right_close_state(pane: PaneId, tabs: Seq<Tab>, active: nat, pos: int, k: nat) -> (nat, Seq<TabEvent>)
    decreases k,
{
    if k == 0 {
        (active, seq![])
    } else {
        let (a, ev) = right_close_state(pane, tabs, active, pos, (k - 1) as nat);
        let rest = tabs.take(pos + 1) + tabs.skip(pos + 1 + k);
        let a2 = active_after_close(a, (pos + 1) as nat, rest.len());
        (a2, ev + seq![
            TabEvent::Closed { pane_id: pane, tab_id: tabs[pos + k].id },
            TabEvent::Switched { pane_id: pane, active_tab_id: rest[a2 as int].id },
        ])
    }
}

impl TabManager {
    /// The active tab, for changes in place.
    pub fn active_tab_mut(&mut self) -> (r: Option<&mut Tab>)
        ensures
            final(self).same_config(old(self)),
            final(self).next() == old(self).next(),
            final(self).active() == old(self).active(),
            final(self).event_log() == old(self).event_log(),
            old(self).active() < old(self).tab_seq().len() ==> (r matches Some(t) && *t == old(self).tab_seq()[old(self).active() as int]
                && final(self).tab_seq() == old(self).tab_seq().update(old(self).active() as int, *final(t))),
            old(self).active() >= old(self).tab_seq().len() ==> r is None && final(self).tab_seq() == old(self).tab_seq(),
    {
        if self.active_index < self.tabs.len() {
            Some(&mut self.tabs[self.active_index])
        } else {
            None
        }
    }

    /// Closes every tab but `keep_id`, which becomes the only and active tab.
    /// Nothing changes when there is no such tab.
    pub fn close_other_tabs(&mut self, keep_id: TabId)
        requires
            old(self).wf(),
        ensures
            final(self).wf(),
            final(self).same_config(old(self)),
            final(self).next() == old(self).next(),
            position_of(old(self).tab_seq(), keep_id) is None ==> final(self).tab_seq() == old(self).tab_seq()
                && final(self).active() == old(self).active() && final(self).event_log() == old(self).event_log(),
            position_of(old(self).tab_seq(), keep_id) matches Some(p) ==> {
                &&& final(self).tab_seq() == seq![old(self).tab_seq()[p]]
                &&& final(self).active() == 0
                &&& logged(old(self).event_log(), final(self).event_log(), old(self).events_on(),
                    closed_events(old(self).pane(), old(self).tab_seq(), keep_id) + seq![
                    TabEvent::Switched { pane_id: old(self).pane(), active_tab_id: keep_id },
                ])
            },
    {
        let pos = match self.position(keep_id) {
            Some(p) => p,
            None => return,
        };
        proof {
            lemma_first_from_some(self.tabs@, keep_id, 0);
        }
        let ghost s = self.tabs@;
        let ghost log0 = self.events@;
        let mut i: usize = 0;
        while i < self.tabs.len()
            invariant
                i <= self.tabs.len(),
                self.tabs@ == s,
                self.wf(),
                self.same_config(old(self)),
                self.next() == old(self).next(),
                self.active() == old(self).active(),
                pos < s.len(),
                s[pos as int].id == keep_id,
                log0 == old(self).event_log(),
                logged(log0, self.events@, self.events_enabled, closed_events(self.pane_id, s.take(i as int), keep_id)),
            decreases self.tabs.len() - i,
        {
            assert(s.take(i + 1).drop_last() =~= s.take(i as int));
            assert(s.take(i + 1).last() == s[i as int]);
            let tid = self.tabs[i].id;
            if tid != keep_id {
                self.notify(TabEvent::Closed { pane_id: self.pane_id, tab_id: tid });
                proof {
                    if self.events_enabled {
                        assert(self.events@ =~= log0 + closed_events(self.pane_id, s.take(i + 1), keep_id));
                    }
                }
            }
            i += 1;
        }
        assert(s.take(s.len() as int) =~= s);
        let keep = self.tabs.remove(pos);
        let mut only: Vec<Tab> = Vec::new();
        only.push(keep);
        self.tabs = only;
        self.active_index = 0;
        let ghost log1 = self.events@;
        self.notify(TabEvent::Switched { pane_id: self.pane_id, active_tab_id: keep_id });
        proof {
            if self.events_enabled {
                assert(self.events@ =~= log0 + (closed_events(self.pane_id, s, keep_id) + seq![
                    TabEvent::Switched { pane_id: self.pane_id, active_tab_id: keep_id },
                ]));
            }
        }
    }

    /// Closes, one by one, every tab right of tab `id`.
    pub fn close_tabs_to_right(&mut self, id: TabId)
        requires
            old(self).wf(),
        ensures
            final(self).wf(),
            final(self).same_config(old(self)),
            final(self).next() == old(self).next(),
            position_of(old(self).tab_seq(), id) is None ==> final(self).tab_seq() == old(self).tab_seq()
                && final(self).active() == old(self).active() && final(self).event_log() == old(self).event_log(),
            position_of(old(self).tab_seq(), id) matches Some(p) ==> {
                let n = (old(self).tab_seq().len() - p - 1) as nat;
                let st = right_close_state(old(self).pane(), old(self).tab_seq(), old(self).active(), p, n);
                &&& final(self).tab_seq() == old(self).tab_seq().take(p + 1)
                &&& final(self).active() == st.0
                &&& logged(old(self).event_log(), final(self).event_log(), old(self).events_on(), st.1)
            },
    {
        let pos = match self.position(id) {
            Some(p) => p,
            None => return,
        };
        proof {
            lemma_first_from_some(self.tabs@, id, 0);
        }
        let ghost s = self.tabs@;
        let ghost log0 = self.events@;
        let ghost pane = self.pane_id;
        let mut to_remove: Vec<TabId> = Vec::new();
        assert(pos < self.tabs.len());
        let mut j: usize = pos + 1;
        while j < self.tabs.len()
            invariant
                pos < j <= self.tabs.len(),
                self.tabs@ == s,
                to_remove@.len() == j - pos - 1,
                forall|m: int| 0 <= m < to_remove@.len() ==> to_remove@[m] == s[pos + 1 + m].id,
            decreases self.tabs.len() - j,
        {
            to_remove.push(self.tabs[j].id);
            j += 1;
        }
        let n = to_remove.len();
        let mut k: usize = 0;
        while k < n
            invariant
                k <= n == to_remove@.len() == s.len() - pos - 1,
                pos < s.len(),
                forall|m: int| 0 <= m < to_remove@.len() ==> to_remove@[m] == s[pos + 1 + m].id,
                self.wf(),
                ids_unique(s),
                self.same_config(old(self)),
                self.pane() == pane,
                self.next() == old(self).next(),
                log0 == old(self).event_log(),
                self.tab_seq() == s.take(pos + 1) + s.skip(pos + 1 + k),
                ({
                    let st = right_close_state(pane, s, old(self).active(), pos as int, k as nat);
                    &&& self.active() == st.0
                    &&& logged(log0, self.event_log(), self.events_on(), st.1)
                }),
            decreases n - k,
        {
            let tid = to_remove[k];
            let ghost cur = self.tabs@;
            assert(cur[pos + 1] == s[pos + 1 + k]);
            proof {
                assert forall|i: int, j2: int| 0 <= i < cur.len() && 0 <= j2 < cur.len() && i != j2 implies #[trigger] cur[i].id != #[trigger] cur[j2].id by {}
                lemma_first_from_unique(cur, tid, 0, pos + 1);
            }
            let ghost before_log = self.events@;
            let _ = self.close_tab(tid);
            proof {
                let rest = s.take(pos + 1) + s.skip(pos + 1 + k + 1);
                assert(cur.remove(pos + 1) =~= rest);
                if self.events_enabled {
                    assert(self.events@ =~= log0 + right_close_state(pane, s, old(self).active(), pos as int, (k + 1) as nat).1);
                }
            }
            k += 1;
        }
        assert(s.take(pos + 1) + s.skip(pos + 1 + n) =~= s.take(pos + 1));
    }
}

impl TabManager {
    /// Relabels the pane the manager belongs to.
    fn set_pane_id(&mut self, pane_id: PaneId)
        ensures
            final(self).pane() == pane_id,
            final(self).events_on() == old(self).events_on(),
            final(self).tab_seq() == old(self).tab_seq(),
            final(self).active() == old(self).active(),
            final(self).next() == old(self).next(),
            final(self).event_log() == old(self).event_log(),
    {
        self.pane_id = pane_id;
    }
}

/// The other pane.
pub open spec fn other_pane(p: PaneId) -> PaneId {
    match p {
        PaneId::Left => PaneId::Right,
        PaneId::Right => PaneId::Left,
    }
}

/// Two pane tab managers and the split layout between them.
///
/// Layout and focus changes are recorded as `TabEvent`s once events are
/// enabled, beside the events each pane records.
#[derive(Debug, Clone)]
pub struct DualPaneCoordinator {
    pub left_pane: TabManager,
    pub right_pane: TabManager,
    pub active_pane: PaneId,
    pub layout: DualPaneLayout,
    events_enabled: bool,
    events: Vec<TabEvent>,
}

impl DualPaneCoordinator {
    pub closed spec fn left(&self) -> TabManager {
        self.left_pane
    }

    pub closed spec fn right(&self) -> TabManager {
        self.right_pane
    }

    pub closed spec fn focus(&self) -> PaneId {
        self.active_pane
    }

    pub closed spec fn current_layout(&self) -> DualPaneLayout {
        self.layout
    }

    pub closed spec fn events_on(&self) -> bool {
        self.events_enabled
    }

    /// The layout and focus events recorded and not yet taken.
    pub closed spec fn event_log(&self) -> Seq<TabEvent> {
        self.events@
    }

    /// The manager of pane `p`.
    pub open spec fn pane_of(&self, p: PaneId) -> TabManager {
        match p {
            PaneId::Left => self.left(),
            PaneId::Right => self.right(),
        }
    }

    /// Both panes are well formed and labelled with their side.
    pub open spec fn wf(&self) -> bool {
        &&& self.left().wf()
        &&& self.right().wf()
        &&& self.left().pane() == PaneId::Left
        &&& self.right().pane() == PaneId::Right
    }

    /// Panes, focus and layout unchanged.
    pub open spec fn same_panes(&self, other: &Self) -> bool {
        &&& self.left() == other.left()
        &&& self.right() == other.right()
        &&& self.events_on() == other.events_on()
    }

    /// Both panes open at `initial_path`, the left one focused, one pane shown.
    pub fn new(initial_path: &str) -> (r: Self)
        ensures
            r.wf(),
            r.left().tab_seq().len() == 1 && r.right().tab_seq().len() == 1,
            is_new_tab(r.left().tab_seq()[0], TabId(1), initial_path@, TabKind::Standard),
            is_new_tab(r.right().tab_seq()[0], TabId(1), initial_path@, TabKind::Standard),
            r.left().active() == 0 && r.right().active() == 0,
            r.left().next() == 2 && r.right().next() == 2,
            !r.left().events_on() && !r.right().events_on(),
            r.left().event_log().len() == 0 && r.right().event_log().len() == 0,
            r.focus() == PaneId::Left,
            r.current_layout() == DualPaneLayout::Single,
            !r.events_on(),
            r.event_log().len() == 0,
    {
        DualPaneCoordinator {
            left_pane: TabManager::new(PaneId::Left, initial_path),
            right_pane: TabManager::new(PaneId::Right, initial_path),
            active_pane: PaneId::Left,
            layout: DualPaneLayout::Single,
            events_enabled: false,
            events: Vec::new(),
        }
    }

    /// Starts recording events, in both panes and here.
    pub fn enable_events(&mut self)
        ensures
            final(self).events_on(),
            final(self).left().events_on(),
            final(self).right().events_on(),
            final(self).left().tab_seq() == old(self).left().tab_seq(),
            final(self).right().tab_seq() == old(self).right().tab_seq(),
            final(self).left().active() == old(self).left().active(),
            final(self).right().active() == old(self).right().active(),
            final(self).left().next() == old(self).left().next(),
            final(self).right().next() == old(self).right().next(),
            final(self).left().pane() == old(self).left().pane(),
            final(self).right().pane() == old(self).right().pane(),
            final(self).left().event_log() == old(self).left().event_log(),
            final(self).right().event_log() == old(self).right().event_log(),
            final(self).focus() == old(self).focus(),
            final(self).current_layout() == old(self).current_layout(),
            final(self).event_log() == old(self).event_log(),
    {
        self.left_pane.enable_events();
        self.right_pane.enable_events();
        self.events_enabled = true;
    }

    /// Hands out the recorded events: those of the coordinator, then those
    /// of the left and of the right pane; the logs are cleared.
    pub fn take_events(&mut self) -> (r: Vec<TabEvent>)
        ensures
            r@ == old(self).event_log() + old(self).left().event_log() + old(self).right().event_log(),
            final(self).event_log().len() == 0,
            final(self).left().event_log().len() == 0,
            final(self).right().event_log().len() == 0,
            final(self).left().tab_seq() == old(self).left().tab_seq(),
            final(self).right().tab_seq() == old(self).right().tab_seq(),
            final(self).left().active() == old(self).left().active(),
            final(self).right().active() == old(self).right().active(),
            final(self).left().next() == old(self).left().next(),
            final(self).right().next() == old(self).right().next(),
            final(self).left().same_config(&old(self).left()),
            final(self).right().same_config(&old(self).right()),
            final(self).focus() == old(self).focus(),
            final(self).current_layout() == old(self).current_layout(),
            final(self).events_on() == old(self).events_on(),
    {
        let mut out: Vec<TabEvent> = Vec::new();
        std::mem::swap(&mut out, &mut self.events);
        let mut l = self.left_pane.take_events();
        let mut r = self.right_pane.take_events();
        out.append(&mut l);
        out.append(&mut r);
        out
    }

    fn notify(&mut self, event: TabEvent)
        ensures
            logged(old(self).event_log(), final(self).event_log(), old(self).events_on(), seq![event]),
            final(self).same_panes(old(self)),
            final(self).focus() == old(self).focus(),
            final(self).current_layout() == old(self).current_layout(),
    {
        if self.events_enabled {
            let ghost e = event;
            self.events.push(event);
            assert(self.events@ =~= old(self).events@ + seq![e]);
        }
    }

    pub fn layout(&self) -> (r: DualPaneLayout)
        ensures
            r == self.current_layout(),
    {
        self.layout
    }

    /// Sets the layout; a single pane takes the focus back to the left one.
    pub fn set_layout(&mut self, layout: DualPaneLayout)
        ensures
            final(self).same_panes(old(self)),
            final(self).current_layout() == layout,
            final(self).focus() == if layout == DualPaneLayout::Single { PaneId::Left } else { old(self).focus() },
            logged(old(self).event_log(), final(self).event_log(), old(self).events_on(), seq![
                TabEvent::PaneLayoutChanged { layout },
            ]),
    {
        self.layout = layout;
        if layout == DualPaneLayout::Single {
            self.active_pane = PaneId::Left;
        }
        self.notify(TabEvent::PaneLayoutChanged { layout });
    }

    /// Switches between one pane and two side by side; returns the new layout.
    pub fn toggle_dual_pane(&mut self) -> (r: DualPaneLayout)
        ensures
            r == toggled(old(self).current_layout()),
            final(self).same_panes(old(self)),
            final(self).current_layout() == r,
            final(self).focus() == if r == DualPaneLayout::Single { PaneId::Left } else { old(self).focus() },
            logged(old(self).event_log(), final(self).event_log(), old(self).events_on(), seq![
                TabEvent::PaneLayoutChanged { layout: r },
            ]),
    {
        let new_layout = match self.layout {
            DualPaneLayout::Single => DualPaneLayout::SplitHorizontal,
            _ => DualPaneLayout::Single,
        };
        self.set_layout(new_layout);
        new_layout
    }

    pub fn is_dual_pane_active(&self) -> (r: bool)
        ensures
            r == (self.current_layout() != DualPaneLayout::Single),
    {
        self.layout != DualPaneLayout::Single
    }

    /// Focuses pane `pane_id`.
    pub fn set_active_pane(&mut self, pane_id: PaneId)
        ensures
            final(self).same_panes(old(self)),
            final(self).current_layout() == old(self).current_layout(),
            final(self).focus() == pane_id,
            logged(old(self).event_log(), final(self).event_log(), old(self).events_on(), seq![
                TabEvent::ActivePaneChanged { active_pane: pane_id },
            ]),
    {
        self.active_pane = pane_id;
        self.notify(TabEvent::ActivePaneChanged { active_pane: pane_id });
    }

    /// Moves the focus to the other pane, when two are shown.
    pub fn switch_active_pane(&mut self)
        ensures
            final(self).same_panes(old(self)),
            final(self).current_layout() == old(self).current_layout(),
            old(self).current_layout() == DualPaneLayout::Single ==> final(self).focus() == old(self).focus()
                && final(self).event_log() == old(self).event_log(),
            old(self).current_layout() != DualPaneLayout::Single ==> final(self).focus() == other_pane(old(self).focus())
                && logged(old(self).event_log(), final(self).event_log(), old(self).events_on(), seq![
                TabEvent::ActivePaneChanged { active_pane: other_pane(old(self).focus()) },
            ]),
    {
        if self.is_dual_pane_active() {
            let next_pane = match self.active_pane {
                PaneId::Left => PaneId::Right,
                PaneId::Right => PaneId::Left,
            };
            self.set_active_pane(next_pane);
        }
    }

    pub fn active_pane_id(&self) -> (r: PaneId)
        ensures
            r == self.focus(),
    {
        self.active_pane
    }

    /// The manager of pane `pane_id`.
    pub fn get_pane(&self, pane_id: PaneId) -> (r: &TabManager)
        ensures
            *r == self.pane_of(pane_id),
    {
        match pane_id {
            PaneId::Left => &self.left_pane,
            PaneId::Right => &self.right_pane,
        }
    }

    /// The manager of pane `pane_id`, for changes in place.
    pub fn get_pane_mut(&mut self, pane_id: PaneId) -> (r: &mut TabManager)
        ensures
            *r == old(self).pane_of(pane_id),
            final(self).pane_of(pane_id) == *final(r),
            final(self).pane_of(other_pane(pane_id)) == old(self).pane_of(other_pane(pane_id)),
            final(self).focus() == old(self).focus(),
            final(self).current_layout() == old(self).current_layout(),
            final(self).events_on() == old(self).events_on(),
            final(self).event_log() == old(self).event_log(),
    {
        match pane_id {
            PaneId::Left => &mut self.left_pane,
            PaneId::Right => &mut self.right_pane,
        }
    }

    /// The manager of the focused pane.
    pub fn active_tab_manager(&self) -> (r: &TabManager)
        ensures
            *r == self.pane_of(self.focus()),
    {
        self.get_pane(self.active_pane)
    }

    /// The manager of the focused pane, for changes in place.
    pub fn active_tab_manager_mut(&mut self) -> (r: &mut TabManager)
        ensures
            *r == old(self).pane_of(old(self).focus()),
            final(self).pane_of(old(self).focus()) == *final(r),
            final(self).pane_of(other_pane(old(self).focus())) == old(self).pane_of(other_pane(old(self).focus())),
            final(self).focus() == old(self).focus(),
            final(self).current_layout() == old(self).current_layout(),
            final(self).events_on() == old(self).events_on(),
            final(self).event_log() == old(self).event_log(),
    {
        let p = self.active_pane;
        self.get_pane_mut(p)
    }

    /// The manager of the other pane.
    pub fn inactive_tab_manager(&self) -> (r: &TabManager)
        ensures
            *r == self.pane_of(other_pane(self.focus())),
    {
        match self.active_pane {
            PaneId::Left => &self.right_pane,
            PaneId::Right => &self.left_pane,
        }
    }

    /// The manager of the other pane, for changes in place.
    pub fn inactive_tab_manager_mut(&mut self) -> (r: &mut TabManager)
        ensures
            *r == old(self).pane_of(other_pane(old(self).focus())),
            final(self).pane_of(other_pane(old(self).focus())) == *final(r),
            final(self).pane_of(old(self).focus()) == old(self).pane_of(old(self).focus()),
            final(self).focus() == old(self).focus(),
            final(self).current_layout() == old(self).current_layout(),
            final(self).events_on() == old(self).events_on(),
            final(self).event_log() == old(self).event_log(),
    {
        let p = match self.active_pane {
            PaneId::Left => PaneId::Right,
            PaneId::Right => PaneId::Left,
        };
        self.get_pane_mut(p)
    }

    /// Exchanges the tabs of the two panes; each keeps its side's label.
    pub fn swap_panes(&mut self)
        requires
            old(self).wf(),
        ensures
            final(self).wf(),
            final(self).left().tab_seq() == old(self).right().tab_seq(),
            final(self).right().tab_seq() == old(self).left().tab_seq(),
            final(self).left().active() == old(self).right().active(),
            final(self).right().active() == old(self).left().active(),
            final(self).left().next() == old(self).right().next(),
            final(self).right().next() == old(self).left().next(),
            final(self).left().events_on() == old(self).right().events_on(),
            final(self).right().events_on() == old(self).left().events_on(),
            final(self).left().event_log() == old(self).right().event_log(),
            final(self).right().event_log() == old(self).left().event_log(),
            final(self).focus() == old(self).focus(),
            final(self).current_layout() == old(self).current_layout(),
            final(self).events_on() == old(self).events_on(),
            logged(old(self).event_log(), final(self).event_log(), old(self).events_on(), seq![TabEvent::PanesSwapped]),
    {
        std::mem::swap(&mut self.left_pane, &mut self.right_pane);
        self.left_pane.set_pane_id(PaneId::Left);
        self.right_pane.set_pane_id(PaneId::Right);
        self.notify(TabEvent::PanesSwapped);
    }

    /// Opens `path` in a new tab of the other pane, showing two panes first
    /// when only one is shown.
    pub fn open_in_other_pane(&mut self, path: &str) -> (r: TabId)
        requires
            old(self).wf(),
            old(self).pane_of(other_pane(old(self).focus())).next() < u64::MAX,
        ensures
            final(self).wf(),
            final(self).events_on() == old(self).events_on(),
            ({
                let was_single = old(self).current_layout() == DualPaneLayout::Single;
                // Showing two panes keeps the focus where it was.
                let f = old(self).focus();
                let o = other_pane(f);
                let before = old(self).pane_of(o);
                let after = final(self).pane_of(o);
                let i: int = if before.tab_seq().len() == 0 { 0 } else { before.active() + 1 as int };
                &&& final(self).focus() == f
                &&& final(self).current_layout() == if was_single { DualPaneLayout::SplitHorizontal } else { old(self).current_layout() }
                &&& logged(old(self).event_log(), final(self).event_log(), old(self).events_on(),
                    if was_single { seq![TabEvent::PaneLayoutChanged { layout: DualPaneLayout::SplitHorizontal }] } else { seq![] })
                &&& final(self).pane_of(f) == old(self).pane_of(f)
                &&& r == TabId(before.next())
                &&& after.next() == before.next() + 1
                &&& after.tab_seq() == before.tab_seq().insert(i, after.tab_seq()[i])
                &&& is_new_tab(after.tab_seq()[i], r, path@, TabKind::Standard)
                &&& after.active() == i
                &&& after.same_config(&before)
                &&& logged(before.event_log(), after.event_log(), before.events_on(), seq![
                    TabEvent::Opened { pane_id: before.pane(), tab_id: r, path: after.tab_seq()[i].path },
                    TabEvent::Switched { pane_id: before.pane(), active_tab_id: r },
                ])
            }),
    {
        if !self.is_dual_pane_active() {
            self.set_layout(DualPaneLayout::SplitHorizontal);
        }
        let inactive = match self.active_pane {
            PaneId::Left => PaneId::Right,
            PaneId::Right => PaneId::Left,
        };
        match inactive {
            PaneId::Left => self.left_pane.open_tab(path),
            PaneId::Right => self.right_pane.open_tab(path),
        }
    }

    /// Opens the focused pane's current path in the other pane. None when
    /// the focused pane has no tab.
    pub fn sync_other_pane_to_active_path(&mut self) -> (r: Option<TabId>)
        requires
            old(self).wf(),
            old(self).pane_of(other_pane(old(self).focus())).next() < u64::MAX,
        ensures
            final(self).wf(),
            ({
                let f = old(self).focus();
                let src = old(self).pane_of(f);
                let o = other_pane(f);
                let before = old(self).pane_of(o);
                let after = final(self).pane_of(o);
                let i: int = if before.tab_seq().len() == 0 { 0 } else { before.active() + 1 as int };
                &&& src.tab_seq().len() == 0 ==> r is None && *final(self) == *old(self)
                &&& src.tab_seq().len() > 0 ==> {
                    &&& r == Some(TabId(before.next()))
                    &&& final(self).focus() == f
                    &&& final(self).pane_of(f) == src
                    &&& after.tab_seq() == before.tab_seq().insert(i, after.tab_seq()[i])
                    &&& is_new_tab(after.tab_seq()[i], TabId(before.next()), src.tab_seq()[src.active() as int].path@, TabKind::Standard)
                    &&& after.active() == i
                }
            }),
    {
        let path = match self.active_tab_manager().active_tab() {
            Some(t) => t.path.clone(),
            None => return None,
        };
        Some(self.open_in_other_pane(path.as_str()))
    }
}

/// The index after `a` among `len` tabs, wrapping to the first.
pub open spec fn next_index(a: nat, len: nat) -> nat {
    (a + 1) % len
}

/// The index before `a` among `len` tabs, wrapping to the last.
pub open spec fn previous_index(a: nat, len: nat) -> nat {
    if a == 0 { (len - 1) as nat } else { (a - 1) as nat }
}

/// Selecting the next tab and then the previous one comes back to the same
/// tab, and so does the reverse.
pub proof fn law_next_previous_inverse(a: nat, len: nat)
    requires
        a < len,
    ensures
        previous_index(next_index(a, len), len) == a,
        next_index(previous_index(a, len), len) == a,
{
    if a + 1 < len {
        vstd::arithmetic::div_mod::lemma_small_mod(a + 1, len);
    } else {
        vstd::arithmetic::div_mod::lemma_mod_self_0(len as int);
    }
    if a > 0 {
        vstd::arithmetic::div_mod::lemma_small_mod(a, len);
    } else {
        vstd::arithmetic::div_mod::lemma_mod_self_0(len as int);
    }
}

/// Closing the tab that was just opened gives back the tabs as they were:
/// the new tab is found where it was inserted, and removing it restores the
/// list.
pub proof fn law_close_undoes_open(s: Seq<Tab>, i: int, t: Tab)
    requires
        0 <= i <= s.len(),
        ids_unique(s.insert(i, t)),
    ensures
        position_of(s.insert(i, t), t.id) == Some(i),
        s.insert(i, t).remove(i) == s,
{
    lemma_first_from_unique(s.insert(i, t), t.id, 0, i);
    assert(s.insert(i, t).remove(i) =~= s);
}

/// Toggling the dual-pane mode twice from a single pane comes back to a
/// single pane.
pub proof fn law_toggle_twice_from_single()
    ensures
        toggled(toggled(DualPaneLayout::Single)) == DualPaneLayout::Single,
{
}

/// The layout `toggle_dual_pane` switches to.
pub open spec fn toggled(l: DualPaneLayout) -> DualPaneLayout {
    if l == DualPaneLayout::Single { DualPaneLayout::SplitHorizontal } else { DualPaneLayout::Single }
}

/// Moving a tab back to where it came from restores the order of the tabs.
pub proof fn law_move_back_restores(s: Seq<Tab>, from: int, to: int)
    requires
        0 <= from < s.len(),
        0 <= to < s.len(),
    ensures
        ({
            let moved = s.remove(from).insert(to, s[from]);
            moved.remove(to).insert(from, moved[to]) == s
        }),
{
    let moved = s.remove(from).insert(to, s[from]);
    assert(moved[to] == s[from]);
    assert(moved.remove(to) =~= s.remove(from));
    assert(s.remove(from).insert(from, s[from]) =~= s);
}

/// Closing a tab other than the active one keeps the same tab active; closing
/// the active tab makes its right neighbour active, or the new last tab when
/// it was the last.
pub proof fn law_close_keeps_active(s: Seq<Tab>, active: nat, index: nat)
    requires
        active < s.len(),
        index < s.len(),
        s.len() > 1,
    ensures
        ({
            let rest = s.remove(index as int);
            let a = active_after_close(active, index, rest.len());
            &&& a < rest.len()
            &&& index != active ==> rest[a as int] == s[active as int]
            &&& index == active && active + 1 < s.len() ==> rest[a as int] == s[active as int + 1]
            &&& index == active && active + 1 == s.len() ==> rest[a as int] == s[active as int - 1]
        }),
{
}

} // verus!
