//! Context menus: their items and the menu offered for a selection.
use vstd::prelude::*;
use crate::text::{append_chars, append_str, chars_of, decimal, decimal_string, file_name, file_name_exec, string_from};

verus! {

/// Kinds of actions that can be triggered from context menus.
#[derive(Debug, Clone, PartialEq, Eq)]
pub enum MenuActionKind {
    Open,
    Cut,
    Copy,
    Paste,
    Delete,
    Rename,
    CopyPath,
    XavierPrompt(String),
    GitStage,
    GitUnstage,
    NewFile,
    NewFolder,
    Refresh,
    Properties,
}

/// An action as its variant number and the prompt text (empty but for prompts).
pub open spec fn action_view(a: MenuActionKind) -> (nat, Seq<char>) {
    match a {
        MenuActionKind::Open => (0nat, Seq::<char>::empty()),
        MenuActionKind::Cut => (1nat, Seq::<char>::empty()),
        MenuActionKind::Copy => (2nat, Seq::<char>::empty()),
        MenuActionKind::Paste => (3nat, Seq::<char>::empty()),
        MenuActionKind::Delete => (4nat, Seq::<char>::empty()),
        MenuActionKind::Rename => (5nat, Seq::<char>::empty()),
        MenuActionKind::CopyPath => (6nat, Seq::<char>::empty()),
        MenuActionKind::XavierPrompt(p) => (7nat, p@),
        MenuActionKind::GitStage => (8nat, Seq::<char>::empty()),
        MenuActionKind::GitUnstage => (9nat, Seq::<char>::empty()),
        MenuActionKind::NewFile => (10nat, Seq::<char>::empty()),
        MenuActionKind::NewFolder => (11nat, Seq::<char>::empty()),
        MenuActionKind::Refresh => (12nat, Seq::<char>::empty()),
        MenuActionKind::Properties => (13nat, Seq::<char>::empty()),
    }
}

/// Represents a visual menu separator line.
#[derive(Debug, Clone, PartialEq, Eq)]
pub struct MenuSeparator;

/// Represents an item in a context menu (actionable menu item or separator).
#[derive(Debug, Clone, PartialEq, Eq)]
pub enum MenuItem {
    Action { label: String, action: MenuActionKind, shortcut: Option<String>, enabled: bool },
    Separator(MenuSeparator),
}

/// A menu item as plain values: whether it is an action, its label, its action,
/// its shortcut and whether it is enabled.
pub type ItemView = (bool, Seq<char>, (nat, Seq<char>), Option<Seq<char>>, bool);

pub open spec fn item_view(m: MenuItem) -> ItemView {
    match m {
        MenuItem::Action { label, action, shortcut, enabled } => (
            true,
            label@,
            action_view(action),
            match shortcut {
                Some(s) => Some(s@),
                None => None,
            },
            enabled,
        ),
        MenuItem::Separator(_) => (false, Seq::<char>::empty(), (0nat, Seq::<char>::empty()), None, false),
    }
}

pub open spec fn items_view(s: Seq<MenuItem>) -> Seq<ItemView> {
    s.map_values(|m: MenuItem| item_view(m))
}

/// An enabled action item with a shortcut.
pub open spec fn act(label: Seq<char>, a: (nat, Seq<char>), shortcut: Seq<char>) -> ItemView {
    (true, label, a, Some(shortcut), true)
}

/// An action item without a shortcut.
pub open spec fn act_plain(label: Seq<char>, a: (nat, Seq<char>)) -> ItemView {
    (true, label, a, None, true)
}

/// A separator.
pub open spec fn sep() -> ItemView {
    (false, Seq::<char>::empty(), (0nat, Seq::<char>::empty()), None, false)
}

pub open spec fn no_text() -> Seq<char> {
    Seq::<char>::empty()
}

impl MenuItem {
    /// An enabled action item without a shortcut.
    pub fn action(label: &str, action: MenuActionKind) -> (r: Self)
        ensures
            item_view(r) == (true, label@, action_view(action), None::<Seq<char>>, true),
    {
        MenuItem::Action { label: string_from(label), action, shortcut: None, enabled: true }
    }

    /// The item with a shortcut (a separator is unchanged).
    pub fn with_shortcut(self, shortcut_str: &str) -> (r: Self)
        ensures
            self is Action ==> item_view(r) == (
                item_view(self).0,
                item_view(self).1,
                item_view(self).2,
                Some(shortcut_str@),
                item_view(self).4,
            ),
            self is Separator ==> r == self,
    {
        match self {
            MenuItem::Action { label, action, shortcut: _, enabled } => MenuItem::Action {
                label,
                action,
                shortcut: Some(string_from(shortcut_str)),
                enabled,
            },
            MenuItem::Separator(s) => MenuItem::Separator(s),
        }
    }

    /// The item disabled (a separator is unchanged).
    pub fn disabled(self) -> (r: Self)
        ensures
            self is Action ==> item_view(r) == (
                item_view(self).0,
                item_view(self).1,
                item_view(self).2,
                item_view(self).3,
                false,
            ),
            self is Separator ==> r == self,
    {
        match self {
            MenuItem::Action { label, action, shortcut, enabled: _ } => MenuItem::Action {
                label,
                action,
                shortcut,
                enabled: false,
            },
            MenuItem::Separator(s) => MenuItem::Separator(s),
        }
    }

    /// A separator line.
    pub fn separator() -> (r: Self)
        ensures
            item_view(r) == sep(),
    {
        MenuItem::Separator(MenuSeparator)
    }

    pub fn is_separator(&self) -> (r: bool)
        ensures
            r == (*self is Separator),
    {
        matches!(self, MenuItem::Separator(_))
    }

    /// The label of an action item.
    pub fn label(&self) -> (r: Option<&str>)
        ensures
            match (r, *self) {
                (Some(l), MenuItem::Action { label, .. }) => l@ == label@,
                (None, MenuItem::Separator(_)) => true,
                _ => false,
            },
    {
        match self {
            MenuItem::Action { label, .. } => Some(label.as_str()),
            MenuItem::Separator(_) => None,
        }
    }

    /// Whether the item can be chosen (separators cannot).
    pub fn is_enabled(&self) -> (r: bool)
        ensures
            r == (match *self {
                MenuItem::Action { enabled, .. } => enabled,
                MenuItem::Separator(_) => false,
            }),
    {
        match self {
            MenuItem::Action { enabled, .. } => *enabled,
            MenuItem::Separator(_) => false,
        }
    }
}

/// Selection context for generating dynamic context menus.
#[derive(Debug, Clone, PartialEq, Eq)]
pub struct SelectionContext {
    pub selected_paths: Vec<String>,
    pub is_directory: bool,
    pub has_clipboard: bool,
    pub is_git_tracked: bool,
    pub is_git_staged: bool,
    pub parent_dir: String,
}

impl Default for SelectionContext {
    fn default() -> (r: Self)
        ensures
            r.selected_paths@.len() == 0,
            !r.is_directory,
            !r.has_clipboard,
            !r.is_git_tracked,
            !r.is_git_staged,
            r.parent_dir@.len() == 0,
    {
        SelectionContext {
            selected_paths: Vec::new(),
            is_directory: false,
            has_clipboard: false,
            is_git_tracked: false,
            is_git_staged: false,
            parent_dir: String::new(),
        }
    }
}

impl SelectionContext {
    /// A click on empty space in `parent_dir`.
    pub fn empty_space(parent_dir: &str, has_clipboard: bool) -> (r: Self)
        ensures
            r.selected_paths@.len() == 0,
            r.is_directory,
            r.has_clipboard == has_clipboard,
            !r.is_git_tracked,
            !r.is_git_staged,
            r.parent_dir@ == parent_dir@,
    {
        SelectionContext {
            selected_paths: Vec::new(),
            is_directory: true,
            has_clipboard,
            is_git_tracked: false,
            is_git_staged: false,
            parent_dir: string_from(parent_dir),
        }
    }

    /// One selected file.
    pub fn single_file(path: &str, parent_dir: &str) -> (r: Self)
        ensures
            r.selected_paths@.len() == 1,
            r.selected_paths@[0]@ == path@,
            !r.is_directory,
            !r.has_clipboard,
            !r.is_git_tracked,
            !r.is_git_staged,
            r.parent_dir@ == parent_dir@,
    {
        let mut v: Vec<String> = Vec::new();
        v.push(string_from(path));
        SelectionContext {
            selected_paths: v,
            is_directory: false,
            has_clipboard: false,
            is_git_tracked: false,
            is_git_staged: false,
            parent_dir: string_from(parent_dir),
        }
    }

    /// One selected directory.
    pub fn single_dir(path: &str, parent_dir: &str) -> (r: Self)
        ensures
            r.selected_paths@.len() == 1,
            r.selected_paths@[0]@ == path@,
            r.is_directory,
            !r.has_clipboard,
            !r.is_git_tracked,
            !r.is_git_staged,
            r.parent_dir@ == parent_dir@,
    {
        let mut v: Vec<String> = Vec::new();
        v.push(string_from(path));
        SelectionContext {
            selected_paths: v,
            is_directory: true,
            has_clipboard: false,
            is_git_tracked: false,
            is_git_staged: false,
            parent_dir: string_from(parent_dir),
        }
    }

    pub fn is_empty_space(&self) -> (r: bool)
        ensures
            r == (self.selected_paths@.len() == 0),
    {
        self.selected_paths.len() == 0
    }
}

/// Builder for constructing context menus.
#[derive(Debug, Clone)]
pub struct ContextMenuBuilder {
    items: Vec<MenuItem>,
}

/// The paste item, disabled without a clipboard.
pub open spec fn paste_item(label: Seq<char>, has_clipboard: bool) -> ItemView {
    (true, label, (3nat, no_text()), Some("Ctrl+V"@), has_clipboard)
}

/// The git item and its separator, when the selection is tracked.
pub open spec fn git_items(c: SelectionContext, stage: Seq<char>, unstage: Seq<char>) -> Seq<ItemView> {
    if c.is_git_tracked {
        if c.is_git_staged {
            seq![act_plain(unstage, (9nat, no_text())), sep()]
        } else {
            seq![act_plain(stage, (8nat, no_text())), sep()]
        }
    } else {
        seq![]
    }
}

/// The name used in the prompt about one selected path.
pub open spec fn target_name(p: Seq<char>) -> Seq<char> {
    match file_name(p) {
        Some(n) => n,
        None => "selection"@,
    }
}

/// The menu for a right click on empty space.
pub open spec fn empty_space_menu(c: SelectionContext) -> Seq<ItemView> {
    seq![
        act("New File"@, (10nat, no_text()), "Ctrl+N"@),
        act("New Folder"@, (11nat, no_text()), "Ctrl+Shift+N"@),
        sep(),
        paste_item("Paste"@, c.has_clipboard),
        sep(),
        act("Ask Xavier AI"@, (7nat, "Explain directory contents"@), "Ctrl+I"@),
        sep(),
        act("Refresh"@, (12nat, no_text()), "F5"@),
        act("Properties"@, (13nat, no_text()), "Alt+Enter"@),
    ]
}

/// The menu for one selected file or directory.
pub open spec fn single_menu(c: SelectionContext) -> Seq<ItemView> {
    let open_label = if c.is_directory { "Open Directory"@ } else { "Open File"@ };
    seq![
        act(open_label, (0nat, no_text()), "Enter"@),
        sep(),
        act("Cut"@, (1nat, no_text()), "Ctrl+X"@),
        act("Copy"@, (2nat, no_text()), "Ctrl+C"@),
    ] + (if c.is_directory { seq![paste_item("Paste Into"@, c.has_clipboard)] } else { seq![] })
        + seq![
        act("Copy Path"@, (6nat, no_text()), "Ctrl+Shift+C"@),
        sep(),
        act("Rename"@, (5nat, no_text()), "F2"@),
        act("Delete"@, (4nat, no_text()), "Delete"@),
        sep(),
    ] + git_items(c, "Stage Git Change"@, "Unstage Git Change"@) + seq![
        act(
            "Ask Xavier AI"@,
            (7nat, "Analyze "@ + target_name(c.selected_paths@[0]@)),
            "Ctrl+I"@,
        ),
        sep(),
        act("Properties"@, (13nat, no_text()), "Alt+Enter"@),
    ]
}

/// The menu for several selected items.
pub open spec fn multi_menu(c: SelectionContext) -> Seq<ItemView> {
    let n = decimal(c.selected_paths@.len());
    seq![
        act_plain("Open ("@ + n + ")"@, (0nat, no_text())),
        sep(),
        act("Cut"@, (1nat, no_text()), "Ctrl+X"@),
        act("Copy"@, (2nat, no_text()), "Ctrl+C"@),
        act("Delete"@, (4nat, no_text()), "Delete"@),
        sep(),
    ] + git_items(c, "Stage All Selected"@, "Unstage All Selected"@) + seq![
        act("Ask Xavier AI"@, (7nat, "Analyze "@ + n + " selected items"@), "Ctrl+I"@),
    ]
}

/// The menu offered for a selection.
pub open spec fn menu_for(c: SelectionContext) -> Seq<ItemView> {
    if c.selected_paths@.len() == 0 {
        empty_space_menu(c)
    } else if c.selected_paths@.len() == 1 {
        single_menu(c)
    } else {
        multi_menu(c)
    }
}

fn shortcut_action(label: &str, action: MenuActionKind, shortcut: &str) -> (r: MenuItem)
    ensures
        item_view(r) == act(label@, action_view(action), shortcut@),
{
    MenuItem::action(label, action).with_shortcut(shortcut)
}

fn paste(label: &str, has_clipboard: bool) -> (r: MenuItem)
    ensures
        item_view(r) == paste_item(label@, has_clipboard),
{
    let item = shortcut_action(label, MenuActionKind::Paste, "Ctrl+V");
    if has_clipboard {
        item
    } else {
        item.disabled()
    }
}

impl ContextMenuBuilder {
    /// The items added so far.
    pub closed spec fn item_list(&self) -> Seq<MenuItem> {
        self.items@
    }

    pub fn new() -> (r: Self)
        ensures
            r.item_list().len() == 0,
    {
        ContextMenuBuilder { items: Vec::new() }
    }

    pub fn add_item(self, item: MenuItem) -> (r: Self)
        ensures
            r.item_list() == self.item_list().push(item),
    {
        let mut items = self.items;
        items.push(item);
        ContextMenuBuilder { items }
    }

    pub fn add_separator(self) -> (r: Self)
        ensures
            r.item_list().len() == self.item_list().len() + 1,
            r.item_list().drop_last() == self.item_list(),
            item_view(r.item_list().last()) == sep(),
    {
        let mut items = self.items;
        let ghost before = items@;
        items.push(MenuItem::separator());
        assert(items@.drop_last() =~= before);
        ContextMenuBuilder { items }
    }

    /// The items of the menu.
    pub fn build(self) -> (r: Vec<MenuItem>)
        ensures
            r@ == self.item_list(),
    {
        self.items
    }

    /// Appends a git item and separator when the selection is tracked.
    fn push_git_items(items: &mut Vec<MenuItem>, c: &SelectionContext, stage: &str, unstage: &str)
        ensures
            items_view(final(items)@) == items_view(old(items)@) + git_items(*c, stage@, unstage@),
    {
        let ghost before = items@;
        if c.is_git_tracked {
            if c.is_git_staged {
                items.push(MenuItem::action(unstage, MenuActionKind::GitUnstage));
            } else {
                items.push(MenuItem::action(stage, MenuActionKind::GitStage));
            }
            items.push(MenuItem::separator());
            assert(items_view(items@) =~= items_view(before) + git_items(*c, stage@, unstage@));
        } else {
            assert(items_view(items@) =~= items_view(before) + git_items(*c, stage@, unstage@));
        }
    }

    /// Builds the context menu offered for a selection.
    pub fn build_for_selection(context: &SelectionContext) -> (r: Vec<MenuItem>)
        ensures
            items_view(r@) == menu_for(*context),
    {
        let mut items: Vec<MenuItem> = Vec::new();
        let n = context.selected_paths.len();
        if n == 0 {
            items.push(shortcut_action("New File", MenuActionKind::NewFile, "Ctrl+N"));
            items.push(shortcut_action("New Folder", MenuActionKind::NewFolder, "Ctrl+Shift+N"));
            items.push(MenuItem::separator());
            items.push(paste("Paste", context.has_clipboard));
            items.push(MenuItem::separator());
            items.push(
                shortcut_action(
                    "Ask Xavier AI",
                    MenuActionKind::XavierPrompt(string_from("Explain directory contents")),
                    "Ctrl+I",
                ),
            );
            items.push(MenuItem::separator());
            items.push(shortcut_action("Refresh", MenuActionKind::Refresh, "F5"));
            items.push(shortcut_action("Properties", MenuActionKind::Properties, "Alt+Enter"));
            assert(items_view(items@) =~= empty_space_menu(*context));
        } else if n == 1 {
            let open_label = if context.is_directory {
                "Open Directory"
            } else {
                "Open File"
            };
            items.push(shortcut_action(open_label, MenuActionKind::Open, "Enter"));
            items.push(MenuItem::separator());
            items.push(shortcut_action("Cut", MenuActionKind::Cut, "Ctrl+X"));
            items.push(shortcut_action("Copy", MenuActionKind::Copy, "Ctrl+C"));
            let ghost part1 = items_view(items@);
            assert(part1 =~= seq![
                act(if context.is_directory { "Open Directory"@ } else { "Open File"@ }, (0nat, no_text()), "Enter"@),
                sep(),
                act("Cut"@, (1nat, no_text()), "Ctrl+X"@),
                act("Copy"@, (2nat, no_text()), "Ctrl+C"@),
            ]);
            if context.is_directory {
                items.push(paste("Paste Into", context.has_clipboard));
            }
            let ghost part2 = items_view(items@);
            assert(part2 =~= part1 + (if context.is_directory {
                seq![paste_item("Paste Into"@, context.has_clipboard)]
            } else {
                seq![]
            }));
            items.push(shortcut_action("Copy Path", MenuActionKind::CopyPath, "Ctrl+Shift+C"));
            items.push(MenuItem::separator());
            items.push(shortcut_action("Rename", MenuActionKind::Rename, "F2"));
            items.push(shortcut_action("Delete", MenuActionKind::Delete, "Delete"));
            items.push(MenuItem::separator());
            let ghost part3 = items_view(items@);
            assert(part3 =~= part2 + seq![
                act("Copy Path"@, (6nat, no_text()), "Ctrl+Shift+C"@),
                sep(),
                act("Rename"@, (5nat, no_text()), "F2"@),
                act("Delete"@, (4nat, no_text()), "Delete"@),
                sep(),
            ]);
            Self::push_git_items(&mut items, context, "Stage Git Change", "Unstage Git Change");
            let ghost part4 = items_view(items@);
            let p = chars_of(context.selected_paths[0].as_str());
            let name = match file_name_exec(&p) {
                Some(nm) => nm,
                None => chars_of("selection"),
            };
            let mut prompt = string_from("Analyze ");
            append_chars(&mut prompt, &name);
            assert(name@ == target_name(context.selected_paths@[0]@));
            assert(prompt@ == "Analyze "@ + target_name(context.selected_paths@[0]@));
            items.push(
                shortcut_action("Ask Xavier AI", MenuActionKind::XavierPrompt(prompt), "Ctrl+I"),
            );
            items.push(MenuItem::separator());
            items.push(shortcut_action("Properties", MenuActionKind::Properties, "Alt+Enter"));
            assert(items_view(items@) =~= part4 + seq![
                act(
                    "Ask Xavier AI"@,
                    (7nat, "Analyze "@ + target_name(context.selected_paths@[0]@)),
                    "Ctrl+I"@,
                ),
                sep(),
                act("Properties"@, (13nat, no_text()), "Alt+Enter"@),
            ]);
            assert(items_view(items@) =~= single_menu(*context));
        } else {
            let count = decimal_string(n as u64);
            let mut open_label = string_from("Open (");
            append_str(&mut open_label, count.as_str());
            append_str(&mut open_label, ")");
            items.push(MenuItem::action(open_label.as_str(), MenuActionKind::Open));
            items.push(MenuItem::separator());
            items.push(shortcut_action("Cut", MenuActionKind::Cut, "Ctrl+X"));
            items.push(shortcut_action("Copy", MenuActionKind::Copy, "Ctrl+C"));
            items.push(shortcut_action("Delete", MenuActionKind::Delete, "Delete"));
            items.push(MenuItem::separator());
            let ghost part1 = items_view(items@);
            let ghost nd = decimal(n as nat);
            assert(open_label@ == "Open ("@ + nd + ")"@);
            assert(part1 =~= seq![
                act_plain("Open ("@ + nd + ")"@, (0nat, no_text())),
                sep(),
                act("Cut"@, (1nat, no_text()), "Ctrl+X"@),
                act("Copy"@, (2nat, no_text()), "Ctrl+C"@),
                act("Delete"@, (4nat, no_text()), "Delete"@),
                sep(),
            ]);
            Self::push_git_items(&mut items, context, "Stage All Selected", "Unstage All Selected");
            let ghost part2 = items_view(items@);
            let mut prompt = string_from("Analyze ");
            append_str(&mut prompt, count.as_str());
            append_str(&mut prompt, " selected items");
            assert(prompt@ == "Analyze "@ + nd + " selected items"@);
            items.push(
                shortcut_action("Ask Xavier AI", MenuActionKind::XavierPrompt(prompt), "Ctrl+I"),
            );
            assert(items_view(items@) =~= part2 + seq![
                act("Ask Xavier AI"@, (7nat, "Analyze "@ + nd + " selected items"@), "Ctrl+I"@),
            ]);
            assert(items_view(items@) =~= multi_menu(*context));
        }
        items
    }
}

/// Whether an item is the paste action.
pub open spec fn is_paste(it: ItemView) -> bool {
    it.0 && it.2.0 == 3
}

/// Whether a menu holds exactly the given paste item (or none), and every
/// other action of it is enabled.
pub open spec fn paste_shape(m: Seq<ItemView>, paste: Option<ItemView>) -> bool {
    &&& forall|i: int| 0 <= i < m.len() && is_paste(#[trigger] m[i]) ==> paste == Some(m[i])
    &&& forall|i: int, j: int| 0 <= i < j < m.len() && is_paste(#[trigger] m[i]) ==> !is_paste(#[trigger] m[j])
    &&& (paste is Some <==> exists|i: int| 0 <= i < m.len() && is_paste(#[trigger] m[i]))
    &&& forall|i: int| 0 <= i < m.len() && (#[trigger] m[i]).0 && !is_paste(m[i]) ==> m[i].4
}

/// The paste item a selection's menu offers: "Paste" with nothing selected,
/// "Paste Into" for one directory, none otherwise; it is enabled exactly
/// with a clipboard.
pub open spec fn menu_paste(c: SelectionContext) -> Option<ItemView> {
    if c.selected_paths@.len() == 0 {
        Some(paste_item("Paste"@, c.has_clipboard))
    } else if c.selected_paths@.len() == 1 && c.is_directory {
        Some(paste_item("Paste Into"@, c.has_clipboard))
    } else {
        None
    }
}

proof fn lemma_shape_concat(a: Seq<ItemView>, b: Seq<ItemView>, pa: Option<ItemView>)
    requires
        paste_shape(a, pa),
        paste_shape(b, None),
    ensures
        paste_shape(a + b, pa),
{
    let m = a + b;
    assert forall|i: int| 0 <= i < m.len() && is_paste(#[trigger] m[i]) implies pa == Some(m[i]) by {
        if i < a.len() {
            assert(m[i] == a[i]);
        } else {
            assert(m[i] == b[i - a.len()]);
        }
    }
    assert forall|i: int, j: int| 0 <= i < j < m.len() && is_paste(#[trigger] m[i]) implies !is_paste(#[trigger] m[j]) by {
        if j >= a.len() {
            assert(m[j] == b[j - a.len()]);
        } else {
            assert(m[i] == a[i] && m[j] == a[j]);
        }
    }
    if pa is Some {
        let i = choose|i: int| 0 <= i < a.len() && is_paste(#[trigger] a[i]);
        assert(m[i] == a[i]);
    }
    if exists|i: int| 0 <= i < m.len() && is_paste(#[trigger] m[i]) {
        let i = choose|i: int| 0 <= i < m.len() && is_paste(#[trigger] m[i]);
        if i < a.len() {
            assert(m[i] == a[i]);
        } else {
            assert(m[i] == b[i - a.len()]);
        }
    }
    assert forall|i: int| 0 <= i < m.len() && (#[trigger] m[i]).0 && !is_paste(m[i]) implies m[i].4 by {
        if i < a.len() {
            assert(m[i] == a[i]);
        } else {
            assert(m[i] == b[i - a.len()]);
        }
    }
}

proof fn lemma_shape_none(m: Seq<ItemView>)
    requires
        forall|i: int| 0 <= i < m.len() ==> !is_paste(#[trigger] m[i]) && (m[i].0 ==> m[i].4),
    ensures
        paste_shape(m, None),
{
}

proof fn lemma_shape_one(it: ItemView)
    requires
        is_paste(it),
    ensures
        paste_shape(seq![it], Some(it)),
{
    assert(seq![it][0] == it);
}

/// A menu holds at most one paste item, the one `menu_paste` gives, and every
/// other action of it is enabled.
pub proof fn law_menu_paste(c: SelectionContext)
    ensures
        paste_shape(menu_for(c), menu_paste(c)),
{
    let n = c.selected_paths@.len();
    let g1 = git_items(c, "Stage Git Change"@, "Unstage Git Change"@);
    let g2 = git_items(c, "Stage All Selected"@, "Unstage All Selected"@);
    lemma_shape_none(g1);
    lemma_shape_none(g2);
    if n == 0 {
        let a = seq![
            act("New File"@, (10nat, no_text()), "Ctrl+N"@),
            act("New Folder"@, (11nat, no_text()), "Ctrl+Shift+N"@),
            sep(),
        ];
        let p = seq![paste_item("Paste"@, c.has_clipboard)];
        let b = seq![
            sep(),
            act("Ask Xavier AI"@, (7nat, "Explain directory contents"@), "Ctrl+I"@),
            sep(),
            act("Refresh"@, (12nat, no_text()), "F5"@),
            act("Properties"@, (13nat, no_text()), "Alt+Enter"@),
        ];
        lemma_shape_none(a);
        lemma_shape_one(paste_item("Paste"@, c.has_clipboard));
        lemma_shape_none(b);
        lemma_shape_concat(p, b, menu_paste(c));
        // a + (p + b), with no paste in a
        let pb = p + b;
        assert(paste_shape(a + pb, menu_paste(c))) by {
            let m = a + pb;
            assert forall|i: int| 0 <= i < m.len() && is_paste(#[trigger] m[i]) implies menu_paste(c) == Some(m[i]) by {
                if i < a.len() { assert(m[i] == a[i]); } else { assert(m[i] == pb[i - a.len()]); }
            }
            assert forall|i: int, j: int| 0 <= i < j < m.len() && is_paste(#[trigger] m[i]) implies !is_paste(#[trigger] m[j]) by {
                if i < a.len() { assert(m[i] == a[i]); } else { assert(m[i] == pb[i - a.len()] && m[j] == pb[j - a.len()]); }
            }
            let k = choose|k: int| 0 <= k < pb.len() && is_paste(#[trigger] pb[k]);
            assert(m[k + a.len()] == pb[k]);
            assert forall|i: int| 0 <= i < m.len() && (#[trigger] m[i]).0 && !is_paste(m[i]) implies m[i].4 by {
                if i < a.len() { assert(m[i] == a[i]); } else { assert(m[i] == pb[i - a.len()]); }
            }
        }
        assert(empty_space_menu(c) =~= a + pb);
    } else if n == 1 {
        let open_label = if c.is_directory { "Open Directory"@ } else { "Open File"@ };
        let a = seq![
            act(open_label, (0nat, no_text()), "Enter"@),
            sep(),
            act("Cut"@, (1nat, no_text()), "Ctrl+X"@),
            act("Copy"@, (2nat, no_text()), "Ctrl+C"@),
        ];
        let p: Seq<ItemView> = if c.is_directory { seq![paste_item("Paste Into"@, c.has_clipboard)] } else { seq![] };
        let b = seq![
            act("Copy Path"@, (6nat, no_text()), "Ctrl+Shift+C"@),
            sep(),
            act("Rename"@, (5nat, no_text()), "F2"@),
            act("Delete"@, (4nat, no_text()), "Delete"@),
            sep(),
        ];
        let d = seq![
            act(
                "Ask Xavier AI"@,
                (7nat, "Analyze "@ + target_name(c.selected_paths@[0]@)),
                "Ctrl+I"@,
            ),
            sep(),
            act("Properties"@, (13nat, no_text()), "Alt+Enter"@),
        ];
        lemma_shape_none(a);
        lemma_shape_none(b);
        lemma_shape_none(d);
        if c.is_directory {
            lemma_shape_one(paste_item("Paste Into"@, c.has_clipboard));
        } else {
            lemma_shape_none(p);
        }
        lemma_shape_concat(b, g1, None);
        lemma_shape_concat(b + g1, d, None);
        lemma_shape_concat(p, (b + g1) + d, menu_paste(c));
        let rest = p + ((b + g1) + d);
        assert(paste_shape(a + rest, menu_paste(c))) by {
            let m = a + rest;
            assert forall|i: int| 0 <= i < m.len() && is_paste(#[trigger] m[i]) implies menu_paste(c) == Some(m[i]) by {
                if i < a.len() { assert(m[i] == a[i]); } else { assert(m[i] == rest[i - a.len()]); }
            }
            assert forall|i: int, j: int| 0 <= i < j < m.len() && is_paste(#[trigger] m[i]) implies !is_paste(#[trigger] m[j]) by {
                if i < a.len() { assert(m[i] == a[i]); } else { assert(m[i] == rest[i - a.len()] && m[j] == rest[j - a.len()]); }
            }
            if menu_paste(c) is Some {
                let k = choose|k: int| 0 <= k < rest.len() && is_paste(#[trigger] rest[k]);
                assert(m[k + a.len()] == rest[k]);
            }
            if exists|i: int| 0 <= i < m.len() && is_paste(#[trigger] m[i]) {
                let i = choose|i: int| 0 <= i < m.len() && is_paste(#[trigger] m[i]);
                if i < a.len() { assert(m[i] == a[i]); } else { assert(m[i] == rest[i - a.len()]); }
            }
            assert forall|i: int| 0 <= i < m.len() && (#[trigger] m[i]).0 && !is_paste(m[i]) implies m[i].4 by {
                if i < a.len() { assert(m[i] == a[i]); } else { assert(m[i] == rest[i - a.len()]); }
            }
        }
        assert(single_menu(c) =~= a + rest);
    } else {
        let nd = decimal(c.selected_paths@.len());
        let a = seq![
            act_plain("Open ("@ + nd + ")"@, (0nat, no_text())),
            sep(),
            act("Cut"@, (1nat, no_text()), "Ctrl+X"@),
            act("Copy"@, (2nat, no_text()), "Ctrl+C"@),
            act("Delete"@, (4nat, no_text()), "Delete"@),
            sep(),
        ];
        let d = seq![act("Ask Xavier AI"@, (7nat, "Analyze "@ + nd + " selected items"@), "Ctrl+I"@)];
        lemma_shape_none(a);
        lemma_shape_none(d);
        lemma_shape_concat(a, g2, None);
        lemma_shape_concat(a + g2, d, None);
        assert(multi_menu(c) =~= (a + g2) + d);
    }
}

} // verus!
