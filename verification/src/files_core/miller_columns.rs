//! Column view state: one column per level of the directory hierarchy, with
//! the selection in each column.
use vstd::prelude::*;
use crate::files_core::types::FileEntry;
use crate::text::string_from;

verus! {

/// Selection state within a single column level.
#[derive(Debug, Clone, PartialEq, Eq)]
pub struct ColumnSelectionState {
    pub selected_index: Option<usize>,
    pub selected_path: Option<String>,
    pub is_dir: bool,
}

impl Default for ColumnSelectionState {
    fn default() -> (r: Self)
        ensures
            r.selected_index is None,
            r.selected_path is None,
            !r.is_dir,
    {
        ColumnSelectionState { selected_index: None, selected_path: None, is_dir: false }
    }
}

impl ColumnSelectionState {
    /// Nothing selected.
    pub fn none() -> (r: Self)
        ensures
            r.selected_index is None,
            r.selected_path is None,
            !r.is_dir,
    {
        Self::default()
    }

    /// The entry at `index`, with its path and whether it is a directory.
    pub fn select(index: usize, path: String, is_dir: bool) -> (r: Self)
        ensures
            r.selected_index == Some(index),
            r.selected_path == Some(path),
            r.is_dir == is_dir,
    {
        ColumnSelectionState { selected_index: Some(index), selected_path: Some(path), is_dir }
    }

    /// Clears the selection.
    pub fn clear(&mut self)
        ensures
            final(self).selected_index is None,
            final(self).selected_path is None,
            !final(self).is_dir,
    {
        *self = Self::default();
    }

    /// Whether an entry is selected.
    pub fn is_selected(&self) -> (r: bool)
        ensures
            r == self.selected_index is Some,
    {
        self.selected_index.is_some()
    }
}

/// A single column (hierarchy level) of the column view.
#[derive(Debug, Clone, PartialEq, Eq)]
pub struct ColumnLevel {
    pub depth: usize,
    pub path: String,
    pub entries: Vec<FileEntry>,
    pub selection: ColumnSelectionState,
}

/// Whether a selection records the entry at `i` of `entries`.
pub open spec fn selects(s: ColumnSelectionState, entries: Seq<FileEntry>, i: int) -> bool {
    &&& s.selected_index == Some(i as usize)
    &&& s.selected_path matches Some(p) && p@ == entries[i].path@
    &&& s.is_dir == (entries[i].file_type is Directory)
}

impl ColumnLevel {
    pub fn new(depth: usize, path: String, entries: Vec<FileEntry>) -> (r: Self)
        ensures
            r.depth == depth,
            r.path == path,
            r.entries == entries,
            r.selection.selected_index is None,
            r.selection.selected_path is None,
            !r.selection.is_dir,
    {
        ColumnLevel { depth, path, entries, selection: ColumnSelectionState::none() }
    }

    /// Selects the entry at `index` when there is one, and returns it.
    pub fn select_index(&mut self, index: usize) -> (r: Option<&FileEntry>)
        ensures
            final(self).depth == old(self).depth,
            final(self).path == old(self).path,
            final(self).entries == old(self).entries,
            index < old(self).entries.len() ==> {
                &&& selects(final(self).selection, old(self).entries@, index as int)
                &&& r == Some(&old(self).entries@[index as int])
            },
            index >= old(self).entries.len() ==> r is None && final(self).selection == old(
                self,
            ).selection,
    {
        if index < self.entries.len() {
            let path = string_from(self.entries[index].path.as_str());
            let is_dir = self.entries[index].is_dir();
            self.selection = ColumnSelectionState::select(index, path, is_dir);
            Some(&self.entries[index])
        } else {
            None
        }
    }

    /// The selected entry, if the selection points at one.
    pub fn selected_entry(&self) -> (r: Option<&FileEntry>)
        ensures
            r == (match self.selection.selected_index {
                Some(i) => if i < self.entries.len() {
                    Some(&self.entries@[i as int])
                } else {
                    None
                },
                None => None,
            }),
    {
        match self.selection.selected_index {
            Some(i) => {
                if i < self.entries.len() {
                    Some(&self.entries[i])
                } else {
                    None
                }
            },
            None => None,
        }
    }

    /// Clears the selection.
    pub fn clear_selection(&mut self)
        ensures
            final(self).depth == old(self).depth,
            final(self).path == old(self).path,
            final(self).entries == old(self).entries,
            final(self).selection.selected_index is None,
            final(self).selection.selected_path is None,
            !final(self).selection.is_dir,
    {
        self.selection.clear();
    }

    pub fn len(&self) -> (r: usize)
        ensures
            r == self.entries.len(),
    {
        self.entries.len()
    }

    pub fn is_empty(&self) -> (r: bool)
        ensures
            r == (self.entries.len() == 0),
    {
        self.entries.len() == 0
    }
}

/// Multi-column hierarchical directory view: one column per level, the
/// deepest opened last.
#[derive(Debug, Clone, PartialEq, Eq)]
pub struct MillerColumnsTree {
    pub root_path: String,
    columns: Vec<ColumnLevel>,
    active_column_index: usize,
    max_visible_columns: usize,
}

/// The range of columns shown: all of them when they fit, else a window of
/// `max` columns that ends at the active one (or starts at the first while
/// the active one is among the first `max`).
pub open spec fn visible_range(len: nat, active: nat, max: nat) -> (nat, nat) {
    if len <= max {
        (0, len)
    } else if active < max {
        (0, max)
    } else {
        ((active + 1 - max) as nat, active + 1)
    }
}

/// The index a step up selects: the one before the selection (staying at 0),
/// or the last entry when nothing is selected.
pub open spec fn index_up(selected: Option<usize>, len: nat) -> nat {
    match selected {
        Some(i) => if i > 0 { (i - 1) as nat } else { 0 },
        None => (len - 1) as nat,
    }
}

/// The index a step down selects: the one after the selection (staying at
/// the last), or the first entry when nothing is selected.
pub open spec fn index_down(selected: Option<usize>, len: nat) -> nat {
    match selected {
        Some(i) => if i + 1 < len { (i + 1) as nat } else { (len - 1) as nat },
        None => 0,
    }
}

/// A freshly opened column: at `depth`, for `path`, empty and unselected.
pub open spec fn is_empty_column(c: ColumnLevel, depth: usize, path: Seq<char>) -> bool {
    &&& c.depth == depth
    &&& c.path@ == path
    &&& c.entries@.len() == 0
    &&& c.selection.selected_index is None
    &&& c.selection.selected_path is None
    &&& !c.selection.is_dir
}

impl MillerColumnsTree {
    /// The columns, root first.
    pub closed spec fn cols(&self) -> Seq<ColumnLevel> {
        self.columns@
    }

    /// Index of the active column.
    pub closed spec fn active(&self) -> nat {
        self.active_column_index as nat
    }

    /// Number of columns shown at most.
    pub closed spec fn max_visible(&self) -> nat {
        self.max_visible_columns as nat
    }

    /// There is always a column, the active one among them, and at least
    /// one column is shown.
    pub open spec fn wf(&self) -> bool {
        &&& self.cols().len() >= 1
        &&& self.active() < self.cols().len()
        &&& self.max_visible() >= 1
    }

    /// The path the view is rooted at.
    pub closed spec fn root(&self) -> String {
        self.root_path
    }

    /// The columns after selecting entry `item` of column `d`, whose new
    /// state is `sel`: the columns past `d` are closed, and a directory
    /// opens one more column for its contents.
    pub open spec fn selected_cols(cols: Seq<ColumnLevel>, d: int, item: int, sel: ColumnLevel, after: Seq<ColumnLevel>) -> bool {
        let entry = cols[d].entries@[item];
        &&& after.take(d + 1) == cols.take(d).push(sel)
        &&& if entry.file_type is Directory {
            &&& after.len() == d + 2
            &&& is_empty_column(after[d + 1], (d + 1) as usize, entry.path@)
        } else {
            after.len() == d + 1
        }
    }

    /// A view rooted at `root_path`, with one empty column.
    pub fn new(root_path: &str) -> (r: Self)
        ensures
            r.wf(),
            r.root()@ == root_path@,
            r.cols().len() == 1,
            r.cols()[0].depth == 0,
            r.cols()[0].path@ == root_path@,
            r.cols()[0].entries@.len() == 0,
            r.cols()[0].selection.selected_index is None,
            r.active() == 0,
            r.max_visible() == 4,
    {
        let mut columns: Vec<ColumnLevel> = Vec::new();
        columns.push(ColumnLevel::new(0, string_from(root_path), Vec::new()));
        MillerColumnsTree {
            root_path: string_from(root_path),
            columns,
            active_column_index: 0,
            max_visible_columns: 4,
        }
    }

    pub fn columns(&self) -> (r: &[ColumnLevel])
        ensures
            r@ == self.cols(),
    {
        self.columns.as_slice()
    }

    pub fn active_column_index(&self) -> (r: usize)
        ensures
            r == self.active(),
    {
        self.active_column_index
    }

    pub fn active_column(&self) -> (r: Option<&ColumnLevel>)
        ensures
            r == (if self.active() < self.cols().len() {
                Some(&self.cols()[self.active() as int])
            } else {
                None
            }),
    {
        if self.active_column_index < self.columns.len() {
            Some(&self.columns[self.active_column_index])
        } else {
            None
        }
    }

    /// The active column, for changes in place.
    pub fn active_column_mut(&mut self) -> (r: Option<&mut ColumnLevel>)
        ensures
            final(self).active() == old(self).active(),
            final(self).root() == old(self).root(),
            final(self).max_visible() == old(self).max_visible(),
            old(self).active() < old(self).cols().len() ==> (r matches Some(c) && *c == old(self).cols()[old(self).active() as int]
                && final(self).cols() == old(self).cols().update(old(self).active() as int, *final(c))),
            old(self).active() >= old(self).cols().len() ==> r is None && final(self).cols() == old(self).cols(),
    {
        if self.active_column_index < self.columns.len() {
            Some(&mut self.columns[self.active_column_index])
        } else {
            None
        }
    }

    /// Replaces the entries of the root column.
    pub fn set_root_entries(&mut self, entries: Vec<FileEntry>)
        requires
            old(self).wf(),
        ensures
            final(self).wf(),
            final(self).root() == old(self).root(),
            final(self).active() == old(self).active(),
            final(self).max_visible() == old(self).max_visible(),
            final(self).cols().len() == old(self).cols().len(),
            final(self).cols()[0] == (ColumnLevel { entries, ..old(self).cols()[0] }),
            forall|i: int| 0 < i < old(self).cols().len() ==> final(self).cols()[i] == old(self).cols()[i],
    {
        let _ = self.set_child_entries(0, entries);
    }

    /// Replaces the entries of the column at `depth`, when there is one.
    pub fn set_child_entries(&mut self, depth: usize, entries: Vec<FileEntry>) -> (r: bool)
        requires
            old(self).wf(),
        ensures
            final(self).wf(),
            r == (depth < old(self).cols().len()),
            final(self).root() == old(self).root(),
            final(self).active() == old(self).active(),
            final(self).max_visible() == old(self).max_visible(),
            r ==> final(self).cols() == old(self).cols().update(
                depth as int,
                ColumnLevel { entries, ..old(self).cols()[depth as int] },
            ),
            !r ==> final(self).cols() == old(self).cols(),
    {
        if depth < self.columns.len() {
            let mut col = self.columns.remove(depth);
            col.entries = entries;
            self.columns.insert(depth, col);
            assert(self.columns@ =~= old(self).columns@.update(
                depth as int,
                ColumnLevel { entries, ..old(self).columns@[depth as int] },
            ));
            true
        } else {
            false
        }
    }

    /// Selects entry `item_index` of the column at `column_depth`: the
    /// columns to its right close and it becomes active; a directory opens
    /// an empty column for its contents. Returns the selected entry.
    pub fn select_item(&mut self, column_depth: usize, item_index: usize) -> (r: Option<&FileEntry>)
        requires
            old(self).wf(),
        ensures
            final(self).wf(),
            final(self).root() == old(self).root(),
            final(self).max_visible() == old(self).max_visible(),
            column_depth >= old(self).cols().len() ==> r is None && *final(self) == *old(self),
            column_depth < old(self).cols().len() ==> {
                let d = column_depth as int;
                let col = old(self).cols()[d];
                &&& final(self).active() == column_depth
                &&& item_index < col.entries.len() ==> {
                    &&& selects(final(self).cols()[d].selection, col.entries@, item_index as int)
                    &&& Self::selected_cols(
                        old(self).cols(),
                        d,
                        item_index as int,
                        final(self).cols()[d],
                        final(self).cols(),
                    )
                    &&& r == Some(&col.entries@[item_index as int])
                }
                &&& item_index >= col.entries.len() ==> {
                    &&& r is None
                    &&& final(self).cols() == old(self).cols().take(d + 1)
                }
                &&& final(self).cols()[d].depth == col.depth
                &&& final(self).cols()[d].path == col.path
                &&& final(self).cols()[d].entries == col.entries
            },
    {
        if column_depth >= self.columns.len() {
            return None;
        }
        let ghost cols0 = self.columns@;
        self.columns.truncate(column_depth + 1);
        self.active_column_index = column_depth;
        let mut col = self.columns.pop().unwrap();
        assert(self.columns@ =~= cols0.take(column_depth as int));
        let found = item_index < col.entries.len();
        if found {
            let path = string_from(col.entries[item_index].path.as_str());
            let is_dir = col.entries[item_index].is_dir();
            col.selection = ColumnSelectionState::select(item_index, path, is_dir);
            let next_path = string_from(col.entries[item_index].path.as_str());
            self.columns.push(col);
            if is_dir {
                self.columns.push(ColumnLevel::new(column_depth + 1, next_path, Vec::new()));
            }
            assert(self.columns@.take(column_depth + 1) =~= cols0.take(column_depth as int).push(self.columns@[column_depth as int]));
            let c = &self.columns[column_depth];
            Some(&c.entries[item_index])
        } else {
            self.columns.push(col);
            assert(self.columns@ =~= cols0.take(column_depth + 1));
            None
        }
    }

    /// Moves the focus one column left, when there is one.
    pub fn navigate_left(&mut self) -> (r: bool)
        requires
            old(self).wf(),
        ensures
            final(self).wf(),
            r == (old(self).active() > 0),
            final(self).cols() == old(self).cols(),
            final(self).root() == old(self).root(),
            final(self).max_visible() == old(self).max_visible(),
            final(self).active() == if r { (old(self).active() - 1) as nat } else { old(self).active() },
    {
        if self.active_column_index > 0 {
            self.active_column_index -= 1;
            true
        } else {
            false
        }
    }

    /// Moves the focus one column right, when there is one.
    pub fn navigate_right(&mut self) -> (r: bool)
        requires
            old(self).wf(),
        ensures
            final(self).wf(),
            r == (old(self).active() + 1 < old(self).cols().len()),
            final(self).cols() == old(self).cols(),
            final(self).root() == old(self).root(),
            final(self).max_visible() == old(self).max_visible(),
            final(self).active() == if r { old(self).active() + 1 } else { old(self).active() },
    {
        if self.active_column_index < self.columns.len() - 1 {
            self.active_column_index += 1;
            true
        } else {
            false
        }
    }

    /// Selects the entry above the selection in the active column (the last
    /// one when nothing is selected). False when the column is empty or the
    /// selection lies past its entries.
    pub fn navigate_up(&mut self) -> (r: bool)
        requires
            old(self).wf(),
        ensures
            final(self).wf(),
            ({
                let col = old(self).cols()[old(self).active() as int];
                let i = index_up(col.selection.selected_index, col.entries.len() as nat);
                &&& r == (col.entries.len() > 0 && i < col.entries.len())
                &&& col.entries.len() == 0 ==> *final(self) == *old(self)
                &&& col.entries.len() > 0 ==> final(self).active() == old(self).active()
                &&& r ==> {
                    let i = index_up(col.selection.selected_index, col.entries.len() as nat);
                    &&& selects(final(self).cols()[old(self).active() as int].selection, col.entries@, i as int)
                    &&& final(self).active() == old(self).active()
                }
            }),
    {
        let a = self.active_column_index;
        let len = self.columns[a].len();
        if len == 0 {
            return false;
        }
        let new_idx = match self.columns[a].selection.selected_index {
            Some(i) => if i > 0 { i - 1 } else { 0 },
            None => len - 1,
        };
        self.select_item(a, new_idx).is_some()
    }

    /// Selects the entry below the selection in the active column (the
    /// first one when nothing is selected). False when the column is empty.
    pub fn navigate_down(&mut self) -> (r: bool)
        requires
            old(self).wf(),
        ensures
            final(self).wf(),
            ({
                let col = old(self).cols()[old(self).active() as int];
                &&& r == (col.entries.len() > 0)
                &&& !r ==> *final(self) == *old(self)
                &&& r ==> {
                    let i = index_down(col.selection.selected_index, col.entries.len() as nat);
                    &&& selects(final(self).cols()[old(self).active() as int].selection, col.entries@, i as int)
                    &&& final(self).active() == old(self).active()
                }
            }),
    {
        let a = self.active_column_index;
        let len = self.columns[a].len();
        if len == 0 {
            return false;
        }
        let new_idx = match self.columns[a].selection.selected_index {
            Some(i) => if i < len - 1 { i + 1 } else { len - 1 },
            None => 0,
        };
        self.select_item(a, new_idx).is_some()
    }

    /// The path in focus: the selected entry of the active column, else that
    /// column's own path.
    pub fn active_path(&self) -> (r: String)
        requires
            self.wf(),
        ensures
            ({
                let col = self.cols()[self.active() as int];
                r@ == match col.selection.selected_path {
                    Some(p) => p@,
                    None => col.path@,
                }
            }),
    {
        let col = &self.columns[self.active_column_index];
        match &col.selection.selected_path {
            Some(p) => string_from(p.as_str()),
            None => string_from(col.path.as_str()),
        }
    }

    /// Number of open columns.
    pub fn depth(&self) -> (r: usize)
        ensures
            r == self.cols().len(),
    {
        self.columns.len()
    }

    /// The columns shown, as a half-open range of indices.
    pub fn visible_column_range(&self) -> (r: (usize, usize))
        requires
            self.wf(),
        ensures
            (r.0 as nat, r.1 as nat) == visible_range(self.cols().len(), self.active(), self.max_visible()),
            r.0 <= self.active() < r.1 <= self.cols().len(),
            r.1 - r.0 <= self.max_visible(),
    {
        if self.columns.len() <= self.max_visible_columns {
            (0, self.columns.len())
        } else if self.active_column_index < self.max_visible_columns {
            (0, self.max_visible_columns)
        } else {
            (self.active_column_index + 1 - self.max_visible_columns, self.active_column_index + 1)
        }
    }

    /// Sets how many columns are shown; zero is ignored.
    pub fn set_max_visible_columns(&mut self, count: usize)
        requires
            old(self).wf(),
        ensures
            final(self).wf(),
            final(self).cols() == old(self).cols(),
            final(self).active() == old(self).active(),
            final(self).root() == old(self).root(),
            final(self).max_visible() == if count > 0 { count as nat } else { old(self).max_visible() },
    {
        if count > 0 {
            self.max_visible_columns = count;
        }
    }
}

} // verus!
