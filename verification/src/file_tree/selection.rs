//! The cursor and the multi-selection.

use vstd::prelude::*;

use super::{FileTree, FileTreeEvent, FileTreeView};
use crate::navigation;
use crate::ordered::KeyedVec;
use crate::protocol::EntryKind;
use crate::rows;
use crate::rows::{Row, RowView};
use crate::text;

verus! {

/// The view of an optional index.
pub open spec fn index_view(index: Option<usize>) -> Option<nat> {
    match index {
        Some(i) => Some(i as nat),
        None => None,
    }
}

/// The paths of the rows from `a` to `b`, both included, whichever comes first.
pub open spec fn paths_between(list: Seq<RowView>, a: nat, b: nat) -> Set<Seq<char>> {
    let start = if a < b { a } else { b };
    let end = if a < b { b } else { a };
    Set::new(
        |path: Seq<char>|
            exists|k: int| start <= k <= end && #[trigger] list[k].path == path,
    )
}

/// The paths of the first `n` rows that are selected files, in row order.
pub open spec fn open_targets(
    list: Seq<RowView>,
    selection: Set<Seq<char>>,
    n: nat,
) -> Seq<Seq<char>>
    decreases n,
{
    if n == 0 {
        Seq::empty()
    } else {
        let rest = open_targets(list, selection, (n - 1) as nat);
        let row = list[n - 1];
        if row.kind == EntryKind::File && selection.contains(row.path) {
            rest.push(row.path)
        } else {
            rest
        }
    }
}

/// The events ask to open `targets`, one each, in order.
pub open spec fn open_events(events: Seq<FileTreeEvent>, targets: Seq<Seq<char>>) -> bool {
    &&& events.len() == targets.len()
    &&& forall|i: int| 0 <= i < events.len() ==> super::opens(#[trigger] events[i], targets[i])
}

/// The range that a shift-click on `path` selects.
pub open spec fn shift_range(v: FileTreeView, path: Seq<char>) -> Set<Seq<char>> {
    match (
        navigation::position_of_opt(v.rows, v.selected),
        navigation::position_of(v.rows, path),
    ) {
        (Some(a), Some(b)) => paths_between(v.rows, a, b),
        _ => Set::<Seq<char>>::empty().insert(path),
    }
}

/// What `Enter` does in a state with a clean cache: `after` is the state and
/// `events` are the requests.
pub open spec fn opened(
    v: FileTreeView,
    after: FileTreeView,
    events: Seq<FileTreeEvent>,
) -> bool {
    let targets = open_targets(v.rows, v.selection, v.rows.len());
    if targets.len() > 0 {
        after == v && open_events(events, targets)
    } else {
        match (v.selected, navigation::position_of_opt(v.rows, v.selected)) {
            (Some(path), Some(i)) => if v.rows[i as int].kind == EntryKind::Dir {
                &&& after == (FileTreeView {
                    collapsed: super::toggled(v.collapsed, path),
                    dirty: true,
                    ..v
                })
                &&& events.len() == 0
            } else {
                &&& after == v
                &&& events.len() == 1
                &&& super::opens(events[0], path)
            },
            _ => after == v && events.len() == 0,
        }
    }
}

/// What `Left` does in a state with a clean cache: `after` is the state and
/// `scroll` the row to scroll to.
pub open spec fn stepped_left(v: FileTreeView, after: FileTreeView, scroll: Option<nat>) -> bool {
    match v.selected {
        None => {
            &&& after == (FileTreeView { selected: navigation::path_at(v.rows, 0), ..v })
            &&& scroll == navigation::position_of_opt(after.rows, after.selected)
        },
        Some(path) => match navigation::position_of(v.rows, path) {
            None => after == v && scroll is None,
            Some(i) => if v.rows[i as int].kind == EntryKind::Dir && !v.collapsed.contains(path) {
                let folded = FileTreeView {
                    collapsed: super::toggled(v.collapsed, path),
                    dirty: true,
                    ..v
                };
                &&& super::fresh_rows(folded, after.rows)
                &&& after == super::with_rows(folded, after.rows)
                &&& scroll == navigation::position_of_opt(after.rows, after.selected)
            } else {
                &&& after == (FileTreeView {
                    selected: match navigation::parent_row(v.rows, i as int) {
                        Some(k) => Some(v.rows[k as int].path),
                        None => v.selected,
                    },
                    ..v
                })
                &&& scroll == navigation::position_of_opt(after.rows, after.selected)
            },
        },
    }
}

/// What `Right` does in a state with a clean cache: `after` is the state and
/// `scroll` the row to scroll to.
pub open spec fn stepped_right(v: FileTreeView, after: FileTreeView, scroll: Option<nat>) -> bool {
    match v.selected {
        None => {
            &&& after == (FileTreeView { selected: navigation::path_at(v.rows, 0), ..v })
            &&& scroll == navigation::position_of_opt(after.rows, after.selected)
        },
        Some(path) => match navigation::position_of(v.rows, path) {
            None => after == v && scroll is None,
            Some(i) => if v.rows[i as int].kind == EntryKind::Dir && v.collapsed.contains(path) {
                let unfolded = FileTreeView {
                    collapsed: super::toggled(v.collapsed, path),
                    dirty: true,
                    ..v
                };
                &&& super::fresh_rows(unfolded, after.rows)
                &&& after == super::with_rows(unfolded, after.rows)
                &&& scroll == navigation::position_of_opt(after.rows, after.selected)
            } else {
                &&& after == (FileTreeView {
                    selected: if navigation::has_child_row(v.rows, i as int) {
                        Some(v.rows[i as int + 1].path)
                    } else {
                        v.selected
                    },
                    ..v
                })
                &&& scroll == navigation::position_of_opt(after.rows, after.selected)
            },
        },
    }
}

/// The state after extending the selection by the row that a step leads to.
pub open spec fn extended(v: FileTreeView, step: int) -> FileTreeView {
    match v.selected {
        None => FileTreeView { selected: navigation::path_at(v.rows, 0), ..v },
        Some(path) => match navigation::path_at(v.rows, step) {
            Some(next) => FileTreeView {
                selected: Some(next),
                selection: v.selection.insert(path).insert(next),
                ..v
            },
            None => FileTreeView { selection: v.selection.insert(path), ..v },
        },
    }
}

impl FileTree {
    // -----------------------------------------------------------------------
    // Clicks
    // -----------------------------------------------------------------------

    /// A plain click on a directory: moves the cursor there, drops the
    /// multi-selection and toggles the directory.
    pub fn click_dir(&mut self, path: &str)
        requires
            old(self).wf(),
        ensures
            final(self).wf(),
            final(self)@ == (FileTreeView {
                selected: Some(path@),
                selection: Set::empty(),
                collapsed: super::toggled(old(self)@.collapsed, path@),
                dirty: true,
                ..old(self)@
            }),
    {
        self.cache_dirty = true;
        self.selected = Some(path.to_owned());
        self.selection = super::no_paths();
        self.toggle_dir(path);
    }

    /// A plain click on a file: moves the cursor there, drops the
    /// multi-selection and asks to open the file.
    pub fn click_file(&mut self, path: &str) -> (event: FileTreeEvent)
        requires
            old(self).wf(),
        ensures
            final(self).wf(),
            final(self)@ == (FileTreeView {
                selected: Some(path@),
                selection: Set::empty(),
                dirty: true,
                ..old(self)@
            }),
            super::opens(event, path@),
    {
        self.selected = Some(path.to_owned());
        self.selection = super::no_paths();
        self.cache_dirty = true;
        FileTreeEvent::OpenFile { path: path.to_owned() }
    }

    /// Flips `path` in the multi-selection and moves the cursor there.
    pub fn toggle_selection(&mut self, path: &str)
        requires
            old(self).wf(),
        ensures
            final(self).wf(),
            final(self)@ == (FileTreeView {
                selected: Some(path@),
                selection: super::toggled(old(self)@.selection, path@),
                dirty: true,
                ..old(self)@
            }),
    {
        super::set_toggle(&mut self.selection, path);
        self.selected = Some(path.to_owned());
        self.cache_dirty = true;
    }

    /// Selects the visible rows between the cursor and `path` and moves the
    /// cursor there. Without a visible range it selects `path` alone.
    pub fn range_select(&mut self, path: &str)
        requires
            old(self).wf(),
        ensures
            final(self).wf(),
            super::refreshed(old(self)@, final(self)@.rows),
            final(self)@ == (FileTreeView {
                rows: final(self)@.rows,
                selected: Some(path@),
                selection: shift_range(
                    super::with_rows(old(self)@, final(self)@.rows),
                    path@,
                ),
                dirty: true,
                ..old(self)@
            }),
    {
        self.refresh_row_cache();
        let ghost v = self@;
        let anchor: Option<usize> = match &self.selected {
            Some(anchor) => navigation::row_index(&self.row_cache, anchor.as_str()),
            None => None,
        };
        let target = navigation::row_index(&self.row_cache, path);
        self.selected = Some(path.to_owned());
        self.cache_dirty = true;
        let mut picked = super::no_paths();
        match (anchor, target) {
            (Some(a), Some(b)) => {
                let start: usize = if a < b {
                    a
                } else {
                    b
                };
                let end: usize = if a < b {
                    b
                } else {
                    a
                };
                collect_paths(&self.row_cache, &mut picked, start, end);
                proof {
                    assert(picked.keys() =~= paths_between(v.rows, a as nat, b as nat));
                }
            },
            _ => {
                super::set_insert(&mut picked, path);
            },
        }
        self.selection = picked;
    }

    /// A click on a row: the secondary modifier flips it in the selection,
    /// shift selects a range, and a plain click toggles a directory or opens a
    /// file.
    pub fn click_row(
        &mut self,
        path: &str,
        kind: EntryKind,
        secondary: bool,
        shift: bool,
    ) -> (event: Option<FileTreeEvent>)
        requires
            old(self).wf(),
        ensures
            final(self).wf(),
            event is Some <==> !secondary && !shift && kind == EntryKind::File,
            event matches Some(e) ==> super::opens(e, path@),
            secondary ==> final(self)@ == (FileTreeView {
                selected: Some(path@),
                selection: super::toggled(old(self)@.selection, path@),
                dirty: true,
                ..old(self)@
            }),
            !secondary && shift ==> {
                &&& super::refreshed(old(self)@, final(self)@.rows)
                &&& final(self)@ == (FileTreeView {
                    rows: final(self)@.rows,
                    selected: Some(path@),
                    selection: shift_range(
                        super::with_rows(old(self)@, final(self)@.rows),
                        path@,
                    ),
                    dirty: true,
                    ..old(self)@
                })
            },
            !secondary && !shift ==> final(self)@ == (FileTreeView {
                selected: Some(path@),
                selection: Set::empty(),
                collapsed: if kind == EntryKind::Dir {
                    super::toggled(old(self)@.collapsed, path@)
                } else {
                    old(self)@.collapsed
                },
                dirty: true,
                ..old(self)@
            }),
    {
        if secondary {
            self.toggle_selection(path);
            None
        } else if shift {
            self.range_select(path);
            None
        } else {
            match kind {
                EntryKind::Dir => {
                    self.click_dir(path);
                    None
                },
                EntryKind::File => Some(self.click_file(path)),
            }
        }
    }

    /// A right click on a row: moves the cursor there, so that the context menu
    /// acts on it.
    pub fn context_click(&mut self, path: &str)
        requires
            old(self).wf(),
        ensures
            final(self).wf(),
            final(self)@ == (FileTreeView {
                selected: Some(path@),
                dirty: true,
                ..old(self)@
            }),
    {
        self.selected = Some(path.to_owned());
        self.cache_dirty = true;
    }

    // -----------------------------------------------------------------------
    // Keyboard
    // -----------------------------------------------------------------------

    /// Brings the cache up to date and tells the row to scroll to: that of the
    /// cursor, if it is visible.
    pub fn scroll_selected_into_view(&mut self) -> (row: Option<usize>)
        requires
            old(self).wf(),
        ensures
            final(self).wf(),
            super::refreshed(old(self)@, final(self)@.rows),
            final(self)@ == super::with_rows(old(self)@, final(self)@.rows),
            index_view(row) == navigation::position_of_opt(
                final(self)@.rows,
                final(self)@.selected,
            ),
    {
        self.refresh_row_cache();
        match &self.selected {
            Some(selected) => navigation::row_index(&self.row_cache, selected.as_str()),
            None => None,
        }
    }

    /// Moves the cursor of a tree with a clean cache.
    fn move_cursor(&mut self, path: Option<String>)
        requires
            old(self).wf(),
            !old(self)@.dirty,
        ensures
            final(self).wf(),
            final(self)@ == (FileTreeView { selected: text::opt_view(path), ..old(self)@ }),
    {
        self.selected = path;
        proof {
            super::lemma_fresh_rows_same(old(self)@, self@, self@.rows);
        }
    }

    /// Moves the cursor to the previous row.
    pub fn select_up(&mut self) -> (row: Option<usize>)
        requires
            old(self).wf(),
        ensures
            final(self).wf(),
            super::refreshed(old(self)@, final(self)@.rows),
            final(self)@ == (FileTreeView {
                selected: navigation::path_at(
                    final(self)@.rows,
                    navigation::step_up(final(self)@.rows, old(self)@.selected),
                ),
                ..super::with_rows(old(self)@, final(self)@.rows)
            }),
            index_view(row) == navigation::position_of_opt(
                final(self)@.rows,
                final(self)@.selected,
            ),
    {
        self.refresh_row_cache();
        let next = navigation::selection_after_up(&self.row_cache, self.selected());
        self.move_cursor(next);
        self.scroll_selected_into_view()
    }

    /// Moves the cursor to the next row.
    pub fn select_down(&mut self) -> (row: Option<usize>)
        requires
            old(self).wf(),
        ensures
            final(self).wf(),
            super::refreshed(old(self)@, final(self)@.rows),
            final(self)@ == (FileTreeView {
                selected: navigation::path_at(
                    final(self)@.rows,
                    navigation::step_down(final(self)@.rows, old(self)@.selected),
                ),
                ..super::with_rows(old(self)@, final(self)@.rows)
            }),
            index_view(row) == navigation::position_of_opt(
                final(self)@.rows,
                final(self)@.selected,
            ),
    {
        self.refresh_row_cache();
        let next = navigation::selection_after_down(&self.row_cache, self.selected());
        self.move_cursor(next);
        self.scroll_selected_into_view()
    }

    /// Moves the cursor to the first row.
    pub fn select_first(&mut self) -> (row: Option<usize>)
        requires
            old(self).wf(),
        ensures
            final(self).wf(),
            super::refreshed(old(self)@, final(self)@.rows),
            final(self)@ == (FileTreeView {
                selected: navigation::path_at(final(self)@.rows, 0),
                ..super::with_rows(old(self)@, final(self)@.rows)
            }),
            index_view(row) == navigation::position_of_opt(
                final(self)@.rows,
                final(self)@.selected,
            ),
    {
        self.refresh_row_cache();
        let first: Option<String> = if self.row_cache.len() > 0 {
            assert(self@.rows[0] == self.row_cache@[0]@);
            Some(self.row_cache[0].path.clone())
        } else {
            None
        };
        self.move_cursor(first);
        self.scroll_selected_into_view()
    }

    /// Moves the cursor to the last row.
    pub fn select_last(&mut self) -> (row: Option<usize>)
        requires
            old(self).wf(),
        ensures
            final(self).wf(),
            super::refreshed(old(self)@, final(self)@.rows),
            final(self)@ == (FileTreeView {
                selected: navigation::path_at(final(self)@.rows, final(self)@.rows.len() - 1),
                ..super::with_rows(old(self)@, final(self)@.rows)
            }),
            index_view(row) == navigation::position_of_opt(
                final(self)@.rows,
                final(self)@.selected,
            ),
    {
        self.refresh_row_cache();
        let n: usize = self.row_cache.len();
        let last: Option<String> = if n > 0 {
            assert(self@.rows[n - 1] == self.row_cache@[n - 1]@);
            Some(self.row_cache[n - 1].path.clone())
        } else {
            None
        };
        self.move_cursor(last);
        self.scroll_selected_into_view()
    }

    /// Adds `path` to the multi-selection of a tree with a clean cache.
    fn add_to_selection(&mut self, path: &str)
        requires
            old(self).wf(),
            !old(self)@.dirty,
        ensures
            final(self).wf(),
            final(self)@ == (FileTreeView {
                selection: old(self)@.selection.insert(path@),
                ..old(self)@
            }),
    {
        super::set_insert(&mut self.selection, path);
        proof {
            super::lemma_fresh_rows_same(old(self)@, self@, self@.rows);
        }
    }

    /// Extends the multi-selection to the previous row and moves the cursor
    /// there. Without a cursor it moves to the first row.
    pub fn extend_selection_up(&mut self) -> (row: Option<usize>)
        requires
            old(self).wf(),
        ensures
            final(self).wf(),
            super::refreshed(old(self)@, final(self)@.rows),
            final(self)@ == extended(
                super::with_rows(old(self)@, final(self)@.rows),
                navigation::step_up(final(self)@.rows, old(self)@.selected),
            ),
            index_view(row) == navigation::position_of_opt(
                final(self)@.rows,
                final(self)@.selected,
            ),
    {
        self.refresh_row_cache();
        let current: String = match &self.selected {
            Some(current) => current.clone(),
            None => {
                return self.select_first();
            },
        };
        let next = navigation::selection_after_up(&self.row_cache, Some(current.as_str()));
        self.add_to_selection(current.as_str());
        if let Some(path) = next {
            self.add_to_selection(path.as_str());
            self.move_cursor(Some(path));
        }
        self.scroll_selected_into_view()
    }

    /// Extends the multi-selection to the next row and moves the cursor there.
    /// Without a cursor it moves to the first row.
    pub fn extend_selection_down(&mut self) -> (row: Option<usize>)
        requires
            old(self).wf(),
        ensures
            final(self).wf(),
            super::refreshed(old(self)@, final(self)@.rows),
            final(self)@ == extended(
                super::with_rows(old(self)@, final(self)@.rows),
                navigation::step_down(final(self)@.rows, old(self)@.selected),
            ),
            index_view(row) == navigation::position_of_opt(
                final(self)@.rows,
                final(self)@.selected,
            ),
    {
        self.refresh_row_cache();
        let current: String = match &self.selected {
            Some(current) => current.clone(),
            None => {
                return self.select_first();
            },
        };
        let next = navigation::selection_after_down(&self.row_cache, Some(current.as_str()));
        self.add_to_selection(current.as_str());
        if let Some(path) = next {
            self.add_to_selection(path.as_str());
            self.move_cursor(Some(path));
        }
        self.scroll_selected_into_view()
    }

    /// Collapses the directory at the cursor, or moves the cursor to the parent
    /// row where there is nothing to collapse.
    pub fn collapse_or_select_parent(&mut self) -> (row: Option<usize>)
        requires
            old(self).wf(),
        ensures
            final(self).wf(),
            exists|list: Seq<RowView>| #[trigger]
                super::refreshed(old(self)@, list) && stepped_left(
                    super::with_rows(old(self)@, list),
                    final(self)@,
                    index_view(row),
                ),
    {
        self.refresh_row_cache();
        let ghost list = self@.rows;
        let ghost v = self@;
        assert(super::refreshed(old(self)@, list));
        let selected: String = match &self.selected {
            Some(selected) => selected.clone(),
            None => {
                return self.select_first();
            },
        };
        let index: usize = match navigation::row_index(&self.row_cache, selected.as_str()) {
            Some(index) => index,
            None => {
                return None;
            },
        };
        assert(v.rows[index as int] == self.row_cache@[index as int]@);
        let expanded: bool = self.row_cache[index].kind == EntryKind::Dir
            && !self.collapsed.contains(selected.as_str());
        if expanded {
            self.toggle_dir(selected.as_str());
        } else {
            let parent: Option<String> = match navigation::parent_path(&self.row_cache, index) {
                Some(parent) => Some(parent.to_owned()),
                None => None,
            };
            if let Some(path) = parent {
                proof {
                    let k = navigation::parent_row(v.rows, index as int)->0;
                    assert(v.rows[k as int] == self.row_cache@[k as int]@);
                }
                self.move_cursor(Some(path));
            }
        }
        let row = self.scroll_selected_into_view();
        assert(stepped_left(super::with_rows(old(self)@, list), self@, index_view(row)));
        row
    }

    /// Expands the directory at the cursor, or moves the cursor to its first
    /// child row where there is nothing to expand.
    pub fn expand_or_select_child(&mut self) -> (row: Option<usize>)
        requires
            old(self).wf(),
        ensures
            final(self).wf(),
            exists|list: Seq<RowView>| #[trigger]
                super::refreshed(old(self)@, list) && stepped_right(
                    super::with_rows(old(self)@, list),
                    final(self)@,
                    index_view(row),
                ),
    {
        self.refresh_row_cache();
        let ghost list = self@.rows;
        let ghost v = self@;
        assert(super::refreshed(old(self)@, list));
        let selected: String = match &self.selected {
            Some(selected) => selected.clone(),
            None => {
                return self.select_first();
            },
        };
        let index: usize = match navigation::row_index(&self.row_cache, selected.as_str()) {
            Some(index) => index,
            None => {
                return None;
            },
        };
        assert(v.rows[index as int] == self.row_cache@[index as int]@);
        let collapsed: bool = self.row_cache[index].kind == EntryKind::Dir
            && self.collapsed.contains(selected.as_str());
        if collapsed {
            self.toggle_dir(selected.as_str());
        } else {
            let child: Option<String> = match navigation::first_child_path(&self.row_cache, index) {
                Some(child) => Some(child.to_owned()),
                None => None,
            };
            if let Some(path) = child {
                proof {
                    assert(v.rows[index + 1] == self.row_cache@[index + 1]@);
                }
                self.move_cursor(Some(path));
            }
        }
        let row = self.scroll_selected_into_view();
        assert(stepped_right(super::with_rows(old(self)@, list), self@, index_view(row)));
        row
    }

    // -----------------------------------------------------------------------
    // Opening
    // -----------------------------------------------------------------------

    /// The selected files among the cached rows, in row order. What the tree no
    /// longer shows, or shows as a directory, is passed over.
    pub fn open_many_targets(&self) -> (targets: Vec<String>)
        requires
            self.wf(),
        ensures
            targets@.map_values(|t: String| t@) == open_targets(
                self@.rows,
                self@.selection,
                self@.rows.len(),
            ),
    {
        let ghost v = self@;
        let mut targets: Vec<String> = Vec::new();
        let mut i: usize = 0;
        proof {
            assert(targets@.map_values(|t: String| t@) =~= Seq::<Seq<char>>::empty());
        }
        while i < self.row_cache.len()
            invariant
                self.wf(),
                v == self@,
                i <= self.row_cache@.len(),
                v.rows == rows::rows_view(self.row_cache@),
                targets@.map_values(|t: String| t@) == open_targets(
                    v.rows,
                    v.selection,
                    i as nat,
                ),
            decreases self.row_cache@.len() - i,
        {
            assert(v.rows[i as int] == self.row_cache@[i as int]@);
            if self.row_cache[i].kind == EntryKind::File && self.selection.contains(
                self.row_cache[i].path.as_str(),
            ) {
                let ghost before = targets@;
                let path = self.row_cache[i].path.clone();
                targets.push(path);
                proof {
                    assert(targets@.map_values(|t: String| t@) =~= before.map_values(
                        |t: String| t@,
                    ).push(path@));
                }
            }
            i = i + 1;
        }
        targets
    }

    /// Opens what is selected: every selected file, or else the file at the
    /// cursor. A directory at the cursor is toggled.
    pub fn open_selected(&mut self) -> (events: Vec<FileTreeEvent>)
        requires
            old(self).wf(),
        ensures
            final(self).wf(),
            exists|list: Seq<RowView>| #[trigger]
                super::refreshed(old(self)@, list) && opened(
                    super::with_rows(old(self)@, list),
                    final(self)@,
                    events@,
                ),
    {
        self.refresh_row_cache();
        let ghost list = self@.rows;
        let ghost v = self@;
        assert(super::refreshed(old(self)@, list));
        let targets = self.open_many_targets();
        let ghost wanted = open_targets(v.rows, v.selection, v.rows.len());
        let mut events: Vec<FileTreeEvent> = Vec::new();
        assert(targets@.map_values(|t: String| t@).len() == targets@.len());
        if targets.len() > 0 {
            let mut i: usize = 0;
            while i < targets.len()
                invariant
                    i <= targets@.len(),
                    events@.len() == i,
                    targets@.map_values(|t: String| t@) == wanted,
                    forall|k: int|
                        0 <= k < i ==> super::opens(#[trigger] events@[k], wanted[k]),
                decreases targets@.len() - i,
            {
                assert(targets@.map_values(|t: String| t@)[i as int] == targets@[i as int]@);
                events.push(FileTreeEvent::OpenFile { path: targets[i].clone() });
                i = i + 1;
            }
            assert(opened(super::with_rows(old(self)@, list), self@, events@));
            return events;
        }
        let selected: String = match &self.selected {
            Some(selected) => selected.clone(),
            None => {
                assert(opened(super::with_rows(old(self)@, list), self@, events@));
                return events;
            },
        };
        let index: usize = match navigation::row_index(&self.row_cache, selected.as_str()) {
            Some(index) => index,
            None => {
                assert(opened(super::with_rows(old(self)@, list), self@, events@));
                return events;
            },
        };
        assert(v.rows[index as int] == self.row_cache@[index as int]@);
        if self.row_cache[index].kind == EntryKind::Dir {
            self.toggle_dir(selected.as_str());
        } else {
            events.push(FileTreeEvent::OpenFile { path: selected });
        }
        assert(opened(super::with_rows(old(self)@, list), self@, events@));
        events
    }
}

/// Files the paths of the rows from `start` to `end`.
fn collect_paths(list: &Vec<Row>, picked: &mut KeyedVec<String>, start: usize, end: usize)
    requires
        start <= end < list@.len(),
        old(picked).wf(),
        old(picked).keys() == Set::<Seq<char>>::empty(),
    ensures
        final(picked).wf(),
        forall|path: Seq<char>| #[trigger]
            final(picked).keys().contains(path) <==> exists|k: int|
                start <= k <= end && #[trigger] rows::rows_view(list@)[k].path == path,
{
    let ghost views = rows::rows_view(list@);
    let count: usize = list.len();
    let mut i: usize = start;
    while i <= end
        invariant
            start <= i <= end + 1,
            end < count == list@.len(),
            views == rows::rows_view(list@),
            picked.wf(),
            forall|path: Seq<char>| #[trigger]
                picked.keys().contains(path) <==> exists|k: int|
                    start <= k < i && #[trigger] views[k].path == path,
        decreases end + 1 - i,
    {
        let ghost before = picked.keys();
        super::set_insert(picked, list[i].path.as_str());
        assert(views[i as int] == list@[i as int]@);
        proof {
            assert forall|path: Seq<char>| #[trigger]
                picked.keys().contains(path) <==> exists|k: int|
                    start <= k < i + 1 && #[trigger] views[k].path == path by {
                if picked.keys().contains(path) {
                    if before.contains(path) {
                        let k = choose|k: int|
                            start <= k < i && #[trigger] views[k].path == path;
                        assert(views[k].path == path);
                    } else {
                        assert(views[i as int].path == path);
                    }
                }
            }
        }
        i = i + 1;
    }
}

} // verus!
