//! Revealing a path: expanding what is above it and moving the cursor there.

use vstd::prelude::*;

use super::selection;
use super::{FileTree, FileTreeEvent, FileTreeView};
use crate::navigation;
use crate::ordered::KeyedVec;
use crate::paths;
use crate::text;

verus! {

/// The directories above `path`.
pub open spec fn dirs_above(path: Seq<char>) -> Set<Seq<char>> {
    Set::new(|dir: Seq<char>| paths::under(dir, path))
}

/// What revealing `path` does to a tree that has it: `after` is the state and
/// `scroll` the row to scroll to.
pub open spec fn revealed(
    v: FileTreeView,
    path: Seq<char>,
    after: FileTreeView,
    scroll: Option<nat>,
) -> bool {
    &&& after == super::with_rows(
        FileTreeView {
            collapsed: v.collapsed.difference(dirs_above(path)),
            selected: Some(path),
            ..v
        },
        after.rows,
    )
    &&& super::fresh_rows(after, after.rows)
    &&& (!v.dirty && v.selected == Some(path) && v.collapsed.disjoint(dirs_above(path))
        ==> after.rows == v.rows)
    &&& scroll == navigation::position_of(after.rows, path)
}

/// `path` is one of `list`.
pub open spec fn lists_path(list: Seq<String>, path: Seq<char>) -> bool {
    exists|k: int| 0 <= k < list.len() && (#[trigger] list[k])@ == path
}

/// Drops the directories above `path` from `set`; tells whether one was there.
fn remove_above(set: &mut KeyedVec<String>, path: &str) -> (any: bool)
    requires
        old(set).wf(),
    ensures
        final(set).wf(),
        final(set).keys() == old(set).keys().difference(dirs_above(path@)),
        any == !old(set).keys().disjoint(dirs_above(path@)),
{
    let dirs = paths::ancestor_dirs(path);
    let ghost all = paths::ancestors(path@);
    let ghost start = set.keys();
    let mut any: bool = false;
    let mut i: usize = 0;
    while i < dirs.len()
        invariant
            i <= dirs.len(),
            set.wf(),
            dirs@.len() == all.len(),
            forall|k: int| 0 <= k < dirs@.len() ==> (#[trigger] dirs@[k])@ == all[k],
            forall|d: Seq<char>| #[trigger]
                set.keys().contains(d) <==> start.contains(d) && !all.take(i as int).contains(d),
            any ==> exists|d: Seq<char>| #[trigger] start.contains(d) && all.contains(d),
            !any ==> forall|d: Seq<char>|
                all.take(i as int).contains(d) ==> !#[trigger] start.contains(d),
        decreases dirs.len() - i,
    {
        let ghost seen = all.take(i as int);
        let ghost now = all.take(i + 1);
        let ghost dir = all[i as int];
        let ghost before = set.keys();
        assert(now =~= seen.push(dir));
        assert(dirs@[i as int]@ == dir);
        let had = super::set_remove(set, dirs[i].as_str());
        if had {
            assert(start.contains(dir) && all.contains(dir));
            any = true;
        }
        proof {
            assert forall|d: Seq<char>| now.contains(d) <==> seen.contains(d) || d == dir by {
                vstd::seq_lib::lemma_seq_contains_after_push(seen, dir, d);
            }
        }
        i = i + 1;
    }
    proof {
        assert(all.take(i as int) =~= all);
        assert forall|d: Seq<char>| all.contains(d) <==> paths::under(d, path@) by {
            paths::lemma_ancestors_are_under(path@, d);
        }
        assert(set.keys() =~= start.difference(dirs_above(path@)));
        if any {
            let d = choose|d: Seq<char>| #[trigger] start.contains(d) && all.contains(d);
            assert(dirs_above(path@).contains(d));
        }
    }
    any
}

impl FileTree {
    /// Reveals `path`: expands every directory above it, moves the cursor there
    /// and tells the row to scroll to. A path that the tree does not have is
    /// passed over.
    pub fn reveal_path(&mut self, path: &str) -> (row: Option<usize>)
        requires
            old(self).wf(),
        ensures
            final(self).wf(),
            if old(self)@.model.has(path@) {
                revealed(old(self)@, path@, final(self)@, selection::index_view(row))
            } else {
                final(self)@ == old(self)@ && row is None
            },
    {
        if self.model.get(path).is_none() {
            return None;
        }
        let same: bool = match &self.selected {
            Some(selected) => text::same_text(selected.as_str(), path),
            None => false,
        };
        let expanded = remove_above(&mut self.collapsed, path);
        if expanded {
            self.cache_dirty = true;
        }
        if !same {
            self.selected = Some(path.to_owned());
            self.cache_dirty = true;
        }
        proof {
            if !self@.dirty {
                assert(self@.collapsed =~= old(self)@.collapsed);
                super::lemma_fresh_rows_same(old(self)@, self@, self@.rows);
            }
        }
        let row = self.scroll_selected_into_view();
        proof {
            assert(super::fresh_rows(self@, self@.rows));
        }
        row
    }

    /// Reveals the pending path once it is among the paths that arrived.
    pub fn apply_pending_reveal(&mut self, added_paths: &Vec<String>) -> (row: Option<usize>)
        requires
            old(self).wf(),
        ensures
            final(self).wf(),
            match old(self)@.pending_reveal {
                Some(path) => if lists_path(added_paths@, path) {
                    let v = FileTreeView { pending_reveal: None, ..old(self)@ };
                    if v.model.has(path) {
                        revealed(v, path, final(self)@, selection::index_view(row))
                    } else {
                        final(self)@ == v && row is None
                    }
                } else {
                    final(self)@ == old(self)@ && row is None
                },
                None => final(self)@ == old(self)@ && row is None,
            },
    {
        let pending: String = match &self.pending_reveal {
            Some(pending) => pending.clone(),
            None => {
                return None;
            },
        };
        let mut arrived: bool = false;
        let mut i: usize = 0;
        while i < added_paths.len()
            invariant
                i <= added_paths@.len(),
                arrived <==> exists|k: int|
                    0 <= k < i && (#[trigger] added_paths@[k])@ == pending@,
            decreases added_paths@.len() - i,
        {
            if text::same_text(added_paths[i].as_str(), pending.as_str()) {
                assert(added_paths@[i as int]@ == pending@);
                arrived = true;
            }
            i = i + 1;
        }
        if !arrived {
            return None;
        }
        self.pending_reveal = None;
        proof {
            if !self@.dirty {
                super::lemma_fresh_rows_same(old(self)@, self@, self@.rows);
            }
        }
        self.reveal_path(pending.as_str())
    }

    /// "Reveal in tree": reveals the path at the cursor.
    pub fn reveal_selected(&mut self) -> (row: Option<usize>)
        requires
            old(self).wf(),
        ensures
            final(self).wf(),
            match old(self)@.selected {
                Some(path) => if old(self)@.model.has(path) {
                    revealed(old(self)@, path, final(self)@, selection::index_view(row))
                } else {
                    final(self)@ == old(self)@ && row is None
                },
                None => final(self)@ == old(self)@ && row is None,
            },
    {
        let path: String = match &self.selected {
            Some(path) => path.clone(),
            None => {
                return None;
            },
        };
        self.reveal_path(path.as_str())
    }

    /// "Copy path": the absolute path at the cursor.
    pub fn absolute_selected(&self) -> (path: Option<String>)
        ensures
            text::opt_view(path) == match (self@.model.root, self@.selected) {
                (Some(root), Some(selected)) => Some(paths::absolute(root, selected)),
                _ => None,
            },
    {
        match (self.model.root(), &self.selected) {
            (Some(root), Some(selected)) => Some(paths::absolute_path(root, selected.as_str())),
            _ => None,
        }
    }

    /// "Copy relative path": the path at the cursor as it is.
    pub fn relative_selected(&self) -> (path: Option<String>)
        ensures
            text::opt_view(path) == self@.selected,
    {
        match &self.selected {
            Some(selected) => Some(selected.clone()),
            None => None,
        }
    }

    /// "Reveal in terminal": asks for a terminal in the directory at the cursor.
    pub fn reveal_in_terminal(&self) -> (event: Option<FileTreeEvent>)
        requires
            self.wf(),
        ensures
            match (self@.model.root, self@.selected) {
                (Some(root), Some(path)) => if self@.model.has(path) {
                    event matches Some(FileTreeEvent::RevealInTerminalRequested { dir }) && dir@
                        == paths::terminal_dir(root, self@.model.entry(path).kind, path)
                } else {
                    event is None
                },
                _ => event is None,
            },
    {
        match (self.model.root(), &self.selected) {
            (Some(root), Some(selected)) => match self.model.get(selected.as_str()) {
                Some(entry) => {
                    let dir = paths::reveal_in_terminal_dir(root, entry.kind, selected.as_str());
                    Some(FileTreeEvent::RevealInTerminalRequested { dir })
                },
                None => None,
            },
            _ => None,
        }
    }
}

// ---------------------------------------------------------------------------
// Laws
// ---------------------------------------------------------------------------

/// After a reveal no directory above the path is collapsed, and every other
/// directory is as it was.
pub proof fn law_reveal_expands_only_ancestors(
    v: FileTreeView,
    path: Seq<char>,
    after: FileTreeView,
    scroll: Option<nat>,
)
    requires
        revealed(v, path, after, scroll),
    ensures
        forall|dir: Seq<char>| paths::under(dir, path) ==> !#[trigger] after.collapsed.contains(dir),
        forall|dir: Seq<char>|
            !paths::under(dir, path) ==> #[trigger] after.collapsed.contains(dir)
                == v.collapsed.contains(dir),
        after.model == v.model,
{
}

} // verus!
