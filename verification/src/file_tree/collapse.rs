//! Collapsing and expanding.

use vstd::prelude::*;

use super::{FileTree, FileTreeView};
use crate::protocol::{EntryKind, WorktreeEntry};
use crate::rows;
use crate::rows::RowView;
use crate::worktree::WorktreeView;

verus! {

/// The paths of the directories among the first `n` entries.
pub open spec fn dirs_among(entries: Seq<WorktreeEntry>, n: nat) -> Set<Seq<char>>
    decreases n,
{
    if n == 0 {
        Set::empty()
    } else {
        let rest = dirs_among(entries, (n - 1) as nat);
        if entries[n - 1].kind == EntryKind::Dir {
            rest.insert(entries[n - 1].path@)
        } else {
            rest
        }
    }
}

/// The paths of all directories of the tree.
pub open spec fn all_dirs(model: WorktreeView) -> Set<Seq<char>> {
    dirs_among(model.entries, model.entries.len())
}

/// The tree has directories and every one of them is collapsed.
pub open spec fn fully_collapsed(v: FileTreeView) -> bool {
    &&& exists|k: int|
        0 <= k < v.model.entries.len() && (#[trigger] v.model.entries[k]).kind == EntryKind::Dir
    &&& forall|k: int|
        0 <= k < v.model.entries.len() && (#[trigger] v.model.entries[k]).kind == EntryKind::Dir
            ==> v.collapsed.contains(v.model.entries[k].path@)
}

impl FileTree {
    /// Flips a directory between expanded and collapsed.
    pub fn toggle_dir(&mut self, path: &str)
        requires
            old(self).wf(),
        ensures
            final(self).wf(),
            final(self)@ == (FileTreeView {
                collapsed: super::toggled(old(self)@.collapsed, path@),
                dirty: true,
                ..old(self)@
            }),
    {
        super::set_toggle(&mut self.collapsed, path);
        self.cache_dirty = true;
    }

    /// Whether the tree has directories and all of them are collapsed. A tree
    /// of files alone is not collapsed.
    pub fn all_dirs_collapsed(&self) -> (all: bool)
        requires
            self.wf(),
        ensures
            all == fully_collapsed(self@),
    {
        let ghost v = self@;
        let entries = self.model.entries();
        let mut any_dir: bool = false;
        let mut i: usize = 0;
        while i < entries.len()
            invariant
                self.wf(),
                v == self@,
                entries.seq() == v.model.entries,
                i <= v.model.entries.len(),
                any_dir <==> exists|k: int|
                    0 <= k < i && (#[trigger] v.model.entries[k]).kind == EntryKind::Dir,
                forall|k: int|
                    0 <= k < i && (#[trigger] v.model.entries[k]).kind == EntryKind::Dir
                        ==> v.collapsed.contains(v.model.entries[k].path@),
            decreases v.model.entries.len() - i,
        {
            let entry = entries.at(i);
            if entry.kind == EntryKind::Dir {
                any_dir = true;
                assert(v.model.entries[i as int].kind == EntryKind::Dir);
                if !self.collapsed.contains(entry.path.as_str()) {
                    assert(!v.collapsed.contains(v.model.entries[i as int].path@));
                    return false;
                }
            }
            i = i + 1;
        }
        any_dir
    }

    /// Collapses every directory of the tree. What was collapsed before stays so.
    pub fn collapse_all(&mut self)
        requires
            old(self).wf(),
        ensures
            final(self).wf(),
            final(self)@ == (FileTreeView {
                collapsed: old(self)@.collapsed.union(all_dirs(old(self)@.model)),
                dirty: true,
                ..old(self)@
            }),
    {
        self.cache_dirty = true;
        let ghost v = self@;
        let mut i: usize = 0;
        proof {
            assert(v.collapsed.union(Set::<Seq<char>>::empty()) =~= v.collapsed);
        }
        while i < self.model.entries().len()
            invariant
                self.wf(),
                v.dirty,
                i <= v.model.entries.len(),
                self@ == (FileTreeView {
                    collapsed: v.collapsed.union(dirs_among(v.model.entries, i as nat)),
                    ..v
                }),
            decreases v.model.entries.len() - i,
        {
            let entry = self.model.entries().at(i);
            if entry.kind == EntryKind::Dir {
                super::set_insert(&mut self.collapsed, entry.path.as_str());
                proof {
                    assert(v.collapsed.union(dirs_among(v.model.entries, i as nat)).insert(
                        v.model.entries[i as int].path@,
                    ) =~= v.collapsed.union(dirs_among(v.model.entries, (i + 1) as nat)));
                }
            }
            i = i + 1;
        }
    }

    /// Expands every directory.
    pub fn expand_all(&mut self)
        requires
            old(self).wf(),
        ensures
            final(self).wf(),
            final(self)@ == (FileTreeView {
                collapsed: Set::empty(),
                dirty: true,
                ..old(self)@
            }),
    {
        self.collapsed = super::no_paths();
        self.cache_dirty = true;
    }

    /// Flips between fully collapsed and fully expanded.
    pub fn toggle_collapse_all(&mut self)
        requires
            old(self).wf(),
        ensures
            final(self).wf(),
            final(self)@ == (FileTreeView {
                collapsed: if fully_collapsed(old(self)@) {
                    Set::empty()
                } else {
                    old(self)@.collapsed.union(all_dirs(old(self)@.model))
                },
                dirty: true,
                ..old(self)@
            }),
    {
        if self.all_dirs_collapsed() {
            self.expand_all();
        } else {
            self.collapse_all();
        }
    }

    /// Folds or unfolds the whole tree at its root row. The collapsed
    /// directories stay as they are.
    pub fn toggle_root_collapsed(&mut self)
        requires
            old(self).wf(),
        ensures
            final(self).wf(),
            final(self)@ == root_toggled(old(self)@),
    {
        self.root_collapsed = !self.root_collapsed;
        self.cache_dirty = true;
    }
}

// ---------------------------------------------------------------------------
// Laws
// ---------------------------------------------------------------------------

/// Toggling a directory twice leaves the collapsed set as it was.
pub proof fn law_toggle_twice(collapsed: Set<Seq<char>>, path: Seq<char>)
    ensures
        super::toggled(super::toggled(collapsed, path), path) == collapsed,
{
    assert(super::toggled(super::toggled(collapsed, path), path) =~= collapsed);
}

/// What [`dirs_among`] holds.
pub proof fn lemma_dirs_among(entries: Seq<WorktreeEntry>, n: nat, path: Seq<char>)
    requires
        n <= entries.len(),
    ensures
        dirs_among(entries, n).contains(path) <==> exists|k: int|
            0 <= k < n && (#[trigger] entries[k]).kind == EntryKind::Dir && entries[k].path@
                == path,
    decreases n,
{
    if n > 0 {
        lemma_dirs_among(entries, (n - 1) as nat, path);
        if entries[n - 1].kind == EntryKind::Dir && entries[n - 1].path@ == path {
            assert(dirs_among(entries, n).contains(path));
        }
    }
}

/// Collapsing everything leaves the header in its "fully collapsed" state
/// wherever the tree has a directory, and the next toggle expands everything.
pub proof fn law_collapse_all_collapses(v: FileTreeView)
    requires
        exists|k: int|
            0 <= k < v.model.entries.len() && (#[trigger] v.model.entries[k]).kind
                == EntryKind::Dir,
    ensures
        fully_collapsed(
            (FileTreeView { collapsed: v.collapsed.union(all_dirs(v.model)), ..v }),
        ),
{
    let n = v.model.entries.len();
    assert forall|k: int|
        0 <= k < n && (#[trigger] v.model.entries[k]).kind
            == EntryKind::Dir implies v.collapsed.union(all_dirs(v.model)).contains(
        v.model.entries[k].path@,
    ) by {
        lemma_dirs_among(v.model.entries, n, v.model.entries[k].path@);
    }
}

/// The state after a click on the root row.
pub open spec fn root_toggled(v: FileTreeView) -> FileTreeView {
    FileTreeView { root_collapsed: !v.root_collapsed, dirty: true, ..v }
}

/// A click on an unfolded root row hides every row, and a second one shows the
/// rows from before: the same paths, kinds, depths and decorations in the same
/// order, and the same matched positions where the platform plays no part in
/// them. Neither touches what is collapsed, and each makes the row cache stale.
pub proof fn law_root_fold_restores(
    v: FileTreeView,
    before: Seq<RowView>,
    folded: Seq<RowView>,
    after: Seq<RowView>,
)
    requires
        !v.root_collapsed,
        super::shows(v, before),
        super::shows(root_toggled(v), folded),
        super::shows(root_toggled(root_toggled(v)), after),
    ensures
        folded.len() == 0,
        rows::unmarked(after) == rows::unmarked(before),
        after.map_values(|row: RowView| row.path) == before.map_values(|row: RowView| row.path),
        super::rows_settled(v) ==> after == before,
        root_toggled(v).collapsed == v.collapsed,
        root_toggled(root_toggled(v)).collapsed == v.collapsed,
        root_toggled(v).dirty,
        root_toggled(root_toggled(v)).dirty,
{
    super::law_shown_rows_alike(v, before, after);
    assert(rows::unmarked(after).len() == after.len());
    assert(rows::unmarked(before).len() == before.len());
    assert forall|i: int| 0 <= i < after.len() implies after[i].path == before[i].path by {
        assert(rows::unmarked(after)[i].path == after[i].path);
        assert(rows::unmarked(before)[i].path == before[i].path);
    }
    assert(after.map_values(|row: RowView| row.path) =~= before.map_values(
        |row: RowView| row.path,
    ));
    if super::rows_settled(v) {
        super::law_shown_rows_unique(v, before, after);
    }
}

} // verus!
