//! The filter bar.

use vstd::prelude::*;

use super::{FileTree, FileTreeView};
use crate::rows::RowView;
use crate::text;

verus! {

impl FileTree {
    /// Opens the filter bar with a blank filter. An open bar stays as it is.
    pub fn open_filter(&mut self)
        requires
            old(self).wf(),
        ensures
            final(self).wf(),
            final(self)@ == if old(self)@.filter_active {
                old(self)@
            } else {
                FileTreeView {
                    filter_active: true,
                    filter_query: Seq::empty(),
                    dirty: true,
                    ..old(self)@
                }
            },
    {
        if self.filter_active {
            return;
        }
        self.filter_active = true;
        self.cache_dirty = true;
        assert(self@.filter_query =~= Seq::<char>::empty());
    }

    /// Closes the filter bar and drops the filter. A closed bar stays as it is.
    pub fn close_filter(&mut self)
        requires
            old(self).wf(),
        ensures
            final(self).wf(),
            final(self)@ == if old(self)@.filter_active {
                FileTreeView {
                    filter_active: false,
                    filter_query: Seq::empty(),
                    dirty: true,
                    ..old(self)@
                }
            } else {
                old(self)@
            },
    {
        if !self.filter_active {
            return;
        }
        self.filter_active = false;
        self.cache_dirty = true;
        self.filter_query = String::new();
    }

    /// Opens a closed filter bar and closes an open one.
    pub fn toggle_filter(&mut self)
        requires
            old(self).wf(),
        ensures
            final(self).wf(),
            final(self)@ == (FileTreeView {
                filter_active: !old(self)@.filter_active,
                filter_query: Seq::empty(),
                dirty: true,
                ..old(self)@
            }),
    {
        if self.filter_active {
            self.close_filter();
        } else {
            self.open_filter();
        }
    }

    /// Takes the text of the open filter bar over, without the white space
    /// around it.
    pub fn filter_changed(&mut self, value: &str)
        requires
            old(self).wf(),
            old(self)@.filter_active,
        ensures
            final(self).wf(),
            final(self)@ == (FileTreeView {
                filter_query: text::trimmed(value@),
                dirty: true,
                ..old(self)@
            }),
    {
        self.cache_dirty = true;
        self.filter_query = text::trim(value).to_owned();
    }
}

// ---------------------------------------------------------------------------
// Laws
// ---------------------------------------------------------------------------

/// The state with an open filter bar that holds `query`.
pub open spec fn filtering(v: FileTreeView, query: Seq<char>) -> FileTreeView {
    FileTreeView { filter_active: true, filter_query: query, dirty: true, ..v }
}

/// The state after closing the filter bar.
pub open spec fn filter_closed(v: FileTreeView) -> FileTreeView {
    FileTreeView { filter_active: false, filter_query: Seq::empty(), dirty: true, ..v }
}

/// Opening the filter bar, filtering and closing it again shows exactly the rows
/// from before: a filter never touches what is collapsed.
pub proof fn law_closing_filter_restores(
    v: FileTreeView,
    query: Seq<char>,
    before: Seq<RowView>,
    after: Seq<RowView>,
)
    requires
        v.wf(),
        !v.filter_active,
        super::fresh_rows(v, before),
        super::fresh_rows(filter_closed(filtering(v, query)), after),
    ensures
        after == before,
        filter_closed(filtering(v, query)).collapsed == v.collapsed,
{
    let closed = filter_closed(filtering(v, query));
    assert(v.filter_query =~= Seq::<char>::empty());
    super::lemma_fresh_rows_same(v, closed, before);
    super::law_fresh_rows_unique(closed, before, after);
}

/// What is collapsed plays no part in a filtered list: the directories above a
/// match show whether they are collapsed or not.
pub proof fn law_filter_ignores_collapse(
    v: FileTreeView,
    collapsed: Set<Seq<char>>,
    list: Seq<RowView>,
)
    requires
        v.filter_query.len() > 0,
        super::shows(v, list),
    ensures
        super::shows((FileTreeView { collapsed, ..v }), list),
{
}

} // verus!
