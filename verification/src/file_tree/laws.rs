//! What the explorer's operations are for, stated over their calls.

use vstd::prelude::*;

use super::actions::{TreeAction, TreeOutcome};
use super::collapse;
use super::editing;
use super::editing::{DeletePrompt, DraggedRow};
use super::presentation;
use super::presentation::{
    EmptyState, HeaderPresentation, MenuEntry, RowBody, RowPresentation, Tone, TreeContent,
};
use super::revealing;
use super::selection;
use super::{FileTree, FileTreeEvent, FileTreeView};
use crate::emphasis;
use crate::fuzzy_match;
use crate::fuzzy_match::FuzzyMatch;
use crate::navigation;
use crate::ordered;
use crate::ordered::{Keyed, KeyedVec};
use crate::paths;
use crate::protocol::{DiagnosticSeverity, EntryKind, FileOp, FileOpError};
use crate::rollup::GitRollupStatus;
use crate::rows;
use crate::rows::{Row, RowView};
use crate::text;
use crate::worktree::WorktreeModel;

verus! {

/// What neither the cursor, nor the selection, nor a folded directory touches is
/// the same.
pub open spec fn keeps_the_rest(v: FileTreeView, after: FileTreeView) -> bool {
    &&& after.model == v.model
    &&& after.rename == v.rename
    &&& after.create == v.create
    &&& after.pending_reveal == v.pending_reveal
    &&& after.filter_active == v.filter_active
    &&& after.filter_query == v.filter_query
    &&& after.root_collapsed == v.root_collapsed
}

/// The first row of `path` is row `at`.
pub open spec fn first_row_of(list: Seq<RowView>, path: Seq<char>, at: int) -> bool {
    &&& 0 <= at < list.len()
    &&& list[at].path == path
    &&& forall|k: int| 0 <= k < at ==> (#[trigger] list[k]).path != path
}

/// No row shows `path`.
pub open spec fn has_no_row(list: Seq<RowView>, path: Seq<char>) -> bool {
    forall|k: int| 0 <= k < list.len() ==> (#[trigger] list[k]).path != path
}

/// The view scrolls to the first row of the cursor, and not at all where it has
/// none.
pub open spec fn scrolls_to_cursor(after: FileTreeView, row: Option<usize>) -> bool {
    match row {
        Some(at) => after.selected matches Some(path) && first_row_of(
            after.rows,
            path,
            at as int,
        ),
        None => after.selected matches Some(path) ==> has_no_row(after.rows, path),
    }
}

proof fn lemma_position(list: Seq<RowView>, path: Seq<char>)
    ensures
        match navigation::position_of(list, path) {
            Some(at) => first_row_of(list, path, at as int),
            None => has_no_row(list, path),
        },
        forall|at: int| #[trigger]
            first_row_of(list, path, at) ==> navigation::position_of(list, path) == Some(at as nat),
{
    navigation::lemma_position_among(list, path, list.len());
    assert forall|at: int| #[trigger] first_row_of(list, path, at) implies navigation::position_of(
        list,
        path,
    ) == Some(at as nat) by {
        if let Some(i) = navigation::position_of(list, path) {
            if i < at {
                assert(list[i as int].path != path);
            } else if at < i {
                assert(list[at].path != path);
            }
        }
    }
}

proof fn lemma_scroll(after: FileTreeView, row: Option<usize>)
    requires
        selection::index_view(row) == navigation::position_of_opt(after.rows, after.selected),
    ensures
        scrolls_to_cursor(after, row),
{
    if let Some(path) = after.selected {
        lemma_position(after.rows, path);
    }
}

// ---------------------------------------------------------------------------
// Folding
// ---------------------------------------------------------------------------

/// Toggling a directory flips it and no other.
pub proof fn law_toggle_flips_one_directory(tree: &mut FileTree, path: &str)
    requires
        call_ensures(FileTree::toggle_dir, (tree, path), ()),
    ensures
        forall|dir: Seq<char>| #[trigger]
            final(tree)@.collapsed.contains(dir) <==> (old(tree)@.collapsed.contains(dir) <==> dir
                != path@),
        final(tree)@.dirty,
        final(tree)@.selected == old(tree)@.selected,
        final(tree)@.selection == old(tree)@.selection,
        keeps_the_rest(old(tree)@, final(tree)@),
{
}

/// Directory `path` is in the tree.
pub open spec fn has_dir(v: FileTreeView, path: Seq<char>) -> bool {
    exists|k: int|
        0 <= k < v.model.entries.len() && (#[trigger] v.model.entries[k]).kind == EntryKind::Dir
            && v.model.entries[k].path@ == path
}

/// Collapsing everything folds every directory of the tree and unfolds none;
/// expanding everything unfolds all.
pub proof fn law_collapse_all_folds_every_directory(tree: &mut FileTree, other: &mut FileTree)
    requires
        call_ensures(FileTree::collapse_all, (tree,), ()),
        call_ensures(FileTree::expand_all, (other,), ()),
    ensures
        forall|dir: Seq<char>| #[trigger]
            final(tree)@.collapsed.contains(dir) <==> old(tree)@.collapsed.contains(dir) || has_dir(
                old(tree)@,
                dir,
            ),
        forall|dir: Seq<char>| !#[trigger] final(other)@.collapsed.contains(dir),
        final(tree)@.dirty && final(other)@.dirty,
        final(tree)@.selected == old(tree)@.selected && final(tree)@.selection
            == old(tree)@.selection,
        final(other)@.selected == old(other)@.selected && final(other)@.selection
            == old(other)@.selection,
        keeps_the_rest(old(tree)@, final(tree)@),
        keeps_the_rest(old(other)@, final(other)@),
{
    let v = old(tree)@;
    assert forall|dir: Seq<char>| #[trigger]
        final(tree)@.collapsed.contains(dir) <==> v.collapsed.contains(dir) || has_dir(
            v,
            dir,
        ) by {
        collapse::lemma_dirs_among(v.model.entries, v.model.entries.len(), dir);
    }
}

/// The header's toggle folds everything unless everything is folded: then it
/// unfolds everything. A tree without directories is never folded.
pub proof fn law_header_toggle(
    tree: &mut FileTree,
    all: bool,
    header: HeaderPresentation,
)
    requires
        call_ensures(FileTree::all_dirs_collapsed, (old(tree),), all),
        call_ensures(FileTree::header, (old(tree),), header),
        call_ensures(FileTree::toggle_collapse_all, (tree,), ()),
    ensures
        all <==> (exists|dir: Seq<char>| #[trigger] has_dir(old(tree)@, dir)) && (forall|
            dir: Seq<char>,
        | #[trigger]
            has_dir(old(tree)@, dir) ==> old(tree)@.collapsed.contains(dir)),
        header.offers_expand == all,
        all ==> forall|dir: Seq<char>| !#[trigger] final(tree)@.collapsed.contains(dir),
        !all ==> forall|dir: Seq<char>| #[trigger]
            final(tree)@.collapsed.contains(dir) <==> old(tree)@.collapsed.contains(dir) || has_dir(
                old(tree)@,
                dir,
            ),
        keeps_the_rest(old(tree)@, final(tree)@),
        final(tree)@.selected == old(tree)@.selected,
        final(tree)@.selection == old(tree)@.selection,
{
    let v = old(tree)@;
    assert forall|k: int|
        0 <= k < v.model.entries.len() && (#[trigger] v.model.entries[k]).kind
            == EntryKind::Dir implies has_dir(v, v.model.entries[k].path@) by {}
    if exists|dir: Seq<char>| #[trigger] has_dir(v, dir) {
        let dir = choose|dir: Seq<char>| #[trigger] has_dir(v, dir);
        let k = choose|k: int|
            0 <= k < v.model.entries.len() && (#[trigger] v.model.entries[k]).kind == EntryKind::Dir
                && v.model.entries[k].path@ == dir;
        assert(v.model.entries[k].kind == EntryKind::Dir);
    }
    assert forall|dir: Seq<char>| !all implies (#[trigger] final(tree)@.collapsed.contains(dir)
        <==> v.collapsed.contains(dir) || has_dir(v, dir)) by {
        collapse::lemma_dirs_among(v.model.entries, v.model.entries.len(), dir);
    }
    if all {
        assert(exists|dir: Seq<char>| #[trigger] has_dir(v, dir)) by {
            let k = choose|k: int|
                0 <= k < v.model.entries.len() && (#[trigger] v.model.entries[k]).kind
                    == EntryKind::Dir;
            assert(has_dir(v, v.model.entries[k].path@));
        }
    }
}

/// What the header's buttons say: the one offers to expand where everything is
/// folded and to collapse otherwise, the other opens the filter or closes it.
pub proof fn law_header_texts(tree: FileTree, header: HeaderPresentation)
    requires
        call_ensures(FileTree::header, (&tree,), header),
    ensures
        header.offers_expand ==> header.collapse_tooltip@ == "Expand all"@,
        !header.offers_expand ==> header.collapse_tooltip@ == "Collapse all"@,
        header.filter_pressed <==> tree@.filter_active,
        tree@.filter_active ==> header.filter_tooltip@ == "Close filter"@,
        !tree@.filter_active ==> header.filter_tooltip@ == "Filter files"@,
{
}

/// A folded root shows nothing and an unfolded one what it showed, for toggling
/// the root leaves everything else alone.
pub proof fn law_root_toggle_hides_everything(tree: &mut FileTree, list: Vec<Row>)
    requires
        call_ensures(FileTree::toggle_root_collapsed, (tree,), ()),
        call_ensures(FileTree::visible_rows, (final(tree),), list),
    ensures
        final(tree)@.root_collapsed == !old(tree)@.root_collapsed,
        !old(tree)@.root_collapsed ==> list@.len() == 0,
        final(tree)@.dirty,
        final(tree)@ == (FileTreeView {
            root_collapsed: final(tree)@.root_collapsed,
            dirty: true,
            ..old(tree)@
        }),
{
    assert(rows::rows_view(list@).len() == list@.len());
}

// ---------------------------------------------------------------------------
// Rows
// ---------------------------------------------------------------------------

/// An unfolded tree without a filter shows what no collapsed directory hides,
/// and with one what the filter finds.
pub proof fn law_tree_shows_its_rows(
    tree: FileTree,
    list: Vec<Row>,
)
    requires
        tree.wf(),
        call_ensures(FileTree::visible_rows, (&tree,), list),
    ensures
        tree@.root_collapsed ==> list@.len() == 0,
        !tree@.root_collapsed && tree@.filter_query.len() == 0 ==> {
            &&& rows::rows_ascend(rows::rows_view(list@))
            &&& forall|k: int|
                0 <= k < tree@.model.entries.len() ==> (!rows::folded_away(
                    tree@.model,
                    tree@.collapsed,
                    (#[trigger] tree@.model.entries[k]).path@,
                ) <==> exists|r: int|
                    0 <= r < list@.len() && (#[trigger] list@[r]).path@
                        == tree@.model.entries[k].path@)
        },
{
    let m = tree@.model;
    let closed = tree@.collapsed;
    let all = rows::rows_view(list@);
    assert(all.len() == list@.len());
    if !tree@.root_collapsed && tree@.filter_query.len() == 0 {
        rows::lemma_plain_rows_paths(m, closed);
        assert forall|k: int| 0 <= k < m.entries.len() implies (!rows::folded_away(
            m,
            closed,
            (#[trigger] m.entries[k]).path@,
        ) <==> exists|r: int|
            0 <= r < list@.len() && (#[trigger] list@[r]).path@ == m.entries[k].path@) by {
            let path = m.entries[k].path@;
            if !rows::folded_away(m, closed, path) {
                let r = choose|r: int| 0 <= r < all.len() && (#[trigger] all[r]).path == path;
                assert(list@[r].path@ == path);
            }
            if exists|r: int| 0 <= r < list@.len() && (#[trigger] list@[r]).path@ == path {
                let r = choose|r: int| 0 <= r < list@.len() && (#[trigger] list@[r]).path@ == path;
                assert(all[r].path == path);
            }
        }
    }
}

/// The row of the create editor stands on top for the root, otherwise right
/// behind the row of its directory and one level deeper, or last where that has
/// no row.
pub proof fn law_create_row_stands_in_its_directory(
    list: &mut Vec<Row>,
    create: super::CreateEditor,
    at: int,
)
    requires
        call_ensures(super::insert_create_row, (list, &create), ()),
        create.parent@.len() == 0 ==> at == -1,
        create.parent@.len() > 0 ==> first_row_of(rows::rows_view(old(list)@), create.parent@, at)
            || (has_no_row(rows::rows_view(old(list)@), create.parent@) && at == old(list)@.len()
            - 1),
    ensures
        final(list)@.len() == old(list)@.len() + 1,
        final(list)@[at + 1].is_pending_create,
        final(list)@[at + 1].kind == create.kind,
        final(list)@[at + 1].path@.len() == 0,
        !final(list)@[at + 1].ignored,
        final(list)@[at + 1].git_status is None && final(list)@[at + 1].severity is None,
        final(list)@[at + 1].matched_indices@.len() == 0,
        final(list)@[at + 1].depth == if create.parent@.len() > 0 && first_row_of(
            rows::rows_view(old(list)@),
            create.parent@,
            at,
        ) {
            old(list)@[at].depth + 1
        } else {
            0
        },
        forall|i: int| 0 <= i <= at ==> (#[trigger] final(list)@[i])@ == old(list)@[i]@,
        forall|i: int|
            at + 1 < i < final(list)@.len() ==> (#[trigger] final(list)@[i])@ == old(list)@[i - 1]@,
{
    let before = rows::rows_view(old(list)@);
    let after = rows::rows_view(final(list)@);
    lemma_position(before, create.parent@);
    assert(after.len() == final(list)@.len() && before.len() == old(list)@.len());
    assert(after[at + 1] == final(list)@[at + 1]@);
    assert forall|i: int| 0 <= i < final(list)@.len() implies after[i] == (
    #[trigger] final(list)@[i])@ by {}
    assert forall|i: int| 0 <= i < old(list)@.len() implies before[i] == old(list)@[i]@ by {}
    if create.parent@.len() > 0 && first_row_of(before, create.parent@, at) {
        assert(before[at] == old(list)@[at]@);
    }
}

// ---------------------------------------------------------------------------
// Clicks
// ---------------------------------------------------------------------------

/// A plain click moves the cursor, drops the selection, and opens a file or
/// flips a directory.
pub proof fn law_plain_click(
    tree: &mut FileTree,
    path: &str,
    kind: EntryKind,
    event: Option<FileTreeEvent>,
)
    requires
        call_ensures(FileTree::click_row, (tree, path, kind, false, false), event),
    ensures
        final(tree)@.selected == Some(path@),
        final(tree)@.selection == Set::<Seq<char>>::empty(),
        kind is File ==> (event matches Some(FileTreeEvent::OpenFile { path: opened }) && opened@
            == path@) && final(tree)@.collapsed == old(tree)@.collapsed,
        kind is Dir ==> event is None && forall|dir: Seq<char>| #[trigger]
            final(tree)@.collapsed.contains(dir) <==> (old(tree)@.collapsed.contains(dir) <==> dir
                != path@),
        keeps_the_rest(old(tree)@, final(tree)@),
        final(tree)@.dirty,
{
}

/// A click with the secondary modifier flips one path in the selection, whatever
/// else is held, and opens nothing.
pub proof fn law_secondary_click(
    tree: &mut FileTree,
    path: &str,
    kind: EntryKind,
    shift: bool,
    event: Option<FileTreeEvent>,
)
    requires
        call_ensures(FileTree::click_row, (tree, path, kind, true, shift), event),
    ensures
        event is None,
        final(tree)@.selected == Some(path@),
        forall|other: Seq<char>| #[trigger]
            final(tree)@.selection.contains(other) <==> (old(tree)@.selection.contains(other)
                <==> other != path@),
        final(tree)@.collapsed == old(tree)@.collapsed,
        keeps_the_rest(old(tree)@, final(tree)@),
        final(tree)@.dirty,
{
}

/// What a shift-click on `path` selects in a tree whose cursor was on `from`:
/// every row from the one to the other, or `path` alone where one of them has no
/// row.
pub open spec fn selects_the_range(
    after: FileTreeView,
    from: Option<Seq<char>>,
    path: Seq<char>,
) -> bool {
    &&& forall|a: int, b: int, other: Seq<char>|
        from is Some && #[trigger] first_row_of(after.rows, from->0, a) && #[trigger] first_row_of(
            after.rows,
            path,
            b,
        ) ==> (#[trigger] after.selection.contains(other) <==> exists|k: int|
            (a <= k <= b || b <= k <= a) && (#[trigger] after.rows[k]).path == other)
    &&& (from is None || has_no_row(after.rows, from->0) || has_no_row(after.rows, path))
        ==> forall|other: Seq<char>| #[trigger]
        after.selection.contains(other) <==> other == path
}

proof fn lemma_shift_range(v: FileTreeView, after: FileTreeView, path: Seq<char>)
    requires
        after.rows == v.rows,
        after.selection == selection::shift_range(v, path),
    ensures
        selects_the_range(after, v.selected, path),
{
    lemma_position(v.rows, path);
    if let Some(from) = v.selected {
        lemma_position(v.rows, from);
    }
    assert forall|a: int, b: int, other: Seq<char>|
        v.selected is Some && #[trigger] first_row_of(after.rows, v.selected->0, a)
            && #[trigger] first_row_of(after.rows, path, b) implies (
    #[trigger] after.selection.contains(other) <==> exists|k: int|
        (a <= k <= b || b <= k <= a) && (#[trigger] after.rows[k]).path == other) by {
        let start = if a < b {
            a
        } else {
            b
        };
        let end = if a < b {
            b
        } else {
            a
        };
        if after.selection.contains(other) {
            let k = choose|k: int| start <= k <= end && #[trigger] v.rows[k].path == other;
            assert(after.rows[k].path == other);
        }
        if exists|k: int|
            (a <= k <= b || b <= k <= a) && (#[trigger] after.rows[k]).path == other {
            let k = choose|k: int|
                (a <= k <= b || b <= k <= a) && (#[trigger] after.rows[k]).path == other;
            assert(start <= k <= end && v.rows[k].path == other);
        }
    }
}

/// A shift-click selects the visible rows from the cursor to the click, both
/// included, moves the cursor and opens nothing.
pub proof fn law_shift_click(
    tree: &mut FileTree,
    path: &str,
    kind: EntryKind,
    event: Option<FileTreeEvent>,
)
    requires
        call_ensures(FileTree::click_row, (tree, path, kind, false, true), event),
    ensures
        event is None,
        final(tree)@.selected == Some(path@),
        selects_the_range(final(tree)@, old(tree)@.selected, path@),
        final(tree)@.collapsed == old(tree)@.collapsed,
        keeps_the_rest(old(tree)@, final(tree)@),
{
    lemma_shift_range(
        super::with_rows(old(tree)@, final(tree)@.rows),
        final(tree)@,
        path@,
    );
}

/// Each kind of click does by itself what it does as a part of a click on a row.
pub proof fn law_clicks_by_themselves(
    flipped: &mut FileTree,
    opened: &mut FileTree,
    marked: &mut FileTree,
    ranged: &mut FileTree,
    menu: &mut FileTree,
    path: &str,
    event: FileTreeEvent,
)
    requires
        call_ensures(FileTree::click_dir, (flipped, path), ()),
        call_ensures(FileTree::click_file, (opened, path), event),
        call_ensures(FileTree::toggle_selection, (marked, path), ()),
        call_ensures(FileTree::range_select, (ranged, path), ()),
        call_ensures(FileTree::context_click, (menu, path), ()),
    ensures
        final(flipped)@.selected == Some(path@) && final(opened)@.selected == Some(path@)
            && final(marked)@.selected == Some(path@) && final(ranged)@.selected == Some(path@)
            && final(menu)@.selected == Some(path@),
        final(flipped)@.selection == Set::<Seq<char>>::empty(),
        final(opened)@.selection == Set::<Seq<char>>::empty(),
        forall|dir: Seq<char>| #[trigger]
            final(flipped)@.collapsed.contains(dir) <==> (old(flipped)@.collapsed.contains(dir)
                <==> dir != path@),
        event matches FileTreeEvent::OpenFile { path: asked } && asked@ == path@,
        final(opened)@.collapsed == old(opened)@.collapsed,
        forall|other: Seq<char>| #[trigger]
            final(marked)@.selection.contains(other) <==> (old(marked)@.selection.contains(other)
                <==> other != path@),
        final(marked)@.collapsed == old(marked)@.collapsed,
        selects_the_range(final(ranged)@, old(ranged)@.selected, path@),
        final(ranged)@.collapsed == old(ranged)@.collapsed,
        final(menu)@.selection == old(menu)@.selection,
        final(menu)@.collapsed == old(menu)@.collapsed,
        keeps_the_rest(old(flipped)@, final(flipped)@),
        keeps_the_rest(old(opened)@, final(opened)@),
        keeps_the_rest(old(marked)@, final(marked)@),
        keeps_the_rest(old(ranged)@, final(ranged)@),
        keeps_the_rest(old(menu)@, final(menu)@),
{
    lemma_shift_range(
        super::with_rows(old(ranged)@, final(ranged)@.rows),
        final(ranged)@,
        path@,
    );
}

// ---------------------------------------------------------------------------
// Keys
// ---------------------------------------------------------------------------

/// `to` is the path that a step of `by` rows leads to: the row that far from
/// `from`, the row of `from` itself at the end of the list, and the first row
/// where `from` has none.
pub open spec fn is_step(
    list: Seq<RowView>,
    from: Option<Seq<char>>,
    to: Seq<char>,
    by: int,
) -> bool {
    &&& list.len() > 0
    &&& forall|at: int|
        from is Some && #[trigger] first_row_of(list, from->0, at) ==> {
            &&& 0 <= at + by < list.len() ==> to == list[at + by].path
            &&& !(0 <= at + by < list.len()) ==> to == list[at].path
        }
    &&& (from is None || has_no_row(list, from->0)) ==> to == list[0].path
}

proof fn lemma_steps(list: Seq<RowView>, from: Option<Seq<char>>)
    requires
        list.len() > 0,
    ensures
        is_step(list, from, list[navigation::step_down(list, from)].path, 1),
        is_step(list, from, list[navigation::step_up(list, from)].path, -1),
        0 <= navigation::step_down(list, from) < list.len(),
        0 <= navigation::step_up(list, from) < list.len(),
{
    if let Some(path) = from {
        lemma_position(list, path);
    }
}

/// The keys up, down, home and end move the cursor to the row above, the row
/// below, the first row and the last row, and nothing else changes. From nowhere
/// the cursor goes to the first row.
pub proof fn law_keys_move_the_cursor(
    up: &mut FileTree,
    down: &mut FileTree,
    home: &mut FileTree,
    end: &mut FileTree,
    up_row: Option<usize>,
    down_row: Option<usize>,
    home_row: Option<usize>,
    end_row: Option<usize>,
)
    requires
        call_ensures(FileTree::select_up, (up,), up_row),
        call_ensures(FileTree::select_down, (down,), down_row),
        call_ensures(FileTree::select_first, (home,), home_row),
        call_ensures(FileTree::select_last, (end,), end_row),
    ensures
        match final(up)@.selected {
            Some(path) => is_step(final(up)@.rows, old(up)@.selected, path, -1),
            None => final(up)@.rows.len() == 0,
        },
        match final(down)@.selected {
            Some(path) => is_step(final(down)@.rows, old(down)@.selected, path, 1),
            None => final(down)@.rows.len() == 0,
        },
        match final(home)@.selected {
            Some(path) => final(home)@.rows.len() > 0 && path == final(home)@.rows[0].path,
            None => final(home)@.rows.len() == 0,
        },
        match final(end)@.selected {
            Some(path) => final(end)@.rows.len() > 0 && path == final(end)@.rows.last().path,
            None => final(end)@.rows.len() == 0,
        },
        scrolls_to_cursor(final(up)@, up_row),
        scrolls_to_cursor(final(down)@, down_row),
        scrolls_to_cursor(final(home)@, home_row),
        scrolls_to_cursor(final(end)@, end_row),
        keeps_the_rest(old(up)@, final(up)@) && final(up)@.selection == old(up)@.selection
            && final(up)@.collapsed == old(up)@.collapsed,
        keeps_the_rest(old(down)@, final(down)@) && final(down)@.selection == old(down)@.selection
            && final(down)@.collapsed == old(down)@.collapsed,
        keeps_the_rest(old(home)@, final(home)@) && final(home)@.selection == old(home)@.selection
            && final(home)@.collapsed == old(home)@.collapsed,
        keeps_the_rest(old(end)@, final(end)@) && final(end)@.selection == old(end)@.selection
            && final(end)@.collapsed == old(end)@.collapsed,
{
    if final(up)@.rows.len() > 0 {
        lemma_steps(final(up)@.rows, old(up)@.selected);
    }
    if final(down)@.rows.len() > 0 {
        lemma_steps(final(down)@.rows, old(down)@.selected);
    }
    lemma_scroll(final(up)@, up_row);
    lemma_scroll(final(down)@, down_row);
    lemma_scroll(final(home)@, home_row);
    lemma_scroll(final(end)@, end_row);
}

/// Scrolling to the cursor changes nothing but the cache.
pub proof fn law_scrolling_only_looks(tree: &mut FileTree, row: Option<usize>)
    requires
        call_ensures(FileTree::scroll_selected_into_view, (tree,), row),
    ensures
        scrolls_to_cursor(final(tree)@, row),
        final(tree)@.selected == old(tree)@.selected,
        final(tree)@.selection == old(tree)@.selection,
        final(tree)@.collapsed == old(tree)@.collapsed,
        keeps_the_rest(old(tree)@, final(tree)@),
{
    lemma_scroll(final(tree)@, row);
}

/// What extending the selection by one step does: the row that is left and the
/// row that is reached are selected beside what was, and the cursor moves.
pub open spec fn extends_by(v: FileTreeView, after: FileTreeView, by: int) -> bool {
    &&& keeps_the_rest(v, after)
    &&& after.collapsed == v.collapsed
    &&& match v.selected {
        None => after.selection == v.selection && (after.rows.len() > 0 ==> after.selected == Some(
            after.rows[0].path,
        )),
        Some(from) => {
            &&& after.rows.len() > 0 ==> after.selected is Some && is_step(
                after.rows,
                v.selected,
                after.selected->0,
                by,
            )
            &&& after.rows.len() == 0 ==> after.selected == v.selected
            &&& forall|path: Seq<char>| #[trigger]
                after.selection.contains(path) <==> v.selection.contains(path) || path == from
                    || after.selected == Some(path)
        },
    }
}

/// Shift with up or down extends the selection to the row above or below.
pub proof fn law_shift_keys_extend_the_selection(
    up: &mut FileTree,
    down: &mut FileTree,
    up_row: Option<usize>,
    down_row: Option<usize>,
)
    requires
        call_ensures(FileTree::extend_selection_up, (up,), up_row),
        call_ensures(FileTree::extend_selection_down, (down,), down_row),
    ensures
        extends_by(old(up)@, final(up)@, -1),
        extends_by(old(down)@, final(down)@, 1),
        scrolls_to_cursor(final(up)@, up_row),
        scrolls_to_cursor(final(down)@, down_row),
{
    if final(up)@.rows.len() > 0 {
        lemma_steps(final(up)@.rows, old(up)@.selected);
    }
    if final(down)@.rows.len() > 0 {
        lemma_steps(final(down)@.rows, old(down)@.selected);
    }
    lemma_scroll(final(up)@, up_row);
    lemma_scroll(final(down)@, down_row);
}

/// What left and right do where the cursor is on no row: without a cursor they
/// go to the first row, and with one that has no row they do nothing.
pub open spec fn goes_nowhere(v: FileTreeView, after: FileTreeView, row: Option<usize>) -> bool {
    &&& v.selected is None ==> {
        &&& v.rows.len() > 0 ==> after.selected == Some(v.rows[0].path)
        &&& v.rows.len() == 0 ==> after.selected is None
        &&& after.collapsed == v.collapsed
        &&& after.selection == v.selection
        &&& keeps_the_rest(v, after)
        &&& scrolls_to_cursor(after, row)
    }
    &&& v.selected is Some && has_no_row(v.rows, v.selected->0) ==> after == v && row is None
}

proof fn lemma_scroll_at(after: FileTreeView, row: Option<usize>, v: FileTreeView)
    ensures
        selection::index_view(row) == navigation::position_of_opt(after.rows, after.selected)
            ==> scrolls_to_cursor(after, row),
        v.selected is Some && has_no_row(v.rows, v.selected->0) ==> navigation::position_of(
            v.rows,
            v.selected->0,
        ) is None,
{
    if selection::index_view(row) == navigation::position_of_opt(after.rows, after.selected) {
        lemma_scroll(after, row);
    }
    if let Some(path) = v.selected {
        lemma_position(v.rows, path);
    }
}

/// What left does at row `at`: it folds an unfolded directory and nothing else.
/// From a folded directory or a file it goes to the closest row above that is
/// less deep, and stays where there is none.
pub open spec fn folds_or_goes_out(
    v: FileTreeView,
    after: FileTreeView,
    row: Option<usize>,
    at: int,
) -> bool {
    let path = v.selected->0;
    let unfolded = v.rows[at].kind == EntryKind::Dir && !v.collapsed.contains(path);
    &&& keeps_the_rest(v, after)
    &&& after.selection == v.selection
    &&& scrolls_to_cursor(after, row)
    &&& unfolded ==> after.selected == v.selected && forall|dir: Seq<char>| #[trigger]
        after.collapsed.contains(dir) <==> v.collapsed.contains(dir) || dir == path
    &&& !unfolded ==> after.collapsed == v.collapsed && after.rows == v.rows
    &&& !unfolded ==> ((exists|k: int|
        0 <= k < at && (#[trigger] v.rows[k]).depth < v.rows[at].depth && after.selected == Some(
            v.rows[k].path,
        ) && (forall|j: int| k < j < at ==> (#[trigger] v.rows[j]).depth >= v.rows[at].depth)) || (
    after.selected == v.selected && forall|j: int|
        0 <= j < at ==> (#[trigger] v.rows[j]).depth >= v.rows[at].depth))
}

proof fn lemma_stepped_left(v: FileTreeView, after: FileTreeView, row: Option<usize>)
    requires
        !v.dirty,
        exists|list: Seq<RowView>| #[trigger]
            super::refreshed(v, list) && selection::stepped_left(
                super::with_rows(v, list),
                after,
                selection::index_view(row),
            ),
    ensures
        goes_nowhere(v, after, row),
        forall|at: int|
            v.selected is Some && #[trigger] first_row_of(v.rows, v.selected->0, at)
                ==> folds_or_goes_out(v, after, row, at),
{
    let list = choose|list: Seq<RowView>| #[trigger]
        super::refreshed(v, list) && selection::stepped_left(
            super::with_rows(v, list),
            after,
            selection::index_view(row),
        );
    assert(list == v.rows);
    assert(v == super::with_rows(v, v.rows));
    lemma_scroll_at(after, row, v);
    if let Some(path) = v.selected {
        lemma_position(v.rows, path);
        assert forall|at: int| #[trigger] first_row_of(v.rows, path, at) implies folds_or_goes_out(
            v,
            after,
            row,
            at,
        ) by {
            navigation::lemma_nearest_above(v.rows, v.rows[at].depth, at as nat);
            if let Some(k) = navigation::parent_row(v.rows, at) {
                assert(v.rows[k as int].depth < v.rows[at].depth);
            }
            lemma_scroll(after, row);
        }
    }
}

/// Left folds an unfolded directory at the cursor and nothing else. From a
/// folded directory or a file it goes to the closest row above that is less
/// deep, and stays where there is none.
pub proof fn law_left_folds_or_goes_out(tree: &mut FileTree, row: Option<usize>, at: int)
    requires
        !old(tree)@.dirty,
        call_ensures(FileTree::collapse_or_select_parent, (tree,), row),
        old(tree)@.selected is Some,
        first_row_of(old(tree)@.rows, old(tree)@.selected->0, at),
    ensures
        folds_or_goes_out(old(tree)@, final(tree)@, row, at),
{
    lemma_stepped_left(old(tree)@, final(tree)@, row);
}

/// What right does at row `at`: it unfolds a folded directory and nothing else.
/// From an unfolded directory it goes to the next row where that is one level
/// deeper; otherwise it stays.
pub open spec fn unfolds_or_goes_in(
    v: FileTreeView,
    after: FileTreeView,
    row: Option<usize>,
    at: int,
) -> bool {
    let path = v.selected->0;
    let folded = v.rows[at].kind == EntryKind::Dir && v.collapsed.contains(path);
    let inner = v.rows[at].kind == EntryKind::Dir && at + 1 < v.rows.len() && v.rows[at + 1].depth
        == v.rows[at].depth + 1;
    &&& keeps_the_rest(v, after)
    &&& after.selection == v.selection
    &&& scrolls_to_cursor(after, row)
    &&& folded ==> after.selected == v.selected && forall|dir: Seq<char>| #[trigger]
        after.collapsed.contains(dir) <==> v.collapsed.contains(dir) && dir != path
    &&& !folded ==> after.collapsed == v.collapsed && after.rows == v.rows
    &&& !folded && inner ==> after.selected == Some(v.rows[at + 1].path)
    &&& !folded && !inner ==> after.selected == v.selected
}

proof fn lemma_stepped_right(v: FileTreeView, after: FileTreeView, row: Option<usize>)
    requires
        !v.dirty,
        exists|list: Seq<RowView>| #[trigger]
            super::refreshed(v, list) && selection::stepped_right(
                super::with_rows(v, list),
                after,
                selection::index_view(row),
            ),
    ensures
        goes_nowhere(v, after, row),
        forall|at: int|
            v.selected is Some && #[trigger] first_row_of(v.rows, v.selected->0, at)
                ==> unfolds_or_goes_in(v, after, row, at),
{
    let list = choose|list: Seq<RowView>| #[trigger]
        super::refreshed(v, list) && selection::stepped_right(
            super::with_rows(v, list),
            after,
            selection::index_view(row),
        );
    assert(list == v.rows);
    assert(v == super::with_rows(v, v.rows));
    lemma_scroll_at(after, row, v);
    if let Some(path) = v.selected {
        lemma_position(v.rows, path);
        assert forall|at: int| #[trigger] first_row_of(v.rows, path, at) implies unfolds_or_goes_in(
            v,
            after,
            row,
            at,
        ) by {
            lemma_scroll(after, row);
        }
    }
}

/// Right unfolds a folded directory at the cursor and nothing else. From an
/// unfolded directory it goes to the next row where that is one level deeper;
/// otherwise it stays.
pub proof fn law_right_unfolds_or_goes_in(tree: &mut FileTree, row: Option<usize>, at: int)
    requires
        !old(tree)@.dirty,
        call_ensures(FileTree::expand_or_select_child, (tree,), row),
        old(tree)@.selected is Some,
        first_row_of(old(tree)@.rows, old(tree)@.selected->0, at),
    ensures
        unfolds_or_goes_in(old(tree)@, final(tree)@, row, at),
{
    lemma_stepped_right(old(tree)@, final(tree)@, row);
}

/// Left and right from nowhere go to the first row; from a path without a row
/// they do nothing.
pub proof fn law_left_and_right_from_nowhere(
    left: &mut FileTree,
    right: &mut FileTree,
    left_row: Option<usize>,
    right_row: Option<usize>,
)
    requires
        !old(left)@.dirty,
        !old(right)@.dirty,
        call_ensures(FileTree::collapse_or_select_parent, (left,), left_row),
        call_ensures(FileTree::expand_or_select_child, (right,), right_row),
    ensures
        goes_nowhere(old(left)@, final(left)@, left_row),
        goes_nowhere(old(right)@, final(right)@, right_row),
{
    lemma_stepped_left(old(left)@, final(left)@, left_row);
    lemma_stepped_right(old(right)@, final(right)@, right_row);
}

/// Row `r` is a selected file.
pub open spec fn is_selected_file(v: FileTreeView, r: int) -> bool {
    &&& 0 <= r < v.rows.len()
    &&& v.rows[r].kind == EntryKind::File
    &&& v.selection.contains(v.rows[r].path)
}

/// `at` lists the rows of the selected files among the first `n`, in their order.
pub open spec fn lists_selected_files(v: FileTreeView, at: Seq<int>, n: int) -> bool {
    &&& forall|i: int| 0 <= i < at.len() ==> #[trigger] at[i] < n && is_selected_file(v, at[i])
    &&& forall|i: int, j: int| 0 <= i < j < at.len() ==> at[i] < at[j]
    &&& forall|r: int| 0 <= r < n && #[trigger] is_selected_file(v, r) ==> at.contains(r)
}

proof fn lemma_open_targets(v: FileTreeView, n: nat) -> (at: Seq<int>)
    requires
        n <= v.rows.len(),
    ensures
        lists_selected_files(v, at, n as int),
        at.len() == selection::open_targets(v.rows, v.selection, n).len(),
        forall|i: int|
            0 <= i < at.len() ==> selection::open_targets(v.rows, v.selection, n)[i]
                == v.rows[#[trigger] at[i]].path,
    decreases n,
{
    if n == 0 {
        Seq::empty()
    } else {
        let rest = lemma_open_targets(v, (n - 1) as nat);
        if is_selected_file(v, n - 1) {
            let at = rest.push(n - 1);
            assert forall|r: int| 0 <= r < n && #[trigger] is_selected_file(v, r) implies at.contains(
                r,
            ) by {
                if r < n - 1 {
                    let i = choose|i: int| 0 <= i < rest.len() && rest[i] == r;
                    assert(at[i] == r);
                } else {
                    assert(at[rest.len() as int] == r);
                }
            }
            at
        } else {
            rest
        }
    }
}

/// The files to open are those of the selection that have a row, in row order.
pub proof fn law_open_targets_are_the_selected_files(tree: FileTree, targets: Vec<String>)
    requires
        call_ensures(FileTree::open_many_targets, (&tree,), targets),
    ensures
        exists|at: Seq<int>| #[trigger]
            lists_selected_files(tree@, at, tree@.rows.len() as int) && at.len() == targets@.len()
                && forall|i: int|
                0 <= i < at.len() ==> (#[trigger] targets@[i])@ == tree@.rows[at[i]].path,
{
    let v = tree@;
    let at = lemma_open_targets(v, v.rows.len());
    let views = targets@.map_values(|t: String| t@);
    assert(views.len() == targets@.len());
    assert forall|i: int| 0 <= i < at.len() implies (#[trigger] targets@[i])@
        == v.rows[at[i]].path by {
        assert(views[i] == targets@[i]@);
        assert(at[i] == at[i]);
    }
    assert(lists_selected_files(v, at, v.rows.len() as int));
}

/// What enter does: it opens the selected files, one request each and in row
/// order. Without any it opens the file at the cursor or flips the directory
/// there.
pub open spec fn opens_what_is_selected(
    v: FileTreeView,
    after: FileTreeView,
    events: Seq<FileTreeEvent>,
) -> bool {
    let some = exists|r: int| #[trigger] is_selected_file(v, r);
    &&& keeps_the_rest(v, after)
    &&& after.selected == v.selected && after.selection == v.selection
    &&& some ==> after.collapsed == v.collapsed && exists|at: Seq<int>| #[trigger]
        lists_selected_files(v, at, v.rows.len() as int) && at.len() == events.len() && forall|
            i: int,
        |
            0 <= i < at.len() ==> ((#[trigger] events[i]) matches FileTreeEvent::OpenFile { path }
                && path@ == v.rows[at[i]].path)
    &&& forall|at: int|
        !some && v.selected is Some && #[trigger] first_row_of(v.rows, v.selected->0, at) ==> {
            &&& v.rows[at].kind == EntryKind::File ==> after.collapsed == v.collapsed
                && events.len() == 1 && (events[0] matches FileTreeEvent::OpenFile { path } && path@
                == v.selected->0)
            &&& v.rows[at].kind == EntryKind::Dir ==> events.len() == 0 && forall|
                dir: Seq<char>,
            | #[trigger]
                after.collapsed.contains(dir) <==> (v.collapsed.contains(dir) <==> dir
                    != v.selected->0)
        }
    &&& !some && (v.selected is None || has_no_row(v.rows, v.selected->0)) ==> after == v
        && events.len() == 0
}

proof fn lemma_opened(v: FileTreeView, after: FileTreeView, events: Seq<FileTreeEvent>)
    requires
        !v.dirty,
        exists|list: Seq<RowView>| #[trigger]
            super::refreshed(v, list) && selection::opened(
                super::with_rows(v, list),
                after,
                events,
            ),
    ensures
        opens_what_is_selected(v, after, events),
{
    let list = choose|list: Seq<RowView>| #[trigger]
        super::refreshed(v, list) && selection::opened(super::with_rows(v, list), after, events);
    assert(list == v.rows);
    assert(v == super::with_rows(v, v.rows));
    let at = lemma_open_targets(v, v.rows.len());
    let wanted = selection::open_targets(v.rows, v.selection, v.rows.len());
    if let Some(path) = v.selected {
        lemma_position(v.rows, path);
    }
    if exists|r: int| #[trigger] is_selected_file(v, r) {
        let r = choose|r: int| #[trigger] is_selected_file(v, r);
        assert(at.contains(r));
        assert(wanted.len() > 0);
        assert forall|i: int| 0 <= i < at.len() implies ((
        #[trigger] events[i]) matches FileTreeEvent::OpenFile { path } && path@
            == v.rows[at[i]].path) by {
            assert(at[i] == at[i]);
            assert(super::opens(events[i], wanted[i]));
        }
        assert(lists_selected_files(v, at, v.rows.len() as int));
    } else if wanted.len() > 0 {
        assert(is_selected_file(v, at[0]));
    }
}

/// Enter opens the selected files, one request each and in row order. Without
/// any it opens the file at the cursor or flips the directory there.
pub proof fn law_enter_opens_what_is_selected(tree: &mut FileTree, events: Vec<FileTreeEvent>)
    requires
        !old(tree)@.dirty,
        call_ensures(FileTree::open_selected, (tree,), events),
    ensures
        opens_what_is_selected(old(tree)@, final(tree)@, events@),
{
    lemma_opened(old(tree)@, final(tree)@, events@);
}

// ---------------------------------------------------------------------------
// Filter
// ---------------------------------------------------------------------------

/// What a filter does not touch is the same.
pub open spec fn keeps_all_but_the_filter(v: FileTreeView, after: FileTreeView) -> bool {
    after == (FileTreeView {
        filter_active: after.filter_active,
        filter_query: after.filter_query,
        dirty: after.dirty,
        ..v
    })
}

/// The bar opens blank, takes what is typed without the white space around it,
/// and closes without a filter. Opening an open bar keeps what was typed.
pub proof fn law_filter_follows_its_bar(
    opened: &mut FileTree,
    closed: &mut FileTree,
    flipped: &mut FileTree,
    typed: &mut FileTree,
    value: &str,
    inner: &str,
)
    requires
        call_ensures(FileTree::open_filter, (opened,), ()),
        call_ensures(FileTree::close_filter, (closed,), ()),
        call_ensures(FileTree::toggle_filter, (flipped,), ()),
        call_ensures(FileTree::filter_changed, (typed, value), ()),
        call_ensures(text::trim, (value,), inner),
        old(closed).wf(),
    ensures
        final(opened)@.filter_active,
        old(opened)@.filter_active ==> final(opened)@ == old(opened)@,
        !old(opened)@.filter_active ==> final(opened)@.filter_query.len() == 0
            && final(opened)@.dirty,
        !final(closed)@.filter_active && final(closed)@.filter_query.len() == 0,
        old(closed)@.filter_active ==> final(closed)@.dirty,
        final(flipped)@.filter_active <==> !old(flipped)@.filter_active,
        final(flipped)@.filter_query.len() == 0 && final(flipped)@.dirty,
        final(typed)@.filter_query == inner@ && final(typed)@.dirty,
        final(typed)@.filter_active == old(typed)@.filter_active,
        keeps_all_but_the_filter(old(opened)@, final(opened)@),
        keeps_all_but_the_filter(old(closed)@, final(closed)@),
        keeps_all_but_the_filter(old(flipped)@, final(flipped)@),
        keeps_all_but_the_filter(old(typed)@, final(typed)@),
{
}

// ---------------------------------------------------------------------------
// Editors
// ---------------------------------------------------------------------------

/// What an inline editor does not touch is the same.
pub open spec fn keeps_all_but_the_editors(v: FileTreeView, after: FileTreeView) -> bool {
    after == (FileTreeView {
        rename: after.rename,
        create: after.create,
        collapsed: after.collapsed,
        dirty: after.dirty,
        ..v
    })
}

/// The tree has an entry of `kind` at `path`.
pub open spec fn has_entry(v: FileTreeView, path: Seq<char>, kind: EntryKind) -> bool {
    exists|k: int|
        0 <= k < v.model.entries.len() && (#[trigger] v.model.entries[k]).path@ == path
            && v.model.entries[k].kind == kind
}

proof fn lemma_has_entry(v: FileTreeView, path: Seq<char>)
    requires
        v.model.wf(),
    ensures
        v.model.has(path) <==> has_entry(v, path, EntryKind::File) || has_entry(
            v,
            path,
            EntryKind::Dir,
        ),
        v.model.has(path) ==> forall|kind: EntryKind| #[trigger]
            has_entry(v, path, kind) <==> v.model.entry(path).kind == kind,
{
    let items = v.model.entries;
    if v.model.has(path) {
        let i = ordered::key_index(items, path);
        assert(items[i].key() == path);
        ordered::lemma_key_index(items, i);
        assert(items[i].path@ == path);
        assert(v.model.entry(path) == items[i]);
        assert(has_entry(v, path, items[i].kind));
        assert forall|kind: EntryKind| #[trigger] has_entry(v, path, kind) implies kind
            == items[i].kind by {
            let k = choose|k: int|
                0 <= k < items.len() && (#[trigger] items[k]).path@ == path && items[k].kind == kind;
            ordered::lemma_key_index(items, k);
            assert(items[k].key() == path);
        }
    }
    assert forall|kind: EntryKind| #[trigger] has_entry(v, path, kind) implies v.model.has(
        path,
    ) by {
        let k = choose|k: int|
            0 <= k < items.len() && (#[trigger] items[k]).path@ == path && items[k].kind == kind;
        assert(items[k].key() == path);
    }
}

/// Renaming starts for the entry at the cursor, with its own name, and closes
/// the other editor. Where the cursor is on no entry, nothing happens.
pub proof fn law_rename_starts_at_the_cursor(tree: &mut FileTree)
    requires
        old(tree).wf(),
        call_ensures(FileTree::start_rename, (tree,), ()),
    ensures
        ({
            let v = old(tree)@;
            let after = final(tree)@;
            let on_entry = v.selected is Some && (has_entry(v, v.selected->0, EntryKind::File)
                || has_entry(v, v.selected->0, EntryKind::Dir));
            &&& on_entry ==> {
                &&& after.rename is Some
                &&& after.rename->0.path == v.selected->0
                &&& after.rename->0.name == paths::leaf_of(v.selected->0)
                &&& after.rename->0.error is None
                &&& after.create is None
                &&& after.collapsed == v.collapsed
                &&& after.dirty
            }
            &&& !on_entry ==> after == v
            &&& keeps_all_but_the_editors(v, after)
        }),
{
    if let Some(path) = old(tree)@.selected {
        lemma_has_entry(old(tree)@, path);
    }
}

/// Committing a rename closes the editor. It asks to move the edited entry to
/// the typed name beside where it is, and for nothing where the name is blank,
/// has a separator, or is the one that the entry has.
pub proof fn law_committed_rename_moves_the_entry(
    tree: &mut FileTree,
    value: &str,
    inner: &str,
    event: Option<FileTreeEvent>,
)
    requires
        call_ensures(FileTree::commit_rename, (tree, value), event),
        call_ensures(text::trim, (value,), inner),
    ensures
        final(tree)@.rename is None,
        final(tree)@.create == old(tree)@.create,
        final(tree)@.collapsed == old(tree)@.collapsed,
        keeps_all_but_the_editors(old(tree)@, final(tree)@),
        old(tree)@.rename is None ==> event is None && final(tree)@ == old(tree)@,
        old(tree)@.rename is Some ==> {
            let path = old(tree)@.rename->0.path;
            &&& final(tree)@.dirty
            &&& event is None <==> inner@.len() == 0 || inner@.contains('/') || inner@
                == paths::leaf_of(path)
            &&& event matches Some(e) ==> (e matches FileTreeEvent::RenameRequested { from, to }
                && from@ == path && paths::parent_of(to@) == paths::parent_of(path)
                && paths::leaf_of(to@) == inner@ && to@ != path)
        },
{
    if let Some(editor) = old(tree)@.rename {
        if !inner@.contains('/') {
            paths::law_rename_keeps_parent(editor.path, inner@);
            paths::law_rename_to_own_name(editor.path);
        }
    }
}

/// Committing a create closes the editor. It asks for an entry of the edited
/// kind with the typed name in the edited directory, and for nothing where the
/// name is blank or has a separator.
pub proof fn law_committed_create_asks_for_the_entry(
    tree: &mut FileTree,
    value: &str,
    inner: &str,
    event: Option<FileTreeEvent>,
)
    requires
        call_ensures(FileTree::commit_create, (tree, value), event),
        call_ensures(text::trim, (value,), inner),
    ensures
        final(tree)@.create is None,
        final(tree)@.rename == old(tree)@.rename,
        final(tree)@.collapsed == old(tree)@.collapsed,
        keeps_all_but_the_editors(old(tree)@, final(tree)@),
        old(tree)@.create is None ==> event is None && final(tree)@ == old(tree)@,
        old(tree)@.create is Some ==> {
            let editor = old(tree)@.create->0;
            &&& final(tree)@.dirty
            &&& event is None <==> inner@.len() == 0 || inner@.contains('/')
            &&& event matches Some(e) ==> (e matches FileTreeEvent::CreateRequested { path, kind }
                && kind == editor.kind && paths::parent_of(path@) == editor.parent
                && paths::leaf_of(path@) == inner@ && (editor.parent.len() == 0 ==> path@
                == inner@))
        },
{
    if let Some(editor) = old(tree)@.create {
        if !inner@.contains('/') {
            paths::law_join_splits_back(editor.parent, inner@);
        }
    }
}

/// Cancelling closes the editor and leaves the other one; escape closes the
/// rename before the create and both before the filter, and tells whether it
/// closed something.
pub proof fn law_escape_closes_the_innermost(
    renamed: &mut FileTree,
    created: &mut FileTree,
    escaped: &mut FileTree,
    taken: bool,
)
    requires
        old(escaped).wf(),
        call_ensures(FileTree::cancel_rename, (renamed,), ()),
        call_ensures(FileTree::cancel_create, (created,), ()),
        call_ensures(FileTree::escape, (escaped,), taken),
    ensures
        final(renamed)@.rename is None && final(renamed)@.create == old(renamed)@.create
            && final(renamed)@.collapsed == old(renamed)@.collapsed,
        final(created)@.create is None && final(created)@.rename == old(created)@.rename
            && final(created)@.collapsed == old(created)@.collapsed,
        old(renamed)@.rename is Some ==> final(renamed)@.dirty,
        old(created)@.create is Some ==> final(created)@.dirty,
        old(renamed)@.rename is None ==> final(renamed)@ == old(renamed)@,
        old(created)@.create is None ==> final(created)@ == old(created)@,
        keeps_all_but_the_editors(old(renamed)@, final(renamed)@),
        keeps_all_but_the_editors(old(created)@, final(created)@),
        ({
            let v = old(escaped)@;
            let after = final(escaped)@;
            let editing = v.rename is Some || v.create is Some;
            &&& taken <==> editing || v.filter_active
            &&& after.rename is None && after.create is None
            &&& taken ==> after.dirty
            &&& !taken ==> after == v
            &&& editing ==> after.filter_active == v.filter_active && after.filter_query
                == v.filter_query
            &&& !editing ==> !after.filter_active && after.filter_query.len() == 0
            &&& after.model == v.model && after.collapsed == v.collapsed && after.selected
                == v.selected && after.selection == v.selection && after.pending_reveal
                == v.pending_reveal && after.root_collapsed == v.root_collapsed
        }),
{
}

/// A new entry goes into the directory at the cursor, beside a file at the
/// cursor, and into the root otherwise. The editor starts blank, with its
/// directory unfolded; before the first snapshot none opens.
pub proof fn law_create_starts_at_the_cursor(tree: &mut FileTree, kind: EntryKind, dir: String)
    requires
        old(tree).wf(),
        call_ensures(FileTree::create_target_dir, (old(tree),), dir),
        call_ensures(FileTree::start_create, (tree, kind), ()),
    ensures
        ({
            let v = old(tree)@;
            let after = final(tree)@;
            let at = v.selected->0;
            &&& v.selected is Some && has_entry(v, at, EntryKind::Dir) ==> dir@ == at
            &&& v.selected is Some && has_entry(v, at, EntryKind::File) ==> dir@
                == paths::parent_of(at)
            &&& (v.selected is None || (!has_entry(v, at, EntryKind::Dir) && !has_entry(
                v,
                at,
                EntryKind::File,
            ))) ==> dir@.len() == 0
            &&& v.model.root is None ==> after == v
            &&& v.model.root is Some ==> {
                &&& after.create is Some
                &&& after.create->0.parent == dir@
                &&& after.create->0.kind == kind
                &&& after.create->0.name.len() == 0
                &&& after.create->0.error is None
                &&& after.rename is None
                &&& after.dirty
                &&& dir@.len() > 0 ==> forall|other: Seq<char>| #[trigger]
                    after.collapsed.contains(other) <==> v.collapsed.contains(other) && other
                        != dir@
                &&& dir@.len() == 0 ==> after.collapsed == v.collapsed
            }
            &&& keeps_all_but_the_editors(v, after)
        }),
{
    if let Some(path) = old(tree)@.selected {
        lemma_has_entry(old(tree)@, path);
    }
}

/// An editor that is opened holds what it is opened with, and closes the other.
pub proof fn law_editors_hold_what_they_get(
    renamed: &mut FileTree,
    created: &mut FileTree,
    path: String,
    kind: EntryKind,
    name: String,
    error: Option<String>,
)
    requires
        call_ensures(FileTree::open_rename_editor, (renamed, path, name, error), ()),
        call_ensures(FileTree::open_create_editor, (created, path, kind, name, error), ()),
    ensures
        final(renamed)@.rename is Some,
        final(renamed)@.rename->0.path == path@,
        final(renamed)@.rename->0.name == name@,
        match error {
            Some(message) => final(renamed)@.rename->0.error == Some(message@)
                && final(created)@.create->0.error == Some(message@),
            None => final(renamed)@.rename->0.error is None && final(created)@.create->0.error
                is None,
        },
        final(renamed)@.create is None,
        final(renamed)@.collapsed == old(renamed)@.collapsed,
        final(created)@.create is Some,
        final(created)@.create->0.parent == path@,
        final(created)@.create->0.kind == kind,
        final(created)@.create->0.name == name@,
        final(created)@.rename is None,
        forall|dir: Seq<char>| #[trigger]
            final(created)@.collapsed.contains(dir) ==> old(created)@.collapsed.contains(dir) && (
            dir.len() > 0 ==> dir != path@),
        forall|dir: Seq<char>|
            old(created)@.collapsed.contains(dir) && dir != path@
                ==> #[trigger] final(created)@.collapsed.contains(dir),
        final(renamed)@.dirty && final(created)@.dirty,
        keeps_all_but_the_editors(old(renamed)@, final(renamed)@),
        keeps_all_but_the_editors(old(created)@, final(created)@),
{
}

// ---------------------------------------------------------------------------
// Replies
// ---------------------------------------------------------------------------

/// What a refusal is explained with.
pub proof fn law_refusals_are_explained(error: FileOpError, message: &'static str)
    requires
        call_ensures(editing::describe_file_op_error, (error,), message),
    ensures
        error is AlreadyExists ==> message@ == "A file or folder with this name already exists"@,
        error is InvalidPath ==> message@ == "Invalid name"@,
        error is NotFound ==> message@ == "The original file was not found"@,
        error is PermissionDenied ==> message@ == "Permission denied"@,
        error is Io ==> message@ == "Rename failed"@,
{
}

/// An operation that succeeded is waited for at its new path; nothing else
/// changes.
pub proof fn law_success_is_waited_for(
    moved: &mut FileTree,
    file: &mut FileTree,
    dir: &mut FileTree,
    gone: &mut FileTree,
    from: String,
    to: String,
    ok: bool,
    error: Option<FileOpError>,
)
    requires
        call_ensures(
            FileTree::apply_file_op_result,
            (moved, FileOp::Rename { from, to }, true, error),
            (),
        ),
        call_ensures(
            FileTree::apply_file_op_result,
            (file, FileOp::CreateFile { path: to }, true, error),
            (),
        ),
        call_ensures(
            FileTree::apply_file_op_result,
            (dir, FileOp::CreateDir { path: to }, true, error),
            (),
        ),
        call_ensures(
            FileTree::apply_file_op_result,
            (gone, FileOp::Delete { path: to }, ok, error),
            (),
        ),
    ensures
        final(moved)@ == (FileTreeView { pending_reveal: Some(to@), ..old(moved)@ }),
        final(file)@ == (FileTreeView { pending_reveal: Some(to@), ..old(file)@ }),
        final(dir)@ == (FileTreeView { pending_reveal: Some(to@), ..old(dir)@ }),
        final(gone)@ == old(gone)@,
{
}

/// A name that is taken or invalid goes back into its editor, with the reason;
/// any other refusal changes nothing.
pub proof fn law_refused_rename_reopens_its_editor(
    tree: &mut FileTree,
    from: String,
    to: String,
    error: Option<FileOpError>,
    message: &'static str,
)
    requires
        call_ensures(
            FileTree::apply_file_op_result,
            (tree, FileOp::Rename { from, to }, false, error),
            (),
        ),
        error is Some ==> call_ensures(editing::describe_file_op_error, (error->0,), message),
    ensures
        error matches Some(e) && (e is AlreadyExists || e is InvalidPath) ==> {
            &&& final(tree)@.rename is Some
            &&& final(tree)@.rename->0.path == from@
            &&& final(tree)@.rename->0.name == paths::leaf_of(to@)
            &&& final(tree)@.rename->0.error == Some(message@)
            &&& final(tree)@.create is None
            &&& final(tree)@.collapsed == old(tree)@.collapsed
            &&& final(tree)@.dirty
        },
        !(error matches Some(e) && (e is AlreadyExists || e is InvalidPath)) ==> final(tree)@
            == old(tree)@,
        keeps_all_but_the_editors(old(tree)@, final(tree)@),
{
}

/// A create whose name is taken or invalid goes back into its editor, with the
/// kind, the directory and the name that were asked for and with the reason;
/// any other refusal changes nothing.
pub proof fn law_refused_create_reopens_its_editor(
    file: &mut FileTree,
    dir: &mut FileTree,
    path: String,
    error: Option<FileOpError>,
    message: &'static str,
)
    requires
        call_ensures(
            FileTree::apply_file_op_result,
            (file, FileOp::CreateFile { path }, false, error),
            (),
        ),
        call_ensures(
            FileTree::apply_file_op_result,
            (dir, FileOp::CreateDir { path }, false, error),
            (),
        ),
        error is Some ==> call_ensures(editing::describe_file_op_error, (error->0,), message),
    ensures
        error matches Some(e) && (e is AlreadyExists || e is InvalidPath) ==> {
            &&& final(file)@.create is Some && final(dir)@.create is Some
            &&& final(file)@.create->0.kind is File && final(dir)@.create->0.kind is Dir
            &&& final(file)@.create->0.parent == paths::parent_of(path@)
            &&& final(dir)@.create->0.parent == paths::parent_of(path@)
            &&& final(file)@.create->0.name == paths::leaf_of(path@)
            &&& final(dir)@.create->0.name == paths::leaf_of(path@)
            &&& final(file)@.create->0.error == Some(message@)
            &&& final(dir)@.create->0.error == Some(message@)
            &&& final(file)@.rename is None && final(dir)@.rename is None
            &&& final(file)@.dirty && final(dir)@.dirty
        },
        !(error matches Some(e) && (e is AlreadyExists || e is InvalidPath)) ==> final(file)@
            == old(file)@ && final(dir)@ == old(dir)@,
        keeps_all_but_the_editors(old(file)@, final(file)@),
        keeps_all_but_the_editors(old(dir)@, final(dir)@),
{
}

// ---------------------------------------------------------------------------
// Deletes and drops
// ---------------------------------------------------------------------------

/// The question before a delete names the entry and warns of a directory's
/// contents.
pub proof fn law_delete_names_the_entry(
    name: &str,
    for_file: String,
    for_dir: String,
)
    requires
        call_ensures(editing::describe_delete, (name, EntryKind::File), for_file),
        call_ensures(editing::describe_delete, (name, EntryKind::Dir), for_dir),
    ensures
        for_file@ == "Delete \""@ + name@ + "\"? This cannot be undone."@,
        for_dir@ == "Delete \""@ + name@ + "\" and its contents? This cannot be undone."@,
{
}

/// A delete asks about the entry at the cursor and, once confirmed, deletes that
/// one; where the cursor is on no entry, nothing is asked.
pub proof fn law_delete_is_of_the_cursor(
    tree: FileTree,
    prompt: Option<DeletePrompt>,
    event: FileTreeEvent,
    name: &str,
    kind: EntryKind,
    question: String,
)
    requires
        tree.wf(),
        call_ensures(FileTree::confirm_delete, (&tree,), prompt),
        prompt is Some ==> call_ensures(FileTree::delete_confirmed, (prompt->0,), event),
        tree@.selected is Some ==> name@ == paths::leaf_of(tree@.selected->0),
        tree@.selected is Some ==> has_entry(tree@, tree@.selected->0, kind),
        call_ensures(editing::describe_delete, (name, kind), question),
    ensures
        prompt is Some <==> tree@.selected is Some,
        prompt matches Some(asked) ==> {
            &&& tree@.selected == Some(asked.path@)
            &&& asked.message@ == question@
            &&& event matches FileTreeEvent::DeleteRequested { path } && tree@.selected == Some(
                path@,
            )
        },
{
    if let Some(path) = tree@.selected {
        lemma_has_entry(tree@, path);
    }
}

/// Where the cursor is on no entry, there is nothing to delete.
pub proof fn law_nothing_to_delete(tree: FileTree, prompt: Option<DeletePrompt>)
    requires
        tree.wf(),
        call_ensures(FileTree::confirm_delete, (&tree,), prompt),
        tree@.selected matches Some(path) ==> !has_entry(tree@, path, EntryKind::File)
            && !has_entry(tree@, path, EntryKind::Dir),
    ensures
        prompt is None,
{
    if let Some(path) = tree@.selected {
        lemma_has_entry(tree@, path);
    }
}

/// A row can be dropped where its drop asks for a move, which takes the dragged
/// entry, under its own name, into the directory that it is dropped on.
pub proof fn law_drop_moves_the_dragged_row(
    tree: FileTree,
    dragged: DraggedRow,
    target_kind: EntryKind,
    target_path: &str,
    event: Option<FileTreeEvent>,
    taken: bool,
    resolved: Option<(String, String)>,
    path: &str,
)
    requires
        path@ == dragged.path@,
        call_ensures(FileTree::handle_drop, (&tree, &dragged, target_kind, target_path), event),
        call_ensures(FileTree::can_drop, (&dragged, target_kind, target_path), taken),
        call_ensures(
            paths::resolve_drop,
            (path, dragged.kind, target_kind, target_path),
            resolved,
        ),
    ensures
        taken <==> event is Some,
        taken <==> resolved is Some,
        event matches Some(e) ==> (e matches FileTreeEvent::RenameRequested { from, to } && from@
            == dragged.path@ && to@ == (resolved->0).1@ && paths::leaf_of(to@) == paths::leaf_of(
            dragged.path@,
        )),
{
    paths::law_drop_moves_elsewhere(dragged.path@, dragged.kind, target_kind, target_path@);
}

// ---------------------------------------------------------------------------
// Revealing
// ---------------------------------------------------------------------------

/// What a reveal of `path` does: the cursor goes there, every directory above is
/// unfolded, no other is touched, and the view scrolls to the row.
pub open spec fn shows_path(
    v: FileTreeView,
    after: FileTreeView,
    path: Seq<char>,
    row: Option<usize>,
) -> bool {
    &&& after.selected == Some(path)
    &&& forall|dir: Seq<char>| #[trigger]
        after.collapsed.contains(dir) <==> v.collapsed.contains(dir) && !paths::under(dir, path)
    &&& scrolls_to_cursor(after, row)
    &&& !after.dirty
    &&& after.selection == v.selection
    &&& keeps_the_rest(v, after)
}

/// A path of the tree is revealed; any other is passed over.
pub proof fn law_reveal_shows_the_path(
    tree: &mut FileTree,
    path: &str,
    row: Option<usize>,
)
    requires
        old(tree).wf(),
        call_ensures(FileTree::reveal_path, (tree, path), row),
    ensures
        ({
            let known = has_entry(old(tree)@, path@, EntryKind::File) || has_entry(
                old(tree)@,
                path@,
                EntryKind::Dir,
            );
            &&& known ==> shows_path(old(tree)@, final(tree)@, path@, row)
            &&& !known ==> final(tree)@ == old(tree)@ && row is None
        }),
{
    lemma_has_entry(old(tree)@, path@);
    lemma_position(final(tree)@.rows, path@);
}

/// "Reveal in tree" reveals the path at the cursor.
pub proof fn law_reveal_of_the_cursor(tree: &mut FileTree, row: Option<usize>)
    requires
        old(tree).wf(),
        call_ensures(FileTree::reveal_selected, (tree,), row),
    ensures
        match old(tree)@.selected {
            Some(path) => {
                let known = has_entry(old(tree)@, path, EntryKind::File) || has_entry(
                    old(tree)@,
                    path,
                    EntryKind::Dir,
                );
                &&& known ==> shows_path(old(tree)@, final(tree)@, path, row)
                &&& !known ==> final(tree)@ == old(tree)@ && row is None
            },
            None => final(tree)@ == old(tree)@ && row is None,
        },
{
    if let Some(path) = old(tree)@.selected {
        lemma_has_entry(old(tree)@, path);
        lemma_position(final(tree)@.rows, path);
    }
}

/// The awaited path is revealed once, when it arrives; until it does, nothing
/// happens.
pub proof fn law_awaited_path_is_revealed_when_it_arrives(
    tree: &mut FileTree,
    added: &Vec<String>,
    row: Option<usize>,
)
    requires
        old(tree).wf(),
        call_ensures(FileTree::apply_pending_reveal, (tree, added), row),
    ensures
        ({
            let v = old(tree)@;
            let after = final(tree)@;
            let arrived = v.pending_reveal is Some && exists|k: int|
                0 <= k < added@.len() && (#[trigger] added@[k])@ == v.pending_reveal->0;
            let known = has_entry(v, v.pending_reveal->0, EntryKind::File) || has_entry(
                v,
                v.pending_reveal->0,
                EntryKind::Dir,
            );
            &&& arrived ==> after.pending_reveal is None
            &&& arrived && known ==> shows_path(
                (FileTreeView { pending_reveal: None, ..v }),
                after,
                v.pending_reveal->0,
                row,
            )
            &&& arrived && !known ==> row is None && after == (FileTreeView {
                pending_reveal: None,
                ..v
            })
            &&& !arrived ==> after == v && row is None
        }),
{
    let v = old(tree)@;
    if let Some(path) = v.pending_reveal {
        let cleared = FileTreeView { pending_reveal: None, ..v };
        lemma_has_entry(v, path);
        lemma_position(final(tree)@.rows, path);
        assert(cleared.model.has(path) == v.model.has(path));
        if exists|k: int| 0 <= k < added@.len() && (#[trigger] added@[k])@ == path {
            let k = choose|k: int| 0 <= k < added@.len() && (#[trigger] added@[k])@ == path;
            assert(added@[k]@ == path);
            assert(revealing::lists_path(added@, path));
            if v.model.has(path) {
                assert(revealing::revealed(
                    cleared,
                    path,
                    final(tree)@,
                    selection::index_view(row),
                ));
                assert(shows_path(cleared, final(tree)@, path, row));
            } else {
                assert(final(tree)@ == cleared);
            }
        }
    }
}

/// What is copied is the path at the cursor, as it is or below the root.
pub proof fn law_copied_paths(
    tree: FileTree,
    absolute: Option<String>,
    relative: Option<String>,
    root: &str,
    path: &str,
    own: String,
)
    requires
        call_ensures(FileTree::absolute_selected, (&tree,), absolute),
        call_ensures(FileTree::relative_selected, (&tree,), relative),
        tree@.model.root is Some ==> tree@.model.root == Some(root@),
        tree@.selected is Some ==> tree@.selected == Some(path@),
        call_ensures(paths::absolute_path, (root, path), own),
    ensures
        relative is Some <==> tree@.selected is Some,
        relative matches Some(copied) ==> tree@.selected == Some(copied@),
        absolute is Some <==> tree@.selected is Some && tree@.model.root is Some,
        absolute matches Some(copied) ==> copied@ == own@,
{
}

/// A terminal opens in the directory of the entry at the cursor, and only where
/// there is an entry and a root.
pub proof fn law_terminal_opens_at_the_cursor(
    tree: FileTree,
    event: Option<FileTreeEvent>,
    root: &str,
    path: &str,
    kind: EntryKind,
    own: String,
)
    requires
        tree.wf(),
        call_ensures(FileTree::reveal_in_terminal, (&tree,), event),
        tree@.model.root is Some ==> tree@.model.root == Some(root@),
        tree@.selected is Some ==> tree@.selected == Some(path@),
        has_entry(tree@, path@, EntryKind::File) || has_entry(tree@, path@, EntryKind::Dir)
            ==> has_entry(tree@, path@, kind),
        call_ensures(paths::reveal_in_terminal_dir, (root, kind, path), own),
    ensures
        event is Some <==> tree@.selected is Some && tree@.model.root is Some && has_entry(
            tree@,
            path@,
            kind,
        ),
        event matches Some(e) ==> (e matches FileTreeEvent::RevealInTerminalRequested { dir }
            && dir@ == own@),
{
    lemma_has_entry(tree@, path@);
}

// ---------------------------------------------------------------------------
// Painting
// ---------------------------------------------------------------------------

/// The colours: what is wrong is red, what needs care yellow, what is new green.
pub proof fn law_tones(
    severity: DiagnosticSeverity,
    of_severity: Tone,
    status: GitRollupStatus,
    of_git: Tone,
)
    requires
        call_ensures(presentation::tone_of_severity, (severity,), of_severity),
        call_ensures(presentation::tone_of_git, (status,), of_git),
    ensures
        of_severity is Danger <==> severity is Error,
        of_severity is Warning <==> severity is Warning,
        of_severity is Info <==> severity is Information,
        of_severity is Muted <==> severity is Hint,
        of_git is Danger <==> status is Conflicted,
        of_git is Warning <==> status is Changed,
        of_git is Success <==> status is Untracked,
{
}

/// Each level indents by 16 pixels behind the first 8, and a guide stands at the
/// indent of each level above.
pub proof fn law_levels_are_indented(
    depth: usize,
    indent: u64,
    guides: Vec<u64>,
    level: usize,
    outer: u64,
)
    requires
        call_ensures(FileTree::row_indent, (depth,), indent),
        call_ensures(FileTree::indent_guide_positions, (depth,), guides),
        call_ensures(FileTree::row_indent, (level,), outer),
    ensures
        indent == 8 + 16 * depth,
        guides@.len() == depth,
        level < depth ==> guides@[level as int] == outer,
{
}

/// A row is painted at its depth, with the icon of its kind, the fill of the
/// cursor or the selection, and its own name.
pub proof fn law_row_is_painted_as_it_is(
    tree: FileTree,
    index: usize,
    painted: RowPresentation,
)
    requires
        index < tree@.rows.len(),
        call_ensures(FileTree::present_row, (&tree, index), painted),
    ensures
        ({
            let v = tree@;
            let row = v.rows[index as int];
            let renaming = v.rename is Some && v.rename->0.path == row.path;
            let creating = !renaming && v.create is Some && row.is_pending_create;
            &&& painted.indent == 8 + 16 * row.depth
            &&& painted.guides@.len() == row.depth
            &&& forall|i: int|
                0 <= i < row.depth ==> #[trigger] painted.guides@[i] == 8 + 16 * i
            &&& painted.icon is File <==> row.kind == EntryKind::File
            &&& painted.icon is FolderClosed <==> row.kind == EntryKind::Dir
                && v.collapsed.contains(row.path)
            &&& painted.body is Renaming <==> renaming
            &&& painted.body is Creating <==> creating
            &&& painted.body matches RowBody::Renaming { error } ==> text::opt_view(error)
                == v.rename->0.error
            &&& painted.body matches RowBody::Creating { error } ==> text::opt_view(error)
                == v.create->0.error
            &&& painted.body matches RowBody::Named { name, spans } ==> {
                &&& name@ == paths::leaf_of(row.path)
                &&& emphasis::spelled(emphasis::spans_view(spans@)) == name@
                &&& emphasis::marks(emphasis::spans_view(spans@)) == Seq::new(
                    name@.len(),
                    |i: int| row.matched_indices.contains(i as usize),
                )
            }
            &&& (renaming || creating) ==> painted.fill is Plain && !painted.dimmed && painted.dot
                is None && painted.letter is None && painted.name_tone is None
            &&& !(renaming || creating) ==> {
                &&& painted.dimmed <==> row.ignored
                &&& painted.fill is Cursor <==> v.selected == Some(row.path)
                &&& painted.fill is Selected <==> v.selected != Some(row.path)
                    && v.selection.contains(row.path)
            }
        }),
{
    let row = tree@.rows[index as int];
    emphasis::law_spans_spell_name(paths::leaf_of(row.path), row.matched_indices);
}

/// The git lane tints the name; its letter and the severity dot show unless the
/// row is an unfolded directory, whose rows show theirs.
pub proof fn law_row_is_decorated(
    tree: FileTree,
    index: usize,
    painted: RowPresentation,
    severity: DiagnosticSeverity,
    of_severity: Tone,
    status: GitRollupStatus,
    of_git: Tone,
)
    requires
        index < tree@.rows.len(),
        call_ensures(FileTree::present_row, (&tree, index), painted),
        painted.body is Named,
        call_ensures(presentation::tone_of_severity, (severity,), of_severity),
        call_ensures(presentation::tone_of_git, (status,), of_git),
    ensures
        ({
            let row = tree@.rows[index as int];
            let unfolded = row.kind == EntryKind::Dir && !tree@.collapsed.contains(row.path);
            &&& row.git_status == Some(status) ==> painted.name_tone == Some(of_git)
            &&& row.git_status is None ==> painted.name_tone is None && painted.letter is None
            &&& row.severity is None ==> painted.dot is None
            &&& unfolded ==> painted.letter is None && painted.dot is None
            &&& !unfolded ==> painted.letter == row.git_status
            &&& !unfolded && row.severity == Some(severity) ==> painted.dot == Some(of_severity)
        }),
{
}

/// The body of the panel says what is missing: a snapshot, an entry, or a match
/// of the filter.
pub proof fn law_content_says_what_is_missing(
    tree: &mut FileTree,
    content: TreeContent,
    message: Option<&'static str>,
    state: Option<EmptyState>,
)
    requires
        call_ensures(FileTree::empty_state, (old(tree),), state),
        call_ensures(FileTree::content, (tree,), content),
        call_ensures(TreeContent::placeholder, (content,), message),
    ensures
        content is Loading <==> old(tree)@.model.root is None,
        content is EmptyRoot <==> old(tree)@.model.root is Some && old(tree)@.model.entries.len()
            == 0,
        content is NoMatches <==> old(tree)@.model.root is Some && old(tree)@.model.entries.len()
            > 0 && old(tree)@.filter_active && old(tree)@.filter_query.len() > 0
            && final(tree)@.rows.len() == 0,
        state == Some(EmptyState::Loading) <==> content is Loading,
        state == Some(EmptyState::EmptyRoot) <==> content is EmptyRoot,
        content is Loading ==> message is Some && message->0@ == "Loading\u{2026}"@,
        content is EmptyRoot ==> message is Some && message->0@ == "Empty folder"@,
        content is NoMatches ==> message is Some && message->0@ == "No matches"@,
        content is Rows ==> message is None,
        !final(tree)@.dirty,
        keeps_the_rest(old(tree)@, final(tree)@),
        final(tree)@.selected == old(tree)@.selected,
        final(tree)@.selection == old(tree)@.selection,
        final(tree)@.collapsed == old(tree)@.collapsed,
{
}

/// The root row is labelled with the uppercased name of the root, once there is
/// one.
pub proof fn law_root_is_labelled(
    tree: FileTree,
    label: Option<String>,
    root: &str,
    leaf: &str,
)
    requires
        call_ensures(FileTree::root_label, (&tree,), label),
        tree@.model.root is Some ==> tree@.model.root == Some(root@),
        call_ensures(FileTree::root_leaf, (root,), leaf),
    ensures
        label is Some <==> tree@.model.root is Some,
        label matches Some(shown) ==> shown@ == text::uppercase(leaf@),
{
}

/// The label of a menu entry says what its action does.
pub proof fn law_menu_does_what_it_says(menu: Vec<MenuEntry>, i: int)
    requires
        call_ensures(presentation::row_menu, (), menu),
        0 <= i < menu@.len(),
    ensures
        menu@.len() == 11,
        menu@[i] is Separator <==> i == 6,
        menu@[i] matches MenuEntry::Item { label, action } ==> {
            &&& action is OpenSelected ==> label@ == "Open"@
            &&& action is RevealInTree ==> label@ == "Reveal in tree"@
            &&& action is CopyAbsolutePath ==> label@ == "Copy path"@
            &&& action is CopyRelativePath ==> label@ == "Copy relative path"@
            &&& action is RevealInTerminal ==> label@ == "Reveal in terminal"@
            &&& action is CollapseAll ==> label@ == "Collapse all"@
            &&& action is NewFile ==> label@ == "New File..."@
            &&& action is NewFolder ==> label@ == "New Folder..."@
            &&& action is StartRename ==> label@ == "Rename"@
            &&& action is DeleteSelected ==> label@ == "Delete"@
            &&& i < 6 ==> !(action is NewFile || action is NewFolder || action is StartRename
                || action is DeleteSelected)
            &&& i > 6 ==> action is NewFile || action is NewFolder || action is StartRename
                || action is DeleteSelected
        },
{
    assert(i == 0 || i == 1 || i == 2 || i == 3 || i == 4 || i == 5 || i == 6 || i == 7 || i == 8
        || i == 9 || i == 10);
}

// ---------------------------------------------------------------------------
// Actions
// ---------------------------------------------------------------------------

/// An action that moves the cursor moves it as its key does and asks for no more
/// than a scroll.
pub proof fn law_actions_move_the_cursor(tree: &mut FileTree, action: TreeAction, out: TreeOutcome)
    requires
        call_ensures(FileTree::perform, (tree, action), out),
        action is SelectUp || action is SelectDown || action is SelectFirst || action is SelectLast,
    ensures
        match final(tree)@.selected {
            Some(path) => {
                let list = final(tree)@.rows;
                &&& list.len() > 0
                &&& action is SelectUp ==> is_step(list, old(tree)@.selected, path, -1)
                &&& action is SelectDown ==> is_step(list, old(tree)@.selected, path, 1)
                &&& action is SelectFirst ==> path == list[0].path
                &&& action is SelectLast ==> path == list.last().path
            },
            None => final(tree)@.rows.len() == 0,
        },
        scrolls_to_cursor(final(tree)@, out.scroll),
        out.events@.len() == 0 && out.clipboard is None && out.prompt is None,
        keeps_the_rest(old(tree)@, final(tree)@),
        final(tree)@.selection == old(tree)@.selection,
        final(tree)@.collapsed == old(tree)@.collapsed,
{
    if final(tree)@.rows.len() > 0 {
        lemma_steps(final(tree)@.rows, old(tree)@.selected);
    }
    lemma_scroll(final(tree)@, out.scroll);
}

/// An action that extends the selection extends it by the row above or below.
pub proof fn law_actions_extend_the_selection(
    tree: &mut FileTree,
    action: TreeAction,
    out: TreeOutcome,
)
    requires
        call_ensures(FileTree::perform, (tree, action), out),
        action is ExtendSelectionUp || action is ExtendSelectionDown,
    ensures
        action is ExtendSelectionUp ==> extends_by(old(tree)@, final(tree)@, -1),
        action is ExtendSelectionDown ==> extends_by(old(tree)@, final(tree)@, 1),
        scrolls_to_cursor(final(tree)@, out.scroll),
        out.events@.len() == 0 && out.clipboard is None && out.prompt is None,
{
    if final(tree)@.rows.len() > 0 {
        lemma_steps(final(tree)@.rows, old(tree)@.selected);
    }
    lemma_scroll(final(tree)@, out.scroll);
}

/// The actions of left, right and enter do as their keys do, and ask for nothing
/// beside.
pub proof fn law_actions_fold_and_open(
    left: &mut FileTree,
    right: &mut FileTree,
    enter: &mut FileTree,
    left_out: TreeOutcome,
    right_out: TreeOutcome,
    enter_out: TreeOutcome,
)
    requires
        !old(left)@.dirty,
        !old(right)@.dirty,
        !old(enter)@.dirty,
        call_ensures(FileTree::perform, (left, TreeAction::CollapseOrSelectParent), left_out),
        call_ensures(FileTree::perform, (right, TreeAction::ExpandOrSelectChild), right_out),
        call_ensures(FileTree::perform, (enter, TreeAction::OpenSelected), enter_out),
    ensures
        goes_nowhere(old(left)@, final(left)@, left_out.scroll),
        forall|at: int|
            old(left)@.selected is Some && #[trigger] first_row_of(
                old(left)@.rows,
                old(left)@.selected->0,
                at,
            ) ==> folds_or_goes_out(old(left)@, final(left)@, left_out.scroll, at),
        goes_nowhere(old(right)@, final(right)@, right_out.scroll),
        forall|at: int|
            old(right)@.selected is Some && #[trigger] first_row_of(
                old(right)@.rows,
                old(right)@.selected->0,
                at,
            ) ==> unfolds_or_goes_in(old(right)@, final(right)@, right_out.scroll, at),
        opens_what_is_selected(old(enter)@, final(enter)@, enter_out.events@),
        left_out.events@.len() == 0 && right_out.events@.len() == 0,
        left_out.clipboard is None && right_out.clipboard is None && enter_out.clipboard is None,
        left_out.prompt is None && right_out.prompt is None && enter_out.prompt is None,
        enter_out.scroll is None,
{
    lemma_stepped_left(old(left)@, final(left)@, left_out.scroll);
    lemma_stepped_right(old(right)@, final(right)@, right_out.scroll);
    lemma_opened(old(enter)@, final(enter)@, enter_out.events@);
}

/// The actions that only tell something change nothing: the copies fill the
/// clipboard, the terminal is an event, and the delete is a question.
pub proof fn law_telling_actions(
    tree: &mut FileTree,
    action: TreeAction,
    out: TreeOutcome,
    absolute: Option<String>,
    relative: Option<String>,
    terminal: Option<FileTreeEvent>,
    prompt: Option<DeletePrompt>,
)
    requires
        old(tree).wf(),
        call_ensures(FileTree::absolute_selected, (old(tree),), absolute),
        call_ensures(FileTree::relative_selected, (old(tree),), relative),
        call_ensures(FileTree::reveal_in_terminal, (old(tree),), terminal),
        call_ensures(FileTree::confirm_delete, (old(tree),), prompt),
        call_ensures(FileTree::perform, (tree, action), out),
        action is CopyAbsolutePath || action is CopyRelativePath || action is RevealInTerminal
            || action is DeleteSelected,
    ensures
        final(tree)@ == old(tree)@,
        out.scroll is None,
        action is CopyAbsolutePath ==> text::opt_view(out.clipboard) == text::opt_view(absolute),
        action is CopyRelativePath ==> text::opt_view(out.clipboard) == text::opt_view(relative),
        !(action is CopyAbsolutePath || action is CopyRelativePath) ==> out.clipboard is None,
        action is RevealInTerminal ==> match terminal {
            Some(FileTreeEvent::RevealInTerminalRequested { dir }) => out.events@.len() == 1 && (
            out.events@[0] matches FileTreeEvent::RevealInTerminalRequested { dir: asked } && asked@
                == dir@),
            _ => out.events@.len() == 0,
        },
        !(action is RevealInTerminal) ==> out.events@.len() == 0,
        action is DeleteSelected ==> match prompt {
            Some(p) => (out.prompt matches Some(q) && q.path@ == p.path@ && q.message@
                == p.message@),
            None => out.prompt is None,
        },
        !(action is DeleteSelected) ==> out.prompt is None,
{
}

/// The actions that edit or fold do as their methods do, and ask for nothing.
pub proof fn law_editing_actions(
    tree: &mut FileTree,
    action: TreeAction,
    out: TreeOutcome,
    dir: String,
)
    requires
        old(tree).wf(),
        call_ensures(FileTree::create_target_dir, (old(tree),), dir),
        call_ensures(FileTree::perform, (tree, action), out),
        action is CollapseAll || action is StartRename || action is NewFile || action is NewFolder,
    ensures
        out.events@.len() == 0 && out.clipboard is None && out.prompt is None && out.scroll is None,
        action is CollapseAll ==> keeps_the_rest(old(tree)@, final(tree)@) && forall|
            path: Seq<char>,
        | #[trigger]
            final(tree)@.collapsed.contains(path) <==> old(tree)@.collapsed.contains(path)
                || has_dir(old(tree)@, path),
        ({
            let v = old(tree)@;
            let after = final(tree)@;
            let on_entry = v.selected is Some && (has_entry(v, v.selected->0, EntryKind::File)
                || has_entry(v, v.selected->0, EntryKind::Dir));
            let making = (action is NewFile || action is NewFolder) && v.model.root is Some;
            &&& after.selected == v.selected && after.selection == v.selection && after.model
                == v.model && after.filter_active == v.filter_active && after.filter_query
                == v.filter_query && after.root_collapsed == v.root_collapsed
                && after.pending_reveal == v.pending_reveal
            &&& action is StartRename && on_entry ==> after.create is None && after.collapsed
                == v.collapsed && (after.rename matches Some(editor) && editor.path
                == v.selected->0 && editor.name == paths::leaf_of(editor.path) && editor.error
                is None)
            &&& action is StartRename && !on_entry ==> after == v
            &&& making ==> after.rename is None && (after.create matches Some(editor)
                && editor.parent == dir@ && editor.name.len() == 0 && editor.error is None && (
            editor.kind is File <==> action is NewFile)) && forall|path: Seq<char>| #[trigger]
                after.collapsed.contains(path) <==> v.collapsed.contains(path) && (path != dir@
                    || dir@.len() == 0)
            &&& (action is NewFile || action is NewFolder) && v.model.root is None ==> after == v
        }),
{
    let v = old(tree)@;
    assert forall|path: Seq<char>| action is CollapseAll implies (
    #[trigger] final(tree)@.collapsed.contains(path) <==> v.collapsed.contains(path) || has_dir(
        v,
        path,
    )) by {
        collapse::lemma_dirs_among(v.model.entries, v.model.entries.len(), path);
    }
    if let Some(path) = v.selected {
        lemma_has_entry(v, path);
    }
}

/// "Reveal in tree" reveals the path at the cursor and asks for no more than a
/// scroll.
pub proof fn law_reveal_action(tree: &mut FileTree, out: TreeOutcome)
    requires
        old(tree).wf(),
        call_ensures(FileTree::perform, (tree, TreeAction::RevealInTree), out),
    ensures
        match old(tree)@.selected {
            Some(path) => {
                let known = has_entry(old(tree)@, path, EntryKind::File) || has_entry(
                    old(tree)@,
                    path,
                    EntryKind::Dir,
                );
                &&& known ==> shows_path(old(tree)@, final(tree)@, path, out.scroll)
                &&& !known ==> final(tree)@ == old(tree)@ && out.scroll is None
            },
            None => final(tree)@ == old(tree)@ && out.scroll is None,
        },
        out.events@.len() == 0 && out.clipboard is None && out.prompt is None,
{
    if let Some(path) = old(tree)@.selected {
        lemma_has_entry(old(tree)@, path);
        lemma_position(final(tree)@.rows, path);
    }
}

// ---------------------------------------------------------------------------
// The tree as a whole
// ---------------------------------------------------------------------------

/// An unfolded tree with a filter shows the files that the filter matches and
/// the directories that lead to one of them, in path order, whatever is folded.
pub proof fn law_filtered_tree_shows_the_matches(
    tree: FileTree,
    list: Vec<Row>,
    query: &str,
    k: int,
    path: &str,
    hit: Option<FuzzyMatch>,
    d: int,
)
    requires
        tree.wf(),
        call_ensures(FileTree::visible_rows, (&tree,), list),
        !tree@.root_collapsed,
        tree@.filter_query.len() > 0,
        query@ == tree@.filter_query,
        0 <= k < tree@.model.entries.len(),
        tree@.model.entries[k].kind == EntryKind::File,
        path@ == tree@.model.entries[k].path@,
        call_ensures(fuzzy_match::fuzzy_match, (query, path), hit),
        0 <= d < tree@.model.entries.len(),
        tree@.model.entries[d].kind == EntryKind::Dir,
    ensures
        rows::rows_ascend(rows::rows_view(list@)),
        rows::has_row(rows::rows_view(list@), path@) <==> hit is Some,
        hit is Some && (tree@.model.entries[d].path@ + seq!['/']).is_prefix_of(path@)
            ==> rows::has_row(rows::rows_view(list@), tree@.model.entries[d].path@),
        rows::has_row(rows::rows_view(list@), tree@.model.entries[d].path@) ==> exists|f: int|
            0 <= f < tree@.model.entries.len() && (#[trigger] tree@.model.entries[f]).kind
                == EntryKind::File && rows::has_row(
                rows::rows_view(list@),
                tree@.model.entries[f].path@,
            ) && (tree@.model.entries[d].path@ + seq!['/']).is_prefix_of(
                tree@.model.entries[f].path@,
            ),
{
    rows::lemma_filtered_list(
        query@,
        tree@.model,
        rows::rows_view(list@),
        k,
        fuzzy_match::match_view(hit),
        d,
    );
}

/// A stale cache is rebuilt from what is visible, with the row of an open create
/// editor put in; a clean one stays. Nothing else changes. This speaks of trees
/// without a filter, whose rows are settled to the last mark.
pub proof fn law_refresh_rebuilds_the_rows(
    tree: &mut FileTree,
    list: Vec<Row>,
    put: &mut Vec<Row>,
    create: super::CreateEditor,
)
    requires
        call_ensures(FileTree::visible_rows, (old(tree),), list),
        call_ensures(FileTree::refresh_row_cache, (tree,), ()),
        rows::rows_view(old(put)@) == rows::rows_view(list@),
        call_ensures(super::insert_create_row, (put, &create), ()),
        old(tree)@.create is Some ==> old(tree)@.create == Some(create@),
        old(tree)@.filter_query.len() == 0,
    ensures
        !final(tree)@.dirty,
        !old(tree)@.dirty ==> final(tree)@ == old(tree)@,
        old(tree)@.dirty && old(tree)@.create is None ==> final(tree)@.rows == rows::rows_view(
            list@,
        ),
        old(tree)@.dirty && old(tree)@.create is Some ==> final(tree)@.rows == rows::rows_view(
            final(put)@,
        ),
        keeps_the_rest(old(tree)@, final(tree)@),
        final(tree)@.selected == old(tree)@.selected,
        final(tree)@.selection == old(tree)@.selection,
        final(tree)@.collapsed == old(tree)@.collapsed,
{
    let v = old(tree)@;
    let base = rows::rows_view(list@);
    if v.dirty {
        let other = choose|other: Seq<RowView>|
            super::shows(v, other) && final(tree)@.rows == #[trigger] super::with_pending(
                other,
                v.create,
            );
        assert(fuzzy_match::blank(v.filter_query));
        super::law_shown_rows_unique(v, base, other);
    }
}

/// A fresh tree has nothing: no root, no entries, no cursor, no selection, no
/// editor and no filter, and its rows are still to be built.
pub proof fn law_fresh_tree_is_empty(tree: FileTree)
    requires
        call_ensures(FileTree::new, (), tree),
    ensures
        tree@.model.root is None && tree@.model.entries.len() == 0 && tree@.model.git.len() == 0
            && tree@.model.diagnostics.len() == 0,
        forall|path: Seq<char>| !#[trigger] tree@.collapsed.contains(path),
        forall|path: Seq<char>| !#[trigger] tree@.selection.contains(path),
        tree@.selected is None && tree@.rename is None && tree@.create is None
            && tree@.pending_reveal is None,
        !tree@.filter_active && tree@.filter_query.len() == 0 && !tree@.root_collapsed,
        tree@.dirty,
{
}

/// What the tree is asked, it answers from its state.
pub proof fn law_tree_tells_its_state(
    tree: FileTree,
    path: &str,
    selected: Option<&str>,
    collapsed: bool,
    member: bool,
    dirty: bool,
    pending: Option<&str>,
    active: bool,
    query: &str,
    folded: bool,
    list: &Vec<Row>,
)
    requires
        call_ensures(FileTree::selected, (&tree,), selected),
        call_ensures(FileTree::is_collapsed, (&tree, path), collapsed),
        call_ensures(FileTree::is_in_selection, (&tree, path), member),
        call_ensures(FileTree::is_dirty, (&tree,), dirty),
        call_ensures(FileTree::pending_reveal, (&tree,), pending),
        call_ensures(FileTree::filter_active, (&tree,), active),
        call_ensures(FileTree::filter_query, (&tree,), query),
        call_ensures(FileTree::root_collapsed, (&tree,), folded),
        call_ensures(FileTree::rows, (&tree,), list),
    ensures
        match selected {
            Some(at) => tree@.selected == Some(at@),
            None => tree@.selected is None,
        },
        collapsed <==> tree@.collapsed.contains(path@),
        member <==> tree@.selection.contains(path@),
        dirty <==> tree@.dirty,
        match pending {
            Some(at) => tree@.pending_reveal == Some(at@),
            None => tree@.pending_reveal is None,
        },
        active <==> tree@.filter_active,
        query@ == tree@.filter_query,
        folded <==> tree@.root_collapsed,
        list@.len() == tree@.rows.len(),
        forall|i: int| 0 <= i < list@.len() ==> (#[trigger] list@[i])@ == tree@.rows[i],
{
    assert(rows::rows_view(list@).len() == list@.len());
    assert forall|i: int| 0 <= i < list@.len() implies (#[trigger] list@[i])@ == tree@.rows[i] by {
        assert(rows::rows_view(list@)[i] == list@[i]@);
    }
}

/// The open editors are told as they are.
pub proof fn law_tree_tells_its_editors(
    tree: FileTree,
    rename: Option<&super::RenameEditor>,
    create: Option<&super::CreateEditor>,
    model: &WorktreeModel,
)
    requires
        call_ensures(FileTree::rename_editor, (&tree,), rename),
        call_ensures(FileTree::create_editor, (&tree,), create),
        call_ensures(FileTree::model, (&tree,), model),
    ensures
        match rename {
            Some(editor) => tree@.rename is Some && (tree@.rename->0).path == editor.path@ && (
            tree@.rename->0).name == editor.name@ && (tree@.rename->0).error == text::opt_view(
                editor.error,
            ),
            None => tree@.rename is None,
        },
        match create {
            Some(editor) => tree@.create is Some && (tree@.create->0).parent == editor.parent@ && (
            tree@.create->0).kind == editor.kind && (tree@.create->0).name == editor.name@ && (
            tree@.create->0).error == text::opt_view(editor.error),
            None => tree@.create is None,
        },
        model@ == tree@.model,
{
}

/// The reply to a create is that of its kind, whichever way it is taken.
pub proof fn law_create_replies_agree(
    whole: &mut FileTree,
    part: &mut FileTree,
    again: &mut FileTree,
    kind: EntryKind,
    path: String,
    text: &str,
    ok: bool,
    error: Option<FileOpError>,
)
    requires
        old(whole)@ == old(part)@,
        old(again)@ == old(part)@,
        text@ == path@,
        kind is File ==> call_ensures(
            FileTree::apply_file_op_result,
            (whole, FileOp::CreateFile { path }, ok, error),
            (),
        ),
        kind is Dir ==> call_ensures(
            FileTree::apply_file_op_result,
            (whole, FileOp::CreateDir { path }, ok, error),
            (),
        ),
        call_ensures(FileTree::apply_create_result, (part, kind, path, ok, error), ()),
        error is Some ==> call_ensures(
            FileTree::reopen_create_editor,
            (again, kind, text, error->0),
            (),
        ),
    ensures
        final(whole)@ == final(part)@,
        !ok && (error matches Some(e) && (e is AlreadyExists || e is InvalidPath)) ==> final(again)@ == final(part)@,
{
}

/// A row's name is the end of its path, and a row is decorated unless it is an
/// unfolded directory.
pub proof fn law_rows_are_named_and_decorated(
    tree: FileTree,
    row: &Row,
    shown: bool,
    path: &str,
    name: &str,
    leaf: &str,
)
    requires
        call_ensures(FileTree::row_shows_decoration, (&tree, row), shown),
        call_ensures(FileTree::display_name, (path,), name),
        call_ensures(paths::leaf_name, (path,), leaf),
    ensures
        shown <==> row.kind is File || tree@.collapsed.contains(row.path@),
        name@ == leaf@,
{
}

/// The tree shows the plain rows of its worktree without a filter and the
/// filtered ones with it: they agree in everything but, where the matcher leaves
/// it open, the marks.
pub proof fn law_tree_shows_the_rows_of_its_worktree(
    tree: FileTree,
    list: Vec<Row>,
    model: WorktreeModel,
    folded: KeyedVec<String>,
    plain: Vec<Row>,
    query: &str,
    filtered: Vec<Row>,
)
    requires
        tree.wf(),
        call_ensures(FileTree::visible_rows, (&tree,), list),
        model@ == tree@.model,
        folded.keys() == tree@.collapsed,
        query@ == tree@.filter_query,
        call_ensures(rows::visible_rows_unfiltered, (&model, &folded), plain),
        call_ensures(rows::visible_rows_filtered, (&model, query), filtered),
        !tree@.root_collapsed,
    ensures
        query@.len() == 0 ==> rows::rows_view(list@) == rows::rows_view(plain@),
        query@.len() > 0 ==> rows::unmarked(rows::rows_view(list@)) == rows::unmarked(
            rows::rows_view(filtered@),
        ),
{
    if query@.len() > 0 {
        super::law_shown_rows_alike(
            tree@,
            rows::rows_view(list@),
            rows::rows_view(filtered@),
        );
    }
}

/// A refresh under a filter shows what the filter finds, but for the marks.
pub proof fn law_refresh_follows_the_filter(tree: &mut FileTree, list: Vec<Row>)
    requires
        old(tree)@.dirty,
        old(tree)@.create is None,
        call_ensures(FileTree::visible_rows, (old(tree),), list),
        call_ensures(FileTree::refresh_row_cache, (tree,), ()),
    ensures
        rows::unmarked(final(tree)@.rows) == rows::unmarked(rows::rows_view(list@)),
{
    let v = old(tree)@;
    let other = choose|other: Seq<RowView>|
        super::shows(v, other) && final(tree)@.rows == #[trigger] super::with_pending(
            other,
            v.create,
        );
    super::law_shown_rows_alike(v, other, rows::rows_view(list@));
}

/// Rows that agree but for their marks show the same entries in the same way.
pub proof fn law_unmarked_rows_agree(a: Seq<RowView>, b: Seq<RowView>, i: int)
    requires
        rows::unmarked(a) == rows::unmarked(b),
        0 <= i < a.len(),
    ensures
        a.len() == b.len(),
        a[i].path == b[i].path,
        a[i].kind == b[i].kind,
        a[i].depth == b[i].depth,
        a[i].ignored == b[i].ignored,
        a[i].git_status == b[i].git_status,
        a[i].severity == b[i].severity,
        a[i].is_pending_create == b[i].is_pending_create,
{
    assert(rows::unmarked(a).len() == a.len() && rows::unmarked(b).len() == b.len());
    assert(rows::unmarked(a)[i] == rows::unmarked(b)[i]);
}

/// What is done to the lent worktree is done to the tree's, and makes the rows
/// stale; nothing else changes.
pub proof fn law_worktree_is_lent(tree: &mut FileTree, model: &mut WorktreeModel)
    requires
        call_ensures(FileTree::model_mut, (tree,), model),
    ensures
        old(model)@ == old(tree)@.model,
        final(tree)@.model == final(model)@,
        final(tree)@.dirty,
        final(tree)@.selected == old(tree)@.selected,
        final(tree)@.selection == old(tree)@.selection,
        final(tree)@.collapsed == old(tree)@.collapsed,
        final(tree)@.pending_reveal == old(tree)@.pending_reveal,
        final(tree)@.filter_query == old(tree)@.filter_query,
{
}

// ---------------------------------------------------------------------------
// Stale rows
// ---------------------------------------------------------------------------

/// The state that a refresh leaves is `fresh`.
pub open spec fn is_refreshed(v: FileTreeView, fresh: FileTreeView) -> bool {
    &&& fresh == super::with_rows(v, fresh.rows)
    &&& super::refreshed(v, fresh.rows)
}

proof fn lemma_refreshed_alike(v: FileTreeView, a: Seq<RowView>, b: Seq<RowView>)
    requires
        v.filter_query.len() == 0,
        super::refreshed(v, a),
        super::refreshed(v, b),
    ensures
        a == b,
{
    if v.dirty {
        assert(fuzzy_match::blank(v.filter_query));
        super::law_fresh_rows_unique(v, a, b);
    }
}

/// Keys look at the rows as they are now, however stale the cache is: each of
/// them sees the rows that a refresh would leave. This speaks of trees without a
/// filter, whose rows are settled to the last mark.
pub proof fn law_keys_see_the_current_rows(
    fresh: &mut FileTree,
    up: &mut FileTree,
    down: &mut FileTree,
    home: &mut FileTree,
    end: &mut FileTree,
    more: &mut FileTree,
    less: &mut FileTree,
    ranged: &mut FileTree,
    path: &str,
    up_row: Option<usize>,
    down_row: Option<usize>,
    home_row: Option<usize>,
    end_row: Option<usize>,
    more_row: Option<usize>,
    less_row: Option<usize>,
)
    requires
        old(fresh)@.filter_query.len() == 0,
        old(up)@ == old(fresh)@ && old(down)@ == old(fresh)@ && old(home)@ == old(fresh)@
            && old(end)@ == old(fresh)@ && old(more)@ == old(fresh)@ && old(less)@ == old(fresh)@
            && old(ranged)@ == old(fresh)@,
        call_ensures(FileTree::refresh_row_cache, (fresh,), ()),
        call_ensures(FileTree::select_up, (up,), up_row),
        call_ensures(FileTree::select_down, (down,), down_row),
        call_ensures(FileTree::select_first, (home,), home_row),
        call_ensures(FileTree::select_last, (end,), end_row),
        call_ensures(FileTree::extend_selection_down, (more,), more_row),
        call_ensures(FileTree::extend_selection_up, (less,), less_row),
        call_ensures(FileTree::range_select, (ranged, path), ()),
    ensures
        final(up)@.rows == final(fresh)@.rows,
        final(down)@.rows == final(fresh)@.rows,
        final(home)@.rows == final(fresh)@.rows,
        final(end)@.rows == final(fresh)@.rows,
        final(more)@.rows == final(fresh)@.rows,
        final(less)@.rows == final(fresh)@.rows,
        final(ranged)@.rows == final(fresh)@.rows,
{
    let v = old(fresh)@;
    lemma_refreshed_alike(v, final(up)@.rows, final(fresh)@.rows);
    lemma_refreshed_alike(v, final(down)@.rows, final(fresh)@.rows);
    lemma_refreshed_alike(v, final(home)@.rows, final(fresh)@.rows);
    lemma_refreshed_alike(v, final(end)@.rows, final(fresh)@.rows);
    lemma_refreshed_alike(v, final(more)@.rows, final(fresh)@.rows);
    lemma_refreshed_alike(v, final(less)@.rows, final(fresh)@.rows);
    lemma_refreshed_alike(v, final(ranged)@.rows, final(fresh)@.rows);
}

/// Left, right and enter do on a stale tree what they do on the refreshed one.
/// This speaks of trees without a filter.
pub proof fn law_stale_trees_are_refreshed_first(
    fresh: &mut FileTree,
    left: &mut FileTree,
    right: &mut FileTree,
    enter: &mut FileTree,
    left_row: Option<usize>,
    right_row: Option<usize>,
    events: Vec<FileTreeEvent>,
)
    requires
        old(fresh)@.filter_query.len() == 0,
        old(left)@ == old(fresh)@ && old(right)@ == old(fresh)@ && old(enter)@ == old(fresh)@,
        call_ensures(FileTree::refresh_row_cache, (fresh,), ()),
        call_ensures(FileTree::collapse_or_select_parent, (left,), left_row),
        call_ensures(FileTree::expand_or_select_child, (right,), right_row),
        call_ensures(FileTree::open_selected, (enter,), events),
    ensures
        ({
            let v = final(fresh)@;
            &&& goes_nowhere(v, final(left)@, left_row)
            &&& goes_nowhere(v, final(right)@, right_row)
            &&& forall|at: int|
                v.selected is Some && #[trigger] first_row_of(v.rows, v.selected->0, at)
                    ==> folds_or_goes_out(v, final(left)@, left_row, at) && unfolds_or_goes_in(
                    v,
                    final(right)@,
                    right_row,
                    at,
                )
            &&& opens_what_is_selected(v, final(enter)@, events@)
        }),
{
    lemma_stale_left(old(fresh)@, final(fresh)@, final(left)@, left_row);
    lemma_stale_right(old(fresh)@, final(fresh)@, final(right)@, right_row);
    lemma_stale_enter(old(fresh)@, final(fresh)@, final(enter)@, events@);
}

proof fn lemma_stale_left(
    v: FileTreeView,
    fresh: FileTreeView,
    after: FileTreeView,
    row: Option<usize>,
)
    requires
        v.filter_query.len() == 0,
        is_refreshed(v, fresh),
        exists|list: Seq<RowView>| #[trigger]
            super::refreshed(v, list) && selection::stepped_left(
                super::with_rows(v, list),
                after,
                selection::index_view(row),
            ),
    ensures
        goes_nowhere(fresh, after, row),
        forall|at: int|
            fresh.selected is Some && #[trigger] first_row_of(fresh.rows, fresh.selected->0, at)
                ==> folds_or_goes_out(fresh, after, row, at),
{
    let list = choose|list: Seq<RowView>| #[trigger]
        super::refreshed(v, list) && selection::stepped_left(
            super::with_rows(v, list),
            after,
            selection::index_view(row),
        );
    lemma_refreshed_alike(v, list, fresh.rows);
    assert(super::refreshed(fresh, fresh.rows));
    assert(super::with_rows(fresh, fresh.rows) == fresh);
    lemma_stepped_left(fresh, after, row);
}

proof fn lemma_stale_right(
    v: FileTreeView,
    fresh: FileTreeView,
    after: FileTreeView,
    row: Option<usize>,
)
    requires
        v.filter_query.len() == 0,
        is_refreshed(v, fresh),
        exists|list: Seq<RowView>| #[trigger]
            super::refreshed(v, list) && selection::stepped_right(
                super::with_rows(v, list),
                after,
                selection::index_view(row),
            ),
    ensures
        goes_nowhere(fresh, after, row),
        forall|at: int|
            fresh.selected is Some && #[trigger] first_row_of(fresh.rows, fresh.selected->0, at)
                ==> unfolds_or_goes_in(fresh, after, row, at),
{
    let list = choose|list: Seq<RowView>| #[trigger]
        super::refreshed(v, list) && selection::stepped_right(
            super::with_rows(v, list),
            after,
            selection::index_view(row),
        );
    lemma_refreshed_alike(v, list, fresh.rows);
    assert(super::refreshed(fresh, fresh.rows));
    assert(super::with_rows(fresh, fresh.rows) == fresh);
    lemma_stepped_right(fresh, after, row);
}

proof fn lemma_stale_enter(
    v: FileTreeView,
    fresh: FileTreeView,
    after: FileTreeView,
    events: Seq<FileTreeEvent>,
)
    requires
        v.filter_query.len() == 0,
        is_refreshed(v, fresh),
        exists|list: Seq<RowView>| #[trigger]
            super::refreshed(v, list) && selection::opened(
                super::with_rows(v, list),
                after,
                events,
            ),
    ensures
        opens_what_is_selected(fresh, after, events),
{
    let list = choose|list: Seq<RowView>| #[trigger]
        super::refreshed(v, list) && selection::opened(super::with_rows(v, list), after, events);
    lemma_refreshed_alike(v, list, fresh.rows);
    assert(super::refreshed(fresh, fresh.rows));
    assert(super::with_rows(fresh, fresh.rows) == fresh);
    lemma_opened(fresh, after, events);
}

/// A reveal leaves current rows: those that a refresh of the revealed state
/// leaves. This speaks of trees without a filter.
pub proof fn law_reveal_leaves_current_rows(
    tree: &mut FileTree,
    path: &str,
    row: Option<usize>,
    list: Vec<Row>,
)
    requires
        old(tree).wf(),
        old(tree)@.model.has(path@),
        old(tree)@.filter_query.len() == 0,
        old(tree)@.create is None,
        call_ensures(FileTree::reveal_path, (tree, path), row),
        call_ensures(FileTree::visible_rows, (final(tree),), list),
    ensures
        final(tree)@.rows == rows::rows_view(list@),
{
    let v = final(tree)@;
    assert(fuzzy_match::blank(v.filter_query));
    assert(super::fresh_rows(v, v.rows));
    let base = choose|base: Seq<RowView>|
        super::shows(v, base) && v.rows == #[trigger] super::with_pending(base, v.create);
    super::law_shown_rows_unique(v, base, rows::rows_view(list@));
}

} // verus!
