//! Moving the cursor over a list of rows.

use vstd::prelude::*;

use crate::protocol::EntryKind;
use crate::rows;
use crate::rows::{Row, RowView};
use crate::text;

verus! {

/// The first of the first `n` rows whose path is `path`.
pub open spec fn position_among(rows: Seq<RowView>, path: Seq<char>, n: nat) -> Option<nat>
    decreases n,
{
    if n == 0 {
        None
    } else {
        match position_among(rows, path, (n - 1) as nat) {
            Some(i) => Some(i),
            None => if rows[n - 1].path == path {
                Some((n - 1) as nat)
            } else {
                None
            },
        }
    }
}

/// The position of the row of `path`, or `None` where it is not visible.
pub open spec fn position_of(rows: Seq<RowView>, path: Seq<char>) -> Option<nat> {
    position_among(rows, path, rows.len())
}

/// The position of the row of an optional path.
pub open spec fn position_of_opt(rows: Seq<RowView>, path: Option<Seq<char>>) -> Option<nat> {
    match path {
        Some(p) => position_of(rows, p),
        None => None,
    }
}

/// A position found holds the path, and no earlier row does.
pub proof fn lemma_position_among(rows: Seq<RowView>, path: Seq<char>, n: nat)
    requires
        n <= rows.len(),
    ensures
        match position_among(rows, path, n) {
            Some(i) => i < n && rows[i as int].path == path && forall|k: int|
                0 <= k < i ==> (#[trigger] rows[k]).path != path,
            None => forall|k: int| 0 <= k < n ==> (#[trigger] rows[k]).path != path,
        },
    decreases n,
{
    if n > 0 {
        lemma_position_among(rows, path, (n - 1) as nat);
    }
}

/// The index of `path` within `rows`.
pub fn row_index(rows: &Vec<Row>, path: &str) -> (at: Option<usize>)
    ensures
        match (at, position_of(rows::rows_view(rows@), path@)) {
            (Some(i), Some(k)) => i == k && i < rows@.len() && rows@[i as int].path@ == path@,
            (None, None) => true,
            _ => false,
        },
{
    let ghost views = rows::rows_view(rows@);
    let mut found: Option<usize> = None;
    let mut i: usize = 0;
    while i < rows.len()
        invariant
            i <= rows.len(),
            views == rows::rows_view(rows@),
            match (found, position_among(views, path@, i as nat)) {
                (Some(f), Some(k)) => f == k && f < i && rows@[f as int].path@ == path@,
                (None, None) => true,
                _ => false,
            },
        decreases rows.len() - i,
    {
        assert(views[i as int] == rows@[i as int]@);
        if found.is_none() && text::same_text(rows[i].path.as_str(), path) {
            found = Some(i);
        }
        i = i + 1;
    }
    found
}

/// The nearest of the first `n` rows that is shallower than `depth`.
pub open spec fn nearest_above(rows: Seq<RowView>, depth: nat, n: nat) -> Option<nat>
    decreases n,
{
    if n == 0 {
        None
    } else if rows[n - 1].depth < depth {
        Some((n - 1) as nat)
    } else {
        nearest_above(rows, depth, (n - 1) as nat)
    }
}

/// The row that the row at `index` is nested in.
pub open spec fn parent_row(rows: Seq<RowView>, index: int) -> Option<nat> {
    nearest_above(rows, rows[index].depth, index as nat)
}

/// The path of the closest row above `index` that is shallower; none at the
/// top level.
pub fn parent_path(rows: &Vec<Row>, index: usize) -> (parent: Option<&str>)
    requires
        index < rows@.len(),
    ensures
        match (parent, parent_row(rows::rows_view(rows@), index as int)) {
            (Some(p), Some(k)) => k < index && p@ == rows@[k as int].path@,
            (None, None) => true,
            _ => false,
        },
{
    let ghost views = rows::rows_view(rows@);
    let depth: usize = rows[index].depth;
    assert(views[index as int] == rows@[index as int]@);
    let mut n: usize = index;
    while n > 0
        invariant
            n <= index < rows@.len(),
            views == rows::rows_view(rows@),
            depth == views[index as int].depth,
            nearest_above(views, depth as nat, index as nat) == nearest_above(
                views,
                depth as nat,
                n as nat,
            ),
        decreases n,
    {
        assert(views[n - 1] == rows@[n - 1]@);
        if rows[n - 1].depth < depth {
            return Some(rows[n - 1].path.as_str());
        }
        n = n - 1;
    }
    None
}

/// The row right behind `index` is its first child: `index` is a directory and
/// the next row is one level deeper.
pub open spec fn has_child_row(rows: Seq<RowView>, index: int) -> bool {
    &&& rows[index].kind == EntryKind::Dir
    &&& index + 1 < rows.len()
    &&& rows[index + 1].depth == rows[index].depth + 1
}

/// The path of the first child row of an expanded, non-empty directory.
pub fn first_child_path(rows: &Vec<Row>, index: usize) -> (child: Option<&str>)
    requires
        index < rows@.len(),
    ensures
        child is Some <==> has_child_row(rows::rows_view(rows@), index as int),
        child matches Some(c) ==> c@ == rows@[index + 1].path@,
{
    let ghost views = rows::rows_view(rows@);
    assert(views[index as int] == rows@[index as int]@);
    if rows[index].kind != EntryKind::Dir {
        return None;
    }
    if rows.len() - index <= 1 {
        return None;
    }
    assert(views[index + 1] == rows@[index + 1]@);
    if rows[index + 1].depth > rows[index].depth && rows[index + 1].depth - rows[index].depth
        == 1 {
        Some(rows[index + 1].path.as_str())
    } else {
        None
    }
}

/// The position after one step down: the next row, staying on the last; the
/// first row where nothing visible was selected.
pub open spec fn step_down(rows: Seq<RowView>, selected: Option<Seq<char>>) -> int {
    match position_of_opt(rows, selected) {
        Some(i) => if i + 1 < rows.len() {
            i as int + 1
        } else {
            rows.len() - 1
        },
        None => 0,
    }
}

/// The position after one step up: the previous row, staying on the first; the
/// first row where nothing visible was selected.
pub open spec fn step_up(rows: Seq<RowView>, selected: Option<Seq<char>>) -> int {
    match position_of_opt(rows, selected) {
        Some(i) => if i > 0 {
            i - 1
        } else {
            0
        },
        None => 0,
    }
}

/// The path at `at`; nothing where there are no rows.
pub open spec fn path_at(rows: Seq<RowView>, at: int) -> Option<Seq<char>> {
    if rows.len() == 0 {
        None
    } else {
        Some(rows[at].path)
    }
}

/// The view of an optional slice.
pub open spec fn opt_str(text: Option<&str>) -> Option<Seq<char>> {
    match text {
        Some(t) => Some(t@),
        None => None,
    }
}

fn find_opt(rows: &Vec<Row>, selected: Option<&str>) -> (at: Option<usize>)
    ensures
        match (at, position_of_opt(rows::rows_view(rows@), opt_str(selected))) {
            (Some(i), Some(k)) => i == k && i < rows@.len(),
            (None, None) => true,
            _ => false,
        },
{
    match selected {
        Some(path) => row_index(rows, path),
        None => None,
    }
}

/// The path selected after moving down one row.
pub fn selection_after_down(rows: &Vec<Row>, selected: Option<&str>) -> (next: Option<String>)
    ensures
        text::opt_view(next) == path_at(
            rows::rows_view(rows@),
            step_down(rows::rows_view(rows@), opt_str(selected)),
        ),
{
    if rows.len() == 0 {
        return None;
    }
    let next: usize = match find_opt(rows, selected) {
        Some(i) => if i + 1 < rows.len() {
            i + 1
        } else {
            rows.len() - 1
        },
        None => 0,
    };
    assert(rows::rows_view(rows@)[next as int] == rows@[next as int]@);
    Some(rows[next].path.clone())
}

/// The path selected after moving up one row.
pub fn selection_after_up(rows: &Vec<Row>, selected: Option<&str>) -> (next: Option<String>)
    ensures
        text::opt_view(next) == path_at(
            rows::rows_view(rows@),
            step_up(rows::rows_view(rows@), opt_str(selected)),
        ),
{
    if rows.len() == 0 {
        return None;
    }
    let next: usize = match find_opt(rows, selected) {
        Some(i) => if i > 0 {
            i - 1
        } else {
            0
        },
        None => 0,
    };
    assert(rows::rows_view(rows@)[next as int] == rows@[next as int]@);
    Some(rows[next].path.clone())
}

// ---------------------------------------------------------------------------
// Laws
// ---------------------------------------------------------------------------

/// A path is found at the first row that has it, and not found exactly where no
/// row does.
pub proof fn law_row_index_is_the_first(list: Vec<Row>, path: &str, at: Option<usize>)
    requires
        call_ensures(row_index, (&list, path), at),
    ensures
        match at {
            Some(i) => {
                &&& i < list@.len()
                &&& list@[i as int].path@ == path@
                &&& forall|k: int| 0 <= k < i ==> (#[trigger] list@[k]).path@ != path@
            },
            None => forall|k: int| 0 <= k < list@.len() ==> (#[trigger] list@[k]).path@ != path@,
        },
{
    let views = rows::rows_view(list@);
    lemma_position_among(views, path@, views.len());
    assert forall|k: int| 0 <= k < list@.len() implies views[k].path == (
    #[trigger] list@[k]).path@ by {}
}

pub proof fn lemma_nearest_above(list: Seq<RowView>, depth: nat, n: nat)
    requires
        n <= list.len(),
    ensures
        match nearest_above(list, depth, n) {
            Some(k) => k < n && list[k as int].depth < depth && forall|j: int|
                k < j < n ==> (#[trigger] list[j]).depth >= depth,
            None => forall|j: int| 0 <= j < n ==> (#[trigger] list[j]).depth >= depth,
        },
    decreases n,
{
    if n > 0 {
        lemma_nearest_above(list, depth, (n - 1) as nat);
    }
}

/// The parent of a row is the closest row above it that is less deep; there is
/// none exactly where no row above it is less deep.
pub proof fn law_parent_is_the_closest_shallower(
    list: Vec<Row>,
    index: usize,
    parent: Option<&str>,
)
    requires
        index < list@.len(),
        call_ensures(parent_path, (&list, index), parent),
    ensures
        match parent {
            Some(path) => exists|k: int|
                0 <= k < index && (#[trigger] list@[k]).path@ == path@ && list@[k].depth
                    < list@[index as int].depth && (forall|j: int|
                    k < j < index ==> (#[trigger] list@[j]).depth >= list@[index as int].depth),
            None => forall|j: int|
                0 <= j < index ==> (#[trigger] list@[j]).depth >= list@[index as int].depth,
        },
{
    let views = rows::rows_view(list@);
    lemma_nearest_above(views, views[index as int].depth, index as nat);
    assert forall|k: int| 0 <= k < list@.len() implies views[k].depth == (
    #[trigger] list@[k]).depth by {}
    if let Some(path) = parent {
        let k = parent_row(views, index as int)->0 as int;
        assert(list@[k].path@ == path@);
    }
}

/// A directory's first child is the next row, where that is one level deeper; a
/// file and a folded or empty directory have none.
pub proof fn law_first_child_is_the_next_row(
    list: Vec<Row>,
    index: usize,
    child: Option<&str>,
)
    requires
        index < list@.len(),
        call_ensures(first_child_path, (&list, index), child),
    ensures
        child is Some <==> list@[index as int].kind == EntryKind::Dir && index + 1 < list@.len()
            && list@[index + 1].depth == list@[index as int].depth + 1,
        child matches Some(path) ==> path@ == list@[index + 1].path@,
{
    let views = rows::rows_view(list@);
    assert(views[index as int] == list@[index as int]@);
    if index + 1 < list@.len() {
        assert(views[index + 1] == list@[index + 1]@);
    }
}

/// One step down goes to the next row and one step up to the previous one. At
/// the ends the cursor stays, and from nowhere it goes to the first row.
pub proof fn law_steps_go_to_the_neighbour(
    list: Vec<Row>,
    selected: Option<&str>,
    at: usize,
    down: Option<String>,
    up: Option<String>,
)
    requires
        call_ensures(selection_after_down, (&list, selected), down),
        call_ensures(selection_after_up, (&list, selected), up),
        at < list@.len(),
        forall|k: int| 0 <= k < at ==> (#[trigger] list@[k]).path@ != list@[at as int].path@,
    ensures
        selected matches Some(path) && path@ == list@[at as int].path@ ==> {
            &&& at + 1 < list@.len() ==> (down matches Some(next) && next@ == list@[at + 1].path@)
            &&& at + 1 == list@.len() ==> (down matches Some(next) && next@
                == list@[at as int].path@)
            &&& at > 0 ==> (up matches Some(next) && next@ == list@[at - 1].path@)
            &&& at == 0 ==> (up matches Some(next) && next@ == list@[0].path@)
        },
        selected is None ==> (down matches Some(next) && next@ == list@[0].path@),
        selected is None ==> (up matches Some(next) && next@ == list@[0].path@),
{
    let views = rows::rows_view(list@);
    assert forall|k: int| 0 <= k < list@.len() implies views[k].path == (
    #[trigger] list@[k]).path@ by {}
    if let Some(path) = selected {
        lemma_position_among(views, path@, views.len());
        if path@ == list@[at as int].path@ {
            let i = position_of(views, path@)->0;
            assert(views[at as int].path == path@);
            assert(list@[i as int].path@ == path@);
            assert(i == at);
        }
    }
}

/// A path that is not visible counts as none, and without rows there is nowhere
/// to go.
pub proof fn law_steps_from_nowhere(
    list: Vec<Row>,
    selected: Option<&str>,
    down: Option<String>,
    up: Option<String>,
)
    requires
        call_ensures(selection_after_down, (&list, selected), down),
        call_ensures(selection_after_up, (&list, selected), up),
    ensures
        list@.len() == 0 ==> down is None && up is None,
        list@.len() > 0 && (selected matches Some(path) ==> forall|k: int|
            0 <= k < list@.len() ==> (#[trigger] list@[k]).path@ != path@) ==> (down matches Some(
            next,
        ) && next@ == list@[0].path@),
        list@.len() > 0 && (selected matches Some(path) ==> forall|k: int|
            0 <= k < list@.len() ==> (#[trigger] list@[k]).path@ != path@) ==> (up matches Some(
            next,
        ) && next@ == list@[0].path@),
{
    let views = rows::rows_view(list@);
    assert forall|k: int| 0 <= k < list@.len() implies views[k].path == (
    #[trigger] list@[k]).path@ by {}
    if let Some(path) = selected {
        lemma_position_among(views, path@, views.len());
        if let Some(i) = position_of(views, path@) {
            assert(list@[i as int].path@ == path@);
        }
    }
}

} // verus!
