//! The explorer's visible rows: how they derive from the worktree, and how the
//! cursor moves over them.

use vstd::prelude::*;

use crate::fuzzy_match;
use crate::fuzzy_match::{FuzzyMatch, MatchView};
use crate::ordered;
use crate::ordered::{Keyed, KeyedVec};
use crate::paths;
use crate::protocol::{DiagnosticSeverity, EntryKind, WorktreeEntry};
use crate::rollup;
use crate::rollup::{GitRollupStatus, Rollup};
use crate::text;
use crate::worktree::{WorktreeModel, WorktreeView};

verus! {

// ---------------------------------------------------------------------------
// Rows
// ---------------------------------------------------------------------------

/// One row of the explorer.
#[derive(Debug, PartialEq, Eq)]
pub struct Row {
    pub path: String,
    pub kind: EntryKind,
    /// Nesting depth, zero at the top level.
    pub depth: usize,
    pub ignored: bool,
    /// `None` where everything the row stands for is clean.
    pub git_status: Option<GitRollupStatus>,
    /// `None` where nothing the row stands for has a diagnostic.
    pub severity: Option<DiagnosticSeverity>,
    /// The row of the open create editor, which is no entry yet.
    pub is_pending_create: bool,
    /// The positions of the shown name that the filter matched.
    pub matched_indices: Vec<usize>,
}

/// What a [`Row`] holds.
#[verifier::ext_equal]
pub struct RowView {
    pub path: Seq<char>,
    pub kind: EntryKind,
    pub depth: nat,
    pub ignored: bool,
    pub git_status: Option<GitRollupStatus>,
    pub severity: Option<DiagnosticSeverity>,
    pub is_pending_create: bool,
    pub matched_indices: Seq<usize>,
}

impl View for Row {
    type V = RowView;

    open spec fn view(&self) -> RowView {
        RowView {
            path: self.path@,
            kind: self.kind,
            depth: self.depth as nat,
            ignored: self.ignored,
            git_status: self.git_status,
            severity: self.severity,
            is_pending_create: self.is_pending_create,
            matched_indices: self.matched_indices@,
        }
    }
}

/// The views of a sequence of rows.
pub open spec fn rows_view(rows: Seq<Row>) -> Seq<RowView> {
    rows.map_values(|row: Row| row@)
}

proof fn lemma_rows_push(rows: Seq<Row>, row: Row)
    ensures
        rows_view(rows.push(row)) == rows_view(rows).push(row@),
{
    assert(rows_view(rows.push(row)) =~= rows_view(rows).push(row@));
}

/// The row of an entry, with the matched positions of its name.
pub open spec fn entry_row(
    model: WorktreeView,
    entry: WorktreeEntry,
    matched: Seq<usize>,
) -> RowView {
    let decoration = rollup::decoration(model, entry);
    RowView {
        path: entry.path@,
        kind: entry.kind,
        depth: paths::slash_count(entry.path@),
        ignored: entry.ignored,
        git_status: decoration.git_status,
        severity: decoration.severity,
        is_pending_create: false,
        matched_indices: matched,
    }
}

fn build_row(entry: &WorktreeEntry, decoration: Rollup, matched_indices: Vec<usize>) -> (row: Row)
    ensures
        row@ == (RowView {
            path: entry.path@,
            kind: entry.kind,
            depth: paths::slash_count(entry.path@),
            ignored: entry.ignored,
            git_status: decoration.git_status,
            severity: decoration.severity,
            is_pending_create: false,
            matched_indices: matched_indices@,
        }),
{
    Row {
        path: entry.path.clone(),
        kind: entry.kind,
        depth: paths::path_depth(entry.path.as_str()),
        ignored: entry.ignored,
        git_status: decoration.git_status,
        severity: decoration.severity,
        is_pending_create: false,
        matched_indices,
    }
}

// ---------------------------------------------------------------------------
// The plain list
// ---------------------------------------------------------------------------

/// `path` lies below a collapsed directory of the tree.
pub open spec fn hidden(model: WorktreeView, collapsed: Set<Seq<char>>, path: Seq<char>) -> bool {
    exists|k: int| #[trigger] hides(model, collapsed, k, path)
}

/// Entry `k` is a collapsed directory above `path`.
pub open spec fn hides(
    model: WorktreeView,
    collapsed: Set<Seq<char>>,
    k: int,
    path: Seq<char>,
) -> bool {
    &&& 0 <= k < model.entries.len()
    &&& model.entries[k].kind == EntryKind::Dir
    &&& collapsed.contains(model.entries[k].path@)
    &&& paths::under(model.entries[k].path@, path)
}

/// The rows of the first `n` entries that no collapsed directory hides, in
/// path order.
pub open spec fn plain_rows(
    model: WorktreeView,
    collapsed: Set<Seq<char>>,
    n: nat,
) -> Seq<RowView>
    decreases n,
{
    if n == 0 {
        Seq::empty()
    } else {
        let rest = plain_rows(model, collapsed, (n - 1) as nat);
        let entry = model.entries[n - 1];
        if hidden(model, collapsed, entry.path@) {
            rest
        } else {
            rest.push(entry_row(model, entry, Seq::empty()))
        }
    }
}

/// Builds the rows that no collapsed directory hides, in path order.
pub fn visible_rows_unfiltered(
    model: &WorktreeModel,
    collapsed: &KeyedVec<String>,
) -> (rows: Vec<Row>)
    requires
        model.wf(),
        collapsed.wf(),
    ensures
        rows_view(rows@) == plain_rows(model@, collapsed.keys(), model@.entries.len()),
{
    let ghost m = model@;
    let ghost closed = collapsed.keys();
    let decorations = rollup::compute_rollup(model);
    let entries = model.entries();
    let mut rows: Vec<Row> = Vec::new();
    let mut stack: Vec<usize> = Vec::new();
    let mut i: usize = 0;
    proof {
        assert(rows_view(rows@) =~= Seq::<RowView>::empty());
    }
    while i < entries.len()
        invariant
            m == model@,
            model.wf(),
            collapsed.wf(),
            closed == collapsed.keys(),
            entries.seq() == m.entries,
            i <= m.entries.len(),
            decorations@.len() == m.entries.len(),
            forall|j: int|
                0 <= j < decorations@.len() ==> #[trigger] decorations@[j] == rollup::decoration(
                    m,
                    m.entries[j],
                ),
            rollup::open_dirs(m.entries, stack@, i as int),
            rows_view(rows@) == plain_rows(m, closed, i as nat),
        decreases m.entries.len() - i,
    {
        rollup::close_dirs(entries, &mut stack, i);
        let entry = entries.at(i);
        let concealed = any_hides(entries, collapsed, &stack, i, Ghost(m));
        if !concealed {
            let row = build_row(entry, decorations[i], Vec::new());
            proof {
                assert(decorations@[i as int] == rollup::decoration(m, m.entries[i as int]));
                assert(row@ =~= entry_row(m, m.entries[i as int], Seq::empty()));
                lemma_rows_push(rows@, row);
            }
            rows.push(row);
        }
        let ghost before = stack@;
        if entry.kind == EntryKind::Dir {
            stack.push(i);
        }
        proof {
            assert forall|j: int, k: int|
                0 <= j < i + 1 <= k < m.entries.len() && m.entries[j].kind == EntryKind::Dir
                    && #[trigger] paths::under(
                    m.entries[j].path@,
                    m.entries[k].path@,
                ) implies stack@.contains(j as usize) by {
                if j == i {
                    assert(stack@[before.len() as int] == i);
                } else {
                    assert(before.contains(j as usize));
                    let s = choose|s: int| 0 <= s < before.len() && before[s] == j as usize;
                    assert(stack@[s] == j as usize);
                }
            }
        }
        i = i + 1;
    }
    rows
}

/// Whether a collapsed directory hides entry `i`. Only open directories can.
fn any_hides(
    entries: &KeyedVec<WorktreeEntry>,
    collapsed: &KeyedVec<String>,
    stack: &Vec<usize>,
    i: usize,
    Ghost(m): Ghost<WorktreeView>,
) -> (concealed: bool)
    requires
        m.wf(),
        entries.seq() == m.entries,
        collapsed.wf(),
        i < m.entries.len(),
        rollup::open_dirs(m.entries, stack@, i as int),
    ensures
        concealed == hidden(m, collapsed.keys(), m.entries[i as int].path@),
{
    let ghost closed = collapsed.keys();
    let ghost path = m.entries[i as int].path@;
    let mut s: usize = 0;
    while s < stack.len()
        invariant
            m.wf(),
            entries.seq() == m.entries,
            collapsed.wf(),
            closed == collapsed.keys(),
            i < m.entries.len(),
            path == m.entries[i as int].path@,
            s <= stack.len(),
            rollup::open_dirs(m.entries, stack@, i as int),
            forall|t: int| 0 <= t < s ==> !hides(m, closed, #[trigger] stack@[t] as int, path),
        decreases stack.len() - s,
    {
        let dir: usize = stack[s];
        assert(stack@[s as int] < i);
        let above = entries.at(dir).path.as_str();
        if collapsed.contains(above) && paths::is_under(above, entries.at(i).path.as_str()) {
            assert(hides(m, closed, dir as int, path));
            return true;
        }
        s = s + 1;
    }
    proof {
        if hidden(m, closed, path) {
            let k = choose|k: int| #[trigger] hides(m, closed, k, path);
            paths::lemma_under_sorts_after(m.entries[k].path@, path);
            assert(m.entries[k].key() == m.entries[k].path@);
            assert(m.entries[i as int].key() == path);
            if k > i {
                assert(text::text_lt(path, m.entries[k].path@));
                text::lemma_text_lt_asymmetric(path, m.entries[k].path@);
            }
            if k == i {
                text::lemma_text_lt_irreflexive(path);
            }
            assert(stack@.contains(k as usize));
            let t = choose|t: int| 0 <= t < stack@.len() && stack@[t] == k as usize;
            assert(!hides(m, closed, stack@[t] as int, path));
        }
    }
    false
}

// ---------------------------------------------------------------------------
// The filtered list
// ---------------------------------------------------------------------------

/// The indices at or behind `start`, counted from `start`.
pub open spec fn rebased(indices: Seq<usize>, start: int) -> Seq<usize>
    decreases indices.len(),
{
    if indices.len() == 0 {
        Seq::empty()
    } else {
        let rest = rebased(indices.drop_last(), start);
        if indices.last() >= start {
            rest.push((indices.last() - start) as usize)
        } else {
            rest
        }
    }
}

/// Rebases positions in a whole path onto its leaf name. A position before the
/// leaf belongs to a segment that another row shows, and is dropped.
pub fn leaf_matched_indices(path: &str, matched_indices: &[usize]) -> (indices: Vec<usize>)
    ensures
        indices@ == rebased(matched_indices@, paths::last_slash(path@) + 1),
{
    let total: usize = path.unicode_len();
    let leaf: usize = paths::leaf_name(path).unicode_len();
    proof {
        paths::lemma_last_slash(path@);
    }
    let start: usize = total - leaf;
    assert(start == paths::last_slash(path@) + 1);
    let mut indices: Vec<usize> = Vec::new();
    let mut i: usize = 0;
    while i < matched_indices.len()
        invariant
            i <= matched_indices@.len(),
            indices@ == rebased(matched_indices@.take(i as int), start as int),
        decreases matched_indices@.len() - i,
    {
        let ghost now = matched_indices@.take(i + 1);
        proof {
            assert(now.drop_last() =~= matched_indices@.take(i as int));
        }
        let index: usize = matched_indices[i];
        if index >= start {
            indices.push(index - start);
        }
        i = i + 1;
    }
    proof {
        assert(matched_indices@.take(i as int) =~= matched_indices@);
    }
    indices
}

/// Matching `query` against every file of `entries` can have the outcomes
/// `found`, one for each entry.
pub open spec fn outcomes(
    query: Seq<char>,
    entries: Seq<WorktreeEntry>,
    found: Seq<Option<MatchView>>,
) -> bool {
    &&& found.len() == entries.len()
    &&& forall|k: int|
        0 <= k < entries.len() && (#[trigger] entries[k]).kind == EntryKind::File
            ==> fuzzy_match::is_outcome(query, entries[k].path@, found[k])
}

/// Entry `k` is a file that matched.
pub open spec fn matched_file(
    entries: Seq<WorktreeEntry>,
    found: Seq<Option<MatchView>>,
    k: int,
) -> bool {
    0 <= k < entries.len() && entries[k].kind == EntryKind::File && found[k] is Some
}

/// A file below `dir` matched.
pub open spec fn leads_to_match(
    entries: Seq<WorktreeEntry>,
    found: Seq<Option<MatchView>>,
    dir: Seq<char>,
) -> bool {
    exists|k: int| #[trigger] matched_below(entries, found, k, dir)
}

/// Entry `k` is a file below `dir` that matched.
pub open spec fn matched_below(
    entries: Seq<WorktreeEntry>,
    found: Seq<Option<MatchView>>,
    k: int,
    dir: Seq<char>,
) -> bool {
    matched_file(entries, found, k) && paths::under(dir, entries[k].path@)
}

/// The rows of the first `n` entries that matched or lead to a match, in path
/// order. What is collapsed plays no part.
pub open spec fn filtered_rows(
    model: WorktreeView,
    found: Seq<Option<MatchView>>,
    n: nat,
) -> Seq<RowView>
    decreases n,
{
    if n == 0 {
        Seq::empty()
    } else {
        let rest = filtered_rows(model, found, (n - 1) as nat);
        let entry = model.entries[n - 1];
        match entry.kind {
            EntryKind::File => match found[n - 1] {
                Some(m) => rest.push(
                    entry_row(
                        model,
                        entry,
                        rebased(m.indices, paths::last_slash(entry.path@) + 1),
                    ),
                ),
                None => rest,
            },
            EntryKind::Dir => if leads_to_match(model.entries, found, entry.path@) {
                rest.push(entry_row(model, entry, Seq::empty()))
            } else {
                rest
            },
        }
    }
}

/// The rows depend on the outcomes of the files alone.
pub proof fn lemma_filtered_rows_agree(
    model: WorktreeView,
    a: Seq<Option<MatchView>>,
    b: Seq<Option<MatchView>>,
    n: nat,
)
    requires
        n <= model.entries.len(),
        forall|k: int|
            0 <= k < model.entries.len() && (#[trigger] model.entries[k]).kind == EntryKind::File
                ==> a[k] == b[k],
    ensures
        filtered_rows(model, a, n) == filtered_rows(model, b, n),
    decreases n,
{
    if n > 0 {
        lemma_filtered_rows_agree(model, a, b, (n - 1) as nat);
        let dir = model.entries[n - 1].path@;
        if leads_to_match(model.entries, a, dir) {
            let k = choose|k: int| #[trigger] matched_below(model.entries, a, k, dir);
            assert(matched_below(model.entries, b, k, dir));
        }
        if leads_to_match(model.entries, b, dir) {
            let k = choose|k: int| #[trigger] matched_below(model.entries, b, k, dir);
            assert(matched_below(model.entries, a, k, dir));
        }
    }
}

/// The rows but for the matched positions of their names.
pub open spec fn unmarked(rows: Seq<RowView>) -> Seq<RowView> {
    rows.map_values(|row: RowView| RowView { matched_indices: Seq::empty(), ..row })
}

/// But for the matched positions, the rows depend on which files matched alone.
pub proof fn lemma_filtered_rows_alike(
    model: WorktreeView,
    a: Seq<Option<MatchView>>,
    b: Seq<Option<MatchView>>,
    n: nat,
)
    requires
        n <= model.entries.len(),
        forall|k: int|
            0 <= k < model.entries.len() && (#[trigger] model.entries[k]).kind == EntryKind::File
                ==> (a[k] is Some <==> b[k] is Some),
    ensures
        unmarked(filtered_rows(model, a, n)) == unmarked(filtered_rows(model, b, n)),
    decreases n,
{
    let left = filtered_rows(model, a, n);
    let right = filtered_rows(model, b, n);
    if n > 0 {
        lemma_filtered_rows_alike(model, a, b, (n - 1) as nat);
        let first = filtered_rows(model, a, (n - 1) as nat);
        let second = filtered_rows(model, b, (n - 1) as nat);
        let dir = model.entries[n - 1].path@;
        if leads_to_match(model.entries, a, dir) {
            let k = choose|k: int| #[trigger] matched_below(model.entries, a, k, dir);
            assert(matched_below(model.entries, b, k, dir));
        }
        if leads_to_match(model.entries, b, dir) {
            let k = choose|k: int| #[trigger] matched_below(model.entries, b, k, dir);
            assert(matched_below(model.entries, a, k, dir));
        }
        assert(unmarked(first).len() == first.len() && unmarked(second).len() == second.len());
        if left != first || right != second {
            let bare = RowView { matched_indices: Seq::empty(), ..left.last() };
            if left.len() > first.len() {
                assert(unmarked(left) =~= unmarked(first).push(bare));
                assert(unmarked(right) =~= unmarked(second).push(bare));
            }
        }
    }
    assert(unmarked(left) =~= unmarked(right));
}

/// The views of a sequence of optional matches.
pub open spec fn matches_view(found: Seq<Option<FuzzyMatch>>) -> Seq<Option<MatchView>> {
    found.map_values(|m: Option<FuzzyMatch>| fuzzy_match::match_view(m))
}

/// The directories above the matched files.
fn match_ancestors(
    entries: &KeyedVec<WorktreeEntry>,
    found: &Vec<Option<FuzzyMatch>>,
) -> (dirs: KeyedVec<String>)
    requires
        found@.len() == entries.seq().len(),
    ensures
        dirs.wf(),
        forall|dir: Seq<char>| #[trigger]
            dirs.keys().contains(dir) <==> leads_to_match(
                entries.seq(),
                matches_view(found@),
                dir,
            ),
{
    let ghost seq = entries.seq();
    let ghost views = matches_view(found@);
    let mut dirs: KeyedVec<String> = KeyedVec::new();
    let mut i: usize = 0;
    while i < entries.len()
        invariant
            seq == entries.seq(),
            views == matches_view(found@),
            found@.len() == seq.len(),
            i <= seq.len(),
            dirs.wf(),
            forall|dir: Seq<char>| #[trigger]
                dirs.keys().contains(dir) <==> exists|k: int|
                    k < i && #[trigger] matched_below(seq, views, k, dir),
        decreases seq.len() - i,
    {
        let entry = entries.at(i);
        let ghost before = dirs.keys();
        let hit: bool = entry.kind == EntryKind::File && found[i].is_some();
        assert(views[i as int] == fuzzy_match::match_view(found@[i as int]));
        assert(hit == matched_file(seq, views, i as int));
        if hit {
            let above = paths::ancestor_dirs(entry.path.as_str());
            let ghost all = paths::ancestors(entry.path@);
            let mut a: usize = 0;
            while a < above.len()
                invariant
                    a <= above.len(),
                    dirs.wf(),
                    above@.len() == all.len(),
                    forall|k: int| 0 <= k < above@.len() ==> (#[trigger] above@[k])@ == all[k],
                    forall|dir: Seq<char>| #[trigger]
                        dirs.keys().contains(dir) <==> before.contains(dir) || all.take(
                            a as int,
                        ).contains(dir),
                decreases above.len() - a,
            {
                let ghost seen = all.take(a as int);
                let ghost now = all.take(a + 1);
                let ghost earlier = dirs.keys();
                assert(now =~= seen.push(all[a as int]));
                assert(above@[a as int]@ == all[a as int]);
                let dir = above[a].clone();
                dirs.upsert(dir);
                proof {
                    assert forall|d: Seq<char>| #[trigger]
                        dirs.keys().contains(d) <==> before.contains(d) || now.contains(d) by {
                        vstd::seq_lib::lemma_seq_contains_after_push(seen, all[a as int], d);
                        assert(dirs.keys().contains(d) <==> earlier.contains(d) || d
                            == all[a as int]);
                    }
                }
                a = a + 1;
            }
            proof {
                assert(all.take(a as int) =~= all);
            }
        }
        proof {
            assert forall|dir: Seq<char>| #[trigger]
                dirs.keys().contains(dir) <==> exists|k: int|
                    k < i + 1 && #[trigger] matched_below(seq, views, k, dir) by {
                paths::lemma_ancestors_are_under(seq[i as int].path@, dir);
                if dirs.keys().contains(dir) {
                    if before.contains(dir) {
                        let k = choose|k: int| k < i && #[trigger] matched_below(seq, views, k, dir);
                        assert(k < i + 1 && matched_below(seq, views, k, dir));
                    } else {
                        assert(matched_below(seq, views, i as int, dir));
                    }
                }
                if exists|k: int| k < i + 1 && #[trigger] matched_below(seq, views, k, dir) {
                    let k = choose|k: int|
                        k < i + 1 && #[trigger] matched_below(seq, views, k, dir);
                    if k < i {
                        assert(before.contains(dir));
                    }
                }
            }
        }
        i = i + 1;
    }
    proof {
        assert forall|dir: Seq<char>| #[trigger]
            dirs.keys().contains(dir) <==> leads_to_match(seq, views, dir) by {
            if leads_to_match(seq, views, dir) {
                let k = choose|k: int| #[trigger] matched_below(seq, views, k, dir);
                assert(k < i && matched_below(seq, views, k, dir));
            }
        }
    }
    dirs
}

/// Builds the rows of the matched files and the directories above them, given
/// what the filter found for each entry.
pub fn rows_for_matches(
    model: &WorktreeModel,
    found: &Vec<Option<FuzzyMatch>>,
) -> (rows: Vec<Row>)
    requires
        model.wf(),
        found@.len() == model@.entries.len(),
    ensures
        rows_view(rows@) == filtered_rows(
            model@,
            matches_view(found@),
            model@.entries.len(),
        ),
{
    let ghost m = model@;
    let ghost views = matches_view(found@);
    let decorations = rollup::compute_rollup(model);
    let entries = model.entries();
    let dirs = match_ancestors(entries, found);
    let mut rows: Vec<Row> = Vec::new();
    let mut i: usize = 0;
    proof {
        assert(rows_view(rows@) =~= Seq::<RowView>::empty());
    }
    while i < entries.len()
        invariant
            m == model@,
            model.wf(),
            views == matches_view(found@),
            found@.len() == m.entries.len(),
            entries.seq() == m.entries,
            i <= m.entries.len(),
            decorations@.len() == m.entries.len(),
            forall|j: int|
                0 <= j < decorations@.len() ==> #[trigger] decorations@[j] == rollup::decoration(
                    m,
                    m.entries[j],
                ),
            dirs.wf(),
            forall|dir: Seq<char>| #[trigger]
                dirs.keys().contains(dir) <==> leads_to_match(m.entries, views, dir),
            rows_view(rows@) == filtered_rows(m, views, i as nat),
        decreases m.entries.len() - i,
    {
        let entry = entries.at(i);
        assert(views[i as int] == fuzzy_match::match_view(found@[i as int]));
        assert(decorations@[i as int] == rollup::decoration(m, m.entries[i as int]));
        match entry.kind {
            EntryKind::File => match &found[i] {
                Some(hit) => {
                    let matched = leaf_matched_indices(
                        entry.path.as_str(),
                        hit.matched_indices.as_slice(),
                    );
                    let row = build_row(entry, decorations[i], matched);
                    proof {
                        assert(row@ =~= entry_row(m, m.entries[i as int], matched@));
                        lemma_rows_push(rows@, row);
                    }
                    rows.push(row);
                },
                None => {},
            },
            EntryKind::Dir => {
                let kept = dirs.contains(entry.path.as_str());
                assert(kept == dirs.keys().contains(entry.path@));
                if kept {
                    let row = build_row(entry, decorations[i], Vec::new());
                    proof {
                        assert(row@ =~= entry_row(m, m.entries[i as int], Seq::empty()));
                        lemma_rows_push(rows@, row);
                    }
                    rows.push(row);
                }
            },
        }
        i = i + 1;
    }
    rows
}

/// Matches `query` against every file of the tree.
pub fn match_files(model: &WorktreeModel, query: &str) -> (found: Vec<Option<FuzzyMatch>>)
    requires
        model.wf(),
    ensures
        outcomes(query@, model@.entries, matches_view(found@)),
{
    let ghost m = model@;
    let entries = model.entries();
    let mut found: Vec<Option<FuzzyMatch>> = Vec::new();
    while found.len() < entries.len()
        invariant
            m == model@,
            model.wf(),
            entries.seq() == m.entries,
            found@.len() <= m.entries.len(),
            forall|k: int|
                0 <= k < found@.len() && (#[trigger] m.entries[k]).kind == EntryKind::File
                    ==> fuzzy_match::is_outcome(
                    query@,
                    m.entries[k].path@,
                    fuzzy_match::match_view(found@[k]),
                ),
        decreases m.entries.len() - found@.len(),
    {
        let entry = entries.at(found.len());
        let hit = match entry.kind {
            EntryKind::File => {
                assert(crate::worktree::path_fits(m.entries[found@.len() as int].path@));
                fuzzy_match::fuzzy_match(query, entry.path.as_str())
            },
            EntryKind::Dir => None,
        };
        found.push(hit);
    }
    proof {
        let views = matches_view(found@);
        assert forall|k: int|
            0 <= k < m.entries.len() && (#[trigger] m.entries[k]).kind
                == EntryKind::File implies fuzzy_match::is_outcome(
            query@,
            m.entries[k].path@,
            views[k],
        ) by {
            assert(views[k] == fuzzy_match::match_view(found@[k]));
        }
    }
    found
}

/// Builds the rows of the files that `query` matches and the directories above
/// them.
pub fn visible_rows_filtered(model: &WorktreeModel, query: &str) -> (rows: Vec<Row>)
    requires
        model.wf(),
    ensures
        exists|found: Seq<Option<MatchView>>|
            outcomes(query@, model@.entries, found) && rows_view(rows@) == #[trigger]
                filtered_rows(model@, found, model@.entries.len()),
{
    let found = match_files(model, query);
    rows_for_matches(model, &found)
}

// ---------------------------------------------------------------------------
// Laws
// ---------------------------------------------------------------------------

/// `row` shows entry `k` of the tree: its path, kind and depth, whether git
/// ignores it, and the decoration that the roll-up gives it.
pub open spec fn shows_entry(
    model: WorktreeView,
    rollups: Seq<Rollup>,
    row: RowView,
    k: int,
) -> bool {
    &&& 0 <= k < model.entries.len()
    &&& row.path == model.entries[k].path@
    &&& row.kind == model.entries[k].kind
    &&& row.depth == paths::separators(model.entries[k].path@).len()
    &&& row.ignored == model.entries[k].ignored
    &&& row.git_status == rollups[k].git_status
    &&& row.severity == rollups[k].severity
    &&& !row.is_pending_create
}

/// `row` shows some entry of the tree.
pub open spec fn shows_some_entry(
    model: WorktreeView,
    rollups: Seq<Rollup>,
    row: RowView,
) -> bool {
    exists|k: int| shows_entry(model, rollups, row, k)
}

/// The paths of the rows ascend, so no entry has two.
pub open spec fn rows_ascend(rows: Seq<RowView>) -> bool {
    forall|i: int, j: int|
        0 <= i < j < rows.len() ==> text::text_lt((#[trigger] rows[i]).path, (#[trigger] rows[j]).path)
}

/// A collapsed directory of the tree lies above `path`.
pub open spec fn folded_away(
    model: WorktreeView,
    collapsed: Set<Seq<char>>,
    path: Seq<char>,
) -> bool {
    exists|d: int|
        0 <= d < model.entries.len() && (#[trigger] model.entries[d]).kind == EntryKind::Dir
            && collapsed.contains(model.entries[d].path@) && (
        model.entries[d].path@ + seq!['/']).is_prefix_of(path)
}

proof fn lemma_folded_away(model: WorktreeView, collapsed: Set<Seq<char>>, path: Seq<char>)
    ensures
        hidden(model, collapsed, path) == folded_away(model, collapsed, path),
{
    if hidden(model, collapsed, path) {
        let d = choose|d: int| #[trigger] hides(model, collapsed, d, path);
        assert(model.entries[d].path@ + seq!['/'] =~= model.entries[d].path@.push('/'));
    }
    if folded_away(model, collapsed, path) {
        let d = choose|d: int|
            0 <= d < model.entries.len() && (#[trigger] model.entries[d]).kind == EntryKind::Dir
                && collapsed.contains(model.entries[d].path@) && (
            model.entries[d].path@ + seq!['/']).is_prefix_of(path);
        assert(model.entries[d].path@ + seq!['/'] =~= model.entries[d].path@.push('/'));
        assert(hides(model, collapsed, d, path));
    }
}

spec fn plain_row_of(
    model: WorktreeView,
    collapsed: Set<Seq<char>>,
    n: nat,
    row: RowView,
) -> bool {
    exists|k: int|
        0 <= k < n && !hidden(model, collapsed, (#[trigger] model.entries[k]).path@) && row
            == entry_row(model, model.entries[k], Seq::empty())
}

proof fn lemma_plain_rows(model: WorktreeView, collapsed: Set<Seq<char>>, n: nat)
    requires
        model.wf(),
        n <= model.entries.len(),
    ensures
        rows_ascend(plain_rows(model, collapsed, n)),
        forall|r: int|
            0 <= r < plain_rows(model, collapsed, n).len() ==> plain_row_of(
                model,
                collapsed,
                n,
                #[trigger] plain_rows(model, collapsed, n)[r],
            ),
        forall|k: int|
            0 <= k < n && !hidden(model, collapsed, (#[trigger] model.entries[k]).path@)
                ==> plain_rows(model, collapsed, n).contains(
                entry_row(model, model.entries[k], Seq::empty()),
            ),
    decreases n,
{
    if n > 0 {
        let m = (n - 1) as nat;
        lemma_plain_rows(model, collapsed, m);
        let rest = plain_rows(model, collapsed, m);
        let all = plain_rows(model, collapsed, n);
        let entry = model.entries[n - 1];
        let shown = !hidden(model, collapsed, entry.path@);
        let own = entry_row(model, entry, Seq::empty());
        assert forall|r: int| 0 <= r < all.len() implies plain_row_of(
            model,
            collapsed,
            n,
            #[trigger] all[r],
        ) by {
            if r < rest.len() {
                assert(plain_row_of(model, collapsed, m, rest[r]));
                let k = choose|k: int|
                    0 <= k < m && !hidden(model, collapsed, (#[trigger] model.entries[k]).path@)
                        && rest[r] == entry_row(model, model.entries[k], Seq::empty());
                assert(all[r] == entry_row(model, model.entries[k], Seq::empty()));
            } else {
                assert(all[r] == entry_row(model, model.entries[n - 1], Seq::empty()));
            }
        }
        assert forall|k: int|
            0 <= k < n && !hidden(
                model,
                collapsed,
                (#[trigger] model.entries[k]).path@,
            ) implies all.contains(entry_row(model, model.entries[k], Seq::empty())) by {
            if k < m {
                let row = entry_row(model, model.entries[k], Seq::empty());
                assert(rest.contains(row));
                let r = choose|r: int| 0 <= r < rest.len() && rest[r] == row;
                assert(all[r] == row);
            } else {
                assert(all[rest.len() as int] == own);
            }
        }
        if shown {
            assert forall|i: int, j: int| 0 <= i < j < all.len() implies text::text_lt(
                (#[trigger] all[i]).path,
                (#[trigger] all[j]).path,
            ) by {
                if j < rest.len() {
                    assert(text::text_lt(rest[i].path, rest[j].path));
                } else {
                    assert(plain_row_of(model, collapsed, m, rest[i]));
                    let k = choose|k: int|
                        0 <= k < m && !hidden(
                            model,
                            collapsed,
                            (#[trigger] model.entries[k]).path@,
                        ) && rest[i] == entry_row(model, model.entries[k], Seq::empty());
                    assert(model.entries[k].key() == all[i].path);
                    assert(model.entries[n - 1].key() == all[j].path);
                }
            }
        }
    }
}

/// Without a filter every entry that no collapsed directory hides has exactly
/// one row, and nothing else has any. The rows stand in path order, and each
/// shows its own entry.
pub proof fn law_plain_rows_show_what_is_not_folded(
    model: WorktreeModel,
    collapsed: KeyedVec<String>,
    rows: Vec<Row>,
    rollups: Vec<Rollup>,
)
    requires
        model.wf(),
        call_ensures(visible_rows_unfiltered, (&model, &collapsed), rows),
        call_ensures(rollup::compute_rollup, (&model,), rollups),
    ensures
        rows_ascend(rows_view(rows@)),
        forall|k: int|
            0 <= k < model@.entries.len() ==> (!folded_away(
                model@,
                collapsed.keys(),
                (#[trigger] model@.entries[k]).path@,
            ) <==> exists|r: int|
                0 <= r < rows@.len() && shows_entry(
                    model@,
                    rollups@,
                    #[trigger] rows_view(rows@)[r],
                    k,
                )),
        forall|r: int|
            0 <= r < rows@.len() ==> (#[trigger] rows_view(rows@)[r]).matched_indices.len() == 0
                && shows_some_entry(model@, rollups@, rows_view(rows@)[r]),
{
    let m = model@;
    let closed = collapsed.keys();
    let all = rows_view(rows@);
    lemma_plain_rows(m, closed, m.entries.len());
    assert forall|k: int| 0 <= k < m.entries.len() implies (!folded_away(
        m,
        closed,
        (#[trigger] m.entries[k]).path@,
    ) <==> exists|r: int|
        0 <= r < rows@.len() && shows_entry(m, rollups@, #[trigger] all[r], k)) by {
        lemma_folded_away(m, closed, m.entries[k].path@);
        let row = entry_row(m, m.entries[k], Seq::empty());
        assert(rollups@[k] == rollup::decoration(m, m.entries[k]));
        paths::lemma_count_separators(m.entries[k].path@);
        if !hidden(m, closed, m.entries[k].path@) {
            assert(all.contains(row));
            let r = choose|r: int| 0 <= r < all.len() && all[r] == row;
            assert(shows_entry(m, rollups@, all[r], k));
        }
        if exists|r: int| 0 <= r < rows@.len() && shows_entry(m, rollups@, #[trigger] all[r], k) {
            let r = choose|r: int|
                0 <= r < rows@.len() && shows_entry(m, rollups@, #[trigger] all[r], k);
            assert(plain_row_of(m, closed, m.entries.len(), all[r]));
            let j = choose|j: int|
                0 <= j < m.entries.len() && !hidden(m, closed, (#[trigger] m.entries[j]).path@)
                    && all[r] == entry_row(m, m.entries[j], Seq::empty());
            assert(m.entries[j].path@ == m.entries[k].path@);
        }
    }
    assert forall|r: int| 0 <= r < rows@.len() implies (#[trigger] all[r]).matched_indices.len()
        == 0 && shows_some_entry(m, rollups@, all[r]) by {
        assert(plain_row_of(m, closed, m.entries.len(), all[r]));
        let k = choose|k: int|
            0 <= k < m.entries.len() && !hidden(m, closed, (#[trigger] m.entries[k]).path@)
                && all[r] == entry_row(m, m.entries[k], Seq::empty());
        assert(rollups@[k] == rollup::decoration(m, m.entries[k]));
        paths::lemma_count_separators(m.entries[k].path@);
        assert(shows_entry(m, rollups@, all[r], k));
    }
}

proof fn lemma_rebased(indices: Seq<usize>, start: int, v: int)
    requires
        0 <= start,
    ensures
        fuzzy_match::holds(rebased(indices, start), v) <==> 0 <= v && fuzzy_match::holds(
            indices,
            v + start,
        ),
        rebased(indices, start).len() <= indices.len(),
    decreases indices.len(),
{
    let all = rebased(indices, start);
    if indices.len() > 0 {
        let front = indices.drop_last();
        let rest = rebased(front, start);
        lemma_rebased(front, start, v);
        if fuzzy_match::holds(front, v + start) {
            let i = choose|i: int| 0 <= i < front.len() && front[i] == v + start;
            assert(indices[i] == v + start);
        }
        if fuzzy_match::holds(rest, v) {
            let i = choose|i: int| 0 <= i < rest.len() && rest[i] == v;
            assert(all[i] == v);
        }
        if fuzzy_match::holds(all, v) {
            let i = choose|i: int| 0 <= i < all.len() && all[i] == v;
            if i < rest.len() {
                assert(rest[i] == v);
            } else {
                assert(indices[indices.len() - 1] == v + start);
            }
        }
        if 0 <= v && fuzzy_match::holds(indices, v + start) {
            let i = choose|i: int| 0 <= i < indices.len() && indices[i] == v + start;
            if i < front.len() {
                assert(front[i] == v + start);
            } else {
                assert(all[rest.len() as int] == v);
            }
        }
    }
}

/// A position of the name is marked exactly where the same character of the
/// whole path was matched; what was matched before the name is dropped.
pub proof fn law_leaf_marks_are_the_paths(
    path: &str,
    matched_indices: &[usize],
    leaf: &str,
    indices: Vec<usize>,
    v: int,
)
    requires
        call_ensures(leaf_matched_indices, (path, matched_indices), indices),
        call_ensures(paths::leaf_name, (path,), leaf),
    ensures
        fuzzy_match::holds(indices@, v) <==> 0 <= v && fuzzy_match::holds(
            matched_indices@,
            v + (path@.len() - leaf@.len()),
        ),
{
    paths::lemma_last_slash(path@);
    lemma_rebased(matched_indices@, paths::last_slash(path@) + 1, v);
}

/// Entry `k` has a row under a filter: it is a file that matched, or a directory
/// with such a file somewhere below it.
pub open spec fn survives(
    model: WorktreeView,
    found: Seq<Option<MatchView>>,
    k: int,
) -> bool {
    match model.entries[k].kind {
        EntryKind::File => found[k] is Some,
        EntryKind::Dir => exists|f: int|
            0 <= f < model.entries.len() && (#[trigger] model.entries[f]).kind == EntryKind::File
                && found[f] is Some && (model.entries[k].path@ + seq!['/']).is_prefix_of(
                model.entries[f].path@,
            ),
    }
}

/// The row of entry `k` under a filter.
spec fn filtered_row(model: WorktreeView, found: Seq<Option<MatchView>>, k: int) -> RowView {
    let entry = model.entries[k];
    entry_row(
        model,
        entry,
        match (entry.kind, found[k]) {
            (EntryKind::File, Some(m)) => rebased(m.indices, paths::last_slash(entry.path@) + 1),
            _ => Seq::empty(),
        },
    )
}

proof fn lemma_survives(model: WorktreeView, found: Seq<Option<MatchView>>, k: int)
    requires
        0 <= k < model.entries.len(),
        found.len() == model.entries.len(),
    ensures
        survives(model, found, k) == match model.entries[k].kind {
            EntryKind::File => found[k] is Some,
            EntryKind::Dir => leads_to_match(model.entries, found, model.entries[k].path@),
        },
{
    let dir = model.entries[k].path@;
    assert(dir + seq!['/'] =~= dir.push('/'));
    if leads_to_match(model.entries, found, dir) {
        let f = choose|f: int| #[trigger] matched_below(model.entries, found, f, dir);
        assert(model.entries[f].kind == EntryKind::File);
    }
    if model.entries[k].kind == EntryKind::Dir && survives(model, found, k) {
        let f = choose|f: int|
            0 <= f < model.entries.len() && (#[trigger] model.entries[f]).kind == EntryKind::File
                && found[f] is Some && (model.entries[k].path@ + seq!['/']).is_prefix_of(
                model.entries[f].path@,
            );
        assert(matched_below(model.entries, found, f, dir));
    }
}

spec fn filtered_row_of(
    model: WorktreeView,
    found: Seq<Option<MatchView>>,
    n: nat,
    row: RowView,
) -> bool {
    exists|k: int|
        0 <= k < n && #[trigger] survives(model, found, k) && row == filtered_row(model, found, k)
}

proof fn lemma_filtered_rows(model: WorktreeView, found: Seq<Option<MatchView>>, n: nat)
    requires
        model.wf(),
        n <= model.entries.len(),
        found.len() == model.entries.len(),
    ensures
        rows_ascend(filtered_rows(model, found, n)),
        forall|r: int|
            0 <= r < filtered_rows(model, found, n).len() ==> filtered_row_of(
                model,
                found,
                n,
                #[trigger] filtered_rows(model, found, n)[r],
            ),
        forall|k: int|
            0 <= k < n && #[trigger] survives(model, found, k) ==> filtered_rows(
                model,
                found,
                n,
            ).contains(filtered_row(model, found, k)),
    decreases n,
{
    if n > 0 {
        let m = (n - 1) as nat;
        lemma_filtered_rows(model, found, m);
        let rest = filtered_rows(model, found, m);
        let all = filtered_rows(model, found, n);
        let own = filtered_row(model, found, n - 1);
        lemma_survives(model, found, n - 1);
        let shown = survives(model, found, n - 1);
        assert(all == if shown {
            rest.push(own)
        } else {
            rest
        });
        assert forall|r: int| 0 <= r < all.len() implies filtered_row_of(
            model,
            found,
            n,
            #[trigger] all[r],
        ) by {
            if r < rest.len() {
                assert(filtered_row_of(model, found, m, rest[r]));
                let k = choose|k: int|
                    0 <= k < m && #[trigger] survives(model, found, k) && rest[r] == filtered_row(
                        model,
                        found,
                        k,
                    );
                assert(survives(model, found, k) && all[r] == filtered_row(model, found, k));
            } else {
                assert(survives(model, found, n - 1) && all[r] == own);
            }
        }
        assert forall|k: int| 0 <= k < n && #[trigger] survives(model, found, k) implies all.contains(
            filtered_row(model, found, k),
        ) by {
            if k < m {
                let row = filtered_row(model, found, k);
                let r = choose|r: int| 0 <= r < rest.len() && rest[r] == row;
                assert(all[r] == row);
            } else {
                assert(all[rest.len() as int] == own);
            }
        }
        if shown {
            assert forall|i: int, j: int| 0 <= i < j < all.len() implies text::text_lt(
                (#[trigger] all[i]).path,
                (#[trigger] all[j]).path,
            ) by {
                if j < rest.len() {
                    assert(text::text_lt(rest[i].path, rest[j].path));
                } else {
                    assert(filtered_row_of(model, found, m, rest[i]));
                    let k = choose|k: int|
                        0 <= k < m && #[trigger] survives(model, found, k) && rest[i]
                            == filtered_row(model, found, k);
                    assert(model.entries[k].key() == all[i].path);
                    assert(model.entries[n - 1].key() == all[j].path);
                }
            }
        }
    }
}

/// Under a filter the files that matched and the directories above them have
/// exactly one row each, collapsed or not, and nothing else has any. The rows
/// stand in path order and show their own entries.
pub proof fn law_filtered_rows_show_the_matches(
    model: WorktreeModel,
    found: Vec<Option<FuzzyMatch>>,
    rows: Vec<Row>,
    rollups: Vec<Rollup>,
)
    requires
        model.wf(),
        found@.len() == model@.entries.len(),
        call_ensures(rows_for_matches, (&model, &found), rows),
        call_ensures(rollup::compute_rollup, (&model,), rollups),
    ensures
        rows_ascend(rows_view(rows@)),
        forall|k: int|
            0 <= k < model@.entries.len() ==> (#[trigger] survives(
                model@,
                matches_view(found@),
                k,
            ) <==> exists|r: int|
                0 <= r < rows@.len() && shows_entry(
                    model@,
                    rollups@,
                    #[trigger] rows_view(rows@)[r],
                    k,
                )),
        forall|r: int|
            0 <= r < rows@.len() ==> shows_some_entry(
                model@,
                rollups@,
                #[trigger] rows_view(rows@)[r],
            ),
{
    let m = model@;
    let views = matches_view(found@);
    let all = rows_view(rows@);
    lemma_filtered_rows(m, views, m.entries.len());
    assert forall|k: int| 0 <= k < m.entries.len() implies (#[trigger] survives(m, views, k)
        <==> exists|r: int|
        0 <= r < rows@.len() && shows_entry(m, rollups@, #[trigger] all[r], k)) by {
        assert(rollups@[k] == rollup::decoration(m, m.entries[k]));
        paths::lemma_count_separators(m.entries[k].path@);
        if survives(m, views, k) {
            let row = filtered_row(m, views, k);
            assert(all.contains(row));
            let r = choose|r: int| 0 <= r < all.len() && all[r] == row;
            assert(shows_entry(m, rollups@, all[r], k));
        }
        if exists|r: int| 0 <= r < rows@.len() && shows_entry(m, rollups@, #[trigger] all[r], k) {
            let r = choose|r: int|
                0 <= r < rows@.len() && shows_entry(m, rollups@, #[trigger] all[r], k);
            lemma_filtered_row_is_own(m, views, all[r], k);
        }
    }
    assert forall|r: int| 0 <= r < rows@.len() implies shows_some_entry(
        m,
        rollups@,
        #[trigger] all[r],
    ) by {
        assert(filtered_row_of(m, views, m.entries.len(), all[r]));
        let k = choose|k: int|
            0 <= k < m.entries.len() && #[trigger] survives(m, views, k) && all[r] == filtered_row(
                m,
                views,
                k,
            );
        assert(rollups@[k] == rollup::decoration(m, m.entries[k]));
        paths::lemma_count_separators(m.entries[k].path@);
        assert(shows_entry(m, rollups@, all[r], k));
    }
}

proof fn lemma_filtered_row_is_own(
    model: WorktreeView,
    found: Seq<Option<MatchView>>,
    row: RowView,
    k: int,
)
    requires
        model.wf(),
        found.len() == model.entries.len(),
        filtered_row_of(model, found, model.entries.len(), row),
        0 <= k < model.entries.len(),
        row.path == model.entries[k].path@,
    ensures
        survives(model, found, k),
        row == filtered_row(model, found, k),
{
    let j = choose|j: int|
        0 <= j < model.entries.len() && #[trigger] survives(model, found, j) && row
            == filtered_row(model, found, j);
    assert(model.entries[j].key() == model.entries[k].key());
    ordered::lemma_key_index(model.entries, j);
    ordered::lemma_key_index(model.entries, k);
}

/// Under a filter a file's name is marked exactly where its path was matched,
/// and a directory's name nowhere.
pub proof fn law_filtered_rows_mark_the_matches(
    model: WorktreeModel,
    found: Vec<Option<FuzzyMatch>>,
    rows: Vec<Row>,
    r: int,
    k: int,
    v: int,
)
    requires
        model.wf(),
        found@.len() == model@.entries.len(),
        call_ensures(rows_for_matches, (&model, &found), rows),
        0 <= r < rows@.len(),
        0 <= k < model@.entries.len(),
        rows@[r].path@ == model@.entries[k].path@,
    ensures
        fuzzy_match::holds(rows@[r].matched_indices@, v) <==> (model@.entries[k].kind
            == EntryKind::File && 0 <= v && fuzzy_match::holds(
            found@[k]->0@.indices,
            v + (model@.entries[k].path@.len() - paths::leaf_of(model@.entries[k].path@).len()),
        )),
{
    let m = model@;
    let views = matches_view(found@);
    let all = rows_view(rows@);
    let path = m.entries[k].path@;
    assert(all[r] == rows@[r]@);
    lemma_filtered_rows(m, views, m.entries.len());
    assert(filtered_row_of(m, views, m.entries.len(), all[r]));
    lemma_filtered_row_is_own(m, views, all[r], k);
    assert(views[k] == fuzzy_match::match_view(found@[k]));
    paths::lemma_last_slash(path);
    if m.entries[k].kind == EntryKind::File {
        lemma_rebased(views[k]->0.indices, paths::last_slash(path) + 1, v);
    }
}

/// Every file is matched by its own path, and directories are not matched.
pub proof fn law_files_are_matched_by_their_paths(
    model: WorktreeModel,
    query: &str,
    found: Vec<Option<FuzzyMatch>>,
    k: int,
)
    requires
        call_ensures(match_files, (&model, query), found),
        0 <= k < model@.entries.len(),
        model@.entries[k].kind == EntryKind::File,
    ensures
        found@.len() == model@.entries.len(),
        fuzzy_match::is_outcome(
            query@,
            model@.entries[k].path@,
            fuzzy_match::match_view(found@[k]),
        ),
{
    let views = matches_view(found@);
    assert(views[k] == fuzzy_match::match_view(found@[k]));
}

/// The paths of the plain rows are those of the entries that are not folded
/// away, in their order.
pub proof fn lemma_plain_rows_paths(model: WorktreeView, collapsed: Set<Seq<char>>)
    requires
        model.wf(),
    ensures
        rows_ascend(plain_rows(model, collapsed, model.entries.len())),
        forall|k: int|
            0 <= k < model.entries.len() ==> (!folded_away(
                model,
                collapsed,
                (#[trigger] model.entries[k]).path@,
            ) <==> exists|r: int|
                0 <= r < plain_rows(model, collapsed, model.entries.len()).len() && (
                #[trigger] plain_rows(model, collapsed, model.entries.len())[r]).path
                    == model.entries[k].path@),
{
    let n = model.entries.len();
    let all = plain_rows(model, collapsed, n);
    lemma_plain_rows(model, collapsed, n);
    assert forall|k: int| 0 <= k < n implies (!folded_away(
        model,
        collapsed,
        (#[trigger] model.entries[k]).path@,
    ) <==> exists|r: int|
        0 <= r < all.len() && (#[trigger] all[r]).path == model.entries[k].path@) by {
        lemma_folded_away(model, collapsed, model.entries[k].path@);
        let row = entry_row(model, model.entries[k], Seq::empty());
        if !hidden(model, collapsed, model.entries[k].path@) {
            assert(all.contains(row));
            let r = choose|r: int| 0 <= r < all.len() && all[r] == row;
            assert(all[r].path == model.entries[k].path@);
        }
        if exists|r: int| 0 <= r < all.len() && (#[trigger] all[r]).path
            == model.entries[k].path@ {
            let r = choose|r: int|
                0 <= r < all.len() && (#[trigger] all[r]).path == model.entries[k].path@;
            assert(plain_row_of(model, collapsed, n, all[r]));
        }
    }
}

/// Some row of the list shows `path`.
pub open spec fn has_row(list: Seq<RowView>, path: Seq<char>) -> bool {
    exists|r: int| 0 <= r < list.len() && (#[trigger] list[r]).path == path
}

/// Under a filter file `k` has a row exactly where it matched, and directory `d`
/// exactly where some file below it has one.
pub proof fn lemma_filtered_list(
    query: Seq<char>,
    model: WorktreeView,
    list: Seq<RowView>,
    k: int,
    hit: Option<MatchView>,
    d: int,
)
    requires
        model.wf(),
        exists|found: Seq<Option<MatchView>>|
            outcomes(query, model.entries, found) && list == #[trigger] filtered_rows(
                model,
                found,
                model.entries.len(),
            ),
        0 <= k < model.entries.len(),
        model.entries[k].kind == EntryKind::File,
        fuzzy_match::is_outcome(query, model.entries[k].path@, hit),
    ensures
        rows_ascend(list),
        has_row(list, model.entries[k].path@) <==> hit is Some,
        0 <= d < model.entries.len() && model.entries[d].kind == EntryKind::Dir && (
        model.entries[d].path@ + seq!['/']).is_prefix_of(model.entries[k].path@) && hit is Some
            ==> has_row(list, model.entries[d].path@),
        0 <= d < model.entries.len() && model.entries[d].kind == EntryKind::Dir && has_row(
            list,
            model.entries[d].path@,
        ) ==> exists|f: int|
            0 <= f < model.entries.len() && (#[trigger] model.entries[f]).kind == EntryKind::File
                && has_row(list, model.entries[f].path@) && (model.entries[d].path@
                + seq!['/']).is_prefix_of(model.entries[f].path@),
        forall|r: int| 0 <= r < list.len() ==> model_lists(model, (#[trigger] list[r]).path),
{
    let n = model.entries.len();
    let found = choose|found: Seq<Option<MatchView>>|
        outcomes(query, model.entries, found) && list == #[trigger] filtered_rows(
            model,
            found,
            model.entries.len(),
        );
    lemma_filtered_rows(model, found, n);
    fuzzy_match::law_match_settled(query, model.entries[k].path@, found[k], hit);
    assert forall|j: int| 0 <= j < n implies (has_row(
        list,
        (#[trigger] model.entries[j]).path@,
    ) <==> survives(model, found, j)) by {
        if survives(model, found, j) {
            let row = filtered_row(model, found, j);
            assert(list.contains(row));
            let r = choose|r: int| 0 <= r < list.len() && list[r] == row;
            assert(list[r].path == model.entries[j].path@);
        }
        if has_row(list, model.entries[j].path@) {
            let r = choose|r: int|
                0 <= r < list.len() && (#[trigger] list[r]).path == model.entries[j].path@;
            assert(filtered_row_of(model, found, n, list[r]));
            lemma_filtered_row_is_own(model, found, list[r], j);
        }
    }
    assert(has_row(list, model.entries[k].path@) <==> survives(model, found, k));
    if 0 <= d < n && model.entries[d].kind == EntryKind::Dir {
        assert(has_row(list, model.entries[d].path@) <==> survives(model, found, d));
        if has_row(list, model.entries[d].path@) {
            let f = choose|f: int|
                0 <= f < n && (#[trigger] model.entries[f]).kind == EntryKind::File && found[f]
                    is Some && (model.entries[d].path@ + seq!['/']).is_prefix_of(
                    model.entries[f].path@,
                );
            assert(survives(model, found, f));
            assert(has_row(list, model.entries[f].path@));
        }
    }
    assert forall|r: int| 0 <= r < list.len() implies model_lists(
        model,
        (#[trigger] list[r]).path,
    ) by {
        assert(filtered_row_of(model, found, n, list[r]));
        let j = choose|j: int|
            0 <= j < n && #[trigger] survives(model, found, j) && list[r] == filtered_row(
                model,
                found,
                j,
            );
        assert(model.entries[j].path@ == list[r].path);
    }
}

/// The tree has an entry at `path`.
pub open spec fn model_lists(model: WorktreeView, path: Seq<char>) -> bool {
    exists|j: int| 0 <= j < model.entries.len() && (#[trigger] model.entries[j]).path@ == path
}

/// A filter shows the files that the query matches and the directories that lead
/// to one of them, in path order, and nothing else.
pub proof fn law_filter_shows_what_matches(
    model: WorktreeModel,
    query: &str,
    rows: Vec<Row>,
    k: int,
    path: &str,
    hit: Option<FuzzyMatch>,
    d: int,
)
    requires
        model.wf(),
        call_ensures(visible_rows_filtered, (&model, query), rows),
        0 <= k < model@.entries.len(),
        model@.entries[k].kind == EntryKind::File,
        path@ == model@.entries[k].path@,
        call_ensures(fuzzy_match::fuzzy_match, (query, path), hit),
        0 <= d < model@.entries.len(),
        model@.entries[d].kind == EntryKind::Dir,
    ensures
        rows_ascend(rows_view(rows@)),
        has_row(rows_view(rows@), path@) <==> hit is Some,
        hit is Some && (model@.entries[d].path@ + seq!['/']).is_prefix_of(path@) ==> has_row(
            rows_view(rows@),
            model@.entries[d].path@,
        ),
        has_row(rows_view(rows@), model@.entries[d].path@) ==> exists|f: int|
            0 <= f < model@.entries.len() && (#[trigger] model@.entries[f]).kind == EntryKind::File
                && has_row(rows_view(rows@), model@.entries[f].path@) && (model@.entries[d].path@
                + seq!['/']).is_prefix_of(model@.entries[f].path@),
        forall|r: int|
            0 <= r < rows@.len() ==> model_lists(model@, (#[trigger] rows_view(rows@)[r]).path),
{
    lemma_filtered_list(query@, model@, rows_view(rows@), k, fuzzy_match::match_view(hit), d);
}

proof fn lemma_rebased_ascends(indices: Seq<usize>, start: int)
    requires
        fuzzy_match::ascending(indices),
        0 <= start,
    ensures
        fuzzy_match::ascending(rebased(indices, start)),
    decreases indices.len(),
{
    if indices.len() > 0 {
        let rest = indices.drop_last();
        lemma_rebased_ascends(rest, start);
        let kept = rebased(rest, start);
        let all = rebased(indices, start);
        assert forall|i: int, j: int| 0 <= i < j < all.len() implies all[i] < all[j] by {
            if j < kept.len() {
                assert(kept[i] < kept[j]);
            } else {
                lemma_rebased(rest, start, kept[i] as int);
                assert(fuzzy_match::holds(kept, kept[i] as int));
                let k = choose|k: int| 0 <= k < rest.len() && rest[k] == kept[i] + start;
                assert(indices[k] < indices[indices.len() - 1]);
            }
        }
    }
}

/// The marks of a leaf ascend where those of its path do.
pub proof fn law_leaf_marks_keep_their_order(
    path: &str,
    matched_indices: &[usize],
    indices: Vec<usize>,
)
    requires
        call_ensures(leaf_matched_indices, (path, matched_indices), indices),
        forall|i: int, j: int|
            0 <= i < j < matched_indices@.len() ==> matched_indices@[i] < matched_indices@[j],
    ensures
        forall|i: int, j: int| 0 <= i < j < indices@.len() ==> indices@[i] < indices@[j],
{
    paths::lemma_last_slash(path@);
    lemma_rebased_ascends(matched_indices@, paths::last_slash(path@) + 1);
}

/// Each row under a filter shows its entry, and a file's name is marked where
/// the query matched its path. This speaks of paths without a backslash.
pub proof fn law_filter_marks_what_matched(
    model: WorktreeModel,
    query: &str,
    rows: Vec<Row>,
    rollups: Vec<Rollup>,
    r: int,
    k: int,
    path: &str,
    hit: Option<FuzzyMatch>,
    v: int,
)
    requires
        model.wf(),
        call_ensures(visible_rows_filtered, (&model, query), rows),
        call_ensures(rollup::compute_rollup, (&model,), rollups),
        0 <= r < rows@.len(),
        0 <= k < model@.entries.len(),
        path@ == model@.entries[k].path@,
        rows@[r].path@ == path@,
        !path@.contains('\\'),
        call_ensures(fuzzy_match::fuzzy_match, (query, path), hit),
    ensures
        shows_entry(model@, rollups@, rows@[r]@, k),
        model@.entries[k].kind == EntryKind::Dir ==> rows@[r].matched_indices@.len() == 0,
        model@.entries[k].kind == EntryKind::File && 0 <= v ==> (fuzzy_match::holds(
            rows@[r].matched_indices@,
            v,
        ) <==> fuzzy_match::holds(
            (hit->0).matched_indices@,
            v + (path@.len() - paths::leaf_of(path@).len()),
        )),
{
    let m = model@;
    let n = m.entries.len();
    let all = rows_view(rows@);
    let found = choose|found: Seq<Option<MatchView>>|
        outcomes(query@, m.entries, found) && all == #[trigger] filtered_rows(m, found, n);
    assert(all[r] == rows@[r]@);
    lemma_filtered_rows(m, found, n);
    assert(filtered_row_of(m, found, n, all[r]));
    lemma_filtered_row_is_own(m, found, all[r], k);
    assert(rollups@[k] == rollup::decoration(m, m.entries[k]));
    paths::lemma_count_separators(path@);
    paths::lemma_last_slash(path@);
    if m.entries[k].kind == EntryKind::File {
        fuzzy_match::law_outcome_unique(query@, path@, found[k], fuzzy_match::match_view(hit));
        lemma_rebased(found[k]->0.indices, paths::last_slash(path@) + 1, v);
    }
}

} // verus!
