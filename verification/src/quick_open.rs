//! Quick-open: the files of the worktree, ranked by how well they match a query.

use vstd::prelude::*;

use crate::file_tree::FileTreeEvent;
use crate::fuzzy_match;
use crate::fuzzy_match::{FuzzyMatch, MatchView};
use crate::ordered;
use crate::ordered::{Keyed, KeyedVec};
use crate::protocol::{EntryKind, WorktreeEntry};
use crate::rows;
use crate::sorting;
use crate::text;
use crate::worktree::WorktreeModel;

verus! {

/// Open quick-open.
#[derive(Clone, Copy, Debug, PartialEq, Eq, Structural)]
pub struct OpenQuickOpen;

/// The title of the dialog.
pub const QUICK_OPEN_TITLE: &'static str = "Go to File";

/// The hint in the empty query field.
pub const QUICK_OPEN_PLACEHOLDER: &'static str = "Go to file...";

/// The width of the dialog, in pixels.
pub const QUICK_OPEN_WIDTH: u64 = 480;

/// The height at which the list begins to scroll, in pixels.
pub const QUICK_OPEN_LIST_MAX_HEIGHT: u64 = 360;

// ---------------------------------------------------------------------------
// Ranking
// ---------------------------------------------------------------------------

/// Entry `a` is listed before entry `b`: it scores higher, or the same and it
/// comes first by path.
pub open spec fn outranks(found: Seq<Option<MatchView>>, a: usize, b: usize) -> bool {
    let left = found[a as int]->0.score;
    let right = found[b as int]->0.score;
    left > right || (left == right && a < b)
}

/// `order` lists the files that matched, best first.
pub open spec fn is_ranking(
    entries: Seq<WorktreeEntry>,
    found: Seq<Option<MatchView>>,
    order: Seq<usize>,
) -> bool {
    &&& forall|i: int|
        0 <= i < order.len() ==> rows::matched_file(entries, found, #[trigger] order[i] as int)
    &&& forall|k: int| #[trigger]
        rows::matched_file(entries, found, k) ==> exists|i: int|
            0 <= i < order.len() && order[i] == k
    &&& forall|i: int, j: int|
        0 <= i < j < order.len() ==> outranks(found, #[trigger] order[i], #[trigger] order[j])
}

/// `paths` spells out the entries that `order` lists.
pub open spec fn spells_out(
    entries: Seq<WorktreeEntry>,
    order: Seq<usize>,
    paths: Seq<String>,
) -> bool {
    &&& paths.len() == order.len()
    &&& forall|i: int|
        0 <= i < paths.len() ==> (#[trigger] paths[i])@ == entries[order[i] as int].path@
}

/// `paths` lists the files that match `query`, best first.
pub open spec fn is_listing(
    query: Seq<char>,
    entries: Seq<WorktreeEntry>,
    paths: Seq<String>,
) -> bool {
    exists|found: Seq<Option<MatchView>>, order: Seq<usize>|
        rows::outcomes(query, entries, found) && #[trigger] is_ranking(entries, found, order)
            && spells_out(entries, order, paths)
}

/// The order in which the files that matched are listed.
pub fn rank_files(entries: &KeyedVec<WorktreeEntry>, found: &Vec<Option<FuzzyMatch>>) -> (order:
    Vec<usize>)
    requires
        found@.len() == entries.seq().len(),
    ensures
        is_ranking(entries.seq(), rows::matches_view(found@), order@),
{
    let ghost list = entries.seq();
    let ghost hits = rows::matches_view(found@);
    let mut places: Vec<usize> = Vec::new();
    let mut keys: Vec<u128> = Vec::new();
    let mut n: usize = 0;
    while n < found.len()
        invariant
            n <= found@.len(),
            list == entries.seq(),
            hits == rows::matches_view(found@),
            found@.len() == list.len(),
            keys@.len() == places@.len(),
            forall|i: int|
                0 <= i < places@.len() ==> rows::matched_file(
                    list,
                    hits,
                    #[trigger] places@[i] as int,
                ) && places@[i] < n && keys@[i] == u32::MAX - hits[places@[i] as int]->0.score,
            forall|i: int, j: int|
                0 <= i < j < places@.len() ==> #[trigger] places@[i] < #[trigger] places@[j],
            forall|k: int|
                k < n && #[trigger] rows::matched_file(list, hits, k) ==> exists|i: int|
                    0 <= i < places@.len() && places@[i] == k,
        decreases found@.len() - n,
    {
        let ghost earlier = places@;
        let hit: Option<u32> = match &found[n] {
            Some(m) => match entries.at(n).kind {
                EntryKind::File => Some(m.score),
                EntryKind::Dir => None,
            },
            None => None,
        };
        assert(hits[n as int] == fuzzy_match::match_view(found@[n as int]));
        if let Some(score) = hit {
            places.push(n);
            keys.push((u32::MAX - score) as u128);
        }
        proof {
            assert forall|k: int|
                k < n + 1 && #[trigger] rows::matched_file(list, hits, k) implies exists|i: int|
                0 <= i < places@.len() && places@[i] == k by {
                if k < n {
                    let i = choose|i: int| 0 <= i < earlier.len() && earlier[i] == k;
                    assert(places@[i] == k);
                } else {
                    assert(hit is Some);
                    assert(places@[earlier.len() as int] == k);
                }
            }
        }
        n = n + 1;
    }
    let sorted = sorting::stable_order(&keys);
    proof {
        sorting::law_stable_order_permutes(sorted@, keys@);
    }
    let mut order: Vec<usize> = Vec::new();
    while order.len() < sorted.len()
        invariant
            sorted@.len() == places@.len(),
            keys@.len() == places@.len(),
            sorting::is_stable_order(sorted@, keys@),
            order@.len() <= sorted@.len(),
            forall|i: int|
                0 <= i < order@.len() ==> #[trigger] order@[i] == places@[sorted@[i] as int],
        decreases sorted@.len() - order@.len(),
    {
        let at: usize = sorted[order.len()];
        assert(sorted@[order@.len() as int] < keys@.len());
        order.push(places[at]);
    }
    proof {
        let ranking = order@;
        assert forall|i: int| 0 <= i < ranking.len() implies rows::matched_file(
            list,
            hits,
            #[trigger] ranking[i] as int,
        ) by {
            assert(sorted@[i] < places@.len());
            assert(rows::matched_file(list, hits, places@[sorted@[i] as int] as int));
        }
        assert forall|k: int| #[trigger] rows::matched_file(list, hits, k) implies exists|i: int|
            0 <= i < ranking.len() && ranking[i] == k by {
            let p = choose|p: int| 0 <= p < places@.len() && places@[p] == k;
            let i = sorting::lemma_permutation_hits(sorted@, keys@.len(), p);
            assert(ranking[i] == k);
        }
        assert forall|i: int, j: int| 0 <= i < j < ranking.len() implies outranks(
            hits,
            #[trigger] ranking[i],
            #[trigger] ranking[j],
        ) by {
            let a = sorted@[i];
            let b = sorted@[j];
            assert(sorting::precedes(keys@, a, b));
            assert(ranking[i] == places@[a as int] && ranking[j] == places@[b as int]);
            assert(rows::matched_file(list, hits, places@[a as int] as int));
            assert(rows::matched_file(list, hits, places@[b as int] as int));
        }
    }
    order
}

/// The files of the worktree that match `query`, best first; equally good ones
/// by path. A query without words lists every file.
pub fn filter_files(model: &WorktreeModel, query: &str) -> (paths: Vec<String>)
    requires
        model.wf(),
    ensures
        is_listing(query@, model@.entries, paths@),
{
    let found = rows::match_files(model, query);
    let entries = model.entries();
    let order = rank_files(entries, &found);
    let ghost list = model@.entries;
    let ghost hits = rows::matches_view(found@);
    let mut paths: Vec<String> = Vec::new();
    while paths.len() < order.len()
        invariant
            list == entries.seq(),
            is_ranking(list, hits, order@),
            paths@.len() <= order@.len(),
            forall|i: int|
                0 <= i < paths@.len() ==> (#[trigger] paths@[i])@ == list[order@[i] as int].path@,
        decreases order@.len() - paths@.len(),
    {
        let at: usize = order[paths.len()];
        assert(rows::matched_file(list, hits, order@[paths@.len() as int] as int));
        paths.push(entries.at(at).path.clone());
    }
    assert(is_ranking(list, hits, order@) && spells_out(list, order@, paths@));
    paths
}

// ---------------------------------------------------------------------------
// Laws of the ranking
// ---------------------------------------------------------------------------

/// Directories are never listed, and nothing is listed twice.
pub proof fn law_listing_holds_files_once(
    entries: Seq<WorktreeEntry>,
    found: Seq<Option<MatchView>>,
    order: Seq<usize>,
)
    requires
        is_ranking(entries, found, order),
    ensures
        forall|i: int|
            0 <= i < order.len() ==> entries[#[trigger] order[i] as int].kind == EntryKind::File,
        forall|i: int, j: int| 0 <= i < j < order.len() ==> order[i] != order[j],
{
    assert forall|i: int| 0 <= i < order.len() implies entries[#[trigger] order[i] as int].kind
        == EntryKind::File by {
        assert(rows::matched_file(entries, found, order[i] as int));
    }
    assert forall|i: int, j: int| 0 <= i < j < order.len() implies order[i] != order[j] by {
        assert(outranks(found, order[i], order[j]));
    }
}

proof fn lemma_rankings_agree(
    entries: Seq<WorktreeEntry>,
    found: Seq<Option<MatchView>>,
    a: Seq<usize>,
    b: Seq<usize>,
    n: nat,
)
    requires
        is_ranking(entries, found, a),
        is_ranking(entries, found, b),
        n <= a.len(),
    ensures
        n <= b.len(),
        forall|i: int| 0 <= i < n ==> a[i] == b[i],
    decreases n,
{
    if n > 0 {
        lemma_rankings_agree(entries, found, a, b, (n - 1) as nat);
        let i = n - 1;
        assert(rows::matched_file(entries, found, a[i] as int));
        let p = choose|p: int| 0 <= p < b.len() && b[p] == a[i];
        if p < i {
            assert(a[p] == b[p]);
            assert(outranks(found, a[p], a[i]));
        } else if p > i {
            assert(rows::matched_file(entries, found, b[i] as int));
            let q = choose|q: int| 0 <= q < a.len() && a[q] == b[i];
            assert(outranks(found, b[i], b[p]));
            if q < i {
                assert(a[q] == b[q]);
                assert(outranks(found, b[q], b[i]));
            } else if q > i {
                assert(outranks(found, a[i], a[q]));
            }
        }
    }
}

/// Given what matched, there is one ranking only.
pub proof fn law_ranking_unique(
    entries: Seq<WorktreeEntry>,
    found: Seq<Option<MatchView>>,
    a: Seq<usize>,
    b: Seq<usize>,
)
    requires
        is_ranking(entries, found, a),
        is_ranking(entries, found, b),
    ensures
        a == b,
{
    lemma_rankings_agree(entries, found, a, b, a.len());
    lemma_rankings_agree(entries, found, b, a, b.len());
    assert(a =~= b);
}

/// A query and a worktree have one listing only, where the query has no words
/// or the matcher is asked about no file whose path holds a backslash.
pub proof fn law_listing_unique(
    query: Seq<char>,
    entries: Seq<WorktreeEntry>,
    a: Seq<String>,
    b: Seq<String>,
)
    requires
        fuzzy_match::blank(query) || forall|k: int|
            0 <= k < entries.len() && (#[trigger] entries[k]).kind == EntryKind::File
                && fuzzy_match::ranked(query, entries[k].path@) ==> !entries[k].path@.contains(
                '\\',
            ),
        is_listing(query, entries, a),
        is_listing(query, entries, b),
    ensures
        a.len() == b.len(),
        forall|i: int| 0 <= i < a.len() ==> (#[trigger] a[i])@ == b[i]@,
{
    let (left, first) = choose|found: Seq<Option<MatchView>>, order: Seq<usize>|
        rows::outcomes(query, entries, found) && #[trigger] is_ranking(entries, found, order)
            && spells_out(entries, order, a);
    let (right, second) = choose|found: Seq<Option<MatchView>>, order: Seq<usize>|
        rows::outcomes(query, entries, found) && #[trigger] is_ranking(entries, found, order)
            && spells_out(entries, order, b);
    assert forall|k: int|
        0 <= k < entries.len() && (#[trigger] entries[k]).kind == EntryKind::File implies left[k]
        == right[k] by {
        fuzzy_match::law_outcome_unique(query, entries[k].path@, left[k], right[k]);
    }
    assert(is_ranking(entries, left, second)) by {
        assert forall|i: int| 0 <= i < second.len() implies rows::matched_file(
            entries,
            left,
            #[trigger] second[i] as int,
        ) by {
            assert(rows::matched_file(entries, right, second[i] as int));
        }
        assert forall|k: int| #[trigger] rows::matched_file(entries, left, k) implies exists|i: int|
            0 <= i < second.len() && second[i] == k by {
            assert(rows::matched_file(entries, right, k));
        }
        assert forall|i: int, j: int| 0 <= i < j < second.len() implies outranks(
            left,
            #[trigger] second[i],
            #[trigger] second[j],
        ) by {
            assert(rows::matched_file(entries, right, second[i] as int));
            assert(rows::matched_file(entries, right, second[j] as int));
            assert(outranks(right, second[i], second[j]));
        }
    }
    law_ranking_unique(entries, left, first, second);
    assert forall|i: int| 0 <= i < a.len() implies (#[trigger] a[i])@ == b[i]@ by {
        assert(b[i]@ == entries[second[i] as int].path@);
    }
}

/// A query without words lists every file, in path order.
pub proof fn law_blank_query_lists_every_file(
    query: Seq<char>,
    entries: Seq<WorktreeEntry>,
    found: Seq<Option<MatchView>>,
    order: Seq<usize>,
)
    requires
        fuzzy_match::blank(query),
        rows::outcomes(query, entries, found),
        is_ranking(entries, found, order),
    ensures
        forall|k: int|
            0 <= k < entries.len() && (#[trigger] entries[k]).kind == EntryKind::File ==> exists|
                i: int,
            |
                0 <= i < order.len() && order[i] == k,
        forall|i: int, j: int| 0 <= i < j < order.len() ==> order[i] < order[j],
{
    assert forall|k: int|
        0 <= k < entries.len() && (#[trigger] entries[k]).kind == EntryKind::File implies exists|
        i: int,
    |
        0 <= i < order.len() && order[i] == k by {
        assert(fuzzy_match::is_outcome(query, entries[k].path@, found[k]));
        assert(rows::matched_file(entries, found, k));
    }
    assert forall|i: int, j: int| 0 <= i < j < order.len() implies order[i] < order[j] by {
        assert(rows::matched_file(entries, found, order[i] as int));
        assert(rows::matched_file(entries, found, order[j] as int));
        let a = entries[order[i] as int];
        let b = entries[order[j] as int];
        assert(fuzzy_match::is_outcome(query, a.path@, found[order[i] as int]));
        assert(fuzzy_match::is_outcome(query, b.path@, found[order[j] as int]));
        assert(outranks(found, order[i], order[j]));
    }
}

// ---------------------------------------------------------------------------
// Dialog
// ---------------------------------------------------------------------------

/// The dialog: what is listed and which row is selected.
pub struct QuickOpen {
    matches: Vec<String>,
    selected_index: Option<usize>,
}

/// What a [`QuickOpen`] holds.
pub struct QuickOpenView {
    pub matches: Seq<String>,
    pub selected: Option<usize>,
}

impl View for QuickOpen {
    type V = QuickOpenView;

    closed spec fn view(&self) -> QuickOpenView {
        QuickOpenView { matches: self.matches@, selected: self.selected_index }
    }
}

impl QuickOpen {
    /// A dialog that has not been opened yet.
    pub fn new() -> (dialog: Self)
        ensures
            dialog@.matches == Seq::<String>::empty(),
            dialog@.selected is None,
    {
        QuickOpen { matches: Vec::new(), selected_index: None }
    }

    /// The listed paths.
    pub fn matches(&self) -> (matches: &Vec<String>)
        ensures
            matches@ == self@.matches,
    {
        &self.matches
    }

    /// How many rows are listed.
    pub fn items_count(&self) -> (count: usize)
        ensures
            count == self@.matches.len(),
    {
        self.matches.len()
    }

    /// The selected row.
    pub fn selected_index(&self) -> (row: Option<usize>)
        ensures
            row == self@.selected,
    {
        self.selected_index
    }

    /// Selects a row, or none.
    pub fn set_selected_index(&mut self, row: Option<usize>)
        ensures
            final(self)@ == (QuickOpenView { selected: row, ..old(self)@ }),
    {
        self.selected_index = row;
    }

    /// The query changed: lists what it matches.
    pub fn perform_search(&mut self, model: &WorktreeModel, query: &str)
        requires
            model.wf(),
        ensures
            is_listing(query@, model@.entries, final(self)@.matches),
            final(self)@.selected == old(self)@.selected,
    {
        self.matches = filter_files(model, query);
    }

    /// Opens the dialog afresh: the query is empty, every file is listed and
    /// the first row is selected, whatever the last search left.
    pub fn open(&mut self, model: &WorktreeModel)
        requires
            model.wf(),
        ensures
            is_listing(Seq::<char>::empty(), model@.entries, final(self)@.matches),
            final(self)@.selected == Some(0usize),
    {
        proof {
            reveal_strlit("");
            assert(""@ =~= Seq::<char>::empty());
        }
        self.matches = filter_files(model, "");
        self.selected_index = Some(0);
    }

    /// Row `row`: its path and whether it is selected; nothing beyond the list.
    pub fn present_row(&self, row: usize) -> (painted: Option<(String, bool)>)
        ensures
            painted is Some <==> row < self@.matches.len(),
            painted matches Some((path, selected)) ==> path@ == self@.matches[row as int]@
                && selected == (self@.selected == Some(row)),
    {
        if row < self.matches.len() {
            let selected: bool = match self.selected_index {
                Some(at) => at == row,
                None => false,
            };
            Some((self.matches[row].clone(), selected))
        } else {
            None
        }
    }

    /// Confirming the selection asks for the selected file to be opened;
    /// nothing where no listed row is selected.
    pub fn confirm(&self) -> (event: Option<FileTreeEvent>)
        ensures
            event is Some <==> (self@.selected is Some && self@.selected->0 < self@.matches.len()),
            event matches Some(asked) ==> (asked matches FileTreeEvent::OpenFile { path } && path@
                == self@.matches[self@.selected->0 as int]@),
    {
        match self.selected_index {
            Some(row) => if row < self.matches.len() {
                Some(FileTreeEvent::OpenFile { path: self.matches[row].clone() })
            } else {
                None
            },
            None => None,
        }
    }
}

// ---------------------------------------------------------------------------
// Laws of the calls
// ---------------------------------------------------------------------------

/// The ranking lists the files that matched, each once, a higher score before a
/// lower one and of equal scores the one whose path comes first.
pub proof fn law_files_are_ranked_by_score(
    entries: KeyedVec<WorktreeEntry>,
    found: Vec<Option<FuzzyMatch>>,
    order: Vec<usize>,
)
    requires
        found@.len() == entries.seq().len(),
        call_ensures(rank_files, (&entries, &found), order),
    ensures
        forall|i: int|
            0 <= i < order@.len() ==> #[trigger] order@[i] < entries.seq().len()
                && entries.seq()[order@[i] as int].kind is File && found@[order@[i] as int] is Some,
        forall|k: int|
            0 <= k < entries.seq().len() && (#[trigger] entries.seq()[k]).kind is File && found@[k]
                is Some ==> order@.contains(k as usize),
        forall|i: int, j: int|
            0 <= i < j < order@.len() ==> (found@[#[trigger] order@[i] as int]->0).score >= (
            found@[#[trigger] order@[j] as int]->0).score,
        forall|i: int, j: int|
            0 <= i < j < order@.len() && (found@[#[trigger] order@[i] as int]->0).score == (found@[
            #[trigger] order@[j] as int]->0).score ==> order@[i] < order@[j],
{
    let hits = rows::matches_view(found@);
    let list = entries.seq();
    assert forall|k: int| 0 <= k < found@.len() implies #[trigger] hits[k]
        == fuzzy_match::match_view(found@[k]) by {}
    assert forall|i: int| 0 <= i < order@.len() implies #[trigger] order@[i] < list.len()
        && list[order@[i] as int].kind is File && found@[order@[i] as int] is Some by {
        assert(rows::matched_file(list, hits, order@[i] as int));
        assert(hits[order@[i] as int] is Some);
    }
    assert forall|k: int|
        0 <= k < list.len() && (#[trigger] list[k]).kind is File && found@[k]
            is Some implies order@.contains(k as usize) by {
        assert(hits[k] is Some);
        assert(rows::matched_file(list, hits, k));
        let i = choose|i: int| 0 <= i < order@.len() && order@[i] == k;
        assert(order@[i] == k as usize);
    }
    assert forall|i: int, j: int| 0 <= i < j < order@.len() implies (found@[
        #[trigger] order@[i] as int]->0).score >= (found@[#[trigger] order@[j] as int]->0).score && ((
    found@[order@[i] as int]->0).score == (found@[order@[j] as int]->0).score ==> order@[i]
        < order@[j]) by {
        assert(outranks(hits, order@[i], order@[j]));
        assert(rows::matched_file(list, hits, order@[i] as int));
        assert(rows::matched_file(list, hits, order@[j] as int));
        assert(hits[order@[i] as int] is Some && hits[order@[j] as int] is Some);
    }
}

/// File `k` is listed at place `i`.
pub open spec fn listed_at(
    entries: Seq<WorktreeEntry>,
    paths: Seq<String>,
    k: int,
    i: int,
) -> bool {
    &&& 0 <= k < entries.len()
    &&& 0 <= i < paths.len()
    &&& paths[i]@ == entries[k].path@
}

/// Place `i` of the list shows a file of the tree.
pub open spec fn shows_file(entries: Seq<WorktreeEntry>, paths: Seq<String>, i: int) -> bool {
    exists|k: int| #[trigger] listed_at(entries, paths, k, i) && entries[k].kind is File
}

/// What a list of files for a query holds: files of the tree only, each once.
pub open spec fn holds_files_once(entries: Seq<WorktreeEntry>, paths: Seq<String>) -> bool {
    &&& forall|i: int| 0 <= i < paths.len() ==> #[trigger] shows_file(entries, paths, i)
    &&& forall|k: int, i: int, j: int| #[trigger]
        listed_at(entries, paths, k, i) && #[trigger] listed_at(entries, paths, k, j) ==> i == j
}

proof fn lemma_listing(query: Seq<char>, entries: Seq<WorktreeEntry>, paths: Seq<String>) -> (res: (
    Seq<Option<MatchView>>,
    Seq<usize>,
))
    requires
        is_listing(query, entries, paths),
        ordered::keys_ascend(entries),
    ensures
        rows::outcomes(query, entries, res.0),
        is_ranking(entries, res.0, res.1),
        spells_out(entries, res.1, paths),
        holds_files_once(entries, paths),
        forall|k: int, i: int| #[trigger]
            listed_at(entries, paths, k, i) ==> k == res.1[i] && rows::matched_file(
                entries,
                res.0,
                k,
            ),
{
    let (found, order) = choose|found: Seq<Option<MatchView>>, order: Seq<usize>|
        rows::outcomes(query, entries, found) && #[trigger] is_ranking(entries, found, order)
            && spells_out(entries, order, paths);
    assert forall|k: int, i: int| #[trigger] listed_at(entries, paths, k, i) implies k == order[i]
        && rows::matched_file(entries, found, k) by {
        assert(paths[i]@ == entries[order[i] as int].path@);
        assert(rows::matched_file(entries, found, order[i] as int));
        ordered::lemma_key_index(entries, k);
        ordered::lemma_key_index(entries, order[i] as int);
        assert(entries[k].key() == entries[order[i] as int].key());
    }
    assert forall|i: int| 0 <= i < paths.len() implies #[trigger] shows_file(
        entries,
        paths,
        i,
    ) by {
        assert(rows::matched_file(entries, found, order[i] as int));
        assert(listed_at(entries, paths, order[i] as int, i));
    }
    assert forall|k: int, i: int, j: int| #[trigger]
        listed_at(entries, paths, k, i) && #[trigger] listed_at(
        entries,
        paths,
        k,
        j,
    ) implies i == j by {
        if i < j {
            assert(outranks(found, order[i], order[j]));
        }
        if j < i {
            assert(outranks(found, order[j], order[i]));
        }
    }
    (found, order)
}

/// The list holds files of the tree only, each once, and a file is listed
/// exactly where the query matches its path.
pub proof fn law_list_holds_the_files_that_match(
    model: WorktreeModel,
    query: &str,
    paths: Vec<String>,
    k: int,
    path: &str,
    hit: Option<FuzzyMatch>,
)
    requires
        model.wf(),
        call_ensures(filter_files, (&model, query), paths),
        0 <= k < model@.entries.len(),
        model@.entries[k].kind is File,
        path@ == model@.entries[k].path@,
        call_ensures(fuzzy_match::fuzzy_match, (query, path), hit),
    ensures
        holds_files_once(model@.entries, paths@),
        hit is Some <==> exists|i: int| #[trigger] listed_at(model@.entries, paths@, k, i),
{
    let entries = model@.entries;
    let (found, order) = lemma_listing(query@, entries, paths@);
    fuzzy_match::law_match_settled(query@, path@, found[k], fuzzy_match::match_view(hit));
    if hit is Some {
        assert(rows::matched_file(entries, found, k));
        let i = choose|i: int| 0 <= i < order.len() && order[i] == k;
        assert(paths@[i]@ == entries[order[i] as int].path@);
        assert(listed_at(entries, paths@, k, i));
    }
}

/// Of two files on the list the one that matches better comes first. This speaks
/// of paths without a backslash.
pub proof fn law_better_match_comes_first(
    model: WorktreeModel,
    query: &str,
    paths: Vec<String>,
    i: int,
    j: int,
    better: &str,
    worse: &str,
    best: Option<FuzzyMatch>,
    next: Option<FuzzyMatch>,
)
    requires
        model.wf(),
        call_ensures(filter_files, (&model, query), paths),
        0 <= i < paths@.len(),
        0 <= j < paths@.len(),
        better@ == paths@[i]@,
        worse@ == paths@[j]@,
        !better@.contains('\\'),
        !worse@.contains('\\'),
        call_ensures(fuzzy_match::fuzzy_match, (query, better), best),
        call_ensures(fuzzy_match::fuzzy_match, (query, worse), next),
    ensures
        best is Some && next is Some,
        (best->0).score > (next->0).score ==> i < j,
        (best->0).score == (next->0).score && text::text_lt(better@, worse@) ==> i < j,
{
    let entries = model@.entries;
    let (found, order) = lemma_listing(query@, entries, paths@);
    assert(shows_file(entries, paths@, i) && shows_file(entries, paths@, j));
    let a = choose|k: int| #[trigger]
        listed_at(entries, paths@, k, i) && entries[k].kind is File;
    let b = choose|k: int| #[trigger]
        listed_at(entries, paths@, k, j) && entries[k].kind is File;
    assert(rows::matched_file(entries, found, a) && rows::matched_file(entries, found, b));
    fuzzy_match::law_outcome_unique(query@, better@, found[a], fuzzy_match::match_view(best));
    fuzzy_match::law_outcome_unique(query@, worse@, found[b], fuzzy_match::match_view(next));
    if j < i {
        assert(outranks(found, order[j], order[i]));
        if text::text_lt(better@, worse@) && b < a {
            assert(text::text_lt(entries[b].key(), entries[a].key()));
            text::lemma_text_lt_asymmetric(better@, worse@);
        }
    }
    if i == j {
        text::lemma_text_lt_irreflexive(better@);
    }
}

/// The dialog lists what its query finds, and starts with every file and the
/// first row selected.
pub proof fn law_dialog_lists_what_is_searched(
    searched: &mut QuickOpen,
    opened: &mut QuickOpen,
    model: WorktreeModel,
    query: &str,
    k: int,
    path: &str,
    hit: Option<FuzzyMatch>,
)
    requires
        model.wf(),
        call_ensures(QuickOpen::perform_search, (searched, &model, query), ()),
        call_ensures(QuickOpen::open, (opened, &model), ()),
        0 <= k < model@.entries.len(),
        model@.entries[k].kind is File,
        path@ == model@.entries[k].path@,
        call_ensures(fuzzy_match::fuzzy_match, (query, path), hit),
    ensures
        holds_files_once(model@.entries, final(searched)@.matches),
        hit is Some <==> exists|i: int| #[trigger]
            listed_at(model@.entries, final(searched)@.matches, k, i),
        final(searched)@.selected == old(searched)@.selected,
        holds_files_once(model@.entries, final(opened)@.matches),
        exists|i: int| #[trigger] listed_at(model@.entries, final(opened)@.matches, k, i),
        final(opened)@.selected == Some(0usize),
{
    let entries = model@.entries;
    let (found, order) = lemma_listing(query@, entries, final(searched)@.matches);
    fuzzy_match::law_match_settled(query@, path@, found[k], fuzzy_match::match_view(hit));
    if hit is Some {
        assert(rows::matched_file(entries, found, k));
        let i = choose|i: int| 0 <= i < order.len() && order[i] == k;
        assert(final(searched)@.matches[i]@ == entries[order[i] as int].path@);
        assert(listed_at(entries, final(searched)@.matches, k, i));
    }
    let none = Seq::<char>::empty();
    let (all, whole) = lemma_listing(none, entries, final(opened)@.matches);
    assert(fuzzy_match::blank(none));
    law_blank_query_lists_every_file(none, entries, all, whole);
    let i = choose|i: int| 0 <= i < whole.len() && whole[i] == k;
    assert(final(opened)@.matches[i]@ == entries[whole[i] as int].path@);
    assert(listed_at(entries, final(opened)@.matches, k, i));
}

/// The freshly opened dialog lists the files in path order.
pub proof fn law_opened_dialog_lists_in_path_order(
    dialog: &mut QuickOpen,
    model: WorktreeModel,
    i: int,
    j: int,
)
    requires
        model.wf(),
        call_ensures(QuickOpen::open, (dialog, &model), ()),
        0 <= i < j < final(dialog)@.matches.len(),
    ensures
        text::text_lt(final(dialog)@.matches[i]@, final(dialog)@.matches[j]@),
{
    let entries = model@.entries;
    let none = Seq::<char>::empty();
    let paths = final(dialog)@.matches;
    let (all, whole) = lemma_listing(none, entries, paths);
    assert(fuzzy_match::blank(none));
    law_blank_query_lists_every_file(none, entries, all, whole);
    assert(whole[i] < whole[j]);
    assert(rows::matched_file(entries, all, whole[i] as int));
    assert(rows::matched_file(entries, all, whole[j] as int));
    assert(paths[i]@ == entries[whole[i] as int].path@);
    assert(paths[j]@ == entries[whole[j] as int].path@);
    assert(text::text_lt(entries[whole[i] as int].key(), entries[whole[j] as int].key()));
}

/// What is confirmed is the row that is painted as selected, and one row is at
/// most.
pub proof fn law_selected_row_is_opened(
    dialog: &mut QuickOpen,
    at: Option<usize>,
    row: usize,
    painted: Option<(String, bool)>,
    event: Option<FileTreeEvent>,
    count: usize,
    told: Option<usize>,
)
    requires
        call_ensures(QuickOpen::set_selected_index, (dialog, at), ()),
        call_ensures(QuickOpen::present_row, (final(dialog), row), painted),
        call_ensures(QuickOpen::confirm, (final(dialog),), event),
        call_ensures(QuickOpen::items_count, (final(dialog),), count),
        call_ensures(QuickOpen::selected_index, (final(dialog),), told),
    ensures
        final(dialog)@.matches == old(dialog)@.matches,
        told == at,
        count == old(dialog)@.matches.len(),
        painted is Some <==> row < count,
        painted matches Some((path, selected)) ==> {
            &&& path@ == old(dialog)@.matches[row as int]@
            &&& selected <==> at == Some(row)
            &&& selected ==> (event matches Some(FileTreeEvent::OpenFile { path: asked }) && asked@
                == path@)
        },
        at is None || at->0 >= count ==> event is None,
{
}

} // verus!
