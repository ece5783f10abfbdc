//! The problems panel: every file's diagnostics, grouped, sorted and counted.

use vstd::prelude::*;

use crate::file_tree::presentation;
use crate::file_tree::presentation::Tone;
use crate::ordered;
use crate::ordered::{Keyed, KeyedVec};
use crate::protocol::{Diagnostic, DiagnosticSeverity, Range};
use crate::sorting;
use crate::text;
use crate::worktree::{FileDiagnostics, ServerDiagnostics, WorktreeModel};

verus! {

/// The identity of the problems panel in a saved layout.
pub const PROBLEMS_PANEL_NAME: &'static str = "problems";

/// What the panel shows in place of rows where there are none.
pub const NO_PROBLEMS: &'static str = "No problems";

/// What the panel asks of the rest of the shell.
#[derive(Debug, PartialEq, Eq)]
pub enum ProblemsPanelEvent {
    /// Jump to `range` in the file at the root-relative `path`.
    OpenLocation { path: String, range: Range },
}

// ---------------------------------------------------------------------------
// Counts
// ---------------------------------------------------------------------------

/// The place of a severity in the list: errors first.
pub open spec fn ordinal_of(severity: DiagnosticSeverity) -> int {
    match severity {
        DiagnosticSeverity::Error => 0,
        DiagnosticSeverity::Warning => 1,
        DiagnosticSeverity::Information => 2,
        DiagnosticSeverity::Hint => 3,
    }
}

/// The place of a severity in the list: errors first.
pub fn severity_ordinal(severity: DiagnosticSeverity) -> (ordinal: u8)
    ensures
        ordinal == ordinal_of(severity),
{
    match severity {
        DiagnosticSeverity::Error => 0,
        DiagnosticSeverity::Warning => 1,
        DiagnosticSeverity::Information => 2,
        DiagnosticSeverity::Hint => 3,
    }
}

/// How many of `items` have a severity.
pub open spec fn severity_count(items: Seq<Diagnostic>, severity: DiagnosticSeverity) -> int {
    sorting::tally(
        items,
        |item: Diagnostic|
            if item.severity == severity {
                1int
            } else {
                0int
            },
    )
}

/// The number of diagnostics of each severity.
#[derive(Clone, Copy, Debug, PartialEq, Eq, Structural)]
pub struct SeverityCounts {
    pub errors: usize,
    pub warnings: usize,
    pub infos: usize,
    pub hints: usize,
}

impl Default for SeverityCounts {
    fn default() -> (counts: Self)
        ensures
            counts == (SeverityCounts { errors: 0, warnings: 0, infos: 0, hints: 0 }),
    {
        SeverityCounts { errors: 0, warnings: 0, infos: 0, hints: 0 }
    }
}

/// `counts` counts `items`.
pub open spec fn counts_match(counts: SeverityCounts, items: Seq<Diagnostic>) -> bool {
    &&& counts.errors == severity_count(items, DiagnosticSeverity::Error)
    &&& counts.warnings == severity_count(items, DiagnosticSeverity::Warning)
    &&& counts.infos == severity_count(items, DiagnosticSeverity::Information)
    &&& counts.hints == severity_count(items, DiagnosticSeverity::Hint)
}

/// The ordinal of the worst severity counted.
pub open spec fn worst_of_counts(counts: SeverityCounts) -> u8 {
    if counts.errors > 0 {
        0
    } else if counts.warnings > 0 {
        1
    } else if counts.infos > 0 {
        2
    } else {
        3
    }
}

proof fn lemma_count_bounds(items: Seq<Diagnostic>)
    ensures
        forall|severity: DiagnosticSeverity|
            0 <= #[trigger] severity_count(items, severity) <= items.len(),
    decreases items.len(),
{
    if items.len() > 0 {
        lemma_count_bounds(items.drop_last());
        assert forall|severity: DiagnosticSeverity| 0 <= #[trigger] severity_count(items, severity)
            <= items.len() by {
            assert(0 <= severity_count(items.drop_last(), severity) <= items.len() - 1);
        }
    }
}

impl SeverityCounts {
    /// Counts `items`.
    pub fn from_diagnostics(items: &Vec<Diagnostic>) -> (counts: Self)
        ensures
            counts_match(counts, items@),
    {
        let mut counts = SeverityCounts { errors: 0, warnings: 0, infos: 0, hints: 0 };
        let mut i: usize = 0;
        while i < items.len()
            invariant
                i <= items.len(),
                counts_match(counts, items@.take(i as int)),
            decreases items.len() - i,
        {
            let ghost now = items@.take(i + 1);
            proof {
                assert(now.drop_last() =~= items@.take(i as int));
                assert(now.last() == items@[i as int]);
                lemma_count_bounds(items@.take(i as int));
                assert(0 <= severity_count(items@.take(i as int), DiagnosticSeverity::Error) <= i);
                assert(0 <= severity_count(items@.take(i as int), DiagnosticSeverity::Warning)
                    <= i);
                assert(0 <= severity_count(
                    items@.take(i as int),
                    DiagnosticSeverity::Information,
                ) <= i);
                assert(0 <= severity_count(items@.take(i as int), DiagnosticSeverity::Hint) <= i);
            }
            match items[i].severity {
                DiagnosticSeverity::Error => {
                    counts.errors = counts.errors + 1;
                },
                DiagnosticSeverity::Warning => {
                    counts.warnings = counts.warnings + 1;
                },
                DiagnosticSeverity::Information => {
                    counts.infos = counts.infos + 1;
                },
                DiagnosticSeverity::Hint => {
                    counts.hints = counts.hints + 1;
                },
            }
            i = i + 1;
        }
        proof {
            assert(items@.take(i as int) =~= items@);
        }
        counts
    }

    /// Adds `other` in each severity.
    pub fn add(&mut self, other: &Self)
        requires
            old(self).errors + other.errors <= usize::MAX,
            old(self).warnings + other.warnings <= usize::MAX,
            old(self).infos + other.infos <= usize::MAX,
            old(self).hints + other.hints <= usize::MAX,
        ensures
            final(self).errors == old(self).errors + other.errors,
            final(self).warnings == old(self).warnings + other.warnings,
            final(self).infos == old(self).infos + other.infos,
            final(self).hints == old(self).hints + other.hints,
    {
        self.errors = self.errors + other.errors;
        self.warnings = self.warnings + other.warnings;
        self.infos = self.infos + other.infos;
        self.hints = self.hints + other.hints;
    }

    /// The ordinal of the worst severity counted, by which files are sorted.
    pub fn worst_ordinal(&self) -> (ordinal: u8)
        ensures
            ordinal == worst_of_counts(*self),
    {
        if self.errors > 0 {
            0
        } else if self.warnings > 0 {
            1
        } else if self.infos > 0 {
            2
        } else {
            3
        }
    }
}

// ---------------------------------------------------------------------------
// Groups
// ---------------------------------------------------------------------------

/// One file's diagnostics, sorted, with their counts.
#[derive(Debug, PartialEq, Eq)]
pub struct ProblemGroup {
    pub path: String,
    pub diagnostics: Vec<Diagnostic>,
    pub counts: SeverityCounts,
}

/// Every file's group, worst first, and the counts over all of them.
#[derive(Debug, PartialEq, Eq)]
pub struct ProblemsSummary {
    pub groups: Vec<ProblemGroup>,
    pub totals: SeverityCounts,
}

/// What all servers report, server by server.
pub open spec fn flattened(servers: Seq<ServerDiagnostics>) -> Seq<Diagnostic>
    decreases servers.len(),
{
    if servers.len() == 0 {
        Seq::empty()
    } else {
        flattened(servers.drop_last()) + servers.last().items@
    }
}

/// Everything reported for a file, in the order of the servers.
pub open spec fn reported_for(file: FileDiagnostics) -> Seq<Diagnostic> {
    flattened(file.servers.seq())
}

/// The sort key of a diagnostic: severity first, then line, then character.
pub open spec fn problem_key(item: Diagnostic) -> int {
    ordinal_of(item.severity) * 0x1_0000_0000_0000_0000 + item.range.start.line * 0x1_0000_0000
        + item.range.start.character
}

/// The sort keys of `items`.
pub open spec fn problem_keys(items: Seq<Diagnostic>) -> Seq<u128> {
    items.map_values(|item: Diagnostic| problem_key(item) as u128)
}

/// `sorted` is `items` by severity, then line, then character; what ties keeps
/// its order.
pub open spec fn sorted_problems(sorted: Seq<Diagnostic>, items: Seq<Diagnostic>) -> bool {
    exists|order: Seq<usize>|
        sorting::is_stable_order(order, problem_keys(items)) && sorted
            == #[trigger] sorting::arranged(items, order)
}

/// `group` is the group of `file`.
pub open spec fn group_of(file: FileDiagnostics, group: ProblemGroup) -> bool {
    &&& group.path@ == file.path@
    &&& sorted_problems(group.diagnostics@, reported_for(file))
    &&& counts_match(group.counts, group.diagnostics@)
}

/// The ordinal of the worst severity among `items`.
pub open spec fn worst_of_items(items: Seq<Diagnostic>) -> u8 {
    if severity_count(items, DiagnosticSeverity::Error) > 0 {
        0
    } else if severity_count(items, DiagnosticSeverity::Warning) > 0 {
        1
    } else if severity_count(items, DiagnosticSeverity::Information) > 0 {
        2
    } else {
        3
    }
}

/// The sort keys of `files`: the worst severity of each.
pub open spec fn file_keys(files: Seq<FileDiagnostics>) -> Seq<u128> {
    files.map_values(|file: FileDiagnostics| worst_of_items(reported_for(file)) as u128)
}

/// The number of diagnostics in `files`.
pub open spec fn problem_total(files: Seq<FileDiagnostics>) -> int {
    sorting::tally(files, |file: FileDiagnostics| reported_for(file).len() as int)
}

/// `totals` is the sum of the counts of `groups`.
pub open spec fn totals_match(totals: SeverityCounts, groups: Seq<ProblemGroup>) -> bool {
    &&& totals.errors == sorting::tally(groups, |group: ProblemGroup| group.counts.errors as int)
    &&& totals.warnings == sorting::tally(
        groups,
        |group: ProblemGroup| group.counts.warnings as int,
    )
    &&& totals.infos == sorting::tally(groups, |group: ProblemGroup| group.counts.infos as int)
    &&& totals.hints == sorting::tally(groups, |group: ProblemGroup| group.counts.hints as int)
}

/// `groups` are the groups of `files`: by worst severity, equal ones in the
/// order of the files.
pub open spec fn grouped(groups: Seq<ProblemGroup>, files: Seq<FileDiagnostics>) -> bool {
    exists|order: Seq<usize>|
        #[trigger] sorting::is_stable_order(order, file_keys(files)) && groups_follow(
            groups,
            files,
            order,
        )
}

/// The groups are those of the files that `order` lists, one by one.
pub open spec fn groups_follow(
    groups: Seq<ProblemGroup>,
    files: Seq<FileDiagnostics>,
    order: Seq<usize>,
) -> bool {
    &&& groups.len() == order.len()
    &&& forall|i: int|
        0 <= i < groups.len() ==> group_of(files[order[i] as int], #[trigger] groups[i])
}

/// `summary` summarises `files`.
pub open spec fn summarises(summary: ProblemsSummary, files: Seq<FileDiagnostics>) -> bool {
    grouped(summary.groups@, files) && totals_match(summary.totals, summary.groups@)
}

fn flatten(file: &FileDiagnostics) -> (items: Vec<Diagnostic>)
    ensures
        items@ == reported_for(*file),
{
    let ghost servers = file.servers.seq();
    let mut items: Vec<Diagnostic> = Vec::new();
    let mut s: usize = 0;
    while s < file.servers.len()
        invariant
            s <= servers.len(),
            servers == file.servers.seq(),
            items@ == flattened(servers.take(s as int)),
        decreases servers.len() - s,
    {
        let server = file.servers.at(s);
        let ghost before = items@;
        let mut i: usize = 0;
        while i < server.items.len()
            invariant
                i <= server.items@.len(),
                items@ == before + server.items@.take(i as int),
            decreases server.items@.len() - i,
        {
            items.push(server.items[i].clone());
            proof {
                assert(before + server.items@.take(i + 1) =~= (before + server.items@.take(
                    i as int,
                )).push(server.items@[i as int]));
            }
            i = i + 1;
        }
        proof {
            assert(server.items@.take(i as int) =~= server.items@);
            assert(servers.take(s + 1).drop_last() =~= servers.take(s as int));
        }
        s = s + 1;
    }
    proof {
        assert(servers.take(s as int) =~= servers);
    }
    items
}

/// Sorts the diagnostics of one file.
pub fn sort_problems(items: &Vec<Diagnostic>) -> (sorted: Vec<Diagnostic>)
    ensures
        sorted_problems(sorted@, items@),
{
    let mut keys: Vec<u128> = Vec::new();
    while keys.len() < items.len()
        invariant
            keys@.len() <= items@.len(),
            keys@ == problem_keys(items@).take(keys@.len() as int),
        decreases items@.len() - keys@.len(),
    {
        let ghost n = keys@.len() as int;
        let item = &items[keys.len()];
        let ordinal: u128 = severity_ordinal(item.severity) as u128;
        let line: u128 = item.range.start.line as u128;
        let character: u128 = item.range.start.character as u128;
        let key: u128 = ordinal * 0x1_0000_0000_0000_0000 + line * 0x1_0000_0000 + character;
        keys.push(key);
        proof {
            assert(problem_keys(items@)[n] == key);
            assert(problem_keys(items@).take(n + 1) =~= problem_keys(items@).take(n).push(key));
        }
    }
    proof {
        assert(problem_keys(items@).take(keys@.len() as int) =~= problem_keys(items@));
    }
    let order = sorting::stable_order(&keys);
    let mut sorted: Vec<Diagnostic> = Vec::new();
    while sorted.len() < order.len()
        invariant
            sorting::is_stable_order(order@, problem_keys(items@)),
            sorted@.len() <= order@.len(),
            sorted@ == sorting::arranged(items@, order@).take(sorted@.len() as int),
        decreases order@.len() - sorted@.len(),
    {
        let ghost n = sorted@.len() as int;
        let at: usize = order[sorted.len()];
        assert(order@[n] < items@.len());
        sorted.push(items[at].clone());
        proof {
            let all = sorting::arranged(items@, order@);
            assert(all.take(n + 1) =~= all.take(n).push(all[n]));
        }
    }
    proof {
        let all = sorting::arranged(items@, order@);
        assert(all.take(sorted@.len() as int) =~= all);
    }
    sorted
}

proof fn lemma_sorted_keeps_counts(
    sorted: Seq<Diagnostic>,
    items: Seq<Diagnostic>,
    counts: SeverityCounts,
)
    requires
        sorted_problems(sorted, items),
        counts_match(counts, items),
    ensures
        counts_match(counts, sorted),
{
    let order = choose|order: Seq<usize>|
        sorting::is_stable_order(order, problem_keys(items)) && sorted
            == #[trigger] sorting::arranged(items, order);
    sorting::law_stable_order_permutes(order, problem_keys(items));
    let e = DiagnosticSeverity::Error;
    let w = DiagnosticSeverity::Warning;
    let n = DiagnosticSeverity::Information;
    let h = DiagnosticSeverity::Hint;
    lemma_sorted_count(sorted, items, order, e);
    lemma_sorted_count(sorted, items, order, w);
    lemma_sorted_count(sorted, items, order, n);
    lemma_sorted_count(sorted, items, order, h);
}

proof fn lemma_sorted_count(
    sorted: Seq<Diagnostic>,
    items: Seq<Diagnostic>,
    order: Seq<usize>,
    severity: DiagnosticSeverity,
)
    requires
        sorting::is_permutation(order, items.len()),
        sorted == sorting::arranged(items, order),
    ensures
        severity_count(sorted, severity) == severity_count(items, severity),
{
    sorting::law_tally_ignores_order(
        items,
        order,
        |item: Diagnostic|
            if item.severity == severity {
                1int
            } else {
                0int
            },
    );
}

/// The sum of one severity's counts over `groups` is at most the number of
/// diagnostics in the files they come from.
proof fn lemma_totals_bounded(
    groups: Seq<ProblemGroup>,
    files: Seq<FileDiagnostics>,
    order: Seq<usize>,
    n: nat,
    pick: spec_fn(ProblemGroup) -> int,
)
    requires
        sorting::is_permutation(order, files.len()),
        n <= groups.len() <= order.len(),
        forall|i: int|
            0 <= i < groups.len() ==> {
                let size = reported_for(files[order[i] as int]).len();
                0 <= #[trigger] pick(groups[i]) <= size
            },
    ensures
        0 <= sorting::tally(groups.take(n as int), pick) <= problem_total(files),
{
    let size = |file: FileDiagnostics| reported_for(file).len() as int;
    let all = sorting::arranged(files, order);
    sorting::law_tally_ignores_order(files, order, size);
    lemma_tally_dominated(groups, all, n, pick, size);
    lemma_tally_prefix(all, n, size);
}

proof fn lemma_tally_dominated(
    groups: Seq<ProblemGroup>,
    files: Seq<FileDiagnostics>,
    n: nat,
    pick: spec_fn(ProblemGroup) -> int,
    size: spec_fn(FileDiagnostics) -> int,
)
    requires
        n <= groups.len() <= files.len(),
        forall|i: int|
            0 <= i < groups.len() ==> 0 <= #[trigger] pick(groups[i]) <= size(files[i]),
    ensures
        0 <= sorting::tally(groups.take(n as int), pick) <= sorting::tally(
            files.take(n as int),
            size,
        ),
    decreases n,
{
    if n > 0 {
        lemma_tally_dominated(groups, files, (n - 1) as nat, pick, size);
        assert(groups.take(n as int).drop_last() =~= groups.take(n - 1));
        assert(files.take(n as int).drop_last() =~= files.take(n - 1));
        assert(0 <= pick(groups[n - 1]) <= size(files[n - 1]));
    } else {
        assert(groups.take(0).len() == 0 && files.take(0).len() == 0);
    }
}

proof fn lemma_tally_prefix(
    files: Seq<FileDiagnostics>,
    n: nat,
    size: spec_fn(FileDiagnostics) -> int,
)
    requires
        n <= files.len(),
        forall|file: FileDiagnostics| 0 <= #[trigger] size(file),
    ensures
        sorting::tally(files.take(n as int), size) <= sorting::tally(files, size),
    decreases files.len(),
{
    if n == files.len() {
        assert(files.take(n as int) =~= files);
    } else {
        lemma_tally_prefix(files.drop_last(), n, size);
        assert(files.drop_last().take(n as int) =~= files.take(n as int));
        assert(0 <= size(files.last()));
    }
}

/// Each count is at most `n`.
pub open spec fn counts_at_most(counts: SeverityCounts, n: nat) -> bool {
    counts.errors <= n && counts.warnings <= n && counts.infos <= n && counts.hints <= n
}

/// Adds the counts of all groups up.
fn sum_groups(
    groups: &Vec<ProblemGroup>,
    Ghost(files): Ghost<Seq<FileDiagnostics>>,
    Ghost(order): Ghost<Seq<usize>>,
) -> (totals: SeverityCounts)
    requires
        sorting::is_permutation(order, files.len()),
        groups_follow(groups@, files, order),
        problem_total(files) <= usize::MAX,
    ensures
        totals_match(totals, groups@),
{
    let mut totals = SeverityCounts { errors: 0, warnings: 0, infos: 0, hints: 0 };
    let mut i: usize = 0;
    let ghost pick_e = |group: ProblemGroup| group.counts.errors as int;
    let ghost pick_w = |group: ProblemGroup| group.counts.warnings as int;
    let ghost pick_n = |group: ProblemGroup| group.counts.infos as int;
    let ghost pick_h = |group: ProblemGroup| group.counts.hints as int;
    proof {
        assert forall|k: int| 0 <= k < groups@.len() implies counts_at_most(
            (#[trigger] groups@[k]).counts,
            reported_for(files[order[k] as int]).len(),
        ) by {
            let group = groups@[k];
            assert(group_of(files[order[k] as int], group));
            let items = group.diagnostics@;
            lemma_count_bounds(items);
            assert(severity_count(items, DiagnosticSeverity::Error) <= items.len());
            assert(severity_count(items, DiagnosticSeverity::Warning) <= items.len());
            assert(severity_count(items, DiagnosticSeverity::Information) <= items.len());
            assert(severity_count(items, DiagnosticSeverity::Hint) <= items.len());
        }
    }
    while i < groups.len()
        invariant
            i <= groups@.len(),
            sorting::is_permutation(order, files.len()),
            groups@.len() <= order.len(),
            problem_total(files) <= usize::MAX,
            pick_e == (|group: ProblemGroup| group.counts.errors as int),
            pick_w == (|group: ProblemGroup| group.counts.warnings as int),
            pick_n == (|group: ProblemGroup| group.counts.infos as int),
            pick_h == (|group: ProblemGroup| group.counts.hints as int),
            forall|k: int|
                0 <= k < groups@.len() ==> counts_at_most(
                    (#[trigger] groups@[k]).counts,
                    reported_for(files[order[k] as int]).len(),
                ),
            totals.errors == sorting::tally(groups@.take(i as int), pick_e),
            totals.warnings == sorting::tally(groups@.take(i as int), pick_w),
            totals.infos == sorting::tally(groups@.take(i as int), pick_n),
            totals.hints == sorting::tally(groups@.take(i as int), pick_h),
        decreases groups@.len() - i,
    {
        proof {
            let now = groups@.take(i + 1);
            assert(now.drop_last() =~= groups@.take(i as int));
            assert(now.last() == groups@[i as int]);
            let n = (i + 1) as nat;
            lemma_totals_bounded(groups@, files, order, n, pick_e);
            lemma_totals_bounded(groups@, files, order, n, pick_w);
            lemma_totals_bounded(groups@, files, order, n, pick_n);
            lemma_totals_bounded(groups@, files, order, n, pick_h);
        }
        totals.add(&groups[i].counts);
        i = i + 1;
    }
    proof {
        assert(groups@.take(i as int) =~= groups@);
    }
    totals
}

impl ProblemsSummary {
    /// Groups, sorts and counts the diagnostics of every file. Files with errors
    /// come first; a file needs no entry in the tree to be listed.
    pub fn from_diagnostics(diagnostics: &KeyedVec<FileDiagnostics>) -> (summary: Self)
        requires
            problem_total(diagnostics.seq()) <= usize::MAX,
        ensures
            summarises(summary, diagnostics.seq()),
    {
        let ghost files = diagnostics.seq();
        let mut reports: Vec<Vec<Diagnostic>> = Vec::new();
        let mut counts: Vec<SeverityCounts> = Vec::new();
        let mut keys: Vec<u128> = Vec::new();
        let mut i: usize = 0;
        while i < diagnostics.len()
            invariant
                files == diagnostics.seq(),
                i <= files.len(),
                reports@.len() == i,
                counts@.len() == i,
                keys@.len() == i,
                forall|k: int|
                    0 <= k < i ==> {
                        &&& (#[trigger] reports@[k])@ == reported_for(files[k])
                        &&& counts_match(counts@[k], reported_for(files[k]))
                        &&& keys@[k] == file_keys(files)[k]
                    },
            decreases files.len() - i,
        {
            let report = flatten(diagnostics.at(i));
            let count = SeverityCounts::from_diagnostics(&report);
            let worst: u8 = count.worst_ordinal();
            keys.push(worst as u128);
            counts.push(count);
            reports.push(report);
            proof {
                assert(file_keys(files)[i as int] == worst_of_items(reported_for(
                    files[i as int],
                )) as u128);
            }
            i = i + 1;
        }
        proof {
            assert forall|k: int| 0 <= k < keys@.len() implies keys@[k] == file_keys(files)[k] by {
                assert(reports@[k]@ == reported_for(files[k]));
            }
            assert(keys@ =~= file_keys(files));
        }
        let order = sorting::stable_order(&keys);
        let mut groups: Vec<ProblemGroup> = Vec::new();
        while groups.len() < order.len()
            invariant
                files == diagnostics.seq(),
                sorting::is_stable_order(order@, file_keys(files)),
                groups@.len() <= order@.len(),
                reports@.len() == files.len(),
                counts@.len() == files.len(),
                forall|k: int|
                    0 <= k < files.len() ==> {
                        &&& (#[trigger] reports@[k])@ == reported_for(files[k])
                        &&& counts_match(counts@[k], reported_for(files[k]))
                    },
                forall|k: int|
                    0 <= k < groups@.len() ==> group_of(
                        files[order@[k] as int],
                        #[trigger] groups@[k],
                    ),
            decreases order@.len() - groups@.len(),
        {
            let at: usize = order[groups.len()];
            assert(order@[groups@.len() as int] < file_keys(files).len());
            let sorted = sort_problems(&reports[at]);
            proof {
                assert(reports@[at as int]@ == reported_for(files[at as int]));
                lemma_sorted_keeps_counts(
                    sorted@,
                    reported_for(files[at as int]),
                    counts@[at as int],
                );
            }
            let path = diagnostics.at(at).path.clone();
            groups.push(ProblemGroup { path, diagnostics: sorted, counts: counts[at] });
        }
        proof {
            sorting::law_stable_order_permutes(order@, file_keys(files));
        }
        let totals = sum_groups(&groups, Ghost(files), Ghost(order@));
        ProblemsSummary { groups, totals }
    }
}

// ---------------------------------------------------------------------------
// Texts
// ---------------------------------------------------------------------------

/// A count and its noun, with an `s` unless the count is one.
pub open spec fn plural_text(count: nat, noun: Seq<char>) -> Seq<char> {
    text::decimal_text(count).push(' ') + noun + if count == 1 {
        Seq::<char>::empty()
    } else {
        seq!['s']
    }
}

/// A count and its noun: `1 error`, `2 errors`.
pub fn pluralize(count: usize, noun: &str) -> (line: String)
    ensures
        line@ == plural_text(count as nat, noun@),
{
    let mut line = text::decimal(count as u64);
    line.push(' ');
    line.append(noun);
    if count != 1 {
        line.push('s');
        proof {
            let before = text::decimal_text(count as nat).push(' ') + noun@;
            assert(before.push('s') =~= before + seq!['s']);
        }
    } else {
        proof {
            assert(line@ =~= plural_text(count as nat, noun@));
        }
    }
    line
}

/// The line of the summary and of each file: errors and warnings.
pub open spec fn counts_text(counts: SeverityCounts) -> Seq<char> {
    plural_text(counts.errors as nat, "error"@) + ", "@ + plural_text(
        counts.warnings as nat,
        "warning"@,
    )
}

/// The line of the summary and of each file: `N errors, M warnings`.
pub fn counts_line(counts: &SeverityCounts) -> (line: String)
    ensures
        line@ == counts_text(*counts),
{
    let mut line = pluralize(counts.errors, "error");
    line.append(", ");
    let warnings = pluralize(counts.warnings, "warning");
    line.append(warnings.as_str());
    line
}

/// The label of a diagnostic: its source in brackets, its message, and its code
/// in parentheses.
pub open spec fn label_text(item: Diagnostic) -> Seq<char> {
    let source = match item.source {
        Some(source) => seq!['['] + source@ + "] "@,
        None => Seq::<char>::empty(),
    };
    let code = match item.code {
        Some(code) => " ("@ + code@ + seq![')'],
        None => Seq::<char>::empty(),
    };
    source + item.message@ + code
}

/// The label of a diagnostic.
pub fn entry_label(item: &Diagnostic) -> (label: String)
    ensures
        label@ == label_text(*item),
{
    let mut label = String::new();
    if let Some(source) = &item.source {
        label.push('[');
        label.append(source.as_str());
        label.append("] ");
        proof {
            assert(label@ =~= seq!['['] + source@ + "] "@);
        }
    }
    label.append(item.message.as_str());
    if let Some(code) = &item.code {
        label.append(" (");
        label.append(code.as_str());
        label.push(')');
    }
    proof {
        assert(label@ =~= label_text(*item));
    }
    label
}

/// The place of a diagnostic, counted from one: `line:column`.
pub open spec fn place_text(item: Diagnostic) -> Seq<char> {
    text::decimal_text((item.range.start.line + 1) as nat).push(':') + text::decimal_text(
        (item.range.start.character + 1) as nat,
    )
}

/// The place of a diagnostic, counted from one.
pub fn entry_place(item: &Diagnostic) -> (place: String)
    requires
        item.range.start.line < u32::MAX,
        item.range.start.character < u32::MAX,
    ensures
        place@ == place_text(*item),
{
    let line: u32 = item.range.start.line + 1;
    let character: u32 = item.range.start.character + 1;
    let mut place = text::decimal(line as u64);
    place.push(':');
    let column = text::decimal(character as u64);
    place.append(column.as_str());
    place
}

// ---------------------------------------------------------------------------
// Rows
// ---------------------------------------------------------------------------

/// One row of the panel: a file, or one of its diagnostics.
#[derive(Debug, PartialEq, Eq)]
pub enum ProblemRow {
    Header { path: String, counts: SeverityCounts },
    Entry { path: String, diagnostic: Diagnostic },
}

/// The rows of a group: its file, then its diagnostics in order.
pub open spec fn group_rows(group: ProblemGroup) -> Seq<ProblemRow> {
    seq![ProblemRow::Header { path: group.path, counts: group.counts }] + Seq::new(
        group.diagnostics@.len(),
        |i: int| ProblemRow::Entry { path: group.path, diagnostic: group.diagnostics@[i] },
    )
}

/// The rows of all groups, group by group.
pub open spec fn problem_rows(groups: Seq<ProblemGroup>) -> Seq<ProblemRow>
    decreases groups.len(),
{
    if groups.len() == 0 {
        Seq::empty()
    } else {
        problem_rows(groups.drop_last()) + group_rows(groups.last())
    }
}

/// How a row is painted.
#[derive(Debug, PartialEq, Eq)]
pub enum ProblemPresentation {
    Header { path: String, counts: String },
    Entry { dot: Tone, place: String, label: String },
}

/// The place of the row can be counted from one.
pub open spec fn place_fits(row: ProblemRow) -> bool {
    match row {
        ProblemRow::Header { path, counts } => true,
        ProblemRow::Entry { path, diagnostic } => diagnostic.range.start.line < u32::MAX
            && diagnostic.range.start.character < u32::MAX,
    }
}

impl ProblemRow {
    /// How the row is painted.
    pub fn present(&self) -> (painted: ProblemPresentation)
        requires
            place_fits(*self),
        ensures
            match (*self, painted) {
                (
                    ProblemRow::Header { path, counts },
                    ProblemPresentation::Header { path: shown, counts: line },
                ) => shown@ == path@ && line@ == counts_text(counts),
                (
                    ProblemRow::Entry { path, diagnostic },
                    ProblemPresentation::Entry { dot, place, label },
                ) => {
                    &&& dot == presentation::severity_tone(diagnostic.severity)
                    &&& place@ == place_text(diagnostic)
                    &&& label@ == label_text(diagnostic)
                },
                _ => false,
            },
    {
        match self {
            ProblemRow::Header { path, counts } => ProblemPresentation::Header {
                path: path.clone(),
                counts: counts_line(counts),
            },
            ProblemRow::Entry { path: _, diagnostic } => ProblemPresentation::Entry {
                dot: presentation::tone_of_severity(diagnostic.severity),
                place: entry_place(diagnostic),
                label: entry_label(diagnostic),
            },
        }
    }

    /// What a click on the row asks for: a diagnostic is jumped to, a file is
    /// not.
    pub fn click(&self) -> (event: Option<ProblemsPanelEvent>)
        ensures
            match *self {
                ProblemRow::Header { path, counts } => event is None,
                ProblemRow::Entry { path, diagnostic } => event
                    matches Some(ProblemsPanelEvent::OpenLocation { path: p, range })
                    && p@ == path@ && range == diagnostic.range,
            },
    {
        match self {
            ProblemRow::Header { path: _, counts: _ } => None,
            ProblemRow::Entry { path, diagnostic } => Some(
                ProblemsPanelEvent::OpenLocation {
                    path: path.clone(),
                    range: diagnostic.range,
                },
            ),
        }
    }
}

// ---------------------------------------------------------------------------
// Panel
// ---------------------------------------------------------------------------

/// The problems panel: a summary and its rows, kept until the worktree changes.
pub struct ProblemsPanel {
    cached_summary: ProblemsSummary,
    row_cache: Vec<ProblemRow>,
    cache_dirty: bool,
}

/// What a [`ProblemsPanel`] holds.
pub struct ProblemsPanelView {
    pub summary: ProblemsSummary,
    pub rows: Seq<ProblemRow>,
    pub dirty: bool,
}

impl View for ProblemsPanel {
    type V = ProblemsPanelView;

    closed spec fn view(&self) -> ProblemsPanelView {
        ProblemsPanelView {
            summary: self.cached_summary,
            rows: self.row_cache@,
            dirty: self.cache_dirty,
        }
    }
}

impl ProblemsPanel {
    /// The rows lay the summary out.
    pub open spec fn wf(&self) -> bool {
        self@.rows == problem_rows(self@.summary.groups@)
    }

    /// A panel that has not looked at the worktree yet.
    pub fn new() -> (panel: Self)
        ensures
            panel.wf(),
            panel@.dirty,
            panel@.summary.groups@.len() == 0,
            panel@.summary.totals == (SeverityCounts {
                errors: 0,
                warnings: 0,
                infos: 0,
                hints: 0,
            }),
            panel@.rows.len() == 0,
    {
        ProblemsPanel {
            cached_summary: ProblemsSummary {
                groups: Vec::new(),
                totals: SeverityCounts { errors: 0, warnings: 0, infos: 0, hints: 0 },
            },
            row_cache: Vec::new(),
            cache_dirty: true,
        }
    }

    /// The worktree changed: the caches are stale.
    pub fn worktree_changed(&mut self)
        requires
            old(self).wf(),
        ensures
            final(self).wf(),
            final(self)@ == (ProblemsPanelView { dirty: true, ..old(self)@ }),
    {
        self.cache_dirty = true;
    }

    /// The summary of the worktree as it is now, past any cache.
    pub fn summary(model: &WorktreeModel) -> (summary: ProblemsSummary)
        requires
            problem_total(model@.diagnostics) <= usize::MAX,
        ensures
            summarises(summary, model@.diagnostics),
    {
        ProblemsSummary::from_diagnostics(model.all_diagnostics())
    }

    /// Brings the caches up to date with the worktree. Clean caches stay as they
    /// are.
    pub fn refresh_cache(&mut self, model: &WorktreeModel)
        requires
            old(self).wf(),
            problem_total(model@.diagnostics) <= usize::MAX,
        ensures
            final(self).wf(),
            !final(self)@.dirty,
            old(self)@.dirty ==> summarises(final(self)@.summary, model@.diagnostics),
            !old(self)@.dirty ==> final(self)@ == old(self)@,
    {
        if self.cache_dirty {
            self.cached_summary = Self::summary(model);
            self.row_cache = Self::rows(&self.cached_summary);
            self.cache_dirty = false;
        }
    }

    /// The cached summary.
    pub fn cached_summary(&self) -> (summary: &ProblemsSummary)
        ensures
            *summary == self@.summary,
    {
        &self.cached_summary
    }

    /// The cached rows.
    pub fn row_cache(&self) -> (list: &Vec<ProblemRow>)
        ensures
            list@ == self@.rows,
    {
        &self.row_cache
    }

    /// Whether the caches are stale.
    pub fn is_dirty(&self) -> (dirty: bool)
        ensures
            dirty == self@.dirty,
    {
        self.cache_dirty
    }

    /// The line above the rows; none where there are no problems, and then
    /// [`NO_PROBLEMS`] shows in place of the rows.
    pub fn headline(&self) -> (line: Option<String>)
        ensures
            text::opt_view(line) == if self@.summary.groups@.len() == 0 {
                None
            } else {
                Some(counts_text(self@.summary.totals))
            },
    {
        if self.cached_summary.groups.len() == 0 {
            None
        } else {
            Some(counts_line(&self.cached_summary.totals))
        }
    }

    /// Lays a summary out as rows: each file, then its diagnostics.
    pub fn rows(summary: &ProblemsSummary) -> (list: Vec<ProblemRow>)
        ensures
            list@ == problem_rows(summary.groups@),
    {
        let ghost groups = summary.groups@;
        let mut list: Vec<ProblemRow> = Vec::new();
        let mut g: usize = 0;
        while g < summary.groups.len()
            invariant
                groups == summary.groups@,
                g <= groups.len(),
                list@ == problem_rows(groups.take(g as int)),
            decreases groups.len() - g,
        {
            let group = &summary.groups[g];
            let ghost before = list@;
            let ghost own = group_rows(*group);
            list.push(ProblemRow::Header { path: group.path.clone(), counts: group.counts });
            let mut i: usize = 0;
            proof {
                assert(list@ =~= before + own.take(1));
            }
            while i < group.diagnostics.len()
                invariant
                    i <= group.diagnostics@.len(),
                    own == group_rows(*group),
                    list@ == before + own.take(i + 1),
                decreases group.diagnostics@.len() - i,
            {
                let entry = ProblemRow::Entry {
                    path: group.path.clone(),
                    diagnostic: group.diagnostics[i].clone(),
                };
                proof {
                    assert(own[i + 1] == entry);
                    assert(before + own.take(i + 2) =~= (before + own.take(i + 1)).push(entry));
                }
                list.push(entry);
                i = i + 1;
            }
            proof {
                assert(own.take(i + 1) =~= own);
                assert(groups.take(g + 1).drop_last() =~= groups.take(g as int));
            }
            g = g + 1;
        }
        proof {
            assert(groups.take(g as int) =~= groups);
        }
        list
    }
}

// ---------------------------------------------------------------------------
// Laws
// ---------------------------------------------------------------------------

/// Within a file the diagnostics ascend by severity, then line, then character.
pub proof fn law_problems_ascend(sorted: Seq<Diagnostic>, items: Seq<Diagnostic>)
    requires
        sorted_problems(sorted, items),
    ensures
        sorted.len() == items.len(),
        forall|i: int, j: int|
            0 <= i < j < sorted.len() ==> problem_key(#[trigger] sorted[i]) <= problem_key(
                #[trigger] sorted[j],
            ),
{
    let order = choose|order: Seq<usize>|
        sorting::is_stable_order(order, problem_keys(items)) && sorted
            == #[trigger] sorting::arranged(items, order);
    let keys = problem_keys(items);
    assert forall|i: int, j: int| 0 <= i < j < sorted.len() implies problem_key(
        #[trigger] sorted[i],
    ) <= problem_key(#[trigger] sorted[j]) by {
        assert(sorting::precedes(keys, order[i], order[j]));
        assert(keys[order[i] as int] == problem_key(sorted[i]) as u128);
        assert(keys[order[j] as int] == problem_key(sorted[j]) as u128);
    }
}

/// The sort key orders by severity first, then by line, then by character.
pub proof fn law_problem_key_orders(a: Diagnostic, b: Diagnostic)
    ensures
        problem_key(a) < problem_key(b) <==> {
            ||| ordinal_of(a.severity) < ordinal_of(b.severity)
            ||| ordinal_of(a.severity) == ordinal_of(b.severity) && a.range.start.line
                < b.range.start.line
            ||| ordinal_of(a.severity) == ordinal_of(b.severity) && a.range.start.line
                == b.range.start.line && a.range.start.character < b.range.start.character
        },
{
}

/// The groups ascend by their worst severity, and by path where it ties: files
/// with errors surface first.
pub proof fn law_groups_ascend(groups: Seq<ProblemGroup>, files: Seq<FileDiagnostics>)
    requires
        ordered::keys_ascend(files),
        grouped(groups, files),
    ensures
        groups.len() == files.len(),
        forall|i: int, j: int|
            0 <= i < j < groups.len() ==> {
                ||| worst_of_counts((#[trigger] groups[i]).counts) < worst_of_counts(
                    (#[trigger] groups[j]).counts,
                )
                ||| worst_of_counts(groups[i].counts) == worst_of_counts(groups[j].counts)
                    && text::text_lt(groups[i].path@, groups[j].path@)
            },
{
    let keys = file_keys(files);
    let order = choose|order: Seq<usize>|
        #[trigger] sorting::is_stable_order(order, keys) && groups_follow(groups, files, order);
    assert forall|i: int, j: int| 0 <= i < j < groups.len() implies {
        ||| worst_of_counts((#[trigger] groups[i]).counts) < worst_of_counts(
            (#[trigger] groups[j]).counts,
        )
        ||| worst_of_counts(groups[i].counts) == worst_of_counts(groups[j].counts)
            && text::text_lt(groups[i].path@, groups[j].path@)
    } by {
        let a = order[i] as int;
        let b = order[j] as int;
        assert(sorting::precedes(keys, order[i], order[j]));
        assert(order[i] < keys.len() && order[j] < keys.len());
        assert(group_of(files[a], groups[i]));
        assert(group_of(files[b], groups[j]));
        lemma_group_worst(files[a], groups[i]);
        lemma_group_worst(files[b], groups[j]);
        assert(keys[a] == worst_of_items(reported_for(files[a])) as u128);
        assert(keys[b] == worst_of_items(reported_for(files[b])) as u128);
        if keys[a] == keys[b] {
            assert(text::text_lt(files[a].key(), files[b].key()));
        }
    }
}

proof fn lemma_group_worst(file: FileDiagnostics, group: ProblemGroup)
    requires
        group_of(file, group),
    ensures
        worst_of_counts(group.counts) == worst_of_items(reported_for(file)),
{
    let items = reported_for(file);
    let order = choose|order: Seq<usize>|
        sorting::is_stable_order(order, problem_keys(items)) && group.diagnostics@
            == #[trigger] sorting::arranged(items, order);
    sorting::law_stable_order_permutes(order, problem_keys(items));
    lemma_sorted_count(group.diagnostics@, items, order, DiagnosticSeverity::Error);
    lemma_sorted_count(group.diagnostics@, items, order, DiagnosticSeverity::Warning);
    lemma_sorted_count(group.diagnostics@, items, order, DiagnosticSeverity::Information);
}

/// How many rows the groups before group `g` take.
pub open spec fn rows_before(groups: Seq<ProblemGroup>, g: int) -> int
    decreases g,
{
    if g <= 0 {
        0
    } else {
        rows_before(groups, g - 1) + 1 + groups[g - 1].diagnostics@.len()
    }
}

proof fn lemma_rows_before_prefix(groups: Seq<ProblemGroup>, n: int, g: int)
    requires
        0 <= g <= n <= groups.len(),
    ensures
        rows_before(groups.take(n), g) == rows_before(groups, g),
    decreases g,
{
    if g > 0 {
        lemma_rows_before_prefix(groups, n, g - 1);
        assert(groups.take(n)[g - 1] == groups[g - 1]);
    }
}

proof fn lemma_rows_in_place(groups: Seq<ProblemGroup>, g: int, i: int)
    requires
        0 <= g < groups.len(),
        0 <= i <= groups[g].diagnostics@.len(),
    ensures
        problem_rows(groups).len() == rows_before(groups, groups.len() as int),
        rows_before(groups, g) >= 0,
        rows_before(groups, g) + i < problem_rows(groups).len(),
        problem_rows(groups)[rows_before(groups, g)] == (ProblemRow::Header {
            path: groups[g].path,
            counts: groups[g].counts,
        }),
        i > 0 ==> problem_rows(groups)[rows_before(groups, g) + i] == (ProblemRow::Entry {
            path: groups[g].path,
            diagnostic: groups[g].diagnostics@[i - 1],
        }),
    decreases groups.len(),
{
    let n = groups.len() as int;
    let rest = groups.drop_last();
    assert(rest =~= groups.take(n - 1));
    lemma_rows_before_prefix(groups, n - 1, n - 1);
    lemma_rows_count(rest);
    lemma_rows_count(groups);
    let last = group_rows(groups.last());
    assert(last.len() == groups.last().diagnostics@.len() + 1);
    if g < n - 1 {
        assert(rest[g] == groups[g]);
        lemma_rows_in_place(rest, g, i);
        lemma_rows_before_prefix(groups, n - 1, g);
        let at = rows_before(groups, g) + i;
        assert(problem_rows(groups)[at] == problem_rows(rest)[at]);
        assert(problem_rows(groups)[at - i] == problem_rows(rest)[at - i]);
    } else {
        let base = problem_rows(rest).len();
        assert(rows_before(groups, g) == base);
        assert(problem_rows(groups)[base as int] == last[0]);
        assert(problem_rows(groups)[base + i] == last[i]);
    }
}

proof fn lemma_rows_count(groups: Seq<ProblemGroup>)
    ensures
        problem_rows(groups).len() == rows_before(groups, groups.len() as int),
    decreases groups.len(),
{
    if groups.len() > 0 {
        let rest = groups.drop_last();
        let n = groups.len() as int;
        assert(rest =~= groups.take(n - 1));
        lemma_rows_count(rest);
        lemma_rows_before_prefix(groups, n - 1, n - 1);
        assert(group_rows(groups.last()).len() == groups.last().diagnostics@.len() + 1);
    }
}

/// Nothing is lost and nothing is made up: there is one row for each group and
/// one for each of its diagnostics. A group's header comes first, right behind
/// the rows of the groups before it, and its diagnostics follow in their order.
pub proof fn law_every_problem_has_its_row(
    summary: ProblemsSummary,
    list: Vec<ProblemRow>,
    g: int,
    i: int,
)
    requires
        call_ensures(ProblemsPanel::rows, (&summary,), list),
        0 <= g < summary.groups@.len(),
        0 <= i < summary.groups@[g].diagnostics@.len(),
    ensures
        ({
            let groups = summary.groups@;
            let at = rows_before(groups, g);
            &&& list@.len() == rows_before(groups, groups.len() as int)
            &&& 0 <= at && at + 1 + i < list@.len()
            &&& list@[at] == (ProblemRow::Header { path: groups[g].path, counts: groups[g].counts })
            &&& list@[at + 1 + i] == (ProblemRow::Entry {
                path: groups[g].path,
                diagnostic: groups[g].diagnostics@[i],
            })
        }),
{
    lemma_rows_in_place(summary.groups@, g, i + 1);
}

/// A file without diagnostics still has its header, and a summary without
/// groups has no rows.
pub proof fn law_every_group_has_its_header(
    summary: ProblemsSummary,
    list: Vec<ProblemRow>,
    g: int,
)
    requires
        call_ensures(ProblemsPanel::rows, (&summary,), list),
    ensures
        list@.len() == rows_before(summary.groups@, summary.groups@.len() as int),
        0 <= g < summary.groups@.len() ==> list@[rows_before(summary.groups@, g)] == (
        ProblemRow::Header { path: summary.groups@[g].path, counts: summary.groups@[g].counts }),
        summary.groups@.len() == 0 ==> list@.len() == 0,
{
    lemma_rows_count(summary.groups@);
    if 0 <= g < summary.groups@.len() {
        lemma_rows_in_place(summary.groups@, g, 0);
    }
}

/// How many diagnostics the first `s` servers report.
pub open spec fn reported_before(servers: Seq<ServerDiagnostics>, s: int) -> int
    decreases s,
{
    if s <= 0 {
        0
    } else {
        reported_before(servers, s - 1) + servers[s - 1].items@.len()
    }
}

proof fn lemma_reported_before_prefix(servers: Seq<ServerDiagnostics>, n: int, s: int)
    requires
        0 <= s <= n <= servers.len(),
    ensures
        reported_before(servers.take(n), s) == reported_before(servers, s),
    decreases s,
{
    if s > 0 {
        lemma_reported_before_prefix(servers, n, s - 1);
        assert(servers.take(n)[s - 1] == servers[s - 1]);
    }
}

proof fn lemma_flattened_len(servers: Seq<ServerDiagnostics>)
    ensures
        flattened(servers).len() == reported_before(servers, servers.len() as int),
    decreases servers.len(),
{
    if servers.len() > 0 {
        let n = servers.len() as int;
        let rest = servers.drop_last();
        assert(rest =~= servers.take(n - 1));
        lemma_flattened_len(rest);
        lemma_reported_before_prefix(servers, n - 1, n - 1);
    }
}

proof fn lemma_flattened(servers: Seq<ServerDiagnostics>, s: int, i: int)
    requires
        0 <= s < servers.len(),
        0 <= i < servers[s].items@.len(),
    ensures
        0 <= reported_before(servers, s),
        reported_before(servers, s) + i < flattened(servers).len(),
        flattened(servers)[reported_before(servers, s) + i] == servers[s].items@[i],
    decreases servers.len(),
{
    let n = servers.len() as int;
    let rest = servers.drop_last();
    assert(rest =~= servers.take(n - 1));
    lemma_flattened_len(rest);
    lemma_reported_before_prefix(servers, n - 1, n - 1);
    if s < n - 1 {
        assert(rest[s] == servers[s]);
        lemma_flattened(rest, s, i);
        lemma_reported_before_prefix(servers, n - 1, s);
    }
}

/// A diagnostic of any server is one of the file's, and the file has no others.
pub proof fn law_every_report_is_counted(file: FileDiagnostics)
    ensures
        reported_for(file).len() == reported_before(
            file.servers.seq(),
            file.servers.seq().len() as int,
        ),
        forall|s: int, i: int|
            0 <= s < file.servers.seq().len() && 0 <= i < file.servers.seq()[s].items@.len()
                ==> reported_for(file).contains(#[trigger] file.servers.seq()[s].items@[i]),
{
    let servers = file.servers.seq();
    lemma_flattened_len(servers);
    assert forall|s: int, i: int|
        0 <= s < servers.len() && 0 <= i < servers[s].items@.len() implies reported_for(
        file,
    ).contains(#[trigger] servers[s].items@[i]) by {
        lemma_flattened(servers, s, i);
        assert(flattened(servers)[reported_before(servers, s) + i] == servers[s].items@[i]);
    }
}

/// Sorting keeps every diagnostic, as often as it was there.
pub proof fn law_sorting_loses_nothing(items: Vec<Diagnostic>, sorted: Vec<Diagnostic>)
    requires
        call_ensures(sort_problems, (&items,), sorted),
    ensures
        sorted@.to_multiset() == items@.to_multiset(),
        forall|i: int| 0 <= i < items@.len() ==> sorted@.contains(#[trigger] items@[i]),
{
    lemma_sorted_multiset(sorted@, items@);
    assert forall|i: int| 0 <= i < items@.len() implies sorted@.contains(#[trigger] items@[i]) by {
        broadcast use vstd::seq_lib::group_to_multiset_ensures;

        assert(items@.contains(items@[i]));
        assert(items@.to_multiset().count(items@[i]) > 0);
    }
}

proof fn lemma_sorted_multiset(sorted: Seq<Diagnostic>, items: Seq<Diagnostic>)
    requires
        sorted_problems(sorted, items),
    ensures
        sorted.to_multiset() == items.to_multiset(),
{
    let order = choose|order: Seq<usize>|
        sorting::is_stable_order(order, problem_keys(items)) && sorted
            == #[trigger] sorting::arranged(items, order);
    sorting::law_stable_order_permutes(order, problem_keys(items));
    assert forall|item: Diagnostic| #[trigger] sorted.to_multiset().count(item)
        == items.to_multiset().count(item) by {
        let is_it = |d: Diagnostic|
            if d == item {
                1int
            } else {
                0int
            };
        sorting::law_tally_ignores_order(items, order, is_it);
        lemma_tally_counts(sorted, item, is_it);
        lemma_tally_counts(items, item, is_it);
    }
    assert(sorted.to_multiset() =~= items.to_multiset());
}

proof fn lemma_tally_counts(items: Seq<Diagnostic>, item: Diagnostic, is_it: spec_fn(Diagnostic) -> int)
    requires
        forall|d: Diagnostic|
            #[trigger] is_it(d) == if d == item {
                1int
            } else {
                0int
            },
    ensures
        sorting::tally(items, is_it) == items.to_multiset().count(item),
    decreases items.len(),
{
    broadcast use vstd::seq_lib::group_to_multiset_ensures;

    if items.len() > 0 {
        let rest = items.drop_last();
        lemma_tally_counts(rest, item, is_it);
        assert(items =~= rest.push(items.last()));
        assert(items.to_multiset() =~= rest.to_multiset().insert(items.last()));
    }
}

/// Errors come before warnings, warnings before notes, notes before hints. Among
/// equally severe ones the higher line comes first, and on a line the one
/// further left.
pub proof fn law_sorted_problems_ascend(
    items: Vec<Diagnostic>,
    sorted: Vec<Diagnostic>,
    i: int,
    j: int,
)
    requires
        call_ensures(sort_problems, (&items,), sorted),
        0 <= i < j < sorted@.len(),
    ensures
        ({
            let a = sorted@[i];
            let b = sorted@[j];
            &&& a.severity is Hint ==> b.severity is Hint
            &&& a.severity is Information ==> b.severity is Information || b.severity is Hint
            &&& b.severity is Error ==> a.severity is Error
            &&& b.severity is Warning ==> a.severity is Error || a.severity is Warning
            &&& a.severity == b.severity ==> a.range.start.line <= b.range.start.line
            &&& a.severity == b.severity && a.range.start.line == b.range.start.line
                ==> a.range.start.character <= b.range.start.character
        }),
{
    law_problems_ascend(sorted@, items@);
    law_problem_key_orders(sorted@[i], sorted@[j]);
    law_problem_key_orders(sorted@[j], sorted@[i]);
}

/// The positions of the items with a severity.
pub open spec fn having(items: Seq<Diagnostic>, severity: DiagnosticSeverity) -> Set<int> {
    Set::new(|i: int| 0 <= i < items.len() && items[i].severity == severity)
}

proof fn lemma_count_is_having(items: Seq<Diagnostic>, severity: DiagnosticSeverity)
    ensures
        having(items, severity).finite(),
        severity_count(items, severity) == having(items, severity).len(),
    decreases items.len(),
{
    if items.len() == 0 {
        assert(having(items, severity) =~= Set::empty());
    } else {
        let rest = items.drop_last();
        let last = items.len() - 1;
        lemma_count_is_having(rest, severity);
        if items[last].severity == severity {
            assert(having(items, severity) =~= having(rest, severity).insert(last));
        } else {
            assert(having(items, severity) =~= having(rest, severity));
        }
    }
}

/// Each number counts the diagnostics of its own severity.
pub proof fn law_counts_count(items: Vec<Diagnostic>, counts: SeverityCounts)
    requires
        call_ensures(SeverityCounts::from_diagnostics, (&items,), counts),
    ensures
        counts.errors == having(items@, DiagnosticSeverity::Error).len(),
        counts.warnings == having(items@, DiagnosticSeverity::Warning).len(),
        counts.infos == having(items@, DiagnosticSeverity::Information).len(),
        counts.hints == having(items@, DiagnosticSeverity::Hint).len(),
{
    lemma_count_is_having(items@, DiagnosticSeverity::Error);
    lemma_count_is_having(items@, DiagnosticSeverity::Warning);
    lemma_count_is_having(items@, DiagnosticSeverity::Information);
    lemma_count_is_having(items@, DiagnosticSeverity::Hint);
}

/// A file's place among the files goes by the worst that it has.
pub proof fn law_worst_ordinal(counts: SeverityCounts, ordinal: u8)
    requires
        call_ensures(SeverityCounts::worst_ordinal, (&counts,), ordinal),
    ensures
        counts.errors > 0 ==> ordinal == 0,
        counts.errors == 0 && counts.warnings > 0 ==> ordinal == 1,
        counts.errors == 0 && counts.warnings == 0 && counts.infos > 0 ==> ordinal == 2,
        counts.errors == 0 && counts.warnings == 0 && counts.infos == 0 ==> ordinal == 3,
{
}

/// Adding counts adds each severity to its own.
pub proof fn law_counts_add_up(into: &mut SeverityCounts, other: SeverityCounts)
    requires
        call_ensures(SeverityCounts::add, (into, &other), ()),
    ensures
        final(into).errors == old(into).errors + other.errors,
        final(into).warnings == old(into).warnings + other.warnings,
        final(into).infos == old(into).infos + other.infos,
        final(into).hints == old(into).hints + other.hints,
{
}

/// Every file has one group, under its path, with every diagnostic of every
/// server and their numbers. Files with errors come first.
pub proof fn law_every_file_has_its_group(
    diagnostics: KeyedVec<FileDiagnostics>,
    summary: ProblemsSummary,
    f: int,
)
    requires
        diagnostics.wf(),
        call_ensures(ProblemsSummary::from_diagnostics, (&diagnostics,), summary),
        0 <= f < diagnostics.seq().len(),
    ensures
        summary.groups@.len() == diagnostics.seq().len(),
        exists|g: int|
            0 <= g < summary.groups@.len() && (#[trigger] summary.groups@[g]).path@
                == diagnostics.seq()[f].path@ && summary.groups@[g].diagnostics@.to_multiset()
                == reported_for(diagnostics.seq()[f]).to_multiset() && summary.groups@[g].counts.errors
                == having(summary.groups@[g].diagnostics@, DiagnosticSeverity::Error).len()
                && summary.groups@[g].counts.warnings == having(
                summary.groups@[g].diagnostics@,
                DiagnosticSeverity::Warning,
            ).len(),
        forall|a: int, b: int|
            0 <= a < b < summary.groups@.len() && (#[trigger] summary.groups@[b]).counts.errors > 0
                ==> (#[trigger] summary.groups@[a]).counts.errors > 0,
{
    let files = diagnostics.seq();
    let groups = summary.groups@;
    let order = choose|order: Seq<usize>|
        #[trigger] sorting::is_stable_order(order, file_keys(files)) && groups_follow(
            groups,
            files,
            order,
        );
    sorting::law_stable_order_permutes(order, file_keys(files));
    let g = sorting::lemma_permutation_hits(order, files.len(), f);
    assert(group_of(files[f], groups[g]));
    lemma_sorted_multiset(groups[g].diagnostics@, reported_for(files[f]));
    lemma_count_is_having(groups[g].diagnostics@, DiagnosticSeverity::Error);
    lemma_count_is_having(groups[g].diagnostics@, DiagnosticSeverity::Warning);
    law_groups_ascend(groups, files);
}

/// The line of a file counts its errors and its warnings, in this order, each
/// in the plural unless there is just one.
pub proof fn law_counts_line_reads(counts: SeverityCounts, line: String)
    requires
        call_ensures(counts_line, (&counts,), line),
    ensures
        ({
            let errors = text::decimal_text(counts.errors as nat) + if counts.errors == 1 {
                " error"@
            } else {
                " errors"@
            };
            let warnings = text::decimal_text(counts.warnings as nat) + if counts.warnings == 1 {
                " warning"@
            } else {
                " warnings"@
            };
            line@ == errors + ", "@ + warnings
        }),
{
    reveal_strlit(" error");
    reveal_strlit(" errors");
    reveal_strlit(" warning");
    reveal_strlit(" warnings");
    reveal_strlit("error");
    reveal_strlit("warning");
    reveal_strlit(", ");
    let errors = text::decimal_text(counts.errors as nat) + if counts.errors == 1 {
        " error"@
    } else {
        " errors"@
    };
    let warnings = text::decimal_text(counts.warnings as nat) + if counts.warnings == 1 {
        " warning"@
    } else {
        " warnings"@
    };
    assert(plural_text(counts.errors as nat, "error"@) =~= errors);
    assert(plural_text(counts.warnings as nat, "warning"@) =~= warnings);
}

/// A diagnostic is painted with its severity's colour, the line and column where
/// it starts counted from one, and its source, message and code.
pub proof fn law_entry_paints_its_diagnostic(
    path: String,
    diagnostic: Diagnostic,
    painted: ProblemPresentation,
    tone: Tone,
)
    requires
        call_ensures(
            ProblemRow::present,
            (&ProblemRow::Entry { path, diagnostic },),
            painted,
        ),
        call_ensures(presentation::tone_of_severity, (diagnostic.severity,), tone),
    ensures
        painted matches ProblemPresentation::Entry { dot, place, label } && {
            let start = diagnostic.range.start;
            &&& dot == tone
            &&& place@ == text::decimal_text((start.line + 1) as nat) + seq![':']
                + text::decimal_text((start.character + 1) as nat)
            &&& diagnostic.source is None && diagnostic.code is None ==> label@
                == diagnostic.message@
            &&& diagnostic.source is None ==> diagnostic.message@.is_prefix_of(label@)
            &&& diagnostic.source matches Some(source) ==> (seq!['['] + source@ + seq![']', ' ']
                + diagnostic.message@).is_prefix_of(label@)
            &&& diagnostic.code matches Some(code) ==> (diagnostic.message@ + seq![' ', '(']
                + code@ + seq![')']).is_suffix_of(label@)
        },
{
    reveal_strlit("] ");
    reveal_strlit(" (");
    assert("] "@ =~= seq![']', ' ']);
    assert(" ("@ =~= seq![' ', '(']);
    let start = diagnostic.range.start;
    assert(place_text(diagnostic) =~= text::decimal_text((start.line + 1) as nat) + seq![':']
        + text::decimal_text((start.character + 1) as nat));
    let label = label_text(diagnostic);
    let message = diagnostic.message@;
    let source = match diagnostic.source {
        Some(source) => seq!['['] + source@ + "] "@,
        None => Seq::<char>::empty(),
    };
    let code = match diagnostic.code {
        Some(code) => " ("@ + code@ + seq![')'],
        None => Seq::<char>::empty(),
    };
    assert(label == source + message + code);
    assert((source + message) =~= label.subrange(0, (source + message).len() as int));
    assert((message + code) =~= label.subrange(
        label.len() - (message + code).len(),
        label.len() as int,
    ));
    if diagnostic.source is None {
        assert(source + message =~= message);
        if diagnostic.code is None {
            assert(label =~= message);
        }
    }
    if let Some(name) = diagnostic.source {
        assert(source + message =~= seq!['['] + name@ + seq![']', ' '] + message);
    }
    if let Some(name) = diagnostic.code {
        assert(message + code =~= message + seq![' ', '('] + name@ + seq![')']);
    }
}

/// A file is painted with its path and its counts, and clicking it does nothing;
/// clicking a diagnostic jumps to its range in its file.
pub proof fn law_click_jumps_to_the_problem(
    row: ProblemRow,
    event: Option<ProblemsPanelEvent>,
    painted: ProblemPresentation,
)
    requires
        call_ensures(ProblemRow::click, (&row,), event),
        call_ensures(ProblemRow::present, (&row,), painted),
    ensures
        row is Header <==> event is None,
        row is Header <==> painted is Header,
        row matches ProblemRow::Entry { path, diagnostic } ==> (event matches Some(
            ProblemsPanelEvent::OpenLocation { path: file, range },
        ) && file@ == path@ && range == diagnostic.range),
        row matches ProblemRow::Header { path, counts } ==> (painted matches
            ProblemPresentation::Header { path: shown, counts: line } && shown@ == path@),
{
}

/// After a refresh the panel lists, for every file of the worktree, a header
/// and every single diagnostic.
pub proof fn law_refreshed_panel_lists_every_problem(
    panel: &mut ProblemsPanel,
    model: WorktreeModel,
    f: int,
    i: int,
)
    requires
        old(panel)@.dirty,
        model.wf(),
        call_ensures(ProblemsPanel::refresh_cache, (panel, &model), ()),
        0 <= f < model@.diagnostics.len(),
        0 <= i < reported_for(model@.diagnostics[f]).len(),
    ensures
        exists|r: int|
            0 <= r < final(panel)@.rows.len() && (#[trigger] final(panel)@.rows[r] matches
                ProblemRow::Entry { path, diagnostic } && path@ == model@.diagnostics[f].path@
                && diagnostic == reported_for(model@.diagnostics[f])[i]),
{
    broadcast use vstd::seq_lib::group_to_multiset_ensures;

    let files = model@.diagnostics;
    let groups = final(panel)@.summary.groups@;
    let order = choose|order: Seq<usize>|
        #[trigger] sorting::is_stable_order(order, file_keys(files)) && groups_follow(
            groups,
            files,
            order,
        );
    sorting::law_stable_order_permutes(order, file_keys(files));
    let g = sorting::lemma_permutation_hits(order, files.len(), f);
    assert(group_of(files[f], groups[g]));
    let items = reported_for(files[f]);
    let sorted = groups[g].diagnostics@;
    lemma_sorted_multiset(sorted, items);
    assert(items.contains(items[i]));
    assert(sorted.to_multiset().count(items[i]) > 0);
    assert(sorted.contains(items[i]));
    let k = choose|k: int| 0 <= k < sorted.len() && sorted[k] == items[i];
    lemma_rows_in_place(groups, g, k + 1);
    let r = rows_before(groups, g) + k + 1;
    assert(final(panel)@.rows[r] == (ProblemRow::Entry {
        path: groups[g].path,
        diagnostic: sorted[k],
    }));
}

/// The line above the rows sums the counts of all files up; there is none where
/// nothing is reported.
pub proof fn law_headline_sums_up(panel: ProblemsPanel, line: Option<String>, total: String)
    requires
        call_ensures(ProblemsPanel::headline, (&panel,), line),
        call_ensures(counts_line, (&panel@.summary.totals,), total),
    ensures
        line is None <==> panel@.summary.groups@.len() == 0,
        line matches Some(shown) ==> shown@ == total@,
{
}

/// The totals are the sums over the groups: one more group adds its own counts.
pub proof fn law_totals_sum_the_groups(
    groups: Seq<ProblemGroup>,
    more: ProblemGroup,
    totals: SeverityCounts,
    grown: SeverityCounts,
)
    requires
        totals_match(totals, groups),
        totals_match(grown, groups.push(more)),
    ensures
        grown.errors == totals.errors + more.counts.errors,
        grown.warnings == totals.warnings + more.counts.warnings,
        grown.infos == totals.infos + more.counts.infos,
        grown.hints == totals.hints + more.counts.hints,
        groups.len() == 0 ==> totals.errors == 0 && totals.warnings == 0 && totals.infos == 0
            && totals.hints == 0,
{
    assert(groups.push(more).drop_last() =~= groups);
}

/// What `a` counts is at its worst no better than what `b` counts.
pub open spec fn no_better_than(a: SeverityCounts, b: SeverityCounts) -> bool {
    &&& b.errors > 0 ==> a.errors > 0
    &&& b.warnings > 0 ==> a.errors > 0 || a.warnings > 0
    &&& b.infos > 0 ==> a.errors > 0 || a.warnings > 0 || a.infos > 0
}

/// `a` stands before `b` within a file: what is worse first, then by line, then
/// by character.
pub open spec fn stands_before(a: Diagnostic, b: Diagnostic) -> bool {
    &&& a.severity is Hint ==> b.severity is Hint
    &&& a.severity is Information ==> b.severity is Information || b.severity is Hint
    &&& a.severity is Warning ==> !(b.severity is Error)
    &&& a.severity == b.severity ==> a.range.start.line <= b.range.start.line
    &&& a.severity == b.severity && a.range.start.line == b.range.start.line
        ==> a.range.start.character <= b.range.start.character
}

/// What a summary of files holds: a group for each file, the worse file first
/// and of equally bad ones the one whose path comes first; within a group the
/// worse diagnostic first; counts that count the group; and totals over all.
pub open spec fn sums_up(summary: ProblemsSummary, files: Seq<FileDiagnostics>) -> bool {
    let groups = summary.groups@;
    &&& groups.len() == files.len()
    &&& forall|a: int, b: int|
        0 <= a < b < groups.len() ==> no_better_than(
            (#[trigger] groups[a]).counts,
            (#[trigger] groups[b]).counts,
        )
    &&& forall|a: int, b: int|
        0 <= a < b < groups.len() && no_better_than(
            (#[trigger] groups[b]).counts,
            (#[trigger] groups[a]).counts,
        ) ==> text::text_lt(groups[a].path@, groups[b].path@)
    &&& forall|g: int, i: int, j: int|
        0 <= g < groups.len() && 0 <= i < j < groups[g].diagnostics@.len() ==> stands_before(
            #[trigger] groups[g].diagnostics@[i],
            #[trigger] groups[g].diagnostics@[j],
        )
    &&& forall|g: int|
        0 <= g < groups.len() ==> {
            &&& (#[trigger] groups[g]).counts.errors == having(
                groups[g].diagnostics@,
                DiagnosticSeverity::Error,
            ).len()
            &&& groups[g].counts.warnings == having(
                groups[g].diagnostics@,
                DiagnosticSeverity::Warning,
            ).len()
            &&& groups[g].counts.infos == having(
                groups[g].diagnostics@,
                DiagnosticSeverity::Information,
            ).len()
            &&& groups[g].counts.hints == having(
                groups[g].diagnostics@,
                DiagnosticSeverity::Hint,
            ).len()
        }
    &&& totals_match(summary.totals, groups)
}

proof fn lemma_sums_up(summary: ProblemsSummary, files: Seq<FileDiagnostics>)
    requires
        ordered::keys_ascend(files),
        summarises(summary, files),
    ensures
        sums_up(summary, files),
{
    let groups = summary.groups@;
    law_groups_ascend(groups, files);
    let order = choose|order: Seq<usize>|
        #[trigger] sorting::is_stable_order(order, file_keys(files)) && groups_follow(
            groups,
            files,
            order,
        );
    assert forall|g: int, i: int, j: int|
        0 <= g < groups.len() && 0 <= i < j < groups[g].diagnostics@.len() implies stands_before(
        #[trigger] groups[g].diagnostics@[i],
        #[trigger] groups[g].diagnostics@[j],
    ) by {
        assert(group_of(files[order[g] as int], groups[g]));
        let items = reported_for(files[order[g] as int]);
        let a = groups[g].diagnostics@[i];
        let b = groups[g].diagnostics@[j];
        law_problems_ascend(groups[g].diagnostics@, items);
        law_problem_key_orders(a, b);
        law_problem_key_orders(b, a);
    }
    assert forall|g: int| 0 <= g < groups.len() implies counts_match(
        (#[trigger] groups[g]).counts,
        groups[g].diagnostics@,
    ) by {
        assert(group_of(files[order[g] as int], groups[g]));
    }
    assert forall|g: int| 0 <= g < groups.len() implies {
        &&& (#[trigger] groups[g]).counts.errors == having(
            groups[g].diagnostics@,
            DiagnosticSeverity::Error,
        ).len()
        &&& groups[g].counts.warnings == having(
            groups[g].diagnostics@,
            DiagnosticSeverity::Warning,
        ).len()
        &&& groups[g].counts.infos == having(
            groups[g].diagnostics@,
            DiagnosticSeverity::Information,
        ).len()
        &&& groups[g].counts.hints == having(
            groups[g].diagnostics@,
            DiagnosticSeverity::Hint,
        ).len()
    } by {
        lemma_count_is_having(groups[g].diagnostics@, DiagnosticSeverity::Error);
        lemma_count_is_having(groups[g].diagnostics@, DiagnosticSeverity::Warning);
        lemma_count_is_having(groups[g].diagnostics@, DiagnosticSeverity::Information);
        lemma_count_is_having(groups[g].diagnostics@, DiagnosticSeverity::Hint);
    }
}

/// A summary sums its files up, whether it is asked for or cached, and clean
/// caches stay.
pub proof fn law_summaries_sum_up(
    diagnostics: KeyedVec<FileDiagnostics>,
    built: ProblemsSummary,
    model: WorktreeModel,
    asked: ProblemsSummary,
    panel: &mut ProblemsPanel,
)
    requires
        diagnostics.wf(),
        model.wf(),
        call_ensures(ProblemsSummary::from_diagnostics, (&diagnostics,), built),
        call_ensures(ProblemsPanel::summary, (&model,), asked),
        call_ensures(ProblemsPanel::refresh_cache, (panel, &model), ()),
    ensures
        sums_up(built, diagnostics.seq()),
        sums_up(asked, model@.diagnostics),
        old(panel)@.dirty ==> sums_up(final(panel)@.summary, model@.diagnostics),
        !old(panel)@.dirty ==> final(panel)@ == old(panel)@,
        !final(panel)@.dirty,
{
    lemma_sums_up(built, diagnostics.seq());
    lemma_sums_up(asked, model@.diagnostics);
    if old(panel)@.dirty {
        lemma_sums_up(final(panel)@.summary, model@.diagnostics);
    }
}

/// A change of the worktree makes the caches stale and nothing else, and the
/// panel tells its caches as they are.
pub proof fn law_change_makes_the_caches_stale(
    panel: &mut ProblemsPanel,
    dirty: bool,
    list: &Vec<ProblemRow>,
    summary: &ProblemsSummary,
)
    requires
        call_ensures(ProblemsPanel::worktree_changed, (panel,), ()),
        call_ensures(ProblemsPanel::is_dirty, (final(panel),), dirty),
        call_ensures(ProblemsPanel::row_cache, (final(panel),), list),
        call_ensures(ProblemsPanel::cached_summary, (final(panel),), summary),
    ensures
        dirty,
        list@ == old(panel)@.rows,
        *summary == old(panel)@.summary,
{
}

/// Errors come first, then warnings, information and hints.
pub proof fn law_severities_are_listed_worst_first(
    a: DiagnosticSeverity,
    b: DiagnosticSeverity,
    first: u8,
    second: u8,
)
    requires
        call_ensures(severity_ordinal, (a,), first),
        call_ensures(severity_ordinal, (b,), second),
    ensures
        first == second <==> a == b,
        a is Error && !(b is Error) ==> first < second,
        a is Warning && (b is Information || b is Hint) ==> first < second,
        a is Information && b is Hint ==> first < second,
{
}

/// A label shows the source, the message and the code, the place counts from
/// one, and a count takes the plural unless it is one.
pub proof fn law_texts_of_a_problem(
    item: Diagnostic,
    label: String,
    place: String,
    line: String,
    column: String,
    count: usize,
    noun: &str,
    counted: String,
    numeral: String,
)
    requires
        call_ensures(entry_label, (&item,), label),
        item.range.start.line < u32::MAX,
        item.range.start.character < u32::MAX,
        call_ensures(entry_place, (&item,), place),
        call_ensures(text::decimal, ((item.range.start.line + 1) as u64,), line),
        call_ensures(text::decimal, ((item.range.start.character + 1) as u64,), column),
        call_ensures(pluralize, (count, noun), counted),
        call_ensures(text::decimal, (count as u64,), numeral),
    ensures
        item.source is None && item.code is None ==> label@ == item.message@,
        item.source is Some && item.code is None ==> label@ == "["@ + (item.source->0)@ + "] "@
            + item.message@,
        item.source is None && item.code is Some ==> label@ == item.message@ + " ("@ + (
        item.code->0)@ + ")"@,
        item.source is Some && item.code is Some ==> label@ == "["@ + (item.source->0)@ + "] "@
            + item.message@ + " ("@ + (item.code->0)@ + ")"@,
        place@ == line@ + ":"@ + column@,
        count == 1 ==> counted@ == numeral@ + " "@ + noun@,
        count != 1 ==> counted@ == numeral@ + " "@ + noun@ + "s"@,
{
    reveal_strlit("[");
    reveal_strlit(")");
    reveal_strlit(":");
    reveal_strlit(" ");
    reveal_strlit("s");
    assert("["@ =~= seq!['[']);
    assert(")"@ =~= seq![')']);
    assert(place@ =~= line@ + ":"@ + column@);
    if item.source is None && item.code is None {
        assert(label@ =~= item.message@);
    } else if item.code is None {
        assert(label@ =~= "["@ + (item.source->0)@ + "] "@ + item.message@);
    } else if item.source is None {
        assert(label@ =~= item.message@ + " ("@ + (item.code->0)@ + ")"@);
    } else {
        assert(label@ =~= "["@ + (item.source->0)@ + "] "@ + item.message@ + " ("@ + (
        item.code->0)@ + ")"@);
    }
    if count == 1 {
        assert(counted@ =~= numeral@ + " "@ + noun@);
    } else {
        assert(counted@ =~= numeral@ + " "@ + noun@ + "s"@);
    }
}

/// Sorting moves whole diagnostics, and those that tie in severity, line and
/// character keep the order in which they were reported.
pub proof fn law_equal_problems_keep_their_order(items: Vec<Diagnostic>, sorted: Vec<Diagnostic>)
    requires
        call_ensures(sort_problems, (&items,), sorted),
    ensures
        exists|order: Seq<usize>| #[trigger]
            sorting::is_permutation(order, items@.len()) && sorted@.len() == order.len() && (
            forall|i: int| 0 <= i < order.len() ==> #[trigger] sorted@[i] == items@[order[i] as int])
                && (forall|i: int, j: int|
                0 <= i < j < order.len() && (#[trigger] sorted@[i]).severity == (
                #[trigger] sorted@[j]).severity && sorted@[i].range.start == sorted@[j].range.start
                    ==> order[i] < order[j]),
{
    let keys = problem_keys(items@);
    let order = choose|order: Seq<usize>|
        sorting::is_stable_order(order, keys) && sorted@ == #[trigger] sorting::arranged(
            items@,
            order,
        );
    sorting::law_stable_order_permutes(order, keys);
    assert forall|i: int, j: int|
        0 <= i < j < order.len() && (#[trigger] sorted@[i]).severity == (
        #[trigger] sorted@[j]).severity && sorted@[i].range.start
            == sorted@[j].range.start implies order[i] < order[j] by {
        assert(sorting::precedes(keys, order[i], order[j]));
        assert(keys[order[i] as int] == problem_key(sorted@[i]) as u128);
        assert(keys[order[j] as int] == problem_key(sorted@[j]) as u128);
    }
    assert(sorting::is_permutation(order, items@.len()));
}

/// A file's row shows its path and its counts, and the panel's rows are those of
/// its summary.
pub proof fn law_headers_show_their_counts(
    path: String,
    counts: SeverityCounts,
    painted: ProblemPresentation,
    line: String,
    panel: &mut ProblemsPanel,
    model: WorktreeModel,
    list: Vec<ProblemRow>,
)
    requires
        call_ensures(ProblemRow::present, (&ProblemRow::Header { path, counts },), painted),
        call_ensures(counts_line, (&counts,), line),
        call_ensures(ProblemsPanel::refresh_cache, (panel, &model), ()),
        call_ensures(ProblemsPanel::rows, (&final(panel)@.summary,), list),
    ensures
        painted matches ProblemPresentation::Header { path: shown, counts: told } && shown@ == path@
            && told@ == line@,
        final(panel)@.rows == list@,
{
}

} // verus!
