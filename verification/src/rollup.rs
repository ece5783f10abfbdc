//! Git status and diagnostic severity, rolled up onto directories.
//!
//! A row shows the worst status of everything it stands for: a file its own,
//! a directory that of all its descendants, whether they are visible or not.

use vstd::prelude::*;

use crate::ordered;
use crate::ordered::{Keyed, KeyedVec};
use crate::paths;
use crate::protocol::{
    Diagnostic, DiagnosticSeverity, EntryKind, GitEntryStatus, GitStatusCode,
    WorktreeEntry,
};
use crate::text;
use crate::worktree::{ServerDiagnostics, WorktreeModel, WorktreeView};

verus! {

// ---------------------------------------------------------------------------
// Git status
// ---------------------------------------------------------------------------

/// A rolled-up git status, from the least to the most pressing.
#[derive(Clone, Copy, Debug, PartialEq, Eq, PartialOrd, Ord, Structural)]
pub enum GitRollupStatus {
    Untracked,
    Changed,
    Conflicted,
}

/// The lane of one side of a raw status; `None` where the side is clean.
pub open spec fn side_lane(code: GitStatusCode) -> Option<GitRollupStatus> {
    match code {
        GitStatusCode::Unmodified => None,
        GitStatusCode::Untracked => Some(GitRollupStatus::Untracked),
        GitStatusCode::Unmerged => Some(GitRollupStatus::Conflicted),
        _ => Some(GitRollupStatus::Changed),
    }
}

/// The lane a raw status falls into: the more pressing one of its two sides,
/// conflicted before changed before untracked before clean.
pub open spec fn git_lane(status: GitEntryStatus) -> Option<GitRollupStatus> {
    worse_git(side_lane(status.index), side_lane(status.worktree))
}

/// The letter of a lane.
pub open spec fn git_letter(status: GitRollupStatus) -> char {
    match status {
        GitRollupStatus::Conflicted => 'C',
        GitRollupStatus::Changed => 'M',
        GitRollupStatus::Untracked => 'U',
    }
}

impl GitRollupStatus {
    /// Classifies a path's raw status.
    pub fn from_status(status: GitEntryStatus) -> (lane: Option<GitRollupStatus>)
        ensures
            lane == git_lane(status),
    {
        let index = lane_of_side(status.index);
        let worktree = lane_of_side(status.worktree);
        if git_rank_of(worktree) > git_rank_of(index) {
            worktree
        } else {
            index
        }
    }

    /// The single-letter badge behind a row's name.
    pub fn badge(self) -> (letter: &'static str)
        ensures
            letter@ == seq![git_letter(self)],
    {
        match self {
            GitRollupStatus::Conflicted => {
                proof {
                    reveal_strlit("C");
                    assert("C"@ =~= seq!['C']);
                }
                "C"
            },
            GitRollupStatus::Changed => {
                proof {
                    reveal_strlit("M");
                    assert("M"@ =~= seq!['M']);
                }
                "M"
            },
            GitRollupStatus::Untracked => {
                proof {
                    reveal_strlit("U");
                    assert("U"@ =~= seq!['U']);
                }
                "U"
            },
        }
    }
}

/// How pressing a rolled-up status is; clean is the least.
pub open spec fn git_rank(status: Option<GitRollupStatus>) -> int {
    match status {
        None => 0,
        Some(GitRollupStatus::Untracked) => 1,
        Some(GitRollupStatus::Changed) => 2,
        Some(GitRollupStatus::Conflicted) => 3,
    }
}

/// The more pressing of two statuses.
pub open spec fn worse_git(
    a: Option<GitRollupStatus>,
    b: Option<GitRollupStatus>,
) -> Option<GitRollupStatus> {
    if git_rank(b) > git_rank(a) {
        b
    } else {
        a
    }
}

fn git_rank_of(status: Option<GitRollupStatus>) -> (rank: u8)
    ensures
        rank == git_rank(status),
{
    match status {
        None => 0,
        Some(GitRollupStatus::Untracked) => 1,
        Some(GitRollupStatus::Changed) => 2,
        Some(GitRollupStatus::Conflicted) => 3,
    }
}

fn lane_of_side(code: GitStatusCode) -> (lane: Option<GitRollupStatus>)
    ensures
        lane == side_lane(code),
{
    match code {
        GitStatusCode::Unmodified => None,
        GitStatusCode::Untracked => Some(GitRollupStatus::Untracked),
        GitStatusCode::Unmerged => Some(GitRollupStatus::Conflicted),
        _ => Some(GitRollupStatus::Changed),
    }
}

// ---------------------------------------------------------------------------
// Severity
// ---------------------------------------------------------------------------

/// How pressing a severity is.
pub open spec fn rank_of_severity(severity: DiagnosticSeverity) -> int {
    match severity {
        DiagnosticSeverity::Error => 3,
        DiagnosticSeverity::Warning => 2,
        DiagnosticSeverity::Information => 1,
        DiagnosticSeverity::Hint => 0,
    }
}

/// The more pressing of two severities, the first where they tie.
pub open spec fn worse_of(a: DiagnosticSeverity, b: DiagnosticSeverity) -> DiagnosticSeverity {
    if rank_of_severity(b) > rank_of_severity(a) {
        b
    } else {
        a
    }
}

/// The more pressing of two optional severities; none loses to any.
pub open spec fn worse_opt(
    a: Option<DiagnosticSeverity>,
    b: Option<DiagnosticSeverity>,
) -> Option<DiagnosticSeverity> {
    match (a, b) {
        (None, None) => None,
        (Some(s), None) => Some(s),
        (None, Some(s)) => Some(s),
        (Some(x), Some(y)) => Some(worse_of(x, y)),
    }
}

/// Ranks a severity for comparison: `Error` is the worst.
pub fn severity_rank(severity: DiagnosticSeverity) -> (rank: u8)
    ensures
        rank == rank_of_severity(severity),
{
    match severity {
        DiagnosticSeverity::Error => 3,
        DiagnosticSeverity::Warning => 2,
        DiagnosticSeverity::Information => 1,
        DiagnosticSeverity::Hint => 0,
    }
}

/// The worse of two severities.
pub fn worse_severity(a: DiagnosticSeverity, b: DiagnosticSeverity) -> (worse: DiagnosticSeverity)
    ensures
        worse == worse_of(a, b),
{
    if severity_rank(b) > severity_rank(a) {
        b
    } else {
        a
    }
}

/// The worse of two optional severities.
pub fn max_severity(
    a: Option<DiagnosticSeverity>,
    b: Option<DiagnosticSeverity>,
) -> (worse: Option<DiagnosticSeverity>)
    ensures
        worse == worse_opt(a, b),
{
    match (a, b) {
        (None, None) => None,
        (Some(s), None) => Some(s),
        (None, Some(s)) => Some(s),
        (Some(x), Some(y)) => Some(worse_severity(x, y)),
    }
}

/// The worst severity among `items`.
pub open spec fn items_severity(items: Seq<Diagnostic>) -> Option<DiagnosticSeverity>
    decreases items.len(),
{
    if items.len() == 0 {
        None
    } else {
        worse_opt(items_severity(items.drop_last()), Some(items.last().severity))
    }
}

/// The worst severity among everything that `servers` report.
pub open spec fn servers_severity(servers: Seq<ServerDiagnostics>) -> Option<DiagnosticSeverity>
    decreases servers.len(),
{
    if servers.len() == 0 {
        None
    } else {
        worse_opt(servers_severity(servers.drop_last()), items_severity(servers.last().items@))
    }
}

/// The worst severity that any server reports for `path`.
pub open spec fn severity_of(model: WorktreeView, path: Seq<char>) -> Option<DiagnosticSeverity> {
    if ordered::has_key(model.diagnostics, path) {
        servers_severity(ordered::as_map(model.diagnostics)[path].servers.seq())
    } else {
        None
    }
}

fn worst_item(items: &Vec<Diagnostic>) -> (worst: Option<DiagnosticSeverity>)
    ensures
        worst == items_severity(items@),
{
    let mut worst: Option<DiagnosticSeverity> = None;
    let mut i: usize = 0;
    while i < items.len()
        invariant
            i <= items.len(),
            worst == items_severity(items@.take(i as int)),
        decreases items.len() - i,
    {
        proof {
            assert(items@.take(i + 1).drop_last() =~= items@.take(i as int));
        }
        worst = max_severity(worst, Some(items[i].severity));
        i = i + 1;
    }
    proof {
        assert(items@.take(i as int) =~= items@);
    }
    worst
}

/// The worst severity that any server reports for `path`.
pub fn own_severity(model: &WorktreeModel, path: &str) -> (worst: Option<DiagnosticSeverity>)
    requires
        model.wf(),
    ensures
        worst == severity_of(model@, path@),
{
    match model.diagnostics(path) {
        None => None,
        Some(file) => {
            let ghost servers = file.servers.seq();
            let mut worst: Option<DiagnosticSeverity> = None;
            let mut i: usize = 0;
            while i < file.servers.len()
                invariant
                    i <= servers.len(),
                    servers == file.servers.seq(),
                    worst == servers_severity(servers.take(i as int)),
                decreases servers.len() - i,
            {
                proof {
                    assert(servers.take(i + 1).drop_last() =~= servers.take(i as int));
                }
                let found = worst_item(&file.servers.at(i).items);
                worst = max_severity(worst, found);
                i = i + 1;
            }
            proof {
                assert(servers.take(i as int) =~= servers);
            }
            worst
        },
    }
}

// ---------------------------------------------------------------------------
// Roll-up
// ---------------------------------------------------------------------------

/// The decoration of one row.
#[derive(Clone, Copy, Debug, PartialEq, Eq)]
pub struct Rollup {
    pub git_status: Option<GitRollupStatus>,
    pub severity: Option<DiagnosticSeverity>,
}

impl Default for Rollup {
    /// Nothing to show.
    fn default() -> (clean: Self)
        ensures
            clean == (Rollup { git_status: None, severity: None }),
    {
        Rollup { git_status: None, severity: None }
    }
}

/// The worse of two decorations in each dimension.
pub open spec fn merged(a: Rollup, b: Rollup) -> Rollup {
    Rollup {
        git_status: worse_git(a.git_status, b.git_status),
        severity: worse_opt(a.severity, b.severity),
    }
}

/// The decoration of a clean row.
pub open spec fn clean() -> Rollup {
    Rollup { git_status: None, severity: None }
}

impl Rollup {
    /// Folds `other` in, keeping the worse of each dimension.
    pub fn merge(&mut self, other: Rollup)
        ensures
            *final(self) == merged(*old(self), other),
    {
        if git_rank_of(other.git_status) > git_rank_of(self.git_status) {
            self.git_status = other.git_status;
        }
        self.severity = max_severity(self.severity, other.severity);
    }
}

/// The git lane of `path` itself.
pub open spec fn lane_of(model: WorktreeView, path: Seq<char>) -> Option<GitRollupStatus> {
    if ordered::has_key(model.git, path) {
        git_lane(ordered::as_map(model.git)[path].status)
    } else {
        None
    }
}

/// The decoration that `path` itself calls for.
pub open spec fn own_rollup(model: WorktreeView, path: Seq<char>) -> Rollup {
    Rollup { git_status: lane_of(model, path), severity: severity_of(model, path) }
}

/// The row of `entry` stands for `path`: it is the path, or a directory above it.
pub open spec fn covers(entry: WorktreeEntry, path: Seq<char>) -> bool {
    entry.path@ == path || (entry.kind == EntryKind::Dir && paths::under(entry.path@, path))
}

/// The worst decoration among the first `n` entries of the tree that the row
/// of `entry` stands for.
pub open spec fn rollup_among(model: WorktreeView, entry: WorktreeEntry, n: nat) -> Rollup
    decreases n,
{
    if n == 0 {
        clean()
    } else {
        let rest = rollup_among(model, entry, (n - 1) as nat);
        let path = model.entries[n - 1].path@;
        if covers(entry, path) {
            merged(rest, own_rollup(model, path))
        } else {
            rest
        }
    }
}

/// The most pressing lane among the first `n` git statuses whose path has left
/// the tree and lay below `path`: deleted files, which have no row.
pub open spec fn gone_among(model: WorktreeView, path: Seq<char>, n: nat) -> Option<
    GitRollupStatus,
>
    decreases n,
{
    if n == 0 {
        None
    } else {
        let rest = gone_among(model, path, (n - 1) as nat);
        let gone = model.git[n - 1];
        if !model.has(gone.path@) && paths::under(path, gone.path@) {
            worse_git(rest, git_lane(gone.status))
        } else {
            rest
        }
    }
}

/// The decoration of the row of `entry`: the worst of everything it stands for.
pub open spec fn decoration(model: WorktreeView, entry: WorktreeEntry) -> Rollup {
    merged(
        rollup_among(model, entry, model.entries.len()),
        Rollup {
            git_status: gone_among(model, entry.path@, model.git.len()),
            severity: None,
        },
    )
}

/// The positions of the directories before `i` that may still have
/// descendants at `i` or later, outermost first.
pub open spec fn open_dirs(entries: Seq<WorktreeEntry>, stack: Seq<usize>, i: int) -> bool {
    &&& forall|s: int|
        0 <= s < stack.len() ==> #[trigger] stack[s] < i && entries[stack[s] as int].kind
            == EntryKind::Dir
    &&& forall|s: int, t: int| 0 <= s < t < stack.len() ==> stack[s] < stack[t]
    &&& forall|j: int, k: int|
        0 <= j < i <= k < entries.len() && entries[j].kind == EntryKind::Dir
            && #[trigger] paths::under(entries[j].path@, entries[k].path@) ==> stack.contains(
            j as usize,
        )
}

/// In path order, `path` has moved past everything below `dir`.
pub open spec fn past_dir(dir: Seq<char>, path: Seq<char>) -> bool {
    !paths::under(dir, path) && !text::text_lt(path, dir.push('/'))
}

/// Drops the directories that the walk has left behind when it reaches `i`.
pub(crate) fn close_dirs(entries: &KeyedVec<WorktreeEntry>, stack: &mut Vec<usize>, i: usize)
    requires
        entries.wf(),
        i < entries.seq().len(),
        open_dirs(entries.seq(), old(stack)@, i as int),
    ensures
        open_dirs(entries.seq(), final(stack)@, i as int),
        final(stack)@.is_prefix_of(old(stack)@),
        forall|s: int|
            final(stack)@.len() <= s < old(stack)@.len() ==> past_dir(
                entries.seq()[#[trigger] old(stack)@[s] as int].path@,
                entries.seq()[i as int].path@,
            ),
        final(stack)@.len() > 0 ==> !past_dir(
            entries.seq()[final(stack)@.last() as int].path@,
            entries.seq()[i as int].path@,
        ),
{
    let ghost seq = entries.seq();
    let ghost all = stack@;
    let path = entries.at(i).path.as_str();
    proof {
        assert(all =~= all.subrange(0, all.len() as int));
    }
    loop
        invariant
            entries.wf(),
            seq == entries.seq(),
            i < seq.len(),
            path@ == seq[i as int].path@,
            open_dirs(seq, stack@, i as int),
            all == old(stack)@,
            stack@.is_prefix_of(all),
            forall|s: int|
                stack@.len() <= s < all.len() ==> past_dir(
                    seq[#[trigger] all[s] as int].path@,
                    path@,
                ),
        decreases stack@.len(),
    {
        if stack.len() == 0 {
            return;
        }
        let last: usize = stack[stack.len() - 1];
        assert(stack@[stack@.len() - 1] < i);
        let mut prefix = entries.at(last).path.clone();
        prefix.push('/');
        if text::starts_with(path, prefix.as_str()) || text::sorts_before(path, prefix.as_str()) {
            return;
        }
        let ghost before = stack@;
        let _ = stack.pop();
        proof {
            let dir = seq[last as int].path@;
            assert(before[before.len() - 1] == all.subrange(0, before.len() as int)[before.len()
                - 1]);
            assert(stack@ =~= all.subrange(0, stack@.len() as int));
            assert forall|j: int, k: int|
                0 <= j < i <= k < seq.len() && seq[j].kind == EntryKind::Dir
                    && #[trigger] paths::under(seq[j].path@, seq[k].path@) implies stack@.contains(
                j as usize,
            ) by {
                assert(before.contains(j as usize));
                let s = choose|s: int| 0 <= s < before.len() && before[s] == j as usize;
                if s == before.len() - 1 {
                    assert(j == last);
                    if k > i {
                        assert(seq[i as int].key() == seq[i as int].path@);
                        assert(seq[k].key() == seq[k].path@);
                        paths::lemma_past_prefix(
                            dir.push('/'),
                            seq[i as int].path@,
                            seq[k].path@,
                        );
                    }
                } else {
                    assert(stack@[s] == j as usize);
                }
            }
        }
    }
}

proof fn lemma_nothing_before(model: WorktreeView, i: int, n: nat)
    requires
        model.wf(),
        0 <= i < model.entries.len(),
        n <= i,
    ensures
        rollup_among(model, model.entries[i], n) == clean(),
    decreases n,
{
    if n > 0 {
        lemma_nothing_before(model, i, (n - 1) as nat);
        let entry = model.entries[i];
        let path = model.entries[n - 1].path@;
        assert(model.entries[n - 1].key() == path && entry.key() == entry.path@);
        assert(text::text_lt(path, entry.path@));
        text::lemma_text_lt_asymmetric(path, entry.path@);
        if paths::under(entry.path@, path) {
            paths::lemma_under_sorts_after(entry.path@, path);
        }
    }
}

/// The decoration of every row, in the order of the entries.
///
/// One walk folds each entry into the directories above it. A second pass
/// folds the statuses of deleted files into the rows that remain above them.
pub fn compute_rollup(model: &WorktreeModel) -> (rollups: Vec<Rollup>)
    requires
        model.wf(),
    ensures
        rollups@.len() == model@.entries.len(),
        forall|i: int|
            0 <= i < rollups@.len() ==> #[trigger] rollups@[i] == decoration(
                model@,
                model@.entries[i],
            ),
{
    let ghost m = model@;
    let entries = model.entries();
    let mut rollups: Vec<Rollup> = Vec::new();
    let mut stack: Vec<usize> = Vec::new();
    let mut i: usize = 0;
    while i < entries.len()
        invariant
            m == model@,
            model.wf(),
            entries.seq() == m.entries,
            i <= m.entries.len(),
            rollups@.len() == i,
            open_dirs(m.entries, stack@, i as int),
            forall|j: int|
                0 <= j < i ==> #[trigger] rollups@[j] == rollup_among(m, m.entries[j], i as nat),
        decreases m.entries.len() - i,
    {
        close_dirs(entries, &mut stack, i);
        let entry = entries.at(i);
        let lane = match model.git_status(entry.path.as_str()) {
            Some(status) => GitRollupStatus::from_status(status),
            None => None,
        };
        let own = Rollup {
            git_status: lane,
            severity: own_severity(model, entry.path.as_str()),
        };
        assert(own == own_rollup(m, m.entries[i as int].path@));
        fold_into_open(entries, &stack, &mut rollups, i, own, Ghost(m));
        proof {
            lemma_nothing_before(m, i as int, i as nat);
        }
        let mut first = Rollup { git_status: None, severity: None };
        first.merge(own);
        rollups.push(first);
        let ghost before = stack@;
        if entry.kind == EntryKind::Dir {
            stack.push(i);
        }
        proof {
            assert forall|j: int, k: int|
                0 <= j < i + 1 <= k < m.entries.len() && m.entries[j].kind == EntryKind::Dir
                    && #[trigger] paths::under(
                    m.entries[j].path@,
                    m.entries[k].path@,
                ) implies stack@.contains(j as usize) by {
                if j == i {
                    assert(stack@[before.len() as int] == i);
                } else {
                    assert(before.contains(j as usize));
                    let s = choose|s: int| 0 <= s < before.len() && before[s] == j as usize;
                    assert(stack@[s] == j as usize);
                }
            }
        }
        i = i + 1;
    }
    fold_gone(model, &mut rollups);
    rollups
}

/// Folds `own`, the decoration of entry `i`, into the open directories above it.
fn fold_into_open(
    entries: &KeyedVec<WorktreeEntry>,
    stack: &Vec<usize>,
    rollups: &mut Vec<Rollup>,
    i: usize,
    own: Rollup,
    Ghost(m): Ghost<WorktreeView>,
)
    requires
        m.wf(),
        entries.seq() == m.entries,
        i < m.entries.len(),
        old(rollups)@.len() == i,
        open_dirs(m.entries, stack@, i as int),
        own == own_rollup(m, m.entries[i as int].path@),
        forall|j: int|
            0 <= j < i ==> #[trigger] old(rollups)@[j] == rollup_among(
                m,
                m.entries[j],
                i as nat,
            ),
    ensures
        final(rollups)@.len() == i,
        forall|j: int|
            0 <= j < i ==> #[trigger] final(rollups)@[j] == rollup_among(
                m,
                m.entries[j],
                (i + 1) as nat,
            ),
{
    let ghost before = rollups@;
    let ghost path = m.entries[i as int].path@;
    let mut s: usize = 0;
    while s < stack.len()
        invariant
            m.wf(),
            entries.seq() == m.entries,
            i < m.entries.len(),
            path == m.entries[i as int].path@,
            s <= stack.len(),
            rollups@.len() == i,
            before.len() == i,
            open_dirs(m.entries, stack@, i as int),
            own == own_rollup(m, path),
            forall|j: int|
                0 <= j < i ==> #[trigger] rollups@[j] == if stack@.take(s as int).contains(
                    j as usize,
                ) && paths::under(m.entries[j].path@, path) {
                    merged(before[j], own)
                } else {
                    before[j]
                },
        decreases stack.len() - s,
    {
        let dir: usize = stack[s];
        assert(stack@[s as int] < i);
        let ghost earlier = rollups@;
        let ghost seen = stack@.take(s as int);
        let ghost now = stack@.take(s + 1);
        assert(!seen.contains(dir)) by {
            if seen.contains(dir) {
                let t = choose|t: int| 0 <= t < seen.len() && seen[t] == dir;
                assert(stack@[t] < stack@[s as int]);
            }
        }
        if paths::is_under(entries.at(dir).path.as_str(), entries.at(i).path.as_str()) {
            let mut folded: Rollup = rollups[dir];
            folded.merge(own);
            rollups.set(dir, folded);
        }
        proof {
            assert forall|j: int| 0 <= j < i implies #[trigger] rollups@[j]
                == if now.contains(j as usize) && paths::under(m.entries[j].path@, path) {
                merged(before[j], own)
            } else {
                before[j]
            } by {
                assert(rollups@[j] == if j == dir && paths::under(m.entries[j].path@, path) {
                    merged(earlier[j], own)
                } else {
                    earlier[j]
                });
                if seen.contains(j as usize) {
                    let t = choose|t: int| 0 <= t < seen.len() && seen[t] == j as usize;
                    assert(now[t] == j as usize);
                }
                if now.contains(j as usize) && j != dir {
                    let t = choose|t: int| 0 <= t < now.len() && now[t] == j as usize;
                    assert(t < s);
                    assert(seen[t] == j as usize);
                }
                if j == dir {
                    assert(now[s as int] == j as usize);
                }
            }
        }
        s = s + 1;
    }
    proof {
        assert(stack@.take(s as int) =~= stack@);
        assert forall|j: int| 0 <= j < i implies #[trigger] rollups@[j] == rollup_among(
            m,
            m.entries[j],
            (i + 1) as nat,
        ) by {
            let entry = m.entries[j];
            assert(before[j] == rollup_among(m, entry, i as nat));
            assert(entry.key() == entry.path@ && m.entries[i as int].key() == path);
            assert(text::text_lt(entry.path@, path));
            text::lemma_text_lt_asymmetric(entry.path@, path);
            if stack@.contains(j as usize) {
                let t = choose|t: int| 0 <= t < stack@.len() && stack@[t] == j as usize;
                assert(stack@[t] < i);
            }
        }
    }
}

proof fn lemma_worse_git_laws(
    a: Option<GitRollupStatus>,
    b: Option<GitRollupStatus>,
    c: Option<GitRollupStatus>,
)
    ensures
        worse_git(worse_git(a, b), c) == worse_git(a, worse_git(b, c)),
        worse_git(worse_git(a, b), b) == worse_git(a, b),
        worse_git(a, None) == a,
        worse_git(None, a) == a,
{
}

/// Folds the statuses of paths that have left the tree into the rows above them.
fn fold_gone(model: &WorktreeModel, rollups: &mut Vec<Rollup>)
    requires
        model.wf(),
        old(rollups)@.len() == model@.entries.len(),
        forall|j: int|
            0 <= j < old(rollups)@.len() ==> #[trigger] old(rollups)@[j] == rollup_among(
                model@,
                model@.entries[j],
                model@.entries.len(),
            ),
    ensures
        final(rollups)@.len() == model@.entries.len(),
        forall|j: int|
            0 <= j < final(rollups)@.len() ==> #[trigger] final(rollups)@[j] == decoration(
                model@,
                model@.entries[j],
            ),
{
    let ghost m = model@;
    let ghost start = rollups@;
    let git = model.git_statuses();
    let mut n: usize = 0;
    while n < git.len()
        invariant
            m == model@,
            model.wf(),
            git.seq() == m.git,
            n <= m.git.len(),
            start.len() == m.entries.len(),
            rollups@.len() == m.entries.len(),
            forall|j: int|
                0 <= j < start.len() ==> #[trigger] rollups@[j] == merged(
                    start[j],
                    Rollup {
                        git_status: gone_among(m, m.entries[j].path@, n as nat),
                        severity: None,
                    },
                ),
        decreases m.git.len() - n,
    {
        let gone = git.at(n);
        let ghost before = rollups@;
        if model.get(gone.path.as_str()).is_none() {
            let lane = GitRollupStatus::from_status(gone.status);
            if lane.is_some() {
                fold_onto_ancestors(model, rollups, gone.path.as_str(), lane);
            }
        }
        proof {
            assert forall|j: int| 0 <= j < start.len() implies #[trigger] rollups@[j] == merged(
                start[j],
                Rollup {
                    git_status: gone_among(m, m.entries[j].path@, (n + 1) as nat),
                    severity: None,
                },
            ) by {
                let path = m.entries[j].path@;
                lemma_worse_git_laws(
                    start[j].git_status,
                    gone_among(m, path, n as nat),
                    git_lane(m.git[n as int].status),
                );
                lemma_worse_git_laws(gone_among(m, path, n as nat), None, None);
                assert(before[j] == merged(
                    start[j],
                    Rollup { git_status: gone_among(m, path, n as nat), severity: None },
                ));
            }
        }
        n = n + 1;
    }
}

/// Folds `lane` into every row that stands above `path`.
fn fold_onto_ancestors(
    model: &WorktreeModel,
    rollups: &mut Vec<Rollup>,
    path: &str,
    lane: Option<GitRollupStatus>,
)
    requires
        model.wf(),
        old(rollups)@.len() == model@.entries.len(),
    ensures
        final(rollups)@.len() == model@.entries.len(),
        forall|j: int|
            0 <= j < final(rollups)@.len() ==> #[trigger] final(rollups)@[j] == if paths::under(
                model@.entries[j].path@,
                path@,
            ) {
                merged(old(rollups)@[j], (Rollup { git_status: lane, severity: None }))
            } else {
                old(rollups)@[j]
            },
{
    let ghost m = model@;
    let ghost start = rollups@;
    let ghost own = Rollup { git_status: lane, severity: None };
    let dirs = paths::ancestor_dirs(path);
    let entries = model.entries();
    let ghost all = paths::ancestors(path@);
    let mut a: usize = 0;
    while a < dirs.len()
        invariant
            m == model@,
            model.wf(),
            entries.seq() == m.entries,
            a <= dirs.len(),
            all == paths::ancestors(path@),
            dirs@.len() == all.len(),
            forall|k: int| 0 <= k < dirs@.len() ==> (#[trigger] dirs@[k])@ == all[k],
            own == (Rollup { git_status: lane, severity: None }),
            start.len() == m.entries.len(),
            rollups@.len() == m.entries.len(),
            forall|j: int|
                0 <= j < start.len() ==> #[trigger] rollups@[j] == if all.take(a as int).contains(
                    m.entries[j].path@,
                ) {
                    merged(start[j], own)
                } else {
                    start[j]
                },
        decreases dirs.len() - a,
    {
        let ghost before = rollups@;
        let ghost seen = all.take(a as int);
        let ghost now = all.take(a + 1);
        let ghost dir = all[a as int];
        assert(now =~= seen.push(dir));
        assert(dirs@[a as int]@ == dir);
        match entries.position(dirs[a].as_str()) {
            Some(at) => {
                let mut folded: Rollup = rollups[at];
                folded.merge(Rollup { git_status: lane, severity: None });
                rollups.set(at, folded);
                proof {
                    assert forall|j: int| 0 <= j < start.len() implies #[trigger] rollups@[j]
                        == if now.contains(m.entries[j].path@) {
                        merged(start[j], own)
                    } else {
                        start[j]
                    } by {
                        let p = m.entries[j].path@;
                        vstd::seq_lib::lemma_seq_contains_after_push(seen, dir, p);
                        assert(m.entries[at as int].key() == m.entries[at as int].path@);
                        if j == at {
                            assert(p == dir);
                            lemma_worse_git_laws(start[j].git_status, lane, None);
                            assert(merged(merged(start[j], own), own) == merged(start[j], own));
                        } else {
                            assert(m.entries[j].key() == p);
                            if p == dir {
                                ordered::lemma_key_index(m.entries, j);
                                ordered::lemma_key_index(m.entries, at as int);
                            }
                        }
                    }
                }
            },
            None => {
                proof {
                    assert forall|j: int| 0 <= j < start.len() implies #[trigger] rollups@[j]
                        == if now.contains(m.entries[j].path@) {
                        merged(start[j], own)
                    } else {
                        start[j]
                    } by {
                        let p = m.entries[j].path@;
                        vstd::seq_lib::lemma_seq_contains_after_push(seen, dir, p);
                        assert(m.entries[j].key() == p);
                        if p == dir {
                            assert(ordered::has_key(m.entries, dir));
                        }
                    }
                }
            },
        }
        a = a + 1;
    }
    proof {
        assert(all.take(a as int) =~= all);
        assert forall|j: int| 0 <= j < start.len() implies #[trigger] rollups@[j]
            == if paths::under(m.entries[j].path@, path@) {
            merged(start[j], own)
        } else {
            start[j]
        } by {
            paths::lemma_ancestors_are_under(path@, m.entries[j].path@);
        }
    }
}

// ---------------------------------------------------------------------------
// Laws
// ---------------------------------------------------------------------------

/// How pressing an optional severity is; none is the least.
pub open spec fn severity_level(severity: Option<DiagnosticSeverity>) -> int {
    match severity {
        None => -1,
        Some(s) => rank_of_severity(s),
    }
}

/// `a` is at least as pressing as `b` in each dimension.
pub open spec fn at_least(a: Rollup, b: Rollup) -> bool {
    git_rank(a.git_status) >= git_rank(b.git_status) && severity_level(a.severity)
        >= severity_level(b.severity)
}

proof fn lemma_among_bounds(model: WorktreeView, entry: WorktreeEntry, n: nat, k: int)
    requires
        n <= model.entries.len(),
        0 <= k < n,
        covers(entry, model.entries[k].path@),
    ensures
        at_least(rollup_among(model, entry, n), own_rollup(model, model.entries[k].path@)),
    decreases n,
{
    if k < n - 1 {
        lemma_among_bounds(model, entry, (n - 1) as nat, k);
    }
}

proof fn lemma_gone_bounds(model: WorktreeView, path: Seq<char>, n: nat, k: int)
    requires
        n <= model.git.len(),
        0 <= k < n,
        !model.has(model.git[k].path@),
        paths::under(path, model.git[k].path@),
    ensures
        git_rank(gone_among(model, path, n)) >= git_rank(git_lane(model.git[k].status)),
    decreases n,
{
    if k < n - 1 {
        lemma_gone_bounds(model, path, (n - 1) as nat, k);
    }
}

/// Entry `k` is one that the row of `entry` stands for, and it has the git
/// lane `status`.
pub open spec fn shows_git(
    model: WorktreeView,
    entry: WorktreeEntry,
    k: int,
    status: Option<GitRollupStatus>,
) -> bool {
    &&& 0 <= k < model.entries.len()
    &&& covers(entry, model.entries[k].path@)
    &&& lane_of(model, model.entries[k].path@) == status
}

/// Git status `k` belongs to a deleted path below `path`, and its lane is
/// `status`.
pub open spec fn shows_gone(
    model: WorktreeView,
    path: Seq<char>,
    k: int,
    status: Option<GitRollupStatus>,
) -> bool {
    &&& 0 <= k < model.git.len()
    &&& !model.has(model.git[k].path@)
    &&& paths::under(path, model.git[k].path@)
    &&& git_lane(model.git[k].status) == status
}

/// Entry `k` is one that the row of `entry` stands for, and `severity` is the
/// worst reported for it.
pub open spec fn shows_severity(
    model: WorktreeView,
    entry: WorktreeEntry,
    k: int,
    severity: Option<DiagnosticSeverity>,
) -> bool {
    &&& 0 <= k < model.entries.len()
    &&& covers(entry, model.entries[k].path@)
    &&& severity_of(model, model.entries[k].path@) == severity
}

proof fn lemma_among_attained(model: WorktreeView, entry: WorktreeEntry, n: nat)
    requires
        n <= model.entries.len(),
    ensures
        rollup_among(model, entry, n).git_status is Some ==> exists|k: int|
            shows_git(model, entry, k, rollup_among(model, entry, n).git_status),
        rollup_among(model, entry, n).severity is Some ==> exists|k: int|
            shows_severity(model, entry, k, rollup_among(model, entry, n).severity),
    decreases n,
{
    if n > 0 {
        lemma_among_attained(model, entry, (n - 1) as nat);
        let here = rollup_among(model, entry, n);
        let rest = rollup_among(model, entry, (n - 1) as nat);
        let path = model.entries[n - 1].path@;
        if covers(entry, path) {
            if here.git_status is Some && here.git_status != rest.git_status {
                assert(shows_git(model, entry, n - 1, here.git_status));
            }
            if here.severity is Some && here.severity != rest.severity {
                assert(shows_severity(model, entry, n - 1, here.severity));
            }
        }
    }
}

proof fn lemma_gone_attained(model: WorktreeView, path: Seq<char>, n: nat)
    requires
        n <= model.git.len(),
    ensures
        gone_among(model, path, n) is Some ==> exists|k: int|
            shows_gone(model, path, k, gone_among(model, path, n)),
    decreases n,
{
    if n > 0 {
        lemma_gone_attained(model, path, (n - 1) as nat);
        let here = gone_among(model, path, n);
        let rest = gone_among(model, path, (n - 1) as nat);
        if here is Some && here != rest {
            assert(shows_gone(model, path, n - 1, here));
        }
    }
}

/// A row is at least as pressing as every entry it stands for, collapsed or
/// not, and as every deleted path that lay below it.
pub proof fn law_decoration_covers_descendants(model: WorktreeView, entry: WorktreeEntry)
    ensures
        forall|k: int|
            0 <= k < model.entries.len() && covers(entry, (#[trigger] model.entries[k]).path@)
                ==> at_least(
                decoration(model, entry),
                own_rollup(model, model.entries[k].path@),
            ),
        forall|k: int|
            0 <= k < model.git.len() && !model.has((#[trigger] model.git[k]).path@)
                && paths::under(entry.path@, model.git[k].path@) ==> git_rank(
                decoration(model, entry).git_status,
            ) >= git_rank(git_lane(model.git[k].status)),
{
    assert forall|k: int|
        0 <= k < model.entries.len() && covers(
            entry,
            (#[trigger] model.entries[k]).path@,
        ) implies at_least(
        decoration(model, entry),
        own_rollup(model, model.entries[k].path@),
    ) by {
        lemma_among_bounds(model, entry, model.entries.len(), k);
    }
    assert forall|k: int|
        0 <= k < model.git.len() && !model.has((#[trigger] model.git[k]).path@) && paths::under(
            entry.path@,
            model.git[k].path@,
        ) implies git_rank(decoration(model, entry).git_status) >= git_rank(
        git_lane(model.git[k].status),
    ) by {
        lemma_gone_bounds(model, entry.path@, model.git.len(), k);
    }
}

/// A row shows nothing that does not come from what it stands for: no status
/// leaks from a sibling.
pub proof fn law_decoration_is_earned(model: WorktreeView, entry: WorktreeEntry)
    ensures
        decoration(model, entry).git_status is Some ==> (exists|k: int|
            shows_git(model, entry, k, decoration(model, entry).git_status)) || (exists|k: int|
            shows_gone(model, entry.path@, k, decoration(model, entry).git_status)),
        decoration(model, entry).severity is Some ==> exists|k: int|
            shows_severity(model, entry, k, decoration(model, entry).severity),
{
    lemma_among_attained(model, entry, model.entries.len());
    lemma_gone_attained(model, entry.path@, model.git.len());
}

/// Severities rank from errors over warnings and notes down to hints.
pub proof fn law_severities_rank()
    ensures
        rank_of_severity(DiagnosticSeverity::Error) > rank_of_severity(DiagnosticSeverity::Warning),
        rank_of_severity(DiagnosticSeverity::Warning) > rank_of_severity(
            DiagnosticSeverity::Information,
        ),
        rank_of_severity(DiagnosticSeverity::Information) > rank_of_severity(
            DiagnosticSeverity::Hint,
        ),
{
}

/// Diagnostic `i` of server `s` in file `f` is one of `path`.
pub open spec fn reports(model: WorktreeView, path: Seq<char>, f: int, s: int, i: int) -> bool {
    &&& 0 <= f < model.diagnostics.len()
    &&& model.diagnostics[f].path@ == path
    &&& 0 <= s < model.diagnostics[f].servers.seq().len()
    &&& 0 <= i < model.diagnostics[f].servers.seq()[s].items@.len()
}

/// The severity of diagnostic `i` of server `s` in file `f`.
pub open spec fn reported_severity(
    model: WorktreeView,
    f: int,
    s: int,
    i: int,
) -> DiagnosticSeverity {
    model.diagnostics[f].servers.seq()[s].items@[i].severity
}

proof fn lemma_worst_item(items: Seq<Diagnostic>)
    ensures
        items_severity(items) is None <==> items.len() == 0,
        forall|i: int|
            0 <= i < items.len() ==> rank_of_severity(items_severity(items)->0)
                >= rank_of_severity((#[trigger] items[i]).severity),
        items_severity(items) matches Some(worst) ==> exists|i: int|
            0 <= i < items.len() && (#[trigger] items[i]).severity == worst,
    decreases items.len(),
{
    if items.len() > 0 {
        let rest = items.drop_last();
        lemma_worst_item(rest);
        let worst = items_severity(items)->0;
        assert forall|i: int| 0 <= i < items.len() implies rank_of_severity(worst)
            >= rank_of_severity((#[trigger] items[i]).severity) by {
            if i < rest.len() {
                assert(rest[i] == items[i]);
            }
        }
        if worst == items.last().severity {
            assert(items[items.len() - 1].severity == worst);
        } else {
            let i = choose|i: int| 0 <= i < rest.len() && (#[trigger] rest[i]).severity == worst;
            assert(items[i].severity == worst);
        }
    }
}

proof fn lemma_worst_server(servers: Seq<ServerDiagnostics>)
    ensures
        forall|s: int, i: int|
            0 <= s < servers.len() && 0 <= i < servers[s].items@.len() ==> servers_severity(servers)
                is Some && rank_of_severity(servers_severity(servers)->0) >= rank_of_severity(
                (#[trigger] servers[s].items@[i]).severity,
            ),
        servers_severity(servers) matches Some(worst) ==> exists|s: int, i: int|
            0 <= s < servers.len() && 0 <= i < servers[s].items@.len() && (
            #[trigger] servers[s].items@[i]).severity == worst,
    decreases servers.len(),
{
    if servers.len() > 0 {
        let rest = servers.drop_last();
        let own = servers.last().items@;
        lemma_worst_server(rest);
        lemma_worst_item(own);
        let found = servers_severity(servers);
        assert forall|s: int, i: int|
            0 <= s < servers.len() && 0 <= i < servers[s].items@.len() implies found is Some
            && rank_of_severity(found->0) >= rank_of_severity(
            (#[trigger] servers[s].items@[i]).severity,
        ) by {
            if s < rest.len() {
                assert(rest[s].items@[i] == servers[s].items@[i]);
            } else {
                assert(own[i] == servers[s].items@[i]);
            }
        }
        if let Some(worst) = found {
            if items_severity(own) == Some(worst) {
                let i = choose|i: int| 0 <= i < own.len() && (#[trigger] own[i]).severity == worst;
                assert(servers[servers.len() - 1].items@[i].severity == worst);
            } else {
                assert(servers_severity(rest) == Some(worst));
                let (s, i) = choose|s: int, i: int|
                    0 <= s < rest.len() && 0 <= i < rest[s].items@.len() && (
                    #[trigger] rest[s].items@[i]).severity == worst;
                assert(servers[s].items@[i].severity == worst);
            }
        }
    }
}

proof fn lemma_severity_of(model: WorktreeView, path: Seq<char>)
    requires
        model.wf(),
    ensures
        forall|f: int, s: int, i: int| #[trigger]
            reports(model, path, f, s, i) ==> severity_of(model, path) is Some && rank_of_severity(
                severity_of(model, path)->0,
            ) >= rank_of_severity(reported_severity(model, f, s, i)),
        severity_of(model, path) matches Some(worst) ==> exists|f: int, s: int, i: int| #[trigger]
            reports(model, path, f, s, i) && reported_severity(model, f, s, i) == worst,
{
    let worst = severity_of(model, path);
    assert forall|f: int, s: int, i: int| #[trigger] reports(model, path, f, s, i) implies worst
        is Some && rank_of_severity(worst->0) >= rank_of_severity(
        reported_severity(model, f, s, i),
    ) by {
        assert(model.diagnostics[f].key() == path);
        ordered::lemma_key_index(model.diagnostics, f);
        lemma_worst_server(model.diagnostics[f].servers.seq());
        let item = model.diagnostics[f].servers.seq()[s].items@[i];
    }
    if let Some(severity) = worst {
        let f = ordered::key_index(model.diagnostics, path);
        assert(model.diagnostics[f].key() == path);
        let servers = model.diagnostics[f].servers.seq();
        lemma_worst_server(servers);
        let (s, i) = choose|s: int, i: int|
            0 <= s < servers.len() && 0 <= i < servers[s].items@.len() && (
            #[trigger] servers[s].items@[i]).severity == severity;
        assert(reports(model, path, f, s, i));
    }
}

/// A path's severity is the worst of everything that any server reports for it:
/// no reported diagnostic is worse, one of them has it, and it is none exactly
/// where nothing is reported.
pub proof fn law_own_severity_is_the_worst_reported(
    model: WorktreeModel,
    path: &str,
    worst: Option<DiagnosticSeverity>,
)
    requires
        model.wf(),
        call_ensures(own_severity, (&model, path), worst),
    ensures
        forall|f: int, s: int, i: int| #[trigger]
            reports(model@, path@, f, s, i) ==> worst is Some && rank_of_severity(worst->0)
                >= rank_of_severity(reported_severity(model@, f, s, i)),
        worst matches Some(severity) ==> exists|f: int, s: int, i: int| #[trigger]
            reports(model@, path@, f, s, i) && reported_severity(model@, f, s, i) == severity,
{
    lemma_severity_of(model@, path@);
}

/// A row is at least as severe as every single diagnostic of an entry that it
/// stands for, and its severity is that of one of them.
pub proof fn law_rows_show_the_worst_diagnostic(
    model: WorktreeModel,
    rollups: Vec<Rollup>,
    row: int,
)
    requires
        model.wf(),
        call_ensures(compute_rollup, (&model,), rollups),
        0 <= row < model@.entries.len(),
    ensures
        rollups@.len() == model@.entries.len(),
        forall|k: int, f: int, s: int, i: int|
            0 <= k < model@.entries.len() && covers(
                model@.entries[row],
                model@.entries[k].path@,
            ) && #[trigger] reports(model@, model@.entries[k].path@, f, s, i)
                ==> rollups@[row].severity is Some && rank_of_severity(rollups@[row].severity->0)
                >= rank_of_severity(reported_severity(model@, f, s, i)),
        rollups@[row].severity matches Some(severity) ==> exists|k: int, f: int, s: int, i: int|
            0 <= k < model@.entries.len() && covers(
                model@.entries[row],
                model@.entries[k].path@,
            ) && #[trigger] reports(model@, model@.entries[k].path@, f, s, i)
                && reported_severity(model@, f, s, i) == severity,
{
    let m = model@;
    let entry = m.entries[row];
    let shown = rollups@[row];
    assert(shown == decoration(m, entry));
    law_decoration_covers_descendants(m, entry);
    law_decoration_is_earned(m, entry);
    assert forall|k: int, f: int, s: int, i: int|
        0 <= k < m.entries.len() && covers(entry, m.entries[k].path@) && #[trigger] reports(
            m,
            m.entries[k].path@,
            f,
            s,
            i,
        ) implies shown.severity is Some && rank_of_severity(shown.severity->0) >= rank_of_severity(
        reported_severity(m, f, s, i),
    ) by {
        lemma_severity_of(m, m.entries[k].path@);
        assert(at_least(shown, own_rollup(m, m.entries[k].path@)));
    }
    if let Some(severity) = shown.severity {
        let k = choose|k: int| shows_severity(m, entry, k, shown.severity);
        let path = m.entries[k].path@;
        lemma_severity_of(m, path);
        let (f, s, i) = choose|f: int, s: int, i: int| #[trigger]
            reports(m, path, f, s, i) && reported_severity(m, f, s, i) == severity;
        assert(reports(m, m.entries[k].path@, f, s, i));
    }
}

/// One of the two sides of the status is `code`.
pub open spec fn has_side(status: GitEntryStatus, code: GitStatusCode) -> bool {
    status.index == code || status.worktree == code
}

/// A side is neither clean, nor untracked, nor in conflict.
pub open spec fn has_changed_side(status: GitEntryStatus) -> bool {
    exists|code: GitStatusCode|
        #[trigger] has_side(status, code) && code != GitStatusCode::Unmodified && code
            != GitStatusCode::Untracked && code != GitStatusCode::Unmerged
}

/// Both sides are clean.
pub open spec fn is_clean(status: GitEntryStatus) -> bool {
    status.index == GitStatusCode::Unmodified && status.worktree == GitStatusCode::Unmodified
}

/// A conflict on either side shows as one. Without a conflict any change shows,
/// without a change an untracked side does, and a clean path shows nothing.
pub proof fn law_status_is_the_most_pressing_side(
    status: GitEntryStatus,
    lane: Option<GitRollupStatus>,
)
    requires
        call_ensures(GitRollupStatus::from_status, (status,), lane),
    ensures
        lane == Some(GitRollupStatus::Conflicted) <==> has_side(status, GitStatusCode::Unmerged),
        lane == Some(GitRollupStatus::Changed) <==> !has_side(status, GitStatusCode::Unmerged)
            && has_changed_side(status),
        lane == Some(GitRollupStatus::Untracked) <==> !has_side(status, GitStatusCode::Unmerged)
            && !has_changed_side(status) && has_side(status, GitStatusCode::Untracked),
        lane is None <==> is_clean(status),
{
    assert(has_side(status, status.index) && has_side(status, status.worktree));
}

/// The letters behind the names: a conflict is `C`, a change `M`, and what is
/// untracked `U`.
pub proof fn law_badge_letters(status: GitRollupStatus, letter: &'static str)
    requires
        call_ensures(GitRollupStatus::badge, (status,), letter),
    ensures
        status is Conflicted ==> letter@ == "C"@,
        status is Changed ==> letter@ == "M"@,
        status is Untracked ==> letter@ == "U"@,
{
    reveal_strlit("C");
    reveal_strlit("M");
    reveal_strlit("U");
    assert("C"@ =~= seq!['C']);
    assert("M"@ =~= seq!['M']);
    assert("U"@ =~= seq!['U']);
}

/// Git status `k` belongs to something that the row of `entry` stands for: to
/// an entry of the tree, or to a path below it that has left the tree.
pub open spec fn rolls_up(model: WorktreeView, entry: WorktreeEntry, k: int) -> bool {
    &&& 0 <= k < model.git.len()
    &&& if model.has(model.git[k].path@) {
        covers(entry, model.git[k].path@)
    } else {
        paths::under(entry.path@, model.git[k].path@)
    }
}

proof fn lemma_rollup_lane(model: WorktreeView, entry: WorktreeEntry, k: int)
    requires
        model.wf(),
        rolls_up(model, entry, k),
    ensures
        git_rank(decoration(model, entry).git_status) >= git_rank(git_lane(model.git[k].status)),
{
    law_decoration_covers_descendants(model, entry);
    let path = model.git[k].path@;
    if model.has(path) {
        let at = ordered::key_index(model.entries, path);
        assert(model.entries[at].key() == path);
        assert(model.git[k].key() == path);
        ordered::lemma_key_index(model.git, k);
        assert(at_least(decoration(model, entry), own_rollup(model, model.entries[at].path@)));
    }
}

proof fn lemma_rollup_lane_attained(model: WorktreeView, entry: WorktreeEntry)
    requires
        model.wf(),
        decoration(model, entry).git_status is Some,
    ensures
        exists|k: int| #[trigger]
            rolls_up(model, entry, k) && git_lane(model.git[k].status) == decoration(
                model,
                entry,
            ).git_status,
{
    law_decoration_is_earned(model, entry);
    let shown = decoration(model, entry).git_status;
    if exists|k: int| shows_git(model, entry, k, shown) {
        let at = choose|k: int| shows_git(model, entry, k, shown);
        let path = model.entries[at].path@;
        assert(model.entries[at].key() == path);
        let k = ordered::key_index(model.git, path);
        assert(model.git[k].key() == path);
        assert(rolls_up(model, entry, k));
    } else {
        let k = choose|k: int| shows_gone(model, entry.path@, k, shown);
        assert(rolls_up(model, entry, k));
    }
}

/// A row shows a conflict exactly where something it stands for is in conflict,
/// a change where something changed and nothing is in conflict, and what is
/// untracked where there is nothing more pressing.
pub proof fn law_rows_show_the_most_pressing_status(
    model: WorktreeModel,
    rollups: Vec<Rollup>,
    row: int,
)
    requires
        model.wf(),
        call_ensures(compute_rollup, (&model,), rollups),
        0 <= row < model@.entries.len(),
    ensures
        ({
            let m = model@;
            let entry = m.entries[row];
            let shown = rollups@[row].git_status;
            let conflict = exists|k: int| #[trigger]
                rolls_up(m, entry, k) && has_side(m.git[k].status, GitStatusCode::Unmerged);
            let change = exists|k: int| #[trigger]
                rolls_up(m, entry, k) && has_changed_side(m.git[k].status);
            let untracked = exists|k: int| #[trigger]
                rolls_up(m, entry, k) && has_side(m.git[k].status, GitStatusCode::Untracked);
            &&& shown == Some(GitRollupStatus::Conflicted) <==> conflict
            &&& shown == Some(GitRollupStatus::Changed) <==> change && !conflict
            &&& shown == Some(GitRollupStatus::Untracked) <==> untracked && !change && !conflict
            &&& shown is None <==> forall|k: int| #[trigger]
                rolls_up(m, entry, k) ==> is_clean(m.git[k].status)
        }),
{
    let m = model@;
    let entry = m.entries[row];
    let shown = rollups@[row].git_status;
    assert(rollups@[row] == decoration(m, entry));
    assert forall|k: int| #[trigger] rolls_up(m, entry, k) implies {
        let status = m.git[k].status;
        &&& has_side(status, GitStatusCode::Unmerged) ==> git_rank(shown) >= 3
        &&& has_changed_side(status) ==> git_rank(shown) >= 2
        &&& has_side(status, GitStatusCode::Untracked) ==> git_rank(shown) >= 1
        &&& shown is None ==> is_clean(status)
    } by {
        lemma_rollup_lane(m, entry, k);
        let status = m.git[k].status;
        assert(has_side(status, status.index) && has_side(status, status.worktree));
    }
    if shown is Some {
        lemma_rollup_lane_attained(m, entry);
        let k = choose|k: int| #[trigger]
            rolls_up(m, entry, k) && git_lane(m.git[k].status) == shown;
        let status = m.git[k].status;
        assert(has_side(status, status.index) && has_side(status, status.worktree));
    }
}

/// Folding one decoration into another keeps the worse of both in each
/// dimension, and one of the two in each.
pub proof fn law_merge_keeps_the_worse(into: &mut Rollup, other: Rollup)
    requires
        call_ensures(Rollup::merge, (into, other), ()),
    ensures
        at_least(*final(into), *old(into)) && at_least(*final(into), other),
        final(into).git_status == old(into).git_status || final(into).git_status
            == other.git_status,
        final(into).severity == old(into).severity || final(into).severity == other.severity,
{
}

/// A row stands for its own path, a directory's row also for whatever its path
/// followed by a separator begins, and no row for anything else.
pub proof fn law_row_stands_for_its_subtree(entry: WorktreeEntry, path: Seq<char>)
    ensures
        covers(entry, entry.path@),
        forall|rest: Seq<char>|
            entry.kind == EntryKind::Dir ==> covers(entry, #[trigger] (entry.path@.push('/') + rest)),
        covers(entry, path) && path != entry.path@ ==> entry.kind == EntryKind::Dir && path.len()
            > entry.path@.len() && path.take(entry.path@.len() as int) == entry.path@
            && path[entry.path@.len() as int] == '/',
{
    let prefix = entry.path@.push('/');
    assert forall|rest: Seq<char>| entry.kind == EntryKind::Dir implies covers(
        entry,
        #[trigger] (prefix + rest),
    ) by {
        assert(prefix =~= (prefix + rest).subrange(0, prefix.len() as int));
    }
    if covers(entry, path) && path != entry.path@ {
        let n = entry.path@.len() as int;
        assert(prefix[n] == path.subrange(0, prefix.len() as int)[n]);
        assert forall|i: int| 0 <= i < n implies path.take(n)[i] == entry.path@[i] by {
            assert(prefix[i] == path.subrange(0, prefix.len() as int)[i]);
        }
        assert(path.take(n) =~= entry.path@);
    }
}

/// The worse of two severities is one of them and no better than either.
pub proof fn law_worse_severity(
    a: DiagnosticSeverity,
    b: DiagnosticSeverity,
    worse: DiagnosticSeverity,
)
    requires
        call_ensures(worse_severity, (a, b), worse),
    ensures
        worse == a || worse == b,
        rank_of_severity(worse) >= rank_of_severity(a),
        rank_of_severity(worse) >= rank_of_severity(b),
{
}

/// The worse of two optional severities is one of them and no better than
/// either; it is none only where both are.
pub proof fn law_max_severity(
    a: Option<DiagnosticSeverity>,
    b: Option<DiagnosticSeverity>,
    worse: Option<DiagnosticSeverity>,
)
    requires
        call_ensures(max_severity, (a, b), worse),
    ensures
        worse == a || worse == b,
        severity_level(worse) >= severity_level(a),
        severity_level(worse) >= severity_level(b),
        worse is None <==> a is None && b is None,
{
}

/// The numbers that severities are compared by order them as they are ranked.
pub proof fn law_severity_rank_orders(
    a: DiagnosticSeverity,
    b: DiagnosticSeverity,
    left: u8,
    right: u8,
)
    requires
        call_ensures(severity_rank, (a,), left),
        call_ensures(severity_rank, (b,), right),
    ensures
        left == right <==> a == b,
        a == DiagnosticSeverity::Error && b != a ==> left > right,
        a == DiagnosticSeverity::Hint && b != a ==> left < right,
        a == DiagnosticSeverity::Warning && b == DiagnosticSeverity::Information ==> left > right,
{
}

} // verus!
