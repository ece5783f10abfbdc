//! The client mirror of the daemon's worktree: entries, git statuses and
//! diagnostics, each keyed by root-relative path.

use vstd::prelude::*;

use crate::ordered;
use crate::ordered::{Keyed, KeyedVec};
use crate::protocol::{
    Diagnostic, GitEntryStatus, GitStatusEntry, WorktreeEntry,
};
use crate::text;

verus! {

/// The diagnostics that one language server reports for one file.
pub struct ServerDiagnostics {
    pub server: String,
    pub items: Vec<Diagnostic>,
}

impl Keyed for ServerDiagnostics {
    open spec fn key(&self) -> Seq<char> {
        self.server@
    }

    fn key_text(&self) -> (text: &str) {
        self.server.as_str()
    }
}

/// The diagnostics of one file, by server.
pub struct FileDiagnostics {
    pub path: String,
    pub servers: KeyedVec<ServerDiagnostics>,
}

impl Keyed for FileDiagnostics {
    open spec fn key(&self) -> Seq<char> {
        self.path@
    }

    fn key_text(&self) -> (text: &str) {
        self.path.as_str()
    }
}

impl FileDiagnostics {
    /// Some server reports something, and every listed server does.
    pub open spec fn wf(&self) -> bool {
        &&& self.servers.wf()
        &&& self.servers.seq().len() > 0
        &&& forall|i: int|
            0 <= i < self.servers.seq().len() ==> (#[trigger] self.servers.seq()[i]).items@.len()
                > 0
    }
}

/// `path` is short enough for its characters to be counted in 32 bits, as the
/// fuzzy matcher does.
pub open spec fn path_fits(path: Seq<char>) -> bool {
    path.len() < u32::MAX
}

/// What a [`WorktreeModel`] holds.
pub struct WorktreeView {
    /// The absolute root, once a snapshot has completed.
    pub root: Option<Seq<char>>,
    /// The entries in path order.
    pub entries: Seq<WorktreeEntry>,
    /// The git statuses in path order.
    pub git: Seq<GitStatusEntry>,
    /// The diagnostics in path order.
    pub diagnostics: Seq<FileDiagnostics>,
    /// The entries of a snapshot that is still arriving.
    pub staged: Seq<WorktreeEntry>,
}

impl WorktreeView {
    /// Every collection ascends by path, and no file or server is listed
    /// without diagnostics.
    pub open spec fn wf(&self) -> bool {
        &&& ordered::keys_ascend(self.entries)
        &&& ordered::keys_ascend(self.git)
        &&& ordered::keys_ascend(self.diagnostics)
        &&& ordered::keys_ascend(self.staged)
        &&& forall|i: int|
            0 <= i < self.diagnostics.len() ==> (#[trigger] self.diagnostics[i]).wf()
        &&& forall|i: int|
            0 <= i < self.entries.len() ==> path_fits((#[trigger] self.entries[i]).path@)
        &&& forall|i: int|
            0 <= i < self.staged.len() ==> path_fits((#[trigger] self.staged[i]).path@)
    }

    /// The tree has an entry at `path`.
    pub open spec fn has(&self, path: Seq<char>) -> bool {
        ordered::has_key(self.entries, path)
    }

    /// The entry at `path`.
    pub open spec fn entry(&self, path: Seq<char>) -> WorktreeEntry {
        ordered::as_map(self.entries)[path]
    }

    /// What `server` reports for `path`; empty where it reports nothing.
    pub open spec fn reported(&self, path: Seq<char>, server: Seq<char>) -> Seq<Diagnostic> {
        reported_in(ordered::as_map(self.diagnostics), path, server)
    }
}

/// What `server` reports for `path` in `files`.
pub open spec fn reported_in(
    files: Map<Seq<char>, FileDiagnostics>,
    path: Seq<char>,
    server: Seq<char>,
) -> Seq<Diagnostic> {
    if files.dom().contains(path) && files[path].servers@.dom().contains(server) {
        files[path].servers@[server].items@
    } else {
        Seq::empty()
    }
}

/// `map` after filing `items` one after another.
pub open spec fn upserted<T: Keyed>(map: Map<Seq<char>, T>, items: Seq<T>) -> Map<Seq<char>, T>
    decreases items.len(),
{
    if items.len() == 0 {
        map
    } else {
        upserted(map, items.drop_last()).insert(items.last().key(), items.last())
    }
}

/// `map` without the keys that `paths` lists.
pub open spec fn without<T>(map: Map<Seq<char>, T>, paths: Seq<String>) -> Map<Seq<char>, T>
    decreases paths.len(),
{
    if paths.len() == 0 {
        map
    } else {
        without(map, paths.drop_last()).remove(paths.last()@)
    }
}

/// Every listed path is short enough to be matched.
pub open spec fn entries_fit(entries: Seq<WorktreeEntry>) -> bool {
    forall|i: int| 0 <= i < entries.len() ==> path_fits((#[trigger] entries[i]).path@)
}

/// Files every item of `items` in `into`, in order.
fn upsert_all<T: Keyed>(into: &mut KeyedVec<T>, items: Vec<T>)
    requires
        old(into).wf(),
    ensures
        final(into).wf(),
        final(into)@ == upserted(old(into)@, items@),
{
    let ghost all = items@;
    let mut rest = items;
    // Reversed so that the items can be moved out from the end.
    let mut reversed: Vec<T> = Vec::new();
    while rest.len() > 0
        invariant
            rest@.len() + reversed@.len() == all.len(),
            rest@ == all.take(rest@.len() as int),
            forall|i: int|
                0 <= i < reversed@.len() ==> reversed@[i] == all[all.len() - 1 - i],
        decreases rest@.len(),
    {
        match rest.pop() {
            Some(item) => {
                proof {
                    assert(rest@ =~= all.take(rest@.len() as int));
                }
                reversed.push(item);
            },
            None => {},
        }
    }
    let ghost start = into@;
    proof {
        assert(all.take(0) =~= Seq::<T>::empty());
    }
    while reversed.len() > 0
        invariant
            into.wf(),
            reversed@.len() <= all.len(),
            forall|i: int|
                0 <= i < reversed@.len() ==> reversed@[i] == all[all.len() - 1 - i],
            into@ == upserted(start, all.take(all.len() - reversed@.len())),
        decreases reversed@.len(),
    {
        match reversed.pop() {
            Some(item) => {
                proof {
                    let n = all.len() - reversed@.len();
                    assert(item == all[n - 1]);
                    assert(all.take(n).drop_last() =~= all.take(n - 1));
                    assert(all.take(n).last() == item);
                }
                into.upsert(item);
            },
            None => {},
        }
    }
    proof {
        assert(all.take(all.len() as int) =~= all);
    }
}

/// Drops every key that `paths` lists.
fn remove_all<T: Keyed>(from: &mut KeyedVec<T>, paths: &Vec<String>)
    requires
        old(from).wf(),
    ensures
        final(from).wf(),
        final(from)@ == without(old(from)@, paths@),
{
    let ghost start = from@;
    let mut i: usize = 0;
    proof {
        assert(paths@.take(0) =~= Seq::<String>::empty());
    }
    while i < paths.len()
        invariant
            i <= paths.len(),
            from.wf(),
            from@ == without(start, paths@.take(i as int)),
        decreases paths.len() - i,
    {
        proof {
            assert(paths@.take(i + 1).drop_last() =~= paths@.take(i as int));
        }
        let _ = from.remove(paths[i].as_str());
        i = i + 1;
    }
    proof {
        assert(paths@.take(i as int) =~= paths@);
    }
}

proof fn lemma_upserted_fits(map: Map<Seq<char>, WorktreeEntry>, items: Seq<WorktreeEntry>)
    requires
        entries_fit(items),
        forall|k: Seq<char>| map.dom().contains(k) ==> path_fits((#[trigger] map[k]).path@),
    ensures
        forall|k: Seq<char>|
            upserted(map, items).dom().contains(k) ==> path_fits(
                (#[trigger] upserted(map, items)[k]).path@,
            ),
    decreases items.len(),
{
    if items.len() > 0 {
        assert(entries_fit(items.drop_last())) by {
            assert forall|i: int| 0 <= i < items.drop_last().len() implies path_fits(
                (#[trigger] items.drop_last()[i]).path@,
            ) by {
                assert(path_fits(items[i].path@));
            }
        }
        lemma_upserted_fits(map, items.drop_last());
        assert(path_fits(items[items.len() - 1].path@));
    }
}

proof fn lemma_without_subset<T>(map: Map<Seq<char>, T>, paths: Seq<String>)
    ensures
        forall|k: Seq<char>|
            #[trigger] without(map, paths).dom().contains(k) ==> map.dom().contains(k)
                && without(map, paths)[k] == map[k],
    decreases paths.len(),
{
    if paths.len() > 0 {
        lemma_without_subset(map, paths.drop_last());
        let rest = without(map, paths.drop_last());
        assert forall|k: Seq<char>| #[trigger]
            without(map, paths).dom().contains(k) implies map.dom().contains(k) && without(
            map,
            paths,
        )[k] == map[k] by {
            assert(rest.dom().contains(k));
        }
    }
}

proof fn lemma_map_fits_seq(items: Seq<WorktreeEntry>)
    requires
        ordered::keys_ascend(items),
    ensures
        entries_fit(items) <==> (forall|k: Seq<char>|
            ordered::as_map(items).dom().contains(k) ==> path_fits(
                (#[trigger] ordered::as_map(items)[k]).path@,
            )),
{
    let map = ordered::as_map(items);
    if entries_fit(items) {
        assert forall|k: Seq<char>| map.dom().contains(k) implies path_fits(
            (#[trigger] map[k]).path@,
        ) by {
            let i = ordered::key_index(items, k);
            assert(ordered::has_key(items, k));
            assert(items[i].key() == k);
            assert(path_fits(items[i].path@));
        }
    }
    if forall|k: Seq<char>| map.dom().contains(k) ==> path_fits((#[trigger] map[k]).path@) {
        assert forall|i: int| 0 <= i < items.len() implies path_fits(
            (#[trigger] items[i]).path@,
        ) by {
            ordered::lemma_key_index(items, i);
            assert(path_fits(map[items[i].key()].path@));
        }
    }
}

/// The client mirror of the worktree.
pub struct WorktreeModel {
    root: Option<String>,
    staged: KeyedVec<WorktreeEntry>,
    entries: KeyedVec<WorktreeEntry>,
    git: KeyedVec<GitStatusEntry>,
    diagnostics: KeyedVec<FileDiagnostics>,
}

impl View for WorktreeModel {
    type V = WorktreeView;

    closed spec fn view(&self) -> WorktreeView {
        WorktreeView {
            root: text::opt_view(self.root),
            entries: self.entries.seq(),
            git: self.git.seq(),
            diagnostics: self.diagnostics.seq(),
            staged: self.staged.seq(),
        }
    }
}

impl Default for WorktreeModel {
    fn default() -> (model: Self)
        ensures
            model.wf(),
            model@.root is None,
            model@.entries.len() == 0,
            model@.git.len() == 0,
            model@.diagnostics.len() == 0,
            model@.staged.len() == 0,
    {
        WorktreeModel {
            root: None,
            staged: KeyedVec::new(),
            entries: KeyedVec::new(),
            git: KeyedVec::new(),
            diagnostics: KeyedVec::new(),
        }
    }
}

impl WorktreeModel {
    /// The invariant of the mirror.
    pub open spec fn wf(&self) -> bool {
        self@.wf()
    }

    /// The absolute root, once a snapshot has completed.
    pub fn root(&self) -> (root: Option<&str>)
        ensures
            root is Some == self@.root is Some,
            root matches Some(r) ==> self@.root == Some(r@),
    {
        match &self.root {
            Some(root) => Some(root.as_str()),
            None => None,
        }
    }

    /// The entries, walked in path order.
    pub fn entries(&self) -> (entries: &KeyedVec<WorktreeEntry>)
        ensures
            entries.seq() == self@.entries,
    {
        &self.entries
    }

    /// The git statuses, walked in path order.
    pub fn git_statuses(&self) -> (statuses: &KeyedVec<GitStatusEntry>)
        ensures
            statuses.seq() == self@.git,
    {
        &self.git
    }

    /// The diagnostics of every file, walked in path order.
    pub fn all_diagnostics(&self) -> (diagnostics: &KeyedVec<FileDiagnostics>)
        ensures
            diagnostics.seq() == self@.diagnostics,
    {
        &self.diagnostics
    }

    /// Whether the tree has no entries.
    pub fn is_empty(&self) -> (empty: bool)
        ensures
            empty == (self@.entries.len() == 0),
    {
        self.entries.len() == 0
    }

    /// The entry at `path`.
    pub fn get(&self, path: &str) -> (entry: Option<&WorktreeEntry>)
        requires
            self.wf(),
        ensures
            entry is Some <==> self@.has(path@),
            entry matches Some(e) ==> *e == self@.entry(path@) && e.path@ == path@,
    {
        self.entries.get(path)
    }

    /// The git status of `path`.
    pub fn git_status(&self, path: &str) -> (status: Option<GitEntryStatus>)
        requires
            self.wf(),
        ensures
            status is Some <==> ordered::has_key(self@.git, path@),
            status matches Some(s) ==> s == ordered::as_map(self@.git)[path@].status,
    {
        match self.git.get(path) {
            Some(entry) => Some(entry.status),
            None => None,
        }
    }

    /// The diagnostics of `path`, by server.
    pub fn diagnostics(&self, path: &str) -> (file: Option<&FileDiagnostics>)
        requires
            self.wf(),
        ensures
            file is Some <==> ordered::has_key(self@.diagnostics, path@),
            file matches Some(f) ==> *f == ordered::as_map(self@.diagnostics)[path@] && f.wf(),
    {
        match self.diagnostics.position(path) {
            Some(i) => {
                assert(self@.diagnostics[i as int].wf());
                Some(self.diagnostics.at(i))
            },
            None => None,
        }
    }

    /// Folds one chunk of a snapshot in. The chunks of a snapshot gather aside;
    /// the last one puts the gathered entries in place of the whole tree.
    pub fn apply_snapshot_chunk(
        &mut self,
        root: String,
        entries: Vec<WorktreeEntry>,
        complete: bool,
    )
        requires
            old(self).wf(),
            entries_fit(entries@),
        ensures
            final(self).wf(),
            final(self)@.git == old(self)@.git,
            final(self)@.diagnostics == old(self)@.diagnostics,
            complete ==> {
                &&& final(self)@.root == Some(root@)
                &&& ordered::as_map(final(self)@.entries) == upserted(
                    ordered::as_map(old(self)@.staged),
                    entries@,
                )
                &&& final(self)@.staged.len() == 0
            },
            !complete ==> {
                &&& final(self)@.root == old(self)@.root
                &&& final(self)@.entries == old(self)@.entries
                &&& ordered::as_map(final(self)@.staged) == upserted(
                    ordered::as_map(old(self)@.staged),
                    entries@,
                )
            },
    {
        let ghost before = self@.staged;
        let ghost chunk = entries@;
        upsert_all(&mut self.staged, entries);
        proof {
            lemma_map_fits_seq(before);
            lemma_upserted_fits(ordered::as_map(before), chunk);
            lemma_map_fits_seq(self.staged.seq());
        }
        if complete {
            let mut gathered: KeyedVec<WorktreeEntry> = KeyedVec::new();
            std::mem::swap(&mut gathered, &mut self.staged);
            self.entries = gathered;
            self.root = Some(root);
        }
    }

    /// Folds a recompute in: drops `removed`, then files `added` and `updated`.
    pub fn apply_update(
        &mut self,
        added: Vec<WorktreeEntry>,
        updated: Vec<WorktreeEntry>,
        removed: Vec<String>,
    )
        requires
            old(self).wf(),
            entries_fit(added@),
            entries_fit(updated@),
        ensures
            final(self).wf(),
            final(self)@ == (WorktreeView { entries: final(self)@.entries, ..old(self)@ }),
            ordered::as_map(final(self)@.entries) == upserted(
                upserted(without(ordered::as_map(old(self)@.entries), removed@), added@),
                updated@,
            ),
    {
        let ghost before = self@.entries;
        let ghost m0 = ordered::as_map(before);
        let ghost m1 = without(m0, removed@);
        let ghost m2 = upserted(m1, added@);
        let ghost changes = updated@;
        let ghost news = added@;
        remove_all(&mut self.entries, &removed);
        upsert_all(&mut self.entries, added);
        upsert_all(&mut self.entries, updated);
        proof {
            lemma_map_fits_seq(before);
            lemma_without_subset(m0, removed@);
            assert forall|k: Seq<char>| m1.dom().contains(k) implies path_fits(
                (#[trigger] m1[k]).path@,
            ) by {
                assert(path_fits(m0[k].path@));
            }
            lemma_upserted_fits(m1, news);
            lemma_upserted_fits(m2, changes);
            lemma_map_fits_seq(self.entries.seq());
        }
    }

    /// Folds a git recompute in: drops `cleared`, then files `updated`.
    pub fn apply_git_update(&mut self, updated: Vec<GitStatusEntry>, cleared: Vec<String>)
        requires
            old(self).wf(),
        ensures
            final(self).wf(),
            final(self)@ == (WorktreeView { git: final(self)@.git, ..old(self)@ }),
            ordered::as_map(final(self)@.git) == upserted(
                without(ordered::as_map(old(self)@.git), cleared@),
                updated@,
            ),
    {
        remove_all(&mut self.git, &cleared);
        upsert_all(&mut self.git, updated);
    }

    /// Replaces what `server` reports for `path`. An empty report clears it, and
    /// a file without reports is not listed.
    pub fn apply_diagnostics(&mut self, path: String, server: String, items: Vec<Diagnostic>)
        requires
            old(self).wf(),
        ensures
            final(self).wf(),
            final(self)@ == (WorktreeView { diagnostics: final(self)@.diagnostics, ..old(self)@ }),
            forall|p: Seq<char>, s: Seq<char>|
                #[trigger] final(self)@.reported(p, s) == if p == path@ && s == server@ {
                    items@
                } else {
                    old(self)@.reported(p, s)
                },
    {
        let ghost before = self.diagnostics.seq();
        let ghost before_map = ordered::as_map(before);
        let ghost path_key = path@;
        let ghost server_key = server@;
        let ghost report = items@;
        let taken = self.diagnostics.take(path.as_str());
        proof {
            if ordered::has_key(before, path@) {
                let i = ordered::key_index(before, path@);
                assert(before[i].wf());
            }
        }
        let mut file = match taken {
            Some(file) => file,
            None => FileDiagnostics { path, servers: KeyedVec::new() },
        };
        let ghost servers_before = file.servers@;
        proof {
            assert(before_map.dom().contains(path_key) ==> before_map[path_key].servers@
                == servers_before);
            assert(!before_map.dom().contains(path_key) ==> servers_before == Map::<
                Seq<char>,
                ServerDiagnostics,
            >::empty());
            assert forall|s: Seq<char>|
                servers_before.dom().contains(s) implies (#[trigger] servers_before[s]).items@.len()
                > 0 by {
                let seq = file.servers.seq();
                assert(ordered::has_key(seq, s));
                let i = ordered::key_index(seq, s);
                assert(seq[i].key() == s);
            }
        }
        if items.len() == 0 {
            let _ = file.servers.remove(server.as_str());
        } else {
            file.servers.upsert(ServerDiagnostics { server, items });
        }
        let ghost servers_after = file.servers@;
        proof {
            let seq = file.servers.seq();
            assert forall|i: int| 0 <= i < seq.len() implies (#[trigger] seq[i]).items@.len()
                > 0 by {
                ordered::lemma_key_index(seq, i);
                assert(servers_after[seq[i].key()] == seq[i]);
                if seq[i].key() != server_key {
                    assert(servers_before[seq[i].key()].items@.len() > 0);
                }
            }
        }
        let ghost kept = file.servers.seq().len() > 0;
        let ghost filed = file;
        if file.servers.len() > 0 {
            self.diagnostics.upsert(file);
        } else {
            assert forall|s: Seq<char>| !servers_after.dom().contains(s) by {
                assert(!ordered::has_key(filed.servers.seq(), s));
            }
        }
        proof {
            let after = self.diagnostics.seq();
            let after_map = ordered::as_map(after);
            assert(before_map == ordered::as_map(old(self)@.diagnostics));
            assert forall|i: int| 0 <= i < after.len() implies (#[trigger] after[i]).wf() by {
                ordered::lemma_key_index(after, i);
                let k = after[i].key();
                if k == path_key {
                    assert(after[i] == filed);
                } else {
                    assert(before_map.dom().contains(k));
                    assert(ordered::has_key(before, k));
                    let j = ordered::key_index(before, k);
                    assert(before[j].wf());
                    assert(after[i] == before[j]);
                }
            }
            assert forall|p: Seq<char>, s: Seq<char>|
                #[trigger] self@.reported(p, s) == if p == path_key && s == server_key {
                    report
                } else {
                    old(self)@.reported(p, s)
                } by {
                if p == path_key {
                    if kept {
                        assert(after_map.dom().contains(p));
                        assert(after_map[p] == filed);
                    } else {
                        assert(!after_map.dom().contains(p));
                        assert(!servers_after.dom().contains(s));
                    }
                    if s != server_key {
                        assert(servers_after.dom().contains(s) == servers_before.dom().contains(s));
                        if servers_after.dom().contains(s) {
                            assert(servers_after[s] == servers_before[s]);
                        }
                    }
                    if s == server_key && report.len() == 0 {
                        assert(report =~= Seq::<Diagnostic>::empty());
                    }
                }
            }
        }
    }
}

// ---------------------------------------------------------------------------
// Laws
// ---------------------------------------------------------------------------

/// Item `i` is the last one of `items` with the key `key`.
pub open spec fn is_last_for<T: Keyed>(items: Seq<T>, key: Seq<char>, i: int) -> bool {
    &&& 0 <= i < items.len()
    &&& items[i].key() == key
    &&& forall|j: int| i < j < items.len() ==> (#[trigger] items[j]).key() != key
}

/// No item of `items` has the key `key`.
pub open spec fn has_none_for<T: Keyed>(items: Seq<T>, key: Seq<char>) -> bool {
    forall|j: int| 0 <= j < items.len() ==> (#[trigger] items[j]).key() != key
}

/// `path` is one of `paths`.
pub open spec fn names_path(paths: Seq<String>, path: Seq<char>) -> bool {
    exists|j: int| 0 <= j < paths.len() && (#[trigger] paths[j])@ == path
}

proof fn lemma_upserted<T: Keyed>(map: Map<Seq<char>, T>, items: Seq<T>, key: Seq<char>)
    ensures
        has_none_for(items, key) ==> (upserted(map, items).dom().contains(key)
            <==> map.dom().contains(key)) && (map.dom().contains(key) ==> upserted(map, items)[key]
            == map[key]),
        forall|i: int| #[trigger]
            is_last_for(items, key, i) ==> upserted(map, items).dom().contains(key) && upserted(
                map,
                items,
            )[key] == items[i],
    decreases items.len(),
{
    if items.len() > 0 {
        let rest = items.drop_last();
        lemma_upserted(map, rest, key);
        assert(items[items.len() - 1] == items.last());
        if has_none_for(items, key) {
            assert(items[items.len() - 1].key() != key);
            assert forall|j: int| 0 <= j < rest.len() implies (#[trigger] rest[j]).key() != key by {
                assert(items[j].key() != key);
            }
        }
        assert forall|i: int| #[trigger] is_last_for(items, key, i) implies upserted(
            map,
            items,
        ).dom().contains(key) && upserted(map, items)[key] == items[i] by {
            if i < items.len() - 1 {
                assert(items[items.len() - 1].key() != key);
                assert forall|j: int| i < j < rest.len() implies (#[trigger] rest[j]).key()
                    != key by {
                    assert(items[j].key() != key);
                }
                assert(is_last_for(rest, key, i));
            }
        }
    }
}

proof fn lemma_without<T>(map: Map<Seq<char>, T>, paths: Seq<String>, key: Seq<char>)
    ensures
        without(map, paths).dom().contains(key) <==> map.dom().contains(key) && !names_path(
            paths,
            key,
        ),
        without(map, paths).dom().contains(key) ==> without(map, paths)[key] == map[key],
    decreases paths.len(),
{
    if paths.len() > 0 {
        let rest = paths.drop_last();
        lemma_without(map, rest, key);
        if names_path(rest, key) {
            let j = choose|j: int| 0 <= j < rest.len() && (#[trigger] rest[j])@ == key;
            assert(paths[j]@ == key);
        }
        if names_path(paths, key) && paths.last()@ != key {
            let j = choose|j: int| 0 <= j < paths.len() && (#[trigger] paths[j])@ == key;
            assert(rest[j]@ == key);
        }
        if paths.last()@ == key {
            assert(paths[paths.len() - 1]@ == key);
        }
    }
}

/// The tree has what an update brings: the last entry that it lists for a path
/// stands there, an updated one before an added one. Of the others the removed
/// ones are gone and the rest is as it was.
pub proof fn law_update_brings_the_tree_up_to_date(
    model: &mut WorktreeModel,
    added: Vec<WorktreeEntry>,
    updated: Vec<WorktreeEntry>,
    removed: Vec<String>,
    path: Seq<char>,
    entry: WorktreeEntry,
)
    requires
        old(model).wf(),
        call_ensures(WorktreeModel::apply_update, (model, added, updated, removed), ()),
    ensures
        ordered::keys_ascend(final(model)@.entries),
        forall|i: int| #[trigger]
            is_last_for(updated@, path, i) ==> (ordered::files(final(model)@.entries, path, entry)
                <==> entry == updated@[i]),
        has_none_for(updated@, path) ==> forall|i: int| #[trigger]
            is_last_for(added@, path, i) ==> (ordered::files(final(model)@.entries, path, entry)
                <==> entry == added@[i]),
        has_none_for(updated@, path) && has_none_for(added@, path) ==> (ordered::files(
            final(model)@.entries,
            path,
            entry,
        ) <==> ordered::files(old(model)@.entries, path, entry) && !names_path(removed@, path)),
        final(model)@.root == old(model)@.root,
        final(model)@.git == old(model)@.git,
        final(model)@.diagnostics == old(model)@.diagnostics,
        final(model)@.staged == old(model)@.staged,
{
    let m0 = ordered::as_map(old(model)@.entries);
    let m1 = without(m0, removed@);
    let m2 = upserted(m1, added@);
    lemma_without(m0, removed@, path);
    lemma_upserted(m1, added@, path);
    lemma_upserted(m2, updated@, path);
    ordered::lemma_files(old(model)@.entries, path, entry);
    ordered::lemma_files(final(model)@.entries, path, entry);
}

/// The chunks of a snapshot gather aside, later entries over earlier ones, and
/// the last chunk puts them in place of the tree: an entry that no chunk listed
/// is gone.
pub proof fn law_snapshot_replaces_the_tree(
    model: &mut WorktreeModel,
    root: String,
    entries: Vec<WorktreeEntry>,
    complete: bool,
    path: Seq<char>,
    entry: WorktreeEntry,
)
    requires
        old(model).wf(),
        call_ensures(WorktreeModel::apply_snapshot_chunk, (model, root, entries, complete), ()),
    ensures
        ({
            let gathered = if complete {
                final(model)@.entries
            } else {
                final(model)@.staged
            };
            &&& ordered::keys_ascend(gathered)
            &&& forall|i: int| #[trigger]
                is_last_for(entries@, path, i) ==> (ordered::files(gathered, path, entry) <==> entry
                    == entries@[i])
            &&& has_none_for(entries@, path) ==> (ordered::files(gathered, path, entry)
                <==> ordered::files(old(model)@.staged, path, entry))
        }),
        complete ==> final(model)@.root == Some(root@) && final(model)@.staged.len() == 0,
        !complete ==> final(model)@.root == old(model)@.root && final(model)@.entries
            == old(model)@.entries,
        final(model)@.git == old(model)@.git,
        final(model)@.diagnostics == old(model)@.diagnostics,
{
    let gathered = if complete {
        final(model)@.entries
    } else {
        final(model)@.staged
    };
    lemma_upserted(ordered::as_map(old(model)@.staged), entries@, path);
    ordered::lemma_files(old(model)@.staged, path, entry);
    ordered::lemma_files(gathered, path, entry);
}

/// A git update sets the statuses that it lists; of the others the cleared ones
/// are gone and the rest is as it was.
pub proof fn law_git_update_sets_the_statuses(
    model: &mut WorktreeModel,
    updated: Vec<GitStatusEntry>,
    cleared: Vec<String>,
    path: &str,
    before: Option<GitEntryStatus>,
    after: Option<GitEntryStatus>,
)
    requires
        old(model).wf(),
        call_ensures(WorktreeModel::git_status, (old(model), path), before),
        call_ensures(WorktreeModel::apply_git_update, (model, updated, cleared), ()),
        call_ensures(WorktreeModel::git_status, (final(model), path), after),
    ensures
        forall|i: int| #[trigger]
            is_last_for(updated@, path@, i) ==> after == Some(updated@[i].status),
        has_none_for(updated@, path@) && names_path(cleared@, path@) ==> after is None,
        has_none_for(updated@, path@) && !names_path(cleared@, path@) ==> after == before,
        final(model)@.root == old(model)@.root,
        final(model)@.entries == old(model)@.entries,
        final(model)@.diagnostics == old(model)@.diagnostics,
        final(model)@.staged == old(model)@.staged,
{
    let m0 = ordered::as_map(old(model)@.git);
    lemma_without(m0, cleared@, path@);
    lemma_upserted(without(m0, cleared@), updated@, path@);
}

/// What is looked up is what is listed under the path.
pub proof fn law_lookups_find_what_is_listed(
    model: WorktreeModel,
    path: &str,
    found: Option<&WorktreeEntry>,
    status: Option<GitEntryStatus>,
    file: Option<&FileDiagnostics>,
)
    requires
        model.wf(),
        call_ensures(WorktreeModel::get, (&model, path), found),
        call_ensures(WorktreeModel::git_status, (&model, path), status),
        call_ensures(WorktreeModel::diagnostics, (&model, path), file),
    ensures
        forall|k: int|
            0 <= k < model@.entries.len() && (#[trigger] model@.entries[k]).path@ == path@ ==> (
            found matches Some(e) && *e == model@.entries[k]),
        found matches Some(e) ==> e.path@ == path@ && model@.entries.contains(*e),
        forall|k: int|
            0 <= k < model@.git.len() && (#[trigger] model@.git[k]).path@ == path@ ==> status
                == Some(model@.git[k].status),
        has_none_for(model@.git, path@) ==> status is None,
        forall|k: int|
            0 <= k < model@.diagnostics.len() && (#[trigger] model@.diagnostics[k]).path@ == path@
                ==> (file matches Some(f) && *f == model@.diagnostics[k]),
        file matches Some(f) ==> f.path@ == path@ && model@.diagnostics.contains(*f),
{
    assert forall|k: int|
        0 <= k < model@.entries.len() && (#[trigger] model@.entries[k]).path@ == path@ implies (
    found matches Some(e) && *e == model@.entries[k]) by {
        ordered::lemma_key_index(model@.entries, k);
    }
    assert forall|k: int|
        0 <= k < model@.git.len() && (#[trigger] model@.git[k]).path@ == path@ implies status
        == Some(model@.git[k].status) by {
        ordered::lemma_key_index(model@.git, k);
    }
    assert forall|k: int|
        0 <= k < model@.diagnostics.len() && (#[trigger] model@.diagnostics[k]).path@
            == path@ implies (file matches Some(f) && *f == model@.diagnostics[k]) by {
        ordered::lemma_key_index(model@.diagnostics, k);
    }
    if let Some(e) = found {
        let i = ordered::key_index(model@.entries, path@);
        assert(model@.entries[i].key() == path@);
    }
    if let Some(f) = file {
        let i = ordered::key_index(model@.diagnostics, path@);
        assert(model@.diagnostics[i].key() == path@);
    }
}

/// The mirror lists `items` as what `server` reports for `path`.
pub open spec fn lists_report(
    model: WorktreeView,
    path: Seq<char>,
    server: Seq<char>,
    items: Seq<Diagnostic>,
) -> bool {
    exists|f: int, s: int|
        0 <= f < model.diagnostics.len() && model.diagnostics[f].path@ == path && 0 <= s
            < model.diagnostics[f].servers.seq().len() && (
        #[trigger] model.diagnostics[f].servers.seq()[s]).server@ == server
            && model.diagnostics[f].servers.seq()[s].items@ == items
}

/// The mirror lists nothing that `server` reports for `path`.
pub open spec fn lists_no_report(model: WorktreeView, path: Seq<char>, server: Seq<char>) -> bool {
    forall|f: int, s: int|
        0 <= f < model.diagnostics.len() && model.diagnostics[f].path@ == path && 0 <= s
            < model.diagnostics[f].servers.seq().len() ==> (
        #[trigger] model.diagnostics[f].servers.seq()[s]).server@ != server
}

proof fn lemma_reported(model: WorktreeView, path: Seq<char>, server: Seq<char>)
    requires
        model.wf(),
    ensures
        lists_no_report(model, path, server) ==> model.reported(path, server).len() == 0,
        !lists_no_report(model, path, server) ==> lists_report(
            model,
            path,
            server,
            model.reported(path, server),
        ) && model.reported(path, server).len() > 0,
        forall|items: Seq<Diagnostic>| #[trigger]
            lists_report(model, path, server, items) ==> items == model.reported(path, server),
{
    let files = ordered::as_map(model.diagnostics);
    assert forall|f: int, s: int|
        0 <= f < model.diagnostics.len() && model.diagnostics[f].path@ == path && 0 <= s
            < model.diagnostics[f].servers.seq().len() && (
        #[trigger] model.diagnostics[f].servers.seq()[s]).server@
            == server implies model.diagnostics[f].servers.seq()[s].items@ == model.reported(
        path,
        server,
    ) && model.reported(path, server).len() > 0 by {
        assert(model.diagnostics[f].wf());
        ordered::lemma_key_index(model.diagnostics, f);
        assert(model.diagnostics[f].key() == path);
        ordered::lemma_key_index(model.diagnostics[f].servers.seq(), s);
        assert(model.diagnostics[f].servers.seq()[s].key() == server);
    }
    if files.dom().contains(path) && files[path].servers@.dom().contains(server) {
        let f = ordered::key_index(model.diagnostics, path);
        assert(model.diagnostics[f].key() == path);
        assert(model.diagnostics[f].path@ == path);
        let seq = model.diagnostics[f].servers.seq();
        let s = ordered::key_index(seq, server);
        assert(seq[s].key() == server);
        assert(model.diagnostics[f].servers.seq()[s].server@ == server);
    }
}

/// A report replaces what the server said of the file before. An empty report
/// leaves nothing of it, and what other servers say and what is said of other
/// files stays.
pub proof fn law_report_replaces_the_last_one(
    model: &mut WorktreeModel,
    path: String,
    server: String,
    items: Vec<Diagnostic>,
    p: Seq<char>,
    s: Seq<char>,
    other: Seq<Diagnostic>,
)
    requires
        old(model).wf(),
        call_ensures(WorktreeModel::apply_diagnostics, (model, path, server, items), ()),
    ensures
        items@.len() > 0 ==> lists_report(final(model)@, path@, server@, items@),
        items@.len() == 0 ==> lists_no_report(final(model)@, path@, server@),
        p != path@ || s != server@ ==> (lists_report(final(model)@, p, s, other) <==> lists_report(
            old(model)@,
            p,
            s,
            other,
        )),
        final(model)@.root == old(model)@.root,
        final(model)@.entries == old(model)@.entries,
        final(model)@.git == old(model)@.git,
        final(model)@.staged == old(model)@.staged,
{
    assert(final(model)@.reported(path@, server@) == items@);
    lemma_reported(final(model)@, path@, server@);
    lemma_reported(final(model)@, p, s);
    lemma_reported(old(model)@, p, s);
    if p != path@ || s != server@ {
        assert(final(model)@.reported(p, s) == old(model)@.reported(p, s));
        if lists_report(old(model)@, p, s, other) {
            assert(!lists_no_report(old(model)@, p, s)) by {
                let (f, v) = choose|f: int, v: int|
                    0 <= f < old(model)@.diagnostics.len() && old(model)@.diagnostics[f].path@ == p
                        && 0 <= v < old(model)@.diagnostics[f].servers.seq().len() && (
                    #[trigger] old(model)@.diagnostics[f].servers.seq()[v]).server@ == s
                        && old(model)@.diagnostics[f].servers.seq()[v].items@ == other;
                assert(old(model)@.diagnostics[f].servers.seq()[v].server@ == s);
            }
        }
        if lists_report(final(model)@, p, s, other) {
            assert(!lists_no_report(final(model)@, p, s)) by {
                let (f, v) = choose|f: int, v: int|
                    0 <= f < final(model)@.diagnostics.len() && final(model)@.diagnostics[f].path@
                        == p && 0 <= v < final(model)@.diagnostics[f].servers.seq().len() && (
                    #[trigger] final(model)@.diagnostics[f].servers.seq()[v]).server@ == s
                        && final(model)@.diagnostics[f].servers.seq()[v].items@ == other;
                assert(final(model)@.diagnostics[f].servers.seq()[v].server@ == s);
            }
        }
    }
}

/// A mirror tells what it holds.
pub proof fn law_mirror_tells_what_it_holds(
    model: WorktreeModel,
    root: Option<&str>,
    entries: &KeyedVec<WorktreeEntry>,
    git: &KeyedVec<GitStatusEntry>,
    diagnostics: &KeyedVec<FileDiagnostics>,
    empty: bool,
)
    requires
        call_ensures(WorktreeModel::root, (&model,), root),
        call_ensures(WorktreeModel::entries, (&model,), entries),
        call_ensures(WorktreeModel::git_statuses, (&model,), git),
        call_ensures(WorktreeModel::all_diagnostics, (&model,), diagnostics),
        call_ensures(WorktreeModel::is_empty, (&model,), empty),
    ensures
        match root {
            Some(at) => model@.root == Some(at@),
            None => model@.root is None,
        },
        entries.seq() == model@.entries,
        git.seq() == model@.git,
        diagnostics.seq() == model@.diagnostics,
        empty <==> model@.entries.len() == 0,
{
}

} // verus!
