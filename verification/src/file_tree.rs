//! The explorer: the state of the navigable file tree and its transitions.
//!
//! The tree mirrors a [`WorktreeModel`] and adds what the model does not hold:
//! which directories are collapsed, where the cursor is, what is selected, the
//! filter, and the inline editors. What it asks of the rest of the shell it
//! hands back as a [`FileTreeEvent`].

use vstd::prelude::*;

use crate::fuzzy_match;
use crate::fuzzy_match::MatchView;
use crate::navigation;
use crate::ordered::KeyedVec;
use crate::paths;
use crate::protocol::EntryKind;
use crate::rows;
use crate::rows::{Row, RowView};
use crate::text;
use crate::worktree::{WorktreeModel, WorktreeView};

pub mod actions;
pub mod collapse;
pub mod editing;
pub mod filter;
pub mod laws;
pub mod presentation;
pub mod revealing;
pub mod selection;

verus! {

/// The identity of the explorer panel in a saved layout.
pub const FILE_TREE_PANEL_NAME: &'static str = "explorer";

/// The key context around the tree, to which its keys are bound.
pub const FILE_TREE_KEY_CONTEXT: &'static str = "FileTree";

// ---------------------------------------------------------------------------
// Events
// ---------------------------------------------------------------------------

/// What the tree asks of the rest of the shell.
#[derive(Debug, PartialEq, Eq)]
pub enum FileTreeEvent {
    /// Open the file at the root-relative `path`.
    OpenFile { path: String },
    /// Reveal the file that the editor shows.
    RevealActiveRequested,
    /// Open a terminal in the absolute directory `dir`.
    RevealInTerminalRequested { dir: String },
    /// Move `from` to `to`, both root-relative.
    RenameRequested { from: String, to: String },
    /// Create an entry at the root-relative `path`.
    CreateRequested { path: String, kind: EntryKind },
    /// Delete the entry at the root-relative `path`.
    DeleteRequested { path: String },
}

/// The event asks to open `path`.
pub open spec fn opens(event: FileTreeEvent, path: Seq<char>) -> bool {
    event matches FileTreeEvent::OpenFile { path: p } && p@ == path
}

/// The event asks to move `from` to `to`.
pub open spec fn renames(event: FileTreeEvent, from: Seq<char>, to: Seq<char>) -> bool {
    event matches FileTreeEvent::RenameRequested { from: f, to: t } && f@ == from && t@ == to
}

/// The event asks to create an entry of `kind` at `path`.
pub open spec fn creates(event: FileTreeEvent, path: Seq<char>, kind: EntryKind) -> bool {
    event matches FileTreeEvent::CreateRequested { path: p, kind: k } && p@ == path && k == kind
}

// ---------------------------------------------------------------------------
// Inline editors
// ---------------------------------------------------------------------------

/// The inline editor that renames a row.
pub struct RenameEditor {
    /// The path being renamed.
    pub path: String,
    /// The name that the input starts with.
    pub name: String,
    /// Why the previous attempt was refused.
    pub error: Option<String>,
}

/// What a [`RenameEditor`] holds.
pub struct RenameView {
    pub path: Seq<char>,
    pub name: Seq<char>,
    pub error: Option<Seq<char>>,
}

impl View for RenameEditor {
    type V = RenameView;

    open spec fn view(&self) -> RenameView {
        RenameView {
            path: self.path@,
            name: self.name@,
            error: text::opt_view(self.error),
        }
    }
}

/// The inline editor that names a new entry.
pub struct CreateEditor {
    /// The directory the entry goes into; empty for the root.
    pub parent: String,
    pub kind: EntryKind,
    /// The name that the input starts with.
    pub name: String,
    /// Why the previous attempt was refused.
    pub error: Option<String>,
}

/// What a [`CreateEditor`] holds.
pub struct CreateView {
    pub parent: Seq<char>,
    pub kind: EntryKind,
    pub name: Seq<char>,
    pub error: Option<Seq<char>>,
}

impl View for CreateEditor {
    type V = CreateView;

    open spec fn view(&self) -> CreateView {
        CreateView {
            parent: self.parent@,
            kind: self.kind,
            name: self.name@,
            error: text::opt_view(self.error),
        }
    }
}

/// The view of an optional rename editor.
pub open spec fn rename_view(editor: Option<RenameEditor>) -> Option<RenameView> {
    match editor {
        Some(e) => Some(e@),
        None => None,
    }
}

/// The view of an optional create editor.
pub open spec fn create_view(editor: Option<CreateEditor>) -> Option<CreateView> {
    match editor {
        Some(e) => Some(e@),
        None => None,
    }
}

/// The row of the create editor at `depth`.
pub open spec fn pending_row(kind: EntryKind, depth: nat) -> RowView {
    RowView {
        path: Seq::empty(),
        kind,
        depth,
        ignored: false,
        git_status: None,
        severity: None,
        is_pending_create: true,
        matched_indices: Seq::empty(),
    }
}

/// `list` with the row of an open create editor: the first row for the root,
/// right below the row of the target directory otherwise, and at the end where
/// that directory shows no row.
pub open spec fn with_pending(list: Seq<RowView>, create: Option<CreateView>) -> Seq<RowView> {
    match create {
        None => list,
        Some(c) => if c.parent.len() == 0 {
            list.insert(0, pending_row(c.kind, 0))
        } else {
            match navigation::position_of(list, c.parent) {
                Some(i) => list.insert(i as int + 1, pending_row(c.kind, list[i as int].depth + 1)),
                None => list.push(pending_row(c.kind, 0)),
            }
        },
    }
}

/// Every row can hold a row that is one level deeper.
pub open spec fn depths_fit(list: Seq<RowView>) -> bool {
    forall|i: int| 0 <= i < list.len() ==> (#[trigger] list[i]).depth < usize::MAX
}

/// Every row is less deep than 32 bits count, as a path is less long.
spec fn depths_counted(list: Seq<RowView>) -> bool {
    forall|i: int| 0 <= i < list.len() ==> (#[trigger] list[i]).depth < u32::MAX
}

/// Puts the row of the create editor into `list`.
pub fn insert_create_row(list: &mut Vec<Row>, create: &CreateEditor)
    requires
        depths_fit(rows::rows_view(old(list)@)),
    ensures
        rows::rows_view(final(list)@) == with_pending(
            rows::rows_view(old(list)@),
            Some(create@),
        ),
{
    let ghost before = list@;
    let ghost views = rows::rows_view(before);
    let count: usize = list.len();
    let mut at: usize = 0;
    let mut depth: usize = 0;
    if !create.parent.as_str().is_empty() {
        match navigation::row_index(list, create.parent.as_str()) {
            Some(i) => {
                assert(views[i as int] == before[i as int]@);
                at = i + 1;
                depth = list[i].depth + 1;
            },
            None => {
                at = count;
            },
        }
    }
    let row = Row {
        path: String::new(),
        kind: create.kind,
        depth,
        ignored: false,
        git_status: None,
        severity: None,
        is_pending_create: true,
        matched_indices: Vec::new(),
    };
    proof {
        assert(row@ =~= pending_row(create.kind, depth as nat));
    }
    list.insert(at, row);
    proof {
        assert(rows::rows_view(list@) =~= views.insert(at as int, row@));
        if create.parent@.len() > 0 && navigation::position_of(views, create.parent@) is None {
            assert(views.insert(views.len() as int, row@) =~= views.push(row@));
        }
    }
}

// ---------------------------------------------------------------------------
// State
// ---------------------------------------------------------------------------

/// What a [`FileTree`] holds.
#[verifier::ext_equal]
pub struct FileTreeView {
    pub model: WorktreeView,
    /// The directories whose subtrees are hidden.
    pub collapsed: Set<Seq<char>>,
    /// The cursor.
    pub selected: Option<Seq<char>>,
    /// The multi-selection, beside the cursor.
    pub selection: Set<Seq<char>>,
    /// The row cache.
    pub rows: Seq<RowView>,
    /// The row cache no longer matches the state.
    pub dirty: bool,
    pub rename: Option<RenameView>,
    pub create: Option<CreateView>,
    /// The path to reveal as soon as it arrives.
    pub pending_reveal: Option<Seq<char>>,
    pub filter_active: bool,
    /// The filter; empty where nothing is filtered.
    pub filter_query: Seq<char>,
    /// The root row has folded the whole tree.
    pub root_collapsed: bool,
}

/// `list` is what the state shows without the create editor: nothing under a
/// folded root, the plain list without a filter, the filtered list with one.
pub open spec fn shows(v: FileTreeView, list: Seq<RowView>) -> bool {
    if v.root_collapsed {
        list == Seq::<RowView>::empty()
    } else if v.filter_query.len() == 0 {
        list == rows::plain_rows(v.model, v.collapsed, v.model.entries.len())
    } else {
        exists|found: Seq<Option<MatchView>>|
            rows::outcomes(v.filter_query, v.model.entries, found) && list
                == #[trigger] rows::filtered_rows(v.model, found, v.model.entries.len())
    }
}

/// `list` is a fresh row list of the state.
pub open spec fn fresh_rows(v: FileTreeView, list: Seq<RowView>) -> bool {
    exists|base: Seq<RowView>| shows(v, base) && list == #[trigger] with_pending(base, v.create)
}

/// The state with `list` as its clean row cache.
pub open spec fn with_rows(v: FileTreeView, list: Seq<RowView>) -> FileTreeView {
    FileTreeView { rows: list, dirty: false, ..v }
}

/// Rows depend on neither the cursor nor the selection, nor on an open rename.
pub proof fn lemma_fresh_rows_same(v: FileTreeView, w: FileTreeView, list: Seq<RowView>)
    requires
        fresh_rows(v, list),
        v.model == w.model,
        v.collapsed == w.collapsed,
        v.create == w.create,
        v.filter_query == w.filter_query,
        v.root_collapsed == w.root_collapsed,
    ensures
        fresh_rows(w, list),
{
    let base = choose|base: Seq<RowView>|
        shows(v, base) && list == #[trigger] with_pending(base, v.create);
    assert(shows(w, base) && list == with_pending(base, w.create));
}

/// The state fixes its rows to the last matched character: nothing is filtered,
/// or the matcher is asked about no file whose path holds a backslash, at which
/// its bonuses depend on the platform.
pub open spec fn rows_settled(v: FileTreeView) -> bool {
    v.root_collapsed || fuzzy_match::blank(v.filter_query) || forall|k: int|
        0 <= k < v.model.entries.len() && (#[trigger] v.model.entries[k]).kind == EntryKind::File
            && fuzzy_match::ranked(v.filter_query, v.model.entries[k].path@)
            ==> !v.model.entries[k].path@.contains('\\')
}

/// A state shows one list only.
pub proof fn law_shown_rows_unique(v: FileTreeView, a: Seq<RowView>, b: Seq<RowView>)
    requires
        rows_settled(v),
        shows(v, a),
        shows(v, b),
    ensures
        a == b,
{
    let n = v.model.entries.len();
    if !v.root_collapsed && v.filter_query.len() > 0 {
        let left = choose|found: Seq<Option<MatchView>>|
            rows::outcomes(v.filter_query, v.model.entries, found) && a
                == #[trigger] rows::filtered_rows(v.model, found, n);
        let right = choose|found: Seq<Option<MatchView>>|
            rows::outcomes(v.filter_query, v.model.entries, found) && b
                == #[trigger] rows::filtered_rows(v.model, found, n);
        assert forall|k: int|
            0 <= k < n && (#[trigger] v.model.entries[k]).kind == EntryKind::File implies left[k]
            == right[k] by {
            fuzzy_match::law_outcome_unique(
                v.filter_query,
                v.model.entries[k].path@,
                left[k],
                right[k],
            );
        }
        rows::lemma_filtered_rows_agree(v.model, left, right, n);
    }
}

/// Backslash or not, whatever a state shows is one list but for the matched
/// positions.
pub proof fn law_shown_rows_alike(v: FileTreeView, a: Seq<RowView>, b: Seq<RowView>)
    requires
        shows(v, a),
        shows(v, b),
    ensures
        rows::unmarked(a) == rows::unmarked(b),
{
    let n = v.model.entries.len();
    if !v.root_collapsed && v.filter_query.len() > 0 {
        let left = choose|found: Seq<Option<MatchView>>|
            rows::outcomes(v.filter_query, v.model.entries, found) && a
                == #[trigger] rows::filtered_rows(v.model, found, n);
        let right = choose|found: Seq<Option<MatchView>>|
            rows::outcomes(v.filter_query, v.model.entries, found) && b
                == #[trigger] rows::filtered_rows(v.model, found, n);
        assert forall|k: int|
            0 <= k < n && (#[trigger] v.model.entries[k]).kind == EntryKind::File implies (left[k]
            is Some <==> right[k] is Some) by {
            fuzzy_match::law_match_settled(
                v.filter_query,
                v.model.entries[k].path@,
                left[k],
                right[k],
            );
        }
        rows::lemma_filtered_rows_alike(v.model, left, right, n);
    }
}

/// A state has one fresh row list only.
pub proof fn law_fresh_rows_unique(v: FileTreeView, a: Seq<RowView>, b: Seq<RowView>)
    requires
        rows_settled(v),
        fresh_rows(v, a),
        fresh_rows(v, b),
    ensures
        a == b,
{
    let left = choose|base: Seq<RowView>|
        shows(v, base) && a == #[trigger] with_pending(base, v.create);
    let right = choose|base: Seq<RowView>|
        shows(v, base) && b == #[trigger] with_pending(base, v.create);
    law_shown_rows_unique(v, left, right);
}

/// What bringing the cache up to date leaves in it.
pub open spec fn refreshed(v: FileTreeView, list: Seq<RowView>) -> bool {
    if v.dirty {
        fresh_rows(v, list)
    } else {
        list == v.rows
    }
}

impl FileTreeView {
    /// One inline editor is open at most.
    pub open spec fn one_editor(&self) -> bool {
        !(self.rename is Some && self.create is Some)
    }

    /// The model is well-formed, one inline editor is open at most, a closed
    /// filter bar filters nothing, and a clean cache is a fresh row list.
    pub open spec fn wf(&self) -> bool {
        &&& self.model.wf()
        &&& self.one_editor()
        &&& !self.filter_active ==> self.filter_query.len() == 0
        &&& !self.dirty ==> fresh_rows(*self, self.rows)
    }
}

/// The navigable file tree.
pub struct FileTree {
    model: WorktreeModel,
    collapsed: KeyedVec<String>,
    selected: Option<String>,
    selection: KeyedVec<String>,
    row_cache: Vec<Row>,
    cache_dirty: bool,
    rename: Option<RenameEditor>,
    create: Option<CreateEditor>,
    pending_reveal: Option<String>,
    filter_active: bool,
    filter_query: String,
    root_collapsed: bool,
}

impl View for FileTree {
    type V = FileTreeView;

    closed spec fn view(&self) -> FileTreeView {
        FileTreeView {
            model: self.model@,
            collapsed: self.collapsed.keys(),
            selected: text::opt_view(self.selected),
            selection: self.selection.keys(),
            rows: rows::rows_view(self.row_cache@),
            dirty: self.cache_dirty,
            rename: rename_view(self.rename),
            create: create_view(self.create),
            pending_reveal: text::opt_view(self.pending_reveal),
            filter_active: self.filter_active,
            filter_query: self.filter_query@,
            root_collapsed: self.root_collapsed,
        }
    }
}

/// `set` with the membership of `x` flipped.
pub open spec fn toggled(set: Set<Seq<char>>, x: Seq<char>) -> Set<Seq<char>> {
    if set.contains(x) {
        set.remove(x)
    } else {
        set.insert(x)
    }
}

/// Files `path` in `set`.
fn set_insert(set: &mut KeyedVec<String>, path: &str)
    requires
        old(set).wf(),
    ensures
        final(set).wf(),
        final(set).keys() == old(set).keys().insert(path@),
{
    let ghost before = set.keys();
    set.upsert(path.to_owned());
    proof {
        assert(set.keys() =~= before.insert(path@));
    }
}

/// Drops `path` from `set`; tells whether it was there.
fn set_remove(set: &mut KeyedVec<String>, path: &str) -> (had: bool)
    requires
        old(set).wf(),
    ensures
        final(set).wf(),
        final(set).keys() == old(set).keys().remove(path@),
        had == old(set).keys().contains(path@),
{
    let ghost before = set.keys();
    let had = set.remove(path);
    proof {
        assert(set.keys() =~= before.remove(path@));
    }
    had
}

/// Flips the membership of `path` in `set`.
fn set_toggle(set: &mut KeyedVec<String>, path: &str)
    requires
        old(set).wf(),
    ensures
        final(set).wf(),
        final(set).keys() == toggled(old(set).keys(), path@),
{
    if !set_remove(set, path) {
        proof {
            assert(set.keys() =~= old(set).keys());
        }
        set_insert(set, path);
    }
}

/// A set without paths.
fn no_paths() -> (set: KeyedVec<String>)
    ensures
        set.wf(),
        set.keys() == Set::<Seq<char>>::empty(),
{
    let set: KeyedVec<String> = KeyedVec::new();
    proof {
        assert(set.keys() =~= Set::<Seq<char>>::empty());
    }
    set
}

impl Default for FileTree {
    /// An empty tree.
    fn default() -> (tree: Self)
        ensures
            tree.wf(),
            tree@.model.root is None,
            tree@.model.entries.len() == 0,
            tree@.model.git.len() == 0,
            tree@.model.diagnostics.len() == 0,
            tree@.model.staged.len() == 0,
            tree@ == (FileTreeView {
                model: tree@.model,
                collapsed: Set::empty(),
                selected: None,
                selection: Set::empty(),
                rows: Seq::empty(),
                dirty: true,
                rename: None,
                create: None,
                pending_reveal: None,
                filter_active: false,
                filter_query: Seq::empty(),
                root_collapsed: false,
            }),
    {
        FileTree::new()
    }
}

impl FileTree {
    /// The collapse and selection sets are kept in order.
    pub closed spec fn sets_wf(&self) -> bool {
        self.collapsed.wf() && self.selection.wf()
    }

    /// The invariant of the tree.
    pub open spec fn wf(&self) -> bool {
        self.sets_wf() && self@.wf()
    }

    /// The panel's identity in a saved layout.
    pub fn panel_name(&self) -> (name: &'static str)
        ensures
            name@ == FILE_TREE_PANEL_NAME@,
    {
        FILE_TREE_PANEL_NAME
    }

    /// An empty tree.
    pub fn new() -> (tree: Self)
        ensures
            tree.wf(),
            tree@.model.root is None,
            tree@.model.entries.len() == 0,
            tree@.model.git.len() == 0,
            tree@.model.diagnostics.len() == 0,
            tree@.model.staged.len() == 0,
            tree@ == (FileTreeView {
                model: tree@.model,
                collapsed: Set::empty(),
                selected: None,
                selection: Set::empty(),
                rows: Seq::empty(),
                dirty: true,
                rename: None,
                create: None,
                pending_reveal: None,
                filter_active: false,
                filter_query: Seq::empty(),
                root_collapsed: false,
            }),
    {
        let tree = FileTree {
            model: WorktreeModel::default(),
            collapsed: no_paths(),
            selected: None,
            selection: no_paths(),
            row_cache: Vec::new(),
            cache_dirty: true,
            rename: None,
            create: None,
            pending_reveal: None,
            filter_active: false,
            filter_query: String::new(),
            root_collapsed: false,
        };
        proof {
            assert(tree@.rows =~= Seq::<RowView>::empty());
        }
        tree
    }

    /// The mirrored worktree.
    pub fn model(&self) -> (model: &WorktreeModel)
        ensures
            model@ == self@.model,
    {
        &self.model
    }

    /// The mirrored worktree, to fold a daemon message into. The row cache is
    /// stale from here on.
    pub fn model_mut(&mut self) -> (model: &mut WorktreeModel)
        requires
            old(self).wf(),
        ensures
            model@ == old(self)@.model,
            model.wf(),
            final(self)@ == (FileTreeView { model: final(model)@, dirty: true, ..old(self)@ }),
            final(model).wf() ==> final(self).wf(),
    {
        self.cache_dirty = true;
        &mut self.model
    }

    /// The cursor.
    pub fn selected(&self) -> (selected: Option<&str>)
        ensures
            navigation::opt_str(selected) == self@.selected,
    {
        match &self.selected {
            Some(path) => Some(path.as_str()),
            None => None,
        }
    }

    /// Whether `path` is collapsed.
    pub fn is_collapsed(&self, path: &str) -> (collapsed: bool)
        requires
            self.wf(),
        ensures
            collapsed == self@.collapsed.contains(path@),
    {
        self.collapsed.contains(path)
    }

    /// Whether `path` is in the multi-selection.
    pub fn is_in_selection(&self, path: &str) -> (member: bool)
        requires
            self.wf(),
        ensures
            member == self@.selection.contains(path@),
    {
        self.selection.contains(path)
    }

    /// Whether the row cache is stale.
    pub fn is_dirty(&self) -> (dirty: bool)
        ensures
            dirty == self@.dirty,
    {
        self.cache_dirty
    }

    /// The cached rows.
    pub fn rows(&self) -> (list: &Vec<Row>)
        ensures
            rows::rows_view(list@) == self@.rows,
    {
        &self.row_cache
    }

    /// The open rename editor.
    pub fn rename_editor(&self) -> (editor: Option<&RenameEditor>)
        ensures
            editor is Some <==> self@.rename is Some,
            editor matches Some(e) ==> self@.rename == Some(e@),
    {
        self.rename.as_ref()
    }

    /// The open create editor.
    pub fn create_editor(&self) -> (editor: Option<&CreateEditor>)
        ensures
            editor is Some <==> self@.create is Some,
            editor matches Some(e) ==> self@.create == Some(e@),
    {
        self.create.as_ref()
    }

    /// The path to reveal as soon as it arrives.
    pub fn pending_reveal(&self) -> (path: Option<&str>)
        ensures
            navigation::opt_str(path) == self@.pending_reveal,
    {
        match &self.pending_reveal {
            Some(path) => Some(path.as_str()),
            None => None,
        }
    }

    /// Whether the filter bar is open.
    pub fn filter_active(&self) -> (active: bool)
        ensures
            active == self@.filter_active,
    {
        self.filter_active
    }

    /// The filter; empty where nothing is filtered.
    pub fn filter_query(&self) -> (query: &str)
        ensures
            query@ == self@.filter_query,
    {
        self.filter_query.as_str()
    }

    /// Whether the root row has folded the whole tree.
    pub fn root_collapsed(&self) -> (folded: bool)
        ensures
            folded == self@.root_collapsed,
    {
        self.root_collapsed
    }

    // -----------------------------------------------------------------------
    // Rows
    // -----------------------------------------------------------------------

    /// Builds the visible rows of the current state.
    pub fn visible_rows(&self) -> (list: Vec<Row>)
        requires
            self.wf(),
        ensures
            shows(self@, rows::rows_view(list@)),
    {
        if self.root_collapsed {
            let none: Vec<Row> = Vec::new();
            proof {
                assert(rows::rows_view(none@) =~= Seq::<RowView>::empty());
            }
            return none;
        }
        if self.filter_query.as_str().is_empty() {
            rows::visible_rows_unfiltered(&self.model, &self.collapsed)
        } else {
            rows::visible_rows_filtered(&self.model, self.filter_query.as_str())
        }
    }

    /// Brings the row cache up to date. A clean cache stays as it is.
    pub fn refresh_row_cache(&mut self)
        requires
            old(self).wf(),
        ensures
            final(self).wf(),
            refreshed(old(self)@, final(self)@.rows),
            final(self)@ == (FileTreeView {
                rows: final(self)@.rows,
                dirty: false,
                ..old(self)@
            }),
    {
        if self.cache_dirty {
            let mut list = self.visible_rows();
            let ghost base = rows::rows_view(list@);
            if let Some(create) = &self.create {
                proof {
                    lemma_depths_counted(self@, base);
                }
                insert_create_row(&mut list, create);
            }
            let ghost after = rows::rows_view(list@);
            self.row_cache = list;
            self.cache_dirty = false;
            proof {
                assert(shows(old(self)@, base));
                assert(after == with_pending(base, old(self)@.create));
                assert(shows(self@, base));
                assert(self@.rows == with_pending(base, self@.create));
            }
        }
    }
}

proof fn lemma_plain_depths(model: WorktreeView, collapsed: Set<Seq<char>>, n: nat)
    requires
        model.wf(),
        n <= model.entries.len(),
    ensures
        depths_counted(rows::plain_rows(model, collapsed, n)),
    decreases n,
{
    if n > 0 {
        lemma_plain_depths(model, collapsed, (n - 1) as nat);
        paths::lemma_slash_count(model.entries[n - 1].path@);
        assert(crate::worktree::path_fits(model.entries[n - 1].path@));
    }
}

proof fn lemma_filtered_depths(model: WorktreeView, found: Seq<Option<MatchView>>, n: nat)
    requires
        model.wf(),
        n <= model.entries.len(),
    ensures
        depths_counted(rows::filtered_rows(model, found, n)),
    decreases n,
{
    if n > 0 {
        lemma_filtered_depths(model, found, (n - 1) as nat);
        paths::lemma_slash_count(model.entries[n - 1].path@);
        assert(crate::worktree::path_fits(model.entries[n - 1].path@));
    }
}

proof fn lemma_depths_counted(v: FileTreeView, list: Seq<RowView>)
    requires
        v.model.wf(),
        shows(v, list),
    ensures
        depths_counted(list),
{
    let n = v.model.entries.len();
    if !v.root_collapsed {
        if v.filter_query.len() == 0 {
            lemma_plain_depths(v.model, v.collapsed, n);
        } else {
            let found = choose|found: Seq<Option<MatchView>>|
                rows::outcomes(v.filter_query, v.model.entries, found) && list
                    == #[trigger] rows::filtered_rows(v.model, found, n);
            lemma_filtered_depths(v.model, found, n);
        }
    }
}

/// A cached row is no deeper than 32 bits count.
pub proof fn lemma_row_depth(v: FileTreeView, list: Seq<RowView>, i: int)
    requires
        v.model.wf(),
        fresh_rows(v, list),
        0 <= i < list.len(),
    ensures
        list[i].depth <= u32::MAX,
{
    let base = choose|base: Seq<RowView>|
        shows(v, base) && list == #[trigger] with_pending(base, v.create);
    lemma_depths_counted(v, base);
    if let Some(c) = v.create {
        if c.parent.len() > 0 {
            navigation::lemma_position_among(base, c.parent, base.len());
            match navigation::position_of(base, c.parent) {
                Some(k) => {
                    assert(base[k as int].depth < u32::MAX);
                    if i <= k {
                        assert(list[i] == base[i]);
                    } else if i > k + 1 {
                        assert(list[i] == base[i - 1]);
                    }
                },
                None => {
                    if i < base.len() {
                        assert(list[i] == base[i]);
                    }
                },
            }
        } else if i > 0 {
            assert(list[i] == base[i - 1]);
        }
    }
}

} // verus!
