//! File operations from the tree: renaming, creating, deleting and moving.
//!
//! The tree never changes the worktree itself. It asks for an operation with an
//! event, and the reply only moves its editors along.

use vstd::prelude::*;

use super::{CreateEditor, CreateView, FileTree, FileTreeEvent, FileTreeView, RenameEditor, RenameView};
use crate::paths;
use crate::protocol::{EntryKind, FileOp, FileOpError};
use crate::text;
use crate::worktree::WorktreeView;

verus! {

// ---------------------------------------------------------------------------
// Texts
// ---------------------------------------------------------------------------

/// The text shown for a refused operation.
pub open spec fn error_text(error: FileOpError) -> Seq<char> {
    match error {
        FileOpError::AlreadyExists => "A file or folder with this name already exists"@,
        FileOpError::InvalidPath => "Invalid name"@,
        FileOpError::NotFound => "The original file was not found"@,
        FileOpError::PermissionDenied => "Permission denied"@,
        FileOpError::Io => "Rename failed"@,
    }
}

/// The text shown beside the name in an editor that was refused.
pub fn describe_file_op_error(error: FileOpError) -> (message: &'static str)
    ensures
        message@ == error_text(error),
{
    match error {
        FileOpError::AlreadyExists => "A file or folder with this name already exists",
        FileOpError::InvalidPath => "Invalid name",
        FileOpError::NotFound => "The original file was not found",
        FileOpError::PermissionDenied => "Permission denied",
        FileOpError::Io => "Rename failed",
    }
}

/// The question before a delete.
pub open spec fn delete_text(name: Seq<char>, kind: EntryKind) -> Seq<char> {
    "Delete \""@ + name + match kind {
        EntryKind::Dir => "\" and its contents? This cannot be undone."@,
        EntryKind::File => "\"? This cannot be undone."@,
    }
}

/// The question before a delete: names the entry, and warns of the contents of
/// a directory.
pub fn describe_delete(name: &str, kind: EntryKind) -> (message: String)
    ensures
        message@ == delete_text(name@, kind),
{
    let mut message = "Delete \"".to_owned();
    message.append(name);
    match kind {
        EntryKind::Dir => message.append("\" and its contents? This cannot be undone."),
        EntryKind::File => message.append("\"? This cannot be undone."),
    }
    message
}

// ---------------------------------------------------------------------------
// Model
// ---------------------------------------------------------------------------

/// A typed name is one segment: neither blank nor holding a separator.
pub open spec fn is_segment(name: Seq<char>) -> bool {
    name.len() > 0 && !name.contains('/')
}

/// The directory that a new entry goes into: the directory at the cursor, the
/// parent of a file there, and the root otherwise.
pub open spec fn create_dir(model: WorktreeView, selected: Option<Seq<char>>) -> Seq<char> {
    match selected {
        Some(path) => if model.has(path) {
            paths::directory_of(model.entry(path).kind, path)
        } else {
            Seq::empty()
        },
        None => Seq::empty(),
    }
}

/// The state after opening the rename editor, which closes the create editor.
pub open spec fn renaming(v: FileTreeView, editor: RenameView) -> FileTreeView {
    FileTreeView { rename: Some(editor), create: None, dirty: true, ..v }
}

/// The state after opening the create editor, which closes the rename editor:
/// its directory is expanded.
pub open spec fn creating(v: FileTreeView, editor: CreateView) -> FileTreeView {
    FileTreeView {
        create: Some(editor),
        rename: None,
        collapsed: if editor.parent.len() == 0 {
            v.collapsed
        } else {
            v.collapsed.remove(editor.parent)
        },
        dirty: true,
        ..v
    }
}

/// The errors that put the user back into the editor.
pub open spec fn reopens(error: Option<FileOpError>) -> bool {
    error == Some(FileOpError::AlreadyExists) || error == Some(FileOpError::InvalidPath)
}

/// The state after the reply to a create.
pub open spec fn create_answered(
    v: FileTreeView,
    kind: EntryKind,
    path: Seq<char>,
    ok: bool,
    error: Option<FileOpError>,
) -> FileTreeView {
    if ok {
        FileTreeView { pending_reveal: Some(path), ..v }
    } else if reopens(error) {
        creating(
            v,
            CreateView {
                parent: paths::parent_of(path),
                kind,
                name: paths::leaf_of(path),
                error: Some(error_text(error->0)),
            },
        )
    } else {
        v
    }
}

/// The state after the reply to a file operation. The worktree is never
/// touched.
pub open spec fn answered(
    v: FileTreeView,
    op: FileOp,
    ok: bool,
    error: Option<FileOpError>,
) -> FileTreeView {
    match op {
        FileOp::Rename { from, to } => if ok {
            FileTreeView { pending_reveal: Some(to@), ..v }
        } else if reopens(error) {
            renaming(
                v,
                RenameView {
                    path: from@,
                    name: paths::leaf_of(to@),
                    error: Some(error_text(error->0)),
                },
            )
        } else {
            v
        },
        FileOp::CreateFile { path } => create_answered(v, EntryKind::File, path@, ok, error),
        FileOp::CreateDir { path } => create_answered(v, EntryKind::Dir, path@, ok, error),
        FileOp::Delete { path } => v,
    }
}

/// What a dragged row carries.
pub struct DraggedRow {
    pub path: String,
    pub kind: EntryKind,
}

/// The question that a delete waits for.
pub struct DeletePrompt {
    pub path: String,
    pub message: String,
}

impl FileTree {
    // -----------------------------------------------------------------------
    // Rename
    // -----------------------------------------------------------------------

    /// Opens the rename editor for the row at the cursor, closing a create editor
    /// first.
    pub fn start_rename(&mut self)
        requires
            old(self).wf(),
        ensures
            final(self).wf(),
            final(self)@ == match old(self)@.selected {
                Some(path) => if old(self)@.model.has(path) {
                    renaming(
                        old(self)@,
                        RenameView { path, name: paths::leaf_of(path), error: None },
                    )
                } else {
                    old(self)@
                },
                None => old(self)@,
            },
    {
        let path: String = match &self.selected {
            Some(path) => path.clone(),
            None => {
                return;
            },
        };
        if self.model.get(path.as_str()).is_none() {
            return;
        }
        let name = paths::leaf_name(path.as_str()).to_owned();
        self.open_rename_editor(path, name, None);
    }

    /// Opens the rename editor for `path`, closing a create editor.
    pub fn open_rename_editor(&mut self, path: String, name: String, error: Option<String>)
        requires
            old(self).wf(),
        ensures
            final(self).wf(),
            final(self)@ == renaming(
                old(self)@,
                RenameView { path: path@, name: name@, error: text::opt_view(error) },
            ),
    {
        self.create = None;
        self.rename = Some(RenameEditor { path, name, error });
        self.cache_dirty = true;
    }

    /// Commits the typed name: closes the editor and asks for the rename. A
    /// blank name, one with a separator and the name it has already ask for
    /// nothing.
    pub fn commit_rename(&mut self, value: &str) -> (event: Option<FileTreeEvent>)
        requires
            old(self).wf(),
        ensures
            final(self).wf(),
            match old(self)@.rename {
                None => final(self)@ == old(self)@ && event is None,
                Some(editor) => {
                    let name = text::trimmed(value@);
                    let to = paths::renamed(editor.path, name);
                    &&& final(self)@ == (FileTreeView { rename: None, dirty: true, ..old(self)@ })
                    &&& event is Some <==> is_segment(name) && to != editor.path
                    &&& event matches Some(e) ==> super::renames(e, editor.path, to)
                },
            },
    {
        let editor: RenameEditor = match self.rename.take() {
            Some(editor) => editor,
            None => {
                return None;
            },
        };
        self.cache_dirty = true;
        let name = text::trim(value);
        if !name.is_empty() && !text::has_char(name, '/') {
            let to = paths::rename_target(editor.path.as_str(), name);
            if !text::same_text(to.as_str(), editor.path.as_str()) {
                return Some(FileTreeEvent::RenameRequested { from: editor.path, to });
            }
        }
        None
    }

    /// Closes the rename editor without asking for anything.
    pub fn cancel_rename(&mut self)
        requires
            old(self).wf(),
        ensures
            final(self).wf(),
            final(self)@ == if old(self)@.rename is Some {
                FileTreeView { rename: None, dirty: true, ..old(self)@ }
            } else {
                old(self)@
            },
    {
        if self.rename.is_some() {
            self.rename = None;
            self.cache_dirty = true;
        }
    }

    // -----------------------------------------------------------------------
    // Create
    // -----------------------------------------------------------------------

    /// The directory that a new entry goes into.
    pub fn create_target_dir(&self) -> (dir: String)
        requires
            self.wf(),
        ensures
            dir@ == create_dir(self@.model, self@.selected),
    {
        match &self.selected {
            None => String::new(),
            Some(selected) => match self.model.get(selected.as_str()) {
                None => String::new(),
                Some(entry) => match entry.kind {
                    EntryKind::Dir => selected.clone(),
                    EntryKind::File => paths::parent_dir(selected.as_str()).to_owned(),
                },
            },
        }
    }

    /// Opens a blank create editor under the directory at the cursor, closing a
    /// rename editor first. Without a snapshot there is nothing to create into.
    pub fn start_create(&mut self, kind: EntryKind)
        requires
            old(self).wf(),
        ensures
            final(self).wf(),
            final(self)@ == if old(self)@.model.root is None {
                old(self)@
            } else {
                creating(
                    old(self)@,
                    CreateView {
                        parent: create_dir(old(self)@.model, old(self)@.selected),
                        kind,
                        name: Seq::empty(),
                        error: None,
                    },
                )
            },
    {
        if self.model.root().is_none() {
            return;
        }
        let parent = self.create_target_dir();
        self.open_create_editor(parent, kind, String::new(), None);
    }

    /// Opens the create editor under `parent`, which is expanded for it, closing
    /// a rename editor.
    pub fn open_create_editor(
        &mut self,
        parent: String,
        kind: EntryKind,
        name: String,
        error: Option<String>,
    )
        requires
            old(self).wf(),
        ensures
            final(self).wf(),
            final(self)@ == creating(
                old(self)@,
                CreateView { parent: parent@, kind, name: name@, error: text::opt_view(error) },
            ),
    {
        self.cache_dirty = true;
        if !parent.as_str().is_empty() {
            let _ = super::set_remove(&mut self.collapsed, parent.as_str());
        }
        self.rename = None;
        self.create = Some(CreateEditor { parent, kind, name, error });
    }

    /// Commits the typed name: closes the editor and asks for the entry. A
    /// blank name and one with a separator ask for nothing.
    pub fn commit_create(&mut self, value: &str) -> (event: Option<FileTreeEvent>)
        requires
            old(self).wf(),
        ensures
            final(self).wf(),
            match old(self)@.create {
                None => final(self)@ == old(self)@ && event is None,
                Some(editor) => {
                    let name = text::trimmed(value@);
                    &&& final(self)@ == (FileTreeView { create: None, dirty: true, ..old(self)@ })
                    &&& event is Some <==> is_segment(name)
                    &&& event matches Some(e) ==> super::creates(
                        e,
                        paths::joined(editor.parent, name),
                        editor.kind,
                    )
                },
            },
    {
        let editor: CreateEditor = match self.create.take() {
            Some(editor) => editor,
            None => {
                return None;
            },
        };
        self.cache_dirty = true;
        let name = text::trim(value);
        if !name.is_empty() && !text::has_char(name, '/') {
            let path = paths::join_dir(editor.parent.as_str(), name);
            return Some(FileTreeEvent::CreateRequested { path, kind: editor.kind });
        }
        None
    }

    /// Closes the create editor without asking for anything.
    pub fn cancel_create(&mut self)
        requires
            old(self).wf(),
        ensures
            final(self).wf(),
            final(self)@ == if old(self)@.create is Some {
                FileTreeView { create: None, dirty: true, ..old(self)@ }
            } else {
                old(self)@
            },
    {
        if self.create.is_some() {
            self.create = None;
            self.cache_dirty = true;
        }
    }

    /// Puts the user back into the create editor after a refusal, with the name
    /// and the directory that the reply echoes.
    pub fn reopen_create_editor(&mut self, kind: EntryKind, path: &str, error: FileOpError)
        requires
            old(self).wf(),
        ensures
            final(self).wf(),
            final(self)@ == creating(
                old(self)@,
                CreateView {
                    parent: paths::parent_of(path@),
                    kind,
                    name: paths::leaf_of(path@),
                    error: Some(error_text(error)),
                },
            ),
    {
        let parent = paths::parent_dir(path).to_owned();
        let name = paths::leaf_name(path).to_owned();
        let message = describe_file_op_error(error).to_owned();
        self.open_create_editor(parent, kind, name, Some(message));
    }

    // -----------------------------------------------------------------------
    // Delete
    // -----------------------------------------------------------------------

    /// The question to ask before the entry at the cursor is deleted.
    pub fn confirm_delete(&self) -> (prompt: Option<DeletePrompt>)
        requires
            self.wf(),
        ensures
            match self@.selected {
                Some(path) => if self@.model.has(path) {
                    &&& prompt is Some
                    &&& (prompt->0).path@ == path
                    &&& (prompt->0).message@ == delete_text(
                        paths::leaf_of(path),
                        self@.model.entry(path).kind,
                    )
                } else {
                    prompt is None
                },
                None => prompt is None,
            },
    {
        match &self.selected {
            None => None,
            Some(path) => match self.model.get(path.as_str()) {
                None => None,
                Some(entry) => {
                    let message = describe_delete(paths::leaf_name(path.as_str()), entry.kind);
                    Some(DeletePrompt { path: path.clone(), message })
                },
            },
        }
    }

    /// The request after the question was answered with yes.
    pub fn delete_confirmed(prompt: DeletePrompt) -> (event: FileTreeEvent)
        ensures
            event matches FileTreeEvent::DeleteRequested { path } && path@ == prompt.path@,
    {
        FileTreeEvent::DeleteRequested { path: prompt.path }
    }

    // -----------------------------------------------------------------------
    // Replies and drops
    // -----------------------------------------------------------------------

    /// Takes the reply to a file operation. A success waits for the new path to
    /// arrive; a refused name goes back into its editor with the reason.
    pub fn apply_file_op_result(&mut self, op: FileOp, ok: bool, error: Option<FileOpError>)
        requires
            old(self).wf(),
        ensures
            final(self).wf(),
            final(self)@ == answered(old(self)@, op, ok, error),
    {
        match op {
            FileOp::Rename { from, to } => {
                if ok {
                    self.await_path(to);
                } else {
                    match error {
                        Some(FileOpError::AlreadyExists) => {
                            self.reopen_rename_editor(from, to, FileOpError::AlreadyExists);
                        },
                        Some(FileOpError::InvalidPath) => {
                            self.reopen_rename_editor(from, to, FileOpError::InvalidPath);
                        },
                        _ => {},
                    }
                }
            },
            FileOp::CreateFile { path } => {
                self.apply_create_result(EntryKind::File, path, ok, error);
            },
            FileOp::CreateDir { path } => {
                self.apply_create_result(EntryKind::Dir, path, ok, error);
            },
            FileOp::Delete { path: _ } => {},
        }
    }

    /// Takes the reply to a create.
    pub fn apply_create_result(
        &mut self,
        kind: EntryKind,
        path: String,
        ok: bool,
        error: Option<FileOpError>,
    )
        requires
            old(self).wf(),
        ensures
            final(self).wf(),
            final(self)@ == create_answered(old(self)@, kind, path@, ok, error),
    {
        if ok {
            self.await_path(path);
        } else {
            match error {
                Some(FileOpError::AlreadyExists) => {
                    self.reopen_create_editor(kind, path.as_str(), FileOpError::AlreadyExists);
                },
                Some(FileOpError::InvalidPath) => {
                    self.reopen_create_editor(kind, path.as_str(), FileOpError::InvalidPath);
                },
                _ => {},
            }
        }
    }

    /// Waits for `path` to arrive, to reveal it then.
    fn await_path(&mut self, path: String)
        requires
            old(self).wf(),
        ensures
            final(self).wf(),
            final(self)@ == (FileTreeView { pending_reveal: Some(path@), ..old(self)@ }),
    {
        self.pending_reveal = Some(path);
        proof {
            if !self@.dirty {
                super::lemma_fresh_rows_same(old(self)@, self@, self@.rows);
            }
        }
    }

    /// Puts the user back into the rename editor after a refusal, with the name
    /// that was typed.
    fn reopen_rename_editor(&mut self, from: String, to: String, error: FileOpError)
        requires
            old(self).wf(),
        ensures
            final(self).wf(),
            final(self)@ == renaming(
                old(self)@,
                RenameView {
                    path: from@,
                    name: paths::leaf_of(to@),
                    error: Some(error_text(error)),
                },
            ),
    {
        let name = paths::leaf_name(to.as_str()).to_owned();
        let message = describe_file_op_error(error).to_owned();
        self.open_rename_editor(from, name, Some(message));
    }

    /// Takes a drop of one row onto another: asks for the move unless it is
    /// refused.
    pub fn handle_drop(
        &self,
        dragged: &DraggedRow,
        target_kind: EntryKind,
        target_path: &str,
    ) -> (event: Option<FileTreeEvent>)
        ensures
            match paths::drop_move(dragged.path@, dragged.kind, target_kind, target_path@) {
                Some(to) => event is Some && super::renames(event->0, dragged.path@, to),
                None => event is None,
            },
    {
        match paths::resolve_drop(
            dragged.path.as_str(),
            dragged.kind,
            target_kind,
            target_path,
        ) {
            Some((from, to)) => Some(FileTreeEvent::RenameRequested { from, to }),
            None => None,
        }
    }

    /// `Escape`: closes the innermost thing that is open. Tells whether there
    /// was one; where not, the key belongs to someone else.
    pub fn escape(&mut self) -> (taken: bool)
        requires
            old(self).wf(),
        ensures
            final(self).wf(),
            taken == (old(self)@.rename is Some || old(self)@.create is Some
                || old(self)@.filter_active),
            final(self)@ == if old(self)@.rename is Some {
                FileTreeView { rename: None, dirty: true, ..old(self)@ }
            } else if old(self)@.create is Some {
                FileTreeView { create: None, dirty: true, ..old(self)@ }
            } else if old(self)@.filter_active {
                FileTreeView {
                    filter_active: false,
                    filter_query: Seq::empty(),
                    dirty: true,
                    ..old(self)@
                }
            } else {
                old(self)@
            },
    {
        if self.rename.is_some() {
            self.cancel_rename();
            true
        } else if self.create.is_some() {
            self.cancel_create();
            true
        } else if self.filter_active {
            self.close_filter();
            true
        } else {
            false
        }
    }
}

// ---------------------------------------------------------------------------
// Laws
// ---------------------------------------------------------------------------

/// The reply to a file operation never changes the worktree.
pub proof fn law_reply_leaves_worktree(
    v: FileTreeView,
    op: FileOp,
    ok: bool,
    error: Option<FileOpError>,
)
    ensures
        answered(v, op, ok, error).model == v.model,
{
}

/// A refused name comes back unchanged: committing it, being refused and
/// committing the seeded name again asks for the same move.
pub proof fn law_refused_rename_keeps_name(
    v: FileTreeView,
    from: String,
    to: String,
    name: Seq<char>,
    error: FileOpError,
)
    requires
        is_segment(name),
        to@ == paths::renamed(from@, name),
        reopens(Some(error)),
    ensures
        ({
            let editor = answered(v, FileOp::Rename { from, to }, false, Some(error)).rename->0;
            editor.path == from@ && editor.name == name
        }),
{
    paths::law_rename_keeps_parent(from@, name);
}

/// Every refusal has a text of its own.
pub proof fn law_error_texts_distinct(a: FileOpError, b: FileOpError)
    requires
        error_text(a) == error_text(b),
    ensures
        a == b,
{
    reveal_strlit("A file or folder with this name already exists");
    reveal_strlit("Invalid name");
    reveal_strlit("The original file was not found");
    reveal_strlit("Permission denied");
    reveal_strlit("Rename failed");
    assert(error_text(FileOpError::AlreadyExists).len() == 46);
    assert(error_text(FileOpError::InvalidPath).len() == 12);
    assert(error_text(FileOpError::NotFound).len() == 31);
    assert(error_text(FileOpError::PermissionDenied).len() == 17);
    assert(error_text(FileOpError::Io).len() == 13);
}

} // verus!
