//! The actions that keys and menus bind to, and what each does to the tree.

use vstd::prelude::*;

use super::editing;
use super::editing::DeletePrompt;
use super::revealing;
use super::selection;
use super::{FileTree, FileTreeEvent, FileTreeView};
use crate::file_tree::collapse;
use crate::navigation;
use crate::paths;
use crate::protocol::{EntryKind, FileOp, FileOpError};
use crate::rows::RowView;
use crate::text;

verus! {

/// Move the cursor to the previous row.
#[derive(Clone, Copy, Debug, PartialEq, Eq)]
pub struct SelectUp;

/// Move the cursor to the next row.
#[derive(Clone, Copy, Debug, PartialEq, Eq)]
pub struct SelectDown;

/// Collapse the directory at the cursor, or move to its parent.
#[derive(Clone, Copy, Debug, PartialEq, Eq)]
pub struct CollapseOrSelectParent;

/// Expand the directory at the cursor, or move to its first child.
#[derive(Clone, Copy, Debug, PartialEq, Eq)]
pub struct ExpandOrSelectChild;

/// Open the file at the cursor, or toggle the directory there.
#[derive(Clone, Copy, Debug, PartialEq, Eq)]
pub struct OpenSelected;

/// Move the cursor to the first row.
#[derive(Clone, Copy, Debug, PartialEq, Eq)]
pub struct SelectFirst;

/// Move the cursor to the last row.
#[derive(Clone, Copy, Debug, PartialEq, Eq)]
pub struct SelectLast;

/// Extend the multi-selection to the previous row.
#[derive(Clone, Copy, Debug, PartialEq, Eq)]
pub struct ExtendSelectionUp;

/// Extend the multi-selection to the next row.
#[derive(Clone, Copy, Debug, PartialEq, Eq)]
pub struct ExtendSelectionDown;

/// Reveal the row at the cursor.
#[derive(Clone, Copy, Debug, PartialEq, Eq)]
pub struct RevealInTree;

/// Copy the absolute path at the cursor.
#[derive(Clone, Copy, Debug, PartialEq, Eq)]
pub struct CopyAbsolutePath;

/// Copy the root-relative path at the cursor.
#[derive(Clone, Copy, Debug, PartialEq, Eq)]
pub struct CopyRelativePath;

/// Open a terminal in the directory at the cursor.
#[derive(Clone, Copy, Debug, PartialEq, Eq)]
pub struct RevealInTerminal;

/// Collapse every directory.
#[derive(Clone, Copy, Debug, PartialEq, Eq)]
pub struct CollapseAll;

/// Rename the row at the cursor.
#[derive(Clone, Copy, Debug, PartialEq, Eq)]
pub struct StartRename;

/// Create a file under the directory at the cursor.
#[derive(Clone, Copy, Debug, PartialEq, Eq)]
pub struct NewFile;

/// Create a directory under the directory at the cursor.
#[derive(Clone, Copy, Debug, PartialEq, Eq)]
pub struct NewFolder;

/// Delete the entry at the cursor, once confirmed.
#[derive(Clone, Copy, Debug, PartialEq, Eq)]
pub struct DeleteSelected;

/// Any action of the tree.
#[derive(Clone, Copy, Debug, PartialEq, Eq, Structural)]
pub enum TreeAction {
    SelectUp,
    SelectDown,
    CollapseOrSelectParent,
    ExpandOrSelectChild,
    OpenSelected,
    SelectFirst,
    SelectLast,
    ExtendSelectionUp,
    ExtendSelectionDown,
    RevealInTree,
    CopyAbsolutePath,
    CopyRelativePath,
    RevealInTerminal,
    CollapseAll,
    StartRename,
    NewFile,
    NewFolder,
    DeleteSelected,
}

/// What performing an action asks of the window around the tree.
pub struct TreeOutcome {
    /// The row to scroll to.
    pub scroll: Option<usize>,
    /// The requests to the rest of the shell, in order.
    pub events: Vec<FileTreeEvent>,
    /// The text to put on the clipboard.
    pub clipboard: Option<String>,
    /// The question to ask before a delete.
    pub prompt: Option<DeletePrompt>,
}

/// The outcome asks for no more than a scroll.
pub open spec fn only_scrolls(out: TreeOutcome) -> bool {
    out.events@.len() == 0 && out.clipboard is None && out.prompt is None
}

/// The outcome asks for nothing.
pub open spec fn asks_nothing(out: TreeOutcome) -> bool {
    only_scrolls(out) && out.scroll is None
}

/// The cursor moved to `selected` over up-to-date rows, and the view scrolls
/// there.
pub open spec fn moved(
    v: FileTreeView,
    after: FileTreeView,
    out: TreeOutcome,
    selected: Option<Seq<char>>,
) -> bool {
    &&& super::refreshed(v, after.rows)
    &&& after == (FileTreeView { selected, ..super::with_rows(v, after.rows) })
    &&& selection::index_view(out.scroll) == navigation::position_of_opt(after.rows, selected)
    &&& only_scrolls(out)
}

/// `prompt` is the question before the delete of the entry at the cursor.
pub open spec fn asks_to_delete(v: FileTreeView, prompt: Option<DeletePrompt>) -> bool {
    match v.selected {
        Some(path) => if v.model.has(path) {
            &&& prompt is Some
            &&& (prompt->0).path@ == path
            &&& (prompt->0).message@ == editing::delete_text(
                paths::leaf_of(path),
                v.model.entry(path).kind,
            )
        } else {
            prompt is None
        },
        None => prompt is None,
    }
}

/// `events` asks for a terminal in the directory at the cursor, if there is one.
pub open spec fn asks_for_terminal(v: FileTreeView, events: Seq<FileTreeEvent>) -> bool {
    match (v.model.root, v.selected) {
        (Some(root), Some(path)) => if v.model.has(path) {
            &&& events.len() == 1
            &&& events[0] matches FileTreeEvent::RevealInTerminalRequested { dir } && dir@
                == paths::terminal_dir(root, v.model.entry(path).kind, path)
        } else {
            events.len() == 0
        },
        _ => events.len() == 0,
    }
}

/// The state after "New File" or "New Folder".
pub open spec fn create_started(v: FileTreeView, kind: EntryKind) -> FileTreeView {
    if v.model.root is None {
        v
    } else {
        editing::creating(
            v,
            super::CreateView {
                parent: editing::create_dir(v.model, v.selected),
                kind,
                name: Seq::empty(),
                error: None,
            },
        )
    }
}

/// The state after "Rename".
pub open spec fn rename_started(v: FileTreeView) -> FileTreeView {
    match v.selected {
        Some(path) => if v.model.has(path) {
            editing::renaming(
                v,
                super::RenameView { path, name: paths::leaf_of(path), error: None },
            )
        } else {
            v
        },
        None => v,
    }
}

/// `after` and `out` are what `action` does to `v`.
pub open spec fn performed(
    v: FileTreeView,
    action: TreeAction,
    after: FileTreeView,
    out: TreeOutcome,
) -> bool {
    match action {
        TreeAction::SelectUp => moved(
            v,
            after,
            out,
            navigation::path_at(after.rows, navigation::step_up(after.rows, v.selected)),
        ),
        TreeAction::SelectDown => moved(
            v,
            after,
            out,
            navigation::path_at(after.rows, navigation::step_down(after.rows, v.selected)),
        ),
        TreeAction::SelectFirst => moved(v, after, out, navigation::path_at(after.rows, 0)),
        TreeAction::SelectLast => moved(
            v,
            after,
            out,
            navigation::path_at(after.rows, after.rows.len() - 1),
        ),
        TreeAction::CollapseOrSelectParent => {
            &&& exists|list: Seq<RowView>| #[trigger]
                super::refreshed(v, list) && selection::stepped_left(
                    super::with_rows(v, list),
                    after,
                    selection::index_view(out.scroll),
                )
            &&& only_scrolls(out)
        },
        TreeAction::ExpandOrSelectChild => {
            &&& exists|list: Seq<RowView>| #[trigger]
                super::refreshed(v, list) && selection::stepped_right(
                    super::with_rows(v, list),
                    after,
                    selection::index_view(out.scroll),
                )
            &&& only_scrolls(out)
        },
        TreeAction::OpenSelected => {
            &&& exists|list: Seq<RowView>| #[trigger]
                super::refreshed(v, list) && selection::opened(
                    super::with_rows(v, list),
                    after,
                    out.events@,
                )
            &&& out.scroll is None && out.clipboard is None && out.prompt is None
        },
        TreeAction::ExtendSelectionUp => {
            &&& super::refreshed(v, after.rows)
            &&& after == selection::extended(
                super::with_rows(v, after.rows),
                navigation::step_up(after.rows, v.selected),
            )
            &&& selection::index_view(out.scroll) == navigation::position_of_opt(
                after.rows,
                after.selected,
            )
            &&& only_scrolls(out)
        },
        TreeAction::ExtendSelectionDown => {
            &&& super::refreshed(v, after.rows)
            &&& after == selection::extended(
                super::with_rows(v, after.rows),
                navigation::step_down(after.rows, v.selected),
            )
            &&& selection::index_view(out.scroll) == navigation::position_of_opt(
                after.rows,
                after.selected,
            )
            &&& only_scrolls(out)
        },
        TreeAction::RevealInTree => {
            &&& match v.selected {
                Some(path) => if v.model.has(path) {
                    revealing::revealed(v, path, after, selection::index_view(out.scroll))
                } else {
                    after == v && out.scroll is None
                },
                None => after == v && out.scroll is None,
            }
            &&& only_scrolls(out)
        },
        TreeAction::CopyAbsolutePath => {
            &&& after == v
            &&& text::opt_view(out.clipboard) == match (v.model.root, v.selected) {
                (Some(root), Some(selected)) => Some(paths::absolute(root, selected)),
                _ => None,
            }
            &&& out.events@.len() == 0 && out.scroll is None && out.prompt is None
        },
        TreeAction::CopyRelativePath => {
            &&& after == v
            &&& text::opt_view(out.clipboard) == v.selected
            &&& out.events@.len() == 0 && out.scroll is None && out.prompt is None
        },
        TreeAction::RevealInTerminal => {
            &&& after == v
            &&& asks_for_terminal(v, out.events@)
            &&& out.scroll is None && out.clipboard is None && out.prompt is None
        },
        TreeAction::CollapseAll => {
            &&& after == (FileTreeView {
                collapsed: v.collapsed.union(collapse::all_dirs(v.model)),
                dirty: true,
                ..v
            })
            &&& asks_nothing(out)
        },
        TreeAction::StartRename => after == rename_started(v) && asks_nothing(out),
        TreeAction::NewFile => after == create_started(v, EntryKind::File) && asks_nothing(out),
        TreeAction::NewFolder => after == create_started(v, EntryKind::Dir) && asks_nothing(out),
        TreeAction::DeleteSelected => {
            &&& after == v
            &&& asks_to_delete(v, out.prompt)
            &&& out.events@.len() == 0 && out.scroll is None && out.clipboard is None
        },
    }
}

fn scrolls(scroll: Option<usize>) -> (out: TreeOutcome)
    ensures
        out.scroll == scroll,
        only_scrolls(out),
{
    TreeOutcome { scroll, events: Vec::new(), clipboard: None, prompt: None }
}

impl FileTree {
    /// Performs an action.
    pub fn perform(&mut self, action: TreeAction) -> (out: TreeOutcome)
        requires
            old(self).wf(),
        ensures
            final(self).wf(),
            performed(old(self)@, action, final(self)@, out),
    {
        match action {
            TreeAction::SelectUp => scrolls(self.select_up()),
            TreeAction::SelectDown => scrolls(self.select_down()),
            TreeAction::SelectFirst => scrolls(self.select_first()),
            TreeAction::SelectLast => scrolls(self.select_last()),
            TreeAction::CollapseOrSelectParent => scrolls(self.collapse_or_select_parent()),
            TreeAction::ExpandOrSelectChild => scrolls(self.expand_or_select_child()),
            TreeAction::OpenSelected => {
                let events = self.open_selected();
                TreeOutcome { scroll: None, events, clipboard: None, prompt: None }
            },
            TreeAction::ExtendSelectionUp => scrolls(self.extend_selection_up()),
            TreeAction::ExtendSelectionDown => scrolls(self.extend_selection_down()),
            TreeAction::RevealInTree => scrolls(self.reveal_selected()),
            TreeAction::CopyAbsolutePath => TreeOutcome {
                scroll: None,
                events: Vec::new(),
                clipboard: self.absolute_selected(),
                prompt: None,
            },
            TreeAction::CopyRelativePath => TreeOutcome {
                scroll: None,
                events: Vec::new(),
                clipboard: self.relative_selected(),
                prompt: None,
            },
            TreeAction::RevealInTerminal => {
                let mut events: Vec<FileTreeEvent> = Vec::new();
                if let Some(event) = self.reveal_in_terminal() {
                    events.push(event);
                }
                TreeOutcome { scroll: None, events, clipboard: None, prompt: None }
            },
            TreeAction::CollapseAll => {
                self.collapse_all();
                scrolls(None)
            },
            TreeAction::StartRename => {
                self.start_rename();
                scrolls(None)
            },
            TreeAction::NewFile => {
                self.start_create(EntryKind::File);
                scrolls(None)
            },
            TreeAction::NewFolder => {
                self.start_create(EntryKind::Dir);
                scrolls(None)
            },
            TreeAction::DeleteSelected => TreeOutcome {
                scroll: None,
                events: Vec::new(),
                clipboard: None,
                prompt: self.confirm_delete(),
            },
        }
    }
}

// ---------------------------------------------------------------------------
// Laws
// ---------------------------------------------------------------------------

/// Whatever is done and whatever is answered, one inline editor is open at most.
/// One that a command or a refusal opens closes the other one.
pub proof fn law_one_editor_at_a_time(
    v: FileTreeView,
    action: TreeAction,
    after: FileTreeView,
    out: TreeOutcome,
    op: FileOp,
    ok: bool,
    error: Option<FileOpError>,
)
    requires
        v.one_editor(),
        performed(v, action, after, out),
    ensures
        after.one_editor(),
        editing::answered(v, op, ok, error).one_editor(),
{
}

/// No action changes the worktree: only the daemon's messages do.
pub proof fn law_actions_leave_worktree(
    v: FileTreeView,
    action: TreeAction,
    after: FileTreeView,
    out: TreeOutcome,
)
    requires
        performed(v, action, after, out),
    ensures
        after.model == v.model,
{
}

} // verus!
