//! What the explorer shows: the plain values that its header, its rows and its
//! placeholders are painted from.

use vstd::prelude::*;

use super::actions::TreeAction;
use super::{FileTree, FileTreeView};
use crate::emphasis;
use crate::navigation;
use crate::paths;
use crate::protocol::{DiagnosticSeverity, EntryKind};
use crate::rollup::GitRollupStatus;
use crate::rows::{Row, RowView};
use crate::text;
use crate::worktree::WorktreeView;

verus! {

// ---------------------------------------------------------------------------
// Tones
// ---------------------------------------------------------------------------

/// A colour role of the theme.
#[derive(Clone, Copy, Debug, PartialEq, Eq, Structural)]
pub enum Tone {
    Danger,
    Warning,
    Info,
    Success,
    Muted,
    Accent,
}

/// The colour role of a severity.
pub open spec fn severity_tone(severity: DiagnosticSeverity) -> Tone {
    match severity {
        DiagnosticSeverity::Error => Tone::Danger,
        DiagnosticSeverity::Warning => Tone::Warning,
        DiagnosticSeverity::Information => Tone::Info,
        DiagnosticSeverity::Hint => Tone::Muted,
    }
}

/// The colour role of a severity.
pub fn tone_of_severity(severity: DiagnosticSeverity) -> (tone: Tone)
    ensures
        tone == severity_tone(severity),
{
    match severity {
        DiagnosticSeverity::Error => Tone::Danger,
        DiagnosticSeverity::Warning => Tone::Warning,
        DiagnosticSeverity::Information => Tone::Info,
        DiagnosticSeverity::Hint => Tone::Muted,
    }
}

/// The colour role of a git lane.
pub open spec fn git_tone(status: GitRollupStatus) -> Tone {
    match status {
        GitRollupStatus::Conflicted => Tone::Danger,
        GitRollupStatus::Changed => Tone::Warning,
        GitRollupStatus::Untracked => Tone::Success,
    }
}

/// The colour role of a git lane.
pub fn tone_of_git(status: GitRollupStatus) -> (tone: Tone)
    ensures
        tone == git_tone(status),
{
    match status {
        GitRollupStatus::Conflicted => Tone::Danger,
        GitRollupStatus::Changed => Tone::Warning,
        GitRollupStatus::Untracked => Tone::Success,
    }
}

// ---------------------------------------------------------------------------
// Indents
// ---------------------------------------------------------------------------

/// The indent of a row at the top level, in pixels.
pub const INDENT_BASE: u64 = 8;

/// The indent that each nesting level adds, in pixels.
pub const INDENT_PER_LEVEL: u64 = 16;

/// The height of a row, in pixels.
pub const ROW_HEIGHT: u64 = 28;

/// The space above and below the content of a row, in pixels.
pub const ROW_BLOCK_PADDING_Y: u64 = 4;

/// The radius of a row's corners, in pixels.
pub const ROW_RADIUS: u64 = 5;

/// The space between the slots of a row, in pixels.
pub const ROW_SLOT_GAP: u64 = 6;

/// The width of an indent guide, in pixels.
pub const INDENT_GUIDE_WIDTH: u64 = 1;

/// The width of the icon slot, in pixels.
pub const ICON_SLOT_WIDTH: u64 = 14;

/// The diameter of the diagnostic dot, in pixels.
pub const DIAGNOSTIC_DOT_SIZE: u64 = 7;

/// The width of the git letter's slot, in pixels.
pub const GIT_LETTER_SLOT_WIDTH: u64 = 12;

/// The height of the header, in pixels.
pub const HEADER_HEIGHT: u64 = 38;

/// The space left of the header's title, in pixels.
pub const HEADER_PADDING_LEFT: u64 = 14;

/// The space right of the header's actions, in pixels.
pub const HEADER_PADDING_RIGHT: u64 = 12;

/// The space between the header's actions, in pixels.
pub const HEADER_ACTION_GAP: u64 = 12;

/// The space left and right of the root row's label, in pixels.
pub const ROOT_ROW_PADDING_X: u64 = 12;

/// The indent of a row at `depth`, in pixels.
pub open spec fn indent_of(depth: int) -> int {
    INDENT_BASE + depth * INDENT_PER_LEVEL
}

// ---------------------------------------------------------------------------
// Rows
// ---------------------------------------------------------------------------

/// The icon in front of a row's name.
#[derive(Clone, Copy, Debug, PartialEq, Eq, Structural)]
pub enum RowIcon {
    /// An expanded directory.
    FolderOpen,
    /// A collapsed directory.
    FolderClosed,
    /// A file, by its name.
    File,
}

/// What the name slot of a row holds.
#[derive(Debug, PartialEq, Eq)]
pub enum RowBody {
    /// The rename editor, with the reason of a refusal.
    Renaming { error: Option<String> },
    /// The create editor, with the reason of a refusal.
    Creating { error: Option<String> },
    /// The name, split into spans that are matched by the filter or not.
    Named { name: String, spans: Vec<(String, bool)> },
}

/// The background of a row.
#[derive(Clone, Copy, Debug, PartialEq, Eq, Structural)]
pub enum RowFill {
    Plain,
    /// In the multi-selection, away from the cursor.
    Selected,
    /// At the cursor.
    Cursor,
}

/// A painted row.
#[derive(Debug, PartialEq, Eq)]
pub struct RowPresentation {
    /// The left edge of the icon, in pixels.
    pub indent: u64,
    /// The left edges of the guide lines, one for each level above.
    pub guides: Vec<u64>,
    pub icon: RowIcon,
    pub body: RowBody,
    /// The severity dot.
    pub dot: Option<Tone>,
    /// The tint of the name.
    pub name_tone: Option<Tone>,
    /// The git letter.
    pub letter: Option<GitRollupStatus>,
    pub fill: RowFill,
    /// An ignored entry is dimmed.
    pub dimmed: bool,
}

/// A row shows its roll-up unless it is an expanded directory, whose rows show
/// their own.
pub open spec fn shows_decoration(v: FileTreeView, row: RowView) -> bool {
    row.kind != EntryKind::Dir || v.collapsed.contains(row.path)
}

/// The icon of a row.
pub open spec fn icon_of(v: FileTreeView, row: RowView) -> RowIcon {
    match row.kind {
        EntryKind::File => RowIcon::File,
        EntryKind::Dir => if v.collapsed.contains(row.path) {
            RowIcon::FolderClosed
        } else {
            RowIcon::FolderOpen
        },
    }
}

/// The background of a row. The cursor wins over the multi-selection.
pub open spec fn fill_of(v: FileTreeView, row: RowView) -> RowFill {
    if v.selected == Some(row.path) {
        RowFill::Cursor
    } else if v.selection.contains(row.path) {
        RowFill::Selected
    } else {
        RowFill::Plain
    }
}

/// `body` is what the name slot of `row` holds.
pub open spec fn body_shows(v: FileTreeView, row: RowView, body: RowBody) -> bool {
    match v.rename {
        Some(editor) if editor.path == row.path => body matches RowBody::Renaming { error }
            && text::opt_view(error) == editor.error,
        _ => match v.create {
            Some(editor) if row.is_pending_create => body matches RowBody::Creating { error }
                && text::opt_view(error) == editor.error,
            _ => body matches RowBody::Named { name, spans } && name@ == paths::leaf_of(row.path)
                && emphasis::spans_view(spans@) == emphasis::spans(
                paths::leaf_of(row.path),
                row.matched_indices,
            ),
        },
    }
}

/// `painted` is how the tree paints `row`.
pub open spec fn paints(v: FileTreeView, row: RowView, painted: RowPresentation) -> bool {
    let editing = !(painted.body is Named);
    &&& painted.indent == indent_of(row.depth as int)
    &&& painted.guides@.len() == row.depth
    &&& forall|i: int|
        0 <= i < painted.guides@.len() ==> #[trigger] painted.guides@[i] == indent_of(i)
    &&& painted.icon == icon_of(v, row)
    &&& body_shows(v, row, painted.body)
    &&& painted.dot == match row.severity {
        Some(severity) if shows_decoration(v, row) && !editing => Some(severity_tone(severity)),
        _ => None,
    }
    &&& painted.name_tone == match row.git_status {
        Some(status) if !editing => Some(git_tone(status)),
        _ => None,
    }
    &&& painted.letter == match row.git_status {
        Some(status) if shows_decoration(v, row) && !editing => Some(status),
        _ => None,
    }
    &&& painted.fill == if editing {
        RowFill::Plain
    } else {
        fill_of(v, row)
    }
    &&& painted.dimmed == (row.ignored && !editing)
}

// ---------------------------------------------------------------------------
// Header, placeholders and menu
// ---------------------------------------------------------------------------

/// Why there is no tree to show.
#[derive(Clone, Copy, Debug, PartialEq, Eq, Structural)]
pub enum EmptyState {
    /// No snapshot has arrived yet.
    Loading,
    /// The root has no entries.
    EmptyRoot,
}

/// What the body of the panel shows.
#[derive(Clone, Copy, Debug, PartialEq, Eq, Structural)]
pub enum TreeContent {
    Loading,
    EmptyRoot,
    /// The filter matched nothing.
    NoMatches,
    Rows,
}

/// Why there is no tree to show, by the state of the worktree.
pub open spec fn emptiness(model: WorktreeView) -> Option<EmptyState> {
    if model.root is None {
        Some(EmptyState::Loading)
    } else if model.entries.len() == 0 {
        Some(EmptyState::EmptyRoot)
    } else {
        None
    }
}

/// What the body of the panel shows, given the rows.
pub open spec fn content_of(v: FileTreeView) -> TreeContent {
    match emptiness(v.model) {
        Some(EmptyState::Loading) => TreeContent::Loading,
        Some(EmptyState::EmptyRoot) => TreeContent::EmptyRoot,
        None => if v.filter_active && v.filter_query.len() > 0 && v.rows.len() == 0 {
            TreeContent::NoMatches
        } else {
            TreeContent::Rows
        },
    }
}

/// The text of a placeholder.
pub open spec fn placeholder_text(content: TreeContent) -> Option<Seq<char>> {
    match content {
        TreeContent::Loading => Some("Loading\u{2026}"@),
        TreeContent::EmptyRoot => Some("Empty folder"@),
        TreeContent::NoMatches => Some("No matches"@),
        TreeContent::Rows => None,
    }
}

impl TreeContent {
    /// The text of a placeholder; none where rows show.
    pub fn placeholder(self) -> (message: Option<&'static str>)
        ensures
            navigation::opt_str(message) == placeholder_text(self),
    {
        match self {
            TreeContent::Loading => Some("Loading\u{2026}"),
            TreeContent::EmptyRoot => Some("Empty folder"),
            TreeContent::NoMatches => Some("No matches"),
            TreeContent::Rows => None,
        }
    }
}

/// The header's buttons.
#[derive(Clone, Copy, Debug, PartialEq, Eq)]
pub struct HeaderPresentation {
    /// The collapse toggle offers to expand.
    pub offers_expand: bool,
    pub collapse_tooltip: &'static str,
    /// The filter toggle is pressed.
    pub filter_pressed: bool,
    pub filter_tooltip: &'static str,
}

/// One entry of a row's context menu.
#[derive(Clone, Copy, Debug, PartialEq, Eq)]
pub enum MenuEntry {
    Item { label: &'static str, action: TreeAction },
    Separator,
}

/// An entry of the context menu shows `label` and performs `action`.
pub open spec fn menu_item(entry: MenuEntry, label: Seq<char>, action: TreeAction) -> bool {
    entry matches MenuEntry::Item { label: l, action: a } && l@ == label && a == action
}

/// The context menu of a row: what reads, a separator, and what writes.
pub fn row_menu() -> (menu: Vec<MenuEntry>)
    ensures
        menu@.len() == 11,
        menu_item(menu@[0], "Open"@, TreeAction::OpenSelected),
        menu_item(menu@[1], "Reveal in tree"@, TreeAction::RevealInTree),
        menu_item(menu@[2], "Copy path"@, TreeAction::CopyAbsolutePath),
        menu_item(menu@[3], "Copy relative path"@, TreeAction::CopyRelativePath),
        menu_item(menu@[4], "Reveal in terminal"@, TreeAction::RevealInTerminal),
        menu_item(menu@[5], "Collapse all"@, TreeAction::CollapseAll),
        menu@[6] == MenuEntry::Separator,
        menu_item(menu@[7], "New File..."@, TreeAction::NewFile),
        menu_item(menu@[8], "New Folder..."@, TreeAction::NewFolder),
        menu_item(menu@[9], "Rename"@, TreeAction::StartRename),
        menu_item(menu@[10], "Delete"@, TreeAction::DeleteSelected),
{
    let mut menu: Vec<MenuEntry> = Vec::new();
    menu.push(MenuEntry::Item { label: "Open", action: TreeAction::OpenSelected });
    menu.push(MenuEntry::Item { label: "Reveal in tree", action: TreeAction::RevealInTree });
    menu.push(MenuEntry::Item { label: "Copy path", action: TreeAction::CopyAbsolutePath });
    menu.push(
        MenuEntry::Item { label: "Copy relative path", action: TreeAction::CopyRelativePath },
    );
    menu.push(
        MenuEntry::Item { label: "Reveal in terminal", action: TreeAction::RevealInTerminal },
    );
    menu.push(MenuEntry::Item { label: "Collapse all", action: TreeAction::CollapseAll });
    menu.push(MenuEntry::Separator);
    menu.push(MenuEntry::Item { label: "New File...", action: TreeAction::NewFile });
    menu.push(MenuEntry::Item { label: "New Folder...", action: TreeAction::NewFolder });
    menu.push(MenuEntry::Item { label: "Rename", action: TreeAction::StartRename });
    menu.push(MenuEntry::Item { label: "Delete", action: TreeAction::DeleteSelected });
    menu
}

impl FileTree {
    /// The name that a row shows: the final segment of its path.
    pub fn display_name(path: &str) -> (name: &str)
        ensures
            name@ == paths::leaf_of(path@),
    {
        paths::leaf_name(path)
    }

    /// The indent of a row at `depth`, in pixels.
    pub fn row_indent(depth: usize) -> (indent: u64)
        requires
            indent_of(depth as int) <= u64::MAX,
        ensures
            indent == indent_of(depth as int),
    {
        let level: u64 = depth as u64;
        INDENT_BASE + level * INDENT_PER_LEVEL
    }

    /// The left edges of the guide lines of a row at `depth`: one for each level
    /// it is nested in, at the indent of that level.
    pub fn indent_guide_positions(depth: usize) -> (positions: Vec<u64>)
        requires
            indent_of(depth as int) <= u64::MAX,
        ensures
            positions@.len() == depth,
            forall|i: int| 0 <= i < depth ==> #[trigger] positions@[i] == indent_of(i),
    {
        let mut positions: Vec<u64> = Vec::new();
        let mut level: usize = 0;
        while level < depth
            invariant
                level <= depth,
                indent_of(depth as int) <= u64::MAX,
                positions@.len() == level,
                forall|i: int| 0 <= i < level ==> #[trigger] positions@[i] == indent_of(i),
            decreases depth - level,
        {
            positions.push(Self::row_indent(level));
            level = level + 1;
        }
        positions
    }

    /// Whether a row shows its roll-up.
    pub fn row_shows_decoration(&self, row: &Row) -> (shown: bool)
        requires
            self.wf(),
        ensures
            shown == shows_decoration(self@, row@),
    {
        row.kind != EntryKind::Dir || self.collapsed.contains(row.path.as_str())
    }

    fn row_fill(&self, row: &Row) -> (fill: RowFill)
        requires
            self.wf(),
        ensures
            fill == fill_of(self@, row@),
    {
        let at_cursor: bool = match &self.selected {
            Some(selected) => text::same_text(selected.as_str(), row.path.as_str()),
            None => false,
        };
        if at_cursor {
            RowFill::Cursor
        } else if self.selection.contains(row.path.as_str()) {
            RowFill::Selected
        } else {
            RowFill::Plain
        }
    }

    fn row_body(&self, row: &Row) -> (body: RowBody)
        ensures
            body_shows(self@, row@, body),
    {
        if let Some(editor) = &self.rename {
            if text::same_text(editor.path.as_str(), row.path.as_str()) {
                return RowBody::Renaming { error: editor.error.clone() };
            }
        }
        if row.is_pending_create {
            if let Some(editor) = &self.create {
                return RowBody::Creating { error: editor.error.clone() };
            }
        }
        let name = paths::leaf_name(row.path.as_str());
        let spans = emphasis::emphasis_segments(name, row.matched_indices.as_slice());
        RowBody::Named { name: name.to_owned(), spans }
    }

    /// How the cached row at `index` is painted.
    pub fn present_row(&self, index: usize) -> (painted: RowPresentation)
        requires
            self.wf(),
            !self@.dirty,
            index < self@.rows.len(),
        ensures
            paints(self@, self@.rows[index as int], painted),
    {
        proof {
            super::lemma_row_depth(self@, self@.rows, index as int);
            assert(self@.rows[index as int] == self.row_cache@[index as int]@);
        }
        let row = &self.row_cache[index];
        let collapsed = self.collapsed.contains(row.path.as_str());
        let icon = match row.kind {
            EntryKind::File => RowIcon::File,
            EntryKind::Dir => if collapsed {
                RowIcon::FolderClosed
            } else {
                RowIcon::FolderOpen
            },
        };
        let body = self.row_body(row);
        let named: bool = match &body {
            RowBody::Named { name: _, spans: _ } => true,
            _ => false,
        };
        let decorated: bool = self.row_shows_decoration(row) && named;
        let dot: Option<Tone> = match row.severity {
            Some(severity) => if decorated {
                Some(tone_of_severity(severity))
            } else {
                None
            },
            None => None,
        };
        let name_tone: Option<Tone> = match row.git_status {
            Some(status) => if named {
                Some(tone_of_git(status))
            } else {
                None
            },
            None => None,
        };
        let letter: Option<GitRollupStatus> = if decorated {
            row.git_status
        } else {
            None
        };
        let fill = if named {
            self.row_fill(row)
        } else {
            RowFill::Plain
        };
        RowPresentation {
            indent: Self::row_indent(row.depth),
            guides: Self::indent_guide_positions(row.depth),
            icon,
            body,
            dot,
            name_tone,
            letter,
            fill,
            dimmed: row.ignored && named,
        }
    }

    /// Why there is no tree to show.
    pub fn empty_state(&self) -> (state: Option<EmptyState>)
        ensures
            state == emptiness(self@.model),
    {
        if self.model.root().is_none() {
            Some(EmptyState::Loading)
        } else if self.model.is_empty() {
            Some(EmptyState::EmptyRoot)
        } else {
            None
        }
    }

    /// Brings the rows up to date and tells what the body of the panel shows.
    pub fn content(&mut self) -> (content: TreeContent)
        requires
            old(self).wf(),
        ensures
            final(self).wf(),
            super::refreshed(old(self)@, final(self)@.rows),
            final(self)@ == super::with_rows(old(self)@, final(self)@.rows),
            content == content_of(final(self)@),
    {
        self.refresh_row_cache();
        match self.empty_state() {
            Some(EmptyState::Loading) => TreeContent::Loading,
            Some(EmptyState::EmptyRoot) => TreeContent::EmptyRoot,
            None => if self.filter_active && !self.filter_query.as_str().is_empty()
                && self.row_cache.len() == 0 {
                TreeContent::NoMatches
            } else {
                TreeContent::Rows
            },
        }
    }

    /// The header's buttons.
    pub fn header(&self) -> (header: HeaderPresentation)
        requires
            self.wf(),
        ensures
            header.offers_expand == super::collapse::fully_collapsed(self@),
            header.collapse_tooltip@ == if header.offers_expand {
                "Expand all"@
            } else {
                "Collapse all"@
            },
            header.filter_pressed == self@.filter_active,
            header.filter_tooltip@ == if self@.filter_active {
                "Close filter"@
            } else {
                "Filter files"@
            },
    {
        let offers_expand = self.all_dirs_collapsed();
        HeaderPresentation {
            offers_expand,
            collapse_tooltip: if offers_expand {
                "Expand all"
            } else {
                "Collapse all"
            },
            filter_pressed: self.filter_active,
            filter_tooltip: if self.filter_active {
                "Close filter"
            } else {
                "Filter files"
            },
        }
    }

    /// The final segment of the workspace root, or the root itself where it has
    /// none.
    pub fn root_leaf(root: &str) -> (leaf: &str)
        ensures
            leaf@ == paths::root_leaf_of(root@),
    {
        paths::root_leaf(root)
    }

    /// The label of the workspace-root row: the uppercased leaf of the root;
    /// none before a snapshot has arrived.
    pub fn root_label(&self) -> (label: Option<String>)
        ensures
            text::opt_view(label) == match self@.model.root {
                Some(root) => Some(text::uppercase(paths::root_leaf_of(root))),
                None => None,
            },
    {
        match self.model.root() {
            Some(root) => Some(text::to_upper(paths::root_leaf(root))),
            None => None,
        }
    }

    /// Whether a drop of `dragged` onto a row would be taken.
    pub fn can_drop(
        dragged: &super::editing::DraggedRow,
        target_kind: EntryKind,
        target_path: &str,
    ) -> (taken: bool)
        ensures
            taken == paths::drop_move(
                dragged.path@,
                dragged.kind,
                target_kind,
                target_path@,
            ) is Some,
    {
        paths::resolve_drop(
            dragged.path.as_str(),
            dragged.kind,
            target_kind,
            target_path,
        ).is_some()
    }
}

} // verus!
