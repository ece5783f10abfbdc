//! What crosses the seams of a session: the messages between client and daemon,
//! and the values that the terminal's render layer takes and gives.

use vstd::prelude::*;

use crate::ordered::{Keyed, KeyedVec};

verus! {

// ---------------------------------------------------------------------------
// Render layer
// ---------------------------------------------------------------------------

/// A grid of terminal cells.
#[derive(Clone, Copy, Debug, PartialEq, Eq, Structural)]
pub struct TermSize {
    pub cols: usize,
    pub rows: usize,
}

/// Typed input for a pane.
#[derive(Debug, PartialEq, Eq)]
pub struct PaneInput {
    /// The pane in tmux's form, `%N`.
    pub pane_id: String,
    pub bytes: Vec<u8>,
}

/// Bytes that a pane wrote.
#[derive(Debug, PartialEq, Eq)]
pub struct PaneOutput {
    /// The pane in tmux's form, `%N`.
    pub pane_id: String,
    pub bytes: Vec<u8>,
}

/// A request for a pane's scrollback.
#[derive(Debug, PartialEq, Eq)]
pub struct CaptureRequest {
    /// The pane in tmux's form, `%N`.
    pub pane_id: String,
    pub start_row: String,
    pub end_row: String,
    pub join_wraps: bool,
}

/// A pane's captured scrollback.
#[derive(Debug, PartialEq, Eq)]
pub struct CaptureResult {
    /// The pane in tmux's form, `%N`.
    pub pane_id: String,
    pub bytes: Vec<u8>,
}

/// A switch to another tmux session, with the grid to show it in.
#[derive(Debug, PartialEq, Eq)]
pub struct SessionSwitchRequest {
    pub session: String,
    pub size: TermSize,
}

/// The raw text of tmux's key tables and options.
#[derive(Debug, PartialEq, Eq)]
pub struct KeyTableQueryResult {
    pub list_keys: String,
    pub options: String,
}

/// One tmux session of the host.
#[derive(Debug, PartialEq, Eq)]
pub struct SessionListItem {
    pub id: String,
    pub name: String,
    pub windows: u32,
    pub attached: bool,
}

/// A value that tmux reported for a format subscription.
#[derive(Debug, PartialEq, Eq)]
pub struct SubscriptionUpdate {
    pub name: String,
    pub session: String,
    pub window: String,
    pub pane: String,
    pub value: String,
}

/// How the connection stands, as the status line shows it.
#[derive(Clone, Copy, Debug, PartialEq, Eq, Structural)]
pub enum ConnectionStatus {
    Connected,
    /// The daemon's stream died while SSH is up.
    Reconnecting,
    /// SSH is down; `retry` counts the attempts of this outage.
    SshReconnecting { retry: u32 },
    Disconnected,
}

/// One pane as the render layer shows it.
#[derive(Debug, PartialEq, Eq)]
pub struct TmuxPaneState {
    /// In tmux's form, `%N`.
    pub id: String,
    /// In tmux's form, `@N`.
    pub window_id: String,
    pub session_id: String,
    pub is_active: bool,
    pub left: u16,
    pub top: u16,
    pub width: u16,
    pub height: u16,
    pub cursor_x: u16,
    pub cursor_y: u16,
    pub current_path: String,
    pub current_command: String,
}

/// One window as the render layer shows it.
#[derive(Debug, PartialEq, Eq)]
pub struct TmuxWindowState {
    /// In tmux's form, `@N`.
    pub id: String,
    pub index: i32,
    pub name: String,
    pub layout: String,
    pub is_active: bool,
    pub automatic_rename: bool,
    pub active_pane_id: Option<String>,
    pub panes: Vec<TmuxPaneState>,
}

/// A whole tmux session as the render layer shows it.
#[derive(Debug, PartialEq, Eq)]
pub struct TmuxSnapshot {
    pub session_name: String,
    pub session_id: Option<String>,
    pub windows: Vec<TmuxWindowState>,
}

/// Whether a pane runs a shell.
#[derive(Debug, PartialEq, Eq)]
pub struct PaneShell {
    /// In tmux's form, `%N`.
    pub pane_id: String,
    pub is_shell: bool,
}

impl Keyed for PaneShell {
    open spec fn key(&self) -> Seq<char> {
        self.pane_id@
    }

    fn key_text(&self) -> (text: &str) {
        self.pane_id.as_str()
    }
}

/// A snapshot with what tmux itself does not tell of the panes.
pub struct SessionSnapshot {
    pub snapshot: TmuxSnapshot,
    /// By pane, whether it runs a shell.
    pub pane_is_shell: KeyedVec<PaneShell>,
}

// ---------------------------------------------------------------------------
// Protocol
// ---------------------------------------------------------------------------

/// One pane of the daemon's layout.
#[derive(Debug, PartialEq, Eq)]
pub struct PaneLayout {
    pub pane_id: u32,
    pub active: bool,
    pub left: u16,
    pub top: u16,
    pub width: u16,
    pub height: u16,
    pub current_path: String,
    pub current_command: String,
    pub is_shell: bool,
}

/// One window of the daemon's layout.
#[derive(Debug, PartialEq, Eq)]
pub struct WindowLayout {
    pub window_id: u32,
    /// tmux's own number of the window, which may leave gaps.
    pub window_index: u32,
    pub name: String,
    pub active: bool,
    pub panes: Vec<PaneLayout>,
}

/// One tmux session in the daemon's list.
#[derive(Debug, PartialEq, Eq)]
pub struct SessionEntry {
    pub id: String,
    pub name: String,
    pub windows: u32,
    pub attached: bool,
}

/// What the client asks of the daemon, apart from the requests of the editor and
/// the panels that are passed on as they are.
#[derive(Debug, PartialEq, Eq)]
pub enum ClientMessage {
    Attach { session: String },
    Input { pane_id: u32, data: String },
    ResizePane { pane_id: u32, cols: u16, rows: u16 },
    TmuxCommand { cmd: String },
    QueryKeyTable,
    QuerySessionList,
    CapturePane { pane_id: u32, start: String, end: String, join: bool },
    OpenFile { path: String },
    RequestDiff { path: String },
}

/// What the daemon tells the client. `P` stands for what a message carries that
/// is passed on as it is.
#[derive(Debug, PartialEq, Eq)]
pub enum DaemonMessage<P> {
    PaneOutput { pane_id: u32, bytes: Vec<u8> },
    PaneCapture { pane_id: u32, bytes: Vec<u8> },
    KeyTableReply { list_keys: String, options: String },
    SessionListReply { sessions: Vec<SessionEntry> },
    LayoutSnapshot { session: String, windows: Vec<WindowLayout> },
    LayoutUpdate { session: String, windows: Vec<WindowLayout> },
    TerminalExit { session: String, reason: Option<String> },
    WorktreeSnapshot(P),
    UpdateWorktree(P),
    UpdateGitStatus(P),
    RepoState(P),
    Diagnostics(P),
    FileContent(P),
    SaveResult(P),
    SaveConflict(P),
    OpenError(P),
    SaveError(P),
    DefinitionResponse(P),
    HoverResponse(P),
    ReferencesResponse(P),
    DocumentSymbolResponse(P),
    LspStatus(P),
    FileDiff(P),
    FileOpResult(P),
    /// A message that nothing in the client waits for.
    Other(P),
}

} // verus!
