//! The data that the daemon streams and the shell sends back, as plain values.

use vstd::prelude::*;

use crate::ordered::Keyed;

verus! {

// ---------------------------------------------------------------------------
// Worktree
// ---------------------------------------------------------------------------

/// What a worktree entry is.
#[derive(Clone, Copy, Debug, PartialEq, Eq, Structural)]
pub enum EntryKind {
    File,
    Dir,
}

/// One file or directory of the streamed worktree.
#[derive(Debug, PartialEq, Eq)]
pub struct WorktreeEntry {
    /// Path relative to the worktree root, segments separated by `/`.
    pub path: String,
    pub kind: EntryKind,
    pub ignored: bool,
}

impl Clone for WorktreeEntry {
    fn clone(&self) -> (copy: Self)
        ensures
            copy == *self,
    {
        WorktreeEntry { path: self.path.clone(), kind: self.kind, ignored: self.ignored }
    }
}

impl Keyed for WorktreeEntry {
    open spec fn key(&self) -> Seq<char> {
        self.path@
    }

    fn key_text(&self) -> (text: &str) {
        self.path.as_str()
    }
}

/// One side of a path's git status.
#[derive(Clone, Copy, Debug, PartialEq, Eq, Structural)]
pub enum GitStatusCode {
    Unmodified,
    Modified,
    TypeChanged,
    Added,
    Deleted,
    Renamed,
    Copied,
    Unmerged,
    Untracked,
    Ignored,
}

/// A path's git status in the index and in the working tree.
#[derive(Clone, Copy, Debug, PartialEq, Eq, Structural)]
pub struct GitEntryStatus {
    pub index: GitStatusCode,
    pub worktree: GitStatusCode,
}

/// A path together with its git status.
#[derive(Debug, PartialEq, Eq)]
pub struct GitStatusEntry {
    pub path: String,
    pub status: GitEntryStatus,
}

impl Keyed for GitStatusEntry {
    open spec fn key(&self) -> Seq<char> {
        self.path@
    }

    fn key_text(&self) -> (text: &str) {
        self.path.as_str()
    }
}

// ---------------------------------------------------------------------------
// Language-server data
// ---------------------------------------------------------------------------

/// How severe a diagnostic is.
#[derive(Clone, Copy, Debug, PartialEq, Eq, Structural)]
pub enum DiagnosticSeverity {
    Error,
    Warning,
    Information,
    Hint,
}

/// A zero-based position in a document.
#[derive(Clone, Copy, Debug, PartialEq, Eq, Structural)]
pub struct Position {
    pub line: u32,
    pub character: u32,
}

/// A span between two positions.
#[derive(Clone, Copy, Debug, PartialEq, Eq, Structural)]
pub struct Range {
    pub start: Position,
    pub end: Position,
}

/// One problem that a language server reported.
#[derive(Debug, PartialEq, Eq)]
pub struct Diagnostic {
    pub range: Range,
    pub severity: DiagnosticSeverity,
    pub message: String,
    pub source: Option<String>,
    pub code: Option<String>,
}

impl Clone for Diagnostic {
    fn clone(&self) -> (copy: Self)
        ensures
            copy == *self,
    {
        Diagnostic {
            range: self.range,
            severity: self.severity,
            message: self.message.clone(),
            source: self.source.clone(),
            code: self.code.clone(),
        }
    }
}

/// What a document symbol is.
#[derive(Clone, Copy, Debug, PartialEq, Eq, Structural)]
pub enum SymbolKind {
    File,
    Module,
    Namespace,
    Package,
    Class,
    Method,
    Property,
    Field,
    Constructor,
    Enum,
    Interface,
    Function,
    Variable,
    Constant,
    String,
    Number,
    Boolean,
    Array,
    Object,
    Key,
    Null,
    EnumMember,
    Struct,
    Event,
    Operator,
    TypeParameter,
}

/// One symbol of a document, in the pre-order of the symbol tree.
#[derive(Debug, PartialEq, Eq)]
pub struct DocumentSymbolEntry {
    pub name: String,
    pub kind: SymbolKind,
    /// The whole construct.
    pub range: Range,
    /// The part to reveal on a jump.
    pub selection_range: Range,
    /// Nesting depth, zero at the top.
    pub depth: u32,
}

// ---------------------------------------------------------------------------
// File operations
// ---------------------------------------------------------------------------

/// A file operation, echoed back by its reply.
#[derive(Debug, PartialEq, Eq)]
pub enum FileOp {
    Rename { from: String, to: String },
    CreateFile { path: String },
    CreateDir { path: String },
    Delete { path: String },
}

/// Why a file operation was refused.
#[derive(Clone, Copy, Debug, PartialEq, Eq, Structural)]
pub enum FileOpError {
    AlreadyExists,
    InvalidPath,
    NotFound,
    PermissionDenied,
    Io,
}

} // verus!
