//! Records that the editor, document and history sessions hand to the user
//! interface: their errors and the results of their calls.

use vstd::prelude::*;
use crate::editor_state::SessionState;

verus! {

/// Why an editor call failed.
#[derive(Clone, Debug)]
pub enum EditorError {
    /// The call is illegal in the current state.
    InvalidState { expected: String, actual: String },
    /// The target entity does not exist.
    NotFound { entity: String, id: String },
    /// The method is not implemented yet.
    NotImplemented { method: String },
    /// Unrecoverable internal error.
    Internal { message: String },
    /// Saving failed.
    IoError { message: String },
}

/// Why a document call failed.
#[derive(Clone, Debug)]
pub enum DocumentError {
    /// The payload had an illegal value.
    InvalidInput { field: String, reason: String },
    /// The method is reserved but not implemented.
    NotImplemented { method: String },
    /// Reading or writing document bytes failed.
    IoError { message: String },
    /// Unrecoverable internal error.
    Internal { message: String },
}

/// Why a history call failed.
#[derive(Clone, Debug)]
pub enum HistoryError {
    /// Undo with an empty undo stack.
    NothingToUndo,
    /// Redo with an empty redo stack.
    NothingToRedo,
    /// Internal state corruption.
    Internal { message: String },
}

/// The document history at a point in time.
#[derive(Clone, Copy, Debug, Default, PartialEq, Eq, Structural)]
pub struct HistoryState {
    /// Whether an undo would have an effect.
    pub can_undo: bool,
    /// Whether a redo would have an effect.
    pub can_redo: bool,
    /// Entries on the undo stack.
    pub undo_depth: u32,
    /// Entries on the redo stack.
    pub redo_depth: u32,
    /// Revision counter, bumped by every applied patch, undo and redo.
    pub revision: u64,
}

/// Result of one undo or redo.
#[derive(Clone, Copy, Debug, Default, PartialEq, Eq, Structural)]
pub struct HistoryStepResult {
    /// Whether a patch moved.
    pub changed: bool,
    /// The history after the step.
    pub state: HistoryState,
}

#[derive(Clone, Debug)]
pub struct OpenBlockResult {
    pub block_id: String,
    pub caret_index: u32,
    pub draft_text: String,
}

#[derive(Clone, Copy, Debug, PartialEq, Eq, Structural)]
pub struct MoveCaretResult {
    pub caret_index: u32,
}

#[derive(Clone, Copy, Debug, PartialEq, Eq, Structural)]
pub struct CommitResult {
    pub changed: bool,
}

#[derive(Clone, Debug)]
pub struct SnapshotResult {
    pub state: SessionState,
    pub block_id: Option<String>,
    pub draft_text: Option<String>,
    pub caret_index: u32,
    pub has_unsaved_changes: bool,
}

#[derive(Clone, Copy, Debug, PartialEq, Eq, Structural)]
pub struct SyncInputResult {
    pub changed: bool,
    pub caret_index: u32,
}

#[derive(Clone, Debug)]
pub struct ApplyCommandResult {
    pub changed: bool,
    pub caret_index: u32,
    pub draft_text: Option<String>,
}

#[derive(Clone, Copy, Debug, PartialEq, Eq, Structural)]
pub struct SetEditModeResult {
    pub enabled: bool,
    pub changed: bool,
}

/// A selected character range of the draft and its text.
#[derive(Clone, Debug)]
pub struct TextSelection {
    pub start: u32,
    pub end: u32,
    pub text: String,
}

/// Who paints a paragraph overlay: the open editor or the page canvas.
#[derive(Clone, Copy, Debug, PartialEq, Eq, Structural)]
pub enum ParagraphRenderOverlayOwner {
    ActiveEditorShell,
    PersistedPageCanvas,
}

} // verus!
