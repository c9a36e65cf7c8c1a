//! What the host shows of the workspace at one moment, as plain values: the
//! project roots, the entry that is active, and the active item with its
//! editor and selection.

use vstd::prelude::*;
use crate::variables::TaskVariables;

verus! {

/// Identifies a project root.
pub type WorktreeId = usize;

/// A project root as the project reports it.
#[derive(Debug)]
pub struct ProjectRootCandidate {
    /// Absolute path of the root.
    pub path: String,
    /// Whether the root is shown to the user.
    pub is_visible: bool,
    /// Whether the root lies on this machine.
    pub is_local: bool,
    /// Whether the root's top entry is a directory.
    pub root_is_directory: bool,
    /// What the project knows the root by.
    pub id: WorktreeId,
}

/// A position in a buffer, counted from zero.
#[derive(Debug, Clone, Copy)]
pub struct Point {
    pub row: u32,
    pub column: u32,
}

/// The file behind a buffer.
#[derive(Debug)]
pub struct BufferFile {
    /// The project root that the file belongs to.
    pub worktree_id: WorktreeId,
    /// The file's absolute path, for a file on this machine.
    pub abs_path: Option<String>,
}

/// What a language's context provider answered when it was asked at the
/// cursor.
#[derive(Debug)]
pub enum ProviderAnswer {
    Variables(TaskVariables),
    Failed,
}

/// The newest selection of an editor, resolved against its buffer.
#[derive(Debug)]
pub struct SelectionSnapshot {
    /// Where the selection starts.
    pub start: Point,
    /// The selected text; empty for a bare cursor.
    pub text: String,
    /// The file behind the buffer, if the buffer has one.
    pub file: Option<BufferFile>,
    /// Name of the language at the start of the selection.
    pub language: Option<String>,
    /// The answer of the context provider of the buffer's language; `None`
    /// where that language declares no provider.
    pub provider: Option<ProviderAnswer>,
}

/// An editor; `selection` is `None` where the start of its newest selection
/// maps to no buffer.
#[derive(Debug)]
pub struct EditorSnapshot {
    pub selection: Option<SelectionSnapshot>,
}

/// The item that is active in the workspace.
#[derive(Debug)]
pub struct ActiveItem {
    /// The project root of the item's project path, if it has one.
    pub worktree_id: Option<WorktreeId>,
    /// The item as an editor, if it is one.
    pub editor: Option<EditorSnapshot>,
}

/// The workspace at one moment.
#[derive(Debug)]
pub struct WorkspaceSnapshot {
    /// Every root of the project, in the project's order.
    pub worktrees: Vec<ProjectRootCandidate>,
    /// The root that owns the entry the user last worked with; `None` where
    /// there is no such entry or no root owns it.
    pub active_entry_root: Option<WorktreeId>,
    /// The item that is active, if any is.
    pub active_item: Option<ActiveItem>,
}

/// The text of an optional string.
pub open spec fn text_of(s: Option<String>) -> Option<Seq<char>> {
    match s {
        Some(text) => Some(text@),
        None => None,
    }
}

impl WorkspaceSnapshot {
    /// The resolved selection of the active editor, if there is one.
    pub open spec fn selection(&self) -> Option<SelectionSnapshot> {
        match self.active_item {
            Some(item) => match item.editor {
                Some(editor) => editor.selection,
                None => None,
            },
            None => None,
        }
    }
}

} // verus!
