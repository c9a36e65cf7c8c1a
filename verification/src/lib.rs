//! Task execution contexts and their scheduling.
//!
//! A task is started from an editor: the row and column of the cursor, the
//! selected text, the file and its project root become variables that the
//! task may substitute, a language may add variables of its own, and one of
//! the project roots becomes the working directory. The inventory lists the
//! tasks of its sources and remembers which task was scheduled last, so that
//! it can be started again.
//!
//! The host hands in what it shows as a [`WorkspaceSnapshot`] and carries out
//! what comes back: a command to run, or the request to let the user pick.

pub mod context;
pub mod cwd;
pub mod decimal;
pub mod inventory;
pub mod schedule;
pub mod task;
pub mod variables;
pub mod workspace;

pub use context::{resolve_or_default, task_context, worktree_path, TaskContext};
pub use cwd::{task_cwd, AmbiguousRootError};
pub use decimal::decimal_string;
pub use inventory::{keep_named, task_names, Inventory};
pub use schedule::{
    active_item_selection_properties, current_context, find_by_name, record_prepared, rerun,
    rerun_context, schedule_task, spawn_task_or_modal, spawn_task_with_name, Dispatch, Rerun,
    Spawn,
};
pub use task::{SpawnInTerminal, Task, TaskSource, TaskSourceKind};
pub use variables::{TaskVariables, VariableName};
pub use workspace::{
    ActiveItem, BufferFile, EditorSnapshot, Point, ProjectRootCandidate, ProviderAnswer,
    SelectionSnapshot, WorkspaceSnapshot, WorktreeId,
};
