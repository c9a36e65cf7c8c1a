//! Tasks and where they come from, as the inventory sees them.

use std::sync::Arc;
use vstd::prelude::*;
use vstd::std_specs::cmp::PartialEqSpecImpl;
use crate::context::{TaskContext, TaskContextView};
use crate::workspace::WorktreeId;

verus! {

/// What is handed to whoever runs the task: the resolved command, its
/// arguments, the directory to run it in and the environment to give it.
#[derive(Debug, PartialEq, Eq)]
pub struct SpawnInTerminal {
    pub command: String,
    pub args: Vec<String>,
    pub cwd: Option<String>,
    pub env: Vec<(String, String)>,
}

/// Something that can be run: it has a name to find it by, and makes its
/// command out of a context.
pub trait Task {
    /// The name of the task; it does not change while the task lives.
    fn name(&self) -> String;

    /// What to run for `cx`, or `None` where the task cannot be started
    /// from that context.
    fn prepare_exec(&self, cx: &TaskContext) -> Option<SpawnInTerminal>;
}

/// A place tasks come from.
pub trait TaskSource {
    type Task: Task;

    /// The tasks that the source offers for the language and the project
    /// root, in the source's own order.
    fn list_tasks(
        &self,
        language: Option<&String>,
        worktree: Option<WorktreeId>,
    ) -> Vec<Arc<Self::Task>>;
}

/// `name` is what `task` may call itself.
pub open spec fn may_name<T: Task>(task: &T, name: Seq<char>) -> bool {
    exists|text: String| text@ == name && #[trigger] call_ensures(T::name, (task,), text)
}

/// `out` is what `task` may answer when it is asked to prepare for a context
/// that reads `cx`.
pub open spec fn may_prepare<T: Task>(
    task: &T,
    cx: TaskContextView,
    out: Option<SpawnInTerminal>,
) -> bool {
    exists|context: TaskContext|
        context@ == cx && #[trigger] call_ensures(T::prepare_exec, (task, &context), out)
}

/// `out` is what `source` may list for the language and the project root.
pub open spec fn may_list<S: TaskSource>(
    source: &S,
    language: Option<Seq<char>>,
    worktree: Option<WorktreeId>,
    out: Seq<Arc<S::Task>>,
) -> bool {
    exists|asked: Option<&String>, listed: Vec<Arc<S::Task>>|
        language_view(asked) == language && listed@ == out && #[trigger] call_ensures(
            S::list_tasks,
            (source, asked, worktree),
            listed,
        )
}

/// The text of an optional language name.
pub open spec fn language_view(language: Option<&String>) -> Option<Seq<char>> {
    match language {
        Some(name) => Some(name@),
        None => None,
    }
}

/// Where the tasks of a source come from.
#[derive(Debug)]
pub enum TaskSourceKind {
    /// Commands that the user typed in.
    UserInput,
    /// Tasks defined in the configuration file at the path.
    Configuration(String),
    /// Tasks that the named language brings along.
    Language(String),
}

/// What a [`TaskSourceKind`] stands for in contracts.
pub enum TaskSourceKindView {
    UserInput,
    Configuration(Seq<char>),
    Language(Seq<char>),
}

impl View for TaskSourceKind {
    type V = TaskSourceKindView;

    open spec fn view(&self) -> TaskSourceKindView {
        match self {
            TaskSourceKind::UserInput => TaskSourceKindView::UserInput,
            TaskSourceKind::Configuration(path) => TaskSourceKindView::Configuration(path@),
            TaskSourceKind::Language(name) => TaskSourceKindView::Language(name@),
        }
    }
}

impl Clone for TaskSourceKind {
    fn clone(&self) -> (copy: Self)
        ensures
            copy@ == self@,
    {
        match self {
            TaskSourceKind::UserInput => TaskSourceKind::UserInput,
            TaskSourceKind::Configuration(path) => TaskSourceKind::Configuration(path.clone()),
            TaskSourceKind::Language(name) => TaskSourceKind::Language(name.clone()),
        }
    }
}

impl PartialEq for TaskSourceKind {
    fn eq(&self, other: &Self) -> (same: bool) {
        match (self, other) {
            (TaskSourceKind::UserInput, TaskSourceKind::UserInput) => true,
            (TaskSourceKind::Configuration(a), TaskSourceKind::Configuration(b)) => *a == *b,
            (TaskSourceKind::Language(a), TaskSourceKind::Language(b)) => *a == *b,
            _ => false,
        }
    }
}

impl PartialEqSpecImpl for TaskSourceKind {
    open spec fn obeys_eq_spec() -> bool {
        true
    }

    open spec fn eq_spec(&self, other: &Self) -> bool {
        self@ == other@
    }
}

impl Eq for TaskSourceKind {

}

/// `Arc::clone`: one more handle to the same value, which therefore equals
/// the value behind the first.
#[verifier::external_body]
pub(crate) fn share<T>(handle: &Arc<T>) -> (copy: Arc<T>)
    ensures
        copy == *handle,
{
    Arc::clone(handle)
}

} // verus!
