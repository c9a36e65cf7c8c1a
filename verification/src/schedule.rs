//! Scheduling: starting a task, starting the last one again, and starting
//! one by its name.

use std::sync::Arc;
use vstd::prelude::*;
use crate::context::{
    lemma_editor_bindings, lemma_resolved_bindings, provider_bindings, resolved_context,
    task_context, TaskContext, TaskContextView,
};
use crate::cwd::{resolve_cwd, task_cwd};
use crate::decimal::decimal;
use crate::inventory::{may_name_all, task_names, texts_of, Inventory, Listing};
use crate::task::{may_prepare, share, SpawnInTerminal, Task, TaskSource};
use crate::variables::{distinct_keys, has_key, lookup, VariableKey};
use crate::workspace::{text_of, SelectionSnapshot, WorkspaceSnapshot, WorktreeId};

verus! {

/// A request to start a task: the one with the name, or one that the user
/// is yet to pick.
#[derive(Debug)]
pub struct Spawn {
    pub task_name: Option<String>,
}

/// A request to start the task that was scheduled last once more.
#[derive(Debug)]
pub struct Rerun {
    /// Whether to resolve the context anew instead of taking the recorded
    /// one.
    pub reevaluate_context: bool,
}

impl Default for Spawn {
    fn default() -> (action: Self)
        ensures
            action.task_name is None,
    {
        Spawn { task_name: None }
    }
}

impl Default for Rerun {
    fn default() -> (action: Self)
        ensures
            !action.reevaluate_context,
    {
        Rerun { reevaluate_context: false }
    }
}

/// What the host is to do after a request to start a task.
#[derive(Debug, PartialEq)]
pub enum Dispatch {
    /// Run this.
    Spawn(SpawnInTerminal),
    /// The task had nothing to run in this context.
    Nothing,
    /// Let the user pick a task; whatever is picked starts with this
    /// context.
    OpenModal(TaskContext),
}

/// The context that a start from `workspace` gets at this moment: the
/// variables and the working directory are both resolved from what the
/// workspace shows now. A working directory that cannot be told counts as
/// none.
pub open spec fn fresh_context(workspace: WorkspaceSnapshot) -> TaskContextView {
    resolved_context(
        workspace,
        match resolve_cwd(workspace.worktrees@, workspace.active_entry_root) {
            Ok(cwd) => cwd,
            Err(_) => None,
        },
    )
}

/// The project root of the active item.
pub open spec fn active_worktree(workspace: WorkspaceSnapshot) -> Option<WorktreeId> {
    match workspace.active_item {
        Some(item) => item.worktree_id,
        None => None,
    }
}

/// The language at the start of the active editor's selection.
pub open spec fn active_language(workspace: WorkspaceSnapshot) -> Option<Seq<char>> {
    match workspace.selection() {
        Some(selection) => text_of(selection.language),
        None => None,
    }
}

/// `at` is the first place in `names` that holds `name`.
pub open spec fn is_first_named(names: Seq<Seq<char>>, name: Seq<char>, at: int) -> bool {
    &&& 0 <= at < names.len()
    &&& names[at] == name
    &&& forall|j: int| 0 <= j < at ==> names[j] != name
}

/// What scheduling `task` with a context that reads `context` may do: with
/// a command to run the task becomes the last one unless history is left
/// alone; without one nothing changes.
pub open spec fn may_schedule<S: TaskSource>(
    before: Inventory<S>,
    after: Inventory<S>,
    task: Arc<S::Task>,
    context: TaskContextView,
    omit_history: bool,
    spawn: Option<SpawnInTerminal>,
) -> bool {
    &&& may_prepare(&*task, context, spawn)
    &&& after.sources() == before.sources()
    &&& if spawn is Some && !omit_history {
        (after.last_scheduled() matches Some((recorded, with)) && recorded == task && with@
            == context)
    } else {
        after.last_scheduled() == before.last_scheduled()
    }
}

/// What a request for the task called `name` may do, given what the sources
/// list and what the listed tasks call themselves: the first task of that
/// name is scheduled with the fresh context, and where no task has the name
/// the user is asked to pick one.
pub open spec fn may_spawn_named<S: TaskSource>(
    before: Inventory<S>,
    after: Inventory<S>,
    workspace: WorkspaceSnapshot,
    name: Seq<char>,
    dispatch: Dispatch,
) -> bool {
    exists|listing: Listing<S::Task>, names: Seq<Seq<char>>|
        #![trigger may_name_all(listing, names)]
        {
            &&& before.may_list_tasks(
                active_language(workspace),
                active_worktree(workspace),
                false,
                listing,
            )
            &&& may_name_all(listing, names)
            &&& if names.contains(name) {
                exists|at: int|
                    #![trigger listing[at]]
                    is_first_named(names, name, at) && may_schedule(
                        before,
                        after,
                        listing[at].1,
                        fresh_context(workspace),
                        false,
                        spawn_of(dispatch),
                    ) && !(dispatch is OpenModal)
            } else {
                asks_to_pick(before, after, workspace, dispatch)
            }
        }
}

/// What a request to start the last task again may do: the task that was
/// scheduled last is scheduled once more, with the recorded context or, where
/// that is asked for, with the fresh one, and stays the last task either
/// way; without a last task nothing happens.
pub open spec fn may_rerun<S: TaskSource>(
    before: Inventory<S>,
    after: Inventory<S>,
    workspace: WorkspaceSnapshot,
    action: Rerun,
    spawn: Option<SpawnInTerminal>,
) -> bool {
    match before.last_scheduled() {
        Some((task, recorded)) => may_schedule(
            before,
            after,
            task,
            if action.reevaluate_context {
                fresh_context(workspace)
            } else {
                recorded@
            },
            false,
            spawn,
        ) && (after.last_scheduled() matches Some((last, _)) && last == task),
        None => spawn is None && after.sources() == before.sources()
            && after.last_scheduled() is None,
    }
}

/// The command that a dispatch asks to run.
pub open spec fn spawn_of(dispatch: Dispatch) -> Option<SpawnInTerminal> {
    match dispatch {
        Dispatch::Spawn(spawn) => Some(spawn),
        _ => None,
    }
}

/// The user is asked to pick a task for the fresh context, and the
/// inventory is as it was.
pub open spec fn asks_to_pick<S: TaskSource>(
    before: Inventory<S>,
    after: Inventory<S>,
    workspace: WorkspaceSnapshot,
    dispatch: Dispatch,
) -> bool {
    &&& dispatch matches Dispatch::OpenModal(context) && context@ == fresh_context(workspace)
    &&& after.sources() == before.sources()
    &&& after.last_scheduled() == before.last_scheduled()
}

/// Resolves working directory and variables as they are at this moment.
pub fn current_context(workspace: &WorkspaceSnapshot) -> (context: TaskContext)
    ensures
        context@ == fresh_context(*workspace),
{
    let cwd = match task_cwd(workspace) {
        Ok(cwd) => cwd,
        Err(_) => None,
    };
    task_context(workspace, cwd)
}

/// The project root of the active item and the language at the cursor: what
/// the listing of tasks is narrowed by.
pub fn active_item_selection_properties(
    workspace: &WorkspaceSnapshot,
) -> (properties: (Option<WorktreeId>, Option<String>))
    ensures
        properties.0 == active_worktree(*workspace),
        text_of(properties.1) == active_language(*workspace),
{
    match &workspace.active_item {
        Some(item) => {
            let language = match &item.editor {
                Some(editor) => match &editor.selection {
                    Some(selection) => match &selection.language {
                        Some(name) => Some(name.clone()),
                        None => None,
                    },
                    None => None,
                },
                None => None,
            };
            (item.worktree_id, language)
        },
        None => (None, None),
    }
}

/// The first place in `names` that holds `name`.
pub fn find_by_name(names: &Vec<String>, name: &String) -> (found: Option<usize>)
    ensures
        match found {
            Some(at) => is_first_named(texts_of(names@), name@, at as int),
            None => !texts_of(names@).contains(name@),
        },
{
    let mut i: usize = 0;
    while i < names.len()
        invariant
            i <= names.len(),
            forall|j: int| 0 <= j < i ==> texts_of(names@)[j] != name@,
        decreases names.len() - i,
    {
        if names[i] == *name {
            return Some(i);
        }
        i = i + 1;
    }
    None
}

/// Settles a scheduling attempt once the task has answered: a command is
/// passed on to be run, and the task becomes the last one unless history is
/// left alone; without a command nothing happens.
pub fn record_prepared<S: TaskSource>(
    inventory: &mut Inventory<S>,
    task: &Arc<S::Task>,
    task_cx: TaskContext,
    prepared: Option<SpawnInTerminal>,
    omit_history: bool,
) -> (spawn: Option<SpawnInTerminal>)
    ensures
        spawn == prepared,
        final(inventory).sources() == old(inventory).sources(),
        final(inventory).last_scheduled() == if prepared is Some && !omit_history {
            Some((*task, task_cx))
        } else {
            old(inventory).last_scheduled()
        },
{
    if prepared.is_some() && !omit_history {
        inventory.task_scheduled(share(task), task_cx);
    }
    prepared
}

/// Asks `task` what to run for `task_cx` and settles the attempt.
pub fn schedule_task<S: TaskSource>(
    inventory: &mut Inventory<S>,
    task: &Arc<S::Task>,
    task_cx: TaskContext,
    omit_history: bool,
) -> (spawn: Option<SpawnInTerminal>)
    ensures
        may_schedule(*old(inventory), *final(inventory), *task, task_cx@, omit_history, spawn),
{
    let prepared = task.prepare_exec(&task_cx);
    record_prepared(inventory, task, task_cx, prepared, omit_history)
}

/// The context to start the last task with again: the recorded one as it
/// is, or the fresh one where that is asked for.
pub fn rerun_context(
    workspace: &WorkspaceSnapshot,
    recorded: TaskContext,
    action: &Rerun,
) -> (context: TaskContext)
    ensures
        context@ == if action.reevaluate_context {
            fresh_context(*workspace)
        } else {
            recorded@
        },
{
    if action.reevaluate_context {
        current_context(workspace)
    } else {
        recorded
    }
}

/// Starts the task that was scheduled last once more, and does nothing
/// where no task was scheduled yet.
pub fn rerun<S: TaskSource>(
    inventory: &mut Inventory<S>,
    workspace: &WorkspaceSnapshot,
    action: &Rerun,
) -> (spawn: Option<SpawnInTerminal>)
    ensures
        may_rerun(*old(inventory), *final(inventory), *workspace, *action, spawn),
{
    match inventory.last_scheduled_task() {
        Some((task, recorded)) => {
            let context = rerun_context(workspace, recorded, action);
            schedule_task(inventory, &task, context, false)
        },
        None => None,
    }
}

/// Starts the first listed task that goes by `name`; where there is none,
/// the user is asked to pick a task.
pub fn spawn_task_with_name<S: TaskSource>(
    inventory: &mut Inventory<S>,
    workspace: &WorkspaceSnapshot,
    name: String,
) -> (dispatch: Dispatch)
    ensures
        may_spawn_named(*old(inventory), *final(inventory), *workspace, name@, dispatch),
{
    let (worktree, language) = active_item_selection_properties(workspace);
    let tasks = inventory.list_tasks(language.as_ref(), worktree, false);
    let names = task_names(&tasks);
    match find_by_name(&names, &name) {
        Some(at) => {
            let context = current_context(workspace);
            match schedule_task(inventory, &tasks[at].1, context, false) {
                Some(spawn) => Dispatch::Spawn(spawn),
                None => Dispatch::Nothing,
            }
        },
        None => Dispatch::OpenModal(current_context(workspace)),
    }
}

/// Answers a request to start a task: by name where the request names one,
/// and by asking the user to pick where it does not.
pub fn spawn_task_or_modal<S: TaskSource>(
    inventory: &mut Inventory<S>,
    workspace: &WorkspaceSnapshot,
    action: &Spawn,
) -> (dispatch: Dispatch)
    ensures
        match action.task_name {
            Some(name) => may_spawn_named(
                *old(inventory),
                *final(inventory),
                *workspace,
                name@,
                dispatch,
            ),
            None => asks_to_pick(*old(inventory), *final(inventory), *workspace, dispatch),
        },
{
    match &action.task_name {
        Some(name) => spawn_task_with_name(inventory, workspace, name.clone()),
        None => Dispatch::OpenModal(current_context(workspace)),
    }
}

/// A task that could not be prepared leaves the last task and its context
/// as they were.
pub proof fn lemma_failure_keeps_history<S: TaskSource>(
    before: Inventory<S>,
    after: Inventory<S>,
    task: Arc<S::Task>,
    context: TaskContextView,
    omit_history: bool,
)
    requires
        may_schedule(before, after, task, context, omit_history, None),
    ensures
        after.last_scheduled() == before.last_scheduled(),
        after.sources() == before.sources(),
{
}

/// A task that was scheduled with a context is started again with a context
/// that reads the same, wherever the cursor is by then, and is recorded with
/// it again.
pub proof fn lemma_rerun_recorded<S: TaskSource>(
    first: Inventory<S>,
    second: Inventory<S>,
    third: Inventory<S>,
    task: Arc<S::Task>,
    context: TaskContextView,
    ran: SpawnInTerminal,
    workspace: WorkspaceSnapshot,
    again: Option<SpawnInTerminal>,
)
    requires
        may_schedule(first, second, task, context, false, Some(ran)),
        may_rerun(second, third, workspace, Rerun { reevaluate_context: false }, again),
    ensures
        may_prepare(&*task, context, again),
        third.last_scheduled() matches Some((last, with)) && last == task && with@ == context,
        third.sources() == first.sources(),
{
}

/// Started again with a fresh context, the last task is asked for the
/// context of this moment and, where it has a command for it, recorded with
/// it: row, column and selected text are those of the selection now, unless
/// the language's provider binds these names itself.
pub proof fn lemma_rerun_fresh<S: TaskSource>(
    before: Inventory<S>,
    after: Inventory<S>,
    workspace: WorkspaceSnapshot,
    selection: SelectionSnapshot,
    spawn: SpawnInTerminal,
)
    requires
        before.last_scheduled() is Some,
        may_rerun(before, after, workspace, Rerun { reevaluate_context: true }, Some(spawn)),
        workspace.selection() == Some(selection),
        distinct_keys(provider_bindings(selection.provider)),
    ensures
        may_prepare(&*before.last_scheduled().unwrap().0, fresh_context(workspace), Some(spawn)),
        after.last_scheduled() matches Some((last, with)) && last == before.last_scheduled().unwrap().0
            && with@ == fresh_context(workspace) && ({
            let provided = provider_bindings(selection.provider);
            let variables = with@.task_variables;
            &&& !has_key(provided, VariableKey::Row) ==> lookup(variables, VariableKey::Row)
                == Some(decimal((selection.start.row + 1) as nat))
            &&& !has_key(provided, VariableKey::Column) ==> lookup(variables, VariableKey::Column)
                == Some(decimal((selection.start.column + 1) as nat))
            &&& !has_key(provided, VariableKey::SelectedText) ==> lookup(
                variables,
                VariableKey::SelectedText,
            ) == Some(selection.text@)
        }),
{
    lemma_editor_bindings(selection, workspace.worktrees@);
    lemma_resolved_bindings(selection, workspace.worktrees@);
}

} // verus!
