use std::cell::RefCell;
use std::sync::Arc;
use tasks_core::{
    active_item_selection_properties, current_context, find_by_name, record_prepared, rerun,
    rerun_context, schedule_task, spawn_task_or_modal, spawn_task_with_name, task_context,
    ActiveItem, BufferFile, Dispatch, EditorSnapshot, Inventory, Point, ProjectRootCandidate,
    ProviderAnswer, Rerun, SelectionSnapshot, Spawn, SpawnInTerminal, Task, TaskContext, TaskSource,
    TaskSourceKind, TaskVariables, VariableName, WorkspaceSnapshot, WorktreeId,
};

/// Runs `echo` with its label, in the directory of the context, and keeps
/// every context it was asked about.
struct Echo {
    label: String,
    ready: bool,
    seen: RefCell<Vec<TaskContext>>,
}

fn echo(label: &str, ready: bool) -> Arc<Echo> {
    Arc::new(Echo { label: label.to_string(), ready, seen: RefCell::new(Vec::new()) })
}

fn command_of(label: &str, cx: &TaskContext) -> SpawnInTerminal {
    SpawnInTerminal {
        command: "echo".to_string(),
        args: vec![label.to_string()],
        cwd: cx.cwd.clone(),
        env: cx
            .task_variables
            .pairs()
            .into_iter()
            .map(|(name, text)| (format!("{:?}", name), text))
            .collect(),
    }
}

impl Task for Echo {
    fn name(&self) -> String {
        self.label.clone()
    }

    fn prepare_exec(&self, cx: &TaskContext) -> Option<SpawnInTerminal> {
        self.seen.borrow_mut().push(cx.clone());
        if self.ready {
            Some(command_of(&self.label, cx))
        } else {
            None
        }
    }
}

struct Listed {
    tasks: Vec<Arc<Echo>>,
    asked: Arc<RefCell<Vec<(Option<String>, Option<WorktreeId>)>>>,
}

fn listed(tasks: &[&Arc<Echo>]) -> Listed {
    Listed {
        tasks: tasks.iter().map(|task| Arc::clone(task)).collect(),
        asked: Arc::new(RefCell::new(Vec::new())),
    }
}

impl TaskSource for Listed {
    type Task = Echo;

    fn list_tasks(&self, language: Option<&String>, worktree: Option<WorktreeId>) -> Vec<Arc<Echo>> {
        self.asked.borrow_mut().push((language.cloned(), worktree));
        self.tasks.clone()
    }
}

fn directory(path: &str, id: usize) -> ProjectRootCandidate {
    ProjectRootCandidate {
        path: path.to_string(),
        is_visible: true,
        is_local: true,
        root_is_directory: true,
        id,
    }
}

fn cursor_at(row: u32, column: u32, text: &str) -> WorkspaceSnapshot {
    WorkspaceSnapshot {
        worktrees: vec![directory("/dir", 1)],
        active_entry_root: Some(1),
        active_item: Some(ActiveItem {
            worktree_id: Some(1),
            editor: Some(EditorSnapshot {
                selection: Some(SelectionSnapshot {
                    start: Point { row, column },
                    text: text.to_string(),
                    file: Some(BufferFile { worktree_id: 1, abs_path: Some("/dir/a.rs".into()) }),
                    language: Some("rust".into()),
                    provider: None,
                }),
            }),
        }),
    }
}

fn context_at(row: &str, column: &str, text: &str) -> TaskContext {
    TaskContext {
        cwd: Some("/dir".into()),
        task_variables: TaskVariables::from_iter(vec![
            (VariableName::Row, row.into()),
            (VariableName::Column, column.into()),
            (VariableName::SelectedText, text.into()),
            (VariableName::File, "/dir/a.rs".into()),
            (VariableName::WorktreeRoot, "/dir".into()),
        ]),
    }
}

fn plain_context(cwd: &str) -> TaskContext {
    TaskContext { cwd: Some(cwd.to_string()), task_variables: TaskVariables::new() }
}

fn last_of(inventory: &Inventory<Listed>) -> Option<(String, TaskContext)> {
    inventory.last_scheduled_task().map(|(task, context)| (task.label.clone(), context))
}

#[test]
fn scheduling_spawns_and_records() {
    let mut inventory: Inventory<Listed> = Inventory::new();
    let task = echo("build", true);
    let spawn = schedule_task(&mut inventory, &task, plain_context("/w"), false);
    assert_eq!(spawn, Some(command_of("build", &plain_context("/w"))));
    let (last, with) = inventory.last_scheduled_task().unwrap();
    assert!(Arc::ptr_eq(&last, &task));
    assert_eq!(with, plain_context("/w"));
}

#[test]
fn task_is_asked_once_with_the_context_given() {
    let mut inventory: Inventory<Listed> = Inventory::new();
    let task = echo("build", true);
    let context = context_at("3", "4", "sel");
    schedule_task(&mut inventory, &task, context.clone(), false);
    assert_eq!(task.seen.borrow().len(), 1);
    assert_eq!(task.seen.borrow()[0], context);
    assert_eq!(task.seen.borrow()[0].task_variables.pairs(), context.task_variables.pairs());
}

#[test]
fn failed_prepare_leaves_empty_history_empty() {
    let mut inventory: Inventory<Listed> = Inventory::new();
    let task = echo("broken", false);
    assert_eq!(schedule_task(&mut inventory, &task, plain_context("/w"), false), None);
    assert!(inventory.last_scheduled_task().is_none());
    assert_eq!(task.seen.borrow().len(), 1);
}

#[test]
fn failed_prepare_leaves_the_last_task_in_place() {
    let mut inventory: Inventory<Listed> = Inventory::new();
    let good = echo("good", true);
    let broken = echo("broken", false);
    schedule_task(&mut inventory, &good, plain_context("/one"), false);
    assert_eq!(schedule_task(&mut inventory, &broken, plain_context("/two"), false), None);
    let (last, with) = inventory.last_scheduled_task().unwrap();
    assert!(Arc::ptr_eq(&last, &good));
    assert_eq!(with, plain_context("/one"));
}

#[test]
fn later_success_overwrites_the_last_task() {
    let mut inventory: Inventory<Listed> = Inventory::new();
    let first = echo("first", true);
    let second = echo("second", true);
    schedule_task(&mut inventory, &first, plain_context("/one"), false);
    schedule_task(&mut inventory, &second, plain_context("/two"), false);
    assert_eq!(last_of(&inventory), Some(("second".to_string(), plain_context("/two"))));
}

#[test]
fn omitted_history_spawns_without_recording() {
    let mut inventory: Inventory<Listed> = Inventory::new();
    let first = echo("first", true);
    let second = echo("second", true);
    assert!(schedule_task(&mut inventory, &first, plain_context("/one"), true).is_some());
    assert!(inventory.last_scheduled_task().is_none());
    schedule_task(&mut inventory, &first, plain_context("/one"), false);
    let spawn = schedule_task(&mut inventory, &second, plain_context("/two"), true);
    assert_eq!(spawn, Some(command_of("second", &plain_context("/two"))));
    assert_eq!(last_of(&inventory), Some(("first".to_string(), plain_context("/one"))));
}

#[test]
fn scheduling_leaves_the_sources_alone() {
    let task = echo("t", true);
    let mut inventory = Inventory::new();
    inventory.add_source(TaskSourceKind::UserInput, listed(&[&task]));
    schedule_task(&mut inventory, &task, plain_context("/w"), false);
    assert_eq!(inventory.list_tasks(None, None, false).len(), 1);
}

#[test]
fn record_prepared_settles_every_case() {
    let task = echo("t", true);
    let other = echo("other", true);
    let command = || command_of("t", &plain_context("/w"));

    let mut inventory: Inventory<Listed> = Inventory::new();
    inventory.task_scheduled(Arc::clone(&other), plain_context("/old"));
    let out = record_prepared(&mut inventory, &task, plain_context("/w"), None, false);
    assert_eq!(out, None);
    assert_eq!(last_of(&inventory), Some(("other".to_string(), plain_context("/old"))));

    let out = record_prepared(&mut inventory, &task, plain_context("/w"), None, true);
    assert_eq!(out, None);
    assert_eq!(last_of(&inventory), Some(("other".to_string(), plain_context("/old"))));

    let out = record_prepared(&mut inventory, &task, plain_context("/w"), Some(command()), true);
    assert_eq!(out, Some(command()));
    assert_eq!(last_of(&inventory), Some(("other".to_string(), plain_context("/old"))));

    let out = record_prepared(&mut inventory, &task, plain_context("/w"), Some(command()), false);
    assert_eq!(out, Some(command()));
    assert_eq!(last_of(&inventory), Some(("t".to_string(), plain_context("/w"))));
    assert!(task.seen.borrow().is_empty());
}

#[test]
fn rerun_without_history_does_nothing() {
    let mut inventory: Inventory<Listed> = Inventory::new();
    let workspace = cursor_at(0, 0, "");
    assert_eq!(rerun(&mut inventory, &workspace, &Rerun { reevaluate_context: false }), None);
    assert_eq!(rerun(&mut inventory, &workspace, &Rerun { reevaluate_context: true }), None);
    assert!(inventory.last_scheduled_task().is_none());
}

#[test]
fn rerun_takes_the_recorded_context_as_it_is() {
    let mut inventory: Inventory<Listed> = Inventory::new();
    let task = echo("build", true);
    let recorded = current_context(&cursor_at(0, 0, ""));
    let first = schedule_task(&mut inventory, &task, recorded.clone(), false);

    let moved = cursor_at(7, 2, "moved");
    let again = rerun(&mut inventory, &moved, &Rerun::default());
    assert_eq!(again, first);
    assert_eq!(task.seen.borrow().len(), 2);
    assert_eq!(task.seen.borrow()[1], recorded);
    assert_eq!(task.seen.borrow()[1].cwd, recorded.cwd);
    assert_eq!(task.seen.borrow()[1].task_variables.pairs(), recorded.task_variables.pairs());
    let (last, with) = inventory.last_scheduled_task().unwrap();
    assert!(Arc::ptr_eq(&last, &task));
    assert_eq!(with.task_variables.pairs(), recorded.task_variables.pairs());
    assert_eq!(with, context_at("1", "1", ""));
}

#[test]
fn rerun_with_fresh_context_follows_the_cursor() {
    let mut inventory: Inventory<Listed> = Inventory::new();
    let task = echo("build", true);
    schedule_task(&mut inventory, &task, current_context(&cursor_at(0, 0, "")), false);

    let moved = cursor_at(7, 2, "moved");
    let again = rerun(&mut inventory, &moved, &Rerun { reevaluate_context: true });
    assert_eq!(again, Some(command_of("build", &context_at("8", "3", "moved"))));
    assert_eq!(task.seen.borrow()[1], context_at("8", "3", "moved"));
    let (last, with) = inventory.last_scheduled_task().unwrap();
    assert!(Arc::ptr_eq(&last, &task));
    assert_eq!(with, context_at("8", "3", "moved"));
    assert_eq!(with.task_variables.get(&VariableName::Row), Some(&"8".to_string()));
    assert_eq!(with.task_variables.get(&VariableName::Column), Some(&"3".to_string()));
    assert_eq!(with.task_variables.get(&VariableName::SelectedText), Some(&"moved".to_string()));
}

#[test]
fn rerun_with_fresh_context_resolves_the_directory_anew() {
    let mut inventory: Inventory<Listed> = Inventory::new();
    let task = echo("build", true);
    schedule_task(&mut inventory, &task, plain_context("/old"), false);

    let mut workspace = cursor_at(0, 0, "");
    workspace.worktrees.push(directory("/other", 2));
    workspace.active_entry_root = Some(2);
    rerun(&mut inventory, &workspace, &Rerun { reevaluate_context: true });
    assert_eq!(inventory.last_scheduled_task().unwrap().1.cwd, Some("/other".to_string()));

    workspace.active_entry_root = None;
    rerun(&mut inventory, &workspace, &Rerun { reevaluate_context: true });
    assert_eq!(inventory.last_scheduled_task().unwrap().1.cwd, None);

    rerun(&mut inventory, &workspace, &Rerun { reevaluate_context: false });
    assert_eq!(inventory.last_scheduled_task().unwrap().1.cwd, None);
}

#[test]
fn rerun_that_cannot_prepare_keeps_the_recorded_context() {
    let mut inventory: Inventory<Listed> = Inventory::new();
    let task = echo("broken", false);
    inventory.task_scheduled(Arc::clone(&task), plain_context("/old"));
    let out = rerun(&mut inventory, &cursor_at(1, 1, "x"), &Rerun { reevaluate_context: true });
    assert_eq!(out, None);
    assert_eq!(task.seen.borrow()[0], context_at("2", "2", "x"));
    assert_eq!(last_of(&inventory), Some(("broken".to_string(), plain_context("/old"))));
}

#[test]
fn rerun_context_picks_recorded_or_fresh() {
    let workspace = cursor_at(4, 5, "t");
    let recorded = plain_context("/recorded");
    assert_eq!(
        rerun_context(&workspace, recorded.clone(), &Rerun { reevaluate_context: false }),
        recorded
    );
    assert_eq!(
        rerun_context(&workspace, recorded, &Rerun { reevaluate_context: true }),
        context_at("5", "6", "t")
    );
}

#[test]
fn current_context_takes_an_ambiguous_directory_for_none() {
    let mut workspace = cursor_at(0, 0, "");
    workspace.worktrees.push(directory("/other", 2));
    workspace.active_entry_root = None;
    let context = current_context(&workspace);
    assert_eq!(context.cwd, None);
    assert_eq!(context.task_variables, context_at("1", "1", "").task_variables);
    assert_eq!(context, task_context(&workspace, None));
}

#[test]
fn find_by_name_gives_the_first_place() {
    let names: Vec<String> = vec!["a".into(), "b".into(), "a".into(), "".into()];
    assert_eq!(find_by_name(&names, &"a".to_string()), Some(0));
    assert_eq!(find_by_name(&names, &"b".to_string()), Some(1));
    assert_eq!(find_by_name(&names, &"".to_string()), Some(3));
    assert_eq!(find_by_name(&names, &"c".to_string()), None);
    assert_eq!(find_by_name(&names, &"A".to_string()), None);
    assert_eq!(find_by_name(&Vec::new(), &"a".to_string()), None);
}

#[test]
fn selection_properties_of_the_active_item() {
    assert_eq!(
        active_item_selection_properties(&cursor_at(0, 0, "")),
        (Some(1), Some("rust".to_string()))
    );

    let mut workspace = cursor_at(0, 0, "");
    workspace.active_item.as_mut().unwrap().worktree_id = None;
    assert_eq!(active_item_selection_properties(&workspace), (None, Some("rust".to_string())));

    let mut workspace = cursor_at(0, 0, "");
    workspace.active_item.as_mut().unwrap().editor.as_mut().unwrap().selection = None;
    assert_eq!(active_item_selection_properties(&workspace), (Some(1), None));

    let mut workspace = cursor_at(0, 0, "");
    workspace.active_item.as_mut().unwrap().editor = None;
    assert_eq!(active_item_selection_properties(&workspace), (Some(1), None));

    let mut workspace = cursor_at(0, 0, "");
    workspace.active_item = None;
    assert_eq!(active_item_selection_properties(&workspace), (None, None));
}

#[test]
fn named_task_is_started_with_the_fresh_context() {
    let build = echo("build", true);
    let test = echo("test", true);
    let mut inventory = Inventory::new();
    inventory.add_source(TaskSourceKind::UserInput, listed(&[&build, &test]));
    let dispatch = spawn_task_with_name(&mut inventory, &cursor_at(2, 3, "x"), "test".into());
    assert_eq!(dispatch, Dispatch::Spawn(command_of("test", &context_at("3", "4", "x"))));
    let (last, with) = inventory.last_scheduled_task().unwrap();
    assert!(Arc::ptr_eq(&last, &test));
    assert_eq!(with, context_at("3", "4", "x"));
    assert!(build.seen.borrow().is_empty());
}

#[test]
fn first_of_two_tasks_with_the_name_is_started() {
    let first = echo("same", true);
    let second = echo("same", true);
    let mut inventory = Inventory::new();
    inventory.add_source(TaskSourceKind::UserInput, listed(&[&first]));
    inventory.add_source(TaskSourceKind::Language("rust".into()), listed(&[&second]));
    spawn_task_with_name(&mut inventory, &cursor_at(0, 0, ""), "same".into());
    assert!(Arc::ptr_eq(&inventory.last_scheduled_task().unwrap().0, &first));
    assert!(second.seen.borrow().is_empty());
}

#[test]
fn unknown_name_asks_the_user_to_pick() {
    let build = echo("build", true);
    let mut inventory = Inventory::new();
    inventory.add_source(TaskSourceKind::UserInput, listed(&[&build]));
    let dispatch = spawn_task_with_name(&mut inventory, &cursor_at(2, 3, "x"), "deploy".into());
    assert_eq!(dispatch, Dispatch::OpenModal(context_at("3", "4", "x")));
    assert!(inventory.last_scheduled_task().is_none());
    assert!(build.seen.borrow().is_empty());
}

#[test]
fn named_task_that_cannot_prepare_does_nothing() {
    let broken = echo("broken", false);
    let good = echo("good", true);
    let mut inventory = Inventory::new();
    inventory.add_source(TaskSourceKind::UserInput, listed(&[&broken, &good]));
    inventory.task_scheduled(Arc::clone(&good), plain_context("/old"));
    let dispatch = spawn_task_with_name(&mut inventory, &cursor_at(0, 0, ""), "broken".into());
    assert_eq!(dispatch, Dispatch::Nothing);
    assert_eq!(last_of(&inventory), Some(("good".to_string(), plain_context("/old"))));
    assert_eq!(broken.seen.borrow().len(), 1);
}

#[test]
fn listing_for_a_name_is_narrowed_by_the_active_item() {
    let build = echo("build", true);
    let source = listed(&[&build]);
    let asked = Arc::clone(&source.asked);
    let mut inventory = Inventory::new();
    inventory.add_source(TaskSourceKind::UserInput, source);
    spawn_task_with_name(&mut inventory, &cursor_at(0, 0, ""), "build".into());
    assert_eq!(*asked.borrow(), vec![(Some("rust".to_string()), Some(1))]);
}

#[test]
fn request_without_a_name_asks_the_user_to_pick() {
    let build = echo("build", true);
    let mut inventory = Inventory::new();
    inventory.add_source(TaskSourceKind::UserInput, listed(&[&build]));
    let dispatch = spawn_task_or_modal(&mut inventory, &cursor_at(2, 3, "x"), &Spawn::default());
    assert_eq!(dispatch, Dispatch::OpenModal(context_at("3", "4", "x")));
    assert!(inventory.last_scheduled_task().is_none());
    assert!(build.seen.borrow().is_empty());
}

#[test]
fn request_with_a_name_starts_that_task() {
    let build = echo("build", true);
    let mut inventory = Inventory::new();
    inventory.add_source(TaskSourceKind::UserInput, listed(&[&build]));
    let action = Spawn { task_name: Some("build".into()) };
    let dispatch = spawn_task_or_modal(&mut inventory, &cursor_at(0, 0, ""), &action);
    assert_eq!(dispatch, Dispatch::Spawn(command_of("build", &context_at("1", "1", ""))));
    assert_eq!(last_of(&inventory), Some(("build".to_string(), context_at("1", "1", ""))));

    let action = Spawn { task_name: Some("gone".into()) };
    let dispatch = spawn_task_or_modal(&mut inventory, &cursor_at(0, 0, ""), &action);
    assert_eq!(dispatch, Dispatch::OpenModal(context_at("1", "1", "")));
}

#[test]
fn two_files_one_with_a_symbol_provider() {
    // Compare with the full scenario in the context tests: here the task sees
    // the variables.
    let task = echo("show", true);
    let mut inventory: Inventory<Listed> = Inventory::new();
    let mut workspace = cursor_at(0, 14, "is_i");
    let selection = workspace
        .active_item
        .as_mut()
        .unwrap()
        .editor
        .as_mut()
        .unwrap()
        .selection
        .as_mut()
        .unwrap();
    selection.provider = Some(ProviderAnswer::Variables(TaskVariables::from_iter(vec![(
        VariableName::Symbol,
        "this_is_a_rust_file".into(),
    )])));
    let spawn = schedule_task(&mut inventory, &task, current_context(&workspace), false).unwrap();
    assert_eq!(
        spawn.env,
        vec![
            ("Row".to_string(), "1".to_string()),
            ("Column".to_string(), "15".to_string()),
            ("SelectedText".to_string(), "is_i".to_string()),
            ("File".to_string(), "/dir/a.rs".to_string()),
            ("WorktreeRoot".to_string(), "/dir".to_string()),
            ("Symbol".to_string(), "this_is_a_rust_file".to_string()),
        ]
    );
    assert_eq!(spawn.cwd, Some("/dir".to_string()));
}
