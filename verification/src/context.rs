//! The context a task is started with: its working directory and the
//! variables taken from the editor at the moment of the start.

use vstd::prelude::*;
use vstd::std_specs::cmp::PartialEqSpecImpl;
use crate::cwd::{first_root, has_root, lemma_first_root};
use crate::decimal::{decimal, decimal_string};
use crate::variables::{
    bindings_of, distinct_keys, has_key, lemma_key_index, lemma_put_all, lookup, put, put_all,
    same_bindings, Bindings, TaskVariables, VariableKey, VariableName,
};
use crate::workspace::{
    text_of, ProjectRootCandidate, ProviderAnswer, SelectionSnapshot, WorkspaceSnapshot,
    WorktreeId,
};

verus! {

/// What a task is started with.
#[derive(Debug)]
pub struct TaskContext {
    /// The directory to run in; `None` leaves the choice to whoever runs the
    /// task.
    pub cwd: Option<String>,
    pub task_variables: TaskVariables,
}

/// What a [`TaskContext`] stands for in contracts.
pub struct TaskContextView {
    pub cwd: Option<Seq<char>>,
    pub task_variables: Bindings,
}

impl View for TaskContext {
    type V = TaskContextView;

    open spec fn view(&self) -> TaskContextView {
        TaskContextView { cwd: text_of(self.cwd), task_variables: self.task_variables@ }
    }
}

fn clone_text(text: &Option<String>) -> (copy: Option<String>)
    ensures
        text_of(copy) == text_of(*text),
{
    match text {
        Some(s) => Some(s.clone()),
        None => None,
    }
}

impl Clone for TaskContext {
    fn clone(&self) -> (copy: Self)
        ensures
            copy@ == self@,
    {
        TaskContext { cwd: clone_text(&self.cwd), task_variables: self.task_variables.clone() }
    }
}

impl PartialEq for TaskContext {
    fn eq(&self, other: &Self) -> (same: bool) {
        let same_cwd = match (&self.cwd, &other.cwd) {
            (Some(a), Some(b)) => *a == *b,
            (None, None) => true,
            _ => false,
        };
        same_cwd && self.task_variables == other.task_variables
    }
}

impl PartialEqSpecImpl for TaskContext {
    open spec fn obeys_eq_spec() -> bool {
        true
    }

    open spec fn eq_spec(&self, other: &Self) -> bool {
        text_of(self.cwd) == text_of(other.cwd) && same_bindings(
            self.task_variables@,
            other.task_variables@,
        )
    }
}

/// The path of the first of `worktrees` that has the id `id`.
pub open spec fn root_path(
    worktrees: Seq<ProjectRootCandidate>,
    id: WorktreeId,
) -> Option<Seq<char>> {
    if has_root(worktrees, id) {
        Some(worktrees[first_root(worktrees, id)].path@)
    } else {
        None
    }
}

/// The absolute path of the file behind the selection's buffer.
pub open spec fn file_path(selection: SelectionSnapshot) -> Option<Seq<char>> {
    match selection.file {
        Some(file) => text_of(file.abs_path),
        None => None,
    }
}

/// The path of the project root that owns the file behind the selection's
/// buffer.
pub open spec fn worktree_root(
    selection: SelectionSnapshot,
    worktrees: Seq<ProjectRootCandidate>,
) -> Option<Seq<char>> {
    match selection.file {
        Some(file) => root_path(worktrees, file.worktree_id),
        None => None,
    }
}

/// One binding where there is a value, none where there is not.
pub open spec fn optional_binding(key: VariableKey, value: Option<Seq<char>>) -> Bindings {
    match value {
        Some(text) => seq![(key, text)],
        None => Seq::empty(),
    }
}

/// The variables that the editor itself gives: row and column of the start
/// of the selection, both counted from one, the selected text, then the file
/// and its project root where there are any.
pub open spec fn editor_bindings(
    selection: SelectionSnapshot,
    worktrees: Seq<ProjectRootCandidate>,
) -> Bindings {
    seq![
        (VariableKey::Row, decimal((selection.start.row + 1) as nat)),
        (VariableKey::Column, decimal((selection.start.column + 1) as nat)),
        (VariableKey::SelectedText, selection.text@),
    ] + optional_binding(VariableKey::File, file_path(selection)) + optional_binding(
        VariableKey::WorktreeRoot,
        worktree_root(selection, worktrees),
    )
}

/// The variables of a provider's answer: those it built, and none where
/// there is no provider or the provider failed.
pub open spec fn provider_bindings(answer: Option<ProviderAnswer>) -> Bindings {
    match answer {
        Some(ProviderAnswer::Variables(vars)) => vars@,
        _ => Seq::empty(),
    }
}

/// The editor's variables with the provider's put in behind them.
pub open spec fn resolved_bindings(
    selection: SelectionSnapshot,
    worktrees: Seq<ProjectRootCandidate>,
) -> Bindings {
    put_all(editor_bindings(selection, worktrees), provider_bindings(selection.provider))
}

/// The context that a start from `workspace` in the directory `cwd` gets: no
/// variables where no selection of an active editor could be resolved.
pub open spec fn resolved_context(
    workspace: WorkspaceSnapshot,
    cwd: Option<Seq<char>>,
) -> TaskContextView {
    TaskContextView {
        cwd,
        task_variables: match workspace.selection() {
            Some(selection) => resolved_bindings(selection, workspace.worktrees@),
            None => Seq::empty(),
        },
    }
}

/// The editor's variables bind each well-known name once, to what the
/// selection shows, and bind no other name. Row and column are one more than
/// the position counted from zero; the selected text is bound even where it
/// is empty.
pub proof fn lemma_editor_bindings(
    selection: SelectionSnapshot,
    worktrees: Seq<ProjectRootCandidate>,
)
    ensures
        distinct_keys(editor_bindings(selection, worktrees)),
        lookup(editor_bindings(selection, worktrees), VariableKey::Row) == Some(
            decimal((selection.start.row + 1) as nat),
        ),
        lookup(editor_bindings(selection, worktrees), VariableKey::Column) == Some(
            decimal((selection.start.column + 1) as nat),
        ),
        lookup(editor_bindings(selection, worktrees), VariableKey::SelectedText) == Some(
            selection.text@,
        ),
        lookup(editor_bindings(selection, worktrees), VariableKey::File) == file_path(selection),
        lookup(editor_bindings(selection, worktrees), VariableKey::WorktreeRoot) == worktree_root(
            selection,
            worktrees,
        ),
        forall|key: VariableKey|
            key is Symbol || key is Custom ==> #[trigger] lookup(
                editor_bindings(selection, worktrees),
                key,
            ) is None,
{
    let s = editor_bindings(selection, worktrees);
    lemma_key_index(s, 0);
    lemma_key_index(s, 1);
    lemma_key_index(s, 2);
    if s.len() > 3 {
        lemma_key_index(s, 3);
    }
    if s.len() > 4 {
        lemma_key_index(s, 4);
    }
}

/// A variable that the provider binds has the provider's text, and every
/// other variable has what the editor gave it: the provider may override,
/// and nothing is dropped on either side.
pub proof fn lemma_resolved_bindings(
    selection: SelectionSnapshot,
    worktrees: Seq<ProjectRootCandidate>,
)
    requires
        distinct_keys(provider_bindings(selection.provider)),
    ensures
        distinct_keys(resolved_bindings(selection, worktrees)),
        forall|key: VariableKey|
            has_key(provider_bindings(selection.provider), key) ==> lookup(
                resolved_bindings(selection, worktrees),
                key,
            ) == #[trigger] lookup(provider_bindings(selection.provider), key),
        forall|key: VariableKey|
            !has_key(provider_bindings(selection.provider), key) ==> #[trigger] lookup(
                resolved_bindings(selection, worktrees),
                key,
            ) == lookup(editor_bindings(selection, worktrees), key),
{
    lemma_editor_bindings(selection, worktrees);
    lemma_put_all(editor_bindings(selection, worktrees), provider_bindings(selection.provider));
}

/// The variables of a provider's answer, and none where the provider is
/// missing or failed: a failure costs the extra variables and nothing else.
pub fn resolve_or_default(answer: &Option<ProviderAnswer>) -> (vars: TaskVariables)
    ensures
        vars@ == provider_bindings(*answer),
{
    match answer {
        Some(ProviderAnswer::Variables(vars)) => vars.clone(),
        _ => TaskVariables::new(),
    }
}

/// The path of the first of `worktrees` that has the id `id`.
pub fn worktree_path(
    worktrees: &Vec<ProjectRootCandidate>,
    id: WorktreeId,
) -> (path: Option<String>)
    ensures
        text_of(path) == root_path(worktrees@, id),
{
    let mut i: usize = 0;
    while i < worktrees.len()
        invariant
            i <= worktrees.len(),
            forall|j: int| 0 <= j < i ==> (#[trigger] worktrees@[j]).id != id,
        decreases worktrees.len() - i,
    {
        if worktrees[i].id == id {
            proof {
                lemma_first_root(worktrees@, id, i as int);
            }
            return Some(worktrees[i].path.clone());
        }
        i = i + 1;
    }
    None
}

fn selection_variables(
    selection: &SelectionSnapshot,
    worktrees: &Vec<ProjectRootCandidate>,
) -> (vars: TaskVariables)
    ensures
        vars@ == resolved_bindings(*selection, worktrees@),
{
    let row = decimal_string(selection.start.row as u64 + 1);
    let column = decimal_string(selection.start.column as u64 + 1);
    let mut pairs: Vec<(VariableName, String)> = Vec::new();
    pairs.push((VariableName::Row, row));
    pairs.push((VariableName::Column, column));
    pairs.push((VariableName::SelectedText, selection.text.clone()));
    let mut vars = TaskVariables::from_iter(pairs);
    let ghost positional = seq![
        (VariableKey::Row, decimal((selection.start.row + 1) as nat)),
        (VariableKey::Column, decimal((selection.start.column + 1) as nat)),
        (VariableKey::SelectedText, selection.text@),
    ];
    proof {
        assert(bindings_of(pairs@) =~= positional);
        lemma_positional(positional);
    }
    let (current_file, worktree_path) = match &selection.file {
        Some(file) => (clone_text(&file.abs_path), worktree_path(worktrees, file.worktree_id)),
        None => (None, None),
    };
    let ghost with_file = positional + optional_binding(VariableKey::File, file_path(*selection));
    if let Some(path) = current_file {
        proof {
            lemma_fresh_key(positional, VariableKey::File, path@);
        }
        vars.insert(VariableName::File, path);
    }
    if let Some(path) = worktree_path {
        proof {
            lemma_fresh_key(with_file, VariableKey::WorktreeRoot, path@);
        }
        vars.insert(VariableName::WorktreeRoot, path);
    }
    vars.extend(resolve_or_default(&selection.provider));
    vars
}

/// Putting three bindings with three names into nothing gives those three.
proof fn lemma_positional(s: Bindings)
    requires
        s.len() == 3,
        s[0].0 != s[1].0,
        s[0].0 != s[2].0,
        s[1].0 != s[2].0,
    ensures
        put_all(Seq::empty(), s) == s,
{
    let s1 = s.take(1);
    let s2 = s.take(2);
    assert(put_all(Seq::empty(), s1.drop_last()) == Seq::<(VariableKey, Seq<char>)>::empty());
    assert(put_all(Seq::empty(), s1) =~= s1);
    assert(s2.drop_last() =~= s1);
    assert(put_all(Seq::empty(), s2) =~= s2);
}

/// A name that is not bound yet goes to the end.
proof fn lemma_fresh_key(s: Bindings, key: VariableKey, value: Seq<char>)
    requires
        forall|i: int| 0 <= i < s.len() ==> (#[trigger] s[i]).0 != key,
    ensures
        put(s, key, value) == s + seq![(key, value)],
{
}

/// Builds the context for a task started from `workspace` in the directory
/// `cwd`.
pub fn task_context(workspace: &WorkspaceSnapshot, cwd: Option<String>) -> (context: TaskContext)
    ensures
        context@ == resolved_context(*workspace, text_of(cwd)),
{
    let task_variables = match &workspace.active_item {
        Some(item) => match &item.editor {
            Some(editor) => match &editor.selection {
                Some(selection) => selection_variables(selection, &workspace.worktrees),
                None => TaskVariables::new(),
            },
            None => TaskVariables::new(),
        },
        None => TaskVariables::new(),
    };
    TaskContext { cwd, task_variables }
}

} // verus!
