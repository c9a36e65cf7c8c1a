use tasks_core::{task_cwd, AmbiguousRootError, ProjectRootCandidate, WorkspaceSnapshot};

fn candidate(path: &str, id: usize) -> ProjectRootCandidate {
    ProjectRootCandidate {
        path: path.to_string(),
        is_visible: true,
        is_local: true,
        root_is_directory: true,
        id,
    }
}

fn project(worktrees: Vec<ProjectRootCandidate>, active: Option<usize>) -> WorkspaceSnapshot {
    WorkspaceSnapshot { worktrees, active_entry_root: active, active_item: None }
}

#[test]
fn one_root_is_the_working_directory() {
    assert_eq!(task_cwd(&project(vec![candidate("/r", 1)], None)), Ok(Some("/r".to_string())));
}

#[test]
fn one_root_is_taken_whatever_entry_is_active() {
    let roots = || vec![candidate("/r", 1)];
    assert_eq!(task_cwd(&project(roots(), Some(1))), Ok(Some("/r".to_string())));
    assert_eq!(task_cwd(&project(roots(), Some(7))), Ok(Some("/r".to_string())));
}

#[test]
fn no_root_is_no_working_directory() {
    assert_eq!(task_cwd(&project(Vec::new(), None)), Ok(None));
    assert_eq!(task_cwd(&project(Vec::new(), Some(1))), Ok(None));
}

#[test]
fn roots_that_do_not_qualify_do_not_count() {
    let mut hidden = candidate("/hidden", 1);
    hidden.is_visible = false;
    let mut remote = candidate("/remote", 2);
    remote.is_local = false;
    let mut file = candidate("/file.rs", 3);
    file.root_is_directory = false;
    assert_eq!(task_cwd(&project(vec![hidden, remote, file], Some(1))), Ok(None));
}

#[test]
fn single_qualifying_root_among_others_is_taken() {
    let mut hidden = candidate("/hidden", 1);
    hidden.is_visible = false;
    let mut file = candidate("/file.rs", 3);
    file.root_is_directory = false;
    let worktrees = vec![hidden, candidate("/r", 2), file];
    assert_eq!(task_cwd(&project(worktrees, Some(1))), Ok(Some("/r".to_string())));
}

#[test]
fn two_roots_without_active_entry_are_ambiguous() {
    let worktrees = vec![candidate("/a", 1), candidate("/b", 2)];
    assert_eq!(task_cwd(&project(worktrees, None)), Err(AmbiguousRootError));
}

#[test]
fn two_roots_with_active_entry_in_the_second() {
    let worktrees = vec![candidate("/a", 1), candidate("/b", 2)];
    assert_eq!(task_cwd(&project(worktrees, Some(2))), Ok(Some("/b".to_string())));
}

#[test]
fn two_roots_with_active_entry_in_the_first() {
    let worktrees = vec![candidate("/a", 1), candidate("/b", 2)];
    assert_eq!(task_cwd(&project(worktrees, Some(1))), Ok(Some("/a".to_string())));
}

#[test]
fn active_entry_in_no_root_is_ambiguous() {
    let worktrees = vec![candidate("/a", 1), candidate("/b", 2), candidate("/c", 3)];
    assert_eq!(task_cwd(&project(worktrees, Some(4))), Err(AmbiguousRootError));
}

#[test]
fn active_entry_in_a_root_that_does_not_qualify_is_ambiguous() {
    let mut hidden = candidate("/hidden", 3);
    hidden.is_visible = false;
    let worktrees = vec![candidate("/a", 1), hidden, candidate("/b", 2)];
    assert_eq!(task_cwd(&project(worktrees, Some(3))), Err(AmbiguousRootError));
}

#[test]
fn first_of_two_roots_with_one_id_is_taken() {
    let worktrees = vec![candidate("/a", 1), candidate("/b", 2), candidate("/c", 2)];
    assert_eq!(task_cwd(&project(worktrees, Some(2))), Ok(Some("/b".to_string())));
}

#[test]
fn ambiguity_has_a_message() {
    assert_eq!(
        AmbiguousRootError.message(),
        "Cannot determine task cwd for multiple worktrees"
    );
}
