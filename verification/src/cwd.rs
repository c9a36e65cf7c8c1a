//! The directory in which a task is to run.

use vstd::prelude::*;
use vstd::string::StringExecFns;
use crate::workspace::{ProjectRootCandidate, WorktreeId, WorkspaceSnapshot};

verus! {

/// Several project roots could hold the task, and the active entry singles
/// none of them out.
#[derive(Debug, Clone, Copy, PartialEq, Eq)]
pub struct AmbiguousRootError;

impl AmbiguousRootError {
    /// What to tell the user.
    pub fn message(&self) -> (text: String)
        ensures
            text@ == "Cannot determine task cwd for multiple worktrees"@,
    {
        String::from_str("Cannot determine task cwd for multiple worktrees")
    }
}

impl ProjectRootCandidate {
    /// A task can run in a root that is visible, local and a directory.
    pub open spec fn qualifies(&self) -> bool {
        self.is_visible && self.is_local && self.root_is_directory
    }
}

/// The roots in which a task can run, in the project's order.
pub open spec fn qualifying(worktrees: Seq<ProjectRootCandidate>) -> Seq<ProjectRootCandidate> {
    worktrees.filter(|root: ProjectRootCandidate| root.qualifies())
}

/// Whether one of `roots` has the id `id`.
pub open spec fn has_root(roots: Seq<ProjectRootCandidate>, id: WorktreeId) -> bool {
    exists|i: int| 0 <= i < roots.len() && (#[trigger] roots[i]).id == id
}

/// The place of the first of `roots` that has the id `id`.
pub open spec fn first_root(roots: Seq<ProjectRootCandidate>, id: WorktreeId) -> int {
    choose|i: int|
        0 <= i < roots.len() && (#[trigger] roots[i]).id == id && forall|j: int|
            0 <= j < i ==> (#[trigger] roots[j]).id != id
}

/// The working directory for the given roots: none where no root qualifies,
/// the one root where one qualifies, and among several the first that owns
/// the active entry, or else no answer at all.
pub open spec fn resolve_cwd(
    worktrees: Seq<ProjectRootCandidate>,
    active_entry_root: Option<WorktreeId>,
) -> Result<Option<Seq<char>>, AmbiguousRootError> {
    let roots = qualifying(worktrees);
    if roots.len() == 0 {
        Ok(None)
    } else if roots.len() == 1 {
        Ok(Some(roots[0].path@))
    } else {
        match active_entry_root {
            Some(id) => if has_root(roots, id) {
                Ok(Some(roots[first_root(roots, id)].path@))
            } else {
                Err(AmbiguousRootError)
            },
            None => Err(AmbiguousRootError),
        }
    }
}

/// What a resolved working directory says, text for strings.
pub open spec fn cwd_view(
    cwd: Result<Option<String>, AmbiguousRootError>,
) -> Result<Option<Seq<char>>, AmbiguousRootError> {
    match cwd {
        Ok(Some(path)) => Ok(Some(path@)),
        Ok(None) => Ok(None),
        Err(e) => Err(e),
    }
}

/// The first root with the id is a root with the id before which none has it.
pub proof fn lemma_first_root(roots: Seq<ProjectRootCandidate>, id: WorktreeId, at: int)
    requires
        0 <= at < roots.len(),
        roots[at].id == id,
        forall|j: int| 0 <= j < at ==> (#[trigger] roots[j]).id != id,
    ensures
        has_root(roots, id),
        first_root(roots, id) == at,
{
}

/// One more root looked at adds it to the qualifying roots if it qualifies.
proof fn lemma_qualifying_step(worktrees: Seq<ProjectRootCandidate>, n: int)
    requires
        0 <= n < worktrees.len(),
    ensures
        qualifying(worktrees.take(n + 1)) == if worktrees[n].qualifies() {
            qualifying(worktrees.take(n)).push(worktrees[n])
        } else {
            qualifying(worktrees.take(n))
        },
{
    broadcast use Seq::lemma_filter_push;

    assert(worktrees.take(n + 1) =~= worktrees.take(n).push(worktrees[n]));
}

/// How many of the roots before place `n` qualify.
spec fn rank(worktrees: Seq<ProjectRootCandidate>, n: int) -> nat {
    qualifying(worktrees.take(n)).len()
}

/// A qualifying root stands among the qualifying roots, behind those that
/// qualify before it.
proof fn lemma_kept(worktrees: Seq<ProjectRootCandidate>, i: int, n: int)
    requires
        0 <= i < n <= worktrees.len(),
        worktrees[i].qualifies(),
    ensures
        rank(worktrees, i) < rank(worktrees, n),
        qualifying(worktrees.take(n))[rank(worktrees, i) as int] == worktrees[i],
    decreases n - i,
{
    lemma_qualifying_step(worktrees, n - 1);
    if n > i + 1 {
        lemma_kept(worktrees, i, n - 1);
    }
}

/// Each of the qualifying roots is a root that qualifies.
proof fn lemma_origin(worktrees: Seq<ProjectRootCandidate>, k: int, n: int) -> (j: int)
    requires
        0 <= n <= worktrees.len(),
        0 <= k < rank(worktrees, n),
    ensures
        0 <= j < n,
        worktrees[j].qualifies(),
        rank(worktrees, j) == k,
        qualifying(worktrees.take(n))[k] == worktrees[j],
    decreases n,
{
    if n == 0 {
        assert(qualifying(worktrees.take(0)) =~= Seq::empty()) by {
            reveal(Seq::filter);
        }
        0
    } else {
        lemma_qualifying_step(worktrees, n - 1);
        if worktrees[n - 1].qualifies() && k == rank(worktrees, n - 1) {
            n - 1
        } else {
            lemma_origin(worktrees, k, n - 1)
        }
    }
}

/// Where no root qualifies there is no working directory, and that is no
/// error.
pub proof fn lemma_no_root(
    worktrees: Seq<ProjectRootCandidate>,
    active_entry_root: Option<WorktreeId>,
)
    requires
        forall|i: int| 0 <= i < worktrees.len() ==> !(#[trigger] worktrees[i]).qualifies(),
    ensures
        resolve_cwd(worktrees, active_entry_root) == Ok::<Option<Seq<char>>, AmbiguousRootError>(
            None,
        ),
{
    assert(worktrees.take(worktrees.len() as int) =~= worktrees);
    if qualifying(worktrees).len() > 0 {
        lemma_origin(worktrees, 0, worktrees.len() as int);
    }
}

/// Where exactly one root qualifies, its path is the working directory,
/// whatever entry is active.
pub proof fn lemma_single_root(
    worktrees: Seq<ProjectRootCandidate>,
    at: int,
    active_entry_root: Option<WorktreeId>,
)
    requires
        0 <= at < worktrees.len(),
        forall|i: int|
            0 <= i < worktrees.len() ==> ((#[trigger] worktrees[i]).qualifies() <==> i == at),
    ensures
        resolve_cwd(worktrees, active_entry_root) == Ok::<Option<Seq<char>>, AmbiguousRootError>(
            Some(worktrees[at].path@),
        ),
{
    let n = worktrees.len() as int;
    assert(worktrees.take(n) =~= worktrees);
    lemma_kept(worktrees, at, n);
    if rank(worktrees, at) > 0 {
        lemma_origin(worktrees, 0, at);
    }
    if qualifying(worktrees).len() > 1 {
        lemma_origin(worktrees, 1, n);
    }
}

/// Where several roots qualify and no entry is active, or the active entry
/// lies in none of them, resolution fails rather than pick one.
pub proof fn lemma_ambiguous(
    worktrees: Seq<ProjectRootCandidate>,
    a: int,
    b: int,
    active_entry_root: Option<WorktreeId>,
)
    requires
        0 <= a < b < worktrees.len(),
        worktrees[a].qualifies(),
        worktrees[b].qualifies(),
        active_entry_root matches Some(id) ==> forall|i: int|
            0 <= i < worktrees.len() && (#[trigger] worktrees[i]).qualifies() ==> worktrees[i].id
                != id,
    ensures
        resolve_cwd(worktrees, active_entry_root) == Err::<Option<Seq<char>>, AmbiguousRootError>(
            AmbiguousRootError,
        ),
{
    let n = worktrees.len() as int;
    let roots = qualifying(worktrees);
    assert(worktrees.take(n) =~= worktrees);
    lemma_kept(worktrees, a, b);
    lemma_kept(worktrees, b, n);
    if let Some(id) = active_entry_root {
        if has_root(roots, id) {
            let k = choose|k: int| 0 <= k < roots.len() && (#[trigger] roots[k]).id == id;
            lemma_origin(worktrees, k, n);
        }
    }
}

/// Where several roots qualify and the active entry lies in one of them, that
/// root's path is the working directory.
pub proof fn lemma_active_root(
    worktrees: Seq<ProjectRootCandidate>,
    other: int,
    owner: int,
    id: WorktreeId,
)
    requires
        0 <= other < worktrees.len(),
        0 <= owner < worktrees.len(),
        other != owner,
        worktrees[other].qualifies(),
        worktrees[owner].qualifies(),
        worktrees[owner].id == id,
        forall|i: int|
            0 <= i < owner && (#[trigger] worktrees[i]).qualifies() ==> worktrees[i].id != id,
    ensures
        resolve_cwd(worktrees, Some(id)) == Ok::<Option<Seq<char>>, AmbiguousRootError>(
            Some(worktrees[owner].path@),
        ),
{
    let n = worktrees.len() as int;
    let roots = qualifying(worktrees);
    assert(worktrees.take(n) =~= worktrees);
    if other < owner {
        lemma_kept(worktrees, other, owner);
        lemma_kept(worktrees, owner, n);
    } else {
        lemma_kept(worktrees, owner, other);
        lemma_kept(worktrees, other, n);
    }
    lemma_kept(worktrees, owner, n);
    let at = rank(worktrees, owner) as int;
    assert forall|k: int| 0 <= k < at implies (#[trigger] roots[k]).id != id by {
        let j = lemma_origin(worktrees, k, owner);
        lemma_kept(worktrees, j, n);
    }
    lemma_first_root(roots, id, at);
}

/// Resolves the directory in which a task started from `workspace` runs.
pub fn task_cwd(workspace: &WorkspaceSnapshot) -> (cwd: Result<Option<String>, AmbiguousRootError>)
    ensures
        cwd_view(cwd) == resolve_cwd(workspace.worktrees@, workspace.active_entry_root),
{
    let worktrees = &workspace.worktrees;
    let mut available: Vec<usize> = Vec::new();
    let mut i: usize = 0;
    assert(qualifying(worktrees@.take(0)) =~= Seq::empty()) by {
        reveal(Seq::filter);
    }
    while i < worktrees.len()
        invariant
            i <= worktrees.len(),
            available@.len() == qualifying(worktrees@.take(i as int)).len(),
            forall|k: int|
                0 <= k < available@.len() ==> (#[trigger] available@[k]) < worktrees.len()
                    && worktrees@[available@[k] as int] == qualifying(worktrees@.take(i as int))[k],
        decreases worktrees.len() - i,
    {
        proof {
            lemma_qualifying_step(worktrees@, i as int);
        }
        let root = &worktrees[i];
        if root.is_visible && root.is_local && root.root_is_directory {
            available.push(i);
        }
        i = i + 1;
    }
    assert(worktrees@.take(i as int) =~= worktrees@);
    let ghost roots = qualifying(worktrees@);
    if available.len() == 0 {
        Ok(None)
    } else if available.len() == 1 {
        Ok(Some(worktrees[available[0]].path.clone()))
    } else {
        match workspace.active_entry_root {
            Some(id) => {
                let mut k: usize = 0;
                while k < available.len()
                    invariant
                        k <= available.len(),
                        worktrees@ == workspace.worktrees@,
                        workspace.active_entry_root == Some(id),
                        roots == qualifying(worktrees@),
                        roots.len() > 1,
                        available@.len() == roots.len(),
                        forall|n: int|
                            0 <= n < available@.len() ==> (#[trigger] available@[n])
                                < worktrees.len() && worktrees@[available@[n] as int] == roots[n],
                        forall|n: int| 0 <= n < k ==> (#[trigger] roots[n]).id != id,
                    decreases available.len() - k,
                {
                    let root = &worktrees[available[k]];
                    if root.id == id {
                        proof {
                            lemma_first_root(roots, id, k as int);
                        }
                        return Ok(Some(root.path.clone()));
                    }
                    k = k + 1;
                }
                Err(AmbiguousRootError)
            },
            None => Err(AmbiguousRootError),
        }
    }
}

} // verus!
