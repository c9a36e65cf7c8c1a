//! The inventory: the registered task sources, and the task that was
//! scheduled last with the context it ran with.

use std::sync::Arc;
use vstd::prelude::*;
use crate::context::TaskContext;
use crate::task::{
    language_view, may_list, may_name, share, Task, TaskSource, TaskSourceKind,
    TaskSourceKindView,
};
use crate::workspace::WorktreeId;

verus! {

/// A listing in contracts: each task with the kind of the source it came
/// from.
pub type Listing<T> = Seq<(TaskSourceKindView, Arc<T>)>;

/// What a list of tagged tasks says.
pub open spec fn listing_of<T>(tasks: Seq<(TaskSourceKind, Arc<T>)>) -> Listing<T> {
    tasks.map_values(|entry: (TaskSourceKind, Arc<T>)| (entry.0@, entry.1))
}

/// What a list of answers says.
pub open spec fn answers_of<T>(answers: Seq<Vec<Arc<T>>>) -> Seq<Seq<Arc<T>>> {
    answers.map_values(|answer: Vec<Arc<T>>| answer@)
}

/// What a list of strings says.
pub open spec fn texts_of(texts: Seq<String>) -> Seq<Seq<char>> {
    texts.map_values(|text: String| text@)
}

/// The tasks of one answer, each under the kind of the source that gave it.
pub open spec fn under<T>(kind: TaskSourceKindView, answer: Seq<Arc<T>>) -> Listing<T> {
    answer.map_values(|task: Arc<T>| (kind, task))
}

/// The tasks of the first `n` answers, each under the kind at the answer's
/// place: source after source, and within a source in the order of its
/// answer.
pub open spec fn tagged<T>(
    kinds: Seq<TaskSourceKindView>,
    answers: Seq<Seq<Arc<T>>>,
    n: nat,
) -> Listing<T>
    decreases n,
{
    if n == 0 {
        Seq::empty()
    } else {
        tagged(kinds, answers, (n - 1) as nat) + under(kinds[n - 1], answers[n - 1])
    }
}

/// The listing of the first `n` answers does not depend on what comes
/// behind them.
proof fn lemma_tagged_prefix<T>(
    kinds: Seq<TaskSourceKindView>,
    answers: Seq<Seq<Arc<T>>>,
    kind: TaskSourceKindView,
    answer: Seq<Arc<T>>,
    n: nat,
)
    requires
        n <= kinds.len(),
        n <= answers.len(),
    ensures
        tagged(kinds.push(kind), answers.push(answer), n) == tagged(kinds, answers, n),
    decreases n,
{
    if n > 0 {
        lemma_tagged_prefix(kinds, answers, kind, answer, (n - 1) as nat);
    }
}

/// A source that is registered behind the others has its tasks listed
/// behind theirs, and the others are listed as before.
pub proof fn lemma_tagged_push<T>(
    kinds: Seq<TaskSourceKindView>,
    answers: Seq<Seq<Arc<T>>>,
    kind: TaskSourceKindView,
    answer: Seq<Arc<T>>,
)
    requires
        kinds.len() == answers.len(),
    ensures
        tagged(kinds.push(kind), answers.push(answer), answers.len() + 1) == tagged(
            kinds,
            answers,
            answers.len(),
        ) + under(kind, answer),
{
    lemma_tagged_prefix(kinds, answers, kind, answer, answers.len());
}

/// Of the first `n` entries, those whose name is `wanted`, in their order.
pub open spec fn kept<T>(
    listing: Listing<T>,
    names: Seq<Seq<char>>,
    wanted: Seq<char>,
    n: nat,
) -> Listing<T>
    decreases n,
{
    if n == 0 {
        Seq::empty()
    } else if names[n - 1] == wanted {
        kept(listing, names, wanted, (n - 1) as nat).push(listing[n - 1])
    } else {
        kept(listing, names, wanted, (n - 1) as nat)
    }
}

/// The smaller of two lengths.
pub open spec fn shorter(a: nat, b: nat) -> nat {
    if a <= b {
        a
    } else {
        b
    }
}

/// Each name is what the task at its place may call itself.
pub open spec fn may_name_all<T: Task>(listing: Listing<T>, names: Seq<Seq<char>>) -> bool {
    &&& names.len() == listing.len()
    &&& forall|i: int| 0 <= i < listing.len() ==> may_name(&*listing[i].1, #[trigger] names[i])
}

/// The registered sources, and the task that was scheduled last.
pub struct Inventory<S: TaskSource> {
    sources: Vec<(TaskSourceKind, S)>,
    last_scheduled: Option<(Arc<S::Task>, TaskContext)>,
}

impl<S: TaskSource> Inventory<S> {
    /// The registered sources with their kinds, in the order in which they
    /// were registered.
    pub closed spec fn sources(&self) -> Seq<(TaskSourceKind, S)> {
        self.sources@
    }

    /// The kinds of the registered sources, in the order of registration.
    pub open spec fn kinds(&self) -> Seq<TaskSourceKindView> {
        self.sources().map_values(|entry: (TaskSourceKind, S)| entry.0@)
    }

    /// The task that was scheduled last and the context it was scheduled
    /// with.
    pub closed spec fn last_scheduled(&self) -> Option<(Arc<S::Task>, TaskContext)> {
        self.last_scheduled
    }

    /// Each answer is what the source at its place may list.
    pub open spec fn may_answer(
        &self,
        language: Option<Seq<char>>,
        worktree: Option<WorktreeId>,
        answers: Seq<Seq<Arc<S::Task>>>,
    ) -> bool {
        &&& answers.len() == self.sources().len()
        &&& forall|i: int|
            0 <= i < answers.len() ==> may_list(
                &self.sources()[i].1,
                language,
                worktree,
                #[trigger] answers[i],
            )
    }

    /// `listing` is what may be picked from `all`: all of it, or with
    /// `used_only` the tasks that go by a name of the task that was
    /// scheduled last, and none where no task was scheduled yet.
    pub open spec fn may_pick(
        &self,
        used_only: bool,
        all: Listing<S::Task>,
        listing: Listing<S::Task>,
    ) -> bool {
        if used_only {
            match self.last_scheduled() {
                Some((task, _)) => exists|names: Seq<Seq<char>>, wanted: Seq<char>|
                    may_name(&*task, wanted) && may_name_all(all, names) && listing
                        == #[trigger] kept(all, names, wanted, all.len()),
                None => listing == Seq::<(TaskSourceKindView, Arc<S::Task>)>::empty(),
            }
        } else {
            listing == all
        }
    }

    /// `listing` is a listing for the language and the project root that
    /// the sources and the tasks may have answered for.
    pub open spec fn may_list_tasks(
        &self,
        language: Option<Seq<char>>,
        worktree: Option<WorktreeId>,
        used_only: bool,
        listing: Listing<S::Task>,
    ) -> bool {
        exists|answers: Seq<Seq<Arc<S::Task>>>|
            #[trigger] self.may_answer(language, worktree, answers) && self.may_pick(
                used_only,
                tagged(self.kinds(), answers, answers.len()),
                listing,
            )
    }

    /// An inventory without sources and without history.
    pub fn new() -> (inventory: Self)
        ensures
            inventory.sources() == Seq::<(TaskSourceKind, S)>::empty(),
            inventory.last_scheduled() is None,
    {
        Inventory { sources: Vec::new(), last_scheduled: None }
    }

    /// Registers `source` behind the sources that are registered already.
    pub fn add_source(&mut self, kind: TaskSourceKind, source: S)
        ensures
            final(self).sources() == old(self).sources().push((kind, source)),
            final(self).last_scheduled() == old(self).last_scheduled(),
    {
        self.sources.push((kind, source));
    }

    /// Records that `task` was scheduled with `task_context`; what was
    /// recorded before is gone.
    pub fn task_scheduled(&mut self, task: Arc<S::Task>, task_context: TaskContext)
        ensures
            final(self).last_scheduled() == Some((task, task_context)),
            final(self).sources() == old(self).sources(),
    {
        self.last_scheduled = Some((task, task_context));
    }

    /// The task that was scheduled last, with a copy of its context.
    pub fn last_scheduled_task(&self) -> (last: Option<(Arc<S::Task>, TaskContext)>)
        ensures
            match last {
                Some((task, context)) => self.last_scheduled() matches Some((recorded, with))
                    && task == recorded && context@ == with@,
                None => self.last_scheduled() is None,
            },
    {
        match &self.last_scheduled {
            Some((task, context)) => Some((share(task), context.clone())),
            None => None,
        }
    }

    /// Asks every source for its tasks, in the order of registration.
    pub fn ask_sources(
        &self,
        language: Option<&String>,
        worktree: Option<WorktreeId>,
    ) -> (answers: Vec<Vec<Arc<S::Task>>>)
        ensures
            self.may_answer(language_view(language), worktree, answers_of(answers@)),
    {
        let mut answers: Vec<Vec<Arc<S::Task>>> = Vec::new();
        let mut i: usize = 0;
        while i < self.sources.len()
            invariant
                i <= self.sources.len(),
                answers@.len() == i,
                forall|j: int|
                    0 <= j < i ==> may_list(
                        &self.sources()[j].1,
                        language_view(language),
                        worktree,
                        (#[trigger] answers@[j])@,
                    ),
            decreases self.sources.len() - i,
        {
            let answer = self.sources[i].1.list_tasks(language, worktree);
            answers.push(answer);
            i = i + 1;
        }
        assert forall|j: int| 0 <= j < answers@.len() implies may_list(
            &self.sources()[j].1,
            language_view(language),
            worktree,
            #[trigger] answers_of(answers@)[j],
        ) by {
            assert(answers_of(answers@)[j] == answers@[j]@);
        }
        answers
    }

    /// Puts the answers of the sources into one listing: the tasks of each
    /// answer under the kind of the source at the answer's place, source
    /// after source. Answers beyond the last source are left out.
    pub fn tag(
        &self,
        answers: &Vec<Vec<Arc<S::Task>>>,
    ) -> (tasks: Vec<(TaskSourceKind, Arc<S::Task>)>)
        ensures
            listing_of(tasks@) == tagged(
                self.kinds(),
                answers_of(answers@),
                shorter(self.sources().len(), answers@.len()),
            ),
    {
        let mut tasks: Vec<(TaskSourceKind, Arc<S::Task>)> = Vec::new();
        let mut i: usize = 0;
        let ghost kinds = self.kinds();
        let ghost given = answers_of(answers@);
        while i < self.sources.len() && i < answers.len()
            invariant
                i <= self.sources.len(),
                i <= answers.len(),
                kinds == self.kinds(),
                given == answers_of(answers@),
                listing_of(tasks@) == tagged(kinds, given, i as nat),
            decreases self.sources.len() - i,
        {
            let answer = &answers[i];
            let ghost before = listing_of(tasks@);
            let ghost kind_view = kinds[i as int];
            let mut k: usize = 0;
            while k < answer.len()
                invariant
                    i < self.sources.len(),
                    k <= answer.len(),
                    kind_view == self.sources()[i as int].0@,
                    listing_of(tasks@) == before + under(kind_view, answer@.take(k as int)),
                decreases answer.len() - k,
            {
                let kind = self.sources[i].0.clone();
                let task = share(&answer[k]);
                let ghost listed = listing_of(tasks@);
                tasks.push((kind, task));
                assert(listing_of(tasks@) =~= listed.push((kind_view, answer@[k as int])));
                k = k + 1;
            }
            i = i + 1;
        }
        tasks
    }

    /// Lists the tasks of all sources for the language and the project
    /// root: source after source in the order of registration, and within a
    /// source in the source's own order. With `used_only`, only the tasks
    /// that go by the name of the task that was scheduled last.
    pub fn list_tasks(
        &self,
        language: Option<&String>,
        worktree: Option<WorktreeId>,
        used_only: bool,
    ) -> (tasks: Vec<(TaskSourceKind, Arc<S::Task>)>)
        ensures
            self.may_list_tasks(language_view(language), worktree, used_only, listing_of(tasks@)),
    {
        let answers = self.ask_sources(language, worktree);
        let all = self.tag(&answers);
        if !used_only {
            return all;
        }
        match &self.last_scheduled {
            Some((task, _)) => {
                let wanted = task.name();
                let names = task_names(&all);
                keep_named(&all, &names, &wanted)
            },
            None => {
                let none: Vec<(TaskSourceKind, Arc<S::Task>)> = Vec::new();
                assert(listing_of(none@) =~= Seq::<(TaskSourceKindView, Arc<S::Task>)>::empty());
                none
            },
        }
    }
}

/// Asks every listed task for its name.
pub fn task_names<T: Task>(tasks: &Vec<(TaskSourceKind, Arc<T>)>) -> (names: Vec<String>)
    ensures
        may_name_all(listing_of(tasks@), texts_of(names@)),
{
    let mut names: Vec<String> = Vec::new();
    let mut i: usize = 0;
    while i < tasks.len()
        invariant
            i <= tasks.len(),
            names@.len() == i,
            forall|j: int| 0 <= j < i ==> may_name(&*tasks@[j].1, (#[trigger] names@[j])@),
        decreases tasks.len() - i,
    {
        let name = tasks[i].1.name();
        names.push(name);
        i = i + 1;
    }
    assert forall|j: int| 0 <= j < tasks@.len() implies may_name(
        &*listing_of(tasks@)[j].1,
        #[trigger] texts_of(names@)[j],
    ) by {
        assert(texts_of(names@)[j] == names@[j]@);
    }
    names
}

/// Of the listed tasks, those whose name in `names` is `wanted`, in their
/// order. Tasks beyond the last name are left out.
pub fn keep_named<T>(
    tasks: &Vec<(TaskSourceKind, Arc<T>)>,
    names: &Vec<String>,
    wanted: &String,
) -> (found: Vec<(TaskSourceKind, Arc<T>)>)
    ensures
        listing_of(found@) == kept(
            listing_of(tasks@),
            texts_of(names@),
            wanted@,
            shorter(tasks@.len(), names@.len()),
        ),
{
    let mut found: Vec<(TaskSourceKind, Arc<T>)> = Vec::new();
    let mut i: usize = 0;
    while i < tasks.len() && i < names.len()
        invariant
            i <= tasks.len(),
            i <= names.len(),
            listing_of(found@) == kept(listing_of(tasks@), texts_of(names@), wanted@, i as nat),
        decreases tasks.len() - i,
    {
        if names[i] == *wanted {
            let kind = tasks[i].0.clone();
            let task = share(&tasks[i].1);
            found.push((kind, task));
        }
        i = i + 1;
    }
    found
}

} // verus!
