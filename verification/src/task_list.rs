//! The ordered task collection and its identifier allocator.

use vstd::prelude::*;

use crate::task::{Task, TaskM, TaskStatus};

verus! {

/// The index of the first task carrying `id`, scanning in list order, or
/// `None` when no task carries it.
pub open spec fn find_id(tasks: Seq<Task>, id: usize) -> Option<int>
    decreases tasks.len(),
{
    if tasks.len() == 0 {
        Option::None
    } else if tasks[0].id == id {
        Option::Some(0int)
    } else {
        match find_id(tasks.subrange(1, tasks.len() as int), id) {
            Option::Some(i) => Option::Some(i + 1),
            Option::None => Option::None,
        }
    }
}

/// `t2` is `t1` with its status replaced by `st` and every other field kept.
pub open spec fn same_but_status(t1: Task, t2: Task, st: TaskStatus) -> bool {
    &&& t2.id == t1.id
    &&& t2.description == t1.description
    &&& t2.created_at == t1.created_at
    &&& t2.completed_at == t1.completed_at
    &&& t2.status == st
}

/// What `find_id` returns: the index it yields is in bounds, carries the
/// requested identifier, and no earlier index does; a `None` means no index
/// carries it.
pub proof fn lemma_find_id_props(tasks: Seq<Task>, id: usize)
    ensures
        find_id(tasks, id) matches Option::Some(i) ==> {
            &&& 0 <= i < tasks.len()
            &&& tasks[i].id == id
            &&& forall|j: int| 0 <= j < i ==> tasks[j].id != id
        },
        find_id(tasks, id) is None ==> forall|j: int|
            0 <= j < tasks.len() ==> tasks[j].id != id,
    decreases tasks.len(),
{
    if tasks.len() != 0 && tasks[0].id != id {
        let rest = tasks.subrange(1, tasks.len() as int);
        lemma_find_id_props(rest, id);
        assert(forall|j: int| 0 <= j < rest.len() ==> rest[j] == tasks[j + 1]);
        if find_id(rest, id) is Some {
            let i = find_id(rest, id).unwrap();
            assert forall|j: int| 0 <= j < i + 1 implies tasks[j].id != id by {
                if j > 0 {
                    assert(rest[j - 1].id != id);
                }
            }
        } else {
            assert forall|j: int| 0 <= j < tasks.len() implies tasks[j].id != id by {
                if j > 0 {
                    assert(rest[j - 1].id != id);
                }
            }
        }
    }
}

/// If `tasks[k]` carries `id` and no earlier index does, the first match is
/// exactly `k`.
pub proof fn lemma_find_id_at(tasks: Seq<Task>, id: usize, k: int)
    requires
        0 <= k < tasks.len(),
        tasks[k].id == id,
        forall|j: int| 0 <= j < k ==> tasks[j].id != id,
    ensures
        find_id(tasks, id) == Option::Some(k),
    decreases tasks.len(),
{
    if k > 0 {
        let rest = tasks.subrange(1, tasks.len() as int);
        assert(forall|j: int| 0 <= j < k - 1 ==> rest[j].id != id);
        lemma_find_id_at(rest, id, k - 1);
    }
}

/// If no index carries `id`, `find_id` yields `None`.
pub proof fn lemma_find_id_none(tasks: Seq<Task>, id: usize)
    requires
        forall|j: int| 0 <= j < tasks.len() ==> tasks[j].id != id,
    ensures
        find_id(tasks, id) is None,
    decreases tasks.len(),
{
    if tasks.len() != 0 {
        lemma_find_id_none(tasks.subrange(1, tasks.len() as int), id);
    }
}

/// An ordered collection of tasks plus the allocator for their identifiers.
/// Insertion order is preserved; `next_id` starts at 1, grows by exactly one
/// per successful `add_task`, and is never decremented or reused.
#[derive(Clone, Debug, PartialEq, Eq)]
pub struct TaskList {
    pub name: String,
    pub tasks: Vec<Task>,
    pub next_id: usize,
}

/// The mathematical value of a [`TaskList`].
pub ghost struct TaskListM {
    pub name: Seq<char>,
    pub tasks: Seq<TaskM>,
    pub next_id: usize,
}

/// The mathematical values of a sequence of tasks.
pub open spec fn task_views(ts: Seq<Task>) -> Seq<TaskM> {
    ts.map_values(|t: Task| t@)
}

impl View for TaskList {
    type V = TaskListM;

    open spec fn view(&self) -> TaskListM {
        TaskListM { name: self.name@, tasks: task_views(self.tasks@), next_id: self.next_id }
    }
}

impl TaskList {
    /// The allocator invariant: every identifier in the list is positive and
    /// strictly below `next_id`, and no two tasks share one. It guarantees
    /// that a freshly allocated identifier is never a repeat, even after
    /// deletions.
    pub open spec fn wf(&self) -> bool {
        &&& self.next_id >= 1
        &&& forall|i: int|
            0 <= i < self.tasks@.len() ==> 1 <= #[trigger] self.tasks@[i].id < self.next_id
        &&& forall|i: int, j: int|
            0 <= i < j < self.tasks@.len() ==> self.tasks@[i].id != self.tasks@[j].id
    }

    /// An empty list with the default display name and the allocator at 1.
    pub fn new() -> (l: TaskList)
        ensures
            l.name@ == "Task List"@,
            l.tasks@.len() == 0,
            l.next_id == 1,
            l.wf(),
    {
        TaskList { name: "Task List".to_owned(), tasks: Vec::new(), next_id: 1 }
    }

    /// Allocates the next identifier, appends a fresh `Pending` task carrying
    /// it at the end, and advances the allocator. Returns the identifier.
    /// Always succeeds; the bound on `next_id` is the machine's, not the
    /// design's.
    pub fn add_task(&mut self, description: String) -> (id: usize)
        requires
            old(self).next_id < usize::MAX,
        ensures
            id == old(self).next_id,
            final(self).next_id == old(self).next_id + 1,
            final(self).name == old(self).name,
            final(self).tasks@.len() == old(self).tasks@.len() + 1,
            final(self).tasks@.subrange(0, old(self).tasks@.len() as int) == old(self).tasks@,
            final(self).tasks@.last().id == id,
            final(self).tasks@.last().description == description,
            final(self).tasks@.last().status == TaskStatus::Pending,
            final(self).tasks@.last().completed_at is None,
            old(self).wf() ==> final(self).wf(),
    {
        let id = self.next_id;
        let t = Task::new(id, description);
        self.tasks.push(t);
        self.next_id = self.next_id + 1;
        proof {
            assert(final(self).tasks@.subrange(0, old(self).tasks@.len() as int) =~= old(
                self,
            ).tasks@);
            if old(self).wf() {
                assert forall|i: int| 0 <= i < self.tasks@.len() implies 1 <= #[trigger] self.tasks@[i].id
                    < self.next_id by {
                    if i < old(self).tasks@.len() {
                        assert(self.tasks@[i] == old(self).tasks@[i]);
                    }
                }
            }
        }
        id
    }

    /// Marks the first task carrying `id` completed and reports whether one
    /// was found; on a miss the list is left exactly as it was.
    pub fn complete_task(&mut self, id: usize) -> (r: bool)
        ensures
            r == (find_id(old(self).tasks@, id) is Some),
            final(self).name == old(self).name,
            final(self).next_id == old(self).next_id,
            !r ==> final(self).tasks@ == old(self).tasks@,
            find_id(old(self).tasks@, id) matches Option::Some(i) ==> {
                &&& final(self).tasks@.len() == old(self).tasks@.len()
                &&& same_but_status(old(self).tasks@[i], final(self).tasks@[i],
                    TaskStatus::Completed)
                &&& forall|j: int|
                    0 <= j < old(self).tasks@.len() && j != i ==> final(self).tasks@[j] == old(
                        self,
                    ).tasks@[j]
            },
            old(self).wf() ==> final(self).wf(),
    {
        let n = self.tasks.len();
        let mut k: usize = 0;
        while k < n
            invariant
                n == self.tasks@.len(),
                k <= n,
                *self == *old(self),
                forall|j: int| 0 <= j < k ==> self.tasks@[j].id != id,
            decreases n - k,
        {
            if self.tasks[k].id() == id {
                proof {
                    lemma_find_id_at(self.tasks@, id, k as int);
                }
                self.tasks[k].complete();
                return true;
            }
            k = k + 1;
        }
        proof {
            lemma_find_id_none(self.tasks@, id);
        }
        false
    }

    /// Marks the first task carrying `id` suspended and reports whether one
    /// was found; on a miss the list is left exactly as it was.
    pub fn suspend_task(&mut self, id: usize) -> (r: bool)
        ensures
            r == (find_id(old(self).tasks@, id) is Some),
            final(self).name == old(self).name,
            final(self).next_id == old(self).next_id,
            !r ==> final(self).tasks@ == old(self).tasks@,
            find_id(old(self).tasks@, id) matches Option::Some(i) ==> {
                &&& final(self).tasks@.len() == old(self).tasks@.len()
                &&& same_but_status(old(self).tasks@[i], final(self).tasks@[i],
                    TaskStatus::Suspended)
                &&& forall|j: int|
                    0 <= j < old(self).tasks@.len() && j != i ==> final(self).tasks@[j] == old(
                        self,
                    ).tasks@[j]
            },
            old(self).wf() ==> final(self).wf(),
    {
        let n = self.tasks.len();
        let mut k: usize = 0;
        while k < n
            invariant
                n == self.tasks@.len(),
                k <= n,
                *self == *old(self),
                forall|j: int| 0 <= j < k ==> self.tasks@[j].id != id,
            decreases n - k,
        {
            if self.tasks[k].id() == id {
                proof {
                    lemma_find_id_at(self.tasks@, id, k as int);
                }
                self.tasks[k].suspend();
                return true;
            }
            k = k + 1;
        }
        proof {
            lemma_find_id_none(self.tasks@, id);
        }
        false
    }

    /// Removes the first task carrying `id` and reports whether one was
    /// found. All later tasks shift down one place, keeping their relative
    /// order; the allocator is unaffected. On a miss the list is left exactly
    /// as it was.
    #[verifier::rlimit(100)]
    pub fn delete_task(&mut self, id: usize) -> (r: bool)
        ensures
            r == (find_id(old(self).tasks@, id) is Some),
            final(self).name == old(self).name,
            final(self).next_id == old(self).next_id,
            !r ==> final(self).tasks@ == old(self).tasks@,
            find_id(old(self).tasks@, id) matches Option::Some(i) ==> final(self).tasks@ == old(
                self,
            ).tasks@.remove(i),
            old(self).wf() ==> final(self).wf(),
    {
        let n = self.tasks.len();
        let mut k: usize = 0;
        while k < n
            invariant
                n == self.tasks@.len(),
                k <= n,
                *self == *old(self),
                forall|j: int| 0 <= j < k ==> self.tasks@[j].id != id,
            decreases n - k,
        {
            if self.tasks[k].id() == id {
                proof {
                    lemma_find_id_at(self.tasks@, id, k as int);
                }
                self.tasks.remove(k);
                proof {
                    if old(self).wf() {
                        assert forall|i: int, j: int|
                            0 <= i < j < self.tasks@.len() implies self.tasks@[i].id
                            != self.tasks@[j].id by {
                            assert(self.tasks@[i] == if i < k {
                                old(self).tasks@[i]
                            } else {
                                old(self).tasks@[i + 1]
                            });
                            assert(self.tasks@[j] == if j < k {
                                old(self).tasks@[j]
                            } else {
                                old(self).tasks@[j + 1]
                            });
                        }
                    }
                }
                return true;
            }
            k = k + 1;
        }
        proof {
            lemma_find_id_none(self.tasks@, id);
        }
        false
    }

    /// The current tasks, in insertion order minus deletions.
    pub fn get_tasks(&self) -> (r: &Vec<Task>)
        ensures
            r == &self.tasks,
            r@ == self.tasks@,
    {
        &self.tasks
    }
}

/// Law: a freshly allocated identifier is never a repeat. In a well-formed
/// list the allocator's `next_id` — the identifier the next `add_task` will
/// return — differs from every identifier currently in the list, however many
/// additions and deletions produced it.
pub proof fn lemma_next_id_is_fresh(l: TaskList)
    requires
        l.wf(),
    ensures
        forall|i: int| 0 <= i < l.tasks@.len() ==> l.tasks@[i].id != l.next_id,
{
}

/// Law: removing the element at `i` removes exactly that element and keeps
/// the relative order of all the others.
pub proof fn lemma_remove_keeps_order(tasks: Seq<Task>, i: int)
    requires
        0 <= i < tasks.len(),
    ensures
        tasks.remove(i).len() == tasks.len() - 1,
        forall|j: int| 0 <= j < i ==> tasks.remove(i)[j] == tasks[j],
        forall|j: int| i <= j < tasks.len() - 1 ==> tasks.remove(i)[j] == tasks[j + 1],
{
}

} // verus!
