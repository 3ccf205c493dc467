//! The task store: the tasks that exist, in the order in which they were
//! created, each under its own identifier.

use vstd::prelude::*;
use crate::assignees::{has_rows_for, rows_without_task, AssigneeRegistry};
use crate::error::EngineError;
use crate::models::tasks::{task_views, CreateTaskRequest, GetTasksQuery, Task, TaskView, UpdateTaskRequest};
use crate::order::{
    count_wanted, is_ordered_selection, ordered_selection, page_bounds, spec_page_bounds,
};
use crate::status::{spec_completion_after, TaskStatus, TransitionPolicy, Urgency};
use crate::text::opt_text_is;

verus! {

/// Whether some task of the list has the identifier `id`.
pub open spec fn has_task(tasks: Seq<TaskView>, id: Seq<char>) -> bool {
    exists|i: int| 0 <= i < tasks.len() && (#[trigger] tasks[i]).id == id
}

/// The place of the task with identifier `id`, where there is one.
pub open spec fn position_of(tasks: Seq<TaskView>, id: Seq<char>) -> int {
    choose|i: int| 0 <= i < tasks.len() && (#[trigger] tasks[i]).id == id
}

/// The task with identifier `id`, where there is one.
pub open spec fn task_of(tasks: Seq<TaskView>, id: Seq<char>) -> TaskView {
    tasks[position_of(tasks, id)]
}

/// No two tasks of the list share an identifier.
pub open spec fn ids_unique(tasks: Seq<TaskView>) -> bool {
    forall|i: int, j: int|
        0 <= i < j < tasks.len() ==> (#[trigger] tasks[i]).id != (#[trigger] tasks[j]).id
}

/// The invariant of the store: identifiers are unique and every task is
/// well-formed.
pub open spec fn store_wf(tasks: Seq<TaskView>) -> bool {
    &&& ids_unique(tasks)
    &&& forall|i: int| 0 <= i < tasks.len() ==> (#[trigger] tasks[i]).wf()
}

/// Where identifiers are unique, the place of a task is the one place that
/// holds its identifier.
pub proof fn position_is_unique(tasks: Seq<TaskView>, id: Seq<char>, i: int)
    requires
        ids_unique(tasks),
        0 <= i < tasks.len(),
        tasks[i].id == id,
    ensures
        has_task(tasks, id),
        position_of(tasks, id) == i,
{
    let p = position_of(tasks, id);
    if p < i {
        assert(tasks[p].id != tasks[i].id);
    } else if i < p {
        assert(tasks[i].id != tasks[p].id);
    }
}

/// The deadline of each task as an ordering key.
pub open spec fn deadline_keys(tasks: Seq<TaskView>) -> Seq<u64> {
    Seq::new(tasks.len(), |i: int| tasks[i].deadline.spec_key() as u64)
}

/// For each task, whether it passes the query.
pub open spec fn passing(tasks: Seq<TaskView>, q: GetTasksQuery) -> Seq<bool> {
    Seq::new(tasks.len(), |i: int| q.spec_matches(tasks[i]))
}

/// The tasks at the places picked, in the order picked.
pub open spec fn tasks_at(tasks: Seq<TaskView>, picked: Seq<usize>) -> Seq<TaskView> {
    Seq::new(picked.len(), |k: int| tasks[picked[k] as int])
}

/// The page of a listing that `limit` and `offset` cut out.
pub open spec fn page_of<T>(listing: Seq<T>, limit: int, offset: int) -> Seq<T> {
    let bounds = spec_page_bounds(listing.len() as int, limit, offset);
    listing.subrange(bounds.0, bounds.1)
}

/// `result` holds the tasks at the wanted places in ascending order of key
/// (tasks with the same key in the order of their creation), cut to the page
/// that `limit` and `offset` name.
pub open spec fn is_selected_page(
    result: Seq<TaskView>,
    tasks: Seq<TaskView>,
    keys: Seq<u64>,
    wanted: Seq<bool>,
    limit: int,
    offset: int,
) -> bool {
    exists|picked: Seq<usize>| #[trigger]
        is_ordered_selection(picked, keys, wanted) && result == page_of(
            tasks_at(tasks, picked),
            limit,
            offset,
        )
}

/// `result` holds the tasks at the wanted places in ascending order of key
/// (tasks with the same key in the order of their creation).
pub open spec fn is_selection(
    result: Seq<TaskView>,
    tasks: Seq<TaskView>,
    keys: Seq<u64>,
    wanted: Seq<bool>,
) -> bool {
    exists|picked: Seq<usize>| #[trigger]
        is_ordered_selection(picked, keys, wanted) && result == tasks_at(tasks, picked)
}

/// `result` is the answer to the query `q` on `tasks`: the tasks that pass,
/// by ascending deadline (tasks with the same deadline in the order of their
/// creation), cut to the page asked for.
pub open spec fn is_listing(result: Seq<TaskView>, tasks: Seq<TaskView>, q: GetTasksQuery) -> bool {
    exists|picked: Seq<usize>| #[trigger]
        is_ordered_selection(picked, deadline_keys(tasks), passing(tasks, q)) && result == page_of(
            tasks_at(tasks, picked),
            q.spec_limit(),
            q.spec_offset(),
        )
}

/// For each task, whether it belongs to the project `project`.
pub open spec fn of_project(tasks: Seq<TaskView>, project: Seq<char>) -> Seq<bool> {
    Seq::new(tasks.len(), |i: int| tasks[i].project_id == Some(project))
}

/// The key that orders the tasks of a project: tasks whose completion flag
/// is not set come first, and among tasks with the same flag the earlier
/// deadline.
pub open spec fn project_keys(tasks: Seq<TaskView>) -> Seq<u64> {
    Seq::new(
        tasks.len(),
        |i: int|
            ((if tasks[i].is_completed {
                1_000_000_000int
            } else {
                0int
            }) + tasks[i].deadline.spec_key()) as u64,
    )
}

/// `result` lists the tasks of the project `project`: those whose
/// completion flag is not set before the others, by ascending deadline
/// within each group, tasks with the same deadline in the order of their
/// creation.
pub open spec fn is_project_listing(
    result: Seq<TaskView>,
    tasks: Seq<TaskView>,
    project: Seq<char>,
) -> bool {
    exists|picked: Seq<usize>| #[trigger]
        is_ordered_selection(picked, project_keys(tasks), of_project(tasks, project)) && result
            == tasks_at(tasks, picked)
}

/// For each task, whether it is pending.
pub open spec fn pending_flags(tasks: Seq<TaskView>) -> Seq<bool> {
    Seq::new(tasks.len(), |i: int| tasks[i].status == TaskStatus::Pending)
}

/// For each task, whether it is urgent and not completed.
pub open spec fn open_urgent_flags(tasks: Seq<TaskView>) -> Seq<bool> {
    Seq::new(
        tasks.len(),
        |i: int| tasks[i].urgency == Urgency::Urgent && tasks[i].status != TaskStatus::Completed,
    )
}

/// For each task, whether it is done (its status is `completed` or its
/// completion flag is set) and was last updated at `since` or later.
pub open spec fn done_since_flags(tasks: Seq<TaskView>, since: u64) -> Seq<bool> {
    Seq::new(
        tasks.len(),
        |i: int|
            (tasks[i].status == TaskStatus::Completed || tasks[i].is_completed) && (
            tasks[i].updated_at matches Some(at) && at >= since),
    )
}

/// How many tasks are pending, how many are urgent and not completed, and
/// how many were done lately.
#[derive(Clone, Copy, Debug, PartialEq, Eq)]
pub struct TaskCounts {
    pub pending: usize,
    pub open_urgent: usize,
    pub done_lately: usize,
}

/// Why an update is refused, if it is. A request that names no field is
/// refused with `Validation`, whether or not the task exists. Else, where no
/// task has the identifier, the answer is `NotFound`. Else a request that
/// holds a value that cannot be applied (an empty title, an unknown urgency
/// or status, a deadline that is no date), or that writes a status that the
/// policy does not permit, is refused with `Validation`.
pub open spec fn update_refusal(
    tasks: Seq<TaskView>,
    id: Seq<char>,
    patch: UpdateTaskRequest,
    policy: TransitionPolicy,
) -> Option<EngineError> {
    if patch.spec_is_empty() {
        Some(EngineError::Validation)
    } else if !has_task(tasks, id) {
        Some(EngineError::NotFound)
    } else if !patch.spec_valid() {
        Some(EngineError::Validation)
    } else {
        match patch.spec_new_status() {
            Some(next) => if policy.spec_permits(task_of(tasks, id).status, next) {
                None
            } else {
                Some(EngineError::Validation)
            },
            None => None,
        }
    }
}

/// The task after its status is written at time `now`: the new status, `now`
/// as the update timestamp, and the completion timestamp that follows from
/// the old and the new status (set to `now` on entering `completed`, kept on
/// a write of `completed` to a completed task, unset otherwise).
pub open spec fn with_status(t: TaskView, next: TaskStatus, now: u64) -> TaskView {
    TaskView {
        status: next,
        completed_at: spec_completion_after(t.status, t.completed_at, next, now),
        updated_at: Some(now),
        ..t
    }
}

/// Why a status write is refused, if it is: no task has the identifier; or
/// the text names no status; or the policy does not permit the transition.
pub open spec fn status_refusal(
    tasks: Seq<TaskView>,
    id: Seq<char>,
    status: Seq<char>,
    policy: TransitionPolicy,
) -> Option<EngineError> {
    if !has_task(tasks, id) {
        Some(EngineError::NotFound)
    } else {
        match TaskStatus::spec_parse(status) {
            Some(next) => if policy.spec_permits(task_of(tasks, id).status, next) {
                None
            } else {
                Some(EngineError::Validation)
            },
            None => Some(EngineError::Validation),
        }
    }
}

/// The tasks that exist.
pub struct TaskStore {
    tasks: Vec<Task>,
}

impl View for TaskStore {
    type V = Seq<TaskView>;

    closed spec fn view(&self) -> Seq<TaskView> {
        task_views(self.tasks@)
    }
}

impl TaskStore {
    /// The invariant of the store.
    pub open spec fn wf(&self) -> bool {
        store_wf(self@)
    }

    /// An empty store.
    pub fn new() -> (store: TaskStore)
        ensures
            store@ == Seq::<TaskView>::empty(),
            store.wf(),
    {
        let store = TaskStore { tasks: Vec::new() };
        assert(store@ =~= Seq::<TaskView>::empty());
        store
    }

    /// The number of tasks.
    pub fn len(&self) -> (n: usize)
        ensures
            n == self@.len(),
    {
        self.tasks.len()
    }

    /// The place of the task with identifier `id`, if there is one.
    fn find(&self, id: &String) -> (r: Option<usize>)
        requires
            self.wf(),
        ensures
            r.is_some() == has_task(self@, id@),
            r matches Some(i) ==> i < self.tasks.len() && i == position_of(self@, id@)
                && self.tasks[i as int]@ == task_of(self@, id@),
    {
        let mut i: usize = 0;
        while i < self.tasks.len()
            invariant
                i <= self.tasks.len(),
                self.wf(),
                forall|k: int| 0 <= k < i ==> (#[trigger] self@[k]).id != id@,
            decreases self.tasks.len() - i,
        {
            if self.tasks[i].id == *id {
                proof {
                    assert(self@[i as int].id == id@);
                    position_is_unique(self@, id@, i as int);
                }
                return Some(i);
            }
            i += 1;
        }
        None
    }

    /// Whether a task has the identifier `id`.
    pub fn contains(&self, id: &String) -> (found: bool)
        requires
            self.wf(),
        ensures
            found == has_task(self@, id@),
    {
        self.find(id).is_some()
    }

    /// The task with identifier `id`; `NotFound` where there is none.
    pub fn get(&self, id: &String) -> (r: Result<Task, EngineError>)
        requires
            self.wf(),
        ensures
            r.is_ok() == has_task(self@, id@),
            r matches Ok(t) ==> t@ == task_of(self@, id@) && t@.id == id@ && t@.wf(),
            r matches Err(e) ==> e == EngineError::NotFound,
    {
        match self.find(id) {
            Some(i) => Ok(self.tasks[i].duplicate()),
            None => Err(EngineError::NotFound),
        }
    }

    /// Creates the task of `req` under the identifier `id`: pending, not
    /// completed, created by `created_by` at `now`, after all other tasks.
    ///
    /// A request that is not valid is refused with `Validation`. An
    /// identifier that a task already has is refused with `Storage`. A
    /// refusal changes nothing.
    pub fn create(&mut self, id: String, req: &CreateTaskRequest, created_by: &String, now: u64) -> (r:
        Result<Task, EngineError>)
        requires
            old(self).wf(),
        ensures
            final(self).wf(),
            r.is_ok() == (req.spec_valid() && !has_task(old(self)@, id@)),
            r matches Ok(t) ==> t@ == req.spec_task(id@, created_by@, now) && final(self)@ == old(self)@.push(t@),
            r matches Err(e) ==> final(self)@ == old(self)@ && e == (if req.spec_valid() {
                EngineError::Storage { applied: false }
            } else {
                EngineError::Validation
            }),
    {
        if self.find(&id).is_some() {
            if req.to_task(id, created_by, now).is_some() {
                return Err(EngineError::Storage { applied: false });
            } else {
                return Err(EngineError::Validation);
            }
        }
        let ghost id_view = id@;
        match req.to_task(id, created_by, now) {
            None => Err(EngineError::Validation),
            Some(task) => {
                let copy = task.duplicate();
                let ghost before = self@;
                self.tasks.push(task);
                proof {
                    assert(self@ =~= before.push(copy@));
                    assert forall|i: int, j: int| 0 <= i < j < self@.len() implies (
                    #[trigger] self@[i]).id != (#[trigger] self@[j]).id by {
                        if j == before.len() {
                            assert(before[i].id != id_view);
                        } else {
                            assert(self@[i] == before[i] && self@[j] == before[j]);
                        }
                    }
                    assert forall|i: int| 0 <= i < self@.len() implies (#[trigger] self@[i]).wf() by {
                        if i < before.len() {
                            assert(self@[i] == before[i]);
                        }
                    }
                }
                Ok(copy)
            },
        }
    }

    /// Stores a task as it is, after all other tasks. A task that does not
    /// meet the invariant of a stored task is refused with `Validation`, an
    /// identifier that a task already has with `Storage`. A refusal changes
    /// nothing.
    pub fn insert(&mut self, task: Task) -> (r: Result<(), EngineError>)
        requires
            old(self).wf(),
        ensures
            final(self).wf(),
            r.is_ok() == (task@.wf() && !has_task(old(self)@, task@.id)),
            r is Ok ==> final(self)@ == old(self)@.push(task@),
            r matches Err(e) ==> final(self)@ == old(self)@ && e == (if task@.wf() {
                EngineError::Storage { applied: false }
            } else {
                EngineError::Validation
            }),
    {
        if !task.is_well_formed() {
            return Err(EngineError::Validation);
        }
        if self.find(&task.id).is_some() {
            return Err(EngineError::Storage { applied: false });
        }
        let ghost before = self@;
        let ghost added = task@;
        self.tasks.push(task);
        proof {
            assert(self@ =~= before.push(added));
            assert forall|i: int, j: int| 0 <= i < j < self@.len() implies (#[trigger] self@[i]).id
                != (#[trigger] self@[j]).id by {
                if j == before.len() {
                    assert(before[i].id != added.id);
                } else {
                    assert(self@[i] == before[i] && self@[j] == before[j]);
                }
            }
            assert forall|i: int| 0 <= i < self@.len() implies (#[trigger] self@[i]).wf() by {
                if i < before.len() {
                    assert(self@[i] == before[i]);
                }
            }
        }
        Ok(())
    }

    /// Applies the change request `patch` to the task with identifier `id` at
    /// time `now` and returns the task as it then is.
    ///
    /// `update_refusal` says when the request is refused and with what; a
    /// refusal changes nothing.
    pub fn update(
        &mut self,
        id: &String,
        patch: &UpdateTaskRequest,
        policy: TransitionPolicy,
        now: u64,
    ) -> (r: Result<Task, EngineError>)
        requires
            old(self).wf(),
        ensures
            final(self).wf(),
            match r {
                Ok(t) => update_refusal(old(self)@, id@, *patch, policy).is_none() && t@
                    == patch.spec_apply(task_of(old(self)@, id@), now) && final(self)@ == old(self)@.update(position_of(old(self)@, id@), t@),
                Err(e) => update_refusal(old(self)@, id@, *patch, policy) == Some(e) && final(self)@ == old(self)@,
            },
    {
        if patch.is_empty() {
            return Err(EngineError::Validation);
        }
        let i = match self.find(id) {
            Some(i) => i,
            None => { return Err(EngineError::NotFound); },
        };
        if !patch.is_valid() {
            return Err(EngineError::Validation);
        }
        if let Some(s) = &patch.status {
            match TaskStatus::parse(s) {
                Some(next) => {
                    if !policy.permits(self.tasks[i].status, next) {
                        return Err(EngineError::Validation);
                    }
                },
                None => {},
            }
        }
        let ghost before = self@;
        let mut task = self.tasks[i].duplicate();
        let _ = task.apply(patch, now);
        let copy = task.duplicate();
        self.tasks.set(i, task);
        proof {
            crate::models::tasks::apply_preserves_wf(*patch, before[i as int], now);
            assert(self@ =~= before.update(i as int, copy@));
            assert forall|a: int, b: int| 0 <= a < b < self@.len() implies (#[trigger] self@[a]).id
                != (#[trigger] self@[b]).id by {
                assert(self@[a].id == before[a].id);
                assert(self@[b].id == before[b].id);
            }
            assert forall|a: int| 0 <= a < self@.len() implies (#[trigger] self@[a]).wf() by {
                if a != i {
                    assert(self@[a] == before[a]);
                }
            }
        }
        Ok(copy)
    }

    /// Writes the status named by `status` to the task with identifier `id`
    /// at time `now`, with the completion timestamp that follows from the old
    /// and the new status (see `with_status`), and
    /// returns the status that the task had and the one it has now.
    ///
    /// `status_refusal` says when the write is refused and with what; a
    /// refusal changes nothing.
    pub fn set_status(&mut self, id: &String, status: &String, policy: TransitionPolicy, now: u64) -> (r:
        Result<(TaskStatus, TaskStatus), EngineError>)
        requires
            old(self).wf(),
        ensures
            final(self).wf(),
            match r {
                Ok(change) => status_refusal(old(self)@, id@, status@, policy).is_none()
                    && change.0 == task_of(old(self)@, id@).status && Some(change.1)
                    == TaskStatus::spec_parse(status@) && final(self)@ == old(self)@.update(
                    position_of(old(self)@, id@),
                    with_status(task_of(old(self)@, id@), change.1, now),
                ),
                Err(e) => status_refusal(old(self)@, id@, status@, policy) == Some(e) && final(self)@ == old(self)@,
            },
    {
        let i = match self.find(id) {
            Some(i) => i,
            None => { return Err(EngineError::NotFound); },
        };
        let next = match TaskStatus::parse(status) {
            Some(next) => next,
            None => { return Err(EngineError::Validation); },
        };
        let before_status = self.tasks[i].status;
        if !policy.permits(before_status, next) {
            return Err(EngineError::Validation);
        }
        let ghost before = self@;
        let mut task = self.tasks[i].duplicate();
        task.completed_at = crate::status::completion_after(
            before_status,
            task.completed_at,
            next,
            now,
        );
        task.status = next;
        task.updated_at = Some(now);
        self.tasks.set(i, task);
        proof {
            assert(self@ =~= before.update(i as int, with_status(before[i as int], next, now)));
            assert forall|a: int, b: int| 0 <= a < b < self@.len() implies (#[trigger] self@[a]).id
                != (#[trigger] self@[b]).id by {
                assert(self@[a].id == before[a].id);
                assert(self@[b].id == before[b].id);
            }
            assert forall|a: int| 0 <= a < self@.len() implies (#[trigger] self@[a]).wf() by {
                if a != i {
                    assert(self@[a] == before[a]);
                } else {
                    assert(before[a].wf());
                }
            }
        }
        Ok((before_status, next))
    }

    /// Takes the task with identifier `id` out of the store; `NotFound`, and
    /// no change, where there is none. The other tasks keep their order.
    fn remove(&mut self, id: &String) -> (r: Result<(), EngineError>)
        requires
            old(self).wf(),
        ensures
            final(self).wf(),
            r.is_ok() == has_task(old(self)@, id@),
            r is Ok ==> final(self)@ == old(self)@.remove(position_of(old(self)@, id@)),
            r is Ok ==> !has_task(final(self)@, id@),
            r matches Err(e) ==> e == EngineError::NotFound && final(self)@ == old(self)@,
    {
        let i = match self.find(id) {
            Some(i) => i,
            None => { return Err(EngineError::NotFound); },
        };
        let ghost before = self@;
        let _ = self.tasks.remove(i);
        proof {
            assert(self@ =~= before.remove(i as int));
            removal_keeps_store(before, i as int);
        }
        Ok(())
    }

    /// Deletes the task with identifier `id` and, with it, every assignment
    /// to it in `registry`. `NotFound`, and no change to store or registry,
    /// where there is no such task.
    pub fn delete(&mut self, id: &String, registry: &mut AssigneeRegistry) -> (r: Result<
        (),
        EngineError,
    >)
        requires
            old(self).wf(),
            old(registry).wf(),
        ensures
            final(self).wf(),
            final(registry).wf(),
            r.is_ok() == has_task(old(self)@, id@),
            r is Ok ==> final(self)@ == old(self)@.remove(position_of(old(self)@, id@))
                && final(registry)@ == rows_without_task(old(registry)@, id@),
            r is Ok ==> !has_task(final(self)@, id@) && !has_rows_for(final(registry)@, id@),
            r matches Err(e) ==> e == EngineError::NotFound && final(self)@ == old(self)@ && final(registry)@ == old(registry)@,
    {
        match self.remove(id) {
            Ok(()) => {
                let _ = registry.remove_task(id);
                Ok(())
            },
            Err(e) => Err(e),
        }
    }

    /// The tasks of the project `project_id`: those whose completion flag is
    /// not set first, by ascending deadline within each group.
    pub fn list_for_project(&self, project_id: &String) -> (result: Vec<Task>)
        requires
            self.wf(),
        ensures
            is_project_listing(task_views(result@), self@, project_id@),
    {
        let n = self.tasks.len();
        let mut keys: Vec<u64> = Vec::new();
        let mut wanted: Vec<bool> = Vec::new();
        let mut i: usize = 0;
        while i < n
            invariant
                i <= n,
                n == self.tasks.len(),
                keys.len() == i,
                wanted.len() == i,
                forall|k: int| 0 <= k < i ==> keys[k] == project_keys(self@)[k],
                forall|k: int| 0 <= k < i ==> wanted[k] == of_project(self@, project_id@)[k],
            decreases n - i,
        {
            let group: u64 = if self.tasks[i].is_completed {
                1_000_000_000
            } else {
                0
            };
            keys.push(group + self.tasks[i].deadline.key());
            wanted.push(opt_text_is(&self.tasks[i].project_id, project_id));
            i += 1;
        }
        assert(keys@ =~= project_keys(self@));
        assert(wanted@ =~= of_project(self@, project_id@));
        self.select_all(&keys, &wanted)
    }

    /// How many tasks are pending, how many are urgent and not completed,
    /// and how many are done and were last updated at `since` or later.
    pub fn counts(&self, since: u64) -> (counts: TaskCounts)
        ensures
            counts.pending == count_wanted(pending_flags(self@)),
            counts.open_urgent == count_wanted(open_urgent_flags(self@)),
            counts.done_lately == count_wanted(done_since_flags(self@, since)),
    {
        let ghost pending = pending_flags(self@);
        let ghost urgent = open_urgent_flags(self@);
        let ghost done = done_since_flags(self@, since);
        let mut counts = TaskCounts { pending: 0, open_urgent: 0, done_lately: 0 };
        let mut i: usize = 0;
        assert(pending.take(0) =~= Seq::<bool>::empty());
        assert(urgent.take(0) =~= Seq::<bool>::empty());
        assert(done.take(0) =~= Seq::<bool>::empty());
        while i < self.tasks.len()
            invariant
                i <= self.tasks.len(),
                pending == pending_flags(self@),
                urgent == open_urgent_flags(self@),
                done == done_since_flags(self@, since),
                counts.pending == count_wanted(pending.take(i as int)),
                counts.open_urgent == count_wanted(urgent.take(i as int)),
                counts.done_lately == count_wanted(done.take(i as int)),
                counts.pending <= i,
                counts.open_urgent <= i,
                counts.done_lately <= i,
            decreases self.tasks.len() - i,
        {
            proof {
                assert(pending.take(i as int + 1).drop_last() =~= pending.take(i as int));
                assert(pending.take(i as int + 1).last() == pending[i as int]);
                assert(urgent.take(i as int + 1).drop_last() =~= urgent.take(i as int));
                assert(urgent.take(i as int + 1).last() == urgent[i as int]);
                assert(done.take(i as int + 1).drop_last() =~= done.take(i as int));
                assert(done.take(i as int + 1).last() == done[i as int]);
            }
            let task = &self.tasks[i];
            let completed = task.status.same(TaskStatus::Completed);
            if task.status.same(TaskStatus::Pending) {
                counts.pending += 1;
            }
            if task.urgency.rank() == 1 && !completed {
                counts.open_urgent += 1;
            }
            let lately = match task.updated_at {
                Some(at) => at >= since,
                None => false,
            };
            if (completed || task.is_completed) && lately {
                counts.done_lately += 1;
            }
            i += 1;
        }
        proof {
            assert(pending.take(self.tasks.len() as int) =~= pending);
            assert(urgent.take(self.tasks.len() as int) =~= urgent);
            assert(done.take(self.tasks.len() as int) =~= done);
        }
        counts
    }

    /// A copy of every task, in the order of creation.
    pub fn list_all(&self) -> (result: Vec<Task>)
        ensures
            task_views(result@) == self@,
    {
        let mut result: Vec<Task> = Vec::new();
        let mut i: usize = 0;
        while i < self.tasks.len()
            invariant
                i <= self.tasks.len(),
                result.len() == i,
                forall|k: int| 0 <= k < i ==> (#[trigger] result[k])@ == self@[k],
            decreases self.tasks.len() - i,
        {
            result.push(self.tasks[i].duplicate());
            i += 1;
        }
        assert(task_views(result@) =~= self@);
        result
    }

    /// Answers the query `q`: the tasks that pass it, by ascending deadline,
    /// cut to the page asked for.
    pub fn list(&self, q: &GetTasksQuery) -> (result: Vec<Task>)
        requires
            self.wf(),
        ensures
            is_listing(task_views(result@), self@, *q),
    {
        let n = self.tasks.len();
        let mut keys: Vec<u64> = Vec::new();
        let mut wanted: Vec<bool> = Vec::new();
        let mut i: usize = 0;
        while i < n
            invariant
                i <= n,
                n == self.tasks.len(),
                self.wf(),
                keys.len() == i,
                wanted.len() == i,
                forall|k: int| 0 <= k < i ==> keys[k] == deadline_keys(self@)[k],
                forall|k: int| 0 <= k < i ==> wanted[k] == passing(self@, *q)[k],
            decreases n - i,
        {
            proof {
                assert(self@[i as int].wf());
            }
            keys.push(self.tasks[i].deadline.key());
            wanted.push(q.matches(&self.tasks[i]));
            i += 1;
        }
        assert(keys@ =~= deadline_keys(self@));
        assert(wanted@ =~= passing(self@, *q));
        let limit: i32 = match q.limit {
            Some(l) => l,
            None => 50,
        };
        let offset: i32 = match q.offset {
            Some(o) => o,
            None => 0,
        };
        self.select_page(&keys, &wanted, limit, offset)
    }

    /// Copies of the tasks at the wanted places, in ascending order of key
    /// (tasks with the same key in the order of their creation), cut to the
    /// page that `limit` and `offset` name.
    pub(crate) fn select_page(&self, keys: &Vec<u64>, wanted: &Vec<bool>, limit: i32, offset: i32) -> (result:
        Vec<Task>)
        requires
            keys.len() == self@.len(),
            wanted.len() == self@.len(),
        ensures
            is_selected_page(
                task_views(result@),
                self@,
                keys@,
                wanted@,
                limit as int,
                offset as int,
            ),
    {
        let picked = ordered_selection(keys, wanted);
        let bounds = page_bounds(picked.len(), limit, offset);
        let mut result: Vec<Task> = Vec::new();
        let mut k: usize = bounds.0;
        while k < bounds.1
            invariant
                bounds.0 <= k <= bounds.1 <= picked.len(),
                is_ordered_selection(picked@, keys@, wanted@),
                keys.len() == self.tasks.len(),
                result.len() == k - bounds.0,
                forall|j: int|
                    0 <= j < result.len() ==> (#[trigger] result[j])@ == self@[picked[bounds.0
                        + j] as int],
            decreases bounds.1 - k,
        {
            result.push(self.tasks[picked[k]].duplicate());
            k += 1;
        }
        assert(task_views(result@) =~= page_of(
            tasks_at(self@, picked@),
            limit as int,
            offset as int,
        ));
        result
    }

    /// Copies of the tasks at the wanted places, in ascending order of key
    /// (tasks with the same key in the order of their creation).
    pub(crate) fn select_all(&self, keys: &Vec<u64>, wanted: &Vec<bool>) -> (result: Vec<Task>)
        requires
            keys.len() == self@.len(),
            wanted.len() == self@.len(),
        ensures
            is_selection(task_views(result@), self@, keys@, wanted@),
    {
        let result = self.select_page(keys, wanted, -1, 0);
        proof {
            let picked = choose|picked: Seq<usize>| #[trigger]
                is_ordered_selection(picked, keys@, wanted@) && task_views(result@) == page_of(
                    tasks_at(self@, picked),
                    -1,
                    0,
                );
            assert(page_of(tasks_at(self@, picked), -1, 0) =~= tasks_at(self@, picked));
        }
        result
    }
}

/// Putting a task in the place of one with the same identifier changes
/// nothing about which identifiers the store holds.
pub proof fn replacement_keeps_ids(tasks: Seq<TaskView>, i: int, t: TaskView)
    requires
        0 <= i < tasks.len(),
        t.id == tasks[i].id,
    ensures
        forall|id: Seq<char>| has_task(tasks.update(i, t), id) == has_task(tasks, id),
        ids_unique(tasks) ==> ids_unique(tasks.update(i, t)),
{
    let after = tasks.update(i, t);
    assert forall|id: Seq<char>| has_task(after, id) == has_task(tasks, id) by {
        if has_task(after, id) {
            let a = choose|a: int| 0 <= a < after.len() && (#[trigger] after[a]).id == id;
            assert(tasks[a].id == id);
        }
        if has_task(tasks, id) {
            let a = choose|a: int| 0 <= a < tasks.len() && (#[trigger] tasks[a]).id == id;
            assert(after[a].id == id);
        }
    }
    if ids_unique(tasks) {
        assert forall|a: int, b: int| 0 <= a < b < after.len() implies (#[trigger] after[a]).id != (
        #[trigger] after[b]).id by {
            assert(after[a].id == tasks[a].id && after[b].id == tasks[b].id);
        }
    }
}

/// One more task changes nothing about the identifiers that the store held.
pub proof fn push_keeps_ids(tasks: Seq<TaskView>, t: TaskView)
    ensures
        has_task(tasks.push(t), t.id),
        forall|id: Seq<char>| has_task(tasks, id) ==> has_task(tasks.push(t), id),
        forall|id: Seq<char>| id != t.id ==> has_task(tasks.push(t), id) == has_task(tasks, id),
{
    let after = tasks.push(t);
    assert(after[tasks.len() as int].id == t.id);
    assert forall|id: Seq<char>| has_task(tasks, id) implies has_task(after, id) by {
        let a = choose|a: int| 0 <= a < tasks.len() && (#[trigger] tasks[a]).id == id;
        assert(after[a].id == id);
    }
    assert forall|id: Seq<char>| id != t.id implies has_task(after, id) == has_task(tasks, id) by {
        if has_task(after, id) {
            let a = choose|a: int| 0 <= a < after.len() && (#[trigger] after[a]).id == id;
            assert(tasks[a].id == id);
        }
    }
}

/// Taking one task out of a well-formed store leaves a well-formed store
/// that no longer holds its identifier and holds the others as before.
pub proof fn removal_keeps_store(tasks: Seq<TaskView>, i: int)
    requires
        store_wf(tasks),
        0 <= i < tasks.len(),
    ensures
        store_wf(tasks.remove(i)),
        !has_task(tasks.remove(i), tasks[i].id),
        forall|id: Seq<char>|
            id != tasks[i].id ==> has_task(tasks.remove(i), id) == has_task(tasks, id),
{
    let after = tasks.remove(i);
    assert forall|a: int, b: int| 0 <= a < b < after.len() implies (#[trigger] after[a]).id != (
    #[trigger] after[b]).id by {
        let a0 = if a < i { a } else { a + 1 };
        let b0 = if b < i { b } else { b + 1 };
        assert(after[a] == tasks[a0] && after[b] == tasks[b0]);
    }
    assert forall|a: int| 0 <= a < after.len() implies (#[trigger] after[a]).wf() by {
        let a0 = if a < i { a } else { a + 1 };
        assert(after[a] == tasks[a0]);
    }
    assert(!has_task(after, tasks[i].id)) by {
        if has_task(after, tasks[i].id) {
            let a = choose|a: int| 0 <= a < after.len() && (#[trigger] after[a]).id == tasks[i].id;
            let a0 = if a < i { a } else { a + 1 };
            assert(after[a] == tasks[a0]);
            if a0 < i {
                assert(tasks[a0].id != tasks[i].id);
            } else {
                assert(tasks[i].id != tasks[a0].id);
            }
        }
    }
    assert forall|id: Seq<char>| id != tasks[i].id implies has_task(after, id) == has_task(
        tasks,
        id,
    ) by {
        if has_task(after, id) {
            let a = choose|a: int| 0 <= a < after.len() && (#[trigger] after[a]).id == id;
            let a0 = if a < i { a } else { a + 1 };
            assert(tasks[a0].id == id);
        }
        if has_task(tasks, id) {
            let a0 = choose|a: int| 0 <= a < tasks.len() && (#[trigger] tasks[a]).id == id;
            let a = if a0 < i { a0 } else { a0 - 1 };
            assert(after[a].id == id);
        }
    }
}

} // verus!
