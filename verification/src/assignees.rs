//! The assignee registry: which users are responsible for which tasks.
//!
//! A user is assigned to a task at most once. Assigning again changes
//! nothing and is no error.

use vstd::prelude::*;
use crate::directory::{members_of, Directory};
use crate::error::EngineError;
use crate::models::tasks::{assignee_views, TaskAssignee, TaskAssigneeView};
use crate::order::{is_ordered_selection, ordered_selection};
use crate::store::{has_task, TaskStore};
use crate::text::texts_view;

verus! {

/// The name under which assignments that a project's membership brought are
/// recorded.
pub open spec fn system_actor() -> Seq<char> {
    "system"@
}

/// Whether the rows assign `user` to `task`.
pub open spec fn is_assigned(rows: Seq<TaskAssigneeView>, task: Seq<char>, user: Seq<char>) -> bool {
    exists|i: int|
        0 <= i < rows.len() && (#[trigger] rows[i]).task_id == task && rows[i].user_id == user
}

/// The place of the row that assigns `user` to `task`, where there is one.
pub open spec fn assignment_position(
    rows: Seq<TaskAssigneeView>,
    task: Seq<char>,
    user: Seq<char>,
) -> int {
    choose|i: int|
        0 <= i < rows.len() && (#[trigger] rows[i]).task_id == task && rows[i].user_id == user
}

/// No two rows assign the same user to the same task.
pub open spec fn pairs_unique(rows: Seq<TaskAssigneeView>) -> bool {
    forall|i: int, j: int|
        0 <= i < j < rows.len() ==> !((#[trigger] rows[i]).task_id == (#[trigger] rows[j]).task_id
            && rows[i].user_id == rows[j].user_id)
}

/// The number of rows that assign `user` to `task`.
pub open spec fn pair_count(rows: Seq<TaskAssigneeView>, task: Seq<char>, user: Seq<char>) -> nat
    decreases rows.len(),
{
    if rows.len() == 0 {
        0
    } else {
        pair_count(rows.drop_last(), task, user) + if rows.last().task_id == task
            && rows.last().user_id == user {
            1nat
        } else {
            0nat
        }
    }
}

/// Whether some row belongs to `task`.
pub open spec fn has_rows_for(rows: Seq<TaskAssigneeView>, task: Seq<char>) -> bool {
    exists|i: int| 0 <= i < rows.len() && (#[trigger] rows[i]).task_id == task
}

/// The rows after `user` is assigned to `task` by `by` at `now`: one more row
/// at the end, or the same rows where the user was assigned already.
pub open spec fn assign_one(
    rows: Seq<TaskAssigneeView>,
    task: Seq<char>,
    user: Seq<char>,
    by: Seq<char>,
    now: u64,
) -> Seq<TaskAssigneeView> {
    if is_assigned(rows, task, user) {
        rows
    } else {
        rows.push(TaskAssigneeView { task_id: task, user_id: user, assigned_at: now, assigned_by: by })
    }
}

/// The rows after each of `users` is assigned to `task` in turn.
pub open spec fn assign_all(
    rows: Seq<TaskAssigneeView>,
    task: Seq<char>,
    users: Seq<Seq<char>>,
    by: Seq<char>,
    now: u64,
) -> Seq<TaskAssigneeView>
    decreases users.len(),
{
    if users.len() == 0 {
        rows
    } else {
        assign_one(assign_all(rows, task, users.drop_last(), by, now), task, users.last(), by, now)
    }
}

/// The rows that do not belong to `task`, in their order.
pub open spec fn rows_without_task(rows: Seq<TaskAssigneeView>, task: Seq<char>) -> Seq<
    TaskAssigneeView,
>
    decreases rows.len(),
{
    if rows.len() == 0 {
        rows
    } else if rows.last().task_id == task {
        rows_without_task(rows.drop_last(), task)
    } else {
        rows_without_task(rows.drop_last(), task).push(rows.last())
    }
}

/// The users assigned to `task`, in the order of their rows.
pub open spec fn users_of(rows: Seq<TaskAssigneeView>, task: Seq<char>) -> Seq<Seq<char>>
    decreases rows.len(),
{
    if rows.len() == 0 {
        Seq::empty()
    } else if rows.last().task_id == task {
        users_of(rows.drop_last(), task).push(rows.last().user_id)
    } else {
        users_of(rows.drop_last(), task)
    }
}

/// The tasks that `user` is assigned to, in the order of their rows.
pub open spec fn tasks_of(rows: Seq<TaskAssigneeView>, user: Seq<char>) -> Seq<Seq<char>>
    decreases rows.len(),
{
    if rows.len() == 0 {
        Seq::empty()
    } else if rows.last().user_id == user {
        tasks_of(rows.drop_last(), user).push(rows.last().task_id)
    } else {
        tasks_of(rows.drop_last(), user)
    }
}

/// The time of each assignment as an ordering key.
pub open spec fn assignment_keys(rows: Seq<TaskAssigneeView>) -> Seq<u64> {
    Seq::new(rows.len(), |i: int| rows[i].assigned_at)
}

/// For each row, whether it belongs to `task`.
pub open spec fn rows_of_task(rows: Seq<TaskAssigneeView>, task: Seq<char>) -> Seq<bool> {
    Seq::new(rows.len(), |i: int| rows[i].task_id == task)
}

/// The rows at the places picked, in the order picked.
pub open spec fn rows_at(rows: Seq<TaskAssigneeView>, picked: Seq<usize>) -> Seq<TaskAssigneeView> {
    Seq::new(picked.len(), |k: int| rows[picked[k] as int])
}

/// `result` lists the assignments of `task` by ascending time of assignment,
/// assignments of the same time in the order in which they were made.
pub open spec fn is_assignee_listing(
    result: Seq<TaskAssigneeView>,
    rows: Seq<TaskAssigneeView>,
    task: Seq<char>,
) -> bool {
    exists|picked: Seq<usize>| #[trigger]
        is_ordered_selection(picked, assignment_keys(rows), rows_of_task(rows, task)) && result
            == rows_at(rows, picked)
}

/// Where pairs are unique, the place of an assignment is the one place that
/// holds its pair.
pub proof fn assignment_position_is_unique(
    rows: Seq<TaskAssigneeView>,
    task: Seq<char>,
    user: Seq<char>,
    i: int,
)
    requires
        pairs_unique(rows),
        0 <= i < rows.len(),
        rows[i].task_id == task,
        rows[i].user_id == user,
    ensures
        is_assigned(rows, task, user),
        assignment_position(rows, task, user) == i,
{
    let p = assignment_position(rows, task, user);
    if p < i {
        assert(!(rows[p].task_id == rows[i].task_id && rows[p].user_id == rows[i].user_id));
    } else if i < p {
        assert(!(rows[i].task_id == rows[p].task_id && rows[i].user_id == rows[p].user_id));
    }
}

/// Assigning one user keeps pairs unique, keeps every earlier assignment,
/// assigns the user, and assigns nobody else.
pub proof fn assign_one_facts(
    rows: Seq<TaskAssigneeView>,
    task: Seq<char>,
    user: Seq<char>,
    by: Seq<char>,
    now: u64,
)
    requires
        pairs_unique(rows),
    ensures
        pairs_unique(assign_one(rows, task, user, by, now)),
        is_assigned(assign_one(rows, task, user, by, now), task, user),
        forall|t: Seq<char>, u: Seq<char>|
            is_assigned(assign_one(rows, task, user, by, now), t, u) <==> (is_assigned(rows, t, u)
                || (t == task && u == user)),
{
    let after = assign_one(rows, task, user, by, now);
    if is_assigned(rows, task, user) {
    } else {
        let n = rows.len() as int;
        assert(after[n].task_id == task && after[n].user_id == user);
        assert forall|i: int, j: int| 0 <= i < j < after.len() implies !((#[trigger] after[i]).task_id
            == (#[trigger] after[j]).task_id && after[i].user_id == after[j].user_id) by {
            if j == n {
                assert(after[i] == rows[i]);
            } else {
                assert(after[i] == rows[i] && after[j] == rows[j]);
            }
        }
        assert forall|t: Seq<char>, u: Seq<char>|
            is_assigned(after, t, u) <==> (is_assigned(rows, t, u) || (t == task && u
                == user)) by {
            if is_assigned(after, t, u) {
                let i = choose|i: int|
                    0 <= i < after.len() && (#[trigger] after[i]).task_id == t && after[i].user_id
                        == u;
                if i < n {
                    assert(rows[i].task_id == t && rows[i].user_id == u);
                }
            }
            if is_assigned(rows, t, u) {
                let i = choose|i: int|
                    0 <= i < rows.len() && (#[trigger] rows[i]).task_id == t && rows[i].user_id
                        == u;
                assert(after[i].task_id == t && after[i].user_id == u);
            }
        }
    }
}

/// Assigning a list of users keeps pairs unique and assigns exactly those
/// users to the task, beside what was assigned before.
pub proof fn assign_all_facts(
    rows: Seq<TaskAssigneeView>,
    task: Seq<char>,
    users: Seq<Seq<char>>,
    by: Seq<char>,
    now: u64,
)
    requires
        pairs_unique(rows),
    ensures
        pairs_unique(assign_all(rows, task, users, by, now)),
        assign_all(rows, task, users, by, now).len() >= rows.len(),
        assign_all(rows, task, users, by, now).len() <= rows.len() + users.len(),
        forall|t: Seq<char>, u: Seq<char>|
            is_assigned(assign_all(rows, task, users, by, now), t, u) <==> (is_assigned(rows, t, u)
                || (t == task && users.contains(u))),
    decreases users.len(),
{
    if users.len() == 0 {
    } else {
        let head = users.drop_last();
        let mid = assign_all(rows, task, head, by, now);
        assign_all_facts(rows, task, head, by, now);
        assign_one_facts(mid, task, users.last(), by, now);
        let after = assign_all(rows, task, users, by, now);
        assert forall|t: Seq<char>, u: Seq<char>|
            is_assigned(after, t, u) <==> (is_assigned(rows, t, u) || (t == task && users.contains(
                u,
            ))) by {
            if head.contains(u) {
                let k = choose|k: int| 0 <= k < head.len() && head[k] == u;
                assert(users[k] == u);
            }
            if users.contains(u) {
                let k = choose|k: int| 0 <= k < users.len() && users[k] == u;
                if k < head.len() {
                    assert(head[k] == u);
                } else {
                    assert(u == users.last());
                }
            }
            assert(users.last() == users[users.len() - 1]);
        }
    }
}

/// Assigning a list of users to a task keeps the rows that there were, in
/// their places, and adds only rows of that task.
pub proof fn assign_all_rows(
    rows: Seq<TaskAssigneeView>,
    task: Seq<char>,
    users: Seq<Seq<char>>,
    by: Seq<char>,
    now: u64,
)
    ensures
        assign_all(rows, task, users, by, now).len() >= rows.len(),
        forall|i: int|
            0 <= i < rows.len() ==> #[trigger] assign_all(rows, task, users, by, now)[i] == rows[i],
        forall|i: int|
            rows.len() <= i < assign_all(rows, task, users, by, now).len() ==> (
            #[trigger] assign_all(rows, task, users, by, now)[i]).task_id == task,
    decreases users.len(),
{
    if users.len() > 0 {
        assign_all_rows(rows, task, users.drop_last(), by, now);
    }
}

/// Every row that is left when the rows of a task are taken out is one of
/// the rows that there were, and belongs to another task.
pub proof fn rows_without_task_rows(rows: Seq<TaskAssigneeView>, task: Seq<char>)
    ensures
        rows_without_task(rows, task).len() <= rows.len(),
        forall|i: int|
            0 <= i < rows_without_task(rows, task).len() ==> rows.contains(
                #[trigger] rows_without_task(rows, task)[i],
            ) && rows_without_task(rows, task)[i].task_id != task,
    decreases rows.len(),
{
    if rows.len() > 0 {
        let head = rows.drop_last();
        rows_without_task_rows(head, task);
        let after = rows_without_task(rows, task);
        assert forall|i: int| 0 <= i < after.len() implies rows.contains(#[trigger] after[i])
            && after[i].task_id != task by {
            let mid = rows_without_task(head, task);
            if i < mid.len() {
                assert(after[i] == mid[i]);
                assert(head.contains(mid[i]));
                let j = choose|j: int| 0 <= j < head.len() && head[j] == mid[i];
                assert(rows[j] == mid[i]);
            } else {
                assert(after[i] == rows[rows.len() - 1]);
            }
        }
    }
}

/// Taking out the rows of a task leaves no row of that task, keeps pairs
/// unique, and keeps exactly the assignments to other tasks.
pub proof fn rows_without_task_facts(rows: Seq<TaskAssigneeView>, task: Seq<char>)
    requires
        pairs_unique(rows),
    ensures
        pairs_unique(rows_without_task(rows, task)),
        !has_rows_for(rows_without_task(rows, task), task),
        forall|t: Seq<char>, u: Seq<char>|
            is_assigned(rows_without_task(rows, task), t, u) <==> (t != task && is_assigned(
                rows,
                t,
                u,
            )),
    decreases rows.len(),
{
    let after = rows_without_task(rows, task);
    if rows.len() == 0 {
    } else {
        let head = rows.drop_last();
        let last = rows.last();
        let mid = rows_without_task(head, task);
        assert(pairs_unique(head)) by {
            assert forall|i: int, j: int| 0 <= i < j < head.len() implies !((#[trigger] head[i]).task_id
                == (#[trigger] head[j]).task_id && head[i].user_id == head[j].user_id) by {
                assert(head[i] == rows[i] && head[j] == rows[j]);
            }
        }
        rows_without_task_facts(head, task);
        assert forall|t: Seq<char>, u: Seq<char>|
            is_assigned(rows, t, u) <==> (is_assigned(head, t, u) || (last.task_id == t
                && last.user_id == u)) by {
            if is_assigned(rows, t, u) {
                let i = choose|i: int|
                    0 <= i < rows.len() && (#[trigger] rows[i]).task_id == t && rows[i].user_id
                        == u;
                if i < head.len() {
                    assert(head[i].task_id == t && head[i].user_id == u);
                }
            }
            if is_assigned(head, t, u) {
                let i = choose|i: int|
                    0 <= i < head.len() && (#[trigger] head[i]).task_id == t && head[i].user_id
                        == u;
                assert(rows[i].task_id == t && rows[i].user_id == u);
            }
            if last.task_id == t && last.user_id == u {
                assert(rows[rows.len() - 1].task_id == t);
            }
        }
        if last.task_id == task {
        } else {
            assert(after == mid.push(last));
            assert(!is_assigned(mid, last.task_id, last.user_id)) by {
                if is_assigned(head, last.task_id, last.user_id) {
                    let i = choose|i: int|
                        0 <= i < head.len() && (#[trigger] head[i]).task_id == last.task_id
                            && head[i].user_id == last.user_id;
                    assert(rows[i] == head[i]);
                    assert(!(rows[i].task_id == rows[rows.len() - 1].task_id && rows[i].user_id
                        == rows[rows.len() - 1].user_id));
                }
            }
            assert forall|i: int, j: int| 0 <= i < j < after.len() implies !((#[trigger] after[i]).task_id
                == (#[trigger] after[j]).task_id && after[i].user_id == after[j].user_id) by {
                if j == mid.len() {
                    assert(after[i] == mid[i]);
                } else {
                    assert(after[i] == mid[i] && after[j] == mid[j]);
                }
            }
            assert(!has_rows_for(after, task)) by {
                if has_rows_for(after, task) {
                    let i = choose|i: int| 0 <= i < after.len() && (#[trigger] after[i]).task_id == task;
                    if i < mid.len() {
                        assert(mid[i].task_id == task);
                    }
                }
            }
            assert forall|t: Seq<char>, u: Seq<char>|
                is_assigned(after, t, u) <==> (t != task && is_assigned(rows, t, u)) by {
                if is_assigned(after, t, u) {
                    let i = choose|i: int|
                        0 <= i < after.len() && (#[trigger] after[i]).task_id == t
                            && after[i].user_id == u;
                    if i < mid.len() {
                        assert(mid[i].task_id == t && mid[i].user_id == u);
                    }
                }
                if is_assigned(mid, t, u) {
                    let i = choose|i: int|
                        0 <= i < mid.len() && (#[trigger] mid[i]).task_id == t && mid[i].user_id
                            == u;
                    assert(after[i].task_id == t && after[i].user_id == u);
                }
                if last.task_id == t && last.user_id == u {
                    assert(after[mid.len() as int].task_id == t);
                }
            }
        }
    }
}

/// The assignments that exist, in the order in which they were made.
pub struct AssigneeRegistry {
    rows: Vec<TaskAssignee>,
}

impl View for AssigneeRegistry {
    type V = Seq<TaskAssigneeView>;

    closed spec fn view(&self) -> Seq<TaskAssigneeView> {
        assignee_views(self.rows@)
    }
}

impl AssigneeRegistry {
    /// The invariant of the registry: no user is assigned to a task twice.
    pub open spec fn wf(&self) -> bool {
        pairs_unique(self@)
    }

    /// An empty registry.
    pub fn new() -> (registry: AssigneeRegistry)
        ensures
            registry@ == Seq::<TaskAssigneeView>::empty(),
            registry.wf(),
    {
        let registry = AssigneeRegistry { rows: Vec::new() };
        assert(registry@ =~= Seq::<TaskAssigneeView>::empty());
        registry
    }

    /// The number of assignments.
    pub fn len(&self) -> (n: usize)
        ensures
            n == self@.len(),
    {
        self.rows.len()
    }

    /// The place of the row that assigns `user_id` to `task_id`, if there is
    /// one.
    fn find(&self, task_id: &String, user_id: &String) -> (r: Option<usize>)
        requires
            self.wf(),
        ensures
            r.is_some() == is_assigned(self@, task_id@, user_id@),
            r matches Some(i) ==> i < self.rows.len() && i == assignment_position(
                self@,
                task_id@,
                user_id@,
            ),
    {
        let mut i: usize = 0;
        while i < self.rows.len()
            invariant
                i <= self.rows.len(),
                self.wf(),
                forall|k: int|
                    0 <= k < i ==> !((#[trigger] self@[k]).task_id == task_id@ && self@[k].user_id
                        == user_id@),
            decreases self.rows.len() - i,
        {
            if self.rows[i].task_id == *task_id && self.rows[i].user_id == *user_id {
                proof {
                    assert(self@[i as int].task_id == task_id@);
                    assignment_position_is_unique(self@, task_id@, user_id@, i as int);
                }
                return Some(i);
            }
            i += 1;
        }
        None
    }

    /// Whether `user_id` is assigned to `task_id`.
    pub fn is_assigned(&self, task_id: &String, user_id: &String) -> (assigned: bool)
        requires
            self.wf(),
        ensures
            assigned == is_assigned(self@, task_id@, user_id@),
    {
        self.find(task_id, user_id).is_some()
    }

    /// Assigns `user_id` to `task_id` whatever the task store holds, and says
    /// whether a row was added.
    fn put(&mut self, task_id: &String, user_id: &String, assigned_by: &String, now: u64) -> (added:
        bool)
        requires
            old(self).wf(),
        ensures
            final(self).wf(),
            final(self)@ == assign_one(old(self)@, task_id@, user_id@, assigned_by@, now),
            added == !is_assigned(old(self)@, task_id@, user_id@),
    {
        proof {
            assign_one_facts(self@, task_id@, user_id@, assigned_by@, now);
        }
        if self.find(task_id, user_id).is_some() {
            return false;
        }
        let ghost before = self@;
        self.rows.push(
            TaskAssignee {
                task_id: task_id.clone(),
                user_id: user_id.clone(),
                assigned_at: now,
                assigned_by: assigned_by.clone(),
            },
        );
        assert(self@ =~= assign_one(before, task_id@, user_id@, assigned_by@, now));
        true
    }

    /// Stores an assignment as it is, after all others, and says whether it
    /// did: a row for a pair that is assigned already is left out.
    pub(crate) fn load(&mut self, row: TaskAssignee) -> (stored: bool)
        requires
            old(self).wf(),
        ensures
            final(self).wf(),
            stored == !is_assigned(old(self)@, row@.task_id, row@.user_id),
            stored ==> final(self)@ == old(self)@.push(row@),
            !stored ==> final(self)@ == old(self)@,
    {
        if self.find(&row.task_id, &row.user_id).is_some() {
            return false;
        }
        let ghost before = self@;
        let ghost added = row@;
        self.rows.push(row);
        proof {
            assert(self@ =~= before.push(added));
            assert forall|i: int, j: int| 0 <= i < j < self@.len() implies !((#[trigger] self@[i]).task_id
                == (#[trigger] self@[j]).task_id && self@[i].user_id == self@[j].user_id) by {
                if j == before.len() {
                    assert(self@[i] == before[i]);
                } else {
                    assert(self@[i] == before[i] && self@[j] == before[j]);
                }
            }
        }
        true
    }

    /// A copy of every assignment, in the order in which they were made.
    pub fn all(&self) -> (result: Vec<TaskAssignee>)
        ensures
            assignee_views(result@) == self@,
    {
        let mut result: Vec<TaskAssignee> = Vec::new();
        let mut i: usize = 0;
        while i < self.rows.len()
            invariant
                i <= self.rows.len(),
                result.len() == i,
                forall|k: int| 0 <= k < i ==> (#[trigger] result[k])@ == self@[k],
            decreases self.rows.len() - i,
        {
            result.push(self.rows[i].duplicate());
            i += 1;
        }
        assert(assignee_views(result@) =~= self@);
        result
    }

    /// Assigns `user_id` to the task `task_id` of `store`, by `assigned_by`
    /// at `now`, and says whether a row was added. A user who is assigned
    /// already stays assigned as before; that is no error.
    ///
    /// `NotFound`, and no change, where the store has no such task. Whether
    /// the user exists is not looked at.
    pub fn assign(
        &mut self,
        store: &TaskStore,
        task_id: &String,
        user_id: &String,
        assigned_by: &String,
        now: u64,
    ) -> (r: Result<bool, EngineError>)
        requires
            old(self).wf(),
            store.wf(),
        ensures
            final(self).wf(),
            r.is_ok() == has_task(store@, task_id@),
            r matches Ok(added) ==> final(self)@ == assign_one(
                old(self)@,
                task_id@,
                user_id@,
                assigned_by@,
                now,
            ) && added == !is_assigned(old(self)@, task_id@, user_id@),
            r matches Err(e) ==> e == EngineError::NotFound && final(self)@ == old(self)@,
    {
        if !store.contains(task_id) {
            return Err(EngineError::NotFound);
        }
        Ok(self.put(task_id, user_id, assigned_by, now))
    }

    /// Assigns every member that `directory` gives for `project_id` to the
    /// task `task_id` of `store`, in the name of the system, and returns the
    /// number of rows added. `NotFound`, and no change, where the store has
    /// no such task.
    pub fn cascade_from_project(
        &mut self,
        store: &TaskStore,
        directory: &Directory,
        task_id: &String,
        project_id: &String,
        now: u64,
    ) -> (r: Result<usize, EngineError>)
        requires
            old(self).wf(),
            store.wf(),
        ensures
            final(self).wf(),
            r.is_ok() == has_task(store@, task_id@),
            r matches Ok(added) ==> final(self)@ == assign_all(
                old(self)@,
                task_id@,
                members_of(directory@.members, project_id@),
                system_actor(),
                now,
            ) && added == final(self)@.len() - old(self)@.len(),
            r matches Err(e) ==> e == EngineError::NotFound && final(self)@ == old(self)@,
    {
        if !store.contains(task_id) {
            return Err(EngineError::NotFound);
        }
        let members = directory.members_of(project_id);
        let system = "system".to_owned();
        Ok(self.put_all(task_id, &members, &system, now))
    }

    /// Assigns each of `user_ids` in turn to the task `task_id` of `store`, by
    /// `assigned_by` at `now`, and returns the number of rows added. Users
    /// who are assigned already, or named twice, are passed over.
    ///
    /// `NotFound`, and no change, where the store has no such task.
    pub fn assign_all(
        &mut self,
        store: &TaskStore,
        task_id: &String,
        user_ids: &Vec<String>,
        assigned_by: &String,
        now: u64,
    ) -> (r: Result<usize, EngineError>)
        requires
            old(self).wf(),
            store.wf(),
        ensures
            final(self).wf(),
            r.is_ok() == has_task(store@, task_id@),
            r matches Ok(added) ==> final(self)@ == assign_all(
                old(self)@,
                task_id@,
                texts_view(user_ids@),
                assigned_by@,
                now,
            ) && added == final(self)@.len() - old(self)@.len(),
            r matches Err(e) ==> e == EngineError::NotFound && final(self)@ == old(self)@,
    {
        if !store.contains(task_id) {
            return Err(EngineError::NotFound);
        }
        Ok(self.put_all(task_id, user_ids, assigned_by, now))
    }

    /// Assigns each of `user_ids` to `task_id` in turn, whatever the task
    /// store holds, and returns the number of rows added.
    pub(crate) fn put_all(&mut self, task_id: &String, user_ids: &Vec<String>, assigned_by: &String, now: u64) -> (added:
        usize)
        requires
            old(self).wf(),
        ensures
            final(self).wf(),
            final(self)@ == assign_all(
                old(self)@,
                task_id@,
                texts_view(user_ids@),
                assigned_by@,
                now,
            ),
            added == final(self)@.len() - old(self)@.len(),
    {
        let ghost before = self@;
        let ghost users = texts_view(user_ids@);
        let mut added: usize = 0;
        let mut i: usize = 0;
        while i < user_ids.len()
            invariant
                i <= user_ids.len(),
                self.wf(),
                pairs_unique(before),
                users == texts_view(user_ids@),
                self@ == assign_all(before, task_id@, users.take(i as int), assigned_by@, now),
                added == self@.len() - before.len(),
                added <= i,
            decreases user_ids.len() - i,
        {
            let ghost mid = self@;
            let grew = self.put(task_id, &user_ids[i], assigned_by, now);
            proof {
                assert(users.take(i as int + 1).drop_last() =~= users.take(i as int));
                assert(users.take(i as int + 1).last() == user_ids[i as int]@);
            }
            if grew {
                added += 1;
            }
            i += 1;
        }
        assert(users.take(user_ids.len() as int) =~= users);
        added
    }

    /// Ends the assignment of `user_id` to `task_id`; `NotFound`, and no
    /// change, where there is none. The other rows keep their order.
    pub fn unassign(&mut self, task_id: &String, user_id: &String) -> (r: Result<(), EngineError>)
        requires
            old(self).wf(),
        ensures
            final(self).wf(),
            r.is_ok() == is_assigned(old(self)@, task_id@, user_id@),
            r is Ok ==> final(self)@ == old(self)@.remove(
                assignment_position(old(self)@, task_id@, user_id@),
            ) && !is_assigned(final(self)@, task_id@, user_id@),
            r matches Err(e) ==> e == EngineError::NotFound && final(self)@ == old(self)@,
    {
        let i = match self.find(task_id, user_id) {
            Some(i) => i,
            None => { return Err(EngineError::NotFound); },
        };
        let ghost before = self@;
        let _ = self.rows.remove(i);
        proof {
            assert(self@ =~= before.remove(i as int));
            unassign_facts(before, i as int);
        }
        Ok(())
    }

    /// Ends every assignment to `task_id` and returns how many there were.
    pub fn remove_task(&mut self, task_id: &String) -> (removed: usize)
        requires
            old(self).wf(),
        ensures
            final(self).wf(),
            final(self)@ == rows_without_task(old(self)@, task_id@),
            !has_rows_for(final(self)@, task_id@),
            removed == old(self)@.len() - final(self)@.len(),
    {
        let ghost before = self@;
        let mut kept: Vec<TaskAssignee> = Vec::new();
        let mut i: usize = 0;
        while i < self.rows.len()
            invariant
                i <= self.rows.len(),
                self@ == before,
                assignee_views(kept@) == rows_without_task(before.take(i as int), task_id@),
                kept.len() <= i,
            decreases self.rows.len() - i,
        {
            proof {
                assert(before.take(i as int + 1).drop_last() =~= before.take(i as int));
                assert(before.take(i as int + 1).last() == before[i as int]);
            }
            if !(self.rows[i].task_id == *task_id) {
                let ghost kept_before = assignee_views(kept@);
                kept.push(self.rows[i].duplicate());
                assert(assignee_views(kept@) =~= kept_before.push(before[i as int]));
            }
            i += 1;
        }
        assert(before.take(self.rows.len() as int) =~= before);
        let removed = self.rows.len() - kept.len();
        self.rows = kept;
        proof {
            rows_without_task_facts(before, task_id@);
        }
        removed
    }

    /// The users assigned to `task_id`, in the order in which they were
    /// assigned.
    pub fn users_of(&self, task_id: &String) -> (users: Vec<String>)
        ensures
            texts_view(users@) == users_of(self@, task_id@),
    {
        let mut users: Vec<String> = Vec::new();
        let mut i: usize = 0;
        while i < self.rows.len()
            invariant
                i <= self.rows.len(),
                texts_view(users@) == users_of(self@.take(i as int), task_id@),
            decreases self.rows.len() - i,
        {
            proof {
                assert(self@.take(i as int + 1).drop_last() =~= self@.take(i as int));
                assert(self@.take(i as int + 1).last() == self@[i as int]);
            }
            if self.rows[i].task_id == *task_id {
                let ghost users_before = texts_view(users@);
                users.push(self.rows[i].user_id.clone());
                assert(texts_view(users@) =~= users_before.push(self@[i as int].user_id));
            }
            i += 1;
        }
        assert(self@.take(self.rows.len() as int) =~= self@);
        users
    }

    /// The tasks that `user_id` is assigned to, in the order in which the
    /// assignments were made.
    pub fn list_for_user(&self, user_id: &String) -> (tasks: Vec<String>)
        ensures
            texts_view(tasks@) == tasks_of(self@, user_id@),
    {
        let mut tasks: Vec<String> = Vec::new();
        let mut i: usize = 0;
        while i < self.rows.len()
            invariant
                i <= self.rows.len(),
                texts_view(tasks@) == tasks_of(self@.take(i as int), user_id@),
            decreases self.rows.len() - i,
        {
            proof {
                assert(self@.take(i as int + 1).drop_last() =~= self@.take(i as int));
                assert(self@.take(i as int + 1).last() == self@[i as int]);
            }
            if self.rows[i].user_id == *user_id {
                let ghost tasks_before = texts_view(tasks@);
                tasks.push(self.rows[i].task_id.clone());
                assert(texts_view(tasks@) =~= tasks_before.push(self@[i as int].task_id));
            }
            i += 1;
        }
        assert(self@.take(self.rows.len() as int) =~= self@);
        tasks
    }

    /// The assignments of `task_id` by ascending time of assignment.
    pub fn list_for_task(&self, task_id: &String) -> (result: Vec<TaskAssignee>)
        ensures
            is_assignee_listing(assignee_views(result@), self@, task_id@),
    {
        let n = self.rows.len();
        let mut keys: Vec<u64> = Vec::new();
        let mut wanted: Vec<bool> = Vec::new();
        let mut i: usize = 0;
        while i < n
            invariant
                i <= n,
                n == self.rows.len(),
                keys.len() == i,
                wanted.len() == i,
                forall|k: int| 0 <= k < i ==> keys[k] == assignment_keys(self@)[k],
                forall|k: int| 0 <= k < i ==> wanted[k] == rows_of_task(self@, task_id@)[k],
            decreases n - i,
        {
            keys.push(self.rows[i].assigned_at);
            wanted.push(self.rows[i].task_id == *task_id);
            i += 1;
        }
        assert(keys@ =~= assignment_keys(self@));
        assert(wanted@ =~= rows_of_task(self@, task_id@));
        let picked = ordered_selection(&keys, &wanted);
        let mut result: Vec<TaskAssignee> = Vec::new();
        let mut k: usize = 0;
        while k < picked.len()
            invariant
                k <= picked.len(),
                is_ordered_selection(picked@, keys@, wanted@),
                keys.len() == self.rows.len(),
                result.len() == k,
                forall|j: int| 0 <= j < k ==> (#[trigger] result[j])@ == self@[picked[j] as int],
            decreases picked.len() - k,
        {
            result.push(self.rows[picked[k]].duplicate());
            k += 1;
        }
        assert(assignee_views(result@) =~= rows_at(self@, picked@));
        result
    }
}

/// Taking one row out keeps pairs unique and ends that one assignment only.
pub proof fn unassign_facts(rows: Seq<TaskAssigneeView>, i: int)
    requires
        pairs_unique(rows),
        0 <= i < rows.len(),
    ensures
        pairs_unique(rows.remove(i)),
        !is_assigned(rows.remove(i), rows[i].task_id, rows[i].user_id),
        forall|t: Seq<char>, u: Seq<char>|
            !(t == rows[i].task_id && u == rows[i].user_id) ==> is_assigned(rows.remove(i), t, u)
                == is_assigned(rows, t, u),
{
    let after = rows.remove(i);
    assert forall|a: int, b: int| 0 <= a < b < after.len() implies !((#[trigger] after[a]).task_id
        == (#[trigger] after[b]).task_id && after[a].user_id == after[b].user_id) by {
        let a0 = if a < i { a } else { a + 1 };
        let b0 = if b < i { b } else { b + 1 };
        assert(after[a] == rows[a0] && after[b] == rows[b0]);
    }
    assert(!is_assigned(after, rows[i].task_id, rows[i].user_id)) by {
        if is_assigned(after, rows[i].task_id, rows[i].user_id) {
            let a = choose|a: int|
                0 <= a < after.len() && (#[trigger] after[a]).task_id == rows[i].task_id
                    && after[a].user_id == rows[i].user_id;
            let a0 = if a < i { a } else { a + 1 };
            assert(after[a] == rows[a0]);
            if a0 < i {
                assert(!(rows[a0].task_id == rows[i].task_id && rows[a0].user_id
                    == rows[i].user_id));
            } else {
                assert(!(rows[i].task_id == rows[a0].task_id && rows[i].user_id
                    == rows[a0].user_id));
            }
        }
    }
    assert forall|t: Seq<char>, u: Seq<char>|
        !(t == rows[i].task_id && u == rows[i].user_id) implies is_assigned(after, t, u)
            == is_assigned(rows, t, u) by {
        if is_assigned(after, t, u) {
            let a = choose|a: int|
                0 <= a < after.len() && (#[trigger] after[a]).task_id == t && after[a].user_id == u;
            let a0 = if a < i { a } else { a + 1 };
            assert(rows[a0].task_id == t && rows[a0].user_id == u);
        }
        if is_assigned(rows, t, u) {
            let a0 = choose|a: int|
                0 <= a < rows.len() && (#[trigger] rows[a]).task_id == t && rows[a].user_id == u;
            let a = if a0 < i { a0 } else { a0 - 1 };
            assert(after[a].task_id == t && after[a].user_id == u);
        }
    }
}

} // verus!
