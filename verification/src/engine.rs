//! The task lifecycle engine: the operations that create, change, delete,
//! assign and list tasks, each recorded in the audit trail.
//!
//! An operation that needs new identifiers or the time comes in two forms.
//! The form that ends in `_as`, `_at` or `_on` takes them as arguments and is
//! held exactly to the state machine of `model`. The plain form draws random
//! identifiers, reads the clock and hands both to the first.

use vstd::prelude::*;
use crate::assignees::{
    assign_all_rows, is_assigned, is_assignee_listing, rows_without_task_rows, users_of,
    AssigneeRegistry,
};
use crate::audit::{entry_count, is_history, AuditTrail};
use crate::clock::{now_seconds, read_clock, ClockReading};
use crate::date::Date;
use crate::directory::{summary_view, summary_views, Directory};
use crate::error::EngineError;
use crate::ids::fresh_id;
use crate::model::{
    add_assignees_step, create_step, delete_step, due_flags, engine_wf, is_due_listing,
    is_due_listing_by,
    is_urgent_listing, kept_entries, kept_rows, kept_tasks, no_orphans, known_assignments,
    project_name_for, remove_assignee_step, shown_assignees, status_step, update_step,
    urgency_keys, AssigneeDetailsView, CreatedView, EngineView,
};
use crate::models::users::UserSummary;
use crate::models::tasks::{
    assignee_views, history_views, task_views, CreateTaskRequest, GetTasksQuery, HistoryAction,
    Task, TaskAssignee, TaskHistory, UpdateTaskRequest,
};
use crate::status::{TaskStatus, TransitionPolicy};
use crate::store::{
    done_since_flags, has_task, is_listing, is_project_listing, open_urgent_flags, pending_flags,
    position_of, TaskCounts, push_keeps_ids, removal_keeps_store, replacement_keeps_ids, task_of,
    TaskStore,
};
use crate::text::{copy_texts, opt_text_is, opt_view, texts_view};

verus! {

/// What a successful creation returns: the task as stored and the list of
/// users that was resolved for it, as it was given (a user who was named
/// twice is in it twice, and assigned once).
#[derive(Debug)]
pub struct CreatedTask {
    pub task: Task,
    pub assignee_ids: Vec<String>,
}

impl View for CreatedTask {
    type V = CreatedView;

    open spec fn view(&self) -> CreatedView {
        CreatedView { task: self.task@, assignee_ids: texts_view(self.assignee_ids@) }
    }
}

/// A task of a listing, with the name of its project where it has one that
/// the directory knows, and with what is shown of its assignees.
#[derive(Debug)]
pub struct ListedTask {
    pub task: Task,
    pub project_name: Option<String>,
    pub assignees: Vec<UserSummary>,
}

impl ListedTask {
    /// The task is shown as the state has it: with the name of its project
    /// and with those of its assignees that the directory knows.
    pub open spec fn shows(self, s: EngineView) -> bool {
        &&& opt_view(self.project_name) == project_name_for(s, self.task@)
        &&& summary_views(self.assignees@) == shown_assignees(s, self.task@.id)
    }
}

/// An assignment with what is shown of its user, and the user's address.
#[derive(Debug)]
pub struct AssigneeDetails {
    pub user: UserSummary,
    pub email: String,
    pub assigned_at: u64,
}

impl View for AssigneeDetails {
    type V = AssigneeDetailsView;

    open spec fn view(&self) -> AssigneeDetailsView {
        AssigneeDetailsView {
            user: summary_view(self.user),
            email: self.email@,
            assigned_at: self.assigned_at,
        }
    }
}

/// The views of a list of assignments with their users, in order.
pub open spec fn details_views(details: Seq<AssigneeDetails>) -> Seq<AssigneeDetailsView> {
    Seq::new(details.len(), |i: int| details[i]@)
}

/// The tasks of a listing, in order.
pub open spec fn listed_tasks(listed: Seq<ListedTask>) -> Seq<Task> {
    Seq::new(listed.len(), |i: int| listed[i].task)
}

/// The state that holds the lists given.
pub open spec fn restored_view(
    tasks: Seq<crate::models::tasks::TaskView>,
    rows: Seq<crate::models::tasks::TaskAssigneeView>,
    entries: Seq<crate::models::tasks::TaskHistoryView>,
    directory: crate::directory::DirectoryView,
    policy: TransitionPolicy,
) -> EngineView {
    EngineView { tasks, assignees: rows, history: entries, directory, policy }
}

/// The engine: the task store, the assignee registry, the audit trail, the
/// directory snapshot that it reads and the policy on status writes.
pub struct Engine {
    store: TaskStore,
    registry: AssigneeRegistry,
    trail: AuditTrail,
    directory: Directory,
    policy: TransitionPolicy,
}

impl View for Engine {
    type V = EngineView;

    closed spec fn view(&self) -> EngineView {
        EngineView {
            tasks: self.store@,
            assignees: self.registry@,
            history: self.trail@,
            directory: self.directory@,
            policy: self.policy,
        }
    }
}

impl Engine {
    /// The invariant of the engine.
    pub open spec fn wf(&self) -> bool {
        engine_wf(self@)
    }

    /// An engine without tasks, assignments or history.
    pub fn new(directory: Directory, policy: TransitionPolicy) -> (engine: Engine)
        ensures
            engine.wf(),
            engine@.tasks.len() == 0,
            engine@.assignees.len() == 0,
            engine@.history.len() == 0,
            engine@.directory == directory@,
            engine@.policy == policy,
    {
        Engine {
            store: TaskStore::new(),
            registry: AssigneeRegistry::new(),
            trail: AuditTrail::new(),
            directory,
            policy,
        }
    }

    /// An engine that holds the tasks, assignments and history entries
    /// given, in their order. The three lists must together meet the
    /// invariant of the engine; where they do not, the answer is
    /// `Validation`.
    pub fn restore(
        tasks: &Vec<Task>,
        rows: &Vec<TaskAssignee>,
        entries: &Vec<TaskHistory>,
        directory: Directory,
        policy: TransitionPolicy,
    ) -> (r: Result<Engine, EngineError>)
        ensures
            r.is_ok() == engine_wf(
                restored_view(
                    task_views(tasks@),
                    assignee_views(rows@),
                    history_views(entries@),
                    directory@,
                    policy,
                ),
            ),
            r matches Ok(engine) ==> engine@ == restored_view(
                task_views(tasks@),
                assignee_views(rows@),
                history_views(entries@),
                directory@,
                policy,
            ),
            r matches Err(e) ==> e == EngineError::Validation,
    {
        let ghost given_tasks = task_views(tasks@);
        let ghost given_rows = assignee_views(rows@);
        let ghost given_entries = history_views(entries@);
        let mut store = TaskStore::new();
        let mut i: usize = 0;
        while i < tasks.len()
            invariant
                i <= tasks.len(),
                given_tasks == task_views(tasks@),
                store.wf(),
                store@ == given_tasks.take(i as int),
            decreases tasks.len() - i,
        {
            let ghost before = store@;
            match store.insert(tasks[i].duplicate()) {
                Ok(()) => {
                    assert(store@ =~= given_tasks.take(i as int + 1));
                },
                Err(_) => {
                    proof {
                        if given_tasks[i as int].wf() {
                            let j = choose|j: int|
                                0 <= j < before.len() && (#[trigger] before[j]).id
                                    == given_tasks[i as int].id;
                            assert(given_tasks[j] == before[j]);
                            assert(!crate::store::ids_unique(given_tasks));
                        }
                    }
                    return Err(EngineError::Validation);
                },
            }
            i += 1;
        }
        assert(given_tasks.take(tasks.len() as int) =~= given_tasks);
        let mut registry = AssigneeRegistry::new();
        let mut i: usize = 0;
        while i < rows.len()
            invariant
                i <= rows.len(),
                given_rows == assignee_views(rows@),
                given_tasks == task_views(tasks@),
                store.wf(),
                store@ == given_tasks,
                registry.wf(),
                registry@ == given_rows.take(i as int),
                no_orphans(given_tasks, given_rows.take(i as int)),
            decreases rows.len() - i,
        {
            let ghost before = registry@;
            if !store.contains(&rows[i].task_id) {
                proof {
                    let row = given_rows[i as int];
                    assert(row.task_id == rows[i as int].task_id@);
                    assert(!has_task(given_tasks, row.task_id));
                    assert(!no_orphans(given_tasks, given_rows));
                }
                return Err(EngineError::Validation);
            }
            if !registry.load(rows[i].duplicate()) {
                proof {
                    let j = choose|j: int|
                        0 <= j < before.len() && (#[trigger] before[j]).task_id
                            == given_rows[i as int].task_id && before[j].user_id
                            == given_rows[i as int].user_id;
                    assert(given_rows[j] == before[j]);
                    assert(!crate::assignees::pairs_unique(given_rows));
                }
                return Err(EngineError::Validation);
            }
            proof {
                assert(registry@ =~= given_rows.take(i as int + 1));
                assert forall|k: int| 0 <= k < registry@.len() implies has_task(
                    given_tasks,
                    (#[trigger] registry@[k]).task_id,
                ) by {
                    if k < i {
                        assert(registry@[k] == given_rows.take(i as int)[k]);
                    }
                }
            }
            i += 1;
        }
        assert(given_rows.take(rows.len() as int) =~= given_rows);
        let mut trail = AuditTrail::new();
        let mut i: usize = 0;
        while i < entries.len()
            invariant
                i <= entries.len(),
                given_entries == history_views(entries@),
                given_rows == assignee_views(rows@),
                given_tasks == task_views(tasks@),
                store.wf(),
                store@ == given_tasks,
                registry.wf(),
                registry@ == given_rows,
                no_orphans(given_tasks, given_rows),
                trail.wf(),
                trail@ == given_entries.take(i as int),
            decreases entries.len() - i,
        {
            let ghost before = trail@;
            match trail.append(entries[i].duplicate()) {
                Ok(()) => {
                    assert(trail@ =~= given_entries.take(i as int + 1));
                },
                Err(_) => {
                    proof {
                        let j = choose|j: int|
                            0 <= j < before.len() && (#[trigger] before[j]).id
                                == given_entries[i as int].id;
                        assert(given_entries[j] == before[j]);
                        assert(!crate::audit::entry_ids_unique(given_entries));
                    }
                    return Err(EngineError::Validation);
                },
            }
            i += 1;
        }
        assert(given_entries.take(entries.len() as int) =~= given_entries);
        Ok(Engine { store, registry, trail, directory, policy })
    }

    /// An engine that holds, of the tasks, assignments and history entries
    /// given, all that fit together, in their order. Left out are a task that
    /// is not well-formed or repeats an identifier, an assignment to a task
    /// that was not kept or of a user already assigned to it, and a history
    /// entry that repeats an identifier.
    pub fn salvage(
        tasks: &Vec<Task>,
        rows: &Vec<TaskAssignee>,
        entries: &Vec<TaskHistory>,
        directory: Directory,
        policy: TransitionPolicy,
    ) -> (engine: Engine)
        ensures
            engine.wf(),
            engine@ == restored_view(
                kept_tasks(task_views(tasks@)),
                kept_rows(kept_tasks(task_views(tasks@)), assignee_views(rows@)),
                kept_entries(history_views(entries@)),
                directory@,
                policy,
            ),
    {
        let ghost given_tasks = task_views(tasks@);
        let ghost given_rows = assignee_views(rows@);
        let ghost given_entries = history_views(entries@);
        let mut store = TaskStore::new();
        let mut i: usize = 0;
        assert(given_tasks.take(0) =~= Seq::<crate::models::tasks::TaskView>::empty());
        while i < tasks.len()
            invariant
                i <= tasks.len(),
                given_tasks == task_views(tasks@),
                store.wf(),
                store@ == kept_tasks(given_tasks.take(i as int)),
            decreases tasks.len() - i,
        {
            proof {
                assert(given_tasks.take(i as int + 1).drop_last() =~= given_tasks.take(i as int));
                assert(given_tasks.take(i as int + 1).last() == tasks[i as int]@);
            }
            let _ = store.insert(tasks[i].duplicate());
            i += 1;
        }
        assert(given_tasks.take(tasks.len() as int) =~= given_tasks);
        let ghost stored = store@;
        let mut registry = AssigneeRegistry::new();
        let mut i: usize = 0;
        assert(given_rows.take(0) =~= Seq::<crate::models::tasks::TaskAssigneeView>::empty());
        while i < rows.len()
            invariant
                i <= rows.len(),
                given_rows == assignee_views(rows@),
                store.wf(),
                store@ == stored,
                registry.wf(),
                registry@ == kept_rows(stored, given_rows.take(i as int)),
                no_orphans(stored, registry@),
            decreases rows.len() - i,
        {
            proof {
                assert(given_rows.take(i as int + 1).drop_last() =~= given_rows.take(i as int));
                assert(given_rows.take(i as int + 1).last() == rows[i as int]@);
            }
            let ghost before = registry@;
            if store.contains(&rows[i].task_id) {
                let _ = registry.load(rows[i].duplicate());
                proof {
                    assert forall|k: int| 0 <= k < registry@.len() implies has_task(
                        stored,
                        (#[trigger] registry@[k]).task_id,
                    ) by {
                        if k < before.len() {
                            assert(registry@[k] == before[k]);
                        }
                    }
                }
            }
            i += 1;
        }
        assert(given_rows.take(rows.len() as int) =~= given_rows);
        let mut trail = AuditTrail::new();
        let mut i: usize = 0;
        assert(given_entries.take(0) =~= Seq::<crate::models::tasks::TaskHistoryView>::empty());
        while i < entries.len()
            invariant
                i <= entries.len(),
                given_entries == history_views(entries@),
                trail.wf(),
                trail@ == kept_entries(given_entries.take(i as int)),
            decreases entries.len() - i,
        {
            proof {
                assert(given_entries.take(i as int + 1).drop_last() =~= given_entries.take(i as int));
                assert(given_entries.take(i as int + 1).last() == entries[i as int]@);
            }
            let _ = trail.append(entries[i].duplicate());
            i += 1;
        }
        assert(given_entries.take(entries.len() as int) =~= given_entries);
        Engine { store, registry, trail, directory, policy }
    }

    /// A copy of every task, in the order of creation.
    pub fn all_tasks(&self) -> (result: Vec<Task>)
        ensures
            task_views(result@) == self@.tasks,
    {
        self.store.list_all()
    }

    /// A copy of every assignment, in the order in which they were made.
    pub fn all_assignments(&self) -> (result: Vec<TaskAssignee>)
        ensures
            assignee_views(result@) == self@.assignees,
    {
        self.registry.all()
    }

    /// A copy of every history entry, in the order in which they were
    /// recorded.
    pub fn all_history(&self) -> (result: Vec<TaskHistory>)
        ensures
            history_views(result@) == self@.history,
    {
        self.trail.all()
    }

    /// Replaces the directory snapshot; tasks, assignments and history stay.
    pub fn set_directory(&mut self, directory: Directory)
        requires
            old(self).wf(),
        ensures
            final(self).wf(),
            final(self)@ == (EngineView { directory: directory@, ..old(self)@ }),
    {
        self.directory = directory;
    }

    /// Replaces the policy on status writes; everything else stays.
    pub fn set_policy(&mut self, policy: TransitionPolicy)
        requires
            old(self).wf(),
        ensures
            final(self).wf(),
            final(self)@ == (EngineView { policy, ..old(self)@ }),
    {
        self.policy = policy;
    }

    /// The policy on status writes.
    pub fn policy(&self) -> (policy: TransitionPolicy)
        ensures
            policy == self@.policy,
    {
        self.policy
    }

    /// The number of tasks.
    pub fn task_count(&self) -> (n: usize)
        ensures
            n == self@.tasks.len(),
    {
        self.store.len()
    }

    /// The number of assignments.
    pub fn assignment_count(&self) -> (n: usize)
        ensures
            n == self@.assignees.len(),
    {
        self.registry.len()
    }

    /// The number of history entries.
    pub fn history_count(&self) -> (n: usize)
        ensures
            n == self@.history.len(),
    {
        self.trail.len()
    }

    /// The task with identifier `task_id`; `NotFound` where there is none.
    pub fn get_task(&self, task_id: &String) -> (r: Result<Task, EngineError>)
        requires
            self.wf(),
        ensures
            r.is_ok() == has_task(self@.tasks, task_id@),
            r matches Ok(t) ==> t@ == task_of(self@.tasks, task_id@) && t@.id == task_id@
                && t@.wf(),
            r matches Err(e) ==> e == EngineError::NotFound,
    {
        self.store.get(task_id)
    }

    /// Creates a task under the identifiers given; see `create_step`.
    pub fn create_task_as(
        &mut self,
        task_id: String,
        history_id: String,
        req: &CreateTaskRequest,
        user_id: &String,
        now: u64,
    ) -> (r: Result<CreatedTask, EngineError>)
        requires
            old(self).wf(),
        ensures
            final(self).wf(),
            final(self)@ == create_step(old(self)@, task_id@, history_id@, *req, user_id@, now).state,
            r matches Ok(c) ==> create_step(
                old(self)@,
                task_id@,
                history_id@,
                *req,
                user_id@,
                now,
            ).result == Ok::<CreatedView, EngineError>(c@),
            r matches Err(e) ==> create_step(
                old(self)@,
                task_id@,
                history_id@,
                *req,
                user_id@,
                now,
            ).result == Err::<CreatedView, EngineError>(e),
    {
        let ghost before = self@;
        let task = match self.store.create(task_id, req, user_id, now) {
            Ok(task) => task,
            Err(e) => { return Err(e); },
        };
        proof {
            push_keeps_ids(before.tasks, task@);
        }
        match self.trail.record(history_id, &task.id, user_id, HistoryAction::Created, now) {
            Ok(()) => {},
            Err(_) => { return Err(EngineError::Storage { applied: true }); },
        }
        let mut resolved: Vec<String> = Vec::new();
        let mut named = false;
        match &req.assignee_ids {
            Some(ids) => {
                if ids.len() > 0 {
                    proof {
                        assign_all_rows(before.assignees, task@.id, texts_view(ids@), user_id@, now);
                    }
                    let _ = self.registry.put_all(&task.id, ids, user_id, now);
                    resolved = copy_texts(ids);
                    named = true;
                }
            },
            None => {},
        }
        if !named {
            match &task.project_id {
                Some(project_id) => {
                    proof {
                        assign_all_rows(
                            before.assignees,
                            task@.id,
                            crate::directory::members_of(before.directory.members, project_id@),
                            crate::assignees::system_actor(),
                            now,
                        );
                    }
                    let _ = self.registry.cascade_from_project(
                        &self.store,
                        &self.directory,
                        &task.id,
                        project_id,
                        now,
                    );
                    resolved = self.directory.members_of(project_id);
                },
                None => {
                    assert(texts_view(resolved@) =~= Seq::<Seq<char>>::empty());
                },
            }
        }
        Ok(CreatedTask { task, assignee_ids: resolved })
    }

    /// Creates a task now, under new random identifiers. Whichever
    /// identifiers were drawn and whatever the clock said, the engine did
    /// what `create_step` says for them.
    pub fn create_task(&mut self, req: &CreateTaskRequest, user_id: &String) -> (r: Result<
        CreatedTask,
        EngineError,
    >)
        requires
            old(self).wf(),
        ensures
            final(self).wf(),
            exists|task_id: Seq<char>, history_id: Seq<char>, now: u64|
                {
                    let step = #[trigger] create_step(
                        old(self)@,
                        task_id,
                        history_id,
                        *req,
                        user_id@,
                        now,
                    );
                    &&& task_id.len() == 36
                    &&& history_id.len() == 36
                    &&& final(self)@ == step.state
                    &&& (r matches Ok(c) ==> step.result == Ok::<CreatedView, EngineError>(c@))
                    &&& (r matches Err(e) ==> step.result == Err::<CreatedView, EngineError>(e))
                },
    {
        let task_id = fresh_id();
        let history_id = fresh_id();
        let now = now_seconds();
        self.create_task_as(task_id, history_id, req, user_id, now)
    }

    /// Updates a task, recording the change under the history identifier
    /// given; see `update_step`.
    pub fn update_task_as(
        &mut self,
        history_id: String,
        task_id: &String,
        patch: &UpdateTaskRequest,
        user_id: &String,
        now: u64,
    ) -> (r: Result<Task, EngineError>)
        requires
            old(self).wf(),
        ensures
            final(self).wf(),
            final(self)@ == update_step(old(self)@, task_id@, history_id@, *patch, user_id@, now).state,
            r matches Ok(t) ==> update_step(
                old(self)@,
                task_id@,
                history_id@,
                *patch,
                user_id@,
                now,
            ).result == Ok::<crate::models::tasks::TaskView, EngineError>(t@),
            r matches Err(e) ==> update_step(
                old(self)@,
                task_id@,
                history_id@,
                *patch,
                user_id@,
                now,
            ).result == Err::<crate::models::tasks::TaskView, EngineError>(e),
    {
        let ghost before = self@;
        let old_status = match self.store.get(task_id) {
            Ok(t) => t.status,
            Err(_) => TaskStatus::Pending,
        };
        let task = match self.store.update(task_id, patch, self.policy, now) {
            Ok(task) => task,
            Err(e) => { return Err(e); },
        };
        proof {
            replacement_keeps_ids(before.tasks, position_of(before.tasks, task_id@), task@);
        }
        let recorded = match &patch.status {
            Some(s) => match TaskStatus::parse(s) {
                Some(next) => self.trail.record_status_change(
                    history_id,
                    task_id,
                    user_id,
                    old_status,
                    next,
                    now,
                ),
                None => self.trail.record(history_id, task_id, user_id, HistoryAction::Updated, now),
            },
            None => self.trail.record(history_id, task_id, user_id, HistoryAction::Updated, now),
        };
        match recorded {
            Ok(()) => Ok(task),
            Err(_) => Err(EngineError::Storage { applied: true }),
        }
    }

    /// Updates a task now, recording the change under a new random
    /// identifier. Whichever identifier was drawn and whatever the clock
    /// said, the engine did what `update_step` says for them.
    pub fn update_task(&mut self, task_id: &String, patch: &UpdateTaskRequest, user_id: &String) -> (r:
        Result<Task, EngineError>)
        requires
            old(self).wf(),
        ensures
            final(self).wf(),
            exists|history_id: Seq<char>, now: u64|
                {
                    let step = #[trigger] update_step(
                        old(self)@,
                        task_id@,
                        history_id,
                        *patch,
                        user_id@,
                        now,
                    );
                    &&& history_id.len() == 36
                    &&& final(self)@ == step.state
                    &&& (r matches Ok(t) ==> step.result == Ok::<
                        crate::models::tasks::TaskView,
                        EngineError,
                    >(t@))
                    &&& (r matches Err(e) ==> step.result == Err::<
                        crate::models::tasks::TaskView,
                        EngineError,
                    >(e))
                },
    {
        let history_id = fresh_id();
        let now = now_seconds();
        self.update_task_as(history_id, task_id, patch, user_id, now)
    }

    /// Writes the status of a task, recording the change under the history
    /// identifier given; see `status_step`.
    pub fn change_status_as(
        &mut self,
        history_id: String,
        task_id: &String,
        status: &String,
        user_id: &String,
        now: u64,
    ) -> (r: Result<Task, EngineError>)
        requires
            old(self).wf(),
        ensures
            final(self).wf(),
            final(self)@ == status_step(old(self)@, task_id@, history_id@, status@, user_id@, now).state,
            r matches Ok(t) ==> status_step(
                old(self)@,
                task_id@,
                history_id@,
                status@,
                user_id@,
                now,
            ).result == Ok::<crate::models::tasks::TaskView, EngineError>(t@),
            r matches Err(e) ==> status_step(
                old(self)@,
                task_id@,
                history_id@,
                status@,
                user_id@,
                now,
            ).result == Err::<crate::models::tasks::TaskView, EngineError>(e),
    {
        let ghost before = self@;
        let change = match self.store.set_status(task_id, status, self.policy, now) {
            Ok(change) => change,
            Err(e) => { return Err(e); },
        };
        proof {
            replacement_keeps_ids(
                before.tasks,
                position_of(before.tasks, task_id@),
                crate::store::with_status(task_of(before.tasks, task_id@), change.1, now),
            );
        }
        match self.trail.record_status_change(
            history_id,
            task_id,
            user_id,
            change.0,
            change.1,
            now,
        ) {
            Ok(()) => {},
            Err(_) => { return Err(EngineError::Storage { applied: true }); },
        }
        self.store.get(task_id)
    }

    /// Writes the status of a task now, recording the change under a new
    /// random identifier. Whichever identifier was drawn and whatever the
    /// clock said, the engine did what `status_step` says for them.
    pub fn change_status(&mut self, task_id: &String, status: &String, user_id: &String) -> (r:
        Result<Task, EngineError>)
        requires
            old(self).wf(),
        ensures
            final(self).wf(),
            exists|history_id: Seq<char>, now: u64|
                {
                    let step = #[trigger] status_step(
                        old(self)@,
                        task_id@,
                        history_id,
                        status@,
                        user_id@,
                        now,
                    );
                    &&& history_id.len() == 36
                    &&& final(self)@ == step.state
                    &&& (r matches Ok(t) ==> step.result == Ok::<
                        crate::models::tasks::TaskView,
                        EngineError,
                    >(t@))
                    &&& (r matches Err(e) ==> step.result == Err::<
                        crate::models::tasks::TaskView,
                        EngineError,
                    >(e))
                },
    {
        let history_id = fresh_id();
        let now = now_seconds();
        self.change_status_as(history_id, task_id, status, user_id, now)
    }

    /// Deletes a task, recording the deletion under the history identifier
    /// given; see `delete_step`.
    pub fn delete_task_as(&mut self, history_id: String, task_id: &String, user_id: &String, now: u64) -> (r:
        Result<(), EngineError>)
        requires
            old(self).wf(),
        ensures
            final(self).wf(),
            final(self)@ == delete_step(old(self)@, task_id@, history_id@, user_id@, now).state,
            r == delete_step(old(self)@, task_id@, history_id@, user_id@, now).result,
    {
        let ghost before = self@;
        match self.trail.record(history_id, task_id, user_id, HistoryAction::Deleted, now) {
            Ok(()) => {},
            Err(e) => { return Err(e); },
        }
        match self.store.delete(task_id, &mut self.registry) {
            Ok(()) => {},
            Err(e) => { return Err(e); },
        }
        proof {
            let i = position_of(before.tasks, task_id@);
            removal_keeps_store(before.tasks, i);
            rows_without_task_rows(before.assignees, task_id@);
            assert forall|k: int| 0 <= k < self@.assignees.len() implies has_task(
                self@.tasks,
                (#[trigger] self@.assignees[k]).task_id,
            ) by {
                let row = self@.assignees[k];
                assert(before.assignees.contains(row));
                let j = choose|j: int| 0 <= j < before.assignees.len() && before.assignees[j] == row;
                assert(has_task(before.tasks, before.assignees[j].task_id));
            }
        }
        Ok(())
    }

    /// Deletes a task now, recording the deletion under a new random
    /// identifier. Whichever identifier was drawn and whatever the clock
    /// said, the engine did what `delete_step` says for them.
    pub fn delete_task(&mut self, task_id: &String, user_id: &String) -> (r: Result<(), EngineError>)
        requires
            old(self).wf(),
        ensures
            final(self).wf(),
            exists|history_id: Seq<char>, now: u64|
                {
                    let step = #[trigger] delete_step(old(self)@, task_id@, history_id, user_id@, now);
                    &&& history_id.len() == 36
                    &&& final(self)@ == step.state
                    &&& r == step.result
                },
    {
        let history_id = fresh_id();
        let now = now_seconds();
        self.delete_task_as(history_id, task_id, user_id, now)
    }

    /// Assigns each of `user_ids` to the task now and returns how many of the
    /// assignments were new. Whatever the clock said, the engine did what
    /// `add_assignees_step` says for it.
    pub fn add_assignees(&mut self, task_id: &String, user_ids: &Vec<String>, assigned_by: &String) -> (r:
        Result<usize, EngineError>)
        requires
            old(self).wf(),
        ensures
            final(self).wf(),
            exists|now: u64|
                {
                    let step = #[trigger] add_assignees_step(
                        old(self)@,
                        task_id@,
                        texts_view(user_ids@),
                        assigned_by@,
                        now,
                    );
                    &&& final(self)@ == step.state
                    &&& r == step.result
                },
    {
        let now = now_seconds();
        self.add_assignees_at(task_id, user_ids, assigned_by, now)
    }

    /// Assigns each of `user_ids` to the task at the time `now` and returns
    /// how many of the assignments were new; see `add_assignees_step`.
    pub fn add_assignees_at(
        &mut self,
        task_id: &String,
        user_ids: &Vec<String>,
        assigned_by: &String,
        now: u64,
    ) -> (r: Result<usize, EngineError>)
        requires
            old(self).wf(),
        ensures
            final(self).wf(),
            final(self)@ == add_assignees_step(
                old(self)@,
                task_id@,
                texts_view(user_ids@),
                assigned_by@,
                now,
            ).state,
            r == add_assignees_step(
                old(self)@,
                task_id@,
                texts_view(user_ids@),
                assigned_by@,
                now,
            ).result,
    {
        proof {
            assign_all_rows(self@.assignees, task_id@, texts_view(user_ids@), assigned_by@, now);
        }
        self.registry.assign_all(&self.store, task_id, user_ids, assigned_by, now)
    }

    /// Ends the assignment of `user_id` to the task; see
    /// `remove_assignee_step`.
    pub fn remove_assignee(&mut self, task_id: &String, user_id: &String) -> (r: Result<
        (),
        EngineError,
    >)
        requires
            old(self).wf(),
        ensures
            final(self).wf(),
            final(self)@ == remove_assignee_step(old(self)@, task_id@, user_id@).state,
            r == remove_assignee_step(old(self)@, task_id@, user_id@).result,
    {
        let ghost before = self@;
        match self.registry.unassign(task_id, user_id) {
            Ok(()) => {
                proof {
                    let i = crate::assignees::assignment_position(
                        before.assignees,
                        task_id@,
                        user_id@,
                    );
                    assert forall|k: int| 0 <= k < self@.assignees.len() implies has_task(
                        self@.tasks,
                        (#[trigger] self@.assignees[k]).task_id,
                    ) by {
                        let k0 = if k < i { k } else { k + 1 };
                        assert(self@.assignees[k] == before.assignees[k0]);
                    }
                }
                Ok(())
            },
            Err(e) => Err(e),
        }
    }

    /// Whether `user_id` is assigned to `task_id` in the registry.
    pub fn is_assigned(&self, task_id: &String, user_id: &String) -> (assigned: bool)
        requires
            self.wf(),
        ensures
            assigned == is_assigned(self@.assignees, task_id@, user_id@),
    {
        self.registry.is_assigned(task_id, user_id)
    }

    /// The users assigned to `task_id`, in the order in which they were
    /// assigned.
    pub fn assignee_ids(&self, task_id: &String) -> (users: Vec<String>)
        ensures
            texts_view(users@) == users_of(self@.assignees, task_id@),
    {
        self.registry.users_of(task_id)
    }

    /// The assignments of `task_id` by ascending time of assignment.
    pub fn get_task_assignments(&self, task_id: &String) -> (result: Vec<TaskAssignee>)
        ensures
            is_assignee_listing(assignee_views(result@), self@.assignees, task_id@),
    {
        self.registry.list_for_task(task_id)
    }

    /// The assignees of `task_id` that the directory knows, by ascending
    /// time of assignment, each with what is shown of the user and with the
    /// user's address.
    pub fn get_task_assignees(&self, task_id: &String) -> (result: Vec<AssigneeDetails>)
        ensures
            exists|listing: Seq<crate::models::tasks::TaskAssigneeView>| #[trigger]
                is_assignee_listing(listing, self@.assignees, task_id@) && details_views(result@)
                    == known_assignments(listing, self@.directory),
    {
        let rows = self.registry.list_for_task(task_id);
        let ghost listing = assignee_views(rows@);
        let mut result: Vec<AssigneeDetails> = Vec::new();
        let mut i: usize = 0;
        while i < rows.len()
            invariant
                i <= rows.len(),
                listing == assignee_views(rows@),
                is_assignee_listing(listing, self@.assignees, task_id@),
                details_views(result@) == known_assignments(
                    listing.take(i as int),
                    self@.directory,
                ),
            decreases rows.len() - i,
        {
            proof {
                assert(listing.take(i as int + 1).drop_last() =~= listing.take(i as int));
                assert(listing.take(i as int + 1).last() == rows[i as int]@);
            }
            match self.directory.user_summary(&rows[i].user_id) {
                Some(user) => {
                    let ghost result_before = details_views(result@);
                    let details = AssigneeDetails {
                        user,
                        email: self.directory.user_email(&rows[i].user_id),
                        assigned_at: rows[i].assigned_at,
                    };
                    let ghost shown = details@;
                    result.push(details);
                    assert(details_views(result@) =~= result_before.push(shown));
                },
                None => {},
            }
            i += 1;
        }
        assert(listing.take(rows.len() as int) =~= listing);
        result
    }

    /// The tasks that `user_id` is assigned to in the registry, in the order
    /// in which the assignments were made.
    pub fn assigned_task_ids(&self, user_id: &String) -> (tasks: Vec<String>)
        ensures
            texts_view(tasks@) == crate::assignees::tasks_of(self@.assignees, user_id@),
    {
        self.registry.list_for_user(user_id)
    }

    /// The history of `task_id`, newest first. It is there whether or not
    /// the task still exists.
    pub fn get_task_history(&self, task_id: &String) -> (result: Vec<TaskHistory>)
        ensures
            is_history(history_views(result@), self@.history, task_id@),
            result.len() == entry_count(self@.history, task_id@),
    {
        self.trail.history(task_id)
    }

    /// The task as a listing shows it.
    fn listed(&self, task: Task) -> (listed: ListedTask)
        ensures
            listed.task == task,
            listed.shows(self@),
    {
        let project_name = match &task.project_id {
            Some(p) => self.directory.project_name(p),
            None => None,
        };
        let ids = self.registry.users_of(&task.id);
        let assignees = self.directory.summaries_of(&ids);
        ListedTask { task, project_name, assignees }
    }

    /// Answers a query: the tasks that pass it, by ascending deadline, cut to
    /// the page asked for, each with the name of its project and with its
    /// assignees.
    pub fn list_tasks(&self, q: &GetTasksQuery) -> (result: Vec<ListedTask>)
        requires
            self.wf(),
        ensures
            is_listing(task_views(listed_tasks(result@)), self@.tasks, *q),
            forall|i: int| 0 <= i < result.len() ==> (#[trigger] result[i]).shows(self@),
    {
        let tasks = self.store.list(q);
        self.listed_all(tasks)
    }

    /// The tasks given as a listing shows them, in their order.
    fn listed_all(&self, tasks: Vec<Task>) -> (result: Vec<ListedTask>)
        ensures
            task_views(listed_tasks(result@)) == task_views(tasks@),
            forall|i: int| 0 <= i < result.len() ==> (#[trigger] result[i]).shows(self@),
    {
        let ghost listing = task_views(tasks@);
        let mut result: Vec<ListedTask> = Vec::new();
        let total = tasks.len();
        let mut i: usize = 0;
        while i < total
            invariant
                i <= total,
                total == tasks.len(),
                result.len() == i,
                task_views(tasks@) == listing,
                forall|k: int| 0 <= k < i ==> (#[trigger] result[k]).task@ == listing[k],
                forall|k: int| 0 <= k < i ==> (#[trigger] result[k]).shows(self@),
            decreases total - i,
        {
            let task = tasks[i].duplicate();
            assert(task@ == listing[i as int]);
            result.push(self.listed(task));
            i += 1;
        }
        assert(task_views(listed_tasks(result@)) =~= listing);
        result
    }

    /// The tasks of the project `project_id`: those whose completion flag is
    /// not set first, by ascending deadline within each group.
    pub fn project_tasks(&self, project_id: &String) -> (result: Vec<Task>)
        requires
            self.wf(),
        ensures
            is_project_listing(task_views(result@), self@.tasks, project_id@),
    {
        self.store.list_for_project(project_id)
    }

    /// How many tasks are pending, how many are urgent and not completed,
    /// and how many are done and were last updated at `since` or later.
    pub fn task_counts(&self, since: u64) -> (counts: TaskCounts)
        ensures
            counts.pending == crate::order::count_wanted(pending_flags(self@.tasks)),
            counts.open_urgent == crate::order::count_wanted(open_urgent_flags(self@.tasks)),
            counts.done_lately == crate::order::count_wanted(done_since_flags(self@.tasks, since)),
    {
        self.store.counts(since)
    }

    /// The urgent tasks that are not completed, by ascending deadline, each
    /// with the name of its project and with its assignees.
    pub fn urgent_tasks(&self) -> (result: Vec<ListedTask>)
        requires
            self.wf(),
        ensures
            is_urgent_listing(task_views(listed_tasks(result@)), self@.tasks),
            forall|i: int| 0 <= i < result.len() ==> (#[trigger] result[i]).shows(self@),
    {
        let all = self.store.list_all();
        let n = all.len();
        let mut keys: Vec<u64> = Vec::new();
        let mut wanted: Vec<bool> = Vec::new();
        let mut i: usize = 0;
        while i < n
            invariant
                i <= n,
                n == all.len(),
                self.wf(),
                task_views(all@) == self@.tasks,
                keys.len() == i,
                wanted.len() == i,
                forall|k: int| 0 <= k < i ==> keys[k] == crate::store::deadline_keys(self@.tasks)[k],
                forall|k: int| 0 <= k < i ==> wanted[k] == open_urgent_flags(self@.tasks)[k],
            decreases n - i,
        {
            assert(all[i as int]@ == self@.tasks[i as int]);
            assert(self@.tasks[i as int].wf());
            keys.push(all[i].deadline.key());
            let urgent = all[i].urgency.rank() == 1;
            wanted.push(urgent && !all[i].status.same(TaskStatus::Completed));
            i += 1;
        }
        assert(keys@ =~= crate::store::deadline_keys(self@.tasks));
        assert(wanted@ =~= open_urgent_flags(self@.tasks));
        let tasks = self.store.select_all(&keys, &wanted);
        self.listed_all(tasks)
    }

    /// Whether the task reaches the user through the legacy assignee, the
    /// registry or the membership of its project.
    fn reaches(&self, task: &Task, user_id: &String) -> (reached: bool)
        requires
            self.wf(),
        ensures
            reached == crate::model::reaches(self@, task@, user_id@),
    {
        if opt_text_is(&task.assignee_id, user_id) {
            return true;
        }
        if self.registry.is_assigned(&task.id, user_id) {
            return true;
        }
        match &task.project_id {
            Some(p) => self.directory.is_member(p, user_id),
            None => false,
        }
    }

    /// The tasks that are due today for `user_id`, as `tasks_due_on` lists
    /// them for the date that the clock gives. Where the clock names a day
    /// outside the years 0 to 9999, on which no task can be due, the list is
    /// empty.
    pub fn tasks_due_today(&self, user_id: &String) -> (result: Vec<ListedTask>)
        requires
            self.wf(),
        ensures
            result.len() == 0 || exists|today: Date| #[trigger]
                is_due_listing(task_views(listed_tasks(result@)), self@, user_id@, today),
            forall|i: int| 0 <= i < result.len() ==> (#[trigger] result[i]).shows(self@),
    {
        let reading = read_clock();
        self.tasks_due_at(user_id, &reading)
    }

    /// The tasks that are due for `user_id` on the day that `reading` names,
    /// as `tasks_due_on` lists them; no task where the reading names a day
    /// outside the years 0 to 9999, or no day at all.
    pub fn tasks_due_at(&self, user_id: &String, reading: &ClockReading) -> (result: Vec<
        ListedTask,
    >)
        requires
            self.wf(),
        ensures
            is_due_listing_by(
                task_views(listed_tasks(result@)),
                self@,
                user_id@,
                reading.spec_date(),
            ),
            forall|i: int| 0 <= i < result.len() ==> (#[trigger] result[i]).shows(self@),
    {
        match reading.date() {
            Some(date) => self.tasks_due_on(user_id, date),
            None => Vec::new(),
        }
    }

    /// The tasks that are due on the day `today` for `user_id`: those whose
    /// deadline is that day, that are not completed, and that reach the user
    /// through the legacy assignee, the registry or the membership of their
    /// project. The most urgent come first. A task is listed once however
    /// many ways it reaches the user.
    pub fn tasks_due_on(&self, user_id: &String, today: Date) -> (result: Vec<ListedTask>)
        requires
            self.wf(),
        ensures
            is_due_listing(task_views(listed_tasks(result@)), self@, user_id@, today),
            forall|i: int| 0 <= i < result.len() ==> (#[trigger] result[i]).shows(self@),
    {
        let all = self.store.list_all();
        let n = all.len();
        let mut keys: Vec<u64> = Vec::new();
        let mut wanted: Vec<bool> = Vec::new();
        let mut i: usize = 0;
        while i < n
            invariant
                i <= n,
                n == all.len(),
                self.wf(),
                task_views(all@) == self@.tasks,
                keys.len() == i,
                wanted.len() == i,
                forall|k: int| 0 <= k < i ==> keys[k] == urgency_keys(self@.tasks)[k],
                forall|k: int| 0 <= k < i ==> wanted[k] == due_flags(self@, user_id@, today)[k],
            decreases n - i,
        {
            assert(all[i as int]@ == self@.tasks[i as int]);
            keys.push(all[i].urgency.rank());
            let due = all[i].deadline.same_day(&today) && !all[i].status.same(
                TaskStatus::Completed,
            ) && self.reaches(&all[i], user_id);
            wanted.push(due);
            i += 1;
        }
        assert(keys@ =~= urgency_keys(self@.tasks));
        assert(wanted@ =~= due_flags(self@, user_id@, today));
        let tasks = self.store.select_all(&keys, &wanted);
        self.listed_all(tasks)
    }
}

} // verus!
