//! The engine as a state machine over plain values: what each operation
//! returns and how it changes the three collections.
//!
//! The executable engine is held to these functions; the laws of the engine
//! are proved of them.

use vstd::prelude::*;
use crate::assignees::{
    assign_all, assignment_position, is_assigned, pairs_unique, rows_without_task,
    system_actor, users_of,
};
use crate::audit::{entry_ids_unique, has_entry};
use crate::date::Date;
use crate::directory::{
    email_named, is_member, known_users, members_of, project_name_of, user_named, DirectoryView,
    UserSummaryView,
};
use crate::error::EngineError;
use crate::models::tasks::{
    plain_entry, status_entry, CreateTaskRequest, HistoryAction, TaskAssigneeView,
    TaskHistoryView, TaskView, UpdateTaskRequest,
};
use crate::order::is_ordered_selection;
use crate::status::{TaskStatus, TransitionPolicy};
use crate::store::{
    deadline_keys, has_task, open_urgent_flags, position_of, status_refusal, store_wf, task_of, tasks_at, update_refusal,
    with_status,
};
use crate::text::texts_view;

verus! {

/// What the engine holds, as plain values.
pub struct EngineView {
    pub tasks: Seq<TaskView>,
    pub assignees: Seq<TaskAssigneeView>,
    pub history: Seq<TaskHistoryView>,
    pub directory: DirectoryView,
    pub policy: TransitionPolicy,
}

/// Every assignment belongs to a task that exists.
pub open spec fn no_orphans(tasks: Seq<TaskView>, rows: Seq<TaskAssigneeView>) -> bool {
    forall|i: int| 0 <= i < rows.len() ==> has_task(tasks, (#[trigger] rows[i]).task_id)
}

/// The invariant of the engine: the store, the registry and the trail are
/// each well-formed, and every assignment belongs to a task that exists.
pub open spec fn engine_wf(s: EngineView) -> bool {
    &&& store_wf(s.tasks)
    &&& pairs_unique(s.assignees)
    &&& entry_ids_unique(s.history)
    &&& no_orphans(s.tasks, s.assignees)
}

/// Of a list of tasks, those that can be stored one after the other: each
/// that is well-formed and whose identifier no task kept before it has.
pub open spec fn kept_tasks(tasks: Seq<TaskView>) -> Seq<TaskView>
    decreases tasks.len(),
{
    if tasks.len() == 0 {
        tasks
    } else {
        let head = kept_tasks(tasks.drop_last());
        if tasks.last().wf() && !has_task(head, tasks.last().id) {
            head.push(tasks.last())
        } else {
            head
        }
    }
}

/// Of a list of assignments, those that can be stored one after the other
/// beside `tasks`: each whose task is among `tasks` and whose user no
/// assignment kept before it assigns to that task.
pub open spec fn kept_rows(tasks: Seq<TaskView>, rows: Seq<TaskAssigneeView>) -> Seq<TaskAssigneeView>
    decreases rows.len(),
{
    if rows.len() == 0 {
        rows
    } else {
        let head = kept_rows(tasks, rows.drop_last());
        if has_task(tasks, rows.last().task_id) && !is_assigned(
            head,
            rows.last().task_id,
            rows.last().user_id,
        ) {
            head.push(rows.last())
        } else {
            head
        }
    }
}

/// Of a list of history entries, those that can be recorded one after the
/// other: each whose identifier no entry kept before it has.
pub open spec fn kept_entries(entries: Seq<TaskHistoryView>) -> Seq<TaskHistoryView>
    decreases entries.len(),
{
    if entries.len() == 0 {
        entries
    } else {
        let head = kept_entries(entries.drop_last());
        if !has_entry(head, entries.last().id) {
            head.push(entries.last())
        } else {
            head
        }
    }
}

/// The state after an operation, with what the operation returned.
pub struct Outcome<T> {
    pub state: EngineView,
    pub result: Result<T, EngineError>,
}

/// What a successful creation returns: the task and the list of users that
/// was resolved for it, as given.
pub struct CreatedView {
    pub task: TaskView,
    pub assignee_ids: Seq<Seq<char>>,
}

/// The users that a creation request names as assignees.
pub open spec fn requested_assignees(req: CreateTaskRequest) -> Seq<Seq<char>> {
    match req.assignee_ids {
        Some(ids) => texts_view(ids@),
        None => Seq::empty(),
    }
}

/// The users that a creation resolves as assignees, as they were given: the
/// list that the request names, repeats included; or, where it names none
/// and the task belongs to a project, the members that the directory gives
/// for that project; or nobody.
pub open spec fn resolved_assignees(s: EngineView, req: CreateTaskRequest) -> Seq<Seq<char>> {
    if requested_assignees(req).len() > 0 {
        requested_assignees(req)
    } else {
        match req.project_id {
            Some(p) => members_of(s.directory.members, p@),
            None => Seq::empty(),
        }
    }
}

/// The assignments after a task is created: the users that the request
/// names, assigned by the creating user; or, where it names none and the
/// task belongs to a project, the members of that project, assigned by the
/// system; or nobody. A user who is named twice is assigned once.
pub open spec fn rows_after_create(
    s: EngineView,
    task_id: Seq<char>,
    req: CreateTaskRequest,
    user: Seq<char>,
    now: u64,
) -> Seq<TaskAssigneeView> {
    if requested_assignees(req).len() > 0 {
        assign_all(s.assignees, task_id, requested_assignees(req), user, now)
    } else {
        match req.project_id {
            Some(p) => assign_all(
                s.assignees,
                task_id,
                members_of(s.directory.members, p@),
                system_actor(),
                now,
            ),
            None => s.assignees,
        }
    }
}

/// Creating a task. A request that is not valid is refused with
/// `Validation`, a task identifier in use with `Storage`; neither changes
/// anything. Then the task is stored. A history identifier in use is
/// refused with `Storage`, which says that something was applied: the task
/// stays stored, without history entry or assignees. Else the entry
/// `created` is recorded and the assignees are resolved; the answer holds
/// the task and the resolved list as it was given.
pub open spec fn create_step(
    s: EngineView,
    task_id: Seq<char>,
    history_id: Seq<char>,
    req: CreateTaskRequest,
    user: Seq<char>,
    now: u64,
) -> Outcome<CreatedView> {
    if !req.spec_valid() {
        Outcome { state: s, result: Err(EngineError::Validation) }
    } else if has_task(s.tasks, task_id) {
        Outcome { state: s, result: Err(EngineError::Storage { applied: false }) }
    } else {
        let task = req.spec_task(task_id, user, now);
        let stored = EngineView { tasks: s.tasks.push(task), ..s };
        if has_entry(s.history, history_id) {
            Outcome { state: stored, result: Err(EngineError::Storage { applied: true }) }
        } else {
            let rows = rows_after_create(s, task_id, req, user, now);
            Outcome {
                state: EngineView {
                    history: s.history.push(
                        plain_entry(history_id, task_id, user, HistoryAction::Created, now),
                    ),
                    assignees: rows,
                    ..stored
                },
                result: Ok(CreatedView { task, assignee_ids: resolved_assignees(s, req) }),
            }
        }
    }
}

/// The history entry of an update: a status change with the old and the new
/// status where the request writes a status, the plain marker `updated`
/// otherwise.
pub open spec fn update_entry(
    history_id: Seq<char>,
    before: TaskView,
    patch: UpdateTaskRequest,
    user: Seq<char>,
    now: u64,
) -> TaskHistoryView {
    match patch.spec_new_status() {
        Some(next) => status_entry(history_id, before.id, user, before.status, next, now),
        None => plain_entry(history_id, before.id, user, HistoryAction::Updated, now),
    }
}

/// Updating a task. `update_refusal` says when the request is refused, and
/// a refusal changes nothing. Then the fields are applied. A history
/// identifier in use is refused with `Storage`, which says that something
/// was applied: the fields stay as changed. Else one entry is recorded.
pub open spec fn update_step(
    s: EngineView,
    task_id: Seq<char>,
    history_id: Seq<char>,
    patch: UpdateTaskRequest,
    user: Seq<char>,
    now: u64,
) -> Outcome<TaskView> {
    match update_refusal(s.tasks, task_id, patch, s.policy) {
        Some(e) => Outcome { state: s, result: Err(e) },
        None => {
            let before = task_of(s.tasks, task_id);
            let after = patch.spec_apply(before, now);
            let applied = EngineView {
                tasks: s.tasks.update(position_of(s.tasks, task_id), after),
                ..s
            };
            if has_entry(s.history, history_id) {
                Outcome { state: applied, result: Err(EngineError::Storage { applied: true }) }
            } else {
                Outcome {
                    state: EngineView {
                        history: s.history.push(update_entry(history_id, before, patch, user, now)),
                        ..applied
                    },
                    result: Ok(after),
                }
            }
        },
    }
}

/// Writing the status of a task. `status_refusal` says when the write is
/// refused, and a refusal changes nothing. Then the status is written:
/// entering `completed` sets the completion timestamp to `now`, leaving
/// `completed` clears it, and any other write leaves it as it was. A history
/// identifier in use is refused with `Storage`, which says that something
/// was applied: the status stays written. Else the change is recorded with
/// the old and the new status.
pub open spec fn status_step(
    s: EngineView,
    task_id: Seq<char>,
    history_id: Seq<char>,
    status: Seq<char>,
    user: Seq<char>,
    now: u64,
) -> Outcome<TaskView> {
    match status_refusal(s.tasks, task_id, status, s.policy) {
        Some(e) => Outcome { state: s, result: Err(e) },
        None => {
            let before = task_of(s.tasks, task_id);
            let next = TaskStatus::spec_parse(status).unwrap();
            let after = with_status(before, next, now);
            let written = EngineView {
                tasks: s.tasks.update(position_of(s.tasks, task_id), after),
                ..s
            };
            if has_entry(s.history, history_id) {
                Outcome { state: written, result: Err(EngineError::Storage { applied: true }) }
            } else {
                Outcome {
                    state: EngineView {
                        history: s.history.push(
                            status_entry(history_id, task_id, user, before.status, next, now),
                        ),
                        ..written
                    },
                    result: Ok(after),
                }
            }
        },
    }
}

/// Deleting a task. The entry `deleted` is recorded first; a history
/// identifier in use is refused with `Storage` and changes nothing. Then the
/// task is taken out with all its assignments; where there is no such task
/// the answer is `NotFound`, and the entry stays recorded.
pub open spec fn delete_step(
    s: EngineView,
    task_id: Seq<char>,
    history_id: Seq<char>,
    user: Seq<char>,
    now: u64,
) -> Outcome<()> {
    if has_entry(s.history, history_id) {
        Outcome { state: s, result: Err(EngineError::Storage { applied: false }) }
    } else {
        let recorded = EngineView {
            history: s.history.push(
                plain_entry(history_id, task_id, user, HistoryAction::Deleted, now),
            ),
            ..s
        };
        if !has_task(s.tasks, task_id) {
            Outcome { state: recorded, result: Err(EngineError::NotFound) }
        } else {
            Outcome {
                state: EngineView {
                    tasks: s.tasks.remove(position_of(s.tasks, task_id)),
                    assignees: rows_without_task(s.assignees, task_id),
                    ..recorded
                },
                result: Ok(()),
            }
        }
    }
}

/// Adding assignees to a task: `NotFound` where there is no such task;
/// else each user is assigned in turn, and the answer is the number of
/// assignments that were new. No history entry is recorded.
pub open spec fn add_assignees_step(
    s: EngineView,
    task_id: Seq<char>,
    users: Seq<Seq<char>>,
    by: Seq<char>,
    now: u64,
) -> Outcome<usize> {
    if !has_task(s.tasks, task_id) {
        Outcome { state: s, result: Err(EngineError::NotFound) }
    } else {
        let rows = assign_all(s.assignees, task_id, users, by, now);
        Outcome {
            state: EngineView { assignees: rows, ..s },
            result: Ok((rows.len() - s.assignees.len()) as usize),
        }
    }
}

/// Removing an assignee from a task: `NotFound` where the user is not
/// assigned to it; else that one assignment ends. No history entry is
/// recorded.
pub open spec fn remove_assignee_step(s: EngineView, task_id: Seq<char>, user: Seq<char>) -> Outcome<
    (),
> {
    if !is_assigned(s.assignees, task_id, user) {
        Outcome { state: s, result: Err(EngineError::NotFound) }
    } else {
        Outcome {
            state: EngineView {
                assignees: s.assignees.remove(assignment_position(s.assignees, task_id, user)),
                ..s
            },
            result: Ok(()),
        }
    }
}

/// One call of an operation that can change the engine, with the
/// identifiers that it draws.
pub enum Command {
    Create {
        task_id: Seq<char>,
        history_id: Seq<char>,
        req: CreateTaskRequest,
        user: Seq<char>,
        now: u64,
    },
    Update {
        task_id: Seq<char>,
        history_id: Seq<char>,
        patch: UpdateTaskRequest,
        user: Seq<char>,
        now: u64,
    },
    ChangeStatus {
        task_id: Seq<char>,
        history_id: Seq<char>,
        status: Seq<char>,
        user: Seq<char>,
        now: u64,
    },
    Delete { task_id: Seq<char>, history_id: Seq<char>, user: Seq<char>, now: u64 },
    AddAssignees { task_id: Seq<char>, users: Seq<Seq<char>>, by: Seq<char>, now: u64 },
    RemoveAssignee { task_id: Seq<char>, user: Seq<char> },
}

impl Command {
    /// The task that the command speaks of.
    pub open spec fn task_id(self) -> Seq<char> {
        match self {
            Command::Create { task_id, .. } => task_id,
            Command::Update { task_id, .. } => task_id,
            Command::ChangeStatus { task_id, .. } => task_id,
            Command::Delete { task_id, .. } => task_id,
            Command::AddAssignees { task_id, .. } => task_id,
            Command::RemoveAssignee { task_id, .. } => task_id,
        }
    }

    /// Whether the command changes the task itself, and not only who is
    /// assigned to it.
    pub open spec fn is_mutation(self) -> bool {
        !(self is AddAssignees) && !(self is RemoveAssignee)
    }

    /// The state after the command.
    pub open spec fn apply(self, s: EngineView) -> EngineView {
        match self {
            Command::Create { task_id, history_id, req, user, now } => create_step(
                s,
                task_id,
                history_id,
                req,
                user,
                now,
            ).state,
            Command::Update { task_id, history_id, patch, user, now } => update_step(
                s,
                task_id,
                history_id,
                patch,
                user,
                now,
            ).state,
            Command::ChangeStatus { task_id, history_id, status, user, now } => status_step(
                s,
                task_id,
                history_id,
                status,
                user,
                now,
            ).state,
            Command::Delete { task_id, history_id, user, now } => delete_step(
                s,
                task_id,
                history_id,
                user,
                now,
            ).state,
            Command::AddAssignees { task_id, users, by, now } => add_assignees_step(
                s,
                task_id,
                users,
                by,
                now,
            ).state,
            Command::RemoveAssignee { task_id, user } => remove_assignee_step(
                s,
                task_id,
                user,
            ).state,
        }
    }

    /// Whether the command succeeds in state `s`.
    pub open spec fn succeeds(self, s: EngineView) -> bool {
        match self {
            Command::Create { task_id, history_id, req, user, now } => create_step(
                s,
                task_id,
                history_id,
                req,
                user,
                now,
            ).result.is_ok(),
            Command::Update { task_id, history_id, patch, user, now } => update_step(
                s,
                task_id,
                history_id,
                patch,
                user,
                now,
            ).result.is_ok(),
            Command::ChangeStatus { task_id, history_id, status, user, now } => status_step(
                s,
                task_id,
                history_id,
                status,
                user,
                now,
            ).result.is_ok(),
            Command::Delete { task_id, history_id, user, now } => delete_step(
                s,
                task_id,
                history_id,
                user,
                now,
            ).result.is_ok(),
            Command::AddAssignees { task_id, users, by, now } => add_assignees_step(
                s,
                task_id,
                users,
                by,
                now,
            ).result.is_ok(),
            Command::RemoveAssignee { task_id, user } => remove_assignee_step(
                s,
                task_id,
                user,
            ).result.is_ok(),
        }
    }

    /// Whether the command, in state `s`, records a history entry: it
    /// changes the task itself and succeeds, or it is a deletion that finds
    /// no task (whose entry is recorded before the task is looked for).
    pub open spec fn records(self, s: EngineView) -> bool {
        match self {
            Command::Delete { task_id, history_id, user, now } => !has_entry(s.history, history_id),
            _ => self.is_mutation() && self.succeeds(s),
        }
    }
}

/// The state after a run of commands, one after the other.
pub open spec fn run(s: EngineView, commands: Seq<Command>) -> EngineView
    decreases commands.len(),
{
    if commands.len() == 0 {
        s
    } else {
        commands.last().apply(run(s, commands.drop_last()))
    }
}

/// The number of commands of a run that record a history entry that speaks
/// of `task`.
pub open spec fn recorded_count(s: EngineView, commands: Seq<Command>, task: Seq<char>) -> nat
    decreases commands.len(),
{
    if commands.len() == 0 {
        0
    } else {
        recorded_count(s, commands.drop_last(), task) + if commands.last().task_id() == task
            && commands.last().records(run(s, commands.drop_last())) {
            1nat
        } else {
            0nat
        }
    }
}

/// The number of commands of a run that change the task `task` itself.
pub open spec fn mutation_count(commands: Seq<Command>, task: Seq<char>) -> nat
    decreases commands.len(),
{
    if commands.len() == 0 {
        0
    } else {
        mutation_count(commands.drop_last(), task) + if commands.last().task_id() == task
            && commands.last().is_mutation() {
            1nat
        } else {
            0nat
        }
    }
}

/// Whether every command of the run that changes the task `task` itself
/// succeeds.
pub open spec fn mutations_succeed(s: EngineView, commands: Seq<Command>, task: Seq<char>) -> bool
    decreases commands.len(),
{
    if commands.len() == 0 {
        true
    } else {
        &&& mutations_succeed(s, commands.drop_last(), task)
        &&& (commands.last().task_id() == task && commands.last().is_mutation()
            ==> commands.last().succeeds(run(s, commands.drop_last())))
    }
}

/// Whether the task reaches the user: through the legacy single assignee,
/// through the registry, or through membership of the task's project.
pub open spec fn reaches(s: EngineView, t: TaskView, user: Seq<char>) -> bool {
    ||| t.assignee_id == Some(user)
    ||| is_assigned(s.assignees, t.id, user)
    ||| (t.project_id matches Some(p) && is_member(s.directory.members, p, user))
}

/// Whether the task is due today for the user: its deadline is today, it is
/// not completed, and it reaches the user.
pub open spec fn due_today(s: EngineView, t: TaskView, user: Seq<char>, today: Date) -> bool {
    &&& t.deadline == today
    &&& t.status != TaskStatus::Completed
    &&& reaches(s, t, user)
}

/// The urgency rank of each task as an ordering key.
pub open spec fn urgency_keys(tasks: Seq<TaskView>) -> Seq<u64> {
    Seq::new(tasks.len(), |i: int| tasks[i].urgency.spec_rank() as u64)
}

/// For each task, whether it is due today for the user.
pub open spec fn due_flags(s: EngineView, user: Seq<char>, today: Date) -> Seq<bool> {
    Seq::new(s.tasks.len(), |i: int| due_today(s, s.tasks[i], user, today))
}

/// `result` lists the tasks that are due today for the user, the most
/// urgent first; tasks of the same urgency in the order of their creation.
pub open spec fn is_due_listing(
    result: Seq<TaskView>,
    s: EngineView,
    user: Seq<char>,
    today: Date,
) -> bool {
    exists|picked: Seq<usize>| #[trigger]
        is_ordered_selection(picked, urgency_keys(s.tasks), due_flags(s, user, today)) && result
            == tasks_at(s.tasks, picked)
}

/// `result` lists the tasks that are due for the user on the day that a
/// reading of the clock names: the tasks due on that day, or none at all
/// where the reading names no day on which a task can be due.
pub open spec fn is_due_listing_by(
    result: Seq<TaskView>,
    s: EngineView,
    user: Seq<char>,
    today: Option<Date>,
) -> bool {
    match today {
        Some(day) => is_due_listing(result, s, user, day),
        None => result.len() == 0,
    }
}

/// `result` lists the urgent tasks that are not completed, by ascending
/// deadline; tasks with the same deadline in the order of their creation.
pub open spec fn is_urgent_listing(result: Seq<TaskView>, tasks: Seq<TaskView>) -> bool {
    exists|picked: Seq<usize>| #[trigger]
        is_ordered_selection(picked, deadline_keys(tasks), open_urgent_flags(tasks)) && result
            == tasks_at(tasks, picked)
}

/// The name of the project that a task belongs to, where it belongs to one
/// that the directory knows.
pub open spec fn project_name_for(s: EngineView, t: TaskView) -> Option<Seq<char>> {
    match t.project_id {
        Some(p) => project_name_of(s.directory.projects, p),
        None => None,
    }
}

/// The users assigned to a task that the directory knows, as listings show
/// them: in the order in which they were assigned.
pub open spec fn shown_assignees(s: EngineView, task_id: Seq<char>) -> Seq<UserSummaryView> {
    known_users(users_of(s.assignees, task_id), s.directory.users)
}

/// An assignment with what is shown of its user, and the user's address.
pub struct AssigneeDetailsView {
    pub user: UserSummaryView,
    pub email: Seq<char>,
    pub assigned_at: u64,
}

/// Of a list of assignments, those whose user the directory knows, each
/// with what is shown of the user and with the user's address.
pub open spec fn known_assignments(rows: Seq<TaskAssigneeView>, directory: DirectoryView) -> Seq<
    AssigneeDetailsView,
>
    decreases rows.len(),
{
    if rows.len() == 0 {
        Seq::empty()
    } else {
        match user_named(directory.users, rows.last().user_id) {
            Some(u) => known_assignments(rows.drop_last(), directory).push(
                AssigneeDetailsView {
                    user: u,
                    email: email_named(directory.users, directory.emails, rows.last().user_id),
                    assigned_at: rows.last().assigned_at,
                },
            ),
            None => known_assignments(rows.drop_last(), directory),
        }
    }
}

} // verus!
