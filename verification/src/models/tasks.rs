//! Tasks, their assignments and their history entries, with the requests that
//! create, change and list them.

use vstd::prelude::*;
use crate::date::{spec_parse_date, Date};
use crate::ids::fresh_id;
use crate::models::users::UserSummary;
use crate::status::{spec_completion_after, TaskStatus, Urgency};
use crate::text::{copy_opt_text, opt_text_is, opt_view, text_is};

verus! {

/// A unit of work with a deadline.
#[derive(Debug)]
pub struct Task {
    pub id: String,
    pub title: String,
    pub description: Option<String>,
    pub urgency: Urgency,
    pub status: TaskStatus,
    pub department: String,
    pub project_id: Option<String>,
    /// The single assignee of earlier versions, kept beside the registry.
    pub assignee_id: Option<String>,
    pub created_by: String,
    pub deadline: Date,
    /// Seconds since the epoch at which the task entered `completed`.
    pub completed_at: Option<u64>,
    /// Seconds since the epoch at which a store took the task in; unset for a
    /// task that no store has stamped.
    pub created_at: Option<u64>,
    /// Seconds since the epoch at which a store last changed the task; unset
    /// for a task that no store has stamped.
    pub updated_at: Option<u64>,
    /// The completion flag as clients set it; it is stored as given and does
    /// not follow the status.
    pub is_completed: bool,
}

/// What a task holds, as plain values.
pub struct TaskView {
    pub id: Seq<char>,
    pub title: Seq<char>,
    pub description: Option<Seq<char>>,
    pub urgency: Urgency,
    pub status: TaskStatus,
    pub department: Seq<char>,
    pub project_id: Option<Seq<char>>,
    pub assignee_id: Option<Seq<char>>,
    pub created_by: Seq<char>,
    pub deadline: Date,
    pub completed_at: Option<u64>,
    pub created_at: Option<u64>,
    pub updated_at: Option<u64>,
    pub is_completed: bool,
}

impl View for Task {
    type V = TaskView;

    open spec fn view(&self) -> TaskView {
        TaskView {
            id: self.id@,
            title: self.title@,
            description: opt_view(self.description),
            urgency: self.urgency,
            status: self.status,
            department: self.department@,
            project_id: opt_view(self.project_id),
            assignee_id: opt_view(self.assignee_id),
            created_by: self.created_by@,
            deadline: self.deadline,
            completed_at: self.completed_at,
            created_at: self.created_at,
            updated_at: self.updated_at,
            is_completed: self.is_completed,
        }
    }
}

impl TaskView {
    /// The completion timestamp is set exactly when the status is `completed`.
    pub open spec fn completion_consistent(self) -> bool {
        self.completed_at.is_some() == (self.status == TaskStatus::Completed)
    }

    /// The invariant of a stored task: a title, a deadline that exists, and a
    /// completion timestamp that agrees with the status.
    pub open spec fn wf(self) -> bool {
        &&& self.title.len() > 0
        &&& self.deadline.valid()
        &&& self.completion_consistent()
    }
}

/// The views of a list of tasks, in order.
pub open spec fn task_views(tasks: Seq<Task>) -> Seq<TaskView> {
    Seq::new(tasks.len(), |i: int| tasks[i]@)
}

/// One user's responsibility for one task.
#[derive(Debug)]
pub struct TaskAssignee {
    pub task_id: String,
    pub user_id: String,
    /// Seconds since the epoch at which the assignment was made.
    pub assigned_at: u64,
    /// The user who made the assignment, or `system` for an assignment that
    /// a project's membership brought.
    pub assigned_by: String,
}

/// What an assignment holds, as plain values.
pub struct TaskAssigneeView {
    pub task_id: Seq<char>,
    pub user_id: Seq<char>,
    pub assigned_at: u64,
    pub assigned_by: Seq<char>,
}

impl View for TaskAssignee {
    type V = TaskAssigneeView;

    open spec fn view(&self) -> TaskAssigneeView {
        TaskAssigneeView {
            task_id: self.task_id@,
            user_id: self.user_id@,
            assigned_at: self.assigned_at,
            assigned_by: self.assigned_by@,
        }
    }
}

impl TaskAssignee {
    /// A copy of the assignment.
    pub fn duplicate(&self) -> (a: TaskAssignee)
        ensures
            a@ == self@,
    {
        TaskAssignee {
            task_id: self.task_id.clone(),
            user_id: self.user_id.clone(),
            assigned_at: self.assigned_at,
            assigned_by: self.assigned_by.clone(),
        }
    }
}

/// The views of a list of assignments, in order.
pub open spec fn assignee_views(rows: Seq<TaskAssignee>) -> Seq<TaskAssigneeView> {
    Seq::new(rows.len(), |i: int| rows[i]@)
}

/// What an operation did to a task.
#[derive(Clone, Copy, Debug, PartialEq, Eq, Structural)]
pub enum HistoryAction {
    Created,
    Updated,
    StatusChanged,
    Deleted,
}

impl HistoryAction {
    /// The wire name of an action.
    pub open spec fn spec_name(self) -> Seq<char> {
        match self {
            HistoryAction::Created => "created"@,
            HistoryAction::Updated => "updated"@,
            HistoryAction::StatusChanged => "status_changed"@,
            HistoryAction::Deleted => "deleted"@,
        }
    }

    /// The action a wire name stands for, if any.
    pub open spec fn spec_parse(s: Seq<char>) -> Option<HistoryAction> {
        if s == "created"@ {
            Some(HistoryAction::Created)
        } else if s == "updated"@ {
            Some(HistoryAction::Updated)
        } else if s == "status_changed"@ {
            Some(HistoryAction::StatusChanged)
        } else if s == "deleted"@ {
            Some(HistoryAction::Deleted)
        } else {
            None
        }
    }

    /// The wire name of the action, as owned text.
    pub fn name(self) -> (s: String)
        ensures
            s@ == self.spec_name(),
    {
        match self {
            HistoryAction::Created => "created".to_owned(),
            HistoryAction::Updated => "updated".to_owned(),
            HistoryAction::StatusChanged => "status_changed".to_owned(),
            HistoryAction::Deleted => "deleted".to_owned(),
        }
    }

    /// Reads an action from its wire name; any other text gives `None`.
    pub fn parse(s: &String) -> (r: Option<HistoryAction>)
        ensures
            r == HistoryAction::spec_parse(s@),
    {
        if text_is(s, "created") {
            Some(HistoryAction::Created)
        } else if text_is(s, "updated") {
            Some(HistoryAction::Updated)
        } else if text_is(s, "status_changed") {
            Some(HistoryAction::StatusChanged)
        } else if text_is(s, "deleted") {
            Some(HistoryAction::Deleted)
        } else {
            None
        }
    }
}

/// Every action is recovered from its wire name.
pub proof fn action_name_round_trip(a: HistoryAction)
    ensures
        HistoryAction::spec_parse(a.spec_name()) == Some(a),
{
    reveal_strlit("created");
    reveal_strlit("updated");
    reveal_strlit("status_changed");
    reveal_strlit("deleted");
    assert("created"@.len() == 7);
    assert("updated"@.len() == 7);
    assert("status_changed"@.len() == 14);
    assert("deleted"@.len() == 7);
    assert("created"@[0] == 'c');
    assert("updated"@[0] == 'u');
    assert("deleted"@[0] == 'd');
}

/// One entry of the audit trail: who did what to which task, and when. For a
/// status change it names the field and holds the old and the new value.
#[derive(Debug)]
pub struct TaskHistory {
    pub id: String,
    pub task_id: String,
    pub user_id: String,
    pub action: HistoryAction,
    pub field_changed: Option<String>,
    pub old_value: Option<String>,
    pub new_value: Option<String>,
    /// Seconds since the epoch at which the entry was recorded.
    pub created_at: u64,
}

/// What a history entry holds, as plain values.
pub struct TaskHistoryView {
    pub id: Seq<char>,
    pub task_id: Seq<char>,
    pub user_id: Seq<char>,
    pub action: HistoryAction,
    pub field_changed: Option<Seq<char>>,
    pub old_value: Option<Seq<char>>,
    pub new_value: Option<Seq<char>>,
    pub created_at: u64,
}

impl View for TaskHistory {
    type V = TaskHistoryView;

    open spec fn view(&self) -> TaskHistoryView {
        TaskHistoryView {
            id: self.id@,
            task_id: self.task_id@,
            user_id: self.user_id@,
            action: self.action,
            field_changed: opt_view(self.field_changed),
            old_value: opt_view(self.old_value),
            new_value: opt_view(self.new_value),
            created_at: self.created_at,
        }
    }
}

impl TaskHistory {
    /// A copy of the entry.
    pub fn duplicate(&self) -> (h: TaskHistory)
        ensures
            h@ == self@,
    {
        TaskHistory {
            id: self.id.clone(),
            task_id: self.task_id.clone(),
            user_id: self.user_id.clone(),
            action: self.action,
            field_changed: copy_opt_text(&self.field_changed),
            old_value: copy_opt_text(&self.old_value),
            new_value: copy_opt_text(&self.new_value),
            created_at: self.created_at,
        }
    }
}

/// The views of a list of history entries, in order.
pub open spec fn history_views(entries: Seq<TaskHistory>) -> Seq<TaskHistoryView> {
    Seq::new(entries.len(), |i: int| entries[i]@)
}

/// The entry that marks an operation without naming a field.
pub open spec fn plain_entry(
    id: Seq<char>,
    task: Seq<char>,
    user: Seq<char>,
    action: HistoryAction,
    now: u64,
) -> TaskHistoryView {
    TaskHistoryView {
        id,
        task_id: task,
        user_id: user,
        action,
        field_changed: None,
        old_value: None,
        new_value: None,
        created_at: now,
    }
}

/// The entry that records a status change with the old and the new status.
pub open spec fn status_entry(
    id: Seq<char>,
    task: Seq<char>,
    user: Seq<char>,
    before: TaskStatus,
    after: TaskStatus,
    now: u64,
) -> TaskHistoryView {
    TaskHistoryView {
        id,
        task_id: task,
        user_id: user,
        action: HistoryAction::StatusChanged,
        field_changed: Some("status"@),
        old_value: Some(before.spec_name()),
        new_value: Some(after.spec_name()),
        created_at: now,
    }
}

/// A task as a table keeps it: status, urgency and deadline as text.
#[derive(Debug)]
pub struct TaskRow {
    pub id: String,
    pub title: String,
    pub description: Option<String>,
    pub urgency: String,
    pub status: String,
    pub department: String,
    pub project_id: Option<String>,
    pub assignee_id: Option<String>,
    pub created_by: String,
    pub deadline: String,
    pub completed_at: Option<u64>,
    pub created_at: Option<u64>,
    pub updated_at: Option<u64>,
    pub is_completed: Option<bool>,
}

impl TaskRow {
    /// Whether the row can be read as a task: it has a title, and its
    /// urgency, status and deadline can be read.
    pub open spec fn spec_readable(self) -> bool {
        &&& self.title@.len() > 0
        &&& Urgency::spec_parse(self.urgency@).is_some()
        &&& TaskStatus::spec_parse(self.status@).is_some()
        &&& spec_parse_date(self.deadline@).is_some()
    }

    /// The task that a readable row holds. Its completion timestamp is made
    /// to agree with its status: a completed task has the one of the row or,
    /// where the row has none, the time of its last update (0 where the row
    /// has neither); any other task has none.
    pub open spec fn spec_task(self) -> TaskView {
        TaskView {
            id: self.id@,
            title: self.title@,
            description: opt_view(self.description),
            urgency: Urgency::spec_parse(self.urgency@).unwrap(),
            status: TaskStatus::spec_parse(self.status@).unwrap(),
            department: self.department@,
            project_id: opt_view(self.project_id),
            assignee_id: opt_view(self.assignee_id),
            created_by: self.created_by@,
            deadline: spec_parse_date(self.deadline@).unwrap(),
            completed_at: if TaskStatus::spec_parse(self.status@) == Some(TaskStatus::Completed) {
                match self.completed_at {
                    Some(at) => Some(at),
                    None => match self.updated_at {
                        Some(at) => Some(at),
                        None => Some(0),
                    },
                }
            } else {
                None
            },
            created_at: self.created_at,
            updated_at: self.updated_at,
            is_completed: match self.is_completed {
                Some(flag) => flag,
                None => false,
            },
        }
    }

    /// The task that the row holds, or `None` where it cannot be read.
    pub fn to_task(&self) -> (r: Option<Task>)
        ensures
            r.is_some() == self.spec_readable(),
            r matches Some(t) ==> t@ == self.spec_task() && t@.wf(),
    {
        if self.title.as_str().is_empty() {
            return None;
        }
        let urgency = match Urgency::parse(&self.urgency) {
            Some(u) => u,
            None => { return None; },
        };
        let status = match TaskStatus::parse(&self.status) {
            Some(s) => s,
            None => { return None; },
        };
        let deadline = match Date::parse(&self.deadline) {
            Some(d) => d,
            None => { return None; },
        };
        let completed_at = if status.same(TaskStatus::Completed) {
            match self.completed_at {
                Some(at) => Some(at),
                None => match self.updated_at {
                    Some(at) => Some(at),
                    None => Some(0),
                },
            }
        } else {
            None
        };
        let is_completed = match self.is_completed {
            Some(flag) => flag,
            None => false,
        };
        Some(
            Task {
                id: self.id.clone(),
                title: self.title.clone(),
                description: copy_opt_text(&self.description),
                urgency,
                status,
                department: self.department.clone(),
                project_id: copy_opt_text(&self.project_id),
                assignee_id: copy_opt_text(&self.assignee_id),
                created_by: self.created_by.clone(),
                deadline,
                completed_at,
                created_at: self.created_at,
                updated_at: self.updated_at,
                is_completed,
            },
        )
    }
}

/// The row that holds a task.
pub open spec fn spec_row_of(t: TaskView, row: TaskRow) -> bool {
    &&& row.id@ == t.id
    &&& row.title@ == t.title
    &&& opt_view(row.description) == t.description
    &&& row.urgency@ == t.urgency.spec_name()
    &&& row.status@ == t.status.spec_name()
    &&& row.department@ == t.department
    &&& opt_view(row.project_id) == t.project_id
    &&& opt_view(row.assignee_id) == t.assignee_id
    &&& row.created_by@ == t.created_by
    &&& row.deadline@ == t.deadline.spec_text()
    &&& row.completed_at == t.completed_at
    &&& row.created_at == t.created_at
    &&& row.updated_at == t.updated_at
    &&& row.is_completed == Some(t.is_completed)
}

/// A well-formed task is read back from its row.
pub proof fn task_row_round_trip(t: TaskView, row: TaskRow)
    requires
        t.wf(),
        spec_row_of(t, row),
    ensures
        row.spec_readable(),
        row.spec_task() == t,
{
    crate::status::status_name_round_trip(t.status);
    crate::status::urgency_name_round_trip(t.urgency);
    crate::date::date_text_round_trip(t.deadline);
}

/// A request to create a task, as a client sends it.
#[derive(Debug)]
pub struct CreateTaskRequest {
    pub title: String,
    pub description: Option<String>,
    pub urgency: String,
    pub department: String,
    pub project_id: Option<String>,
    pub assignee_id: Option<String>,
    pub assignee_ids: Option<Vec<String>>,
    pub deadline: String,
    pub is_completed: Option<bool>,
}

impl CreateTaskRequest {
    /// Whether the request can become a task: the title is not empty, the
    /// urgency is one of the four names and the deadline is a date.
    pub open spec fn spec_valid(self) -> bool {
        &&& self.title@.len() > 0
        &&& Urgency::spec_parse(self.urgency@).is_some()
        &&& spec_parse_date(self.deadline@).is_some()
    }

    /// The task that a valid request creates under `id` for `created_by` at
    /// time `now`: pending, not completed, with the fields of the request.
    pub open spec fn spec_task(self, id: Seq<char>, created_by: Seq<char>, now: u64) -> TaskView {
        TaskView {
            id,
            title: self.title@,
            description: opt_view(self.description),
            urgency: Urgency::spec_parse(self.urgency@).unwrap(),
            status: TaskStatus::Pending,
            department: self.department@,
            project_id: opt_view(self.project_id),
            assignee_id: opt_view(self.assignee_id),
            created_by,
            deadline: spec_parse_date(self.deadline@).unwrap(),
            completed_at: None,
            created_at: Some(now),
            updated_at: Some(now),
            is_completed: match self.is_completed {
                Some(flag) => flag,
                None => false,
            },
        }
    }

    /// Builds the task of this request, or `None` where the request is not
    /// valid.
    pub fn to_task(&self, id: String, created_by: &String, now: u64) -> (r: Option<Task>)
        ensures
            r.is_some() == self.spec_valid(),
            r.is_some() ==> r.unwrap()@ == self.spec_task(id@, created_by@, now),
            r.is_some() ==> r.unwrap()@.wf(),
    {
        if self.title.as_str().is_empty() {
            return None;
        }
        let urgency = match Urgency::parse(&self.urgency) {
            Some(u) => u,
            None => { return None; },
        };
        let deadline = match Date::parse(&self.deadline) {
            Some(d) => d,
            None => { return None; },
        };
        let is_completed = match self.is_completed {
            Some(flag) => flag,
            None => false,
        };
        Some(
            Task {
                id,
                title: self.title.clone(),
                description: copy_opt_text(&self.description),
                urgency,
                status: TaskStatus::Pending,
                department: self.department.clone(),
                project_id: copy_opt_text(&self.project_id),
                assignee_id: copy_opt_text(&self.assignee_id),
                created_by: created_by.clone(),
                deadline,
                completed_at: None,
                created_at: Some(now),
                updated_at: Some(now),
                is_completed,
            },
        )
    }
}

/// The fields of a task that a client asks to change; an absent field is left
/// as it is. `assignee_ids` is carried for the client's sake and changes
/// nothing: assignees are changed through the registry.
#[derive(Debug)]
pub struct UpdateTaskRequest {
    pub title: Option<String>,
    pub description: Option<String>,
    pub urgency: Option<String>,
    pub status: Option<String>,
    pub department: Option<String>,
    pub project_id: Option<String>,
    pub assignee_id: Option<String>,
    pub assignee_ids: Option<Vec<String>>,
    pub deadline: Option<String>,
    pub is_completed: Option<bool>,
}

impl UpdateTaskRequest {
    /// Whether the request names no field to change.
    pub open spec fn spec_is_empty(self) -> bool {
        &&& self.title.is_none()
        &&& self.description.is_none()
        &&& self.urgency.is_none()
        &&& self.status.is_none()
        &&& self.department.is_none()
        &&& self.project_id.is_none()
        &&& self.assignee_id.is_none()
        &&& self.deadline.is_none()
        &&& self.is_completed.is_none()
    }

    /// Whether the request can be applied: it names a field, a new title is
    /// not empty, and a new urgency, status or deadline can be read.
    pub open spec fn spec_valid(self) -> bool {
        &&& !self.spec_is_empty()
        &&& (self.title matches Some(t) ==> t@.len() > 0)
        &&& (self.urgency matches Some(u) ==> Urgency::spec_parse(u@).is_some())
        &&& (self.status matches Some(s) ==> TaskStatus::spec_parse(s@).is_some())
        &&& (self.deadline matches Some(d) ==> spec_parse_date(d@).is_some())
    }

    /// The status that the request writes, if it names one that can be read.
    pub open spec fn spec_new_status(self) -> Option<TaskStatus> {
        match self.status {
            Some(s) => TaskStatus::spec_parse(s@),
            None => None,
        }
    }

    /// The task after a valid request is applied at time `now`. Each field
    /// that the request names takes the new value. A status that enters
    /// `completed` sets the completion timestamp to `now`, one that leaves
    /// `completed` clears it, and any other leaves it as it was. The update
    /// timestamp becomes `now`.
    pub open spec fn spec_apply(self, t: TaskView, now: u64) -> TaskView {
        TaskView {
            id: t.id,
            title: match self.title {
                Some(x) => x@,
                None => t.title,
            },
            description: match self.description {
                Some(x) => Some(x@),
                None => t.description,
            },
            urgency: match self.urgency {
                Some(x) => Urgency::spec_parse(x@).unwrap(),
                None => t.urgency,
            },
            status: match self.status {
                Some(x) => TaskStatus::spec_parse(x@).unwrap(),
                None => t.status,
            },
            department: match self.department {
                Some(x) => x@,
                None => t.department,
            },
            project_id: match self.project_id {
                Some(x) => Some(x@),
                None => t.project_id,
            },
            assignee_id: match self.assignee_id {
                Some(x) => Some(x@),
                None => t.assignee_id,
            },
            created_by: t.created_by,
            deadline: match self.deadline {
                Some(x) => spec_parse_date(x@).unwrap(),
                None => t.deadline,
            },
            completed_at: match self.status {
                Some(x) => spec_completion_after(
                    t.status,
                    t.completed_at,
                    TaskStatus::spec_parse(x@).unwrap(),
                    now,
                ),
                None => t.completed_at,
            },
            created_at: t.created_at,
            updated_at: Some(now),
            is_completed: match self.is_completed {
                Some(x) => x,
                None => t.is_completed,
            },
        }
    }

    /// Whether the request names no field to change.
    pub fn is_empty(&self) -> (empty: bool)
        ensures
            empty == self.spec_is_empty(),
    {
        self.title.is_none() && self.description.is_none() && self.urgency.is_none()
            && self.status.is_none() && self.department.is_none() && self.project_id.is_none()
            && self.assignee_id.is_none() && self.deadline.is_none()
            && self.is_completed.is_none()
    }

    /// Whether the request can be applied.
    pub fn is_valid(&self) -> (valid: bool)
        ensures
            valid == self.spec_valid(),
    {
        if self.is_empty() {
            return false;
        }
        if let Some(t) = &self.title {
            if t.as_str().is_empty() {
                return false;
            }
        }
        if let Some(u) = &self.urgency {
            if Urgency::parse(u).is_none() {
                return false;
            }
        }
        if let Some(s) = &self.status {
            if TaskStatus::parse(s).is_none() {
                return false;
            }
        }
        if let Some(d) = &self.deadline {
            if Date::parse(d).is_none() {
                return false;
            }
        }
        true
    }
}

/// What a listing of tasks is narrowed to, and which page of it is wanted.
/// An absent option narrows nothing. Without `limit` a page holds 50 tasks;
/// a negative `limit` lifts the bound, a negative `offset` counts as 0.
#[derive(Debug)]
pub struct GetTasksQuery {
    pub status: Option<String>,
    pub urgency: Option<String>,
    pub department: Option<String>,
    pub project_id: Option<String>,
    /// Narrows to the tasks whose legacy single assignee is this user.
    pub assignee_id: Option<String>,
    pub is_completed: Option<bool>,
    pub limit: Option<i32>,
    pub offset: Option<i32>,
}

impl GetTasksQuery {
    /// Whether a task passes every option that is present. Status and
    /// urgency are compared by wire name, so a name that no status or urgency
    /// has passes no task.
    pub open spec fn spec_matches(self, t: TaskView) -> bool {
        &&& (self.status matches Some(s) ==> t.status.spec_name() == s@)
        &&& (self.urgency matches Some(u) ==> t.urgency.spec_name() == u@)
        &&& (self.department matches Some(d) ==> t.department == d@)
        &&& (self.project_id matches Some(p) ==> t.project_id == Some(p@))
        &&& (self.assignee_id matches Some(a) ==> t.assignee_id == Some(a@))
        &&& (self.is_completed matches Some(c) ==> t.is_completed == c)
    }

    /// The page size asked for: 50 unless the query says otherwise.
    pub open spec fn spec_limit(self) -> int {
        match self.limit {
            Some(n) => n as int,
            None => 50,
        }
    }

    /// The number of tasks to pass over: 0 unless the query says otherwise.
    pub open spec fn spec_offset(self) -> int {
        match self.offset {
            Some(n) => n as int,
            None => 0,
        }
    }

    /// Whether a task passes every option that is present.
    pub fn matches(&self, t: &Task) -> (pass: bool)
        ensures
            pass == self.spec_matches(t@),
    {
        if let Some(s) = &self.status {
            let name = t.status.name();
            if !(name == *s) {
                return false;
            }
        }
        if let Some(u) = &self.urgency {
            let name = t.urgency.name();
            if !(name == *u) {
                return false;
            }
        }
        if let Some(d) = &self.department {
            if !(t.department == *d) {
                return false;
            }
        }
        if let Some(p) = &self.project_id {
            if !opt_text_is(&t.project_id, p) {
                return false;
            }
        }
        if let Some(a) = &self.assignee_id {
            if !opt_text_is(&t.assignee_id, a) {
                return false;
            }
        }
        if let Some(c) = self.is_completed {
            if t.is_completed != c {
                return false;
            }
        }
        true
    }

    /// A query that narrows nothing and asks for the first page.
    pub fn all() -> (q: GetTasksQuery)
        ensures
            forall|t: TaskView| q.spec_matches(t),
            q.limit.is_none(),
            q.offset.is_none(),
    {
        GetTasksQuery {
            status: None,
            urgency: None,
            department: None,
            project_id: None,
            assignee_id: None,
            is_completed: None,
            limit: None,
            offset: None,
        }
    }
}

/// A task as clients see it: names for status and urgency, text for dates,
/// and what is known of the people involved.
#[derive(Debug)]
pub struct TaskResponse {
    pub id: String,
    pub title: String,
    pub description: Option<String>,
    pub urgency: String,
    pub status: String,
    pub department: String,
    pub project_id: Option<String>,
    pub project_name: Option<String>,
    pub assignee: Option<UserSummary>,
    pub assignees: Option<Vec<UserSummary>>,
    pub created_by: Option<UserSummary>,
    pub deadline: String,
    pub days_until_deadline: Option<i64>,
    pub completed_at: Option<String>,
    pub created_at: Option<String>,
    pub updated_at: Option<String>,
    pub is_completed: Option<bool>,
}

/// A history entry as clients see it.
#[derive(Debug)]
pub struct TaskHistoryResponse {
    pub id: String,
    pub action: String,
    pub field_changed: Option<String>,
    pub old_value: Option<String>,
    pub new_value: Option<String>,
    pub changed_by: Option<UserSummary>,
    pub created_at: Option<String>,
}

/// A request to write the status of a task, by its wire name.
#[derive(Debug)]
pub struct UpdateTaskStatusRequest {
    pub status: String,
}

impl Task {
    /// A pending task under a new random identifier: not completed, and not
    /// yet stamped by a store. What is stated here holds whichever identifier
    /// was drawn; `with_id` says the rest.
    pub fn new(
        title: String,
        description: Option<String>,
        urgency: Urgency,
        department: String,
        project_id: Option<String>,
        assignee_id: Option<String>,
        created_by: String,
        deadline: Date,
    ) -> (t: Task)
        ensures
            t@.id.len() == 36,
            t@ == Task::spec_with_id(
                t@.id,
                title@,
                opt_view(description),
                urgency,
                department@,
                opt_view(project_id),
                opt_view(assignee_id),
                created_by@,
                deadline,
            ),
    {
        Task::with_id(
            fresh_id(),
            title,
            description,
            urgency,
            department,
            project_id,
            assignee_id,
            created_by,
            deadline,
        )
    }

    /// The pending task that `with_id` builds: not completed, with neither
    /// completion flag nor timestamps set.
    pub open spec fn spec_with_id(
        id: Seq<char>,
        title: Seq<char>,
        description: Option<Seq<char>>,
        urgency: Urgency,
        department: Seq<char>,
        project_id: Option<Seq<char>>,
        assignee_id: Option<Seq<char>>,
        created_by: Seq<char>,
        deadline: Date,
    ) -> TaskView {
        TaskView {
            id,
            title,
            description,
            urgency,
            status: TaskStatus::Pending,
            department,
            project_id,
            assignee_id,
            created_by,
            deadline,
            completed_at: None,
            created_at: None,
            updated_at: None,
            is_completed: false,
        }
    }

    /// A pending task under the identifier given: not completed, and not yet
    /// stamped by a store.
    pub fn with_id(
        id: String,
        title: String,
        description: Option<String>,
        urgency: Urgency,
        department: String,
        project_id: Option<String>,
        assignee_id: Option<String>,
        created_by: String,
        deadline: Date,
    ) -> (t: Task)
        ensures
            t@ == Task::spec_with_id(
                id@,
                title@,
                opt_view(description),
                urgency,
                department@,
                opt_view(project_id),
                opt_view(assignee_id),
                created_by@,
                deadline,
            ),
    {
        Task {
            id,
            title,
            description,
            urgency,
            status: TaskStatus::Pending,
            department,
            project_id,
            assignee_id,
            created_by,
            deadline,
            completed_at: None,
            created_at: None,
            updated_at: None,
            is_completed: false,
        }
    }

    /// The row that holds the task.
    pub fn to_row(&self) -> (row: TaskRow)
        ensures
            spec_row_of(self@, row),
    {
        TaskRow {
            id: self.id.clone(),
            title: self.title.clone(),
            description: copy_opt_text(&self.description),
            urgency: self.urgency.name(),
            status: self.status.name(),
            department: self.department.clone(),
            project_id: copy_opt_text(&self.project_id),
            assignee_id: copy_opt_text(&self.assignee_id),
            created_by: self.created_by.clone(),
            deadline: self.deadline.to_text(),
            completed_at: self.completed_at,
            created_at: self.created_at,
            updated_at: self.updated_at,
            is_completed: Some(self.is_completed),
        }
    }

    /// Whether the task meets the invariant of a stored task.
    pub fn is_well_formed(&self) -> (ok: bool)
        ensures
            ok == self@.wf(),
    {
        let has_title = !self.title.as_str().is_empty();
        let completed = self.status.same(TaskStatus::Completed);
        has_title && self.deadline.is_valid() && self.completed_at.is_some() == completed
    }

    /// A copy of the task.
    pub fn duplicate(&self) -> (t: Task)
        ensures
            t@ == self@,
    {
        Task {
            id: self.id.clone(),
            title: self.title.clone(),
            description: copy_opt_text(&self.description),
            urgency: self.urgency,
            status: self.status,
            department: self.department.clone(),
            project_id: copy_opt_text(&self.project_id),
            assignee_id: copy_opt_text(&self.assignee_id),
            created_by: self.created_by.clone(),
            deadline: self.deadline,
            completed_at: self.completed_at,
            created_at: self.created_at,
            updated_at: self.updated_at,
            is_completed: self.is_completed,
        }
    }

    /// Applies a change request in place at time `now`, and says whether it
    /// did: a request that is not valid changes nothing.
    pub fn apply(&mut self, patch: &UpdateTaskRequest, now: u64) -> (applied: bool)
        ensures
            applied == patch.spec_valid(),
            applied ==> final(self)@ == patch.spec_apply(old(self)@, now),
            !applied ==> final(self)@ == old(self)@,
    {
        if !patch.is_valid() {
            return false;
        }
        let title = changed_text(&self.title, &patch.title);
        let description = changed_opt_text(&self.description, &patch.description);
        let department = changed_text(&self.department, &patch.department);
        let project_id = changed_opt_text(&self.project_id, &patch.project_id);
        let assignee_id = changed_opt_text(&self.assignee_id, &patch.assignee_id);
        let urgency = patch.new_urgency(self.urgency);
        let status = patch.new_status(self.status);
        let completed_at = patch.new_completion(self.status, self.completed_at, now);
        let deadline = patch.new_deadline(self.deadline);
        let is_completed = match patch.is_completed {
            Some(flag) => flag,
            None => self.is_completed,
        };
        self.title = title;
        self.description = description;
        self.department = department;
        self.project_id = project_id;
        self.assignee_id = assignee_id;
        self.urgency = urgency;
        self.status = status;
        self.completed_at = completed_at;
        self.deadline = deadline;
        self.is_completed = is_completed;
        self.updated_at = Some(now);
        true
    }
}

/// The text after a change: the new text where there is one, a copy of the
/// current text otherwise.
fn changed_text(current: &String, change: &Option<String>) -> (r: String)
    ensures
        r@ == (match *change {
            Some(x) => x@,
            None => current@,
        }),
{
    match change {
        Some(x) => x.clone(),
        None => current.clone(),
    }
}

/// The optional text after a change: the new text where there is one, a copy
/// of the current one otherwise.
fn changed_opt_text(current: &Option<String>, change: &Option<String>) -> (r: Option<String>)
    ensures
        opt_view(r) == (match *change {
            Some(x) => Some(x@),
            None => opt_view(*current),
        }),
{
    match change {
        Some(x) => Some(x.clone()),
        None => copy_opt_text(current),
    }
}

impl UpdateTaskRequest {
    /// The urgency after the request: the one it names, where it names one
    /// that can be read; the current one otherwise.
    fn new_urgency(&self, current: Urgency) -> (r: Urgency)
        ensures
            r == (match self.urgency {
                Some(x) => match Urgency::spec_parse(x@) {
                    Some(u) => u,
                    None => current,
                },
                None => current,
            }),
    {
        match &self.urgency {
            Some(x) => match Urgency::parse(x) {
                Some(u) => u,
                None => current,
            },
            None => current,
        }
    }

    /// The status after the request: the one it names, where it names one
    /// that can be read; the current one otherwise.
    fn new_status(&self, current: TaskStatus) -> (r: TaskStatus)
        ensures
            r == (match self.spec_new_status() {
                Some(s) => s,
                None => current,
            }),
    {
        match &self.status {
            Some(x) => match TaskStatus::parse(x) {
                Some(s) => s,
                None => current,
            },
            None => current,
        }
    }

    /// The completion timestamp after the request, for a task that has the
    /// status `before` and the completion timestamp `current`: the one that
    /// goes with the status it names, where it names one that can be read;
    /// the current one otherwise.
    fn new_completion(&self, before: TaskStatus, current: Option<u64>, now: u64) -> (r: Option<
        u64,
    >)
        ensures
            r == (match self.spec_new_status() {
                Some(s) => spec_completion_after(before, current, s, now),
                None => current,
            }),
    {
        match &self.status {
            Some(x) => match TaskStatus::parse(x) {
                Some(s) => crate::status::completion_after(before, current, s, now),
                None => current,
            },
            None => current,
        }
    }

    /// The deadline after the request: the one it names, where it names one
    /// that can be read; the current one otherwise.
    fn new_deadline(&self, current: Date) -> (r: Date)
        ensures
            r == (match self.deadline {
                Some(x) => match spec_parse_date(x@) {
                    Some(d) => d,
                    None => current,
                },
                None => current,
            }),
    {
        match &self.deadline {
            Some(x) => match Date::parse(x) {
                Some(d) => d,
                None => current,
            },
            None => current,
        }
    }
}

/// A valid change keeps a well-formed task well-formed.
pub proof fn apply_preserves_wf(patch: UpdateTaskRequest, t: TaskView, now: u64)
    requires
        t.wf(),
        patch.spec_valid(),
    ensures
        patch.spec_apply(t, now).wf(),
        patch.spec_apply(t, now).id == t.id,
{
}

} // verus!
