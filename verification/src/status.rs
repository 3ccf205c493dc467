//! Task status and urgency: the closed sets of values, their wire names, the
//! intended transition graph and the effect of a transition on the completion
//! timestamp.

use vstd::prelude::*;
use crate::date::{days_between, spec_days_between, Date};
use crate::text::text_is;

verus! {

/// The state of a task. `Pending` is the initial state; `Completed` and
/// `Cancelled` are terminal by policy.
#[derive(Clone, Copy, Debug, PartialEq, Eq, Structural)]
pub enum TaskStatus {
    Pending,
    InProgress,
    Completed,
    Cancelled,
}

impl TaskStatus {
    /// The wire name of a status.
    pub open spec fn spec_name(self) -> Seq<char> {
        match self {
            TaskStatus::Pending => "pending"@,
            TaskStatus::InProgress => "in-progress"@,
            TaskStatus::Completed => "completed"@,
            TaskStatus::Cancelled => "cancelled"@,
        }
    }

    /// The status a wire name stands for, if any.
    pub open spec fn spec_parse(s: Seq<char>) -> Option<TaskStatus> {
        if s == "pending"@ {
            Some(TaskStatus::Pending)
        } else if s == "in-progress"@ {
            Some(TaskStatus::InProgress)
        } else if s == "completed"@ {
            Some(TaskStatus::Completed)
        } else if s == "cancelled"@ {
            Some(TaskStatus::Cancelled)
        } else {
            None
        }
    }

    /// The wire name of the status, as owned text.
    pub fn name(self) -> (s: String)
        ensures
            s@ == self.spec_name(),
    {
        match self {
            TaskStatus::Pending => "pending".to_owned(),
            TaskStatus::InProgress => "in-progress".to_owned(),
            TaskStatus::Completed => "completed".to_owned(),
            TaskStatus::Cancelled => "cancelled".to_owned(),
        }
    }

    /// Reads a status from its wire name; any other text gives `None`.
    pub fn parse(s: &String) -> (r: Option<TaskStatus>)
        ensures
            r == TaskStatus::spec_parse(s@),
    {
        if text_is(s, "pending") {
            Some(TaskStatus::Pending)
        } else if text_is(s, "in-progress") {
            Some(TaskStatus::InProgress)
        } else if text_is(s, "completed") {
            Some(TaskStatus::Completed)
        } else if text_is(s, "cancelled") {
            Some(TaskStatus::Cancelled)
        } else {
            None
        }
    }
}

impl TaskStatus {
    /// Whether no further transition is expected from this status.
    pub open spec fn spec_is_terminal(self) -> bool {
        self == TaskStatus::Completed || self == TaskStatus::Cancelled
    }

    /// The intended transition graph: `pending` to `in-progress`, and
    /// `in-progress` to `completed` or to `cancelled`.
    pub open spec fn spec_can_transition_to(self, next: TaskStatus) -> bool {
        match (self, next) {
            (TaskStatus::Pending, TaskStatus::InProgress) => true,
            (TaskStatus::InProgress, TaskStatus::Completed) => true,
            (TaskStatus::InProgress, TaskStatus::Cancelled) => true,
            _ => false,
        }
    }

    /// Whether no further transition is expected from this status.
    pub fn is_terminal(self) -> (terminal: bool)
        ensures
            terminal == self.spec_is_terminal(),
    {
        match self {
            TaskStatus::Completed => true,
            TaskStatus::Cancelled => true,
            _ => false,
        }
    }

    /// Whether the intended graph has an edge from this status to `next`.
    pub fn can_transition_to(self, next: TaskStatus) -> (allowed: bool)
        ensures
            allowed == self.spec_can_transition_to(next),
    {
        match (self, next) {
            (TaskStatus::Pending, TaskStatus::InProgress) => true,
            (TaskStatus::InProgress, TaskStatus::Completed) => true,
            (TaskStatus::InProgress, TaskStatus::Cancelled) => true,
            _ => false,
        }
    }

    /// Whether two statuses are the same.
    pub fn same(self, other: TaskStatus) -> (same: bool)
        ensures
            same == (self == other),
    {
        match (self, other) {
            (TaskStatus::Pending, TaskStatus::Pending) => true,
            (TaskStatus::InProgress, TaskStatus::InProgress) => true,
            (TaskStatus::Completed, TaskStatus::Completed) => true,
            (TaskStatus::Cancelled, TaskStatus::Cancelled) => true,
            _ => false,
        }
    }
}

/// Whether status writes are held to the intended transition graph.
///
/// `Permissive` accepts any status after any other. `Strict` accepts a write
/// only along an edge of the graph.
#[derive(Clone, Copy, Debug, PartialEq, Eq, Structural)]
pub enum TransitionPolicy {
    Permissive,
    Strict,
}

impl TransitionPolicy {
    /// Whether the policy lets a task go from `from` to `to`.
    pub open spec fn spec_permits(self, from: TaskStatus, to: TaskStatus) -> bool {
        match self {
            TransitionPolicy::Permissive => true,
            TransitionPolicy::Strict => from.spec_can_transition_to(to),
        }
    }

    /// Whether the policy lets a task go from `from` to `to`.
    pub fn permits(self, from: TaskStatus, to: TaskStatus) -> (allowed: bool)
        ensures
            allowed == self.spec_permits(from, to),
    {
        match self {
            TransitionPolicy::Permissive => true,
            TransitionPolicy::Strict => from.can_transition_to(to),
        }
    }
}

/// The completion timestamp of a task once its status is written at time
/// `now`. Entering `completed` sets it to `now`. A write of `completed` to a
/// task that is completed already leaves it as it was. A write of any other
/// status leaves the task without one.
pub open spec fn spec_completion_after(
    before: TaskStatus,
    completed_before: Option<u64>,
    next: TaskStatus,
    now: u64,
) -> Option<u64> {
    if next != TaskStatus::Completed {
        None
    } else if before == TaskStatus::Completed && completed_before.is_some() {
        completed_before
    } else {
        Some(now)
    }
}

/// The completion timestamp of a task that had the status `before` and the
/// completion timestamp `completed_before`, once the status `next` is
/// written to it at time `now`.
pub fn completion_after(
    before: TaskStatus,
    completed_before: Option<u64>,
    next: TaskStatus,
    now: u64,
) -> (completed_at: Option<u64>)
    ensures
        completed_at == spec_completion_after(before, completed_before, next, now),
{
    match next {
        TaskStatus::Completed => match (before, completed_before) {
            (TaskStatus::Completed, Some(at)) => Some(at),
            _ => Some(now),
        },
        _ => None,
    }
}

/// What a status write does to the completion timestamp of a consistent
/// task: entering `completed` sets it to the time of the write, leaving
/// `completed` clears it, and every other write leaves it untouched. After
/// the write the task has one exactly if its status is `completed`.
pub proof fn completion_follows_the_status(
    before: TaskStatus,
    completed_before: Option<u64>,
    next: TaskStatus,
    now: u64,
)
    requires
        completed_before.is_some() == (before == TaskStatus::Completed),
    ensures
        before != TaskStatus::Completed && next == TaskStatus::Completed ==> spec_completion_after(
            before,
            completed_before,
            next,
            now,
        ) == Some(now),
        before == TaskStatus::Completed && next != TaskStatus::Completed ==> spec_completion_after(
            before,
            completed_before,
            next,
            now,
        ).is_none(),
        (before == TaskStatus::Completed) == (next == TaskStatus::Completed)
            ==> spec_completion_after(before, completed_before, next, now) == completed_before,
        spec_completion_after(before, completed_before, next, now).is_some() == (next
            == TaskStatus::Completed),
{
}

/// The status and completion flag that sample data gives a task whose
/// deadline lies `days_until_deadline` days ahead (behind, where negative):
/// more than two days overdue counts as completed, due today or overdue by
/// less as in progress, and due later as pending.
pub open spec fn spec_status_for_deadline(days_until_deadline: i64) -> (TaskStatus, bool) {
    if days_until_deadline < -2 {
        (TaskStatus::Completed, true)
    } else if days_until_deadline <= 0 {
        (TaskStatus::InProgress, false)
    } else {
        (TaskStatus::Pending, false)
    }
}

/// The status and completion flag of a sample task by the days left until
/// its deadline.
pub fn status_for_deadline(days_until_deadline: i64) -> (r: (TaskStatus, bool))
    ensures
        r == spec_status_for_deadline(days_until_deadline),
{
    if days_until_deadline < -2 {
        (TaskStatus::Completed, true)
    } else if days_until_deadline < 0 {
        (TaskStatus::InProgress, false)
    } else if days_until_deadline == 0 {
        (TaskStatus::InProgress, false)
    } else {
        (TaskStatus::Pending, false)
    }
}

/// The status and completion flag that sample data gives a task with the
/// deadline `deadline` when today is `current_date`: what
/// `status_for_deadline` gives for the days from today to the deadline.
/// `None` where one of the two days does not exist.
pub fn determine_task_status(deadline: &Date, current_date: &Date) -> (r: Option<(TaskStatus, bool)>)
    ensures
        r == (if deadline.valid() && current_date.valid() {
            Some(
                spec_status_for_deadline(
                    spec_days_between(
                        deadline.year as int,
                        deadline.month as int,
                        deadline.day as int,
                        current_date.year as int,
                        current_date.month as int,
                        current_date.day as int,
                    ),
                ),
            )
        } else {
            None
        }),
{
    if !deadline.is_valid() || !current_date.is_valid() {
        return None;
    }
    match days_between(deadline, current_date) {
        Some(days) => Some(status_for_deadline(days)),
        None => None,
    }
}

/// How pressing a task is.
#[derive(Clone, Copy, Debug, PartialEq, Eq, Structural)]
pub enum Urgency {
    Low,
    Medium,
    High,
    Urgent,
}

impl Urgency {
    /// The wire name of an urgency.
    pub open spec fn spec_name(self) -> Seq<char> {
        match self {
            Urgency::Low => "low"@,
            Urgency::Medium => "medium"@,
            Urgency::High => "high"@,
            Urgency::Urgent => "urgent"@,
        }
    }

    /// The urgency a wire name stands for, if any.
    pub open spec fn spec_parse(s: Seq<char>) -> Option<Urgency> {
        if s == "low"@ {
            Some(Urgency::Low)
        } else if s == "medium"@ {
            Some(Urgency::Medium)
        } else if s == "high"@ {
            Some(Urgency::High)
        } else if s == "urgent"@ {
            Some(Urgency::Urgent)
        } else {
            None
        }
    }

    /// The place of an urgency in listings that put pressing work first:
    /// 1 for `urgent` down to 4 for `low`.
    pub open spec fn spec_rank(self) -> int {
        match self {
            Urgency::Urgent => 1,
            Urgency::High => 2,
            Urgency::Medium => 3,
            Urgency::Low => 4,
        }
    }

    /// The wire name of the urgency, as owned text.
    pub fn name(self) -> (s: String)
        ensures
            s@ == self.spec_name(),
    {
        match self {
            Urgency::Low => "low".to_owned(),
            Urgency::Medium => "medium".to_owned(),
            Urgency::High => "high".to_owned(),
            Urgency::Urgent => "urgent".to_owned(),
        }
    }

    /// Reads an urgency from its wire name; any other text gives `None`.
    pub fn parse(s: &String) -> (r: Option<Urgency>)
        ensures
            r == Urgency::spec_parse(s@),
    {
        if text_is(s, "low") {
            Some(Urgency::Low)
        } else if text_is(s, "medium") {
            Some(Urgency::Medium)
        } else if text_is(s, "high") {
            Some(Urgency::High)
        } else if text_is(s, "urgent") {
            Some(Urgency::Urgent)
        } else {
            None
        }
    }

    /// The place of the urgency in listings that put pressing work first.
    pub fn rank(self) -> (r: u64)
        ensures
            r == self.spec_rank(),
    {
        match self {
            Urgency::Urgent => 1,
            Urgency::High => 2,
            Urgency::Medium => 3,
            Urgency::Low => 4,
        }
    }
}

/// Every urgency is recovered from its wire name.
pub proof fn urgency_name_round_trip(u: Urgency)
    ensures
        Urgency::spec_parse(u.spec_name()) == Some(u),
{
    reveal_strlit("low");
    reveal_strlit("medium");
    reveal_strlit("high");
    reveal_strlit("urgent");
    assert("low"@.len() == 3);
    assert("medium"@.len() == 6);
    assert("high"@.len() == 4);
    assert("urgent"@.len() == 6);
    assert("medium"@[0] == 'm');
    assert("urgent"@[0] == 'u');
}

/// Every status is recovered from its wire name.
pub proof fn status_name_round_trip(st: TaskStatus)
    ensures
        TaskStatus::spec_parse(st.spec_name()) == Some(st),
{
    reveal_strlit("pending");
    reveal_strlit("in-progress");
    reveal_strlit("completed");
    reveal_strlit("cancelled");
    assert("pending"@.len() == 7);
    assert("in-progress"@.len() == 11);
    assert("completed"@.len() == 9);
    assert("cancelled"@.len() == 9);
    assert("completed"@[1] == 'o');
    assert("cancelled"@[1] == 'a');
}

} // verus!
