use collab_core::error::EngineError;
use collab_core::models::tasks::HistoryAction;
use collab_core::status::{completion_after, TaskStatus, TransitionPolicy, Urgency};

const ALL_STATUSES: [TaskStatus; 4] =
    [TaskStatus::Pending, TaskStatus::InProgress, TaskStatus::Completed, TaskStatus::Cancelled];

#[test]
fn status_names_are_the_wire_names() {
    assert_eq!(TaskStatus::Pending.name(), "pending");
    assert_eq!(TaskStatus::InProgress.name(), "in-progress");
    assert_eq!(TaskStatus::Completed.name(), "completed");
    assert_eq!(TaskStatus::Cancelled.name(), "cancelled");
}

#[test]
fn status_is_recovered_from_its_name() {
    for status in ALL_STATUSES {
        assert_eq!(TaskStatus::parse(&status.name()), Some(status));
    }
}

#[test]
fn status_parse_rejects_other_text() {
    for text in ["", "done", "Pending", "PENDING", "in progress", "in_progress", "completed ", " completed", "canceled"] {
        assert_eq!(TaskStatus::parse(&text.to_string()), None, "{:?}", text);
    }
}

#[test]
fn urgency_names_and_ranks() {
    assert_eq!(Urgency::Low.name(), "low");
    assert_eq!(Urgency::Medium.name(), "medium");
    assert_eq!(Urgency::High.name(), "high");
    assert_eq!(Urgency::Urgent.name(), "urgent");
    assert_eq!(Urgency::Urgent.rank(), 1);
    assert_eq!(Urgency::High.rank(), 2);
    assert_eq!(Urgency::Medium.rank(), 3);
    assert_eq!(Urgency::Low.rank(), 4);
}

#[test]
fn urgency_is_recovered_from_its_name() {
    for urgency in [Urgency::Low, Urgency::Medium, Urgency::High, Urgency::Urgent] {
        assert_eq!(Urgency::parse(&urgency.name()), Some(urgency));
    }
    for text in ["", "URGENT", "critical", "lowest", "med"] {
        assert_eq!(Urgency::parse(&text.to_string()), None, "{:?}", text);
    }
}

#[test]
fn completed_and_cancelled_are_terminal() {
    assert!(!TaskStatus::Pending.is_terminal());
    assert!(!TaskStatus::InProgress.is_terminal());
    assert!(TaskStatus::Completed.is_terminal());
    assert!(TaskStatus::Cancelled.is_terminal());
}

#[test]
fn transition_graph_has_exactly_three_edges() {
    let mut edges = Vec::new();
    for from in ALL_STATUSES {
        for to in ALL_STATUSES {
            if from.can_transition_to(to) {
                edges.push((from, to));
            }
        }
    }
    assert_eq!(
        edges,
        vec![
            (TaskStatus::Pending, TaskStatus::InProgress),
            (TaskStatus::InProgress, TaskStatus::Completed),
            (TaskStatus::InProgress, TaskStatus::Cancelled),
        ]
    );
}

#[test]
fn permissive_policy_permits_every_write() {
    for from in ALL_STATUSES {
        for to in ALL_STATUSES {
            assert!(TransitionPolicy::Permissive.permits(from, to));
        }
    }
}

#[test]
fn strict_policy_permits_the_edges_of_the_graph() {
    for from in ALL_STATUSES {
        for to in ALL_STATUSES {
            assert_eq!(TransitionPolicy::Strict.permits(from, to), from.can_transition_to(to));
        }
    }
    assert!(!TransitionPolicy::Strict.permits(TaskStatus::Pending, TaskStatus::Completed));
    assert!(!TransitionPolicy::Strict.permits(TaskStatus::Completed, TaskStatus::Pending));
    assert!(!TransitionPolicy::Strict.permits(TaskStatus::Pending, TaskStatus::Pending));
}

#[test]
fn status_same_tells_statuses_apart() {
    for a in ALL_STATUSES {
        for b in ALL_STATUSES {
            assert_eq!(a.same(b), a == b);
        }
    }
}

#[test]
fn entering_completed_sets_the_completion_timestamp() {
    for before in [TaskStatus::Pending, TaskStatus::InProgress, TaskStatus::Cancelled] {
        assert_eq!(completion_after(before, None, TaskStatus::Completed, 1_700_000_000), Some(1_700_000_000));
        assert_eq!(completion_after(before, None, TaskStatus::Completed, 0), Some(0));
    }
}

#[test]
fn writing_completed_to_a_completed_task_keeps_the_completion_timestamp() {
    assert_eq!(completion_after(TaskStatus::Completed, Some(7), TaskStatus::Completed, 900), Some(7));
    assert_eq!(completion_after(TaskStatus::Completed, Some(0), TaskStatus::Completed, 900), Some(0));
    assert_eq!(completion_after(TaskStatus::Completed, Some(u64::MAX), TaskStatus::Completed, 900), Some(u64::MAX));
}

#[test]
fn leaving_completed_clears_the_completion_timestamp() {
    for next in [TaskStatus::Pending, TaskStatus::InProgress, TaskStatus::Cancelled] {
        assert_eq!(completion_after(TaskStatus::Completed, Some(7), next, 900), None);
    }
}

#[test]
fn writes_between_other_statuses_leave_the_completion_timestamp_unset() {
    let others = [TaskStatus::Pending, TaskStatus::InProgress, TaskStatus::Cancelled];
    for before in others {
        for next in others {
            assert_eq!(completion_after(before, None, next, 900), None);
        }
    }
}

#[test]
fn a_write_mends_a_timestamp_that_disagrees_with_the_status() {
    assert_eq!(completion_after(TaskStatus::Completed, None, TaskStatus::Completed, 900), Some(900));
    assert_eq!(completion_after(TaskStatus::Pending, Some(7), TaskStatus::Completed, 900), Some(900));
    assert_eq!(completion_after(TaskStatus::Pending, Some(7), TaskStatus::InProgress, 900), None);
}

#[test]
fn errors_map_to_http_statuses() {
    assert_eq!(EngineError::Validation.status_code(), 400);
    assert_eq!(EngineError::NotFound.status_code(), 404);
    assert_eq!(EngineError::Storage { applied: false }.status_code(), 500);
    assert_eq!(EngineError::Storage { applied: true }.status_code(), 500);
}

#[test]
fn history_actions_have_wire_names() {
    assert_eq!(HistoryAction::Created.name(), "created");
    assert_eq!(HistoryAction::Updated.name(), "updated");
    assert_eq!(HistoryAction::StatusChanged.name(), "status_changed");
    assert_eq!(HistoryAction::Deleted.name(), "deleted");
}

#[test]
fn history_action_is_recovered_from_its_name() {
    for action in [HistoryAction::Created, HistoryAction::Updated, HistoryAction::StatusChanged, HistoryAction::Deleted] {
        assert_eq!(HistoryAction::parse(&action.name()), Some(action));
    }
    for text in ["", "create", "status-changed", "status changed", "Deleted", "removed"] {
        assert_eq!(HistoryAction::parse(&text.to_string()), None, "{:?}", text);
    }
}
