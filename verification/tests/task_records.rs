use collab_core::date::Date;
use collab_core::models::tasks::{
    CreateTaskRequest, GetTasksQuery, Task, TaskAssignee, TaskHistory, HistoryAction,
    UpdateTaskRequest,
};
use collab_core::models::ApiResponse;
use collab_core::status::{TaskStatus, Urgency};

fn text(s: &str) -> String {
    s.to_string()
}

fn sample_request() -> CreateTaskRequest {
    CreateTaskRequest {
        title: text("Replace the switch"),
        description: Some(text("Rack 4, top unit")),
        urgency: text("high"),
        department: text("IT"),
        project_id: Some(text("p-1")),
        assignee_id: Some(text("u-legacy")),
        assignee_ids: None,
        deadline: text("2024-03-15"),
        is_completed: None,
    }
}

fn empty_patch() -> UpdateTaskRequest {
    UpdateTaskRequest {
        title: None,
        description: None,
        urgency: None,
        status: None,
        department: None,
        project_id: None,
        assignee_id: None,
        assignee_ids: None,
        deadline: None,
        is_completed: None,
    }
}

fn sample_task() -> Task {
    sample_request().to_task(text("t-1"), &text("u-1"), 100).unwrap()
}

fn is_hyphenated_lower_hex(id: &str) -> bool {
    id.len() == 36
        && id.char_indices().all(|(i, c)| {
            if i == 8 || i == 13 || i == 18 || i == 23 {
                c == '-'
            } else {
                c.is_ascii_digit() || ('a'..='f').contains(&c)
            }
        })
}

#[test]
fn new_task_draws_a_hyphenated_identifier() {
    let day = Date { year: 2024, month: 3, day: 15 };
    let a = Task::new(text("A"), None, Urgency::Low, text("IT"), None, None, text("u-1"), day);
    let b = Task::new(text("B"), None, Urgency::Low, text("IT"), None, None, text("u-1"), day);
    assert!(is_hyphenated_lower_hex(&a.id), "{}", a.id);
    assert!(is_hyphenated_lower_hex(&b.id), "{}", b.id);
    assert_eq!(a.id.as_bytes()[14], b'4');
    assert_ne!(a.id, b.id);
}

#[test]
fn new_task_is_pending_and_not_completed() {
    let day = Date { year: 2024, month: 3, day: 15 };
    let t = Task::new(
        text("Order cables"),
        Some(text("cat 6")),
        Urgency::Medium,
        text("Engineering"),
        Some(text("p-9")),
        Some(text("u-2")),
        text("u-1"),
        day,
    );
    assert_eq!(t.title, "Order cables");
    assert_eq!(t.description.as_deref(), Some("cat 6"));
    assert_eq!(t.urgency, Urgency::Medium);
    assert_eq!(t.status, TaskStatus::Pending);
    assert_eq!(t.department, "Engineering");
    assert_eq!(t.project_id.as_deref(), Some("p-9"));
    assert_eq!(t.assignee_id.as_deref(), Some("u-2"));
    assert_eq!(t.created_by, "u-1");
    assert_eq!(t.deadline, day);
    assert_eq!(t.completed_at, None);
    assert_eq!(t.created_at, None);
    assert_eq!(t.updated_at, None);
    assert!(!t.is_completed);
}

#[test]
fn with_id_keeps_the_identifier_given() {
    let day = Date { year: 2024, month: 1, day: 2 };
    let t = Task::with_id(text("t-42"), text("A"), None, Urgency::Urgent, text("IT"), None, None, text("u"), day);
    assert_eq!(t.id, "t-42");
    assert_eq!(t.status, TaskStatus::Pending);
    assert_eq!(t.urgency, Urgency::Urgent);
    assert_eq!(t.created_at, None);
    assert_eq!(t.updated_at, None);
    assert_eq!(t.completed_at, None);
}

#[test]
fn request_becomes_a_pending_task() {
    let t = sample_request().to_task(text("t-1"), &text("u-1"), 100).unwrap();
    assert_eq!(t.id, "t-1");
    assert_eq!(t.title, "Replace the switch");
    assert_eq!(t.description.as_deref(), Some("Rack 4, top unit"));
    assert_eq!(t.urgency, Urgency::High);
    assert_eq!(t.status, TaskStatus::Pending);
    assert_eq!(t.department, "IT");
    assert_eq!(t.project_id.as_deref(), Some("p-1"));
    assert_eq!(t.assignee_id.as_deref(), Some("u-legacy"));
    assert_eq!(t.created_by, "u-1");
    assert_eq!(t.deadline, Date { year: 2024, month: 3, day: 15 });
    assert_eq!(t.completed_at, None);
    assert_eq!(t.created_at, Some(100));
    assert_eq!(t.updated_at, Some(100));
    assert!(!t.is_completed);
}

#[test]
fn request_carries_the_completion_flag_as_given() {
    let mut req = sample_request();
    req.is_completed = Some(true);
    let t = req.to_task(text("t-1"), &text("u-1"), 100).unwrap();
    assert!(t.is_completed);
    assert_eq!(t.status, TaskStatus::Pending);
    assert_eq!(t.completed_at, None);
    req.is_completed = Some(false);
    assert!(!req.to_task(text("t-2"), &text("u-1"), 100).unwrap().is_completed);
}

#[test]
fn request_without_title_is_not_valid() {
    let mut req = sample_request();
    req.title = text("");
    assert!(req.to_task(text("t-1"), &text("u-1"), 100).is_none());
}

#[test]
fn request_with_unknown_urgency_is_not_valid() {
    let mut req = sample_request();
    req.urgency = text("critical");
    assert!(req.to_task(text("t-1"), &text("u-1"), 100).is_none());
}

#[test]
fn request_with_malformed_deadline_is_not_valid() {
    for deadline in ["", "tomorrow", "2024-02-30", "15.03.2024"] {
        let mut req = sample_request();
        req.deadline = text(deadline);
        assert!(req.to_task(text("t-1"), &text("u-1"), 100).is_none(), "{:?}", deadline);
    }
}

#[test]
fn duplicate_copies_every_field() {
    let mut t = sample_task();
    t.status = TaskStatus::Completed;
    t.completed_at = Some(500);
    t.is_completed = true;
    let c = t.duplicate();
    assert_eq!(format!("{:?}", c), format!("{:?}", t));
}

#[test]
fn assignment_and_history_duplicates_copy_every_field() {
    let a = TaskAssignee { task_id: text("t"), user_id: text("u"), assigned_at: 9, assigned_by: text("system") };
    assert_eq!(format!("{:?}", a.duplicate()), format!("{:?}", a));
    let h = TaskHistory {
        id: text("h"),
        task_id: text("t"),
        user_id: text("u"),
        action: HistoryAction::StatusChanged,
        field_changed: Some(text("status")),
        old_value: Some(text("pending")),
        new_value: None,
        created_at: 11,
    };
    assert_eq!(format!("{:?}", h.duplicate()), format!("{:?}", h));
}

#[test]
fn patch_without_fields_is_empty_and_not_valid() {
    let patch = empty_patch();
    assert!(patch.is_empty());
    assert!(!patch.is_valid());
}

#[test]
fn patch_with_only_assignee_ids_is_empty() {
    let mut patch = empty_patch();
    patch.assignee_ids = Some(vec![text("u-1")]);
    assert!(patch.is_empty());
    assert!(!patch.is_valid());
}

#[test]
fn each_single_field_makes_a_patch_non_empty() {
    let mut patches = Vec::new();
    for _ in 0..9 {
        patches.push(empty_patch());
    }
    patches[0].title = Some(text("x"));
    patches[1].description = Some(text(""));
    patches[2].urgency = Some(text("low"));
    patches[3].status = Some(text("pending"));
    patches[4].department = Some(text(""));
    patches[5].project_id = Some(text(""));
    patches[6].assignee_id = Some(text(""));
    patches[7].deadline = Some(text("2024-01-01"));
    patches[8].is_completed = Some(false);
    for (i, patch) in patches.iter().enumerate() {
        assert!(!patch.is_empty(), "patch {}", i);
        assert!(patch.is_valid(), "patch {}", i);
    }
}

#[test]
fn patch_with_bad_values_is_not_valid() {
    let mut patch = empty_patch();
    patch.title = Some(text(""));
    assert!(!patch.is_valid());
    let mut patch = empty_patch();
    patch.urgency = Some(text("asap"));
    assert!(!patch.is_valid());
    let mut patch = empty_patch();
    patch.status = Some(text("done"));
    assert!(!patch.is_valid());
    let mut patch = empty_patch();
    patch.deadline = Some(text("2024-13-01"));
    assert!(!patch.is_valid());
    let mut patch = empty_patch();
    patch.department = Some(text("IT"));
    patch.status = Some(text("done"));
    assert!(!patch.is_valid());
}

#[test]
fn apply_changes_only_the_fields_present() {
    let mut t = sample_task();
    let mut patch = empty_patch();
    patch.title = Some(text("Replace both switches"));
    patch.deadline = Some(text("2024-04-01T12:00:00Z"));
    assert!(t.apply(&patch, 250));
    assert_eq!(t.title, "Replace both switches");
    assert_eq!(t.deadline, Date { year: 2024, month: 4, day: 1 });
    assert_eq!(t.updated_at, Some(250));
    assert_eq!(t.id, "t-1");
    assert_eq!(t.description.as_deref(), Some("Rack 4, top unit"));
    assert_eq!(t.urgency, Urgency::High);
    assert_eq!(t.status, TaskStatus::Pending);
    assert_eq!(t.department, "IT");
    assert_eq!(t.project_id.as_deref(), Some("p-1"));
    assert_eq!(t.assignee_id.as_deref(), Some("u-legacy"));
    assert_eq!(t.created_by, "u-1");
    assert_eq!(t.created_at, Some(100));
    assert_eq!(t.completed_at, None);
    assert!(!t.is_completed);
}

#[test]
fn apply_changes_every_field_present() {
    let mut t = sample_task();
    let patch = UpdateTaskRequest {
        title: Some(text("T")),
        description: Some(text("D")),
        urgency: Some(text("urgent")),
        status: Some(text("in-progress")),
        department: Some(text("Engineering")),
        project_id: Some(text("p-2")),
        assignee_id: Some(text("u-7")),
        assignee_ids: Some(vec![text("ignored")]),
        deadline: Some(text("2025-01-31")),
        is_completed: Some(true),
    };
    assert!(t.apply(&patch, 300));
    assert_eq!(t.title, "T");
    assert_eq!(t.description.as_deref(), Some("D"));
    assert_eq!(t.urgency, Urgency::Urgent);
    assert_eq!(t.status, TaskStatus::InProgress);
    assert_eq!(t.department, "Engineering");
    assert_eq!(t.project_id.as_deref(), Some("p-2"));
    assert_eq!(t.assignee_id.as_deref(), Some("u-7"));
    assert_eq!(t.deadline, Date { year: 2025, month: 1, day: 31 });
    assert!(t.is_completed);
    assert_eq!(t.completed_at, None);
    assert_eq!(t.updated_at, Some(300));
    assert_eq!(t.created_at, Some(100));
}

#[test]
fn apply_with_status_sets_and_clears_the_completion_timestamp() {
    let mut t = sample_task();
    let mut patch = empty_patch();
    patch.status = Some(text("completed"));
    assert!(t.apply(&patch, 400));
    assert_eq!(t.status, TaskStatus::Completed);
    assert_eq!(t.completed_at, Some(400));
    patch.status = Some(text("cancelled"));
    assert!(t.apply(&patch, 500));
    assert_eq!(t.status, TaskStatus::Cancelled);
    assert_eq!(t.completed_at, None);
}

#[test]
fn apply_without_status_keeps_the_completion_timestamp() {
    let mut t = sample_task();
    let mut patch = empty_patch();
    patch.status = Some(text("completed"));
    assert!(t.apply(&patch, 400));
    let mut rename = empty_patch();
    rename.title = Some(text("Renamed"));
    assert!(t.apply(&rename, 450));
    assert_eq!(t.completed_at, Some(400));
    assert_eq!(t.updated_at, Some(450));
}

#[test]
fn query_without_options_passes_every_task() {
    let q = GetTasksQuery::all();
    assert!(q.matches(&sample_task()));
    assert_eq!(q.limit, None);
    assert_eq!(q.offset, None);
}

#[test]
fn query_options_narrow_one_by_one() {
    let t = sample_task();
    let mut q = GetTasksQuery::all();
    q.status = Some(text("pending"));
    assert!(q.matches(&t));
    q.status = Some(text("completed"));
    assert!(!q.matches(&t));
    q.status = Some(text("no-such-status"));
    assert!(!q.matches(&t));

    let mut q = GetTasksQuery::all();
    q.urgency = Some(text("high"));
    assert!(q.matches(&t));
    q.urgency = Some(text("low"));
    assert!(!q.matches(&t));

    let mut q = GetTasksQuery::all();
    q.department = Some(text("IT"));
    assert!(q.matches(&t));
    q.department = Some(text("it"));
    assert!(!q.matches(&t));

    let mut q = GetTasksQuery::all();
    q.project_id = Some(text("p-1"));
    assert!(q.matches(&t));
    q.project_id = Some(text("p-2"));
    assert!(!q.matches(&t));

    let mut q = GetTasksQuery::all();
    q.assignee_id = Some(text("u-legacy"));
    assert!(q.matches(&t));
    q.assignee_id = Some(text("u-1"));
    assert!(!q.matches(&t));

    let mut q = GetTasksQuery::all();
    q.is_completed = Some(false);
    assert!(q.matches(&t));
    q.is_completed = Some(true);
    assert!(!q.matches(&t));
}

#[test]
fn query_on_project_passes_no_task_without_project() {
    let mut req = sample_request();
    req.project_id = None;
    req.assignee_id = None;
    let t = req.to_task(text("t-1"), &text("u-1"), 100).unwrap();
    let mut q = GetTasksQuery::all();
    q.project_id = Some(text(""));
    assert!(!q.matches(&t));
    let mut q = GetTasksQuery::all();
    q.assignee_id = Some(text(""));
    assert!(!q.matches(&t));
}

#[test]
fn success_envelope_holds_the_data() {
    let r = ApiResponse::success(41u32);
    assert!(r.success);
    assert_eq!(r.data, Some(41));
    assert_eq!(r.message, None);
}

#[test]
fn error_envelope_holds_the_message() {
    let r = ApiResponse::<()>::error(text("Task not found"));
    assert!(!r.success);
    assert_eq!(r.data, None);
    assert_eq!(r.message.as_deref(), Some("Task not found"));
}

#[test]
fn apply_of_a_request_that_is_not_valid_changes_nothing() {
    let mut t = sample_task();
    let before = format!("{:?}", t);
    assert!(!t.apply(&empty_patch(), 900));
    let mut bad = empty_patch();
    bad.title = Some(text("new title"));
    bad.status = Some(text("finished"));
    assert!(!t.apply(&bad, 900));
    assert_eq!(format!("{:?}", t), before);
}

#[test]
fn apply_of_completed_to_a_completed_task_keeps_the_completion_timestamp() {
    let mut t = sample_task();
    let mut patch = empty_patch();
    patch.status = Some(text("completed"));
    assert!(t.apply(&patch, 400));
    assert_eq!(t.completed_at, Some(400));
    assert!(t.apply(&patch, 500));
    assert_eq!(t.status, TaskStatus::Completed);
    assert_eq!(t.completed_at, Some(400));
    assert_eq!(t.updated_at, Some(500));
}

#[test]
fn a_new_task_is_not_stamped_and_a_stored_one_is() {
    let day = Date { year: 2024, month: 3, day: 15 };
    let t = Task::new(text("A"), None, Urgency::Low, text("IT"), None, None, text("u-1"), day);
    assert_eq!((t.created_at, t.updated_at, t.completed_at), (None, None, None));
    assert!(t.is_well_formed());
    let stored = sample_request().to_task(text("t-1"), &text("u-1"), 77).unwrap();
    assert_eq!((stored.created_at, stored.updated_at), (Some(77), Some(77)));
}
