use collab_core::clock::ClockReading;
use collab_core::date::Date;
use collab_core::directory::{Directory, DirectoryUser};
use collab_core::engine::Engine;
use collab_core::error::EngineError;
use collab_core::models::projects::{Project, ProjectMember};
use collab_core::models::tasks::{
    CreateTaskRequest, GetTasksQuery, HistoryAction, UpdateTaskRequest,
};
use collab_core::models::users::UserSummary;
use collab_core::status::{TaskStatus, TransitionPolicy, Urgency};

fn text(s: &str) -> String {
    s.to_string()
}

fn directory() -> Directory {
    let project = |id: &str, name: &str| Project {
        id: text(id),
        name: text(name),
        description: None,
        status: text("active"),
        created_by: text("A"),
        created_at: text("2024-01-01"),
        updated_at: text("2024-01-01"),
    };
    let member = |p: &str, u: &str| ProjectMember {
        id: format!("{}:{}", p, u),
        project_id: text(p),
        user_id: text(u),
        role: text("member"),
        added_at: text("2024-01-01"),
    };
    let user = |id: &str| DirectoryUser {
        summary: UserSummary { id: text(id), first_name: text(id), last_name: text("Doe") },
        email: format!("{}@example.org", id),
    };
    Directory::new(
        vec![user("A"), user("B"), user("C")],
        vec![project("P", "Platform"), project("Q", "Quality")],
        vec![member("P", "A"), member("P", "B"), member("Q", "C")],
    )
}

fn engine() -> Engine {
    Engine::new(directory(), TransitionPolicy::Permissive)
}

fn request(title: &str, deadline: &str) -> CreateTaskRequest {
    CreateTaskRequest {
        title: text(title),
        description: None,
        urgency: text("medium"),
        department: text("IT"),
        project_id: None,
        assignee_id: None,
        assignee_ids: None,
        deadline: text(deadline),
        is_completed: None,
    }
}

fn patch() -> UpdateTaskRequest {
    UpdateTaskRequest {
        title: None,
        description: None,
        urgency: None,
        status: None,
        department: None,
        project_id: None,
        assignee_id: None,
        assignee_ids: None,
        deadline: None,
        is_completed: None,
    }
}

const TODAY: Date = Date { year: 2024, month: 3, day: 15 };

#[test]
fn example_scenario_from_creation_to_completion() {
    let mut e = engine();
    let mut req = request("T", "2024-03-15");
    req.project_id = Some(text("P"));
    let created = e.create_task_as(text("T"), text("h1"), &req, &text("creator"), 100).unwrap();
    assert_eq!(created.task.status, TaskStatus::Pending);
    assert_eq!(created.task.completed_at, None);
    assert_eq!(created.assignee_ids, vec![text("A"), text("B")]);
    assert!(e.is_assigned(&text("T"), &text("A")));
    assert!(e.is_assigned(&text("T"), &text("B")));
    assert_eq!(e.assignment_count(), 2);
    let history = e.get_task_history(&text("T"));
    assert_eq!(history.len(), 1);
    assert_eq!(history[0].action, HistoryAction::Created);
    let due: Vec<String> = e.tasks_due_on(&text("A"), TODAY).into_iter().map(|l| l.task.id).collect();
    assert_eq!(due, vec![text("T")]);

    let done = e.change_status_as(text("h2"), &text("T"), &text("completed"), &text("A"), 200).unwrap();
    assert_eq!(done.status, TaskStatus::Completed);
    assert_eq!(done.completed_at, Some(200));
    let history = e.get_task_history(&text("T"));
    assert_eq!(history.len(), 2);
    assert_eq!(history[0].action, HistoryAction::StatusChanged);
    assert_eq!(history[0].field_changed.as_deref(), Some("status"));
    assert_eq!(history[0].old_value.as_deref(), Some("pending"));
    assert_eq!(history[0].new_value.as_deref(), Some("completed"));
    assert_eq!(history[1].action, HistoryAction::Created);
    assert!(e.tasks_due_on(&text("A"), TODAY).is_empty());
}

#[test]
fn pending_task_under_a_project_is_due_today_once_for_a_member() {
    let mut e = engine();
    let mut req = request("T", "2024-03-15");
    req.project_id = Some(text("P"));
    e.create_task_as(text("T"), text("h1"), &req, &text("creator"), 100).unwrap();
    let due = e.tasks_due_on(&text("A"), TODAY);
    assert_eq!(due.len(), 1);
    assert_eq!(due[0].task.id, "T");
    assert_eq!(due[0].project_name.as_deref(), Some("Platform"));
}

#[test]
fn create_stores_a_pending_task_with_the_fields_of_the_request() {
    let mut e = engine();
    let mut req = request("Patch the router", "2024-05-01T08:00:00");
    req.description = Some(text("firmware 2.1"));
    req.urgency = text("urgent");
    req.assignee_id = Some(text("B"));
    let created = e.create_task_as(text("t1"), text("h1"), &req, &text("A"), 1000).unwrap();
    let stored = e.get_task(&text("t1")).unwrap();
    for t in [&created.task, &stored] {
        assert_eq!(t.id, "t1");
        assert_eq!(t.title, "Patch the router");
        assert_eq!(t.description.as_deref(), Some("firmware 2.1"));
        assert_eq!(t.urgency, Urgency::Urgent);
        assert_eq!(t.status, TaskStatus::Pending);
        assert_eq!(t.department, "IT");
        assert_eq!(t.project_id, None);
        assert_eq!(t.assignee_id.as_deref(), Some("B"));
        assert_eq!(t.created_by, "A");
        assert_eq!(t.deadline, Date { year: 2024, month: 5, day: 1 });
        assert_eq!(t.completed_at, None);
        assert_eq!(t.created_at, Some(1000));
        assert_eq!(t.updated_at, Some(1000));
    }
    assert!(created.assignee_ids.is_empty());
    assert_eq!(e.task_count(), 1);
    assert_eq!(e.assignment_count(), 0);
    assert_eq!(e.history_count(), 1);
    let h = &e.get_task_history(&text("t1"))[0];
    assert_eq!(h.id, "h1");
    assert_eq!(h.task_id, "t1");
    assert_eq!(h.user_id, "A");
    assert_eq!(h.action, HistoryAction::Created);
    assert_eq!(h.field_changed, None);
    assert_eq!(h.old_value, None);
    assert_eq!(h.new_value, None);
    assert_eq!(h.created_at, 1000);
}

#[test]
fn create_with_random_identifiers_stores_the_task() {
    let mut e = engine();
    let a = e.create_task(&request("one", "2024-03-15"), &text("A")).unwrap();
    let b = e.create_task(&request("two", "2024-03-15"), &text("A")).unwrap();
    assert_eq!(a.task.id.len(), 36);
    assert_ne!(a.task.id, b.task.id);
    assert_eq!(e.task_count(), 2);
    assert_eq!(e.get_task(&a.task.id).unwrap().title, "one");
    assert_eq!(e.get_task(&b.task.id).unwrap().title, "two");
    assert_eq!(e.get_task_history(&a.task.id).len(), 1);
    assert_eq!(e.get_task_history(&b.task.id).len(), 1);
    assert_ne!(e.get_task_history(&a.task.id)[0].id, e.get_task_history(&b.task.id)[0].id);
}

#[test]
fn create_refuses_a_request_that_is_not_valid() {
    let mut e = engine();
    let mut no_title = request("", "2024-03-15");
    no_title.project_id = Some(text("P"));
    let mut bad_urgency = request("x", "2024-03-15");
    bad_urgency.urgency = text("whenever");
    let bad_deadline = request("x", "soon");
    let no_deadline = request("x", "");
    for req in [&no_title, &bad_urgency, &bad_deadline, &no_deadline] {
        let r = e.create_task_as(text("t1"), text("h1"), req, &text("A"), 1);
        assert_eq!(r.err(), Some(EngineError::Validation));
        let r = e.create_task(req, &text("A"));
        assert_eq!(r.err(), Some(EngineError::Validation));
    }
    assert_eq!(e.task_count(), 0);
    assert_eq!(e.assignment_count(), 0);
    assert_eq!(e.history_count(), 0);
}

#[test]
fn create_under_an_identifier_in_use_is_a_storage_error() {
    let mut e = engine();
    e.create_task_as(text("t1"), text("h1"), &request("first", "2024-03-15"), &text("A"), 1).unwrap();
    let r = e.create_task_as(text("t1"), text("h2"), &request("second", "2024-03-15"), &text("A"), 2);
    assert_eq!(r.err(), Some(EngineError::Storage { applied: false }));
    assert_eq!(e.task_count(), 1);
    assert_eq!(e.history_count(), 1);
    assert_eq!(e.get_task(&text("t1")).unwrap().title, "first");
}

#[test]
fn validation_is_reported_before_an_identifier_in_use() {
    let mut e = engine();
    e.create_task_as(text("t1"), text("h1"), &request("first", "2024-03-15"), &text("A"), 1).unwrap();
    let r = e.create_task_as(text("t1"), text("h2"), &request("", "2024-03-15"), &text("A"), 2);
    assert_eq!(r.err(), Some(EngineError::Validation));
}

#[test]
fn create_whose_history_write_fails_keeps_the_task_without_assignees() {
    let mut e = engine();
    e.create_task_as(text("t1"), text("h1"), &request("first", "2024-03-15"), &text("A"), 1).unwrap();
    let mut req = request("second", "2024-03-15");
    req.project_id = Some(text("P"));
    let r = e.create_task_as(text("t2"), text("h1"), &req, &text("A"), 2);
    assert_eq!(r.err(), Some(EngineError::Storage { applied: true }));
    assert_eq!(e.get_task(&text("t2")).unwrap().title, "second");
    assert_eq!(e.history_count(), 1);
    assert!(e.get_task_history(&text("t2")).is_empty());
    assert!(e.assignee_ids(&text("t2")).is_empty());
}

#[test]
fn get_task_of_a_missing_task_is_not_found() {
    let e = engine();
    assert_eq!(e.get_task(&text("nope")).err(), Some(EngineError::NotFound));
}

#[test]
fn update_applies_the_fields_and_records_updated() {
    let mut e = engine();
    e.create_task_as(text("t1"), text("h1"), &request("old", "2024-03-15"), &text("A"), 1).unwrap();
    let mut p = patch();
    p.title = Some(text("new"));
    p.urgency = Some(text("low"));
    let t = e.update_task_as(text("h2"), &text("t1"), &p, &text("B"), 50).unwrap();
    assert_eq!(t.title, "new");
    assert_eq!(t.urgency, Urgency::Low);
    assert_eq!(t.updated_at, Some(50));
    assert_eq!(t.created_at, Some(1));
    let stored = e.get_task(&text("t1")).unwrap();
    assert_eq!(format!("{:?}", stored), format!("{:?}", t));
    let history = e.get_task_history(&text("t1"));
    assert_eq!(history.len(), 2);
    assert_eq!(history[0].id, "h2");
    assert_eq!(history[0].action, HistoryAction::Updated);
    assert_eq!(history[0].user_id, "B");
    assert_eq!(history[0].field_changed, None);
    assert_eq!(history[0].old_value, None);
    assert_eq!(history[0].new_value, None);
    assert_eq!(history[0].created_at, 50);
}

#[test]
fn update_with_random_history_identifier_records_one_entry() {
    let mut e = engine();
    e.create_task_as(text("t1"), text("h1"), &request("old", "2024-03-15"), &text("A"), 1).unwrap();
    let mut p = patch();
    p.department = Some(text("Engineering"));
    let t = e.update_task(&text("t1"), &p, &text("A")).unwrap();
    assert_eq!(t.department, "Engineering");
    let history = e.get_task_history(&text("t1"));
    assert_eq!(history.len(), 2);
    assert_eq!(history[0].id.len(), 36);
}

#[test]
fn update_that_writes_a_status_records_the_change_and_the_completion() {
    let mut e = engine();
    e.create_task_as(text("t1"), text("h1"), &request("x", "2024-03-15"), &text("A"), 1).unwrap();
    let mut p = patch();
    p.status = Some(text("completed"));
    p.title = Some(text("y"));
    let t = e.update_task_as(text("h2"), &text("t1"), &p, &text("A"), 60).unwrap();
    assert_eq!(t.status, TaskStatus::Completed);
    assert_eq!(t.completed_at, Some(60));
    assert_eq!(t.title, "y");
    let history = e.get_task_history(&text("t1"));
    assert_eq!(history.len(), 2);
    assert_eq!(history[0].action, HistoryAction::StatusChanged);
    assert_eq!(history[0].field_changed.as_deref(), Some("status"));
    assert_eq!(history[0].old_value.as_deref(), Some("pending"));
    assert_eq!(history[0].new_value.as_deref(), Some("completed"));
}

#[test]
fn update_without_fields_is_a_validation_error_even_for_a_missing_task() {
    let mut e = engine();
    e.create_task_as(text("t1"), text("h1"), &request("x", "2024-03-15"), &text("A"), 1).unwrap();
    assert_eq!(e.update_task_as(text("h2"), &text("t1"), &patch(), &text("A"), 2).err(), Some(EngineError::Validation));
    assert_eq!(e.update_task_as(text("h2"), &text("nope"), &patch(), &text("A"), 2).err(), Some(EngineError::Validation));
    assert_eq!(e.history_count(), 1);
    assert_eq!(e.get_task(&text("t1")).unwrap().updated_at, Some(1));
}

#[test]
fn update_with_an_unknown_enumerated_value_is_a_validation_error() {
    let mut e = engine();
    e.create_task_as(text("t1"), text("h1"), &request("x", "2024-03-15"), &text("A"), 1).unwrap();
    let mut bad_status = patch();
    bad_status.status = Some(text("finished"));
    let mut bad_urgency = patch();
    bad_urgency.urgency = Some(text("extreme"));
    let mut bad_deadline = patch();
    bad_deadline.deadline = Some(text("2024-02-31"));
    let mut bad_title = patch();
    bad_title.title = Some(text(""));
    for p in [&bad_status, &bad_urgency, &bad_deadline, &bad_title] {
        assert_eq!(e.update_task_as(text("h2"), &text("t1"), p, &text("A"), 2).err(), Some(EngineError::Validation));
    }
    let t = e.get_task(&text("t1")).unwrap();
    assert_eq!(t.title, "x");
    assert_eq!(t.updated_at, Some(1));
    assert_eq!(e.history_count(), 1);
}

#[test]
fn update_of_a_missing_task_is_not_found() {
    let mut e = engine();
    let mut p = patch();
    p.title = Some(text("new"));
    assert_eq!(e.update_task_as(text("h1"), &text("nope"), &p, &text("A"), 2).err(), Some(EngineError::NotFound));
    assert_eq!(e.update_task(&text("nope"), &p, &text("A")).err(), Some(EngineError::NotFound));
    assert_eq!(e.history_count(), 0);
}

#[test]
fn update_whose_history_write_fails_keeps_the_new_fields() {
    let mut e = engine();
    e.create_task_as(text("t1"), text("h1"), &request("old", "2024-03-15"), &text("A"), 1).unwrap();
    let mut p = patch();
    p.title = Some(text("new"));
    let r = e.update_task_as(text("h1"), &text("t1"), &p, &text("A"), 2);
    assert_eq!(r.err(), Some(EngineError::Storage { applied: true }));
    let t = e.get_task(&text("t1")).unwrap();
    assert_eq!(t.title, "new");
    assert_eq!(t.updated_at, Some(2));
    assert_eq!(e.history_count(), 1);
}

#[test]
fn completion_timestamp_follows_the_status_through_every_write() {
    let mut e = engine();
    e.create_task_as(text("t1"), text("h0"), &request("x", "2024-03-15"), &text("A"), 1).unwrap();
    let writes = [
        ("in-progress", None),
        ("completed", Some(101)),
        ("completed", Some(101)),
        ("completed", Some(101)),
        ("pending", None),
        ("cancelled", None),
        ("completed", Some(106)),
        ("in-progress", None),
    ];
    for (i, (status, completed_at)) in writes.iter().enumerate() {
        let now = 100 + i as u64;
        let t = e.change_status_as(format!("h{}", i + 1), &text("t1"), &text(status), &text("A"), now).unwrap();
        assert_eq!(t.status.name(), *status);
        assert_eq!(t.completed_at.is_some(), t.status == TaskStatus::Completed);
        assert_eq!(t.completed_at, *completed_at, "write {}", i);
        assert_eq!(t.updated_at, Some(now));
        assert_eq!(e.get_task(&text("t1")).unwrap().completed_at, *completed_at);
        let stored = e.get_task(&text("t1")).unwrap();
        assert_eq!(stored.completed_at.is_some(), stored.status == TaskStatus::Completed);
        assert_eq!(stored.status, t.status);
    }
    assert_eq!(e.get_task_history(&text("t1")).len(), 1 + writes.len());
}

#[test]
fn change_status_of_a_missing_task_is_not_found_before_the_status_is_read() {
    let mut e = engine();
    assert_eq!(e.change_status_as(text("h1"), &text("nope"), &text("completed"), &text("A"), 2).err(), Some(EngineError::NotFound));
    assert_eq!(e.change_status_as(text("h1"), &text("nope"), &text("rubbish"), &text("A"), 2).err(), Some(EngineError::NotFound));
    assert_eq!(e.change_status(&text("nope"), &text("completed"), &text("A")).err(), Some(EngineError::NotFound));
    assert_eq!(e.history_count(), 0);
}

#[test]
fn change_status_to_an_unknown_status_is_a_validation_error() {
    let mut e = engine();
    e.create_task_as(text("t1"), text("h1"), &request("x", "2024-03-15"), &text("A"), 1).unwrap();
    assert_eq!(e.change_status_as(text("h2"), &text("t1"), &text("rubbish"), &text("A"), 2).err(), Some(EngineError::Validation));
    assert_eq!(e.get_task(&text("t1")).unwrap().status, TaskStatus::Pending);
    assert_eq!(e.history_count(), 1);
}

#[test]
fn change_status_whose_history_write_fails_keeps_the_new_status() {
    let mut e = engine();
    e.create_task_as(text("t1"), text("h1"), &request("x", "2024-03-15"), &text("A"), 1).unwrap();
    let r = e.change_status_as(text("h1"), &text("t1"), &text("completed"), &text("A"), 9);
    assert_eq!(r.err(), Some(EngineError::Storage { applied: true }));
    let t = e.get_task(&text("t1")).unwrap();
    assert_eq!(t.status, TaskStatus::Completed);
    assert_eq!(t.completed_at, Some(9));
    assert_eq!(e.history_count(), 1);
}

#[test]
fn change_status_with_random_history_identifier_records_old_and_new() {
    let mut e = engine();
    e.create_task_as(text("t1"), text("h1"), &request("x", "2024-03-15"), &text("A"), 1).unwrap();
    let t = e.change_status(&text("t1"), &text("in-progress"), &text("B")).unwrap();
    assert_eq!(t.status, TaskStatus::InProgress);
    let h = &e.get_task_history(&text("t1"))[0];
    assert_eq!(h.action, HistoryAction::StatusChanged);
    assert_eq!(h.user_id, "B");
    assert_eq!(h.old_value.as_deref(), Some("pending"));
    assert_eq!(h.new_value.as_deref(), Some("in-progress"));
    assert!(h.created_at >= 1_700_000_000);
    assert_eq!(Some(h.created_at), t.updated_at);
}

#[test]
fn strict_policy_refuses_writes_off_the_graph() {
    let mut e = Engine::new(directory(), TransitionPolicy::Strict);
    assert_eq!(e.policy(), TransitionPolicy::Strict);
    e.create_task_as(text("t1"), text("h1"), &request("x", "2024-03-15"), &text("A"), 1).unwrap();
    assert_eq!(e.change_status_as(text("h2"), &text("t1"), &text("completed"), &text("A"), 2).err(), Some(EngineError::Validation));
    assert_eq!(e.change_status_as(text("h2"), &text("t1"), &text("pending"), &text("A"), 2).err(), Some(EngineError::Validation));
    let mut p = patch();
    p.status = Some(text("cancelled"));
    assert_eq!(e.update_task_as(text("h2"), &text("t1"), &p, &text("A"), 2).err(), Some(EngineError::Validation));
    assert_eq!(e.get_task(&text("t1")).unwrap().status, TaskStatus::Pending);
    assert_eq!(e.history_count(), 1);

    e.change_status_as(text("h2"), &text("t1"), &text("in-progress"), &text("A"), 3).unwrap();
    let t = e.update_task_as(text("h3"), &text("t1"), &p, &text("A"), 4).unwrap();
    assert_eq!(t.status, TaskStatus::Cancelled);
    assert_eq!(e.change_status_as(text("h4"), &text("t1"), &text("in-progress"), &text("A"), 5).err(), Some(EngineError::Validation));
    assert_eq!(e.history_count(), 3);
}

#[test]
fn policy_can_be_changed_while_tasks_exist() {
    let mut e = engine();
    e.create_task_as(text("t1"), text("h1"), &request("x", "2024-03-15"), &text("A"), 1).unwrap();
    e.set_policy(TransitionPolicy::Strict);
    assert_eq!(e.change_status_as(text("h2"), &text("t1"), &text("completed"), &text("A"), 2).err(), Some(EngineError::Validation));
    e.set_policy(TransitionPolicy::Permissive);
    assert!(e.change_status_as(text("h2"), &text("t1"), &text("completed"), &text("A"), 2).is_ok());
    assert_eq!(e.task_count(), 1);
}

#[test]
fn delete_takes_the_task_and_its_assignments_and_keeps_the_history() {
    let mut e = engine();
    let mut req = request("x", "2024-03-15");
    req.project_id = Some(text("P"));
    e.create_task_as(text("t1"), text("h1"), &req, &text("A"), 1).unwrap();
    e.create_task_as(text("t2"), text("h2"), &req, &text("A"), 2).unwrap();
    e.change_status_as(text("h3"), &text("t1"), &text("in-progress"), &text("A"), 3).unwrap();
    assert_eq!(e.assignment_count(), 4);

    assert_eq!(e.delete_task_as(text("h4"), &text("t1"), &text("B"), 4), Ok(()));
    assert_eq!(e.get_task(&text("t1")).err(), Some(EngineError::NotFound));
    assert!(e.list_tasks(&GetTasksQuery::all()).iter().all(|l| l.task.id != "t1"));
    assert!(e.assignee_ids(&text("t1")).is_empty());
    assert!(!e.is_assigned(&text("t1"), &text("A")));
    assert_eq!(e.assignment_count(), 2);
    assert_eq!(e.assignee_ids(&text("t2")), vec![text("A"), text("B")]);
    assert!(e.tasks_due_on(&text("A"), TODAY).iter().all(|l| l.task.id != "t1"));

    let history = e.get_task_history(&text("t1"));
    let actions: Vec<HistoryAction> = history.iter().map(|h| h.action).collect();
    assert_eq!(actions, vec![HistoryAction::Deleted, HistoryAction::StatusChanged, HistoryAction::Created]);
    assert_eq!(history[0].id, "h4");
    assert_eq!(history[0].user_id, "B");
    assert_eq!(history[0].created_at, 4);
    assert_eq!(history[0].field_changed, None);
    assert_eq!(e.get_task_history(&text("t2")).len(), 1);
}

#[test]
fn delete_of_a_missing_task_is_not_found_and_still_recorded() {
    let mut e = engine();
    assert_eq!(e.delete_task_as(text("h1"), &text("ghost"), &text("A"), 4), Err(EngineError::NotFound));
    let history = e.get_task_history(&text("ghost"));
    assert_eq!(history.len(), 1);
    assert_eq!(history[0].action, HistoryAction::Deleted);
    assert_eq!(e.delete_task(&text("ghost"), &text("A")), Err(EngineError::NotFound));
    assert_eq!(e.get_task_history(&text("ghost")).len(), 2);
}

#[test]
fn delete_whose_history_write_fails_deletes_nothing() {
    let mut e = engine();
    e.create_task_as(text("t1"), text("h1"), &request("x", "2024-03-15"), &text("A"), 1).unwrap();
    assert_eq!(e.delete_task_as(text("h1"), &text("t1"), &text("A"), 4), Err(EngineError::Storage { applied: false }));
    assert!(e.get_task(&text("t1")).is_ok());
    assert_eq!(e.history_count(), 1);
}

#[test]
fn delete_with_random_history_identifier_succeeds() {
    let mut e = engine();
    e.create_task_as(text("t1"), text("h1"), &request("x", "2024-03-15"), &text("A"), 1).unwrap();
    assert_eq!(e.delete_task(&text("t1"), &text("A")), Ok(()));
    assert_eq!(e.task_count(), 0);
    assert_eq!(e.get_task_history(&text("t1")).len(), 2);
}

#[test]
fn an_identifier_can_be_used_again_after_its_task_is_deleted() {
    let mut e = engine();
    let mut req = request("first", "2024-03-15");
    req.assignee_ids = Some(vec![text("A")]);
    e.create_task_as(text("t1"), text("h1"), &req, &text("A"), 1).unwrap();
    e.delete_task_as(text("h2"), &text("t1"), &text("A"), 2).unwrap();
    let created = e.create_task_as(text("t1"), text("h3"), &request("second", "2024-03-15"), &text("A"), 3).unwrap();
    assert!(created.assignee_ids.is_empty());
    assert_eq!(e.get_task(&text("t1")).unwrap().title, "second");
    assert_eq!(e.get_task_history(&text("t1")).len(), 3);
}

#[test]
fn history_grows_by_one_with_each_change_and_not_with_assignments() {
    let mut e = engine();
    e.create_task_as(text("t1"), text("h1"), &request("x", "2024-03-15"), &text("A"), 1).unwrap();
    assert_eq!(e.get_task_history(&text("t1")).len(), 1);
    let mut p = patch();
    p.title = Some(text("y"));
    e.update_task_as(text("h2"), &text("t1"), &p, &text("A"), 2).unwrap();
    assert_eq!(e.get_task_history(&text("t1")).len(), 2);
    e.add_assignees_at(&text("t1"), &vec![text("B"), text("C")], &text("A"), 3).unwrap();
    e.remove_assignee(&text("t1"), &text("B")).unwrap();
    assert_eq!(e.get_task_history(&text("t1")).len(), 2);
    e.change_status_as(text("h3"), &text("t1"), &text("in-progress"), &text("A"), 4).unwrap();
    assert_eq!(e.get_task_history(&text("t1")).len(), 3);
    e.delete_task_as(text("h4"), &text("t1"), &text("A"), 5).unwrap();
    let history = e.get_task_history(&text("t1"));
    assert_eq!(history.len(), 4);
    let times: Vec<u64> = history.iter().map(|h| h.created_at).collect();
    assert_eq!(times, vec![5, 4, 2, 1]);
}

#[test]
fn set_directory_changes_what_later_creations_cascade() {
    let mut e = engine();
    let mut req = request("x", "2024-03-15");
    req.project_id = Some(text("Q"));
    let first = e.create_task_as(text("t1"), text("h1"), &req, &text("A"), 1).unwrap();
    assert_eq!(first.assignee_ids, vec![text("C")]);
    e.set_directory(Directory::empty());
    let second = e.create_task_as(text("t2"), text("h2"), &req, &text("A"), 2).unwrap();
    assert!(second.assignee_ids.is_empty());
    assert_eq!(e.assignee_ids(&text("t1")), vec![text("C")]);
    assert_eq!(e.task_count(), 2);
}

#[test]
fn plain_operations_stamp_with_the_time_of_the_clock() {
    let mut e = engine();
    let before = collab_core::clock::now_seconds();
    let created = e.create_task(&request("x", "2024-03-15"), &text("A")).unwrap();
    let id = created.task.id.clone();
    assert!(created.task.created_at.unwrap() >= before);
    assert_eq!(created.task.updated_at, created.task.created_at);
    assert_eq!(e.add_assignees(&id, &vec![text("u"), text("v"), text("u")], &text("A")), Ok(2));
    assert_eq!(e.add_assignees(&text("nope"), &vec![text("u")], &text("A")), Err(EngineError::NotFound));
    for row in e.get_task_assignments(&id) {
        assert!(row.assigned_at >= before);
        assert_eq!(row.assigned_by, "A");
    }
    let done = e.change_status(&id, &text("completed"), &text("A")).unwrap();
    assert!(done.completed_at.unwrap() >= before);
    assert_eq!(done.completed_at, done.updated_at);
    let after = collab_core::clock::now_seconds();
    assert!(e.get_task_history(&id).iter().all(|h| before <= h.created_at && h.created_at <= after));
}

#[test]
fn tasks_due_today_are_those_due_on_the_date_of_the_clock() {
    let mut e = engine();
    let today = collab_core::clock::today().unwrap();
    let mut due = request("due", &today.to_text());
    due.assignee_id = Some(text("U"));
    let mut other = request("other", "1999-12-31");
    other.assignee_id = Some(text("U"));
    e.create_task_as(text("due"), text("h1"), &due, &text("A"), 1).unwrap();
    e.create_task_as(text("other"), text("h2"), &other, &text("A"), 2).unwrap();
    let listed: Vec<String> = e.tasks_due_today(&text("U")).into_iter().map(|l| l.task.id).collect();
    assert_eq!(listed, vec![text("due")]);
    assert!(e.tasks_due_today(&text("V")).is_empty());
    let same: Vec<String> = e.tasks_due_on(&text("U"), today).into_iter().map(|l| l.task.id).collect();
    assert_eq!(same, listed);
}

#[test]
fn tasks_due_at_a_reading_are_those_due_on_its_date() {
    let mut e = engine();
    let mut due = request("due", "2024-03-15");
    due.assignee_id = Some(text("U"));
    let mut later = request("later", "2024-03-16");
    later.assignee_id = Some(text("U"));
    e.create_task_as(text("due"), text("h1"), &due, &text("A"), 1).unwrap();
    e.create_task_as(text("later"), text("h2"), &later, &text("A"), 2).unwrap();
    let reading = |year: i32, month: u32, day: u32| ClockReading { seconds: 0, text: String::new(), year, month, day };
    let listed = |r: &ClockReading| e.tasks_due_at(&text("U"), r).into_iter().map(|l| l.task.id).collect::<Vec<_>>();
    assert_eq!(listed(&reading(2024, 3, 15)), vec![text("due")]);
    assert_eq!(listed(&reading(2024, 3, 16)), vec![text("later")]);
    assert!(listed(&reading(2024, 3, 17)).is_empty());
    assert!(listed(&reading(10000, 3, 15)).is_empty());
    assert!(listed(&reading(-2024, 3, 15)).is_empty());
    assert!(listed(&reading(2024, 3 + 256, 15)).is_empty());
    assert!(listed(&reading(2024, 2, 30)).is_empty());
    assert!(e.tasks_due_at(&text("V"), &reading(2024, 3, 15)).is_empty());
}

#[test]
fn writing_completed_again_keeps_the_time_of_completion() {
    let mut e = engine();
    e.create_task_as(text("t1"), text("h0"), &request("x", "2024-03-15"), &text("A"), 1).unwrap();
    let first = e.change_status_as(text("h1"), &text("t1"), &text("completed"), &text("A"), 50).unwrap();
    assert_eq!(first.completed_at, Some(50));
    let again = e.change_status_as(text("h2"), &text("t1"), &text("completed"), &text("B"), 90).unwrap();
    assert_eq!(again.status, TaskStatus::Completed);
    assert_eq!(again.completed_at, Some(50));
    assert_eq!(again.updated_at, Some(90));
    let mut p = patch();
    p.status = Some(text("completed"));
    p.title = Some(text("renamed"));
    let updated = e.update_task_as(text("h3"), &text("t1"), &p, &text("B"), 120).unwrap();
    assert_eq!(updated.completed_at, Some(50));
    assert_eq!(updated.updated_at, Some(120));
    assert_eq!(updated.title, "renamed");
    let history = e.get_task_history(&text("t1"));
    assert_eq!(history.len(), 4);
    assert_eq!(history[0].old_value.as_deref(), Some("completed"));
    assert_eq!(history[0].new_value.as_deref(), Some("completed"));
    let reopened = e.change_status_as(text("h4"), &text("t1"), &text("pending"), &text("B"), 130).unwrap();
    assert_eq!(reopened.completed_at, None);
    let done = e.change_status_as(text("h5"), &text("t1"), &text("completed"), &text("B"), 140).unwrap();
    assert_eq!(done.completed_at, Some(140));
}

#[test]
fn update_of_a_missing_task_is_not_found_whatever_the_request_holds() {
    let mut e = engine();
    e.create_task_as(text("t1"), text("h1"), &request("x", "2024-03-15"), &text("A"), 1).unwrap();
    let mut bad_title = patch();
    bad_title.title = Some(text(""));
    let mut bad_urgency = patch();
    bad_urgency.urgency = Some(text("extreme"));
    let mut bad_status = patch();
    bad_status.status = Some(text("finished"));
    let mut bad_deadline = patch();
    bad_deadline.deadline = Some(text("2024-02-31"));
    let mut good = patch();
    good.department = Some(text("Lab"));
    for p in [&bad_title, &bad_urgency, &bad_status, &bad_deadline, &good] {
        assert!(!p.is_empty());
        assert_eq!(e.update_task_as(text("h2"), &text("nope"), p, &text("A"), 2).err(), Some(EngineError::NotFound));
        assert_eq!(e.update_task(&text("nope"), p, &text("A")).err(), Some(EngineError::NotFound));
    }
    for p in [&bad_title, &bad_urgency, &bad_status, &bad_deadline] {
        assert_eq!(e.update_task_as(text("h2"), &text("t1"), p, &text("A"), 2).err(), Some(EngineError::Validation));
    }
    assert_eq!(e.update_task_as(text("h2"), &text("nope"), &patch(), &text("A"), 2).err(), Some(EngineError::Validation));
    assert_eq!(e.history_count(), 1);
    assert_eq!(e.task_count(), 1);
    assert_eq!(e.get_task(&text("t1")).unwrap().updated_at, Some(1));
}

#[test]
fn under_the_strict_policy_a_missing_task_is_not_found_too() {
    let mut e = Engine::new(directory(), TransitionPolicy::Strict);
    let mut p = patch();
    p.status = Some(text("completed"));
    assert_eq!(e.update_task_as(text("h1"), &text("nope"), &p, &text("A"), 2).err(), Some(EngineError::NotFound));
    assert_eq!(e.change_status_as(text("h1"), &text("nope"), &text("completed"), &text("A"), 2).err(), Some(EngineError::NotFound));
}
