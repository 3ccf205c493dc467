use collab_core::assignees::AssigneeRegistry;
use collab_core::directory::{Directory, DirectoryUser};
use collab_core::engine::Engine;
use collab_core::error::EngineError;
use collab_core::models::projects::{Project, ProjectMember};
use collab_core::models::tasks::CreateTaskRequest;
use collab_core::models::users::UserSummary;
use collab_core::status::TransitionPolicy;
use collab_core::store::TaskStore;

fn text(s: &str) -> String {
    s.to_string()
}

fn texts(items: &[&str]) -> Vec<String> {
    items.iter().map(|s| s.to_string()).collect()
}

fn directory() -> Directory {
    let member = |p: &str, u: &str| ProjectMember {
        id: format!("{}:{}", p, u),
        project_id: text(p),
        user_id: text(u),
        role: text("member"),
        added_at: text("2024-01-01"),
    };
    let user = |id: &str, first: &str| DirectoryUser {
        summary: UserSummary { id: text(id), first_name: text(first), last_name: text("Doe") },
        email: format!("{}@example.org", first.to_lowercase()),
    };
    Directory::new(
        vec![user("A", "Ann"), user("B", "Ben")],
        vec![Project {
            id: text("P"),
            name: text("Platform"),
            description: None,
            status: text("active"),
            created_by: text("A"),
            created_at: text("2024-01-01"),
            updated_at: text("2024-01-01"),
        }],
        vec![member("P", "A"), member("P", "B"), member("P", "ghost"), member("Q", "C"), member("P", "A")],
    )
}

fn request(project: Option<&str>, assignees: Option<&[&str]>) -> CreateTaskRequest {
    CreateTaskRequest {
        title: text("task"),
        description: None,
        urgency: text("medium"),
        department: text("IT"),
        project_id: project.map(text),
        assignee_id: None,
        assignee_ids: assignees.map(texts),
        deadline: text("2024-03-15"),
        is_completed: None,
    }
}

fn engine_with_task(id: &str) -> Engine {
    let mut e = Engine::new(directory(), TransitionPolicy::Permissive);
    e.create_task_as(text(id), format!("h-{}", id), &request(None, None), &text("creator"), 1).unwrap();
    e
}

#[test]
fn adding_the_same_assignee_twice_leaves_one_row() {
    let mut e = engine_with_task("t1");
    assert_eq!(e.add_assignees_at(&text("t1"), &texts(&["u"]), &text("A"), 10), Ok(1));
    assert_eq!(e.add_assignees_at(&text("t1"), &texts(&["u"]), &text("B"), 20), Ok(0));
    assert_eq!(e.assignment_count(), 1);
    assert_eq!(e.assignee_ids(&text("t1")), texts(&["u"]));
    let rows = e.get_task_assignments(&text("t1"));
    assert_eq!(rows.len(), 1);
    assert_eq!(rows[0].assigned_by, "A");
    assert_eq!(rows[0].assigned_at, 10);
}

#[test]
fn added_count_leaves_out_repeats_within_one_call() {
    let mut e = engine_with_task("t1");
    assert_eq!(e.add_assignees_at(&text("t1"), &texts(&["u", "v", "u", "w", "v"]), &text("A"), 10), Ok(3));
    assert_eq!(e.assignee_ids(&text("t1")), texts(&["u", "v", "w"]));
    assert_eq!(e.add_assignees_at(&text("t1"), &texts(&["w", "x"]), &text("A"), 11), Ok(1));
    assert_eq!(e.add_assignees_at(&text("t1"), &Vec::new(), &text("A"), 12), Ok(0));
    assert_eq!(e.assignee_ids(&text("t1")), texts(&["u", "v", "w", "x"]));
}

#[test]
fn adding_assignees_to_a_missing_task_is_not_found() {
    let mut e = engine_with_task("t1");
    assert_eq!(e.add_assignees_at(&text("nope"), &texts(&["u"]), &text("A"), 10), Err(EngineError::NotFound));
    assert_eq!(e.add_assignees_at(&text("nope"), &Vec::new(), &text("A"), 10), Err(EngineError::NotFound));
    assert_eq!(e.assignment_count(), 0);
}

#[test]
fn users_that_the_directory_does_not_know_can_be_assigned() {
    let mut e = engine_with_task("t1");
    assert_eq!(e.add_assignees_at(&text("t1"), &texts(&["nobody"]), &text("A"), 10), Ok(1));
    assert!(e.is_assigned(&text("t1"), &text("nobody")));
}

#[test]
fn the_same_user_can_be_assigned_to_several_tasks() {
    let mut e = engine_with_task("t1");
    e.create_task_as(text("t2"), text("h-t2"), &request(None, None), &text("creator"), 2).unwrap();
    assert_eq!(e.add_assignees_at(&text("t1"), &texts(&["u"]), &text("A"), 10), Ok(1));
    assert_eq!(e.add_assignees_at(&text("t2"), &texts(&["u", "v"]), &text("A"), 11), Ok(2));
    assert_eq!(e.assigned_task_ids(&text("u")), texts(&["t1", "t2"]));
    assert_eq!(e.assigned_task_ids(&text("v")), texts(&["t2"]));
    assert!(e.assigned_task_ids(&text("w")).is_empty());
}

#[test]
fn removing_an_assignee_ends_that_assignment_only() {
    let mut e = engine_with_task("t1");
    e.create_task_as(text("t2"), text("h-t2"), &request(None, None), &text("creator"), 2).unwrap();
    e.add_assignees_at(&text("t1"), &texts(&["u", "v", "w"]), &text("A"), 10).unwrap();
    e.add_assignees_at(&text("t2"), &texts(&["v"]), &text("A"), 10).unwrap();
    assert_eq!(e.remove_assignee(&text("t1"), &text("v")), Ok(()));
    assert_eq!(e.assignee_ids(&text("t1")), texts(&["u", "w"]));
    assert_eq!(e.assignee_ids(&text("t2")), texts(&["v"]));
    assert!(!e.is_assigned(&text("t1"), &text("v")));
    assert!(e.is_assigned(&text("t2"), &text("v")));
}

#[test]
fn removing_an_assignment_that_does_not_exist_is_not_found() {
    let mut e = engine_with_task("t1");
    e.add_assignees_at(&text("t1"), &texts(&["u"]), &text("A"), 10).unwrap();
    assert_eq!(e.remove_assignee(&text("t1"), &text("v")), Err(EngineError::NotFound));
    assert_eq!(e.remove_assignee(&text("t2"), &text("u")), Err(EngineError::NotFound));
    assert_eq!(e.remove_assignee(&text("t1"), &text("u")), Ok(()));
    assert_eq!(e.remove_assignee(&text("t1"), &text("u")), Err(EngineError::NotFound));
    assert_eq!(e.assignment_count(), 0);
}

#[test]
fn a_removed_assignee_can_be_added_again() {
    let mut e = engine_with_task("t1");
    e.add_assignees_at(&text("t1"), &texts(&["u", "v"]), &text("A"), 10).unwrap();
    e.remove_assignee(&text("t1"), &text("u")).unwrap();
    assert_eq!(e.add_assignees_at(&text("t1"), &texts(&["u"]), &text("B"), 30), Ok(1));
    assert_eq!(e.assignee_ids(&text("t1")), texts(&["v", "u"]));
}

#[test]
fn create_under_a_project_assigns_every_member_and_nobody_else() {
    let mut e = Engine::new(directory(), TransitionPolicy::Permissive);
    let created = e.create_task_as(text("t1"), text("h1"), &request(Some("P"), None), &text("creator"), 5).unwrap();
    assert_eq!(created.assignee_ids, texts(&["A", "B", "ghost", "A"]));
    assert_eq!(e.assignee_ids(&text("t1")), texts(&["A", "B", "ghost"]));
    assert_eq!(e.assignment_count(), 3);
    assert!(!e.is_assigned(&text("t1"), &text("C")));
    assert!(!e.is_assigned(&text("t1"), &text("creator")));
    for row in e.get_task_assignments(&text("t1")) {
        assert_eq!(row.assigned_by, "system");
        assert_eq!(row.assigned_at, 5);
        assert_eq!(row.task_id, "t1");
    }
}

#[test]
fn an_empty_list_of_assignees_counts_as_none_and_cascades() {
    let mut e = Engine::new(directory(), TransitionPolicy::Permissive);
    let created = e.create_task_as(text("t1"), text("h1"), &request(Some("P"), Some(&[])), &text("creator"), 5).unwrap();
    assert_eq!(created.assignee_ids, texts(&["A", "B", "ghost", "A"]));
    assert_eq!(e.assignee_ids(&text("t1")), texts(&["A", "B", "ghost"]));
}

#[test]
fn explicit_assignees_win_over_the_project() {
    let mut e = Engine::new(directory(), TransitionPolicy::Permissive);
    let created = e
        .create_task_as(text("t1"), text("h1"), &request(Some("P"), Some(&["C", "C", "A"])), &text("creator"), 5)
        .unwrap();
    assert_eq!(created.assignee_ids, texts(&["C", "C", "A"]));
    assert_eq!(e.assignee_ids(&text("t1")), texts(&["C", "A"]));
    assert_eq!(e.assignment_count(), 2);
    assert!(!e.is_assigned(&text("t1"), &text("B")));
    for row in e.get_task_assignments(&text("t1")) {
        assert_eq!(row.assigned_by, "creator");
    }
}

#[test]
fn create_without_project_or_assignees_assigns_nobody() {
    let mut e = Engine::new(directory(), TransitionPolicy::Permissive);
    let created = e.create_task_as(text("t1"), text("h1"), &request(None, None), &text("creator"), 5).unwrap();
    assert!(created.assignee_ids.is_empty());
    assert_eq!(e.assignment_count(), 0);
}

#[test]
fn create_under_an_unknown_project_assigns_nobody() {
    let mut e = Engine::new(directory(), TransitionPolicy::Permissive);
    let created = e.create_task_as(text("t1"), text("h1"), &request(Some("Z"), None), &text("creator"), 5).unwrap();
    assert!(created.assignee_ids.is_empty());
    assert_eq!(e.get_task(&text("t1")).unwrap().project_id.as_deref(), Some("Z"));
}

#[test]
fn assignments_are_listed_by_time_of_assignment() {
    let mut e = engine_with_task("t1");
    e.add_assignees_at(&text("t1"), &texts(&["late"]), &text("A"), 30).unwrap();
    e.add_assignees_at(&text("t1"), &texts(&["early", "early2"]), &text("A"), 10).unwrap();
    e.add_assignees_at(&text("t1"), &texts(&["middle"]), &text("A"), 20).unwrap();
    e.add_assignees_at(&text("t1"), &texts(&["late2"]), &text("A"), 30).unwrap();
    let users: Vec<String> = e.get_task_assignments(&text("t1")).into_iter().map(|r| r.user_id).collect();
    assert_eq!(users, texts(&["early", "early2", "middle", "late", "late2"]));
    assert_eq!(e.assignee_ids(&text("t1")), texts(&["late", "early", "early2", "middle", "late2"]));
    assert!(e.get_task_assignments(&text("other")).is_empty());
}

#[test]
fn assignee_details_show_the_users_that_the_directory_knows() {
    let mut e = engine_with_task("t1");
    e.add_assignees_at(&text("t1"), &texts(&["B"]), &text("A"), 30).unwrap();
    e.add_assignees_at(&text("t1"), &texts(&["stranger"]), &text("A"), 20).unwrap();
    e.add_assignees_at(&text("t1"), &texts(&["A"]), &text("A"), 10).unwrap();
    let details = e.get_task_assignees(&text("t1"));
    let shown: Vec<(&str, &str, &str, u64)> = details
        .iter()
        .map(|d| (d.user.id.as_str(), d.user.first_name.as_str(), d.email.as_str(), d.assigned_at))
        .collect();
    assert_eq!(shown, vec![("A", "Ann", "ann@example.org", 10), ("B", "Ben", "ben@example.org", 30)]);
}

#[test]
fn registry_refuses_assignment_to_a_task_that_the_store_lacks() {
    let mut store = TaskStore::new();
    let mut registry = AssigneeRegistry::new();
    assert_eq!(registry.assign(&store, &text("t1"), &text("u"), &text("A"), 1), Err(EngineError::NotFound));
    assert_eq!(registry.len(), 0);
    store.create(text("t1"), &request(None, None), &text("A"), 1).unwrap();
    assert_eq!(registry.assign(&store, &text("t1"), &text("u"), &text("A"), 2), Ok(true));
    assert_eq!(registry.assign(&store, &text("t1"), &text("u"), &text("B"), 3), Ok(false));
    assert_eq!(registry.len(), 1);
    assert!(registry.is_assigned(&text("t1"), &text("u")));
    assert_eq!(registry.list_for_user(&text("u")), texts(&["t1"]));
}

#[test]
fn registry_removes_all_rows_of_a_task_at_once() {
    let mut store = TaskStore::new();
    store.create(text("t1"), &request(None, None), &text("A"), 1).unwrap();
    store.create(text("t2"), &request(None, None), &text("A"), 1).unwrap();
    let mut registry = AssigneeRegistry::new();
    assert_eq!(registry.assign_all(&store, &text("t1"), &texts(&["a", "b"]), &text("x"), 1), Ok(2));
    assert_eq!(registry.assign_all(&store, &text("t2"), &texts(&["a"]), &text("x"), 1), Ok(1));
    assert_eq!(registry.assign_all(&store, &text("t1"), &texts(&["c", "a"]), &text("x"), 2), Ok(1));
    assert_eq!(registry.assign_all(&store, &text("t3"), &texts(&["a"]), &text("x"), 2), Err(EngineError::NotFound));
    assert_eq!(registry.remove_task(&text("t1")), 3);
    assert_eq!(registry.len(), 1);
    assert_eq!(registry.users_of(&text("t2")), texts(&["a"]));
    assert_eq!(registry.remove_task(&text("t1")), 0);
    assert_eq!(registry.unassign(&text("t2"), &text("a")), Ok(()));
    assert_eq!(registry.unassign(&text("t2"), &text("a")), Err(EngineError::NotFound));
}

#[test]
fn store_delete_takes_the_assignments_with_the_task() {
    let mut store = TaskStore::new();
    store.create(text("t1"), &request(None, None), &text("A"), 1).unwrap();
    store.create(text("t2"), &request(None, None), &text("A"), 1).unwrap();
    let mut registry = AssigneeRegistry::new();
    registry.assign_all(&store, &text("t1"), &texts(&["a", "b"]), &text("x"), 1).unwrap();
    registry.assign_all(&store, &text("t2"), &texts(&["a"]), &text("x"), 1).unwrap();
    assert_eq!(store.delete(&text("t3"), &mut registry), Err(EngineError::NotFound));
    assert_eq!((store.len(), registry.len()), (2, 3));
    assert_eq!(store.delete(&text("t1"), &mut registry), Ok(()));
    assert_eq!((store.len(), registry.len()), (1, 1));
    assert!(!store.contains(&text("t1")));
    assert!(registry.users_of(&text("t1")).is_empty());
    assert_eq!(registry.users_of(&text("t2")), texts(&["a"]));
    assert_eq!(store.delete(&text("t1"), &mut registry), Err(EngineError::NotFound));
}

#[test]
fn registry_cascade_assigns_the_members_in_the_name_of_the_system() {
    let mut store = TaskStore::new();
    let mut registry = AssigneeRegistry::new();
    let d = directory();
    assert_eq!(registry.cascade_from_project(&store, &d, &text("t1"), &text("P"), 5), Err(EngineError::NotFound));
    store.create(text("t1"), &request(None, None), &text("A"), 1).unwrap();
    registry.assign(&store, &text("t1"), &text("B"), &text("A"), 2).unwrap();
    assert_eq!(registry.cascade_from_project(&store, &d, &text("t1"), &text("P"), 5), Ok(2));
    assert_eq!(registry.users_of(&text("t1")), texts(&["B", "A", "ghost"]));
    let by: Vec<String> = registry.all().into_iter().map(|r| r.assigned_by).collect();
    assert_eq!(by, texts(&["A", "system", "system"]));
    assert_eq!(registry.cascade_from_project(&store, &d, &text("t1"), &text("P"), 6), Ok(0));
    assert_eq!(registry.cascade_from_project(&store, &d, &text("t1"), &text("unknown"), 6), Ok(0));
    assert_eq!(registry.len(), 3);
}

#[test]
fn creation_answers_with_the_list_as_named_and_assigns_each_user_once() {
    let mut e = Engine::new(directory(), TransitionPolicy::Permissive);
    let created = e
        .create_task_as(text("t1"), text("h1"), &request(None, Some(&["u", "u"])), &text("creator"), 5)
        .unwrap();
    assert_eq!(created.assignee_ids, texts(&["u", "u"]));
    assert_eq!(e.assignee_ids(&text("t1")), texts(&["u"]));
    assert_eq!(e.get_task_assignments(&text("t1")).len(), 1);
    let created = e
        .create_task_as(text("t2"), text("h2"), &request(Some("P"), Some(&["x", "A", "x", "y", "A"])), &text("creator"), 6)
        .unwrap();
    assert_eq!(created.assignee_ids, texts(&["x", "A", "x", "y", "A"]));
    assert_eq!(e.assignee_ids(&text("t2")), texts(&["x", "A", "y"]));
    assert!(!e.is_assigned(&text("t2"), &text("B")));
    let created = e.create_task(&request(None, Some(&["v", "w", "v"])), &text("creator")).unwrap();
    assert_eq!(created.assignee_ids, texts(&["v", "w", "v"]));
    assert_eq!(e.assignee_ids(&created.task.id), texts(&["v", "w"]));
}
