use collab_core::clock::{date_of, now_text, seconds_of, ClockReading};
use collab_core::date::Date;
use collab_core::models::auth::{Claims, RegisterRequest};
use collab_core::models::equipment::{Booking, Equipment};
use collab_core::models::events::Event;
use collab_core::models::glossary::GlossaryTerm;
use collab_core::models::locations::CheckInRecord;
use collab_core::models::notifications::Notification;
use collab_core::models::quick_links::QuickLink;
use collab_core::models::tracking::UserTracking;
use collab_core::models::users::{User, UserResponse};
use collab_core::models::{PaginatedResponse, SearchGlossaryRequest, UpdateBookingStatusRequest};

fn text(s: &str) -> String {
    s.to_string()
}

fn looks_like_an_identifier(id: &str) -> bool {
    let bytes = id.as_bytes();
    id.len() == 36 && [8, 13, 18, 23].iter().all(|&i| bytes[i] == b'-')
}

#[test]
fn new_equipment_is_available() {
    let e = Equipment::new(text("Scope"), text("Lab"), text("Room 2"), Some(text("SN-1")));
    assert!(looks_like_an_identifier(&e.id));
    assert_eq!(e.name, "Scope");
    assert_eq!(e.category, "Lab");
    assert_eq!(e.location, "Room 2");
    assert_eq!(e.status, "available");
    assert_eq!(e.serial_number.as_deref(), Some("SN-1"));
    assert_eq!(e.purchase_date, None);
    assert_eq!(e.last_maintenance, None);
    assert_eq!(e.notes, None);
    assert_eq!(e.created_at, None);
    assert_eq!(e.updated_at, None);
    assert_ne!(e.id, Equipment::new(text("Scope"), text("Lab"), text("Room 2"), None).id);
}

#[test]
fn new_booking_is_active() {
    let b = Booking::new(text("e"), text("u"), text("IT"), text("2024-01-01"), text("2024-01-02"), text("test"));
    assert!(looks_like_an_identifier(&b.id));
    assert_eq!(b.equipment_id, "e");
    assert_eq!(b.user_id, "u");
    assert_eq!(b.department, "IT");
    assert_eq!(b.start_date, "2024-01-01");
    assert_eq!(b.end_date, "2024-01-02");
    assert_eq!(b.purpose, "test");
    assert_eq!(b.status, "active");
    assert_eq!(b.created_at, None);
    assert_eq!(b.updated_at, None);
    assert_eq!(b.cancelled_at, None);
}

#[test]
fn new_event_repeats_no_other() {
    let e = Event::new(
        text("Standup"),
        Some(text("daily")),
        text("meeting"),
        text("2024-03-15"),
        text("09:00"),
        Some(text("09:15")),
        Some(text("Room 1")),
        Some(text("https://meet.example")),
        text("u"),
        Some(text("IT")),
        true,
        Some(text("FREQ=DAILY")),
    );
    assert!(looks_like_an_identifier(&e.id));
    assert_eq!(e.title, "Standup");
    assert_eq!(e.description.as_deref(), Some("daily"));
    assert_eq!(e.event_type, "meeting");
    assert_eq!(e.event_date, "2024-03-15");
    assert_eq!(e.start_time, "09:00");
    assert_eq!(e.end_time.as_deref(), Some("09:15"));
    assert_eq!(e.location.as_deref(), Some("Room 1"));
    assert_eq!(e.meeting_url.as_deref(), Some("https://meet.example"));
    assert_eq!(e.created_by, "u");
    assert_eq!(e.department.as_deref(), Some("IT"));
    assert!(e.is_recurring);
    assert_eq!(e.recurrence_rule.as_deref(), Some("FREQ=DAILY"));
    assert_eq!(e.parent_event_id, None);
    assert_eq!(e.created_at, None);
    assert_eq!(e.updated_at, None);
}

#[test]
fn new_glossary_term_is_not_approved() {
    let t = GlossaryTerm::new(text("VLAN"), text("virtual LAN"), Some(text("c")), text("IT"), text("u"));
    assert!(looks_like_an_identifier(&t.id));
    assert_eq!(t.term, "VLAN");
    assert_eq!(t.definition, "virtual LAN");
    assert_eq!(t.category_id.as_deref(), Some("c"));
    assert_eq!(t.department, "IT");
    assert_eq!(t.created_by, "u");
    assert!(!t.is_approved);
    assert_eq!(t.related_terms, None);
    assert_eq!(t.examples, None);
    assert_eq!(t.created_at, None);
    assert_eq!(t.updated_at, None);
}

#[test]
fn new_check_in_has_not_ended() {
    let r = CheckInRecord::started_at(text("u"), text("Lab"), text("2024-03-15T09:00:00+00:00"), Some(text("n")));
    assert!(looks_like_an_identifier(&r.id));
    assert_eq!(r.user_id, "u");
    assert_eq!(r.location, "Lab");
    assert_eq!(r.check_in_time, "2024-03-15T09:00:00+00:00");
    assert_eq!(r.check_out_time, None);
    assert_eq!(r.notes.as_deref(), Some("n"));
    assert_eq!(r.created_at, None);
    assert_eq!(r.updated_at, None);
}

#[test]
fn new_notification_is_unread() {
    let n = Notification::new(text("u"), text("task"), text("Title"), text("Body"), Some(text("task")), Some(text("t1")));
    assert!(looks_like_an_identifier(&n.id));
    assert_eq!(n.user_id, "u");
    assert_eq!(n.notification_type, "task");
    assert_eq!(n.title, "Title");
    assert_eq!(n.message, "Body");
    assert_eq!(n.related_entity_type.as_deref(), Some("task"));
    assert_eq!(n.related_entity_id.as_deref(), Some("t1"));
    assert!(!n.is_read);
    assert_eq!(n.created_at, None);
}

#[test]
fn new_quick_link_comes_first_and_has_no_icon() {
    let l = QuickLink::new(text("Wiki"), text("https://wiki.example"), None, Some(text("docs")), text("u"), Some(text("IT")));
    assert!(looks_like_an_identifier(&l.id));
    assert_eq!(l.title, "Wiki");
    assert_eq!(l.url, "https://wiki.example");
    assert_eq!(l.description, None);
    assert_eq!(l.category.as_deref(), Some("docs"));
    assert_eq!(l.department.as_deref(), Some("IT"));
    assert_eq!(l.icon, None);
    assert_eq!(l.display_order, 0);
    assert_eq!(l.created_by, "u");
    assert_eq!(l.created_at, None);
    assert_eq!(l.updated_at, None);
}

#[test]
fn new_tracking_names_both_users() {
    let t = UserTracking::new(text("watcher"), text("watched"));
    assert!(looks_like_an_identifier(&t.id));
    assert_eq!(t.tracker_user_id, "watcher");
    assert_eq!(t.tracked_user_id, "watched");
    assert_eq!(t.created_at, None);
}

#[test]
fn new_user_is_active_and_has_never_logged_in() {
    let u = User::new(text("a@example.org"), text("hash"), text("Ada"), text("L"), text("IT"), text("member"));
    assert!(looks_like_an_identifier(&u.id));
    assert_eq!(u.email, "a@example.org");
    assert_eq!(u.password_hash, "hash");
    assert_eq!(u.first_name, "Ada");
    assert_eq!(u.last_name, "L");
    assert_eq!(u.department, "IT");
    assert_eq!(u.role, "member");
    assert!(u.is_active);
    assert_eq!(u.created_at, None);
    assert_eq!(u.updated_at, None);
    assert_eq!(u.last_login, None);
}

#[test]
fn user_response_shows_everything_but_the_password_hash() {
    let mut u = User::new(text("a@example.org"), text("hash"), text("Ada"), text("L"), text("IT"), text("member"));
    u.last_login = Some(text("2024-03-15 09:00:00"));
    u.created_at = Some(text("2024-01-01 00:00:00"));
    u.is_active = false;
    let id = u.id.clone();
    let r = UserResponse::from(u);
    assert_eq!(r.id, id);
    assert_eq!(r.email, "a@example.org");
    assert_eq!(r.first_name, "Ada");
    assert_eq!(r.last_name, "L");
    assert_eq!(r.department, "IT");
    assert_eq!(r.role, "member");
    assert!(!r.is_active);
    assert_eq!(r.last_login.as_deref(), Some("2024-03-15 09:00:00"));
    assert_eq!(r.created_at.as_deref(), Some("2024-01-01 00:00:00"));
}

#[test]
fn plain_records_hold_what_they_are_given() {
    let page = PaginatedResponse { items: vec![1u8, 2, 3], total: 30, page: 2, per_page: 3 };
    assert_eq!((page.items.len(), page.total, page.page, page.per_page), (3, 30, 2, 3));
    assert_eq!(SearchGlossaryRequest { query: text("vlan") }.query, "vlan");
    assert_eq!(UpdateBookingStatusRequest { status: text("cancelled") }.status, "cancelled");
    let claims = Claims { sub: text("u"), exp: 1_700_000_000, role: text("Admin") };
    assert_eq!((claims.sub.as_str(), claims.exp, claims.role.as_str()), ("u", 1_700_000_000, "Admin"));
    let reg = RegisterRequest {
        email: text("a@example.org"),
        password: text("pw"),
        first_name: text("Ada"),
        last_name: text("L"),
        department: text("IT"),
    };
    assert_eq!(reg.email, "a@example.org");
}

#[test]
fn new_check_in_begins_now() {
    let r = CheckInRecord::new(text("u"), text("Lab"), None);
    assert!(looks_like_an_identifier(&r.id));
    assert_eq!(r.user_id, "u");
    assert_eq!(r.location, "Lab");
    assert_eq!(r.check_out_time, None);
    assert_eq!(r.notes, None);
    assert_eq!(r.created_at, None);
    assert_eq!(r.updated_at, None);
    let bytes = r.check_in_time.as_bytes();
    assert!(bytes.len() >= 20, "{}", r.check_in_time);
    assert_eq!((bytes[4], bytes[7], bytes[10], bytes[13], bytes[16]), (b'-', b'-', b'T', b':', b':'));
    assert!(r.check_in_time.ends_with("+00:00"), "{}", r.check_in_time);
    assert!(&r.check_in_time[0..4] >= "2024", "{}", r.check_in_time);
}

#[test]
fn the_clock_counts_seconds_since_the_epoch() {
    let first = collab_core::clock::now_seconds();
    let second = collab_core::clock::now_seconds();
    assert!(first >= 1_700_000_000);
    assert!(second >= first);
    assert!(second - first < 60);
}

#[test]
fn the_clock_names_a_day_that_exists() {
    let today = collab_core::clock::today().unwrap();
    assert!(today.is_valid());
    assert!(today.year >= 2024);
    let again = collab_core::clock::today().unwrap();
    assert!(again.key() >= today.key());
}

#[test]
fn numbers_of_the_clock_are_read_as_a_date() {
    assert_eq!(date_of(2024, 2, 29), Some(Date { year: 2024, month: 2, day: 29 }));
    assert_eq!(date_of(0, 1, 1), Some(Date { year: 0, month: 1, day: 1 }));
    assert_eq!(date_of(9999, 12, 31), Some(Date { year: 9999, month: 12, day: 31 }));
    assert_eq!(date_of(-1, 12, 31), None);
    assert_eq!(date_of(10000, 1, 1), None);
    assert_eq!(date_of(2023, 2, 29), None);
    assert_eq!(date_of(2024, 13, 1), None);
    assert_eq!(date_of(2024, 256 + 3, 15), None);
    assert_eq!(date_of(2024, 3, 256 + 15), None);
    assert_eq!(date_of(2024, 0, 0), None);
    assert_eq!(date_of(i32::MIN, u32::MAX, u32::MAX), None);
}

#[test]
fn a_reading_before_the_epoch_counts_as_zero() {
    let reading = |seconds: i64| ClockReading { seconds, text: String::new(), year: 1970, month: 1, day: 1 };
    assert_eq!(seconds_of(&reading(-1)), 0);
    assert_eq!(seconds_of(&reading(i64::MIN)), 0);
    assert_eq!(seconds_of(&reading(0)), 0);
    assert_eq!(seconds_of(&reading(1)), 1);
    assert_eq!(seconds_of(&reading(1_700_000_000)), 1_700_000_000);
    assert_eq!(seconds_of(&reading(i64::MAX)), i64::MAX as u64);
}

#[test]
fn the_clock_writes_the_time_after_rfc_3339() {
    let text = now_text();
    let bytes = text.as_bytes();
    assert!(bytes.len() >= 20, "{}", text);
    assert_eq!((bytes[4], bytes[7], bytes[10], bytes[13], bytes[16]), (b'-', b'-', b'T', b':', b':'));
    assert!(text.ends_with("+00:00"), "{}", text);
}

#[test]
fn a_reading_names_its_date() {
    let reading = |year: i32, month: u32, day: u32| ClockReading { seconds: 5, text: String::new(), year, month, day };
    assert_eq!(reading(2024, 2, 29).date(), Some(Date { year: 2024, month: 2, day: 29 }));
    assert_eq!(reading(1970, 1, 1).date(), Some(Date { year: 1970, month: 1, day: 1 }));
    assert_eq!(reading(2023, 2, 29).date(), None);
    assert_eq!(reading(10000, 1, 1).date(), None);
    assert_eq!(reading(-1, 1, 1).date(), None);
    assert_eq!(reading(2024, 0, 1).date(), None);
    assert_eq!(reading(2024, 1, 256 + 1).date(), None);
}
