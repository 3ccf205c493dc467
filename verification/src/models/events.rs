//! Calendar events and who attends them.

use vstd::prelude::*;
use crate::ids::fresh_id;
use crate::models::users::UserSummary;

verus! {

/// A calendar event.
#[derive(Debug)]
pub struct Event {
    pub id: String,
    pub title: String,
    pub description: Option<String>,
    pub event_type: String,
    pub event_date: String,
    pub start_time: String,
    pub end_time: Option<String>,
    pub location: Option<String>,
    pub meeting_url: Option<String>,
    pub created_by: String,
    pub department: Option<String>,
    pub is_recurring: bool,
    pub recurrence_rule: Option<String>,
    pub parent_event_id: Option<String>,
    pub created_at: Option<String>,
    pub updated_at: Option<String>,
}

/// A calendar event as clients see it.
#[derive(Debug)]
pub struct EventResponse {
    pub id: String,
    pub title: String,
    pub description: Option<String>,
    pub event_type: String,
    pub event_date: String,
    pub start_time: String,
    pub end_time: Option<String>,
    pub location: Option<String>,
    pub meeting_url: Option<String>,
    pub department: Option<String>,
    pub created_by: Option<UserSummary>,
    pub attendees: Option<Vec<AttendeeResponse>>,
    pub created_at: Option<String>,
    pub updated_at: Option<String>,
}

/// One user invited to one event, with the answer given.
#[derive(Debug)]
pub struct EventAttendee {
    pub id: String,
    pub event_id: String,
    pub user_id: String,
    pub status: String,
    pub added_at: Option<String>,
}

/// An attendee as clients see it.
#[derive(Debug)]
pub struct AttendeeResponse {
    pub id: String,
    pub first_name: String,
    pub last_name: String,
    pub email: Option<String>,
    pub department: Option<String>,
    pub status: String,
    pub added_at: Option<String>,
}

/// A request to create a calendar event.
#[derive(Debug)]
pub struct CreateEventRequest {
    pub title: String,
    pub description: Option<String>,
    pub event_type: String,
    pub event_date: String,
    pub start_time: String,
    pub end_time: Option<String>,
    pub location: Option<String>,
    pub meeting_url: Option<String>,
    pub department: Option<String>,
    pub attendee_ids: Option<Vec<String>>,
    pub is_recurring: Option<bool>,
    pub recurrence_rule: Option<String>,
}

/// The fields of an event that a client asks to change.
#[derive(Debug)]
pub struct UpdateEventRequest {
    pub title: Option<String>,
    pub description: Option<String>,
    pub event_type: Option<String>,
    pub event_date: Option<String>,
    pub start_time: Option<String>,
    pub end_time: Option<String>,
    pub location: Option<String>,
    pub meeting_url: Option<String>,
    pub department: Option<String>,
}

/// What a listing of events is narrowed to.
#[derive(Debug)]
pub struct GetEventsQuery {
    pub start_date: String,
    pub end_date: String,
    pub department: Option<String>,
    pub user_id: Option<String>,
}

impl Event {
    /// An event that repeats no other, under a new random identifier.
    pub fn new(title: String, description: Option<String>, event_type: String, event_date: String, start_time: String, end_time: Option<String>, location: Option<String>, meeting_url: Option<String>, created_by: String, department: Option<String>, is_recurring: bool, recurrence_rule: Option<String>) -> (r: Event)
        ensures
            r.id@.len() == 36,
            r.title == title,
            r.description == description,
            r.event_type == event_type,
            r.event_date == event_date,
            r.start_time == start_time,
            r.end_time == end_time,
            r.location == location,
            r.meeting_url == meeting_url,
            r.created_by == created_by,
            r.department == department,
            r.is_recurring == is_recurring,
            r.recurrence_rule == recurrence_rule,
            r.parent_event_id.is_none(),
            r.created_at.is_none(),
            r.updated_at.is_none(),
    {
        Event {
            id: fresh_id(),
            title,
            description,
            event_type,
            event_date,
            start_time,
            end_time,
            location,
            meeting_url,
            created_by,
            department,
            is_recurring,
            recurrence_rule,
            parent_event_id: None,
            created_at: None,
            updated_at: None,
        }
    }
}

} // verus!
