//! Presence: where users have checked in.

use vstd::prelude::*;
use crate::clock::now_text;
use crate::ids::fresh_id;
use crate::models::users::UserSummary;

verus! {

/// One stay of a user at a location.
#[derive(Debug)]
pub struct CheckInRecord {
    pub id: String,
    pub user_id: String,
    pub location: String,
    pub check_in_time: String,
    pub check_out_time: Option<String>,
    pub notes: Option<String>,
    pub created_at: Option<String>,
    pub updated_at: Option<String>,
}

/// Where a user is now.
#[derive(Debug)]
pub struct UserLocation {
    pub user_id: String,
    pub current_location: Option<String>,
    pub check_in_time: Option<String>,
    pub is_checked_in: bool,
    pub updated_at: Option<String>,
}

/// A stay as clients see it.
#[derive(Debug)]
pub struct CheckInResponse {
    pub id: String,
    pub user_id: String,
    pub location: String,
    pub check_in_time: String,
    pub check_out_time: Option<String>,
    pub notes: Option<String>,
    pub duration: Option<String>,
}

/// A stay that has not ended, as clients see it.
#[derive(Debug)]
pub struct ActiveCheckInResponse {
    pub user: UserSummary,
    pub location: String,
    pub check_in_time: String,
    pub duration: Option<String>,
}

/// A location found by a search.
#[derive(Debug)]
pub struct LocationSearchResult {
    pub user: UserSummary,
    pub current_location: Option<String>,
    pub check_in_time: Option<String>,
    pub is_checked_in: bool,
}

/// A request to check in at a location.
#[derive(Debug)]
pub struct CheckInRequest {
    pub location: String,
    pub notes: Option<String>,
}

/// A request to end a stay.
#[derive(Debug)]
pub struct CheckOutRequest {
    pub location: Option<String>,
}

/// What a listing of current locations is narrowed to.
#[derive(Debug)]
pub struct GetLocationsQuery {
    pub department: Option<String>,
    pub location: Option<String>,
    pub search: Option<String>,
}

/// What a listing of past stays is narrowed to.
#[derive(Debug)]
pub struct LocationHistoryQuery {
    pub start_date: Option<String>,
    pub end_date: Option<String>,
    pub location: Option<String>,
    pub limit: Option<i32>,
}

/// What a listing of a user's own past stays is narrowed to.
#[derive(Debug)]
pub struct GetLocationHistoryQuery {
    pub user_id: Option<String>,
    pub start_date: Option<String>,
    pub end_date: Option<String>,
    pub limit: Option<i32>,
}

/// What a listing of who is where is narrowed to.
#[derive(Debug)]
pub struct GetCurrentLocationsQuery {
    pub department: Option<String>,
}

/// A search of locations.
#[derive(Debug)]
pub struct SearchLocationsQuery {
    pub query: String,
    pub date: Option<String>,
}

impl CheckInRecord {
    /// A stay that began at `check_in_time` and has not ended, under a new random identifier.
    pub fn started_at(user_id: String, location: String, check_in_time: String, notes: Option<String>) -> (r: CheckInRecord)
        ensures
            r.id@.len() == 36,
            r.user_id == user_id,
            r.location == location,
            r.check_in_time == check_in_time,
            r.check_out_time.is_none(),
            r.notes == notes,
            r.created_at.is_none(),
            r.updated_at.is_none(),
    {
        CheckInRecord {
            id: fresh_id(),
            user_id,
            location,
            check_in_time,
            check_out_time: None,
            notes,
            created_at: None,
            updated_at: None,
        }
    }
}

impl CheckInRecord {
    /// A stay that begins now and has not ended, under a new random
    /// identifier. The time of the check-in is read from the clock; nothing
    /// is known of it here, and `started_at` says the rest.
    pub fn new(user_id: String, location: String, notes: Option<String>) -> (r: CheckInRecord)
        ensures
            r.id@.len() == 36,
            r.user_id == user_id,
            r.location == location,
            r.check_out_time.is_none(),
            r.notes == notes,
            r.created_at.is_none(),
            r.updated_at.is_none(),
    {
        CheckInRecord::started_at(user_id, location, now_text(), notes)
    }
}

} // verus!
