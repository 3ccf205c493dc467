//! Which users follow the presence of which others.

use vstd::prelude::*;
use crate::ids::fresh_id;

verus! {

/// One user following the presence of another.
#[derive(Debug)]
pub struct UserTracking {
    pub id: String,
    pub tracker_user_id: String,
    pub tracked_user_id: String,
    pub created_at: Option<String>,
}

/// A followed user as clients see them.
#[derive(Debug)]
pub struct UserTrackingResponse {
    pub id: String,
    pub tracked_user_id: String,
    pub tracked_user_name: String,
    pub tracked_user_email: String,
    pub tracked_user_department: String,
    pub created_at: Option<String>,
}

/// A follower as clients see them.
#[derive(Debug)]
pub struct TrackerResponse {
    pub id: String,
    pub tracker_user_id: String,
    pub tracker_user_name: String,
    pub tracker_user_email: String,
    pub created_at: Option<String>,
}

/// A request to follow a user.
#[derive(Debug)]
pub struct TrackUserRequest {
    pub user_id: String,
}

/// A request to stop following a user.
#[derive(Debug)]
pub struct UntrackUserRequest {
    pub user_id: String,
}

impl UserTracking {
    /// One user following another, under a new random identifier.
    pub fn new(tracker_user_id: String, tracked_user_id: String) -> (r: UserTracking)
        ensures
            r.id@.len() == 36,
            r.tracker_user_id == tracker_user_id,
            r.tracked_user_id == tracked_user_id,
            r.created_at.is_none(),
    {
        UserTracking {
            id: fresh_id(),
            tracker_user_id,
            tracked_user_id,
            created_at: None,
        }
    }
}

} // verus!
