//! Notifications and the preferences that govern them.

use vstd::prelude::*;
use crate::ids::fresh_id;

verus! {

/// A message to a user about something that happened.
#[derive(Debug)]
pub struct Notification {
    pub id: String,
    pub user_id: String,
    pub notification_type: String,
    pub title: String,
    pub message: String,
    pub related_entity_type: Option<String>,
    pub related_entity_id: Option<String>,
    pub is_read: bool,
    pub created_at: Option<String>,
}

/// A notification as clients see it.
#[derive(Debug)]
pub struct NotificationResponse {
    pub id: String,
    pub notification_type: String,
    pub title: String,
    pub message: String,
    pub related_entity_type: Option<String>,
    pub related_entity_id: Option<String>,
    pub is_read: bool,
    pub created_at: Option<String>,
}

/// Whether a user wants a kind of notification, and by which way.
#[derive(Debug)]
pub struct NotificationPreference {
    pub id: String,
    pub user_id: String,
    pub notification_type: String,
    pub email_enabled: bool,
    pub push_enabled: bool,
    pub in_app_enabled: bool,
    pub created_at: Option<String>,
    pub updated_at: Option<String>,
}

/// A preference as clients see it.
#[derive(Debug)]
pub struct NotificationPreferenceResponse {
    pub notification_type: String,
    pub email_enabled: bool,
    pub push_enabled: bool,
    pub in_app_enabled: bool,
}

/// How many notifications a user has, read and unread.
#[derive(Debug)]
pub struct NotificationStats {
    pub total: i64,
    pub unread: i64,
    pub read: i64,
}

/// What a listing of notifications is narrowed to.
#[derive(Debug)]
pub struct GetNotificationsQuery {
    pub unread_only: Option<bool>,
    pub notification_type: Option<String>,
    pub limit: Option<i32>,
}

/// A request to change notification preferences.
#[derive(Debug)]
pub struct UpdatePreferencesRequest {
    pub preferences: Vec<PreferenceUpdate>,
}

/// The new setting of one preference.
#[derive(Debug)]
pub struct PreferenceUpdate {
    pub notification_type: String,
    pub email_enabled: bool,
    pub push_enabled: bool,
    pub in_app_enabled: bool,
}

impl Notification {
    /// An unread notification under a new random identifier.
    pub fn new(user_id: String, notification_type: String, title: String, message: String, related_entity_type: Option<String>, related_entity_id: Option<String>) -> (r: Notification)
        ensures
            r.id@.len() == 36,
            r.user_id == user_id,
            r.notification_type == notification_type,
            r.title == title,
            r.message == message,
            r.related_entity_type == related_entity_type,
            r.related_entity_id == related_entity_id,
            !r.is_read,
            r.created_at.is_none(),
    {
        Notification {
            id: fresh_id(),
            user_id,
            notification_type,
            title,
            message,
            related_entity_type,
            related_entity_id,
            is_read: false,
            created_at: None,
        }
    }
}

} // verus!
