//! Quick links and the links that users have pinned.

use vstd::prelude::*;
use crate::ids::fresh_id;
use crate::models::users::UserSummary;

verus! {

/// A link that the dashboard offers.
#[derive(Debug)]
pub struct QuickLink {
    pub id: String,
    pub title: String,
    pub url: String,
    pub description: Option<String>,
    pub category: Option<String>,
    pub department: Option<String>,
    pub icon: Option<String>,
    pub display_order: i32,
    pub created_by: String,
    pub created_at: Option<String>,
    pub updated_at: Option<String>,
}

/// A link that a user has pinned.
#[derive(Debug)]
pub struct UserQuickLink {
    pub user_id: String,
    pub link_id: String,
    pub display_order: i32,
    pub created_at: Option<String>,
}

/// A link as clients see it.
#[derive(Debug)]
pub struct QuickLinkResponse {
    pub id: String,
    pub title: String,
    pub url: String,
    pub description: Option<String>,
    pub category: Option<String>,
    pub department: Option<String>,
    pub icon: Option<String>,
    pub display_order: i32,
    pub created_by: Option<UserSummary>,
    pub is_pinned: Option<bool>,
    pub created_at: Option<String>,
}

/// A request to add a link.
#[derive(Debug)]
pub struct CreateQuickLinkRequest {
    pub title: String,
    pub url: String,
    pub description: Option<String>,
    pub category: Option<String>,
    pub department: Option<String>,
    pub icon: Option<String>,
    pub display_order: Option<i32>,
}

/// The fields of a link that a client asks to change.
#[derive(Debug)]
pub struct UpdateQuickLinkRequest {
    pub title: Option<String>,
    pub url: Option<String>,
    pub description: Option<String>,
    pub category: Option<String>,
    pub department: Option<String>,
    pub icon: Option<String>,
    pub display_order: Option<i32>,
}

/// What a listing of links is narrowed to.
#[derive(Debug)]
pub struct GetQuickLinksQuery {
    pub category: Option<String>,
    pub department: Option<String>,
    pub search: Option<String>,
}

impl QuickLink {
    /// A link without icon, first in display order, under a new random identifier.
    pub fn new(title: String, url: String, description: Option<String>, category: Option<String>, created_by: String, department: Option<String>) -> (r: QuickLink)
        ensures
            r.id@.len() == 36,
            r.title == title,
            r.url == url,
            r.description == description,
            r.category == category,
            r.department == department,
            r.icon.is_none(),
            r.display_order == 0,
            r.created_by == created_by,
            r.created_at.is_none(),
            r.updated_at.is_none(),
    {
        QuickLink {
            id: fresh_id(),
            title,
            url,
            description,
            category,
            department,
            icon: None,
            display_order: 0,
            created_by,
            created_at: None,
            updated_at: None,
        }
    }
}

} // verus!
