//! Projects and their members.

use vstd::prelude::*;

verus! {

/// A project that tasks can belong to.
#[derive(Debug)]
pub struct Project {
    pub id: String,
    pub name: String,
    pub description: Option<String>,
    pub status: String,
    pub created_by: String,
    pub created_at: String,
    pub updated_at: String,
}

/// One user's membership of one project.
#[derive(Debug)]
pub struct ProjectMember {
    pub id: String,
    pub project_id: String,
    pub user_id: String,
    pub role: String,
    pub added_at: String,
}

/// A request to create a project.
#[derive(Debug)]
pub struct CreateProjectRequest {
    pub name: String,
    pub description: Option<String>,
    pub status: Option<String>,
    pub member_ids: Option<Vec<String>>,
}

/// The fields of a project that a client asks to change.
#[derive(Debug)]
pub struct UpdateProjectRequest {
    pub name: Option<String>,
    pub description: Option<String>,
    pub status: Option<String>,
}

/// A request to add a user to a project.
#[derive(Debug)]
pub struct AddMemberRequest {
    pub user_id: String,
    pub role: Option<String>,
}

/// What a listing of projects is narrowed to.
#[derive(Debug)]
pub struct GetProjectsQuery {
    pub status: Option<String>,
    pub search: Option<String>,
}

} // verus!
