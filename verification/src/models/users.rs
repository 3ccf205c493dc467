//! Users, and what is said of them to clients.

use vstd::prelude::*;
use crate::ids::fresh_id;

verus! {

/// A user of the backend.
#[derive(Debug)]
pub struct User {
    pub id: String,
    pub email: String,
    pub password_hash: String,
    pub first_name: String,
    pub last_name: String,
    pub department: String,
    pub role: String,
    pub is_active: bool,
    pub created_at: Option<String>,
    pub updated_at: Option<String>,
    pub last_login: Option<String>,
}

/// A user as clients see them: everything but the password hash.
#[derive(Debug)]
pub struct UserResponse {
    pub id: String,
    pub email: String,
    pub first_name: String,
    pub last_name: String,
    pub department: String,
    pub role: String,
    pub is_active: bool,
    pub last_login: Option<String>,
    pub created_at: Option<String>,
}

/// The little of a user that other records show: identifier and name.
#[derive(Debug)]
pub struct UserSummary {
    pub id: String,
    pub first_name: String,
    pub last_name: String,
}

/// A request to log in.
#[derive(Debug)]
pub struct LoginRequest {
    pub email: String,
    pub password: String,
}

/// The answer to a successful login.
#[derive(Debug)]
pub struct LoginResponse {
    pub success: bool,
    pub data: LoginData,
}

/// The user who logged in, with the token and its expiry.
#[derive(Debug)]
pub struct LoginData {
    pub user: UserResponse,
    pub token: String,
    pub expires_at: String,
}

/// A request to create a user.
#[derive(Debug)]
pub struct CreateUserRequest {
    pub email: String,
    pub password: String,
    pub first_name: String,
    pub last_name: String,
    pub department: String,
    pub role: String,
}

/// The fields of a user that a client asks to change.
#[derive(Debug)]
pub struct UpdateUserRequest {
    pub first_name: Option<String>,
    pub last_name: Option<String>,
    pub department: Option<String>,
    pub role: Option<String>,
    pub is_active: Option<bool>,
}

impl User {
    /// An active user who has never logged in, under a new random identifier.
    pub fn new(email: String, password_hash: String, first_name: String, last_name: String, department: String, role: String) -> (r: User)
        ensures
            r.id@.len() == 36,
            r.email == email,
            r.password_hash == password_hash,
            r.first_name == first_name,
            r.last_name == last_name,
            r.department == department,
            r.role == role,
            r.is_active,
            r.created_at.is_none(),
            r.updated_at.is_none(),
            r.last_login.is_none(),
    {
        User {
            id: fresh_id(),
            email,
            password_hash,
            first_name,
            last_name,
            department,
            role,
            is_active: true,
            created_at: None,
            updated_at: None,
            last_login: None,
        }
    }
}

impl From<User> for UserResponse {
    /// What clients see of a user.
    fn from(user: User) -> (r: UserResponse) {
        UserResponse {
            id: user.id,
            email: user.email,
            first_name: user.first_name,
            last_name: user.last_name,
            department: user.department,
            role: user.role,
            is_active: user.is_active,
            last_login: user.last_login,
            created_at: user.created_at,
        }
    }
}

impl vstd::std_specs::convert::FromSpecImpl<User> for UserResponse {
    open spec fn obeys_from_spec() -> bool {
        true
    }

    open spec fn from_spec(user: User) -> UserResponse {
        UserResponse {
            id: user.id,
            email: user.email,
            first_name: user.first_name,
            last_name: user.last_name,
            department: user.department,
            role: user.role,
            is_active: user.is_active,
            last_login: user.last_login,
            created_at: user.created_at,
        }
    }
}

} // verus!
