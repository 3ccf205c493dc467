//! Login sessions.

use vstd::prelude::*;

verus! {

/// A login session and the token that stands for it.
#[derive(Debug)]
pub struct Session {
    pub id: String,
    pub user_id: String,
    pub token: String,
    pub expires_at: String,
    pub created_at: Option<String>,
    pub ip_address: Option<String>,
    pub user_agent: Option<String>,
}

} // verus!
