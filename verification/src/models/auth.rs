//! Registration, and what a session token claims.

use vstd::prelude::*;

verus! {

/// A request to register a user.
#[derive(Debug)]
pub struct RegisterRequest {
    pub email: String,
    pub password: String,
    pub first_name: String,
    pub last_name: String,
    pub department: String,
}

/// What a token claims: the user it stands for, when it expires (seconds
/// since the epoch) and the role of the user.
#[derive(Debug)]
pub struct Claims {
    pub sub: String,
    pub exp: usize,
    pub role: String,
}

} // verus!
