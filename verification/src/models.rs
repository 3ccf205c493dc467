//! The records of the backend, and the envelopes in which answers travel.

pub mod auth;
pub mod equipment;
pub mod events;
pub mod glossary;
pub mod locations;
pub mod notifications;
pub mod projects;
pub mod quick_links;
pub mod sessions;
pub mod tasks;
pub mod tracking;
pub mod users;

use vstd::prelude::*;

verus! {

/// The envelope of an answer: whether the request succeeded, with the data
/// where it did and a message where it did not.
#[derive(Debug)]
pub struct ApiResponse<T> {
    pub success: bool,
    pub data: Option<T>,
    pub message: Option<String>,
}

impl<T> ApiResponse<T> {
    /// The envelope of a success: the data and no message.
    pub fn success(data: T) -> (r: Self)
        ensures
            r.success,
            r.data == Some(data),
            r.message.is_none(),
    {
        ApiResponse { success: true, data: Some(data), message: None }
    }

    /// The envelope of a failure: the message and no data.
    pub fn error(message: String) -> (r: ApiResponse<()>)
        ensures
            !r.success,
            r.data.is_none(),
            r.message == Some(message),
    {
        ApiResponse { success: false, data: None, message: Some(message) }
    }
}

/// A request to write the status of a booking.
#[derive(Debug)]
pub struct UpdateBookingStatusRequest {
    pub status: String,
}

/// A request to say where a person is and what they are doing.
#[derive(Debug)]
pub struct UpdatePersonnelStatusRequest {
    pub status: String,
    pub location: Option<String>,
    pub notes: Option<String>,
}

/// A request to add a glossary term, with categories and related terms by
/// number.
#[derive(Debug)]
pub struct CreateGlossaryTermRequest {
    pub term: String,
    pub abbreviation: Option<String>,
    pub definition: String,
    pub category_id: Option<i64>,
    pub examples: Option<Vec<String>>,
    pub related_terms: Option<Vec<i64>>,
}

/// The fields of a glossary term that a client asks to change, with
/// categories and related terms by number.
#[derive(Debug)]
pub struct UpdateGlossaryTermRequest {
    pub term: Option<String>,
    pub abbreviation: Option<String>,
    pub definition: Option<String>,
    pub category_id: Option<i64>,
    pub examples: Option<Vec<String>>,
    pub related_terms: Option<Vec<i64>>,
}

/// A search of the glossary by free text.
#[derive(Debug)]
pub struct SearchGlossaryRequest {
    pub query: String,
}

/// One page of a longer listing, with the size of the whole.
#[derive(Debug)]
pub struct PaginatedResponse<T> {
    pub items: Vec<T>,
    pub total: i64,
    pub page: i64,
    pub per_page: i64,
}

} // verus!
