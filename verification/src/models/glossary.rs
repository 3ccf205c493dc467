//! The glossary: categories, terms and their history.

use vstd::prelude::*;
use crate::ids::fresh_id;
use crate::models::users::UserSummary;

verus! {

/// A category of glossary terms.
#[derive(Debug)]
pub struct GlossaryCategory {
    pub id: String,
    pub name: String,
    pub description: Option<String>,
    pub department: Option<String>,
    pub display_order: i32,
    pub created_at: Option<String>,
    pub updated_at: Option<String>,
}

/// A category as clients see it, with the number of its terms.
#[derive(Debug)]
pub struct GlossaryCategoryResponse {
    pub id: String,
    pub name: String,
    pub description: Option<String>,
    pub department: Option<String>,
    pub display_order: i32,
    pub term_count: Option<i32>,
}

/// A glossary term with its definition.
#[derive(Debug)]
pub struct GlossaryTerm {
    pub id: String,
    pub term: String,
    pub definition: String,
    pub category_id: Option<String>,
    pub department: String,
    pub related_terms: Option<String>,
    pub examples: Option<String>,
    pub is_approved: bool,
    pub created_by: String,
    pub created_at: Option<String>,
    pub updated_at: Option<String>,
}

/// A glossary term as clients see it.
#[derive(Debug)]
pub struct GlossaryTermResponse {
    pub id: String,
    pub term: String,
    pub definition: String,
    pub category: Option<GlossaryCategorySimple>,
    pub department: String,
    pub related_terms: Option<Vec<String>>,
    pub examples: Option<Vec<String>>,
    pub is_approved: bool,
    pub created_by: Option<UserSummary>,
    pub created_at: Option<String>,
}

/// The name of a category, as a term carries it.
#[derive(Debug)]
pub struct GlossaryCategorySimple {
    pub id: String,
    pub name: String,
}

/// A term found by a search, with how well it matched.
#[derive(Debug)]
pub struct GlossarySearchResult {
    pub id: String,
    pub term: String,
    pub definition: String,
    pub category_id: Option<String>,
    pub category_name: Option<String>,
    pub department: String,
}

/// One change made to a glossary term.
#[derive(Debug)]
pub struct GlossaryHistory {
    pub id: String,
    pub term_id: String,
    pub action: String,
    pub changed_by: String,
    pub changes: Option<String>,
    pub created_at: Option<String>,
}

/// A request to add a glossary term.
#[derive(Debug)]
pub struct CreateTermRequest {
    pub term: String,
    pub definition: String,
    pub category_id: Option<String>,
    pub department: Option<String>,
    pub related_terms: Option<Vec<String>>,
    pub examples: Option<Vec<String>>,
}

/// The fields of a term that a client asks to change.
#[derive(Debug)]
pub struct UpdateTermRequest {
    pub term: Option<String>,
    pub definition: Option<String>,
    pub category_id: Option<String>,
    pub department: Option<String>,
    pub related_terms: Option<Vec<String>>,
    pub examples: Option<Vec<String>>,
}

/// What a listing of terms is narrowed to.
#[derive(Debug)]
pub struct GetTermsQuery {
    pub category_id: Option<String>,
    pub department: Option<String>,
    pub approved_only: Option<bool>,
}

/// A search of the glossary.
#[derive(Debug)]
pub struct SearchQuery {
    pub q: Option<String>,
    pub department: Option<String>,
    pub limit: Option<i32>,
}

impl GlossaryTerm {
    /// A term that is not yet approved, under a new random identifier.
    pub fn new(term: String, definition: String, category_id: Option<String>, department: String, created_by: String) -> (r: GlossaryTerm)
        ensures
            r.id@.len() == 36,
            r.term == term,
            r.definition == definition,
            r.category_id == category_id,
            r.department == department,
            r.related_terms.is_none(),
            r.examples.is_none(),
            !r.is_approved,
            r.created_by == created_by,
            r.created_at.is_none(),
            r.updated_at.is_none(),
    {
        GlossaryTerm {
            id: fresh_id(),
            term,
            definition,
            category_id,
            department,
            related_terms: None,
            examples: None,
            is_approved: false,
            created_by,
            created_at: None,
            updated_at: None,
        }
    }
}

} // verus!
