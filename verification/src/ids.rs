//! Fresh identifiers for tasks and history entries.

use vstd::prelude::*;

verus! {

/// A new random identifier in hyphenated lower-case form.
///
/// Calls `uuid::Uuid::new_v4` and formats the result with `to_string`. Trusted:
/// the text has the 36 characters of the hyphenated form. Nothing is claimed
/// about which identifier comes back: two calls may in principle return the
/// same one, and the engine treats that case as a refused write. Where the
/// operating system cannot supply random bytes, `new_v4` panics.
#[verifier::external_body]
pub(crate) fn fresh_id() -> (id: String)
    ensures
        id@.len() == 36,
{
    uuid::Uuid::new_v4().to_string()
}

} // verus!
