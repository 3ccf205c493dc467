//! The failures an engine operation can report.

use vstd::prelude::*;

verus! {

/// Why an operation did not complete.
///
/// `Validation` is the caller's fault (a missing field, an unknown enumerated
/// value, a malformed date) and is never worth retrying. `NotFound` says that
/// the task or assignment addressed does not exist. `Storage` says that a
/// collection refused a write; the engine never retries it, and never undoes
/// what the operation had done before: `applied` says whether the operation
/// had already changed something when the write was refused.
#[derive(Clone, Copy, Debug, PartialEq, Eq, Structural)]
pub enum EngineError {
    Validation,
    NotFound,
    Storage { applied: bool },
}

impl EngineError {
    /// The HTTP status a transport layer answers with.
    pub open spec fn spec_status_code(self) -> u16 {
        match self {
            EngineError::Validation => 400,
            EngineError::NotFound => 404,
            EngineError::Storage { .. } => 500,
        }
    }

    /// The HTTP status a transport layer answers with: 400 for a validation
    /// error, 404 for a missing task or assignment, 500 for a storage failure.
    pub fn status_code(self) -> (code: u16)
        ensures
            code == self.spec_status_code(),
    {
        match self {
            EngineError::Validation => 400,
            EngineError::NotFound => 404,
            EngineError::Storage { .. } => 500,
        }
    }
}

} // verus!
