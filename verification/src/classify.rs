//! Mapping a failed database call onto the error taxonomy.
//!
//! The connection layer reports a failure either as a server-side error
//! number or as a transport-level failure with no number. The decision of
//! which `EngineError` each outcome becomes is made here; the unverified
//! glue only extracts the number and hands it in.

use vstd::prelude::*;

use crate::error::EngineError;

verus! {

/// ArangoDB's error number for a violated unique constraint: an insert
/// hit a document that already carries the same key.
pub const UNIQUE_CONSTRAINT_VIOLATED: u16 = 1210;

/// ArangoDB's error number for a missing document: an update named a key
/// under which nothing is stored.
pub const DOCUMENT_NOT_FOUND: u16 = 1202;

/// The error kind a failed call surfaces as, given the server's error
/// number, or `None` for a failure below the query layer.
pub open spec fn spec_classify_failure(error_num: Option<u16>) -> EngineError {
    match error_num {
        None => EngineError::ConnectionError,
        Some(n) => if n == UNIQUE_CONSTRAINT_VIOLATED {
            EngineError::DuplicateKeyError
        } else if n == DOCUMENT_NOT_FOUND {
            EngineError::NotFoundError
        } else {
            EngineError::QueryError
        },
    }
}

/// Classify a failed call: a transport failure (no server error number)
/// is a `ConnectionError`; a key conflict is a `DuplicateKeyError`; a
/// missing update target is a `NotFoundError`; every other server-side
/// failure is a `QueryError`.
pub fn classify_failure(error_num: Option<u16>) -> (r: EngineError)
    ensures
        r == spec_classify_failure(error_num),
{
    match error_num {
        None => EngineError::ConnectionError,
        Some(n) => {
            if n == UNIQUE_CONSTRAINT_VIOLATED {
                EngineError::DuplicateKeyError
            } else if n == DOCUMENT_NOT_FOUND {
                EngineError::NotFoundError
            } else {
                EngineError::QueryError
            }
        },
    }
}

} // verus!
