//! The error taxonomy of the access layer.
//!
//! Every operation surfaces exactly one of these kinds to the caller;
//! nothing is retried internally and no error is fatal to the process.

use vstd::prelude::*;

verus! {

/// The failure kinds an operation of this layer can report.
#[derive(Clone, Copy, Debug, PartialEq, Eq, Structural)]
pub enum EngineError {
    /// The connection to the database failed at the transport level.
    ConnectionError,
    /// A query could not be issued or failed while executing.
    QueryError,
    /// An insert hit a document that already carries the same key.
    DuplicateKeyError,
    /// An update named a key for which no document exists.
    NotFoundError,
    /// A stub operation was invoked.
    Unimplemented,
}

} // verus!
