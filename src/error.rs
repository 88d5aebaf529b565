//! The kinds of failure that store operations report.
use vstd::prelude::*;

verus! {

/// Failures of store operations. Callers depend on the kind, not on message text.
#[derive(Debug, Clone, PartialEq, Eq)]
pub enum DatabaseError {
    /// A record with this identifier already exists.
    DuplicateId(String),
    /// The record (usually a question) does not exist.
    NotFound,
    /// The identifier is malformed (empty).
    UnprocessableId(String),
    /// The identifier of a request and that of its payload disagree.
    MismatchedIds(String, String),
    /// A storage backend failed; the message describes the cause.
    QueryError(String),
}

} // verus!
