//! How a relational backend's answer to a statement becomes a store outcome.
//! The backend's own uniqueness constraint decides duplicates; every other
//! engine failure becomes a `QueryError` that carries the engine's message.
use vstd::prelude::*;
use crate::error::DatabaseError;
use crate::store::is_duplicate_id;

verus! {

/// What a backend reported for one statement.
#[derive(Debug, Clone, PartialEq, Eq)]
pub enum StatementOutcome {
    /// The statement ran and changed this many rows.
    Applied(u64),
    /// The statement broke a uniqueness constraint; the engine's message.
    UniqueViolation(String),
    /// Any other engine failure; the engine's message.
    Failed(String),
}

/// The outcome of inserting the record `id`.
pub fn insert_outcome(id: &str, o: StatementOutcome) -> (r: Result<(), DatabaseError>)
    ensures
        match o {
            StatementOutcome::Applied(_) => r is Ok,
            StatementOutcome::UniqueViolation(_) => r is Err && is_duplicate_id(r->Err_0, id@),
            StatementOutcome::Failed(m) => r == Err::<(), DatabaseError>(DatabaseError::QueryError(m)),
        },
{
    match o {
        StatementOutcome::Applied(_) => Ok(()),
        StatementOutcome::UniqueViolation(_) => Err(DatabaseError::DuplicateId(id.to_owned())),
        StatementOutcome::Failed(m) => Err(DatabaseError::QueryError(m)),
    }
}

/// The outcome of updating or deleting the record `id`: no row changed means
/// there was no such record.
pub fn change_outcome(o: StatementOutcome) -> (r: Result<(), DatabaseError>)
    ensures
        match o {
            StatementOutcome::Applied(n) => if n == 0 {
                r == Err::<(), DatabaseError>(DatabaseError::NotFound)
            } else {
                r is Ok
            },
            StatementOutcome::UniqueViolation(m) => r == Err::<(), DatabaseError>(DatabaseError::QueryError(m)),
            StatementOutcome::Failed(m) => r == Err::<(), DatabaseError>(DatabaseError::QueryError(m)),
        },
{
    match o {
        StatementOutcome::Applied(n) => if n == 0 {
            Err(DatabaseError::NotFound)
        } else {
            Ok(())
        },
        StatementOutcome::UniqueViolation(m) => Err(DatabaseError::QueryError(m)),
        StatementOutcome::Failed(m) => Err(DatabaseError::QueryError(m)),
    }
}

/// The outcome of an insert of the record `id` that is guarded by the
/// existence of its parent record, in one statement: no row inserted means
/// there was no such parent.
pub fn guarded_insert_outcome(id: &str, o: StatementOutcome) -> (r: Result<(), DatabaseError>)
    ensures
        match o {
            StatementOutcome::Applied(n) => if n == 0 {
                r == Err::<(), DatabaseError>(DatabaseError::NotFound)
            } else {
                r is Ok
            },
            StatementOutcome::UniqueViolation(_) => r is Err && is_duplicate_id(r->Err_0, id@),
            StatementOutcome::Failed(m) => r == Err::<(), DatabaseError>(DatabaseError::QueryError(m)),
        },
{
    match o {
        StatementOutcome::Applied(n) => if n == 0 {
            Err(DatabaseError::NotFound)
        } else {
            Ok(())
        },
        other => insert_outcome(id, other),
    }
}

} // verus!
