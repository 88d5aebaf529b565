use question_store::backend::{change_outcome, guarded_insert_outcome, insert_outcome, StatementOutcome};
use question_store::error::DatabaseError;

#[test]
fn insert_applied_is_ok() {
    assert_eq!(insert_outcome("q", StatementOutcome::Applied(1)), Ok(()));
}

#[test]
fn insert_unique_violation_is_duplicate() {
    let o = StatementOutcome::UniqueViolation("duplicate key".to_string());
    assert_eq!(insert_outcome("q7", o), Err(DatabaseError::DuplicateId("q7".to_string())));
}

#[test]
fn insert_failure_is_query_error() {
    let o = StatementOutcome::Failed("connection reset".to_string());
    assert_eq!(insert_outcome("q", o), Err(DatabaseError::QueryError("connection reset".to_string())));
}

#[test]
fn change_of_no_row_is_not_found() {
    assert_eq!(change_outcome(StatementOutcome::Applied(0)), Err(DatabaseError::NotFound));
    assert_eq!(change_outcome(StatementOutcome::Applied(1)), Ok(()));
}

#[test]
fn change_failures_are_query_errors() {
    let o = StatementOutcome::UniqueViolation("u".to_string());
    assert_eq!(change_outcome(o), Err(DatabaseError::QueryError("u".to_string())));
    let o = StatementOutcome::Failed("f".to_string());
    assert_eq!(change_outcome(o), Err(DatabaseError::QueryError("f".to_string())));
}

#[test]
fn guarded_insert_of_no_row_is_not_found() {
    assert_eq!(guarded_insert_outcome("a", StatementOutcome::Applied(0)), Err(DatabaseError::NotFound));
    assert_eq!(guarded_insert_outcome("a", StatementOutcome::Applied(1)), Ok(()));
    let o = StatementOutcome::UniqueViolation("u".to_string());
    assert_eq!(guarded_insert_outcome("a", o), Err(DatabaseError::DuplicateId("a".to_string())));
    let o = StatementOutcome::Failed("f".to_string());
    assert_eq!(guarded_insert_outcome("a", o), Err(DatabaseError::QueryError("f".to_string())));
}
