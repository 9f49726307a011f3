use vstd::prelude::*;

verus! {

/// The ways an operation of the service can fail.
#[derive(Clone, Copy, Debug, PartialEq, Eq, Structural)]
pub enum ErrorKind {
    /// Missing configuration, unreachable store or failed seeding: fatal at startup.
    StartupFailure,
    /// A priority reference that names no priority level.
    ConstraintViolation,
    /// The operation names an item identifier that does not exist.
    NotFound,
    /// The store failed to run a statement or to hand back its result.
    TransientStoreError,
}

/// HTTP status that each kind of failure is reported with.
pub open spec fn status_of(kind: ErrorKind) -> int {
    match kind {
        ErrorKind::NotFound => 404,
        _ => 500,
    }
}

impl ErrorKind {
    /// The single table from failure kind to HTTP status code.
    pub fn status_code(&self) -> (r: u16)
        ensures
            r as int == status_of(*self),
    {
        match self {
            ErrorKind::NotFound => 404,
            _ => 500,
        }
    }
}

/// Reads the count of rows a write statement touched: none means the
/// identifier it targeted does not exist.
pub fn affected_outcome(rows_affected: u64) -> (r: Result<(), ErrorKind>)
    ensures
        rows_affected > 0 <==> r is Ok,
        rows_affected == 0 <==> r == Err::<(), ErrorKind>(ErrorKind::NotFound),
{
    if rows_affected > 0 {
        Ok(())
    } else {
        Err(ErrorKind::NotFound)
    }
}

} // verus!
