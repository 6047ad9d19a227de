use vstd::prelude::*;
use crate::error::{ADBError, ADBResult};

verus! {

/// The error reported when the deadline of `timeout_ms` elapses first.
pub open spec fn is_timeout_error(e: ADBError, timeout_ms: u64) -> bool {
    match e {
        ADBError::TimeoutError { message, duration } => duration == timeout_ms && message@
            == "operation timed out"@,
        _ => false,
    }
}

/// Settles a race between an operation and its deadline. `finished` holds the
/// operation's result when it completed first, and is `None` when the deadline
/// elapsed first; the operation is then abandoned, not stopped.
pub fn resolve_timeout<T>(timeout_ms: u64, finished: Option<ADBResult<T>>) -> (r: ADBResult<T>)
    ensures
        finished is Some ==> r == finished->0,
        finished is None ==> r is Err && is_timeout_error(r->Err_0, timeout_ms),
{
    match finished {
        Some(result) => result,
        None => Err(
            ADBError::TimeoutError {
                message: String::from_str("operation timed out"),
                duration: timeout_ms,
            },
        ),
    }
}

} // verus!
