//! The spawn bridge: what the caller of a spawn gets back once the
//! executor has accepted or refused the task.
//!
//! Handing a task to an executor, and building the handle that observes
//! it, is the work of whoever owns the executor. What is decided here is
//! what becomes of the handle.

use futures_core::task::SpawnError;
use vstd::prelude::*;

verus! {

/// The error of `futures_core` with which an executor refuses a task:
/// opaque here, carried from the executor to the caller as it is.
#[verifier::external_type_specification]
#[verifier::external_body]
pub struct ExSpawnError(SpawnError);

/// What a spawn with a handle returns, given what the executor answered
/// when the wrapped task was handed to it and the handle that observes the
/// task.
///
/// An accepted task gives the handle. A refused task gives the executor's
/// error, unchanged, and no handle: the handle ends here.
pub fn spawn_with_handle<H>(
    launched: Result<(), SpawnError>,
    handle: H,
) -> (r: Result<H, SpawnError>)
    ensures
        launched is Ok ==> r == Ok::<H, SpawnError>(handle),
        launched matches Err(error) ==> r == Err::<H, SpawnError>(error),
{
    match launched {
        Ok(()) => Ok(handle),
        Err(error) => Err(error),
    }
}

} // verus!
