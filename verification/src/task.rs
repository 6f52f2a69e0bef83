//! Poll outcomes, the polling of one future, and the spawn bridge.

use core::future::Future;
use core::pin::Pin;
use core::task::Context;
use vstd::prelude::*;

pub mod spawn;

verus! {

/// What a poll-based operation answers when asked whether it has finished.
#[derive(Debug, PartialEq, Eq)]
pub enum Poll<T> {
    /// The operation finished with this value.
    Ready(T),
    /// The operation has not finished; it is to be asked again on a later turn.
    Pending,
}

impl<T> Poll<T> {
    /// True exactly for `Ready`.
    pub fn is_ready(&self) -> (r: bool)
        ensures
            r == (*self is Ready),
    {
        match self {
            Poll::Ready(_) => true,
            Poll::Pending => false,
        }
    }

    /// True exactly for `Pending`.
    pub fn is_pending(&self) -> (r: bool)
        ensures
            r == (*self is Pending),
    {
        match self {
            Poll::Ready(_) => false,
            Poll::Pending => true,
        }
    }
}

/// The turn context of `core::task`: opaque here, only handed on to the
/// future that is polled.
#[verifier::external_type_specification]
#[verifier::external_body]
pub struct ExContext<'a>(Context<'a>);

/// Calls `core::future::Future::poll` once on `future`, pinned in place
/// (which `Unpin` permits), and hands back what it answered.
///
/// Nothing is claimed of the answer: it is whatever the future reports on
/// this turn. A future may panic when it is polled after it has answered
/// `Ready`; the one caller drops a future on that answer.
#[verifier::external_body]
pub(crate) fn poll_future<Fut: Future + Unpin>(
    future: &mut Fut,
    cx: &mut Context<'_>,
) -> (outcome: Poll<Fut::Output>) {
    match Pin::new(future).poll(cx) {
        core::task::Poll::Ready(value) => Poll::Ready(value),
        core::task::Poll::Pending => Poll::Pending,
    }
}

} // verus!
