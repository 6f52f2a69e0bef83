//! A slot that holds one future, then its output, then nothing.

use crate::task::poll_future;
use crate::task::Poll;
use core::future::Future;
use core::task::Context;
use vstd::prelude::*;

verus! {

/// The state of a slot, without the future it may still hold.
pub enum Slot<T> {
    /// The future has not reported a value yet.
    Pending,
    /// The future has reported this value, which nobody has taken.
    Ready(T),
    /// The value was taken out.
    Taken,
}

impl<T> Slot<T> {
    /// The state after the held future, if one is still held, answered
    /// `outcome`. A slot that is `Ready` or `Taken` holds no future and is
    /// left as it is.
    pub open spec fn advance(self, outcome: Poll<T>) -> Slot<T> {
        match (self, outcome) {
            (Slot::Pending, Poll::Ready(value)) => Slot::Ready(value),
            _ => self,
        }
    }

    /// `next` is what one turn can make of `self`: the same state, or a
    /// pending slot that became ready.
    pub open spec fn advanced_to(self, next: Slot<T>) -> bool {
        next == self || (self is Pending && next is Ready)
    }

    /// The answer that brings a pending slot to this state: the value of a
    /// ready slot, reported; `Pending` otherwise.
    pub open spec fn as_report(self) -> Poll<T> {
        match self {
            Slot::Ready(value) => Poll::Ready(value),
            _ => Poll::Pending,
        }
    }
}

/// A value leaves its slot once: the slot it was taken from is `Taken`,
/// stays so whatever is reported to it, and so is never again `Ready`, which
/// taking asks for.
pub proof fn lemma_value_taken_once<T>(outcome: Poll<T>)
    ensures
        Slot::<T>::Taken.advance(outcome) == Slot::<T>::Taken,
        !(Slot::<T>::Taken.advance(outcome) is Ready),
{
}

/// A slot that holds a value keeps it, whatever is reported afterwards: a
/// future that has reported is not heard again.
pub proof fn lemma_ready_slot_keeps_value<T>(slot: Slot<T>, outcome: Poll<T>)
    requires
        slot is Ready,
    ensures
        slot.advance(outcome) == slot,
{
}

/// `advanced_to` relates exactly the states that some answer leads from
/// and to, for a slot whose value has not been taken.
pub proof fn lemma_advanced_to_is_advance<T>(slot: Slot<T>, next: Slot<T>)
    requires
        !(slot is Taken),
    ensures
        slot.advanced_to(next) <==> exists|outcome: Poll<T>|
            next == #[trigger] slot.advance(outcome),
{
    if slot.advanced_to(next) {
        assert(next == slot.advance(next.as_report()));
    }
}

/// One operand of a composite: a future that is polled until it reports a
/// value, then the value until it is taken, then nothing.
pub enum MaybeDone<Fut: Future> {
    /// A future that has not reported a value yet.
    Future(Fut),
    /// The value the future reported.
    Done(Fut::Output),
    /// The value was taken out with `take_output`; the slot is of no
    /// further use.
    Gone,
}

impl<Fut: Future> View for MaybeDone<Fut> {
    type V = Slot<Fut::Output>;

    open spec fn view(&self) -> Slot<Fut::Output> {
        match *self {
            MaybeDone::Future(_) => Slot::Pending,
            MaybeDone::Done(value) => Slot::Ready(value),
            MaybeDone::Gone => Slot::Taken,
        }
    }
}

/// Wraps a future in a slot.
pub fn maybe_done<Fut: Future>(future: Fut) -> (slot: MaybeDone<Fut>)
    ensures
        slot == MaybeDone::Future(future),
{
    MaybeDone::Future(future)
}

impl<Fut: Future> MaybeDone<Fut> {
    /// Records what the held future answered on this turn.
    ///
    /// A ready answer replaces the future by its value; a pending answer
    /// changes nothing. A slot that is already `Done` ignores the answer.
    /// Returns `Ready` exactly when the slot holds a value afterwards.
    pub fn settle(&mut self, outcome: Poll<Fut::Output>) -> (r: Poll<()>)
        requires
            !(old(self)@ is Taken),
        ensures
            final(self)@ == old(self)@.advance(outcome),
            !(old(self)@ is Pending && outcome is Ready) ==> *final(self) == *old(self),
            r is Ready <==> final(self)@ is Ready,
    {
        match self {
            MaybeDone::Future(_) => {},
            MaybeDone::Done(_) => { return Poll::Ready(()); },
            MaybeDone::Gone => { return vstd::pervasive::unreached(); },
        }
        match outcome {
            Poll::Ready(value) => {
                *self = MaybeDone::Done(value);
                Poll::Ready(())
            },
            Poll::Pending => Poll::Pending,
        }
    }

    /// True exactly when the slot holds a value that nobody has taken.
    pub fn is_done(&self) -> (r: bool)
        ensures
            r == (self@ is Ready),
    {
        match self {
            MaybeDone::Done(_) => true,
            _ => false,
        }
    }

    /// True exactly when the value was taken out.
    pub fn is_gone(&self) -> (r: bool)
        ensures
            r == (self@ is Taken),
    {
        match self {
            MaybeDone::Gone => true,
            _ => false,
        }
    }

    /// Takes the value out of a `Done` slot, which becomes `Gone`.
    ///
    /// Only a slot that holds a value can be asked for it: the value leaves
    /// once, and there is no second take.
    pub fn take_output(&mut self) -> (r: Fut::Output)
        requires
            old(self)@ is Ready,
        ensures
            old(self)@ == Slot::Ready(r),
            *final(self) == MaybeDone::<Fut>::Gone,
    {
        let mut taken = MaybeDone::Gone;
        core::mem::swap(self, &mut taken);
        match taken {
            MaybeDone::Done(value) => value,
            _ => vstd::pervasive::unreached(),
        }
    }
}

impl<Fut: Future + Unpin> MaybeDone<Fut> {
    /// One turn: polls the future if the slot still holds one, and records
    /// what it answered. A slot that is `Done` is not polled again.
    ///
    /// Returns `Ready` exactly when the slot holds a value afterwards.
    pub fn poll(&mut self, cx: &mut Context<'_>) -> (r: Poll<()>)
        requires
            !(old(self)@ is Taken),
        ensures
            old(self)@.advanced_to(final(self)@),
            old(self)@ is Ready ==> *final(self) == *old(self),
            r is Ready <==> final(self)@ is Ready,
    {
        let outcome = match self {
            MaybeDone::Future(future) => poll_future(future, cx),
            MaybeDone::Done(_) => { return Poll::Ready(()); },
            MaybeDone::Gone => { return vstd::pervasive::unreached(); },
        };
        self.settle(outcome)
    }
}

} // verus!
