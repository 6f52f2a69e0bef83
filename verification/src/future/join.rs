//! Waiting for several futures at once.
//!
//! A join owns its futures, each in a slot of its own. Every turn polls each
//! future that has not reported a value yet, none of them twice, and the
//! join returns the values together on the first turn on which every slot
//! holds one.

use crate::future::maybe_done::maybe_done;
use crate::future::maybe_done::MaybeDone;
use crate::future::maybe_done::Slot;
use crate::task::Poll;
use core::future::Future;
use core::task::Context;
use vstd::prelude::*;

verus! {

/// Where a fresh slot stands before the turn numbered `turn`, if its future
/// first reports at the turn numbered `at`, and then reports `value`.
pub open spec fn reported<T>(turn: int, at: int, value: T) -> Slot<T> {
    if turn > at {
        Slot::Ready(value)
    } else {
        Slot::Pending
    }
}

/// What a join of two makes of its slots once this turn's answers are
/// recorded: the values, in the order of the slots and taken out of them,
/// if every slot holds one; nothing, and the slots as they are, otherwise.
pub open spec fn join_complete<A, B>(
    slots: (Slot<A>, Slot<B>),
) -> ((Slot<A>, Slot<B>), Poll<(A, B)>) {
    match slots {
        (Slot::Ready(a), Slot::Ready(b)) => (
            (Slot::Taken, Slot::Taken),
            Poll::Ready((a, b)),
        ),
        _ => (slots, Poll::Pending),
    }
}

/// One turn of a join of two whose futures answer `outcomes`: every slot
/// records its answer, then the join completes if it can.
pub open spec fn join_turn<A, B>(
    slots: (Slot<A>, Slot<B>),
    outcomes: (Poll<A>, Poll<B>),
) -> ((Slot<A>, Slot<B>), Poll<(A, B)>) {
    join_complete(
        (
            slots.0.advance(outcomes.0),
            slots.1.advance(outcomes.1),
        ),
    )
}

/// A fresh join of two driven through `turns`: the slots after the last
/// turn, and what the last turn returned.
pub open spec fn join_run<A, B>(
    turns: Seq<(Poll<A>, Poll<B>)>,
) -> ((Slot<A>, Slot<B>), Poll<(A, B)>)
    decreases turns.len(),
{
    if turns.len() == 0 {
        ((Slot::Pending, Slot::Pending), Poll::Pending)
    } else {
        join_turn(join_run(turns.drop_last()).0, turns.last())
    }
}

proof fn lemma_join_run_prefix<A, B>(
    turns: Seq<(Poll<A>, Poll<B>)>,
    at1: int,
    value1: A,
    at2: int,
    value2: B,
    last: int,
    n: int,
)
    requires
        0 <= at1 <= last,
        0 <= at2 <= last,
        last == at1 || last == at2,
        last < turns.len(),
        forall|i: int| 0 <= i < at1 ==> (#[trigger] turns[i]).0 is Pending,
        forall|i: int| 0 <= i < at2 ==> (#[trigger] turns[i]).1 is Pending,
        turns[at1].0 == Poll::Ready(value1),
        turns[at2].1 == Poll::Ready(value2),
        0 <= n <= last,
    ensures
        join_run(turns.take(n)) == (
            (
                reported(n, at1, value1),
                reported(n, at2, value2),
            ),
            Poll::<(A, B)>::Pending,
        ),
    decreases n,
{
    if n > 0 {
        lemma_join_run_prefix(turns, at1, value1, at2, value2, last, n - 1);
        assert(turns.take(n).drop_last() =~= turns.take(n - 1));
        assert(turns.take(n).last() == turns[n - 1]);
    }
}

/// A join of two returns `Pending` on every turn before the one on which
/// the last of its futures reports, and on that turn the values the
/// futures reported, each in its position.
///
/// `at1` and `at2` number the turns, from 0, on which
/// the futures first answer `Ready`, in the order of the operands; before
/// that each answers `Pending`. `last` is the latest of them.
pub proof fn lemma_join_ready_when_all_reported<A, B>(
    turns: Seq<(Poll<A>, Poll<B>)>,
    at1: int,
    value1: A,
    at2: int,
    value2: B,
    last: int,
)
    requires
        0 <= at1 <= last,
        0 <= at2 <= last,
        last == at1 || last == at2,
        last < turns.len(),
        forall|i: int| 0 <= i < at1 ==> (#[trigger] turns[i]).0 is Pending,
        forall|i: int| 0 <= i < at2 ==> (#[trigger] turns[i]).1 is Pending,
        turns[at1].0 == Poll::Ready(value1),
        turns[at2].1 == Poll::Ready(value2),
    ensures
        forall|n: int|
            0 <= n <= last ==> (#[trigger] join_run(turns.take(n))).1 is Pending,
        join_run(turns.take(last + 1)).1 == Poll::Ready((value1, value2)),
{
    assert forall|n: int| 0 <= n <= last implies (#[trigger] join_run(
        turns.take(n),
    )).1 is Pending by {
        lemma_join_run_prefix(turns, at1, value1, at2, value2, last, n);
    }
    lemma_join_run_prefix(turns, at1, value1, at2, value2, last, last);
    assert(turns.take(last + 1).drop_last() =~= turns.take(last));
    assert(turns.take(last + 1).last() == turns[last]);
}

/// A join of two returns `Pending` for as long as one of its futures has
/// only answered `Pending`, and takes no value out of a slot.
pub proof fn lemma_join_pending_until_all_reported<A, B>(
    turns: Seq<(Poll<A>, Poll<B>)>,
)
    requires
        (forall|i: int|
                0 <= i < turns.len() ==> (#[trigger] turns[i]).0 is Pending)
            || (forall|i: int|
                0 <= i < turns.len() ==> (#[trigger] turns[i]).1 is Pending),
    ensures
        join_run(turns).1 is Pending,
        !(join_run(turns).0.0 is Taken),
        !(join_run(turns).0.1 is Taken),
        (forall|i: int|
            0 <= i < turns.len() ==> (#[trigger] turns[i]).0 is Pending)
            ==> join_run(turns).0.0 is Pending,
        (forall|i: int|
            0 <= i < turns.len() ==> (#[trigger] turns[i]).1 is Pending)
            ==> join_run(turns).0.1 is Pending,
    decreases turns.len(),
{
    if turns.len() > 0 {
        let before = turns.drop_last();
        assert forall|i: int| 0 <= i < before.len() implies before[i] == turns[i] by {}
        lemma_join_pending_until_all_reported(before);
    }
}

/// A join of two that has returned its values holds none, and returns
/// `Pending` whatever is reported to it afterwards: no value is returned
/// twice.
pub proof fn lemma_join_completes_once<A, B>(
    slots: (Slot<A>, Slot<B>),
    outcomes: (Poll<A>, Poll<B>),
)
    requires
        join_complete(slots).1 is Ready,
    ensures
        join_complete(slots).0 == (Slot::<A>::Taken, Slot::<B>::Taken),
        join_turn(join_complete(slots).0, outcomes) == (
            join_complete(slots).0,
            Poll::<(A, B)>::Pending,
        ),
{
}

/// Future for the [`join`] function.
pub struct Join<Fut1: Future, Fut2: Future> {
    fut1: MaybeDone<Fut1>,
    fut2: MaybeDone<Fut2>,
}

impl<Fut1: Future, Fut2: Future> View for Join<Fut1, Fut2> {
    type V = (Slot<Fut1::Output>, Slot<Fut2::Output>);

    open spec fn view(&self) -> (Slot<Fut1::Output>, Slot<Fut2::Output>) {
        (
            self.operands().0@,
            self.operands().1@,
        )
    }
}

impl<Fut1: Future, Fut2: Future> Join<Fut1, Fut2> {
    /// The operands, in the order in which they were given.
    pub closed spec fn operands(&self) -> (MaybeDone<Fut1>, MaybeDone<Fut2>) {
        (self.fut1, self.fut2)
    }

    /// The join has returned its values and must not be polled again.
    pub open spec fn terminated(&self) -> bool {
        self@.0 is Taken || self@.1 is Taken
    }

    fn new(future1: Fut1, future2: Fut2) -> (r: Self)
        ensures
            r.operands() == (MaybeDone::Future(future1), MaybeDone::Future(future2)),
            r@ == (Slot::<Fut1::Output>::Pending, Slot::<Fut2::Output>::Pending),
    {
        Join { fut1: maybe_done(future1), fut2: maybe_done(future2) }
    }

    /// True exactly when the join has returned its values.
    pub fn is_terminated(&self) -> (r: bool)
        ensures
            r == self.terminated(),
    {
        self.fut1.is_gone() || self.fut2.is_gone()
    }

    /// Returns the values of all operands, in the order of the operands, if
    /// every slot holds one, and takes each out of its slot. Returns
    /// `Pending` and changes nothing otherwise.
    pub fn complete(&mut self) -> (r: Poll<(Fut1::Output, Fut2::Output)>)
        ensures
            (final(self)@, r) == join_complete(old(self)@),
            r is Pending ==> *final(self) == *old(self),
    {
        if self.fut1.is_done() && self.fut2.is_done() {
            let a = self.fut1.take_output();
            let b = self.fut2.take_output();
            Poll::Ready((a, b))
        } else {
            Poll::Pending
        }
    }
}

impl<Fut1: Future + Unpin, Fut2: Future + Unpin> Join<Fut1, Fut2> {
    /// One turn: polls every operand that has not reported a value yet, in
    /// the order of the operands and whatever the earlier ones answered,
    /// then completes if every operand has reported.
    ///
    /// The turn is `join_turn` for the answers the operands gave. On `Ready`
    /// the values are those the operands reported, each in its position,
    /// and every slot is emptied. On `Pending` an operand that had reported
    /// keeps its value, and at least one has not reported.
    pub fn poll(&mut self, cx: &mut Context<'_>) -> (r: Poll<(Fut1::Output, Fut2::Output)>)
        requires
            !old(self).terminated(),
        ensures
            exists|outcomes: (Poll<Fut1::Output>, Poll<Fut2::Output>)|
                (final(self)@, r) == #[trigger] join_turn(old(self)@, outcomes),
            match r {
                Poll::Ready(values) => {
                    &&& old(self)@.0.advanced_to(Slot::Ready(values.0))
                    &&& old(self)@.1.advanced_to(Slot::Ready(values.1))
                    &&& final(self)@ == (
                        Slot::<Fut1::Output>::Taken,
                        Slot::<Fut2::Output>::Taken,
                    )
                },
                Poll::Pending => {
                    &&& old(self)@.0.advanced_to(final(self)@.0)
                    &&& old(self)@.1.advanced_to(final(self)@.1)
                    &&& !(final(self)@.0 is Ready && final(self)@.1 is Ready)
                    &&& !final(self).terminated()
                },
            },
    {
        let _ = self.fut1.poll(cx);
        let _ = self.fut2.poll(cx);
        proof {
            let reports = (
                self@.0.as_report(),
                self@.1.as_report(),
            );
            assert(join_complete(self@) == join_turn(old(self)@, reports));
        }
        self.complete()
    }
}

/// Joins the result of two futures, waiting for them both to complete.
///
/// The returned join holds the futures in the order given, none of them
/// polled yet, and returns their outputs in that order.
pub fn join<Fut1: Future, Fut2: Future>(future1: Fut1, future2: Fut2) -> (r: Join<Fut1, Fut2>)
    ensures
        r.operands() == (MaybeDone::Future(future1), MaybeDone::Future(future2)),
        r@ == (Slot::<Fut1::Output>::Pending, Slot::<Fut2::Output>::Pending),
{
    Join::new(future1, future2)
}

/// What a join of three makes of its slots once this turn's answers are
/// recorded: the values, in the order of the slots and taken out of them,
/// if every slot holds one; nothing, and the slots as they are, otherwise.
pub open spec fn join3_complete<A, B, C>(
    slots: (Slot<A>, Slot<B>, Slot<C>),
) -> ((Slot<A>, Slot<B>, Slot<C>), Poll<(A, B, C)>) {
    match slots {
        (Slot::Ready(a), Slot::Ready(b), Slot::Ready(c)) => (
            (Slot::Taken, Slot::Taken, Slot::Taken),
            Poll::Ready((a, b, c)),
        ),
        _ => (slots, Poll::Pending),
    }
}

/// One turn of a join of three whose futures answer `outcomes`: every slot
/// records its answer, then the join completes if it can.
pub open spec fn join3_turn<A, B, C>(
    slots: (Slot<A>, Slot<B>, Slot<C>),
    outcomes: (Poll<A>, Poll<B>, Poll<C>),
) -> ((Slot<A>, Slot<B>, Slot<C>), Poll<(A, B, C)>) {
    join3_complete(
        (
            slots.0.advance(outcomes.0),
            slots.1.advance(outcomes.1),
            slots.2.advance(outcomes.2),
        ),
    )
}

/// A fresh join of three driven through `turns`: the slots after the last
/// turn, and what the last turn returned.
pub open spec fn join3_run<A, B, C>(
    turns: Seq<(Poll<A>, Poll<B>, Poll<C>)>,
) -> ((Slot<A>, Slot<B>, Slot<C>), Poll<(A, B, C)>)
    decreases turns.len(),
{
    if turns.len() == 0 {
        ((Slot::Pending, Slot::Pending, Slot::Pending), Poll::Pending)
    } else {
        join3_turn(join3_run(turns.drop_last()).0, turns.last())
    }
}

proof fn lemma_join3_run_prefix<A, B, C>(
    turns: Seq<(Poll<A>, Poll<B>, Poll<C>)>,
    at1: int,
    value1: A,
    at2: int,
    value2: B,
    at3: int,
    value3: C,
    last: int,
    n: int,
)
    requires
        0 <= at1 <= last,
        0 <= at2 <= last,
        0 <= at3 <= last,
        last == at1 || last == at2 || last == at3,
        last < turns.len(),
        forall|i: int| 0 <= i < at1 ==> (#[trigger] turns[i]).0 is Pending,
        forall|i: int| 0 <= i < at2 ==> (#[trigger] turns[i]).1 is Pending,
        forall|i: int| 0 <= i < at3 ==> (#[trigger] turns[i]).2 is Pending,
        turns[at1].0 == Poll::Ready(value1),
        turns[at2].1 == Poll::Ready(value2),
        turns[at3].2 == Poll::Ready(value3),
        0 <= n <= last,
    ensures
        join3_run(turns.take(n)) == (
            (
                reported(n, at1, value1),
                reported(n, at2, value2),
                reported(n, at3, value3),
            ),
            Poll::<(A, B, C)>::Pending,
        ),
    decreases n,
{
    if n > 0 {
        lemma_join3_run_prefix(turns, at1, value1, at2, value2, at3, value3, last, n - 1);
        assert(turns.take(n).drop_last() =~= turns.take(n - 1));
        assert(turns.take(n).last() == turns[n - 1]);
    }
}

/// A join of three returns `Pending` on every turn before the one on which
/// the last of its futures reports, and on that turn the values the
/// futures reported, each in its position.
///
/// `at1`, `at2` and `at3` number the turns, from 0, on which
/// the futures first answer `Ready`, in the order of the operands; before
/// that each answers `Pending`. `last` is the latest of them.
pub proof fn lemma_join3_ready_when_all_reported<A, B, C>(
    turns: Seq<(Poll<A>, Poll<B>, Poll<C>)>,
    at1: int,
    value1: A,
    at2: int,
    value2: B,
    at3: int,
    value3: C,
    last: int,
)
    requires
        0 <= at1 <= last,
        0 <= at2 <= last,
        0 <= at3 <= last,
        last == at1 || last == at2 || last == at3,
        last < turns.len(),
        forall|i: int| 0 <= i < at1 ==> (#[trigger] turns[i]).0 is Pending,
        forall|i: int| 0 <= i < at2 ==> (#[trigger] turns[i]).1 is Pending,
        forall|i: int| 0 <= i < at3 ==> (#[trigger] turns[i]).2 is Pending,
        turns[at1].0 == Poll::Ready(value1),
        turns[at2].1 == Poll::Ready(value2),
        turns[at3].2 == Poll::Ready(value3),
    ensures
        forall|n: int|
            0 <= n <= last ==> (#[trigger] join3_run(turns.take(n))).1 is Pending,
        join3_run(turns.take(last + 1)).1 == Poll::Ready((value1, value2, value3)),
{
    assert forall|n: int| 0 <= n <= last implies (#[trigger] join3_run(
        turns.take(n),
    )).1 is Pending by {
        lemma_join3_run_prefix(turns, at1, value1, at2, value2, at3, value3, last, n);
    }
    lemma_join3_run_prefix(turns, at1, value1, at2, value2, at3, value3, last, last);
    assert(turns.take(last + 1).drop_last() =~= turns.take(last));
    assert(turns.take(last + 1).last() == turns[last]);
}

/// A join of three returns `Pending` for as long as one of its futures has
/// only answered `Pending`, and takes no value out of a slot.
pub proof fn lemma_join3_pending_until_all_reported<A, B, C>(
    turns: Seq<(Poll<A>, Poll<B>, Poll<C>)>,
)
    requires
        (forall|i: int|
                0 <= i < turns.len() ==> (#[trigger] turns[i]).0 is Pending)
            || (forall|i: int|
                0 <= i < turns.len() ==> (#[trigger] turns[i]).1 is Pending)
            || (forall|i: int|
                0 <= i < turns.len() ==> (#[trigger] turns[i]).2 is Pending),
    ensures
        join3_run(turns).1 is Pending,
        !(join3_run(turns).0.0 is Taken),
        !(join3_run(turns).0.1 is Taken),
        !(join3_run(turns).0.2 is Taken),
        (forall|i: int|
            0 <= i < turns.len() ==> (#[trigger] turns[i]).0 is Pending)
            ==> join3_run(turns).0.0 is Pending,
        (forall|i: int|
            0 <= i < turns.len() ==> (#[trigger] turns[i]).1 is Pending)
            ==> join3_run(turns).0.1 is Pending,
        (forall|i: int|
            0 <= i < turns.len() ==> (#[trigger] turns[i]).2 is Pending)
            ==> join3_run(turns).0.2 is Pending,
    decreases turns.len(),
{
    if turns.len() > 0 {
        let before = turns.drop_last();
        assert forall|i: int| 0 <= i < before.len() implies before[i] == turns[i] by {}
        lemma_join3_pending_until_all_reported(before);
    }
}

/// A join of three that has returned its values holds none, and returns
/// `Pending` whatever is reported to it afterwards: no value is returned
/// twice.
pub proof fn lemma_join3_completes_once<A, B, C>(
    slots: (Slot<A>, Slot<B>, Slot<C>),
    outcomes: (Poll<A>, Poll<B>, Poll<C>),
)
    requires
        join3_complete(slots).1 is Ready,
    ensures
        join3_complete(slots).0 == (Slot::<A>::Taken, Slot::<B>::Taken, Slot::<C>::Taken),
        join3_turn(join3_complete(slots).0, outcomes) == (
            join3_complete(slots).0,
            Poll::<(A, B, C)>::Pending,
        ),
{
}

/// Future for the [`join3`] function.
pub struct Join3<Fut1: Future, Fut2: Future, Fut3: Future> {
    fut1: MaybeDone<Fut1>,
    fut2: MaybeDone<Fut2>,
    fut3: MaybeDone<Fut3>,
}

impl<Fut1: Future, Fut2: Future, Fut3: Future> View for Join3<Fut1, Fut2, Fut3> {
    type V = (Slot<Fut1::Output>, Slot<Fut2::Output>, Slot<Fut3::Output>);

    open spec fn view(&self) -> (Slot<Fut1::Output>, Slot<Fut2::Output>, Slot<Fut3::Output>) {
        (
            self.operands().0@,
            self.operands().1@,
            self.operands().2@,
        )
    }
}

impl<Fut1: Future, Fut2: Future, Fut3: Future> Join3<Fut1, Fut2, Fut3> {
    /// The operands, in the order in which they were given.
    pub closed spec fn operands(&self) -> (MaybeDone<Fut1>, MaybeDone<Fut2>, MaybeDone<Fut3>) {
        (self.fut1, self.fut2, self.fut3)
    }

    /// The join has returned its values and must not be polled again.
    pub open spec fn terminated(&self) -> bool {
        self@.0 is Taken || self@.1 is Taken || self@.2 is Taken
    }

    fn new(future1: Fut1, future2: Fut2, future3: Fut3) -> (r: Self)
        ensures
            r.operands() == (
                MaybeDone::Future(future1),
                MaybeDone::Future(future2),
                MaybeDone::Future(future3),
            ),
            r@ == (
                Slot::<Fut1::Output>::Pending,
                Slot::<Fut2::Output>::Pending,
                Slot::<Fut3::Output>::Pending,
            ),
    {
        Join3 { fut1: maybe_done(future1), fut2: maybe_done(future2), fut3: maybe_done(future3) }
    }

    /// True exactly when the join has returned its values.
    pub fn is_terminated(&self) -> (r: bool)
        ensures
            r == self.terminated(),
    {
        self.fut1.is_gone() || self.fut2.is_gone() || self.fut3.is_gone()
    }

    /// Returns the values of all operands, in the order of the operands, if
    /// every slot holds one, and takes each out of its slot. Returns
    /// `Pending` and changes nothing otherwise.
    pub fn complete(&mut self) -> (r: Poll<(Fut1::Output, Fut2::Output, Fut3::Output)>)
        ensures
            (final(self)@, r) == join3_complete(old(self)@),
            r is Pending ==> *final(self) == *old(self),
    {
        if self.fut1.is_done() && self.fut2.is_done() && self.fut3.is_done() {
            let a = self.fut1.take_output();
            let b = self.fut2.take_output();
            let c = self.fut3.take_output();
            Poll::Ready((a, b, c))
        } else {
            Poll::Pending
        }
    }
}

impl<Fut1: Future + Unpin, Fut2: Future + Unpin, Fut3: Future + Unpin> Join3<Fut1, Fut2, Fut3> {
    /// One turn: polls every operand that has not reported a value yet, in
    /// the order of the operands and whatever the earlier ones answered,
    /// then completes if every operand has reported.
    ///
    /// The turn is `join3_turn` for the answers the operands gave. On `Ready`
    /// the values are those the operands reported, each in its position,
    /// and every slot is emptied. On `Pending` an operand that had reported
    /// keeps its value, and at least one has not reported.
    pub fn poll(&mut self, cx: &mut Context<'_>) -> (r: Poll<(
        Fut1::Output,
        Fut2::Output,
        Fut3::Output,
    )>)
        requires
            !old(self).terminated(),
        ensures
            exists|outcomes: (Poll<Fut1::Output>, Poll<Fut2::Output>, Poll<Fut3::Output>)|
                (final(self)@, r) == #[trigger] join3_turn(old(self)@, outcomes),
            match r {
                Poll::Ready(values) => {
                    &&& old(self)@.0.advanced_to(Slot::Ready(values.0))
                    &&& old(self)@.1.advanced_to(Slot::Ready(values.1))
                    &&& old(self)@.2.advanced_to(Slot::Ready(values.2))
                    &&& final(self)@ == (
                        Slot::<Fut1::Output>::Taken,
                        Slot::<Fut2::Output>::Taken,
                        Slot::<Fut3::Output>::Taken,
                    )
                },
                Poll::Pending => {
                    &&& old(self)@.0.advanced_to(final(self)@.0)
                    &&& old(self)@.1.advanced_to(final(self)@.1)
                    &&& old(self)@.2.advanced_to(final(self)@.2)
                    &&& !(final(self)@.0 is Ready
                        && final(self)@.1 is Ready
                        && final(self)@.2 is Ready)
                    &&& !final(self).terminated()
                },
            },
    {
        let _ = self.fut1.poll(cx);
        let _ = self.fut2.poll(cx);
        let _ = self.fut3.poll(cx);
        proof {
            let reports = (
                self@.0.as_report(),
                self@.1.as_report(),
                self@.2.as_report(),
            );
            assert(join3_complete(self@) == join3_turn(old(self)@, reports));
        }
        self.complete()
    }
}

/// Same as [`join`], but with three futures.
///
/// The returned join holds the futures in the order given, none of them
/// polled yet, and returns their outputs in that order.
pub fn join3<Fut1: Future, Fut2: Future, Fut3: Future>(
    future1: Fut1,
    future2: Fut2,
    future3: Fut3,
) -> (r: Join3<Fut1, Fut2, Fut3>)
    ensures
        r.operands() == (
            MaybeDone::Future(future1),
            MaybeDone::Future(future2),
            MaybeDone::Future(future3),
        ),
        r@ == (
            Slot::<Fut1::Output>::Pending,
            Slot::<Fut2::Output>::Pending,
            Slot::<Fut3::Output>::Pending,
        ),
{
    Join3::new(future1, future2, future3)
}

/// What a join of four makes of its slots once this turn's answers are
/// recorded: the values, in the order of the slots and taken out of them,
/// if every slot holds one; nothing, and the slots as they are, otherwise.
pub open spec fn join4_complete<A, B, C, D>(
    slots: (Slot<A>, Slot<B>, Slot<C>, Slot<D>),
) -> ((Slot<A>, Slot<B>, Slot<C>, Slot<D>), Poll<(A, B, C, D)>) {
    match slots {
        (Slot::Ready(a), Slot::Ready(b), Slot::Ready(c), Slot::Ready(d)) => (
            (Slot::Taken, Slot::Taken, Slot::Taken, Slot::Taken),
            Poll::Ready((a, b, c, d)),
        ),
        _ => (slots, Poll::Pending),
    }
}

/// One turn of a join of four whose futures answer `outcomes`: every slot
/// records its answer, then the join completes if it can.
pub open spec fn join4_turn<A, B, C, D>(
    slots: (Slot<A>, Slot<B>, Slot<C>, Slot<D>),
    outcomes: (Poll<A>, Poll<B>, Poll<C>, Poll<D>),
) -> ((Slot<A>, Slot<B>, Slot<C>, Slot<D>), Poll<(A, B, C, D)>) {
    join4_complete(
        (
            slots.0.advance(outcomes.0),
            slots.1.advance(outcomes.1),
            slots.2.advance(outcomes.2),
            slots.3.advance(outcomes.3),
        ),
    )
}

/// A fresh join of four driven through `turns`: the slots after the last
/// turn, and what the last turn returned.
pub open spec fn join4_run<A, B, C, D>(
    turns: Seq<(Poll<A>, Poll<B>, Poll<C>, Poll<D>)>,
) -> ((Slot<A>, Slot<B>, Slot<C>, Slot<D>), Poll<(A, B, C, D)>)
    decreases turns.len(),
{
    if turns.len() == 0 {
        ((Slot::Pending, Slot::Pending, Slot::Pending, Slot::Pending), Poll::Pending)
    } else {
        join4_turn(join4_run(turns.drop_last()).0, turns.last())
    }
}

proof fn lemma_join4_run_prefix<A, B, C, D>(
    turns: Seq<(Poll<A>, Poll<B>, Poll<C>, Poll<D>)>,
    at1: int,
    value1: A,
    at2: int,
    value2: B,
    at3: int,
    value3: C,
    at4: int,
    value4: D,
    last: int,
    n: int,
)
    requires
        0 <= at1 <= last,
        0 <= at2 <= last,
        0 <= at3 <= last,
        0 <= at4 <= last,
        last == at1 || last == at2 || last == at3 || last == at4,
        last < turns.len(),
        forall|i: int| 0 <= i < at1 ==> (#[trigger] turns[i]).0 is Pending,
        forall|i: int| 0 <= i < at2 ==> (#[trigger] turns[i]).1 is Pending,
        forall|i: int| 0 <= i < at3 ==> (#[trigger] turns[i]).2 is Pending,
        forall|i: int| 0 <= i < at4 ==> (#[trigger] turns[i]).3 is Pending,
        turns[at1].0 == Poll::Ready(value1),
        turns[at2].1 == Poll::Ready(value2),
        turns[at3].2 == Poll::Ready(value3),
        turns[at4].3 == Poll::Ready(value4),
        0 <= n <= last,
    ensures
        join4_run(turns.take(n)) == (
            (
                reported(n, at1, value1),
                reported(n, at2, value2),
                reported(n, at3, value3),
                reported(n, at4, value4),
            ),
            Poll::<(A, B, C, D)>::Pending,
        ),
    decreases n,
{
    if n > 0 {
        lemma_join4_run_prefix(
            turns,
            at1, value1,
            at2, value2,
            at3, value3,
            at4, value4,
            last,
            n - 1,
        );
        assert(turns.take(n).drop_last() =~= turns.take(n - 1));
        assert(turns.take(n).last() == turns[n - 1]);
    }
}

/// A join of four returns `Pending` on every turn before the one on which
/// the last of its futures reports, and on that turn the values the
/// futures reported, each in its position.
///
/// `at1`, `at2`, `at3` and `at4` number the turns, from 0, on which
/// the futures first answer `Ready`, in the order of the operands; before
/// that each answers `Pending`. `last` is the latest of them.
pub proof fn lemma_join4_ready_when_all_reported<A, B, C, D>(
    turns: Seq<(Poll<A>, Poll<B>, Poll<C>, Poll<D>)>,
    at1: int,
    value1: A,
    at2: int,
    value2: B,
    at3: int,
    value3: C,
    at4: int,
    value4: D,
    last: int,
)
    requires
        0 <= at1 <= last,
        0 <= at2 <= last,
        0 <= at3 <= last,
        0 <= at4 <= last,
        last == at1 || last == at2 || last == at3 || last == at4,
        last < turns.len(),
        forall|i: int| 0 <= i < at1 ==> (#[trigger] turns[i]).0 is Pending,
        forall|i: int| 0 <= i < at2 ==> (#[trigger] turns[i]).1 is Pending,
        forall|i: int| 0 <= i < at3 ==> (#[trigger] turns[i]).2 is Pending,
        forall|i: int| 0 <= i < at4 ==> (#[trigger] turns[i]).3 is Pending,
        turns[at1].0 == Poll::Ready(value1),
        turns[at2].1 == Poll::Ready(value2),
        turns[at3].2 == Poll::Ready(value3),
        turns[at4].3 == Poll::Ready(value4),
    ensures
        forall|n: int|
            0 <= n <= last ==> (#[trigger] join4_run(turns.take(n))).1 is Pending,
        join4_run(turns.take(last + 1)).1 == Poll::Ready((value1, value2, value3, value4)),
{
    assert forall|n: int| 0 <= n <= last implies (#[trigger] join4_run(
        turns.take(n),
    )).1 is Pending by {
        lemma_join4_run_prefix(
            turns,
            at1, value1,
            at2, value2,
            at3, value3,
            at4, value4,
            last,
            n,
        );
    }
    lemma_join4_run_prefix(
        turns,
        at1, value1,
        at2, value2,
        at3, value3,
        at4, value4,
        last,
        last,
    );
    assert(turns.take(last + 1).drop_last() =~= turns.take(last));
    assert(turns.take(last + 1).last() == turns[last]);
}

/// A join of four returns `Pending` for as long as one of its futures has
/// only answered `Pending`, and takes no value out of a slot.
pub proof fn lemma_join4_pending_until_all_reported<A, B, C, D>(
    turns: Seq<(Poll<A>, Poll<B>, Poll<C>, Poll<D>)>,
)
    requires
        (forall|i: int|
                0 <= i < turns.len() ==> (#[trigger] turns[i]).0 is Pending)
            || (forall|i: int|
                0 <= i < turns.len() ==> (#[trigger] turns[i]).1 is Pending)
            || (forall|i: int|
                0 <= i < turns.len() ==> (#[trigger] turns[i]).2 is Pending)
            || (forall|i: int|
                0 <= i < turns.len() ==> (#[trigger] turns[i]).3 is Pending),
    ensures
        join4_run(turns).1 is Pending,
        !(join4_run(turns).0.0 is Taken),
        !(join4_run(turns).0.1 is Taken),
        !(join4_run(turns).0.2 is Taken),
        !(join4_run(turns).0.3 is Taken),
        (forall|i: int|
            0 <= i < turns.len() ==> (#[trigger] turns[i]).0 is Pending)
            ==> join4_run(turns).0.0 is Pending,
        (forall|i: int|
            0 <= i < turns.len() ==> (#[trigger] turns[i]).1 is Pending)
            ==> join4_run(turns).0.1 is Pending,
        (forall|i: int|
            0 <= i < turns.len() ==> (#[trigger] turns[i]).2 is Pending)
            ==> join4_run(turns).0.2 is Pending,
        (forall|i: int|
            0 <= i < turns.len() ==> (#[trigger] turns[i]).3 is Pending)
            ==> join4_run(turns).0.3 is Pending,
    decreases turns.len(),
{
    if turns.len() > 0 {
        let before = turns.drop_last();
        assert forall|i: int| 0 <= i < before.len() implies before[i] == turns[i] by {}
        lemma_join4_pending_until_all_reported(before);
    }
}

/// A join of four that has returned its values holds none, and returns
/// `Pending` whatever is reported to it afterwards: no value is returned
/// twice.
pub proof fn lemma_join4_completes_once<A, B, C, D>(
    slots: (Slot<A>, Slot<B>, Slot<C>, Slot<D>),
    outcomes: (Poll<A>, Poll<B>, Poll<C>, Poll<D>),
)
    requires
        join4_complete(slots).1 is Ready,
    ensures
        join4_complete(slots).0 == (
            Slot::<A>::Taken,
            Slot::<B>::Taken,
            Slot::<C>::Taken,
            Slot::<D>::Taken,
        ),
        join4_turn(join4_complete(slots).0, outcomes) == (
            join4_complete(slots).0,
            Poll::<(A, B, C, D)>::Pending,
        ),
{
}

/// Future for the [`join4`] function.
pub struct Join4<Fut1: Future, Fut2: Future, Fut3: Future, Fut4: Future> {
    fut1: MaybeDone<Fut1>,
    fut2: MaybeDone<Fut2>,
    fut3: MaybeDone<Fut3>,
    fut4: MaybeDone<Fut4>,
}

impl<
    Fut1: Future,
    Fut2: Future,
    Fut3: Future,
    Fut4: Future,
> View for Join4<Fut1, Fut2, Fut3, Fut4> {
    type V = (Slot<Fut1::Output>, Slot<Fut2::Output>, Slot<Fut3::Output>, Slot<Fut4::Output>);

    open spec fn view(&self) -> (
        Slot<Fut1::Output>,
        Slot<Fut2::Output>,
        Slot<Fut3::Output>,
        Slot<Fut4::Output>,
    ) {
        (
            self.operands().0@,
            self.operands().1@,
            self.operands().2@,
            self.operands().3@,
        )
    }
}

impl<Fut1: Future, Fut2: Future, Fut3: Future, Fut4: Future> Join4<Fut1, Fut2, Fut3, Fut4> {
    /// The operands, in the order in which they were given.
    pub closed spec fn operands(&self) -> (
        MaybeDone<Fut1>,
        MaybeDone<Fut2>,
        MaybeDone<Fut3>,
        MaybeDone<Fut4>,
    ) {
        (self.fut1, self.fut2, self.fut3, self.fut4)
    }

    /// The join has returned its values and must not be polled again.
    pub open spec fn terminated(&self) -> bool {
        self@.0 is Taken || self@.1 is Taken || self@.2 is Taken || self@.3 is Taken
    }

    fn new(future1: Fut1, future2: Fut2, future3: Fut3, future4: Fut4) -> (r: Self)
        ensures
            r.operands() == (
                MaybeDone::Future(future1),
                MaybeDone::Future(future2),
                MaybeDone::Future(future3),
                MaybeDone::Future(future4),
            ),
            r@ == (
                Slot::<Fut1::Output>::Pending,
                Slot::<Fut2::Output>::Pending,
                Slot::<Fut3::Output>::Pending,
                Slot::<Fut4::Output>::Pending,
            ),
    {
        Join4 {
            fut1: maybe_done(future1),
            fut2: maybe_done(future2),
            fut3: maybe_done(future3),
            fut4: maybe_done(future4),
        }
    }

    /// True exactly when the join has returned its values.
    pub fn is_terminated(&self) -> (r: bool)
        ensures
            r == self.terminated(),
    {
        self.fut1.is_gone() || self.fut2.is_gone() || self.fut3.is_gone() || self.fut4.is_gone()
    }

    /// Returns the values of all operands, in the order of the operands, if
    /// every slot holds one, and takes each out of its slot. Returns
    /// `Pending` and changes nothing otherwise.
    pub fn complete(&mut self) -> (r: Poll<(
        Fut1::Output,
        Fut2::Output,
        Fut3::Output,
        Fut4::Output,
    )>)
        ensures
            (final(self)@, r) == join4_complete(old(self)@),
            r is Pending ==> *final(self) == *old(self),
    {
        if self.fut1.is_done()
            && self.fut2.is_done()
            && self.fut3.is_done()
            && self.fut4.is_done() {
            let a = self.fut1.take_output();
            let b = self.fut2.take_output();
            let c = self.fut3.take_output();
            let d = self.fut4.take_output();
            Poll::Ready((a, b, c, d))
        } else {
            Poll::Pending
        }
    }
}

impl<
    Fut1: Future + Unpin,
    Fut2: Future + Unpin,
    Fut3: Future + Unpin,
    Fut4: Future + Unpin,
> Join4<Fut1, Fut2, Fut3, Fut4> {
    /// One turn: polls every operand that has not reported a value yet, in
    /// the order of the operands and whatever the earlier ones answered,
    /// then completes if every operand has reported.
    ///
    /// The turn is `join4_turn` for the answers the operands gave. On `Ready`
    /// the values are those the operands reported, each in its position,
    /// and every slot is emptied. On `Pending` an operand that had reported
    /// keeps its value, and at least one has not reported.
    pub fn poll(&mut self, cx: &mut Context<'_>) -> (r: Poll<(
        Fut1::Output,
        Fut2::Output,
        Fut3::Output,
        Fut4::Output,
    )>)
        requires
            !old(self).terminated(),
        ensures
            exists|outcomes: (
                Poll<Fut1::Output>,
                Poll<Fut2::Output>,
                Poll<Fut3::Output>,
                Poll<Fut4::Output>,
            )|
                (final(self)@, r) == #[trigger] join4_turn(old(self)@, outcomes),
            match r {
                Poll::Ready(values) => {
                    &&& old(self)@.0.advanced_to(Slot::Ready(values.0))
                    &&& old(self)@.1.advanced_to(Slot::Ready(values.1))
                    &&& old(self)@.2.advanced_to(Slot::Ready(values.2))
                    &&& old(self)@.3.advanced_to(Slot::Ready(values.3))
                    &&& final(self)@ == (
                        Slot::<Fut1::Output>::Taken,
                        Slot::<Fut2::Output>::Taken,
                        Slot::<Fut3::Output>::Taken,
                        Slot::<Fut4::Output>::Taken,
                    )
                },
                Poll::Pending => {
                    &&& old(self)@.0.advanced_to(final(self)@.0)
                    &&& old(self)@.1.advanced_to(final(self)@.1)
                    &&& old(self)@.2.advanced_to(final(self)@.2)
                    &&& old(self)@.3.advanced_to(final(self)@.3)
                    &&& !(final(self)@.0 is Ready
                        && final(self)@.1 is Ready
                        && final(self)@.2 is Ready
                        && final(self)@.3 is Ready)
                    &&& !final(self).terminated()
                },
            },
    {
        let _ = self.fut1.poll(cx);
        let _ = self.fut2.poll(cx);
        let _ = self.fut3.poll(cx);
        let _ = self.fut4.poll(cx);
        proof {
            let reports = (
                self@.0.as_report(),
                self@.1.as_report(),
                self@.2.as_report(),
                self@.3.as_report(),
            );
            assert(join4_complete(self@) == join4_turn(old(self)@, reports));
        }
        self.complete()
    }
}

/// Same as [`join`], but with four futures.
///
/// The returned join holds the futures in the order given, none of them
/// polled yet, and returns their outputs in that order.
pub fn join4<Fut1: Future, Fut2: Future, Fut3: Future, Fut4: Future>(
    future1: Fut1,
    future2: Fut2,
    future3: Fut3,
    future4: Fut4,
) -> (r: Join4<Fut1, Fut2, Fut3, Fut4>)
    ensures
        r.operands() == (
            MaybeDone::Future(future1),
            MaybeDone::Future(future2),
            MaybeDone::Future(future3),
            MaybeDone::Future(future4),
        ),
        r@ == (
            Slot::<Fut1::Output>::Pending,
            Slot::<Fut2::Output>::Pending,
            Slot::<Fut3::Output>::Pending,
            Slot::<Fut4::Output>::Pending,
        ),
{
    Join4::new(future1, future2, future3, future4)
}

/// What a join of five makes of its slots once this turn's answers are
/// recorded: the values, in the order of the slots and taken out of them,
/// if every slot holds one; nothing, and the slots as they are, otherwise.
pub open spec fn join5_complete<A, B, C, D, E>(
    slots: (Slot<A>, Slot<B>, Slot<C>, Slot<D>, Slot<E>),
) -> ((Slot<A>, Slot<B>, Slot<C>, Slot<D>, Slot<E>), Poll<(A, B, C, D, E)>) {
    match slots {
        (Slot::Ready(a), Slot::Ready(b), Slot::Ready(c), Slot::Ready(d), Slot::Ready(e)) => (
            (Slot::Taken, Slot::Taken, Slot::Taken, Slot::Taken, Slot::Taken),
            Poll::Ready((a, b, c, d, e)),
        ),
        _ => (slots, Poll::Pending),
    }
}

/// One turn of a join of five whose futures answer `outcomes`: every slot
/// records its answer, then the join completes if it can.
pub open spec fn join5_turn<A, B, C, D, E>(
    slots: (Slot<A>, Slot<B>, Slot<C>, Slot<D>, Slot<E>),
    outcomes: (Poll<A>, Poll<B>, Poll<C>, Poll<D>, Poll<E>),
) -> ((Slot<A>, Slot<B>, Slot<C>, Slot<D>, Slot<E>), Poll<(A, B, C, D, E)>) {
    join5_complete(
        (
            slots.0.advance(outcomes.0),
            slots.1.advance(outcomes.1),
            slots.2.advance(outcomes.2),
            slots.3.advance(outcomes.3),
            slots.4.advance(outcomes.4),
        ),
    )
}

/// A fresh join of five driven through `turns`: the slots after the last
/// turn, and what the last turn returned.
pub open spec fn join5_run<A, B, C, D, E>(
    turns: Seq<(Poll<A>, Poll<B>, Poll<C>, Poll<D>, Poll<E>)>,
) -> ((Slot<A>, Slot<B>, Slot<C>, Slot<D>, Slot<E>), Poll<(A, B, C, D, E)>)
    decreases turns.len(),
{
    if turns.len() == 0 {
        ((Slot::Pending, Slot::Pending, Slot::Pending, Slot::Pending, Slot::Pending), Poll::Pending)
    } else {
        join5_turn(join5_run(turns.drop_last()).0, turns.last())
    }
}

proof fn lemma_join5_run_prefix<A, B, C, D, E>(
    turns: Seq<(Poll<A>, Poll<B>, Poll<C>, Poll<D>, Poll<E>)>,
    at1: int,
    value1: A,
    at2: int,
    value2: B,
    at3: int,
    value3: C,
    at4: int,
    value4: D,
    at5: int,
    value5: E,
    last: int,
    n: int,
)
    requires
        0 <= at1 <= last,
        0 <= at2 <= last,
        0 <= at3 <= last,
        0 <= at4 <= last,
        0 <= at5 <= last,
        last == at1 || last == at2 || last == at3 || last == at4 || last == at5,
        last < turns.len(),
        forall|i: int| 0 <= i < at1 ==> (#[trigger] turns[i]).0 is Pending,
        forall|i: int| 0 <= i < at2 ==> (#[trigger] turns[i]).1 is Pending,
        forall|i: int| 0 <= i < at3 ==> (#[trigger] turns[i]).2 is Pending,
        forall|i: int| 0 <= i < at4 ==> (#[trigger] turns[i]).3 is Pending,
        forall|i: int| 0 <= i < at5 ==> (#[trigger] turns[i]).4 is Pending,
        turns[at1].0 == Poll::Ready(value1),
        turns[at2].1 == Poll::Ready(value2),
        turns[at3].2 == Poll::Ready(value3),
        turns[at4].3 == Poll::Ready(value4),
        turns[at5].4 == Poll::Ready(value5),
        0 <= n <= last,
    ensures
        join5_run(turns.take(n)) == (
            (
                reported(n, at1, value1),
                reported(n, at2, value2),
                reported(n, at3, value3),
                reported(n, at4, value4),
                reported(n, at5, value5),
            ),
            Poll::<(A, B, C, D, E)>::Pending,
        ),
    decreases n,
{
    if n > 0 {
        lemma_join5_run_prefix(
            turns,
            at1, value1,
            at2, value2,
            at3, value3,
            at4, value4,
            at5, value5,
            last,
            n - 1,
        );
        assert(turns.take(n).drop_last() =~= turns.take(n - 1));
        assert(turns.take(n).last() == turns[n - 1]);
    }
}

/// A join of five returns `Pending` on every turn before the one on which
/// the last of its futures reports, and on that turn the values the
/// futures reported, each in its position.
///
/// `at1`, `at2`, `at3`, `at4` and `at5` number the turns, from 0, on which
/// the futures first answer `Ready`, in the order of the operands; before
/// that each answers `Pending`. `last` is the latest of them.
pub proof fn lemma_join5_ready_when_all_reported<A, B, C, D, E>(
    turns: Seq<(Poll<A>, Poll<B>, Poll<C>, Poll<D>, Poll<E>)>,
    at1: int,
    value1: A,
    at2: int,
    value2: B,
    at3: int,
    value3: C,
    at4: int,
    value4: D,
    at5: int,
    value5: E,
    last: int,
)
    requires
        0 <= at1 <= last,
        0 <= at2 <= last,
        0 <= at3 <= last,
        0 <= at4 <= last,
        0 <= at5 <= last,
        last == at1 || last == at2 || last == at3 || last == at4 || last == at5,
        last < turns.len(),
        forall|i: int| 0 <= i < at1 ==> (#[trigger] turns[i]).0 is Pending,
        forall|i: int| 0 <= i < at2 ==> (#[trigger] turns[i]).1 is Pending,
        forall|i: int| 0 <= i < at3 ==> (#[trigger] turns[i]).2 is Pending,
        forall|i: int| 0 <= i < at4 ==> (#[trigger] turns[i]).3 is Pending,
        forall|i: int| 0 <= i < at5 ==> (#[trigger] turns[i]).4 is Pending,
        turns[at1].0 == Poll::Ready(value1),
        turns[at2].1 == Poll::Ready(value2),
        turns[at3].2 == Poll::Ready(value3),
        turns[at4].3 == Poll::Ready(value4),
        turns[at5].4 == Poll::Ready(value5),
    ensures
        forall|n: int|
            0 <= n <= last ==> (#[trigger] join5_run(turns.take(n))).1 is Pending,
        join5_run(turns.take(last + 1)).1 == Poll::Ready((
            value1,
            value2,
            value3,
            value4,
            value5,
        )),
{
    assert forall|n: int| 0 <= n <= last implies (#[trigger] join5_run(
        turns.take(n),
    )).1 is Pending by {
        lemma_join5_run_prefix(
            turns,
            at1, value1,
            at2, value2,
            at3, value3,
            at4, value4,
            at5, value5,
            last,
            n,
        );
    }
    lemma_join5_run_prefix(
        turns,
        at1, value1,
        at2, value2,
        at3, value3,
        at4, value4,
        at5, value5,
        last,
        last,
    );
    assert(turns.take(last + 1).drop_last() =~= turns.take(last));
    assert(turns.take(last + 1).last() == turns[last]);
}

/// A join of five returns `Pending` for as long as one of its futures has
/// only answered `Pending`, and takes no value out of a slot.
pub proof fn lemma_join5_pending_until_all_reported<A, B, C, D, E>(
    turns: Seq<(Poll<A>, Poll<B>, Poll<C>, Poll<D>, Poll<E>)>,
)
    requires
        (forall|i: int|
                0 <= i < turns.len() ==> (#[trigger] turns[i]).0 is Pending)
            || (forall|i: int|
                0 <= i < turns.len() ==> (#[trigger] turns[i]).1 is Pending)
            || (forall|i: int|
                0 <= i < turns.len() ==> (#[trigger] turns[i]).2 is Pending)
            || (forall|i: int|
                0 <= i < turns.len() ==> (#[trigger] turns[i]).3 is Pending)
            || (forall|i: int|
                0 <= i < turns.len() ==> (#[trigger] turns[i]).4 is Pending),
    ensures
        join5_run(turns).1 is Pending,
        !(join5_run(turns).0.0 is Taken),
        !(join5_run(turns).0.1 is Taken),
        !(join5_run(turns).0.2 is Taken),
        !(join5_run(turns).0.3 is Taken),
        !(join5_run(turns).0.4 is Taken),
        (forall|i: int|
            0 <= i < turns.len() ==> (#[trigger] turns[i]).0 is Pending)
            ==> join5_run(turns).0.0 is Pending,
        (forall|i: int|
            0 <= i < turns.len() ==> (#[trigger] turns[i]).1 is Pending)
            ==> join5_run(turns).0.1 is Pending,
        (forall|i: int|
            0 <= i < turns.len() ==> (#[trigger] turns[i]).2 is Pending)
            ==> join5_run(turns).0.2 is Pending,
        (forall|i: int|
            0 <= i < turns.len() ==> (#[trigger] turns[i]).3 is Pending)
            ==> join5_run(turns).0.3 is Pending,
        (forall|i: int|
            0 <= i < turns.len() ==> (#[trigger] turns[i]).4 is Pending)
            ==> join5_run(turns).0.4 is Pending,
    decreases turns.len(),
{
    if turns.len() > 0 {
        let before = turns.drop_last();
        assert forall|i: int| 0 <= i < before.len() implies before[i] == turns[i] by {}
        lemma_join5_pending_until_all_reported(before);
    }
}

/// A join of five that has returned its values holds none, and returns
/// `Pending` whatever is reported to it afterwards: no value is returned
/// twice.
pub proof fn lemma_join5_completes_once<A, B, C, D, E>(
    slots: (Slot<A>, Slot<B>, Slot<C>, Slot<D>, Slot<E>),
    outcomes: (Poll<A>, Poll<B>, Poll<C>, Poll<D>, Poll<E>),
)
    requires
        join5_complete(slots).1 is Ready,
    ensures
        join5_complete(slots).0 == (
            Slot::<A>::Taken,
            Slot::<B>::Taken,
            Slot::<C>::Taken,
            Slot::<D>::Taken,
            Slot::<E>::Taken,
        ),
        join5_turn(join5_complete(slots).0, outcomes) == (
            join5_complete(slots).0,
            Poll::<(A, B, C, D, E)>::Pending,
        ),
{
}

/// Future for the [`join5`] function.
pub struct Join5<Fut1: Future, Fut2: Future, Fut3: Future, Fut4: Future, Fut5: Future> {
    fut1: MaybeDone<Fut1>,
    fut2: MaybeDone<Fut2>,
    fut3: MaybeDone<Fut3>,
    fut4: MaybeDone<Fut4>,
    fut5: MaybeDone<Fut5>,
}

impl<
    Fut1: Future,
    Fut2: Future,
    Fut3: Future,
    Fut4: Future,
    Fut5: Future,
> View for Join5<Fut1, Fut2, Fut3, Fut4, Fut5> {
    type V = (
        Slot<Fut1::Output>,
        Slot<Fut2::Output>,
        Slot<Fut3::Output>,
        Slot<Fut4::Output>,
        Slot<Fut5::Output>,
    );

    open spec fn view(&self) -> (
        Slot<Fut1::Output>,
        Slot<Fut2::Output>,
        Slot<Fut3::Output>,
        Slot<Fut4::Output>,
        Slot<Fut5::Output>,
    ) {
        (
            self.operands().0@,
            self.operands().1@,
            self.operands().2@,
            self.operands().3@,
            self.operands().4@,
        )
    }
}

impl<
    Fut1: Future,
    Fut2: Future,
    Fut3: Future,
    Fut4: Future,
    Fut5: Future,
> Join5<Fut1, Fut2, Fut3, Fut4, Fut5> {
    /// The operands, in the order in which they were given.
    pub closed spec fn operands(&self) -> (
        MaybeDone<Fut1>,
        MaybeDone<Fut2>,
        MaybeDone<Fut3>,
        MaybeDone<Fut4>,
        MaybeDone<Fut5>,
    ) {
        (self.fut1, self.fut2, self.fut3, self.fut4, self.fut5)
    }

    /// The join has returned its values and must not be polled again.
    pub open spec fn terminated(&self) -> bool {
        self@.0 is Taken
            || self@.1 is Taken
            || self@.2 is Taken
            || self@.3 is Taken
            || self@.4 is Taken
    }

    fn new(
        future1: Fut1,
        future2: Fut2,
        future3: Fut3,
        future4: Fut4,
        future5: Fut5,
    ) -> (r: Self)
        ensures
            r.operands() == (
                MaybeDone::Future(future1),
                MaybeDone::Future(future2),
                MaybeDone::Future(future3),
                MaybeDone::Future(future4),
                MaybeDone::Future(future5),
            ),
            r@ == (
                Slot::<Fut1::Output>::Pending,
                Slot::<Fut2::Output>::Pending,
                Slot::<Fut3::Output>::Pending,
                Slot::<Fut4::Output>::Pending,
                Slot::<Fut5::Output>::Pending,
            ),
    {
        Join5 {
            fut1: maybe_done(future1),
            fut2: maybe_done(future2),
            fut3: maybe_done(future3),
            fut4: maybe_done(future4),
            fut5: maybe_done(future5),
        }
    }

    /// True exactly when the join has returned its values.
    pub fn is_terminated(&self) -> (r: bool)
        ensures
            r == self.terminated(),
    {
        self.fut1.is_gone()
            || self.fut2.is_gone()
            || self.fut3.is_gone()
            || self.fut4.is_gone()
            || self.fut5.is_gone()
    }

    /// Returns the values of all operands, in the order of the operands, if
    /// every slot holds one, and takes each out of its slot. Returns
    /// `Pending` and changes nothing otherwise.
    pub fn complete(&mut self) -> (r: Poll<(
        Fut1::Output,
        Fut2::Output,
        Fut3::Output,
        Fut4::Output,
        Fut5::Output,
    )>)
        ensures
            (final(self)@, r) == join5_complete(old(self)@),
            r is Pending ==> *final(self) == *old(self),
    {
        if self.fut1.is_done()
            && self.fut2.is_done()
            && self.fut3.is_done()
            && self.fut4.is_done()
            && self.fut5.is_done() {
            let a = self.fut1.take_output();
            let b = self.fut2.take_output();
            let c = self.fut3.take_output();
            let d = self.fut4.take_output();
            let e = self.fut5.take_output();
            Poll::Ready((a, b, c, d, e))
        } else {
            Poll::Pending
        }
    }
}

impl<
    Fut1: Future + Unpin,
    Fut2: Future + Unpin,
    Fut3: Future + Unpin,
    Fut4: Future + Unpin,
    Fut5: Future + Unpin,
> Join5<Fut1, Fut2, Fut3, Fut4, Fut5> {
    /// One turn: polls every operand that has not reported a value yet, in
    /// the order of the operands and whatever the earlier ones answered,
    /// then completes if every operand has reported.
    ///
    /// The turn is `join5_turn` for the answers the operands gave. On `Ready`
    /// the values are those the operands reported, each in its position,
    /// and every slot is emptied. On `Pending` an operand that had reported
    /// keeps its value, and at least one has not reported.
    pub fn poll(&mut self, cx: &mut Context<'_>) -> (r: Poll<(
        Fut1::Output,
        Fut2::Output,
        Fut3::Output,
        Fut4::Output,
        Fut5::Output,
    )>)
        requires
            !old(self).terminated(),
        ensures
            exists|outcomes: (
                Poll<Fut1::Output>,
                Poll<Fut2::Output>,
                Poll<Fut3::Output>,
                Poll<Fut4::Output>,
                Poll<Fut5::Output>,
            )|
                (final(self)@, r) == #[trigger] join5_turn(old(self)@, outcomes),
            match r {
                Poll::Ready(values) => {
                    &&& old(self)@.0.advanced_to(Slot::Ready(values.0))
                    &&& old(self)@.1.advanced_to(Slot::Ready(values.1))
                    &&& old(self)@.2.advanced_to(Slot::Ready(values.2))
                    &&& old(self)@.3.advanced_to(Slot::Ready(values.3))
                    &&& old(self)@.4.advanced_to(Slot::Ready(values.4))
                    &&& final(self)@ == (
                        Slot::<Fut1::Output>::Taken,
                        Slot::<Fut2::Output>::Taken,
                        Slot::<Fut3::Output>::Taken,
                        Slot::<Fut4::Output>::Taken,
                        Slot::<Fut5::Output>::Taken,
                    )
                },
                Poll::Pending => {
                    &&& old(self)@.0.advanced_to(final(self)@.0)
                    &&& old(self)@.1.advanced_to(final(self)@.1)
                    &&& old(self)@.2.advanced_to(final(self)@.2)
                    &&& old(self)@.3.advanced_to(final(self)@.3)
                    &&& old(self)@.4.advanced_to(final(self)@.4)
                    &&& !(final(self)@.0 is Ready
                        && final(self)@.1 is Ready
                        && final(self)@.2 is Ready
                        && final(self)@.3 is Ready
                        && final(self)@.4 is Ready)
                    &&& !final(self).terminated()
                },
            },
    {
        let _ = self.fut1.poll(cx);
        let _ = self.fut2.poll(cx);
        let _ = self.fut3.poll(cx);
        let _ = self.fut4.poll(cx);
        let _ = self.fut5.poll(cx);
        proof {
            let reports = (
                self@.0.as_report(),
                self@.1.as_report(),
                self@.2.as_report(),
                self@.3.as_report(),
                self@.4.as_report(),
            );
            assert(join5_complete(self@) == join5_turn(old(self)@, reports));
        }
        self.complete()
    }
}

/// Same as [`join`], but with five futures.
///
/// The returned join holds the futures in the order given, none of them
/// polled yet, and returns their outputs in that order.
pub fn join5<Fut1: Future, Fut2: Future, Fut3: Future, Fut4: Future, Fut5: Future>(
    future1: Fut1,
    future2: Fut2,
    future3: Fut3,
    future4: Fut4,
    future5: Fut5,
) -> (r: Join5<Fut1, Fut2, Fut3, Fut4, Fut5>)
    ensures
        r.operands() == (
            MaybeDone::Future(future1),
            MaybeDone::Future(future2),
            MaybeDone::Future(future3),
            MaybeDone::Future(future4),
            MaybeDone::Future(future5),
        ),
        r@ == (
            Slot::<Fut1::Output>::Pending,
            Slot::<Fut2::Output>::Pending,
            Slot::<Fut3::Output>::Pending,
            Slot::<Fut4::Output>::Pending,
            Slot::<Fut5::Output>::Pending,
        ),
{
    Join5::new(future1, future2, future3, future4, future5)
}

} // verus!
