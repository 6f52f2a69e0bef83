//! Two byte sources read one after the other.
//!
//! A [`Chain`] owns both sources and the cursor that says which of them is
//! being read. It does not read: whoever drives it polls the source that
//! [`Chain::active`] names and hands the answer to the method named after
//! the read it made, which says whether the answer goes to the caller or
//! the second source is to be polled at once, within the same call.

use crate::task::Poll;
use vstd::prelude::*;

verus! {

/// One of the two sources of a chain.
#[derive(Debug, Clone, Copy, PartialEq, Eq)]
pub enum Source {
    /// The source that is read until it is exhausted.
    First,
    /// The source that is read from then on.
    Second,
}

/// What to do with the answer of the source that was just polled.
#[derive(Debug, Clone, Copy, PartialEq, Eq)]
pub enum Step {
    /// Hand the answer to the caller as it is.
    Return,
    /// The first source is exhausted: drop the answer and poll the second
    /// source now, before returning to the caller.
    PollSecond,
}

/// The answer says that a source has no more data: a finished read of zero
/// bytes.
pub open spec fn reports_end<E>(outcome: Poll<Result<usize, E>>) -> bool {
    outcome matches Poll::Ready(Ok(n)) && n == 0
}

/// There is a segment of non-zero length.
pub open spec fn any_nonempty(segments: Seq<usize>) -> bool {
    exists|i: int| 0 <= i < segments.len() && segments[i] > 0
}

/// The cursor and the step after the active source answered a read for
/// which the caller asked for bytes (`wanted`) or for none.
///
/// Only the first source can be found exhausted, and only by a finished
/// read of zero bytes where some were asked for.
pub open spec fn read_step<E>(done_first: bool, outcome: Poll<Result<usize, E>>, wanted: bool) -> (
    bool,
    Step,
) {
    if !done_first && wanted && reports_end(outcome) {
        (true, Step::PollSecond)
    } else {
        (done_first, Step::Return)
    }
}

/// One whole read of a chain: the cursor afterwards and what the caller
/// gets, given what the first source answers if it is polled and what the
/// second answers if it is.
///
/// The first source is polled while the cursor is on it; if it is found
/// exhausted, the second is polled in the same call and its answer is the
/// caller's. Once the cursor is on the second source, only that one is
/// polled.
pub open spec fn chain_read<E>(
    done_first: bool,
    first: Poll<Result<usize, E>>,
    second: Poll<Result<usize, E>>,
    wanted: bool,
) -> (bool, Poll<Result<usize, E>>) {
    if done_first {
        (true, second)
    } else if wanted && reports_end(first) {
        (true, second)
    } else {
        (false, first)
    }
}

/// The cursor and the step after a fresh chain has seen `answers`, each
/// with whether bytes were asked for, one after the other.
pub open spec fn read_run<E>(answers: Seq<(Poll<Result<usize, E>>, bool)>) -> (bool, Step)
    decreases answers.len(),
{
    if answers.len() == 0 {
        (false, Step::Return)
    } else {
        read_step(read_run(answers.drop_last()).0, answers.last().0, answers.last().1)
    }
}

/// Polling the active source and following the step is one whole read:
/// where the step is `Return` the answer is the caller's, and where it is
/// `PollSecond` the answer of the second source, polled next, is returned
/// at once.
pub proof fn lemma_steps_make_a_read<E>(
    done_first: bool,
    first: Poll<Result<usize, E>>,
    second: Poll<Result<usize, E>>,
    wanted: bool,
)
    ensures
        ({
            let active = if done_first {
                second
            } else {
                first
            };
            let (cursor, step) = read_step(done_first, active, wanted);
            match step {
                Step::Return => chain_read(done_first, first, second, wanted) == (cursor, active),
                Step::PollSecond => {
                    &&& cursor
                    &&& read_step(cursor, second, wanted) == (true, Step::Return)
                    &&& chain_read(done_first, first, second, wanted) == (true, second)
                },
            }
        }),
{
}

/// The cursor moves at most once, and never back: after an answer that
/// moved it, every later answer goes to the caller with the cursor on the
/// second source.
pub proof fn lemma_cursor_moves_once<E>(answers: Seq<(Poll<Result<usize, E>>, bool)>, moved: int)
    requires
        0 < moved <= answers.len(),
        read_run(answers.take(moved)).1 == Step::PollSecond,
    ensures
        forall|n: int|
            moved < n <= answers.len() ==> #[trigger] read_run(answers.take(n)) == (
                true,
                Step::Return,
            ),
        forall|n: int|
            0 <= n < moved ==> (#[trigger] read_run(answers.take(n))) == (false, Step::Return),
{
    assert forall|n: int| moved < n <= answers.len() implies #[trigger] read_run(answers.take(n))
        == (true, Step::Return) by {
        lemma_cursor_stays(answers, moved, n - 1);
        assert(answers.take(n).drop_last() =~= answers.take(n - 1));
    }
    assert forall|n: int| 0 <= n < moved implies (#[trigger] read_run(answers.take(n))) == (
        false,
        Step::Return,
    ) by {
        lemma_cursor_not_yet(answers, moved, n);
    }
}

proof fn lemma_cursor_stays<E>(answers: Seq<(Poll<Result<usize, E>>, bool)>, moved: int, n: int)
    requires
        0 < moved <= n <= answers.len(),
        read_run(answers.take(moved)).1 == Step::PollSecond,
    ensures
        read_run(answers.take(n)).0,
    decreases n - moved,
{
    if n > moved {
        lemma_cursor_stays(answers, moved, n - 1);
        assert(answers.take(n).drop_last() =~= answers.take(n - 1));
    }
}

proof fn lemma_cursor_not_yet<E>(answers: Seq<(Poll<Result<usize, E>>, bool)>, moved: int, n: int)
    requires
        0 <= n < moved <= answers.len(),
        read_run(answers.take(moved)).1 == Step::PollSecond,
    ensures
        read_run(answers.take(n)) == (false, Step::Return),
    decreases moved - n,
{
    assert(answers.take(n + 1).drop_last() =~= answers.take(n));
    if n + 1 < moved {
        lemma_cursor_not_yet(answers, moved, n + 1);
    }
}

/// A chain that is only ever asked for no bytes stays on its first source.
pub proof fn lemma_empty_reads_keep_cursor<E>(answers: Seq<(Poll<Result<usize, E>>, bool)>)
    requires
        forall|i: int| 0 <= i < answers.len() ==> !(#[trigger] answers[i]).1,
    ensures
        read_run(answers) == (false, Step::Return),
    decreases answers.len(),
{
    if answers.len() > 0 {
        let before = answers.drop_last();
        assert forall|i: int| 0 <= i < before.len() implies !(#[trigger] before[i]).1 by {
            assert(before[i] == answers[i]);
        }
        lemma_empty_reads_keep_cursor(before);
    }
}

/// Stream for two sources read in sequence.
pub struct Chain<T, U> {
    first: T,
    second: U,
    done_first: bool,
}

impl<T, U> Chain<T, U> {
    /// The first source.
    pub closed spec fn first(&self) -> T {
        self.first
    }

    /// The second source.
    pub closed spec fn second(&self) -> U {
        self.second
    }

    /// The first source was found exhausted; the second is being read.
    pub closed spec fn done_first(&self) -> bool {
        self.done_first
    }

    /// A chain that reads `first`, then `second`.
    pub fn new(first: T, second: U) -> (r: Self)
        ensures
            r.first() == first,
            r.second() == second,
            !r.done_first(),
    {
        Chain { first, second, done_first: false }
    }

    /// Consumes the `Chain`, returning the wrapped readers.
    pub fn into_inner(self) -> (r: (T, U))
        ensures
            r == (self.first(), self.second()),
    {
        (self.first, self.second)
    }

    /// Gets references to the underlying readers in this `Chain`.
    pub fn get_ref(&self) -> (r: (&T, &U))
        ensures
            *r.0 == self.first(),
            *r.1 == self.second(),
    {
        (&self.first, &self.second)
    }

    /// Gets mutable references to the underlying readers in this `Chain`.
    ///
    /// What the caller does to the readers through them is what the chain
    /// holds afterwards; the cursor stays where it is. Reading from a
    /// reader here, behind the chain's back, is the caller's business.
    pub fn get_mut(&mut self) -> (r: (&mut T, &mut U))
        ensures
            *r.0 == old(self).first(),
            *r.1 == old(self).second(),
            final(self).first() == *final(r.0),
            final(self).second() == *final(r.1),
            final(self).done_first() == old(self).done_first(),
    {
        (&mut self.first, &mut self.second)
    }

    /// The source to poll for the next read, fill or consume: the first
    /// until it was found exhausted, the second from then on.
    pub fn active(&self) -> (r: Source)
        ensures
            r == if self.done_first() {
                Source::Second
            } else {
                Source::First
            },
    {
        if self.done_first {
            Source::Second
        } else {
            Source::First
        }
    }

    /// Takes the answer of the active source to a read into a buffer of
    /// `requested` bytes.
    ///
    /// While the first source is active, a finished read of zero bytes into
    /// a buffer that is not empty moves the cursor to the second source and
    /// asks for it to be polled at once. Every other answer, from either
    /// source, goes to the caller. A read into an empty buffer never moves
    /// the cursor, and nothing moves it back.
    pub fn poll_read<E>(&mut self, outcome: &Poll<Result<usize, E>>, requested: usize) -> (r: Step)
        ensures
            (final(self).done_first(), r) == read_step(
                old(self).done_first(),
                *outcome,
                requested > 0,
            ),
            final(self).first() == old(self).first(),
            final(self).second() == old(self).second(),
            old(self).done_first() ==> final(self).done_first() && r == Step::Return,
            requested == 0 ==> final(self).done_first() == old(self).done_first(),
            r == Step::PollSecond ==> !old(self).done_first() && final(self).done_first(),
    {
        self.step(outcome, requested > 0)
    }

    /// Takes the answer of the active source to a vectored read into
    /// segments of the lengths `segments`.
    ///
    /// As `poll_read`, where bytes were asked for if any segment is not
    /// empty.
    pub fn poll_read_vectored<E>(
        &mut self,
        outcome: &Poll<Result<usize, E>>,
        segments: &[usize],
    ) -> (r: Step)
        ensures
            (final(self).done_first(), r) == read_step(
                old(self).done_first(),
                *outcome,
                any_nonempty(segments@),
            ),
            final(self).first() == old(self).first(),
            final(self).second() == old(self).second(),
            old(self).done_first() ==> final(self).done_first() && r == Step::Return,
            !any_nonempty(segments@) ==> final(self).done_first() == old(self).done_first(),
            r == Step::PollSecond ==> !old(self).done_first() && final(self).done_first(),
    {
        let wanted = has_nonempty(segments);
        self.step(outcome, wanted)
    }

    /// Takes the answer of the active source to a request for its buffer,
    /// with the length of the buffer in place of the buffer.
    ///
    /// While the first source is active, an empty buffer moves the cursor
    /// to the second source and asks for it to be polled at once. Every
    /// other answer, from either source, goes to the caller.
    pub fn poll_fill_buf<E>(&mut self, outcome: &Poll<Result<usize, E>>) -> (r: Step)
        ensures
            (final(self).done_first(), r) == read_step(old(self).done_first(), *outcome, true),
            final(self).first() == old(self).first(),
            final(self).second() == old(self).second(),
            old(self).done_first() ==> final(self).done_first() && r == Step::Return,
            r == Step::PollSecond ==> !old(self).done_first() && final(self).done_first(),
    {
        self.step(outcome, true)
    }

    /// The source that is told that `amt` bytes were consumed, and the
    /// number it is told: the active source, and all of `amt`.
    pub fn consume(&self, amt: usize) -> (r: (Source, usize))
        ensures
            r.0 == if self.done_first() {
                Source::Second
            } else {
                Source::First
            },
            r.1 == amt,
    {
        (self.active(), amt)
    }

    fn step<E>(&mut self, outcome: &Poll<Result<usize, E>>, wanted: bool) -> (r: Step)
        ensures
            (final(self).done_first(), r) == read_step(old(self).done_first(), *outcome, wanted),
            final(self).first() == old(self).first(),
            final(self).second() == old(self).second(),
    {
        if self.done_first || !wanted {
            return Step::Return;
        }
        match outcome {
            Poll::Ready(Ok(n)) => {
                if *n == 0 {
                    self.done_first = true;
                    Step::PollSecond
                } else {
                    Step::Return
                }
            },
            _ => Step::Return,
        }
    }
}

/// True exactly when a segment has a non-zero length.
pub fn has_nonempty(segments: &[usize]) -> (r: bool)
    ensures
        r == any_nonempty(segments@),
{
    let mut i: usize = 0;
    while i < segments.len()
        invariant
            i <= segments.len(),
            forall|j: int| 0 <= j < i ==> segments[j] == 0,
        decreases segments.len() - i,
    {
        if segments[i] > 0 {
            return true;
        }
        i += 1;
    }
    false
}

} // verus!
