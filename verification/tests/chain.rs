use async_combinators::io::chain::{has_nonempty, Chain, Source, Step};
use async_combinators::task::Poll;
use futures_io::{AsyncBufRead, AsyncRead, IoSliceMut};
use std::io;
use std::pin::Pin;
use std::task::{Context, Waker};

type Answer = Poll<Result<usize, io::Error>>;

fn answer(polled: std::task::Poll<io::Result<usize>>) -> Answer {
    match polled {
        std::task::Poll::Ready(result) => Poll::Ready(result),
        std::task::Poll::Pending => Poll::Pending,
    }
}

/// One read of the chain: polls the active source and follows the step.
fn read<T, U>(chain: &mut Chain<T, U>, cx: &mut Context<'_>, buf: &mut [u8]) -> Answer
where
    T: AsyncRead + Unpin,
    U: AsyncRead + Unpin,
{
    loop {
        let polled = match chain.active() {
            Source::First => Pin::new(chain.get_mut().0).poll_read(cx, buf),
            Source::Second => Pin::new(chain.get_mut().1).poll_read(cx, buf),
        };
        let outcome = answer(polled);
        match chain.poll_read(&outcome, buf.len()) {
            Step::Return => return outcome,
            Step::PollSecond => {}
        }
    }
}

/// One vectored read of the chain.
fn read_vectored<T, U>(
    chain: &mut Chain<T, U>,
    cx: &mut Context<'_>,
    bufs: &mut [IoSliceMut<'_>],
) -> Answer
where
    T: AsyncRead + Unpin,
    U: AsyncRead + Unpin,
{
    loop {
        let polled = match chain.active() {
            Source::First => Pin::new(chain.get_mut().0).poll_read_vectored(cx, bufs),
            Source::Second => Pin::new(chain.get_mut().1).poll_read_vectored(cx, bufs),
        };
        let outcome = answer(polled);
        let lengths: Vec<usize> = bufs.iter().map(|segment| segment.len()).collect();
        match chain.poll_read_vectored(&outcome, &lengths) {
            Step::Return => return outcome,
            Step::PollSecond => {}
        }
    }
}

/// One request for the buffer of the chain; the bytes are copied out.
fn fill<T, U>(chain: &mut Chain<T, U>, cx: &mut Context<'_>) -> Poll<Result<Vec<u8>, io::Error>>
where
    T: AsyncBufRead + Unpin,
    U: AsyncBufRead + Unpin,
{
    loop {
        let polled = match chain.active() {
            Source::First => Pin::new(chain.get_mut().0).poll_fill_buf(cx),
            Source::Second => Pin::new(chain.get_mut().1).poll_fill_buf(cx),
        };
        let (outcome, bytes) = match polled {
            std::task::Poll::Ready(Ok(bytes)) => (Poll::Ready(Ok(bytes.len())), bytes.to_vec()),
            std::task::Poll::Ready(Err(error)) => (Poll::Ready(Err(error)), Vec::new()),
            std::task::Poll::Pending => (Poll::Pending, Vec::new()),
        };
        match chain.poll_fill_buf(&outcome) {
            Step::Return => {
                return match outcome {
                    Poll::Ready(Ok(_)) => Poll::Ready(Ok(bytes)),
                    Poll::Ready(Err(error)) => Poll::Ready(Err(error)),
                    Poll::Pending => Poll::Pending,
                }
            }
            Step::PollSecond => {}
        }
    }
}

fn consume<T, U>(chain: &mut Chain<T, U>, amt: usize)
where
    T: AsyncBufRead + Unpin,
    U: AsyncBufRead + Unpin,
{
    match chain.consume(amt) {
        (Source::First, amt) => Pin::new(chain.get_mut().0).consume(amt),
        (Source::Second, amt) => Pin::new(chain.get_mut().1).consume(amt),
    }
}

fn filled(outcome: Poll<Result<Vec<u8>, io::Error>>) -> Vec<u8> {
    match outcome {
        Poll::Ready(Ok(bytes)) => bytes,
        other => panic!("the buffer was not filled: {:?}", other),
    }
}

fn bytes_read(outcome: Answer) -> usize {
    match outcome {
        Poll::Ready(Ok(n)) => n,
        other => panic!("the read did not finish: {:?}", other),
    }
}

#[test]
fn new_chain_reads_the_first_source() {
    let chain = Chain::new(1u8, 2u8);
    assert_eq!(chain.active(), Source::First);
    assert_eq!(chain.get_ref(), (&1, &2));
    assert_eq!(chain.into_inner(), (1, 2));
}

#[test]
fn get_mut_reaches_both_sources() {
    let mut chain = Chain::new(1u8, 2u8);
    {
        let (first, second) = chain.get_mut();
        *first = 10;
        *second = 20;
    }
    assert_eq!(chain.active(), Source::First);
    assert_eq!(chain.get_ref(), (&10, &20));
    assert_eq!(chain.into_inner(), (10, 20));
}

#[test]
fn end_of_first_source_moves_the_cursor() {
    let mut chain = Chain::new((), ());
    let end: Poll<Result<usize, ()>> = Poll::Ready(Ok(0));
    assert_eq!(chain.poll_read(&end, 1), Step::PollSecond);
    assert_eq!(chain.active(), Source::Second);
    assert_eq!(chain.poll_read(&end, 1), Step::Return);
    assert_eq!(chain.active(), Source::Second);
}

#[test]
fn bytes_from_the_first_source_go_to_the_caller() {
    let mut chain = Chain::new((), ());
    let some: Poll<Result<usize, ()>> = Poll::Ready(Ok(3));
    assert_eq!(chain.poll_read(&some, 8), Step::Return);
    assert_eq!(chain.active(), Source::First);
}

#[test]
fn pending_and_errors_go_to_the_caller() {
    let mut chain = Chain::new((), ());
    let pending: Poll<Result<usize, &str>> = Poll::Pending;
    let failed: Poll<Result<usize, &str>> = Poll::Ready(Err("broken"));
    assert_eq!(chain.poll_read(&pending, 8), Step::Return);
    assert_eq!(chain.poll_read(&failed, 8), Step::Return);
    assert_eq!(chain.poll_read_vectored(&pending, &[4, 4]), Step::Return);
    assert_eq!(chain.poll_read_vectored(&failed, &[4, 4]), Step::Return);
    assert_eq!(chain.poll_fill_buf(&pending), Step::Return);
    assert_eq!(chain.poll_fill_buf(&failed), Step::Return);
    assert_eq!(chain.active(), Source::First);
}

#[test]
fn empty_request_never_moves_the_cursor() {
    let mut chain = Chain::new((), ());
    let end: Poll<Result<usize, ()>> = Poll::Ready(Ok(0));
    for _ in 0..5 {
        assert_eq!(chain.poll_read(&end, 0), Step::Return);
        assert_eq!(chain.active(), Source::First);
    }
    assert_eq!(chain.poll_read_vectored(&end, &[]), Step::Return);
    assert_eq!(chain.poll_read_vectored(&end, &[0, 0, 0]), Step::Return);
    assert_eq!(chain.active(), Source::First);
}

#[test]
fn empty_read_of_real_source_keeps_the_first_source() {
    let mut cx = Context::from_waker(Waker::noop());
    let first: &[u8] = &[1, 2, 3];
    let second: &[u8] = &[4, 5];
    let mut chain = Chain::new(first, second);
    let mut nothing = [0u8; 0];
    assert_eq!(bytes_read(read(&mut chain, &mut cx, &mut nothing)), 0);
    assert_eq!(chain.active(), Source::First);
    let mut one = [0u8; 1];
    assert_eq!(bytes_read(read(&mut chain, &mut cx, &mut one)), 1);
    assert_eq!(one, [1]);
}

#[test]
fn vectored_request_with_one_nonempty_segment_moves_the_cursor() {
    let mut chain = Chain::new((), ());
    let end: Poll<Result<usize, ()>> = Poll::Ready(Ok(0));
    assert_eq!(chain.poll_read_vectored(&end, &[0, 0, 7]), Step::PollSecond);
    assert_eq!(chain.active(), Source::Second);
    assert_eq!(chain.poll_read_vectored(&end, &[0, 0, 7]), Step::Return);
}

#[test]
fn has_nonempty_finds_a_segment() {
    assert!(!has_nonempty(&[]));
    assert!(!has_nonempty(&[0]));
    assert!(!has_nonempty(&[0, 0, 0]));
    assert!(has_nonempty(&[1]));
    assert!(has_nonempty(&[0, 0, 2]));
    assert!(has_nonempty(&[3, 0, 0]));
}

#[test]
fn empty_buffer_of_first_source_moves_the_cursor() {
    let mut chain = Chain::new((), ());
    let some: Poll<Result<usize, ()>> = Poll::Ready(Ok(2));
    let none: Poll<Result<usize, ()>> = Poll::Ready(Ok(0));
    assert_eq!(chain.poll_fill_buf(&some), Step::Return);
    assert_eq!(chain.active(), Source::First);
    assert_eq!(chain.poll_fill_buf(&none), Step::PollSecond);
    assert_eq!(chain.active(), Source::Second);
    assert_eq!(chain.poll_fill_buf(&none), Step::Return);
}

#[test]
fn consume_goes_to_the_active_source() {
    let mut chain = Chain::new((), ());
    assert_eq!(chain.consume(3), (Source::First, 3));
    assert_eq!(chain.consume(0), (Source::First, 0));
    let none: Poll<Result<usize, ()>> = Poll::Ready(Ok(0));
    assert_eq!(chain.poll_fill_buf(&none), Step::PollSecond);
    assert_eq!(chain.consume(3), (Source::Second, 3));
    assert_eq!(chain.consume(usize::MAX), (Source::Second, usize::MAX));
}

#[test]
fn chain_reads_first_then_second_byte_by_byte() {
    let mut cx = Context::from_waker(Waker::noop());
    let first: &[u8] = &[1, 2, 3];
    let second: &[u8] = &[4, 5];
    let mut chain = Chain::new(first, second);
    let mut seen = Vec::new();
    let mut cursor = Vec::new();
    let mut buf = [0u8; 1];
    for _ in 0..5 {
        assert_eq!(bytes_read(read(&mut chain, &mut cx, &mut buf)), 1);
        seen.push(buf[0]);
        cursor.push(chain.active());
    }
    assert_eq!(seen, [1, 2, 3, 4, 5]);
    assert_eq!(
        cursor,
        [Source::First, Source::First, Source::First, Source::Second, Source::Second]
    );
    assert_eq!(bytes_read(read(&mut chain, &mut cx, &mut buf)), 0);
    assert_eq!(chain.active(), Source::Second);
    let (first, second) = chain.into_inner();
    assert!(first.is_empty());
    assert!(second.is_empty());
}

#[test]
fn chain_reads_vectored_across_the_boundary() {
    let mut cx = Context::from_waker(Waker::noop());
    let first: &[u8] = &[1, 2, 3];
    let second: &[u8] = &[4, 5, 6];
    let mut chain = Chain::new(first, second);

    let mut head = [0u8; 2];
    let mut tail = [0u8; 2];
    let n = {
        let mut bufs = [IoSliceMut::new(&mut head), IoSliceMut::new(&mut tail)];
        bytes_read(read_vectored(&mut chain, &mut cx, &mut bufs))
    };
    assert_eq!(n, 3);
    assert_eq!((head, tail[0]), ([1, 2], 3));
    assert_eq!(chain.active(), Source::First);

    let mut head = [0u8; 2];
    let mut tail = [0u8; 2];
    let n = {
        let mut bufs = [IoSliceMut::new(&mut head), IoSliceMut::new(&mut tail)];
        bytes_read(read_vectored(&mut chain, &mut cx, &mut bufs))
    };
    assert_eq!(n, 3);
    assert_eq!((head, tail[0]), ([4, 5], 6));
    assert_eq!(chain.active(), Source::Second);
}

#[test]
fn chain_with_empty_first_source_reads_the_second_at_once() {
    let mut cx = Context::from_waker(Waker::noop());
    let first: &[u8] = &[];
    let second: &[u8] = &[9, 8];
    let mut chain = Chain::new(first, second);
    let mut buf = [0u8; 4];
    assert_eq!(bytes_read(read(&mut chain, &mut cx, &mut buf)), 2);
    assert_eq!(&buf[..2], &[9, 8]);
    assert_eq!(chain.active(), Source::Second);
}

#[test]
fn chain_fills_and_consumes_across_the_boundary() {
    let mut cx = Context::from_waker(Waker::noop());
    let first: &[u8] = &[1, 2, 3];
    let second: &[u8] = &[4, 5];
    let mut chain = Chain::new(first, second);

    assert_eq!(filled(fill(&mut chain, &mut cx)), vec![1, 2, 3]);
    consume(&mut chain, 2);
    assert_eq!(filled(fill(&mut chain, &mut cx)), vec![3]);
    assert_eq!(chain.active(), Source::First);
    consume(&mut chain, 1);
    assert_eq!(filled(fill(&mut chain, &mut cx)), vec![4, 5]);
    assert_eq!(chain.active(), Source::Second);
    consume(&mut chain, 2);
    assert_eq!(filled(fill(&mut chain, &mut cx)), Vec::<u8>::new());
    assert_eq!(chain.into_inner(), (&[][..], &[][..]));
}
