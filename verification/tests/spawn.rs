use async_combinators::future::maybe_done::maybe_done;
use async_combinators::task::spawn::spawn_with_handle;
use async_combinators::task::Poll;
use futures_channel::oneshot;
use futures_core::future::{FutureObj, LocalFutureObj};
use futures_core::task::{LocalSpawn, Spawn, SpawnError};
use std::future::Future;
use std::pin::Pin;
use std::rc::Rc;
use std::sync::atomic::{AtomicBool, Ordering};
use std::sync::Arc;
use std::task::{Context, Waker};

/// An executor that is shut down.
struct Refusing;

impl Spawn for Refusing {
    fn spawn_obj(&mut self, _future: FutureObj<'static, ()>) -> Result<(), SpawnError> {
        Err(SpawnError::shutdown())
    }
}

/// An executor that keeps its tasks until it is told to run them.
struct Queue {
    tasks: Vec<FutureObj<'static, ()>>,
}

impl Queue {
    /// Polls every task once and drops those that are done.
    fn turn(&mut self) {
        let mut cx = Context::from_waker(Waker::noop());
        self.tasks.retain_mut(|task| Pin::new(task).poll(&mut cx).is_pending());
    }
}

impl Spawn for Queue {
    fn spawn_obj(&mut self, future: FutureObj<'static, ()>) -> Result<(), SpawnError> {
        self.tasks.push(future);
        Ok(())
    }
}

/// A single-threaded executor that keeps its tasks.
struct LocalQueue {
    tasks: Vec<LocalFutureObj<'static, ()>>,
}

impl LocalSpawn for LocalQueue {
    fn spawn_local_obj(&mut self, future: LocalFutureObj<'static, ()>) -> Result<(), SpawnError> {
        self.tasks.push(future);
        Ok(())
    }
}

/// Reports `value` on the poll numbered `after`, sends it to the observer,
/// and records that it ran to its end.
struct Remote {
    after: u32,
    value: u32,
    sender: Option<oneshot::Sender<u32>>,
    finished: Arc<AtomicBool>,
}

impl Future for Remote {
    type Output = ();

    fn poll(mut self: Pin<&mut Self>, _cx: &mut Context<'_>) -> std::task::Poll<()> {
        if self.after > 1 {
            self.after -= 1;
            return std::task::Poll::Pending;
        }
        let sender = self.sender.take().expect("polled after it was done");
        let _ = sender.send(self.value);
        self.finished.store(true, Ordering::SeqCst);
        std::task::Poll::Ready(())
    }
}

fn remote(after: u32, value: u32) -> (Remote, oneshot::Receiver<u32>, Arc<AtomicBool>) {
    let (sender, receiver) = oneshot::channel();
    let finished = Arc::new(AtomicBool::new(false));
    (Remote { after, value, sender: Some(sender), finished: finished.clone() }, receiver, finished)
}

#[test]
fn accepted_launch_gives_the_handle() {
    let launched: Result<(), SpawnError> = Ok(());
    let handle = spawn_with_handle(launched, "handle");
    assert_eq!(handle.ok(), Some("handle"));
}

#[test]
fn refused_launch_gives_the_error_and_no_handle() {
    let launched: Result<(), SpawnError> = Err(SpawnError::shutdown());
    let handle = spawn_with_handle(launched, "handle");
    match handle {
        Ok(_) => panic!("a handle came back from a refused launch"),
        Err(error) => assert!(error.is_shutdown()),
    }
}

#[test]
fn refused_launch_drops_the_handle() {
    let observer = Rc::new(());
    let launched: Result<(), SpawnError> = Err(SpawnError::shutdown());
    let handle = spawn_with_handle(launched, observer.clone());
    assert!(handle.is_err());
    assert_eq!(Rc::strong_count(&observer), 1);
}

#[test]
fn refusing_executor_surfaces_its_error() {
    let mut executor = Refusing;
    let (task, receiver, finished) = remote(1, 42);
    let launched = executor.spawn_obj(FutureObj::new(Box::new(task)));
    let handle = spawn_with_handle(launched, receiver);
    assert!(matches!(handle, Err(ref error) if error.is_shutdown()));
    assert!(!finished.load(Ordering::SeqCst));
}

#[test]
fn handle_resolves_once_to_the_value_of_the_task() {
    let mut cx = Context::from_waker(Waker::noop());
    let mut executor = Queue { tasks: Vec::new() };
    let (task, receiver, finished) = remote(2, 42);
    let launched = executor.spawn_obj(FutureObj::new(Box::new(task)));
    let handle = spawn_with_handle(launched, receiver).expect("the executor accepted the task");
    let mut observed = maybe_done(handle);

    assert_eq!(observed.poll(&mut cx), Poll::Pending);
    executor.turn();
    assert!(!finished.load(Ordering::SeqCst));
    assert_eq!(observed.poll(&mut cx), Poll::Pending);
    executor.turn();
    assert!(finished.load(Ordering::SeqCst));
    assert!(executor.tasks.is_empty());

    assert_eq!(observed.poll(&mut cx), Poll::Ready(()));
    assert_eq!(observed.poll(&mut cx), Poll::Ready(()));
    assert_eq!(observed.take_output(), Ok(42));
    assert!(observed.is_gone());
}

#[test]
fn dropped_handle_does_not_stop_the_task() {
    let mut executor = Queue { tasks: Vec::new() };
    let (task, receiver, finished) = remote(2, 42);
    let launched = executor.spawn_obj(FutureObj::new(Box::new(task)));
    let handle = spawn_with_handle(launched, receiver).expect("the executor accepted the task");
    drop(handle);
    executor.turn();
    assert!(!finished.load(Ordering::SeqCst));
    executor.turn();
    assert!(finished.load(Ordering::SeqCst));
    assert!(executor.tasks.is_empty());
}

#[test]
fn local_launch_gives_the_handle() {
    let mut executor = LocalQueue { tasks: Vec::new() };
    let (task, receiver, _finished) = remote(1, 7);
    let launched = executor.spawn_local_obj(LocalFutureObj::new(Box::new(task)));
    let handle = spawn_with_handle(launched, receiver);
    assert!(handle.is_ok());
    assert_eq!(executor.tasks.len(), 1);
}
