//! A value produced by background work on tokio's runtime, polled without
//! blocking.
use std::future::Future;
use std::pin::Pin;
use std::task::{Context, Poll, Waker};
use tokio::runtime::Handle;
use tokio::task::{JoinError, JoinHandle};
use vstd::prelude::*;

verus! {

/// `tokio::task::JoinHandle`, held opaquely.
#[verifier::external_type_specification]
#[verifier::external_body]
#[verifier::reject_recursive_types(T)]
pub struct ExJoinHandle<T>(JoinHandle<T>);

/// `tokio::task::JoinError`, carried opaquely.
#[verifier::external_type_specification]
#[verifier::external_body]
pub struct ExJoinError(JoinError);

/// `tokio::runtime::Handle`, carried opaquely.
#[verifier::external_type_specification]
#[verifier::external_body]
pub struct ExHandle(Handle);

/// Background work started on a runtime whose output has not been taken
/// yet. Only `QueuedItem::enqueue` makes one, and joining consumes it once
/// its output arrives, so its handle is never polled after completion.
#[verifier::reject_recursive_types(T)]
pub struct Task<T> {
    handle: JoinHandle<T>,
}

/// Relies on `tokio::runtime::Handle::spawn`, which starts `future` on the
/// runtime and does not panic (on a runtime that has shut down the task is
/// cancelled, which joining reports as an error).
#[verifier::external_body]
fn spawn_on<T, F>(runtime: &Handle, future: F) -> Task<T> where
    F: Future<Output = T> + Send + 'static,
    T: Send + 'static,
 {
    Task { handle: runtime.spawn(future) }
}

/// Relies on `tokio::task::JoinHandle`'s `Future::poll`, made once with a
/// waker that does nothing: the task's outcome once it has finished, else
/// the task back. The handle has not completed a poll before (a `Task`
/// holding a polled-out handle cannot exist), so the poll does not panic.
/// Whether the task has finished depends on timing: nothing is promised
/// about which comes back.
#[verifier::external_body]
fn try_join<T>(task: Task<T>) -> Result<Result<T, JoinError>, Task<T>> {
    let mut task = task;
    let mut cx = Context::from_waker(Waker::noop());
    match Pin::new(&mut task.handle).poll(&mut cx) {
        Poll::Ready(outcome) => Ok(outcome),
        Poll::Pending => Err(task),
    }
}

/// Either background work still in progress, or its value once it arrived,
/// or the record that the work failed.
#[verifier::reject_recursive_types(T)]
pub enum QueuedItem<T> {
    Generating(Task<T>),
    Ready(T),
    Failed,
}

impl<T> QueuedItem<T> {
    /// Starts `future` on `runtime`; the item is pending until it finishes.
    pub fn enqueue<F>(runtime: &Handle, future: F) -> (r: QueuedItem<T>) where
        F: Future<Output = T> + Send + 'static,
        T: Send + 'static,
        ensures
            r is Generating,
    {
        QueuedItem::Generating(spawn_on(runtime, future))
    }

    /// The item that an attempt to join gives: the task back leaves it
    /// pending, a value makes it ready, a failure marks it failed.
    pub fn settle(outcome: Result<Result<T, JoinError>, Task<T>>) -> (r: QueuedItem<T>)
        ensures
            match outcome {
                Ok(Ok(v)) => r == QueuedItem::<T>::Ready(v),
                Ok(Err(_)) => r is Failed,
                Err(task) => r == QueuedItem::<T>::Generating(task),
            },
    {
        match outcome {
            Ok(Ok(v)) => QueuedItem::Ready(v),
            Ok(Err(_)) => QueuedItem::Failed,
            Err(task) => QueuedItem::Generating(task),
        }
    }

    /// The value, once there, for the caller to use or update in place. A
    /// pending item whose work has finished is joined and becomes ready (or
    /// failed); a pending item whose work still runs stays pending and gives
    /// `None`. A ready item gives its value on every call and stays ready
    /// with whatever the caller leaves there; a failed one stays failed.
    pub fn get(&mut self) -> (r: Option<&mut T>)
        ensures
            *old(self) is Ready ==> r is Some && *r->0 == old(self)->Ready_0,
            *old(self) is Failed ==> r is None && *final(self) is Failed,
            r is None ==> *final(self) is Generating || *final(self) is Failed,
            r is Some ==> *final(self) == QueuedItem::<T>::Ready(*final(r->0)),
    {
        if let QueuedItem::Generating(_) = self {
            let mut current = QueuedItem::Failed;
            std::mem::swap(&mut current, self);
            if let QueuedItem::Generating(task) = current {
                *self = QueuedItem::settle(try_join(task));
            }
        }
        match self {
            QueuedItem::Ready(v) => Some(v),
            _ => None,
        }
    }
}

} // verus!
