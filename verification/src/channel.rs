//! Thin trusted layer over the queue crate.
//!
//! The queues are unbounded, ordered and multi-producer/multi-consumer, and
//! their endpoints are cloned freely across threads.  Because any number of
//! other handles may enqueue and dequeue between two calls made here, no
//! contract can pin down what a queue holds; each function states only what
//! holds of every outcome, and the verified callers take whatever comes back
//! as an argument to exactly specified logic.

use vstd::prelude::*;

use crate::error::Error;

verus! {

/// What waiting on a queue endpoint yielded.
pub enum Fetched<T> {
    /// A value arrived.
    Item(T),
    /// Nothing arrived: the queue was empty, or stayed empty until the
    /// timeout passed.
    Nothing,
    /// Every sender of the queue is gone and it holds nothing more.
    Closed,
}

#[verifier::external_type_specification]
#[verifier::external_body]
#[verifier::reject_recursive_types(T)]
pub struct ExSender<T>(flume::Sender<T>);

#[verifier::external_type_specification]
#[verifier::external_body]
#[verifier::reject_recursive_types(T)]
pub struct ExReceiver<T>(flume::Receiver<T>);

/// Relies on flume::unbounded: the two endpoints of a fresh unbounded queue.
#[verifier::external_body]
pub(crate) fn channel_pair<T>() -> (flume::Sender<T>, flume::Receiver<T>) {
    flume::unbounded()
}

/// Relies on Clone for flume::Sender: another handle onto the same queue.
#[verifier::external_body]
pub(crate) fn clone_sender<T>(tx: &flume::Sender<T>) -> flume::Sender<T> {
    tx.clone()
}

/// Relies on Clone for flume::Receiver: another handle onto the same queue.
#[verifier::external_body]
pub(crate) fn clone_receiver<T>(rx: &flume::Receiver<T>) -> flume::Receiver<T> {
    rx.clone()
}

/// Relies on flume::Sender::send: enqueues the value, failing exactly when
/// every receiver is gone; an unbounded queue never blocks.
#[verifier::external_body]
pub(crate) fn channel_send<T>(tx: &flume::Sender<T>, value: T) -> Result<(), Error> {
    match tx.send(value) {
        Ok(()) => Ok(()),
        Err(e) => Err(Error::Flume { e: format!("{}", e) }),
    }
}

/// Relies on flume::Receiver::drain: every value sitting in the queue right
/// now, in queue order, and nothing more.
#[verifier::external_body]
pub(crate) fn drain_channel<T>(rx: &flume::Receiver<T>) -> Vec<T> {
    rx.drain().collect()
}

/// Relies on flume::Receiver::try_recv: the next queued value without
/// waiting; one arm per outcome.
#[verifier::external_body]
pub(crate) fn poll_channel<T>(rx: &flume::Receiver<T>) -> Fetched<T> {
    match rx.try_recv() {
        Ok(v) => Fetched::Item(v),
        Err(flume::TryRecvError::Empty) => Fetched::Nothing,
        Err(flume::TryRecvError::Disconnected) => Fetched::Closed,
    }
}

/// Relies on flume::Receiver::recv_timeout: waits up to the given number of
/// milliseconds for a value; one arm per outcome.
#[verifier::external_body]
pub(crate) fn wait_on_channel<T>(rx: &flume::Receiver<T>, timeout_ms: u64) -> Fetched<T> {
    match rx.recv_timeout(core::time::Duration::from_millis(timeout_ms)) {
        Ok(v) => Fetched::Item(v),
        Err(flume::RecvTimeoutError::Timeout) => Fetched::Nothing,
        Err(flume::RecvTimeoutError::Disconnected) => Fetched::Closed,
    }
}

} // verus!
