use vstd::prelude::*;

verus! {

/// Errors reported by transports, handlers and queue endpoints.
#[derive(Clone, Debug)]
pub enum Error {
    /// An I/O failure in the underlying transport, with its message.
    Io { e: String },
    /// A queue endpoint was closed, with the message of the queue error.
    Flume { e: String },
    /// A lock guarding a shared stream could not be taken.
    FailedToLockMutex,
}

impl Error {
    /// An `Io` error carrying exactly the given message.
    pub fn io(message: String) -> (r: Error)
        ensures
            r == (Error::Io { e: message }),
    {
        Error::Io { e: message }
    }
}

} // verus!
