//! A transport-agnostic byte pump: it turns a live duplex byte channel into
//! two decoupled, typed queues, one carrying outbound application values and
//! one carrying inbound decoded values.  Pluggable packet parsers map values
//! to wire bytes at the boundary, and a pair of worker loops moves the data.

/// Adapters store transport configurations and reference transports.
pub mod adapters;

/// Thin layer over the queue crate that the pump is built on.
pub mod channel;

/// Errors that can occur.
pub mod error;

/// Delimiter-based framing of byte streams.
pub mod framing;

/// Handler that takes care of the adapters and transforms bytes into packets.
mod framed_handler;

/// Handler that takes care of the adapters.
mod handler;

/// Fixed-layout binary records.
pub mod record;

/// Traits for implementing adapters and packet parsers.
pub mod traits;

/// The worker loops' state machine and per-iteration logic.
pub mod worker;

pub use framed_handler::FramedHandler;
pub use framed_handler::WorkerEndpoints;
pub use handler::Handler;
pub use handler::Passthrough;
