/// Bluetooth configuration, errors and UUID helpers.
pub mod bluetooth;

/// Reference in-memory transports.
pub mod loopback;

/// TCP socket configuration.
pub mod tcp;

/// Serial-line configuration.
pub mod uart;
