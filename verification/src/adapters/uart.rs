use vstd::prelude::*;

verus! {

/// Number of data bits per character on the serial line.
#[derive(Clone, Copy, Debug, PartialEq, Eq, Structural)]
pub enum CharSize {
    /// Five data bits.
    Bits5,
    /// Six data bits.
    Bits6,
    /// Seven data bits.
    Bits7,
    /// Eight data bits.
    Bits8,
}

/// Number of stop bits after each character.
#[derive(Clone, Copy, Debug, PartialEq, Eq, Structural)]
pub enum StopBits {
    /// One stop bit.
    One,
    /// Two stop bits.
    Two,
}

/// Parity check on each character.
#[derive(Clone, Copy, Debug, PartialEq, Eq, Structural)]
pub enum Parity {
    /// No parity bit.
    Off,
    /// Odd parity.
    Odd,
    /// Even parity.
    Even,
}

/// Flow control on the serial line.
#[derive(Clone, Copy, Debug, PartialEq, Eq, Structural)]
pub enum FlowControl {
    /// No flow control.
    Off,
    /// Hardware flow control.
    RtsCts,
    /// Software flow control.
    XonXoff,
}

/// How to open and configure a serial-line transport.  The read timeout, in
/// milliseconds, keeps `recv` bounded, which is what makes termination of
/// the pump timely.
#[derive(Clone, Debug)]
pub struct UartAdapterConfiguration {
    /// The device path of the serial port.
    pub port: String,
    /// The line speed, in baud.
    pub baud_rate: u32,
    /// Data bits per character.
    pub char_size: CharSize,
    /// Stop bits after each character.
    pub stop_bits: StopBits,
    /// Parity check.
    pub parity: Parity,
    /// Flow control.
    pub flow_control: FlowControl,
    /// The bound on one blocking read, in milliseconds.
    pub read_timeout_ms: u64,
}

impl UartAdapterConfiguration {
    /// A configuration for the given port, with every other setting at its
    /// default.
    pub fn new(port: String) -> (r: Self)
        ensures
            r.port@ == port@,
            r.baud_rate == 115200,
            r.char_size == CharSize::Bits8,
            r.stop_bits == StopBits::One,
            r.parity == Parity::Off,
            r.flow_control == FlowControl::Off,
            r.read_timeout_ms == 10,
    {
        let d = Self::default();
        UartAdapterConfiguration {
            port,
            baud_rate: d.baud_rate,
            char_size: d.char_size,
            stop_bits: d.stop_bits,
            parity: d.parity,
            flow_control: d.flow_control,
            read_timeout_ms: d.read_timeout_ms,
        }
    }
}

impl Default for UartAdapterConfiguration {
    /// No port, eight data bits, one stop bit, no parity, no flow control,
    /// 115200 baud and a ten-millisecond read timeout.
    fn default() -> (r: Self)
        ensures
            r.port@ == Seq::<char>::empty(),
            r.baud_rate == 115200,
            r.char_size == CharSize::Bits8,
            r.stop_bits == StopBits::One,
            r.parity == Parity::Off,
            r.flow_control == FlowControl::Off,
            r.read_timeout_ms == 10,
    {
        UartAdapterConfiguration {
            port: String::new(),
            baud_rate: 115200,
            char_size: CharSize::Bits8,
            stop_bits: StopBits::One,
            parity: Parity::Off,
            flow_control: FlowControl::Off,
            read_timeout_ms: 10,
        }
    }
}

} // verus!
