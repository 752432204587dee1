use vstd::prelude::*;

verus! {

/// Where and how to connect a TCP socket transport: the address to dial and
/// the I/O timeout, in milliseconds, that keeps `send` and `recv` bounded.
#[derive(Clone, Debug)]
pub struct TcpAdapterConfiguration {
    address: String,
    timeout: u64,
}

impl TcpAdapterConfiguration {
    /// The address to dial.
    pub closed spec fn spec_address(&self) -> Seq<char> {
        self.address@
    }

    /// The I/O timeout, in milliseconds.
    pub closed spec fn spec_timeout(&self) -> u64 {
        self.timeout
    }

    /// A configuration for the given address and timeout.
    pub fn new(address: String, timeout: u64) -> (r: Self)
        ensures
            r.spec_address() == address@,
            r.spec_timeout() == timeout,
    {
        TcpAdapterConfiguration { address, timeout }
    }

    /// The address to dial.
    pub fn address(&self) -> (r: &String)
        ensures
            r@ == self.spec_address(),
    {
        &self.address
    }

    /// The I/O timeout, in milliseconds.
    pub fn timeout(&self) -> (r: u64)
        ensures
            r == self.spec_timeout(),
    {
        self.timeout
    }
}

impl Default for TcpAdapterConfiguration {
    /// An empty address and no timeout.
    fn default() -> (r: Self)
        ensures
            r.spec_address() == Seq::<char>::empty(),
            r.spec_timeout() == 0,
    {
        TcpAdapterConfiguration { address: String::new(), timeout: 0 }
    }
}

} // verus!
