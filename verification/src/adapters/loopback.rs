//! Reference in-memory transports.
//!
//! These connect nothing: they satisfy the transport capability over plain
//! buffers, so the pump around them can be exercised, in proofs and in
//! tests, without a device on the other end.

use vstd::prelude::*;

use crate::error::Error;
use crate::framing::push_bytes;
use crate::traits::CloneableCommunication;
use crate::traits::Communication;
use crate::traits::CommunicationBuilder;
use vstd::string::StringExecFns;

verus! {

/// A transport that records every byte it is told to send and never has
/// anything to hand out.
pub struct LoopbackTransport {
    log: Vec<u8>,
}

impl LoopbackTransport {
    /// A fresh loopback transport with an empty log.
    pub fn new() -> (r: Self)
        ensures
            r.sent() == Seq::<u8>::empty(),
    {
        LoopbackTransport { log: Vec::new() }
    }

    /// The bytes accepted for transmission so far, in order.
    pub fn taken(&self) -> (r: &Vec<u8>)
        ensures
            r@ == self.sent(),
    {
        &self.log
    }
}

impl Communication for LoopbackTransport {
    closed spec fn sent(&self) -> Seq<u8> {
        self.log@
    }

    closed spec fn pending(&self) -> Seq<Seq<u8>> {
        Seq::empty()
    }

    open spec fn sends_succeed(&self) -> bool {
        true
    }

    fn send(&mut self, data: &[u8]) -> (r: Result<(), Error>)
        ensures
            r is Ok,
    {
        push_bytes(&mut self.log, data);
        Ok(())
    }

    fn recv(&mut self) -> (r: Result<Option<Vec<u8>>, Error>)
        ensures
            r is Ok,
    {
        Ok(None)
    }
}

impl CloneableCommunication for LoopbackTransport {
    fn boxed_clone(&self) -> (r: Box<Self>) {
        Box::new(LoopbackTransport { log: vstd::slice::slice_to_vec(self.log.as_slice()) })
    }
}

/// Configuration of a loopback transport: there is nothing to configure, and
/// building never fails.
pub struct LoopbackConfig;

impl CommunicationBuilder for LoopbackConfig {
    type Output = LoopbackTransport;

    fn build(&self) -> (r: Result<LoopbackTransport, Error>)
        ensures
            r is Ok,
    {
        Ok(LoopbackTransport::new())
    }
}

/// A transport that hands back on `recv` exactly what was written to it:
/// each sent chunk comes out once, in write order.
pub struct EchoTransport {
    log: Vec<u8>,
    queue: Vec<Vec<u8>>,
}

impl EchoTransport {
    /// A fresh echo transport with nothing written yet.
    pub fn new() -> (r: Self)
        ensures
            r.sent() == Seq::<u8>::empty(),
            r.pending() == Seq::<Seq<u8>>::empty(),
    {
        EchoTransport { log: Vec::new(), queue: Vec::new() }
    }
}

impl Communication for EchoTransport {
    closed spec fn sent(&self) -> Seq<u8> {
        self.log@
    }

    closed spec fn pending(&self) -> Seq<Seq<u8>> {
        self.queue@.map_values(|v: Vec<u8>| v@)
    }

    open spec fn sends_succeed(&self) -> bool {
        true
    }

    open spec fn recv_prompt(&self) -> bool {
        true
    }

    open spec fn echoes(&self) -> bool {
        true
    }

    fn send(&mut self, data: &[u8]) -> (r: Result<(), Error>)
        ensures
            r is Ok,
            final(self).pending() == old(self).pending().push(data@),
    {
        push_bytes(&mut self.log, data);
        let chunk = vstd::slice::slice_to_vec(data);
        self.queue.push(chunk);
        proof {
            assert(self.queue@.map_values(|v: Vec<u8>| v@) =~= old(self).queue@.map_values(
                |v: Vec<u8>| v@,
            ).push(data@));
        }
        Ok(())
    }

    fn recv(&mut self) -> (r: Result<Option<Vec<u8>>, Error>)
        ensures
            r is Ok,
            old(self).pending().len() > 0 ==> r matches Ok(Some(_)),
    {
        if self.queue.len() == 0 {
            Ok(None)
        } else {
            let chunk = self.queue.remove(0);
            proof {
                assert(old(self).queue@.map_values(|v: Vec<u8>| v@)[0] == chunk@);
                assert(self.queue@.map_values(|v: Vec<u8>| v@) =~= old(self).queue@.map_values(
                    |v: Vec<u8>| v@,
                ).skip(1));
            }
            Ok(Some(chunk))
        }
    }
}

/// A transport whose incoming chunks are scripted in advance, and whose
/// sends can be made to fail on every call: one side of a pump can be driven
/// into failure while the other stays healthy.
pub struct ScriptedTransport {
    incoming: Vec<Vec<u8>>,
    fail_sends: bool,
    log: Vec<u8>,
}

impl ScriptedTransport {
    /// A transport that will hand out the given chunks in order, and whose
    /// sends all fail when `fail_sends` is set.
    pub fn new(incoming: Vec<Vec<u8>>, fail_sends: bool) -> (r: Self)
        ensures
            r.pending() == incoming@.map_values(|v: Vec<u8>| v@),
            r.sent() == Seq::<u8>::empty(),
            r.sends_fail() == fail_sends,
            r.sends_succeed() == !fail_sends,
            r.recv_prompt(),
    {
        ScriptedTransport { incoming, fail_sends, log: Vec::new() }
    }

    /// The bytes accepted for transmission so far, in order.
    pub fn taken(&self) -> (r: &Vec<u8>)
        ensures
            r@ == self.sent(),
    {
        &self.log
    }
}

impl Communication for ScriptedTransport {
    closed spec fn sent(&self) -> Seq<u8> {
        self.log@
    }

    closed spec fn pending(&self) -> Seq<Seq<u8>> {
        self.incoming@.map_values(|v: Vec<u8>| v@)
    }

    closed spec fn sends_succeed(&self) -> bool {
        !self.fail_sends
    }

    closed spec fn sends_fail(&self) -> bool {
        self.fail_sends
    }

    open spec fn recv_prompt(&self) -> bool {
        true
    }

    fn send(&mut self, data: &[u8]) -> (r: Result<(), Error>)
        ensures
            r is Err <==> old(self).sends_fail(),
            final(self).pending() == old(self).pending(),
    {
        if self.fail_sends {
            Err(Error::io(String::from_str("scripted send failure")))
        } else {
            push_bytes(&mut self.log, data);
            Ok(())
        }
    }

    fn recv(&mut self) -> (r: Result<Option<Vec<u8>>, Error>)
        ensures
            r is Ok,
            old(self).pending().len() > 0 ==> r matches Ok(Some(_)),
    {
        if self.incoming.len() == 0 {
            Ok(None)
        } else {
            let chunk = self.incoming.remove(0);
            proof {
                assert(old(self).incoming@.map_values(|v: Vec<u8>| v@)[0] == chunk@);
                assert(self.incoming@.map_values(|v: Vec<u8>| v@) =~= old(
                    self,
                ).incoming@.map_values(|v: Vec<u8>| v@).skip(1));
            }
            Ok(Some(chunk))
        }
    }
}

} // verus!
