use vstd::prelude::*;

use crate::error::Error;

verus! {

/// One live duplex byte channel to a device.
///
/// The model of a transport is two sequences.  `sent` holds every byte the
/// transport has accepted for transmission, in order; a call to `send` that
/// fails counts as having delivered nothing.  `pending` holds the chunks that
/// `recv` will hand out next, in order; where the data really comes from (a
/// wire, an echo of earlier sends) is the implementation's business.
pub trait Communication: Sized {
    /// Every byte accepted for transmission so far, in order.  An
    /// implementation that does not say otherwise models nothing as sent.
    open spec fn sent(&self) -> Seq<u8> {
        Seq::empty()
    }

    /// The chunks that `recv` will hand out next, in order.  An
    /// implementation that does not say otherwise models nothing as pending.
    open spec fn pending(&self) -> Seq<Seq<u8>> {
        Seq::empty()
    }

    /// Whether every send is accepted.  One of four optional stronger models
    /// a transport may claim of itself; each defaults to the weakest claim,
    /// and the pump's contracts sharpen where one holds.
    open spec fn sends_succeed(&self) -> bool {
        false
    }

    /// Whether every send is refused, as on a dead line.
    open spec fn sends_fail(&self) -> bool {
        false
    }

    /// Whether `recv` hands out a pending chunk whenever one is there,
    /// rather than ever answering "nothing right now".
    open spec fn recv_prompt(&self) -> bool {
        false
    }

    /// Whether the transport echoes: every chunk a send accepts is appended
    /// to `pending`, to come back out of `recv`.
    open spec fn echoes(&self) -> bool {
        false
    }

    /// Send data to a device.  On success the bytes are appended to `sent`;
    /// on failure nothing counts as delivered.
    fn send(&mut self, data: &[u8]) -> (r: Result<(), Error>)
        ensures
            r is Ok ==> final(self).sent() == old(self).sent() + data@,
            r is Err ==> final(self).sent() == old(self).sent(),
            old(self).sends_succeed() ==> r is Ok,
            old(self).sends_fail() ==> r is Err,
            old(self).echoes() && r is Ok ==> final(self).pending() == old(
                self,
            ).pending().push(data@),
            final(self).sends_succeed() == old(self).sends_succeed(),
            final(self).sends_fail() == old(self).sends_fail(),
            final(self).recv_prompt() == old(self).recv_prompt(),
            final(self).echoes() == old(self).echoes(),
    ;

    /// Receive data from a device.  `Ok(Some(data))` hands out the next
    /// pending chunk; `Ok(None)` means nothing is available right now, not an
    /// error; `Err` is an unrecoverable I/O failure.
    fn recv(&mut self) -> (r: Result<Option<Vec<u8>>, Error>)
        ensures
            final(self).sent() == old(self).sent(),
            match r {
                Ok(opt) => match opt {
                    Some(d) => old(self).pending().len() > 0
                        && d@ == old(self).pending()[0]
                        && final(self).pending() == old(self).pending().skip(1),
                    None => final(self).pending() == old(self).pending(),
                },
                Err(_) => final(self).pending() == old(self).pending(),
            },
            old(self).recv_prompt() && old(self).pending().len() > 0 ==> r matches Ok(Some(_)),
            final(self).sends_succeed() == old(self).sends_succeed(),
            final(self).sends_fail() == old(self).sends_fail(),
            final(self).recv_prompt() == old(self).recv_prompt(),
            final(self).echoes() == old(self).echoes(),
    ;
}

/// A transport that two independent workers can share through clones.
pub trait CloneableCommunication: Communication {
    /// An independent handle onto the same channel, agreeing with this one.
    fn boxed_clone(&self) -> (r: Box<Self>)
        ensures
            r.sent() == self.sent(),
            r.pending() == self.pending(),
    ;
}

/// Builds a connected transport out of a configuration.  May block while the
/// connection is set up.
pub trait CommunicationBuilder: Sized {
    /// The transport this configuration connects.
    type Output: Communication;

    /// Connect and return a ready transport; a fresh transport has sent
    /// nothing yet.
    fn build(&self) -> (r: Result<Self::Output, Error>)
        ensures
            match r {
                Ok(t) => t.sent() == Seq::<u8>::empty(),
                Err(_) => true,
            },
    ;
}

/// Connection management for a transport that can be opened and closed.
pub trait Connectable: Sized {
    /// Whether the device is currently reachable.
    spec fn is_connected(&self) -> bool;

    /// Connect to a device.
    fn connect(&mut self) -> (r: Result<bool, Error>);

    /// Disconnect from a device.
    fn disconnect(&mut self) -> (r: Result<bool, Error>);

    /// Check if the device is connected.
    fn connected(&mut self) -> (r: bool)
        ensures
            r == final(self).is_connected(),
    ;
}

} // verus!
