use vstd::prelude::*;

use crate::channel;
use crate::error::Error;
use crate::traits::PacketParser;

verus! {

/// The application-facing half of one pump: a handle for enqueuing outbound
/// values, a handle for dequeuing inbound decoded values, one packet parser
/// per direction, and the termination signal.
///
/// `I` and `R` are the inbound value type and its parser; `J` and `T` the
/// outbound value type and its parser, so the two wire representations may
/// differ.  Construction wires the queues; the two workers run the loops on
/// whatever execution context the application provides, taking their
/// endpoints from the accompanying [`WorkerEndpoints`].
#[verifier::reject_recursive_types(I)]
#[verifier::reject_recursive_types(J)]
pub struct FramedHandler<I: View, R: PacketParser<I>, J: View, T: PacketParser<J>> {
    /// Senders used to terminate the two worker loops.
    terminate_write_tx: flume::Sender<()>,
    terminate_read_tx: flume::Sender<()>,
    /// Receiver that receives data from the outer world.
    receive_rx: flume::Receiver<I>,
    /// Sender used to send data from the application.
    send_tx: flume::Sender<J>,
    /// Packet parser used for parsing incoming bytes.
    packet_parser_incoming: R,
    /// Packet parser used for generating outgoing bytes.
    packet_parser_outgoing: T,
}

/// The queue endpoints the two workers of one pump take.
#[verifier::reject_recursive_types(I)]
#[verifier::reject_recursive_types(J)]
pub struct WorkerEndpoints<I, J> {
    /// Where the write worker drains outbound values from.
    pub outbound_rx: flume::Receiver<J>,
    /// Where the read worker delivers inbound decoded values.
    pub inbound_tx: flume::Sender<I>,
    /// The write worker's view of the termination signal.
    pub terminate_write_rx: flume::Receiver<()>,
    /// The read worker's view of the termination signal.
    pub terminate_read_rx: flume::Receiver<()>,
}

impl<I: View, R: PacketParser<I>, J: View, T: PacketParser<J>> FramedHandler<I, R, J, T> {
    /// The handler-held incoming parser.
    pub closed spec fn incoming_parser(&self) -> R {
        self.packet_parser_incoming
    }

    /// The handler-held outgoing parser.
    pub closed spec fn outgoing_parser(&self) -> T {
        self.packet_parser_outgoing
    }

    /// Wire up one pump: a fresh outbound queue, a fresh inbound queue, one
    /// termination signal per worker, and one packet parser per direction.
    /// The handler comes with the endpoints its two workers take.
    pub fn new() -> (r: (FramedHandler<I, R, J, T>, WorkerEndpoints<I, J>))
        ensures
            r.0.incoming_parser().buffered() == Seq::<u8>::empty(),
            r.0.outgoing_parser().buffered() == Seq::<u8>::empty(),
    {
        let (send_tx, send_rx) = channel::channel_pair::<J>();
        let (receive_tx, receive_rx) = channel::channel_pair::<I>();
        let (terminate_write_tx, terminate_write_rx) = channel::channel_pair::<()>();
        let (terminate_read_tx, terminate_read_rx) = channel::channel_pair::<()>();
        let packet_parser_incoming = R::new();
        let packet_parser_outgoing = T::new();
        (
            FramedHandler {
                terminate_write_tx,
                terminate_read_tx,
                receive_rx,
                send_tx,
                packet_parser_incoming,
                packet_parser_outgoing,
            },
            WorkerEndpoints {
                outbound_rx: send_rx,
                inbound_tx: receive_tx,
                terminate_write_rx,
                terminate_read_rx,
            },
        )
    }

    /// Publish the termination signal, once to each worker.  This does not
    /// block on worker completion; each worker observes the signal at its
    /// next iteration boundary.  `Ok` when at least one worker could still
    /// observe the signal.
    pub fn terminate(self) -> (r: Result<(), Error>) {
        let to_write = channel::channel_send(&self.terminate_write_tx, ());
        let to_read = channel::channel_send(&self.terminate_read_tx, ());
        match to_write {
            Ok(_) => Ok(()),
            Err(e) => match to_read {
                Ok(_) => Ok(()),
                Err(_) => Err(e),
            },
        }
    }

    /// Get the incoming packet parser.
    pub fn get_incoming_packet_parser(&mut self) -> (r: &mut R)
        ensures
            *r == old(self).incoming_parser(),
            final(self).incoming_parser() == *final(r),
            final(self).outgoing_parser() == old(self).outgoing_parser(),
    {
        &mut self.packet_parser_incoming
    }

    /// Get the outgoing packet parser.
    pub fn get_outgoing_packet_parser(&mut self) -> (r: &mut T)
        ensures
            *r == old(self).outgoing_parser(),
            final(self).outgoing_parser() == *final(r),
            final(self).incoming_parser() == old(self).incoming_parser(),
    {
        &mut self.packet_parser_outgoing
    }

    /// Get the channel sender for sending data through the adapter.
    pub fn get_sender(&self) -> flume::Sender<J> {
        channel::clone_sender(&self.send_tx)
    }

    /// Get the channel receiver for receiving data through the adapter.
    pub fn get_receiver(&self) -> flume::Receiver<I> {
        channel::clone_receiver(&self.receive_rx)
    }
}

} // verus!
