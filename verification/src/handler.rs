use vstd::prelude::*;

use crate::channel;
use crate::error::Error;
use crate::framed_handler::FramedHandler;
use crate::framed_handler::WorkerEndpoints;
use crate::traits::PacketParser;
use crate::worker::batch_chunks;
use crate::worker::decoded_values;
use crate::worker::lemma_batch_chunks_index;
use crate::worker::lemma_decoded_single_frames;

verus! {

/// Packet parser that forwards packets: every chunk is one value, carried on
/// the wire as itself, and nothing is ever buffered.
#[derive(Clone, Copy)]
pub struct Passthrough;

impl PacketParser<Vec<u8>> for Passthrough {
    open spec fn buffered(&self) -> Seq<u8> {
        Seq::empty()
    }

    open spec fn encoding(v: Seq<u8>) -> Seq<u8> {
        v
    }

    open spec fn extract_rest(s: Seq<u8>) -> Seq<u8> {
        Seq::empty()
    }

    open spec fn extract_value(s: Seq<u8>) -> Option<Seq<u8>> {
        Some(s)
    }

    fn new() -> (r: Self) {
        Passthrough
    }

    fn clone_inner(&self) -> (r: Self) {
        Passthrough
    }

    fn parse_from_bytes(&mut self, data: &[u8]) -> (r: Option<Vec<u8>>) {
        proof {
            assert(Seq::<u8>::empty() + data@ =~= data@);
        }
        Some(vstd::slice::slice_to_vec(data))
    }

    fn parse_to_bytes(&mut self, data: &Vec<u8>) -> (r: Vec<u8>) {
        vstd::slice::slice_to_vec(data.as_slice())
    }
}

/// The passthrough codec is symmetric: decoding one encoded value yields the
/// value back, whatever it holds, with nothing retained.
pub proof fn lemma_passthrough_round_trip(v: Seq<u8>)
    ensures
        <Passthrough as PacketParser<Vec<u8>>>::extract_value(
            <Passthrough as PacketParser<Vec<u8>>>::encoding(v),
        ) == Some(v),
        <Passthrough as PacketParser<Vec<u8>>>::extract_rest(
            <Passthrough as PacketParser<Vec<u8>>>::encoding(v),
        ) == Seq::<u8>::empty(),
{
}

/// End to end at the passthrough codec: the chunks a flushed batch leaves on
/// an echoing transport decode back, one step per chunk, to exactly the
/// batch's values, in order.
pub proof fn lemma_passthrough_echo_round_trip(batch: Seq<Vec<u8>>)
    ensures
        decoded_values::<Vec<u8>, Passthrough>(
            Seq::empty(),
            batch_chunks::<Vec<u8>, Passthrough>(batch),
        ) == batch.map_values(|v: Vec<u8>| v@),
{
    let chunks = batch_chunks::<Vec<u8>, Passthrough>(batch);
    let values = batch.map_values(|v: Vec<u8>| v@);
    if batch.len() == 0 {
        assert(chunks =~= Seq::<Seq<u8>>::empty());
        assert(decoded_values::<Vec<u8>, Passthrough>(Seq::empty(), chunks) =~= values);
    } else {
        lemma_batch_chunks_index::<Vec<u8>, Passthrough>(batch, 0);
        assert forall|k: int|
            0 <= k < chunks.len() implies #[trigger] <Passthrough as PacketParser<
            Vec<u8>,
        >>::extract_value(chunks[k]) == Some(values[k]) && <Passthrough as PacketParser<
            Vec<u8>,
        >>::extract_rest(chunks[k]) == Seq::<u8>::empty() by {
            lemma_batch_chunks_index::<Vec<u8>, Passthrough>(batch, k);
        }
        lemma_decoded_single_frames::<Vec<u8>, Passthrough>(chunks, values);
    }
}

/// A pump over raw byte chunks: a [`FramedHandler`] with the passthrough
/// codec in both directions.
pub struct Handler {
    /// Sender used to send data from the application.
    send_tx: flume::Sender<Vec<u8>>,
    /// Receiver that receives data from the outer world.
    receive_rx: flume::Receiver<Vec<u8>>,
    /// Handler so that we can terminate the connection.
    handler: FramedHandler<Vec<u8>, Passthrough, Vec<u8>, Passthrough>,
}

impl Handler {
    /// Wire up a raw-bytes pump; the handler comes with the endpoints its
    /// two workers take.
    pub fn new() -> (r: (Handler, WorkerEndpoints<Vec<u8>, Vec<u8>>)) {
        let (handler, endpoints) = FramedHandler::<
            Vec<u8>,
            Passthrough,
            Vec<u8>,
            Passthrough,
        >::new();
        let send_tx = handler.get_sender();
        let receive_rx = handler.get_receiver();
        (Handler { send_tx, receive_rx, handler }, endpoints)
    }

    /// Terminate the ongoing connection.
    pub fn terminate(self) -> (r: Result<(), Error>) {
        self.handler.terminate()
    }

    /// Get the channel sender for sending data through the adapter.
    pub fn get_sender(&self) -> flume::Sender<Vec<u8>> {
        channel::clone_sender(&self.send_tx)
    }

    /// Get the channel receiver for receiving data through the adapter.
    pub fn get_receiver(&self) -> flume::Receiver<Vec<u8>> {
        channel::clone_receiver(&self.receive_rx)
    }
}

} // verus!
