//! The two worker loops' state machine and per-iteration logic.
//!
//! A worker is a long-running control loop driving one data direction.  The
//! loop itself runs on whatever execution context the application provides;
//! everything the loop decides and computes in one iteration stands here,
//! with its contract.

use vstd::prelude::*;

use crate::channel;
use crate::channel::Fetched;
use crate::traits::Communication;
use crate::traits::PacketParser;

verus! {

/// How long a worker idles before re-checking its queues, in milliseconds.
pub const POLL_INTERVAL_MS: u64 = 10;

/// Why a worker stopped.
#[derive(Clone, Copy, Debug, PartialEq, Eq, Structural)]
pub enum StopReason {
    /// The termination signal was observed.
    Normal,
    /// The transport, or the queue to the application, failed.
    TransportError,
}

/// The life cycle of one worker loop.  A transition to `Stopped` is terminal
/// and irreversible.
#[derive(Clone, Copy, Debug, PartialEq, Eq, Structural)]
pub enum WorkerState {
    /// The loop keeps iterating.
    Running,
    /// The loop has ended, for the reason given.
    Stopped(StopReason),
}

impl WorkerState {
    /// True while the loop keeps iterating.
    pub fn is_running(&self) -> (r: bool)
        ensures
            r == (*self is Running),
    {
        match self {
            WorkerState::Running => true,
            WorkerState::Stopped(_) => false,
        }
    }
}

/// Where one worker iteration ends: a stopped worker never moves again; a
/// transport failure stops the worker for good with `TransportError`;
/// otherwise an observed termination signal stops it with `Normal`.
pub fn worker_transition(state: WorkerState, terminate_seen: bool, transport_failed: bool) -> (r:
    WorkerState)
    ensures
        state is Stopped ==> r == state,
        state is Running && transport_failed ==> r == WorkerState::Stopped(
            StopReason::TransportError,
        ),
        state is Running && !transport_failed && terminate_seen ==> r == WorkerState::Stopped(
            StopReason::Normal,
        ),
        state is Running && !transport_failed && !terminate_seen ==> r == WorkerState::Running,
{
    match state {
        WorkerState::Stopped(_) => state,
        WorkerState::Running => {
            if transport_failed {
                WorkerState::Stopped(StopReason::TransportError)
            } else if terminate_seen {
                WorkerState::Stopped(StopReason::Normal)
            } else {
                WorkerState::Running
            }
        },
    }
}

/// The wire bytes of a run of values, each encoded by the parser `P`, in
/// order.
pub open spec fn batch_encodings<J: View, P: PacketParser<J>>(items: Seq<J>) -> Seq<u8>
    decreases items.len(),
{
    if items.len() == 0 {
        Seq::empty()
    } else {
        P::encoding(items[0]@) + batch_encodings::<J, P>(items.skip(1))
    }
}

/// Encoding one more value appends its wire bytes.
pub proof fn lemma_batch_encodings_snoc<J: View, P: PacketParser<J>>(items: Seq<J>, i: int)
    requires
        0 <= i < items.len(),
    ensures
        batch_encodings::<J, P>(items.take(i + 1)) == batch_encodings::<J, P>(items.take(i))
            + P::encoding(items[i]@),
    decreases i,
{
    if i == 0 {
        assert(items.take(0int) =~= Seq::<J>::empty());
        assert(items.take(1int) =~= seq![items[0]]);
        assert(seq![items[0]].skip(1) =~= Seq::<J>::empty());
        assert(Seq::<u8>::empty() + P::encoding(items[0]@) =~= P::encoding(items[0]@));
        assert(P::encoding(items[0]@) + Seq::<u8>::empty() =~= P::encoding(items[0]@));
    } else {
        lemma_batch_encodings_snoc::<J, P>(items.skip(1), i - 1);
        assert(items.take(i + 1).skip(1) =~= items.skip(1).take(i));
        assert(items.take(i).skip(1) =~= items.skip(1).take(i - 1));
        assert(items.take(i + 1)[0] == items[0]);
        assert(items.take(i)[0] == items[0]);
        assert(items.skip(1)[i - 1] == items[i]);
        assert(P::encoding(items[0]@) + (batch_encodings::<J, P>(items.skip(1).take(i - 1))
            + P::encoding(items[i]@)) =~= (P::encoding(items[0]@) + batch_encodings::<J, P>(
            items.skip(1).take(i - 1),
        )) + P::encoding(items[i]@));
    }
}

/// The wire chunks of a run of values: one value's encoding per chunk, in
/// order.
pub open spec fn batch_chunks<J: View, P: PacketParser<J>>(items: Seq<J>) -> Seq<Seq<u8>>
    decreases items.len(),
{
    if items.len() == 0 {
        Seq::empty()
    } else {
        seq![P::encoding(items[0]@)] + batch_chunks::<J, P>(items.skip(1))
    }
}

/// Encoding one more value appends its wire chunk.
pub proof fn lemma_batch_chunks_snoc<J: View, P: PacketParser<J>>(items: Seq<J>, i: int)
    requires
        0 <= i < items.len(),
    ensures
        batch_chunks::<J, P>(items.take(i + 1)) == batch_chunks::<J, P>(items.take(i)).push(
            P::encoding(items[i]@),
        ),
    decreases i,
{
    if i == 0 {
        assert(items.take(0int) =~= Seq::<J>::empty());
        assert(items.take(1int) =~= seq![items[0]]);
        assert(seq![items[0]].skip(1) =~= Seq::<J>::empty());
        assert(seq![P::encoding(items[0]@)] + Seq::<Seq<u8>>::empty() =~= Seq::<
            Seq<u8>,
        >::empty().push(P::encoding(items[0]@)));
    } else {
        lemma_batch_chunks_snoc::<J, P>(items.skip(1), i - 1);
        assert(items.take(i + 1).skip(1) =~= items.skip(1).take(i));
        assert(items.take(i).skip(1) =~= items.skip(1).take(i - 1));
        assert(items.take(i + 1)[0] == items[0]);
        assert(items.take(i)[0] == items[0]);
        assert(items.skip(1)[i - 1] == items[i]);
        assert(seq![P::encoding(items[0]@)] + batch_chunks::<J, P>(items.skip(1).take(i - 1)).push(
            P::encoding(items[i]@),
        ) =~= (seq![P::encoding(items[0]@)] + batch_chunks::<J, P>(items.skip(1).take(i - 1))).push(
            P::encoding(items[i]@),
        ));
    }
}

/// One chunk per value, each chunk the value's encoding.
pub proof fn lemma_batch_chunks_index<J: View, P: PacketParser<J>>(items: Seq<J>, k: int)
    requires
        0 <= k < items.len(),
    ensures
        batch_chunks::<J, P>(items).len() == items.len(),
        batch_chunks::<J, P>(items)[k] == P::encoding(items[k]@),
    decreases items.len(),
{
    if k == 0 {
        if items.len() > 1 {
            lemma_batch_chunks_index::<J, P>(items.skip(1), 0);
        } else {
            assert(items.skip(1).len() == 0);
            assert(batch_chunks::<J, P>(items.skip(1)) == Seq::<Seq<u8>>::empty());
        }
    } else {
        lemma_batch_chunks_index::<J, P>(items.skip(1), k - 1);
        assert(items.skip(1)[k - 1] == items[k]);
    }
}

/// Drain one batch of outbound values through the transport: encode each via
/// the outgoing parser and send it, in enqueue order.  The first failing send
/// abandons the remaining values: `None` means the whole batch went out, and
/// `Some(i)` that the values before position `i` went out, value `i` failed,
/// and the rest were never attempted.  Where the transport claims a stronger
/// model, the contract sharpens: a transport whose sends all succeed takes
/// the whole batch; one whose sends all fail takes nothing and stops at the
/// first value; an echoing transport ends with the batch's chunks appended
/// to its pending ones.
pub fn write_batch<J: View, P: PacketParser<J>, C: Communication>(
    transport: &mut C,
    parser: &mut P,
    batch: &Vec<J>,
) -> (r: Option<usize>)
    ensures
        final(parser).buffered() == old(parser).buffered(),
        match r {
            None => final(transport).sent() == old(transport).sent() + batch_encodings::<J, P>(
                batch@,
            ),
            Some(i) => i < batch@.len() && final(transport).sent() == old(transport).sent()
                + batch_encodings::<J, P>(batch@.take(i as int)),
        },
        old(transport).sends_succeed() ==> r is None,
        old(transport).sends_fail() && batch@.len() > 0 ==> r == Some(0usize),
        old(transport).sends_fail() ==> final(transport).sent() == old(transport).sent(),
        old(transport).echoes() && r is None ==> final(transport).pending() == old(
            transport,
        ).pending() + batch_chunks::<J, P>(batch@),
        final(transport).sends_succeed() == old(transport).sends_succeed(),
        final(transport).sends_fail() == old(transport).sends_fail(),
        final(transport).recv_prompt() == old(transport).recv_prompt(),
        final(transport).echoes() == old(transport).echoes(),
{
    let n = batch.len();
    let mut idx: usize = 0;
    proof {
        assert(batch@.take(0int) =~= Seq::<J>::empty());
        assert(old(transport).sent() + Seq::<u8>::empty() =~= old(transport).sent());
        assert(old(transport).pending() + Seq::<Seq<u8>>::empty() =~= old(transport).pending());
    }
    while idx < n
        invariant
            0 <= idx <= n,
            n == batch@.len(),
            parser.buffered() == old(parser).buffered(),
            transport.sent() == old(transport).sent() + batch_encodings::<J, P>(
                batch@.take(idx as int),
            ),
            transport.sends_succeed() == old(transport).sends_succeed(),
            transport.sends_fail() == old(transport).sends_fail(),
            transport.recv_prompt() == old(transport).recv_prompt(),
            transport.echoes() == old(transport).echoes(),
            idx > 0 ==> !old(transport).sends_fail(),
            old(transport).echoes() ==> transport.pending() == old(transport).pending()
                + batch_chunks::<J, P>(batch@.take(idx as int)),
        decreases n - idx,
    {
        let bytes = parser.parse_to_bytes(&batch[idx]);
        let ghost pending_pre = transport.pending();
        match transport.send(bytes.as_slice()) {
            Ok(_) => {
                proof {
                    lemma_batch_encodings_snoc::<J, P>(batch@, idx as int);
                    assert((old(transport).sent() + batch_encodings::<J, P>(
                        batch@.take(idx as int),
                    )) + P::encoding(batch@[idx as int]@) =~= old(transport).sent()
                        + batch_encodings::<J, P>(batch@.take(idx + 1)));
                    if old(transport).echoes() {
                        lemma_batch_chunks_snoc::<J, P>(batch@, idx as int);
                        assert((old(transport).pending() + batch_chunks::<J, P>(
                            batch@.take(idx as int),
                        )).push(P::encoding(batch@[idx as int]@)) =~= old(transport).pending()
                            + batch_chunks::<J, P>(batch@.take(idx + 1)));
                    }
                }
                idx = idx + 1;
            },
            Err(_) => {
                proof {
                    if old(transport).sends_fail() {
                        assert(idx == 0);
                        assert(batch@.take(0int) =~= Seq::<J>::empty());
                        assert(old(transport).sent() + batch_encodings::<J, P>(batch@.take(0int))
                            =~= old(transport).sent());
                    }
                }
                return Some(idx);
            },
        }
    }
    proof {
        assert(batch@.take(n as int) =~= batch@);
    }
    None
}

/// The values, none or one, that a single decode step over `s` produces.
pub open spec fn step_values<I: View, P: PacketParser<I>>(s: Seq<u8>) -> Seq<I::V> {
    match P::extract_value(s) {
        Some(v) => seq![v],
        None => Seq::empty(),
    }
}

/// The values an incoming run of chunks decodes to, in arrival order,
/// starting from the buffered bytes `b`: one decode step of the parser `P`
/// per chunk.
pub open spec fn decoded_values<I: View, P: PacketParser<I>>(
    b: Seq<u8>,
    chunks: Seq<Seq<u8>>,
) -> Seq<I::V>
    decreases chunks.len(),
{
    if chunks.len() == 0 {
        Seq::empty()
    } else {
        step_values::<I, P>(b + chunks[0]) + decoded_values::<I, P>(
            P::extract_rest(b + chunks[0]),
            chunks.skip(1),
        )
    }
}

/// The bytes the parser retains after decoding an incoming run of chunks.
pub open spec fn decoded_rest<I: View, P: PacketParser<I>>(
    b: Seq<u8>,
    chunks: Seq<Seq<u8>>,
) -> Seq<u8>
    decreases chunks.len(),
{
    if chunks.len() == 0 {
        b
    } else {
        decoded_rest::<I, P>(P::extract_rest(b + chunks[0]), chunks.skip(1))
    }
}

/// Decoding one more chunk appends that chunk's decode step.
pub proof fn lemma_decoded_snoc<I: View, P: PacketParser<I>>(
    b: Seq<u8>,
    chunks: Seq<Seq<u8>>,
    d: Seq<u8>,
)
    ensures
        decoded_rest::<I, P>(b, chunks.push(d)) == P::extract_rest(
            decoded_rest::<I, P>(b, chunks) + d,
        ),
        decoded_values::<I, P>(b, chunks.push(d)) == decoded_values::<I, P>(b, chunks)
            + step_values::<I, P>(decoded_rest::<I, P>(b, chunks) + d),
    decreases chunks.len(),
{
    if chunks.len() == 0 {
        assert(chunks.push(d)[0] == d);
        assert(chunks.push(d).skip(1) =~= Seq::<Seq<u8>>::empty());
        assert(decoded_rest::<I, P>(b, chunks) == b);
        assert(decoded_values::<I, P>(b, chunks) == Seq::<I::V>::empty());
        assert(decoded_rest::<I, P>(b, chunks.push(d)) == decoded_rest::<I, P>(
            P::extract_rest(b + d),
            chunks.push(d).skip(1),
        ));
        assert(decoded_rest::<I, P>(P::extract_rest(b + d), Seq::<Seq<u8>>::empty())
            == P::extract_rest(b + d));
        assert(decoded_values::<I, P>(b, chunks.push(d)) == step_values::<I, P>(b + d)
            + decoded_values::<I, P>(P::extract_rest(b + d), chunks.push(d).skip(1)));
        assert(decoded_values::<I, P>(P::extract_rest(b + d), Seq::<Seq<u8>>::empty())
            == Seq::<I::V>::empty());
        assert(step_values::<I, P>(b + d) + Seq::<I::V>::empty() =~= step_values::<I, P>(b + d));
        assert(Seq::<I::V>::empty() + step_values::<I, P>(b + d) =~= step_values::<I, P>(b + d));
    } else {
        assert(chunks.push(d)[0] == chunks[0]);
        assert(chunks.push(d).skip(1) =~= chunks.skip(1).push(d));
        let b1 = P::extract_rest(b + chunks[0]);
        lemma_decoded_snoc::<I, P>(b1, chunks.skip(1), d);
        assert(decoded_rest::<I, P>(b, chunks.push(d)) == decoded_rest::<I, P>(
            b1,
            chunks.skip(1).push(d),
        ));
        assert(decoded_rest::<I, P>(b, chunks) == decoded_rest::<I, P>(b1, chunks.skip(1)));
        assert(decoded_values::<I, P>(b, chunks.push(d)) == step_values::<I, P>(b + chunks[0])
            + decoded_values::<I, P>(b1, chunks.skip(1).push(d)));
        assert(decoded_values::<I, P>(b, chunks) == step_values::<I, P>(b + chunks[0])
            + decoded_values::<I, P>(b1, chunks.skip(1)));
        let h = step_values::<I, P>(b + chunks[0]);
        let x = decoded_values::<I, P>(b1, chunks.skip(1));
        let m = step_values::<I, P>(decoded_rest::<I, P>(b1, chunks.skip(1)) + d);
        assert(h + (x + m) =~= (h + x) + m);
    }
}

/// Order preservation inbound: when each chunk is exactly the wire form of
/// one value and the parser starts empty, the decoded values are those
/// values, in arrival order.
pub proof fn lemma_decoded_single_frames<I: View, P: PacketParser<I>>(
    chunks: Seq<Seq<u8>>,
    values: Seq<I::V>,
)
    requires
        chunks.len() == values.len(),
        forall|k: int|
            0 <= k < chunks.len() ==> #[trigger] P::extract_value(chunks[k]) == Some(values[k])
                && P::extract_rest(chunks[k]) == Seq::<u8>::empty(),
    ensures
        decoded_values::<I, P>(Seq::empty(), chunks) == values,
    decreases chunks.len(),
{
    if chunks.len() == 0 {
        assert(decoded_values::<I, P>(Seq::empty(), chunks) =~= values);
    } else {
        assert(Seq::<u8>::empty() + chunks[0] =~= chunks[0]);
        assert(forall|k: int|
            0 <= k < chunks.skip(1).len() ==> chunks.skip(1)[k] == chunks[k + 1]
                && values.skip(1)[k] == values[k + 1]);
        lemma_decoded_single_frames::<I, P>(chunks.skip(1), values.skip(1));
        assert(seq![values[0]] + values.skip(1) =~= values);
    }
}

/// Pull chunks out of the transport, one decode step each, appending every
/// decoded value to `inbound` in arrival order.  Stops after `max_steps`
/// chunks, or as soon as the transport has nothing available or fails; the
/// returned count says how many pending chunks were consumed.  Against a
/// prompt transport, stopping short of `max_steps` means every pending
/// chunk was consumed.
pub fn read_pending<I: View, P: PacketParser<I>, C: Communication>(
    transport: &mut C,
    parser: &mut P,
    inbound: &mut Vec<I>,
    max_steps: usize,
) -> (consumed: usize)
    ensures
        consumed <= max_steps,
        consumed <= old(transport).pending().len(),
        final(transport).sent() == old(transport).sent(),
        final(transport).pending() == old(transport).pending().skip(consumed as int),
        final(parser).buffered() == decoded_rest::<I, P>(
            old(parser).buffered(),
            old(transport).pending().take(consumed as int),
        ),
        final(inbound)@.map_values(|x: I| x@) == old(inbound)@.map_values(|x: I| x@)
            + decoded_values::<I, P>(
            old(parser).buffered(),
            old(transport).pending().take(consumed as int),
        ),
        old(transport).recv_prompt() && consumed < max_steps ==> consumed == old(transport).pending().len(),
        final(transport).sends_succeed() == old(transport).sends_succeed(),
        final(transport).sends_fail() == old(transport).sends_fail(),
        final(transport).recv_prompt() == old(transport).recv_prompt(),
        final(transport).echoes() == old(transport).echoes(),
{
    let mut consumed: usize = 0;
    proof {
        assert(old(transport).pending().take(0int) =~= Seq::<Seq<u8>>::empty());
        assert(old(transport).pending().skip(0int) =~= old(transport).pending());
        assert(old(inbound)@.map_values(|x: I| x@) + Seq::<I::V>::empty() =~= old(inbound)@.map_values(|x: I| x@));
    }
    while consumed < max_steps
        invariant
            consumed <= max_steps,
            consumed <= old(transport).pending().len(),
            transport.sent() == old(transport).sent(),
            transport.pending() == old(transport).pending().skip(consumed as int),
            parser.buffered() == decoded_rest::<I, P>(
                old(parser).buffered(),
                old(transport).pending().take(consumed as int),
            ),
            inbound@.map_values(|x: I| x@) == old(inbound)@.map_values(|x: I| x@)
                + decoded_values::<I, P>(
                old(parser).buffered(),
                old(transport).pending().take(consumed as int),
            ),
            transport.sends_succeed() == old(transport).sends_succeed(),
            transport.sends_fail() == old(transport).sends_fail(),
            transport.recv_prompt() == old(transport).recv_prompt(),
            transport.echoes() == old(transport).echoes(),
        decreases max_steps - consumed,
    {
        let ghost taken = old(transport).pending().take(consumed as int);
        let ghost pend_pre = transport.pending();
        let ghost buf_pre = parser.buffered();
        match transport.recv() {
            Err(_) => {
                proof {
                    if old(transport).recv_prompt() {
                        assert(pend_pre.len() == 0);
                        assert(consumed == old(transport).pending().len());
                    }
                }
                return consumed;
            },
            Ok(None) => {
                proof {
                    if old(transport).recv_prompt() {
                        assert(pend_pre.len() == 0);
                        assert(consumed == old(transport).pending().len());
                    }
                }
                return consumed;
            },
            Ok(Some(data)) => {
                proof {
                    assert(pend_pre.len() > 0);
                    assert(old(transport).pending().len() > consumed);
                    assert(pend_pre[0] == old(transport).pending()[consumed as int]);
                    lemma_decoded_snoc::<I, P>(old(parser).buffered(), taken, data@);
                    assert(taken.push(data@) =~= old(transport).pending().take(consumed + 1));
                    assert(old(transport).pending().skip(consumed as int).skip(1) =~= old(transport).pending().skip(consumed + 1));
                }
                let ghost inbound_pre = inbound@;
                match parser.parse_from_bytes(data.as_slice()) {
                    Some(v) => {
                        let ghost vv = v@;
                        inbound.push(v);
                        proof {
                            assert(step_values::<I, P>(buf_pre + data@) =~= seq![vv]);
                            assert(inbound@.map_values(|x: I| x@) =~= inbound_pre.map_values(
                                |x: I| x@,
                            ).push(vv));
                            assert((old(inbound)@.map_values(|x: I| x@) + decoded_values::<I, P>(
                                old(parser).buffered(),
                                taken,
                            )).push(vv) =~= old(inbound)@.map_values(|x: I| x@) + (
                            decoded_values::<I, P>(old(parser).buffered(), taken) + seq![vv]));
                        }
                    },
                    None => {
                        proof {
                            assert(step_values::<I, P>(buf_pre + data@) =~= Seq::<I::V>::empty());
                            assert(decoded_values::<I, P>(old(parser).buffered(), taken)
                                + Seq::<I::V>::empty() =~= decoded_values::<I, P>(
                                old(parser).buffered(),
                                taken,
                            ));
                        }
                    },
                }
                consumed = consumed + 1;
            },
        }
    }
    consumed
}

/// The write worker: drains the outbound queue and pushes the values through
/// the transport, encoded, in enqueue order.
#[verifier::reject_recursive_types(J)]
pub struct WriteWorker<J: View, P: PacketParser<J>, C: Communication> {
    transport: C,
    parser: P,
    outbound: flume::Receiver<J>,
    terminate: flume::Receiver<()>,
    state: WorkerState,
}

impl<J: View, P: PacketParser<J>, C: Communication> WriteWorker<J, P, C> {
    /// The worker's loop state.
    pub closed spec fn state(&self) -> WorkerState {
        self.state
    }

    /// The transport as this worker sees it.
    pub closed spec fn transport(&self) -> C {
        self.transport
    }

    /// The outgoing parser.
    pub closed spec fn parser(&self) -> P {
        self.parser
    }

    /// A fresh write worker around a transport, the queue it drains and the
    /// termination signal it observes.
    pub fn new(transport: C, outbound: flume::Receiver<J>, terminate: flume::Receiver<()>) -> (r:
        Self)
        ensures
            r.state() == WorkerState::Running,
            r.transport() == transport,
            r.parser().buffered() == Seq::<u8>::empty(),
    {
        WriteWorker {
            transport,
            parser: P::new(),
            outbound,
            terminate,
            state: WorkerState::Running,
        }
    }

    /// Give the transport back, for inspection once the loop is over.
    pub fn into_transport(self) -> (r: C)
        ensures
            r == self.transport(),
    {
        self.transport
    }

    /// One iteration of the write loop.  If values are queued, every one of
    /// them is encoded and sent, in enqueue order, and the first send failure
    /// stops the worker for good, abandoning the rest.  If none are queued,
    /// the worker idles for one polling interval.  The termination signal is
    /// checked once per iteration, after the batch flushes.
    pub fn step(&mut self) -> (r: WorkerState)
        ensures
            r == final(self).state(),
            final(self).parser().buffered() == old(self).parser().buffered(),
            old(self).state() is Stopped ==> final(self).state() == old(self).state() && final(self).transport().sent() == old(self).transport().sent(),
            old(self).state() is Running ==> match final(self).state() {
                WorkerState::Stopped(StopReason::TransportError) => exists|items: Seq<J>, i: int|
                    0 <= i < items.len() && final(self).transport().sent() == old(self).transport().sent() + batch_encodings::<J, P>(#[trigger] items.take(i)),
                _ => exists|items: Seq<J>|
                    final(self).transport().sent() == old(self).transport().sent()
                        + batch_encodings::<J, P>(items),
            },
            old(self).state() is Running && old(self).transport().sends_succeed() ==> !(final(self).state() == WorkerState::Stopped(StopReason::TransportError)),
            old(self).transport().sends_fail() ==> final(self).transport().sent() == old(self).transport().sent(),
            final(self).transport().sends_succeed() == old(self).transport().sends_succeed(),
            final(self).transport().sends_fail() == old(self).transport().sends_fail(),
    {
        if !self.state.is_running() {
            return self.state;
        }
        let batch = channel::drain_channel(&self.outbound);
        if batch.len() > 0 {
            match write_batch(&mut self.transport, &mut self.parser, &batch) {
                None => {
                    let terminate_seen = match channel::poll_channel(&self.terminate) {
                        Fetched::Item(_) => true,
                        Fetched::Closed => true,
                        Fetched::Nothing => false,
                    };
                    self.state = worker_transition(self.state, terminate_seen, false);
                    proof {
                        assert(self.transport.sent() == old(self).transport().sent()
                            + batch_encodings::<J, P>(batch@));
                    }
                },
                Some(i) => {
                    self.state = worker_transition(self.state, false, true);
                    proof {
                        assert(0 <= i < batch@.len() && self.transport.sent() == old(self).transport().sent() + batch_encodings::<J, P>(batch@.take(i as int)));
                    }
                },
            }
        } else {
            let terminate_seen = match channel::wait_on_channel(&self.terminate, POLL_INTERVAL_MS) {
                Fetched::Item(_) => true,
                Fetched::Closed => true,
                Fetched::Nothing => false,
            };
            self.state = worker_transition(self.state, terminate_seen, false);
            proof {
                assert(batch_encodings::<J, P>(Seq::<J>::empty()) == Seq::<u8>::empty());
                assert(old(self).transport().sent() + Seq::<u8>::empty() =~= old(self).transport().sent());
                assert(self.transport.sent() == old(self).transport().sent()
                    + batch_encodings::<J, P>(Seq::<J>::empty()));
            }
        }
        self.state
    }
}

/// The read worker: pulls chunks out of the transport, decodes them and
/// delivers each decoded value to the inbound queue, in arrival order.
#[verifier::reject_recursive_types(I)]
pub struct ReadWorker<I: View, R: PacketParser<I>, C: Communication> {
    transport: C,
    parser: R,
    inbound: flume::Sender<I>,
    terminate: flume::Receiver<()>,
    state: WorkerState,
}

impl<I: View, R: PacketParser<I>, C: Communication> ReadWorker<I, R, C> {
    /// The worker's loop state.
    pub closed spec fn state(&self) -> WorkerState {
        self.state
    }

    /// The transport as this worker sees it.
    pub closed spec fn transport(&self) -> C {
        self.transport
    }

    /// The incoming parser.
    pub closed spec fn parser(&self) -> R {
        self.parser
    }

    /// A fresh read worker around a transport, the queue it fills and the
    /// termination signal it observes.
    pub fn new(transport: C, inbound: flume::Sender<I>, terminate: flume::Receiver<()>) -> (r:
        Self)
        ensures
            r.state() == WorkerState::Running,
            r.transport() == transport,
            r.parser().buffered() == Seq::<u8>::empty(),
    {
        ReadWorker { transport, parser: R::new(), inbound, terminate, state: WorkerState::Running }
    }

    /// Give the transport back, for inspection once the loop is over.
    pub fn into_transport(self) -> (r: C)
        ensures
            r == self.transport(),
    {
        self.transport
    }

    /// One iteration of the read loop.  An available chunk goes through one
    /// decode step, and a decoded value is delivered to the inbound queue; a
    /// partial frame only feeds the parser.  With nothing available the
    /// worker idles for one polling interval.  A transport failure, or a
    /// closed inbound queue, stops the worker for good; otherwise the
    /// termination signal is checked once per iteration.
    pub fn step(&mut self) -> (r: WorkerState)
        ensures
            r == final(self).state(),
            final(self).transport().sent() == old(self).transport().sent(),
            old(self).state() is Stopped ==> final(self).state() == old(self).state() && final(self).transport().pending() == old(self).transport().pending() && final(self).parser().buffered() == old(self).parser().buffered(),
            old(self).state() is Running ==> ((final(self).transport().pending() == old(self).transport().pending() && final(self).parser().buffered() == old(self).parser().buffered()) || (old(self).transport().pending().len() > 0 && final(self).transport().pending() == old(self).transport().pending().skip(1) && final(self).parser().buffered() == R::extract_rest(
                old(self).parser().buffered() + old(self).transport().pending()[0],
            ))),
            old(self).state() is Running && old(self).transport().recv_prompt() && old(self).transport().pending().len() > 0 ==> final(self).transport().pending() == old(self).transport().pending().skip(1),
            final(self).transport().recv_prompt() == old(self).transport().recv_prompt(),
            final(self).transport().sends_fail() == old(self).transport().sends_fail(),
    {
        if !self.state.is_running() {
            return self.state;
        }
        match self.transport.recv() {
            Err(_) => {
                self.state = worker_transition(self.state, false, true);
            },
            Ok(None) => {
                let terminate_seen = match channel::wait_on_channel(
                    &self.terminate,
                    POLL_INTERVAL_MS,
                ) {
                    Fetched::Item(_) => true,
                    Fetched::Closed => true,
                    Fetched::Nothing => false,
                };
                self.state = worker_transition(self.state, terminate_seen, false);
            },
            Ok(Some(data)) => {
                let mut failed = false;
                match self.parser.parse_from_bytes(data.as_slice()) {
                    Some(v) => {
                        match channel::channel_send(&self.inbound, v) {
                            Ok(_) => {},
                            Err(_) => {
                                failed = true;
                            },
                        }
                    },
                    None => {},
                }
                let terminate_seen = if failed {
                    false
                } else {
                    match channel::poll_channel(&self.terminate) {
                        Fetched::Item(_) => true,
                        Fetched::Closed => true,
                        Fetched::Nothing => false,
                    }
                };
                self.state = worker_transition(self.state, terminate_seen, failed);
            },
        }
        self.state
    }
}

} // verus!
