//! The async side of a carrier: a byte stream over the two channels to the worker, which drives
//! the blocking TLS stream.

use crate::bytes::{
    agree, joined, lemma_joined_prefix, lemma_joined_push, lemma_prefixes_agree,
};
use crate::channel::{
    arrivals, arrived_chunks, bounded_channel, chunks_due, close, handovers, messages_carried,
    poll_recv, received_messages, saw_end, send, sent_chunks, taken_messages, unbounded_channel,
    Answer, Arrival, ChunkReceiver, Handover, MessageSender,
};
use crate::error::{Fault, IoError};
use crate::pump::{
    law_inbound_backlog_is_bounded, law_inbound_in_order, law_outbound_in_order, Pump, PumpPhase,
    PumpState, INBOUND_CHANNEL_CAP,
};
use crate::read_buf::{copy_out, filled_bytes, filled_from, room, shorter};
use tokio::io::ReadBuf;
use vstd::prelude::*;

verus! {

/// Whether an async operation is done.
#[derive(Clone, Copy, Debug, PartialEq, Eq, Structural)]
pub enum ReadPoll {
    /// It is; a read that added nothing to a buffer with room has met the end of the stream.
    Ready,
    /// It is not, and the task will be woken when it is worth another try.
    Pending,
}

/// A stream as its contracts see it.
pub struct BridgeState {
    /// The bytes received from the worker and not yet read.
    pub backlog: Seq<u8>,
    /// The bytes read so far.
    pub delivered: Seq<u8>,
    /// What the inbound channel has answered so far.
    pub arrivals: Seq<Arrival<Seq<u8>>>,
    /// What the inbound channel carries over its whole life.
    pub due: Seq<Seq<u8>>,
    /// Whether the writing side has not been shut down.
    pub writable: bool,
    /// What was handed to the outbound queue so far.
    pub handovers: Seq<Handover>,
    /// The bytes that writes have accepted so far.
    pub accepted: Seq<u8>,
    /// What the outbound queue carries over its whole life.
    pub carried: Seq<Seq<u8>>,
}

impl BridgeState {
    /// What always holds of a stream. Every byte received has been read or waits, in order, and
    /// every byte accepted has been handed on, in order. Once the writing side is shut down, the
    /// outbound queue carries what it has taken, and nothing more.
    pub open spec fn accounted(self) -> bool {
        &&& self.delivered + self.backlog == joined(arrived_chunks(self.arrivals))
        &&& arrived_chunks(self.arrivals).is_prefix_of(self.due)
        &&& saw_end(self.arrivals) ==> arrived_chunks(self.arrivals) == self.due
        &&& self.accepted == joined(taken_messages(self.handovers))
        &&& taken_messages(self.handovers).is_prefix_of(self.carried)
        &&& !self.writable ==> taken_messages(self.handovers) == self.carried
    }

    /// After as much of `data` was read as there is room for, with the rest left over.
    pub open spec fn handing_out(self, data: Seq<u8>, space: nat) -> BridgeState {
        let count = shorter(space, data.len()) as int;
        BridgeState {
            backlog: data.skip(count),
            delivered: self.delivered + data.take(count),
            ..self
        }
    }

    /// After a read into a buffer with room for `space` bytes; `arrival` is what the inbound
    /// channel answers where it is asked.
    pub open spec fn after_read(self, space: nat, arrival: Arrival<Seq<u8>>) -> BridgeState {
        if space == 0 {
            self
        } else if self.backlog.len() > 0 {
            self.handing_out(self.backlog, space)
        } else {
            let asked = BridgeState { arrivals: self.arrivals.push(arrival), ..self };
            match arrival {
                Arrival::Chunk(chunk) => asked.handing_out(chunk, space),
                _ => asked,
            }
        }
    }

    /// Whether such a read has to wait.
    pub open spec fn read_waits(self, space: nat, arrival: Arrival<Seq<u8>>) -> bool {
        space > 0 && self.backlog.len() == 0 && arrival is Pending
    }

    /// After a write of `message`; `taken` is whether the outbound queue takes it.
    pub open spec fn after_write(self, message: Seq<u8>, taken: bool) -> BridgeState {
        if !self.writable {
            self
        } else {
            BridgeState {
                handovers: self.handovers.push(Handover { message, taken }),
                accepted: if taken {
                    self.accepted + message
                } else {
                    self.accepted
                },
                ..self
            }
        }
    }

    /// After its writing side is shut down.
    pub open spec fn shut_down(self) -> BridgeState {
        BridgeState { writable: false, ..self }
    }
}

/// What a write of `len` bytes returns, where the stream is `writable` and the outbound queue has
/// `taken` the bytes.
pub open spec fn write_outcome(writable: bool, taken: bool, len: nat) -> Result<usize, Fault> {
    if !writable {
        Err(Fault::WriteAfterShutdown)
    } else if !taken {
        Err(Fault::BridgeClosed)
    } else {
        Ok(len as usize)
    }
}

/// What a write of `len` bytes returns after the outbound queue has, or has not, taken them.
pub fn write_result(taken: bool, len: usize) -> (result: Result<usize, Fault>)
    ensures
        result == write_outcome(true, taken, len as nat),
{
    if taken {
        Ok(len)
    } else {
        Err(Fault::BridgeClosed)
    }
}

/// What a read makes of an answer of the inbound channel: whether it has to wait, the chunk to
/// keep, and how many of its bytes are read already.
pub fn deliver(arrival: Arrival<Vec<u8>>, buf: &mut ReadBuf<'_>) -> (outcome: (
    ReadPoll,
    Vec<u8>,
    usize,
))
    ensures
        match arrival {
            Arrival::Chunk(chunk) => {
                let count = shorter(room(*old(buf)), chunk@.len());
                &&& filled_from(*old(buf), *final(buf), chunk@)
                &&& outcome.0 == ReadPoll::Ready
                &&& outcome.2 <= outcome.1@.len()
                &&& outcome.1@.skip(outcome.2 as int) == chunk@.skip(count as int)
                &&& count == chunk@.len() ==> outcome.1@.len() == 0
            },
            _ => {
                &&& *final(buf) == *old(buf)
                &&& outcome.0 == (if arrival is Pending {
                    ReadPoll::Pending
                } else {
                    ReadPoll::Ready
                })
                &&& outcome.1@.len() == 0
                &&& outcome.2 == 0
            },
        },
{
    match arrival {
        Arrival::Chunk(chunk) => {
            let count = copy_out(&chunk, 0, buf);
            proof {
                assert(chunk@.skip(0) =~= chunk@);
            }
            if count < chunk.len() {
                (ReadPoll::Ready, chunk, count)
            } else {
                let rest: Vec<u8> = Vec::new();
                proof {
                    assert(rest@.skip(0) =~= chunk@.skip(count as int));
                }
                (ReadPoll::Ready, rest, 0)
            }
        },
        Arrival::Closed => (ReadPoll::Ready, Vec::new(), 0),
        Arrival::Pending => (ReadPoll::Pending, Vec::new(), 0),
    }
}

/// The async view of a TLS carrier. Reads pull decrypted bytes that the worker has produced;
/// writes hand plaintext to the worker.
pub struct BridgeStream {
    inbound: ChunkReceiver,
    leftover: Vec<u8>,
    leftover_pos: usize,
    outbound: Option<MessageSender>,
    delivered: Ghost<Seq<u8>>,
    handovers: Ghost<Seq<Handover>>,
    accepted: Ghost<Seq<u8>>,
    carried: Ghost<Seq<Seq<u8>>>,
}

impl View for BridgeStream {
    type V = BridgeState;

    closed spec fn view(&self) -> BridgeState {
        BridgeState {
            backlog: self.leftover@.skip(self.leftover_pos as int),
            delivered: self.delivered@,
            arrivals: arrivals(self.inbound.rx),
            due: chunks_due(self.inbound.rx),
            writable: self.outbound is Some,
            handovers: self.handovers@,
            accepted: self.accepted@,
            carried: self.carried@,
        }
    }
}

impl BridgeStream {
    /// How the fields fit together: the position lies in the leftover chunk, of which nothing is
    /// kept once it is read, and the sender is that of the queue spoken of.
    pub closed spec fn consistent(&self) -> bool {
        &&& self.leftover_pos < self.leftover@.len() || (self.leftover@.len() == 0
            && self.leftover_pos == 0)
        &&& self.outbound matches Some(sender) ==> {
            &&& handovers(sender.tx) == self.handovers@
            &&& messages_carried(sender.tx) == self.carried@
        }
    }

    /// What holds of every stream.
    pub open spec fn wf(&self) -> bool {
        self.consistent() && self@.accounted()
    }

    /// Reads what there is into the buffer, as far as it has room: first what was left over
    /// from the last chunk, and only where nothing was, from the next chunk.
    pub fn poll_read(
        &mut self,
        cx: &mut core::task::Context<'_>,
        buf: &mut ReadBuf<'_>,
    ) -> (poll: ReadPoll)
        requires
            old(self).wf(),
        ensures
            final(self).wf(),
            final(self)@ == old(self)@.after_read(room(*old(buf)), final(self)@.arrivals.last()),
            poll == (if old(self)@.read_waits(room(*old(buf)), final(self)@.arrivals.last()) {
                ReadPoll::Pending
            } else {
                ReadPoll::Ready
            }),
            ({
                let got = final(self)@.delivered.skip(old(self)@.delivered.len() as int);
                &&& filled_bytes(*final(buf)) == filled_bytes(*old(buf)) + got
                &&& room(*final(buf)) == room(*old(buf)) - got.len()
            }),
    {
        let ghost pre = self@;
        if buf.remaining() == 0 {
            proof {
                assert(pre.delivered.skip(pre.delivered.len() as int) =~= Seq::empty());
                assert(filled_bytes(*buf) =~= filled_bytes(*old(buf)) + Seq::empty());
            }
            return ReadPoll::Ready;
        }
        if self.leftover_pos < self.leftover.len() {
            let count = copy_out(&self.leftover, self.leftover_pos, buf);
            self.leftover_pos = self.leftover_pos + count;
            self.delivered = Ghost(self.delivered@ + pre.backlog.take(count as int));
            if self.leftover_pos == self.leftover.len() {
                self.leftover.clear();
                self.leftover_pos = 0;
            }
            proof {
                assert(self@.backlog =~= pre.backlog.skip(count as int));
                assert(self@.delivered + self@.backlog =~= pre.delivered + pre.backlog);
                assert(self@.delivered.skip(pre.delivered.len() as int) =~= pre.backlog.take(
                    count as int,
                ));
            }
            return ReadPoll::Ready;
        }
        let arrival = poll_recv(&mut self.inbound, cx);
        let ghost answer = arrival@;
        let (poll, leftover, leftover_pos) = deliver(arrival, buf);
        self.leftover = leftover;
        self.leftover_pos = leftover_pos;
        proof {
            assert(self@.arrivals.drop_last() =~= pre.arrivals);
            lemma_end_is_final(pre.arrivals, answer);
            if let Arrival::Chunk(chunk) = answer {
                let count = shorter(room(*old(buf)), chunk.len()) as int;
                lemma_joined_push(arrived_chunks(pre.arrivals), chunk);
                self.delivered@ = pre.delivered + chunk.take(count);
                assert(self@.delivered + self@.backlog =~= pre.delivered + chunk);
                assert(pre.delivered + pre.backlog =~= pre.delivered);
                assert(self@.delivered.skip(pre.delivered.len() as int) =~= chunk.take(count));
            } else {
                assert(self@.backlog =~= pre.backlog);
                assert(pre.delivered.skip(pre.delivered.len() as int) =~= Seq::empty());
                assert(filled_bytes(*buf) =~= filled_bytes(*old(buf)) + Seq::empty());
            }
        }
        poll
    }

    /// Hands the bytes to the worker, all of them at once.
    pub fn poll_write(&mut self, buf: &[u8]) -> (result: Result<usize, Fault>)
        requires
            old(self).wf(),
        ensures
            final(self).wf(),
            final(self)@ == old(self)@.after_write(buf@, result is Ok),
            result == write_outcome(old(self)@.writable, result is Ok, buf@.len()),
            result matches Ok(count) ==> {
                &&& old(self)@.writable
                &&& count == buf@.len()
                &&& final(self)@.accepted == old(self)@.accepted + buf@
                &&& final(self)@.handovers.len() == old(self)@.handovers.len() + 1
                &&& final(self)@.handovers.last().message == buf@
                &&& final(self)@.handovers.last().taken
            },
            result is Err ==> final(self)@.accepted == old(self)@.accepted,
    {
        let ghost pre = self@;
        match self.outbound.as_mut() {
            Some(sender) => {
                let taken = send(sender, vstd::slice::slice_to_vec(buf));
                proof {
                    self.handovers@ = handovers(sender.tx);
                    assert(handovers(sender.tx).drop_last() =~= pre.handovers);
                    if taken {
                        lemma_joined_push(taken_messages(pre.handovers), buf@);
                        self.accepted@ = pre.accepted + buf@;
                    }
                }
                write_result(taken, buf.len())
            },
            None => Err(Fault::WriteAfterShutdown),
        }
    }

    /// There is nothing to flush: a write hands its bytes on at once.
    pub fn poll_flush(&mut self)
        requires
            old(self).wf(),
        ensures
            final(self).wf(),
            final(self)@ == old(self)@,
    {
    }

    /// Drops the sending side, so that the worker meets the end of the queue right after what the
    /// queue has taken. Reading goes on.
    pub fn poll_shutdown(&mut self)
        requires
            old(self).wf(),
        ensures
            final(self).wf(),
            final(self)@ == old(self)@.shut_down(),
    {
        close(&mut self.outbound);
    }
}

/// The worker's half of a carrier: the blocking TLS stream and the pump that drives it.
pub struct Worker<T> {
    pub tls: T,
    pub pump: Pump,
}

/// Splits a blocking TLS stream, fully handshaken, into an async stream and the worker that is
/// to run on a thread of its own. The two are joined by a bounded channel inbound and an
/// unbounded one outbound, through which nothing has passed.
pub fn into_async<T>(tls: T) -> (halves: (BridgeStream, Worker<T>))
    ensures
        halves.0.wf(),
        halves.0@ == (BridgeState {
            backlog: Seq::empty(),
            delivered: Seq::empty(),
            arrivals: Seq::empty(),
            due: halves.1.pump@.carried,
            writable: true,
            handovers: Seq::empty(),
            accepted: Seq::empty(),
            carried: halves.1.pump@.due,
        }),
        halves.1.tls == tls,
        halves.1.pump@.accounted(),
        halves.1.pump@ == (PumpState {
            phase: PumpPhase::Idle,
            out_buf: Seq::empty(),
            pending: None,
            app_closed: false,
            written: Seq::empty(),
            settled: Seq::empty(),
            read: Seq::empty(),
            receipts: Seq::empty(),
            offers: Seq::empty(),
            due: halves.0@.carried,
            carried: halves.0@.due,
            capacity: INBOUND_CHANNEL_CAP as nat,
            received_at_send: halves.1.pump@.received_at_send,
        }),
{
    let (inbound_tx, inbound_rx) = bounded_channel(INBOUND_CHANNEL_CAP);
    let (outbound_tx, outbound_rx) = unbounded_channel();
    let stream = BridgeStream {
        inbound: inbound_rx,
        leftover: Vec::new(),
        leftover_pos: 0,
        delivered: Ghost(Seq::empty()),
        handovers: Ghost(Seq::empty()),
        accepted: Ghost(Seq::empty()),
        carried: Ghost(messages_carried(outbound_tx.tx)),
        outbound: Some(outbound_tx),
    };
    proof {
        assert(stream@.backlog =~= Seq::empty());
        assert(stream@.delivered + stream@.backlog =~= Seq::empty());
    }
    (stream, Worker { tls, pump: Pump::new(inbound_tx, outbound_rx) })
}

/// The end of a channel is seen in a longer log if it was seen before or comes last.
proof fn lemma_end_is_final(log: Seq<Arrival<Seq<u8>>>, arrival: Arrival<Seq<u8>>)
    ensures
        saw_end(log.push(arrival)) <==> saw_end(log) || arrival is Closed,
{
    let longer = log.push(arrival);
    if saw_end(log) {
        let i = choose|i: int| 0 <= i < log.len() && #[trigger] log[i] is Closed;
        assert(longer[i] is Closed);
    }
    if arrival is Closed {
        assert(longer[log.len() as int] is Closed);
    }
}

/// What the async side has read never differs in a byte from what the worker has sent it, and as
/// far as the worker has sent it, it is the beginning of what the TLS stream has yielded.
pub proof fn law_inbound_end_to_end(stream: BridgeState, pump: PumpState)
    requires
        stream.accounted(),
        pump.accounted(),
        stream.due == pump.carried,
    ensures
        agree(stream.delivered, joined(sent_chunks(pump.offers))),
        stream.delivered.len() <= joined(sent_chunks(pump.offers)).len()
            ==> stream.delivered.is_prefix_of(pump.read),
{
    let received = joined(arrived_chunks(stream.arrivals));
    let sent = joined(sent_chunks(pump.offers));
    let all = joined(stream.due);
    lemma_joined_prefix(arrived_chunks(stream.arrivals), stream.due);
    lemma_joined_prefix(sent_chunks(pump.offers), stream.due);
    assert(stream.delivered =~= received.take(stream.delivered.len() as int));
    assert(stream.delivered =~= all.take(stream.delivered.len() as int));
    lemma_prefixes_agree(stream.delivered, sent, all);
    law_inbound_in_order(pump);
    if stream.delivered.len() <= sent.len() {
        assert(stream.delivered =~= sent.take(stream.delivered.len() as int));
        assert(stream.delivered =~= pump.read.take(stream.delivered.len() as int));
    }
}

/// What the TLS stream has accepted from the worker never differs in a byte from what writes on
/// the async side have accepted, and where it is no longer than that, it is the beginning of it.
/// Once the writing side is shut down, it is never longer.
pub proof fn law_outbound_end_to_end(stream: BridgeState, pump: PumpState)
    requires
        stream.accounted(),
        pump.accounted(),
        stream.carried == pump.due,
    ensures
        agree(pump.written, stream.accepted),
        pump.written.len() <= stream.accepted.len() || !stream.writable
            ==> pump.written.is_prefix_of(stream.accepted),
{
    let received = joined(received_messages(pump.receipts));
    let all = joined(stream.carried);
    lemma_joined_prefix(received_messages(pump.receipts), stream.carried);
    lemma_joined_prefix(taken_messages(stream.handovers), stream.carried);
    law_outbound_in_order(pump);
    assert(pump.written =~= all.take(pump.written.len() as int));
    lemma_prefixes_agree(pump.written, stream.accepted, all);
    if pump.written.len() <= stream.accepted.len() && !pump.written.is_prefix_of(stream.accepted) {
        assert(pump.written =~= stream.accepted);
    }
}

/// Closing the writing side loses nothing: where the worker stops because the application is
/// done, every byte that a write has accepted has been written to the TLS stream, and flushed by
/// a flush that succeeded. Nor does it add anything: after a shutdown nothing else was written.
pub proof fn law_close_loses_nothing<E>(
    stream: BridgeState,
    pump: PumpState,
    result: Result<(), IoError<E>>,
    answer: Answer<Seq<u8>>,
)
    requires
        stream.accounted(),
        pump.accounted(),
        stream.carried == pump.due,
        pump.is_drained(result),
    ensures
        pump.flushed(result, answer).phase == PumpPhase::Finished,
        stream.accepted.is_prefix_of(pump.written),
        stream.accepted.is_prefix_of(pump.flushed(result, answer).settled),
        !stream.writable ==> pump.written == stream.accepted && pump.flushed(result, answer).settled
            == stream.accepted,
{
    assert(pump.written + pump.out_buf =~= pump.written);
    lemma_joined_prefix(taken_messages(stream.handovers), stream.carried);
}

/// After a shutdown the worker receives what the queue has taken, message by message, and then
/// the end: it never receives anything else, it has met the end only where it has received all
/// of it, and no write that comes later adds to it.
pub proof fn law_shutdown_ends_the_queue(
    stream: BridgeState,
    pump: PumpState,
    message: Seq<u8>,
    taken: bool,
)
    requires
        stream.accounted(),
        pump.accounted(),
        stream.carried == pump.due,
        !stream.writable,
    ensures
        received_messages(pump.receipts).is_prefix_of(taken_messages(stream.handovers)),
        pump.app_closed ==> received_messages(pump.receipts) == taken_messages(stream.handovers),
        stream.after_write(message, taken) == stream,
{
}

/// Inbound memory is bounded: at every moment, of the chunks read from the TLS stream at most one
/// more than the channel holds are still unreceived. The moment is one at which the stream has
/// received at least what it had when the last chunk was sent.
pub proof fn law_inbound_memory_is_bounded(stream: BridgeState, pump: PumpState)
    requires
        pump.accounted(),
        stream.due == pump.carried,
        pump.received_by_last_send() <= arrived_chunks(stream.arrivals).len(),
    ensures
        pump.chunks_read().len() <= arrived_chunks(stream.arrivals).len() + pump.capacity + 1,
{
    law_inbound_backlog_is_bounded(pump);
}

/// The end of the stream comes last: where a reader has seen it and nothing is left over, every
/// byte that the worker has sent has been read.
pub proof fn law_end_of_stream_comes_last(stream: BridgeState, pump: PumpState)
    requires
        stream.accounted(),
        pump.accounted(),
        stream.due == pump.carried,
        saw_end(stream.arrivals),
        stream.backlog.len() == 0,
    ensures
        joined(sent_chunks(pump.offers)).is_prefix_of(stream.delivered),
{
    assert(stream.delivered + stream.backlog =~= stream.delivered);
    lemma_joined_prefix(sent_chunks(pump.offers), pump.carried);
}

/// A read that has room, does not wait and adds no byte is the end of the stream, where no chunk
/// is empty: it comes exactly where the channel reports its end and every byte of every chunk has
/// been read.
pub proof fn law_empty_read_is_the_end(stream: BridgeState, space: nat, arrival: Arrival<Seq<u8>>)
    requires
        stream.accounted(),
        stream.after_read(space, arrival).accounted(),
        space > 0,
        !stream.read_waits(space, arrival),
        forall|i: int| 0 <= i < stream.due.len() ==> (#[trigger] stream.due[i]).len() > 0,
    ensures
        stream.after_read(space, arrival).delivered == stream.delivered <==> {
            &&& saw_end(stream.after_read(space, arrival).arrivals)
            &&& stream.delivered == joined(stream.due)
        },
{
    let next = stream.after_read(space, arrival);
    if next.delivered == stream.delivered {
        if stream.backlog.len() > 0 {
            assert(next.delivered.len() > stream.delivered.len());
        }
        assert(next.arrivals.drop_last() =~= stream.arrivals);
        if let Arrival::Chunk(chunk) = arrival {
            let last = arrived_chunks(stream.arrivals).len() as int;
            assert(arrived_chunks(next.arrivals)[last] == chunk);
            assert(stream.due[last].len() > 0);
            assert(next.delivered.len() > stream.delivered.len());
        }
        lemma_end_is_final(stream.arrivals, arrival);
        assert(stream.delivered + stream.backlog =~= stream.delivered);
    }
    if stream.delivered == joined(stream.due) {
        law_everything_read_stays_read(stream, next);
    }
}

/// Once every byte of every chunk has been read, no later read adds a byte, whatever happens in
/// between: the bytes read only grow, and there are no more.
pub proof fn law_everything_read_stays_read(stream: BridgeState, later: BridgeState)
    requires
        later.accounted(),
        later.due == stream.due,
        stream.delivered == joined(stream.due),
        stream.delivered.is_prefix_of(later.delivered),
    ensures
        later.delivered == stream.delivered,
{
    lemma_joined_prefix(arrived_chunks(later.arrivals), later.due);
    assert((later.delivered + later.backlog).len() <= joined(later.due).len());
    assert(later.delivered =~= stream.delivered);
}

/// A read never loses or reorders bytes, however small the buffers: what was read before, then
/// what this read adds, then what is left over are the bytes received, in order. A read that
/// waits changes nothing of that, and one that finds no room changes nothing at all.
pub proof fn law_reads_keep_bytes(stream: BridgeState, space: nat, arrival: Arrival<Seq<u8>>)
    requires
        stream.accounted(),
    ensures
        ({
            let next = stream.after_read(space, arrival);
            &&& stream.delivered.is_prefix_of(next.delivered)
            &&& next.delivered.len() - stream.delivered.len() <= space
            &&& next.delivered + next.backlog == joined(arrived_chunks(next.arrivals))
            &&& stream.read_waits(space, arrival) ==> next.delivered == stream.delivered
                && next.backlog == stream.backlog
            &&& space == 0 ==> next == stream
        }),
{
    let next = stream.after_read(space, arrival);
    assert(stream.delivered =~= next.delivered.take(stream.delivered.len() as int));
    if space > 0 && stream.backlog.len() == 0 {
        assert(next.arrivals.drop_last() =~= stream.arrivals);
        assert(stream.delivered + stream.backlog =~= stream.delivered);
        if let Arrival::Chunk(chunk) = arrival {
            lemma_joined_push(arrived_chunks(stream.arrivals), chunk);
            assert(next.delivered + next.backlog =~= stream.delivered + chunk);
        }
    } else if space > 0 {
        assert(next.delivered + next.backlog =~= stream.delivered + stream.backlog);
    }
}

/// After the writing side is shut down every write is refused, and no write changes anything.
pub proof fn law_no_write_after_shutdown(stream: BridgeState, message: Seq<u8>, taken: bool)
    ensures
        stream.shut_down().after_write(message, taken) == stream.shut_down(),
        write_outcome(stream.shut_down().writable, taken, message.len()) == Err::<
            usize,
            Fault,
        >(Fault::WriteAfterShutdown),
{
}

/// Shutting down the writing side leaves the reading side as it was: reads give the same bytes
/// before and after.
pub proof fn law_reading_survives_shutdown(
    stream: BridgeState,
    space: nat,
    arrival: Arrival<Seq<u8>>,
)
    ensures
        stream.shut_down().after_read(space, arrival) == stream.after_read(
            space,
            arrival,
        ).shut_down(),
        stream.shut_down().read_waits(space, arrival) == stream.read_waits(space, arrival),
{
}

/// A stream speaks of its own channels: what it has received and handed on is what passed through
/// them, and what waits is the rest of its last chunk.
proof fn law_stream_speaks_of_its_channels(stream: BridgeStream)
    requires
        stream.wf(),
    ensures
        stream@.arrivals == arrivals(stream.inbound.rx),
        stream@.due == chunks_due(stream.inbound.rx),
        stream@.backlog == stream.leftover@.subrange(
            stream.leftover_pos as int,
            stream.leftover@.len() as int,
        ),
        stream@.writable == stream.outbound is Some,
        stream.outbound matches Some(sender) ==> {
            &&& stream@.handovers == handovers(sender.tx)
            &&& stream@.carried == messages_carried(sender.tx)
        },
{
    assert(stream@.backlog =~= stream.leftover@.subrange(
        stream.leftover_pos as int,
        stream.leftover@.len() as int,
    ));
}

/// A write that is taken is taken whole: the bytes accepted are those before followed by all of
/// the message, the message is what was put last into the queue, and the write returns its length.
/// One that is not taken is accepted in no part, and is an error. Nothing else changes.
pub proof fn law_write_is_taken_whole(stream: BridgeState, message: Seq<u8>, taken: bool)
    requires
        stream.writable,
        message.len() <= usize::MAX,
    ensures
        ({
            let next = stream.after_write(message, taken);
            &&& next.handovers.len() == stream.handovers.len() + 1
            &&& next.handovers.drop_last() == stream.handovers
            &&& next.handovers.last().message == message
            &&& next.handovers.last().taken == taken
            &&& taken ==> next.accepted.len() == stream.accepted.len() + message.len()
            &&& taken ==> next.accepted == stream.accepted + message
            &&& !taken ==> next.accepted == stream.accepted
            &&& next == (BridgeState {
                handovers: next.handovers,
                accepted: next.accepted,
                ..stream
            })
        }),
        write_outcome(true, true, message.len()) matches Ok(count) && count == message.len(),
        write_outcome(true, false, message.len()) == Err::<usize, Fault>(Fault::BridgeClosed),
        write_outcome(false, taken, message.len()) == Err::<usize, Fault>(
            Fault::WriteAfterShutdown,
        ),
{
    assert(stream.after_write(message, taken).handovers.drop_last() =~= stream.handovers);
}

/// A stream that is shut down takes no write, and shutting it down changes nothing else.
pub proof fn law_shutdown_only_stops_writing(stream: BridgeState, message: Seq<u8>, taken: bool)
    ensures
        stream.shut_down() == (BridgeState { writable: false, ..stream }),
        !stream.writable ==> stream.after_write(message, taken) == stream,
{
}

/// A read gives the bytes that wait, as many as there is room for, from the first on. Those that
/// it does not give still wait, in their order, and the channel is not asked.
pub proof fn law_read_gives_what_waits(stream: BridgeState, space: nat, arrival: Arrival<Seq<u8>>)
    requires
        space > 0,
        stream.backlog.len() > 0,
    ensures
        ({
            let next = stream.after_read(space, arrival);
            let given = next.delivered.len() - stream.delivered.len();
            &&& given == space || (given == stream.backlog.len() && given <= space)
            &&& given <= stream.backlog.len()
            &&& next.delivered + next.backlog == stream.delivered + stream.backlog
            &&& next.backlog.len() == stream.backlog.len() - given
            &&& next == (BridgeState { delivered: next.delivered, backlog: next.backlog, ..stream })
        }),
        !stream.read_waits(space, arrival),
{
    let next = stream.after_read(space, arrival);
    assert(next.delivered + next.backlog =~= stream.delivered + stream.backlog);
}

/// Where nothing waits, the channel is asked once. Of a chunk that comes, a read gives as many
/// bytes as there is room for, from the first on, and the others wait, in their order. Without a
/// chunk nothing is given; the read has to wait if, and only if, the channel says so.
pub proof fn law_read_gives_what_comes(stream: BridgeState, space: nat, arrival: Arrival<Seq<u8>>)
    requires
        space > 0,
        stream.backlog.len() == 0,
    ensures
        ({
            let next = stream.after_read(space, arrival);
            &&& next.arrivals.len() == stream.arrivals.len() + 1
            &&& next.arrivals.drop_last() == stream.arrivals
            &&& next.arrivals.last() == arrival
            &&& arrival matches Arrival::Chunk(chunk) ==> {
                let given = next.delivered.len() - stream.delivered.len();
                &&& given == space || (given == chunk.len() && given <= space)
                &&& given <= chunk.len()
                &&& next.delivered + next.backlog == stream.delivered + chunk
                &&& next.backlog.len() == chunk.len() - given
            }
            &&& !(arrival is Chunk) ==> next.delivered == stream.delivered && next.backlog
                == stream.backlog
            &&& next == (BridgeState {
                arrivals: next.arrivals,
                delivered: next.delivered,
                backlog: next.backlog,
                ..stream
            })
        }),
        stream.read_waits(space, arrival) <==> arrival is Pending,
{
    let next = stream.after_read(space, arrival);
    assert(next.arrivals.drop_last() =~= stream.arrivals);
    if let Arrival::Chunk(chunk) = arrival {
        assert(next.delivered + next.backlog =~= stream.delivered + chunk);
    }
}

/// A read into a buffer without room changes nothing, does not wait and does not ask the channel.
pub proof fn law_read_without_room(stream: BridgeState, arrival: Arrival<Seq<u8>>)
    ensures
        stream.after_read(0, arrival) == stream,
        !stream.read_waits(0, arrival),
{
}

/// The bytes of those messages that were taken.
pub open spec fn taken_of(messages: Seq<Seq<u8>>, taken: Seq<bool>) -> Seq<u8>
    decreases messages.len(),
{
    if messages.len() == 0 {
        Seq::empty()
    } else if taken[messages.len() - 1] {
        taken_of(messages.drop_last(), taken) + messages.last()
    } else {
        taken_of(messages.drop_last(), taken)
    }
}

/// Over any number of writes, the bytes accepted are the messages taken, whole and one after the
/// other.
pub proof fn law_writes_are_accepted_in_order(
    states: Seq<BridgeState>,
    messages: Seq<Seq<u8>>,
    taken: Seq<bool>,
)
    requires
        states.len() == messages.len() + 1,
        taken.len() == messages.len(),
        states[0].writable,
        forall|k: int|
            0 <= k < messages.len() ==> states[k + 1] == states[k].after_write(
                #[trigger] messages[k],
                taken[k],
            ),
    ensures
        states.last().writable,
        states.last().accepted == states[0].accepted + taken_of(messages, taken),
    decreases messages.len(),
{
    if messages.len() > 0 {
        let at = messages.len() - 1;
        assert forall|k: int| 0 <= k < messages.drop_last().len() implies states.drop_last()[k + 1]
            == states.drop_last()[k].after_write(
            #[trigger] messages.drop_last()[k],
            taken.drop_last()[k],
        ) by {
            assert(states[k + 1] == states[k].after_write(messages[k], taken[k]));
        }
        law_writes_are_accepted_in_order(
            states.drop_last(),
            messages.drop_last(),
            taken.drop_last(),
        );
        lemma_taken_by_earlier_answers(messages.drop_last(), taken);
        assert(states[at + 1] == states[at].after_write(messages[at], taken[at]));
        assert(states.drop_last().last() == states[at]);
        assert(states.last().accepted =~= states[0].accepted + taken_of(messages, taken));
    } else {
        assert(states.last().accepted =~= states[0].accepted + taken_of(messages, taken));
    }
}

/// Which of some messages were taken does not depend on the answers after them.
proof fn lemma_taken_by_earlier_answers(messages: Seq<Seq<u8>>, taken: Seq<bool>)
    requires
        messages.len() < taken.len(),
    ensures
        taken_of(messages, taken.drop_last()) == taken_of(messages, taken),
    decreases messages.len(),
{
    if messages.len() > 0 {
        lemma_taken_by_earlier_answers(messages.drop_last(), taken);
    }
}

} // verus!
