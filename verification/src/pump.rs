//! The worker's loop between a blocking TLS stream and the two channels of its async side.
//!
//! The loop runs in rounds: collect what the application has queued, write it, flush, deliver
//! what was read before, read more. The reads, writes, flushes and pauses are for the caller to
//! perform: each method takes the result of the last one and says what to do next.

use crate::bytes::{joined, lemma_joined_push};
use crate::channel::{
    chunk_capacity, chunks_carried, messages_due, offers, receipts, received_at_send,
    received_messages, sent_chunks, try_recv, try_send, Answer, ChunkSender, MessageReceiver, Offer,
    Receipt,
};
use crate::error::{is_retryable, would_block, ErrorKind, IoError};
use vstd::prelude::*;

verus! {

/// How many bytes one read from the TLS stream asks for.
pub const PUMP_BUFFER: usize = 65536;

/// No more messages are collected once this many bytes wait to be written.
pub const RELAY_HIGH_WATER: usize = 262144;

/// How many chunks may wait for the application before the worker stops reading.
pub const INBOUND_CHANNEL_CAP: usize = 16;

/// How long a read or write on the socket waits, in milliseconds. It bounds how long the worker
/// parks before it looks at the outbound queue again.
pub const SOCKET_POLL_MILLIS: u64 = 5;

/// How long the worker sleeps, in milliseconds, where it cannot deliver what it has read.
pub const BACKPRESSURE_POLL_MILLIS: u64 = 1;

/// What the pump waits for.
#[derive(Clone, Copy, Debug, PartialEq, Eq, Structural)]
pub enum PumpPhase {
    /// A new round.
    Idle,
    /// The result of a write.
    Writing,
    /// The result of a flush.
    Flushing,
    /// The result of a read.
    Reading,
    /// The end of a pause.
    Pausing,
    /// Nothing: the pump has ended.
    Finished,
}

/// What the caller is to do next.
#[derive(Debug)]
pub enum PumpAction<E> {
    /// Write `Pump::output` to the TLS stream, once.
    Write,
    /// Flush the TLS stream.
    Flush,
    /// Read from the TLS stream, once.
    Read,
    /// Sleep for `BACKPRESSURE_POLL_MILLIS`.
    Pause,
    /// Stop, with this result.
    Finish(Result<(), IoError<E>>),
}

/// What one answer of the outbound queue means for the collecting.
#[derive(Clone, Copy, Debug, PartialEq, Eq, Structural)]
pub enum Intake {
    /// There may be more.
    More,
    /// There is no more for now.
    Drained,
    /// There will be no more.
    AppClosed,
}

/// A pump as its contracts see it.
pub struct PumpState {
    pub phase: PumpPhase,
    /// The bytes collected from the application and not yet written.
    pub out_buf: Seq<u8>,
    /// The chunk that was read and did not fit into the inbound channel.
    pub pending: Option<Seq<u8>>,
    /// Whether the application has dropped its sending side.
    pub app_closed: bool,
    /// The bytes that the TLS stream has accepted so far.
    pub written: Seq<u8>,
    /// The bytes that the TLS stream had accepted when a flush last succeeded.
    pub settled: Seq<u8>,
    /// The bytes that the TLS stream has yielded so far.
    pub read: Seq<u8>,
    /// What the outbound queue has answered so far.
    pub receipts: Seq<Receipt<Seq<u8>>>,
    /// What the inbound channel was offered so far.
    pub offers: Seq<Offer>,
    /// What the outbound queue carries over its whole life.
    pub due: Seq<Seq<u8>>,
    /// What the inbound channel carries over its whole life.
    pub carried: Seq<Seq<u8>>,
    /// How many chunks the inbound channel holds.
    pub capacity: nat,
    /// For each chunk that the inbound channel carries, how many the application had received
    /// when it was sent.
    pub received_at_send: Seq<nat>,
}

/// Whether the answers `new` are those of one collecting that began with `backlog` bytes: it
/// asks as long as less than `RELAY_HIGH_WATER` bytes wait, and stops at the first answer that
/// is no message.
pub open spec fn is_drain(backlog: nat, new: Seq<Receipt<Seq<u8>>>) -> bool {
    &&& forall|k: int| 0 <= k < new.len() - 1 ==> #[trigger] new[k] is Message
    &&& forall|k: int|
        0 <= k < new.len() ==> backlog + joined(received_messages(#[trigger] new.take(k))).len()
            < RELAY_HIGH_WATER
    &&& {
        ||| backlog + joined(received_messages(new)).len() >= RELAY_HIGH_WATER
        ||| new.len() > 0 && !(new.last() is Message)
    }
}

/// Whether the last chunk offered found the receiving half gone.
pub open spec fn reader_gone(offers: Seq<Offer>) -> bool {
    offers.len() > 0 && offers.last().answer is Closed
}

/// Whether, with each of the first `sent` chunks, no more chunks were unreceived than `capacity`
/// when it was sent; `received` is how many had been received then.
pub open spec fn keeps_limit(sent: nat, received: Seq<nat>, capacity: nat) -> bool {
    forall|k: int| 0 <= k < sent ==> k + 1 - #[trigger] received[k] <= capacity
}

/// Whether every message is at most `limit` bytes long.
pub open spec fn all_within(messages: Seq<Seq<u8>>, limit: nat) -> bool {
    forall|i: int| 0 <= i < messages.len() ==> (#[trigger] messages[i]).len() <= limit
}

/// Whether `backlog` bytes are less than the high-water mark and one more message, whatever the
/// longest of the messages is.
pub open spec fn is_bounded(backlog: nat, messages: Seq<Seq<u8>>) -> bool {
    forall|limit: nat| #[trigger]
        all_within(messages, limit) ==> backlog < RELAY_HIGH_WATER + limit
}

/// Whether an operation that gave this result ends the pump with its error.
pub open spec fn is_fatal<T, E>(result: Result<T, IoError<E>>) -> bool {
    result matches Err(error) && !is_retryable(error.kind)
}

/// What the caller is told in a phase; `result` is what an ended pump ends with.
pub open spec fn action_in<E>(phase: PumpPhase, result: Result<(), IoError<E>>) -> PumpAction<E> {
    match phase {
        PumpPhase::Writing => PumpAction::Write,
        PumpPhase::Flushing => PumpAction::Flush,
        PumpPhase::Reading => PumpAction::Read,
        PumpPhase::Pausing => PumpAction::Pause,
        _ => PumpAction::Finish(result),
    }
}

/// What a pump that ends on this result ends with: its error, if it is one that ends pumps.
pub open spec fn end_of<T, E>(result: Result<T, IoError<E>>) -> Result<(), IoError<E>> {
    match result {
        Err(error) if !is_retryable(error.kind) => Err(error),
        _ => Ok(()),
    }
}

impl PumpState {
    /// The bytes of the chunk that waits to be delivered.
    pub open spec fn pending_bytes(self) -> Seq<u8> {
        match self.pending {
            Some(chunk) => chunk,
            None => Seq::empty(),
        }
    }

    /// The chunks read from the TLS stream: those sent on, and the one that waits.
    pub open spec fn chunks_read(self) -> Seq<Seq<u8>> {
        match self.pending {
            Some(chunk) => sent_chunks(self.offers).push(chunk),
            None => sent_chunks(self.offers),
        }
    }

    /// How many chunks the application had received when the last chunk was sent to it.
    pub open spec fn received_by_last_send(self) -> nat {
        if sent_chunks(self.offers).len() == 0 {
            0
        } else {
            self.received_at_send[sent_chunks(self.offers).len() - 1]
        }
    }

    /// Whether the inbound channel keeps its limit, and a chunk waits only where the channel was
    /// sent as many chunks as it holds.
    pub open spec fn within_capacity(self) -> bool {
        &&& keeps_limit(sent_chunks(self.offers).len(), self.received_at_send, self.capacity)
        &&& self.pending is Some ==> sent_chunks(self.offers).len() >= self.capacity
    }

    /// What always holds of a pump. Outbound, every byte received from the application has been
    /// written or waits, in order. Inbound, every byte read has been delivered or waits, in
    /// order, until the reader is gone.
    pub open spec fn accounted(self) -> bool {
        &&& self.written + self.out_buf == joined(received_messages(self.receipts))
        &&& self.settled.is_prefix_of(self.written)
        &&& is_bounded(self.out_buf.len(), self.due)
        &&& self.within_capacity()
        &&& received_messages(self.receipts).is_prefix_of(self.due)
        &&& self.app_closed ==> received_messages(self.receipts) == self.due
        &&& sent_chunks(self.offers).is_prefix_of(self.carried)
        &&& if reader_gone(self.offers) {
            &&& self.phase == PumpPhase::Finished
            &&& self.pending is None
            &&& joined(sent_chunks(self.offers)) + self.offers.last().chunk == self.read
        } else {
            joined(sent_chunks(self.offers)) + self.pending_bytes() == self.read
        }
        &&& forall|i: int|
            0 <= i < self.offers.len() ==> (#[trigger] self.offers[i]).chunk.len() > 0
        &&& self.pending is Some ==> self.pending_bytes().len() > 0
        &&& self.phase == PumpPhase::Writing ==> self.out_buf.len() > 0
        &&& self.phase == PumpPhase::Reading ==> self.pending is None
        &&& self.phase == PumpPhase::Pausing ==> self.pending is Some
    }

    /// The same pump in another phase.
    pub open spec fn to(self, phase: PumpPhase) -> PumpState {
        PumpState { phase, ..self }
    }

    /// After a collecting in which the outbound queue gave the answers `new`.
    pub open spec fn collected(self, new: Seq<Receipt<Seq<u8>>>) -> PumpState {
        let out_buf = self.out_buf + joined(received_messages(new));
        PumpState {
            phase: if out_buf.len() > 0 {
                PumpPhase::Writing
            } else {
                PumpPhase::Flushing
            },
            out_buf,
            app_closed: self.app_closed || (new.len() > 0 && new.last() is Disconnected),
            receipts: self.receipts + new,
            ..self
        }
    }

    /// Whether `next` is this pump after one collecting.
    pub open spec fn begins(self, next: PumpState) -> bool {
        let new = next.receipts.skip(self.receipts.len() as int);
        &&& is_drain(self.out_buf.len(), new)
        &&& next == self.collected(new)
    }

    /// After a write that gave this result.
    pub open spec fn wrote<E>(self, result: Result<usize, IoError<E>>) -> PumpState {
        match result {
            Ok(count) => if count == 0 {
                self.to(PumpPhase::Finished)
            } else {
                PumpState {
                    phase: PumpPhase::Flushing,
                    out_buf: self.out_buf.skip(count as int),
                    written: self.written + self.out_buf.take(count as int),
                    ..self
                }
            },
            Err(error) => if is_retryable(error.kind) {
                self.to(PumpPhase::Flushing)
            } else {
                self.to(PumpPhase::Finished)
            },
        }
    }

    /// After `chunk` was offered to the inbound channel, with this answer.
    pub open spec fn offered(self, chunk: Seq<u8>, answer: Answer<Seq<u8>>) -> PumpState {
        PumpState {
            pending: if answer is Full {
                Some(chunk)
            } else {
                None
            },
            offers: self.offers.push(Offer { chunk, answer }),
            ..self
        }
    }

    /// After the bytes written so far have been flushed, where the flush gave `Ok`.
    pub open spec fn settling<E>(self, result: Result<(), IoError<E>>) -> PumpState {
        PumpState {
            settled: if result is Ok {
                self.written
            } else {
                self.settled
            },
            ..self
        }
    }

    /// Whether a flush that gave this result leaves nothing to do for an application that is
    /// done: everything is written, and flushed.
    pub open spec fn is_drained<E>(self, result: Result<(), IoError<E>>) -> bool {
        result is Ok && self.app_closed && self.out_buf.len() == 0
    }

    /// After a flush that gave this result; `answer` is what the inbound channel answers where
    /// a chunk waits to be delivered.
    pub open spec fn flushed<E>(
        self,
        result: Result<(), IoError<E>>,
        answer: Answer<Seq<u8>>,
    ) -> PumpState {
        if is_fatal(result) || self.is_drained(result) {
            self.settling(result).to(PumpPhase::Finished)
        } else {
            match self.pending {
                None => self.settling(result).to(PumpPhase::Reading),
                Some(chunk) => self.settling(result).offered(chunk, answer).to(
                    match answer {
                        Answer::Sent => PumpPhase::Reading,
                        Answer::Full(_) => PumpPhase::Pausing,
                        Answer::Closed => PumpPhase::Finished,
                    },
                ),
            }
        }
    }

    /// After a read that gave this result, before the next collecting; `answer` is what the
    /// inbound channel answers where something was read.
    pub open spec fn took_in<E>(
        self,
        result: Result<&[u8], IoError<E>>,
        answer: Answer<Seq<u8>>,
    ) -> PumpState {
        match result {
            Ok(data) => if data@.len() == 0 {
                self.to(PumpPhase::Finished)
            } else {
                PumpState { read: self.read + data@, ..self }.offered(data@, answer).to(
                    if answer is Closed {
                        PumpPhase::Finished
                    } else {
                        PumpPhase::Idle
                    },
                )
            },
            Err(error) => if is_retryable(error.kind) {
                self.to(PumpPhase::Idle)
            } else {
                self.to(PumpPhase::Finished)
            },
        }
    }
}

/// One more message is received last.
proof fn lemma_received_push(log: Seq<Receipt<Seq<u8>>>, receipt: Receipt<Seq<u8>>)
    ensures
        received_messages(log.push(receipt)) == (match receipt {
            Receipt::Message(message) => received_messages(log).push(message),
            _ => received_messages(log),
        }),
{
    assert(log.push(receipt).drop_last() =~= log);
}

/// One more chunk is sent last, if it is sent.
proof fn lemma_sent_push(log: Seq<Offer>, offer: Offer)
    ensures
        sent_chunks(log.push(offer)) == (if offer.answer is Sent {
            sent_chunks(log).push(offer.chunk)
        } else {
            sent_chunks(log)
        }),
{
    assert(log.push(offer).drop_last() =~= log);
}

/// A message taken while less than the high-water mark waits keeps the backlog bounded.
proof fn lemma_message_keeps_bound(backlog: nat, messages: Seq<Seq<u8>>, at: int)
    requires
        backlog < RELAY_HIGH_WATER,
        0 <= at < messages.len(),
    ensures
        is_bounded(backlog + messages[at].len(), messages),
{
}

/// An offer leaves every byte read accounted for.
proof fn lemma_offered(pump: PumpState, chunk: Seq<u8>, answer: Answer<Seq<u8>>)
    requires
        joined(sent_chunks(pump.offers)) + chunk == pump.read,
    ensures
        ({
            let next = pump.offered(chunk, answer);
            if answer is Closed {
                joined(sent_chunks(next.offers)) + chunk == next.read
            } else {
                joined(sent_chunks(next.offers)) + next.pending_bytes() == next.read
            }
        }),
{
    lemma_sent_push(pump.offers, Offer { chunk, answer });
    lemma_joined_push(sent_chunks(pump.offers), chunk);
    let next = pump.offered(chunk, answer);
    if answer is Sent {
        assert(joined(sent_chunks(next.offers)) + next.pending_bytes() =~= next.read);
    }
}

/// Adds what one answer of the outbound queue brought to the bytes that wait to be written, and
/// says what the answer means for the collecting.
pub fn absorb(out_buf: &mut Vec<u8>, receipt: Receipt<Vec<u8>>) -> (intake: Intake)
    ensures
        match receipt {
            Receipt::Message(message) => final(out_buf)@ == old(out_buf)@ + message@ && intake
                == Intake::More,
            Receipt::Empty => final(out_buf)@ == old(out_buf)@ && intake == Intake::Drained,
            Receipt::Disconnected => final(out_buf)@ == old(out_buf)@ && intake
                == Intake::AppClosed,
        },
{
    match receipt {
        Receipt::Message(message) => {
            out_buf.extend_from_slice(message.as_slice());
            proof {
                assert(out_buf@ =~= old(out_buf)@ + message@);
            }
            Intake::More
        },
        Receipt::Empty => Intake::Drained,
        Receipt::Disconnected => Intake::AppClosed,
    }
}

/// The chunk to keep for the next round after an offer that was answered so.
pub fn unsent(answer: Answer<Vec<u8>>) -> (chunk: Option<Vec<u8>>)
    ensures
        match answer {
            Answer::Full(returned) => chunk == Some(returned),
            _ => chunk is None,
        },
{
    match answer {
        Answer::Full(returned) => Some(returned),
        _ => None,
    }
}

/// The worker's side of a carrier.
pub struct Pump {
    inbound_tx: ChunkSender,
    outbound_rx: MessageReceiver,
    out_buf: Vec<u8>,
    inbound_pending: Option<Vec<u8>>,
    app_closed: bool,
    phase: PumpPhase,
    written: Ghost<Seq<u8>>,
    settled: Ghost<Seq<u8>>,
    read: Ghost<Seq<u8>>,
}

impl View for Pump {
    type V = PumpState;

    closed spec fn view(&self) -> PumpState {
        PumpState {
            phase: self.phase,
            out_buf: self.out_buf@,
            pending: match self.inbound_pending {
                Some(chunk) => Some(chunk@),
                None => None,
            },
            app_closed: self.app_closed,
            written: self.written@,
            settled: self.settled@,
            read: self.read@,
            receipts: receipts(self.outbound_rx.rx),
            offers: offers(self.inbound_tx.tx),
            due: messages_due(self.outbound_rx.rx),
            carried: chunks_carried(self.inbound_tx.tx),
            capacity: chunk_capacity(self.inbound_tx.tx),
            received_at_send: received_at_send(self.inbound_tx.tx),
        }
    }
}

impl Pump {
    /// A pump that has done nothing yet, between these two channels.
    pub(crate) fn new(inbound_tx: ChunkSender, outbound_rx: MessageReceiver) -> (pump: Pump)
        requires
            offers(inbound_tx.tx) == Seq::<Offer>::empty(),
            receipts(outbound_rx.rx) == Seq::<Receipt<Seq<u8>>>::empty(),
        ensures
            pump@ == (PumpState {
                phase: PumpPhase::Idle,
                out_buf: Seq::empty(),
                pending: None,
                app_closed: false,
                written: Seq::empty(),
                settled: Seq::empty(),
                read: Seq::empty(),
                receipts: Seq::empty(),
                offers: Seq::empty(),
                due: messages_due(outbound_rx.rx),
                carried: chunks_carried(inbound_tx.tx),
                capacity: chunk_capacity(inbound_tx.tx),
                received_at_send: received_at_send(inbound_tx.tx),
            }),
            pump@.accounted(),
    {
        let pump = Pump {
            inbound_tx,
            outbound_rx,
            out_buf: Vec::new(),
            inbound_pending: None,
            app_closed: false,
            phase: PumpPhase::Idle,
            written: Ghost(Seq::empty()),
            settled: Ghost(Seq::empty()),
            read: Ghost(Seq::empty()),
        };
        proof {
            assert(pump@.written + pump@.out_buf =~= Seq::empty());
            assert(joined(sent_chunks(pump@.offers)) + pump@.pending_bytes() =~= pump@.read);
        }
        pump
    }

    /// The bytes to write.
    pub fn output(&self) -> (bytes: &[u8])
        ensures
            bytes@ == self@.out_buf,
    {
        self.out_buf.as_slice()
    }

    /// Begins the first round.
    pub fn start<E>(&mut self) -> (action: PumpAction<E>)
        requires
            old(self)@.accounted(),
            old(self)@.phase == PumpPhase::Idle,
        ensures
            final(self)@.accounted(),
            old(self)@.begins(final(self)@),
            action == action_in(final(self)@.phase, Ok::<(), IoError<E>>(())),
    {
        self.collect()
    }

    /// Collects what the application has queued, and begins to write or flush.
    fn collect<E>(&mut self) -> (action: PumpAction<E>)
        requires
            old(self)@.accounted(),
            old(self)@.phase == PumpPhase::Idle,
        ensures
            final(self)@.accounted(),
            old(self)@.begins(final(self)@),
            action == action_in(final(self)@.phase, Ok::<(), IoError<E>>(())),
    {
        let ghost pre = self@;
        let ghost mut new: Seq<Receipt<Seq<u8>>> = Seq::empty();
        let mut intake = Intake::More;
        proof {
            assert(pre.out_buf =~= pre.out_buf + joined(received_messages(new)));
            assert(pre.receipts =~= pre.receipts + new);
        }
        while intake == Intake::More && self.out_buf.len() < RELAY_HIGH_WATER
            invariant
                self@ == (PumpState {
                    out_buf: pre.out_buf + joined(received_messages(new)),
                    receipts: pre.receipts + new,
                    ..pre
                }),
                self@.accounted(),
                self@.phase == PumpPhase::Idle,
                forall|k: int| 0 <= k < new.len() - 1 ==> #[trigger] new[k] is Message,
                forall|k: int|
                    0 <= k < new.len() ==> pre.out_buf.len() + joined(
                        received_messages(#[trigger] new.take(k)),
                    ).len() < RELAY_HIGH_WATER,
                new.len() > 0 ==> match new.last() {
                    Receipt::Message(_) => intake == Intake::More,
                    Receipt::Empty => intake == Intake::Drained,
                    Receipt::Disconnected => intake == Intake::AppClosed,
                },
                new.len() == 0 ==> intake == Intake::More,
                intake == Intake::AppClosed ==> received_messages(self@.receipts) == self@.due,
            decreases
                self@.due.len() - received_messages(self@.receipts).len() + (if intake
                    == Intake::More {
                    1int
                } else {
                    0
                }),
        {
            let ghost before = self@;
            let receipt = try_recv(&mut self.outbound_rx);
            let ghost answer = receipt@;
            intake = absorb(&mut self.out_buf, receipt);
            proof {
                lemma_received_push(before.receipts, answer);
                lemma_received_push(new, answer);
                if let Receipt::Message(message) = answer {
                    lemma_joined_push(received_messages(before.receipts), message);
                    lemma_joined_push(received_messages(new), message);
                    let at = received_messages(before.receipts).len() as int;
                    assert(received_messages(self@.receipts)[at] == message);
                    lemma_message_keeps_bound(before.out_buf.len(), before.due, at);
                }
                let longer = new.push(answer);
                assert forall|k: int| 0 <= k < longer.len() implies pre.out_buf.len() + joined(
                    received_messages(#[trigger] longer.take(k)),
                ).len() < RELAY_HIGH_WATER by {
                    assert(longer.take(k) =~= new.take(k));
                    if k == new.len() {
                        assert(longer.take(k) =~= new);
                    }
                }
                assert(self@.receipts =~= pre.receipts + longer);
                assert(self@.out_buf =~= pre.out_buf + joined(received_messages(longer)));
                assert(self@.written + self@.out_buf =~= joined(
                    received_messages(self@.receipts),
                ));
                new = longer;
            }
        }
        if intake == Intake::AppClosed {
            self.app_closed = true;
        }
        proof {
            assert(self@.receipts.skip(pre.receipts.len() as int) =~= new);
        }
        if self.out_buf.is_empty() {
            self.phase = PumpPhase::Flushing;
            PumpAction::Flush
        } else {
            self.phase = PumpPhase::Writing;
            PumpAction::Write
        }
    }

    /// Offers a chunk to the application, keeps it if it does not fit, and says whether the
    /// application's reading side is gone.
    fn offer(&mut self, chunk: Vec<u8>) -> (gone: bool)
        requires
            old(self)@.pending is None,
            old(self)@.within_capacity(),
        ensures
            final(self)@.within_capacity(),
            final(self)@ == old(self)@.offered(chunk@, final(self)@.offers.last().answer),
            sent_chunks(final(self)@.offers).is_prefix_of(final(self)@.carried),
            gone == reader_gone(final(self)@.offers),
    {
        let ghost before = self@;
        let ghost offered = chunk@;
        let answer = try_send(&mut self.inbound_tx, chunk);
        proof {
            lemma_sent_push(before.offers, Offer { chunk: offered, answer: answer@ });
        }
        let gone = matches!(answer, Answer::Closed);
        self.inbound_pending = unsent(answer);
        gone
    }

    /// Goes on after a write of `output`, which accepted `Ok` many bytes.
    pub fn wrote<E>(&mut self, result: Result<usize, IoError<E>>) -> (action: PumpAction<E>)
        requires
            old(self)@.accounted(),
            old(self)@.phase == PumpPhase::Writing,
            result matches Ok(count) ==> count <= old(self)@.out_buf.len(),
        ensures
            final(self)@.accounted(),
            final(self)@ == old(self)@.wrote(result),
            result matches Ok(count) ==> {
                &&& final(self)@.written.len() == old(self)@.written.len() + count
                &&& final(self)@.written + final(self)@.out_buf == old(self)@.written
                    + old(self)@.out_buf
            },
            action == action_in(final(self)@.phase, end_of(result)),
    {
        let ghost pre = self@;
        match result {
            Ok(count) => {
                if count == 0 {
                    self.phase = PumpPhase::Finished;
                    return PumpAction::Finish(Ok(()));
                }
                let rest = self.out_buf.split_off(count);
                self.written = Ghost(self.written@ + pre.out_buf.take(count as int));
                self.out_buf = rest;
                proof {
                    assert(self@.out_buf =~= pre.out_buf.skip(count as int));
                    assert(self@.written + self@.out_buf =~= pre.written + pre.out_buf);
                    assert(self@.settled =~= self@.written.take(self@.settled.len() as int));
                }
            },
            Err(error) => {
                if !would_block(&error) {
                    self.phase = PumpPhase::Finished;
                    return PumpAction::Finish(Err(error));
                }
            },
        }
        self.phase = PumpPhase::Flushing;
        PumpAction::Flush
    }

    /// Goes on after a flush: stops where the application is done and everything is written and
    /// flushed, delivers what was read before, and asks for a read or, where the inbound channel
    /// is full, for a pause. A flush that makes no progress is tried again in the next round.
    pub fn flushed<E>(&mut self, result: Result<(), IoError<E>>) -> (action: PumpAction<E>)
        requires
            old(self)@.accounted(),
            old(self)@.phase == PumpPhase::Flushing,
        ensures
            final(self)@.accounted(),
            final(self)@ == old(self)@.flushed(result, final(self)@.offers.last().answer),
            action == action_in(final(self)@.phase, end_of(result)),
    {
        match result {
            Ok(_) => {
                self.settled = Ghost(self.written@);
                if self.app_closed && self.out_buf.is_empty() {
                    self.phase = PumpPhase::Finished;
                    return PumpAction::Finish(Ok(()));
                }
            },
            Err(error) => {
                if !would_block(&error) {
                    self.phase = PumpPhase::Finished;
                    return PumpAction::Finish(Err(error));
                }
            },
        }
        if let Some(chunk) = self.inbound_pending.take() {
            let ghost before = self@;
            let ghost waiting = chunk@;
            let gone = self.offer(chunk);
            proof {
                lemma_offered(before, waiting, self@.offers.last().answer);
            }
            if gone {
                self.phase = PumpPhase::Finished;
                return PumpAction::Finish(Ok(()));
            }
        }
        if self.inbound_pending.is_none() {
            self.phase = PumpPhase::Reading;
            PumpAction::Read
        } else {
            self.phase = PumpPhase::Pausing;
            PumpAction::Pause
        }
    }

    /// Goes on after a read, which gave `Ok` these bytes: delivers them and begins the next
    /// round. No bytes mean the end of the TLS stream.
    pub fn took_in<E>(&mut self, result: Result<&[u8], IoError<E>>) -> (action: PumpAction<E>)
        requires
            old(self)@.accounted(),
            old(self)@.phase == PumpPhase::Reading,
        ensures
            final(self)@.accounted(),
            ({
                let between = old(self)@.took_in(result, final(self)@.offers.last().answer);
                if between.phase == PumpPhase::Finished {
                    final(self)@ == between
                } else {
                    between.begins(final(self)@)
                }
            }),
            final(self)@.read == (match result {
                Ok(data) => old(self)@.read + data@,
                Err(_) => old(self)@.read,
            }),
            action == action_in(final(self)@.phase, end_of(result)),
    {
        match result {
            Ok(data) => {
                if data.len() == 0 {
                    proof {
                        assert(self@.read + data@ =~= self@.read);
                    }
                    self.phase = PumpPhase::Finished;
                    return PumpAction::Finish(Ok(()));
                }
                self.read = Ghost(self.read@ + data@);
                let ghost before = self@;
                let gone = self.offer(vstd::slice::slice_to_vec(data));
                proof {
                    assert(joined(sent_chunks(before.offers)) + data@ =~= before.read);
                    lemma_offered(before, data@, self@.offers.last().answer);
                }
                if gone {
                    self.phase = PumpPhase::Finished;
                    return PumpAction::Finish(Ok(()));
                }
            },
            Err(error) => {
                if !would_block(&error) {
                    self.phase = PumpPhase::Finished;
                    return PumpAction::Finish(Err(error));
                }
            },
        }
        self.phase = PumpPhase::Idle;
        self.collect()
    }

    /// Goes on after a pause: begins the next round.
    pub fn paused<E>(&mut self) -> (action: PumpAction<E>)
        requires
            old(self)@.accounted(),
            old(self)@.phase == PumpPhase::Pausing,
        ensures
            final(self)@.accounted(),
            old(self)@.to(PumpPhase::Idle).begins(final(self)@),
            action == action_in(final(self)@.phase, Ok::<(), IoError<E>>(())),
    {
        self.phase = PumpPhase::Idle;
        self.collect()
    }
}

/// What the TLS stream has accepted is what the application has sent, in order and without a
/// gap: the bytes not written yet come after it.
pub proof fn law_outbound_in_order(pump: PumpState)
    requires
        pump.accounted(),
    ensures
        pump.written.is_prefix_of(joined(received_messages(pump.receipts))),
        joined(received_messages(pump.receipts)).skip(pump.written.len() as int) == pump.out_buf,
{
    assert((pump.written + pump.out_buf).skip(pump.written.len() as int) =~= pump.out_buf);
    assert(pump.written =~= (pump.written + pump.out_buf).take(pump.written.len() as int));
}

/// What was sent to the application is what the TLS stream has yielded, in order and without a
/// gap, and no chunk of it is empty, which a reader would take for the end of the stream.
pub proof fn law_inbound_in_order(pump: PumpState)
    requires
        pump.accounted(),
    ensures
        joined(sent_chunks(pump.offers)).is_prefix_of(pump.read),
        forall|i: int|
            0 <= i < sent_chunks(pump.offers).len() ==> (#[trigger] sent_chunks(
                pump.offers,
            )[i]).len() > 0,
{
    let sent = joined(sent_chunks(pump.offers));
    assert(sent =~= pump.read.take(sent.len() as int));
    lemma_sent_nonempty(pump.offers);
}

/// Chunks sent are chunks offered, so where none offered is empty none sent is.
proof fn lemma_sent_nonempty(log: Seq<Offer>)
    requires
        forall|i: int| 0 <= i < log.len() ==> (#[trigger] log[i]).chunk.len() > 0,
    ensures
        forall|i: int|
            0 <= i < sent_chunks(log).len() ==> (#[trigger] sent_chunks(log)[i]).len() > 0,
    decreases log.len(),
{
    if log.len() > 0 {
        let shorter = log.drop_last();
        assert forall|i: int| 0 <= i < shorter.len() implies (#[trigger] shorter[i]).chunk.len()
            > 0 by {
            assert(log[i].chunk.len() > 0);
        }
        lemma_sent_nonempty(shorter);
        assert(log[log.len() - 1].chunk.len() > 0);
        assert forall|i: int| 0 <= i < sent_chunks(log).len() implies (#[trigger] sent_chunks(
            log,
        )[i]).len() > 0 by {
            if i < sent_chunks(shorter).len() {
                assert(sent_chunks(log)[i] == sent_chunks(shorter)[i]);
            }
        }
    }
}

/// The TLS stream is read only where everything read before has been sent on. So at most one
/// chunk ever waits outside the inbound channel, and a reader that stalls stalls the peer.
pub proof fn law_reads_only_after_delivery(pump: PumpState)
    requires
        pump.accounted(),
        pump.phase == PumpPhase::Reading,
    ensures
        joined(sent_chunks(pump.offers)) == pump.read,
{
    assert(joined(sent_chunks(pump.offers)) + pump.pending_bytes() =~= joined(
        sent_chunks(pump.offers),
    ));
}

/// What was read and not received is bounded, however long the application does not read. The
/// chunks read are those sent on and at most one that waits, which there is only where the
/// channel was sent its fill. When a chunk was sent, no more than the capacity of the channel
/// were unreceived with it; between two sends their number only falls. So the chunks read are at
/// most one more than the capacity ahead of those received.
pub proof fn law_inbound_backlog_is_bounded(pump: PumpState)
    requires
        pump.accounted(),
    ensures
        !reader_gone(pump.offers) ==> joined(pump.chunks_read()) == pump.read,
        pump.chunks_read().len() <= sent_chunks(pump.offers).len() + 1,
        pump.pending is Some ==> sent_chunks(pump.offers).len() >= pump.capacity,
        forall|k: int|
            0 <= k < sent_chunks(pump.offers).len() ==> k + 1 - #[trigger] pump.received_at_send[k]
                <= pump.capacity,
        pump.chunks_read().len() <= pump.received_by_last_send() + pump.capacity + 1,
{
    let sent = sent_chunks(pump.offers);
    match pump.pending {
        Some(chunk) => lemma_joined_push(sent, chunk),
        None => assert(joined(sent) + pump.pending_bytes() =~= joined(sent)),
    }
}

/// Collecting stops at the high-water mark: without the last message that it takes, less than
/// the mark waits, and where the mark was reached before it takes none.
pub proof fn law_outbound_backlog_is_bounded(pump: PumpState, next: PumpState)
    requires
        pump.begins(next),
    ensures
        pump.out_buf.len() >= RELAY_HIGH_WATER ==> next.out_buf == pump.out_buf,
        next.out_buf.len() > pump.out_buf.len() ==> {
            let new = next.receipts.skip(pump.receipts.len() as int);
            pump.out_buf.len() + joined(received_messages(new.drop_last())).len()
                < RELAY_HIGH_WATER
        },
{
    let new = next.receipts.skip(pump.receipts.len() as int);
    if new.len() > 0 {
        assert(new.take(0) =~= Seq::empty());
        assert(new.take(new.len() - 1) =~= new.drop_last());
    } else {
        assert(next.out_buf =~= pump.out_buf);
    }
}

/// What waits to be written is bounded at every moment, even where no write ever makes progress:
/// it is less than the high-water mark and the longest message together. What is written at once
/// is that, and never nothing.
pub proof fn law_outbound_memory_is_bounded(pump: PumpState, limit: nat)
    requires
        pump.accounted(),
        forall|i: int| 0 <= i < pump.due.len() ==> (#[trigger] pump.due[i]).len() <= limit,
    ensures
        pump.out_buf.len() < 262144 + limit,
        pump.phase == PumpPhase::Writing ==> pump.out_buf.len() >= 1,
{
    assert(all_within(pump.due, limit));
}

/// Only collecting adds to what waits to be written: no write, flush or read does.
pub proof fn law_only_collecting_adds_to_the_backlog<E>(
    pump: PumpState,
    wrote: Result<usize, IoError<E>>,
    flushed: Result<(), IoError<E>>,
    read: Result<&[u8], IoError<E>>,
    answer: Answer<Seq<u8>>,
)
    requires
        wrote matches Ok(count) ==> count <= pump.out_buf.len(),
    ensures
        pump.wrote(wrote).out_buf.len() <= pump.out_buf.len(),
        pump.flushed(flushed, answer).out_buf == pump.out_buf,
        pump.took_in(read, answer).out_buf == pump.out_buf,
{
}

/// Every round flushes, whether or not the application has queued anything: the round begins
/// with a flush, or with a write after which, unless it ends the pump, a flush follows.
pub proof fn law_every_round_flushes<E>(
    pump: PumpState,
    next: PumpState,
    result: Result<usize, IoError<E>>,
)
    requires
        pump.begins(next),
    ensures
        next.phase == PumpPhase::Flushing || next.phase == PumpPhase::Writing,
        next.phase == PumpPhase::Writing && !is_fatal(result) && result != Ok::<usize, IoError<E>>(
            0,
        ) ==> next.wrote(result).phase == PumpPhase::Flushing,
{
}

/// A read, write or flush that makes no progress loses nothing and ends nothing. After a read or
/// write only the phase has changed. After a flush nothing more is flushed than before, the round
/// goes on to its reading side, and a pump whose application is done does not end for that.
pub proof fn law_blocked_operations_are_retried<E>(
    pump: PumpState,
    error: IoError<E>,
    answer: Answer<Seq<u8>>,
)
    requires
        is_retryable(error.kind),
    ensures
        pump.wrote(Err::<usize, IoError<E>>(error)) == pump.to(PumpPhase::Flushing),
        pump.took_in(Err::<&[u8], IoError<E>>(error), answer) == pump.to(PumpPhase::Idle),
        pump.flushed(Err::<(), IoError<E>>(error), answer) == (match pump.pending {
            None => pump.to(PumpPhase::Reading),
            Some(chunk) => pump.offered(chunk, answer).to(
                match answer {
                    Answer::Sent => PumpPhase::Reading,
                    Answer::Full(_) => PumpPhase::Pausing,
                    Answer::Closed => PumpPhase::Finished,
                },
            ),
        }),
        !(pump.app_closed && pump.out_buf.len() == 0) ==> pump.flushed(
            Err::<(), IoError<E>>(error),
            answer,
        ).phase == pump.flushed(Ok::<(), IoError<E>>(()), answer).phase,
{
}

/// Every other error ends the pump, which then ends with that error.
pub proof fn law_other_errors_end_the_pump<E>(
    pump: PumpState,
    error: IoError<E>,
    answer: Answer<Seq<u8>>,
)
    requires
        !is_retryable(error.kind),
    ensures
        pump.flushed(Err::<(), IoError<E>>(error), answer) == pump.to(PumpPhase::Finished),
        pump.wrote(Err::<usize, IoError<E>>(error)) == pump.to(PumpPhase::Finished),
        pump.took_in(Err::<&[u8], IoError<E>>(error), answer) == pump.to(PumpPhase::Finished),
        end_of(Err::<(), IoError<E>>(error)) == Err::<(), IoError<E>>(error),
        end_of(Err::<usize, IoError<E>>(error)) == Err::<(), IoError<E>>(error),
        end_of(Err::<&[u8], IoError<E>>(error)) == Err::<(), IoError<E>>(error),
{
}

/// An application that does not read does not hold back what it writes: where the inbound
/// channel stays full, the pump pauses, keeps the chunk, and the next round writes whatever the
/// application has queued meanwhile.
pub proof fn law_full_inbound_does_not_block_outbound<E>(
    pump: PumpState,
    result: Result<(), IoError<E>>,
    chunk: Seq<u8>,
    next: PumpState,
)
    requires
        !is_fatal(result),
        !pump.is_drained(result),
        pump.pending == Some(chunk),
        pump.flushed(result, Answer::Full(chunk)).to(PumpPhase::Idle).begins(next),
    ensures
        pump.flushed(result, Answer::Full(chunk)).phase == PumpPhase::Pausing,
        next.pending == Some(chunk),
        ({
            let new = next.receipts.skip(pump.receipts.len() as int);
            &&& next.out_buf == pump.out_buf + joined(received_messages(new))
            &&& next.out_buf.len() > 0 ==> next.phase == PumpPhase::Writing
        }),
{
}

/// Where the pump ends because the application is done, everything that the application sent
/// has been written, and a flush has succeeded since; and as long as something is unwritten or
/// unflushed, it does not end for that reason.
pub proof fn law_application_close_drains<E>(
    pump: PumpState,
    result: Result<(), IoError<E>>,
    answer: Answer<Seq<u8>>,
)
    requires
        pump.accounted(),
        pump.phase == PumpPhase::Flushing,
        !is_fatal(result),
        !(answer is Closed),
    ensures
        pump.flushed(result, answer).phase == PumpPhase::Finished <==> result is Ok
            && pump.app_closed && pump.out_buf.len() == 0,
        pump.flushed(result, answer).phase == PumpPhase::Finished ==> {
            &&& pump.written == joined(received_messages(pump.receipts))
            &&& received_messages(pump.receipts) == pump.due
            &&& pump.flushed(result, answer).settled == pump.written
        },
{
    if pump.out_buf.len() == 0 {
        assert(pump.written + pump.out_buf =~= pump.written);
    }
}

/// A pump speaks of its own channels and buffers: its state is what these hold, and what was
/// collected and read besides.
proof fn law_pump_speaks_of_its_channels(pump: Pump)
    ensures
        pump@.phase == pump.phase,
        pump@.out_buf == pump.out_buf@,
        pump.inbound_pending matches Some(chunk) ==> pump@.pending == Some(chunk@),
        pump.inbound_pending is None ==> pump@.pending is None,
        pump@.app_closed == pump.app_closed,
        pump@.receipts == receipts(pump.outbound_rx.rx),
        pump@.due == messages_due(pump.outbound_rx.rx),
        pump@.offers == offers(pump.inbound_tx.tx),
        pump@.carried == chunks_carried(pump.inbound_tx.tx),
        pump@.capacity == chunk_capacity(pump.inbound_tx.tx),
        pump@.received_at_send == received_at_send(pump.inbound_tx.tx),
{
}

/// A write that accepts `count` bytes takes exactly the first `count` out of those that wait: the
/// others still wait, in their order, the accepted ones come last in what was written, and nothing
/// else changes.
pub proof fn law_write_takes_what_was_accepted<E>(pump: PumpState, count: usize)
    requires
        0 < count <= pump.out_buf.len(),
    ensures
        ({
            let next = pump.wrote(Ok::<usize, IoError<E>>(count));
            &&& next.out_buf.len() == pump.out_buf.len() - count
            &&& forall|i: int|
                0 <= i < next.out_buf.len() ==> #[trigger] next.out_buf[i] == pump.out_buf[i
                    + count]
            &&& next.written.len() == pump.written.len() + count
            &&& next.written + next.out_buf == pump.written + pump.out_buf
            &&& next == (PumpState {
                phase: PumpPhase::Flushing,
                out_buf: next.out_buf,
                written: next.written,
                ..pump
            })
        }),
{
    let next = pump.wrote(Ok::<usize, IoError<E>>(count));
    assert(next.written + next.out_buf =~= pump.written + pump.out_buf);
}

/// A write or read that accepts or gives nothing, and one that fails, changes nothing but what
/// comes next: another try where it was only too early, and else the end.
pub proof fn law_failed_operations_change_nothing<E>(
    pump: PumpState,
    nothing: &[u8],
    error: IoError<E>,
    answer: Answer<Seq<u8>>,
)
    requires
        nothing@.len() == 0,
    ensures
        pump.wrote(Ok::<usize, IoError<E>>(0)) == (PumpState {
            phase: PumpPhase::Finished,
            ..pump
        }),
        pump.took_in(Ok::<&[u8], IoError<E>>(nothing), answer) == (PumpState {
            phase: PumpPhase::Finished,
            ..pump
        }),
        error.kind == ErrorKind::WouldBlock || error.kind == ErrorKind::TimedOut ==> {
            &&& pump.wrote(Err::<usize, IoError<E>>(error)) == (PumpState {
                phase: PumpPhase::Flushing,
                ..pump
            })
            &&& pump.took_in(Err::<&[u8], IoError<E>>(error), answer) == (PumpState {
                phase: PumpPhase::Idle,
                ..pump
            })
        },
        error.kind != ErrorKind::WouldBlock && error.kind != ErrorKind::TimedOut ==> {
            let ended = PumpState { phase: PumpPhase::Finished, ..pump };
            &&& pump.wrote(Err::<usize, IoError<E>>(error)) == ended
            &&& pump.took_in(Err::<&[u8], IoError<E>>(error), answer) == ended
            &&& pump.flushed(Err::<(), IoError<E>>(error), answer) == ended
        },
{
}

/// Everything that a read gives is added to what was read and is offered to the application, in
/// one chunk. It waits if, and only if, the channel is full, and ends the pump if, and only if,
/// the application is gone. Nothing else changes.
pub proof fn law_read_is_offered_whole<E>(pump: PumpState, data: &[u8], answer: Answer<Seq<u8>>)
    requires
        data@.len() > 0,
    ensures
        ({
            let next = pump.took_in(Ok::<&[u8], IoError<E>>(data), answer);
            &&& next.read.len() == pump.read.len() + data@.len()
            &&& next.read == pump.read + data@
            &&& next.offers.len() == pump.offers.len() + 1
            &&& next.offers.drop_last() == pump.offers
            &&& next.offers.last().chunk == data@
            &&& next.offers.last().answer == answer
            &&& answer is Full ==> next.pending == Some(data@)
            &&& !(answer is Full) ==> next.pending is None
            &&& answer is Closed ==> next.phase == PumpPhase::Finished
            &&& !(answer is Closed) ==> next.phase == PumpPhase::Idle
            &&& next == (PumpState {
                phase: next.phase,
                read: next.read,
                offers: next.offers,
                pending: next.pending,
                ..pump
            })
        }),
{
    let next = pump.took_in(Ok::<&[u8], IoError<E>>(data), answer);
    assert(next.offers.drop_last() =~= pump.offers);
}

/// A flush changes no byte on its way: what waits, what was written and what was read stay. What
/// was written is flushed if, and only if, the flush succeeds. A chunk that waits is offered again
/// as it is, and is kept if, and only if, the channel is still full.
pub proof fn law_flush_keeps_bytes<E>(
    pump: PumpState,
    result: Result<(), IoError<E>>,
    answer: Answer<Seq<u8>>,
)
    ensures
        ({
            let next = pump.flushed(result, answer);
            let stopped = match result {
                Ok(_) => pump.app_closed && pump.out_buf.len() == 0,
                Err(error) => error.kind != ErrorKind::WouldBlock && error.kind
                    != ErrorKind::TimedOut,
            };
            &&& result is Ok ==> next.settled == pump.written
            &&& result is Err ==> next.settled == pump.settled
            &&& stopped ==> next.phase == PumpPhase::Finished && next.offers == pump.offers
                && next.pending == pump.pending
            &&& !stopped && pump.pending is None ==> next.phase == PumpPhase::Reading
                && next.offers == pump.offers && next.pending is None
            &&& !stopped ==> (pump.pending matches Some(chunk) ==> {
                &&& next.offers.len() == pump.offers.len() + 1
                &&& next.offers.drop_last() == pump.offers
                &&& next.offers.last().chunk == chunk
                &&& next.offers.last().answer == answer
                &&& answer is Sent ==> next.phase == PumpPhase::Reading && next.pending is None
                &&& answer is Full ==> next.phase == PumpPhase::Pausing && next.pending == Some(
                    chunk,
                )
                &&& answer is Closed ==> next.phase == PumpPhase::Finished && next.pending is None
            })
            &&& next == (PumpState {
                phase: next.phase,
                settled: next.settled,
                offers: next.offers,
                pending: next.pending,
                ..pump
            })
        }),
{
    let next = pump.flushed(result, answer);
    if next.offers != pump.offers {
        assert(next.offers.drop_last() =~= pump.offers);
    }
}

/// Collecting appends the messages that come, in their order and whole, and nothing else. It asks
/// until the queue has no message or the mark is reached, and not beyond; only an end of the queue
/// closes the application's side. Then there is a write if anything waits, and else a flush.
pub proof fn law_collecting_appends_messages(pump: PumpState, next: PumpState)
    requires
        pump.begins(next),
    ensures
        pump.receipts.is_prefix_of(next.receipts),
        ({
            let new = next.receipts.skip(pump.receipts.len() as int);
            &&& next.out_buf == pump.out_buf + joined(received_messages(new))
            &&& forall|k: int| 0 <= k < new.len() - 1 ==> #[trigger] new[k] is Message
            &&& forall|k: int|
                0 <= k < new.len() ==> pump.out_buf.len() + joined(
                    received_messages(#[trigger] new.take(k)),
                ).len() < 262144
            &&& next.out_buf.len() >= 262144 || (new.len() > 0 && !(new.last() is Message))
            &&& next.app_closed == (pump.app_closed || (new.len() > 0 && new.last()
                is Disconnected))
        }),
        next.out_buf.len() > 0 ==> next.phase == PumpPhase::Writing,
        next.out_buf.len() == 0 ==> next.phase == PumpPhase::Flushing,
        next == (PumpState {
            phase: next.phase,
            out_buf: next.out_buf,
            app_closed: next.app_closed,
            receipts: next.receipts,
            ..pump
        }),
{
    assert(pump.receipts =~= next.receipts.take(pump.receipts.len() as int));
}

/// A pause, and every other change of phase alone, leaves all bytes and logs as they are.
pub proof fn law_pausing_changes_nothing(pump: PumpState, phase: PumpPhase)
    ensures
        pump.to(phase) == (PumpState { phase, ..pump }),
{
}

/// In each phase the caller is told what the phase waits for. A pump that ends does so with the
/// error of the operation that ended it, and with success where there was none.
pub proof fn law_actions_match_phases<T, E>(
    result: Result<(), IoError<E>>,
    value: T,
    error: IoError<E>,
)
    ensures
        action_in(PumpPhase::Writing, result) == PumpAction::<E>::Write,
        action_in(PumpPhase::Flushing, result) == PumpAction::<E>::Flush,
        action_in(PumpPhase::Reading, result) == PumpAction::<E>::Read,
        action_in(PumpPhase::Pausing, result) == PumpAction::<E>::Pause,
        action_in(PumpPhase::Finished, result) == PumpAction::Finish(result),
        end_of(Ok::<T, IoError<E>>(value)) == Ok::<(), IoError<E>>(()),
        error.kind != ErrorKind::WouldBlock && error.kind != ErrorKind::TimedOut ==> end_of(
            Err::<T, IoError<E>>(error),
        ) == Err::<(), IoError<E>>(error),
        error.kind == ErrorKind::WouldBlock || error.kind == ErrorKind::TimedOut ==> end_of(
            Err::<T, IoError<E>>(error),
        ) == Ok::<(), IoError<E>>(()),
{
}

/// One step in the life of a pump.
pub enum PumpStep<'a, E> {
    /// A collecting.
    Collected,
    /// A write, with its result.
    Wrote(Result<usize, IoError<E>>),
    /// A flush, with its result, and the answer of the inbound channel.
    Flushed(Result<(), IoError<E>>, Answer<Seq<u8>>),
    /// A read, with its result, and the answer of the inbound channel.
    TookIn(Result<&'a [u8], IoError<E>>, Answer<Seq<u8>>),
    /// A pause.
    Paused,
}

/// Whether the step leads from one state to the other.
pub open spec fn leads<E>(pump: PumpState, step: PumpStep<'_, E>, next: PumpState) -> bool {
    match step {
        PumpStep::Collected => pump.begins(next),
        PumpStep::Wrote(result) => {
            &&& result matches Ok(count) ==> count <= pump.out_buf.len()
            &&& next == pump.wrote(result)
        },
        PumpStep::Flushed(result, answer) => next == pump.flushed(result, answer),
        PumpStep::TookIn(result, answer) => next == pump.took_in(result, answer),
        PumpStep::Paused => next == PumpState { phase: PumpPhase::Idle, ..pump },
    }
}

/// Whether the steps lead through these states, one after the other.
pub open spec fn is_run<E>(states: Seq<PumpState>, steps: Seq<PumpStep<'_, E>>) -> bool {
    &&& states.len() == steps.len() + 1
    &&& forall|k: int|
        0 <= k < steps.len() ==> leads(states[k], #[trigger] steps[k], states[k + 1])
}

/// The bytes that the writes of a run have accepted: of each, the first of those that waited.
pub open spec fn accepted_in<E>(states: Seq<PumpState>, steps: Seq<PumpStep<'_, E>>) -> Seq<u8>
    decreases steps.len(),
{
    if steps.len() == 0 {
        Seq::empty()
    } else {
        let before = accepted_in(states, steps.drop_last());
        match steps.last() {
            PumpStep::Wrote(Ok(count)) => before + states[steps.len() - 1].out_buf.subrange(
                0,
                count as int,
            ),
            _ => before,
        }
    }
}

/// The bytes that the reads of a run have given.
pub open spec fn given_in<E>(steps: Seq<PumpStep<'_, E>>) -> Seq<u8>
    decreases steps.len(),
{
    if steps.len() == 0 {
        Seq::empty()
    } else {
        let before = given_in(steps.drop_last());
        match steps.last() {
            PumpStep::TookIn(Ok(data), _) => before + data@,
            _ => before,
        }
    }
}

/// Over a whole run, what was written is what the writes have accepted, one after the other, and
/// what was read is what the reads have given.
pub proof fn law_run_loses_nothing<E>(states: Seq<PumpState>, steps: Seq<PumpStep<'_, E>>)
    requires
        is_run(states, steps),
    ensures
        states.last().written == states[0].written + accepted_in(states, steps),
        states.last().read == states[0].read + given_in(steps),
    decreases steps.len(),
{
    if steps.len() > 0 {
        let at = steps.len() - 1;
        let earlier = steps.drop_last();
        assert forall|k: int| 0 <= k < earlier.len() implies leads(
            states.drop_last()[k],
            #[trigger] earlier[k],
            states.drop_last()[k + 1],
        ) by {
            assert(leads(states[k], steps[k], states[k + 1]));
        }
        law_run_loses_nothing(states.drop_last(), earlier);
        lemma_accepted_by_earlier_states(states, earlier);
        assert(leads(states[at], steps[at], states[at + 1]));
        assert(states.drop_last().last() == states[at]);
        if let PumpStep::Wrote(Ok(count)) = steps[at] {
            if count > 0 {
                law_write_takes_what_was_accepted::<E>(states[at], count);
            }
        }
        assert(states.last().written =~= states[0].written + accepted_in(states, steps));
        assert(states.last().read =~= states[0].read + given_in(steps));
    } else {
        assert(states.last().written =~= states[0].written + accepted_in(states, steps));
        assert(states.last().read =~= states[0].read + given_in(steps));
    }
}

/// What some steps have accepted does not depend on the states after them.
proof fn lemma_accepted_by_earlier_states<E>(
    states: Seq<PumpState>,
    steps: Seq<PumpStep<'_, E>>,
)
    requires
        steps.len() + 1 < states.len(),
    ensures
        accepted_in(states.drop_last(), steps) == accepted_in(states, steps),
    decreases steps.len(),
{
    if steps.len() > 0 {
        lemma_accepted_by_earlier_states(states, steps.drop_last());
    }
}

} // verus!
