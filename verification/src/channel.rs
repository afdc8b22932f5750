//! The two channels between the async side of a carrier and its worker thread.
//!
//! Both are channels of the tokio crate. What a call on a channel answers depends on the other
//! half, which belongs to another thread. So nothing is promised here of which answer comes;
//! instead each half has a log of the calls made through it and of their answers, and the
//! contracts of the callers speak of what is added to the log. That a channel keeps the order
//! of what passes through it is stated by a second name: what the channel carries over its
//! whole life, of which both the sent and the received are a beginning. That the bounded channel
//! keeps its limit is stated by a third: how many chunks had been received when each was sent.
//!
//! Each half is held in a type of this module that cannot be copied, so that a channel has one
//! sender and one receiver.

use tokio::sync::mpsc;
use vstd::prelude::*;

verus! {

/// What a non-blocking receive answered. In contracts `B` is `Seq<u8>`, in code `Vec<u8>`.
#[derive(Debug)]
pub enum Receipt<B> {
    /// The next message of the channel.
    Message(B),
    /// No message is waiting, but one may still be sent.
    Empty,
    /// No message is waiting and none can be sent any more.
    Disconnected,
}

/// What a polled receive answered.
#[derive(Debug)]
pub enum Arrival<B> {
    /// The next chunk of the channel.
    Chunk(B),
    /// All chunks have been received and no more can be sent.
    Closed,
    /// No chunk is there yet.
    Pending,
}

/// What a non-blocking send answered.
#[derive(Debug)]
pub enum Answer<B> {
    /// The channel took the chunk.
    Sent,
    /// The channel is full; the chunk comes back.
    Full(B),
    /// The receiving half is gone.
    Closed,
}

/// One chunk offered to a channel, and what was answered.
pub struct Offer {
    pub chunk: Seq<u8>,
    pub answer: Answer<Seq<u8>>,
}

/// One message handed to an unbounded channel, and whether it was taken.
pub struct Handover {
    pub message: Seq<u8>,
    pub taken: bool,
}

impl View for Receipt<Vec<u8>> {
    type V = Receipt<Seq<u8>>;

    open spec fn view(&self) -> Receipt<Seq<u8>> {
        match self {
            Receipt::Message(message) => Receipt::Message(message@),
            Receipt::Empty => Receipt::Empty,
            Receipt::Disconnected => Receipt::Disconnected,
        }
    }
}

impl View for Arrival<Vec<u8>> {
    type V = Arrival<Seq<u8>>;

    open spec fn view(&self) -> Arrival<Seq<u8>> {
        match self {
            Arrival::Chunk(chunk) => Arrival::Chunk(chunk@),
            Arrival::Closed => Arrival::Closed,
            Arrival::Pending => Arrival::Pending,
        }
    }
}

impl View for Answer<Vec<u8>> {
    type V = Answer<Seq<u8>>;

    open spec fn view(&self) -> Answer<Seq<u8>> {
        match self {
            Answer::Sent => Answer::Sent,
            Answer::Full(chunk) => Answer::Full(chunk@),
            Answer::Closed => Answer::Closed,
        }
    }
}

/// The chunks that a log of offers shows as sent.
pub open spec fn sent_chunks(log: Seq<Offer>) -> Seq<Seq<u8>>
    decreases log.len(),
{
    if log.len() == 0 {
        Seq::empty()
    } else if log.last().answer is Sent {
        sent_chunks(log.drop_last()).push(log.last().chunk)
    } else {
        sent_chunks(log.drop_last())
    }
}

/// The chunks that a log of polled receives shows as received.
pub open spec fn arrived_chunks(log: Seq<Arrival<Seq<u8>>>) -> Seq<Seq<u8>>
    decreases log.len(),
{
    if log.len() == 0 {
        Seq::empty()
    } else {
        match log.last() {
            Arrival::Chunk(chunk) => arrived_chunks(log.drop_last()).push(chunk),
            _ => arrived_chunks(log.drop_last()),
        }
    }
}

/// Whether a log of polled receives shows the end of the channel.
pub open spec fn saw_end(log: Seq<Arrival<Seq<u8>>>) -> bool {
    exists|i: int| 0 <= i < log.len() && #[trigger] log[i] is Closed
}

/// The messages that a log of handovers shows as taken.
pub open spec fn taken_messages(log: Seq<Handover>) -> Seq<Seq<u8>>
    decreases log.len(),
{
    if log.len() == 0 {
        Seq::empty()
    } else if log.last().taken {
        taken_messages(log.drop_last()).push(log.last().message)
    } else {
        taken_messages(log.drop_last())
    }
}

/// The messages that a log of non-blocking receives shows as received.
pub open spec fn received_messages(log: Seq<Receipt<Seq<u8>>>) -> Seq<Seq<u8>>
    decreases log.len(),
{
    if log.len() == 0 {
        Seq::empty()
    } else {
        match log.last() {
            Receipt::Message(message) => received_messages(log.drop_last()).push(message),
            _ => received_messages(log.drop_last()),
        }
    }
}

/// The sending half of tokio's bounded channel.
#[verifier::external_type_specification]
#[verifier::external_body]
#[verifier::reject_recursive_types(T)]
pub struct ExSender<T>(tokio::sync::mpsc::Sender<T>);

/// The receiving half of tokio's bounded channel.
#[verifier::external_type_specification]
#[verifier::external_body]
#[verifier::reject_recursive_types(T)]
pub struct ExReceiver<T>(tokio::sync::mpsc::Receiver<T>);

/// The sending half of tokio's unbounded channel.
#[verifier::external_type_specification]
#[verifier::external_body]
#[verifier::reject_recursive_types(T)]
pub struct ExUnboundedSender<T>(tokio::sync::mpsc::UnboundedSender<T>);

/// The receiving half of tokio's unbounded channel.
#[verifier::external_type_specification]
#[verifier::external_body]
#[verifier::reject_recursive_types(T)]
pub struct ExUnboundedReceiver<T>(tokio::sync::mpsc::UnboundedReceiver<T>);

/// The context in which a task is polled. It is only handed on to the channel.
#[verifier::external_type_specification]
#[verifier::external_body]
pub struct ExContext<'a>(core::task::Context<'a>);

/// The chunks offered through this sender so far, oldest first, each with its answer.
pub uninterp spec fn offers(tx: tokio::sync::mpsc::Sender<Vec<u8>>) -> Seq<Offer>;

/// How many chunks the channel of this sender was made to hold.
pub uninterp spec fn chunk_capacity(tx: tokio::sync::mpsc::Sender<Vec<u8>>) -> nat;

/// The chunks that the channel of this sender carries over its whole life.
pub uninterp spec fn chunks_carried(tx: tokio::sync::mpsc::Sender<Vec<u8>>) -> Seq<Seq<u8>>;

/// For each chunk that the channel of this sender carries over its whole life, how many chunks
/// the receiving half had received, and made room for again, when that chunk was sent.
pub uninterp spec fn received_at_send(tx: tokio::sync::mpsc::Sender<Vec<u8>>) -> Seq<nat>;

/// What this receiver has answered to its polls so far, oldest first.
pub uninterp spec fn arrivals(rx: tokio::sync::mpsc::Receiver<Vec<u8>>) -> Seq<Arrival<Seq<u8>>>;

/// The chunks that the channel of this receiver carries over its whole life.
pub uninterp spec fn chunks_due(rx: tokio::sync::mpsc::Receiver<Vec<u8>>) -> Seq<Seq<u8>>;

/// The messages handed to this sender so far, oldest first, each with whether it was taken.
pub uninterp spec fn handovers(tx: tokio::sync::mpsc::UnboundedSender<Vec<u8>>) -> Seq<Handover>;

/// The messages that the channel of this sender carries over its whole life.
pub uninterp spec fn messages_carried(tx: tokio::sync::mpsc::UnboundedSender<Vec<u8>>) -> Seq<
    Seq<u8>,
>;

/// What this receiver has answered to its non-blocking receives so far, oldest first.
pub uninterp spec fn receipts(rx: tokio::sync::mpsc::UnboundedReceiver<Vec<u8>>) -> Seq<
    Receipt<Seq<u8>>,
>;

/// The messages that the channel of this receiver carries over its whole life.
pub uninterp spec fn messages_due(rx: tokio::sync::mpsc::UnboundedReceiver<Vec<u8>>) -> Seq<
    Seq<u8>,
>;

/// The one sender of a bounded channel of chunks.
pub struct ChunkSender {
    pub(crate) tx: mpsc::Sender<Vec<u8>>,
}

/// The receiver of a bounded channel of chunks.
pub struct ChunkReceiver {
    pub(crate) rx: mpsc::Receiver<Vec<u8>>,
}

/// The one sender of an unbounded channel of messages.
pub struct MessageSender {
    pub(crate) tx: mpsc::UnboundedSender<Vec<u8>>,
}

/// The receiver of an unbounded channel of messages.
pub struct MessageReceiver {
    pub(crate) rx: mpsc::UnboundedReceiver<Vec<u8>>,
}

/// `tokio::sync::mpsc::channel`: makes a channel that holds up to `capacity` chunks. Nothing has
/// passed through either half, and what the sender's channel carries is what is due to the
/// receiver. It panics on a capacity of zero, and on one above an eighth of `usize::MAX`.
#[verifier::external_body]
pub(crate) fn bounded_channel(capacity: usize) -> (halves: (ChunkSender, ChunkReceiver))
    requires
        0 < capacity <= usize::MAX / 8,
    ensures
        chunk_capacity(halves.0.tx) == capacity,
        offers(halves.0.tx) == Seq::<Offer>::empty(),
        arrivals(halves.1.rx) == Seq::<Arrival<Seq<u8>>>::empty(),
        chunks_carried(halves.0.tx) == chunks_due(halves.1.rx),
{
    let (tx, rx) = mpsc::channel(capacity);
    (ChunkSender { tx }, ChunkReceiver { rx })
}

/// `tokio::sync::mpsc::unbounded_channel`: makes a channel without a limit. Nothing has passed
/// through either half, and what the sender's channel carries is what is due to the receiver.
#[verifier::external_body]
pub(crate) fn unbounded_channel() -> (halves: (MessageSender, MessageReceiver))
    ensures
        handovers(halves.0.tx) == Seq::<Handover>::empty(),
        receipts(halves.1.rx) == Seq::<Receipt<Seq<u8>>>::empty(),
        messages_carried(halves.0.tx) == messages_due(halves.1.rx),
{
    let (tx, rx) = mpsc::unbounded_channel();
    (MessageSender { tx }, MessageReceiver { rx })
}

/// `Sender::try_send`: offers the chunk and answers at once. A full channel gives the chunk
/// back. What was sent so far is what the channel carries first. A chunk is sent only where,
/// with it, no more chunks are unreceived than the channel holds, and a channel is full only
/// where it was sent as many chunks as it holds. Which of the answers comes depends on the
/// receiving half, and is otherwise left open.
#[verifier::external_body]
pub(crate) fn try_send(sender: &mut ChunkSender, chunk: Vec<u8>) -> (answer: Answer<Vec<u8>>)
    ensures
        offers(final(sender).tx) == offers(old(sender).tx).push(
            Offer { chunk: chunk@, answer: answer@ },
        ),
        chunk_capacity(final(sender).tx) == chunk_capacity(old(sender).tx),
        chunks_carried(final(sender).tx) == chunks_carried(old(sender).tx),
        received_at_send(final(sender).tx) == received_at_send(old(sender).tx),
        sent_chunks(offers(final(sender).tx)).is_prefix_of(chunks_carried(final(sender).tx)),
        answer is Sent ==> sent_chunks(offers(final(sender).tx)).len() <= received_at_send(
            final(sender).tx,
        )[sent_chunks(offers(final(sender).tx)).len() - 1] + chunk_capacity(final(sender).tx),
        answer is Full ==> sent_chunks(offers(final(sender).tx)).len() >= chunk_capacity(
            final(sender).tx,
        ),
        answer matches Answer::Full(returned) ==> returned@ == chunk@,
{
    match sender.tx.try_send(chunk) {
        Ok(()) => Answer::Sent,
        Err(mpsc::error::TrySendError::Full(chunk)) => Answer::Full(chunk),
        Err(mpsc::error::TrySendError::Closed(_)) => Answer::Closed,
    }
}

/// `Receiver::poll_recv`: asks for the next chunk on behalf of the task of `cx`. What was
/// received so far is what the channel carries first, and all of it once the channel reports
/// its end. Which of the answers comes depends on the sending half, and on how much the task has
/// polled already: one that has used up its budget is told to wait even at the end. It is left
/// open, and so is that a task told to wait is woken when it is worth another try.
#[verifier::external_body]
pub(crate) fn poll_recv(
    receiver: &mut ChunkReceiver,
    cx: &mut core::task::Context<'_>,
) -> (arrival: Arrival<Vec<u8>>)
    ensures
        arrivals(final(receiver).rx) == arrivals(old(receiver).rx).push(arrival@),
        chunks_due(final(receiver).rx) == chunks_due(old(receiver).rx),
        arrived_chunks(arrivals(final(receiver).rx)).is_prefix_of(chunks_due(final(receiver).rx)),
        arrival is Closed ==> arrived_chunks(arrivals(final(receiver).rx)) == chunks_due(
            final(receiver).rx,
        ),
{
    match receiver.rx.poll_recv(cx) {
        core::task::Poll::Ready(Some(chunk)) => Arrival::Chunk(chunk),
        core::task::Poll::Ready(None) => Arrival::Closed,
        core::task::Poll::Pending => Arrival::Pending,
    }
}

/// `UnboundedSender::send`: hands the message over and says whether it was taken. What was taken
/// so far is what the channel carries first. A message is taken unless the receiving half is
/// gone, which is left open.
#[verifier::external_body]
pub(crate) fn send(sender: &mut MessageSender, message: Vec<u8>) -> (taken: bool)
    ensures
        handovers(final(sender).tx) == handovers(old(sender).tx).push(
            Handover { message: message@, taken: taken },
        ),
        messages_carried(final(sender).tx) == messages_carried(old(sender).tx),
        taken_messages(handovers(final(sender).tx)).is_prefix_of(
            messages_carried(final(sender).tx),
        ),
{
    sender.tx.send(message).is_ok()
}

/// Dropping the `UnboundedSender`, where the slot holds one, which empties the slot. It is the
/// only sender of its channel, so the channel carries what was taken and no more: after that the
/// receiving half meets the end. When it does is left open.
#[verifier::external_body]
pub(crate) fn close(slot: &mut Option<MessageSender>)
    ensures
        *final(slot) is None && (*old(slot) matches Some(sender) ==> taken_messages(
            handovers(sender.tx),
        ) == messages_carried(sender.tx)),
{
    drop(slot.take());
}

/// `UnboundedReceiver::try_recv`: asks for the next message and answers at once. What was
/// received so far is what the channel carries first, and all of it once the channel reports
/// that it is disconnected. Which of the answers comes depends on the sending half, and is left
/// open.
#[verifier::external_body]
pub(crate) fn try_recv(receiver: &mut MessageReceiver) -> (receipt: Receipt<Vec<u8>>)
    ensures
        receipts(final(receiver).rx) == receipts(old(receiver).rx).push(receipt@),
        messages_due(final(receiver).rx) == messages_due(old(receiver).rx),
        received_messages(receipts(final(receiver).rx)).is_prefix_of(
            messages_due(final(receiver).rx),
        ),
        receipt is Disconnected ==> received_messages(receipts(final(receiver).rx))
            == messages_due(final(receiver).rx),
{
    match receiver.rx.try_recv() {
        Ok(message) => Receipt::Message(message),
        Err(mpsc::error::TryRecvError::Empty) => Receipt::Empty,
        Err(mpsc::error::TryRecvError::Disconnected) => Receipt::Disconnected,
    }
}

/// The chunks sent are those offered that were answered so, whole and in their order.
pub proof fn law_sent_chunks_are_read_off_in_order(
    a: Seq<Offer>,
    b: Seq<Offer>,
    one: Offer,
)
    ensures
        sent_chunks(Seq::<Offer>::empty()).len() == 0,
        one.answer is Sent ==> sent_chunks(seq![one]) == seq![one.chunk],
        !(one.answer is Sent) ==> sent_chunks(seq![one]).len() == 0,
        sent_chunks(a + b) == sent_chunks(a) + sent_chunks(b),
    decreases b.len(),
{
    reveal_with_fuel(sent_chunks, 2);
    assert(seq![one].drop_last() =~= Seq::empty());
    if b.len() == 0 {
        assert(a + b =~= a);
        assert(sent_chunks(a + b) =~= sent_chunks(a) + sent_chunks(b));
    } else {
        law_sent_chunks_are_read_off_in_order(a, b.drop_last(), one);
        assert((a + b).drop_last() =~= a + b.drop_last());
        assert((a + b).last() == b.last());
        assert(sent_chunks(a + b) =~= sent_chunks(a) + sent_chunks(b));
    }
}

/// The chunks received are those answered, whole and in their order.
pub proof fn law_arrived_chunks_are_read_off_in_order(
    a: Seq<Arrival<Seq<u8>>>,
    b: Seq<Arrival<Seq<u8>>>,
    one: Arrival<Seq<u8>>,
)
    ensures
        arrived_chunks(Seq::<Arrival<Seq<u8>>>::empty()).len() == 0,
        one matches Arrival::Chunk(chunk) ==> arrived_chunks(seq![one]) == seq![chunk],
        !(one is Chunk) ==> arrived_chunks(seq![one]).len() == 0,
        arrived_chunks(a + b) == arrived_chunks(a) + arrived_chunks(b),
    decreases b.len(),
{
    reveal_with_fuel(arrived_chunks, 2);
    assert(seq![one].drop_last() =~= Seq::empty());
    if b.len() == 0 {
        assert(a + b =~= a);
        assert(arrived_chunks(a + b) =~= arrived_chunks(a) + arrived_chunks(b));
    } else {
        law_arrived_chunks_are_read_off_in_order(a, b.drop_last(), one);
        assert((a + b).drop_last() =~= a + b.drop_last());
        assert((a + b).last() == b.last());
        assert(arrived_chunks(a + b) =~= arrived_chunks(a) + arrived_chunks(b));
    }
}

/// The messages taken are those handed over that were taken, whole and in their order.
pub proof fn law_taken_messages_are_read_off_in_order(
    a: Seq<Handover>,
    b: Seq<Handover>,
    one: Handover,
)
    ensures
        taken_messages(Seq::<Handover>::empty()).len() == 0,
        one.taken ==> taken_messages(seq![one]) == seq![one.message],
        !one.taken ==> taken_messages(seq![one]).len() == 0,
        taken_messages(a + b) == taken_messages(a) + taken_messages(b),
    decreases b.len(),
{
    reveal_with_fuel(taken_messages, 2);
    assert(seq![one].drop_last() =~= Seq::empty());
    if b.len() == 0 {
        assert(a + b =~= a);
        assert(taken_messages(a + b) =~= taken_messages(a) + taken_messages(b));
    } else {
        law_taken_messages_are_read_off_in_order(a, b.drop_last(), one);
        assert((a + b).drop_last() =~= a + b.drop_last());
        assert((a + b).last() == b.last());
        assert(taken_messages(a + b) =~= taken_messages(a) + taken_messages(b));
    }
}

/// The messages received are those answered, whole and in their order.
pub proof fn law_received_messages_are_read_off_in_order(
    a: Seq<Receipt<Seq<u8>>>,
    b: Seq<Receipt<Seq<u8>>>,
    one: Receipt<Seq<u8>>,
)
    ensures
        received_messages(Seq::<Receipt<Seq<u8>>>::empty()).len() == 0,
        one matches Receipt::Message(message) ==> received_messages(seq![one]) == seq![message],
        !(one is Message) ==> received_messages(seq![one]).len() == 0,
        received_messages(a + b) == received_messages(a) + received_messages(b),
    decreases b.len(),
{
    reveal_with_fuel(received_messages, 2);
    assert(seq![one].drop_last() =~= Seq::empty());
    if b.len() == 0 {
        assert(a + b =~= a);
        assert(received_messages(a + b) =~= received_messages(a) + received_messages(b));
    } else {
        law_received_messages_are_read_off_in_order(a, b.drop_last(), one);
        assert((a + b).drop_last() =~= a + b.drop_last());
        assert((a + b).last() == b.last());
        assert(received_messages(a + b) =~= received_messages(a) + received_messages(b));
    }
}

/// What a channel answers, in contracts, is what it answers in code, with the bytes of the chunk.
pub proof fn law_answers_keep_their_bytes(bytes: Vec<u8>)
    ensures
        Receipt::Message(bytes)@ == Receipt::<Seq<u8>>::Message(bytes@),
        Receipt::<Vec<u8>>::Empty@ == Receipt::<Seq<u8>>::Empty,
        Receipt::<Vec<u8>>::Disconnected@ == Receipt::<Seq<u8>>::Disconnected,
        Arrival::Chunk(bytes)@ == Arrival::<Seq<u8>>::Chunk(bytes@),
        Arrival::<Vec<u8>>::Closed@ == Arrival::<Seq<u8>>::Closed,
        Arrival::<Vec<u8>>::Pending@ == Arrival::<Seq<u8>>::Pending,
        Answer::<Vec<u8>>::Sent@ == Answer::<Seq<u8>>::Sent,
        Answer::Full(bytes)@ == Answer::<Seq<u8>>::Full(bytes@),
        Answer::<Vec<u8>>::Closed@ == Answer::<Seq<u8>>::Closed,
{
}

/// A log shows the end of a channel if, and only if, one of its answers does.
pub proof fn law_end_is_seen_in_an_answer(
    a: Seq<Arrival<Seq<u8>>>,
    b: Seq<Arrival<Seq<u8>>>,
    one: Arrival<Seq<u8>>,
)
    ensures
        !saw_end(Seq::<Arrival<Seq<u8>>>::empty()),
        saw_end(seq![one]) <==> one is Closed,
        saw_end(a + b) <==> saw_end(a) || saw_end(b),
{
    if one is Closed {
        assert(seq![one][0] is Closed);
    }
    if saw_end(a) {
        let i = choose|i: int| 0 <= i < a.len() && #[trigger] a[i] is Closed;
        assert((a + b)[i] is Closed);
    }
    if saw_end(b) {
        let i = choose|i: int| 0 <= i < b.len() && #[trigger] b[i] is Closed;
        assert((a + b)[a.len() + i] is Closed);
    }
    if saw_end(a + b) {
        let i = choose|i: int| 0 <= i < (a + b).len() && #[trigger] (a + b)[i] is Closed;
        if i < a.len() {
            assert(a[i] is Closed);
        } else {
            assert(b[i - a.len()] is Closed);
        }
    }
}

} // verus!
