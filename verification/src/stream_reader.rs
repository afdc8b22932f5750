//! Reading a multiplexed stream through buffers of any size.
//!
//! A read of the underlying stream is started only where nothing is left of the last one, and
//! is kept across polls: a caller that gives up on a read does not lose what it brings.

use crate::bytes::{agree, lemma_prefixes_agree};
use crate::read_buf::{copy_out, filled_bytes, filled_from, room, shorter};
use tokio::io::ReadBuf;
use vstd::prelude::*;

verus! {

/// How many bytes one read of the underlying stream asks for.
pub const FETCH_BUFFER: usize = 16384;

/// How a read of the underlying stream stands.
#[derive(Debug)]
pub enum FetchPoll<E> {
    /// It is not done.
    Pending,
    /// It is done: the buffer that was read into, and how many bytes of it were filled.
    Done(Result<(Vec<u8>, usize), E>),
}

/// What to do next.
#[derive(Debug)]
pub enum ReaderAction<E> {
    /// Report that the read is done.
    Ready,
    /// Report that the read has failed.
    Failed(E),
    /// Report that the read has to wait.
    Pending,
    /// Start a read of the underlying stream, and hand it to `started`.
    Start,
    /// Poll the read in flight, and hand what comes of it to `polled`.
    Poll,
}

/// A reader as its contracts see it.
pub struct ReaderState<S, F> {
    /// The stream that is read.
    pub stream: S,
    /// The read in flight.
    pub reading: Option<F>,
    /// The bytes fetched and not yet read.
    pub unread: Seq<u8>,
    /// The bytes read so far.
    pub delivered: Seq<u8>,
    /// The bytes fetched so far.
    pub fetched: Seq<u8>,
}

/// What a finished read of the underlying stream brought.
pub open spec fn brought(bytes: Seq<u8>, count: nat) -> Seq<u8> {
    bytes.take(shorter(count, bytes.len()) as int)
}

impl<S, F> ReaderState<S, F> {
    /// What always holds of a reader: every byte fetched has been read or waits, in order.
    pub open spec fn accounted(self) -> bool {
        self.delivered + self.unread == self.fetched
    }

    /// After as many of the waiting bytes were read as there is room for.
    pub open spec fn handing_out(self, space: nat) -> ReaderState<S, F> {
        let count = shorter(space, self.unread.len()) as int;
        ReaderState {
            unread: self.unread.skip(count),
            delivered: self.delivered + self.unread.take(count),
            ..self
        }
    }

    /// After a read into a buffer with room for `space` bytes has begun, and what to do next.
    pub open spec fn entered<E>(self, space: nat) -> (ReaderState<S, F>, ReaderAction<E>) {
        if space == 0 {
            (self, ReaderAction::Ready)
        } else if self.unread.len() > 0 {
            (self.handing_out(space), ReaderAction::Ready)
        } else if self.reading is Some {
            (self, ReaderAction::Poll)
        } else {
            (self, ReaderAction::Start)
        }
    }

    /// After the read in flight was polled, and what to do next.
    pub open spec fn after_poll<E>(self, poll: FetchPoll<E>, space: nat) -> (
        ReaderState<S, F>,
        ReaderAction<E>,
    ) {
        match poll {
            FetchPoll::Pending => (self, ReaderAction::Pending),
            FetchPoll::Done(Err(error)) => (
                ReaderState { reading: None, ..self },
                ReaderAction::Failed(error),
            ),
            FetchPoll::Done(Ok((bytes, count))) => {
                let data = brought(bytes@, count as nat);
                (
                    ReaderState {
                        reading: None,
                        unread: data,
                        fetched: self.fetched + data,
                        ..self
                    }.handing_out(space),
                    ReaderAction::Ready,
                )
            },
        }
    }
}

/// A reader of a stream `S`, whose reads in flight are values of `F`.
pub struct AnytlsStreamReader<S, F> {
    /// The stream that is read.
    pub stream: S,
    /// The read in flight.
    pub reading: Option<F>,
    buffered: Vec<u8>,
    consumed: usize,
    delivered: Ghost<Seq<u8>>,
    fetched: Ghost<Seq<u8>>,
}

impl<S, F> View for AnytlsStreamReader<S, F> {
    type V = ReaderState<S, F>;

    closed spec fn view(&self) -> ReaderState<S, F> {
        ReaderState {
            stream: self.stream,
            reading: self.reading,
            unread: self.buffered@.skip(self.consumed as int),
            delivered: self.delivered@,
            fetched: self.fetched@,
        }
    }
}

impl<S, F> AnytlsStreamReader<S, F> {
    /// The read position lies in what was fetched last.
    pub closed spec fn consistent(&self) -> bool {
        self.consumed <= self.buffered@.len()
    }

    /// What holds of every reader.
    pub open spec fn wf(&self) -> bool {
        self.consistent() && self@.accounted()
    }

    /// A reader of the stream that has fetched nothing yet.
    pub fn new(stream: S) -> (reader: Self)
        ensures
            reader.wf(),
            reader@ == (ReaderState::<S, F> {
                stream,
                reading: None,
                unread: Seq::empty(),
                delivered: Seq::empty(),
                fetched: Seq::empty(),
            }),
    {
        let reader = AnytlsStreamReader {
            stream,
            reading: None,
            buffered: Vec::new(),
            consumed: 0,
            delivered: Ghost(Seq::empty()),
            fetched: Ghost(Seq::empty()),
        };
        proof {
            assert(reader@.unread =~= Seq::empty());
            assert(reader@.delivered + reader@.unread =~= Seq::empty());
        }
        reader
    }

    /// Moves waiting bytes into the buffer, as far as it has room.
    fn hand_out(&mut self, buf: &mut ReadBuf<'_>)
        requires
            old(self).consistent(),
        ensures
            final(self).consistent(),
            final(self)@ == old(self)@.handing_out(room(*old(buf))),
            filled_from(*old(buf), *final(buf), old(self)@.unread),
    {
        let ghost pre = self@;
        let count = copy_out(&self.buffered, self.consumed, buf);
        self.consumed = self.consumed + count;
        self.delivered = Ghost(self.delivered@ + pre.unread.take(count as int));
        proof {
            assert(self@.unread =~= pre.unread.skip(count as int));
        }
    }

    /// Begins a read into the buffer: from what waits, where something does.
    pub fn poll_read<E>(&mut self, buf: &mut ReadBuf<'_>) -> (action: ReaderAction<E>)
        requires
            old(self).wf(),
        ensures
            final(self).wf(),
            (final(self)@, action) == old(self)@.entered::<E>(room(*old(buf))),
            ({
                let got = final(self)@.delivered.skip(old(self)@.delivered.len() as int);
                &&& filled_bytes(*final(buf)) == filled_bytes(*old(buf)) + got
                &&& room(*final(buf)) == room(*old(buf)) - got.len()
            }),
            final(self)@.delivered + final(self)@.unread == old(self)@.delivered
                + old(self)@.unread,
            final(self)@.fetched == old(self)@.fetched,
            filled_from(*old(buf), *final(buf), old(self)@.unread),
    {
        let ghost pre = self@;
        if buf.remaining() == 0 {
            proof {
                assert(pre.unread.take(0) =~= Seq::empty());
                assert(filled_bytes(*buf) =~= filled_bytes(*old(buf)) + Seq::empty());
            }
            return ReaderAction::Ready;
        }
        if self.consumed < self.buffered.len() {
            self.hand_out(buf);
            proof {
                assert(self@.delivered + self@.unread =~= pre.delivered + pre.unread);
            }
            return ReaderAction::Ready;
        }
        proof {
            assert(pre.unread.take(0) =~= Seq::empty());
            assert(filled_bytes(*buf) =~= filled_bytes(*old(buf)) + Seq::empty());
        }
        if self.reading.is_some() {
            ReaderAction::Poll
        } else {
            ReaderAction::Start
        }
    }

    /// Takes the read of the underlying stream that was started. It is polled next.
    pub fn started<E>(&mut self, reading: F) -> (action: ReaderAction<E>)
        requires
            old(self).wf(),
            old(self)@.reading is None,
        ensures
            final(self).wf(),
            final(self)@ == (ReaderState { reading: Some(reading), ..old(self)@ }),
            action == ReaderAction::<E>::Poll,
    {
        self.reading = Some(reading);
        ReaderAction::Poll
    }

    /// Goes on after the read in flight was polled. What it brought goes into the buffer as far
    /// as there is room; nothing at all means the end of the stream.
    pub fn polled<E>(&mut self, poll: FetchPoll<E>, buf: &mut ReadBuf<'_>) -> (action:
        ReaderAction<E>)
        requires
            old(self).wf(),
            old(self)@.reading is Some,
            old(self)@.unread.len() == 0,
        ensures
            final(self).wf(),
            (final(self)@, action) == old(self)@.after_poll(poll, room(*old(buf))),
            ({
                let got = final(self)@.delivered.skip(old(self)@.delivered.len() as int);
                &&& filled_bytes(*final(buf)) == filled_bytes(*old(buf)) + got
                &&& room(*final(buf)) == room(*old(buf)) - got.len()
            }),
            poll matches FetchPoll::Done(Ok((bytes, count))) ==> count <= bytes@.len() ==> {
                &&& final(self)@.fetched == old(self)@.fetched + bytes@.subrange(0, count as int)
                &&& final(self)@.delivered + final(self)@.unread == old(self)@.delivered
                    + bytes@.subrange(0, count as int)
            },
            match poll {
                FetchPoll::Done(Ok((bytes, count))) => filled_from(
                    *old(buf),
                    *final(buf),
                    brought(bytes@, count as nat),
                ),
                _ => *final(buf) == *old(buf),
            },
    {
        let ghost pre = self@;
        match poll {
            FetchPoll::Pending => ReaderAction::Pending,
            FetchPoll::Done(Err(error)) => {
                self.reading = None;
                ReaderAction::Failed(error)
            },
            FetchPoll::Done(Ok((bytes, count))) => {
                let mut fetched = bytes;
                fetched.truncate(count);
                let ghost data = brought(bytes@, count as nat);
                self.reading = None;
                self.buffered = fetched;
                self.consumed = 0;
                self.fetched = Ghost(self.fetched@ + data);
                proof {
                    assert(self@.unread =~= data);
                }
                self.hand_out(buf);
                proof {
                    assert(pre.delivered + pre.unread =~= pre.delivered);
                    assert(self@.delivered + self@.unread =~= pre.fetched + data);
                }
                ReaderAction::Ready
            },
        }
    }
}

/// A read into a buffer without room is done at once and changes nothing.
pub proof fn law_empty_buffer_is_ready<S, F, E>(reader: ReaderState<S, F>)
    ensures
        reader.entered::<E>(0) == (reader, ReaderAction::<E>::Ready),
{
}

/// A read that is given up while it waits loses nothing: the reader is as it was, with the same
/// read in flight, and what that read brings goes to the reads that follow, in order, however
/// small their buffers.
pub proof fn law_cancelled_read_keeps_bytes<S, F, E>(
    reader: ReaderState<S, F>,
    given_up: nat,
    bytes: Vec<u8>,
    count: usize,
    space: nat,
)
    requires
        reader.accounted(),
        reader.reading is Some,
        reader.unread.len() == 0,
        given_up > 0,
    ensures
        reader.entered::<E>(given_up) == (reader, ReaderAction::<E>::Poll),
        reader.after_poll(FetchPoll::<E>::Pending, given_up) == (
            reader,
            ReaderAction::<E>::Pending,
        ),
        ({
            let next = reader.after_poll(FetchPoll::<E>::Done(Ok((bytes, count))), space).0;
            let data = brought(bytes@, count as nat);
            &&& next.delivered == reader.delivered + data.take(shorter(space, data.len()) as int)
            &&& next.delivered + next.unread == reader.delivered + data
        }),
{
    let next = reader.after_poll(FetchPoll::<E>::Done(Ok((bytes, count))), space).0;
    let data = brought(bytes@, count as nat);
    assert(next.delivered + next.unread =~= reader.delivered + data);
}

/// Two reads one after the other give the bytes that one read into a buffer as large as both
/// would give, as far as the waiting bytes go.
pub proof fn law_split_reads_give_the_same_bytes<S, F>(
    reader: ReaderState<S, F>,
    first: nat,
    second: nat,
)
    ensures
        reader.handing_out(first).handing_out(second) == reader.handing_out(first + second),
{
    let once = reader.handing_out(first + second);
    let twice = reader.handing_out(first).handing_out(second);
    assert(once.unread =~= twice.unread);
    assert(once.delivered =~= twice.delivered);
}

/// What is read depends only on the bytes that the stream yields, not on where they are cut nor on
/// when they come: of two readers whose streams yield the same bytes, as far as they have, neither
/// has read a byte that contradicts the other, and where they have read equally much it is the
/// same.
pub proof fn law_cuts_do_not_matter<S, F, T, G>(a: ReaderState<S, F>, b: ReaderState<T, G>)
    requires
        a.accounted(),
        b.accounted(),
        agree(a.fetched, b.fetched),
    ensures
        agree(a.delivered, b.delivered),
        a.delivered.len() == b.delivered.len() ==> a.delivered == b.delivered,
{
    let whole = if a.fetched.len() >= b.fetched.len() {
        a.fetched
    } else {
        b.fetched
    };
    assert(a.fetched.is_prefix_of(whole) && b.fetched.is_prefix_of(whole)) by {
        if a.fetched.len() == b.fetched.len() {
            assert(a.fetched =~= b.fetched);
        }
    }
    assert(a.delivered =~= a.fetched.take(a.delivered.len() as int));
    assert(b.delivered =~= b.fetched.take(b.delivered.len() as int));
    assert(a.delivered =~= whole.take(a.delivered.len() as int));
    assert(b.delivered =~= whole.take(b.delivered.len() as int));
    lemma_prefixes_agree(a.delivered, b.delivered, whole);
    if a.delivered.len() == b.delivered.len() {
        assert(a.delivered =~= b.delivered);
    }
}

/// A reader speaks of its own fields: what waits is what was fetched last from where reading has
/// come to.
proof fn law_reader_speaks_of_its_fields<S, F>(reader: AnytlsStreamReader<S, F>)
    requires
        reader.wf(),
    ensures
        reader@.stream == reader.stream,
        reader@.reading == reader.reading,
        reader@.unread == reader.buffered@.subrange(
            reader.consumed as int,
            reader.buffered@.len() as int,
        ),
{
    assert(reader@.unread =~= reader.buffered@.subrange(
        reader.consumed as int,
        reader.buffered@.len() as int,
    ));
}

/// What a fetch has brought are the bytes that it has filled, all of them: the first `count` of the
/// buffer, which has at least as many.
pub proof fn law_fetch_brings_what_was_filled(bytes: Seq<u8>, count: nat)
    requires
        count <= bytes.len(),
    ensures
        brought(bytes, count).len() == count,
        forall|i: int| 0 <= i < count ==> #[trigger] brought(bytes, count)[i] == bytes[i],
        brought(bytes, count) + bytes.subrange(count as int, bytes.len() as int) == bytes,
{
    assert(brought(bytes, count) + bytes.subrange(count as int, bytes.len() as int) =~= bytes);
}

/// A fetch that ends well adds all the bytes that it has filled to those fetched. Of these the
/// read gives as many as there is room for, from the first on; the others wait, in their order. No
/// read is in flight any more, and nothing else changes.
pub proof fn law_fetched_bytes_are_given<S, F, E>(
    reader: ReaderState<S, F>,
    bytes: Vec<u8>,
    count: usize,
    space: nat,
)
    requires
        count <= bytes@.len(),
        reader.unread.len() == 0,
    ensures
        ({
            let (next, action) = reader.after_poll(FetchPoll::<E>::Done(Ok((bytes, count))), space);
            let given = next.delivered.len() - reader.delivered.len();
            &&& next.fetched.len() == reader.fetched.len() + count
            &&& next.fetched == reader.fetched + bytes@.subrange(0, count as int)
            &&& given == space || (given == count && given <= space)
            &&& given <= count
            &&& next.unread.len() == count - given
            &&& next.delivered + next.unread == reader.delivered + bytes@.subrange(0, count as int)
            &&& action == ReaderAction::<E>::Ready
            &&& next.reading is None
            &&& next.stream == reader.stream
        }),
{
    let next = reader.after_poll(FetchPoll::<E>::Done(Ok((bytes, count))), space).0;
    let filled = bytes@.subrange(0, count as int);
    assert(brought(bytes@, count as nat) =~= filled);
    assert(next.delivered + next.unread =~= reader.delivered + filled);
}

/// Once there was room for all of it, everything that a fetch has filled has been given, in order:
/// by the read that it ended, and by the one that follows, if some was left.
pub proof fn law_all_of_a_fetch_is_given<S, F, E>(
    reader: ReaderState<S, F>,
    bytes: Vec<u8>,
    count: usize,
    space: nat,
    later: nat,
)
    requires
        count <= bytes@.len(),
        reader.unread.len() == 0,
        space + later >= count,
    ensures
        ({
            let first = reader.after_poll(FetchPoll::<E>::Done(Ok((bytes, count))), space).0;
            let second = first.entered::<E>(later).0;
            &&& second.delivered == reader.delivered + bytes@.subrange(0, count as int)
            &&& second.unread.len() == 0
        }),
{
    let first = reader.after_poll(FetchPoll::<E>::Done(Ok((bytes, count))), space).0;
    let second = first.entered::<E>(later).0;
    law_fetched_bytes_are_given::<S, F, E>(reader, bytes, count, space);
    if first.unread.len() > 0 {
        law_read_gives_what_waits::<S, F, E>(first, later);
    }
    assert(second.delivered =~= second.delivered + second.unread);
}

/// A read gives the bytes that wait, as many as there is room for, from the first on. Those that
/// it does not give still wait, in their order. Nothing is fetched for it.
pub proof fn law_read_gives_what_waits<S, F, E>(reader: ReaderState<S, F>, space: nat)
    requires
        space > 0,
        reader.unread.len() > 0,
    ensures
        ({
            let (next, action) = reader.entered::<E>(space);
            let given = next.delivered.len() - reader.delivered.len();
            &&& given == space || (given == reader.unread.len() && given <= space)
            &&& given <= reader.unread.len()
            &&& next.unread.len() == reader.unread.len() - given
            &&& next.delivered + next.unread == reader.delivered + reader.unread
            &&& action == ReaderAction::<E>::Ready
            &&& next == (ReaderState { delivered: next.delivered, unread: next.unread, ..reader })
        }),
{
    let next = reader.entered::<E>(space).0;
    assert(next.delivered + next.unread =~= reader.delivered + reader.unread);
}

/// Where nothing waits, the read in flight is polled, and one is started where there is none; the
/// reader stays as it is. So it does where the read in flight has to wait. A read that fails is
/// reported with its error, is no longer in flight, and changes nothing else.
pub proof fn law_reader_fetches_when_nothing_waits<S, F, E>(
    reader: ReaderState<S, F>,
    space: nat,
    error: E,
)
    requires
        space > 0,
        reader.unread.len() == 0,
    ensures
        reader.reading is Some ==> reader.entered::<E>(space) == (
            reader,
            ReaderAction::<E>::Poll,
        ),
        reader.reading is None ==> reader.entered::<E>(space) == (
            reader,
            ReaderAction::<E>::Start,
        ),
        reader.after_poll(FetchPoll::<E>::Pending, space) == (reader, ReaderAction::<E>::Pending),
        reader.after_poll(FetchPoll::<E>::Done(Err(error)), space) == (
            ReaderState { reading: None, ..reader },
            ReaderAction::<E>::Failed(error),
        ),
{
}

} // verus!
