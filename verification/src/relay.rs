//! Relaying between a local connection and a stream: two directions that copy until their source
//! ends and then close their sink, each on its own, under one end.
//!
//! The reads, writes and shutdowns are for the caller to perform: a direction is told what came
//! of the last one and says what to do next.

use crate::error::Fault;
use vstd::prelude::*;

verus! {

/// How many bytes one read asks for.
pub const RELAY_BUFFER: usize = 16384;

/// What a direction waits for.
#[derive(Debug)]
pub enum LegPhase<E> {
    /// To be started.
    Idle,
    /// The result of a read.
    Reading,
    /// The result of a write.
    Writing,
    /// The result of shutting the sink down.
    ShuttingDown,
    /// Nothing: the source has ended and the sink is shut down.
    Done,
    /// Nothing: an operation has failed with this error.
    Failed(E),
}

/// What has happened in a direction.
#[derive(Debug)]
pub enum LegEvent<'a, E> {
    /// A read gave these bytes; none mean that the source has ended.
    Read(Result<&'a [u8], E>),
    /// The bytes were written, all of them, or not.
    Wrote(Result<(), E>),
    /// The sink was shut down, or not.
    ShutDown(Result<(), E>),
}

/// What to do next in a direction.
#[derive(Debug)]
pub enum LegAction<'a> {
    /// Read from the source, once.
    Read,
    /// Write these bytes to the sink, all of them.
    Write(&'a [u8]),
    /// Shut the sink down.
    Shutdown,
    /// Nothing more.
    Stop,
}

/// A direction as its contracts see it.
pub struct LegState<E> {
    pub phase: LegPhase<E>,
    /// The bytes read from the source so far.
    pub read: Seq<u8>,
    /// The bytes written to the sink so far.
    pub written: Seq<u8>,
}

impl<E> LegState<E> {
    /// What always holds of a direction: what was written is what was read, but for the bytes of
    /// a write that is under way or has failed.
    pub open spec fn accounted(self) -> bool {
        match self.phase {
            LegPhase::Writing | LegPhase::Failed(_) => self.written.is_prefix_of(self.read),
            _ => self.written == self.read,
        }
    }

    /// Whether the event is one that the direction waits for.
    pub open spec fn expects(self, event: LegEvent<'_, E>) -> bool {
        match self.phase {
            LegPhase::Reading => event is Read,
            LegPhase::Writing => event is Wrote,
            LegPhase::ShuttingDown => event is ShutDown,
            _ => false,
        }
    }

    /// What follows an event that the direction waits for.
    pub open spec fn after<'a>(self, event: LegEvent<'a, E>) -> (LegState<E>, LegAction<'a>) {
        match event {
            LegEvent::Read(Ok(data)) => if data@.len() == 0 {
                (LegState { phase: LegPhase::ShuttingDown, ..self }, LegAction::Shutdown)
            } else {
                (
                    LegState { phase: LegPhase::Writing, read: self.read + data@, ..self },
                    LegAction::Write(data),
                )
            },
            LegEvent::Wrote(Ok(_)) => (
                LegState { phase: LegPhase::Reading, written: self.read, ..self },
                LegAction::Read,
            ),
            LegEvent::ShutDown(Ok(_)) => (
                LegState { phase: LegPhase::Done, ..self },
                LegAction::Stop,
            ),
            LegEvent::Read(Err(error)) | LegEvent::Wrote(Err(error)) | LegEvent::ShutDown(
                Err(error),
            ) => (LegState { phase: LegPhase::Failed(error), ..self }, LegAction::Stop),
        }
    }
}

/// One direction of a relay.
pub struct Leg<E> {
    phase: LegPhase<E>,
    read: Ghost<Seq<u8>>,
    written: Ghost<Seq<u8>>,
}

impl<E> View for Leg<E> {
    type V = LegState<E>;

    closed spec fn view(&self) -> LegState<E> {
        LegState { phase: self.phase, read: self.read@, written: self.written@ }
    }
}

impl<E> Leg<E> {
    /// A direction in which nothing has been relayed yet.
    pub fn new() -> (leg: Leg<E>)
        ensures
            leg@ == (LegState::<E> {
                phase: LegPhase::Idle,
                read: Seq::empty(),
                written: Seq::empty(),
            }),
            leg@.accounted(),
    {
        Leg { phase: LegPhase::Idle, read: Ghost(Seq::empty()), written: Ghost(Seq::empty()) }
    }

    /// Begins with a read.
    pub fn start(&mut self) -> (action: LegAction<'static>)
        requires
            old(self)@.accounted(),
            old(self)@.phase is Idle,
        ensures
            final(self)@.accounted(),
            final(self)@ == (LegState { phase: LegPhase::Reading, ..old(self)@ }),
            action == LegAction::Read,
    {
        self.phase = LegPhase::Reading;
        LegAction::Read
    }

    /// Whether the direction has failed.
    pub fn has_failed(&self) -> (failed: bool)
        ensures
            failed == self@.phase is Failed,
    {
        matches!(self.phase, LegPhase::Failed(_))
    }

    /// Goes on after an event.
    pub fn step<'a>(&mut self, event: LegEvent<'a, E>) -> (action: LegAction<'a>)
        requires
            old(self)@.accounted(),
            old(self)@.expects(event),
        ensures
            final(self)@.accounted(),
            (final(self)@, action) == old(self)@.after(event),
            event matches LegEvent::Read(Ok(data)) ==> {
                &&& final(self)@.read == old(self)@.read + data@
                &&& data@.len() > 0 ==> action == LegAction::Write(data)
            },
            !(event is Read) ==> final(self)@.read == old(self)@.read,
    {
        match event {
            LegEvent::Read(Ok(data)) => {
                if data.len() == 0 {
                    self.phase = LegPhase::ShuttingDown;
                    return LegAction::Shutdown;
                }
                self.phase = LegPhase::Writing;
                proof {
                    assert(self.written@ =~= (self.read@ + data@).take(self.written@.len() as int));
                }
                self.read = Ghost(self.read@ + data@);
                LegAction::Write(data)
            },
            LegEvent::Wrote(Ok(_)) => {
                self.phase = LegPhase::Reading;
                self.written = Ghost(self.read@);
                LegAction::Read
            },
            LegEvent::ShutDown(Ok(_)) => {
                self.phase = LegPhase::Done;
                LegAction::Stop
            },
            LegEvent::Read(Err(error)) => {
                self.phase = LegPhase::Failed(error);
                LegAction::Stop
            },
            LegEvent::Wrote(Err(error)) => {
                self.phase = LegPhase::Failed(error);
                LegAction::Stop
            },
            LegEvent::ShutDown(Err(error)) => {
                self.phase = LegPhase::Failed(error);
                LegAction::Stop
            },
        }
    }
}

/// Why a relay has failed.
#[derive(Debug)]
pub enum RelayError<E> {
    /// An operation on one of the two ends has failed.
    Io(E),
    /// The relay itself gives up.
    Fault(Fault),
}

/// How a relay ends.
#[derive(Debug)]
pub struct Conclusion<E> {
    pub result: Result<(), RelayError<E>>,
    /// Whether the stream is to be closed, so that neither side waits for the other.
    pub close: bool,
}

/// A relay between a local connection and a stream.
pub struct TcpRelay<E> {
    /// From the local connection to the stream.
    pub upload: Leg<E>,
    /// From the stream to the local connection.
    pub download: Leg<E>,
}

/// Whether a relay is over: its carrier is gone, or a direction has failed, or both are done.
pub open spec fn is_over<E>(aborted: bool, upload: LegPhase<E>, download: LegPhase<E>) -> bool {
    aborted || upload is Failed || download is Failed || (upload is Done && download is Done)
}

/// What a relay that is over ends with. The loss of the carrier comes before everything else.
pub open spec fn relay_result<E>(
    aborted: bool,
    upload: LegPhase<E>,
    download: LegPhase<E>,
) -> Result<(), RelayError<E>> {
    if aborted {
        Err(RelayError::Fault(Fault::StreamAborted))
    } else {
        match (upload, download) {
            (LegPhase::Failed(error), _) => Err(RelayError::Io(error)),
            (_, LegPhase::Failed(error)) => Err(RelayError::Io(error)),
            (_, _) => Ok(()),
        }
    }
}

impl<E> TcpRelay<E> {
    /// A relay that has relayed nothing yet.
    pub fn new() -> (relay: TcpRelay<E>)
        ensures
            relay.upload@ == (LegState::<E> {
                phase: LegPhase::Idle,
                read: Seq::empty(),
                written: Seq::empty(),
            }),
            relay.download@ == relay.upload@,
    {
        TcpRelay { upload: Leg::new(), download: Leg::new() }
    }

    /// Ends the relay, where it is over. A relay that fails closes its stream.
    pub fn conclude(self, aborted: bool) -> (conclusion: Conclusion<E>)
        requires
            is_over(aborted, self.upload@.phase, self.download@.phase),
        ensures
            conclusion.result == relay_result(aborted, self.upload@.phase, self.download@.phase),
            conclusion.close == conclusion.result is Err,
    {
        if aborted {
            return Conclusion {
                result: Err(RelayError::Fault(Fault::StreamAborted)),
                close: true,
            };
        }
        match (self.upload.phase, self.download.phase) {
            (LegPhase::Failed(error), _) => {
                Conclusion { result: Err(RelayError::Io(error)), close: true }
            },
            (_, LegPhase::Failed(error)) => {
                Conclusion { result: Err(RelayError::Io(error)), close: true }
            },
            (_, _) => Conclusion { result: Ok(()), close: false },
        }
    }
}

/// A direction shuts its sink down only once its source has ended and everything read from it
/// has been written.
pub proof fn law_shutdown_comes_last<E>(leg: LegState<E>, event: LegEvent<'_, E>)
    requires
        leg.accounted(),
        leg.expects(event),
    ensures
        leg.after(event).1 is Shutdown <==> (event matches LegEvent::Read(Ok(data))
            && data@.len() == 0),
        leg.after(event).1 is Shutdown ==> leg.after(event).0.written == leg.after(event).0.read,
{
}

/// What is written to a sink is what was read from the source, in order: the bytes to write are
/// those that follow what was written.
pub proof fn law_relay_keeps_order<E>(leg: LegState<E>, event: LegEvent<'_, E>)
    requires
        leg.accounted(),
        leg.expects(event),
    ensures
        leg.after(event).0.accounted(),
        leg.after(event).1 matches LegAction::Write(data) ==> leg.after(event).0.written + data@
            == leg.after(event).0.read,
{
    if let LegEvent::Read(Ok(data)) = event {
        assert(leg.written =~= (leg.read + data@).take(leg.written.len() as int));
    }
}

/// The end of one direction is not the end of the relay: the other goes on until it is done as
/// well, or something fails.
pub proof fn law_half_close<E>(active: LegPhase<E>)
    requires
        !(active is Done),
        !(active is Failed),
    ensures
        !is_over(false, LegPhase::Done, active),
        !is_over(false, active, LegPhase::Done),
{
}

/// A relay that ends well has relayed every byte of both directions and closed both sinks.
pub proof fn law_success_is_complete<E>(upload: LegState<E>, download: LegState<E>)
    requires
        upload.accounted(),
        download.accounted(),
        is_over(false, upload.phase, download.phase),
        relay_result(false, upload.phase, download.phase) is Ok,
    ensures
        upload.phase is Done && upload.written == upload.read,
        download.phase is Done && download.written == download.read,
{
}

/// The loss of the carrier ends the relay whatever the two directions are doing, a blocked write
/// included, and is what is reported.
pub proof fn law_abort_ends_the_relay<E>(upload: LegPhase<E>, download: LegPhase<E>)
    ensures
        is_over(true, upload, download),
        relay_result(true, upload, download) == Err::<(), RelayError<E>>(
            RelayError::Fault(Fault::StreamAborted),
        ),
{
}

/// A failure in one direction ends the relay with its error, whatever the other waits for.
pub proof fn law_failure_ends_the_relay<E>(error: E, other: LegPhase<E>)
    requires
        !(other is Failed),
    ensures
        is_over(false, LegPhase::Failed(error), other),
        is_over(false, other, LegPhase::Failed(error)),
        relay_result(false, LegPhase::Failed(error), other) == Err::<(), RelayError<E>>(
            RelayError::Io(error),
        ),
        relay_result(false, other, LegPhase::Failed(error)) == Err::<(), RelayError<E>>(
            RelayError::Io(error),
        ),
{
}

/// A direction speaks of its own phase.
proof fn law_leg_speaks_of_its_phase<E>(leg: Leg<E>)
    ensures
        leg@.phase == leg.phase,
{
}

/// Whatever a read gives is written next, exactly as it is, and is added to what was read. Nothing
/// counts as written before it is.
pub proof fn law_what_is_read_is_written_next<E>(leg: LegState<E>, data: &[u8])
    requires
        data@.len() > 0,
    ensures
        ({
            let (next, action) = leg.after(LegEvent::Read(Ok(data)));
            &&& action == LegAction::Write(data)
            &&& next.read.len() == leg.read.len() + data@.len()
            &&& next.read == leg.read + data@
            &&& next.written == leg.written
            &&& next.phase is Writing
        }),
{
}

/// Once a write has succeeded, everything read counts as written, and the next read follows. The
/// end of the source shuts the sink down, and that is the end; neither changes what was relayed.
pub proof fn law_leg_goes_on_until_its_source_ends<E>(leg: LegState<E>, nothing: &[u8])
    requires
        nothing@.len() == 0,
    ensures
        ({
            let (next, action) = leg.after(LegEvent::Wrote(Ok(())));
            &&& action == LegAction::Read
            &&& next.phase is Reading
            &&& next.read == leg.read
            &&& next.written == leg.read
        }),
        ({
            let (next, action) = leg.after(LegEvent::Read(Ok(nothing)));
            &&& action == LegAction::Shutdown
            &&& next.phase is ShuttingDown
            &&& next.read == leg.read
            &&& next.written == leg.written
        }),
        ({
            let (next, action) = leg.after(LegEvent::ShutDown(Ok(())));
            &&& action == LegAction::Stop
            &&& next.phase is Done
            &&& next.read == leg.read
            &&& next.written == leg.written
        }),
{
}

/// A read, write or shutdown that fails stops the direction with its error, and counts nothing as
/// read or written.
pub proof fn law_leg_fails_with_the_error<E>(leg: LegState<E>, error: E)
    ensures
        leg.after(LegEvent::Read(Err(error))) == (
            LegState { phase: LegPhase::Failed(error), ..leg },
            LegAction::Stop,
        ),
        leg.after(LegEvent::Wrote(Err(error))) == (
            LegState { phase: LegPhase::Failed(error), ..leg },
            LegAction::Stop,
        ),
        leg.after(LegEvent::ShutDown(Err(error))) == (
            LegState { phase: LegPhase::Failed(error), ..leg },
            LegAction::Stop,
        ),
{
}

/// A direction waits for the result of what it has asked for, and for nothing else.
pub proof fn law_leg_waits_for_what_it_asked<E>(leg: LegState<E>, event: LegEvent<'_, E>)
    ensures
        leg.phase is Reading ==> (leg.expects(event) <==> event is Read),
        leg.phase is Writing ==> (leg.expects(event) <==> event is Wrote),
        leg.phase is ShuttingDown ==> (leg.expects(event) <==> event is ShutDown),
        leg.phase is Idle || leg.phase is Done || leg.phase is Failed ==> !leg.expects(event),
{
}

/// The bytes that the reads among some events have given.
pub open spec fn data_of<E>(events: Seq<LegEvent<'_, E>>) -> Seq<u8>
    decreases events.len(),
{
    if events.len() == 0 {
        Seq::empty()
    } else {
        match events.last() {
            LegEvent::Read(Ok(data)) => data_of(events.drop_last()) + data@,
            _ => data_of(events.drop_last()),
        }
    }
}

/// Over any number of events, what was read is what the reads have given, one after the other, and
/// wherever no write is under way and nothing has failed, all of it has been written.
pub proof fn law_leg_relays_all_that_reads_give<E>(
    states: Seq<LegState<E>>,
    events: Seq<LegEvent<'_, E>>,
)
    requires
        states.len() == events.len() + 1,
        states[0].accounted(),
        forall|k: int|
            0 <= k < events.len() ==> {
                &&& states[k].expects(#[trigger] events[k])
                &&& states[k + 1] == states[k].after(events[k]).0
            },
    ensures
        states.last().read == states[0].read + data_of(events),
        states.last().accounted(),
        !(states.last().phase is Writing) && !(states.last().phase is Failed)
            ==> states.last().written == states[0].read + data_of(events),
    decreases events.len(),
{
    if events.len() > 0 {
        let at = events.len() - 1;
        let earlier = events.drop_last();
        assert forall|k: int| 0 <= k < earlier.len() implies {
            &&& states.drop_last()[k].expects(#[trigger] earlier[k])
            &&& states.drop_last()[k + 1] == states.drop_last()[k].after(earlier[k]).0
        } by {
            assert(states[k].expects(events[k]));
        }
        law_leg_relays_all_that_reads_give(states.drop_last(), earlier);
        assert(states.drop_last().last() == states[at]);
        assert(states[at].expects(events[at]));
        law_relay_keeps_order(states[at], events[at]);
        assert(states.last().read =~= states[0].read + data_of(events));
    } else {
        assert(states.last().read =~= states[0].read + data_of(events));
    }
}

/// A relay is over if, and only if, its carrier is gone, a direction has failed, or both are done.
/// It ends with the loss of the carrier, else with the failure of the upload, else with that of
/// the download, and well only where there was none of these.
pub proof fn law_relay_ends_with_what_ended_it<E>(
    upload: LegPhase<E>,
    download: LegPhase<E>,
    error: E,
)
    ensures
        is_over(false, upload, download) <==> upload is Failed || download is Failed || (upload
            is Done && download is Done),
        upload == LegPhase::Failed(error) ==> relay_result(false, upload, download) == Err::<
            (),
            RelayError<E>,
        >(RelayError::Io(error)),
        !(upload is Failed) && download == LegPhase::Failed(error) ==> relay_result(
            false,
            upload,
            download,
        ) == Err::<(), RelayError<E>>(RelayError::Io(error)),
        relay_result(false, upload, download) is Ok <==> !(upload is Failed) && !(download
            is Failed),
        relay_result(true, upload, download) == Err::<(), RelayError<E>>(
            RelayError::Fault(Fault::StreamAborted),
        ),
{
}

} // verus!
