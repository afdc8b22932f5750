//! The life of a worker thread: it sets up the socket, pumps until there is nothing more to do,
//! and takes the connection down. The caller performs each step and reports its result.

use crate::error::IoError;
use crate::pump::SOCKET_POLL_MILLIS;
use vstd::prelude::*;

verus! {

/// One setting of the socket.
#[derive(Clone, Copy, Debug, PartialEq, Eq, Structural)]
pub enum SocketOption {
    /// Reads and writes wait, so that an idle worker parks instead of spinning.
    Blocking,
    /// A read waits for at most this many milliseconds.
    ReadTimeout(u64),
    /// A write waits for at most this many milliseconds.
    WriteTimeout(u64),
}

/// What a worker waits for.
#[derive(Debug)]
pub enum Carrier<E> {
    /// The result of setting this option.
    Configuring(SocketOption),
    /// The result of the pump.
    Pumping,
    /// That the TLS layer has queued its closing alert. The worker will end with this result.
    Notifying(Result<(), IoError<E>>),
    /// The end of the last flush.
    Flushing(Result<(), IoError<E>>),
    /// That the socket is shut down.
    Closing(Result<(), IoError<E>>),
    /// Nothing: the worker has ended.
    Ended,
}

/// What has happened.
#[derive(Debug)]
pub enum CarrierEvent<E> {
    /// The option was set, or not.
    Configured(Result<(), IoError<E>>),
    /// The pump has ended.
    Pumped(Result<(), IoError<E>>),
    /// The closing alert is queued.
    Notified,
    /// The last flush is done, or has failed.
    Flushed(Result<(), IoError<E>>),
    /// The socket is shut down, or that has failed.
    ShutDown(Result<(), IoError<E>>),
}

/// What to do next.
#[derive(Debug)]
pub enum CarrierAction<E> {
    /// Set this option of the socket.
    Configure(SocketOption),
    /// Run the pump.
    Pump,
    /// Queue the TLS closing alert.
    SendCloseNotify,
    /// Flush the TLS stream.
    Flush,
    /// Shut the socket down in both directions.
    Shutdown,
    /// End with this result.
    Return(Result<(), IoError<E>>),
}

/// Whether the event is one that the worker waits for.
pub open spec fn expects<E>(carrier: Carrier<E>, event: CarrierEvent<E>) -> bool {
    match carrier {
        Carrier::Configuring(_) => event is Configured,
        Carrier::Pumping => event is Pumped,
        Carrier::Notifying(_) => event is Notified,
        Carrier::Flushing(_) => event is Flushed,
        Carrier::Closing(_) => event is ShutDown,
        Carrier::Ended => false,
    }
}

/// The option that is set after this one.
pub open spec fn option_after(option: SocketOption) -> Option<SocketOption> {
    match option {
        SocketOption::Blocking => Some(SocketOption::ReadTimeout(SOCKET_POLL_MILLIS)),
        SocketOption::ReadTimeout(_) => Some(SocketOption::WriteTimeout(SOCKET_POLL_MILLIS)),
        SocketOption::WriteTimeout(_) => None,
    }
}

/// What follows an event that the worker waits for. An option that cannot be set ends the worker
/// at once. The pump's result is what the worker ends with, whatever comes of taking the
/// connection down.
pub open spec fn after<E>(carrier: Carrier<E>, event: CarrierEvent<E>) -> (
    Carrier<E>,
    CarrierAction<E>,
) {
    match (carrier, event) {
        (Carrier::Configuring(_), CarrierEvent::Configured(Err(error))) => {
            (Carrier::Ended, CarrierAction::Return(Err(error)))
        },
        (Carrier::Configuring(option), CarrierEvent::Configured(Ok(_))) => {
            match option_after(option) {
                Some(next) => (Carrier::Configuring(next), CarrierAction::Configure(next)),
                None => (Carrier::Pumping, CarrierAction::Pump),
            }
        },
        (Carrier::Pumping, CarrierEvent::Pumped(result)) => {
            (Carrier::Notifying(result), CarrierAction::SendCloseNotify)
        },
        (Carrier::Notifying(result), CarrierEvent::Notified) => {
            (Carrier::Flushing(result), CarrierAction::Flush)
        },
        (Carrier::Flushing(result), CarrierEvent::Flushed(_)) => {
            (Carrier::Closing(result), CarrierAction::Shutdown)
        },
        (Carrier::Closing(result), CarrierEvent::ShutDown(_)) => {
            (Carrier::Ended, CarrierAction::Return(result))
        },
        (_, _) => arbitrary(),
    }
}

impl<E> Carrier<E> {
    /// Begins: the first option to set is that the socket blocks.
    pub fn start() -> (step: (Carrier<E>, CarrierAction<E>))
        ensures
            step.0 == Carrier::<E>::Configuring(SocketOption::Blocking),
            step.1 == CarrierAction::<E>::Configure(SocketOption::Blocking),
    {
        (
            Carrier::Configuring(SocketOption::Blocking),
            CarrierAction::Configure(SocketOption::Blocking),
        )
    }

    /// Goes on after an event.
    pub fn step(self, event: CarrierEvent<E>) -> (step: (Carrier<E>, CarrierAction<E>))
        requires
            expects(self, event),
        ensures
            step == after(self, event),
    {
        match (self, event) {
            (Carrier::Configuring(option), CarrierEvent::Configured(result)) => {
                if let Err(error) = result {
                    return (Carrier::Ended, CarrierAction::Return(Err(error)));
                }
                match option {
                    SocketOption::Blocking => {
                        let next = SocketOption::ReadTimeout(SOCKET_POLL_MILLIS);
                        (Carrier::Configuring(next), CarrierAction::Configure(next))
                    },
                    SocketOption::ReadTimeout(_) => {
                        let next = SocketOption::WriteTimeout(SOCKET_POLL_MILLIS);
                        (Carrier::Configuring(next), CarrierAction::Configure(next))
                    },
                    SocketOption::WriteTimeout(_) => (Carrier::Pumping, CarrierAction::Pump),
                }
            },
            (Carrier::Pumping, CarrierEvent::Pumped(result)) => {
                (Carrier::Notifying(result), CarrierAction::SendCloseNotify)
            },
            (Carrier::Notifying(result), CarrierEvent::Notified) => {
                (Carrier::Flushing(result), CarrierAction::Flush)
            },
            (Carrier::Flushing(result), CarrierEvent::Flushed(_)) => {
                (Carrier::Closing(result), CarrierAction::Shutdown)
            },
            (Carrier::Closing(result), CarrierEvent::ShutDown(_)) => {
                (Carrier::Ended, CarrierAction::Return(result))
            },
            (_, _) => vstd::pervasive::unreached(),
        }
    }
}

/// However the pump ends, the closing alert is sent, then flushed, then the socket is shut down,
/// and the worker ends with the pump's result, whether or not the last two succeed.
pub proof fn law_teardown_keeps_the_result<E>(
    result: Result<(), IoError<E>>,
    flush: Result<(), IoError<E>>,
    shutdown: Result<(), IoError<E>>,
)
    ensures
        ({
            let notifying = after(Carrier::Pumping, CarrierEvent::Pumped(result));
            let flushing = after(notifying.0, CarrierEvent::Notified);
            let closing = after(flushing.0, CarrierEvent::Flushed(flush));
            let ended = after(closing.0, CarrierEvent::ShutDown(shutdown));
            &&& notifying.1 == CarrierAction::<E>::SendCloseNotify
            &&& flushing.1 == CarrierAction::<E>::Flush
            &&& closing.1 == CarrierAction::<E>::Shutdown
            &&& ended == (Carrier::<E>::Ended, CarrierAction::Return(result))
        }),
{
}

/// The socket blocks, and has both timeouts, before the pump runs; and an option that cannot be
/// set ends the worker with that error.
pub proof fn law_setup_comes_first<E>(option: SocketOption, error: IoError<E>)
    ensures
        ({
            let done = CarrierEvent::<E>::Configured(Ok(()));
            let first = after(Carrier::Configuring(SocketOption::Blocking), done);
            let second = after(first.0, done);
            let third = after(second.0, done);
            let read_timeout = SocketOption::ReadTimeout(SOCKET_POLL_MILLIS);
            let write_timeout = SocketOption::WriteTimeout(SOCKET_POLL_MILLIS);
            &&& first.1 == CarrierAction::<E>::Configure(read_timeout)
            &&& second.1 == CarrierAction::<E>::Configure(write_timeout)
            &&& third == (Carrier::<E>::Pumping, CarrierAction::<E>::Pump)
        }),
        after(Carrier::Configuring(option), CarrierEvent::Configured(Err(error))) == (
            Carrier::<E>::Ended,
            CarrierAction::Return(Err(error)),
        ),
{
}

/// A worker waits for what it has asked for, and for nothing else.
pub proof fn law_worker_waits_for_what_it_asked<E>(
    option: SocketOption,
    result: Result<(), IoError<E>>,
    event: CarrierEvent<E>,
)
    ensures
        expects(Carrier::Configuring(option), event) <==> event is Configured,
        expects(Carrier::Pumping, event) <==> event is Pumped,
        expects(Carrier::Notifying(result), event) <==> event is Notified,
        expects(Carrier::Flushing(result), event) <==> event is Flushed,
        expects(Carrier::Closing(result), event) <==> event is ShutDown,
        !expects(Carrier::Ended, event),
{
}

} // verus!
