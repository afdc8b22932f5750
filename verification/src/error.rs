//! Errors: what the library reads of an I/O error, and the errors it raises itself.

use vstd::prelude::*;

verus! {

/// What kind of failure an error is, as far as the library tells kinds apart.
#[derive(Clone, Copy, Debug, PartialEq, Eq, Structural)]
pub enum ErrorKind {
    /// The operation would have to wait, on a socket that does not.
    WouldBlock,
    /// The operation waited for as long as its socket allows.
    TimedOut,
    /// The other end is gone.
    BrokenPipe,
    /// The peer sent something that cannot be right.
    InvalidData,
    /// Every other kind.
    Other,
}

/// An I/O error: its kind, and the error itself, which the library only passes on.
#[derive(Debug)]
pub struct IoError<E> {
    pub kind: ErrorKind,
    pub source: E,
}

/// Whether an operation that failed with this kind made no progress and may be tried again.
pub open spec fn is_retryable(kind: ErrorKind) -> bool {
    kind == ErrorKind::WouldBlock || kind == ErrorKind::TimedOut
}

/// Whether the error says "no progress yet" rather than "this will not work". A socket with a
/// read or write timeout reports the timeout as one of two kinds, depending on the platform.
pub fn would_block<E>(error: &IoError<E>) -> (retryable: bool)
    ensures
        retryable == is_retryable(error.kind),
{
    match error.kind {
        ErrorKind::WouldBlock => true,
        ErrorKind::TimedOut => true,
        _ => false,
    }
}

/// The errors that the library raises itself.
#[derive(Clone, Copy, Debug, PartialEq, Eq, Structural)]
pub enum Fault {
    /// A write found that the worker behind the stream has stopped.
    BridgeClosed,
    /// A write came after the stream's writing side was shut down.
    WriteAfterShutdown,
    /// The carrier of a relayed stream was torn down.
    StreamAborted,
    /// A datagram packet does not say where to send it.
    MissingDestination,
}

/// The kind that a fault is reported under.
pub open spec fn fault_kind(fault: Fault) -> ErrorKind {
    match fault {
        Fault::MissingDestination => ErrorKind::InvalidData,
        _ => ErrorKind::BrokenPipe,
    }
}

/// The text that a fault is reported with.
pub open spec fn fault_message(fault: Fault) -> Seq<char> {
    match fault {
        Fault::BridgeClosed => "REALITY bridge closed"@,
        Fault::WriteAfterShutdown => "write after shutdown"@,
        Fault::StreamAborted => "AnyTLS stream aborted"@,
        Fault::MissingDestination => "UoT datagram missing destination"@,
    }
}

impl Fault {
    /// The kind to report the fault under.
    pub fn kind(&self) -> (kind: ErrorKind)
        ensures
            kind == fault_kind(*self),
    {
        match self {
            Fault::MissingDestination => ErrorKind::InvalidData,
            _ => ErrorKind::BrokenPipe,
        }
    }

    /// The text to report the fault with.
    pub fn message(&self) -> (message: &'static str)
        ensures
            message@ == fault_message(*self),
    {
        match self {
            Fault::BridgeClosed => "REALITY bridge closed",
            Fault::WriteAfterShutdown => "write after shutdown",
            Fault::StreamAborted => "AnyTLS stream aborted",
            Fault::MissingDestination => "UoT datagram missing destination",
        }
    }
}

/// An operation may be tried again if it only came too early: where it would have to wait, or has
/// waited for as long as it may.
pub proof fn law_only_waiting_is_retryable(kind: ErrorKind)
    ensures
        is_retryable(ErrorKind::WouldBlock),
        is_retryable(ErrorKind::TimedOut),
        kind != ErrorKind::WouldBlock && kind != ErrorKind::TimedOut ==> !is_retryable(kind),
{
}

/// A write that finds nobody, or comes too late, and the loss of a carrier are broken pipes; a
/// packet without a destination is invalid data. No fault asks for another try.
pub proof fn law_faults_have_their_kind(fault: Fault)
    ensures
        fault_kind(fault) == ErrorKind::InvalidData <==> fault == Fault::MissingDestination,
        fault_kind(fault) == ErrorKind::BrokenPipe <==> fault == Fault::BridgeClosed || fault
            == Fault::WriteAfterShutdown || fault == Fault::StreamAborted,
        !is_retryable(fault_kind(fault)),
        fault_message(Fault::BridgeClosed) == "REALITY bridge closed"@,
        fault_message(Fault::WriteAfterShutdown) == "write after shutdown"@,
        fault_message(Fault::StreamAborted) == "AnyTLS stream aborted"@,
        fault_message(Fault::MissingDestination) == "UoT datagram missing destination"@,
{
}

} // verus!
