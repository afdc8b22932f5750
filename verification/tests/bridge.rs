use anyreality::async_bridge::{
    deliver, into_async, write_result, BridgeStream, ReadPoll, Worker,
};
use anyreality::channel::{Answer, Arrival, Receipt};
use anyreality::error::{would_block, ErrorKind, Fault, IoError};
use anyreality::pump::{
    absorb, unsent, Intake, PumpAction, BACKPRESSURE_POLL_MILLIS, INBOUND_CHANNEL_CAP, PUMP_BUFFER,
    RELAY_HIGH_WATER, SOCKET_POLL_MILLIS,
};
use std::io::{self, Read, Write};
use std::task::{Context, Waker};
use tokio::io::ReadBuf;

type Action = PumpAction<io::Error>;

fn classify(source: io::Error) -> IoError<io::Error> {
    let kind = match source.kind() {
        io::ErrorKind::WouldBlock => ErrorKind::WouldBlock,
        io::ErrorKind::TimedOut => ErrorKind::TimedOut,
        io::ErrorKind::BrokenPipe => ErrorKind::BrokenPipe,
        io::ErrorKind::InvalidData => ErrorKind::InvalidData,
        _ => ErrorKind::Other,
    };
    IoError { kind, source }
}

/// Performs one action of the pump, and gives the next.
fn perform<T: Read + Write>(worker: &mut Worker<T>, action: Action) -> Action {
    match action {
        PumpAction::Write => {
            let result = worker.tls.write(worker.pump.output());
            worker.pump.wrote(result.map_err(classify))
        }
        PumpAction::Flush => {
            let result = worker.tls.flush();
            worker.pump.flushed(result.map_err(classify))
        }
        PumpAction::Read => {
            let mut buffer = vec![0u8; PUMP_BUFFER];
            let result = worker.tls.read(&mut buffer);
            worker
                .pump
                .took_in(result.map(|count| &buffer[..count]).map_err(classify))
        }
        PumpAction::Pause => worker.pump.paused(),
        PumpAction::Finish(result) => PumpAction::Finish(result),
    }
}

fn perform_many<T: Read + Write>(worker: &mut Worker<T>, action: Action, steps: usize) -> Action {
    let mut action = action;
    for _ in 0..steps {
        action = perform(worker, action);
    }
    action
}

fn poll_read(stream: &mut BridgeStream, buffer: &mut [u8]) -> (ReadPoll, usize) {
    let mut cx = Context::from_waker(Waker::noop());
    let mut buf = ReadBuf::new(buffer);
    let poll = stream.poll_read(&mut cx, &mut buf);
    (poll, buf.filled().len())
}

fn blocked() -> io::Error {
    io::ErrorKind::WouldBlock.into()
}

/// A transport that does what a test tells it to.
#[derive(Default)]
struct Scripted {
    reads: Vec<io::Result<Vec<u8>>>,
    writes: Vec<io::Result<usize>>,
    flushes: Vec<io::Result<()>>,
    written: Vec<u8>,
}

impl Read for Scripted {
    fn read(&mut self, buffer: &mut [u8]) -> io::Result<usize> {
        if self.reads.is_empty() {
            return Err(blocked());
        }
        let data = self.reads.remove(0)?;
        buffer[..data.len()].copy_from_slice(&data);
        Ok(data.len())
    }
}

impl Write for Scripted {
    fn write(&mut self, buffer: &[u8]) -> io::Result<usize> {
        let count = if self.writes.is_empty() {
            buffer.len()
        } else {
            self.writes.remove(0)?
        };
        self.written.extend_from_slice(&buffer[..count]);
        Ok(count)
    }

    fn flush(&mut self) -> io::Result<()> {
        if self.flushes.is_empty() {
            return Ok(());
        }
        self.flushes.remove(0)
    }
}

#[test]
fn pending_tls_flush_is_retried_without_new_app_data() {
    struct BufferedTransport {
        pending: Vec<u8>,
        blocked_once: bool,
        flushed: Vec<Vec<u8>>,
    }

    impl Read for BufferedTransport {
        fn read(&mut self, _buffer: &mut [u8]) -> io::Result<usize> {
            Err(blocked())
        }
    }

    impl Write for BufferedTransport {
        fn write(&mut self, buffer: &[u8]) -> io::Result<usize> {
            self.pending.extend_from_slice(buffer);
            Ok(buffer.len())
        }

        fn flush(&mut self) -> io::Result<()> {
            if !self.pending.is_empty() {
                if !self.blocked_once {
                    self.blocked_once = true;
                    return Err(blocked());
                }
                self.flushed.push(core::mem::take(&mut self.pending));
            }
            Ok(())
        }
    }

    let (mut stream, mut worker) = into_async(BufferedTransport {
        pending: Vec::new(),
        blocked_once: false,
        flushed: Vec::new(),
    });
    assert_eq!(stream.poll_write(b"pending"), Ok(7));
    let action = worker.pump.start();
    let action = perform_many(&mut worker, action, 8);
    assert_eq!(
        worker.tls.flushed,
        vec![b"pending".to_vec()],
        "pending TLS output must be retried without new app data"
    );
    drop(stream);
    let action = perform_many(&mut worker, action, 8);
    assert!(matches!(action, PumpAction::Finish(Ok(()))));
}

/// Transport that yields a fixed amount of readable bytes and records every write.
struct CountingTransport {
    remaining: usize,
    written: Vec<Vec<u8>>,
}

impl Read for CountingTransport {
    fn read(&mut self, buffer: &mut [u8]) -> io::Result<usize> {
        if self.remaining == 0 {
            return Err(blocked());
        }
        let count = buffer.len().min(self.remaining);
        buffer[..count].fill(42);
        self.remaining -= count;
        Ok(count)
    }
}

impl Write for CountingTransport {
    fn write(&mut self, buffer: &[u8]) -> io::Result<usize> {
        self.written.push(buffer.to_vec());
        Ok(buffer.len())
    }

    fn flush(&mut self) -> io::Result<()> {
        Ok(())
    }
}

#[test]
fn stalled_app_reader_does_not_block_outbound_data() {
    let (mut stream, mut worker) = into_async(CountingTransport {
        remaining: PUMP_BUFFER * 4,
        written: Vec::new(),
    });
    stream.poll_write(b"first").unwrap();
    let action = worker.pump.start();
    let action = perform_many(&mut worker, action, 20);
    assert_eq!(worker.tls.written, vec![b"first".to_vec()]);
    stream.poll_write(b"next").unwrap();
    let action = perform_many(&mut worker, action, 20);
    assert_eq!(
        worker.tls.written.last().unwrap(),
        b"next",
        "outbound traffic must progress even while the app is not reading"
    );

    let mut drained: usize = 0;
    let mut scratch = vec![0u8; PUMP_BUFFER];
    while drained < PUMP_BUFFER {
        match poll_read(&mut stream, &mut scratch) {
            (ReadPoll::Pending, _) | (ReadPoll::Ready, 0) => break,
            (ReadPoll::Ready, count) => drained += count,
        }
    }
    assert!(drained >= PUMP_BUFFER);
    drop(stream);
    let action = perform_many(&mut worker, action, 8);
    assert!(matches!(action, PumpAction::Finish(Ok(()))));
}

#[test]
fn full_inbound_channel_pauses_reading_but_not_writing() {
    let (mut stream, mut worker) = into_async(CountingTransport {
        remaining: PUMP_BUFFER * 20,
        written: Vec::new(),
    });
    let mut action = worker.pump.start();
    while !matches!(action, PumpAction::Pause) {
        action = perform(&mut worker, action);
    }
    // The channel holds its limit, and one more chunk waits in the pump.
    assert_eq!(
        worker.tls.remaining,
        PUMP_BUFFER * (20 - INBOUND_CHANNEL_CAP - 1)
    );
    stream.poll_write(b"still").unwrap();
    action = perform(&mut worker, action);
    assert!(matches!(action, PumpAction::Write));
    action = perform(&mut worker, action);
    assert_eq!(worker.tls.written, vec![b"still".to_vec()]);
    action = perform(&mut worker, action);
    assert!(matches!(action, PumpAction::Pause));

    let mut scratch = vec![0u8; PUMP_BUFFER];
    assert_eq!(
        poll_read(&mut stream, &mut scratch),
        (ReadPoll::Ready, PUMP_BUFFER)
    );
    action = perform_many(&mut worker, action, 2);
    assert!(matches!(action, PumpAction::Read));

    let mut total = PUMP_BUFFER;
    for _ in 0..200 {
        if let (ReadPoll::Ready, count) = poll_read(&mut stream, &mut scratch) {
            assert!(scratch[..count].iter().all(|byte| *byte == 42));
            total += count;
        }
        action = perform(&mut worker, action);
    }
    assert_eq!(total, PUMP_BUFFER * 20);
}

#[test]
fn inbound_bytes_reach_the_async_reader_in_order() {
    struct OnceTransport {
        payload: Vec<u8>,
    }

    impl Read for OnceTransport {
        fn read(&mut self, buffer: &mut [u8]) -> io::Result<usize> {
            if self.payload.is_empty() {
                return Err(blocked());
            }
            let count = buffer.len().min(self.payload.len());
            buffer[..count].copy_from_slice(&self.payload[..count]);
            self.payload.drain(..count);
            Ok(count)
        }
    }

    impl Write for OnceTransport {
        fn write(&mut self, buffer: &[u8]) -> io::Result<usize> {
            Ok(buffer.len())
        }

        fn flush(&mut self) -> io::Result<()> {
            Ok(())
        }
    }

    let (mut stream, mut worker) = into_async(OnceTransport {
        payload: b"hello world".to_vec(),
    });
    let mut scratch = [0u8; 4];
    assert_eq!(poll_read(&mut stream, &mut scratch), (ReadPoll::Pending, 0));
    let action = worker.pump.start();
    let action = perform_many(&mut worker, action, 6);
    let mut got = Vec::new();
    while got.len() < b"hello world".len() {
        let (poll, count) = poll_read(&mut stream, &mut scratch);
        assert_eq!(poll, ReadPoll::Ready, "inbound data must arrive");
        assert_ne!(count, 0);
        got.extend_from_slice(&scratch[..count]);
    }
    assert_eq!(got, b"hello world");
    drop(stream);
    let action = perform_many(&mut worker, action, 8);
    assert!(matches!(action, PumpAction::Finish(Ok(()))));
}

#[test]
fn partial_writes_keep_the_order() {
    let (mut stream, mut worker) = into_async(Scripted {
        writes: vec![Ok(3), Err(blocked()), Ok(1), Ok(6)],
        ..Scripted::default()
    });
    stream.poll_write(b"abcd").unwrap();
    stream.poll_write(b"").unwrap();
    stream.poll_write(b"efghij").unwrap();
    let action = worker.pump.start();
    assert_eq!(worker.pump.output(), b"abcdefghij");
    let action = perform(&mut worker, action);
    assert_eq!(worker.pump.output(), b"defghij");
    let action = perform_many(&mut worker, action, 12);
    assert_eq!(worker.tls.written, b"abcdefghij");
    assert!(worker.pump.output().is_empty());
    assert!(!matches!(action, PumpAction::Finish(_)));
}

#[test]
fn application_close_waits_for_its_last_bytes() {
    let (mut stream, mut worker) = into_async(Scripted {
        writes: vec![Ok(2), Err(blocked()), Err(io::ErrorKind::TimedOut.into())],
        flushes: vec![Err(blocked())],
        ..Scripted::default()
    });
    stream.poll_write(b"last words").unwrap();
    stream.poll_shutdown();
    let mut action = worker.pump.start();
    let mut steps: usize = 0;
    while !matches!(action, PumpAction::Finish(_)) {
        action = perform(&mut worker, action);
        steps += 1;
        assert!(steps < 100);
    }
    assert!(matches!(action, PumpAction::Finish(Ok(()))));
    assert_eq!(worker.tls.written, b"last words");
    // Reading goes on after the writing side is shut down, up to the end of the stream.
    let mut scratch = [0u8; 4];
    assert_eq!(poll_read(&mut stream, &mut scratch), (ReadPoll::Pending, 0));
    drop(worker);
    assert_eq!(poll_read(&mut stream, &mut scratch), (ReadPoll::Ready, 0));
}

#[test]
fn application_close_waits_for_a_flush_that_succeeds() {
    let (mut stream, mut worker) = into_async(Scripted {
        flushes: vec![Err(blocked()), Err(io::ErrorKind::TimedOut.into()), Ok(())],
        ..Scripted::default()
    });
    stream.poll_write(b"bye").unwrap();
    stream.poll_shutdown();
    let action = worker.pump.start();
    assert!(matches!(action, PumpAction::Write));
    let mut action = perform(&mut worker, action);
    assert_eq!(worker.tls.written, b"bye");
    for left in [2, 1] {
        // The flush blocks: the round goes on to a read, and the next one flushes again.
        assert!(matches!(action, PumpAction::Flush));
        action = perform(&mut worker, action);
        assert_eq!(worker.tls.flushes.len(), left);
        assert!(matches!(action, PumpAction::Read));
        action = perform(&mut worker, action);
    }
    assert!(matches!(action, PumpAction::Flush));
    let action = perform(&mut worker, action);
    assert!(matches!(action, PumpAction::Finish(Ok(()))));
    assert_eq!(worker.tls.written, b"bye");
}

#[test]
fn unread_chunks_never_exceed_the_channel_and_one() {
    let (mut stream, mut worker) = into_async(CountingTransport {
        remaining: PUMP_BUFFER * 40,
        written: Vec::new(),
    });
    let mut action = worker.pump.start();
    let mut scratch = vec![0u8; PUMP_BUFFER];
    let mut received: usize = 0;
    for step in 0..400 {
        action = perform(&mut worker, action);
        let read = 40 - worker.tls.remaining / PUMP_BUFFER;
        assert!(read <= received + INBOUND_CHANNEL_CAP + 1);
        // A pause comes only once the channel was sent its fill.
        assert!(!matches!(action, PumpAction::Pause) || read > INBOUND_CHANNEL_CAP);
        if step % 7 == 0 && poll_read(&mut stream, &mut scratch) == (ReadPoll::Ready, PUMP_BUFFER) {
            received += 1;
        }
    }
    assert_eq!(received, 40);
}

#[test]
fn end_of_stream_comes_after_the_last_byte() {
    let (mut stream, mut worker) = into_async(Scripted {
        reads: vec![Ok(b"abc".to_vec()), Ok(Vec::new())],
        ..Scripted::default()
    });
    let action = worker.pump.start();
    let action = perform_many(&mut worker, action, 8);
    assert!(matches!(action, PumpAction::Finish(Ok(()))));
    drop(worker);
    let mut scratch = [0u8; 2];
    assert_eq!(poll_read(&mut stream, &mut scratch), (ReadPoll::Ready, 2));
    assert_eq!(&scratch, b"ab");
    assert_eq!(poll_read(&mut stream, &mut []), (ReadPoll::Ready, 0));
    assert_eq!(poll_read(&mut stream, &mut scratch), (ReadPoll::Ready, 1));
    assert_eq!(scratch[0], b'c');
    for _ in 0..3 {
        assert_eq!(poll_read(&mut stream, &mut scratch), (ReadPoll::Ready, 0));
    }
}

#[test]
fn pump_ends_on_errors_and_on_lost_ends() {
    let broken = || io::Error::from(io::ErrorKind::BrokenPipe);
    for transport in [
        Scripted { writes: vec![Err(broken())], ..Scripted::default() },
        Scripted { flushes: vec![Err(broken())], ..Scripted::default() },
        Scripted { reads: vec![Err(broken())], ..Scripted::default() },
    ] {
        let (mut stream, mut worker) = into_async(transport);
        stream.poll_write(b"x").unwrap();
        let action = worker.pump.start();
        match perform_many(&mut worker, action, 8) {
            PumpAction::Finish(Err(error)) => {
                assert_eq!(error.kind, ErrorKind::BrokenPipe);
                assert_eq!(error.source.kind(), io::ErrorKind::BrokenPipe);
            }
            other => panic!("unexpected {other:?}"),
        }
    }

    // A write that accepts nothing ends the pump.
    let (mut stream, mut worker) = into_async(Scripted {
        writes: vec![Ok(0)],
        ..Scripted::default()
    });
    stream.poll_write(b"x").unwrap();
    let action = worker.pump.start();
    let action = perform(&mut worker, action);
    assert!(matches!(action, PumpAction::Finish(Ok(()))));
}

#[test]
fn worker_without_a_reader_ends() {
    let (stream, mut worker) = into_async(Scripted {
        reads: vec![Ok(b"data".to_vec())],
        ..Scripted::default()
    });
    let action = worker.pump.start();
    let action = perform(&mut worker, action);
    assert!(matches!(action, PumpAction::Read));
    drop(stream);
    let action = perform(&mut worker, action);
    assert!(matches!(action, PumpAction::Finish(Ok(()))));
}

#[test]
fn collecting_stops_at_the_high_water_mark() {
    let (mut stream, mut worker) = into_async(Scripted {
        writes: vec![Ok(1)],
        ..Scripted::default()
    });
    stream.poll_write(&vec![1u8; RELAY_HIGH_WATER - 1]).unwrap();
    stream.poll_write(&vec![2u8; 10]).unwrap();
    stream.poll_write(&vec![3u8; 10]).unwrap();
    let action = worker.pump.start();
    assert_eq!(worker.pump.output().len(), RELAY_HIGH_WATER + 9);
    // One byte less is still above the mark, so the next round takes nothing.
    let action = perform_many(&mut worker, action, 3);
    assert!(matches!(action, PumpAction::Write));
    assert_eq!(worker.pump.output().len(), RELAY_HIGH_WATER + 8);
    let action = perform_many(&mut worker, action, 4);
    assert!(matches!(action, PumpAction::Flush));
    assert_eq!(worker.tls.written.len(), RELAY_HIGH_WATER + 19);
    assert_eq!(&worker.tls.written[RELAY_HIGH_WATER + 9..], &[3u8; 10]);
}

#[test]
fn backlog_stays_bounded_while_no_write_succeeds() {
    let (mut stream, mut worker) = into_async(Scripted {
        writes: (0..20).map(|_| Err(blocked())).collect(),
        ..Scripted::default()
    });
    let longest: usize = 100_000;
    let mut action = worker.pump.start();
    for _ in 0..10 {
        stream.poll_write(&vec![1u8; longest]).unwrap();
        action = perform_many(&mut worker, action, 4);
        assert!(worker.pump.output().len() < RELAY_HIGH_WATER + longest);
    }
    assert_eq!(worker.pump.output().len(), 300_000);
}

#[test]
fn shutdown_ends_the_queue_after_what_it_has_taken() {
    let (mut stream, mut worker) = into_async(Scripted::default());
    assert_eq!(stream.poll_write(b"abc"), Ok(3));
    stream.poll_shutdown();
    assert_eq!(stream.poll_write(b"d"), Err(Fault::WriteAfterShutdown));
    stream.poll_shutdown();
    let action = worker.pump.start();
    assert!(matches!(action, PumpAction::Write));
    assert_eq!(worker.pump.output(), b"abc");
    let action = perform_many(&mut worker, action, 2);
    assert!(matches!(action, PumpAction::Finish(Ok(()))));
    assert_eq!(worker.tls.written, b"abc");
}

#[test]
fn writes_fail_once_the_other_side_is_gone() {
    let (mut stream, worker) = into_async(());
    assert_eq!(stream.poll_write(b"abc"), Ok(3));
    stream.poll_flush();
    drop(worker);
    assert_eq!(stream.poll_write(b"abc"), Err(Fault::BridgeClosed));
    stream.poll_shutdown();
    assert_eq!(stream.poll_write(b"abc"), Err(Fault::WriteAfterShutdown));
    stream.poll_shutdown();
    assert_eq!(stream.poll_write(b""), Err(Fault::WriteAfterShutdown));
}

#[test]
fn answers_of_the_channels_are_read_one_by_one() {
    let mut waiting = b"ab".to_vec();
    assert_eq!(
        absorb(&mut waiting, Receipt::Message(b"cd".to_vec())),
        Intake::More
    );
    assert_eq!(absorb(&mut waiting, Receipt::Empty), Intake::Drained);
    assert_eq!(absorb(&mut waiting, Receipt::Disconnected), Intake::AppClosed);
    assert_eq!(waiting, b"abcd");

    assert_eq!(unsent(Answer::Sent), None);
    assert_eq!(unsent(Answer::Full(b"x".to_vec())), Some(b"x".to_vec()));
    assert_eq!(unsent(Answer::Closed), None);

    assert_eq!(write_result(true, 5), Ok(5));
    assert_eq!(write_result(false, 5), Err(Fault::BridgeClosed));

    let mut space = [0u8; 3];
    let mut buf = ReadBuf::new(&mut space);
    let (poll, rest, at) = deliver(Arrival::Chunk(b"abcde".to_vec()), &mut buf);
    assert_eq!((poll, &rest[at..]), (ReadPoll::Ready, &b"de"[..]));
    assert_eq!(buf.filled(), b"abc");
    assert_eq!(deliver(Arrival::Closed, &mut buf).0, ReadPoll::Ready);
    assert_eq!(deliver(Arrival::Pending, &mut buf).0, ReadPoll::Pending);
    assert_eq!(buf.filled(), b"abc");
}

#[test]
fn retryable_errors_are_told_apart() {
    let error = |kind| IoError { kind, source: () };
    assert!(would_block(&error(ErrorKind::WouldBlock)));
    assert!(would_block(&error(ErrorKind::TimedOut)));
    assert!(!would_block(&error(ErrorKind::BrokenPipe)));
    assert!(!would_block(&error(ErrorKind::InvalidData)));
    assert!(!would_block(&error(ErrorKind::Other)));
}

#[test]
fn faults_have_a_kind_and_a_text() {
    for (fault, kind, message) in [
        (Fault::BridgeClosed, ErrorKind::BrokenPipe, "REALITY bridge closed"),
        (Fault::WriteAfterShutdown, ErrorKind::BrokenPipe, "write after shutdown"),
        (Fault::StreamAborted, ErrorKind::BrokenPipe, "AnyTLS stream aborted"),
        (
            Fault::MissingDestination,
            ErrorKind::InvalidData,
            "UoT datagram missing destination",
        ),
    ] {
        assert_eq!(fault.kind(), kind);
        assert_eq!(fault.message(), message);
    }
}

#[test]
fn sizes_and_times() {
    assert_eq!(PUMP_BUFFER, 64 * 1024);
    assert_eq!(RELAY_HIGH_WATER, 256 * 1024);
    assert_eq!(INBOUND_CHANNEL_CAP, 16);
    assert_eq!(SOCKET_POLL_MILLIS, 5);
    assert_eq!(BACKPRESSURE_POLL_MILLIS, 1);
}
