use anyreality::carrier::{Carrier, CarrierAction, CarrierEvent, SocketOption};
use anyreality::error::{ErrorKind, Fault, IoError};
use anyreality::relay::{Leg, LegAction, LegEvent, RelayError, TcpRelay, RELAY_BUFFER};
use anyreality::stream_reader::{FetchPoll, ReaderAction, FETCH_BUFFER};
use anyreality::uot::{
    dispatch, Inbound, InboundAction, InboundEvent, Outbound, OutboundAction, OutboundEvent,
    UotError, UotMode, UotRelay, UDP_BUFFER,
};
use anyreality::AnytlsStreamReader;
use anytls::proxy::session::{new_client_session, new_server_session, Session, Stream};
use anytls::runtime::DefaultPaddingFactory;
use anytls::uot::{uot_encode_packet, uot_get_packet_from_stream};
use socks5_impl::protocol::Address;
use std::future::{poll_fn, Future};
use std::io;
use std::pin::Pin;
use std::sync::Arc;
use std::task::{Context, Poll};
use std::time::Duration;
use tokio::io::{AsyncRead, AsyncReadExt, AsyncWrite, AsyncWriteExt, ReadBuf};
use tokio::time::timeout;

type ReadFuture = Pin<Box<dyn Future<Output = io::Result<(Vec<u8>, usize)>> + Send>>;

struct Reader(AnytlsStreamReader<Arc<Stream>, ReadFuture>);

impl Reader {
    fn new(stream: Arc<Stream>) -> Self {
        Reader(AnytlsStreamReader::new(stream))
    }
}

impl AsyncRead for Reader {
    fn poll_read(
        self: Pin<&mut Self>,
        cx: &mut Context<'_>,
        buffer: &mut ReadBuf<'_>,
    ) -> Poll<io::Result<()>> {
        let reader = &mut self.get_mut().0;
        let mut action = reader.poll_read(buffer);
        loop {
            action = match action {
                ReaderAction::Ready => return Poll::Ready(Ok(())),
                ReaderAction::Failed(error) => return Poll::Ready(Err(error)),
                ReaderAction::Pending => return Poll::Pending,
                ReaderAction::Start => {
                    let stream = reader.stream.clone();
                    reader.started(Box::pin(async move {
                        let mut bytes = vec![0; FETCH_BUFFER];
                        let count = stream.read(&mut bytes).await?;
                        Ok((bytes, count))
                    }))
                }
                ReaderAction::Poll => {
                    let poll = match reader.reading.as_mut().unwrap().as_mut().poll(cx) {
                        Poll::Pending => FetchPoll::Pending,
                        Poll::Ready(result) => FetchPoll::Done(result),
                    };
                    reader.polled(poll, buffer)
                }
            };
        }
    }
}

async fn relay_tcp<T>(local: T, stream: Arc<Stream>) -> Result<(), RelayError<io::Error>>
where
    T: AsyncRead + AsyncWrite + Unpin,
{
    let (mut local_read, mut local_write) = tokio::io::split(local);
    let mut relay = TcpRelay::new();
    let aborted = {
        let TcpRelay { upload, download } = &mut relay;
        let mut uploading = Box::pin(async {
            let mut buffer = vec![0; RELAY_BUFFER];
            let mut action = upload.start();
            loop {
                action = match action {
                    LegAction::Read => {
                        let read = local_read.read(&mut buffer).await;
                        upload.step(LegEvent::Read(read.map(|count| &buffer[..count])))
                    }
                    LegAction::Write(bytes) => {
                        let written = stream.write(bytes).await;
                        upload.step(LegEvent::Wrote(written.map(|_| ())))
                    }
                    LegAction::Shutdown => {
                        upload.step(LegEvent::ShutDown(stream.shutdown_write().await))
                    }
                    LegAction::Stop => return upload.has_failed(),
                };
            }
        });
        let mut downloading = Box::pin(async {
            let mut buffer = vec![0; RELAY_BUFFER];
            let mut action = download.start();
            loop {
                action = match action {
                    LegAction::Read => {
                        let read = stream.read(&mut buffer).await;
                        download.step(LegEvent::Read(read.map(|count| &buffer[..count])))
                    }
                    LegAction::Write(bytes) => {
                        download.step(LegEvent::Wrote(local_write.write_all(bytes).await))
                    }
                    LegAction::Shutdown => {
                        download.step(LegEvent::ShutDown(local_write.shutdown().await))
                    }
                    LegAction::Stop => return download.has_failed(),
                };
            }
        });
        let mut aborting = Box::pin(stream.wait_for_abort());
        let mut uploaded = false;
        let mut downloaded = false;
        poll_fn(|cx| {
            if aborting.as_mut().poll(cx).is_ready() {
                return Poll::Ready(true);
            }
            if !uploaded {
                match uploading.as_mut().poll(cx) {
                    Poll::Ready(true) => return Poll::Ready(false),
                    Poll::Ready(false) => uploaded = true,
                    Poll::Pending => {}
                }
            }
            if !downloaded {
                match downloading.as_mut().poll(cx) {
                    Poll::Ready(true) => return Poll::Ready(false),
                    Poll::Ready(false) => downloaded = true,
                    Poll::Pending => {}
                }
            }
            if uploaded && downloaded {
                Poll::Ready(false)
            } else {
                Poll::Pending
            }
        })
        .await
    };
    let conclusion = relay.conclude(aborted);
    if conclusion.close {
        let _ = stream.close().await;
    }
    conclusion.result
}

/// A UDP socket in memory: packets with the text of the address they come from or go to.
struct Socket {
    inbox: tokio::sync::Mutex<tokio::sync::mpsc::UnboundedReceiver<(String, Vec<u8>)>>,
    outbox: tokio::sync::mpsc::UnboundedSender<(Option<String>, Vec<u8>)>,
}

impl Socket {
    async fn recv_from(&self, buffer: &mut [u8]) -> io::Result<(usize, Address)> {
        let packet = self.inbox.lock().await.recv().await;
        let (from, bytes) = packet.ok_or(io::ErrorKind::NotConnected)?;
        buffer[..bytes.len()].copy_from_slice(&bytes);
        Ok((bytes.len(), Address::try_from(from.as_str()).unwrap()))
    }

    async fn send_to(&self, bytes: &[u8], to: Option<String>) -> io::Result<()> {
        let sent = self.outbox.send((to, bytes.to_vec()));
        sent.map_err(|_| io::ErrorKind::NotConnected.into())
    }
}

async fn relay_uot(
    udp: &Socket,
    stream: &Arc<Stream>,
    reader: &mut Reader,
    mode: anytls::uot::UotMode,
) -> Result<(), UotError<io::Error>> {
    let mut relay = UotRelay::new(match mode {
        anytls::uot::UotMode::Datagram => UotMode::Datagram,
        anytls::uot::UotMode::Connected => UotMode::Connected,
    });
    let aborted = {
        let UotRelay { outbound, inbound } = &mut relay;
        let mut sending = Box::pin(async {
            let mut action = outbound.start();
            loop {
                action = match action {
                    OutboundAction::Fetch => {
                        let packet = uot_get_packet_from_stream(mode, reader).await;
                        outbound.step(OutboundEvent::Fetched(
                            packet.map(|(to, payload)| (to.map(Vec::<u8>::from), payload)),
                        ))
                    }
                    OutboundAction::SendTo(to, payload) => {
                        let sent = udp.send_to(&payload, Some(to)).await;
                        outbound.step(OutboundEvent::Sent(sent))
                    }
                    OutboundAction::Send(payload) => {
                        let sent = udp.send_to(&payload, None).await;
                        outbound.step(OutboundEvent::Sent(sent))
                    }
                    OutboundAction::Stop => return,
                };
            }
        });
        let mut receiving = Box::pin(async {
            let mut buffer = vec![0; UDP_BUFFER];
            let mut action = inbound.start();
            loop {
                action = match action {
                    InboundAction::ReceiveFrom => {
                        let received = udp.recv_from(&mut buffer).await;
                        inbound.step(InboundEvent::ReceivedFrom(received.map(|(count, from)| {
                            (Vec::<u8>::from(from), &buffer[..count])
                        })))
                    }
                    InboundAction::Receive => {
                        let received = udp.recv_from(&mut buffer).await;
                        inbound.step(InboundEvent::Received(received.map(|(n, _)| &buffer[..n])))
                    }
                    InboundAction::Write(frame) => {
                        let written = stream.write(&frame).await;
                        inbound.step(InboundEvent::Wrote(written.map(|_| ())))
                    }
                    InboundAction::Stop => return,
                };
            }
        });
        let mut aborting = Box::pin(stream.wait_for_abort());
        poll_fn(|cx| {
            if aborting.as_mut().poll(cx).is_ready() {
                Poll::Ready(true)
            } else if sending.as_mut().poll(cx).is_ready() {
                Poll::Ready(false)
            } else {
                receiving.as_mut().poll(cx).map(|_| false)
            }
        })
        .await
    };
    relay.conclude(aborted)
}

fn run<F: Future<Output = ()>>(limit: u64, test: F) {
    tokio::runtime::Builder::new_multi_thread()
        .worker_threads(2)
        .enable_all()
        .build()
        .unwrap()
        .block_on(async { timeout(Duration::from_secs(limit), test).await.unwrap() });
}

async fn stream_pair() -> (Arc<Session>, Arc<Session>, Arc<Stream>, Arc<Stream>) {
    let (client_io, server_io) = tokio::io::duplex(8192);
    let (sender, mut receiver) = tokio::sync::mpsc::unbounded_channel();
    let server = Arc::new(
        new_server_session(
            Box::new(server_io),
            Box::new(move |stream| {
                sender.send(stream).unwrap();
            }),
            DefaultPaddingFactory::load(),
            8,
        )
        .await,
    );
    let client =
        Arc::new(new_client_session(Box::new(client_io), DefaultPaddingFactory::load()).await);
    client.ensure_started().await.unwrap();
    for session in [&client, &server] {
        let session = session.clone();
        tokio::spawn(async move {
            let _ = session.run().await;
        });
    }
    let local = client.open_stream(8).await.unwrap();
    let remote = receiver.recv().await.unwrap();
    (client, server, local, remote)
}

#[test]
fn uot_partial_packet_survives_reverse_traffic() {
    run(5, async {
        for mode in [
            anytls::uot::UotMode::Datagram,
            anytls::uot::UotMode::Connected,
        ] {
            let (client, server, local, remote) = stream_pair().await;
            let (to_relay, inbox) = tokio::sync::mpsc::unbounded_channel();
            let (outbox, mut from_relay) = tokio::sync::mpsc::unbounded_channel();
            let udp = Socket { inbox: tokio::sync::Mutex::new(inbox), outbox };
            let target = "127.0.0.1:4000";
            let destination = Address::try_from(target).unwrap();
            let destination_arg = match mode {
                anytls::uot::UotMode::Datagram => Some(&destination),
                anytls::uot::UotMode::Connected => None,
            };
            let packet = uot_encode_packet(mode, destination_arg, b"fragmented").unwrap();
            let split = packet.len() - 5;
            local.write(&packet[..split]).await.unwrap();
            let task = tokio::spawn(async move {
                let mut reader = Reader::new(remote.clone());
                relay_uot(&udp, &remote, &mut reader, mode).await
            });
            let mut response_reader = Reader::new(local.clone());
            for _ in 0..3 {
                to_relay.send((target.to_string(), b"reverse".to_vec())).unwrap();
                let (source, bytes) = uot_get_packet_from_stream(mode, &mut response_reader)
                    .await
                    .unwrap();
                assert_eq!(source.as_ref(), destination_arg);
                assert_eq!(bytes, b"reverse");
            }
            local.write(&packet[split..]).await.unwrap();
            let (to, bytes) = from_relay.recv().await.unwrap();
            assert_eq!(to, destination_arg.map(|_| target.to_string()));
            assert_eq!(bytes, b"fragmented");
            local.shutdown_write().await.unwrap();
            task.await.unwrap().unwrap_err();
            client.terminate().await.unwrap();
            server.terminate().await.unwrap();
        }
    });
}

#[test]
fn cancelled_large_read_preserves_bytes_for_smaller_buffers() {
    run(3, async {
        let (client, server, stream, _remote) = stream_pair().await;
        let mut reader = Reader::new(stream.clone());
        let mut large = [0; 128];
        {
            let mut reading = Box::pin(reader.read(&mut large));
            poll_fn(|cx| {
                assert!(reading.as_mut().poll(cx).is_pending());
                Poll::Ready(())
            })
            .await;
        }
        stream.push_data(b"abcdefgh").await.unwrap();
        let mut empty = [];
        assert_eq!(reader.read(&mut empty).await.unwrap(), 0);
        let mut small = [0; 2];
        reader.read_exact(&mut small).await.unwrap();
        assert_eq!(&small, b"ab");
        let mut rest = [0; 6];
        reader.read_exact(&mut rest).await.unwrap();
        assert_eq!(&rest, b"cdefgh");
        client.terminate().await.unwrap();
        server.terminate().await.unwrap();
    });
}

#[test]
fn relay_preserves_both_half_close_directions() {
    run(3, async {
        for local_first in [true, false] {
            let (client, server, stream, remote) = stream_pair().await;
            let (mut app, local) = tokio::io::duplex(1024);
            let relay = tokio::spawn(relay_tcp(local, stream));
            let mut buffer = [0; 32];
            if local_first {
                app.write_all(b"request").await.unwrap();
                app.shutdown().await.unwrap();
                let count = remote.read(&mut buffer).await.unwrap();
                assert_eq!(&buffer[..count], b"request");
                assert_eq!(remote.read(&mut buffer).await.unwrap(), 0);
                remote.write(b"response").await.unwrap();
                remote.shutdown_write().await.unwrap();
                let mut response = Vec::new();
                app.read_to_end(&mut response).await.unwrap();
                assert_eq!(response, b"response");
            } else {
                remote.shutdown_write().await.unwrap();
                assert_eq!(app.read(&mut buffer).await.unwrap(), 0);
                app.write_all(b"still uploading").await.unwrap();
                app.shutdown().await.unwrap();
                let count = remote.read(&mut buffer).await.unwrap();
                assert_eq!(&buffer[..count], b"still uploading");
                assert_eq!(remote.read(&mut buffer).await.unwrap(), 0);
            }
            relay.await.unwrap().unwrap();
            client.terminate().await.unwrap();
            server.terminate().await.unwrap();
        }
    });
}

#[test]
fn session_abort_interrupts_blocked_local_write() {
    run(3, async {
        let (client, server, stream, remote) = stream_pair().await;
        let (mut app, local) = tokio::io::duplex(1);
        remote.write(&[42; 4096]).await.unwrap();
        let relay = tokio::spawn(relay_tcp(local, stream));
        let mut byte = [0; 1];
        app.read_exact(&mut byte).await.unwrap();
        client.terminate().await.unwrap();
        match relay.await.unwrap().unwrap_err() {
            RelayError::Fault(fault) => assert_eq!(fault.kind(), ErrorKind::BrokenPipe),
            RelayError::Io(error) => assert_eq!(error.kind(), io::ErrorKind::BrokenPipe),
        }
        server.terminate().await.unwrap();
    });
}

#[test]
fn relay_write_failure_cancels_pending_upload() {
    struct FailedWriter;
    impl AsyncRead for FailedWriter {
        fn poll_read(
            self: Pin<&mut Self>,
            _: &mut Context<'_>,
            _: &mut ReadBuf<'_>,
        ) -> Poll<io::Result<()>> {
            Poll::Pending
        }
    }
    impl AsyncWrite for FailedWriter {
        fn poll_write(
            self: Pin<&mut Self>,
            _: &mut Context<'_>,
            _: &[u8],
        ) -> Poll<io::Result<usize>> {
            Poll::Ready(Err(io::ErrorKind::BrokenPipe.into()))
        }
        fn poll_flush(self: Pin<&mut Self>, _: &mut Context<'_>) -> Poll<io::Result<()>> {
            Poll::Ready(Ok(()))
        }
        fn poll_shutdown(self: Pin<&mut Self>, _: &mut Context<'_>) -> Poll<io::Result<()>> {
            Poll::Ready(Ok(()))
        }
    }
    run(3, async {
        let (client, server, stream, remote) = stream_pair().await;
        remote.write(b"response").await.unwrap();
        match relay_tcp(FailedWriter, stream.clone()).await.unwrap_err() {
            RelayError::Io(error) => assert_eq!(error.kind(), io::ErrorKind::BrokenPipe),
            RelayError::Fault(fault) => panic!("unexpected {fault:?}"),
        }
        assert!(stream.is_closed());
        assert!(stream.is_read_closed());
        client.terminate().await.unwrap();
        server.terminate().await.unwrap();
    });
}

fn read_into(
    reader: &mut AnytlsStreamReader<(), u8>,
    space: &mut [u8],
) -> (ReaderAction<&'static str>, usize) {
    let mut buf = ReadBuf::new(space);
    let action = reader.poll_read(&mut buf);
    (action, buf.filled().len())
}

#[test]
fn reader_hands_out_what_it_has_before_it_fetches_more() {
    let mut reader: AnytlsStreamReader<(), u8> = AnytlsStreamReader::new(());
    let mut space = [0u8; 4];
    assert!(matches!(read_into(&mut reader, &mut []), (ReaderAction::Ready, 0)));
    assert!(matches!(read_into(&mut reader, &mut space), (ReaderAction::Start, 0)));
    assert!(matches!(reader.started::<&str>(7), ReaderAction::Poll));
    {
        let mut buf = ReadBuf::new(&mut space);
        assert!(matches!(
            reader.polled::<&str>(FetchPoll::Pending, &mut buf),
            ReaderAction::Pending
        ));
    }
    // The read in flight is still the same one.
    assert_eq!(reader.reading, Some(7));
    assert!(matches!(read_into(&mut reader, &mut space), (ReaderAction::Poll, 0)));
    {
        let mut buf = ReadBuf::new(&mut space);
        let fetched = FetchPoll::Done(Ok((b"abcdef????".to_vec(), 6)));
        assert!(matches!(
            reader.polled::<&str>(fetched, &mut buf),
            ReaderAction::Ready
        ));
        assert_eq!(buf.filled(), b"abcd");
    }
    assert_eq!(reader.reading, None);
    assert!(matches!(read_into(&mut reader, &mut space), (ReaderAction::Ready, 2)));
    assert_eq!(&space[..2], b"ef");
    assert!(matches!(read_into(&mut reader, &mut space), (ReaderAction::Start, 0)));
}

#[test]
fn reader_reports_errors_and_the_end() {
    let mut reader: AnytlsStreamReader<(), u8> = AnytlsStreamReader::new(());
    let mut space = [0u8; 4];
    reader.started::<&str>(1);
    let mut buf = ReadBuf::new(&mut space);
    match reader.polled(FetchPoll::Done(Err("lost")), &mut buf) {
        ReaderAction::Failed(error) => assert_eq!(error, "lost"),
        other => panic!("unexpected {other:?}"),
    }
    assert_eq!(reader.reading, None);
    reader.started::<&str>(2);
    let end = FetchPoll::Done(Ok((vec![9; 3], 0)));
    assert!(matches!(reader.polled::<&str>(end, &mut buf), ReaderAction::Ready));
    assert!(buf.filled().is_empty());
    assert!(matches!(
        reader.poll_read::<&str>(&mut buf),
        ReaderAction::Start
    ));
}

#[test]
fn leg_copies_until_its_source_ends() {
    let mut leg: Leg<&str> = Leg::new();
    assert!(matches!(leg.start(), LegAction::Read));
    match leg.step(LegEvent::Read(Ok(b"abc"))) {
        LegAction::Write(bytes) => assert_eq!(bytes, b"abc"),
        other => panic!("unexpected {other:?}"),
    }
    assert!(matches!(leg.step(LegEvent::Wrote(Ok(()))), LegAction::Read));
    assert!(matches!(leg.step(LegEvent::Read(Ok(b""))), LegAction::Shutdown));
    assert!(matches!(leg.step(LegEvent::ShutDown(Ok(()))), LegAction::Stop));
    assert!(!leg.has_failed());

    let mut leg: Leg<&str> = Leg::new();
    leg.start();
    leg.step(LegEvent::Read(Ok(b"abc")));
    assert!(matches!(leg.step(LegEvent::Wrote(Err("full"))), LegAction::Stop));
    assert!(leg.has_failed());
}

fn finish(leg: &mut Leg<&'static str>) {
    leg.start();
    leg.step(LegEvent::Read(Ok(b"")));
    leg.step(LegEvent::ShutDown(Ok(())));
}

#[test]
fn relay_ends_with_the_first_failure() {
    let mut relay = TcpRelay::new();
    finish(&mut relay.upload);
    finish(&mut relay.download);
    let conclusion = relay.conclude(false);
    assert!(conclusion.result.is_ok());
    assert!(!conclusion.close);

    let mut relay = TcpRelay::new();
    finish(&mut relay.upload);
    relay.download.start();
    relay.download.step(LegEvent::Read(Err("lost")));
    let conclusion = relay.conclude(false);
    assert!(matches!(conclusion.result, Err(RelayError::Io("lost"))));
    assert!(conclusion.close);

    let mut relay = TcpRelay::new();
    relay.upload.start();
    relay.upload.step(LegEvent::Read(Err("lost")));
    relay.download.start();
    let conclusion = relay.conclude(true);
    assert!(matches!(
        conclusion.result,
        Err(RelayError::Fault(Fault::StreamAborted))
    ));
    assert!(conclusion.close);
}

#[test]
fn carrier_sets_up_pumps_and_takes_down() {
    let failure = |source: u8| IoError { kind: ErrorKind::Other, source };
    let (carrier, action) = Carrier::<u8>::start();
    assert!(matches!(action, CarrierAction::Configure(SocketOption::Blocking)));
    let (carrier, action) = carrier.step(CarrierEvent::Configured(Ok(())));
    assert!(matches!(
        action,
        CarrierAction::Configure(SocketOption::ReadTimeout(5))
    ));
    let (carrier, action) = carrier.step(CarrierEvent::Configured(Ok(())));
    assert!(matches!(
        action,
        CarrierAction::Configure(SocketOption::WriteTimeout(5))
    ));
    let (carrier, action) = carrier.step(CarrierEvent::Configured(Ok(())));
    assert!(matches!(action, CarrierAction::Pump));
    let (carrier, action) = carrier.step(CarrierEvent::Pumped(Err(failure(1))));
    assert!(matches!(action, CarrierAction::SendCloseNotify));
    let (carrier, action) = carrier.step(CarrierEvent::Notified);
    assert!(matches!(action, CarrierAction::Flush));
    let (carrier, action) = carrier.step(CarrierEvent::Flushed(Err(failure(2))));
    assert!(matches!(action, CarrierAction::Shutdown));
    let (_, action) = carrier.step(CarrierEvent::ShutDown(Err(failure(3))));
    match action {
        CarrierAction::Return(Err(error)) => assert_eq!(error.source, 1),
        other => panic!("unexpected {other:?}"),
    }

    let (carrier, _) = Carrier::<u8>::start();
    let (_, action) = carrier.step(CarrierEvent::Configured(Err(failure(4))));
    match action {
        CarrierAction::Return(Err(error)) => assert_eq!(error.source, 4),
        other => panic!("unexpected {other:?}"),
    }
}

fn socket_form(text: &str) -> Vec<u8> {
    Vec::<u8>::from(Address::try_from(text).unwrap())
}

#[test]
fn packets_are_sent_where_they_say() {
    let mut outbound: Outbound<&str> = Outbound::new(UotMode::Datagram);
    assert!(matches!(outbound.start(), OutboundAction::Fetch));
    for (form, text) in [
        (vec![1, 127, 0, 0, 1, 0x1f, 0x90], "127.0.0.1:8080"),
        (socket_form("[2001:db8::1]:53"), "[2001:db8::1]:53"),
        (b"\x03\x0bexample.com\x01\xbb".to_vec(), "example.com:443"),
        (b"\x03\x00\x00\x07".to_vec(), ":7"),
        (vec![1, 10, 200, 0, 99, 0xff, 0xff, 1, 2], "10.200.0.99:65535"),
    ] {
        let packet = OutboundEvent::Fetched(Ok((Some(form), b"payload".to_vec())));
        match outbound.step(packet) {
            OutboundAction::SendTo(to, payload) => {
                assert_eq!(to, text);
                assert_eq!(payload, b"payload");
            }
            other => panic!("unexpected {other:?}"),
        }
        assert!(matches!(
            outbound.step(OutboundEvent::Sent(Ok(()))),
            OutboundAction::Fetch
        ));
    }
    let nowhere = OutboundEvent::Fetched(Ok((None, b"payload".to_vec())));
    assert!(matches!(outbound.step(nowhere), OutboundAction::Stop));
    let relay = UotRelay { outbound, inbound: Inbound::new(UotMode::Datagram) };
    assert!(matches!(
        relay.conclude(false),
        Err(UotError::Fault(Fault::MissingDestination))
    ));

    for garbage in [
        vec![],
        vec![9, 9],
        vec![1, 127, 0, 0, 1, 0x1f],
        b"\x03\x0cexample.com\x01\xbb".to_vec(),
        vec![3, 1, 0xff, 0, 80],
        vec![4; 18],
    ] {
        let mut outbound: Outbound<&str> = Outbound::new(UotMode::Datagram);
        outbound.start();
        let packet = OutboundEvent::Fetched(Ok((Some(garbage), b"payload".to_vec())));
        assert!(matches!(outbound.step(packet), OutboundAction::Stop));
        let relay = UotRelay { outbound, inbound: Inbound::new(UotMode::Datagram) };
        assert!(matches!(relay.conclude(false), Err(UotError::Address(_))));
    }

    let mut outbound: Outbound<&str> = Outbound::new(UotMode::Connected);
    outbound.start();
    let packet = OutboundEvent::Fetched(Ok((None, b"payload".to_vec())));
    match outbound.step(packet) {
        OutboundAction::Send(payload) => assert_eq!(payload, b"payload"),
        other => panic!("unexpected {other:?}"),
    }
    assert!(matches!(
        outbound.step(OutboundEvent::Sent(Err("unreachable"))),
        OutboundAction::Stop
    ));
    let relay = UotRelay { outbound, inbound: Inbound::new(UotMode::Connected) };
    assert!(matches!(relay.conclude(false), Err(UotError::Io("unreachable"))));
}

/// A stream that yields its bytes piece by piece, through a reader of the library.
struct Pieces {
    reader: AnytlsStreamReader<(), ()>,
    pieces: Vec<Vec<u8>>,
}

impl AsyncRead for Pieces {
    fn poll_read(
        self: Pin<&mut Self>,
        _cx: &mut Context<'_>,
        buffer: &mut ReadBuf<'_>,
    ) -> Poll<io::Result<()>> {
        let this = self.get_mut();
        let mut action = this.reader.poll_read::<io::Error>(buffer);
        loop {
            action = match action {
                ReaderAction::Ready => return Poll::Ready(Ok(())),
                ReaderAction::Failed(error) => return Poll::Ready(Err(error)),
                ReaderAction::Pending => return Poll::Pending,
                ReaderAction::Start => this.reader.started(()),
                ReaderAction::Poll => {
                    let piece = if this.pieces.is_empty() {
                        Vec::new()
                    } else {
                        this.pieces.remove(0)
                    };
                    let count = piece.len();
                    this.reader.polled(FetchPoll::Done(Ok((piece, count))), buffer)
                }
            };
        }
    }
}

#[test]
fn datagrams_do_not_depend_on_cuts_or_reverse_traffic() {
    let packets: [(&[u8], &[u8]); 4] = [
        (&[1, 127, 0, 0, 1, 0x1f, 0x90], b"one"),
        (b"\x03\x0bexample.com\x01\xbb", b""),
        (&[4, 0, 0, 0, 0, 0, 0, 0, 0, 0, 0, 0, 0, 0, 0, 0, 1, 0, 53], b"three"),
        (&[1, 10, 0, 0, 1, 0, 1], b"four"),
    ];
    let mut bytes: Vec<u8> = Vec::new();
    for (address, payload) in packets {
        let address = Address::try_from(address).unwrap();
        let mode = anytls::uot::UotMode::Datagram;
        bytes.extend(uot_encode_packet(mode, Some(&address), payload).unwrap());
    }
    run(5, async {
        for cut in 1..bytes.len() {
            let mut stream = Pieces {
                reader: AnytlsStreamReader::new(()),
                pieces: vec![bytes[..cut].to_vec(), bytes[cut..].to_vec()],
            };
            let mut relay: UotRelay<io::Error> = UotRelay::new(UotMode::Datagram);
            let mut action = relay.outbound.start();
            relay.inbound.start();
            let mut sent: Vec<(String, Vec<u8>)> = Vec::new();
            loop {
                action = match action {
                    OutboundAction::Fetch => {
                        let source = vec![1, 127, 0, 0, 1, 0, 9];
                        let received = InboundEvent::ReceivedFrom(Ok((source, b"reverse")));
                        assert!(matches!(relay.inbound.step(received), InboundAction::Write(_)));
                        relay.inbound.step(InboundEvent::Wrote(Ok(())));
                        let mode = anytls::uot::UotMode::Datagram;
                        let packet = uot_get_packet_from_stream(mode, &mut stream).await;
                        relay.outbound.step(OutboundEvent::Fetched(packet.map(
                            |(destination, payload)| (destination.map(Vec::<u8>::from), payload),
                        )))
                    }
                    OutboundAction::SendTo(to, payload) => {
                        sent.push((to, payload));
                        relay.outbound.step(OutboundEvent::Sent(Ok(())))
                    }
                    OutboundAction::Send(_) => panic!("no address"),
                    OutboundAction::Stop => break,
                };
            }
            assert_eq!(
                sent,
                [
                    ("127.0.0.1:8080".to_string(), b"one".to_vec()),
                    ("example.com:443".to_string(), b"".to_vec()),
                    ("[::1]:53".to_string(), b"three".to_vec()),
                    ("10.0.0.1:1".to_string(), b"four".to_vec()),
                ]
            );
            match relay.conclude(false) {
                Err(UotError::Io(error)) => {
                    assert_eq!(error.kind(), io::ErrorKind::UnexpectedEof)
                }
                other => panic!("unexpected {other:?}"),
            }
        }
    });
}

#[test]
fn dispatch_needs_a_destination_only_for_datagrams() {
    let sending = dispatch::<()>(UotMode::Datagram, Some(Ok("a:1".to_string())), vec![1]);
    match sending {
        Ok(OutboundAction::SendTo(to, payload)) => {
            assert_eq!((to.as_str(), payload), ("a:1", vec![1]));
        }
        other => panic!("unexpected {other:?}"),
    }
    assert!(matches!(
        dispatch::<()>(UotMode::Datagram, None, vec![1]),
        Err(UotError::Fault(Fault::MissingDestination))
    ));
    assert!(matches!(
        dispatch::<()>(UotMode::Connected, None, vec![1]),
        Ok(OutboundAction::Send(_))
    ));
}

#[test]
fn received_packets_are_framed() {
    let mut inbound: Inbound<&str> = Inbound::new(UotMode::Datagram);
    assert!(matches!(inbound.start(), InboundAction::ReceiveFrom));
    let source = vec![1, 127, 0, 0, 1, 0x1f, 0x90];
    match inbound.step(InboundEvent::ReceivedFrom(Ok((source, b"hello")))) {
        InboundAction::Write(frame) => assert_eq!(
            frame,
            [1, 127, 0, 0, 1, 0x1f, 0x90, 0, 5, b'h', b'e', b'l', b'l', b'o']
        ),
        other => panic!("unexpected {other:?}"),
    }
    assert!(matches!(
        inbound.step(InboundEvent::Wrote(Ok(()))),
        InboundAction::ReceiveFrom
    ));
    let source = socket_form("[2001:db8::1]:53");
    match inbound.step(InboundEvent::ReceivedFrom(Ok((source.clone(), b"")))) {
        InboundAction::Write(frame) => assert_eq!(frame, [&source[..], &[0, 0]].concat()),
        other => panic!("unexpected {other:?}"),
    }

    let mut inbound: Inbound<&str> = Inbound::new(UotMode::Connected);
    assert!(matches!(inbound.start(), InboundAction::Receive));
    let longest = vec![7u8; UDP_BUFFER];
    match inbound.step(InboundEvent::Received(Ok(&longest))) {
        InboundAction::Write(frame) => {
            assert_eq!(frame.len(), UDP_BUFFER + 2);
            assert_eq!(&frame[..3], &[0xff, 0xff, 7]);
        }
        other => panic!("unexpected {other:?}"),
    }
    inbound.step(InboundEvent::Wrote(Ok(())));
    let too_long = vec![7u8; UDP_BUFFER + 1];
    assert!(matches!(
        inbound.step(InboundEvent::Received(Ok(&too_long))),
        InboundAction::Stop
    ));
    let relay = UotRelay { outbound: Outbound::new(UotMode::Connected), inbound };
    assert!(matches!(relay.conclude(false), Err(UotError::Frame(_))));

    let relay: UotRelay<&str> = UotRelay::new(UotMode::Datagram);
    assert!(matches!(
        relay.conclude(true),
        Err(UotError::Fault(Fault::StreamAborted))
    ));
}
