//! Relaying UDP packets over a stream, in which each packet is framed.
//!
//! Outbound, packets framed in the stream are sent from a UDP socket; inbound, packets received
//! on the socket are framed and written to the stream. The caller performs the reads and writes.
//! An address is held as its SOCKS form: a type byte, the host, and the port in network order.

use crate::error::Fault;
use anytls::uot::uot_encode_packet;
use socks5_impl::protocol::Address;
use vstd::prelude::*;

verus! {

/// How many bytes of a received packet are kept: no packet is longer.
pub const UDP_BUFFER: usize = 65535;

/// Where the packets of a stream go.
#[derive(Clone, Copy, Debug, PartialEq, Eq, Structural)]
pub enum UotMode {
    /// Each packet carries its own address.
    Datagram,
    /// All packets go to, and come from, one peer, and carry no address.
    Connected,
}

/// Why a UDP relay has ended.
#[derive(Debug)]
pub enum UotError<E> {
    /// An operation on the socket or the stream has failed.
    Io(E),
    /// The relay itself gives up.
    Fault(Fault),
    /// A destination is no address.
    Address(std::io::Error),
    /// A received packet cannot be framed.
    Frame(std::io::Error),
}

/// The error of the functions below.
#[verifier::external_type_specification]
#[verifier::external_body]
pub struct ExIoError(std::io::Error);

/// Whether the bytes are the SOCKS form of an IPv4 or IPv6 address and a port.
pub open spec fn is_socket_address(form: Seq<u8>) -> bool {
    ||| is_ipv4_address(form)
    ||| is_ipv6_address(form)
}

/// Whether the bytes are the SOCKS form of a host name and a port.
pub open spec fn is_domain_address(form: Seq<u8>) -> bool {
    &&& form.len() >= 4
    &&& form[0] == 3
    &&& form.len() == form[1] + 4
    &&& vstd::utf8::valid_utf8(form.subrange(2, form.len() - 2))
}

/// Whether the bytes begin with the SOCKS form of an address.
pub open spec fn begins_with_address(bytes: Seq<u8>) -> bool {
    ||| bytes.len() >= 7 && is_socket_address(bytes.take(7))
    ||| bytes.len() >= 19 && is_socket_address(bytes.take(19))
    ||| bytes.len() >= 2 && bytes.len() >= bytes[1] + 4 && is_domain_address(
        bytes.take(bytes[1] + 4),
    )
}

/// The form of an address begins with one: itself.
proof fn lemma_address_begins(form: Seq<u8>)
    ensures
        is_socket_address(form) || is_domain_address(form) ==> begins_with_address(form),
{
    assert(form.take(form.len() as int) =~= form);
}

/// A number in decimal digits.
pub open spec fn decimal(number: nat) -> Seq<char>
    decreases number,
{
    let digit = (48 + number % 10) as char;
    if number < 10 {
        seq![digit]
    } else {
        decimal(number / 10).push(digit)
    }
}

/// Whether the bytes are the SOCKS form of an IPv4 address and a port.
pub open spec fn is_ipv4_address(form: Seq<u8>) -> bool {
    form.len() == 7 && form[0] == 1
}

/// Whether the bytes are the SOCKS form of an IPv6 address and a port.
pub open spec fn is_ipv6_address(form: Seq<u8>) -> bool {
    form.len() == 19 && form[0] == 4
}

/// The port of an address in decimal digits: its last two bytes, in network order.
pub open spec fn port_text(form: Seq<u8>) -> Seq<char> {
    decimal(form[form.len() - 2] as nat * 256 + form[form.len() - 1] as nat)
}

/// A host name and port as `name:port`.
pub open spec fn domain_text(form: Seq<u8>) -> Seq<char> {
    vstd::utf8::decode_utf8(form.subrange(2, form.len() - 2)) + seq![':'] + port_text(form)
}

/// An IPv4 address and port as `a.b.c.d:port`.
pub open spec fn ipv4_text(form: Seq<u8>) -> Seq<char> {
    decimal(form[1] as nat) + seq!['.'] + decimal(form[2] as nat) + seq!['.'] + decimal(
        form[3] as nat,
    ) + seq!['.'] + decimal(form[4] as nat) + seq![':'] + port_text(form)
}

/// Whether a text is one of an IPv6 address and this port: `[host]:port`.
pub open spec fn is_ipv6_text(text: Seq<char>, form: Seq<u8>) -> bool {
    let tail = seq![']', ':'] + port_text(form);
    &&& text.len() > tail.len()
    &&& text[0] == '['
    &&& text.skip(text.len() - tail.len()) == tail
}

/// A length in two bytes, in network order.
pub open spec fn network_u16(number: nat) -> Seq<u8> {
    seq![(number / 256) as u8, (number % 256) as u8]
}

/// The frame of a packet: the address that it came from, where it carries one, its length, and
/// its bytes.
pub open spec fn packet_frame(source: Option<Seq<u8>>, payload: Seq<u8>) -> Seq<u8> {
    let address = match source {
        Some(form) => form,
        None => Seq::empty(),
    };
    address + network_u16(payload.len()) + payload
}

/// A packet in a stream.
pub struct Packet {
    /// The SOCKS form of the address that it carries, where it carries one.
    pub address: Option<Seq<u8>>,
    pub payload: Seq<u8>,
}

/// Whether a packet can stand in a stream of this mode.
pub open spec fn is_packet(mode: UotMode, packet: Packet) -> bool {
    &&& packet.payload.len() <= 65535
    &&& match packet.address {
        Some(form) => mode == UotMode::Datagram && (is_socket_address(form) || is_domain_address(
            form,
        )),
        None => mode == UotMode::Connected,
    }
}

/// The bytes of a stream that carries these packets: one frame after the other.
pub open spec fn framed(packets: Seq<Packet>) -> Seq<u8>
    decreases packets.len(),
{
    if packets.len() == 0 {
        Seq::empty()
    } else {
        packet_frame(packets[0].address, packets[0].payload) + framed(packets.skip(1))
    }
}

/// Whether a packet of `len` bytes, with or without an address, can be framed.
pub open spec fn can_frame(mode: UotMode, has_address: bool, len: nat) -> bool {
    len <= 65535 && (mode == UotMode::Datagram <==> has_address)
}

/// The SOCKS form of an address, where there is one.
pub open spec fn form_of(address: Option<Vec<u8>>) -> Option<Seq<u8>> {
    match address {
        Some(form) => Some(form@),
        None => None,
    }
}

/// The address as text, where the bytes begin with the SOCKS form of one.
pub uninterp spec fn address_text(form: Seq<u8>) -> Option<Seq<char>>;

/// `Address::try_from` and the `Display` of `socks5_impl::protocol::Address`: reads the SOCKS
/// form of an address and writes the address as text, for a socket to resolve. It fails unless
/// the bytes begin with the form of a socket address or host name. A host name is written as
/// `name:port`, an IPv4 address as `a.b.c.d:port`, and an IPv6 address as `[host]:port`. How the
/// host is written there is only given a name.
#[verifier::external_body]
pub(crate) fn write_address(form: &Vec<u8>) -> (text: Result<String, std::io::Error>)
    ensures
        text is Ok <==> address_text(form@) is Some,
        text matches Ok(written) ==> address_text(form@) == Some(written@),
        text is Ok <==> begins_with_address(form@),
        text matches Ok(written) ==> is_domain_address(form@) ==> written@ == domain_text(form@),
        text matches Ok(written) ==> is_ipv4_address(form@) ==> written@ == ipv4_text(form@),
        text matches Ok(written) ==> is_ipv6_address(form@) ==> is_ipv6_text(written@, form@),
{
    let address = Address::try_from(form.as_slice())?;
    Ok(address.to_string())
}

/// `anytls::uot::uot_encode_packet`: frames a packet. It fails on more than 65535 bytes, on a
/// datagram packet without an address, and on a connected one with an address.
#[verifier::external_body]
pub(crate) fn encode_packet(mode: UotMode, source: Option<Vec<u8>>, payload: &[u8]) -> (frame:
    Result<Vec<u8>, std::io::Error>)
    requires
        source matches Some(form) ==> is_socket_address(form@),
    ensures
        frame is Ok <==> can_frame(mode, source is Some, payload@.len()),
        frame matches Ok(bytes) ==> bytes@ == packet_frame(form_of(source), payload@),
{
    let mode = match mode {
        UotMode::Datagram => anytls::uot::UotMode::Datagram,
        UotMode::Connected => anytls::uot::UotMode::Connected,
    };
    let source = match source {
        Some(form) => Some(Address::try_from(form)?),
        None => None,
    };
    uot_encode_packet(mode, source.as_ref(), payload)
}

/// What the outbound direction waits for.
#[derive(Debug)]
pub enum OutboundPhase<E> {
    /// To be started.
    Idle,
    /// The next packet of the stream.
    Fetching,
    /// The result of sending a packet.
    Sending,
    /// Nothing: the direction has failed.
    Failed(UotError<E>),
}

/// What has happened in the outbound direction.
#[derive(Debug)]
pub enum OutboundEvent<E> {
    /// A packet was taken out of the stream: the SOCKS form of its destination, where it carries
    /// one, and its bytes.
    Fetched(Result<(Option<Vec<u8>>, Vec<u8>), E>),
    /// The packet was sent, or not.
    Sent(Result<(), E>),
}

/// What to do next in the outbound direction.
#[derive(Debug)]
pub enum OutboundAction {
    /// Take the next packet out of the stream.
    Fetch,
    /// Send these bytes to this address.
    SendTo(String, Vec<u8>),
    /// Send these bytes to the peer of the socket.
    Send(Vec<u8>),
    /// Nothing more.
    Stop,
}

/// What a packet amounts to. Its destination is given as text, where it has one: a packet
/// without a usable destination cannot be sent in datagram mode, and in connected mode the
/// destination does not matter.
pub open spec fn dispatches<E>(
    mode: UotMode,
    destination: Option<Result<Seq<char>, std::io::Error>>,
    payload: Vec<u8>,
    sending: Result<OutboundAction, UotError<E>>,
) -> bool {
    match (mode, destination) {
        (UotMode::Connected, _) => sending == Ok::<OutboundAction, UotError<E>>(
            OutboundAction::Send(payload),
        ),
        (UotMode::Datagram, None) => sending == Err::<OutboundAction, UotError<E>>(
            UotError::Fault(Fault::MissingDestination),
        ),
        (UotMode::Datagram, Some(Err(error))) => sending == Err::<OutboundAction, UotError<E>>(
            UotError::Address(error),
        ),
        (UotMode::Datagram, Some(Ok(text))) => {
            sending matches Ok(OutboundAction::SendTo(to, bytes)) && to@ == text && bytes
                == payload
        },
    }
}

/// The text that a destination was written as, or the error.
pub open spec fn text_of(destination: Option<Result<String, std::io::Error>>) -> Option<
    Result<Seq<char>, std::io::Error>,
> {
    match destination {
        Some(Ok(text)) => Some(Ok(text@)),
        Some(Err(error)) => Some(Err(error)),
        None => None,
    }
}

/// Decides how a packet is sent, given its destination as text.
pub fn dispatch<E>(
    mode: UotMode,
    destination: Option<Result<String, std::io::Error>>,
    payload: Vec<u8>,
) -> (sending: Result<OutboundAction, UotError<E>>)
    ensures
        dispatches(mode, text_of(destination), payload, sending),
{
    match mode {
        UotMode::Connected => Ok(OutboundAction::Send(payload)),
        UotMode::Datagram => match destination {
            None => Err(UotError::Fault(Fault::MissingDestination)),
            Some(Ok(text)) => Ok(OutboundAction::SendTo(text, payload)),
            Some(Err(error)) => Err(UotError::Address(error)),
        },
    }
}

/// The text that the destination of a packet is written as, where it has one and that is an
/// address.
pub open spec fn destination_text(destination: Option<Vec<u8>>) -> Option<Option<Seq<char>>> {
    match destination {
        Some(form) => Some(address_text(form@)),
        None => None,
    }
}

/// What a direction makes of a packet taken out of the stream, whose destination is written as
/// this text. Where it is no address, the error is that of reading it, of which no more is known.
pub open spec fn sends_packet<E>(
    mode: UotMode,
    destination: Option<Option<Seq<char>>>,
    payload: Vec<u8>,
    phase: OutboundPhase<E>,
    action: OutboundAction,
) -> bool {
    match mode {
        UotMode::Connected => {
            &&& phase is Sending
            &&& action == OutboundAction::Send(payload)
        },
        UotMode::Datagram => match destination {
            None => {
                &&& phase == OutboundPhase::<E>::Failed(
                    UotError::Fault(Fault::MissingDestination),
                )
                &&& action is Stop
            },
            Some(Some(text)) => {
                &&& phase is Sending
                &&& action matches OutboundAction::SendTo(to, bytes) && to@ == text && bytes
                    == payload
            },
            Some(None) => {
                &&& phase matches OutboundPhase::Failed(UotError::Address(_))
                &&& action is Stop
            },
        },
    }
}

/// What a fetched packet has led to: its bytes as fetched, and the phase and action that followed.
pub struct Dispatch<E> {
    pub payload: Vec<u8>,
    pub phase: OutboundPhase<E>,
    pub action: OutboundAction,
}

/// Whether this is what a packet leads to, where `write` is how addresses are written as text.
pub open spec fn follows<E>(
    mode: UotMode,
    write: spec_fn(Seq<u8>) -> Option<Seq<char>>,
    packet: Packet,
    dispatch: Dispatch<E>,
) -> bool {
    let destination = match packet.address {
        Some(form) => Some(write(form)),
        None => None,
    };
    &&& dispatch.payload@ == packet.payload
    &&& sends_packet(mode, destination, dispatch.payload, dispatch.phase, dispatch.action)
}

/// Whether two actions are the same: the same bytes to the same place.
pub open spec fn same_action(a: OutboundAction, b: OutboundAction) -> bool {
    match (a, b) {
        (OutboundAction::SendTo(to, bytes), OutboundAction::SendTo(also_to, same)) => to@
            == also_to@ && bytes@ == same@,
        (OutboundAction::Send(bytes), OutboundAction::Send(same)) => bytes@ == same@,
        (OutboundAction::Fetch, OutboundAction::Fetch) => true,
        (OutboundAction::Stop, OutboundAction::Stop) => true,
        (_, _) => false,
    }
}

/// The direction from the stream to the UDP socket.
pub struct Outbound<E> {
    pub mode: UotMode,
    pub phase: OutboundPhase<E>,
}

/// Whether the event is one that the direction waits for.
pub open spec fn outbound_expects<E>(phase: OutboundPhase<E>, event: OutboundEvent<E>) -> bool {
    match phase {
        OutboundPhase::Fetching => event is Fetched,
        OutboundPhase::Sending => event is Sent,
        _ => false,
    }
}

impl<E> Outbound<E> {
    /// A direction that has sent nothing yet.
    pub fn new(mode: UotMode) -> (outbound: Outbound<E>)
        ensures
            outbound == (Outbound::<E> { mode, phase: OutboundPhase::Idle }),
    {
        Outbound { mode, phase: OutboundPhase::Idle }
    }

    /// Begins with the first packet.
    pub fn start(&mut self) -> (action: OutboundAction)
        requires
            old(self).phase is Idle,
        ensures
            *final(self) == (Outbound { phase: OutboundPhase::Fetching, ..*old(self) }),
            action is Fetch,
    {
        self.phase = OutboundPhase::Fetching;
        OutboundAction::Fetch
    }

    /// Goes on after an event.
    pub fn step(&mut self, event: OutboundEvent<E>) -> (action: OutboundAction)
        requires
            outbound_expects(old(self).phase, event),
        ensures
            final(self).mode == old(self).mode,
            match event {
                OutboundEvent::Fetched(Ok((destination, payload))) => sends_packet(
                    old(self).mode,
                    destination_text(destination),
                    payload,
                    final(self).phase,
                    action,
                ),
                OutboundEvent::Sent(Ok(_)) => final(self).phase is Fetching && action is Fetch,
                OutboundEvent::Fetched(Err(error)) | OutboundEvent::Sent(Err(error)) => {
                    &&& final(self).phase == OutboundPhase::Failed(UotError::Io(error))
                    &&& action is Stop
                },
            },
            event matches OutboundEvent::Fetched(Ok((Some(form), _))) ==> {
                &&& old(self).mode == UotMode::Datagram ==> (final(self).phase is Sending
                    <==> begins_with_address(form@))
                &&& old(self).mode == UotMode::Datagram && is_domain_address(form@) ==> (action
                    matches OutboundAction::SendTo(to, _) && to@ == domain_text(form@))
                &&& old(self).mode == UotMode::Datagram && is_ipv4_address(form@) ==> (action
                    matches OutboundAction::SendTo(to, _) && to@ == ipv4_text(form@))
                &&& old(self).mode == UotMode::Datagram && is_ipv6_address(form@) ==> (action
                    matches OutboundAction::SendTo(to, _) && is_ipv6_text(to@, form@))
            },
            event matches OutboundEvent::Fetched(Ok((Some(form), payload))) ==> {
                old(self).mode == UotMode::Datagram && begins_with_address(form@) ==> (action
                    matches OutboundAction::SendTo(to, bytes) && address_text(form@) == Some(to@)
                    && bytes == payload)
            },
    {
        match event {
            OutboundEvent::Fetched(Ok((destination, payload))) => {
                let written = match (self.mode, destination) {
                    (UotMode::Datagram, Some(form)) => {
                        proof {
                            lemma_address_begins(form@);
                        }
                        Some(write_address(&form))
                    },
                    (_, _) => None,
                };
                match dispatch(self.mode, written, payload) {
                    Ok(action) => {
                        self.phase = OutboundPhase::Sending;
                        action
                    },
                    Err(error) => {
                        self.phase = OutboundPhase::Failed(error);
                        OutboundAction::Stop
                    },
                }
            },
            OutboundEvent::Sent(Ok(_)) => {
                self.phase = OutboundPhase::Fetching;
                OutboundAction::Fetch
            },
            OutboundEvent::Fetched(Err(error)) => {
                self.phase = OutboundPhase::Failed(UotError::Io(error));
                OutboundAction::Stop
            },
            OutboundEvent::Sent(Err(error)) => {
                self.phase = OutboundPhase::Failed(UotError::Io(error));
                OutboundAction::Stop
            },
        }
    }
}

/// What the inbound direction waits for.
#[derive(Debug)]
pub enum InboundPhase<E> {
    /// To be started.
    Idle,
    /// The next packet of the socket.
    Receiving,
    /// The result of writing a frame.
    Writing,
    /// Nothing: the direction has failed.
    Failed(UotError<E>),
}

/// What has happened in the inbound direction.
#[derive(Debug)]
pub enum InboundEvent<'a, E> {
    /// The peer of the socket sent these bytes.
    Received(Result<&'a [u8], E>),
    /// Somebody, whose address is given in its SOCKS form, sent these bytes.
    ReceivedFrom(Result<(Vec<u8>, &'a [u8]), E>),
    /// The frame was written, or not.
    Wrote(Result<(), E>),
}

/// What to do next in the inbound direction.
#[derive(Debug)]
pub enum InboundAction {
    /// Receive a packet from the peer of the socket.
    Receive,
    /// Receive a packet from anybody, with the sender's address.
    ReceiveFrom,
    /// Write this frame to the stream, all of it.
    Write(Vec<u8>),
    /// Nothing more.
    Stop,
}

/// The direction from the UDP socket to the stream.
pub struct Inbound<E> {
    pub mode: UotMode,
    pub phase: InboundPhase<E>,
}

/// Whether the event is one that the direction waits for.
pub open spec fn inbound_expects<E>(inbound: Inbound<E>, event: InboundEvent<'_, E>) -> bool {
    match inbound.phase {
        InboundPhase::Receiving => match inbound.mode {
            UotMode::Connected => event is Received,
            UotMode::Datagram => match event {
                InboundEvent::ReceivedFrom(Ok((source, _))) => is_socket_address(source@),
                InboundEvent::ReceivedFrom(Err(_)) => true,
                _ => false,
            },
        },
        InboundPhase::Writing => event is Wrote,
        _ => false,
    }
}

/// How a packet is received in this mode.
pub open spec fn receive_in(mode: UotMode) -> InboundAction {
    match mode {
        UotMode::Datagram => InboundAction::ReceiveFrom,
        UotMode::Connected => InboundAction::Receive,
    }
}

/// What a direction makes of a received packet: its frame, unless it is too long.
pub open spec fn frames_packet<E>(
    source: Option<Seq<u8>>,
    payload: Seq<u8>,
    phase: InboundPhase<E>,
    action: InboundAction,
) -> bool {
    if payload.len() <= 65535 {
        &&& phase is Writing
        &&& action matches InboundAction::Write(frame) && frame@ == packet_frame(source, payload)
    } else {
        &&& phase matches InboundPhase::Failed(UotError::Frame(_))
        &&& action is Stop
    }
}

impl<E> Inbound<E> {
    /// A direction that has received nothing yet.
    pub fn new(mode: UotMode) -> (inbound: Inbound<E>)
        ensures
            inbound == (Inbound::<E> { mode, phase: InboundPhase::Idle }),
    {
        Inbound { mode, phase: InboundPhase::Idle }
    }

    /// Waits for a packet.
    fn receive(&mut self) -> (action: InboundAction)
        ensures
            *final(self) == (Inbound { phase: InboundPhase::Receiving, ..*old(self) }),
            action == receive_in(old(self).mode),
    {
        self.phase = InboundPhase::Receiving;
        match self.mode {
            UotMode::Datagram => InboundAction::ReceiveFrom,
            UotMode::Connected => InboundAction::Receive,
        }
    }

    /// Fails.
    fn fail(&mut self, error: UotError<E>) -> (action: InboundAction)
        ensures
            *final(self) == (Inbound { phase: InboundPhase::Failed(error), ..*old(self) }),
            action is Stop,
    {
        self.phase = InboundPhase::Failed(error);
        InboundAction::Stop
    }

    /// Frames a packet.
    fn frame(&mut self, source: Option<Vec<u8>>, payload: &[u8]) -> (action: InboundAction)
        requires
            source matches Some(form) ==> is_socket_address(form@),
            old(self).mode == UotMode::Datagram <==> source is Some,
        ensures
            final(self).mode == old(self).mode,
            frames_packet(form_of(source), payload@, final(self).phase, action),
    {
        match encode_packet(self.mode, source, payload) {
            Ok(frame) => {
                self.phase = InboundPhase::Writing;
                InboundAction::Write(frame)
            },
            Err(error) => self.fail(UotError::Frame(error)),
        }
    }

    /// Begins with the first packet.
    pub fn start(&mut self) -> (action: InboundAction)
        requires
            old(self).phase is Idle,
        ensures
            *final(self) == (Inbound { phase: InboundPhase::Receiving, ..*old(self) }),
            action == receive_in(old(self).mode),
    {
        self.receive()
    }

    /// Goes on after an event.
    pub fn step(&mut self, event: InboundEvent<'_, E>) -> (action: InboundAction)
        requires
            inbound_expects(*old(self), event),
        ensures
            final(self).mode == old(self).mode,
            match event {
                InboundEvent::Received(Ok(payload)) => frames_packet(
                    None,
                    payload@,
                    final(self).phase,
                    action,
                ),
                InboundEvent::ReceivedFrom(Ok((source, payload))) => frames_packet(
                    Some(source@),
                    payload@,
                    final(self).phase,
                    action,
                ),
                InboundEvent::Wrote(Ok(_)) => final(self).phase is Receiving && action
                    == receive_in(old(self).mode),
                InboundEvent::Received(Err(error)) | InboundEvent::ReceivedFrom(Err(error))
                    | InboundEvent::Wrote(Err(error)) => {
                    &&& final(self).phase == InboundPhase::Failed(UotError::Io(error))
                    &&& action is Stop
                },
            },
    {
        match event {
            InboundEvent::Received(Ok(payload)) => self.frame(None, payload),
            InboundEvent::ReceivedFrom(Ok((source, payload))) => self.frame(Some(source), payload),
            InboundEvent::Wrote(Ok(_)) => self.receive(),
            InboundEvent::Received(Err(error)) => self.fail(UotError::Io(error)),
            InboundEvent::ReceivedFrom(Err(error)) => self.fail(UotError::Io(error)),
            InboundEvent::Wrote(Err(error)) => self.fail(UotError::Io(error)),
        }
    }
}

/// A relay between a UDP socket and a stream.
pub struct UotRelay<E> {
    /// From the stream to the socket.
    pub outbound: Outbound<E>,
    /// From the socket to the stream.
    pub inbound: Inbound<E>,
}

/// Whether a relay is over: its carrier is gone, or a direction has failed.
pub open spec fn uot_is_over<E>(aborted: bool, relay: UotRelay<E>) -> bool {
    aborted || relay.outbound.phase is Failed || relay.inbound.phase is Failed
}

/// What a relay that is over ends with.
pub open spec fn uot_error<E>(aborted: bool, relay: UotRelay<E>) -> UotError<E> {
    if aborted {
        UotError::Fault(Fault::StreamAborted)
    } else {
        match (relay.outbound.phase, relay.inbound.phase) {
            (OutboundPhase::Failed(error), _) => error,
            (_, InboundPhase::Failed(error)) => error,
            (_, _) => arbitrary(),
        }
    }
}

impl<E> UotRelay<E> {
    /// A relay in this mode that has relayed nothing yet.
    pub fn new(mode: UotMode) -> (relay: UotRelay<E>)
        ensures
            relay.outbound == (Outbound::<E> { mode, phase: OutboundPhase::Idle }),
            relay.inbound == (Inbound::<E> { mode, phase: InboundPhase::Idle }),
    {
        UotRelay { outbound: Outbound::new(mode), inbound: Inbound::new(mode) }
    }

    /// Ends the relay, where it is over. It never ends well: both directions go on until
    /// something fails.
    pub fn conclude(self, aborted: bool) -> (result: Result<(), UotError<E>>)
        requires
            uot_is_over(aborted, self),
        ensures
            result == Err::<(), UotError<E>>(uot_error(aborted, self)),
    {
        if aborted {
            return Err(UotError::Fault(Fault::StreamAborted));
        }
        match (self.outbound.phase, self.inbound.phase) {
            (OutboundPhase::Failed(error), _) => Err(error),
            (_, InboundPhase::Failed(error)) => Err(error),
            (_, _) => vstd::pervasive::unreached(),
        }
    }
}

/// Every packet that fits the receive buffer is framed and written, with the address that it
/// came from where it carries one; the direction never fails over it.
pub proof fn law_received_packets_are_framed<E>(
    source: Option<Seq<u8>>,
    payload: Seq<u8>,
    phase: InboundPhase<E>,
    action: InboundAction,
)
    requires
        payload.len() <= UDP_BUFFER,
        frames_packet(source, payload, phase, action),
    ensures
        phase is Writing,
        action matches InboundAction::Write(frame) && frame@ == packet_frame(source, payload),
{
}

/// A frame tells where its packet ends: after the address stands the length, and then as many
/// bytes, which are the packet, whatever follows the frame in the stream.
pub proof fn law_frame_delimits_its_packet(
    source: Option<Seq<u8>>,
    payload: Seq<u8>,
    rest: Seq<u8>,
)
    requires
        payload.len() <= 65535,
    ensures
        ({
            let stream = packet_frame(source, payload) + rest;
            let at = match source {
                Some(form) => form.len() as int,
                None => 0int,
            };
            let len = stream[at] as int * 256 + stream[at + 1] as int;
            &&& source matches Some(form) ==> stream.take(at) == form
            &&& len == payload.len()
            &&& stream.subrange(at + 2, at + 2 + len) == payload
            &&& stream.skip(at + 2 + len) == rest
        }),
{
    let stream = packet_frame(source, payload) + rest;
    let at = match source {
        Some(form) => form.len() as int,
        None => 0int,
    };
    let len = payload.len() as int;
    if let Some(form) = source {
        assert(stream.take(at) =~= form);
    }
    assert(stream[at] == (payload.len() / 256) as u8);
    assert(stream[at + 1] == (payload.len() % 256) as u8);
    assert(stream.subrange(at + 2, at + 2 + len) =~= payload);
    assert(stream.skip(at + 2 + len) =~= rest);
}

/// In connected mode every packet of the stream is sent as it came, and in datagram mode every
/// packet whose destination is an address is sent there as it came.
pub proof fn law_fetched_packets_are_sent<E>(
    mode: UotMode,
    destination: Option<Option<Seq<char>>>,
    payload: Vec<u8>,
    phase: OutboundPhase<E>,
    action: OutboundAction,
)
    requires
        sends_packet(mode, destination, payload, phase, action),
        mode == UotMode::Datagram ==> (destination matches Some(Some(_))),
    ensures
        phase is Sending,
        match mode {
            UotMode::Connected => action == OutboundAction::Send(payload),
            UotMode::Datagram => {
                &&& action matches OutboundAction::SendTo(to, bytes)
                &&& destination == Some(Some(to@))
                &&& bytes == payload
            },
        },
{
}

/// The first packet of a stream is determined by the bytes of the stream, and so is what follows.
pub proof fn law_bytes_determine_a_packet(
    mode: UotMode,
    a: Packet,
    b: Packet,
    after_a: Seq<u8>,
    after_b: Seq<u8>,
)
    requires
        is_packet(mode, a),
        is_packet(mode, b),
        packet_frame(a.address, a.payload) + after_a == packet_frame(b.address, b.payload)
            + after_b,
    ensures
        a == b,
        after_a == after_b,
{
    let stream = packet_frame(a.address, a.payload) + after_a;
    law_frame_delimits_its_packet(a.address, a.payload, after_a);
    law_frame_delimits_its_packet(b.address, b.payload, after_b);
    if let (Some(form), Some(other)) = (a.address, b.address) {
        assert(stream[0] == form[0] && stream[0] == other[0]);
        assert(stream[1] == form[1] && stream[1] == other[1]);
        assert(form.len() == other.len());
    }
}

/// The bytes of a stream determine its packets, one after the other, wherever the bytes are cut
/// and whatever has not come yet: of two sequences of packets that begin a stream of the same
/// bytes, the shorter is the beginning of the longer.
pub proof fn law_bytes_determine_the_packets(
    mode: UotMode,
    a: Seq<Packet>,
    b: Seq<Packet>,
    after_a: Seq<u8>,
    after_b: Seq<u8>,
)
    requires
        forall|i: int| 0 <= i < a.len() ==> #[trigger] is_packet(mode, a[i]),
        forall|i: int| 0 <= i < b.len() ==> #[trigger] is_packet(mode, b[i]),
        framed(a) + after_a == framed(b) + after_b,
        a.len() <= b.len(),
    ensures
        a.is_prefix_of(b),
    decreases a.len(),
{
    if a.len() > 0 {
        let rest_a = framed(a.skip(1)) + after_a;
        let rest_b = framed(b.skip(1)) + after_b;
        assert(is_packet(mode, a[0]) && is_packet(mode, b[0]));
        assert(framed(a) + after_a =~= packet_frame(a[0].address, a[0].payload) + rest_a);
        assert(framed(b) + after_b =~= packet_frame(b[0].address, b[0].payload) + rest_b);
        law_bytes_determine_a_packet(mode, a[0], b[0], rest_a, rest_b);
        assert forall|i: int| 0 <= i < a.skip(1).len() implies #[trigger] is_packet(
            mode,
            a.skip(1)[i],
        ) by {
            assert(is_packet(mode, a[i + 1]));
        }
        assert forall|i: int| 0 <= i < b.skip(1).len() implies #[trigger] is_packet(
            mode,
            b.skip(1)[i],
        ) by {
            assert(is_packet(mode, b[i + 1]));
        }
        law_bytes_determine_the_packets(mode, a.skip(1), b.skip(1), after_a, after_b);
        assert forall|i: int| 0 <= i < a.len() implies a[i] == b[i] by {
            if i > 0 {
                assert(a.skip(1)[i - 1] == b.skip(1)[i - 1]);
            }
        }
        assert(a =~= b.take(a.len() as int));
    } else {
        assert(a =~= b.take(0));
    }
}

/// What is sent depends only on the packet that was fetched: the same packet gives the same
/// datagram, whatever else the relay has received or sent meanwhile.
pub proof fn law_same_packet_same_datagram<E>(
    mode: UotMode,
    destination: Option<Option<Seq<char>>>,
    payload: Vec<u8>,
    same_payload: Vec<u8>,
    phase: OutboundPhase<E>,
    other_phase: OutboundPhase<E>,
    action: OutboundAction,
    other_action: OutboundAction,
)
    requires
        payload@ == same_payload@,
        sends_packet(mode, destination, payload, phase, action),
        sends_packet(mode, destination, same_payload, other_phase, other_action),
    ensures
        same_action(action, other_action),
        phase is Sending <==> other_phase is Sending,
{
}

/// The datagrams sent depend only on the bytes of the stream, not on where they were cut nor on
/// what came the other way in between: two relays that have taken packets out of streams of the
/// same bytes send the same datagrams in the same order, as far as both have come.
pub proof fn law_bytes_determine_the_datagrams<E>(
    mode: UotMode,
    write: spec_fn(Seq<u8>) -> Option<Seq<char>>,
    a: Seq<Packet>,
    b: Seq<Packet>,
    after_a: Seq<u8>,
    after_b: Seq<u8>,
    sent_a: Seq<Dispatch<E>>,
    sent_b: Seq<Dispatch<E>>,
)
    requires
        forall|i: int| 0 <= i < a.len() ==> #[trigger] is_packet(mode, a[i]),
        forall|i: int| 0 <= i < b.len() ==> #[trigger] is_packet(mode, b[i]),
        framed(a) + after_a == framed(b) + after_b,
        a.len() <= b.len(),
        sent_a.len() == a.len(),
        sent_b.len() == b.len(),
        forall|i: int| 0 <= i < a.len() ==> follows(mode, write, a[i], #[trigger] sent_a[i]),
        forall|i: int| 0 <= i < b.len() ==> follows(mode, write, b[i], #[trigger] sent_b[i]),
    ensures
        forall|i: int|
            0 <= i < a.len() ==> same_action(
                (#[trigger] sent_a[i]).action,
                (#[trigger] sent_b[i]).action,
            ),
{
    law_bytes_determine_the_packets(mode, a, b, after_a, after_b);
    assert forall|i: int| 0 <= i < a.len() implies same_action(
        (#[trigger] sent_a[i]).action,
        (#[trigger] sent_b[i]).action,
    ) by {
        assert(a[i] == b[i]);
        let destination = match a[i].address {
            Some(form) => Some(write(form)),
            None => None,
        };
        law_same_packet_same_datagram(
            mode,
            destination,
            sent_a[i].payload,
            sent_b[i].payload,
            sent_a[i].phase,
            sent_b[i].phase,
            sent_a[i].action,
            sent_b[i].action,
        );
    }
}

/// A relay goes on until its carrier is gone or a direction fails. The loss of the carrier is
/// reported before a failure, and a failure as it came.
pub proof fn law_uot_reports_the_failure<E>(relay: UotRelay<E>, error: UotError<E>)
    ensures
        uot_is_over(false, relay) <==> relay.outbound.phase is Failed || relay.inbound.phase
            is Failed,
        relay.outbound.phase == OutboundPhase::Failed(error) ==> uot_error(false, relay) == error,
        !(relay.outbound.phase is Failed) && relay.inbound.phase == InboundPhase::Failed(error)
            ==> uot_error(false, relay) == error,
        uot_is_over(true, relay),
        uot_error(true, relay) == UotError::<E>::Fault(Fault::StreamAborted),
{
}

/// Which bytes begin with an address: a type byte for IPv4 and at least six bytes more, one for
/// IPv6 and at least eighteen, or one for a name, its length, the name, and two bytes more.
pub proof fn law_address_is_told_by_its_bytes(bytes: Seq<u8>)
    ensures
        begins_with_address(bytes) <==> {
            ||| bytes.len() >= 7 && bytes[0] == 1
            ||| bytes.len() >= 19 && bytes[0] == 4
            ||| bytes.len() >= 4 && bytes[0] == 3 && bytes.len() >= bytes[1] + 4
                && vstd::utf8::valid_utf8(bytes.subrange(2, bytes[1] + 2))
        },
{
    if bytes.len() >= 2 && bytes.len() >= bytes[1] + 4 {
        let form = bytes.take(bytes[1] + 4);
        assert(form.subrange(2, form.len() - 2) =~= bytes.subrange(2, bytes[1] + 2));
    }
}

/// The number that some decimal digits stand for.
pub open spec fn value_of(digits: Seq<char>) -> int
    decreases digits.len(),
{
    if digits.len() == 0 {
        0
    } else {
        value_of(digits.drop_last()) * 10 + (digits.last() as int - 48)
    }
}

/// A number in decimal digits reads back as itself, consists of digits, and has no zero before it.
pub proof fn law_decimal_reads_back(number: nat)
    ensures
        value_of(decimal(number)) == number,
        decimal(number).len() > 0,
        forall|i: int|
            0 <= i < decimal(number).len() ==> '0' <= #[trigger] decimal(number)[i] <= '9',
        number > 0 ==> decimal(number)[0] != '0',
    decreases number,
{
    reveal_with_fuel(value_of, 2);
    let digit = (48 + number % 10) as char;
    assert(digit as int == 48 + number % 10);
    if number >= 10 {
        law_decimal_reads_back(number / 10);
        assert(decimal(number).drop_last() =~= decimal(number / 10));
        assert forall|i: int| 0 <= i < decimal(number).len() implies '0' <= #[trigger] decimal(
            number,
        )[i] <= '9' by {
            if i < decimal(number / 10).len() {
                assert(decimal(number)[i] == decimal(number / 10)[i]);
            }
        }
    } else {
        assert(decimal(number).drop_last() =~= Seq::empty());
    }
}

/// The port is the number in the last two bytes of an address, the higher byte first.
pub proof fn law_port_is_in_the_last_two_bytes(form: Seq<u8>)
    requires
        form.len() >= 2,
    ensures
        value_of(port_text(form)) == form[form.len() - 2] * 256 + form[form.len() - 1],
{
    law_decimal_reads_back(form[form.len() - 2] as nat * 256 + form[form.len() - 1] as nat);
}

/// How addresses are written: the four bytes of an IPv4 address in decimal with points between
/// them, a name as it is, an IPv6 address in brackets, and after each a colon and the port, which
/// stands in its last two bytes.
pub proof fn law_addresses_are_written_with_their_port(form: Seq<u8>, text: Seq<char>)
    ensures
        is_ipv4_address(form) ==> {
            let port = form[5] as nat * 256 + form[6] as nat;
            ipv4_text(form) == decimal(form[1] as nat) + seq!['.'] + decimal(form[2] as nat)
                + seq!['.'] + decimal(form[3] as nat) + seq!['.'] + decimal(form[4] as nat)
                + seq![':'] + decimal(port)
        },
        is_domain_address(form) ==> {
            let end = form[1] + 2;
            let port = form[end] as nat * 256 + form[end + 1] as nat;
            domain_text(form) == vstd::utf8::decode_utf8(form.subrange(2, end)) + seq![':']
                + decimal(port)
        },
        is_ipv6_address(form) && is_ipv6_text(text, form) ==> {
            let port = decimal(form[17] as nat * 256 + form[18] as nat);
            &&& text.len() > port.len() + 2
            &&& text[0] == '['
            &&& text[text.len() - port.len() - 2] == ']'
            &&& text[text.len() - port.len() - 1] == ':'
            &&& text.skip(text.len() - port.len()) == port
        },
{
    if is_ipv6_address(form) && is_ipv6_text(text, form) {
        let port = decimal(form[17] as nat * 256 + form[18] as nat);
        let tail = seq![']', ':'] + port;
        let from = text.len() - tail.len();
        assert(text.skip(from) == tail);
        assert(text.skip(from)[0] == text[from]);
        assert(text.skip(from)[1] == text[from + 1]);
        assert(text.skip(from).skip(2) =~= text.skip(from + 2));
        assert(tail.skip(2) =~= port);
    }
}

/// A destination is written from the bytes that came, unchanged: the text is that of these very
/// bytes.
pub proof fn law_destination_is_that_of_the_packet(form: Vec<u8>)
    ensures
        destination_text(Some(form)) == Some(address_text(form@)),
        destination_text(None).is_none(),
{
}

/// A packet that cannot be sent stops the direction, and only such a one does: in datagram mode one
/// without a destination, which is a fault of its own, and one whose destination is no address. A
/// packet that can be sent is, with the bytes that it came with.
pub proof fn law_only_lost_packets_stop<E>(
    mode: UotMode,
    destination: Option<Option<Seq<char>>>,
    payload: Vec<u8>,
    phase: OutboundPhase<E>,
    action: OutboundAction,
)
    requires
        sends_packet(mode, destination, payload, phase, action),
    ensures
        action is Stop <==> mode == UotMode::Datagram && !(destination matches Some(Some(_))),
        action is Stop <==> phase is Failed,
        !(action is Stop) <==> phase is Sending,
        action is Stop && destination is None ==> phase == OutboundPhase::<E>::Failed(
            UotError::Fault(Fault::MissingDestination),
        ),
        action is Stop && destination is Some ==> (phase matches OutboundPhase::Failed(
            UotError::Address(_),
        )),
        mode == UotMode::Connected ==> (action matches OutboundAction::Send(bytes) && bytes@
            == payload@),
        mode == UotMode::Datagram && !(action is Stop) ==> (action matches OutboundAction::SendTo(
            to,
            bytes,
        ) && bytes@ == payload@ && destination == Some(Some(to@))),
{
}

/// How a packet is sent is decided by its mode and destination alone, and its bytes are not
/// touched: to the peer in connected mode, to the text given in datagram mode, and else not at
/// all.
pub proof fn law_dispatch_keeps_the_packet<E>(
    mode: UotMode,
    destination: Option<Result<String, std::io::Error>>,
    payload: Vec<u8>,
    sending: Result<OutboundAction, UotError<E>>,
)
    requires
        dispatches(mode, text_of(destination), payload, sending),
    ensures
        mode == UotMode::Connected ==> (sending matches Ok(OutboundAction::Send(bytes)) && bytes@
            == payload@),
        mode == UotMode::Datagram ==> (destination matches Some(Ok(text)) ==> (sending matches Ok(
            OutboundAction::SendTo(to, bytes),
        ) && to@ == text@ && bytes@ == payload@)),
        mode == UotMode::Datagram ==> (destination matches Some(Err(error)) ==> sending == Err::<
            OutboundAction,
            UotError<E>,
        >(UotError::Address(error))),
        mode == UotMode::Datagram && destination is None ==> sending == Err::<
            OutboundAction,
            UotError<E>,
        >(UotError::Fault(Fault::MissingDestination)),
{
}

/// A received packet stops its direction if, and only if, it is longer than a frame can say. Every
/// other is written in one frame: the address that it came from, if it carries one, two bytes that
/// say its length, and its bytes.
pub proof fn law_received_packet_is_framed_whole<E>(
    source: Option<Seq<u8>>,
    payload: Seq<u8>,
    phase: InboundPhase<E>,
    action: InboundAction,
)
    requires
        frames_packet(source, payload, phase, action),
    ensures
        action is Stop <==> payload.len() > 65535,
        action is Stop ==> (phase matches InboundPhase::Failed(UotError::Frame(_))),
        !(action is Stop) ==> phase is Writing,
        payload.len() <= 65535 ==> (action matches InboundAction::Write(frame) && {
            let at = match source {
                Some(form) => form.len() as int,
                None => 0int,
            };
            &&& frame@.len() == at + 2 + payload.len()
            &&& source matches Some(form) ==> frame@.take(at) == form
            &&& frame@[at] * 256 + frame@[at + 1] == payload.len()
            &&& frame@.skip(at + 2) == payload
        }),
{
    if payload.len() <= 65535 {
        if let InboundAction::Write(frame) = action {
            law_frame_delimits_its_packet(source, payload, Seq::empty());
            let at = match source {
                Some(form) => form.len() as int,
                None => 0int,
            };
            assert(packet_frame(source, payload) + Seq::empty() =~= frame@);
            assert(frame@.skip(at + 2) =~= payload);
        }
    }
}

/// Whether a packet can be framed, and the address that stands before it.
pub proof fn law_what_can_be_framed(mode: UotMode, form: Vec<u8>, len: nat)
    ensures
        can_frame(mode, true, len) <==> mode == UotMode::Datagram && len < 65536,
        can_frame(mode, false, len) <==> mode == UotMode::Connected && len < 65536,
        form_of(Some(form)) == Some(form@),
        form_of(None).is_none(),
{
}

/// Each direction waits for the result of what it has asked for. In datagram mode packets are
/// received with the address of their sender, in connected mode without.
pub proof fn law_directions_wait_for_what_they_asked<E>(
    mode: UotMode,
    outgoing: OutboundEvent<E>,
    incoming: InboundEvent<'_, E>,
    error: UotError<E>,
)
    ensures
        outbound_expects(OutboundPhase::Fetching, outgoing) <==> outgoing is Fetched,
        outbound_expects(OutboundPhase::Sending, outgoing) <==> outgoing is Sent,
        !outbound_expects(OutboundPhase::Idle, outgoing),
        !outbound_expects(OutboundPhase::Failed(error), outgoing),
        inbound_expects(Inbound { mode, phase: InboundPhase::Writing }, incoming) <==> incoming
            is Wrote,
        inbound_expects(
            Inbound { mode: UotMode::Connected, phase: InboundPhase::Receiving },
            incoming,
        ) <==> incoming is Received,
        incoming matches InboundEvent::ReceivedFrom(Ok((source, _))) && is_socket_address(source@)
            ==> inbound_expects(
            Inbound { mode: UotMode::Datagram, phase: InboundPhase::Receiving },
            incoming,
        ),
        incoming matches InboundEvent::ReceivedFrom(Err(_)) ==> inbound_expects(
            Inbound { mode: UotMode::Datagram, phase: InboundPhase::Receiving },
            incoming,
        ),
        receive_in(UotMode::Datagram) == InboundAction::ReceiveFrom,
        receive_in(UotMode::Connected) == InboundAction::Receive,
{
}

} // verus!
