//! Following the connections in a packet capture.
//!
//! Whoever reads the capture file hands over its packets one by one. A
//! [`Tracker`] takes the Ethernet frames apart, follows the TCP connections
//! in them and reports what happens as events.

use crate::event::{EventSink, EventView, MapiEvent};
use crate::network::IpAddress;
use crate::network::TcpAddr;
use crate::tcp::{Key, TcpSegment, TcpTracker, TrackerView};
use crate::text::{decimal_digits, push_bytes, push_decimal, push_str};
use etherparse::{InternetSlice, SlicedPacket, TransportSlice};
use vstd::prelude::*;
use vstd::string::StringSliceAdditionalSpecFns;

verus! {

/// The link type of Ethernet.
pub const ETHERNET: u32 = 1;

/// The two kinds of capture file.
#[derive(Debug, Clone, Copy, PartialEq, Eq, Structural)]
pub enum FileKind {
    /// The legacy format.
    Legacy,
    /// The next generation format.
    Ng,
}

/// Why a capture cannot be followed.
#[derive(Debug, Clone, PartialEq, Eq)]
pub enum PcapError {
    /// The file starts with bytes that no capture file starts with.
    UnknownSignature(u8, u8, u8, u8),
    /// A packet is as long as the capture allowed at most, so it has most
    /// probably been cut short.
    TruncatedPacket,
    /// The capture was not made on Ethernet.
    UnsupportedLinkType(u32),
    /// The packet cannot be taken apart.
    Malformed(Vec<u8>),
    FragmentedIpv4,
    FragmentedIpv6,
    /// The packet holds nothing above IP.
    TransportNotFound,
}

/// What a [`PcapError`] stands for.
pub enum PcapErrorView {
    UnknownSignature(u8, u8, u8, u8),
    TruncatedPacket,
    UnsupportedLinkType(u32),
    Malformed(Seq<u8>),
    FragmentedIpv4,
    FragmentedIpv6,
    TransportNotFound,
}

impl View for PcapError {
    type V = PcapErrorView;

    open spec fn view(&self) -> PcapErrorView {
        match *self {
            PcapError::UnknownSignature(a, b, c, d) => PcapErrorView::UnknownSignature(a, b, c, d),
            PcapError::TruncatedPacket => PcapErrorView::TruncatedPacket,
            PcapError::UnsupportedLinkType(n) => PcapErrorView::UnsupportedLinkType(n),
            PcapError::Malformed(m) => PcapErrorView::Malformed(m@),
            PcapError::FragmentedIpv4 => PcapErrorView::FragmentedIpv4,
            PcapError::FragmentedIpv6 => PcapErrorView::FragmentedIpv6,
            PcapError::TransportNotFound => PcapErrorView::TransportNotFound,
        }
    }
}

/// The ASCII hex digit, in upper case, for a value below sixteen.
pub open spec fn upper_digit(d: nat) -> u8 {
    if d < 10 {
        (48 + d) as u8
    } else {
        (55 + d) as u8
    }
}

/// The two upper case hex digits of a byte.
pub open spec fn upper_pair(byte: u8) -> Seq<u8> {
    seq![upper_digit((byte / 16) as nat), upper_digit((byte % 16) as nat)]
}

impl PcapErrorView {
    /// The text that describes the error.
    pub open spec fn message(self) -> Seq<u8> {
        match self {
            PcapErrorView::UnknownSignature(a, b, c, d) => "Unknown pcap file signature ".spec_bytes()
                + upper_pair(a) + seq![32u8] + upper_pair(b) + seq![32u8] + upper_pair(c) + seq![
                32u8,
            ] + upper_pair(d),
            PcapErrorView::TruncatedPacket => "truncated packet".spec_bytes(),
            PcapErrorView::UnsupportedLinkType(n) => "pcap file contains packet of type ".spec_bytes()
                + decimal_digits(n as nat) + ", this is not supported".spec_bytes(),
            PcapErrorView::Malformed(m) => m,
            PcapErrorView::FragmentedIpv4 => "pcap file contains fragmented ipv4 packet, not supported".spec_bytes(),
            PcapErrorView::FragmentedIpv6 => "pcap file contains fragmented ipv6 packet, not supported".spec_bytes(),
            PcapErrorView::TransportNotFound => "transport not found, expected this only with fragmented packets".spec_bytes(),
        }
    }
}

/// Append the two upper case hex digits of a byte.
fn push_upper_pair(out: &mut Vec<u8>, byte: u8)
    ensures
        final(out)@ == old(out)@ + upper_pair(byte),
{
    let hi = byte / 16;
    let lo = byte % 16;
    out.push(if hi < 10 {
        48 + hi
    } else {
        55 + hi
    });
    out.push(if lo < 10 {
        48 + lo
    } else {
        55 + lo
    });
    assert(out@ =~= old(out)@ + upper_pair(byte));
}

impl PcapError {
    /// The text that describes the error.
    pub fn message(&self) -> (out: Vec<u8>)
        ensures
            out@ == self@.message(),
    {
        let mut out: Vec<u8> = Vec::new();
        match self {
            PcapError::UnknownSignature(a, b, c, d) => {
                push_str(&mut out, "Unknown pcap file signature ");
                push_upper_pair(&mut out, *a);
                out.push(32);
                push_upper_pair(&mut out, *b);
                out.push(32);
                push_upper_pair(&mut out, *c);
                out.push(32);
                push_upper_pair(&mut out, *d);
            },
            PcapError::TruncatedPacket => push_str(&mut out, "truncated packet"),
            PcapError::UnsupportedLinkType(n) => {
                push_str(&mut out, "pcap file contains packet of type ");
                push_decimal(&mut out, *n as usize);
                push_str(&mut out, ", this is not supported");
            },
            PcapError::Malformed(m) => push_bytes(&mut out, m.as_slice()),
            PcapError::FragmentedIpv4 => push_str(
                &mut out,
                "pcap file contains fragmented ipv4 packet, not supported",
            ),
            PcapError::FragmentedIpv6 => push_str(
                &mut out,
                "pcap file contains fragmented ipv6 packet, not supported",
            ),
            PcapError::TransportNotFound => push_str(
                &mut out,
                "transport not found, expected this only with fragmented packets",
            ),
        }
        proof {
            assert(out@ =~= self@.message());
        }
        out
    }
}

/// The kind of file that starts with these four bytes, if any does.
pub open spec fn kind_of(a: u8, b: u8, c: u8, d: u8) -> Option<FileKind> {
    if (a == 0xD4 && b == 0xC3 && c == 0xB2 && d == 0xA1) || (a == 0xA1 && b == 0xB2 && c == 0xB3
        && d == 0xD4) {
        Some(FileKind::Legacy)
    } else if a == 0x0A && b == 0x0D && c == 0x0D && d == 0x0A {
        Some(FileKind::Ng)
    } else {
        None
    }
}

/// Tell the kind of a capture file by its first four bytes.
pub fn file_kind(signature: [u8; 4]) -> (r: Result<FileKind, PcapError>)
    ensures
        r matches Ok(kind) ==> kind_of(signature[0], signature[1], signature[2], signature[3])
            == Some(kind),
        r matches Err(e) ==> kind_of(signature[0], signature[1], signature[2], signature[3])
            is None && e@ == PcapErrorView::UnknownSignature(
            signature[0],
            signature[1],
            signature[2],
            signature[3],
        ),
{
    let a = signature[0];
    let b = signature[1];
    let c = signature[2];
    let d = signature[3];
    if (a == 0xD4 && b == 0xC3 && c == 0xB2 && d == 0xA1) || (a == 0xA1 && b == 0xB2 && c == 0xB3
        && d == 0xD4) {
        Ok(FileKind::Legacy)
    } else if a == 0x0A && b == 0x0D && c == 0x0D && d == 0x0A {
        Ok(FileKind::Ng)
    } else {
        Err(PcapError::UnknownSignature(a, b, c, d))
    }
}

/// What the tracker reads of the IP header of a packet.
#[derive(Debug, Clone, Copy, PartialEq, Eq, Structural)]
#[allow(inconsistent_fields)]
pub enum Net {
    /// The packet holds no IP header.
    Nothing,
    V4 { source: u32, destination: u32, fragmented: bool },
    V6 { source: u128, destination: u128, fragmented: bool },
}

/// What the tracker reads of what a packet holds above IP.
#[derive(Debug, Clone, PartialEq, Eq)]
pub enum Transport {
    /// Nothing.
    Nothing,
    /// A TCP segment.
    Tcp(TcpSegment),
    /// Something else.
    Other,
}

/// `etherparse::SlicedPacket`: a packet taken apart into its headers and
/// its payload. Nothing of its inside is seen here.
#[verifier::external_type_specification]
#[verifier::external_body]
pub struct ExSlicedPacket<'a>(SlicedPacket<'a>);

/// What a packet that has been taken apart holds of an IP header: its
/// addresses as numbers, and whether its payload is fragmented.
pub uninterp spec fn packet_net(packet: SlicedPacket) -> Net;

/// What a packet that has been taken apart holds above IP: of a TCP segment
/// its ports, its sequence number, three of its flags and its payload.
pub uninterp spec fn packet_transport(packet: SlicedPacket) -> Transport;

/// What taking an Ethernet frame apart comes to, as far as the tracker
/// reads it. `None` stands for a frame that cannot be taken apart.
pub uninterp spec fn sliced(data: Seq<u8>) -> Option<(Net, Transport)>;

/// `SlicedPacket::from_ethernet`: takes an Ethernet frame apart. What comes
/// of it depends on the bytes of the frame alone, and is what [`sliced`]
/// names; for a frame that cannot be taken apart, the text of the error is
/// returned.
#[verifier::external_body]
fn slice_ethernet<'a>(data: &'a [u8]) -> (r: Result<SlicedPacket<'a>, Vec<u8>>)
    ensures
        r is Ok <==> sliced(data@) is Some,
        r matches Ok(packet) ==> sliced(data@) == Some((packet_net(packet), packet_transport(packet))),
{
    SlicedPacket::from_ethernet(data).map_err(|e| e.to_string().into_bytes())
}

/// `SlicedPacket::net`, with `header().source()`, `header().destination()`
/// and `is_payload_fragmented()` of the IP slice that it holds: the IP
/// header of the packet as plain values.
#[verifier::external_body]
fn net_of(packet: &SlicedPacket) -> (net: Net)
    ensures
        net == packet_net(*packet),
{
    match &packet.net {
        Some(InternetSlice::Ipv4(ip)) => Net::V4 {
            source: u32::from_be_bytes(ip.header().source()),
            destination: u32::from_be_bytes(ip.header().destination()),
            fragmented: ip.is_payload_fragmented(),
        },
        Some(InternetSlice::Ipv6(ip)) => Net::V6 {
            source: u128::from_be_bytes(ip.header().source()),
            destination: u128::from_be_bytes(ip.header().destination()),
            fragmented: ip.is_payload_fragmented(),
        },
        None => Net::Nothing,
    }
}

/// `SlicedPacket::transport`, with the accessors of the TCP slice that it
/// may hold: what the packet holds above IP as plain values.
#[verifier::external_body]
fn transport_of(packet: &SlicedPacket) -> (transport: Transport)
    ensures
        transport == packet_transport(*packet),
{
    match &packet.transport {
        Some(TransportSlice::Tcp(tcp)) => Transport::Tcp(TcpSegment {
            source_port: tcp.source_port(),
            destination_port: tcp.destination_port(),
            sequence_number: tcp.sequence_number(),
            syn: tcp.syn(),
            ack: tcp.ack(),
            fin: tcp.fin(),
            payload: tcp.payload().to_vec(),
        }),
        Some(_) => Transport::Other,
        None => Transport::Nothing,
    }
}

/// What handling a packet comes to, as the contracts see it: the state of
/// the connections afterwards, the events emitted, and the error if there
/// is one.
pub struct Followed {
    pub state: TrackerView,
    pub events: Seq<EventView>,
    pub result: Result<(), PcapErrorView>,
}

/// A packet that is passed over.
pub open spec fn passed(state: TrackerView) -> Followed {
    Followed { state, events: Seq::empty(), result: Ok(()) }
}

/// A packet that cannot be handled.
pub open spec fn refused(state: TrackerView, error: PcapErrorView) -> Followed {
    Followed { state, events: Seq::empty(), result: Err(error) }
}

/// What a packet from `src` to `dest` comes to: it must not be fragmented,
/// and must not lack a transport; only TCP is looked at.
pub open spec fn handle_ip(
    state: TrackerView,
    src: IpAddress,
    dest: IpAddress,
    fragmented: bool,
    transport: Transport,
) -> Followed {
    if fragmented {
        refused(
            state,
            if src is V4 {
                PcapErrorView::FragmentedIpv4
            } else {
                PcapErrorView::FragmentedIpv6
            },
        )
    } else {
        match transport {
            Transport::Nothing => refused(state, PcapErrorView::TransportNotFound),
            Transport::Tcp(tcp) => {
                let handled = state.handle(
                    Key {
                        src: TcpAddr { ip: src, port: tcp.source_port },
                        dest: TcpAddr { ip: dest, port: tcp.destination_port },
                    },
                    tcp,
                );
                Followed { state: handled.state, events: handled.events, result: Ok(()) }
            },
            Transport::Other => passed(state),
        }
    }
}

/// What a packet that has been taken apart comes to.
pub open spec fn handle_sliced(state: TrackerView, net: Net, transport: Transport) -> Followed {
    match net {
        Net::Nothing => passed(state),
        Net::V4 { source, destination, fragmented } => handle_ip(
            state,
            IpAddress::V4(source),
            IpAddress::V4(destination),
            fragmented,
            transport,
        ),
        Net::V6 { source, destination, fragmented } => handle_ip(
            state,
            IpAddress::V6(source),
            IpAddress::V6(destination),
            fragmented,
            transport,
        ),
    }
}

/// Struct Tracker holds the state necessary to process packets and emit MapiEvents.
pub struct Tracker {
    events: EventSink,
    tcp_tracker: TcpTracker,
}

impl View for Tracker {
    type V = TrackerView;

    closed spec fn view(&self) -> TrackerView {
        self.tcp_tracker@
    }
}

impl Tracker {
    pub closed spec fn wf(&self) -> bool {
        self.tcp_tracker.wf()
    }

    /// The events that have been emitted and not yet taken out.
    pub closed spec fn pending(&self) -> Seq<EventView> {
        self.events.pending()
    }

    /// Create a new Tracker that follows no connection yet.
    pub fn new() -> (t: Tracker)
        ensures
            t.wf(),
            t@ == (TrackerView { next_id: 10, streams: Map::empty() }),
            t.pending() == Seq::<EventView>::empty(),
    {
        Tracker { events: EventSink::new(), tcp_tracker: TcpTracker::new() }
    }

    /// Take out the events that have been emitted, oldest first.
    pub fn take_events(&mut self) -> (events: Vec<MapiEvent>)
        ensures
            events@.map_values(|e: MapiEvent| e@) == old(self).pending(),
            final(self).pending() == Seq::<EventView>::empty(),
            final(self)@ == old(self)@,
            final(self).wf() == old(self).wf(),
    {
        self.events.take()
    }

    /// Whether another connection can be given an id.
    pub fn has_ids(&self) -> (b: bool)
        ensures
            b == (self@.next_id < usize::MAX),
    {
        self.tcp_tracker.has_ids()
    }

    /// Process the given packet as an Ethernet frame.
    ///
    /// The frame is taken apart; what comes of it is what
    /// [`Tracker::handle_sliced`] makes of the parts. A frame that cannot be
    /// taken apart is an error, and changes nothing.
    pub fn process_ethernet(&mut self, data: &[u8]) -> (r: Result<(), PcapError>)
        requires
            old(self).wf(),
            old(self)@.next_id < usize::MAX,
        ensures
            final(self).wf(),
            match sliced(data@) {
                None => r matches Err(PcapError::Malformed(_)) && final(self)@ == old(self)@
                    && final(self).pending() == old(self).pending(),
                Some(parts) => {
                    let followed = handle_sliced(old(self)@, parts.0, parts.1);
                    &&& final(self)@ == followed.state
                    &&& final(self).pending() == old(self).pending() + followed.events
                    &&& match r {
                        Ok(()) => followed.result is Ok,
                        Err(e) => followed.result == Err::<(), PcapErrorView>(e@),
                    }
                },
            },
    {
        let ether_slice = match slice_ethernet(data) {
            Ok(sliced) => sliced,
            Err(message) => {
                return Err(PcapError::Malformed(message));
            },
        };
        let net = net_of(&ether_slice);
        let transport = transport_of(&ether_slice);
        self.handle_sliced(&net, &transport)
    }

    /// Handle a packet that has been taken apart.
    pub fn handle_sliced(&mut self, net: &Net, transport: &Transport) -> (r: Result<(), PcapError>)
        requires
            old(self).wf(),
            old(self)@.next_id < usize::MAX,
        ensures
            final(self).wf(),
            final(self)@ == handle_sliced(old(self)@, *net, *transport).state,
            final(self).pending() == old(self).pending() + handle_sliced(
                old(self)@,
                *net,
                *transport,
            ).events,
            match r {
                Ok(()) => handle_sliced(old(self)@, *net, *transport).result is Ok,
                Err(e) => handle_sliced(old(self)@, *net, *transport).result == Err::<(), PcapErrorView>(e@),
            },
    {
        match net {
            Net::V4 { source, destination, fragmented } => self.handle_ipv4(
                *source,
                *destination,
                *fragmented,
                transport,
            ),
            Net::V6 { source, destination, fragmented } => self.handle_ipv6(
                *source,
                *destination,
                *fragmented,
                transport,
            ),
            Net::Nothing => {
                assert(self.pending() + Seq::<EventView>::empty() =~= self.pending());
                Ok(())
            },
        }
    }

    /// Examine IPv6 packet. If it's a TCP packet and not fragmented, hand it to [Self::handle_tcp]
    pub fn handle_ipv6(
        &mut self,
        source: u128,
        destination: u128,
        fragmented: bool,
        transport: &Transport,
    ) -> (r: Result<(), PcapError>)
        requires
            old(self).wf(),
            old(self)@.next_id < usize::MAX,
        ensures
            final(self).wf(),
            final(self)@ == handle_ip(
                old(self)@,
                IpAddress::V6(source),
                IpAddress::V6(destination),
                fragmented,
                *transport,
            ).state,
            final(self).pending() == old(self).pending() + handle_ip(
                old(self)@,
                IpAddress::V6(source),
                IpAddress::V6(destination),
                fragmented,
                *transport,
            ).events,
            match r {
                Ok(()) => handle_ip(
                    old(self)@,
                    IpAddress::V6(source),
                    IpAddress::V6(destination),
                    fragmented,
                    *transport,
                ).result is Ok,
                Err(e) => handle_ip(
                    old(self)@,
                    IpAddress::V6(source),
                    IpAddress::V6(destination),
                    fragmented,
                    *transport,
                ).result == Err::<(), PcapErrorView>(e@),
            },
    {
        proof {
            assert(self.pending() + Seq::<EventView>::empty() =~= self.pending());
        }
        if fragmented {
            return Err(PcapError::FragmentedIpv6);
        }
        let tcp = match transport {
            Transport::Nothing => {
                return Err(PcapError::TransportNotFound);
            },
            Transport::Tcp(tcp) => tcp,
            Transport::Other => {
                return Ok(());
            },
        };
        self.handle_tcp(IpAddress::V6(source), IpAddress::V6(destination), tcp);
        Ok(())
    }

    /// Examine IPv4 packet. If it's a TCP packet and not fragmented, hand it to [Self::handle_tcp]
    pub fn handle_ipv4(
        &mut self,
        source: u32,
        destination: u32,
        fragmented: bool,
        transport: &Transport,
    ) -> (r: Result<(), PcapError>)
        requires
            old(self).wf(),
            old(self)@.next_id < usize::MAX,
        ensures
            final(self).wf(),
            final(self)@ == handle_ip(
                old(self)@,
                IpAddress::V4(source),
                IpAddress::V4(destination),
                fragmented,
                *transport,
            ).state,
            final(self).pending() == old(self).pending() + handle_ip(
                old(self)@,
                IpAddress::V4(source),
                IpAddress::V4(destination),
                fragmented,
                *transport,
            ).events,
            match r {
                Ok(()) => handle_ip(
                    old(self)@,
                    IpAddress::V4(source),
                    IpAddress::V4(destination),
                    fragmented,
                    *transport,
                ).result is Ok,
                Err(e) => handle_ip(
                    old(self)@,
                    IpAddress::V4(source),
                    IpAddress::V4(destination),
                    fragmented,
                    *transport,
                ).result == Err::<(), PcapErrorView>(e@),
            },
    {
        proof {
            assert(self.pending() + Seq::<EventView>::empty() =~= self.pending());
        }
        if fragmented {
            return Err(PcapError::FragmentedIpv4);
        }
        let tcp = match transport {
            Transport::Nothing => {
                return Err(PcapError::TransportNotFound);
            },
            Transport::Tcp(tcp) => tcp,
            Transport::Other => {
                return Ok(());
            },
        };
        self.handle_tcp(IpAddress::V4(source), IpAddress::V4(destination), tcp);
        Ok(())
    }

    /// Called by [Self::handle_ipv4] and [Self::handle_ipv6] when they encounter TCP traffic
    pub fn handle_tcp(&mut self, src: IpAddress, dest: IpAddress, tcp: &TcpSegment)
        requires
            old(self).wf(),
            old(self)@.next_id < usize::MAX,
        ensures
            final(self).wf(),
            final(self)@ == old(self)@.handle(
                Key {
                    src: TcpAddr { ip: src, port: tcp.source_port },
                    dest: TcpAddr { ip: dest, port: tcp.destination_port },
                },
                *tcp,
            ).state,
            final(self).pending() == old(self).pending() + old(self)@.handle(
                Key {
                    src: TcpAddr { ip: src, port: tcp.source_port },
                    dest: TcpAddr { ip: dest, port: tcp.destination_port },
                },
                *tcp,
            ).events,
    {
        // It's nice for handle_ipv4 and handle_ipv6 to simply call handle_tcp, but it turns
        // out that the actual handling is done by the [TcpTracker] subobject.
        self.tcp_tracker.handle(src, dest, tcp, &mut self.events);
    }
}

/// Whether a packet of `len` bytes may have been cut short, in a capture
/// that allowed `snaplen` bytes at most.
pub fn check_truncated(len: usize, snaplen: u32) -> (r: Result<(), PcapError>)
    ensures
        r is Ok <==> len != snaplen,
        r matches Err(e) ==> e@ == PcapErrorView::TruncatedPacket,
{
    if len == snaplen as usize {
        Err(PcapError::TruncatedPacket)
    } else {
        Ok(())
    }
}

/// What handling a packet of the given link type comes to. A packet that
/// is not from Ethernet is refused and changes nothing; so does a frame
/// that cannot be taken apart. Any other frame comes to what
/// [`handle_sliced`] makes of its parts.
pub open spec fn processed(
    before: &Tracker,
    after: &Tracker,
    linktype: u32,
    data: Seq<u8>,
    r: Result<(), PcapError>,
) -> bool {
    if linktype != ETHERNET {
        &&& r matches Err(e)
        &&& e@ == PcapErrorView::UnsupportedLinkType(linktype)
        &&& after@ == before@
        &&& after.pending() == before.pending()
    } else {
        match sliced(data) {
            None => {
                &&& r matches Err(PcapError::Malformed(_))
                &&& after@ == before@
                &&& after.pending() == before.pending()
            },
            Some(parts) => {
                let followed = handle_sliced(before@, parts.0, parts.1);
                &&& after@ == followed.state
                &&& after.pending() == before.pending() + followed.events
                &&& match r {
                    Ok(()) => followed.result is Ok,
                    Err(e) => followed.result == Err::<(), PcapErrorView>(e@),
                }
            },
        }
    }
}

/// This function is called for each packet in the file. Only packets from
/// Ethernet are supported.
pub fn process_packet(linktype: u32, data: &[u8], tracker: &mut Tracker) -> (r: Result<
    (),
    PcapError,
>)
    requires
        old(tracker).wf(),
        old(tracker)@.next_id < usize::MAX,
    ensures
        final(tracker).wf(),
        processed(old(tracker), final(tracker), linktype, data@, r),
{
    // We expect to read ethernet frames but it's also possible for pcap files to
    // capture at the IP level. Right now we only support Ethernet.
    if linktype == ETHERNET {
        tracker.process_ethernet(data)
    } else {
        Err(PcapError::UnsupportedLinkType(linktype))
    }
}

/// A packet of a capture in the legacy format, in which the link type and
/// the greatest length of a packet are set for the whole file. A packet of
/// that greatest length counts as cut short.
pub fn parse_legacy_pcap(datalink: u32, snaplen: u32, data: &[u8], tracker: &mut Tracker) -> (r:
    Result<(), PcapError>)
    requires
        old(tracker).wf(),
        old(tracker)@.next_id < usize::MAX,
    ensures
        final(tracker).wf(),
        data@.len() == snaplen ==> (r matches Err(e) && e@ == PcapErrorView::TruncatedPacket
            && final(tracker)@ == old(tracker)@ && final(tracker).pending() == old(tracker).pending()),
        data@.len() != snaplen ==> processed(old(tracker), final(tracker), datalink, data@, r),
{
    match check_truncated(data.len(), snaplen) {
        Err(e) => Err(e),
        Ok(()) => process_packet(datalink, data, tracker),
    }
}

/// What a block of a capture in the next generation format holds.
#[derive(Debug)]
pub enum NgBlock<'a> {
    /// The description of an interface, with its link type.
    InterfaceDescription { linktype: u32 },
    /// A packet.
    Packet(&'a [u8]),
    /// Anything else.
    Other,
}

/// A block of a capture in the next generation format, in which the link
/// type is set by the descriptions of interfaces and can change. `linktype`
/// holds the latest one. Packets that come before any are passed over.
pub fn parse_pcap_ng(linktype: &mut Option<u32>, block: NgBlock, tracker: &mut Tracker) -> (r:
    Result<(), PcapError>)
    requires
        old(tracker).wf(),
        old(tracker)@.next_id < usize::MAX,
    ensures
        final(tracker).wf(),
        *final(linktype) == (match block {
            NgBlock::InterfaceDescription { linktype: described } => Some(described),
            _ => *old(linktype),
        }),
        match (block, *old(linktype)) {
            (NgBlock::Packet(data), Some(lt)) => processed(
                old(tracker),
                final(tracker),
                lt,
                data@,
                r,
            ),
            _ => r is Ok && final(tracker)@ == old(tracker)@ && final(tracker).pending() == old(tracker).pending(),
        },
{
    match block {
        NgBlock::InterfaceDescription { linktype: described } => {
            *linktype = Some(described);
            Ok(())
        },
        NgBlock::Packet(data) => {
            // Broken files might contain packets before the first interface description block.
            // Ignore them.
            match *linktype {
                Some(lt) => process_packet(lt, data, tracker),
                None => Ok(()),
            }
        },
        NgBlock::Other => Ok(()),
    }
}

} // verus!
