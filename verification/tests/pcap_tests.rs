use etherparse::PacketBuilder;
use mapiproxy::event::{ConnectionId, Direction, MapiEvent};
use mapiproxy::mybufread::MyBufReader;
use mapiproxy::network::{Addr, IpAddress, TcpAddr};
use mapiproxy::pcap::{
    check_truncated, file_kind, parse_legacy_pcap, parse_pcap_ng, process_packet, FileKind, Net,
    NgBlock, PcapError, Tracker, Transport, ETHERNET,
};
use mapiproxy::tcp::TcpSegment;

fn frame(from_client: bool, seq: u32, syn: bool, ack: bool, fin: bool, payload: &[u8]) -> Vec<u8> {
    let (src, dst, sport, dport) = if from_client {
        ([10, 0, 0, 1], [10, 0, 0, 2], 40000, 50000)
    } else {
        ([10, 0, 0, 2], [10, 0, 0, 1], 50000, 40000)
    };
    let mut builder = PacketBuilder::ethernet2([1, 2, 3, 4, 5, 6], [7, 8, 9, 10, 11, 12])
        .ipv4(src, dst, 20)
        .tcp(sport, dport, seq, 1024);
    if syn {
        builder = builder.syn();
    }
    if ack {
        builder = builder.ack(1);
    }
    if fin {
        builder = builder.fin();
    }
    let mut bytes = Vec::with_capacity(builder.size(payload.len()));
    builder.write(&mut bytes, payload).unwrap();
    bytes
}

fn frame6(seq: u32, syn: bool, payload: &[u8]) -> Vec<u8> {
    let mut src = [0u8; 16];
    src[15] = 1;
    let mut dst = [0u8; 16];
    dst[0] = 0xfe;
    dst[1] = 0x80;
    dst[15] = 2;
    let mut builder = PacketBuilder::ethernet2([1, 2, 3, 4, 5, 6], [7, 8, 9, 10, 11, 12])
        .ipv6(src, dst, 20)
        .tcp(40000, 50000, seq, 1024);
    if syn {
        builder = builder.syn();
    }
    let mut bytes = Vec::with_capacity(builder.size(payload.len()));
    builder.write(&mut bytes, payload).unwrap();
    bytes
}

fn feed(tracker: &mut Tracker, bytes: &[u8]) -> Result<(), PcapError> {
    assert!(tracker.has_ids());
    tracker.process_ethernet(bytes)
}

#[test]
fn capture_is_reordered() {
    let mut tracker = Tracker::new();
    feed(&mut tracker, &frame(true, 99, true, false, false, b"")).unwrap();
    feed(&mut tracker, &frame(false, 999, true, true, false, b"")).unwrap();
    feed(&mut tracker, &frame(true, 100, false, true, false, b"AB")).unwrap();
    feed(&mut tracker, &frame(true, 104, false, true, false, b"EF")).unwrap();
    feed(&mut tracker, &frame(true, 102, false, true, false, b"CD")).unwrap();
    feed(&mut tracker, &frame(false, 1000, false, true, true, b"ok")).unwrap();
    let events = tracker.take_events();
    assert_eq!(events.len(), 7);
    match &events[0] {
        MapiEvent::Incoming { id, local, peer } => {
            assert_eq!(*id, ConnectionId::new(10));
            assert_eq!(*local, Addr::Tcp(TcpAddr { ip: IpAddress::V4(0x0a00_0002), port: 50000 }));
            assert_eq!(*peer, Addr::Tcp(TcpAddr { ip: IpAddress::V4(0x0a00_0001), port: 40000 }));
        }
        other => panic!("unexpected event {:?}", other),
    }
    assert!(matches!(&events[1], MapiEvent::Connected { id: ConnectionId(10), .. }));
    let mut upstream = Vec::new();
    for event in &events[2..5] {
        match event {
            MapiEvent::Data { direction: Direction::Upstream, data, .. } => upstream.push(data.to_vec()),
            other => panic!("unexpected event {:?}", other),
        }
    }
    assert_eq!(upstream, vec![b"AB".to_vec(), b"CD".to_vec(), b"EF".to_vec()]);
    assert!(matches!(&events[5], MapiEvent::Data { direction: Direction::Downstream, data, .. } if data.as_slice() == b"ok"));
    assert!(matches!(&events[6], MapiEvent::ShutdownRead { direction: Direction::Downstream, .. }));
    assert!(tracker.take_events().is_empty());
}

#[test]
fn ipv6_is_followed_too() {
    let mut tracker = Tracker::new();
    feed(&mut tracker, &frame6(7, true, b"")).unwrap();
    feed(&mut tracker, &frame6(8, false, b"six")).unwrap();
    let events = tracker.take_events();
    assert_eq!(events.len(), 2);
    match &events[0] {
        MapiEvent::Incoming { local, peer, .. } => {
            assert_eq!(local.text(), b"[fe80::2]:50000".to_vec());
            assert_eq!(peer.text(), b"[::1]:40000".to_vec());
        }
        other => panic!("unexpected event {:?}", other),
    }
    assert!(matches!(&events[1], MapiEvent::Data { data, .. } if data.as_slice() == b"six"));
}

#[test]
fn other_traffic_is_passed_over() {
    let mut tracker = Tracker::new();
    let builder = PacketBuilder::ethernet2([1, 2, 3, 4, 5, 6], [7, 8, 9, 10, 11, 12])
        .ipv4([10, 0, 0, 1], [10, 0, 0, 2], 20)
        .udp(53, 53);
    let mut bytes = Vec::with_capacity(builder.size(4));
    builder.write(&mut bytes, b"dns?").unwrap();
    assert_eq!(feed(&mut tracker, &bytes), Ok(()));
    assert!(tracker.take_events().is_empty());
}

#[test]
fn broken_frames_are_errors() {
    let mut tracker = Tracker::new();
    match feed(&mut tracker, &[1, 2, 3]) {
        Err(PcapError::Malformed(message)) => assert!(!message.is_empty()),
        other => panic!("unexpected {:?}", other),
    }
    // set the flag that says that more fragments follow
    let mut bytes = frame(true, 100, false, true, false, b"AB");
    bytes[14 + 6] |= 0x20;
    let r = feed(&mut tracker, &bytes);
    assert_eq!(r, Err(PcapError::FragmentedIpv4));
    assert_eq!(
        r.unwrap_err().message(),
        b"pcap file contains fragmented ipv4 packet, not supported".to_vec()
    );
    assert!(tracker.take_events().is_empty());
}

#[test]
fn parts_of_a_packet_decide_what_happens() {
    let mut tracker = Tracker::new();
    let syn = TcpSegment {
        source_port: 1,
        destination_port: 2,
        sequence_number: 3,
        syn: true,
        ack: false,
        fin: false,
        payload: Vec::new(),
    };
    let v4 = Net::V4 { source: 1, destination: 2, fragmented: false };
    assert_eq!(tracker.handle_sliced(&Net::Nothing, &Transport::Tcp(syn.clone())), Ok(()));
    assert_eq!(tracker.handle_sliced(&v4, &Transport::Other), Ok(()));
    assert_eq!(tracker.handle_sliced(&v4, &Transport::Nothing), Err(PcapError::TransportNotFound));
    assert_eq!(
        tracker.handle_sliced(&Net::V6 { source: 1, destination: 2, fragmented: true }, &Transport::Other),
        Err(PcapError::FragmentedIpv6)
    );
    assert_eq!(tracker.handle_ipv4(1, 2, true, &Transport::Other), Err(PcapError::FragmentedIpv4));
    assert_eq!(tracker.handle_ipv6(1, 2, false, &Transport::Nothing), Err(PcapError::TransportNotFound));
    assert!(tracker.take_events().is_empty());
    assert_eq!(tracker.handle_sliced(&v4, &Transport::Tcp(syn.clone())), Ok(()));
    tracker.handle_tcp(IpAddress::V4(5), IpAddress::V4(6), &syn);
    let events = tracker.take_events();
    assert_eq!(events.len(), 2);
    assert!(matches!(&events[0], MapiEvent::Incoming { id: ConnectionId(10), .. }));
    assert!(matches!(&events[1], MapiEvent::Incoming { id: ConnectionId(11), .. }));
}

#[test]
fn file_kinds_are_told_by_signature() {
    assert_eq!(file_kind([0xD4, 0xC3, 0xB2, 0xA1]), Ok(FileKind::Legacy));
    assert_eq!(file_kind([0xA1, 0xB2, 0xB3, 0xD4]), Ok(FileKind::Legacy));
    assert_eq!(file_kind([0x0A, 0x0D, 0x0D, 0x0A]), Ok(FileKind::Ng));
    let e = file_kind([0xA1, 0xB2, 0xC3, 0xD4]).unwrap_err();
    assert_eq!(e, PcapError::UnknownSignature(0xA1, 0xB2, 0xC3, 0xD4));
    assert_eq!(e.message(), b"Unknown pcap file signature A1 B2 C3 D4".to_vec());
    assert_eq!(
        file_kind([0x00, 0x0f, 0x7f, 0x90]).unwrap_err().message(),
        b"Unknown pcap file signature 00 0F 7F 90".to_vec()
    );
}

#[test]
fn only_ethernet_is_supported() {
    let mut tracker = Tracker::new();
    let syn = frame(true, 99, true, false, false, b"");
    assert_eq!(process_packet(ETHERNET, &syn, &mut tracker), Ok(()));
    assert_eq!(tracker.take_events().len(), 1);
    let e = process_packet(101, &syn, &mut tracker).unwrap_err();
    assert_eq!(e, PcapError::UnsupportedLinkType(101));
    assert_eq!(e.message(), b"pcap file contains packet of type 101, this is not supported".to_vec());
    assert!(tracker.take_events().is_empty());
}

#[test]
fn packets_as_long_as_allowed_count_as_truncated() {
    assert_eq!(check_truncated(100, 65535), Ok(()));
    assert_eq!(check_truncated(65535, 65535), Err(PcapError::TruncatedPacket));
    assert_eq!(PcapError::TruncatedPacket.message(), b"truncated packet".to_vec());
    let mut tracker = Tracker::new();
    let syn = frame(true, 99, true, false, false, b"");
    assert_eq!(
        parse_legacy_pcap(ETHERNET, syn.len() as u32, &syn, &mut tracker),
        Err(PcapError::TruncatedPacket)
    );
    assert!(tracker.take_events().is_empty());
    assert_eq!(parse_legacy_pcap(ETHERNET, 65535, &syn, &mut tracker), Ok(()));
    assert_eq!(tracker.take_events().len(), 1);
}

#[test]
fn next_generation_packets_need_an_interface() {
    let mut tracker = Tracker::new();
    let syn = frame(true, 99, true, false, false, b"");
    let mut linktype = None;
    assert_eq!(parse_pcap_ng(&mut linktype, NgBlock::Packet(&syn), &mut tracker), Ok(()));
    assert_eq!(parse_pcap_ng(&mut linktype, NgBlock::Other, &mut tracker), Ok(()));
    assert!(tracker.take_events().is_empty());
    assert_eq!(linktype, None);
    assert_eq!(
        parse_pcap_ng(&mut linktype, NgBlock::InterfaceDescription { linktype: ETHERNET }, &mut tracker),
        Ok(())
    );
    assert_eq!(linktype, Some(ETHERNET));
    assert_eq!(parse_pcap_ng(&mut linktype, NgBlock::Packet(&syn), &mut tracker), Ok(()));
    assert_eq!(tracker.take_events().len(), 1);
    parse_pcap_ng(&mut linktype, NgBlock::InterfaceDescription { linktype: 105 }, &mut tracker).unwrap();
    assert_eq!(
        parse_pcap_ng(&mut linktype, NgBlock::Packet(&syn), &mut tracker),
        Err(PcapError::UnsupportedLinkType(105))
    );
}

#[test]
fn buffer_starts_with_what_it_was_given() {
    let mut initial = Vec::with_capacity(64);
    initial.extend_from_slice(&[0xD4, 0xC3, 0xB2, 0xA1]);
    let mut reader = MyBufReader::new(initial);
    assert!(reader.capacity() >= 64);
    assert!(!reader.needs_fill());
    assert_eq!(reader.fill_buf(), &[0xD4, 0xC3, 0xB2, 0xA1]);
    assert_eq!(reader.read(3), vec![0xD4, 0xC3, 0xB2]);
    assert_eq!(reader.fill_buf(), &[0xA1]);
    assert_eq!(reader.read(3), vec![0xA1]);
    assert!(reader.needs_fill());
    assert_eq!(reader.read(3), Vec::<u8>::new());
    reader.refill(b"more data");
    assert!(!reader.needs_fill());
    reader.consume(5);
    assert_eq!(reader.fill_buf(), b"data");
    reader.consume(4);
    assert!(reader.needs_fill());
    reader.refill(b"");
    assert!(reader.needs_fill());
}
