use mapiproxy::event::{ConnectionId, Direction, EventSink, MapiEvent};
use mapiproxy::network::{Addr, IpAddress, TcpAddr};
use mapiproxy::tcp::{FlowTable, Key, StreamState, TcpSegment, TcpTracker};

const CLIENT: IpAddress = IpAddress::V4(0x0a00_0001);
const SERVER: IpAddress = IpAddress::V4(0x0a00_0002);

fn segment(from_client: bool, seq: u32, payload: &[u8]) -> TcpSegment {
    TcpSegment {
        source_port: if from_client { 40000 } else { 50000 },
        destination_port: if from_client { 50000 } else { 40000 },
        sequence_number: seq,
        syn: false,
        ack: true,
        fin: false,
        payload: payload.to_vec(),
    }
}

fn feed(tracker: &mut TcpTracker, sink: &mut EventSink, from_client: bool, tcp: &TcpSegment) {
    assert!(tracker.has_ids());
    if from_client {
        tracker.handle(CLIENT, SERVER, tcp, sink);
    } else {
        tracker.handle(SERVER, CLIENT, tcp, sink);
    }
}

fn open(tracker: &mut TcpTracker, sink: &mut EventSink, client_seq: u32, server_seq: u32) {
    let syn = TcpSegment { syn: true, ack: false, ..segment(true, client_seq, b"") };
    feed(tracker, sink, true, &syn);
    let syn_ack = TcpSegment { syn: true, ack: true, ..segment(false, server_seq, b"") };
    feed(tracker, sink, false, &syn_ack);
}

fn data_of(events: &[MapiEvent]) -> Vec<(Direction, Vec<u8>)> {
    let mut all = Vec::new();
    for event in events {
        if let MapiEvent::Data { direction, data, .. } = event {
            all.push((*direction, data.to_vec()));
        }
    }
    all
}

#[test]
fn handshake_is_reported() {
    let mut tracker = TcpTracker::new();
    let mut sink = EventSink::new();
    open(&mut tracker, &mut sink, 99, 999);
    let events = sink.take();
    assert_eq!(events.len(), 2);
    match &events[0] {
        MapiEvent::Incoming { id, local, peer } => {
            assert_eq!(*id, ConnectionId::new(10));
            assert_eq!(*local, Addr::Tcp(TcpAddr { ip: SERVER, port: 50000 }));
            assert_eq!(*peer, Addr::Tcp(TcpAddr { ip: CLIENT, port: 40000 }));
        }
        other => panic!("unexpected event {:?}", other),
    }
    match &events[1] {
        MapiEvent::Connected { id, peer } => {
            assert_eq!(*id, ConnectionId::new(10));
            assert_eq!(*peer, Addr::Tcp(TcpAddr { ip: SERVER, port: 50000 }));
        }
        other => panic!("unexpected event {:?}", other),
    }
    // a second connection gets the next id, a repeated SYN gets none
    let syn = TcpSegment { syn: true, ack: false, ..segment(true, 99, b"") };
    feed(&mut tracker, &mut sink, true, &syn);
    assert!(sink.take().is_empty());
    let other_syn = TcpSegment { source_port: 40001, ..syn };
    feed(&mut tracker, &mut sink, true, &other_syn);
    let events = sink.take();
    assert!(matches!(&events[0], MapiEvent::Incoming { id: ConnectionId(11), .. }));
}

#[test]
fn segments_are_put_back_in_sequence() {
    let mut tracker = TcpTracker::new();
    let mut sink = EventSink::new();
    open(&mut tracker, &mut sink, 99, 999);
    sink.take();
    feed(&mut tracker, &mut sink, true, &segment(true, 100, b"AB"));
    feed(&mut tracker, &mut sink, true, &segment(true, 104, b"EF"));
    assert_eq!(data_of(&sink.take()), vec![(Direction::Upstream, b"AB".to_vec())]);
    feed(&mut tracker, &mut sink, true, &segment(true, 102, b"CD"));
    assert_eq!(
        data_of(&sink.take()),
        vec![(Direction::Upstream, b"CD".to_vec()), (Direction::Upstream, b"EF".to_vec())]
    );
}

#[test]
fn duplicates_are_dropped() {
    let mut tracker = TcpTracker::new();
    let mut sink = EventSink::new();
    open(&mut tracker, &mut sink, 99, 999);
    feed(&mut tracker, &mut sink, true, &segment(true, 104, b"EF"));
    feed(&mut tracker, &mut sink, true, &segment(true, 100, b"AB"));
    feed(&mut tracker, &mut sink, true, &segment(true, 100, b"AB"));
    feed(&mut tracker, &mut sink, true, &segment(true, 104, b"EF"));
    feed(&mut tracker, &mut sink, true, &segment(true, 102, b"CD"));
    feed(&mut tracker, &mut sink, true, &segment(true, 102, b"CD"));
    feed(&mut tracker, &mut sink, true, &segment(true, 104, b"EF"));
    feed(&mut tracker, &mut sink, false, &segment(false, 1000, b"xyz"));
    let mut upstream = Vec::new();
    let mut downstream = Vec::new();
    for (direction, data) in data_of(&sink.take()) {
        match direction {
            Direction::Upstream => upstream.extend(data),
            Direction::Downstream => downstream.extend(data),
        }
    }
    assert_eq!(upstream, b"ABCDEF".to_vec());
    assert_eq!(downstream, b"xyz".to_vec());
}

#[test]
fn any_order_gives_the_stream() {
    let pieces: [&[u8]; 4] = [b"one ", b"two ", b"three ", b"four"];
    let orders: [[usize; 4]; 6] =
        [[0, 1, 2, 3], [3, 2, 1, 0], [1, 0, 3, 2], [2, 3, 0, 1], [3, 0, 2, 1], [1, 3, 2, 0]];
    for order in orders {
        let mut tracker = TcpTracker::new();
        let mut sink = EventSink::new();
        // the stream runs across the point where sequence numbers wrap
        let start: u32 = 0xffff_fff8;
        open(&mut tracker, &mut sink, start.wrapping_sub(1), 0);
        sink.take();
        for i in order {
            let offset: usize = pieces[..i].iter().map(|p| p.len()).sum();
            feed(&mut tracker, &mut sink, true, &segment(true, start.wrapping_add(offset as u32), pieces[i]));
        }
        let mut stream = Vec::new();
        for (_, data) in data_of(&sink.take()) {
            stream.extend(data);
        }
        assert_eq!(stream, b"one two three four".to_vec());
    }
}

#[test]
fn segments_of_unknown_connections_are_passed_over() {
    let mut tracker = TcpTracker::new();
    let mut sink = EventSink::new();
    feed(&mut tracker, &mut sink, true, &segment(true, 100, b"AB"));
    let syn_ack = TcpSegment { syn: true, ack: true, ..segment(false, 7, b"") };
    feed(&mut tracker, &mut sink, false, &syn_ack);
    assert!(sink.take().is_empty());
}

#[test]
fn connection_ends_when_both_halves_have_ended() {
    let mut tracker = TcpTracker::new();
    let mut sink = EventSink::new();
    open(&mut tracker, &mut sink, 99, 999);
    sink.take();
    let fin = TcpSegment { fin: true, ..segment(true, 100, b"bye") };
    feed(&mut tracker, &mut sink, true, &fin);
    let events = sink.take();
    assert_eq!(events.len(), 2);
    assert_eq!(data_of(&events), vec![(Direction::Upstream, b"bye".to_vec())]);
    assert!(matches!(
        &events[1],
        MapiEvent::ShutdownRead { id: ConnectionId(10), direction: Direction::Upstream }
    ));
    // the FIN arrives before the data that precedes it
    let fin = TcpSegment { fin: true, ..segment(false, 1002, b"") };
    feed(&mut tracker, &mut sink, false, &fin);
    assert!(sink.take().is_empty());
    feed(&mut tracker, &mut sink, false, &segment(false, 1000, b"ok"));
    let events = sink.take();
    assert_eq!(events.len(), 3);
    assert_eq!(data_of(&events), vec![(Direction::Downstream, b"ok".to_vec())]);
    assert!(matches!(
        &events[1],
        MapiEvent::ShutdownRead { id: ConnectionId(10), direction: Direction::Downstream }
    ));
    assert!(matches!(&events[2], MapiEvent::End { id: ConnectionId(10) }));
    // the connection is forgotten
    feed(&mut tracker, &mut sink, true, &segment(true, 103, b"late"));
    assert!(sink.take().is_empty());
}

#[test]
fn wrap_around_segment_ahead_is_kept() {
    let mut stream = StreamState::new(ConnectionId::new(10), Direction::Upstream, 0xFFFF_FFF0);
    // 21 bytes ahead, across the wrap
    assert_eq!(stream.reorder(0x0000_0005, false, b"next"), None);
    assert_eq!(stream.waiting_len(), 1);
    let first = [1u8; 21];
    assert_eq!(stream.reorder(0xFFFF_FFF0, false, &first), Some(&first[..]));
    assert_eq!(stream.next_ready(), Some(b"next".to_vec()));
    assert_eq!(stream.next_ready(), None);
    assert_eq!(stream.waiting_len(), 0);
    assert!(!stream.finished());
    // what has been yielded is dropped when it comes again, also across the wrap
    assert_eq!(stream.reorder(0xFFFF_FFF0, false, &first), None);
    assert_eq!(stream.reorder(0x0000_0005, true, b"next"), None);
    assert_eq!(stream.waiting_len(), 0);
    assert!(!stream.finished());
    assert_eq!(stream.reorder(0x0000_0009, true, b""), Some(&b""[..]));
    assert!(stream.finished());
    assert_eq!(stream.id(), ConnectionId::new(10));
    assert_eq!(stream.direction(), Direction::Upstream);
}

#[test]
fn segment_half_the_circle_away_counts_as_seen() {
    let mut stream = StreamState::new(ConnectionId::new(10), Direction::Upstream, 0x30);
    assert_eq!(stream.reorder(0x31, false, b"a"), None);
    assert_eq!(stream.waiting_len(), 1);
    assert_eq!(stream.reorder(0x2f, false, b"b"), None);
    assert_eq!(stream.waiting_len(), 1);
    assert_eq!(stream.reorder(0x8000_002f, false, b"c"), None);
    assert_eq!(stream.waiting_len(), 2);
    assert_eq!(stream.reorder(0x8000_0030, false, b"d"), None);
    assert_eq!(stream.waiting_len(), 2);
}

#[test]
fn flow_table_holds_each_key_once() {
    let key = Key {
        src: TcpAddr { ip: CLIENT, port: 1 },
        dest: TcpAddr { ip: SERVER, port: 2 },
    };
    assert_eq!(key.flip(), Key { src: key.dest, dest: key.src });
    assert_eq!(key.flip().flip(), key);
    let mut table = FlowTable::new();
    assert!(!table.contains_key(&key));
    table.insert(key, StreamState::new(ConnectionId::new(10), Direction::Upstream, 5));
    table.insert(key.flip(), StreamState::new(ConnectionId::new(10), Direction::Downstream, 6));
    table.insert(key, StreamState::new(ConnectionId::new(11), Direction::Upstream, 7));
    assert!(table.contains_key(&key));
    assert_eq!(table.id_of(&key), Some(ConnectionId::new(11)));
    assert_eq!(table.id_of(&key.flip()), Some(ConnectionId::new(10)));
    assert!(!table.is_finished(&key));
    let removed = table.remove(&key).unwrap();
    assert_eq!(removed.id(), ConnectionId::new(11));
    assert!(table.remove(&key).is_none());
    assert!(table.contains_key(&key.flip()));
}
