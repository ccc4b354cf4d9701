use mapiproxy::address::MonetAddr;
use mapiproxy::copying::PumpInput;
use mapiproxy::error::{Error, IoError, IoErrorKind};
use mapiproxy::event::{ConnectionId, ConnectionSink, Direction, EventSink, MapiEvent};
use mapiproxy::forward::{established, Forwarder, Input, Side, Step, Todo};
use mapiproxy::network::{Addr, IpAddress, TcpAddr};
use mapiproxy::registered::{combine_interests, readable, writable, Registered, Registration};
use mio::Interest;

const ID: ConnectionId = ConnectionId(10);

fn v6() -> Addr {
    Addr::Tcp(TcpAddr { ip: IpAddress::V6(1), port: 9999 })
}

fn v4() -> Addr {
    Addr::Tcp(TcpAddr { ip: IpAddress::V4(0x7f00_0001), port: 9999 })
}

fn peer() -> Addr {
    Addr::Tcp(TcpAddr { ip: IpAddress::V4(0x7f00_0001), port: 40000 })
}

fn failure(message: &str) -> IoError {
    IoError { kind: IoErrorKind::Other, message: message.as_bytes().to_vec() }
}

fn would_block() -> IoError {
    IoError { kind: IoErrorKind::WouldBlock, message: Vec::new() }
}

fn just(next: Todo) -> Step {
    Step { shutdown_write: None, shutdown_read: None, drop_server: false, next }
}

fn start(sink: &mut EventSink, resolved: Result<Vec<Addr>, IoError>) -> Result<Forwarder, Error> {
    let forward_addr = MonetAddr::parse(b"localhost:9999").unwrap();
    let mut conn = ConnectionSink::new(sink, ID);
    Forwarder::new(&mut conn, peer(), 2, &forward_addr, resolved, 3)
}

fn step(forwarder: &mut Forwarder, sink: &mut EventSink, input: Input) -> Result<Step, Error> {
    assert!(forwarder.accepts(&input));
    let mut conn = ConnectionSink::new(sink, forwarder.id());
    forwarder.handle_event(&mut conn, input)
}

fn set_up(sink: &mut EventSink) -> Forwarder {
    let mut f = start(sink, Ok(vec![v4()])).unwrap();
    assert_eq!(step(&mut f, sink, Input::Go).unwrap(), just(Todo::Connect));
    step(&mut f, sink, Input::Connected(Ok(()))).unwrap();
    step(&mut f, sink, Input::Registered(Ok(()))).unwrap();
    step(&mut f, sink, Input::Go).unwrap();
    let s = step(&mut f, sink, Input::Established(Ok(Some(v4())))).unwrap();
    assert_eq!(s, just(Todo::SetNodelay { side: Side::Client }));
    let s = step(&mut f, sink, Input::Nodelay(Ok(()))).unwrap();
    assert_eq!(s, just(Todo::SetNodelay { side: Side::Server }));
    let s = step(&mut f, sink, Input::Nodelay(Ok(()))).unwrap();
    assert_eq!(s, just(Todo::Again));
    sink.take();
    f
}

#[test]
fn test_interest_or() {
    let x = Some(Interest::READABLE);
    let y = Some(Interest::PRIORITY);
    let z = combine_interests(x, y);

    assert_eq!(z, Some(Interest::READABLE | Interest::PRIORITY));
}

#[test]
fn interests_are_combined() {
    assert_eq!(combine_interests(None, None), None);
    assert_eq!(combine_interests(Some(Interest::READABLE), None), Some(Interest::READABLE));
    assert_eq!(combine_interests(None, Some(Interest::WRITABLE)), Some(Interest::WRITABLE));
    assert_eq!(
        combine_interests(Some(Interest::READABLE), Some(Interest::WRITABLE)),
        Some(Interest::READABLE | Interest::WRITABLE)
    );
    assert_eq!(readable(), Interest::READABLE);
    assert_eq!(writable(), Interest::WRITABLE);
}

#[test]
fn registration_follows_what_is_needed() {
    let mut r = Registered::new(b"sock".to_vec(), 7);
    assert!(matches!(r.update_registration(), Registration::Keep));
    r.need(readable());
    match r.update_registration() {
        Registration::Register { token, interests } => {
            assert_eq!(token, 7);
            assert_eq!(interests, Interest::READABLE);
        }
        other => panic!("unexpected {:?}", other),
    }
    r.registration_done();
    assert!(matches!(r.update_registration(), Registration::Keep));
    r.attempt(writable(), false);
    assert!(matches!(r.update_registration(), Registration::Keep));
    r.attempt(writable(), true);
    match r.update_registration() {
        Registration::Reregister { token, interests } => {
            assert_eq!(token, 7);
            assert_eq!(interests, Interest::READABLE | Interest::WRITABLE);
        }
        other => panic!("unexpected {:?}", other),
    }
    r.registration_done();
    r.clear();
    assert!(matches!(r.update_registration(), Registration::Deregister));
    r.need(readable());
    r.need(writable());
    assert!(matches!(r.update_registration(), Registration::Keep));
    assert!(matches!(r.deregister(), Registration::Deregister));
    r.registration_done();
    assert!(matches!(r.deregister(), Registration::Keep));
}

#[test]
fn addresses_are_tried_in_turn() {
    let mut sink = EventSink::new();
    let mut f = start(&mut sink, Ok(vec![v6(), v4()])).unwrap();
    assert_eq!(f.id(), ID);
    assert_eq!(f.candidate(), Some(&v6()));
    assert_eq!(step(&mut f, &mut sink, Input::Go).unwrap(), just(Todo::Connect));
    assert_eq!(
        step(&mut f, &mut sink, Input::Connected(Ok(()))).unwrap(),
        just(Todo::Register { side: Side::Server })
    );
    match f.registration(Side::Server) {
        Registration::Register { token, interests } => {
            assert_eq!(token, 3);
            assert_eq!(interests, Interest::WRITABLE);
        }
        other => panic!("unexpected {:?}", other),
    }
    assert_eq!(step(&mut f, &mut sink, Input::Registered(Ok(()))).unwrap(), just(Todo::Wait));
    assert_eq!(step(&mut f, &mut sink, Input::Go).unwrap(), just(Todo::CheckEstablished));
    assert_eq!(step(&mut f, &mut sink, Input::Established(Ok(None))).unwrap(), just(Todo::Wait));
    assert_eq!(step(&mut f, &mut sink, Input::Go).unwrap(), just(Todo::CheckEstablished));
    assert_eq!(
        step(&mut f, &mut sink, Input::Established(Err(failure("Connection refused")))).unwrap(),
        Step { drop_server: true, ..just(Todo::Again) }
    );
    assert_eq!(f.candidate(), Some(&v4()));
    assert_eq!(step(&mut f, &mut sink, Input::Go).unwrap(), just(Todo::Connect));
    step(&mut f, &mut sink, Input::Connected(Ok(()))).unwrap();
    step(&mut f, &mut sink, Input::Registered(Ok(()))).unwrap();
    step(&mut f, &mut sink, Input::Go).unwrap();
    assert_eq!(
        step(&mut f, &mut sink, Input::Established(Ok(Some(v4())))).unwrap(),
        just(Todo::SetNodelay { side: Side::Client })
    );

    let events = sink.take();
    assert_eq!(events.len(), 4);
    assert!(matches!(&events[0], MapiEvent::Connecting { id: ID, remote } if *remote == v6()));
    match &events[1] {
        MapiEvent::ConnectFailed { id, remote, error, immediately } => {
            assert_eq!(*id, ID);
            assert_eq!(remote, b"[::1]:9999");
            assert_eq!(error.message, b"Connection refused".to_vec());
            assert!(!immediately);
        }
        other => panic!("unexpected event {:?}", other),
    }
    assert!(matches!(&events[2], MapiEvent::Connecting { id: ID, remote } if *remote == v4()));
    assert!(matches!(&events[3], MapiEvent::Connected { id: ID, peer } if *peer == v4()));
}

#[test]
fn connection_fails_when_no_address_is_left() {
    let mut sink = EventSink::new();
    let mut f = start(&mut sink, Ok(vec![v6()])).unwrap();
    step(&mut f, &mut sink, Input::Go).unwrap();
    assert_eq!(
        step(&mut f, &mut sink, Input::Connected(Err(failure("Network is unreachable")))).unwrap(),
        just(Todo::Again)
    );
    assert_eq!(f.candidate(), None);
    assert_eq!(step(&mut f, &mut sink, Input::Go), Err(Error::Connect));
    let events = sink.take();
    assert_eq!(events.len(), 2);
    assert!(matches!(&events[1], MapiEvent::ConnectFailed { immediately: true, .. }));
}

#[test]
fn connection_needs_an_address() {
    let mut sink = EventSink::new();
    assert_eq!(start(&mut sink, Ok(vec![])).err(), Some(Error::Connect));
    let events = sink.take();
    assert_eq!(events.len(), 1);
    match &events[0] {
        MapiEvent::ConnectFailed { remote, error, immediately, .. } => {
            assert_eq!(remote, b"localhost:9999");
            assert_eq!(error.kind, IoErrorKind::NotFound);
            assert_eq!(error.message, b"name does not resolve to any addresses".to_vec());
            assert!(immediately);
        }
        other => panic!("unexpected event {:?}", other),
    }
    assert_eq!(start(&mut sink, Err(failure("no such host"))).err(), Some(Error::Connect));
    let events = sink.take();
    assert!(matches!(&events[0], MapiEvent::ConnectFailed { error, .. } if error.message == b"no such host"));
}

#[test]
fn nodelay_failure_aborts() {
    let mut sink = EventSink::new();
    let mut f = start(&mut sink, Ok(vec![v4()])).unwrap();
    step(&mut f, &mut sink, Input::Go).unwrap();
    step(&mut f, &mut sink, Input::Connected(Ok(()))).unwrap();
    step(&mut f, &mut sink, Input::Registered(Ok(()))).unwrap();
    step(&mut f, &mut sink, Input::Go).unwrap();
    step(&mut f, &mut sink, Input::Established(Ok(Some(v4())))).unwrap();
    step(&mut f, &mut sink, Input::Nodelay(Ok(()))).unwrap();
    let e = step(&mut f, &mut sink, Input::Nodelay(Err(failure("bad")))).unwrap_err();
    assert_eq!(e.message(), b"forwarding failed when setting nodelay server: bad".to_vec());
}

#[test]
fn pass_takes_downstream_then_upstream() {
    let mut sink = EventSink::new();
    let mut f = set_up(&mut sink);
    assert!(!f.accepts(&Input::Registered(Ok(()))));
    // downstream first: it reads from the server
    let max = 8192;
    assert_eq!(
        step(&mut f, &mut sink, Input::Go).unwrap(),
        just(Todo::Read { side: Side::Server, direction: Direction::Downstream, max })
    );
    assert_eq!(
        step(&mut f, &mut sink, Input::Pump(PumpInput::Read(Err(would_block())))).unwrap(),
        just(Todo::Again)
    );
    // then upstream: it reads from the client
    assert_eq!(
        step(&mut f, &mut sink, Input::Go).unwrap(),
        just(Todo::Read { side: Side::Client, direction: Direction::Upstream, max })
    );
    assert_eq!(
        step(&mut f, &mut sink, Input::Pump(PumpInput::Read(Ok(&[0x02, 0x00, b'h', b'i'])))).unwrap(),
        just(Todo::Again)
    );
    // something has changed, so there is another pass
    assert_eq!(
        step(&mut f, &mut sink, Input::Go).unwrap(),
        just(Todo::Read { side: Side::Server, direction: Direction::Downstream, max })
    );
    step(&mut f, &mut sink, Input::Pump(PumpInput::Read(Err(would_block())))).unwrap();
    assert_eq!(
        step(&mut f, &mut sink, Input::Go).unwrap(),
        just(Todo::Write { side: Side::Server, direction: Direction::Upstream })
    );
    assert_eq!(f.unsent(Direction::Upstream), &[0x02, 0x00, b'h', b'i']);
    assert_eq!(f.unsent(Direction::Downstream), b"");
    assert_eq!(
        step(&mut f, &mut sink, Input::Pump(PumpInput::Wrote(Ok(4)))).unwrap(),
        just(Todo::Read { side: Side::Client, direction: Direction::Upstream, max })
    );
    step(&mut f, &mut sink, Input::Pump(PumpInput::Read(Err(would_block())))).unwrap();
    // one more pass, in which nothing changes
    step(&mut f, &mut sink, Input::Go).unwrap();
    step(&mut f, &mut sink, Input::Pump(PumpInput::Read(Err(would_block())))).unwrap();
    step(&mut f, &mut sink, Input::Go).unwrap();
    assert_eq!(
        step(&mut f, &mut sink, Input::Pump(PumpInput::Read(Err(would_block())))).unwrap(),
        just(Todo::Register { side: Side::Client })
    );
    // both sockets are waited on for reading
    match f.registration(Side::Client) {
        Registration::Register { token, interests } => {
            assert_eq!(token, 2);
            assert_eq!(interests, Interest::READABLE);
        }
        other => panic!("unexpected {:?}", other),
    }
    assert_eq!(
        step(&mut f, &mut sink, Input::Registered(Ok(()))).unwrap(),
        just(Todo::Register { side: Side::Server })
    );
    match f.registration(Side::Server) {
        Registration::Reregister { token, interests } => {
            assert_eq!(token, 3);
            assert_eq!(interests, Interest::READABLE);
        }
        other => panic!("unexpected {:?}", other),
    }
    assert_eq!(step(&mut f, &mut sink, Input::Registered(Ok(()))).unwrap(), just(Todo::Wait));

    let events = sink.take();
    assert_eq!(events.len(), 1);
    match &events[0] {
        MapiEvent::Data { id, direction, data } => {
            assert_eq!(*id, ID);
            assert_eq!(*direction, Direction::Upstream);
            assert_eq!(data.as_slice(), &[0x02, 0x00, b'h', b'i']);
        }
        other => panic!("unexpected event {:?}", other),
    }
}

#[test]
fn half_close_is_passed_on() {
    let mut sink = EventSink::new();
    let mut f = set_up(&mut sink);
    step(&mut f, &mut sink, Input::Go).unwrap();
    // the server sends "ok" and closes its write side
    step(&mut f, &mut sink, Input::Pump(PumpInput::Read(Ok(b"ok")))).unwrap();
    step(&mut f, &mut sink, Input::Go).unwrap();
    step(&mut f, &mut sink, Input::Pump(PumpInput::Read(Err(would_block())))).unwrap();
    assert_eq!(
        step(&mut f, &mut sink, Input::Go).unwrap(),
        just(Todo::Write { side: Side::Client, direction: Direction::Downstream })
    );
    assert_eq!(
        step(&mut f, &mut sink, Input::Pump(PumpInput::Wrote(Ok(2)))).unwrap(),
        just(Todo::Read { side: Side::Server, direction: Direction::Downstream, max: 8192 })
    );
    assert_eq!(
        step(&mut f, &mut sink, Input::Pump(PumpInput::Read(Ok(b"")))).unwrap(),
        Step { shutdown_read: Some(Side::Server), ..just(Todo::Again) }
    );
    step(&mut f, &mut sink, Input::Go).unwrap();
    step(&mut f, &mut sink, Input::Pump(PumpInput::Read(Err(would_block())))).unwrap();
    // in the next pass, the downstream direction has nothing left to pass on
    assert_eq!(
        step(&mut f, &mut sink, Input::Go).unwrap(),
        Step { shutdown_write: Some(Side::Client), ..just(Todo::Again) }
    );
    let events = sink.take();
    assert_eq!(events.len(), 2);
    assert!(matches!(&events[0], MapiEvent::Data { direction: Direction::Downstream, data, .. } if data.as_slice() == b"ok"));
    assert!(matches!(&events[1], MapiEvent::ShutdownRead { id: ID, direction: Direction::Downstream }));

    // then the client closes too
    step(&mut f, &mut sink, Input::Go).unwrap();
    assert_eq!(
        step(&mut f, &mut sink, Input::Pump(PumpInput::Read(Ok(b"")))).unwrap(),
        Step { shutdown_read: Some(Side::Client), ..just(Todo::Again) }
    );
    assert_eq!(step(&mut f, &mut sink, Input::Go).unwrap(), just(Todo::Again));
    assert_eq!(
        step(&mut f, &mut sink, Input::Go).unwrap(),
        Step { shutdown_write: Some(Side::Server), ..just(Todo::Register { side: Side::Client }) }
    );
    step(&mut f, &mut sink, Input::Registered(Ok(()))).unwrap();
    assert_eq!(step(&mut f, &mut sink, Input::Registered(Ok(()))).unwrap(), just(Todo::Finished));
    let events = sink.take();
    assert_eq!(events.len(), 1);
    assert!(matches!(&events[0], MapiEvent::ShutdownRead { id: ID, direction: Direction::Upstream }));
}

#[test]
fn registering_failure_aborts() {
    let mut sink = EventSink::new();
    let mut f = set_up(&mut sink);
    step(&mut f, &mut sink, Input::Go).unwrap();
    step(&mut f, &mut sink, Input::Pump(PumpInput::Read(Err(would_block())))).unwrap();
    step(&mut f, &mut sink, Input::Go).unwrap();
    step(&mut f, &mut sink, Input::Pump(PumpInput::Read(Err(would_block())))).unwrap();
    let e = step(&mut f, &mut sink, Input::Registered(Err(failure("no")))).unwrap_err();
    assert_eq!(e.message(), b"forwarding failed when registering client: no".to_vec());
    let (client, server) = f.deregister();
    assert!(matches!(client, Registration::Keep));
    assert!(matches!(server, Registration::Deregister));
}

#[test]
fn connection_is_made_failed_or_still_being_made() {
    let pending = IoError { kind: IoErrorKind::Other, message: b"Connection refused".to_vec() };
    let asking = IoError { kind: IoErrorKind::Other, message: b"bad socket".to_vec() };
    let not_yet = IoError { kind: IoErrorKind::NotConnected, message: b"not connected".to_vec() };
    let reset = IoError { kind: IoErrorKind::Other, message: b"reset".to_vec() };
    assert_eq!(established(Ok(None), Ok(v4())), Ok(Some(v4())));
    assert_eq!(established(Ok(None), Err(not_yet)), Ok(None));
    assert_eq!(established(Ok(None), Err(would_block())), Ok(None));
    assert_eq!(established(Ok(None), Err(reset.duplicate())), Err(reset));
    assert_eq!(established(Ok(Some(pending.duplicate())), Ok(v4())), Err(pending));
    assert_eq!(established(Err(asking.duplicate()), Ok(v4())), Err(asking));
}
