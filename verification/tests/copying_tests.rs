use mapiproxy::copying::{Copying, Next, PumpInput, Request, BUFSIZE};
use mapiproxy::error::{Error, IoError, IoErrorKind};
use mapiproxy::event::{ConnectionId, ConnectionSink, Direction, EventSink, MapiEvent};

fn io_error(kind: IoErrorKind, message: &str) -> IoError {
    IoError { kind, message: message.as_bytes().to_vec() }
}

fn step(copying: &mut Copying, sink: &mut EventSink, input: PumpInput) -> Result<Request, Error> {
    assert!(copying.accepts(&input));
    let mut conn = ConnectionSink::new(sink, ConnectionId::new(10));
    copying.handle_one(Direction::Upstream, &mut conn, input)
}

fn request(next: Next) -> Request {
    Request { shutdown_write: false, shutdown_read: false, next }
}

#[test]
fn data_is_reported_once_per_read_and_passed_on() {
    let mut sink = EventSink::new();
    let mut copying = Copying::new(false, false);
    assert!(!copying.finished());
    assert_eq!(copying.unsent(), b"");

    let r = step(&mut copying, &mut sink, PumpInput::Start).unwrap();
    assert_eq!(r, request(Next::Read { max: BUFSIZE }));
    let r = step(&mut copying, &mut sink, PumpInput::Read(Ok(&[0x02, 0x00, b'h', b'i']))).unwrap();
    assert_eq!(r, request(Next::Finished { progress: true }));
    assert_eq!(copying.unsent(), &[0x02, 0x00, b'h', b'i']);

    let r = step(&mut copying, &mut sink, PumpInput::Start).unwrap();
    assert_eq!(r, request(Next::Write));
    // the write side takes three of the four bytes
    let r = step(&mut copying, &mut sink, PumpInput::Wrote(Ok(3))).unwrap();
    assert_eq!(r, request(Next::Read { max: BUFSIZE - 4 }));
    assert_eq!(copying.unsent(), b"i");
    let r = step(&mut copying, &mut sink, PumpInput::Read(Err(io_error(IoErrorKind::WouldBlock, "")))).unwrap();
    assert_eq!(r, request(Next::Finished { progress: true }));

    let r = step(&mut copying, &mut sink, PumpInput::Start).unwrap();
    assert_eq!(r, request(Next::Write));
    let r = step(&mut copying, &mut sink, PumpInput::Wrote(Ok(1))).unwrap();
    // the buffer is empty, so it is used from its start again
    assert_eq!(r, request(Next::Read { max: BUFSIZE }));
    assert_eq!(copying.unsent(), b"");

    let events = sink.take();
    assert_eq!(events.len(), 1);
    match &events[0] {
        MapiEvent::Data { id, direction, data } => {
            assert_eq!(*id, ConnectionId::new(10));
            assert_eq!(*direction, Direction::Upstream);
            assert_eq!(data.to_vec(), vec![0x02, 0x00, b'h', b'i']);
        }
        other => panic!("unexpected event {:?}", other),
    }
}

#[test]
fn unix_client_sentinel_is_not_passed_on() {
    let mut sink = EventSink::new();
    let mut copying = Copying::new(true, false);
    step(&mut copying, &mut sink, PumpInput::Start).unwrap();
    step(&mut copying, &mut sink, PumpInput::Read(Ok(&[b'0', 0x02, 0x00, b'x']))).unwrap();
    let r = step(&mut copying, &mut sink, PumpInput::Start).unwrap();
    assert_eq!(r, request(Next::Write));
    assert_eq!(copying.unsent(), &[0x02, 0x00, b'x']);
}

#[test]
fn unix_client_without_sentinel_is_aborted() {
    let mut sink = EventSink::new();
    let mut copying = Copying::new(true, false);
    step(&mut copying, &mut sink, PumpInput::Start).unwrap();
    step(&mut copying, &mut sink, PumpInput::Read(Ok(&[0x02, 0x00, b'x']))).unwrap();
    let e = step(&mut copying, &mut sink, PumpInput::Start).unwrap_err();
    assert_eq!(e, Error::Other(b"client did not start with a '0' (0x30) byte".to_vec()));
    assert_eq!(e.message(), b"client did not start with a '0' (0x30) byte".to_vec());
}

#[test]
fn unix_server_gets_a_sentinel_first() {
    let mut sink = EventSink::new();
    let mut copying = Copying::new(false, true);
    assert_eq!(copying.unsent(), b"0");
    let r = step(&mut copying, &mut sink, PumpInput::Start).unwrap();
    assert_eq!(r, request(Next::Write));
    let r = step(&mut copying, &mut sink, PumpInput::Wrote(Ok(1))).unwrap();
    assert_eq!(r, request(Next::Read { max: BUFSIZE }));
    assert!(sink.take().is_empty());

    // from a Unix Domain client to a Unix Domain server: one sentinel arrives
    let mut copying = Copying::new(true, true);
    let r = step(&mut copying, &mut sink, PumpInput::Start).unwrap();
    assert_eq!(r, request(Next::Read { max: BUFSIZE }));
    step(&mut copying, &mut sink, PumpInput::Read(Ok(&[b'0', 0x02, 0x00, b'x']))).unwrap();
    step(&mut copying, &mut sink, PumpInput::Start).unwrap();
    assert_eq!(copying.unsent(), &[b'0', 0x02, 0x00, b'x']);
}

#[test]
fn closed_write_side_discards_what_is_left() {
    let mut sink = EventSink::new();
    let mut copying = Copying::new(false, false);
    step(&mut copying, &mut sink, PumpInput::Start).unwrap();
    step(&mut copying, &mut sink, PumpInput::Read(Ok(b"abcdefg"))).unwrap();
    step(&mut copying, &mut sink, PumpInput::Start).unwrap();
    step(&mut copying, &mut sink, PumpInput::Wrote(Ok(2))).unwrap();
    step(&mut copying, &mut sink, PumpInput::Read(Err(io_error(IoErrorKind::WouldBlock, "")))).unwrap();
    step(&mut copying, &mut sink, PumpInput::Start).unwrap();
    let r = step(&mut copying, &mut sink, PumpInput::Wrote(Ok(0))).unwrap();
    assert_eq!(
        r,
        Request { shutdown_write: true, shutdown_read: true, next: Next::Finished { progress: true } }
    );
    assert!(copying.finished());
    assert_eq!(copying.unsent(), b"");

    let events = sink.take();
    assert_eq!(events.len(), 3);
    assert!(matches!(&events[0], MapiEvent::Data { .. }));
    assert!(matches!(
        &events[1],
        MapiEvent::ShutdownWrite { id: ConnectionId(10), direction: Direction::Upstream, discard: 5 }
    ));
    assert!(matches!(
        &events[2],
        MapiEvent::ShutdownRead { id: ConnectionId(10), direction: Direction::Upstream }
    ));
}

#[test]
fn closed_read_side_closes_the_write_side_once_the_buffer_is_empty() {
    let mut sink = EventSink::new();
    let mut copying = Copying::new(false, false);
    step(&mut copying, &mut sink, PumpInput::Start).unwrap();
    step(&mut copying, &mut sink, PumpInput::Read(Ok(b"ok"))).unwrap();
    step(&mut copying, &mut sink, PumpInput::Start).unwrap();
    step(&mut copying, &mut sink, PumpInput::Wrote(Err(io_error(IoErrorKind::WouldBlock, "")))).unwrap();
    let r = step(&mut copying, &mut sink, PumpInput::Read(Ok(b""))).unwrap();
    assert_eq!(
        r,
        Request { shutdown_write: false, shutdown_read: true, next: Next::Finished { progress: true } }
    );
    assert!(!copying.finished());
    // the two bytes are still to be written
    let r = step(&mut copying, &mut sink, PumpInput::Start).unwrap();
    assert_eq!(r, request(Next::Write));
    let r = step(&mut copying, &mut sink, PumpInput::Wrote(Ok(2))).unwrap();
    assert_eq!(
        r,
        Request { shutdown_write: true, shutdown_read: false, next: Next::Finished { progress: true } }
    );
    assert!(copying.finished());

    let events = sink.take();
    assert_eq!(events.len(), 2);
    match &events[0] {
        MapiEvent::Data { data, .. } => assert_eq!(data.as_slice(), b"ok"),
        other => panic!("unexpected event {:?}", other),
    }
    assert!(matches!(&events[1], MapiEvent::ShutdownRead { direction: Direction::Upstream, .. }));
}

#[test]
fn failures_name_what_was_being_done() {
    let mut sink = EventSink::new();
    let mut copying = Copying::new(false, false);
    step(&mut copying, &mut sink, PumpInput::Start).unwrap();
    let e = step(&mut copying, &mut sink, PumpInput::Read(Err(io_error(IoErrorKind::Other, "reset")))).unwrap_err();
    assert_eq!(
        e,
        Error::Forward { doing: "reading", side: "client", err: io_error(IoErrorKind::Other, "reset") }
    );
    assert_eq!(e.message(), b"forwarding failed when reading client: reset".to_vec());

    let mut copying = Copying::new(false, true);
    step(&mut copying, &mut sink, PumpInput::Start).unwrap();
    let e = step(&mut copying, &mut sink, PumpInput::Wrote(Err(io_error(IoErrorKind::Other, "broken pipe")))).unwrap_err();
    assert_eq!(e.message(), b"forwarding failed when writing server: broken pipe".to_vec());
}

#[test]
fn full_buffer_is_not_read_into() {
    let mut sink = EventSink::new();
    let mut copying = Copying::new(false, false);
    let r = step(&mut copying, &mut sink, PumpInput::Start).unwrap();
    assert_eq!(r, request(Next::Read { max: 8192 }));
    let block = vec![7u8; 8192];
    step(&mut copying, &mut sink, PumpInput::Read(Ok(&block))).unwrap();
    step(&mut copying, &mut sink, PumpInput::Start).unwrap();
    let r = step(&mut copying, &mut sink, PumpInput::Wrote(Ok(8000))).unwrap();
    assert_eq!(r, request(Next::Finished { progress: true }));
    assert_eq!(copying.read_space(), 0);
    assert_eq!(copying.unsent().len(), 192);
    assert!(!copying.accepts(&PumpInput::Wrote(Ok(1))));
    assert!(!copying.accepts(&PumpInput::Read(Ok(b"x"))));
    assert!(copying.accepts(&PumpInput::Start));
}

#[test]
fn what_comes_in_goes_out() {
    // bytes arrive in pieces, are accepted in other pieces, and arrive whole
    let stream: Vec<u8> = (0..200u8).collect();
    let mut sink = EventSink::new();
    let mut copying = Copying::new(false, false);
    let mut delivered: Vec<u8> = Vec::new();
    let mut fed = 0;
    let mut round = 0;
    while delivered.len() < stream.len() {
        round += 1;
        let mut r = step(&mut copying, &mut sink, PumpInput::Start).unwrap();
        loop {
            r = match r.next {
                Next::Write => {
                    let n = copying.unsent().len().min(1 + round % 5);
                    delivered.extend_from_slice(&copying.unsent()[..n]);
                    step(&mut copying, &mut sink, PumpInput::Wrote(Ok(n))).unwrap()
                }
                Next::Read { max } => {
                    let n = (stream.len() - fed).min(7).min(max);
                    if n == 0 {
                        step(&mut copying, &mut sink, PumpInput::Read(Err(io_error(IoErrorKind::WouldBlock, "")))).unwrap()
                    } else {
                        fed += n;
                        step(&mut copying, &mut sink, PumpInput::Read(Ok(&stream[fed - n..fed]))).unwrap()
                    }
                }
                Next::Finished { .. } => break,
            };
        }
    }
    assert_eq!(delivered, stream);
    let mut reported: Vec<u8> = Vec::new();
    for event in sink.take() {
        match event {
            MapiEvent::Data { data, .. } => reported.extend_from_slice(data.as_slice()),
            other => panic!("unexpected event {:?}", other),
        }
    }
    assert_eq!(reported, stream);
}
