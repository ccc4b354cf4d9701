use mapiproxy::accumulator::{Accumulator, Level};
use mapiproxy::error::{Error, IoError, IoErrorKind};
use mapiproxy::event::{ConnectionId, Direction, MapiEvent, Payload};
use mapiproxy::mapi::State;
use mapiproxy::network::{Addr, IpAddress, TcpAddr};
use mapiproxy::render::Renderer;

const ID: ConnectionId = ConnectionId(10);

fn tcp(last: u32, port: u16) -> Addr {
    Addr::Tcp(TcpAddr { ip: IpAddress::V4(0x7f00_0000 + last), port })
}

fn incoming(peer: Addr) -> MapiEvent {
    MapiEvent::Incoming { id: ID, local: tcp(1, 50000), peer }
}

fn data(direction: Direction, bytes: &[u8]) -> MapiEvent {
    MapiEvent::Data { id: ID, direction, data: Payload::new(bytes) }
}

fn handle(state: &mut State, renderer: &mut Renderer, event: MapiEvent) -> String {
    assert!(state.accepts(&event));
    state.handle(&event, renderer);
    String::from_utf8(renderer.take_output()).unwrap()
}

#[test]
fn events_are_shown_as_messages() {
    let mut state = State::new(Level::Messages, false);
    let mut r = Renderer::new(false);
    assert_eq!(
        handle(&mut state, &mut r, MapiEvent::BoundPort(tcp(1, 50000))),
        "\u{2023} LISTEN on port 127.0.0.1:50000\n"
    );
    assert_eq!(
        handle(&mut state, &mut r, incoming(tcp(2, 40000))),
        "\u{2023} #10 INCOMING on 127.0.0.1:50000 from 127.0.0.2:40000\n"
    );
    assert_eq!(
        handle(&mut state, &mut r, MapiEvent::Connecting { id: ID, remote: Addr::Unix(b"/tmp/sock".to_vec()) }),
        "\u{2023} #10 CONNECTING to /tmp/sock\n"
    );
    let refused = IoError { kind: IoErrorKind::Other, message: b"Connection refused".to_vec() };
    assert_eq!(
        handle(
            &mut state,
            &mut r,
            MapiEvent::ConnectFailed { id: ID, remote: b"[::1]:9999".to_vec(), error: refused.duplicate(), immediately: false }
        ),
        "\u{2023} #10 CONNECT FAILED: [::1]:9999: Connection refused\n"
    );
    assert_eq!(
        handle(
            &mut state,
            &mut r,
            MapiEvent::ConnectFailed { id: ID, remote: b"x:1".to_vec(), error: refused, immediately: true }
        ),
        "\u{2023} #10 CONNECT FAILED immediately: x:1: Connection refused\n"
    );
    assert_eq!(
        handle(&mut state, &mut r, MapiEvent::Connected { id: ID, peer: tcp(3, 50001) }),
        "\u{2023} #10 CONNECTED\n"
    );
    assert_eq!(
        handle(&mut state, &mut r, MapiEvent::ShutdownRead { id: ID, direction: Direction::Downstream }),
        "\u{2023} #10 DOWNSTREAM server stopped sending\n"
    );
    assert_eq!(
        handle(&mut state, &mut r, MapiEvent::ShutdownWrite { id: ID, direction: Direction::Upstream, discard: 17 }),
        "\u{2023} #10 UPSTREAM server has stopped receiving data, discarding 17 bytes\n"
    );
    assert_eq!(handle(&mut state, &mut r, MapiEvent::End { id: ID }), "\u{2023} #10 ENDED\n");
    assert!(!state.accepts(&MapiEvent::End { id: ID }));
    assert!(!state.accepts(&data(Direction::Upstream, b"x")));
    assert!(state.accepts(&incoming(tcp(2, 40000))));
    handle(&mut state, &mut r, incoming(tcp(2, 40000)));
    assert!(!state.accepts(&incoming(tcp(2, 40000))));
    assert_eq!(
        handle(&mut state, &mut r, MapiEvent::Aborted { id: ID, error: Error::Connect }),
        "\u{2023} #10 ABORTED: None of the servers responded\n"
    );
    assert!(!state.accepts(&MapiEvent::Aborted { id: ID, error: Error::Connect }));
}

#[test]
fn two_blocks_are_one_message() {
    let mut state = State::new(Level::Messages, false);
    let mut r = Renderer::new(false);
    handle(&mut state, &mut r, incoming(tcp(2, 40000)));
    assert_eq!(
        handle(&mut state, &mut r, data(Direction::Upstream, &[0x02, 0x00, b'h', 0x03, 0x00, b'i'])),
        "\u{250c} #10 UPSTREAM text, message, 2 bytes\n\u{2502}hi\n\u{2514}\n"
    );
}

#[test]
fn two_blocks_are_shown_one_by_one() {
    let mut state = State::new(Level::Blocks, false);
    let mut r = Renderer::new(false);
    handle(&mut state, &mut r, incoming(tcp(2, 40000)));
    assert_eq!(
        handle(&mut state, &mut r, data(Direction::Downstream, &[0x02, 0x00, b'h', 0x03, 0x00, b'i'])),
        "\u{250c} #10 DOWNSTREAM text, block, 1 bytes\n\u{2502}h\n\u{2514}\n\u{250c} #10 DOWNSTREAM text, block, 1 bytes\n\u{2502}i\n\u{2514}\n"
    );
}

#[test]
fn message_may_arrive_in_pieces() {
    let mut state = State::new(Level::Messages, false);
    let mut r = Renderer::new(false);
    handle(&mut state, &mut r, incoming(tcp(2, 40000)));
    assert_eq!(handle(&mut state, &mut r, data(Direction::Upstream, &[0x0a])), "");
    assert_eq!(handle(&mut state, &mut r, data(Direction::Upstream, &[0x00, b's', b'e'])), "");
    assert_eq!(handle(&mut state, &mut r, data(Direction::Upstream, b"lec")), "");
    assert_eq!(handle(&mut state, &mut r, data(Direction::Upstream, &[0x0d, 0x00, b't', b' ', b'4', b'2'])), "");
    // the other direction is not affected
    assert_eq!(
        handle(&mut state, &mut r, data(Direction::Downstream, &[0x03, 0x00, b'!'])),
        "\u{250c} #10 DOWNSTREAM text, message, 1 bytes\n\u{2502}!\n\u{2514}\n"
    );
    assert_eq!(
        handle(&mut state, &mut r, data(Direction::Upstream, b";\n")),
        "\u{250c} #10 UPSTREAM text, message, 11 bytes\n\u{2502}select 42;\u{21b5}\n\u{2514}\n"
    );
}

#[test]
fn unix_client_sentinel_is_not_part_of_a_block() {
    let mut state = State::new(Level::Blocks, false);
    let mut r = Renderer::new(false);
    handle(&mut state, &mut r, incoming(Addr::Unix(b"<UNNAMED>".to_vec())));
    assert_eq!(
        handle(&mut state, &mut r, data(Direction::Upstream, &[b'0', 0x02, 0x00, b'x'])),
        "\u{250c} #10 UPSTREAM text, block, 1 bytes\n\u{2502}x\n\u{2514}\n"
    );
    // downstream there is no sentinel
    assert_eq!(
        handle(&mut state, &mut r, data(Direction::Downstream, &[0x02, 0x00, b'y'])),
        "\u{250c} #10 DOWNSTREAM text, block, 1 bytes\n\u{2502}y\n\u{2514}\n"
    );
}

#[test]
fn frames_that_are_not_text_are_hex_dumps() {
    let mut state = State::new(Level::Blocks, false);
    let mut r = Renderer::new(false);
    handle(&mut state, &mut r, incoming(tcp(2, 40000)));
    // not valid UTF-8
    assert_eq!(
        handle(&mut state, &mut r, data(Direction::Upstream, &[0x05, 0x00, 0xc3, 0x28])),
        "\u{250c} #10 UPSTREAM binary, block, 2 bytes\n\u{2502} c3 28 __ __  __ __ __ __   __ __ __ __  __ __ __ __     \u{2592}(\n\u{2514}\n"
    );
    // valid UTF-8 of more than one byte
    assert_eq!(
        handle(&mut state, &mut r, data(Direction::Upstream, &[0x05, 0x00, 0xc3, 0xa9])),
        "\u{250c} #10 UPSTREAM text, block, 2 bytes\n\u{2502}\u{e9}\n\u{2514}\n"
    );
    // a control character
    assert_eq!(
        handle(&mut state, &mut r, data(Direction::Upstream, &[0x05, 0x00, b'a', 0x00])),
        "\u{250c} #10 UPSTREAM binary, block, 2 bytes\n\u{2502} 61 00 __ __  __ __ __ __   __ __ __ __  __ __ __ __     a\u{2591}\n\u{2514}\n"
    );
    // tabs and newlines are text
    assert_eq!(
        handle(&mut state, &mut r, data(Direction::Upstream, &[0x09, 0x00, b'a', b'\t', b'b', b'\n'])),
        "\u{250c} #10 UPSTREAM text, block, 4 bytes\n\u{2502}a\u{2192}b\u{21b5}\n\u{2514}\n"
    );

    let mut state = State::new(Level::Messages, true);
    handle(&mut state, &mut r, incoming(tcp(2, 40000)));
    assert_eq!(
        handle(&mut state, &mut r, data(Direction::Upstream, &[0x05, 0x00, b'h', b'i'])),
        "\u{250c} #10 UPSTREAM binary, message, 2 bytes\n\u{2502} 68 69 __ __  __ __ __ __   __ __ __ __  __ __ __ __     hi\n\u{2514}\n"
    );
}

#[test]
fn raw_level_shows_bytes_as_they_come() {
    let mut state = State::new(Level::Raw, false);
    let mut r = Renderer::new(false);
    handle(&mut state, &mut r, incoming(tcp(2, 40000)));
    assert_eq!(
        handle(&mut state, &mut r, data(Direction::Upstream, &[0x02, 0x00, b'h', b'i'])),
        "\u{250c} #10 UPSTREAM 4 bytes\n\u{2502}\u{27e8}02 00\u{27e9}68\u{27e8}69\u{27e9} __ __ __ __   __ __ __ __  __ __ __ __     \u{2592}\u{2591}hi\n\u{2514}\n"
    );
}

#[test]
fn sender_that_stops_in_mid_frame_is_noted() {
    let mut state = State::new(Level::Blocks, false);
    let mut r = Renderer::new(false);
    handle(&mut state, &mut r, incoming(tcp(2, 40000)));
    handle(&mut state, &mut r, data(Direction::Upstream, &[0x04, 0x00, b'h']));
    assert_eq!(
        handle(&mut state, &mut r, MapiEvent::ShutdownRead { id: ID, direction: Direction::Upstream }),
        "\u{2023} #10 UPSTREAM client closed the connection in the middle of a block\n\u{2023} #10 UPSTREAM client stopped sending\n"
    );
    handle(&mut state, &mut r, data(Direction::Downstream, &[0x02, 0x00, b'h']));
    assert_eq!(
        handle(&mut state, &mut r, MapiEvent::ShutdownRead { id: ID, direction: Direction::Downstream }),
        "\u{2023} #10 DOWNSTREAM server closed the connection on a block boundary but not on a message boundary\n\u{2023} #10 DOWNSTREAM server stopped sending\n"
    );
}

#[test]
fn accumulator_checks_for_incomplete_frames() {
    let mut r = Renderer::new(false);
    let mut acc = Accumulator::new(ID, Direction::Downstream, Level::Messages, false, false);
    assert_eq!(acc.check_incomplete(), Ok(()));
    acc.handle_data(&[0x03], &mut r);
    let e = acc.check_incomplete().unwrap_err();
    assert_eq!(e.kind, IoErrorKind::UnexpectedEof);
    assert_eq!(e.message, b"server closed the connection in the middle of the header block".to_vec());
    acc.handle_data(&[0x01, b'a'], &mut r);
    let e = acc.check_incomplete().unwrap_err();
    assert_eq!(
        e.message,
        b"server closed the connection in the middle of the last block of the message".to_vec()
    );
    acc.handle_data(&[0; 128], &mut r);
    assert_eq!(acc.check_incomplete(), Ok(()));
}

#[test]
fn message_is_framed_once_however_it_is_cut() {
    let stream = [0x02u8, 0x00, b'h', 0x03, 0x00, b'i'];
    let expected = "\u{250c} #10 UPSTREAM text, message, 2 bytes\n\u{2502}hi\n\u{2514}\n";
    for first in 0..=stream.len() {
        for second in first..=stream.len() {
            let mut r = Renderer::new(false);
            let mut acc = Accumulator::new(ID, Direction::Upstream, Level::Messages, false, false);
            acc.handle_frame(&mut r, &stream[..first]);
            acc.handle_frame(&mut r, &stream[first..second]);
            if second < stream.len() {
                // nothing is shown before the last byte of the message
                assert_eq!(r.take_output(), Vec::<u8>::new());
            }
            acc.handle_frame(&mut r, &stream[second..]);
            assert_eq!(String::from_utf8(r.take_output()).unwrap(), expected);
            assert_eq!(acc.check_incomplete(), Ok(()));
            // nothing is left over for the message that follows
            acc.handle_frame(&mut r, &[0x03, 0x00, b'!']);
            assert_eq!(
                String::from_utf8(r.take_output()).unwrap(),
                "\u{250c} #10 UPSTREAM text, message, 1 bytes\n\u{2502}!\n\u{2514}\n"
            );
        }
    }
}

#[test]
fn sentinel_of_unix_client_is_in_no_frame() {
    let stream = [b'0', 0x02, 0x00, b'x'];
    let expected = "\u{250c} #10 UPSTREAM text, block, 1 bytes\n\u{2502}x\n\u{2514}\n";
    for cut in 0..=stream.len() {
        let mut r = Renderer::new(false);
        let mut acc = Accumulator::new(ID, Direction::Upstream, Level::Blocks, false, true);
        acc.handle_frame(&mut r, &stream[..cut]);
        acc.handle_frame(&mut r, &stream[cut..]);
        assert_eq!(String::from_utf8(r.take_output()).unwrap(), expected);
    }
}
