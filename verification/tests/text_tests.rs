use mapiproxy::event::{ConnectionId, Direction, Payload};
use mapiproxy::network::{Addr, IpAddress, TcpAddr};
use mapiproxy::text::{digit, push_decimal, push_hex};

fn text_of(addr: &Addr) -> String {
    String::from_utf8(addr.text()).unwrap()
}

#[test]
fn decimal_and_hex_digits() {
    let mut out = b"n=".to_vec();
    push_decimal(&mut out, 0);
    out.push(b' ');
    push_decimal(&mut out, 8190);
    out.push(b' ');
    push_decimal(&mut out, usize::MAX);
    assert_eq!(out, format!("n=0 8190 {}", usize::MAX).into_bytes());

    let mut out = Vec::new();
    push_hex(&mut out, 0);
    out.push(b' ');
    push_hex(&mut out, 0xbeef);
    out.push(b' ');
    push_hex(&mut out, 0x10);
    assert_eq!(out, b"0 beef 10".to_vec());
    assert_eq!(digit(9), b'9');
    assert_eq!(digit(10), b'a');
    assert_eq!(digit(15), b'f');
}

#[test]
fn connection_id_is_shown_with_a_hash() {
    assert_eq!(ConnectionId::new(10).text(), b"#10".to_vec());
    assert_eq!(ConnectionId::new(0).text(), b"#0".to_vec());
    assert_eq!(ConnectionId::new(10), ConnectionId(10));
}

#[test]
fn directions_name_their_sides() {
    assert_eq!(Direction::Upstream.sender(), "client");
    assert_eq!(Direction::Upstream.receiver(), "server");
    assert_eq!(Direction::Downstream.sender(), "server");
    assert_eq!(Direction::Downstream.receiver(), "client");
    assert_eq!(Direction::Upstream.label(), "UPSTREAM");
    assert_eq!(Direction::Downstream.label(), "DOWNSTREAM");
    assert_eq!(Direction::Upstream.opposite(), Direction::Downstream);
    assert_eq!(Direction::Downstream.opposite(), Direction::Upstream);
    assert_eq!(Direction::CLIENT, "client");
    assert_eq!(Direction::SERVER, "server");
}

#[test]
fn payload_holds_a_copy_of_the_bytes() {
    let short = Payload::new(b"hi");
    assert_eq!(short.as_slice(), b"hi");
    assert_eq!(short.to_vec(), b"hi".to_vec());
    let long = Payload::new(b"longer than eight bytes");
    assert_eq!(long.to_vec(), b"longer than eight bytes".to_vec());
    assert_eq!(Payload::new(b"").to_vec(), Vec::<u8>::new());
}

#[test]
fn ipv4_addresses_are_shown_in_dotted_decimal() {
    let addr = Addr::Tcp(TcpAddr { ip: IpAddress::V4(0x7f00_0001), port: 50000 });
    assert_eq!(text_of(&addr), "127.0.0.1:50000");
    assert!(addr.is_tcp());
    assert!(!addr.is_unix());
    let addr = Addr::Tcp(TcpAddr { ip: IpAddress::V4(0xc0a8_01ff), port: 0 });
    assert_eq!(text_of(&addr), "192.168.1.255:0");
    let addr = Addr::Tcp(TcpAddr { ip: IpAddress::V4(0), port: 65535 });
    assert_eq!(text_of(&addr), "0.0.0.0:65535");
}

#[test]
fn ipv6_addresses_are_shown_short() {
    let show = |ip: u128| text_of(&Addr::Tcp(TcpAddr { ip: IpAddress::V6(ip), port: 9999 }));
    assert_eq!(show(1), "[::1]:9999");
    assert_eq!(show(0), "[::]:9999");
    assert_eq!(show(0x2001_0db8_0000_0000_0000_0000_0000_0001), "[2001:db8::1]:9999");
    assert_eq!(show(0x2001_0db8_0000_0001_0000_0000_0000_0001), "[2001:db8:0:1::1]:9999");
    assert_eq!(show(0x0001_0000_0000_0002_0000_0000_0003_0004), "[1::2:0:0:3:4]:9999");
    assert_eq!(show(0x0001_0002_0003_0004_0005_0006_0007_0008), "[1:2:3:4:5:6:7:8]:9999");
    assert_eq!(show(0x0001_0000_0003_0004_0005_0006_0007_0008), "[1:0:3:4:5:6:7:8]:9999");
    assert_eq!(show(0xfe80_0000_0000_0000_0000_0000_0000_0000), "[fe80::]:9999");
    assert_eq!(show(0x0000_0000_0000_0000_0000_ffff_7f00_0001), "[::ffff:127.0.0.1]:9999");
}

#[test]
fn unix_addresses_are_shown_as_their_path() {
    let addr = Addr::Unix(b"/tmp/.s.monetdb.50000".to_vec());
    assert_eq!(text_of(&addr), "/tmp/.s.monetdb.50000");
    assert!(addr.is_unix());
    assert!(!addr.is_tcp());
    assert_eq!(addr.duplicate(), addr);
    assert_eq!(text_of(&Addr::Unix(b"<UNNAMED>".to_vec())), "<UNNAMED>");
}
