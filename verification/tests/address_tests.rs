use mapiproxy::address::{MonetAddr, TcpLookup};
use mapiproxy::error::IoErrorKind;
use mapiproxy::network::{Addr, IpAddress, TcpAddr};

fn parse(text: &str) -> Option<MonetAddr> {
    MonetAddr::parse(text.as_bytes())
}

#[test]
fn anything_with_a_slash_is_a_path() {
    assert_eq!(parse("/tmp/.s.monetdb.50000"), Some(MonetAddr::Unix(b"/tmp/.s.monetdb.50000".to_vec())));
    assert_eq!(parse("a/b:80"), Some(MonetAddr::Unix(b"a/b:80".to_vec())));
    assert_eq!(parse("C:\\sock"), Some(MonetAddr::Unix(b"C:\\sock".to_vec())));
    assert_eq!(parse("/"), Some(MonetAddr::Unix(b"/".to_vec())));
}

#[test]
fn a_number_is_a_port() {
    assert_eq!(parse("50000"), Some(MonetAddr::PortOnly(50000)));
    assert_eq!(parse("0"), Some(MonetAddr::PortOnly(0)));
    assert_eq!(parse("65535"), Some(MonetAddr::PortOnly(65535)));
    assert_eq!(parse("00080"), Some(MonetAddr::PortOnly(80)));
    assert_eq!(parse("+80"), Some(MonetAddr::PortOnly(80)));
    assert_eq!(parse("65536"), None);
    assert_eq!(parse("-1"), None);
    assert_eq!(parse("+"), None);
    assert_eq!(parse(""), None);
    assert_eq!(parse("99999999999999999999999999"), None);
}

#[test]
fn host_and_port() {
    assert_eq!(
        parse("localhost:50000"),
        Some(MonetAddr::Dns { host: b"localhost".to_vec(), port: 50000 })
    );
    assert_eq!(
        parse("db-1.example.com:1"),
        Some(MonetAddr::Dns { host: b"db-1.example.com".to_vec(), port: 1 })
    );
    assert_eq!(
        parse("127.0.0.1:50000"),
        Some(MonetAddr::Ip { ip: IpAddress::V4(0x7f00_0001), port: 50000 })
    );
    assert_eq!(
        parse("255.255.255.255:65535"),
        Some(MonetAddr::Ip { ip: IpAddress::V4(0xffff_ffff), port: 65535 })
    );
    assert_eq!(parse("[::1]:9999"), Some(MonetAddr::Ip { ip: IpAddress::V6(1), port: 9999 }));
    assert_eq!(parse("[::]:1"), Some(MonetAddr::Ip { ip: IpAddress::V6(0), port: 1 }));
    assert_eq!(
        parse("[2001:DB8::7:8]:80"),
        Some(MonetAddr::Ip {
            ip: IpAddress::V6(0x2001_0db8_0000_0000_0000_0000_0007_0008),
            port: 80
        })
    );
    assert_eq!(
        parse("[1:2:3:4:5:6:7:8]:80"),
        Some(MonetAddr::Ip {
            ip: IpAddress::V6(0x0001_0002_0003_0004_0005_0006_0007_0008),
            port: 80
        })
    );
    assert_eq!(
        parse("[1:2:3:4:5:6:7::]:80"),
        Some(MonetAddr::Ip {
            ip: IpAddress::V6(0x0001_0002_0003_0004_0005_0006_0007_0000),
            port: 80
        })
    );
}

#[test]
fn what_is_not_an_address() {
    assert_eq!(parse("localhost"), None);
    assert_eq!(parse("localhost:"), None);
    assert_eq!(parse(":50000"), None);
    assert_eq!(parse("localhost:65536"), None);
    assert_eq!(parse("localhost:+80"), None);
    assert_eq!(parse("local host:80"), None);
    assert_eq!(parse("-host:80"), None);
    assert_eq!(parse(".host:80"), None);
    assert_eq!(parse("::1:80"), None);
    assert_eq!(parse("[::1]"), None);
    assert_eq!(parse("[1:2:3]:80"), None);
    assert_eq!(parse("[1:2:3:4:5:6:7:8:9]:80"), None);
    assert_eq!(parse("[1:2:3:4:5:6:7:8::]:80"), None);
    assert_eq!(parse("[1::2::3]:80"), None);
    assert_eq!(parse("[12345::]:80"), None);
    assert_eq!(parse("[:::1]:80"), None);
    assert_eq!(parse("[::g]:80"), None);
    assert_eq!(parse("[]:80"), None);
    assert_eq!(parse("h\u{f6}st:80"), None);
}

#[test]
fn hosts_that_look_like_numbers() {
    assert_eq!(parse("1.2.3.4:5"), Some(MonetAddr::Ip { ip: IpAddress::V4(0x0102_0304), port: 5 }));
    assert_eq!(parse("0.0.0.0:5"), Some(MonetAddr::Ip { ip: IpAddress::V4(0), port: 5 }));
    // four runs of digits are an address in dotted decimal notation or nothing
    assert_eq!(parse("256.1.1.1:5"), None);
    assert_eq!(parse("01.2.3.4:5"), None);
    assert_eq!(parse("1.2.3.1234:5"), None);
    // any other number of runs makes a host name
    assert_eq!(parse("1.2.3:5"), Some(MonetAddr::Dns { host: b"1.2.3".to_vec(), port: 5 }));
    assert_eq!(parse("1.2.3.4.5:5"), Some(MonetAddr::Dns { host: b"1.2.3.4.5".to_vec(), port: 5 }));
    assert_eq!(parse("1.2.3.x:5"), Some(MonetAddr::Dns { host: b"1.2.3.x".to_vec(), port: 5 }));
    assert_eq!(parse("1..3.4:5"), Some(MonetAddr::Dns { host: b"1..3.4".to_vec(), port: 5 }));
}

#[test]
fn invalid_address_is_an_error() {
    let err = MonetAddr::try_from_bytes(b"no address").unwrap_err();
    assert_eq!(err.kind, IoErrorKind::InvalidInput);
    assert_eq!(err.message, b"invalid address: no address".to_vec());
    assert_eq!(MonetAddr::try_from_bytes(b"50000"), Ok(MonetAddr::PortOnly(50000)));
}

#[test]
fn addresses_as_text() {
    for text in ["localhost:50000", "127.0.0.1:50000", "[::1]:9999", "/tmp/sock", "50000"] {
        let addr = parse(text).unwrap();
        assert_eq!(addr.text(), text.as_bytes().to_vec());
    }
    assert_eq!(parse("[0:0:0:0:0:0:0:1]:80").unwrap().text(), b"[::1]:80".to_vec());
    assert_eq!(parse("+80").unwrap().text(), b"80".to_vec());
}

#[test]
fn resolving_lists_unix_sockets_first() {
    let port = parse("50000").unwrap();
    assert_eq!(port.resolve_unix(), vec![Addr::Unix(b"/tmp/.s.monetdb.50000".to_vec())]);
    assert_eq!(
        port.resolve_tcp(),
        TcpLookup::Name { host: b"localhost".to_vec(), port: 50000 }
    );
    let v6 = Addr::Tcp(TcpAddr { ip: IpAddress::V6(1), port: 50000 });
    let v4 = Addr::Tcp(TcpAddr { ip: IpAddress::V4(0x7f00_0001), port: 50000 });
    assert_eq!(
        port.resolve(vec![v6.clone(), v4.clone()]),
        vec![Addr::Unix(b"/tmp/.s.monetdb.50000".to_vec()), v6, v4.clone()]
    );

    let path = parse("/tmp/sock").unwrap();
    assert_eq!(path.resolve_unix(), vec![Addr::Unix(b"/tmp/sock".to_vec())]);
    assert_eq!(path.resolve_tcp(), TcpLookup::Nothing);
    assert_eq!(path.resolve(vec![]), vec![Addr::Unix(b"/tmp/sock".to_vec())]);

    let ip = parse("127.0.0.1:50000").unwrap();
    assert_eq!(ip.resolve_unix(), vec![]);
    assert_eq!(
        ip.resolve_tcp(),
        TcpLookup::Address(TcpAddr { ip: IpAddress::V4(0x7f00_0001), port: 50000 })
    );
    assert_eq!(ip.resolve(vec![v4.clone()]), vec![v4]);

    let dns = parse("example.org:80").unwrap();
    assert_eq!(dns.resolve_unix(), vec![]);
    assert_eq!(dns.resolve_tcp(), TcpLookup::Name { host: b"example.org".to_vec(), port: 80 });
    assert_eq!(dns.resolve(vec![]), vec![]);
}
