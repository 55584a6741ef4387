use ddns4cf::ip::{parse_ip, parse_ipv4, parse_ipv6, ip_string, trimmed, IpAddress};

fn v4(a: u8, b: u8, c: u8, d: u8) -> IpAddress {
    IpAddress::V4 { a, b, c, d }
}

fn v6(g: [u16; 8]) -> IpAddress {
    IpAddress::V6 {
        g0: g[0],
        g1: g[1],
        g2: g[2],
        g3: g[3],
        g4: g[4],
        g5: g[5],
        g6: g[6],
        g7: g[7],
    }
}

#[test]
fn parses_dotted_quad() {
    assert_eq!(parse_ip(b"1.2.3.4"), Some(v4(1, 2, 3, 4)));
    assert_eq!(parse_ip(b"0.0.0.0"), Some(v4(0, 0, 0, 0)));
    assert_eq!(parse_ip(b"255.255.255.255"), Some(v4(255, 255, 255, 255)));
}

#[test]
fn rejects_malformed_dotted_quads() {
    assert_eq!(parse_ipv4(b"256.1.1.1"), None);
    assert_eq!(parse_ipv4(b"01.2.3.4"), None);
    assert_eq!(parse_ipv4(b"1.2.3"), None);
    assert_eq!(parse_ipv4(b"1.2.3.4.5"), None);
    assert_eq!(parse_ipv4(b"1.2.3.4 "), None);
    assert_eq!(parse_ipv4(b""), None);
    assert_eq!(parse_ipv4(b"a.b.c.d"), None);
}

#[test]
fn parses_ipv6_groups() {
    assert_eq!(
        parse_ip(b"1:2:3:4:5:6:7:8"),
        Some(v6([1, 2, 3, 4, 5, 6, 7, 8]))
    );
    assert_eq!(
        parse_ip(b"2001:db8::1"),
        Some(v6([0x2001, 0xdb8, 0, 0, 0, 0, 0, 1]))
    );
    assert_eq!(parse_ip(b"::"), Some(v6([0, 0, 0, 0, 0, 0, 0, 0])));
    assert_eq!(parse_ip(b"::1"), Some(v6([0, 0, 0, 0, 0, 0, 0, 1])));
    assert_eq!(parse_ip(b"1::"), Some(v6([1, 0, 0, 0, 0, 0, 0, 0])));
    assert_eq!(
        parse_ip(b"fe80::A:b"),
        Some(v6([0xfe80, 0, 0, 0, 0, 0, 0xa, 0xb]))
    );
}

#[test]
fn rejects_malformed_ipv6() {
    assert_eq!(parse_ipv6(b"1:2:3:4:5:6:7"), None);
    assert_eq!(parse_ipv6(b"1:2:3:4:5:6:7:8:9"), None);
    assert_eq!(parse_ipv6(b"1:2:3:4:5:6:7:8::"), None);
    assert_eq!(parse_ipv6(b":::"), None);
    assert_eq!(parse_ipv6(b"1::2::3"), None);
    assert_eq!(parse_ipv6(b"12345::"), None);
    assert_eq!(parse_ipv6(b""), None);
    assert_eq!(parse_ipv6(b"g::1"), None);
}

#[test]
fn parses_embedded_dotted_quads() {
    assert_eq!(
        parse_ip(b"::ffff:203.0.113.9"),
        Some(v6([0, 0, 0, 0, 0, 0xffff, 0xcb00, 0x7109]))
    );
    assert_eq!(
        parse_ip(b"1:2:3:4:5:6:1.2.3.4"),
        Some(v6([1, 2, 3, 4, 5, 6, 0x0102, 0x0304]))
    );
    assert_eq!(
        parse_ip(b"::1.2.3.4"),
        Some(v6([0, 0, 0, 0, 0, 0, 0x0102, 0x0304]))
    );
}

#[test]
fn rejects_malformed_embedded_quads() {
    assert_eq!(parse_ipv6(b"1.2.3.4::"), None);
    assert_eq!(parse_ipv6(b"::1.2.3.4.5"), None);
    assert_eq!(parse_ipv6(b"::ffff:1.2.3.400"), None);
    assert_eq!(parse_ipv6(b"1:2:3:4:5:6:7:1.2.3.4"), None);
    assert_eq!(parse_ipv6(b"::ffff:01.2.3.4"), None);
}

#[test]
fn renders_addresses() {
    assert_eq!(ip_string(&v4(192, 168, 0, 1)), "192.168.0.1");
    assert_eq!(
        ip_string(&v6([0x2001, 0xdb8, 0, 0, 0, 0, 0, 1])),
        "2001:db8:0:0:0:0:0:1"
    );
    assert_eq!(ip_string(&v6([0; 8])), "0:0:0:0:0:0:0:0");
}

#[test]
fn rendering_then_parsing_gives_the_address_back() {
    let samples = [
        v4(1, 2, 3, 4),
        v4(255, 0, 255, 0),
        v6([0x2001, 0xdb8, 0, 0, 0xffff, 0, 0, 1]),
        v6([0; 8]),
    ];
    for a in samples {
        assert_eq!(parse_ip(ip_string(&a).as_bytes()), Some(a));
    }
}

#[test]
fn trims_ascii_whitespace() {
    assert_eq!(trimmed(b"  1.2.3.4\r\n"), b"1.2.3.4");
    assert_eq!(trimmed(b"\t\n \x0b\x0c"), b"");
    assert_eq!(trimmed(b"x"), b"x");
}

#[test]
fn address_predicates() {
    assert!(v4(127, 0, 0, 1).is_loopback());
    assert!(!v4(127, 0, 0, 2).is_loopback());
    assert!(v6([0, 0, 0, 0, 0, 0, 0, 1]).is_loopback());
    assert!(v4(0, 0, 0, 0).is_unspecified());
    assert!(v6([0; 8]).is_unspecified());
    assert!(v4(224, 0, 0, 5).is_multicast());
    assert!(!v4(223, 0, 0, 5).is_multicast());
    assert!(v6([0xff02, 0, 0, 0, 0, 0, 0, 1]).is_multicast());
    assert!(v6([0xfe80, 0, 0, 0, 0, 0, 0, 1]).is_unicast_link_local());
    assert!(!v6([0xfec0, 0, 0, 0, 0, 0, 0, 1]).is_unicast_link_local());
    assert!(v6([0xfd00, 0, 0, 0, 0, 0, 0, 1]).is_unique_local());
    assert!(!v6([0xfe00, 0, 0, 0, 0, 0, 0, 1]).is_unique_local());
    assert!(v6([1, 0, 0, 0, 0, 0, 0, 1]).is_ipv6());
    assert!(!v4(1, 2, 3, 4).is_ipv6());
}
