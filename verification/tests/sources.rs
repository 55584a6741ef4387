use ddns4cf::config::{
    effective_bind_address, effective_fresh_interval, effective_retry_interval,
    ip_source_of_code,
};
use ddns4cf::ip::IpAddress;
use ddns4cf::source::{AddrInfo, Interface, IpIp, IpSourceKind, LocalIPv6, Standalone};

fn v4(a: u8, b: u8, c: u8, d: u8) -> IpAddress {
    IpAddress::V4 { a, b, c, d }
}

fn v6(g0: u16, g7: u16) -> IpAddress {
    IpAddress::V6 { g0, g1: 0, g2: 0, g3: 0, g4: 0, g5: 0, g6: 0, g7 }
}

#[test]
fn ipip_rejects_a_bound_ipv6_address() {
    let err = IpIp::check_bind(&Some(v6(0x2001, 1))).err().expect("IPv6 is refused");
    assert_eq!(err.message(), "IpIp \u{4e0d}\u{652f}\u{6301}\u{83b7}\u{53d6} IPv6 \u{5730}\u{5740}");
    assert!(IpIp::check_bind(&Some(v4(10, 0, 0, 1))).is_ok());
    assert!(IpIp::check_bind(&None).is_ok());
}

#[test]
fn ipip_extracts_the_page_address() {
    let page = "<html><script>\
        $('input[name=ip]').attr('value', '198.51.100.7').get(0).form.submit();\
        </script></html>";
    let found = IpIp::extract_address(page).expect("the page pattern matches");
    assert_eq!(found, v4(198, 51, 100, 7));
}

#[test]
fn ipip_fails_on_a_page_without_the_pattern() {
    let err = IpIp::extract_address("<html>nothing here</html>")
        .err()
        .expect("no pattern, no address");
    assert_eq!(err.message(), "\u{89e3}\u{6790} IpIp \u{7f51}\u{9875}\u{5931}\u{8d25}");
    let err = IpIp::extract_address(
        "$('input[name=ip]').attr('value', 'not-an-ip').get(0).form.submit();",
    )
    .err()
    .expect("a captured non-address fails");
    assert_eq!(err.message(), "\u{89e3}\u{6790} IpIp \u{7f51}\u{9875}\u{5931}\u{8d25}");
}

#[test]
fn standalone_reads_a_trimmed_body() {
    let s = Standalone::new(String::from("http://ip.example.org/"));
    assert_eq!(
        s.parse_body(b"  203.0.113.9\r\n").expect("a plain address body parses"),
        v4(203, 0, 113, 9)
    );
    let err = s.parse_body(b"<html>busy</html>").err().expect("markup is refused");
    assert_eq!(
        err.message(),
        "\u{72ec}\u{7acb}\u{670d}\u{52a1}\u{5668} http://ip.example.org/ \u{54cd}\u{5e94}\u{6d88}\u{606f}\u{5e76}\u{975e}\u{5408}\u{6cd5} IP \u{5730}\u{5740}"
    );
}

fn addr(content: IpAddress, scope: &str, dynamic: bool) -> AddrInfo {
    AddrInfo {
        local: content,
        scope: String::from(scope),
        temporary: false,
        dynamic,
        mngtmpaddr: dynamic,
        noprefixroute: dynamic,
    }
}

fn iface(name: &str, state: &str, addrs: Vec<AddrInfo>) -> Interface {
    Interface {
        ifname: String::from(name),
        operstate: String::from(state),
        addr_info: addrs,
    }
}

#[test]
fn the_first_matching_interface_is_used() {
    let source = LocalIPv6::new(None);
    let listing = vec![
        iface("lo", "DOWN", vec![addr(v6(0, 1), "host", true)]),
        iface("eth0", "UP", vec![
            addr(v6(0xfe80, 1), "link", true),
            addr(v6(0x2001, 5), "global", true),
        ]),
        iface("eth1", "UP", vec![addr(v6(0x2001, 9), "global", true)]),
    ];
    assert_eq!(source.select_linux(&listing).expect("eth0 qualifies"), v6(0x2001, 5));
}

#[test]
fn only_the_first_matching_interface_counts() {
    let source = LocalIPv6::new(None);
    let listing = vec![
        iface("eth0", "UP", vec![addr(v6(0x2001, 5), "global", false)]),
        iface("eth1", "UP", vec![addr(v6(0x2001, 9), "global", true)]),
    ];
    let err = source.select_linux(&listing).err().expect("eth0 has no qualifying address");
    assert_eq!(err.message(), "\u{672a}\u{5339}\u{914d}\u{5230}\u{5408}\u{6cd5}\u{7684} IPv6 \u{5730}\u{5740}");
}

#[test]
fn the_wanted_interface_name_filters() {
    let source = LocalIPv6::new(Some(String::from("eth1")));
    let listing = vec![
        iface("eth0", "UP", vec![addr(v6(0x2001, 5), "global", true)]),
        iface("eth1", "UP", vec![addr(v6(0x2001, 9), "global", true)]),
    ];
    assert_eq!(source.select_linux(&listing).expect("eth1 qualifies"), v6(0x2001, 9));
}

#[test]
fn windows_listing_skips_special_addresses() {
    let source = LocalIPv6::new(None);
    let listing = vec![
        String::from("::1"),
        String::from("fe80::1"),
        String::from("fd00::2"),
        String::from("not an address"),
        String::from("2001:db8::7"),
    ];
    assert_eq!(
        source.select_windows(&listing).expect("the global address qualifies"),
        IpAddress::V6 { g0: 0x2001, g1: 0xdb8, g2: 0, g3: 0, g4: 0, g5: 0, g6: 0, g7: 7 }
    );
    let none = vec![String::from("::1"), String::from("junk")];
    let err = source.select_windows(&none).err().expect("nothing qualifies");
    assert_eq!(err.message(), "\u{672a}\u{5339}\u{914d}\u{5230}\u{5408}\u{6cd5}\u{7684} IPv6 \u{5730}\u{5740}");
}

#[test]
fn source_codes_select_the_variants() {
    assert!(matches!(
        ip_source_of_code(0, None, None),
        Ok(IpSourceKind::IpIp(_))
    ));
    match ip_source_of_code(1, Some(String::from("http://ip.example.org/")), None) {
        Ok(IpSourceKind::Standalone(s)) => {
            assert_eq!(s.url, "http://ip.example.org/")
        }
        _ => panic!("code 1 with a server selects the standalone source"),
    }
    let err = ip_source_of_code(1, None, None).err().expect("code 1 needs a server");
    assert_eq!(
        err.message(),
        "IP \u{6765}\u{6e90}\u{65b9}\u{5f0f} 1(\u{72ec}\u{7acb}\u{670d}\u{52a1}\u{5668}) \u{5fc5}\u{987b}\u{6307}\u{5b9a}\u{670d}\u{52a1}\u{5668}\u{8bbf}\u{95ee}\u{5730}\u{5740}"
    );
    match ip_source_of_code(2, None, Some(String::from("eth0"))) {
        Ok(IpSourceKind::LocalIPv6(l)) => assert_eq!(l.0.as_deref(), Some("eth0")),
        _ => panic!("code 2 selects the local IPv6 source"),
    }
    assert_eq!(
        ip_source_of_code(7, None, None).err().expect("unknown codes fail").message(),
        "\u{4e0d}\u{652f}\u{6301}\u{7684} IP \u{6765}\u{6e90}\u{65b9}\u{5f0f}\u{ff1a}7"
    );
    assert_eq!(
        ip_source_of_code(-3, None, None).err().expect("negative codes fail").message(),
        "\u{4e0d}\u{652f}\u{6301}\u{7684} IP \u{6765}\u{6e90}\u{65b9}\u{5f0f}\u{ff1a}-3"
    );
}

#[test]
fn source_names_and_details() {
    assert_eq!(IpSourceKind::IpIp(IpIp::new()).name(), "IpIp");
    let standalone = IpSourceKind::Standalone(Standalone::new(String::from("http://x/")));
    assert_eq!(standalone.name(), "Standalone Server");
    assert_eq!(standalone.info().as_deref(), Some("http://x/"));
    let local = IpSourceKind::LocalIPv6(LocalIPv6::new(Some(String::from("eth0"))));
    assert_eq!(local.name(), "Local IPv6");
    assert_eq!(local.info().as_deref(), Some("\u{6307}\u{5b9a}\u{7f51}\u{5361}\u{63a5}\u{53e3} eth0"));
    assert_eq!(IpSourceKind::LocalIPv6(LocalIPv6::new(None)).info(), None);
    assert_eq!(IpSourceKind::IpIp(IpIp::new()).info(), None);
}

#[test]
fn settings_resolution() {
    assert_eq!(effective_fresh_interval(Some(60), Some(600)), 60);
    assert_eq!(effective_fresh_interval(None, Some(600)), 600);
    assert_eq!(effective_fresh_interval(None, None), 900);
    assert_eq!(effective_retry_interval(Some(15), None), 15);
    assert_eq!(effective_retry_interval(None, Some(45)), 45);
    assert_eq!(effective_retry_interval(None, None), 300);
    assert_eq!(
        effective_bind_address(Some(v4(10, 0, 0, 2)), Some(v4(10, 0, 0, 1))),
        Some(v4(10, 0, 0, 2))
    );
    assert_eq!(effective_bind_address(None, Some(v4(10, 0, 0, 1))), Some(v4(10, 0, 0, 1)));
    assert_eq!(effective_bind_address(None, None), None);
}
