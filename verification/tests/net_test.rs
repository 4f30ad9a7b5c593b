use noc_lens::net::{is_blocked, is_loopback, parse_ipv4, Ipv4};

fn ip(a: u8, b: u8, c: u8, d: u8) -> Ipv4 {
    Ipv4 { a, b, c, d }
}

#[test]
fn reads_dotted_quads() {
    assert_eq!(parse_ipv4("192.168.1.10"), Some(ip(192, 168, 1, 10)));
    assert_eq!(parse_ipv4("0.0.0.0"), Some(ip(0, 0, 0, 0)));
    assert_eq!(parse_ipv4("255.255.255.255"), Some(ip(255, 255, 255, 255)));
    for bad in ["", "1.2.3", "1.2.3.4.5", "256.1.1.1", "01.2.3.4", "1.2.3.+4", "1..3.4", "a.b.c.d", " 1.2.3.4", "1.2.3.4 ", "1234.1.1.1", "[::1]", "localhost"] {
        assert_eq!(parse_ipv4(bad), None, "{bad}");
    }
}

#[test]
fn classifies_addresses() {
    assert!(is_loopback(&ip(127, 0, 0, 1)));
    assert!(is_loopback(&ip(127, 9, 9, 9)));
    assert!(!is_loopback(&ip(128, 0, 0, 1)));
    for blocked in [ip(10, 1, 2, 3), ip(172, 16, 0, 1), ip(172, 31, 255, 255), ip(192, 168, 0, 1), ip(169, 254, 169, 254), ip(0, 0, 0, 0), ip(224, 0, 0, 1), ip(239, 255, 255, 255)] {
        assert!(is_blocked(&blocked), "{:?}", blocked);
    }
    for open in [ip(8, 8, 8, 8), ip(172, 32, 0, 1), ip(172, 15, 0, 1), ip(127, 0, 0, 1), ip(240, 0, 0, 1), ip(0, 0, 0, 1), ip(192, 169, 0, 1)] {
        assert!(!is_blocked(&open), "{:?}", open);
    }
}
