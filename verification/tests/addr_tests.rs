use tcp_client::addr::{parse_ip, IpAddress};

#[test]
fn ipv4_loopback() {
    assert_eq!(parse_ip("127.0.0.1"), Some(IpAddress::V4(127, 0, 0, 1)));
}

#[test]
fn ipv4_bounds() {
    assert_eq!(parse_ip("0.0.0.0"), Some(IpAddress::V4(0, 0, 0, 0)));
    assert_eq!(
        parse_ip("255.255.255.255"),
        Some(IpAddress::V4(255, 255, 255, 255))
    );
    assert_eq!(parse_ip("256.1.1.1"), None);
    assert_eq!(parse_ip("1.2.3.256"), None);
    assert_eq!(parse_ip("1.2.3.999"), None);
}

#[test]
fn ipv4_leading_zeros_rejected() {
    assert_eq!(parse_ip("01.2.3.4"), None);
    assert_eq!(parse_ip("1.02.3.4"), None);
    assert_eq!(parse_ip("1.2.3.00"), None);
    assert_eq!(parse_ip("0.0.0.0"), Some(IpAddress::V4(0, 0, 0, 0)));
}

#[test]
fn ipv4_shape_rejected() {
    assert_eq!(parse_ip(""), None);
    assert_eq!(parse_ip("1.2.3"), None);
    assert_eq!(parse_ip("1.2.3.4.5"), None);
    assert_eq!(parse_ip("1..2.3"), None);
    assert_eq!(parse_ip("1.2.3.4."), None);
    assert_eq!(parse_ip(".1.2.3.4"), None);
    assert_eq!(parse_ip("a.b.c.d"), None);
    assert_eq!(parse_ip("1.2.3.4 "), None);
}

#[test]
fn ipv6_all_zero() {
    assert_eq!(parse_ip("::"), Some(IpAddress::V6(0, 0, 0, 0, 0, 0, 0, 0)));
}

#[test]
fn ipv6_loopback() {
    assert_eq!(parse_ip("::1"), Some(IpAddress::V6(0, 0, 0, 0, 0, 0, 0, 1)));
}

#[test]
fn ipv6_full_form() {
    assert_eq!(
        parse_ip("1:2:3:4:5:6:7:8"),
        Some(IpAddress::V6(1, 2, 3, 4, 5, 6, 7, 8))
    );
    assert_eq!(
        parse_ip("2001:db8:0:0:0:0:2:1"),
        Some(IpAddress::V6(0x2001, 0xdb8, 0, 0, 0, 0, 2, 1))
    );
}

#[test]
fn ipv6_compressed() {
    assert_eq!(
        parse_ip("2001:db8::2:1"),
        Some(IpAddress::V6(0x2001, 0xdb8, 0, 0, 0, 0, 2, 1))
    );
    assert_eq!(parse_ip("1::8"), Some(IpAddress::V6(1, 0, 0, 0, 0, 0, 0, 8)));
    assert_eq!(
        parse_ip("fe80::"),
        Some(IpAddress::V6(0xfe80, 0, 0, 0, 0, 0, 0, 0))
    );
    assert_eq!(
        parse_ip("1:2:3:4:5:6:7::"),
        Some(IpAddress::V6(1, 2, 3, 4, 5, 6, 7, 0))
    );
}

#[test]
fn ipv6_embedded_ipv4() {
    assert_eq!(
        parse_ip("::ffff:192.0.2.128"),
        Some(IpAddress::V6(0, 0, 0, 0, 0, 0xffff, 0xc000, 0x0280))
    );
    assert_eq!(
        parse_ip("64:ff9b::1.2.3.4"),
        Some(IpAddress::V6(0x64, 0xff9b, 0, 0, 0, 0, 0x0102, 0x0304))
    );
    assert_eq!(
        parse_ip("1:2:3:4:5:6:1.2.3.4"),
        Some(IpAddress::V6(1, 2, 3, 4, 5, 6, 0x0102, 0x0304))
    );
}

#[test]
fn ipv6_hex_case_insensitive() {
    assert_eq!(
        parse_ip("ABcd::ef01"),
        Some(IpAddress::V6(0xabcd, 0, 0, 0, 0, 0, 0, 0xef01))
    );
}

#[test]
fn non_ascii_digits_rejected() {
    // Arabic-Indic one and a fullwidth one are digits to Unicode, but an
    // IP literal takes ASCII digits only.
    assert_eq!(parse_ip("\u{0661}.2.3.4"), None);
    assert_eq!(parse_ip("\u{ff11}::"), None);
}

#[test]
fn ipv6_invalid_rejected() {
    assert_eq!(parse_ip("1::2::3"), None);
    assert_eq!(parse_ip(":::"), None);
    assert_eq!(parse_ip(":"), None);
    assert_eq!(parse_ip("::1:2:3:4:5:6:7:8"), None);
    assert_eq!(parse_ip("1:2:3:4:5:6:7:8:9"), None);
    assert_eq!(parse_ip("1:2:3:4:5:6:7:8::"), None);
    assert_eq!(parse_ip("12345::"), None);
    assert_eq!(parse_ip("1:2:3:4:5:6:7"), None);
    assert_eq!(parse_ip("g::"), None);
    assert_eq!(parse_ip(":1:2:3:4:5:6:7"), None);
    assert_eq!(parse_ip("1:2:3:4:5:6:7:"), None);
    assert_eq!(parse_ip("1.2.3.4::5"), None);
    assert_eq!(parse_ip("1:2:3:4:5:1.2.3.4:6"), None);
    assert_eq!(parse_ip("::ffff:1.2.3.400"), None);
}
