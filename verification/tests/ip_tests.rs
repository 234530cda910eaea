use dyndns::ip::{dns_type, IpAddress};

#[test]
fn dns_type_of_v4_is_a() {
    assert_eq!(dns_type(&IpAddress::V4(203, 0, 113, 7)), "A");
    assert_eq!(dns_type(&IpAddress::V4(0, 0, 0, 0)), "A");
}

#[test]
fn dns_type_of_v6_is_aaaa() {
    assert_eq!(dns_type(&IpAddress::V6(0x2001, 0xdb8, 0, 0, 0, 0, 0, 1)), "AAAA");
    assert_eq!(dns_type(&IpAddress::V6(0, 0, 0, 0, 0, 0, 0, 1)), "AAAA");
}

#[test]
fn v4_text_is_dotted_decimal() {
    assert_eq!(IpAddress::V4(203, 0, 113, 7).to_text(), "203.0.113.7");
    assert_eq!(IpAddress::V4(0, 0, 0, 0).to_text(), "0.0.0.0");
    assert_eq!(IpAddress::V4(255, 255, 255, 255).to_text(), "255.255.255.255");
    assert_eq!(IpAddress::V4(10, 20, 30, 40).to_text(), "10.20.30.40");
}

#[test]
fn v6_text_compresses_longest_zero_run() {
    assert_eq!(IpAddress::V6(0x2001, 0xdb8, 0, 0, 0, 0, 0, 1).to_text(), "2001:db8::1");
    assert_eq!(IpAddress::V6(1, 0, 0, 2, 0, 0, 0, 3).to_text(), "1:0:0:2::3");
}

#[test]
fn v6_text_ties_go_to_the_leftmost_run() {
    assert_eq!(IpAddress::V6(1, 0, 0, 2, 0, 0, 3, 4).to_text(), "1::2:0:0:3:4");
}

#[test]
fn v6_text_leaves_single_zero_group_alone() {
    assert_eq!(IpAddress::V6(1, 0, 2, 3, 4, 5, 6, 7).to_text(), "1:0:2:3:4:5:6:7");
}

#[test]
fn v6_text_unspecified_and_loopback() {
    assert_eq!(IpAddress::V6(0, 0, 0, 0, 0, 0, 0, 0).to_text(), "::");
    assert_eq!(IpAddress::V6(0, 0, 0, 0, 0, 0, 0, 1).to_text(), "::1");
}

#[test]
fn v6_text_ipv4_mapped() {
    assert_eq!(
        IpAddress::V6(0, 0, 0, 0, 0, 0xffff, 0x0102, 0x0304).to_text(),
        "::ffff:1.2.3.4"
    );
    assert_eq!(
        IpAddress::V6(0, 0, 0, 0, 0, 0xffff, 0xc000, 0x0280).to_text(),
        "::ffff:192.0.2.128"
    );
}

#[test]
fn v6_text_uses_lowercase_hex_without_leading_zeros() {
    assert_eq!(
        IpAddress::V6(0xfe80, 0, 0, 0, 0x204, 0x61ff, 0xfe9d, 0xf156).to_text(),
        "fe80::204:61ff:fe9d:f156"
    );
    assert_eq!(
        IpAddress::V6(0xabcd, 0xef01, 0x2345, 0x6789, 0xabcd, 0xef01, 0x2345, 0x6789).to_text(),
        "abcd:ef01:2345:6789:abcd:ef01:2345:6789"
    );
}
