//! Address-literal parsing.

use gip::Ipv4Address;
use gip::Ipv6Address;

#[test]
fn v4_basic() {
    let a = Ipv4Address::parse("203.0.113.7").unwrap();
    assert_eq!(a.bits, (203u32 << 24) | (113 << 8) | 7);
    assert_eq!(a, Ipv4Address::from_octets(203, 0, 113, 7));
    assert!(!a.is_unspecified());
}

#[test]
fn v4_zero() {
    let a = Ipv4Address::parse("0.0.0.0").unwrap();
    assert_eq!(a.bits, 0);
    assert!(a.is_unspecified());
}

#[test]
fn v4_bounds() {
    assert_eq!(
        Ipv4Address::parse("255.255.255.255").unwrap().bits,
        u32::MAX
    );
    assert!(Ipv4Address::parse("256.0.0.1").is_none());
    assert!(Ipv4Address::parse("1.2.3").is_none());
    assert!(Ipv4Address::parse("1.2.3.4.5").is_none());
    assert!(Ipv4Address::parse("").is_none());
    assert!(Ipv4Address::parse("not-an-ip").is_none());
}

#[test]
fn v4_no_leading_zeros() {
    assert!(Ipv4Address::parse("192.168.00.1").is_none());
    assert!(Ipv4Address::parse("01.2.3.4").is_none());
    assert!(Ipv4Address::parse("0.2.3.4").is_some());
}

#[test]
fn v4_no_surrounding_junk() {
    assert!(Ipv4Address::parse(" 1.2.3.4").is_none());
    assert!(Ipv4Address::parse("1.2.3.4 ").is_none());
    assert!(Ipv4Address::parse("1.2.3.4x").is_none());
}

#[test]
fn v6_basic() {
    let a = Ipv6Address::parse("::1").unwrap();
    assert_eq!(a.bits, 1);
    assert!(!a.is_unspecified());
    let z = Ipv6Address::parse("::").unwrap();
    assert_eq!(z.bits, 0);
    assert!(z.is_unspecified());
}

#[test]
fn v6_full_and_compressed() {
    let a = Ipv6Address::parse("1:2:3:4:5:6:7:8").unwrap();
    assert_eq!(
        a.bits,
        (1u128 << 112) | (2 << 96) | (3 << 80) | (4 << 64) | (5 << 48) | (6 << 32) | (7 << 16) | 8
    );
    let b = Ipv6Address::parse("2001:db8::1").unwrap();
    assert_eq!(b.bits, (0x2001u128 << 112) | (0x0db8 << 96) | 1);
    let c = Ipv6Address::parse("1:2:3:4:5:6:7::").unwrap();
    assert_eq!(
        c.bits,
        (1u128 << 112) | (2 << 96) | (3 << 80) | (4 << 64) | (5 << 48) | (6 << 32) | (7 << 16)
    );
}

#[test]
fn v6_case_and_zero_padding() {
    let a = Ipv6Address::parse("ABCD:ef01::0001").unwrap();
    assert_eq!(a.bits, (0xabcdu128 << 112) | (0xef01 << 96) | 1);
}

#[test]
fn v6_embedded_v4() {
    let a = Ipv6Address::parse("::ffff:192.168.1.1").unwrap();
    assert_eq!(a.bits, (0xffffu128 << 32) | (192u128 << 24) | (168 << 16) | (1 << 8) | 1);
    let b = Ipv6Address::parse("1:2:3:4:5:6:10.0.0.1").unwrap();
    assert_eq!(
        b.bits,
        (1u128 << 112) | (2 << 96) | (3 << 80) | (4 << 64) | (5 << 48) | (6 << 32)
            | (10u128 << 24) | 1
    );
}

#[test]
fn v6_invalid() {
    assert!(Ipv6Address::parse("1::2::3").is_none());
    assert!(Ipv6Address::parse(":::").is_none());
    assert!(Ipv6Address::parse("12345::").is_none());
    assert!(Ipv6Address::parse("1:2:3:4:5:6:7:8:9").is_none());
    assert!(Ipv6Address::parse("1:2:3:4:5:6:7:8::").is_none());
    assert!(Ipv6Address::parse("g::1").is_none());
    assert!(Ipv6Address::parse("1.2.3.4").is_none());
    assert!(Ipv6Address::parse("").is_none());
}
