use tun_rs::addr::{IpAddr, Ipv4Addr, Ipv6Addr};
use tun_rs::coerce::{ToIpv4Address, ToIpv4Netmask, ToIpv6Address, ToIpv6Netmask};
use tun_rs::error::Error;

#[test]
fn ipv4_new_and_octets() {
    let a = Ipv4Addr::new(10, 0, 0, 2);
    assert_eq!(a.to_bits(), 0x0a00_0002);
    assert_eq!(a.octets(), [10, 0, 0, 2]);
    assert_eq!(Ipv4Addr::from_bits(0xffff_ff00).octets(), [255, 255, 255, 0]);
}

#[test]
fn ipv6_new_segments() {
    let a = Ipv6Addr::new(0xfe80, 0, 0, 0, 0, 0, 0, 1);
    assert_eq!(a.to_bits(), 0xfe80_0000_0000_0000_0000_0000_0000_0001);
}

#[test]
fn prefix_to_netmask_v4() {
    assert_eq!(ToIpv4Netmask::netmask(&24u8), Ok(Ipv4Addr::new(255, 255, 255, 0)));
    assert_eq!(ToIpv4Netmask::netmask(&0u8), Ok(Ipv4Addr::new(0, 0, 0, 0)));
    assert_eq!(ToIpv4Netmask::netmask(&32u8), Ok(Ipv4Addr::new(255, 255, 255, 255)));
    assert_eq!(ToIpv4Netmask::netmask(&33u8), Err(Error::InvalidPrefixLength));
}

#[test]
fn prefix_to_netmask_v6() {
    assert_eq!(
        ToIpv6Netmask::netmask(&64u8),
        Ok(Ipv6Addr::new(0xffff, 0xffff, 0xffff, 0xffff, 0, 0, 0, 0))
    );
    assert_eq!(ToIpv6Netmask::netmask(&128u8), Ok(Ipv6Addr::from_bits(u128::MAX)));
    assert_eq!(ToIpv6Netmask::netmask(&129u8), Err(Error::InvalidPrefixLength));
}

#[test]
fn netmask_address_to_prefix() {
    assert_eq!(Ipv4Addr::new(255, 255, 255, 0).prefix(), Ok(24));
    assert_eq!(Ipv4Addr::new(255, 255, 128, 0).prefix(), Ok(17));
    assert_eq!(Ipv4Addr::new(0, 0, 0, 0).prefix(), Ok(0));
    assert_eq!(
        Ipv6Addr::new(0xffff, 0xffff, 0xffff, 0xff00, 0, 0, 0, 0).prefix(),
        Ok(56)
    );
}

#[test]
fn netmask_round_trip_every_prefix() {
    for p in 0u8..=32 {
        let m = ToIpv4Netmask::netmask(&p).unwrap();
        assert_eq!(m.to_bits().leading_ones(), p as u32);
        assert_eq!(m.to_bits().count_ones(), p as u32);
        assert_eq!(m.prefix(), Ok(p));
    }
    for p in 0u8..=128 {
        let m = ToIpv6Netmask::netmask(&p).unwrap();
        assert_eq!(m.to_bits().leading_ones(), p as u32);
        assert_eq!(m.to_bits().count_ones(), p as u32);
        assert_eq!(m.prefix(), Ok(p));
    }
}

#[test]
fn non_contiguous_masks_rejected() {
    assert_eq!(Ipv4Addr::new(255, 0, 255, 0).prefix(), Err(Error::InvalidNetmask));
    // ten bits: right count, wrong shape
    assert_eq!(Ipv4Addr::from_bits(0b1010_0000 << 24).prefix(), Err(Error::InvalidNetmask));
    assert_eq!(Ipv4Addr::from_bits(1).prefix(), Err(Error::InvalidNetmask));
    assert_eq!(
        Ipv6Addr::new(0xffff, 0, 0xffff, 0, 0, 0, 0, 0).prefix(),
        Err(Error::InvalidNetmask)
    );
    assert_eq!(ToIpv4Netmask::netmask(&Ipv4Addr::new(255, 0, 255, 0)), Err(Error::InvalidNetmask));
}

#[test]
fn family_mismatch_is_an_error() {
    let v6 = IpAddr::V6(Ipv6Addr::new(0xfe80, 0, 0, 0, 0, 0, 0, 1));
    let v4 = IpAddr::V4(Ipv4Addr::new(10, 0, 0, 2));
    assert_eq!(v6.ipv4(), Err(Error::InvalidAddress));
    assert_eq!(v4.ipv6(), Err(Error::InvalidAddress));
    assert_eq!(v4.ipv4(), Ok(Ipv4Addr::new(10, 0, 0, 2)));
    assert_eq!(v6.ipv6(), Ok(Ipv6Addr::new(0xfe80, 0, 0, 0, 0, 0, 0, 1)));
}

#[test]
fn ipv4_from_text() {
    assert_eq!("10.0.0.2".ipv4(), Ok(Ipv4Addr::new(10, 0, 0, 2)));
    assert_eq!("0.0.0.0".ipv4(), Ok(Ipv4Addr::new(0, 0, 0, 0)));
    assert_eq!("255.255.255.255".ipv4(), Ok(Ipv4Addr::new(255, 255, 255, 255)));
    assert_eq!(String::from("192.168.1.20").ipv4(), Ok(Ipv4Addr::new(192, 168, 1, 20)));
}

#[test]
fn ipv4_text_refused() {
    for bad in [
        "", "1.2.3", "1.2.3.4.5", "256.0.0.1", "01.2.3.4", "1.2.3.04", "1..2.3", " 1.2.3.4",
        "1.2.3.4 ", "1.2.3.4.", "a.b.c.d", "1.2.3.1000", "-1.2.3.4", "::1",
    ] {
        assert_eq!(bad.ipv4(), Err(Error::InvalidIpv4Str), "{:?}", bad);
    }
}

#[test]
fn ipv4_text_round_trip() {
    for (a, b, c, d) in [(1, 2, 3, 4), (100, 64, 0, 1), (8, 8, 8, 8), (172, 16, 254, 3), (0, 255, 0, 255)] {
        let addr = Ipv4Addr::new(a, b, c, d);
        let text = tun_rs::text::ip_to_text(IpAddr::V4(addr));
        assert_eq!(text.as_str().ipv4(), Ok(addr));
    }
}

#[test]
fn netmask_from_text() {
    assert_eq!(ToIpv4Netmask::prefix(&"255.255.255.0"), Ok(24));
    assert_eq!(ToIpv4Netmask::prefix(&String::from("255.255.0.0")), Ok(16));
    assert_eq!(ToIpv4Netmask::prefix(&"255.0.255.0"), Err(Error::InvalidNetmask));
    assert_eq!(ToIpv4Netmask::prefix(&"24"), Err(Error::InvalidNetmaskStr));
    assert_eq!(ToIpv4Netmask::netmask(&"255.255.255.128"), Ok(Ipv4Addr::new(255, 255, 255, 128)));
}
