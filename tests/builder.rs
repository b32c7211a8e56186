use tun_rs::addr::{IpAddr, Ipv4Addr, Ipv6Addr};
use tun_rs::builder::{ConfigStep, DeviceBuilder, Layer};
use tun_rs::driver::{first_ipv4, DriverKind, creation_plan};
use tun_rs::error::Error;
use tun_rs::coerce::ToIpv4Netmask;

fn v6(last: u16) -> Ipv6Addr {
    Ipv6Addr::new(0xfd00, 0, 0, 0, 0, 0, 0, last)
}

#[test]
fn ipv6_calls_accumulate_in_order() {
    let b = DeviceBuilder::new()
        .ipv6(v6(1), 64u8)
        .ipv6(v6(2), 64u8)
        .ipv6(v6(3), 48u8)
        .ipv6_tuple(&[(v6(4), 64u8), (v6(5), 120u8)]);
    let steps = b.config_plan().unwrap();
    let want = vec![
        ConfigStep::AddAddressV6 { address: v6(1), prefix: 64 },
        ConfigStep::AddAddressV6 { address: v6(2), prefix: 64 },
        ConfigStep::AddAddressV6 { address: v6(3), prefix: 48 },
        ConfigStep::AddAddressV6 { address: v6(4), prefix: 64 },
        ConfigStep::AddAddressV6 { address: v6(5), prefix: 120 },
        ConfigStep::Enable(true),
    ];
    assert_eq!(steps, want);
}

#[test]
fn ipv6_tuple_alone_keeps_order() {
    let b = DeviceBuilder::new().ipv6_tuple(&[(v6(9), 64u8), (v6(8), 64u8)]);
    assert_eq!(b.ipv6.as_ref().map(|v| v.len()), Some(2));
    let steps = b.config_plan().unwrap();
    assert_eq!(steps[0], ConfigStep::AddAddressV6 { address: v6(9), prefix: 64 });
    assert_eq!(steps[1], ConfigStep::AddAddressV6 { address: v6(8), prefix: 64 });
}

#[test]
fn application_order_is_fixed() {
    let b = DeviceBuilder::new()
        .enable(false)
        .ipv4(Ipv4Addr::new(10, 0, 0, 2), 24u8, None)
        .metric(7)
        .mtu(1400);
    let steps = b.config_plan().unwrap();
    assert_eq!(
        steps,
        vec![
            ConfigStep::SetMtu(1400),
            ConfigStep::SetMtuV6(1400),
            ConfigStep::SetMetric(7),
            ConfigStep::SetNetworkAddress {
                address: Ipv4Addr::new(10, 0, 0, 2),
                prefix: 24,
                destination: None
            },
            ConfigStep::Enable(false),
        ]
    );
}

#[test]
fn mac_address_applied_at_l2_only() {
    let mac = [2, 0, 0, 0, 0, 1];
    let l3 = DeviceBuilder::new().mac_addr(mac).config_plan().unwrap();
    assert_eq!(l3, vec![ConfigStep::Enable(true)]);
    let l2 = DeviceBuilder::new()
        .layer(Layer::L2)
        .mac_addr(mac)
        .tx_queue_len(1000)
        .config_plan()
        .unwrap();
    assert_eq!(
        l2,
        vec![
            ConfigStep::SetTxQueueLen(1000),
            ConfigStep::SetMacAddress(mac),
            ConfigStep::Enable(true)
        ]
    );
}

#[test]
fn invalid_setting_fails_the_whole_plan() {
    let b = DeviceBuilder::new()
        .mtu(1400)
        .ipv4(Ipv4Addr::new(10, 0, 0, 2), Ipv4Addr::new(255, 0, 255, 0), None);
    assert_eq!(b.config_plan(), Err(Error::InvalidNetmask));
    let b = DeviceBuilder::new().ipv4(
        IpAddr::V6(v6(1)),
        40u8,
        None,
    );
    assert_eq!(b.config_plan(), Err(Error::InvalidPrefixLength));
    let b = DeviceBuilder::new()
        .ipv6(v6(1), 64u8)
        .ipv6(IpAddr::V4(Ipv4Addr::new(1, 2, 3, 4)), 64u8)
        .ipv6(v6(2), 200u8);
    assert_eq!(b.config_plan(), Err(Error::InvalidAddress));
}

#[test]
fn point_to_point_destination() {
    let b = DeviceBuilder::new().ipv4(
        Ipv4Addr::new(10, 0, 0, 2),
        Ipv4Addr::new(255, 255, 255, 252),
        Some(Ipv4Addr::new(10, 0, 0, 1)),
    );
    assert_eq!(
        b.config_plan().unwrap()[0],
        ConfigStep::SetNetworkAddress {
            address: Ipv4Addr::new(10, 0, 0, 2),
            prefix: 30,
            destination: Some(Ipv4Addr::new(10, 0, 0, 1))
        }
    );
}

#[test]
fn build_config_takes_creation_settings() {
    let mut b = DeviceBuilder::new()
        .name("test0")
        .layer(Layer::L2)
        .ring_capacity(0x20000)
        .device_guid(42)
        .wintun_file("wintun.dll".to_string())
        .mtu(1400);
    let c = b.build_config();
    assert_eq!(c.dev_name.as_deref(), Some("test0"));
    assert_eq!(c.layer, Some(Layer::L2));
    assert_eq!(c.ring_capacity, Some(0x20000));
    assert_eq!(c.device_guid, Some(42));
    assert_eq!(c.wintun_file.as_deref(), Some("wintun.dll"));
    assert!(b.dev_name.is_none());
    assert_eq!(b.mtu, Some(1400));
    assert_eq!(b.layer, Some(Layer::L2));
}

#[test]
fn end_to_end_build_scenario() {
    let mut b = DeviceBuilder::new()
        .name("test0")
        .ipv4(Ipv4Addr::new(10, 0, 0, 2), 24u8, None)
        .mtu(1400);
    let config = b.build_config();
    let plan = creation_plan(&config, 0x400_0000);
    assert_eq!(plan.kind, DriverKind::Tun);
    assert_eq!(plan.name, "test0");
    assert!(plan.name_requested);
    let steps = b.config_plan().unwrap();
    assert_eq!(steps[0], ConfigStep::SetMtu(1400));
    assert_eq!(*steps.last().unwrap(), ConfigStep::Enable(true));
    let prefix = match steps[2] {
        ConfigStep::SetNetworkAddress { address, prefix, .. } => {
            assert_eq!(address, Ipv4Addr::new(10, 0, 0, 2));
            prefix
        }
        _ => panic!("no address step"),
    };
    assert_eq!(ToIpv4Netmask::netmask(&prefix), Ok(Ipv4Addr::new(255, 255, 255, 0)));
    // what the adapter reports back once configured
    let reported = [IpAddr::V6(v6(1)), IpAddr::V4(Ipv4Addr::new(10, 0, 0, 2))];
    assert_eq!(first_ipv4(&reported), Ok(IpAddr::V4(Ipv4Addr::new(10, 0, 0, 2))));
}

#[test]
fn ipv4_given_as_text() {
    let b = DeviceBuilder::new().ipv4("10.0.0.2", "255.255.255.0", Some("10.0.0.1"));
    assert_eq!(
        b.config_plan().unwrap()[0],
        ConfigStep::SetNetworkAddress {
            address: Ipv4Addr::new(10, 0, 0, 2),
            prefix: 24,
            destination: Some(Ipv4Addr::new(10, 0, 0, 1))
        }
    );
    let b = DeviceBuilder::new().ipv4("10.0.0.2", "255.255.255.0", Some("10.0.0.256"));
    assert_eq!(b.config_plan(), Err(Error::InvalidIpv4Str));
    let b = DeviceBuilder::new().ipv4("10.0.0.x", "255.255.0.255", None);
    assert_eq!(b.config_plan(), Err(Error::InvalidNetmask));
}

#[test]
fn default_builder_enables_only() {
    let steps = DeviceBuilder::default().config_plan().unwrap();
    assert_eq!(steps, vec![ConfigStep::Enable(true)]);
    let steps = DeviceBuilder::new().mtu_v4(1300).mtu_v6(1280).config_plan().unwrap();
    assert_eq!(
        steps,
        vec![ConfigStep::SetMtu(1300), ConfigStep::SetMtuV6(1280), ConfigStep::Enable(true)]
    );
}
