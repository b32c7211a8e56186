use tun_rs::addr::{IpAddr, Ipv4Addr, Ipv6Addr};
use tun_rs::error::Error;
use tun_rs::netsh::{
    output, set_interface_ip, set_interface_metric, set_interface_mtu, set_interface_name,
};
use tun_rs::text::ip_to_text;

#[test]
fn rename_command_quotes_names() {
    assert_eq!(
        set_interface_name("tun3", "my \"vpn\""),
        " netsh interface set interface name=\"tun3\" newname=\"my \\\"vpn\\\"\""
    );
}

#[test]
fn metric_command() {
    assert_eq!(
        set_interface_metric(12, 5),
        "netsh interface ip set interface 12 metric=5"
    );
    assert_eq!(
        set_interface_metric(0, 65535),
        "netsh interface ip set interface 0 metric=65535"
    );
}

#[test]
fn mtu_command() {
    assert_eq!(
        set_interface_mtu(4294967295, 1400),
        "netsh interface ipv4 set subinterface 4294967295  mtu=1400 store=persistent"
    );
}

#[test]
fn address_text() {
    assert_eq!(ip_to_text(IpAddr::V4(Ipv4Addr::new(10, 0, 0, 2))), "10.0.0.2");
    assert_eq!(ip_to_text(IpAddr::V4(Ipv4Addr::new(255, 255, 255, 0))), "255.255.255.0");
    assert_eq!(
        ip_to_text(IpAddr::V6(Ipv6Addr::new(0xfe80, 0, 0, 0, 0x1a, 0xbcd, 0, 1))),
        "fe80::1a:bcd:0:1"
    );
}

#[test]
fn ipv6_text_compresses_like_rfc5952() {
    let t = |a: u16, b: u16, c: u16, d: u16, e: u16, f: u16, g: u16, h: u16| {
        ip_to_text(IpAddr::V6(Ipv6Addr::new(a, b, c, d, e, f, g, h)))
    };
    assert_eq!(t(0, 0, 0, 0, 0, 0, 0, 0), "::");
    assert_eq!(t(0, 0, 0, 0, 0, 0, 0, 1), "::1");
    assert_eq!(t(1, 0, 0, 0, 0, 0, 0, 0), "1::");
    assert_eq!(t(1, 0, 0, 2, 0, 0, 0, 3), "1:0:0:2::3");
    assert_eq!(t(1, 0, 0, 2, 0, 0, 3, 4), "1::2:0:0:3:4");
    assert_eq!(t(1, 0, 2, 3, 4, 5, 6, 7), "1:0:2:3:4:5:6:7");
    assert_eq!(t(0x2001, 0xdb8, 0, 0, 0, 0, 0xff00, 0x42), "2001:db8::ff00:42");
    assert_eq!(t(0, 0, 0, 0, 0, 0xffff, 0x0102, 0x0304), "::ffff:1.2.3.4");
    assert_eq!(t(0, 0, 0, 0, 0, 0, 0x0102, 0x0304), "::102:304");
    assert_eq!(t(0xABCD, 0xffff, 0, 0, 0, 0, 0, 0xffff), "abcd:ffff::ffff");
}

#[test]
fn interface_ip_arguments() {
    let args = set_interface_ip(
        7,
        IpAddr::V4(Ipv4Addr::new(10, 0, 0, 2)),
        IpAddr::V4(Ipv4Addr::new(255, 255, 255, 0)),
        Some(IpAddr::V4(Ipv4Addr::new(10, 0, 0, 1))),
    );
    assert_eq!(
        args,
        vec![
            "interface",
            "ipv4",
            "set",
            "address",
            "7",
            "source=static",
            "address=10.0.0.2",
            "mask=255.255.255.0",
            "gateway=10.0.0.1"
        ]
    );
    let args = set_interface_ip(
        3,
        IpAddr::V6(Ipv6Addr::new(0xfd00, 0, 0, 0, 0, 0, 0, 1)),
        IpAddr::V6(Ipv6Addr::new(0xffff, 0xffff, 0xffff, 0xffff, 0, 0, 0, 0)),
        None,
    );
    assert_eq!(args.len(), 8);
    assert_eq!(args[1], "ipv6");
    assert_eq!(args[6], "address=fd00::1");
    assert_eq!(args[7], "mask=ffff:ffff:ffff:ffff::");
}

#[test]
fn successful_command_is_ok() {
    assert_eq!(output("netsh x", true, b"ignored", b""), Ok(()));
}

#[test]
fn failed_command_reports_stderr_first() {
    let r = output("netsh x", false, b"bad", b"out");
    assert_eq!(
        r,
        Err(Error::Command { message: "cmd=\"netsh x\",out=\"bad\"".to_string() })
    );
    let r = output("netsh x", false, b"", b"out");
    assert_eq!(
        r,
        Err(Error::Command { message: "cmd=\"netsh x\",out=\"out\"".to_string() })
    );
    let r = output("netsh x", false, b"", b"");
    assert_eq!(r, Err(Error::Command { message: "cmd=\"netsh x\",out=\"\"".to_string() }));
}

#[test]
fn failed_command_decodes_gbk() {
    // "中文" in the GBK codepage; not valid UTF-8
    let r = output("c", false, &[0xd6, 0xd0, 0xce, 0xc4], b"");
    assert_eq!(r, Err(Error::Command { message: "cmd=\"c\",out=\"中文\"".to_string() }));
}

#[test]
fn failed_command_keeps_utf8() {
    let r = output("c", false, "é\n".as_bytes(), b"");
    assert_eq!(r, Err(Error::Command { message: "cmd=\"c\",out=\"é\\n\"".to_string() }));
}
