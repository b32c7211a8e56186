use tun_rs::addr::{IpAddr, Ipv4Addr, Ipv6Addr};
use tun_rs::builder::{DeviceBuilder, Layer};
use tun_rs::driver::{
    allocation_error, blocking_read_result, check_link_layer, copy_packet, creation_plan,
    enable_action, first_ipv4, rename_outcome, try_read_result, try_receive_result, DriverKind,
    EnableAction, DEFAULT_NAME,
};
use tun_rs::error::Error;

#[test]
fn creation_defaults() {
    let mut b = DeviceBuilder::new();
    let plan = creation_plan(&b.build_config(), 0x400_0000);
    assert_eq!(plan.kind, DriverKind::Tun);
    assert_eq!(plan.name, DEFAULT_NAME);
    assert_eq!(plan.name, "tun3");
    assert!(!plan.name_requested);
    assert_eq!(plan.ring_capacity, 0x400_0000);
}

#[test]
fn creation_at_link_layer() {
    let mut b = DeviceBuilder::new().layer(Layer::L2).ring_capacity(0x2_0000);
    let plan = creation_plan(&b.build_config(), 0x400_0000);
    assert_eq!(plan.kind, DriverKind::Tap);
    assert_eq!(plan.ring_capacity, 0x2_0000);
}

#[test]
fn rename_failure_tolerated_only_without_requested_name() {
    assert_eq!(rename_outcome(false, Err(Error::Os { code: Some(5) })), Ok(()));
    assert_eq!(
        rename_outcome(true, Err(Error::Os { code: Some(5) })),
        Err(Error::Os { code: Some(5) })
    );
    assert_eq!(rename_outcome(true, Ok(())), Ok(()));
}

#[test]
fn shutdown_during_blocking_read_aborts() {
    let shut = Err(Error::Driver { message: "session shut down".to_string() });
    assert_eq!(blocking_read_result(shut), Err(Error::ConnectionAborted));
    assert_eq!(blocking_read_result(Ok(60)), Ok(60));
}

#[test]
fn non_blocking_session_read() {
    assert_eq!(try_read_result(Ok(None)), Err(Error::WouldBlock));
    assert_eq!(try_read_result(Ok(Some(3))), Ok(3));
    assert_eq!(try_read_result(Err(Error::Os { code: None })), Err(Error::ConnectionAborted));
}

#[test]
fn full_ring_is_would_block_on_non_blocking_path() {
    assert_eq!(allocation_error(Some(111), true), Error::WouldBlock);
    assert_eq!(allocation_error(Some(111), false), Error::Os { code: Some(111) });
    assert_eq!(allocation_error(Some(5), true), Error::Os { code: Some(5) });
    assert_eq!(allocation_error(None, true), Error::Os { code: None });
}

#[test]
fn raw_handle_try_receive() {
    assert_eq!(try_receive_result(Err(Error::WouldBlock)), Ok(None));
    assert_eq!(try_receive_result(Ok(20)), Ok(Some(20)));
    assert_eq!(try_receive_result(Err(Error::Unsupported)), Err(Error::Unsupported));
}

#[test]
fn packet_copy() {
    let mut buf = [9u8; 6];
    assert_eq!(copy_packet(&[1, 2, 3], &mut buf), Ok(3));
    assert_eq!(buf, [1, 2, 3, 9, 9, 9]);
    let mut small = [0u8; 2];
    assert_eq!(copy_packet(&[1, 2, 3], &mut small), Err(Error::BufferTooSmall));
    assert_eq!(small, [0, 0]);
}

#[test]
fn first_ipv4_of_adapter() {
    let v6 = IpAddr::V6(Ipv6Addr::new(0xfe80, 0, 0, 0, 0, 0, 0, 1));
    let a = IpAddr::V4(Ipv4Addr::new(10, 0, 0, 2));
    let b = IpAddr::V4(Ipv4Addr::new(10, 0, 0, 3));
    assert_eq!(first_ipv4(&[v6, a, b]), Ok(a));
    assert_eq!(first_ipv4(&[v6]), Err(Error::InvalidConfig));
    assert_eq!(first_ipv4(&[]), Err(Error::InvalidConfig));
}

#[test]
fn link_layer_operations() {
    assert_eq!(check_link_layer(DriverKind::Tun), Err(Error::Unsupported));
    assert_eq!(check_link_layer(DriverKind::Tap), Ok(()));
}

#[test]
fn enabling() {
    assert_eq!(enable_action(DriverKind::Tun, true), EnableAction::Nothing);
    assert_eq!(enable_action(DriverKind::Tun, false), EnableAction::ShutdownSession);
    assert_eq!(enable_action(DriverKind::Tap, true), EnableAction::Up);
    assert_eq!(enable_action(DriverKind::Tap, false), EnableAction::Down);
}
