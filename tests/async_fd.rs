use tun_rs::async_fd::{step, Action, AsyncFd, Event, Phase, Poll, Readiness};
use tun_rs::error::Error;

#[test]
fn stale_readiness_is_retried() {
    let fd = AsyncFd::new(5u32);
    let mut phase = Phase::Idle;
    assert!(matches!(fd.poll_recv(&mut phase, Event::Begin), Action::CheckReadiness));
    assert!(matches!(
        fd.poll_recv(&mut phase, Event::Checked(Readiness::Ready)),
        Action::Attempt
    ));
    // the readiness was stale: the attempt would block
    assert!(matches!(
        fd.poll_recv(&mut phase, Event::Attempted(Err(Error::WouldBlock))),
        Action::CheckReadiness
    ));
    assert_eq!(phase, Phase::AwaitingReadiness);
    assert!(matches!(
        fd.poll_recv(&mut phase, Event::Checked(Readiness::Ready)),
        Action::Attempt
    ));
    assert!(matches!(
        fd.poll_recv(&mut phase, Event::Attempted(Ok(42))),
        Action::Complete(Ok(42))
    ));
    assert_eq!(phase, Phase::Done);
}

#[test]
fn pending_readiness_returns_pending() {
    let (p, a) = step(Phase::AwaitingReadiness, Event::Checked(Readiness::Pending));
    assert_eq!(p, Phase::AwaitingReadiness);
    assert!(matches!(a, Action::ReturnPending));
}

#[test]
fn genuine_errors_complete() {
    let (p, a) = step(Phase::Attempting, Event::Attempted(Err(Error::ConnectionAborted)));
    assert_eq!(p, Phase::Done);
    assert!(matches!(a, Action::Complete(Err(Error::ConnectionAborted))));
    let (p, a) = step(
        Phase::AwaitingReadiness,
        Event::Checked(Readiness::Failed(Error::Os { code: Some(9) })),
    );
    assert_eq!(p, Phase::Done);
    assert!(matches!(a, Action::Complete(Err(Error::Os { code: Some(9) }))));
}

#[test]
fn send_protocol_matches_recv() {
    let fd = AsyncFd::new(());
    let mut phase = Phase::Done;
    assert!(matches!(fd.poll_send(&mut phase, Event::Begin), Action::CheckReadiness));
    assert!(matches!(
        fd.poll_send(&mut phase, Event::Checked(Readiness::Ready)),
        Action::Attempt
    ));
    assert!(matches!(
        fd.poll_send(&mut phase, Event::Attempted(Ok(1500))),
        Action::Complete(Ok(1500))
    ));
}

#[test]
fn readiness_polls() {
    let fd = AsyncFd::new(0u8);
    assert!(matches!(fd.poll_readable(Readiness::Ready), Poll::Ready(Ok(()))));
    assert!(matches!(fd.poll_writable(Readiness::Pending), Poll::Pending));
    assert!(matches!(
        fd.poll_readable(Readiness::Failed(Error::Unsupported)),
        Poll::Ready(Err(Error::Unsupported))
    ));
}

#[test]
fn try_io_runs_only_when_ready() {
    let fd = AsyncFd::new(7u32);
    assert_eq!(fd.try_recv_io(false, |d: &u32| Ok(*d)), Err(Error::WouldBlock));
    assert_eq!(fd.try_recv_io(true, |d: &u32| Ok(*d + 1)), Ok(8));
    assert_eq!(fd.try_send_io(false, |d: &u32| Ok(*d)), Err(Error::WouldBlock));
    assert_eq!(fd.try_send_io(true, |_d: &u32| Ok::<u8, Error>(3)), Ok(3));
    assert_eq!(*fd.get_ref(), 7);
    assert_eq!(fd.into_device(), 7);
}
