use vstd::prelude::*;

use crate::addr::IpAddr;
use crate::builder::{layer_or_default, DeviceConfig, Layer};
use crate::error::Error;

verus! {

/// Which native backend owns a device: a packet session with a
/// driver-managed ring (network layer), or a raw handle read and written
/// with the caller's buffers (link layer).
#[derive(Clone, Copy, Debug, PartialEq, Eq, Structural)]
pub enum DriverKind {
    Tun,
    Tap,
}

/// The backend a layer is served by.
pub open spec fn kind_of(layer: Layer) -> DriverKind {
    match layer {
        Layer::L3 => DriverKind::Tun,
        Layer::L2 => DriverKind::Tap,
    }
}

/// The name a device gets when none was asked for.
pub const DEFAULT_NAME: &'static str = "tun3";

/// The hardware identity the link-layer backend is opened with.
pub const HARDWARE_ID: &'static str = "tap0901";

/// What device creation needs to know, decided from the configuration.
#[derive(Debug)]
pub struct CreationPlan {
    /// The backend to create.
    pub kind: DriverKind,
    /// The name to open, create or rename the adapter with.
    pub name: String,
    /// Whether the caller asked for that name.
    pub name_requested: bool,
    /// The ring capacity of a packet session.
    pub ring_capacity: u32,
}

/// Decides how a device is created: the backend follows the layer (L3 when
/// none was given), the name is the one asked for or the default, and the
/// ring capacity is the one asked for or `default_ring_capacity`.
pub fn creation_plan(config: &DeviceConfig, default_ring_capacity: u32) -> (r: CreationPlan)
    ensures
        r.kind == kind_of(layer_or_default(config.layer)),
        r.name_requested == config.dev_name is Some,
        match config.dev_name {
            Some(n) => r.name@ == n@,
            None => r.name@ == DEFAULT_NAME@,
        },
        r.ring_capacity == match config.ring_capacity {
            Some(c) => c,
            None => default_ring_capacity,
        },
{
    let layer = match config.layer {
        Some(l) => l,
        None => Layer::L3,
    };
    let kind = match layer {
        Layer::L3 => DriverKind::Tun,
        Layer::L2 => DriverKind::Tap,
    };
    let name = match &config.dev_name {
        Some(n) => n.as_str().to_owned(),
        None => DEFAULT_NAME.to_owned(),
    };
    let ring_capacity = match config.ring_capacity {
        Some(c) => c,
        None => default_ring_capacity,
    };
    CreationPlan { kind, name, name_requested: config.dev_name.is_some(), ring_capacity }
}

/// The outcome of renaming a freshly created link-layer adapter: a failure
/// is tolerated only when the caller did not ask for a name.
pub fn rename_outcome(name_requested: bool, renamed: Result<(), Error>) -> (r: Result<(), Error>)
    ensures
        match renamed {
            Ok(()) => r is Ok,
            Err(e) => if name_requested {
                r == Err::<(), Error>(e)
            } else {
                r is Ok
            },
        },
{
    match renamed {
        Ok(()) => Ok(()),
        Err(e) => if name_requested {
            Err(e)
        } else {
            Ok(())
        },
    }
}

/// Copies a received packet into the caller's buffer; a packet longer than
/// the buffer is refused and nothing is copied.
pub fn copy_packet(packet: &[u8], buf: &mut [u8]) -> (r: Result<usize, Error>)
    ensures
        packet@.len() <= old(buf)@.len() ==> r == Ok::<usize, Error>(packet@.len() as usize)
            && final(buf)@ == packet@ + old(buf)@.subrange(
            packet@.len() as int,
            old(buf)@.len() as int,
        ),
        packet@.len() > old(buf)@.len() ==> r == Err::<usize, Error>(Error::BufferTooSmall)
            && final(buf)@ == old(buf)@,
{
    if packet.len() > buf.len() {
        return Err(Error::BufferTooSmall);
    }
    let ghost start = buf@;
    let mut i: usize = 0;
    while i < packet.len()
        invariant
            packet@.len() <= start.len(),
            buf@.len() == start.len(),
            0 <= i <= packet@.len(),
            forall|k: int| 0 <= k < i ==> buf@[k] == packet@[k],
            forall|k: int| i <= k < start.len() ==> buf@[k] == start[k],
        decreases packet@.len() - i,
    {
        buf[i] = packet[i];
        i = i + 1;
    }
    assert(buf@ =~= packet@ + start.subrange(packet@.len() as int, start.len() as int));
    Ok(packet.len())
}

/// The result of a blocking read from a packet session: the length copied,
/// or, once the session failed (as it does when it is shut down while the
/// read waits), an aborted connection.
pub fn blocking_read_result(received: Result<usize, Error>) -> (r: Result<usize, Error>)
    ensures
        match received {
            Ok(n) => r == Ok::<usize, Error>(n),
            Err(_) => r == Err::<usize, Error>(Error::ConnectionAborted),
        },
{
    match received {
        Ok(n) => Ok(n),
        Err(_) => Err(Error::ConnectionAborted),
    }
}

/// The result of a non-blocking read from a packet session: no packet
/// waiting means would-block; a failed session means an aborted connection.
pub fn try_read_result(received: Result<Option<usize>, Error>) -> (r: Result<usize, Error>)
    ensures
        match received {
            Ok(Some(n)) => r == Ok::<usize, Error>(n),
            Ok(None) => r == Err::<usize, Error>(Error::WouldBlock),
            Err(_) => r == Err::<usize, Error>(Error::ConnectionAborted),
        },
{
    match received {
        Ok(Some(n)) => Ok(n),
        Ok(None) => Err(Error::WouldBlock),
        Err(_) => Err(Error::ConnectionAborted),
    }
}

/// The raw code with which the session driver reports a full send ring.
pub open spec fn ring_full_code() -> i32 {
    111
}

/// Relies on `windows_sys::Win32::Foundation::ERROR_BUFFER_OVERFLOW`, the
/// code of a full send ring.
#[verifier::external_body]
fn buffer_overflow_code() -> (r: i32)
    ensures
        r == ring_full_code(),
{
    windows_sys::Win32::Foundation::ERROR_BUFFER_OVERFLOW as i32
}

/// The error of a failed send-buffer allocation. On the non-blocking path a
/// full ring means would-block; every other failure, and any failure on the
/// blocking path, is reported with its raw code.
pub fn allocation_error(raw_code: Option<i32>, nonblocking: bool) -> (r: Error)
    ensures
        r == if nonblocking && raw_code == Some(ring_full_code()) {
            Error::WouldBlock
        } else {
            Error::Os { code: raw_code }
        },
{
    let full = buffer_overflow_code();
    match raw_code {
        Some(c) => if nonblocking && c == full {
            Error::WouldBlock
        } else {
            Error::Os { code: raw_code }
        },
        None => Error::Os { code: None },
    }
}

/// The result of a non-blocking read on a raw handle, as a packet: no data
/// waiting is no packet rather than an error.
pub fn try_receive_result(read: Result<usize, Error>) -> (r: Result<Option<usize>, Error>)
    ensures
        match read {
            Ok(n) => r == Ok::<Option<usize>, Error>(Some(n)),
            Err(Error::WouldBlock) => r == Ok::<Option<usize>, Error>(None),
            Err(e) => r == Err::<Option<usize>, Error>(e),
        },
{
    match read {
        Ok(n) => Ok(Some(n)),
        Err(e) => if e.is_would_block() {
            Ok(None)
        } else {
            Err(e)
        },
    }
}

/// The first IPv4 address of a list, as the adapter's address (or gateway).
pub open spec fn first_ipv4_index(addrs: Seq<IpAddr>) -> int {
    choose|i: int| 0 <= i < addrs.len() && addrs[i] is V4 && forall|j: int| 0 <= j < i ==> !(
    #[trigger] addrs[j] is V4)
}

/// The first IPv4 address among those the adapter reports; none at all is
/// an invalid configuration.
pub fn first_ipv4(addrs: &[IpAddr]) -> (r: Result<IpAddr, Error>)
    ensures
        (exists|i: int| 0 <= i < addrs@.len() && #[trigger] addrs@[i] is V4) ==> r
            == Ok::<IpAddr, Error>(addrs@[first_ipv4_index(addrs@)]),
        (forall|i: int| 0 <= i < addrs@.len() ==> !(#[trigger] addrs@[i] is V4)) ==> r
            == Err::<IpAddr, Error>(Error::InvalidConfig),
{
    let mut i: usize = 0;
    while i < addrs.len()
        invariant
            0 <= i <= addrs@.len(),
            forall|j: int| 0 <= j < i ==> !(#[trigger] addrs@[j] is V4),
        decreases addrs@.len() - i,
    {
        if let IpAddr::V4(_) = addrs[i] {
            proof {
                let k = first_ipv4_index(addrs@);
                assert(0 <= k < addrs@.len() && addrs@[k] is V4 && forall|j: int|
                    0 <= j < k ==> !(#[trigger] addrs@[j] is V4)) by {
                    assert(0 <= i < addrs@.len() && addrs@[i as int] is V4 && forall|j: int|
                        0 <= j < i ==> !(#[trigger] addrs@[j] is V4));
                }
                assert(k == i as int) by {
                    if k < i {
                        assert(!(addrs@[k] is V4));
                    } else if k > i {
                        assert(!(addrs@[i as int] is V4));
                    }
                }
            }
            return Ok(addrs[i]);
        }
        i = i + 1;
    }
    Err(Error::InvalidConfig)
}

/// Link-layer operations exist at L2 only; at L3 they are unsupported.
pub fn check_link_layer(kind: DriverKind) -> (r: Result<(), Error>)
    ensures
        kind == DriverKind::Tap <==> r is Ok,
        r matches Err(e) ==> e == Error::Unsupported,
{
    match kind {
        DriverKind::Tap => Ok(()),
        DriverKind::Tun => Err(Error::Unsupported),
    }
}

/// What enabling or disabling a device does to its backend.
#[derive(Clone, Copy, Debug, PartialEq, Eq, Structural)]
pub enum EnableAction {
    /// Leave the device as it is.
    Nothing,
    /// Shut the packet session down.
    ShutdownSession,
    /// Bring the raw handle's interface up.
    Up,
    /// Take the raw handle's interface down.
    Down,
}

/// A packet session can only be shut down; a raw handle goes up or down.
pub fn enable_action(kind: DriverKind, enable: bool) -> (r: EnableAction)
    ensures
        r == match kind {
            DriverKind::Tun => if enable {
                EnableAction::Nothing
            } else {
                EnableAction::ShutdownSession
            },
            DriverKind::Tap => if enable {
                EnableAction::Up
            } else {
                EnableAction::Down
            },
        },
{
    match kind {
        DriverKind::Tun => if enable {
            EnableAction::Nothing
        } else {
            EnableAction::ShutdownSession
        },
        DriverKind::Tap => if enable {
            EnableAction::Up
        } else {
            EnableAction::Down
        },
    }
}

} // verus!
