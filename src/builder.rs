use vstd::prelude::*;

use crate::addr::{Ipv4Addr, Ipv6Addr};
use crate::coerce::{ToIpv4Address, ToIpv4Netmask, ToIpv6Address, ToIpv6Netmask};
use crate::error::Error;

verus! {

/// The OSI layer a virtual interface runs at: `L2` (link, TAP) or `L3`
/// (network, TUN).
#[derive(Clone, Copy, Debug, PartialEq, Eq, Structural)]
pub enum Layer {
    L2,
    L3,
}

impl Default for Layer {
    /// Interfaces run at the network layer unless asked otherwise.
    fn default() -> (r: Layer)
        ensures
            r == Layer::L3,
    {
        Layer::L3
    }
}

/// The layer to use when none was given.
pub open spec fn layer_or_default(layer: Option<Layer>) -> Layer {
    match layer {
        Some(l) => l,
        None => Layer::L3,
    }
}

/// What must be known before the native resource exists: its name, its
/// layer and the driver-specific identity and sizing.
#[derive(Clone, Debug)]
pub struct DeviceConfig {
    /// The name of the interface.
    pub dev_name: Option<String>,
    /// Whether the interface runs at L2 or L3.
    pub layer: Option<Layer>,
    /// The adapter GUID of the session driver.
    pub device_guid: Option<u128>,
    /// The path of the session driver's library file.
    pub wintun_file: Option<String>,
    /// The capacity of the session driver's ring.
    pub ring_capacity: Option<u32>,
    /// Whether packets carry a packet-information header.
    pub packet_information: Option<bool>,
    /// Whether offloads are switched on.
    pub offload: Option<bool>,
    /// Whether the device has several queues.
    pub multi_queue: Option<bool>,
}

/// An IPv4 setting as given: address, prefix length, optional destination,
/// each already coerced (or refused).
pub type Ipv4Setting = (Result<Ipv4Addr, Error>, Result<u8, Error>, Option<Result<Ipv4Addr, Error>>);

/// An IPv6 setting as given: address and prefix length, each already
/// coerced (or refused).
pub type Ipv6Setting = (Result<Ipv6Addr, Error>, Result<u8, Error>);

/// One change made to a live device while it is configured.
#[derive(Clone, Copy, Debug, PartialEq, Eq)]
#[allow(inconsistent_fields)]
pub enum ConfigStep {
    SetMtu(u16),
    SetMtuV6(u16),
    SetMetric(u16),
    SetTxQueueLen(u32),
    SetMacAddress([u8; 6]),
    SetNetworkAddress { address: Ipv4Addr, prefix: u8, destination: Option<Ipv4Addr> },
    AddAddressV6 { address: Ipv6Addr, prefix: u8 },
    Enable(bool),
}

/// Collects the settings of a TUN/TAP interface: those needed to create it
/// and those applied to it once it exists.
pub struct DeviceBuilder {
    pub dev_name: Option<String>,
    pub enabled: Option<bool>,
    pub mtu: Option<u16>,
    pub mtu_v6: Option<u16>,
    pub ipv4: Option<Ipv4Setting>,
    pub ipv6: Option<Vec<Ipv6Setting>>,
    pub layer: Option<Layer>,
    pub mac_addr: Option<[u8; 6]>,
    pub device_guid: Option<u128>,
    pub wintun_file: Option<String>,
    pub ring_capacity: Option<u32>,
    pub metric: Option<u16>,
    pub packet_information: Option<bool>,
    pub tx_queue_len: Option<u32>,
    pub offload: Option<bool>,
    pub multi_queue: Option<bool>,
}

impl Default for DeviceBuilder {
    /// A builder with nothing set.
    fn default() -> (r: DeviceBuilder)
        ensures
            r.dev_name is None && r.enabled is None && r.mtu is None && r.mtu_v6 is None,
            r.ipv4 is None && r.ipv6 is None && r.layer is None && r.mac_addr is None,
            r.device_guid is None && r.wintun_file is None && r.ring_capacity is None,
            r.metric is None && r.packet_information is None && r.tx_queue_len is None,
            r.offload is None && r.multi_queue is None,
    {
        DeviceBuilder::new()
    }
}

impl DeviceBuilder {
    /// The IPv6 settings given so far, in the order given.
    pub open spec fn ipv6_settings(&self) -> Seq<Ipv6Setting> {
        match self.ipv6 {
            Some(v) => v@,
            None => Seq::empty(),
        }
    }

    /// A builder with nothing set.
    pub fn new() -> (r: DeviceBuilder)
        ensures
            r.dev_name is None,
            r.enabled is None,
            r.mtu is None,
            r.mtu_v6 is None,
            r.ipv4 is None,
            r.ipv6 is None,
            r.layer is None,
            r.mac_addr is None,
            r.device_guid is None,
            r.wintun_file is None,
            r.ring_capacity is None,
            r.metric is None,
            r.packet_information is None,
            r.tx_queue_len is None,
            r.offload is None,
            r.multi_queue is None,
    {
        DeviceBuilder {
            dev_name: None,
            enabled: None,
            mtu: None,
            mtu_v6: None,
            ipv4: None,
            ipv6: None,
            layer: None,
            mac_addr: None,
            device_guid: None,
            wintun_file: None,
            ring_capacity: None,
            metric: None,
            packet_information: None,
            tx_queue_len: None,
            offload: None,
            multi_queue: None,
        }
    }

    /// Sets the interface name.
    pub fn name(self, dev_name: &str) -> (r: DeviceBuilder)
        ensures
            r.dev_name matches Some(n) && n@ == dev_name@,
            r == (DeviceBuilder { dev_name: r.dev_name, ..self }),
    {
        DeviceBuilder { dev_name: Some(dev_name.to_owned()), ..self }
    }

    /// Sets the MTU of both address families.
    pub fn mtu(self, mtu: u16) -> (r: DeviceBuilder)
        ensures
            r == (DeviceBuilder { mtu: Some(mtu), mtu_v6: Some(mtu), ..self }),
    {
        DeviceBuilder { mtu: Some(mtu), mtu_v6: Some(mtu), ..self }
    }

    /// Sets the IPv4 MTU alone.
    pub fn mtu_v4(self, mtu: u16) -> (r: DeviceBuilder)
        ensures
            r == (DeviceBuilder { mtu: Some(mtu), ..self }),
    {
        DeviceBuilder { mtu: Some(mtu), ..self }
    }

    /// Sets the IPv6 MTU alone.
    pub fn mtu_v6(self, mtu: u16) -> (r: DeviceBuilder)
        ensures
            r == (DeviceBuilder { mtu_v6: Some(mtu), ..self }),
    {
        DeviceBuilder { mtu_v6: Some(mtu), ..self }
    }

    /// Sets the link-layer address; it takes effect at L2 only.
    pub fn mac_addr(self, mac_addr: [u8; 6]) -> (r: DeviceBuilder)
        ensures
            r == (DeviceBuilder { mac_addr: Some(mac_addr), ..self }),
    {
        DeviceBuilder { mac_addr: Some(mac_addr), ..self }
    }

    /// Sets the IPv4 address, its netmask or prefix length, and the
    /// destination of a point-to-point link. Values that cannot be coerced
    /// are kept as errors, reported when the device is configured.
    pub fn ipv4<A: ToIpv4Address, M: ToIpv4Netmask>(
        self,
        address: A,
        mask: M,
        destination: Option<A>,
    ) -> (r: DeviceBuilder)
        ensures
            r == (DeviceBuilder {
                ipv4: Some(
                    (
                        address.ipv4_spec(),
                        mask.prefix_spec(),
                        match destination {
                            Some(d) => Some(d.ipv4_spec()),
                            None => None,
                        },
                    ),
                ),
                ..self
            }),
    {
        let d = match &destination {
            Some(d) => Some(d.ipv4()),
            None => None,
        };
        DeviceBuilder { ipv4: Some((address.ipv4(), mask.prefix(), d)), ..self }
    }

    /// Adds an IPv6 address with its netmask or prefix length, after those
    /// added before.
    pub fn ipv6<A: ToIpv6Address, M: ToIpv6Netmask>(self, address: A, mask: M) -> (r:
        DeviceBuilder)
        ensures
            r.ipv6 is Some,
            r.ipv6_settings() == self.ipv6_settings().push((address.ipv6_spec(), mask.prefix_spec())),
            r == (DeviceBuilder { ipv6: r.ipv6, ..self }),
    {
        let mut b = self;
        let entry = (address.ipv6(), mask.prefix());
        match b.ipv6 {
            Some(mut v) => {
                v.push(entry);
                DeviceBuilder { ipv6: Some(v), ..b }
            },
            None => {
                let mut v: Vec<Ipv6Setting> = Vec::new();
                v.push(entry);
                assert(v@ == Seq::<Ipv6Setting>::empty().push(entry));
                DeviceBuilder { ipv6: Some(v), ..b }
            },
        }
    }

    /// Adds IPv6 addresses with their netmasks or prefix lengths, in the
    /// order given, after those added before.
    pub fn ipv6_tuple<A: ToIpv6Address, M: ToIpv6Netmask>(self, addrs: &[(A, M)]) -> (r:
        DeviceBuilder)
        ensures
            r.ipv6 is Some,
            r.ipv6_settings() == self.ipv6_settings() + Seq::new(
                addrs@.len(),
                |i: int| (addrs@[i].0.ipv6_spec(), addrs@[i].1.prefix_spec()),
            ),
            r == (DeviceBuilder { ipv6: r.ipv6, ..self }),
    {
        let ghost before = self.ipv6_settings();
        let mut v: Vec<Ipv6Setting> = match self.ipv6 {
            Some(v) => v,
            None => Vec::new(),
        };
        let mut i: usize = 0;
        while i < addrs.len()
            invariant
                0 <= i <= addrs@.len(),
                v@ == before + Seq::new(
                    i as nat,
                    |k: int| (addrs@[k].0.ipv6_spec(), addrs@[k].1.prefix_spec()),
                ),
            decreases addrs@.len() - i,
        {
            let entry = (addrs[i].0.ipv6(), addrs[i].1.prefix());
            v.push(entry);
            i = i + 1;
            assert(v@ =~= before + Seq::new(
                i as nat,
                |k: int| (addrs@[k].0.ipv6_spec(), addrs@[k].1.prefix_spec()),
            ));
        }
        DeviceBuilder { ipv6: Some(v), ..self }
    }

    /// Sets the layer the interface runs at.
    pub fn layer(self, layer: Layer) -> (r: DeviceBuilder)
        ensures
            r == (DeviceBuilder { layer: Some(layer), ..self }),
    {
        DeviceBuilder { layer: Some(layer), ..self }
    }

    /// Sets the adapter GUID of the session driver.
    pub fn device_guid(self, device_guid: u128) -> (r: DeviceBuilder)
        ensures
            r == (DeviceBuilder { device_guid: Some(device_guid), ..self }),
    {
        DeviceBuilder { device_guid: Some(device_guid), ..self }
    }

    /// Sets the path of the session driver's library file.
    pub fn wintun_file(self, wintun_file: String) -> (r: DeviceBuilder)
        ensures
            r == (DeviceBuilder { wintun_file: Some(wintun_file), ..self }),
    {
        DeviceBuilder { wintun_file: Some(wintun_file), ..self }
    }

    /// Sets the capacity of the session driver's ring.
    pub fn ring_capacity(self, ring_capacity: u32) -> (r: DeviceBuilder)
        ensures
            r == (DeviceBuilder { ring_capacity: Some(ring_capacity), ..self }),
    {
        DeviceBuilder { ring_capacity: Some(ring_capacity), ..self }
    }

    /// Sets the routing metric.
    pub fn metric(self, metric: u16) -> (r: DeviceBuilder)
        ensures
            r == (DeviceBuilder { metric: Some(metric), ..self }),
    {
        DeviceBuilder { metric: Some(metric), ..self }
    }

    /// Sets the transmit queue length.
    pub fn tx_queue_len(self, tx_queue_len: u32) -> (r: DeviceBuilder)
        ensures
            r == (DeviceBuilder { tx_queue_len: Some(tx_queue_len), ..self }),
    {
        DeviceBuilder { tx_queue_len: Some(tx_queue_len), ..self }
    }

    /// Switches offloads on or off.
    pub fn offload(self, offload: bool) -> (r: DeviceBuilder)
        ensures
            r == (DeviceBuilder { offload: Some(offload), ..self }),
    {
        DeviceBuilder { offload: Some(offload), ..self }
    }

    /// Switches multi-queue support on or off.
    pub fn multi_queue(self, multi_queue: bool) -> (r: DeviceBuilder)
        ensures
            r == (DeviceBuilder { multi_queue: Some(multi_queue), ..self }),
    {
        DeviceBuilder { multi_queue: Some(multi_queue), ..self }
    }

    /// Switches the packet-information header on or off.
    pub fn packet_information(self, packet_information: bool) -> (r: DeviceBuilder)
        ensures
            r == (DeviceBuilder { packet_information: Some(packet_information), ..self }),
    {
        DeviceBuilder { packet_information: Some(packet_information), ..self }
    }

    /// Says whether the interface is brought up (the default) or down.
    pub fn enable(self, enable: bool) -> (r: DeviceBuilder)
        ensures
            r == (DeviceBuilder { enabled: Some(enable), ..self }),
    {
        DeviceBuilder { enabled: Some(enable), ..self }
    }

    /// Takes out what device creation needs; what is applied to the live
    /// device stays behind, the layer included.
    pub fn build_config(&mut self) -> (r: DeviceConfig)
        ensures
            r.dev_name == old(self).dev_name,
            r.layer == old(self).layer,
            r.device_guid == old(self).device_guid,
            r.wintun_file == old(self).wintun_file,
            r.ring_capacity == old(self).ring_capacity,
            r.packet_information == old(self).packet_information,
            r.offload == old(self).offload,
            r.multi_queue == old(self).multi_queue,
            *final(self) == (DeviceBuilder {
                dev_name: None,
                device_guid: None,
                wintun_file: None,
                ring_capacity: None,
                packet_information: None,
                offload: None,
                multi_queue: None,
                ..*old(self)
            }),
    {
        DeviceConfig {
            dev_name: self.dev_name.take(),
            layer: self.layer,
            device_guid: self.device_guid.take(),
            wintun_file: self.wintun_file.take(),
            ring_capacity: self.ring_capacity.take(),
            packet_information: self.packet_information.take(),
            offload: self.offload.take(),
            multi_queue: self.multi_queue.take(),
        }
    }

    /// The steps before any address: MTU, IPv6 MTU, metric, transmit queue
    /// length, and the link-layer address where the layer is L2.
    pub open spec fn head_spec(&self) -> Seq<ConfigStep> {
        opt_step(
            match self.mtu {
                Some(m) => Some(ConfigStep::SetMtu(m)),
                None => None,
            },
        ) + opt_step(
            match self.mtu_v6 {
                Some(m) => Some(ConfigStep::SetMtuV6(m)),
                None => None,
            },
        ) + opt_step(
            match self.metric {
                Some(m) => Some(ConfigStep::SetMetric(m)),
                None => None,
            },
        ) + opt_step(
            match self.tx_queue_len {
                Some(q) => Some(ConfigStep::SetTxQueueLen(q)),
                None => None,
            },
        ) + opt_step(
            match self.mac_addr {
                Some(mac) => if layer_or_default(self.layer) == Layer::L2 {
                    Some(ConfigStep::SetMacAddress(mac))
                } else {
                    None
                },
                None => None,
            },
        )
    }

    /// The changes to make to the live device, in the order to make them:
    /// MTU, IPv6 MTU, metric, transmit queue length, link-layer address (at
    /// L2 only), IPv4 address, each IPv6 address in the order added, and
    /// last whether the interface is up. A setting that could not be
    /// coerced makes the whole plan fail before anything is applied.
    pub open spec fn plan_spec(&self) -> Result<Seq<ConfigStep>, Error> {
        let last = ConfigStep::Enable(
            match self.enabled {
                Some(e) => e,
                None => true,
            },
        );
        match self.ipv4 {
            Some(s4) => match ipv4_step(s4) {
                Err(e) => Err(e),
                Ok(st) => match ipv6_steps(self.ipv6_settings()) {
                    Err(e) => Err(e),
                    Ok(v6) => Ok(self.head_spec() + seq![st] + v6 + seq![last]),
                },
            },
            None => match ipv6_steps(self.ipv6_settings()) {
                Err(e) => Err(e),
                Ok(v6) => Ok(self.head_spec() + v6 + seq![last]),
            },
        }
    }

    fn head_steps(&self) -> (r: Vec<ConfigStep>)
        ensures
            r@ == self.head_spec(),
    {
        let mut steps: Vec<ConfigStep> = Vec::new();
        if let Some(m) = self.mtu {
            steps.push(ConfigStep::SetMtu(m));
        }
        if let Some(m) = self.mtu_v6 {
            steps.push(ConfigStep::SetMtuV6(m));
        }
        if let Some(m) = self.metric {
            steps.push(ConfigStep::SetMetric(m));
        }
        if let Some(q) = self.tx_queue_len {
            steps.push(ConfigStep::SetTxQueueLen(q));
        }
        if let Some(mac) = self.mac_addr {
            let layer = match self.layer {
                Some(l) => l,
                None => Layer::default(),
            };
            if layer == Layer::L2 {
                steps.push(ConfigStep::SetMacAddress(mac));
            }
        }
        assert(steps@ =~= self.head_spec());
        steps
    }

    /// The changes to make to the live device once it exists, in order;
    /// the first setting that could not be coerced is reported instead.
    pub fn config_plan(self) -> (r: Result<Vec<ConfigStep>, Error>)
        ensures
            match r {
                Ok(v) => self.plan_spec() == Ok::<Seq<ConfigStep>, Error>(v@),
                Err(e) => self.plan_spec() == Err::<Seq<ConfigStep>, Error>(e),
            },
    {
        let mut steps = self.head_steps();
        let enabled = match self.enabled {
            Some(e) => e,
            None => true,
        };
        let ghost settings = self.ipv6_settings();
        let ghost head = steps@;
        let ghost last = ConfigStep::Enable(enabled);
        let ghost g4 = self.ipv4;
        if let Some(s4) = self.ipv4 {
            match ipv4_plan(s4) {
                Ok(st) => steps.push(st),
                Err(e) => return Err(e),
            }
        }
        let ghost mid = steps@;
        let mut v6: Vec<Ipv6Setting> = match self.ipv6 {
            Some(v) => v,
            None => Vec::new(),
        };
        assert(v6@ == settings);
        match ipv6_plan(&mut v6, &mut steps) {
            Ok(()) => {},
            Err(e) => return Err(e),
        }
        let ghost done = steps@.subrange(mid.len() as int, steps@.len() as int);
        proof {
            assert(ipv6_steps(settings) is Ok);
            let d2 = ipv6_steps(settings)->Ok_0;
            assert(steps@ == mid + d2);
            assert(done =~= d2);
        }
        steps.push(ConfigStep::Enable(enabled));
        assert(steps@ =~= mid + done + seq![last]);
        proof {
            match g4 {
                Some(s4) => {
                    let st = ipv4_step(s4)->Ok_0;
                    assert(mid =~= head + seq![st]);
                    assert(self.plan_spec() == Ok::<Seq<ConfigStep>, Error>(
                        head + seq![st] + done + seq![last],
                    ));
                },
                None => {
                    assert(mid =~= head);
                },
            }
        }
        Ok(steps)
    }
}

fn ipv4_plan(s4: Ipv4Setting) -> (r: Result<ConfigStep, Error>)
    ensures
        r == ipv4_step(s4),
{
    let (address, prefix, destination) = s4;
    let prefix = match prefix {
        Ok(p) => p,
        Err(e) => return Err(e),
    };
    let address = match address {
        Ok(a) => a,
        Err(e) => return Err(e),
    };
    let destination = match destination {
        None => None,
        Some(Ok(d)) => Some(d),
        Some(Err(e)) => return Err(e),
    };
    Ok(ConfigStep::SetNetworkAddress { address, prefix, destination })
}

fn ipv6_plan(v6: &mut Vec<Ipv6Setting>, steps: &mut Vec<ConfigStep>) -> (r: Result<(), Error>)
    ensures
        match ipv6_steps(old(v6)@) {
            Ok(done) => r is Ok && final(steps)@ == old(steps)@ + done,
            Err(e) => r == Err::<(), Error>(e),
        },
{
    let ghost all = v6@;
    let ghost start = steps@;
    let ghost n = all.len();
    let len0 = v6.len();
    let mut i: usize = 0;
    while v6.len() > 0
        invariant
            all == old(v6)@,
            start == old(steps)@,
            n == all.len(),
            n == len0,
            i + v6@.len() == n,
            v6@ == all.subrange(i as int, n as int),
            ipv6_steps(all.take(i as int)) matches Ok(done) && steps@ == start + done,
        decreases v6@.len(),
    {
        let entry = v6.remove(0);
        assert(entry == all[i as int]);
        assert(all.take(i as int + 1).drop_last() == all.take(i as int));
        assert(all.take(i as int + 1).last() == entry);
        let (address, prefix) = entry;
        let prefix = match prefix {
            Ok(p) => p,
            Err(e) => {
                proof {
                    assert(ipv6_steps(all.take(i as int + 1)) == Err::<Seq<ConfigStep>, Error>(e));
                    lemma_ipv6_error_persists(all, i as int + 1);
                    assert(ipv6_steps(all) == Err::<Seq<ConfigStep>, Error>(e));
                }
                let r: Result<(), Error> = Err(e);
                return r;
            },
        };
        let address = match address {
            Ok(a) => a,
            Err(e) => {
                proof {
                    assert(ipv6_steps(all.take(i as int + 1)) == Err::<Seq<ConfigStep>, Error>(e));
                    lemma_ipv6_error_persists(all, i as int + 1);
                    assert(ipv6_steps(all) == Err::<Seq<ConfigStep>, Error>(e));
                }
                let r: Result<(), Error> = Err(e);
                return r;
            },
        };
        steps.push(ConfigStep::AddAddressV6 { address, prefix });
        i = i + 1;
        assert(v6@ =~= all.subrange(i as int, n as int));
    }
    assert(all.take(n as int) == all);
    Ok(())
}

/// The one-step sequence of a present step, or nothing.
pub open spec fn opt_step(o: Option<ConfigStep>) -> Seq<ConfigStep> {
    match o {
        Some(s) => seq![s],
        None => Seq::empty(),
    }
}

/// The step that applies an IPv4 setting; its prefix length is checked
/// first, then its address, then its destination.
pub open spec fn ipv4_step(s: Ipv4Setting) -> Result<ConfigStep, Error> {
    match s.1 {
        Err(e) => Err(e),
        Ok(prefix) => match s.0 {
            Err(e) => Err(e),
            Ok(address) => match s.2 {
                None => Ok(ConfigStep::SetNetworkAddress { address, prefix, destination: None }),
                Some(Err(e)) => Err(e),
                Some(Ok(d)) => Ok(
                    ConfigStep::SetNetworkAddress { address, prefix, destination: Some(d) },
                ),
            },
        },
    }
}

/// The step that adds an IPv6 setting; its prefix length is checked first,
/// then its address.
pub open spec fn ipv6_step(s: Ipv6Setting) -> Result<ConfigStep, Error> {
    match s.1 {
        Err(e) => Err(e),
        Ok(prefix) => match s.0 {
            Err(e) => Err(e),
            Ok(address) => Ok(ConfigStep::AddAddressV6 { address, prefix }),
        },
    }
}

/// The steps that add IPv6 settings in order, or the error of the first
/// setting that could not be coerced.
pub open spec fn ipv6_steps(s: Seq<Ipv6Setting>) -> Result<Seq<ConfigStep>, Error>
    decreases s.len(),
{
    if s.len() == 0 {
        Ok(Seq::empty())
    } else {
        match ipv6_steps(s.drop_last()) {
            Err(e) => Err(e),
            Ok(done) => match ipv6_step(s.last()) {
                Err(e) => Err(e),
                Ok(st) => Ok(done.push(st)),
            },
        }
    }
}

/// Once a prefix of the IPv6 settings fails, all of them fail with the same
/// error.
proof fn lemma_ipv6_error_persists(s: Seq<Ipv6Setting>, k: int)
    requires
        0 <= k <= s.len(),
        ipv6_steps(s.take(k)) is Err,
    ensures
        ipv6_steps(s) == ipv6_steps(s.take(k)),
    decreases s.len() - k,
{
    if k < s.len() {
        assert(s.take(k + 1).drop_last() == s.take(k));
        lemma_ipv6_error_persists(s, k + 1);
    } else {
        assert(s.take(k) == s);
    }
}

/// The place of a kind of step in the order of application.
pub open spec fn step_rank(s: ConfigStep) -> nat {
    match s {
        ConfigStep::SetMtu(_) => 0,
        ConfigStep::SetMtuV6(_) => 1,
        ConfigStep::SetMetric(_) => 2,
        ConfigStep::SetTxQueueLen(_) => 3,
        ConfigStep::SetMacAddress(_) => 4,
        ConfigStep::SetNetworkAddress { .. } => 5,
        ConfigStep::AddAddressV6 { .. } => 6,
        ConfigStep::Enable(_) => 7,
    }
}

/// Steps whose kinds never go back in the order of application.
pub open spec fn ranks_ordered(s: Seq<ConfigStep>) -> bool {
    forall|i: int, j: int| 0 <= i < j < s.len() ==> step_rank(#[trigger] s[i]) <= step_rank(
        #[trigger] s[j],
    )
}

/// Steps whose kinds all lie between `lo` and `hi`.
pub open spec fn ranks_within(s: Seq<ConfigStep>, lo: nat, hi: nat) -> bool {
    forall|i: int| 0 <= i < s.len() ==> lo <= step_rank(#[trigger] s[i]) <= hi
}

proof fn lemma_concat_ordered(a: Seq<ConfigStep>, b: Seq<ConfigStep>, lo: nat, m: nat, hi: nat)
    requires
        ranks_ordered(a),
        ranks_ordered(b),
        ranks_within(a, lo, m),
        ranks_within(b, m, hi),
        lo <= m <= hi,
    ensures
        ranks_ordered(a + b),
        ranks_within(a + b, lo, hi),
{
    let c = a + b;
    assert forall|i: int, j: int| 0 <= i < j < c.len() implies step_rank(#[trigger] c[i])
        <= step_rank(#[trigger] c[j]) by {
        if j < a.len() {
            assert(c[i] == a[i] && c[j] == a[j]);
        } else if i >= a.len() {
            assert(c[i] == b[i - a.len()] && c[j] == b[j - a.len()]);
        } else {
            assert(c[i] == a[i] && c[j] == b[j - a.len()]);
        }
    }
    assert forall|i: int| 0 <= i < c.len() implies lo <= step_rank(#[trigger] c[i]) <= hi by {
        if i < a.len() {
            assert(c[i] == a[i]);
        } else {
            assert(c[i] == b[i - a.len()]);
        }
    }
}

proof fn lemma_single_ordered(o: Option<ConfigStep>, k: nat)
    requires
        o matches Some(s) ==> step_rank(s) == k,
    ensures
        ranks_ordered(opt_step(o)),
        ranks_within(opt_step(o), k, k),
{
}

/// The IPv6 settings are applied one step each, in the order they were
/// added, each with the address and prefix length given.
pub proof fn lemma_ipv6_steps_in_order(s: Seq<Ipv6Setting>)
    requires
        ipv6_steps(s) is Ok,
    ensures
        ipv6_steps(s)->Ok_0.len() == s.len(),
        forall|i: int|
            0 <= i < s.len() ==> ipv6_step(#[trigger] s[i]) == Ok::<ConfigStep, Error>(
                ipv6_steps(s)->Ok_0[i],
            ),
    decreases s.len(),
{
    if s.len() > 0 {
        lemma_ipv6_steps_in_order(s.drop_last());
        assert forall|i: int| 0 <= i < s.len() implies ipv6_step(#[trigger] s[i]) == Ok::<
            ConfigStep,
            Error,
        >(ipv6_steps(s)->Ok_0[i]) by {
            if i < s.len() - 1 {
                assert(s[i] == s.drop_last()[i]);
            }
        }
    }
}

proof fn lemma_ipv6_steps_rank(s: Seq<Ipv6Setting>)
    requires
        ipv6_steps(s) is Ok,
    ensures
        ranks_ordered(ipv6_steps(s)->Ok_0),
        ranks_within(ipv6_steps(s)->Ok_0, 6, 6),
{
    lemma_ipv6_steps_in_order(s);
    let d = ipv6_steps(s)->Ok_0;
    assert forall|i: int| 0 <= i < d.len() implies 6 <= step_rank(#[trigger] d[i]) <= 6 by {
        assert(ipv6_step(s[i]) == Ok::<ConfigStep, Error>(d[i]));
    }
}

proof fn lemma_head_order(b: DeviceBuilder)
    ensures
        ranks_ordered(b.head_spec()),
        ranks_within(b.head_spec(), 0, 4),
{
    let o0 = match b.mtu {
        Some(m) => Some(ConfigStep::SetMtu(m)),
        None => None,
    };
    let o1 = match b.mtu_v6 {
        Some(m) => Some(ConfigStep::SetMtuV6(m)),
        None => None,
    };
    let o2 = match b.metric {
        Some(m) => Some(ConfigStep::SetMetric(m)),
        None => None,
    };
    let o3 = match b.tx_queue_len {
        Some(q) => Some(ConfigStep::SetTxQueueLen(q)),
        None => None,
    };
    let o4 = match b.mac_addr {
        Some(mac) => if layer_or_default(b.layer) == Layer::L2 {
            Some(ConfigStep::SetMacAddress(mac))
        } else {
            None
        },
        None => None,
    };
    lemma_single_ordered(o0, 0);
    lemma_single_ordered(o1, 1);
    lemma_single_ordered(o2, 2);
    lemma_single_ordered(o3, 3);
    lemma_single_ordered(o4, 4);
    lemma_concat_ordered(opt_step(o0), opt_step(o1), 0, 1, 1);
    lemma_concat_ordered(opt_step(o0) + opt_step(o1), opt_step(o2), 0, 2, 2);
    lemma_concat_ordered(opt_step(o0) + opt_step(o1) + opt_step(o2), opt_step(o3), 0, 3, 3);
    lemma_concat_ordered(
        opt_step(o0) + opt_step(o1) + opt_step(o2) + opt_step(o3),
        opt_step(o4),
        0,
        4,
        4,
    );
}

/// Everything the plan does before its last step: the head, the IPv4
/// step if any, and the IPv6 steps.
proof fn lemma_body_order(b: DeviceBuilder) -> (q: Seq<ConfigStep>)
    requires
        b.plan_spec() is Ok,
    ensures
        ranks_ordered(q),
        ranks_within(q, 0, 6),
        b.plan_spec()->Ok_0 == q.push(
            ConfigStep::Enable(
                match b.enabled {
                    Some(e) => e,
                    None => true,
                },
            ),
        ),
{
    let head = b.head_spec();
    lemma_head_order(b);
    let v6 = ipv6_steps(b.ipv6_settings())->Ok_0;
    lemma_ipv6_steps_rank(b.ipv6_settings());
    match b.ipv4 {
        Some(s4) => {
            let st = ipv4_step(s4)->Ok_0;
            lemma_single_ordered(Some(st), 5);
            lemma_concat_ordered(head, opt_step(Some(st)), 0, 5, 5);
            lemma_concat_ordered(head + opt_step(Some(st)), v6, 0, 6, 6);
            assert(opt_step(Some(st)) == seq![st]);
            head + opt_step(Some(st)) + v6
        },
        None => {
            lemma_concat_ordered(head, v6, 0, 6, 6);
            head + v6
        },
    }
}

/// Configuring a device always goes in one fixed order: MTU, IPv6 MTU,
/// metric, transmit queue length, link-layer address, IPv4 address, IPv6
/// addresses, and bringing the interface up or down, which is the last step
/// and the only one of its kind.
pub proof fn lemma_plan_order(b: DeviceBuilder)
    requires
        b.plan_spec() is Ok,
    ensures
        ranks_ordered(b.plan_spec()->Ok_0),
        b.plan_spec()->Ok_0.len() > 0,
        b.plan_spec()->Ok_0.last() == ConfigStep::Enable(
            match b.enabled {
                Some(e) => e,
                None => true,
            },
        ),
        forall|i: int|
            0 <= i < b.plan_spec()->Ok_0.len() - 1 ==> !(#[trigger] b.plan_spec()->Ok_0[i] is Enable),
{
    let last = ConfigStep::Enable(
        match b.enabled {
            Some(e) => e,
            None => true,
        },
    );
    let q = lemma_body_order(b);
    lemma_single_ordered(Some(last), 7);
    lemma_concat_ordered(q, opt_step(Some(last)), 0, 7, 7);
    assert(opt_step(Some(last)) == seq![last]);
    let p = b.plan_spec()->Ok_0;
    assert forall|i: int| 0 <= i < p.len() - 1 implies !(#[trigger] p[i] is Enable) by {
        assert(p[i] == q[i]);
    }
}

/// The IPv6 settings fail to apply exactly when one of them could not be
/// coerced.
pub proof fn lemma_ipv6_steps_fail(s: Seq<Ipv6Setting>)
    ensures
        ipv6_steps(s) is Err <==> exists|i: int| 0 <= i < s.len() && (#[trigger] ipv6_step(s[i])) is Err,
    decreases s.len(),
{
    if s.len() > 0 {
        lemma_ipv6_steps_fail(s.drop_last());
        if ipv6_steps(s.drop_last()) is Err {
            let i = choose|i: int| 0 <= i < s.drop_last().len() && (#[trigger] ipv6_step(s.drop_last()[i])) is Err;
            assert(s[i] == s.drop_last()[i]);
        } else if ipv6_step(s.last()) is Err {
            assert(ipv6_step(s[s.len() - 1]) is Err);
        } else {
            assert forall|i: int| 0 <= i < s.len() implies !((#[trigger] ipv6_step(s[i])) is Err) by {
                if i < s.len() - 1 {
                    assert(s[i] == s.drop_last()[i]);
                }
            }
        }
    }
}

/// A configuration plan fails, and then nothing is applied, exactly when the
/// IPv4 setting or one of the IPv6 settings could not be coerced; otherwise
/// it follows the fixed order of `lemma_plan_order`.
pub proof fn lemma_plan_fails_only_on_bad_setting(b: DeviceBuilder)
    ensures
        b.plan_spec() is Err <==> (b.ipv4 matches Some(s4) && ipv4_step(s4) is Err) || exists|i: int|
            0 <= i < b.ipv6_settings().len() && (#[trigger] ipv6_step(b.ipv6_settings()[i])) is Err,
        b.plan_spec() is Ok ==> ranks_ordered(b.plan_spec()->Ok_0),
{
    lemma_ipv6_steps_fail(b.ipv6_settings());
    if b.plan_spec() is Ok {
        lemma_plan_order(b);
    }
}

} // verus!
