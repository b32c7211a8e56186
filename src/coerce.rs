use vstd::prelude::*;

use crate::addr::{
    bit_v4, bit_v6, lemma_mask_v4_bits, lemma_mask_v6_bits,
    is_mask_v4, is_mask_v6, lemma_mask_v4_injective, lemma_mask_v6_injective, mask_bits_v4,
    mask_bits_v6, mask_v4, mask_v6, prefix_of_mask_v4, prefix_of_mask_v6, IpAddr, Ipv4Addr,
    Ipv6Addr,
};
use crate::error::Error;
use crate::text::{ipv4_text, is_ipv4_text, parse_ipv4};

verus! {

/// Conversion of a caller's value into an IPv4 address.
pub trait ToIpv4Address {
    /// The address this value stands for, or why it stands for none.
    spec fn ipv4_spec(&self) -> Result<Ipv4Addr, Error>;

    /// The IPv4 address this value stands for.
    fn ipv4(&self) -> (r: Result<Ipv4Addr, Error>)
        ensures
            r == self.ipv4_spec(),
    ;
}

/// Conversion of a caller's value into an IPv6 address.
pub trait ToIpv6Address {
    /// The address this value stands for, or why it stands for none.
    spec fn ipv6_spec(&self) -> Result<Ipv6Addr, Error>;

    /// The IPv6 address this value stands for.
    fn ipv6(&self) -> (r: Result<Ipv6Addr, Error>)
        ensures
            r == self.ipv6_spec(),
    ;
}

/// Conversion of a caller's value into an IPv4 prefix length.
pub trait ToIpv4Netmask {
    /// The prefix length this value stands for, or why it stands for none.
    spec fn prefix_spec(&self) -> Result<u8, Error>;

    /// The prefix length: the number of leading one bits of the netmask.
    fn prefix(&self) -> (r: Result<u8, Error>)
        ensures
            r == self.prefix_spec(),
            r matches Ok(p) ==> p <= 32,
    ;

    /// The netmask of the prefix length.
    fn netmask(&self) -> (r: Result<Ipv4Addr, Error>)
        ensures
            match self.prefix_spec() {
                Ok(p) => r == Ok::<Ipv4Addr, Error>(Ipv4Addr { bits: mask_v4(p as u32) }),
                Err(e) => r == Err::<Ipv4Addr, Error>(e),
            },
    {
        match self.prefix() {
            Ok(p) => Ok(Ipv4Addr::from_bits(mask_bits_v4(p))),
            Err(e) => Err(e),
        }
    }
}

/// Conversion of a caller's value into an IPv6 prefix length.
pub trait ToIpv6Netmask {
    /// The prefix length this value stands for, or why it stands for none.
    spec fn prefix_spec(&self) -> Result<u8, Error>;

    /// The prefix length: the number of leading one bits of the netmask.
    fn prefix(&self) -> (r: Result<u8, Error>)
        ensures
            r == self.prefix_spec(),
            r matches Ok(p) ==> p <= 128,
    ;

    /// The netmask of the prefix length.
    fn netmask(&self) -> (r: Result<Ipv6Addr, Error>)
        ensures
            match self.prefix_spec() {
                Ok(p) => r == Ok::<Ipv6Addr, Error>(Ipv6Addr { bits: mask_v6(p as u32) }),
                Err(e) => r == Err::<Ipv6Addr, Error>(e),
            },
    {
        match self.prefix() {
            Ok(p) => Ok(Ipv6Addr::from_bits(mask_bits_v6(p))),
            Err(e) => Err(e),
        }
    }
}

impl ToIpv4Address for Ipv4Addr {
    open spec fn ipv4_spec(&self) -> Result<Ipv4Addr, Error> {
        Ok(*self)
    }

    fn ipv4(&self) -> (r: Result<Ipv4Addr, Error>) {
        Ok(*self)
    }
}

impl ToIpv4Address for IpAddr {
    /// An IPv6 address is of the other family, and is refused.
    open spec fn ipv4_spec(&self) -> Result<Ipv4Addr, Error> {
        match self {
            IpAddr::V4(ip) => Ok(*ip),
            IpAddr::V6(_) => Err(Error::InvalidAddress),
        }
    }

    fn ipv4(&self) -> (r: Result<Ipv4Addr, Error>) {
        match self {
            IpAddr::V4(ip) => Ok(*ip),
            IpAddr::V6(_) => Err(Error::InvalidAddress),
        }
    }
}

impl ToIpv6Address for Ipv6Addr {
    open spec fn ipv6_spec(&self) -> Result<Ipv6Addr, Error> {
        Ok(*self)
    }

    fn ipv6(&self) -> (r: Result<Ipv6Addr, Error>) {
        Ok(*self)
    }
}

impl ToIpv6Address for IpAddr {
    /// An IPv4 address is of the other family, and is refused.
    open spec fn ipv6_spec(&self) -> Result<Ipv6Addr, Error> {
        match self {
            IpAddr::V4(_) => Err(Error::InvalidAddress),
            IpAddr::V6(ip) => Ok(*ip),
        }
    }

    fn ipv6(&self) -> (r: Result<Ipv6Addr, Error>) {
        match self {
            IpAddr::V4(_) => Err(Error::InvalidAddress),
            IpAddr::V6(ip) => Ok(*ip),
        }
    }
}

impl ToIpv4Netmask for u8 {
    open spec fn prefix_spec(&self) -> Result<u8, Error> {
        if *self > 32 {
            Err(Error::InvalidPrefixLength)
        } else {
            Ok(*self)
        }
    }

    fn prefix(&self) -> (r: Result<u8, Error>) {
        if *self > 32 {
            Err(Error::InvalidPrefixLength)
        } else {
            Ok(*self)
        }
    }
}

impl ToIpv6Netmask for u8 {
    open spec fn prefix_spec(&self) -> Result<u8, Error> {
        if *self > 128 {
            Err(Error::InvalidPrefixLength)
        } else {
            Ok(*self)
        }
    }

    fn prefix(&self) -> (r: Result<u8, Error>) {
        if *self > 128 {
            Err(Error::InvalidPrefixLength)
        } else {
            Ok(*self)
        }
    }
}

/// The prefix length of an IPv4 mask value, when it is a mask.
pub open spec fn prefix_of_v4(m: u32) -> Result<u8, Error> {
    if is_mask_v4(m) {
        Ok((choose|p: u32| p <= 32 && #[trigger] mask_v4(p) == m) as u8)
    } else {
        Err(Error::InvalidNetmask)
    }
}

/// The prefix length of an IPv6 mask value, when it is a mask.
pub open spec fn prefix_of_v6(m: u128) -> Result<u8, Error> {
    if is_mask_v6(m) {
        Ok((choose|p: u32| p <= 128 && #[trigger] mask_v6(p) == m) as u8)
    } else {
        Err(Error::InvalidNetmask)
    }
}

impl ToIpv4Netmask for Ipv4Addr {
    /// A mask address gives the length of its run of leading one bits; one
    /// with a set bit after a clear bit is refused.
    open spec fn prefix_spec(&self) -> Result<u8, Error> {
        prefix_of_v4(self.bits)
    }

    fn prefix(&self) -> (r: Result<u8, Error>) {
        let r = prefix_of_mask_v4(self.bits);
        proof {
            if let Ok(p) = r {
                let q = choose|q: u32| q <= 32 && #[trigger] mask_v4(q) == self.bits;
                lemma_mask_v4_injective(p as u32, q);
            }
        }
        r
    }
}

impl ToIpv6Netmask for Ipv6Addr {
    /// A mask address gives the length of its run of leading one bits; one
    /// with a set bit after a clear bit is refused.
    open spec fn prefix_spec(&self) -> Result<u8, Error> {
        prefix_of_v6(self.bits)
    }

    fn prefix(&self) -> (r: Result<u8, Error>) {
        let r = prefix_of_mask_v6(self.bits);
        proof {
            if let Ok(p) = r {
                let q = choose|q: u32| q <= 128 && #[trigger] mask_v6(q) == self.bits;
                lemma_mask_v6_injective(p as u32, q);
            }
        }
        r
    }
}

/// The IPv4 address that a text stands for, when it is one.
pub open spec fn ipv4_of_text(s: Seq<char>) -> Result<Ipv4Addr, Error> {
    if is_ipv4_text(s) {
        Ok(Ipv4Addr { bits: choose|b: u32| #[trigger] ipv4_text(Ipv4Addr { bits: b }) == s })
    } else {
        Err(Error::InvalidIpv4Str)
    }
}

/// The prefix length of a netmask written as an IPv4 address.
pub open spec fn prefix_of_text_v4(s: Seq<char>) -> Result<u8, Error> {
    match ipv4_of_text(s) {
        Ok(a) => prefix_of_v4(a.bits),
        Err(_) => Err(Error::InvalidNetmaskStr),
    }
}

fn ipv4_from_text(s: &str) -> (r: Result<Ipv4Addr, Error>)
    ensures
        r == ipv4_of_text(s@),
{
    let r = parse_ipv4(s);
    proof {
        if is_ipv4_text(s@) {
            let b = choose|b: u32| #[trigger] ipv4_text(Ipv4Addr { bits: b }) == s@;
            assert(ipv4_text(Ipv4Addr { bits: b }) == s@);
        }
    }
    r
}

fn prefix_from_text_v4(s: &str) -> (r: Result<u8, Error>)
    ensures
        r == prefix_of_text_v4(s@),
        r matches Ok(p) ==> p <= 32,
{
    match ipv4_from_text(s) {
        Ok(a) => a.prefix(),
        Err(_) => Err(Error::InvalidNetmaskStr),
    }
}

impl ToIpv4Address for String {
    /// Dotted-decimal text; anything else is refused.
    open spec fn ipv4_spec(&self) -> Result<Ipv4Addr, Error> {
        ipv4_of_text(self@)
    }

    fn ipv4(&self) -> (r: Result<Ipv4Addr, Error>) {
        ipv4_from_text(self.as_str())
    }
}

impl ToIpv4Address for &str {
    /// Dotted-decimal text; anything else is refused.
    open spec fn ipv4_spec(&self) -> Result<Ipv4Addr, Error> {
        ipv4_of_text((*self)@)
    }

    fn ipv4(&self) -> (r: Result<Ipv4Addr, Error>) {
        ipv4_from_text(*self)
    }
}

impl ToIpv4Netmask for String {
    /// A netmask in dotted-decimal text.
    open spec fn prefix_spec(&self) -> Result<u8, Error> {
        prefix_of_text_v4(self@)
    }

    fn prefix(&self) -> (r: Result<u8, Error>) {
        prefix_from_text_v4(self.as_str())
    }
}

impl ToIpv4Netmask for &str {
    /// A netmask in dotted-decimal text.
    open spec fn prefix_spec(&self) -> Result<u8, Error> {
        prefix_of_text_v4((*self)@)
    }

    fn prefix(&self) -> (r: Result<u8, Error>) {
        prefix_from_text_v4(*self)
    }
}

/// For every IPv4 prefix length `p`, the netmask of `p` has its top `p` bits
/// set and every other bit clear, and the prefix length read back from that
/// netmask is `p`.
pub proof fn lemma_netmask_round_trip_v4(p: u8)
    requires
        p <= 32,
    ensures
        forall|i: u32| i < 32 ==> #[trigger] bit_v4(mask_v4(p as u32), i) == (i >= 32 - p),
        ToIpv4Netmask::prefix_spec(&p) == Ok::<u8, Error>(p),
        ToIpv4Netmask::prefix_spec(&Ipv4Addr { bits: mask_v4(p as u32) }) == Ok::<u8, Error>(p),
{
    assert forall|i: u32| i < 32 implies #[trigger] bit_v4(mask_v4(p as u32), i) == (i >= 32
        - p) by {
        lemma_mask_v4_bits(p as u32, i);
    }
    let m = mask_v4(p as u32);
    assert(is_mask_v4(m));
    let q = choose|q: u32| q <= 32 && #[trigger] mask_v4(q) == m;
    lemma_mask_v4_injective(p as u32, q);
}

/// For every IPv6 prefix length `p`, the netmask of `p` has its top `p` bits
/// set and every other bit clear, and the prefix length read back from that
/// netmask is `p`.
pub proof fn lemma_netmask_round_trip_v6(p: u8)
    requires
        p <= 128,
    ensures
        forall|i: u128| i < 128 ==> #[trigger] bit_v6(mask_v6(p as u32), i) == (i >= 128 - p),
        ToIpv6Netmask::prefix_spec(&p) == Ok::<u8, Error>(p),
        ToIpv6Netmask::prefix_spec(&Ipv6Addr { bits: mask_v6(p as u32) }) == Ok::<u8, Error>(p),
{
    assert forall|i: u128| i < 128 implies #[trigger] bit_v6(mask_v6(p as u32), i) == (i >= 128
        - p) by {
        lemma_mask_v6_bits(p as u32, i);
    }
    let m = mask_v6(p as u32);
    assert(is_mask_v6(m));
    let q = choose|q: u32| q <= 128 && #[trigger] mask_v6(q) == m;
    lemma_mask_v6_injective(p as u32, q);
}

/// An IPv4 mask address with a set bit below a clear bit is refused as a
/// netmask, whatever its number of set bits.
pub proof fn lemma_non_contiguous_mask_refused_v4(m: u32, i: u32, j: u32)
    requires
        i < j < 32,
        bit_v4(m, i),
        !bit_v4(m, j),
    ensures
        ToIpv4Netmask::prefix_spec(&Ipv4Addr { bits: m }) == Err::<u8, Error>(Error::InvalidNetmask),
{
    if is_mask_v4(m) {
        let p = choose|p: u32| p <= 32 && #[trigger] mask_v4(p) == m;
        lemma_mask_v4_bits(p, i);
        lemma_mask_v4_bits(p, j);
    }
}

/// An IPv6 mask address with a set bit below a clear bit is refused as a
/// netmask, whatever its number of set bits.
pub proof fn lemma_non_contiguous_mask_refused_v6(m: u128, i: u128, j: u128)
    requires
        i < j < 128,
        bit_v6(m, i),
        !bit_v6(m, j),
    ensures
        ToIpv6Netmask::prefix_spec(&Ipv6Addr { bits: m }) == Err::<u8, Error>(Error::InvalidNetmask),
{
    if is_mask_v6(m) {
        let p = choose|p: u32| p <= 128 && #[trigger] mask_v6(p) == m;
        lemma_mask_v6_bits(p, i);
        lemma_mask_v6_bits(p, j);
    }
}

} // verus!
