use vstd::prelude::*;

use crate::error::Error;

verus! {

/// The IPv4 netmask with `p` leading one bits and zero bits after them.
pub open spec fn mask_v4(p: u32) -> u32 {
    if p == 0 {
        0
    } else {
        0xffff_ffffu32 << ((32 - p) as u32)
    }
}

/// The IPv6 netmask with `p` leading one bits and zero bits after them.
pub open spec fn mask_v6(p: u32) -> u128 {
    if p == 0 {
        0
    } else {
        0xffff_ffff_ffff_ffff_ffff_ffff_ffff_ffffu128 << ((128 - p) as u128)
    }
}

/// Bit `i` (counted from the least significant end) of a 32-bit value.
pub open spec fn bit_v4(m: u32, i: u32) -> bool {
    (m >> i) & 1 == 1
}

/// Bit `i` (counted from the least significant end) of a 128-bit value.
pub open spec fn bit_v6(m: u128, i: u128) -> bool {
    (m >> i) & 1 == 1
}

/// A 32-bit value is a netmask when it is the mask of some prefix length.
pub open spec fn is_mask_v4(m: u32) -> bool {
    exists|p: u32| p <= 32 && #[trigger] mask_v4(p) == m
}

/// A 128-bit value is a netmask when it is the mask of some prefix length.
pub open spec fn is_mask_v6(m: u128) -> bool {
    exists|p: u32| p <= 128 && #[trigger] mask_v6(p) == m
}

/// The mask of `p` has its top `p` bits set and every other bit clear.
pub proof fn lemma_mask_v4_bits(p: u32, i: u32)
    requires
        p <= 32,
        i < 32,
    ensures
        bit_v4(mask_v4(p), i) == (i >= 32 - p),
{
    if p == 0 {
        assert((0u32 >> i) & 1u32 == 0u32) by (bit_vector);
    } else {
        let s = (32 - p) as u32;
        assert(1 <= p <= 32 && s == 32 - p && i < 32 ==> ((((0xffff_ffffu32 << s) >> i) & 1u32
            == 1u32) == (i >= s))) by (bit_vector);
    }
}

/// The mask of `p` has its top `p` bits set and every other bit clear.
pub proof fn lemma_mask_v6_bits(p: u32, i: u128)
    requires
        p <= 128,
        i < 128,
    ensures
        bit_v6(mask_v6(p), i) == (i >= 128 - p),
{
    if p == 0 {
        assert((0u128 >> i) & 1u128 == 0u128) by (bit_vector);
    } else {
        let s = (128 - p) as u128;
        assert(1 <= s <= 127 || s == 0);
        assert(s <= 127 && i < 128 ==> ((((0xffff_ffff_ffff_ffff_ffff_ffff_ffff_ffffu128 << s)
            >> i) & 1u128 == 1u128) == (i >= s))) by (bit_vector);
    }
}

/// Distinct prefix lengths give distinct IPv4 masks.
pub proof fn lemma_mask_v4_injective(p: u32, q: u32)
    requires
        p <= 32,
        q <= 32,
        mask_v4(p) == mask_v4(q),
    ensures
        p == q,
{
    if p < q {
        lemma_mask_v4_bits(p, (32 - q) as u32);
        lemma_mask_v4_bits(q, (32 - q) as u32);
    } else if q < p {
        lemma_mask_v4_bits(p, (32 - p) as u32);
        lemma_mask_v4_bits(q, (32 - p) as u32);
    }
}

/// Distinct prefix lengths give distinct IPv6 masks.
pub proof fn lemma_mask_v6_injective(p: u32, q: u32)
    requires
        p <= 128,
        q <= 128,
        mask_v6(p) == mask_v6(q),
    ensures
        p == q,
{
    if p < q {
        lemma_mask_v6_bits(p, (128 - q) as u128);
        lemma_mask_v6_bits(q, (128 - q) as u128);
    } else if q < p {
        lemma_mask_v6_bits(p, (128 - p) as u128);
        lemma_mask_v6_bits(q, (128 - p) as u128);
    }
}

/// The IPv4 mask of a prefix length of at most 32.
pub fn mask_bits_v4(p: u8) -> (r: u32)
    requires
        p <= 32,
    ensures
        r == mask_v4(p as u32),
{
    if p == 0 {
        0
    } else {
        u32::MAX << (32 - p as u32)
    }
}

/// The IPv6 mask of a prefix length of at most 128.
pub fn mask_bits_v6(p: u8) -> (r: u128)
    requires
        p <= 128,
    ensures
        r == mask_v6(p as u32),
{
    if p == 0 {
        0
    } else {
        u128::MAX << (128 - p as u128)
    }
}

/// The prefix length of an IPv4 mask; a mask whose set bits are not one run
/// from the most significant bit is rejected.
pub fn prefix_of_mask_v4(m: u32) -> (r: Result<u8, Error>)
    ensures
        r is Ok <==> is_mask_v4(m),
        r matches Ok(p) ==> p <= 32 && mask_v4(p as u32) == m,
        r matches Err(e) ==> e == Error::InvalidNetmask,
{
    let mut p: u32 = 0;
    while p <= 32
        invariant
            p <= 33,
            forall|q: u32| q < p ==> #[trigger] mask_v4(q) != m,
        decreases 33 - p,
    {
        let k: u32 = if p == 0 {
            0
        } else {
            u32::MAX << (32 - p)
        };
        assert(k == mask_v4(p));
        if k == m {
            assert(mask_v4(p) == m);
            return Ok(p as u8);
        }
        p = p + 1;
    }
    Err(Error::InvalidNetmask)
}

/// The prefix length of an IPv6 mask; a mask whose set bits are not one run
/// from the most significant bit is rejected.
pub fn prefix_of_mask_v6(m: u128) -> (r: Result<u8, Error>)
    ensures
        r is Ok <==> is_mask_v6(m),
        r matches Ok(p) ==> p <= 128 && mask_v6(p as u32) == m,
        r matches Err(e) ==> e == Error::InvalidNetmask,
{
    let mut p: u32 = 0;
    while p <= 128
        invariant
            p <= 129,
            forall|q: u32| q < p ==> #[trigger] mask_v6(q) != m,
        decreases 129 - p,
    {
        let k: u128 = if p == 0 {
            0
        } else {
            u128::MAX << (128 - p as u128)
        };
        assert(k == mask_v6(p));
        if k == m {
            assert(mask_v6(p) == m);
            return Ok(p as u8);
        }
        p = p + 1;
    }
    Err(Error::InvalidNetmask)
}

/// An IPv4 address, held as its 32-bit value (first octet most significant).
#[derive(Clone, Copy, Debug, PartialEq, Eq, Structural)]
pub struct Ipv4Addr {
    pub bits: u32,
}

/// An IPv6 address, held as its 128-bit value (first segment most significant).
#[derive(Clone, Copy, Debug, PartialEq, Eq, Structural)]
pub struct Ipv6Addr {
    pub bits: u128,
}

/// An address of either family.
#[derive(Clone, Copy, Debug, PartialEq, Eq, Structural)]
pub enum IpAddr {
    V4(Ipv4Addr),
    V6(Ipv6Addr),
}

/// The value of four octets read most significant first.
pub open spec fn octets_value(a: u8, b: u8, c: u8, d: u8) -> int {
    a as int * 0x100_0000 + b as int * 0x1_0000 + c as int * 0x100 + d as int
}

/// The value of eight 16-bit segments read most significant first.
pub open spec fn segments_value(s: Seq<u16>) -> int
    decreases s.len(),
{
    if s.len() == 0 {
        0
    } else {
        segments_value(s.drop_last()) * 0x1_0000 + s.last() as int
    }
}

impl Ipv4Addr {
    /// The address `a.b.c.d`.
    pub fn new(a: u8, b: u8, c: u8, d: u8) -> (r: Ipv4Addr)
        ensures
            r.bits == octets_value(a, b, c, d),
    {
        Ipv4Addr {
            bits: (a as u32) * 0x100_0000 + (b as u32) * 0x1_0000 + (c as u32) * 0x100 + (d as u32),
        }
    }

    /// The address whose 32-bit value is `bits`.
    pub fn from_bits(bits: u32) -> (r: Ipv4Addr)
        ensures
            r.bits == bits,
    {
        Ipv4Addr { bits }
    }

    /// The 32-bit value of the address.
    pub fn to_bits(&self) -> (r: u32)
        ensures
            r == self.bits,
    {
        self.bits
    }

    /// The four octets, most significant first.
    pub fn octets(&self) -> (r: [u8; 4])
        ensures
            octets_value(r[0], r[1], r[2], r[3]) == self.bits,
    {
        let b = self.bits;
        [
            (b / 0x100_0000) as u8,
            (b / 0x1_0000 % 0x100) as u8,
            (b / 0x100 % 0x100) as u8,
            (b % 0x100) as u8,
        ]
    }
}

impl Ipv6Addr {
    /// The address with the eight segments given, most significant first.
    pub fn new(a: u16, b: u16, c: u16, d: u16, e: u16, f: u16, g: u16, h: u16) -> (r: Ipv6Addr)
        ensures
            r.bits == segments_value(seq![a, b, c, d, e, f, g, h]),
    {
        let mut v: u128 = 0;
        let segs: [u16; 8] = [a, b, c, d, e, f, g, h];
        let ghost all = seq![a, b, c, d, e, f, g, h];
        assert(segs@ == all);
        let mut i: usize = 0;
        while i < 8
            invariant
                0 <= i <= 8,
                segs@ == all,
                v as int == segments_value(all.take(i as int)),
                v as int <= pow2_16(i as nat) - 1,
            decreases 8 - i,
        {
            assert(all.take(i as int + 1).drop_last() == all.take(i as int));
            proof {
                lemma_pow2_16_step(i as nat);
                assert(v as int * 0x1_0000 + segs[i as int] as int <= pow2_16(i as nat + 1) - 1)
                    by (nonlinear_arith)
                    requires
                        v as int <= pow2_16(i as nat) - 1,
                        segs[i as int] <= 0xffff,
                        pow2_16(i as nat + 1) == pow2_16(i as nat) * 0x1_0000,
                ;
                lemma_pow2_16_bound(i as nat + 1);
            }
            v = v * 0x1_0000 + segs[i] as u128;
            i = i + 1;
        }
        assert(all.take(8) == all);
        Ipv6Addr { bits: v }
    }

    /// The address whose 128-bit value is `bits`.
    pub fn from_bits(bits: u128) -> (r: Ipv6Addr)
        ensures
            r.bits == bits,
    {
        Ipv6Addr { bits }
    }

    /// The 128-bit value of the address.
    pub fn to_bits(&self) -> (r: u128)
        ensures
            r == self.bits,
    {
        self.bits
    }
}

/// 2 to the power 16 times `n`.
pub open spec fn pow2_16(n: nat) -> int
    decreases n,
{
    if n == 0 {
        1
    } else {
        pow2_16((n - 1) as nat) * 0x1_0000
    }
}

proof fn lemma_pow2_16_step(n: nat)
    ensures
        pow2_16(n + 1) == pow2_16(n) * 0x1_0000,
{
}

proof fn lemma_pow2_16_bound(n: nat)
    requires
        n <= 8,
    ensures
        pow2_16(n) <= 0x1_0000_0000_0000_0000_0000_0000_0000_0000,
    decreases n,
{
    if n > 0 {
        lemma_pow2_16_bound((n - 1) as nat);
        assert(pow2_16(n) == pow2_16((n - 1) as nat) * 0x1_0000);
        if n <= 7 {
            assert(pow2_16((n - 1) as nat) <= 0x1_0000_0000_0000_0000_0000_0000_0000) by {
                lemma_pow2_16_small((n - 1) as nat);
            }
        } else {
            reveal_with_fuel(pow2_16, 9);
        }
    }
}

proof fn lemma_pow2_16_small(n: nat)
    requires
        n <= 6,
    ensures
        pow2_16(n) <= 0x1_0000_0000_0000_0000_0000_0000_0000,
{
    reveal_with_fuel(pow2_16, 7);
}

} // verus!
