use vstd::prelude::*;

use crate::addr::{octets_value, IpAddr, Ipv4Addr, Ipv6Addr};
use crate::error::Error;

verus! {

/// The character of a digit below sixteen (lower-case for ten and above).
pub open spec fn digit_char(d: nat) -> char {
    if d == 0 { '0' }
    else if d == 1 { '1' }
    else if d == 2 { '2' }
    else if d == 3 { '3' }
    else if d == 4 { '4' }
    else if d == 5 { '5' }
    else if d == 6 { '6' }
    else if d == 7 { '7' }
    else if d == 8 { '8' }
    else if d == 9 { '9' }
    else if d == 10 { 'a' }
    else if d == 11 { 'b' }
    else if d == 12 { 'c' }
    else if d == 13 { 'd' }
    else if d == 14 { 'e' }
    else { 'f' }
}

/// The digits of `n` in base 16 (`hex`) or 10, without leading zeros.
pub open spec fn digits(n: nat, hex: bool) -> Seq<char>
    decreases n,
{
    if hex {
        if n < 16 {
            seq![digit_char(n)]
        } else {
            digits(n / 16, hex) + seq![digit_char(n % 16)]
        }
    } else {
        if n < 10 {
            seq![digit_char(n)]
        } else {
            digits(n / 10, hex) + seq![digit_char(n % 10)]
        }
    }
}

/// Dotted-decimal text of an IPv4 address.
pub open spec fn ipv4_text(a: Ipv4Addr) -> Seq<char> {
    digits((a.bits / 0x100_0000) as nat, false) + seq!['.'] + digits(
        (a.bits / 0x1_0000 % 0x100) as nat,
        false,
    ) + seq!['.'] + digits((a.bits / 0x100 % 0x100) as nat, false) + seq!['.'] + digits(
        (a.bits % 0x100) as nat,
        false,
    )
}

/// Segment `i` (0 is the most significant) of an IPv6 address.
pub open spec fn segment(bits: u128, i: nat) -> nat {
    ((bits >> ((112 - 16 * i) as u128)) & 0xffff) as nat
}

/// The eight segments of an IPv6 address, most significant first.
pub open spec fn segments_of(bits: u128) -> Seq<nat> {
    Seq::new(8, |i: int| segment(bits, i as nat))
}

/// Numbers in lower-case hexadecimal without leading zeros, separated by
/// colons.
pub open spec fn hex_join(s: Seq<nat>) -> Seq<char>
    decreases s.len(),
{
    if s.len() == 0 {
        Seq::empty()
    } else if s.len() == 1 {
        digits(s[0], true)
    } else {
        hex_join(s.drop_last()) + seq![':'] + digits(s.last(), true)
    }
}

/// The length of the run of zeros that ends just before position `n`.
pub open spec fn zero_run_len(s: Seq<nat>, n: int) -> nat
    decreases n,
{
    if n <= 0 {
        0
    } else if s[n - 1] == 0 {
        zero_run_len(s, n - 1) + 1
    } else {
        0
    }
}

/// The start and length of the first longest run of zeros among the first
/// `n` numbers.
pub open spec fn longest_zero_run(s: Seq<nat>, n: int) -> (int, nat)
    decreases n,
{
    if n <= 0 {
        (0, 0)
    } else {
        let prev = longest_zero_run(s, n - 1);
        let cur = zero_run_len(s, n);
        if cur > prev.1 {
            (n - cur, cur)
        } else {
            prev
        }
    }
}

/// Whether an IPv6 address is an IPv4 address mapped into IPv6
/// (`::ffff:a.b.c.d`).
pub open spec fn is_ipv4_mapped(bits: u128) -> bool {
    bits >> 32u128 == 0xffffu128
}

/// The text of an IPv6 address as RFC 5952 writes it: lower-case
/// hexadecimal segments without leading zeros, the first longest run of two
/// or more zero segments shortened to `::`, and a mapped IPv4 address as
/// `::ffff:` followed by its dotted-decimal text.
pub open spec fn ipv6_text(a: Ipv6Addr) -> Seq<char> {
    if is_ipv4_mapped(a.bits) {
        seq![':', ':', 'f', 'f', 'f', 'f', ':'] + ipv4_text(
            Ipv4Addr { bits: (a.bits & 0xffff_ffffu128) as u32 },
        )
    } else {
        let segs = segments_of(a.bits);
        let (start, len) = longest_zero_run(segs, 8);
        if len > 1 {
            hex_join(segs.subrange(0, start)) + seq![':', ':'] + hex_join(
                segs.subrange(start + len, 8),
            )
        } else {
            hex_join(segs)
        }
    }
}

/// The text of an address of either family.
pub open spec fn ip_text(a: IpAddr) -> Seq<char> {
    match a {
        IpAddr::V4(v4) => ipv4_text(v4),
        IpAddr::V6(v6) => ipv6_text(v6),
    }
}

pub(crate) fn digit_str(d: u64) -> (r: &'static str)
    requires
        d < 16,
    ensures
        r@ == seq![digit_char(d as nat)],
{
    proof {
        reveal_strlit("0");
        reveal_strlit("1");
        reveal_strlit("2");
        reveal_strlit("3");
        reveal_strlit("4");
        reveal_strlit("5");
        reveal_strlit("6");
        reveal_strlit("7");
        reveal_strlit("8");
        reveal_strlit("9");
        reveal_strlit("a");
        reveal_strlit("b");
        reveal_strlit("c");
        reveal_strlit("d");
        reveal_strlit("e");
        reveal_strlit("f");
    }
    if d == 0 { "0" }
    else if d == 1 { "1" }
    else if d == 2 { "2" }
    else if d == 3 { "3" }
    else if d == 4 { "4" }
    else if d == 5 { "5" }
    else if d == 6 { "6" }
    else if d == 7 { "7" }
    else if d == 8 { "8" }
    else if d == 9 { "9" }
    else if d == 10 { "a" }
    else if d == 11 { "b" }
    else if d == 12 { "c" }
    else if d == 13 { "d" }
    else if d == 14 { "e" }
    else { "f" }
}

/// Appends the digits of `n` in base 16 (`hex`) or 10.
pub(crate) fn push_digits(s: &mut String, n: u64, hex: bool)
    ensures
        final(s)@ == old(s)@ + digits(n as nat, hex),
    decreases n,
{
    let base: u64 = if hex {
        16
    } else {
        10
    };
    if n >= base {
        push_digits(s, n / base, hex);
    }
    s.append(digit_str(n % base));
    proof {
        assert(final(s)@ =~= old(s)@ + digits(n as nat, hex));
    }
}

fn push_ipv4(s: &mut String, v4: Ipv4Addr)
    ensures
        final(s)@ == old(s)@ + ipv4_text(v4),
{
    let b = v4.bits;
    push_digits(s, (b / 0x100_0000) as u64, false);
    s.append(".");
    push_digits(s, (b / 0x1_0000 % 0x100) as u64, false);
    s.append(".");
    push_digits(s, (b / 0x100 % 0x100) as u64, false);
    s.append(".");
    push_digits(s, (b % 0x100) as u64, false);
    proof {
        reveal_strlit(".");
        assert(final(s)@ =~= old(s)@ + ipv4_text(v4));
    }
}

/// Appends the numbers `segs[from..to]` in hexadecimal, separated by colons.
fn push_hex_join(s: &mut String, segs: &[u64], from: usize, to: usize, Ghost(all): Ghost<Seq<nat>>)
    requires
        from <= to <= segs@.len(),
        segs@.len() == all.len(),
        forall|i: int| 0 <= i < all.len() ==> segs@[i] as nat == #[trigger] all[i],
    ensures
        final(s)@ == old(s)@ + hex_join(all.subrange(from as int, to as int)),
{
    let ghost start = s@;
    let mut i: usize = from;
    while i < to
        invariant
            from <= i <= to <= segs@.len(),
            segs@.len() == all.len(),
            forall|k: int| 0 <= k < all.len() ==> segs@[k] as nat == #[trigger] all[k],
            s@ == start + hex_join(all.subrange(from as int, i as int)),
        decreases to - i,
    {
        if i > from {
            s.append(":");
        }
        push_digits(s, segs[i], true);
        proof {
            reveal_strlit(":");
            let prev = all.subrange(from as int, i as int);
            let next = all.subrange(from as int, i + 1);
            assert(next.drop_last() =~= prev);
            assert(next.last() == segs@[i as int] as nat);
            assert(s@ =~= start + hex_join(next));
        }
        i = i + 1;
    }
}

/// Appends the text of an IPv6 address.
fn push_ipv6(s: &mut String, v6: Ipv6Addr)
    ensures
        final(s)@ == old(s)@ + ipv6_text(v6),
{
    let b = v6.bits;
    if b >> 32u128 == 0xffffu128 {
        s.append("::ffff:");
        let low = (b & 0xffff_ffffu128) as u32;
        push_ipv4(s, Ipv4Addr { bits: low });
        proof {
            reveal_strlit("::ffff:");
            assert(final(s)@ =~= old(s)@ + ipv6_text(v6));
        }
        return;
    }
    let ghost all = segments_of(b);
    let mut segs: Vec<u64> = Vec::new();
    let mut i: u32 = 0;
    while i < 8
        invariant
            0 <= i <= 8,
            segs@.len() == i,
            all == segments_of(b),
            forall|k: int| 0 <= k < i ==> segs@[k] as nat == #[trigger] all[k],
        decreases 8 - i,
    {
        let seg128 = (b >> (112 - 16 * i) as u128) & 0xffff;
        assert(seg128 <= 0xffff) by (bit_vector)
            requires
                seg128 == (b >> (112 - 16 * i) as u128) & 0xffff,
        ;
        segs.push(seg128 as u64);
        assert(segs@[i as int] as nat == all[i as int]);
        i = i + 1;
    }
    let mut cur: usize = 0;
    let mut best_start: usize = 0;
    let mut best_len: usize = 0;
    let mut j: usize = 0;
    while j < 8
        invariant
            0 <= j <= 8,
            segs@.len() == 8,
            all.len() == 8,
            forall|k: int| 0 <= k < 8 ==> segs@[k] as nat == #[trigger] all[k],
            cur as nat == zero_run_len(all, j as int),
            cur <= j,
            (best_start as int, best_len as nat) == longest_zero_run(all, j as int),
            best_start + best_len <= j,
        decreases 8 - j,
    {
        if segs[j] == 0 {
            cur = cur + 1;
        } else {
            cur = 0;
        }
        if cur > best_len {
            best_start = j + 1 - cur;
            best_len = cur;
        }
        j = j + 1;
    }
    if best_len > 1 {
        push_hex_join(s, segs.as_slice(), 0, best_start, Ghost(all));
        s.append("::");
        push_hex_join(s, segs.as_slice(), best_start + best_len, 8, Ghost(all));
        proof {
            reveal_strlit("::");
            assert(final(s)@ =~= old(s)@ + ipv6_text(v6));
        }
    } else {
        push_hex_join(s, segs.as_slice(), 0, 8, Ghost(all));
        proof {
            assert(all.subrange(0, 8) =~= all);
        }
    }
}

/// Appends the text of an address.
pub(crate) fn push_ip(s: &mut String, a: IpAddr)
    ensures
        final(s)@ == old(s)@ + ip_text(a),
{
    match a {
        IpAddr::V4(v4) => push_ipv4(s, v4),
        IpAddr::V6(v6) => push_ipv6(s, v6),
    }
}

/// Builds the text of an address: dotted decimal for IPv4, RFC 5952 text
/// for IPv6.
pub fn ip_to_text(a: IpAddr) -> (r: String)
    ensures
        r@ == ip_text(a),
{
    let mut s = String::new();
    push_ip(&mut s, a);
    s
}

/// Whether a character is a decimal digit.
pub open spec fn is_digit(c: char) -> bool {
    '0' <= c && c <= '9'
}

/// The value of a decimal digit character.
pub open spec fn digit_value(c: char) -> nat {
    (c as u32 - '0' as u32) as nat
}

/// The value of a string of decimal digits.
pub open spec fn decimal_value(t: Seq<char>) -> nat
    decreases t.len(),
{
    if t.len() == 0 {
        0
    } else {
        decimal_value(t.drop_last()) * 10 + digit_value(t.last())
    }
}

/// The decimal digits of a number up to 255 are one to three digit
/// characters whose value is the number.
pub proof fn lemma_decimal_digits(n: nat)
    requires
        n <= 999,
    ensures
        1 <= digits(n, false).len() <= 3,
        n <= 9 ==> digits(n, false).len() == 1,
        n <= 99 ==> digits(n, false).len() <= 2,
        forall|i: int| 0 <= i < digits(n, false).len() ==> is_digit(#[trigger] digits(n, false)[i]),
        decimal_value(digits(n, false)) == n,
    decreases n,
{
    let t = digits(n, false);
    if n < 10 {
        assert(digit_char(n) as u32 == '0' as u32 + n);
        assert(t.drop_last().len() == 0);
        assert(decimal_value(t.drop_last()) == 0);
        assert(t.last() == digit_char(n));
        assert(digit_value(t.last()) == n);
    } else {
        lemma_decimal_digits(n / 10);
        let d = n % 10;
        assert(digit_char(d) as u32 == '0' as u32 + d);
        assert(t.drop_last() =~= digits(n / 10, false));
        assert(t.last() == digit_char(d));
        assert(digit_value(t.last()) == d);
        assert((n / 10) * 10 + n % 10 == n) by (nonlinear_arith);
        assert(decimal_value(t) == decimal_value(t.drop_last()) * 10 + digit_value(t.last()));
        assert forall|i: int| 0 <= i < t.len() implies is_digit(#[trigger] t[i]) by {
            if i < t.len() - 1 {
                assert(t[i] == digits(n / 10, false)[i]);
            }
        }
    }
}

/// Whether an octet's text stands at `start`: its digits, followed by the
/// end of the text or by a character that is not a digit.
pub open spec fn octet_at(cs: Seq<char>, start: int, w: nat) -> bool {
    let d = digits(w, false);
    &&& start + d.len() <= cs.len()
    &&& cs.subrange(start, start + d.len()) == d
    &&& (start + d.len() == cs.len() || !is_digit(cs[start + d.len()]))
}

fn is_digit_char(c: char) -> (r: bool)
    ensures
        r == is_digit(c),
{
    '0' <= c && c <= '9'
}

/// Reads the octet that starts at `start`: the longest run of digits there,
/// when it is the decimal text, without leading zeros, of a number up to
/// 255.
fn read_octet(cs: &[char], start: usize) -> (r: Option<(u8, usize)>)
    requires
        start <= cs@.len(),
    ensures
        r matches Some((v, end)) ==> start < end <= cs@.len() && octet_at(
            cs@,
            start as int,
            v as nat,
        ) && end == start + digits(v as nat, false).len(),
        forall|w: nat|
            w <= 255 && octet_at(cs@, start as int, w) ==> r == Some(
                (w as u8, (start + #[trigger] digits(w, false).len()) as usize),
            ),
{
    let mut j: usize = start;
    let mut v: u32 = 0;
    while j < cs.len() && j - start < 4 && is_digit_char(cs[j])
        invariant
            start <= j <= cs@.len(),
            j - start <= 4,
            v == decimal_value(cs@.subrange(start as int, j as int)),
            v < 10000,
            j - start <= 3 ==> v < 1000,
            j - start <= 2 ==> v < 100,
            j - start <= 1 ==> v < 10,
            forall|k: int| start <= k < j ==> is_digit(#[trigger] cs@[k]),
        decreases cs@.len() - j,
    {
        let d = (cs[j] as u32) - ('0' as u32);
        assert(cs@.subrange(start as int, j + 1).drop_last() =~= cs@.subrange(
            start as int,
            j as int,
        ));
        v = v * 10 + d;
        j = j + 1;
    }
    proof {
        assert forall|w: nat| w <= 255 && octet_at(cs@, start as int, w) implies j == start
            + #[trigger] digits(w, false).len() by {
            lemma_decimal_digits(w);
            let e = start + digits(w, false).len();
            if j < e {
                assert(cs@[j as int] == digits(w, false)[j - start]);
            } else if j > e {
                assert(is_digit(cs@[e]));
            }
        }
    }
    if j == start || j - start > 3 || v > 255 {
        proof {
            assert forall|w: nat| w <= 255 && octet_at(cs@, start as int, w) implies false by {
                lemma_decimal_digits(w);
                assert(j == start + digits(w, false).len());
                assert(cs@.subrange(start as int, j as int) == digits(w, false));
            }
        }
        return None;
    }
    let mut text = String::new();
    push_digits(&mut text, v as u64, false);
    let len = text.unicode_len();
    if len != j - start {
        proof {
            assert forall|w: nat| w <= 255 && octet_at(cs@, start as int, w) implies false by {
                lemma_decimal_digits(w);
                assert(j == start + digits(w, false).len());
                assert(cs@.subrange(start as int, j as int) == digits(w, false));
            }
        }
        return None;
    }
    let mut k: usize = 0;
    while k < len
        invariant
            len == j - start,
            j <= cs@.len(),
            text@ == digits(v as nat, false),
            text@.len() == len,
            0 <= k <= len,
            forall|i: int| 0 <= i < k ==> text@[i] == cs@[start + i],
            v == decimal_value(cs@.subrange(start as int, j as int)),
            forall|w: nat|
                w <= 255 && octet_at(cs@, start as int, w) ==> j == start + #[trigger] digits(
                    w,
                    false,
                ).len(),
        decreases len - k,
    {
        if text.as_str().get_char(k) != cs[start + k] {
            proof {
                assert forall|w: nat| w <= 255 && octet_at(cs@, start as int, w) implies false by {
                    lemma_decimal_digits(w);
                    assert(j == start + digits(w, false).len());
                    assert(cs@.subrange(start as int, j as int) == digits(w, false));
                    assert(w == v);
                    assert(cs@.subrange(start as int, j as int)[k as int] == cs@[start + k]);
                }
            }
            return None;
        }
        k = k + 1;
    }
    proof {
        assert(cs@.subrange(start as int, j as int) =~= digits(v as nat, false));
        lemma_decimal_digits(v as nat);
        assert forall|w: nat| w <= 255 && octet_at(cs@, start as int, w) implies w == v by {
            lemma_decimal_digits(w);
            assert(j == start + digits(w, false).len());
            assert(cs@.subrange(start as int, j as int) == digits(w, false));
        }
    }
    Some((v as u8, j))
}

/// The octets of the address with octets `a.b.c.d` are `a`, `b`, `c`, `d`,
/// and every address is the one of its own octets.
proof fn lemma_octets(a: u8, b: u8, c: u8, d: u8, bits: u32)
    ensures
        octets_value(a, b, c, d) / 0x100_0000 == a,
        octets_value(a, b, c, d) / 0x1_0000 % 0x100 == b,
        octets_value(a, b, c, d) / 0x100 % 0x100 == c,
        octets_value(a, b, c, d) % 0x100 == d,
        bits == octets_value(
            (bits / 0x100_0000) as u8,
            (bits / 0x1_0000 % 0x100) as u8,
            (bits / 0x100 % 0x100) as u8,
            (bits % 0x100) as u8,
        ),
{
    let v = octets_value(a, b, c, d);
    assert(v / 0x100_0000 == a) by (nonlinear_arith)
        requires
            v == a as int * 0x100_0000 + b as int * 0x1_0000 + c as int * 0x100 + d as int,
            a <= 255,
            b <= 255,
            c <= 255,
            d <= 255,
    ;
    assert(v / 0x1_0000 % 0x100 == b) by (nonlinear_arith)
        requires
            v == a as int * 0x100_0000 + b as int * 0x1_0000 + c as int * 0x100 + d as int,
            a <= 255,
            b <= 255,
            c <= 255,
            d <= 255,
    ;
    assert(v / 0x100 % 0x100 == c) by (nonlinear_arith)
        requires
            v == a as int * 0x100_0000 + b as int * 0x1_0000 + c as int * 0x100 + d as int,
            a <= 255,
            b <= 255,
            c <= 255,
            d <= 255,
    ;
    assert(v % 0x100 == d) by (nonlinear_arith)
        requires
            v == a as int * 0x100_0000 + b as int * 0x1_0000 + c as int * 0x100 + d as int,
            a <= 255,
            b <= 255,
            c <= 255,
            d <= 255,
    ;
    let x = bits as int;
    assert(x == (x / 0x100_0000) * 0x100_0000 + (x / 0x1_0000 % 0x100) * 0x1_0000 + (x / 0x100
        % 0x100) * 0x100 + x % 0x100) by (nonlinear_arith)
        requires
            0 <= x < 0x1_0000_0000,
    ;
}

/// Text that is the dotted-decimal text of some IPv4 address.
pub open spec fn is_ipv4_text(s: Seq<char>) -> bool {
    exists|b: u32| #[trigger] ipv4_text(Ipv4Addr { bits: b }) == s
}

/// Where the parts of an address's text stand.
proof fn lemma_ipv4_text_parts(bits: u32) -> (p: (int, int, int))
    ensures
        ({
            let t = ipv4_text(Ipv4Addr { bits });
            &&& t.len() <= 15
            &&& t.len() == p.2 + 1 + digits((bits % 0x100) as nat, false).len()
            &&& 0 < p.0 < p.1 < p.2 < t.len()
            &&& t[p.0] == '.' && t[p.1] == '.' && t[p.2] == '.'
            &&& octet_at(t, 0, (bits / 0x100_0000) as nat)
            &&& p.0 == digits((bits / 0x100_0000) as nat, false).len()
            &&& octet_at(t, p.0 + 1, (bits / 0x1_0000 % 0x100) as nat)
            &&& p.1 == p.0 + 1 + digits((bits / 0x1_0000 % 0x100) as nat, false).len()
            &&& octet_at(t, p.1 + 1, (bits / 0x100 % 0x100) as nat)
            &&& p.2 == p.1 + 1 + digits((bits / 0x100 % 0x100) as nat, false).len()
            &&& octet_at(t, p.2 + 1, (bits % 0x100) as nat)
        }),
{
    let o0 = (bits / 0x100_0000) as nat;
    let o1 = (bits / 0x1_0000 % 0x100) as nat;
    let o2 = (bits / 0x100 % 0x100) as nat;
    let o3 = (bits % 0x100) as nat;
    lemma_decimal_digits(o0);
    lemma_decimal_digits(o1);
    lemma_decimal_digits(o2);
    lemma_decimal_digits(o3);
    let d0 = digits(o0, false);
    let d1 = digits(o1, false);
    let d2 = digits(o2, false);
    let d3 = digits(o3, false);
    let t = ipv4_text(Ipv4Addr { bits });
    let p0 = d0.len() as int;
    let p1 = p0 + 1 + d1.len();
    let p2 = p1 + 1 + d2.len();
    assert(t == d0 + seq!['.'] + d1 + seq!['.'] + d2 + seq!['.'] + d3);
    assert(t.subrange(0, p0) =~= d0);
    assert(t.subrange(p0 + 1, p1) =~= d1);
    assert(t.subrange(p1 + 1, p2) =~= d2);
    assert(t.subrange(p2 + 1, t.len() as int) =~= d3);
    assert(t[p0] == '.');
    assert(t[p1] == '.');
    assert(t[p2] == '.');
    (p0, p1, p2)
}

/// Reads an IPv4 address in dotted-decimal text: four numbers up to 255,
/// without leading zeros, separated by dots.
pub fn parse_ipv4(s: &str) -> (r: Result<Ipv4Addr, Error>)
    ensures
        r matches Ok(a) ==> ipv4_text(a) == s@,
        forall|b: u32|
            #[trigger] ipv4_text(Ipv4Addr { bits: b }) == s@ ==> r == Ok::<Ipv4Addr, Error>(
                Ipv4Addr { bits: b },
            ),
        r is Err <==> !is_ipv4_text(s@),
        r matches Err(e) ==> e == Error::InvalidIpv4Str,
{
    let n = s.unicode_len();
    if n > 15 {
        proof {
            assert forall|b: u32| #[trigger] ipv4_text(Ipv4Addr { bits: b }) != s@ by {
                lemma_ipv4_text_parts(b);
            }
        }
        return Err(Error::InvalidIpv4Str);
    }
    let mut cs: Vec<char> = Vec::new();
    let mut i: usize = 0;
    while i < n
        invariant
            n == s@.len(),
            0 <= i <= n,
            cs@ == s@.subrange(0, i as int),
        decreases n - i,
    {
        cs.push(s.get_char(i));
        i = i + 1;
        assert(cs@ =~= s@.subrange(0, i as int));
    }
    assert(cs@ =~= s@);
    let sl = cs.as_slice();
    assert(sl@ == s@);
    parse_dotted(sl)
}

#[verifier::rlimit(40)]
fn parse_dotted(cs: &[char]) -> (r: Result<Ipv4Addr, Error>)
    ensures
        r matches Ok(a) ==> ipv4_text(a) == cs@,
        forall|b: u32|
            #[trigger] ipv4_text(Ipv4Addr { bits: b }) == cs@ ==> r == Ok::<Ipv4Addr, Error>(
                Ipv4Addr { bits: b },
            ),
        r is Err <==> !is_ipv4_text(cs@),
        r matches Err(e) ==> e == Error::InvalidIpv4Str,
{
    let n = cs.len();
    let ghost t = cs@;
    let ghost b = choose|b: u32| #[trigger] ipv4_text(Ipv4Addr { bits: b }) == t;
    let ghost o0 = (b / 0x100_0000) as nat;
    let ghost o1 = (b / 0x1_0000 % 0x100) as nat;
    let ghost o2 = (b / 0x100 % 0x100) as nat;
    let ghost o3 = (b % 0x100) as nat;
    let ghost p0 = digits(o0, false).len() as int;
    let ghost p1 = p0 + 1 + digits(o1, false).len();
    let ghost p2 = p1 + 1 + digits(o2, false).len();
    let ghost p3 = p2 + 1 + digits(o3, false).len();
    proof {
        if is_ipv4_text(t) {
            let p = lemma_ipv4_text_parts(b);
            assert(p == (p0, p1, p2));
        }
    }
    let (v0, e0) = match read_octet(cs, 0) {
        Some(x) => x,
        None => return Err(Error::InvalidIpv4Str),
    };
    assert(is_ipv4_text(t) ==> v0 == o0 && e0 == p0);
    if e0 >= n || cs[e0] != '.' {
        return Err(Error::InvalidIpv4Str);
    }
    let (v1, e1) = match read_octet(cs, e0 + 1) {
        Some(x) => x,
        None => return Err(Error::InvalidIpv4Str),
    };
    assert(is_ipv4_text(t) ==> v1 == o1 && e1 == p1);
    if e1 >= n || cs[e1] != '.' {
        return Err(Error::InvalidIpv4Str);
    }
    let (v2, e2) = match read_octet(cs, e1 + 1) {
        Some(x) => x,
        None => return Err(Error::InvalidIpv4Str),
    };
    assert(is_ipv4_text(t) ==> v2 == o2 && e2 == p2);
    if e2 >= n || cs[e2] != '.' {
        return Err(Error::InvalidIpv4Str);
    }
    let (v3, e3) = match read_octet(cs, e2 + 1) {
        Some(x) => x,
        None => return Err(Error::InvalidIpv4Str),
    };
    assert(is_ipv4_text(t) ==> v3 == o3 && e3 == p3);
    if e3 != n {
        return Err(Error::InvalidIpv4Str);
    }
    let a = Ipv4Addr::new(v0, v1, v2, v3);
    proof {
        lemma_octets(v0, v1, v2, v3, 0);
        assert(t =~= t.subrange(0, e0 as int) + seq!['.'] + t.subrange(e0 + 1, e1 as int) + seq![
            '.',
        ] + t.subrange(e1 + 1, e2 as int) + seq!['.'] + t.subrange(e2 + 1, e3 as int));
        assert(ipv4_text(a) == t);
        assert(ipv4_text(Ipv4Addr { bits: a.bits }) == t);
        assert forall|c: u32| #[trigger] ipv4_text(Ipv4Addr { bits: c }) == t implies c
            == a.bits by {
            lemma_ipv4_text_parts(c);
            lemma_octets(v0, v1, v2, v3, c);
        }
    }
    Ok(a)
}

} // verus!
