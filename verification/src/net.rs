//! Network addresses and how they are written.
use vstd::prelude::*;
use crate::text::{decimal, decimal_text, hex_text, hexadecimal, joined};

verus! {

/// An IPv4 address; `bits` holds it as a big-endian number.
#[derive(Clone, Copy, Debug, PartialEq, Eq, PartialOrd, Ord, Hash, Structural)]
pub struct Ipv4Addr {
    pub bits: u32,
}

/// An IPv6 address; `bits` holds it as a big-endian number.
#[derive(Clone, Copy, Debug, PartialEq, Eq, PartialOrd, Ord, Hash, Structural)]
pub struct Ipv6Addr {
    pub bits: u128,
}

/// An address of either family.
#[derive(Clone, Copy, Debug, PartialEq, Eq, PartialOrd, Ord, Hash, Structural)]
pub enum IpAddr {
    V4(Ipv4Addr),
    V6(Ipv6Addr),
}

/// A link-layer address.
#[derive(Clone, Copy, Debug, PartialEq, Eq, PartialOrd, Ord, Hash, Structural)]
pub struct MacAddr(pub u8, pub u8, pub u8, pub u8, pub u8, pub u8);

impl Ipv4Addr {
    /// The four bytes, first byte first.
    pub open spec fn spec_octets(self) -> Seq<u8> {
        let b3 = self.bits;
        let b2 = b3 / 0x100;
        let b1 = b2 / 0x100;
        let b0 = b1 / 0x100;
        seq![b0 as u8, (b1 % 0x100) as u8, (b2 % 0x100) as u8, (b3 % 0x100) as u8]
    }

    pub fn new(a: u8, b: u8, c: u8, d: u8) -> (r: Self)
        ensures
            r.spec_octets() == seq![a, b, c, d],
            r.bits == ((a * 0x100 + b) * 0x100 + c) * 0x100 + d,
    {
        let b0: u32 = a as u32;
        let b1: u32 = append_octet(b0, b);
        let b2: u32 = append_octet(b1, c);
        let b3: u32 = append_octet(b2, d);
        let r = Ipv4Addr { bits: b3 };
        assert(r.spec_octets() =~= seq![a, b, c, d]);
        r
    }

    /// Addresses with the same bytes are the same.
    pub proof fn lemma_octets_tell_apart(self, other: Self)
        requires
            self.spec_octets() == other.spec_octets(),
        ensures
            self == other,
    {
        let a = self.spec_octets();
        let b = other.spec_octets();
        assert(a[0] == b[0] && a[1] == b[1] && a[2] == b[2] && a[3] == b[3]);
    }

    pub fn octets(&self) -> (r: [u8; 4])
        ensures
            r@ == self.spec_octets(),
    {
        let b3: u32 = self.bits;
        let b2: u32 = b3 / 0x100;
        let b1: u32 = b2 / 0x100;
        let b0: u32 = b1 / 0x100;
        let r = [b0 as u8, (b1 % 0x100) as u8, (b2 % 0x100) as u8, (b3 % 0x100) as u8];
        assert(r@ =~= self.spec_octets());
        r
    }

    /// Dotted decimal.
    pub open spec fn text(self) -> Seq<char> {
        let o = self.spec_octets();
        decimal(o[0] as nat) + "."@ + decimal(o[1] as nat) + "."@ + decimal(o[2] as nat) + "."@
            + decimal(o[3] as nat)
    }

    pub fn to_text(&self) -> (r: String)
        ensures
            r@ == self.text(),
    {
        let o = self.octets();
        decimal_text(o[0] as u128).concat(".").concat(&decimal_text(o[1] as u128)).concat(
            ".",
        ).concat(&decimal_text(o[2] as u128)).concat(".").concat(&decimal_text(o[3] as u128))
    }
}

/// The number whose last 8 bits are `low` and whose other bits are `high`.
fn append_octet(high: u32, low: u8) -> (r: u32)
    requires
        high <= 0xff_ffff,
    ensures
        r == high * 0x100 + low,
        r / 0x100 == high,
        r % 0x100 == low,
{
    high * 0x100 + low as u32
}

/// The number whose last 16 bits are `low` and whose other bits are `high`.
fn append_group(high: u128, low: u16) -> (r: u128)
    requires
        high <= 0xffff_ffff_ffff_ffff_ffff_ffff_ffff,
    ensures
        r == high * 0x1_0000 + low,
        r / 0x1_0000 == high,
        r % 0x1_0000 == low,
{
    high * 0x1_0000 + low as u128
}

/// How many zero groups stand in a row from position `i` on.
pub open spec fn zero_run(segments: Seq<u16>, i: int) -> nat
    decreases segments.len() - i,
{
    if 0 <= i < segments.len() && segments[i] == 0 {
        1 + zero_run(segments, i + 1)
    } else {
        0
    }
}

/// The first position below `n` from which the longest row of zero groups starts.
pub open spec fn longest_zero_run(segments: Seq<u16>, n: int) -> int
    decreases n,
{
    if n <= 1 {
        0
    } else {
        let best = longest_zero_run(segments, n - 1);
        if zero_run(segments, n - 1) > zero_run(segments, best) {
            n - 1
        } else {
            best
        }
    }
}

/// Groups in hexadecimal with colons between them.
pub open spec fn groups_text(segments: Seq<u16>) -> Seq<char> {
    joined(segments.map_values(|s: u16| hexadecimal(s as nat)), ":"@)
}

impl Ipv6Addr {
    /// The eight 16-bit groups, first group first.
    pub open spec fn spec_segments(self) -> Seq<u16> {
        let g7 = self.bits;
        let g6 = g7 / 0x1_0000;
        let g5 = g6 / 0x1_0000;
        let g4 = g5 / 0x1_0000;
        let g3 = g4 / 0x1_0000;
        let g2 = g3 / 0x1_0000;
        let g1 = g2 / 0x1_0000;
        let g0 = g1 / 0x1_0000;
        seq![
            g0 as u16,
            (g1 % 0x1_0000) as u16,
            (g2 % 0x1_0000) as u16,
            (g3 % 0x1_0000) as u16,
            (g4 % 0x1_0000) as u16,
            (g5 % 0x1_0000) as u16,
            (g6 % 0x1_0000) as u16,
            (g7 % 0x1_0000) as u16,
        ]
    }

    pub fn new(a: u16, b: u16, c: u16, d: u16, e: u16, f: u16, g: u16, h: u16) -> (r: Self)
        ensures
            r.spec_segments() == seq![a, b, c, d, e, f, g, h],
            r.bits == ((((((a * 0x1_0000 + b) * 0x1_0000 + c) * 0x1_0000 + d) * 0x1_0000 + e) * 0x1_0000 + f) * 0x1_0000 + g) * 0x1_0000 + h,
    {
        let g0: u128 = a as u128;
        let g1: u128 = append_group(g0, b);
        let g2: u128 = append_group(g1, c);
        let g3: u128 = append_group(g2, d);
        let g4: u128 = append_group(g3, e);
        let g5: u128 = append_group(g4, f);
        let g6: u128 = append_group(g5, g);
        let g7: u128 = append_group(g6, h);
        let r = Ipv6Addr { bits: g7 };
        assert(r.spec_segments() =~= seq![a, b, c, d, e, f, g, h]);
        r
    }

    pub fn segments(&self) -> (r: [u16; 8])
        ensures
            r@ == self.spec_segments(),
    {
        let g7: u128 = self.bits;
        let g6: u128 = g7 / 0x1_0000;
        let g5: u128 = g6 / 0x1_0000;
        let g4: u128 = g5 / 0x1_0000;
        let g3: u128 = g4 / 0x1_0000;
        let g2: u128 = g3 / 0x1_0000;
        let g1: u128 = g2 / 0x1_0000;
        let g0: u128 = g1 / 0x1_0000;
        let r = [
            g0 as u16,
            (g1 % 0x1_0000) as u16,
            (g2 % 0x1_0000) as u16,
            (g3 % 0x1_0000) as u16,
            (g4 % 0x1_0000) as u16,
            (g5 % 0x1_0000) as u16,
            (g6 % 0x1_0000) as u16,
            (g7 % 0x1_0000) as u16,
        ];
        assert(r@ =~= self.spec_segments());
        r
    }

    /// The sixteen bytes, first byte first.
    pub open spec fn spec_octets(self) -> Seq<u8> {
        let s = self.spec_segments();
        Seq::new(
            16,
            |i: int|
                if i % 2 == 0 {
                    (s[i / 2] / 0x100) as u8
                } else {
                    (s[i / 2] % 0x100) as u8
                },
        )
    }

    pub fn octets(&self) -> (r: [u8; 16])
        ensures
            r@ == self.spec_octets(),
    {
        let s = self.segments();
        let mut r: [u8; 16] = [0; 16];
        for i in 0..8usize
            invariant
                s@ == self.spec_segments(),
                forall|k: int| 0 <= k < 2 * i ==> r@[k] == self.spec_octets()[k],
        {
            r[2 * i] = (s[i] / 0x100) as u8;
            r[2 * i + 1] = (s[i] % 0x100) as u8;
            assert(r@[2 * i] == self.spec_octets()[2 * i]);
            assert(r@[2 * i + 1] == self.spec_octets()[2 * i + 1]);
        }
        assert(r@ =~= self.spec_octets());
        r
    }

    /// Addresses with the same bytes are the same.
    pub proof fn lemma_octets_tell_apart(self, other: Self)
        requires
            self.spec_octets() == other.spec_octets(),
        ensures
            self == other,
    {
        let a = self.spec_segments();
        let b = other.spec_segments();
        assert forall|i: int| 0 <= i < 8 implies #[trigger] a[i] == b[i] by {
            assert(self.spec_octets()[2 * i] == (a[i] / 0x100) as u8);
            assert(other.spec_octets()[2 * i] == (b[i] / 0x100) as u8);
            assert(self.spec_octets()[2 * i + 1] == (a[i] % 0x100) as u8);
            assert(other.spec_octets()[2 * i + 1] == (b[i] % 0x100) as u8);
            let (x, y) = (a[i], b[i]);
            assert(x / 0x100 == y / 0x100 && x % 0x100 == y % 0x100);
        }
        assert(a[0] == b[0] && a[1] == b[1] && a[2] == b[2] && a[3] == b[3]);
        assert(a[4] == b[4] && a[5] == b[5] && a[6] == b[6] && a[7] == b[7]);
    }

    /// The IPv4 address that `::ffff:a.b.c.d` stands for.
    pub open spec fn mapped_v4(self) -> Option<Ipv4Addr> {
        if self.bits / 0x1_0000_0000 == 0xffff {
            Some(Ipv4Addr { bits: (self.bits % 0x1_0000_0000) as u32 })
        } else {
            None
        }
    }

    /// The canonical text form: lower-case groups without leading zeros, the
    /// first longest row of at least two zero groups written `::`, and an
    /// IPv4-mapped address with its last part in dotted decimal.
    pub open spec fn text(self) -> Seq<char> {
        match self.mapped_v4() {
            Some(v4) => "::ffff:"@ + v4.text(),
            None => {
                let s = self.spec_segments();
                let at = longest_zero_run(s, 8);
                let n = zero_run(s, at);
                if n > 1 {
                    groups_text(s.subrange(0, at)) + "::"@ + groups_text(s.subrange(at + n, 8))
                } else {
                    groups_text(s.subrange(0, 8))
                }
            },
        }
    }

    pub fn to_text(&self) -> (r: String)
        ensures
            r@ == self.text(),
    {
        if self.bits / 0x1_0000_0000 == 0xffff {
            let v4 = Ipv4Addr { bits: (self.bits % 0x1_0000_0000) as u32 };
            return "::ffff:".to_owned().concat(&v4.to_text());
        }
        let s = self.segments();
        let mut at: usize = 0;
        let mut n: usize = zero_run_of(&s, 0);
        for i in 1..8
            invariant
                s@ == self.spec_segments(),
                at < 8,
                at == longest_zero_run(s@, i as int),
                n == zero_run(s@, at as int),
                at + n <= 8,
        {
            let m: usize = zero_run_of(&s, i);
            if m > n {
                at = i;
                n = m;
            }
        }
        if n > 1 {
            groups_between(&s, 0, at).concat("::").concat(&groups_between(&s, at + n, 8))
        } else {
            groups_between(&s, 0, 8)
        }
    }
}

/// How many zero groups stand in a row from position `i` on.
fn zero_run_of(s: &[u16; 8], i: usize) -> (r: usize)
    requires
        i <= 8,
    ensures
        r == zero_run(s@, i as int),
        i + r <= 8,
    decreases 8 - i,
{
    if i < 8 && s[i] == 0 {
        1 + zero_run_of(s, i + 1)
    } else {
        0
    }
}

/// The groups from `from` up to `to` in hexadecimal with colons between them.
fn groups_between(s: &[u16; 8], from: usize, to: usize) -> (r: String)
    requires
        from <= to <= 8,
    ensures
        r@ == groups_text(s@.subrange(from as int, to as int)),
{
    let mut r = String::new();
    let ghost all = s@.subrange(from as int, to as int).map_values(|x: u16| hexadecimal(x as nat));
    assert(all.take(0) =~= Seq::empty());
    for i in from..to
        invariant
            from <= to <= 8,
            from <= i,
            all == s@.subrange(from as int, to as int).map_values(|x: u16| hexadecimal(x as nat)),
            r@ == joined(all.take(i - from), ":"@),
    {
        let ghost next = all.take(i - from + 1);
        assert(next.drop_last() =~= all.take(i - from));
        assert(next.last() == hexadecimal(s@[i as int] as nat));
        if i > from {
            r.append(":");
            r.append(&hex_text(s[i] as u128));
        } else {
            r = hex_text(s[i] as u128);
        }
    }
    assert(all.take(to - from) =~= all);
    r
}

/// A row of zero groups goes on until the first group that is not zero, or the
/// end.
pub proof fn law_zero_run(segments: Seq<u16>, i: int)
    requires
        0 <= i <= segments.len(),
    ensures
        ({
            let n = zero_run(segments, i);
            &&& i + n <= segments.len()
            &&& forall|k: int| i <= k < i + n ==> #[trigger] segments[k] == 0
            &&& i + n < segments.len() ==> segments[i + n] != 0
        }),
    decreases segments.len() - i,
{
    if i < segments.len() && segments[i] == 0 {
        law_zero_run(segments, i + 1);
    }
}

/// The row that is shortened is a longest one, and of several as long the first.
pub proof fn law_first_longest_run(segments: Seq<u16>, n: int, k: int)
    requires
        0 <= k < n <= segments.len(),
    ensures
        ({
            let best = longest_zero_run(segments, n);
            &&& 0 <= best < n
            &&& zero_run(segments, k) <= zero_run(segments, best)
            &&& k < best ==> zero_run(segments, k) < zero_run(segments, best)
        }),
    decreases n,
{
    if n > 1 {
        let before = longest_zero_run(segments, n - 1);
        if k < n - 1 {
            law_first_longest_run(segments, n - 1, k);
        } else {
            law_first_longest_run(segments, n - 1, 0);
        }
    }
}

/// An IPv6 address is written in its groups, with the first longest row of two
/// or more zero groups left out; one that stands for an IPv4 address is
/// written with that address in dotted decimal.
pub proof fn law_ipv6_text(ip: Ipv6Addr)
    ensures
        ({
            let s = ip.spec_segments();
            let at = longest_zero_run(s, 8);
            let n = zero_run(s, at);
            &&& ip.bits / 0x1_0000_0000 == 0xffff ==> ip.text() == "::ffff:"@ + (Ipv4Addr {
                bits: (ip.bits % 0x1_0000_0000) as u32,
            }).text()
            &&& ip.bits / 0x1_0000_0000 != 0xffff && n < 2 ==> ip.text() == groups_text(s)
            &&& ip.bits / 0x1_0000_0000 != 0xffff && n >= 2 ==> ip.text() == groups_text(
                s.take(at),
            ) + "::"@ + groups_text(s.skip(at + n))
        }),
{
    let s = ip.spec_segments();
    let at = longest_zero_run(s, 8);
    law_first_longest_run(s, 8, 0);
    law_zero_run(s, at);
    assert(s.subrange(0, 8) =~= s);
    assert(s.subrange(0, at) =~= s.take(at));
    assert(s.subrange(at + zero_run(s, at), 8) =~= s.skip(at + zero_run(s, at)));
}

/// The bytes of an IPv4 address, high byte first, make up its number, and its
/// text is these bytes in decimal with dots between them.
pub proof fn law_ipv4_bytes_and_text(ip: Ipv4Addr)
    ensures
        ({
            let o = ip.spec_octets();
            &&& o.len() == 4
            &&& ip.bits == ((o[0] * 256 + o[1]) * 256 + o[2]) * 256 + o[3]
            &&& ip.text() == decimal(o[0] as nat).push('.') + decimal(o[1] as nat).push('.')
                + decimal(o[2] as nat).push('.') + decimal(o[3] as nat)
        }),
{
    reveal_strlit(".");
    let o = ip.spec_octets();
    assert(ip.text() =~= decimal(o[0] as nat).push('.') + decimal(o[1] as nat).push('.') + decimal(
        o[2] as nat,
    ).push('.') + decimal(o[3] as nat));
}

} // verus!
