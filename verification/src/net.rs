//! Network addresses as plain values.

use crate::table::Key;
use crate::text::{push_decimal, read_octet};
use vstd::prelude::*;
use vstd::string::StringExecFns;

verus! {

/// An IPv4 address, octet by octet.
#[derive(Clone, Copy, PartialEq, Eq, Structural, Debug, Hash)]
pub struct Ipv4Addr {
    /// First octet.
    pub a: u8,
    /// Second octet.
    pub b: u8,
    /// Third octet.
    pub c: u8,
    /// Fourth octet.
    pub d: u8,
}

/// The loopback address `127.0.0.1`.
pub open spec fn localhost() -> Ipv4Addr {
    Ipv4Addr { a: 127, b: 0, c: 0, d: 1 }
}

impl Ipv4Addr {
    /// `0.0.0.0`.
    pub open spec fn unspecified(self) -> bool {
        self.a == 0 && self.b == 0 && self.c == 0 && self.d == 0
    }

    /// `224.0.0.0/4`.
    pub open spec fn multicast(self) -> bool {
        224 <= self.a <= 239
    }

    /// `255.255.255.255`.
    pub open spec fn broadcast(self) -> bool {
        self.a == 255 && self.b == 255 && self.c == 255 && self.d == 255
    }

    /// The address in dotted decimal.
    pub open spec fn dotted(self) -> Seq<char> {
        crate::text::decimal(self.a as int) + seq!['.'] + crate::text::decimal(self.b as int)
            + seq!['.'] + crate::text::decimal(self.c as int) + seq!['.']
            + crate::text::decimal(self.d as int)
    }

    /// The address in dotted decimal.
    pub fn text(&self) -> (r: String)
        ensures
            r@ == self.dotted(),
    {
        proof {
            reveal_strlit(".");
            assert("."@ =~= seq!['.']);
        }
        let mut r = String::new();
        push_decimal(&mut r, self.a as u32);
        r.append(".");
        push_decimal(&mut r, self.b as u32);
        r.append(".");
        push_decimal(&mut r, self.c as u32);
        r.append(".");
        push_decimal(&mut r, self.d as u32);
        assert(r@ =~= self.dotted());
        r
    }

    /// The address that `text` spells in dotted decimal: four octets without leading
    /// zeros.
    pub fn parse(text: &str) -> (r: Option<Self>)
        ensures
            match r {
                Some(ip) => text@ == ip.dotted(),
                None => forall|ip: Ipv4Addr| text@ != #[trigger] ip.dotted(),
            },
            forall|ip: Ipv4Addr| text@ == #[trigger] ip.dotted() ==> r == Some(ip),
    {
        let ghost s = text@;
        proof {
            assert forall|ip: Ipv4Addr| s == #[trigger] ip.dotted() implies ip.cut(s) by {
                lemma_dotted_cut(ip, s);
            }
        }
        let n: usize = text.unicode_len();
        let mut chars: Vec<char> = Vec::new();
        let mut k: usize = 0;
        while k < n
            invariant
                0 <= k <= n,
                n == text@.len(),
                chars@ == text@.take(k as int),
            decreases n - k,
        {
            proof {
                crate::rows::lemma_take_step(text@, k as int);
            }
            chars.push(text.get_char(k));
            k += 1;
        }
        assert(chars@ =~= s);
        let (a, i) = match read_octet(&chars, 0) {
            Some(x) => x,
            None => {
                return None;
            },
        };
        proof {
            assert forall|ip: Ipv4Addr| #[trigger] ip.cut(s) implies ip.a == a && s.len() > i
                && s[i as int] == '.' by {
                let (p, q, u) = choose|p: int, q: int, u: int| ip.cut_at(s, p, q, u);
                crate::text::lemma_spells_unique(s, 0, i as int, a, p, ip.a);
            }
        }
        if i >= n || chars[i] != '.' {
            return None;
        }
        let (b, j) = match read_octet(&chars, i + 1) {
            Some(x) => x,
            None => {
                proof {
                    assert forall|ip: Ipv4Addr| !#[trigger] ip.cut(s) by {
                        if ip.cut(s) {
                            let (p, q, u) = choose|p: int, q: int, u: int| ip.cut_at(s, p, q, u);
                            crate::text::lemma_spells_unique(s, 0, i as int, a, p, ip.a);
                        }
                    }
                }
                return None;
            },
        };
        proof {
            assert forall|ip: Ipv4Addr| #[trigger] ip.cut(s) implies ip.b == b && s.len() > j
                && s[j as int] == '.' by {
                let (p, q, u) = choose|p: int, q: int, u: int| ip.cut_at(s, p, q, u);
                crate::text::lemma_spells_unique(s, 0, i as int, a, p, ip.a);
                crate::text::lemma_spells_unique(s, i + 1, j as int, b, q, ip.b);
            }
        }
        if j >= n || chars[j] != '.' {
            return None;
        }
        let (c, m) = match read_octet(&chars, j + 1) {
            Some(x) => x,
            None => {
                proof {
                    assert forall|ip: Ipv4Addr| !#[trigger] ip.cut(s) by {
                        if ip.cut(s) {
                            let (p, q, u) = choose|p: int, q: int, u: int| ip.cut_at(s, p, q, u);
                            crate::text::lemma_spells_unique(s, 0, i as int, a, p, ip.a);
                            crate::text::lemma_spells_unique(s, i + 1, j as int, b, q, ip.b);
                        }
                    }
                }
                return None;
            },
        };
        proof {
            assert forall|ip: Ipv4Addr| #[trigger] ip.cut(s) implies ip.c == c && s.len() > m
                && s[m as int] == '.' by {
                let (p, q, u) = choose|p: int, q: int, u: int| ip.cut_at(s, p, q, u);
                crate::text::lemma_spells_unique(s, 0, i as int, a, p, ip.a);
                crate::text::lemma_spells_unique(s, i + 1, j as int, b, q, ip.b);
                crate::text::lemma_spells_unique(s, j + 1, m as int, c, u, ip.c);
            }
        }
        if m >= n || chars[m] != '.' {
            return None;
        }
        let (d, e) = match read_octet(&chars, m + 1) {
            Some(x) => x,
            None => {
                proof {
                    assert forall|ip: Ipv4Addr| !#[trigger] ip.cut(s) by {
                        if ip.cut(s) {
                            let (p, q, u) = choose|p: int, q: int, u: int| ip.cut_at(s, p, q, u);
                            crate::text::lemma_spells_unique(s, 0, i as int, a, p, ip.a);
                            crate::text::lemma_spells_unique(s, i + 1, j as int, b, q, ip.b);
                            crate::text::lemma_spells_unique(s, j + 1, m as int, c, u, ip.c);
                        }
                    }
                }
                return None;
            },
        };
        proof {
            assert forall|ip: Ipv4Addr| #[trigger] ip.cut(s) implies ip.d == d && s.len() == e by {
                let (p, q, u) = choose|p: int, q: int, u: int| ip.cut_at(s, p, q, u);
                crate::text::lemma_spells_unique(s, 0, i as int, a, p, ip.a);
                crate::text::lemma_spells_unique(s, i + 1, j as int, b, q, ip.b);
                crate::text::lemma_spells_unique(s, j + 1, m as int, c, u, ip.c);
                crate::text::lemma_spells_unique(s, m + 1, e as int, d, s.len() as int, ip.d);
            }
        }
        if e != n {
            return None;
        }
        let ip = Ipv4Addr { a, b, c, d };
        proof {
            let t = s.subrange(0, i as int) + seq!['.'] + s.subrange(i + 1, j as int) + seq!['.']
                + s.subrange(j + 1, m as int) + seq!['.'] + s.subrange(m + 1, e as int);
            assert(t =~= s);
        }
        Some(ip)
    }

    /// The first three octets of the text end at `p`, `q` and `u`.
    spec fn cut_at(self, s: Seq<char>, p: int, q: int, u: int) -> bool {
        &&& 0 <= p < q < u < s.len()
        &&& crate::text::spells(s, 0, p, self.a)
        &&& s[p] == '.'
        &&& crate::text::spells(s, p + 1, q, self.b)
        &&& s[q] == '.'
        &&& crate::text::spells(s, q + 1, u, self.c)
        &&& s[u] == '.'
        &&& crate::text::spells(s, u + 1, s.len() as int, self.d)
    }

    spec fn cut(self, s: Seq<char>) -> bool {
        exists|p: int, q: int, u: int| self.cut_at(s, p, q, u)
    }

    /// The address with these octets.
    pub fn new(a: u8, b: u8, c: u8, d: u8) -> (r: Self)
        ensures
            r == (Ipv4Addr { a, b, c, d }),
    {
        Ipv4Addr { a, b, c, d }
    }

    /// Whether this is `0.0.0.0`.
    pub fn is_unspecified(&self) -> (r: bool)
        ensures
            r == self.unspecified(),
    {
        self.a == 0 && self.b == 0 && self.c == 0 && self.d == 0
    }

    /// Whether this is in `224.0.0.0/4`.
    pub fn is_multicast(&self) -> (r: bool)
        ensures
            r == self.multicast(),
    {
        self.a >= 224 && self.a <= 239
    }

    /// Whether this is `255.255.255.255`.
    pub fn is_broadcast(&self) -> (r: bool)
        ensures
            r == self.broadcast(),
    {
        self.a == 255 && self.b == 255 && self.c == 255 && self.d == 255
    }
}

proof fn lemma_dotted_cut(ip: Ipv4Addr, s: Seq<char>)
    requires
        s == ip.dotted(),
    ensures
        ip.cut(s),
{
    crate::text::lemma_octet_digits(ip.a);
    crate::text::lemma_octet_digits(ip.b);
    crate::text::lemma_octet_digits(ip.c);
    crate::text::lemma_octet_digits(ip.d);
    let da = crate::text::decimal(ip.a as int);
    let db = crate::text::decimal(ip.b as int);
    let dc = crate::text::decimal(ip.c as int);
    let dd = crate::text::decimal(ip.d as int);
    let p = da.len() as int;
    let q = p + 1 + db.len();
    let u = q + 1 + dc.len();
    assert(s.subrange(0, p) =~= da);
    assert(s.subrange(p + 1, q) =~= db);
    assert(s.subrange(q + 1, u) =~= dc);
    assert(s.subrange(u + 1, s.len() as int) =~= dd);
    assert(!crate::text::is_digit('.'));
    assert(ip.cut_at(s, p, q, u));
}

/// An IP address; a V6 address is held as its 128 bits.
#[derive(Clone, Copy, PartialEq, Eq, Structural, Debug, Hash)]
pub enum IpAddr {
    /// IPv4.
    V4(Ipv4Addr),
    /// IPv6.
    V6(u128),
}

impl IpAddr {
    /// `0.0.0.0` or `::`.
    pub open spec fn unspecified(self) -> bool {
        match self {
            IpAddr::V4(ip) => ip.unspecified(),
            IpAddr::V6(bits) => bits == 0,
        }
    }

    /// The IPv4 address, or the loopback address where this is no IPv4 address.
    pub open spec fn v4_or_localhost(self) -> Ipv4Addr {
        match self {
            IpAddr::V4(ip) => ip,
            IpAddr::V6(_) => localhost(),
        }
    }

    /// Whether this is `0.0.0.0` or `::`.
    pub fn is_unspecified(&self) -> (r: bool)
        ensures
            r == self.unspecified(),
    {
        match self {
            IpAddr::V4(ip) => ip.is_unspecified(),
            IpAddr::V6(bits) => *bits == 0,
        }
    }

    /// The IPv4 address, or the loopback address where this is no IPv4 address.
    pub fn to_v4(&self) -> (r: Ipv4Addr)
        ensures
            r == self.v4_or_localhost(),
    {
        match self {
            IpAddr::V4(ip) => *ip,
            IpAddr::V6(_) => Ipv4Addr::new(127, 0, 0, 1),
        }
    }
}

impl Key for IpAddr {
    fn same(&self, other: &Self) -> (r: bool) {
        *self == *other
    }
}

/// An IP address and a port.
#[derive(Clone, Copy, PartialEq, Eq, Structural, Debug, Hash)]
pub struct SocketAddr {
    /// The host.
    pub ip: IpAddr,
    /// The port.
    pub port: u16,
}

impl SocketAddr {
    /// The endpoint at `ip` and `port`.
    pub fn new(ip: IpAddr, port: u16) -> (r: Self)
        ensures
            r == (SocketAddr { ip, port }),
    {
        SocketAddr { ip, port }
    }

    /// The IPv4 endpoint at `ip` and `port`.
    pub fn v4(ip: Ipv4Addr, port: u16) -> (r: Self)
        ensures
            r == (SocketAddr { ip: IpAddr::V4(ip), port }),
    {
        SocketAddr { ip: IpAddr::V4(ip), port }
    }
}

impl Key for SocketAddr {
    fn same(&self, other: &Self) -> (r: bool) {
        *self == *other
    }
}

} // verus!
