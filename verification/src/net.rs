//! Socket addresses as plain values, and their usual text.
use vstd::prelude::*;
use vstd::string::StringExecFns;
use crate::strings::{digits_text, push_char, push_digits};

verus! {

/// An IPv4 address and port.
#[derive(Copy, Clone, Eq, PartialEq, Structural, Hash, Debug)]
pub struct NetAddrV4 {
    /// The address as a big-endian number: `a.b.c.d` is `a << 24 | b << 16 | c << 8 | d`.
    pub ip: u32,
    pub port: u16,
}

/// An IPv6 address and port, with the flow label and scope id of the socket address.
#[derive(Copy, Clone, Eq, PartialEq, Structural, Hash, Debug)]
pub struct NetAddrV6 {
    /// The address as a big-endian number.
    pub ip: u128,
    pub port: u16,
    pub flowinfo: u32,
    pub scope_id: u32,
}

/// An IPv4 or IPv6 socket address.
#[derive(Copy, Clone, Eq, PartialEq, Structural, Hash, Debug)]
pub enum NetAddr {
    V4(NetAddrV4),
    V6(NetAddrV6),
}

/// An IPv4 or IPv6 address without a port, each as a big-endian number.
#[derive(Copy, Clone, Eq, PartialEq, Structural, Hash, Debug)]
pub enum IpValue {
    V4(u32),
    V6(u128),
}

/// The port of an address.
pub open spec fn addr_port(addr: NetAddr) -> u16 {
    match addr {
        NetAddr::V4(a) => a.port,
        NetAddr::V6(a) => a.port,
    }
}

impl NetAddr {
    pub fn port(&self) -> (r: u16)
        ensures
            r == addr_port(*self),
    {
        match self {
            NetAddr::V4(a) => a.port,
            NetAddr::V6(a) => a.port,
        }
    }
}

/// The decimal digits of `n`.
pub open spec fn decimal(n: nat) -> Seq<char> {
    digits_text(n, 10)
}

/// The lower-case hexadecimal digits of `n`.
pub open spec fn hexadecimal(n: nat) -> Seq<char> {
    digits_text(n, 16)
}

/// An IPv4 address in dotted decimal: `a.b.c.d`.
pub open spec fn ipv4_text(ip: u32) -> Seq<char> {
    decimal(((ip >> 24u32) & 0xffu32) as nat) + "."@ + decimal(((ip >> 16u32) & 0xffu32) as nat) + "."@
        + decimal(((ip >> 8u32) & 0xffu32) as nat) + "."@ + decimal((ip & 0xffu32) as nat)
}

/// The eight 16-bit groups of an IPv6 address, most significant first.
pub open spec fn v6_groups(ip: u128) -> Seq<u16> {
    Seq::new(8, |k: int| ((ip >> ((112 - 16 * k) as u32)) & 0xffffu128) as u16)
}

/// The scan for the longest run of zero groups from group `i` on, `cur` being the run
/// that reaches `i` and `best` the longest one before it, each as (start, length). Of
/// runs of equal length the first is kept.
pub open spec fn zero_run_scan(groups: Seq<u16>, i: int, cur: (int, int), best: (int, int)) -> (int, int)
    decreases groups.len() - i,
{
    if i >= groups.len() || i < 0 {
        best
    } else if groups[i] == 0 {
        let start = if cur.1 == 0 {
            i
        } else {
            cur.0
        };
        let next = (start, cur.1 + 1);
        zero_run_scan(groups, i + 1, next, if next.1 > best.1 { next } else { best })
    } else {
        zero_run_scan(groups, i + 1, (0, 0), best)
    }
}

/// The first of the longest runs of zero groups, as (start, length); length zero when
/// no group is zero.
pub open spec fn longest_zero_run(groups: Seq<u16>) -> (int, int) {
    zero_run_scan(groups, 0, (0, 0), (0, 0))
}

/// Groups in hexadecimal, separated by colons.
pub open spec fn hex_groups(groups: Seq<u16>) -> Seq<char>
    decreases groups.len(),
{
    if groups.len() == 0 {
        Seq::empty()
    } else if groups.len() == 1 {
        hexadecimal(groups[0] as nat)
    } else {
        hex_groups(groups.drop_last()) + ":"@ + hexadecimal(groups.last() as nat)
    }
}

/// The address is `::ffff:a.b.c.d`, an IPv4 address mapped into IPv6.
pub open spec fn is_v4_mapped(ip: u128) -> bool {
    let g = v6_groups(ip);
    g[0] == 0 && g[1] == 0 && g[2] == 0 && g[3] == 0 && g[4] == 0 && g[5] == 0xffff
}

/// An IPv6 address in its usual text: an IPv4-mapped address as `::ffff:` and the
/// dotted IPv4 address; any other as its groups in hexadecimal, the first of the longest
/// runs of two or more zero groups written `::`.
pub open spec fn ipv6_text(ip: u128) -> Seq<char> {
    let g = v6_groups(ip);
    let run = longest_zero_run(g);
    if is_v4_mapped(ip) {
        "::ffff:"@ + ipv4_text((ip & 0xffff_ffffu128) as u32)
    } else if run.1 > 1 {
        hex_groups(g.take(run.0)) + "::"@ + hex_groups(g.skip(run.0 + run.1))
    } else {
        hex_groups(g)
    }
}

/// A socket address in its usual text: `a.b.c.d:port`, or `[ipv6]:port` with `%scope`
/// after the address where the scope id is not zero.
pub open spec fn socket_text(addr: NetAddr) -> Seq<char> {
    match addr {
        NetAddr::V4(a) => ipv4_text(a.ip) + ":"@ + decimal(a.port as nat),
        NetAddr::V6(a) => "["@ + ipv6_text(a.ip) + (if a.scope_id == 0 {
            Seq::empty()
        } else {
            "%"@ + decimal(a.scope_id as nat)
        }) + "]:"@ + decimal(a.port as nat),
    }
}

/// The address is a loopback address: 127.0.0.0/8, or `::1`.
pub open spec fn is_loopback_addr(addr: NetAddr) -> bool {
    match addr {
        NetAddr::V4(a) => (a.ip >> 24u32) == 127,
        NetAddr::V6(a) => a.ip == 1,
    }
}

fn push_ipv4(s: &mut String, ip: u32)
    ensures
        final(s)@ == old(s)@ + ipv4_text(ip),
{
    push_digits(s, ((ip >> 24u32) & 0xffu32) as u64, 10);
    s.append(".");
    push_digits(s, ((ip >> 16u32) & 0xffu32) as u64, 10);
    s.append(".");
    push_digits(s, ((ip >> 8u32) & 0xffu32) as u64, 10);
    s.append(".");
    push_digits(s, (ip & 0xffu32) as u64, 10);
    assert(final(s)@ =~= old(s)@ + ipv4_text(ip));
}

fn groups_of(ip: u128) -> (r: Vec<u16>)
    ensures
        r@ == v6_groups(ip),
{
    let mut r: Vec<u16> = Vec::new();
    let mut k: u32 = 0;
    while k < 8
        invariant
            k <= 8,
            r@.len() == k,
            forall|j: int| 0 <= j < k ==> r@[j] == v6_groups(ip)[j],
        decreases 8 - k,
    {
        r.push(((ip >> (112 - 16 * k)) & 0xffff) as u16);
        k = k + 1;
    }
    assert(r@ =~= v6_groups(ip));
    r
}

fn longest_zero_run_of(groups: &Vec<u16>) -> (r: (usize, usize))
    requires
        groups@.len() == 8,
    ensures
        r.0 as int == longest_zero_run(groups@).0,
        r.1 as int == longest_zero_run(groups@).1,
        r.0 + r.1 <= 8,
{
    let mut cur: (usize, usize) = (0, 0);
    let mut best: (usize, usize) = (0, 0);
    let mut i: usize = 0;
    while i < 8
        invariant
            i <= 8,
            groups@.len() == 8,
            cur.0 + cur.1 == i || cur.1 == 0,
            cur.0 == 0 || cur.1 > 0,
            best.0 + best.1 <= i,
            longest_zero_run(groups@) == zero_run_scan(
                groups@,
                i as int,
                (cur.0 as int, cur.1 as int),
                (best.0 as int, best.1 as int),
            ),
        decreases 8 - i,
    {
        if groups[i] == 0 {
            let start = if cur.1 == 0 {
                i
            } else {
                cur.0
            };
            cur = (start, cur.1 + 1);
            if cur.1 > best.1 {
                best = cur;
            }
        } else {
            cur = (0, 0);
        }
        i = i + 1;
    }
    best
}

/// Appends `groups[from..to]` in hexadecimal, separated by colons.
fn push_hex_groups(s: &mut String, groups: &Vec<u16>, from: usize, to: usize)
    requires
        from <= to <= groups@.len(),
    ensures
        final(s)@ == old(s)@ + hex_groups(groups@.subrange(from as int, to as int)),
{
    let mut i: usize = from;
    while i < to
        invariant
            from <= i <= to,
            to <= groups@.len(),
            s@ == old(s)@ + hex_groups(groups@.subrange(from as int, i as int)),
        decreases to - i,
    {
        let ghost before = s@;
        if i > from {
            push_char(s, ':');
        }
        push_digits(s, groups[i] as u64, 16);
        proof {
            reveal_strlit(":");
            let next = groups@.subrange(from as int, i + 1);
            assert(next.drop_last() =~= groups@.subrange(from as int, i as int));
            if i == from {
                assert(groups@.subrange(from as int, i as int) =~= Seq::<u16>::empty());
            }
            assert(s@ =~= old(s)@ + hex_groups(next));
        }
        i = i + 1;
    }
}

fn push_ipv6(s: &mut String, ip: u128)
    ensures
        final(s)@ == old(s)@ + ipv6_text(ip),
{
    let g = groups_of(ip);
    if g[0] == 0 && g[1] == 0 && g[2] == 0 && g[3] == 0 && g[4] == 0 && g[5] == 0xffff {
        s.append("::ffff:");
        push_ipv4(s, (ip & 0xffff_ffff) as u32);
        assert(final(s)@ =~= old(s)@ + ipv6_text(ip));
    } else {
        let run = longest_zero_run_of(&g);
        if run.1 > 1 {
            push_hex_groups(s, &g, 0, run.0);
            s.append("::");
            push_hex_groups(s, &g, run.0 + run.1, 8);
            proof {
                assert(g@.subrange(0, run.0 as int) =~= g@.take(run.0 as int));
                assert(g@.subrange((run.0 + run.1) as int, 8) =~= g@.skip((run.0 + run.1) as int));
            }
            assert(final(s)@ =~= old(s)@ + ipv6_text(ip));
        } else {
            push_hex_groups(s, &g, 0, 8);
            assert(g@.subrange(0, 8) =~= g@);
            assert(final(s)@ =~= old(s)@ + ipv6_text(ip));
        }
    }
}

impl NetAddr {
    /// The address in its usual text, as `socket_text` describes it.
    pub fn text(&self) -> (r: String)
        ensures
            r@ == socket_text(*self),
    {
        let mut r = String::new();
        match self {
            NetAddr::V4(a) => {
                push_ipv4(&mut r, a.ip);
                push_char(&mut r, ':');
                push_digits(&mut r, a.port as u64, 10);
            },
            NetAddr::V6(a) => {
                push_char(&mut r, '[');
                push_ipv6(&mut r, a.ip);
                if a.scope_id != 0 {
                    push_char(&mut r, '%');
                    push_digits(&mut r, a.scope_id as u64, 10);
                }
                r.append("]:");
                push_digits(&mut r, a.port as u64, 10);
            },
        }
        proof {
            reveal_strlit(":");
            reveal_strlit("[");
            reveal_strlit("%");
        }
        assert(r@ =~= socket_text(*self));
        r
    }

    /// Whether the address is a loopback address.
    pub fn is_loopback(&self) -> (r: bool)
        ensures
            r == is_loopback_addr(*self),
    {
        match self {
            NetAddr::V4(a) => (a.ip >> 24u32) == 127,
            NetAddr::V6(a) => a.ip == 1,
        }
    }
}

} // verus!
