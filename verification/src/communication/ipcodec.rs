//! IPv4 friend codes: an address and port written as nine base-62 characters.
//!
//! Decoding here is lenient: a character that is no base-62 digit counts as 0.
use vstd::prelude::*;
use crate::base62::{base62_value, encode_digits, lemma_encode_decode, lemma_power_62_values};
use crate::bytes::power;
use crate::net::NetAddrV4;

verus! {

/// Copies the first `N` characters of `v` into an array.
pub(crate) fn to_char_array<const N: usize>(v: &Vec<char>) -> (r: [char; N])
    requires
        v@.len() == N,
    ensures
        r@ == v@,
{
    let mut out = ['\0'; N];
    let mut i: usize = 0;
    proof {
        broadcast use vstd::array::group_array_axioms;
    }
    while i < N
        invariant
            i <= N,
            v@.len() == N,
            out@.len() == N,
            forall|k: int| 0 <= k < i ==> #[trigger] out@[k] == v@[k],
        decreases N - i,
    {
        out[i] = v[i];
        i = i + 1;
    }
    assert(out@ =~= v@);
    out
}

pub fn decode_ipv4(digits: [char; 6]) -> (r: u32)
    requires
        base62_value(digits@) <= u32::MAX,
    ensures
        r == base62_value(digits@),
{
    crate::base62::decode_lenient(digits.as_slice()) as u32
}

pub fn decode_ipv6(digits: [char; 22]) -> (r: u128)
    requires
        base62_value(digits@) <= u128::MAX,
    ensures
        r == base62_value(digits@),
{
    crate::base62::decode_lenient(digits.as_slice())
}

pub fn decode_port(digits: [char; 3]) -> (r: u16)
    requires
        base62_value(digits@) <= u16::MAX,
    ensures
        r == base62_value(digits@),
{
    crate::base62::decode_lenient(digits.as_slice()) as u16
}

pub fn encode_port(port: u16) -> (r: [char; 3])
    ensures
        r@ == encode_digits(port as nat, 3),
{
    proof {
        lemma_power_62_values();
    }
    let v = crate::base62::encode(port as u128, 3);
    proof {
        crate::base62::lemma_encode_len(port as nat, 3);
    }
    to_char_array(&v)
}

pub fn encode_ipv4(ip: u32) -> (r: [char; 6])
    ensures
        r@ == encode_digits(ip as nat, 6),
{
    proof {
        lemma_power_62_values();
    }
    let v = crate::base62::encode(ip as u128, 6);
    proof {
        crate::base62::lemma_encode_len(ip as nat, 6);
    }
    to_char_array(&v)
}

/// The nine characters of an address: six for the IP, three for the port.
pub fn encode_socketaddrv4(addr: NetAddrV4) -> (r: [char; 9])
    ensures
        r@ == encode_digits(addr.ip as nat, 6) + encode_digits(addr.port as nat, 3),
{
    let encoded_ip = encode_ipv4(addr.ip);
    let encoded_port = encode_port(addr.port);
    let r = [
        encoded_ip[0],
        encoded_ip[1],
        encoded_ip[2],
        encoded_ip[3],
        encoded_ip[4],
        encoded_ip[5],
        encoded_port[0],
        encoded_port[1],
        encoded_port[2],
    ];
    assert(r@ =~= encoded_ip@ + encoded_port@);
    r
}

/// Codes whose two parts decode to values that fit an IPv4 address and a port.
pub open spec fn fits_v4(code: Seq<char>) -> bool {
    &&& base62_value(code.subrange(0, 6)) <= u32::MAX
    &&& base62_value(code.subrange(6, 9)) <= u16::MAX
}

pub fn decode_socketaddrv4(code: [char; 9]) -> (r: NetAddrV4)
    requires
        fits_v4(code@),
    ensures
        r.ip == base62_value(code@.subrange(0, 6)),
        r.port == base62_value(code@.subrange(6, 9)),
{
    let ip_bytes = [code[0], code[1], code[2], code[3], code[4], code[5]];
    assert(ip_bytes@ =~= code@.subrange(0, 6));
    let ip_num = decode_ipv4(ip_bytes);
    let port_bytes = [code[6], code[7], code[8]];
    assert(port_bytes@ =~= code@.subrange(6, 9));
    let port = decode_port(port_bytes);
    NetAddrV4 { ip: ip_num, port }
}

/// Every port reads back from its three characters.
pub proof fn lemma_port_roundtrip(port: u16)
    ensures
        base62_value(encode_digits(port as nat, 3)) == port,
{
    lemma_power_62_values();
    lemma_encode_decode(port as nat, 3);
}

/// Every IPv4 address reads back from its six characters.
pub proof fn lemma_ipv4_roundtrip(ip: u32)
    ensures
        base62_value(encode_digits(ip as nat, 6)) == ip,
{
    lemma_power_62_values();
    lemma_encode_decode(ip as nat, 6);
}

/// Every address reads back from its friend code.
pub proof fn lemma_socketaddrv4_roundtrip(addr: NetAddrV4)
    ensures
        fits_v4(encode_digits(addr.ip as nat, 6) + encode_digits(addr.port as nat, 3)),
        base62_value((encode_digits(addr.ip as nat, 6) + encode_digits(addr.port as nat, 3)).subrange(0, 6)) == addr.ip,
        base62_value((encode_digits(addr.ip as nat, 6) + encode_digits(addr.port as nat, 3)).subrange(6, 9)) == addr.port,
{
    let a = encode_digits(addr.ip as nat, 6);
    let b = encode_digits(addr.port as nat, 3);
    crate::base62::lemma_encode_len(addr.ip as nat, 6);
    crate::base62::lemma_encode_len(addr.port as nat, 3);
    assert((a + b).subrange(0, 6) =~= a);
    assert((a + b).subrange(6, 9) =~= b);
    lemma_ipv4_roundtrip(addr.ip);
    lemma_port_roundtrip(addr.port);
}

/// A friend code for an IPv4 address.
#[derive(Copy, Clone, Eq, PartialEq, Structural, Hash)]
pub struct FriendCodeV4 {
    pub addr: NetAddrV4,
}

impl FriendCodeV4 {
    pub fn from_code(code: [char; 9]) -> (r: FriendCodeV4)
        requires
            fits_v4(code@),
        ensures
            r.addr.ip == base62_value(code@.subrange(0, 6)),
            r.addr.port == base62_value(code@.subrange(6, 9)),
    {
        FriendCodeV4 { addr: decode_socketaddrv4(code) }
    }

    pub fn from_addr(addr: NetAddrV4) -> (r: FriendCodeV4)
        ensures
            r.addr == addr,
    {
        FriendCodeV4 { addr }
    }

    pub fn as_friend_code(self) -> (r: [char; 9])
        ensures
            r@ == encode_digits(self.addr.ip as nat, 6) + encode_digits(self.addr.port as nat, 3),
    {
        encode_socketaddrv4(self.addr)
    }

    pub fn as_addr(self) -> (r: NetAddrV4)
        ensures
            r == self.addr,
    {
        self.addr
    }
}

/// A friend code read back from its characters names the same address.
pub proof fn lemma_friend_code_v4_roundtrip(code: FriendCodeV4)
    ensures
        fits_v4(encode_digits(code.addr.ip as nat, 6) + encode_digits(code.addr.port as nat, 3)),
        base62_value((encode_digits(code.addr.ip as nat, 6) + encode_digits(code.addr.port as nat, 3)).subrange(0, 6)) == code.addr.ip,
        base62_value((encode_digits(code.addr.ip as nat, 6) + encode_digits(code.addr.port as nat, 3)).subrange(6, 9)) == code.addr.port,
{
    lemma_socketaddrv4_roundtrip(code.addr);
}

} // verus!
