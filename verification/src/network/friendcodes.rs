//! Friend codes: a socket address written in base-62 characters, nine for IPv4
//! (six for the address, three for the port) and twenty-five for IPv6 (twenty-two
//! and three).
//!
//! Encoding leaves the unused leading places of a number as `'\0'`. An IPv4 address is
//! read strictly: that filler counts as the digit 0, and any other character that is no
//! digit is an error. An IPv6 address and a port are read leniently: such a character
//! counts as 0.
use vstd::prelude::*;
use crate::base62::{
    base62_value, encode_digits, first_non_digit, lemma_encode_decode, lemma_power_62_values,
    strict_partial_value,
};
use crate::bytes::power;
use crate::communication::ipcodec::to_char_array;
use crate::net::{NetAddr, NetAddrV4, NetAddrV6};
use vstd::string::StringSliceAdditionalSpecFns;

verus! {

/// Why a string is no friend code.
#[derive(Copy, Clone, Eq, PartialEq, Debug)]
pub enum FriendCodeError {
    /// The code's length in bytes is neither 9 nor 25.
    InvalidLength(usize),
    /// The IPv4 part holds this character, which is no base-62 digit.
    InvalidCharacter(char),
}

/// The character read in place of `c`: the filler `'\0'` as the digit `0`.
pub open spec fn padding_as_zero(c: char) -> char {
    if c == '\0' {
        '0'
    } else {
        c
    }
}

/// The characters read in place of `s`.
pub open spec fn unpadded(s: Seq<char>) -> Seq<char> {
    Seq::new(s.len(), |i: int| padding_as_zero(s[i]))
}

/// Replaces the filler `'\0'` by the digit `0`.
fn unpad<const N: usize>(digits: [char; N]) -> (r: [char; N])
    ensures
        r@ == unpadded(digits@),
{
    let mut out = digits;
    let mut i: usize = 0;
    proof {
        broadcast use vstd::array::group_array_axioms;
    }
    while i < N
        invariant
            i <= N,
            out@.len() == N,
            digits@.len() == N,
            forall|k: int| 0 <= k < N ==> #[trigger] out@[k] == if k < i {
                padding_as_zero(digits@[k])
            } else {
                digits@[k]
            },
        decreases N - i,
    {
        if out[i] == '\0' {
            out[i] = '0';
        }
        i = i + 1;
    }
    assert(out@ =~= unpadded(digits@));
    out
}

/// Reading the filler as `0` does not change the lenient value.
proof fn lemma_unpadded_value(s: Seq<char>)
    ensures
        base62_value(unpadded(s)) == base62_value(s),
    decreases s.len(),
{
    if s.len() > 0 {
        assert(unpadded(s).drop_last() =~= unpadded(s.drop_last()));
        lemma_unpadded_value(s.drop_last());
    }
}

/// Reads an IPv4 address, failing at the first character that is neither a digit nor
/// the filler `'\0'`.
pub fn decode_ipv4(digits: [char; 6]) -> (r: Result<u32, FriendCodeError>)
    requires
        strict_partial_value(unpadded(digits@)) <= u32::MAX,
    ensures
        r == spec_decode_ipv4(digits@),
{
    let read = unpad(digits);
    match crate::base62::decode_strict(read.as_slice()) {
        Ok(v) => {
            proof {
                crate::base62::lemma_first_non_digit(read@);
                assert(read@.take(6) =~= read@);
                assert(power(62, 0) == 1);
                let w = base62_value(read@);
                assert(w * power(62, 0) == w) by (nonlinear_arith)
                    requires
                        power(62, 0) == 1,
                ;
            }
            Ok(v as u32)
        },
        Err(c) => Err(FriendCodeError::InvalidCharacter(c)),
    }
}

/// What reading an IPv4 address gives: the first character that is neither a digit nor
/// the filler as an error, else the value of the digits.
pub open spec fn spec_decode_ipv4(digits: Seq<char>) -> Result<u32, FriendCodeError> {
    let read = unpadded(digits);
    if first_non_digit(read) < read.len() {
        Err(FriendCodeError::InvalidCharacter(read[first_non_digit(read) as int]))
    } else {
        Ok(base62_value(read) as u32)
    }
}

/// Reads an IPv6 address; this never fails.
pub fn decode_ipv6(digits: [char; 22]) -> (r: Result<u128, FriendCodeError>)
    requires
        base62_value(digits@) <= u128::MAX,
    ensures
        r == Ok::<u128, FriendCodeError>(base62_value(digits@) as u128),
{
    Ok(crate::base62::decode_lenient(digits.as_slice()))
}

pub fn decode_port(digits: [char; 3]) -> (r: u16)
    requires
        base62_value(digits@) <= u16::MAX,
    ensures
        r == base62_value(digits@),
{
    crate::base62::decode_lenient(digits.as_slice()) as u16
}

pub fn encode_port(port: u16) -> (r: [char; 3])
    ensures
        r@ == encode_digits(port as nat, 3),
{
    proof {
        lemma_power_62_values();
        crate::base62::lemma_encode_len(port as nat, 3);
    }
    let v = crate::base62::encode(port as u128, 3);
    to_char_array(&v)
}

pub fn encode_ipv4(ip: u32) -> (r: [char; 6])
    ensures
        r@ == encode_digits(ip as nat, 6),
{
    proof {
        lemma_power_62_values();
        crate::base62::lemma_encode_len(ip as nat, 6);
    }
    let v = crate::base62::encode(ip as u128, 6);
    to_char_array(&v)
}

pub fn encode_ipv6(ip: u128) -> (r: [char; 22])
    ensures
        r@ == encode_digits(ip as nat, 22),
{
    proof {
        lemma_power_62_values();
        crate::base62::lemma_encode_len(ip as nat, 22);
    }
    let v = crate::base62::encode(ip, 22);
    to_char_array(&v)
}

/// The code of an IPv4 socket address.
pub open spec fn spec_code_v4(addr: NetAddrV4) -> Seq<char> {
    encode_digits(addr.ip as nat, 6) + encode_digits(addr.port as nat, 3)
}

/// The code of an IPv6 socket address.
pub open spec fn spec_code_v6(addr: NetAddrV6) -> Seq<char> {
    encode_digits(addr.ip as nat, 22) + encode_digits(addr.port as nat, 3)
}

pub fn encode_socketaddrv4(addr: NetAddrV4) -> (r: [char; 9])
    ensures
        r@ == spec_code_v4(addr),
{
    let encoded_ip = encode_ipv4(addr.ip);
    let encoded_port = encode_port(addr.port);
    let r = [
        encoded_ip[0],
        encoded_ip[1],
        encoded_ip[2],
        encoded_ip[3],
        encoded_ip[4],
        encoded_ip[5],
        encoded_port[0],
        encoded_port[1],
        encoded_port[2],
    ];
    assert(r@ =~= encoded_ip@ + encoded_port@);
    r
}

pub fn encode_socketaddrv6(addr: NetAddrV6) -> (r: [char; 25])
    ensures
        r@ == spec_code_v6(addr),
{
    let encoded_ip = encode_ipv6(addr.ip);
    let encoded_port = encode_port(addr.port);
    let mut r = ['\0'; 25];
    let mut i: usize = 0;
    proof {
        broadcast use vstd::array::group_array_axioms;
    }
    while i < 25
        invariant
            i <= 25,
            r@.len() == 25,
            encoded_ip@.len() == 22,
            encoded_port@.len() == 3,
            forall|k: int| 0 <= k < i ==> #[trigger] r@[k] == (encoded_ip@ + encoded_port@)[k],
        decreases 25 - i,
    {
        if i < 22 {
            r[i] = encoded_ip[i];
        } else {
            r[i] = encoded_port[i - 22];
        }
        i = i + 1;
    }
    assert(r@ =~= encoded_ip@ + encoded_port@);
    r
}

/// Codes whose IPv4 part, read up to its first non-digit, and whose port fit their types.
pub open spec fn fits_v4(code: Seq<char>) -> bool {
    &&& strict_partial_value(unpadded(code.subrange(0, 6))) <= u32::MAX
    &&& base62_value(code.subrange(6, 9)) <= u16::MAX
}

/// Codes whose IPv6 part and port fit their types.
pub open spec fn fits_v6(code: Seq<char>) -> bool {
    &&& base62_value(code.subrange(0, 22)) <= u128::MAX
    &&& base62_value(code.subrange(22, 25)) <= u16::MAX
}

/// What reading a nine-character code gives.
pub open spec fn spec_decode_v4(code: Seq<char>) -> Result<NetAddr, FriendCodeError> {
    match spec_decode_ipv4(code.subrange(0, 6)) {
        Ok(ip) => Ok(NetAddr::V4(NetAddrV4 { ip, port: base62_value(code.subrange(6, 9)) as u16 })),
        Err(e) => Err(e),
    }
}

/// What reading a twenty-five-character code gives.
pub open spec fn spec_decode_v6(code: Seq<char>) -> NetAddr {
    NetAddr::V6(
        NetAddrV6 {
            ip: base62_value(code.subrange(0, 22)) as u128,
            port: base62_value(code.subrange(22, 25)) as u16,
            flowinfo: 0,
            scope_id: 0,
        },
    )
}

fn decode_socketaddrv4(code: [char; 9]) -> (r: Result<NetAddrV4, FriendCodeError>)
    requires
        fits_v4(code@),
    ensures
        match spec_decode_v4(code@) {
            Ok(NetAddr::V4(a)) => r == Ok::<NetAddrV4, FriendCodeError>(a),
            Ok(_) => false,
            Err(e) => r == Err::<NetAddrV4, FriendCodeError>(e),
        },
{
    let ip_bytes = [code[0], code[1], code[2], code[3], code[4], code[5]];
    assert(ip_bytes@ =~= code@.subrange(0, 6));
    let ip_num = match decode_ipv4(ip_bytes) {
        Ok(v) => v,
        Err(e) => {
            return Err(e);
        },
    };
    let port_bytes = [code[6], code[7], code[8]];
    assert(port_bytes@ =~= code@.subrange(6, 9));
    let port = decode_port(port_bytes);
    Ok(NetAddrV4 { ip: ip_num, port })
}

fn decode_socketaddrv6(code: [char; 25]) -> (r: Result<NetAddrV6, FriendCodeError>)
    requires
        fits_v6(code@),
    ensures
        match spec_decode_v6(code@) {
            NetAddr::V6(a) => r == Ok::<NetAddrV6, FriendCodeError>(a),
            _ => false,
        },
{
    let mut ip_bytes = ['\0'; 22];
    let mut i: usize = 0;
    proof {
        broadcast use vstd::array::group_array_axioms;
    }
    while i < 22
        invariant
            i <= 22,
            ip_bytes@.len() == 22,
            forall|k: int| 0 <= k < i ==> #[trigger] ip_bytes@[k] == code@[k],
        decreases 22 - i,
    {
        ip_bytes[i] = code[i];
        i = i + 1;
    }
    assert(ip_bytes@ =~= code@.subrange(0, 22));
    let ip_num = match decode_ipv6(ip_bytes) {
        Ok(v) => v,
        Err(e) => {
            return Err(e);
        },
    };
    let port_bytes = [code[22], code[23], code[24]];
    assert(port_bytes@ =~= code@.subrange(22, 25));
    let port = decode_port(port_bytes);
    Ok(NetAddrV6 { ip: ip_num, port, flowinfo: 0, scope_id: 0 })
}

/// The first `n` characters of `s`, padded with `'\0'`.
pub open spec fn code_buffer(s: Seq<char>, n: nat) -> Seq<char> {
    Seq::new(n, |i: int| if i < s.len() { s[i] } else { '\0' })
}

/// The byte length of a string with these characters.
pub open spec fn byte_len(s: Seq<char>) -> nat {
    vstd::utf8::encode_utf8(s).len()
}

/// Codes whose numbers fit their types, so that reading them cannot overflow.
pub open spec fn code_fits(code: Seq<char>) -> bool {
    &&& byte_len(code) == 25 ==> fits_v6(code_buffer(code, 25))
    &&& byte_len(code) == 9 ==> fits_v4(code_buffer(code, 9))
}

/// What reading a friend code gives.
pub open spec fn spec_from_code(code: Seq<char>) -> Result<NetAddr, FriendCodeError> {
    if byte_len(code) == 25 {
        Ok(spec_decode_v6(code_buffer(code, 25)))
    } else if byte_len(code) == 9 {
        spec_decode_v4(code_buffer(code, 9))
    } else {
        Err(FriendCodeError::InvalidLength(byte_len(code) as usize))
    }
}

/// The characters of an address's friend code.
pub open spec fn spec_friend_code(addr: NetAddr) -> Seq<char> {
    match addr {
        NetAddr::V4(a) => spec_code_v4(a),
        NetAddr::V6(a) => spec_code_v6(a),
    }
}

/// Copies the first `N` characters of `code` into an array, padding with `'\0'`.
fn fill_buffer<const N: usize>(code: &str) -> (r: [char; N])
    ensures
        r@ == code_buffer(code@, N as nat),
{
    let n = code.unicode_len();
    let mut out = ['\0'; N];
    let mut i: usize = 0;
    proof {
        broadcast use vstd::array::group_array_axioms;
    }
    while i < N && i < n
        invariant
            i <= N,
            i <= n,
            n == code@.len(),
            out@.len() == N,
            forall|k: int| 0 <= k < N ==> #[trigger] out@[k] == if k < i { code@[k] } else { '\0' },
        decreases N - i,
    {
        out[i] = code.get_char(i);
        i = i + 1;
    }
    assert(out@ =~= code_buffer(code@, N as nat));
    out
}

/// A socket address that peers share as a short code.
#[derive(Copy, Clone, Eq, PartialEq, Structural, Hash)]
pub struct FriendCode {
    pub addr: NetAddr,
}

impl FriendCode {
    /// Whether reading `code` stays within the integer types, so that `from_code` may be called.
    pub fn fits(code: &str) -> (r: bool)
        ensures
            r == code_fits(code@),
    {
        let len = code.as_bytes().len();
        if len == 25 {
            let buffer: [char; 25] = fill_buffer(code);
            let ip = [
                buffer[0], buffer[1], buffer[2], buffer[3], buffer[4], buffer[5], buffer[6],
                buffer[7], buffer[8], buffer[9], buffer[10], buffer[11], buffer[12], buffer[13],
                buffer[14], buffer[15], buffer[16], buffer[17], buffer[18], buffer[19], buffer[20],
                buffer[21],
            ];
            assert(ip@ =~= buffer@.subrange(0, 22));
            let port = [buffer[22], buffer[23], buffer[24]];
            assert(port@ =~= buffer@.subrange(22, 25));
            crate::base62::fits_within(ip.as_slice(), u128::MAX) && crate::base62::fits_within(
                port.as_slice(),
                u16::MAX as u128,
            )
        } else if len == 9 {
            let buffer: [char; 9] = fill_buffer(code);
            let ip = [buffer[0], buffer[1], buffer[2], buffer[3], buffer[4], buffer[5]];
            assert(ip@ =~= buffer@.subrange(0, 6));
            let port = [buffer[6], buffer[7], buffer[8]];
            assert(port@ =~= buffer@.subrange(6, 9));
            let read = unpad(ip);
            crate::base62::strict_fits_within(read.as_slice(), u32::MAX as u128)
                && crate::base62::fits_within(port.as_slice(), u16::MAX as u128)
        } else {
            true
        }
    }

    /// Reads a friend code: twenty-five bytes for IPv6, nine for IPv4.
    pub fn from_code(code: &str) -> (r: Result<FriendCode, FriendCodeError>)
        requires
            code_fits(code@),
        ensures
            match spec_from_code(code@) {
                Ok(a) => r == Ok::<FriendCode, FriendCodeError>(FriendCode { addr: a }),
                Err(e) => r == Err::<FriendCode, FriendCodeError>(e),
            },
    {
        let len = code.as_bytes().len();
        if len == 25 {
            let buffer: [char; 25] = fill_buffer(code);
            FriendCode::from_code_v6(buffer)
        } else if len == 9 {
            let buffer: [char; 9] = fill_buffer(code);
            FriendCode::from_code_v4(buffer)
        } else {
            Err(FriendCodeError::InvalidLength(len))
        }
    }

    fn from_code_v4(code: [char; 9]) -> (r: Result<FriendCode, FriendCodeError>)
        requires
            fits_v4(code@),
        ensures
            match spec_decode_v4(code@) {
                Ok(a) => r == Ok::<FriendCode, FriendCodeError>(FriendCode { addr: a }),
                Err(e) => r == Err::<FriendCode, FriendCodeError>(e),
            },
    {
        match decode_socketaddrv4(code) {
            Ok(a) => Ok(FriendCode::from_addr(NetAddr::V4(a))),
            Err(e) => Err(e),
        }
    }

    fn from_code_v6(code: [char; 25]) -> (r: Result<FriendCode, FriendCodeError>)
        requires
            fits_v6(code@),
        ensures
            r == Ok::<FriendCode, FriendCodeError>(FriendCode { addr: spec_decode_v6(code@) }),
    {
        match decode_socketaddrv6(code) {
            Ok(a) => Ok(FriendCode::from_addr(NetAddr::V6(a))),
            Err(e) => Err(e),
        }
    }

    pub fn from_addr(addr: NetAddr) -> (r: FriendCode)
        ensures
            r.addr == addr,
    {
        FriendCode { addr }
    }

    /// The code's characters: nine for IPv4, twenty-five for IPv6.
    pub fn as_friend_code(self) -> (r: String)
        ensures
            r@ == spec_friend_code(self.addr),
    {
        match self.addr {
            NetAddr::V4(addr) => {
                let bts = encode_socketaddrv4(addr);
                crate::strings::chars_to_string(bts.as_slice())
            },
            NetAddr::V6(addr) => {
                let bts = encode_socketaddrv6(addr);
                crate::strings::chars_to_string(bts.as_slice())
            },
        }
    }

    pub fn as_addr(self) -> (r: NetAddr)
        ensures
            r == self.addr,
    {
        self.addr
    }
}

/// Every port reads back from its three characters.
pub proof fn lemma_port_roundtrip(port: u16)
    ensures
        base62_value(encode_digits(port as nat, 3)) == port,
{
    lemma_power_62_values();
    lemma_encode_decode(port as nat, 3);
}

/// Every IPv6 address reads back from its twenty-two characters.
pub proof fn lemma_ipv6_roundtrip(ip: u128)
    ensures
        base62_value(encode_digits(ip as nat, 22)) == ip,
{
    lemma_power_62_values();
    lemma_encode_decode(ip as nat, 22);
}

/// Every IPv4 address reads back from its six characters.
pub proof fn lemma_ipv4_roundtrip(ip: u32)
    ensures
        spec_decode_ipv4(encode_digits(ip as nat, 6)) == Ok::<u32, FriendCodeError>(ip),
        strict_partial_value(unpadded(encode_digits(ip as nat, 6))) == ip,
{
    lemma_power_62_values();
    let s = encode_digits(ip as nat, 6);
    let read = unpadded(s);
    crate::base62::lemma_encode_len(ip as nat, 6);
    crate::base62::lemma_encode_chars(ip as nat, 6);
    assert forall|i: int| 0 <= i < read.len() implies crate::base62::digit_value(#[trigger] read[i]).is_some() by {
        assert(s[i] == '\0' || crate::base62::digit_value(s[i]).is_some());
    }
    crate::base62::lemma_all_digits(read);
    lemma_encode_decode(ip as nat, 6);
    lemma_unpadded_value(s);
    assert(read.take(6) =~= read);
    assert(power(62, 0) == 1);
    assert(ip * power(62, 0) == ip) by (nonlinear_arith)
        requires
            power(62, 0) == 1,
    ;
}

proof fn lemma_v4_code_roundtrip(a: NetAddrV4)
    ensures
        code_fits(spec_code_v4(a)),
        spec_from_code(spec_code_v4(a)) == Ok::<NetAddr, FriendCodeError>(NetAddr::V4(a)),
{
    lemma_power_62_values();
    let code = spec_code_v4(a);
    let ipc = encode_digits(a.ip as nat, 6);
    let pc = encode_digits(a.port as nat, 3);
    crate::base62::lemma_encode_len(a.ip as nat, 6);
    crate::base62::lemma_encode_len(a.port as nat, 3);
    crate::base62::lemma_encode_ascii(a.ip as nat, 6);
    crate::base62::lemma_encode_ascii(a.port as nat, 3);
    vstd::utf8::is_ascii_chars_concat(code, ipc, pc);
    vstd::utf8::is_ascii_chars_encode_utf8(code);
    assert(byte_len(code) == 9);
    assert(code_buffer(code, 9) =~= code);
    assert(code.subrange(0, 6) =~= ipc);
    assert(code.subrange(6, 9) =~= pc);
    lemma_ipv4_roundtrip(a.ip);
    lemma_port_roundtrip(a.port);
}

proof fn lemma_v6_code_roundtrip(a: NetAddrV6)
    requires
        a.flowinfo == 0,
        a.scope_id == 0,
    ensures
        code_fits(spec_code_v6(a)),
        spec_from_code(spec_code_v6(a)) == Ok::<NetAddr, FriendCodeError>(NetAddr::V6(a)),
{
    lemma_power_62_values();
    let code = spec_code_v6(a);
    let ipc = encode_digits(a.ip as nat, 22);
    let pc = encode_digits(a.port as nat, 3);
    crate::base62::lemma_encode_len(a.ip as nat, 22);
    crate::base62::lemma_encode_len(a.port as nat, 3);
    crate::base62::lemma_encode_ascii(a.ip as nat, 22);
    crate::base62::lemma_encode_ascii(a.port as nat, 3);
    vstd::utf8::is_ascii_chars_concat(code, ipc, pc);
    vstd::utf8::is_ascii_chars_encode_utf8(code);
    assert(byte_len(code) == 25);
    assert(code_buffer(code, 25) =~= code);
    assert(code.subrange(0, 22) =~= ipc);
    assert(code.subrange(22, 25) =~= pc);
    lemma_ipv6_roundtrip(a.ip);
    lemma_port_roundtrip(a.port);
}

/// Reading back the friend code of an address gives the address, for every IPv4
/// address and every IPv6 address without flow label or scope id; reading the code
/// never overflows.
pub proof fn lemma_friend_code_roundtrip(addr: NetAddr)
    requires
        match addr {
            NetAddr::V4(_) => true,
            NetAddr::V6(a) => a.flowinfo == 0 && a.scope_id == 0,
        },
    ensures
        code_fits(spec_friend_code(addr)),
        spec_from_code(spec_friend_code(addr)) == Ok::<NetAddr, FriendCodeError>(addr),
{
    match addr {
        NetAddr::V4(a) => lemma_v4_code_roundtrip(a),
        NetAddr::V6(a) => lemma_v6_code_roundtrip(a),
    }
}

} // verus!
