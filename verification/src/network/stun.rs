//! Finding the public address of a UDP socket with STUN (RFC 5389): the binding request
//! sent to a server, the reading of its reply, and the choice of the one address it maps
//! the socket to. Sending, receiving and finding the servers are the caller's.
use vstd::prelude::*;
use bytecodec::{Decode, Encode, EncodeExt, Eos};
use stun_codec::net::SocketAddrEncoder;
use stun_codec::rfc5389::Attribute;
use stun_codec::{BrokenMessage, Message, MessageClass, MessageDecoder, MessageEncoder, TransactionId};
use crate::bytes::{lemma_power_256_16, lemma_power_mono, lemma_power_positive, power};
use crate::net::{NetAddr, NetAddrV4, NetAddrV6};
use crate::utils::{AllowOnlyOne, AllowOnlyOneError};

verus! {

/// An error of `bytecodec`'s encoders and decoders.
#[verifier::external_type_specification]
#[verifier::external_body]
pub struct ExCodecError(bytecodec::Error);

/// A STUN message whose attributes could not be read.
#[verifier::external_type_specification]
#[verifier::external_body]
pub struct ExBrokenMessage(BrokenMessage);

/// An input or output error.
#[verifier::external_type_specification]
#[verifier::external_body]
pub struct ExIoError(std::io::Error);

/// Why no STUN mapping could be had.
#[derive(Debug)]
pub enum StunMappingError {
    /// Sending to or receiving from the server failed.
    Io(std::io::Error),
    /// The request could not be written, or the reply's header could not be read.
    Codec(bytecodec::Error),
    /// The reply's attributes could not be read.
    BrokenMessage(BrokenMessage),
    /// The reply maps the socket to more than one address.
    MultipleBindings,
}

/// The binding request with transaction id `id`: message type 0x0001 (a binding
/// request), attribute length 0, the magic cookie 0x2112A442 and the id, big endian.
pub open spec fn binding_request_bytes(id: Seq<u8>) -> Seq<u8> {
    seq![0x00u8, 0x01, 0x00, 0x00, 0x21, 0x12, 0xA4, 0x42] + id
}

/// The transaction id of every request: twelve bytes 0xFF.
pub open spec fn request_id() -> Seq<u8> {
    Seq::new(12, |i: int| 0xffu8)
}

/// Calls `stun_codec`'s `MessageEncoder` on a binding request with no attributes and
/// transaction id `id`, into a 20-byte buffer. What it writes, when it succeeds, is the
/// 20-byte STUN header of that request.
#[verifier::external_body]
fn encode_binding_request(id: [u8; 12]) -> (r: Result<[u8; 20], bytecodec::Error>)
    ensures
        r matches Ok(b) ==> b@ == binding_request_bytes(id@),
{
    let class = MessageClass::Request;
    let msg = Message::<Attribute>::new(class, stun_codec::rfc5389::methods::BINDING, TransactionId::new(id));
    let mut buf = [0u8; 20];
    MessageEncoder::with_item(msg)?.encode(&mut buf, Eos::new(true))?;
    Ok(buf)
}

/// The binding request sent to a STUN server.
pub fn create_msg() -> (r: Result<[u8; 20], StunMappingError>)
    ensures
        r matches Ok(b) ==> b@ == binding_request_bytes(request_id()),
{
    let id = [0xFFu8; 12];
    assert(id@ =~= request_id());
    match encode_binding_request(id) {
        Ok(b) => Ok(b),
        Err(e) => Err(StunMappingError::Codec(e)),
    }
}

/// What reading a reply gives: its header unreadable, its attributes unreadable, or for
/// each attribute the address it maps the socket to (none for other attributes), in the
/// STUN address encoding: a zero byte, the family (1 for IPv4, 2 for IPv6), the port and
/// the address, big endian.
pub enum StunReply {
    Unreadable,
    Broken,
    Attributes(Seq<Option<Seq<u8>>>),
}

/// What `stun_codec`'s `MessageDecoder` reads from a 32-byte reply buffer, its
/// `MAPPED-ADDRESS` and `XOR-MAPPED-ADDRESS` attributes taken as addresses, each written
/// back by `stun_codec`'s `SocketAddrEncoder`.
pub uninterp spec fn stun_reply(resp: Seq<u8>) -> StunReply;

/// The encoding `SocketAddrEncoder` writes: eight bytes for IPv4, twenty for IPv6.
pub open spec fn is_wire_address(b: Seq<u8>) -> bool {
    &&& b.len() >= 2
    &&& b[0] == 0
    &&& (b[1] == 1 && b.len() == 8) || (b[1] == 2 && b.len() == 20)
}

/// The attribute addresses of a decoded reply, as sequences of bytes.
pub open spec fn wire_view(v: Seq<Option<Vec<u8>>>) -> Seq<Option<Seq<u8>>> {
    v.map_values(|o: Option<Vec<u8>>| match o {
        Some(b) => Some(b@),
        None => None,
    })
}

/// Calls `stun_codec`'s `MessageDecoder` on a reply buffer, at its end, and for each
/// attribute of the message writes the address that a `MAPPED-ADDRESS`,
/// `XOR-MAPPED-ADDRESS` or its older variant holds with `SocketAddrEncoder`. Its result
/// is named `stun_reply`; each address is in the encoding that `SocketAddrEncoder`
/// writes.
#[verifier::external_body]
fn decode_stun_reply(resp: &[u8; 32]) -> (r: Result<Result<Vec<Option<Vec<u8>>>, BrokenMessage>, bytecodec::Error>)
    ensures
        match r {
            Err(_) => stun_reply(resp@) == StunReply::Unreadable,
            Ok(Err(_)) => stun_reply(resp@) == StunReply::Broken,
            Ok(Ok(v)) => stun_reply(resp@) == StunReply::Attributes(wire_view(v@))
                && forall|i: int| 0 <= i < v@.len() ==> (#[trigger] v@[i] matches Some(b) ==> is_wire_address(b@)),
        },
{
    let mut d = MessageDecoder::<Attribute>::new();
    d.decode(resp, Eos::new(true))?;
    let m = match d.finish_decoding()? { Ok(m) => m, Err(b) => return Ok(Err(b)) };
    let mut out = Vec::new();
    for a in m.attributes() {
        out.push(match a {
            Attribute::MappedAddress(x) => Some(SocketAddrEncoder::new().encode_into_bytes(x.address())?),
            Attribute::XorMappedAddress(x) => Some(SocketAddrEncoder::new().encode_into_bytes(x.address())?),
            Attribute::XorMappedAddress2(x) => Some(SocketAddrEncoder::new().encode_into_bytes(x.address())?),
            _ => None,
        });
    }
    Ok(Ok(out))
}

/// The number whose big-endian bytes are `s`.
pub open spec fn be_value(s: Seq<u8>) -> nat
    decreases s.len(),
{
    if s.len() == 0 {
        0
    } else {
        be_value(s.drop_last()) * 256 + s.last() as nat
    }
}

proof fn lemma_be_value_bound(s: Seq<u8>)
    ensures
        be_value(s) < power(256, s.len()),
    decreases s.len(),
{
    if s.len() > 0 {
        lemma_be_value_bound(s.drop_last());
        let p = power(256, (s.len() - 1) as nat);
        let v = be_value(s.drop_last());
        assert(v * 256 + 255 < p * 256) by (nonlinear_arith)
            requires
                v < p,
        ;
    }
}

/// Reads `len` bytes of `b` from `start` as a big-endian number.
fn read_be(b: &Vec<u8>, start: usize, len: usize) -> (v: u128)
    requires
        start + len <= b@.len(),
        len <= 16,
    ensures
        v == be_value(b@.subrange(start as int, start + len)),
{
    let total = b.len();
    let mut acc: u128 = 0;
    let mut i: usize = 0;
    assert(b@.subrange(start as int, start as int) =~= Seq::<u8>::empty());
    while i < len
        invariant
            total == b@.len(),
            i <= len,
            len <= 16,
            start + len <= b@.len(),
            acc == be_value(b@.subrange(start as int, start + i)),
        decreases len - i,
    {
        let ghost part = b@.subrange(start as int, start + i + 1);
        assert(part.drop_last() =~= b@.subrange(start as int, start + i));
        proof {
            lemma_be_value_bound(b@.subrange(start as int, start + i));
            lemma_power_mono(256, i as nat, 15);
            crate::bytes::lemma_power_256_15();
        }
        acc = acc * 256 + b[start + i] as u128;
        i = i + 1;
    }
    acc
}

/// The address an encoded attribute names.
pub open spec fn wire_address(b: Seq<u8>) -> NetAddr {
    if b[1] == 1 {
        NetAddr::V4(NetAddrV4 { ip: be_value(b.subrange(4, 8)) as u32, port: be_value(b.subrange(2, 4)) as u16 })
    } else {
        NetAddr::V6(
            NetAddrV6 {
                ip: be_value(b.subrange(4, 20)) as u128,
                port: be_value(b.subrange(2, 4)) as u16,
                flowinfo: 0,
                scope_id: 0,
            },
        )
    }
}

fn address_of_wire(b: &Vec<u8>) -> (r: NetAddr)
    requires
        is_wire_address(b@),
    ensures
        r == wire_address(b@),
{
    proof {
        lemma_be_value_bound(b@.subrange(2, 4));
        reveal_with_fuel(power, 3);
    }
    let port = read_be(b, 2, 2) as u16;
    if b[1] == 1 {
        proof {
            lemma_be_value_bound(b@.subrange(4, 8));
            reveal_with_fuel(power, 5);
        }
        NetAddr::V4(NetAddrV4 { ip: read_be(b, 4, 4) as u32, port })
    } else {
        NetAddr::V6(NetAddrV6 { ip: read_be(b, 4, 16), port, flowinfo: 0, scope_id: 0 })
    }
}

/// The addresses among the attributes, in order.
pub open spec fn mapped_addresses(attrs: Seq<Option<Seq<u8>>>) -> Seq<NetAddr>
    decreases attrs.len(),
{
    if attrs.len() == 0 {
        Seq::empty()
    } else {
        mapped_addresses(attrs.drop_last()) + match attrs.last() {
            Some(b) => seq![wire_address(b)],
            None => Seq::empty(),
        }
    }
}

/// Every address equals the first.
pub open spec fn all_same(addrs: Seq<NetAddr>) -> bool {
    forall|i: int| 0 <= i < addrs.len() ==> #[trigger] addrs[i] == addrs[0]
}

/// The one address of a list: none for an empty list, the address where every item is
/// the same, and an error where two differ.
pub open spec fn single_address(addrs: Seq<NetAddr>) -> Result<Option<NetAddr>, StunMappingError> {
    if addrs.len() == 0 {
        Ok(None)
    } else if all_same(addrs) {
        Ok(Some(addrs[0]))
    } else {
        Err(StunMappingError::MultipleBindings)
    }
}

/// A key that tells any two addresses apart: the family, the address, the port, the
/// flow label and the scope id, as integers.
pub open spec fn addr_key(a: NetAddr) -> (u8, u128, u16, u32, u32) {
    match a {
        NetAddr::V4(x) => (4u8, x.ip as u128, x.port, 0u32, 0u32),
        NetAddr::V6(x) => (6u8, x.ip, x.port, x.flowinfo, x.scope_id),
    }
}

fn key_of(a: NetAddr) -> (r: (u8, u128, u16, u32, u32))
    ensures
        r == addr_key(a),
{
    match a {
        NetAddr::V4(x) => (4u8, x.ip as u128, x.port, 0u32, 0u32),
        NetAddr::V6(x) => (6u8, x.ip, x.port, x.flowinfo, x.scope_id),
    }
}

/// The single address that a list of mapped addresses agrees on. The addresses are
/// compared through `AllowOnlyOne` by their integer keys, whose equality has a
/// specification, and the keys of two addresses are equal only when they are.
pub fn single_mapping(addrs: Vec<NetAddr>) -> (r: Result<Option<NetAddr>, StunMappingError>)
    ensures
        r == single_address(addrs@),
{
    let n = addrs.len();
    let mut one: AllowOnlyOne<(u8, u128, u16, u32, u32)> = AllowOnlyOne::new();
    let mut i: usize = 0;
    while i < n
        invariant
            i <= n,
            n == addrs@.len(),
            i == 0 ==> one@ == Err::<(u8, u128, u16, u32, u32), AllowOnlyOneError<(u8, u128, u16, u32, u32)>>(
                AllowOnlyOneError::NoneFound,
            ),
            i > 0 && all_same(addrs@.take(i as int)) ==> one@ == Ok::<
                (u8, u128, u16, u32, u32),
                AllowOnlyOneError<(u8, u128, u16, u32, u32)>,
            >(addr_key(addrs@[0])),
            i > 0 && !all_same(addrs@.take(i as int)) ==> one@ matches Err(AllowOnlyOneError::GotSecond(_)),
        decreases n - i,
    {
        let k = key_of(addrs[i]);
        let ghost before = one@;
        one.push_next(k);
        proof {
            let t = addrs@.take(i + 1);
            assert(t[i as int] == addrs@[i as int]);
            if i > 0 {
                assert(t.take(i as int) =~= addrs@.take(i as int));
                if all_same(addrs@.take(i as int)) {
                    if addrs@[i as int] != addrs@[0] {
                        assert(addr_key(addrs@[i as int]) != addr_key(addrs@[0]));
                        assert(!all_same(t));
                    } else {
                        assert forall|j: int| 0 <= j < t.len() implies #[trigger] t[j] == t[0] by {
                            if j < i {
                                assert(addrs@.take(i as int)[j] == t[j]);
                                assert(addrs@.take(i as int)[0] == t[0]);
                            }
                        }
                    }
                } else {
                    let j = choose|j: int| 0 <= j < i && #[trigger] addrs@.take(i as int)[j] != addrs@.take(i as int)[0];
                    assert(t[j] == addrs@.take(i as int)[j]);
                    assert(!all_same(t));
                }
            } else {
                assert forall|j: int| 0 <= j < t.len() implies #[trigger] t[j] == t[0] by {}
            }
        }
        i = i + 1;
    }
    assert(addrs@.take(n as int) =~= addrs@);
    match one.into_res() {
        Ok(_) => Ok(Some(addrs[0])),
        Err(AllowOnlyOneError::GotSecond(_)) => Err(StunMappingError::MultipleBindings),
        Err(AllowOnlyOneError::NoneFound) => Ok(None),
    }
}

/// The mapping that a reply gives: an error where it cannot be read, else the single
/// address among its attributes, as `single_address` takes it.
pub open spec fn reply_mapping_says(reply: StunReply, r: Result<Option<NetAddr>, StunMappingError>) -> bool {
    match reply {
        StunReply::Unreadable => r matches Err(StunMappingError::Codec(_)),
        StunReply::Broken => r matches Err(StunMappingError::BrokenMessage(_)),
        StunReply::Attributes(attrs) => r == single_address(mapped_addresses(attrs)),
    }
}

/// Reads a server's reply, as received into a 32-byte buffer: the public address it maps
/// the socket to, none if it names none, or why not.
pub fn try_stun(resp: &[u8; 32]) -> (r: Result<Option<NetAddr>, StunMappingError>)
    ensures
        reply_mapping_says(stun_reply(resp@), r),
{
    match decode_stun_reply(resp) {
        Err(e) => Err(StunMappingError::Codec(e)),
        Ok(Err(b)) => Err(StunMappingError::BrokenMessage(b)),
        Ok(Ok(attrs)) => {
            let ghost w = wire_view(attrs@);
            let n = attrs.len();
            let mut addrs: Vec<NetAddr> = Vec::new();
            let mut i: usize = 0;
            assert(w.take(0) =~= Seq::<Option<Seq<u8>>>::empty());
            while i < n
                invariant
                    i <= n,
                    n == attrs@.len(),
                    w == wire_view(attrs@),
                    forall|j: int| 0 <= j < attrs@.len() ==> (#[trigger] attrs@[j] matches Some(b) ==> is_wire_address(b@)),
                    addrs@ == mapped_addresses(w.take(i as int)),
                decreases n - i,
            {
                assert(w.take(i + 1).drop_last() =~= w.take(i as int));
                assert(w[i as int] == match attrs@[i as int] {
                    Some(b) => Some(b@),
                    None => None::<Seq<u8>>,
                });
                match &attrs[i] {
                    Some(b) => addrs.push(address_of_wire(b)),
                    None => {},
                }
                i = i + 1;
            }
            assert(w.take(n as int) =~= w);
            single_mapping(addrs)
        },
    }
}

/// A UDP socket's local address and the public address a STUN server sees it from.
#[derive(Copy, Clone, Eq, PartialEq, Structural, Debug)]
pub struct StunMapping {
    pub local_addr: NetAddr,
    pub public_addr: NetAddr,
}

impl StunMapping {
    pub fn local_addr(&self) -> (r: NetAddr)
        ensures
            r == self.local_addr,
    {
        self.local_addr
    }

    pub fn public_addr(&self) -> (r: NetAddr)
        ensures
            r == self.public_addr,
    {
        self.public_addr
    }
}

} // verus!
