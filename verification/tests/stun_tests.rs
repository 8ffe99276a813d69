use vlcsync::net::{NetAddr, NetAddrV4, NetAddrV6};
use vlcsync::network::stun::{create_msg, single_mapping, try_stun, StunMapping, StunMappingError};

fn v4(o: [u8; 4], port: u16) -> NetAddr {
    NetAddr::V4(NetAddrV4 { ip: u32::from_be_bytes(o), port })
}

#[test]
fn binding_request_bytes() {
    let msg = create_msg().unwrap();
    let mut expected = vec![0x00, 0x01, 0x00, 0x00, 0x21, 0x12, 0xA4, 0x42];
    expected.extend([0xFF; 12]);
    assert_eq!(msg.to_vec(), expected);
}

#[test]
fn single_mapping_choices() {
    let a = v4([203, 0, 113, 5], 4000);
    let b = v4([203, 0, 113, 5], 4001);
    assert!(matches!(single_mapping(vec![]), Ok(None)));
    assert!(matches!(single_mapping(vec![a]), Ok(Some(x)) if x == a));
    assert!(matches!(single_mapping(vec![a, a, a]), Ok(Some(x)) if x == a));
    assert!(matches!(single_mapping(vec![a, b]), Err(StunMappingError::MultipleBindings)));
    assert!(matches!(single_mapping(vec![a, a, b, a]), Err(StunMappingError::MultipleBindings)));
    let c = NetAddr::V6(NetAddrV6 { ip: 1, port: 4000, flowinfo: 0, scope_id: 0 });
    let d = NetAddr::V6(NetAddrV6 { ip: 1, port: 4000, flowinfo: 0, scope_id: 2 });
    assert!(matches!(single_mapping(vec![c, d]), Err(StunMappingError::MultipleBindings)));
}

/// A binding success response whose one attribute is the given address attribute.
fn reply(attr_type: u16, value: [u8; 8]) -> [u8; 32] {
    let mut r = [0u8; 32];
    r[0..2].copy_from_slice(&0x0101u16.to_be_bytes());
    r[2..4].copy_from_slice(&12u16.to_be_bytes());
    r[4..8].copy_from_slice(&[0x21, 0x12, 0xA4, 0x42]);
    r[8..20].copy_from_slice(&[0xFF; 12]);
    r[20..22].copy_from_slice(&attr_type.to_be_bytes());
    r[22..24].copy_from_slice(&8u16.to_be_bytes());
    r[24..32].copy_from_slice(&value);
    r
}

#[test]
fn reading_replies() {
    let mapped = reply(0x0001, [0, 1, 0x0F, 0xA0, 203, 0, 113, 5]);
    assert!(matches!(try_stun(&mapped), Ok(Some(a)) if a == v4([203, 0, 113, 5], 4000)));
    // The XOR form: port and address XORed with the magic cookie.
    let port = 4000u16 ^ 0x2112;
    let ip = u32::from_be_bytes([203, 0, 113, 5]) ^ 0x2112_A442;
    let mut value = [0u8, 1, 0, 0, 0, 0, 0, 0];
    value[2..4].copy_from_slice(&port.to_be_bytes());
    value[4..8].copy_from_slice(&ip.to_be_bytes());
    let xored = reply(0x0020, value);
    assert!(matches!(try_stun(&xored), Ok(Some(a)) if a == v4([203, 0, 113, 5], 4000)));
    // An attribute that names no address.
    let other = reply(0x8022, *b"software");
    assert!(matches!(try_stun(&other), Ok(None)));
    // No magic cookie: the header cannot be read.
    assert!(matches!(try_stun(&[0u8; 32]), Err(StunMappingError::Codec(_))));
    // An address of an unknown family: the attributes cannot be read.
    let broken = reply(0x0001, [0, 5, 0x0F, 0xA0, 203, 0, 113, 5]);
    assert!(matches!(try_stun(&broken), Err(StunMappingError::BrokenMessage(_))));
}

#[test]
fn mapping_fields() {
    let m = StunMapping { local_addr: v4([10, 0, 0, 2], 5000), public_addr: v4([203, 0, 113, 5], 4000) };
    assert_eq!(m.local_addr(), v4([10, 0, 0, 2], 5000));
    assert_eq!(m.public_addr(), v4([203, 0, 113, 5], 4000));
}
