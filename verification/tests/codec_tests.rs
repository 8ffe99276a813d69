use vlcsync::communication::ipcodec;
use vlcsync::net::{NetAddr, NetAddrV4, NetAddrV6};
use vlcsync::network::friendcodes;
use vlcsync::network::friendcodes::{FriendCode, FriendCodeError};

const TRIALS: usize = 100;

#[test]
fn ipcodec_test_port_codec() {
    let port = 41234;
    assert_eq!(port, ipcodec::decode_port(ipcodec::encode_port(port)));
}

#[test]
fn ipcodec_test_ipv4_codec() {
    let ips: &[u32] = &[
        u32::from_be_bytes([192, 168, 1, 32]),
        u32::MAX,
        0,
        u32::from_be_bytes([8, 8, 8, 8]),
    ];
    for &ip in ips {
        assert_eq!(ip, ipcodec::decode_ipv4(ipcodec::encode_ipv4(ip)));
    }
}

#[test]
fn friendcodes_test_port_codec() {
    let port = 41234;
    assert_eq!(port, friendcodes::decode_port(friendcodes::encode_port(port)));
}

#[test]
fn friendcodes_test_ipv4_codec() {
    for _ in 0..TRIALS {
        let ip: u32 = rand::random();
        assert_eq!(ip, friendcodes::decode_ipv4(friendcodes::encode_ipv4(ip)).unwrap());
    }
}

#[test]
fn test_ipv6_codec() {
    for _ in 0..TRIALS {
        let ip: u128 = rand::random();
        assert_eq!(ip, friendcodes::decode_ipv6(friendcodes::encode_ipv6(ip)).unwrap());
    }
}

#[test]
fn small_ipv4_codes_read_back() {
    let small = u32::from_be_bytes([10, 0, 0, 1]);
    let code = friendcodes::encode_ipv4(small);
    assert_eq!(code[0], '\0');
    assert_eq!(friendcodes::decode_ipv4(code), Ok(small));
    assert_eq!(friendcodes::decode_ipv4(['\0'; 6]), Ok(0));
    assert_eq!(friendcodes::decode_ipv4(['1', '2', '-', 'a', 'b', 'c']), Err(FriendCodeError::InvalidCharacter('-')));
}

#[test]
fn friend_codes_read_back() {
    let addrs = [
        NetAddr::V4(NetAddrV4 { ip: u32::from_be_bytes([10, 0, 0, 1]), port: 4000 }),
        NetAddr::V4(NetAddrV4 { ip: u32::from_be_bytes([203, 0, 113, 5]), port: 65535 }),
        NetAddr::V6(NetAddrV6 { ip: 0x2001_0db8_0000_0000_0000_0000_0000_0001, port: 1, flowinfo: 0, scope_id: 0 }),
    ];
    for addr in addrs {
        let code = FriendCode::from_addr(addr).as_friend_code();
        assert!(FriendCode::fits(&code));
        assert_eq!(FriendCode::from_code(&code).map(|c| c.as_addr()), Ok(addr));
    }
    assert_eq!(FriendCode::from_code("abc").map(|c| c.as_addr()), Err(FriendCodeError::InvalidLength(3)));
}
