use vlcsync::net::{IpValue, NetAddr, NetAddrV4, NetAddrV6};
use vlcsync::network::publicaddr::{
    filter_clean_addr, needs_local_ip, next_method, try_already_public, AddrRejection, PublicMethod,
};
use vlcsync::network::utils::{port_from_draw, random_port};
use vlcsync::players::events::PlayerEvent;
use vlcsync::players::mprisplayer::PlayerStatus;

fn v4(o: [u8; 4], port: u16) -> NetAddr {
    NetAddr::V4(NetAddrV4 { ip: u32::from_be_bytes(o), port })
}

fn v6(ip: u128, port: u16) -> NetAddr {
    NetAddr::V6(NetAddrV6 { ip, port, flowinfo: 3, scope_id: 4 })
}

#[test]
fn clean_addresses() {
    assert_eq!(filter_clean_addr(v4([127, 0, 0, 1], 5)), Err(AddrRejection::MachineLocal(v4([127, 0, 0, 1], 5))));
    assert_eq!(filter_clean_addr(v4([169, 254, 3, 4], 5)), Err(AddrRejection::MachineLocal(v4([169, 254, 3, 4], 5))));
    assert_eq!(filter_clean_addr(v4([255, 255, 255, 255], 5)), Err(AddrRejection::InvalidAddress(v4([255, 255, 255, 255], 5))));
    assert_eq!(filter_clean_addr(v4([198, 51, 100, 7], 5)), Err(AddrRejection::InvalidAddress(v4([198, 51, 100, 7], 5))));
    assert_eq!(filter_clean_addr(v4([8, 8, 8, 8], 5)), Ok(v4([8, 8, 8, 8], 5)));
    assert_eq!(filter_clean_addr(v6(1, 5)), Err(AddrRejection::MachineLocal(v6(1, 5))));
    let mapped = 0xffff_0808_0404u128;
    assert_eq!(filter_clean_addr(v6(mapped, 9)), Ok(v4([8, 8, 4, 4], 9)));
    let global = 0x2001_0db8_0000_0000_0000_0000_0000_0001u128;
    assert_eq!(filter_clean_addr(v6(global, 9)), Ok(v6(global, 9)));
}

#[test]
fn already_public() {
    assert!(needs_local_ip(v4([0, 0, 0, 0], 7)));
    assert!(!needs_local_ip(v4([1, 2, 3, 4], 7)));
    assert_eq!(try_already_public(v4([8, 8, 8, 8], 7), IpValue::V4(0)), Ok(v4([8, 8, 8, 8], 7)));
    assert_eq!(
        try_already_public(v4([0, 0, 0, 0], 7), IpValue::V4(u32::from_be_bytes([192, 168, 1, 2]))),
        Err(AddrRejection::InvalidAddress(v4([192, 168, 1, 2], 7)))
    );
    assert_eq!(
        try_already_public(v4([0, 0, 0, 0], 7), IpValue::V4(0)),
        Err(AddrRejection::InvalidAddress(v4([0, 0, 0, 0], 7)))
    );
    assert_eq!(try_already_public(v6(5, 7), IpValue::V4(0)), Err(AddrRejection::Ipv6NotYetImplemented(5)));
    assert_eq!(next_method(None, false), Some(PublicMethod::AlreadyPublic));
    assert_eq!(next_method(Some(PublicMethod::AlreadyPublic), false), Some(PublicMethod::Igd));
    assert_eq!(next_method(Some(PublicMethod::Igd), false), None);
    assert_eq!(next_method(Some(PublicMethod::Igd), true), Some(PublicMethod::Stun));
    assert_eq!(next_method(Some(PublicMethod::Stun), true), None);
}

#[test]
fn ports() {
    assert_eq!(port_from_draw(10000, 30000, 5), 10005);
    assert_eq!(port_from_draw(10000, 30000, 20001), 10001);
    for _ in 0..100 {
        let p = random_port(10000, 30000);
        assert!((10000..30000).contains(&p));
    }
}

fn status(paused: bool, track: Option<&str>, url: Option<&str>, pos: u64) -> PlayerStatus {
    PlayerStatus {
        is_paused: paused,
        track_id: track.map(|s| s.to_string()),
        url: url.map(|s| s.to_string()),
        status: None,
        position: pos,
    }
}

#[test]
fn mpris_status_events() {
    let first = status(false, Some("/t/1"), Some("file:///a.mkv"), 5_000_000);
    assert_eq!(
        first.events_since(0, None),
        vec![PlayerEvent::MediaOpen("file:///a.mkv".to_string()), PlayerEvent::Jump(5_000_000), PlayerEvent::Play]
    );
    // Playing on, as expected: nothing.
    let later = status(false, Some("/t/1"), Some("file:///a.mkv"), 6_000_000);
    assert_eq!(later.events_since(1_000_000, Some(&first)), vec![]);
    // Jumped ahead while playing.
    let ahead = status(false, Some("/t/1"), Some("file:///a.mkv"), 9_000_000);
    assert_eq!(ahead.events_since(1_000_000, Some(&first)), vec![PlayerEvent::Jump(9_000_000)]);
    // Paused in place.
    let paused = status(true, Some("/t/1"), Some("file:///a.mkv"), 5_200_000);
    assert_eq!(paused.events_since(1_000_000, Some(&first)), vec![PlayerEvent::Pause]);
    // Went back.
    let back = status(false, Some("/t/1"), Some("file:///a.mkv"), 4_999_999);
    assert_eq!(back.events_since(0, Some(&first)), vec![PlayerEvent::Jump(4_999_999)]);
    // New track with a new URL.
    let next = status(false, Some("/t/2"), Some("file:///b.mkv"), 6_000_000);
    assert_eq!(next.events_since(1_000_000, Some(&first)), vec![PlayerEvent::MediaOpen("file:///b.mkv".to_string())]);
    // New track id, same URL: nothing to announce.
    let same = status(false, Some("/t/3"), Some("file:///a.mkv"), 6_000_000);
    assert_eq!(same.events_since(1_000_000, Some(&first)), vec![]);
}

fn v6_text(ip: u128, scope_id: u32, port: u16) -> String {
    NetAddr::V6(NetAddrV6 { ip, port, flowinfo: 0, scope_id }).text()
}

#[test]
fn address_text() {
    assert_eq!(v4([1, 2, 3, 4], 80).text(), "1.2.3.4:80");
    assert_eq!(v4([255, 0, 10, 200], 65535).text(), "255.0.10.200:65535");
    assert_eq!(v4([0, 0, 0, 0], 0).text(), "0.0.0.0:0");
    assert_eq!(v6_text(0, 0, 80), "[::]:80");
    assert_eq!(v6_text(1, 0, 1), "[::1]:1");
    assert_eq!(v6_text(0x2001_0db8_0000_0000_0000_0000_0000_0001, 0, 443), "[2001:db8::1]:443");
    assert_eq!(v6_text(0x2001_0db8_0000_0001_0000_0000_0000_0001, 0, 1), "[2001:db8:0:1::1]:1");
    assert_eq!(v6_text(0x0001_0000_0001_0000_0001_0000_0001_0000, 0, 1), "[1:0:1:0:1:0:1:0]:1");
    assert_eq!(v6_text(0x0001_0000_0000_0002_0000_0000_0003_0004, 0, 1), "[1::2:0:0:3:4]:1");
    assert_eq!(v6_text(0x0000_0000_0000_0000_0000_ffff_c0a8_0001, 0, 1), "[::ffff:192.168.0.1]:1");
    assert_eq!(v6_text(0xfe80_0000_0000_0000_0000_0000_0000_0001, 3, 8080), "[fe80::1%3]:8080");
    assert_eq!(v6_text(0xabcd_ef01_2345_6789_abcd_ef01_2345_6789, 0, 2), "[abcd:ef01:2345:6789:abcd:ef01:2345:6789]:2");
    assert!(v4([127, 3, 2, 1], 1).is_loopback());
    assert!(!v4([128, 0, 0, 1], 1).is_loopback());
    assert!(NetAddr::V6(NetAddrV6 { ip: 1, port: 1, flowinfo: 0, scope_id: 0 }).is_loopback());
    assert!(!v6(2, 1).is_loopback());
}
