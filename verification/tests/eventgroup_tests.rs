use std::cmp::Ordering;
use std::time::{Duration, SystemTime, UNIX_EPOCH};
use vlcsync::communication::eventgroup::{ipv4_is_private, priority_ordering, PlayerEventGroup};
use vlcsync::events::RemoteEvent;
use vlcsync::net::{NetAddr, NetAddrV4, NetAddrV6};
use vlcsync::players::events::TimePing;

fn v4(octets: [u8; 4], port: u16) -> NetAddr {
    NetAddr::V4(NetAddrV4 { ip: u32::from_be_bytes(octets), port })
}

fn now_micros() -> u64 {
    SystemTime::now().duration_since(UNIX_EPOCH).unwrap().as_micros() as u64
}

fn millis(ms: u64) -> u64 {
    Duration::from_millis(ms).as_micros() as u64
}

#[test]
fn test_ip_priority() {
    let ip_a = v4([192, 168, 1, 32], 49111);
    let events_a = PlayerEventGroup::new()
        .with_event(RemoteEvent::Ping {
            payload: TimePing::from_duration(millis(10_000)),
            timestamp: now_micros(),
        })
        .with_event(RemoteEvent::Pause);
    let ip_b = v4([128, 14, 1, 32], 4);
    let events_b = PlayerEventGroup::new()
        .with_event(RemoteEvent::Ping {
            payload: TimePing::from_duration(millis(1_000)),
            timestamp: now_micros(),
        })
        .with_event(RemoteEvent::Play);

    let rectified_b = events_b.clone().rectify(ip_b, &events_a, ip_a);
    let rectified_a = events_a.clone().rectify(ip_a, &events_b, ip_b);
    assert_eq!(Vec::<RemoteEvent>::new(), rectified_a.into_events());
    assert_eq!(events_b, rectified_b);
}

#[test]
fn test_jump_priority() {
    let ip_a = v4([192, 168, 1, 32], 49111);
    let events_a = PlayerEventGroup::new()
        .with_event(RemoteEvent::Jump(millis(10_000)))
        .with_event(RemoteEvent::Pause);
    let ip_b = v4([128, 14, 1, 32], 4);
    let events_b = PlayerEventGroup::new()
        .with_event(RemoteEvent::Ping {
            payload: TimePing::from_duration(millis(1_000)),
            timestamp: now_micros(),
        })
        .with_event(RemoteEvent::Play);

    let rectified_b = events_b.clone().rectify(ip_b, &events_a, ip_a);
    let rectified_a = events_a.clone().rectify(ip_a, &events_b, ip_b);
    assert_eq!(vec![RemoteEvent::Jump(millis(10_000))], rectified_a.into_events());
    assert_eq!(vec![RemoteEvent::Play], rectified_b.into_events());

    let cascaded_a = events_a.clone().cascade(ip_a, &events_b, ip_b);
    let cascaded_b = events_b.clone().cascade(ip_b, &events_a, ip_a);
    assert_eq!(cascaded_a, cascaded_b);
    assert_eq!(
        vec![RemoteEvent::Jump(millis(10_000)), RemoteEvent::Play],
        cascaded_a.into_events()
    );
}

#[test]
fn private_ranges() {
    assert!(ipv4_is_private(u32::from_be_bytes([10, 1, 2, 3])));
    assert!(ipv4_is_private(u32::from_be_bytes([172, 16, 0, 1])));
    assert!(ipv4_is_private(u32::from_be_bytes([172, 31, 255, 255])));
    assert!(!ipv4_is_private(u32::from_be_bytes([172, 32, 0, 1])));
    assert!(!ipv4_is_private(u32::from_be_bytes([172, 15, 0, 1])));
    assert!(ipv4_is_private(u32::from_be_bytes([192, 168, 0, 1])));
    assert!(!ipv4_is_private(u32::from_be_bytes([192, 169, 0, 1])));
    assert!(!ipv4_is_private(u32::from_be_bytes([8, 8, 8, 8])));
}

#[test]
fn priority_ranks_public_then_address_then_port() {
    let private = v4([192, 168, 1, 2], 9000);
    let public = v4([8, 8, 8, 8], 1);
    assert_eq!(Ordering::Greater, priority_ordering(public, private));
    assert_eq!(Ordering::Less, priority_ordering(private, public));
    assert_eq!(Ordering::Equal, priority_ordering(public, public));
    let low = v4([8, 8, 8, 7], 50000);
    assert_eq!(Ordering::Less, priority_ordering(low, public));
    let other_port = v4([8, 8, 8, 8], 2);
    assert_eq!(Ordering::Greater, priority_ordering(other_port, public));
    let v6 = NetAddr::V6(NetAddrV6 { ip: 1, port: 1, flowinfo: 0, scope_id: 0 });
    assert_eq!(Ordering::Greater, priority_ordering(v6, private));
    assert_eq!(Ordering::Less, priority_ordering(v6, public));
}

#[test]
fn media_open_ends_group() {
    let g = PlayerEventGroup::new()
        .with_event(RemoteEvent::Play)
        .with_event(RemoteEvent::MediaOpen("file.mkv".to_string()))
        .with_event(RemoteEvent::Pause)
        .with_event(RemoteEvent::Jump(5))
        .with_event(RemoteEvent::Shutdown);
    assert!(g.is_media_opened());
    assert_eq!(vec![RemoteEvent::MediaOpen("file.mkv".to_string())], g.into_events());
}

#[test]
fn transfer_events_go_first_and_shutdown_clears() {
    let g = PlayerEventGroup::new()
        .with_event(RemoteEvent::Pause)
        .with_event(RemoteEvent::RequestTransfer("a".to_string()))
        .with_event(RemoteEvent::MediaOpenOkay("b".to_string()));
    assert_eq!(
        vec![
            RemoteEvent::MediaOpenOkay("b".to_string()),
            RemoteEvent::RequestTransfer("a".to_string()),
            RemoteEvent::Pause
        ],
        g.clone().into_events()
    );
    let cleared = g.with_event(RemoteEvent::Shutdown);
    assert_eq!(PlayerEventGroup::new(), cleared);
}

#[test]
fn first_ping_wins_and_from_events_folds() {
    let events = vec![
        RemoteEvent::Ping { timestamp: 100, payload: TimePing::from_micros(7) },
        RemoteEvent::Ping { timestamp: 200, payload: TimePing::from_micros(9) },
        RemoteEvent::Play,
    ];
    let g = PlayerEventGroup::from_events(events);
    assert_eq!(
        vec![
            RemoteEvent::Ping { timestamp: 100, payload: TimePing::from_micros(7) },
            RemoteEvent::Play
        ],
        g.into_events()
    );
}

#[test]
fn cascade_symmetric_state() {
    let a = v4([10, 0, 0, 1], 1000);
    let b = v4([10, 0, 0, 2], 1000);
    let ga = PlayerEventGroup::new()
        .with_event(RemoteEvent::Ping { timestamp: 5, payload: TimePing::from_micros(50) })
        .with_event(RemoteEvent::Pause);
    let gb = PlayerEventGroup::new().with_event(RemoteEvent::Play);
    let ca = ga.clone().cascade(a, &gb, b);
    let cb = gb.clone().cascade(b, &ga, a);
    assert_eq!(ca, cb);
    assert_eq!(
        vec![
            RemoteEvent::Ping { timestamp: 5, payload: TimePing::from_micros(50) },
            RemoteEvent::Play
        ],
        ca.into_events()
    );
}

#[test]
fn cascade_media_open_wins() {
    let a = v4([10, 0, 0, 1], 1000);
    let b = v4([10, 0, 0, 2], 1000);
    let ga = PlayerEventGroup::new().with_event(RemoteEvent::MediaOpen("x".to_string()));
    let gb = PlayerEventGroup::new()
        .with_event(RemoteEvent::Pause)
        .with_event(RemoteEvent::RequestTransfer("t".to_string()));
    let expected = vec![
        RemoteEvent::RequestTransfer("t".to_string()),
        RemoteEvent::MediaOpen("x".to_string()),
    ];
    assert_eq!(expected, ga.clone().cascade(a, &gb, b).into_events());
    assert_eq!(expected, gb.clone().cascade(b, &ga, a).into_events());
}
