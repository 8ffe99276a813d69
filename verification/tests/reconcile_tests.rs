use vlcsync::communication::eventgroup::PlayerEventGroup;
use vlcsync::communication::{reconcile_groups, sort_by_priority, MessageBuffer};
use vlcsync::events::RemoteEvent;
use vlcsync::net::{NetAddr, NetAddrV4};

fn v4(octets: [u8; 4], port: u16) -> NetAddr {
    NetAddr::V4(NetAddrV4 { ip: u32::from_be_bytes(octets), port })
}

fn group(events: Vec<RemoteEvent>) -> PlayerEventGroup {
    PlayerEventGroup::from_events(events)
}

#[test]
fn peers_sorted_by_rank() {
    let a = v4([192, 168, 0, 5], 10);
    let b = v4([8, 8, 8, 8], 1);
    let c = v4([192, 168, 0, 5], 9);
    let sorted = sort_by_priority(vec![
        (b, group(vec![RemoteEvent::Play])),
        (a, group(vec![RemoteEvent::Pause])),
        (c, group(vec![])),
    ]);
    let order: Vec<NetAddr> = sorted.iter().map(|(addr, _)| *addr).collect();
    assert_eq!(order, vec![c, a, b]);
}

#[test]
fn no_peers_sends_own_and_delivers_nothing() {
    let me = v4([10, 0, 0, 1], 3000);
    let own = group(vec![RemoteEvent::Play, RemoteEvent::Jump(5)]);
    let (sent, delivered) = reconcile_groups(own.clone(), me, vec![]);
    assert_eq!(sent, own);
    assert!(delivered.into_events().is_empty());
}

/// One turn for a peer: its own events and what it received from the other peer.
fn turn(me: NetAddr, own: Vec<RemoteEvent>, other: NetAddr, received: Vec<RemoteEvent>) -> (Vec<RemoteEvent>, Vec<RemoteEvent>) {
    let (sent, delivered) = reconcile_groups(group(own), me, vec![(other, group(received))]);
    (sent.into_events(), delivered.into_events())
}

#[test]
fn jump_of_higher_peer_wins() {
    // Both peers jump at once; the one with the higher port ranks higher.
    let host = v4([127, 0, 0, 1], 30001);
    let client = v4([127, 0, 0, 1], 30000);
    let (client_sent, _) = turn(client, vec![RemoteEvent::Jump(3_000_000)], host, vec![]);
    let (host_sent, _) = turn(host, vec![RemoteEvent::Jump(2_000_000)], client, vec![]);
    let (_, client_got) = turn(client, vec![], host, host_sent.clone());
    let (_, host_got) = turn(host, vec![], client, client_sent.clone());
    assert_eq!(client_got, vec![RemoteEvent::Jump(2_000_000)]);
    assert_eq!(host_got, vec![RemoteEvent::Jump(3_000_000)]);
    // Taking both at once, the lower peer keeps quiet and follows the higher one.
    let (sent, got) = turn(client, vec![RemoteEvent::Jump(3_000_000)], host, host_sent);
    assert!(sent.is_empty());
    assert_eq!(got, vec![RemoteEvent::Jump(2_000_000)]);
    let (sent, got) = turn(host, vec![RemoteEvent::Jump(2_000_000)], client, client_sent);
    assert_eq!(sent, vec![RemoteEvent::Jump(2_000_000)]);
    assert!(got.is_empty());
}

#[test]
fn media_open_overrides() {
    let host = v4([127, 0, 0, 1], 30001);
    let client = v4([127, 0, 0, 1], 30000);
    let (sent, got) = turn(
        host,
        vec![RemoteEvent::Play, RemoteEvent::Jump(2_000_000)],
        client,
        vec![RemoteEvent::Play, RemoteEvent::MediaOpen("Test".to_string())],
    );
    assert!(sent.is_empty());
    assert_eq!(got, vec![RemoteEvent::MediaOpen("Test".to_string())]);
}

#[test]
fn message_buffer_assembles_blocks() {
    let blocks = RemoteEvent::Pause.as_blocks();
    let bytes = blocks[0].as_bytes().to_vec();
    let mut buffer = MessageBuffer::new();
    assert_eq!(buffer.empty_space(), 32);
    assert_eq!(buffer.fill(&bytes[..10]), Ok(None));
    assert_eq!(buffer.empty_space(), 22);
    assert_eq!(buffer.fill(&bytes[10..]), Ok(Some(RemoteEvent::Pause)));
    assert_eq!(buffer.empty_space(), 32);
}
