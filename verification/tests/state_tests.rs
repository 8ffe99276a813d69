use vlcsync::events::RemoteEvent;
use vlcsync::players::events::{PlayerEvent, TimePing};
use vlcsync::state::{local_event_step, MediaOpenState, MediaOpenStateKind, TickAction};

fn s(x: &str) -> String {
    x.to_string()
}

#[test]
fn media_open_state_constructors() {
    assert_eq!(MediaOpenState::default(), MediaOpenState::okay());
    let b = MediaOpenState::broadcasting().with_url(s("a.mkv"));
    assert!(b.is_broadcasting("a.mkv"));
    assert!(!b.is_broadcasting("b.mkv"));
    assert!(!b.is_requesting("a.mkv"));
    assert!(MediaOpenState::requesting().with_url(s("x")).is_requesting("x"));
    assert!(MediaOpenState::transfering().with_url(s("x")).is_transfering("x"));
    assert!(!MediaOpenState::transfering().is_transfering("x"));
    assert_eq!(MediaOpenStateKind::default(), MediaOpenStateKind::Okay);
}

#[test]
fn disconnected_turn_resets() {
    let state = MediaOpenState::requesting().with_url(s("x"));
    let (next, actions) = local_event_step(state, false, vec![PlayerEvent::Play], vec![RemoteEvent::Pause]);
    assert_eq!(next, MediaOpenState::okay());
    assert!(actions.is_empty());
}

#[test]
fn idle_turn_relays() {
    let (next, actions) = local_event_step(
        MediaOpenState::okay(),
        true,
        vec![PlayerEvent::Pause, PlayerEvent::Jump(5)],
        vec![RemoteEvent::Play, RemoteEvent::Jump(7)],
    );
    assert_eq!(next, MediaOpenState::okay());
    assert_eq!(
        actions,
        vec![
            TickAction::Broadcast(RemoteEvent::Pause),
            TickAction::Broadcast(RemoteEvent::Jump(5)),
            TickAction::ToPlayer(PlayerEvent::Play),
            TickAction::ToPlayer(PlayerEvent::Jump(7)),
            TickAction::SendPing,
        ]
    );
}

#[test]
fn remote_ping_suppresses_own_ping() {
    let ping = RemoteEvent::Ping { timestamp: 9, payload: TimePing::from_micros(3) };
    let (_, actions) = local_event_step(MediaOpenState::okay(), true, vec![], vec![ping]);
    assert_eq!(actions, vec![TickAction::PlayerPing { payload: TimePing::from_micros(3), timestamp: 9 }]);
}

#[test]
fn local_open_broadcasts_and_holds_player() {
    let (next, actions) = local_event_step(
        MediaOpenState::okay(),
        true,
        vec![PlayerEvent::Play, PlayerEvent::MediaOpen(s("f.mkv"))],
        vec![RemoteEvent::Pause, RemoteEvent::RequestTransfer(s("f.mkv")), RemoteEvent::RequestTransfer(s("g"))],
    );
    assert_eq!(next, MediaOpenState::broadcasting().with_url(s("f.mkv")));
    assert_eq!(
        actions,
        vec![
            TickAction::Broadcast(RemoteEvent::MediaOpen(s("f.mkv"))),
            TickAction::ToPlayer(PlayerEvent::Pause),
            TickAction::Forward(RemoteEvent::RequestTransfer(s("f.mkv"))),
            TickAction::Ignored(RemoteEvent::RequestTransfer(s("g"))),
        ]
    );
}

#[test]
fn remote_open_requests_and_stops() {
    let (next, actions) = local_event_step(
        MediaOpenState::okay(),
        true,
        vec![],
        vec![RemoteEvent::MediaOpen(s("m")), RemoteEvent::Play],
    );
    assert_eq!(next, MediaOpenState::requesting().with_url(s("m")));
    assert_eq!(
        actions,
        vec![
            TickAction::ToPlayer(PlayerEvent::Pause),
            TickAction::Forward(RemoteEvent::MediaOpen(s("m"))),
            TickAction::SendPing,
        ]
    );
}

#[test]
fn open_okay_completes() {
    let state = MediaOpenState::requesting().with_url(s("m"));
    let respond = RemoteEvent::RespondTransfer { size: 10, transfer_code: None };
    let (next, actions) = local_event_step(
        state,
        true,
        vec![],
        vec![respond.clone(), RemoteEvent::MediaOpenOkay(s("other")), RemoteEvent::MediaOpenOkay(s("m"))],
    );
    assert_eq!(next, MediaOpenState::okay().with_url(s("m")));
    assert_eq!(
        actions,
        vec![
            TickAction::Forward(respond),
            TickAction::Ignored(RemoteEvent::MediaOpenOkay(s("other"))),
            TickAction::ToPlayer(PlayerEvent::Play),
        ]
    );
}
