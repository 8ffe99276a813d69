use std::cell::RefCell;
use std::rc::Rc;
use vlcsync::messages::{TimeDelta, TimeStamp, UserId};
use vlcsync::protocols::sync::{PlayerPosition, PlayerState, SyncMessage};
use vlcsync::traits::sync::{PlayerError, SyncConfig, SyncPlayer, SyncPlayerWrapper};

#[derive(Debug)]
struct MockState {
    state: PlayerState,
    pos: u64,
    set_states: Vec<PlayerState>,
    set_positions: Vec<u64>,
}

struct Mock(Rc<RefCell<MockState>>);

impl SyncPlayer for Mock {
    fn get_state(&self) -> Result<PlayerState, PlayerError> {
        Ok(self.0.borrow().state)
    }
    fn set_state(&mut self, state: PlayerState) -> Result<(), PlayerError> {
        let mut s = self.0.borrow_mut();
        s.state = state;
        s.set_states.push(state);
        Ok(())
    }
    fn get_pos(&self) -> Result<PlayerPosition, PlayerError> {
        Ok(PlayerPosition::from_millis(self.0.borrow().pos))
    }
    fn set_pos(&mut self, pos: PlayerPosition) -> Result<(), PlayerError> {
        let mut s = self.0.borrow_mut();
        s.pos = pos.as_millis();
        s.set_positions.push(pos.as_millis());
        Ok(())
    }
}

fn mock(state: PlayerState, pos: u64) -> (Mock, Rc<RefCell<MockState>>) {
    let shared = Rc::new(RefCell::new(MockState {
        state,
        pos,
        set_states: Vec::new(),
        set_positions: Vec::new(),
    }));
    (Mock(shared.clone()), shared)
}

fn message(source: u128, created: u64, state: PlayerState, pos: u64, jumped: bool, changed: bool) -> SyncMessage {
    let mut m = SyncMessage::zero();
    m.set_source_id(UserId::from_u128(source));
    m.set_created(TimeStamp::from_millis(created));
    m.set_state(state);
    m.set_position(PlayerPosition::from_millis(pos));
    m.set_jumped(jumped);
    m.set_changed_state(changed);
    m
}

fn wrapper(state: PlayerState, pos: u64, at: u64) -> (SyncPlayerWrapper<Mock>, Rc<RefCell<MockState>>) {
    let (player, shared) = mock(state, pos);
    let config = SyncConfig::with_id(UserId::from_u128(1));
    let w = SyncPlayerWrapper::from_status(
        player,
        config,
        TimeStamp::from_millis(at),
        state,
        PlayerPosition::from_millis(pos),
    );
    (w, shared)
}

#[test]
fn default_config_values() {
    let c = SyncConfig::new();
    assert_eq!(c.pos_err_threshold, TimeDelta::from_millis(400));
    assert_eq!(c.jump_threshold, TimeDelta::from_millis(3000));
    assert!(!c.jump_if_backwards);
    let d = SyncConfig::with_id(UserId::from_u128(7));
    assert_eq!(d.id, UserId::from_u128(7));
}

#[test]
fn own_and_stale_messages_are_ignored() {
    let (mut w, shared) = wrapper(PlayerState::Paused, 1000, 10_000);
    let own = message(1, 20_000, PlayerState::Playing, 1000, false, true);
    assert!(!w.should_process(own));
    assert_eq!(w.push_sync_status_at(own, TimeStamp::from_millis(20_000)), Ok(false));
    let remote = message(2, 20_000, PlayerState::Playing, 1000, false, true);
    assert!(w.should_process(remote));
    assert_eq!(w.push_sync_status_at(remote, TimeStamp::from_millis(20_000)), Ok(true));
    assert_eq!(shared.borrow().set_states, vec![PlayerState::Playing]);
    // The same message, or an older one, is not taken again.
    assert!(!w.should_process(remote));
    assert_eq!(w.push_sync_status_at(remote, TimeStamp::from_millis(20_001)), Ok(false));
    let older = message(2, 19_000, PlayerState::Paused, 1000, false, true);
    assert!(!w.should_process(older));
}

#[test]
fn state_desync_defaults_to_pause() {
    let (w, _shared) = wrapper(PlayerState::Playing, 1000, 10_000);
    // The peer is paused but did not just change state: the local player did not change
    // either, so it pauses.
    let m = message(2, 20_000, PlayerState::Paused, 1000, false, false);
    assert_eq!(w.desync_state(m, PlayerState::Playing), Some(PlayerState::Paused));
    // The local player changed state meanwhile: wait for it to be reported.
    assert_eq!(w.desync_state(m, PlayerState::Paused), None);
    // Fresh change from the peer: adopt it.
    let fresh = message(2, 20_000, PlayerState::Paused, 1000, false, true);
    assert_eq!(w.desync_state(fresh, PlayerState::Playing), Some(PlayerState::Paused));
    // Same state: nothing to do.
    let same = message(2, 20_000, PlayerState::Playing, 1000, false, true);
    assert_eq!(w.desync_state(same, PlayerState::Playing), None);
}

#[test]
fn remote_jump_is_followed() {
    let (mut w, shared) = wrapper(PlayerState::Paused, 1000, 10_000);
    let m = message(2, 20_000, PlayerState::Paused, 90_000, true, false);
    assert_eq!(w.push_sync_status_at(m, TimeStamp::from_millis(20_000)), Ok(true));
    assert_eq!(shared.borrow().set_positions, vec![90_000]);
    assert!(shared.borrow().set_states.is_empty());
}

#[test]
fn position_steps() {
    let (w, _shared) = wrapper(PlayerState::Paused, 10_000, 10_000);
    let now = TimeStamp::from_millis(20_000);
    // Peer close enough: nothing.
    let close = message(2, 20_000, PlayerState::Paused, 10_300, false, false);
    assert_eq!(w.position_step(close, now, PlayerPosition::from_millis(10_000)), None);
    // Peer ahead, player where expected: move to the peer.
    let ahead = message(2, 20_000, PlayerState::Paused, 12_000, false, false);
    assert_eq!(
        w.position_step(ahead, now, PlayerPosition::from_millis(10_000)),
        Some((PlayerPosition::from_millis(12_000), true))
    );
    // Peer behind: move there plus a third of the allowance.
    let behind = message(2, 20_000, PlayerState::Paused, 8_000, false, false);
    assert_eq!(
        w.position_step(behind, now, PlayerPosition::from_millis(10_000)),
        Some((PlayerPosition::from_millis(8_133), true))
    );
    // Player itself is actually close to the peer: keep it.
    assert_eq!(
        w.position_step(ahead, now, PlayerPosition::from_millis(11_900)),
        Some((PlayerPosition::from_millis(11_900), false))
    );
    // Player jumped by itself meanwhile: nothing.
    assert_eq!(w.position_step(ahead, now, PlayerPosition::from_millis(50_000)), None);
    // Messages no newer than the last jump are not acted on.
    let old = message(2, 10_000, PlayerState::Paused, 12_000, false, false);
    assert_eq!(w.position_step(old, now, PlayerPosition::from_millis(10_000)), None);
}

#[test]
fn local_status_flags() {
    let (mut w, shared) = wrapper(PlayerState::Paused, 5_000, 10_000);
    let s = w.get_sync_status().unwrap();
    assert!(!s.changed_state());
    assert!(!s.jumped());
    assert_eq!(s.position(), PlayerPosition::from_millis(5_000));
    assert_eq!(s.source_id(), UserId::from_u128(1));
    shared.borrow_mut().state = PlayerState::Playing;
    shared.borrow_mut().pos = 60_000;
    let s2 = w.get_sync_status().unwrap();
    assert!(s2.changed_state());
    assert!(s2.jumped());
    assert_eq!(s2.state(), PlayerState::Playing);
    // Computed at a given time.
    let s3 = w.local_status(s2.created(), PlayerState::Playing, PlayerPosition::from_millis(60_000));
    assert!(!s3.changed_state());
    assert!(!s3.jumped());
    assert_eq!(s3.created(), s2.created());
}
