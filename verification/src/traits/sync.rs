//! Keeping a local player in step with the status messages of its peers.
//!
//! A `SyncPlayerWrapper` remembers the last status it saw of its own player and, for
//! each peer, the creation time of the last message it took from it. A message from a
//! peer may move the local player's play state and position; a local change is
//! reported by `get_sync_status` with its event flags set.
use vstd::prelude::*;
use std::collections::HashMap;
use crate::messages::{TimeStamp, UserId};
use crate::protocols::sync::{PlayerPosition, PlayerState, SyncMessage, projected_position};
use crate::utils::{abs_diff, AbsSub};

pub use crate::config::SyncConfig;

verus! {

broadcast use vstd::std_specs::hash::group_hash_axioms;

/// How often, in milliseconds, the local status is sent to the peers.
pub const PUSH_FREQUENCY_MILLIS: u64 = 100;

/// How long to wait, from `now`, before the first push and between pushes: two periods
/// less the time already spent in the current period, so that peers push close to the
/// same instants.
pub fn broadcast_delay_millis(now: TimeStamp) -> (r: u64)
    ensures
        r == 2 * PUSH_FREQUENCY_MILLIS - now.millis % PUSH_FREQUENCY_MILLIS,
        PUSH_FREQUENCY_MILLIS < r <= 2 * PUSH_FREQUENCY_MILLIS,
{
    let offset_millis = now.as_millis() % PUSH_FREQUENCY_MILLIS;
    2 * PUSH_FREQUENCY_MILLIS - offset_millis
}

/// An error reported by a player.
#[derive(Clone, Debug, Eq, PartialEq)]
pub struct PlayerError {
    pub message: String,
}

/// A media player that can be read and driven.
pub trait SyncPlayer {
    fn get_state(&self) -> Result<PlayerState, PlayerError>;

    fn set_state(&mut self, state: PlayerState) -> Result<(), PlayerError>;

    fn get_pos(&self) -> Result<PlayerPosition, PlayerError>;

    fn set_pos(&mut self, state: PlayerPosition) -> Result<(), PlayerError>;
}

impl<'a> SyncPlayer for Box<dyn SyncPlayer + 'a> {
    fn get_state(&self) -> Result<PlayerState, PlayerError> {
        (**self).get_state()
    }

    fn set_state(&mut self, state: PlayerState) -> Result<(), PlayerError> {
        (**self).set_state(state)
    }

    fn get_pos(&self) -> Result<PlayerPosition, PlayerError> {
        (**self).get_pos()
    }

    fn set_pos(&mut self, state: PlayerPosition) -> Result<(), PlayerError> {
        (**self).set_pos(state)
    }
}

/// A source of players, each with a name.
pub trait SyncPlayerList: Sized {
    fn new() -> Result<Self, PlayerError>;

    fn get_players(&mut self) -> Result<Vec<(String, Box<dyn SyncPlayer>)>, PlayerError>;
}

/// Whether a message should be rebroadcast to the other peers.
pub type ShouldRebroadcast = bool;

/// The state of a wrapper apart from its player.
pub struct WrapperView {
    pub config: SyncConfig,
    pub previous_status: SyncMessage,
    /// For each peer id, the creation time of the last message taken from it.
    pub event_times: Map<u128, TimeStamp>,
    pub last_state_push_time: TimeStamp,
    pub last_jump_time: TimeStamp,
}

/// The message says exactly these things (the protocol tag aside).
pub open spec fn status_says(
    m: SyncMessage,
    source: nat,
    created: nat,
    state: PlayerState,
    position: nat,
    jumped: bool,
    changed_state: bool,
) -> bool {
    &&& m.spec_source_id() == source
    &&& m.spec_created() == created
    &&& m.spec_state() == state
    &&& m.spec_position() == position % 0x100_0000_0000
    &&& m.spec_jumped() == jumped
    &&& m.spec_changed_state() == changed_state
}

/// The time stamp a message carries.
pub open spec fn created_stamp(m: SyncMessage) -> TimeStamp {
    TimeStamp { millis: m.spec_created() as u64 }
}

/// A message is taken when it comes from another peer and is newer than the last one
/// taken from that peer.
pub open spec fn should_take(v: WrapperView, m: SyncMessage) -> bool {
    let src = m.spec_source_id();
    &&& src != v.config.id.data
    &&& (!v.event_times.contains_key(src as u128) || v.event_times[src as u128].millis
        < m.spec_created())
}

/// The play state has to be read from the player to decide on the message: the peer's
/// state differs from ours and is no fresh state change.
pub open spec fn needs_player_state(v: WrapperView, m: SyncMessage) -> bool {
    &&& v.previous_status.spec_state() != m.spec_state()
    &&& !(m.spec_changed_state() && m.spec_created() > v.last_state_push_time.millis)
}

/// The play state to switch to on a message, given the state the player reports (read
/// only where `needs_player_state` holds): none where the states agree; the peer's
/// state where it is a fresh change; otherwise none if the local player itself changed
/// state meanwhile, and a pause if it did not.
pub open spec fn state_decision(v: WrapperView, m: SyncMessage, current: PlayerState) -> Option<PlayerState> {
    if v.previous_status.spec_state() == m.spec_state() {
        None
    } else if m.spec_changed_state() && m.spec_created() > v.last_state_push_time.millis {
        Some(m.spec_state())
    } else if current != v.previous_status.spec_state() {
        None
    } else {
        Some(PlayerState::Paused)
    }
}

/// Where the local player should be at `now`, by its last status.
pub open spec fn local_expected(v: WrapperView, now: nat) -> nat {
    projected_position(v.previous_status, now)
}

/// Where the peer should be at `now`, by its message.
pub open spec fn remote_expected(m: SyncMessage, now: nat) -> nat {
    projected_position(m, now)
}

/// The two expected positions are too far apart and the message is newer than the
/// last jump: the position has to be looked at.
pub open spec fn position_out_of_step(v: WrapperView, m: SyncMessage, now: nat) -> bool {
    &&& abs_diff(local_expected(v, now) as int, remote_expected(m, now) as int)
        > v.config.pos_err_threshold.millis
    &&& m.spec_created() > v.last_jump_time.millis
}

/// The position has to be read from the player to decide on the message.
pub open spec fn needs_player_pos(v: WrapperView, m: SyncMessage, now: nat) -> bool {
    position_out_of_step(v, m, now) && !m.spec_jumped()
}

/// The position to move to on a message at `now`, and whether the player has to be
/// moved there, given the position the player reports (read only where
/// `needs_player_pos` holds). Nothing is done while the positions agree or the message
/// is older than the last jump. A remote jump is followed. If the local player moved by
/// itself meanwhile, nothing is done. If the player is in fact close to the peer, its
/// own position is kept. Otherwise it is moved to the peer's position, a third of the
/// drift allowance further on where the peer is behind.
pub open spec fn pos_decision(v: WrapperView, m: SyncMessage, now: nat, player: nat) -> Option<(nat, bool)> {
    let current = local_expected(v, now);
    let expected = remote_expected(m, now);
    let threshold = v.config.pos_err_threshold.millis;
    if !position_out_of_step(v, m, now) {
        None
    } else if m.spec_jumped() {
        Some((expected, true))
    } else if abs_diff(player as int, current as int) > v.config.jump_threshold.millis || (
    v.config.jump_if_backwards && player < current) {
        None
    } else if abs_diff(player as int, expected as int) <= threshold {
        Some((player, false))
    } else {
        let offset: nat = if expected < current {
            (threshold / 3) as nat
        } else {
            0
        };
        Some((expected + offset, true))
    }
}

/// `after` is the wrapper `before` once it took the message `m` at `now`, the state step
/// `s` and the position step `p` having been decided.
pub open spec fn took_message(
    before: WrapperView,
    after: WrapperView,
    m: SyncMessage,
    now: nat,
    s: Option<PlayerState>,
    p: Option<(nat, bool)>,
) -> bool {
    let prev = before.previous_status;
    &&& after.config == before.config
    &&& after.event_times == before.event_times.insert(
        m.spec_source_id() as u128,
        created_stamp(m),
    )
    &&& after.last_state_push_time == if s is Some {
        created_stamp(m)
    } else {
        before.last_state_push_time
    }
    &&& after.last_jump_time == if p matches Some((_, true)) {
        created_stamp(m)
    } else {
        before.last_jump_time
    }
    &&& status_says(
        after.previous_status,
        prev.spec_source_id(),
        if s is Some || p is Some {
            now
        } else {
            prev.spec_created()
        },
        match s {
            Some(st) => st,
            None => prev.spec_state(),
        },
        match p {
            Some((pos, _)) => pos,
            None => prev.spec_position(),
        },
        prev.spec_jumped(),
        prev.spec_changed_state(),
    )
}

/// The status a wrapper reports of its player at `now`, the player being in state
/// `state` at position `pos`: the state changed if it differs from the last status, and
/// the player jumped if it is further than the jump threshold from where the last status
/// puts it (or, where so configured, behind it).
pub open spec fn local_status_says(v: WrapperView, m: SyncMessage, now: nat, state: PlayerState, pos: nat) -> bool {
    let expected = local_expected(v, now);
    let jumped = abs_diff(pos as int, expected as int) > v.config.jump_threshold.millis || (
    v.config.jump_if_backwards && pos < expected);
    &&& status_says(
        m,
        v.config.id.data as nat,
        now,
        state,
        pos,
        jumped,
        state != v.previous_status.spec_state(),
    )
    &&& m.raw()[24] == 1
}

/// `after` is the wrapper `before` once it reported the status `m`.
pub open spec fn reported_status(before: WrapperView, after: WrapperView, m: SyncMessage) -> bool {
    &&& after.config == before.config
    &&& after.event_times == before.event_times
    &&& after.previous_status == m
    &&& after.last_state_push_time == if m.spec_changed_state() {
        created_stamp(m)
    } else {
        before.last_state_push_time
    }
    &&& after.last_jump_time == if m.spec_jumped() {
        created_stamp(m)
    } else {
        before.last_jump_time
    }
}

/// The wrapper of a player first seen at `now` in state `state` at position `pos`.
pub open spec fn initial_wrapper(v: WrapperView, config: SyncConfig, now: TimeStamp, state: PlayerState, pos: nat) -> bool {
    &&& v.config == config
    &&& v.event_times == Map::<u128, TimeStamp>::empty()
    &&& v.last_state_push_time == now
    &&& v.last_jump_time == now
    &&& status_says(v.previous_status, config.id.data as nat, now.millis as nat, state, pos, false, false)
    &&& v.previous_status.raw()[24] == 1
}

/// Some state the player could report leads to the state step `d`.
pub open spec fn state_step_possible(v: WrapperView, m: SyncMessage, d: Option<PlayerState>) -> bool {
    exists|current: PlayerState| d == #[trigger] state_decision(v, m, current)
}

/// Some position the player could report leads to the position step `r`.
pub open spec fn pos_step_possible(v: WrapperView, m: SyncMessage, now: nat, r: Option<(PlayerPosition, bool)>) -> bool {
    exists|player: nat| #[trigger] pos_step_matches(r, pos_decision(v, m, now, player))
}

/// `after` is `before` once it took the message `m` at `now`, for some state and
/// position that the player could have reported.
pub open spec fn took_message_at(before: WrapperView, after: WrapperView, m: SyncMessage, now: nat) -> bool {
    exists|current: PlayerState, player: nat|
        #[trigger] took_message(
            before,
            after,
            m,
            now,
            state_decision(before, m, current),
            pos_decision(before, m, now, player),
        )
}

/// `m` is a status the wrapper `v` reports for some time, play state and position.
pub open spec fn local_status_possible(v: WrapperView, m: SyncMessage) -> bool {
    exists|now: nat, state: PlayerState, pos: nat| #[trigger] local_status_says(v, m, now, state, pos)
}

/// The position stored in a message fits in its five bytes.
pub proof fn lemma_position_fits(m: SyncMessage)
    ensures
        m.spec_position() < 0x100_0000_0000,
{
    crate::bytes::lemma_le_value_bound(m.raw().subrange(27, 32));
    crate::bytes::lemma_power_256_8();
}

/// A message's position projected to any time fits in its five bytes.
pub proof fn lemma_projected_fits(m: SyncMessage, t: nat)
    ensures
        projected_position(m, t) < 0x100_0000_0000,
{
    lemma_position_fits(m);
}

/// A media player kept in step with its peers.
pub struct SyncPlayerWrapper<T: SyncPlayer> {
    player: T,
    config: SyncConfig,
    previous_status: SyncMessage,
    previous_event_times: HashMap<u128, TimeStamp>,
    last_state_push_time: TimeStamp,
    last_jump_time: TimeStamp,
}

impl<T: SyncPlayer> View for SyncPlayerWrapper<T> {
    type V = WrapperView;

    closed spec fn view(&self) -> WrapperView {
        WrapperView {
            config: self.config,
            previous_status: self.previous_status,
            event_times: self.previous_event_times@,
            last_state_push_time: self.last_state_push_time,
            last_jump_time: self.last_jump_time,
        }
    }
}

/// The status message of a player seen at `now` in state `state` at position `pos`,
/// with the given flags.
fn fresh_status(
    id: UserId,
    now: TimeStamp,
    state: PlayerState,
    pos: PlayerPosition,
    jumped: bool,
    changed_state: bool,
) -> (r: SyncMessage)
    ensures
        status_says(r, id.data as nat, now.millis as nat, state, pos.millis as nat, jumped, changed_state),
        r.raw()[24] == 1,
{
    let mut status = SyncMessage::zero();
    status.set_created(now);
    status.set_source_id(id);
    status.set_state(state);
    status.set_changed_state(changed_state);
    status.set_jumped(jumped);
    status.set_position(pos);
    status
}

impl<T: SyncPlayer> SyncPlayerWrapper<T> {
    /// The settings of this wrapper.
    pub fn config(&self) -> (r: SyncConfig)
        ensures
            r == self@.config,
    {
        self.config
    }

    /// The wrapper of a player first seen at `now` in state `state` at position `pos`.
    pub fn from_status(player: T, config: SyncConfig, now: TimeStamp, state: PlayerState, pos: PlayerPosition) -> (r: Self)
        ensures
            initial_wrapper(r@, config, now, state, pos.millis as nat),
    {
        let previous_status = fresh_status(config.id, now, state, pos, false, false);
        let previous_event_times: HashMap<u128, TimeStamp> = HashMap::new();
        SyncPlayerWrapper {
            player,
            config,
            previous_status,
            previous_event_times,
            last_state_push_time: now,
            last_jump_time: now,
        }
    }

    /// Wraps a player, reading its state, its position and the clock.
    pub fn new(player: T, config: SyncConfig) -> (r: Result<Self, PlayerError>)
        ensures
            r is Ok ==> initial_wrapper(
                r->Ok_0@,
                config,
                r->Ok_0@.last_jump_time,
                r->Ok_0@.previous_status.spec_state(),
                r->Ok_0@.previous_status.spec_position(),
            ),
    {
        let cur_state = player.get_state()?;
        let cur_pos = player.get_pos()?;
        let cur_time = TimeStamp::now();
        Ok(Self::from_status(player, config, cur_time, cur_state, cur_pos))
    }

    /// Whether a message is to be taken: it comes from another peer and is newer than
    /// the last one taken from that peer.
    pub fn should_process(&self, message: SyncMessage) -> (r: bool)
        ensures
            r == should_take(self@, message),
    {
        let source = message.source_id();
        if source.data == self.config.id.data {
            return false;
        }
        match self.previous_event_times.get(&source.data) {
            Some(ts) => ts.millis < message.created().millis,
            None => true,
        }
    }

    /// The play state to switch to on a message, reading the player's state where that
    /// is needed to decide.
    fn process_state_change(&self, message: SyncMessage) -> (r: Result<Option<PlayerState>, PlayerError>)
        ensures
            !needs_player_state(self@, message) ==> r == Ok::<Option<PlayerState>, PlayerError>(
                state_decision(self@, message, PlayerState::Paused),
            ),
            r is Ok ==> state_step_possible(self@, message, r->Ok_0),
    {
        let previous_state = self.previous_status.state();
        let message_state = message.state();
        if previous_state == message_state {
            return Ok(None);
        }
        if message.changed_state() && message.created().millis > self.last_state_push_time.millis {
            return Ok(Some(message_state));
        }
        let current_state = self.player.get_state()?;
        let r = Self::desync_state(self, message, current_state);
        assert(r == state_decision(self@, message, current_state));
        Ok(r)
    }

    /// The play state to switch to on a message, given the state the player reports.
    pub fn desync_state(&self, message: SyncMessage, current: PlayerState) -> (r: Option<PlayerState>)
        ensures
            r == state_decision(self@, message, current),
    {
        let previous_state = self.previous_status.state();
        if previous_state == message.state() {
            None
        } else if message.changed_state() && message.created().millis > self.last_state_push_time.millis {
            Some(message.state())
        } else if current != previous_state {
            None
        } else {
            Some(PlayerState::Paused)
        }
    }

    /// The position step on a message at `now`, given the position the player reports.
    pub fn position_step(&self, message: SyncMessage, now: TimeStamp, player_pos: PlayerPosition) -> (r: Option<(PlayerPosition, bool)>)
        requires
            projected_position(message, now.millis as nat) + self@.config.pos_err_threshold.millis / 3 <= u64::MAX,
        ensures
            match (r, pos_decision(self@, message, now.millis as nat, player_pos.millis as nat)) {
                (Some((p, push)), Some((q, should))) => p.millis == q && push == should,
                (None, None) => true,
                _ => false,
            },
    {
        let current_pos = self.previous_status.projected_to_time(now).position();
        let expected_pos = message.projected_to_time(now).position();
        let threshold = self.config.pos_err_threshold;
        let has_pos_diff = current_pos.abs_sub(expected_pos).millis > threshold.millis;
        let past_last_jump = message.created().millis > self.last_jump_time.millis;
        if !(has_pos_diff && past_last_jump) {
            return None;
        }
        if message.jumped() {
            return Some((expected_pos, true));
        }
        let different_mag = player_pos.abs_sub(current_pos);
        let jumped_back = self.config.jump_if_backwards && player_pos.millis < current_pos.millis;
        if different_mag.millis > self.config.jump_threshold.millis || jumped_back {
            return None;
        }
        if player_pos.abs_sub(expected_pos).millis <= threshold.millis {
            return Some((player_pos, false));
        }
        let offset_millis = if expected_pos.millis < current_pos.millis {
            threshold.millis / 3
        } else {
            0
        };
        let npos = expected_pos.add(crate::messages::TimeDelta::from_millis(offset_millis));
        Some((npos, true))
    }

    /// The position step on a message at `now`, reading the player's position where
    /// that is needed to decide.
    fn process_pos_change(&self, message: SyncMessage, now: TimeStamp) -> (r: Result<Option<(PlayerPosition, bool)>, PlayerError>)
        requires
            projected_position(message, now.millis as nat) + self@.config.pos_err_threshold.millis / 3 <= u64::MAX,
        ensures
            r is Ok ==> pos_step_possible(self@, message, now.millis as nat, r->Ok_0),
            !needs_player_pos(self@, message, now.millis as nat) ==> r is Ok && pos_step_matches(r->Ok_0, pos_decision(self@, message, now.millis as nat, 0)),
    {
        let current_pos = self.previous_status.projected_to_time(now).position();
        let expected_pos = message.projected_to_time(now).position();
        let has_pos_diff = current_pos.abs_sub(expected_pos).millis > self.config.pos_err_threshold.millis;
        let past_last_jump = message.created().millis > self.last_jump_time.millis;
        if !(has_pos_diff && past_last_jump) || message.jumped() {
            let r = self.position_step(message, now, PlayerPosition::from_millis(0));
            assert(pos_step_matches(r, pos_decision(self@, message, now.millis as nat, 0)));
            return Ok(r);
        }
        let player_pos = self.player.get_pos()?;
        let r = self.position_step(message, now, player_pos);
        assert(pos_step_matches(r, pos_decision(self@, message, now.millis as nat, player_pos.millis as nat)));
        Ok(r)
    }

    /// Takes a status message of a peer, read at `now`: switches the local player's
    /// state and moves it as the message calls for, and records the message. Returns
    /// whether the message was taken (and so should be passed on). On an error of the
    /// player nothing is recorded.
    pub fn push_sync_status_at(&mut self, message: SyncMessage, now: TimeStamp) -> (r: Result<ShouldRebroadcast, PlayerError>)
        requires
            projected_position(message, now.millis as nat) + old(self)@.config.pos_err_threshold.millis / 3 <= u64::MAX,
        ensures
            !should_take(old(self)@, message) ==> r == Ok::<bool, PlayerError>(false) && final(self)@ == old(self)@,
            should_take(old(self)@, message) && r is Ok ==> r == Ok::<bool, PlayerError>(true)
                && took_message_at(old(self)@, final(self)@, message, now.millis as nat),
            r is Err ==> final(self)@ == old(self)@,
    {
        if !self.should_process(message) {
            return Ok(false);
        }
        let state_step = self.process_state_change(message)?;
        let pos_step = self.process_pos_change(message, now)?;
        let ghost current = choose|current: PlayerState| state_step == #[trigger] state_decision(self@, message, current);
        let ghost player = choose|player: nat| #[trigger] pos_step_matches(pos_step, pos_decision(self@, message, now.millis as nat, player));
        let ghost before = self@;
        proof {
            lemma_position_fits(self.previous_status);
        }
        let mut next_status = self.previous_status;
        let mut last_state_push_time = self.last_state_push_time;
        let mut last_jump_time = self.last_jump_time;
        match state_step {
            Some(nxt) => {
                next_status.set_created(now);
                next_status.set_state(nxt);
                self.player.set_state(nxt)?;
                last_state_push_time = message.created();
            },
            None => {},
        }
        match pos_step {
            Some((npos, should_push)) => {
                next_status.set_created(now);
                next_status.set_position(npos);
                if should_push {
                    self.player.set_pos(npos)?;
                    last_jump_time = message.created();
                }
            },
            None => {},
        }
        self.previous_event_times.insert(message.source_id().data, message.created());
        self.previous_status = next_status;
        self.last_state_push_time = last_state_push_time;
        self.last_jump_time = last_jump_time;
        proof {
            assert(took_message(
                before,
                self@,
                message,
                now.millis as nat,
                state_decision(before, message, current),
                pos_decision(before, message, now.millis as nat, player),
            ));
        }
        Ok(true)
    }

    /// Takes a status message of a peer, reading the clock once: see
    /// `push_sync_status_at`.
    pub fn push_sync_status(&mut self, message: SyncMessage) -> (r: Result<ShouldRebroadcast, PlayerError>)
        requires
            old(self)@.config.pos_err_threshold.millis / 3 + 0xff_ffff_ffff <= u64::MAX,
        ensures
            !should_take(old(self)@, message) ==> r == Ok::<bool, PlayerError>(false) && final(self)@ == old(self)@,
            should_take(old(self)@, message) && r is Ok ==> r == Ok::<bool, PlayerError>(true)
                && exists|now: nat| #[trigger] took_message_at(old(self)@, final(self)@, message, now),
            r is Err ==> final(self)@ == old(self)@,
    {
        let now = TimeStamp::now();
        proof {
            lemma_projected_fits(message, now.millis as nat);
        }
        self.push_sync_status_at(message, now)
    }

    /// The status of the local player at `now`, in state `state` at position `pos`.
    pub fn local_status(&self, now: TimeStamp, state: PlayerState, pos: PlayerPosition) -> (r: SyncMessage)
        ensures
            local_status_says(self@, r, now.millis as nat, state, pos.millis as nat),
    {
        let prev_status = self.previous_status;
        let changed_status = state != prev_status.state();
        let expected_pos = prev_status.projected_to_time(now).position();
        let err = pos.abs_sub(expected_pos);
        let jump_back = self.config.jump_if_backwards && pos.millis < expected_pos.millis;
        let jumped = err.millis > self.config.jump_threshold.millis || jump_back;
        fresh_status(self.config.id, now, state, pos, jumped, changed_status)
    }

    /// Records a status of the local player as the last one reported.
    pub fn record_status(&mut self, status: SyncMessage)
        ensures
            reported_status(old(self)@, final(self)@, status),
    {
        self.previous_status = status;
        if status.changed_state() {
            self.last_state_push_time = status.created();
        }
        if status.jumped() {
            self.last_jump_time = status.created();
        }
    }

    /// Reads the local player and the clock, and reports the player's status: whether it
    /// changed state or jumped since the last status.
    pub fn get_sync_status(&mut self) -> (r: Result<SyncMessage, PlayerError>)
        ensures
            r is Ok ==> local_status_possible(old(self)@, r->Ok_0) && reported_status(
                old(self)@,
                final(self)@,
                r->Ok_0,
            ),
            r is Err ==> final(self)@ == old(self)@,
    {
        let now = TimeStamp::now();
        let state = self.player.get_state()?;
        let pos = self.player.get_pos()?;
        let status = self.local_status(now, state, pos);
        let ghost before = self@;
        self.record_status(status);
        assert(local_status_says(before, status, now.millis as nat, state, pos.millis as nat));
        Ok(status)
    }
}

/// The position step taken agrees with the one decided.
pub open spec fn pos_step_matches(r: Option<(PlayerPosition, bool)>, d: Option<(nat, bool)>) -> bool {
    match (r, d) {
        (Some((p, push)), Some((q, should))) => p.millis == q && push == should,
        (None, None) => true,
        _ => false,
    }
}

/// A message that was taken is not taken again: the time recorded for its sender is
/// its own creation time, which is not older than itself.
pub proof fn lemma_taken_once(before: WrapperView, after: WrapperView, m: SyncMessage, now: nat)
    requires
        took_message_at(before, after, m, now),
    ensures
        !should_take(after, m),
{
    let (current, player) = choose|current: PlayerState, player: nat|
        #[trigger] took_message(
            before,
            after,
            m,
            now,
            state_decision(before, m, current),
            pos_decision(before, m, now, player),
        );
    crate::bytes::lemma_le_value_bound(m.raw().subrange(16, 24));
    crate::bytes::lemma_power_256_8();
}

/// A wrapper never takes a message that carries its own id.
pub proof fn lemma_own_messages_ignored(v: WrapperView, m: SyncMessage)
    requires
        m.spec_source_id() == v.config.id.data,
    ensures
        !should_take(v, m),
{
}

/// Without jumping back configured, a player that stayed within the jump threshold of
/// where its last status puts it is always brought in step with a peer that is out of
/// step and newer than the last jump: either it is left where it is, because it is in
/// fact within the drift allowance of the peer, or it is moved to the peer's position,
/// at most a third of the allowance further on.
pub proof fn lemma_out_of_step_is_corrected(v: WrapperView, m: SyncMessage, now: nat, player: nat)
    requires
        !v.config.jump_if_backwards,
        abs_diff(local_expected(v, now) as int, remote_expected(m, now) as int) > v.config.pos_err_threshold.millis,
        m.spec_created() > v.last_jump_time.millis,
        abs_diff(player as int, local_expected(v, now) as int) <= v.config.jump_threshold.millis,
    ensures
        match pos_decision(v, m, now, player) {
            Some((p, moved)) => {
                &&& !moved ==> p == player && abs_diff(player as int, remote_expected(m, now) as int)
                    <= v.config.pos_err_threshold.millis
                &&& moved ==> remote_expected(m, now) <= p <= remote_expected(m, now)
                    + v.config.pos_err_threshold.millis / 3
            },
            None => false,
        },
{
}

/// The jumped flag of a local status: set whenever the player is further than the jump
/// threshold from where its last status puts it, and, without jumping back configured,
/// only then.
pub proof fn lemma_local_jump_flag(v: WrapperView, m: SyncMessage, now: nat, state: PlayerState, pos: nat)
    requires
        local_status_says(v, m, now, state, pos),
    ensures
        abs_diff(pos as int, local_expected(v, now) as int) > v.config.jump_threshold.millis ==> m.spec_jumped(),
        !v.config.jump_if_backwards ==> (m.spec_jumped() <==> abs_diff(pos as int, local_expected(v, now) as int)
            > v.config.jump_threshold.millis),
{
}

} // verus!
