//! The media-opening state of the application, and the decisions taken on each turn of
//! the loop that relays events between the local player and the peers.
use vstd::prelude::*;
use crate::events::{remote_of_player, RemoteEvent};
use crate::players::events::{PlayerEvent, TimePing};

verus! {

/// Where the application stands in opening a media together with its peers.
#[derive(Eq, PartialEq, Structural, Clone, Copy, Debug)]
pub enum MediaOpenStateKind {
    /// This peer opened a media and told the others.
    Broadcasting,
    /// A peer opened a media and this one asked for it.
    Requesting,
    /// This peer is sending the media to the others.
    Transfering,
    /// No media is being opened.
    Okay,
}

impl Default for MediaOpenStateKind {
    fn default() -> (r: Self)
        ensures
            r == MediaOpenStateKind::Okay,
    {
        MediaOpenStateKind::Okay
    }
}

/// The media-opening state and the media it is about.
#[derive(Clone, Eq, PartialEq, Debug)]
pub struct MediaOpenState {
    pub kind: MediaOpenStateKind,
    pub url: Option<String>,
}

/// The state of the given kind about no media.
pub open spec fn state_of_kind(kind: MediaOpenStateKind) -> MediaOpenState {
    MediaOpenState { kind, url: None }
}

/// The state is of kind `kind` and about the media `url`.
pub open spec fn is_state_for(s: MediaOpenState, kind: MediaOpenStateKind, url: Seq<char>) -> bool {
    &&& s.kind == kind
    &&& s.url matches Some(u) && u@ == url
}

impl MediaOpenState {
    /// The same state, about the media `url`.
    pub fn with_url(self, url: String) -> (r: Self)
        ensures
            r == (MediaOpenState { url: Some(url), ..self }),
    {
        MediaOpenState { kind: self.kind, url: Some(url) }
    }

    pub fn okay() -> (r: Self)
        ensures
            r == state_of_kind(MediaOpenStateKind::Okay),
    {
        MediaOpenState { kind: MediaOpenStateKind::Okay, url: None }
    }

    pub fn requesting() -> (r: Self)
        ensures
            r == state_of_kind(MediaOpenStateKind::Requesting),
    {
        MediaOpenState { kind: MediaOpenStateKind::Requesting, url: None }
    }

    pub fn transfering() -> (r: Self)
        ensures
            r == state_of_kind(MediaOpenStateKind::Transfering),
    {
        MediaOpenState { kind: MediaOpenStateKind::Transfering, url: None }
    }

    pub fn broadcasting() -> (r: Self)
        ensures
            r == state_of_kind(MediaOpenStateKind::Broadcasting),
    {
        MediaOpenState { kind: MediaOpenStateKind::Broadcasting, url: None }
    }

    /// Whether the state is of kind `kind` and about the media `url`.
    fn is_kind_for(&self, kind: MediaOpenStateKind, url: &str) -> (r: bool)
        ensures
            r == is_state_for(*self, kind, url@),
    {
        match &self.url {
            Some(cur) => {
                let wanted = url.to_owned();
                *cur == wanted && self.kind == kind
            },
            None => false,
        }
    }

    pub fn is_broadcasting(&self, url: &str) -> (r: bool)
        ensures
            r == is_state_for(*self, MediaOpenStateKind::Broadcasting, url@),
    {
        self.is_kind_for(MediaOpenStateKind::Broadcasting, url)
    }

    pub fn is_transfering(&self, url: &str) -> (r: bool)
        ensures
            r == is_state_for(*self, MediaOpenStateKind::Transfering, url@),
    {
        self.is_kind_for(MediaOpenStateKind::Transfering, url)
    }

    pub fn is_requesting(&self, url: &str) -> (r: bool)
        ensures
            r == is_state_for(*self, MediaOpenStateKind::Requesting, url@),
    {
        self.is_kind_for(MediaOpenStateKind::Requesting, url)
    }
}

impl Default for MediaOpenState {
    fn default() -> (r: Self)
        ensures
            r == state_of_kind(MediaOpenStateKind::Okay),
    {
        MediaOpenState { kind: MediaOpenStateKind::Okay, url: None }
    }
}

/// Something the relay loop does on one turn.
#[derive(Clone, Eq, PartialEq, Debug)]
pub enum TickAction {
    /// Send the event to the peers.
    Broadcast(RemoteEvent),
    /// Send the event to the local player.
    ToPlayer(PlayerEvent),
    /// Hand a peer's position, seen at `timestamp` (microseconds since the epoch), to the
    /// local player.
    PlayerPing { payload: TimePing, timestamp: u64 },
    /// Hand the event to the media-transfer handler of the application.
    Forward(RemoteEvent),
    /// The event arrived in a state that cannot take it; it is only reported.
    Ignored(RemoteEvent),
    /// Read the local player's position and the clock and send them to the peers.
    SendPing,
}

/// The first media the local player opened among its events.
pub open spec fn first_media_open(events: Seq<PlayerEvent>) -> Option<String>
    decreases events.len(),
{
    if events.len() == 0 {
        None
    } else {
        match events[0] {
            PlayerEvent::MediaOpen(url) => Some(url),
            _ => first_media_open(events.drop_first()),
        }
    }
}

/// What the relay loop has decided so far on the peers' events of one turn.
pub struct RemoteProgress {
    pub state: MediaOpenState,
    pub actions: Seq<TickAction>,
    pub should_ping: bool,
    /// A peer opened a media: the rest of the turn's events are dropped.
    pub stopped: bool,
}

/// One peer event taken into account, `busy` telling whether a media is being opened.
pub open spec fn remote_step(p: RemoteProgress, busy: bool, e: RemoteEvent) -> RemoteProgress {
    if p.stopped {
        p
    } else {
        match e {
            RemoteEvent::Jump(t) => if busy {
                p
            } else {
                RemoteProgress { actions: p.actions.push(TickAction::ToPlayer(PlayerEvent::Jump(t))), ..p }
            },
            RemoteEvent::Pause => if busy {
                p
            } else {
                RemoteProgress { actions: p.actions.push(TickAction::ToPlayer(PlayerEvent::Pause)), ..p }
            },
            RemoteEvent::Play => if busy {
                p
            } else {
                RemoteProgress { actions: p.actions.push(TickAction::ToPlayer(PlayerEvent::Play)), ..p }
            },
            RemoteEvent::Ping { payload, timestamp } => RemoteProgress {
                should_ping: false,
                actions: if busy {
                    p.actions
                } else {
                    p.actions.push(TickAction::PlayerPing { payload, timestamp })
                },
                ..p
            },
            RemoteEvent::MediaOpen(url) => RemoteProgress {
                state: MediaOpenState { kind: MediaOpenStateKind::Requesting, url: Some(url) },
                actions: p.actions.push(TickAction::ToPlayer(PlayerEvent::Pause)).push(
                    TickAction::Forward(e),
                ),
                stopped: true,
                ..p
            },
            RemoteEvent::RequestTransfer(url) => if is_state_for(
                p.state,
                MediaOpenStateKind::Broadcasting,
                url@,
            ) {
                RemoteProgress { actions: p.actions.push(TickAction::Forward(e)), ..p }
            } else {
                RemoteProgress { actions: p.actions.push(TickAction::Ignored(e)), ..p }
            },
            RemoteEvent::RespondTransfer { .. } => if p.state.kind == MediaOpenStateKind::Requesting {
                RemoteProgress { actions: p.actions.push(TickAction::Forward(e)), ..p }
            } else {
                RemoteProgress { actions: p.actions.push(TickAction::Ignored(e)), ..p }
            },
            RemoteEvent::MediaOpenOkay(url) => if is_state_for(
                p.state,
                MediaOpenStateKind::Broadcasting,
                url@,
            ) || is_state_for(p.state, MediaOpenStateKind::Transfering, url@) || is_state_for(
                p.state,
                MediaOpenStateKind::Requesting,
                url@,
            ) {
                RemoteProgress {
                    state: MediaOpenState { kind: MediaOpenStateKind::Okay, url: Some(url) },
                    actions: p.actions.push(TickAction::ToPlayer(PlayerEvent::Play)),
                    ..p
                }
            } else {
                RemoteProgress { actions: p.actions.push(TickAction::Ignored(e)), ..p }
            },
            RemoteEvent::Shutdown => p,
        }
    }
}

/// The peer events of a turn taken into account one after the other.
pub open spec fn remote_steps(p: RemoteProgress, busy: bool, events: Seq<RemoteEvent>) -> RemoteProgress
    decreases events.len(),
{
    if events.len() == 0 {
        p
    } else {
        remote_step(remote_steps(p, busy, events.drop_last()), busy, events.last())
    }
}

/// The local player's events to send to the peers, or the pause that holds the player
/// while a media is being opened and it tried to play.
pub open spec fn local_actions(busy: bool, events: Seq<PlayerEvent>) -> Seq<TickAction> {
    if !busy {
        events.map_values(|e: PlayerEvent| TickAction::Broadcast(remote_of_player(e)))
    } else if events.contains(PlayerEvent::Play) {
        seq![TickAction::ToPlayer(PlayerEvent::Pause)]
    } else {
        Seq::empty()
    }
}

/// One turn of the relay loop: the new state and what to do, given the state, whether
/// any peer is connected, the local player's events and the peers' events.
///
/// With no peer connected, a media opening is abandoned and nothing is done. Otherwise
/// a media the local player opened is announced and this peer starts broadcasting it.
/// While no media is being opened, the player's events go to the peers and the peers'
/// playback events go to the player; while one is, the player is held paused. The
/// peers' media events move the opening along. A ping is sent unless a media is being
/// opened or a peer sent one.
pub open spec fn tick(
    state: MediaOpenState,
    connected: bool,
    player_events: Seq<PlayerEvent>,
    remote_events: Seq<RemoteEvent>,
) -> (MediaOpenState, Seq<TickAction>) {
    if !connected {
        (
            if state.kind != MediaOpenStateKind::Okay {
                state_of_kind(MediaOpenStateKind::Okay)
            } else {
                state
            },
            Seq::empty(),
        )
    } else {
        let (state1, opened) = match first_media_open(player_events) {
            Some(url) => (
                MediaOpenState { kind: MediaOpenStateKind::Broadcasting, url: Some(url) },
                seq![TickAction::Broadcast(RemoteEvent::MediaOpen(url))],
            ),
            None => (state, Seq::<TickAction>::empty()),
        };
        let busy = state1.kind != MediaOpenStateKind::Okay;
        let start = RemoteProgress {
            state: state1,
            actions: opened + local_actions(busy, player_events),
            should_ping: !busy,
            stopped: false,
        };
        let done = remote_steps(start, busy, remote_events);
        (
            done.state,
            if done.should_ping {
                done.actions.push(TickAction::SendPing)
            } else {
                done.actions
            },
        )
    }
}

/// A copy of a string, equal to it.
fn copy_string(s: &String) -> (r: String)
    ensures
        r == *s,
{
    s.clone()
}

/// The first media the local player opened among its events.
fn find_media_open(events: &Vec<PlayerEvent>) -> (r: Option<String>)
    ensures
        r == first_media_open(events@),
{
    let mut i: usize = 0;
    assert(events@.subrange(0, events@.len() as int) =~= events@);
    while i < events.len()
        invariant
            i <= events@.len(),
            first_media_open(events@) == first_media_open(events@.subrange(i as int, events@.len() as int)),
        decreases events@.len() - i,
    {
        let ghost rest = events@.subrange(i as int, events@.len() as int);
        match &events[i] {
            PlayerEvent::MediaOpen(url) => {
                assert(rest[0] == events@[i as int]);
                return Some(copy_string(url));
            },
            _ => {},
        }
        assert(rest.drop_first() =~= events@.subrange(i + 1, events@.len() as int));
        i = i + 1;
    }
    assert(events@.subrange(i as int, events@.len() as int) =~= Seq::<PlayerEvent>::empty());
    None
}

/// Whether the local player tried to play.
fn has_play(events: &Vec<PlayerEvent>) -> (r: bool)
    ensures
        r == events@.contains(PlayerEvent::Play),
{
    let mut i: usize = 0;
    while i < events.len()
        invariant
            i <= events@.len(),
            forall|j: int| 0 <= j < i ==> events@[j] != PlayerEvent::Play,
        decreases events@.len() - i,
    {
        match &events[i] {
            PlayerEvent::Play => {
                assert(events@[i as int] == PlayerEvent::Play);
                return true;
            },
            _ => {},
        }
        i = i + 1;
    }
    false
}

/// Once the peers' events of a turn were cut short, later events change nothing.
proof fn lemma_stopped_stays(p: RemoteProgress, busy: bool, events: Seq<RemoteEvent>)
    requires
        p.stopped,
    ensures
        remote_steps(p, busy, events) == p,
    decreases events.len(),
{
    if events.len() > 0 {
        lemma_stopped_stays(p, busy, events.drop_last());
    }
}

/// Taking the first `i` events and then the rest is taking them all.
proof fn lemma_steps_split(p: RemoteProgress, busy: bool, events: Seq<RemoteEvent>, i: int)
    requires
        0 <= i <= events.len(),
    ensures
        remote_steps(p, busy, events) == remote_steps(
            remote_steps(p, busy, events.take(i)),
            busy,
            events.subrange(i, events.len() as int),
        ),
    decreases events.len(),
{
    if events.len() > i {
        lemma_steps_split(p, busy, events.drop_last(), i);
        assert(events.drop_last().take(i) =~= events.take(i));
        assert(events.subrange(i, events.len() as int).drop_last() =~= events.drop_last().subrange(
            i,
            events.len() - 1,
        ));
    } else {
        assert(events.take(i) =~= events);
        assert(events.subrange(i, events.len() as int) =~= Seq::<RemoteEvent>::empty());
    }
}

/// One turn of the relay loop, as `tick` describes it.
pub fn local_event_step(
    state: MediaOpenState,
    connected: bool,
    player_events: Vec<PlayerEvent>,
    remote_events: Vec<RemoteEvent>,
) -> (r: (MediaOpenState, Vec<TickAction>))
    ensures
        (r.0, r.1@) == tick(state, connected, player_events@, remote_events@),
{
    if !connected {
        let next = if state.kind != MediaOpenStateKind::Okay {
            MediaOpenState::default()
        } else {
            state
        };
        return (next, Vec::new());
    }
    let ghost pe = player_events@;
    let n_player = player_events.len();
    let mut actions: Vec<TickAction> = Vec::new();
    let mut state = state;
    match find_media_open(&player_events) {
        Some(url) => {
            let announced = copy_string(&url);
            state = MediaOpenState { kind: MediaOpenStateKind::Broadcasting, url: Some(url) };
            actions.push(TickAction::Broadcast(RemoteEvent::MediaOpen(announced)));
        },
        None => {},
    }
    let busy = state.kind != MediaOpenStateKind::Okay;
    let ghost opened = actions@;
    if !busy {
        let mut rest = player_events;
        let mut i: usize = 0;
        while rest.len() > 0
            invariant
                i + rest@.len() == pe.len(),
                pe.len() == n_player,
                rest@ == pe.subrange(i as int, pe.len() as int),
                actions@ == opened + pe.take(i as int).map_values(
                    |e: PlayerEvent| TickAction::Broadcast(remote_of_player(e)),
                ),
            decreases rest@.len(),
        {
            let evt = rest.remove(0);
            actions.push(TickAction::Broadcast(RemoteEvent::from(evt)));
            proof {
                assert(pe.take(i + 1).map_values(|e: PlayerEvent| TickAction::Broadcast(remote_of_player(e)))
                    =~= pe.take(i as int).map_values(
                    |e: PlayerEvent| TickAction::Broadcast(remote_of_player(e)),
                ).push(TickAction::Broadcast(remote_of_player(pe[i as int]))));
            }
            i = i + 1;
        }
        assert(pe.take(i as int) =~= pe);
    } else if has_play(&player_events) {
        actions.push(TickAction::ToPlayer(PlayerEvent::Pause));
    }
    assert(actions@ == opened + local_actions(busy, pe));
    let ghost start = RemoteProgress {
        state: state,
        actions: actions@,
        should_ping: !busy,
        stopped: false,
    };
    let ghost re = remote_events@;
    let n_remote = remote_events.len();
    let mut should_ping = !busy;
    let mut rest = remote_events;
    let mut i: usize = 0;
    let mut stopped = false;
    while rest.len() > 0 && !stopped
        invariant
            i + rest@.len() == re.len(),
            re.len() == n_remote,
            rest@ == re.subrange(i as int, re.len() as int),
            remote_steps(start, busy, re.take(i as int)) == (RemoteProgress {
                state: state,
                actions: actions@,
                should_ping,
                stopped,
            }),
        decreases rest@.len(),
    {
        let evt = rest.remove(0);
        let ghost before = RemoteProgress { state: state, actions: actions@, should_ping, stopped };
        proof {
            assert(re.take(i + 1).drop_last() =~= re.take(i as int));
            assert(re.take(i + 1).last() == evt);
        }
        match evt {
            RemoteEvent::Jump(tm) => {
                if !busy {
                    actions.push(TickAction::ToPlayer(PlayerEvent::Jump(tm)));
                }
            },
            RemoteEvent::Pause => {
                if !busy {
                    actions.push(TickAction::ToPlayer(PlayerEvent::Pause));
                }
            },
            RemoteEvent::Play => {
                if !busy {
                    actions.push(TickAction::ToPlayer(PlayerEvent::Play));
                }
            },
            RemoteEvent::Ping { payload, timestamp } => {
                should_ping = false;
                if !busy {
                    actions.push(TickAction::PlayerPing { payload, timestamp });
                }
            },
            RemoteEvent::MediaOpen(url) => {
                let forwarded = RemoteEvent::MediaOpen(copy_string(&url));
                actions.push(TickAction::ToPlayer(PlayerEvent::Pause));
                actions.push(TickAction::Forward(forwarded));
                state = MediaOpenState { kind: MediaOpenStateKind::Requesting, url: Some(url) };
                stopped = true;
            },
            RemoteEvent::RequestTransfer(url) => {
                if state.is_broadcasting(url.as_str()) {
                    actions.push(TickAction::Forward(RemoteEvent::RequestTransfer(url)));
                } else {
                    actions.push(TickAction::Ignored(RemoteEvent::RequestTransfer(url)));
                }
            },
            RemoteEvent::RespondTransfer { size, transfer_code } => {
                let e = RemoteEvent::RespondTransfer { size, transfer_code };
                if state.kind == MediaOpenStateKind::Requesting {
                    actions.push(TickAction::Forward(e));
                } else {
                    actions.push(TickAction::Ignored(e));
                }
            },
            RemoteEvent::MediaOpenOkay(url) => {
                let is_good = state.is_broadcasting(url.as_str()) || state.is_transfering(
                    url.as_str(),
                ) || state.is_requesting(url.as_str());
                if is_good {
                    state = MediaOpenState { kind: MediaOpenStateKind::Okay, url: Some(url) };
                    actions.push(TickAction::ToPlayer(PlayerEvent::Play));
                } else {
                    actions.push(TickAction::Ignored(RemoteEvent::MediaOpenOkay(url)));
                }
            },
            RemoteEvent::Shutdown => {},
        }
        proof {
            assert((RemoteProgress { state: state, actions: actions@, should_ping, stopped })
                == remote_step(before, busy, evt));
        }
        i = i + 1;
    }
    proof {
        if rest@.len() > 0 {
            lemma_stopped_stays(
                RemoteProgress { state: state, actions: actions@, should_ping, stopped },
                busy,
                re.subrange(i as int, re.len() as int),
            );
        } else {
            assert(re.take(i as int) =~= re);
        }
        lemma_steps_split(start, busy, re, i as int);
    }
    if should_ping {
        actions.push(TickAction::SendPing);
    }
    (state, actions)
}

/// Without peers a media opening is abandoned and nothing is done.
pub proof fn lemma_disconnected_resets(
    state: MediaOpenState,
    player_events: Seq<PlayerEvent>,
    remote_events: Seq<RemoteEvent>,
)
    ensures
        tick(state, false, player_events, remote_events).0.kind == MediaOpenStateKind::Okay,
        tick(state, false, player_events, remote_events).1 == Seq::<TickAction>::empty(),
{
}

/// While no media is being opened and the local player opens none, each of its events is
/// sent to the peers, in order, before anything else.
pub proof fn lemma_idle_relays_player_events(
    state: MediaOpenState,
    player_events: Seq<PlayerEvent>,
    remote_events: Seq<RemoteEvent>,
)
    requires
        state.kind == MediaOpenStateKind::Okay,
        first_media_open(player_events) is None,
    ensures
        ({
            let actions = tick(state, true, player_events, remote_events).1;
            &&& actions.len() >= player_events.len()
            &&& forall|i: int|
                0 <= i < player_events.len() ==> #[trigger] actions[i] == TickAction::Broadcast(
                    remote_of_player(player_events[i]),
                )
        }),
{
    let start = RemoteProgress {
        state,
        actions: Seq::<TickAction>::empty() + local_actions(false, player_events),
        should_ping: true,
        stopped: false,
    };
    lemma_steps_keep_prefix(start, false, remote_events);
    let done = remote_steps(start, false, remote_events);
    let actions = tick(state, true, player_events, remote_events).1;
    assert(actions == if done.should_ping {
        done.actions.push(TickAction::SendPing)
    } else {
        done.actions
    });
    assert forall|i: int| 0 <= i < player_events.len() implies #[trigger] actions[i] == TickAction::Broadcast(
        remote_of_player(player_events[i]),
    ) by {
        assert(done.actions.subrange(0, start.actions.len() as int)[i] == start.actions[i]);
        assert(actions[i] == done.actions[i]);
    }
}

/// Taking peer events only ever adds actions after those already decided.
pub proof fn lemma_steps_keep_prefix(p: RemoteProgress, busy: bool, events: Seq<RemoteEvent>)
    ensures
        remote_steps(p, busy, events).actions.len() >= p.actions.len(),
        remote_steps(p, busy, events).actions.subrange(0, p.actions.len() as int) == p.actions,
    decreases events.len(),
{
    if events.len() > 0 {
        lemma_steps_keep_prefix(p, busy, events.drop_last());
        let q = remote_steps(p, busy, events.drop_last());
        let r = remote_step(q, busy, events.last());
        assert(r.actions.len() >= q.actions.len());
        assert(r.actions.subrange(0, q.actions.len() as int) == q.actions);
        assert(r.actions.subrange(0, p.actions.len() as int) =~= q.actions.subrange(
            0,
            p.actions.len() as int,
        ));
    }
}

/// A peer's media-open makes this peer request that media, and the rest of the peers'
/// events of the turn are dropped.
pub proof fn lemma_remote_open_requests(p: RemoteProgress, busy: bool, url: String, rest: Seq<RemoteEvent>)
    requires
        !p.stopped,
    ensures
        ({
            let r = remote_steps(p, busy, seq![RemoteEvent::MediaOpen(url)] + rest);
            &&& r.stopped
            &&& r.state == (MediaOpenState { kind: MediaOpenStateKind::Requesting, url: Some(url) })
        }),
{
    let events = seq![RemoteEvent::MediaOpen(url)] + rest;
    lemma_steps_split(p, busy, events, 1);
    assert(events.take(1).drop_last() =~= Seq::<RemoteEvent>::empty());
    assert(events.take(1).last() == RemoteEvent::MediaOpen(url));
    assert(remote_steps(p, busy, events.take(1).drop_last()) == p);
    let q = remote_steps(p, busy, events.take(1));
    assert(q == remote_step(p, busy, RemoteEvent::MediaOpen(url)));
    assert(q.stopped);
    lemma_stopped_stays(q, busy, events.subrange(1, events.len() as int));
}

/// While a media is being opened (broadcast, transferred or requested) with URL `u`, a
/// connected turn with no player events in which a peer reports it opened `u` completes
/// the opening: the state becomes Okay with URL `u` and the player is told to play, and
/// nothing else is done.
pub proof fn lemma_open_okay_completes(state: MediaOpenState, url: String)
    requires
        state.kind != MediaOpenStateKind::Okay,
        state.url matches Some(u) && u@ == url@,
    ensures
        tick(state, true, Seq::empty(), seq![RemoteEvent::MediaOpenOkay(url)]) == (
            MediaOpenState { kind: MediaOpenStateKind::Okay, url: Some(url) },
            seq![TickAction::ToPlayer(PlayerEvent::Play)],
        ),
{
    let evs = seq![RemoteEvent::MediaOpenOkay(url)];
    assert(first_media_open(Seq::<PlayerEvent>::empty()) is None);
    assert(local_actions(true, Seq::<PlayerEvent>::empty()) =~= Seq::<TickAction>::empty());
    let start = RemoteProgress {
        state: state,
        actions: Seq::<TickAction>::empty() + local_actions(true, Seq::empty()),
        should_ping: false,
        stopped: false,
    };
    assert(start.actions =~= Seq::<TickAction>::empty());
    assert(evs.drop_last() =~= Seq::<RemoteEvent>::empty());
    assert(remote_steps(start, true, evs.drop_last()) == start);
    assert(evs.last() == RemoteEvent::MediaOpenOkay(url));
    assert(is_state_for(state, MediaOpenStateKind::Broadcasting, url@) || is_state_for(
        state,
        MediaOpenStateKind::Transfering,
        url@,
    ) || is_state_for(state, MediaOpenStateKind::Requesting, url@));
    let done = remote_steps(start, true, evs);
    assert(done == remote_step(start, true, RemoteEvent::MediaOpenOkay(url)));
    assert(done.state == MediaOpenState { kind: MediaOpenStateKind::Okay, url: Some(url) });
    assert(!done.should_ping);
    assert(done.actions =~= seq![TickAction::ToPlayer(PlayerEvent::Play)]);
}

} // verus!
