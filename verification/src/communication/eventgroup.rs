//! Grouping the events of one peer, and reconciling the groups of two peers.
//!
//! A group keeps at most one state for each aspect of playback (paused or not, the
//! position and the time it was seen at) and the media events in the order they
//! came. Once a group holds a media-open event it ignores everything after it.
use vstd::prelude::*;
use std::cmp::Ordering;
use crate::events::RemoteEvent;
use crate::net::{addr_port, NetAddr};
use crate::players::events::TimePing;

verus! {

/// The state of a group as plain values. Times are in microseconds.
pub struct GroupView {
    pub media: Seq<RemoteEvent>,
    pub is_paused: Option<bool>,
    pub did_jump: bool,
    pub position: Option<u64>,
    pub position_reference: Option<u64>,
}

/// The group that holds nothing.
pub open spec fn empty_group() -> GroupView {
    GroupView {
        media: Seq::empty(),
        is_paused: None,
        did_jump: false,
        position: None,
        position_reference: None,
    }
}

/// The last media event is a media-open.
pub open spec fn ends_in_media_open(media: Seq<RemoteEvent>) -> bool {
    media.len() > 0 && media.last() is MediaOpen
}

/// What every group that the operations below build satisfies: a jump comes with its
/// position, a position that was not jumped to comes with the time it was seen at, and
/// (unless a media-open ended the group) no such time without a position.
pub open spec fn group_wf(g: GroupView) -> bool {
    &&& g.did_jump ==> g.position is Some
    &&& (!g.did_jump && g.position is Some) ==> g.position_reference is Some
    &&& (!ends_in_media_open(g.media) && g.position is None) ==> g.position_reference is None
}

/// The first of two optional values that is present.
pub open spec fn first_some<T>(a: Option<T>, b: Option<T>) -> Option<T> {
    match a {
        Some(x) => Some(x),
        None => b,
    }
}

/// The group after one more event.
pub open spec fn group_with_event(g: GroupView, e: RemoteEvent) -> GroupView {
    if ends_in_media_open(g.media) {
        g
    } else {
        match e {
            RemoteEvent::Pause => GroupView { is_paused: Some(true), ..g },
            RemoteEvent::Play => GroupView { is_paused: Some(false), ..g },
            RemoteEvent::Jump(t) => GroupView {
                position: Some(t),
                position_reference: None,
                did_jump: true,
                ..g
            },
            RemoteEvent::MediaOpen(_) => GroupView {
                media: g.media.push(e),
                is_paused: None,
                did_jump: false,
                position: None,
                ..g
            },
            RemoteEvent::MediaOpenOkay(_) => GroupView { media: seq![e] + g.media, ..g },
            RemoteEvent::RequestTransfer(_) => GroupView { media: seq![e] + g.media, ..g },
            RemoteEvent::RespondTransfer { .. } => GroupView { media: seq![e] + g.media, ..g },
            RemoteEvent::Ping { timestamp, payload } => GroupView {
                position: first_some(g.position, Some(payload.micros)),
                position_reference: first_some(g.position_reference, Some(timestamp)),
                ..g
            },
            RemoteEvent::Shutdown => empty_group(),
        }
    }
}

/// The group built from a sequence of events, one after the other.
pub open spec fn fold_events(events: Seq<RemoteEvent>) -> GroupView
    decreases events.len(),
{
    if events.len() == 0 {
        empty_group()
    } else {
        group_with_event(fold_events(events.drop_last()), events.last())
    }
}

/// The events that a group stands for: its media events, then a jump or a ping,
/// then a pause or a play.
pub open spec fn group_events(g: GroupView) -> Seq<RemoteEvent> {
    let position_event: Seq<RemoteEvent> = if g.did_jump {
        seq![RemoteEvent::Jump(g.position.unwrap())]
    } else {
        match (g.position, g.position_reference) {
            (Some(p), Some(r)) => seq![
                RemoteEvent::Ping { timestamp: r, payload: TimePing { micros: p } },
            ],
            _ => Seq::empty(),
        }
    };
    let status_event: Seq<RemoteEvent> = match g.is_paused {
        Some(true) => seq![RemoteEvent::Pause],
        Some(false) => seq![RemoteEvent::Play],
        None => Seq::empty(),
    };
    g.media + position_event + status_event
}

/// A private IPv4 address: 10.0.0.0/8, 172.16.0.0/12 or 192.168.0.0/16.
pub open spec fn is_private_v4(ip: u32) -> bool {
    let a = ip / 0x100_0000;
    let b = (ip / 0x1_0000) % 0x100;
    a == 10 || (a == 172 && 16 <= b && b < 32) || (a == 192 && b == 168)
}

/// An address that is reachable from outside a private network, as the ranking sees it.
pub open spec fn addr_is_public(addr: NetAddr) -> bool {
    match addr {
        NetAddr::V4(a) => !is_private_v4(a.ip),
        NetAddr::V6(_) => true,
    }
}

/// The address as a 128-bit number; an IPv4 address as its IPv4-compatible IPv6 form.
pub open spec fn addr_bits(addr: NetAddr) -> u128 {
    match addr {
        NetAddr::V4(a) => a.ip as u128,
        NetAddr::V6(a) => a.ip,
    }
}

/// Three-way comparison of two addresses taken as numbers.
pub open spec fn compare_bits(x: u128, y: u128) -> Ordering {
    if x < y {
        Ordering::Less
    } else if x == y {
        Ordering::Equal
    } else {
        Ordering::Greater
    }
}

/// Three-way comparison of two ports.
pub open spec fn compare_ports(x: u16, y: u16) -> Ordering {
    if x < y {
        Ordering::Less
    } else if x == y {
        Ordering::Equal
    } else {
        Ordering::Greater
    }
}

/// How the peer at `a` ranks against the peer at `b`: equal addresses tie; otherwise a
/// public address outranks a private one, then the larger address wins, then the
/// larger port.
pub open spec fn priority(a: NetAddr, b: NetAddr) -> Ordering {
    if a == b {
        Ordering::Equal
    } else if addr_is_public(a) && !addr_is_public(b) {
        Ordering::Greater
    } else if !addr_is_public(a) && addr_is_public(b) {
        Ordering::Less
    } else if addr_bits(a) != addr_bits(b) {
        compare_bits(addr_bits(a), addr_bits(b))
    } else {
        compare_ports(addr_port(a), addr_port(b))
    }
}

/// The opposite ordering.
pub open spec fn flipped(o: Ordering) -> Ordering {
    match o {
        Ordering::Less => Ordering::Greater,
        Ordering::Equal => Ordering::Equal,
        Ordering::Greater => Ordering::Less,
    }
}

/// The group that holds one media-open event and nothing else.
pub open spec fn opened_group(e: RemoteEvent) -> GroupView {
    GroupView { media: seq![e], ..empty_group() }
}

/// What is left of the group `s` of the peer at `a` once the group `o` of the peer at
/// `b` is taken into account: where the two disagree, the peer with priority keeps its
/// state and the other drops its own.
pub open spec fn group_rectify(s: GroupView, a: NetAddr, o: GroupView, b: NetAddr) -> GroupView {
    let self_first = priority(a, b) == Ordering::Greater;
    if ends_in_media_open(s.media) {
        if ends_in_media_open(o.media) && !self_first {
            empty_group()
        } else {
            opened_group(s.media.last())
        }
    } else if ends_in_media_open(o.media) {
        empty_group()
    } else {
        let did_jump = s.did_jump && (!o.did_jump || self_first);
        let use_self_position = if s.did_jump == o.did_jump {
            self_first
        } else {
            s.did_jump
        };
        let position = if use_self_position || o.position is None {
            s.position
        } else {
            None
        };
        GroupView {
            media: s.media,
            is_paused: if self_first || o.is_paused is None {
                s.is_paused
            } else {
                None
            },
            did_jump,
            position,
            position_reference: if !did_jump && position is Some {
                s.position_reference
            } else {
                None
            },
        }
    }
}

/// The group of the peer at `a` merged with the group of the peer at `b`.
pub open spec fn group_cascade(s: GroupView, a: NetAddr, o: GroupView, b: NetAddr) -> GroupView {
    if ends_in_media_open(s.media) {
        GroupView {
            media: o.media + s.media,
            is_paused: None,
            did_jump: false,
            position: None,
            position_reference: s.position_reference,
        }
    } else if ends_in_media_open(o.media) {
        GroupView {
            media: s.media + o.media,
            is_paused: None,
            did_jump: false,
            position: None,
            position_reference: s.position_reference,
        }
    } else {
        let r = group_rectify(s, a, o, b);
        let did_jump = r.did_jump || o.did_jump;
        GroupView {
            media: r.media + o.media,
            is_paused: first_some(r.is_paused, o.is_paused),
            did_jump,
            position: first_some(r.position, o.position),
            position_reference: if did_jump {
                None
            } else {
                first_some(r.position_reference, o.position_reference)
            },
        }
    }
}

/// The events of one peer, folded into one state per aspect of playback.
#[derive(Eq, PartialEq, Hash, Debug)]
pub struct PlayerEventGroup {
    media_open_event: Vec<RemoteEvent>,
    is_paused: Option<bool>,
    did_jump: bool,
    position: Option<u64>,
    position_reference: Option<u64>,
}

impl View for PlayerEventGroup {
    type V = GroupView;

    closed spec fn view(&self) -> GroupView {
        GroupView {
            media: self.media_open_event@,
            is_paused: self.is_paused,
            did_jump: self.did_jump,
            position: self.position,
            position_reference: self.position_reference,
        }
    }
}

/// Putting an event that is not a media-open in front of a list does not change whether
/// the list ends with a media-open.
proof fn lemma_prepend_keeps_end(e: RemoteEvent, media: Seq<RemoteEvent>)
    requires
        !(e is MediaOpen),
    ensures
        ends_in_media_open(seq![e] + media) == ends_in_media_open(media),
{
    let m = seq![e] + media;
    if media.len() > 0 {
        assert(m.last() == m[media.len() as int]);
    }
}

/// Adding an event keeps a group well formed.
pub proof fn lemma_with_event_wf(g: GroupView, e: RemoteEvent)
    requires
        group_wf(g),
    ensures
        group_wf(group_with_event(g, e)),
{
    if !ends_in_media_open(g.media) {
        match e {
            RemoteEvent::MediaOpen(_) => {
                assert(ends_in_media_open(g.media.push(e)));
            },
            RemoteEvent::MediaOpenOkay(_) => lemma_prepend_keeps_end(e, g.media),
            RemoteEvent::RequestTransfer(_) => lemma_prepend_keeps_end(e, g.media),
            RemoteEvent::RespondTransfer { .. } => lemma_prepend_keeps_end(e, g.media),
            _ => {},
        }
    }
}

/// Rectifying keeps a group well formed.
pub proof fn lemma_rectify_wf(s: GroupView, a: NetAddr, o: GroupView, b: NetAddr)
    requires
        group_wf(s),
        group_wf(o),
    ensures
        group_wf(group_rectify(s, a, o, b)),
{
    if ends_in_media_open(s.media) {
        assert(ends_in_media_open(opened_group(s.media.last()).media));
    }
}

/// Merging two groups keeps the result well formed.
pub proof fn lemma_cascade_wf(s: GroupView, a: NetAddr, o: GroupView, b: NetAddr)
    requires
        group_wf(s),
        group_wf(o),
    ensures
        group_wf(group_cascade(s, a, o, b)),
{
    let c = group_cascade(s, a, o, b);
    if ends_in_media_open(s.media) {
        assert(c.media.last() == s.media.last());
    } else if ends_in_media_open(o.media) {
        assert(c.media.last() == o.media.last());
    } else {
        lemma_rectify_wf(s, a, o, b);
    }
}

/// A copy of an event, equal to it.
fn clone_event(e: &RemoteEvent) -> (r: RemoteEvent)
    ensures
        r == *e,
{
    match e {
        RemoteEvent::Ping { timestamp, payload } => RemoteEvent::Ping {
            timestamp: *timestamp,
            payload: *payload,
        },
        RemoteEvent::Pause => RemoteEvent::Pause,
        RemoteEvent::Play => RemoteEvent::Play,
        RemoteEvent::Jump(t) => RemoteEvent::Jump(*t),
        RemoteEvent::MediaOpen(s) => RemoteEvent::MediaOpen(s.clone()),
        RemoteEvent::RequestTransfer(s) => RemoteEvent::RequestTransfer(s.clone()),
        RemoteEvent::RespondTransfer { size, transfer_code } => RemoteEvent::RespondTransfer {
            size: *size,
            transfer_code: *transfer_code,
        },
        RemoteEvent::MediaOpenOkay(s) => RemoteEvent::MediaOpenOkay(s.clone()),
        RemoteEvent::Shutdown => RemoteEvent::Shutdown,
    }
}

/// A copy of a list of events, equal to it.
fn clone_events(v: &Vec<RemoteEvent>) -> (r: Vec<RemoteEvent>)
    ensures
        r@ == v@,
{
    let mut r: Vec<RemoteEvent> = Vec::new();
    let mut i: usize = 0;
    while i < v.len()
        invariant
            i <= v.len(),
            r@ == v@.take(i as int),
        decreases v.len() - i,
    {
        r.push(clone_event(&v[i]));
        i = i + 1;
        assert(r@ =~= v@.take(i as int));
    }
    assert(v@.take(v.len() as int) =~= v@);
    r
}

/// Whether the last event of a list is a media-open.
fn last_is_media_open(v: &Vec<RemoteEvent>) -> (r: bool)
    ensures
        r == ends_in_media_open(v@),
{
    if v.len() == 0 {
        false
    } else {
        match &v[v.len() - 1] {
            RemoteEvent::MediaOpen(_) => true,
            _ => false,
        }
    }
}

/// Whether an IPv4 address (as a big-endian number) lies in a private range.
pub fn ipv4_is_private(ip: u32) -> (r: bool)
    ensures
        r == is_private_v4(ip),
{
    let a = ip / 0x100_0000;
    let b = (ip / 0x1_0000) % 0x100;
    a == 10 || (a == 172 && 16 <= b && b < 32) || (a == 192 && b == 168)
}

/// The address as a 128-bit number, an IPv4 address in its IPv4-compatible form.
fn address_bits(addr: NetAddr) -> (r: u128)
    ensures
        r == addr_bits(addr),
{
    match addr {
        NetAddr::V4(a) => a.ip as u128,
        NetAddr::V6(a) => a.ip,
    }
}

/// How the peer at `self_addr` ranks against the peer at `other_addr`.
pub fn priority_ordering(self_addr: NetAddr, other_addr: NetAddr) -> (r: Ordering)
    ensures
        r == priority(self_addr, other_addr),
{
    if self_addr == other_addr {
        return Ordering::Equal;
    }
    let self_public = match self_addr {
        NetAddr::V4(a) => !ipv4_is_private(a.ip),
        NetAddr::V6(_) => true,
    };
    let other_public = match other_addr {
        NetAddr::V4(a) => !ipv4_is_private(a.ip),
        NetAddr::V6(_) => true,
    };
    if self_public && !other_public {
        return Ordering::Greater;
    }
    if !self_public && other_public {
        return Ordering::Less;
    }
    let self_bits = address_bits(self_addr);
    let other_bits = address_bits(other_addr);
    if self_bits < other_bits {
        return Ordering::Less;
    }
    if self_bits > other_bits {
        return Ordering::Greater;
    }
    let self_port = self_addr.port();
    let other_port = other_addr.port();
    if self_port < other_port {
        Ordering::Less
    } else if self_port == other_port {
        Ordering::Equal
    } else {
        Ordering::Greater
    }
}

impl PlayerEventGroup {
    #[verifier::type_invariant]
    spec fn well_formed(self) -> bool {
        group_wf(self@)
    }

    /// The group that holds nothing.
    pub fn new() -> (r: Self)
        ensures
            r@ == empty_group(),
    {
        PlayerEventGroup {
            media_open_event: Vec::new(),
            is_paused: None,
            did_jump: false,
            position: None,
            position_reference: None,
        }
    }

    /// Whether the group ends with a media-open event, after which it takes no more.
    pub fn is_media_opened(&self) -> (r: bool)
        ensures
            r == ends_in_media_open(self@.media),
    {
        last_is_media_open(&self.media_open_event)
    }

    /// The group with one more event taken into account.
    pub fn with_event(self, event: RemoteEvent) -> (r: Self)
        ensures
            r@ == group_with_event(self@, event),
    {
        proof {
            use_type_invariant(&self);
            lemma_with_event_wf(self@, event);
        }
        if last_is_media_open(&self.media_open_event) {
            return self;
        }
        let PlayerEventGroup {
            mut media_open_event,
            is_paused,
            did_jump,
            position,
            position_reference,
        } = self;
        match event {
            RemoteEvent::Pause => PlayerEventGroup {
                media_open_event,
                is_paused: Some(true),
                did_jump,
                position,
                position_reference,
            },
            RemoteEvent::Play => PlayerEventGroup {
                media_open_event,
                is_paused: Some(false),
                did_jump,
                position,
                position_reference,
            },
            RemoteEvent::Jump(t) => PlayerEventGroup {
                media_open_event,
                is_paused,
                did_jump: true,
                position: Some(t),
                position_reference: None,
            },
            RemoteEvent::MediaOpen(_) => {
                media_open_event.push(event);
                PlayerEventGroup {
                    media_open_event,
                    is_paused: None,
                    did_jump: false,
                    position: None,
                    position_reference,
                }
            },
            RemoteEvent::MediaOpenOkay(_)
            | RemoteEvent::RequestTransfer(_)
            | RemoteEvent::RespondTransfer { .. } => {
                media_open_event.insert(0, event);
                proof {
                    assert(media_open_event@ =~= seq![event] + self@.media);
                }
                PlayerEventGroup {
                    media_open_event,
                    is_paused,
                    did_jump,
                    position,
                    position_reference,
                }
            },
            RemoteEvent::Ping { timestamp, payload } => {
                let position = match position {
                    Some(p) => Some(p),
                    None => Some(payload.time()),
                };
                let position_reference = match position_reference {
                    Some(t) => Some(t),
                    None => Some(timestamp),
                };
                PlayerEventGroup {
                    media_open_event,
                    is_paused,
                    did_jump,
                    position,
                    position_reference,
                }
            },
            RemoteEvent::Shutdown => PlayerEventGroup::new(),
        }
    }

    /// The group built from a list of events, one after the other.
    pub fn from_events(events: Vec<RemoteEvent>) -> (r: Self)
        ensures
            r@ == fold_events(events@),
    {
        let mut g = PlayerEventGroup::new();
        let mut i: usize = 0;
        while i < events.len()
            invariant
                i <= events.len(),
                g@ == fold_events(events@.take(i as int)),
            decreases events.len() - i,
        {
            let e = clone_event(&events[i]);
            g = g.with_event(e);
            proof {
                let next = events@.take(i + 1);
                assert(next.drop_last() =~= events@.take(i as int));
                assert(next.last() == events@[i as int]);
            }
            i = i + 1;
        }
        assert(events@.take(events.len() as int) =~= events@);
        g
    }

    /// The events the group stands for: its media events, then a jump or a ping, then a
    /// pause or a play.
    pub fn into_events(self) -> (r: Vec<RemoteEvent>)
        ensures
            r@ == group_events(self@),
    {
        proof {
            use_type_invariant(&self);
        }
        let PlayerEventGroup {
            media_open_event,
            is_paused,
            did_jump,
            position,
            position_reference,
        } = self;
        let mut r = media_open_event;
        if did_jump {
            match position {
                Some(p) => r.push(RemoteEvent::Jump(p)),
                None => {},
            }
        } else {
            match (position, position_reference) {
                (Some(p), Some(t)) => r.push(
                    RemoteEvent::Ping { timestamp: t, payload: TimePing::from_duration(p) },
                ),
                _ => {},
            }
        }
        match is_paused {
            Some(true) => r.push(RemoteEvent::Pause),
            Some(false) => r.push(RemoteEvent::Play),
            None => {},
        }
        proof {
            assert(r@ =~= group_events(self@));
        }
        r
    }

    /// This group merged with the group of another peer: a media-open on either side
    /// wins and clears the playback state; otherwise this group is first rectified
    /// against the other and the two are combined.
    pub fn cascade(self, self_addr: NetAddr, other: &PlayerEventGroup, other_addr: NetAddr) -> (r: Self)
        ensures
            r@ == group_cascade(self@, self_addr, other@, other_addr),
    {
        proof {
            use_type_invariant(&self);
            use_type_invariant(other);
            lemma_cascade_wf(self@, self_addr, other@, other_addr);
        }
        if last_is_media_open(&self.media_open_event) {
            let mut media = clone_events(&other.media_open_event);
            let mut own = self.media_open_event;
            media.append(&mut own);
            PlayerEventGroup {
                media_open_event: media,
                is_paused: None,
                did_jump: false,
                position: None,
                position_reference: self.position_reference,
            }
        } else if last_is_media_open(&other.media_open_event) {
            let mut media = self.media_open_event;
            let mut theirs = clone_events(&other.media_open_event);
            media.append(&mut theirs);
            PlayerEventGroup {
                media_open_event: media,
                is_paused: None,
                did_jump: false,
                position: None,
                position_reference: self.position_reference,
            }
        } else {
            let rectified = self.rectify(self_addr, other, other_addr);
            let PlayerEventGroup {
                mut media_open_event,
                is_paused,
                did_jump,
                position,
                position_reference,
            } = rectified;
            let mut theirs = clone_events(&other.media_open_event);
            media_open_event.append(&mut theirs);
            let jumped = did_jump || other.did_jump;
            let position_reference = if jumped {
                None
            } else {
                match position_reference {
                    Some(t) => Some(t),
                    None => other.position_reference,
                }
            };
            PlayerEventGroup {
                media_open_event,
                is_paused: match is_paused {
                    Some(p) => Some(p),
                    None => other.is_paused,
                },
                did_jump: jumped,
                position: match position {
                    Some(p) => Some(p),
                    None => other.position,
                },
                position_reference,
            }
        }
    }

    /// What is left of this group once the group of another peer is taken into account:
    /// where the two disagree, the peer with priority keeps its state and the other drops
    /// its own.
    pub fn rectify(self, self_addr: NetAddr, other: &PlayerEventGroup, other_addr: NetAddr) -> (r: Self)
        ensures
            r@ == group_rectify(self@, self_addr, other@, other_addr),
    {
        proof {
            use_type_invariant(&self);
            use_type_invariant(other);
            lemma_rectify_wf(self@, self_addr, other@, other_addr);
        }
        let self_first = match priority_ordering(self_addr, other_addr) {
            Ordering::Greater => true,
            _ => false,
        };
        let self_opened = last_is_media_open(&self.media_open_event);
        let other_opened = last_is_media_open(&other.media_open_event);
        if self_opened {
            if other_opened && !self_first {
                return PlayerEventGroup::new();
            }
            let last = clone_event(&self.media_open_event[self.media_open_event.len() - 1]);
            let mut media: Vec<RemoteEvent> = Vec::new();
            media.push(last);
            proof {
                assert(media@ =~= seq![self@.media.last()]);
            }
            return PlayerEventGroup {
                media_open_event: media,
                is_paused: None,
                did_jump: false,
                position: None,
                position_reference: None,
            };
        }
        if other_opened {
            return PlayerEventGroup::new();
        }
        let did_jump = self.did_jump && (!other.did_jump || self_first);
        let use_self_position = if self.did_jump == other.did_jump {
            self_first
        } else {
            self.did_jump
        };
        let position = if use_self_position || other.position.is_none() {
            self.position
        } else {
            None
        };
        let is_paused = if self_first || other.is_paused.is_none() {
            self.is_paused
        } else {
            None
        };
        let position_reference = if !did_jump && position.is_some() {
            self.position_reference
        } else {
            None
        };
        PlayerEventGroup {
            media_open_event: self.media_open_event,
            is_paused,
            did_jump,
            position,
            position_reference,
        }
    }
}

impl Clone for PlayerEventGroup {
    fn clone(&self) -> (r: Self)
        ensures
            r@ == self@,
    {
        proof {
            use_type_invariant(self);
        }
        PlayerEventGroup {
            media_open_event: clone_events(&self.media_open_event),
            is_paused: self.is_paused,
            did_jump: self.did_jump,
            position: self.position,
            position_reference: self.position_reference,
        }
    }
}

impl Default for PlayerEventGroup {
    fn default() -> (r: Self)
        ensures
            r@ == empty_group(),
    {
        PlayerEventGroup::new()
    }
}

/// Ranking is antisymmetric: the peer at `b` ranks against the peer at `a` in the
/// opposite way that `a` ranks against `b`.
pub proof fn lemma_priority_flip(a: NetAddr, b: NetAddr)
    ensures
        priority(b, a) == flipped(priority(a, b)),
{
}

/// Two peers that rank differently and hold no media-open reach the same playback state
/// whichever of them merges the other's group: only the order of their media events
/// differs, each putting its own first.
pub proof fn lemma_cascade_symmetric(s: GroupView, a: NetAddr, o: GroupView, b: NetAddr)
    requires
        group_wf(s),
        group_wf(o),
        priority(a, b) != Ordering::Equal,
        !ends_in_media_open(s.media),
        !ends_in_media_open(o.media),
    ensures
        ({
            let c1 = group_cascade(s, a, o, b);
            let c2 = group_cascade(o, b, s, a);
            &&& c1.is_paused == c2.is_paused
            &&& c1.did_jump == c2.did_jump
            &&& c1.position == c2.position
            &&& c1.position_reference == c2.position_reference
            &&& c1.media == s.media + o.media
            &&& c2.media == o.media + s.media
        }),
{
    lemma_priority_flip(a, b);
}

/// When exactly one of two peers has opened a media, merging in either order gives the
/// same events: the other peer's media events followed by those of the peer that opened,
/// and no playback state.
pub proof fn lemma_cascade_media_open(s: GroupView, a: NetAddr, o: GroupView, b: NetAddr)
    requires
        ends_in_media_open(s.media) != ends_in_media_open(o.media),
    ensures
        ({
            let expected = if ends_in_media_open(s.media) {
                o.media + s.media
            } else {
                s.media + o.media
            };
            &&& group_events(group_cascade(s, a, o, b)) == expected
            &&& group_events(group_cascade(o, b, s, a)) == expected
        }),
{
    let c1 = group_cascade(s, a, o, b);
    let c2 = group_cascade(o, b, s, a);
    assert(group_events(c1) =~= c1.media);
    assert(group_events(c2) =~= c2.media);
}

/// The peer with priority keeps its own group when neither side opened a media, except
/// for a position it did not jump to where the other peer jumped; only the time of a
/// position that was jumped to is dropped.
pub proof fn lemma_priority_keeps_own(s: GroupView, a: NetAddr, o: GroupView, b: NetAddr)
    requires
        group_wf(s),
        group_wf(o),
        !(o.did_jump && !s.did_jump && s.position is Some),
        priority(a, b) == Ordering::Greater,
        !ends_in_media_open(s.media),
        !ends_in_media_open(o.media),
    ensures
        group_rectify(s, a, o, b) == (GroupView {
            position_reference: if s.did_jump {
                None
            } else {
                s.position_reference
            },
            ..s
        }),
{
}

/// Once a group holds a media-open event it ignores every further event.
pub proof fn lemma_media_open_is_final(g: GroupView, e: RemoteEvent)
    requires
        ends_in_media_open(g.media),
    ensures
        group_with_event(g, e) == g,
{
}

/// A shutdown clears the group, unless a media-open already ended it.
pub proof fn lemma_shutdown_clears(g: GroupView)
    requires
        !ends_in_media_open(g.media),
    ensures
        group_with_event(g, RemoteEvent::Shutdown) == empty_group(),
{
}

/// The rank by which peers are ordered: being public first, then the address, then the
/// port.
pub open spec fn addr_rank(a: NetAddr) -> int {
    (if addr_is_public(a) {
        1int
    } else {
        0int
    }) * 0x1_0000_0000_0000_0000_0000_0000_0000_0000_0000int + addr_bits(a) * 0x1_0000int + addr_port(
        a,
    )
}

/// How two ranks compare, by their parts.
proof fn lemma_rank_parts(a: NetAddr, b: NetAddr)
    ensures
        addr_is_public(a) && !addr_is_public(b) ==> addr_rank(a) > addr_rank(b),
        !addr_is_public(a) && addr_is_public(b) ==> addr_rank(a) < addr_rank(b),
        addr_is_public(a) == addr_is_public(b) ==> {
            &&& (addr_rank(a) < addr_rank(b)) == (addr_bits(a) < addr_bits(b) || (addr_bits(a)
                == addr_bits(b) && addr_port(a) < addr_port(b)))
            &&& (addr_rank(a) == addr_rank(b)) == (addr_bits(a) == addr_bits(b) && addr_port(a)
                == addr_port(b))
        },
{
    let ba = addr_bits(a) as int;
    let bb = addr_bits(b) as int;
    let pa = addr_port(a) as int;
    let pb = addr_port(b) as int;
    assert(0 <= ba * 0x1_0000 + pa < 0x1_0000_0000_0000_0000_0000_0000_0000_0000_0000) by (nonlinear_arith)
        requires
            0 <= ba < 0x1_0000_0000_0000_0000_0000_0000_0000_0000,
            0 <= pa < 0x1_0000,
    ;
    assert(0 <= bb * 0x1_0000 + pb < 0x1_0000_0000_0000_0000_0000_0000_0000_0000_0000) by (nonlinear_arith)
        requires
            0 <= bb < 0x1_0000_0000_0000_0000_0000_0000_0000_0000,
            0 <= pb < 0x1_0000,
    ;
    assert(ba < bb ==> ba * 0x1_0000 + pa < bb * 0x1_0000 + pb) by (nonlinear_arith)
        requires
            0 <= pa < 0x1_0000,
            0 <= pb < 0x1_0000,
    ;
    assert(ba > bb ==> ba * 0x1_0000 + pa > bb * 0x1_0000 + pb) by (nonlinear_arith)
        requires
            0 <= pa < 0x1_0000,
            0 <= pb < 0x1_0000,
    ;
}

/// Ranking two peers compares their ranks.
pub proof fn lemma_priority_is_rank_order(a: NetAddr, b: NetAddr)
    ensures
        (priority(a, b) == Ordering::Less) == (addr_rank(a) < addr_rank(b)),
        (priority(a, b) == Ordering::Equal) == (addr_rank(a) == addr_rank(b)),
        (priority(a, b) == Ordering::Greater) == (addr_rank(a) > addr_rank(b)),
{
    lemma_rank_parts(a, b);
}

/// Whether the peer at `a` ranks above the peer at `b`.
pub fn outranks(a: NetAddr, b: NetAddr) -> (r: bool)
    ensures
        r == (addr_rank(a) > addr_rank(b)),
{
    let order = priority_ordering(a, b);
    proof {
        lemma_priority_is_rank_order(a, b);
    }
    match order {
        Ordering::Greater => true,
        _ => false,
    }
}

/// A jump taken into a group that no media-open ended makes the group a jump to that
/// time, whatever position it held before, and leaves its media events and play state.
pub proof fn lemma_jump_sets_position(g: GroupView, t: u64)
    requires
        !ends_in_media_open(g.media),
    ensures
        group_with_event(g, RemoteEvent::Jump(t)).did_jump,
        group_with_event(g, RemoteEvent::Jump(t)).position == Some(t),
        group_with_event(g, RemoteEvent::Jump(t)).media == g.media,
        group_with_event(g, RemoteEvent::Jump(t)).is_paused == g.is_paused,
{
}

/// Of two jumps taken one after the other into a group that no media-open ended, the
/// later one is what the group sends.
pub proof fn lemma_later_jump_wins(g: GroupView, a: u64, b: u64)
    requires
        !ends_in_media_open(g.media),
    ensures
        group_events(group_with_event(group_with_event(g, RemoteEvent::Jump(a)), RemoteEvent::Jump(b))).contains(
            RemoteEvent::Jump(b),
        ),
{
    let h = group_with_event(group_with_event(g, RemoteEvent::Jump(a)), RemoteEvent::Jump(b));
    assert(h.did_jump && h.position == Some(b));
    let evs = group_events(h);
    assert(evs[h.media.len() as int] == RemoteEvent::Jump(b));
}

} // verus!
