//! Players reached over MPRIS: the events a change of status stands for.
use vstd::prelude::*;
use crate::players::events::{PlayerEvent, PlayerEventView};
use crate::utils::abs_diff;

verus! {

/// How far, in microseconds, a position may stray from where it is expected before it
/// counts as a jump.
pub const JUMP_ERROR_MARGIN_MICROS: u64 = 1_000_000;

/// What a player reports at one moment. Times are in microseconds.
#[derive(Clone, Debug, Eq, PartialEq)]
pub struct PlayerStatus {
    pub is_paused: bool,
    /// The id of the current track, if any.
    pub track_id: Option<String>,
    /// The URL in the current track's metadata, if any.
    pub url: Option<String>,
    /// The `status` string in the current track's metadata, if any.
    pub status: Option<String>,
    pub position: u64,
}

/// Two optional strings are equal.
pub open spec fn same_text(a: Option<String>, b: Option<String>) -> bool {
    match (a, b) {
        (Some(x), Some(y)) => x@ == y@,
        (None, None) => true,
        _ => false,
    }
}

/// The track changed to one that is worth announcing: its URL differs from the
/// previous URL and status, and its status is not the previous URL (unless there was
/// none).
pub open spec fn opens_media(cur: PlayerStatus, prev: Option<PlayerStatus>) -> bool {
    let prev_id = match prev { Some(p) => p.track_id, None => None };
    let prev_url = match prev { Some(p) => p.url, None => None };
    let prev_status = match prev { Some(p) => p.status, None => None };
    &&& !same_text(cur.track_id, prev_id)
    &&& !same_text(cur.url, prev_url)
    &&& !same_text(cur.url, prev_status)
    &&& (!same_text(cur.status, prev_url) || prev_url is None)
}

/// The media announced: the URL, else the status, else nothing.
pub open spec fn announced_media(cur: PlayerStatus) -> Seq<char> {
    match cur.url {
        Some(u) => u@,
        None => match cur.status {
            Some(s) => s@,
            None => Seq::empty(),
        },
    }
}

/// The position moved by more than the player's own progress over `dt` explains: it went
/// back, or it is more than the margin away from where it should be.
pub open spec fn jumped_since(cur: PlayerStatus, prev: Option<PlayerStatus>, dt: u64) -> bool {
    match prev {
        None => true,
        Some(p) => if p.position > cur.position {
            true
        } else if cur.is_paused {
            abs_diff(cur.position as int, p.position as int) > JUMP_ERROR_MARGIN_MICROS
        } else {
            abs_diff(cur.position as int, p.position + dt) > JUMP_ERROR_MARGIN_MICROS
        },
    }
}

/// The play state changed (or was never reported).
pub open spec fn state_changed(cur: PlayerStatus, prev: Option<PlayerStatus>) -> bool {
    match prev {
        None => true,
        Some(p) => p.is_paused != cur.is_paused,
    }
}

/// The events, as plain values, that the change from `prev` to `cur` over `dt`
/// microseconds stands for.
pub open spec fn status_events(cur: PlayerStatus, prev: Option<PlayerStatus>, dt: u64) -> Seq<PlayerEventView> {
    (if opens_media(cur, prev) {
        seq![PlayerEventView::MediaOpen(announced_media(cur))]
    } else {
        Seq::empty()
    }) + (if jumped_since(cur, prev, dt) {
        seq![PlayerEventView::Jump(cur.position)]
    } else {
        Seq::empty()
    }) + (if state_changed(cur, prev) {
        seq![
            if cur.is_paused {
                PlayerEventView::Pause
            } else {
                PlayerEventView::Play
            },
        ]
    } else {
        Seq::empty()
    })
}

/// The previous status, if any, as a value.
pub open spec fn previous_value(previous: Option<&PlayerStatus>) -> Option<PlayerStatus> {
    match previous {
        Some(p) => Some(*p),
        None => None,
    }
}

/// Whether two optional strings are equal.
fn same_text_exec(a: &Option<String>, b: &Option<String>) -> (r: bool)
    ensures
        r == same_text(*a, *b),
{
    match (a, b) {
        (Some(x), Some(y)) => *x == *y,
        (None, None) => true,
        _ => false,
    }
}

/// The distance between two microsecond counts.
fn distance(a: u64, b: u64) -> (r: u64)
    ensures
        r == abs_diff(a as int, b as int),
{
    crate::utils::AbsSub::abs_sub(a, b)
}

impl PlayerStatus {
    /// The events that the change from `previous` to this status, `dt` microseconds
    /// later, stands for: a media-open when the track changed to one worth announcing,
    /// a jump to the current position when it moved unexpectedly, and a pause or play
    /// when the play state changed; with no previous status, a jump and the play state.
    pub fn events_since(&self, dt: u64, previous: Option<&PlayerStatus>) -> (r: Vec<PlayerEvent>)
        requires
            match previous {
                Some(p) => !self.is_paused && p.position <= self.position ==> p.position + dt
                    <= u64::MAX,
                None => true,
            },
        ensures
            r@.map_values(|e: PlayerEvent| e@) == status_events(*self, previous_value(previous), dt),
    {
        let ghost prev = match previous {
            Some(p) => Some(*p),
            None => None,
        };
        let mut retvl: Vec<PlayerEvent> = Vec::new();
        let none: Option<String> = None;
        let (prev_id, prev_url, prev_status) = match previous {
            Some(p) => (&p.track_id, &p.url, &p.status),
            None => (&none, &none, &none),
        };
        if !same_text_exec(&self.track_id, prev_id) {
            if !same_text_exec(&self.url, prev_url) && !same_text_exec(&self.url, prev_status) && (
            !same_text_exec(&self.status, prev_url) || prev_url.is_none()) {
                let new_url = match &self.url {
                    Some(u) => u.clone(),
                    None => match &self.status {
                        Some(s) => s.clone(),
                        None => String::new(),
                    },
                };
                assert(new_url@ == announced_media(*self));
                retvl.push(PlayerEvent::MediaOpen(new_url));
            }
        }
        let needs_jump = match previous {
            None => true,
            Some(p) => {
                if p.position > self.position {
                    true
                } else if self.is_paused {
                    distance(self.position, p.position) > JUMP_ERROR_MARGIN_MICROS
                } else {
                    distance(self.position, p.position + dt) > JUMP_ERROR_MARGIN_MICROS
                }
            },
        };
        if needs_jump {
            retvl.push(PlayerEvent::Jump(self.position));
        }
        let changed = match previous {
            None => true,
            Some(p) => p.is_paused != self.is_paused,
        };
        if changed {
            if self.is_paused {
                retvl.push(PlayerEvent::Pause);
            } else {
                retvl.push(PlayerEvent::Play);
            }
        }
        assert(retvl@.map_values(|e: PlayerEvent| e@) =~= status_events(*self, prev, dt));
        retvl
    }
}

/// A player that kept its track and play state, and whose position is where it should
/// be (unchanged while paused, advanced by `dt` while playing), stands for no event.
pub proof fn lemma_steady_status_no_events(cur: PlayerStatus, prev: PlayerStatus, dt: u64)
    requires
        same_text(cur.track_id, prev.track_id),
        cur.is_paused == prev.is_paused,
        cur.is_paused ==> cur.position == prev.position,
        !cur.is_paused ==> cur.position == prev.position + dt,
    ensures
        status_events(cur, Some(prev), dt) == Seq::<PlayerEventView>::empty(),
{
    assert(status_events(cur, Some(prev), dt) =~= Seq::<PlayerEventView>::empty());
}

/// A jump is reported exactly when the position went back, or strayed by more than the
/// margin from where it should be.
pub proof fn lemma_jump_reported(cur: PlayerStatus, prev: PlayerStatus, dt: u64)
    ensures
        status_events(cur, Some(prev), dt).contains(PlayerEventView::Jump(cur.position)) <==> (prev.position
            > cur.position || (cur.is_paused && abs_diff(cur.position as int, prev.position as int)
            > JUMP_ERROR_MARGIN_MICROS) || (!cur.is_paused && abs_diff(
            cur.position as int,
            prev.position + dt,
        ) > JUMP_ERROR_MARGIN_MICROS)),
{
    let s = status_events(cur, Some(prev), dt);
    let a: Seq<PlayerEventView> = if opens_media(cur, Some(prev)) {
        seq![PlayerEventView::MediaOpen(announced_media(cur))]
    } else {
        Seq::empty()
    };
    let b: Seq<PlayerEventView> = if jumped_since(cur, Some(prev), dt) {
        seq![PlayerEventView::Jump(cur.position)]
    } else {
        Seq::empty()
    };
    let c: Seq<PlayerEventView> = if state_changed(cur, Some(prev)) {
        seq![if cur.is_paused { PlayerEventView::Pause } else { PlayerEventView::Play }]
    } else {
        Seq::empty()
    };
    assert(s == a + b + c);
    if jumped_since(cur, Some(prev), dt) {
        assert(s[a.len() as int] == PlayerEventView::Jump(cur.position));
    } else {
        assert forall|i: int| 0 <= i < s.len() implies s[i] != PlayerEventView::Jump(cur.position) by {
            if i < a.len() {
                assert(s[i] == a[i]);
            } else {
                assert(s[i] == c[i - a.len()]);
            }
        }
    }
}

} // verus!
