//! VLC driven through its remote-control text interface.
use vstd::prelude::*;
use vstd::string::StringSliceAdditionalSpecFns;
use crate::protocols::sync::{PlayerPosition, PlayerState};
use crate::strings::{contains_bytes, has_infix, parse_decimal, parse_u64, trim, trimmed};
use vstd::string::StrSliceExecFns;

verus! {

/// The list that offers a VLC subprocess driven through its remote-control interface.
pub struct VlcRcList {}

impl VlcRcList {
    pub fn new() -> (r: Self) {
        VlcRcList {  }
    }
}

/// The UTF-8 bytes of `playing`.
pub open spec fn word_playing() -> Seq<u8> {
    seq![112u8, 108, 97, 121, 105, 110, 103]
}

/// The UTF-8 bytes of `paused`.
pub open spec fn word_paused() -> Seq<u8> {
    seq![112u8, 97, 117, 115, 101, 100]
}

/// The UTF-8 bytes of `stopped`.
pub open spec fn word_stopped() -> Seq<u8> {
    seq![115u8, 116, 111, 112, 112, 101, 100]
}

/// The play state a `status` answer reports: playing where it says `playing`, paused
/// where it says `paused` or `stopped`, and none where it says neither.
pub open spec fn rc_status_state(answer: Seq<u8>) -> Option<PlayerState> {
    if has_infix(answer, word_playing()) {
        Some(PlayerState::Playing)
    } else if has_infix(answer, word_paused()) || has_infix(answer, word_stopped()) {
        Some(PlayerState::Paused)
    } else {
        None
    }
}

/// The play state reported by the answer to a `status` command.
pub fn parse_status(answer: &str) -> (r: Option<PlayerState>)
    ensures
        r == rc_status_state(answer.spec_bytes()),
{
    let bytes = answer.as_bytes();
    let playing: [u8; 7] = [112, 108, 97, 121, 105, 110, 103];
    let paused: [u8; 6] = [112, 97, 117, 115, 101, 100];
    let stopped: [u8; 7] = [115, 116, 111, 112, 112, 101, 100];
    assert(playing@ =~= word_playing());
    assert(paused@ =~= word_paused());
    assert(stopped@ =~= word_stopped());
    if contains_bytes(bytes, &playing) {
        Some(PlayerState::Playing)
    } else if contains_bytes(bytes, &paused) || contains_bytes(bytes, &stopped) {
        Some(PlayerState::Paused)
    } else {
        None
    }
}

/// The whole second a position is sought to: rounded to the nearest second, a half
/// second rounding down.
pub fn seek_seconds(pos: PlayerPosition) -> (r: u64)
    ensures
        r == pos.millis / 1000 + if pos.millis % 1000 > 500 {
            1int
        } else {
            0int
        },
{
    pos.as_millis() / 1000 + if pos.as_millis() % 1000 > 500 {
        1
    } else {
        0
    }
}

/// Whether the player, at `current` whole seconds, has to seek to `target`: only when
/// they are more than a second apart.
pub fn needs_seek(current: u64, target: u64) -> (r: bool)
    ensures
        r == (crate::utils::abs_diff(current as int, target as int) > 1),
{
    use_abs_sub(current, target) > 1
}

/// The absolute difference of two seconds counts.
fn use_abs_sub(a: u64, b: u64) -> (r: u64)
    ensures
        r == crate::utils::abs_diff(a as int, b as int),
{
    crate::utils::AbsSub::abs_sub(a, b)
}

/// The position to report when the player answers `returned`: while it is playing and
/// still reports the position it reported last (at `previous_query`), the time since
/// then is added; otherwise the answer stands and becomes the new reference. Returns
/// the position and whether the reference moves.
pub fn extrapolate_position(
    returned: PlayerPosition,
    previous: PlayerPosition,
    playing: bool,
    now_millis: u64,
    previous_query_millis: u64,
) -> (r: (PlayerPosition, bool))
    requires
        returned.millis + crate::utils::abs_diff(now_millis as int, previous_query_millis as int)
            <= u64::MAX,
    ensures
        r == if returned == previous && playing {
            (
                PlayerPosition {
                    millis: (returned.millis + crate::utils::abs_diff(
                        now_millis as int,
                        previous_query_millis as int,
                    )) as u64,
                },
                false,
            )
        } else {
            (returned, true)
        },
{
    if returned == previous && playing {
        let dt = use_abs_sub(now_millis, previous_query_millis);
        (PlayerPosition::from_millis(returned.millis + dt), false)
    } else {
        (returned, true)
    }
}

/// The position, in milliseconds, that an answer to `get_time` reports: none for an empty
/// answer (white space aside); otherwise its whole seconds, which must be a number whose
/// value in milliseconds fits in 64 bits.
pub open spec fn rc_time_millis(answer: Seq<char>) -> Option<u64> {
    let t = trimmed(answer);
    if t.len() == 0 {
        Some(0)
    } else {
        match parse_u64(t) {
            Some(secs) => if secs * 1000 <= u64::MAX {
                Some((secs * 1000) as u64)
            } else {
                None
            },
            None => None,
        }
    }
}

/// The position reported by the answer to a `get_time` command, or none where the
/// answer is no number of seconds that fits.
pub fn parse_time(answer: &str) -> (r: Option<PlayerPosition>)
    ensures
        match r {
            Some(p) => rc_time_millis(answer@) == Some(p.millis),
            None => rc_time_millis(answer@) is None,
        },
{
    let t = trim(answer);
    if t.unicode_len() == 0 {
        return Some(PlayerPosition::from_millis(0));
    }
    match parse_decimal(t) {
        Some(secs) => match secs.checked_mul(1000) {
            Some(millis) => Some(PlayerPosition::from_millis(millis)),
            None => None,
        },
        None => None,
    }
}

} // verus!
