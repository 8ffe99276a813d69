//! Events raised by a local media player.
use vstd::prelude::*;

verus! {

/// Something a media player did or should do. Times are in microseconds.
#[derive(Clone, Eq, PartialEq, Debug, Hash)]
pub enum PlayerEvent {
    Pause,
    Play,
    /// Jump to this position, in microseconds.
    Jump(u64),
    MediaOpen(String),
    Shutdown,
}

/// A player event as plain values.
pub enum PlayerEventView {
    Pause,
    Play,
    Jump(u64),
    MediaOpen(Seq<char>),
    Shutdown,
}

impl View for PlayerEvent {
    type V = PlayerEventView;

    open spec fn view(&self) -> PlayerEventView {
        match self {
            PlayerEvent::Pause => PlayerEventView::Pause,
            PlayerEvent::Play => PlayerEventView::Play,
            PlayerEvent::Jump(t) => PlayerEventView::Jump(*t),
            PlayerEvent::MediaOpen(s) => PlayerEventView::MediaOpen(s@),
            PlayerEvent::Shutdown => PlayerEventView::Shutdown,
        }
    }
}

/// A playback position reported by a ping, in microseconds.
#[derive(Copy, Clone, Eq, PartialEq, Structural, Debug, Hash)]
pub struct TimePing {
    pub micros: u64,
}

impl TimePing {
    pub fn from_micros(micros: u64) -> (r: TimePing)
        ensures
            r.micros == micros,
    {
        TimePing { micros }
    }

    /// The ping for a position given as a span of time, in microseconds.
    pub fn from_duration(time: u64) -> (r: TimePing)
        ensures
            r.micros == time,
    {
        TimePing { micros: time }
    }

    pub fn as_micros(&self) -> (r: u64)
        ensures
            r == self.micros,
    {
        self.micros
    }

    /// The position, in microseconds.
    pub fn time(&self) -> (r: u64)
        ensures
            r == self.micros,
    {
        self.micros
    }
}

} // verus!
