//! The playback synchronisation message and the values it carries.
use vstd::prelude::*;
use crate::bytes::{le_bytes, le_value, read_le, write_le, power};
use crate::messages::{TimeDelta, TimeStamp, UserId};
use crate::utils::{abs_diff, AbsSub};

verus! {

/// Id of the sending peer: bytes 0..16, little endian.
pub open spec fn raw_source_id(raw: Seq<u8>) -> nat {
    le_value(raw.subrange(0, 16))
}

/// Creation time in milliseconds: bytes 16..24, little endian.
pub open spec fn raw_created(raw: Seq<u8>) -> nat {
    le_value(raw.subrange(16, 24))
}

/// Player position in milliseconds: bytes 27..32, little endian.
pub open spec fn raw_position(raw: Seq<u8>) -> nat {
    le_value(raw.subrange(27, 32))
}

/// Flag bit 1 of byte 25: the sender jumped.
pub open spec fn raw_jumped(raw: Seq<u8>) -> bool {
    raw[25] & 1 != 0
}

/// Flag bit 2 of byte 25: the sender changed its play state.
pub open spec fn raw_changed_state(raw: Seq<u8>) -> bool {
    raw[25] & 2 != 0
}

/// Flag bit 4 of byte 25: the sender is playing.
pub open spec fn raw_playing(raw: Seq<u8>) -> bool {
    raw[25] & 4 != 0
}

/// `new` equals `old` outside `start..end`.
pub open spec fn same_outside(new: Seq<u8>, old: Seq<u8>, start: int, end: int) -> bool {
    &&& new.len() == old.len()
    &&& forall|i: int| 0 <= i < old.len() && !(start <= i < end) ==> #[trigger] new[i] == old[i]
}

/// A synchronisation message: the sender's id, the time it was made, the player's
/// position and play state, and whether the sender jumped or changed state.
///
/// Layout (all numbers little endian): bytes 0..16 source id, 16..24 creation time,
/// byte 24 the protocol tag, bytes 25..27 event flags (bit 1 jumped, bit 2 state
/// changed, bit 4 playing), bytes 27..32 player position.
#[derive(Copy, Clone, Eq, PartialEq, Hash, Debug)]
pub struct SyncMessage {
    pub raw_data: [u8; 32],
}

/// Whether a player is playing or paused.
#[derive(Copy, Clone, Eq, PartialEq, Structural, Hash, Debug)]
pub enum PlayerState {
    Playing,
    Paused,
}

/// The all-zero frame tagged as a sync message (tag byte 24 is 1).
pub open spec fn zero_frame() -> Seq<u8> {
    Seq::new(32, |i: int| if i == 24 { 1u8 } else { 0u8 })
}

impl Default for SyncMessage {
    /// The all-zero frame tagged as a sync message.
    fn default() -> (r: SyncMessage)
        ensures
            r.raw() == zero_frame(),
    {
        SyncMessage::zero()
    }
}

impl SyncMessage {
    /// The bytes of the frame.
    pub open spec fn raw(&self) -> Seq<u8> {
        self.raw_data@
    }

    pub open spec fn spec_source_id(&self) -> nat {
        raw_source_id(self.raw())
    }

    pub open spec fn spec_created(&self) -> nat {
        raw_created(self.raw())
    }

    pub open spec fn spec_position(&self) -> nat {
        raw_position(self.raw())
    }

    pub open spec fn spec_jumped(&self) -> bool {
        raw_jumped(self.raw())
    }

    pub open spec fn spec_changed_state(&self) -> bool {
        raw_changed_state(self.raw())
    }

    pub open spec fn spec_state(&self) -> PlayerState {
        if raw_playing(self.raw()) {
            PlayerState::Playing
        } else {
            PlayerState::Paused
        }
    }

    /// An all-zero frame tagged as a sync message: the default message.
    pub fn zero() -> (r: SyncMessage)
        ensures
            forall|i: int| 0 <= i < 32 ==> #[trigger] r.raw()[i] == if i == 24 { 1u8 } else { 0u8 },
            r.raw() == zero_frame(),
    {
        let mut data = [0u8; 32];
        data[24] = crate::messages::MessageKind::Sync.tag_byte();
        let r = SyncMessage { raw_data: data };
        assert(r.raw() =~= zero_frame());
        r
    }

    pub fn from_raw(raw_data: [u8; 32]) -> (r: SyncMessage)
        ensures
            r.raw_data == raw_data,
    {
        SyncMessage { raw_data }
    }

    pub fn into_raw(self) -> (r: [u8; 32])
        ensures
            r == self.raw_data,
    {
        self.raw_data
    }

    pub fn source_id(&self) -> (r: UserId)
        ensures
            r.data == self.spec_source_id(),
    {
        let v = read_le(&self.raw_data, 0, 16);
        UserId { data: v }
    }

    pub fn set_source_id(&mut self, id: UserId)
        ensures
            forall|i: int| 0 <= i < 16 ==> #[trigger] final(self).raw()[i] == le_bytes(id.data as nat, 16)[i],
            same_outside(final(self).raw(), old(self).raw(), 0, 16),
            final(self).spec_source_id() == id.data,
            final(self).spec_created() == old(self).spec_created(),
            final(self).spec_position() == old(self).spec_position(),
            final(self).raw()[24] == old(self).raw()[24],
            final(self).raw()[25] == old(self).raw()[25],
    {
        write_le(&mut self.raw_data, 0, 16, id.data);
        proof {
            crate::bytes::lemma_le_bytes_len(id.data as nat, 16);
            assert(self.raw().subrange(0, 16) =~= le_bytes(id.data as nat, 16));
            crate::bytes::lemma_power_256_16();
            crate::bytes::lemma_le_roundtrip_fits(id.data as nat, 16);
            assert(self.raw().subrange(16, 24) =~= old(self).raw().subrange(16, 24));
            assert(self.raw().subrange(27, 32) =~= old(self).raw().subrange(27, 32));
        }
    }

    pub fn created(&self) -> (r: TimeStamp)
        ensures
            r.millis == self.spec_created(),
    {
        let v = read_le(&self.raw_data, 16, 8);
        proof {
            crate::bytes::lemma_le_value_bound(self.raw().subrange(16, 24));
            crate::bytes::lemma_power_256_8();
        }
        TimeStamp { millis: v as u64 }
    }

    pub fn set_created(&mut self, created: TimeStamp)
        ensures
            forall|i: int| 16 <= i < 24 ==> #[trigger] final(self).raw()[i] == le_bytes(created.millis as nat, 8)[i - 16],
            same_outside(final(self).raw(), old(self).raw(), 16, 24),
            final(self).spec_created() == created.millis,
            final(self).spec_source_id() == old(self).spec_source_id(),
            final(self).spec_position() == old(self).spec_position(),
            final(self).raw()[24] == old(self).raw()[24],
            final(self).raw()[25] == old(self).raw()[25],
    {
        write_le(&mut self.raw_data, 16, 8, created.millis as u128);
        proof {
            crate::bytes::lemma_le_bytes_len(created.millis as nat, 8);
            assert(self.raw().subrange(16, 24) =~= le_bytes(created.millis as nat, 8));
            crate::bytes::lemma_power_256_8();
            crate::bytes::lemma_le_roundtrip_fits(created.millis as nat, 8);
            assert(self.raw().subrange(0, 16) =~= old(self).raw().subrange(0, 16));
            assert(self.raw().subrange(27, 32) =~= old(self).raw().subrange(27, 32));
        }
    }

    pub fn position(&self) -> (r: PlayerPosition)
        ensures
            r.millis == self.spec_position(),
            r.millis < 0x100_0000_0000,
    {
        let v = read_le(&self.raw_data, 27, 5);
        proof {
            crate::bytes::lemma_le_value_bound(self.raw().subrange(27, 32));
            crate::bytes::lemma_power_256_8();
        }
        PlayerPosition { millis: v as u64 }
    }

    /// Stores the position; only its lowest five bytes fit in the frame.
    pub fn set_position(&mut self, pos: PlayerPosition)
        ensures
            forall|i: int| 27 <= i < 32 ==> #[trigger] final(self).raw()[i] == le_bytes(pos.millis as nat, 5)[i - 27],
            same_outside(final(self).raw(), old(self).raw(), 27, 32),
            final(self).spec_position() == pos.millis % 0x100_0000_0000,
            final(self).spec_source_id() == old(self).spec_source_id(),
            final(self).spec_created() == old(self).spec_created(),
            final(self).raw()[24] == old(self).raw()[24],
            final(self).raw()[25] == old(self).raw()[25],
    {
        write_le(&mut self.raw_data, 27, 5, pos.millis as u128);
        proof {
            crate::bytes::lemma_le_bytes_len(pos.millis as nat, 5);
            assert(self.raw().subrange(27, 32) =~= le_bytes(pos.millis as nat, 5));
            crate::bytes::lemma_power_256_8();
            crate::bytes::lemma_le_roundtrip(pos.millis as nat, 5);
            assert(self.raw().subrange(0, 16) =~= old(self).raw().subrange(0, 16));
            assert(self.raw().subrange(16, 24) =~= old(self).raw().subrange(16, 24));
        }
    }

    /// The two event-flag bytes, little endian.
    fn event_flags(&self) -> (r: u16)
        ensures
            r == self.raw()[25] + 256 * self.raw()[26],
            r & 1 == (self.raw()[25] & 1) as u16,
            r & 2 == (self.raw()[25] & 2) as u16,
            r & 4 == (self.raw()[25] & 4) as u16,
    {
        let b0 = self.raw_data[25];
        let b1 = self.raw_data[26];
        let r = ((b1 as u16) << 8u16) | (b0 as u16);
        assert(((b1 as u16) << 8u16) | (b0 as u16) == b0 as u16 + 256 * (b1 as u16)) by (bit_vector);
        assert((((b1 as u16) << 8u16) | (b0 as u16)) & 1 == (b0 & 1) as u16) by (bit_vector);
        assert((((b1 as u16) << 8u16) | (b0 as u16)) & 2 == (b0 & 2) as u16) by (bit_vector);
        assert((((b1 as u16) << 8u16) | (b0 as u16)) & 4 == (b0 & 4) as u16) by (bit_vector);
        r
    }

    pub fn jumped(&self) -> (r: bool)
        ensures
            r == self.spec_jumped(),
    {
        self.event_flags() & 1 != 0
    }

    pub fn set_jumped(&mut self, jumped: bool)
        ensures
            final(self).raw()[25] == (old(self).raw()[25] & !1u8) | (if jumped { 1u8 } else { 0u8 }),
            same_outside(final(self).raw(), old(self).raw(), 25, 26),
            final(self).spec_jumped() == jumped,
            final(self).spec_changed_state() == old(self).spec_changed_state(),
            final(self).spec_state() == old(self).spec_state(),
            final(self).spec_source_id() == old(self).spec_source_id(),
            final(self).spec_created() == old(self).spec_created(),
            final(self).spec_position() == old(self).spec_position(),
    {
        let jumped_bit: u8 = if jumped { 1 } else { 0 };
        let b = self.raw_data[25];
        let nb = (b & !1u8) | jumped_bit;
        assert(jumped_bit == 1 ==> ((b & !1u8) | jumped_bit) & 1 != 0) by (bit_vector);
        assert(jumped_bit == 0 ==> ((b & !1u8) | jumped_bit) & 1 == 0) by (bit_vector);
        assert(jumped_bit <= 1 ==> ((b & !1u8) | jumped_bit) & 2 == b & 2) by (bit_vector);
        assert(jumped_bit <= 1 ==> ((b & !1u8) | jumped_bit) & 4 == b & 4) by (bit_vector);
        self.raw_data[25] = nb;
        proof {
            assert(self.raw().subrange(0, 16) =~= old(self).raw().subrange(0, 16));
            assert(self.raw().subrange(16, 24) =~= old(self).raw().subrange(16, 24));
            assert(self.raw().subrange(27, 32) =~= old(self).raw().subrange(27, 32));
        }
    }

    pub fn state(&self) -> (r: PlayerState)
        ensures
            r == self.spec_state(),
    {
        if self.event_flags() & 4 != 0 {
            PlayerState::Playing
        } else {
            PlayerState::Paused
        }
    }

    pub fn set_state(&mut self, state: PlayerState)
        ensures
            final(self).raw()[25] == (old(self).raw()[25] & !4u8) | (if state == PlayerState::Playing { 4u8 } else { 0u8 }),
            same_outside(final(self).raw(), old(self).raw(), 25, 26),
            final(self).spec_state() == state,
            final(self).spec_jumped() == old(self).spec_jumped(),
            final(self).spec_changed_state() == old(self).spec_changed_state(),
            final(self).spec_source_id() == old(self).spec_source_id(),
            final(self).spec_created() == old(self).spec_created(),
            final(self).spec_position() == old(self).spec_position(),
    {
        let state_bit: u8 = match state {
            PlayerState::Playing => 4,
            PlayerState::Paused => 0,
        };
        let b = self.raw_data[25];
        let nb = (b & !4u8) | state_bit;
        assert(state_bit == 4 ==> ((b & !4u8) | state_bit) & 4 != 0) by (bit_vector);
        assert(state_bit == 0 ==> ((b & !4u8) | state_bit) & 4 == 0) by (bit_vector);
        assert((state_bit == 0 || state_bit == 4) ==> ((b & !4u8) | state_bit) & 1 == b & 1) by (bit_vector);
        assert((state_bit == 0 || state_bit == 4) ==> ((b & !4u8) | state_bit) & 2 == b & 2) by (bit_vector);
        self.raw_data[25] = nb;
        proof {
            assert(self.raw().subrange(0, 16) =~= old(self).raw().subrange(0, 16));
            assert(self.raw().subrange(16, 24) =~= old(self).raw().subrange(16, 24));
            assert(self.raw().subrange(27, 32) =~= old(self).raw().subrange(27, 32));
        }
    }

    pub fn changed_state(&self) -> (r: bool)
        ensures
            r == self.spec_changed_state(),
    {
        self.event_flags() & 2 != 0
    }

    pub fn set_changed_state(&mut self, changed_state: bool)
        ensures
            final(self).raw()[25] == (old(self).raw()[25] & !2u8) | (if changed_state { 2u8 } else { 0u8 }),
            same_outside(final(self).raw(), old(self).raw(), 25, 26),
            final(self).spec_changed_state() == changed_state,
            final(self).spec_jumped() == old(self).spec_jumped(),
            final(self).spec_state() == old(self).spec_state(),
            final(self).spec_source_id() == old(self).spec_source_id(),
            final(self).spec_created() == old(self).spec_created(),
            final(self).spec_position() == old(self).spec_position(),
    {
        let changed_bit: u8 = if changed_state { 2 } else { 0 };
        let b = self.raw_data[25];
        let nb = (b & !2u8) | changed_bit;
        assert(changed_bit == 2 ==> ((b & !2u8) | changed_bit) & 2 != 0) by (bit_vector);
        assert(changed_bit == 0 ==> ((b & !2u8) | changed_bit) & 2 == 0) by (bit_vector);
        assert((changed_bit == 0 || changed_bit == 2) ==> ((b & !2u8) | changed_bit) & 1 == b & 1) by (bit_vector);
        assert((changed_bit == 0 || changed_bit == 2) ==> ((b & !2u8) | changed_bit) & 4 == b & 4) by (bit_vector);
        self.raw_data[25] = nb;
        proof {
            assert(self.raw().subrange(0, 16) =~= old(self).raw().subrange(0, 16));
            assert(self.raw().subrange(16, 24) =~= old(self).raw().subrange(16, 24));
            assert(self.raw().subrange(27, 32) =~= old(self).raw().subrange(27, 32));
        }
    }

    /// The message as it would read at `new_time`: the creation time becomes `new_time`
    /// and, while playing, the position advances by the time elapsed since creation
    /// (none if `new_time` is earlier), saturating at `u64::MAX` before it is stored.
    pub fn projected_to_time(&self, new_time: TimeStamp) -> (r: SyncMessage)
        ensures
            r.spec_created() == new_time.millis,
            r.spec_position() == projected_position(*self, new_time.millis as nat),
            r.spec_source_id() == self.spec_source_id(),
            r.spec_state() == self.spec_state(),
            r.spec_jumped() == self.spec_jumped(),
            r.spec_changed_state() == self.spec_changed_state(),
            r.raw()[24] == self.raw()[24],
            forall|i: int| 25 <= i < 27 ==> #[trigger] r.raw()[i] == self.raw()[i],
    {
        let mut copied = *self;
        copied.set_created(new_time);
        if self.state() == PlayerState::Playing {
            let old_pos = self.position();
            let time_diff = new_time.millis.saturating_sub(self.created().millis);
            let new_pos = PlayerPosition { millis: old_pos.millis.saturating_add(time_diff) };
            copied.set_position(new_pos);
        }
        copied
    }
}

/// Where a message's position stands at time `t`: unchanged while paused; while playing,
/// advanced by the time elapsed since the message was created (saturating at
/// `u64::MAX`) and kept to the five bytes the frame holds.
pub open spec fn projected_position(m: SyncMessage, t: nat) -> nat {
    if m.spec_state() == PlayerState::Playing {
        let diff: nat = if t >= m.spec_created() { (t - m.spec_created()) as nat } else { 0 };
        let sum: nat = m.spec_position() + diff;
        let sat: nat = if sum > u64::MAX { u64::MAX as nat } else { sum };
        sat % 0x100_0000_0000
    } else {
        m.spec_position()
    }
}

/// A playback position in milliseconds.
#[derive(Copy, Clone, Eq, PartialEq, Structural, Hash, Debug, Ord, PartialOrd)]
pub struct PlayerPosition {
    pub millis: u64,
}

impl PlayerPosition {
    pub fn from_millis(millis: u64) -> (r: PlayerPosition)
        ensures
            r.millis == millis,
    {
        PlayerPosition { millis }
    }

    pub fn as_millis(self) -> (r: u64)
        ensures
            r == self.millis,
    {
        self.millis
    }

    /// Reads a position from the first (at most) five bytes of `bytes`, little endian.
    pub fn from_bytes(bytes: &[u8]) -> (r: PlayerPosition)
        ensures
            r.millis == le_value(bytes@.take(if bytes@.len() < 5 { bytes@.len() as int } else { 5 })),
    {
        let n = bytes.len();
        let len = if n < 5 { n } else { 5 };
        let v = read_le(bytes, 0, len);
        proof {
            crate::bytes::lemma_le_value_bound(bytes@.subrange(0, len as int));
            crate::bytes::lemma_power_mono(256, len as nat, 8);
            crate::bytes::lemma_power_256_8();
            assert(bytes@.subrange(0, len as int) =~= bytes@.take(len as int));
        }
        PlayerPosition::from_millis(v as u64)
    }

    /// `self` moved forward by `other`.
    pub fn add(self, other: TimeDelta) -> (r: PlayerPosition)
        requires
            self.millis + other.millis <= u64::MAX,
        ensures
            r.millis == self.millis + other.millis,
    {
        PlayerPosition::from_millis(self.millis + other.as_millis())
    }
}

impl AbsSub for PlayerPosition {
    type Output = TimeDelta;

    fn abs_sub(self, other: PlayerPosition) -> (r: TimeDelta)
        ensures
            r.millis == abs_diff(self.millis as int, other.millis as int),
    {
        let millis = self.millis.abs_sub(other.millis);
        TimeDelta { millis }
    }
}

} // verus!
