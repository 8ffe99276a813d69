//! Fixed-size message blocks: timed commands and the packets of a track change.
//!
//! Byte 0 of a block names its kind. A timed command (kind 0) has its command in
//! byte 1 and a little-endian time in nanoseconds in bytes 2..10. A track change
//! header (kind 1) has the path length in bytes 1..5, a track change packet (kind 2)
//! its index there; both carry thirteen little-endian UTF-16 code units in bytes 6..32.
use vstd::prelude::*;
use crate::bytes::{le_value, le_bytes, read_le, write_le, power};
use crate::events::zeros;

verus! {

broadcast use vstd::array::group_array_axioms;

/// The command of a timed command block.
#[derive(Debug, Copy, Clone, Eq, PartialEq, Structural, Hash)]
pub enum TimedCommandKind {
    Ping,
    Jump,
    Pause,
    Play,
}

/// The byte that encodes a command.
pub open spec fn timed_kind_code(kind: TimedCommandKind) -> u8 {
    match kind {
        TimedCommandKind::Ping => 0,
        TimedCommandKind::Jump => 1,
        TimedCommandKind::Pause => 2,
        TimedCommandKind::Play => 3,
    }
}

/// The command a byte names, if any.
pub open spec fn timed_kind_of(byte: u8) -> Option<TimedCommandKind> {
    if byte == 0 {
        Some(TimedCommandKind::Ping)
    } else if byte == 1 {
        Some(TimedCommandKind::Jump)
    } else if byte == 2 {
        Some(TimedCommandKind::Pause)
    } else if byte == 3 {
        Some(TimedCommandKind::Play)
    } else {
        None
    }
}

impl TimedCommandKind {
    pub fn from_kind_byte(byte: u8) -> (r: Option<TimedCommandKind>)
        ensures
            r == timed_kind_of(byte),
    {
        match byte {
            0 => Some(TimedCommandKind::Ping),
            1 => Some(TimedCommandKind::Jump),
            2 => Some(TimedCommandKind::Pause),
            3 => Some(TimedCommandKind::Play),
            _ => None,
        }
    }

    pub fn to_kind_byte(self) -> (r: u8)
        ensures
            r == timed_kind_code(self),
    {
        match self {
            TimedCommandKind::Ping => 0,
            TimedCommandKind::Jump => 1,
            TimedCommandKind::Pause => 2,
            TimedCommandKind::Play => 3,
        }
    }
}

/// Encoding a command and reading the byte back give the same command, and the bytes
/// that name a command are exactly the codes of the commands.
pub proof fn lemma_timed_kind_roundtrip(kind: TimedCommandKind, byte: u8)
    ensures
        timed_kind_of(timed_kind_code(kind)) == Some(kind),
        timed_kind_of(byte) == Some(kind) ==> timed_kind_code(kind) == byte,
        timed_kind_of(byte) is Some <==> byte < 4,
{
}

/// A 32-byte message block as sent over the wire.
#[derive(Clone, Copy, Debug, Eq, PartialEq, Hash, Default)]
pub struct RawBlock {
    pub data: [u8; 32],
}

/// What a message block says.
#[derive(Debug, Copy, Clone, Eq, PartialEq, Hash)]
pub enum MessageBlock {
    TimedCommand { kind: TimedCommandKind, nanoseconds: u64 },
    /// The first block of a track change; the path length is in UTF-16 code units.
    TrackChangeHeader { path_length: u32, payload: [u16; 13] },
    /// A later block of a track change; its index is never 0.
    TrackChangePacket { packet_idx: u32, payload: [u16; 13] },
}

/// Why a block could not be read.
#[derive(Debug, Copy, Clone, Eq, PartialEq, Structural, Hash)]
pub enum MessageBlockError {
    /// A timed command block whose command byte names no command.
    InvalidTimedCommandKind(u8),
    /// A block whose kind byte names no kind.
    InvalidMessageKind(u8),
}

/// The thirteen UTF-16 code units stored little endian in bytes 6..32.
pub open spec fn payload_units(data: Seq<u8>) -> Seq<u16> {
    Seq::new(13, |i: int| (data[6 + 2 * i] + 256 * data[7 + 2 * i]) as u16)
}

/// `r` is what reading the block `data` gives.
pub open spec fn parses_to(data: Seq<u8>, r: Result<MessageBlock, MessageBlockError>) -> bool {
    let kind = data[0];
    if kind == 0 {
        match timed_kind_of(data[1]) {
            Some(k) => r == Ok::<MessageBlock, MessageBlockError>(
                MessageBlock::TimedCommand {
                    kind: k,
                    nanoseconds: le_value(data.subrange(2, 10)) as u64,
                },
            ),
            None => r == Err::<MessageBlock, MessageBlockError>(
                MessageBlockError::InvalidTimedCommandKind(data[1]),
            ),
        }
    } else if kind == 1 {
        &&& r matches Ok(MessageBlock::TrackChangeHeader { path_length, payload })
        &&& path_length == le_value(data.subrange(1, 5))
        &&& payload@ == payload_units(data)
    } else if kind == 2 {
        &&& r matches Ok(MessageBlock::TrackChangePacket { packet_idx, payload })
        &&& packet_idx == le_value(data.subrange(1, 5))
        &&& payload@ == payload_units(data)
    } else {
        r == Err::<MessageBlock, MessageBlockError>(MessageBlockError::InvalidMessageKind(kind))
    }
}

/// The bytes of a timed command block.
pub open spec fn timed_command_bytes(kind: TimedCommandKind, nanoseconds: u64) -> Seq<u8> {
    seq![0u8, timed_kind_code(kind)] + le_bytes(nanoseconds as nat, 8) + zeros(22)
}

/// The bytes a message block is sent as. Only timed commands have an encoding; the
/// blocks of a track change are sent as a block of zeros.
pub open spec fn message_bytes(m: MessageBlock) -> Seq<u8> {
    match m {
        MessageBlock::TimedCommand { kind, nanoseconds } => timed_command_bytes(kind, nanoseconds),
        _ => zeros(32),
    }
}

/// The thirteen code units of a track change block.
fn read_payload(data: &[u8; 32]) -> (r: [u16; 13])
    ensures
        r@ == payload_units(data@),
{
    let mut payload = [0u16; 13];
    let mut idx: usize = 0;
    while idx < 13
        invariant
            idx <= 13,
            forall|k: int| 0 <= k < idx ==> #[trigger] payload@[k] == payload_units(data@)[k],
        decreases 13 - idx,
    {
        let lo = data[2 * idx + 6] as u16;
        let hi = data[2 * idx + 7] as u16;
        payload[idx] = lo + 256 * hi;
        idx = idx + 1;
    }
    assert(payload@ =~= payload_units(data@));
    payload
}

/// The number stored little endian in bytes 1..5.
fn read_u32_at_1(data: &[u8; 32]) -> (r: u32)
    ensures
        r == le_value(data@.subrange(1, 5)),
{
    let v = read_le(data, 1, 4);
    proof {
        crate::bytes::lemma_le_value_bound(data@.subrange(1, 5));
        reveal_with_fuel(power, 5);
    }
    v as u32
}

impl RawBlock {
    pub fn from_data(data: [u8; 32]) -> (r: Self)
        ensures
            r.data == data,
    {
        RawBlock { data }
    }

    /// Reads what the block says.
    pub fn parse(self) -> (r: Result<MessageBlock, MessageBlockError>)
        ensures
            parses_to(self.data@, r),
    {
        let kind = self.data[0];
        if kind == 0 {
            let command_byte = self.data[1];
            let command = match TimedCommandKind::from_kind_byte(command_byte) {
                Some(c) => c,
                None => {
                    return Err(MessageBlockError::InvalidTimedCommandKind(command_byte));
                },
            };
            let v = read_le(&self.data, 2, 8);
            proof {
                crate::bytes::lemma_le_value_bound(self.data@.subrange(2, 10));
                crate::bytes::lemma_power_256_8();
            }
            Ok(MessageBlock::TimedCommand { kind: command, nanoseconds: v as u64 })
        } else if kind == 1 {
            let path_length = read_u32_at_1(&self.data);
            let payload = read_payload(&self.data);
            Ok(MessageBlock::TrackChangeHeader { path_length, payload })
        } else if kind == 2 {
            let packet_idx = read_u32_at_1(&self.data);
            let payload = read_payload(&self.data);
            Ok(MessageBlock::TrackChangePacket { packet_idx, payload })
        } else {
            Err(MessageBlockError::InvalidMessageKind(kind))
        }
    }
}

impl MessageBlock {
    /// The block this message is sent as.
    pub fn into_raw(self) -> (r: RawBlock)
        ensures
            r.data@ == message_bytes(self),
    {
        match self {
            MessageBlock::TimedCommand { kind, nanoseconds } => {
                let mut data = [0u8; 32];
                data[1] = kind.to_kind_byte();
                write_le(&mut data, 2, 8, nanoseconds as u128);
                proof {
                    crate::bytes::lemma_le_bytes_len(nanoseconds as nat, 8);
                    assert(data@ =~= timed_command_bytes(kind, nanoseconds));
                }
                RawBlock { data }
            },
            _ => {
                let r = RawBlock { data: [0u8; 32] };
                assert(r.data@ =~= zeros(32));
                r
            },
        }
    }
}

/// A timed command reads back as itself after it is encoded.
pub proof fn lemma_timed_command_roundtrip(kind: TimedCommandKind, nanoseconds: u64)
    ensures
        parses_to(
            timed_command_bytes(kind, nanoseconds),
            Ok(MessageBlock::TimedCommand { kind, nanoseconds }),
        ),
{
    let b = timed_command_bytes(kind, nanoseconds);
    crate::bytes::lemma_le_bytes_len(nanoseconds as nat, 8);
    crate::bytes::lemma_power_256_8();
    crate::bytes::lemma_le_roundtrip_fits(nanoseconds as nat, 8);
    assert(b.subrange(2, 10) =~= le_bytes(nanoseconds as nat, 8));
    lemma_timed_kind_roundtrip(kind, 0);
}

} // verus!
