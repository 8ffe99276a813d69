//! Timestamps, user ids and the 32-byte message frame exchanged between peers.
use vstd::prelude::*;
use crate::bytes::{le_value, read_le, lemma_le_value_bound, power};
use crate::protocols::sync::SyncMessage;
use crate::utils::{abs_diff, AbsSub};

verus! {

/// Milliseconds since the Unix epoch.
#[derive(Copy, Clone, Eq, PartialEq, Structural, Hash, Debug, Ord, PartialOrd)]
pub struct TimeStamp {
    pub millis: u64,
}

/// The system clock's time.
#[verifier::external_type_specification]
#[verifier::external_body]
pub struct ExSystemTime(std::time::SystemTime);

/// Calls `std::time::SystemTime::now`: whatever the system clock reads. Nothing is
/// promised of it.
#[verifier::external_body]
fn read_clock() -> (r: std::time::SystemTime) {
    std::time::SystemTime::now()
}

/// Calls `SystemTime::duration_since` with `UNIX_EPOCH`: how long after the epoch the
/// time is, or none when it is earlier. Nothing is promised of the value.
#[verifier::external_body]
fn since_epoch(t: &std::time::SystemTime) -> (r: Option<std::time::Duration>) {
    match t.duration_since(std::time::SystemTime::UNIX_EPOCH) {
        Ok(d) => Some(d),
        Err(_) => None,
    }
}

/// Calls `Duration::as_millis`: the whole milliseconds of a duration. Nothing is promised
/// of the value.
#[verifier::external_body]
fn duration_millis(d: &std::time::Duration) -> (r: u128) {
    d.as_millis()
}

impl TimeStamp {
    /// The current wall-clock time, in milliseconds since the epoch kept to 64 bits. A
    /// clock that reads earlier than the epoch is read again (up to `u64::MAX` times,
    /// after which the epoch itself is taken).
    pub fn now() -> (r: TimeStamp) {
        let mut tries: u64 = u64::MAX;
        loop
            decreases tries,
        {
            let t = read_clock();
            match since_epoch(&t) {
                Some(d) => {
                    return Self::from_clock_millis(duration_millis(&d));
                },
                None => {},
            }
            if tries == 0 {
                return TimeStamp { millis: 0 };
            }
            tries = tries - 1;
        }
    }

    /// The time stamp of a clock reading in milliseconds since the epoch, kept to its
    /// lowest 64 bits.
    pub fn from_clock_millis(ms: u128) -> (r: TimeStamp)
        ensures
            r.millis == ms % 0x1_0000_0000_0000_0000,
    {
        TimeStamp { millis: (ms % 0x1_0000_0000_0000_0000) as u64 }
    }

    /// A time stamp at `millis` milliseconds after the epoch.
    pub fn from_millis(millis: u64) -> (r: TimeStamp)
        ensures
            r.millis == millis,
    {
        TimeStamp { millis }
    }

    /// Reads a time stamp from the first (at most) eight bytes of `bytes`, little endian;
    /// missing high bytes count as zero.
    pub fn from_bytes(bytes: &[u8]) -> (r: TimeStamp)
        ensures
            r.millis == le_value(bytes@.take(if bytes@.len() < 8 { bytes@.len() as int } else { 8 })),
    {
        let n = bytes.len();
        let len = if n < 8 { n } else { 8 };
        let v = read_le(bytes, 0, len);
        proof {
            lemma_le_value_bound(bytes@.subrange(0, len as int));
            crate::bytes::lemma_power_mono(256, len as nat, 8);
            crate::bytes::lemma_power_256_8();
            assert(bytes@.subrange(0, len as int) =~= bytes@.take(len as int));
        }
        TimeStamp { millis: v as u64 }
    }

    pub fn as_millis(self) -> (r: u64)
        ensures
            r == self.millis,
    {
        self.millis
    }

    /// `self` moved forward by `dt`.
    pub fn add(self, dt: TimeDelta) -> (r: TimeStamp)
        requires
            self.millis + dt.millis <= u64::MAX,
        ensures
            r.millis == self.millis + dt.millis,
    {
        TimeStamp { millis: self.millis + dt.millis }
    }
}

impl AbsSub for TimeStamp {
    type Output = TimeDelta;

    fn abs_sub(self, other: TimeStamp) -> (r: TimeDelta)
        ensures
            r.millis == abs_diff(self.millis as int, other.millis as int),
    {
        TimeDelta::from_millis(self.millis.abs_sub(other.millis))
    }
}

/// A span of time in milliseconds.
#[derive(Copy, Clone, Eq, PartialEq, Structural, Hash, Debug, Ord, PartialOrd)]
pub struct TimeDelta {
    pub millis: u64,
}

impl TimeDelta {
    pub fn from_millis(millis: u64) -> (r: TimeDelta)
        ensures
            r.millis == millis,
    {
        TimeDelta { millis }
    }

    pub fn as_millis(self) -> (r: u64)
        ensures
            r == self.millis,
    {
        self.millis
    }
}

impl AbsSub for TimeDelta {
    type Output = TimeDelta;

    fn abs_sub(self, other: TimeDelta) -> (r: TimeDelta)
        ensures
            r.millis == abs_diff(self.millis as int, other.millis as int),
    {
        TimeDelta::from_millis(self.millis.abs_sub(other.millis))
    }
}

/// A 128-bit identifier of a peer.
#[derive(Copy, Clone, Eq, PartialEq, Structural, Hash, Debug)]
pub struct UserId {
    pub data: u128,
}

impl UserId {
    /// Reads an id from the first (at most) sixteen bytes of `bytes`, little endian;
    /// missing high bytes count as zero.
    pub fn from_bytes(bytes: &[u8]) -> (r: UserId)
        ensures
            r.data == le_value(bytes@.take(if bytes@.len() < 16 { bytes@.len() as int } else { 16 })),
    {
        let n = bytes.len();
        let len = if n < 16 { n } else { 16 };
        let v = read_le(bytes, 0, len);
        proof {
            assert(bytes@.subrange(0, len as int) =~= bytes@.take(len as int));
        }
        UserId { data: v }
    }

    /// The id with the given numeric value.
    pub fn from_u128(data: u128) -> (r: UserId)
        ensures
            r.data == data,
    {
        UserId { data }
    }

    pub fn as_u128(self) -> (r: u128)
        ensures
            r == self.data,
    {
        self.data
    }
}

/// The protocol a message frame belongs to.
#[derive(Copy, Clone, Eq, PartialEq, Structural, Hash, Debug)]
pub enum MessageKind {
    Sync,
    Media,
}

/// The tag byte of each protocol.
pub open spec fn kind_tag(kind: MessageKind) -> u8 {
    match kind {
        MessageKind::Sync => 1,
        MessageKind::Media => 2,
    }
}

/// The protocol with the given tag byte, if any.
pub open spec fn tag_kind(tag: u8) -> Option<MessageKind> {
    if tag == 1 {
        Some(MessageKind::Sync)
    } else if tag == 2 {
        Some(MessageKind::Media)
    } else {
        None
    }
}

impl MessageKind {
    pub fn tag_byte(self) -> (r: u8)
        ensures
            r == kind_tag(self),
    {
        match self {
            MessageKind::Sync => 1,
            MessageKind::Media => 2,
        }
    }

    pub fn from_tag(tag: u8) -> (r: Option<MessageKind>)
        ensures
            r == tag_kind(tag),
    {
        match tag {
            1 => Some(MessageKind::Sync),
            2 => Some(MessageKind::Media),
            _ => None,
        }
    }
}

/// A protocol's tag byte names that protocol, and only the two tags name one.
pub proof fn lemma_message_kind_roundtrip(kind: MessageKind, tag: u8)
    ensures
        tag_kind(kind_tag(kind)) == Some(kind),
        tag_kind(tag) == Some(kind) ==> kind_tag(kind) == tag,
{
}

/// The protocol named by byte 24 of a frame, or that byte when it names none.
fn get_proto(buffer: &[u8; 32]) -> (r: Result<MessageKind, u8>)
    ensures
        r == match tag_kind(buffer@[24]) {
            Some(k) => Ok(k),
            None => Err(buffer@[24]),
        },
{
    let bt = buffer[24];
    match MessageKind::from_tag(bt) {
        Some(k) => Ok(k),
        None => Err(bt),
    }
}

/// Why a frame could not be read as a message.
#[derive(Copy, Clone, Eq, PartialEq, Debug)]
pub enum MessageError {
    /// The frame belongs to the media protocol, which has no messages yet.
    MediaNotImplemented,
    /// Byte 24 names no protocol.
    InvalidProtocolTag(u8),
}

/// A message exchanged between peers.
#[derive(Copy, Clone, Eq, PartialEq, Hash, Debug)]
pub enum Message {
    Sync(SyncMessage),
}

impl Message {
    /// Reads a message from a frame.
    pub fn parse_block(block: [u8; 32]) -> (r: Result<Message, MessageError>)
        ensures
            match r {
                Ok(Message::Sync(m)) => tag_kind(block@[24]) == Some(MessageKind::Sync) && m.raw_data == block,
                Err(MessageError::MediaNotImplemented) => tag_kind(block@[24]) == Some(MessageKind::Media),
                Err(MessageError::InvalidProtocolTag(t)) => tag_kind(block@[24]).is_none() && t == block@[24],
            },
    {
        match get_proto(&block) {
            Ok(MessageKind::Sync) => Ok(Message::Sync(SyncMessage::from_raw(block))),
            Ok(MessageKind::Media) => Err(MessageError::MediaNotImplemented),
            Err(tag) => Err(MessageError::InvalidProtocolTag(tag)),
        }
    }

    /// The frame that carries this message.
    pub fn into_block(self) -> (r: [u8; 32])
        ensures
            match self {
                Message::Sync(m) => r == m.raw_data,
            },
    {
        match self {
            Message::Sync(msg) => msg.into_raw(),
        }
    }

    pub fn from_sync(body: SyncMessage) -> (r: Message)
        ensures
            r == Message::Sync(body),
    {
        Message::Sync(body)
    }
}

} // verus!
