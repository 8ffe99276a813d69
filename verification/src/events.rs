//! Remote events and their encoding as 32-byte blocks.
//!
//! A block is laid out as: byte 0 the event kind (bit 7 set on the continuation blocks
//! of a string event), byte 1 unused, bytes 2..10 a little-endian count, bytes 10..32
//! the payload. Events that carry a string are split over as many blocks as their
//! UTF-8 bytes need, 22 bytes each: the first block's count is the byte length of the
//! string, each following block's count is its index.
use vstd::prelude::*;
use crate::bytes::{le_bytes, le_value, read_le, write_le, power};
use crate::players::events::{PlayerEvent, TimePing};

pub mod laws;

verus! {

/// The kind of a remote event, as encoded in byte 0 of a block.
#[derive(Eq, PartialEq, Structural, Hash, Clone, Copy, Debug, Ord, PartialOrd)]
pub enum RemoteEventKind {
    Ping,
    Pause,
    Play,
    Jump,
    MediaOpen,
    RequestTransfer,
    RespondTransfer,
    MediaOpenOkay,
    Shutdown,
}

/// The byte that encodes each kind.
pub open spec fn kind_code(kind: RemoteEventKind) -> u8 {
    match kind {
        RemoteEventKind::Ping => 0,
        RemoteEventKind::Pause => 1,
        RemoteEventKind::Play => 2,
        RemoteEventKind::Jump => 3,
        RemoteEventKind::MediaOpen => 4,
        RemoteEventKind::RequestTransfer => 5,
        RemoteEventKind::RespondTransfer => 6,
        RemoteEventKind::MediaOpenOkay => 7,
        RemoteEventKind::Shutdown => 0xff,
    }
}

/// The kind a byte names once its top bit is cleared.
pub open spec fn kind_of_byte(byte: u8) -> Option<RemoteEventKind> {
    let low = byte & 0x7f;
    if low == 0 {
        Some(RemoteEventKind::Ping)
    } else if low == 1 {
        Some(RemoteEventKind::Pause)
    } else if low == 2 {
        Some(RemoteEventKind::Play)
    } else if low == 3 {
        Some(RemoteEventKind::Jump)
    } else if low == 4 {
        Some(RemoteEventKind::MediaOpen)
    } else if low == 5 {
        Some(RemoteEventKind::RequestTransfer)
    } else if low == 6 {
        Some(RemoteEventKind::RespondTransfer)
    } else if low == 7 {
        Some(RemoteEventKind::MediaOpenOkay)
    } else if low == 0x7f {
        Some(RemoteEventKind::Shutdown)
    } else {
        None
    }
}

/// Kinds whose events carry a string and may span several blocks.
pub open spec fn kind_is_multiblock(kind: RemoteEventKind) -> bool {
    kind == RemoteEventKind::MediaOpen || kind == RemoteEventKind::RequestTransfer
        || kind == RemoteEventKind::MediaOpenOkay
}

impl RemoteEventKind {
    pub fn parse_kind_byte(byte: u8) -> (r: Option<RemoteEventKind>)
        ensures
            r == kind_of_byte(byte),
    {
        let low = byte & 0x7f;
        match low {
            0 => Some(RemoteEventKind::Ping),
            1 => Some(RemoteEventKind::Pause),
            2 => Some(RemoteEventKind::Play),
            3 => Some(RemoteEventKind::Jump),
            4 => Some(RemoteEventKind::MediaOpen),
            5 => Some(RemoteEventKind::RequestTransfer),
            6 => Some(RemoteEventKind::RespondTransfer),
            7 => Some(RemoteEventKind::MediaOpenOkay),
            0x7f => Some(RemoteEventKind::Shutdown),
            _ => None,
        }
    }

    pub fn is_multiblock(self) -> (r: bool)
        ensures
            r == kind_is_multiblock(self),
    {
        match self {
            RemoteEventKind::MediaOpen => true,
            RemoteEventKind::RequestTransfer => true,
            RemoteEventKind::MediaOpenOkay => true,
            _ => false,
        }
    }

    /// The byte that encodes this kind.
    pub fn to_byte(self) -> (r: u8)
        ensures
            r == kind_code(self),
    {
        match self {
            RemoteEventKind::Ping => 0,
            RemoteEventKind::Pause => 1,
            RemoteEventKind::Play => 2,
            RemoteEventKind::Jump => 3,
            RemoteEventKind::MediaOpen => 4,
            RemoteEventKind::RequestTransfer => 5,
            RemoteEventKind::RespondTransfer => 6,
            RemoteEventKind::MediaOpenOkay => 7,
            RemoteEventKind::Shutdown => 0xff,
        }
    }
}

/// Each kind is read back from its own byte.
pub proof fn lemma_kind_code_roundtrip(kind: RemoteEventKind)
    ensures
        kind_of_byte(kind_code(kind)) == Some(kind),
        kind_of_byte(kind_code(kind) | 0x80) == Some(kind),
        kind_code(kind) & 0x7f == kind_code(kind) || kind == RemoteEventKind::Shutdown,
{
    assert(0u8 & 0x7f == 0u8) by (bit_vector);
    assert(1u8 & 0x7f == 1u8) by (bit_vector);
    assert(2u8 & 0x7f == 2u8) by (bit_vector);
    assert(3u8 & 0x7f == 3u8) by (bit_vector);
    assert(4u8 & 0x7f == 4u8) by (bit_vector);
    assert(5u8 & 0x7f == 5u8) by (bit_vector);
    assert(6u8 & 0x7f == 6u8) by (bit_vector);
    assert(7u8 & 0x7f == 7u8) by (bit_vector);
    assert(0xffu8 & 0x7f == 0x7fu8) by (bit_vector);
    assert(forall|b: u8| b <= 7 ==> (#[trigger] (b | 0x80)) & 0x7f == b) by (bit_vector);
    assert((0xffu8 | 0x80) & 0x7f == 0x7fu8) by (bit_vector);
}

/// `n` zero bytes.
pub open spec fn zeros(n: nat) -> Seq<u8> {
    Seq::new(n, |i: int| 0u8)
}

/// The block with head byte `head`, count `count` and `payload` padded with zeros.
pub open spec fn make_block(head: u8, count: nat, payload: Seq<u8>) -> Seq<u8> {
    seq![head, 0u8] + le_bytes(count, 8) + payload + zeros((22 - payload.len()) as nat)
}

/// The kind named by a block's head byte.
pub open spec fn block_kind(b: Seq<u8>) -> Option<RemoteEventKind> {
    kind_of_byte(b[0])
}

/// A block continues a string begun in an earlier block.
pub open spec fn block_is_append(b: Seq<u8>) -> bool {
    b[0] & 0x80 != 0
}

/// The count stored in bytes 2..10.
pub open spec fn block_count(b: Seq<u8>) -> nat {
    le_value(b.subrange(2, 10))
}

/// The payload stored in bytes 10..32.
pub open spec fn block_payload(b: Seq<u8>) -> Seq<u8> {
    b.subrange(10, 32)
}

/// A 32-byte block as sent over the wire.
#[derive(Copy, Clone, Eq, PartialEq, Hash, Debug, Default)]
pub struct RawBlock {
    pub data: [u8; 32],
}

impl RawBlock {
    /// The number of payload bytes in a block.
    pub const PAYLOAD_SIZE: usize = 22;

    /// The number of bytes in a block.
    pub const BLOCK_SIZE: usize = 32;

    /// An all-zero block.
    pub fn new() -> (r: RawBlock)
        ensures
            r.data@ == zeros(32),
    {
        let r = RawBlock { data: [0u8; 32] };
        assert(r.data@ =~= zeros(32));
        r
    }

    pub fn with_kind(self, kind: RemoteEventKind) -> (r: RawBlock)
        ensures
            r.data@ == self.data@.update(0, kind_code(kind)),
    {
        let mut out = self;
        out.data[0] = kind.to_byte();
        assert(out.data@ =~= self.data@.update(0, kind_code(kind)));
        out
    }

    /// Sets or clears the continuation flag, bit 7 of byte 0.
    pub fn with_append_flag(self, is_append: bool) -> (r: RawBlock)
        ensures
            r.data@ == self.data@.update(
                0,
                if is_append { self.data@[0] | 0x80 } else { self.data@[0] & 0x7f },
            ),
    {
        let mut out = self;
        let cur_kind = self.data[0];
        let next_kind = if is_append {
            cur_kind | 0x80
        } else {
            cur_kind & !0x80u8
        };
        assert(cur_kind & !0x80u8 == cur_kind & 0x7f) by (bit_vector);
        out.data[0] = next_kind;
        assert(out.data@ =~= self.data@.update(
            0,
            if is_append { self.data@[0] | 0x80 } else { self.data@[0] & 0x7f },
        ));
        out
    }

    /// Stores `count` in bytes 2..10, little endian.
    pub fn with_count_u64(self, count: u64) -> (r: RawBlock)
        ensures
            r.data@ == self.data@.subrange(0, 2) + le_bytes(count as nat, 8) + self.data@.subrange(10, 32),
    {
        let mut out = self;
        write_le(&mut out.data, 2, 8, count as u128);
        proof {
            crate::bytes::lemma_le_bytes_len(count as nat, 8);
        }
        assert(out.data@ =~= self.data@.subrange(0, 2) + le_bytes(count as nat, 8) + self.data@.subrange(10, 32));
        out
    }

    /// Stores `payload` at the start of the payload area.
    pub fn with_payload(self, payload: &[u8]) -> (r: RawBlock)
        requires
            payload@.len() <= 22,
        ensures
            r.data@ == self.data@.subrange(0, 10) + payload@ + self.data@.subrange(10 + payload@.len() as int, 32),
    {
        let mut out = self;
        let n = payload.len();
        let mut i: usize = 0;
        while i < n
            invariant
                i <= n <= 22,
                n == payload@.len(),
                forall|k: int| 0 <= k < 32 ==> #[trigger] out.data@[k] == if 10 <= k < 10 + i {
                    payload@[k - 10]
                } else {
                    self.data@[k]
                },
            decreases n - i,
        {
            out.data[10 + i] = payload[i];
            i = i + 1;
        }
        assert(out.data@ =~= self.data@.subrange(0, 10) + payload@ + self.data@.subrange(10 + payload@.len() as int, 32));
        out
    }

    pub fn from_data(data: [u8; 32]) -> (r: RawBlock)
        ensures
            r.data == data,
    {
        RawBlock { data }
    }

    pub fn kind(&self) -> (r: Option<RemoteEventKind>)
        ensures
            r == block_kind(self.data@),
    {
        let b = self.kind_byte();
        assert((b & !0x80u8) & 0x7f == b & 0x7f) by (bit_vector);
        RemoteEventKind::parse_kind_byte(b & !0x80u8)
    }

    pub fn kind_byte(&self) -> (r: u8)
        ensures
            r == self.data@[0],
    {
        self.data[0]
    }

    pub fn is_append(&self) -> (r: bool)
        ensures
            r == block_is_append(self.data@),
    {
        self.kind_byte() & 0x80 != 0
    }

    pub fn count_u64(&self) -> (r: u64)
        ensures
            r == block_count(self.data@),
    {
        let v = read_le(&self.data, 2, 8);
        proof {
            crate::bytes::lemma_le_value_bound(self.data@.subrange(2, 10));
            crate::bytes::lemma_power_256_8();
        }
        v as u64
    }

    pub fn payload(&self) -> (r: &[u8])
        ensures
            r@ == block_payload(self.data@),
    {
        &self.data[10..32]
    }

    pub fn as_bytes(&self) -> (r: &[u8])
        ensures
            r@ == self.data@,
    {
        let r = &self.data[0..32];
        assert(r@ =~= self.data@);
        r
    }

    pub fn into_payload(self) -> (r: [u8; 22])
        ensures
            r@ == block_payload(self.data@),
    {
        let mut out = [0u8; 22];
        let mut i: usize = 0;
        while i < 22
            invariant
                i <= 22,
                out@.len() == 22,
                forall|k: int| 0 <= k < i ==> #[trigger] out@[k] == self.data@[10 + k],
            decreases 22 - i,
        {
            out[i] = self.data[10 + i];
            i = i + 1;
        }
        assert(out@ =~= block_payload(self.data@));
        out
    }
}

/// `c` is alphabetic or numeric in the Unicode sense, as `char::is_alphanumeric` decides.
pub uninterp spec fn is_alphanumeric(c: char) -> bool;

/// An ASCII letter or digit.
pub open spec fn is_ascii_alphanumeric(c: char) -> bool {
    ('0' <= c && c <= '9') || ('a' <= c && c <= 'z') || ('A' <= c && c <= 'Z')
}

/// A character of the Latin-1 Supplement (U+0080 to U+00FF) that is alphabetic or
/// numeric in Unicode: the ordinal indicators, the superscript digits, the micro sign,
/// the vulgar fractions and the accented letters (all of U+00C0 to U+00FF but the
/// multiplication and division signs).
pub open spec fn is_latin1_alphanumeric(c: char) -> bool {
    let v = c as u32;
    ||| v == 0xaa || v == 0xb2 || v == 0xb3 || v == 0xb5 || v == 0xb9 || v == 0xba
    ||| 0xbc <= v <= 0xbe
    ||| 0xc0 <= v <= 0xff && v != 0xd7 && v != 0xf7
}

/// Calls `char::is_alphanumeric`. Its result is named `is_alphanumeric`; below U+0100
/// it is true exactly of the ASCII letters and digits and of the Latin-1 characters of
/// `is_latin1_alphanumeric`, as the Unicode tables that the standard library follows give.
#[verifier::external_body]
pub(crate) fn char_is_alphanumeric(c: char) -> (r: bool)
    ensures
        r == is_alphanumeric(c),
        (c as u32) < 128 ==> (r <==> is_ascii_alphanumeric(c)),
        128 <= (c as u32) < 256 ==> (r <==> is_latin1_alphanumeric(c)),
{
    c.is_alphanumeric()
}

/// A remote event as plain values: times in microseconds, strings as their characters.
pub enum EventView {
    Ping { timestamp: u64, payload: u64 },
    Pause,
    Play,
    Jump(u64),
    MediaOpen(Seq<char>),
    RequestTransfer(Seq<char>),
    RespondTransfer { size: u64, transfer_code: Option<Seq<char>> },
    MediaOpenOkay(Seq<char>),
    Shutdown,
}

/// Something that happened at a peer, sent to the others. Times are in microseconds.
#[derive(Clone, Eq, PartialEq, Debug, Hash)]
pub enum RemoteEvent {
    /// The sender's position (`payload`) at the sender's wall-clock time `timestamp`.
    Ping { timestamp: u64, payload: TimePing },
    Pause,
    Play,
    Jump(u64),
    MediaOpen(String),
    RequestTransfer(String),
    RespondTransfer { size: u64, transfer_code: Option<[char; 9]> },
    MediaOpenOkay(String),
    Shutdown,
}

impl View for RemoteEvent {
    type V = EventView;

    open spec fn view(&self) -> EventView {
        match self {
            RemoteEvent::Ping { timestamp, payload } => EventView::Ping {
                timestamp: *timestamp,
                payload: payload.micros,
            },
            RemoteEvent::Pause => EventView::Pause,
            RemoteEvent::Play => EventView::Play,
            RemoteEvent::Jump(t) => EventView::Jump(*t),
            RemoteEvent::MediaOpen(s) => EventView::MediaOpen(s@),
            RemoteEvent::RequestTransfer(s) => EventView::RequestTransfer(s@),
            RemoteEvent::RespondTransfer { size, transfer_code } => EventView::RespondTransfer {
                size: *size,
                transfer_code: match transfer_code {
                    Some(c) => Some(c@),
                    None => None,
                },
            },
            RemoteEvent::MediaOpenOkay(s) => EventView::MediaOpenOkay(s@),
            RemoteEvent::Shutdown => EventView::Shutdown,
        }
    }
}

/// The kind of an event.
pub open spec fn event_kind(e: EventView) -> RemoteEventKind {
    match e {
        EventView::Ping { .. } => RemoteEventKind::Ping,
        EventView::Pause => RemoteEventKind::Pause,
        EventView::Play => RemoteEventKind::Play,
        EventView::Jump(_) => RemoteEventKind::Jump,
        EventView::MediaOpen(_) => RemoteEventKind::MediaOpen,
        EventView::RequestTransfer(_) => RemoteEventKind::RequestTransfer,
        EventView::RespondTransfer { .. } => RemoteEventKind::RespondTransfer,
        EventView::MediaOpenOkay(_) => RemoteEventKind::MediaOpenOkay,
        EventView::Shutdown => RemoteEventKind::Shutdown,
    }
}

/// The event a single block encodes, if it encodes one on its own: strings never do.
/// A transfer response carries its nine code characters only when every one of them
/// is alphanumeric.
pub open spec fn parse_single(b: Seq<u8>) -> Option<EventView> {
    match block_kind(b) {
        None => None,
        Some(k) => if kind_is_multiblock(k) {
            None
        } else {
            Some(
                match k {
                    RemoteEventKind::Ping => EventView::Ping {
                        timestamp: le_value(b.subrange(10, 18)) as u64,
                        payload: block_count(b) as u64,
                    },
                    RemoteEventKind::Pause => EventView::Pause,
                    RemoteEventKind::Play => EventView::Play,
                    RemoteEventKind::Jump => EventView::Jump(block_count(b) as u64),
                    RemoteEventKind::RespondTransfer => EventView::RespondTransfer {
                        size: block_count(b) as u64,
                        transfer_code: code_of(b.subrange(10, 19)),
                    },
                    _ => EventView::Shutdown,
                },
            )
        },
    }
}

/// The nine code characters in `bytes`, if all are alphanumeric.
pub open spec fn code_of(bytes: Seq<u8>) -> Option<Seq<char>> {
    if forall|i: int| 0 <= i < bytes.len() ==> is_alphanumeric(#[trigger] bytes[i] as char) {
        Some(bytes.map_values(|x: u8| x as char))
    } else {
        None
    }
}

/// The number of blocks a string of `len` UTF-8 bytes takes.
pub open spec fn block_count_for(len: nat) -> nat {
    (len + 21) / 22
}

/// Block `k` of a string event with kind byte `code` and UTF-8 bytes `bytes`.
pub open spec fn string_block(code: u8, bytes: Seq<u8>, k: nat) -> Seq<u8> {
    let start = 22 * k;
    let end = if start + 22 <= bytes.len() { start + 22 } else { bytes.len() };
    make_block(
        if k == 0 { code & 0x7f } else { code | 0x80 },
        if k == 0 { bytes.len() } else { k },
        bytes.subrange(start as int, end as int),
    )
}

/// All blocks of a string event.
pub open spec fn string_blocks(code: u8, bytes: Seq<u8>) -> Seq<Seq<u8>> {
    Seq::new(block_count_for(bytes.len()), |k: int| string_block(code, bytes, k as nat))
}

/// The blocks that encode an event. A transfer response without a code has none.
pub open spec fn event_blocks(e: EventView) -> Seq<Seq<u8>> {
    match e {
        EventView::Ping { timestamp, payload } => seq![make_block(0, payload as nat, le_bytes(timestamp as nat, 8))],
        EventView::Pause => seq![make_block(1, 0, Seq::empty())],
        EventView::Play => seq![make_block(2, 0, Seq::empty())],
        EventView::Jump(t) => seq![make_block(3, t as nat, Seq::empty())],
        EventView::MediaOpen(s) => string_blocks(4, vstd::utf8::encode_utf8(s)),
        EventView::RequestTransfer(s) => string_blocks(5, vstd::utf8::encode_utf8(s)),
        EventView::RespondTransfer { size, transfer_code } => match transfer_code {
            Some(code) => seq![make_block(6, size as nat, code_bytes(code))],
            None => Seq::empty(),
        },
        EventView::MediaOpenOkay(s) => string_blocks(7, vstd::utf8::encode_utf8(s)),
        EventView::Shutdown => seq![Seq::new(32, |i: int| 0xffu8)],
    }
}

/// The low byte of each code character.
pub open spec fn code_bytes(code: Seq<char>) -> Seq<u8> {
    code.map_values(|c: char| c as u8)
}

/// The bytes of each block.
pub open spec fn blocks_view(v: Seq<RawBlock>) -> Seq<Seq<u8>> {
    v.map_values(|b: RawBlock| b.data@)
}

pub proof fn lemma_le_bytes_zero(n: nat)
    ensures
        le_bytes(0, n) == zeros(n),
    decreases n,
{
    if n > 0 {
        lemma_le_bytes_zero((n - 1) as nat);
        assert(le_bytes(0, n) =~= zeros(n));
    } else {
        assert(le_bytes(0, n) =~= zeros(n));
    }
}

/// The block built from a zeroed block by setting its head, count and payload.
pub proof fn lemma_built_block(head: u8, count: nat, payload: Seq<u8>, data: Seq<u8>)
    requires
        payload.len() <= 22,
        data == ({
            let b1 = zeros(32).update(0, head);
            let b2 = b1.subrange(0, 2) + le_bytes(count, 8) + b1.subrange(10, 32);
            b2.subrange(0, 10) + payload + b2.subrange(10 + payload.len() as int, 32)
        }),
    ensures
        data == make_block(head, count, payload),
{
    crate::bytes::lemma_le_bytes_len(count, 8);
    assert(data =~= make_block(head, count, payload));
}

/// Splits `bytes` into the blocks of a string event of kind `kind`.
fn string_blocks_exec(kind: RemoteEventKind, bytes: &[u8]) -> (r: Vec<RawBlock>)
    requires
        kind_is_multiblock(kind),
    ensures
        blocks_view(r@) == string_blocks(kind_code(kind), bytes@),
{
    let len = bytes.len();
    let n = len / 22 + if len % 22 != 0 { 1 } else { 0 };
    assert(n == block_count_for(len as nat));
    let mut out: Vec<RawBlock> = Vec::new();
    let mut idx: usize = 0;
    while idx < n
        invariant
            idx <= n,
            n == block_count_for(len as nat),
            len == bytes@.len(),
            kind_is_multiblock(kind),
            out@.len() == idx,
            forall|k: int| 0 <= k < idx ==> #[trigger] out@[k].data@ == string_block(kind_code(kind), bytes@, k as nat),
        decreases n - idx,
    {
        let start = idx * 22;
        let end = if len - start > 22 { start + 22 } else { len };
        let chunk = &bytes[start..end];
        let length_or_idx: u64 = if idx == 0 { len as u64 } else { idx as u64 };
        let block = RawBlock::new().with_kind(kind).with_append_flag(idx != 0).with_count_u64(
            length_or_idx,
        ).with_payload(chunk);
        proof {
            let code = kind_code(kind);
            let head: u8 = if idx == 0 { code & 0x7f } else { code | 0x80 };
            assert(zeros(32).update(0, code).update(
                0,
                if idx != 0 { code | 0x80 } else { code & 0x7f },
            ) =~= zeros(32).update(0, head));
            lemma_built_block(head, length_or_idx as nat, chunk@, block.data@);
            let spec_end = if 22 * idx + 22 <= len { 22 * idx + 22 } else { len as int };
            assert(end == spec_end);
            assert(chunk@ == bytes@.subrange(22 * idx, spec_end));
            assert(length_or_idx as nat == if idx == 0 { len as nat } else { idx as nat });
            assert(block.data@ == string_block(kind_code(kind), bytes@, idx as nat));
        }
        let ghost prev = out@;
        out.push(block);
        assert forall|k: int| 0 <= k <= idx implies #[trigger] out@[k].data@ == string_block(
            kind_code(kind),
            bytes@,
            k as nat,
        ) by {
            if k < idx {
                assert(out@[k] == prev[k]);
                assert(prev[k].data@ == string_block(kind_code(kind), bytes@, k as nat));
            } else {
                assert(out@[k] == block);
            }
        }
        idx = idx + 1;
    }
    assert(blocks_view(out@) =~= string_blocks(kind_code(kind), bytes@));
    out
}

/// Events that have an encoding: a transfer response must carry its code.
pub open spec fn encodable(e: EventView) -> bool {
    !(e matches EventView::RespondTransfer { transfer_code: None, .. })
}

/// The remote event that announces a player event to the peers.
pub open spec fn remote_of_player(e: PlayerEvent) -> RemoteEvent {
    match e {
        PlayerEvent::Jump(t) => RemoteEvent::Jump(t),
        PlayerEvent::Pause => RemoteEvent::Pause,
        PlayerEvent::Play => RemoteEvent::Play,
        PlayerEvent::Shutdown => RemoteEvent::Shutdown,
        PlayerEvent::MediaOpen(url) => RemoteEvent::MediaOpen(url),
    }
}

impl From<PlayerEvent> for RemoteEvent {
    fn from(evt: PlayerEvent) -> (r: RemoteEvent) {
        match evt {
            PlayerEvent::Jump(tm) => RemoteEvent::Jump(tm),
            PlayerEvent::Pause => RemoteEvent::Pause,
            PlayerEvent::Play => RemoteEvent::Play,
            PlayerEvent::Shutdown => RemoteEvent::Shutdown,
            PlayerEvent::MediaOpen(url) => RemoteEvent::MediaOpen(url),
        }
    }
}

impl vstd::std_specs::convert::FromSpecImpl<PlayerEvent> for RemoteEvent {
    open spec fn obeys_from_spec() -> bool {
        true
    }

    open spec fn from_spec(v: PlayerEvent) -> RemoteEvent {
        remote_of_player(v)
    }
}

impl RemoteEvent {
    pub fn kind(&self) -> (r: RemoteEventKind)
        ensures
            r == event_kind(self@),
    {
        match self {
            RemoteEvent::Ping { .. } => RemoteEventKind::Ping,
            RemoteEvent::Pause => RemoteEventKind::Pause,
            RemoteEvent::Play => RemoteEventKind::Play,
            RemoteEvent::Jump(_) => RemoteEventKind::Jump,
            RemoteEvent::MediaOpen(_) => RemoteEventKind::MediaOpen,
            RemoteEvent::RequestTransfer(_) => RemoteEventKind::RequestTransfer,
            RemoteEvent::RespondTransfer { .. } => RemoteEventKind::RespondTransfer,
            RemoteEvent::MediaOpenOkay(_) => RemoteEventKind::MediaOpenOkay,
            RemoteEvent::Shutdown => RemoteEventKind::Shutdown,
        }
    }

    /// The event a single block encodes; `None` for string kinds and unknown kinds.
    pub fn parse_block(next: RawBlock) -> (r: Option<RemoteEvent>)
        ensures
            match r {
                Some(e) => parse_single(next.data@) == Some(e@),
                None => parse_single(next.data@).is_none(),
            },
    {
        let kind = match next.kind() {
            Some(k) => k,
            None => {
                return None;
            },
        };
        if kind.is_multiblock() {
            return None;
        }
        match kind {
            RemoteEventKind::Ping => {
                let ping_micros = next.count_u64();
                let ping = TimePing::from_micros(ping_micros);
                let payload = next.payload();
                let ts = read_le(payload, 0, 8);
                proof {
                    assert(payload@.subrange(0, 8) =~= next.data@.subrange(10, 18));
                    crate::bytes::lemma_le_value_bound(next.data@.subrange(10, 18));
                    crate::bytes::lemma_power_256_8();
                }
                Some(RemoteEvent::Ping { payload: ping, timestamp: ts as u64 })
            },
            RemoteEventKind::Pause => Some(RemoteEvent::Pause),
            RemoteEventKind::Play => Some(RemoteEvent::Play),
            RemoteEventKind::Jump => Some(RemoteEvent::Jump(next.count_u64())),
            RemoteEventKind::RespondTransfer => {
                let size = next.count_u64();
                let mut code_buffer = ['\0'; 9];
                let mut valid = true;
                let mut i: usize = 0;
                let ghost code_bytes = next.data@.subrange(10, 19);
                while i < 9
                    invariant
                        i <= 9,
                        code_bytes == next.data@.subrange(10, 19),
                        code_buffer@.len() == 9,
                        valid ==> forall|k: int| 0 <= k < i ==> is_alphanumeric(#[trigger] code_bytes[k] as char),
                        valid ==> forall|k: int| 0 <= k < i ==> #[trigger] code_buffer@[k] == code_bytes[k] as char,
                        !valid ==> exists|k: int| 0 <= k < 9 && !is_alphanumeric(#[trigger] code_bytes[k] as char),
                    decreases 9 - i,
                {
                    let payload_char = next.data[10 + i] as char;
                    if valid {
                        if char_is_alphanumeric(payload_char) {
                            code_buffer[i] = payload_char;
                        } else {
                            valid = false;
                            assert(!is_alphanumeric(code_bytes[i as int] as char));
                        }
                    }
                    i = i + 1;
                }
                if valid {
                    assert(code_buffer@ =~= code_bytes.map_values(|x: u8| x as char));
                    Some(RemoteEvent::RespondTransfer { size, transfer_code: Some(code_buffer) })
                } else {
                    Some(RemoteEvent::RespondTransfer { size, transfer_code: None })
                }
            },
            _ => Some(RemoteEvent::Shutdown),
        }
    }

    /// The blocks that carry this event.
    pub fn as_blocks(&self) -> (r: Vec<RawBlock>)
        requires
            encodable(self@),
        ensures
            blocks_view(r@) == event_blocks(self@),
    {
        match self {
            RemoteEvent::Ping { timestamp, payload } => {
                let png_micros = payload.as_micros();
                let ts_bytes = crate::bytes::u64_to_le(*timestamp);
                let retvl = RawBlock::new().with_kind(self.kind()).with_count_u64(png_micros).with_payload(
                    &ts_bytes,
                );
                proof {
                    lemma_built_block(0, png_micros as nat, ts_bytes@, retvl.data@);
                }
                let v = vec![retvl];
                assert(blocks_view(v@) =~= event_blocks(self@));
                v
            },
            RemoteEvent::Pause => {
                let retvl = RawBlock::new().with_kind(self.kind());
                proof {
                    lemma_le_bytes_zero(8);
                    assert(retvl.data@ =~= make_block(1, 0, Seq::empty()));
                }
                let v = vec![retvl];
                assert(blocks_view(v@) =~= event_blocks(self@));
                v
            },
            RemoteEvent::Play => {
                let retvl = RawBlock::new().with_kind(self.kind());
                proof {
                    lemma_le_bytes_zero(8);
                    assert(retvl.data@ =~= make_block(2, 0, Seq::empty()));
                }
                let v = vec![retvl];
                assert(blocks_view(v@) =~= event_blocks(self@));
                v
            },
            RemoteEvent::Jump(tm) => {
                let retvl = RawBlock::new().with_kind(self.kind()).with_count_u64(*tm);
                proof {
                    crate::bytes::lemma_le_bytes_len(*tm as nat, 8);
                    assert(retvl.data@ =~= make_block(3, *tm as nat, Seq::empty()));
                }
                let v = vec![retvl];
                assert(blocks_view(v@) =~= event_blocks(self@));
                v
            },
            RemoteEvent::MediaOpen(url) => string_blocks_exec(RemoteEventKind::MediaOpen, url.as_str().as_bytes()),
            RemoteEvent::RequestTransfer(url) => string_blocks_exec(
                RemoteEventKind::RequestTransfer,
                url.as_str().as_bytes(),
            ),
            RemoteEvent::RespondTransfer { size, transfer_code } => {
                let code = match transfer_code {
                    Some(c) => c,
                    None => {
                        assert(false);
                        return Vec::new();
                    },
                };
                let mut retvl = RawBlock::new().with_kind(self.kind()).with_count_u64(*size);
                let ghost base = retvl.data@;
                let mut idx: usize = 0;
                while idx < 9
                    invariant
                        idx <= 9,
                        code@.len() == 9,
                        forall|k: int| 0 <= k < 32 ==> #[trigger] retvl.data@[k] == if 10 <= k < 10 + idx {
                            code@[k - 10] as u8
                        } else {
                            base[k]
                        },
                    decreases 9 - idx,
                {
                    retvl.data[10 + idx] = #[verifier::truncate] (code[idx] as u8);
                    idx = idx + 1;
                }
                proof {
                    crate::bytes::lemma_le_bytes_len(*size as nat, 8);
                    assert(retvl.data@ =~= make_block(6, *size as nat, code_bytes(code@)));
                }
                let v = vec![retvl];
                assert(blocks_view(v@) =~= event_blocks(self@));
                v
            },
            RemoteEvent::MediaOpenOkay(url) => string_blocks_exec(RemoteEventKind::MediaOpenOkay, url.as_str().as_bytes()),
            RemoteEvent::Shutdown => {
                let all_ones = [0xffu8; 32];
                proof {
                    broadcast use vstd::array::group_array_axioms;
                    assert(all_ones@ =~= Seq::new(32, |i: int| 0xffu8));
                }
                let v = vec![RawBlock::from_data(all_ones)];
                assert(blocks_view(v@) =~= event_blocks(self@));
                v
            },
        }
    }
}

/// Calls `String::from_utf8`: `Some` exactly when `bytes` is valid UTF-8, holding the
/// characters that the bytes encode.
#[verifier::external_body]
fn string_from_utf8(bytes: Vec<u8>) -> (r: Option<String>)
    ensures
        r.is_some() == vstd::utf8::valid_utf8(bytes@),
        r matches Some(s) ==> s@ == vstd::utf8::decode_utf8(bytes@),
{
    String::from_utf8(bytes).ok()
}

/// Why a block could not be taken in.
#[derive(Copy, Clone, Eq, PartialEq, Debug)]
pub enum BlockError {
    /// A block in the middle of a string was not a continuation of the same kind.
    ChainKindMismatch { got: u8, expected: u8 },
    /// A continuation block carried the wrong index.
    PacketIndexMismatch { got: u64, have: usize },
    /// The bytes of a string were not valid UTF-8.
    InvalidUtf8,
    /// A string was assembled under a kind that carries no string.
    InvalidStringKind(u8),
    /// A single block could not be read as an event.
    BadBlock,
    /// A block that begins an event named no kind.
    InvalidInitialKind(u8),
}

/// The outcome of taking in a block, with events as plain values.
pub type ParseView = Result<Option<EventView>, BlockError>;

/// The outcome of taking in a block, as plain values.
pub open spec fn result_view(r: Result<Option<RemoteEvent>, BlockError>) -> ParseView {
    match r {
        Ok(Some(e)) => Ok(Some(e@)),
        Ok(None) => Ok(None),
        Err(e) => Err(e),
    }
}

/// The payloads of `bufs`, one after the other.
pub open spec fn flat_payloads(bufs: Seq<Seq<u8>>) -> Seq<u8>
    decreases bufs.len(),
{
    if bufs.len() == 0 {
        Seq::empty()
    } else {
        flat_payloads(bufs.drop_last()) + block_payload(bufs.last())
    }
}

/// The string event of a kind, if the kind carries a string.
pub open spec fn string_event(kind: RemoteEventKind, s: Seq<char>) -> Option<EventView> {
    match kind {
        RemoteEventKind::MediaOpen => Some(EventView::MediaOpen(s)),
        RemoteEventKind::RequestTransfer => Some(EventView::RequestTransfer(s)),
        RemoteEventKind::MediaOpenOkay => Some(EventView::MediaOpenOkay(s)),
        _ => None,
    }
}

/// The kind of a header block, with unknown kinds read as `Shutdown`.
pub open spec fn header_kind(header: Seq<u8>) -> RemoteEventKind {
    match block_kind(header) {
        Some(k) => k,
        None => RemoteEventKind::Shutdown,
    }
}

/// Completes a string once the buffered blocks hold all its bytes: the buffer is then
/// emptied, whatever follows.
pub open spec fn spec_parse_buffer(buf: Seq<Seq<u8>>) -> (Seq<Seq<u8>>, ParseView) {
    let header = buf[0];
    let len = block_count(header);
    if buf.len() * 22 < len {
        (buf, Ok(None))
    } else {
        let bytes = flat_payloads(buf).take(len as int);
        if !vstd::utf8::valid_utf8(bytes) {
            (Seq::empty(), Err(BlockError::InvalidUtf8))
        } else {
            match string_event(header_kind(header), vstd::utf8::decode_utf8(bytes)) {
                Some(e) => (Seq::empty(), Ok(Some(e))),
                None => (Seq::empty(), Err(BlockError::InvalidStringKind(header[0]))),
            }
        }
    }
}

/// Takes in one block given the blocks buffered so far: the new buffer and the outcome.
pub open spec fn spec_parse_next(buf: Seq<Seq<u8>>, next: Seq<u8>) -> (Seq<Seq<u8>>, ParseView) {
    if buf.len() > 0 {
        let bk = header_kind(buf[0]);
        if block_kind(next) != Some(bk) || !block_is_append(next) {
            (buf, Err(BlockError::ChainKindMismatch { got: next[0], expected: kind_code(bk) }))
        } else if block_count(next) != buf.len() {
            (buf, Err(BlockError::PacketIndexMismatch { got: block_count(next) as u64, have: buf.len() as usize }))
        } else {
            spec_parse_buffer(buf.push(next))
        }
    } else {
        match block_kind(next) {
            Some(k) => if kind_is_multiblock(k) {
                spec_parse_buffer(seq![next])
            } else {
                match parse_single(next) {
                    Some(e) => (buf, Ok(Some(e))),
                    None => (buf, Err(BlockError::BadBlock)),
                }
            },
            None => (buf, Err(BlockError::InvalidInitialKind(next[0]))),
        }
    }
}

/// A cursor over the items of a vector.
pub struct ArrayIter<Item: Copy> {
    arr: Vec<Item>,
    idx: usize,
}

impl<Item: Copy> ArrayIter<Item> {
    pub closed spec fn items(&self) -> Seq<Item> {
        self.arr@
    }

    pub closed spec fn position(&self) -> nat {
        self.idx as nat
    }

    pub fn new(arr: Vec<Item>) -> (r: ArrayIter<Item>)
        ensures
            r.items() == arr@,
            r.position() == 0,
    {
        ArrayIter { arr, idx: 0 }
    }

    /// The item under the cursor, moving past it; `None` once all were given.
    pub fn next(&mut self) -> (r: Option<Item>)
        ensures
            final(self).items() == old(self).items(),
            old(self).position() < old(self).items().len() ==> r == Some(old(self).items()[old(self).position() as int])
                && final(self).position() == old(self).position() + 1,
            old(self).position() >= old(self).items().len() ==> r.is_none() && final(self).position() == old(self).position(),
    {
        if self.idx < self.arr.len() {
            let item = self.arr[self.idx];
            self.idx = self.idx + 1;
            Some(item)
        } else {
            None
        }
    }
}

/// Reassembles events from the blocks that arrive, one after the other.
#[derive(Clone, Eq, PartialEq, Hash, Debug, Default)]
pub struct BlockParser {
    buffer: Vec<RawBlock>,
}

impl BlockParser {
    /// The blocks of the string being assembled.
    pub closed spec fn buffered(&self) -> Seq<Seq<u8>> {
        blocks_view(self.buffer@)
    }

    pub fn new() -> (r: BlockParser)
        ensures
            r.buffered() == Seq::<Seq<u8>>::empty(),
    {
        let r = BlockParser { buffer: Vec::new() };
        assert(r.buffered() =~= Seq::<Seq<u8>>::empty());
        r
    }

    proof fn lemma_flat_step(bufs: Seq<Seq<u8>>, i: int)
        requires
            0 <= i < bufs.len(),
        ensures
            flat_payloads(bufs.take(i + 1)) == flat_payloads(bufs.take(i)) + block_payload(bufs[i]),
    {
        assert(bufs.take(i + 1).drop_last() =~= bufs.take(i));
    }

    /// The bytes of all buffered payloads.
    fn collect_payloads(&self) -> (r: Vec<u8>)
        ensures
            r@ == flat_payloads(self.buffered()),
            r@.len() == self.buffered().len() * 22,
    {
        let mut out: Vec<u8> = Vec::new();
        let n = self.buffer.len();
        let mut i: usize = 0;
        assert(self.buffered().take(0) =~= Seq::<Seq<u8>>::empty());
        while i < n
            invariant
                i <= n,
                n == self.buffer@.len(),
                self.buffered().len() == n,
                out@ == flat_payloads(self.buffered().take(i as int)),
                out@.len() == i * 22,
            decreases n - i,
        {
            let mut it = ArrayIter::new(vstd::slice::slice_to_vec(self.buffer[i].payload()));
            let ghost p = block_payload(self.buffer@[i as int].data@);
            let ghost before = out@;
            let mut j: usize = 0;
            while j < 22
                invariant
                    j <= 22,
                    it.items() == p,
                    p.len() == 22,
                    it.position() == j,
                    out@ == before + p.take(j as int),
                decreases 22 - j,
            {
                match it.next() {
                    Some(b) => {
                        out.push(b);
                    },
                    None => {},
                }
                j = j + 1;
                assert(before + p.take(j as int) =~= (before + p.take((j - 1) as int)).push(p[j - 1]));
            }
            proof {
                Self::lemma_flat_step(self.buffered(), i as int);
                assert(self.buffered()[i as int] == self.buffer@[i as int].data@);
                assert(p.take(22) =~= p);
            }
            i = i + 1;
        }
        assert(self.buffered().take(n as int) =~= self.buffered());
        out
    }

    fn parse_buffer(&mut self) -> (r: Result<Option<RemoteEvent>, BlockError>)
        requires
            old(self).buffered().len() > 0,
        ensures
            (final(self).buffered(), result_view(r)) == spec_parse_buffer(old(self).buffered()),
    {
        let header = self.buffer[0];
        let buffer_kind = match header.kind() {
            Some(k) => k,
            None => RemoteEventKind::Shutdown,
        };
        let string_length = header.count_u64();
        let current_bytes = (self.buffer.len() as u128) * 22;
        if current_bytes < string_length as u128 {
            return Ok(None);
        }
        let mut bytes = self.collect_payloads();
        bytes.truncate(string_length as usize);
        self.buffer = Vec::new();
        assert(self.buffered() =~= Seq::<Seq<u8>>::empty());
        let msg = match string_from_utf8(bytes) {
            Some(m) => m,
            None => {
                return Err(BlockError::InvalidUtf8);
            },
        };
        match buffer_kind {
            RemoteEventKind::MediaOpen => Ok(Some(RemoteEvent::MediaOpen(msg))),
            RemoteEventKind::RequestTransfer => Ok(Some(RemoteEvent::RequestTransfer(msg))),
            RemoteEventKind::MediaOpenOkay => Ok(Some(RemoteEvent::MediaOpenOkay(msg))),
            _ => Err(BlockError::InvalidStringKind(header.kind_byte())),
        }
    }

    /// Takes in the next block: an event when one is complete, `None` while a string
    /// is still being assembled, or an error for a block that does not fit.
    pub fn parse_next(&mut self, next: RawBlock) -> (r: Result<Option<RemoteEvent>, BlockError>)
        ensures
            (final(self).buffered(), result_view(r)) == spec_parse_next(old(self).buffered(), next.data@),
    {
        if self.buffer.len() > 0 {
            let header = self.buffer[0];
            let buffer_kind = match header.kind() {
                Some(k) => k,
                None => RemoteEventKind::Shutdown,
            };
            let next_kind = next.kind();
            let same_kind = match next_kind {
                Some(k) => k == buffer_kind,
                None => false,
            };
            if !same_kind || !next.is_append() {
                return Err(BlockError::ChainKindMismatch { got: next.kind_byte(), expected: buffer_kind.to_byte() });
            }
            let packet_idx = next.count_u64();
            if packet_idx != self.buffer.len() as u64 {
                return Err(BlockError::PacketIndexMismatch { got: packet_idx, have: self.buffer.len() });
            }
            self.buffer.push(next);
            assert(self.buffered() =~= old(self).buffered().push(next.data@));
            self.parse_buffer()
        } else {
            match next.kind() {
                Some(kind) => {
                    if kind.is_multiblock() {
                        self.buffer.push(next);
                        assert(self.buffered() =~= seq![next.data@]);
                        self.parse_buffer()
                    } else {
                        match RemoteEvent::parse_block(next) {
                            Some(e) => Ok(Some(e)),
                            None => Err(BlockError::BadBlock),
                        }
                    }
                },
                None => Err(BlockError::InvalidInitialKind(next.kind_byte())),
            }
        }
    }
}

} // verus!
