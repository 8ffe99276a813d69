//! What reading back the blocks of an event gives.
use vstd::prelude::*;
use crate::bytes::{le_bytes, le_value, power};
use super::{
    block_count, block_count_for, block_is_append, block_kind, block_payload, code_bytes, event_blocks,
    event_kind, flat_payloads, header_kind, is_alphanumeric, kind_code, kind_is_multiblock,
    lemma_kind_code_roundtrip, make_block, spec_parse_buffer, spec_parse_next, string_block,
    string_blocks, string_event, zeros, BlockError, EventView, ParseView, RemoteEventKind,
};

verus! {

/// Takes in `blocks` one after the other, starting from the buffer `buf`: the buffer at
/// the end and the outcome of each block.
pub open spec fn feed(buf: Seq<Seq<u8>>, blocks: Seq<Seq<u8>>) -> (Seq<Seq<u8>>, Seq<ParseView>)
    decreases blocks.len(),
{
    if blocks.len() == 0 {
        (buf, Seq::empty())
    } else {
        let (b1, r1) = spec_parse_next(buf, blocks[0]);
        let (b2, rs) = feed(b1, blocks.drop_first());
        (b2, seq![r1] + rs)
    }
}

/// `n` outcomes: nothing for all but the last, which is the event `e`.
pub open spec fn outcomes_ending_in(n: nat, e: EventView) -> Seq<ParseView> {
    Seq::new(n, |i: int| if i < n - 1 { Ok(None) } else { Ok(Some(e)) })
}

/// The characters of a string event.
pub open spec fn event_string(e: EventView) -> Option<Seq<char>> {
    match e {
        EventView::MediaOpen(s) => Some(s),
        EventView::RequestTransfer(s) => Some(s),
        EventView::MediaOpenOkay(s) => Some(s),
        _ => None,
    }
}

/// Events whose blocks read back to them: a string event needs a non-empty string
/// (an empty one has no blocks), and a transfer response needs a code of
/// alphanumeric characters that each fit in a byte.
pub open spec fn round_trips(e: EventView) -> bool {
    match e {
        EventView::MediaOpen(s) => s.len() > 0,
        EventView::RequestTransfer(s) => s.len() > 0,
        EventView::MediaOpenOkay(s) => s.len() > 0,
        EventView::RespondTransfer { transfer_code, .. } => match transfer_code {
            Some(code) => code.len() == 9 && forall|i: int|
                0 <= i < 9 ==> (#[trigger] code[i] as u8) as char == code[i] && is_alphanumeric(code[i]),
            None => false,
        },
        _ => true,
    }
}

proof fn lemma_make_block_fields(head: u8, count: nat, payload: Seq<u8>)
    requires
        payload.len() <= 22,
        count < power(256, 8),
    ensures
        make_block(head, count, payload).len() == 32,
        make_block(head, count, payload)[0] == head,
        block_count(make_block(head, count, payload)) == count,
        block_payload(make_block(head, count, payload)) == payload + zeros((22 - payload.len()) as nat),
{
    crate::bytes::lemma_le_bytes_len(count, 8);
    let b = make_block(head, count, payload);
    assert(b.subrange(2, 10) =~= le_bytes(count, 8));
    crate::bytes::lemma_le_roundtrip_fits(count, 8);
    assert(block_payload(b) =~= payload + zeros((22 - payload.len()) as nat));
}

/// A single-block event reads back to itself from an empty buffer.
proof fn lemma_single_roundtrip(e: EventView)
    requires
        round_trips(e),
        !kind_is_multiblock(event_kind(e)),
    ensures
        event_blocks(e).len() == 1,
        spec_parse_next(Seq::empty(), event_blocks(e)[0]) == (Seq::<Seq<u8>>::empty(), Ok::<Option<EventView>, BlockError>(Some(e))),
{
    crate::bytes::lemma_power_256_8();
    lemma_kind_code_roundtrip(event_kind(e));
    match e {
        EventView::Ping { timestamp, payload } => {
            crate::bytes::lemma_le_bytes_len(timestamp as nat, 8);
            lemma_make_block_fields(0, payload as nat, le_bytes(timestamp as nat, 8));
            let b = event_blocks(e)[0];
            assert(b.subrange(10, 18) =~= le_bytes(timestamp as nat, 8));
            crate::bytes::lemma_le_roundtrip_fits(timestamp as nat, 8);
        },
        EventView::Pause => {
            lemma_make_block_fields(1, 0, Seq::empty());
        },
        EventView::Play => {
            lemma_make_block_fields(2, 0, Seq::empty());
        },
        EventView::Jump(t) => {
            lemma_make_block_fields(3, t as nat, Seq::empty());
        },
        EventView::RespondTransfer { size, transfer_code } => {
            let code = transfer_code.unwrap();
            let cb = code_bytes(code);
            lemma_make_block_fields(6, size as nat, cb);
            let b = event_blocks(e)[0];
            let bytes = b.subrange(10, 19);
            assert(bytes =~= cb);
            assert forall|i: int| 0 <= i < 9 implies (#[trigger] bytes[i]) as char == code[i] by {
                assert(bytes[i] == code[i] as u8);
            }
            assert(forall|i: int| 0 <= i < bytes.len() ==> is_alphanumeric(#[trigger] bytes[i] as char));
            assert(bytes.map_values(|x: u8| x as char) =~= code);
        },
        EventView::Shutdown => {
            let b = event_blocks(e)[0];
            assert(0xffu8 & 0x7f == 0x7fu8) by (bit_vector);
            assert(b[0] == 0xffu8);
        },
        _ => {},
    }
}

/// How the payloads of the first `m` blocks of a string line up with its bytes.
proof fn lemma_flat_string_blocks(code: u8, bytes: Seq<u8>, m: nat)
    requires
        m <= block_count_for(bytes.len()),
        bytes.len() < power(256, 8),
    ensures
        flat_payloads(string_blocks(code, bytes).take(m as int)) == if 22 * m <= bytes.len() {
            bytes.take((22 * m) as int)
        } else {
            bytes + zeros((22 * m - bytes.len()) as nat)
        },
    decreases m,
{
    let blocks = string_blocks(code, bytes);
    let len = bytes.len();
    if m == 0 {
        assert(blocks.take(0) =~= Seq::<Seq<u8>>::empty());
        assert(bytes.take(0) =~= Seq::<u8>::empty());
    } else {
        let k = (m - 1) as nat;
        lemma_flat_string_blocks(code, bytes, k);
        assert(blocks.take(m as int).drop_last() =~= blocks.take(k as int));
        assert(22 * k < len);
        let start = 22 * k;
        let end = if start + 22 <= len { start + 22 } else { len };
        let chunk = bytes.subrange(start as int, end as int);
        crate::bytes::lemma_power_256_8();
        lemma_make_block_fields(
            if k == 0 { code & 0x7f } else { code | 0x80 },
            if k == 0 { len } else { k },
            chunk,
        );
        assert(blocks[k as int] == string_block(code, bytes, k));
        if 22 * m <= len {
            assert(bytes.take(start as int) + chunk =~= bytes.take((22 * m) as int));
            assert(zeros(0) =~= Seq::<u8>::empty());
        } else {
            assert(bytes.take(start as int) + chunk + zeros((22 - chunk.len()) as nat) =~= bytes + zeros((22 * m - len) as nat));
        }
    }
}

/// Facts about block `k` of a string event.
proof fn lemma_string_block_fields(kind: RemoteEventKind, bytes: Seq<u8>, k: nat)
    requires
        kind_is_multiblock(kind),
        k < block_count_for(bytes.len()),
        bytes.len() < power(256, 8),
    ensures
        string_blocks(kind_code(kind), bytes)[k as int] == string_block(kind_code(kind), bytes, k),
        block_kind(string_block(kind_code(kind), bytes, k)) == Some(kind),
        block_is_append(string_block(kind_code(kind), bytes, k)) == (k > 0),
        block_count(string_block(kind_code(kind), bytes, k)) == if k == 0 { bytes.len() } else { k },
        string_block(kind_code(kind), bytes, k)[0] == if k == 0 { kind_code(kind) } else { kind_code(kind) | 0x80 },
{
    let code = kind_code(kind);
    lemma_kind_code_roundtrip(kind);
    let start = 22 * k;
    let end = if start + 22 <= bytes.len() { start + 22 } else { bytes.len() };
    crate::bytes::lemma_power_256_8();
    assert(k < power(256, 8));
    lemma_make_block_fields(
        if k == 0 { code & 0x7f } else { code | 0x80 },
        if k == 0 { bytes.len() } else { k },
        bytes.subrange(start as int, end as int),
    );
    assert(4u8 | 0x80 == 0x84u8) by (bit_vector);
    assert(5u8 | 0x80 == 0x85u8) by (bit_vector);
    assert(7u8 | 0x80 == 0x87u8) by (bit_vector);
    assert(0x84u8 & 0x80 != 0) by (bit_vector);
    assert(0x85u8 & 0x80 != 0) by (bit_vector);
    assert(0x87u8 & 0x80 != 0) by (bit_vector);
    assert(4u8 & 0x80 == 0) by (bit_vector);
    assert(5u8 & 0x80 == 0) by (bit_vector);
    assert(7u8 & 0x80 == 0) by (bit_vector);
}

/// Feeding the rest of a string event's blocks, after its first `m`, completes it.
proof fn lemma_string_feed(kind: RemoteEventKind, s: Seq<char>, e: EventView, m: nat)
    requires
        kind_is_multiblock(kind),
        string_event(kind, s) == Some(e),
        s.len() > 0,
        m < block_count_for(vstd::utf8::encode_utf8(s).len()),
        vstd::utf8::encode_utf8(s).len() < power(256, 8),
    ensures
        ({
            let blocks = string_blocks(kind_code(kind), vstd::utf8::encode_utf8(s));
            let n = blocks.len();
            feed(blocks.take(m as int), blocks.skip(m as int)) == (Seq::<Seq<u8>>::empty(), outcomes_ending_in((n - m) as nat, e))
        }),
    decreases block_count_for(vstd::utf8::encode_utf8(s).len()) - m,
{
    let bytes = vstd::utf8::encode_utf8(s);
    let code = kind_code(kind);
    let blocks = string_blocks(code, bytes);
    let n = blocks.len();
    let len = bytes.len();
    let buf = blocks.take(m as int);
    let rest = blocks.skip(m as int);
    lemma_string_block_fields(kind, bytes, m);
    lemma_string_block_fields(kind, bytes, 0);
    assert(rest[0] == blocks[m as int]);
    // taking in block m leaves the first m + 1 blocks to complete
    assert(buf.push(blocks[m as int]) =~= blocks.take((m + 1) as int));
    if m > 0 {
        assert(buf[0] == blocks[0]);
        assert(header_kind(buf[0]) == kind);
    } else {
        assert(blocks.take(1) =~= seq![blocks[0]]);
    }
    let after = blocks.take((m + 1) as int);
    assert(after[0] == blocks[0]);
    assert(block_count(after[0]) == len);
    let (b1, r1) = spec_parse_next(buf, rest[0]);
    assert((b1, r1) == spec_parse_buffer(after));
    assert(rest.drop_first() =~= blocks.skip((m + 1) as int));
    assert(rest.len() > 0);
    assert(feed(buf, rest) == ({
        let (b2, rs) = feed(b1, rest.drop_first());
        (b2, seq![r1] + rs)
    }));
    if (m + 1) * 22 < len {
        assert(b1 == after);
        assert(r1 == Ok::<Option<EventView>, BlockError>(None));
        lemma_string_feed(kind, s, e, m + 1);
        assert(outcomes_ending_in((n - m) as nat, e) =~= seq![r1] + outcomes_ending_in((n - (m + 1)) as nat, e));
    } else {
        assert(m + 1 == n);
        lemma_flat_string_blocks(code, bytes, n);
        assert(after =~= blocks.take(n as int));
        let total = flat_payloads(after);
        assert(total.take(len as int) =~= bytes);
        vstd::utf8::encode_utf8_valid_utf8(s);
        vstd::utf8::encode_utf8_decode_utf8(s);
        assert(header_kind(after[0]) == kind);
        assert(b1 == Seq::<Seq<u8>>::empty());
        assert(r1 == Ok::<Option<EventView>, BlockError>(Some(e)));
        assert(blocks.skip((m + 1) as int) =~= Seq::<Seq<u8>>::empty());
        assert(outcomes_ending_in((n - m) as nat, e) =~= seq![r1]);
        assert(seq![r1] + Seq::<ParseView>::empty() =~= seq![r1]);
    }
}

/// Reading back the blocks of an event with a fresh parser gives the event: every
/// block but the last yields nothing, the last yields the event, and the parser is
/// left empty. `BlockParser::parse_next` takes exactly one `spec_parse_next` step on
/// the parser's buffer, and `RemoteEvent::as_blocks` gives `event_blocks`, so feeding
/// the blocks of `as_blocks` to `parse_next` one by one from `BlockParser::new` gives
/// the outcomes stated here. This holds of every event but a string event with an empty string
/// (which has no blocks) and a transfer response whose code is missing, not
/// alphanumeric, or not made of one-byte characters; the string's UTF-8 length must
/// also fit the 64-bit count.
pub proof fn lemma_blocks_roundtrip(e: EventView)
    requires
        round_trips(e),
        event_string(e) matches Some(s) ==> vstd::utf8::encode_utf8(s).len() < power(256, 8),
    ensures
        feed(Seq::empty(), event_blocks(e)) == (Seq::<Seq<u8>>::empty(), outcomes_ending_in(event_blocks(e).len(), e)),
{
    let kind = event_kind(e);
    if kind_is_multiblock(kind) {
        let s = event_string(e).unwrap();
        let bytes = vstd::utf8::encode_utf8(s);
        vstd::utf8::encode_utf8_decode_utf8(s);
        assert(bytes.len() > 0) by {
            if bytes.len() == 0 {
                assert(bytes =~= Seq::<u8>::empty());
                assert(vstd::utf8::decode_utf8(Seq::<u8>::empty()) =~= Seq::<char>::empty());
            }
        }
        assert(string_event(kind, s) == Some(e));
        lemma_string_feed(kind, s, e, 0);
        let blocks = string_blocks(kind_code(kind), bytes);
        assert(event_blocks(e) == blocks);
        assert(blocks.take(0) =~= Seq::<Seq<u8>>::empty());
        assert(blocks.skip(0) =~= blocks);
    } else {
        lemma_single_roundtrip(e);
        let blocks = event_blocks(e);
        assert(blocks.drop_first() =~= Seq::<Seq<u8>>::empty());
        let r1 = Ok::<Option<EventView>, BlockError>(Some(e));
        assert(feed(Seq::<Seq<u8>>::empty(), blocks.drop_first()) == (Seq::<Seq<u8>>::empty(), Seq::<ParseView>::empty()));
        assert(seq![r1] + Seq::<ParseView>::empty() =~= seq![r1]);
        assert(outcomes_ending_in(1, e) =~= seq![r1]);
    }
}

} // verus!
