//! Peer connections: friend codes, event groups, message blocks, and what one turn of the
//! connection loop decides.
//!
//! On each turn the connection loop gathers the events of the local application into one
//! group and the events of each peer into another. It orders the peers by rank, then
//! reconciles: the local group is rectified against each peer's in turn and sent to the
//! peers; the peers' groups are merged into one that is handed to the local application.
pub mod eventgroup;
pub mod ipcodec;
pub mod messages;

use vstd::prelude::*;
use crate::communication::eventgroup::{
    addr_rank, group_cascade, group_events, group_rectify, empty_group, outranks, GroupView,
    PlayerEventGroup,
};
use crate::events::{BlockError, BlockParser, RawBlock, RemoteEvent};
use crate::net::{addr_port, NetAddr, NetAddrV4, NetAddrV6};

verus! {

broadcast use vstd::seq_lib::group_to_multiset_ensures;

/// Where an element goes when it joins a list kept in rank order: after every element of
/// no greater rank, the latest such first.
pub open spec fn insert_pos<T>(s: Seq<(NetAddr, T)>, x: (NetAddr, T)) -> int
    decreases s.len(),
{
    if s.len() == 0 {
        0
    } else if addr_rank(s.last().0) <= addr_rank(x.0) {
        s.len() as int
    } else {
        insert_pos(s.drop_last(), x)
    }
}

/// The list in rank order, elements of equal rank keeping their order.
pub open spec fn sort_by_rank<T>(s: Seq<(NetAddr, T)>) -> Seq<(NetAddr, T)>
    decreases s.len(),
{
    if s.len() == 0 {
        s
    } else {
        let sorted = sort_by_rank(s.drop_last());
        sorted.insert(insert_pos(sorted, s.last()), s.last())
    }
}

/// The list is in rank order.
pub open spec fn rank_sorted<T>(s: Seq<(NetAddr, T)>) -> bool {
    forall|i: int, j: int| 0 <= i < j < s.len() ==> addr_rank(#[trigger] s[i].0) <= addr_rank(#[trigger] s[j].0)
}

proof fn lemma_insert_pos_range<T>(s: Seq<(NetAddr, T)>, x: (NetAddr, T))
    ensures
        0 <= insert_pos(s, x) <= s.len(),
        forall|i: int| insert_pos(s, x) <= i < s.len() ==> addr_rank(#[trigger] s[i].0) > addr_rank(x.0),
        insert_pos(s, x) > 0 ==> addr_rank(s[insert_pos(s, x) - 1].0) <= addr_rank(x.0),
    decreases s.len(),
{
    if s.len() > 0 && addr_rank(s.last().0) > addr_rank(x.0) {
        lemma_insert_pos_range(s.drop_last(), x);
        assert forall|i: int| insert_pos(s, x) <= i < s.len() implies addr_rank(#[trigger] s[i].0) > addr_rank(
            x.0,
        ) by {
            if i < s.len() - 1 {
                assert(s.drop_last()[i] == s[i]);
            }
        }
    }
}

/// Inserting at its place keeps a sorted list sorted.
proof fn lemma_insert_sorted<T>(s: Seq<(NetAddr, T)>, x: (NetAddr, T))
    requires
        rank_sorted(s),
    ensures
        rank_sorted(s.insert(insert_pos(s, x), x)),
{
    lemma_insert_pos_range(s, x);
    let p = insert_pos(s, x);
    let r = s.insert(p, x);
    assert forall|i: int, j: int| 0 <= i < j < r.len() implies addr_rank(#[trigger] r[i].0) <= addr_rank(
        #[trigger] r[j].0,
    ) by {
        if i < p && j == p {
            assert(addr_rank(s[i].0) <= addr_rank(s[p - 1].0));
        } else if i == p && j > p {
            assert(r[j] == s[j - 1]);
        } else if i < p && j > p {
            assert(r[j] == s[j - 1]);
        } else if i > p {
            assert(r[i] == s[i - 1] && r[j] == s[j - 1]);
        }
    }
}

/// Sorting by rank gives a sorted list with the same elements.
pub proof fn lemma_sort_by_rank<T>(s: Seq<(NetAddr, T)>)
    ensures
        rank_sorted(sort_by_rank(s)),
        sort_by_rank(s).to_multiset() == s.to_multiset(),
    decreases s.len(),
{
    if s.len() > 0 {
        let rest = s.drop_last();
        lemma_sort_by_rank(rest);
        let sorted = sort_by_rank(rest);
        lemma_insert_sorted(sorted, s.last());
        lemma_insert_pos_range(sorted, s.last());
        let p = insert_pos(sorted, s.last());
        let r = sorted.insert(p, s.last());
        assert(r.remove(p) =~= sorted);
        assert(r.to_multiset().remove(s.last()) == sorted.to_multiset());
        assert(r.to_multiset().count(s.last()) > 0) by {
            assert(r[p] == s.last());
        }
        assert(s =~= rest.push(s.last()));
        assert(r.to_multiset() =~= sorted.to_multiset().insert(s.last()));
    }
}

/// The groups of the peers in rank order, groups of equal rank keeping their order.
pub fn sort_by_priority(groups: Vec<(NetAddr, PlayerEventGroup)>) -> (r: Vec<(NetAddr, PlayerEventGroup)>)
    ensures
        r@ == sort_by_rank(groups@),
{
    let ghost all = groups@;
    let n = groups.len();
    let mut rest = groups;
    let mut out: Vec<(NetAddr, PlayerEventGroup)> = Vec::new();
    let mut i: usize = 0;
    while rest.len() > 0
        invariant
            i + rest@.len() == all.len(),
            all.len() == n,
            rest@ == all.subrange(i as int, all.len() as int),
            out@ == sort_by_rank(all.take(i as int)),
        decreases rest@.len(),
    {
        let item = rest.remove(0);
        let ghost before = out@;
        let mut p: usize = out.len();
        assert(before.take(p as int) =~= before);
        while p > 0 && outranks(out[p - 1].0, item.0)
            invariant
                p <= out@.len(),
                out@ == before,
                insert_pos(before, item) == insert_pos(before.take(p as int), item),
            decreases p,
        {
            proof {
                assert(before.take(p as int).drop_last() =~= before.take(p - 1));
            }
            p = p - 1;
        }
        proof {
            assert(insert_pos(before.take(p as int), item) == p);
            assert(all.take(i + 1).drop_last() =~= all.take(i as int));
        }
        out.insert(p, item);
        i = i + 1;
    }
    assert(all.take(i as int) =~= all);
    out
}

/// The groups of a list of peers, as plain values.
pub open spec fn groups_view(s: Seq<(NetAddr, PlayerEventGroup)>) -> Seq<(NetAddr, GroupView)> {
    s.map_values(|p: (NetAddr, PlayerEventGroup)| (p.0, p.1@))
}

/// One peer's group taken into account: the peer's group is rectified against the local
/// one, the local one against it, and the result merged into the peers' group.
pub open spec fn reconcile_step(acc: (GroupView, GroupView), me: NetAddr, peer: (NetAddr, GroupView)) -> (GroupView, GroupView) {
    let (own, merged) = acc;
    let (addr, group) = peer;
    let group2 = group_rectify(group, addr, own, me);
    (group_rectify(own, me, group2, addr), group_cascade(merged, me, group2, addr))
}

/// The peers' groups taken into account one after the other.
pub open spec fn reconcile_all(acc: (GroupView, GroupView), me: NetAddr, peers: Seq<(NetAddr, GroupView)>) -> (GroupView, GroupView)
    decreases peers.len(),
{
    if peers.len() == 0 {
        acc
    } else {
        reconcile_step(reconcile_all(acc, me, peers.drop_last()), me, peers.last())
    }
}

/// The address just below `a`: the same host, the port one lower (an IPv6 address
/// without flow label or scope).
pub open spec fn port_below(a: NetAddr) -> NetAddr {
    match a {
        NetAddr::V4(v) => NetAddr::V4(NetAddrV4 { ip: v.ip, port: (v.port - 1) as u16 }),
        NetAddr::V6(v) => NetAddr::V6(NetAddrV6 { ip: v.ip, port: (v.port - 1) as u16, flowinfo: 0, scope_id: 0 }),
    }
}

/// What one turn decides, from the local group, the local address and the peers' groups
/// in rank order: the group to send to the peers, and the group to hand to the local
/// application. The peers' merged group starts from the first peer's group and is, at
/// the end, rectified against the local group as if it came from just below the local
/// address.
pub open spec fn reconcile(own: GroupView, me: NetAddr, peers: Seq<(NetAddr, GroupView)>) -> (GroupView, GroupView) {
    let start = if peers.len() > 0 {
        peers[0].1
    } else {
        empty_group()
    };
    let (sent, merged) = reconcile_all((own, start), me, peers);
    (sent, group_rectify(merged, port_below(me), sent, me))
}

/// A peer alone sends its own group as it is and hands nothing to its application.
pub proof fn lemma_reconcile_alone(own: GroupView, me: NetAddr)
    ensures
        reconcile(own, me, Seq::empty()).0 == own,
        group_events(reconcile(own, me, Seq::empty()).1) == Seq::<RemoteEvent>::empty(),
{
    let delivered = reconcile(own, me, Seq::empty()).1;
    assert(delivered.media == Seq::<RemoteEvent>::empty());
    assert(group_events(delivered) =~= Seq::<RemoteEvent>::empty());
}

/// The address just below `a`.
fn address_below(a: NetAddr) -> (r: NetAddr)
    requires
        addr_port(a) > 0,
    ensures
        r == port_below(a),
{
    match a {
        NetAddr::V4(v) => NetAddr::V4(NetAddrV4 { ip: v.ip, port: v.port - 1 }),
        NetAddr::V6(v) => NetAddr::V6(NetAddrV6 { ip: v.ip, port: v.port - 1, flowinfo: 0, scope_id: 0 }),
    }
}

/// One turn of reconciliation, as `reconcile` describes it, the peers' groups being given
/// in any order. Returns the group to send to the peers and the group to hand to the
/// local application.
pub fn reconcile_groups(
    own: PlayerEventGroup,
    me: NetAddr,
    peers: Vec<(NetAddr, PlayerEventGroup)>,
) -> (r: (PlayerEventGroup, PlayerEventGroup))
    requires
        addr_port(me) > 0,
    ensures
        (r.0@, r.1@) == reconcile(own@, me, groups_view(sort_by_rank(peers@))),
{
    let sorted = sort_by_priority(peers);
    let ghost all = groups_view(sorted@);
    let n = sorted.len();
    let mut merged = if n > 0 {
        sorted[0].1.clone()
    } else {
        PlayerEventGroup::new()
    };
    let ghost start = merged@;
    let mut own = own;
    let ghost own0 = own@;
    let mut rest = sorted;
    let mut i: usize = 0;
    while rest.len() > 0
        invariant
            i + rest@.len() == all.len(),
            all.len() == n,
            groups_view(rest@) == all.subrange(i as int, all.len() as int),
            (own@, merged@) == reconcile_all((own0, start), me, all.take(i as int)),
        decreases rest@.len(),
    {
        let ghost before = rest@;
        let (addr, group) = rest.remove(0);
        proof {
            assert(groups_view(rest@) =~= groups_view(before).drop_first());
            assert(groups_view(before)[0] == (addr, group@));
            assert(all.subrange(i as int, all.len() as int)[0] == all[i as int]);
            assert(all[i as int] == (addr, group@));
            assert(all.take(i + 1).drop_last() =~= all.take(i as int));
        }
        let group = group.rectify(addr, &own, me);
        own = own.rectify(me, &group, addr);
        merged = merged.cascade(me, &group, addr);
        i = i + 1;
    }
    assert(all.take(i as int) =~= all);
    let below = address_below(me);
    let merged = merged.rectify(below, &own, me);
    (own, merged)
}

/// Reads one connection's bytes and turns them into events, a block at a time.
pub struct MessageBuffer {
    parser: BlockParser,
    bytes: [u8; 32],
    bytes_read: usize,
}

impl MessageBuffer {
    /// Nothing read yet.
    pub fn new() -> (r: MessageBuffer)
        ensures
            r.bytes_read() == 0,
            r.parser_buffered() == Seq::<Seq<u8>>::empty(),
    {
        MessageBuffer { parser: BlockParser::new(), bytes: [0; 32], bytes_read: 0 }
    }

    /// How many bytes of the current block were read.
    pub closed spec fn bytes_read(&self) -> nat {
        self.bytes_read as nat
    }

    /// The bytes of the current block read so far.
    pub closed spec fn pending(&self) -> Seq<u8> {
        self.bytes@.take(self.bytes_read as int)
    }

    /// The blocks the parser holds of an event that is not complete yet.
    pub closed spec fn parser_buffered(&self) -> Seq<Seq<u8>> {
        self.parser.buffered()
    }

    /// The buffer is consistent: fewer than 32 bytes of a block are pending.
    pub closed spec fn wf(&self) -> bool {
        self.bytes_read < 32
    }

    /// How many bytes the current block still needs.
    pub fn empty_space(&self) -> (r: usize)
        requires
            self.wf(),
        ensures
            r == 32 - self.bytes_read(),
            r > 0,
    {
        32 - self.bytes_read
    }

    /// Takes bytes read from the connection, at most as many as the current block still
    /// needs. When the block is complete it is handed to the parser and the next block
    /// starts; otherwise nothing comes out.
    pub fn fill(&mut self, data: &[u8]) -> (r: Result<Option<RemoteEvent>, BlockError>)
        requires
            old(self).wf(),
            data@.len() <= 32 - old(self).bytes_read(),
        ensures
            final(self).wf(),
            old(self).bytes_read() + data@.len() < 32 ==> {
                &&& r == Ok::<Option<RemoteEvent>, BlockError>(None)
                &&& final(self).pending() == old(self).pending() + data@
                &&& final(self).parser_buffered() == old(self).parser_buffered()
            },
            old(self).bytes_read() + data@.len() == 32 ==> {
                &&& final(self).bytes_read() == 0
                &&& (final(self).parser_buffered(), crate::events::result_view(r))
                    == crate::events::spec_parse_next(
                    old(self).parser_buffered(),
                    old(self).pending() + data@,
                )
            },
    {
        let start = self.bytes_read;
        let n = data.len();
        let mut k: usize = 0;
        while k < n
            invariant
                start == old(self).bytes_read,
                start + n <= 32,
                n == data@.len(),
                k <= n,
                self.bytes_read == start,
                self.parser == old(self).parser,
                forall|j: int| 0 <= j < 32 ==> #[trigger] self.bytes@[j] == if start <= j < start + k {
                    data@[j - start]
                } else {
                    old(self).bytes@[j]
                },
            decreases n - k,
        {
            self.bytes[start + k] = data[k];
            k = k + 1;
        }
        self.bytes_read = start + n;
        assert(self.bytes@.take(self.bytes_read as int) =~= old(self).pending() + data@);
        if self.bytes_read >= 32 {
            assert(self.bytes@ =~= old(self).pending() + data@);
            self.bytes_read = 0;
            let block = RawBlock::from_data(self.bytes);
            self.bytes = [0; 32];
            self.parser.parse_next(block)
        } else {
            Ok(None)
        }
    }
}

} // verus!
