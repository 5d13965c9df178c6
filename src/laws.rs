use vstd::prelude::*;
use crate::counters::lemma_counters_merge_assoc;
use crate::data::{conn_view_map, conns_merge, host_traffic_map, merge_result, NetStatData};
use crate::ipdb::{load_v4, load_v6, Ipv4Info, Ipv6Info};
use crate::packet::{direction_of, PacketFrame};
use crate::socket::{ConnView, SocketConnection};
use crate::stat::{hosts_sum, traffic_tuple, NetStatStrage};
use crate::traffic::{frame_traffic, lemma_traffic_monoid, Direction};

verus! {

/// Bytes of the frames of `frames` that the local set `locals` classifies as `dir`.
pub open spec fn direction_bytes(frames: Seq<PacketFrame>, locals: Set<crate::addr::IpAddress>, dir: Direction) -> int
    decreases frames.len(),
{
    if frames.len() == 0 {
        0
    } else {
        direction_bytes(frames.drop_last(), locals, dir)
            + if direction_of(frames.last(), locals) == Some(dir) { frames.last().packet_len as int } else { 0 }
    }
}

/// Number of the frames of `frames` that `locals` classifies as `dir`.
pub open spec fn direction_packets(frames: Seq<PacketFrame>, locals: Set<crate::addr::IpAddress>, dir: Direction) -> int
    decreases frames.len(),
{
    if frames.len() == 0 {
        0
    } else {
        direction_packets(frames.drop_last(), locals, dir)
            + if direction_of(frames.last(), locals) == Some(dir) { 1int } else { 0 }
    }
}

proof fn lemma_direction_sums_grow(frames: Seq<PacketFrame>, locals: Set<crate::addr::IpAddress>, dir: Direction, i: int)
    requires
        0 <= i <= frames.len(),
    ensures
        0 <= direction_bytes(frames.subrange(0, i), locals, dir) <= direction_bytes(frames, locals, dir),
        0 <= direction_packets(frames.subrange(0, i), locals, dir) <= direction_packets(frames, locals, dir),
    decreases frames.len() - i,
{
    if i < frames.len() {
        lemma_direction_sums_grow(frames, locals, dir, i + 1);
        assert(frames.subrange(0, i + 1).drop_last() == frames.subrange(0, i));
        lemma_direction_sums_nonneg(frames.subrange(0, i), locals, dir);
    } else {
        assert(frames.subrange(0, i) == frames);
        lemma_direction_sums_nonneg(frames, locals, dir);
    }
}

proof fn lemma_direction_sums_nonneg(frames: Seq<PacketFrame>, locals: Set<crate::addr::IpAddress>, dir: Direction)
    ensures
        direction_bytes(frames, locals, dir) >= 0,
        direction_packets(frames, locals, dir) >= 0,
    decreases frames.len(),
{
    if frames.len() > 0 {
        lemma_direction_sums_nonneg(frames.drop_last(), locals, dir);
    }
}

/// Conservation: starting from zero totals, after `update` with each of
/// `frames` in turn (`stores[i + 1]` is `stores[i]` after `frames[i]`), the
/// ingress and egress totals are the sums of the ingress and egress frame
/// lengths and counts, provided those sums fit in `u64`.
pub proof fn lemma_conservation(stores: Seq<NetStatStrage>, frames: Seq<PacketFrame>)
    requires
        stores.len() == frames.len() + 1,
        traffic_tuple(stores[0].traffic) == (0int, 0int, 0int, 0int),
        forall|i: int| 0 <= i < frames.len() ==> (#[trigger] stores[i]).traffic_step(frames[i], stores[i + 1]),
        direction_bytes(frames, stores[0].local_set(), Direction::Ingress) <= u64::MAX,
        direction_bytes(frames, stores[0].local_set(), Direction::Egress) <= u64::MAX,
        direction_packets(frames, stores[0].local_set(), Direction::Ingress) <= u64::MAX,
        direction_packets(frames, stores[0].local_set(), Direction::Egress) <= u64::MAX,
    ensures
        stores.last().traffic.bytes_received == direction_bytes(frames, stores[0].local_set(), Direction::Ingress),
        stores.last().traffic.bytes_sent == direction_bytes(frames, stores[0].local_set(), Direction::Egress),
        stores.last().traffic.packet_received == direction_packets(frames, stores[0].local_set(), Direction::Ingress),
        stores.last().traffic.packet_sent == direction_packets(frames, stores[0].local_set(), Direction::Egress),
{
    lemma_conservation_prefix(stores, frames, frames.len() as int);
    assert(frames.subrange(0, frames.len() as int) == frames);
}

proof fn lemma_conservation_prefix(stores: Seq<NetStatStrage>, frames: Seq<PacketFrame>, i: int)
    requires
        stores.len() == frames.len() + 1,
        0 <= i <= frames.len(),
        traffic_tuple(stores[0].traffic) == (0int, 0int, 0int, 0int),
        forall|j: int| 0 <= j < frames.len() ==> (#[trigger] stores[j]).traffic_step(frames[j], stores[j + 1]),
        direction_bytes(frames, stores[0].local_set(), Direction::Ingress) <= u64::MAX,
        direction_bytes(frames, stores[0].local_set(), Direction::Egress) <= u64::MAX,
        direction_packets(frames, stores[0].local_set(), Direction::Ingress) <= u64::MAX,
        direction_packets(frames, stores[0].local_set(), Direction::Egress) <= u64::MAX,
    ensures
        stores[i].local_ips == stores[0].local_ips,
        stores[i].traffic.bytes_received == direction_bytes(frames.subrange(0, i), stores[0].local_set(), Direction::Ingress),
        stores[i].traffic.bytes_sent == direction_bytes(frames.subrange(0, i), stores[0].local_set(), Direction::Egress),
        stores[i].traffic.packet_received == direction_packets(frames.subrange(0, i), stores[0].local_set(), Direction::Ingress),
        stores[i].traffic.packet_sent == direction_packets(frames.subrange(0, i), stores[0].local_set(), Direction::Egress),
    decreases i,
{
    let locals = stores[0].local_set();
    if i > 0 {
        lemma_conservation_prefix(stores, frames, i - 1);
        let pre = frames.subrange(0, i - 1);
        let post = frames.subrange(0, i);
        assert(post.drop_last() == pre);
        assert(post.last() == frames[i - 1]);
        let s = stores[i - 1];
        assert(s.traffic_step(frames[i - 1], stores[i]));
        assert(s.local_set() == locals);
        lemma_direction_sums_grow(frames, locals, Direction::Ingress, i);
        lemma_direction_sums_grow(frames, locals, Direction::Egress, i);
        let d = direction_of(frames[i - 1], locals);
        if d.is_some() {
            lemma_traffic_monoid(s.traffic, frame_traffic(d.unwrap(), frames[i - 1].packet_len), frame_traffic(d.unwrap(), 0));
            assert(s.accepted(frames[i - 1]) == d);
        }
    } else {
        assert(frames.subrange(0, 0).len() == 0);
    }
}

/// Host sum: in a well-formed store the host counters add up to the totals.
pub proof fn lemma_host_sum(s: NetStatStrage)
    requires
        s.wf(),
    ensures
        hosts_sum(s.remote_hosts@) == traffic_tuple(s.traffic),
{
}

/// Merging connection views is associative.
pub proof fn lemma_conns_merge_assoc(
    a: Map<SocketConnection, ConnView>,
    b: Map<SocketConnection, ConnView>,
    c: Map<SocketConnection, ConnView>,
)
    ensures
        conns_merge(a, conns_merge(b, c)) == conns_merge(conns_merge(a, b), c),
{
    assert(conns_merge(a, conns_merge(b, c)) =~= conns_merge(conns_merge(a, b), c));
}

/// Merge associativity: `merge(a, merge(b, c))` and `merge(merge(a, b), c)`
/// agree on the totals, on the host keys and host counters, on the socket
/// and port counters, and on the connection keys with their status and process record.
pub proof fn lemma_merge_associative(
    a: NetStatData,
    b: NetStatData,
    c: NetStatData,
    bc: NetStatData,
    a_bc: NetStatData,
    ab: NetStatData,
    ab_c: NetStatData,
)
    requires
        merge_result(bc, b, c),
        merge_result(a_bc, a, bc),
        merge_result(ab, a, b),
        merge_result(ab_c, ab, c),
    ensures
        a_bc.traffic == ab_c.traffic,
        a_bc.hosts_view().dom() == ab_c.hosts_view().dom(),
        host_traffic_map(a_bc.hosts_view()) == host_traffic_map(ab_c.hosts_view()),
        a_bc.sockets_view() == ab_c.sockets_view(),
        a_bc.local_ports_view() == ab_c.local_ports_view(),
        conn_view_map(a_bc.connections_view()) == conn_view_map(ab_c.connections_view()),
        a_bc.connections_view().dom() == ab_c.connections_view().dom(),
{
    lemma_traffic_monoid(a.traffic, b.traffic, c.traffic);
    lemma_counters_merge_assoc(host_traffic_map(a.hosts_view()), host_traffic_map(b.hosts_view()), host_traffic_map(c.hosts_view()));
    lemma_counters_merge_assoc(a.sockets_view(), b.sockets_view(), c.sockets_view());
    lemma_counters_merge_assoc(a.local_ports_view(), b.local_ports_view(), c.local_ports_view());
    lemma_conns_merge_assoc(
        conn_view_map(a.connections_view()),
        conn_view_map(b.connections_view()),
        conn_view_map(c.connections_view()),
    );
    assert(a_bc.hosts_view().dom() =~= ab_c.hosts_view().dom());
    assert(a_bc.connections_view().dom() =~= ab_c.connections_view().dom()) by {
        assert forall|k: SocketConnection| a_bc.connections_view().contains_key(k) <==> ab_c.connections_view().contains_key(k) by {
            assert(conn_view_map(a_bc.connections_view()).contains_key(k) == a_bc.connections_view().contains_key(k));
            assert(conn_view_map(ab_c.connections_view()).contains_key(k) == ab_c.connections_view().contains_key(k));
        }
    }
}

/// Direction discrimination: a frame whose source and destination are both
/// in the local set, or both outside it, gets no direction, so `update`
/// drops it.
pub proof fn lemma_frame_dropped(frame: PacketFrame, locals: Set<crate::addr::IpAddress>)
    requires
        frame.ip.is_some() ==> (locals.contains(frame.ip.unwrap().source) == locals.contains(frame.ip.unwrap().destination)),
    ensures
        direction_of(frame, locals).is_none(),
{
}

/// Records whose address ranges are ordered and pairwise disjoint.
pub open spec fn v4_records_disjoint(recs: Seq<Ipv4Info>) -> bool {
    &&& forall|i: int| 0 <= i < recs.len() ==> (#[trigger] recs[i]).ip_from <= recs[i].ip_to
    &&& forall|i: int, j: int| 0 <= i < j < recs.len() ==> recs[i].ip_to < recs[j].ip_from || recs[j].ip_to < recs[i].ip_from
}

/// Range lookup: after loading disjoint records into an empty map, every
/// address of a record's range maps to that record's ASN and country code,
/// and an address that no range covers is absent.
pub proof fn lemma_v4_range_lookup(recs: Seq<Ipv4Info>, ip: u32)
    requires
        v4_records_disjoint(recs),
    ensures
        forall|i: int| 0 <= i < recs.len() && (#[trigger] recs[i]).ip_from <= ip <= recs[i].ip_to ==> {
            &&& load_v4(Map::empty(), recs).contains_key(ip)
            &&& load_v4(Map::empty(), recs)[ip] == (recs[i].asn, recs[i].country_code@)
        },
        (forall|i: int| 0 <= i < recs.len() ==> !((#[trigger] recs[i]).ip_from <= ip <= recs[i].ip_to))
            ==> !load_v4(Map::empty(), recs).contains_key(ip),
    decreases recs.len(),
{
    if recs.len() > 0 {
        let pre = recs.drop_last();
        assert(v4_records_disjoint(pre));
        lemma_v4_range_lookup(pre, ip);
        let last = recs.last();
        assert forall|i: int| 0 <= i < recs.len() && (#[trigger] recs[i]).ip_from <= ip <= recs[i].ip_to implies {
            &&& load_v4(Map::empty(), recs).contains_key(ip)
            &&& load_v4(Map::empty(), recs)[ip] == (recs[i].asn, recs[i].country_code@)
        } by {
            if i < recs.len() - 1 {
                assert(pre[i] == recs[i]);
                assert(recs[i].ip_to < last.ip_from || last.ip_to < recs[i].ip_from);
            }
        }
        if forall|i: int| 0 <= i < recs.len() ==> !((#[trigger] recs[i]).ip_from <= ip <= recs[i].ip_to) {
            assert forall|i: int| 0 <= i < pre.len() implies !((#[trigger] pre[i]).ip_from <= ip <= pre[i].ip_to) by {
                assert(pre[i] == recs[i]);
            }
            assert(!(last.ip_from <= ip <= last.ip_to)) by {
                assert(recs[recs.len() - 1] == last);
            }
        }
    }
}

/// Records whose address ranges are ordered and pairwise disjoint.
pub open spec fn v6_records_disjoint(recs: Seq<Ipv6Info>) -> bool {
    &&& forall|i: int| 0 <= i < recs.len() ==> (#[trigger] recs[i]).ip_from <= recs[i].ip_to
    &&& forall|i: int, j: int| 0 <= i < j < recs.len() ==> recs[i].ip_to < recs[j].ip_from || recs[j].ip_to < recs[i].ip_from
}

/// Range lookup for IPv6, as for IPv4.
pub proof fn lemma_v6_range_lookup(recs: Seq<Ipv6Info>, ip: u128)
    requires
        v6_records_disjoint(recs),
    ensures
        forall|i: int| 0 <= i < recs.len() && (#[trigger] recs[i]).ip_from <= ip <= recs[i].ip_to ==> {
            &&& load_v6(Map::empty(), recs).contains_key(ip)
            &&& load_v6(Map::empty(), recs)[ip] == (recs[i].asn, recs[i].country_code@)
        },
        (forall|i: int| 0 <= i < recs.len() ==> !((#[trigger] recs[i]).ip_from <= ip <= recs[i].ip_to))
            ==> !load_v6(Map::empty(), recs).contains_key(ip),
    decreases recs.len(),
{
    if recs.len() > 0 {
        let pre = recs.drop_last();
        assert(v6_records_disjoint(pre));
        lemma_v6_range_lookup(pre, ip);
        let last = recs.last();
        assert forall|i: int| 0 <= i < recs.len() && (#[trigger] recs[i]).ip_from <= ip <= recs[i].ip_to implies {
            &&& load_v6(Map::empty(), recs).contains_key(ip)
            &&& load_v6(Map::empty(), recs)[ip] == (recs[i].asn, recs[i].country_code@)
        } by {
            if i < recs.len() - 1 {
                assert(pre[i] == recs[i]);
                assert(recs[i].ip_to < last.ip_from || last.ip_to < recs[i].ip_from);
            }
        }
        if forall|i: int| 0 <= i < recs.len() ==> !((#[trigger] recs[i]).ip_from <= ip <= recs[i].ip_to) {
            assert forall|i: int| 0 <= i < pre.len() implies !((#[trigger] pre[i]).ip_from <= ip <= pre[i].ip_to) by {
                assert(pre[i] == recs[i]);
            }
            assert(!(last.ip_from <= ip <= last.ip_to)) by {
                assert(recs[recs.len() - 1] == last);
            }
        }
    }
}

} // verus!
