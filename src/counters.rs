use vstd::prelude::*;
use crate::table::find_key;
use crate::socket::{PortInfo, ProtocolSocketAddress};
use crate::table::{keys_unique, lemma_table_absent, lemma_table_get, lemma_table_push, lemma_table_update, table_view};
use crate::traffic::{lemma_traffic_monoid, traffic_add, zero_traffic, TrafficInfo};

verus! {

/// The counters of `k` in `m`, zero where `k` is absent.
pub open spec fn counters_at<K>(m: Map<K, TrafficInfo>, k: K) -> TrafficInfo {
    if m.contains_key(k) {
        m[k]
    } else {
        zero_traffic()
    }
}

/// `m` with `t` added to the counters of `k` (created at zero if absent).
pub open spec fn counters_add<K>(m: Map<K, TrafficInfo>, k: K, t: TrafficInfo) -> Map<K, TrafficInfo> {
    m.insert(k, traffic_add(counters_at(m, k), t))
}

/// Keywise sum of two counter maps over the union of their keys.
pub open spec fn counters_merge<K>(a: Map<K, TrafficInfo>, b: Map<K, TrafficInfo>) -> Map<K, TrafficInfo> {
    Map::new(
        |k: K| a.contains_key(k) || b.contains_key(k),
        |k: K| traffic_add(counters_at(a, k), counters_at(b, k)),
    )
}

/// Merging counter maps is associative.
pub proof fn lemma_counters_merge_assoc<K>(a: Map<K, TrafficInfo>, b: Map<K, TrafficInfo>, c: Map<K, TrafficInfo>)
    ensures
        counters_merge(a, counters_merge(b, c)) == counters_merge(counters_merge(a, b), c),
{
    assert forall|k: K| #![auto] counters_merge(a, counters_merge(b, c)).contains_key(k) ==>
        counters_merge(a, counters_merge(b, c))[k] == counters_merge(counters_merge(a, b), c)[k] by {
        lemma_traffic_monoid(counters_at(a, k), counters_at(b, k), counters_at(c, k));
        lemma_traffic_monoid(counters_at(a, k), zero_traffic(), zero_traffic());
        lemma_traffic_monoid(counters_at(b, k), zero_traffic(), zero_traffic());
        lemma_traffic_monoid(zero_traffic(), counters_at(c, k), zero_traffic());
    }
    assert(counters_merge(a, counters_merge(b, c)) =~= counters_merge(counters_merge(a, b), c));
}

proof fn lemma_merge_step<K>(a: Map<K, TrafficInfo>, s: Seq<(K, TrafficInfo)>, j: int)
    requires
        keys_unique(s),
        0 <= j < s.len(),
    ensures
        counters_merge(a, table_view(s.subrange(0, j + 1)))
            == counters_add(counters_merge(a, table_view(s.subrange(0, j))), s[j].0, s[j].1),
{
    let p = s.subrange(0, j);
    let q = s.subrange(0, j + 1);
    assert(q.drop_last() == p);
    assert forall|i: int| 0 <= i < p.len() implies p[i].0 != s[j].0 by {
        assert(p[i] == s[i]);
    }
    lemma_table_absent(p, s[j].0);
    let lhs = counters_merge(a, table_view(q));
    let rhs = counters_add(counters_merge(a, table_view(p)), s[j].0, s[j].1);
    assert forall|k: K| #![auto] lhs.contains_key(k) ==> lhs[k] == rhs[k] by {
        lemma_traffic_monoid(counters_at(a, k), zero_traffic(), zero_traffic());
    }
    assert(lhs =~= rhs);
}



/// Adds `t` to the counters of port `k`.
pub fn add_port_traffic(s: &mut Vec<(PortInfo, TrafficInfo)>, k: PortInfo, t: TrafficInfo)
    requires
        keys_unique(old(s)@),
    ensures
        keys_unique(final(s)@),
        table_view(final(s)@) == counters_add(table_view(old(s)@), k, t),
{
    match find_key(s, &k, |x: &PortInfo, y: &PortInfo| -> (e: bool) ensures e == (*x == *y), { *x == *y }) {
        Some(i) => {
            let mut cur = s[i].1;
            proof { lemma_table_get(s@, i as int); }
            cur.add_traffic(&t);
            proof { lemma_table_update(s@, i as int, cur); }
            s.set(i, (k, cur));
        },
        None => {
            proof {
                lemma_table_push(s@, k, t);
                lemma_traffic_monoid(t, zero_traffic(), zero_traffic());
            }
            s.push((k, t));
        },
    }
}

/// Adds `t` to the counters of socket `k`.
pub fn add_socket_traffic(s: &mut Vec<(ProtocolSocketAddress, TrafficInfo)>, k: ProtocolSocketAddress, t: TrafficInfo)
    requires
        keys_unique(old(s)@),
    ensures
        keys_unique(final(s)@),
        table_view(final(s)@) == counters_add(table_view(old(s)@), k, t),
{
    match find_key(s, &k, |x: &ProtocolSocketAddress, y: &ProtocolSocketAddress| -> (e: bool) ensures e == (*x == *y), { *x == *y }) {
        Some(i) => {
            let mut cur = s[i].1;
            proof { lemma_table_get(s@, i as int); }
            cur.add_traffic(&t);
            proof { lemma_table_update(s@, i as int, cur); }
            s.set(i, (k, cur));
        },
        None => {
            proof {
                lemma_table_push(s@, k, t);
                lemma_traffic_monoid(t, zero_traffic(), zero_traffic());
            }
            s.push((k, t));
        },
    }
}

/// Adds every entry of `other` into `s`, keywise.
pub fn merge_port_tables(s: &mut Vec<(PortInfo, TrafficInfo)>, other: &Vec<(PortInfo, TrafficInfo)>)
    requires
        keys_unique(old(s)@),
        keys_unique(other@),
    ensures
        keys_unique(final(s)@),
        table_view(final(s)@) == counters_merge(table_view(old(s)@), table_view(other@)),
{
    let ghost a = table_view(s@);
    let mut j: usize = 0;
    proof {
        assert(other@.subrange(0, 0).len() == 0);
        assert(counters_merge(a, table_view(other@.subrange(0, 0))) =~= a) by {
            assert forall|k: PortInfo| #![auto] a.contains_key(k) implies
                counters_merge(a, table_view(other@.subrange(0, 0)))[k] == a[k] by {
                lemma_traffic_monoid(a[k], zero_traffic(), zero_traffic());
            }
        }
    }
    while j < other.len()
        invariant
            j <= other@.len(),
            keys_unique(other@),
            keys_unique(s@),
            table_view(s@) == counters_merge(a, table_view(other@.subrange(0, j as int))),
        decreases other@.len() - j,
    {
        proof { lemma_merge_step(a, other@, j as int); }
        add_port_traffic(s, other[j].0, other[j].1);
        j = j + 1;
    }
    assert(other@.subrange(0, other@.len() as int) == other@);
}

/// Adds every entry of `other` into `s`, keywise.
pub fn merge_socket_tables(s: &mut Vec<(ProtocolSocketAddress, TrafficInfo)>, other: &Vec<(ProtocolSocketAddress, TrafficInfo)>)
    requires
        keys_unique(old(s)@),
        keys_unique(other@),
    ensures
        keys_unique(final(s)@),
        table_view(final(s)@) == counters_merge(table_view(old(s)@), table_view(other@)),
{
    let ghost a = table_view(s@);
    let mut j: usize = 0;
    proof {
        assert(other@.subrange(0, 0).len() == 0);
        assert(counters_merge(a, table_view(other@.subrange(0, 0))) =~= a) by {
            assert forall|k: ProtocolSocketAddress| #![auto] a.contains_key(k) implies
                counters_merge(a, table_view(other@.subrange(0, 0)))[k] == a[k] by {
                lemma_traffic_monoid(a[k], zero_traffic(), zero_traffic());
            }
        }
    }
    while j < other.len()
        invariant
            j <= other@.len(),
            keys_unique(other@),
            keys_unique(s@),
            table_view(s@) == counters_merge(a, table_view(other@.subrange(0, j as int))),
        decreases other@.len() - j,
    {
        proof { lemma_merge_step(a, other@, j as int); }
        add_socket_traffic(s, other[j].0, other[j].1);
        j = j + 1;
    }
    assert(other@.subrange(0, other@.len() as int) == other@);
}

/// The counters of port `k`, if present.
pub fn port_traffic(s: &Vec<(PortInfo, TrafficInfo)>, k: PortInfo) -> (r: Option<TrafficInfo>)
    requires
        keys_unique(s@),
    ensures
        r == (if table_view(s@).contains_key(k) { Some(table_view(s@)[k]) } else { None::<TrafficInfo> }),
{
    match find_key(s, &k, |x: &PortInfo, y: &PortInfo| -> (e: bool) ensures e == (*x == *y), { *x == *y }) {
        Some(i) => {
            proof { lemma_table_get(s@, i as int); }
            Some(s[i].1)
        },
        None => {
            proof { lemma_table_absent(s@, k); }
            None
        },
    }
}

/// The counters of socket `k`, if present.
pub fn socket_traffic(s: &Vec<(ProtocolSocketAddress, TrafficInfo)>, k: ProtocolSocketAddress) -> (r: Option<TrafficInfo>)
    requires
        keys_unique(s@),
    ensures
        r == (if table_view(s@).contains_key(k) { Some(table_view(s@)[k]) } else { None::<TrafficInfo> }),
{
    match find_key(s, &k, |x: &ProtocolSocketAddress, y: &ProtocolSocketAddress| -> (e: bool) ensures e == (*x == *y), { *x == *y }) {
        Some(i) => {
            proof { lemma_table_get(s@, i as int); }
            Some(s[i].1)
        },
        None => {
            proof { lemma_table_absent(s@, k); }
            None
        },
    }
}

} // verus!
