use vstd::prelude::*;
use crate::table::find_key;
use crate::addr::IpAddress;
use crate::counters::{counters_merge, merge_port_tables, merge_socket_tables};
use crate::host::{first_nonempty, first_nonzero, later_text, RemoteHostInfo};
use crate::socket::{conn_merge, conn_view, ConnView, PortInfo, ProtocolSocketAddress, SocketConnection, SocketConnectionInfo};
use crate::table::{keys_unique, lemma_table_get, lemma_table_push, lemma_table_update, table_view};
use crate::traffic::{traffic_add, zero_traffic, TrafficInfo};

verus! {

/// A self-contained copy of the store's data fields, as readers get it.
///
/// Like the store, it holds its maps as entry lists with unique keys: for a
/// `HashMap` keyed by a struct with derived `Eq` and `Hash` Verus proves
/// nothing about lookups.
#[derive(Debug, Clone)]
pub struct NetStatData {
    pub if_index: u32,
    pub if_name: String,
    pub traffic: TrafficInfo,
    pub remote_hosts: Vec<(IpAddress, RemoteHostInfo)>,
    pub sockets: Vec<(ProtocolSocketAddress, TrafficInfo)>,
    pub local_ports: Vec<(PortInfo, TrafficInfo)>,
    pub connections: Vec<(SocketConnection, SocketConnectionInfo)>,
}

/// Every host entry is keyed by its own address and is well formed.
pub open spec fn hosts_wf(s: Seq<(IpAddress, RemoteHostInfo)>) -> bool {
    &&& keys_unique(s)
    &&& forall|i: int| 0 <= i < s.len() ==> (#[trigger] s[i]).0 == s[i].1.ip_addr && s[i].1.wf()
}

/// Host traffic per address.
pub open spec fn host_traffic_map(m: Map<IpAddress, RemoteHostInfo>) -> Map<IpAddress, TrafficInfo> {
    Map::new(|k: IpAddress| m.contains_key(k), |k: IpAddress| m[k].traffic_info)
}

/// Connection status and process record per key.
pub open spec fn conn_view_map(m: Map<SocketConnection, SocketConnectionInfo>) -> Map<SocketConnection, ConnView> {
    Map::new(|k: SocketConnection| m.contains_key(k), |k: SocketConnection| conn_view(m[k]))
}

/// Keywise merge of connection views over the union of keys.
pub open spec fn conns_merge(
    a: Map<SocketConnection, ConnView>,
    b: Map<SocketConnection, ConnView>,
) -> Map<SocketConnection, ConnView> {
    Map::new(
        |k: SocketConnection| a.contains_key(k) || b.contains_key(k),
        |k: SocketConnection| if a.contains_key(k) && b.contains_key(k) {
            conn_merge(a[k], b[k])
        } else if a.contains_key(k) {
            a[k]
        } else {
            b[k]
        },
    )
}

/// `n` is the entity-level merge of hosts `a` and `b` (same address).
pub open spec fn host_merged(n: RemoteHostInfo, a: RemoteHostInfo, b: RemoteHostInfo) -> bool {
    &&& n.ip_addr == a.ip_addr
    &&& n.traffic_info == traffic_add(a.traffic_info, b.traffic_info)
    &&& n.ports_view() == counters_merge(a.ports_view(), b.ports_view())
    &&& n.mac_addr@ == first_nonempty(a.mac_addr@, b.mac_addr@)
    &&& n.hostname@ == first_nonempty(a.hostname@, b.hostname@)
    &&& n.country_code@ == first_nonempty(a.country_code@, b.country_code@)
    &&& n.country_name@ == first_nonempty(a.country_name@, b.country_name@)
    &&& n.as_name@ == first_nonempty(a.as_name@, b.as_name@)
    &&& n.asn == first_nonzero(a.asn, b.asn)
    &&& n.first_seen@ == first_nonempty(a.first_seen@, b.first_seen@)
    &&& n.updated_at@ == later_text(a.updated_at@, b.updated_at@)
}

/// `n` is the keywise host merge of `a` and `b`.
pub open spec fn hosts_merged(
    n: Map<IpAddress, RemoteHostInfo>,
    a: Map<IpAddress, RemoteHostInfo>,
    b: Map<IpAddress, RemoteHostInfo>,
) -> bool {
    &&& forall|k: IpAddress| #[trigger] n.contains_key(k) <==> a.contains_key(k) || b.contains_key(k)
    &&& forall|k: IpAddress| #[trigger] n.contains_key(k) ==> {
        if a.contains_key(k) && b.contains_key(k) {
            host_merged(n[k], a[k], b[k])
        } else if a.contains_key(k) {
            n[k] == a[k]
        } else {
            n[k] == b[k]
        }
    }
}

/// `n` is what merging `b` into `a` gives: the interface of `b`, summed
/// totals, keywise host, socket, port and connection merges.
pub open spec fn merge_result(n: NetStatData, a: NetStatData, b: NetStatData) -> bool {
    &&& n.if_index == b.if_index
    &&& n.if_name == b.if_name
    &&& n.traffic == traffic_add(a.traffic, b.traffic)
    &&& hosts_merged(n.hosts_view(), a.hosts_view(), b.hosts_view())
    &&& host_traffic_map(n.hosts_view()) == counters_merge(host_traffic_map(a.hosts_view()), host_traffic_map(b.hosts_view()))
    &&& n.sockets_view() == counters_merge(a.sockets_view(), b.sockets_view())
    &&& n.local_ports_view() == counters_merge(a.local_ports_view(), b.local_ports_view())
    &&& conn_view_map(n.connections_view()) == conns_merge(conn_view_map(a.connections_view()), conn_view_map(b.connections_view()))
}

impl NetStatData {
    pub open spec fn wf(&self) -> bool {
        &&& hosts_wf(self.remote_hosts@)
        &&& keys_unique(self.sockets@)
        &&& keys_unique(self.local_ports@)
        &&& keys_unique(self.connections@)
    }

    pub open spec fn hosts_view(&self) -> Map<IpAddress, RemoteHostInfo> {
        table_view(self.remote_hosts@)
    }

    pub open spec fn sockets_view(&self) -> Map<ProtocolSocketAddress, TrafficInfo> {
        table_view(self.sockets@)
    }

    pub open spec fn local_ports_view(&self) -> Map<PortInfo, TrafficInfo> {
        table_view(self.local_ports@)
    }

    pub open spec fn connections_view(&self) -> Map<SocketConnection, SocketConnectionInfo> {
        table_view(self.connections@)
    }

    /// Merges `other` into `self`: the interface is taken from `other`,
    /// traffic, socket and port counters add up keywise, hosts present in
    /// both are merged entity by entity, and connections present in both
    /// keep the later status and the process where one is present.
    pub fn merge(&mut self, other: NetStatData)
        requires
            old(self).wf(),
            other.wf(),
        ensures
            final(self).wf(),
            merge_result(*final(self), *old(self), other),
            final(self).if_index == other.if_index,
            final(self).if_name == other.if_name,
            final(self).traffic == traffic_add(old(self).traffic, other.traffic),
            hosts_merged(final(self).hosts_view(), old(self).hosts_view(), other.hosts_view()),
            host_traffic_map(final(self).hosts_view())
                == counters_merge(host_traffic_map(old(self).hosts_view()), host_traffic_map(other.hosts_view())),
            final(self).sockets_view() == counters_merge(old(self).sockets_view(), other.sockets_view()),
            final(self).local_ports_view() == counters_merge(old(self).local_ports_view(), other.local_ports_view()),
            conn_view_map(final(self).connections_view())
                == conns_merge(conn_view_map(old(self).connections_view()), conn_view_map(other.connections_view())),
    {
        let NetStatData { if_index, if_name, traffic, remote_hosts, sockets, local_ports, connections } = other;
        self.if_index = if_index;
        self.if_name = if_name;
        self.traffic.add_traffic(&traffic);
        merge_hosts(&mut self.remote_hosts, remote_hosts);
        merge_socket_tables(&mut self.sockets, &sockets);
        merge_port_tables(&mut self.local_ports, &local_ports);
        merge_connections(&mut self.connections, connections);
    }

    /// Empty data: no interface, zero traffic, no entries.
    pub fn new() -> (r: NetStatData)
        ensures
            r.wf(),
            r.if_index == 0,
            r.if_name@.len() == 0,
            r.traffic == zero_traffic(),
            r.remote_hosts@.len() == 0,
            r.sockets@.len() == 0,
            r.local_ports@.len() == 0,
            r.connections@.len() == 0,
    {
        NetStatData {
            if_index: 0,
            if_name: String::new(),
            traffic: TrafficInfo::new(),
            remote_hosts: Vec::new(),
            sockets: Vec::new(),
            local_ports: Vec::new(),
            connections: Vec::new(),
        }
    }
}



proof fn lemma_prefix_step<K, V>(s: Seq<(K, V)>, j: int)
    requires
        keys_unique(s),
        0 <= j < s.len(),
    ensures
        table_view(s.subrange(0, j + 1)) == table_view(s.subrange(0, j)).insert(s[j].0, s[j].1),
        !table_view(s.subrange(0, j)).contains_key(s[j].0),
{
    assert(s.subrange(0, j + 1).drop_last() == s.subrange(0, j));
    assert forall|i: int| 0 <= i < j implies (#[trigger] s.subrange(0, j)[i]).0 != s[j].0 by {
        assert(s.subrange(0, j)[i] == s[i]);
    }
    crate::table::lemma_table_absent(s.subrange(0, j), s[j].0);
}

/// Merges the host entries of `other` into `s`.
fn merge_hosts(s: &mut Vec<(IpAddress, RemoteHostInfo)>, other: Vec<(IpAddress, RemoteHostInfo)>)
    requires
        hosts_wf(old(s)@),
        hosts_wf(other@),
    ensures
        hosts_wf(final(s)@),
        hosts_merged(table_view(final(s)@), table_view(old(s)@), table_view(other@)),
        host_traffic_map(table_view(final(s)@))
            == counters_merge(host_traffic_map(table_view(old(s)@)), host_traffic_map(table_view(other@))),
{
    let ghost a = table_view(s@);
    let ghost orig = other@;
    let mut rest = other;
    let mut j: usize = 0;
    let n = rest.len();
    proof {
        assert(orig.subrange(0, 0).len() == 0);
        assert(table_view(orig.subrange(0, 0)) == Map::<IpAddress, RemoteHostInfo>::empty());
        assert(rest@ == orig.subrange(0, orig.len() as int));
    }
    while j < n
        invariant
            n == orig.len(),
            j <= n,
            rest@ == orig.subrange(j as int, n as int),
            hosts_wf(orig),
            hosts_wf(s@),
            hosts_merged(table_view(s@), a, table_view(orig.subrange(0, j as int))),
        decreases n - j,
    {
        let ghost b = table_view(orig.subrange(0, j as int));
        proof {
            lemma_prefix_step(orig, j as int);
            assert(rest@[0] == orig[j as int]);
        }
        let (k, h) = rest.remove(0);
        proof {
            assert(rest@ =~= orig.subrange(j + 1, n as int));
            assert(k == h.ip_addr && h.wf()) by {
                assert(orig[j as int] == (k, h));
            }
        }
        let ghost nb = table_view(orig.subrange(0, j + 1));
        match find_key(s, &k, |x: &IpAddress, y: &IpAddress| -> (e: bool) ensures e == (*x == *y), { *x == *y }) {
            Some(i) => {
                proof { lemma_table_get(s@, i as int); }
                let ghost before = s@;
                let (k2, mut cur) = s.remove(i);
                cur.merge(&h);
                let ghost e = (k2, cur);
                s.insert(i, (k2, cur));
                proof {
                    assert(s@ =~= before.update(i as int, e));
                    lemma_table_update(before, i as int, cur);
                    assert forall|q: int| 0 <= q < s@.len() implies
                        (#[trigger] s@[q]).0 == s@[q].1.ip_addr && s@[q].1.wf() by {
                        if q != i {
                            assert(s@[q] == before[q]);
                        }
                    }
                    assert(!b.contains_key(k));
                    assert(a.contains_key(k)) by {
                        assert(table_view(before).contains_key(k));
                    }
                    assert(hosts_merged(table_view(s@), a, nb));
                }
            },
            None => {
                proof {
                    lemma_table_push(s@, k, h);
                    crate::table::lemma_table_absent(s@, k);
                }
                let ghost before = s@;
                s.push((k, h));
                proof {
                    assert(s@.drop_last() == before);
                    assert forall|q: int| 0 <= q < s@.len() implies
                        (#[trigger] s@[q]).0 == s@[q].1.ip_addr && s@[q].1.wf() by {
                        if q < before.len() {
                            assert(s@[q] == before[q]);
                        }
                    }
                    assert(!a.contains_key(k));
                    assert(hosts_merged(table_view(s@), a, nb));
                }
            },
        }
        j = j + 1;
    }
    proof {
        assert(orig.subrange(0, n as int) == orig);
        let f = table_view(s@);
        let o = table_view(orig);
        assert forall|k: IpAddress| #![auto] host_traffic_map(f).contains_key(k) implies
            host_traffic_map(f)[k] == counters_merge(host_traffic_map(a), host_traffic_map(o))[k] by {
            crate::traffic::lemma_traffic_monoid(f[k].traffic_info, zero_traffic(), zero_traffic());
            if a.contains_key(k) {
                crate::traffic::lemma_traffic_monoid(a[k].traffic_info, zero_traffic(), zero_traffic());
            }
            if o.contains_key(k) {
                crate::traffic::lemma_traffic_monoid(zero_traffic(), o[k].traffic_info, zero_traffic());
            }
        }
        assert(host_traffic_map(f) =~= counters_merge(host_traffic_map(a), host_traffic_map(o)));
    }
}

/// Merges the connection entries of `other` into `s`.
fn merge_connections(s: &mut Vec<(SocketConnection, SocketConnectionInfo)>, other: Vec<(SocketConnection, SocketConnectionInfo)>)
    requires
        keys_unique(old(s)@),
        keys_unique(other@),
    ensures
        keys_unique(final(s)@),
        conn_view_map(table_view(final(s)@))
            == conns_merge(conn_view_map(table_view(old(s)@)), conn_view_map(table_view(other@))),
{
    let ghost a = conn_view_map(table_view(s@));
    let ghost orig = other@;
    let mut rest = other;
    let mut j: usize = 0;
    let n = rest.len();
    proof {
        assert(orig.subrange(0, 0).len() == 0);
        assert(table_view(orig.subrange(0, 0)) == Map::<SocketConnection, SocketConnectionInfo>::empty());
        assert(conns_merge(a, conn_view_map(table_view(orig.subrange(0, 0)))) =~= a);
        assert(rest@ == orig.subrange(0, orig.len() as int));
    }
    while j < n
        invariant
            n == orig.len(),
            j <= n,
            rest@ == orig.subrange(j as int, n as int),
            keys_unique(orig),
            keys_unique(s@),
            conn_view_map(table_view(s@)) == conns_merge(a, conn_view_map(table_view(orig.subrange(0, j as int)))),
        decreases n - j,
    {
        let ghost b = conn_view_map(table_view(orig.subrange(0, j as int)));
        proof {
            lemma_prefix_step(orig, j as int);
            assert(rest@[0] == orig[j as int]);
        }
        let (k, c) = rest.remove(0);
        proof {
            assert(rest@ =~= orig.subrange(j + 1, n as int));
            assert(orig[j as int] == (k, c));
        }
        let ghost nb = conn_view_map(table_view(orig.subrange(0, j + 1)));
        match find_key(s, &k, |x: &SocketConnection, y: &SocketConnection| -> (e: bool) ensures e == (*x == *y), { *x == *y }) {
            Some(i) => {
                proof { lemma_table_get(s@, i as int); }
                let ghost before = s@;
                let (k2, mut cur) = s.remove(i);
                cur.merge(&c);
                let ghost e = (k2, cur);
                s.insert(i, (k2, cur));
                proof {
                    assert(s@ =~= before.update(i as int, e));
                    lemma_table_update(before, i as int, cur);
                    assert(!b.contains_key(k));
                    assert(nb =~= b.insert(k, conn_view(c)));
                    assert(conn_view_map(table_view(before)).contains_key(k));
                    assert(conns_merge(a, b).contains_key(k));
                    assert(a.contains_key(k));
                    assert(conn_view(table_view(before)[k]) == conn_view_map(table_view(before))[k]);
                    assert(conn_view(table_view(before)[k]) == a[k]);
                    assert(conn_view_map(table_view(s@)) =~= conn_view_map(table_view(before)).insert(k, conn_view(cur)));
                    assert(conns_merge(a, nb) =~= conns_merge(a, b).insert(k,
                        if a.contains_key(k) { conn_merge(a[k], conn_view(c)) } else { conn_view(c) }));
                    assert(conn_view_map(table_view(s@)) =~= conns_merge(a, nb));
                }
            },
            None => {
                proof {
                    lemma_table_push(s@, k, c);
                    crate::table::lemma_table_absent(s@, k);
                }
                let ghost before = s@;
                s.push((k, c));
                proof {
                    assert(!b.contains_key(k));
                    assert(nb =~= b.insert(k, conn_view(c)));
                    assert(conn_view_map(table_view(s@)) =~= conn_view_map(table_view(before)).insert(k, conn_view(c)));
                    assert(!conn_view_map(table_view(before)).contains_key(k));
                    assert(!conns_merge(a, b).contains_key(k));
                    assert(!a.contains_key(k));
                    assert(conns_merge(a, nb) =~= conns_merge(a, b).insert(k, conn_view(c)));
                    assert(conn_view_map(table_view(s@)) =~= conns_merge(a, nb));
                }
            },
        }
        j = j + 1;
    }
    proof {
        assert(orig.subrange(0, n as int) == orig);
    }
}

} // verus!
