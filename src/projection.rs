use vstd::prelude::*;
use crate::table::find_key;
use crate::addr::IpAddress;
use crate::data::{hosts_wf, NetStatData};
use crate::host::{HostDisplayInfo, RemoteHostInfo};
use crate::process::{copy_process, opt_process_view, ProcessDisplayInfo};
use crate::service::{ServiceDatabase, ServiceDisplayInfo};
use crate::table::{lemma_table_absent, lemma_table_push, lemma_table_update};
use crate::traffic::{lemma_traffic_monoid, traffic_add, zero_traffic};
use crate::socket::{AddressFamily, PortInfo, ProtocolSocketAddress, SocketConnection, SocketConnectionInfo, SocketTrafficInfo};
use crate::table::{keys_unique, lemma_table_dom, lemma_table_get, table_view};
use crate::topn::{is_top_n, top_indices};
use crate::traffic::{sat_add, TrafficInfo};

verus! {

/// Saturating sum of the host counters, in entry order.
pub open spec fn hosts_traffic(s: Seq<(IpAddress, RemoteHostInfo)>) -> TrafficInfo
    decreases s.len(),
{
    if s.len() == 0 {
        zero_traffic()
    } else {
        traffic_add(hosts_traffic(s.drop_last()), s.last().1.traffic_info)
    }
}

/// Ranking score of a traffic record: total bytes, saturating.
pub open spec fn score(t: TrafficInfo) -> u64 {
    sat_add(t.bytes_sent, t.bytes_received)
}

/// `d` displays host `h`.
pub open spec fn shows_host(d: HostDisplayInfo, h: RemoteHostInfo) -> bool {
    &&& d.ip_addr == h.ip_addr
    &&& d.host_name@ == h.hostname@
    &&& d.country_code@ == h.country_code@
    &&& d.country_name@ == h.country_name@
    &&& d.asn == h.asn
    &&& d.as_name@ == h.as_name@
    &&& d.traffic == h.traffic_info
}

/// The counters a connection is ranked by: those of its remote socket when
/// present, else those of its local port, else none.
pub open spec fn conn_rate(
    c: SocketConnection,
    sockets: Map<ProtocolSocketAddress, TrafficInfo>,
    ports: Map<PortInfo, TrafficInfo>,
) -> Option<TrafficInfo> {
    let sk = ProtocolSocketAddress { socket: c.remote_socket, protocol: c.protocol };
    let pk = PortInfo { port: c.local_socket.port, protocol: c.protocol };
    if sockets.contains_key(sk) {
        Some(sockets[sk])
    } else if ports.contains_key(pk) {
        Some(ports[pk])
    } else {
        None
    }
}

/// `d` is the row of connection `k` with counters `t` and the process record of `info`.
pub open spec fn shows_connection(d: SocketTrafficInfo, k: SocketConnection, t: TrafficInfo, info: SocketConnectionInfo) -> bool {
    &&& d.local_ip_addr == k.local_socket.ip
    &&& d.local_port == k.local_socket.port
    &&& d.remote_ip_addr == Some(k.remote_socket.ip)
    &&& d.remote_port == Some(k.remote_socket.port)
    &&& d.protocol == k.protocol
    &&& d.ip_version == (if k.local_socket.ip is V4 { AddressFamily::IPv4 } else { AddressFamily::IPv6 })
    &&& d.traffic == t
    &&& opt_process_view(d.process) == opt_process_view(info.process)
}

/// The connection of row `d`.
pub open spec fn row_key(d: SocketTrafficInfo) -> SocketConnection {
    SocketConnection {
        local_socket: crate::addr::SocketAddress { ip: d.local_ip_addr, port: d.local_port },
        remote_socket: crate::addr::SocketAddress { ip: d.remote_ip_addr.unwrap(), port: d.remote_port.unwrap() },
        protocol: d.protocol,
    }
}

/// Total traffic of the connections owned by `pid`, each counted by its
/// `conn_rate`; none when no such connection has a rate.
pub open spec fn pid_traffic(
    conns: Seq<(SocketConnection, SocketConnectionInfo)>,
    sockets: Map<ProtocolSocketAddress, TrafficInfo>,
    ports: Map<PortInfo, TrafficInfo>,
    pid: u32,
) -> Option<TrafficInfo>
    decreases conns.len(),
{
    if conns.len() == 0 {
        None
    } else {
        let prev = pid_traffic(conns.drop_last(), sockets, ports, pid);
        let e = conns.last();
        let rate = conn_rate(e.0, sockets, ports);
        if e.1.process.is_some() && e.1.process.unwrap().pid == pid && rate.is_some() {
            Some(traffic_add(if prev.is_some() { prev.unwrap() } else { zero_traffic() }, rate.unwrap()))
        } else {
            prev
        }
    }
}

/// Total traffic of the remote sockets on `port`, when `port` is not zero
/// and has a known service; none otherwise or without such sockets.
pub open spec fn port_traffic_total(
    sockets: Seq<(ProtocolSocketAddress, TrafficInfo)>,
    services: Map<u16, String>,
    port: u16,
) -> Option<TrafficInfo>
    decreases sockets.len(),
{
    if sockets.len() == 0 {
        None
    } else {
        let prev = port_traffic_total(sockets.drop_last(), services, port);
        let e = sockets.last();
        if e.0.socket.port == port && port != 0 && services.contains_key(port) {
            Some(traffic_add(if prev.is_some() { prev.unwrap() } else { zero_traffic() }, e.1))
        } else {
            prev
        }
    }
}

impl NetStatData {
    /// `r` lists the `n` hosts with the most bytes, most first: distinct
    /// hosts, each shown as stored; a host left out has no more bytes than any shown.
    pub open spec fn is_top_hosts(&self, n: nat, r: Seq<HostDisplayInfo>) -> bool {
        &&& (r.len() == (if n < self.remote_hosts@.len() { n as int } else { self.remote_hosts@.len() as int }))
        &&& (forall|i: int| 0 <= i < r.len() ==> self.hosts_view().contains_key((#[trigger] r[i]).ip_addr)
            && shows_host(r[i], self.hosts_view()[r[i].ip_addr]))
        &&& (forall|i: int, j: int| 0 <= i < j < r.len() ==> r[i].ip_addr != r[j].ip_addr)
        &&& (forall|i: int, j: int| 0 <= i < j < r.len() ==> score(r[i].traffic) >= score(r[j].traffic))
        &&& (forall|k: IpAddress, i: int| #![trigger self.hosts_view()[k], r[i]]
            self.hosts_view().contains_key(k) && (forall|j: int| 0 <= j < r.len() ==> (#[trigger] r[j]).ip_addr != k)
            && 0 <= i < r.len() ==> score(self.hosts_view()[k].traffic_info) <= score(r[i].traffic))
    }

    /// `r` lists the `n` processes with the most bytes, most first: distinct
    /// pids with their `pid_traffic`; fewer than `n` rows means every process
    /// with traffic is shown, and one left out has no more bytes than any shown.
    pub open spec fn is_top_processes(&self, n: nat, r: Seq<ProcessDisplayInfo>) -> bool {
        &&& (r.len() <= n)
        &&& (forall|i: int| 0 <= i < r.len() ==>
            pid_traffic(self.connections@, self.sockets_view(), self.local_ports_view(), (#[trigger] r[i]).pid)
                == Some(r[i].traffic))
        &&& (forall|i: int, j: int| 0 <= i < j < r.len() ==> r[i].pid != r[j].pid)
        &&& (forall|i: int, j: int| 0 <= i < j < r.len() ==> score(r[i].traffic) >= score(r[j].traffic))
        &&& (forall|pid: u32| #![trigger pid_traffic(self.connections@, self.sockets_view(), self.local_ports_view(), pid)]
            pid_traffic(self.connections@, self.sockets_view(), self.local_ports_view(), pid).is_some()
            && (forall|j: int| 0 <= j < r.len() ==> (#[trigger] r[j]).pid != pid) ==> {
                &&& r.len() == n
                &&& forall|i: int| 0 <= i < r.len() ==> score(pid_traffic(self.connections@, self.sockets_view(),
                self.local_ports_view(), pid).unwrap()) <= score((#[trigger] r[i]).traffic)
            })
    }

    /// `r` lists the `n` named non-zero remote ports with the most bytes,
    /// most first, each with its total and service name; fewer than `n` rows
    /// means every such port is shown, and one left out has no more bytes.
    pub open spec fn is_top_services(&self, services: Map<u16, String>, n: nat, r: Seq<ServiceDisplayInfo>) -> bool {
        &&& (r.len() <= n)
        &&& (forall|i: int| 0 <= i < r.len() ==> {
            &&& port_traffic_total(self.sockets@, services, (#[trigger] r[i]).port) == Some(r[i].traffic)
            &&& r[i].name@ == services[r[i].port]@
        })
        &&& (forall|i: int, j: int| 0 <= i < j < r.len() ==> r[i].port != r[j].port)
        &&& (forall|i: int, j: int| 0 <= i < j < r.len() ==> score(r[i].traffic) >= score(r[j].traffic))
        &&& (forall|port: u16| #![trigger port_traffic_total(self.sockets@, services, port)]
            port_traffic_total(self.sockets@, services, port).is_some()
            && (forall|j: int| 0 <= j < r.len() ==> (#[trigger] r[j]).port != port) ==> {
                &&& r.len() == n
                &&& forall|i: int| 0 <= i < r.len() ==> score(port_traffic_total(self.sockets@, services,
                port).unwrap()) <= score((#[trigger] r[i]).traffic)
            })
    }

    /// The `n` hosts with the most bytes, most first: distinct hosts, each
    /// shown as stored; a host left out has no more bytes than any shown.
    pub fn get_top_remote_hosts(&self, n: usize) -> (r: Vec<HostDisplayInfo>)
        requires
            self.wf(),
        ensures
            self.is_top_hosts(n as nat, r@),

    {
        let hosts = &self.remote_hosts;
        let mut scores: Vec<u64> = Vec::new();
        let mut q: usize = 0;
        while q < hosts.len()
            invariant
                q <= hosts@.len(),
                scores@.len() == q,
                forall|p: int| 0 <= p < q ==> scores@[p] == score(#[trigger] hosts@[p].1.traffic_info),
            decreases hosts@.len() - q,
        {
            scores.push(hosts[q].1.traffic_info.total_bytes());
            q = q + 1;
        }
        let idx = top_indices(&scores, n);
        let mut r: Vec<HostDisplayInfo> = Vec::new();
        let mut i: usize = 0;
        while i < idx.len()
            invariant
                i <= idx@.len(),
                is_top_n(scores@, n as nat, idx@),
                scores@.len() == hosts@.len(),
                r@.len() == i,
                forall|a: int| 0 <= a < i ==> shows_host(#[trigger] r@[a], hosts@[idx@[a] as int].1),
            decreases idx@.len() - i,
        {
            r.push(hosts[idx[i]].1.to_display());
            i = i + 1;
        }
        proof {
            let s = hosts@;
            assert(hosts_wf(s));
            assert forall|a: int| 0 <= a < r@.len() implies self.hosts_view().contains_key((#[trigger] r@[a]).ip_addr)
                && shows_host(r@[a], self.hosts_view()[r@[a].ip_addr]) by {
                let p = idx@[a] as int;
                lemma_table_get(s, p);
                assert(s[p].0 == s[p].1.ip_addr);
            }
            assert forall|a: int, b: int| 0 <= a < b < r@.len() implies r@[a].ip_addr != r@[b].ip_addr by {
                let pa = idx@[a] as int;
                let pb = idx@[b] as int;
                assert(s[pa].0 == s[pa].1.ip_addr && s[pb].0 == s[pb].1.ip_addr);
            }
            assert forall|k: IpAddress, a: int| #![trigger self.hosts_view()[k], r@[a]]
                self.hosts_view().contains_key(k) && (forall|j: int| 0 <= j < r@.len() ==> (#[trigger] r@[j]).ip_addr != k)
                && 0 <= a < r@.len() implies score(self.hosts_view()[k].traffic_info) <= score(r@[a].traffic) by {
                lemma_table_dom(s, k);
                let p = choose|p: int| 0 <= p < s.len() && s[p].0 == k;
                lemma_table_get(s, p);
                assert(s[p].0 == s[p].1.ip_addr);
                if idx@.contains(p as usize) {
                    let j = choose|j: int| 0 <= j < idx@.len() && idx@[j] == p as usize;
                    assert(r@[j].ip_addr == k);
                }
                assert(scores@[p] <= scores@[idx@[a] as int]);
            }
        }
        r
    }

    /// The `n` connections with the most bytes, most first. A connection is
    /// ranked by the counters of its remote socket, else of its local port;
    /// one with neither is not ranked. Rows are distinct connections, and
    /// fewer than `n` rows means every ranked connection is shown.
    pub fn get_top_connections(&self, n: usize) -> (r: Vec<SocketTrafficInfo>)
        requires
            self.wf(),
        ensures
            r@.len() <= n,
            forall|i: int| 0 <= i < r@.len() ==> {
                let k = row_key(#[trigger] r@[i]);
                &&& self.connections_view().contains_key(k)
                &&& conn_rate(k, self.sockets_view(), self.local_ports_view()).is_some()
                &&& shows_connection(r@[i], k, conn_rate(k, self.sockets_view(), self.local_ports_view()).unwrap(),
                    self.connections_view()[k])
            },
            forall|i: int, j: int| 0 <= i < j < r@.len() ==> row_key(r@[i]) != row_key(r@[j]),
            forall|i: int, j: int| 0 <= i < j < r@.len() ==> score(r@[i].traffic) >= score(r@[j].traffic),
            forall|k: SocketConnection| #![trigger self.connections_view().contains_key(k)]
                self.connections_view().contains_key(k) && conn_rate(k, self.sockets_view(), self.local_ports_view()).is_some()
                && (forall|j: int| 0 <= j < r@.len() ==> row_key(#[trigger] r@[j]) != k) ==> {
                    &&& r@.len() == n
                    &&& forall|i: int| 0 <= i < r@.len() ==> score(conn_rate(k, self.sockets_view(),
                        self.local_ports_view()).unwrap()) <= score((#[trigger] r@[i]).traffic)
                },
    {
        let conns = &self.connections;
        let ghost sv = self.sockets_view();
        let ghost pv = self.local_ports_view();
        let mut rows: Vec<SocketTrafficInfo> = Vec::new();
        let mut scores: Vec<u64> = Vec::new();
        let ghost mut src: Seq<int> = Seq::empty();
        let mut q: usize = 0;
        while q < conns.len()
            invariant
                q <= conns@.len(),
                self.wf(),
                sv == self.sockets_view(),
                pv == self.local_ports_view(),
                rows@.len() == scores@.len(),
                src.len() == rows@.len(),
                forall|a: int| 0 <= a < src.len() ==> 0 <= #[trigger] src[a] < q,
                forall|a: int, b: int| 0 <= a < b < src.len() ==> src[a] < src[b],
                forall|a: int| 0 <= a < src.len() ==> {
                    let k = conns@[src[a]].0;
                    &&& conn_rate(k, sv, pv).is_some()
                    &&& row_key(#[trigger] rows@[a]) == k
                    &&& shows_connection(rows@[a], k, conn_rate(k, sv, pv).unwrap(), conns@[src[a]].1)
                    &&& scores@[a] == score(rows@[a].traffic)
                },
                forall|p: int| 0 <= p < q && conn_rate(#[trigger] conns@[p].0, sv, pv).is_some()
                    ==> exists|a: int| 0 <= a < src.len() && src[a] == p,
            decreases conns@.len() - q,
        {
            let k = conns[q].0;
            let sk = ProtocolSocketAddress { socket: k.remote_socket, protocol: k.protocol };
            let pk = PortInfo { port: k.local_socket.port, protocol: k.protocol };
            let rate = match crate::counters::socket_traffic(&self.sockets, sk) {
                Some(t) => Some(t),
                None => crate::counters::port_traffic(&self.local_ports, pk),
            };
            match rate {
                Some(t) => {
                    let row = SocketTrafficInfo {
                        local_ip_addr: k.local_socket.ip,
                        local_port: k.local_socket.port,
                        remote_ip_addr: Some(k.remote_socket.ip),
                        remote_port: Some(k.remote_socket.port),
                        protocol: k.protocol,
                        ip_version: if k.local_socket.ip.is_ipv4() { AddressFamily::IPv4 } else { AddressFamily::IPv6 },
                        process: copy_process(&conns[q].1.process),
                        traffic: t,
                    };
                    scores.push(t.total_bytes());
                    rows.push(row);
                    proof {
                        let old_src = src;
                        src = src.push(q as int);
                        assert forall|p: int| 0 <= p < q + 1 && conn_rate(#[trigger] conns@[p].0, sv, pv).is_some()
                            implies exists|a: int| 0 <= a < src.len() && src[a] == p by {
                            if p == q {
                                assert(src[src.len() - 1] == p);
                            } else {
                                let a0 = choose|a: int| 0 <= a < old_src.len() && old_src[a] == p;
                                assert(src[a0] == p);
                            }
                        }
                    }
                },
                None => {},
            }
            q = q + 1;
        }
        let total = scores.len();
        let idx = top_indices(&scores, n);
        let mut r: Vec<SocketTrafficInfo> = Vec::new();
        let mut i: usize = 0;
        while i < idx.len()
            invariant
                i <= idx@.len(),
                is_top_n(scores@, n as nat, idx@),
                scores@.len() == rows@.len(),
                r@.len() == i,
                forall|a: int| 0 <= a < i ==> {
                    let b = rows@[idx@[a] as int];
                    &&& row_key(#[trigger] r@[a]) == row_key(b)
                    &&& r@[a].local_ip_addr == b.local_ip_addr
                    &&& r@[a].local_port == b.local_port
                    &&& r@[a].remote_ip_addr == b.remote_ip_addr
                    &&& r@[a].remote_port == b.remote_port
                    &&& r@[a].protocol == b.protocol
                    &&& r@[a].ip_version == b.ip_version
                    &&& r@[a].traffic == b.traffic
                    &&& opt_process_view(r@[a].process) == opt_process_view(b.process)
                },
            decreases idx@.len() - i,
        {
            let b = &rows[idx[i]];
            r.push(SocketTrafficInfo {
                local_ip_addr: b.local_ip_addr,
                local_port: b.local_port,
                remote_ip_addr: b.remote_ip_addr,
                remote_port: b.remote_port,
                protocol: b.protocol,
                ip_version: b.ip_version,
                process: copy_process(&b.process),
                traffic: b.traffic,
            });
            i = i + 1;
        }
        proof {
            let s = conns@;
            assert forall|a: int| 0 <= a < r@.len() implies {
                let k = row_key(#[trigger] r@[a]);
                &&& self.connections_view().contains_key(k)
                &&& conn_rate(k, sv, pv).is_some()
                &&& shows_connection(r@[a], k, conn_rate(k, sv, pv).unwrap(), self.connections_view()[k])
            } by {
                let p = src[idx@[a] as int];
                lemma_table_get(s, p);
            }
            assert forall|a: int, b: int| 0 <= a < b < r@.len() implies row_key(r@[a]) != row_key(r@[b]) by {
                let pa = src[idx@[a] as int];
                let pb = src[idx@[b] as int];
                if idx@[a] < idx@[b] {
                    assert(pa < pb);
                } else {
                    assert(pb < pa);
                }
            }
            assert forall|k: SocketConnection| #![trigger self.connections_view().contains_key(k)]
                self.connections_view().contains_key(k) && conn_rate(k, sv, pv).is_some()
                && (forall|j: int| 0 <= j < r@.len() ==> row_key(#[trigger] r@[j]) != k) implies {
                    &&& r@.len() == n
                    &&& forall|i: int| 0 <= i < r@.len() ==> score(conn_rate(k, sv, pv).unwrap()) <= score((#[trigger] r@[i]).traffic)
                } by {
                lemma_table_dom(s, k);
                let p = choose|p: int| 0 <= p < s.len() && s[p].0 == k;
                assert(conn_rate(s[p].0, sv, pv).is_some());
                let a = choose|a: int| 0 <= a < src.len() && src[a] == p;
                assert(row_key(rows@[a]) == k);
                assert(0 <= a < total);
                if idx@.contains(a as usize) {
                    let j = choose|j: int| 0 <= j < idx@.len() && idx@[j] == a as usize;
                    assert(idx@[j] as int == a);
                    assert(row_key(r@[j]) == row_key(rows@[idx@[j] as int]));
                    assert(row_key(r@[j]) == k);
                }
                assert(!idx@.contains(a as usize));
                assert(r@.len() == n);
                assert forall|i: int| 0 <= i < r@.len() implies score(conn_rate(k, sv, pv).unwrap()) <= score((#[trigger] r@[i]).traffic) by {
                    assert(scores@[a] <= scores@[idx@[i] as int]);
                }
            }
        }
        r
    }

    /// The `n` processes with the most bytes, most first. A process's
    /// traffic is the sum over its connections of each one's rate (remote
    /// socket counters, else local port counters). Rows are distinct pids,
    /// and fewer than `n` rows means every process with traffic is shown.
    pub fn get_top_processes(&self, n: usize) -> (r: Vec<ProcessDisplayInfo>)
        requires
            self.wf(),
        ensures
            self.is_top_processes(n as nat, r@),

    {
        let conns = &self.connections;
        let ghost sv = self.sockets_view();
        let ghost pv = self.local_ports_view();
        let mut agg: Vec<(u32, ProcessDisplayInfo)> = Vec::new();
        let mut q: usize = 0;
        proof {
            assert(table_view(agg@) == Map::<u32, ProcessDisplayInfo>::empty());
        }
        while q < conns.len()
            invariant
                q <= conns@.len(),
                self.wf(),
                sv == self.sockets_view(),
                pv == self.local_ports_view(),
                keys_unique(agg@),
                forall|a: int| 0 <= a < agg@.len() ==> (#[trigger] agg@[a]).1.pid == agg@[a].0,
                forall|pid: u32| #![trigger pid_traffic(conns@.subrange(0, q as int), sv, pv, pid)]
                    table_view(agg@).contains_key(pid) <==> pid_traffic(conns@.subrange(0, q as int), sv, pv, pid).is_some(),
                forall|pid: u32| #[trigger] table_view(agg@).contains_key(pid)
                    ==> pid_traffic(conns@.subrange(0, q as int), sv, pv, pid) == Some(table_view(agg@)[pid].traffic),
            decreases conns@.len() - q,
        {
            let ghost pre = conns@.subrange(0, q as int);
            let ghost post = conns@.subrange(0, q + 1);
            proof { assert(post.drop_last() == pre); }
            let k = conns[q].0;
            let sk = ProtocolSocketAddress { socket: k.remote_socket, protocol: k.protocol };
            let pk = PortInfo { port: k.local_socket.port, protocol: k.protocol };
            let rate = match crate::counters::socket_traffic(&self.sockets, sk) {
                Some(t) => Some(t),
                None => crate::counters::port_traffic(&self.local_ports, pk),
            };
            match (&conns[q].1.process, rate) {
                (Some(p), Some(t)) => {
                    let pid = p.pid;
                    match find_key(&agg, &pid, |x: &u32, y: &u32| -> (e: bool) ensures e == (*x == *y), { *x == *y }) {
                        Some(i) => {
                            proof { lemma_table_get(agg@, i as int); }
                            let ghost before = agg@;
                            let (k2, cur) = agg.remove(i);
                            let mut tr = cur.traffic;
                            tr.add_traffic(&t);
                            let e = ProcessDisplayInfo { pid: cur.pid, name: cur.name, traffic: tr };
                            let ghost ge = (k2, e);
                            agg.insert(i, (k2, e));
                            proof {
                                assert(agg@ =~= before.update(i as int, ge));
                                lemma_table_update(before, i as int, e);
                                assert forall|a: int| 0 <= a < agg@.len() implies (#[trigger] agg@[a]).1.pid == agg@[a].0 by {
                                    if a != i {
                                        assert(agg@[a] == before[a]);
                                    }
                                }
                            }
                        },
                        None => {
                            let e = ProcessDisplayInfo { pid, name: p.name.clone(), traffic: t };
                            proof {
                                lemma_table_push(agg@, pid, e);
                                lemma_table_absent(agg@, pid);
                                lemma_traffic_monoid(t, zero_traffic(), zero_traffic());
                                lemma_traffic_monoid(zero_traffic(), t, zero_traffic());
                            }
                            let ghost before = agg@;
                            agg.push((pid, e));
                            proof {
                                assert forall|a: int| 0 <= a < agg@.len() implies (#[trigger] agg@[a]).1.pid == agg@[a].0 by {
                                    if a < before.len() {
                                        assert(agg@[a] == before[a]);
                                    }
                                }
                            }
                        },
                    }
                },
                _ => {},
            }
            proof {
                assert(post.last() == conns@[q as int]);
                assert(rate == conn_rate(k, sv, pv));
                assert forall|pid: u32| #![trigger pid_traffic(post, sv, pv, pid)]
                    table_view(agg@).contains_key(pid) <==> pid_traffic(post, sv, pv, pid).is_some() by {
                    assert(pid_traffic(pre, sv, pv, pid) == pid_traffic(post.drop_last(), sv, pv, pid));
                }
                assert forall|pid: u32| #[trigger] table_view(agg@).contains_key(pid)
                    implies pid_traffic(post, sv, pv, pid) == Some(table_view(agg@)[pid].traffic) by {
                    assert(pid_traffic(pre, sv, pv, pid) == pid_traffic(post.drop_last(), sv, pv, pid));
                }
            }
            q = q + 1;
        }
        proof { assert(conns@.subrange(0, conns@.len() as int) == conns@); }
        let mut scores: Vec<u64> = Vec::new();
        let mut q2: usize = 0;
        while q2 < agg.len()
            invariant
                q2 <= agg@.len(),
                scores@.len() == q2,
                forall|p: int| 0 <= p < q2 ==> scores@[p] == score(#[trigger] agg@[p].1.traffic),
            decreases agg@.len() - q2,
        {
            scores.push(agg[q2].1.traffic.total_bytes());
            q2 = q2 + 1;
        }
        let total = scores.len();
        let idx = top_indices(&scores, n);
        let mut r: Vec<ProcessDisplayInfo> = Vec::new();
        let mut i: usize = 0;
        while i < idx.len()
            invariant
                i <= idx@.len(),
                is_top_n(scores@, n as nat, idx@),
                scores@.len() == agg@.len(),
                r@.len() == i,
                forall|a: int| 0 <= a < i ==> (#[trigger] r@[a]).pid == agg@[idx@[a] as int].1.pid
                    && r@[a].traffic == agg@[idx@[a] as int].1.traffic,
            decreases idx@.len() - i,
        {
            let b = &agg[idx[i]].1;
            r.push(ProcessDisplayInfo { pid: b.pid, name: b.name.clone(), traffic: b.traffic });
            i = i + 1;
        }
        proof {
            let s = agg@;
            assert forall|a: int| 0 <= a < r@.len() implies
                pid_traffic(conns@, sv, pv, (#[trigger] r@[a]).pid) == Some(r@[a].traffic) by {
                lemma_table_get(s, idx@[a] as int);
            }
            assert forall|a: int, b: int| 0 <= a < b < r@.len() implies r@[a].pid != r@[b].pid by {
                let pa = idx@[a] as int;
                let pb = idx@[b] as int;
                assert(s[pa].1.pid == s[pa].0 && s[pb].1.pid == s[pb].0);
            }
            assert forall|pid: u32| #![trigger pid_traffic(conns@, sv, pv, pid)]
                pid_traffic(conns@, sv, pv, pid).is_some() && (forall|j: int| 0 <= j < r@.len() ==> (#[trigger] r@[j]).pid != pid)
                implies {
                    &&& r@.len() == n
                    &&& forall|i: int| 0 <= i < r@.len() ==> score(pid_traffic(conns@, sv, pv, pid).unwrap()) <= score((#[trigger] r@[i]).traffic)
                } by {
                assert(table_view(s).contains_key(pid));
                lemma_table_dom(s, pid);
                let p = choose|p: int| 0 <= p < s.len() && s[p].0 == pid;
                lemma_table_get(s, p);
                assert(0 <= p < total);
                if idx@.contains(p as usize) {
                    let j = choose|j: int| 0 <= j < idx@.len() && idx@[j] == p as usize;
                    assert(idx@[j] as int == p);
                    assert(r@[j].pid == s[p].1.pid);
                }
                assert(!idx@.contains(p as usize));
                assert forall|i: int| 0 <= i < r@.len() implies score(pid_traffic(conns@, sv, pv, pid).unwrap()) <= score((#[trigger] r@[i]).traffic) by {
                    assert(scores@[p] <= scores@[idx@[i] as int]);
                }
            }
        }
        r
    }
}

impl NetStatData {
    /// The `n` services with the most bytes, most first. A service is a
    /// non-zero remote port that `services` names; its traffic is the sum over
    /// the remote sockets on that port. Rows are distinct ports, and fewer
    /// than `n` rows means every such port is shown.
    pub fn get_top_app_protocols(&self, services: &ServiceDatabase, n: usize) -> (r: Vec<ServiceDisplayInfo>)
        requires
            self.wf(),
        ensures
            self.is_top_services(services.tcp_map@, n as nat, r@),

    {
        let socks = &self.sockets;
        let ghost sm = services.tcp_map@;
        let mut agg: Vec<(u16, ServiceDisplayInfo)> = Vec::new();
        let mut q: usize = 0;
        proof {
            assert(table_view(agg@) == Map::<u16, ServiceDisplayInfo>::empty());
        }
        while q < socks.len()
            invariant
                q <= socks@.len(),
                sm == services.tcp_map@,
                keys_unique(agg@),
                forall|a: int| 0 <= a < agg@.len() ==> (#[trigger] agg@[a]).1.port == agg@[a].0
                    && sm.contains_key(agg@[a].0) && agg@[a].1.name@ == sm[agg@[a].0]@,
                forall|port: u16| #![trigger port_traffic_total(socks@.subrange(0, q as int), sm, port)]
                    table_view(agg@).contains_key(port) <==> port_traffic_total(socks@.subrange(0, q as int), sm, port).is_some(),
                forall|port: u16| #[trigger] table_view(agg@).contains_key(port)
                    ==> port_traffic_total(socks@.subrange(0, q as int), sm, port) == Some(table_view(agg@)[port].traffic),
            decreases socks@.len() - q,
        {
            let ghost pre = socks@.subrange(0, q as int);
            let ghost post = socks@.subrange(0, q + 1);
            proof { assert(post.drop_last() == pre); }
            let port = socks[q].0.socket.port;
            let t = socks[q].1;
            if port != 0 {
                match services.get(port) {
                    Some(name) => {
                        match find_key(&agg, &port, |x: &u16, y: &u16| -> (e: bool) ensures e == (*x == *y), { *x == *y }) {
                            Some(i) => {
                                proof { lemma_table_get(agg@, i as int); }
                                let ghost before = agg@;
                                let (k2, cur) = agg.remove(i);
                                let mut tr = cur.traffic;
                                tr.add_traffic(&t);
                                let e = ServiceDisplayInfo { port: cur.port, protocol: cur.protocol, name: cur.name, traffic: tr };
                                let ghost ge = (k2, e);
                                agg.insert(i, (k2, e));
                                proof {
                                    assert(agg@ =~= before.update(i as int, ge));
                                    lemma_table_update(before, i as int, e);
                                    assert forall|a: int| 0 <= a < agg@.len() implies (#[trigger] agg@[a]).1.port == agg@[a].0
                                        && sm.contains_key(agg@[a].0) && agg@[a].1.name@ == sm[agg@[a].0]@ by {
                                        if a != i {
                                            assert(agg@[a] == before[a]);
                                        }
                                    }
                                }
                            },
                            None => {
                                let e = ServiceDisplayInfo { port, protocol: "TCP".to_string(), name, traffic: t };
                                proof {
                                    lemma_table_push(agg@, port, e);
                                    lemma_table_absent(agg@, port);
                                    lemma_traffic_monoid(zero_traffic(), t, zero_traffic());
                                }
                                let ghost before = agg@;
                                agg.push((port, e));
                                proof {
                                    assert forall|a: int| 0 <= a < agg@.len() implies (#[trigger] agg@[a]).1.port == agg@[a].0
                                        && sm.contains_key(agg@[a].0) && agg@[a].1.name@ == sm[agg@[a].0]@ by {
                                        if a < before.len() {
                                            assert(agg@[a] == before[a]);
                                        }
                                    }
                                }
                            },
                        }
                    },
                    None => {},
                }
            }
            proof {
                assert(post.last() == socks@[q as int]);
                assert forall|p: u16| #![trigger port_traffic_total(post, sm, p)]
                    table_view(agg@).contains_key(p) <==> port_traffic_total(post, sm, p).is_some() by {
                    assert(port_traffic_total(pre, sm, p) == port_traffic_total(post.drop_last(), sm, p));
                }
                assert forall|p: u16| #[trigger] table_view(agg@).contains_key(p)
                    implies port_traffic_total(post, sm, p) == Some(table_view(agg@)[p].traffic) by {
                    assert(port_traffic_total(pre, sm, p) == port_traffic_total(post.drop_last(), sm, p));
                }
            }
            q = q + 1;
        }
        proof { assert(socks@.subrange(0, socks@.len() as int) == socks@); }
        let mut scores: Vec<u64> = Vec::new();
        let mut q2: usize = 0;
        while q2 < agg.len()
            invariant
                q2 <= agg@.len(),
                scores@.len() == q2,
                forall|p: int| 0 <= p < q2 ==> scores@[p] == score(#[trigger] agg@[p].1.traffic),
            decreases agg@.len() - q2,
        {
            scores.push(agg[q2].1.traffic.total_bytes());
            q2 = q2 + 1;
        }
        let total = scores.len();
        let idx = top_indices(&scores, n);
        let mut r: Vec<ServiceDisplayInfo> = Vec::new();
        let mut i: usize = 0;
        while i < idx.len()
            invariant
                i <= idx@.len(),
                is_top_n(scores@, n as nat, idx@),
                scores@.len() == agg@.len(),
                r@.len() == i,
                forall|a: int| 0 <= a < i ==> (#[trigger] r@[a]).port == agg@[idx@[a] as int].1.port
                    && r@[a].traffic == agg@[idx@[a] as int].1.traffic && r@[a].name@ == agg@[idx@[a] as int].1.name@,
            decreases idx@.len() - i,
        {
            let b = &agg[idx[i]].1;
            r.push(ServiceDisplayInfo { port: b.port, protocol: b.protocol.clone(), name: b.name.clone(), traffic: b.traffic });
            i = i + 1;
        }
        proof {
            let s = agg@;
            assert forall|a: int| 0 <= a < r@.len() implies {
                &&& port_traffic_total(socks@, sm, (#[trigger] r@[a]).port) == Some(r@[a].traffic)
                &&& r@[a].name@ == sm[r@[a].port]@
            } by {
                lemma_table_get(s, idx@[a] as int);
            }
            assert forall|a: int, b: int| 0 <= a < b < r@.len() implies r@[a].port != r@[b].port by {
                let pa = idx@[a] as int;
                let pb = idx@[b] as int;
                assert(s[pa].1.port == s[pa].0 && s[pb].1.port == s[pb].0);
            }
            assert forall|port: u16| #![trigger port_traffic_total(socks@, sm, port)]
                port_traffic_total(socks@, sm, port).is_some() && (forall|j: int| 0 <= j < r@.len() ==> (#[trigger] r@[j]).port != port)
                implies {
                    &&& r@.len() == n
                    &&& forall|i: int| 0 <= i < r@.len() ==> score(port_traffic_total(socks@, sm, port).unwrap()) <= score((#[trigger] r@[i]).traffic)
                } by {
                assert(table_view(s).contains_key(port));
                lemma_table_dom(s, port);
                let p = choose|p: int| 0 <= p < s.len() && s[p].0 == port;
                lemma_table_get(s, p);
                assert(0 <= p < total);
                if idx@.contains(p as usize) {
                    let j = choose|j: int| 0 <= j < idx@.len() && idx@[j] == p as usize;
                    assert(idx@[j] as int == p);
                    assert(r@[j].port == s[p].1.port);
                }
                assert(!idx@.contains(p as usize));
                assert forall|i: int| 0 <= i < r@.len() implies score(port_traffic_total(socks@, sm, port).unwrap()) <= score((#[trigger] r@[i]).traffic) by {
                    assert(scores@[p] <= scores@[idx@[i] as int]);
                }
            }
        }
        r
    }

    /// Interface, the host totals (summed over the hosts, saturating), the
    /// packet count, and the top four hosts, processes and services.
    pub fn get_overview(&self, services: &ServiceDatabase) -> (r: Overview)
        requires
            self.wf(),
        ensures
            r.if_index == self.if_index,
            r.if_name@ == self.if_name@,
            r.traffic == hosts_traffic(self.remote_hosts@),
            r.captured_packets == sat_add(r.traffic.packet_sent, r.traffic.packet_received),
            self.is_top_hosts(4, r.top_remote_hosts@),
            self.is_top_processes(4, r.top_processes@),
            self.is_top_services(services.tcp_map@, 4, r.top_app_protocols@),
    {
        let mut total = TrafficInfo::new();
        let mut i: usize = 0;
        while i < self.remote_hosts.len()
            invariant
                i <= self.remote_hosts@.len(),
                total == hosts_traffic(self.remote_hosts@.subrange(0, i as int)),
            decreases self.remote_hosts@.len() - i,
        {
            proof {
                assert(self.remote_hosts@.subrange(0, i + 1).drop_last() == self.remote_hosts@.subrange(0, i as int));
            }
            total.add_traffic(&self.remote_hosts[i].1.traffic_info);
            i = i + 1;
        }
        proof { assert(self.remote_hosts@.subrange(0, i as int) == self.remote_hosts@); }
        Overview {
            if_index: self.if_index,
            if_name: self.if_name.clone(),
            captured_packets: crate::traffic::sat_add_exec(total.packet_sent, total.packet_received),
            traffic: total,
            top_processes: self.get_top_processes(4),
            top_remote_hosts: self.get_top_remote_hosts(4),
            top_app_protocols: self.get_top_app_protocols(services, 4),
        }
    }
}

/// The overview of a snapshot.
#[derive(Debug, Clone)]
pub struct Overview {
    pub if_index: u32,
    pub if_name: String,
    pub captured_packets: u64,
    pub traffic: TrafficInfo,
    pub top_processes: Vec<ProcessDisplayInfo>,
    pub top_remote_hosts: Vec<HostDisplayInfo>,
    pub top_app_protocols: Vec<ServiceDisplayInfo>,
}

impl Overview {
    /// An empty overview.
    pub fn new() -> (r: Overview)
        ensures
            r.if_index == 0,
            r.if_name@.len() == 0,
            r.captured_packets == 0,
            r.traffic == zero_traffic(),
            r.top_processes@.len() == 0,
            r.top_remote_hosts@.len() == 0,
            r.top_app_protocols@.len() == 0,
    {
        Overview {
            if_index: 0,
            if_name: String::new(),
            captured_packets: 0,
            traffic: TrafficInfo::new(),
            top_processes: Vec::new(),
            top_remote_hosts: Vec::new(),
            top_app_protocols: Vec::new(),
        }
    }
}



} // verus!
