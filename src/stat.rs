use vstd::prelude::*;
use crate::table::find_key;
use crate::addr::{IpAddress, SocketAddress};
use crate::counters::{add_port_traffic, add_socket_traffic, counters_add};
use crate::data::{hosts_wf, NetStatData};
use crate::host::RemoteHostInfo;
use crate::ipdb::IpDatabase;
use crate::packet::{classify, direction_of, peer_mac, ports_of, protocol_of, tcp_flags_of, PacketFrame};
use crate::socket::{conn_view, status_of_flags, PortInfo, ProtocolSocketAddress, SocketConnection, SocketConnectionInfo, SocketStatus, TransportProtocol};
use crate::table::{keys_unique, lemma_table_absent, lemma_table_get, lemma_table_push, lemma_table_set, lemma_table_update, table_view};
use crate::traffic::{frame_fits, frame_traffic, traffic_add, zero_traffic, Direction, TrafficInfo};

verus! {

/// A network interface as the frame source describes it.
#[derive(Debug, Clone)]
pub struct Interface {
    pub index: u32,
    pub name: String,
    pub ipv4: Vec<u32>,
    pub ipv6: Vec<u128>,
    pub mac_addr: String,
    pub is_up: bool,
    pub is_loopback: bool,
}

/// The local address set of an interface: its addresses plus both loopbacks.
pub open spec fn interface_ips(iface: Interface) -> Set<IpAddress> {
    Set::new(|ip: IpAddress| {
        ||| ip == IpAddress::V4(0x7f000001)
        ||| ip == IpAddress::V6(1)
        ||| exists|i: int| 0 <= i < iface.ipv4@.len() && ip == IpAddress::V4(iface.ipv4@[i])
        ||| exists|i: int| 0 <= i < iface.ipv6@.len() && ip == IpAddress::V6(iface.ipv6@[i])
    })
}

/// Componentwise sum of the host counters, as integers.
pub open spec fn hosts_sum(s: Seq<(IpAddress, RemoteHostInfo)>) -> (int, int, int, int)
    decreases s.len(),
{
    if s.len() == 0 {
        (0, 0, 0, 0)
    } else {
        let p = hosts_sum(s.drop_last());
        let t = s.last().1.traffic_info;
        (p.0 + t.packet_sent, p.1 + t.packet_received, p.2 + t.bytes_sent, p.3 + t.bytes_received)
    }
}

/// The counters as an integer tuple.
pub open spec fn traffic_tuple(t: TrafficInfo) -> (int, int, int, int) {
    (t.packet_sent as int, t.packet_received as int, t.bytes_sent as int, t.bytes_received as int)
}

proof fn lemma_host_le_sum(s: Seq<(IpAddress, RemoteHostInfo)>, i: int)
    requires
        0 <= i < s.len(),
    ensures
        s[i].1.traffic_info.packet_sent <= hosts_sum(s).0,
        s[i].1.traffic_info.packet_received <= hosts_sum(s).1,
        s[i].1.traffic_info.bytes_sent <= hosts_sum(s).2,
        s[i].1.traffic_info.bytes_received <= hosts_sum(s).3,
    decreases s.len(),
{
    lemma_hosts_sum_nonneg(s.drop_last());
    if i < s.len() - 1 {
        lemma_host_le_sum(s.drop_last(), i);
    }
}

proof fn lemma_hosts_sum_nonneg(s: Seq<(IpAddress, RemoteHostInfo)>)
    ensures
        hosts_sum(s).0 >= 0,
        hosts_sum(s).1 >= 0,
        hosts_sum(s).2 >= 0,
        hosts_sum(s).3 >= 0,
    decreases s.len(),
{
    if s.len() > 0 {
        lemma_hosts_sum_nonneg(s.drop_last());
    }
}

proof fn lemma_hosts_sum_update(s: Seq<(IpAddress, RemoteHostInfo)>, i: int, e: (IpAddress, RemoteHostInfo))
    requires
        0 <= i < s.len(),
    ensures
        ({
            let a = hosts_sum(s);
            let b = hosts_sum(s.update(i, e));
            let o = s[i].1.traffic_info;
            let n = e.1.traffic_info;
            &&& b.0 == a.0 - o.packet_sent + n.packet_sent
            &&& b.1 == a.1 - o.packet_received + n.packet_received
            &&& b.2 == a.2 - o.bytes_sent + n.bytes_sent
            &&& b.3 == a.3 - o.bytes_received + n.bytes_received
        }),
    decreases s.len(),
{
    if i < s.len() - 1 {
        lemma_hosts_sum_update(s.drop_last(), i, e);
        assert(s.update(i, e).drop_last() == s.drop_last().update(i, e));
    } else {
        assert(s.update(i, e).drop_last() == s.drop_last());
    }
}

/// Enrichment fields (country code, country name, ASN, AS name) that the
/// database gives an address; all empty on a miss.
pub open spec fn enrichment_of(db: IpDatabase, ip: IpAddress) -> (Seq<char>, Seq<char>, u32, Seq<char>) {
    match ip {
        IpAddress::V4(a) => if db.v4_view().contains_key(a) {
            let e = db.v4_view()[a];
            (e.1, db.country_name_of(e.1), e.0, db.as_name_of(e.0))
        } else {
            (Seq::empty(), Seq::empty(), 0u32, Seq::empty())
        },
        IpAddress::V6(a) => if db.v6_view().contains_key(a) {
            let e = db.v6_view()[a];
            (e.1, db.country_name_of(e.1), e.0, db.as_name_of(e.0))
        } else {
            (Seq::empty(), Seq::empty(), 0u32, Seq::empty())
        },
    }
}

/// The remote address of a frame in direction `dir`.
pub open spec fn remote_ip_of(frame: PacketFrame, dir: Direction) -> IpAddress {
    if dir == Direction::Egress { frame.ip.unwrap().destination } else { frame.ip.unwrap().source }
}

/// The local port of a frame in direction `dir`.
pub open spec fn local_port_of(frame: PacketFrame, dir: Direction) -> u16 {
    if dir == Direction::Egress { ports_of(frame).0 } else { ports_of(frame).1 }
}

/// The remote port of a frame in direction `dir`.
pub open spec fn remote_port_of(frame: PacketFrame, dir: Direction) -> u16 {
    if dir == Direction::Egress { ports_of(frame).1 } else { ports_of(frame).0 }
}

/// `m` with `t` added at `key(p)` when the frame has a protocol `p`.
pub open spec fn add_if_transport<K>(m: Map<K, TrafficInfo>, proto: Option<TransportProtocol>, key: K, t: TrafficInfo) -> Map<K, TrafficInfo> {
    if proto.is_some() {
        counters_add(m, key, t)
    } else {
        m
    }
}

/// The connection a TCP frame in direction `dir` belongs to.
pub open spec fn tcp_key_of(frame: PacketFrame, dir: Direction) -> SocketConnection {
    let ip = frame.ip.unwrap();
    let local = if dir == Direction::Egress { ip.source } else { ip.destination };
    SocketConnection {
        local_socket: SocketAddress { ip: local, port: local_port_of(frame, dir) },
        remote_socket: SocketAddress { ip: remote_ip_of(frame, dir), port: remote_port_of(frame, dir) },
        protocol: TransportProtocol::TCP,
    }
}

/// Connections after a frame: a TCP frame whose connection is known with
/// status Unknown gives it the status its flags indicate; nothing else changes.
pub open spec fn infer_status(
    conns: Map<SocketConnection, SocketConnectionInfo>,
    frame: PacketFrame,
    dir: Direction,
) -> Map<SocketConnection, SocketConnectionInfo> {
    let k = tcp_key_of(frame, dir);
    match tcp_flags_of(frame) {
        Some(f) => if conns.contains_key(k) && conns[k].status == SocketStatus::Unknown {
            conns.insert(k, SocketConnectionInfo { status: status_of_flags(f), process: conns[k].process })
        } else {
            conns
        },
        None => conns,
    }
}

/// Entries `a` and `b` hold the same host, field for field.
pub open spec fn same_host(a: (IpAddress, RemoteHostInfo), b: (IpAddress, RemoteHostInfo)) -> bool {
    &&& a.0 == b.0
    &&& a.1.mac_addr == b.1.mac_addr
    &&& a.1.ip_addr == b.1.ip_addr
    &&& a.1.hostname == b.1.hostname
    &&& a.1.country_code == b.1.country_code
    &&& a.1.country_name == b.1.country_name
    &&& a.1.asn == b.1.asn
    &&& a.1.as_name == b.1.as_name
    &&& a.1.traffic_info == b.1.traffic_info
    &&& a.1.protocol_stat@ == b.1.protocol_stat@
    &&& a.1.first_seen == b.1.first_seen
    &&& a.1.updated_at == b.1.updated_at
}

/// The shared aggregate: interface, totals, per-host, per-socket, per-port and
/// per-connection state, reverse DNS names, the local address set and the IP database.
///
/// Its maps are entry lists with unique keys (`keys_unique`) seen through
/// `table_view`: the keys are structs, and for a `HashMap` keyed by a struct
/// with derived `Eq` and `Hash` Verus proves nothing about lookups.
pub struct NetStatStrage {
    pub interface: Interface,
    pub traffic: TrafficInfo,
    pub remote_hosts: Vec<(IpAddress, RemoteHostInfo)>,
    pub sockets: Vec<(ProtocolSocketAddress, TrafficInfo)>,
    pub local_ports: Vec<(PortInfo, TrafficInfo)>,
    pub connections: Vec<(SocketConnection, SocketConnectionInfo)>,
    pub reverse_dns_map: Vec<(IpAddress, String)>,
    pub local_ips: Vec<IpAddress>,
    pub ipdb: IpDatabase,
}



fn fits_exec(t: &TrafficInfo, dir: Direction, len: u64) -> (r: bool)
    ensures
        r == frame_fits(*t, dir, len),
{
    match dir {
        Direction::Egress => t.packet_sent < u64::MAX && t.bytes_sent <= u64::MAX - len,
        Direction::Ingress => t.packet_received < u64::MAX && t.bytes_received <= u64::MAX - len,
    }
}

fn frame_traffic_exec(dir: Direction, len: u64) -> (r: TrafficInfo)
    ensures
        r == frame_traffic(dir, len),
{
    match dir {
        Direction::Egress => TrafficInfo { packet_sent: 1, packet_received: 0, bytes_sent: len, bytes_received: 0 },
        Direction::Ingress => TrafficInfo { packet_sent: 0, packet_received: 1, bytes_sent: 0, bytes_received: len },
    }
}

/// Fills the enrichment fields of `h` from the database.
fn enrich_host(h: &mut RemoteHostInfo, db: &IpDatabase)
    ensures
        ({
            let e = enrichment_of(*db, old(h).ip_addr);
            let found = e.2 != 0 || e.0.len() != 0 || e.1.len() != 0 || e.3.len() != 0;
            &&& final(h).country_code@ == (if found { e.0 } else { old(h).country_code@ })
            &&& final(h).country_name@ == (if found { e.1 } else { old(h).country_name@ })
            &&& final(h).asn == (if found { e.2 } else { old(h).asn })
            &&& final(h).as_name@ == (if found { e.3 } else { old(h).as_name@ })
            &&& !found ==> *final(h) == *old(h)
        }),
        final(h).ip_addr == old(h).ip_addr,
        final(h).mac_addr == old(h).mac_addr,
        final(h).hostname == old(h).hostname,
        final(h).traffic_info == old(h).traffic_info,
        final(h).protocol_stat == old(h).protocol_stat,
        final(h).first_seen == old(h).first_seen,
        final(h).updated_at == old(h).updated_at,
{
    let info = match h.ip_addr {
        IpAddress::V4(a) => db.get_ipv4_info(a),
        IpAddress::V6(a) => db.get_ipv6_info(a),
    };
    match info {
        Some(i) => {
            if i.asn != 0 || !i.country_code.as_str().is_empty() || !i.country_name.as_str().is_empty()
                || !i.as_name.as_str().is_empty() {
                h.country_code = i.country_code;
                h.country_name = i.country_name;
                h.asn = i.asn;
                h.as_name = i.as_name;
            }
        },
        None => {},
    }
}


/// The local address set of an interface: its IPv4 and IPv6 addresses and
/// the two loopback addresses.
pub fn get_interface_local_ips(iface: &Interface) -> (r: Vec<IpAddress>)
    ensures
        r@.to_set() == interface_ips(*iface),
        r@.contains(IpAddress::V4(0x7f000001)),
        r@.contains(IpAddress::V6(1)),
{
    let mut ips: Vec<IpAddress> = Vec::new();
    let mut i: usize = 0;
    while i < iface.ipv4.len()
        invariant
            i <= iface.ipv4@.len(),
            ips@ == Seq::new(i as nat, |j: int| IpAddress::V4(iface.ipv4@[j])),
        decreases iface.ipv4@.len() - i,
    {
        ips.push(IpAddress::V4(iface.ipv4[i]));
        i = i + 1;
    }
    let ghost n4 = ips@.len();
    let mut j: usize = 0;
    while j < iface.ipv6.len()
        invariant
            j <= iface.ipv6@.len(),
            n4 == iface.ipv4@.len(),
            ips@.len() == n4 + j,
            forall|a: int| 0 <= a < n4 ==> ips@[a] == IpAddress::V4(iface.ipv4@[a]),
            forall|b: int| 0 <= b < j ==> ips@[n4 + b] == IpAddress::V6(iface.ipv6@[b]),
        decreases iface.ipv6@.len() - j,
    {
        ips.push(IpAddress::V6(iface.ipv6[j]));
        j = j + 1;
    }
    ips.push(IpAddress::V4(0x7f000001));
    ips.push(IpAddress::V6(1));
    proof {
        let n = ips@.len();
        assert forall|ip: IpAddress| ips@.to_set().contains(ip) <==> interface_ips(*iface).contains(ip) by {
            if ips@.contains(ip) {
                let p = choose|p: int| 0 <= p < n && ips@[p] == ip;
                if p < n4 {
                    assert(ip == IpAddress::V4(iface.ipv4@[p]));
                } else if p < n - 2 {
                    assert(ip == IpAddress::V6(iface.ipv6@[p - n4]));
                }
            }
            if interface_ips(*iface).contains(ip) {
                if ip == IpAddress::V4(0x7f000001) {
                    assert(ips@[n - 2] == ip);
                } else if ip == IpAddress::V6(1) {
                    assert(ips@[n - 1] == ip);
                } else if exists|a: int| 0 <= a < iface.ipv4@.len() && ip == IpAddress::V4(iface.ipv4@[a]) {
                    let a = choose|a: int| 0 <= a < iface.ipv4@.len() && ip == IpAddress::V4(iface.ipv4@[a]);
                    assert(ips@[a] == ip);
                } else {
                    let b = choose|b: int| 0 <= b < iface.ipv6@.len() && ip == IpAddress::V6(iface.ipv6@[b]);
                    assert(ips@[n4 + b] == ip);
                }
            }
        }
        assert(ips@.to_set() =~= interface_ips(*iface));
        assert(ips@[n - 2] == IpAddress::V4(0x7f000001));
        assert(ips@[n - 1] == IpAddress::V6(1));
    }
    ips
}

impl NetStatStrage {
    pub open spec fn wf(&self) -> bool {
        &&& hosts_wf(self.remote_hosts@)
        &&& keys_unique(self.sockets@)
        &&& keys_unique(self.local_ports@)
        &&& keys_unique(self.connections@)
        &&& keys_unique(self.reverse_dns_map@)
        &&& hosts_sum(self.remote_hosts@) == traffic_tuple(self.traffic)
        &&& self.local_ips@.contains(IpAddress::V4(0x7f000001))
        &&& self.local_ips@.contains(IpAddress::V6(1))
    }

    pub open spec fn hosts_view(&self) -> Map<IpAddress, RemoteHostInfo> {
        table_view(self.remote_hosts@)
    }

    pub open spec fn sockets_view(&self) -> Map<ProtocolSocketAddress, TrafficInfo> {
        table_view(self.sockets@)
    }

    pub open spec fn local_ports_view(&self) -> Map<PortInfo, TrafficInfo> {
        table_view(self.local_ports@)
    }

    pub open spec fn connections_view(&self) -> Map<SocketConnection, SocketConnectionInfo> {
        table_view(self.connections@)
    }

    pub open spec fn local_set(&self) -> Set<IpAddress> {
        self.local_ips@.to_set()
    }

    /// The direction in which `update` counts `frame`: none when the frame is
    /// dropped, either by the classifier or because a total would exceed `u64`.
    pub open spec fn accepted(&self, frame: PacketFrame) -> Option<Direction> {
        let d = direction_of(frame, self.local_set());
        if d.is_some() && frame_fits(self.traffic, d.unwrap(), frame.packet_len) {
            d
        } else {
            None
        }
    }

    /// What `update` does to the totals: they grow by the frame when it is
    /// accepted and stay as they are otherwise; the local set never changes.
    pub open spec fn traffic_step(&self, frame: PacketFrame, next: NetStatStrage) -> bool {
        &&& next.local_ips == self.local_ips
        &&& next.traffic == (match self.accepted(frame) {
            Some(d) => traffic_add(self.traffic, frame_traffic(d, frame.packet_len)),
            None => self.traffic,
        })
    }

    /// The data fields are empty and the totals zero.
    pub open spec fn is_reset(&self) -> bool {
        &&& self.traffic == zero_traffic()
        &&& self.reverse_dns_map@.len() == 0
        &&& self.remote_hosts@.len() == 0
        &&& self.sockets@.len() == 0
        &&& self.local_ports@.len() == 0
        &&& self.connections@.len() == 0
    }

    /// Adds one frame to every counter it concerns. A frame without an IP
    /// layer, with both or neither endpoint local, or that would overflow a
    /// total is dropped and leaves the store unchanged. On first sight of its
    /// remote address a host is created and enriched from the IP database.
    /// Connections are created only by the socket reconciler; a TCP frame
    /// gives a known connection with status Unknown the status its flags show.
    pub fn update(&mut self, frame: &PacketFrame)
        requires
            old(self).wf(),
        ensures
            final(self).wf(),
            old(self).traffic_step(*frame, *final(self)),
            old(self).accepted(*frame).is_none() ==> *final(self) == *old(self),
            old(self).accepted(*frame).is_some() ==> ({
                let d = old(self).accepted(*frame).unwrap();
                let ft = frame_traffic(d, frame.packet_len);
                let remote = remote_ip_of(*frame, d);
                let proto = protocol_of(*frame);
                let rport = remote_port_of(*frame, d);
                let oh = old(self).hosts_view();
                let nh = final(self).hosts_view();
                &&& final(self).traffic == traffic_add(old(self).traffic, ft)
                &&& nh.dom() == oh.dom().insert(remote)
                &&& forall|k: IpAddress| #![auto] k != remote && oh.contains_key(k) ==> nh[k] == oh[k]
                &&& nh[remote].traffic_info == traffic_add(
                    if oh.contains_key(remote) { oh[remote].traffic_info } else { zero_traffic() }, ft)
                &&& nh[remote].ports_view() == add_if_transport(
                    if oh.contains_key(remote) { oh[remote].ports_view() } else { Map::empty() },
                    proto, PortInfo { port: rport, protocol: proto.unwrap() }, ft)
                &&& nh[remote].updated_at@ == frame.timestamp@
                &&& oh.contains_key(remote) ==> {
                    &&& nh[remote].mac_addr == oh[remote].mac_addr
                    &&& nh[remote].hostname == oh[remote].hostname
                    &&& nh[remote].country_code == oh[remote].country_code
                    &&& nh[remote].country_name == oh[remote].country_name
                    &&& nh[remote].asn == oh[remote].asn
                    &&& nh[remote].as_name == oh[remote].as_name
                    &&& nh[remote].first_seen == oh[remote].first_seen
                }
                &&& !oh.contains_key(remote) ==> {
                    let e = enrichment_of(old(self).ipdb, remote);
                    &&& nh[remote].mac_addr@ == peer_mac(*frame, d)
                    &&& nh[remote].hostname@.len() == 0
                    &&& nh[remote].first_seen@ == frame.timestamp@
                    &&& nh[remote].country_code@ == e.0
                    &&& nh[remote].country_name@ == e.1
                    &&& nh[remote].asn == e.2
                    &&& nh[remote].as_name@ == e.3
                }
                &&& final(self).sockets_view() == add_if_transport(old(self).sockets_view(), proto,
                    ProtocolSocketAddress { socket: SocketAddress { ip: remote, port: rport }, protocol: proto.unwrap() }, ft)
                &&& final(self).local_ports_view() == add_if_transport(old(self).local_ports_view(), proto,
                    PortInfo { port: local_port_of(*frame, d), protocol: proto.unwrap() }, ft)
                &&& final(self).connections_view() == infer_status(old(self).connections_view(), *frame, d)
                &&& final(self).reverse_dns_map == old(self).reverse_dns_map
                &&& final(self).local_ips == old(self).local_ips
                &&& final(self).interface == old(self).interface
                &&& final(self).ipdb == old(self).ipdb
            }),
    {
        let c = match classify(frame, &self.local_ips) {
            Some(c) => c,
            None => return,
        };
        let dir = c.direction;
        let len = c.packet_len;
        if !fits_exec(&self.traffic, dir, len) {
            return;
        }
        let ft = frame_traffic_exec(dir, len);
        let ghost old_traffic = self.traffic;
        let ghost oh = self.hosts_view();
        self.traffic.add_frame(dir, len);
        match find_key(&self.remote_hosts, &c.remote_ip, |x: &IpAddress, y: &IpAddress| -> (e: bool) ensures e == (*x == *y), { *x == *y }) {
            Some(i) => {
                proof {
                    lemma_table_get(self.remote_hosts@, i as int);
                    lemma_host_le_sum(self.remote_hosts@, i as int);
                }
                let ghost before = self.remote_hosts@;
                let (k, mut h) = self.remote_hosts.remove(i);
                h.traffic_info.add_frame(dir, len);
                match c.protocol {
                    Some(p) => add_port_traffic(&mut h.protocol_stat, PortInfo { port: c.remote_port, protocol: p }, ft),
                    None => {},
                }
                h.updated_at = frame.timestamp.clone();
                let ghost e = (k, h);
                self.remote_hosts.insert(i, (k, h));
                proof {
                    assert(self.remote_hosts@ =~= before.update(i as int, e));
                    lemma_table_update(before, i as int, h);
                    lemma_hosts_sum_update(before, i as int, e);
                    assert forall|j: int| 0 <= j < self.remote_hosts@.len() implies
                        (#[trigger] self.remote_hosts@[j]).0 == self.remote_hosts@[j].1.ip_addr && self.remote_hosts@[j].1.wf() by {
                        if j != i {
                            assert(self.remote_hosts@[j] == before[j]);
                        }
                    }
                    assert(self.hosts_view().dom() =~= oh.dom().insert(c.remote_ip));
                }
            },
            None => {
                let mut h = RemoteHostInfo::new(c.mac.clone(), c.remote_ip, frame.timestamp.clone());
                enrich_host(&mut h, &self.ipdb);
                h.traffic_info.add_frame(dir, len);
                match c.protocol {
                    Some(p) => add_port_traffic(&mut h.protocol_stat, PortInfo { port: c.remote_port, protocol: p }, ft),
                    None => {},
                }
                let ghost before = self.remote_hosts@;
                proof {
                    lemma_table_push(before, c.remote_ip, h);
                    assert(before.push((c.remote_ip, h)).drop_last() == before);
                }
                self.remote_hosts.push((c.remote_ip, h));
                proof {
                    assert forall|j: int| 0 <= j < self.remote_hosts@.len() implies
                        (#[trigger] self.remote_hosts@[j]).0 == self.remote_hosts@[j].1.ip_addr && self.remote_hosts@[j].1.wf() by {
                        if j < before.len() {
                            assert(self.remote_hosts@[j] == before[j]);
                        }
                    }
                    assert(self.hosts_view().dom() =~= oh.dom().insert(c.remote_ip));
                }
            },
        }
        match c.protocol {
            Some(p) => {
                add_socket_traffic(
                    &mut self.sockets,
                    ProtocolSocketAddress { socket: SocketAddress { ip: c.remote_ip, port: c.remote_port }, protocol: p },
                    ft,
                );
                add_port_traffic(&mut self.local_ports, PortInfo { port: c.local_port, protocol: p }, ft);
            },
            None => {},
        }
        match c.tcp_flags {
            Some(flags) => {
                let key = SocketConnection {
                    local_socket: SocketAddress { ip: c.local_ip, port: c.local_port },
                    remote_socket: SocketAddress { ip: c.remote_ip, port: c.remote_port },
                    protocol: TransportProtocol::TCP,
                };
                match find_key(&self.connections, &key, |x: &SocketConnection, y: &SocketConnection| -> (e: bool) ensures e == (*x == *y), { *x == *y }) {
                    Some(i) => {
                        proof { lemma_table_get(self.connections@, i as int); }
                        if self.connections[i].1.status == SocketStatus::Unknown {
                            let ghost before = self.connections@;
                            let (k, mut info) = self.connections.remove(i);
                            info.status = SocketStatus::from_xenet_tcp_flags(flags);
                            let ghost e = (k, info);
                            self.connections.insert(i, (k, info));
                            proof {
                                assert(self.connections@ =~= before.update(i as int, e));
                                lemma_table_update(before, i as int, info);
                            }
                        }
                    },
                    None => {
                        proof { lemma_table_absent(self.connections@, key); }
                    },
                }
            },
            None => {},
        }
    }

    /// A store bound to `interface`, with no data, the interface's local
    /// address set (plus loopbacks) and an empty IP database.
    pub fn new(interface: Interface) -> (r: NetStatStrage)
        ensures
            r.wf(),
            r.is_reset(),
            r.local_set() == interface_ips(interface),
            r.interface == interface,
            forall|k: u32| !r.ipdb.v4_view().contains_key(k),
            forall|k: u128| !r.ipdb.v6_view().contains_key(k),
    {
        let local_ips = get_interface_local_ips(&interface);
        NetStatStrage {
            interface,
            traffic: TrafficInfo::new(),
            remote_hosts: Vec::new(),
            sockets: Vec::new(),
            local_ports: Vec::new(),
            connections: Vec::new(),
            reverse_dns_map: Vec::new(),
            local_ips,
            ipdb: IpDatabase::new(),
        }
    }

    pub fn get_if_index(&self) -> (r: u32)
        ensures
            r == self.interface.index,
    {
        self.interface.index
    }

    pub fn get_if_name(&self) -> (r: String)
        ensures
            r@ == self.interface.name@,
    {
        self.interface.name.clone()
    }

    /// Whether `if_index` differs from the bound interface.
    pub fn interface_changed(&self, if_index: u32) -> (r: bool)
        ensures
            r == (if_index != self.interface.index),
    {
        if_index != self.interface.index
    }

    /// Binds the store to another interface: swaps it in, recomputes the
    /// local address set and resets every data field.
    pub fn set_interface(&mut self, interface: Interface)
        requires
            old(self).wf(),
        ensures
            final(self).wf(),
            final(self).is_reset(),
            final(self).interface == interface,
            final(self).local_set() == interface_ips(interface),
            final(self).ipdb == old(self).ipdb,
    {
        self.local_ips = get_interface_local_ips(&interface);
        self.interface = interface;
        self.reset();
    }

    /// Replaces the IP database.
    pub fn load_ipdb(&mut self, ipdb: IpDatabase)
        requires
            old(self).wf(),
        ensures
            final(self).wf(),
            final(self).ipdb == ipdb,
            final(self).traffic == old(self).traffic,
            final(self).remote_hosts == old(self).remote_hosts,
            final(self).sockets == old(self).sockets,
            final(self).local_ports == old(self).local_ports,
            final(self).connections == old(self).connections,
            final(self).local_ips == old(self).local_ips,
            final(self).interface == old(self).interface,
    {
        self.ipdb = ipdb;
    }

    /// Zeroes traffic and empties hosts, sockets, local ports, connections
    /// and reverse DNS names; interface, local addresses and database stay.
    pub fn reset(&mut self)
        requires
            old(self).wf(),
        ensures
            final(self).wf(),
            final(self).is_reset(),
            final(self).interface == old(self).interface,
            final(self).local_ips == old(self).local_ips,
            final(self).ipdb == old(self).ipdb,
    {
        self.reset_data();
    }

    /// Starts a new epoch: zeroes traffic and empties hosts, sockets, local
    /// ports, connections and reverse DNS names.
    pub fn reset_data(&mut self)
        requires
            old(self).wf(),
        ensures
            final(self).wf(),
            final(self).is_reset(),
            final(self).interface == old(self).interface,
            final(self).local_ips == old(self).local_ips,
            final(self).ipdb == old(self).ipdb,
    {
        self.traffic = TrafficInfo::new();
        self.remote_hosts = Vec::new();
        self.sockets = Vec::new();
        self.local_ports = Vec::new();
        self.connections = Vec::new();
        self.reverse_dns_map = Vec::new();
    }

    /// Takes the data fields out as a snapshot and leaves them reset: the
    /// snapshot holds exactly what the store held, its host counters sum to
    /// its totals, and the store is zero afterwards.
    pub fn clone_data_and_reset(&mut self) -> (r: NetStatData)
        requires
            old(self).wf(),
        ensures
            final(self).wf(),
            final(self).is_reset(),
            final(self).interface == old(self).interface,
            final(self).local_ips == old(self).local_ips,
            final(self).ipdb == old(self).ipdb,
            r.wf(),
            r.if_index == old(self).interface.index,
            r.if_name@ == old(self).interface.name@,
            r.traffic == old(self).traffic,
            r.remote_hosts == old(self).remote_hosts,
            r.sockets == old(self).sockets,
            r.local_ports == old(self).local_ports,
            r.connections == old(self).connections,
            hosts_sum(r.remote_hosts@) == traffic_tuple(r.traffic),
    {
        let mut remote_hosts: Vec<(IpAddress, RemoteHostInfo)> = Vec::new();
        let mut sockets: Vec<(ProtocolSocketAddress, TrafficInfo)> = Vec::new();
        let mut local_ports: Vec<(PortInfo, TrafficInfo)> = Vec::new();
        let mut connections: Vec<(SocketConnection, SocketConnectionInfo)> = Vec::new();
        std::mem::swap(&mut remote_hosts, &mut self.remote_hosts);
        std::mem::swap(&mut sockets, &mut self.sockets);
        std::mem::swap(&mut local_ports, &mut self.local_ports);
        std::mem::swap(&mut connections, &mut self.connections);
        let traffic = self.traffic;
        self.traffic = TrafficInfo::new();
        self.reverse_dns_map = Vec::new();
        NetStatData {
            if_index: self.interface.index,
            if_name: self.interface.name.clone(),
            traffic,
            remote_hosts,
            sockets,
            local_ports,
            connections,
        }
    }

    /// Records a reverse DNS name for `ip`, and gives it to the host of that
    /// address when the host has no name yet.
    pub fn attach_dns(&mut self, ip: IpAddress, name: String)
        requires
            old(self).wf(),
        ensures
            final(self).wf(),
            table_view(final(self).reverse_dns_map@) == table_view(old(self).reverse_dns_map@).insert(ip, name),
            final(self).hosts_view().dom() == old(self).hosts_view().dom(),
            forall|k: IpAddress| #![auto] k != ip && old(self).hosts_view().contains_key(k)
                ==> final(self).hosts_view()[k] == old(self).hosts_view()[k],
            old(self).hosts_view().contains_key(ip) ==> final(self).hosts_view()[ip].hostname@
                == crate::host::first_nonempty(old(self).hosts_view()[ip].hostname@, name@),
            old(self).hosts_view().contains_key(ip) ==> final(self).hosts_view()[ip].traffic_info
                == old(self).hosts_view()[ip].traffic_info,
            final(self).traffic == old(self).traffic,
            final(self).sockets == old(self).sockets,
            final(self).local_ports == old(self).local_ports,
            final(self).connections == old(self).connections,
            final(self).local_ips == old(self).local_ips,
            final(self).interface == old(self).interface,
            final(self).ipdb == old(self).ipdb,
    {
        match find_key(&self.remote_hosts, &ip, |x: &IpAddress, y: &IpAddress| -> (e: bool) ensures e == (*x == *y), { *x == *y }) {
            Some(i) => {
                proof { lemma_table_get(self.remote_hosts@, i as int); }
                let ghost before = self.remote_hosts@;
                let (k, mut h) = self.remote_hosts.remove(i);
                if h.hostname.as_str().is_empty() {
                    h.hostname = name.clone();
                }
                let ghost e = (k, h);
                self.remote_hosts.insert(i, (k, h));
                proof {
                    assert(self.remote_hosts@ =~= before.update(i as int, e));
                    lemma_table_update(before, i as int, h);
                    lemma_hosts_sum_update(before, i as int, e);
                    assert forall|j: int| 0 <= j < self.remote_hosts@.len() implies
                        (#[trigger] self.remote_hosts@[j]).0 == self.remote_hosts@[j].1.ip_addr && self.remote_hosts@[j].1.wf() by {
                        if j != i {
                            assert(self.remote_hosts@[j] == before[j]);
                        }
                    }
                    assert(self.hosts_view().dom() =~= table_view(before).dom());
                }
            },
            None => {
                proof { lemma_table_absent(self.remote_hosts@, ip); }
            },
        }
        match find_key(&self.reverse_dns_map, &ip, |x: &IpAddress, y: &IpAddress| -> (e: bool) ensures e == (*x == *y), { *x == *y }) {
            Some(i) => {
                proof { lemma_table_set(self.reverse_dns_map@, i as int, (ip, name)); }
                self.reverse_dns_map.set(i, (ip, name));
            },
            None => {
                proof { lemma_table_push(self.reverse_dns_map@, ip, name); }
                self.reverse_dns_map.push((ip, name));
            },
        }
    }

    /// One sweep of the IP-info reconciler: every host without a country
    /// code is enriched from the current database; counters are untouched.
    pub fn enrich_hosts(&mut self)
        requires
            old(self).wf(),
        ensures
            final(self).wf(),
            final(self).remote_hosts@.len() == old(self).remote_hosts@.len(),
            forall|i: int| 0 <= i < final(self).remote_hosts@.len() ==> {
                let o = #[trigger] old(self).remote_hosts@[i];
                let n = final(self).remote_hosts@[i];
                let e = enrichment_of(old(self).ipdb, o.0);
                let found = e.2 != 0 || e.0.len() != 0 || e.1.len() != 0 || e.3.len() != 0;
                &&& n.0 == o.0
                &&& n.1.traffic_info == o.1.traffic_info
                &&& n.1.protocol_stat == o.1.protocol_stat
                &&& n.1.hostname == o.1.hostname
                &&& (o.1.country_code@.len() == 0 && found) ==> {
                    &&& n.1.country_code@ == e.0
                    &&& n.1.country_name@ == e.1
                    &&& n.1.asn == e.2
                    &&& n.1.as_name@ == e.3
                }
                &&& !(o.1.country_code@.len() == 0 && found) ==> {
                    &&& n.1.country_code == o.1.country_code
                    &&& n.1.country_name == o.1.country_name
                    &&& n.1.asn == o.1.asn
                    &&& n.1.as_name == o.1.as_name
                }
            },
            final(self).traffic == old(self).traffic,
            final(self).sockets == old(self).sockets,
            final(self).local_ports == old(self).local_ports,
            final(self).connections == old(self).connections,
            final(self).reverse_dns_map == old(self).reverse_dns_map,
            final(self).local_ips == old(self).local_ips,
            final(self).interface == old(self).interface,
            final(self).ipdb == old(self).ipdb,
    {
        let mut i: usize = 0;
        while i < self.remote_hosts.len()
            invariant
                i <= self.remote_hosts@.len(),
                self.wf(),
                self.remote_hosts@.len() == old(self).remote_hosts@.len(),
                forall|j: int| i <= j < self.remote_hosts@.len() ==> self.remote_hosts@[j] == old(self).remote_hosts@[j],
                forall|j: int| 0 <= j < i ==> {
                    let o = #[trigger] old(self).remote_hosts@[j];
                    let n = self.remote_hosts@[j];
                    let e = enrichment_of(old(self).ipdb, o.0);
                    let found = e.2 != 0 || e.0.len() != 0 || e.1.len() != 0 || e.3.len() != 0;
                    &&& n.0 == o.0
                    &&& n.1.traffic_info == o.1.traffic_info
                    &&& n.1.protocol_stat == o.1.protocol_stat
                    &&& n.1.hostname == o.1.hostname
                    &&& (o.1.country_code@.len() == 0 && found) ==> {
                        &&& n.1.country_code@ == e.0
                        &&& n.1.country_name@ == e.1
                        &&& n.1.asn == e.2
                        &&& n.1.as_name@ == e.3
                    }
                    &&& !(o.1.country_code@.len() == 0 && found) ==> {
                        &&& n.1.country_code == o.1.country_code
                        &&& n.1.country_name == o.1.country_name
                        &&& n.1.asn == o.1.asn
                        &&& n.1.as_name == o.1.as_name
                    }
                },
                self.traffic == old(self).traffic,
                self.sockets == old(self).sockets,
                self.local_ports == old(self).local_ports,
                self.connections == old(self).connections,
                self.reverse_dns_map == old(self).reverse_dns_map,
                self.local_ips == old(self).local_ips,
                self.interface == old(self).interface,
                self.ipdb == old(self).ipdb,
            decreases old(self).remote_hosts@.len() - i,
        {
            if self.remote_hosts[i].1.country_code.as_str().is_empty() {
                let ghost before = self.remote_hosts@;
                let (k, mut h) = self.remote_hosts.remove(i);
                proof { assert(k == h.ip_addr); }
                enrich_host(&mut h, &self.ipdb);
                let ghost e = (k, h);
                self.remote_hosts.insert(i, (k, h));
                proof {
                    assert(self.remote_hosts@ =~= before.update(i as int, e));
                    assert(self.remote_hosts@[i as int] == e);
                    assert(before[i as int] == old(self).remote_hosts@[i as int]);
                    assert forall|j: int| 0 <= j < self.remote_hosts@.len() && j != i implies
                        self.remote_hosts@[j] == before[j] by {}
                    lemma_hosts_sum_update(before, i as int, e);
                    assert(keys_unique(self.remote_hosts@)) by {
                        assert forall|a: int, b: int| 0 <= a < b < self.remote_hosts@.len() implies
                            self.remote_hosts@[a].0 != self.remote_hosts@[b].0 by {
                            assert(self.remote_hosts@[a].0 == before[a].0 && self.remote_hosts@[b].0 == before[b].0);
                        }
                    }
                    assert forall|j: int| 0 <= j < self.remote_hosts@.len() implies
                        (#[trigger] self.remote_hosts@[j]).0 == self.remote_hosts@[j].1.ip_addr && self.remote_hosts@[j].1.wf() by {
                        if j != i {
                            assert(self.remote_hosts@[j] == before[j]);
                        }
                    }
                }
            }
            i = i + 1;
        }
    }

    /// Copies the data fields into a snapshot and leaves the store as it
    /// is: same totals, same host entries (field for field), same socket and
    /// port counters, same connections with their status and process record.
    pub fn clone_data(&self) -> (r: NetStatData)
        requires
            self.wf(),
        ensures
            r.wf(),
            r.if_index == self.interface.index,
            r.if_name@ == self.interface.name@,
            r.traffic == self.traffic,
            r.remote_hosts@.len() == self.remote_hosts@.len(),
            forall|i: int| 0 <= i < r.remote_hosts@.len() ==> same_host(#[trigger] r.remote_hosts@[i], self.remote_hosts@[i]),
            r.sockets@ == self.sockets@,
            r.local_ports@ == self.local_ports@,
            r.connections@.len() == self.connections@.len(),
            forall|i: int| 0 <= i < r.connections@.len() ==> (#[trigger] r.connections@[i]).0 == self.connections@[i].0
                && conn_view(r.connections@[i].1) == conn_view(self.connections@[i].1),
            hosts_sum(r.remote_hosts@) == traffic_tuple(r.traffic),
    {
        let mut hosts: Vec<(IpAddress, RemoteHostInfo)> = Vec::new();
        let mut i: usize = 0;
        while i < self.remote_hosts.len()
            invariant
                i <= self.remote_hosts@.len(),
                self.wf(),
                hosts@.len() == i,
                forall|j: int| 0 <= j < i ==> same_host(#[trigger] hosts@[j], self.remote_hosts@[j]),
                hosts_sum(hosts@) == hosts_sum(self.remote_hosts@.subrange(0, i as int)),
            decreases self.remote_hosts@.len() - i,
        {
            let e = (self.remote_hosts[i].0, self.remote_hosts[i].1.duplicate());
            let ghost before = hosts@;
            hosts.push(e);
            proof {
                assert(hosts@.drop_last() == before);
                assert(self.remote_hosts@.subrange(0, i + 1).drop_last() == self.remote_hosts@.subrange(0, i as int));
            }
            i = i + 1;
        }
        proof { assert(self.remote_hosts@.subrange(0, i as int) == self.remote_hosts@); }
        let mut sockets: Vec<(ProtocolSocketAddress, TrafficInfo)> = Vec::new();
        let mut j: usize = 0;
        while j < self.sockets.len()
            invariant
                j <= self.sockets@.len(),
                sockets@ == self.sockets@.subrange(0, j as int),
            decreases self.sockets@.len() - j,
        {
            sockets.push(self.sockets[j]);
            j = j + 1;
            proof { assert(sockets@ =~= self.sockets@.subrange(0, j as int)); }
        }
        proof { assert(self.sockets@.subrange(0, j as int) == self.sockets@); }
        let mut ports: Vec<(PortInfo, TrafficInfo)> = Vec::new();
        let mut p: usize = 0;
        while p < self.local_ports.len()
            invariant
                p <= self.local_ports@.len(),
                ports@ == self.local_ports@.subrange(0, p as int),
            decreases self.local_ports@.len() - p,
        {
            ports.push(self.local_ports[p]);
            p = p + 1;
            proof { assert(ports@ =~= self.local_ports@.subrange(0, p as int)); }
        }
        proof { assert(self.local_ports@.subrange(0, p as int) == self.local_ports@); }
        let mut conns: Vec<(SocketConnection, SocketConnectionInfo)> = Vec::new();
        let mut q: usize = 0;
        while q < self.connections.len()
            invariant
                q <= self.connections@.len(),
                conns@.len() == q,
                forall|a: int| 0 <= a < q ==> (#[trigger] conns@[a]).0 == self.connections@[a].0
                    && conn_view(conns@[a].1) == conn_view(self.connections@[a].1),
            decreases self.connections@.len() - q,
        {
            let c = &self.connections[q].1;
            let process = crate::process::copy_process(&c.process);
            conns.push((self.connections[q].0, SocketConnectionInfo { status: c.status, process }));
            q = q + 1;
        }
        let r = NetStatData {
            if_index: self.interface.index,
            if_name: self.interface.name.clone(),
            traffic: self.traffic,
            remote_hosts: hosts,
            sockets,
            local_ports: ports,
            connections: conns,
        };
        proof {
            assert forall|a: int, b: int| 0 <= a < b < r.remote_hosts@.len() implies r.remote_hosts@[a].0 != r.remote_hosts@[b].0 by {
                assert(same_host(r.remote_hosts@[a], self.remote_hosts@[a]));
                assert(same_host(r.remote_hosts@[b], self.remote_hosts@[b]));
            }
            assert forall|a: int| 0 <= a < r.remote_hosts@.len() implies
                (#[trigger] r.remote_hosts@[a]).0 == r.remote_hosts@[a].1.ip_addr && r.remote_hosts@[a].1.wf() by {
                assert(same_host(r.remote_hosts@[a], self.remote_hosts@[a]));
            }
            assert forall|a: int, b: int| 0 <= a < b < r.connections@.len() implies r.connections@[a].0 != r.connections@[b].0 by {
                assert(r.connections@[a].0 == self.connections@[a].0);
                assert(r.connections@[b].0 == self.connections@[b].0);
            }
        }
        r
    }

    /// A snapshot of the data fields; with `reset` the store is reset in the
    /// same step, so every frame counts in exactly one snapshot.
    pub fn snapshot(&mut self, reset: bool) -> (r: NetStatData)
        requires
            old(self).wf(),
        ensures
            final(self).wf(),
            r.wf(),
            r.traffic == old(self).traffic,
            r.if_index == old(self).interface.index,
            hosts_sum(r.remote_hosts@) == traffic_tuple(r.traffic),
            r.remote_hosts@.len() == old(self).remote_hosts@.len(),
            forall|i: int| 0 <= i < r.remote_hosts@.len() ==> same_host(#[trigger] r.remote_hosts@[i], old(self).remote_hosts@[i]),
            r.sockets@ == old(self).sockets@,
            r.local_ports@ == old(self).local_ports@,
            r.if_name@ == old(self).interface.name@,
            r.connections@.len() == old(self).connections@.len(),
            forall|i: int| 0 <= i < r.connections@.len() ==> (#[trigger] r.connections@[i]).0 == old(self).connections@[i].0
                && conn_view(r.connections@[i].1) == conn_view(old(self).connections@[i].1),
            reset ==> final(self).is_reset(),
            !reset ==> *final(self) == *old(self),
            final(self).interface == old(self).interface,
            final(self).local_ips == old(self).local_ips,
            final(self).ipdb == old(self).ipdb,
    {
        if reset {
            let r = self.clone_data_and_reset();
            proof {
                assert forall|i: int| 0 <= i < r.remote_hosts@.len() implies
                    same_host(#[trigger] r.remote_hosts@[i], old(self).remote_hosts@[i]) by {}
            }
            r
        } else {
            self.clone_data()
        }
    }
}

} // verus!
