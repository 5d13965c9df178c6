use nustat::addr::IpAddress;
use nustat::data::NetStatData;
use nustat::host::RemoteHostInfo;
use nustat::ipdb::{AutonomousSystem, Country, IpDatabase, Ipv4Info, Ipv6Info};
use nustat::packet::{DatalinkLayer, EthernetHeader, IpLayer, PacketFrame, TcpHeader, TransportLayer, UdpHeader};
use nustat::process::ProcessInfo;
use nustat::service::{ServiceDatabase, TcpService};
use nustat::socket::{
    AddressFamily, PortInfo, Protocol, SocketConnection, SocketConnectionInfo, SocketInfo, SocketStatus, TransportProtocol,
    TCP_ACK, TCP_FIN, TCP_PSH, TCP_RST, TCP_SYN,
};
use nustat::stat::{Interface, NetStatStrage};
use nustat::traffic::TrafficInfo;

fn ip4(a: u8, b: u8, c: u8, d: u8) -> u32 {
    u32::from_be_bytes([a, b, c, d])
}

fn local() -> IpAddress {
    IpAddress::v4(10, 0, 0, 2)
}

fn remote() -> IpAddress {
    IpAddress::v4(93, 184, 216, 34)
}

fn interface() -> Interface {
    Interface {
        index: 3,
        name: "eth0".to_string(),
        ipv4: vec![ip4(10, 0, 0, 2)],
        ipv6: vec![],
        mac_addr: "02:00:00:00:00:01".to_string(),
        is_up: true,
        is_loopback: false,
    }
}

fn tcp_frame(src: IpAddress, sp: u16, dst: IpAddress, dp: u16, flags: u8, len: u64) -> PacketFrame {
    PacketFrame {
        capture_no: 0,
        if_index: 3,
        if_name: "eth0".to_string(),
        datalink: Some(DatalinkLayer {
            ethernet: Some(EthernetHeader {
                source: "02:00:00:00:00:01".to_string(),
                destination: "02:00:00:00:00:fe".to_string(),
            }),
        }),
        ip: Some(IpLayer { source: src, destination: dst }),
        transport: Some(TransportLayer { tcp: Some(TcpHeader { source: sp, destination: dp, flags }), udp: None }),
        packet_len: len,
        timestamp: "2024-01-01T00:00:00+00:00".to_string(),
    }
}

fn udp_frame(src: IpAddress, sp: u16, dst: IpAddress, dp: u16, len: u64) -> PacketFrame {
    let mut f = tcp_frame(src, sp, dst, dp, 0, len);
    f.transport = Some(TransportLayer { tcp: None, udp: Some(UdpHeader { source: sp, destination: dp }) });
    f
}

fn syn() -> PacketFrame {
    tcp_frame(local(), 54321, remote(), 443, TCP_SYN, 74)
}

fn ack_in() -> PacketFrame {
    tcp_frame(remote(), 443, local(), 54321, TCP_ACK, 66)
}

fn host<'a>(hosts: &'a Vec<(IpAddress, RemoteHostInfo)>, ip: IpAddress) -> Option<&'a RemoteHostInfo> {
    hosts.iter().find(|(k, _)| *k == ip).map(|(_, h)| h)
}

fn traffic(ps: u64, pr: u64, bs: u64, br: u64) -> TrafficInfo {
    TrafficInfo { packet_sent: ps, packet_received: pr, bytes_sent: bs, bytes_received: br }
}

fn process(pid: u32, name: &str) -> ProcessInfo {
    ProcessInfo {
        pid,
        name: name.to_string(),
        exe_path: String::new(),
        cmd: vec![],
        status: "Run".to_string(),
        user_info: None,
        start_time: String::new(),
        elapsed_time: 0,
    }
}

fn tcp_socket(local_port: u16, remote_port: u16, pid: u32) -> SocketInfo {
    SocketInfo {
        local_ip_addr: local(),
        local_port,
        remote_ip_addr: Some(remote()),
        remote_port: Some(remote_port),
        protocol: Protocol::TCP,
        status: SocketStatus::Established,
        ip_version: AddressFamily::IPv4,
        process: Some(process(pid, "curl")),
    }
}

fn example_ipdb() -> IpDatabase {
    let mut db = IpDatabase::new();
    db.load_ipv4(vec![Ipv4Info {
        ip_from: ip4(93, 184, 216, 0),
        ip_to: ip4(93, 184, 216, 255),
        country_code: "US".to_string(),
        asn: 15133,
    }]);
    db.load_country(vec![Country { country_code: "US".to_string(), country_name: "United States".to_string() }]);
    db.load_autonomous(vec![AutonomousSystem { asn: 15133, as_name: "EDGECAST".to_string() }]);
    db
}

fn data_with_host(ip: IpAddress, t: TrafficInfo) -> NetStatData {
    let mut d = NetStatData::new();
    let mut h = RemoteHostInfo::new(String::new(), ip, "2024-01-01T00:00:00+00:00".to_string());
    h.traffic_info = t;
    d.traffic = t;
    d.remote_hosts.push((ip, h));
    d
}

#[test]
fn test_get_os_type() {
    let os_type = nustat::sys::get_os_type();
    println!("os_type: {}", os_type);
    assert!(os_type.len() > 0);
}

#[test]
fn scenario_outgoing_syn() {
    let mut store = NetStatStrage::new(interface());
    store.update(&syn());
    assert_eq!(store.traffic, traffic(1, 0, 74, 0));
    assert_eq!(store.remote_hosts.len(), 1);
    let h = host(&store.remote_hosts, remote()).unwrap();
    assert_eq!(h.traffic_info, traffic(1, 0, 74, 0));
    assert_eq!(h.mac_addr, "02:00:00:00:00:fe");
    assert_eq!(h.country_code, "");
    assert!(store.connections.is_empty());
}

#[test]
fn scenario_incoming_ack() {
    let mut store = NetStatStrage::new(interface());
    store.update(&syn());
    store.update(&ack_in());
    assert_eq!(store.traffic.bytes_received, 66);
    assert_eq!(store.traffic.bytes_sent, 74);
    let h = host(&store.remote_hosts, remote()).unwrap();
    assert_eq!(h.traffic_info.bytes_received, 66);
    assert_eq!(h.traffic_info.bytes_sent, 74);
    assert_eq!(store.remote_hosts.len(), 1);
}

#[test]
fn scenario_ipdb_enrichment() {
    let mut store = NetStatStrage::new(interface());
    store.load_ipdb(example_ipdb());
    store.update(&syn());
    let h = host(&store.remote_hosts, remote()).unwrap();
    assert_eq!(h.country_code, "US");
    assert_eq!(h.asn, 15133);
    assert_eq!(h.country_name, "United States");
    assert_eq!(h.as_name, "EDGECAST");
}

#[test]
fn scenario_snapshot_reset() {
    let mut store = NetStatStrage::new(interface());
    store.update(&syn());
    store.update(&ack_in());
    let data = store.clone_data_and_reset();
    assert_eq!(data.traffic, traffic(1, 1, 74, 66));
    assert_eq!(data.if_index, 3);
    assert_eq!(data.if_name, "eth0");
    let sum_bytes: u64 = data.remote_hosts.iter().map(|(_, h)| h.traffic_info.bytes_sent + h.traffic_info.bytes_received).sum();
    assert_eq!(sum_bytes, 140);
    assert_eq!(store.traffic, TrafficInfo::new());
    assert!(store.remote_hosts.is_empty());
    assert!(store.sockets.is_empty());
    assert!(store.local_ports.is_empty());
    assert_eq!(store.get_if_index(), 3);
    store.update(&syn());
    store.attach_dns(remote(), "example.com".to_string());
    let _ = store.clone_data_and_reset();
    assert!(store.reverse_dns_map.is_empty());
}

#[test]
fn scenario_socket_reconcile_top_process() {
    let mut store = NetStatStrage::new(interface());
    store.update(&syn());
    store.update(&ack_in());
    store.attach_sockets(&vec![tcp_socket(54321, 443, 42)]);
    let key = SocketConnection {
        local_socket: nustat::addr::SocketAddress::new(local(), 54321),
        remote_socket: nustat::addr::SocketAddress::new(remote(), 443),
        protocol: TransportProtocol::TCP,
    };
    let conn = store.connections.iter().find(|(k, _)| *k == key).map(|(_, c)| c).unwrap();
    assert_eq!(conn.process.as_ref().unwrap().pid, 42);
    assert_eq!(conn.status, SocketStatus::Established);
    let data = store.clone_data_and_reset();
    let top = data.get_top_processes(10);
    assert_eq!(top.len(), 1);
    assert_eq!(top[0].pid, 42);
    assert_eq!(top[0].name, "curl");
    assert_eq!(top[0].traffic.bytes_sent + top[0].traffic.bytes_received, 140);
}

#[test]
fn scenario_merge_hosts() {
    let ip = IpAddress::v4(8, 8, 8, 8);
    let mut a = data_with_host(ip, traffic(0, 1, 0, 10));
    let b = data_with_host(ip, traffic(1, 0, 5, 0));
    a.merge(b);
    assert_eq!(a.remote_hosts.len(), 1);
    let h = host(&a.remote_hosts, ip).unwrap();
    assert_eq!(h.traffic_info.bytes_received, 10);
    assert_eq!(h.traffic_info.bytes_sent, 5);
    assert_eq!(a.traffic, traffic(1, 1, 5, 10));
}

#[test]
fn tcp_flags_mapping() {
    assert_eq!(SocketStatus::from_xenet_tcp_flags(TCP_SYN), SocketStatus::SynSent);
    assert_eq!(SocketStatus::from_xenet_tcp_flags(TCP_SYN | TCP_ACK), SocketStatus::SynReceived);
    assert_eq!(SocketStatus::from_xenet_tcp_flags(TCP_ACK), SocketStatus::Established);
    assert_eq!(SocketStatus::from_xenet_tcp_flags(TCP_FIN | TCP_ACK), SocketStatus::Closing);
    assert_eq!(SocketStatus::from_xenet_tcp_flags(TCP_FIN), SocketStatus::FinWait1);
    assert_eq!(SocketStatus::from_xenet_tcp_flags(TCP_RST), SocketStatus::Unknown);
    assert_eq!(SocketStatus::from_xenet_tcp_flags(TCP_PSH | TCP_ACK), SocketStatus::Unknown);
    assert_eq!(SocketStatus::from_xenet_tcp_flags(0), SocketStatus::Unknown);
    assert_eq!(SocketStatus::Established.as_str(), "ESTABLISHED");
}

#[test]
fn ipdb_range_lookup_bounds() {
    let db = example_ipdb();
    for last in [0u8, 1, 34, 128, 254, 255] {
        let info = db.get_ipv4_info(ip4(93, 184, 216, last)).unwrap();
        assert_eq!(info.country_code, "US");
        assert_eq!(info.asn, 15133);
        assert_eq!(info.ip_addr, IpAddress::v4(93, 184, 216, last));
    }
    assert!(db.get_ipv4_info(ip4(93, 184, 215, 255)).is_none());
    assert!(db.get_ipv4_info(ip4(93, 184, 217, 0)).is_none());
}

#[test]
fn ipdb_unknown_names_stay_empty() {
    let mut db = IpDatabase::new();
    db.load_ipv6(vec![Ipv6Info { ip_from: 0x2001_0db8 << 96, ip_to: (0x2001_0db8 << 96) + 0xffff, country_code: "JP".to_string(), asn: 7 }]);
    let info = db.get_ipv6_info((0x2001_0db8 << 96) + 5).unwrap();
    assert_eq!(info.country_code, "JP");
    assert_eq!(info.asn, 7);
    assert_eq!(info.country_name, "");
    assert_eq!(info.as_name, "");
    assert!(db.get_ipv6_info((0x2001_0db8 << 96) + 0x1_0000).is_none());
    assert!(db.get_ipv4_info(1).is_none());
}

#[test]
fn ipdb_later_record_overrides() {
    let mut db = IpDatabase::new();
    db.load_ipv4(vec![
        Ipv4Info { ip_from: 10, ip_to: 20, country_code: "AA".to_string(), asn: 1 },
        Ipv4Info { ip_from: 15, ip_to: 30, country_code: "BB".to_string(), asn: 2 },
        Ipv4Info { ip_from: 50, ip_to: 40, country_code: "CC".to_string(), asn: 3 },
    ]);
    assert_eq!(db.get_ipv4_info(12).unwrap().asn, 1);
    assert_eq!(db.get_ipv4_info(15).unwrap().asn, 2);
    assert_eq!(db.get_ipv4_info(30).unwrap().country_code, "BB");
    assert!(db.get_ipv4_info(45).is_none());
}

#[test]
fn direction_discrimination() {
    let mut store = NetStatStrage::new(interface());
    let other = IpAddress::v4(192, 168, 1, 9);
    store.update(&tcp_frame(other, 1000, remote(), 443, TCP_SYN, 60));
    assert_eq!(store.traffic, TrafficInfo::new());
    assert!(store.remote_hosts.is_empty());
    let mut no_ip = syn();
    no_ip.ip = None;
    store.update(&no_ip);
    assert_eq!(store.traffic, TrafficInfo::new());
    store.update(&tcp_frame(local(), 1, IpAddress::localhost_v4(), 2, TCP_SYN, 60));
    assert_eq!(store.traffic, TrafficInfo::new());
    assert!(store.remote_hosts.is_empty());
    store.update(&tcp_frame(local(), 1, remote(), 2, TCP_SYN, 60));
    assert_eq!(store.traffic, traffic(1, 0, 60, 0));
}

#[test]
fn conservation_over_frames() {
    let mut store = NetStatStrage::new(interface());
    let frames = vec![
        tcp_frame(local(), 1000, remote(), 443, TCP_SYN, 74),
        tcp_frame(remote(), 443, local(), 1000, TCP_SYN | TCP_ACK, 74),
        udp_frame(local(), 5353, IpAddress::v4(8, 8, 8, 8), 53, 80),
        udp_frame(IpAddress::v4(8, 8, 8, 8), 53, local(), 5353, 120),
        tcp_frame(IpAddress::v4(1, 1, 1, 1), 1, IpAddress::v4(2, 2, 2, 2), 2, TCP_ACK, 999),
    ];
    for f in &frames {
        store.update(f);
    }
    assert_eq!(store.traffic, traffic(2, 2, 154, 194));
    let mut sum = TrafficInfo::new();
    for (_, h) in &store.remote_hosts {
        sum.add_traffic(&h.traffic_info);
    }
    assert_eq!(sum, store.traffic);
    assert_eq!(store.remote_hosts.len(), 2);
    assert_eq!(store.sockets.len(), 2);
    assert_eq!(store.local_ports.len(), 2);
}

#[test]
fn overflowing_frame_is_dropped() {
    let mut store = NetStatStrage::new(interface());
    store.update(&tcp_frame(local(), 1, remote(), 2, TCP_ACK, u64::MAX));
    assert_eq!(store.traffic.bytes_sent, u64::MAX);
    store.update(&tcp_frame(local(), 1, remote(), 2, TCP_ACK, 1));
    assert_eq!(store.traffic, traffic(1, 0, u64::MAX, 0));
    store.update(&tcp_frame(remote(), 2, local(), 1, TCP_ACK, 1));
    assert_eq!(store.traffic, traffic(1, 1, u64::MAX, 1));
}

#[test]
fn udp_frame_without_ethernet_uses_zero_mac() {
    let mut store = NetStatStrage::new(interface());
    let mut f = udp_frame(remote(), 53, local(), 5000, 90);
    f.datalink = None;
    store.update(&f);
    let h = host(&store.remote_hosts, remote()).unwrap();
    assert_eq!(h.mac_addr, "00:00:00:00:00:00");
    assert_eq!(h.protocol_stat, vec![(PortInfo::new(53, TransportProtocol::UDP), traffic(0, 1, 0, 90))]);
    assert_eq!(store.local_ports, vec![(PortInfo::new(5000, TransportProtocol::UDP), traffic(0, 1, 0, 90))]);
}

#[test]
fn merge_associativity_example() {
    let x = IpAddress::v4(1, 1, 1, 1);
    let y = IpAddress::v4(2, 2, 2, 2);
    let make = |ip: IpAddress, t: TrafficInfo| data_with_host(ip, t);
    let mut left = make(x, traffic(1, 2, 3, 4));
    let mut bc = make(y, traffic(5, 6, 7, 8));
    bc.merge(make(x, traffic(9, 10, 11, 12)));
    left.merge(bc);
    let mut right = make(x, traffic(1, 2, 3, 4));
    right.merge(make(y, traffic(5, 6, 7, 8)));
    right.merge(make(x, traffic(9, 10, 11, 12)));
    assert_eq!(left.traffic, right.traffic);
    for ip in [x, y] {
        assert_eq!(host(&left.remote_hosts, ip).unwrap().traffic_info, host(&right.remote_hosts, ip).unwrap().traffic_info);
    }
    assert_eq!(left.remote_hosts.len(), right.remote_hosts.len());
    assert_eq!(host(&left.remote_hosts, x).unwrap().traffic_info, traffic(10, 12, 14, 16));
}

#[test]
fn merge_saturates_counters() {
    let ip = IpAddress::v4(8, 8, 4, 4);
    let mut a = data_with_host(ip, traffic(u64::MAX, 0, 1, 0));
    a.merge(data_with_host(ip, traffic(1, 0, 1, 0)));
    assert_eq!(a.traffic, traffic(u64::MAX, 0, 2, 0));
}

#[test]
fn merge_connection_prefers_process() {
    let key = SocketConnection {
        local_socket: nustat::addr::SocketAddress::new(local(), 1),
        remote_socket: nustat::addr::SocketAddress::new(remote(), 2),
        protocol: TransportProtocol::TCP,
    };
    let mut a = NetStatData::new();
    a.connections.push((key, SocketConnectionInfo { status: SocketStatus::SynSent, process: Some(process(7, "a")) }));
    let mut b = NetStatData::new();
    b.connections.push((key, SocketConnectionInfo { status: SocketStatus::Established, process: None }));
    a.merge(b);
    assert_eq!(a.connections.len(), 1);
    assert_eq!(a.connections[0].1.status, SocketStatus::Established);
    assert_eq!(a.connections[0].1.process.as_ref().unwrap().pid, 7);
}

#[test]
fn reconcile_removes_closed_and_keys_udp() {
    let mut store = NetStatStrage::new(interface());
    store.attach_sockets(&vec![tcp_socket(1000, 443, 1), tcp_socket(2000, 80, 2)]);
    assert_eq!(store.connections.len(), 2);
    let udp = SocketInfo {
        local_ip_addr: IpAddress::V6(1),
        local_port: 5353,
        remote_ip_addr: None,
        remote_port: None,
        protocol: Protocol::UDP,
        status: SocketStatus::Unknown,
        ip_version: AddressFamily::IPv6,
        process: None,
    };
    store.attach_sockets(&vec![tcp_socket(2000, 80, 2), udp]);
    assert_eq!(store.connections.len(), 2);
    for (k, _) in &store.connections {
        assert!((k.local_socket.ip == local() && k.local_socket.port == 2000) || (k.local_socket.ip == IpAddress::V6(1) && k.local_socket.port == 5353));
    }
    let u = store.connections.iter().find(|(k, _)| k.protocol == TransportProtocol::UDP).unwrap();
    assert_eq!(u.0.remote_socket, nustat::addr::SocketAddress::new(IpAddress::V6(0), 0));
    store.attach_sockets(&vec![]);
    assert!(store.connections.is_empty());
}

#[test]
fn tcp_status_inferred_for_unknown_connection() {
    let mut store = NetStatStrage::new(interface());
    let mut s = tcp_socket(54321, 443, 42);
    s.status = SocketStatus::Unknown;
    store.attach_sockets(&vec![s]);
    store.update(&syn());
    assert_eq!(store.connections[0].1.status, SocketStatus::SynSent);
    store.attach_sockets(&vec![tcp_socket(54321, 443, 42)]);
    store.update(&tcp_frame(local(), 54321, remote(), 443, TCP_FIN, 60));
    assert_eq!(store.connections[0].1.status, SocketStatus::Established);
}

#[test]
fn top_remote_hosts_ranked_and_truncated() {
    let mut store = NetStatStrage::new(interface());
    for (i, len) in [(1u8, 100u64), (2, 300), (3, 200), (4, 50)] {
        store.update(&tcp_frame(local(), 1, IpAddress::v4(5, 5, 5, i), 2, TCP_ACK, len));
    }
    let data = store.clone_data_and_reset();
    let top = data.get_top_remote_hosts(3);
    let ips: Vec<IpAddress> = top.iter().map(|h| h.ip_addr).collect();
    assert_eq!(ips, vec![IpAddress::v4(5, 5, 5, 2), IpAddress::v4(5, 5, 5, 3), IpAddress::v4(5, 5, 5, 1)]);
    assert_eq!(top[0].traffic.bytes_sent, 300);
    assert_eq!(data.get_top_remote_hosts(10).len(), 4);
    assert!(data.get_top_remote_hosts(0).is_empty());
    assert!(NetStatData::new().get_top_remote_hosts(10).is_empty());
}

#[test]
fn top_connections_use_socket_then_port_rate() {
    let mut store = NetStatStrage::new(interface());
    store.update(&syn());
    store.update(&ack_in());
    store.attach_sockets(&vec![tcp_socket(54321, 443, 42), tcp_socket(54321, 8443, 43), tcp_socket(6000, 9, 44)]);
    let data = store.clone_data_and_reset();
    let top = data.get_top_connections(10);
    assert_eq!(top.len(), 2);
    for row in &top {
        assert_eq!(row.traffic.bytes_sent + row.traffic.bytes_received, 140);
        assert_eq!(row.local_port, 54321);
        assert_eq!(row.ip_version, AddressFamily::IPv4);
    }
    assert_eq!(data.get_top_connections(1).len(), 1);
    let procs = data.get_top_processes(10);
    assert_eq!(procs.len(), 2);
}

#[test]
fn top_app_protocols_join_service_names() {
    let mut store = NetStatStrage::new(interface());
    store.update(&syn());
    store.update(&ack_in());
    store.update(&udp_frame(local(), 5000, IpAddress::v4(8, 8, 8, 8), 53, 80));
    store.update(&tcp_frame(local(), 7000, IpAddress::v4(9, 9, 9, 9), 443, TCP_ACK, 10));
    let data = store.clone_data_and_reset();
    let mut services = ServiceDatabase::new();
    services.load(vec![TcpService { port: 443, service_name: "https".to_string() }]);
    let top = data.get_top_app_protocols(&services, 10);
    assert_eq!(top.len(), 1);
    assert_eq!(top[0].port, 443);
    assert_eq!(top[0].name, "https");
    assert_eq!(top[0].traffic.bytes_sent + top[0].traffic.bytes_received, 150);
    assert_eq!(services.get(443).unwrap(), "https");
    assert!(services.get(22).is_none());
}

#[test]
fn overview_of_snapshot() {
    let mut store = NetStatStrage::new(interface());
    store.update(&syn());
    store.update(&ack_in());
    let data = store.clone_data_and_reset();
    let o = data.get_overview(&ServiceDatabase::new());
    assert_eq!(o.if_index, 3);
    assert_eq!(o.if_name, "eth0");
    assert_eq!(o.captured_packets, 2);
    assert_eq!(o.traffic, traffic(1, 1, 74, 66));
    assert_eq!(o.top_remote_hosts.len(), 1);
    assert!(o.top_processes.is_empty());
    assert!(o.top_app_protocols.is_empty());
}

#[test]
fn reverse_dns_fills_empty_hostname() {
    let mut store = NetStatStrage::new(interface());
    store.update(&syn());
    store.attach_dns(remote(), "example.com".to_string());
    assert_eq!(host(&store.remote_hosts, remote()).unwrap().hostname, "example.com");
    store.attach_dns(remote(), "other.example".to_string());
    assert_eq!(host(&store.remote_hosts, remote()).unwrap().hostname, "example.com");
    assert_eq!(store.reverse_dns_map, vec![(remote(), "other.example".to_string())]);
    store.reset();
    assert!(store.reverse_dns_map.is_empty());
}

#[test]
fn enrichment_sweep_fills_late_database() {
    let mut store = NetStatStrage::new(interface());
    store.update(&syn());
    assert_eq!(host(&store.remote_hosts, remote()).unwrap().country_code, "");
    store.load_ipdb(example_ipdb());
    store.enrich_hosts();
    let h = host(&store.remote_hosts, remote()).unwrap();
    assert_eq!(h.country_code, "US");
    assert_eq!(h.as_name, "EDGECAST");
    assert_eq!(h.traffic_info, traffic(1, 0, 74, 0));
}

#[test]
fn set_interface_resets_and_recomputes_locals() {
    let mut store = NetStatStrage::new(interface());
    store.update(&syn());
    let mut other = interface();
    other.index = 9;
    other.ipv4 = vec![ip4(192, 168, 0, 5)];
    other.ipv6 = vec![0xfe80 << 112];
    store.set_interface(other);
    assert_eq!(store.traffic, TrafficInfo::new());
    assert!(store.interface_changed(3));
    assert!(!store.interface_changed(9));
    assert_eq!(store.get_if_name(), "eth0");
    assert!(store.local_ips.contains(&IpAddress::v4(192, 168, 0, 5)));
    assert!(store.local_ips.contains(&IpAddress::V6(0xfe80 << 112)));
    assert!(store.local_ips.contains(&IpAddress::localhost_v4()));
    assert!(store.local_ips.contains(&IpAddress::localhost_v6()));
    assert!(!store.local_ips.contains(&local()));
    store.update(&syn());
    assert_eq!(store.traffic, TrafficInfo::new());
}

#[test]
fn snapshot_without_reset_keeps_store() {
    let mut store = NetStatStrage::new(interface());
    store.update(&syn());
    store.update(&ack_in());
    store.attach_sockets(&vec![tcp_socket(54321, 443, 42)]);
    let copy = store.snapshot(false);
    assert_eq!(copy.traffic, traffic(1, 1, 74, 66));
    assert_eq!(store.traffic, traffic(1, 1, 74, 66));
    assert_eq!(copy.remote_hosts.len(), 1);
    assert_eq!(copy.sockets, store.sockets);
    assert_eq!(copy.connections[0].1.process.as_ref().unwrap().pid, 42);
    let taken = store.snapshot(true);
    assert_eq!(taken.traffic, copy.traffic);
    assert_eq!(store.traffic, TrafficInfo::new());
    assert!(store.connections.is_empty());
    assert_eq!(store.clone_data().traffic, TrafficInfo::new());
}

#[test]
fn host_merge_keeps_later_update_time() {
    let ip = IpAddress::v4(8, 8, 8, 8);
    let mut a = RemoteHostInfo::new(String::new(), ip, "2024-01-02T00:00:00+00:00".to_string());
    let b = RemoteHostInfo::new("aa:bb".to_string(), ip, "2024-01-01T00:00:00+00:00".to_string());
    a.merge(&b);
    assert_eq!(a.updated_at, "2024-01-02T00:00:00+00:00");
    assert_eq!(a.mac_addr, "aa:bb");
    let c = RemoteHostInfo::new(String::new(), ip, "2024-01-03T00:00:00+00:00".to_string());
    a.merge(&c);
    assert_eq!(a.updated_at, "2024-01-03T00:00:00+00:00");
    assert_eq!(a.first_seen, "2024-01-02T00:00:00+00:00");
    assert!(nustat::host::text_less("2024-01-01", "2024-01-02"));
    assert!(!nustat::host::text_less("abc", "ab"));
    assert!(nustat::host::text_less("", "a"));
}

#[test]
fn connection_rows_carry_the_whole_process() {
    let mut store = NetStatStrage::new(interface());
    store.update(&syn());
    let mut s = tcp_socket(54321, 443, 42);
    if let Some(p) = s.process.as_mut() {
        p.cmd = vec!["curl".to_string(), "https://example.com".to_string()];
        p.exe_path = "/usr/bin/curl".to_string();
    }
    store.attach_sockets(&vec![s]);
    let p = store.connections[0].1.process.as_ref().unwrap();
    assert_eq!(p.cmd, vec!["curl".to_string(), "https://example.com".to_string()]);
    assert_eq!(p.exe_path, "/usr/bin/curl");
    let mut data = store.clone_data_and_reset();
    data.merge(NetStatData::new());
    let rows = data.get_top_connections(10);
    assert_eq!(rows.len(), 1);
    let rp = rows[0].process.as_ref().unwrap();
    assert_eq!(rp.pid, 42);
    assert_eq!(rp.name, "curl");
    assert_eq!(rp.exe_path, "/usr/bin/curl");
    assert_eq!(rp.cmd.len(), 2);
}

#[test]
fn overview_sums_hosts() {
    let ip = IpAddress::v4(8, 8, 8, 8);
    let mut d = data_with_host(ip, traffic(1, 2, 30, 40));
    d.traffic = TrafficInfo::new();
    let o = d.get_overview(&ServiceDatabase::new());
    assert_eq!(o.traffic, traffic(1, 2, 30, 40));
    assert_eq!(o.captured_packets, 3);
}
