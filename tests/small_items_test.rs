use nustat::config::{AppConfig, LogLevel};
use nustat::ipdb::{AutonomousSystem, Country, Ipv4Info, Ipv6Info};
use nustat::service::TcpService;
use nustat::socket::{PortInfo, SocketConnectionInfo, SocketInfoOption, SocketStatus, TransportProtocol};
use nustat::sys::guess_initial_ttl;
use nustat::tabs::TabsState;
use nustat::traffic::TrafficInfo;
use nustat::watch::WatchList;

#[test]
fn port_key_string() {
    assert_eq!(PortInfo::new(443, TransportProtocol::TCP).to_key_string(), "443-TCP");
    assert_eq!(PortInfo::new(0, TransportProtocol::UDP).to_key_string(), "0-UDP");
    assert_eq!(PortInfo::new(65535, TransportProtocol::UDP).to_key_string(), "65535-UDP");
    assert_eq!(TransportProtocol::UDP.as_str(), "UDP");
}

#[test]
fn initial_ttl_guess() {
    assert_eq!(guess_initial_ttl(0), 64);
    assert_eq!(guess_initial_ttl(64), 64);
    assert_eq!(guess_initial_ttl(65), 128);
    assert_eq!(guess_initial_ttl(128), 128);
    assert_eq!(guess_initial_ttl(129), 255);
    assert_eq!(guess_initial_ttl(255), 255);
}

#[test]
fn log_level_filtering() {
    assert!(LogLevel::DEBUG.allows(&LogLevel::DEBUG));
    assert!(LogLevel::INFO.allows(&LogLevel::ERROR));
    assert!(!LogLevel::INFO.allows(&LogLevel::DEBUG));
    assert!(LogLevel::WARNING.allows(&LogLevel::WARNING));
    assert!(!LogLevel::WARNING.allows(&LogLevel::INFO));
    assert!(!LogLevel::ERROR.allows(&LogLevel::WARNING));
    assert_eq!(LogLevel::WARNING.to_string(), "WARNING");
}

#[test]
fn config_defaults() {
    let c = AppConfig::new();
    assert_eq!(c.logging.level, LogLevel::ERROR);
    assert!(c.logging.file_path.is_none());
    assert!(c.network.interfaces.is_empty());
    assert!(!c.network.reverse_dns);
    assert_eq!(c.display.top_remote_hosts, 10);
    assert_eq!(c.display.connection_count, 10);
    assert_eq!(c.display.tick_rate, 1000);
}

#[test]
fn tabs_wrap_around() {
    let mut t = TabsState::new(vec!["Overview", "RemoteAddresses", "Connections"]);
    assert_eq!(t.index, 0);
    t.previous();
    assert_eq!(t.index, 2);
    t.next();
    assert_eq!(t.index, 0);
    t.next();
    t.next();
    assert_eq!(t.index, 2);
    t.next();
    assert_eq!(t.index, 0);
}

#[test]
fn database_urls() {
    assert_eq!(
        Ipv4Info::get_github_url("abc123"),
        "https://raw.githubusercontent.com/shellrow/nustat/abc123/nustat-db/nustat-db-ipv4/resources/ipv4.bin"
    );
    assert_eq!(
        Ipv6Info::get_github_url("h"),
        "https://raw.githubusercontent.com/shellrow/nustat/h/nustat-db/nustat-db-ipv6/resources/ipv6.bin"
    );
    assert_eq!(
        Country::get_github_url("h"),
        "https://raw.githubusercontent.com/shellrow/nustat/h/nustat-db/nustat-db-country/resources/country.bin"
    );
    assert_eq!(
        AutonomousSystem::get_github_url("h"),
        "https://raw.githubusercontent.com/shellrow/nustat/h/nustat-db/nustat-db-as/resources/as.bin"
    );
    assert_eq!(
        TcpService::get_github_url("h"),
        "https://raw.githubusercontent.com/shellrow/nustat/h/nustat-db/nustat-db-service/resources/tcp-service.bin"
    );
}

#[test]
fn traffic_add_is_componentwise() {
    let mut a = TrafficInfo { packet_sent: 1, packet_received: 2, bytes_sent: 3, bytes_received: 4 };
    a.add_traffic(&TrafficInfo { packet_sent: 10, packet_received: 20, bytes_sent: 30, bytes_received: u64::MAX });
    assert_eq!(a, TrafficInfo { packet_sent: 11, packet_received: 22, bytes_sent: 33, bytes_received: u64::MAX });
    assert_eq!(TrafficInfo::new().total_bytes(), 0);
    assert_eq!(a.total_bytes(), u64::MAX);
}

#[test]
fn small_constructors() {
    let c = SocketConnectionInfo::new();
    assert_eq!(c.status, SocketStatus::Unknown);
    assert!(c.process.is_none());
    let o = SocketInfoOption::default();
    assert_eq!(o.address_family.len(), 2);
    assert_eq!(o.transport_protocol, vec![TransportProtocol::TCP, TransportProtocol::UDP]);
    let w = WatchList::new();
    assert_eq!(w.id, 0);
    assert!(w.name.is_empty());
}

#[test]
fn empty_frame_and_overview() {
    let f = nustat::packet::PacketFrame::new();
    assert!(f.ip.is_none());
    assert_eq!(f.packet_len, 0);
    let o = nustat::projection::Overview::new();
    assert_eq!(o.captured_packets, 0);
    assert!(o.top_remote_hosts.is_empty());
}
