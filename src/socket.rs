use vstd::prelude::*;
use crate::addr::{IpAddress, SocketAddress};
use crate::process::{copy_process, opt_process_view, ProcessInfo, ProcessView};
use crate::traffic::TrafficInfo;

verus! {

/// TCP header flag bits.
pub const TCP_FIN: u8 = 0x01;
pub const TCP_SYN: u8 = 0x02;
pub const TCP_RST: u8 = 0x04;
pub const TCP_PSH: u8 = 0x08;
pub const TCP_ACK: u8 = 0x10;
pub const TCP_URG: u8 = 0x20;

/// The states of the TCP state machine, plus `Unknown`.
#[derive(Debug, Clone, Copy, PartialEq, Eq, Structural)]
pub enum SocketStatus {
    Closed,
    Listen,
    SynSent,
    SynReceived,
    Established,
    FinWait1,
    FinWait2,
    CloseWait,
    Closing,
    LastAck,
    TimeWait,
    DeleteTcb,
    Unknown,
}

/// The status inferred from the flags of a single TCP segment.
pub open spec fn status_of_flags(flags: u8) -> SocketStatus {
    if flags == 0x02 {
        SocketStatus::SynSent
    } else if flags == 0x12 {
        SocketStatus::SynReceived
    } else if flags == 0x10 {
        SocketStatus::Established
    } else if flags == 0x11 {
        SocketStatus::Closing
    } else if flags == 0x01 {
        SocketStatus::FinWait1
    } else {
        SocketStatus::Unknown
    }
}

impl SocketStatus {
    /// Infers a status from TCP flags: SYN, SYN|ACK, ACK, FIN|ACK and FIN
    /// give SynSent, SynReceived, Established, Closing and FinWait1; any
    /// other combination gives Unknown.
    pub fn from_xenet_tcp_flags(flags: u8) -> (r: SocketStatus)
        ensures
            r == status_of_flags(flags),
    {
        if flags == TCP_SYN {
            SocketStatus::SynSent
        } else if flags == TCP_SYN | TCP_ACK {
            assert(TCP_SYN | TCP_ACK == 0x12) by (bit_vector);
            SocketStatus::SynReceived
        } else if flags == TCP_ACK {
            SocketStatus::Established
        } else if flags == TCP_FIN | TCP_ACK {
            assert(TCP_FIN | TCP_ACK == 0x11) by (bit_vector);
            SocketStatus::Closing
        } else if flags == TCP_FIN {
            SocketStatus::FinWait1
        } else {
            assert(TCP_SYN | TCP_ACK == 0x12) by (bit_vector);
            assert(TCP_FIN | TCP_ACK == 0x11) by (bit_vector);
            SocketStatus::Unknown
        }
    }

    /// The conventional upper-case name of the state.
    pub fn as_str(&self) -> (r: &'static str)
        ensures
            r@ == status_name(*self),
    {
        match self {
            SocketStatus::Closed => "CLOSED",
            SocketStatus::Listen => "LISTEN",
            SocketStatus::SynSent => "SYN_SENT",
            SocketStatus::SynReceived => "SYN_RCVD",
            SocketStatus::Established => "ESTABLISHED",
            SocketStatus::FinWait1 => "FIN_WAIT_1",
            SocketStatus::FinWait2 => "FIN_WAIT_2",
            SocketStatus::CloseWait => "CLOSE_WAIT",
            SocketStatus::Closing => "CLOSING",
            SocketStatus::LastAck => "LAST_ACK",
            SocketStatus::TimeWait => "TIME_WAIT",
            SocketStatus::DeleteTcb => "DELETE_TCB",
            SocketStatus::Unknown => "UNKNOWN",
        }
    }
}

pub open spec fn status_name(s: SocketStatus) -> Seq<char> {
    match s {
        SocketStatus::Closed => "CLOSED"@,
        SocketStatus::Listen => "LISTEN"@,
        SocketStatus::SynSent => "SYN_SENT"@,
        SocketStatus::SynReceived => "SYN_RCVD"@,
        SocketStatus::Established => "ESTABLISHED"@,
        SocketStatus::FinWait1 => "FIN_WAIT_1"@,
        SocketStatus::FinWait2 => "FIN_WAIT_2"@,
        SocketStatus::CloseWait => "CLOSE_WAIT"@,
        SocketStatus::Closing => "CLOSING"@,
        SocketStatus::LastAck => "LAST_ACK"@,
        SocketStatus::TimeWait => "TIME_WAIT"@,
        SocketStatus::DeleteTcb => "DELETE_TCB"@,
        SocketStatus::Unknown => "UNKNOWN"@,
    }
}

/// IPv4 or IPv6.
#[derive(Debug, Clone, Copy, PartialEq, Eq, Structural)]
pub enum AddressFamily {
    IPv4,
    IPv6,
}

/// Transport protocol of a flow.
#[derive(Debug, Clone, Copy, PartialEq, Eq, Hash, PartialOrd, Ord, Structural)]
pub enum TransportProtocol {
    TCP,
    UDP,
}

impl TransportProtocol {
    pub fn as_str(&self) -> (r: &'static str)
        ensures
            r@ == protocol_name(*self),
    {
        match self {
            TransportProtocol::TCP => "TCP",
            TransportProtocol::UDP => "UDP",
        }
    }
}

pub open spec fn protocol_name(p: TransportProtocol) -> Seq<char> {
    match p {
        TransportProtocol::TCP => "TCP"@,
        TransportProtocol::UDP => "UDP"@,
    }
}

/// Protocols that a socket or frame may carry.
#[derive(Debug, Clone, Copy, PartialEq, Eq, Hash, PartialOrd, Ord, Structural)]
pub enum Protocol {
    ARP,
    NDP,
    ICMP,
    TCP,
    UDP,
}

/// A flow handle: local and remote endpoints and the transport protocol.
#[derive(Debug, Clone, Copy, PartialEq, Eq, Hash, PartialOrd, Ord, Structural)]
pub struct SocketConnection {
    pub local_socket: SocketAddress,
    pub remote_socket: SocketAddress,
    pub protocol: TransportProtocol,
}

/// A remote endpoint with its transport protocol.
#[derive(Debug, Clone, Copy, PartialEq, Eq, Hash, PartialOrd, Ord, Structural)]
pub struct ProtocolSocketAddress {
    pub socket: SocketAddress,
    pub protocol: TransportProtocol,
}

/// A port with its transport protocol.
#[derive(Debug, Clone, Copy, PartialEq, Eq, Hash, PartialOrd, Ord, Structural)]
pub struct PortInfo {
    pub port: u16,
    pub protocol: TransportProtocol,
}

impl PortInfo {
    pub fn new(port: u16, protocol: TransportProtocol) -> (r: PortInfo)
        ensures
            r == (PortInfo { port, protocol }),
    {
        PortInfo { port, protocol }
    }
}

/// The state and owning process of a connection.
#[derive(Debug, Clone)]
pub struct SocketConnectionInfo {
    pub status: SocketStatus,
    pub process: Option<ProcessInfo>,
}

/// What the contracts track of a connection: its status and its whole process record.
pub type ConnView = (SocketStatus, Option<ProcessView>);

pub open spec fn conn_view(c: SocketConnectionInfo) -> ConnView {
    (c.status, opt_process_view(c.process))
}

/// Merging keeps the later status and prefers a present process.
pub open spec fn conn_merge(a: ConnView, b: ConnView) -> ConnView {
    (b.0, if b.1.is_some() { b.1 } else { a.1 })
}

impl SocketConnectionInfo {
    pub fn new() -> (r: SocketConnectionInfo)
        ensures
            r.status == SocketStatus::Unknown,
            r.process.is_none(),
    {
        SocketConnectionInfo { status: SocketStatus::Unknown, process: None }
    }

    /// Takes the status of `other`, and its process where it has one.
    pub fn merge(&mut self, other: &SocketConnectionInfo)
        ensures
            final(self).status == other.status,
            other.process.is_some() ==> opt_process_view(final(self).process) == opt_process_view(other.process),
            other.process.is_none() ==> final(self).process == old(self).process,
            conn_view(*final(self)) == conn_merge(conn_view(*old(self)), conn_view(*other)),
    {
        self.status = other.status;
        if other.process.is_some() {
            self.process = copy_process(&other.process);
        }
    }
}

/// A socket as the OS probe reports it.
#[derive(Debug, Clone)]
pub struct SocketInfo {
    pub local_ip_addr: IpAddress,
    pub local_port: u16,
    pub remote_ip_addr: Option<IpAddress>,
    pub remote_port: Option<u16>,
    pub protocol: Protocol,
    pub status: SocketStatus,
    pub ip_version: AddressFamily,
    pub process: Option<ProcessInfo>,
}

/// Traffic seen on one port.
#[derive(Debug, Clone)]
pub struct PortTrafficInfo {
    pub port: u16,
    pub protocol: TransportProtocol,
    pub traffic_info: TrafficInfo,
}

/// One row of the top-connections projection.
#[derive(Debug, Clone)]
pub struct SocketTrafficInfo {
    pub local_ip_addr: IpAddress,
    pub local_port: u16,
    pub remote_ip_addr: Option<IpAddress>,
    pub remote_port: Option<u16>,
    pub protocol: TransportProtocol,
    pub ip_version: AddressFamily,
    pub process: Option<ProcessInfo>,
    pub traffic: TrafficInfo,
}

/// Which address families and protocols a socket enumeration covers.
#[derive(Debug, Clone)]
pub struct SocketInfoOption {
    pub address_family: Vec<AddressFamily>,
    pub transport_protocol: Vec<TransportProtocol>,
}

impl SocketInfoOption {
    pub fn new(address_family: Vec<AddressFamily>, transport_protocol: Vec<TransportProtocol>) -> (r: SocketInfoOption)
        ensures
            r.address_family@ == address_family@,
            r.transport_protocol@ == transport_protocol@,
    {
        SocketInfoOption { address_family, transport_protocol }
    }
}

impl Default for SocketInfoOption {
    /// Both address families and both protocols.
    fn default() -> (r: SocketInfoOption)
        ensures
            r.address_family@ == seq![AddressFamily::IPv4, AddressFamily::IPv6],
            r.transport_protocol@ == seq![TransportProtocol::TCP, TransportProtocol::UDP],
    {
        SocketInfoOption {
            address_family: vec![AddressFamily::IPv4, AddressFamily::IPv6],
            transport_protocol: vec![TransportProtocol::TCP, TransportProtocol::UDP],
        }
    }
}

} // verus!
