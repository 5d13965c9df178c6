use vstd::prelude::*;
use crate::addr::IpAddress;
use crate::socket::TransportProtocol;
use crate::traffic::Direction;

verus! {

/// Ethernet header fields the core reads: MAC addresses in text form.
#[derive(Debug, Clone)]
pub struct EthernetHeader {
    pub source: String,
    pub destination: String,
}

/// The link layer of a frame.
#[derive(Debug, Clone)]
pub struct DatalinkLayer {
    pub ethernet: Option<EthernetHeader>,
}

/// The network layer of a frame (IPv4 or IPv6 source and destination).
#[derive(Debug, Clone, Copy, PartialEq, Eq, Structural)]
pub struct IpLayer {
    pub source: IpAddress,
    pub destination: IpAddress,
}

#[derive(Debug, Clone, Copy, PartialEq, Eq, Structural)]
pub struct TcpHeader {
    pub source: u16,
    pub destination: u16,
    pub flags: u8,
}

#[derive(Debug, Clone, Copy, PartialEq, Eq, Structural)]
pub struct UdpHeader {
    pub source: u16,
    pub destination: u16,
}

/// The transport layer of a frame.
#[derive(Debug, Clone, Copy, PartialEq, Eq, Structural)]
pub struct TransportLayer {
    pub tcp: Option<TcpHeader>,
    pub udp: Option<UdpHeader>,
}

/// A parsed frame as the capture source delivers it.
#[derive(Debug, Clone)]
pub struct PacketFrame {
    pub capture_no: usize,
    pub if_index: u32,
    pub if_name: String,
    pub datalink: Option<DatalinkLayer>,
    pub ip: Option<IpLayer>,
    pub transport: Option<TransportLayer>,
    pub packet_len: u64,
    /// Arrival time, RFC 3339.
    pub timestamp: String,
}

impl PacketFrame {
    /// A frame with no layers, length zero and no timestamp.
    pub fn new() -> (r: PacketFrame)
        ensures
            r.capture_no == 0,
            r.if_index == 0,
            r.if_name@.len() == 0,
            r.datalink.is_none(),
            r.ip.is_none(),
            r.transport.is_none(),
            r.packet_len == 0,
            r.timestamp@.len() == 0,
    {
        PacketFrame {
            capture_no: 0,
            if_index: 0,
            if_name: String::new(),
            datalink: None,
            ip: None,
            transport: None,
            packet_len: 0,
            timestamp: String::new(),
        }
    }
}

/// What the store needs of a frame once its direction is known.
#[derive(Debug, Clone)]
pub struct ClassifiedFrame {
    pub direction: Direction,
    pub local_ip: IpAddress,
    pub local_port: u16,
    pub remote_ip: IpAddress,
    pub remote_port: u16,
    pub mac: String,
    pub protocol: Option<TransportProtocol>,
    pub tcp_flags: Option<u8>,
    pub packet_len: u64,
}

/// The all-zero MAC address in text form.
pub open spec fn zero_mac() -> Seq<char> {
    "00:00:00:00:00:00"@
}

/// Direction of a frame: Egress when only its source is local, Ingress when
/// only its destination is local; no direction (drop) when both or neither
/// endpoint is local, or without an IP layer.
pub open spec fn direction_of(frame: PacketFrame, locals: Set<IpAddress>) -> Option<Direction> {
    match frame.ip {
        None => None,
        Some(ip) => if locals.contains(ip.source) && locals.contains(ip.destination) {
            None
        } else if locals.contains(ip.source) {
            Some(Direction::Egress)
        } else if locals.contains(ip.destination) {
            Some(Direction::Ingress)
        } else {
            None
        },
    }
}

/// Transport protocol of a frame, if it has a TCP or UDP header.
pub open spec fn protocol_of(frame: PacketFrame) -> Option<TransportProtocol> {
    match frame.transport {
        Some(t) => if t.tcp.is_some() {
            Some(TransportProtocol::TCP)
        } else if t.udp.is_some() {
            Some(TransportProtocol::UDP)
        } else {
            None
        },
        None => None,
    }
}

/// Source and destination ports, zero without a TCP or UDP header.
pub open spec fn ports_of(frame: PacketFrame) -> (u16, u16) {
    match frame.transport {
        Some(t) => match t.tcp {
            Some(h) => (h.source, h.destination),
            None => match t.udp {
                Some(h) => (h.source, h.destination),
                None => (0u16, 0u16),
            },
        },
        None => (0u16, 0u16),
    }
}

/// TCP flags of the frame, if it has a TCP header.
pub open spec fn tcp_flags_of(frame: PacketFrame) -> Option<u8> {
    match frame.transport {
        Some(t) => match t.tcp {
            Some(h) => Some(h.flags),
            None => None,
        },
        None => None,
    }
}

/// The peer MAC: destination for Egress, source for Ingress, zero without ethernet.
pub open spec fn peer_mac(frame: PacketFrame, dir: Direction) -> Seq<char> {
    match frame.datalink {
        Some(d) => match d.ethernet {
            Some(e) => match dir {
                Direction::Egress => e.destination@,
                Direction::Ingress => e.source@,
            },
            None => zero_mac(),
        },
        None => zero_mac(),
    }
}

/// `c` is the classification of `frame` in direction `dir`.
pub open spec fn classified_as(c: ClassifiedFrame, frame: PacketFrame, dir: Direction) -> bool {
    let ip = frame.ip.unwrap();
    let ports = ports_of(frame);
    &&& c.direction == dir
    &&& c.local_ip == (if dir == Direction::Egress { ip.source } else { ip.destination })
    &&& c.remote_ip == (if dir == Direction::Egress { ip.destination } else { ip.source })
    &&& c.local_port == (if dir == Direction::Egress { ports.0 } else { ports.1 })
    &&& c.remote_port == (if dir == Direction::Egress { ports.1 } else { ports.0 })
    &&& c.mac@ == peer_mac(frame, dir)
    &&& c.protocol == protocol_of(frame)
    &&& c.tcp_flags == tcp_flags_of(frame)
    &&& c.packet_len == frame.packet_len
}

fn contains_ip(locals: &Vec<IpAddress>, ip: IpAddress) -> (r: bool)
    ensures
        r == locals@.contains(ip),
{
    let mut i: usize = 0;
    while i < locals.len()
        invariant
            i <= locals@.len(),
            forall|j: int| 0 <= j < i ==> locals@[j] != ip,
        decreases locals@.len() - i,
    {
        if locals[i] == ip {
            return true;
        }
        i = i + 1;
    }
    false
}

fn zero_mac_string() -> (r: String)
    ensures
        r@ == zero_mac(),
{
    "00:00:00:00:00:00".to_string()
}

/// Classifies a frame against the local address set: drops it (None) when
/// it has no IP layer or when both or neither endpoint is local, else resolves the local
/// and remote endpoints, the peer MAC, the protocol and the TCP flags.
pub fn classify(frame: &PacketFrame, local_ips: &Vec<IpAddress>) -> (r: Option<ClassifiedFrame>)
    ensures
        r.is_some() == direction_of(*frame, local_ips@.to_set()).is_some(),
        r.is_some() ==> classified_as(r.unwrap(), *frame, direction_of(*frame, local_ips@.to_set()).unwrap()),
{
    let ip = match frame.ip {
        Some(ip) => ip,
        None => return None,
    };
    let src_local = contains_ip(local_ips, ip.source);
    let dst_local = contains_ip(local_ips, ip.destination);
    let direction = if src_local && dst_local {
        return None;
    } else if src_local {
        Direction::Egress
    } else if dst_local {
        Direction::Ingress
    } else {
        return None;
    };
    let (src_port, dst_port, protocol, tcp_flags): (u16, u16, Option<TransportProtocol>, Option<u8>) = match frame.transport {
        Some(t) => match t.tcp {
            Some(h) => (h.source, h.destination, Some(TransportProtocol::TCP), Some(h.flags)),
            None => match t.udp {
                Some(h) => (h.source, h.destination, Some(TransportProtocol::UDP), None),
                None => (0, 0, None, None),
            },
        },
        None => (0, 0, None, None),
    };
    let mac = match &frame.datalink {
        Some(d) => match &d.ethernet {
            Some(e) => match direction {
                Direction::Egress => e.destination.clone(),
                Direction::Ingress => e.source.clone(),
            },
            None => zero_mac_string(),
        },
        None => zero_mac_string(),
    };
    let egress = direction == Direction::Egress;
    Some(ClassifiedFrame {
        direction,
        local_ip: if egress { ip.source } else { ip.destination },
        local_port: if egress { src_port } else { dst_port },
        remote_ip: if egress { ip.destination } else { ip.source },
        remote_port: if egress { dst_port } else { src_port },
        mac,
        protocol,
        tcp_flags,
        packet_len: frame.packet_len,
    })
}

} // verus!
