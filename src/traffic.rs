use vstd::prelude::*;

verus! {

/// Direction of a frame relative to the local address set.
#[derive(Debug, Clone, Copy, PartialEq, Eq, Hash, PartialOrd, Ord, Structural)]
pub enum Direction {
    Egress,
    Ingress,
}

/// Packet and byte counters in both directions.
///
/// Counters form a commutative monoid under componentwise addition that
/// saturates at `u64::MAX`; the all-zero value is the identity.
#[derive(Debug, Clone, Copy, PartialEq, Eq, Structural)]
pub struct TrafficInfo {
    pub packet_sent: u64,
    pub packet_received: u64,
    pub bytes_sent: u64,
    pub bytes_received: u64,
}

/// Addition of two counters, saturating at `u64::MAX`.
pub open spec fn sat_add(a: u64, b: u64) -> u64 {
    if a + b > u64::MAX {
        u64::MAX
    } else {
        (a + b) as u64
    }
}

/// The all-zero counters.
pub open spec fn zero_traffic() -> TrafficInfo {
    TrafficInfo { packet_sent: 0, packet_received: 0, bytes_sent: 0, bytes_received: 0 }
}

/// Componentwise saturating sum of two traffic records.
pub open spec fn traffic_add(a: TrafficInfo, b: TrafficInfo) -> TrafficInfo {
    TrafficInfo {
        packet_sent: sat_add(a.packet_sent, b.packet_sent),
        packet_received: sat_add(a.packet_received, b.packet_received),
        bytes_sent: sat_add(a.bytes_sent, b.bytes_sent),
        bytes_received: sat_add(a.bytes_received, b.bytes_received),
    }
}

/// The traffic that one frame of `len` bytes contributes in direction `dir`.
pub open spec fn frame_traffic(dir: Direction, len: u64) -> TrafficInfo {
    match dir {
        Direction::Egress => TrafficInfo { packet_sent: 1, packet_received: 0, bytes_sent: len, bytes_received: 0 },
        Direction::Ingress => TrafficInfo { packet_sent: 0, packet_received: 1, bytes_sent: 0, bytes_received: len },
    }
}

/// Adding one frame of `len` bytes to `t` stays within `u64`.
pub open spec fn frame_fits(t: TrafficInfo, dir: Direction, len: u64) -> bool {
    match dir {
        Direction::Egress => t.packet_sent + 1 <= u64::MAX && t.bytes_sent + len <= u64::MAX,
        Direction::Ingress => t.packet_received + 1 <= u64::MAX && t.bytes_received + len <= u64::MAX,
    }
}

/// Total bytes in both directions, as an integer.
pub open spec fn total_bytes(t: TrafficInfo) -> int {
    t.bytes_sent + t.bytes_received
}

pub(crate) fn sat_add_exec(a: u64, b: u64) -> (r: u64)
    ensures
        r == sat_add(a, b),
{
    if a > u64::MAX - b {
        u64::MAX
    } else {
        a + b
    }
}

impl TrafficInfo {
    /// All counters zero.
    pub fn new() -> (r: TrafficInfo)
        ensures
            r == zero_traffic(),
    {
        TrafficInfo { packet_sent: 0, packet_received: 0, bytes_sent: 0, bytes_received: 0 }
    }

    /// Adds `traffic` componentwise into `self`, saturating at `u64::MAX`.
    pub fn add_traffic(&mut self, traffic: &TrafficInfo)
        ensures
            *final(self) == traffic_add(*old(self), *traffic),
    {
        self.packet_sent = sat_add_exec(self.packet_sent, traffic.packet_sent);
        self.packet_received = sat_add_exec(self.packet_received, traffic.packet_received);
        self.bytes_sent = sat_add_exec(self.bytes_sent, traffic.bytes_sent);
        self.bytes_received = sat_add_exec(self.bytes_received, traffic.bytes_received);
    }

    /// Counts one frame of `len` bytes in direction `dir`.
    pub fn add_frame(&mut self, dir: Direction, len: u64)
        requires
            frame_fits(*old(self), dir, len),
        ensures
            *final(self) == traffic_add(*old(self), frame_traffic(dir, len)),
    {
        match dir {
            Direction::Egress => {
                self.packet_sent = self.packet_sent + 1;
                self.bytes_sent = self.bytes_sent + len;
            },
            Direction::Ingress => {
                self.packet_received = self.packet_received + 1;
                self.bytes_received = self.bytes_received + len;
            },
        }
    }

    /// Total bytes in both directions, saturating at `u64::MAX`.
    pub fn total_bytes(&self) -> (r: u64)
        ensures
            r == sat_add(self.bytes_sent, self.bytes_received),
    {
        sat_add_exec(self.bytes_sent, self.bytes_received)
    }
}

/// Traffic addition is associative and commutative, with zero as identity.
pub proof fn lemma_traffic_monoid(a: TrafficInfo, b: TrafficInfo, c: TrafficInfo)
    ensures
        traffic_add(a, traffic_add(b, c)) == traffic_add(traffic_add(a, b), c),
        traffic_add(a, b) == traffic_add(b, a),
        traffic_add(a, zero_traffic()) == a,
{
}

} // verus!
