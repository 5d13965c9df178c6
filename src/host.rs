use vstd::prelude::*;
use vstd::string::StrSliceExecFns;
use crate::addr::IpAddress;
use crate::counters::{counters_merge, merge_port_tables};
use crate::socket::PortInfo;
use crate::table::{keys_unique, table_view};
use crate::traffic::{traffic_add, zero_traffic, TrafficInfo};

verus! {

/// A remote peer and what has been observed of it during one epoch.
#[derive(Debug, Clone)]
pub struct RemoteHostInfo {
    pub mac_addr: String,
    pub ip_addr: IpAddress,
    pub hostname: String,
    pub country_code: String,
    pub country_name: String,
    pub asn: u32,
    pub as_name: String,
    pub traffic_info: TrafficInfo,
    /// Traffic per remote port and protocol.
    pub protocol_stat: Vec<(PortInfo, TrafficInfo)>,
    pub first_seen: String,
    pub updated_at: String,
}

/// A host row of the top-remote-hosts projection.
#[derive(Debug, Clone)]
pub struct HostDisplayInfo {
    pub ip_addr: IpAddress,
    pub host_name: String,
    pub country_code: String,
    pub country_name: String,
    pub asn: u32,
    pub as_name: String,
    pub traffic: TrafficInfo,
}

/// `a` unless it is empty, else `b`.
pub open spec fn first_nonempty(a: Seq<char>, b: Seq<char>) -> Seq<char> {
    if a.len() == 0 {
        b
    } else {
        a
    }
}

/// `a` unless it is zero, else `b`.
pub open spec fn first_nonzero(a: u32, b: u32) -> u32 {
    if a == 0 {
        b
    } else {
        a
    }
}

/// Text order, character by character: `a` sorts strictly before `b`.
/// RFC 3339 times with the same offset sort in time order.
pub open spec fn text_lt(a: Seq<char>, b: Seq<char>) -> bool
    decreases a.len(),
{
    if b.len() == 0 {
        false
    } else if a.len() == 0 {
        true
    } else if a[0] != b[0] {
        (a[0] as u32) < (b[0] as u32)
    } else {
        text_lt(a.subrange(1, a.len() as int), b.subrange(1, b.len() as int))
    }
}

/// The later of two timestamps in text order.
pub open spec fn later_text(a: Seq<char>, b: Seq<char>) -> Seq<char> {
    if text_lt(a, b) {
        b
    } else {
        a
    }
}

/// Whether `a` sorts strictly before `b` in text order.
pub fn text_less(a: &str, b: &str) -> (r: bool)
    ensures
        r == text_lt(a@, b@),
{
    let la = a.unicode_len();
    let lb = b.unicode_len();
    let mut i: usize = 0;
    proof {
        assert(a@.subrange(0, la as int) =~= a@);
        assert(b@.subrange(0, lb as int) =~= b@);
    }
    while i < la && i < lb
        invariant
            la == a@.len(),
            lb == b@.len(),
            i <= la,
            i <= lb,
            text_lt(a@, b@) == text_lt(a@.subrange(i as int, la as int), b@.subrange(i as int, lb as int)),
        decreases la - i,
    {
        let ca = a.get_char(i);
        let cb = b.get_char(i);
        let ghost sa = a@.subrange(i as int, la as int);
        let ghost sb = b@.subrange(i as int, lb as int);
        proof {
            assert(sa[0] == ca && sb[0] == cb);
        }
        if ca != cb {
            return (ca as u32) < (cb as u32);
        }
        proof {
            assert(sa.subrange(1, sa.len() as int) =~= a@.subrange(i + 1, la as int));
            assert(sb.subrange(1, sb.len() as int) =~= b@.subrange(i + 1, lb as int));
        }
        i = i + 1;
    }
    i < lb
}

impl RemoteHostInfo {
    /// Its per-port table has unique keys.
    pub open spec fn wf(&self) -> bool {
        keys_unique(self.protocol_stat@)
    }

    /// Per-port counters as a map.
    pub open spec fn ports_view(&self) -> Map<PortInfo, TrafficInfo> {
        table_view(self.protocol_stat@)
    }

    /// A host first seen at `now`, with no traffic and no enrichment yet.
    pub fn new(mac_addr: String, ip_addr: IpAddress, now: String) -> (r: RemoteHostInfo)
        ensures
            r.wf(),
            r.mac_addr@ == mac_addr@,
            r.ip_addr == ip_addr,
            r.hostname@.len() == 0,
            r.country_code@.len() == 0,
            r.country_name@.len() == 0,
            r.asn == 0,
            r.as_name@.len() == 0,
            r.traffic_info == zero_traffic(),
            r.ports_view() == Map::<PortInfo, TrafficInfo>::empty(),
            r.first_seen@ == now@,
            r.updated_at@ == now@,
    {
        let first_seen = now.clone();
        RemoteHostInfo {
            mac_addr,
            ip_addr,
            hostname: String::new(),
            country_code: String::new(),
            country_name: String::new(),
            asn: 0,
            as_name: String::new(),
            traffic_info: TrafficInfo::new(),
            protocol_stat: Vec::new(),
            first_seen,
            updated_at: now,
        }
    }

    /// Adds `other` into `self`: traffic and per-port counters add up,
    /// text fields and the ASN are filled only where `self` has none, and
    /// `updated_at` becomes the later of the two.
    pub fn merge(&mut self, other: &RemoteHostInfo)
        requires
            old(self).wf(),
            other.wf(),
        ensures
            final(self).wf(),
            final(self).ip_addr == old(self).ip_addr,
            final(self).traffic_info == traffic_add(old(self).traffic_info, other.traffic_info),
            final(self).ports_view() == counters_merge(old(self).ports_view(), other.ports_view()),
            final(self).mac_addr@ == first_nonempty(old(self).mac_addr@, other.mac_addr@),
            final(self).hostname@ == first_nonempty(old(self).hostname@, other.hostname@),
            final(self).country_code@ == first_nonempty(old(self).country_code@, other.country_code@),
            final(self).country_name@ == first_nonempty(old(self).country_name@, other.country_name@),
            final(self).as_name@ == first_nonempty(old(self).as_name@, other.as_name@),
            final(self).asn == first_nonzero(old(self).asn, other.asn),
            final(self).first_seen@ == first_nonempty(old(self).first_seen@, other.first_seen@),
            final(self).updated_at@ == later_text(old(self).updated_at@, other.updated_at@),
    {
        self.traffic_info.add_traffic(&other.traffic_info);
        merge_port_tables(&mut self.protocol_stat, &other.protocol_stat);
        if self.mac_addr.as_str().is_empty() {
            self.mac_addr = other.mac_addr.clone();
        }
        if self.hostname.as_str().is_empty() {
            self.hostname = other.hostname.clone();
        }
        if self.country_code.as_str().is_empty() {
            self.country_code = other.country_code.clone();
        }
        if self.country_name.as_str().is_empty() {
            self.country_name = other.country_name.clone();
        }
        if self.as_name.as_str().is_empty() {
            self.as_name = other.as_name.clone();
        }
        if self.asn == 0 {
            self.asn = other.asn;
        }
        if self.first_seen.as_str().is_empty() {
            self.first_seen = other.first_seen.clone();
        }
        if text_less(self.updated_at.as_str(), other.updated_at.as_str()) {
            self.updated_at = other.updated_at.clone();
        }
    }

    /// A copy with equal fields.
    pub fn duplicate(&self) -> (r: RemoteHostInfo)
        ensures
            r.mac_addr == self.mac_addr,
            r.ip_addr == self.ip_addr,
            r.hostname == self.hostname,
            r.country_code == self.country_code,
            r.country_name == self.country_name,
            r.asn == self.asn,
            r.as_name == self.as_name,
            r.traffic_info == self.traffic_info,
            r.protocol_stat@ == self.protocol_stat@,
            r.first_seen == self.first_seen,
            r.updated_at == self.updated_at,
    {
        let mut ports: Vec<(PortInfo, TrafficInfo)> = Vec::new();
        let mut i: usize = 0;
        while i < self.protocol_stat.len()
            invariant
                i <= self.protocol_stat@.len(),
                ports@ == self.protocol_stat@.subrange(0, i as int),
            decreases self.protocol_stat@.len() - i,
        {
            ports.push(self.protocol_stat[i]);
            i = i + 1;
            proof { assert(ports@ =~= self.protocol_stat@.subrange(0, i as int)); }
        }
        proof { assert(self.protocol_stat@.subrange(0, i as int) == self.protocol_stat@); }
        RemoteHostInfo {
            mac_addr: self.mac_addr.clone(),
            ip_addr: self.ip_addr,
            hostname: self.hostname.clone(),
            country_code: self.country_code.clone(),
            country_name: self.country_name.clone(),
            asn: self.asn,
            as_name: self.as_name.clone(),
            traffic_info: self.traffic_info,
            protocol_stat: ports,
            first_seen: self.first_seen.clone(),
            updated_at: self.updated_at.clone(),
        }
    }

    /// The display row of this host.
    pub fn to_display(&self) -> (r: HostDisplayInfo)
        ensures
            r.ip_addr == self.ip_addr,
            r.host_name@ == self.hostname@,
            r.country_code@ == self.country_code@,
            r.country_name@ == self.country_name@,
            r.asn == self.asn,
            r.as_name@ == self.as_name@,
            r.traffic == self.traffic_info,
    {
        HostDisplayInfo {
            ip_addr: self.ip_addr,
            host_name: self.hostname.clone(),
            country_code: self.country_code.clone(),
            country_name: self.country_name.clone(),
            asn: self.asn,
            as_name: self.as_name.clone(),
            traffic: self.traffic_info,
        }
    }
}

} // verus!
