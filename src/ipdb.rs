use vstd::prelude::*;
use vstd::hash_map::StringHashMap;
use std::collections::HashMap;
use rangemap::RangeInclusiveMap;
use crate::addr::IpAddress;
use crate::sys::{db_file_url, db_url};

verus! {

broadcast use vstd::std_specs::hash::group_hash_axioms;

#[verifier::external_type_specification]
#[verifier::external_body]
#[verifier::reject_recursive_types(K)]
#[verifier::reject_recursive_types(V)]
#[verifier::reject_recursive_types(StepFnsT)]
pub struct ExRangeInclusiveMap<K, V, StepFnsT>(RangeInclusiveMap<K, V, StepFnsT>);

/// IPv4 ranges to (ASN, country code).
pub type V4Ranges = RangeInclusiveMap<u32, (u32, String)>;

/// IPv6 ranges to (ASN, country code).
pub type V6Ranges = RangeInclusiveMap<u128, (u32, String)>;

/// What an IPv4 range map holds: for each covered address, its ASN and country code.
pub uninterp spec fn ipv4_ranges(m: V4Ranges) -> Map<u32, (u32, Seq<char>)>;

/// What an IPv6 range map holds: for each covered address, its ASN and country code.
pub uninterp spec fn ipv6_ranges(m: V6Ranges) -> Map<u128, (u32, Seq<char>)>;

/// `m` with every key in `from..=to` mapped to `v`.
pub open spec fn overwrite_v4(m: Map<u32, (u32, Seq<char>)>, from: u32, to: u32, v: (u32, Seq<char>)) -> Map<u32, (u32, Seq<char>)> {
    Map::new(|k: u32| (from <= k <= to) || m.contains_key(k), |k: u32| if from <= k <= to { v } else { m[k] })
}

/// `m` with every key in `from..=to` mapped to `v`.
pub open spec fn overwrite_v6(m: Map<u128, (u32, Seq<char>)>, from: u128, to: u128, v: (u32, Seq<char>)) -> Map<u128, (u32, Seq<char>)> {
    Map::new(|k: u128| (from <= k <= to) || m.contains_key(k), |k: u128| if from <= k <= to { v } else { m[k] })
}

/// Relies on rangemap's `RangeInclusiveMap::new`: the new map covers no key.
#[verifier::external_body]
fn new_v4_ranges() -> (r: V4Ranges)
    ensures
        forall|k: u32| !ipv4_ranges(r).contains_key(k),
{
    RangeInclusiveMap::new()
}

/// Relies on rangemap's `RangeInclusiveMap::new`: the new map covers no key.
#[verifier::external_body]
fn new_v6_ranges() -> (r: V6Ranges)
    ensures
        forall|k: u128| !ipv6_ranges(r).contains_key(k),
{
    RangeInclusiveMap::new()
}

/// Relies on rangemap's `RangeInclusiveMap::insert`: afterwards every key of
/// `from..=to` maps to the new value and every other key keeps its value; it
/// panics when `from > to`.
#[verifier::external_body]
fn insert_v4_range(m: &mut V4Ranges, from: u32, to: u32, asn: u32, country_code: String)
    requires
        from <= to,
    ensures
        ipv4_ranges(*final(m)) == overwrite_v4(ipv4_ranges(*old(m)), from, to, (asn, country_code@)),
{
    m.insert(from..=to, (asn, country_code));
}

/// Relies on rangemap's `RangeInclusiveMap::insert`: afterwards every key of
/// `from..=to` maps to the new value and every other key keeps its value; it
/// panics when `from > to`.
#[verifier::external_body]
fn insert_v6_range(m: &mut V6Ranges, from: u128, to: u128, asn: u32, country_code: String)
    requires
        from <= to,
    ensures
        ipv6_ranges(*final(m)) == overwrite_v6(ipv6_ranges(*old(m)), from, to, (asn, country_code@)),
{
    m.insert(from..=to, (asn, country_code));
}

/// Relies on rangemap's `RangeInclusiveMap::get`: the value of the range that
/// covers `key`, if one does.
#[verifier::external_body]
fn get_v4_range(m: &V4Ranges, key: u32) -> (r: Option<AsnCountry>)
    ensures
        match r {
            Some(a) => ipv4_ranges(*m).contains_key(key) && ipv4_ranges(*m)[key] == (a.asn, a.country_code@),
            None => !ipv4_ranges(*m).contains_key(key),
        },
{
    m.get(&key).map(|v| AsnCountry { asn: v.0, country_code: v.1.clone() })
}

/// Relies on rangemap's `RangeInclusiveMap::get`: the value of the range that
/// covers `key`, if one does.
#[verifier::external_body]
fn get_v6_range(m: &V6Ranges, key: u128) -> (r: Option<AsnCountry>)
    ensures
        match r {
            Some(a) => ipv6_ranges(*m).contains_key(key) && ipv6_ranges(*m)[key] == (a.asn, a.country_code@),
            None => !ipv6_ranges(*m).contains_key(key),
        },
{
    m.get(&key).map(|v| AsnCountry { asn: v.0, country_code: v.1.clone() })
}

/// The ASN and country code of an address range.
#[derive(Debug, Clone, PartialEq, Eq)]
pub struct AsnCountry {
    pub asn: u32,
    pub country_code: String,
}

/// A record of the IPv4 range file.
#[derive(Debug, Clone)]
pub struct Ipv4Info {
    pub ip_from: u32,
    pub ip_to: u32,
    pub country_code: String,
    pub asn: u32,
}

/// A record of the IPv6 range file.
#[derive(Debug, Clone)]
pub struct Ipv6Info {
    pub ip_from: u128,
    pub ip_to: u128,
    pub country_code: String,
    pub asn: u32,
}

/// A record of the country file.
#[derive(Debug, Clone)]
pub struct Country {
    pub country_code: String,
    pub country_name: String,
}

/// A record of the autonomous-system file.
#[derive(Debug, Clone)]
pub struct AutonomousSystem {
    pub asn: u32,
    pub as_name: String,
}

impl Ipv4Info {
    /// The download URL of the IPv4 range file at a commit.
    pub fn get_github_url(commit_hash: &str) -> (r: String)
        ensures
            r@ == db_url(commit_hash@, "nustat-db-ipv4"@, "ipv4.bin"@),
    {
        db_file_url(commit_hash, "nustat-db-ipv4", "ipv4.bin")
    }
}

impl Ipv6Info {
    /// The download URL of the IPv6 range file at a commit.
    pub fn get_github_url(commit_hash: &str) -> (r: String)
        ensures
            r@ == db_url(commit_hash@, "nustat-db-ipv6"@, "ipv6.bin"@),
    {
        db_file_url(commit_hash, "nustat-db-ipv6", "ipv6.bin")
    }
}

impl Country {
    /// The download URL of the country file at a commit.
    pub fn get_github_url(commit_hash: &str) -> (r: String)
        ensures
            r@ == db_url(commit_hash@, "nustat-db-country"@, "country.bin"@),
    {
        db_file_url(commit_hash, "nustat-db-country", "country.bin")
    }
}

impl AutonomousSystem {
    /// The download URL of the autonomous-system file at a commit.
    pub fn get_github_url(commit_hash: &str) -> (r: String)
        ensures
            r@ == db_url(commit_hash@, "nustat-db-as"@, "as.bin"@),
    {
        db_file_url(commit_hash, "nustat-db-as", "as.bin")
    }
}

/// Enrichment of one address.
#[derive(Debug, Clone)]
pub struct IpInfo {
    pub ip_addr: IpAddress,
    pub country_code: String,
    pub country_name: String,
    pub asn: u32,
    pub as_name: String,
}

/// The ranges map after loading `recs` in order on top of `m`; records with
/// `ip_from > ip_to` are skipped.
pub open spec fn load_v4(m: Map<u32, (u32, Seq<char>)>, recs: Seq<Ipv4Info>) -> Map<u32, (u32, Seq<char>)>
    decreases recs.len(),
{
    if recs.len() == 0 {
        m
    } else {
        let r = recs.last();
        let prev = load_v4(m, recs.drop_last());
        if r.ip_from <= r.ip_to {
            overwrite_v4(prev, r.ip_from, r.ip_to, (r.asn, r.country_code@))
        } else {
            prev
        }
    }
}

/// The ranges map after loading `recs` in order on top of `m`; records with
/// `ip_from > ip_to` are skipped.
pub open spec fn load_v6(m: Map<u128, (u32, Seq<char>)>, recs: Seq<Ipv6Info>) -> Map<u128, (u32, Seq<char>)>
    decreases recs.len(),
{
    if recs.len() == 0 {
        m
    } else {
        let r = recs.last();
        let prev = load_v6(m, recs.drop_last());
        if r.ip_from <= r.ip_to {
            overwrite_v6(prev, r.ip_from, r.ip_to, (r.asn, r.country_code@))
        } else {
            prev
        }
    }
}

/// The name that a lookup joins for a key: the mapped text, else empty.
pub open spec fn joined_name(found: bool, name: Seq<char>) -> Seq<char> {
    if found {
        name
    } else {
        Seq::empty()
    }
}

/// Range-keyed geolocation and AS data, with the country and AS name tables.
pub struct IpDatabase {
    pub ipv4_map: V4Ranges,
    pub ipv6_map: V6Ranges,
    pub country_map: StringHashMap<String>,
    pub autonomous_map: HashMap<u32, String>,
}

impl IpDatabase {
    pub open spec fn v4_view(&self) -> Map<u32, (u32, Seq<char>)> {
        ipv4_ranges(self.ipv4_map)
    }

    pub open spec fn v6_view(&self) -> Map<u128, (u32, Seq<char>)> {
        ipv6_ranges(self.ipv6_map)
    }

    /// The country name joined for `code`, empty where unknown.
    pub open spec fn country_name_of(&self, code: Seq<char>) -> Seq<char> {
        joined_name(self.country_map@.contains_key(code), self.country_map@[code]@)
    }

    /// The AS name joined for `asn`, empty where unknown.
    pub open spec fn as_name_of(&self, asn: u32) -> Seq<char> {
        joined_name(self.autonomous_map@.contains_key(asn), self.autonomous_map@[asn]@)
    }

    /// An empty database: every lookup misses.
    pub fn new() -> (r: IpDatabase)
        ensures
            forall|k: u32| !r.v4_view().contains_key(k),
            forall|k: u128| !r.v6_view().contains_key(k),
            r.country_map@ == Map::<Seq<char>, String>::empty(),
            r.autonomous_map@ == Map::<u32, String>::empty(),
    {
        IpDatabase {
            ipv4_map: new_v4_ranges(),
            ipv6_map: new_v6_ranges(),
            country_map: StringHashMap::new(),
            autonomous_map: HashMap::new(),
        }
    }

    /// Adds IPv4 range records in order; a later record overrides an earlier
    /// one where they overlap, and a record with `ip_from > ip_to` is skipped.
    pub fn load_ipv4(&mut self, records: Vec<Ipv4Info>)
        ensures
            final(self).v4_view() == load_v4(old(self).v4_view(), records@),
            final(self).v6_view() == old(self).v6_view(),
            final(self).country_map@ == old(self).country_map@,
            final(self).autonomous_map@ == old(self).autonomous_map@,
    {
        let mut i: usize = 0;
        while i < records.len()
            invariant
                i <= records@.len(),
                self.v4_view() == load_v4(old(self).v4_view(), records@.subrange(0, i as int)),
                self.v6_view() == old(self).v6_view(),
                self.country_map@ == old(self).country_map@,
                self.autonomous_map@ == old(self).autonomous_map@,
            decreases records@.len() - i,
        {
            let r = &records[i];
            proof {
                assert(records@.subrange(0, i + 1).drop_last() == records@.subrange(0, i as int));
            }
            if r.ip_from <= r.ip_to {
                insert_v4_range(&mut self.ipv4_map, r.ip_from, r.ip_to, r.asn, r.country_code.clone());
            }
            i = i + 1;
        }
        assert(records@.subrange(0, records@.len() as int) == records@);
    }

    /// Adds IPv6 range records in order; a later record overrides an earlier
    /// one where they overlap, and a record with `ip_from > ip_to` is skipped.
    pub fn load_ipv6(&mut self, records: Vec<Ipv6Info>)
        ensures
            final(self).v6_view() == load_v6(old(self).v6_view(), records@),
            final(self).v4_view() == old(self).v4_view(),
            final(self).country_map@ == old(self).country_map@,
            final(self).autonomous_map@ == old(self).autonomous_map@,
    {
        let mut i: usize = 0;
        while i < records.len()
            invariant
                i <= records@.len(),
                self.v6_view() == load_v6(old(self).v6_view(), records@.subrange(0, i as int)),
                self.v4_view() == old(self).v4_view(),
                self.country_map@ == old(self).country_map@,
                self.autonomous_map@ == old(self).autonomous_map@,
            decreases records@.len() - i,
        {
            let r = &records[i];
            proof {
                assert(records@.subrange(0, i + 1).drop_last() == records@.subrange(0, i as int));
            }
            if r.ip_from <= r.ip_to {
                insert_v6_range(&mut self.ipv6_map, r.ip_from, r.ip_to, r.asn, r.country_code.clone());
            }
            i = i + 1;
        }
        assert(records@.subrange(0, records@.len() as int) == records@);
    }

    /// Adds country names; a later record for the same code wins.
    pub fn load_country(&mut self, records: Vec<Country>)
        ensures
            forall|k: Seq<char>| #![trigger final(self).country_map@[k]] old(self).country_map@.contains_key(k)
                && (forall|i: int| 0 <= i < records@.len() ==> records@[i].country_code@ != k)
                ==> final(self).country_map@[k] == old(self).country_map@[k],
            forall|k: Seq<char>| #![auto] final(self).country_map@.contains_key(k) <==>
                (old(self).country_map@.contains_key(k) || exists|i: int| 0 <= i < records@.len() && records@[i].country_code@ == k),
            forall|i: int| #![auto] 0 <= i < records@.len()
                && (forall|j: int| i < j < records@.len() ==> records@[j].country_code@ != records@[i].country_code@)
                ==> final(self).country_map@[records@[i].country_code@]@ == records@[i].country_name@,
            final(self).v4_view() == old(self).v4_view(),
            final(self).v6_view() == old(self).v6_view(),
            final(self).autonomous_map@ == old(self).autonomous_map@,
    {
        let mut i: usize = 0;
        while i < records.len()
            invariant
                i <= records@.len(),
                forall|k: Seq<char>| #![trigger self.country_map@[k]] old(self).country_map@.contains_key(k)
                    && (forall|j: int| 0 <= j < i ==> records@[j].country_code@ != k)
                    ==> self.country_map@[k] == old(self).country_map@[k],
                forall|k: Seq<char>| #![auto] self.country_map@.contains_key(k) <==>
                    (old(self).country_map@.contains_key(k) || exists|j: int| 0 <= j < i && records@[j].country_code@ == k),
                forall|j: int| #![auto] 0 <= j < i
                    && (forall|l: int| j < l < i ==> records@[l].country_code@ != records@[j].country_code@)
                    ==> self.country_map@[records@[j].country_code@]@ == records@[j].country_name@,
                self.v4_view() == old(self).v4_view(),
                self.v6_view() == old(self).v6_view(),
                self.autonomous_map@ == old(self).autonomous_map@,
            decreases records@.len() - i,
        {
            let code = records[i].country_code.clone();
            let name = records[i].country_name.clone();
            self.country_map.insert(code, name);
            proof {
                assert forall|k: Seq<char>| #![auto] self.country_map@.contains_key(k) <==>
                    (old(self).country_map@.contains_key(k) || exists|j: int| 0 <= j < i + 1 && records@[j].country_code@ == k) by {
                    if k == records@[i as int].country_code@ {
                        assert(records@[i as int].country_code@ == k);
                    }
                }
            }
            i = i + 1;
        }
    }

    /// Adds AS names; a later record for the same ASN wins.
    pub fn load_autonomous(&mut self, records: Vec<AutonomousSystem>)
        ensures
            forall|k: u32| #![trigger final(self).autonomous_map@[k]] old(self).autonomous_map@.contains_key(k)
                && (forall|i: int| 0 <= i < records@.len() ==> records@[i].asn != k)
                ==> final(self).autonomous_map@[k] == old(self).autonomous_map@[k],
            forall|k: u32| #![auto] final(self).autonomous_map@.contains_key(k) <==>
                (old(self).autonomous_map@.contains_key(k) || exists|i: int| 0 <= i < records@.len() && records@[i].asn == k),
            forall|i: int| #![auto] 0 <= i < records@.len()
                && (forall|j: int| i < j < records@.len() ==> records@[j].asn != records@[i].asn)
                ==> final(self).autonomous_map@[records@[i].asn]@ == records@[i].as_name@,
            final(self).v4_view() == old(self).v4_view(),
            final(self).v6_view() == old(self).v6_view(),
            final(self).country_map@ == old(self).country_map@,
    {
        let mut i: usize = 0;
        while i < records.len()
            invariant
                i <= records@.len(),
                forall|k: u32| #![trigger self.autonomous_map@[k]] old(self).autonomous_map@.contains_key(k)
                    && (forall|j: int| 0 <= j < i ==> records@[j].asn != k)
                    ==> self.autonomous_map@[k] == old(self).autonomous_map@[k],
                forall|k: u32| #![auto] self.autonomous_map@.contains_key(k) <==>
                    (old(self).autonomous_map@.contains_key(k) || exists|j: int| 0 <= j < i && records@[j].asn == k),
                forall|j: int| #![auto] 0 <= j < i
                    && (forall|l: int| j < l < i ==> records@[l].asn != records@[j].asn)
                    ==> self.autonomous_map@[records@[j].asn]@ == records@[j].as_name@,
                self.v4_view() == old(self).v4_view(),
                self.v6_view() == old(self).v6_view(),
                self.country_map@ == old(self).country_map@,
            decreases records@.len() - i,
        {
            let asn = records[i].asn;
            let name = records[i].as_name.clone();
            self.autonomous_map.insert(asn, name);
            proof {
                assert forall|k: u32| #![auto] self.autonomous_map@.contains_key(k) <==>
                    (old(self).autonomous_map@.contains_key(k) || exists|j: int| 0 <= j < i + 1 && records@[j].asn == k) by {
                    if k == records@[i as int].asn {
                        assert(records@[i as int].asn == k);
                    }
                }
            }
            i = i + 1;
        }
    }

    fn join_names(&self, ip_addr: IpAddress, found: AsnCountry) -> (r: IpInfo)
        ensures
            r.ip_addr == ip_addr,
            r.asn == found.asn,
            r.country_code@ == found.country_code@,
            r.country_name@ == self.country_name_of(found.country_code@),
            r.as_name@ == self.as_name_of(found.asn),
    {
        let country_name = match self.country_map.get(found.country_code.as_str()) {
            Some(n) => n.clone(),
            None => String::new(),
        };
        let as_name = match self.autonomous_map.get(&found.asn) {
            Some(n) => n.clone(),
            None => String::new(),
        };
        IpInfo { ip_addr, country_code: found.country_code, country_name, asn: found.asn, as_name }
    }

    /// Enrichment for an IPv4 address: present exactly when a range covers it.
    pub fn get_ipv4_info(&self, ip_addr: u32) -> (r: Option<IpInfo>)
        ensures
            r.is_some() == self.v4_view().contains_key(ip_addr),
            r.is_some() ==> {
                let e = self.v4_view()[ip_addr];
                let i = r.unwrap();
                &&& i.ip_addr == IpAddress::V4(ip_addr)
                &&& i.asn == e.0
                &&& i.country_code@ == e.1
                &&& i.country_name@ == self.country_name_of(e.1)
                &&& i.as_name@ == self.as_name_of(e.0)
            },
    {
        match get_v4_range(&self.ipv4_map, ip_addr) {
            Some(found) => Some(self.join_names(IpAddress::V4(ip_addr), found)),
            None => None,
        }
    }

    /// Enrichment for an IPv6 address: present exactly when a range covers it.
    pub fn get_ipv6_info(&self, ip_addr: u128) -> (r: Option<IpInfo>)
        ensures
            r.is_some() == self.v6_view().contains_key(ip_addr),
            r.is_some() ==> {
                let e = self.v6_view()[ip_addr];
                let i = r.unwrap();
                &&& i.ip_addr == IpAddress::V6(ip_addr)
                &&& i.asn == e.0
                &&& i.country_code@ == e.1
                &&& i.country_name@ == self.country_name_of(e.1)
                &&& i.as_name@ == self.as_name_of(e.0)
            },
    {
        match get_v6_range(&self.ipv6_map, ip_addr) {
            Some(found) => Some(self.join_names(IpAddress::V6(ip_addr), found)),
            None => None,
        }
    }
}

} // verus!
