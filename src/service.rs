use vstd::prelude::*;
use std::collections::HashMap;
use crate::sys::{db_file_url, db_url};
use crate::traffic::TrafficInfo;

verus! {

broadcast use vstd::std_specs::hash::group_hash_axioms;

/// A record of the port-to-service file.
#[derive(Debug, Clone)]
pub struct TcpService {
    pub port: u16,
    pub service_name: String,
}

/// Port to service name.
pub struct ServiceDatabase {
    pub tcp_map: HashMap<u16, String>,
}

/// One row of the top-services projection.
#[derive(Debug, Clone)]
pub struct ServiceDisplayInfo {
    pub port: u16,
    pub protocol: String,
    pub name: String,
    pub traffic: TrafficInfo,
}

impl TcpService {
    /// The download URL of the service file at a commit.
    pub fn get_github_url(commit_hash: &str) -> (r: String)
        ensures
            r@ == db_url(commit_hash@, "nustat-db-service"@, "tcp-service.bin"@),
    {
        db_file_url(commit_hash, "nustat-db-service", "tcp-service.bin")
    }
}

impl ServiceDatabase {
    /// A database that knows no port.
    pub fn new() -> (r: ServiceDatabase)
        ensures
            r.tcp_map@ == Map::<u16, String>::empty(),
    {
        ServiceDatabase { tcp_map: HashMap::new() }
    }

    /// Adds service names; a later record for the same port wins.
    pub fn load(&mut self, records: Vec<TcpService>)
        ensures
            forall|p: u16| #![trigger final(self).tcp_map@[p]] old(self).tcp_map@.contains_key(p)
                && (forall|i: int| 0 <= i < records@.len() ==> records@[i].port != p)
                ==> final(self).tcp_map@[p] == old(self).tcp_map@[p],
            forall|p: u16| #![auto] final(self).tcp_map@.contains_key(p) <==>
                (old(self).tcp_map@.contains_key(p) || exists|i: int| 0 <= i < records@.len() && records@[i].port == p),
            forall|i: int| #![auto] 0 <= i < records@.len()
                && (forall|j: int| i < j < records@.len() ==> records@[j].port != records@[i].port)
                ==> final(self).tcp_map@[records@[i].port]@ == records@[i].service_name@,
    {
        let mut i: usize = 0;
        while i < records.len()
            invariant
                i <= records@.len(),
                forall|p: u16| #![trigger self.tcp_map@[p]] old(self).tcp_map@.contains_key(p)
                    && (forall|j: int| 0 <= j < i ==> records@[j].port != p)
                    ==> self.tcp_map@[p] == old(self).tcp_map@[p],
                forall|p: u16| #![auto] self.tcp_map@.contains_key(p) <==>
                    (old(self).tcp_map@.contains_key(p) || exists|j: int| 0 <= j < i && records@[j].port == p),
                forall|j: int| #![auto] 0 <= j < i
                    && (forall|l: int| j < l < i ==> records@[l].port != records@[j].port)
                    ==> self.tcp_map@[records@[j].port]@ == records@[j].service_name@,
            decreases records@.len() - i,
        {
            let port = records[i].port;
            let name = records[i].service_name.clone();
            self.tcp_map.insert(port, name);
            proof {
                assert forall|p: u16| #![auto] self.tcp_map@.contains_key(p) <==>
                    (old(self).tcp_map@.contains_key(p) || exists|j: int| 0 <= j < i + 1 && records@[j].port == p) by {
                    if p == records@[i as int].port {
                        assert(records@[i as int].port == p);
                    }
                }
            }
            i = i + 1;
        }
    }

    /// The service name of `port`, if known.
    pub fn get(&self, port: u16) -> (r: Option<String>)
        ensures
            r.is_some() == self.tcp_map@.contains_key(port),
            r.is_some() ==> r.unwrap()@ == self.tcp_map@[port]@,
    {
        match self.tcp_map.get(&port) {
            Some(name) => Some(name.clone()),
            None => None,
        }
    }
}

} // verus!
