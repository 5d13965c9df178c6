use vstd::prelude::*;

verus! {

/// An entry of the user's watch list of remote endpoints.
#[derive(Debug, Clone)]
pub struct WatchList {
    pub id: u64,
    pub name: String,
    pub ip_addr: String,
    pub hostname: String,
    pub port: u16,
    pub protocol: String,
    pub updated_at: String,
}

impl WatchList {
    /// An entry with id and port zero and empty text fields.
    pub fn new() -> (r: WatchList)
        ensures
            r.id == 0,
            r.port == 0,
            r.name@.len() == 0,
            r.ip_addr@.len() == 0,
            r.hostname@.len() == 0,
            r.protocol@.len() == 0,
            r.updated_at@.len() == 0,
    {
        WatchList {
            id: 0,
            name: String::new(),
            ip_addr: String::new(),
            hostname: String::new(),
            port: 0,
            protocol: String::new(),
            updated_at: String::new(),
        }
    }
}

} // verus!
