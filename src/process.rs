use vstd::prelude::*;
use crate::traffic::TrafficInfo;

verus! {

/// The owner of a process, as the OS probe reports it.
#[derive(Debug, Clone)]
pub struct UserInfo {
    pub user_id: String,
    pub group_id: String,
    pub user_name: String,
    pub groups: Vec<String>,
}

/// A process, provided whole by the OS probe.
#[derive(Debug, Clone)]
pub struct ProcessInfo {
    pub pid: u32,
    pub name: String,
    pub exe_path: String,
    pub cmd: Vec<String>,
    pub status: String,
    pub user_info: Option<UserInfo>,
    pub start_time: String,
    pub elapsed_time: u64,
}

/// What the contracts track of a user: every field, text as characters.
pub type UserView = (Seq<char>, Seq<char>, Seq<char>, Seq<String>);

/// What the contracts track of a process: every field, text as characters.
pub type ProcessView = (u32, Seq<char>, Seq<char>, Seq<String>, Seq<char>, Option<UserView>, Seq<char>, u64);

pub open spec fn user_view(u: UserInfo) -> UserView {
    (u.user_id@, u.group_id@, u.user_name@, u.groups@)
}

pub open spec fn process_view(p: ProcessInfo) -> ProcessView {
    (p.pid, p.name@, p.exe_path@, p.cmd@, p.status@, match p.user_info {
        Some(u) => Some(user_view(u)),
        None => None,
    }, p.start_time@, p.elapsed_time)
}

pub open spec fn opt_process_view(p: Option<ProcessInfo>) -> Option<ProcessView> {
    match p {
        Some(p) => Some(process_view(p)),
        None => None,
    }
}

fn copy_strings(v: &Vec<String>) -> (r: Vec<String>)
    ensures
        r@ == v@,
{
    let mut r: Vec<String> = Vec::new();
    let mut i: usize = 0;
    while i < v.len()
        invariant
            i <= v@.len(),
            r@ == v@.subrange(0, i as int),
        decreases v@.len() - i,
    {
        r.push(v[i].clone());
        i = i + 1;
        proof { assert(r@ =~= v@.subrange(0, i as int)); }
    }
    proof { assert(v@.subrange(0, i as int) == v@); }
    r
}

impl UserInfo {
    /// A copy with equal fields.
    pub fn duplicate(&self) -> (r: UserInfo)
        ensures
            user_view(r) == user_view(*self),
    {
        UserInfo {
            user_id: self.user_id.clone(),
            group_id: self.group_id.clone(),
            user_name: self.user_name.clone(),
            groups: copy_strings(&self.groups),
        }
    }
}

impl ProcessInfo {
    /// A copy with equal fields.
    pub fn duplicate(&self) -> (r: ProcessInfo)
        ensures
            process_view(r) == process_view(*self),
    {
        let user_info = match &self.user_info {
            Some(u) => Some(u.duplicate()),
            None => None,
        };
        ProcessInfo {
            pid: self.pid,
            name: self.name.clone(),
            exe_path: self.exe_path.clone(),
            cmd: copy_strings(&self.cmd),
            status: self.status.clone(),
            user_info,
            start_time: self.start_time.clone(),
            elapsed_time: self.elapsed_time,
        }
    }
}

/// A copy of an optional process record, field for field.
pub fn copy_process(p: &Option<ProcessInfo>) -> (r: Option<ProcessInfo>)
    ensures
        opt_process_view(r) == opt_process_view(*p),
{
    match p {
        Some(p) => Some(p.duplicate()),
        None => None,
    }
}

/// One row of the top-processes projection.
#[derive(Debug, Clone)]
pub struct ProcessDisplayInfo {
    pub pid: u32,
    pub name: String,
    pub traffic: TrafficInfo,
}

} // verus!
