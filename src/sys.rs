use vstd::prelude::*;
use vstd::string::StringExecFns;
use sysinfo::SystemExt;
use crate::socket::{protocol_name, PortInfo};

verus! {

/// Name of the per-user configuration directory.
pub const USER_CONFIG_DIR_NAME: &'static str = ".nustat";

/// Base URL of the repository's raw content.
pub const CONTENT_BASE_URL: &'static str = "https://raw.githubusercontent.com/shellrow/nustat";

/// Relies on sysinfo's `SystemExt::distribution_id`: the operating system's
/// identifier, the os-release `ID` on Linux (falling back to "linux") and
/// the platform name ("macos", "windows", ...) elsewhere. It depends on the
/// machine, so nothing is stated of it.
#[verifier::external_body]
pub fn get_os_type() -> (r: String) {
    sysinfo::System::new().distribution_id()
}

/// Guesses the initial TTL of a packet from the TTL it arrived with.
pub fn guess_initial_ttl(ttl: u8) -> (r: u8)
    ensures
        r == (if ttl <= 64 { 64u8 } else if ttl <= 128 { 128u8 } else { 255u8 }),
{
    if ttl <= 64 {
        64
    } else if 64 < ttl && ttl <= 128 {
        128
    } else {
        255
    }
}

/// Decimal digits of `n`.
pub open spec fn decimal(n: nat) -> Seq<char>
    decreases n,
{
    if n < 10 {
        digit(n)
    } else {
        decimal(n / 10) + digit(n % 10)
    }
}

/// The decimal digit `d < 10` as text.
pub open spec fn digit(d: nat) -> Seq<char> {
    if d == 0 { "0"@ } else if d == 1 { "1"@ } else if d == 2 { "2"@ } else if d == 3 { "3"@ } else if d == 4 { "4"@ }
    else if d == 5 { "5"@ } else if d == 6 { "6"@ } else if d == 7 { "7"@ } else if d == 8 { "8"@ } else { "9"@ }
}

fn digit_str(d: u64) -> (r: &'static str)
    requires
        d < 10,
    ensures
        r@ == digit(d as nat),
{
    if d == 0 { "0" } else if d == 1 { "1" } else if d == 2 { "2" } else if d == 3 { "3" } else if d == 4 { "4" }
    else if d == 5 { "5" } else if d == 6 { "6" } else if d == 7 { "7" } else if d == 8 { "8" } else { "9" }
}

/// Appends the decimal digits of `n` to `s`.
fn append_decimal(s: &mut String, n: u64)
    ensures
        final(s)@ == old(s)@ + decimal(n as nat),
    decreases n,
{
    if n >= 10 {
        append_decimal(s, n / 10);
    }
    s.append(digit_str(n % 10));
    proof {
        assert(old(s)@ + decimal(n as nat) =~= s@);
    }
}

impl PortInfo {
    /// `"<port>-<protocol>"`, e.g. `"443-TCP"`.
    pub fn to_key_string(&self) -> (r: String)
        ensures
            r@ == decimal(self.port as nat) + "-"@ + protocol_name(self.protocol),
    {
        let mut s = String::new();
        append_decimal(&mut s, self.port as u64);
        s.append("-");
        s.append(self.protocol.as_str());
        proof {
            assert(s@ =~= decimal(self.port as nat) + "-"@ + protocol_name(self.protocol));
        }
        s
    }
}

/// `CONTENT_BASE_URL/<commit>/nustat-db/<db_dir>/resources/<file_name>`.
pub open spec fn db_url(commit_hash: Seq<char>, db_dir: Seq<char>, file_name: Seq<char>) -> Seq<char> {
    "https://raw.githubusercontent.com/shellrow/nustat"@ + "/"@ + commit_hash + "/nustat-db/"@ + db_dir
        + "/resources/"@ + file_name
}

/// The download URL of a database file at a commit.
pub fn db_file_url(commit_hash: &str, db_dir: &str, file_name: &str) -> (r: String)
    ensures
        r@ == db_url(commit_hash@, db_dir@, file_name@),
{
    let mut s = CONTENT_BASE_URL.to_string();
    s.append("/");
    s.append(commit_hash);
    s.append("/nustat-db/");
    s.append(db_dir);
    s.append("/resources/");
    s.append(file_name);
    proof {
        assert(s@ =~= db_url(commit_hash@, db_dir@, file_name@));
    }
    s
}

} // verus!
