use vstd::prelude::*;

verus! {

/// Severity of a log record.
#[derive(Debug, Clone, Copy, PartialEq, Eq, Structural)]
pub enum LogLevel {
    DEBUG,
    INFO,
    WARNING,
    ERROR,
}

/// Severity rank: DEBUG < INFO < WARNING < ERROR.
pub open spec fn level_rank(l: LogLevel) -> int {
    match l {
        LogLevel::DEBUG => 0,
        LogLevel::INFO => 1,
        LogLevel::WARNING => 2,
        LogLevel::ERROR => 3,
    }
}

pub open spec fn level_name(l: LogLevel) -> Seq<char> {
    match l {
        LogLevel::DEBUG => "DEBUG"@,
        LogLevel::INFO => "INFO"@,
        LogLevel::WARNING => "WARNING"@,
        LogLevel::ERROR => "ERROR"@,
    }
}

impl LogLevel {
    /// A logger set to `self` emits records of `level` exactly when `level`
    /// is at least as severe as `self`.
    pub fn allows(&self, level: &LogLevel) -> (r: bool)
        ensures
            r == (level_rank(*level) >= level_rank(*self)),
    {
        match self {
            LogLevel::DEBUG => true,
            LogLevel::INFO => *level != LogLevel::DEBUG,
            LogLevel::WARNING => *level == LogLevel::WARNING || *level == LogLevel::ERROR,
            LogLevel::ERROR => *level == LogLevel::ERROR,
        }
    }

    pub fn to_string(&self) -> (r: String)
        ensures
            r@ == level_name(*self),
    {
        let s: &str = match self {
            LogLevel::DEBUG => "DEBUG",
            LogLevel::INFO => "INFO",
            LogLevel::WARNING => "WARNING",
            LogLevel::ERROR => "ERROR",
        };
        s.to_string()
    }
}

/// Logging section of the configuration.
#[derive(Debug, Clone)]
pub struct LoggingConfig {
    pub level: LogLevel,
    /// Log file path; none until the caller resolves one.
    pub file_path: Option<String>,
}

/// Network section of the configuration.
#[derive(Debug, Clone)]
pub struct NetworkConfig {
    /// Interfaces to capture on; all usable ones when empty.
    pub interfaces: Vec<String>,
    /// Whether the reverse DNS reconciler runs.
    pub reverse_dns: bool,
}

/// Display section of the configuration.
#[derive(Debug, Clone)]
pub struct DisplayConfig {
    /// Rows of the top-remote-hosts view.
    pub top_remote_hosts: usize,
    /// Rows of the connections view.
    pub connection_count: usize,
    /// UI refresh period in milliseconds.
    pub tick_rate: u64,
}

/// The whole configuration.
#[derive(Debug, Clone)]
pub struct AppConfig {
    pub logging: LoggingConfig,
    pub network: NetworkConfig,
    pub display: DisplayConfig,
}

impl LoggingConfig {
    /// ERROR level, no file yet.
    pub fn new() -> (r: LoggingConfig)
        ensures
            r.level == LogLevel::ERROR,
            r.file_path.is_none(),
    {
        LoggingConfig { level: LogLevel::ERROR, file_path: None }
    }
}

impl NetworkConfig {
    /// All interfaces, no reverse DNS.
    pub fn new() -> (r: NetworkConfig)
        ensures
            r.interfaces@.len() == 0,
            !r.reverse_dns,
    {
        NetworkConfig { interfaces: Vec::new(), reverse_dns: false }
    }
}

impl DisplayConfig {
    /// Ten rows each, one refresh per second.
    pub fn new() -> (r: DisplayConfig)
        ensures
            r.top_remote_hosts == 10,
            r.connection_count == 10,
            r.tick_rate == 1000,
    {
        DisplayConfig { top_remote_hosts: 10, connection_count: 10, tick_rate: 1000 }
    }
}

impl AppConfig {
    /// The default of each section.
    pub fn new() -> (r: AppConfig)
        ensures
            r.logging.level == LogLevel::ERROR,
            r.logging.file_path.is_none(),
            r.network.interfaces@.len() == 0,
            !r.network.reverse_dns,
            r.display.top_remote_hosts == 10,
            r.display.connection_count == 10,
            r.display.tick_rate == 1000,
    {
        AppConfig { logging: LoggingConfig::new(), network: NetworkConfig::new(), display: DisplayConfig::new() }
    }
}

} // verus!
