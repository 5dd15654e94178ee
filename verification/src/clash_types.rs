//! The values that the daemon's control interface answers with.

use vstd::prelude::*;

verus! {

/// How the daemon routes.
#[derive(Debug, Clone, Copy, PartialEq, Eq, Structural)]
pub enum ClashMode {
    Rule,
    Global,
    Direct,
}

impl ClashMode {
    /// The word that the daemon uses for the mode.
    pub open spec fn keyword(self) -> Seq<char> {
        match self {
            ClashMode::Rule => "rule"@,
            ClashMode::Global => "global"@,
            ClashMode::Direct => "direct"@,
        }
    }

    /// The mode that follows in the cycle Rule, Global, Direct.
    pub open spec fn successor(self) -> ClashMode {
        match self {
            ClashMode::Rule => ClashMode::Global,
            ClashMode::Global => ClashMode::Direct,
            ClashMode::Direct => ClashMode::Rule,
        }
    }

    /// The word that the daemon uses for the mode.
    pub fn as_str(&self) -> (word: &'static str)
        ensures
            word@ == self.keyword(),
    {
        match self {
            ClashMode::Rule => "rule",
            ClashMode::Global => "global",
            ClashMode::Direct => "direct",
        }
    }

    /// The mode that follows in the cycle.
    pub fn next(&self) -> (following: ClashMode)
        ensures
            following == self.successor(),
    {
        match self {
            ClashMode::Rule => ClashMode::Global,
            ClashMode::Global => ClashMode::Direct,
            ClashMode::Direct => ClashMode::Rule,
        }
    }
}

/// The daemon's general settings.
#[derive(Debug, Clone)]
pub struct ConfigResponse {
    pub port: u16,
    pub socks_port: u16,
    pub redir_port: u16,
    pub allow_lan: bool,
    pub mode: Option<ClashMode>,
    pub log_level: String,
}

/// The kind of a proxy or of a group of proxies.
#[allow(clippy::upper_case_acronyms)]
#[derive(Debug, Clone, Copy, PartialEq, Eq, Structural)]
pub enum ProxyType {
    Direct,
    Reject,
    RejectDrop,
    Pass,
    Compatible,
    Shadowsocks,
    ShadowsocksR,
    Snell,
    Socks5,
    Http,
    Vmess,
    Vless,
    Trojan,
    Hysteria,
    Hysteria2,
    WireGuard,
    Tuic,
    Ssh,
    Selector,
    Fallback,
    URLTest,
    LoadBalance,
    Relay,
    Smart,
    Unknown,
}

impl ProxyType {
    /// True for the kinds of group among whose members a user chooses or
    /// the daemon chooses for them.
    pub open spec fn is_route(self) -> bool {
        self == ProxyType::Selector || self == ProxyType::Smart || self == ProxyType::URLTest
            || self == ProxyType::LoadBalance
    }

    /// True for the kinds whose delay can be measured: all but the built-in
    /// targets.
    pub open spec fn is_testable(self) -> bool {
        !(self == ProxyType::Direct || self == ProxyType::Reject || self == ProxyType::RejectDrop
            || self == ProxyType::Compatible || self == ProxyType::Pass)
    }

    /// Whether a user or the daemon chooses among the members.
    pub fn routes(&self) -> (yes: bool)
        ensures
            yes == self.is_route(),
    {
        match self {
            ProxyType::Selector | ProxyType::Smart | ProxyType::URLTest | ProxyType::LoadBalance => true,
            _ => false,
        }
    }

    /// Whether the delay of such a proxy can be measured.
    pub fn testable(&self) -> (yes: bool)
        ensures
            yes == self.is_testable(),
    {
        match self {
            ProxyType::Direct
            | ProxyType::Reject
            | ProxyType::RejectDrop
            | ProxyType::Compatible
            | ProxyType::Pass => false,
            _ => true,
        }
    }
}

/// One measurement of a proxy's delay.
#[derive(Debug, Clone)]
pub struct DelayHistory {
    pub time: String,
    pub delay: u32,
    pub mean_delay: Option<u32>,
}

/// A proxy or a group of proxies.
#[derive(Debug, Clone)]
pub struct Proxy {
    pub proxy_type: ProxyType,
    pub name: String,
    /// The member that a group routes through.
    pub now: Option<String>,
    /// The members of a group.
    pub all: Option<Vec<String>>,
    pub history: Option<Vec<DelayHistory>>,
    pub udp: Option<bool>,
}

impl Default for Proxy {
    fn default() -> (proxy: Proxy)
        ensures
            proxy.proxy_type == ProxyType::Direct,
            proxy.name@.len() == 0,
            proxy.now is None,
            proxy.all is None,
            proxy.history is None,
            proxy.udp is None,
    {
        Proxy {
            proxy_type: ProxyType::Direct,
            name: String::new(),
            now: None,
            all: None,
            history: None,
            udp: None,
        }
    }
}

/// The proxies of the daemon, each under its name.
#[derive(Debug, Clone)]
pub struct ProxiesResponse {
    pub proxies: Vec<(String, Proxy)>,
}

/// A routing rule.
#[derive(Debug, Clone)]
pub struct Rule {
    pub rule_type: String,
    pub payload: String,
    pub proxy: String,
}

/// The routing rules of the daemon.
#[derive(Debug, Clone)]
pub struct RulesResponse {
    pub rules: Vec<Rule>,
}

/// The traffic allowance of a subscription.
#[derive(Debug, Clone)]
pub struct SubscriptionInfo {
    pub upload: u64,
    pub download: u64,
    pub total: u64,
    pub expire: u64,
}

/// A provider of proxies.
#[derive(Debug, Clone)]
pub struct Provider {
    pub name: String,
    pub provider_type: String,
    pub vehicle_type: String,
    pub updated_at: Option<String>,
    pub proxies: Vec<Proxy>,
    pub subscription_info: Option<SubscriptionInfo>,
}

/// The providers of the daemon, each under its name.
#[derive(Debug, Clone)]
pub struct ProvidersResponse {
    pub providers: Vec<(String, Provider)>,
}

/// The answer to a delay test.
#[derive(Debug, Clone)]
pub struct DelayResponse {
    pub delay: u32,
}

/// Where a connection comes from and goes to.
#[derive(Debug, Clone)]
pub struct ConnectionMetadata {
    pub network: String,
    pub conn_type: String,
    pub source_ip: String,
    pub destination_ip: String,
    pub source_port: String,
    pub destination_port: String,
    pub host: Option<String>,
    pub dns_mode: Option<String>,
    pub process_path: Option<String>,
}

/// An open connection.
#[derive(Debug, Clone)]
pub struct Connection {
    pub id: String,
    pub metadata: ConnectionMetadata,
    pub upload: u64,
    pub download: u64,
    pub start: String,
    pub chains: Vec<String>,
    pub rule: String,
    pub rule_payload: Option<String>,
}

/// The open connections and the traffic so far.
#[derive(Debug, Clone)]
pub struct ConnectionsResponse {
    pub download_total: u64,
    pub upload_total: u64,
    pub connections: Vec<Connection>,
}

/// A line of the daemon's log.
#[derive(Debug, Clone)]
pub struct LogEntry {
    pub timestamp: String,
    pub level: String,
    pub message: String,
}

/// Whether the log stream is open.
#[derive(Debug, Clone)]
pub enum LogStreamStatus {
    Connected,
    Disconnected(String),
}

/// What the log stream delivers.
#[derive(Debug, Clone)]
pub enum LogStreamEvent {
    Entry(LogEntry),
    Status(LogStreamStatus),
}

} // verus!
