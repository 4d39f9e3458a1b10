//! What the configuration file and the command line can say. Whatever is left
//! out is `None`.
use vstd::prelude::*;
use crate::net::IpAddr;

verus! {

/// How metrics are kept.
#[derive(Debug, Clone, Copy, PartialEq, Eq, Structural)]
pub enum MetricMode {
    Memory,
    Duckdb,
}

impl MetricMode {
    pub open spec fn name(self) -> Seq<char> {
        match self {
            MetricMode::Memory => "Memory"@,
            MetricMode::Duckdb => "Duckdb"@,
        }
    }

    pub fn to_name(&self) -> (r: &'static str)
        ensures
            r@ == self.name(),
    {
        match self {
            MetricMode::Memory => "Memory",
            MetricMode::Duckdb => "Duckdb",
        }
    }
}

#[derive(Debug)]
pub struct LandscapeAuthConfig {
    pub admin_user: Option<String>,
    pub admin_pass: Option<String>,
}

#[derive(Debug)]
pub struct LandscapeLogConfig {
    pub log_path: Option<String>,
    pub debug: Option<bool>,
    pub log_output_in_terminal: Option<bool>,
    pub max_log_files: Option<usize>,
}

#[derive(Debug)]
pub struct LandscapeWebConfig {
    pub web_root: Option<String>,
    pub port: Option<u16>,
    pub https_port: Option<u16>,
    pub address: Option<IpAddr>,
}

#[derive(Debug)]
pub struct LandscapeStoreConfig {
    pub database_path: Option<String>,
}

#[derive(Debug, Clone, Copy)]
pub struct LandscapeMetricConfig {
    pub mode: Option<MetricMode>,
    pub connect_second_window_minutes: Option<u64>,
    pub connect_1m_retention_days: Option<u64>,
    pub connect_1h_retention_days: Option<u64>,
    pub connect_1d_retention_days: Option<u64>,
    pub dns_retention_days: Option<u64>,
    pub write_batch_size: Option<usize>,
    pub write_flush_interval_secs: Option<u64>,
    pub db_max_memory_mb: Option<usize>,
    pub db_max_threads: Option<usize>,
    pub cleanup_interval_secs: Option<u64>,
    pub cleanup_time_budget_ms: Option<u64>,
    pub cleanup_slice_window_secs: Option<u64>,
}

#[derive(Debug)]
pub struct LandscapeDnsConfig {
    pub cache_capacity: Option<u32>,
    pub cache_ttl: Option<u32>,
    pub negative_cache_ttl: Option<u32>,
    pub doh_listen_port: Option<u16>,
    pub doh_http_endpoint: Option<String>,
}

#[derive(Debug)]
pub struct LandscapeHostnameRegistryConfig {
    pub lan_suffix: Option<String>,
}

#[derive(Debug)]
pub struct LandscapeTimeConfig {
    pub enabled: Option<bool>,
    pub servers: Option<Vec<String>>,
    pub sync_interval_secs: Option<u64>,
    pub timeout_secs: Option<u64>,
    pub step_threshold_ms: Option<u64>,
    pub samples_per_server: Option<u8>,
}

/// The file's table for the user interface, as text. The user interface reads
/// the entries.
#[derive(Debug)]
pub struct LandscapeUIConfig {
    pub table: String,
}

/// The file's table for the gateway, as text.
#[derive(Debug)]
pub struct LandscapeGatewayConfig {
    pub table: String,
}

/// The configuration file.
#[derive(Debug)]
pub struct LandscapeConfig {
    pub auth: LandscapeAuthConfig,
    pub log: LandscapeLogConfig,
    pub web: LandscapeWebConfig,
    pub store: LandscapeStoreConfig,
    pub metric: LandscapeMetricConfig,
    pub dns: LandscapeDnsConfig,
    pub hostname_registry: LandscapeHostnameRegistryConfig,
    pub ui: LandscapeUIConfig,
    pub time: LandscapeTimeConfig,
    pub gateway: LandscapeGatewayConfig,
}

/// The command line.
#[derive(Debug)]
pub struct WebCommArgs {
    pub config_dir: Option<String>,
    pub admin_user: Option<String>,
    pub admin_pass: Option<String>,
    pub log_path: Option<String>,
    pub debug: Option<bool>,
    pub log_output_in_terminal: Option<bool>,
    pub max_log_files: Option<usize>,
    pub log_filter: Vec<String>,
    pub web: Option<String>,
    pub port: Option<u16>,
    pub https_port: Option<u16>,
    pub address: Option<IpAddr>,
    pub database_path: Option<String>,
    pub auto: bool,
}

impl LandscapeMetricConfig {
    /// Nothing said.
    pub open spec fn silent(self) -> bool {
        &&& self.mode is None
        &&& self.connect_second_window_minutes is None
        &&& self.connect_1m_retention_days is None
        &&& self.connect_1h_retention_days is None
        &&& self.connect_1d_retention_days is None
        &&& self.dns_retention_days is None
        &&& self.write_batch_size is None
        &&& self.write_flush_interval_secs is None
        &&& self.db_max_memory_mb is None
        &&& self.db_max_threads is None
        &&& self.cleanup_interval_secs is None
        &&& self.cleanup_time_budget_ms is None
        &&& self.cleanup_slice_window_secs is None
    }
}

impl LandscapeConfig {
    /// Nothing said.
    pub open spec fn silent(self) -> bool {
        &&& self.auth.admin_user is None && self.auth.admin_pass is None
        &&& self.log.log_path is None && self.log.debug is None
            && self.log.log_output_in_terminal is None && self.log.max_log_files is None
        &&& self.web.web_root is None && self.web.port is None && self.web.https_port is None
            && self.web.address is None
        &&& self.store.database_path is None
        &&& self.metric.silent()
        &&& self.dns.cache_capacity is None && self.dns.cache_ttl is None
            && self.dns.negative_cache_ttl is None && self.dns.doh_listen_port is None
            && self.dns.doh_http_endpoint is None
        &&& self.hostname_registry.lan_suffix is None
        &&& self.ui.table@ == Seq::<char>::empty() && self.gateway.table@ == Seq::<char>::empty()
        &&& self.time.enabled is None && self.time.servers is None
            && self.time.sync_interval_secs is None && self.time.timeout_secs is None
            && self.time.step_threshold_ms is None && self.time.samples_per_server is None
    }
}

impl Default for LandscapeConfig {
    fn default() -> (r: Self)
        ensures
            r.silent(),
    {
        LandscapeConfig {
            auth: LandscapeAuthConfig { admin_user: None, admin_pass: None },
            log: LandscapeLogConfig {
                log_path: None,
                debug: None,
                log_output_in_terminal: None,
                max_log_files: None,
            },
            web: LandscapeWebConfig { web_root: None, port: None, https_port: None, address: None },
            store: LandscapeStoreConfig { database_path: None },
            metric: LandscapeMetricConfig {
                mode: None,
                connect_second_window_minutes: None,
                connect_1m_retention_days: None,
                connect_1h_retention_days: None,
                connect_1d_retention_days: None,
                dns_retention_days: None,
                write_batch_size: None,
                write_flush_interval_secs: None,
                db_max_memory_mb: None,
                db_max_threads: None,
                cleanup_interval_secs: None,
                cleanup_time_budget_ms: None,
                cleanup_slice_window_secs: None,
            },
            dns: LandscapeDnsConfig {
                cache_capacity: None,
                cache_ttl: None,
                negative_cache_ttl: None,
                doh_listen_port: None,
                doh_http_endpoint: None,
            },
            hostname_registry: LandscapeHostnameRegistryConfig { lan_suffix: None },
            ui: LandscapeUIConfig { table: String::new() },
            time: LandscapeTimeConfig {
                enabled: None,
                servers: None,
                sync_interval_secs: None,
                timeout_secs: None,
                step_threshold_ms: None,
                samples_per_server: None,
            },
            gateway: LandscapeGatewayConfig { table: String::new() },
        }
    }
}

impl Default for WebCommArgs {
    fn default() -> (r: Self)
        ensures
            r.config_dir is None && r.admin_user is None && r.admin_pass is None,
            r.log_path is None && r.debug is None && r.log_output_in_terminal is None,
            r.max_log_files is None && r.log_filter@.len() == 0,
            r.web is None && r.port is None && r.https_port is None && r.address is None,
            r.database_path is None && !r.auto,
    {
        WebCommArgs {
            config_dir: None,
            admin_user: None,
            admin_pass: None,
            log_path: None,
            debug: None,
            log_output_in_terminal: None,
            max_log_files: None,
            log_filter: Vec::new(),
            web: None,
            port: None,
            https_port: None,
            address: None,
            database_path: None,
            auto: false,
        }
    }
}

} // verus!
