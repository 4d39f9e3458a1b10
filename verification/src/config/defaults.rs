//! Fixed names and default values.
use vstd::prelude::*;
use crate::config::settings::MetricMode;
use crate::text::texts;

verus! {

pub const DEFAULT_METRIC_CONNECT_1M_RETENTION_DAYS: u64 = 1;

pub const DEFAULT_METRIC_CONNECT_1H_RETENTION_DAYS: u64 = 7;

pub const DEFAULT_METRIC_CONNECT_1D_RETENTION_DAYS: u64 = 30;

pub const DEFAULT_DNS_METRIC_RETENTION_DAYS: u64 = 7;

pub const DEFAULT_METRIC_CONNECT_SECOND_WINDOW_MINUTES: u64 = 5;

pub const DEFAULT_METRIC_WRITE_BATCH_SIZE: usize = 20_000;

pub const DEFAULT_METRIC_WRITE_FLUSH_INTERVAL_SECS: u64 = 30;

pub const DEFAULT_METRIC_DB_MAX_MEMORY_MB: usize = 256;

pub const DEFAULT_METRIC_DB_MAX_THREADS: usize = 4;

pub const DEFAULT_METRIC_CLEANUP_TIME_BUDGET_MS: u64 = 2_000;

pub const DEFAULT_METRIC_CLEANUP_SLICE_WINDOW_SECS: u64 = 300;

pub const DEFAULT_METRIC_CLEANUP_INTERVAL_SECS_DEBUG: u64 = 60;

pub const DEFAULT_METRIC_CLEANUP_INTERVAL_SECS: u64 = 300;

pub const DEFAULT_DNS_CACHE_CAPACITY: u32 = 4096;

pub const DEFAULT_DNS_CACHE_TTL: u32 = 86_400;

pub const DEFAULT_DNS_NEGATIVE_CACHE_TTL: u32 = 120;

pub const DEFAULT_DNS_DOH_LISTEN_PORT: u16 = 6053;

pub const DEFAULT_TIME_ENABLE: bool = false;

pub const DEFAULT_TIME_SYNC_INTERVAL_SECS: u64 = 3600;

pub const DEFAULT_TIME_TIMEOUT_SECS: u64 = 3;

pub const DEFAULT_TIME_STEP_THRESHOLD_MS: u64 = 500;

pub const DEFAULT_TIME_SAMPLES_PER_SERVER: u8 = 3;

pub const DEFAULT_MAX_LOG_FILES: usize = 7;

pub const DEFAULT_HTTP_PORT: u16 = 6300;

pub const DEFAULT_HTTPS_PORT: u16 = 6443;

/// How metrics are kept where nothing else is said.
pub fn default_metric_mode() -> (r: MetricMode)
    ensures
        r is Duckdb,
{
    MetricMode::Duckdb
}

/// The servers that the time is taken from where nothing else is said.
pub open spec fn default_time_server_names() -> Seq<Seq<char>> {
    seq!["ntp.aliyun.com:123"@, "time.cloudflare.com:123"@, "pool.ntp.org:123"@]
}

pub fn default_time_servers() -> (r: Vec<String>)
    ensures
        texts(r@) == default_time_server_names(),
{
    let mut servers: Vec<String> = Vec::new();
    servers.push("ntp.aliyun.com:123".to_owned());
    servers.push("time.cloudflare.com:123".to_owned());
    servers.push("pool.ntp.org:123".to_owned());
    assert(texts(servers@) =~= default_time_server_names());
    servers
}

/// How often metrics are cleaned up where nothing else is said: more often in
/// a debug build.
pub open spec fn default_cleanup_interval(debug_build: bool) -> u64 {
    if debug_build {
        DEFAULT_METRIC_CLEANUP_INTERVAL_SECS_DEBUG
    } else {
        DEFAULT_METRIC_CLEANUP_INTERVAL_SECS
    }
}

} // verus!
