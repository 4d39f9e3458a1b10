//! The settings that are in force.
use vstd::prelude::*;
use crate::config::defaults::{
    default_time_server_names, default_time_servers, DEFAULT_TIME_ENABLE,
    DEFAULT_TIME_SAMPLES_PER_SERVER, DEFAULT_TIME_STEP_THRESHOLD_MS,
    DEFAULT_TIME_SYNC_INTERVAL_SECS, DEFAULT_TIME_TIMEOUT_SECS,
};
use crate::config::paths::{join_path, path_join};
use crate::config::settings::{
    LandscapeConfig, LandscapeDnsConfig, LandscapeGatewayConfig, LandscapeMetricConfig,
    LandscapeTimeConfig, LandscapeUIConfig, MetricMode,
};
use crate::hostname::config::HostnameRegistryConfig;
use crate::net::IpAddr;
use crate::text::{decimal, decimal_text, flag_str, flag_text, joined, texts};

verus! {

/// The value that is said, else the one that stands.
pub open spec fn said_or<T>(said: Option<T>, standing: T) -> T {
    match said {
        Some(v) => v,
        None => standing,
    }
}

/// The text that is said, else the one that stands.
pub open spec fn said_text_or(said: Option<String>, standing: Seq<char>) -> Seq<char> {
    match said {
        Some(v) => v@,
        None => standing,
    }
}

/// The texts that are said, else those that stand.
pub open spec fn said_texts_or(said: Option<Vec<String>>, standing: Seq<Seq<char>>) -> Seq<
    Seq<char>,
> {
    match said {
        Some(v) => texts(v@),
        None => standing,
    }
}

/// A copy of a list of strings.
pub(crate) fn copy_texts(v: &Vec<String>) -> (r: Vec<String>)
    ensures
        texts(r@) == texts(v@),
{
    let r = v.clone();
    assert(texts(r@) =~= texts(v@));
    r
}

#[derive(Debug)]
pub struct AuthRuntimeConfig {
    pub admin_user: String,
    pub admin_pass: String,
}

#[derive(Debug)]
pub struct LogRuntimeConfig {
    pub log_path: String,
    pub debug: bool,
    pub log_output_in_terminal: bool,
    pub max_log_files: usize,
    pub log_filter: Vec<String>,
}

#[derive(Debug)]
pub struct WebRuntimeConfig {
    pub web_root: String,
    pub port: u16,
    pub https_port: u16,
    pub address: IpAddr,
}

#[derive(Debug)]
pub struct StoreRuntimeConfig {
    pub database_path: String,
}

#[derive(Debug, Clone, Copy)]
pub struct MetricRuntimeConfig {
    pub mode: MetricMode,
    pub connect_second_window_minutes: u64,
    pub connect_1m_retention_days: u64,
    pub connect_1h_retention_days: u64,
    pub connect_1d_retention_days: u64,
    pub dns_retention_days: u64,
    pub write_batch_size: usize,
    pub write_flush_interval_secs: u64,
    pub db_max_memory_mb: usize,
    pub db_max_threads: usize,
    pub cleanup_interval_secs: u64,
    pub cleanup_time_budget_ms: u64,
    pub cleanup_slice_window_secs: u64,
}

#[derive(Debug, PartialEq, Eq)]
pub struct DnsRuntimeConfig {
    pub cache_capacity: u32,
    pub cache_ttl: u32,
    pub negative_cache_ttl: u32,
    pub doh_listen_port: u16,
    pub doh_http_endpoint: String,
}

#[derive(Debug)]
pub struct TimeRuntimeConfig {
    pub enabled: bool,
    pub servers: Vec<String>,
    pub sync_interval_secs: u64,
    pub timeout_secs: u64,
    pub step_threshold_ms: u64,
    pub samples_per_server: u8,
}

/// The gateway's settings, as the text of their table. The gateway reads the
/// entries.
#[derive(Debug)]
pub struct GatewayRuntimeConfig {
    pub table: String,
}

impl GatewayRuntimeConfig {
    pub fn from_file_config(config: &LandscapeGatewayConfig) -> (r: Self)
        ensures
            r.table@ == config.table@,
    {
        GatewayRuntimeConfig { table: config.table.clone() }
    }
}

/// The settings that are in force, and the file that they came from.
#[derive(Debug)]
pub struct RuntimeConfig {
    pub home_path: String,
    pub file_config: LandscapeConfig,
    pub auth: AuthRuntimeConfig,
    pub log: LogRuntimeConfig,
    pub web: WebRuntimeConfig,
    pub store: StoreRuntimeConfig,
    pub metric: MetricRuntimeConfig,
    pub dns: DnsRuntimeConfig,
    pub hostname_registry: HostnameRegistryConfig,
    pub ui: LandscapeUIConfig,
    pub time: TimeRuntimeConfig,
    pub gateway: GatewayRuntimeConfig,
    pub auto: bool,
}

impl Default for TimeRuntimeConfig {
    fn default() -> (r: Self)
        ensures
            r.enabled == DEFAULT_TIME_ENABLE,
            texts(r.servers@) == default_time_server_names(),
            r.sync_interval_secs == DEFAULT_TIME_SYNC_INTERVAL_SECS,
            r.timeout_secs == DEFAULT_TIME_TIMEOUT_SECS,
            r.step_threshold_ms == DEFAULT_TIME_STEP_THRESHOLD_MS,
            r.samples_per_server == DEFAULT_TIME_SAMPLES_PER_SERVER,
    {
        TimeRuntimeConfig {
            enabled: DEFAULT_TIME_ENABLE,
            servers: default_time_servers(),
            sync_interval_secs: DEFAULT_TIME_SYNC_INTERVAL_SECS,
            timeout_secs: DEFAULT_TIME_TIMEOUT_SECS,
            step_threshold_ms: DEFAULT_TIME_STEP_THRESHOLD_MS,
            samples_per_server: DEFAULT_TIME_SAMPLES_PER_SERVER,
        }
    }
}

impl MetricRuntimeConfig {
    /// The settings with what the file says in place of what stands.
    pub open spec fn updated(self, config: LandscapeMetricConfig) -> Self {
        MetricRuntimeConfig {
            mode: said_or(config.mode, self.mode),
            connect_second_window_minutes: said_or(
                config.connect_second_window_minutes,
                self.connect_second_window_minutes,
            ),
            connect_1m_retention_days: said_or(
                config.connect_1m_retention_days,
                self.connect_1m_retention_days,
            ),
            connect_1h_retention_days: said_or(
                config.connect_1h_retention_days,
                self.connect_1h_retention_days,
            ),
            connect_1d_retention_days: said_or(
                config.connect_1d_retention_days,
                self.connect_1d_retention_days,
            ),
            dns_retention_days: said_or(config.dns_retention_days, self.dns_retention_days),
            write_batch_size: said_or(config.write_batch_size, self.write_batch_size),
            write_flush_interval_secs: said_or(
                config.write_flush_interval_secs,
                self.write_flush_interval_secs,
            ),
            db_max_memory_mb: said_or(config.db_max_memory_mb, self.db_max_memory_mb),
            db_max_threads: said_or(config.db_max_threads, self.db_max_threads),
            cleanup_interval_secs: said_or(
                config.cleanup_interval_secs,
                self.cleanup_interval_secs,
            ),
            cleanup_time_budget_ms: said_or(
                config.cleanup_time_budget_ms,
                self.cleanup_time_budget_ms,
            ),
            cleanup_slice_window_secs: said_or(
                config.cleanup_slice_window_secs,
                self.cleanup_slice_window_secs,
            ),
        }
    }

    pub fn update_from_file_config(&mut self, config: &LandscapeMetricConfig)
        ensures
            *final(self) == old(self).updated(*config),
    {
        if let Some(v) = config.mode {
            self.mode = v;
        }
        if let Some(v) = config.connect_second_window_minutes {
            self.connect_second_window_minutes = v;
        }
        if let Some(v) = config.connect_1m_retention_days {
            self.connect_1m_retention_days = v;
        }
        if let Some(v) = config.connect_1h_retention_days {
            self.connect_1h_retention_days = v;
        }
        if let Some(v) = config.connect_1d_retention_days {
            self.connect_1d_retention_days = v;
        }
        if let Some(v) = config.dns_retention_days {
            self.dns_retention_days = v;
        }
        if let Some(v) = config.write_batch_size {
            self.write_batch_size = v;
        }
        if let Some(v) = config.write_flush_interval_secs {
            self.write_flush_interval_secs = v;
        }
        if let Some(v) = config.db_max_memory_mb {
            self.db_max_memory_mb = v;
        }
        if let Some(v) = config.db_max_threads {
            self.db_max_threads = v;
        }
        if let Some(v) = config.cleanup_interval_secs {
            self.cleanup_interval_secs = v;
        }
        if let Some(v) = config.cleanup_time_budget_ms {
            self.cleanup_time_budget_ms = v;
        }
        if let Some(v) = config.cleanup_slice_window_secs {
            self.cleanup_slice_window_secs = v;
        }
    }
}

impl DnsRuntimeConfig {
    pub fn update_from_file_config(&mut self, config: &LandscapeDnsConfig)
        ensures
            final(self).cache_capacity == said_or(config.cache_capacity, old(self).cache_capacity),
            final(self).cache_ttl == said_or(config.cache_ttl, old(self).cache_ttl),
            final(self).negative_cache_ttl == said_or(
                config.negative_cache_ttl,
                old(self).negative_cache_ttl,
            ),
            final(self).doh_listen_port == said_or(
                config.doh_listen_port,
                old(self).doh_listen_port,
            ),
            final(self).doh_http_endpoint@ == said_text_or(
                config.doh_http_endpoint,
                old(self).doh_http_endpoint@,
            ),
    {
        if let Some(v) = config.cache_capacity {
            self.cache_capacity = v;
        }
        if let Some(v) = config.cache_ttl {
            self.cache_ttl = v;
        }
        if let Some(v) = config.negative_cache_ttl {
            self.negative_cache_ttl = v;
        }
        if let Some(v) = config.doh_listen_port {
            self.doh_listen_port = v;
        }
        if let Some(v) = &config.doh_http_endpoint {
            self.doh_http_endpoint = v.clone();
        }
    }
}

impl TimeRuntimeConfig {
    pub fn update_from_file_config(&mut self, config: &LandscapeTimeConfig)
        ensures
            final(self).enabled == said_or(config.enabled, old(self).enabled),
            texts(final(self).servers@) == said_texts_or(config.servers, texts(old(self).servers@)),
            final(self).sync_interval_secs == said_or(
                config.sync_interval_secs,
                old(self).sync_interval_secs,
            ),
            final(self).timeout_secs == said_or(config.timeout_secs, old(self).timeout_secs),
            final(self).step_threshold_ms == said_or(
                config.step_threshold_ms,
                old(self).step_threshold_ms,
            ),
            final(self).samples_per_server == said_or(
                config.samples_per_server,
                old(self).samples_per_server,
            ),
    {
        if let Some(v) = config.enabled {
            self.enabled = v;
        }
        if let Some(v) = &config.servers {
            self.servers = copy_texts(v);
        }
        if let Some(v) = config.sync_interval_secs {
            self.sync_interval_secs = v;
        }
        if let Some(v) = config.timeout_secs {
            self.timeout_secs = v;
        }
        if let Some(v) = config.step_threshold_ms {
            self.step_threshold_ms = v;
        }
        if let Some(v) = config.samples_per_server {
            self.samples_per_server = v;
        }
    }
}

/// What is to be done about the database file before it is opened.
#[derive(Debug, Clone, Copy, PartialEq, Eq, Structural)]
pub enum DbFileAction {
    /// It is there.
    Keep,
    /// It is not there: make it, and the directory that it lies in.
    Create,
    /// A directory is in its place.
    Refuse,
}

impl StoreRuntimeConfig {
    /// Where the database is where nothing else is said.
    pub open spec fn default_url(home_path: Seq<char>) -> Seq<char> {
        "sqlite://"@ + path_join(home_path, "landscape_db.sqlite"@) + "?mode=rwc"@
    }

    pub fn create_default_db_store(home_path: &str) -> (r: String)
        ensures
            r@ == Self::default_url(home_path@),
    {
        let path = join_path(home_path, "landscape_db.sqlite");
        "sqlite://".to_owned().concat(&path).concat("?mode=rwc")
    }

    pub fn db_file_action(found: bool, is_dir: bool) -> (r: DbFileAction)
        ensures
            r == (if !found {
                DbFileAction::Create
            } else if is_dir {
                DbFileAction::Refuse
            } else {
                DbFileAction::Keep
            }),
    {
        if found {
            if is_dir {
                DbFileAction::Refuse
            } else {
                DbFileAction::Keep
            }
        } else {
            DbFileAction::Create
        }
    }
}

/// An address and a port; an IPv6 address stands in brackets.
pub open spec fn socket_text(address: IpAddr, port: u16) -> Seq<char> {
    match address {
        IpAddr::V4(ip) => ip.text() + ":"@ + decimal(port as nat),
        IpAddr::V6(ip) => "["@ + ip.text() + "]:"@ + decimal(port as nat),
    }
}

fn to_socket_text(address: IpAddr, port: u16) -> (r: String)
    ensures
        r@ == socket_text(address, port),
{
    match address {
        IpAddr::V4(ip) => ip.to_text().concat(":").concat(&decimal_text(port as u128)),
        IpAddr::V6(ip) => "[".to_owned().concat(&ip.to_text()).concat("]:").concat(
            &decimal_text(port as u128),
        ),
    }
}

/// The strings joined, with `sep` between neighbours.
pub(crate) fn join_texts(v: &Vec<String>, sep: &str) -> (r: String)
    ensures
        r@ == joined(texts(v@), sep@),
{
    let mut r = String::new();
    let n: usize = v.len();
    let ghost all = texts(v@);
    assert(all.take(0) =~= Seq::empty());
    assert(r@ =~= joined(all.take(0), sep@));
    for i in 0..n
        invariant
            n == v@.len(),
            all == texts(v@),
            r@ == joined(all.take(i as int), sep@),
    {
        assert(all.take(i + 1).drop_last() =~= all.take(i as int));
        if i == 0 {
            r = v[i].clone();
        } else {
            r = r.concat(sep).concat(&v[i]);
        }
    }
    assert(all.take(n as int) =~= all);
    r
}

impl RuntimeConfig {
    /// The part of the summary on the program and its doors.
    pub open spec fn summary_head(self) -> Seq<char> {
        "\nLandscape Home Path: "@ + self.home_path@ + "\n\n[Auth]\nAdmin User: "@
            + self.auth.admin_user@ + "\nAdmin Pass: "@ + self.auth.admin_pass@
            + "\n\n[Log]\nLog Path: "@ + self.log.log_path@ + "\nDebug: "@ + flag_text(
            self.log.debug,
        ) + "\nLog Output In Terminal: "@ + flag_text(self.log.log_output_in_terminal)
            + "\nMax Log Files: "@ + decimal(self.log.max_log_files as nat)
            + "\n\n[Web]\nWeb Root Path: "@ + self.web.web_root@ + "\nListen HTTP on: http://"@
            + socket_text(self.web.address, self.web.port) + "\nListen HTTPS on: https://"@
            + socket_text(self.web.address, self.web.https_port)
            + "\n\n[Store]\nDatabase Connect: "@ + self.store.database_path@
    }

    /// The part of the summary on metrics.
    pub open spec fn summary_metric(self) -> Seq<char> {
        let m = self.metric;
        "\n\n[Metric]\nMode: "@ + m.mode.name() + "\nConnect Second Window: "@ + decimal(
            m.connect_second_window_minutes as nat,
        ) + " mins\nConnect 1m Retention: "@ + decimal(m.connect_1m_retention_days as nat)
            + " days\nConnect 1h Retention: "@ + decimal(m.connect_1h_retention_days as nat)
            + " days\nConnect 1d Retention: "@ + decimal(m.connect_1d_retention_days as nat)
            + " days\nDNS Retention: "@ + decimal(m.dns_retention_days as nat)
            + " days\nWrite Batch Size: "@ + decimal(m.write_batch_size as nat)
            + "\nWrite Flush Interval: "@ + decimal(m.write_flush_interval_secs as nat)
            + "s\nDB Max Memory: "@ + decimal(m.db_max_memory_mb as nat) + "MB\nDB Max Threads: "@
            + decimal(m.db_max_threads as nat) + "\nCleanup Interval: "@ + decimal(
            m.cleanup_interval_secs as nat,
        ) + "s\nCleanup Budget: "@ + decimal(m.cleanup_time_budget_ms as nat)
            + "ms\nCleanup Slice Window: "@ + decimal(m.cleanup_slice_window_secs as nat)
    }

    /// The part of the summary on the clock.
    pub open spec fn summary_time(self) -> Seq<char> {
        "s\n\n[Time]\nEnabled: "@ + flag_text(self.time.enabled) + "\nNTP Servers: "@ + joined(
            texts(self.time.servers@),
            ", "@,
        ) + "\nSync Interval: "@ + decimal(self.time.sync_interval_secs as nat) + "s\nTimeout: "@
            + decimal(self.time.timeout_secs as nat) + "s\nStep Threshold: "@ + decimal(
            self.time.step_threshold_ms as nat,
        ) + "ms\nSamples Per Server: "@ + decimal(self.time.samples_per_server as nat) + "\n"@
    }

    fn to_summary_head(&self) -> (r: String)
        ensures
            r@ == self.summary_head(),
    {
        "\nLandscape Home Path: ".to_owned().concat(&self.home_path).concat(
            "\n\n[Auth]\nAdmin User: ",
        ).concat(&self.auth.admin_user).concat("\nAdmin Pass: ").concat(
            &self.auth.admin_pass,
        ).concat("\n\n[Log]\nLog Path: ").concat(&self.log.log_path).concat("\nDebug: ").concat(
            flag_str(self.log.debug),
        ).concat("\nLog Output In Terminal: ").concat(
            flag_str(self.log.log_output_in_terminal),
        ).concat("\nMax Log Files: ").concat(
            &decimal_text(self.log.max_log_files as u128),
        ).concat("\n\n[Web]\nWeb Root Path: ").concat(&self.web.web_root).concat(
            "\nListen HTTP on: http://",
        ).concat(&to_socket_text(self.web.address, self.web.port)).concat(
            "\nListen HTTPS on: https://",
        ).concat(&to_socket_text(self.web.address, self.web.https_port)).concat(
            "\n\n[Store]\nDatabase Connect: ",
        ).concat(&self.store.database_path)
    }

    fn to_summary_metric(&self) -> (r: String)
        ensures
            r@ == self.summary_metric(),
    {
        let m = &self.metric;
        "\n\n[Metric]\nMode: ".to_owned().concat(m.mode.to_name()).concat(
            "\nConnect Second Window: ",
        ).concat(&decimal_text(m.connect_second_window_minutes as u128)).concat(
            " mins\nConnect 1m Retention: ",
        ).concat(&decimal_text(m.connect_1m_retention_days as u128)).concat(
            " days\nConnect 1h Retention: ",
        ).concat(&decimal_text(m.connect_1h_retention_days as u128)).concat(
            " days\nConnect 1d Retention: ",
        ).concat(&decimal_text(m.connect_1d_retention_days as u128)).concat(
            " days\nDNS Retention: ",
        ).concat(&decimal_text(m.dns_retention_days as u128)).concat(
            " days\nWrite Batch Size: ",
        ).concat(&decimal_text(m.write_batch_size as u128)).concat(
            "\nWrite Flush Interval: ",
        ).concat(&decimal_text(m.write_flush_interval_secs as u128)).concat(
            "s\nDB Max Memory: ",
        ).concat(&decimal_text(m.db_max_memory_mb as u128)).concat("MB\nDB Max Threads: ").concat(
            &decimal_text(m.db_max_threads as u128),
        ).concat("\nCleanup Interval: ").concat(
            &decimal_text(m.cleanup_interval_secs as u128),
        ).concat("s\nCleanup Budget: ").concat(
            &decimal_text(m.cleanup_time_budget_ms as u128),
        ).concat("ms\nCleanup Slice Window: ").concat(
            &decimal_text(m.cleanup_slice_window_secs as u128),
        )
    }

    fn to_summary_time(&self) -> (r: String)
        ensures
            r@ == self.summary_time(),
    {
        "s\n\n[Time]\nEnabled: ".to_owned().concat(flag_str(self.time.enabled)).concat(
            "\nNTP Servers: ",
        ).concat(&join_texts(&self.time.servers, ", ")).concat("\nSync Interval: ").concat(
            &decimal_text(self.time.sync_interval_secs as u128),
        ).concat("s\nTimeout: ").concat(&decimal_text(self.time.timeout_secs as u128)).concat(
            "s\nStep Threshold: ",
        ).concat(&decimal_text(self.time.step_threshold_ms as u128)).concat(
            "ms\nSamples Per Server: ",
        ).concat(&decimal_text(self.time.samples_per_server as u128)).concat("\n")
    }

    pub fn to_string_summary(&self) -> (r: String)
        ensures
            r@ == self.summary_head() + self.summary_metric() + self.summary_time(),
    {
        self.to_summary_head().concat(&self.to_summary_metric()).concat(&self.to_summary_time())
    }
}

/// What the file leaves out stays as it is.
pub proof fn law_silent_update_changes_nothing(
    m: MetricRuntimeConfig,
    config: LandscapeMetricConfig,
)
    requires
        config.silent(),
    ensures
        m.updated(config) == m,
{
}

/// Saying the same thing twice is the same as once.
pub proof fn law_update_idempotent(m: MetricRuntimeConfig, config: LandscapeMetricConfig)
    ensures
        m.updated(config).updated(config) == m.updated(config),
{
}

/// Each metric setting that the file says is taken over, and each that it does
/// not say stays.
pub proof fn law_each_metric_setting(m: MetricRuntimeConfig, config: LandscapeMetricConfig)
    ensures
        config.mode matches Some(v) ==> m.updated(config).mode == v,
        config.mode is None ==> m.updated(config).mode == m.mode,
        config.connect_second_window_minutes matches Some(v) ==> m.updated(config).connect_second_window_minutes == v,
        config.connect_second_window_minutes is None ==> m.updated(config).connect_second_window_minutes == m.connect_second_window_minutes,
        config.connect_1m_retention_days matches Some(v) ==> m.updated(config).connect_1m_retention_days == v,
        config.connect_1m_retention_days is None ==> m.updated(config).connect_1m_retention_days == m.connect_1m_retention_days,
        config.connect_1h_retention_days matches Some(v) ==> m.updated(config).connect_1h_retention_days == v,
        config.connect_1h_retention_days is None ==> m.updated(config).connect_1h_retention_days == m.connect_1h_retention_days,
        config.connect_1d_retention_days matches Some(v) ==> m.updated(config).connect_1d_retention_days == v,
        config.connect_1d_retention_days is None ==> m.updated(config).connect_1d_retention_days == m.connect_1d_retention_days,
        config.dns_retention_days matches Some(v) ==> m.updated(config).dns_retention_days == v,
        config.dns_retention_days is None ==> m.updated(config).dns_retention_days == m.dns_retention_days,
        config.write_batch_size matches Some(v) ==> m.updated(config).write_batch_size == v,
        config.write_batch_size is None ==> m.updated(config).write_batch_size == m.write_batch_size,
        config.write_flush_interval_secs matches Some(v) ==> m.updated(config).write_flush_interval_secs == v,
        config.write_flush_interval_secs is None ==> m.updated(config).write_flush_interval_secs == m.write_flush_interval_secs,
        config.db_max_memory_mb matches Some(v) ==> m.updated(config).db_max_memory_mb == v,
        config.db_max_memory_mb is None ==> m.updated(config).db_max_memory_mb == m.db_max_memory_mb,
        config.db_max_threads matches Some(v) ==> m.updated(config).db_max_threads == v,
        config.db_max_threads is None ==> m.updated(config).db_max_threads == m.db_max_threads,
        config.cleanup_interval_secs matches Some(v) ==> m.updated(config).cleanup_interval_secs == v,
        config.cleanup_interval_secs is None ==> m.updated(config).cleanup_interval_secs == m.cleanup_interval_secs,
        config.cleanup_time_budget_ms matches Some(v) ==> m.updated(config).cleanup_time_budget_ms == v,
        config.cleanup_time_budget_ms is None ==> m.updated(config).cleanup_time_budget_ms == m.cleanup_time_budget_ms,
        config.cleanup_slice_window_secs matches Some(v) ==> m.updated(config).cleanup_slice_window_secs == v,
        config.cleanup_slice_window_secs is None ==> m.updated(config).cleanup_slice_window_secs == m.cleanup_slice_window_secs,
{
}

/// A socket is an address, a colon and a port in decimal, and an IPv6 address
/// stands in brackets.
pub proof fn law_socket_text(v4: crate::net::Ipv4Addr, v6: crate::net::Ipv6Addr, port: u16)
    ensures
        socket_text(IpAddr::V4(v4), port) == v4.text().push(':') + decimal(port as nat),
        socket_text(IpAddr::V6(v6), port) == (seq!['['] + v6.text()).push(']').push(':') + decimal(
            port as nat,
        ),
{
    reveal_strlit(":");
    reveal_strlit("[");
    reveal_strlit("]:");
    assert(socket_text(IpAddr::V4(v4), port) =~= v4.text().push(':') + decimal(port as nat));
    assert(socket_text(IpAddr::V6(v6), port) =~= (seq!['['] + v6.text()).push(']').push(':')
        + decimal(port as nat));
}

} // verus!
