//! From the command line and the configuration file to the settings in force:
//! the command line goes before the file, and the file before the defaults.
use vstd::prelude::*;
use crate::config::defaults::{
    default_cleanup_interval, default_metric_mode, default_time_server_names,
    default_time_servers, DEFAULT_DNS_CACHE_CAPACITY, DEFAULT_DNS_CACHE_TTL,
    DEFAULT_DNS_DOH_LISTEN_PORT, DEFAULT_DNS_METRIC_RETENTION_DAYS, DEFAULT_DNS_NEGATIVE_CACHE_TTL,
    DEFAULT_HTTPS_PORT, DEFAULT_HTTP_PORT, DEFAULT_MAX_LOG_FILES,
    DEFAULT_METRIC_CLEANUP_INTERVAL_SECS, DEFAULT_METRIC_CLEANUP_INTERVAL_SECS_DEBUG,
    DEFAULT_METRIC_CLEANUP_SLICE_WINDOW_SECS, DEFAULT_METRIC_CLEANUP_TIME_BUDGET_MS,
    DEFAULT_METRIC_CONNECT_1D_RETENTION_DAYS, DEFAULT_METRIC_CONNECT_1H_RETENTION_DAYS,
    DEFAULT_METRIC_CONNECT_1M_RETENTION_DAYS, DEFAULT_METRIC_CONNECT_SECOND_WINDOW_MINUTES,
    DEFAULT_METRIC_DB_MAX_MEMORY_MB, DEFAULT_METRIC_DB_MAX_THREADS,
    DEFAULT_METRIC_WRITE_BATCH_SIZE, DEFAULT_METRIC_WRITE_FLUSH_INTERVAL_SECS, DEFAULT_TIME_ENABLE,
    DEFAULT_TIME_SAMPLES_PER_SERVER, DEFAULT_TIME_STEP_THRESHOLD_MS,
    DEFAULT_TIME_SYNC_INTERVAL_SECS, DEFAULT_TIME_TIMEOUT_SECS,
};
use crate::config::paths::{join_path, path_join};
use crate::config::runtime::{
    copy_texts, said_or, said_text_or, said_texts_or, AuthRuntimeConfig, DnsRuntimeConfig,
    GatewayRuntimeConfig, LogRuntimeConfig, MetricRuntimeConfig, RuntimeConfig, StoreRuntimeConfig, TimeRuntimeConfig,
    WebRuntimeConfig,
};
use crate::config::settings::{
    LandscapeConfig, LandscapeDnsConfig, LandscapeMetricConfig, LandscapeTimeConfig,
    LandscapeUIConfig, MetricMode, WebCommArgs,
};
use crate::hostname::config::HostnameRegistryConfig;
use crate::net::{IpAddr, Ipv6Addr};
use crate::text::texts;

verus! {

/// The first of two values that is said, else the default.
pub open spec fn first_said<T>(a: Option<T>, b: Option<T>, default: T) -> T {
    said_or(a, said_or(b, default))
}

/// The first of two texts that is said, else the default.
pub open spec fn first_said_text(a: Option<String>, b: Option<String>, default: Seq<char>) -> Seq<
    char,
> {
    said_text_or(a, said_text_or(b, default))
}

fn read_value<T: Copy>(a: &Option<T>, b: &Option<T>, default: T) -> (r: T)
    ensures
        r == first_said(*a, *b, default),
{
    match (a, b) {
        (Some(v), _) => *v,
        (None, Some(v)) => *v,
        (None, None) => default,
    }
}

fn read_text(a: &Option<String>, b: &Option<String>, default: String) -> (r: String)
    ensures
        r@ == first_said_text(*a, *b, default@),
{
    match (a, b) {
        (Some(v), _) => v.clone(),
        (None, Some(v)) => v.clone(),
        (None, None) => default,
    }
}

/// The metric settings before the file is read.
pub open spec fn default_metrics(debug_build: bool) -> MetricRuntimeConfig {
    MetricRuntimeConfig {
        mode: MetricMode::Duckdb,
        connect_second_window_minutes: DEFAULT_METRIC_CONNECT_SECOND_WINDOW_MINUTES,
        connect_1m_retention_days: DEFAULT_METRIC_CONNECT_1M_RETENTION_DAYS,
        connect_1h_retention_days: DEFAULT_METRIC_CONNECT_1H_RETENTION_DAYS,
        connect_1d_retention_days: DEFAULT_METRIC_CONNECT_1D_RETENTION_DAYS,
        dns_retention_days: DEFAULT_DNS_METRIC_RETENTION_DAYS,
        write_batch_size: DEFAULT_METRIC_WRITE_BATCH_SIZE,
        write_flush_interval_secs: DEFAULT_METRIC_WRITE_FLUSH_INTERVAL_SECS,
        db_max_memory_mb: DEFAULT_METRIC_DB_MAX_MEMORY_MB,
        db_max_threads: DEFAULT_METRIC_DB_MAX_THREADS,
        cleanup_interval_secs: default_cleanup_interval(debug_build),
        cleanup_time_budget_ms: DEFAULT_METRIC_CLEANUP_TIME_BUDGET_MS,
        cleanup_slice_window_secs: DEFAULT_METRIC_CLEANUP_SLICE_WINDOW_SECS,
    }
}

fn metrics_of(config: &LandscapeMetricConfig, debug_build: bool) -> (r: MetricRuntimeConfig)
    ensures
        r == default_metrics(debug_build).updated(*config),
{
    let cleanup: u64 = if debug_build {
        DEFAULT_METRIC_CLEANUP_INTERVAL_SECS_DEBUG
    } else {
        DEFAULT_METRIC_CLEANUP_INTERVAL_SECS
    };
    let mut metric = MetricRuntimeConfig {
        mode: default_metric_mode(),
        connect_second_window_minutes: DEFAULT_METRIC_CONNECT_SECOND_WINDOW_MINUTES,
        connect_1m_retention_days: DEFAULT_METRIC_CONNECT_1M_RETENTION_DAYS,
        connect_1h_retention_days: DEFAULT_METRIC_CONNECT_1H_RETENTION_DAYS,
        connect_1d_retention_days: DEFAULT_METRIC_CONNECT_1D_RETENTION_DAYS,
        dns_retention_days: DEFAULT_DNS_METRIC_RETENTION_DAYS,
        write_batch_size: DEFAULT_METRIC_WRITE_BATCH_SIZE,
        write_flush_interval_secs: DEFAULT_METRIC_WRITE_FLUSH_INTERVAL_SECS,
        db_max_memory_mb: DEFAULT_METRIC_DB_MAX_MEMORY_MB,
        db_max_threads: DEFAULT_METRIC_DB_MAX_THREADS,
        cleanup_interval_secs: cleanup,
        cleanup_time_budget_ms: DEFAULT_METRIC_CLEANUP_TIME_BUDGET_MS,
        cleanup_slice_window_secs: DEFAULT_METRIC_CLEANUP_SLICE_WINDOW_SECS,
    };
    metric.update_from_file_config(config);
    metric
}

/// Whether DNS settings are what the file says, with the defaults elsewhere.
pub open spec fn dns_as_said(dns: DnsRuntimeConfig, config: LandscapeDnsConfig) -> bool {
    &&& dns.cache_capacity == said_or(config.cache_capacity, DEFAULT_DNS_CACHE_CAPACITY)
    &&& dns.cache_ttl == said_or(config.cache_ttl, DEFAULT_DNS_CACHE_TTL)
    &&& dns.negative_cache_ttl == said_or(config.negative_cache_ttl, DEFAULT_DNS_NEGATIVE_CACHE_TTL)
    &&& dns.doh_listen_port == said_or(config.doh_listen_port, DEFAULT_DNS_DOH_LISTEN_PORT)
    &&& dns.doh_http_endpoint@ == said_text_or(config.doh_http_endpoint, "/dns-query"@)
}

fn dns_of(config: &LandscapeDnsConfig) -> (r: DnsRuntimeConfig)
    ensures
        dns_as_said(r, *config),
{
    let mut dns = DnsRuntimeConfig {
        cache_capacity: DEFAULT_DNS_CACHE_CAPACITY,
        cache_ttl: DEFAULT_DNS_CACHE_TTL,
        negative_cache_ttl: DEFAULT_DNS_NEGATIVE_CACHE_TTL,
        doh_listen_port: DEFAULT_DNS_DOH_LISTEN_PORT,
        doh_http_endpoint: "/dns-query".to_owned(),
    };
    dns.update_from_file_config(config);
    dns
}

/// Whether clock settings are what the file says, with the defaults
/// elsewhere; each server is asked at least once.
pub open spec fn time_as_said(time: TimeRuntimeConfig, config: LandscapeTimeConfig) -> bool {
    &&& time.enabled == said_or(config.enabled, DEFAULT_TIME_ENABLE)
    &&& texts(time.servers@) == said_texts_or(config.servers, default_time_server_names())
    &&& time.sync_interval_secs == said_or(
        config.sync_interval_secs,
        DEFAULT_TIME_SYNC_INTERVAL_SECS,
    )
    &&& time.timeout_secs == said_or(config.timeout_secs, DEFAULT_TIME_TIMEOUT_SECS)
    &&& time.step_threshold_ms == said_or(config.step_threshold_ms, DEFAULT_TIME_STEP_THRESHOLD_MS)
    &&& time.samples_per_server == {
        let samples = said_or(config.samples_per_server, DEFAULT_TIME_SAMPLES_PER_SERVER);
        if samples < 1 {
            1
        } else {
            samples
        }
    }
}

fn time_of(config: &LandscapeTimeConfig) -> (r: TimeRuntimeConfig)
    ensures
        time_as_said(r, *config),
{
    let mut time = TimeRuntimeConfig {
        enabled: DEFAULT_TIME_ENABLE,
        servers: default_time_servers(),
        sync_interval_secs: DEFAULT_TIME_SYNC_INTERVAL_SECS,
        timeout_secs: DEFAULT_TIME_TIMEOUT_SECS,
        step_threshold_ms: DEFAULT_TIME_STEP_THRESHOLD_MS,
        samples_per_server: DEFAULT_TIME_SAMPLES_PER_SERVER,
    };
    time.update_from_file_config(config);
    if time.samples_per_server < 1 {
        time.samples_per_server = 1;
    }
    time
}

/// Whether settings are what the command line and the file say.
pub open spec fn settings_as_said(
    r: RuntimeConfig,
    args: WebCommArgs,
    config: LandscapeConfig,
    home_path: Seq<char>,
    debug_build: bool,
) -> bool {
    &&& r.home_path@ == home_path
    &&& r.file_config == config
    &&& r.auth.admin_user@ == first_said_text(args.admin_user, config.auth.admin_user, "root"@)
    &&& r.auth.admin_pass@ == first_said_text(args.admin_pass, config.auth.admin_pass, "root"@)
    &&& r.log.log_path@ == first_said_text(
        args.log_path,
        config.log.log_path,
        path_join(home_path, "logs"@),
    )
    &&& r.log.debug == first_said(args.debug, config.log.debug, debug_build)
    &&& r.log.log_output_in_terminal == first_said(
        args.log_output_in_terminal,
        config.log.log_output_in_terminal,
        debug_build,
    )
    &&& r.log.max_log_files == first_said(
        args.max_log_files,
        config.log.max_log_files,
        DEFAULT_MAX_LOG_FILES,
    )
    &&& texts(r.log.log_filter@) == texts(args.log_filter@)
    &&& r.web.web_root@ == first_said_text(
        args.web,
        config.web.web_root,
        path_join(home_path, "static"@),
    )
    &&& r.web.port == first_said(args.port, config.web.port, DEFAULT_HTTP_PORT)
    &&& r.web.https_port == first_said(args.https_port, config.web.https_port, DEFAULT_HTTPS_PORT)
    &&& r.web.address == first_said(
        args.address,
        config.web.address,
        IpAddr::V6(Ipv6Addr { bits: 0 }),
    )
    &&& r.store.database_path@ == first_said_text(
        args.database_path,
        config.store.database_path,
        StoreRuntimeConfig::default_url(home_path),
    )
    &&& r.metric == default_metrics(debug_build).updated(config.metric)
    &&& dns_as_said(r.dns, config.dns)
    &&& r.hostname_registry.lan_suffix@ == said_text_or(
        config.hostname_registry.lan_suffix,
        "lan"@,
    )
    &&& r.ui.table@ == config.ui.table@
    &&& time_as_said(r.time, config.time)
    &&& r.gateway.table@ == config.gateway.table@
    &&& r.auto == args.auto
}

impl RuntimeConfig {
    /// The settings in force. `file_config` is the configuration that was
    /// supplied or read from `landscape.toml` in the program's directory;
    /// without one every setting is left out.
    pub fn new_with_file_config(
        args: WebCommArgs,
        file_config: Option<LandscapeConfig>,
        home_path: String,
        debug_build: bool,
    ) -> (r: Self)
        ensures
            file_config is Some ==> settings_as_said(
                r,
                args,
                file_config->0,
                home_path@,
                debug_build,
            ),
            file_config is None ==> r.file_config.silent() && settings_as_said(
                r,
                args,
                r.file_config,
                home_path@,
                debug_build,
            ),
    {
        let config = match file_config {
            Some(config) => config,
            None => LandscapeConfig::default(),
        };
        let auth = AuthRuntimeConfig {
            admin_user: read_text(&args.admin_user, &config.auth.admin_user, "root".to_owned()),
            admin_pass: read_text(&args.admin_pass, &config.auth.admin_pass, "root".to_owned()),
        };
        let log = LogRuntimeConfig {
            log_path: read_text(
                &args.log_path,
                &config.log.log_path,
                join_path(&home_path, "logs"),
            ),
            debug: read_value(&args.debug, &config.log.debug, debug_build),
            log_output_in_terminal: read_value(
                &args.log_output_in_terminal,
                &config.log.log_output_in_terminal,
                debug_build,
            ),
            max_log_files: read_value(
                &args.max_log_files,
                &config.log.max_log_files,
                DEFAULT_MAX_LOG_FILES,
            ),
            log_filter: copy_texts(&args.log_filter),
        };
        let web = WebRuntimeConfig {
            web_root: read_text(&args.web, &config.web.web_root, join_path(&home_path, "static")),
            port: read_value(&args.port, &config.web.port, DEFAULT_HTTP_PORT),
            https_port: read_value(&args.https_port, &config.web.https_port, DEFAULT_HTTPS_PORT),
            address: read_value(
                &args.address,
                &config.web.address,
                IpAddr::V6(Ipv6Addr { bits: 0 }),
            ),
        };
        let store = StoreRuntimeConfig {
            database_path: read_text(
                &args.database_path,
                &config.store.database_path,
                StoreRuntimeConfig::create_default_db_store(&home_path),
            ),
        };
        let mut hostname_registry = HostnameRegistryConfig::default();
        hostname_registry.update_from_file_config(&config.hostname_registry);
        let metric = metrics_of(&config.metric, debug_build);
        let dns = dns_of(&config.dns);
        let ui = LandscapeUIConfig { table: config.ui.table.clone() };
        let time = time_of(&config.time);
        let gateway = GatewayRuntimeConfig::from_file_config(&config.gateway);
        RuntimeConfig {
            home_path,
            auth,
            log,
            web,
            store,
            metric,
            dns,
            hostname_registry,
            ui,
            time,
            gateway,
            file_config: config,
            auto: args.auto,
        }
    }
}

/// What the command line says goes before what the file says.
pub proof fn law_command_line_first(
    r: RuntimeConfig,
    args: WebCommArgs,
    config: LandscapeConfig,
    home_path: Seq<char>,
    debug_build: bool,
)
    requires
        settings_as_said(r, args, config, home_path, debug_build),
    ensures
        args.port is Some ==> r.web.port == args.port->0,
        args.https_port is Some ==> r.web.https_port == args.https_port->0,
        args.address is Some ==> r.web.address == args.address->0,
        args.admin_user is Some ==> r.auth.admin_user@ == args.admin_user->0@,
        args.admin_pass is Some ==> r.auth.admin_pass@ == args.admin_pass->0@,
        args.database_path is Some ==> r.store.database_path@ == args.database_path->0@,
        args.log_path is Some ==> r.log.log_path@ == args.log_path->0@,
        args.web is Some ==> r.web.web_root@ == args.web->0@,
        args.debug is Some ==> r.log.debug == args.debug->0,
{
}

/// Each time server is asked at least once.
pub proof fn law_at_least_one_sample(
    r: RuntimeConfig,
    args: WebCommArgs,
    config: LandscapeConfig,
    home_path: Seq<char>,
    debug_build: bool,
)
    requires
        settings_as_said(r, args, config, home_path, debug_build),
    ensures
        r.time.samples_per_server >= 1,
{
}

/// What the command line does not say the file does, and what neither says has
/// its default.
pub proof fn law_file_then_default(
    r: RuntimeConfig,
    args: WebCommArgs,
    config: LandscapeConfig,
    home_path: Seq<char>,
    debug_build: bool,
)
    requires
        settings_as_said(r, args, config, home_path, debug_build),
    ensures
        args.max_log_files matches Some(v) ==> r.log.max_log_files == v,
        args.log_output_in_terminal matches Some(v) ==> r.log.log_output_in_terminal == v,
        args.port is None ==> (config.web.port matches Some(v) ==> r.web.port == v),
        args.port is None && config.web.port is None ==> r.web.port == 6300,
        args.https_port is None ==> (config.web.https_port matches Some(v) ==> r.web.https_port == v),
        args.https_port is None && config.web.https_port is None ==> r.web.https_port == 6443,
        args.max_log_files is None ==> (config.log.max_log_files matches Some(v) ==> r.log.max_log_files == v),
        args.max_log_files is None && config.log.max_log_files is None ==> r.log.max_log_files == 7,
        args.debug is None ==> (config.log.debug matches Some(v) ==> r.log.debug == v),
        args.debug is None && config.log.debug is None ==> r.log.debug == debug_build,
        args.log_output_in_terminal is None ==> (config.log.log_output_in_terminal matches Some(v) ==> r.log.log_output_in_terminal == v),
        args.log_output_in_terminal is None && config.log.log_output_in_terminal is None ==> r.log.log_output_in_terminal == debug_build,
        args.address is None ==> (config.web.address matches Some(v) ==> r.web.address == v),
        args.address is None && config.web.address is None ==> r.web.address == IpAddr::V6(Ipv6Addr { bits: 0 }),
        args.admin_user is None ==> (config.auth.admin_user matches Some(v) ==> r.auth.admin_user@ == v@),
        args.admin_user is None && config.auth.admin_user is None ==> r.auth.admin_user@ == "root"@,
        args.admin_pass is None ==> (config.auth.admin_pass matches Some(v) ==> r.auth.admin_pass@ == v@),
        args.admin_pass is None && config.auth.admin_pass is None ==> r.auth.admin_pass@ == "root"@,
        args.log_path is None ==> (config.log.log_path matches Some(v) ==> r.log.log_path@ == v@),
        args.log_path is None && config.log.log_path is None ==> r.log.log_path@ == path_join(home_path, "logs"@),
        args.web is None ==> (config.web.web_root matches Some(v) ==> r.web.web_root@ == v@),
        args.web is None && config.web.web_root is None ==> r.web.web_root@ == path_join(home_path, "static"@),
        args.database_path is None ==> (config.store.database_path matches Some(v) ==> r.store.database_path@ == v@),
        args.database_path is None && config.store.database_path is None ==> r.store.database_path@ == "sqlite://"@ + path_join(home_path, "landscape_db.sqlite"@) + "?mode=rwc"@,
        r.home_path@ == home_path,
        r.auto == args.auto,
        texts(r.log.log_filter@) == texts(args.log_filter@),
{
}

/// What the command line has no say in is as the file says, and has its
/// default where the file says nothing; each time server is asked once at
/// least.
pub proof fn law_settings_of_the_file(
    r: RuntimeConfig,
    args: WebCommArgs,
    config: LandscapeConfig,
    home_path: Seq<char>,
    debug_build: bool,
)
    requires
        settings_as_said(r, args, config, home_path, debug_build),
    ensures
        config.dns.cache_capacity matches Some(v) ==> r.dns.cache_capacity == v,
        config.dns.cache_capacity is None ==> r.dns.cache_capacity == 4096,
        config.dns.cache_ttl matches Some(v) ==> r.dns.cache_ttl == v,
        config.dns.cache_ttl is None ==> r.dns.cache_ttl == 86400,
        config.dns.negative_cache_ttl matches Some(v) ==> r.dns.negative_cache_ttl == v,
        config.dns.negative_cache_ttl is None ==> r.dns.negative_cache_ttl == 120,
        config.dns.doh_listen_port matches Some(v) ==> r.dns.doh_listen_port == v,
        config.dns.doh_listen_port is None ==> r.dns.doh_listen_port == 6053,
        config.time.enabled matches Some(v) ==> r.time.enabled == v,
        config.time.enabled is None ==> r.time.enabled == false,
        config.time.sync_interval_secs matches Some(v) ==> r.time.sync_interval_secs == v,
        config.time.sync_interval_secs is None ==> r.time.sync_interval_secs == 3600,
        config.time.timeout_secs matches Some(v) ==> r.time.timeout_secs == v,
        config.time.timeout_secs is None ==> r.time.timeout_secs == 3,
        config.time.step_threshold_ms matches Some(v) ==> r.time.step_threshold_ms == v,
        config.time.step_threshold_ms is None ==> r.time.step_threshold_ms == 500,
        config.dns.doh_http_endpoint matches Some(v) ==> r.dns.doh_http_endpoint@ == v@,
        config.dns.doh_http_endpoint is None ==> r.dns.doh_http_endpoint@ == "/dns-query"@,
        config.hostname_registry.lan_suffix matches Some(v) ==> r.hostname_registry.lan_suffix@
            == v@,
        config.hostname_registry.lan_suffix is None ==> r.hostname_registry.lan_suffix@ == "lan"@,
        config.time.servers matches Some(v) ==> texts(r.time.servers@) == texts(v@),
        config.time.samples_per_server matches Some(v) ==> v >= 1 ==> r.time.samples_per_server == v,
        config.time.samples_per_server == Some(0u8) ==> r.time.samples_per_server == 1,
        config.time.samples_per_server is None ==> r.time.samples_per_server == 3,
        config.metric.mode is None ==> r.metric.mode == MetricMode::Duckdb,
        config.metric.cleanup_interval_secs is None ==> r.metric.cleanup_interval_secs
            == if debug_build {
            60u64
        } else {
            300u64
        },
        r.ui.table@ == config.ui.table@,
        r.gateway.table@ == config.gateway.table@,
{
}

} // verus!
