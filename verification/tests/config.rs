//! Settings of the whole program.
use landscape::config::paths::{join_path, resolve_home_path};
use landscape::config::runtime::{
    DbFileAction, RuntimeConfig, StoreRuntimeConfig, TimeRuntimeConfig,
};
use landscape::config::settings::{
    LandscapeConfig, LandscapeMetricConfig, MetricMode, WebCommArgs,
};
use landscape::net::{IpAddr, Ipv4Addr, Ipv6Addr};

#[test]
fn new_with_file_config_uses_supplied_config_and_keeps_cli_precedence() {
    let mut init_config = LandscapeConfig::default();
    init_config.web.port = Some(7000);
    init_config.web.address = Some(IpAddr::V4(Ipv4Addr::new(127, 0, 0, 1)));
    let args = WebCommArgs {
        config_dir: Some("/tmp/landscape".to_string()),
        port: Some(8000),
        ..Default::default()
    };
    let home = resolve_home_path(&args.config_dir, "/root/.landscape-router", "/");

    let config = RuntimeConfig::new_with_file_config(args, Some(init_config), home, false);

    assert_eq!(config.web.port, 8000);
    assert_eq!(config.web.address, IpAddr::V4(Ipv4Addr::new(127, 0, 0, 1)));
}

#[test]
fn settings_fall_back_to_defaults() {
    let home = "/root/.landscape-router".to_string();
    let config = RuntimeConfig::new_with_file_config(WebCommArgs::default(), None, home, false);
    assert_eq!(config.auth.admin_user, "root");
    assert_eq!(config.log.log_path, "/root/.landscape-router/logs");
    assert!(!config.log.debug);
    assert_eq!(config.log.max_log_files, 7);
    assert_eq!(config.web.web_root, "/root/.landscape-router/static");
    assert_eq!((config.web.port, config.web.https_port), (6300, 6443));
    assert_eq!(config.web.address, IpAddr::V6(Ipv6Addr { bits: 0 }));
    assert_eq!(
        config.store.database_path,
        "sqlite:///root/.landscape-router/landscape_db.sqlite?mode=rwc"
    );
    assert_eq!(config.metric.mode, MetricMode::Duckdb);
    assert_eq!(config.metric.cleanup_interval_secs, 300);
    assert_eq!(config.dns.doh_http_endpoint, "/dns-query");
    assert_eq!(config.dns.cache_ttl, 86400);
    assert_eq!(config.hostname_registry.lan_suffix, "lan");
    assert!(config.ui.table.is_empty() && config.gateway.table.is_empty());
    assert_eq!(config.time.servers.len(), 3);
    assert_eq!(config.time.samples_per_server, 3);
}

#[test]
fn file_settings_are_taken_over() {
    let mut file = LandscapeConfig::default();
    file.time.samples_per_server = Some(0);
    file.time.servers = Some(vec!["ntp.example:123".to_string()]);
    file.metric.db_max_threads = Some(9);
    file.hostname_registry.lan_suffix = Some("home".to_string());
    file.ui.table = "theme = \"dark\"\n".to_string();
    file.gateway.table = "enable = true\n".to_string();
    let config = RuntimeConfig::new_with_file_config(
        WebCommArgs::default(),
        Some(file),
        "/h/".to_string(),
        true,
    );
    assert_eq!(config.time.samples_per_server, 1);
    assert_eq!(config.time.servers, vec!["ntp.example:123".to_string()]);
    assert_eq!(config.metric.db_max_threads, 9);
    assert_eq!(config.metric.cleanup_interval_secs, 60);
    assert_eq!(config.hostname_registry.lan_suffix, "home");
    assert_eq!(config.ui.table, "theme = \"dark\"\n");
    assert_eq!(config.gateway.table, "enable = true\n");
    assert_eq!(config.file_config.gateway.table, "enable = true\n");
    assert_eq!(config.log.log_path, "/h/logs");
    assert!(config.log.debug && config.log.log_output_in_terminal);
}

#[test]
fn updates_change_what_is_said() {
    let home = "/h".to_string();
    let mut config = RuntimeConfig::new_with_file_config(WebCommArgs::default(), None, home, false);
    let mut said: LandscapeMetricConfig = LandscapeConfig::default().metric;
    config.metric.update_from_file_config(&said);
    assert_eq!(config.metric.write_batch_size, 20_000);
    said.write_batch_size = Some(5);
    said.mode = Some(MetricMode::Memory);
    config.metric.update_from_file_config(&said);
    assert_eq!(config.metric.write_batch_size, 5);
    assert_eq!(config.metric.mode, MetricMode::Memory);
    assert_eq!(config.metric.connect_1d_retention_days, 30);
    let mut dns = LandscapeConfig::default().dns;
    dns.doh_http_endpoint = Some("/q".to_string());
    config.dns.update_from_file_config(&dns);
    assert_eq!(config.dns.doh_http_endpoint, "/q");
    let mut time = TimeRuntimeConfig::default();
    let mut file = LandscapeConfig::default().time;
    file.enabled = Some(true);
    time.update_from_file_config(&file);
    assert!(time.enabled);
}

#[test]
fn home_directories_are_made_absolute() {
    let dir = |s: &str| Some(s.to_string());
    assert_eq!(resolve_home_path(&dir("/a//b/"), "/home", "/cwd"), "/a//b/");
    assert_eq!(resolve_home_path(&dir("./a//b/."), "/home", "/cwd/"), "/cwd/a/b");
    assert_eq!(resolve_home_path(&dir("../x"), "/home", "/cwd"), "/cwd/../x");
    assert_eq!(resolve_home_path(&None, "/home/u", "/cwd"), "/home/u");
    assert_eq!(join_path("", "x"), "x");
    assert_eq!(join_path("/", "x"), "/x");
}

#[test]
fn database_file_is_made_where_missing() {
    assert_eq!(StoreRuntimeConfig::db_file_action(false, false), DbFileAction::Create);
    assert_eq!(StoreRuntimeConfig::db_file_action(true, false), DbFileAction::Keep);
    assert_eq!(StoreRuntimeConfig::db_file_action(true, true), DbFileAction::Refuse);
}

#[test]
fn summary_shows_every_part() {
    let args = WebCommArgs { port: Some(1), ..Default::default() };
    let config = RuntimeConfig::new_with_file_config(args, None, "/h".to_string(), false);
    let text = config.to_string_summary();
    assert!(text.starts_with("\nLandscape Home Path: /h\n\n[Auth]\nAdmin User: root\n"));
    assert!(text.contains("\nListen HTTP on: http://[::]:1\nListen HTTPS on: https://[::]:6443\n"));
    assert!(text.contains("\n[Metric]\nMode: Duckdb\nConnect Second Window: 5 mins\n"));
    assert!(text.contains("\nCleanup Slice Window: 300s\n\n[Time]\nEnabled: false\n"));
    assert!(text.contains(
        "\nNTP Servers: ntp.aliyun.com:123, time.cloudflare.com:123, pool.ntp.org:123\n"
    ));
    assert!(text.ends_with("\nSamples Per Server: 3\n"));
}
