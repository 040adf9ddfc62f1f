use alerting::config::{
    default_ack_filter, default_concurrency, default_dedup_cache_size, default_limit, default_max_notif,
    default_notify_appname, default_open_label, default_poll_interval, default_queue_bound,
    default_rate_limit_max, default_rate_limit_window, ConfigError, RawApp, RawConfig, RawNotify, RawZabbix,
};
use alerting::types::AckFilter;

fn valid() -> RawConfig {
    let mut zabbix = RawZabbix::default();
    zabbix.url = Some("https://zabbix.example.com/api_jsonrpc.php".to_string());
    zabbix.token = Some("secret".to_string());
    RawConfig { zabbix, notify: RawNotify::default(), app: RawApp::default() }
}

fn invalid_field(raw: RawConfig) -> String {
    match raw.validate_and_build() {
        Err(ConfigError::InvalidField { field, .. }) => field,
        other => panic!("unexpected result: {other:?}"),
    }
}

#[test]
fn defaults() {
    assert_eq!(default_limit(), 20);
    assert_eq!(default_concurrency(), 4);
    assert_eq!(default_ack_filter(), "unacked");
    assert_eq!(default_notify_appname(), "Alerting");
    assert_eq!(default_open_label(), "Open");
    assert_eq!(default_max_notif(), 5);
    assert_eq!(default_queue_bound(), 64);
    assert_eq!(default_dedup_cache_size(), 256);
    assert_eq!(default_rate_limit_max(), 3);
    assert_eq!(default_rate_limit_window(), 5000);
    assert_eq!(default_poll_interval(), 30000);
}

#[test]
fn valid_settings_build() {
    let mut raw = valid();
    raw.zabbix.concurrency = 0;
    raw.zabbix.ack_filter = Some("ALL".to_string());
    raw.notify.notify_acked = true;
    let cfg = raw.validate_and_build().unwrap();
    assert_eq!(cfg.concurrency, 1);
    assert_eq!(cfg.ack_filter, AckFilter::All);
    assert_eq!(cfg.max_notif, 5);
    assert_eq!(cfg.rate_limit.max_events, 3);
    assert_eq!(cfg.rate_limit.per_ms, 5000);
    assert_eq!(cfg.poll_interval_ms, 30000);
    assert_eq!(cfg.http_request_timeout_ms, 10000);
    assert_eq!(cfg.http_connect_timeout_ms, 5000);
    assert!(cfg.notify.notify_acked);
    assert_eq!(cfg.base_url.scheme(), "https");
}

#[test]
fn missing_fields_are_reported_first() {
    let mut raw = valid();
    raw.zabbix.url = None;
    raw.app.queue_bound = 0;
    match raw.validate_and_build() {
        Err(ConfigError::MissingField { field }) => assert_eq!(field, "zabbix.url"),
        other => panic!("unexpected result: {other:?}"),
    }
    let mut raw = valid();
    raw.zabbix.token = None;
    match raw.validate_and_build() {
        Err(ConfigError::MissingField { field }) => assert_eq!(field, "zabbix.token"),
        other => panic!("unexpected result: {other:?}"),
    }
}

#[test]
fn invalid_fields_are_named() {
    let mut raw = valid();
    raw.zabbix.token = Some("   ".to_string());
    assert_eq!(invalid_field(raw), "zabbix.token");
    let mut raw = valid();
    raw.zabbix.url = Some("not a url".to_string());
    assert_eq!(invalid_field(raw), "zabbix.url");
    let mut raw = valid();
    raw.zabbix.ack_filter = Some("maybe".to_string());
    assert_eq!(invalid_field(raw), "zabbix.ack_filter");
    let mut raw = valid();
    raw.app.max_notif = 101;
    assert_eq!(invalid_field(raw), "app.max_notif");
    let mut raw = valid();
    raw.app.max_notif = 0;
    assert_eq!(invalid_field(raw), "app.max_notif");
    let mut raw = valid();
    raw.app.queue_bound = 0;
    assert_eq!(invalid_field(raw), "app.queue_bound");
    let mut raw = valid();
    raw.app.dedup_cache_size = 0;
    assert_eq!(invalid_field(raw), "app.dedup_cache_size");
    let mut raw = valid();
    raw.app.rate_limit_max = 0;
    assert_eq!(invalid_field(raw), "app.rate_limit_max");
    let mut raw = valid();
    raw.app.rate_limit_window_ms = 0;
    assert_eq!(invalid_field(raw), "app.rate_limit_window");
    let mut raw = valid();
    raw.app.poll_interval_ms = 0;
    assert_eq!(invalid_field(raw), "app.poll_interval");
}

#[test]
fn plain_http_needs_the_insecure_switch() {
    assert!(alerting::config::scheme_allowed("https", false));
    assert!(!alerting::config::scheme_allowed("http", false));
    assert!(alerting::config::scheme_allowed("http", true));
}

#[test]
fn command_line_overrides() {
    let mut cfg = valid().validate_and_build().unwrap();
    let mut cli = alerting::config::Cli {
        config: None,
        once: true,
        interval_ms: Some(1000),
        max_notif: Some(7),
        insecure: false,
        dry_run: false,
        json_logs: false,
        log_filter: None,
    };
    alerting::config::apply_cli_overrides(&mut cfg, &cli).unwrap();
    assert_eq!(cfg.max_notif, 7);
    assert_eq!(cfg.poll_interval_ms, 1000);
    cli.max_notif = Some(101);
    match alerting::config::apply_cli_overrides(&mut cfg, &cli) {
        Err(ConfigError::InvalidField { field, .. }) => assert_eq!(field, "cli.max_notif"),
        other => panic!("unexpected result: {other:?}"),
    }
    assert_eq!(cfg.max_notif, 7);
}
