//! Settings, their defaults and their validation.

use crate::text::{ascii_lower_seq, text_eq, to_ascii_lower, trim_text, trimmed};
use crate::types::AckFilter;
use url::Url;
use vstd::prelude::*;

verus! {

#[verifier::external_type_specification]
#[verifier::external_body]
pub struct ExUrl(Url);

/// Whether the URL parser accepts a text.
pub uninterp spec fn url_accepts(s: Seq<char>) -> bool;

/// Relies on `url::Url::parse`: succeeds exactly on the texts it accepts,
/// and hands back the parser's message otherwise.
#[verifier::external_body]
fn parse_url(s: &str) -> (r: Result<Url, String>)
    ensures
        r is Ok == url_accepts(s@),
{
    Url::parse(s).map_err(|e| e.to_string())
}

/// Configuration failures.
#[derive(Debug)]
pub enum ConfigError {
    FileRead { path: String, message: String },
    Parse { message: String },
    MissingField { field: String },
    InvalidField { field: String, message: String },
    Other { message: String },
}

/// Admission ceiling: at most `max_events` within `per_ms` milliseconds.
#[derive(Clone, Copy, Debug)]
pub struct RateLimit {
    pub max_events: usize,
    pub per_ms: u64,
}

impl RateLimit {
    /// Admits the first candidate always, later ones while below the ceiling.
    pub fn allows(&self, count: usize, candidate: usize) -> (r: bool)
        ensures
            r == (candidate == 0 || count < self.max_events),
    {
        candidate == 0 || count < self.max_events
    }
}

/// How notifications are rendered.
#[derive(Clone, Debug)]
pub struct NotifySettings {
    pub appname: String,
    pub sticky: bool,
    pub timeout_ms: Option<u64>,
    pub default_timeout: bool,
    pub icon: Option<String>,
    pub open_label: String,
    pub notify_acked: bool,
}

/// Validated settings of the agent.
#[derive(Debug)]
pub struct Config {
    pub base_url: Url,
    pub token: String,
    pub limit: u32,
    pub concurrency: usize,
    pub ack_filter: AckFilter,
    pub max_notif: usize,
    pub queue_capacity: usize,
    pub dedup_cache_size: usize,
    pub rate_limit: RateLimit,
    pub poll_interval_ms: u64,
    pub open_url_fmt: Option<String>,
    pub notify: NotifySettings,
    pub http_connect_timeout_ms: u64,
    pub http_request_timeout_ms: u64,
}

/// Command-line settings that override the configuration.
#[derive(Clone, Debug)]
pub struct Cli {
    pub config: Option<String>,
    pub once: bool,
    pub interval_ms: Option<u64>,
    pub max_notif: Option<usize>,
    pub insecure: bool,
    pub dry_run: bool,
    pub json_logs: bool,
    pub log_filter: Option<String>,
}

/// Applies the command-line overrides: the poll interval as given, the
/// notification ceiling only within its accepted range.
pub fn apply_cli_overrides(config: &mut Config, cli: &Cli) -> (r: Result<(), ConfigError>)
    ensures
        (cli.max_notif matches Some(m) && !(MAX_NOTIF_MIN <= m <= MAX_NOTIF_MAX)) ==> (r matches Err(
            ConfigError::InvalidField { field, message },
        ) && field@ == "cli.max_notif"@),
        !(cli.max_notif matches Some(m) && !(MAX_NOTIF_MIN <= m <= MAX_NOTIF_MAX)) ==> {
            &&& r is Ok
            &&& final(config).max_notif == (match cli.max_notif {
                Some(m) => m,
                None => old(config).max_notif,
            })
        },
        final(config).poll_interval_ms == (match cli.interval_ms {
            Some(i) => i,
            None => old(config).poll_interval_ms,
        }),
        final(config).dedup_cache_size == old(config).dedup_cache_size,
        final(config).queue_capacity == old(config).queue_capacity,
        final(config).rate_limit == old(config).rate_limit,
        final(config).concurrency == old(config).concurrency,
{
    if let Some(interval) = cli.interval_ms {
        config.poll_interval_ms = interval;
    }
    if let Some(max_notif) = cli.max_notif {
        if !(MAX_NOTIF_MIN <= max_notif && max_notif <= MAX_NOTIF_MAX) {
            return Err(invalid("cli.max_notif", "value must be between 1 and 100"));
        }
        config.max_notif = max_notif;
    }
    Ok(())
}

/// Plain HTTP endpoints are accepted only when explicitly allowed.
pub fn scheme_allowed(scheme: &str, insecure: bool) -> (r: bool)
    ensures
        r == (insecure || scheme@ == "https"@),
{
    if insecure {
        return true;
    }
    let s = String::from_str(scheme);
    text_eq(&s, "https")
}

/// Smallest and largest accepted number of notifications per cycle.
pub const MAX_NOTIF_MIN: usize = 1;
pub const MAX_NOTIF_MAX: usize = 100;
/// Overall deadline of one remote call.
pub const DEFAULT_HTTP_TIMEOUT_MS: u64 = 10000;
/// Connection deadline of one remote call.
pub const DEFAULT_CONNECT_TIMEOUT_MS: u64 = 5000;

pub fn default_limit() -> (r: u32)
    ensures
        r == 20,
{
    20
}

pub fn default_concurrency() -> (r: usize)
    ensures
        r == 4,
{
    4
}

pub fn default_ack_filter() -> (r: String)
    ensures
        r@ == "unacked"@,
{
    String::from_str("unacked")
}

pub fn default_notify_appname() -> (r: String)
    ensures
        r@ == "Alerting"@,
{
    String::from_str("Alerting")
}

pub fn default_open_label() -> (r: String)
    ensures
        r@ == "Open"@,
{
    String::from_str("Open")
}

pub fn default_max_notif() -> (r: usize)
    ensures
        r == 5,
{
    5
}

pub fn default_queue_bound() -> (r: usize)
    ensures
        r == 64,
{
    64
}

pub fn default_dedup_cache_size() -> (r: usize)
    ensures
        r == 256,
{
    256
}

pub fn default_rate_limit_max() -> (r: usize)
    ensures
        r == 3,
{
    3
}

/// Five seconds.
pub fn default_rate_limit_window() -> (r: u64)
    ensures
        r == 5000,
{
    5000
}

/// Thirty seconds.
pub fn default_poll_interval() -> (r: u64)
    ensures
        r == 30000,
{
    30000
}

/// Remote endpoint settings before validation.
#[derive(Clone, Debug)]
pub struct RawZabbix {
    pub url: Option<String>,
    pub token: Option<String>,
    pub limit: u32,
    pub concurrency: usize,
    pub ack_filter: Option<String>,
}

/// Rendering settings before validation.
#[derive(Clone, Debug)]
pub struct RawNotify {
    pub appname: String,
    pub sticky: bool,
    pub timeout_ms: Option<u64>,
    pub default_timeout: bool,
    pub icon: Option<String>,
    pub open_label: String,
    pub notify_acked: bool,
}

/// Cycle settings before validation.
#[derive(Clone, Debug)]
pub struct RawApp {
    pub max_notif: usize,
    pub queue_bound: usize,
    pub dedup_cache_size: usize,
    pub rate_limit_max: usize,
    pub rate_limit_window_ms: u64,
    pub poll_interval_ms: u64,
    pub open_url_fmt: Option<String>,
}

/// All settings as read, before validation.
#[derive(Clone, Debug)]
pub struct RawConfig {
    pub zabbix: RawZabbix,
    pub notify: RawNotify,
    pub app: RawApp,
}

impl RawZabbix {
    pub fn default() -> (r: RawZabbix)
        ensures
            r.url is None,
            r.token is None,
            r.limit == 20,
            r.concurrency == 4,
            r.ack_filter matches Some(f) && f@ == "unacked"@,
    {
        RawZabbix {
            url: None,
            token: None,
            limit: default_limit(),
            concurrency: default_concurrency(),
            ack_filter: Some(default_ack_filter()),
        }
    }
}

impl RawNotify {
    pub fn default() -> (r: RawNotify)
        ensures
            r.appname@ == "Alerting"@,
            !r.sticky,
            r.timeout_ms is None,
            !r.default_timeout,
            r.icon is None,
            r.open_label@ == "Open"@,
            !r.notify_acked,
    {
        RawNotify {
            appname: default_notify_appname(),
            sticky: false,
            timeout_ms: None,
            default_timeout: false,
            icon: None,
            open_label: default_open_label(),
            notify_acked: false,
        }
    }
}

impl RawApp {
    pub fn default() -> (r: RawApp)
        ensures
            r.max_notif == 5,
            r.queue_bound == 64,
            r.dedup_cache_size == 256,
            r.rate_limit_max == 3,
            r.rate_limit_window_ms == 5000,
            r.poll_interval_ms == 30000,
            r.open_url_fmt is None,
    {
        RawApp {
            max_notif: default_max_notif(),
            queue_bound: default_queue_bound(),
            dedup_cache_size: default_dedup_cache_size(),
            rate_limit_max: default_rate_limit_max(),
            rate_limit_window_ms: default_rate_limit_window(),
            poll_interval_ms: default_poll_interval(),
            open_url_fmt: None,
        }
    }
}

/// The first check a raw configuration fails, in the order they are made.
#[derive(PartialEq, Eq)]
pub enum ConfigFault {
    MissingUrl,
    MissingToken,
    BlankToken,
    BadUrl,
    BadAckFilter,
    MaxNotifRange,
    ZeroQueueBound,
    ZeroDedupCacheSize,
    ZeroRateLimitMax,
    ZeroRateLimitWindow,
    ZeroPollInterval,
}

/// The acknowledgement filter text in force: the configured one, or the default.
pub open spec fn ack_source(raw: RawConfig) -> Seq<char> {
    match raw.zabbix.ack_filter {
        Some(f) => f@,
        None => "unacked"@,
    }
}

pub open spec fn spec_fault(raw: RawConfig) -> Option<ConfigFault> {
    if raw.zabbix.url is None {
        Some(ConfigFault::MissingUrl)
    } else if raw.zabbix.token is None {
        Some(ConfigFault::MissingToken)
    } else if trimmed(raw.zabbix.token->Some_0@).len() == 0 {
        Some(ConfigFault::BlankToken)
    } else if !url_accepts(raw.zabbix.url->Some_0@) {
        Some(ConfigFault::BadUrl)
    } else if AckFilter::spec_from_lower(ascii_lower_seq(ascii_lower_seq(ack_source(raw)))) is None {
        Some(ConfigFault::BadAckFilter)
    } else if !(MAX_NOTIF_MIN <= raw.app.max_notif <= MAX_NOTIF_MAX) {
        Some(ConfigFault::MaxNotifRange)
    } else if raw.app.queue_bound == 0 {
        Some(ConfigFault::ZeroQueueBound)
    } else if raw.app.dedup_cache_size == 0 {
        Some(ConfigFault::ZeroDedupCacheSize)
    } else if raw.app.rate_limit_max == 0 {
        Some(ConfigFault::ZeroRateLimitMax)
    } else if raw.app.rate_limit_window_ms == 0 {
        Some(ConfigFault::ZeroRateLimitWindow)
    } else if raw.app.poll_interval_ms == 0 {
        Some(ConfigFault::ZeroPollInterval)
    } else {
        None
    }
}

/// The setting each fault is reported against.
pub open spec fn fault_field(f: ConfigFault) -> Seq<char> {
    match f {
        ConfigFault::MissingUrl => "zabbix.url"@,
        ConfigFault::MissingToken => "zabbix.token"@,
        ConfigFault::BlankToken => "zabbix.token"@,
        ConfigFault::BadUrl => "zabbix.url"@,
        ConfigFault::BadAckFilter => "zabbix.ack_filter"@,
        ConfigFault::MaxNotifRange => "app.max_notif"@,
        ConfigFault::ZeroQueueBound => "app.queue_bound"@,
        ConfigFault::ZeroDedupCacheSize => "app.dedup_cache_size"@,
        ConfigFault::ZeroRateLimitMax => "app.rate_limit_max"@,
        ConfigFault::ZeroRateLimitWindow => "app.rate_limit_window"@,
        ConfigFault::ZeroPollInterval => "app.poll_interval"@,
    }
}

/// Whether `e` reports fault `f`: a missing setting for the first two, an
/// invalid one otherwise, against the setting's name.
pub open spec fn reports(e: ConfigError, f: ConfigFault) -> bool {
    match e {
        ConfigError::MissingField { field } => (f == ConfigFault::MissingUrl || f == ConfigFault::MissingToken) && field@ == fault_field(f),
        ConfigError::InvalidField { field, message } => !(f == ConfigFault::MissingUrl || f == ConfigFault::MissingToken) && field@ == fault_field(f),
        _ => false,
    }
}

fn invalid(field: &str, message: &str) -> (r: ConfigError)
    ensures
        r matches ConfigError::InvalidField { field: f, message: m } && f@ == field@ && m@ == message@,
{
    ConfigError::InvalidField { field: String::from_str(field), message: String::from_str(message) }
}

impl RawConfig {
    /// Checks the settings in a fixed order and builds the configuration;
    /// the first failed check is reported.
    pub fn validate_and_build(self) -> (r: Result<Config, ConfigError>)
        ensures
            r is Ok <==> spec_fault(self) is None,
            (r matches Err(e) ==> reports(e, spec_fault(self)->Some_0)),
            (r matches Ok(c) ==> {
                &&& c.token@ == self.zabbix.token->Some_0@
                &&& c.limit == self.zabbix.limit
                &&& c.concurrency == (if self.zabbix.concurrency > 1 { self.zabbix.concurrency } else { 1 })
                &&& Some(c.ack_filter) == AckFilter::spec_from_lower(ascii_lower_seq(ascii_lower_seq(ack_source(self))))
                &&& c.max_notif == self.app.max_notif
                &&& c.queue_capacity == self.app.queue_bound
                &&& c.dedup_cache_size == self.app.dedup_cache_size
                &&& c.rate_limit.max_events == self.app.rate_limit_max
                &&& c.rate_limit.per_ms == self.app.rate_limit_window_ms
                &&& c.poll_interval_ms == self.app.poll_interval_ms
                &&& c.open_url_fmt == self.app.open_url_fmt
                &&& c.notify == self.notify_settings()
                &&& c.http_connect_timeout_ms == DEFAULT_CONNECT_TIMEOUT_MS
                &&& c.http_request_timeout_ms == DEFAULT_HTTP_TIMEOUT_MS
            }),
    {
        let url_str = match self.zabbix.url {
            Some(u) => u,
            None => {
                return Err(ConfigError::MissingField { field: String::from_str("zabbix.url") });
            },
        };
        let token = match self.zabbix.token {
            Some(t) => t,
            None => {
                return Err(ConfigError::MissingField { field: String::from_str("zabbix.token") });
            },
        };
        if trim_text(token.as_str()).is_empty() {
            return Err(invalid("zabbix.token", "token cannot be empty"));
        }
        let base_url = match parse_url(url_str.as_str()) {
            Ok(u) => u,
            Err(message) => {
                return Err(ConfigError::InvalidField { field: String::from_str("zabbix.url"), message });
            },
        };
        let ack_src = match self.zabbix.ack_filter {
            Some(f) => f,
            None => default_ack_filter(),
        };
        let lowered = to_ascii_lower(ack_src.as_str());
        let ack_filter = match AckFilter::parse(lowered.as_str()) {
            Ok(f) => f,
            Err(message) => {
                return Err(ConfigError::InvalidField { field: String::from_str("zabbix.ack_filter"), message });
            },
        };
        if !(MAX_NOTIF_MIN <= self.app.max_notif && self.app.max_notif <= MAX_NOTIF_MAX) {
            return Err(invalid("app.max_notif", "expected between 1 and 100"));
        }
        if self.app.queue_bound == 0 {
            return Err(invalid("app.queue_bound", "queue bound must be greater than zero"));
        }
        if self.app.dedup_cache_size == 0 {
            return Err(invalid("app.dedup_cache_size", "dedup cache size must be greater than zero"));
        }
        if self.app.rate_limit_max == 0 {
            return Err(invalid("app.rate_limit_max", "rate limit must allow at least one event"));
        }
        if self.app.rate_limit_window_ms == 0 {
            return Err(invalid("app.rate_limit_window", "window duration must be greater than zero"));
        }
        if self.app.poll_interval_ms == 0 {
            return Err(invalid("app.poll_interval", "poll interval must be greater than zero"));
        }
        let notify = NotifySettings {
            appname: self.notify.appname,
            sticky: self.notify.sticky,
            timeout_ms: self.notify.timeout_ms,
            default_timeout: self.notify.default_timeout,
            icon: self.notify.icon,
            open_label: self.notify.open_label,
            notify_acked: self.notify.notify_acked,
        };
        Ok(Config {
            base_url,
            token,
            limit: self.zabbix.limit,
            concurrency: if self.zabbix.concurrency > 1 { self.zabbix.concurrency } else { 1 },
            ack_filter,
            max_notif: self.app.max_notif,
            queue_capacity: self.app.queue_bound,
            dedup_cache_size: self.app.dedup_cache_size,
            rate_limit: RateLimit { max_events: self.app.rate_limit_max, per_ms: self.app.rate_limit_window_ms },
            poll_interval_ms: self.app.poll_interval_ms,
            open_url_fmt: self.app.open_url_fmt,
            notify,
            http_connect_timeout_ms: DEFAULT_CONNECT_TIMEOUT_MS,
            http_request_timeout_ms: DEFAULT_HTTP_TIMEOUT_MS,
        })
    }

    /// The rendering settings carried over unchanged.
    pub open spec fn notify_settings(self) -> NotifySettings {
        NotifySettings {
            appname: self.notify.appname,
            sticky: self.notify.sticky,
            timeout_ms: self.notify.timeout_ms,
            default_timeout: self.notify.default_timeout,
            icon: self.notify.icon,
            open_label: self.notify.open_label,
            notify_acked: self.notify.notify_acked,
        }
    }
}

} // verus!
