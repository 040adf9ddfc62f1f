use alerting::types::{AckFilter, Severity};
use std::str::FromStr;

#[test]
fn ack_filter_from_str_accepts_variants() {
    assert_eq!(AckFilter::from_str("ack"), Ok(AckFilter::Acked));
    assert_eq!(AckFilter::from_str("unacked"), Ok(AckFilter::Unacked));
    assert_eq!(AckFilter::from_str("ALL"), Ok(AckFilter::All));
    assert!(AckFilter::from_str("maybe").is_err());
}

#[test]
fn severity_from_zabbix_parses_known_codes() {
    assert_eq!(Severity::from_zabbix(4), Some(Severity::High));
    assert_eq!(Severity::from_zabbix(1), Some(Severity::Info));
    assert!(Severity::from_zabbix(42).is_none());
}

#[test]
fn severity_codes_round_trip() {
    for code in 1..=5 {
        let sev = Severity::from_zabbix(code).unwrap();
        assert_eq!(sev.as_zabbix_code(), code);
    }
    assert!(Severity::from_zabbix(0).is_none());
    assert!(Severity::from_zabbix(6).is_none());
}

#[test]
fn severity_names_and_order() {
    assert_eq!(Severity::Disaster.as_str(), "Disaster");
    assert_eq!(Severity::Info.as_str(), "Info");
    assert!(Severity::Disaster.is_above(Severity::High));
    assert!(!Severity::Warning.is_above(Severity::Average));
}

#[test]
fn ack_filter_names_and_request_flag() {
    assert_eq!(AckFilter::Acked.as_str(), "ack");
    assert_eq!(AckFilter::Unacked.as_str(), "unack");
    assert_eq!(AckFilter::All.as_str(), "all");
    assert_eq!(AckFilter::Acked.request_flag(), Some(true));
    assert_eq!(AckFilter::Unacked.request_flag(), Some(false));
    assert_eq!(AckFilter::All.request_flag(), None);
}

#[test]
fn ack_filter_parse_mixed_case_and_error_text() {
    assert_eq!(AckFilter::parse("AcKeD"), Ok(AckFilter::Acked));
    assert_eq!(AckFilter::parse("UNACK"), Ok(AckFilter::Unacked));
    assert_eq!(
        AckFilter::parse("Maybe"),
        Err("unknown ack filter: maybe".to_string())
    );
}

#[test]
fn severity_from_str_accepts_aliases() {
    assert_eq!(Severity::from_str("Information"), Ok(Severity::Info));
    assert_eq!(Severity::from_str("WARN"), Ok(Severity::Warning));
    assert_eq!(Severity::from_str("average"), Ok(Severity::Average));
    assert_eq!(Severity::from_str("High"), Ok(Severity::High));
    assert_eq!(Severity::from_str("disaster"), Ok(Severity::Disaster));
    assert_eq!(Severity::from_str("Fatal"), Err("unknown severity: fatal".to_string()));
}
