use alerting::decode::{
    deserialize_bool, deserialize_i64, deserialize_opt_i64, deserialize_opt_u8, deserialize_u8, JsonScalar,
};
use alerting::model::{decode_problems, Problem, RawProblem, ZbxError};
use alerting::types::Severity;

fn text(s: &str) -> JsonScalar {
    JsonScalar::Text(s.to_string())
}

#[test]
fn strings_decode_to_numbers() {
    assert_eq!(deserialize_i64(&text("1700000000")), Ok(1700000000));
    assert_eq!(deserialize_i64(&text("-5")), Ok(-5));
    assert!(deserialize_i64(&text("12a")).is_err());
    assert_eq!(deserialize_i64(&JsonScalar::Int(3)), Ok(3));
    assert_eq!(deserialize_i64(&JsonScalar::Int(1700000000)), Ok(1700000000));
    assert!(deserialize_i64(&JsonScalar::Null).is_err());
    assert_eq!(deserialize_u8(&text("4")), Ok(4));
    assert_eq!(deserialize_u8(&text("+4")), Ok(4));
    assert!(deserialize_u8(&text("256")).is_err());
    assert!(deserialize_u8(&text("-1")).is_err());
    assert_eq!(deserialize_u8(&JsonScalar::Int(4)), Ok(4));
    assert!(deserialize_u8(&JsonScalar::Int(256)).is_err());
    assert!(deserialize_u8(&JsonScalar::Bool(true)).is_err());
}

#[test]
fn optional_numbers_accept_numbers_strings_and_null() {
    assert_eq!(deserialize_opt_i64(&JsonScalar::Int(7)), Ok(Some(7)));
    assert_eq!(deserialize_opt_i64(&text("1700000100")), Ok(Some(1700000100)));
    assert_eq!(deserialize_opt_i64(&JsonScalar::Null), Ok(None));
    assert!(deserialize_opt_i64(&text("")).is_err());
    assert!(deserialize_opt_i64(&JsonScalar::Bool(true)).is_err());
    assert_eq!(deserialize_opt_u8(&JsonScalar::Int(1)), Ok(Some(1)));
    assert_eq!(deserialize_opt_u8(&text("0")), Ok(Some(0)));
    assert_eq!(deserialize_opt_u8(&JsonScalar::Null), Ok(None));
    assert!(deserialize_opt_u8(&JsonScalar::Int(300)).is_err());
}

#[test]
fn flags_accept_bools_numbers_and_strings() {
    assert!(deserialize_bool(&JsonScalar::Bool(true)));
    assert!(deserialize_bool(&JsonScalar::Int(2)));
    assert!(!deserialize_bool(&JsonScalar::Int(0)));
    assert!(deserialize_bool(&text("1")));
    assert!(deserialize_bool(&text("true")));
    assert!(deserialize_bool(&text("TRUE")));
    assert!(!deserialize_bool(&text("True")));
    assert!(!deserialize_bool(&text("0")));
    assert!(!deserialize_bool(&JsonScalar::Null));
}

fn raw(id: &str, severity: u8, last_change: Option<i64>) -> RawProblem {
    RawProblem {
        event_id: id.to_string(),
        clock: 1700000000,
        last_change,
        severity,
        name: "Disk full".to_string(),
        acknowledged: false,
    }
}

#[test]
fn active_problems_returns_results() {
    let problems = decode_problems(vec![raw("123", 4, Some(1700000100))]).unwrap();
    assert_eq!(problems.len(), 1);
    assert_eq!(problems[0].event_id, "123");
    assert_eq!(problems[0].severity, Severity::High);
    assert_eq!(problems[0].last_change, 1700000100);
}

#[test]
fn last_change_defaults_to_detection_time() {
    let p = Problem::from_raw(raw("1", 1, None)).unwrap();
    assert_eq!(p.last_change, 1700000000);
    assert_eq!(p.severity, Severity::Info);
}

#[test]
fn unknown_severity_fails_the_whole_answer() {
    match decode_problems(vec![raw("1", 3, None), raw("2", 0, None), raw("3", 9, None)]) {
        Err(ZbxError::InvalidSeverity { code }) => assert_eq!(code, 0),
        other => panic!("unexpected result: {other:?}"),
    }
    assert!(decode_problems(vec![]).unwrap().is_empty());
}

#[test]
fn numbers_and_strings_decode_alike() {
    let as_text = RawProblem {
        event_id: "1".to_string(),
        clock: deserialize_i64(&text("1700000000")).unwrap(),
        last_change: deserialize_opt_i64(&text("1700000000")).unwrap(),
        severity: deserialize_u8(&text("4")).unwrap(),
        name: "x".to_string(),
        acknowledged: deserialize_bool(&text("0")),
    };
    let as_numbers = RawProblem {
        event_id: "1".to_string(),
        clock: deserialize_i64(&JsonScalar::Int(1700000000)).unwrap(),
        last_change: deserialize_opt_i64(&JsonScalar::Int(1700000000)).unwrap(),
        severity: deserialize_u8(&JsonScalar::Int(4)).unwrap(),
        name: "x".to_string(),
        acknowledged: deserialize_bool(&JsonScalar::Bool(false)),
    };
    let a = decode_problems(vec![as_text]).unwrap();
    let b = decode_problems(vec![as_numbers]).unwrap();
    assert_eq!((a[0].clock, a[0].last_change, a[0].severity, a[0].acknowledged), (b[0].clock, b[0].last_change, b[0].severity, b[0].acknowledged));
}
