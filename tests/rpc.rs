use alerting::model::ZbxError;
use alerting::error::Error;
use alerting::rpc::{body_preview, event_update_action, next_step, AttemptOutcome, CallStep, MAX_ATTEMPTS};

/// Runs the retry policy against a server that answers each attempt with
/// the outcome `answer` gives, with a fixed backoff delay; returns the
/// number of attempts made and the final step.
fn simulate(answer: impl Fn(usize) -> AttemptOutcome) -> (usize, CallStep) {
    let mut attempt = 1;
    loop {
        match next_step(attempt, answer(attempt), Some(200)) {
            CallStep::Retry { delay_ms } => {
                assert_eq!(delay_ms, 200);
                attempt += 1;
            }
            other => return (attempt, other),
        }
    }
}

#[test]
fn retries_exhaust_on_server_error() {
    let (attempts, step) = simulate(|_| AttemptOutcome::Status { status: 503 });
    assert_eq!(attempts, MAX_ATTEMPTS);
    match step {
        CallStep::Fail { error: ZbxError::RetryExhausted { source } } => {
            assert!(matches!(*source, ZbxError::HttpStatus { status: 503 }));
        }
        other => panic!("unexpected error: {other:?}"),
    }
}

#[test]
fn returns_api_error_details() {
    let (attempts, step) = simulate(|_| AttemptOutcome::ApiError {
        code: 42,
        message: "Invalid token".to_string(),
        data: None,
    });
    assert_eq!(attempts, 1);
    match step {
        CallStep::Fail { error: ZbxError::Api { code, message } } => {
            assert_eq!(code, 42);
            assert_eq!(message, "Invalid token");
        }
        other => panic!("unexpected error: {other:?}"),
    }
}

#[test]
fn api_error_detail_is_appended() {
    match next_step(1, AttemptOutcome::ApiError { code: -32602, message: "Invalid params.".to_string(), data: Some("No permissions.".to_string()) }, Some(1)) {
        CallStep::Fail { error: ZbxError::Api { code, message } } => {
            assert_eq!(code, -32602);
            assert_eq!(message, "Invalid params. - No permissions.");
        }
        other => panic!("unexpected step: {other:?}"),
    }
}

#[test]
fn client_errors_and_missing_results_fail_at_once() {
    assert!(matches!(
        next_step(1, AttemptOutcome::Status { status: 404 }, Some(100)),
        CallStep::Fail { error: ZbxError::HttpStatus { status: 404 } }
    ));
    match next_step(1, AttemptOutcome::NoResult, Some(100)) {
        CallStep::Fail { error: ZbxError::MissingField { field } } => assert_eq!(field, "result"),
        other => panic!("unexpected step: {other:?}"),
    }
    assert!(matches!(next_step(2, AttemptOutcome::Success, None), CallStep::Done));
}

#[test]
fn transient_failures_retry_until_backoff_gives_up() {
    assert!(matches!(
        next_step(1, AttemptOutcome::Status { status: 408 }, Some(250)),
        CallStep::Retry { delay_ms: 250 }
    ));
    assert!(matches!(
        next_step(2, AttemptOutcome::Malformed { message: "eof".to_string() }, Some(400)),
        CallStep::Retry { delay_ms: 400 }
    ));
    match next_step(1, AttemptOutcome::Transport { message: "refused".to_string() }, None) {
        CallStep::Fail { error: ZbxError::Request { message } } => assert_eq!(message, "refused"),
        other => panic!("unexpected step: {other:?}"),
    }
    match next_step(3, AttemptOutcome::Malformed { message: "eof".to_string() }, Some(400)) {
        CallStep::Fail { error: ZbxError::RetryExhausted { source } } => {
            assert!(matches!(*source, ZbxError::Json { .. }))
        }
        other => panic!("unexpected step: {other:?}"),
    }
}

#[test]
fn retriable_error_kinds() {
    assert!(Error::Zabbix(ZbxError::Request { message: String::new() }).is_retriable());
    assert!(Error::Zabbix(ZbxError::HttpStatus { status: 500 }).is_retriable());
    assert!(Error::Zabbix(ZbxError::Json { message: String::new() }).is_retriable());
    assert!(!Error::Zabbix(ZbxError::Api { code: 1, message: String::new() }).is_retriable());
    assert!(!Error::Zabbix(ZbxError::InvalidSeverity { code: 9 }).is_retriable());
    assert!(!Error::Telemetry("x".to_string()).is_retriable());
}

#[test]
fn acknowledgement_action_codes() {
    assert_eq!(event_update_action(true, None), (2, false));
    assert_eq!(event_update_action(false, None), (16, false));
    assert_eq!(event_update_action(true, Some("on it")), (6, true));
    assert_eq!(event_update_action(false, Some("")), (16, false));
    assert_eq!(event_update_action(false, Some("done")), (20, true));
}

#[test]
fn body_preview_cuts_and_escapes() {
    assert_eq!(body_preview(b""), "<empty>");
    assert_eq!(body_preview(b"<html>\nBad Gateway\n</html>"), "<html>\\nBad Gateway\\n</html>");
    let long = vec![b'x'; 300];
    let preview = body_preview(&long);
    assert_eq!(preview.len(), 259);
    assert!(preview.ends_with("..."));
    assert_eq!(body_preview(&[0x66, 0xff, 0x6f]), "f\u{fffd}o");
}
