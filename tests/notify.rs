use alerting::cycle::NotificationItem;
use alerting::model::{HostMeta, Problem};
use alerting::notify::{
    body_text, compute_latency_ms, compute_timeout, summary_text, timeout_for_render, u128_to_u32,
    urgency_for_severity, ToastTimeout, ToastUrgency,
};
use alerting::types::Severity;

#[test]
fn timeout_prefers_sticky() {
    let timeout = compute_timeout(true, Some(1000), true);
    assert!(matches!(timeout, ToastTimeout::Never));
}

#[test]
fn timeout_fallbacks() {
    assert_eq!(compute_timeout(false, Some(1000), true), ToastTimeout::Milliseconds(1000));
    assert_eq!(compute_timeout(false, None, true), ToastTimeout::Default);
    assert_eq!(compute_timeout(false, None, false), ToastTimeout::Milliseconds(5000));
    assert_eq!(timeout_for_render(Some(2500)), Some(2500));
    assert_eq!(timeout_for_render(Some(u64::MAX)), None);
    assert_eq!(timeout_for_render(None), None);
    assert_eq!(u128_to_u32(u32::MAX as u128), Some(u32::MAX));
    assert_eq!(u128_to_u32(u32::MAX as u128 + 1), None);
}

#[test]
fn urgency_by_severity() {
    assert_eq!(urgency_for_severity(Severity::Disaster), ToastUrgency::Critical);
    assert_eq!(urgency_for_severity(Severity::High), ToastUrgency::Critical);
    assert_eq!(urgency_for_severity(Severity::Average), ToastUrgency::Normal);
    assert_eq!(urgency_for_severity(Severity::Warning), ToastUrgency::Normal);
    assert_eq!(urgency_for_severity(Severity::Info), ToastUrgency::Low);
}

#[test]
fn notification_texts() {
    let item = NotificationItem {
        problem: Problem {
            event_id: "123".to_string(),
            clock: 1,
            last_change: 1,
            name: "Disk full".to_string(),
            severity: Severity::High,
            acknowledged: false,
        },
        host: Some(HostMeta { host: None, display_name: "Server 01".to_string(), status: None }),
        open_url: None,
    };
    assert_eq!(summary_text(&item), "High – Server 01");
    assert_eq!(body_text(&item), "Event #123 [UNACK]\nDisk full");
    let acked = NotificationItem { host: None, problem: Problem { acknowledged: true, ..item.problem }, open_url: None };
    assert_eq!(summary_text(&acked), "High – <unknown>");
    assert_eq!(body_text(&acked), "Event #123 [ACK]\nDisk full");
}

#[test]
fn latency_from_detection_time() {
    assert_eq!(compute_latency_ms(100, 100_500), Some(500));
    assert_eq!(compute_latency_ms(100, 100_000), Some(0));
    assert_eq!(compute_latency_ms(101, 100_000), None);
    assert_eq!(compute_latency_ms(-1, 100_000), None);
}
