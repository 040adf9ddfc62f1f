//! What a rendered notification says and how long it stays.

use crate::cycle::NotificationItem;
use crate::types::Severity;
use vstd::prelude::*;

verus! {

/// Urgency levels understood by the rendering side.
#[derive(Clone, Copy, Debug, PartialEq, Eq, Structural)]
pub enum ToastUrgency {
    Low,
    Normal,
    Critical,
}

/// How long a notification stays on screen.
#[derive(Clone, Copy, Debug, PartialEq, Eq, Structural)]
pub enum ToastTimeout {
    Default,
    Never,
    Milliseconds(u32),
}

/// Used when nothing else is configured.
pub const FALLBACK_TIMEOUT_MS: u32 = 5000;

/// Sticky wins, then an explicit timeout, then the platform default, then
/// five seconds.
pub fn compute_timeout(sticky: bool, timeout_ms: Option<u32>, default_timeout: bool) -> (r: ToastTimeout)
    ensures
        sticky ==> r == ToastTimeout::Never,
        !sticky && timeout_ms is Some ==> r == ToastTimeout::Milliseconds(timeout_ms->Some_0),
        !sticky && timeout_ms is None && default_timeout ==> r == ToastTimeout::Default,
        !sticky && timeout_ms is None && !default_timeout ==> r == ToastTimeout::Milliseconds(5000),
{
    if sticky {
        ToastTimeout::Never
    } else if let Some(ms) = timeout_ms {
        ToastTimeout::Milliseconds(ms)
    } else if default_timeout {
        ToastTimeout::Default
    } else {
        ToastTimeout::Milliseconds(FALLBACK_TIMEOUT_MS)
    }
}

/// High and disaster are critical, average and warning normal, info low.
pub fn urgency_for_severity(sev: Severity) -> (r: ToastUrgency)
    ensures
        r == (if sev.spec_level() >= 3 {
            ToastUrgency::Critical
        } else if sev.spec_level() >= 1 {
            ToastUrgency::Normal
        } else {
            ToastUrgency::Low
        }),
{
    match sev {
        Severity::Disaster | Severity::High => ToastUrgency::Critical,
        Severity::Average | Severity::Warning => ToastUrgency::Normal,
        Severity::Info => ToastUrgency::Low,
    }
}

/// A value that fits in 32 bits, or none.
pub fn u128_to_u32(value: u128) -> (r: Option<u32>)
    ensures
        value <= u32::MAX ==> r == Some(value as u32),
        value > u32::MAX ==> r is None,
{
    if value <= u32::MAX as u128 {
        Some(value as u32)
    } else {
        None
    }
}

/// The configured timeout in milliseconds, when it fits the renderer.
pub fn timeout_for_render(timeout_ms: Option<u64>) -> (r: Option<u32>)
    ensures
        r == (match timeout_ms {
            Some(ms) => if ms <= u32::MAX { Some(ms as u32) } else { None },
            None => None,
        }),
{
    match timeout_ms {
        Some(ms) => u128_to_u32(ms as u128),
        None => None,
    }
}

/// The host shown for an item: its display name, or a placeholder.
pub open spec fn host_label(item: NotificationItem) -> Seq<char> {
    match item.host {
        Some(h) => h.display_name@,
        None => "<unknown>"@,
    }
}

/// The title of an item's notification: severity, then host.
pub open spec fn summary_of(item: NotificationItem) -> Seq<char> {
    item.problem.severity.spec_name() + " – "@ + host_label(item)
}

/// The body of an item's notification: id, acknowledgement state, name.
pub open spec fn body_of(item: NotificationItem) -> Seq<char> {
    "Event #"@ + item.problem.event_id@ + (if item.problem.acknowledged { " [ACK]\n"@ } else { " [UNACK]\n"@ })
        + item.problem.name@
}

pub fn summary_text(item: &NotificationItem) -> (r: String)
    ensures
        r@ == summary_of(*item),
{
    let mut s = String::from_str(item.problem.severity.as_str());
    s.append(" – ");
    match &item.host {
        Some(h) => s.append(h.display_name.as_str()),
        None => s.append("<unknown>"),
    }
    s
}

pub fn body_text(item: &NotificationItem) -> (r: String)
    ensures
        r@ == body_of(*item),
{
    let mut s = String::from_str("Event #");
    s.append(item.problem.event_id.as_str());
    if item.problem.acknowledged {
        s.append(" [ACK]\n");
    } else {
        s.append(" [UNACK]\n");
    }
    s.append(item.problem.name.as_str());
    s
}

/// Milliseconds from detection (`clock`, epoch seconds) to `now_ms` (epoch
/// milliseconds); none for a negative clock or a detection in the future.
pub fn compute_latency_ms(clock: i64, now_ms: u128) -> (r: Option<u128>)
    ensures
        clock < 0 ==> r is None,
        clock >= 0 && (clock as int) * 1000 > now_ms ==> r is None,
        clock >= 0 && (clock as int) * 1000 <= now_ms ==> r == Some((now_ms - (clock as int) * 1000) as u128),
{
    if clock < 0 {
        return None;
    }
    let event_ms: u128 = (clock as u128) * 1000;
    if event_ms > now_ms {
        None
    } else {
        Some(now_ms - event_ms)
    }
}

} // verus!
