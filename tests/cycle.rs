use alerting::cycle::{dispatch, make_open_url, notification_for, process_cycle, screen, NotificationItem, SendOutcome, Verdict};
use alerting::rank::{rank, rank_order, select_candidates, Candidate};
use alerting::dedup::DedupCache;
use alerting::decode::{deserialize_bool, deserialize_i64, deserialize_opt_i64, deserialize_u8, JsonScalar};
use alerting::model::{decode_problems, HostMeta, Problem, RawProblem};
use alerting::rate_limit::LeakyBucket;
use alerting::types::Severity;

fn problem(id: &str, clock: i64, last_change: i64, severity: Severity, ack: bool) -> Problem {
    Problem {
        event_id: id.to_string(),
        clock,
        last_change,
        name: format!("incident {id}"),
        severity,
        acknowledged: ack,
    }
}

fn host(name: &str) -> Option<HostMeta> {
    Some(HostMeta {
        host: Some(name.to_lowercase()),
        display_name: name.to_string(),
        status: Some(0),
    })
}

fn drain(rx: &async_channel::Receiver<NotificationItem>) -> Vec<NotificationItem> {
    let mut items = Vec::new();
    while let Ok(item) = rx.try_recv() {
        items.push(item);
    }
    items
}

fn wire_row(id: &str, clock: &str, lastchange: &str, severity: &str, name: &str, acknowledged: &str) -> RawProblem {
    let text = |s: &str| JsonScalar::Text(s.to_string());
    RawProblem {
        event_id: id.to_string(),
        clock: deserialize_i64(&text(clock)).unwrap(),
        last_change: deserialize_opt_i64(&text(lastchange)).unwrap(),
        severity: deserialize_u8(&text(severity)).unwrap(),
        name: name.to_string(),
        acknowledged: deserialize_bool(&text(acknowledged)),
    }
}

#[test]
fn poll_once_skips_duplicate_events() {
    let problems = decode_problems(vec![
        wire_row("77", "1700000000", "1700000001", "3", "Duplicate", "0"),
        wire_row("77", "1700000000", "1700000001", "3", "Duplicate", "0"),
    ])
    .unwrap();
    let hosts = vec![host("Srv"), host("Srv")];
    let (tx, rx) = async_channel::bounded::<NotificationItem>(4);
    let mut dedup = DedupCache::new(8);
    let mut bucket = LeakyBucket::new(10, 60_000);
    let out = process_cycle(&problems, &hosts, 10, true, None, &mut dedup, &mut bucket, 0, &tx);
    tx.close();
    let items = drain(&rx);
    assert_eq!(items.len(), 1);
    assert_eq!(items[0].problem.event_id, "77");
    assert_eq!(out.report.queued, vec![0]);
    assert!(!out.report.closed);
}

#[test]
fn severity_wins_over_recency_when_both_unacknowledged() {
    let cands = vec![
        Candidate { problem: problem("1", 100, 100, Severity::High, false), host: None },
        Candidate { problem: problem("2", 50, 50, Severity::Disaster, false), host: None },
    ];
    let ranked = rank(&cands);
    assert_eq!(ranked[0].problem.severity, Severity::Disaster);
    assert_eq!(ranked[1].problem.severity, Severity::High);
    assert_eq!(rank_order(&cands), vec![1, 0]);
}

#[test]
fn rank_puts_unacknowledged_first_then_recent_and_keeps_ties_stable() {
    let cands = vec![
        Candidate { problem: problem("a", 10, 10, Severity::Disaster, true), host: None },
        Candidate { problem: problem("b", 10, 10, Severity::Info, false), host: None },
        Candidate { problem: problem("c", 30, 30, Severity::Info, false), host: None },
        Candidate { problem: problem("d", 10, 10, Severity::Info, false), host: None },
    ];
    assert_eq!(rank_order(&cands), vec![2, 1, 3, 0]);
    let ranked = rank(&cands);
    let ids: Vec<&str> = ranked.iter().map(|c| c.problem.event_id.as_str()).collect();
    assert_eq!(ids, vec!["c", "b", "d", "a"]);
}

#[test]
fn selection_keeps_at_most_max_notif() {
    let cands: Vec<Candidate> = (0..7)
        .map(|i| Candidate { problem: problem(&i.to_string(), i, i, Severity::Warning, false), host: None })
        .collect();
    let kept = select_candidates(&cands, 3);
    assert_eq!(kept.len(), 3);
    let ids: Vec<&str> = kept.iter().map(|c| c.problem.event_id.as_str()).collect();
    assert_eq!(ids, vec!["6", "5", "4"]);
    assert_eq!(select_candidates(&cands, 100).len(), 7);
}

#[test]
fn cycle_never_queues_more_than_max_notif() {
    let problems: Vec<Problem> = (0..10).map(|i| problem(&i.to_string(), i, i, Severity::High, false)).collect();
    let hosts: Vec<Option<HostMeta>> = (0..10).map(|_| None).collect();
    let (tx, rx) = async_channel::bounded::<NotificationItem>(64);
    let mut dedup = DedupCache::new(64);
    let mut bucket = LeakyBucket::new(100, 60_000);
    let out = process_cycle(&problems, &hosts, 4, false, None, &mut dedup, &mut bucket, 0, &tx);
    assert_eq!(out.selected.len(), 4);
    assert_eq!(drain(&rx).len(), 4);
}

#[test]
fn duplicate_is_suppressed_in_a_later_cycle_but_a_changed_incident_is_not() {
    let (tx, rx) = async_channel::bounded::<NotificationItem>(8);
    let mut dedup = DedupCache::new(8);
    let mut bucket = LeakyBucket::new(10, 60_000);
    let first = vec![problem("5", 100, 101, Severity::High, false)];
    let hosts = vec![None];
    process_cycle(&first, &hosts, 10, false, None, &mut dedup, &mut bucket, 0, &tx);
    assert_eq!(drain(&rx).len(), 1);
    process_cycle(&first, &hosts, 10, false, None, &mut dedup, &mut bucket, 10, &tx);
    assert_eq!(drain(&rx).len(), 0);
    let changed = vec![problem("5", 100, 202, Severity::High, false)];
    process_cycle(&changed, &hosts, 10, false, None, &mut dedup, &mut bucket, 20, &tx);
    assert_eq!(drain(&rx).len(), 1);
}

#[test]
fn acknowledged_incidents_follow_the_policy() {
    let mut dedup = DedupCache::new(4);
    let mut bucket = LeakyBucket::new(4, 1000);
    let acked = problem("9", 1, 1, Severity::High, true);
    assert_eq!(screen(&acked, false, &mut dedup, &mut bucket, 0), Verdict::SkipAcked);
    assert!(!dedup.contains(&"9".to_string(), 1));
    assert_eq!(screen(&acked, true, &mut dedup, &mut bucket, 0), Verdict::Pass);
    assert!(dedup.contains(&"9".to_string(), 1));
    assert_eq!(screen(&acked, true, &mut dedup, &mut bucket, 0), Verdict::Duplicate);
}

#[test]
fn rate_limited_items_are_recorded_but_not_queued() {
    let ranked = vec![
        Candidate { problem: problem("1", 1, 1, Severity::High, false), host: None },
        Candidate { problem: problem("2", 1, 1, Severity::High, false), host: None },
    ];
    let (tx, rx) = async_channel::bounded::<NotificationItem>(8);
    let mut dedup = DedupCache::new(8);
    let mut bucket = LeakyBucket::new(1, 60_000);
    let report = dispatch(&ranked, false, None, &mut dedup, &mut bucket, 0, &tx);
    assert_eq!(report.queued, vec![0]);
    assert!(dedup.contains(&"2".to_string(), 1));
    assert_eq!(drain(&rx).len(), 1);
}

#[test]
fn full_queue_drops_and_closed_queue_stops() {
    let ranked: Vec<Candidate> = (0..3)
        .map(|i| Candidate { problem: problem(&i.to_string(), 1, 1, Severity::High, false), host: None })
        .collect();
    let (tx, rx) = async_channel::bounded::<NotificationItem>(1);
    let mut dedup = DedupCache::new(8);
    let mut bucket = LeakyBucket::new(10, 60_000);
    let report = dispatch(&ranked, false, None, &mut dedup, &mut bucket, 0, &tx);
    assert_eq!(report.queued, vec![0]);
    assert_eq!(report.attempted, vec![0, 1, 2]);
    assert_eq!(report.outcomes, vec![SendOutcome::Sent, SendOutcome::Full, SendOutcome::Full]);
    assert!(!report.closed);
    assert_eq!(drain(&rx).len(), 1);

    let more: Vec<Candidate> = (5..8)
        .map(|i| Candidate { problem: problem(&i.to_string(), 1, 1, Severity::High, false), host: None })
        .collect();
    tx.close();
    let report = dispatch(&more, false, None, &mut dedup, &mut bucket, 0, &tx);
    assert!(report.closed);
    assert!(report.queued.is_empty());
    assert_eq!(report.attempted, vec![0]);
    assert_eq!(report.outcomes, vec![SendOutcome::Closed]);
    assert!(dedup.contains(&"5".to_string(), 1));
    assert!(!dedup.contains(&"6".to_string(), 1));
}

#[test]
fn open_url_substitutes_event_id() {
    assert_eq!(
        make_open_url(Some("https://z/tr_events.php?eventid={eventid}&x={eventid}"), "42"),
        Some("https://z/tr_events.php?eventid=42&x=42".to_string())
    );
    assert_eq!(make_open_url(None, "42"), None);
    let problems = vec![problem("7", 1, 1, Severity::Info, false)];
    let (tx, rx) = async_channel::bounded::<NotificationItem>(2);
    let mut dedup = DedupCache::new(2);
    let mut bucket = LeakyBucket::new(2, 1000);
    process_cycle(&problems, &vec![host("Web")], 5, false, Some("u/{eventid}"), &mut dedup, &mut bucket, 0, &tx);
    let items = drain(&rx);
    assert_eq!(items[0].open_url.as_deref(), Some("u/7"));
    assert_eq!(items[0].host.as_ref().unwrap().display_name, "Web");
}

#[test]
fn dedup_cache_evicts_least_recent() {
    let mut cache = DedupCache::new(2);
    cache.insert("a".to_string(), 1);
    cache.insert("b".to_string(), 1);
    cache.insert("c".to_string(), 1);
    assert!(!cache.contains(&"a".to_string(), 1));
    assert!(cache.contains(&"b".to_string(), 1));
    assert!(cache.contains(&"c".to_string(), 1));
    assert!(!cache.contains(&"c".to_string(), 2));
}

#[test]
fn notification_item_carries_candidate_and_link() {
    let c = Candidate { problem: problem("31", 5, 6, Severity::Average, false), host: host("Db") };
    let item = notification_for(&c, Some("https://z/e?id={eventid}"));
    assert_eq!(item.problem.event_id, "31");
    assert_eq!(item.problem.last_change, 6);
    assert_eq!(item.host.as_ref().unwrap().display_name, "Db");
    assert_eq!(item.open_url.as_deref(), Some("https://z/e?id=31"));
    assert!(notification_for(&c, None).open_url.is_none());
}
