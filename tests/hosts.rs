use alerting::hosts::{assemble_in_order, effective_concurrency, first_host_meta};
use alerting::model::{EventWithHosts, Host, HostMeta};

fn meta(name: &str) -> Option<HostMeta> {
    Some(HostMeta { host: None, display_name: name.to_string(), status: None })
}

#[test]
fn slots_keep_input_order_whatever_the_completion_order() {
    // inputs a, b, c; b's lookup completes last
    let done = vec![(0, meta("a")), (2, meta("c")), (1, meta("b"))];
    let out = assemble_in_order(3, &done);
    let names: Vec<String> = out.iter().map(|m| m.as_ref().unwrap().display_name.clone()).collect();
    assert_eq!(names, vec!["a", "b", "c"]);
}

#[test]
fn failed_or_missing_lookups_leave_empty_slots() {
    let done = vec![(1, None), (0, meta("x"))];
    let out = assemble_in_order(3, &done);
    assert_eq!(out.len(), 3);
    assert_eq!(out[0].as_ref().unwrap().display_name, "x");
    assert!(out[1].is_none());
    assert!(out[2].is_none());
    assert!(assemble_in_order(0, &vec![]).is_empty());
}

#[test]
fn concurrency_is_at_least_one() {
    assert_eq!(effective_concurrency(0), 1);
    assert_eq!(effective_concurrency(1), 1);
    assert_eq!(effective_concurrency(7), 7);
}

#[test]
fn host_meta_display_name_fallbacks() {
    let named = HostMeta::from_host(Host { host: Some("srv01".into()), name: Some("Server 01".into()), status: Some(0) });
    assert_eq!(named.display_name, "Server 01");
    assert_eq!(named.host.as_deref(), Some("srv01"));
    assert_eq!(named.status, Some(0));
    let keyed = HostMeta::from_host(Host { host: Some("srv02".into()), name: None, status: Some(1) });
    assert_eq!(keyed.display_name, "srv02");
    let bare = HostMeta::from_host(Host { host: None, name: None, status: None });
    assert_eq!(bare.display_name, "<unknown host>");
    let blank_name = HostMeta::from_host(Host { host: Some("srv03".into()), name: Some(String::new()), status: None });
    assert_eq!(blank_name.display_name, "srv03");
    let all_blank = HostMeta::from_host(Host { host: Some(String::new()), name: Some(String::new()), status: None });
    assert_eq!(all_blank.display_name, "<unknown host>");
}

#[test]
fn first_host_of_first_event_with_hosts() {
    let events = vec![
        EventWithHosts { hosts: vec![] },
        EventWithHosts {
            hosts: vec![
                Host { host: Some("srv".into()), name: Some("Srv".into()), status: Some(0) },
                Host { host: Some("other".into()), name: None, status: None },
            ],
        },
    ];
    let m = first_host_meta(&events).unwrap();
    assert_eq!(m.display_name, "Srv");
    assert!(first_host_meta(&vec![EventWithHosts { hosts: vec![] }]).is_none());
    assert!(first_host_meta(&vec![]).is_none());
}
