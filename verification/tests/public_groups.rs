use uppe::models::{Monitor, MonitorVisibility};
use uppe::public_groups::{
    announced_group_name, announcement_acted_on, check_gate, community_monitor_at, completion_domain, group_topic,
    initial_group_name, public_domains, vet_public_monitor, vote_payload, CheckGate, PublicGroupError,
};
use uppe::validation::ValidationError;

fn public(domain: Option<&str>, target: &str, interval: u64) -> Monitor {
    let mut m = Monitor::new_public_at(
        "Example".into(),
        target.into(),
        "https".into(),
        domain.unwrap_or("x").into(),
        "Example site".into(),
        1000,
    );
    m.public_domain = domain.map(|d| d.to_string());
    m.interval_seconds = interval;
    m
}

#[test]
fn private_monitors_have_no_group() {
    let m = Monitor::new_private_at("p".into(), "https://10.0.0.1".into(), "https".into(), 5, 1000);
    assert_eq!(vet_public_monitor(&m), Ok(None));
    assert!(matches!(check_gate(&m), CheckGate::Always));
    assert_eq!(completion_domain(&m), None);
}

#[test]
fn public_monitor_needs_domain() {
    let m = public(None, "https://example.com", 60);
    assert_eq!(vet_public_monitor(&m), Err(PublicGroupError::MissingDomain));
    assert!(matches!(check_gate(&m), CheckGate::Never));
    assert_eq!(completion_domain(&m), None);
}

#[test]
fn public_monitor_target_and_interval_are_validated() {
    let m = public(Some("example.com"), "https://127.0.0.1", 60);
    assert_eq!(vet_public_monitor(&m), Err(PublicGroupError::InvalidTarget(ValidationError::PrivateAddress)));
    let m = public(Some("example.com"), "https://example.com", 5);
    assert_eq!(
        vet_public_monitor(&m),
        Err(PublicGroupError::InvalidInterval(ValidationError::IntervalTooShort(5)))
    );
    let m = public(Some("example.com"), "https://example.com", 90_000);
    assert_eq!(
        vet_public_monitor(&m),
        Err(PublicGroupError::InvalidInterval(ValidationError::IntervalTooLong(90_000)))
    );
    let m = public(Some("example.com"), "https://example.com", 60);
    assert_eq!(vet_public_monitor(&m), Ok(Some("example.com".to_string())));
    match check_gate(&m) {
        CheckGate::Consensus(d) => assert_eq!(d, "example.com"),
        other => panic!("unexpected gate {:?}", other),
    }
    assert_eq!(completion_domain(&m), Some("example.com".to_string()));
}

#[test]
fn names_and_topics_follow_the_domain() {
    assert_eq!(group_topic("example.com"), "/uppe/public-monitors/example.com");
    assert_eq!(initial_group_name("example.com"), "Public Monitors - example.com");
    let m = public(Some("example.com"), "https://example.com", 60);
    assert_eq!(announced_group_name(&m, "example.com"), "Example site");
    let mut m = m;
    m.public_display_name = None;
    assert_eq!(announced_group_name(&m, "example.com"), "example.com");
}

#[test]
fn vote_payload_joins_with_colons() {
    assert_eq!(vote_payload("example.com", "{\"interval_seconds\":60}", 1700000000),
        "example.com:{\"interval_seconds\":60}:1700000000");
    assert_eq!(vote_payload("d", "s", -5), "d:s:-5");
}

#[test]
fn domains_are_grouped_once_each() {
    let monitors = vec![
        public(Some("a.com"), "https://a.com", 60),
        Monitor::new_private_at("p".into(), "https://b.com".into(), "https".into(), 5, 1000),
        public(Some("b.com"), "https://b.com", 60),
        public(Some("a.com"), "https://a.com/x", 60),
        public(None, "https://c.com", 60),
    ];
    assert_eq!(public_domains(&monitors), vec!["a.com".to_string(), "b.com".to_string()]);
    assert!(public_domains(&vec![]).is_empty());
}

#[test]
fn own_announcements_are_ignored() {
    assert!(announcement_acted_on(true, "peer-a", "peer-b"));
    assert!(!announcement_acted_on(true, "peer-a", "peer-a"));
    assert!(!announcement_acted_on(false, "peer-a", "peer-b"));
}

#[test]
fn community_monitor_copies_the_announcement() {
    let m = community_monitor_at("Example", "https://example.com".into(), "https".into(), "example.com".into(), 120, 77);
    assert_eq!(m.name, "Example (community)");
    assert_eq!(m.interval_seconds, 120);
    assert_eq!(m.visibility, MonitorVisibility::Public);
    assert_eq!(m.public_domain.as_deref(), Some("example.com"));
    assert_eq!(m.public_display_name.as_deref(), Some("Example"));
    assert_eq!(m.uuid, Monitor::uuid_for_public_domain("example.com"));
    assert_eq!(m.created_at, 77);
}

#[test]
fn public_uuid_is_the_v5_name_of_the_lowercased_domain() {
    let expected: u128 = 0x9358a745_3bf7_5960_8366_1bba5f7ccbc8;
    assert_eq!(Monitor::uuid_for_public_domain("example.com"), expected);
    assert_eq!(Monitor::uuid_for_public_domain("Example.COM/"), expected);
    assert_eq!(Monitor::uuid_for_public_domain("example.com//"), expected);
    assert_ne!(Monitor::uuid_for_public_domain("example.org"), expected);
}
