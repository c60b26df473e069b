use uppe::audit::AuditError;
use uppe::audit_events::{
    admin_trust_event_at, admin_trust_payload, local_result_event, local_result_payload, monitor_event,
    monitor_event_at, monitor_event_type, monitor_payload,
};
use uppe::models::{CheckResult, Monitor};
use uppe::signing::generate_keypair;

const UUID_1: &str = "00000000-0000-0000-0000-000000000001";

fn monitor() -> Monitor {
    Monitor::new_private_at("svc".into(), "https://a.com".into(), "https".into(), 1, 0)
}

#[test]
fn monitor_actions_name_the_event() {
    assert_eq!(monitor_event_type("created"), "monitor.created");
    assert_eq!(monitor_event_type("updated"), "monitor.updated");
    assert_eq!(monitor_event_type("deleted"), "monitor.deleted");
    assert_eq!(monitor_event_type("renamed"), "monitor.updated");
}

#[test]
fn monitor_payload_has_sorted_keys() {
    let expected = format!(
        "{{\"action\":\"created\",\"check_type\":\"https\",\"enabled\":true,\"interval_seconds\":30,\
         \"monitor_uuid\":\"{}\",\"name\":\"svc\",\"owner_peer_id\":null,\"public_display_name\":null,\
         \"public_domain\":null,\"target\":\"https://a.com\",\"timeout_seconds\":10,\"visibility\":\"Private\"}}",
        UUID_1
    );
    assert_eq!(monitor_payload("created", &monitor()), expected);
}

#[test]
fn result_payload_has_sorted_keys() {
    let r = CheckResult::new_at(1, "https://a.com".into(), "https".into(), "me".into(), 1_700_000_000, 0)
        .degraded(1500, Some(200));
    let expected = format!(
        "{{\"check_type\":\"https\",\"error_message\":null,\"latency_ms\":1500,\"monitor_uuid\":\"{}\",\
         \"peer_id\":\"me\",\"source\":\"local_scheduler\",\"source_peer_id\":null,\"status\":\"degraded\",\
         \"status_code\":200,\"synced_from_peer\":null,\"target\":\"https://a.com\",\"timestamp\":1700000000,\
         \"verified\":null}}",
        UUID_1
    );
    assert_eq!(local_result_payload("local_scheduler", &r), expected);
}

#[test]
fn admin_trust_payload_has_sorted_keys() {
    assert_eq!(
        admin_trust_payload("rotated", "dht", 3, Some(2), 4, 1, 0),
        "{\"action\":\"rotated\",\"key_count\":4,\"previous_version\":2,\"revoked_key_count\":0,\
         \"rotation_count\":1,\"source\":\"dht\",\"version\":3}"
    );
    assert_eq!(
        admin_trust_payload("bootstrap", "https", 1, None, 1, 0, 0),
        "{\"action\":\"bootstrap\",\"key_count\":1,\"previous_version\":null,\"revoked_key_count\":0,\
         \"rotation_count\":0,\"source\":\"https\",\"version\":1}"
    );
}

#[test]
fn recorded_events_verify() {
    let key = generate_keypair();
    let e = monitor_event(&key, &key.public_key_hex(), "deleted", &monitor()).unwrap();
    assert_eq!(e.event_type, "monitor.deleted");
    assert_eq!(e.resource_type, "monitor");
    assert_eq!(e.resource_id, UUID_1);
    assert_eq!(e.payload_json, monitor_payload("deleted", &monitor()));
    assert!(e.verify().unwrap());

    let r = CheckResult::new_at(1, "https://a.com".into(), "https".into(), "me".into(), 5, 0).failure("down".into());
    let e = local_result_event(&key, &key.public_key_hex(), "local_scheduler", &r).unwrap();
    assert_eq!(e.event_type, "monitor.result_recorded");
    assert!(e.verify().unwrap());

    let e = admin_trust_event_at(&key, &key.public_key_hex(), "rotated", "dht", 3, Some(2), 4, 1, 0, 11, 22).unwrap();
    assert_eq!(e.event_id, 11);
    assert_eq!(e.created_at, 22);
    assert_eq!(e.resource_type, "admin_trust_chain");
    assert_eq!(e.resource_id, "global");
    assert!(e.verify().unwrap());
}

#[test]
fn events_for_another_actor_are_refused() {
    let key = generate_keypair();
    assert_eq!(monitor_event_at(&key, "other", "created", &monitor(), 1, 2).err(), Some(AuditError::ActorKeyMismatch));
}
