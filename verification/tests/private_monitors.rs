use uppe::models::Monitor;
use uppe::private_monitors::{BatchLookup, PrivateError, PrivateMonitorOrchestrator, SyncAction};

const UUID_1: &str = "00000000-0000-0000-0000-000000000001";

fn private_monitor(owner: Option<&str>) -> Monitor {
    let mut m = Monitor::new_private_at("svc".into(), "https://internal.example.com".into(), "https".into(), 1, 0);
    m.owner_peer_id = owner.map(|o| o.to_string());
    m
}

fn peers(names: &[&str]) -> Vec<String> {
    names.iter().map(|s| s.to_string()).collect()
}

#[test]
fn test_private_orchestrator_creation() {
    let orchestrator = PrivateMonitorOrchestrator::new("me".into(), [3u8; 32]);
    assert_eq!(orchestrator.owner_pubkey(), [3u8; 32]);
    assert!(orchestrator.should_sync_owner_results_at(0));
}

#[test]
fn owner_sync_runs_every_twelve_hours() {
    let mut o = PrivateMonitorOrchestrator::new("me".into(), [0u8; 32]);
    assert!(o.should_sync_owner_results_at(1_000));
    o.mark_sync_completed_at(1_000);
    assert!(!o.should_sync_owner_results_at(1_000 + 43_200));
    assert!(o.should_sync_owner_results_at(1_000 + 43_201));
}

#[test]
fn batch_keys_and_sync_marks() {
    assert_eq!(PrivateMonitorOrchestrator::batch_key("m", 7), "m-7");
    assert_eq!(PrivateMonitorOrchestrator::dht_batch_key("m-7"), "uppe-private-results-m-7");
    let mut o = PrivateMonitorOrchestrator::new("me".into(), [0u8; 32]);
    assert!(!o.is_batch_synced("m-7"));
    o.mark_batch_synced("m-7", 5);
    assert!(o.is_batch_synced("m-7"));
    assert!(!o.is_batch_synced("m-8"));
}

#[test]
fn helpers_are_the_best_five_candidates() {
    assert_eq!(PrivateMonitorOrchestrator::helper_count(0), 0);
    assert_eq!(PrivateMonitorOrchestrator::helper_count(3), 3);
    assert_eq!(PrivateMonitorOrchestrator::helper_count(9), 5);
    let mut o = PrivateMonitorOrchestrator::new("me".into(), [0u8; 32]);
    let ranked = peers(&["a", "b", "c", "d", "e", "f", "g"]);
    let chosen = o.handle_new_monitor_at(&private_monitor(Some("me")), &ranked, 10).unwrap();
    assert_eq!(chosen, peers(&["a", "b", "c", "d", "e"]));
}

#[test]
fn only_private_monitors_with_owner_get_helpers() {
    let mut o = PrivateMonitorOrchestrator::new("me".into(), [0u8; 32]);
    let ranked = peers(&["a"]);
    assert_eq!(o.handle_new_monitor_at(&private_monitor(None), &ranked, 10), Err(PrivateError::MissingOwner));
    let public = Monitor::new_public_at("p".into(), "https://x.com".into(), "https".into(), "x.com".into(), "X".into(), 0);
    assert_eq!(o.handle_new_monitor_at(&public, &ranked, 10), Ok(vec![]));
    assert_eq!(o.handle_new_monitor_at(&private_monitor(Some("owner")), &vec![], 10), Ok(vec![]));
}

#[test]
fn candidates_exclude_the_owner() {
    let mut o = PrivateMonitorOrchestrator::new("me".into(), [0u8; 32]);
    o.handle_peer_connected("owner".into());
    o.handle_peer_connected("a".into());
    o.handle_peer_connected("a".into());
    o.handle_peer_connected("b".into());
    assert_eq!(o.helper_candidates("owner"), peers(&["a", "b"]));
    o.update_connected_peers(peers(&["c", "owner"]));
    assert_eq!(o.helper_candidates("owner"), peers(&["c"]));
}

#[test]
fn accepted_helpers_check_the_monitor() {
    let mut o = PrivateMonitorOrchestrator::new("me".into(), [0u8; 32]);
    let monitor = private_monitor(Some("owner"));
    assert!(!o.should_check_now(&monitor));
    o.handle_new_monitor_at(&monitor, &peers(&["me", "x"]), 10).unwrap();
    // Pending is not enough.
    assert!(!o.should_check_now(&monitor));
    o.handle_helper_accepted_at(UUID_1, "me", 12);
    assert!(o.should_check_now(&monitor));
    // The owner always checks its own monitor.
    let mine = private_monitor(Some("me"));
    let o2 = PrivateMonitorOrchestrator::new("me".into(), [0u8; 32]);
    assert!(o2.should_check_now(&mine));
}

#[test]
fn pending_assignments_time_out_after_thirty_seconds() {
    let mut o = PrivateMonitorOrchestrator::new("me".into(), [0u8; 32]);
    o.handle_new_monitor_at(&private_monitor(Some("owner")), &peers(&["a"]), 100).unwrap();
    assert!(o.check_pending_timeouts_at(130).is_empty());
    assert_eq!(o.check_pending_timeouts_at(131), vec![UUID_1.to_string()]);
    assert!(o.check_pending_timeouts_at(500).is_empty());
}

#[test]
fn disconnected_helper_triggers_rebalance() {
    let mut o = PrivateMonitorOrchestrator::new("me".into(), [0u8; 32]);
    o.handle_peer_connected("a".into());
    o.handle_new_monitor_at(&private_monitor(Some("owner")), &peers(&["a", "b"]), 100).unwrap();
    o.handle_helper_accepted_at(UUID_1, "a", 101);
    let needing = o.handle_peer_disconnected("a");
    assert_eq!(needing, vec![UUID_1.to_string()]);
    assert!(o.helper_candidates("owner").is_empty());
    // A second disconnect of the same peer changes nothing.
    assert!(o.handle_peer_disconnected("a").is_empty());
}

#[test]
fn stale_helpers_are_reported_with_their_monitors() {
    let mut o = PrivateMonitorOrchestrator::new("me".into(), [0u8; 32]);
    o.handle_new_monitor_at(&private_monitor(Some("owner")), &peers(&["a"]), 100).unwrap();
    o.handle_helper_accepted_at(UUID_1, "a", 100);
    o.handle_helper_result_at("a", 200);
    let (stale, monitors) = o.check_helper_health_at(260, 60);
    assert!(stale.is_empty());
    assert!(monitors.is_empty());
    let (stale, monitors) = o.check_helper_health_at(261, 60);
    assert_eq!(stale, peers(&["a"]));
    assert_eq!(monitors, vec![UUID_1.to_string()]);
    // The stale status is gone.
    let (stale, _) = o.check_helper_health_at(10_000, 60);
    assert!(stale.is_empty());
}

#[test]
fn rejected_helper_leaves_the_pending_list() {
    let mut o = PrivateMonitorOrchestrator::new("b".into(), [0u8; 32]);
    let monitor = private_monitor(Some("owner"));
    o.handle_new_monitor_at(&monitor, &peers(&["a", "b"]), 100).unwrap();
    o.handle_helper_rejected(UUID_1, "b");
    o.handle_helper_accepted_at(UUID_1, "a", 101);
    assert!(!o.should_check_now(&monitor));
    o.clear_assignment(UUID_1);
    assert!(!o.should_check_now(&monitor));
}

#[test]
fn helper_requests_carry_the_monitor_and_owner() {
    let o = PrivateMonitorOrchestrator::new("owner-id".into(), [9u8; 32]);
    let mut m = private_monitor(None);
    m.interval_seconds = 45;
    let r = o.helper_request("helper-1", &m, 123);
    assert_eq!(r.monitor_uuid, UUID_1);
    assert_eq!(r.target, "https://internal.example.com");
    assert_eq!(r.check_type, "https");
    assert_eq!(r.interval_seconds, 45);
    assert_eq!(r.timeout_seconds, 10);
    assert_eq!(r.owner_peer_id, "owner-id");
    assert_eq!(r.owner_public_key, [9u8; 32]);
    assert_eq!(r.helper_peer_id, "helper-1");
    assert_eq!(r.assigned_at, 123);
}

#[test]
fn unowned_private_monitors_are_claimed() {
    let o = PrivateMonitorOrchestrator::new("me".into(), [0u8; 32]);
    let mut m = private_monitor(None);
    assert!(o.claim_ownership(&mut m));
    assert_eq!(m.owner_peer_id.as_deref(), Some("me"));
    assert!(!o.claim_ownership(&mut m));
    let mut other = private_monitor(Some("someone"));
    assert!(!o.claim_ownership(&mut other));
    assert_eq!(other.owner_peer_id.as_deref(), Some("someone"));
}

fn lookup_key(action: SyncAction) -> Option<(String, String)> {
    match action {
        SyncAction::Lookup { batch_key, dht_key } => Some((batch_key, dht_key)),
        SyncAction::Finished => None,
    }
}

#[test]
fn test_owner_sync_with_empty_dht() {
    let mut o = PrivateMonitorOrchestrator::new("me".into(), [0u8; 32]);
    let mut sync = o.start_owner_sync();
    // No monitor has helpers: nothing to look up.
    assert!(lookup_key(o.next_sync_action(&mut sync)).is_none());
    o.mark_sync_completed_at(500);
    assert!(!o.should_sync_owner_results_at(500));
}

#[test]
fn owner_sync_walks_batches_until_one_is_missing() {
    let mut o = PrivateMonitorOrchestrator::new("me".into(), [0u8; 32]);
    o.handle_new_monitor_at(&private_monitor(Some("me")), &peers(&["h"]), 0).unwrap();
    o.handle_helper_accepted_at(UUID_1, "h", 0);
    let mut sync = o.start_owner_sync();
    let (key, dht) = lookup_key(o.next_sync_action(&mut sync)).unwrap();
    assert_eq!(key, format!("{}-0", UUID_1));
    assert_eq!(dht, format!("uppe-private-results-{}-0", UUID_1));
    o.record_batch_lookup(&mut sync, BatchLookup::Decrypted, 10);
    assert!(o.is_batch_synced(&key));
    let (key, _) = lookup_key(o.next_sync_action(&mut sync)).unwrap();
    assert_eq!(key, format!("{}-1", UUID_1));
    o.record_batch_lookup(&mut sync, BatchLookup::Failed, 11);
    assert!(!o.is_batch_synced(&key));
    let (key, _) = lookup_key(o.next_sync_action(&mut sync)).unwrap();
    assert_eq!(key, format!("{}-2", UUID_1));
    o.record_batch_lookup(&mut sync, BatchLookup::NotFound, 12);
    assert!(lookup_key(o.next_sync_action(&mut sync)).is_none());

    // A second sync passes over the batch already decrypted.
    let mut again = o.start_owner_sync();
    let (key, _) = lookup_key(o.next_sync_action(&mut again)).unwrap();
    assert_eq!(key, format!("{}-1", UUID_1));
}

#[test]
fn owner_sync_stops_after_the_batch_limit() {
    let mut o = PrivateMonitorOrchestrator::new("me".into(), [0u8; 32]);
    o.handle_new_monitor_at(&private_monitor(Some("me")), &peers(&["h"]), 0).unwrap();
    o.handle_helper_accepted_at(UUID_1, "h", 0);
    let mut sync = o.start_owner_sync();
    let mut lookups = 0;
    while let Some(_) = lookup_key(o.next_sync_action(&mut sync)) {
        o.record_batch_lookup(&mut sync, BatchLookup::Undecryptable, 1);
        lookups += 1;
    }
    assert_eq!(lookups, 100);
}
