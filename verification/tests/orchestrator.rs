use uppe::messages::HelperAssignmentRequest;
use uppe::messages::PeerResult as ReceivedResult;
use uppe::models::CheckResult;
use uppe::signing::{generate_keypair, sign_result};
use uppe::models::{CheckType, Monitor, MonitorVisibility};
use uppe::monitoring::MonitorConfig;
use uppe::orchestrator::{
    accept_helper_result, accept_peer_result, decide_helper_request, interval_elapsed, monitor_accepts_peer_result,
    helper_response, peer_key_from_id, peer_observation, plan_reload, rejection_reason, route_local_result, HelperAssignmentInfo, HelperAssignments,
    HelperDecision, HelperRejection, LocalResultRoute, NameVotes, PeerTracker, ReconnectSchedule, TaskState,
};
use uppe::rate_limit::PrivateMonitorRateLimiter;
use uppe::messages::HelperAssignmentResponse;

fn request(uuid: &str, interval: u64, target: &str) -> HelperAssignmentRequest {
    HelperAssignmentRequest {
        monitor_uuid: uuid.into(),
        target: target.into(),
        check_type: "https".into(),
        interval_seconds: interval,
        timeout_seconds: 10,
        owner_peer_id: "owner".into(),
        owner_public_key: [1u8; 32],
        helper_peer_id: "me".into(),
        assigned_at: 0,
    }
}

fn cfg(id: u128, target: &str) -> MonitorConfig {
    MonitorConfig {
        id,
        target: target.into(),
        check_type: CheckType::Https,
        interval_seconds: 60,
        enabled: true,
        timeout_seconds: 10,
        allow_private_targets: false,
        phase_offset_secs: 0,
    }
}

#[test]
fn first_connection_starts_the_dht_sync_once() {
    let mut t = PeerTracker::new();
    assert!(t.should_redial(true));
    assert!(!t.should_redial(false));
    assert!(t.on_connected("a"));
    assert!(!t.on_connected("b"));
    assert_eq!(t.stats(), (2, 2));
    assert!(t.on_announced("a"));
    assert!(!t.on_announced("a"));
    assert!(!t.no_service_peers());
    assert!(!t.should_redial(true));
    t.on_disconnected("a");
    t.on_disconnected("b");
    assert_eq!(t.stats(), (2, 0));
    assert!(t.no_service_peers());
    // With no peers left, the next connection starts the sync again.
    assert!(t.on_connected("c"));
}

#[test]
fn redial_delays_back_off_then_settle() {
    let mut s = ReconnectSchedule::new();
    let delays: Vec<u64> = (0..6).map(|_| s.next_delay()).collect();
    assert_eq!(delays, vec![5, 10, 20, 30, 30, 30]);
}

#[test]
fn intervals_elapse() {
    assert!(interval_elapsed(100, 30, 130));
    assert!(!interval_elapsed(100, 30, 129));
    assert!(!interval_elapsed(100, 30, 50));
}

#[test]
fn display_names_need_a_clear_lead() {
    let mut v = NameVotes::new();
    assert_eq!(v.record_vote("example.com", "Example"), None);
    assert_eq!(v.record_vote("example.com", "Example"), Some("Example".to_string()));
    assert_eq!(v.record_vote("example.com", "Other"), None);
    assert_eq!(v.record_vote("example.com", "Example"), Some("Example".to_string()));
    // Votes of another domain do not count.
    assert_eq!(v.record_vote("other.com", "Example"), None);
}

#[test]
fn helper_requests_are_decided_in_order() {
    let uuid = "00000000-0000-0000-0000-000000000007";
    let mut a = HelperAssignments::new();
    let mut limiter = PrivateMonitorRateLimiter::new();
    let scheduled: Vec<u128> = vec![];
    let r = decide_helper_request(false, &request(uuid, 60, "https://x.com"), &scheduled, &mut a, &mut limiter, 0, 0);
    assert!(matches!(r, HelperDecision::Reject(HelperRejection::NotPermitted)));
    let r = decide_helper_request(true, &request(uuid, 5, "https://x.com"), &scheduled, &mut a, &mut limiter, 0, 0);
    assert!(matches!(r, HelperDecision::Reject(HelperRejection::NotPermitted)));
    let r = decide_helper_request(true, &request("not-a-uuid", 60, "https://x.com"), &scheduled, &mut a, &mut limiter, 0, 0);
    assert!(matches!(r, HelperDecision::Ignore));
    let r = decide_helper_request(true, &request(uuid, 60, "https://x.com"), &scheduled, &mut a, &mut limiter, 0, 1000);
    match r {
        HelperDecision::Accept(c) => {
            assert_eq!(c.id, 7);
            assert_eq!(c.interval_seconds, 60);
            assert_eq!(c.timeout_seconds, 10);
            assert!(!c.allow_private_targets);
        }
        other => panic!("unexpected {:?}", other),
    }
    assert!(a.contains(7));
    assert_eq!(a.count(), 1);
    assert_eq!(a.get(7).unwrap().expires_at, 1600);
    // Already scheduled here: not permitted.
    let r = decide_helper_request(true, &request(uuid, 60, "https://x.com"), &vec![7], &mut a, &mut limiter, 0, 0);
    assert!(matches!(r, HelperDecision::Reject(HelperRejection::NotPermitted)));
}

#[test]
fn helpers_stop_at_ten_assignments() {
    let mut a = HelperAssignments::new();
    for i in 1..=10u128 {
        a.insert(HelperAssignmentInfo { monitor_uuid: i, owner_peer_id: "o".into(), owner_public_key: [0; 32], expires_at: 50 });
    }
    let mut limiter = PrivateMonitorRateLimiter::new();
    let r = decide_helper_request(
        true,
        &request("00000000-0000-0000-0000-0000000000ff", 60, "https://x.com"),
        &vec![],
        &mut a,
        &mut limiter,
        0,
        0,
    );
    assert!(matches!(r, HelperDecision::Reject(HelperRejection::AtCapacity(10))));
    assert_eq!(rejection_reason(HelperRejection::AtCapacity(10)), "Helper at capacity (10/10)");
    assert_eq!(rejection_reason(HelperRejection::RateLimited), "Owner rate limit exceeded");
    assert_eq!(rejection_reason(HelperRejection::NotPermitted), "Remote check is not permitted");
    // Expired assignments are dropped.
    a.expire(50);
    assert_eq!(a.count(), 0);
}

#[test]
fn peer_results_must_be_verified_and_current() {
    assert!(accept_peer_result(true, 1000, 0, 1000, 0));
    assert!(!accept_peer_result(false, 1000, 0, 1000, 0));
    assert!(accept_peer_result(true, 700, 0, 1000, 0));
    assert!(!accept_peer_result(true, 699, 0, 1000, 0));
    assert!(accept_peer_result(true, 1030, 0, 1000, 0));
    assert!(!accept_peer_result(true, 1031, 0, 1000, 0));
    // Durations are exact: a fraction of a second past either bound is too much.
    assert!(!accept_peer_result(true, 1030, 1, 1000, 0));
    assert!(accept_peer_result(true, 1030, 500, 1000, 500));
    assert!(!accept_peer_result(true, 700, 0, 1000, 1));
    assert!(accept_peer_result(true, 700, 999_999_999, 1000, 999_999_999));
}

#[test]
fn peer_results_only_for_matching_public_monitors() {
    let m = Monitor::new_public_at("n".into(), "https://x.com".into(), "https".into(), "x.com".into(), "X".into(), 0);
    assert!(monitor_accepts_peer_result(&Some(m), "https://x.com"));
    let m = Monitor::new_public_at("n".into(), "https://x.com".into(), "https".into(), "x.com".into(), "X".into(), 0);
    assert!(!monitor_accepts_peer_result(&Some(m), "https://y.com"));
    let mut m = Monitor::new_private_at("n".into(), "https://x.com".into(), "https".into(), 1, 0);
    assert_eq!(m.visibility, MonitorVisibility::Private);
    assert!(!monitor_accepts_peer_result(&Some(m), "https://x.com"));
    m = Monitor::new_public_at("n".into(), "https://x.com".into(), "https".into(), "x.com".into(), "X".into(), 0);
    m.enabled = false;
    assert!(!monitor_accepts_peer_result(&Some(m), "https://x.com"));
    assert!(!monitor_accepts_peer_result(&None, "https://x.com"));
}

#[test]
fn peer_ids_decode_to_keys() {
    let hex = "ab".repeat(32);
    assert_eq!(peer_key_from_id(&hex), Some([0xab; 32]));
    assert_eq!(peer_key_from_id(&"ab".repeat(31)), None);
    assert_eq!(peer_key_from_id("zz"), None);
}

#[test]
fn helper_results_need_every_check() {
    assert!(accept_helper_result(true, 1, 1, "me", "me", true, true, 100, 0, 400, 0));
    assert!(!accept_helper_result(true, 1, 1, "me", "me", true, true, 99, 0, 400, 0));
    assert!(!accept_helper_result(false, 1, 1, "me", "me", true, true, 100, 0, 100, 0));
    assert!(!accept_helper_result(true, 1, 2, "me", "me", true, true, 100, 0, 100, 0));
    assert!(!accept_helper_result(true, 1, 1, "you", "me", true, true, 100, 0, 100, 0));
    assert!(!accept_helper_result(true, 1, 1, "me", "me", false, true, 100, 0, 100, 0));
    assert!(!accept_helper_result(true, 1, 1, "me", "me", true, false, 100, 0, 100, 0));
    assert!(!accept_helper_result(true, 1, 1, "me", "me", true, true, 101, 0, 100, 0));
    assert!(!accept_helper_result(true, 1, 1, "me", "me", true, true, 100, 1, 100, 0));
    assert!(!accept_helper_result(true, 1, 1, "me", "me", true, true, 100, 0, 400, 1));
}

#[test]
fn local_results_are_routed_by_visibility() {
    assert_eq!(route_local_result(true, true, Some(MonitorVisibility::Public)), LocalResultRoute::ToOwner);
    assert_eq!(route_local_result(false, true, Some(MonitorVisibility::Public)), LocalResultRoute::Store { share: true });
    assert_eq!(route_local_result(false, false, Some(MonitorVisibility::Public)), LocalResultRoute::Store { share: false });
    assert_eq!(route_local_result(false, true, Some(MonitorVisibility::Private)), LocalResultRoute::Store { share: false });
    assert_eq!(route_local_result(false, true, Some(MonitorVisibility::Internal)), LocalResultRoute::Store { share: false });
    assert_eq!(route_local_result(false, true, None), LocalResultRoute::Store { share: false });
}

#[test]
fn reload_starts_every_configured_monitor() {
    let running = vec![cfg(1, "https://a.com"), cfg(2, "https://b.com"), cfg(3, "https://c.com")];
    let tasks = vec![
        TaskState { id: 1, finished: false },
        TaskState { id: 2, finished: false },
        TaskState { id: 3, finished: true },
        TaskState { id: 9, finished: false },
    ];
    // 1 unchanged, 2 changed target, 3 finished, 4 new; 9 is a helper task.
    let new = vec![cfg(1, "https://a.com"), cfg(2, "https://b2.com"), cfg(3, "https://c.com"), cfg(4, "https://d.com")];
    let (stop, start) = plan_reload(&running, &tasks, &new, &vec![9]);
    assert_eq!(stop, vec![2, 3]);
    assert_eq!(start, vec![2, 3, 4]);
    // Removing a monitor stops its task.
    let (stop, start) = plan_reload(&running, &tasks[..1].to_vec(), &vec![], &vec![]);
    assert_eq!(stop, vec![1]);
    assert!(start.is_empty());
}

#[test]
fn helper_decisions_are_answered() {
    let req = request("00000000-0000-0000-0000-000000000007", 60, "https://x.com");
    assert!(helper_response(&HelperDecision::Ignore, &req, "me").is_none());
    match helper_response(&HelperDecision::Reject(HelperRejection::AtCapacity(10)), &req, "me") {
        Some(HelperAssignmentResponse::Rejected { monitor_uuid, reason }) => {
            assert_eq!(monitor_uuid, req.monitor_uuid);
            assert_eq!(reason, "Helper at capacity (10/10)");
        }
        other => panic!("unexpected {:?}", other),
    }
    match helper_response(&HelperDecision::Accept(cfg(7, "https://x.com")), &req, "me") {
        Some(HelperAssignmentResponse::Accepted { monitor_uuid, helper_peer_id }) => {
            assert_eq!(monitor_uuid, req.monitor_uuid);
            assert_eq!(helper_peer_id, "me");
        }
        other => panic!("unexpected {:?}", other),
    }
}

#[test]
fn peer_observations_need_signature_freshness_and_subscription() {
    let key = generate_keypair();
    let check = CheckResult::new_at(5, "https://x.com".into(), "https".into(), "signer".into(), 1000, 0).success(20, Some(200));
    let sig = sign_result(&check, &key).unwrap();
    let signed = check.with_signature(sig.clone());
    let received = ReceivedResult {
        result: signed,
        signature: Some(sig.clone()),
        public_key: Some(key.public_key_bytes().to_vec()),
        peer_id: "gossip-peer".into(),
        received_at: 1001,
    };
    let mut monitor = Monitor::new_public_at("n".into(), "https://x.com".into(), "https".into(), "x.com".into(), "X".into(), 0);
    monitor.uuid = 5;
    let local = Some(monitor);
    let obs = peer_observation(&received, &local, 1010, 0).unwrap();
    assert!(obs.verified);
    assert_eq!(obs.monitor_uuid, 5);
    assert_eq!(obs.signature, sig);
    assert_eq!(obs.source_peer_id.as_deref(), Some("gossip-peer"));
    assert_eq!(obs.created_at, 1001);
    // Stale, unsubscribed, or keyless results are not taken.
    assert!(peer_observation(&received, &local, 1400, 0).is_none());
    assert!(peer_observation(&received, &None, 1010, 0).is_none());
    let keyless = ReceivedResult { public_key: None, ..received };
    assert!(peer_observation(&keyless, &local, 1010, 0).is_none());
}
