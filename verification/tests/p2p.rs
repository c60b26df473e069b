use uppe::messages::PeerResult as ReceivedResult;
use uppe::models::{CheckResult, PeerResult};
use uppe::p2p::{dht_snapshot_due, gossip_kind, receive_gossip_result, GossipKind, P2PNetwork};
use uppe::signing::{generate_keypair, sign_result};
use uppe::messages::{DhtBucket, DhtPeerEntry};
use uppe::p2p::dht_snapshot;
use uppe::models::MonitorStatus;

#[test]
fn test_p2p_network_disabled() {
    let network = P2PNetwork::new("test-peer".to_string(), false);
    assert!(!network.is_enabled());
}

#[test]
fn test_p2p_network_enabled() {
    let network = P2PNetwork::new("test-peer".to_string(), true);
    assert!(network.is_enabled());
    assert_eq!(network.peer_id(), "test-peer");
}

#[test]
fn published_results_carry_the_configured_key() {
    let network = P2PNetwork::new("p".into(), true);
    assert_eq!(network.publish_key(), [0u8; 32]);
    let network = P2PNetwork::with_public_key("p".into(), true, [7u8; 32]);
    assert_eq!(network.publish_key(), [7u8; 32]);
}

#[test]
fn assignments_match_either_peer_id() {
    let network = P2PNetwork::new("app-id".into(), true);
    assert!(network.assignment_is_for_us("app-id", "12D3Koo"));
    assert!(network.assignment_is_for_us("12D3Koo", "12D3Koo"));
    assert!(!network.assignment_is_for_us("someone", "12D3Koo"));
}

#[test]
fn topics_classify_messages() {
    assert_eq!(gossip_kind("/uppe/helper-assignments/v1"), GossipKind::HelperAssignment);
    assert_eq!(gossip_kind("/uppe/private-results/abc"), GossipKind::PrivateResult);
    assert_eq!(gossip_kind("/uppe/private-results/"), GossipKind::PrivateResult);
    assert_eq!(gossip_kind("/uppe/results/v1"), GossipKind::PublicResult);
    assert_eq!(gossip_kind("/uppe/helper-assignments/v2"), GossipKind::PublicResult);
}

#[test]
fn snapshot_every_thirty_seconds() {
    assert!(!dht_snapshot_due(29));
    assert!(dht_snapshot_due(30));
}

#[test]
fn gossiped_results_need_a_valid_signature() {
    let key = generate_keypair();
    let check = CheckResult::new_at(9, "https://example.com".into(), "https".into(), "signer".into(), 100, 0)
        .success(12, Some(200));
    // Unsigned: dropped.
    assert!(receive_gossip_result(check, key.public_key_bytes(), "peer", 5).is_none());

    let check = CheckResult::new_at(9, "https://example.com".into(), "https".into(), "signer".into(), 100, 0)
        .success(12, Some(200));
    let sig = sign_result(&check, &key).unwrap();
    let signed = check.with_signature(sig.clone());
    let received = receive_gossip_result(signed, key.public_key_bytes(), "peer", 5).unwrap();
    assert_eq!(received.peer_id, "signer");
    assert_eq!(received.signature, Some(sig.clone()));
    assert_eq!(received.public_key, Some(key.public_key_bytes().to_vec()));
    assert_eq!(received.received_at, 5);

    // Another key: dropped.
    let other = generate_keypair();
    let check = CheckResult::new_at(9, "https://example.com".into(), "https".into(), "signer".into(), 100, 0)
        .success(12, Some(200))
        .with_signature(sig.clone());
    assert!(receive_gossip_result(check, other.public_key_bytes(), "peer", 5).is_none());

    // Tampered target: dropped.
    let check = CheckResult::new_at(9, "https://evil.example".into(), "https".into(), "signer".into(), 100, 0)
        .success(12, Some(200))
        .with_signature(sig);
    assert!(receive_gossip_result(check, key.public_key_bytes(), "peer", 5).is_none());
}

#[test]
fn received_results_become_unverified_peer_results() {
    let check = CheckResult::new_at(3, "t".into(), "http".into(), "signer".into(), 44, 0).failure("boom".into());
    let received = ReceivedResult {
        result: check,
        signature: None,
        public_key: None,
        peer_id: "sender".into(),
        received_at: 50,
    };
    assert!(PeerResult::from_p2p_result(&received).is_none());
    let received = ReceivedResult { signature: Some(vec![1, 2, 3]), ..received };
    let stored = PeerResult::from_p2p_result(&received).unwrap();
    assert_eq!(stored.monitor_uuid, 3);
    assert_eq!(stored.timestamp, 44);
    assert_eq!(stored.error_message.as_deref(), Some("boom"));
    assert_eq!(stored.peer_id, "signer");
    assert_eq!(stored.signature, vec![1, 2, 3]);
    assert!(!stored.verified);
    assert_eq!(stored.created_at, 50);
    assert_eq!(stored.source_peer_id.as_deref(), Some("sender"));
    assert_eq!(stored.retention_until, None);
}

#[test]
fn snapshots_keep_only_occupied_buckets() {
    let entry = |id: &str| DhtPeerEntry { peer_id: id.into(), addrs: vec![], state: None };
    let buckets = vec![
        DhtBucket { index: 0, peers: vec![] },
        DhtBucket { index: 3, peers: vec![entry("a")] },
        DhtBucket { index: 7, peers: vec![] },
        DhtBucket { index: 9, peers: vec![entry("b"), entry("c")] },
    ];
    let s = dht_snapshot("local".into(), buckets, 42);
    assert_eq!(s.local_peer_id, "local");
    assert_eq!(s.captured_at, 42);
    let idx: Vec<usize> = s.buckets.iter().map(|b| b.index).collect();
    assert_eq!(idx, vec![3, 9]);
    assert_eq!(s.buckets[1].peers.len(), 2);
}

#[test]
fn stored_status_names() {
    for s in [MonitorStatus::Up, MonitorStatus::Down, MonitorStatus::Degraded, MonitorStatus::Unknown] {
        assert_eq!(MonitorStatus::from_stored(s.as_str()), s);
    }
    assert_eq!(MonitorStatus::from_stored("UP"), MonitorStatus::Unknown);
    assert_eq!(MonitorStatus::from_stored(""), MonitorStatus::Unknown);
}
