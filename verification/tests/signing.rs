use uppe::models::{CheckResult, MonitorStatus, PeerResult};
use uppe::signing::{generate_keypair, sign_result, signable_message, verify_result, KeyPair};

fn peer_result_from(check: &CheckResult, signature: Vec<u8>) -> PeerResult {
    PeerResult {
        id: None,
        monitor_uuid: check.monitor_id,
        timestamp: check.timestamp,
        status: check.status,
        latency_ms: check.latency_ms,
        status_code: check.status_code,
        error_message: None,
        peer_id: check.peer_id.clone(),
        signature,
        verified: false,
        created_at: 0,
        city: None,
        country: None,
        region: None,
        source_peer_id: None,
        synced_from_peer: false,
        retention_until: None,
    }
}

#[test]
fn test_sign_result() {
    let keypair = generate_keypair();
    let mut result = CheckResult::new(
        0x1234,
        "https://example.com".to_string(),
        "http".to_string(),
        "test-peer".to_string(),
    );
    result = result.success(100, Some(200));

    let signature = sign_result(&result, &keypair).unwrap();
    assert_eq!(signature.len(), 64);
}

#[test]
fn test_verify_result() {
    let keypair = generate_keypair();
    let monitor_id = 0xfeed_beef_u128;
    let target = "https://example.com".to_string();

    let mut check_result =
        CheckResult::new(monitor_id, target.clone(), "http".to_string(), "test-peer".to_string());
    check_result = check_result.success(100, Some(200));

    let signature = sign_result(&check_result, &keypair).unwrap();
    let peer_result = peer_result_from(&check_result, signature);

    let is_valid = verify_result(&peer_result, &keypair.public_key_bytes(), &target).unwrap();
    assert!(is_valid);
}

#[test]
fn test_verify_invalid_signature() {
    let keypair = generate_keypair();
    let check = CheckResult::new(7, "https://example.com".into(), "http".into(), "test-peer".into())
        .success(100, Some(200));
    let peer_result = peer_result_from(&check, vec![0u8; 64]); // Invalid signature

    let is_valid =
        verify_result(&peer_result, &keypair.public_key_bytes(), "https://example.com").unwrap();

    assert!(!is_valid);
}

#[test]
fn signed_message_is_compact_json() {
    let m = signable_message(
        0x0123_4567_89ab_cdef_0123_4567_89ab_cdef,
        "https://ex\"ample.com/\n",
        1700000000,
        MonitorStatus::Degraded,
        Some(42),
        None,
        "peer",
    );
    assert_eq!(
        String::from_utf8(m).unwrap(),
        "{\"monitor_id\":\"01234567-89ab-cdef-0123-456789abcdef\",\"target\":\"https://ex\\\"ample.com/\\n\",\"timestamp\":1700000000,\"status\":\"degraded\",\"latency_ms\":42,\"status_code\":null,\"peer_id\":\"peer\"}"
    );
}

#[test]
fn verification_fails_for_another_target_or_key() {
    let keypair = KeyPair::new([7u8; 32]);
    let other = KeyPair::new([9u8; 32]);
    let check = CheckResult::new(1, "https://a.example".into(), "https".into(), "p".into())
        .success(5, Some(204));
    let sig = sign_result(&check, &keypair).unwrap();
    let received = peer_result_from(&check, sig.clone());
    assert!(verify_result(&received, &keypair.public_key_bytes(), "https://a.example").unwrap());
    assert!(!verify_result(&received, &keypair.public_key_bytes(), "https://b.example").unwrap());
    assert!(!verify_result(&received, &other.public_key_bytes(), "https://a.example").unwrap());
    // a deterministic signature scheme signs the same result the same way
    assert_eq!(sign_result(&check, &keypair).unwrap(), sig);
    assert_eq!(keypair.public_key_hex().len(), 64);
}

#[test]
fn test_generate_keypair() {
    let keypair = generate_keypair();
    assert_eq!(keypair.public_key_bytes().len(), 32);
}
