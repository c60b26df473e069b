use uppe::audit::{peer_result_receipt, peer_result_receipt_at, receipt_payload, AuditDecision, AuditError};
use uppe::models::{CheckResult, MonitorStatus, PeerResult};
use uppe::peer_storage::{
    outcome_after_lookup, precheck, retention_deadline, SaveOutcome, MAX_PER_PEER, MAX_RESULTS, RETENTION_SECONDS,
};
use uppe::signing::{generate_keypair, sign_result};

const NOW: i64 = 1_700_000_000;

fn signed_result(timestamp: u64) -> (PeerResult, String) {
    let key = generate_keypair();
    let check = CheckResult::new_at(
        0x0123_4567_89ab_cdef_0123_4567_89ab_cdef,
        "https://example.invalid".into(),
        "http".into(),
        key.public_key_hex(),
        timestamp, 0,
    )
    .success(10, Some(200));
    let signature = sign_result(&check, &key).unwrap();
    let result = PeerResult {
        id: None,
        monitor_uuid: check.monitor_id,
        timestamp: check.timestamp,
        status: check.status,
        latency_ms: check.latency_ms,
        status_code: check.status_code,
        error_message: None,
        peer_id: check.peer_id.clone(),
        signature,
        verified: true,
        created_at: timestamp,
        city: None,
        country: None,
        region: None,
        source_peer_id: None,
        synced_from_peer: false,
        retention_until: None,
    };
    (result, key.public_key_hex())
}

#[test]
fn budgets_are_the_documented_ones() {
    assert_eq!(MAX_RESULTS, 20_000);
    assert_eq!(MAX_PER_PEER, 1_000);
    assert_eq!(RETENTION_SECONDS, 604_800);
    assert_eq!(retention_deadline(NOW), NOW + 604_800);
}

#[test]
fn well_formed_result_passes_precheck() {
    let (result, _) = signed_result(NOW as u64);
    assert_eq!(precheck(&result, "https://example.invalid", "{}", NOW), Some(NOW));
}

#[test]
fn unverified_or_malformed_results_are_rejected() {
    let (mut result, _) = signed_result(NOW as u64);
    result.verified = false;
    assert_eq!(precheck(&result, "https://example.invalid", "{}", NOW), None);

    let (mut result, _) = signed_result(NOW as u64);
    result.signature.pop();
    assert_eq!(precheck(&result, "https://example.invalid", "{}", NOW), None);

    let (mut result, _) = signed_result(NOW as u64);
    result.peer_id.push('0');
    assert_eq!(precheck(&result, "https://example.invalid", "{}", NOW), None);
}

#[test]
fn oversized_fields_are_rejected() {
    let (mut result, _) = signed_result(NOW as u64);
    result.error_message = Some("x".repeat(512));
    assert_eq!(precheck(&result, "t", "{}", NOW), Some(NOW));
    result.error_message = Some("x".repeat(513));
    assert_eq!(precheck(&result, "t", "{}", NOW), None);

    let (mut result, _) = signed_result(NOW as u64);
    result.city = Some("c".repeat(129));
    assert_eq!(precheck(&result, "t", "{}", NOW), None);
    result.city = Some("c".repeat(128));
    result.source_peer_id = Some("p".repeat(129));
    assert_eq!(precheck(&result, "t", "{}", NOW), None);

    let (result, _) = signed_result(NOW as u64);
    assert_eq!(precheck(&result, &"t".repeat(2049), "{}", NOW), None);
    assert_eq!(precheck(&result, &"t".repeat(2048), "{}", NOW), Some(NOW));
    assert_eq!(precheck(&result, "t", "", NOW), None);
    assert_eq!(precheck(&result, "t", &"r".repeat(8193), NOW), None);
    assert_eq!(precheck(&result, "t", &"r".repeat(8192), NOW), Some(NOW));
}

#[test]
fn byte_length_counts_utf8_bytes() {
    let (mut result, _) = signed_result(NOW as u64);
    // 257 two-byte characters make 514 bytes.
    result.error_message = Some("é".repeat(257));
    assert_eq!(precheck(&result, "t", "{}", NOW), None);
    result.error_message = Some("é".repeat(256));
    assert_eq!(precheck(&result, "t", "{}", NOW), Some(NOW));
}

#[test]
fn timestamps_outside_the_clock_window_are_rejected() {
    let (result, _) = signed_result((NOW - 300) as u64);
    assert_eq!(precheck(&result, "t", "{}", NOW), Some(NOW - 300));
    let (result, _) = signed_result((NOW - 301) as u64);
    assert_eq!(precheck(&result, "t", "{}", NOW), None);
    let (result, _) = signed_result((NOW + 30) as u64);
    assert_eq!(precheck(&result, "t", "{}", NOW), Some(NOW + 30));
    let (result, _) = signed_result((NOW + 31) as u64);
    assert_eq!(precheck(&result, "t", "{}", NOW), None);
}

#[test]
fn store_answers_decide_the_outcome() {
    // Not subscribed here: rejected, whatever else holds.
    assert_eq!(outcome_after_lookup(false, false, false), SaveOutcome::Rejected);
    assert_eq!(outcome_after_lookup(false, true, true), SaveOutcome::Rejected);
    // A replay of a stored claim is a duplicate.
    assert_eq!(outcome_after_lookup(true, true, false), SaveOutcome::Duplicate);
    assert_eq!(outcome_after_lookup(true, true, true), SaveOutcome::Duplicate);
    // Too soon after the peer's last claim: rejected.
    assert_eq!(outcome_after_lookup(true, false, true), SaveOutcome::Rejected);
    assert_eq!(outcome_after_lookup(true, false, false), SaveOutcome::Inserted);
}

#[test]
fn receipt_payload_is_canonical_json() {
    let (mut result, _) = signed_result(NOW as u64);
    result.signature = vec![0xab; 64];
    result.peer_id = "peer".into();
    let payload = receipt_payload("test", &result, "https://example.invalid");
    let expected = format!(
        "{{\"error_message\":null,\"latency_ms\":10,\"monitor_uuid\":\"01234567-89ab-cdef-0123-456789abcdef\",\
         \"peer_id\":\"peer\",\"peer_signature\":\"{}\",\"source\":\"test\",\"status\":\"up\",\"status_code\":200,\
         \"target\":\"https://example.invalid\",\"timestamp\":{},\"verified\":true}}",
        "ab".repeat(64),
        NOW
    );
    assert_eq!(payload, expected);
}

#[test]
fn receipt_halves_verify() {
    let key = generate_keypair();
    let (result, _) = signed_result(NOW as u64);
    let (event, attestation) =
        peer_result_receipt(&key, &key.public_key_hex(), "test", &result, "https://example.invalid").unwrap();
    assert!(event.verify().unwrap());
    assert!(attestation.verify().unwrap());
    assert_eq!(event.event_type, "peer.result_verified");
    assert_eq!(event.resource_type, "monitor");
    assert_eq!(event.resource_id, "01234567-89ab-cdef-0123-456789abcdef");
    assert_eq!(event.expires_at, Some(event.created_at + 604_800));
    assert_eq!(attestation.subject_event_id, event.event_id);
    assert_eq!(attestation.decision, AuditDecision::Accepted);
    assert_eq!(attestation.reason.as_deref(), Some("signature valid"));
}

#[test]
fn receipt_at_fixes_ids_and_times() {
    let key = generate_keypair();
    let (result, _) = signed_result(NOW as u64);
    let (event, attestation) =
        peer_result_receipt_at(&key, &key.public_key_hex(), "src", &result, "t", NOW, 7, 9).unwrap();
    assert_eq!(event.event_id, 7);
    assert_eq!(event.created_at, NOW);
    assert_eq!(event.payload_json, receipt_payload("src", &result, "t"));
    assert_eq!(attestation.attestation_id, 9);
    assert_eq!(attestation.subject_event_id, 7);
    assert_eq!(attestation.created_at, NOW);
    assert!(event.verify().unwrap());
    assert!(attestation.verify().unwrap());
}

#[test]
fn receipt_for_another_actor_is_refused() {
    let key = generate_keypair();
    let (result, _) = signed_result(NOW as u64);
    assert_eq!(
        peer_result_receipt_at(&key, "someone-else", "src", &result, "t", NOW, 1, 2).err(),
        Some(AuditError::ActorKeyMismatch)
    );
}
