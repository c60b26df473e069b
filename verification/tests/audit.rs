use uppe::audit::{
    i64_to_system_time, system_time_to_i64, AuditDecision, AuditError, NewAuditAttestation, NewSignedEvent,
    SignedAuditAttestation, SignedEventEnvelope,
};
use uppe::signing::generate_keypair;

fn event_spec(actor: String) -> NewSignedEvent {
    NewSignedEvent {
        event_type: "monitor.result.recorded".into(),
        actor_id: actor,
        resource_type: "monitor".into(),
        resource_id: "mon-1".into(),
        parent_event_id: None,
        payload_json: r#"{"monitor_id":"mon-1","status":"up"}"#.into(),
        capability_id: None,
        delegated_by: None,
        expires_at: None,
        context_json: None,
    }
}

#[test]
fn signed_event_round_trips_verification() {
    let keypair = generate_keypair();
    let event = SignedEventEnvelope::sign(event_spec(keypair.public_key_hex()), &keypair).unwrap();
    assert!(event.verify().unwrap());
}

#[test]
fn signed_attestation_round_trips_verification() {
    let keypair = generate_keypair();
    let attestation = SignedAuditAttestation::sign(
        NewAuditAttestation {
            subject_event_id: 0x1234,
            attestor_id: keypair.public_key_hex(),
            decision: AuditDecision::Accepted,
            reason: Some("signature valid".into()),
        },
        &keypair,
    )
    .unwrap();
    assert!(attestation.verify().unwrap());
}

#[test]
fn decision_names() {
    assert_eq!(AuditDecision::Accepted.as_str(), "accepted");
    assert_eq!(AuditDecision::Rejected.as_str(), "rejected");
    assert_eq!(AuditDecision::Observed.as_str(), "observed");
}

#[test]
fn events_are_signed_by_their_actor_only() {
    let keypair = generate_keypair();
    let err = SignedEventEnvelope::sign(event_spec("someone-else".into()), &keypair).unwrap_err();
    assert_eq!(err, AuditError::ActorKeyMismatch);
}

#[test]
fn tampering_is_detected() {
    let keypair = generate_keypair();
    let mut event = SignedEventEnvelope::sign_at(event_spec(keypair.public_key_hex()), &keypair, 7, 1_700_000_000).unwrap();
    assert!(event.verify().unwrap());
    event.payload_json = r#"{"monitor_id":"mon-1","status":"down"}"#.into();
    assert!(!event.verify().unwrap());
    let mut other = SignedEventEnvelope::sign_at(event_spec(keypair.public_key_hex()), &keypair, 7, 1_700_000_000).unwrap();
    other.resource_id = "mon-2".into();
    assert!(!other.verify().unwrap());
    other.signature.truncate(10);
    assert_eq!(other.verify().unwrap_err(), AuditError::InvalidSignatureLength);
}

#[test]
fn event_signing_bytes_are_compact_json() {
    let keypair = generate_keypair();
    let event = SignedEventEnvelope::sign_at(event_spec(keypair.public_key_hex()), &keypair, 1, -5).unwrap();
    let text = String::from_utf8(event.signing_bytes()).unwrap();
    assert!(text.starts_with(
        r#"{"event_id":"00000000-0000-0000-0000-000000000001","event_type":"monitor.result.recorded","schema_version":1,"created_at":-5,"#
    ));
    assert!(text.ends_with(r#""capability_id":null,"delegated_by":null,"expires_at":null,"context_json":null}"#));
    assert_eq!(event.payload_hash.len(), 64);
}

#[test]
fn times_convert_to_whole_seconds() {
    assert_eq!(system_time_to_i64(i64_to_system_time(1_700_000_000)), 1_700_000_000);
    assert_eq!(system_time_to_i64(i64_to_system_time(-10)), 0);
}
