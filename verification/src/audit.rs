//! Signed audit events and attestations.
//!
//! An event is signed over the compact JSON of its fields (the payload itself travels as
//! canonical JSON text with its SHA-256 hash); an attestation records another node's
//! decision on an event. Times are whole seconds since the Unix epoch.
use vstd::prelude::*;
use crate::clock::{epoch_plus_secs, secs_since_epoch, system_clock_secs, system_time_now, system_time_secs, MAX_TIMESTAMP_SECS};
use crate::crypto::{
    ed25519_key_decodes, ed25519_key_is_valid, ed25519_strict_verifies, ed25519_verify_strict, hex_encode,
    hex_lower, sha256, sha256_digest,
};
use crate::json::{
    decimal, json_int, json_key, json_opt_int, json_opt_number, json_opt_string, json_string, push_decimal,
    push_i64, push_json_key, push_json_string, push_opt_decimal, push_opt_i64, push_opt_json_string, push_str,
    push_uuid, uuid_text,
};
use crate::models::{random_uuid, status_text, AuditAttestation, AuditEvent, PeerResult};
use crate::signing::{ed25519_signature_of, KeyPair};
use crate::text::{str_equal, string_from_chars, string_push};

verus! {

/// The decision an attestation records.
#[derive(Debug, Clone, Copy, PartialEq, Eq, Structural)]
pub enum AuditDecision {
    Accepted,
    Rejected,
    Observed,
}

/// The name of a decision.
pub open spec fn decision_text(d: AuditDecision) -> Seq<char> {
    match d {
        AuditDecision::Accepted => "accepted"@,
        AuditDecision::Rejected => "rejected"@,
        AuditDecision::Observed => "observed"@,
    }
}

impl AuditDecision {
    /// The lowercase name of the decision.
    pub fn as_str(self) -> (r: &'static str)
        ensures
            r@ == decision_text(self),
    {
        match self {
            AuditDecision::Accepted => "accepted",
            AuditDecision::Rejected => "rejected",
            AuditDecision::Observed => "observed",
        }
    }
}

/// Why signing or checking an audit record failed.
#[derive(Debug, Clone, Copy, PartialEq, Eq, Structural)]
pub enum AuditError {
    /// The actor id is not the signing key's public key.
    ActorKeyMismatch,
    /// The attestor id is not the signing key's public key.
    AttestorKeyMismatch,
    /// The stored public key is not 32 bytes long.
    InvalidPublicKeyLength,
    /// The stored signature is not 64 bytes long.
    InvalidSignatureLength,
    /// The stored public key is not a valid Ed25519 point.
    InvalidPublicKey,
}

/// Whole seconds since the Unix epoch of a point in time (0 before the epoch; counts past
/// the `i64` range wrap, as `as i64` does).
pub fn system_time_to_i64(time: std::time::SystemTime) -> (r: i64)
    ensures
        r == match system_time_secs(time) {
            Some(s) => s as i64,
            None => 0i64,
        },
{
    match secs_since_epoch(time) {
        Some(s) => s as i64,
        None => 0,
    }
}

/// The point in time `timestamp` seconds after the Unix epoch (negative timestamps give the
/// epoch). Timestamps after the year 9999 are not accepted: not every platform can hold them.
pub fn i64_to_system_time(timestamp: i64) -> (r: std::time::SystemTime)
    requires
        timestamp <= MAX_TIMESTAMP_SECS,
    ensures
        system_time_secs(r) == Some(if timestamp < 0 { 0u64 } else { timestamp as u64 }),
{
    let secs: u64 = if timestamp < 0 { 0 } else { timestamp as u64 };
    epoch_plus_secs(secs)
}

/// Reading back a point made from a timestamp gives the timestamp (0 for negative ones).
pub proof fn lemma_timestamp_round_trip(timestamp: i64, time: std::time::SystemTime)
    requires
        timestamp <= MAX_TIMESTAMP_SECS,
        system_time_secs(time) == Some(if timestamp < 0 { 0u64 } else { timestamp as u64 }),
    ensures
        (match system_time_secs(time) {
            Some(s) => s as i64,
            None => 0i64,
        }) == (if timestamp < 0 { 0i64 } else { timestamp }),
{
}

/// The schema version of signed events.
pub const SCHEMA_VERSION: i32 = 1;

/// What an event is about, before it is signed. The payload and context travel as
/// canonical JSON text.
#[derive(Debug)]
pub struct NewSignedEvent {
    pub event_type: String,
    pub actor_id: String,
    pub resource_type: String,
    pub resource_id: String,
    pub parent_event_id: Option<u128>,
    pub payload_json: String,
    pub capability_id: Option<String>,
    pub delegated_by: Option<String>,
    pub expires_at: Option<i64>,
    pub context_json: Option<String>,
}

/// A signed audit event.
#[derive(Debug)]
pub struct SignedEventEnvelope {
    pub event_id: u128,
    pub event_type: String,
    pub schema_version: i32,
    pub created_at: i64,
    pub actor_id: String,
    pub actor_public_key: Vec<u8>,
    pub resource_type: String,
    pub resource_id: String,
    pub parent_event_id: Option<u128>,
    pub payload_json: String,
    pub payload_hash: String,
    pub capability_id: Option<String>,
    pub delegated_by: Option<String>,
    pub expires_at: Option<i64>,
    pub context_json: Option<String>,
    pub signature: Vec<u8>,
}

/// The characters of an optional string.
pub open spec fn opt_view(o: Option<String>) -> Option<Seq<char>> {
    match o {
        Some(s) => Some(s@),
        None => None,
    }
}

/// An optional integer as a mathematical one.
pub open spec fn opt_int(o: Option<i64>) -> Option<int> {
    match o {
        Some(v) => Some(v as int),
        None => None,
    }
}

/// The text of an optional event id.
pub open spec fn opt_uuid_text(o: Option<u128>) -> Option<Seq<char>> {
    match o {
        Some(u) => Some(uuid_text(u)),
        None => None,
    }
}

/// The first part of an event's signing text: id, type, schema and time.
pub open spec fn event_text_head(e: SignedEventEnvelope) -> Seq<char> {
    seq!['{'] + json_key("event_id"@) + json_string(uuid_text(e.event_id)) + seq![','] + json_key(
        "event_type"@,
    ) + json_string(e.event_type@) + seq![','] + json_key("schema_version"@) + json_int(
        e.schema_version as int,
    ) + seq![','] + json_key("created_at"@) + json_int(e.created_at as int) + seq![',']
}

/// The middle part of an event's signing text: actor, resource and parent.
pub open spec fn event_text_middle(e: SignedEventEnvelope) -> Seq<char> {
    json_key("actor_id"@) + json_string(e.actor_id@) + seq![','] + json_key("actor_public_key_hex"@)
        + json_string(hex_lower(e.actor_public_key@)) + seq![','] + json_key("resource_type"@) + json_string(
        e.resource_type@,
    ) + seq![','] + json_key("resource_id"@) + json_string(e.resource_id@) + seq![','] + json_key(
        "parent_event_id"@,
    ) + json_opt_string(opt_uuid_text(e.parent_event_id)) + seq![',']
}

/// The fourth part of an event's signing text: payload and capability.
pub open spec fn event_text_payload(e: SignedEventEnvelope) -> Seq<char> {
    json_key("payload_json"@) + json_string(e.payload_json@) + seq![','] + json_key("payload_hash"@)
        + json_string(e.payload_hash@) + seq![','] + json_key("capability_id"@) + json_opt_string(
        opt_view(e.capability_id),
    ) + seq![',']
}

/// The last part of an event's signing text: delegation, expiry and context.
pub open spec fn event_text_tail(e: SignedEventEnvelope) -> Seq<char> {
    json_key("delegated_by"@) + json_opt_string(opt_view(e.delegated_by)) + seq![','] + json_key(
        "expires_at"@,
    ) + json_opt_int(opt_int(e.expires_at)) + seq![','] + json_key("context_json"@) + json_opt_string(
        opt_view(e.context_json),
    ) + seq!['}']
}

/// The compact JSON an event is signed over: every field but the signature, in declaration
/// order, with the public key in hex.
pub open spec fn event_signing_text(e: SignedEventEnvelope) -> Seq<char> {
    event_text_head(e) + event_text_middle(e) + event_text_payload(e) + event_text_tail(e)
}

/// The bytes an event is signed over.
pub open spec fn event_signing_bytes(e: SignedEventEnvelope) -> Seq<u8> {
    vstd::utf8::encode_utf8(event_signing_text(e))
}

/// The hash recorded for a payload: lowercase hex of the SHA-256 of its UTF-8 bytes.
pub open spec fn payload_hash_of(payload_json: Seq<char>) -> Seq<char> {
    hex_lower(sha256_digest(vstd::utf8::encode_utf8(payload_json)))
}

/// The outcome of checking an event: lengths first, then identity, schema and payload hash,
/// then the key, then the strict Ed25519 check over the signing bytes.
pub open spec fn event_verdict(e: SignedEventEnvelope) -> Result<bool, AuditError> {
    if e.actor_public_key@.len() != 32 {
        Err(AuditError::InvalidPublicKeyLength)
    } else if e.signature@.len() != 64 {
        Err(AuditError::InvalidSignatureLength)
    } else if e.actor_id@ != hex_lower(e.actor_public_key@) || e.schema_version != 1 {
        Ok(false)
    } else if payload_hash_of(e.payload_json@) != e.payload_hash@ {
        Ok(false)
    } else if !ed25519_key_decodes(e.actor_public_key@) {
        Err(AuditError::InvalidPublicKey)
    } else {
        Ok(ed25519_strict_verifies(e.actor_public_key@, event_signing_bytes(e), e.signature@))
    }
}

/// `e` is what signing `spec` with `keypair` makes, with id `event_id` at `created_at`.
pub open spec fn event_signed_from(
    e: SignedEventEnvelope,
    spec: NewSignedEvent,
    keypair: KeyPair,
    event_id: u128,
    created_at: i64,
) -> bool {
    &&& e.event_id == event_id
    &&& e.event_type@ == spec.event_type@
    &&& e.schema_version == 1
    &&& e.created_at == created_at
    &&& e.actor_id@ == spec.actor_id@
    &&& e.actor_public_key@ == keypair.public_spec()
    &&& e.resource_type@ == spec.resource_type@
    &&& e.resource_id@ == spec.resource_id@
    &&& e.parent_event_id == spec.parent_event_id
    &&& e.payload_json@ == spec.payload_json@
    &&& e.payload_hash@ == payload_hash_of(spec.payload_json@)
    &&& opt_view(e.capability_id) == opt_view(spec.capability_id)
    &&& opt_view(e.delegated_by) == opt_view(spec.delegated_by)
    &&& e.expires_at == spec.expires_at
    &&& opt_view(e.context_json) == opt_view(spec.context_json)
    &&& e.signature@ == ed25519_signature_of(keypair.secret_spec(), event_signing_bytes(e))
    &&& e.signature@.len() == 64
}

/// Copies a 32- or 64-byte prefix into an array.
fn to_array_32(v: &Vec<u8>) -> (r: [u8; 32])
    requires
        v@.len() == 32,
    ensures
        r@ == v@,
{
    let mut a: [u8; 32] = [0u8; 32];
    let mut i: usize = 0;
    while i < 32
        invariant
            i <= 32,
            v@.len() == 32,
            forall|m: int| 0 <= m < i ==> a@[m] == v@[m],
        decreases 32 - i,
    {
        a[i] = v[i];
        i = i + 1;
    }
    assert(a@ =~= v@);
    a
}

fn to_array_64(v: &Vec<u8>) -> (r: [u8; 64])
    requires
        v@.len() == 64,
    ensures
        r@ == v@,
{
    let mut a: [u8; 64] = [0u8; 64];
    let mut i: usize = 0;
    while i < 64
        invariant
            i <= 64,
            v@.len() == 64,
            forall|m: int| 0 <= m < i ==> a@[m] == v@[m],
        decreases 64 - i,
    {
        a[i] = v[i];
        i = i + 1;
    }
    assert(a@ =~= v@);
    a
}

/// A copy of an optional string.
fn copy_opt_string(o: &Option<String>) -> (r: Option<String>)
    ensures
        opt_view(r) == opt_view(*o),
{
    match o {
        Some(s) => Some(s.clone()),
        None => None,
    }
}

/// Lowercase hex of `bytes` as a string.
fn hex_string(bytes: &[u8]) -> (r: String)
    ensures
        r@ == hex_lower(bytes@),
{
    let h = hex_encode(bytes);
    string_from_chars(h.as_slice())
}

impl SignedEventEnvelope {
    fn push_head(&self, s: &mut String)
        ensures
            final(s)@ == old(s)@ + event_text_head(*self),
    {
        string_push(s, '{');
        push_json_key(s, "event_id");
        let mut id_text = String::new();
        push_uuid(&mut id_text, self.event_id);
        push_json_string(s, id_text.as_str());
        string_push(s, ',');
        push_json_key(s, "event_type");
        push_json_string(s, self.event_type.as_str());
        string_push(s, ',');
        push_json_key(s, "schema_version");
        push_i64(s, self.schema_version as i64);
        string_push(s, ',');
        push_json_key(s, "created_at");
        push_i64(s, self.created_at);
        string_push(s, ',');
        assert(s@ =~= old(s)@ + event_text_head(*self));
    }

    fn push_middle(&self, s: &mut String)
        ensures
            final(s)@ == old(s)@ + event_text_middle(*self),
    {
        push_json_key(s, "actor_id");
        push_json_string(s, self.actor_id.as_str());
        string_push(s, ',');
        push_json_key(s, "actor_public_key_hex");
        let key_hex = hex_string(self.actor_public_key.as_slice());
        push_json_string(s, key_hex.as_str());
        string_push(s, ',');
        push_json_key(s, "resource_type");
        push_json_string(s, self.resource_type.as_str());
        string_push(s, ',');
        push_json_key(s, "resource_id");
        push_json_string(s, self.resource_id.as_str());
        string_push(s, ',');
        push_json_key(s, "parent_event_id");
        match self.parent_event_id {
            Some(p) => {
                let mut t = String::new();
                push_uuid(&mut t, p);
                push_json_string(s, t.as_str());
            },
            None => push_str(s, "null"),
        }
        string_push(s, ',');
        assert(s@ =~= old(s)@ + event_text_middle(*self));
    }

    fn push_payload(&self, s: &mut String)
        ensures
            final(s)@ == old(s)@ + event_text_payload(*self),
    {
        push_json_key(s, "payload_json");
        push_json_string(s, self.payload_json.as_str());
        string_push(s, ',');
        push_json_key(s, "payload_hash");
        push_json_string(s, self.payload_hash.as_str());
        string_push(s, ',');
        push_json_key(s, "capability_id");
        push_opt_json_string(s, &self.capability_id);
        string_push(s, ',');
        assert(s@ =~= old(s)@ + event_text_payload(*self));
    }

    fn push_tail(&self, s: &mut String)
        ensures
            final(s)@ == old(s)@ + event_text_tail(*self),
    {
        push_json_key(s, "delegated_by");
        push_opt_json_string(s, &self.delegated_by);
        string_push(s, ',');
        push_json_key(s, "expires_at");
        push_opt_i64(s, self.expires_at);
        string_push(s, ',');
        push_json_key(s, "context_json");
        push_opt_json_string(s, &self.context_json);
        string_push(s, '}');
        assert(s@ =~= old(s)@ + event_text_tail(*self));
    }

    /// The bytes this event is signed over.
    pub fn signing_bytes(&self) -> (r: Vec<u8>)
        ensures
            r@ == event_signing_bytes(*self),
    {
        let mut s = String::new();
        self.push_head(&mut s);
        self.push_middle(&mut s);
        self.push_payload(&mut s);
        self.push_tail(&mut s);
        assert(s@ =~= event_signing_text(*self));
        s.as_str().as_bytes_vec()
    }

    /// Signs an event with id `event_id` created at `created_at`: the actor must be the
    /// signing key, the payload hash is computed, and the signature covers the signing bytes.
    pub fn sign_at(spec: NewSignedEvent, keypair: &KeyPair, event_id: u128, created_at: i64) -> (r: Result<
        SignedEventEnvelope,
        AuditError,
    >)
        requires
            keypair.wf(),
        ensures
            spec.actor_id@ != hex_lower(keypair.public_spec()) ==> r == Err::<SignedEventEnvelope, AuditError>(
                AuditError::ActorKeyMismatch,
            ),
            spec.actor_id@ == hex_lower(keypair.public_spec()) ==> (r matches Ok(e) && event_signed_from(
                e,
                spec,
                *keypair,
                event_id,
                created_at,
            )),
    {
        let own = keypair.public_key_hex();
        if !str_equal(spec.actor_id.as_str(), own.as_str()) {
            return Err(AuditError::ActorKeyMismatch);
        }
        let digest = sha256(spec.payload_json.as_str().as_bytes());
        let payload_hash = hex_string(digest.as_slice());
        let public = keypair.public_key_bytes();
        let mut key_vec: Vec<u8> = Vec::new();
        let mut i: usize = 0;
        while i < 32
            invariant
                i <= 32,
                key_vec@ =~= public@.take(i as int),
            decreases 32 - i,
        {
            key_vec.push(public[i]);
            i = i + 1;
        }
        assert(public@.take(32) =~= public@);
        let ghost spec_copy = spec;
        let mut event = SignedEventEnvelope {
            event_id,
            event_type: spec.event_type,
            schema_version: SCHEMA_VERSION,
            created_at,
            actor_id: spec.actor_id,
            actor_public_key: key_vec,
            resource_type: spec.resource_type,
            resource_id: spec.resource_id,
            parent_event_id: spec.parent_event_id,
            payload_json: spec.payload_json,
            payload_hash,
            capability_id: spec.capability_id,
            delegated_by: spec.delegated_by,
            expires_at: spec.expires_at,
            context_json: spec.context_json,
            signature: Vec::new(),
        };
        let message = event.signing_bytes();
        let signature = keypair.sign_bytes(message.as_slice());
        event.signature = signature;
        assert(event_signing_bytes(event) == message@);
        Ok(event)
    }

    /// Signs an event with a fresh random id at the current time.
    pub fn sign(spec: NewSignedEvent, keypair: &KeyPair) -> (r: Result<SignedEventEnvelope, AuditError>)
        requires
            keypair.wf(),
        ensures
            spec.actor_id@ != hex_lower(keypair.public_spec()) ==> r == Err::<SignedEventEnvelope, AuditError>(
                AuditError::ActorKeyMismatch,
            ),
            spec.actor_id@ == hex_lower(keypair.public_spec()) ==> (r matches Ok(e) && event_signed_from(
                e,
                spec,
                *keypair,
                e.event_id,
                e.created_at,
            )),
    {
        let event_id = random_uuid();
        let created_at = system_time_to_i64(system_time_now());
        SignedEventEnvelope::sign_at(spec, keypair, event_id, created_at)
    }

    /// Checks the event: the key and signature lengths, that the actor is the key and the
    /// schema current, that the payload hash matches, and the strict Ed25519 signature.
    pub fn verify(&self) -> (r: Result<bool, AuditError>)
        ensures
            r == event_verdict(*self),
    {
        if self.actor_public_key.len() != 32 {
            return Err(AuditError::InvalidPublicKeyLength);
        }
        if self.signature.len() != 64 {
            return Err(AuditError::InvalidSignatureLength);
        }
        let key_hex = hex_string(self.actor_public_key.as_slice());
        if !str_equal(self.actor_id.as_str(), key_hex.as_str()) || self.schema_version != SCHEMA_VERSION {
            return Ok(false);
        }
        let digest = sha256(self.payload_json.as_str().as_bytes());
        let expected = hex_string(digest.as_slice());
        if !str_equal(expected.as_str(), self.payload_hash.as_str()) {
            return Ok(false);
        }
        let key = to_array_32(&self.actor_public_key);
        if !ed25519_key_is_valid(&key) {
            return Err(AuditError::InvalidPublicKey);
        }
        let sig = to_array_64(&self.signature);
        let message = self.signing_bytes();
        Ok(ed25519_verify_strict(&key, message.as_slice(), &sig))
    }
}

/// What an attestation is about, before it is signed.
#[derive(Debug)]
pub struct NewAuditAttestation {
    pub subject_event_id: u128,
    pub attestor_id: String,
    pub decision: AuditDecision,
    pub reason: Option<String>,
}

/// A signed attestation of another event.
#[derive(Debug)]
pub struct SignedAuditAttestation {
    pub attestation_id: u128,
    pub subject_event_id: u128,
    pub attestor_id: String,
    pub attestor_public_key: Vec<u8>,
    pub decision: AuditDecision,
    pub reason: Option<String>,
    pub created_at: i64,
    pub signature: Vec<u8>,
}

/// The compact JSON an attestation is signed over.
pub open spec fn attestation_signing_text(a: SignedAuditAttestation) -> Seq<char> {
    seq!['{'] + json_key("attestation_id"@) + json_string(uuid_text(a.attestation_id)) + seq![','] + json_key(
        "subject_event_id"@,
    ) + json_string(uuid_text(a.subject_event_id)) + seq![','] + json_key("attestor_id"@) + json_string(
        a.attestor_id@,
    ) + seq![','] + json_key("attestor_public_key_hex"@) + json_string(hex_lower(a.attestor_public_key@))
        + seq![','] + json_key("decision"@) + json_string(decision_text(a.decision)) + seq![',']
        + json_key("reason"@) + json_opt_string(opt_view(a.reason)) + seq![','] + json_key("created_at"@)
        + json_int(a.created_at as int) + seq!['}']
}

/// The bytes an attestation is signed over.
pub open spec fn attestation_signing_bytes(a: SignedAuditAttestation) -> Seq<u8> {
    vstd::utf8::encode_utf8(attestation_signing_text(a))
}

/// The outcome of checking an attestation: the attestor must be the key, then the lengths
/// and the key are checked, then the strict Ed25519 signature.
pub open spec fn attestation_verdict(a: SignedAuditAttestation) -> Result<bool, AuditError> {
    if a.attestor_id@ != hex_lower(a.attestor_public_key@) {
        Ok(false)
    } else if a.attestor_public_key@.len() != 32 {
        Err(AuditError::InvalidPublicKeyLength)
    } else if a.signature@.len() != 64 {
        Err(AuditError::InvalidSignatureLength)
    } else if !ed25519_key_decodes(a.attestor_public_key@) {
        Err(AuditError::InvalidPublicKey)
    } else {
        Ok(ed25519_strict_verifies(a.attestor_public_key@, attestation_signing_bytes(a), a.signature@))
    }
}

/// `a` is what signing `spec` with `keypair` makes, with id `attestation_id` at `created_at`.
pub open spec fn attestation_signed_from(
    a: SignedAuditAttestation,
    spec: NewAuditAttestation,
    keypair: KeyPair,
    attestation_id: u128,
    created_at: i64,
) -> bool {
    &&& a.attestation_id == attestation_id
    &&& a.subject_event_id == spec.subject_event_id
    &&& a.attestor_id@ == spec.attestor_id@
    &&& a.attestor_public_key@ == keypair.public_spec()
    &&& a.decision == spec.decision
    &&& opt_view(a.reason) == opt_view(spec.reason)
    &&& a.created_at == created_at
    &&& a.signature@ == ed25519_signature_of(keypair.secret_spec(), attestation_signing_bytes(a))
    &&& a.signature@.len() == 64
}

impl SignedAuditAttestation {
    /// The bytes this attestation is signed over.
    pub fn signing_bytes(&self) -> (r: Vec<u8>)
        ensures
            r@ == attestation_signing_bytes(*self),
    {
        let mut s = String::new();
        string_push(&mut s, '{');
        push_json_key(&mut s, "attestation_id");
        let mut t1 = String::new();
        push_uuid(&mut t1, self.attestation_id);
        push_json_string(&mut s, t1.as_str());
        string_push(&mut s, ',');
        push_json_key(&mut s, "subject_event_id");
        let mut t2 = String::new();
        push_uuid(&mut t2, self.subject_event_id);
        push_json_string(&mut s, t2.as_str());
        string_push(&mut s, ',');
        push_json_key(&mut s, "attestor_id");
        push_json_string(&mut s, self.attestor_id.as_str());
        string_push(&mut s, ',');
        push_json_key(&mut s, "attestor_public_key_hex");
        let key_hex = hex_string(self.attestor_public_key.as_slice());
        push_json_string(&mut s, key_hex.as_str());
        string_push(&mut s, ',');
        push_json_key(&mut s, "decision");
        push_json_string(&mut s, self.decision.as_str());
        string_push(&mut s, ',');
        push_json_key(&mut s, "reason");
        push_opt_json_string(&mut s, &self.reason);
        string_push(&mut s, ',');
        push_json_key(&mut s, "created_at");
        push_i64(&mut s, self.created_at);
        string_push(&mut s, '}');
        assert(s@ =~= attestation_signing_text(*self));
        s.as_str().as_bytes_vec()
    }

    /// Signs an attestation with id `attestation_id` created at `created_at`; the attestor
    /// must be the signing key.
    pub fn sign_at(spec: NewAuditAttestation, keypair: &KeyPair, attestation_id: u128, created_at: i64) -> (r:
        Result<SignedAuditAttestation, AuditError>)
        requires
            keypair.wf(),
        ensures
            spec.attestor_id@ != hex_lower(keypair.public_spec()) ==> r == Err::<SignedAuditAttestation, AuditError>(
                AuditError::AttestorKeyMismatch,
            ),
            spec.attestor_id@ == hex_lower(keypair.public_spec()) ==> (r matches Ok(a) && attestation_signed_from(
                a,
                spec,
                *keypair,
                attestation_id,
                created_at,
            )),
    {
        let own = keypair.public_key_hex();
        if !str_equal(spec.attestor_id.as_str(), own.as_str()) {
            return Err(AuditError::AttestorKeyMismatch);
        }
        let public = keypair.public_key_bytes();
        let mut key_vec: Vec<u8> = Vec::new();
        let mut i: usize = 0;
        while i < 32
            invariant
                i <= 32,
                key_vec@ =~= public@.take(i as int),
            decreases 32 - i,
        {
            key_vec.push(public[i]);
            i = i + 1;
        }
        assert(public@.take(32) =~= public@);
        let mut a = SignedAuditAttestation {
            attestation_id,
            subject_event_id: spec.subject_event_id,
            attestor_id: spec.attestor_id,
            attestor_public_key: key_vec,
            decision: spec.decision,
            reason: spec.reason,
            created_at,
            signature: Vec::new(),
        };
        let message = a.signing_bytes();
        a.signature = keypair.sign_bytes(message.as_slice());
        assert(attestation_signing_bytes(a) == message@);
        Ok(a)
    }

    /// Signs an attestation with a fresh random id at the current time.
    pub fn sign(spec: NewAuditAttestation, keypair: &KeyPair) -> (r: Result<SignedAuditAttestation, AuditError>)
        requires
            keypair.wf(),
        ensures
            spec.attestor_id@ != hex_lower(keypair.public_spec()) ==> r == Err::<SignedAuditAttestation, AuditError>(
                AuditError::AttestorKeyMismatch,
            ),
            spec.attestor_id@ == hex_lower(keypair.public_spec()) ==> (r matches Ok(a) && attestation_signed_from(
                a,
                spec,
                *keypair,
                a.attestation_id,
                a.created_at,
            )),
    {
        let attestation_id = random_uuid();
        let created_at = system_time_to_i64(system_time_now());
        SignedAuditAttestation::sign_at(spec, keypair, attestation_id, created_at)
    }

    /// Checks the attestation: the attestor must be the key; then the lengths, the key and
    /// the strict Ed25519 signature.
    pub fn verify(&self) -> (r: Result<bool, AuditError>)
        ensures
            r == attestation_verdict(*self),
    {
        let key_hex = hex_string(self.attestor_public_key.as_slice());
        if !str_equal(self.attestor_id.as_str(), key_hex.as_str()) {
            return Ok(false);
        }
        if self.attestor_public_key.len() != 32 {
            return Err(AuditError::InvalidPublicKeyLength);
        }
        if self.signature.len() != 64 {
            return Err(AuditError::InvalidSignatureLength);
        }
        let key = to_array_32(&self.attestor_public_key);
        if !ed25519_key_is_valid(&key) {
            return Err(AuditError::InvalidPublicKey);
        }
        let sig = to_array_64(&self.signature);
        let message = self.signing_bytes();
        Ok(ed25519_verify_strict(&key, message.as_slice(), &sig))
    }
}

/// An event that `sign` made passes every check of `verify` but the last: the answer is the
/// strict Ed25519 check of the signature that the signing key made over the event's bytes.
pub proof fn lemma_signed_event_verifies(e: SignedEventEnvelope, spec: NewSignedEvent, keypair: KeyPair, event_id: u128, created_at: i64)
    requires
        keypair.wf(),
        spec.actor_id@ == hex_lower(keypair.public_spec()),
        event_signed_from(e, spec, keypair, event_id, created_at),
    ensures
        event_verdict(e) == Ok::<bool, AuditError>(ed25519_strict_verifies(
            keypair.public_spec(),
            event_signing_bytes(e),
            ed25519_signature_of(keypair.secret_spec(), event_signing_bytes(e)),
        )),
{
    keypair.lemma_wf_facts();
}

/// An attestation that `sign` made passes every check of `verify` but the last: the answer
/// is the strict Ed25519 check of the signature the signing key made over its bytes.
pub proof fn lemma_signed_attestation_verifies(
    a: SignedAuditAttestation,
    spec: NewAuditAttestation,
    keypair: KeyPair,
    attestation_id: u128,
    created_at: i64,
)
    requires
        keypair.wf(),
        spec.attestor_id@ == hex_lower(keypair.public_spec()),
        attestation_signed_from(a, spec, keypair, attestation_id, created_at),
    ensures
        attestation_verdict(a) == Ok::<bool, AuditError>(ed25519_strict_verifies(
            keypair.public_spec(),
            attestation_signing_bytes(a),
            ed25519_signature_of(keypair.secret_spec(), attestation_signing_bytes(a)),
        )),
{
    keypair.lemma_wf_facts();
}


impl SignedAuditAttestation {
    /// The attestation as a record for the attestation table, its decision by name.
    pub fn to_model(&self) -> (r: AuditAttestation)
        ensures
            r.id is None,
            r.attestation_uuid == self.attestation_id,
            r.subject_event_uuid == self.subject_event_id,
            r.attestor_id == self.attestor_id,
            r.attestor_public_key@ == self.attestor_public_key@,
            r.decision@ == decision_text(self.decision),
            r.reason == self.reason,
            r.created_at == self.created_at,
            r.signature@ == self.signature@,
    {
        let key = self.attestor_public_key.clone();
        assert(key@ =~= self.attestor_public_key@);
        let signature = self.signature.clone();
        assert(signature@ =~= self.signature@);
        AuditAttestation {
            id: None,
            attestation_uuid: self.attestation_id,
            subject_event_uuid: self.subject_event_id,
            attestor_id: self.attestor_id.clone(),
            attestor_public_key: key,
            decision: self.decision.as_str().to_owned(),
            reason: crate::models::copy_opt_string(&self.reason),
            created_at: self.created_at,
            signature,
        }
    }
}

/// `m` is the event-log record of `e`.
pub open spec fn event_model_of(m: AuditEvent, e: SignedEventEnvelope) -> bool {
    &&& m.id is None
    &&& m.event_uuid == e.event_id
    &&& m.event_type == e.event_type
    &&& m.schema_version == e.schema_version
    &&& m.created_at == e.created_at
    &&& m.actor_id == e.actor_id
    &&& m.actor_public_key == e.actor_public_key
    &&& m.resource_type == e.resource_type
    &&& m.resource_id == e.resource_id
    &&& m.parent_event_uuid == e.parent_event_id
    &&& m.payload_json == e.payload_json
    &&& m.payload_hash == e.payload_hash
    &&& m.capability_id == e.capability_id
    &&& m.delegated_by == e.delegated_by
    &&& m.expires_at == e.expires_at
    &&& m.context_json == e.context_json
    &&& m.signature == e.signature
}

/// The event as a record for the event log.
pub fn envelope_to_model(envelope: SignedEventEnvelope) -> (r: AuditEvent)
    ensures
        event_model_of(r, envelope),
{
    AuditEvent {
        id: None,
        event_uuid: envelope.event_id,
        event_type: envelope.event_type,
        schema_version: envelope.schema_version,
        created_at: envelope.created_at,
        actor_id: envelope.actor_id,
        actor_public_key: envelope.actor_public_key,
        resource_type: envelope.resource_type,
        resource_id: envelope.resource_id,
        parent_event_uuid: envelope.parent_event_id,
        payload_json: envelope.payload_json,
        payload_hash: envelope.payload_hash,
        capability_id: envelope.capability_id,
        delegated_by: envelope.delegated_by,
        expires_at: envelope.expires_at,
        context_json: envelope.context_json,
        signature: envelope.signature,
    }
}

/// How long a peer-result receipt stays valid: seven days, in seconds.
pub const RECEIPT_LIFETIME_SECONDS: i64 = 604800;

/// An optional `u64` as a natural number.
pub open spec fn opt_nat(o: Option<u64>) -> Option<nat> {
    match o {
        Some(v) => Some(v as nat),
        None => None,
    }
}

/// An optional `u16` as a natural number.
pub open spec fn opt_nat16(o: Option<u16>) -> Option<nat> {
    match o {
        Some(v) => Some(v as nat),
        None => None,
    }
}

/// The start of a receipt payload: keys `error_message` and `latency_ms`.
pub open spec fn receipt_payload_start(r: PeerResult) -> Seq<char> {
    seq!['{'] + json_key("error_message"@) + json_opt_string(opt_view(r.error_message)) + seq![',']
        + json_key("latency_ms"@) + json_opt_number(opt_nat(r.latency_ms)) + seq![',']
}

/// The peer part of a receipt payload: keys `monitor_uuid` to `peer_signature`.
pub open spec fn receipt_payload_peer(r: PeerResult) -> Seq<char> {
    json_key("monitor_uuid"@) + json_string(uuid_text(r.monitor_uuid)) + seq![','] + json_key("peer_id"@)
        + json_string(r.peer_id@) + seq![','] + json_key("peer_signature"@) + json_string(hex_lower(r.signature@))
        + seq![',']
}

/// The middle of a receipt payload: keys `source` to `status_code`.
pub open spec fn receipt_payload_middle(source: Seq<char>, r: PeerResult) -> Seq<char> {
    json_key("source"@) + json_string(source) + seq![','] + json_key("status"@) + json_string(
        status_text(r.status),
    ) + seq![','] + json_key("status_code"@) + json_opt_number(opt_nat16(r.status_code)) + seq![',']
}

/// The end of a receipt payload: keys `target` to `verified`.
pub open spec fn receipt_payload_end(r: PeerResult, target: Seq<char>) -> Seq<char> {
    json_key("target"@) + json_string(target) + seq![','] + json_key("timestamp"@) + json_int(r.timestamp as int)
        + seq![','] + json_key("verified"@) + (if r.verified {
        "true"@
    } else {
        "false"@
    }) + seq!['}']
}

/// The canonical JSON payload of a receipt for a peer's result: an object whose keys are
/// sorted, holding the source, the monitor, the target, the result's fields and the peer's
/// signature in hex.
pub open spec fn receipt_payload_text(source: Seq<char>, r: PeerResult, target: Seq<char>) -> Seq<char> {
    receipt_payload_start(r) + receipt_payload_peer(r) + receipt_payload_middle(source, r) + receipt_payload_end(r, target)
}

fn push_receipt_start(s: &mut String, result: &PeerResult)
    ensures
        final(s)@ == old(s)@ + receipt_payload_start(*result),
{
    string_push(s, '{');
    push_json_key(s, "error_message");
    push_opt_json_string(s, &result.error_message);
    string_push(s, ',');
    push_json_key(s, "latency_ms");
    push_opt_decimal(s, result.latency_ms);
    string_push(s, ',');
    assert(s@ =~= old(s)@ + receipt_payload_start(*result));
}

fn push_receipt_peer(s: &mut String, result: &PeerResult)
    ensures
        final(s)@ == old(s)@ + receipt_payload_peer(*result),
{
    let mut id_text = String::new();
    push_uuid(&mut id_text, result.monitor_uuid);
    assert(id_text@ =~= uuid_text(result.monitor_uuid));
    let sig_hex = hex_string(result.signature.as_slice());
    push_json_key(s, "monitor_uuid");
    push_json_string(s, id_text.as_str());
    string_push(s, ',');
    push_json_key(s, "peer_id");
    push_json_string(s, result.peer_id.as_str());
    string_push(s, ',');
    push_json_key(s, "peer_signature");
    push_json_string(s, sig_hex.as_str());
    string_push(s, ',');
    assert(s@ =~= old(s)@ + receipt_payload_peer(*result));
}

fn push_receipt_middle(s: &mut String, source: &str, result: &PeerResult)
    ensures
        final(s)@ == old(s)@ + receipt_payload_middle(source@, *result),
{
    push_json_key(s, "source");
    push_json_string(s, source);
    string_push(s, ',');
    push_json_key(s, "status");
    push_json_string(s, result.status.as_str());
    string_push(s, ',');
    push_json_key(s, "status_code");
    let code: Option<u64> = match result.status_code {
        Some(c) => Some(c as u64),
        None => None,
    };
    push_opt_decimal(s, code);
    string_push(s, ',');
    assert(s@ =~= old(s)@ + receipt_payload_middle(source@, *result));
}

fn push_receipt_end(s: &mut String, result: &PeerResult, target: &str)
    ensures
        final(s)@ == old(s)@ + receipt_payload_end(*result, target@),
{
    push_json_key(s, "target");
    push_json_string(s, target);
    string_push(s, ',');
    push_json_key(s, "timestamp");
    push_decimal(s, result.timestamp);
    string_push(s, ',');
    push_json_key(s, "verified");
    let ghost mid = s@;
    if result.verified {
        push_str(s, "true");
    } else {
        push_str(s, "false");
    }
    string_push(s, '}');
    assert(s@ =~= old(s)@ + receipt_payload_end(*result, target@));
}

/// The canonical JSON payload of a receipt for `result`.
pub fn receipt_payload(source: &str, result: &PeerResult, target: &str) -> (r: String)
    ensures
        r@ == receipt_payload_text(source@, *result, target@),
{
    let mut s = String::new();
    push_receipt_start(&mut s, result);
    push_receipt_peer(&mut s, result);
    push_receipt_middle(&mut s, source, result);
    push_receipt_end(&mut s, result, target);
    assert(s@ =~= receipt_payload_text(source@, *result, target@));
    s
}

/// `e` is the receipt event for `result` signed by `keypair` as `actor_id`, with id
/// `event_id`, created at `now` and expiring seven days later.
pub open spec fn receipt_event(
    e: SignedEventEnvelope,
    keypair: KeyPair,
    actor_id: Seq<char>,
    source: Seq<char>,
    result: PeerResult,
    target: Seq<char>,
    event_id: u128,
    now: i64,
) -> bool {
    &&& e.event_id == event_id
    &&& e.event_type@ == "peer.result_verified"@
    &&& e.schema_version == 1
    &&& e.created_at == now
    &&& e.actor_id@ == actor_id
    &&& e.actor_public_key@ == keypair.public_spec()
    &&& e.resource_type@ == "monitor"@
    &&& e.resource_id@ == uuid_text(result.monitor_uuid)
    &&& e.parent_event_id is None
    &&& e.payload_json@ == receipt_payload_text(source, result, target)
    &&& e.payload_hash@ == payload_hash_of(receipt_payload_text(source, result, target))
    &&& e.capability_id is None
    &&& e.delegated_by is None
    &&& e.expires_at == Some((now + RECEIPT_LIFETIME_SECONDS) as i64)
    &&& e.context_json is None
    &&& e.signature@ == ed25519_signature_of(keypair.secret_spec(), event_signing_bytes(e))
    &&& e.signature@.len() == 64
}

/// `a` is the attestation that accepts event `event_id` with reason "signature valid",
/// signed by `keypair` as `actor_id`, with id `attestation_id` at `now`.
pub open spec fn receipt_attestation(
    a: SignedAuditAttestation,
    keypair: KeyPair,
    actor_id: Seq<char>,
    event_id: u128,
    attestation_id: u128,
    now: i64,
) -> bool {
    &&& a.attestation_id == attestation_id
    &&& a.subject_event_id == event_id
    &&& a.attestor_id@ == actor_id
    &&& a.attestor_public_key@ == keypair.public_spec()
    &&& a.decision == AuditDecision::Accepted
    &&& opt_view(a.reason) == Some("signature valid"@)
    &&& a.created_at == now
    &&& a.signature@ == ed25519_signature_of(keypair.secret_spec(), attestation_signing_bytes(a))
    &&& a.signature@.len() == 64
}

/// Signs an expiring receipt for a verified peer result: an event holding the result and
/// an attestation accepting it, both signed by `keypair` as `actor_id`, with the given ids
/// at `now`. The receipt is the JSON object `{"attestation": .., "event": ..}` of the two.
pub fn peer_result_receipt_at(
    keypair: &KeyPair,
    actor_id: &str,
    source: &str,
    result: &PeerResult,
    target: &str,
    now: i64,
    event_id: u128,
    attestation_id: u128,
) -> (r: Result<(SignedEventEnvelope, SignedAuditAttestation), AuditError>)
    requires
        keypair.wf(),
        now <= i64::MAX - RECEIPT_LIFETIME_SECONDS,
    ensures
        actor_id@ != hex_lower(keypair.public_spec()) ==> r == Err::<
            (SignedEventEnvelope, SignedAuditAttestation),
            AuditError,
        >(AuditError::ActorKeyMismatch),
        actor_id@ == hex_lower(keypair.public_spec()) ==> (r matches Ok((e, a)) && receipt_event(
            e,
            *keypair,
            actor_id@,
            source@,
            *result,
            target@,
            event_id,
            now,
        ) && receipt_attestation(a, *keypair, actor_id@, event_id, attestation_id, now)),
{
    let mut resource_id = String::new();
    push_uuid(&mut resource_id, result.monitor_uuid);
    let spec = NewSignedEvent {
        event_type: "peer.result_verified".to_owned(),
        actor_id: actor_id.to_owned(),
        resource_type: "monitor".to_owned(),
        resource_id,
        parent_event_id: None,
        payload_json: receipt_payload(source, result, target),
        capability_id: None,
        delegated_by: None,
        expires_at: Some(now + RECEIPT_LIFETIME_SECONDS),
        context_json: None,
    };
    let envelope = match SignedEventEnvelope::sign_at(spec, keypair, event_id, now) {
        Ok(e) => e,
        Err(err) => {
            return Err(err);
        },
    };
    let attestation_spec = NewAuditAttestation {
        subject_event_id: envelope.event_id,
        attestor_id: actor_id.to_owned(),
        decision: AuditDecision::Accepted,
        reason: Some("signature valid".to_owned()),
    };
    let attestation = match SignedAuditAttestation::sign_at(attestation_spec, keypair, attestation_id, now) {
        Ok(a) => a,
        Err(err) => {
            return Err(err);
        },
    };
    Ok((envelope, attestation))
}

/// Signs a receipt for a verified peer result with fresh random ids at the current time
/// (the clock is read once; a clock past the `i64` range is taken as its end).
pub fn peer_result_receipt(keypair: &KeyPair, actor_id: &str, source: &str, result: &PeerResult, target: &str) -> (r:
    Result<(SignedEventEnvelope, SignedAuditAttestation), AuditError>)
    requires
        keypair.wf(),
    ensures
        actor_id@ != hex_lower(keypair.public_spec()) ==> r == Err::<
            (SignedEventEnvelope, SignedAuditAttestation),
            AuditError,
        >(AuditError::ActorKeyMismatch),
        actor_id@ == hex_lower(keypair.public_spec()) ==> (r matches Ok((e, a)) && receipt_event(
            e,
            *keypair,
            actor_id@,
            source@,
            *result,
            target@,
            e.event_id,
            e.created_at,
        ) && receipt_attestation(a, *keypair, actor_id@, e.event_id, a.attestation_id, e.created_at)),
{
    let clock = system_time_to_i64(system_time_now());
    let now: i64 = if clock > i64::MAX - RECEIPT_LIFETIME_SECONDS {
        i64::MAX - RECEIPT_LIFETIME_SECONDS
    } else {
        clock
    };
    let event_id = random_uuid();
    let attestation_id = random_uuid();
    peer_result_receipt_at(keypair, actor_id, source, result, target, now, event_id, attestation_id)
}

/// Both halves of a receipt that `peer_result_receipt_at` signed pass every check of
/// `verify` but the last, which is the strict Ed25519 check of the signing key's own
/// signature over their bytes.
pub proof fn lemma_receipt_verifies(
    e: SignedEventEnvelope,
    a: SignedAuditAttestation,
    keypair: KeyPair,
    source: Seq<char>,
    result: PeerResult,
    target: Seq<char>,
    event_id: u128,
    attestation_id: u128,
    now: i64,
)
    requires
        keypair.wf(),
        receipt_event(e, keypair, hex_lower(keypair.public_spec()), source, result, target, event_id, now),
        receipt_attestation(a, keypair, hex_lower(keypair.public_spec()), event_id, attestation_id, now),
    ensures
        event_verdict(e) == Ok::<bool, AuditError>(ed25519_strict_verifies(
            keypair.public_spec(),
            event_signing_bytes(e),
            ed25519_signature_of(keypair.secret_spec(), event_signing_bytes(e)),
        )),
        attestation_verdict(a) == Ok::<bool, AuditError>(ed25519_strict_verifies(
            keypair.public_spec(),
            attestation_signing_bytes(a),
            ed25519_signature_of(keypair.secret_spec(), attestation_signing_bytes(a)),
        )),
{
    keypair.lemma_wf_facts();
}

} // verus!
