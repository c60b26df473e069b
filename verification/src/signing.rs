//! Node keys, and the signing and verification of monitoring results.
//!
//! A result is signed over the compact JSON object
//! `{"monitor_id":..,"target":..,"timestamp":..,"status":..,"latency_ms":..,"status_code":..,"peer_id":..}`
//! so that any peer can check it against the signer's public key.
use vstd::prelude::*;
use crate::crypto::{ed25519_key_decodes, ed25519_key_is_valid, ed25519_signature_verifies, ed25519_verify, hex_encode, hex_lower};
use crate::json::{
    decimal, json_key, json_opt_number, json_string, push_decimal, push_json_key, push_json_string,
    push_opt_decimal, push_uuid, uuid_text,
};
use crate::models::{status_text, CheckResult, MonitorStatus, PeerResult};
use crate::text::{string_from_chars, string_push};
use ed25519_dalek::Signer;
use rand::RngCore;

verus! {

/// Why a signature could not be checked.
#[derive(Debug, Clone, Copy, PartialEq, Eq, Structural)]
pub enum CryptoError {
    /// The public key is not a valid Ed25519 point.
    InvalidPublicKey,
}

/// The Ed25519 public key that `ed25519_dalek::SigningKey::from_bytes(secret).verifying_key()`
/// derives from a 32-byte secret.
pub uninterp spec fn ed25519_public_key_of(secret: Seq<u8>) -> Seq<u8>;

/// The Ed25519 signature that `SigningKey::sign` makes over a message (deterministic).
pub uninterp spec fn ed25519_signature_of(secret: Seq<u8>, message: Seq<u8>) -> Seq<u8>;

/// Derives the public key of a secret with `ed25519_dalek`. Besides naming the result, the
/// contract states that a derived public key decodes as a verifying key, as the crate's
/// `VerifyingKey` invariant (a compressed point with its decompression) guarantees.
#[verifier::external_body]
fn derive_public_key(secret: &[u8; 32]) -> (r: [u8; 32])
    ensures
        r@ == ed25519_public_key_of(secret@),
        ed25519_key_decodes(r@),
{
    ed25519_dalek::SigningKey::from_bytes(secret).verifying_key().to_bytes()
}

/// Signs `message` with `ed25519_dalek::SigningKey::sign`. Besides naming the result, the
/// contract states Ed25519's correctness, which the crate documents: a signature made with a
/// signing key verifies under its verifying key.
#[verifier::external_body]
fn ed25519_sign(secret: &[u8; 32], message: &[u8]) -> (r: [u8; 64])
    ensures
        r@ == ed25519_signature_of(secret@, message@),
        ed25519_signature_verifies(ed25519_public_key_of(secret@), message@, r@),
{
    ed25519_dalek::SigningKey::from_bytes(secret).sign(message).to_bytes()
}

/// 32 random bytes from the operating system's generator (`rand::rngs::OsRng`).
/// Nothing is promised of the value.
#[verifier::external_body]
fn random_secret() -> (r: [u8; 32]) {
    let mut bytes = [0u8; 32];
    rand::rngs::OsRng.fill_bytes(&mut bytes);
    bytes
}

/// KeyPair for signing and verification.
#[derive(Debug)]
pub struct KeyPair {
    secret: [u8; 32],
    public: [u8; 32],
}

impl KeyPair {
    /// The secret (signing) key bytes.
    pub closed spec fn secret_spec(&self) -> Seq<u8> {
        self.secret@
    }

    /// The public (verifying) key bytes.
    pub closed spec fn public_spec(&self) -> Seq<u8> {
        self.public@
    }

    /// The public key belongs to the secret key.
    pub closed spec fn wf(&self) -> bool {
        &&& self.public@ == ed25519_public_key_of(self.secret@)
        &&& ed25519_key_decodes(self.public@)
        &&& self.secret@.len() == 32
        &&& self.public@.len() == 32
    }

    /// What a well-formed key pair guarantees: a 32-byte public key that decodes.
    pub proof fn lemma_wf_facts(&self)
        requires
            self.wf(),
        ensures
            self.public_spec().len() == 32,
            self.secret_spec().len() == 32,
            ed25519_key_decodes(self.public_spec()),
    {
    }

    /// Create a new keypair from a signing key's secret bytes.
    pub fn new(secret: [u8; 32]) -> (r: KeyPair)
        ensures
            r.wf(),
            r.secret_spec() == secret@,
            r.public_spec() == ed25519_public_key_of(secret@),
    {
        let public = derive_public_key(&secret);
        KeyPair { secret, public }
    }

    /// The secret key bytes (for persisting the key).
    pub fn secret_key_bytes(&self) -> (r: [u8; 32])
        ensures
            r@ == self.secret_spec(),
    {
        self.secret
    }

    /// Get the public key as bytes.
    pub fn public_key_bytes(&self) -> (r: [u8; 32])
        ensures
            r@ == self.public_spec(),
    {
        self.public
    }

    /// Get the public key as lowercase hex.
    pub fn public_key_hex(&self) -> (r: String)
        ensures
            r@ == hex_lower(self.public_spec()),
    {
        let h = hex_encode(&self.public);
        string_from_chars(h.as_slice())
    }

    /// Sign arbitrary bytes.
    pub fn sign_bytes(&self, message: &[u8]) -> (r: Vec<u8>)
        requires
            self.wf(),
        ensures
            r@ == ed25519_signature_of(self.secret_spec(), message@),
            ed25519_signature_verifies(self.public_spec(), message@, r@),
            r@.len() == 64,
    {
        let sig = ed25519_sign(&self.secret, message);
        let mut v: Vec<u8> = Vec::new();
        let mut i: usize = 0;
        while i < 64
            invariant
                i <= 64,
                v@ =~= sig@.take(i as int),
            decreases 64 - i,
        {
            v.push(sig[i]);
            i = i + 1;
        }
        assert(sig@.take(64) =~= sig@);
        v
    }
}

/// Generate a new Ed25519 keypair from random secret bytes.
pub fn generate_keypair() -> (r: KeyPair)
    ensures
        r.wf(),
{
    KeyPair::new(random_secret())
}

/// The text of the message that a result is signed over.
pub open spec fn signable_text(
    monitor_id: u128,
    target: Seq<char>,
    timestamp: u64,
    status: MonitorStatus,
    latency_ms: Option<u64>,
    status_code: Option<u16>,
    peer_id: Seq<char>,
) -> Seq<char> {
    seq!['{'] + json_key("monitor_id"@) + json_string(uuid_text(monitor_id)) + seq![','] + json_key(
        "target"@,
    ) + json_string(target) + seq![','] + json_key("timestamp"@) + decimal(timestamp as nat) + seq![
        ',',
    ] + json_key("status"@) + json_string(status_text(status)) + seq![','] + json_key(
        "latency_ms"@,
    ) + json_opt_number(
        match latency_ms {
            Some(v) => Some(v as nat),
            None => None,
        },
    ) + seq![','] + json_key("status_code"@) + json_opt_number(
        match status_code {
            Some(v) => Some(v as nat),
            None => None,
        },
    ) + seq![','] + json_key("peer_id"@) + json_string(peer_id) + seq!['}']
}

/// The bytes (UTF-8) of the message that a result is signed over.
pub open spec fn signable_bytes(
    monitor_id: u128,
    target: Seq<char>,
    timestamp: u64,
    status: MonitorStatus,
    latency_ms: Option<u64>,
    status_code: Option<u16>,
    peer_id: Seq<char>,
) -> Seq<u8> {
    vstd::utf8::encode_utf8(
        signable_text(monitor_id, target, timestamp, status, latency_ms, status_code, peer_id),
    )
}

/// The bytes that a check result is signed over.
pub open spec fn check_result_message(r: CheckResult) -> Seq<u8> {
    signable_bytes(r.monitor_id, r.target@, r.timestamp, r.status, r.latency_ms, r.status_code, r.peer_id@)
}

/// The bytes that a peer result is checked against, for the target it reports on.
pub open spec fn peer_result_message(r: PeerResult, target: Seq<char>) -> Seq<u8> {
    signable_bytes(r.monitor_uuid, target, r.timestamp, r.status, r.latency_ms, r.status_code, r.peer_id@)
}

/// Builds the signed message for the given fields.
pub fn signable_message(
    monitor_id: u128,
    target: &str,
    timestamp: u64,
    status: MonitorStatus,
    latency_ms: Option<u64>,
    status_code: Option<u16>,
    peer_id: &str,
) -> (r: Vec<u8>)
    ensures
        r@ == signable_bytes(monitor_id, target@, timestamp, status, latency_ms, status_code, peer_id@),
{
    let mut s = String::new();
    string_push(&mut s, '{');
    push_json_key(&mut s, "monitor_id");
    let mut id_text = String::new();
    push_uuid(&mut id_text, monitor_id);
    push_json_string(&mut s, id_text.as_str());
    string_push(&mut s, ',');
    push_json_key(&mut s, "target");
    push_json_string(&mut s, target);
    string_push(&mut s, ',');
    push_json_key(&mut s, "timestamp");
    push_decimal(&mut s, timestamp);
    string_push(&mut s, ',');
    push_json_key(&mut s, "status");
    push_json_string(&mut s, status.as_str());
    string_push(&mut s, ',');
    push_json_key(&mut s, "latency_ms");
    push_opt_decimal(&mut s, latency_ms);
    string_push(&mut s, ',');
    push_json_key(&mut s, "status_code");
    let code: Option<u64> = match status_code {
        Some(c) => Some(c as u64),
        None => None,
    };
    push_opt_decimal(&mut s, code);
    string_push(&mut s, ',');
    push_json_key(&mut s, "peer_id");
    push_json_string(&mut s, peer_id);
    string_push(&mut s, '}');
    assert(s@ =~= signable_text(monitor_id, target@, timestamp, status, latency_ms, status_code, peer_id@));
    s.as_str().as_bytes_vec()
}

/// Sign a monitoring result with the node's keypair.
pub fn sign_result(result: &CheckResult, keypair: &KeyPair) -> (r: Result<Vec<u8>, CryptoError>)
    requires
        keypair.wf(),
    ensures
        r matches Ok(sig) && sig@ == ed25519_signature_of(keypair.secret_spec(), check_result_message(*result))
            && sig@.len() == 64 && ed25519_signature_verifies(
            keypair.public_spec(),
            check_result_message(*result),
            sig@,
        ),
{
    let message = signable_message(
        result.monitor_id,
        result.target.as_str(),
        result.timestamp,
        result.status,
        result.latency_ms,
        result.status_code,
        result.peer_id.as_str(),
    );
    Ok(keypair.sign_bytes(message.as_slice()))
}

/// The outcome of verifying a peer result's signature under `public_key` for `target`.
pub open spec fn verify_result_verdict(result: PeerResult, public_key: Seq<u8>, target: Seq<char>) -> Result<
    bool,
    CryptoError,
> {
    if !ed25519_key_decodes(public_key) {
        Err(CryptoError::InvalidPublicKey)
    } else if result.signature@.len() != 64 {
        Ok(false)
    } else {
        Ok(ed25519_signature_verifies(public_key, peer_result_message(result, target), result.signature@))
    }
}

/// Verify a peer result signature.
pub fn verify_result(result: &PeerResult, public_key_bytes: &[u8; 32], target: &str) -> (r: Result<
    bool,
    CryptoError,
>)
    ensures
        r == verify_result_verdict(*result, public_key_bytes@, target@),
{
    if !ed25519_key_is_valid(public_key_bytes) {
        return Err(CryptoError::InvalidPublicKey);
    }
    if result.signature.len() != 64 {
        return Ok(false);
    }
    let mut sig: [u8; 64] = [0u8; 64];
    let mut i: usize = 0;
    while i < 64
        invariant
            i <= 64,
            result.signature@.len() == 64,
            forall|m: int| 0 <= m < i ==> sig@[m] == result.signature@[m],
        decreases 64 - i,
    {
        sig[i] = result.signature[i];
        i = i + 1;
    }
    assert(sig@ =~= result.signature@);
    let message = signable_message(
        result.monitor_uuid,
        target,
        result.timestamp,
        result.status,
        result.latency_ms,
        result.status_code,
        result.peer_id.as_str(),
    );
    Ok(ed25519_verify(public_key_bytes, message.as_slice(), &sig))
}

/// A signature that `sign_result` made for a check result verifies under the signer's
/// public key, once the result is received as a peer result carrying the same fields, that
/// signature, and the same target.
pub proof fn lemma_signed_result_verifies(check: CheckResult, keypair: KeyPair, received: PeerResult)
    requires
        keypair.wf(),
        received.signature@.len() == 64,
        ed25519_signature_verifies(keypair.public_spec(), check_result_message(check), received.signature@),
        received.monitor_uuid == check.monitor_id,
        received.timestamp == check.timestamp,
        received.status == check.status,
        received.latency_ms == check.latency_ms,
        received.status_code == check.status_code,
        received.peer_id@ == check.peer_id@,
    ensures
        verify_result_verdict(received, keypair.public_spec(), check.target@) == Ok::<bool, CryptoError>(true),
{
    assert(peer_result_message(received, check.target@) == check_result_message(check));
}

} // verus!
