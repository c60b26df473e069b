use std::time::{SystemTime, UNIX_EPOCH};
use base64::Engine;
use uppe::admin_trust::{
    AdminKey, AdminTrustChain, AdminTrustManager, KeyRotation, RevocationList, TrustError, MAX_KEY_LIFETIME_SECS,
};
use uppe::signing::{generate_keypair, KeyPair};

#[test]
fn test_trust_chain_empty() {
    let chain = AdminTrustChain::empty();
    assert_eq!(chain.current_keys.len(), 0);
    assert_eq!(chain.version, 0);
}

#[test]
fn test_key_expiry() {
    let mut key = AdminKey {
        public_key: "test".to_string(),
        valid_from: 0,
        valid_until: 1000,
        key_id: "test_id".to_string(),
        description: "Test".to_string(),
    };

    assert!(key.is_expired());

    let now = SystemTime::now().duration_since(UNIX_EPOCH).map(|d| d.as_secs()).unwrap_or(0);
    key.valid_from = now - 100;
    key.valid_until = now + 100;

    assert!(key.is_valid());
    assert!(!key.is_expired());
}

#[test]
fn key_validity_window_is_inclusive() {
    let key = AdminKey {
        public_key: "k".to_string(),
        valid_from: 100,
        valid_until: 200,
        key_id: "id".to_string(),
        description: "window".to_string(),
    };
    assert!(!key.is_valid_at(99));
    assert!(key.is_valid_at(100));
    assert!(key.is_valid_at(200));
    assert!(!key.is_valid_at(201));
    assert!(!key.is_expired_at(200));
    assert!(key.is_expired_at(201));
}

#[test]
fn test_bootstrap_status() {
    let chain = AdminTrustChain::empty();
    assert_eq!(chain.version, 0);
}

fn key(id: &str, public_key: &str, from: u64, until: u64) -> AdminKey {
    AdminKey {
        public_key: public_key.into(),
        valid_from: from,
        valid_until: until,
        key_id: id.into(),
        description: "test".into(),
    }
}

fn b64(kp: &KeyPair) -> String {
    base64::engine::general_purpose::STANDARD.encode(kp.public_key_bytes())
}

fn admin(id: &str, kp: &KeyPair, from: u64, until: u64) -> AdminKey {
    key(id, &b64(kp), from, until)
}

fn rotation(new_key: AdminKey, signer: &str, by: &KeyPair) -> KeyRotation {
    let signature = by.sign_bytes(new_key.signing_text().as_bytes());
    KeyRotation { new_key, signed_by_key_id: signer.into(), signature, rotated_at: 5, reason: "r".into() }
}

fn chain_with(keys: Vec<AdminKey>) -> AdminTrustChain {
    let mut c = AdminTrustChain::empty_at(0);
    c.current_keys = keys;
    c
}

#[test]
fn key_ids_are_sixteen_hex_digits_of_sha256() {
    // SHA-256("abc") = ba7816bf8f01cfea...
    assert_eq!(AdminKey::compute_key_id("abc"), "ba7816bf8f01cfea");
}

#[test]
fn key_signing_text_is_its_json() {
    let k = key("id", "pk", 1, 2);
    assert_eq!(
        k.signing_text(),
        r#"{"public_key":"pk","valid_from":1,"valid_until":2,"key_id":"id","description":"test"}"#
    );
    let mut crl = RevocationList::empty(7);
    crl.revoked_keys.push("a".into());
    crl.revocation_reasons.push(("a".into(), "lost".into()));
    crl.revoked_at.push(("a".into(), 6));
    crl.signed_by_key_id = "root".into();
    crl.version = 2;
    assert_eq!(
        crl.signing_text(),
        r#"{"revoked_keys":["a"],"revocation_reasons":{"a":"lost"},"revoked_at":{"a":6},"signed_by_key_id":"root","version":2,"issued_at":7}"#
    );
}

#[test]
fn chains_verify_rotations_in_order() {
    let root = generate_keypair();
    let next = generate_keypair();
    assert_eq!(AdminTrustChain::empty_at(0).verify(), Ok(false));
    let mut c = chain_with(vec![admin("root", &root, 0, 100)]);
    assert_eq!(c.verify(), Ok(true));
    c.rotations.push(rotation(admin("next", &next, 0, 100), "root", &root));
    c.current_keys.push(admin("next", &next, 0, 100));
    assert_eq!(c.verify(), Ok(true));
    let mut bad = chain_with(vec![admin("root", &root, 0, 100)]);
    bad.rotations.push(rotation(admin("next", &next, 0, 100), "stranger", &root));
    assert_eq!(bad.verify(), Err(TrustError::UnknownRotationSigner));
    let mut short = chain_with(vec![admin("root", &root, 0, 100)]);
    let mut r = rotation(admin("next", &next, 0, 100), "root", &root);
    r.signature.truncate(10);
    short.rotations.push(r);
    assert_eq!(short.verify(), Ok(false));
    // Any 64 bytes are not enough: the signature must be the signer's.
    let mut forged = chain_with(vec![admin("root", &root, 0, 100)]);
    let mut r = rotation(admin("next", &next, 0, 100), "root", &root);
    r.signature = vec![1u8; 64];
    forged.rotations.push(r);
    assert_eq!(forged.verify(), Ok(false));
    // Signed by another key than the one named.
    let mut wrong = chain_with(vec![admin("root", &root, 0, 100)]);
    wrong.rotations.push(rotation(admin("next", &next, 0, 100), "root", &next));
    assert_eq!(wrong.verify(), Ok(false));
    // A signer whose public key is not base64.
    let mut garbled = chain_with(vec![key("root", "!!notbase64", 0, 100)]);
    garbled.rotations.push(rotation(admin("next", &next, 0, 100), "root", &root));
    assert_eq!(garbled.verify(), Err(TrustError::InvalidBase64));
}

#[test]
fn keys_may_last_at_most_a_year() {
    let root = generate_keypair();
    let year = MAX_KEY_LIFETIME_SECS;
    assert_eq!(chain_with(vec![admin("root", &root, 10, 10 + year)]).verify(), Ok(true));
    assert_eq!(chain_with(vec![admin("root", &root, 10, 11 + year)]).verify(), Ok(false));
    assert_eq!(chain_with(vec![admin("root", &root, 0, 10 * year)]).verify(), Ok(false));
    let next = generate_keypair();
    let mut c = chain_with(vec![admin("root", &root, 0, 100)]);
    c.rotations.push(rotation(admin("next", &next, 0, 2 * year), "root", &root));
    assert_eq!(c.verify(), Ok(false));
}

#[test]
fn rotations_are_applied_only_when_signed_by_a_current_key() {
    let root = generate_keypair();
    let next = generate_keypair();
    let mut c = chain_with(vec![admin("root", &root, 0, 100)]);
    assert_eq!(c.apply_rotation_at(rotation(admin("n", &next, 0, 100), "x", &root), 9), Err(TrustError::UnknownSigningKey));
    let mut short = rotation(admin("n", &next, 0, 100), "root", &root);
    short.signature.truncate(3);
    assert_eq!(c.apply_rotation_at(short, 9), Err(TrustError::InvalidRotationSignature));
    assert_eq!(c.apply_rotation_at(rotation(admin("n", &next, 0, 100), "root", &next), 9), Err(TrustError::InvalidRotationSignature));
    assert_eq!(
        c.apply_rotation_at(rotation(admin("n", &next, 0, 2 * MAX_KEY_LIFETIME_SECS), "root", &root), 9),
        Err(TrustError::KeyLifetimeTooLong)
    );
    assert_eq!(c.version, 0);
    assert_eq!(c.apply_rotation_at(rotation(admin("n", &next, 0, 100), "root", &root), 9), Ok(()));
    assert_eq!(c.version, 1);
    assert_eq!(c.last_updated, 9);
    assert_eq!(c.current_keys.len(), 2);
    assert_eq!(c.verify(), Ok(true));
}

fn signed_crl(signer: &str, by: &KeyPair, revoked: &str, version: u64) -> RevocationList {
    let mut crl = RevocationList::empty(0);
    crl.revoked_keys.push(revoked.into());
    crl.signed_by_key_id = signer.into();
    crl.version = version;
    crl.signature = by.sign_bytes(crl.signing_text().as_bytes());
    crl
}

#[test]
fn revoked_keys_are_no_longer_valid() {
    let root = generate_keypair();
    let other = generate_keypair();
    let mut c = chain_with(vec![admin("root", &root, 0, 100), admin("other", &other, 0, 100)]);
    assert!(c.is_admin_at("other", 50));
    let mut forged = signed_crl("root", &root, "other", 1);
    forged.signature = vec![2u8; 64];
    assert_eq!(c.update_revocation_list_at(forged, 50), Err(TrustError::InvalidCrlSignature));
    let crl = signed_crl("root", &root, "other", 1);
    assert_eq!(c.update_revocation_list_at(crl, 50), Ok(()));
    assert!(!c.is_admin_at("other", 50));
    assert!(c.is_admin_at("root", 50));
    assert!(!c.is_admin_at("root", 101));
    assert_eq!(c.verify(), Ok(true));
    // An older list is refused.
    let old = signed_crl("root", &root, "x", 1);
    assert_eq!(c.update_revocation_list_at(old, 50), Err(TrustError::CrlNotNewer));
    // A list signed by a non-admin is refused.
    assert_eq!(c.update_revocation_list_at(signed_crl("other", &other, "root", 2), 50), Err(TrustError::NonAdminCrlSigner));
}

#[test]
fn managers_adopt_only_newer_verified_chains() {
    let mut m = AdminTrustManager::from_chain_at(chain_with(vec![key("root", "k", 0, 100)]), 0).unwrap();
    assert!(AdminTrustManager::from_chain_at(AdminTrustChain::empty_at(0), 0).is_err());
    let mut newer = chain_with(vec![key("root", "k", 0, 100)]);
    newer.version = 3;
    assert_eq!(m.update_from_dht_at(newer, 10), Ok(true));
    assert_eq!(m.get_chain().version, 3);
    let mut same = chain_with(vec![key("root", "k", 0, 100)]);
    same.version = 3;
    assert_eq!(m.update_from_dht_at(same, 11), Ok(false));
    let stats = m.get_stats_at(50);
    assert_eq!(stats.version, 3);
    assert_eq!(stats.total_keys, 1);
    assert_eq!(stats.valid_keys, 1);
    assert_eq!(m.get_stats_at(200).expired_keys, 1);
}

#[test]
fn admin_signatures_are_checked_with_the_base64_key() {
    let kp = generate_keypair();
    let b64 = base64::engine::general_purpose::STANDARD.encode(kp.public_key_bytes());
    let m = AdminTrustManager::from_chain_at(chain_with(vec![key("root", &b64, 0, 100)]), 0).unwrap();
    let sig = kp.sign_bytes(b"hello");
    assert_eq!(m.verify_admin_signature_at("root", b"hello", &sig, 50), Ok(true));
    assert_eq!(m.verify_admin_signature_at("root", b"other", &sig, 50), Ok(false));
    assert_eq!(m.verify_admin_signature_at("root", b"hello", &sig, 500), Err(TrustError::KeyNotFound));
    assert_eq!(m.verify_admin_signature_at("nobody", b"hello", &sig, 50), Err(TrustError::KeyNotFound));
    assert_eq!(m.verify_admin_signature_at("root", b"hello", &sig[..10], 50), Err(TrustError::InvalidSignatureLength));
    let bad = AdminTrustManager::from_chain_at(chain_with(vec![key("root", "!!notbase64", 0, 100)]), 0).unwrap();
    assert_eq!(bad.verify_admin_signature_at("root", b"hello", &sig, 50), Err(TrustError::InvalidBase64));
}
