//! Hashing, encoding and signature checks, each delegated to its outside crate.
use vstd::prelude::*;
use base64::Engine;
use ed25519_dalek::Verifier;
use sha2::Digest;

verus! {

/// The SHA-256 digest of `data`, as `sha2::Sha256::digest` computes it.
pub uninterp spec fn sha256_digest(data: Seq<u8>) -> Seq<u8>;

/// Hashes `data` with `sha2::Sha256::digest`. The contract states that the result is the
/// digest named `sha256_digest` and, as the type `Output<Sha256>` fixes, 32 bytes long.
#[verifier::external_body]
pub(crate) fn sha256(data: &[u8]) -> (r: Vec<u8>)
    ensures
        r@ == sha256_digest(data@),
        r@.len() == 32,
{
    sha2::Sha256::digest(data).to_vec()
}

/// What the `base64` crate's `general_purpose::STANDARD` engine decodes from `text`,
/// or `None` when it reports a `DecodeError`.
pub uninterp spec fn base64_standard_decode(text: Seq<char>) -> Option<Seq<u8>>;

/// Decodes `text` with `base64::engine::general_purpose::STANDARD`.
/// Which texts the engine accepts is not restated; the result is tied to the text by name.
#[verifier::external_body]
pub(crate) fn base64_decode(text: &str) -> (r: Option<Vec<u8>>)
    ensures
        r matches Some(v) ==> base64_standard_decode(text@) == Some(v@),
        r is None ==> base64_standard_decode(text@) is None,
{
    base64::engine::general_purpose::STANDARD.decode(text).ok()
}

/// Whether `ed25519_dalek::VerifyingKey::from_bytes` accepts the 32 bytes (they decompress
/// to a curve point).
pub uninterp spec fn ed25519_key_decodes(public_key: Seq<u8>) -> bool;

/// Whether `VerifyingKey::verify` (the `Verifier` trait, non-strict) accepts `signature`
/// over `message` for the key with these bytes.
pub uninterp spec fn ed25519_signature_verifies(
    public_key: Seq<u8>,
    message: Seq<u8>,
    signature: Seq<u8>,
) -> bool;

/// Whether `VerifyingKey::verify_strict` accepts `signature` over `message` for the key with
/// these bytes (it also rejects small-order keys and signature points).
pub uninterp spec fn ed25519_strict_verifies(public_key: Seq<u8>, message: Seq<u8>, signature: Seq<u8>) -> bool;

/// Runs `ed25519_dalek::VerifyingKey::from_bytes` and reports whether it succeeded.
#[verifier::external_body]
pub(crate) fn ed25519_key_is_valid(public_key: &[u8; 32]) -> (r: bool)
    ensures
        r == ed25519_key_decodes(public_key@),
{
    ed25519_dalek::VerifyingKey::from_bytes(public_key).is_ok()
}

/// Checks `signature` over `message` with `VerifyingKey::verify` for a key that
/// `from_bytes` accepts.
#[verifier::external_body]
pub(crate) fn ed25519_verify(public_key: &[u8; 32], message: &[u8], signature: &[u8; 64]) -> (r:
    bool)
    requires
        ed25519_key_decodes(public_key@),
    ensures
        r == ed25519_signature_verifies(public_key@, message@, signature@),
{
    match ed25519_dalek::VerifyingKey::from_bytes(public_key) {
        Ok(key) => key.verify(message, &ed25519_dalek::Signature::from_bytes(signature)).is_ok(),
        Err(_) => false,
    }
}

/// Checks `signature` over `message` with `VerifyingKey::verify_strict` for a key that
/// `from_bytes` accepts.
#[verifier::external_body]
pub(crate) fn ed25519_verify_strict(public_key: &[u8; 32], message: &[u8], signature: &[u8; 64]) -> (r: bool)
    requires
        ed25519_key_decodes(public_key@),
    ensures
        r == ed25519_strict_verifies(public_key@, message@, signature@),
{
    match ed25519_dalek::VerifyingKey::from_bytes(public_key) {
        Ok(key) => key.verify_strict(message, &ed25519_dalek::Signature::from_bytes(signature)).is_ok(),
        Err(_) => false,
    }
}

/// The value of a hexadecimal digit byte (either case).
pub open spec fn hex_value(b: u8) -> Option<u8> {
    if 48 <= b <= 57 {
        Some((b - 48) as u8)
    } else if 97 <= b <= 102 {
        Some((b - 87) as u8)
    } else if 65 <= b <= 70 {
        Some((b - 55) as u8)
    } else {
        None
    }
}

/// The bytes that hexadecimal text (given as its bytes) stands for: an even number of
/// digits, two per byte, high nibble first; `None` otherwise.
pub open spec fn hex_decoded(text: Seq<u8>) -> Option<Seq<u8>>
    decreases text.len(),
{
    if text.len() % 2 != 0 {
        None
    } else if text.len() == 0 {
        Some(seq![])
    } else {
        match (hex_decoded(text.take(text.len() - 2)), hex_value(text[text.len() - 2]), hex_value(text[text.len() - 1])) {
            (Some(rest), Some(h), Some(l)) => Some(rest.push((h * 16 + l) as u8)),
            _ => None,
        }
    }
}

/// Decodes hexadecimal text with `hex::decode`, which accepts an even number of digits of
/// either case and nothing else.
#[verifier::external_body]
pub(crate) fn hex_decode(text: &str) -> (r: Option<Vec<u8>>)
    ensures
        match r {
            Some(v) => hex_decoded(vstd::utf8::encode_utf8(text@)) == Some(v@),
            None => hex_decoded(vstd::utf8::encode_utf8(text@)) is None,
        },
{
    hex::decode(text).ok()
}

/// The lowercase hexadecimal digit for `n < 16`.
pub open spec fn hex_digit(n: nat) -> char {
    if n < 10 {
        (('0' as nat) + n) as char
    } else {
        (('a' as nat) + n - 10) as char
    }
}

/// Lowercase hexadecimal, two digits per byte, high nibble first.
pub open spec fn hex_lower(bytes: Seq<u8>) -> Seq<char>
    decreases bytes.len(),
{
    if bytes.len() == 0 {
        seq![]
    } else {
        hex_lower(bytes.drop_last()) + seq![
            hex_digit((bytes.last() / 16) as nat),
            hex_digit((bytes.last() % 16) as nat),
        ]
    }
}

fn hex_digit_exec(n: u8) -> (c: char)
    requires
        n < 16,
    ensures
        c == hex_digit(n as nat),
{
    if n < 10 {
        ((('0' as u8) + n) as char)
    } else {
        ((('a' as u8) + n - 10) as char)
    }
}

/// Encodes bytes as lowercase hexadecimal.
pub fn hex_encode(bytes: &[u8]) -> (r: Vec<char>)
    ensures
        r@ == hex_lower(bytes@),
{
    let mut r: Vec<char> = Vec::new();
    let mut i: usize = 0;
    while i < bytes.len()
        invariant
            i <= bytes@.len(),
            r@ == hex_lower(bytes@.take(i as int)),
        decreases bytes@.len() - i,
    {
        let b = bytes[i];
        r.push(hex_digit_exec(b / 16));
        r.push(hex_digit_exec(b % 16));
        i = i + 1;
        assert(bytes@.take(i as int).drop_last() =~= bytes@.take((i - 1) as int));
    }
    assert(bytes@.take(bytes@.len() as int) =~= bytes@);
    r
}

} // verus!
