//! Admin trust chain: root keys, signed key rotations and a certificate revocation list.
//!
//! A chain is accepted only when every key lasts at most a year, every rotation carries the
//! Ed25519 signature, over the new key's JSON text, of a key that is already known (an
//! initial key or one introduced by an earlier rotation) and not revoked, and the revocation
//! list, when signed, carries the Ed25519 signature of a known key over its JSON text.
use vstd::prelude::*;
use crate::clock::{system_clock_secs, unix_now};
use crate::crypto::{
    base64_decode, base64_standard_decode, ed25519_key_decodes, ed25519_key_is_valid,
    ed25519_signature_verifies, ed25519_verify, hex_encode, hex_lower, sha256, sha256_digest,
};
use crate::json::{decimal, json_key, json_string, push_decimal, push_json_key, push_json_string};
use crate::text::{str_equal, string_from_chars, string_push, views};

verus! {

/// Maximum key lifetime (1 year), in seconds.
pub const MAX_KEY_LIFETIME_SECS: u64 = 31536000;

/// How often to check for updates (1 hour), in seconds.
pub const UPDATE_CHECK_INTERVAL_SECS: u64 = 3600;

/// Length of an Ed25519 signature in bytes.
pub const SIGNATURE_LENGTH: usize = 64;

/// Why a trust-chain operation failed.
#[derive(Debug, Clone, Copy, PartialEq, Eq, Structural)]
pub enum TrustError {
    /// A rotation names a signing key that is not (yet) in the chain.
    UnknownRotationSigner,
    /// The revocation list names a signing key that is not in the chain.
    UnknownCrlSigner,
    /// A new rotation names a signing key that is not a current key.
    UnknownSigningKey,
    /// A new rotation does not carry a valid signature.
    InvalidRotationSignature,
    /// A new rotation's key is valid for longer than the maximum key lifetime.
    KeyLifetimeTooLong,
    /// A new revocation list is not signed by a currently valid admin key.
    NonAdminCrlSigner,
    /// A new revocation list does not carry a valid signature.
    InvalidCrlSignature,
    /// A new revocation list is not newer than the current one.
    CrlNotNewer,
    /// The system clock reads earlier than the Unix epoch.
    ClockBeforeEpoch,
    /// The chain does not verify.
    InvalidTrustChain,
    /// No currently valid key has the given id.
    KeyNotFound,
    /// The key's public key is not valid base64.
    InvalidBase64,
    /// The decoded public key is not 32 bytes long.
    InvalidPublicKeyLength,
    /// The public key is not a valid Ed25519 point.
    InvalidPublicKey,
    /// The signature is not 64 bytes long.
    InvalidSignatureLength,
}

/// Admin key with metadata.
#[derive(Debug)]
pub struct AdminKey {
    /// Ed25519 public key (base64 encoded)
    pub public_key: String,
    /// When this key becomes valid
    pub valid_from: u64,
    /// When this key expires
    pub valid_until: u64,
    /// Key identifier (first 8 bytes of the public key hash, in hex)
    pub key_id: String,
    /// Human-readable description
    pub description: String,
}

/// The key id of a public key: the first 16 lowercase hex digits of the SHA-256 digest
/// of its UTF-8 bytes.
pub open spec fn key_id_of(public_key: Seq<char>) -> Seq<char> {
    hex_lower(sha256_digest(vstd::utf8::encode_utf8(public_key))).take(16)
}

impl AdminKey {
    /// Whether the key is valid at time `now`.
    pub open spec fn valid_at(&self, now: u64) -> bool {
        self.valid_from <= now <= self.valid_until
    }

    /// Whether the key has expired at time `now`.
    pub open spec fn expired_at(&self, now: u64) -> bool {
        now > self.valid_until
    }

    /// A copy of this key.
    pub fn duplicate(&self) -> (r: AdminKey)
        ensures
            r == *self,
    {
        AdminKey {
            public_key: self.public_key.clone(),
            valid_from: self.valid_from,
            valid_until: self.valid_until,
            key_id: self.key_id.clone(),
            description: self.description.clone(),
        }
    }

    /// Check if the key is valid at `now`.
    pub fn is_valid_at(&self, now: u64) -> (r: bool)
        ensures
            r == self.valid_at(now),
    {
        now >= self.valid_from && now <= self.valid_until
    }

    /// Check if the key has expired at `now`.
    pub fn is_expired_at(&self, now: u64) -> (r: bool)
        ensures
            r == self.expired_at(now),
    {
        now > self.valid_until
    }

    /// Check if the key is currently valid.
    pub fn is_valid(&self) -> (r: bool)
        ensures
            exists|now: u64| r == self.valid_at(now),
            r ==> self.valid_from <= self.valid_until,
    {
        self.is_valid_at(unix_now())
    }

    /// Check if the key is currently expired.
    pub fn is_expired(&self) -> (r: bool)
        ensures
            exists|now: u64| r == self.expired_at(now),
            self.valid_until == u64::MAX ==> !r,
    {
        self.is_expired_at(unix_now())
    }

    /// Generate key ID from public key.
    pub fn compute_key_id(public_key: &str) -> (r: String)
        ensures
            r@ == key_id_of(public_key@),
    {
        let bytes = public_key.as_bytes();
        let digest = sha256(bytes);
        let hex = hex_encode(digest.as_slice());
        proof {
            lemma_hex_lower_len(digest@);
        }
        let mut prefix: Vec<char> = Vec::new();
        let mut i: usize = 0;
        while i < 16
            invariant
                i <= 16,
                hex@.len() == 64,
                prefix@ =~= hex@.take(i as int),
            decreases 16 - i,
        {
            prefix.push(hex[i]);
            i = i + 1;
        }
        string_from_chars(prefix.as_slice())
    }
}

proof fn lemma_hex_lower_len(bytes: Seq<u8>)
    ensures
        hex_lower(bytes).len() == 2 * bytes.len(),
    decreases bytes.len(),
{
    if bytes.len() > 0 {
        lemma_hex_lower_len(bytes.drop_last());
    }
}

/// Whether a key's validity window lasts at most the maximum key lifetime.
pub open spec fn lifetime_ok(k: AdminKey) -> bool {
    k.valid_until <= k.valid_from + MAX_KEY_LIFETIME_SECS
}

/// The first key of `keys` with id `id`, if any.
pub open spec fn first_key_with_id(keys: Seq<AdminKey>, id: Seq<char>) -> Option<AdminKey>
    decreases keys.len(),
{
    if keys.len() == 0 {
        None
    } else if keys[0].key_id@ == id {
        Some(keys[0])
    } else {
        first_key_with_id(keys.drop_first(), id)
    }
}

proof fn lemma_first_key_concat(a: Seq<AdminKey>, b: Seq<AdminKey>, id: Seq<char>)
    ensures
        first_key_with_id(a + b, id) == match first_key_with_id(a, id) {
            Some(k) => Some(k),
            None => first_key_with_id(b, id),
        },
    decreases a.len(),
{
    if a.len() == 0 {
        assert(a + b =~= b);
    } else {
        assert((a + b).drop_first() =~= a.drop_first() + b);
        assert((a + b)[0] == a[0]);
        lemma_first_key_concat(a.drop_first(), b, id);
    }
}

proof fn lemma_first_key_single(x: AdminKey, id: Seq<char>)
    ensures
        x.key_id@ != id ==> first_key_with_id(seq![x], id) is None,
        x.key_id@ == id ==> first_key_with_id(seq![x], id) == Some(x),
{
    assert(first_key_with_id(Seq::<AdminKey>::empty(), id) is None);
    assert(seq![x].drop_first() =~= Seq::<AdminKey>::empty());
    assert(seq![x][0] == x);
}

proof fn lemma_first_key_found(a: Seq<AdminKey>, id: Seq<char>)
    ensures
        first_key_with_id(a, id) is None <==> !has_key_id(a, id),
        first_key_with_id(a, id) matches Some(k) ==> k.key_id@ == id,
    decreases a.len(),
{
    if a.len() > 0 {
        lemma_first_key_found(a.drop_first(), id);
        if has_key_id(a, id) && a[0].key_id@ != id {
            let j = choose|j: int| 0 <= j < a.len() && #[trigger] a[j].key_id@ == id;
            assert(a.drop_first()[j - 1].key_id@ == id);
        }
        if has_key_id(a.drop_first(), id) {
            let j = choose|j: int| 0 <= j < a.drop_first().len() && #[trigger] a.drop_first()[j].key_id@ == id;
            assert(a[j + 1].key_id@ == id);
        }
    }
}

/// The JSON text of a key, its fields in declaration order (as `serde_json` writes the key):
/// what the previous key signs when it introduces this key in a rotation.
pub open spec fn admin_key_json(k: AdminKey) -> Seq<char> {
    seq!['{'] + json_key("public_key"@) + json_string(k.public_key@) + seq![','] + json_key("valid_from"@)
        + decimal(k.valid_from as nat) + seq![','] + json_key("valid_until"@) + decimal(k.valid_until as nat)
        + seq![','] + json_key("key_id"@) + json_string(k.key_id@) + seq![','] + json_key("description"@)
        + json_string(k.description@) + seq!['}']
}

/// JSON strings separated by commas.
pub open spec fn json_string_items(s: Seq<Seq<char>>) -> Seq<char>
    decreases s.len(),
{
    if s.len() == 0 {
        seq![]
    } else if s.len() == 1 {
        json_string(s[0])
    } else {
        json_string_items(s.drop_last()) + seq![','] + json_string(s.last())
    }
}

/// `"id":"reason"` members separated by commas.
pub open spec fn reason_items(s: Seq<(Seq<char>, Seq<char>)>) -> Seq<char>
    decreases s.len(),
{
    if s.len() == 0 {
        seq![]
    } else if s.len() == 1 {
        json_key(s[0].0) + json_string(s[0].1)
    } else {
        reason_items(s.drop_last()) + seq![','] + json_key(s.last().0) + json_string(s.last().1)
    }
}

/// `"id":time` members separated by commas.
pub open spec fn time_items(s: Seq<(Seq<char>, u64)>) -> Seq<char>
    decreases s.len(),
{
    if s.len() == 0 {
        seq![]
    } else if s.len() == 1 {
        json_key(s[0].0) + decimal(s[0].1 as nat)
    } else {
        time_items(s.drop_last()) + seq![','] + json_key(s.last().0) + decimal(s.last().1 as nat)
    }
}

/// The revocation reasons, as text pairs.
pub open spec fn reasons_view(v: Seq<(String, String)>) -> Seq<(Seq<char>, Seq<char>)> {
    v.map_values(|p: (String, String)| (p.0@, p.1@))
}

/// The revocation times, with their key ids as text.
pub open spec fn times_view(v: Seq<(String, u64)>) -> Seq<(Seq<char>, u64)> {
    v.map_values(|p: (String, u64)| (p.0@, p.1))
}

/// The JSON text of a revocation list without its signature, its fields in declaration
/// order: what the signing key signs.
pub open spec fn crl_json(l: RevocationList) -> Seq<char> {
    seq!['{'] + json_key("revoked_keys"@) + seq!['['] + json_string_items(views(l.revoked_keys@)) + seq![']']
        + seq![','] + json_key("revocation_reasons"@) + seq!['{'] + reason_items(reasons_view(l.revocation_reasons@))
        + seq!['}'] + seq![','] + json_key("revoked_at"@) + seq!['{'] + time_items(times_view(l.revoked_at@))
        + seq!['}'] + seq![','] + json_key("signed_by_key_id"@) + json_string(l.signed_by_key_id@) + seq![',']
        + json_key("version"@) + decimal(l.version as nat) + seq![','] + json_key("issued_at"@) + decimal(
        l.issued_at as nat) + seq!['}']
}

/// The outcome of checking `signature` over `message` under an admin key: a signature that
/// is not 64 bytes long is rejected; the key's base64 public key must decode to a 32-byte
/// Ed25519 key; then Ed25519 decides.
pub open spec fn key_signature_verdict(key: AdminKey, message: Seq<u8>, signature: Seq<u8>) -> Result<bool, TrustError> {
    if signature.len() != 64 {
        Ok(false)
    } else {
        match base64_standard_decode(key.public_key@) {
            None => Err(TrustError::InvalidBase64),
            Some(pk) => if pk.len() != 32 {
                Err(TrustError::InvalidPublicKeyLength)
            } else if !ed25519_key_decodes(pk) {
                Err(TrustError::InvalidPublicKey)
            } else {
                Ok(ed25519_signature_verifies(pk, message, signature))
            },
        }
    }
}

/// Checks an Ed25519 signature under an admin key, as `key_signature_verdict` describes.
fn check_key_signature(key: &AdminKey, message: &[u8], signature: &[u8]) -> (r: Result<bool, TrustError>)
    ensures
        r == key_signature_verdict(*key, message@, signature@),
{
    if signature.len() != 64 {
        return Ok(false);
    }
    let decoded = match base64_decode(key.public_key.as_str()) {
        Some(d) => d,
        None => return Err(TrustError::InvalidBase64),
    };
    if decoded.len() != 32 {
        return Err(TrustError::InvalidPublicKeyLength);
    }
    let mut pk: [u8; 32] = [0u8; 32];
    let mut i: usize = 0;
    while i < 32
        invariant
            i <= 32,
            decoded@.len() == 32,
            forall|m: int| 0 <= m < i ==> pk@[m] == decoded@[m],
        decreases 32 - i,
    {
        pk[i] = decoded[i];
        i = i + 1;
    }
    assert(pk@ =~= decoded@);
    if !ed25519_key_is_valid(&pk) {
        return Err(TrustError::InvalidPublicKey);
    }
    let mut sig: [u8; 64] = [0u8; 64];
    let mut k: usize = 0;
    while k < 64
        invariant
            k <= 64,
            signature@.len() == 64,
            forall|m: int| 0 <= m < k ==> sig@[m] == signature@[m],
        decreases 64 - k,
    {
        sig[k] = signature[k];
        k = k + 1;
    }
    assert(sig@ =~= signature@);
    Ok(ed25519_verify(&pk, message, &sig))
}

impl AdminKey {
    /// The text a rotation's signer signs to introduce this key: its JSON.
    pub fn signing_text(&self) -> (r: String)
        ensures
            r@ == admin_key_json(*self),
    {
        let mut out = String::new();
        string_push(&mut out, '{');
        push_json_key(&mut out, "public_key");
        push_json_string(&mut out, self.public_key.as_str());
        string_push(&mut out, ',');
        push_json_key(&mut out, "valid_from");
        push_decimal(&mut out, self.valid_from);
        string_push(&mut out, ',');
        push_json_key(&mut out, "valid_until");
        push_decimal(&mut out, self.valid_until);
        string_push(&mut out, ',');
        push_json_key(&mut out, "key_id");
        push_json_string(&mut out, self.key_id.as_str());
        string_push(&mut out, ',');
        push_json_key(&mut out, "description");
        push_json_string(&mut out, self.description.as_str());
        string_push(&mut out, '}');
        assert(out@ =~= admin_key_json(*self));
        out
    }
}

impl RevocationList {
    /// The text the signing key signs: the list's JSON without its signature.
    pub fn signing_text(&self) -> (r: String)
        ensures
            r@ == crl_json(*self),
    {
        let mut out = String::new();
        string_push(&mut out, '{');
        push_json_key(&mut out, "revoked_keys");
        string_push(&mut out, '[');
        let ghost base = out@;
        let ghost ks = views(self.revoked_keys@);
        let mut i: usize = 0;
        while i < self.revoked_keys.len()
            invariant
                i <= self.revoked_keys@.len(),
                ks == views(self.revoked_keys@),
                out@ == base + json_string_items(ks.take(i as int)),
            decreases self.revoked_keys@.len() - i,
        {
            if i > 0 {
                string_push(&mut out, ',');
            }
            push_json_string(&mut out, self.revoked_keys[i].as_str());
            proof {
                let t = ks.take(i + 1);
                assert(t.drop_last() =~= ks.take(i as int));
                assert(t.last() == ks[i as int]);
                assert(out@ =~= base + json_string_items(t));
            }
            i = i + 1;
        }
        assert(ks.take(ks.len() as int) =~= ks);
        string_push(&mut out, ']');
        string_push(&mut out, ',');
        push_json_key(&mut out, "revocation_reasons");
        string_push(&mut out, '{');
        let ghost base2 = out@;
        let ghost rs = reasons_view(self.revocation_reasons@);
        let mut j: usize = 0;
        while j < self.revocation_reasons.len()
            invariant
                j <= self.revocation_reasons@.len(),
                rs == reasons_view(self.revocation_reasons@),
                out@ == base2 + reason_items(rs.take(j as int)),
            decreases self.revocation_reasons@.len() - j,
        {
            if j > 0 {
                string_push(&mut out, ',');
            }
            push_json_key(&mut out, self.revocation_reasons[j].0.as_str());
            push_json_string(&mut out, self.revocation_reasons[j].1.as_str());
            proof {
                let t = rs.take(j + 1);
                assert(t.drop_last() =~= rs.take(j as int));
                assert(t.last() == rs[j as int]);
                assert(out@ =~= base2 + reason_items(t));
            }
            j = j + 1;
        }
        assert(rs.take(rs.len() as int) =~= rs);
        string_push(&mut out, '}');
        string_push(&mut out, ',');
        push_json_key(&mut out, "revoked_at");
        string_push(&mut out, '{');
        let ghost base3 = out@;
        let ghost ts = times_view(self.revoked_at@);
        let mut m: usize = 0;
        while m < self.revoked_at.len()
            invariant
                m <= self.revoked_at@.len(),
                ts == times_view(self.revoked_at@),
                out@ == base3 + time_items(ts.take(m as int)),
            decreases self.revoked_at@.len() - m,
        {
            if m > 0 {
                string_push(&mut out, ',');
            }
            push_json_key(&mut out, self.revoked_at[m].0.as_str());
            push_decimal(&mut out, self.revoked_at[m].1);
            proof {
                let t = ts.take(m + 1);
                assert(t.drop_last() =~= ts.take(m as int));
                assert(t.last() == ts[m as int]);
                assert(out@ =~= base3 + time_items(t));
            }
            m = m + 1;
        }
        assert(ts.take(ts.len() as int) =~= ts);
        string_push(&mut out, '}');
        string_push(&mut out, ',');
        push_json_key(&mut out, "signed_by_key_id");
        push_json_string(&mut out, self.signed_by_key_id.as_str());
        string_push(&mut out, ',');
        push_json_key(&mut out, "version");
        push_decimal(&mut out, self.version);
        string_push(&mut out, ',');
        push_json_key(&mut out, "issued_at");
        push_decimal(&mut out, self.issued_at);
        string_push(&mut out, '}');
        assert(out@ =~= crl_json(*self));
        out
    }
}

/// Key rotation message - signed by previous key.
#[derive(Debug)]
pub struct KeyRotation {
    /// The new key being activated
    pub new_key: AdminKey,
    /// Key ID of the previous key that signed this
    pub signed_by_key_id: String,
    /// Ed25519 signature over new_key (signed by previous key)
    pub signature: Vec<u8>,
    /// Timestamp when rotation was performed
    pub rotated_at: u64,
    /// Reason for rotation
    pub reason: String,
}

impl KeyRotation {
    /// The outcome of checking this rotation against `previous_key`: a key with another id
    /// than the one named is rejected; otherwise the signature must be the previous key's
    /// Ed25519 signature over the new key's JSON text.
    pub open spec fn verdict_under(&self, previous_key: AdminKey) -> Result<bool, TrustError> {
        if previous_key.key_id@ != self.signed_by_key_id@ {
            Ok(false)
        } else {
            key_signature_verdict(
                previous_key,
                vstd::utf8::encode_utf8(admin_key_json(self.new_key)),
                self.signature@,
            )
        }
    }

    /// Whether this rotation is accepted as signed by `previous_key`.
    pub open spec fn signed_by(&self, previous_key: AdminKey) -> bool {
        self.verdict_under(previous_key) == Ok::<bool, TrustError>(true)
    }

    /// Verify that this rotation was signed by the claimed key.
    pub fn verify(&self, previous_key: &AdminKey) -> (r: Result<bool, TrustError>)
        ensures
            r == self.verdict_under(*previous_key),
    {
        if !str_equal(previous_key.key_id.as_str(), self.signed_by_key_id.as_str()) {
            return Ok(false);
        }
        let text = self.new_key.signing_text();
        check_key_signature(previous_key, text.as_str().as_bytes(), self.signature.as_slice())
    }
}

/// Certificate Revocation List (CRL).
#[derive(Debug)]
pub struct RevocationList {
    /// Key IDs that have been revoked (no id occurs twice)
    pub revoked_keys: Vec<String>,
    /// Reason for each revocation
    pub revocation_reasons: Vec<(String, String)>,
    /// When each key was revoked
    pub revoked_at: Vec<(String, u64)>,
    /// Signature over this revocation list (signed by current admin key)
    pub signature: Vec<u8>,
    /// Key ID that signed this CRL
    pub signed_by_key_id: String,
    /// CRL version number (increments on each update)
    pub version: u64,
    /// When this CRL was issued
    pub issued_at: u64,
}

impl RevocationList {
    /// Whether `key_id` is on the list.
    pub open spec fn revokes(&self, key_id: Seq<char>) -> bool {
        exists|i: int| 0 <= i < self.revoked_keys@.len() && #[trigger] self.revoked_keys@[i]@ == key_id
    }

    /// No key id is listed twice (the list is a set).
    pub open spec fn wf(&self) -> bool {
        forall|i: int, j: int|
            0 <= i < j < self.revoked_keys@.len() ==> self.revoked_keys@[i]@ != self.revoked_keys@[j]@
    }

    /// The revoked key ids, as a set.
    pub open spec fn revoked_set(&self) -> Set<Seq<char>> {
        Set::new(|id: Seq<char>| self.revokes(id))
    }

    /// The outcome of checking this list's signature under `signing_key`: a key with another
    /// id than the one named is rejected; otherwise the signature must be the key's Ed25519
    /// signature over the list's JSON text.
    pub open spec fn verdict_under(&self, signing_key: AdminKey) -> Result<bool, TrustError> {
        if signing_key.key_id@ != self.signed_by_key_id@ {
            Ok(false)
        } else {
            key_signature_verdict(signing_key, vstd::utf8::encode_utf8(crl_json(*self)), self.signature@)
        }
    }

    /// Whether the list is accepted as signed by `signing_key`.
    pub open spec fn signed_by(&self, signing_key: AdminKey) -> bool {
        self.verdict_under(signing_key) == Ok::<bool, TrustError>(true)
    }

    /// An empty list at version 0, issued at `issued_at`.
    pub fn empty(issued_at: u64) -> (r: RevocationList)
        ensures
            r.revoked_keys@.len() == 0,
            r.revocation_reasons@.len() == 0,
            r.revoked_at@.len() == 0,
            r.signature@.len() == 0,
            r.signed_by_key_id@.len() == 0,
            r.version == 0,
            r.issued_at == issued_at,
            r.wf(),
    {
        RevocationList {
            revoked_keys: Vec::new(),
            revocation_reasons: Vec::new(),
            revoked_at: Vec::new(),
            signature: Vec::new(),
            signed_by_key_id: String::new(),
            version: 0,
            issued_at,
        }
    }

    /// Check if a key is revoked.
    pub fn is_revoked(&self, key_id: &str) -> (r: bool)
        ensures
            r == self.revokes(key_id@),
    {
        let mut i: usize = 0;
        while i < self.revoked_keys.len()
            invariant
                i <= self.revoked_keys@.len(),
                forall|j: int| 0 <= j < i ==> self.revoked_keys@[j]@ != key_id@,
            decreases self.revoked_keys@.len() - i,
        {
            if str_equal(self.revoked_keys[i].as_str(), key_id) {
                return true;
            }
            i = i + 1;
        }
        false
    }

    /// Verify CRL signature.
    pub fn verify(&self, signing_key: &AdminKey) -> (r: Result<bool, TrustError>)
        ensures
            r == self.verdict_under(*signing_key),
    {
        if !str_equal(signing_key.key_id.as_str(), self.signed_by_key_id.as_str()) {
            return Ok(false);
        }
        let text = self.signing_text();
        check_key_signature(signing_key, text.as_str().as_bytes(), self.signature.as_slice())
    }
}

/// Admin trust chain - verifiable path from root keys to current keys.
#[derive(Debug)]
pub struct AdminTrustChain {
    /// All key rotations in chronological order
    pub rotations: Vec<KeyRotation>,
    /// Current valid admin keys
    pub current_keys: Vec<AdminKey>,
    /// Certificate Revocation List
    pub revocation_list: RevocationList,
    /// When this chain was last updated
    pub last_updated: u64,
    /// Version number (increments on each update)
    pub version: u64,
}

/// Whether some key in `keys` has id `id`.
pub open spec fn has_key_id(keys: Seq<AdminKey>, id: Seq<char>) -> bool {
    exists|j: int| 0 <= j < keys.len() && #[trigger] keys[j].key_id@ == id
}

/// The keys of `keys` that are valid at `now` and not revoked by `crl`, in order.
pub open spec fn usable_keys(keys: Seq<AdminKey>, crl: RevocationList, now: u64) -> Seq<AdminKey>
    decreases keys.len(),
{
    if keys.len() == 0 {
        seq![]
    } else {
        let k = keys.last();
        let rest = usable_keys(keys.drop_last(), crl, now);
        if k.valid_at(now) && !crl.revokes(k.key_id@) {
            rest.push(k)
        } else {
            rest
        }
    }
}

/// How many keys of `keys` have expired at `now`.
pub open spec fn expired_count(keys: Seq<AdminKey>, now: u64) -> nat
    decreases keys.len(),
{
    if keys.len() == 0 {
        0
    } else {
        expired_count(keys.drop_last(), now) + if keys.last().expired_at(now) {
            1nat
        } else {
            0nat
        }
    }
}

impl AdminTrustChain {
    /// The keys that rotations `0..i` introduced, in order.
    pub open spec fn new_keys(&self, i: int) -> Seq<AdminKey> {
        self.rotations@.take(i).map_values(|r: KeyRotation| r.new_key)
    }

    /// The key that signs under id `id` before rotation `i` is applied: the first key with that
    /// id among the initial keys and then the keys that earlier rotations introduced.
    pub open spec fn signer(&self, i: int, id: Seq<char>) -> Option<AdminKey> {
        first_key_with_id(self.current_keys@ + self.new_keys(i), id)
    }

    /// Whether `id` names a key known before rotation `i` is applied.
    pub open spec fn known_before(&self, i: int, id: Seq<char>) -> bool {
        self.signer(i, id) is Some
    }

    /// Every key of the chain, initial or introduced by a rotation, lasts at most the maximum
    /// key lifetime.
    pub open spec fn lifetimes_ok(&self) -> bool {
        &&& forall|j: int| 0 <= j < self.current_keys@.len() ==> lifetime_ok(#[trigger] self.current_keys@[j])
        &&& forall|j: int| 0 <= j < self.rotations@.len() ==> lifetime_ok(#[trigger] self.rotations@[j].new_key)
    }

    /// The verdict on rotations `i..` and then on the revocation list.
    pub open spec fn rotations_verdict(&self, i: int) -> Result<bool, TrustError>
        decreases self.rotations@.len() - i,
    {
        if i < 0 || i >= self.rotations@.len() {
            self.crl_verdict()
        } else {
            let r = self.rotations@[i];
            match self.signer(i, r.signed_by_key_id@) {
                None => Err(TrustError::UnknownRotationSigner),
                Some(k) => match r.verdict_under(k) {
                    Err(e) => Err(e),
                    Ok(false) => Ok(false),
                    Ok(true) => if self.revocation_list.revokes(r.signed_by_key_id@) {
                        Ok(false)
                    } else {
                        self.rotations_verdict(i + 1)
                    },
                },
            }
        }
    }

    /// The verdict on the revocation list once every rotation has been accepted.
    pub open spec fn crl_verdict(&self) -> Result<bool, TrustError> {
        let crl = self.revocation_list;
        if crl.signature@.len() == 0 {
            Ok(true)
        } else {
            match self.signer(self.rotations@.len() as int, crl.signed_by_key_id@) {
                None => Err(TrustError::UnknownCrlSigner),
                Some(k) => crl.verdict_under(k),
            }
        }
    }

    /// The verdict of `verify`: a chain without initial keys, or with a key that lasts longer
    /// than the maximum key lifetime, is rejected; otherwise each rotation in order must be
    /// signed (Ed25519, over the new key) by a known key that is not revoked, and the
    /// revocation list, when signed, by a known key.
    pub open spec fn verdict(&self) -> Result<bool, TrustError> {
        if self.current_keys@.len() == 0 {
            Ok(false)
        } else if !self.lifetimes_ok() {
            Ok(false)
        } else {
            self.rotations_verdict(0)
        }
    }

    /// The keys that are valid at `now` and not revoked.
    pub open spec fn valid_keys_at(&self, now: u64) -> Seq<AdminKey> {
        usable_keys(self.current_keys@, self.revocation_list, now)
    }

    /// The chain's structural invariant: its revocation list holds no id twice.
    pub open spec fn wf(&self) -> bool {
        self.revocation_list.wf()
    }

    /// Create an empty chain, stamped with time `now`.
    pub fn empty_at(now: u64) -> (r: AdminTrustChain)
        ensures
            r.rotations@.len() == 0,
            r.current_keys@.len() == 0,
            r.revocation_list.revoked_keys@.len() == 0,
            r.revocation_list.revocation_reasons@.len() == 0,
            r.revocation_list.revoked_at@.len() == 0,
            r.revocation_list.signature@.len() == 0,
            r.revocation_list.signed_by_key_id@.len() == 0,
            r.revocation_list.version == 0,
            r.revocation_list.issued_at == now,
            r.last_updated == now,
            r.version == 0,
            r.wf(),
    {
        AdminTrustChain {
            rotations: Vec::new(),
            current_keys: Vec::new(),
            revocation_list: RevocationList::empty(now),
            last_updated: now,
            version: 0,
        }
    }

    /// Create empty chain (for testing), stamped with the current time.
    pub fn empty() -> (r: AdminTrustChain)
        ensures
            r.rotations@.len() == 0,
            r.current_keys@.len() == 0,
            r.revocation_list.revoked_keys@.len() == 0,
            r.revocation_list.revocation_reasons@.len() == 0,
            r.revocation_list.revoked_at@.len() == 0,
            r.revocation_list.signature@.len() == 0,
            r.revocation_list.signed_by_key_id@.len() == 0,
            r.revocation_list.version == 0,
            r.revocation_list.issued_at == r.last_updated,
            r.version == 0,
            r.wf(),
    {
        AdminTrustChain::empty_at(unix_now())
    }

    /// The key that signs under id `id` before rotation `i`, as `signer` describes.
    fn signer_key(&self, i: usize, id: &str) -> (r: Option<&AdminKey>)
        requires
            i <= self.rotations@.len(),
        ensures
            r matches Some(k) ==> self.signer(i as int, id@) == Some(*k),
            r is None ==> self.signer(i as int, id@) is None,
    {
        let ghost c = self.current_keys@;
        let ghost nk = self.new_keys(i as int);
        let mut j: usize = 0;
        assert(c.take(0) =~= Seq::<AdminKey>::empty());
        while j < self.current_keys.len()
            invariant
                j <= c.len(),
                c == self.current_keys@,
                nk == self.new_keys(i as int),
                first_key_with_id(c.take(j as int), id@) is None,
            decreases c.len() - j,
        {
            if str_equal(self.current_keys[j].key_id.as_str(), id) {
                proof {
                    assert(c =~= c.take(j as int) + c.skip(j as int));
                    lemma_first_key_concat(c.take(j as int), c.skip(j as int), id@);
                    assert(c.skip(j as int)[0] == c[j as int]);
                    lemma_first_key_concat(c, nk, id@);
                }
                return Some(&self.current_keys[j]);
            }
            proof {
                assert(c.take(j + 1) =~= c.take(j as int) + seq![c[j as int]]);
                lemma_first_key_concat(c.take(j as int), seq![c[j as int]], id@);
                lemma_first_key_single(c[j as int], id@);
            }
            j = j + 1;
        }
        assert(c.take(c.len() as int) =~= c);
        let mut k: usize = 0;
        assert(self.new_keys(0) =~= Seq::<AdminKey>::empty());
        while k < i
            invariant
                k <= i <= self.rotations@.len(),
                c == self.current_keys@,
                nk == self.new_keys(i as int),
                first_key_with_id(c, id@) is None,
                first_key_with_id(self.new_keys(k as int), id@) is None,
            decreases i - k,
        {
            if str_equal(self.rotations[k].new_key.key_id.as_str(), id) {
                proof {
                    let rest = nk.skip(k as int);
                    assert(nk =~= self.new_keys(k as int) + rest);
                    lemma_first_key_concat(self.new_keys(k as int), rest, id@);
                    assert(rest[0] == self.rotations@[k as int].new_key);
                    lemma_first_key_concat(c, nk, id@);
                }
                return Some(&self.rotations[k].new_key);
            }
            proof {
                let x = self.rotations@[k as int].new_key;
                assert(self.new_keys(k + 1) =~= self.new_keys(k as int) + seq![x]);
                lemma_first_key_concat(self.new_keys(k as int), seq![x], id@);
                lemma_first_key_single(x, id@);
            }
            k = k + 1;
        }
        proof {
            lemma_first_key_concat(c, nk, id@);
        }
        None
    }

    /// Verify entire chain from initial keys to current keys.
    pub fn verify(&self) -> (r: Result<bool, TrustError>)
        ensures
            r == self.verdict(),
    {
        if self.current_keys.len() == 0 {
            return Ok(false);
        }
        let mut a: usize = 0;
        while a < self.current_keys.len()
            invariant
                a <= self.current_keys@.len(),
                forall|j: int| 0 <= j < a ==> lifetime_ok(#[trigger] self.current_keys@[j]),
            decreases self.current_keys@.len() - a,
        {
            let k = &self.current_keys[a];
            if k.valid_until > k.valid_from && k.valid_until - k.valid_from > MAX_KEY_LIFETIME_SECS {
                assert(!lifetime_ok(self.current_keys@[a as int]));
                return Ok(false);
            }
            a = a + 1;
        }
        let n = self.rotations.len();
        let mut b: usize = 0;
        while b < n
            invariant
                b <= n == self.rotations@.len(),
                forall|j: int| 0 <= j < b ==> lifetime_ok(#[trigger] self.rotations@[j].new_key),
            decreases n - b,
        {
            let k = &self.rotations[b].new_key;
            if k.valid_until > k.valid_from && k.valid_until - k.valid_from > MAX_KEY_LIFETIME_SECS {
                assert(!lifetime_ok(self.rotations@[b as int].new_key));
                return Ok(false);
            }
            b = b + 1;
        }
        assert(self.lifetimes_ok());
        let mut i: usize = 0;
        while i < n
            invariant
                i <= n == self.rotations@.len(),
                self.current_keys@.len() > 0,
                self.lifetimes_ok(),
                self.verdict() == self.rotations_verdict(i as int),
            decreases n - i,
        {
            let r = &self.rotations[i];
            let k = match self.signer_key(i, r.signed_by_key_id.as_str()) {
                Some(k) => k,
                None => return Err(TrustError::UnknownRotationSigner),
            };
            match r.verify(k) {
                Err(e) => return Err(e),
                Ok(false) => return Ok(false),
                Ok(true) => {},
            }
            if self.revocation_list.is_revoked(r.signed_by_key_id.as_str()) {
                return Ok(false);
            }
            i = i + 1;
        }
        let crl = &self.revocation_list;
        if crl.signature.len() != 0 {
            return match self.signer_key(n, crl.signed_by_key_id.as_str()) {
                Some(k) => crl.verify(k),
                None => Err(TrustError::UnknownCrlSigner),
            };
        }
        Ok(true)
    }

    /// Get the keys valid at `now` that are not revoked.
    pub fn get_valid_keys_at(&self, now: u64) -> (r: Vec<AdminKey>)
        ensures
            r@ == self.valid_keys_at(now),
    {
        let mut r: Vec<AdminKey> = Vec::new();
        let mut i: usize = 0;
        while i < self.current_keys.len()
            invariant
                i <= self.current_keys@.len(),
                r@ == usable_keys(self.current_keys@.take(i as int), self.revocation_list, now),
            decreases self.current_keys@.len() - i,
        {
            let k = &self.current_keys[i];
            assert(self.current_keys@.take(i + 1).drop_last() =~= self.current_keys@.take(i as int));
            if k.is_valid_at(now) && !self.revocation_list.is_revoked(k.key_id.as_str()) {
                r.push(k.duplicate());
            }
            i = i + 1;
        }
        assert(self.current_keys@.take(self.current_keys@.len() as int) =~= self.current_keys@);
        r
    }

    /// Get all currently valid admin keys (not expired, not revoked).
    pub fn get_valid_keys(&self) -> (r: Vec<AdminKey>)
        ensures
            exists|now: u64| r@ == self.valid_keys_at(now),
    {
        self.get_valid_keys_at(unix_now())
    }

    /// Whether `id` is the key id of a key valid at `now` and not revoked.
    pub fn is_admin_at(&self, peer_id: &str, now: u64) -> (r: bool)
        ensures
            r == has_key_id(self.valid_keys_at(now), peer_id@),
    {
        let keys = self.get_valid_keys_at(now);
        let mut i: usize = 0;
        while i < keys.len()
            invariant
                i <= keys@.len(),
                keys@ == self.valid_keys_at(now),
                forall|j: int| 0 <= j < i ==> keys@[j].key_id@ != peer_id@,
            decreases keys@.len() - i,
        {
            if str_equal(keys[i].key_id.as_str(), peer_id) {
                assert(keys@[i as int].key_id@ == peer_id@);
                return true;
            }
            i = i + 1;
        }
        false
    }

    /// Check if a peer ID is an admin.
    pub fn is_admin(&self, peer_id: &str) -> (r: bool)
        ensures
            exists|now: u64| r == has_key_id(self.valid_keys_at(now), peer_id@),
            r ==> has_key_id(self.current_keys@, peer_id@),
    {
        let now = unix_now();
        let r = self.is_admin_at(peer_id, now);
        proof {
            lemma_usable_keys_subset(self.current_keys@, self.revocation_list, now, peer_id@);
        }
        r
    }
}

/// A copy of a byte vector.
pub fn copy_bytes(v: &Vec<u8>) -> (r: Vec<u8>)
    ensures
        r@ == v@,
{
    let mut r: Vec<u8> = Vec::new();
    let mut i: usize = 0;
    while i < v.len()
        invariant
            i <= v@.len(),
            r@ =~= v@.take(i as int),
        decreases v@.len() - i,
    {
        r.push(v[i]);
        i = i + 1;
    }
    r
}

impl KeyRotation {
    /// A copy of this rotation.
    pub fn duplicate(&self) -> (r: KeyRotation)
        ensures
            r.new_key == self.new_key,
            r.signed_by_key_id == self.signed_by_key_id,
            r.signature@ == self.signature@,
            r.rotated_at == self.rotated_at,
            r.reason == self.reason,
    {
        KeyRotation {
            new_key: self.new_key.duplicate(),
            signed_by_key_id: self.signed_by_key_id.clone(),
            signature: copy_bytes(&self.signature),
            rotated_at: self.rotated_at,
            reason: self.reason.clone(),
        }
    }
}

impl AdminTrustChain {
    /// Checks a new rotation against the current keys and, when it is accepted, appends it
    /// and its new key; nothing else changes.
    fn admit_rotation(&mut self, rotation: KeyRotation) -> (r: Result<(), TrustError>)
        ensures
            first_key_with_id(old(self).current_keys@, rotation.signed_by_key_id@) is None ==> r == Err::<
                (),
                TrustError,
            >(TrustError::UnknownSigningKey) && *final(self) == *old(self),
            first_key_with_id(old(self).current_keys@, rotation.signed_by_key_id@) matches Some(k)
                && !rotation.signed_by(k) ==> r == Err::<(), TrustError>(TrustError::InvalidRotationSignature)
                && *final(self) == *old(self),
            first_key_with_id(old(self).current_keys@, rotation.signed_by_key_id@) matches Some(k)
                && rotation.signed_by(k) && !lifetime_ok(rotation.new_key) ==> r == Err::<(), TrustError>(
                TrustError::KeyLifetimeTooLong,
            ) && *final(self) == *old(self),
            first_key_with_id(old(self).current_keys@, rotation.signed_by_key_id@) matches Some(k)
                && rotation.signed_by(k) && lifetime_ok(rotation.new_key) ==> r == Ok::<(), TrustError>(())
                && final(self).rotations@ == old(self).rotations@.push(rotation)
                && final(self).current_keys@ == old(self).current_keys@.push(rotation.new_key)
                && final(self).revocation_list == old(self).revocation_list
                && final(self).last_updated == old(self).last_updated
                && final(self).version == old(self).version,
    {
        proof {
            assert(self.current_keys@ + self.new_keys(0) =~= self.current_keys@);
        }
        let signing = match self.signer_key(0, rotation.signed_by_key_id.as_str()) {
            Some(k) => k,
            None => return Err(TrustError::UnknownSigningKey),
        };
        let ok = rotation.verify(signing);
        if !matches!(ok, Ok(true)) {
            return Err(TrustError::InvalidRotationSignature);
        }
        let nk = &rotation.new_key;
        if nk.valid_until > nk.valid_from && nk.valid_until - nk.valid_from > MAX_KEY_LIFETIME_SECS {
            return Err(TrustError::KeyLifetimeTooLong);
        }
        let new_key = rotation.new_key.duplicate();
        self.rotations.push(rotation);
        self.current_keys.push(new_key);
        Ok(())
    }

    /// Apply a new rotation (admin operation) at time `now`: the rotation must be signed
    /// (Ed25519, over the new key) by the first current key with the named id, and its new
    /// key may last at most the maximum key lifetime; it is appended with its new key, and
    /// the chain's version advances.
    pub fn apply_rotation_at(&mut self, rotation: KeyRotation, now: u64) -> (r: Result<(), TrustError>)
        requires
            old(self).version < u64::MAX,
        ensures
            first_key_with_id(old(self).current_keys@, rotation.signed_by_key_id@) is None ==> r == Err::<
                (),
                TrustError,
            >(TrustError::UnknownSigningKey) && *final(self) == *old(self),
            first_key_with_id(old(self).current_keys@, rotation.signed_by_key_id@) matches Some(k)
                && !rotation.signed_by(k) ==> r == Err::<(), TrustError>(TrustError::InvalidRotationSignature)
                && *final(self) == *old(self),
            first_key_with_id(old(self).current_keys@, rotation.signed_by_key_id@) matches Some(k)
                && rotation.signed_by(k) && !lifetime_ok(rotation.new_key) ==> r == Err::<(), TrustError>(
                TrustError::KeyLifetimeTooLong,
            ) && *final(self) == *old(self),
            first_key_with_id(old(self).current_keys@, rotation.signed_by_key_id@) matches Some(k)
                && rotation.signed_by(k) && lifetime_ok(rotation.new_key) ==> r == Ok::<(), TrustError>(())
                && final(self).rotations@ == old(self).rotations@.push(rotation)
                && final(self).current_keys@ == old(self).current_keys@.push(rotation.new_key)
                && final(self).revocation_list == old(self).revocation_list
                && final(self).last_updated == now && final(self).version == old(self).version + 1,
    {
        self.admit_rotation(rotation)?;
        self.last_updated = now;
        self.version = self.version + 1;
        Ok(())
    }

    /// Apply a new rotation (admin operation), stamped with the current time. When the clock
    /// reads before the Unix epoch the rotation stays appended and `ClockBeforeEpoch` is
    /// returned without a new stamp or version.
    pub fn apply_rotation(&mut self, rotation: KeyRotation) -> (r: Result<(), TrustError>)
        requires
            old(self).version < u64::MAX,
        ensures
            first_key_with_id(old(self).current_keys@, rotation.signed_by_key_id@) is None ==> r == Err::<
                (),
                TrustError,
            >(TrustError::UnknownSigningKey) && *final(self) == *old(self),
            first_key_with_id(old(self).current_keys@, rotation.signed_by_key_id@) matches Some(k)
                && !rotation.signed_by(k) ==> r == Err::<(), TrustError>(TrustError::InvalidRotationSignature)
                && *final(self) == *old(self),
            first_key_with_id(old(self).current_keys@, rotation.signed_by_key_id@) matches Some(k)
                && rotation.signed_by(k) && !lifetime_ok(rotation.new_key) ==> r == Err::<(), TrustError>(
                TrustError::KeyLifetimeTooLong,
            ) && *final(self) == *old(self),
            first_key_with_id(old(self).current_keys@, rotation.signed_by_key_id@) matches Some(k)
                && rotation.signed_by(k) && lifetime_ok(rotation.new_key) ==> final(self).rotations@
                == old(self).rotations@.push(rotation) && final(self).current_keys@ == old(self).current_keys@.push(
                rotation.new_key,
            ) && final(self).revocation_list == old(self).revocation_list && (r is Ok ==> final(self).version
                == old(self).version + 1) && (r is Err ==> r == Err::<(), TrustError>(TrustError::ClockBeforeEpoch)
                && final(self).version == old(self).version),
    {
        self.admit_rotation(rotation)?;
        let now = match system_clock_secs() {
            Some(t) => t,
            None => return Err(TrustError::ClockBeforeEpoch),
        };
        self.last_updated = now;
        self.version = self.version + 1;
        Ok(())
    }

    /// Finds the first key valid at `now`, not revoked, with id `id`.
    fn valid_key_index(&self, id: &str, now: u64) -> (r: Option<usize>)
        ensures
            r matches Some(j) ==> j < self.current_keys@.len() && first_key_with_id(self.valid_keys_at(now), id@)
                == Some(self.current_keys@[j as int]),
            r is None ==> first_key_with_id(self.valid_keys_at(now), id@) is None,
    {
        let ghost c = self.current_keys@;
        let ghost crl = self.revocation_list;
        let mut j: usize = 0;
        while j < self.current_keys.len()
            invariant
                j <= c.len(),
                c == self.current_keys@,
                crl == self.revocation_list,
                first_key_with_id(usable_keys(c.take(j as int), crl, now), id@) is None,
            decreases c.len() - j,
        {
            let k = &self.current_keys[j];
            assert(c.take(j + 1).drop_last() =~= c.take(j as int));
            if str_equal(k.key_id.as_str(), id) && k.is_valid_at(now) && !self.revocation_list.is_revoked(
                k.key_id.as_str(),
            ) {
                proof {
                    let pre = usable_keys(c.take(j as int), crl, now);
                    assert(usable_keys(c.take(j + 1), crl, now) == pre.push(c[j as int]));
                    assert(pre.push(c[j as int]) =~= pre + seq![c[j as int]]);
                    lemma_first_key_concat(pre, seq![c[j as int]], id@);
                    assert(c =~= c.take(j + 1) + c.skip(j + 1));
                    lemma_usable_keys_concat(c.take(j + 1), c.skip(j + 1), crl, now);
                    lemma_first_key_concat(usable_keys(c.take(j + 1), crl, now), usable_keys(c.skip(j + 1), crl, now), id@);
                }
                return Some(j);
            }
            proof {
                let pre = usable_keys(c.take(j as int), crl, now);
                let post = usable_keys(c.take(j + 1), crl, now);
                if post != pre {
                    assert(post == pre.push(c[j as int]));
                    assert(post =~= pre + seq![c[j as int]]);
                    lemma_first_key_concat(pre, seq![c[j as int]], id@);
                    lemma_first_key_single(c[j as int], id@);
                }
            }
            j = j + 1;
        }
        assert(c.take(c.len() as int) =~= c);
        None
    }

    /// Update revocation list (admin operation) at time `now`: it must be signed (Ed25519,
    /// over its JSON text) by the first key with the named id that is valid at `now` and not
    /// revoked, and be newer than the current list.
    pub fn update_revocation_list_at(&mut self, revocation_list: RevocationList, now: u64) -> (r:
        Result<(), TrustError>)
        requires
            old(self).version < u64::MAX,
        ensures
            first_key_with_id(old(self).valid_keys_at(now), revocation_list.signed_by_key_id@) is None ==> r
                == Err::<(), TrustError>(TrustError::NonAdminCrlSigner) && *final(self) == *old(self),
            first_key_with_id(old(self).valid_keys_at(now), revocation_list.signed_by_key_id@) matches Some(k)
                && !revocation_list.signed_by(k) ==> r == Err::<(), TrustError>(TrustError::InvalidCrlSignature)
                && *final(self) == *old(self),
            first_key_with_id(old(self).valid_keys_at(now), revocation_list.signed_by_key_id@) matches Some(k)
                && revocation_list.signed_by(k) && revocation_list.version <= old(self).revocation_list.version
                ==> r == Err::<(), TrustError>(TrustError::CrlNotNewer) && *final(self) == *old(self),
            first_key_with_id(old(self).valid_keys_at(now), revocation_list.signed_by_key_id@) matches Some(k)
                && revocation_list.signed_by(k) && revocation_list.version > old(self).revocation_list.version
                ==> r == Ok::<(), TrustError>(()) && final(self).revocation_list == revocation_list
                && final(self).rotations == old(self).rotations && final(self).current_keys == old(
                self,
            ).current_keys && final(self).last_updated == now && final(self).version == old(self).version + 1,
    {
        let j = match self.valid_key_index(revocation_list.signed_by_key_id.as_str(), now) {
            Some(j) => j,
            None => return Err(TrustError::NonAdminCrlSigner),
        };
        let ok = revocation_list.verify(&self.current_keys[j]);
        if !matches!(ok, Ok(true)) {
            return Err(TrustError::InvalidCrlSignature);
        }
        if revocation_list.version <= self.revocation_list.version {
            return Err(TrustError::CrlNotNewer);
        }
        self.revocation_list = revocation_list;
        self.last_updated = now;
        self.version = self.version + 1;
        Ok(())
    }
}

impl AdminTrustChain {
    /// Update revocation list (admin operation), judged and stamped at the current time.
    pub fn update_revocation_list(&mut self, revocation_list: RevocationList) -> (r: Result<(), TrustError>)
        requires
            old(self).version < u64::MAX,
        ensures
            r is Ok ==> final(self).revocation_list == revocation_list && final(self).version == old(self).version + 1
                && revocation_list.version > old(self).revocation_list.version,
            r is Err ==> *final(self) == *old(self),
            exists|now: u64| {
                &&& (first_key_with_id(old(self).valid_keys_at(now), revocation_list.signed_by_key_id@) is None
                    ==> r == Err::<(), TrustError>(TrustError::NonAdminCrlSigner))
                &&& (first_key_with_id(old(self).valid_keys_at(now), revocation_list.signed_by_key_id@) matches Some(k)
                    && !revocation_list.signed_by(k) ==> r == Err::<(), TrustError>(TrustError::InvalidCrlSignature))
                &&& (first_key_with_id(old(self).valid_keys_at(now), revocation_list.signed_by_key_id@) matches Some(k)
                    && revocation_list.signed_by(k) && revocation_list.version <= old(self).revocation_list.version
                    ==> r == Err::<(), TrustError>(TrustError::CrlNotNewer))
                &&& (first_key_with_id(old(self).valid_keys_at(now), revocation_list.signed_by_key_id@) matches Some(k)
                    && revocation_list.signed_by(k) && revocation_list.version > old(self).revocation_list.version
                    ==> r == Ok::<(), TrustError>(()) && final(self).last_updated == now)
            },
    {
        let now = unix_now();
        self.update_revocation_list_at(revocation_list, now)
    }
}

proof fn lemma_usable_keys_concat(a: Seq<AdminKey>, b: Seq<AdminKey>, crl: RevocationList, now: u64)
    ensures
        usable_keys(a + b, crl, now) == usable_keys(a, crl, now) + usable_keys(b, crl, now),
    decreases b.len(),
{
    if b.len() == 0 {
        assert(a + b =~= a);
        assert(usable_keys(a, crl, now) + usable_keys(b, crl, now) =~= usable_keys(a, crl, now));
    } else {
        assert((a + b).drop_last() =~= a + b.drop_last());
        assert((a + b).last() == b.last());
        lemma_usable_keys_concat(a, b.drop_last(), crl, now);
        let k = b.last();
        if k.valid_at(now) && !crl.revokes(k.key_id@) {
            assert(usable_keys(a, crl, now) + usable_keys(b.drop_last(), crl, now).push(k) =~= (usable_keys(
                a,
                crl,
                now,
            ) + usable_keys(b.drop_last(), crl, now)).push(k));
        }
    }
}

proof fn lemma_usable_keys_contains(keys: Seq<AdminKey>, crl: RevocationList, now: u64, j: int)
    requires
        0 <= j < keys.len(),
        keys[j].valid_at(now),
        !crl.revokes(keys[j].key_id@),
    ensures
        usable_keys(keys, crl, now).contains(keys[j]),
    decreases keys.len(),
{
    if j < keys.len() - 1 {
        lemma_usable_keys_contains(keys.drop_last(), crl, now, j);
        let rest = usable_keys(keys.drop_last(), crl, now);
        let m = choose|m: int| 0 <= m < rest.len() && rest[m] == keys[j];
        let full = usable_keys(keys, crl, now);
        assert(full[m] == keys[j]);
    } else {
        let full = usable_keys(keys, crl, now);
        assert(full[full.len() - 1] == keys[j]);
    }
}

proof fn lemma_usable_keys_subset(keys: Seq<AdminKey>, crl: RevocationList, now: u64, id: Seq<char>)
    ensures
        has_key_id(usable_keys(keys, crl, now), id) ==> has_key_id(keys, id),
    decreases keys.len(),
{
    if keys.len() > 0 {
        lemma_usable_keys_subset(keys.drop_last(), crl, now, id);
        let rest = usable_keys(keys.drop_last(), crl, now);
        if has_key_id(usable_keys(keys, crl, now), id) {
            let j = choose|j: int|
                0 <= j < usable_keys(keys, crl, now).len() && #[trigger] usable_keys(
                    keys,
                    crl,
                    now,
                )[j].key_id@ == id;
            if j < rest.len() {
                assert(rest[j].key_id@ == id);
                let m = choose|m: int| 0 <= m < keys.drop_last().len() && #[trigger] keys.drop_last()[m].key_id@ == id;
                assert(keys[m].key_id@ == id);
            } else {
                assert(keys[keys.len() - 1].key_id@ == id);
            }
        }
    }
}

/// Bootstrap status for UI feedback.
#[derive(Debug)]
pub enum BootstrapStatus {
    NotStarted,
    FetchingFromDHT,
    FetchingFromHTTPS { url: String },
    Success { source: String, version: u64 },
    Failed { error: String },
}

/// Trust chain statistics for display.
#[derive(Debug)]
pub struct TrustChainStats {
    pub version: u64,
    pub total_keys: usize,
    pub valid_keys: usize,
    pub expired_keys: usize,
    pub revoked_keys: usize,
    pub rotations_count: usize,
    pub last_updated: u64,
}

/// The index of the first key in `keys[i..]` with id `id` that is valid at `now`.
pub open spec fn first_valid_with_id(keys: Seq<AdminKey>, id: Seq<char>, now: u64, i: int) -> Option<
    int,
>
    decreases keys.len() - i,
{
    if i < 0 || i >= keys.len() {
        None
    } else if keys[i].key_id@ == id && keys[i].valid_at(now) {
        Some(i)
    } else {
        first_valid_with_id(keys, id, now, i + 1)
    }
}

/// The outcome of checking an admin signature: the first current key with this id that is
/// valid at `now` supplies the base64 public key, which must decode to a 32-byte Ed25519
/// key; the signature must be 64 bytes; then Ed25519 decides.
pub open spec fn admin_signature_verdict(
    keys: Seq<AdminKey>,
    key_id: Seq<char>,
    message: Seq<u8>,
    signature: Seq<u8>,
    now: u64,
) -> Result<bool, TrustError> {
    match first_valid_with_id(keys, key_id, now, 0) {
        None => Err(TrustError::KeyNotFound),
        Some(j) => match base64_standard_decode(keys[j].public_key@) {
            None => Err(TrustError::InvalidBase64),
            Some(pk) => if pk.len() != 32 {
                Err(TrustError::InvalidPublicKeyLength)
            } else if !ed25519_key_decodes(pk) {
                Err(TrustError::InvalidPublicKey)
            } else if signature.len() != 64 {
                Err(TrustError::InvalidSignatureLength)
            } else {
                Ok(ed25519_signature_verifies(pk, message, signature))
            },
        },
    }
}

/// Admin trust manager - holds the current trust chain and decides when to replace it.
#[derive(Debug)]
pub struct AdminTrustManager {
    /// Current trust chain
    chain: AdminTrustChain,
    /// Last time (Unix seconds) we queried for updates
    last_update_check: u64,
    /// How often to check for updates, in seconds
    check_interval: u64,
    /// Bootstrap status (for UI)
    bootstrap_status: BootstrapStatus,
}

impl AdminTrustManager {
    /// The current trust chain.
    pub closed spec fn chain_spec(&self) -> AdminTrustChain {
        self.chain
    }

    /// When updates were last checked for.
    pub closed spec fn last_check_spec(&self) -> u64 {
        self.last_update_check
    }

    /// The update interval in seconds.
    pub closed spec fn interval_spec(&self) -> u64 {
        self.check_interval
    }

    /// The bootstrap status.
    pub closed spec fn status_spec(&self) -> BootstrapStatus {
        self.bootstrap_status
    }

    /// A manager that has not bootstrapped yet: empty chain stamped `now`, hourly checks.
    pub fn starting_at(now: u64) -> (r: AdminTrustManager)
        ensures
            r.chain_spec().current_keys@.len() == 0,
            r.chain_spec().rotations@.len() == 0,
            r.chain_spec().version == 0,
            r.last_check_spec() == now,
            r.interval_spec() == UPDATE_CHECK_INTERVAL_SECS,
            r.status_spec() is NotStarted,
    {
        AdminTrustManager {
            chain: AdminTrustChain::empty_at(now),
            last_update_check: now,
            check_interval: UPDATE_CHECK_INTERVAL_SECS,
            bootstrap_status: BootstrapStatus::NotStarted,
        }
    }

    /// Test constructor that skips network bootstrap.
    pub fn new_for_tests() -> (r: AdminTrustManager)
        ensures
            r.chain_spec().current_keys@.len() == 0,
            r.chain_spec().rotations@.len() == 0,
            r.chain_spec().version == 0,
            r.interval_spec() == UPDATE_CHECK_INTERVAL_SECS,
            r.status_spec() matches BootstrapStatus::Success { source, version } && source@
                == "test"@ && version == 0,
    {
        let now = unix_now();
        AdminTrustManager {
            chain: AdminTrustChain::empty_at(now),
            last_update_check: now,
            check_interval: UPDATE_CHECK_INTERVAL_SECS,
            bootstrap_status: BootstrapStatus::Success { source: String::from_str("test"), version: 0 },
        }
    }

    /// Create from an existing chain (loaded from DHT) at time `now`: the chain must verify.
    pub fn from_chain_at(chain: AdminTrustChain, now: u64) -> (r: Result<AdminTrustManager, TrustError>)
        ensures
            chain.verdict() matches Err(e) ==> r == Err::<AdminTrustManager, TrustError>(e),
            chain.verdict() == Ok::<bool, TrustError>(false) ==> r == Err::<AdminTrustManager, TrustError>(
                TrustError::InvalidTrustChain,
            ),
            chain.verdict() == Ok::<bool, TrustError>(true) ==> (r matches Ok(m) && m.chain_spec() == chain
                && m.last_check_spec() == now && m.interval_spec() == 3600
                && (m.status_spec() matches BootstrapStatus::Success { source, version } && source@
                == "cached"@ && version == chain.version)),
    {
        match chain.verify() {
            Err(e) => return Err(e),
            Ok(false) => return Err(TrustError::InvalidTrustChain),
            Ok(true) => {},
        }
        let version = chain.version;
        Ok(
            AdminTrustManager {
                chain,
                last_update_check: now,
                bootstrap_status: BootstrapStatus::Success {
                    source: String::from_str("cached"),
                    version,
                },
                check_interval: 3600,
            },
        )
    }

    /// Create from an existing chain (loaded from DHT): the chain must verify.
    pub fn from_chain(chain: AdminTrustChain) -> (r: Result<AdminTrustManager, TrustError>)
        ensures
            chain.verdict() matches Err(e) ==> r == Err::<AdminTrustManager, TrustError>(e),
            chain.verdict() == Ok::<bool, TrustError>(false) ==> r == Err::<AdminTrustManager, TrustError>(
                TrustError::InvalidTrustChain,
            ),
            chain.verdict() == Ok::<bool, TrustError>(true) ==> (r matches Ok(m) && m.chain_spec() == chain
                && m.interval_spec() == 3600
                && (m.status_spec() matches BootstrapStatus::Success { source, version } && source@
                == "cached"@ && version == chain.version)),
    {
        AdminTrustManager::from_chain_at(chain, unix_now())
    }

    /// Whether an update check is due at `now`: more than the interval has passed since the
    /// last check (a clock reading before the last check counts as no time passed).
    pub open spec fn update_due(&self, now: u64) -> bool {
        now > self.last_check_spec() && now - self.last_check_spec() > self.interval_spec()
    }

    /// Check if we should query for updates at `now`.
    pub fn should_update_at(&self, now: u64) -> (r: bool)
        ensures
            r == self.update_due(now),
    {
        now > self.last_update_check && now - self.last_update_check > self.check_interval
    }

    /// Check if we should query for updates now.
    pub fn should_update(&self) -> (r: bool)
        ensures
            exists|now: u64| r == self.update_due(now),
    {
        self.should_update_at(unix_now())
    }

    /// Starts an update check at `now` if one is due: records the check time and returns
    /// true; otherwise changes nothing and returns false.
    pub fn begin_update_check_at(&mut self, now: u64) -> (r: bool)
        ensures
            r == old(self).update_due(now),
            r ==> final(self).last_check_spec() == now && final(self).chain_spec() == old(self).chain_spec()
                && final(self).interval_spec() == old(self).interval_spec(),
            !r ==> *final(self) == *old(self),
    {
        if !self.should_update_at(now) {
            return false;
        }
        self.last_update_check = now;
        true
    }

    /// Adopts a chain fetched over HTTPS if it is newer than the current one and verifies.
    pub fn adopt_fetched_chain(&mut self, new_chain: AdminTrustChain) -> (r: Result<bool, TrustError>)
        ensures
            new_chain.version <= old(self).chain_spec().version ==> r == Ok::<bool, TrustError>(false)
                && *final(self) == *old(self),
            new_chain.version > old(self).chain_spec().version ==> (match new_chain.verdict() {
                Err(e) => r == Err::<bool, TrustError>(e) && *final(self) == *old(self),
                Ok(false) => r == Ok::<bool, TrustError>(false) && *final(self) == *old(self),
                Ok(true) => r == Ok::<bool, TrustError>(true) && final(self).chain_spec() == new_chain
                    && final(self).last_check_spec() == old(self).last_check_spec()
                    && final(self).interval_spec() == old(self).interval_spec(),
            }),
    {
        if new_chain.version > self.chain.version {
            let ok = new_chain.verify()?;
            if ok {
                self.chain = new_chain;
                return Ok(true);
            }
        }
        Ok(false)
    }

    /// Update from a DHT record at `now`: the chain must verify and be newer.
    pub fn update_from_dht_at(&mut self, dht_chain: AdminTrustChain, now: u64) -> (r: Result<bool, TrustError>)
        ensures
            dht_chain.verdict() matches Err(e) ==> r == Err::<bool, TrustError>(e) && *final(self) == *old(self),
            dht_chain.verdict() == Ok::<bool, TrustError>(false) ==> r == Ok::<bool, TrustError>(false)
                && *final(self) == *old(self),
            dht_chain.verdict() == Ok::<bool, TrustError>(true) && dht_chain.version <= old(
                self).chain_spec().version ==> r == Ok::<bool, TrustError>(false) && *final(self) == *old(self),
            dht_chain.verdict() == Ok::<bool, TrustError>(true) && dht_chain.version > old(
                self).chain_spec().version ==> r == Ok::<bool, TrustError>(true) && final(self).chain_spec()
                == dht_chain && final(self).last_check_spec() == now && final(self).interval_spec()
                == old(self).interval_spec(),
    {
        let ok = dht_chain.verify()?;
        if !ok {
            return Ok(false);
        }
        if dht_chain.version > self.chain.version {
            self.chain = dht_chain;
            self.last_update_check = now;
            Ok(true)
        } else {
            Ok(false)
        }
    }

    /// Update from a DHT record, stamping the check with the current time.
    pub fn update_from_dht(&mut self, dht_chain: AdminTrustChain) -> (r: Result<bool, TrustError>)
        ensures
            dht_chain.verdict() matches Err(e) ==> r == Err::<bool, TrustError>(e) && *final(self) == *old(self),
            dht_chain.verdict() == Ok::<bool, TrustError>(false) ==> r == Ok::<bool, TrustError>(false)
                && *final(self) == *old(self),
            dht_chain.verdict() == Ok::<bool, TrustError>(true) && dht_chain.version <= old(
                self).chain_spec().version ==> r == Ok::<bool, TrustError>(false) && *final(self) == *old(self),
            dht_chain.verdict() == Ok::<bool, TrustError>(true) && dht_chain.version > old(
                self).chain_spec().version ==> r == Ok::<bool, TrustError>(true) && final(self).chain_spec()
                == dht_chain,
    {
        let now = unix_now();
        self.update_from_dht_at(dht_chain, now)
    }

    /// Marks that the DHT is being asked for the chain.
    pub fn begin_dht_bootstrap(&mut self)
        ensures
            final(self).status_spec() is FetchingFromDHT,
            final(self).chain_spec() == old(self).chain_spec(),
            final(self).last_check_spec() == old(self).last_check_spec(),
            final(self).interval_spec() == old(self).interval_spec(),
    {
        self.bootstrap_status = BootstrapStatus::FetchingFromDHT;
    }

    /// Marks that `url` is being asked for the chain.
    pub fn begin_https_bootstrap(&mut self, url: &str)
        ensures
            final(self).status_spec() matches BootstrapStatus::FetchingFromHTTPS { url: u } && u@ == url@,
            final(self).chain_spec() == old(self).chain_spec(),
            final(self).last_check_spec() == old(self).last_check_spec(),
            final(self).interval_spec() == old(self).interval_spec(),
    {
        self.bootstrap_status = BootstrapStatus::FetchingFromHTTPS { url: url.to_owned() };
    }

    /// Adopts a chain bootstrapped from `source` if it verifies.
    pub fn adopt_bootstrap_chain(&mut self, chain: AdminTrustChain, source: &str) -> (r: Result<bool, TrustError>)
        ensures
            chain.verdict() matches Err(e) ==> r == Err::<bool, TrustError>(e) && *final(self) == *old(self),
            chain.verdict() == Ok::<bool, TrustError>(false) ==> r == Ok::<bool, TrustError>(false)
                && *final(self) == *old(self),
            chain.verdict() == Ok::<bool, TrustError>(true) ==> r == Ok::<bool, TrustError>(true)
                && final(self).chain_spec() == chain
                && final(self).last_check_spec() == old(self).last_check_spec()
                && final(self).interval_spec() == old(self).interval_spec()
                && (final(self).status_spec() matches BootstrapStatus::Success { source: s, version }
                && s@ == source@ && version == chain.version),
    {
        let ok = chain.verify()?;
        if !ok {
            return Ok(false);
        }
        let version = chain.version;
        self.chain = chain;
        self.bootstrap_status = BootstrapStatus::Success { source: source.to_owned(), version };
        Ok(true)
    }

    /// Marks that every bootstrap source failed.
    pub fn mark_bootstrap_failed(&mut self)
        ensures
            final(self).status_spec() matches BootstrapStatus::Failed { error } && error@
                == "All bootstrap sources failed"@,
            final(self).chain_spec() == old(self).chain_spec(),
            final(self).last_check_spec() == old(self).last_check_spec(),
            final(self).interval_spec() == old(self).interval_spec(),
    {
        self.bootstrap_status = BootstrapStatus::Failed {
            error: String::from_str("All bootstrap sources failed"),
        };
    }

    /// Check if a key ID is a valid admin at `now`.
    pub fn is_admin_key_at(&self, key_id: &str, now: u64) -> (r: bool)
        ensures
            r == has_key_id(self.chain_spec().valid_keys_at(now), key_id@),
    {
        self.chain.is_admin_at(key_id, now)
    }

    /// Check if a key ID is a valid admin now.
    pub fn is_admin_key(&self, key_id: &str) -> (r: bool)
        ensures
            exists|now: u64| r == has_key_id(self.chain_spec().valid_keys_at(now), key_id@),
    {
        self.is_admin_key_at(key_id, unix_now())
    }

    /// Finds the first current key with id `key_id` that is valid at `now`.
    fn first_valid_key_index(&self, key_id: &str, now: u64) -> (r: Option<usize>)
        ensures
            r matches Some(j) ==> first_valid_with_id(self.chain_spec().current_keys@, key_id@, now, 0)
                == Some(j as int) && j < self.chain_spec().current_keys@.len(),
            r is None ==> first_valid_with_id(self.chain_spec().current_keys@, key_id@, now, 0) is None,
    {
        let keys = &self.chain.current_keys;
        let mut j: usize = 0;
        while j < keys.len()
            invariant
                j <= keys@.len(),
                keys@ == self.chain_spec().current_keys@,
                first_valid_with_id(keys@, key_id@, now, 0) == first_valid_with_id(
                    keys@,
                    key_id@,
                    now,
                    j as int,
                ),
            decreases keys@.len() - j,
        {
            if str_equal(keys[j].key_id.as_str(), key_id) && keys[j].is_valid_at(now) {
                assert(first_valid_with_id(keys@, key_id@, now, j as int) == Some(j as int));
                return Some(j);
            }
            j = j + 1;
        }
        None
    }

    /// Verify a signature from an admin at time `now`.
    pub fn verify_admin_signature_at(&self, key_id: &str, message: &[u8], signature: &[u8], now: u64) -> (r:
        Result<bool, TrustError>)
        ensures
            r == admin_signature_verdict(self.chain_spec().current_keys@, key_id@, message@, signature@, now),
    {
        let j = match self.first_valid_key_index(key_id, now) {
            Some(j) => j,
            None => return Err(TrustError::KeyNotFound),
        };
        let decoded = match base64_decode(self.chain.current_keys[j].public_key.as_str()) {
            Some(d) => d,
            None => return Err(TrustError::InvalidBase64),
        };
        if decoded.len() != 32 {
            return Err(TrustError::InvalidPublicKeyLength);
        }
        let mut key: [u8; 32] = [0u8; 32];
        let mut i: usize = 0;
        while i < 32
            invariant
                i <= 32,
                decoded@.len() == 32,
                forall|m: int| 0 <= m < i ==> key@[m] == decoded@[m],
            decreases 32 - i,
        {
            key[i] = decoded[i];
            i = i + 1;
        }
        assert(key@ =~= decoded@);
        if !ed25519_key_is_valid(&key) {
            return Err(TrustError::InvalidPublicKey);
        }
        if signature.len() != 64 {
            return Err(TrustError::InvalidSignatureLength);
        }
        let mut sig: [u8; 64] = [0u8; 64];
        let mut k: usize = 0;
        while k < 64
            invariant
                k <= 64,
                signature@.len() == 64,
                forall|m: int| 0 <= m < k ==> sig@[m] == signature@[m],
            decreases 64 - k,
        {
            sig[k] = signature[k];
            k = k + 1;
        }
        assert(sig@ =~= signature@);
        Ok(ed25519_verify(&key, message, &sig))
    }

    /// Verify a signature from an admin now.
    pub fn verify_admin_signature(&self, key_id: &str, message: &[u8], signature: &[u8]) -> (r:
        Result<bool, TrustError>)
        ensures
            exists|now: u64| r == admin_signature_verdict(
                self.chain_spec().current_keys@,
                key_id@,
                message@,
                signature@,
                now,
            ),
    {
        self.verify_admin_signature_at(key_id, message, signature, unix_now())
    }

    /// Get current trust chain (for publishing to DHT).
    pub fn get_chain(&self) -> (r: &AdminTrustChain)
        ensures
            *r == self.chain_spec(),
    {
        &self.chain
    }

    /// Get all admin key IDs valid at `now`.
    pub fn get_admin_key_ids_at(&self, now: u64) -> (r: Vec<String>)
        ensures
            r@.len() == self.chain_spec().valid_keys_at(now).len(),
            forall|i: int| 0 <= i < r@.len() ==> r@[i]@ == self.chain_spec().valid_keys_at(now)[i].key_id@,
    {
        let keys = self.chain.get_valid_keys_at(now);
        let mut r: Vec<String> = Vec::new();
        let mut i: usize = 0;
        while i < keys.len()
            invariant
                i <= keys@.len(),
                r@.len() == i,
                forall|m: int| 0 <= m < i ==> r@[m]@ == keys@[m].key_id@,
            decreases keys@.len() - i,
        {
            r.push(keys[i].key_id.clone());
            i = i + 1;
        }
        r
    }

    /// Get all valid admin key IDs now.
    pub fn get_admin_key_ids(&self) -> (r: Vec<String>)
        ensures
            exists|now: u64| r@.len() == self.chain_spec().valid_keys_at(now).len() && forall|i: int|
                0 <= i < r@.len() ==> r@[i]@ == self.chain_spec().valid_keys_at(now)[i].key_id@,
    {
        self.get_admin_key_ids_at(unix_now())
    }

    /// Get bootstrap status.
    pub fn get_bootstrap_status(&self) -> (r: &BootstrapStatus)
        ensures
            *r == self.status_spec(),
    {
        &self.bootstrap_status
    }

    /// Sign data with an admin key. No private key is held, so this yields the all-zero
    /// 64-byte placeholder signature.
    pub fn sign_data(&self, data: &[u8]) -> (r: Result<Vec<u8>, TrustError>)
        ensures
            r matches Ok(v) && v@ == Seq::new(64, |i: int| 0u8),
    {
        let mut v: Vec<u8> = Vec::new();
        let mut i: usize = 0;
        while i < 64
            invariant
                i <= 64,
                v@ =~= Seq::new(i as nat, |m: int| 0u8),
            decreases 64 - i,
        {
            v.push(0);
            i = i + 1;
        }
        Ok(v)
    }

    /// Get statistics at time `now`.
    pub fn get_stats_at(&self, now: u64) -> (r: TrustChainStats)
        ensures
            r.version == self.chain_spec().version,
            r.total_keys == self.chain_spec().current_keys@.len(),
            r.valid_keys == self.chain_spec().valid_keys_at(now).len(),
            r.expired_keys == expired_count(self.chain_spec().current_keys@, now),
            r.revoked_keys == self.chain_spec().revocation_list.revoked_keys@.len(),
            r.rotations_count == self.chain_spec().rotations@.len(),
            r.last_updated == self.chain_spec().last_updated,
    {
        let valid = self.chain.get_valid_keys_at(now);
        let keys = &self.chain.current_keys;
        let mut expired: usize = 0;
        let mut i: usize = 0;
        while i < keys.len()
            invariant
                i <= keys@.len(),
                expired == expired_count(keys@.take(i as int), now),
                expired <= i,
            decreases keys@.len() - i,
        {
            assert(keys@.take(i + 1).drop_last() =~= keys@.take(i as int));
            if keys[i].is_expired_at(now) {
                expired = expired + 1;
            }
            i = i + 1;
        }
        assert(keys@.take(keys@.len() as int) =~= keys@);
        TrustChainStats {
            version: self.chain.version,
            total_keys: keys.len(),
            valid_keys: valid.len(),
            expired_keys: expired,
            revoked_keys: self.chain.revocation_list.revoked_keys.len(),
            rotations_count: self.chain.rotations.len(),
            last_updated: self.chain.last_updated,
        }
    }

    /// Get statistics now.
    pub fn get_stats(&self) -> (r: TrustChainStats)
        ensures
            r.version == self.chain_spec().version,
            r.total_keys == self.chain_spec().current_keys@.len(),
            r.revoked_keys == self.chain_spec().revocation_list.revoked_keys@.len(),
            r.rotations_count == self.chain_spec().rotations@.len(),
            r.last_updated == self.chain_spec().last_updated,
            exists|now: u64| r.valid_keys == self.chain_spec().valid_keys_at(now).len() && r.expired_keys
                == expired_count(self.chain_spec().current_keys@, now),
    {
        self.get_stats_at(unix_now())
    }
}

/// A chain that verifies has initial keys, every key lasts at most the maximum key lifetime,
/// every rotation carries the Ed25519 signature, over its new key, of the key known before it
/// under the id it names, and that key is not revoked; a signed revocation list carries the
/// signature of a known key.
pub proof fn lemma_verified_chain_is_signed_in_order(chain: AdminTrustChain)
    requires
        chain.verdict() == Ok::<bool, TrustError>(true),
    ensures
        chain.current_keys@.len() > 0,
        chain.lifetimes_ok(),
        forall|i: int|
            0 <= i < chain.rotations@.len() ==> {
                let r = #[trigger] chain.rotations@[i];
                &&& chain.signer(i, r.signed_by_key_id@) matches Some(k) && r.signed_by(k)
                &&& !chain.revocation_list.revokes(r.signed_by_key_id@)
            },
        chain.revocation_list.signature@.len() != 0 ==> (chain.signer(
            chain.rotations@.len() as int,
            chain.revocation_list.signed_by_key_id@,
        ) matches Some(k) && chain.revocation_list.signed_by(k)),
{
    assert forall|i: int| 0 <= i < chain.rotations@.len() implies {
        let r = #[trigger] chain.rotations@[i];
        &&& chain.signer(i, r.signed_by_key_id@) matches Some(k) && r.signed_by(k)
        &&& !chain.revocation_list.revokes(r.signed_by_key_id@)
    } by {
        lemma_rotations_verdict_prefix(chain, 0, i);
    }
    lemma_rotations_verdict_crl(chain, 0);
}

proof fn lemma_rotations_verdict_prefix(chain: AdminTrustChain, k: int, i: int)
    requires
        0 <= k <= i < chain.rotations@.len(),
        chain.rotations_verdict(k) == Ok::<bool, TrustError>(true),
    ensures
        chain.signer(i, chain.rotations@[i].signed_by_key_id@) matches Some(s) && chain.rotations@[i].signed_by(s),
        !chain.revocation_list.revokes(chain.rotations@[i].signed_by_key_id@),
    decreases i - k,
{
    if k < i {
        lemma_rotations_verdict_prefix(chain, k + 1, i);
    }
}

proof fn lemma_rotations_verdict_crl(chain: AdminTrustChain, k: int)
    requires
        0 <= k <= chain.rotations@.len(),
        chain.rotations_verdict(k) == Ok::<bool, TrustError>(true),
    ensures
        chain.crl_verdict() == Ok::<bool, TrustError>(true),
    decreases chain.rotations@.len() - k,
{
    if k < chain.rotations@.len() {
        lemma_rotations_verdict_crl(chain, k + 1);
    }
}

/// The keys introduced before rotation `k` are a prefix of those introduced before `n`.
proof fn lemma_new_keys_prefix(chain: AdminTrustChain, k: int, n: int)
    requires
        0 <= k <= n <= chain.rotations@.len(),
    ensures
        chain.new_keys(n) == chain.new_keys(k) + chain.new_keys(n).skip(k),
{
    assert(chain.new_keys(n) =~= chain.new_keys(k) + chain.new_keys(n).skip(k));
}

/// After a rotation with a fresh key id is appended (and its key added to the current keys),
/// every id known before rotation `k <= n` resolves to the same signer as before.
proof fn lemma_signer_after_push(before: AdminTrustChain, after: AdminTrustChain, rotation: KeyRotation, k: int, id: Seq<char>)
    requires
        0 <= k <= before.rotations@.len(),
        after.rotations@ == before.rotations@.push(rotation),
        after.current_keys@ == before.current_keys@.push(rotation.new_key),
        before.signer(k, id) is Some,
        !before.known_before(before.rotations@.len() as int, rotation.new_key.key_id@),
    ensures
        after.signer(k, id) == before.signer(k, id),
{
    let n = before.rotations@.len() as int;
    let c = before.current_keys@;
    let x = rotation.new_key;
    let nk = before.new_keys(k);
    assert(after.new_keys(k) =~= nk);
    lemma_new_keys_prefix(before, k, n);
    lemma_first_key_concat(c + nk, before.new_keys(n).skip(k), id);
    assert(c + nk + before.new_keys(n).skip(k) =~= c + before.new_keys(n));
    if x.key_id@ == id {
        assert(before.signer(n, x.key_id@) is Some);
        assert(false);
    }
    assert(c.push(x) + nk =~= c + (seq![x] + nk));
    lemma_first_key_concat(c, seq![x] + nk, id);
    lemma_first_key_concat(seq![x], nk, id);
    lemma_first_key_single(x, id);
    lemma_first_key_concat(c, nk, id);
}

proof fn lemma_verdict_after_push(before: AdminTrustChain, after: AdminTrustChain, rotation: KeyRotation, k: int)
    requires
        0 <= k <= before.rotations@.len(),
        after.rotations@ == before.rotations@.push(rotation),
        after.current_keys@ == before.current_keys@.push(rotation.new_key),
        after.revocation_list == before.revocation_list,
        before.rotations_verdict(k) == Ok::<bool, TrustError>(true),
        first_key_with_id(before.current_keys@, rotation.signed_by_key_id@) matches Some(s) && rotation.signed_by(s),
        !before.revocation_list.revokes(rotation.signed_by_key_id@),
        !before.known_before(before.rotations@.len() as int, rotation.new_key.key_id@),
    ensures
        after.rotations_verdict(k) == Ok::<bool, TrustError>(true),
    decreases before.rotations@.len() - k,
{
    let n = before.rotations@.len() as int;
    if k < n {
        lemma_verdict_after_push(before, after, rotation, k + 1);
        let r = before.rotations@[k];
        assert(after.rotations@[k] == r);
        lemma_signer_after_push(before, after, rotation, k, r.signed_by_key_id@);
    } else {
        let c = before.current_keys@;
        let x = rotation.new_key;
        let id = rotation.signed_by_key_id@;
        assert(after.rotations@[n] == rotation);
        assert(after.new_keys(n) =~= before.new_keys(n));
        assert(c.push(x) + after.new_keys(n) =~= c + (seq![x] + after.new_keys(n)));
        lemma_first_key_concat(c, seq![x] + after.new_keys(n), id);
        let crl = before.revocation_list;
        assert(before.crl_verdict() == Ok::<bool, TrustError>(true));
        if crl.signature@.len() != 0 {
            let cid = crl.signed_by_key_id@;
            assert(before.signer(n, cid) is Some);
            lemma_signer_after_push(before, after, rotation, n, cid);
            assert(after.new_keys(n + 1) =~= after.new_keys(n) + seq![x]);
            assert(c.push(x) + after.new_keys(n + 1) =~= (c.push(x) + after.new_keys(n)) + seq![x]);
            lemma_first_key_concat(c.push(x) + after.new_keys(n), seq![x], cid);
        }
        assert(after.rotations_verdict(n + 1) == after.crl_verdict());
    }
}

/// Applying a rotation keeps a verified chain verified, provided its signer is not revoked
/// (`apply_rotation` itself does not consult the revocation list) and the new key's id is
/// not already known in the chain.
pub proof fn lemma_apply_rotation_preserves_verification(
    before: AdminTrustChain,
    after: AdminTrustChain,
    rotation: KeyRotation,
)
    requires
        before.verdict() == Ok::<bool, TrustError>(true),
        first_key_with_id(before.current_keys@, rotation.signed_by_key_id@) matches Some(s) && rotation.signed_by(s),
        lifetime_ok(rotation.new_key),
        !before.revocation_list.revokes(rotation.signed_by_key_id@),
        !before.known_before(before.rotations@.len() as int, rotation.new_key.key_id@),
        after.rotations@ == before.rotations@.push(rotation),
        after.current_keys@ == before.current_keys@.push(rotation.new_key),
        after.revocation_list == before.revocation_list,
    ensures
        after.verdict() == Ok::<bool, TrustError>(true),
{
    lemma_verdict_after_push(before, after, rotation, 0);
    assert(after.current_keys@.len() > 0);
    assert forall|j: int| 0 <= j < after.current_keys@.len() implies lifetime_ok(#[trigger] after.current_keys@[j]) by {
        if j < before.current_keys@.len() {
            assert(after.current_keys@[j] == before.current_keys@[j]);
        }
    }
    assert forall|j: int| 0 <= j < after.rotations@.len() implies lifetime_ok(#[trigger] after.rotations@[j].new_key) by {
        if j < before.rotations@.len() {
            assert(after.rotations@[j] == before.rotations@[j]);
        }
    }
}

} // verus!
