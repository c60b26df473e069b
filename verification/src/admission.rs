//! Public monitor admission.
//!
//! A monitor becomes public in one of two ways: when enough distinct peers signal interest in
//! it (the threshold), or when an admin of the trust chain signs it. Records are kept per
//! DHT key, one record per key.
use vstd::prelude::*;
use crate::admin_trust::{admin_signature_verdict, copy_bytes, has_key_id, AdminTrustChain, AdminTrustManager, TrustError};
use crate::clock::{system_clock_secs, unix_now};
use crate::json::{decimal, json_key, json_string, push_decimal, push_json_key, push_json_string};
use crate::models::{std_to_lowercase, to_lowercase, Monitor};
use crate::text::{concat_str, str_equal, string_push};

verus! {

/// How many independent peers must add a monitor before it becomes public.
pub const PUBLIC_PROMOTION_THRESHOLD: u32 = 5;

/// How old (seconds) an admin signature may be: 7 days.
pub const ADMIN_SIGNATURE_MAX_AGE_SECS: u64 = 604800;

/// Why an admission operation failed.
#[derive(Debug, Clone, Copy, PartialEq, Eq, Structural)]
pub enum AdmissionError {
    /// The monitor has no public domain.
    MissingPublicDomain,
    /// The key id is not a valid admin key.
    InvalidAdminKey,
    /// Only admins can delete public monitors.
    NotAdmin,
    /// The admin signature does not verify.
    InvalidAdminSignature,
    /// The system clock reads earlier than the Unix epoch.
    ClockBeforeEpoch,
    /// The trust chain could not check the signature.
    Trust(TrustError),
}

/// Admin-configurable promotion threshold.
#[derive(Debug, Clone, Copy, PartialEq, Eq, Structural)]
pub struct AdmissionConfig {
    pub threshold: u32,
}

impl Default for AdmissionConfig {
    fn default() -> (r: AdmissionConfig)
        ensures
            r.threshold == 5,
    {
        AdmissionConfig { threshold: PUBLIC_PROMOTION_THRESHOLD }
    }
}

/// Monitor configuration (the canonical definition of a public monitor).
#[derive(Debug)]
pub struct MonitorConfig {
    /// Public domain (primary key)
    pub domain: String,
    /// Target URL
    pub target: String,
    /// Display name for UI
    pub display_name: String,
    /// Check type
    pub check_type: String,
    /// Interval in seconds
    pub interval_seconds: u32,
    /// Timeout in seconds
    pub timeout_seconds: u32,
}

/// The plain value of a monitor configuration.
pub struct ConfigView {
    pub domain: Seq<char>,
    pub target: Seq<char>,
    pub display_name: Seq<char>,
    pub check_type: Seq<char>,
    pub interval_seconds: u32,
    pub timeout_seconds: u32,
}

impl View for MonitorConfig {
    type V = ConfigView;

    open spec fn view(&self) -> ConfigView {
        ConfigView {
            domain: self.domain@,
            target: self.target@,
            display_name: self.display_name@,
            check_type: self.check_type@,
            interval_seconds: self.interval_seconds,
            timeout_seconds: self.timeout_seconds,
        }
    }
}

/// The DHT key of a public domain (case-insensitive).
pub open spec fn dht_key_of(domain: Seq<char>) -> Seq<char> {
    "public-monitor:"@ + std_to_lowercase(domain)
}

/// The configuration of a monitor with public domain `domain`; the display name defaults to
/// the domain, and interval and timeout are cut to 32 bits.
pub open spec fn config_of(m: Monitor, domain: Seq<char>) -> ConfigView {
    ConfigView {
        domain,
        target: m.target@,
        display_name: match m.public_display_name {
            Some(n) => n@,
            None => domain,
        },
        check_type: m.check_type@,
        interval_seconds: m.interval_seconds as u32,
        timeout_seconds: m.timeout_seconds as u32,
    }
}

/// The compact JSON of a configuration, fields in declaration order.
pub open spec fn config_json(c: ConfigView) -> Seq<char> {
    seq!['{'] + json_key("domain"@) + json_string(c.domain) + seq![','] + json_key("target"@)
        + json_string(c.target) + seq![','] + json_key("display_name"@) + json_string(c.display_name)
        + seq![','] + json_key("check_type"@) + json_string(c.check_type) + seq![','] + json_key(
        "interval_seconds"@,
    ) + decimal(c.interval_seconds as nat) + seq![','] + json_key("timeout_seconds"@) + decimal(
        c.timeout_seconds as nat,
    ) + seq!['}']
}

/// The bytes an admin signs for a configuration.
pub open spec fn config_message(c: ConfigView) -> Seq<u8> {
    vstd::utf8::encode_utf8(config_json(c))
}

impl MonitorConfig {
    /// A copy of this configuration.
    pub fn duplicate(&self) -> (r: MonitorConfig)
        ensures
            r@ == self@,
    {
        MonitorConfig {
            domain: self.domain.clone(),
            target: self.target.clone(),
            display_name: self.display_name.clone(),
            check_type: self.check_type.clone(),
            interval_seconds: self.interval_seconds,
            timeout_seconds: self.timeout_seconds,
        }
    }

    /// Create the canonical key for DHT lookup: the domain, case-insensitive.
    pub fn dht_key(&self) -> (r: String)
        ensures
            r@ == dht_key_of(self.domain@),
    {
        let lower = to_lowercase(self.domain.as_str());
        concat_str("public-monitor:", lower.as_str())
    }

    /// Create from a monitor; `None` when it has no public domain.
    pub fn from_monitor(m: &Monitor) -> (r: Option<MonitorConfig>)
        ensures
            m.public_domain is None ==> r is None,
            m.public_domain matches Some(d) ==> (r matches Some(c) && c@ == config_of(*m, d@)),
    {
        match &m.public_domain {
            Some(domain) => {
                let display_name = match &m.public_display_name {
                    Some(n) => n.clone(),
                    None => domain.clone(),
                };
                Some(MonitorConfig {
                    domain: domain.clone(),
                    target: m.target.clone(),
                    display_name,
                    check_type: m.check_type.clone(),
                    interval_seconds: m.interval_seconds as u32,
                    timeout_seconds: m.timeout_seconds as u32,
                })
            },
            None => None,
        }
    }

    /// The bytes an admin signs: the compact JSON of the configuration.
    pub fn canonical_message(&self) -> (r: Vec<u8>)
        ensures
            r@ == config_message(self@),
    {
        let mut s = String::new();
        string_push(&mut s, '{');
        push_json_key(&mut s, "domain");
        push_json_string(&mut s, self.domain.as_str());
        string_push(&mut s, ',');
        push_json_key(&mut s, "target");
        push_json_string(&mut s, self.target.as_str());
        string_push(&mut s, ',');
        push_json_key(&mut s, "display_name");
        push_json_string(&mut s, self.display_name.as_str());
        string_push(&mut s, ',');
        push_json_key(&mut s, "check_type");
        push_json_string(&mut s, self.check_type.as_str());
        string_push(&mut s, ',');
        push_json_key(&mut s, "interval_seconds");
        push_decimal(&mut s, self.interval_seconds as u64);
        string_push(&mut s, ',');
        push_json_key(&mut s, "timeout_seconds");
        push_decimal(&mut s, self.timeout_seconds as u64);
        string_push(&mut s, '}');
        assert(s@ =~= config_json(self@));
        s.as_str().as_bytes_vec()
    }
}

/// Admin signature for privileged operations.
#[derive(Debug)]
pub struct AdminSignature {
    /// Admin key ID who signed this (from trust chain)
    pub admin_key_id: String,
    /// Ed25519 signature over the serialized configuration
    pub signature: Vec<u8>,
    /// Timestamp when signed
    pub signed_at: u64,
}

/// The plain value of an admin signature.
pub struct SignatureView {
    pub admin_key_id: Seq<char>,
    pub signature: Seq<u8>,
    pub signed_at: u64,
}

impl View for AdminSignature {
    type V = SignatureView;

    open spec fn view(&self) -> SignatureView {
        SignatureView { admin_key_id: self.admin_key_id@, signature: self.signature@, signed_at: self.signed_at }
    }
}

impl AdminSignature {
    /// A copy of this signature.
    pub fn duplicate(&self) -> (r: AdminSignature)
        ensures
            r@ == self@,
    {
        AdminSignature {
            admin_key_id: self.admin_key_id.clone(),
            signature: copy_bytes(&self.signature),
            signed_at: self.signed_at,
        }
    }
}

/// Public monitor record stored in the DHT.
#[derive(Debug)]
pub struct PublicMonitorRecord {
    /// Monitor configuration
    pub monitor: MonitorConfig,
    /// Creation timestamp
    pub created_at: u64,
    /// Last modified timestamp
    pub modified_at: u64,
    /// Number of unique peers who have expressed interest
    pub interest_count: u32,
    /// Peer IDs who have signaled interest (for deduplication)
    pub interested_peers: Vec<String>,
    /// Optional admin signature (if admin-created)
    pub admin_signature: Option<AdminSignature>,
}

/// The plain value of a record.
pub struct RecordView {
    pub monitor: ConfigView,
    pub created_at: u64,
    pub modified_at: u64,
    pub interest_count: u32,
    pub interested_peers: Seq<Seq<char>>,
    pub admin_signature: Option<SignatureView>,
}

/// The characters of each string.
pub open spec fn strings_view(v: Seq<String>) -> Seq<Seq<char>> {
    v.map_values(|s: String| s@)
}

impl View for PublicMonitorRecord {
    type V = RecordView;

    open spec fn view(&self) -> RecordView {
        RecordView {
            monitor: self.monitor@,
            created_at: self.created_at,
            modified_at: self.modified_at,
            interest_count: self.interest_count,
            interested_peers: strings_view(self.interested_peers@),
            admin_signature: match self.admin_signature {
                Some(s) => Some(s@),
                None => None,
            },
        }
    }
}

/// A copy of a list of strings.
pub fn copy_strings(v: &Vec<String>) -> (r: Vec<String>)
    ensures
        strings_view(r@) == strings_view(v@),
{
    let mut r: Vec<String> = Vec::new();
    let mut i: usize = 0;
    while i < v.len()
        invariant
            i <= v@.len(),
            strings_view(r@) == strings_view(v@).take(i as int),
        decreases v@.len() - i,
    {
        let ghost before = r@;
        r.push(v[i].clone());
        proof {
            assert(strings_view(r@) =~= strings_view(before).push(v@[i as int]@));
            assert(strings_view(v@).take(i + 1) =~= strings_view(v@).take(i as int).push(strings_view(v@)[i as int]));
        }
        i = i + 1;
    }
    assert(strings_view(v@).take(v@.len() as int) =~= strings_view(v@));
    r
}

/// The ids of the given keys, in order.
pub open spec fn key_ids(keys: Seq<crate::admin_trust::AdminKey>) -> Seq<Seq<char>> {
    keys.map_values(|k: crate::admin_trust::AdminKey| k.key_id@)
}

/// Whether `p` occurs in the list.
fn contains_string(v: &Vec<String>, p: &str) -> (r: bool)
    ensures
        r == strings_view(v@).contains(p@),
{
    let mut i: usize = 0;
    while i < v.len()
        invariant
            i <= v@.len(),
            forall|j: int| 0 <= j < i ==> strings_view(v@)[j] != p@,
        decreases v@.len() - i,
    {
        if str_equal(v[i].as_str(), p) {
            assert(strings_view(v@)[i as int] == p@);
            return true;
        }
        i = i + 1;
    }
    false
}

impl PublicMonitorRecord {
    /// A copy of this record.
    pub fn duplicate(&self) -> (r: PublicMonitorRecord)
        ensures
            r@ == self@,
    {
        let sig = match &self.admin_signature {
            Some(s) => Some(s.duplicate()),
            None => None,
        };
        PublicMonitorRecord {
            monitor: self.monitor.duplicate(),
            created_at: self.created_at,
            modified_at: self.modified_at,
            interest_count: self.interest_count,
            interested_peers: copy_strings(&self.interested_peers),
            admin_signature: sig,
        }
    }
}

/// A record with no interest yet, created at `now`.
pub open spec fn fresh_record(c: ConfigView, now: u64) -> RecordView {
    RecordView {
        monitor: c,
        created_at: now,
        modified_at: now,
        interest_count: 0,
        interested_peers: seq![],
        admin_signature: None,
    }
}

/// The record after peer `p` signals interest at `now`: a peer is counted once.
pub open spec fn with_interest(r: RecordView, p: Seq<char>, now: u64) -> RecordView {
    if r.interested_peers.contains(p) {
        r
    } else {
        RecordView {
            interested_peers: r.interested_peers.push(p),
            interest_count: (r.interest_count + 1) as u32,
            modified_at: now,
            ..r
        }
    }
}

/// The record cached for a monitor with public domain `d` after `peer` signals interest at
/// `now` (a fresh record when none was cached).
pub open spec fn signaled(
    s: Seq<(Seq<char>, RecordView)>,
    m: Monitor,
    d: Seq<char>,
    peer: Seq<char>,
    now: u64,
) -> RecordView {
    with_interest(
        match lookup(s, dht_key_of(d)) {
            Some(e) => e,
            None => fresh_record(config_of(m, d), now),
        },
        peer,
        now,
    )
}

/// Whether a record is public: admin-signed, or its interest count reached the threshold.
pub open spec fn promoted(r: RecordView, threshold: u32) -> bool {
    r.admin_signature is Some || r.interest_count >= threshold
}

/// Whether some cached record has key `k`.
pub open spec fn has_key(s: Seq<(Seq<char>, RecordView)>, k: Seq<char>) -> bool {
    exists|i: int| 0 <= i < s.len() && #[trigger] s[i].0 == k
}

/// The position of key `k` (meaningful when `has_key`).
pub open spec fn key_index(s: Seq<(Seq<char>, RecordView)>, k: Seq<char>) -> int {
    choose|i: int| 0 <= i < s.len() && #[trigger] s[i].0 == k
}

/// The record cached under `k`, if any.
pub open spec fn lookup(s: Seq<(Seq<char>, RecordView)>, k: Seq<char>) -> Option<RecordView> {
    if has_key(s, k) {
        Some(s[key_index(s, k)].1)
    } else {
        None
    }
}

/// The cache with record `r` under `k` (replacing in place, or appended).
pub open spec fn set_record(s: Seq<(Seq<char>, RecordView)>, k: Seq<char>, r: RecordView) -> Seq<
    (Seq<char>, RecordView),
> {
    if has_key(s, k) {
        s.update(key_index(s, k), (k, r))
    } else {
        s.push((k, r))
    }
}

/// The cache without key `k`.
pub open spec fn remove_record(s: Seq<(Seq<char>, RecordView)>, k: Seq<char>) -> Seq<(Seq<char>, RecordView)> {
    if has_key(s, k) {
        s.remove(key_index(s, k))
    } else {
        s
    }
}

/// No key occurs twice.
pub open spec fn distinct_keys(s: Seq<(Seq<char>, RecordView)>) -> bool {
    forall|i: int, j: int| 0 <= i < j < s.len() ==> s[i].0 != s[j].0
}

/// Every cached record can count one more peer without overflow.
pub open spec fn interest_has_room(s: Seq<(Seq<char>, RecordView)>) -> bool {
    forall|i: int| 0 <= i < s.len() ==> (#[trigger] s[i]).1.interest_count < u32::MAX
}

/// Whether a record received from the DHT replaces the cached one: it always does when
/// nothing is cached; an admin-signed record replaces an unsigned one; between two signed
/// records the newer modification wins; otherwise the received record is taken.
pub open spec fn accepts(existing: Option<RecordView>, incoming: RecordView) -> bool {
    match existing {
        None => true,
        Some(e) => if incoming.admin_signature is Some && e.admin_signature is None {
            true
        } else if incoming.admin_signature is Some && e.admin_signature is Some {
            incoming.modified_at > e.modified_at
        } else {
            true
        },
    }
}

/// The outcome of checking a record's admin signature at `now` against the trust chain's
/// current keys: no signature, or one older than 7 days, is `Ok(false)`.
pub open spec fn record_signature_verdict(keys: Seq<crate::admin_trust::AdminKey>, r: RecordView, now: u64) -> Result<
    bool,
    AdmissionError,
> {
    match r.admin_signature {
        None => Ok(false),
        Some(s) => if (if now >= s.signed_at { now - s.signed_at } else { 0 }) > 604800 {
            Ok(false)
        } else {
            match admin_signature_verdict(keys, s.admin_key_id, config_message(r.monitor), s.signature, now) {
                Ok(b) => Ok(b),
                Err(e) => Err(AdmissionError::Trust(e)),
            }
        },
    }
}

/// The answer to processing a DHT record at `now`, and the cache after it: an admin-signed
/// record must verify (an error, or `InvalidAdminSignature`, leaves the cache as it was);
/// then `accepts` decides whether it replaces the cached record under its key.
pub open spec fn dht_outcome(
    s: Seq<(Seq<char>, RecordView)>,
    keys: Seq<crate::admin_trust::AdminKey>,
    record: RecordView,
    now: u64,
) -> (Result<bool, AdmissionError>, Seq<(Seq<char>, RecordView)>) {
    let verdict = record_signature_verdict(keys, record, now);
    if record.admin_signature is Some && verdict is Err {
        (Err(verdict->Err_0), s)
    } else if record.admin_signature is Some && verdict == Ok::<bool, AdmissionError>(false) {
        (Err(AdmissionError::InvalidAdminSignature), s)
    } else {
        let k = dht_key_of(record.monitor.domain);
        if accepts(lookup(s, k), record) {
            (Ok(true), set_record(s, k, record))
        } else {
            (Ok(false), s)
        }
    }
}

/// The cache after processing `incoming` in order, skipping records that fail.
pub open spec fn dht_outcome_all(
    s: Seq<(Seq<char>, RecordView)>,
    keys: Seq<crate::admin_trust::AdminKey>,
    incoming: Seq<RecordView>,
    now: u64,
) -> Seq<(Seq<char>, RecordView)>
    decreases incoming.len(),
{
    if incoming.len() == 0 {
        s
    } else {
        dht_outcome(dht_outcome_all(s, keys, incoming.drop_last(), now), keys, incoming.last(), now).1
    }
}

/// The cache after one record of a batch is processed at some moment: what `dht_outcome`
/// gives at some time, or, for an admin-signed record that could not be checked because the
/// clock read before the Unix epoch, the cache as it was.
pub open spec fn dht_step(
    s: Seq<(Seq<char>, RecordView)>,
    keys: Seq<crate::admin_trust::AdminKey>,
    record: RecordView,
    t: Seq<(Seq<char>, RecordView)>,
) -> bool {
    ||| record.admin_signature is Some && t == s
    ||| exists|now: u64| t == (#[trigger] dht_outcome(s, keys, record, now)).1
}

/// Whether `t` is a cache that processing `incoming` in order, one step per record, can leave.
pub open spec fn dht_reachable(
    s: Seq<(Seq<char>, RecordView)>,
    keys: Seq<crate::admin_trust::AdminKey>,
    incoming: Seq<RecordView>,
    t: Seq<(Seq<char>, RecordView)>,
) -> bool
    decreases incoming.len(),
{
    if incoming.len() == 0 {
        t == s
    } else {
        exists|mid: Seq<(Seq<char>, RecordView)>|
            dht_reachable(s, keys, incoming.drop_last(), mid) && #[trigger] dht_step(mid, keys, incoming.last(), t)
    }
}

/// The views of a list of records.
pub open spec fn records_view(v: Seq<PublicMonitorRecord>) -> Seq<RecordView> {
    v.map_values(|p: PublicMonitorRecord| p@)
}

/// The answer to an admin creating or modifying a monitor at `now`, and the cache after it.
pub open spec fn admin_create_outcome(
    s: Seq<(Seq<char>, RecordView)>,
    trust: AdminTrustManager,
    monitor: Monitor,
    admin_key_id: Seq<char>,
    signature: Seq<u8>,
    now: u64,
) -> (Result<RecordView, AdmissionError>, Seq<(Seq<char>, RecordView)>) {
    if !has_key_id(trust.chain_spec().valid_keys_at(now), admin_key_id) {
        (Err(AdmissionError::InvalidAdminKey), s)
    } else {
        match monitor.public_domain {
            None => (Err(AdmissionError::MissingPublicDomain), s),
            Some(d) => match admin_signature_verdict(
                trust.chain_spec().current_keys@,
                admin_key_id,
                config_message(config_of(monitor, d@)),
                signature,
                now,
            ) {
                Err(e) => (Err(AdmissionError::Trust(e)), s),
                Ok(false) => (Err(AdmissionError::InvalidAdminSignature), s),
                Ok(true) => {
                    let rec = RecordView {
                        monitor: config_of(monitor, d@),
                        created_at: now,
                        modified_at: now,
                        interest_count: 0,
                        interested_peers: seq![],
                        admin_signature: Some(SignatureView { admin_key_id, signature, signed_at: now }),
                    };
                    (Ok(rec), set_record(s, dht_key_of(d@), rec))
                },
            },
        }
    }
}

/// The view of an operation's answer that carries a record.
pub open spec fn record_result_view(r: Result<PublicMonitorRecord, AdmissionError>) -> Result<RecordView, AdmissionError> {
    match r {
        Ok(p) => Ok(p@),
        Err(e) => Err(e),
    }
}

/// The answer to an admin deleting the monitor of `domain` at `now`, and the cache after it.
pub open spec fn admin_delete_outcome(
    s: Seq<(Seq<char>, RecordView)>,
    trust: AdminTrustManager,
    domain: Seq<char>,
    admin_key_id: Seq<char>,
    now: u64,
) -> (Result<(), AdmissionError>, Seq<(Seq<char>, RecordView)>) {
    if !has_key_id(trust.chain_spec().valid_keys_at(now), admin_key_id) {
        (Err(AdmissionError::NotAdmin), s)
    } else {
        (Ok(()), remove_record(s, dht_key_of(domain)))
    }
}

/// A cached record under its key.
#[derive(Debug)]
pub struct CacheEntry {
    pub key: String,
    pub record: PublicMonitorRecord,
}

/// Admission orchestrator - manages the public monitor lifecycle.
#[derive(Debug)]
pub struct AdmissionOrchestrator {
    config: AdmissionConfig,
    trust_manager: AdminTrustManager,
    /// Cache of public monitors we've seen
    public_monitors: Vec<CacheEntry>,
}

/// The plain view of the cache entries.
pub open spec fn cache_view(v: Seq<CacheEntry>) -> Seq<(Seq<char>, RecordView)> {
    v.map_values(|e: CacheEntry| (e.key@, e.record@))
}

impl AdmissionOrchestrator {
    /// The cached records with their keys, in storage order.
    pub closed spec fn records(&self) -> Seq<(Seq<char>, RecordView)> {
        cache_view(self.public_monitors@)
    }

    /// The promotion threshold.
    pub closed spec fn threshold(&self) -> u32 {
        self.config.threshold
    }

    /// The admin trust manager.
    pub closed spec fn trust(&self) -> AdminTrustManager {
        self.trust_manager
    }

    /// The orchestrator invariant: one record per key.
    pub open spec fn wf(&self) -> bool {
        distinct_keys(self.records())
    }

    /// An orchestrator with an empty cache.
    pub fn new(config: AdmissionConfig, trust_manager: AdminTrustManager) -> (r: Result<AdmissionOrchestrator, AdmissionError>)
        ensures
            r matches Ok(o) && o.wf() && o.records().len() == 0 && o.threshold() == config.threshold
                && o.trust() == trust_manager,
    {
        let o = AdmissionOrchestrator { config, trust_manager, public_monitors: Vec::new() };
        assert(o.records() =~= seq![]);
        Ok(o)
    }

    /// Check if a key ID is an admin (via the trust chain), at `now`.
    pub fn is_admin_key_at(&self, key_id: &str, now: u64) -> (r: bool)
        ensures
            r == has_key_id(self.trust().chain_spec().valid_keys_at(now), key_id@),
    {
        self.trust_manager.is_admin_key_at(key_id, now)
    }

    /// Check if a key ID is an admin (via the trust chain), now.
    pub fn is_admin_key(&self, key_id: &str) -> (r: bool)
        ensures
            exists|now: u64| r == has_key_id(self.trust().chain_spec().valid_keys_at(now), key_id@),
    {
        self.is_admin_key_at(key_id, unix_now())
    }

    /// Get current admin key IDs.
    pub fn get_admin_key_ids(&self) -> (r: Vec<String>)
        ensures
            exists|now: u64| strings_view(r@) == key_ids(#[trigger] self.trust().chain_spec().valid_keys_at(now)),
    {
        let now = unix_now();
        let r = self.trust_manager.get_admin_key_ids_at(now);
        assert(strings_view(r@) =~= key_ids(self.trust().chain_spec().valid_keys_at(now)));
        r
    }

    /// The position of key `key` in the cache.
    fn find(&self, key: &str) -> (r: Option<usize>)
        requires
            self.wf(),
        ensures
            r matches Some(i) ==> i < self.records().len() && self.records()[i as int].0 == key@
                && has_key(self.records(), key@) && key_index(self.records(), key@) == i,
            r is None ==> !has_key(self.records(), key@),
    {
        let mut i: usize = 0;
        while i < self.public_monitors.len()
            invariant
                self.wf(),
                i <= self.public_monitors@.len(),
                forall|j: int| 0 <= j < i ==> self.records()[j].0 != key@,
            decreases self.public_monitors@.len() - i,
        {
            if str_equal(self.public_monitors[i].key.as_str(), key) {
                proof {
                    let s = self.records();
                    assert(s[i as int].0 == key@);
                    assert(has_key(s, key@));
                    let c = key_index(s, key@);
                    assert(s[c].0 == s[i as int].0);
                    if c < i {
                        assert(s[c].0 != s[i as int].0);
                    } else if c > i {
                        assert(s[i as int].0 != s[c].0);
                    }
                    assert(c == i);
                }
                return Some(i);
            }
            i = i + 1;
        }
        None
    }

    /// Puts `record` under `key`, found at `at`.
    fn put(&mut self, at: Option<usize>, key: String, record: PublicMonitorRecord)
        requires
            old(self).wf(),
            at matches Some(i) ==> i < old(self).records().len() && old(self).records()[i as int].0 == key@
                && key_index(old(self).records(), key@) == i,
            at is None ==> !has_key(old(self).records(), key@),
        ensures
            final(self).wf(),
            final(self).records() == set_record(old(self).records(), key@, record@),
            final(self).threshold() == old(self).threshold(),
            final(self).trust() == old(self).trust(),
    {
        let ghost v = self.records();
        let ghost k = key@;
        let ghost rv = record@;
        match at {
            Some(i) => {
                self.public_monitors.set(i, CacheEntry { key, record });
                assert(self.records() =~= v.update(i as int, (k, rv)));
                assert(has_key(v, k));
            },
            None => {
                self.public_monitors.push(CacheEntry { key, record });
                assert(self.records() =~= v.push((k, rv)));
            },
        }
        proof {
            let u = self.records();
            assert forall|a: int, b: int| 0 <= a < b < u.len() implies u[a].0 != u[b].0 by {
                if at is None && b == v.len() {
                    if v[a].0 == k {
                        assert(has_key(v, k));
                    }
                }
                match at {
                    Some(i) => {
                        if a == i {
                            assert(v[b].0 != v[i as int].0);
                        } else if b == i {
                            assert(v[a].0 != v[i as int].0);
                        }
                    },
                    None => {},
                }
            }
        }
    }

    /// Signal interest in a monitor at time `now` (regular user action): the peer is counted
    /// once per record; a record is created on the first signal.
    pub fn signal_interest_at(&mut self, monitor: &Monitor, peer_id: &str, now: u64) -> (r: Result<
        PublicMonitorRecord,
        AdmissionError,
    >)
        requires
            old(self).wf(),
            interest_has_room(old(self).records()),
        ensures
            final(self).wf(),
            final(self).threshold() == old(self).threshold(),
            final(self).trust() == old(self).trust(),
            monitor.public_domain is None ==> r == Err::<PublicMonitorRecord, AdmissionError>(
                AdmissionError::MissingPublicDomain,
            ) && final(self).records() == old(self).records(),
            monitor.public_domain matches Some(d) ==> (r matches Ok(rec) && rec@ == signaled(old(self).records(), *monitor, d@, peer_id@, now) && final(self).records() == set_record(old(self).records(), dht_key_of(d@), rec@)),
    {
        let config = match MonitorConfig::from_monitor(monitor) {
            Some(c) => c,
            None => return Err(AdmissionError::MissingPublicDomain),
        };
        let key = config.dht_key();
        let at = self.find(key.as_str());
        let mut record = match at {
            Some(i) => {
                proof {
                    let s = self.records();
                    assert(s[i as int].1.interest_count < u32::MAX);
                }
                self.public_monitors[i].record.duplicate()
            },
            None => {
                let r = PublicMonitorRecord {
                    monitor: config,
                    created_at: now,
                    modified_at: now,
                    interest_count: 0,
                    interested_peers: Vec::new(),
                    admin_signature: None,
                };
                assert(strings_view(r.interested_peers@) =~= seq![]);
                r
            },
        };
        let ghost before = record@;
        if !contains_string(&record.interested_peers, peer_id) {
            let ghost peers = record.interested_peers@;
            record.interested_peers.push(peer_id.to_owned());
            assert(strings_view(record.interested_peers@) =~= strings_view(peers).push(peer_id@));
            record.interest_count = record.interest_count + 1;
            record.modified_at = now;
        }
        assert(record@ == with_interest(before, peer_id@, now));
        let out = record.duplicate();
        self.put(at, key, record);
        Ok(out)
    }

    /// Signal interest in a monitor (regular user action), at the current time.
    pub fn signal_interest(&mut self, monitor: &Monitor, peer_id: &str) -> (r: Result<PublicMonitorRecord, AdmissionError>)
        requires
            old(self).wf(),
            interest_has_room(old(self).records()),
        ensures
            final(self).wf(),
            monitor.public_domain is None ==> r == Err::<PublicMonitorRecord, AdmissionError>(
                AdmissionError::MissingPublicDomain,
            ) && final(self).records() == old(self).records(),
            r == Err::<PublicMonitorRecord, AdmissionError>(AdmissionError::ClockBeforeEpoch)
                ==> final(self).records() == old(self).records(),
            monitor.public_domain matches Some(d) ==> (r matches Ok(rec) ==> exists|now: u64|
                rec@ == #[trigger] signaled(old(self).records(), *monitor, d@, peer_id@, now) && final(self).records() == set_record(old(self).records(), dht_key_of(d@), rec@)),
            monitor.public_domain is Some ==> (r is Ok || r == Err::<PublicMonitorRecord, AdmissionError>(
                AdmissionError::ClockBeforeEpoch,
            )),
    {
        if monitor.public_domain.is_none() {
            return Err(AdmissionError::MissingPublicDomain);
        }
        match system_clock_secs() {
            Some(now) => self.signal_interest_at(monitor, peer_id, now),
            None => Err(AdmissionError::ClockBeforeEpoch),
        }
    }

    /// Check if a record should be public (threshold reached, or admin-signed).
    pub fn should_promote(&self, record: &PublicMonitorRecord) -> (r: bool)
        ensures
            r == promoted(record@, self.threshold()),
    {
        if record.admin_signature.is_some() {
            return true;
        }
        record.interest_count >= self.config.threshold
    }

    /// Verify the admin signature on a record at `now`: a record without one, or with one
    /// older than 7 days, does not verify.
    pub fn verify_admin_signature_at(&self, record: &PublicMonitorRecord, now: u64) -> (r: Result<bool, AdmissionError>)
        ensures
            r == record_signature_verdict(self.trust().chain_spec().current_keys@, record@, now),
    {
        match &record.admin_signature {
            Some(sig) => {
                let age = if now >= sig.signed_at { now - sig.signed_at } else { 0 };
                if age > ADMIN_SIGNATURE_MAX_AGE_SECS {
                    return Ok(false);
                }
                let message = record.monitor.canonical_message();
                match self.trust_manager.verify_admin_signature_at(
                    sig.admin_key_id.as_str(),
                    message.as_slice(),
                    sig.signature.as_slice(),
                    now,
                ) {
                    Ok(b) => Ok(b),
                    Err(e) => Err(AdmissionError::Trust(e)),
                }
            },
            None => Ok(false),
        }
    }

    /// Verify the admin signature on a record, at the current time.
    pub fn verify_admin_signature(&self, record: &PublicMonitorRecord) -> (r: Result<bool, AdmissionError>)
        ensures
            record.admin_signature is None ==> r == Ok::<bool, AdmissionError>(false),
            record.admin_signature is Some ==> (r == Err::<bool, AdmissionError>(AdmissionError::ClockBeforeEpoch)
                || exists|now: u64| r == record_signature_verdict(self.trust().chain_spec().current_keys@, record@, now)),
    {
        if record.admin_signature.is_none() {
            return Ok(false);
        }
        match system_clock_secs() {
            Some(now) => self.verify_admin_signature_at(record, now),
            None => Err(AdmissionError::ClockBeforeEpoch),
        }
    }

    /// Admin creates or modifies a public monitor at `now`: the key must be a valid admin
    /// key, the monitor must have a public domain, and the signature over its canonical
    /// configuration must verify; the signed record then replaces any cached one.
    pub fn admin_create_or_modify_at(&mut self, monitor: &Monitor, admin_key_id: &str, signature: Vec<u8>, now: u64) -> (r:
        Result<PublicMonitorRecord, AdmissionError>)
        requires
            old(self).wf(),
        ensures
            final(self).wf(),
            final(self).threshold() == old(self).threshold(),
            final(self).trust() == old(self).trust(),
            (record_result_view(r), final(self).records()) == admin_create_outcome(
                old(self).records(),
                old(self).trust(),
                *monitor,
                admin_key_id@,
                signature@,
                now,
            ),
    {
        if !self.is_admin_key_at(admin_key_id, now) {
            return Err(AdmissionError::InvalidAdminKey);
        }
        let config = match MonitorConfig::from_monitor(monitor) {
            Some(c) => c,
            None => return Err(AdmissionError::MissingPublicDomain),
        };
        let message = config.canonical_message();
        match self.trust_manager.verify_admin_signature_at(admin_key_id, message.as_slice(), signature.as_slice(), now) {
            Err(e) => return Err(AdmissionError::Trust(e)),
            Ok(false) => return Err(AdmissionError::InvalidAdminSignature),
            Ok(true) => {},
        }
        let key = config.dht_key();
        let record = PublicMonitorRecord {
            monitor: config,
            created_at: now,
            modified_at: now,
            interest_count: 0,
            interested_peers: Vec::new(),
            admin_signature: Some(AdminSignature { admin_key_id: admin_key_id.to_owned(), signature, signed_at: now }),
        };
        assert(strings_view(record.interested_peers@) =~= seq![]);
        let out = record.duplicate();
        let at = self.find(key.as_str());
        self.put(at, key, record);
        Ok(out)
    }

    /// Admin deletes a public monitor at `now`: only a valid admin key may, and the record
    /// cached under the domain's key is removed.
    pub fn admin_delete_at(&mut self, domain: &str, admin_key_id: &str, now: u64) -> (r: Result<(), AdmissionError>)
        requires
            old(self).wf(),
        ensures
            final(self).wf(),
            final(self).threshold() == old(self).threshold(),
            final(self).trust() == old(self).trust(),
            (r, final(self).records()) == admin_delete_outcome(
                old(self).records(),
                old(self).trust(),
                domain@,
                admin_key_id@,
                now,
            ),
    {
        if !self.is_admin_key_at(admin_key_id, now) {
            return Err(AdmissionError::NotAdmin);
        }
        let lower = to_lowercase(domain);
        let key = concat_str("public-monitor:", lower.as_str());
        let ghost v = self.records();
        match self.find(key.as_str()) {
            Some(i) => {
                self.public_monitors.remove(i);
                assert(self.records() =~= v.remove(i as int));
                proof {
                    let u = self.records();
                    assert forall|a: int, b: int| 0 <= a < b < u.len() implies u[a].0 != u[b].0 by {
                        let a2 = if a < i { a } else { a + 1 };
                        let b2 = if b < i { b } else { b + 1 };
                        assert(u[a] == v[a2] && u[b] == v[b2]);
                    }
                }
            },
            None => {},
        }
        Ok(())
    }

    /// Process a record received from the DHT at `now`: an admin-signed record must verify;
    /// then `accepts` decides whether it replaces the cached one. Returns whether it did.
    pub fn process_dht_record_at(&mut self, record: PublicMonitorRecord, now: u64) -> (r: Result<bool, AdmissionError>)
        requires
            old(self).wf(),
        ensures
            final(self).wf(),
            final(self).threshold() == old(self).threshold(),
            final(self).trust() == old(self).trust(),
            (r, final(self).records()) == dht_outcome(
                old(self).records(),
                old(self).trust().chain_spec().current_keys@,
                record@,
                now,
            ),
    {
        let key = record.monitor.dht_key();
        if record.admin_signature.is_some() {
            match self.verify_admin_signature_at(&record, now) {
                Err(e) => return Err(e),
                Ok(false) => return Err(AdmissionError::InvalidAdminSignature),
                Ok(true) => {},
            }
        }
        let at = self.find(key.as_str());
        let accept = match at {
            Some(i) => {
                let existing = &self.public_monitors[i].record;
                if record.admin_signature.is_some() && existing.admin_signature.is_none() {
                    true
                } else if record.admin_signature.is_some() && existing.admin_signature.is_some() {
                    record.modified_at > existing.modified_at
                } else {
                    true
                }
            },
            None => true,
        };
        if accept {
            self.put(at, key, record);
        }
        Ok(accept)
    }

    /// Admin creates or modifies a public monitor, at the current time. A clock that reads
    /// before the Unix epoch fails the operation and leaves the cache as it was.
    pub fn admin_create_or_modify(&mut self, monitor: &Monitor, admin_key_id: &str, signature: Vec<u8>) -> (r:
        Result<PublicMonitorRecord, AdmissionError>)
        requires
            old(self).wf(),
        ensures
            final(self).wf(),
            final(self).threshold() == old(self).threshold(),
            final(self).trust() == old(self).trust(),
            r == Err::<PublicMonitorRecord, AdmissionError>(AdmissionError::ClockBeforeEpoch) ==> final(self).records()
                == old(self).records(),
            r != Err::<PublicMonitorRecord, AdmissionError>(AdmissionError::ClockBeforeEpoch) ==> exists|now: u64|
                (record_result_view(r), final(self).records()) == #[trigger] admin_create_outcome(
                    old(self).records(),
                    old(self).trust(),
                    *monitor,
                    admin_key_id@,
                    signature@,
                    now,
                ),
    {
        match system_clock_secs() {
            Some(now) => self.admin_create_or_modify_at(monitor, admin_key_id, signature, now),
            None => Err(AdmissionError::ClockBeforeEpoch),
        }
    }

    /// Admin deletes a public monitor, at the current time.
    pub fn admin_delete(&mut self, domain: &str, admin_key_id: &str) -> (r: Result<(), AdmissionError>)
        requires
            old(self).wf(),
        ensures
            final(self).wf(),
            final(self).threshold() == old(self).threshold(),
            final(self).trust() == old(self).trust(),
            exists|now: u64|
                (r, final(self).records()) == #[trigger] admin_delete_outcome(
                    old(self).records(),
                    old(self).trust(),
                    domain@,
                    admin_key_id@,
                    now,
                ),
    {
        self.admin_delete_at(domain, admin_key_id, unix_now())
    }

    /// Process a monitor record received from the DHT, at the current time. An admin-signed
    /// record cannot be checked while the clock reads before the Unix epoch.
    pub fn process_dht_record(&mut self, record: PublicMonitorRecord) -> (r: Result<bool, AdmissionError>)
        requires
            old(self).wf(),
        ensures
            final(self).wf(),
            final(self).threshold() == old(self).threshold(),
            final(self).trust() == old(self).trust(),
            r == Err::<bool, AdmissionError>(AdmissionError::ClockBeforeEpoch) ==> record.admin_signature is Some
                && final(self).records() == old(self).records(),
            r != Err::<bool, AdmissionError>(AdmissionError::ClockBeforeEpoch) ==> exists|now: u64|
                (r, final(self).records()) == #[trigger] dht_outcome(
                    old(self).records(),
                    old(self).trust().chain_spec().current_keys@,
                    record@,
                    now,
                ),
    {
        if record.admin_signature.is_none() {
            return self.process_dht_record_at(record, 0);
        }
        match system_clock_secs() {
            Some(now) => self.process_dht_record_at(record, now),
            None => Err(AdmissionError::ClockBeforeEpoch),
        }
    }

    /// Update the trust chain from a chain read from the DHT (it must verify and be newer).
    pub fn update_trust_chain_from_dht(&mut self, chain: AdminTrustChain) -> (r: Result<bool, TrustError>)
        requires
            old(self).wf(),
        ensures
            final(self).wf(),
            final(self).records() == old(self).records(),
            final(self).threshold() == old(self).threshold(),
            chain.verdict() matches Err(e) ==> r == Err::<bool, TrustError>(e) && final(self).trust() == old(self).trust(),
            chain.verdict() == Ok::<bool, TrustError>(false) ==> r == Ok::<bool, TrustError>(false)
                && final(self).trust() == old(self).trust(),
            chain.verdict() == Ok::<bool, TrustError>(true) && chain.version <= old(self).trust().chain_spec().version
                ==> r == Ok::<bool, TrustError>(false) && final(self).trust() == old(self).trust(),
            chain.verdict() == Ok::<bool, TrustError>(true) && chain.version > old(self).trust().chain_spec().version
                ==> r == Ok::<bool, TrustError>(true) && final(self).trust().chain_spec() == chain,
    {
        self.trust_manager.update_from_dht(chain)
    }

    /// Get all public monitors (threshold met or admin-signed), in cache order.
    pub fn get_public_monitors(&self) -> (r: Vec<PublicMonitorRecord>)
        ensures
            r@.map_values(|p: PublicMonitorRecord| p@) == self.records().map_values(
                |e: (Seq<char>, RecordView)| e.1,
            ).filter(|x: RecordView| promoted(x, self.threshold())),
    {
        let ghost all = self.records().map_values(|e: (Seq<char>, RecordView)| e.1);
        let ghost pred = |x: RecordView| promoted(x, self.threshold());
        let mut out: Vec<PublicMonitorRecord> = Vec::new();
        let mut i: usize = 0;
        while i < self.public_monitors.len()
            invariant
                i <= self.public_monitors@.len(),
                all == self.records().map_values(|e: (Seq<char>, RecordView)| e.1),
                all.len() == self.public_monitors@.len(),
                pred == (|x: RecordView| promoted(x, self.threshold())),
                out@.map_values(|p: PublicMonitorRecord| p@) == all.take(i as int).filter(pred),
            decreases self.public_monitors@.len() - i,
        {
            proof {
                all.take(i as int).lemma_filter_push(all[i as int], pred);
                assert(all.take(i + 1) =~= all.take(i as int).push(all[i as int]));
                assert(all[i as int] == self.public_monitors@[i as int].record@);
            }
            if self.should_promote(&self.public_monitors[i].record) {
                let ghost before = out@;
                out.push(self.public_monitors[i].record.duplicate());
                assert(out@.map_values(|p: PublicMonitorRecord| p@) =~= before.map_values(|p: PublicMonitorRecord| p@).push(all[i as int]));
            }
            i = i + 1;
        }
        assert(all.take(all.len() as int) =~= all);
        out
    }

    /// Update the cache from DHT query results at `now`: each record is processed in turn and
    /// those that fail are skipped.
    pub fn update_from_dht_at(&mut self, records: Vec<PublicMonitorRecord>, now: u64) -> (r: Result<(), AdmissionError>)
        requires
            old(self).wf(),
        ensures
            final(self).wf(),
            final(self).threshold() == old(self).threshold(),
            final(self).trust() == old(self).trust(),
            r is Ok,
            final(self).records() == dht_outcome_all(
                old(self).records(),
                old(self).trust().chain_spec().current_keys@,
                records_view(records@),
                now,
            ),
    {
        let ghost keys = self.trust().chain_spec().current_keys@;
        let ghost incoming = records_view(records@);
        let mut i: usize = 0;
        while i < records.len()
            invariant
                i <= records@.len(),
                self.wf(),
                self.threshold() == old(self).threshold(),
                self.trust() == old(self).trust(),
                keys == self.trust().chain_spec().current_keys@,
                incoming == records_view(records@),
                self.records() == dht_outcome_all(old(self).records(), keys, incoming.take(i as int), now),
            decreases records@.len() - i,
        {
            let record = records[i].duplicate();
            let _ = self.process_dht_record_at(record, now);
            proof {
                assert(incoming.take(i + 1).drop_last() =~= incoming.take(i as int));
                assert(incoming.take(i + 1).last() == incoming[i as int]);
            }
            i = i + 1;
        }
        assert(incoming.take(records@.len() as int) =~= incoming);
        Ok(())
    }

    /// Update the cache from DHT query results, each record processed in turn at the moment
    /// it is reached; those that fail are skipped.
    pub fn update_from_dht(&mut self, records: Vec<PublicMonitorRecord>) -> (r: Result<(), AdmissionError>)
        requires
            old(self).wf(),
        ensures
            final(self).wf(),
            final(self).threshold() == old(self).threshold(),
            final(self).trust() == old(self).trust(),
            r is Ok,
            dht_reachable(
                old(self).records(),
                old(self).trust().chain_spec().current_keys@,
                records_view(records@),
                final(self).records(),
            ),
    {
        let ghost keys = self.trust().chain_spec().current_keys@;
        let ghost incoming = records_view(records@);
        let mut i: usize = 0;
        assert(incoming.take(0).len() == 0);
        while i < records.len()
            invariant
                i <= records@.len(),
                self.wf(),
                self.threshold() == old(self).threshold(),
                self.trust() == old(self).trust(),
                keys == self.trust().chain_spec().current_keys@,
                incoming == records_view(records@),
                dht_reachable(old(self).records(), keys, incoming.take(i as int), self.records()),
            decreases records@.len() - i,
        {
            let record = records[i].duplicate();
            let ghost mid = self.records();
            let r = self.process_dht_record(record);
            proof {
                let t = incoming.take(i + 1);
                assert(t.drop_last() =~= incoming.take(i as int));
                assert(t.last() == incoming[i as int]);
                assert(incoming[i as int] == records@[i as int]@);
                assert(dht_step(mid, keys, t.last(), self.records()));
                assert(dht_reachable(old(self).records(), keys, t, self.records()));
            }
            i = i + 1;
        }
        assert(incoming.take(records@.len() as int) =~= incoming);
        Ok(())
    }
}

/// A peer's interest counts once: signalling again from a peer already counted leaves the
/// record as it was.
pub proof fn lemma_interest_idempotent(r: RecordView, p: Seq<char>, now: u64, later: u64)
    ensures
        with_interest(with_interest(r, p, now), p, later) == with_interest(r, p, now),
{
    if !r.interested_peers.contains(p) {
        let s = with_interest(r, p, now);
        assert(s.interested_peers[s.interested_peers.len() - 1] == p);
    }
}

/// When a record's count equals its number of distinct interested peers, it still does
/// after another signal, and the count grows by one exactly when the peer is new.
pub proof fn lemma_interest_counts_distinct_peers(r: RecordView, p: Seq<char>, now: u64)
    requires
        r.interested_peers.no_duplicates(),
        r.interest_count == r.interested_peers.len(),
        r.interest_count < u32::MAX,
    ensures
        with_interest(r, p, now).interested_peers.no_duplicates(),
        with_interest(r, p, now).interest_count == with_interest(r, p, now).interested_peers.len(),
        with_interest(r, p, now).interested_peers.contains(p),
        with_interest(r, p, now).interest_count == r.interest_count + (if r.interested_peers.contains(p) { 0int } else { 1int }),
{
    let s = with_interest(r, p, now);
    if !r.interested_peers.contains(p) {
        let q = r.interested_peers;
        assert(s.interested_peers[q.len() as int] == p);
        assert forall|i: int, j: int| 0 <= i < j < s.interested_peers.len() implies s.interested_peers[i]
            != s.interested_peers[j] by {
            if j == q.len() {
                assert(s.interested_peers[i] == q[i]);
            } else {
                assert(s.interested_peers[i] == q[i] && s.interested_peers[j] == q[j]);
            }
        }
    }
}

/// Promotion by interest is monotone: a record that is public stays public after more
/// interest is signalled (counts below the 32-bit limit).
pub proof fn lemma_promotion_monotone(r: RecordView, p: Seq<char>, now: u64, threshold: u32)
    requires
        promoted(r, threshold),
        r.interest_count < u32::MAX,
    ensures
        promoted(with_interest(r, p, now), threshold),
{
}

/// In a cache without repeated keys, the position found for a present key is the one
/// position holding it.
proof fn lemma_key_index_unique(s: Seq<(Seq<char>, RecordView)>, k: Seq<char>, i: int)
    requires
        distinct_keys(s),
        0 <= i < s.len(),
        s[i].0 == k,
    ensures
        has_key(s, k),
        key_index(s, k) == i,
{
    assert(s[i].0 == k);
    let j = key_index(s, k);
    if j != i {
        if j < i {
            assert(s[j].0 != s[i].0);
        } else {
            assert(s[i].0 != s[j].0);
        }
    }
}

/// Between two admin-signed records the newer one wins: when the cache (without repeated
/// keys) holds an admin-signed record for a domain and a record for the same domain arrives
/// whose admin signature verifies, the received record replaces the cached one (the answer
/// is `Ok(true)` and the cache then holds it under the domain's key) exactly when it was
/// modified strictly later; otherwise the answer is `Ok(false)` and the cache is unchanged.
pub proof fn lemma_newer_signed_record_wins(
    s: Seq<(Seq<char>, RecordView)>,
    keys: Seq<crate::admin_trust::AdminKey>,
    record: RecordView,
    now: u64,
)
    requires
        distinct_keys(s),
        record.admin_signature is Some,
        record_signature_verdict(keys, record, now) == Ok::<bool, AdmissionError>(true),
        lookup(s, dht_key_of(record.monitor.domain)) matches Some(e) && e.admin_signature is Some,
    ensures
        ({
            let k = dht_key_of(record.monitor.domain);
            let cached = lookup(s, k)->Some_0;
            let out = dht_outcome(s, keys, record, now);
            &&& record.modified_at > cached.modified_at ==> out.0 == Ok::<bool, AdmissionError>(true)
                && lookup(out.1, k) == Some(record) && out.1.len() == s.len()
            &&& record.modified_at <= cached.modified_at ==> out.0 == Ok::<bool, AdmissionError>(false)
                && out.1 == s
        }),
{
    let k = dht_key_of(record.monitor.domain);
    let cached = lookup(s, k)->Some_0;
    if record.modified_at > cached.modified_at {
        let i = key_index(s, k);
        let t = s.update(i, (k, record));
        assert(t == set_record(s, k, record));
        assert(distinct_keys(t)) by {
            assert forall|a: int, b: int| 0 <= a < b < t.len() implies t[a].0 != t[b].0 by {
                assert(s[a].0 != s[b].0);
            }
        }
        lemma_key_index_unique(t, k, i);
    }
}

/// An admin delete that succeeds leaves no record of the domain in the cache (without
/// repeated keys) and keeps every record of another domain.
pub proof fn lemma_admin_delete_removes_domain(
    s: Seq<(Seq<char>, RecordView)>,
    trust: AdminTrustManager,
    domain: Seq<char>,
    admin_key_id: Seq<char>,
    now: u64,
)
    requires
        distinct_keys(s),
    ensures
        ({
            let out = admin_delete_outcome(s, trust, domain, admin_key_id, now);
            out.0 is Ok ==> {
                &&& forall|i: int| 0 <= i < out.1.len() ==> #[trigger] out.1[i].0 != dht_key_of(domain)
                &&& forall|i: int| 0 <= i < s.len() && s[i].0 != dht_key_of(domain) ==> out.1.contains(
                    #[trigger] s[i],
                )
            }
        }),
{
    let k = dht_key_of(domain);
    let out = admin_delete_outcome(s, trust, domain, admin_key_id, now);
    if out.0 is Ok {
        if has_key(s, k) {
            let m = key_index(s, k);
            let t = s.remove(m);
            assert(out.1 == t);
            assert forall|i: int| 0 <= i < t.len() implies #[trigger] t[i].0 != k by {
                let i2 = if i < m { i } else { i + 1 };
                assert(t[i] == s[i2]);
                assert(s[i2].0 != s[m].0);
            }
            assert forall|i: int| 0 <= i < s.len() && s[i].0 != k implies t.contains(#[trigger] s[i]) by {
                if i < m {
                    assert(t[i] == s[i]);
                } else {
                    assert(i != m);
                    assert(t[i - 1] == s[i]);
                }
            }
        } else {
            assert forall|i: int| 0 <= i < s.len() implies #[trigger] s[i].0 != k by {
                if s[i].0 == k {
                    assert(has_key(s, k));
                }
            }
            assert forall|i: int| 0 <= i < s.len() && s[i].0 != k implies s.contains(#[trigger] s[i]) by {
                assert(s[i] == s[i]);
            }
        }
    }
}

/// Admin-signed monitors are always public, whatever their interest count.
pub proof fn lemma_admin_signed_always_promoted(r: RecordView, threshold: u32)
    requires
        r.admin_signature is Some,
    ensures
        promoted(r, threshold),
        promoted(RecordView { interest_count: 0, ..r }, threshold),
{
}

} // verus!
