//! Monitors, check results and peer results, with identifiers and times as plain values.
//!
//! Identifiers are 128-bit UUID values and times are whole seconds since the Unix epoch.
use vstd::prelude::*;
use crate::clock::unix_now;
use crate::location::{get_location, is_unknown, Location, LocationCache};
use crate::text::{chars_of, string_from_chars};

verus! {

/// Status of a monitoring check.
#[derive(Debug, Clone, Copy, PartialEq, Eq, Structural)]
pub enum MonitorStatus {
    Up,
    Down,
    Degraded,
    Unknown,
}

/// The lowercase name of a status, as it is displayed and signed.
pub open spec fn status_text(s: MonitorStatus) -> Seq<char> {
    match s {
        MonitorStatus::Up => "up"@,
        MonitorStatus::Down => "down"@,
        MonitorStatus::Degraded => "degraded"@,
        MonitorStatus::Unknown => "unknown"@,
    }
}

impl MonitorStatus {
    /// The lowercase name of the status ("up", "down", "degraded" or "unknown").
    pub fn as_str(&self) -> (r: &'static str)
        ensures
            r@ == status_text(*self),
    {
        match self {
            MonitorStatus::Up => "up",
            MonitorStatus::Down => "down",
            MonitorStatus::Degraded => "degraded",
            MonitorStatus::Unknown => "unknown",
        }
    }

    /// The status stored under a name, as the results and peer results tables hold it:
    /// "up", "down" or "degraded", and unknown for any other text.
    pub fn from_stored(text: &str) -> (r: MonitorStatus)
        ensures
            r == stored_status(text@),
    {
        if crate::text::str_equal(text, "up") {
            MonitorStatus::Up
        } else if crate::text::str_equal(text, "down") {
            MonitorStatus::Down
        } else if crate::text::str_equal(text, "degraded") {
            MonitorStatus::Degraded
        } else {
            MonitorStatus::Unknown
        }
    }
}

/// The status a stored name stands for.
pub open spec fn stored_status(text: Seq<char>) -> MonitorStatus {
    if text == "up"@ {
        MonitorStatus::Up
    } else if text == "down"@ {
        MonitorStatus::Down
    } else if text == "degraded"@ {
        MonitorStatus::Degraded
    } else {
        MonitorStatus::Unknown
    }
}

/// Reading back the name of a status gives the status.
pub proof fn lemma_stored_status_round_trip(s: MonitorStatus)
    ensures
        stored_status(status_text(s)) == s,
{
    reveal_strlit("up");
    reveal_strlit("down");
    reveal_strlit("degraded");
    reveal_strlit("unknown");
    assert("down"@.len() != "up"@.len());
    assert("degraded"@.len() != "up"@.len() && "degraded"@.len() != "down"@.len());
    assert("unknown"@.len() != "up"@.len() && "unknown"@.len() != "down"@.len() && "unknown"@.len()
        != "degraded"@.len());
}

/// Type of monitoring check to perform.
#[derive(Debug, Clone, Copy, PartialEq, Eq, Structural)]
pub enum CheckType {
    Http,
    Https,
    Tcp,
    Icmp,
}

/// Monitor visibility.
#[derive(Debug, Clone, Copy, PartialEq, Eq, Structural)]
pub enum MonitorVisibility {
    /// Public monitor - community-owned, coordinated
    Public,
    /// Private monitor - owner-controlled, privacy-preserving
    Private,
    /// Internal monitor - owner-only, never shared
    Internal,
}

impl MonitorVisibility {
    /// The default visibility: private.
    pub fn default_visibility() -> (r: MonitorVisibility)
        ensures
            r == MonitorVisibility::Private,
    {
        MonitorVisibility::Private
    }
}

impl Default for MonitorVisibility {
    /// Monitors are private unless made public or internal.
    fn default() -> (r: MonitorVisibility)
        ensures
            r == MonitorVisibility::Private,
    {
        MonitorVisibility::default_visibility()
    }
}

/// A random (version 4) UUID from `uuid::Uuid::new_v4`. Nothing is promised of the value.
#[verifier::external_body]
pub(crate) fn random_uuid() -> (r: u128) {
    uuid::Uuid::new_v4().as_u128()
}

/// The version 5 (SHA-1, name-based) UUID that `uuid::Uuid::new_v5` derives from a
/// namespace and a name.
pub uninterp spec fn uuid_v5_of(namespace: u128, name: Seq<u8>) -> u128;

/// Derives a name-based UUID with `uuid::Uuid::new_v5`.
#[verifier::external_body]
pub(crate) fn uuid_v5(namespace: u128, name: &[u8]) -> (r: u128)
    ensures
        r == uuid_v5_of(namespace, name@),
{
    uuid::Uuid::new_v5(&uuid::Uuid::from_u128(namespace), name).as_u128()
}

/// The UUID value that `uuid::Uuid::parse_str` reads from a text, or `None` when it
/// refuses the text.
pub uninterp spec fn uuid_parsed(text: Seq<char>) -> Option<u128>;

/// Reads a UUID with `uuid::Uuid::parse_str` (hyphenated, simple, braced or URN forms).
#[verifier::external_body]
pub fn parse_uuid(text: &str) -> (r: Option<u128>)
    ensures
        r == uuid_parsed(text@),
{
    match uuid::Uuid::parse_str(text) {
        Ok(u) => Some(u.as_u128()),
        Err(_) => None,
    }
}

/// The lowercase form that std's `str::to_lowercase` gives (Unicode-aware).
pub uninterp spec fn std_to_lowercase(s: Seq<char>) -> Seq<char>;

/// Lowercases a string with std's `str::to_lowercase`.
#[verifier::external_body]
pub fn to_lowercase(s: &str) -> (r: String)
    ensures
        r@ == std_to_lowercase(s@),
{
    s.to_lowercase()
}

/// `s` without its trailing occurrences of `c`.
pub open spec fn trim_end(s: Seq<char>, c: char) -> Seq<char>
    decreases s.len(),
{
    if s.len() > 0 && s.last() == c {
        trim_end(s.drop_last(), c)
    } else {
        s
    }
}

/// Removes every trailing `c` from `s`.
pub fn trim_end_matches(s: &str, c: char) -> (r: String)
    ensures
        r@ == trim_end(s@, c),
{
    let cs = chars_of(s);
    let mut n = cs.len();
    assert(cs@.take(n as int) =~= cs@);
    while n > 0 && cs[n - 1] == c
        invariant
            n <= cs@.len(),
            trim_end(cs@, c) == trim_end(cs@.take(n as int), c),
        decreases n,
    {
        assert(cs@.take(n as int).drop_last() =~= cs@.take(n - 1));
        n = n - 1;
    }
    let mut out: Vec<char> = Vec::new();
    let mut i: usize = 0;
    while i < n
        invariant
            i <= n <= cs@.len(),
            out@ =~= cs@.take(i as int),
        decreases n - i,
    {
        out.push(cs[i]);
        i = i + 1;
    }
    assert(cs@.take(n as int).len() == 0 || cs@.take(n as int).last() != c);
    string_from_chars(out.as_slice())
}

/// Fixed application namespace for public monitor identifiers: the bytes of "uppe-public-mons".
pub const PUBLIC_MONITOR_NAMESPACE: u128 = 0x7570_7065_2d70_7562_6c69_632d_6d6f_6e73;

/// The identifier of the public monitor for `domain`: a version 5 UUID of its lowercase form
/// without trailing '/', so that every peer derives the same identifier.
pub open spec fn public_domain_uuid(domain: Seq<char>) -> u128 {
    uuid_v5_of(
        PUBLIC_MONITOR_NAMESPACE,
        vstd::utf8::encode_utf8(trim_end(std_to_lowercase(domain), '/')),
    )
}

/// Monitor model - represents a monitoring target.
#[derive(Debug)]
pub struct Monitor {
    pub id: Option<i64>,
    pub uuid: u128,
    pub name: String,
    pub target: String,
    pub check_type: String,
    pub interval_seconds: u64,
    pub timeout_seconds: u64,
    pub enabled: bool,
    pub created_at: u64,
    pub updated_at: u64,
    /// Visibility mode (Public, Private or Internal)
    pub visibility: MonitorVisibility,
    /// Public domain (for public monitors, e.g., "google.com")
    pub public_domain: Option<String>,
    /// Display name for public monitors
    pub public_display_name: Option<String>,
    /// Owner peer ID (for private monitors)
    pub owner_peer_id: Option<String>,
}

impl Monitor {
    /// Create a new private monitor with identifier `uuid` at time `now`.
    pub fn new_private_at(name: String, target: String, check_type: String, uuid: u128, now: u64) -> (r:
        Monitor)
        ensures
            r.id is None,
            r.uuid == uuid,
            r.name == name,
            r.target == target,
            r.check_type == check_type,
            r.interval_seconds == 30,
            r.timeout_seconds == 10,
            r.enabled,
            r.created_at == now,
            r.updated_at == now,
            r.visibility == MonitorVisibility::Private,
            r.public_domain is None,
            r.public_display_name is None,
            r.owner_peer_id is None,
    {
        Monitor {
            id: None,
            uuid,
            name,
            target,
            check_type,
            interval_seconds: 30,
            timeout_seconds: 10,
            enabled: true,
            created_at: now,
            updated_at: now,
            visibility: MonitorVisibility::Private,
            public_domain: None,
            public_display_name: None,
            owner_peer_id: None,
        }
    }

    /// Create a new private monitor with a random identifier, stamped with the current time.
    pub fn new(name: String, target: String, check_type: String) -> (r: Monitor)
        ensures
            r.id is None,
            r.name == name,
            r.target == target,
            r.check_type == check_type,
            r.interval_seconds == 30,
            r.timeout_seconds == 10,
            r.enabled,
            r.created_at == r.updated_at,
            r.visibility == MonitorVisibility::Private,
            r.public_domain is None,
            r.public_display_name is None,
            r.owner_peer_id is None,
    {
        let uuid = random_uuid();
        let now = unix_now();
        Monitor::new_private_at(name, target, check_type, uuid, now)
    }

    /// Derive a deterministic UUID v5 for a public monitor from its domain.
    pub fn uuid_for_public_domain(domain: &str) -> (r: u128)
        ensures
            r == public_domain_uuid(domain@),
    {
        let lower = to_lowercase(domain);
        let trimmed = trim_end_matches(lower.as_str(), '/');
        uuid_v5(PUBLIC_MONITOR_NAMESPACE, trimmed.as_str().as_bytes())
    }

    /// Create a new public monitor at time `now`.
    pub fn new_public_at(
        name: String,
        target: String,
        check_type: String,
        domain: String,
        display_name: String,
        now: u64,
    ) -> (r: Monitor)
        ensures
            r.id is None,
            r.uuid == public_domain_uuid(domain@),
            r.name == name,
            r.target == target,
            r.check_type == check_type,
            r.interval_seconds == 60,
            r.timeout_seconds == 10,
            r.enabled,
            r.created_at == now,
            r.updated_at == now,
            r.visibility == MonitorVisibility::Public,
            r.public_domain == Some(domain),
            r.public_display_name == Some(display_name),
            r.owner_peer_id is None,
    {
        let uuid = Monitor::uuid_for_public_domain(domain.as_str());
        Monitor {
            id: None,
            uuid,
            name,
            target,
            check_type,
            interval_seconds: 60,
            timeout_seconds: 10,
            enabled: true,
            created_at: now,
            updated_at: now,
            visibility: MonitorVisibility::Public,
            public_domain: Some(domain),
            public_display_name: Some(display_name),
            owner_peer_id: None,
        }
    }

    /// Create a new public monitor, stamped with the current time.
    pub fn new_public(
        name: String,
        target: String,
        check_type: String,
        domain: String,
        display_name: String,
    ) -> (r: Monitor)
        ensures
            r.id is None,
            r.uuid == public_domain_uuid(domain@),
            r.name == name,
            r.target == target,
            r.check_type == check_type,
            r.interval_seconds == 60,
            r.timeout_seconds == 10,
            r.enabled,
            r.created_at == r.updated_at,
            r.visibility == MonitorVisibility::Public,
            r.public_domain == Some(domain),
            r.public_display_name == Some(display_name),
            r.owner_peer_id is None,
    {
        Monitor::new_public_at(name, target, check_type, domain, display_name, unix_now())
    }

    /// Check if this is a public monitor.
    pub fn is_public(&self) -> (r: bool)
        ensures
            r == (self.visibility == MonitorVisibility::Public),
    {
        matches!(self.visibility, MonitorVisibility::Public)
    }

    /// Check if this is a private monitor (peer-assisted).
    pub fn is_private(&self) -> (r: bool)
        ensures
            r == (self.visibility == MonitorVisibility::Private),
    {
        matches!(self.visibility, MonitorVisibility::Private)
    }
}

/// Result of a monitoring check.
#[derive(Debug)]
pub struct CheckResult {
    /// UUID of the monitor that was checked
    pub monitor_id: u128,
    /// URL or target that was checked
    pub target: String,
    /// Kind of check ("http", "https", "tcp" or "icmp")
    pub check_type: String,
    /// When the check was performed (Unix seconds)
    pub timestamp: u64,
    /// Nanoseconds past `timestamp` at which the check was performed
    pub timestamp_nanos: u32,
    /// Status of the check (up/down/degraded/unknown)
    pub status: MonitorStatus,
    /// Response time in milliseconds
    pub latency_ms: Option<u64>,
    /// HTTP status code (if applicable)
    pub status_code: Option<u16>,
    /// Error message (if check failed)
    pub error_message: Option<String>,
    /// ID of the peer that performed this check
    pub peer_id: String,
    /// Cryptographic signature of this result
    pub signature: Option<Vec<u8>>,
}

impl CheckResult {
    /// Create a new check result of unknown status at the instant `now` seconds and
    /// `now_nanos` nanoseconds after the Unix epoch.
    pub fn new_at(monitor_id: u128, target: String, check_type: String, peer_id: String, now: u64, now_nanos: u32) -> (r:
        CheckResult)
        ensures
            r.monitor_id == monitor_id,
            r.target == target,
            r.check_type == check_type,
            r.timestamp == now,
            r.timestamp_nanos == now_nanos,
            r.status == MonitorStatus::Unknown,
            r.latency_ms is None,
            r.status_code is None,
            r.error_message is None,
            r.peer_id == peer_id,
            r.signature is None,
    {
        CheckResult {
            monitor_id,
            target,
            check_type,
            timestamp: now,
            timestamp_nanos: now_nanos,
            status: MonitorStatus::Unknown,
            latency_ms: None,
            status_code: None,
            error_message: None,
            peer_id,
            signature: None,
        }
    }

    /// Create a new check result of unknown status, stamped with the current time.
    pub fn new(monitor_id: u128, target: String, check_type: String, peer_id: String) -> (r: CheckResult)
        ensures
            r.monitor_id == monitor_id,
            r.target == target,
            r.check_type == check_type,
            r.status == MonitorStatus::Unknown,
            r.latency_ms is None,
            r.status_code is None,
            r.error_message is None,
            r.peer_id == peer_id,
            r.signature is None,
            r.timestamp_nanos < 1_000_000_000,
    {
        let (now, now_nanos) = crate::clock::clock_instant();
        CheckResult::new_at(monitor_id, target, check_type, peer_id, now, now_nanos)
    }

    /// Mark the check as successful with latency.
    pub fn success(self, latency_ms: u64, status_code: Option<u16>) -> (r: CheckResult)
        ensures
            r == (CheckResult {
                status: MonitorStatus::Up,
                latency_ms: Some(latency_ms),
                status_code,
                ..self
            }),
    {
        CheckResult { status: MonitorStatus::Up, latency_ms: Some(latency_ms), status_code, ..self }
    }

    /// Mark the check as failed with error.
    pub fn failure(self, error: String) -> (r: CheckResult)
        ensures
            r == (CheckResult { status: MonitorStatus::Down, error_message: Some(error), ..self }),
    {
        CheckResult { status: MonitorStatus::Down, error_message: Some(error), ..self }
    }

    /// Mark the check as degraded (slow response).
    pub fn degraded(self, latency_ms: u64, status_code: Option<u16>) -> (r: CheckResult)
        ensures
            r == (CheckResult {
                status: MonitorStatus::Degraded,
                latency_ms: Some(latency_ms),
                status_code,
                ..self
            }),
    {
        CheckResult {
            status: MonitorStatus::Degraded,
            latency_ms: Some(latency_ms),
            status_code,
            ..self
        }
    }

    /// Add cryptographic signature to the result.
    pub fn with_signature(self, signature: Vec<u8>) -> (r: CheckResult)
        ensures
            r == (CheckResult { signature: Some(signature), ..self }),
    {
        CheckResult { signature: Some(signature), ..self }
    }
}

/// A copy of an optional string.
pub fn copy_opt_string(o: &Option<String>) -> (r: Option<String>)
    ensures
        r == *o,
{
    match o {
        Some(s) => Some(s.clone()),
        None => None,
    }
}

/// A copy of an optional byte vector.
fn copy_opt_bytes(o: &Option<Vec<u8>>) -> (r: Option<Vec<u8>>)
    ensures
        r is Some <==> o is Some,
        r matches Some(v) ==> o matches Some(w) && v@ == w@,
{
    match o {
        Some(v) => {
            let c = v.clone();
            assert(c@ =~= v@);
            Some(c)
        },
        None => None,
    }
}

/// MonitorResult model - a monitoring check result as stored locally, with the place it
/// was checked from.
#[derive(Debug)]
pub struct MonitorResult {
    pub id: Option<i64>,
    pub monitor_uuid: u128,
    pub timestamp: u64,
    pub status: MonitorStatus,
    pub latency_ms: Option<u64>,
    pub status_code: Option<u16>,
    pub error_message: Option<String>,
    pub peer_id: String,
    pub signature: Option<Vec<u8>>,
    pub created_at: u64,
    pub city: Option<String>,
    pub country: Option<String>,
    pub region: Option<String>,
}

/// `m` holds the fields of `c`, the place `location`, and was created at `now`.
pub open spec fn monitor_result_from(m: MonitorResult, c: CheckResult, location: Location, now: u64) -> bool {
    &&& m.id is None
    &&& m.monitor_uuid == c.monitor_id
    &&& m.timestamp == c.timestamp
    &&& m.status == c.status
    &&& m.latency_ms == c.latency_ms
    &&& m.status_code == c.status_code
    &&& m.error_message == c.error_message
    &&& m.peer_id == c.peer_id
    &&& (m.signature is Some <==> c.signature is Some)
    &&& (m.signature matches Some(v) ==> c.signature matches Some(w) && v@ == w@)
    &&& m.created_at == now
    &&& m.city == location.city
    &&& m.country == location.country
    &&& m.region == location.region
}

/// The place a stored result was checked from.
pub open spec fn location_of(m: MonitorResult) -> Location {
    Location { city: m.city, country: m.country, region: m.region }
}

impl MonitorResult {
    /// Create a stored result from a check result, checked from `location`, created at `now`.
    pub fn from_check_result_at(check_result: &CheckResult, location: Location, now: u64) -> (r: MonitorResult)
        ensures
            monitor_result_from(r, *check_result, location, now),
    {
        MonitorResult {
            id: None,
            monitor_uuid: check_result.monitor_id,
            timestamp: check_result.timestamp,
            status: check_result.status,
            latency_ms: check_result.latency_ms,
            status_code: check_result.status_code,
            error_message: copy_opt_string(&check_result.error_message),
            peer_id: check_result.peer_id.clone(),
            signature: copy_opt_bytes(&check_result.signature),
            created_at: now,
            city: location.city,
            country: location.country,
            region: location.region,
        }
    }

    /// Create a stored result from a check result, with the configured location held in
    /// `slot`, created now.
    pub fn from_check_result(check_result: &CheckResult, slot: &mut Option<LocationCache>) -> (r: MonitorResult)
        ensures
            monitor_result_from(r, *check_result, location_of(r), r.created_at),
            *old(slot) matches Some(c) ==> location_of(r) == c.location,
            *old(slot) is None ==> is_unknown(location_of(r)),
    {
        let now = unix_now();
        let location = get_location(slot, now);
        MonitorResult::from_check_result_at(check_result, location, now)
    }
}

/// PeerResult model - a monitoring result received from another peer.
#[derive(Debug)]
pub struct PeerResult {
    pub id: Option<i64>,
    pub monitor_uuid: u128,
    pub timestamp: u64,
    pub status: MonitorStatus,
    pub latency_ms: Option<u64>,
    pub status_code: Option<u16>,
    pub error_message: Option<String>,
    pub peer_id: String,
    pub signature: Vec<u8>,
    pub verified: bool,
    pub created_at: u64,
    pub city: Option<String>,
    pub country: Option<String>,
    pub region: Option<String>,
    /// The peer that originally submitted this result (for distributed monitoring)
    pub source_peer_id: Option<String>,
    /// Whether we synced this result from a peer (for cleanup tracking)
    pub synced_from_peer: bool,
    /// When to delete this result (Unix timestamp). None = keep indefinitely
    pub retention_until: Option<i64>,
}

/// `r` is the stored form of the received result `p`: its check's fields, the signature
/// `signature`, not yet verified, created when it was received, from the peer that sent it.
pub open spec fn peer_result_from_received(r: PeerResult, p: crate::messages::PeerResult, signature: Seq<u8>) -> bool {
    &&& r.id is None
    &&& r.monitor_uuid == p.result.monitor_id
    &&& r.timestamp == p.result.timestamp
    &&& r.status == p.result.status
    &&& r.latency_ms == p.result.latency_ms
    &&& r.status_code == p.result.status_code
    &&& r.error_message == p.result.error_message
    &&& r.peer_id == p.result.peer_id
    &&& r.signature@ == signature
    &&& !r.verified
    &&& r.created_at == p.received_at
    &&& r.city is None
    &&& r.country is None
    &&& r.region is None
    &&& r.source_peer_id == Some(p.peer_id)
    &&& !r.synced_from_peer
    &&& r.retention_until is None
}

impl PeerResult {
    /// The stored form of a result received from a peer; `None` when it carries no
    /// signature.
    pub fn from_p2p_result(p2p_result: &crate::messages::PeerResult) -> (r: Option<PeerResult>)
        ensures
            p2p_result.signature is None ==> r is None,
            p2p_result.signature matches Some(sig) ==> (r matches Some(x) && peer_result_from_received(
                x,
                *p2p_result,
                sig@,
            )),
    {
        let signature = match &p2p_result.signature {
            Some(sig) => {
                let c = sig.clone();
                assert(c@ =~= sig@);
                c
            },
            None => return None,
        };
        Some(PeerResult {
            id: None,
            monitor_uuid: p2p_result.result.monitor_id,
            timestamp: p2p_result.result.timestamp,
            status: p2p_result.result.status,
            latency_ms: p2p_result.result.latency_ms,
            status_code: p2p_result.result.status_code,
            error_message: copy_opt_string(&p2p_result.result.error_message),
            peer_id: p2p_result.result.peer_id.clone(),
            signature,
            verified: false,
            created_at: p2p_result.received_at,
            city: None,
            country: None,
            region: None,
            source_peer_id: Some(p2p_result.peer_id.clone()),
            synced_from_peer: false,
            retention_until: None,
        })
    }
}

/// Snapshot of network metrics stored periodically.
#[derive(Debug)]
pub struct NetworkStats {
    pub timestamp: u64,
    pub total_peers: i64,
    pub online_peers: i64,
    pub checks_performed: i64,
    pub checks_received: i64,
    pub bandwidth_used_mb: i64,
}

/// Signed audit event as persisted in the append-only event log.
#[derive(Debug)]
pub struct AuditEvent {
    pub id: Option<i64>,
    pub event_uuid: u128,
    pub event_type: String,
    pub schema_version: i32,
    pub created_at: i64,
    pub actor_id: String,
    pub actor_public_key: Vec<u8>,
    pub resource_type: String,
    pub resource_id: String,
    pub parent_event_uuid: Option<u128>,
    pub payload_json: String,
    pub payload_hash: String,
    pub capability_id: Option<String>,
    pub delegated_by: Option<String>,
    pub expires_at: Option<i64>,
    pub context_json: Option<String>,
    pub signature: Vec<u8>,
}

/// Peer attestation over a previously stored audit event, as persisted.
#[derive(Debug)]
pub struct AuditAttestation {
    pub id: Option<i64>,
    pub attestation_uuid: u128,
    pub subject_event_uuid: u128,
    pub attestor_id: String,
    pub attestor_public_key: Vec<u8>,
    pub decision: String,
    pub reason: Option<String>,
    pub created_at: i64,
    pub signature: Vec<u8>,
}

} // verus!
