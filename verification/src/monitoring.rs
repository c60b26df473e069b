//! How a monitor is checked: which check type a name selects, when its first check runs,
//! what a target URL must look like and where it may resolve to, and how an outcome
//! becomes a result.
use vstd::prelude::*;
use crate::models::{std_to_lowercase, to_lowercase, CheckResult, CheckType, MonitorStatus};
use crate::net::{address_is_public, public_address, IpAddress};
use crate::text::{chars_of, concat_str, str_equal, string_from_chars};
use crate::url::{parse_url, url_has_fragment, url_has_password, url_host, url_known_port, url_parses, url_scheme, url_username};
use crate::validation::{validate_timeout, ValidationError};

verus! {

/// Most resolved addresses considered for one check.
pub const MAX_RESOLVED_ADDRESSES: usize = 16;

/// The lowercase name of a check type.
pub open spec fn check_type_text(c: CheckType) -> Seq<char> {
    match c {
        CheckType::Http => "http"@,
        CheckType::Https => "https"@,
        CheckType::Tcp => "tcp"@,
        CheckType::Icmp => "icmp"@,
    }
}

/// The check type a name selects: "http", "https", "tcp" or "icmp", anything else HTTP.
pub open spec fn check_type_of(name: Seq<char>) -> CheckType {
    if name == "https"@ {
        CheckType::Https
    } else if name == "tcp"@ {
        CheckType::Tcp
    } else if name == "icmp"@ {
        CheckType::Icmp
    } else {
        CheckType::Http
    }
}

/// The lowercase name of a check type.
pub fn check_type_name(c: CheckType) -> (r: &'static str)
    ensures
        r@ == check_type_text(c),
{
    match c {
        CheckType::Http => "http",
        CheckType::Https => "https",
        CheckType::Tcp => "tcp",
        CheckType::Icmp => "icmp",
    }
}

/// The check type a name selects (exact, lowercase names); unknown names select HTTP.
pub fn check_type_from_name(name: &str) -> (r: CheckType)
    ensures
        r == check_type_of(name@),
{
    proof {
        reveal_strlit("http");
        reveal_strlit("https");
        reveal_strlit("tcp");
        reveal_strlit("icmp");
        assert("http"@.len() == 4 && "https"@.len() == 5 && "tcp"@.len() == 3 && "icmp"@.len() == 4);
        assert("http"@[0] != "icmp"@[0]);
    }
    if str_equal(name, "http") {
        CheckType::Http
    } else if str_equal(name, "https") {
        CheckType::Https
    } else if str_equal(name, "tcp") {
        CheckType::Tcp
    } else if str_equal(name, "icmp") {
        CheckType::Icmp
    } else {
        CheckType::Http
    }
}

/// The check type a stored name selects, compared without regard to case.
pub fn check_type_from_stored(name: &str) -> (r: CheckType)
    ensures
        r == check_type_of(std_to_lowercase(name@)),
{
    let lower = to_lowercase(name);
    check_type_from_name(lower.as_str())
}

/// Monitor configuration for scheduling.
#[derive(Debug)]
pub struct MonitorConfig {
    pub id: u128,
    pub target: String,
    pub check_type: CheckType,
    pub interval_seconds: u64,
    pub enabled: bool,
    pub timeout_seconds: u64,
    pub allow_private_targets: bool,
    /// Seconds to wait before the first check, to stagger peers; 0 starts after one full
    /// interval.
    pub phase_offset_secs: u64,
}

/// Whether two configurations are the same.
pub open spec fn same_config(a: MonitorConfig, b: MonitorConfig) -> bool {
    &&& a.id == b.id
    &&& a.target@ == b.target@
    &&& a.check_type == b.check_type
    &&& a.interval_seconds == b.interval_seconds
    &&& a.enabled == b.enabled
    &&& a.timeout_seconds == b.timeout_seconds
    &&& a.allow_private_targets == b.allow_private_targets
    &&& a.phase_offset_secs == b.phase_offset_secs
}

/// Seconds before the first check: the phase offset when it lies strictly inside the
/// interval, otherwise one full interval.
pub open spec fn first_delay(c: MonitorConfig) -> u64 {
    if c.phase_offset_secs > 0 && c.phase_offset_secs < c.interval_seconds {
        c.phase_offset_secs
    } else {
        c.interval_seconds
    }
}

impl MonitorConfig {
    /// The schedule of a stored monitor: its id, target, interval, timeout and enabled flag,
    /// the check type its name selects without regard to case, private addresses allowed for
    /// internal monitors only, and the first check after `phase_offset_secs`.
    pub fn from_stored_monitor(m: &crate::models::Monitor, phase_offset_secs: u64) -> (r: MonitorConfig)
        ensures
            r.id == m.uuid,
            r.target@ == m.target@,
            r.check_type == check_type_of(std_to_lowercase(m.check_type@)),
            r.interval_seconds == m.interval_seconds,
            r.enabled == m.enabled,
            r.timeout_seconds == m.timeout_seconds,
            r.allow_private_targets == (m.visibility == crate::models::MonitorVisibility::Internal),
            r.phase_offset_secs == phase_offset_secs,
    {
        let internal = match m.visibility {
            crate::models::MonitorVisibility::Internal => true,
            _ => false,
        };
        MonitorConfig {
            id: m.uuid,
            target: m.target.clone(),
            check_type: check_type_from_stored(m.check_type.as_str()),
            interval_seconds: m.interval_seconds,
            enabled: m.enabled,
            timeout_seconds: m.timeout_seconds,
            allow_private_targets: internal,
            phase_offset_secs,
        }
    }

    /// A copy of this configuration.
    pub fn duplicate(&self) -> (r: MonitorConfig)
        ensures
            same_config(r, *self),
    {
        MonitorConfig {
            id: self.id,
            target: self.target.clone(),
            check_type: self.check_type,
            interval_seconds: self.interval_seconds,
            enabled: self.enabled,
            timeout_seconds: self.timeout_seconds,
            allow_private_targets: self.allow_private_targets,
            phase_offset_secs: self.phase_offset_secs,
        }
    }

    /// Whether two configurations are the same.
    pub fn same_as(&self, other: &MonitorConfig) -> (r: bool)
        ensures
            r == same_config(*self, *other),
    {
        self.id == other.id && str_equal(self.target.as_str(), other.target.as_str())
            && self.check_type == other.check_type && self.interval_seconds == other.interval_seconds
            && self.enabled == other.enabled && self.timeout_seconds == other.timeout_seconds
            && self.allow_private_targets == other.allow_private_targets
            && self.phase_offset_secs == other.phase_offset_secs
    }

    /// Whether the monitor is checked at all: it must be enabled with a non-zero interval.
    pub fn runs(&self) -> (r: bool)
        ensures
            r == (self.enabled && self.interval_seconds > 0),
    {
        self.enabled && self.interval_seconds > 0
    }

    /// Seconds before the first check.
    pub fn first_check_delay(&self) -> (r: u64)
        ensures
            r == first_delay(*self),
    {
        if self.phase_offset_secs > 0 && self.phase_offset_secs < self.interval_seconds {
            self.phase_offset_secs
        } else {
            self.interval_seconds
        }
    }
}

/// The time limit of a check: the timeout clamped to 1..=300 seconds.
pub fn effective_timeout(seconds: u64) -> (r: u64)
    ensures
        r == (if seconds < 1 { 1 } else if seconds > 300 { 300 } else { seconds }),
{
    if seconds < 1 {
        1
    } else if seconds > 300 {
        300
    } else {
        seconds
    }
}

/// Why a check could not be made.
#[derive(Debug, Clone, PartialEq, Eq, Structural)]
pub enum CheckError {
    /// The timeout is out of range.
    InvalidTimeout(ValidationError),
    /// ICMP monitoring is not supported.
    IcmpUnsupported,
    /// The target does not parse as a URL.
    InvalidUrl,
    /// Credentials and fragments are not allowed in targets.
    CredentialsOrFragment,
    /// Only HTTP and HTTPS URLs are supported.
    UnsupportedScheme,
    /// The URL has no host.
    MissingHost,
    /// The URL has no port, explicit or known.
    MissingPort,
    /// Target does not resolve exclusively to public addresses.
    NotPublic,
    /// The server answered with a status that is neither success nor redirection.
    HttpStatus(u16),
}

/// `s` without leading and trailing square brackets.
pub open spec fn trim_brackets(s: Seq<char>) -> Seq<char>
    decreases s.len(),
{
    if s.len() > 0 && (s[0] == '[' || s[0] == ']') {
        trim_brackets(s.skip(1))
    } else if s.len() > 0 && (s.last() == '[' || s.last() == ']') {
        trim_brackets(s.drop_last())
    } else {
        s
    }
}

/// The URL text a check parses: the target, prefixed with "tcp://" for TCP checks.
pub open spec fn url_text_for(kind: CheckType, target: Seq<char>) -> Seq<char> {
    if kind == CheckType::Tcp {
        "tcp://"@ + target
    } else {
        target
    }
}

/// Where a check connects (host and port), or why it cannot be made.
pub open spec fn check_plan_result(target: Seq<char>, kind: CheckType, seconds: u64) -> Result<(Seq<char>, u16), CheckError> {
    if seconds < 1 {
        Err(CheckError::InvalidTimeout(ValidationError::TimeoutTooShort(seconds)))
    } else if seconds > 300 {
        Err(CheckError::InvalidTimeout(ValidationError::TimeoutTooLong(seconds)))
    } else if kind == CheckType::Icmp {
        Err(CheckError::IcmpUnsupported)
    } else {
        let u = url_text_for(kind, target);
        if !url_parses(u) {
            Err(CheckError::InvalidUrl)
        } else if url_username(u).len() != 0 || url_has_password(u) || url_has_fragment(u) {
            Err(CheckError::CredentialsOrFragment)
        } else if kind != CheckType::Tcp && !(url_scheme(u) == "http"@ || url_scheme(u) == "https"@) {
            Err(CheckError::UnsupportedScheme)
        } else {
            match url_host(u) {
                None => Err(CheckError::MissingHost),
                Some(h) => match url_known_port(u) {
                    None => Err(CheckError::MissingPort),
                    Some(p) => Ok((trim_brackets(h), p)),
                },
            }
        }
    }
}

/// Removes leading and trailing square brackets.
fn trim_brackets_exec(s: &str) -> (r: String)
    ensures
        r@ == trim_brackets(s@),
{
    let cs = chars_of(s);
    let mut lo: usize = 0;
    let mut hi: usize = cs.len();
    assert(cs@.subrange(0, cs@.len() as int) =~= cs@);
    while lo < hi && (cs[lo] == '[' || cs[lo] == ']')
        invariant
            lo <= hi <= cs@.len(),
            hi == cs@.len(),
            cs@ == s@,
            trim_brackets(cs@.subrange(lo as int, hi as int)) == trim_brackets(s@),
        decreases hi - lo,
    {
        assert(cs@.subrange(lo as int, hi as int).skip(1) =~= cs@.subrange(lo + 1, hi as int));
        lo = lo + 1;
    }
    while lo < hi && (cs[hi - 1] == '[' || cs[hi - 1] == ']')
        invariant
            lo <= hi <= cs@.len(),
            cs@ == s@,
            trim_brackets(cs@.subrange(lo as int, hi as int)) == trim_brackets(s@),
            lo < hi ==> !(cs@[lo as int] == '[' || cs@[lo as int] == ']'),
        decreases hi - lo,
    {
        assert(cs@.subrange(lo as int, hi as int).drop_last() =~= cs@.subrange(lo as int, hi - 1));
        hi = hi - 1;
    }
    proof {
        let t = cs@.subrange(lo as int, hi as int);
        if t.len() > 0 {
            assert(t[0] == cs@[lo as int]);
            assert(t.last() == cs@[hi - 1]);
        }
    }
    string_from_chars(&cs.as_slice()[lo..hi])
}

/// Where to connect for a check of `target`, or why the check cannot be made: the timeout
/// must be within range, ICMP is not supported, the URL (with "tcp://" before a TCP
/// target) must parse without credentials or fragment, HTTP checks need an http or https
/// scheme, and the URL must name a host and a port (explicit or known).
pub fn check_plan(target: &str, kind: CheckType, seconds: u64) -> (r: Result<(String, u16), CheckError>)
    ensures
        match r {
            Ok((h, p)) => check_plan_result(target@, kind, seconds) == Ok::<(Seq<char>, u16), CheckError>((h@, p)),
            Err(e) => check_plan_result(target@, kind, seconds) == Err::<(Seq<char>, u16), CheckError>(e),
        },
{
    match validate_timeout(seconds) {
        Err(e) => return Err(CheckError::InvalidTimeout(e)),
        Ok(()) => {},
    }
    let text = match kind {
        CheckType::Http | CheckType::Https => target.to_owned(),
        CheckType::Tcp => concat_str("tcp://", target),
        CheckType::Icmp => return Err(CheckError::IcmpUnsupported),
    };
    let url = match parse_url(text.as_str()) {
        Some(u) => u,
        None => return Err(CheckError::InvalidUrl),
    };
    if !url.username.as_str().is_empty() || url.has_password || url.has_fragment {
        return Err(CheckError::CredentialsOrFragment);
    }
    if kind != CheckType::Tcp && !(str_equal(url.scheme.as_str(), "http") || str_equal(url.scheme.as_str(), "https")) {
        return Err(CheckError::UnsupportedScheme);
    }
    let host = match &url.host {
        Some(h) => trim_brackets_exec(h.as_str()),
        None => return Err(CheckError::MissingHost),
    };
    match url.known_port {
        Some(p) => Ok((host, p)),
        None => Err(CheckError::MissingPort),
    }
}

/// Whether the addresses a target resolved to may be contacted: the first 16 of them must
/// exist and, unless private targets are allowed, all be public.
pub open spec fn addresses_allowed(addresses: Seq<IpAddress>, allow_private: bool) -> bool {
    first_addresses(addresses).len() > 0 && (allow_private || forall|i: int|
        0 <= i < first_addresses(addresses).len() ==> address_is_public(#[trigger] first_addresses(addresses)[i].octets()))
}

/// The addresses considered: the first 16.
pub open spec fn first_addresses(addresses: Seq<IpAddress>) -> Seq<IpAddress> {
    if addresses.len() > 16 { addresses.take(16) } else { addresses }
}

/// Decides whether the resolved addresses may be contacted; returns the ones to use.
pub fn resolved_addresses(addresses: &Vec<IpAddress>, allow_private: bool) -> (r: Result<Vec<IpAddress>, CheckError>)
    ensures
        addresses_allowed(addresses@, allow_private) ==> (r matches Ok(a) && a@ == first_addresses(addresses@)),
        !addresses_allowed(addresses@, allow_private) ==> r == Err::<Vec<IpAddress>, CheckError>(CheckError::NotPublic),
{
    let n = if addresses.len() > MAX_RESOLVED_ADDRESSES { MAX_RESOLVED_ADDRESSES } else { addresses.len() };
    let ghost a = first_addresses(addresses@);
    let mut chosen: Vec<IpAddress> = Vec::new();
    let mut all_public = true;
    let mut i: usize = 0;
    while i < n
        invariant
            i <= n <= addresses@.len(),
            n == a.len(),
            a == first_addresses(addresses@),
            chosen@ == a.take(i as int),
            all_public == forall|j: int| 0 <= j < i ==> address_is_public(#[trigger] a[j].octets()),
        decreases n - i,
    {
        let ip = addresses[i];
        assert(ip == a[i as int]);
        if !public_address(&ip) {
            all_public = false;
        }
        chosen.push(ip);
        assert(chosen@ =~= a.take(i + 1));
        i = i + 1;
    }
    assert(a.take(n as int) =~= a);
    proof {
        if addresses_allowed(addresses@, allow_private) && !allow_private {
            assert forall|j: int| 0 <= j < n implies address_is_public(#[trigger] a[j].octets()) by {
                assert(address_is_public(first_addresses(addresses@)[j].octets()));
            }
        }
    }
    if n == 0 || (!allow_private && !all_public) {
        return Err(CheckError::NotPublic);
    }
    Ok(chosen)
}

/// Whether an HTTP status counts as up: success (2xx) or redirection (3xx).
pub fn http_status_accepted(code: u16) -> (r: bool)
    ensures
        r == (200 <= code <= 399),
{
    200 <= code && code <= 399
}

/// The status a check outcome gives: up, degraded when slower than the threshold, down on
/// an error.
pub open spec fn outcome_status(outcome: Result<(u64, Option<u16>), String>, degraded_threshold_ms: u64) -> MonitorStatus {
    match outcome {
        Ok((latency, _)) => if latency > degraded_threshold_ms {
            MonitorStatus::Degraded
        } else {
            MonitorStatus::Up
        },
        Err(_) => MonitorStatus::Down,
    }
}

/// Executes checks for this node: it stamps results with its peer id and marks slow
/// responses as degraded.
#[derive(Debug)]
pub struct MonitoringExecutor {
    pub peer_id: String,
    pub degraded_threshold_ms: u64,
}

impl MonitoringExecutor {
    /// An executor for node `peer_id`; the timeout given here is unused (each monitor has
    /// its own).
    pub fn new(peer_id: String, timeout_seconds: u64, degraded_threshold_ms: u64) -> (r: Result<MonitoringExecutor, CheckError>)
        ensures
            r matches Ok(e) && e.peer_id == peer_id && e.degraded_threshold_ms == degraded_threshold_ms,
    {
        Ok(MonitoringExecutor { peer_id, degraded_threshold_ms })
    }

    /// The result a check of `config` starts from at the instant `now` seconds and
    /// `now_nanos` nanoseconds after the Unix epoch: unknown status, the monitor's id and
    /// target, the check type's name and this node's id.
    pub fn start_result_at(&self, config: &MonitorConfig, now: u64, now_nanos: u32) -> (r: CheckResult)
        ensures
            r.monitor_id == config.id,
            r.target@ == config.target@,
            r.check_type@ == check_type_text(config.check_type),
            r.timestamp == now,
            r.timestamp_nanos == now_nanos,
            r.status == MonitorStatus::Unknown,
            r.peer_id@ == self.peer_id@,
            r.latency_ms is None && r.status_code is None && r.error_message is None && r.signature is None,
    {
        CheckResult::new_at(
            config.id,
            config.target.clone(),
            check_type_name(config.check_type).to_owned(),
            self.peer_id.clone(),
            now,
            now_nanos,
        )
    }

    /// The result when the node has no capacity left for another check.
    pub fn capacity_failure(result: CheckResult) -> (r: CheckResult)
        ensures
            r == (CheckResult { status: MonitorStatus::Down, error_message: r.error_message, ..result }),
            r.error_message matches Some(m) && m@ == "Node check capacity reached"@,
    {
        result.failure("Node check capacity reached".to_owned())
    }

    /// The result of a check from its outcome: latency and status code when it answered
    /// (degraded when slower than the threshold), the error otherwise.
    pub fn complete(&self, result: CheckResult, outcome: Result<(u64, Option<u16>), String>) -> (r: CheckResult)
        ensures
            r.status == outcome_status(outcome, self.degraded_threshold_ms),
            outcome matches Ok((l, c)) ==> r == (CheckResult {
                status: r.status,
                latency_ms: Some(l),
                status_code: c,
                ..result
            }),
            outcome matches Err(e) ==> r == (CheckResult { status: MonitorStatus::Down, error_message: Some(e), ..result }),
    {
        match outcome {
            Ok((latency, code)) => {
                if latency > self.degraded_threshold_ms {
                    result.degraded(latency, code)
                } else {
                    result.success(latency, code)
                }
            },
            Err(error) => result.failure(error),
        }
    }
}

} // verus!
