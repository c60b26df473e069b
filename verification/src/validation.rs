//! Security validation of monitor definitions before they enter public orchestration.
use vstd::prelude::*;
use crate::net::{digit_run, digits_value, host_private_or_local, is_private_or_local};
use crate::text::{chars_of, str_equal};
use crate::url::{opt_str, parse_url, url_host, url_parses, url_port, url_scheme, UrlParts};

verus! {

/// Shortest accepted check interval, in seconds.
pub const MIN_INTERVAL: u64 = 10;
/// Longest accepted check interval, in seconds (24 hours).
pub const MAX_INTERVAL: u64 = 86400;
/// Shortest accepted timeout, in seconds.
pub const MIN_TIMEOUT: u64 = 1;
/// Longest accepted timeout, in seconds (5 minutes).
pub const MAX_TIMEOUT: u64 = 300;

/// Why a monitor definition was refused.
#[derive(Debug, Clone, PartialEq, Eq, Structural)]
pub enum ValidationError {
    UnsupportedCheckType,
    InvalidUrl,
    InvalidScheme,
    PrivateAddress,
    PortZero,
    BlockedPort(u16),
    TcpFormat,
    InvalidPortNumber,
    IntervalTooShort(u64),
    IntervalTooLong(u64),
    TimeoutTooShort(u64),
    TimeoutTooLong(u64),
}

/// Validate check interval for security: between 10 seconds and 24 hours.
pub fn validate_check_interval(interval_seconds: u64) -> (r: Result<(), ValidationError>)
    ensures
        interval_seconds < MIN_INTERVAL ==> r == Err::<(), ValidationError>(ValidationError::IntervalTooShort(interval_seconds)),
        interval_seconds > MAX_INTERVAL ==> r == Err::<(), ValidationError>(ValidationError::IntervalTooLong(interval_seconds)),
        MIN_INTERVAL <= interval_seconds <= MAX_INTERVAL ==> r == Ok::<(), ValidationError>(()),
{
    if interval_seconds < MIN_INTERVAL {
        return Err(ValidationError::IntervalTooShort(interval_seconds));
    }
    if interval_seconds > MAX_INTERVAL {
        return Err(ValidationError::IntervalTooLong(interval_seconds));
    }
    Ok(())
}


/// Validate timeout is reasonable: between 1 second and 5 minutes.
pub fn validate_timeout(timeout_seconds: u64) -> (r: Result<(), ValidationError>)
    ensures
        timeout_seconds < MIN_TIMEOUT ==> r == Err::<(), ValidationError>(ValidationError::TimeoutTooShort(timeout_seconds)),
        timeout_seconds > MAX_TIMEOUT ==> r == Err::<(), ValidationError>(ValidationError::TimeoutTooLong(timeout_seconds)),
        MIN_TIMEOUT <= timeout_seconds <= MAX_TIMEOUT ==> r == Ok::<(), ValidationError>(()),
{
    if timeout_seconds < MIN_TIMEOUT {
        return Err(ValidationError::TimeoutTooShort(timeout_seconds));
    }
    if timeout_seconds > MAX_TIMEOUT {
        return Err(ValidationError::TimeoutTooLong(timeout_seconds));
    }
    Ok(())
}

/// Validate port is in valid range (port 0 is refused).
pub fn validate_port(port: u16) -> (r: Result<(), ValidationError>)
    ensures
        port == 0 ==> r == Err::<(), ValidationError>(ValidationError::PortZero),
        port != 0 ==> r == Ok::<(), ValidationError>(()),
{
    if port == 0 {
        return Err(ValidationError::PortZero);
    }
    Ok(())
}

/// System and database ports that public monitors may not probe:
/// SSH, Telnet, SMTP, POP3, IMAP, SMB, RDP, PostgreSQL, VNC, Redis and MongoDB.
pub open spec fn blocked_port(port: u16) -> bool {
    port == 22 || port == 23 || port == 25 || port == 110 || port == 143 || port == 445 || port
        == 3389 || port == 5432 || port == 5900 || port == 6379 || port == 27017
}

/// Validate port is not in the sensitive (blocked) list.
pub fn validate_port_allowlist(port: u16) -> (r: Result<(), ValidationError>)
    ensures
        blocked_port(port) ==> r == Err::<(), ValidationError>(ValidationError::BlockedPort(port)),
        !blocked_port(port) ==> r == Ok::<(), ValidationError>(()),
{
    let blocked_ports: [u16; 11] = [22, 23, 25, 110, 143, 445, 3389, 5432, 5900, 6379, 27017];
    let mut i: usize = 0;
    while i < 11
        invariant
            i <= 11,
            blocked_ports@ == seq![22u16, 23, 25, 110, 143, 445, 3389, 5432, 5900, 6379, 27017],
            forall|j: int| 0 <= j < i ==> blocked_ports@[j] != port,
        decreases 11 - i,
    {
        if blocked_ports[i] == port {
            return Err(ValidationError::BlockedPort(port));
        }
        i = i + 1;
    }
    assert(!blocked_port(port)) by {
        assert(blocked_ports@[0] != port && blocked_ports@[1] != port && blocked_ports@[2] != port
            && blocked_ports@[3] != port && blocked_ports@[4] != port && blocked_ports@[5] != port
            && blocked_ports@[6] != port && blocked_ports@[7] != port && blocked_ports@[8] != port
            && blocked_ports@[9] != port && blocked_ports@[10] != port);
    }
    Ok(())
}

/// The value that std's `u16::from_str` gives a text: an optional leading '+', then one
/// or more decimal digits spelling at most 65535.
pub open spec fn parse_u16_spec(s: Seq<char>) -> Option<u16> {
    let d = if s.len() > 0 && s[0] == '+' {
        s.subrange(1, s.len() as int)
    } else {
        s
    };
    if d.len() == 0 || digit_run(d, 0, 10) != d.len() || digits_value(d, 0, d.len(), 10) > 65535 {
        None
    } else {
        Some(digits_value(d, 0, d.len(), 10) as u16)
    }
}

proof fn lemma_digits_value_monotone(s: Seq<char>, pos: int, k: nat, n: nat, radix: nat)
    requires
        k <= n,
        radix >= 1,
    ensures
        digits_value(s, pos, k, radix) <= digits_value(s, pos, n, radix),
    decreases n,
{
    if k < n {
        lemma_digits_value_monotone(s, pos, k, (n - 1) as nat, radix);
        let v = digits_value(s, pos, (n - 1) as nat, radix);
        assert(v * radix >= v) by (nonlinear_arith)
            requires
                radix >= 1,
                v >= 0,
        ;
    }
}

proof fn lemma_digit_run_full(d: Seq<char>, i: int)
    requires
        0 <= i <= d.len(),
        forall|j: int| i <= j < d.len() ==> #[trigger] crate::net::digit_of(d[j], 10) is Some,
    ensures
        digit_run(d, i, 10) == d.len() - i,
    decreases d.len() - i,
{
    if i < d.len() {
        lemma_digit_run_full(d, i + 1);
    }
}

proof fn lemma_digit_run_short(d: Seq<char>, i: int, j: int)
    requires
        0 <= i <= j < d.len(),
        crate::net::digit_of(d[j], 10) is None,
    ensures
        digit_run(d, i, 10) < d.len() - i,
    decreases j - i,
{
    if i < j {
        if crate::net::digit_of(d[i], 10) is Some {
            lemma_digit_run_short(d, i + 1, j);
        }
    }
}

/// Parses a port number the way std's `u16::from_str` does.
pub fn parse_port(s: &[char]) -> (r: Option<u16>)
    ensures
        r == parse_u16_spec(s@),
{
    let len = s.len();
    let start: usize = if len > 0 && s[0] == '+' {
        1
    } else {
        0
    };
    let ghost d = if s@.len() > 0 && s@[0] == '+' {
        s@.subrange(1, s@.len() as int)
    } else {
        s@
    };
    assert(d =~= s@.subrange(start as int, len as int));
    if start == len {
        return None;
    }
    let mut v: u32 = 0;
    let mut i: usize = start;
    while i < len
        invariant
            start <= i <= len,
            len == s@.len(),
            d =~= s@.subrange(start as int, len as int),
            d == (if s@.len() > 0 && s@[0] == '+' {
                s@.subrange(1, s@.len() as int)
            } else {
                s@
            }),
            d.len() > 0,
            v <= 65535,
            v == digits_value(d, 0, (i - start) as nat, 10),
            forall|j: int| 0 <= j < i - start ==> #[trigger] crate::net::digit_of(d[j], 10) is Some,
        decreases len - i,
    {
        let c = s[i];
        assert(d[i - start] == s@[i as int]);
        if !('0' <= c && c <= '9') {
            proof {
                lemma_digit_run_short(d, 0, (i - start) as int);
            }
            assert(parse_u16_spec(s@) is None);
            return None;
        }
        let next: u32 = v * 10 + ((c as u32) - ('0' as u32));
        assert(next == digits_value(d, 0, (i - start + 1) as nat, 10));
        if next > 65535 {
            proof {
                lemma_digits_value_monotone(d, 0, (i - start + 1) as nat, d.len(), 10);
            }
            assert(digits_value(d, 0, d.len(), 10) > 65535);
            assert(parse_u16_spec(s@) is None);
            return None;
        }
        v = next;
        i = i + 1;
    }
    proof {
        lemma_digit_run_full(d, 0);
    }
    Some(v as u16)
}

/// How many times `c` occurs in `s`.
pub open spec fn count_char(s: Seq<char>, c: char) -> nat
    decreases s.len(),
{
    if s.len() == 0 {
        0
    } else {
        count_char(s.drop_last(), c) + if s.last() == c {
            1nat
        } else {
            0nat
        }
    }
}

/// The outcome of validating a `host:port` TCP target.
pub open spec fn tcp_target_result(t: Seq<char>) -> Result<(), ValidationError> {
    if count_char(t, ':') != 1 {
        Err(ValidationError::TcpFormat)
    } else {
        let i = choose|i: int| 0 <= i < t.len() && t[i] == ':';
        let host = t.subrange(0, i);
        let port_text = t.subrange(i + 1, t.len() as int);
        match parse_u16_spec(port_text) {
            None => Err(ValidationError::InvalidPortNumber),
            Some(port) => if host_private_or_local(host) {
                Err(ValidationError::PrivateAddress)
            } else if port == 0 {
                Err(ValidationError::PortZero)
            } else if blocked_port(port) {
                Err(ValidationError::BlockedPort(port))
            } else {
                Ok(())
            },
        }
    }
}

proof fn lemma_count_prefix_push(s: Seq<char>, k: int, c: char)
    requires
        0 <= k < s.len(),
    ensures
        count_char(s.take(k + 1), c) == count_char(s.take(k), c) + if s[k] == c {
            1nat
        } else {
            0nat
        },
{
    assert(s.take(k + 1).drop_last() =~= s.take(k));
}

proof fn lemma_count_zero(s: Seq<char>, c: char)
    requires
        forall|j: int| 0 <= j < s.len() ==> s[j] != c,
    ensures
        count_char(s, c) == 0,
    decreases s.len(),
{
    if s.len() > 0 {
        lemma_count_zero(s.drop_last(), c);
    }
}

proof fn lemma_count_positive(s: Seq<char>, c: char, j: int)
    requires
        0 <= j < s.len(),
        s[j] == c,
    ensures
        count_char(s, c) >= 1,
    decreases s.len(),
{
    if j < s.len() - 1 {
        lemma_count_positive(s.drop_last(), c, j);
    }
}

/// Validate a TCP target, which must be written `host:port`.
pub fn validate_tcp_target(target: &str) -> (r: Result<(), ValidationError>)
    ensures
        r == tcp_target_result(target@),
{
    let cs = chars_of(target);
    let len = cs.len();
    let mut colons: usize = 0;
    let mut at: usize = 0;
    let mut i: usize = 0;
    while i < len
        invariant
            i <= len,
            len == cs@.len(),
            cs@ == target@,
            colons == count_char(cs@.take(i as int), ':'),
            colons <= i,
            colons >= 1 ==> at < i && cs@[at as int] == ':',
            colons == 1 ==> forall|j: int| 0 <= j < i && j != at ==> cs@[j] != ':',
            colons == 0 ==> forall|j: int| 0 <= j < i ==> cs@[j] != ':',
        decreases len - i,
    {
        proof {
            lemma_count_prefix_push(cs@, i as int, ':');
        }
        if cs[i] == ':' {
            if colons == 0 {
                at = i;
            }
            colons = colons + 1;
        }
        i = i + 1;
    }
    assert(cs@.take(len as int) =~= cs@);
    if colons != 1 {
        return Err(ValidationError::TcpFormat);
    }
    let ghost t = target@;
    proof {
        let k = choose|k: int| 0 <= k < t.len() && t[k] == ':';
        assert(t[at as int] == ':');
        assert(k == at);
    }
    let host = target.substring_char(0, at);
    let port_chars = cs.as_slice();
    let mut tail: Vec<char> = Vec::new();
    let mut j: usize = at + 1;
    while j < len
        invariant
            at < len,
            at + 1 <= j <= len,
            len == cs@.len(),
            port_chars@ == cs@,
            tail@ =~= cs@.subrange(at + 1, j as int),
        decreases len - j,
    {
        tail.push(port_chars[j]);
        j = j + 1;
    }
    let port = match parse_port(tail.as_slice()) {
        None => return Err(ValidationError::InvalidPortNumber),
        Some(p) => p,
    };
    if is_private_or_local(host) {
        return Err(ValidationError::PrivateAddress);
    }
    validate_port(port)?;
    validate_port_allowlist(port)?;
    Ok(())
}

/// Validate an ICMP target: a host name or IP address that is not private or local.
pub fn validate_icmp_target(target: &str) -> (r: Result<(), ValidationError>)
    ensures
        host_private_or_local(target@) ==> r == Err::<(), ValidationError>(ValidationError::PrivateAddress),
        !host_private_or_local(target@) ==> r == Ok::<(), ValidationError>(()),
{
    if is_private_or_local(target) {
        return Err(ValidationError::PrivateAddress);
    }
    Ok(())
}

/// The outcome of validating the parts of a parsed HTTP(S) URL: the scheme must be http or
/// https, the host (if any) must not be private or local, and an explicit port must not be 0.
pub open spec fn http_parts_result(scheme: Seq<char>, host: Option<Seq<char>>, port: Option<u16>) -> Result<
    (),
    ValidationError,
> {
    if !(scheme == "http"@ || scheme == "https"@) {
        Err(ValidationError::InvalidScheme)
    } else if host matches Some(h) && host_private_or_local(h) {
        Err(ValidationError::PrivateAddress)
    } else if port == Some(0u16) {
        Err(ValidationError::PortZero)
    } else {
        Ok(())
    }
}

/// The outcome of validating an HTTP(S) target URL.
pub open spec fn http_target_result(t: Seq<char>) -> Result<(), ValidationError> {
    if !url_parses(t) {
        Err(ValidationError::InvalidUrl)
    } else {
        http_parts_result(url_scheme(t), url_host(t), url_port(t))
    }
}

/// Validates the parts of a parsed HTTP(S) URL, as `http_parts_result` describes.
pub fn validate_http_url(url: &UrlParts) -> (r: Result<(), ValidationError>)
    ensures
        r == http_parts_result(url.scheme@, opt_str(url.host), url.port),
{
    let scheme = url.scheme.as_str();
    if !(str_equal(scheme, "http") || str_equal(scheme, "https")) {
        return Err(ValidationError::InvalidScheme);
    }
    if let Some(host) = &url.host {
        if is_private_or_local(host.as_str()) {
            return Err(ValidationError::PrivateAddress);
        }
    }
    if let Some(port) = url.port {
        validate_port(port)?;
    }
    Ok(())
}

/// Validate an HTTP/HTTPS target: a URL with scheme http or https whose host is not
/// private or local and whose explicit port, if any, is not 0.
pub fn validate_http_target(target: &str) -> (r: Result<(), ValidationError>)
    ensures
        r == http_target_result(target@),
{
    let url = match parse_url(target) {
        Some(u) => u,
        None => return Err(ValidationError::InvalidUrl),
    };
    validate_http_url(&url)
}

/// What validating a target of the given check type gives.
pub open spec fn monitor_target_result(target: Seq<char>, check_type: Seq<char>) -> Result<
    (),
    ValidationError,
> {
    if check_type == "http"@ || check_type == "https"@ {
        http_target_result(target)
    } else if check_type == "tcp"@ {
        tcp_target_result(target)
    } else if check_type == "icmp"@ {
        if host_private_or_local(target) {
            Err(ValidationError::PrivateAddress)
        } else {
            Ok(())
        }
    } else {
        Err(ValidationError::UnsupportedCheckType)
    }
}

/// Validates a monitor target based on its type ("http", "https", "tcp" or "icmp").
pub fn validate_monitor_target(target: &str, check_type: &str) -> (r: Result<(), ValidationError>)
    ensures
        r == monitor_target_result(target@, check_type@),
{
    if str_equal(check_type, "http") || str_equal(check_type, "https") {
        validate_http_target(target)
    } else if str_equal(check_type, "tcp") {
        validate_tcp_target(target)
    } else if str_equal(check_type, "icmp") {
        validate_icmp_target(target)
    } else {
        Err(ValidationError::UnsupportedCheckType)
    }
}

/// Targets are validated by their check type: an http or https target as a URL, a tcp
/// target as `host:port` (so never refused for its URL form or scheme), an icmp target as a
/// host.
pub proof fn lemma_targets_validated_by_type(t: Seq<char>)
    ensures
        monitor_target_result(t, "http"@) == http_target_result(t),
        monitor_target_result(t, "https"@) == http_target_result(t),
        monitor_target_result(t, "tcp"@) == tcp_target_result(t),
        monitor_target_result(t, "tcp"@) != Err::<(), ValidationError>(ValidationError::InvalidUrl),
        monitor_target_result(t, "tcp"@) != Err::<(), ValidationError>(ValidationError::InvalidScheme),
        monitor_target_result(t, "icmp"@) == (if host_private_or_local(t) {
            Err::<(), ValidationError>(ValidationError::PrivateAddress)
        } else {
            Ok(())
        }),
{
    reveal_strlit("http");
    reveal_strlit("https");
    reveal_strlit("tcp");
    reveal_strlit("icmp");
    assert("tcp"@.len() == 3 && "http"@.len() == 4 && "https"@.len() == 5 && "icmp"@.len() == 4);
    assert("icmp"@[0] != "http"@[0]);
}

} // verus!
