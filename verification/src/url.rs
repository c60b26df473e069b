//! The parts of a URL that monitor validation reads, as the `url` crate parses them.
use vstd::prelude::*;

verus! {

/// The parts of the URL that `url::Url::parse` makes of a text, or `None` when it refuses
/// the text: what `scheme()`, `host_str()`, `port()` (the explicit port, `None` when absent
/// or the scheme's default) and `username()` return, whether `password()` and `fragment()`
/// are present, and what `port_or_known_default()` returns.
pub uninterp spec fn url_parsed(input: Seq<char>) -> Option<
    (Seq<char>, Option<Seq<char>>, Option<u16>, Seq<char>, bool, bool, Option<u16>),
>;

/// Whether `url::Url::parse` accepts the text.
pub open spec fn url_parses(input: Seq<char>) -> bool {
    url_parsed(input) is Some
}

/// The scheme of the URL parsed from the text.
pub open spec fn url_scheme(input: Seq<char>) -> Seq<char> {
    match url_parsed(input) {
        Some(p) => p.0,
        None => seq![],
    }
}

/// The host of the URL parsed from the text.
pub open spec fn url_host(input: Seq<char>) -> Option<Seq<char>> {
    match url_parsed(input) {
        Some(p) => p.1,
        None => None,
    }
}

/// The explicit port of the URL parsed from the text.
pub open spec fn url_port(input: Seq<char>) -> Option<u16> {
    match url_parsed(input) {
        Some(p) => p.2,
        None => None,
    }
}

/// The user name of the URL parsed from the text.
pub open spec fn url_username(input: Seq<char>) -> Seq<char> {
    match url_parsed(input) {
        Some(p) => p.3,
        None => seq![],
    }
}

/// Whether the URL parsed from the text carries a password.
pub open spec fn url_has_password(input: Seq<char>) -> bool {
    match url_parsed(input) {
        Some(p) => p.4,
        None => false,
    }
}

/// Whether the URL parsed from the text carries a fragment.
pub open spec fn url_has_fragment(input: Seq<char>) -> bool {
    match url_parsed(input) {
        Some(p) => p.5,
        None => false,
    }
}

/// The explicit port of the URL parsed from the text, or its scheme's well-known port.
pub open spec fn url_known_port(input: Seq<char>) -> Option<u16> {
    match url_parsed(input) {
        Some(p) => p.6,
        None => None,
    }
}

/// The view of an optional string.
pub open spec fn opt_str(o: Option<String>) -> Option<Seq<char>> {
    match o {
        Some(s) => Some(s@),
        None => None,
    }
}

/// The parts of a parsed URL that the logic reads.
pub struct UrlParts {
    pub scheme: String,
    pub host: Option<String>,
    pub port: Option<u16>,
    pub username: String,
    pub has_password: bool,
    pub has_fragment: bool,
    pub known_port: Option<u16>,
}

/// Parses `input` with `url::Url::parse` and reads `scheme()`, `host_str()`, `port()`,
/// `username()`, whether `password()` and `fragment()` are present, and
/// `port_or_known_default()`. The contract ties the parts to the input by name only; the
/// WHATWG parsing rules that decide them are not restated.
#[verifier::external_body]
pub(crate) fn parse_url(input: &str) -> (r: Option<UrlParts>)
    ensures
        match r {
            Some(u) => url_parsed(input@) == Some(
                (u.scheme@, opt_str(u.host), u.port, u.username@, u.has_password, u.has_fragment, u.known_port),
            ),
            None => url_parsed(input@) is None,
        },
{
    match url::Url::parse(input) {
        Ok(u) => Some(
            UrlParts {
                scheme: u.scheme().to_string(),
                host: u.host_str().map(|h| h.to_string()),
                port: u.port(),
                username: u.username().to_string(),
                has_password: u.password().is_some(),
                has_fragment: u.fragment().is_some(),
                known_port: u.port_or_known_default(),
            },
        ),
        Err(_) => None,
    }
}

} // verus!
