//! Service configuration: preferences, the messaging endpoint and location privacy.
use vstd::prelude::*;
use crate::text::str_equal;

verus! {

/// Why loading or storing the configuration failed.
#[derive(Debug, Clone, Copy, PartialEq, Eq, Structural)]
pub enum Error {
    ReadFailed,
    WriteFailed,
    ParseFailed,
    ConfigPathUnavailable,
}

/// Location privacy setting.
#[derive(Debug, Clone, Copy, PartialEq, Eq, Structural)]
pub enum LocationPrivacy {
    /// Disable location tracking completely
    Disabled,
    /// Only track country (no city or region details)
    CountryOnly,
    /// Full location details (city, country, region)
    Full,
}

impl LocationPrivacy {
    /// The default privacy level: location sharing is disabled unless configured.
    pub fn default_level() -> (r: LocationPrivacy)
        ensures
            r == LocationPrivacy::Disabled,
    {
        LocationPrivacy::Disabled
    }
}

impl Default for LocationPrivacy {
    /// Location sharing is disabled unless configured.
    fn default() -> (r: LocationPrivacy)
        ensures
            r == LocationPrivacy::Disabled,
    {
        LocationPrivacy::default_level()
    }
}

/// Messaging endpoint.
#[derive(Debug)]
pub struct ZeroMQ {
    pub bind: String,
    pub port: u16,
}

/// Operator preferences.
#[derive(Debug)]
pub struct Preferences {
    pub use_peerup_layer: bool,
    pub allow_peer_leech: bool,
    pub minimum_peer_mr: isize,
    pub timeout_seconds: Option<u64>,
    pub degraded_threshold_ms: Option<u64>,
    /// How often to update location from IP (in seconds). 0 = disabled, 300 = 5 minutes
    pub location_update_interval_secs: u64,
    /// Location privacy level
    pub location_privacy: LocationPrivacy,
}

/// Service configuration.
#[derive(Debug)]
pub struct Config {
    pub zeromq: ZeroMQ,
    pub preferences: Preferences,
}

/// The default location update interval: 5 minutes.
pub fn default_location_update_interval() -> (r: u64)
    ensures
        r == 300,
{
    300
}

impl Config {
    /// The default configuration: bind "*" on port 5555, peer layer off (network
    /// participation is an explicit choice), no leeching, 10 s timeouts, 1000 ms degraded
    /// threshold, location refresh every 5 minutes but location sharing disabled.
    pub fn default_config() -> (r: Config)
        ensures
            r.zeromq.bind@ == "*"@,
            r.zeromq.port == 5555,
            !r.preferences.use_peerup_layer,
            !r.preferences.allow_peer_leech,
            r.preferences.minimum_peer_mr == 0,
            r.preferences.timeout_seconds == Some(10u64),
            r.preferences.degraded_threshold_ms == Some(1000u64),
            r.preferences.location_update_interval_secs == 300,
            r.preferences.location_privacy == LocationPrivacy::Disabled,
    {
        Config {
            zeromq: ZeroMQ { bind: String::from_str("*"), port: 5555 },
            preferences: Preferences {
                use_peerup_layer: false,
                allow_peer_leech: false,
                minimum_peer_mr: 0,
                timeout_seconds: Some(10),
                degraded_threshold_ms: Some(1000),
                location_update_interval_secs: 300,
                location_privacy: LocationPrivacy::Disabled,
            },
        }
    }
}

/// The text that describes a configuration: its title, then the messaging endpoint's bind
/// address and port, indented.
pub open spec fn describe_text(c: Config) -> Seq<char> {
    "Current Internal Configuration State:\n"@ + "  ZeroMQ\n"@ + "    Bind Address: "@ + c.zeromq.bind@ + "\n"@
        + "    Port: "@ + crate::json::decimal(c.zeromq.port as nat) + "\n"@
}

impl Config {
    /// Describes the configuration for display.
    pub fn describe(&self) -> (r: String)
        ensures
            r@ == describe_text(*self),
    {
        let mut s = String::new();
        crate::json::push_str(&mut s, "Current Internal Configuration State:\n");
        crate::json::push_str(&mut s, "  ZeroMQ\n");
        crate::json::push_str(&mut s, "    Bind Address: ");
        crate::json::push_str(&mut s, self.zeromq.bind.as_str());
        crate::json::push_str(&mut s, "\n");
        crate::json::push_str(&mut s, "    Port: ");
        crate::json::push_decimal(&mut s, self.zeromq.port as u64);
        crate::json::push_str(&mut s, "\n");
        assert(s@ =~= describe_text(*self));
        s
    }
}

/// The file-name extension of a path, as std's `Path::extension` gives it.
pub uninterp spec fn std_path_extension(path: Seq<char>) -> Option<Seq<char>>;

/// The path with its extension replaced, as std's `Path::with_extension` gives it.
pub uninterp spec fn std_path_with_extension(path: Seq<char>, extension: Seq<char>) -> Seq<char>;

/// Reads a path's extension with std's `Path::extension`.
#[verifier::external_body]
fn path_extension(path: &str) -> (r: Option<String>)
    ensures
        r matches Some(e) ==> std_path_extension(path@) == Some(e@),
        r is None ==> std_path_extension(path@) is None,
{
    std::path::Path::new(path).extension().map(|e| e.to_string_lossy().into_owned())
}

/// Replaces a path's extension with std's `Path::with_extension`.
#[verifier::external_body]
fn path_with_extension(path: &str, extension: &str) -> (r: String)
    ensures
        r@ == std_path_with_extension(path@, extension@),
{
    std::path::Path::new(path).with_extension(extension).to_string_lossy().into_owned()
}

/// A path that is sure to name a `.toml` file: the path itself when its extension is
/// already "toml", otherwise the path with its extension set to "toml".
pub open spec fn toml_path(path: Seq<char>) -> Seq<char> {
    if std_path_extension(path) == Some("toml"@) {
        path
    } else {
        std_path_with_extension(path, "toml"@)
    }
}

/// Used to ensure we are actually reading a toml file.
pub fn normalize_toml_path(path: &str) -> (r: String)
    ensures
        r@ == toml_path(path@),
{
    match path_extension(path) {
        Some(ext) => {
            if str_equal(ext.as_str(), "toml") {
                return path.to_owned();
            }
        },
        None => {},
    }
    path_with_extension(path, "toml")
}

impl Default for Config {
    /// The default configuration, as `Config::default_config` describes it.
    fn default() -> (r: Config)
        ensures
            r.zeromq.bind@ == "*"@,
            r.zeromq.port == 5555,
            !r.preferences.use_peerup_layer,
            !r.preferences.allow_peer_leech,
            r.preferences.minimum_peer_mr == 0,
            r.preferences.timeout_seconds == Some(10u64),
            r.preferences.degraded_threshold_ms == Some(1000u64),
            r.preferences.location_update_interval_secs == 300,
            r.preferences.location_privacy == LocationPrivacy::Disabled,
    {
        Config::default_config()
    }
}

} // verus!
