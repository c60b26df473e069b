//! Coarse, privacy-preserving location of this node.
use vstd::prelude::*;
use crate::config::LocationPrivacy;
use crate::text::{concat_str, str_equal};

verus! {

/// Geographic location information (general, privacy-preserving).
#[derive(Debug)]
pub struct Location {
    /// City name (e.g., "New York", "London")
    pub city: Option<String>,
    /// ISO 3166-1 alpha-2 country code (e.g., "US", "GB", "JP")
    pub country: Option<String>,
    /// General region/continent (e.g., "North America", "Europe", "Asia")
    pub region: Option<String>,
}

/// A copy of an optional string.
pub fn copy_opt(o: &Option<String>) -> (r: Option<String>)
    ensures
        r == *o,
{
    match o {
        Some(s) => Some(s.clone()),
        None => None,
    }
}

/// The text shown for a location: "city, country", either one alone, or else the region,
/// or else "Unknown".
pub open spec fn display_text(l: Location) -> Seq<char> {
    match (l.city, l.country) {
        (Some(c), Some(k)) => c@ + ", "@ + k@,
        (Some(c), None) => c@,
        (None, Some(k)) => k@,
        (None, None) => match l.region {
            Some(r) => r@,
            None => "Unknown"@,
        },
    }
}

/// The region of a country code.
pub open spec fn region_of(code: Seq<char>) -> Seq<char> {
    if code == "US"@ || code == "CA"@ || code == "MX"@ {
        "North America"@
    } else if code == "GB"@ || code == "FR"@ || code == "DE"@ || code == "IT"@ || code == "ES"@
        || code == "NL"@ || code == "BE"@ || code == "CH"@ || code == "AT"@ || code == "SE"@
        || code == "NO"@ || code == "DK"@ || code == "FI"@ || code == "PL"@ || code == "CZ"@
        || code == "PT"@ || code == "GR"@ || code == "IE"@ || code == "HU"@ || code == "RO"@
        || code == "UA"@ {
        "Europe"@
    } else if code == "CN"@ || code == "JP"@ || code == "KR"@ || code == "IN"@ || code == "SG"@
        || code == "HK"@ || code == "TW"@ || code == "TH"@ || code == "MY"@ || code == "ID"@
        || code == "PH"@ || code == "VN"@ {
        "Asia"@
    } else if code == "BR"@ || code == "AR"@ || code == "CL"@ || code == "CO"@ || code == "PE"@
        || code == "VE"@ || code == "EC"@ || code == "UY"@ {
        "South America"@
    } else if code == "AU"@ || code == "NZ"@ {
        "Oceania"@
    } else if code == "AE"@ || code == "SA"@ || code == "IL"@ || code == "TR"@ || code == "IR"@
        || code == "IQ"@ || code == "JO"@ || code == "KW"@ || code == "QA"@ || code == "BH"@
        || code == "OM"@ {
        "Middle East"@
    } else if code == "ZA"@ || code == "EG"@ || code == "NG"@ || code == "KE"@ || code == "MA"@
        || code == "GH"@ || code == "ET"@ || code == "TZ"@ || code == "UG"@ {
        "Africa"@
    } else {
        "Other"@
    }
}

impl Location {
    /// A location from its parts.
    pub fn new(city: Option<String>, country: Option<String>, region: Option<String>) -> (r: Location)
        ensures
            r.city == city,
            r.country == country,
            r.region == region,
    {
        Location { city, country, region }
    }

    /// Create unknown/unconfigured location: no city or country, region "Unknown".
    pub fn unknown() -> (r: Location)
        ensures
            r.city is None,
            r.country is None,
            r.region matches Some(s) && s@ == "Unknown"@,
    {
        Location { city: None, country: None, region: Some(String::from_str("Unknown")) }
    }

    /// A copy of this location.
    pub fn duplicate(&self) -> (r: Location)
        ensures
            r == *self,
    {
        Location { city: copy_opt(&self.city), country: copy_opt(&self.country), region: copy_opt(&self.region) }
    }

    /// Apply privacy level to location, removing sensitive data: disabled gives the unknown
    /// location, country-only keeps the country alone (no city or region details), full keeps all.
    pub fn apply_privacy(&self, privacy: LocationPrivacy) -> (r: Location)
        ensures
            privacy == LocationPrivacy::Disabled ==> r.city is None && r.country is None
                && (r.region matches Some(s) && s@ == "Unknown"@),
            privacy == LocationPrivacy::CountryOnly ==> r.city is None && r.country == self.country
                && r.region is None,
            privacy == LocationPrivacy::Full ==> r == *self,
    {
        match privacy {
            LocationPrivacy::Disabled => Location::unknown(),
            LocationPrivacy::CountryOnly => Location::new(None, copy_opt(&self.country), None),
            LocationPrivacy::Full => self.duplicate(),
        }
    }

    /// Format location for display.
    pub fn display(&self) -> (r: String)
        ensures
            r@ == display_text(*self),
    {
        match (&self.city, &self.country) {
            (Some(c), Some(k)) => {
                let first = concat_str(c.as_str(), ", ");
                concat_str(first.as_str(), k.as_str())
            },
            (Some(c), None) => c.clone(),
            (None, Some(k)) => k.clone(),
            (None, None) => match &self.region {
                Some(r) => r.clone(),
                None => String::from_str("Unknown"),
            },
        }
    }

    /// Get region from country code (simplified mapping).
    pub fn region_from_country(country_code: &str) -> (r: &'static str)
        ensures
            r@ == region_of(country_code@),
    {
        let c = country_code;
        if str_equal(c, "US") || str_equal(c, "CA") || str_equal(c, "MX") {
            "North America"
        } else if str_equal(c, "GB") || str_equal(c, "FR") || str_equal(c, "DE") || str_equal(c, "IT") || str_equal(c, "ES") || str_equal(c, "NL") || str_equal(c, "BE") || str_equal(c, "CH") || str_equal(c, "AT") || str_equal(c, "SE") || str_equal(c, "NO") || str_equal(c, "DK") || str_equal(c, "FI") || str_equal(c, "PL") || str_equal(c, "CZ") || str_equal(c, "PT") || str_equal(c, "GR") || str_equal(c, "IE") || str_equal(c, "HU") || str_equal(c, "RO") || str_equal(c, "UA") {
            "Europe"
        } else if str_equal(c, "CN") || str_equal(c, "JP") || str_equal(c, "KR") || str_equal(c, "IN") || str_equal(c, "SG") || str_equal(c, "HK") || str_equal(c, "TW") || str_equal(c, "TH") || str_equal(c, "MY") || str_equal(c, "ID") || str_equal(c, "PH") || str_equal(c, "VN") {
            "Asia"
        } else if str_equal(c, "BR") || str_equal(c, "AR") || str_equal(c, "CL") || str_equal(c, "CO") || str_equal(c, "PE") || str_equal(c, "VE") || str_equal(c, "EC") || str_equal(c, "UY") {
            "South America"
        } else if str_equal(c, "AU") || str_equal(c, "NZ") {
            "Oceania"
        } else if str_equal(c, "AE") || str_equal(c, "SA") || str_equal(c, "IL") || str_equal(c, "TR") || str_equal(c, "IR") || str_equal(c, "IQ") || str_equal(c, "JO") || str_equal(c, "KW") || str_equal(c, "QA") || str_equal(c, "BH") || str_equal(c, "OM") {
            "Middle East"
        } else if str_equal(c, "ZA") || str_equal(c, "EG") || str_equal(c, "NG") || str_equal(c, "KE") || str_equal(c, "MA") || str_equal(c, "GH") || str_equal(c, "ET") || str_equal(c, "TZ") || str_equal(c, "UG") {
            "Africa"
        } else {
            "Other"
        }
    }
}

/// The cached location of this node, with the privacy level that filters fetched
/// locations and the refresh schedule (times in whole seconds of a monotonic clock).
#[derive(Debug)]
pub struct LocationCache {
    pub location: Location,
    pub privacy_level: LocationPrivacy,
    /// When the location was last set; `None` until it first is, which makes a refresh due.
    pub last_update: Option<u64>,
    /// Seconds between refreshes; 0 turns refreshing off.
    pub update_interval: u64,
}

/// Whether `c` is `Location::unknown()`.
pub open spec fn is_unknown(l: Location) -> bool {
    l.city is None && l.country is None && (l.region matches Some(s) && s@ == "Unknown"@)
}

/// A cache holding the unknown location, not yet updated.
pub open spec fn fresh_cache(c: LocationCache, update_interval_secs: u64, privacy_level: LocationPrivacy) -> bool {
    &&& is_unknown(c.location)
    &&& c.privacy_level == privacy_level
    &&& c.last_update is None
    &&& c.update_interval == update_interval_secs
}

/// Whether a refresh of the location is due at `now`: refreshing is on, and the interval has
/// passed since the last update (or there was none).
pub open spec fn update_due(c: LocationCache, now: u64) -> bool {
    c.update_interval > 0 && match c.last_update {
        None => true,
        Some(t) => (if now >= t { now - t } else { 0 }) >= c.update_interval,
    }
}

/// Initialize the location cache with an update interval (in seconds) and a privacy level.
/// The first initialization wins: a slot that already holds a cache is left unchanged.
pub fn init_location_cache(slot: &mut Option<LocationCache>, update_interval_secs: u64, privacy_level: LocationPrivacy)
    ensures
        *old(slot) is Some ==> *final(slot) == *old(slot),
        *old(slot) is None ==> (*final(slot) matches Some(c) && fresh_cache(c, update_interval_secs, privacy_level)),
{
    if slot.is_none() {
        *slot = Some(LocationCache {
            location: Location::unknown(),
            privacy_level,
            last_update: None,
            update_interval: update_interval_secs,
        });
    }
}

/// Initialize the location from static configuration: the cache is initialized with
/// refreshing off and full detail (unless it already was), then holds `location`, updated
/// at `now`.
pub fn init_location(slot: &mut Option<LocationCache>, location: Location, now: u64)
    ensures
        *final(slot) matches Some(c) && c.location == location && c.last_update == Some(now)
            && (*old(slot) matches Some(o) ==> c.privacy_level == o.privacy_level
                && c.update_interval == o.update_interval)
            && (*old(slot) is None ==> c.privacy_level == LocationPrivacy::Full && c.update_interval == 0),
{
    init_location_cache(slot, 0, LocationPrivacy::Full);
    match slot {
        Some(c) => {
            c.location = location;
            c.last_update = Some(now);
        },
        None => {},
    }
}

/// Get the configured location. A slot that holds no cache yet is given one with the
/// unknown location, full detail, refreshing off, updated at `now`.
pub fn get_location(slot: &mut Option<LocationCache>, now: u64) -> (r: Location)
    ensures
        *old(slot) matches Some(c) ==> r == c.location && *final(slot) == *old(slot),
        *old(slot) is None ==> is_unknown(r) && (*final(slot) matches Some(c) && c.location == r
            && c.privacy_level == LocationPrivacy::Full && c.last_update == Some(now)
            && c.update_interval == 0),
{
    if slot.is_none() {
        *slot = Some(LocationCache {
            location: Location::unknown(),
            privacy_level: LocationPrivacy::Full,
            last_update: Some(now),
            update_interval: 0,
        });
    }
    match slot {
        Some(c) => c.location.duplicate(),
        None => Location::unknown(),
    }
}

/// Check if the location needs an update: true when a cache is initialized and a refresh is
/// due at `now` (the caller then fetches it).
pub fn check_and_update_location(slot: &Option<LocationCache>, now: u64) -> (r: bool)
    ensures
        r == (*slot matches Some(c) && update_due(c, now)),
{
    match slot {
        Some(c) => {
            if c.update_interval == 0 {
                return false;
            }
            match c.last_update {
                None => true,
                Some(t) => {
                    let elapsed = if now >= t { now - t } else { 0 };
                    elapsed >= c.update_interval
                },
            }
        },
        None => false,
    }
}

/// Stores a freshly fetched location, filtered by the cache's privacy level, updated at `now`.
pub fn record_fetched_location(slot: &mut Option<LocationCache>, fetched: &Location, now: u64)
    ensures
        *old(slot) is None ==> *final(slot) is None,
        *old(slot) matches Some(o) ==> (*final(slot) matches Some(c)
            && c.privacy_level == o.privacy_level && c.update_interval == o.update_interval
            && c.last_update == Some(now)
            && (o.privacy_level == LocationPrivacy::Disabled ==> is_unknown(c.location))
            && (o.privacy_level == LocationPrivacy::CountryOnly ==> c.location.city is None
                && c.location.country == fetched.country && c.location.region is None)
            && (o.privacy_level == LocationPrivacy::Full ==> c.location == *fetched)),
{
    match slot {
        Some(c) => {
            c.location = fetched.apply_privacy(c.privacy_level);
            c.last_update = Some(now);
        },
        None => {},
    }
}

/// The location that a geolocation reply gives: unknown unless its status is "success";
/// otherwise the city and country code where they are not empty, and the country's region.
pub open spec fn lookup_location(status: Seq<char>, city: Seq<char>, country_code: Seq<char>, l: Location) -> bool {
    if status != "success"@ {
        is_unknown(l)
    } else {
        &&& (if city.len() == 0 { l.city is None } else { l.city matches Some(c) && c@ == city })
        &&& (if country_code.len() == 0 {
            l.country is None && l.region is None
        } else {
            (l.country matches Some(k) && k@ == country_code)
                && (l.region matches Some(g) && g@ == region_of(country_code))
        })
    }
}

/// Builds the location from the fields of a geolocation reply.
pub fn location_from_lookup(status: &str, city: &str, country_code: &str) -> (r: Location)
    ensures
        lookup_location(status@, city@, country_code@, r),
{
    if !str_equal(status, "success") {
        return Location::unknown();
    }
    let c = if !city.is_empty() { Some(city.to_owned()) } else { None };
    if !country_code.is_empty() {
        let region = Location::region_from_country(country_code);
        Location::new(c, Some(country_code.to_owned()), Some(region.to_owned()))
    } else {
        Location::new(c, None, None)
    }
}

} // verus!
