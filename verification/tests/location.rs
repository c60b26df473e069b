use uppe::config::LocationPrivacy;
use uppe::location::{
    check_and_update_location, get_location, init_location, init_location_cache, location_from_lookup,
    record_fetched_location, Location, LocationCache,
};

#[test]
fn test_location_display() {
    let loc = Location::new(
        Some("New York".to_string()),
        Some("US".to_string()),
        Some("North America".to_string()),
    );
    assert_eq!(loc.display(), "New York, US");
}

#[test]
fn test_unknown_location() {
    let loc = Location::unknown();
    assert_eq!(loc.display(), "Unknown");
}

#[test]
fn test_region_mapping() {
    assert_eq!(Location::region_from_country("US"), "North America");
    assert_eq!(Location::region_from_country("GB"), "Europe");
    assert_eq!(Location::region_from_country("JP"), "Asia");
    assert_eq!(Location::region_from_country("AU"), "Oceania");
    assert_eq!(Location::region_from_country("ZZ"), "Other");
}

#[test]
fn display_falls_back_to_country_region_or_unknown() {
    assert_eq!(Location::new(Some("Paris".into()), None, None).display(), "Paris");
    assert_eq!(Location::new(None, Some("FR".into()), Some("Europe".into())).display(), "FR");
    assert_eq!(Location::new(None, None, Some("Europe".into())).display(), "Europe");
    assert_eq!(Location::new(None, None, None).display(), "Unknown");
}

#[test]
fn region_mapping_covers_every_continent() {
    assert_eq!(Location::region_from_country("BR"), "South America");
    assert_eq!(Location::region_from_country("AE"), "Middle East");
    assert_eq!(Location::region_from_country("KE"), "Africa");
    assert_eq!(Location::region_from_country("us"), "Other");
}

#[test]
fn privacy_levels_remove_detail() {
    let loc = Location::new(Some("Berlin".into()), Some("DE".into()), Some("Europe".into()));
    let country_only = loc.apply_privacy(LocationPrivacy::CountryOnly);
    assert_eq!(country_only.city, None);
    assert_eq!(country_only.country.as_deref(), Some("DE"));
    assert_eq!(country_only.region, None);
    let disabled = loc.apply_privacy(LocationPrivacy::Disabled);
    assert_eq!(disabled.display(), "Unknown");
    assert_eq!(disabled.country, None);
    let full = loc.apply_privacy(LocationPrivacy::Full);
    assert_eq!(full.display(), "Berlin, DE");
}

#[test]
fn cache_initialises_once_and_refreshes_on_schedule() {
    let mut slot: Option<LocationCache> = None;
    init_location_cache(&mut slot, 300, LocationPrivacy::CountryOnly);
    assert!(check_and_update_location(&slot, 1_000));
    init_location_cache(&mut slot, 60, LocationPrivacy::Full);
    assert_eq!(slot.as_ref().unwrap().update_interval, 300);
    let fetched = Location::new(Some("Lyon".into()), Some("FR".into()), Some("Europe".into()));
    record_fetched_location(&mut slot, &fetched, 1_000);
    let stored = get_location(&mut slot, 1_100);
    assert_eq!(stored.city, None);
    assert_eq!(stored.country.as_deref(), Some("FR"));
    assert!(!check_and_update_location(&slot, 1_299));
    assert!(check_and_update_location(&slot, 1_300));
}

#[test]
fn static_location_never_refreshes() {
    let mut slot: Option<LocationCache> = None;
    init_location(&mut slot, Location::new(Some("Oslo".into()), Some("NO".into()), None), 10);
    assert!(!check_and_update_location(&slot, 1_000_000));
    assert_eq!(get_location(&mut slot, 20).display(), "Oslo, NO");
    let mut empty: Option<LocationCache> = None;
    assert_eq!(get_location(&mut empty, 5).display(), "Unknown");
    assert!(!check_and_update_location(&empty, 1_000));
}

#[test]
fn lookup_replies_become_locations() {
    let ok = location_from_lookup("success", "Tokyo", "JP");
    assert_eq!(ok.display(), "Tokyo, JP");
    assert_eq!(ok.region.as_deref(), Some("Asia"));
    let no_city = location_from_lookup("success", "", "AU");
    assert_eq!(no_city.city, None);
    assert_eq!(no_city.region.as_deref(), Some("Oceania"));
    let nothing = location_from_lookup("success", "", "");
    assert_eq!(nothing.region, None);
    let failed = location_from_lookup("fail", "Tokyo", "JP");
    assert_eq!(failed.display(), "Unknown");
}
