use uppe::config::{default_location_update_interval, normalize_toml_path, Config, LocationPrivacy};

#[test]
fn default_config_is_documented_one() {
    let c = Config::default_config();
    assert_eq!(c.zeromq.bind, "*");
    assert_eq!(c.zeromq.port, 5555);
    assert!(!c.preferences.use_peerup_layer);
    assert_eq!(c.preferences.timeout_seconds, Some(10));
    assert_eq!(c.preferences.degraded_threshold_ms, Some(1000));
    assert_eq!(c.preferences.location_privacy, LocationPrivacy::Disabled);
    assert_eq!(LocationPrivacy::default_level(), LocationPrivacy::Disabled);
    assert_eq!(default_location_update_interval(), 300);
}

#[test]
fn description_lists_the_endpoint() {
    let c = Config::default_config();
    assert_eq!(
        c.describe(),
        "Current Internal Configuration State:\n  ZeroMQ\n    Bind Address: *\n    Port: 5555\n"
    );
}

#[test]
fn config_paths_always_name_a_toml_file() {

    assert_eq!(normalize_toml_path("dir/config.toml"), "dir/config.toml");
    assert_eq!(normalize_toml_path("dir/config"), "dir/config.toml");
    assert_eq!(normalize_toml_path("dir/config.json"), "dir/config.toml");
}

#[test]
fn defaults_keep_the_node_private() {
    let c = Config::default();
    assert!(!c.preferences.use_peerup_layer);
    assert_eq!(c.preferences.location_privacy, LocationPrivacy::Disabled);
    assert_eq!(LocationPrivacy::default(), LocationPrivacy::Disabled);
}
