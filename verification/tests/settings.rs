use modemdeck::settings::{config_home, settings_path, Settings};

#[test]
fn default_settings() {
    let s = Settings::default();
    assert!(!s.background_monitor);
    assert!(s.notifications);
    assert_eq!(s.signal_refresh_seconds, 10);
    assert_eq!(s.traffic_refresh_seconds, 2);
    assert_eq!(s.language, "system");
    assert!(!s.restore_profile_on_startup);
    assert!(!s.check_updates_on_startup);
}

#[test]
fn refresh_intervals_are_clamped() {
    let mut s = Settings::default();
    for (v, expected) in [(0, 5), (5, 5), (30, 30), (60, 60), (3600, 60)] {
        s.signal_refresh_seconds = v;
        assert_eq!(s.normalized_refresh_seconds(), expected);
    }
    for (v, expected) in [(0, 1), (1, 1), (7, 7), (30, 30), (31, 30)] {
        s.traffic_refresh_seconds = v;
        assert_eq!(s.normalized_traffic_refresh_seconds(), expected);
    }
}

#[test]
fn configuration_directory() {
    assert_eq!(config_home(Some("/x/cfg"), Some("/home/u")), "/x/cfg");
    assert_eq!(config_home(None, Some("/home/u")), "/home/u/.config");
    assert_eq!(config_home(None, Some("/home/u/")), "/home/u/.config");
    assert_eq!(config_home(None, None), ".config");
    assert_eq!(settings_path("/home/u/.config"), "/home/u/.config/modemdeck/settings.json");
    assert_eq!(settings_path(".config"), ".config/modemdeck/settings.json");
}
