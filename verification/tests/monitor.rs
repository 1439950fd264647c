use modemdeck::monitor::{bands_to_restore, guard_seconds, guard_still_ours, notifications, notifications_for};
use modemdeck::profiles::{upsert, ProfileStore};
use modemdeck::runtime_status::RuntimeStatus;
use modemdeck::settings::Settings;

fn status(state: &str, network: &str, ca: bool) -> RuntimeStatus {
    RuntimeStatus {
        modem_name: "Dell DW5821e".into(),
        operator: "MCI".into(),
        state: state.into(),
        network: network.into(),
        signal_percent: 50,
        band: "B3".into(),
        carrier_aggregation: ca,
        updated_unix: 0,
    }
}

fn pairs(prev: &RuntimeStatus, cur: &RuntimeStatus) -> Vec<(String, String)> {
    notifications(prev, cur).into_iter().map(|n| (n.title, n.body)).collect()
}

#[test]
fn no_change_no_notification() {
    let s = status("Connected", "4G", false);
    assert!(pairs(&s, &s).is_empty());
}

#[test]
fn network_change_is_notified() {
    let p = pairs(&status("Registered", "3G", false), &status("Registered", "4G", false));
    assert_eq!(p, vec![("Mobile network changed".to_string(), "3G → 4G".to_string())]);
}

#[test]
fn change_from_no_network_is_not_notified() {
    assert!(pairs(&status("Registered", "—", false), &status("Registered", "4G", false)).is_empty());
}

#[test]
fn aggregation_and_connection_are_notified_in_order() {
    let p = pairs(&status("Registered", "4G", false), &status("Connected", "4G+", true));
    assert_eq!(
        p,
        vec![
            ("Mobile network changed".to_string(), "4G → 4G+".to_string()),
            ("4G+ active".to_string(), "Carrier aggregation was detected by ModemDeck.".to_string()),
            ("Mobile data connected".to_string(), "MCI • 4G+".to_string()),
        ]
    );
}

#[test]
fn aggregation_ending_is_not_notified() {
    assert!(pairs(&status("Connected", "4G", true), &status("Connected", "4G", false)).is_empty());
}

#[test]
fn restore_needs_the_setting_and_no_pending_change() {
    let mut settings = Settings::default();
    let mut store = ProfileStore::default();
    upsert(&mut store, "Home", vec![31, 33]).unwrap();
    store.active_profile = "Home".into();
    assert_eq!(bands_to_restore(&settings, false, &store), None);
    settings.restore_profile_on_startup = true;
    assert_eq!(bands_to_restore(&settings, false, &store), Some(vec![31, 33]));
    assert_eq!(bands_to_restore(&settings, true, &store), None);
    store.active_profile = "Gone".into();
    assert_eq!(bands_to_restore(&settings, false, &store), None);
}

#[test]
fn guard_seconds_defaults_to_47() {
    assert_eq!(guard_seconds(Some("45")), 45);
    assert_eq!(guard_seconds(Some("x")), 47);
    assert_eq!(guard_seconds(Some("-1")), 47);
    assert_eq!(guard_seconds(None), 47);
}

#[test]
fn guard_acts_only_on_its_own_transaction() {
    assert!(guard_still_ours(Some("tok-1"), "tok-1"));
    assert!(!guard_still_ours(Some("tok-2"), "tok-1"));
    assert!(!guard_still_ours(None, "tok-1"));
    assert!(!guard_still_ours(Some(""), ""));
}

#[test]
fn notifications_need_a_previous_status_and_the_setting() {
    let prev = status("Registered", "3G", false);
    let cur = status("Registered", "4G", false);
    assert!(notifications_for(None, &cur, true).is_empty());
    assert!(notifications_for(Some(&prev), &cur, false).is_empty());
    assert_eq!(notifications_for(Some(&prev), &cur, true).len(), 1);
}
