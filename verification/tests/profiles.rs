use modemdeck::profiles::{
    add_missing_builtins, default_profiles, find, matching_name, path, remove, same_bands, set_active, upsert,
    BandProfile, ProfileStore,
};

fn names(store: &ProfileStore) -> Vec<String> {
    store.profiles.iter().map(|p| p.name.clone()).collect()
}

#[test]
fn default_store_has_the_three_built_in_profiles() {
    let store = ProfileStore::default();
    assert_eq!(names(&store), vec!["Auto", "B42 TD-LTE", "B1+B3+B7"]);
    assert_eq!(store.profiles[0].bands, vec![256]);
    assert_eq!(store.profiles[1].bands, vec![72]);
    assert_eq!(store.profiles[2].bands, vec![31, 33, 37]);
    assert!(store.profiles.iter().all(|p| p.built_in));
    assert_eq!(store.active_profile, "Auto");
    assert_eq!(default_profiles().len(), 3);
}

#[test]
fn upsert_trims_the_name_and_adds_a_user_profile() {
    let mut store = ProfileStore::default();
    assert_eq!(upsert(&mut store, "  Home  ", vec![31, 33]), Ok(()));
    let p = find(&store, "Home").expect("stored");
    assert_eq!(p.name, "Home");
    assert_eq!(p.bands, vec![31, 33]);
    assert!(!p.built_in);
    assert_eq!(store.profiles.len(), 4);
    assert!(find(&store, "  Home  ").is_none());
}

#[test]
fn upsert_rejects_an_empty_name() {
    let mut store = ProfileStore::default();
    assert_eq!(upsert(&mut store, "   ", vec![1]), Err("Profile name cannot be empty.".to_string()));
    assert_eq!(store.profiles.len(), 3);
}

#[test]
fn upsert_rejects_an_empty_band_list() {
    let mut store = ProfileStore::default();
    assert_eq!(upsert(&mut store, "Work", vec![]), Err("A profile must contain at least one band.".to_string()));
    assert!(find(&store, "Work").is_none());
}

#[test]
fn upsert_refuses_to_overwrite_a_built_in_profile_ignoring_case() {
    let mut store = ProfileStore::default();
    assert_eq!(
        upsert(&mut store, "auto", vec![1]),
        Err("Built-in profiles cannot be overwritten. Choose another name.".to_string())
    );
    assert_eq!(find(&store, "Auto").unwrap().bands, vec![256]);
}

#[test]
fn upsert_replaces_a_user_profile_matched_ignoring_case() {
    let mut store = ProfileStore::default();
    upsert(&mut store, "Home", vec![31]).unwrap();
    upsert(&mut store, "HOME", vec![37, 38]).unwrap();
    assert_eq!(store.profiles.len(), 4);
    assert!(find(&store, "Home").is_none());
    let p = find(&store, "HOME").unwrap();
    assert_eq!(p.bands, vec![37, 38]);
    assert_eq!(store.profiles[3].name, "HOME");
}

#[test]
fn remove_unknown_profile_is_refused() {
    let mut store = ProfileStore::default();
    assert_eq!(remove(&mut store, "Nope"), Err("Profile not found.".to_string()));
}

#[test]
fn remove_built_in_profile_is_refused() {
    let mut store = ProfileStore::default();
    assert_eq!(remove(&mut store, "B42 TD-LTE"), Err("Built-in profiles cannot be deleted.".to_string()));
    assert_eq!(store.profiles.len(), 3);
}

#[test]
fn remove_matches_the_name_exactly() {
    let mut store = ProfileStore::default();
    upsert(&mut store, "Home", vec![31]).unwrap();
    assert_eq!(remove(&mut store, "home"), Err("Profile not found.".to_string()));
    assert_eq!(remove(&mut store, "Home"), Ok(()));
    assert!(find(&store, "Home").is_none());
    assert_eq!(store.profiles.len(), 3);
}

#[test]
fn removing_the_active_profile_falls_back_to_auto() {
    let mut store = ProfileStore::default();
    upsert(&mut store, "Home", vec![31]).unwrap();
    set_active(&mut store, "Home");
    assert_eq!(store.active_profile, "Home");
    remove(&mut store, "Home").unwrap();
    assert_eq!(store.active_profile, "Auto");
}

#[test]
fn removing_another_profile_keeps_the_active_one() {
    let mut store = ProfileStore::default();
    upsert(&mut store, "Home", vec![31]).unwrap();
    upsert(&mut store, "Work", vec![33]).unwrap();
    set_active(&mut store, "Work");
    remove(&mut store, "Home").unwrap();
    assert_eq!(store.active_profile, "Work");
    assert_eq!(names(&store), vec!["Auto", "B42 TD-LTE", "B1+B3+B7", "Work"]);
}

#[test]
fn set_active_keeps_the_profiles() {
    let mut store = ProfileStore::default();
    set_active(&mut store, "anything");
    assert_eq!(store.active_profile, "anything");
    assert_eq!(store.profiles.len(), 3);
}

#[test]
fn matching_name_compares_band_sets_in_any_order() {
    let store = ProfileStore::default();
    assert_eq!(matching_name(&store, &[37, 31, 33]), Some("B1+B3+B7".to_string()));
    assert_eq!(matching_name(&store, &[72]), Some("B42 TD-LTE".to_string()));
    assert_eq!(matching_name(&store, &[31, 33]), None);
    assert_eq!(matching_name(&store, &[31, 31, 33, 37]), None);
    assert_eq!(matching_name(&store, &[]), None);
}

#[test]
fn matching_name_returns_the_first_match() {
    let mut store = ProfileStore::default();
    upsert(&mut store, "Also auto", vec![256]).unwrap();
    assert_eq!(matching_name(&store, &[256]), Some("Auto".to_string()));
}

#[test]
fn same_bands_counts_repetitions() {
    assert!(same_bands(&[1, 2, 2], &[2, 1, 2]));
    assert!(!same_bands(&[1, 2], &[1, 2, 2]));
    assert!(same_bands(&[], &[]));
}

#[test]
fn add_missing_builtins_appends_absent_defaults() {
    let mut store = ProfileStore {
        profiles: vec![
            BandProfile { name: "Mine".into(), bands: vec![3], built_in: false },
            BandProfile { name: "B42 TD-LTE".into(), bands: vec![99], built_in: true },
        ],
        active_profile: "Mine".into(),
    };
    add_missing_builtins(&mut store);
    assert_eq!(names(&store), vec!["Mine", "B42 TD-LTE", "Auto", "B1+B3+B7"]);
    assert_eq!(store.profiles[1].bands, vec![99]);
    assert_eq!(store.active_profile, "Mine");
}

#[test]
fn add_missing_builtins_fills_an_empty_store() {
    let mut store = ProfileStore { profiles: vec![], active_profile: String::new() };
    add_missing_builtins(&mut store);
    assert_eq!(names(&store), vec!["Auto", "B42 TD-LTE", "B1+B3+B7"]);
}

#[test]
fn profile_store_path() {
    assert_eq!(path("/home/u/.config"), "/home/u/.config/modemdeck/profiles.json");
    assert_eq!(path("/home/u/.config/"), "/home/u/.config/modemdeck/profiles.json");
    assert_eq!(path(""), "modemdeck/profiles.json");
}

#[test]
fn upsert_then_find_gives_the_stored_bands() {
    let mut store = ProfileStore::default();
    upsert(&mut store, " Night ", vec![7, 3]).unwrap();
    assert_eq!(find(&store, "Night").unwrap().bands, vec![7, 3]);
}

#[test]
fn remove_then_find_gives_nothing() {
    let mut store = ProfileStore::default();
    upsert(&mut store, "Night", vec![7]).unwrap();
    remove(&mut store, "Night").unwrap();
    assert!(find(&store, "Night").is_none());
}

#[test]
fn built_in_profiles_survive_every_operation() {
    let mut store = ProfileStore::default();
    let _ = upsert(&mut store, "Auto", vec![1]);
    let _ = upsert(&mut store, "New", vec![1]);
    let _ = remove(&mut store, "Auto");
    let _ = remove(&mut store, "New");
    for built in ["Auto", "B42 TD-LTE", "B1+B3+B7"] {
        assert!(find(&store, built).unwrap().built_in);
    }
}

#[test]
fn every_stored_profile_is_recognised_by_its_bands() {
    let mut store = ProfileStore::default();
    upsert(&mut store, "Mine", vec![37, 31]).unwrap();
    upsert(&mut store, "Same as B42", vec![72]).unwrap();
    for p in store.profiles.clone() {
        assert!(matching_name(&store, &p.bands).is_some());
    }
    assert_eq!(matching_name(&store, &[72]), Some("B42 TD-LTE".to_string()));
}
