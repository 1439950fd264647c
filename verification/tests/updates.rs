use modemdeck::updates::{newer_than, state_for, version_numbers, UpdateManifest, UpdateState};

fn manifest(version: &str) -> UpdateManifest {
    UpdateManifest { version: version.into(), url: "https://example.invalid/x".into(), notes: "n".into() }
}

#[test]
fn version_numbers_reads_digit_runs() {
    assert_eq!(version_numbers("v1.2.3"), vec![1, 2, 3]);
    assert_eq!(version_numbers("1.0.0-rc1.4"), vec![1, 0, 0, 1]);
    assert_eq!(version_numbers("vv2.10"), vec![2, 10]);
    assert_eq!(version_numbers(""), Vec::<u64>::new());
    assert_eq!(version_numbers("release"), Vec::<u64>::new());
    assert_eq!(version_numbers("1.2.3.4.5"), vec![1, 2, 3, 4]);
    assert_eq!(version_numbers("007.08"), vec![7, 8]);
}

#[test]
fn version_numbers_reads_an_overlong_run_as_zero() {
    assert_eq!(version_numbers("99999999999999999999.1"), vec![0, 1]);
    assert_eq!(version_numbers("18446744073709551615"), vec![u64::MAX]);
}

#[test]
fn newer_than_compares_numerically() {
    assert!(newer_than("1.10.0", "1.9.9"));
    assert!(!newer_than("1.9.9", "1.10.0"));
    assert!(newer_than("v2", "1.99.99"));
    assert!(newer_than("1.0.1", "1.0"));
}

#[test]
fn missing_parts_count_as_zero() {
    assert!(!newer_than("v1.2", "1.2.0"));
    assert!(!newer_than("1.2.0", "v1.2"));
    assert!(!newer_than("", "0.0"));
}

#[test]
fn a_version_is_not_newer_than_itself() {
    for v in ["1.0.0", "v3.4-rc2", "", "x"] {
        assert!(!newer_than(v, v));
    }
}

#[test]
fn newer_than_is_asymmetric_on_examples() {
    let pairs = [("1.2.3", "1.2.4"), ("2.0", "1.99"), ("1.0.0-rc1", "1.0.0")];
    for (a, b) in pairs {
        assert!(!(newer_than(a, b) && newer_than(b, a)));
    }
    assert!(newer_than("1.0.0-rc1", "1.0.0"));
}

#[test]
fn state_for_reports_an_available_update() {
    match state_for(manifest("1.3.0"), "1.2.9") {
        UpdateState::Available(m) => {
            assert_eq!(m.version, "1.3.0");
            assert_eq!(m.url, "https://example.invalid/x");
            assert_eq!(m.notes, "n");
        }
        UpdateState::Current(_) => panic!("expected an update"),
    }
}

#[test]
fn state_for_reports_current_for_the_same_or_older_version() {
    assert!(matches!(state_for(manifest("1.2.9"), "1.2.9"), UpdateState::Current(_)));
    assert!(matches!(state_for(manifest("1.2.0"), "1.2.9"), UpdateState::Current(_)));
}

#[test]
fn newer_than_is_transitive_on_examples() {
    let versions = ["v1.2", "1.2.0.1", "1.10", "2", "1.9.9.9.9", "v1.0.0-rc1.4", "1.0.0", "0"];
    for a in versions {
        for b in versions {
            for c in versions {
                if newer_than(a, b) && newer_than(b, c) {
                    assert!(newer_than(a, c), "{a} > {b} > {c}");
                }
            }
        }
    }
    assert!(newer_than("1.10", "1.2.0.1") && newer_than("1.2.0.1", "v1.2") && newer_than("1.10", "v1.2"));
}
