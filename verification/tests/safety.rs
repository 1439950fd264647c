use modemdeck::safety::{backup_band_state, backup_cell_intent, backups_dir, backups_to_prune, pending_path, BACKUP_LIMIT};

#[test]
fn band_backup_record_and_file_name() {
    let (b, name) = backup_band_state("uid-1", "/m/0", &[31, 72], "before B42", 1700000000);
    assert_eq!(b.kind, "band");
    assert_eq!(b.device_uid, "uid-1");
    assert_eq!(b.object_path, "/m/0");
    assert_eq!(b.bands, vec![31, 72]);
    assert_eq!(b.created_unix, 1700000000);
    assert_eq!(b.note, "before B42");
    assert_eq!(name, "band-1700000000.json");
}

#[test]
fn cell_backup_record_and_file_name() {
    let (b, name) = backup_cell_intent("u", "/m/1", &[], "preview", 0);
    assert_eq!(b.kind, "cell-lock-preview");
    assert!(b.bands.is_empty());
    assert_eq!(name, "cell-preview-0.json");
}

#[test]
fn nothing_is_pruned_within_the_limit() {
    assert!(backups_to_prune(&[5, 1, 3], 3).is_empty());
    assert!(backups_to_prune(&[], 0).is_empty());
}

#[test]
fn the_oldest_backups_are_pruned() {
    assert_eq!(backups_to_prune(&[50, 10, 40, 20, 30], 2), vec![1, 3, 4]);
    assert_eq!(backups_to_prune(&[7, 7, 7], 1), vec![0, 1]);
    assert_eq!(backups_to_prune(&[3, 1, 2], 0), vec![0, 1, 2]);
}

#[test]
fn pruning_leaves_exactly_the_limit() {
    let times: Vec<u128> = (0..60u128).map(|i| (i * 37) % 11).collect();
    let removed = backups_to_prune(&times, BACKUP_LIMIT);
    assert_eq!(removed.len(), 10);
    assert_eq!(times.len() - removed.len(), BACKUP_LIMIT);
    let kept_min = (0..times.len()).filter(|i| !removed.contains(i)).map(|i| times[i]).min().unwrap();
    let removed_max = removed.iter().map(|&i| times[i]).max().unwrap();
    assert!(removed_max <= kept_min);
}

#[test]
fn safety_paths() {
    assert_eq!(pending_path("/home/u/.config"), "/home/u/.config/modemdeck/pending-band-change.json");
    assert_eq!(backups_dir("/home/u/.config"), "/home/u/.config/modemdeck/backups");
}
