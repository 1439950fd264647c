use modemdeck::traffic::{
    human_bytes, is_well_formed, looks_like_wwan, path, pick_interface, record, reset_usage, Counter, UsageDb,
    MAX_DAYS, MAX_MONTHS,
};

fn empty_db() -> UsageDb {
    UsageDb { last_interface: String::new(), last_rx: 0, last_tx: 0, daily: vec![], monthly: vec![] }
}

fn float_text(v: u64) -> String {
    let x = v as f64;
    if x >= 1024.0 * 1024.0 * 1024.0 {
        format!("{:.2} GiB", x / (1024.0 * 1024.0 * 1024.0))
    } else if x >= 1024.0 * 1024.0 {
        format!("{:.2} MiB", x / (1024.0 * 1024.0))
    } else if x >= 1024.0 {
        format!("{:.1} KiB", x / 1024.0)
    } else {
        format!("{:.0} B", x)
    }
}

#[test]
fn human_bytes_examples() {
    assert_eq!(human_bytes(0), "0 B");
    assert_eq!(human_bytes(1023), "1023 B");
    assert_eq!(human_bytes(1024), "1.0 KiB");
    assert_eq!(human_bytes(1536), "1.5 KiB");
    assert_eq!(human_bytes(1280), "1.2 KiB");
    assert_eq!(human_bytes(1792), "1.8 KiB");
    assert_eq!(human_bytes(1048576), "1.00 MiB");
    assert_eq!(human_bytes(1073741824), "1.00 GiB");
    assert_eq!(human_bytes(9 * (1u64 << 27)), "1.12 GiB");
    assert_eq!(human_bytes(11 * (1u64 << 27)), "1.38 GiB");
    assert_eq!(human_bytes(u64::MAX), "17179869184.00 GiB");
}

#[test]
fn human_bytes_agrees_with_float_formatting() {
    let mut values: Vec<u64> = vec![1, 999, 1000, 1024, 1025, 10239, 10240, 1048575, 1048577, 1073741823, 1073741825];
    for k in 0..64u32 {
        let p = 1u64 << k;
        values.extend([p, p.wrapping_sub(1), p.wrapping_add(1), p / 3 * 2, p.wrapping_mul(3) / 2]);
    }
    for m in 1..200u64 {
        values.push(m * (1 << 27));
        values.push(m * (1 << 17));
        values.push(m * 256);
        values.push(m * 10_485_761);
    }
    let mut x: u64 = 0x9E37_79B9_7F4A_7C15;
    for _ in 0..2000 {
        x ^= x << 13;
        x ^= x >> 7;
        x ^= x << 17;
        values.push(x >> (x % 64));
        values.push(x);
    }
    values.push(u64::MAX);
    values.push((1u64 << 53) + 1);
    values.push((1u64 << 54) + 2);
    values.push((1u64 << 54) + 6);
    for v in values {
        assert_eq!(human_bytes(v), float_text(v), "value {v}");
    }
}

#[test]
fn first_reading_adds_nothing() {
    let mut db = empty_db();
    let r = record(&mut db, "wwan0", 1000, 500, "2024-05-01", "2024-05");
    assert_eq!((r.rx_delta, r.tx_delta), (0, 0));
    assert!(db.daily.is_empty());
    assert_eq!(db.last_interface, "wwan0");
    assert_eq!((db.last_rx, db.last_tx), (1000, 500));
}

#[test]
fn growth_is_added_to_day_and_month() {
    let mut db = empty_db();
    record(&mut db, "wwan0", 1000, 500, "2024-05-01", "2024-05");
    let r = record(&mut db, "wwan0", 1600, 700, "2024-05-01", "2024-05");
    assert_eq!((r.rx_delta, r.tx_delta), (600, 200));
    assert_eq!(r.today, Counter { rx: 600, tx: 200 });
    let r = record(&mut db, "wwan0", 1700, 700, "2024-05-02", "2024-05");
    assert_eq!(r.today, Counter { rx: 100, tx: 0 });
    assert_eq!(r.month, Counter { rx: 700, tx: 200 });
    assert_eq!(db.daily.len(), 2);
    assert_eq!(db.daily[0].0, "2024-05-01");
    assert!(is_well_formed(&db));
}

#[test]
fn counter_reset_or_new_interface_adds_nothing() {
    let mut db = empty_db();
    record(&mut db, "wwan0", 1000, 500, "d", "m");
    let r = record(&mut db, "wwan0", 10, 600, "d", "m");
    assert_eq!((r.rx_delta, r.tx_delta), (0, 100));
    let r = record(&mut db, "wwan1", 5000, 5000, "d", "m");
    assert_eq!((r.rx_delta, r.tx_delta), (0, 0));
    assert_eq!(r.today, Counter { rx: 0, tx: 100 });
}

#[test]
fn keys_stay_sorted_when_filed_out_of_order() {
    let mut db = empty_db();
    record(&mut db, "w", 0, 0, "b", "m");
    record(&mut db, "w", 1, 0, "c", "m");
    record(&mut db, "w", 2, 0, "a", "m");
    let keys: Vec<&str> = db.daily.iter().map(|e| e.0.as_str()).collect();
    assert_eq!(keys, vec!["a", "c"]);
    assert!(is_well_formed(&db));
}

#[test]
fn usage_history_is_bounded() {
    let mut db = empty_db();
    record(&mut db, "w", 0, 0, "0000", "00");
    for i in 1..=200u64 {
        let day = format!("{:04}", i);
        let month = format!("{:02}", i % 40);
        record(&mut db, "w", i, i, &day, &month);
    }
    assert_eq!(db.daily.len(), MAX_DAYS);
    assert!(db.monthly.len() <= MAX_MONTHS);
    assert_eq!(db.daily[0].0, "0081");
    assert!(is_well_formed(&db));
}

#[test]
fn reset_clears_the_tables_only() {
    let mut db = empty_db();
    record(&mut db, "w", 0, 0, "d", "m");
    record(&mut db, "w", 5, 5, "d", "m");
    reset_usage(&mut db);
    assert!(db.daily.is_empty() && db.monthly.is_empty());
    assert_eq!(db.last_rx, 5);
    assert_eq!(db.last_interface, "w");
}

#[test]
fn unsorted_tables_are_not_well_formed() {
    let mut db = empty_db();
    db.daily = vec![("b".into(), Counter { rx: 1, tx: 1 }), ("a".into(), Counter { rx: 1, tx: 1 })];
    assert!(!is_well_formed(&db));
    db.daily.swap(0, 1);
    assert!(is_well_formed(&db));
    db.monthly = vec![("x".into(), Counter::default()), ("x".into(), Counter::default())];
    assert!(!is_well_formed(&db));
}

#[test]
fn wwan_names() {
    assert!(looks_like_wwan("wwan0"));
    assert!(looks_like_wwan("rmnet_data0"));
    assert!(looks_like_wwan("usb0"));
    assert!(!looks_like_wwan("eth0"));
    assert!(!looks_like_wwan("w"));
}

#[test]
fn interface_choice() {
    let c: Vec<String> = vec!["wwp0s20".into(), "wwan0".into()];
    let listed: Vec<String> = vec!["lo".into(), "rmnet0".into(), "wwan9".into()];
    assert_eq!(pick_interface(&c, &[false, true], &listed), Some("wwan0".to_string()));
    assert_eq!(pick_interface(&c, &[false, false], &listed), Some("rmnet0".to_string()));
    assert_eq!(pick_interface(&[], &[], &["lo".to_string()]), None);
}

#[test]
fn usage_database_path() {
    assert_eq!(path("/home/u/.config"), "/home/u/.config/modemdeck/data-usage.json");
}
