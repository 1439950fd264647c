use modemdeck::history::{
    history_key, history_path, load_for, push_sample, record, sample_for, HistoryStore, SignalSample,
    MAX_SAMPLES_PER_MODEM,
};
use modemdeck::model::{BandChangeState, ModemInfo, RadioSignal, VendorInfo};

fn modem(uid: &str, path: &str, percent: u32) -> ModemInfo {
    ModemInfo {
        object_path: path.into(),
        manufacturer: String::new(),
        model: String::new(),
        revision: String::new(),
        equipment_id: String::new(),
        device_uid: uid.into(),
        plugin: String::new(),
        primary_port: String::new(),
        at_ports: vec![],
        net_ports: vec![],
        sim_path: String::new(),
        unlock_required: 0,
        primary_sim_slot: 0,
        operator_name: String::new(),
        operator_code: String::new(),
        state: 11,
        current_capabilities: 0,
        access_technologies: 0,
        signal_percent: percent,
        signal_recent: false,
        supported_bands: vec![],
        current_bands: vec![],
        lte_signal: RadioSignal::default(),
        nr5g_signal: RadioSignal::default(),
        serving_cells: vec![],
        cell_info_error: String::new(),
        cell_info_source: String::new(),
        vendor: VendorInfo::default(),
        band_change: BandChangeState {
            previous_bands: vec![],
            requested_bands: vec![],
            pending_confirmation: false,
            generation: 0,
            message: String::new(),
        },
    }
}

fn sample(t: u64, p: u32) -> SignalSample {
    SignalSample { timestamp: t, signal_percent: p, rsrp: None, rsrq: None, snr: None }
}

#[test]
fn history_key_prefers_the_device_uid() {
    assert_eq!(history_key(&modem("abc", "/m/0", 1)), "abc");
    assert_eq!(history_key(&modem("   ", "/m/0", 1)), "/m/0");
    assert_eq!(history_key(&modem("", "/m/1", 1)), "/m/1");
}

#[test]
fn sample_uses_the_nr_signal_when_it_reports_anything() {
    let mut m = modem("u", "/m/0", 55);
    m.lte_signal.rsrp = Some((-100.0f64).to_bits());
    let s = sample_for(&m, 7);
    assert_eq!(s.timestamp, 7);
    assert_eq!(s.signal_percent, 55);
    assert_eq!(s.rsrp, Some((-100.0f64).to_bits()));
    m.nr5g_signal.snr = Some(12.5f64.to_bits());
    let s = sample_for(&m, 8);
    assert_eq!(s.rsrp, None);
    assert_eq!(s.snr, Some(12.5f64.to_bits()));
}

#[test]
fn push_sample_skips_a_repeat_of_the_last_sample() {
    let mut v = vec![sample(10, 50)];
    push_sample(&mut v, sample(10, 50));
    assert_eq!(v.len(), 1);
    push_sample(&mut v, sample(10, 51));
    assert_eq!(v.len(), 2);
    push_sample(&mut v, sample(11, 51));
    assert_eq!(v.len(), 3);
}

#[test]
fn push_sample_keeps_the_newest_180() {
    let mut v = Vec::new();
    for t in 0..200u64 {
        push_sample(&mut v, sample(t, 1));
    }
    assert_eq!(v.len(), MAX_SAMPLES_PER_MODEM);
    assert_eq!(v[0].timestamp, 20);
    assert_eq!(v[179].timestamp, 199);
}

#[test]
fn record_files_each_modem_under_its_key() {
    let mut store = HistoryStore { entries: vec![] };
    let modems = vec![modem("a", "/m/0", 10), modem("", "/m/1", 20)];
    record(&mut store, &modems, 100);
    record(&mut store, &modems, 101);
    record(&mut store, &modems, 101);
    assert_eq!(store.entries.len(), 2);
    assert_eq!(store.entries[0].0, "a");
    assert_eq!(store.entries[1].0, "/m/1");
    assert_eq!(store.entries[0].1.len(), 2);
    assert_eq!(store.entries[1].1[1].signal_percent, 20);
    let h = load_for(store.clone(), &modems[1]);
    assert_eq!(h.iter().map(|s| s.timestamp).collect::<Vec<_>>(), vec![100, 101]);
    assert!(load_for(store, &modem("zzz", "/m/9", 0)).is_empty());
}

#[test]
fn record_keeps_every_history_bounded() {
    let mut store = HistoryStore { entries: vec![] };
    let modems = vec![modem("a", "/m/0", 10)];
    for t in 0..250u64 {
        record(&mut store, &modems, t);
    }
    assert_eq!(store.entries.len(), 1);
    assert_eq!(store.entries[0].1.len(), 180);
    assert_eq!(store.entries[0].1.last().unwrap().timestamp, 249);
}

#[test]
fn history_file_path() {
    assert_eq!(history_path("/run/user/1000"), "/run/user/1000/modemdeck-history.json");
}
