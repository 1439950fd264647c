use modemdeck::diagnostics::{downloads_dir, report, report_file_name, SignalText};
use modemdeck::model::{BandChangeState, ModemInfo, RadioSignal, VendorInfo};
use modemdeck::settings::Settings;

fn modem() -> ModemInfo {
    let mut vendor = VendorInfo::default();
    vendor.driver_name = "Dell DW5821e".into();
    vendor.ca_active = Some(true);
    vendor.serving_band = Some(42);
    vendor.pci = Some(89);
    ModemInfo {
        object_path: "/org/freedesktop/ModemManager1/Modem/0".into(),
        manufacturer: "Dell".into(),
        model: "DW5821e".into(),
        revision: "T77W968.F1.1.0".into(),
        equipment_id: "356789012345678".into(),
        device_uid: "usb-1-2".into(),
        plugin: "foxconn".into(),
        primary_port: String::new(),
        at_ports: vec![],
        net_ports: vec![],
        sim_path: String::new(),
        unlock_required: 1,
        primary_sim_slot: 0,
        operator_name: "MCI".into(),
        operator_code: "43211".into(),
        state: 11,
        current_capabilities: 0,
        access_technologies: 1 << 14,
        signal_percent: 64,
        signal_recent: false,
        supported_bands: vec![],
        current_bands: vec![31, 72],
        lte_signal: RadioSignal::default(),
        nr5g_signal: RadioSignal::default(),
        serving_cells: vec![],
        cell_info_error: String::new(),
        cell_info_source: String::new(),
        vendor,
        band_change: BandChangeState {
            previous_bands: vec![],
            requested_bands: vec![],
            pending_confirmation: false,
            generation: 0,
            message: String::new(),
        },
    }
}

fn sig() -> SignalText {
    SignalText { rsrp: format!("{:?}", Some(-95.0f64)), rsrq: format!("{:?}", None::<f64>), snr: format!("{:?}", Some(12.5f64)) }
}

#[test]
fn report_without_modems() {
    let r = report(&[], &Settings::default(), "1.0.0", &[]);
    assert_eq!(
        r,
        "ModemDeck diagnostics (privacy-safe)\n======================================\nIMEI/equipment identifiers are intentionally omitted.\n\nModemDeck version: 1.0.0\nSignal refresh: 10 seconds\nNotifications: true\nBackground monitor preference: false\n\nNo modem detected.\n"
    );
}

#[test]
fn report_of_one_modem() {
    let mut settings = Settings::default();
    settings.signal_refresh_seconds = 1;
    let r = report(&[modem()], &settings, "1.2.3", &[sig()]);
    let expected = "ModemDeck diagnostics (privacy-safe)\n======================================\nIMEI/equipment identifiers are intentionally omitted.\n\nModemDeck version: 1.2.3\nSignal refresh: 5 seconds\nNotifications: true\nBackground monitor preference: false\n\n\
Modem 1\n  Name: Dell DW5821e\n  Firmware: T77W968.F1.1.0\n  Plugin: foxconn\n  State: Connected\n  Operator: MCI\n  Network: 4G+\n  Signal: 64%\n  RSRP: Some(-95.0)\n  RSRQ: None\n  SNR: Some(12.5)\n  Vendor driver: Dell DW5821e\n  CA detected: Some(true)\n  Serving band: Some(42)\n  EARFCN: None\n  PCI: Some(89)\n  Configured bands: LTE B1, LTE B42\n\n";
    assert_eq!(r, expected);
}

#[test]
fn report_notes_and_numbering() {
    let mut a = modem();
    a.cell_info_error = "denied".into();
    let mut b = modem();
    b.vendor.error = "port busy".into();
    b.current_bands = vec![];
    let r = report(&[a, b], &Settings::default(), "v", &[sig(), sig()]);
    assert!(r.contains("Modem 1\n"));
    assert!(r.contains("Modem 2\n"));
    assert!(r.contains("  Cell-info error: denied\n"));
    assert!(r.contains("  Vendor-read note: port busy\n"));
    assert!(r.contains("  Configured bands: \n"));
}

#[test]
fn report_never_shows_equipment_identifiers() {
    let m = modem();
    let r = report(&[m.clone()], &Settings::default(), "v", &[sig()]);
    assert!(!r.contains(&m.equipment_id));
    let mut other = m.clone();
    other.equipment_id = "999999999999999".into();
    other.device_uid = "something-else".into();
    assert_eq!(report(&[other], &Settings::default(), "v", &[sig()]), r);
}

#[test]
fn report_location() {
    assert_eq!(downloads_dir(Some("/home/u")), "/home/u/Downloads");
    assert_eq!(downloads_dir(None), "./Downloads");
    assert_eq!(report_file_name(1712345678), "modemdeck-diagnostics-1712345678.txt");
}
