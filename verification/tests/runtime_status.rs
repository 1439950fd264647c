use modemdeck::model::{BandChangeState, ModemInfo, RadioSignal, ServingCellInfo, VendorInfo};
use modemdeck::runtime_status::{runtime_dir, selected_modem, status_at, status_from_modems, status_path, RuntimeStatus};

fn cell(cell_type: u32, serving: Option<u32>, band: Option<u32>) -> ServingCellInfo {
    ServingCellInfo {
        cell_type,
        serving_cell_type: serving,
        operator_id: String::new(),
        tac: String::new(),
        ci: String::new(),
        physical_ci: String::new(),
        earfcn: None,
        nrarfcn: None,
        band,
        bandwidth: None,
        rsrp: None,
        rsrq: None,
        sinr: None,
    }
}

fn modem(state: i32) -> ModemInfo {
    ModemInfo {
        object_path: "/org/freedesktop/ModemManager1/Modem/0".into(),
        manufacturer: "Dell".into(),
        model: "DW5821e".into(),
        revision: String::new(),
        equipment_id: "123456789012345".into(),
        device_uid: String::new(),
        plugin: String::new(),
        primary_port: String::new(),
        at_ports: vec![],
        net_ports: vec![],
        sim_path: String::new(),
        unlock_required: 0,
        primary_sim_slot: 0,
        operator_name: "Irancell".into(),
        operator_code: "43235".into(),
        state,
        current_capabilities: 0,
        access_technologies: 1 << 14,
        signal_percent: 71,
        signal_recent: false,
        supported_bands: vec![],
        current_bands: vec![],
        lte_signal: RadioSignal::default(),
        nr5g_signal: RadioSignal::default(),
        serving_cells: vec![],
        cell_info_error: String::new(),
        cell_info_source: String::new(),
        vendor: VendorInfo::default(),
        band_change: BandChangeState {
            previous_bands: vec![],
            requested_bands: vec![],
            pending_confirmation: false,
            generation: 0,
            message: String::new(),
        },
    }
}

#[test]
fn no_modem_status() {
    let s = status_at(&[], 1234);
    assert_eq!(s.state, "No modem");
    assert_eq!(s.network, "—");
    assert_eq!(s.modem_name, "");
    assert_eq!(s.band, "");
    assert_eq!(s.signal_percent, 0);
    assert!(!s.carrier_aggregation);
    assert_eq!(s.updated_unix, 1234);
}

#[test]
fn the_first_connected_modem_is_chosen() {
    let mut other = modem(8);
    other.model = "Other".into();
    let mut connected = modem(11);
    connected.model = "Connected one".into();
    let modems = vec![other, connected];
    assert_eq!(selected_modem(&modems), Some(1));
    let s = status_at(&modems, 5);
    assert_eq!(s.modem_name, "Dell Connected one");
    assert_eq!(s.state, "Connected");
}

#[test]
fn without_a_connected_modem_the_first_is_chosen() {
    let modems = vec![modem(8), modem(3)];
    assert_eq!(selected_modem(&modems), Some(0));
    assert_eq!(status_at(&modems, 0).state, "Registered");
    assert_eq!(selected_modem(&[]), None);
}

#[test]
fn status_fields_of_a_connected_lte_modem() {
    let mut m = modem(11);
    m.vendor.serving_band = Some(42);
    let s = status_at(&[m], 99);
    assert_eq!(s.modem_name, "Dell DW5821e");
    assert_eq!(s.operator, "Irancell");
    assert_eq!(s.network, "4G");
    assert_eq!(s.signal_percent, 71);
    assert_eq!(s.band, "B42");
    assert!(!s.carrier_aggregation);
    assert_eq!(s.updated_unix, 99);
}

#[test]
fn band_falls_back_to_the_first_cell_with_a_band() {
    let mut m = modem(11);
    m.serving_cells = vec![cell(5, Some(1), None), cell(6, Some(1), Some(78)), cell(5, Some(2), Some(3))];
    let s = status_at(&[m], 0);
    assert_eq!(s.band, "n78");
    assert!(s.carrier_aggregation);
    assert_eq!(s.network, "4G+");
}

#[test]
fn band_of_an_lte_cell() {
    let mut m = modem(11);
    m.serving_cells = vec![cell(5, Some(1), Some(3))];
    assert_eq!(status_at(&[m], 0).band, "B3");
}

#[test]
fn band_is_empty_when_unknown() {
    let m = modem(11);
    assert_eq!(status_at(&[m], 0).band, "");
}

#[test]
fn status_from_modems_stamps_the_clock() {
    let s = status_from_modems(&[modem(11)]);
    assert_eq!(s.state, "Connected");
    assert!(s.updated_unix > 1_600_000_000);
    let empty = status_from_modems(&[]);
    assert_eq!(empty.state, "No modem");
    assert!(empty.updated_unix > 1_600_000_000);
}

#[test]
fn default_status_is_blank() {
    let s = RuntimeStatus::default();
    assert_eq!(s.state, "");
    assert_eq!(s.updated_unix, 0);
}

#[test]
fn runtime_paths() {
    assert_eq!(runtime_dir(Some("/run/user/1000"), "/tmp"), "/run/user/1000");
    assert_eq!(runtime_dir(None, "/tmp"), "/tmp/modemdeck-runtime");
    assert_eq!(runtime_dir(None, "/tmp/"), "/tmp/modemdeck-runtime");
    assert_eq!(status_path("/run/user/1000"), "/run/user/1000/modemdeck-status.json");
}
