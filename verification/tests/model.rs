use modemdeck::model::{
    band_label, is_lte_mm_band, is_lte_tdd_band, is_lte_tdd_mm_band, lte_band_from_earfcn,
    lte_band_number_from_mm_enum, BandChangeState, CarrierComponent, ModemInfo, RadioSignal, ServingCellInfo, VendorInfo,
};

fn cell(cell_type: u32, serving: Option<u32>, band: Option<u32>) -> ServingCellInfo {
    ServingCellInfo {
        cell_type,
        serving_cell_type: serving,
        operator_id: String::new(),
        tac: String::new(),
        ci: String::new(),
        physical_ci: String::new(),
        earfcn: None,
        nrarfcn: None,
        band,
        bandwidth: None,
        rsrp: None,
        rsrq: None,
        sinr: None,
    }
}

fn modem() -> ModemInfo {
    ModemInfo {
        object_path: "/org/freedesktop/ModemManager1/Modem/0".into(),
        manufacturer: String::new(),
        model: String::new(),
        revision: String::new(),
        equipment_id: String::new(),
        device_uid: String::new(),
        plugin: String::new(),
        primary_port: String::new(),
        at_ports: vec![],
        net_ports: vec![],
        sim_path: String::new(),
        unlock_required: 0,
        primary_sim_slot: 0,
        operator_name: String::new(),
        operator_code: String::new(),
        state: 0,
        current_capabilities: 0,
        access_technologies: 0,
        signal_percent: 0,
        signal_recent: false,
        supported_bands: vec![],
        current_bands: vec![],
        lte_signal: RadioSignal::default(),
        nr5g_signal: RadioSignal::default(),
        serving_cells: vec![],
        cell_info_error: String::new(),
        cell_info_source: String::new(),
        vendor: VendorInfo::default(),
        band_change: BandChangeState {
            previous_bands: vec![],
            requested_bands: vec![],
            pending_confirmation: false,
            generation: 0,
            message: String::new(),
        },
    }
}

#[test]
fn earfcn_to_band() {
    assert_eq!(lte_band_from_earfcn(43292), Some(42));
    assert_eq!(lte_band_from_earfcn(1300), Some(3));
    assert_eq!(lte_band_from_earfcn(0), Some(1));
    assert_eq!(lte_band_from_earfcn(5000), None);
    assert_eq!(lte_band_from_earfcn(70645), Some(88));
    assert_eq!(lte_band_from_earfcn(70646), None);
}

#[test]
fn band_enums() {
    assert!(is_lte_tdd_band(42) && is_lte_tdd_band(33) && is_lte_tdd_band(53));
    assert!(!is_lte_tdd_band(32) && !is_lte_tdd_band(54));
    assert_eq!(lte_band_number_from_mm_enum(72), Some(42));
    assert_eq!(lte_band_number_from_mm_enum(115), Some(85));
    assert_eq!(lte_band_number_from_mm_enum(1040), Some(10));
    assert_eq!(lte_band_number_from_mm_enum(45), None);
    assert!(is_lte_mm_band(31) && !is_lte_mm_band(256));
    assert!(is_lte_tdd_mm_band(72) && !is_lte_tdd_mm_band(31));
}

#[test]
fn band_labels() {
    assert_eq!(band_label(0), "Unknown");
    assert_eq!(band_label(1), "GSM 900");
    assert_eq!(band_label(5), "3G B1");
    assert_eq!(band_label(72), "LTE B42");
    assert_eq!(band_label(115), "LTE B85");
    assert_eq!(band_label(212), "3G B12");
    assert_eq!(band_label(256), "Auto / any band");
    assert_eq!(band_label(305), "5G n5");
    assert_eq!(band_label(558), "5G n258");
    assert_eq!(band_label(1040), "LTE B10");
    assert_eq!(band_label(500), "Band enum #500");
}

#[test]
fn every_lte_enum_is_labelled_with_its_band() {
    for value in 0..1300u32 {
        if let Some(band) = lte_band_number_from_mm_enum(value) {
            assert_eq!(band_label(value), format!("LTE B{band}"));
        }
    }
}

#[test]
fn serving_cell_labels() {
    let mut c = cell(5, Some(2), Some(42));
    assert_eq!(c.technology_label(), "LTE");
    assert_eq!(c.role_label(), "Secondary cell");
    assert_eq!(c.band_label(), "LTE B42 • TDD");
    c.band = Some(3);
    assert_eq!(c.band_label(), "LTE B3 • FDD");
    assert_eq!(c.channel_label(), "—");
    c.nrarfcn = Some(632628);
    assert_eq!(c.channel_label(), "NR-ARFCN 632628");
    c.earfcn = Some(1300);
    assert_eq!(c.channel_label(), "EARFCN 1300");
    let nr = cell(6, None, Some(78));
    assert_eq!(nr.band_label(), "5G n78");
    assert_eq!(nr.role_label(), "Serving cell");
    assert_eq!(cell(9, None, Some(1)).band_label(), "—");
    assert_eq!(cell(9, None, None).technology_label(), "Unknown");
}

#[test]
fn pci_labels() {
    let mut c = cell(5, None, None);
    assert_eq!(c.pci_label(), "—");
    c.physical_ci = " 1a ".into();
    assert_eq!(c.pci_label(), "26 (0x1a)");
    c.physical_ci = "0x59".into();
    assert_eq!(c.pci_label(), "89 (0x0x59)");
    c.physical_ci = "zz".into();
    assert_eq!(c.pci_label(), "zz");
    c.physical_ci = "1ffffffff".into();
    assert_eq!(c.pci_label(), "1ffffffff");
}

#[test]
fn modem_labels() {
    let mut m = modem();
    assert_eq!(m.display_name(), "Unknown modem");
    m.model = " DW5821e ".into();
    assert_eq!(m.display_name(), "DW5821e");
    m.manufacturer = "Dell".into();
    assert_eq!(m.display_name(), "Dell DW5821e");
    m.model = String::new();
    assert_eq!(m.display_name(), "Dell");
    assert_eq!(m.sim_lock_label(), "Unknown");
    m.unlock_required = 2;
    assert_eq!(m.sim_lock_label(), "SIM PIN required");
    m.unlock_required = 42;
    assert_eq!(m.sim_lock_label(), "SIM/network lock required");
    m.state = -1;
    assert_eq!(m.state_label(), "Failed");
    m.state = 11;
    assert_eq!(m.state_label(), "Connected");
    m.state = 12;
    assert_eq!(m.state_label(), "Unknown");
    assert_eq!(m.operator_label(), "No operator");
    m.operator_code = "43211".into();
    assert_eq!(m.operator_label(), "43211");
    m.operator_name = "MCI".into();
    assert_eq!(m.operator_label(), "MCI");
    assert_eq!(m.capabilities_label(), "Not reported");
    m.current_capabilities = 4 | 8 | 1;
    assert_eq!(m.capabilities_label(), "2G/3G • 4G LTE • POTS");
}

#[test]
fn network_and_carrier_aggregation() {
    let mut m = modem();
    assert_eq!(m.network_label(), "—");
    m.access_technologies = 1 << 14;
    assert_eq!(m.network_label(), "4G");
    assert_eq!(m.carrier_aggregation_count(), 1);
    assert_eq!(m.ca_layout_label(), "—");
    m.serving_cells = vec![cell(5, Some(1), Some(1)), cell(5, Some(2), Some(7))];
    assert!(m.carrier_aggregation_active());
    assert_eq!(m.network_label(), "4G+");
    assert_eq!(m.carrier_aggregation_count(), 2);
    assert_eq!(m.ca_layout_label(), "CA active");
    m.vendor.ca_components = vec![
        CarrierComponent { role: "PCC".into(), band: Some(1), bandwidth_mhz: Some("20".into()) },
        CarrierComponent { role: "SCC1".into(), band: Some(7), bandwidth_mhz: None },
        CarrierComponent { role: "SCC2".into(), band: None, bandwidth_mhz: None },
        CarrierComponent { role: "SCC3".into(), band: Some(3), bandwidth_mhz: None },
    ];
    assert_eq!(m.carrier_aggregation_count(), 4);
    assert_eq!(m.ca_layout_label(), "B1 + B7 + B3");
    m.access_technologies = 1 << 15;
    assert_eq!(m.network_label(), "5G");
    m.access_technologies = 1 << 9;
    assert_eq!(m.network_label(), "3G+");
    m.access_technologies = 1 << 5;
    assert_eq!(m.network_label(), "3G");
    m.access_technologies = 1 << 4;
    assert_eq!(m.network_label(), "2G E");
    m.access_technologies = 1 << 1;
    assert_eq!(m.network_label(), "2G");
}

#[test]
fn preferred_signal_choice() {
    let mut m = modem();
    m.lte_signal.rsrp = Some((-95.0f64).to_bits());
    let (name, s) = m.preferred_signal();
    assert_eq!(name, "LTE");
    assert_eq!(s.rsrp, Some((-95.0f64).to_bits()));
    m.nr5g_signal.snr = Some(3.5f64.to_bits());
    assert!(m.nr5g_signal.has_any());
    assert_eq!(m.preferred_signal().0, "5G NR");
    assert!(!RadioSignal::default().has_any());
}
