use modemdeck::drivers::{dw5821e, fibocom, huawei, quectel, sierra, simcom, telit, DriverCapabilities, DriverKind};

fn pairs(items: &[(&str, &str)]) -> Vec<(String, String)> {
    items.iter().map(|(a, b)| (a.to_string(), b.to_string())).collect()
}

#[test]
fn identify_each_family() {
    assert_eq!(DriverKind::identify("Dell Inc.", "DW5821e Snapdragon X20 LTE"), DriverKind::Dw5821e);
    assert_eq!(DriverKind::identify("", "T77W968"), DriverKind::Dw5821e);
    assert_eq!(DriverKind::identify("Quectel", "RM520N-GL"), DriverKind::Quectel);
    assert_eq!(DriverKind::identify("Generic", "EC25-E"), DriverKind::Quectel);
    assert_eq!(DriverKind::identify("Fibocom Wireless Inc.", "L850-GL"), DriverKind::Fibocom);
    assert_eq!(DriverKind::identify("Lenovo", "FM350-GL"), DriverKind::Fibocom);
    assert_eq!(DriverKind::identify("Sierra Wireless", "EM7455"), DriverKind::Sierra);
    assert_eq!(DriverKind::identify("", "EM9191"), DriverKind::Sierra);
    assert_eq!(DriverKind::identify("Huawei Technologies", "ME906s"), DriverKind::Huawei);
    assert_eq!(DriverKind::identify("Cinterion", "PLS62"), DriverKind::Telit);
    assert_eq!(DriverKind::identify("SIMCOM INCORPORATED", "SIM8262E-M2"), DriverKind::Simcom);
    assert_eq!(DriverKind::identify("", ""), DriverKind::Generic);
    assert_eq!(DriverKind::identify("Acme", "Modem 1"), DriverKind::Generic);
}

#[test]
fn keys_round_trip() {
    let all = [
        DriverKind::Generic, DriverKind::Dw5821e, DriverKind::Quectel, DriverKind::Fibocom,
        DriverKind::Sierra, DriverKind::Huawei, DriverKind::Telit, DriverKind::Simcom,
    ];
    for k in all {
        assert_eq!(DriverKind::from_key(k.key()), Some(k));
    }
    assert_eq!(DriverKind::from_key("Quectel"), None);
    assert_eq!(DriverKind::from_key(""), None);
    assert_eq!(DriverKind::Sierra.key(), "sierra");
    assert_eq!(DriverKind::Generic.label(), "Generic ModemManager");
    assert_eq!(DriverKind::Telit.label(), "Telit / Cinterion");
}

#[test]
fn capabilities_by_model() {
    let q = DriverKind::Quectel.capabilities("RM520N-GL");
    assert!(q.nr5g_diagnostics && q.lte_cell_lock_preview && q.neighbour_cells);
    assert!(!DriverKind::Quectel.capabilities("EC25").nr5g_diagnostics);
    let f = DriverKind::Fibocom.capabilities("L850-GL");
    assert!(f.neighbour_cells && !f.nr5g_diagnostics && !f.lte_cell_lock_preview);
    assert!(DriverKind::Fibocom.capabilities("FM190").nr5g_diagnostics);
    assert!(DriverKind::Simcom.capabilities("SIM8262").nr5g_diagnostics);
    let g = DriverKind::Generic.capabilities("anything");
    assert_eq!(g, DriverCapabilities::default());
    assert!(!DriverKind::Generic.has_vendor_deep_read());
    assert!(DriverKind::Huawei.has_vendor_deep_read());
}

#[test]
fn read_commands_by_model() {
    assert_eq!(DriverKind::Dw5821e.read_commands("x"), vec!["AT^DEBUG?", "AT^CA_INFO?"]);
    assert_eq!(DriverKind::Fibocom.read_commands("FM350-GL"), vec!["AT+GTCCINFO?", "AT+GTCAINFO?", "AT+GTACT?"]);
    assert_eq!(DriverKind::Fibocom.read_commands("L860"), vec!["AT+XCELLINFO?", "AT+GTCAINFO?"]);
    assert_eq!(DriverKind::Sierra.read_commands("EM9191"), vec!["AT!GSTATUS?", "AT!NRINFO?", "AT!LTEINFO?"]);
    assert_eq!(DriverKind::Sierra.read_commands("EM7455"), vec!["AT!GSTATUS?", "AT!LTEINFO?"]);
    assert!(DriverKind::Generic.read_commands("x").is_empty());
}

#[test]
fn cell_lock_preview_limits() {
    assert_eq!(DriverKind::Dw5821e.cell_lock_preview(1300, 504), Err("LTE PCI must be between 0 and 503.".to_string()));
    assert_eq!(DriverKind::Quectel.cell_lock_preview(262_144, 1), Err("EARFCN is outside the supported LTE range.".to_string()));
    assert_eq!(
        DriverKind::Sierra.cell_lock_preview(1300, 1),
        Err("This driver does not expose a verified LTE cell-lock recipe in ModemDeck.".to_string())
    );
    assert_eq!(
        DriverKind::Dw5821e.cell_lock_preview(70_000, 1),
        Err("DW5821e EFS cell lock stores EARFCN in 16 bits; this EARFCN cannot be represented safely.".to_string())
    );
    assert_eq!(
        dw5821e::cell_lock_preview(1, 70_000),
        Err("PCI cannot be represented safely by the DW5821e lock format.".to_string())
    );
}

#[test]
fn dw5821e_preview_bytes() {
    let text = DriverKind::Dw5821e.cell_lock_preview(43292, 89).unwrap();
    assert!(text.starts_with("Preview only — not executed\n\nLock EARFCN + PCI:\n"));
    assert!(text.contains("at^efs=\"/nv/item_files/modem/lte/rrc/csp/pci_lock\",4,\"1C,A9,59,00\"\n\nUnlock:"));
    assert!(text.ends_with("does not execute it automatically in this alpha."));
}

#[test]
fn quectel_preview_numbers() {
    let text = DriverKind::Quectel.cell_lock_preview(1300, 123).unwrap();
    assert!(text.contains("AT+QNWLOCK=\"common/lte\",2,1300,123\n\nUnlock:\nAT+QNWLOCK=\"common/lte\",0"));
    assert_eq!(quectel::cell_lock_preview(0, 0).unwrap().matches(",2,0,0\n").count(), 1);
}

#[test]
fn dw5821e_parse_debug_and_ca() {
    let debug = "  BAND: 42\r\nEARFCN(DL/UL): 43292/43292\nBW: 20 MHz\nBAND: 7\neNB ID(PCI): 123456(89)\nOK\n";
    let ca = "PCC info: Band is LTE_B42, Band_width is 20.0 MHz\nSCC1 info: Band is LTE_B42, Band_width is 20 MHz\nOK";
    let info = dw5821e::parse(debug, ca);
    assert_eq!(info.driver_name, "Dell/Foxconn DW5821e (T77W968)");
    assert!(info.deep_read_available);
    assert_eq!(info.serving_band, Some(42));
    assert_eq!(info.earfcn, Some(43292));
    assert_eq!(info.bandwidth, "20 MHz");
    assert_eq!(info.pci, Some(89));
    assert_eq!(info.ca_active, Some(true));
    assert_eq!(info.ca_components.len(), 2);
    assert_eq!(info.ca_components[0].role, "PCC");
    assert_eq!(info.ca_components[0].band, Some(42));
    assert_eq!(info.ca_components[0].bandwidth_mhz.as_deref(), Some("20.0"));
    assert_eq!(info.ca_components[1].role, "SCC1");
    assert_eq!(info.ca_components[1].bandwidth_mhz.as_deref(), Some("20"));
    assert_eq!(info.ca_summary, "PCC info: Band is LTE_B42, Band_width is 20.0 MHz\nSCC1 info: Band is LTE_B42, Band_width is 20 MHz");
    assert_eq!(info.raw_debug, debug.trim());
    assert_eq!(info.raw_ca, ca);
}

#[test]
fn dw5821e_ca_states() {
    assert_eq!(dw5821e::parse("", "OK").ca_active, Some(false));
    assert_eq!(dw5821e::parse("", "  ").ca_active, Some(false));
    assert_eq!(dw5821e::parse("", "something else").ca_active, None);
    let single = dw5821e::parse("", "PCC info: Band is LTE_B1, Band_width is 20.0 MHz");
    assert_eq!(single.ca_active, Some(false));
    assert_eq!(single.ca_components.len(), 1);
    let bad_width = dw5821e::parse("", "PCC: no band Band_width is wide MHz");
    assert!(bad_width.ca_components.is_empty());
    assert_eq!(bad_width.ca_active, Some(false));
    let unparsable_first = dw5821e::parse("BAND: x\nBAND: 3", "");
    assert_eq!(unparsable_first.serving_band, Some(3));
}

#[test]
fn dw5821e_parse_responses_by_command() {
    let rs = pairs(&[("at^debug?", "BAND: 1"), ("AT^CA_INFO?", "OK")]);
    let info = dw5821e::parse_responses(&rs);
    assert_eq!(info.serving_band, Some(1));
    assert_eq!(info.ca_active, Some(false));
    let via_kind = DriverKind::Dw5821e.parse("x", &rs);
    assert_eq!(via_kind.serving_band, Some(1));
}

#[test]
fn quectel_parse_serving_cell() {
    let rs = pairs(&[
        ("AT+QENG=\"servingcell\"", "+QENG: \"servingcell\",\"NOCONN\",\"LTE\",\"FDD\",432,35,5A1C01,89,1300,3,5,5,1234,-95,-10,-65,12,40\nOK"),
        ("AT+QCAINFO", "+QCAINFO: \"PCC\",1300,100,\"LTE BAND 3\",1,89\n+QCAINFO: \"SCC\",3050,100,\"LTE BAND 7\",1,12\n\nOK"),
        ("AT+QNWINFO", "+QNWINFO: \"FDD LTE\",\"43220\",\"LTE BAND 3\",1300"),
    ]);
    let info = quectel::parse(&rs);
    assert_eq!(info.driver_name, "Quectel");
    assert_eq!(info.pci, Some(89));
    assert_eq!(info.earfcn, Some(1300));
    assert_eq!(info.serving_band, Some(3));
    assert_eq!(info.bandwidth, "UL 5 / DL 5");
    assert_eq!(info.ca_active, Some(true));
    assert_eq!(info.ca_summary, "+QCAINFO: \"PCC\",1300,100,\"LTE BAND 3\",1,89\n+QCAINFO: \"SCC\",3050,100,\"LTE BAND 7\",1,12");
}

#[test]
fn quectel_band_from_nwinfo() {
    let rs = pairs(&[("AT+QNWINFO", "+QNWINFO: \"FDD LTE\",\"43220\",\"lte band 20\",6300"), ("AT+QCAINFO", "OK")]);
    let info = quectel::parse(&rs);
    assert_eq!(info.serving_band, Some(20));
    assert_eq!(info.pci, None);
    assert_eq!(info.ca_active, Some(false));
    assert_eq!(quectel::parse(&[]).ca_active, None);
}

#[test]
fn fibocom_parse_pcc_band() {
    let rs = pairs(&[
        ("AT+GTCCINFO?", "SCC: 107, 3050\nPCC: 103, 1300"),
        ("AT+GTCAINFO?", " PCC: 103 \n\nSCC1: 107\nOK"),
    ]);
    let info = fibocom::parse("FM350-GL", &rs);
    assert_eq!(info.serving_band, Some(3));
    assert_eq!(info.ca_active, Some(true));
    assert_eq!(info.ca_summary, "PCC: 103\nSCC1: 107\nOK");
    assert_eq!(info.raw_debug, "SCC: 107, 3050\nPCC: 103, 1300");
    let l850 = fibocom::parse("L850-GL", &rs);
    assert_eq!(l850.serving_band, None);
    assert_eq!(fibocom::carrier_band_code(&"SCC1: 120".chars().collect::<Vec<_>>()), Some(120));
    assert_eq!(fibocom::fibocom_band_code(142), Some(42));
    assert_eq!(fibocom::fibocom_band_code(199), None);
}

#[test]
fn sierra_parse_status() {
    let status = "!GSTATUS: \nCurrent Time:  1000\t\tTemperature: 40\nLTE band:     B3\t\tLTE bw:      20 MHz\nLTE Rx chan:  1300\t\tLTE Tx chan:  19300\nPCI:  89\nLTE CA state:  ACTIVE\nLTE Scell band: B7\nOK";
    let rs = pairs(&[("AT!GSTATUS?", status), ("AT!LTEINFO?", "  lte info  "), ("AT!NRINFO?", "")]);
    let info = sierra::parse(&rs);
    assert_eq!(info.driver_name, "Sierra Wireless / AirPrime");
    assert_eq!(info.serving_band, Some(3));
    assert_eq!(info.earfcn, Some(1300));
    assert_eq!(info.pci, Some(89));
    assert_eq!(info.bandwidth, "20 MHz");
    assert_eq!(info.ca_active, Some(true));
    assert_eq!(info.ca_summary, "LTE CA state:  ACTIVE\nLTE Scell band: B7");
    assert_eq!(info.raw_ca, "lte info");
    let inactive = sierra::parse(&pairs(&[("AT!GSTATUS?", "LTE CA state: INACTIVE\nLTE Scell band: --")]));
    assert_eq!(inactive.ca_active, Some(false));
    let with_nr = sierra::parse(&pairs(&[("AT!LTEINFO?", "a"), ("AT!NRINFO?", "b ")]));
    assert_eq!(with_nr.raw_ca, "a\nb");
    assert_eq!(with_nr.ca_active, None);
}

#[test]
fn telit_simcom_huawei() {
    let t = telit::parse(&pairs(&[("AT#MONI", "#MONI: I TIM band:3 EARFCN:1300 PCI:89 RSRP:-95")]));
    assert_eq!(t.serving_band, Some(3));
    assert_eq!(t.earfcn, Some(1300));
    assert_eq!(t.pci, Some(89));
    assert_eq!(t.raw_debug, "#MONI: I TIM band:3 EARFCN:1300 PCI:89 RSRP:-95");
    let s = simcom::parse(&pairs(&[("AT+CPSI?", "+CPSI: LTE,Online,460-00,0x1A2B,123456,89,EUTRAN-BAND3,1300,5,5")]));
    assert_eq!(s.serving_band, Some(3));
    assert_eq!(s.driver_name, "SIMCom");
    assert_eq!(simcom::parse(&[]).serving_band, None);
    let h = huawei::parse(&pairs(&[("AT^SYSINFOEX", "^SYSINFOEX:2,3"), ("AT^HCSQ?", "^HCSQ:\"LTE\",50")]));
    assert_eq!(h.raw_debug, "AT^SYSINFOEX\n^SYSINFOEX:2,3\n\nAT^HCSQ?\n^HCSQ:\"LTE\",50");
    assert_eq!(h.serving_band, None);
    let g = DriverKind::Generic.parse("x", &pairs(&[("AT", "OK")]));
    assert_eq!(g.driver_name, "");
    assert!(!g.deep_read_available);
}
