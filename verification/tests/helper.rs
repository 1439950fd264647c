use modemdeck::drivers::DriverKind;
use modemdeck::helper::{
    cells_from_entries, clean_at_response, compact_response, envelope_result, finish_vendor_read, helper_action,
    pkexec_failure, port_path, port_responses, ports_outcome, probe_failure, read_profile, reply_complete,
    response_ok, serial_reply, vendor_read_args, AtResponse, CellEntry, DirectVendorRead, HelperAction,
};

fn strings(v: &[&str]) -> Vec<String> {
    v.iter().map(|s| s.to_string()).collect()
}

fn entry(serving: Option<bool>, cell_type: Option<u32>, earfcn: Option<u32>) -> CellEntry {
    CellEntry {
        serving,
        cell_type,
        serving_cell_type: Some(1),
        operator_id: Some("43235".into()),
        tac: None,
        ci: Some("0A1B".into()),
        physical_ci_text: None,
        physical_ci_number: Some(89),
        earfcn,
        nrarfcn: None,
        bandwidth: Some(20000),
        rsrp: Some((-95.5f64).to_bits()),
        rsrq: None,
        sinr: None,
    }
}

#[test]
fn response_ok_looks_for_an_ok_line() {
    assert!(response_ok("AT\r\r\nOK\r\n"));
    assert!(response_ok("+CSQ: 20,99\n  OK  \n"));
    assert!(!response_ok("ERROR\r\n"));
    assert!(!response_ok("NOT OK"));
}

#[test]
fn clean_at_response_drops_echo_ok_and_blank_lines() {
    assert_eq!(clean_at_response("AT!GSTATUS?\r\r\n!GSTATUS: \r\nLTE band: B3\r\n\r\nOK\r\n", "AT!GSTATUS?"), "!GSTATUS:\nLTE band: B3");
    assert_eq!(clean_at_response("OK", "AT"), "");
}

#[test]
fn compact_response_keeps_24_words() {
    assert_eq!(compact_response("  +CME ERROR:\r\n 4 \n"), "+CME ERROR: 4");
    let long: String = (0..30).map(|i| format!("w{i} ")).collect();
    let c = compact_response(&long);
    assert_eq!(c.split(' ').count(), 24);
    assert!(c.ends_with("w23"));
}

#[test]
fn reply_complete_markers() {
    assert!(reply_complete("AT\r\nOK\r\n"));
    assert!(reply_complete("x\nOK\n"));
    assert!(reply_complete("\r\nERROR\r\n"));
    assert!(reply_complete("+CME ERROR: 10"));
    assert!(reply_complete("+CMS ERROR: 500"));
    assert!(!reply_complete("+CSQ: 1,2\r\n"));
}

#[test]
fn port_paths() {
    assert_eq!(port_path("ttyUSB2"), "/dev/ttyUSB2");
    assert_eq!(port_path("/dev/wwan0at0"), "/dev/wwan0at0");
}

#[test]
fn vendor_read_arguments() {
    let ok = vendor_read_args(DriverKind::Quectel, "uid", "EM12", &strings(&["ttyUSB2", "ttyUSB3"])).unwrap();
    assert_eq!(ok, strings(&["vendor-read", DriverKind::Quectel.key(), "uid", "EM12", "ttyUSB2", "ttyUSB3"]));
    assert_eq!(
        vendor_read_args(DriverKind::Quectel, " ", "m", &strings(&["a"])).err().unwrap(),
        "ModemManager did not report a device UID, so the modem cannot be safely inhibited."
    );
    assert_eq!(
        vendor_read_args(DriverKind::Quectel, "u", "m", &[]).err().unwrap(),
        "No AT serial port was reported by ModemManager for this modem."
    );
    assert_eq!(
        vendor_read_args(DriverKind::Generic, "u", "m", &strings(&["a"])).err().unwrap(),
        "No vendor AT read profile is available for this modem."
    );
}

#[test]
fn helper_action_parsing() {
    assert!(matches!(helper_action(&strings(&["modemdeck"])), HelperAction::NotHelper));
    assert!(matches!(helper_action(&strings(&["modemdeck", "--monitor"])), HelperAction::NotHelper));
    match helper_action(&strings(&["modemdeck", "--helper", "cell-info", "/m/0"])) {
        HelperAction::CellInfo { object_path } => assert_eq!(object_path, "/m/0"),
        _ => panic!("expected cell-info"),
    }
    let key = DriverKind::Quectel.key();
    match helper_action(&strings(&["modemdeck", "--helper", "vendor-read", key, "uid", "EM12", "p1", "p2"])) {
        HelperAction::VendorRead { driver, uid, model, ports } => {
            assert_eq!(driver, DriverKind::Quectel);
            assert_eq!(uid, "uid");
            assert_eq!(model, "EM12");
            assert_eq!(ports, strings(&["p1", "p2"]));
        }
        _ => panic!("expected vendor-read"),
    }
}

fn failure(args: &[&str]) -> (String, i32) {
    match helper_action(&strings(args)) {
        HelperAction::Fail { message, code } => (message, code),
        _ => panic!("expected a failure"),
    }
}

#[test]
fn helper_action_failures() {
    assert_eq!(failure(&["x", "--helper"]), ("Unknown or missing helper action.".to_string(), 2));
    assert_eq!(failure(&["x", "--helper", "cell-info"]).0, "Missing modem object path.");
    assert_eq!(failure(&["x", "--helper", "vendor-read"]).0, "Missing driver key.");
    assert_eq!(failure(&["x", "--helper", "vendor-read", "k"]).0, "Missing modem device UID.");
    assert_eq!(failure(&["x", "--helper", "vendor-read", "k", "u"]).0, "Missing modem model.");
    assert_eq!(failure(&["x", "--helper", "vendor-read", "nope", "u", "m"]).0, "Unknown driver key.");
    let generic = DriverKind::Generic.key();
    assert_eq!(
        failure(&["x", "--helper", "vendor-read", generic, "u", "m"]).0,
        "The generic driver has no privileged AT profile."
    );
}

#[test]
fn cells_keep_serving_entries_only() {
    let es = vec![entry(Some(false), Some(5), Some(1300)), entry(Some(true), Some(5), Some(43292)), entry(None, Some(6), None)];
    let cells = cells_from_entries(Some(&es)).unwrap();
    assert_eq!(cells.len(), 1);
    let c = &cells[0];
    assert_eq!(c.cell_type, 5);
    assert_eq!(c.band, Some(42));
    assert_eq!(c.earfcn, Some(43292));
    assert_eq!(c.physical_ci, "59");
    assert_eq!(c.operator_id, "43235");
    assert_eq!(c.tac, "");
    assert_eq!(c.ci, "0A1B");
    assert_eq!(c.bandwidth, Some(20000));
    assert_eq!(c.rsrp.map(f64::from_bits), Some(-95.5));
}

#[test]
fn cells_band_only_for_lte() {
    let mut nr = entry(Some(true), Some(6), Some(1300));
    nr.physical_ci_text = Some("1f".into());
    let untyped = entry(Some(true), None, Some(1300));
    let cells = cells_from_entries(Some(&[nr, untyped])).unwrap();
    assert_eq!(cells[0].band, None);
    assert_eq!(cells[0].physical_ci, "1f");
    assert_eq!(cells[1].cell_type, 0);
    assert_eq!(cells[1].band, None);
}

#[test]
fn cells_errors() {
    assert_eq!(cells_from_entries(None).err().unwrap(), "ModemManager returned an empty GetCellInfo response.");
    assert_eq!(
        cells_from_entries(Some(&[entry(Some(false), Some(5), None)])).err().unwrap(),
        "GetCellInfo succeeded, but no serving cell was reported by this modem/driver."
    );
    assert!(cells_from_entries(Some(&[])).is_err());
}

#[test]
fn probe_failure_text() {
    assert_eq!(probe_failure("AT\r\nOK\r\n"), None);
    assert_eq!(probe_failure("\r\nERROR\r\n"), Some("AT probe did not return OK: ERROR".to_string()));
}

#[test]
fn port_responses_records_each_command() {
    let commands = ["AT!GSTATUS?", "AT!LTEINFO?", "AT!BAND?"];
    let answers = vec![
        Ok("AT!GSTATUS?\r\nLTE band: B3\r\nOK\r\n".to_string()),
        Ok("\r\nERROR\r\n".to_string()),
        Err("read failed: gone".to_string()),
    ];
    let rs = port_responses(&commands, &answers).unwrap();
    assert_eq!(rs.len(), 3);
    assert_eq!(rs[0].command, "AT!GSTATUS?");
    assert_eq!(rs[0].response, "LTE band: B3");
    assert_eq!(rs[1].response, "Command unavailable: ERROR");
    assert_eq!(rs[2].response, "Command unavailable: read failed: gone");
}

#[test]
fn port_responses_fails_when_the_primary_command_is_rejected() {
    let commands = ["AT!GSTATUS?", "AT!BAND?"];
    let answers = vec![Ok("ERROR".to_string()), Ok("OK".to_string())];
    assert_eq!(
        port_responses(&commands, &answers).err().unwrap(),
        "The AT port answered, but the driver's primary read command (AT!GSTATUS?) was rejected."
    );
    assert_eq!(
        port_responses(&[], &[]).err().unwrap(),
        "The AT port answered, but the driver's primary read command (unknown) was rejected."
    );
}

#[test]
fn ports_outcome_takes_the_first_port_that_answered() {
    let ports = strings(&["ttyUSB1", "/dev/ttyUSB2", "ttyUSB3"]);
    let read = vec![AtResponse { command: "AT".into(), response: "x".into() }];
    let outcomes = vec![Err("open failed: busy".to_string()), Ok(read)];
    let r = ports_outcome(&ports, &["AT!X"], outcomes).unwrap();
    assert_eq!(r.port, "/dev/ttyUSB2");
    assert_eq!(r.responses.len(), 1);
    assert_eq!(r.warning, "");
}

#[test]
fn ports_outcome_lists_every_failure() {
    let ports = strings(&["ttyUSB1", "ttyUSB2"]);
    let outcomes = vec![Err("open failed: busy".to_string()), Err("timeout waiting for a response to AT".to_string())];
    assert_eq!(
        ports_outcome(&ports, &["AT!GSTATUS?"], outcomes).err().unwrap(),
        "No reported AT port answered the read-only AT!GSTATUS? profile. /dev/ttyUSB1: open failed: busy | /dev/ttyUSB2: timeout waiting for a response to AT"
    );
    assert_eq!(
        ports_outcome(&[], &[], vec![]).err().unwrap(),
        "No reported AT port answered the read-only AT profile. "
    );
}

fn read() -> DirectVendorRead {
    DirectVendorRead { port: "/dev/x".into(), responses: vec![], warning: String::new() }
}

#[test]
fn finishing_a_read() {
    assert_eq!(finish_vendor_read(Ok(read()), None).unwrap().warning, "");
    assert_eq!(
        finish_vendor_read(Ok(read()), Some("busy".into())).unwrap().warning,
        "The read completed, but explicit uninhibit returned: busy. ModemManager also removes inhibition automatically when this helper exits."
    );
    assert_eq!(finish_vendor_read(Err("no port".into()), None).err().unwrap(), "no port");
    assert_eq!(
        finish_vendor_read(Err("no port".into()), Some("busy".into())).err().unwrap(),
        "no port; additionally, explicit uninhibit failed: busy"
    );
}

#[test]
fn pkexec_failures() {
    assert_eq!(pkexec_failure(Some(126), "exit status: 126", Some("x"), "y"), "Administrator authorization was cancelled or denied.");
    assert_eq!(pkexec_failure(Some(127), "", None, ""), "Administrator authorization was cancelled or denied.");
    assert_eq!(pkexec_failure(Some(1), "exit status: 1", Some("Unknown driver key."), "y"), "Unknown driver key.");
    assert_eq!(pkexec_failure(Some(1), "exit status: 1", Some(""), "  boom \n"), "Privileged helper failed: boom");
    assert_eq!(pkexec_failure(None, "signal: 9", None, " "), "Privileged helper exited with status signal: 9.");
}

#[test]
fn envelope_results() {
    assert_eq!(envelope_result(true, Some(5u32), String::new()), Ok(5));
    assert_eq!(envelope_result::<u32>(true, None, String::new()), Err("Privileged helper returned no data.".to_string()));
    assert_eq!(envelope_result::<u32>(false, Some(1), "denied".into()), Err("denied".to_string()));
    assert_eq!(
        envelope_result::<u32>(false, None, String::new()),
        Err("Privileged helper reported an unknown error.".to_string())
    );
}

#[test]
fn serial_replies() {
    assert_eq!(serial_reply("", "AT"), Err("timeout waiting for a response to AT".to_string()));
    assert_eq!(serial_reply("O\0K\0", "AT"), Ok("OK".to_string()));
}

#[test]
fn read_profiles() {
    assert_eq!(read_profile(DriverKind::Generic, "x").err().unwrap(), "This driver has no direct AT read profile.");
    let q = read_profile(DriverKind::Quectel, "EM12").unwrap();
    assert_eq!(q, DriverKind::Quectel.read_commands("EM12"));
    assert!(!q.is_empty());
}

#[test]
fn the_helper_reads_back_the_command_line_it_is_given() {
    let ports = strings(&["ttyUSB2", "/dev/wwan0at1"]);
    let mut line = strings(&["/usr/bin/modemdeck", "--helper"]);
    line.extend(vendor_read_args(DriverKind::Dw5821e, "usb-1", "DW5821e", &ports).unwrap());
    match helper_action(&line) {
        HelperAction::VendorRead { driver, uid, model, ports: p } => {
            assert_eq!(driver, DriverKind::Dw5821e);
            assert_eq!(uid, "usb-1");
            assert_eq!(model, "DW5821e");
            assert_eq!(p, ports);
        }
        _ => panic!("expected a vendor read"),
    }
}
