use modemdeck::apn::{activate, create, delete, gsm_rows, list, nmcli_failure, update, valid_apn, NmcliCall};

fn args(c: &NmcliCall) -> Vec<&str> {
    c.args.iter().map(|s| s.as_str()).collect()
}

#[test]
fn valid_apn_accepts_lowercase_digits_dots_and_hyphens() {
    let ok: Vec<char> = "mcinet.ir-2".chars().collect();
    assert!(valid_apn(&ok));
    let upper: Vec<char> = "Internet".chars().collect();
    assert!(!valid_apn(&upper));
    let space: Vec<char> = "a b".chars().collect();
    assert!(!valid_apn(&space));
    assert!(!valid_apn(&[]));
}

#[test]
fn create_builds_the_add_autoconnect_and_password_calls() {
    let calls = create("  Home LTE ", " MCINET ", " user ", "secret", true).unwrap();
    assert_eq!(calls.len(), 3);
    assert_eq!(
        args(&calls[0]),
        vec!["connection", "add", "type", "gsm", "ifname", "*", "con-name", "Home LTE", "apn", "mcinet", "user", "user"]
    );
    assert!(calls[0].must_succeed);
    assert_eq!(args(&calls[1]), vec!["connection", "modify", "id", "Home LTE", "connection.autoconnect", "yes"]);
    assert!(!calls[1].must_succeed);
    assert_eq!(args(&calls[2]), vec!["connection", "modify", "id", "Home LTE", "gsm.password", "secret"]);
    assert!(calls[2].must_succeed);
}

#[test]
fn create_without_user_or_password() {
    let calls = create("Work", "internet", "  ", "", false).unwrap();
    assert_eq!(calls.len(), 2);
    assert_eq!(
        args(&calls[0]),
        vec!["connection", "add", "type", "gsm", "ifname", "*", "con-name", "Work", "apn", "internet"]
    );
    assert_eq!(args(&calls[1]), vec!["connection", "modify", "id", "Work", "connection.autoconnect", "no"]);
}

#[test]
fn create_rejects_an_empty_name() {
    assert_eq!(create("  ", "internet", "", "", true).err(), Some("Connection name cannot be empty.".to_string()));
}

#[test]
fn create_rejects_an_invalid_apn() {
    assert_eq!(
        create("Home", "my_apn", "", "", true).err(),
        Some("APN may only contain lowercase letters, digits, dots and hyphens.".to_string())
    );
    assert!(create("Home", "   ", "", "", true).is_err());
}

#[test]
fn update_builds_one_modify_and_the_password_call() {
    let calls = update("u-1", " Home ", "RighTel", " bob ", "pw", false).unwrap();
    assert_eq!(calls.len(), 2);
    assert_eq!(
        args(&calls[0]),
        vec![
            "connection", "modify", "uuid", "u-1", "connection.id", "Home", "connection.autoconnect", "no", "gsm.apn",
            "rightel", "gsm.username", "bob"
        ]
    );
    assert_eq!(args(&calls[1]), vec!["connection", "modify", "uuid", "u-1", "gsm.password", "pw"]);
    let calls = update("u-1", "Home", "rightel", "", "", true).unwrap();
    assert_eq!(calls.len(), 1);
}

#[test]
fn update_errors() {
    assert_eq!(update("u", "", "x", "", "", true).err(), Some("Connection name cannot be empty.".to_string()));
    assert_eq!(
        update("u", "n", "x y", "", "", true).err(),
        Some("APN may only contain lowercase letters, digits, dots and hyphens.".to_string())
    );
}

#[test]
fn activate_and_delete_calls() {
    let c = activate("abc");
    assert_eq!(args(&c), vec!["connection", "up", "uuid", "abc"]);
    assert!(c.must_succeed);
    let c = delete("abc");
    assert_eq!(args(&c), vec!["connection", "delete", "uuid", "abc"]);
}

const LISTING: &str = "Wired:1111:802-3-ethernet:yes\nMCI:2222:gsm:yes\nbroken:3333\nIrancell:4444:gsm:NO\n";

#[test]
fn gsm_rows_keeps_gsm_connections_only() {
    let rows = gsm_rows(LISTING);
    assert_eq!(rows.len(), 2);
    assert_eq!((rows[0].name.as_str(), rows[0].uuid.as_str(), rows[0].autoconnect), ("MCI", "2222", true));
    assert_eq!((rows[1].name.as_str(), rows[1].uuid.as_str(), rows[1].autoconnect), ("Irancell", "4444", false));
}

#[test]
fn list_joins_details_and_active_state() {
    let details = vec!["mcinet\nme\n".to_string(), " mtnirancell \n".to_string()];
    let profiles = list(LISTING, " 4444 \n9999\n", &details);
    assert_eq!(profiles.len(), 2);
    assert_eq!(profiles[0].name, "MCI");
    assert_eq!(profiles[0].apn, "mcinet");
    assert_eq!(profiles[0].username, "me");
    assert!(profiles[0].autoconnect);
    assert!(!profiles[0].active);
    assert_eq!(profiles[1].apn, "mtnirancell");
    assert_eq!(profiles[1].username, "");
    assert!(profiles[1].active);
}

#[test]
fn list_with_missing_details() {
    let profiles = list(LISTING, "", &[]);
    assert_eq!(profiles.len(), 2);
    assert_eq!(profiles[0].apn, "");
    assert!(!profiles[1].active);
}

#[test]
fn nmcli_failure_text() {
    assert_eq!(nmcli_failure("  Error: unknown connection \n"), "Error: unknown connection");
    assert_eq!(nmcli_failure(" \n"), "NetworkManager rejected the APN operation.");
}
