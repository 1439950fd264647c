use modemdeck::communications::{
    call_action_allowed, newest_first, required, sms_to_send, valid_object_path, CallInfo, SmsMessage,
};

fn sms(path: &str, ts: &str) -> SmsMessage {
    SmsMessage { path: path.into(), number: "+98".into(), text: "hi".into(), timestamp: ts.into(), state: 3 }
}

fn call(state: i32, direction: i32) -> CallInfo {
    CallInfo { path: "/c/1".into(), number: "123".into(), state, direction, audio_port: String::new() }
}

#[test]
fn sms_state_labels() {
    let labels: Vec<&str> = (0..7).map(|s| SmsMessage { state: s, ..sms("/s", "") }.state_label()).collect();
    assert_eq!(labels, vec!["Unknown", "Stored", "Receiving", "Received", "Sending", "Sent", "Unknown"]);
}

#[test]
fn call_state_and_direction_labels() {
    let labels: Vec<&str> = (0..9).map(|s| call(s, 0).state_label()).collect();
    assert_eq!(
        labels,
        vec!["Unknown", "Dialing", "Ringing out", "Ringing in", "Active", "Held", "Waiting", "Terminated", "Unknown"]
    );
    assert_eq!(call(0, 1).direction_label(), "Incoming");
    assert_eq!(call(0, 2).direction_label(), "Outgoing");
    assert_eq!(call(0, 3).direction_label(), "Unknown");
    assert_eq!(call(0, -1).direction_label(), "Unknown");
}

#[test]
fn answer_and_hangup_rules() {
    assert!(call(3, 1).can_answer());
    assert!(call(6, 1).can_answer());
    assert!(!call(4, 1).can_answer());
    assert!(call(4, 1).can_hangup());
    assert!(!call(7, 1).can_hangup());
}

#[test]
fn required_trims_or_refuses() {
    assert_eq!(required("  *140# ", "Enter a USSD code."), Ok("*140#".to_string()));
    assert_eq!(required(" \t", "Enter a USSD code."), Err("Enter a USSD code.".to_string()));
}

#[test]
fn sms_to_send_checks_number_then_text() {
    assert_eq!(sms_to_send(" +98912 ", " hello "), Ok(("+98912".to_string(), "hello".to_string())));
    assert_eq!(sms_to_send("  ", ""), Err("Enter a destination number.".to_string()));
    assert_eq!(sms_to_send("123", "  "), Err("Message text is empty.".to_string()));
}

#[test]
fn only_accept_and_hangup_are_call_actions() {
    assert!(call_action_allowed("Accept"));
    assert!(call_action_allowed("Hangup"));
    assert!(!call_action_allowed("accept"));
    assert!(!call_action_allowed("Deflect"));
}

#[test]
fn inbox_is_newest_first_and_stable() {
    let v = vec![
        sms("/a", "2024-01-01T10:00:00"),
        sms("/b", "2024-03-01T10:00:00"),
        sms("/c", "2024-01-01T10:00:00"),
        sms("/d", ""),
        sms("/e", "2024-02-01T10:00:00"),
    ];
    let sorted = newest_first(v);
    let paths: Vec<&str> = sorted.iter().map(|m| m.path.as_str()).collect();
    assert_eq!(paths, vec!["/b", "/e", "/a", "/c", "/d"]);
}

#[test]
fn inbox_order_matches_a_stable_descending_sort() {
    let stamps = ["b", "a", "c", "b", "", "c", "ab", "a"];
    let v: Vec<SmsMessage> = stamps.iter().enumerate().map(|(i, t)| sms(&format!("/{i}"), t)).collect();
    let mut expected = v.clone();
    expected.sort_by(|a, b| b.timestamp.cmp(&a.timestamp));
    let got = newest_first(v);
    let a: Vec<&str> = got.iter().map(|m| m.path.as_str()).collect();
    let b: Vec<&str> = expected.iter().map(|m| m.path.as_str()).collect();
    assert_eq!(a, b);
}

#[test]
fn object_path_grammar() {
    assert!(valid_object_path("/"));
    assert!(valid_object_path("/org/freedesktop/ModemManager1/SMS/3"));
    assert!(!valid_object_path(""));
    assert!(!valid_object_path("org/x"));
    assert!(!valid_object_path("/org/"));
    assert!(!valid_object_path("/org//x"));
    assert!(!valid_object_path("/org/x-y"));
}
