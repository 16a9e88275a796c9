//! Tests of the priority decoder and the SYSLOG record parser.

use squiflog::priority::Priority;
use squiflog::syslog::Message;

#[test]
fn priority_decoding_is_total() {
    for code in 0u8..=191 {
        let p = Priority::from_code(code);
        assert_eq!(p.facility, code / 8);
        assert_eq!(p.severity, code % 8);
        assert!(!p.facility().is_empty());
        assert!(!p.severity().is_empty());
    }
}

#[test]
fn priority_30_is_daemon_info() {
    let p = Priority::from_code(30);
    assert_eq!(p.facility, 3);
    assert_eq!(p.severity, 6);
    assert_eq!(p.facility(), "daemon");
    assert_eq!(p.severity(), "info");
}

#[test]
fn priority_0_is_kernel_emergency() {
    let p = Priority::from_code(0);
    assert_eq!(p.facility(), "kernel");
    assert_eq!(p.severity(), "emergency");
}

#[test]
fn parses_full_header() {
    let m = Message::from_text(
        "<30>1 2020-02-13T00:51:39.527825Z docker-desktop 8b1089798cf8 1481 8b1089798cf8 - hello world",
    );
    assert_eq!(m.priority, Priority { facility: 3, severity: 6 });
    assert_eq!(m.timestamp.as_deref(), Some("2020-02-13T00:51:39.527825Z"));
    assert_eq!(m.hostname.as_deref(), Some("docker-desktop"));
    assert_eq!(m.app_name.as_deref(), Some("8b1089798cf8"));
    assert_eq!(m.proc_id.as_deref(), Some("1481"));
    assert_eq!(m.message_id.as_deref(), Some("8b1089798cf8"));
    assert!(m.structured_data.is_none());
    assert_eq!(m.message.as_deref(), Some("hello world"));
}

#[test]
fn timestamp_is_normalized_to_utc_z() {
    let m = Message::from_text("<30>1 2020-02-13T00:51:39.527825+00:00 host app 1 msgid - body");
    assert_eq!(m.timestamp.as_deref(), Some("2020-02-13T00:51:39.527825Z"));
}

#[test]
fn malformed_timestamp_degrades_to_none() {
    let m = Message::from_text("<30>1 yesterday host app 1 msgid - body");
    assert!(m.timestamp.is_none());
    assert_eq!(m.hostname.as_deref(), Some("host"));
}

#[test]
fn nil_fields_are_none() {
    let m = Message::from_text("<30>1 - - - - - -");
    assert!(m.timestamp.is_none());
    assert!(m.hostname.is_none());
    assert!(m.app_name.is_none());
    assert!(m.proc_id.is_none());
    assert!(m.message_id.is_none());
    assert!(m.structured_data.is_none());
    assert!(m.message.is_none());
}

#[test]
fn malformed_priority_degrades_to_default() {
    // out of range: 192 and above is not a legal priority code
    let m = Message::from_text("<999>1 - host app 1 msgid - body");
    assert_eq!(m.priority, Priority { facility: 1, severity: 5 });
    assert_eq!(m.priority.facility(), "user");
    assert_eq!(m.priority.severity(), "notice");
}

#[test]
fn garbage_record_still_yields_a_message() {
    let m = Message::from_text("hello");
    assert_eq!(m.priority, Priority { facility: 1, severity: 5 });
    assert!(m.hostname.is_none());
    assert!(m.message.is_none());
}

#[test]
fn structured_data_element_with_no_params() {
    let m = Message::from_text("<30>1 - host app 1 msgid [onlyid] body");
    let sd = m.structured_data.unwrap();
    assert_eq!(sd.len(), 1);
    assert_eq!(sd[0].id, "onlyid");
    assert!(sd[0].params.is_empty());
    assert_eq!(m.message.as_deref(), Some("body"));
}

#[test]
fn structured_data_values_are_unescaped() {
    let m = Message::from_text(
        "<30>1 - host app 1 msgid [id k=\"a\\\"b\\\\c\\]d\"] body",
    );
    let sd = m.structured_data.unwrap();
    assert_eq!(sd[0].params[0].0, "k");
    assert_eq!(sd[0].params[0].1, "a\"b\\c]d");
}

#[test]
fn multiple_structured_data_elements() {
    let m = Message::from_text("<30>1 - host app 1 msgid [one a=\"1\"][two b=\"2\"] body");
    let sd = m.structured_data.unwrap();
    assert_eq!(sd.len(), 2);
    assert_eq!(sd[0].id, "one");
    assert_eq!(sd[1].id, "two");
    assert_eq!(m.message.as_deref(), Some("body"));
}

#[test]
fn malformed_element_is_dropped_parsing_continues() {
    let m = Message::from_text("<30>1 - host app 1 msgid [bad=oops][good a=\"1\"] body");
    let sd = m.structured_data.unwrap();
    assert_eq!(sd.len(), 1);
    assert_eq!(sd[0].id, "good");
    assert_eq!(m.message.as_deref(), Some("body"));
}

#[test]
fn unterminated_element_yields_empty_list() {
    let m = Message::from_text("<30>1 - host app 1 msgid [never a=\"unterminated");
    let sd = m.structured_data.unwrap();
    assert!(sd.is_empty());
    assert!(m.message.is_none());
}

#[test]
fn missing_message_body_is_none() {
    let m = Message::from_text("<30>1 - host app 1 msgid -");
    assert!(m.message.is_none());
}
