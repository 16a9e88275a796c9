//! End-to-end tests of the SYSLOG-to-CLEF transcoding: the mapper on
//! constructed messages, and the whole pipeline on raw records.

use squiflog::clef;
use squiflog::fields::FieldValue;
use squiflog::priority::Priority;
use squiflog::syslog;
use squiflog::{build, Config};

fn s(x: &str) -> serde_json::Value {
    serde_json::Value::String(x.to_string())
}

fn single(k: &str, v: &str) -> serde_json::Value {
    let mut o = serde_json::Map::new();
    o.insert(k.to_string(), s(v));
    serde_json::Value::Object(o)
}

fn obj(pairs: Vec<(&str, serde_json::Value)>) -> serde_json::Value {
    let mut o = serde_json::Map::new();
    for (k, v) in pairs {
        o.insert(k.to_string(), v);
    }
    serde_json::Value::Object(o)
}

fn field_value_to_json(v: &FieldValue) -> serde_json::Value {
    match v {
        FieldValue::Text(t) => s(t),
        FieldValue::ParamObjects(ps) => serde_json::Value::Array(
            ps.iter().map(|(k, val)| single(k, val)).collect(),
        ),
        FieldValue::Embedded(e) => e.clone(),
    }
}

fn clef_to_json(m: &clef::Message) -> serde_json::Value {
    let mut o = serde_json::Map::new();
    o.insert("@t".to_string(), s(&m.timestamp));
    o.insert("@l".to_string(), s(&m.level));
    if let Some(msg) = &m.message {
        o.insert("@m".to_string(), s(msg));
    }
    if let Some(t) = &m.message_template {
        o.insert("@mt".to_string(), s(t));
    }
    if let Some(x) = &m.exception {
        o.insert("@x".to_string(), s(x));
    }
    for (k, v) in &m.additional {
        o.insert(k.clone(), field_value_to_json(v));
    }
    serde_json::Value::Object(o)
}

fn scenario_message() -> syslog::Message {
    syslog::Message {
        priority: Priority { facility: 3, severity: 6 },
        timestamp: Some("2020-02-13T00:51:39.527825Z".to_string()),
        hostname: Some("docker-desktop".to_string()),
        app_name: Some("8b1089798cf8".to_string()),
        proc_id: Some("1481".to_string()),
        message_id: Some("8b1089798cf8".to_string()),
        structured_data: None,
        message: Some("hello world".to_string()),
    }
}

#[test]
fn syslog_to_clef() {
    let expected = obj(vec![
        ("@l", s("info")),
        ("@m", s("hello world")),
        ("@t", s("2020-02-13T00:51:39.527825Z")),
        ("facility", s("daemon")),
        ("hostname", s("docker-desktop")),
        ("app_name", s("8b1089798cf8")),
        ("proc_id", s("1481")),
        ("message_id", s("8b1089798cf8")),
    ]);

    let syslog = scenario_message();
    let clef = syslog.into_clef();
    let actual = clef_to_json(&clef);

    assert_eq!(expected, actual);
}

#[test]
fn syslog_to_clef_with_structured_data() {
    let expected = obj(vec![
        ("@l", s("info")),
        ("@m", s("hello world")),
        ("@t", s("2020-02-13T00:51:39.527825Z")),
        ("facility", s("daemon")),
        ("hostname", s("docker-desktop")),
        ("app_name", s("8b1089798cf8")),
        ("proc_id", s("1481")),
        ("message_id", s("8b1089798cf8")),
        (
            "sdid1234",
            serde_json::Value::Array(vec![single("hello", "world"), single("event", "value")]),
        ),
    ]);

    let mut sd_params = vec![];
    sd_params.push(("hello".to_string(), "world".to_string()));
    sd_params.push(("event".to_string(), "value".to_string()));

    let mut syslog = scenario_message();
    syslog.structured_data = Some(vec![syslog::StructuredDataElement {
        id: "sdid1234".to_string(),
        params: sd_params,
    }]);

    let clef = syslog.into_clef();
    let actual = clef_to_json(&clef);

    assert_eq!(expected, actual);
}

#[test]
fn syslog_to_clef_with_structured_data_with_duplicated_params() {
    let expected = obj(vec![
        ("@l", s("info")),
        ("@m", s("hello world")),
        ("@t", s("2020-02-13T00:51:39.527825Z")),
        ("facility", s("daemon")),
        ("hostname", s("docker-desktop")),
        ("app_name", s("8b1089798cf8")),
        ("proc_id", s("1481")),
        ("message_id", s("8b1089798cf8")),
        (
            "sdid1234",
            serde_json::Value::Array(vec![
                single("ip", "192.0.2.1"),
                single("ip", "192.0.2.129"),
            ]),
        ),
    ]);

    let mut sd_params = vec![];
    sd_params.push(("ip".to_string(), "192.0.2.1".to_string()));
    sd_params.push(("ip".to_string(), "192.0.2.129".to_string()));

    let mut syslog = scenario_message();
    syslog.structured_data = Some(vec![syslog::StructuredDataElement {
        id: "sdid1234".to_string(),
        params: sd_params,
    }]);

    let clef = syslog.into_clef();
    let actual = clef_to_json(&clef);

    assert_eq!(expected, actual);
}

#[test]
fn raw_record_end_to_end() {
    let record = "<30>1 2020-02-13T00:51:39.527825Z docker-desktop 8b1089798cf8 1481 8b1089798cf8 - hello world";
    let expected = obj(vec![
        ("@l", s("info")),
        ("@m", s("hello world")),
        ("@t", s("2020-02-13T00:51:39.527825Z")),
        ("facility", s("daemon")),
        ("hostname", s("docker-desktop")),
        ("app_name", s("8b1089798cf8")),
        ("proc_id", s("1481")),
        ("message_id", s("8b1089798cf8")),
    ]);

    let data = build(Config::default());
    let clef = data.transcode(record);
    assert_eq!(expected, clef_to_json(&clef));
}

#[test]
fn raw_record_with_structured_data_end_to_end() {
    let record = "<30>1 2020-02-13T00:51:39.527825Z docker-desktop 8b1089798cf8 1481 8b1089798cf8 [sdid1234 hello=\"world\" event=\"value\"] hello world";
    let expected = obj(vec![
        ("@l", s("info")),
        ("@m", s("hello world")),
        ("@t", s("2020-02-13T00:51:39.527825Z")),
        ("facility", s("daemon")),
        ("hostname", s("docker-desktop")),
        ("app_name", s("8b1089798cf8")),
        ("proc_id", s("1481")),
        ("message_id", s("8b1089798cf8")),
        (
            "sdid1234",
            serde_json::Value::Array(vec![single("hello", "world"), single("event", "value")]),
        ),
    ]);

    let data = build(Config::default());
    let clef = data.transcode(record);
    assert_eq!(expected, clef_to_json(&clef));
}

#[test]
fn raw_record_with_duplicate_params_end_to_end() {
    let record = "<30>1 2020-02-13T00:51:39.527825Z docker-desktop 8b1089798cf8 1481 8b1089798cf8 [sdid1234 ip=\"192.0.2.1\" ip=\"192.0.2.129\"] hello world";
    let expected = obj(vec![
        ("@l", s("info")),
        ("@m", s("hello world")),
        ("@t", s("2020-02-13T00:51:39.527825Z")),
        ("facility", s("daemon")),
        ("hostname", s("docker-desktop")),
        ("app_name", s("8b1089798cf8")),
        ("proc_id", s("1481")),
        ("message_id", s("8b1089798cf8")),
        (
            "sdid1234",
            serde_json::Value::Array(vec![
                single("ip", "192.0.2.1"),
                single("ip", "192.0.2.129"),
            ]),
        ),
    ]);

    let data = build(Config::default());
    let clef = data.transcode(record);
    assert_eq!(expected, clef_to_json(&clef));
}

#[test]
fn header_conflict_gets_double_underscore() {
    let mut syslog = scenario_message();
    syslog.structured_data = Some(vec![syslog::StructuredDataElement {
        id: "hostname".to_string(),
        params: vec![("a".to_string(), "b".to_string())],
    }]);

    let clef = syslog.into_clef();
    let json = clef_to_json(&clef);
    let fields = json.as_object().unwrap();

    assert_eq!(fields["hostname"], s("docker-desktop"));
    assert_eq!(
        fields["__hostname"],
        serde_json::Value::Array(vec![single("a", "b")])
    );
}

#[test]
fn triple_conflict_chains_prefixes() {
    let mut syslog = scenario_message();
    syslog.structured_data = Some(vec![syslog::StructuredDataElement {
        id: "hostname".to_string(),
        params: vec![("a".to_string(), "b".to_string())],
    }]);
    syslog.message = Some("{\"hostname\":\"embedded\"}".to_string());

    let clef = syslog.into_clef();
    let json = clef_to_json(&clef);
    let fields = json.as_object().unwrap();

    assert_eq!(fields["hostname"], s("docker-desktop"));
    assert_eq!(
        fields["__hostname"],
        serde_json::Value::Array(vec![single("a", "b")])
    );
    assert_eq!(fields["___hostname"], s("embedded"));
    assert!(fields.get("@m").is_none());
}

#[test]
fn absent_header_fields_are_omitted() {
    let mut syslog = scenario_message();
    syslog.hostname = None;
    syslog.proc_id = None;

    let clef = syslog.into_clef();
    let json = clef_to_json(&clef);
    let fields = json.as_object().unwrap();

    assert!(fields.get("hostname").is_none());
    assert!(fields.get("proc_id").is_none());
    assert_eq!(fields["app_name"], s("8b1089798cf8"));
    assert_eq!(fields["facility"], s("daemon"));
}

#[test]
fn missing_timestamp_gets_processing_time() {
    let mut syslog = scenario_message();
    syslog.timestamp = None;

    let clef = syslog.into_clef();
    assert!(!clef.timestamp.is_empty());
    // the substituted timestamp is itself valid RFC 3339
    assert!(chrono::DateTime::parse_from_rfc3339(&clef.timestamp).is_ok());
}

#[test]
fn embedded_json_body_is_extracted() {
    let mut syslog = scenario_message();
    syslog.message = Some("{\"user\":\"jane\",\"attempts\":3}".to_string());

    let clef = syslog.into_clef();
    let json = clef_to_json(&clef);
    let fields = json.as_object().unwrap();

    assert!(fields.get("@m").is_none());
    assert_eq!(fields["user"], s("jane"));
    assert_eq!(fields["attempts"], serde_json::Value::from(3u64));
    assert_eq!(fields["hostname"], s("docker-desktop"));
}

#[test]
fn plain_text_body_is_kept_as_message() {
    let mut syslog = scenario_message();
    syslog.message = Some("not { json".to_string());

    let clef = syslog.into_clef();
    assert_eq!(clef.message.as_deref(), Some("not { json"));
}

#[test]
fn reserved_key_is_escaped() {
    let mut syslog = scenario_message();
    syslog.structured_data = Some(vec![syslog::StructuredDataElement {
        id: "@t".to_string(),
        params: vec![("a".to_string(), "b".to_string())],
    }]);

    let clef = syslog.into_clef();
    let json = clef_to_json(&clef);
    let fields = json.as_object().unwrap();

    assert_eq!(fields["@t"], s("2020-02-13T00:51:39.527825Z"));
    assert_eq!(
        fields["__@t"],
        serde_json::Value::Array(vec![single("a", "b")])
    );
}
