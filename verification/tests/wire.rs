use matter_stack::json::{Json, Number};
use matter_stack::wire::envelope::{CommandMessage, ErrorResult, EventMessage, SuccessResult};
use matter_stack::wire::error::ServerErrorCode;
use matter_stack::wire::node::{
    CommissionableNodeData, IcdState, MatterFabricData, MatterNodeData, MatterNodeEvent,
};
use matter_stack::wire::server_info::{
    ServerInfoMessage, MIN_SUPPORTED_SCHEMA_VERSION, SCHEMA_VERSION,
};

fn num(n: u64) -> Json {
    Json::Number(Number::PosInt(n))
}

fn text(s: &str) -> Json {
    Json::Text(s.to_string())
}

fn object(entries: Vec<(&str, Json)>) -> Json {
    Json::Object(entries.into_iter().map(|(k, v)| (k.to_string(), v)).collect())
}

/// JSON text, entries in the order they stand in.
fn render(v: &Json) -> String {
    match v {
        Json::Null => "null".to_string(),
        Json::Bool(b) => b.to_string(),
        Json::Number(Number::PosInt(n)) => n.to_string(),
        Json::Number(Number::NegInt(n)) => n.to_string(),
        Json::Number(Number::Float(bits)) => f64::from_bits(*bits).to_string(),
        Json::Text(s) => serde_json::to_string(s).unwrap(),
        Json::Array(items) => {
            let items: Vec<String> = items.iter().map(render).collect();
            format!("[{}]", items.join(","))
        }
        Json::Object(entries) => {
            let entries: Vec<String> = entries
                .iter()
                .map(|(k, v)| format!("{}:{}", serde_json::to_string(k).unwrap(), render(v)))
                .collect();
            format!("{{{}}}", entries.join(","))
        }
    }
}

/// A parsed JSON text as a value of the library.
fn parse(s: &str) -> Json {
    fn convert(v: &serde_json::Value) -> Json {
        match v {
            serde_json::Value::Null => Json::Null,
            serde_json::Value::Bool(b) => Json::Bool(*b),
            serde_json::Value::Number(n) => Json::Number(match (n.as_u64(), n.as_i64()) {
                (Some(u), _) => Number::PosInt(u),
                (None, Some(i)) => Number::NegInt(i),
                (None, None) => Number::Float(n.as_f64().unwrap().to_bits()),
            }),
            serde_json::Value::String(s) => Json::Text(s.clone()),
            serde_json::Value::Array(items) => Json::Array(items.iter().map(convert).collect()),
            serde_json::Value::Object(entries) => {
                Json::Object(entries.iter().map(|(k, v)| (k.clone(), convert(v))).collect())
            }
        }
    }
    convert(&serde_json::from_str(s).unwrap())
}

#[test]
fn codes_match_python_matter_server() {
    assert_eq!(ServerErrorCode::UnknownError.code(), 0);
    assert_eq!(ServerErrorCode::NodeCommissionFailed.code(), 1);
    assert_eq!(ServerErrorCode::NodeInterviewFailed.code(), 2);
    assert_eq!(ServerErrorCode::NodeNotReady.code(), 3);
    assert_eq!(ServerErrorCode::NodeNotResolving.code(), 4);
    assert_eq!(ServerErrorCode::NodeNotExists.code(), 5);
    assert_eq!(ServerErrorCode::VersionMismatch.code(), 6);
    assert_eq!(ServerErrorCode::SdkStackError.code(), 7);
    assert_eq!(ServerErrorCode::InvalidArguments.code(), 8);
    assert_eq!(ServerErrorCode::InvalidCommand.code(), 9);
    assert_eq!(ServerErrorCode::UpdateCheckError.code(), 10);
    assert_eq!(ServerErrorCode::UpdateError.code(), 11);
    assert_eq!(ServerErrorCode::IcdMultiAdmin.code(), 100);
    assert_eq!(ServerErrorCode::OtaUploadError.code(), 101);
}

#[test]
fn parses_command_with_and_without_args() {
    let m = CommandMessage::from_json(parse(
        r#"{"message_id":"1","command":"get_node","args":{"node_id":42}}"#,
    ))
    .unwrap();
    assert_eq!(m.message_id, "1");
    assert_eq!(m.command, "get_node");
    assert_eq!(Json::Object(m.args).get("node_id"), Some(&num(42)));

    let m = CommandMessage::from_json(parse(r#"{"message_id":"2","command":"server_info"}"#))
        .unwrap();
    assert!(m.args.is_empty());

    // The parts may also be listed in order.
    let m = CommandMessage::from_json(parse(r#"["3","get_node",{"node_id":7}]"#)).unwrap();
    assert_eq!((m.message_id.as_str(), m.command.as_str()), ("3", "get_node"));
    assert_eq!(m.args, vec![("node_id".to_string(), num(7))]);
    let m = CommandMessage::from_json(parse(r#"["4","server_info"]"#)).unwrap();
    assert!(m.args.is_empty());
}

#[test]
fn what_is_no_command_is_not_taken_for_one() {
    for bad in [
        r#"{"command":"server_info"}"#,
        r#"{"message_id":"2"}"#,
        r#"{"message_id":2,"command":"server_info"}"#,
        r#"{"message_id":"2","command":"server_info","args":null}"#,
        r#"{"message_id":"2","command":"server_info","args":[]}"#,
        r#"["2"]"#,
        r#"["2","server_info",null]"#,
        r#"["2","server_info",{},1]"#,
        r#""server_info""#,
    ] {
        assert!(CommandMessage::from_json(parse(bad)).is_none(), "{bad}");
    }
}

/// A part that is named twice is no request; of two arguments under one name, at
/// any depth, the last counts.
#[test]
fn repeated_keys_of_a_request() {
    let request = |extra: Vec<(&str, Json)>| {
        let mut entries = vec![("message_id", text("1")), ("command", text("get_node"))];
        entries.extend(extra);
        CommandMessage::from_json(object(entries))
    };
    assert!(request(vec![]).is_some());
    assert!(request(vec![("message_id", text("1"))]).is_none());
    assert!(request(vec![("command", text("get_node"))]).is_none());
    assert!(request(vec![("args", object(vec![])), ("args", object(vec![]))]).is_none());
    // What is not a part of a request is not looked at.
    assert!(request(vec![("x", num(1)), ("x", num(2))]).is_some());

    let nested = object(vec![("n", num(1)), ("n", num(2))]);
    let args = object(vec![("a", num(1)), ("b", nested), ("a", num(3))]);
    let m = request(vec![("args", args)]).unwrap();
    let read = parse(r#"{"a":1,"b":{"n":1,"n":2},"a":3}"#);
    assert_eq!(Json::Object(m.clone().args), read);
    assert_eq!(m.args[0], ("a".to_string(), num(3)));
    assert_eq!(m.args[1].1, object(vec![("n", num(2))]));
}

#[test]
fn success_result_shape() {
    let s = SuccessResult { message_id: "1".into(), result: Json::Array(Vec::new()) };
    assert_eq!(render(&s.to_json()), r#"{"message_id":"1","result":[]}"#);
}

#[test]
fn error_result_shape() {
    let e = ErrorResult::new("1".into(), ServerErrorCode::InvalidCommand, "nope".into());
    assert_eq!(render(&e.to_json()), r#"{"message_id":"1","error_code":9,"details":"nope"}"#);
}

#[test]
fn event_shape_and_big_u64_stays_numeric() {
    // node ids can exceed 2^53; they must serialize as unquoted numbers.
    let ev = EventMessage {
        event: "node_added".into(),
        data: object(vec![("node_id", num(18446744073709551615u64))]),
    };
    assert_eq!(
        render(&ev.to_json()),
        r#"{"event":"node_added","data":{"node_id":18446744073709551615}}"#
    );
}

#[test]
fn matter_node_data_shape() {
    let n = MatterNodeData {
        node_id: 4,
        date_commissioned: "2026-08-13T10:15:42.123000".into(),
        last_interview: "2026-08-13T10:15:42.123000".into(),
        interview_version: 6,
        available: true,
        is_bridge: false,
        attributes: vec![
            ("0/40/2".to_string(), num(65521)),
            ("1/6/0".to_string(), Json::Bool(true)),
        ],
        attribute_subscriptions: vec![],
        matter_version: None,
    };
    let v = n.to_json();
    assert_eq!(v.get("node_id"), Some(&num(4)));
    assert_eq!(v.get("interview_version"), Some(&num(6)));
    assert_eq!(v.get("attributes").and_then(|a| a.get("1/6/0")), Some(&Json::Bool(true)));
    assert_eq!(v.get("attribute_subscriptions"), Some(&Json::Array(Vec::new())));
    assert!(v.get("matter_version").is_none());
}

#[test]
fn node_event_shape() {
    let e = MatterNodeEvent {
        node_id: 1,
        endpoint_id: 1,
        cluster_id: 59,
        event_id: 1,
        event_number: 12345,
        priority: 1,
        timestamp: 1704067200000,
        timestamp_type: 1,
        data: object(vec![("newPosition", num(1))]),
    };
    let v = e.to_json();
    assert_eq!(v.get("event_number"), Some(&num(12345)));
    assert_eq!(v.get("data").and_then(|d| d.get("newPosition")), Some(&num(1)));
}

#[test]
fn icd_state_not_registered_default() {
    let v = IcdState::not_registered().to_json();
    assert_eq!(v.get("supported"), Some(&Json::Bool(false)));
    assert_eq!(v.get("registered"), Some(&Json::Bool(false)));
    assert_eq!(v.get("operating_mode"), Some(&Json::Null));
    assert_eq!(v.get("next_expected_checkin"), Some(&Json::Null));
}

#[test]
fn fabric_data_skips_absent_vendor_name() {
    let f = MatterFabricData {
        fabric_id: 1,
        vendor_id: 0xFFF1,
        fabric_index: 1,
        fabric_label: Some("HomeAssistant".into()),
        vendor_name: None,
    };
    let v = f.to_json();
    assert!(v.get("vendor_name").is_none());
    assert_eq!(v.get("fabric_label"), Some(&text("HomeAssistant")));
}

#[test]
fn serializes_like_node_server_and_skips_absent_optionals() {
    let info = ServerInfoMessage {
        fabric_id: 1,
        compressed_fabric_id: 9876543210,
        fabric_index: None,
        schema_version: SCHEMA_VERSION,
        min_supported_schema_version: MIN_SUPPORTED_SCHEMA_VERSION,
        sdk_version: "matter-rs-server/0.1.0 (rs-matter/03bc8f2)".into(),
        wifi_credentials_set: false,
        wifi_ssid: None,
        thread_credentials_set: false,
        bluetooth_enabled: false,
        ble_proxy_enabled: None,
        controller_node_id: None,
    };
    let v = info.to_json();
    assert_eq!(v.get("schema_version"), Some(&num(13)));
    assert_eq!(v.get("min_supported_schema_version"), Some(&num(11)));
    assert_eq!(v.get("compressed_fabric_id"), Some(&num(9876543210u64)));
    assert!(v.get("fabric_index").is_none());
    assert!(v.get("wifi_ssid").is_none());
}

#[test]
fn a_commissionable_node_keeps_its_absent_fields_apart() {
    let n = CommissionableNodeData {
        instance_name: Some("000000000000ABCD".into()),
        host_name: "host".into(),
        port: Some(5540),
        long_discriminator: None,
        vendor_id: -1,
        product_id: 0x8001,
        commissioning_mode: 1,
        device_type: None,
        device_name: None,
        pairing_instruction: None,
        pairing_hint: 33,
        mrp_retry_interval_idle: None,
        mrp_retry_interval_active: None,
        supports_tcp: false,
        addresses: vec!["fe80::1".into()],
        rotating_id: None,
    };
    let v = n.to_json();
    assert_eq!(v.get("port"), Some(&num(5540)));
    assert_eq!(v.get("vendor_id"), Some(&Json::Number(Number::NegInt(-1))));
    assert_eq!(v.get("addresses"), Some(&Json::Array(vec![text("fe80::1")])));
}
