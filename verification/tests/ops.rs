use matter_stack::ctx::{map_err, StackCtx, BUSY_MESSAGE};
use matter_stack::error::{invalid, ErrorCode, SdkError};
use matter_stack::idl::{find_cluster, Attr, Cluster, Command, Field, StructDef};
use matter_stack::json::{Json, Number};
use matter_stack::ops::addr::ip_of;
use matter_stack::ops::commission::{
    case_phase, code_kind, commission, invalid_ip_addr, noc_fabric_id, parse_pairing_code,
    pase_phase, resolve_target, CodeKind, CommissionableFilter, TargetPlan,
};
use matter_stack::ops::discovery::{
    after_query, browse_one, browse_step, budget_millis, deadline_after, remaining_budget, report_sweep_end,
    sweep_filter, Sweep, SweepEnd, SweepStep, MAX_SWEEP,
};
use matter_stack::ops::fabrics::{
    check_noc_response, fabric_label_args, fabrics_request, parse_fabrics, push_fabric_label,
    remove_fabric_args,
    NO_FABRICS,
};
use matter_stack::ops::interact::{
    command_failed, encode_attribute, encode_command_args, interview_request, normalize_timed,
    prepare_invoke, read_paths, read_request, to_attr_path, write_status, ImStatus, InvokeOutcome,
    InvokeResponse, WriteStatus, DEFAULT_TIMED_MS,
};
use matter_stack::ops::window::{
    basic_info_vid_pid, draw_passcode, generate_window_secrets, passcode_is_legal, vid_pid_from, vid_pid_request,
    window_args, MAX_PASSCODE, SALT_LEN,
};
use matter_stack::reports::AttrPath;
use matter_stack::stack_api::{
    AttributePathSpec, PaseTarget, StackError, StackErrorKind,
};
use matter_stack::tlv::{Member, Tag, Tlv};
use matter_stack::tlv_json::tlv_to_json;

fn num(n: u64) -> Json {
    Json::Number(Number::PosInt(n))
}

fn text(s: &str) -> Json {
    Json::Text(s.to_string())
}

fn object(entries: Vec<(&str, Json)>) -> Json {
    Json::Object(entries.into_iter().map(|(k, v)| (k.to_string(), v)).collect())
}

fn sdk(code: ErrorCode, text: &str) -> SdkError {
    SdkError { code, text: text.to_string() }
}

fn field(code: u32, name: &str, ty: &str) -> Field {
    Field { code, name: name.to_string(), ty: ty.to_string(), is_list: false }
}

fn command(code: u32, name: &str, input: Option<&str>, is_timed: bool) -> Command {
    Command {
        code,
        name: name.to_string(),
        input: input.map(str::to_string),
        output: None,
        is_timed,
    }
}

fn cluster_named(id: u32, name: &str) -> Cluster {
    Cluster {
        id,
        name: name.to_string(),
        attrs: Vec::new(),
        commands: Vec::new(),
        events: Vec::new(),
        structs: Vec::new(),
    }
}

fn clusters() -> Vec<Cluster> {
    let mut on_off = cluster_named(6, "OnOff");
    on_off.commands.push(command(2, "toggle", None, false));
    on_off.attrs.push(Attr { code: 0x4001, ty: "int16u".to_string(), is_list: false });

    let mut level = cluster_named(8, "LevelControl");
    level.commands.push(command(0, "moveToLevel", Some("MoveToLevelRequest"), false));
    level.structs.push(StructDef {
        name: "MoveToLevelRequest".to_string(),
        fields: vec![
            field(0, "level", "int8u"),
            field(1, "transitionTime", "int16u"),
            field(2, "optionsMask", "OptionsBitmap"),
            field(3, "optionsOverride", "OptionsBitmap"),
        ],
    });

    let mut admin = cluster_named(60, "AdministratorCommissioning");
    admin.commands.push(command(0, "openCommissioningWindow", None, true));

    let mut creds = cluster_named(62, "OperationalCredentials");
    creds.structs.push(StructDef {
        name: "NOCResponse".to_string(),
        fields: vec![
            field(0, "statusCode", "NodeOperationalCertStatusEnum"),
            field(1, "fabricIndex", "fabric_idx"),
            field(2, "debugText", "char_string"),
        ],
    });
    let mut remove = command(10, "removeFabric", None, false);
    remove.output = Some("NOCResponse".to_string());
    creds.commands.push(remove);

    vec![on_off, level, admin, creds]
}

// ------------------------------------------------------------------- addresses

#[test]
fn ipv4_with_port_loses_only_the_port() {
    assert_eq!(ip_of("192.168.1.50:5540"), "192.168.1.50");
}

#[test]
fn bracketed_ipv6_keeps_its_scope_id() {
    assert_eq!(ip_of("[fe80::1%2]:5540"), "fe80::1%2");
    assert_eq!(ip_of("[fe80::1%eth0]:5540"), "fe80::1%eth0");
    assert_eq!(ip_of("[2001:db8::1]:5540"), "2001:db8::1");
    // Bracketed but portless.
    assert_eq!(ip_of("[fe80::1%2]"), "fe80::1%2");
}

#[test]
fn unbracketed_ipv6_is_not_split_at_its_last_group() {
    assert_eq!(ip_of("fe80::1%2"), "fe80::1%2");
    assert_eq!(ip_of("2001:db8::1"), "2001:db8::1");
    assert_eq!(ip_of("::1"), "::1");
}

#[test]
fn a_bare_ipv4_without_a_port_passes_through() {
    assert_eq!(ip_of("192.168.1.50"), "192.168.1.50");
    assert_eq!(ip_of(""), "");
}

#[test]
fn an_unclosed_bracket_passes_through() {
    assert_eq!(ip_of("[fe80::1"), "[fe80::1");
}

// ------------------------------------------------------------------- discovery

#[test]
fn a_sweep_looks_for_devices_in_commissioning_mode() {
    let f = sweep_filter();
    assert!(f.commissioning_mode_only);
    assert_eq!((f.discriminator, f.short_discriminator), (None, None));
    assert_eq!((f.vendor_id, f.product_id, f.device_type), (None, None, None));
}

#[test]
fn each_result_is_excluded_from_the_next_query() {
    let mut s = Sweep::new();
    assert!(s.exclude().is_empty(), "the first query excludes nothing");
    s.push("192.168.1.50:5540", 0x1122_3344_5566_7788);
    assert_eq!(s.exclude(), &[0x1122_3344_5566_7788]);
    s.push("192.168.1.51:5540", 1);
    assert_eq!(s.exclude(), &[0x1122_3344_5566_7788, 1]);
}

#[test]
fn instance_name_is_16_upper_hex_digits() {
    let mut s = Sweep::new();
    s.push("192.168.1.50:5540", 0xabcd);
    s.push("[fe80::1%2]:5540", u64::MAX);
    let names: Vec<String> = s.into_devices().into_iter().map(|d| d.instance_name).collect();
    assert_eq!(names, ["000000000000ABCD", "FFFFFFFFFFFFFFFF"]);
}

#[test]
fn the_sweep_stops_at_the_exclude_list_capacity() {
    let mut s = Sweep::new();
    for i in 0..MAX_SWEEP {
        assert!(!s.is_full(), "room for device {i}");
        s.push("192.168.1.50:5540", i as u64);
    }
    assert!(s.is_full());
    assert_eq!(s.len(), MAX_SWEEP);
    assert_eq!(browse_step(&s, 10, 0), SweepStep::Full);
}

#[test]
fn an_empty_network_yields_an_empty_list_not_an_error() {
    let s = Sweep::new();
    assert_eq!(s.len(), 0);
    assert!(s.into_devices().is_empty());
}

#[test]
fn per_call_budgets_are_carved_out_of_one_deadline() {
    let start = 0;
    let deadline = deadline_after(start, 3_000);

    // Nothing spent yet: the first browse may use the whole budget.
    assert_eq!(remaining_budget(deadline, start), 3_000);
    // Two slow devices later, the third browse gets only what is left.
    let after_two = start + 2_500;
    assert_eq!(remaining_budget(deadline, after_two), 500);
    assert_eq!(browse_step(&Sweep::new(), deadline, after_two), SweepStep::Query { budget: 500 });
}

#[test]
fn an_expired_deadline_leaves_no_budget() {
    let start = 0;
    let deadline = deadline_after(start, 1_000);
    assert_eq!(remaining_budget(deadline, deadline), 0);
    assert_eq!(remaining_budget(deadline, start + 5_000), 0);
    // A zero-millisecond request is legal and must not sweep at all.
    let none = deadline_after(start, 0);
    assert_eq!(remaining_budget(none, start), 0);
    assert_eq!(browse_step(&Sweep::new(), none, start), SweepStep::Spent);
}

#[test]
fn the_deadline_saturates_instead_of_overflowing() {
    assert_eq!(deadline_after(u64::MAX, 1), u64::MAX);
    // The largest budget that can be asked for is still ~49 days out.
    let far = deadline_after(0, u64::from(u32::MAX));
    assert!(far < u64::MAX);
}

#[test]
fn an_empty_sweep_always_reports_why() {
    let not_found = map_err(sdk(ErrorCode::NotFound, "NotFound"));
    assert_eq!(not_found.kind, StackErrorKind::NodeUnreachable);
    let broken = map_err(sdk(ErrorCode::Other, "ResourceExhausted"));
    assert_ne!(broken.kind, StackErrorKind::NodeUnreachable);

    assert_eq!(report_sweep_end(&not_found, 0), SweepEnd::Info);
    assert_eq!(report_sweep_end(&broken, 0), SweepEnd::Warn);
    assert_eq!(report_sweep_end(&not_found, 3), SweepEnd::Debug);
}

#[test]
fn a_failed_query_ends_the_sweep_with_what_was_found() {
    let mut sweep = Sweep::new();
    let found = |a: &str, i: u64| Ok((a.to_string(), i));
    assert!(after_query(&mut sweep, found("192.168.1.50:5540", 0xAB)));
    assert!(after_query(&mut sweep, found("192.168.1.51:5540", 2)));
    let e = map_err(sdk(ErrorCode::NotFound, "NotFound"));
    assert!(!after_query(&mut sweep, Err(e)));
    assert_eq!(*sweep.exclude(), [0xAB, 2]);
    let devices = sweep.into_devices();
    let names: Vec<&str> = devices.iter().map(|d| d.instance_name.as_str()).collect();
    assert_eq!(names, ["00000000000000AB", "0000000000000002"]);
    assert_eq!(devices[1].address, "192.168.1.51:5540");

    let mut empty = Sweep::new();
    assert!(!after_query(&mut empty, Err(map_err(sdk(ErrorCode::Other, "ResourceExhausted")))));
    assert_eq!(empty.into_devices().len(), 0);
}

#[test]
fn a_query_that_never_got_a_turn_says_so() {
    let e = browse_one::<()>(250, None).unwrap_err();
    assert_eq!(e.kind, StackErrorKind::Timeout);
    assert_eq!(
        e.message,
        "mDNS browse timed out after 250ms without getting a turn (another discovery or \
         commissioning was holding the browse slot)"
    );
    assert_eq!(browse_one(250, Some(Ok(7u8))), Ok(7));
    let e = browse_one::<()>(250, Some(Err(sdk(ErrorCode::NotFound, "NotFound")))).unwrap_err();
    assert_eq!(e.kind, StackErrorKind::NodeUnreachable);
    assert_eq!(budget_millis(250), 250);
    assert_eq!(budget_millis(u64::MAX), u32::MAX);
}

// --------------------------------------------------------------------- fabrics

fn pairs(value: Json) -> Vec<(String, Json)> {
    vec![("0/62/1".to_string(), value)]
}

#[test]
fn a_full_fabric_descriptor_maps_field_for_field() {
    let out = parse_fabrics(&pairs(Json::Array(vec![object(vec![
        ("1", text("BASE64ROOTKEY")), // rootPublicKey - ignored
        ("2", num(0xFFF1)),           // vendorID
        ("3", num(1)),                // fabricID
        ("4", num(112_233)),          // nodeID (the device's view of us) - ignored
        ("5", text("HomeAssistant")), // label
        ("254", num(3)),              // fabricIndex
    ])])))
    .expect("valid list");
    assert_eq!(out.len(), 1);
    assert_eq!(out[0].vendor_id, 0xFFF1);
    assert_eq!(out[0].fabric_id, 1);
    assert_eq!(out[0].fabric_index, 3);
    assert_eq!(out[0].fabric_label, "HomeAssistant");
}

#[test]
fn several_fabrics_keep_their_order() {
    let fabric = |v: u64, id: u64, label: &str, index: u64| {
        object(vec![("2", num(v)), ("3", num(id)), ("5", text(label)), ("254", num(index))])
    };
    let out = parse_fabrics(&pairs(Json::Array(vec![
        fabric(1, 10, "a", 1),
        fabric(2, 20, "b", 2),
    ])))
    .expect("valid list");
    assert_eq!(out.iter().map(|f| f.fabric_index).collect::<Vec<_>>(), [1, 2]);
    assert_eq!(out[1].fabric_label, "b");
}

#[test]
fn missing_fields_default_instead_of_dropping_the_fabric() {
    let out = parse_fabrics(&pairs(Json::Array(vec![object(vec![("254", num(2))])])))
        .expect("valid list");
    assert_eq!(out.len(), 1);
    assert_eq!(out[0].fabric_index, 2);
    assert_eq!(out[0].vendor_id, 0);
    assert_eq!(out[0].fabric_id, 0);
    assert_eq!(out[0].fabric_label, "");
}

#[test]
fn a_non_struct_entry_is_skipped_not_fatal() {
    let out = parse_fabrics(&pairs(Json::Array(vec![num(7), object(vec![("254", num(1))])])))
        .expect("valid list");
    assert_eq!(out.len(), 1);
    assert_eq!(out[0].fabric_index, 1);
}

#[test]
fn empty_missing_and_non_array_reads_all_report_the_node_message() {
    for pairs in [
        pairs(Json::Array(Vec::new())),
        pairs(Json::Null),
        pairs(num(7)),
        pairs(object(vec![("254", num(1))])),
        // Right value, wrong path: must not be mistaken for the fabrics list.
        vec![("0/62/0".to_string(), Json::Array(vec![object(vec![("254", num(1))])]))],
        vec![],
    ] {
        let e = parse_fabrics(&pairs).expect_err("must not be accepted");
        assert_eq!(e.kind, StackErrorKind::Sdk);
        assert_eq!(e.message, NO_FABRICS);
    }
}

#[test]
fn noc_status_zero_is_success() {
    assert!(check_noc_response("RemoveFabric", &object(vec![("statusCode", num(0))])).is_ok());
    // `fabricIndex`/`debugText` are optional and irrelevant to the outcome.
    assert!(check_noc_response(
        "RemoveFabric",
        &object(vec![
            ("statusCode", num(0)),
            ("fabricIndex", num(2)),
            ("debugText", text("ok"))
        ])
    )
    .is_ok());
}

#[test]
fn a_nonzero_noc_status_names_the_code() {
    // 11 = kInvalidFabricIndex, the status a wrong index actually returns.
    let e = check_noc_response("RemoveFabric", &object(vec![("statusCode", num(11))]))
        .expect_err("non-zero status must fail");
    assert_eq!(e.kind, StackErrorKind::Sdk);
    assert_eq!(e.message, "RemoveFabric failed with status 11");
}

#[test]
fn a_malformed_noc_response_is_not_success() {
    for resp in [
        Json::Null,
        object(vec![]),
        object(vec![("statusCode", text("0"))]),
        object(vec![("statusCode", Json::Null)]),
        object(vec![("0", num(0))]), // tag-based: the name-based conversion did not happen
        num(7),
    ] {
        let e = check_noc_response("RemoveFabric", &resp)
            .expect_err("must not be accepted as success");
        assert_eq!(e.message, "RemoveFabric returned no status code", "for {resp:?}");
    }
}

#[test]
fn a_node_that_objects_to_the_label_only_draws_a_warning() {
    assert_eq!(push_fabric_label(Ok(object(vec![("statusCode", num(0))]))), None);
    let e = push_fabric_label(Ok(object(vec![("statusCode", num(11))]))).unwrap();
    assert_eq!(e.message, "UpdateFabricLabel failed with status 11");
    let down = || map_err(sdk(ErrorCode::NotFound, "NotFound"));
    assert_eq!(push_fabric_label(Err(down())), Some(down()));
}

#[test]
fn fabric_requests_carry_their_arguments() {
    // Unfiltered: the other administrators' fabrics count too.
    let path = AttributePathSpec { endpoint: Some(0), cluster: Some(62), attribute: Some(1) };
    assert_eq!(fabrics_request(), read_request(vec![path], false));
    assert_eq!(remove_fabric_args(3), object(vec![("fabricIndex", num(3))]));
    assert_eq!(fabric_label_args("Home"), object(vec![("label", text("Home"))]));
    let long = "x".repeat(40);
    assert_eq!(fabric_label_args(&long), object(vec![("label", text(&"x".repeat(32)))]));
}

// ----------------------------------------------------------------- interaction

#[test]
fn wildcard_spec_becomes_an_empty_path() {
    let p = to_attr_path(&AttributePathSpec { endpoint: None, cluster: None, attribute: None });
    assert_eq!(p, AttrPath::default());
}

#[test]
fn concrete_spec_maps_segment_for_segment() {
    let p = to_attr_path(&AttributePathSpec {
        endpoint: Some(1),
        cluster: Some(6),
        attribute: Some(0),
    });
    assert_eq!((p.endpoint, p.cluster, p.attr), (Some(1), Some(6), Some(0)));
    // Never set: a node id in the path is for proxies, and list_index would
    // turn the read into a single-element read.
    assert!(p.node.is_none());
    assert!(p.list_index.is_none());
}

#[test]
fn partial_wildcard_keeps_the_concrete_segments() {
    let p = to_attr_path(&AttributePathSpec {
        endpoint: None,
        cluster: Some(29),
        attribute: None,
    });
    assert_eq!((p.endpoint, p.cluster, p.attr), (None, Some(29), None));
}

#[test]
fn an_interview_reads_every_path() {
    let request = interview_request();
    assert_eq!(read_paths(&request.paths), vec![AttrPath::default()]);
    assert!(request.fabric_filtered);
    assert_eq!(request.timeout_secs, 120);
    assert_eq!(read_request(Vec::new(), true).timeout_secs, 30);
}

#[test]
fn command_args_are_named_and_ordered() {
    let all = clusters();
    let meta = find_cluster(&all, 8).expect("LevelControl");
    let cmd = meta.find_command("moveToLevel").expect("MoveToLevel");
    let elem = encode_command_args(
        meta,
        cmd,
        &object(vec![
            ("transitionTime", num(3)),
            ("level", num(254)),
            ("optionsMask", num(0)),
            ("optionsOverride", num(0)),
        ]),
    )
    .expect("valid payload");

    let tags: Vec<u8> = match &elem {
        Tlv::Struct(members) => members
            .iter()
            .map(|m| match m.tag {
                Tag::Context(n) => n,
                _ => unreachable!("unexpected member tag"),
            })
            .collect(),
        _ => panic!("struct"),
    };
    // level=0, transitionTime=1, optionsMask=2, optionsOverride=3 - emitted
    // ascending even though the JSON listed transitionTime first.
    assert_eq!(tags, [0, 1, 2, 3]);

    let v = tlv_to_json(&elem).expect("parse");
    assert_eq!(v, object(vec![("0", num(254)), ("1", num(3)), ("2", num(0)), ("3", num(0))]));
}

#[test]
fn command_without_input_gets_an_empty_struct() {
    let all = clusters();
    let meta = find_cluster(&all, 6).expect("OnOff");
    let cmd = meta.find_command("toggle").expect("Toggle");
    let elem = encode_command_args(meta, cmd, &Json::Null).expect("no args");
    assert_eq!(tlv_to_json(&elem).expect("parse"), object(vec![]));
}

#[test]
fn unknown_field_and_non_object_payloads_are_rejected() {
    let all = clusters();
    let meta = find_cluster(&all, 8).expect("LevelControl");
    let cmd = meta.find_command("moveToLevel").expect("MoveToLevel");
    assert!(encode_command_args(meta, cmd, &object(vec![("nope", num(1))])).is_err());
    assert!(encode_command_args(meta, cmd, &num(7)).is_err());
}

#[test]
fn a_zero_timed_budget_is_treated_as_absent() {
    let all = clusters();
    let untimed = find_cluster(&all, 6)
        .and_then(|c| c.find_command("toggle"))
        .expect("OnOff/Toggle");
    assert!(!untimed.is_timed);
    assert_eq!(normalize_timed(Some(0), untimed), None);
    assert_eq!(normalize_timed(None, untimed), None);
    assert_eq!(normalize_timed(Some(5_000), untimed), Some(5_000));

    let timed = find_cluster(&all, 60)
        .and_then(|c| c.find_command("openCommissioningWindow"))
        .expect("AdministratorCommissioning/OpenCommissioningWindow");
    assert!(timed.is_timed);
    // A spec-timed command gets the default rather than being sent untimed.
    assert_eq!(normalize_timed(None, timed), Some(DEFAULT_TIMED_MS));
    assert_eq!(normalize_timed(Some(0), timed), Some(DEFAULT_TIMED_MS));
    assert_eq!(normalize_timed(Some(1_000), timed), Some(1_000));
}

#[test]
fn attribute_values_are_encoded_by_their_type() {
    let all = clusters();
    assert_eq!(encode_attribute(&all, 1, 6, 0x4001, &num(300)), Ok(Tlv::U16(300)));
    // No table entry: the value decides.
    assert_eq!(encode_attribute(&all, 1, 6, 0x9999, &Json::Bool(true)), Ok(Tlv::Bool(true)));
    let e = encode_attribute(&all, 1, 6, 0x4001, &num(70_000)).unwrap_err();
    assert_eq!(e.kind, StackErrorKind::InvalidArguments);
    assert_eq!(e.message, "Invalid value for attribute 1/6/16385: Error::InvalidData");
}

fn status(endpoint: u16, code: u8) -> WriteStatus {
    WriteStatus::Status {
        path: AttrPath {
            endpoint: Some(endpoint),
            cluster: Some(6),
            attr: Some(0),
            ..Default::default()
        },
        code,
    }
}

#[test]
fn the_status_of_a_write_is_that_of_its_path() {
    assert_eq!(write_status(&vec![status(1, 0)], 1, 6, 0), Ok(Ok(0)));
    // A failure is not masked by the successes around it.
    let mixed = vec![status(1, 0), status(2, 0x87), status(1, 0x88), status(1, 0)];
    assert_eq!(write_status(&mixed, 1, 6, 0), Ok(Ok(0x88)));
    // Another path's success is not ours.
    let e = write_status(&vec![status(2, 0)], 1, 6, 0).unwrap().unwrap_err();
    assert_eq!(e.kind, StackErrorKind::Sdk);
    assert_eq!(e.message, "device returned no write status for 1/6/0");
    assert_eq!(
        write_status(&vec![WriteStatus::Unreadable(invalid()), status(1, 0)], 1, 6, 0),
        Err(invalid())
    );
}

#[test]
fn an_invoke_is_prepared_before_it_is_sent() {
    let all = clusters();
    let ready = prepare_invoke(&all, 62, "RemoveFabric", &Json::Null, None).unwrap();
    assert_eq!((ready.code, ready.timed_ms), (10, None));
    assert_eq!(ready.args, Tlv::Struct(Vec::new()));
    assert_eq!(ready.output.map(|s| s.name.as_str()), Some("NOCResponse"));
    let timed = prepare_invoke(&all, 60, "openCommissioningWindow", &Json::Null, Some(0)).unwrap();
    assert_eq!(timed.timed_ms, Some(DEFAULT_TIMED_MS));

    let refused = |cluster, name, payload: Json| -> StackError {
        match prepare_invoke(&all, cluster, name, &payload, None) {
            Ok(_) => panic!("must be refused"),
            Err(e) => e,
        }
    };
    let e = refused(9999, "toggle", Json::Null);
    assert_eq!(e.kind, StackErrorKind::InvalidArguments);
    assert_eq!(e.message, "Cluster Id \"9999\" unknown");
    let e = refused(6, "explode", Json::Null);
    assert_eq!(e.kind, StackErrorKind::InvalidArguments);
    assert_eq!(e.message, "Command \"explode\" does not exist on cluster \"OnOff\"");
    let e = refused(8, "moveToLevel", object(vec![("nope", num(1))]));
    assert_eq!(e.kind, StackErrorKind::InvalidArguments);
    assert!(e.message.contains("moveToLevel"), "{}", e.message);
}

#[test]
fn a_failed_command_names_its_status() {
    let failed = |code: u8, name: &str| {
        command_failed("toggle", &ImStatus { code, name: name.to_string() })
    };
    let e = failed(0x9C, "Busy");
    assert_eq!(e.kind, StackErrorKind::Busy);
    assert_eq!(e.message, "Command \"toggle\" failed with IM status Busy (0x9c)");
    assert_eq!(failed(0x94, "Timeout").kind, StackErrorKind::Timeout);
    assert_eq!(failed(0x01, "Failure").kind, StackErrorKind::Sdk);
    assert_eq!(
        failed(0x01, "Failure").message,
        "Command \"toggle\" failed with IM status Failure (0x01)"
    );
}

fn payload(code: u8) -> InvokeResponse {
    InvokeResponse::Command(Tlv::Struct(vec![Member {
        tag: Tag::Context(0),
        value: Tlv::U8(code),
    }]))
}

fn outcome(responses: Vec<InvokeResponse>) -> Result<Json, StackError> {
    let all = clusters();
    let creds = find_cluster(&all, 62).unwrap();
    let mut out = InvokeOutcome::new();
    let n = responses.len();
    out.absorb(&responses, "removeFabric", creds.find_struct("NOCResponse"), creds).unwrap();
    assert_eq!(out.seen(), n);
    out.into_result()
}

#[test]
fn the_answers_to_a_command_come_to_one_outcome() {
    let ok = || InvokeResponse::Status(ImStatus { code: 0, name: "Success".to_string() });
    let bad = || InvokeResponse::Status(ImStatus { code: 1, name: "Failure".to_string() });
    assert_eq!(outcome(vec![]), Ok(Json::Null));
    assert_eq!(outcome(vec![ok()]), Ok(Json::Null));
    assert_eq!(outcome(vec![payload(0)]), Ok(object(vec![("statusCode", num(0))])));
    // The first payload wins, and a failure outranks any of them.
    assert_eq!(outcome(vec![payload(5), payload(6)]), Ok(object(vec![("statusCode", num(5))])));
    assert_eq!(outcome(vec![ok(), payload(5), ok()]), Ok(object(vec![("statusCode", num(5))])));
    for responses in [vec![payload(5), bad()], vec![bad(), payload(5)]] {
        let e = outcome(responses).unwrap_err();
        assert_eq!(
            e.message,
            "Command \"removeFabric\" failed with IM status Failure (0x01)"
        );
    }

    let all = clusters();
    let creds = find_cluster(&all, 62).unwrap();
    let mut out = InvokeOutcome::new();
    assert_eq!(
        out.absorb(&vec![InvokeResponse::Unreadable(invalid())], "removeFabric", None, creds),
        Err(invalid())
    );
}

// ---------------------------------------------------------------------- window

/// The bytes that have to be drawn to end up at `passcode`.
fn draw_for(passcode: u32) -> [u8; 4] {
    (passcode - 1).to_le_bytes()
}

const INVALID_PASSCODES: [u32; 12] = [
    0, 11111111, 22222222, 33333333, 44444444, 55555555, 66666666, 77777777, 88888888, 99999999,
    12345678, 87654321,
];

#[test]
fn generated_secrets_are_in_range() {
    for word in [0u32, 1, 2, MAX_PASSCODE - 1, MAX_PASSCODE, MAX_PASSCODE + 1, u32::MAX] {
        let (passcode, discriminator, salt) =
            generate_window_secrets(&vec![word.to_le_bytes()], [0xFF, 0xFF], [0xAA; SALT_LEN])
                .unwrap();
        assert!(
            (1..=MAX_PASSCODE).contains(&passcode),
            "passcode {passcode} out of range for word {word}"
        );
        assert!(!INVALID_PASSCODES.contains(&passcode));
        assert!(passcode_is_legal(passcode));
        assert!(discriminator < 4096, "discriminator {discriminator} is not 12-bit");
        assert_eq!(salt.len(), SALT_LEN);
        assert_eq!(salt, [0xAA; SALT_LEN]);
    }
}

#[test]
fn a_forbidden_passcode_is_redrawn() {
    for forbidden in INVALID_PASSCODES {
        // 0 is not reachable (`% MAX + 1` never yields it) and 99999999
        // exceeds the range, so only the interior values can be drawn.
        if forbidden == 0 || forbidden > MAX_PASSCODE {
            continue;
        }
        assert_eq!(draw_passcode(draw_for(forbidden)), None);
        let (passcode, discriminator, _) = generate_window_secrets(
            &vec![draw_for(forbidden), draw_for(4_242_424)],
            [0x01, 0x00],
            [0; SALT_LEN],
        )
        .unwrap();
        assert_eq!(passcode, 4_242_424, "{forbidden} must have been redrawn");
        assert_eq!(discriminator, 1);
    }
}

#[test]
fn several_forbidden_draws_in_a_row_are_all_redrawn() {
    let (passcode, discriminator, _) = generate_window_secrets(
        &vec![
            draw_for(11_111_111),
            draw_for(12_345_678),
            draw_for(87_654_321),
            draw_for(7),
        ],
        [0x00, 0x10], // 4096 -> 0 after the 12-bit reduction
        [0; SALT_LEN],
    )
    .unwrap();
    assert_eq!(passcode, 7);
    assert_eq!(discriminator, 0);
}

#[test]
fn the_discriminator_is_reduced_to_twelve_bits() {
    for (word, expected) in [(0u16, 0u16), (4095, 4095), (4096, 0), (4097, 1), (u16::MAX, 4095)] {
        let (_, discriminator, _) =
            generate_window_secrets(&vec![draw_for(1_000)], word.to_le_bytes(), [0; SALT_LEN])
                .unwrap();
        assert_eq!(discriminator, expected, "for word {word}");
    }
}

#[test]
fn passcodes_outside_the_range_are_not_legal() {
    for p in INVALID_PASSCODES {
        assert!(!passcode_is_legal(p));
    }
    assert!(!passcode_is_legal(MAX_PASSCODE + 1));
    assert!(passcode_is_legal(MAX_PASSCODE));
    assert!(passcode_is_legal(1));
    assert_eq!(generate_window_secrets(&Vec::new(), [0, 0], [0; SALT_LEN]), None);
}

#[test]
fn the_window_request_carries_the_verifier() {
    let v = window_args(180, &vec![0xDE, 0xAD], 3840, &vec![0xFF, 0x00]);
    assert_eq!(
        v,
        object(vec![
            ("commissioningTimeout", num(180)),
            ("PAKEPasscodeVerifier", text("3q0=")),
            ("discriminator", num(3840)),
            ("iterations", num(2_000)),
            ("salt", text("/wA=")),
        ])
    );
}

#[test]
fn vid_pid_are_read_by_path() {
    let pairs = vec![
        ("0/40/4".to_string(), num(0x8001)),
        ("0/40/2".to_string(), num(0xFFF1)),
        ("0/40/1".to_string(), text("acme")),
    ];
    assert_eq!(vid_pid_from(&pairs), (0xFFF1, 0x8001));
    assert_eq!(basic_info_vid_pid(&Ok(pairs)), (0xFFF1, 0x8001));
    let failed = Err(map_err(sdk(ErrorCode::RxTimeout, "RxTimeout")));
    assert_eq!(basic_info_vid_pid(&failed), (0, 0));
    let request = vid_pid_request();
    let paths: Vec<Option<u32>> = request.paths.iter().map(|p| p.attribute).collect();
    assert_eq!(paths, [Some(2), Some(4)]);
    assert!(!request.fabric_filtered);
}

#[test]
fn missing_or_unusable_vid_pid_default_to_zero() {
    assert_eq!(vid_pid_from(&vec![]), (0, 0));
    assert_eq!(vid_pid_from(&vec![("0/40/2".to_string(), Json::Null)]), (0, 0));
    // Out of `u16` range: truncating would put a wrong vendor in the QR.
    assert_eq!(vid_pid_from(&vec![("0/40/2".to_string(), num(70_000))]), (0, 0));
    // Right value, wrong endpoint.
    assert_eq!(vid_pid_from(&vec![("1/40/2".to_string(), num(0xFFF1))]), (0, 0));
}

// --------------------------------------------------------------- commissioning

#[test]
fn targets_are_planned_by_what_is_known() {
    let code = |s: &str| PaseTarget::Code { code: s.to_string() };
    assert_eq!(
        resolve_target(&code("  MT:-24J0AFN00KA0648G00\n")),
        TargetPlan::ReadCode { kind: CodeKind::Qr, code: "MT:-24J0AFN00KA0648G00".to_string() }
    );
    assert_eq!(
        resolve_target(&code("\u{a0}3497-0112-332 ")),
        TargetPlan::ReadCode { kind: CodeKind::Manual, code: "3497-0112-332".to_string() }
    );
    assert_eq!(code_kind("MT:"), CodeKind::Qr);
    assert_eq!(code_kind("mt:"), CodeKind::Manual);

    let on_network = |long_discriminator, short_discriminator, vendor_id| {
        let target = PaseTarget::OnNetwork {
            passcode: 20_202_021,
            long_discriminator,
            short_discriminator,
            vendor_id,
        };
        match resolve_target(&target) {
            TargetPlan::Browse { passcode, filter } => {
                assert_eq!(passcode, 20_202_021);
                filter
            }
            other => panic!("not a browse: {other:?}"),
        }
    };
    let filter = on_network(Some(3840), None, Some(0xFFF1));
    assert_eq!((filter.discriminator, filter.short_discriminator), (Some(3840), None));
    assert_eq!((filter.vendor_id, filter.product_id), (Some(0xFFF1), None));
    assert!(!filter.commissioning_mode_only);
    // With nothing to tell a device by, only those in commissioning mode count.
    assert!(on_network(None, None, None).commissioning_mode_only);
}

#[test]
fn a_code_that_cannot_be_read_is_the_callers_fault() {
    let e = parse_pairing_code(CodeKind::Qr, Err(sdk(ErrorCode::InvalidData, "InvalidData")))
        .unwrap_err();
    assert_eq!(e.kind, StackErrorKind::InvalidArguments);
    assert_eq!(e.message, "invalid QR code: Error::InvalidData");
    let e = parse_pairing_code(CodeKind::Manual, Err(sdk(ErrorCode::Other, "Invalid"))).unwrap_err();
    assert_eq!(e.message, "invalid pairing code: Error::Invalid");
    let filter = CommissionableFilter {
        discriminator: Some(3840),
        short_discriminator: None,
        vendor_id: None,
        product_id: None,
        device_type: None,
        commissioning_mode_only: false,
    };
    assert_eq!(parse_pairing_code(CodeKind::Qr, Ok((7, filter))), Ok((7, filter)));
    let e = invalid_ip_addr("invalid socket address syntax");
    assert_eq!(e.kind, StackErrorKind::InvalidArguments);
    assert_eq!(e.message, "invalid ip_addr: invalid socket address syntax");
}

#[test]
fn commissioning_ends_with_the_phase_that_failed() {
    let run = |pase, case| {
        let mut ctx = StackCtx::new(1);
        let res = commission(&mut ctx, 7, "[fe80::1%2]:5540".to_string(), pase, case);
        (res, ctx.addrs.get(&7).cloned())
    };
    let (res, addrs) = run(Some(Ok(3)), Some(Ok(())));
    let done = res.unwrap();
    assert_eq!(done.device_fabric_index, 3);
    assert_eq!(done.address, "[fe80::1%2]:5540");
    assert_eq!(addrs, Some(vec!["fe80::1%2".to_string()]));

    let (res, addrs) = run(Some(Err(sdk(ErrorCode::Busy, "Busy"))), None);
    assert_eq!(res.unwrap_err().message, BUSY_MESSAGE);
    assert_eq!(addrs, None);
    let (res, _) = run(None, None);
    let e = res.unwrap_err();
    assert_eq!(e.kind, StackErrorKind::Timeout);
    assert!(e.message.starts_with("commissioning timed out after 60s"), "{}", e.message);
    let (res, addrs) = run(Some(Ok(3)), None);
    let e = res.unwrap_err();
    assert_eq!(e.kind, StackErrorKind::Timeout);
    assert!(e.message.starts_with("CASE completion timed out after 60s"), "{}", e.message);
    assert_eq!(addrs, None);

    assert_eq!(pase_phase(Some(Ok(4))), Ok(4));
    assert_eq!(case_phase(Some(Ok(()))), Ok(()));
    assert_eq!(
        case_phase(Some(Err(sdk(ErrorCode::NotFound, "NotFound")))).unwrap_err().kind,
        StackErrorKind::NodeUnreachable
    );
    assert_eq!(noc_fabric_id(Ok(5), 9), 5);
    assert_eq!(noc_fabric_id(Err(sdk(ErrorCode::NotFound, "NotFound")), 9), 9);
}
