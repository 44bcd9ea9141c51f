use matter_stack::error::{invalid, ErrorCode, SdkError};
use matter_stack::idl::{find_cluster, Attr, Cluster, Event, Field, StructDef};
use matter_stack::json::{Json, Number};
use matter_stack::tlv::{Member, Tag, Tlv};
use matter_stack::tlv_json::{
    apply_epoch, attr_value_to_json, tlv_to_json, tlv_to_json_named, MATTER_EPOCH_OFFSET_S,
    MATTER_EPOCH_OFFSET_US, MAX_DEPTH,
};
use matter_stack::tlv_write::{write_json, write_json_named, TypeHint};

fn num(n: u64) -> Json {
    Json::Number(Number::PosInt(n))
}

fn signed(n: i64) -> Json {
    Json::Number(Number::from_i64(n))
}

fn float(x: f64) -> Json {
    Json::Number(Number::Float(x.to_bits()))
}

fn text(s: &str) -> Json {
    Json::Text(s.to_string())
}

fn object(entries: Vec<(&str, Json)>) -> Json {
    Json::Object(entries.into_iter().map(|(k, v)| (k.to_string(), v)).collect())
}

fn entries(v: &Json) -> &Vec<(String, Json)> {
    match v {
        Json::Object(entries) => entries,
        _ => panic!("not an object: {v:?}"),
    }
}

/// Equality in which the order of an object's entries does not count.
fn same(a: &Json, b: &Json) -> bool {
    match (a, b) {
        (Json::Object(x), Json::Object(y)) => {
            x.len() == y.len()
                && x.iter().all(|(k, v)| b.get(k).map(|w| same(v, w)).unwrap_or(false))
        }
        (Json::Array(x), Json::Array(y)) => {
            x.len() == y.len() && x.iter().zip(y).all(|(v, w)| same(v, w))
        }
        _ => a == b,
    }
}

fn assert_same(got: &Json, want: &Json) {
    assert!(same(got, want), "got {got:?}, expected {want:?}");
}

fn ctx(tag: u8, value: Tlv) -> Member {
    Member { tag: Tag::Context(tag), value }
}

fn anon(value: Tlv) -> Member {
    Member { tag: Tag::Anonymous, value }
}

fn utf8(s: &str) -> Tlv {
    Tlv::Utf8(s.as_bytes().to_vec())
}

fn hint(ty: &str) -> Option<TypeHint<'_>> {
    Some(TypeHint { ty, is_list: false, cluster: None })
}

fn write(v: &Json, hint: Option<TypeHint<'_>>) -> Result<Tlv, SdkError> {
    write_json(v, hint)
}

fn field(code: u32, name: &str, ty: &str) -> Field {
    Field { code, name: name.to_string(), ty: ty.to_string(), is_list: false }
}

fn structure(name: &str, fields: Vec<Field>) -> StructDef {
    StructDef { name: name.to_string(), fields }
}

fn attribute(code: u32, ty: &str, is_list: bool) -> Attr {
    Attr { code, ty: ty.to_string(), is_list }
}

fn cluster_named(id: u32, name: &str) -> Cluster {
    Cluster {
        id,
        name: name.to_string(),
        attrs: Vec::new(),
        commands: Vec::new(),
        events: Vec::new(),
        structs: Vec::new(),
    }
}

/// The clusters the cases below speak of, as far as they need them.
fn clusters() -> Vec<Cluster> {
    let mut level = cluster_named(8, "LevelControl");
    level.structs.push(structure(
        "MoveToLevelRequest",
        vec![
            field(0, "level", "int8u"),
            field(1, "transitionTime", "int16u"),
            field(2, "optionsMask", "OptionsBitmap"),
            field(3, "optionsOverride", "OptionsBitmap"),
        ],
    ));

    let mut time = cluster_named(56, "TimeSynchronization");
    time.attrs.push(attribute(0, "epoch_us", false));
    time.attrs.push(attribute(5, "TimeZoneStruct", true));
    time.structs.push(structure(
        "TimeZoneStruct",
        vec![
            field(0, "offset", "int32s"),
            field(1, "validAt", "epoch_us"),
            field(2, "name", "char_string"),
        ],
    ));

    let mut creds = cluster_named(62, "OperationalCredentials");
    creds.structs.push(structure(
        "NOCResponse",
        vec![
            field(0, "statusCode", "NodeOperationalCertStatusEnum"),
            field(1, "fabricIndex", "fabric_idx"),
            field(2, "debugText", "char_string"),
        ],
    ));

    let mut keys = cluster_named(63, "GroupKeyManagement");
    keys.structs.push(structure(
        "GroupKeySetStruct",
        vec![
            field(0, "groupKeySetID", "int16u"),
            field(1, "groupKeySecurityPolicy", "GroupKeySecurityPolicyEnum"),
            field(2, "epochKey0", "octet_string"),
            field(3, "epochStartTime0", "epoch_us"),
            field(4, "epochKey1", "octet_string"),
            field(5, "epochStartTime1", "epoch_us"),
            field(6, "epochKey2", "octet_string"),
            field(7, "epochStartTime2", "epoch_us"),
        ],
    ));
    keys.structs.push(structure(
        "KeySetWriteRequest",
        vec![field(0, "groupKeySet", "GroupKeySetStruct")],
    ));
    keys.structs.push(structure(
        "KeySetReadResponse",
        vec![field(0, "groupKeySet", "GroupKeySetStruct")],
    ));

    let mut smoke = cluster_named(92, "SmokeCoAlarm");
    smoke.attrs.push(attribute(12, "epoch_s", false));

    let mut media = cluster_named(1286, "MediaPlayback");
    media.events.push(Event {
        code: 0,
        fields: vec![
            field(0, "currentState", "PlaybackStateEnum"),
            field(1, "startTime", "EPOCH_US"),
            field(2, "duration", "int64u"),
        ],
    });

    vec![level, time, creds, keys, smoke, media]
}

fn cluster(all: &Vec<Cluster>, id: u32) -> &Cluster {
    find_cluster(all, id).unwrap()
}

#[test]
fn struct_to_tag_based_object() {
    let elem = Tlv::Struct(vec![
        ctx(0, Tlv::U8(22)),
        ctx(1, utf8("hi")),
        ctx(2, Tlv::Bool(true)),
        ctx(3, Tlv::Null),
    ]);
    let v = tlv_to_json(&elem).unwrap();
    assert_same(
        &v,
        &object(vec![
            ("0", num(22)),
            ("1", text("hi")),
            ("2", Json::Bool(true)),
            ("3", Json::Null),
        ]),
    );
}

#[test]
fn array_of_structs_and_octets() {
    let elem = Tlv::Array(vec![
        anon(Tlv::Struct(vec![ctx(0, Tlv::U8(14))])),
        anon(Tlv::Octets(vec![0xDE, 0xAD])),
    ]);
    let v = tlv_to_json(&elem).unwrap();
    assert_same(&v, &Json::Array(vec![object(vec![("0", num(14))]), text("3q0=")]));
}

#[test]
fn signed_and_large_unsigned() {
    let elem = Tlv::Struct(vec![ctx(0, Tlv::S8(-5)), ctx(1, Tlv::U64(u64::MAX))]);
    let v = tlv_to_json(&elem).unwrap();
    assert_eq!(v.get("0"), Some(&signed(-5)));
    assert_eq!(v.get("1"), Some(&num(u64::MAX))); // stays a full-precision number
}

/// `levels` nested containers, structs under the given tag or arrays.
fn nested(levels: usize, tag: Option<u8>) -> Tlv {
    let mut elem: Option<Tlv> = None;
    for _ in 0..levels {
        elem = Some(match tag {
            Some(n) => Tlv::Struct(elem.into_iter().map(|e| ctx(n, e)).collect()),
            None => Tlv::Array(elem.into_iter().map(anon).collect()),
        });
    }
    elem.unwrap()
}

#[test]
fn deeply_nested_tlv_is_rejected_not_aborted() {
    assert!(tlv_to_json(&nested(MAX_DEPTH as usize, None)).is_ok());
    assert!(tlv_to_json(&nested(400, None)).is_err());
}

#[test]
fn deeply_nested_named_tlv_is_rejected_not_aborted() {
    // Same cap along the named path, which walks structs field by field.
    let all = clusters();
    let keys = cluster(&all, 63);
    let input = keys.find_struct("KeySetWriteRequest").unwrap();
    assert!(tlv_to_json_named(&nested(MAX_DEPTH as usize, Some(0)), &input.fields, keys).is_ok());
    assert!(tlv_to_json_named(&nested(400, Some(0)), &input.fields, keys).is_err());
}

/// The first depth that is rejected, on either path.
#[test]
fn the_depth_cap_is_one_past_the_limit() {
    let all = clusters();
    let keys = cluster(&all, 63);
    let input = keys.find_struct("KeySetWriteRequest").unwrap();
    let limit = MAX_DEPTH as usize + 1;
    assert!(tlv_to_json(&nested(limit, None)).is_ok());
    assert_eq!(tlv_to_json(&nested(limit + 1, None)), Err(invalid()));
    assert!(tlv_to_json_named(&nested(limit, Some(0)), &input.fields, keys).is_ok());
    assert_eq!(
        tlv_to_json_named(&nested(limit + 1, Some(0)), &input.fields, keys),
        Err(invalid())
    );
}

#[test]
fn named_conversion_uses_gen_fields() {
    // OperationalCredentials NOCResponse: statusCode=0, fabricIndex=1
    let all = clusters();
    let creds = cluster(&all, 62);
    let resp = creds.find_struct("NOCResponse").unwrap();
    let elem = Tlv::Struct(vec![ctx(0, Tlv::U8(0)), ctx(1, Tlv::U8(3))]);
    let v = tlv_to_json_named(&elem, &resp.fields, creds).unwrap();
    assert_same(&v, &object(vec![("statusCode", num(0)), ("fabricIndex", num(3))]));
}

#[test]
fn named_conversion_falls_back_to_numeric_key() {
    // A field id the tables do not know must survive as its decimal key rather
    // than being dropped.
    let all = clusters();
    let creds = cluster(&all, 62);
    let resp = creds.find_struct("NOCResponse").unwrap();
    let elem = Tlv::Struct(vec![ctx(0, Tlv::U8(0)), ctx(9, Tlv::U8(7))]);
    let v = tlv_to_json_named(&elem, &resp.fields, creds).unwrap();
    assert_same(&v, &object(vec![("statusCode", num(0)), ("9", num(7))]));
}

#[test]
fn named_conversion_recurses_into_nested_struct() {
    // Nested naming, base64 octets and epoch_us inside the nesting.
    let all = clusters();
    let keys = cluster(&all, 63);
    let resp = keys.find_struct("KeySetReadResponse").unwrap();
    let elem = Tlv::Struct(vec![ctx(
        0,
        Tlv::Struct(vec![
            ctx(0, Tlv::U8(42)),
            ctx(2, Tlv::Octets(vec![0xDE, 0xAD])),
            ctx(3, Tlv::U8(100)),
        ]),
    )]);
    let v = tlv_to_json_named(&elem, &resp.fields, keys).unwrap();
    assert_same(
        &v,
        &object(vec![(
            "groupKeySet",
            object(vec![
                ("groupKeySetID", num(42)),
                ("epochKey0", text("3q0=")),
                ("epochStartTime0", num(100u64 + MATTER_EPOCH_OFFSET_US)),
            ]),
        )]),
    );
}

#[test]
fn uppercase_idl_type_names_are_recognized_on_read() {
    let all = clusters();
    let media = cluster(&all, 1286);
    let ev = media.event(0).unwrap();
    assert_eq!(ev.fields.iter().find(|f| f.code == 1).unwrap().ty, "EPOCH_US");
    let elem = Tlv::Struct(vec![ctx(1, Tlv::U8(100))]);
    let v = tlv_to_json_named(&elem, &ev.fields, media).unwrap();
    assert_same(&v, &object(vec![("startTime", num(100u64 + MATTER_EPOCH_OFFSET_US))]));
}

#[test]
fn uppercase_idl_type_names_are_recognized_on_write() {
    // OCTET_STRING must base64-decode (not write the text through), INT8U must
    // range-check.
    assert_eq!(
        write(&text("3q0="), hint("OCTET_STRING")).unwrap(),
        write(&text("3q0="), hint("octet_string")).unwrap()
    );
    assert_eq!(
        write(&text("hi"), hint("CHAR_STRING")).unwrap(),
        write(&text("hi"), hint("char_string")).unwrap()
    );
    assert_eq!(
        write(&num(100u64 + MATTER_EPOCH_OFFSET_US), hint("EPOCH_US")).unwrap(),
        write(&num(100u64 + MATTER_EPOCH_OFFSET_US), hint("epoch_us")).unwrap()
    );
    assert!(write(&num(300), hint("INT8U")).is_err());
    assert!(write(&num(300), hint("int8u")).is_err());
}

#[test]
fn write_named_payload_roundtrip() {
    // LevelControl MoveToLevelRequest { level: int8u = 0, transitionTime = 1, ... }
    let all = clusters();
    let level = cluster(&all, 8);
    let input = level.find_struct("MoveToLevelRequest").unwrap();
    let payload = object(vec![
        ("level", num(100)),
        ("transitionTime", Json::Null),
        ("optionsMask", num(0)),
        ("optionsOverride", num(0)),
    ]);
    let elem = write_json_named(entries(&payload), &input.fields, level).unwrap();
    let back = tlv_to_json(&elem).unwrap();
    assert_eq!(back.get("0"), Some(&num(100)));
    assert_eq!(back.get("1"), Some(&Json::Null));
    // Whole object, so a stray extra member can't slip through.
    assert_same(
        &back,
        &object(vec![("0", num(100)), ("1", Json::Null), ("2", num(0)), ("3", num(0))]),
    );
}

#[test]
fn write_named_unknown_field_errors() {
    let all = clusters();
    let level = cluster(&all, 8);
    let input = level.find_struct("MoveToLevelRequest").unwrap();
    let payload = object(vec![("nope", num(1))]);
    assert!(write_json_named(entries(&payload), &input.fields, level).is_err());
}

#[test]
fn write_named_resolves_field_names_case_insensitively() {
    let all = clusters();
    let level = cluster(&all, 8);
    let input = level.find_struct("MoveToLevelRequest").unwrap();
    let payload = object(vec![("Level", num(5))]);
    let elem = write_json_named(entries(&payload), &input.fields, level).unwrap();
    assert_same(&tlv_to_json(&elem).unwrap(), &object(vec![("0", num(5))]));
}

#[test]
fn write_named_duplicate_keys_error() {
    // "level" and "Level" are the same field: dropping one silently would
    // encode a payload the caller didn't ask for.
    let all = clusters();
    let level = cluster(&all, 8);
    let input = level.find_struct("MoveToLevelRequest").unwrap();
    let payload = object(vec![("level", num(1)), ("Level", num(2))]);
    assert!(write_json_named(entries(&payload), &input.fields, level).is_err());
}

#[test]
fn tag_based_duplicate_keys_error() {
    // "1", "01" and "+1" all parse to context tag 1.
    assert!(write(&object(vec![("1", num(11)), ("+1", num(22))]), None).is_err());
    assert!(write(&object(vec![("1", num(11)), ("01", num(33))]), None).is_err());
}

#[test]
fn write_named_nested_struct_roundtrip() {
    // Nested struct members may arrive name-based (matching the payload's own
    // convention) or tag-based; both must land on the same TLV.
    let all = clusters();
    let keys = cluster(&all, 63);
    let input = keys.find_struct("KeySetWriteRequest").unwrap();
    let resp = keys.find_struct("KeySetReadResponse").unwrap();
    let unix_us = 100u64 + MATTER_EPOCH_OFFSET_US;
    let named = object(vec![(
        "groupKeySet",
        object(vec![
            ("groupKeySetID", num(42)),
            ("groupKeySecurityPolicy", num(1)),
            ("epochKey0", text("3q0=")),
            ("epochStartTime0", num(unix_us)),
            ("epochKey1", Json::Null),
        ]),
    )]);
    let tagged = object(vec![(
        "groupKeySet",
        object(vec![
            ("0", num(42)),
            ("1", num(1)),
            ("2", text("3q0=")),
            ("3", num(unix_us)),
            ("4", Json::Null),
        ]),
    )]);
    let from_named = write_json_named(entries(&named), &input.fields, keys).unwrap();
    assert_eq!(from_named, write_json_named(entries(&tagged), &input.fields, keys).unwrap());
    // epoch_us survives the round trip: written matter-relative, read back Unix.
    let back = tlv_to_json_named(&from_named, &resp.fields, keys).unwrap();
    let set = back.get("groupKeySet").unwrap();
    assert_eq!(set.get("epochStartTime0"), Some(&num(unix_us)));
    assert_eq!(set.get("epochKey0"), Some(&text("3q0=")));
    assert_eq!(set.get("epochKey1"), Some(&Json::Null));
}

#[test]
fn nested_struct_hint_without_cluster_errors() {
    // No cluster means the struct type can't be resolved, so name-based keys
    // have nothing to resolve against and must not be silently mangled.
    let named = object(vec![("groupKeySetID", num(42))]);
    assert!(write(&named, hint("GroupKeySetStruct")).is_err());
    // Tag-based keys still encode: they need no field table.
    let tagged = object(vec![("0", num(42))]);
    assert_eq!(
        write(&tagged, hint("GroupKeySetStruct")).unwrap(),
        write(&tagged, None).unwrap()
    );
}

#[test]
fn write_tag_based_with_octet_hint_roundtrip() {
    let elem = write_json(
        &text("3q0="),
        Some(TypeHint { ty: "octet_string", is_list: false, cluster: None }),
    )
    .unwrap();
    assert_eq!(elem, Tlv::Octets(vec![0xDE, 0xAD]));
}

#[test]
fn write_list_hint_wraps_array() {
    let elem = write_json(
        &Json::Array(vec![num(1), num(2), num(3)]),
        Some(TypeHint { ty: "int16u", is_list: true, cluster: None }),
    )
    .unwrap();
    let back = tlv_to_json(&elem).unwrap();
    assert_same(&back, &Json::Array(vec![num(1), num(2), num(3)]));
}

#[test]
fn write_hint_rejects_out_of_range_value() {
    assert!(write_json(
        &num(300),
        Some(TypeHint { ty: "int8u", is_list: false, cluster: None })
    )
    .is_err());
}

#[test]
fn odd_width_integers_stay_signed_and_range_checked() {
    // int40s/48s/56s have no TLV type of their own. They must still encode as
    // *signed* (a strict device rejects U8 for a signed field) and reject
    // values outside their declared width.
    assert_eq!(write(&num(5), hint("int40s")).unwrap(), Tlv::S8(5));
    assert!(write(&signed(1i64 << 39), hint("int40s")).is_err());
    assert!(write(&signed(-(1i64 << 39) - 1), hint("int40s")).is_err());
    assert!(write(&signed((1i64 << 39) - 1), hint("int40s")).is_ok());
    // int24u/int24s are range-checked to their real width, not to 32 bits.
    assert!(write(&num(1u64 << 24), hint("int24u")).is_err());
    assert!(write(&num((1u64 << 24) - 1), hint("int24u")).is_ok());
    assert!(write(&signed(1i64 << 23), hint("int24s")).is_err());
}

#[test]
fn float_hints_roundtrip_and_reject_overflow() {
    let single = write(&float(1.5), hint("single")).unwrap();
    assert_eq!(tlv_to_json(&single).unwrap(), float(1.5));
    let double = write(&float(1e300), hint("double")).unwrap();
    assert_eq!(tlv_to_json(&double).unwrap(), float(1e300));
    // `1e300 as f32` saturates to inf, which reads back as JSON null.
    assert!(write(&float(1e300), hint("single")).is_err());
}

#[test]
fn write_without_hint_uses_heuristics() {
    let v = object(vec![
        ("0", Json::Bool(true)),
        ("1", signed(-7)),
        ("2", num(70000)),
        ("3", text("hi")),
        ("4", Json::Array(vec![num(1), Json::Null])),
        ("5", float(1.5)),
    ]);
    let back = tlv_to_json(&write_json(&v, None).unwrap()).unwrap();
    assert_same(&back, &v);
}

#[test]
fn tag_based_object_sorts_context_tags() {
    let v = object(vec![("2", num(2)), ("0", num(0)), ("10", num(10))]);
    let back = tlv_to_json(&write_json(&v, None).unwrap()).unwrap();
    assert_same(&back, &object(vec![("0", num(0)), ("2", num(2)), ("10", num(10))]));
}

#[test]
fn tag_based_object_emits_ascending_context_tags() {
    let v = object(vec![("10", num(10)), ("2", num(2)), ("0", num(0))]);
    let elem = write_json(&v, None).unwrap();
    let tags: Vec<u8> = match elem {
        Tlv::Struct(members) => members
            .iter()
            .map(|m| match m.tag {
                Tag::Context(n) => n,
                _ => panic!("no context tag"),
            })
            .collect(),
        _ => panic!("not a struct"),
    };
    assert_eq!(tags, vec![0, 2, 10]);
}

#[test]
fn epoch_seconds_attribute_converts_to_unix() {
    let v = apply_epoch("epoch_s", tlv_to_json(&Tlv::U8(100)).unwrap()).unwrap();
    assert_eq!(v, num(100u64 + MATTER_EPOCH_OFFSET_S));
}

#[test]
fn epoch_seconds_attribute_via_attr_table() {
    // SmokeCoAlarm (92) expiryDate (12) is typed epoch_s.
    let all = clusters();
    assert_eq!(cluster(&all, 92).attr(12).unwrap().ty, "epoch_s");
    let v = attr_value_to_json(&all, 92, 12, &Tlv::U8(100)).unwrap();
    assert_eq!(v, num(100u64 + MATTER_EPOCH_OFFSET_S));
}

#[test]
fn epoch_micros_attribute_converts_to_unix() {
    // TimeSynchronization (56) UTCTime (0) is typed epoch_us, so the offset has
    // to come from the tables.
    let v = attr_value_to_json(&clusters(), 56, 0, &Tlv::U8(100)).unwrap();
    assert_eq!(v, num(100u64 + MATTER_EPOCH_OFFSET_US));
}

#[test]
fn epoch_read_overflow_errors() {
    // Emitting the unshifted value would look like a valid Unix timestamp
    // and the reverse trip would "succeed" on a different instant.
    assert!(apply_epoch("epoch_us", num(u64::MAX)).is_err());
    // A nullable epoch that came back Null still passes through.
    assert_eq!(apply_epoch("epoch_s", Json::Null).unwrap(), Json::Null);
}

#[test]
fn epoch_write_bounds_are_checked() {
    // Below the Matter epoch: not a Unix timestamp at all.
    assert!(write(&num(100), hint("epoch_s")).is_err());
    assert!(write(&num(100), hint("epoch_us")).is_err());
    // epoch_s is a u32 on the wire, so a Unix time past 2106 doesn't fit.
    assert!(write(&num(MATTER_EPOCH_OFFSET_S + u32::MAX as u64), hint("epoch_s")).is_ok());
    assert!(write(&num(MATTER_EPOCH_OFFSET_S + u32::MAX as u64 + 1), hint("epoch_s")).is_err());
}

#[test]
fn attr_value_of_unknown_cluster_passes_through() {
    assert_eq!(
        attr_value_to_json(&clusters(), 0xFFF1_0001, 0, &Tlv::U8(100)).unwrap(),
        num(100)
    );
}

#[test]
fn invalid_utf8_string_converts_lossily_instead_of_failing() {
    // 0xFF is not valid UTF-8, 'b' is.
    let v = tlv_to_json(&Tlv::Utf8(vec![0xFF, b'b'])).expect("lossy, not an error");
    assert_eq!(v, text("\u{FFFD}b"));

    // Valid UTF-8 is kept.
    assert_eq!(tlv_to_json(&Tlv::Utf8(vec![b'h', b'i'])).unwrap(), text("hi"));

    // Octet strings still go out as base64, not text.
    assert_eq!(tlv_to_json(&Tlv::Octets(vec![0xFF, 0x00])).unwrap(), text("/wA="));
}

#[test]
fn invalid_utf8_in_struct_field_converts_lossily_via_named_path() {
    // KeySetWriteRequest.groupKeySet is typed GroupKeySetStruct; a string in that
    // slot takes the path of a struct-typed field.
    let all = clusters();
    let keys = cluster(&all, 63);
    let input = keys.find_struct("KeySetWriteRequest").unwrap();
    let elem = Tlv::Struct(vec![ctx(0, Tlv::Utf8(vec![0xFF, b'y']))]);
    let v = tlv_to_json_named(&elem, &input.fields, keys).unwrap();
    assert_same(&v, &object(vec![("groupKeySet", text("\u{FFFD}y"))]));
}

#[test]
fn nested_epoch_fields_pass_through_raw_top_level_still_converts() {
    // [ { 0: offset=3600, 1: validAt=0 (Matter epoch), 2: "CET" } ]
    let all = clusters();
    let elem = Tlv::Array(vec![anon(Tlv::Struct(vec![
        ctx(0, Tlv::S16(3600)),
        ctx(1, Tlv::U8(0)),
        ctx(2, utf8("CET")),
    ]))]);
    let v = attr_value_to_json(&all, 56, 5, &elem).unwrap();
    assert_same(
        &v,
        &Json::Array(vec![object(vec![
            ("0", num(3600)),
            ("1", num(0)),
            ("2", text("CET")),
        ])]),
    );

    // Top-level epoch attributes keep working: 56/0 UTCTime is epoch_us.
    assert_eq!(
        attr_value_to_json(&all, 56, 0, &Tlv::U8(0)).unwrap(),
        num(946_684_800_000_000u64)
    );
}

#[test]
fn integers_take_the_narrowest_element() {
    assert_eq!(write(&num(255), None).unwrap(), Tlv::U8(255));
    assert_eq!(write(&num(256), None).unwrap(), Tlv::U16(256));
    assert_eq!(write(&num(70_000), hint("int64u")).unwrap(), Tlv::U32(70_000));
    assert_eq!(write(&num(1 << 32), None).unwrap(), Tlv::U64(1 << 32));
    assert_eq!(write(&signed(-128), None).unwrap(), Tlv::S8(-128));
    assert_eq!(write(&signed(-129), hint("int64s")).unwrap(), Tlv::S16(-129));
    assert_eq!(write(&num(40_000), hint("int32s")).unwrap(), Tlv::S32(40_000));
    assert_eq!(write(&signed(i64::MIN), hint("int64s")).unwrap(), Tlv::S64(i64::MIN));
    // Whatever the element, the value reads the same.
    for elem in [Tlv::U8(7), Tlv::U16(7), Tlv::U32(7), Tlv::U64(7), Tlv::S8(7), Tlv::S64(7)] {
        assert_eq!(tlv_to_json(&elem).unwrap(), num(7));
    }
}

/// The limit of the single slot is the one the conversion to `f32` has.
#[test]
fn single_slots_take_what_narrows_to_a_finite_number() {
    let max = f32::MAX as f64;
    let half_step = 2f64.powi(103);
    for x in [
        0.0,
        -0.0,
        1.5,
        1e-300,
        max,
        -max,
        max + half_step * 0.999,
        max + half_step,
        f64::from_bits((max + half_step).to_bits() - 1),
        -(max + half_step),
        1e39,
        f64::MAX,
    ] {
        let fits = (x as f32).is_finite();
        assert_eq!(write(&float(x), hint("single")).is_ok(), fits, "{x:e}");
    }
    assert!(write(&num(u64::MAX), hint("single")).is_ok());
}

#[test]
fn floats_that_are_not_numbers_read_as_null() {
    for x in [f64::NAN, f64::INFINITY, f64::NEG_INFINITY] {
        let n = Number::Float(x.to_bits());
        assert_eq!(tlv_to_json(&Tlv::Double(n)).unwrap(), Json::Null);
        assert_eq!(tlv_to_json(&Tlv::Single(n)).unwrap(), Json::Null);
    }
}

#[test]
fn slots_reject_values_of_another_shape() {
    assert_eq!(write(&num(1), hint("boolean")), Err(invalid()));
    assert_eq!(write(&Json::Bool(true), hint("int8u")), Err(invalid()));
    assert_eq!(write(&num(1), hint("char_string")), Err(invalid()));
    assert_eq!(write(&text("not base64!"), hint("octet_string")), Err(invalid()));
    assert_eq!(write(&float(1.5), hint("int8u")), Err(invalid()));
    assert_eq!(write(&signed(-1), hint("int8u")), Err(invalid()));
    assert_eq!(
        write(&num(1), Some(TypeHint { ty: "int8u", is_list: true, cluster: None })),
        Err(invalid())
    );
    assert_eq!(write(&object(vec![("256", num(1))]), None), Err(invalid()));
    assert_eq!(write(&Json::Null, hint("int8u")).unwrap(), Tlv::Null);
}

#[test]
fn broken_elements_hand_their_error_on() {
    let broken = SdkError { code: ErrorCode::Other, text: "TLVTypeMismatch".to_string() };
    let again = SdkError { code: ErrorCode::Other, text: "TLVTypeMismatch".to_string() };
    assert_eq!(tlv_to_json(&Tlv::Malformed(broken)), Err(again));
    assert_eq!(tlv_to_json(&Tlv::EndOfContainer), Err(invalid()));
}

#[test]
fn a_struct_member_without_a_context_tag_is_skipped() {
    let elem = Tlv::Struct(vec![anon(Tlv::U8(1)), ctx(4, Tlv::U8(2))]);
    assert_same(&tlv_to_json(&elem).unwrap(), &object(vec![("4", num(2))]));
}

/// A payload in the field names reads back as it was written, in whatever case
/// its keys were spelled and whatever order they came in.
#[test]
fn named_payloads_are_read_back() {
    let all = clusters();
    let keys = cluster(&all, 63);
    let set = keys.find_struct("GroupKeySetStruct").unwrap();
    let payload = object(vec![
        ("epochKey1", text("3q0=")),
        ("EPOCHSTARTTIME0", num(MATTER_EPOCH_OFFSET_US)),
        ("groupKeySetID", num(65535)),
    ]);
    let elem = write_json_named(entries(&payload), &set.fields, keys).unwrap();
    let back = tlv_to_json_named(&elem, &set.fields, keys).unwrap();
    assert_same(
        &back,
        &object(vec![
            ("groupKeySetID", num(65535)),
            ("epochStartTime0", num(MATTER_EPOCH_OFFSET_US)),
            ("epochKey1", text("3q0=")),
        ]),
    );
}

#[test]
fn neither_spelling_nor_order_of_keys_shows() {
    let plain = write(&object(vec![("1", num(11)), ("2", text("a"))]), None).unwrap();
    let other = write(&object(vec![("+2", text("a")), ("01", num(11))]), None).unwrap();
    assert_eq!(format!("{plain:?}"), format!("{other:?}"));
    let wrong = write(&object(vec![("+1", text("a")), ("02", num(11))]), None).unwrap();
    assert_ne!(format!("{plain:?}"), format!("{wrong:?}"));
}

/// Every level of this chain is a field the tables know.
fn chain(levels: usize, tag: u8, last: Tlv) -> Tlv {
    let mut elem = Tlv::Struct(vec![ctx(tag, last)]);
    for _ in 1..levels {
        elem = Tlv::Struct(vec![ctx(0, elem)]);
    }
    elem
}

#[test]
fn an_unreadable_field_fails_with_its_own_error_at_any_depth() {
    let mut c = cluster_named(1, "Chain");
    c.structs.push(structure("Link", vec![field(0, "next", "Link"), field(1, "end", "int8u")]));
    let read = |t: Tlv| tlv_to_json_named(&t, &c.structs[0].fields, &c);
    let broken = || SdkError { code: ErrorCode::Other, text: "TLVTypeMismatch".to_string() };
    let limit = MAX_DEPTH as usize + 1;
    assert_eq!(read(chain(1, 1, Tlv::Malformed(broken()))), Err(broken()));
    assert_eq!(read(chain(limit, 1, Tlv::Malformed(broken()))), Err(broken()));
    // A field the tables do not know is looked at only within the depth, and so is
    // any other value.
    assert_eq!(read(chain(limit, 7, Tlv::Malformed(broken()))), Err(invalid()));
    assert_eq!(read(chain(limit, 1, Tlv::U8(1))), Err(invalid()));
    assert!(read(chain(limit - 1, 1, Tlv::U8(1))).is_ok());
    assert!(read(chain(limit, 1, utf8("x"))).is_ok());
}
