use matter_stack::ctx::StackCtx;
use matter_stack::error::invalid;
use matter_stack::idl::{find_cluster, Attr, Cluster, Event, Field};
use matter_stack::json::{Json, Number};
use matter_stack::reports::{
    convert_timestamp, event_json, handle_report, list_index, path_string, unix_millis,
    walk_events, AttrAccumulator, AttrPath, AttrReport, EventData, EventPath, EventReport,
    EventTimestamp, ReportData, ReportRefusal, ReportSource,
};
use matter_stack::snapshot::by_path;
use matter_stack::stack_api::{NodeEventData, StackEvent};
use matter_stack::text::text_precedes;
use matter_stack::tlv::{Member, Tag, Tlv};
use matter_stack::tlv_json::MATTER_EPOCH_OFFSET_US;
use std::time::{Duration, SystemTime, UNIX_EPOCH};

fn num(n: u64) -> Json {
    Json::Number(Number::PosInt(n))
}

fn object(entries: Vec<(&str, Json)>) -> Json {
    Json::Object(entries.into_iter().map(|(k, v)| (k.to_string(), v)).collect())
}

fn since_epoch(t: SystemTime) -> Option<u128> {
    t.duration_since(UNIX_EPOCH).ok().map(|d| d.as_millis())
}

fn clusters() -> Vec<Cluster> {
    vec![
        Cluster {
            id: 40,
            name: "BasicInformation".to_string(),
            attrs: vec![Attr { code: 1, ty: "char_string".to_string(), is_list: false }],
            commands: Vec::new(),
            events: vec![Event {
                code: 0,
                fields: vec![Field {
                    code: 0,
                    name: "softwareVersion".to_string(),
                    ty: "int32u".to_string(),
                    is_list: false,
                }],
            }],
            structs: Vec::new(),
        },
        Cluster {
            id: 56,
            name: "TimeSynchronization".to_string(),
            attrs: vec![Attr { code: 0, ty: "epoch_us".to_string(), is_list: false }],
            commands: Vec::new(),
            events: Vec::new(),
            structs: Vec::new(),
        },
    ]
}

/// A concrete path, optionally carrying the list index of a chunked list report.
fn path(e: u16, cl: u32, a: u32, list_index: Option<Option<u16>>) -> AttrPath {
    AttrPath {
        endpoint: Some(e),
        cluster: Some(cl),
        attr: Some(a),
        list_index,
        ..Default::default()
    }
}

fn data(path: AttrPath, value: Tlv) -> AttrReport {
    AttrReport::Data { path, value }
}

fn absorb(reports: Vec<AttrReport>) -> AttrAccumulator {
    let mut acc = AttrAccumulator::new();
    acc.absorb(&reports, &clusters());
    acc
}

#[test]
fn unchunked_attribute_keeps_its_value() {
    let acc = absorb(vec![data(path(1, 6, 0, None), Tlv::U8(42))]);
    assert_eq!(acc.into_pairs(), vec![("1/6/0".to_string(), num(42))]);
}

#[test]
fn chunked_list_is_merged_back_into_an_array() {
    let acc = absorb(vec![
        // A null list index opens the array.
        data(path(0, 29, 3, Some(None)), Tlv::Array(Vec::new())),
        data(path(0, 29, 3, Some(Some(0))), Tlv::U8(11)),
        data(path(0, 29, 3, Some(Some(1))), Tlv::U8(22)),
        data(path(0, 29, 3, Some(Some(2))), Tlv::U8(33)),
    ]);
    assert!(acc.saw_list_chunks());
    assert!(acc.orphan_appends().is_empty());
    assert_eq!(
        acc.into_pairs(),
        vec![("0/29/3".to_string(), Json::Array(vec![num(11), num(22), num(33)]))]
    );
}

#[test]
fn list_element_without_an_opening_array_is_flagged_not_hidden() {
    let acc = absorb(vec![data(path(0, 29, 3, Some(Some(4))), Tlv::U8(11))]);
    assert_eq!(acc.orphan_appends(), &["0/29/3"]);
    // The element still reaches the client rather than vanishing.
    assert_eq!(acc.into_pairs(), vec![("0/29/3".to_string(), Json::Array(vec![num(11)]))]);
}

#[test]
fn wire_order_is_preserved_across_a_merge() {
    let acc = absorb(vec![
        data(path(0, 40, 1, None), Tlv::U8(1)),
        data(path(0, 29, 3, Some(None)), Tlv::Array(Vec::new())),
        data(path(0, 29, 3, Some(Some(0))), Tlv::U8(2)),
        data(path(0, 40, 2, None), Tlv::U8(3)),
    ]);
    let keys: Vec<String> = acc.into_pairs().into_iter().map(|(k, _)| k).collect();
    assert_eq!(keys, ["0/40/1", "0/29/3", "0/40/2"]);
}

#[test]
fn one_bad_attribute_does_not_lose_the_others() {
    // TimeSynchronization (56) / UTCTime (0) is epoch_us, so the largest value
    // overflows the shift.
    let all = clusters();
    let a = find_cluster(&all, 56).expect("TimeSynchronization").attr(0).expect("UTCTime");
    assert!(a.ty.eq_ignore_ascii_case("epoch_us"), "expected epoch_us, got {}", a.ty);
    let acc = absorb(vec![
        data(path(0, 56, 0, None), Tlv::U64(u64::MAX)),
        data(path(0, 40, 1, None), Tlv::Utf8(b"acme".to_vec())),
    ]);
    assert_eq!(acc.failures(), 1, "the bad attribute is counted, not fatal");
    assert_eq!(acc.into_pairs(), vec![("0/40/1".to_string(), Json::Text("acme".to_string()))]);
}

#[test]
fn per_path_status_entries_are_skipped_not_counted_as_failures() {
    let acc = absorb(vec![AttrReport::Status]);
    assert_eq!(acc.failures(), 0);
    assert!(acc.into_pairs().is_empty());
}

#[test]
fn wildcard_path_in_a_report_is_rejected() {
    let acc = absorb(vec![data(
        AttrPath { endpoint: Some(1), cluster: Some(6), ..Default::default() },
        Tlv::U8(42),
    )]);
    assert_eq!(acc.failures(), 1);
    assert!(acc.into_pairs().is_empty());
}

#[test]
fn unreadable_entries_are_counted() {
    let acc = absorb(vec![AttrReport::Unparseable, data(path(0, 40, 1, None), Tlv::U8(1))]);
    assert_eq!(acc.failures(), 1);
    assert_eq!(acc.into_pairs(), vec![("0/40/1".to_string(), num(1))]);
}

#[test]
fn a_later_report_replaces_the_value_in_place() {
    let acc = absorb(vec![
        data(path(0, 40, 1, None), Tlv::U8(1)),
        data(path(0, 40, 2, None), Tlv::U8(2)),
        data(path(0, 40, 1, None), Tlv::U8(3)),
    ]);
    assert_eq!(
        acc.into_pairs(),
        vec![("0/40/1".to_string(), num(3)), ("0/40/2".to_string(), num(2))]
    );
}

#[test]
fn path_keys_are_decimal_segments() {
    assert_eq!(path_string(0, 0, 0), "0/0/0");
    assert_eq!(path_string(65535, u32::MAX, 10), "65535/4294967295/10");
    assert_eq!(list_index(&path(0, 29, 3, Some(Some(7)))), Some(7));
    assert_eq!(list_index(&path(0, 29, 3, Some(None))), None);
    assert_eq!(list_index(&path(0, 29, 3, None)), None);
}

#[test]
fn epoch_timestamp_becomes_unix_millis() {
    // 2024-01-01T00:00:00Z = 1_704_067_200_000 unix ms
    //                      =   757_382_400_000_000 us since the Matter epoch
    let (ms, ty) = convert_timestamp(&EventTimestamp::Epoch(757_382_400_000_000), 5);
    assert_eq!((ms, ty), (1_704_067_200_000, 1));
}

#[test]
fn largest_epoch_timestamp_stays_positive_and_exact() {
    let (ms, ty) = convert_timestamp(&EventTimestamp::Epoch(u64::MAX), 5);
    let expected = i64::try_from(u64::MAX / 1000 + MATTER_EPOCH_OFFSET_US / 1000).unwrap();
    assert_eq!((ms, ty), (expected, 1));
}

#[test]
fn system_timestamp_passes_through_as_type_zero() {
    let (ms, ty) = convert_timestamp(&EventTimestamp::System(90_000), 5);
    assert_eq!((ms, ty), (90_000, 0));
}

#[test]
fn system_timestamp_beyond_i64_saturates() {
    let (ms, ty) = convert_timestamp(&EventTimestamp::System(u64::MAX), 5);
    assert_eq!((ms, ty), (i64::MAX, 0));
}

#[test]
fn delta_timestamps_fall_back_to_local_clock() {
    for ts in [EventTimestamp::DeltaEpoch(500), EventTimestamp::DeltaSystem(500)] {
        let before = unix_millis(since_epoch(SystemTime::now()));
        let (ms, ty) = convert_timestamp(&ts, unix_millis(since_epoch(SystemTime::now())));
        let after = unix_millis(since_epoch(SystemTime::now()));
        assert_eq!(ty, 2);
        assert!((before..=after).contains(&ms), "{ms} not in {before}..={after}");
    }
}

#[test]
fn pre_epoch_clock_yields_zero_rather_than_a_negative_timestamp() {
    assert_eq!(unix_millis(since_epoch(UNIX_EPOCH)), 0);
    let before_epoch = UNIX_EPOCH
        .checked_sub(Duration::from_secs(1))
        .expect("representable on this platform");
    assert_eq!(unix_millis(since_epoch(before_epoch)), 0);
}

#[test]
fn a_clock_beyond_the_range_yields_zero() {
    assert_eq!(unix_millis(Some(i64::MAX as u128)), i64::MAX);
    assert_eq!(unix_millis(Some(i64::MAX as u128 + 1)), 0);
    assert_eq!(unix_millis(Some(1_704_067_200_000)), 1_704_067_200_000);
}

fn start_up(version: u8) -> Option<Tlv> {
    Some(Tlv::Struct(vec![Member { tag: Tag::Context(0), value: Tlv::U8(version) }]))
}

#[test]
fn known_event_payload_is_named() {
    // BasicInformation (40) / StartUp (0) { softwareVersion = 0 }
    let v = event_json(&clusters(), 40, 0, &start_up(7));
    assert_eq!(v, object(vec![("softwareVersion", num(7))]));
}

#[test]
fn unknown_event_falls_back_to_tag_based() {
    let all = clusters();
    // Cluster known, event id it has never heard of.
    assert_eq!(event_json(&all, 40, 9999, &start_up(7)), object(vec![("0", num(7))]));
    // Cluster unknown entirely.
    assert_eq!(event_json(&all, 0xFFF1_0001, 0, &start_up(7)), object(vec![("0", num(7))]));
}

#[test]
fn empty_payload_is_null() {
    assert_eq!(event_json(&clusters(), 40, 0, &None), Json::Null);
}

#[test]
fn malformed_payload_is_null_not_a_panic() {
    let all = clusters();
    // A struct that never closes: its next member cannot be read.
    let open = Tlv::Struct(vec![Member {
        tag: Tag::Unreadable(invalid()),
        value: Tlv::Malformed(invalid()),
    }]);
    assert_eq!(event_json(&all, 40, 0, &Some(open)), Json::Null);
    assert_eq!(event_json(&all, 40, 0, &Some(Tlv::Malformed(invalid()))), Json::Null);
}

fn event(number: u64) -> EventReport {
    EventReport::Data(EventData {
        path: EventPath { endpoint: Some(0), cluster: Some(40), event: Some(0) },
        event_number: number,
        priority: 2,
        timestamp: EventTimestamp::System(1_000),
        data: start_up(7),
    })
}

#[test]
fn walking_events_skips_what_is_no_event() {
    let reports = vec![EventReport::Status, event(4), EventReport::Unparseable, event(5)];
    let numbers: Vec<u64> = walk_events(&reports).iter().map(|d| d.event_number).collect();
    assert_eq!(numbers, [4, 5]);
}

fn subscribed() -> StackCtx {
    let mut ctx = StackCtx::new(1);
    ctx.subs.insert(7, 99);
    ctx
}

#[test]
fn a_report_of_the_live_subscription_is_forwarded() {
    let mut ctx = subscribed();
    let source = ReportSource { subscription_id: Some(99), fabric_idx: 1, peer_node_id: 7 };
    let report = ReportData {
        attr_reports: vec![data(path(1, 6, 0, None), Tlv::Bool(true))],
        event_reports: vec![event(3), event(3), event(4)],
        more_chunks: false,
    };
    let got = handle_report(&mut ctx, source, &report, &clusters(), 1_234, 5).unwrap();
    let node_event = |number: u64| StackEvent::NodeEvent {
        node_id: 7,
        event: NodeEventData {
            endpoint_id: 0,
            cluster_id: 40,
            event_id: 0,
            event_number: number,
            priority: 2,
            timestamp: 1_000,
            timestamp_type: 0,
            data: object(vec![("softwareVersion", num(7))]),
        },
    };
    assert_eq!(
        got,
        vec![
            StackEvent::AttributesChanged {
                node_id: 7,
                changes: vec![("1/6/0".to_string(), Json::Bool(true))],
            },
            node_event(3),
            node_event(4),
        ]
    );
    assert_eq!(ctx.liveness.get(&7), Some(&1_234));
    assert_eq!(ctx.last_event.get(&7), Some(&4));

    // The same events again: nothing new, but the node is alive.
    let replay = ReportData {
        attr_reports: Vec::new(),
        event_reports: vec![event(4)],
        more_chunks: false,
    };
    assert_eq!(handle_report(&mut ctx, source, &replay, &clusters(), 2_000, 5), Ok(Vec::new()));
    assert_eq!(ctx.liveness.get(&7), Some(&2_000));
}

#[test]
fn a_report_of_no_live_subscription_is_refused() {
    let sources = [
        ReportSource { subscription_id: None, fabric_idx: 1, peer_node_id: 7 },
        ReportSource { subscription_id: Some(98), fabric_idx: 1, peer_node_id: 7 },
        // The id of node 7's subscription, in the mouth of another node.
        ReportSource { subscription_id: Some(99), fabric_idx: 1, peer_node_id: 8 },
        // And from another fabric.
        ReportSource { subscription_id: Some(99), fabric_idx: 2, peer_node_id: 7 },
    ];
    for source in sources {
        let mut ctx = subscribed();
        let report = ReportData {
            attr_reports: vec![data(path(1, 6, 0, None), Tlv::Bool(true))],
            event_reports: vec![event(3)],
            more_chunks: false,
        };
        assert_eq!(
            handle_report(&mut ctx, source, &report, &clusters(), 1_234, 5),
            Err(ReportRefusal::InvalidSubscription)
        );
        assert!(ctx.liveness.is_empty());
        assert!(ctx.last_event.is_empty());
    }
}

#[test]
fn a_snapshot_is_ordered_by_path_text() {
    let pair = |k: &str, n: u64| (k.to_string(), num(n));
    let wire = vec![
        pair("2/6/0", 1),
        pair("1/6/0", 2),
        pair("10/6/0", 3),
        pair("1/6", 4),
        pair("2/6/0", 5),
    ];
    assert_eq!(
        by_path(wire),
        vec![pair("1/6", 4), pair("1/6/0", 2), pair("10/6/0", 3), pair("2/6/0", 5)]
    );
    assert_eq!(by_path(Vec::new()), Vec::<(String, Json)>::new());
}

#[test]
fn texts_compare_like_their_bytes() {
    let texts = ["", "0", "1", "1/", "1/6", "10", "2", "Z", "a", "\u{e9}", "\u{ffff}", "\u{10000}"];
    for a in texts {
        for b in texts {
            assert_eq!(text_precedes(a, b), a < b, "{a:?} {b:?}");
        }
    }
}

#[test]
fn how_reports_are_chunked_does_not_show() {
    let reports = || {
        vec![
            data(path(2, 6, 0, None), Tlv::U8(1)),
            data(path(0, 29, 3, Some(None)), Tlv::Array(Vec::new())),
            AttrReport::Unparseable,
            data(path(0, 29, 3, Some(Some(0))), Tlv::U16(1)),
            data(path(2, 6, 0, None), Tlv::U8(2)),
            data(path(0, 29, 3, Some(Some(1))), Tlv::U16(2)),
            data(path(5, 29, 3, Some(Some(0))), Tlv::U16(9)),
        ]
    };
    let whole = absorb(reports());
    let mut parts = AttrAccumulator::new();
    for r in reports() {
        parts.absorb(&vec![r], &clusters());
    }
    assert_eq!(parts.failures(), whole.failures());
    assert_eq!(parts.orphan_appends(), whole.orphan_appends());
    assert_eq!(parts.saw_list_chunks(), whole.saw_list_chunks());
    let pairs = parts.into_pairs();
    let keys: Vec<&str> = pairs.iter().map(|(k, _)| k.as_str()).collect();
    assert_eq!(keys, ["2/6/0", "0/29/3", "5/29/3"]);
    assert_eq!(pairs, whole.into_pairs());
}
