use matter_stack::ctx::{
    map_err, map_err_established, note_event, with_timeout, with_timeout_mapped, StackCtx,
    BUSY_MESSAGE,
};
use matter_stack::error::{ErrorCode, SdkError};
use matter_stack::idl::Cluster;
use matter_stack::json::{Json, Number};
use matter_stack::reports::{
    AttrPath, AttrReport, EventData, EventPath, EventReport, EventTimestamp, ReportData,
};
use matter_stack::runtime::{
    forget_node, node_addresses, ready_message, reply_or_down, stops_the_stack, BootOutcome,
    LoopAction, RequestLoop, Service, StackRequest, SECOND_STACK_MESSAGE, THREAD_DOWN,
};
use matter_stack::stack_api::{NodeConnState, StackError, StackErrorKind, StackEvent};
use matter_stack::supervisor::{
    backoff_delay, disown, liveness_deadline, liveness_expired, reconnecting, release,
    subscribe_request, watch_liveness, Attempt, Establishing, Next, Supervisor,
    LIVENESS_POLL_SECS, LIVENESS_SLACK_SECS, MAX_INTERVAL_CEIL_SECS, MIN_INTERVAL_FLOOR_SECS,
};
use matter_stack::tlv::Tlv;
use std::collections::HashMap;

fn sdk(code: ErrorCode, text: &str) -> SdkError {
    SdkError { code, text: text.to_string() }
}

#[test]
fn error_kinds() {
    assert_eq!(map_err(sdk(ErrorCode::NotFound, "NotFound")).kind, StackErrorKind::NodeUnreachable);
    assert_eq!(
        map_err(sdk(ErrorCode::NotFound, "NotFound")).message,
        "could not resolve node via mDNS"
    );
    assert_eq!(map_err(sdk(ErrorCode::RxTimeout, "RxTimeout")).kind, StackErrorKind::Timeout);
    assert_eq!(map_err(sdk(ErrorCode::TxTimeout, "TxTimeout")).kind, StackErrorKind::Timeout);
    assert_eq!(map_err(sdk(ErrorCode::Busy, "Busy")).kind, StackErrorKind::Busy);
    // Users see this string when a previous commissioning attempt left the
    // failsafe armed.
    assert_eq!(map_err(sdk(ErrorCode::Busy, "Busy")).message, BUSY_MESSAGE);
    assert_eq!(map_err(sdk(ErrorCode::Other, "Invalid")).kind, StackErrorKind::Sdk);
    assert_eq!(map_err(sdk(ErrorCode::Other, "Invalid")).message, "Error::Invalid");
    // InvalidData is only InvalidArguments when it comes from *our* payload
    // encoding; the operations detect that structurally, so the generic
    // mapping stays Sdk.
    assert_eq!(map_err(sdk(ErrorCode::InvalidData, "InvalidData")).kind, StackErrorKind::Sdk);
    assert_eq!(map_err(sdk(ErrorCode::Other, "NoSession")).kind, StackErrorKind::Sdk);
}

#[test]
fn timeout_reports_the_budget_it_blew() {
    let e = with_timeout::<()>(1, None).expect_err("pending future must time out");
    assert_eq!(e.kind, StackErrorKind::Timeout);
    assert_eq!(e.message, "IM operation timed out after 1s");
}

#[test]
fn value_passes_through() {
    let v = with_timeout(30, Some(Ok(7u8))).expect("ready future must pass through");
    assert_eq!(v, 7);
}

#[test]
fn inner_error_is_mapped_not_swallowed() {
    let e = with_timeout::<()>(30, Some(Err(sdk(ErrorCode::Busy, "Busy"))))
        .expect_err("inner error must surface");
    assert_eq!(e.kind, StackErrorKind::Busy);
}

/// Over an established session, an unresolved name is not an unreachable node.
#[test]
fn not_found_over_a_session_is_an_sdk_error() {
    let e = map_err_established(sdk(ErrorCode::NotFound, "NotFound"));
    assert_eq!(e, StackError::new(StackErrorKind::Sdk, "Error::NotFound".to_string()));
    assert_eq!(
        map_err_established(sdk(ErrorCode::Busy, "Busy")),
        map_err(sdk(ErrorCode::Busy, "Busy"))
    );
    let up = with_timeout_mapped::<()>(30, Some(Err(sdk(ErrorCode::NotFound, "NotFound"))), true);
    assert_eq!(up.unwrap_err().kind, StackErrorKind::Sdk);
    let down = with_timeout_mapped::<()>(30, Some(Err(sdk(ErrorCode::NotFound, "NotFound"))), false);
    assert_eq!(down.unwrap_err().kind, StackErrorKind::NodeUnreachable);
    let late = with_timeout_mapped::<()>(120, None, true).unwrap_err();
    assert_eq!(late.message, "IM operation timed out after 120s");
    assert_eq!(with_timeout_mapped(30, Some(Ok(7u8)), false), Ok(7));
}

#[test]
fn event_zero_is_not_the_never_seen_sentinel() {
    let mut last = HashMap::new();
    assert!(note_event(&mut last, 1, 0), "event number 0 is a real first event");
    assert!(!note_event(&mut last, 1, 0), "and must not be forwarded twice");
    assert!(note_event(&mut last, 1, 1));
    assert!(!note_event(&mut last, 1, 1));
    // Replay after a resubscribe is dropped; a forward jump (device reboot)
    // is not.
    assert!(!note_event(&mut last, 1, 0));
    assert!(note_event(&mut last, 1, 9_000));
    // Per-node bookkeeping: another node starts from scratch.
    assert!(note_event(&mut last, 2, 0));
}

#[test]
fn a_counter_reset_needs_the_high_water_mark_cleared() {
    let mut last = HashMap::new();
    assert!(note_event(&mut last, 1, 5_000));
    // Device reboots without persisting its counter and restarts at 0: every
    // event now looks like a replay and is dropped forever...
    assert!(!note_event(&mut last, 1, 0));
    assert!(!note_event(&mut last, 1, 1));
    // ...until the supervisor clears the mark on resubscribe.
    last.remove(&1);
    assert!(note_event(&mut last, 1, 0));
    assert!(note_event(&mut last, 1, 1));
}

#[test]
fn stopping_a_supervisor_drops_the_node_lifetime_caches() {
    let mut last_event = HashMap::from([(1u64, 42u64), (2, 7)]);
    let mut addrs = HashMap::from([
        (1u64, vec!["192.168.1.10".to_string()]),
        (2, vec!["192.168.1.11".to_string()]),
    ]);

    forget_node(&mut last_event, &mut addrs, 1);

    // Or the same node id, re-commissioned, would inherit node 1's event
    // high-water mark and drop everything below 42.
    assert_eq!(last_event.get(&1), None);
    // Or `node_addresses` would keep answering for a removed node.
    assert_eq!(addrs.get(&1), None);
    // Strictly per-node: the other supervisor is untouched.
    assert_eq!(last_event.get(&2), Some(&7));
    assert_eq!(addrs.get(&2).map(Vec::len), Some(1));
}

#[test]
fn forgetting_an_unknown_node_is_a_no_op() {
    let mut last_event = HashMap::new();
    let mut addrs = HashMap::new();
    forget_node(&mut last_event, &mut addrs, 99);
    assert!(last_event.is_empty());
    assert!(addrs.is_empty());
}

/// `subs` and `liveness` belong to the subscription: `forget_node` does not
/// take them at all, which is what this pins.
#[test]
fn the_subscription_lifetime_maps_are_not_touched_here() {
    fn assert_two_maps(_f: fn(&mut HashMap<u64, u64>, &mut HashMap<u64, Vec<String>>, u64)) {}
    assert_two_maps(forget_node);
}

#[test]
fn disown_releases_the_entry_it_owns() {
    let mut subs = HashMap::from([(5u64, 7u32), (6, 8)]);
    disown(&mut subs, 5, 7);
    assert_eq!(subs, HashMap::from([(6u64, 8u32)]), "only node 5 released");
}

/// The compare half. A newer establishment may already have replaced the
/// entry; deleting it would leave that live subscription untracked.
#[test]
fn disown_leaves_an_entry_a_newer_subscription_already_replaced() {
    let mut subs = HashMap::from([(5u64, 9u32)]);
    disown(&mut subs, 5, 7); // stale id
    assert_eq!(subs.get(&5), Some(&9));
}

#[test]
fn disowning_twice_is_harmless() {
    let mut subs = HashMap::from([(5u64, 7u32)]);
    disown(&mut subs, 5, 7);
    disown(&mut subs, 5, 7);
    assert!(subs.is_empty());
}

#[test]
fn the_backoff_schedule_is_walked_then_held() {
    let secs: Vec<u64> = (0..8).map(|i| backoff_delay(i)).collect();
    assert_eq!(secs, [2, 5, 10, 30, 60, 60, 60, 60]);
}

#[test]
fn a_saturated_backoff_index_still_indexes() {
    assert_eq!(backoff_delay(usize::MAX), 60);
}

#[test]
fn the_liveness_deadline_is_the_granted_interval_plus_slack() {
    assert_eq!(liveness_deadline(60), 60 + LIVENESS_SLACK_SECS);
    // A device may grant far more than we asked for.
    assert_eq!(liveness_deadline(u16::MAX), u64::from(u16::MAX) + LIVENESS_SLACK_SECS);
    // ...or, in principle, 0 - in which case slack alone keeps the watchdog
    // from firing on the very first poll.
    assert_eq!(liveness_deadline(0), LIVENESS_SLACK_SECS);
    assert!(liveness_deadline(0) > LIVENESS_POLL_SECS);
}

#[test]
fn the_requested_ceiling_is_inside_the_deadline_it_implies() {
    assert!(liveness_deadline(MAX_INTERVAL_CEIL_SECS) > u64::from(MAX_INTERVAL_CEIL_SECS));
    assert_eq!(MIN_INTERVAL_FLOOR_SECS, 0, "report as soon as anything changes");
}

#[test]
fn a_report_inside_the_deadline_keeps_the_subscription() {
    let deadline = liveness_deadline(60); // 75s
    let established = 0;
    // Heard from at t=70, checked at t=100: 30s of silence, well inside 75.
    assert!(!liveness_expired(Some(70), established, 100, deadline));
    // Exactly at the boundary counts as expired, so the watchdog cannot sit
    // one tick short of firing forever.
    assert!(liveness_expired(Some(25), established, 100, deadline));
    assert!(liveness_expired(Some(24), established, 100, deadline));
    assert!(!liveness_expired(Some(26), established, 100, deadline));
}

#[test]
fn a_missing_entry_is_measured_from_establishment_not_treated_as_dead() {
    let deadline = liveness_deadline(60);
    let established = 1_000;
    assert!(!liveness_expired(None, established, 1_010, deadline));
    assert!(liveness_expired(None, established, 1_100, deadline));
}

#[test]
fn a_timestamp_in_the_future_is_not_an_underflow() {
    let deadline = liveness_deadline(60);
    assert!(!liveness_expired(Some(500), 0, 100, deadline));
}

#[test]
fn the_watchdog_reads_the_nodes_own_entry() {
    let mut ctx = StackCtx::new(1);
    ctx.liveness.insert(7, 90);
    assert!(!watch_liveness(&ctx, 7, 0, 100, 75));
    assert!(watch_liveness(&ctx, 8, 0, 100, 75));
}

#[test]
fn dropping_the_guard_releases_both_maps() {
    let mut subs = HashMap::from([(5u64, 7u32)]);
    let mut liveness = HashMap::from([(5u64, 3u64)]);
    assert_eq!(subs.get(&5), Some(&7), "held while the guard lives");
    release(&mut subs, &mut liveness, 5, 7);
    assert!(subs.is_empty());
    assert!(liveness.is_empty());
}

#[test]
fn dropping_a_guard_leaves_other_nodes_alone() {
    let mut subs = HashMap::from([(5u64, 7u32), (6, 8)]);
    let mut liveness = HashMap::from([(5u64, 3u64), (6, 4)]);
    release(&mut subs, &mut liveness, 5, 7);
    assert_eq!(subs, HashMap::from([(6u64, 8u32)]));
    assert_eq!(liveness.len(), 1);
    assert!(liveness.contains_key(&6));
}

#[test]
fn the_supervisor_walks_its_schedule_and_starts_over() {
    let mut s = Supervisor::new(7);
    for delay_secs in [2, 5, 10, 30, 60, 60] {
        assert_eq!(s.after_attempt(Attempt::Failed), Next::Retry { delay_secs });
    }
    let up = Attempt::Established { subscription_id: 99, max_int: 60 };
    assert_eq!(s.after_attempt(up), Next::Watch { subscription_id: 99, deadline_secs: 75 });
    assert_eq!(s.after_attempt(Attempt::Failed), Next::Retry { delay_secs: 2 });

    let mut saturated = Supervisor { node_id: 7, backoff_idx: usize::MAX };
    assert_eq!(saturated.after_attempt(Attempt::Failed), Next::Retry { delay_secs: 60 });
    assert_eq!(saturated.backoff_idx, usize::MAX);
}

#[test]
fn silence_gives_the_subscription_up() {
    let mut ctx = StackCtx::new(1);
    ctx.subs.insert(7, 99);
    ctx.liveness.insert(7, 10);
    ctx.subs.insert(8, 99);
    let mut s = Supervisor::new(7);
    let told = s.after_silence(&mut ctx, 99);
    assert_eq!(told, reconnecting(7));
    assert_eq!(told, StackEvent::NodeState { node_id: 7, state: NodeConnState::Reconnecting });
    assert_eq!(ctx.subs, HashMap::from([(8, 99)]));
    assert!(ctx.liveness.is_empty());
}

#[test]
fn a_subscription_asks_for_everything() {
    let r = subscribe_request();
    assert!(!r.keep_subs && !r.fabric_filtered);
    assert_eq!((r.min_int_floor, r.max_int_ceil), (0, 60));
    assert_eq!(
        (r.attributes.endpoint, r.attributes.cluster, r.attributes.attribute),
        (None, None, None)
    );
}

/// Establishing primes the controller: that the node is connected, then its
/// snapshot, and events only from then on.
#[test]
fn establishing_primes_the_controller() {
    let tables: Vec<Cluster> = Vec::new();
    let mut ctx = StackCtx::new(1);
    ctx.last_event.insert(7, 500);
    let mut e = Establishing::begin(&mut ctx, 7);
    assert_eq!(ctx.last_event.get(&7), None);
    let attribute = |n: u16, v: u8| AttrReport::Data {
        path: AttrPath {
            endpoint: Some(n),
            cluster: Some(6),
            attr: Some(0),
            ..Default::default()
        },
        value: Tlv::U8(v),
    };
    let event = EventReport::Data(EventData {
        path: EventPath { endpoint: Some(0), cluster: Some(40), event: Some(0) },
        event_number: 3,
        priority: 1,
        timestamp: EventTimestamp::System(1),
        data: None,
    });
    let first = ReportData {
        attr_reports: vec![attribute(1, 4), AttrReport::Unparseable],
        event_reports: vec![event],
        more_chunks: true,
    };
    let second = ReportData {
        attr_reports: vec![attribute(2, 5)],
        event_reports: Vec::new(),
        more_chunks: false,
    };
    e.prime(&mut ctx, &first, &tables);
    e.prime(&mut ctx, &second, &tables);
    assert_eq!(e.failures(), 1);
    let told = e.complete(&mut ctx, 99, 60, 1_000);
    let num = |n: u64| Json::Number(Number::PosInt(n));
    assert_eq!(
        told,
        vec![
            StackEvent::NodeState {
                node_id: 7,
                state: NodeConnState::Connected { max_interval_secs: 60 },
            },
            StackEvent::PrimingSnapshot {
                node_id: 7,
                attributes: vec![("1/6/0".to_string(), num(4)), ("2/6/0".to_string(), num(5))],
            },
        ]
    );
    assert_eq!(ctx.subs.get(&7), Some(&99));
    assert_eq!(ctx.liveness.get(&7), Some(&1_000));
    // The events of the priming reports are history.
    assert_eq!(ctx.last_event.get(&7), Some(&3));
}

#[test]
fn a_missing_reply_is_a_stack_that_is_down() {
    let e = reply_or_down::<()>(None).unwrap_err();
    assert_eq!(e.kind, StackErrorKind::Sdk);
    assert_eq!(e.message, "stack thread is down");
    assert_eq!(e.message, THREAD_DOWN);
    assert_eq!(reply_or_down(Some(Ok(5u8))), Ok(5));
    let busy = StackError::new(StackErrorKind::Busy, "busy".to_string());
    let again = StackError::new(StackErrorKind::Busy, "busy".to_string());
    assert_eq!(reply_or_down::<()>(Some(Err(busy))), Err(again));
}

#[test]
fn boot_failures_are_told_apart() {
    assert_eq!(
        ready_message(BootOutcome::AlreadyRunning),
        Err(SECOND_STACK_MESSAGE.to_string())
    );
    assert_eq!(
        ready_message(BootOutcome::NoSocket(sdk(ErrorCode::StdIoError, "StdIoError"))),
        Err("could not bind the Matter UDP socket: Error::StdIoError".to_string())
    );
    assert_eq!(
        ready_message(BootOutcome::NoIdentity(sdk(ErrorCode::InvalidData, "InvalidData"))),
        Err("could not establish the controller identity: Error::InvalidData".to_string())
    );
}

#[test]
fn only_what_the_stack_cannot_do_without_stops_it() {
    assert!(stops_the_stack(Service::Transport));
    assert!(stops_the_stack(Service::Responder));
    assert!(stops_the_stack(Service::Requests));
    assert!(!stops_the_stack(Service::Mdns));
    assert!(!stops_the_stack(Service::ResumptionCache));
}

#[test]
fn the_request_loop_keeps_one_supervisor_per_node() {
    let mut ctx = StackCtx::new(1);
    ctx.addrs.insert(7, vec!["192.168.1.10".to_string()]);
    ctx.last_event.insert(7, 42);
    let mut requests = RequestLoop::new();
    let start = |node_id| StackRequest::StartSupervisor { node_id };
    assert_eq!(
        requests.on_request(&mut ctx, start(7)),
        LoopAction::Start { node_id: 7, replaces: false }
    );
    assert_eq!(
        requests.on_request(&mut ctx, start(7)),
        LoopAction::Start { node_id: 7, replaces: true }
    );
    assert_eq!(
        requests.on_request(&mut ctx, StackRequest::NodeAddresses { node_id: 7 }),
        LoopAction::Answer { addresses: vec!["192.168.1.10".to_string()] }
    );
    assert_eq!(
        requests.on_request(&mut ctx, StackRequest::Interview { node_id: 7 }),
        LoopAction::Detach(StackRequest::Interview { node_id: 7 })
    );
    assert_eq!(
        requests.on_request(&mut ctx, StackRequest::StopSupervisor { node_id: 7 }),
        LoopAction::Cancel { node_id: 7, running: true }
    );
    assert!(ctx.addrs.is_empty() && ctx.last_event.is_empty());
    assert_eq!(
        requests.on_request(&mut ctx, StackRequest::StopSupervisor { node_id: 7 }),
        LoopAction::Cancel { node_id: 7, running: false }
    );
    assert_eq!(node_addresses(&ctx.addrs, 7), Vec::<String>::new());
    requests.on_request(&mut ctx, start(8));
    assert_eq!(requests.on_request(&mut ctx, StackRequest::Shutdown), LoopAction::Stop);
    assert!(requests.supervisors.is_empty());
}
