//! The state the stack keeps of every node, and how SDK failures are reported.

use crate::error::{ErrorCode, SdkError, SdkErrorModel};
use crate::stack_api::{StackError, StackErrorKind, StackErrorModel};
use crate::text::{decimal, decimal_string};
use std::collections::HashMap;
use vstd::prelude::*;

verus! {

/// A failed commissioning attempt leaves the device's failsafe armed, and until
/// it expires the device answers everything with `Busy`.
pub const BUSY_MESSAGE: &'static str =
    "device is busy (a previous commissioning attempt may still hold its failsafe for ~60s)";

/// What an unresolvable peer is reported as.
pub const UNREACHABLE_MESSAGE: &'static str = "could not resolve node via mDNS";

/// Budget for a single read, write or invoke.
pub const IM_TIMEOUT_SECS: u64 = 30;

/// Budget for a full wildcard read.
pub const INTERVIEW_TIMEOUT_SECS: u64 = 120;

/// Budget for one commissioning phase, matching the device-side failsafe.
pub const COMMISSION_TIMEOUT_SECS: u64 = 60;

/// Per-node state of the stack.
#[derive(Debug)]
pub struct StackCtx {
    /// The index of the fabric the stack operates.
    pub fab_idx: u8,
    /// node id -> the subscription established with that node. Keyed on the
    /// node, because subscription ids are chosen by the publisher: two devices
    /// may both pick the same one.
    pub subs: HashMap<u64, u32>,
    /// node id -> when it last reported.
    pub liveness: HashMap<u64, u64>,
    /// node id -> highest event number already forwarded. Absent is "nothing
    /// seen yet", which is not the same as event number 0.
    pub last_event: HashMap<u64, u64>,
    /// node id -> last known addresses, most recent first.
    pub addrs: HashMap<u64, Vec<String>>,
}

/// Whether an event has not been forwarded yet.
pub open spec fn is_new_event(last: Map<u64, u64>, node_id: u64, event_number: u64) -> bool {
    !last.contains_key(node_id) || event_number > last[node_id]
}

/// The high-water marks after an event was seen.
pub open spec fn noted(last: Map<u64, u64>, node_id: u64, event_number: u64) -> Map<u64, u64> {
    if is_new_event(last, node_id, event_number) {
        last.insert(node_id, event_number)
    } else {
        last
    }
}

/// Records an event, and tells whether it has not been forwarded for the node
/// yet. Devices replay events across resubscribes, and the event counter may
/// jump forward on a reboot.
pub fn note_event(last: &mut HashMap<u64, u64>, node_id: u64, event_number: u64) -> (res: bool)
    ensures
        res == is_new_event(old(last)@, node_id, event_number),
        final(last)@ == noted(old(last)@, node_id, event_number),
{
    broadcast use vstd::std_specs::hash::group_hash_axioms;

    match last.get(&node_id) {
        Some(seen) if event_number <= *seen => false,
        _ => {
            last.insert(node_id, event_number);
            true
        },
    }
}

impl StackCtx {
    /// Nothing known of any node.
    pub fn new(fab_idx: u8) -> (res: StackCtx)
        ensures
            res.fab_idx == fab_idx,
            res.subs@ == Map::<u64, u32>::empty(),
            res.liveness@ == Map::<u64, u64>::empty(),
            res.last_event@ == Map::<u64, u64>::empty(),
            res.addrs@ == Map::<u64, Vec<String>>::empty(),
    {
        StackCtx {
            fab_idx,
            subs: HashMap::new(),
            liveness: HashMap::new(),
            last_event: HashMap::new(),
            addrs: HashMap::new(),
        }
    }

    /// Records an event as forwarded, and tells whether it was new.
    pub fn note_event(&mut self, node_id: u64, event_number: u64) -> (res: bool)
        ensures
            res == is_new_event(old(self).last_event@, node_id, event_number),
            final(self).last_event@ == noted(old(self).last_event@, node_id, event_number),
            final(self).fab_idx == old(self).fab_idx,
            final(self).subs == old(self).subs,
            final(self).liveness == old(self).liveness,
            final(self).addrs == old(self).addrs,
    {
        note_event(&mut self.last_event, node_id, event_number)
    }

    /// Forgets the event high-water mark of a node. A device that does not
    /// persist its event counter restarts at 0 after a reboot, so this is done
    /// every time a subscription is established.
    pub fn reset_event_high_water(&mut self, node_id: u64)
        ensures
            final(self).last_event@ == old(self).last_event@.remove(node_id),
            final(self).fab_idx == old(self).fab_idx,
            final(self).subs == old(self).subs,
            final(self).liveness == old(self).liveness,
            final(self).addrs == old(self).addrs,
    {
        broadcast use vstd::std_specs::hash::group_hash_axioms;

        self.last_event.remove(&node_id);
    }
}

pub open spec fn sdk_message(e: SdkErrorModel) -> Seq<char> {
    "Error::"@ + e.text
}

/// How an SDK error is reported.
pub open spec fn mapped_error(e: SdkErrorModel) -> StackErrorModel {
    match e.code {
        ErrorCode::NotFound => StackErrorModel {
            kind: StackErrorKind::NodeUnreachable,
            message: UNREACHABLE_MESSAGE@,
        },
        ErrorCode::RxTimeout => StackErrorModel {
            kind: StackErrorKind::Timeout,
            message: sdk_message(e),
        },
        ErrorCode::TxTimeout => StackErrorModel {
            kind: StackErrorKind::Timeout,
            message: sdk_message(e),
        },
        ErrorCode::Busy => StackErrorModel { kind: StackErrorKind::Busy, message: BUSY_MESSAGE@ },
        _ => StackErrorModel { kind: StackErrorKind::Sdk, message: sdk_message(e) },
    }
}

/// How an SDK error is reported once a session with the node is up: `NotFound`
/// is then the device's own answer, and not a failure to find the device.
pub open spec fn mapped_established_error(e: SdkErrorModel) -> StackErrorModel {
    if e.code == ErrorCode::NotFound {
        StackErrorModel { kind: StackErrorKind::Sdk, message: sdk_message(e) }
    } else {
        mapped_error(e)
    }
}

/// The text under which an SDK error is shown.
pub fn sdk_text(e: &SdkError) -> (res: String)
    ensures
        res@ == sdk_message(e@),
{
    let mut s = "Error::".to_owned();
    s.append(e.text.as_str());
    s
}

/// SDK error to one of the kinds a caller can act on.
pub fn map_err(e: SdkError) -> (res: StackError)
    ensures
        res@ == mapped_error(e@),
{
    match e.code {
        ErrorCode::NotFound => StackError::new(
            StackErrorKind::NodeUnreachable,
            UNREACHABLE_MESSAGE.to_owned(),
        ),
        ErrorCode::RxTimeout | ErrorCode::TxTimeout => StackError::new(
            StackErrorKind::Timeout,
            sdk_text(&e),
        ),
        ErrorCode::Busy => StackError::new(StackErrorKind::Busy, BUSY_MESSAGE.to_owned()),
        _ => StackError::new(StackErrorKind::Sdk, sdk_text(&e)),
    }
}

/// The same, once a session with the node is up.
pub fn map_err_established(e: SdkError) -> (res: StackError)
    ensures
        res@ == mapped_established_error(e@),
{
    match e.code {
        ErrorCode::NotFound => StackError::new(StackErrorKind::Sdk, sdk_text(&e)),
        _ => map_err(e),
    }
}

pub open spec fn timeout_message(secs: u64) -> Seq<char> {
    "IM operation timed out after "@ + decimal(secs as nat) + "s"@
}

pub open spec fn timed_out(secs: u64) -> StackErrorModel {
    StackErrorModel { kind: StackErrorKind::Timeout, message: timeout_message(secs) }
}

fn timeout_error(secs: u64) -> (res: StackError)
    ensures
        res@ == timed_out(secs),
{
    let mut message = "IM operation timed out after ".to_owned();
    let n = decimal_string(secs);
    message.append(n.as_str());
    message.append("s");
    StackError::new(StackErrorKind::Timeout, message)
}

/// What an operation under a budget of `secs` comes to: `None` when the budget
/// ran out first.
pub fn with_timeout<T>(secs: u64, outcome: Option<Result<T, SdkError>>) -> (res: Result<
    T,
    StackError,
>)
    ensures
        match outcome {
            Some(Ok(v)) => res == Ok::<T, StackError>(v),
            Some(Err(e)) => res is Err && res->Err_0@ == mapped_error(e@),
            None => res is Err && res->Err_0@ == timed_out(secs),
        },
{
    match outcome {
        Some(Ok(v)) => Ok(v),
        Some(Err(e)) => Err(map_err(e)),
        None => Err(timeout_error(secs)),
    }
}

/// The same for an operation that opens its own session first: `case_up` tells
/// whether the session was up when it ended.
pub fn with_timeout_mapped<T>(
    secs: u64,
    outcome: Option<Result<T, SdkError>>,
    case_up: bool,
) -> (res: Result<T, StackError>)
    ensures
        match outcome {
            Some(Ok(v)) => res == Ok::<T, StackError>(v),
            Some(Err(e)) => res is Err && res->Err_0@ == (if case_up {
                mapped_established_error(e@)
            } else {
                mapped_error(e@)
            }),
            None => res is Err && res->Err_0@ == timed_out(secs),
        },
{
    match outcome {
        Some(Ok(v)) => Ok(v),
        Some(Err(e)) => if case_up {
            Err(map_err_established(e))
        } else {
            Err(map_err(e))
        },
        None => Err(timeout_error(secs)),
    }
}

/// An event is new exactly once, until the mark is forgotten.
pub proof fn events_are_new_once(last: Map<u64, u64>, node_id: u64, event_number: u64)
    ensures
        !is_new_event(noted(last, node_id, event_number), node_id, event_number),
        is_new_event(
            noted(last, node_id, event_number).remove(node_id),
            node_id,
            event_number,
        ),
{
}

/// The mark of a node never moves back.
pub proof fn marks_only_rise(last: Map<u64, u64>, node_id: u64, event_number: u64)
    requires
        last.contains_key(node_id),
    ensures
        noted(last, node_id, event_number).contains_key(node_id),
        noted(last, node_id, event_number)[node_id] >= last[node_id],
{
}

/// Events of one node leave the marks of every other node alone.
pub proof fn marks_are_per_node(last: Map<u64, u64>, node_id: u64, event_number: u64, other: u64)
    requires
        other != node_id,
    ensures
        noted(last, node_id, event_number).contains_key(other) == last.contains_key(other),
        last.contains_key(other) ==> noted(last, node_id, event_number)[other] == last[other],
{
}

/// A node that cannot be found is unreachable, a lapse of time is a timeout, a busy
/// device is busy, and anything else is the SDK's. Once a session with the node is
/// up it is never reported unreachable, and everything else is as before.
pub proof fn failures_are_told_apart(e: SdkErrorModel)
    ensures
        mapped_error(e).kind is NodeUnreachable <==> e.code is NotFound,
        mapped_error(e).kind is Timeout <==> e.code is RxTimeout || e.code is TxTimeout,
        mapped_error(e).kind is Busy <==> e.code is Busy,
        mapped_error(e).kind is Sdk <==> e.code is InvalidData || e.code is StdIoError
            || e.code is Other,
        e.code is NotFound ==> mapped_error(e).message == "could not resolve node via mDNS"@,
        e.code is Busy ==> mapped_error(e).message
            == "device is busy (a previous commissioning attempt may still hold its failsafe for ~60s)"@,
        !(e.code is NotFound) && !(e.code is Busy) ==> mapped_error(e).message == "Error::"@
            + e.text,
        e.code is NotFound ==> mapped_established_error(e).kind is Sdk && mapped_established_error(
            e,
        ).message == "Error::"@ + e.text,
        !(e.code is NotFound) ==> mapped_established_error(e) == mapped_error(e),
{
}

/// Running out of time is a timeout that names the seconds there were: half a minute
/// for one transaction, two for an interview, one for a phase of commissioning.
pub proof fn lapses_name_their_budget(secs: u64)
    ensures
        timed_out(secs).kind is Timeout,
        timed_out(secs).message == "IM operation timed out after "@ + decimal(secs as nat) + "s"@,
        IM_TIMEOUT_SECS == 30,
        INTERVIEW_TIMEOUT_SECS == 120,
        COMMISSION_TIMEOUT_SECS == 60,
{
}

} // verus!
