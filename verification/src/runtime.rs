//! Booting the stack, and the request loop of its thread.

use crate::ctx::{sdk_message, sdk_text, StackCtx};
use crate::error::SdkError;
use crate::identity::ServerIdentity;
use crate::json::Json;
use crate::reports::text_models;
use crate::stack_api::{
    AttributePathSpec, PaseTarget, StackError, StackErrorKind, StackErrorModel,
};
use std::collections::{HashMap, HashSet};
use vstd::prelude::*;

verus! {

/// How the stack is configured at boot.
#[derive(Debug)]
pub struct StackConfig {
    pub fabric_id: u64,
    pub vendor_id: u16,
    pub fabric_label: String,
    /// Pins the interface mDNS binds to.
    pub primary_interface: Option<String>,
}

/// What a caller needs before it starts serving.
#[derive(Clone, Debug, PartialEq, Eq)]
pub struct ReadyInfo {
    pub identity: ServerIdentity,
    pub fabric_index: u8,
}

/// What a second stack in the same process is told.
pub const SECOND_STACK_MESSAGE: &'static str =
    "a Matter stack is already running in this process (rs-matter's state lives in process-wide statics, so there can only be one)";

/// What every call answers when the stack thread is gone.
pub const THREAD_DOWN: &'static str = "stack thread is down";

/// How far the boot came.
#[derive(Debug, PartialEq, Eq)]
pub enum BootOutcome {
    AlreadyRunning,
    NoSocket(SdkError),
    NoIdentity(SdkError),
    Up { identity: ServerIdentity, fab_idx: u8 },
}

/// What the caller is told of the boot.
pub fn ready_message(outcome: BootOutcome) -> (res: Result<ReadyInfo, String>)
    ensures
        match outcome {
            BootOutcome::AlreadyRunning => res is Err && res->Err_0@ == SECOND_STACK_MESSAGE@,
            BootOutcome::NoSocket(e) => res is Err && res->Err_0@
                == "could not bind the Matter UDP socket: "@ + sdk_message(e@),
            BootOutcome::NoIdentity(e) => res is Err && res->Err_0@
                == "could not establish the controller identity: "@ + sdk_message(e@),
            BootOutcome::Up { identity, fab_idx } => res == Ok::<ReadyInfo, String>(
                ReadyInfo { identity, fabric_index: fab_idx },
            ),
        },
{
    match outcome {
        BootOutcome::AlreadyRunning => Err(SECOND_STACK_MESSAGE.to_owned()),
        BootOutcome::NoSocket(e) => {
            let mut message = "could not bind the Matter UDP socket: ".to_owned();
            let text = sdk_text(&e);
            message.append(text.as_str());
            Err(message)
        },
        BootOutcome::NoIdentity(e) => {
            let mut message = "could not establish the controller identity: ".to_owned();
            let text = sdk_text(&e);
            message.append(text.as_str());
            Err(message)
        },
        BootOutcome::Up { identity, fab_idx } => Ok(ReadyInfo { identity, fabric_index: fab_idx }),
    }
}

/// The long-running parts of the stack.
#[derive(Clone, Copy, Debug, PartialEq, Eq, Structural)]
pub enum Service {
    Transport,
    Responder,
    Requests,
    Mdns,
    ResumptionCache,
}

/// Whether the stack stops when a part of it ends. Without discovery or the
/// resumption cache it is degraded, and goes on.
pub fn stops_the_stack(service: Service) -> (res: bool)
    ensures
        res <==> service is Transport || service is Responder || service is Requests,
{
    match service {
        Service::Transport | Service::Responder | Service::Requests => true,
        Service::Mdns | Service::ResumptionCache => false,
    }
}

/// What a call to the stack comes to: `None` when the request could not be
/// queued, or when its reply never came.
pub fn reply_or_down<T>(reply: Option<Result<T, StackError>>) -> (res: Result<T, StackError>)
    ensures
        match reply {
            Some(r) => res == r,
            None => res is Err && res->Err_0@ == (StackErrorModel {
                kind: StackErrorKind::Sdk,
                message: THREAD_DOWN@,
            }),
        },
{
    match reply {
        Some(r) => r,
        None => Err(StackError::new(StackErrorKind::Sdk, THREAD_DOWN.to_owned())),
    }
}

/// What the stack can be asked to do.
#[derive(Debug, PartialEq, Eq)]
pub enum StackRequest {
    Commission { node_id: u64, target: PaseTarget, fabric_label: String },
    Read { node_id: u64, paths: Vec<AttributePathSpec>, fabric_filtered: bool },
    Write { node_id: u64, endpoint: u16, cluster: u32, attribute: u32, value: Json },
    Invoke {
        node_id: u64,
        endpoint: u16,
        cluster: u32,
        command_name: String,
        payload: Json,
        timed_ms: Option<u16>,
    },
    Interview { node_id: u64 },
    OpenWindow { node_id: u64, timeout_secs: u16 },
    DeviceFabrics { node_id: u64 },
    RemoveDeviceFabric { node_id: u64, fabric_index: u8 },
    UpdateFabricLabel { label: String },
    StartSupervisor { node_id: u64 },
    StopSupervisor { node_id: u64 },
    NodeAddresses { node_id: u64 },
    Browse { timeout_ms: u32 },
    Shutdown,
}

/// What the request loop does with a request.
#[derive(Debug, PartialEq, Eq)]
pub enum LoopAction {
    /// Cancel every supervisor, acknowledge, and end the loop.
    Stop,
    /// Start a supervisor; `replaces` one that is running.
    Start { node_id: u64, replaces: bool },
    /// Cancel a supervisor, if there is one.
    Cancel { node_id: u64, running: bool },
    /// Answer from the address cache.
    Answer { addresses: Vec<String> },
    /// Run on its own, so that it holds up nothing else.
    Detach(StackRequest),
}

/// Which nodes have a supervisor.
#[derive(Debug)]
pub struct RequestLoop {
    pub supervisors: HashSet<u64>,
}

/// Whether a request is about the loop's own registry.
pub open spec fn is_control(req: StackRequest) -> bool {
    req is Shutdown || req is StartSupervisor || req is StopSupervisor
}

impl RequestLoop {
    pub fn new() -> (res: RequestLoop)
        ensures
            res.supervisors@ == Set::<u64>::empty(),
    {
        RequestLoop { supervisors: HashSet::new() }
    }

    /// Takes in one request. Stopping a supervisor also forgets what is kept of
    /// the node beyond a subscription.
    pub fn on_request(&mut self, ctx: &mut StackCtx, req: StackRequest) -> (res: LoopAction)
        ensures
            final(ctx).fab_idx == old(ctx).fab_idx,
            final(ctx).subs == old(ctx).subs,
            final(ctx).liveness == old(ctx).liveness,
            match req {
                StackRequest::Shutdown => {
                    &&& res == LoopAction::Stop
                    &&& final(self).supervisors@ == Set::<u64>::empty()
                },
                StackRequest::StartSupervisor { node_id } => {
                    &&& res == (LoopAction::Start {
                        node_id,
                        replaces: old(self).supervisors@.contains(node_id),
                    })
                    &&& final(self).supervisors@ == old(self).supervisors@.insert(node_id)
                },
                StackRequest::StopSupervisor { node_id } => {
                    &&& res == (LoopAction::Cancel {
                        node_id,
                        running: old(self).supervisors@.contains(node_id),
                    })
                    &&& final(self).supervisors@ == old(self).supervisors@.remove(node_id)
                    &&& final(ctx).last_event@ == old(ctx).last_event@.remove(node_id)
                    &&& final(ctx).addrs@ == old(ctx).addrs@.remove(node_id)
                },
                StackRequest::NodeAddresses { node_id } => match res {
                    LoopAction::Answer { addresses } => text_models(addresses@) == known_addresses(
                        old(ctx).addrs@,
                        node_id,
                    ),
                    _ => false,
                },
                _ => {
                    &&& res == LoopAction::Detach(req)
                    &&& final(self).supervisors == old(self).supervisors
                },
            },
            req is NodeAddresses ==> final(self).supervisors == old(self).supervisors,
            !is_control(req) ==> final(self).supervisors == old(self).supervisors,
            !(req is StopSupervisor) ==> *final(ctx) == *old(ctx),
    {
        broadcast use vstd::std_specs::hash::group_hash_axioms;

        match req {
            StackRequest::Shutdown => {
                self.supervisors.clear();
                LoopAction::Stop
            },
            StackRequest::StartSupervisor { node_id } => {
                let fresh = self.supervisors.insert(node_id);
                LoopAction::Start { node_id, replaces: !fresh }
            },
            StackRequest::StopSupervisor { node_id } => {
                let running = self.supervisors.remove(&node_id);
                forget_node(&mut ctx.last_event, &mut ctx.addrs, node_id);
                LoopAction::Cancel { node_id, running }
            },
            StackRequest::NodeAddresses { node_id } => LoopAction::Answer {
                addresses: node_addresses(&ctx.addrs, node_id),
            },
            other => LoopAction::Detach(other),
        }
    }
}

/// The addresses known of a node, none for an unknown one.
pub open spec fn known_addresses(addrs: Map<u64, Vec<String>>, node_id: u64) -> Seq<Seq<char>> {
    if addrs.contains_key(node_id) {
        text_models(addrs[node_id]@)
    } else {
        Seq::empty()
    }
}

/// The addresses known of a node.
pub fn node_addresses(addrs: &HashMap<u64, Vec<String>>, node_id: u64) -> (res: Vec<String>)
    ensures
        text_models(res@) == known_addresses(addrs@, node_id),
{
    broadcast use vstd::std_specs::hash::group_hash_axioms;

    let mut out: Vec<String> = Vec::new();
    assert(text_models(out@) =~= Seq::empty());
    if let Some(known) = addrs.get(&node_id) {
        let mut i: usize = 0;
        while i < known.len()
            invariant
                i <= known@.len(),
                text_models(out@) == text_models(known@).take(i as int),
            decreases known.len() - i,
        {
            let ghost before = text_models(out@);
            out.push(known[i].clone());
            assert(text_models(out@) =~= before.push(known@[i as int]@));
            assert(text_models(known@).take(i + 1) =~= before.push(known@[i as int]@));
            i += 1;
        }
        assert(text_models(known@).take(known@.len() as int) =~= text_models(known@));
    }
    out
}

/// Drops the per-node caches that outlive any single subscription. What belongs
/// to the subscription is released with it.
pub fn forget_node(
    last_event: &mut HashMap<u64, u64>,
    addrs: &mut HashMap<u64, Vec<String>>,
    node_id: u64,
)
    ensures
        final(last_event)@ == old(last_event)@.remove(node_id),
        final(addrs)@ == old(addrs)@.remove(node_id),
{
    broadcast use vstd::std_specs::hash::group_hash_axioms;

    last_event.remove(&node_id);
    addrs.remove(&node_id);
}

/// A node that was forgotten has no addresses, and its first event is new again,
/// whatever its number; every other node keeps what it had.
pub proof fn forgotten_nodes_start_over(
    last_event: Map<u64, u64>,
    addrs: Map<u64, Vec<String>>,
    node_id: u64,
    event_number: u64,
    other: u64,
)
    requires
        other != node_id,
    ensures
        known_addresses(addrs.remove(node_id), node_id) == Seq::<Seq<char>>::empty(),
        crate::ctx::is_new_event(last_event.remove(node_id), node_id, event_number),
        known_addresses(addrs.remove(node_id), other) == known_addresses(addrs, other),
        crate::ctx::is_new_event(last_event.remove(node_id), other, event_number)
            == crate::ctx::is_new_event(last_event, other, event_number),
{
}

/// The addresses known of a node are those recorded for it, in their order, and none
/// for a node without a record.
pub proof fn recorded_addresses_are_known(addrs: Map<u64, Vec<String>>, node_id: u64)
    ensures
        !addrs.contains_key(node_id) ==> known_addresses(addrs, node_id).len() == 0,
        addrs.contains_key(node_id) ==> known_addresses(addrs, node_id).len()
            == addrs[node_id]@.len() && forall|i: int|
            0 <= i < addrs[node_id]@.len() ==> #[trigger] known_addresses(addrs, node_id)[i]
                == addrs[node_id]@[i]@,
{
}

} // verus!
