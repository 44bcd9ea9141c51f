//! One subscription per node: how it is established, watched, released and
//! retried.

use crate::ctx::StackCtx;
use crate::idl::Cluster;
use crate::reports::{
    absorbed, attr_report_models, events_of, is_tracked, marks_after, nothing_accumulated,
    walk_events, Accumulated, AttrAccumulator, EventData, ReportData, ReportSource,
};
use crate::snapshot::{by_path, is_snapshot};
use crate::stack_api::{AttributePathSpec, NodeConnState, StackEvent, StackEventModel};
use std::collections::HashMap;
use vstd::prelude::*;

verus! {

/// Report no more often than this, in seconds: as soon as something changes.
pub const MIN_INTERVAL_FLOOR_SECS: u16 = 0;

/// Report at least this often, in seconds, even when nothing changes.
pub const MAX_INTERVAL_CEIL_SECS: u16 = 60;

/// Grace on top of the granted interval before a subscription counts as dead:
/// one lost heartbeat and its retransmissions.
pub const LIVENESS_SLACK_SECS: u64 = 15;

/// How often the watchdog looks at the last report.
pub const LIVENESS_POLL_SECS: u64 = 5;

/// What is asked of a device: every attribute and every event on every endpoint,
/// in place of any subscription it still has with us, other fabrics' entries
/// included.
#[derive(Clone, Copy, Debug, PartialEq, Eq, Structural)]
pub struct SubscribeRequest {
    pub keep_subs: bool,
    pub min_int_floor: u16,
    pub max_int_ceil: u16,
    pub attributes: AttributePathSpec,
    pub fabric_filtered: bool,
}

pub fn subscribe_request() -> (res: SubscribeRequest)
    ensures
        !res.keep_subs,
        res.min_int_floor == MIN_INTERVAL_FLOOR_SECS,
        res.max_int_ceil == MAX_INTERVAL_CEIL_SECS,
        res.min_int_floor == 0,
        res.max_int_ceil == 60,
        res.attributes == (AttributePathSpec { endpoint: None, cluster: None, attribute: None }),
        !res.fabric_filtered,
{
    SubscribeRequest {
        keep_subs: false,
        min_int_floor: MIN_INTERVAL_FLOOR_SECS,
        max_int_ceil: MAX_INTERVAL_CEIL_SECS,
        attributes: AttributePathSpec { endpoint: None, cluster: None, attribute: None },
        fabric_filtered: false,
    }
}

/// A subscription on its way up: what its priming report has told so far.
pub struct Establishing {
    node_id: u64,
    acc: AttrAccumulator,
}

impl Establishing {
    pub closed spec fn node(&self) -> u64 {
        self.node_id
    }

    pub closed spec fn view(&self) -> Accumulated {
        self.acc@
    }

    /// Before the subscribe. The mark is forgotten, so that the priming events
    /// seed a clean one.
    pub fn begin(ctx: &mut StackCtx, node_id: u64) -> (res: Establishing)
        ensures
            res.node() == node_id,
            res@ == nothing_accumulated(),
            final(ctx).last_event@ == old(ctx).last_event@.remove(node_id),
            final(ctx).fab_idx == old(ctx).fab_idx,
            final(ctx).subs == old(ctx).subs,
            final(ctx).liveness == old(ctx).liveness,
            final(ctx).addrs == old(ctx).addrs,
    {
        ctx.reset_event_high_water(node_id);
        Establishing { node_id, acc: AttrAccumulator::new() }
    }

    /// Takes in one chunk of the priming report. Its events seed the mark and
    /// are not forwarded: they are the device's log, not news.
    pub fn prime(&mut self, ctx: &mut StackCtx, chunk: &ReportData, clusters: &Vec<Cluster>)
        requires
            old(self)@.failures + chunk.attr_reports@.len() <= usize::MAX,
        ensures
            final(self).node() == old(self).node(),
            final(self)@ == absorbed(
                old(self)@,
                attr_report_models(chunk.attr_reports@),
                clusters@,
            ),
            final(ctx).last_event@ == marks_after(
                old(ctx).last_event@,
                old(self).node(),
                events_of(chunk.event_reports@),
            ),
            final(ctx).fab_idx == old(ctx).fab_idx,
            final(ctx).subs == old(ctx).subs,
            final(ctx).liveness == old(ctx).liveness,
            final(ctx).addrs == old(ctx).addrs,
    {
        self.acc.absorb(&chunk.attr_reports, clusters);
        let events = walk_events(&chunk.event_reports);
        let ghost models = events_of(chunk.event_reports@);
        let ghost marks = ctx.last_event@;
        let node_id = self.node_id;
        let mut i: usize = 0;
        assert(models.take(0) =~= Seq::empty());
        while i < events.len()
            invariant
                i <= events@.len(),
                models == events@.map_values(|d: &EventData| d@),
                ctx.last_event@ == marks_after(marks, node_id, models.take(i as int)),
                ctx.fab_idx == old(ctx).fab_idx,
                ctx.subs == old(ctx).subs,
                ctx.liveness == old(ctx).liveness,
                ctx.addrs == old(ctx).addrs,
            decreases events.len() - i,
        {
            assert(models.take(i + 1).drop_last() =~= models.take(i as int));
            assert(models.take(i + 1).last() == events@[i as int]@);
            ctx.note_event(node_id, events[i].event_number);
            i += 1;
        }
        assert(models.take(models.len() as int) =~= models);
    }

    /// Reports skipped so far.
    pub fn failures(&self) -> (res: usize)
        ensures
            res == self@.failures,
    {
        self.acc.failures()
    }

    /// The device has granted the subscription. The node is recorded before
    /// anything else, so that its first report is recognised; it is announced as
    /// connected first, and its state, by path, second.
    pub fn complete(self, ctx: &mut StackCtx, subscription_id: u32, max_int: u16, at: u64) -> (res:
        Vec<StackEvent>)
        ensures
            final(ctx).subs@ == old(ctx).subs@.insert(self.node(), subscription_id),
            final(ctx).liveness@ == old(ctx).liveness@.insert(self.node(), at),
            final(ctx).fab_idx == old(ctx).fab_idx,
            final(ctx).last_event == old(ctx).last_event,
            final(ctx).addrs == old(ctx).addrs,
            res@.len() == 2,
            res@[0]@ == (StackEventModel::NodeState {
                node_id: self.node(),
                state: NodeConnState::Connected { max_interval_secs: max_int },
            }),
            match res@[1]@ {
                StackEventModel::PrimingSnapshot { node_id, attributes } => node_id == self.node()
                    && is_snapshot(attributes, self@.pairs),
                _ => false,
            },
    {
        broadcast use vstd::std_specs::hash::group_hash_axioms;

        let node_id = self.node_id;
        ctx.subs.insert(node_id, subscription_id);
        ctx.liveness.insert(node_id, at);
        let mut out: Vec<StackEvent> = Vec::new();
        out.push(
            StackEvent::NodeState {
                node_id,
                state: NodeConnState::Connected { max_interval_secs: max_int },
            },
        );
        let attributes = by_path(self.acc.into_pairs());
        out.push(StackEvent::PrimingSnapshot { node_id, attributes });
        out
    }
}

/// The subscriptions after giving up `sub_id` for `node_id`.
pub open spec fn disowned(subs: Map<u64, u32>, node_id: u64, sub_id: u32) -> Map<u64, u32> {
    if subs.contains_key(node_id) && subs[node_id] == sub_id {
        subs.remove(node_id)
    } else {
        subs
    }
}

/// Gives up ownership of `sub_id` for `node_id`. An entry that a newer
/// subscription has already replaced stays.
pub fn disown(subs: &mut HashMap<u64, u32>, node_id: u64, sub_id: u32)
    ensures
        final(subs)@ == disowned(old(subs)@, node_id, sub_id),
{
    broadcast use vstd::std_specs::hash::group_hash_axioms;

    let owned = match subs.get(&node_id) {
        Some(id) => *id == sub_id,
        None => false,
    };
    if owned {
        subs.remove(&node_id);
    }
}

/// Releases what a subscription owns, whichever way its watch ends.
pub fn release(
    subs: &mut HashMap<u64, u32>,
    liveness: &mut HashMap<u64, u64>,
    node_id: u64,
    sub_id: u32,
)
    ensures
        final(subs)@ == disowned(old(subs)@, node_id, sub_id),
        final(liveness)@ == old(liveness)@.remove(node_id),
{
    broadcast use vstd::std_specs::hash::group_hash_axioms;

    disown(subs, node_id, sub_id);
    liveness.remove(&node_id);
}

/// Whether a subscription counts as silent. Without a last report it is silent
/// since it was established; a report stamped ahead of `now` has just arrived.
pub open spec fn is_silent(
    last: Option<u64>,
    established_at: u64,
    now: u64,
    deadline: u64,
) -> bool {
    let heard = match last {
        Some(at) => at,
        None => established_at,
    };
    let silence = if now >= heard {
        now - heard
    } else {
        0
    };
    silence >= deadline
}

/// Whether a subscription counts as silent. All four are in the same unit of the
/// monotonic clock.
pub fn liveness_expired(last: Option<u64>, established_at: u64, now: u64, deadline: u64) -> (res:
    bool)
    ensures
        res == is_silent(last, established_at, now, deadline),
{
    let heard: u64 = match last {
        Some(at) => at,
        None => established_at,
    };
    let silence: u64 = if now >= heard {
        now - heard
    } else {
        0
    };
    silence >= deadline
}

/// One look of the watchdog at a node.
pub fn watch_liveness(ctx: &StackCtx, node_id: u64, established_at: u64, now: u64, deadline: u64) -> (res:
    bool)
    ensures
        res == is_silent(
            if ctx.liveness@.contains_key(node_id) {
                Some(ctx.liveness@[node_id])
            } else {
                None
            },
            established_at,
            now,
            deadline,
        ),
{
    broadcast use vstd::std_specs::hash::group_hash_axioms;

    let last: Option<u64> = match ctx.liveness.get(&node_id) {
        Some(at) => Some(*at),
        None => None,
    };
    liveness_expired(last, established_at, now, deadline)
}

/// How long a device may stay silent, in seconds: the interval it committed to,
/// and slack for one lost heartbeat.
pub fn liveness_deadline(max_int: u16) -> (res: u64)
    ensures
        res == max_int + LIVENESS_SLACK_SECS,
        res == max_int + 15,
{
    max_int as u64 + LIVENESS_SLACK_SECS
}

/// Seconds to wait before reconnect attempt number `idx`.
pub open spec fn backoff_secs(idx: nat) -> u64 {
    if idx == 0 {
        2
    } else if idx == 1 {
        5
    } else if idx == 2 {
        10
    } else if idx == 3 {
        30
    } else {
        60
    }
}

/// Seconds to wait before reconnect attempt number `idx`, held at the last step
/// of the schedule.
pub fn backoff_delay(idx: usize) -> (res: u64)
    ensures
        res == backoff_secs(idx as nat),
{
    if idx == 0 {
        2
    } else if idx == 1 {
        5
    } else if idx == 2 {
        10
    } else if idx == 3 {
        30
    } else {
        60
    }
}

/// How one attempt to subscribe ended.
#[derive(Clone, Copy, Debug, PartialEq, Eq, Structural)]
pub enum Attempt {
    Established { subscription_id: u32, max_int: u16 },
    Failed,
}

/// What the supervisor does next.
#[derive(Clone, Copy, Debug, PartialEq, Eq, Structural)]
pub enum Next {
    /// Watch the subscription until it has been silent for `deadline_secs`.
    Watch { subscription_id: u32, deadline_secs: u64 },
    /// Tell the controller the node is reconnecting, and try again after
    /// `delay_secs`.
    Retry { delay_secs: u64 },
}

/// The retry state of one node.
#[derive(Clone, Copy, Debug, PartialEq, Eq, Structural)]
pub struct Supervisor {
    pub node_id: u64,
    pub backoff_idx: usize,
}

impl Supervisor {
    pub fn new(node_id: u64) -> (res: Supervisor)
        ensures
            res == (Supervisor { node_id, backoff_idx: 0 }),
    {
        Supervisor { node_id, backoff_idx: 0 }
    }

    /// A success starts the schedule over; a failure moves it on.
    pub fn after_attempt(&mut self, attempt: Attempt) -> (res: Next)
        ensures
            final(self).node_id == old(self).node_id,
            match attempt {
                Attempt::Established { subscription_id, max_int } => {
                    &&& final(self).backoff_idx == 0
                    &&& res == Next::Watch {
                        subscription_id,
                        deadline_secs: (max_int + LIVENESS_SLACK_SECS) as u64,
                    }
                },
                Attempt::Failed => {
                    &&& final(self).backoff_idx == (if old(self).backoff_idx < usize::MAX {
                        old(self).backoff_idx + 1
                    } else {
                        usize::MAX as int
                    })
                    &&& res == Next::Retry { delay_secs: backoff_secs(old(self).backoff_idx as nat) }
                },
            },
    {
        match attempt {
            Attempt::Established { subscription_id, max_int } => {
                self.backoff_idx = 0;
                Next::Watch { subscription_id, deadline_secs: liveness_deadline(max_int) }
            },
            Attempt::Failed => {
                let delay_secs = backoff_delay(self.backoff_idx);
                if self.backoff_idx < usize::MAX {
                    self.backoff_idx = self.backoff_idx + 1;
                }
                Next::Retry { delay_secs }
            },
        }
    }

    /// The subscription went silent: it is released before its loss is
    /// announced, and the next attempt follows at once.
    pub fn after_silence(&mut self, ctx: &mut StackCtx, subscription_id: u32) -> (res: StackEvent)
        ensures
            *final(self) == *old(self),
            final(ctx).subs@ == disowned(old(ctx).subs@, old(self).node_id, subscription_id),
            final(ctx).liveness@ == old(ctx).liveness@.remove(old(self).node_id),
            final(ctx).fab_idx == old(ctx).fab_idx,
            final(ctx).last_event == old(ctx).last_event,
            final(ctx).addrs == old(ctx).addrs,
            res@ == (StackEventModel::NodeState {
                node_id: old(self).node_id,
                state: NodeConnState::Reconnecting,
            }),
    {
        release(&mut ctx.subs, &mut ctx.liveness, self.node_id, subscription_id);
        reconnecting(self.node_id)
    }
}

/// What the controller is told of a node that is being retried.
pub fn reconnecting(node_id: u64) -> (res: StackEvent)
    ensures
        res@ == (StackEventModel::NodeState { node_id, state: NodeConnState::Reconnecting }),
{
    StackEvent::NodeState { node_id, state: NodeConnState::Reconnecting }
}

/// Giving up a subscription twice is the same as once.
pub proof fn disowning_is_idempotent(subs: Map<u64, u32>, node_id: u64, sub_id: u32)
    ensures
        disowned(disowned(subs, node_id, sub_id), node_id, sub_id) == disowned(
            subs,
            node_id,
            sub_id,
        ),
        !(disowned(subs, node_id, sub_id).contains_key(node_id) && disowned(
            subs,
            node_id,
            sub_id,
        )[node_id] == sub_id),
{
}

/// Giving up one node's subscription leaves every other node's alone.
pub proof fn disowning_is_per_node(subs: Map<u64, u32>, node_id: u64, sub_id: u32, other: u64)
    requires
        other != node_id,
    ensures
        disowned(subs, node_id, sub_id).contains_key(other) == subs.contains_key(other),
        subs.contains_key(other) ==> disowned(subs, node_id, sub_id)[other] == subs[other],
{
}

/// Retries never come faster than every two seconds, never slower than every
/// minute, and never speed up.
pub proof fn backoff_is_bounded_and_monotone(a: nat, b: nat)
    requires
        a <= b,
    ensures
        2 <= backoff_secs(a) <= backoff_secs(b) <= 60,
{
}

/// A device that reports within the interval it was granted is never silent for
/// as long as the deadline, and a subscription is not given up on the watchdog's
/// first look at it.
pub proof fn punctual_devices_are_not_silent(max_int: u16, at: u64, established_at: u64, now: u64)
    ensures
        now - at <= max_int ==> !is_silent(
            Some(at),
            established_at,
            now,
            (max_int + LIVENESS_SLACK_SECS) as u64,
        ),
        now - established_at <= LIVENESS_POLL_SECS ==> !is_silent(
            None,
            established_at,
            now,
            (max_int + LIVENESS_SLACK_SECS) as u64,
        ),
{
}

/// Reports of the subscription just established are accepted; those of one it
/// supersedes, or of one that was given up, are refused.
pub proof fn only_the_live_subscription_is_tracked(
    fab_idx: u8,
    subs: Map<u64, u32>,
    node_id: u64,
    sub_id: u32,
    stale: u32,
)
    requires
        stale != sub_id,
    ensures
        is_tracked(
            fab_idx,
            subs.insert(node_id, sub_id),
            ReportSource {
                subscription_id: Some(sub_id),
                fabric_idx: fab_idx,
                peer_node_id: node_id,
            },
        ),
        !is_tracked(
            fab_idx,
            subs.insert(node_id, sub_id),
            ReportSource {
                subscription_id: Some(stale),
                fabric_idx: fab_idx,
                peer_node_id: node_id,
            },
        ),
        !is_tracked(
            fab_idx,
            disowned(subs, node_id, sub_id),
            ReportSource {
                subscription_id: Some(sub_id),
                fabric_idx: fab_idx,
                peer_node_id: node_id,
            },
        ),
{
}

/// A subscription is silent exactly where nothing was heard of it for as long as the
/// deadline, since its last report or, without one, since it was established.
pub proof fn silence_is_counted_from_the_last_report(
    last: Option<u64>,
    established_at: u64,
    now: u64,
    deadline: u64,
)
    ensures
        last is Some ==> (is_silent(last, established_at, now, deadline) <==> now >= last->0
            + deadline || deadline == 0),
        last is None ==> (is_silent(last, established_at, now, deadline) <==> now >= established_at
            + deadline || deadline == 0),
{
}

/// Retries come after 2, 5, 10 and 30 seconds, and from then on every minute.
pub proof fn retries_follow_the_schedule(idx: nat)
    ensures
        backoff_secs(idx) == if idx < 4 {
            seq![2u64, 5, 10, 30][idx as int]
        } else {
            60u64
        },
        LIVENESS_SLACK_SECS == 15,
        LIVENESS_POLL_SECS == 5,
        MIN_INTERVAL_FLOOR_SECS == 0,
        MAX_INTERVAL_CEIL_SECS == 60,
{
}

/// A subscription that is still the node's own is given up, and only that one: a
/// newer one stays.
pub proof fn only_the_named_subscription_is_given_up(
    subs: Map<u64, u32>,
    node_id: u64,
    sub_id: u32,
)
    ensures
        subs.contains_pair(node_id, sub_id) ==> disowned(subs, node_id, sub_id) == subs.remove(
            node_id,
        ),
        !subs.contains_pair(node_id, sub_id) ==> disowned(subs, node_id, sub_id) == subs,
{
}

} // verus!
