//! Discovery of commissionable devices: one sweep is a run of single-result
//! queries that share one deadline.

use crate::ctx::{map_err, mapped_error};
use crate::error::SdkError;
use crate::ops::commission::CommissionableFilter;
use crate::stack_api::{DiscoveredDevice, StackError, StackErrorKind, StackErrorModel};
use crate::text::{decimal, decimal_string, hex, hex_string, hexadecimals_are_read_back};
use vstd::prelude::*;

verus! {

/// How many instances a query can exclude, and so how many devices one sweep can
/// find.
pub const MAX_SWEEP: usize = 6;

/// A deadline `total` after `now`, at most the end of time.
pub open spec fn deadline_of(now: u64, total: u64) -> u64 {
    if now + total <= u64::MAX {
        (now + total) as u64
    } else {
        u64::MAX
    }
}

/// A deadline `total` after `now`, in ticks of the monotonic clock.
pub fn deadline_after(now: u64, total: u64) -> (res: u64)
    ensures
        res == deadline_of(now, total),
{
    match now.checked_add(total) {
        Some(at) => at,
        None => u64::MAX,
    }
}

/// What a sweep looks for: anything that is in commissioning mode.
pub fn sweep_filter() -> (res: CommissionableFilter)
    ensures
        res == (CommissionableFilter {
            discriminator: None,
            short_discriminator: None,
            vendor_id: None,
            product_id: None,
            device_type: None,
            commissioning_mode_only: true,
        }),
{
    CommissionableFilter {
        discriminator: None,
        short_discriminator: None,
        vendor_id: None,
        product_id: None,
        device_type: None,
        commissioning_mode_only: true,
    }
}

/// What is left until a deadline, 0 once it has passed.
pub fn remaining_budget(deadline: u64, now: u64) -> (res: u64)
    ensures
        res == (if deadline >= now {
            deadline - now
        } else {
            0
        }),
{
    if deadline >= now {
        deadline - now
    } else {
        0
    }
}

/// The devices found so far, and the instances the next query leaves out.
#[derive(Debug)]
pub struct Sweep {
    out: Vec<DiscoveredDevice>,
    exclude: Vec<u64>,
}

#[verifier::ext_equal]
pub struct DeviceModel {
    pub instance_name: Seq<char>,
    pub address: Seq<char>,
}

impl DiscoveredDevice {
    pub open spec fn view(&self) -> DeviceModel {
        DeviceModel { instance_name: self.instance_name@, address: self.address@ }
    }
}

pub open spec fn device_models(devices: Seq<DiscoveredDevice>) -> Seq<DeviceModel> {
    devices.map_values(|d: DiscoveredDevice| d@)
}

/// A device under its instance name: sixteen hexadecimal digits in upper case.
pub open spec fn device_of(address: Seq<char>, instance: u64) -> DeviceModel {
    DeviceModel { instance_name: hex(instance as nat, 16, true), address }
}

impl Sweep {
    /// The devices found so far.
    pub closed spec fn devices(&self) -> Seq<DeviceModel> {
        device_models(self.out@)
    }

    /// The instances found so far.
    pub closed spec fn excluded(&self) -> Seq<u64> {
        self.exclude@
    }

    /// One instance per device, each under its own name.
    pub open spec fn wf(&self) -> bool {
        &&& self.devices().len() == self.excluded().len()
        &&& forall|i: int|
            0 <= i < self.excluded().len() ==> (#[trigger] self.devices()[i]).instance_name == hex(
                self.excluded()[i] as nat,
                16,
                true,
            )
    }

    pub fn new() -> (res: Sweep)
        ensures
            res.wf(),
            res.devices() == Seq::<DeviceModel>::empty(),
            res.excluded() == Seq::<u64>::empty(),
    {
        let res = Sweep { out: Vec::new(), exclude: Vec::new() };
        assert(res.devices() =~= Seq::empty());
        res
    }

    /// Records a device, and leaves it out of the next query.
    pub fn push(&mut self, address: &str, instance: u64)
        requires
            old(self).wf(),
        ensures
            final(self).wf(),
            final(self).devices() == old(self).devices().push(device_of(address@, instance)),
            final(self).excluded() == old(self).excluded().push(instance),
    {
        let ghost before = self.devices();
        let device = DiscoveredDevice {
            instance_name: hex_string(instance, 16, true),
            address: address.to_owned(),
        };
        self.out.push(device);
        self.exclude.push(instance);
        assert(self.devices() =~= before.push(device_of(address@, instance)));
        assert forall|i: int| 0 <= i < self.excluded().len() implies (
        #[trigger] self.devices()[i]).instance_name == hex(self.excluded()[i] as nat, 16, true) by {
            if i < before.len() {
                assert(self.devices()[i] == before[i]);
            }
        }
    }

    /// What the next query leaves out.
    pub fn exclude(&self) -> (res: &Vec<u64>)
        ensures
            res@ == self.excluded(),
    {
        &self.exclude
    }

    /// Whether no further query can be made.
    pub fn is_full(&self) -> (res: bool)
        ensures
            res == (self.excluded().len() >= MAX_SWEEP),
    {
        self.exclude.len() >= MAX_SWEEP
    }

    pub fn len(&self) -> (res: usize)
        ensures
            res == self.devices().len(),
    {
        self.out.len()
    }

    pub fn into_devices(self) -> (res: Vec<DiscoveredDevice>)
        ensures
            device_models(res@) == self.devices(),
    {
        self.out
    }
}

/// What a sweep does next.
#[derive(Clone, Copy, Debug, PartialEq, Eq, Structural)]
pub enum SweepStep {
    /// The exclude list is full; any further devices are not reported.
    Full,
    /// The deadline has passed.
    Spent,
    /// Query once more, for at most `budget` ticks.
    Query { budget: u64 },
}

/// What a sweep does next at `now`. Every query is carved out of the one
/// deadline, so that all together cannot outlast it.
pub fn browse_step(sweep: &Sweep, deadline: u64, now: u64) -> (res: SweepStep)
    ensures
        res == (if sweep.excluded().len() >= MAX_SWEEP {
            SweepStep::Full
        } else if now >= deadline {
            SweepStep::Spent
        } else {
            SweepStep::Query { budget: (deadline - now) as u64 }
        }),
{
    if sweep.is_full() {
        return SweepStep::Full;
    }
    let budget = remaining_budget(deadline, now);
    if budget == 0 {
        SweepStep::Spent
    } else {
        SweepStep::Query { budget }
    }
}

/// Takes in what one query came to, and says whether the sweep goes on. A query
/// that failed ends it, with the devices found so far as its answer.
pub fn after_query(sweep: &mut Sweep, outcome: Result<(String, u64), StackError>) -> (go_on: bool)
    requires
        old(sweep).wf(),
    ensures
        final(sweep).wf(),
        match outcome {
            Ok((address, instance)) => {
                &&& go_on
                &&& final(sweep).devices() == old(sweep).devices().push(
                    device_of(address@, instance),
                )
                &&& final(sweep).excluded() == old(sweep).excluded().push(instance)
            },
            Err(_) => {
                &&& !go_on
                &&& *final(sweep) == *old(sweep)
            },
        },
{
    match outcome {
        Ok((address, instance)) => {
            sweep.push(address.as_str(), instance);
            true
        },
        Err(_) => false,
    }
}

/// The devices a sweep answers with, where its queries come to `outcomes` in turn
/// and its time runs out after the last of them: those found before the first
/// query that failed, as far as they can be excluded.
pub open spec fn swept(outcomes: Seq<Result<(Seq<char>, u64), StackErrorModel>>) -> Seq<DeviceModel>
    decreases outcomes.len(),
{
    if outcomes.len() == 0 {
        Seq::empty()
    } else {
        let before = swept(outcomes.drop_last());
        match outcomes.last() {
            Ok((address, instance)) if before.len() == outcomes.len() - 1 && before.len()
                < MAX_SWEEP => before.push(device_of(address, instance)),
            _ => before,
        }
    }
}

/// A query budget in milliseconds, as far as the query can be told.
pub fn budget_millis(millis: u64) -> (res: u32)
    ensures
        res == (if millis <= u32::MAX {
            millis as u32
        } else {
            u32::MAX
        }),
{
    if millis <= 0xFFFF_FFFF {
        millis as u32
    } else {
        u32::MAX
    }
}

pub open spec fn no_turn(ms: u32) -> StackErrorModel {
    StackErrorModel {
        kind: StackErrorKind::Timeout,
        message: "mDNS browse timed out after "@ + decimal(ms as nat)
            + "ms without getting a turn (another discovery or commissioning was holding the browse slot)"@,
    }
}

/// What one query of `ms` milliseconds comes to: `None` when its time ran out
/// before it got a turn.
pub fn browse_one<T>(ms: u32, outcome: Option<Result<T, SdkError>>) -> (res: Result<T, StackError>)
    ensures
        match outcome {
            Some(Ok(v)) => res == Ok::<T, StackError>(v),
            Some(Err(e)) => res is Err && res->Err_0@ == mapped_error(e@),
            None => res is Err && res->Err_0@ == no_turn(ms),
        },
{
    match outcome {
        Some(Ok(v)) => Ok(v),
        Some(Err(e)) => Err(map_err(e)),
        None => {
            let mut message = "mDNS browse timed out after ".to_owned();
            let n = decimal_string(ms as u64);
            message.append(n.as_str());
            message.append(
                "ms without getting a turn (another discovery or commissioning was holding the browse slot)",
            );
            Err(StackError::new(StackErrorKind::Timeout, message))
        },
    }
}

/// How loudly the error that ended a sweep is logged.
#[derive(Clone, Copy, Debug, PartialEq, Eq, Structural)]
pub enum SweepEnd {
    Debug,
    Info,
    Warn,
}

/// An empty sweep always leaves a trace, and a fault is louder than an empty
/// network.
pub fn report_sweep_end(e: &StackError, found: usize) -> (res: SweepEnd)
    ensures
        res == (if found > 0 {
            SweepEnd::Debug
        } else if e.kind == StackErrorKind::NodeUnreachable {
            SweepEnd::Info
        } else {
            SweepEnd::Warn
        }),
{
    if found > 0 {
        SweepEnd::Debug
    } else if e.kind == StackErrorKind::NodeUnreachable {
        SweepEnd::Info
    } else {
        SweepEnd::Warn
    }
}

/// A sweep always has an answer: at most as many devices as can be excluded, in
/// the order they were found, each from its own query, and all those found before
/// the first failure.
pub proof fn failed_queries_cost_no_device(
    outcomes: Seq<Result<(Seq<char>, u64), StackErrorModel>>,
    n: int,
)
    requires
        0 <= n <= outcomes.len(),
        forall|i: int| 0 <= i < n ==> (#[trigger] outcomes[i]) is Ok,
        n < outcomes.len() ==> outcomes[n] is Err,
    ensures
        swept(outcomes).len() == if n < MAX_SWEEP {
            n
        } else {
            MAX_SWEEP as int
        },
        forall|i: int|
            0 <= i < swept(outcomes).len() ==> #[trigger] swept(outcomes)[i] == device_of(
                outcomes[i]->Ok_0.0,
                outcomes[i]->Ok_0.1,
            ),
    decreases outcomes.len(),
{
    if outcomes.len() > 0 {
        let rest = outcomes.drop_last();
        if n == outcomes.len() {
            assert(outcomes[n - 1] is Ok);
            failed_queries_cost_no_device(rest, n - 1);
        } else {
            if n < rest.len() {
                assert(rest[n] is Err);
            }
            failed_queries_cost_no_device(rest, n);
        }
        assert forall|i: int| 0 <= i < swept(outcomes).len() implies #[trigger] swept(outcomes)[i]
            == device_of(outcomes[i]->Ok_0.0, outcomes[i]->Ok_0.1) by {
            if i < swept(rest).len() {
                assert(swept(rest)[i] == device_of(rest[i]->Ok_0.0, rest[i]->Ok_0.1));
            }
        }
    }
}

/// Queries that each stay within the budget they were given end by the deadline:
/// a query started at `start` for `deadline - start` and done by then leaves the
/// next one what remains.
pub proof fn queries_share_one_deadline(start: u64, total: u64, now: u64, used: u64)
    requires
        now < deadline_of(start, total),
        used <= deadline_of(start, total) - now,
    ensures
        now + used <= deadline_of(start, total),
        deadline_of(start, total) - start <= total,
{
}

/// A deadline is that much later, unless time ends before.
pub proof fn deadlines_are_that_much_later(now: u64, total: u64)
    ensures
        now + total < 0x1_0000_0000_0000_0000 ==> deadline_of(now, total) == now + total,
        now + total >= 0x1_0000_0000_0000_0000 ==> deadline_of(now, total)
            == 0xFFFF_FFFF_FFFF_FFFFu64,
{
}

/// A device found keeps the address it was found at, and goes by the sixteen upper
/// case hexadecimal digits of its instance.
pub proof fn devices_keep_their_address_and_instance(address: Seq<char>, instance: u64)
    ensures
        device_of(address, instance).address == address,
        device_of(address, instance).instance_name == hex(instance as nat, 16, true),
        device_of(address, instance).instance_name.len() == 16,
        MAX_SWEEP == 6,
{
    hexadecimals_are_read_back(instance as nat, 16, true);
}

/// A query that got no turn is a timeout that names the milliseconds it had.
pub proof fn lost_turns_name_their_budget(ms: u32)
    ensures
        no_turn(ms).kind is Timeout,
        no_turn(ms).message == "mDNS browse timed out after "@ + decimal(ms as nat)
            + "ms without getting a turn (another discovery or commissioning was holding the browse slot)"@,
{
}

} // verus!
