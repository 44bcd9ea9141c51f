//! Commissioning a node onto our fabric.

use crate::ctx::{map_err, mapped_error, sdk_message, sdk_text, StackCtx, COMMISSION_TIMEOUT_SECS};
use crate::error::{SdkError, SdkErrorModel};
use crate::ops::addr::{host_of, ip_of};
use crate::stack_api::{
    CommissionOutcome, PaseTarget, StackError, StackErrorKind, StackErrorModel,
};
use crate::text::{chars_of, decimal, decimal_string, trim_text, trimmed};
use vstd::prelude::*;

verus! {

/// How long to wait for a device to advertise, in seconds.
pub const BROWSE_TIMEOUT_SECS: u64 = 30;

/// Which advertisements to look for.
#[derive(Clone, Copy, Debug, PartialEq, Eq, Structural)]
pub struct CommissionableFilter {
    pub discriminator: Option<u16>,
    pub short_discriminator: Option<u8>,
    pub vendor_id: Option<u16>,
    pub product_id: Option<u16>,
    pub device_type: Option<u32>,
    pub commissioning_mode_only: bool,
}

/// The two kinds of pairing code.
#[derive(Clone, Copy, Debug, PartialEq, Eq, Structural)]
pub enum CodeKind {
    Qr,
    Manual,
}

/// A QR code starts with its scheme; anything else is a manual code.
pub open spec fn kind_of(code: Seq<char>) -> CodeKind {
    if code.len() >= 3 && code[0] == 'M' && code[1] == 'T' && code[2] == ':' {
        CodeKind::Qr
    } else {
        CodeKind::Manual
    }
}

/// Which kind of pairing code a text is to be read as.
pub fn code_kind(code: &str) -> (res: CodeKind)
    ensures
        res == kind_of(code@),
{
    let chars = chars_of(code);
    if chars.len() >= 3 && chars[0] == 'M' && chars[1] == 'T' && chars[2] == ':' {
        CodeKind::Qr
    } else {
        CodeKind::Manual
    }
}

/// How to get to the device.
#[derive(Debug, PartialEq, Eq)]
pub enum TargetPlan {
    /// Read the code for the passcode and the filter, then browse.
    ReadCode { kind: CodeKind, code: String },
    Browse { passcode: u32, filter: CommissionableFilter },
    Connect { passcode: u32, addr: String },
}

/// The filter for a device on the network. With nothing to tell it by, only
/// devices in commissioning mode are of interest.
pub open spec fn network_filter(
    long_discriminator: Option<u16>,
    short_discriminator: Option<u8>,
    vendor_id: Option<u16>,
) -> CommissionableFilter {
    CommissionableFilter {
        discriminator: long_discriminator,
        short_discriminator,
        vendor_id,
        product_id: None,
        device_type: None,
        commissioning_mode_only: long_discriminator is None && short_discriminator is None
            && vendor_id is None,
    }
}

/// A search on the network is for exactly what the request names: no part of it is
/// left out and none is added, and one that names nothing is for devices in
/// commissioning mode, and only such a one.
pub proof fn the_search_is_for_what_was_named(
    long: Option<u16>,
    short: Option<u8>,
    vendor: Option<u16>,
)
    ensures
        ({
            let f = network_filter(long, short, vendor);
            &&& f.discriminator == long
            &&& f.short_discriminator == short
            &&& f.vendor_id == vendor
            &&& f.product_id is None
            &&& f.device_type is None
            &&& f.commissioning_mode_only <==> f.discriminator is None
                && f.short_discriminator is None && f.vendor_id is None
        }),
{
}

/// A code that starts with `MT:` is a QR code, and any other a manual one.
pub proof fn codes_are_told_by_their_scheme(code: Seq<char>)
    ensures
        kind_of(code) is Qr <==> "MT:"@.is_prefix_of(code),
        kind_of(code) is Manual <==> !"MT:"@.is_prefix_of(code),
{
    reveal_strlit("MT:");
    if code.len() >= 3 && code[0] == 'M' && code[1] == 'T' && code[2] == ':' {
        assert("MT:"@ =~= code.subrange(0, 3));
    }
    if "MT:"@.is_prefix_of(code) {
        assert(code.subrange(0, 3)[0] == code[0]);
        assert(code.subrange(0, 3)[1] == code[1]);
        assert(code.subrange(0, 3)[2] == code[2]);
    }
}

/// How to get to the device that a request names.
pub fn resolve_target(target: &PaseTarget) -> (res: TargetPlan)
    ensures
        match *target {
            PaseTarget::Code { code } => match res {
                TargetPlan::ReadCode { kind, code: trimmed_code } => trimmed_code@ == trimmed(code@)
                    && kind == kind_of(trimmed(code@)),
                _ => false,
            },
            PaseTarget::OnNetwork {
                passcode,
                long_discriminator,
                short_discriminator,
                vendor_id,
            } => {
                &&& res == (TargetPlan::Browse {
                    passcode,
                    filter: network_filter(long_discriminator, short_discriminator, vendor_id),
                })
                &&& res->filter.discriminator == long_discriminator
                &&& res->filter.short_discriminator == short_discriminator
                &&& res->filter.vendor_id == vendor_id
                &&& res->filter.product_id is None
                &&& res->filter.device_type is None
                &&& res->filter.commissioning_mode_only <==> long_discriminator is None
                    && short_discriminator is None && vendor_id is None
            },
            PaseTarget::Address { passcode, addr } => match res {
                TargetPlan::Connect { passcode: p, addr: a } => p == passcode && a@ == addr@,
                _ => false,
            },
        },
{
    match target {
        PaseTarget::Code { code } => {
            let code = trim_text(code.as_str());
            TargetPlan::ReadCode { kind: code_kind(code.as_str()), code }
        },
        PaseTarget::OnNetwork {
            passcode,
            long_discriminator,
            short_discriminator,
            vendor_id,
        } => TargetPlan::Browse {
            passcode: *passcode,
            filter: CommissionableFilter {
                discriminator: *long_discriminator,
                short_discriminator: *short_discriminator,
                vendor_id: *vendor_id,
                product_id: None,
                device_type: None,
                commissioning_mode_only: long_discriminator.is_none()
                    && short_discriminator.is_none() && vendor_id.is_none(),
            },
        },
        PaseTarget::Address { passcode, addr } => TargetPlan::Connect {
            passcode: *passcode,
            addr: addr.clone(),
        },
    }
}

pub open spec fn code_name(kind: CodeKind) -> Seq<char> {
    match kind {
        CodeKind::Qr => "QR code"@,
        CodeKind::Manual => "pairing code"@,
    }
}

pub open spec fn bad_code(kind: CodeKind, e: SdkErrorModel) -> StackErrorModel {
    StackErrorModel {
        kind: StackErrorKind::InvalidArguments,
        message: "invalid "@ + code_name(kind) + ": "@ + sdk_message(e),
    }
}

/// What reading a pairing code comes to. A malformed one is the caller's mistake.
pub fn parse_pairing_code(
    kind: CodeKind,
    read: Result<(u32, CommissionableFilter), SdkError>,
) -> (res: Result<(u32, CommissionableFilter), StackError>)
    ensures
        match read {
            Ok(v) => res == Ok::<(u32, CommissionableFilter), StackError>(v),
            Err(e) => res is Err && res->Err_0@ == bad_code(kind, e@),
        },
{
    match read {
        Ok(v) => Ok(v),
        Err(e) => {
            let mut message = "invalid ".to_owned();
            match kind {
                CodeKind::Qr => message.append("QR code"),
                CodeKind::Manual => message.append("pairing code"),
            }
            message.append(": ");
            let text = sdk_text(&e);
            message.append(text.as_str());
            Err(StackError::new(StackErrorKind::InvalidArguments, message))
        },
    }
}

/// An address that does not parse, for the reason given.
pub fn invalid_ip_addr(reason: &str) -> (res: StackError)
    ensures
        res@ == (StackErrorModel {
            kind: StackErrorKind::InvalidArguments,
            message: "invalid ip_addr: "@ + reason@,
        }),
{
    let mut message = "invalid ip_addr: ".to_owned();
    message.append(reason);
    StackError::new(StackErrorKind::InvalidArguments, message)
}

/// The fabric id to issue certificates under: the root's own, or the stored one
/// for a root that names none.
pub fn noc_fabric_id(root: Result<u64, SdkError>, stored: u64) -> (res: u64)
    ensures
        res == (match root {
            Ok(id) => id,
            Err(_) => stored,
        }),
{
    match root {
        Ok(id) => id,
        Err(_) => stored,
    }
}

pub open spec fn pase_timed_out() -> StackErrorModel {
    StackErrorModel {
        kind: StackErrorKind::Timeout,
        message: "commissioning timed out after "@ + decimal(COMMISSION_TIMEOUT_SECS as nat)
            + "s (a previous failed attempt may hold the device's PASE session for ~60s)"@,
    }
}

pub open spec fn case_timed_out() -> StackErrorModel {
    StackErrorModel {
        kind: StackErrorKind::Timeout,
        message: "CASE completion timed out after "@ + decimal(COMMISSION_TIMEOUT_SECS as nat)
            + "s; the device's 60s failsafe has expired, so it has rolled back the partial commissioning and may report Busy for ~60s"@,
    }
}

/// What the first phase, over the passcode, comes to: the index of our fabric on
/// the device. `None` when its time ran out.
pub fn pase_phase(outcome: Option<Result<u8, SdkError>>) -> (res: Result<u8, StackError>)
    ensures
        match outcome {
            Some(Ok(idx)) => res == Ok::<u8, StackError>(idx),
            Some(Err(e)) => res is Err && res->Err_0@ == mapped_error(e@),
            None => res is Err && res->Err_0@ == pase_timed_out(),
        },
{
    match outcome {
        Some(Ok(idx)) => Ok(idx),
        Some(Err(e)) => Err(map_err(e)),
        None => {
            let mut message = "commissioning timed out after ".to_owned();
            let n = decimal_string(COMMISSION_TIMEOUT_SECS);
            message.append(n.as_str());
            message.append(
                "s (a previous failed attempt may hold the device's PASE session for ~60s)",
            );
            Err(StackError::new(StackErrorKind::Timeout, message))
        },
    }
}

/// What the second phase, over the new operational identity, comes to.
pub fn case_phase(outcome: Option<Result<(), SdkError>>) -> (res: Result<(), StackError>)
    ensures
        match outcome {
            Some(Ok(())) => res is Ok,
            Some(Err(e)) => res is Err && res->Err_0@ == mapped_error(e@),
            None => res is Err && res->Err_0@ == case_timed_out(),
        },
{
    match outcome {
        Some(Ok(())) => Ok(()),
        Some(Err(e)) => Err(map_err(e)),
        None => {
            let mut message = "CASE completion timed out after ".to_owned();
            let n = decimal_string(COMMISSION_TIMEOUT_SECS);
            message.append(n.as_str());
            message.append(
                "s; the device's 60s failsafe has expired, so it has rolled back the partial commissioning and may report Busy for ~60s",
            );
            Err(StackError::new(StackErrorKind::Timeout, message))
        },
    }
}

/// What a commissioning over `address` comes to, once both phases have run. The
/// address is remembered for the node only when both succeeded.
pub fn commission(
    ctx: &mut StackCtx,
    node_id: u64,
    address: String,
    pase: Option<Result<u8, SdkError>>,
    case: Option<Result<(), SdkError>>,
) -> (res: Result<CommissionOutcome, StackError>)
    ensures
        final(ctx).fab_idx == old(ctx).fab_idx,
        final(ctx).subs == old(ctx).subs,
        final(ctx).liveness == old(ctx).liveness,
        final(ctx).last_event == old(ctx).last_event,
        res is Err ==> final(ctx).addrs == old(ctx).addrs,
        match pase {
            Some(Err(e)) => res is Err && res->Err_0@ == mapped_error(e@),
            None => res is Err && res->Err_0@ == pase_timed_out(),
            Some(Ok(idx)) => match case {
                Some(Err(e)) => res is Err && res->Err_0@ == mapped_error(e@),
                None => res is Err && res->Err_0@ == case_timed_out(),
                Some(Ok(())) => {
                    &&& res == Ok::<CommissionOutcome, StackError>(
                        CommissionOutcome { device_fabric_index: idx, address },
                    )
                    &&& final(ctx).addrs@.dom() == old(ctx).addrs@.dom().insert(node_id)
                    &&& final(ctx).addrs@[node_id]@.len() == 1
                    &&& final(ctx).addrs@[node_id]@[0]@ == host_of(address@)
                    &&& forall|n: u64|
                        n != node_id && old(ctx).addrs@.contains_key(n)
                            ==> #[trigger] final(ctx).addrs@[n] == old(ctx).addrs@[n]
                },
            },
        },
{
    broadcast use vstd::std_specs::hash::group_hash_axioms;

    let device_fabric_index = match pase_phase(pase) {
        Ok(idx) => idx,
        Err(e) => {
            return Err(e);
        },
    };
    if let Err(e) = case_phase(case) {
        return Err(e);
    }
    let mut known: Vec<String> = Vec::new();
    known.push(ip_of(address.as_str()));
    ctx.addrs.insert(node_id, known);
    Ok(CommissionOutcome { device_fabric_index, address })
}

/// A pairing code that cannot be read is the caller's mistake, told by its kind;
/// running out of time is a timeout, told by its phase.
pub proof fn commissioning_failures_are_told_apart(e: SdkErrorModel)
    ensures
        bad_code(CodeKind::Qr, e) == (StackErrorModel {
            kind: StackErrorKind::InvalidArguments,
            message: "invalid "@ + "QR code"@ + ": "@ + ("Error::"@ + e.text),
        }),
        bad_code(CodeKind::Manual, e) == (StackErrorModel {
            kind: StackErrorKind::InvalidArguments,
            message: "invalid "@ + "pairing code"@ + ": "@ + ("Error::"@ + e.text),
        }),
        pase_timed_out() == (StackErrorModel {
            kind: StackErrorKind::Timeout,
            message: "commissioning timed out after "@ + decimal(60)
                + "s (a previous failed attempt may hold the device's PASE session for ~60s)"@,
        }),
        case_timed_out() == (StackErrorModel {
            kind: StackErrorKind::Timeout,
            message: "CASE completion timed out after "@ + decimal(60)
                + "s; the device's 60s failsafe has expired, so it has rolled back the partial commissioning and may report Busy for ~60s"@,
        }),
{
}

} // verus!
