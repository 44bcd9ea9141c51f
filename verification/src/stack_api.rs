//! What the stack hands to the controller: errors, events and results.

use crate::json::{entry_models, Json, JsonModel};
use vstd::prelude::*;

verus! {

/// The kinds of failure a caller can act on.
#[derive(Clone, Copy, Debug, PartialEq, Eq, Structural)]
pub enum StackErrorKind {
    NodeUnreachable,
    Timeout,
    Busy,
    InvalidArguments,
    Sdk,
}

#[derive(Debug, PartialEq, Eq)]
pub struct StackError {
    pub kind: StackErrorKind,
    pub message: String,
}

#[verifier::ext_equal]
pub struct StackErrorModel {
    pub kind: StackErrorKind,
    pub message: Seq<char>,
}

impl StackError {
    pub open spec fn view(&self) -> StackErrorModel {
        StackErrorModel { kind: self.kind, message: self.message@ }
    }

    pub fn new(kind: StackErrorKind, message: String) -> (res: StackError)
        ensures
            res@ == (StackErrorModel { kind, message: message@ }),
            res.kind == kind,
            res.message@ == message@,
    {
        StackError { kind, message }
    }
}

/// An attribute path; an absent segment is a wildcard.
#[derive(Clone, Copy, Debug, PartialEq, Eq, Structural)]
pub struct AttributePathSpec {
    pub endpoint: Option<u16>,
    pub cluster: Option<u32>,
    pub attribute: Option<u32>,
}

/// One event a node reported. `timestamp_type`: 1 = epoch, 0 = system uptime,
/// 2 = the local clock.
#[derive(Debug, PartialEq, Eq)]
pub struct NodeEventData {
    pub endpoint_id: u16,
    pub cluster_id: u32,
    pub event_id: u32,
    pub event_number: u64,
    pub priority: u8,
    pub timestamp: i64,
    pub timestamp_type: u8,
    pub data: Json,
}

#[verifier::ext_equal]
pub struct NodeEventModel {
    pub endpoint_id: u16,
    pub cluster_id: u32,
    pub event_id: u32,
    pub event_number: u64,
    pub priority: u8,
    pub timestamp: i64,
    pub timestamp_type: u8,
    pub data: JsonModel,
}

impl NodeEventData {
    pub open spec fn view(&self) -> NodeEventModel {
        NodeEventModel {
            endpoint_id: self.endpoint_id,
            cluster_id: self.cluster_id,
            event_id: self.event_id,
            event_number: self.event_number,
            priority: self.priority,
            timestamp: self.timestamp,
            timestamp_type: self.timestamp_type,
            data: self.data@,
        }
    }
}

#[derive(Clone, Copy, Debug, PartialEq, Eq, Structural)]
pub enum NodeConnState {
    Connected { max_interval_secs: u16 },
    Reconnecting,
}

/// What the stack tells the controller on its own initiative.
#[derive(Debug, PartialEq, Eq)]
pub enum StackEvent {
    AttributesChanged { node_id: u64, changes: Vec<(String, Json)> },
    NodeEvent { node_id: u64, event: NodeEventData },
    NodeState { node_id: u64, state: NodeConnState },
    /// Every attribute of a node, by path.
    PrimingSnapshot { node_id: u64, attributes: Vec<(String, Json)> },
}

#[verifier::ext_equal]
pub enum StackEventModel {
    AttributesChanged { node_id: u64, changes: Seq<(Seq<char>, JsonModel)> },
    NodeEvent { node_id: u64, event: NodeEventModel },
    NodeState { node_id: u64, state: NodeConnState },
    PrimingSnapshot { node_id: u64, attributes: Seq<(Seq<char>, JsonModel)> },
}

impl StackEvent {
    pub open spec fn view(&self) -> StackEventModel {
        match *self {
            StackEvent::AttributesChanged { node_id, changes } => StackEventModel::AttributesChanged {
                node_id,
                changes: entry_models(changes@),
            },
            StackEvent::NodeEvent { node_id, event } => StackEventModel::NodeEvent {
                node_id,
                event: event@,
            },
            StackEvent::NodeState { node_id, state } => StackEventModel::NodeState { node_id, state },
            StackEvent::PrimingSnapshot { node_id, attributes } => StackEventModel::PrimingSnapshot {
                node_id,
                attributes: entry_models(attributes@),
            },
        }
    }
}

/// The models of a run of events.
pub open spec fn event_models(events: Seq<StackEvent>) -> Seq<StackEventModel> {
    events.map_values(|e: StackEvent| e@)
}

/// A fabric as a device describes it.
#[derive(Debug, PartialEq, Eq)]
pub struct DeviceFabric {
    pub fabric_id: u64,
    pub vendor_id: u16,
    pub fabric_index: u8,
    pub fabric_label: String,
}

/// A device that discovery found, at `"ip:port"`.
#[derive(Debug, PartialEq, Eq)]
pub struct DiscoveredDevice {
    pub instance_name: String,
    pub address: String,
}

/// How a second administrator can join: the codes of an open window.
#[derive(Debug, PartialEq, Eq)]
pub struct WindowInfo {
    pub setup_pin_code: u32,
    pub setup_manual_code: String,
    pub setup_qr_code: String,
}

/// What a commissioning came to: the index of our fabric on the device and the
/// `"ip:port"` it was reached at.
#[derive(Debug, PartialEq, Eq)]
pub struct CommissionOutcome {
    pub device_fabric_index: u8,
    pub address: String,
}

/// Where to find the device to commission, and its passcode.
#[derive(Debug, PartialEq, Eq)]
pub enum PaseTarget {
    /// A QR string or a manual pairing code.
    Code { code: String },
    OnNetwork {
        passcode: u32,
        long_discriminator: Option<u16>,
        short_discriminator: Option<u8>,
        vendor_id: Option<u16>,
    },
    Address { passcode: u32, addr: String },
}

} // verus!
