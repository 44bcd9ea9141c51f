//! What the models say of the values they stand for: the same, field by field and
//! item by item.

use crate::error::{SdkError, SdkErrorModel};
use crate::idl::{struct_by_name, Cluster, StructDef};
use crate::json::{entry_models, item_models, Json, JsonModel, Number};
use crate::mdns::{forced_name, Iface};
use crate::ops::discovery::device_models;
use crate::ops::fabrics::fabric_models;
use crate::ops::interact::{named_struct, optional, outcome_model};
use crate::reports::{
    attr_report_models, payload_model, text_models, AttrPath, AttrReport, AttrReportModel, EventData,
};
use crate::stack_api::{
    event_models, DeviceFabric, DiscoveredDevice, NodeConnState, NodeEventData, StackError,
    StackErrorModel, StackEvent, StackEventModel,
};
use crate::tlv::{member_models, Member, Tag, TagModel, Tlv, TlvModel};
use crate::tlv_json::reading;
use crate::tlv_write::{hint_model, writing, written, TypeHint};
use crate::wire::envelope::CommandMessage;
use vstd::prelude::*;

verus! {

/// A JSON value is modelled by its own kind and contents.
pub proof fn json_is_modelled_as_it_is(
    b: bool,
    n: Number,
    s: String,
    items: Vec<Json>,
    entries: Vec<(String, Json)>,
)
    ensures
        Json::Null@ == JsonModel::Null,
        Json::Bool(b)@ == JsonModel::Bool(b),
        Json::Number(n)@ == JsonModel::Number(n),
        Json::Text(s)@ == JsonModel::Text(s@),
        Json::Array(items)@ is Array,
        Json::Array(items)@->Array_0.len() == items@.len(),
        forall|i: int|
            0 <= i < items@.len() ==> #[trigger] Json::Array(items)@->Array_0[i] == items@[i]@,
        Json::Object(entries)@ is Object,
        Json::Object(entries)@->Object_0.len() == entries@.len(),
        forall|i: int|
            0 <= i < entries@.len() ==> #[trigger] Json::Object(entries)@->Object_0[i] == (
                entries@[i].0@,
                entries@[i].1@,
            ),
        Json::Object(entries)@->Object_0 == entry_models(entries@),
        Json::Array(items)@->Array_0 == item_models(items@),
{
}

/// An element is modelled by its own kind and contents.
pub proof fn elements_are_modelled_as_they_are(
    t: Tlv,
    n: Number,
    b: bool,
    bytes: Vec<u8>,
    ms: Vec<Member>,
    e: SdkError,
)
    ensures
        match t {
            Tlv::S8(v) => t@ == TlvModel::S8(v),
            Tlv::S16(v) => t@ == TlvModel::S16(v),
            Tlv::S32(v) => t@ == TlvModel::S32(v),
            Tlv::S64(v) => t@ == TlvModel::S64(v),
            Tlv::U8(v) => t@ == TlvModel::U8(v),
            Tlv::U16(v) => t@ == TlvModel::U16(v),
            Tlv::U32(v) => t@ == TlvModel::U32(v),
            Tlv::U64(v) => t@ == TlvModel::U64(v),
            _ => true,
        },
        Tlv::Bool(b)@ == TlvModel::Bool(b),
        Tlv::Single(n)@ == TlvModel::Single(n),
        Tlv::Double(n)@ == TlvModel::Double(n),
        Tlv::Utf8(bytes)@ == TlvModel::Utf8(bytes@),
        Tlv::Octets(bytes)@ == TlvModel::Octets(bytes@),
        Tlv::Null@ == TlvModel::Null,
        Tlv::Struct(ms)@ == TlvModel::Struct(member_models(ms@)),
        Tlv::Array(ms)@ == TlvModel::Array(member_models(ms@)),
        Tlv::List(ms)@ == TlvModel::List(member_models(ms@)),
        Tlv::EndOfContainer@ == TlvModel::EndOfContainer,
        Tlv::Malformed(e)@ == TlvModel::Malformed(SdkErrorModel { code: e.code, text: e.text@ }),
        member_models(ms@).len() == ms@.len(),
        forall|i: int|
            0 <= i < ms@.len() ==> (#[trigger] member_models(ms@)[i]).tag == ms@[i].tag@
                && member_models(ms@)[i].value == ms@[i].value@,
{
}

/// A tag is modelled by its own kind and number.
pub proof fn tags_are_modelled_as_they_are(n: u8, e: SdkError)
    ensures
        Tag::Anonymous@ == TagModel::Anonymous,
        Tag::Context(n)@ == TagModel::Context(n),
        Tag::Other@ == TagModel::Other,
        Tag::Unreadable(e)@ == TagModel::Unreadable(SdkErrorModel { code: e.code, text: e.text@ }),
{
}

/// A report is modelled by its own path and value, and an event by its own fields.
pub proof fn reports_are_modelled_as_they_are(
    path: AttrPath,
    value: Tlv,
    reports: Seq<AttrReport>,
    e: EventData,
)
    ensures
        AttrReport::Unparseable@ == AttrReportModel::Unparseable,
        AttrReport::Status@ == AttrReportModel::Status,
        (AttrReport::Data { path, value })@ == (AttrReportModel::Data { path, value: value@ }),
        attr_report_models(reports).len() == reports.len(),
        forall|i: int|
            0 <= i < reports.len() ==> #[trigger] attr_report_models(reports)[i] == reports[i]@,
        payload_model(Some(value)) == Some(value@),
        payload_model(None) is None,
        e@.path == e.path,
        e@.event_number == e.event_number,
        e@.priority == e.priority,
        e@.timestamp == e.timestamp,
        e.data is None ==> e@.data is None,
        e.data is Some ==> e@.data == Some(e.data->0@),
{
}

/// What the controller is told is modelled by its own fields.
pub proof fn announcements_are_modelled_as_they_are(
    node_id: u64,
    pairs: Vec<(String, Json)>,
    event: NodeEventData,
    state: NodeConnState,
    events: Seq<StackEvent>,
)
    ensures
        (StackEvent::AttributesChanged { node_id, changes: pairs })@
            == (StackEventModel::AttributesChanged { node_id, changes: entry_models(pairs@) }),
        (StackEvent::NodeEvent { node_id, event })@ == (StackEventModel::NodeEvent {
            node_id,
            event: event@,
        }),
        (StackEvent::NodeState { node_id, state })@ == (StackEventModel::NodeState {
            node_id,
            state,
        }),
        (StackEvent::PrimingSnapshot { node_id, attributes: pairs })@
            == (StackEventModel::PrimingSnapshot { node_id, attributes: entry_models(pairs@) }),
        event@.endpoint_id == event.endpoint_id,
        event@.cluster_id == event.cluster_id,
        event@.event_id == event.event_id,
        event@.event_number == event.event_number,
        event@.priority == event.priority,
        event@.timestamp == event.timestamp,
        event@.timestamp_type == event.timestamp_type,
        event@.data == event.data@,
        event_models(events).len() == events.len(),
        forall|i: int| 0 <= i < events.len() ==> #[trigger] event_models(events)[i] == events[i]@,
{
}

/// Errors, devices, fabrics, interfaces and requests are modelled by their own
/// fields.
pub proof fn answers_are_modelled_as_they_are(
    e: SdkError,
    s: StackError,
    f: DeviceFabric,
    d: DiscoveredDevice,
    i: Iface,
    m: CommandMessage,
    fabrics: Seq<DeviceFabric>,
    devices: Seq<DiscoveredDevice>,
    texts: Seq<String>,
)
    ensures
        e@.code == e.code,
        e@.text == e.text@,
        s@.kind == s.kind,
        s@.message == s.message@,
        f@.fabric_id == f.fabric_id,
        f@.vendor_id == f.vendor_id,
        f@.fabric_index == f.fabric_index,
        f@.fabric_label == f.fabric_label@,
        d@.instance_name == d.instance_name@,
        d@.address == d.address@,
        i@.name == i.name@,
        i@.ipv4 == i.ipv4@,
        i@.ipv6 == i.ipv6@,
        i@.index == i.index,
        m@.message_id == m.message_id@,
        m@.command == m.command@,
        m@.args == entry_models(m.args@),
        fabric_models(fabrics).len() == fabrics.len(),
        forall|k: int|
            0 <= k < fabrics.len() ==> #[trigger] fabric_models(fabrics)[k] == fabrics[k]@,
        device_models(devices).len() == devices.len(),
        forall|k: int|
            0 <= k < devices.len() ==> #[trigger] device_models(devices)[k] == devices[k]@,
        text_models(texts).len() == texts.len(),
        forall|k: int| 0 <= k < texts.len() ==> #[trigger] text_models(texts)[k] == texts[k]@,
{
}

/// What a call comes to is modelled by its own success or failure, and what may be
/// missing by whether it is.
pub proof fn outcomes_are_modelled_as_they_are<'a>(
    v: Json,
    t: Tlv,
    e: SdkError,
    s: StackError,
    c: Cluster,
    def: &'a StructDef,
    name: String,
    forced: &'a str,
    hint: TypeHint<'a>,
)
    ensures
        reading(Ok(v)) == Ok::<JsonModel, SdkErrorModel>(v@),
        reading(Err(e)) == Err::<JsonModel, SdkErrorModel>(e@),
        written(Ok(t)) == Ok::<TlvModel, SdkErrorModel>(t@),
        written(Err(e)) == Err::<TlvModel, SdkErrorModel>(e@),
        writing(Some(t@)) == Ok::<TlvModel, SdkErrorModel>(t@),
        writing(None) is Err,
        writing(None)->Err_0.code is InvalidData,
        outcome_model(Ok(v)) == Ok::<JsonModel, StackErrorModel>(v@),
        outcome_model(Err(s)) == Err::<JsonModel, StackErrorModel>(s@),
        named_struct(c, Some(name)) == struct_by_name(c.structs@, name@),
        named_struct(c, None) is None,
        optional(Some(def)) == Some(*def),
        optional(None) is None,
        forced_name(Some(forced)) == Some(forced@),
        forced_name(None) is None,
        hint_model(None) is None,
        hint_model(Some(hint)) is Some,
        hint_model(Some(hint))->0.ty == hint.ty@,
        hint_model(Some(hint))->0.is_list == hint.is_list,
        hint.cluster is None ==> hint_model(Some(hint))->0.cluster is None,
        hint.cluster is Some ==> hint_model(Some(hint))->0.cluster == Some(*hint.cluster->0),
{
}

} // verus!
