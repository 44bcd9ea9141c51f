//! Decoding reports: the answers to reads and subscribes, and what a
//! subscription delivers afterwards.

use crate::ctx::{is_new_event, noted, StackCtx};
use crate::idl::{cluster_by_id, event_by_code, find_cluster, Cluster};
use crate::json::{
    entry_models, find_key, item_models, lemma_key_position, lookup, put, put_entry, Json,
    JsonModel,
};
use crate::stack_api::{
    event_models, NodeEventData, NodeEventModel, StackEvent, StackEventModel,
};
use crate::text::{decimal, decimal_string};
use crate::tlv::{Tlv, TlvModel};
use crate::tlv_json::{
    attr_json, attr_value_to_json, json_of, named_json, tlv_to_json, tlv_to_json_named,
    MATTER_EPOCH_OFFSET_US,
};
use vstd::prelude::*;

verus! {

/// The path of an attribute report. `list_index` is absent for a whole value,
/// null for the empty array that opens a chunked list, and a number for one of
/// its elements.
#[derive(Clone, Copy, Debug, PartialEq, Eq, Structural)]
pub struct AttrPath {
    pub node: Option<u64>,
    pub endpoint: Option<u16>,
    pub cluster: Option<u32>,
    pub attr: Option<u32>,
    pub list_index: Option<Option<u16>>,
}

impl AttrPath {
    pub open spec fn any() -> AttrPath {
        AttrPath { node: None, endpoint: None, cluster: None, attr: None, list_index: None }
    }
}

impl Default for AttrPath {
    /// Every attribute on every cluster on every endpoint.
    fn default() -> (res: AttrPath)
        ensures
            res == AttrPath::any(),
            res.node is None,
            res.endpoint is None,
            res.cluster is None,
            res.attr is None,
            res.list_index is None,
    {
        AttrPath { node: None, endpoint: None, cluster: None, attr: None, list_index: None }
    }
}

/// One entry of a report's attribute list.
#[derive(Debug, PartialEq, Eq)]
pub enum AttrReport {
    /// The entry could not be read.
    Unparseable,
    /// The device answered the path with a status instead of a value.
    Status,
    Data { path: AttrPath, value: Tlv },
}

pub enum AttrReportModel {
    Unparseable,
    Status,
    Data { path: AttrPath, value: TlvModel },
}

impl AttrReport {
    pub open spec fn view(&self) -> AttrReportModel {
        match *self {
            AttrReport::Unparseable => AttrReportModel::Unparseable,
            AttrReport::Status => AttrReportModel::Status,
            AttrReport::Data { path, value } => AttrReportModel::Data { path, value: value@ },
        }
    }
}

pub open spec fn attr_report_models(reports: Seq<AttrReport>) -> Seq<AttrReportModel> {
    reports.map_values(|r: AttrReport| r@)
}

/// `"endpoint/cluster/attribute"` in decimal.
pub open spec fn path_key(endpoint: u16, cluster: u32, attr: u32) -> Seq<char> {
    decimal(endpoint as nat) + seq!['/'] + decimal(cluster as nat) + seq!['/'] + decimal(
        attr as nat,
    )
}

/// The key of a concrete attribute path.
pub fn path_string(endpoint: u16, cluster: u32, attr: u32) -> (res: String)
    ensures
        res@ == path_key(endpoint, cluster, attr),
{
    let mut s = decimal_string(endpoint as u64);
    s.push('/');
    let c = decimal_string(cluster as u64);
    s.append(c.as_str());
    s.push('/');
    let a = decimal_string(attr as u64);
    s.append(a.as_str());
    assert(s@ =~= path_key(endpoint, cluster, attr));
    s
}

/// `Some(i)` for a chunked-list element, `None` for a whole value.
pub open spec fn element_index(path: AttrPath) -> Option<u16> {
    match path.list_index {
        Some(Some(i)) => Some(i),
        _ => None,
    }
}

/// `Some(i)` for a chunked-list element, `None` for a whole value: a missing
/// index and a null one both mean the whole value.
pub fn list_index(path: &AttrPath) -> (res: Option<u16>)
    ensures
        res == element_index(*path),
{
    match path.list_index {
        Some(Some(i)) => Some(i),
        _ => None,
    }
}

/// Collects attribute reports from one or more report chunks into ordered
/// `("endpoint/cluster/attribute", JSON)` pairs, putting chunked lists back
/// together. A report that cannot be converted is counted and skipped.
#[derive(Debug)]
pub struct AttrAccumulator {
    out: Vec<(String, Json)>,
    orphan_appends: Vec<String>,
    saw_list_chunks: bool,
    failures: usize,
}

#[verifier::ext_equal]
pub struct Accumulated {
    /// One pair per path, in the order the paths were first seen.
    pub pairs: Seq<(Seq<char>, JsonModel)>,
    /// Paths with a list element but no list to append it to.
    pub orphans: Seq<Seq<char>>,
    pub saw_list_chunks: bool,
    pub failures: nat,
}

pub open spec fn text_models(texts: Seq<String>) -> Seq<Seq<char>> {
    texts.map_values(|s: String| s@)
}

/// The pairs after one list element arrived for a path: appended to the array
/// recorded there, or the start of a new one.
pub open spec fn append_element(
    pairs: Seq<(Seq<char>, JsonModel)>,
    key: Seq<char>,
    element: JsonModel,
) -> Seq<(Seq<char>, JsonModel)> {
    match lookup(pairs, key) {
        Some(JsonModel::Array(items)) => put_entry(pairs, key, JsonModel::Array(items.push(element))),
        _ => put_entry(pairs, key, JsonModel::Array(seq![element])),
    }
}

pub open spec fn with_failure(acc: Accumulated) -> Accumulated {
    Accumulated { failures: acc.failures + 1, ..acc }
}

/// The accumulator after one report.
pub open spec fn absorb_one(
    acc: Accumulated,
    report: AttrReportModel,
    clusters: Seq<Cluster>,
) -> Accumulated {
    match report {
        AttrReportModel::Unparseable => with_failure(acc),
        AttrReportModel::Status => acc,
        AttrReportModel::Data { path, value } => match (path.endpoint, path.cluster, path.attr) {
            (Some(e), Some(c), Some(a)) => match attr_json(clusters, c as nat, a as nat, value) {
                Err(_) => with_failure(acc),
                Ok(json) => {
                    let key = path_key(e, c, a);
                    match element_index(path) {
                        None => Accumulated { pairs: put_entry(acc.pairs, key, json), ..acc },
                        Some(_) => Accumulated {
                            pairs: append_element(acc.pairs, key, json),
                            orphans: if lookup(acc.pairs, key) is None {
                                acc.orphans.push(key)
                            } else {
                                acc.orphans
                            },
                            saw_list_chunks: true,
                            ..acc
                        },
                    }
                },
            },
            _ => with_failure(acc),
        },
    }
}

/// The accumulator after a run of reports.
pub open spec fn absorbed(
    acc: Accumulated,
    reports: Seq<AttrReportModel>,
    clusters: Seq<Cluster>,
) -> Accumulated
    decreases reports.len(),
{
    if reports.len() == 0 {
        acc
    } else {
        absorb_one(absorbed(acc, reports.drop_last(), clusters), reports.last(), clusters)
    }
}

pub open spec fn nothing_accumulated() -> Accumulated {
    Accumulated {
        pairs: Seq::empty(),
        orphans: Seq::empty(),
        saw_list_chunks: false,
        failures: 0,
    }
}

/// A run of reports adds at most one failure per report.
pub proof fn lemma_failures_bound(
    acc: Accumulated,
    reports: Seq<AttrReportModel>,
    clusters: Seq<Cluster>,
)
    ensures
        acc.failures <= absorbed(acc, reports, clusters).failures <= acc.failures + reports.len(),
    decreases reports.len(),
{
    if reports.len() > 0 {
        lemma_failures_bound(acc, reports.drop_last(), clusters);
    }
}

impl AttrAccumulator {
    pub closed spec fn view(&self) -> Accumulated {
        Accumulated {
            pairs: entry_models(self.out@),
            orphans: text_models(self.orphan_appends@),
            saw_list_chunks: self.saw_list_chunks,
            failures: self.failures as nat,
        }
    }

    pub fn new() -> (res: AttrAccumulator)
        ensures
            res@ == nothing_accumulated(),
    {
        let res = AttrAccumulator {
            out: Vec::new(),
            orphan_appends: Vec::new(),
            saw_list_chunks: false,
            failures: 0,
        };
        assert(res@ =~= nothing_accumulated());
        res
    }

    /// Absorbs the attribute reports of one chunk.
    pub fn absorb(&mut self, reports: &Vec<AttrReport>, clusters: &Vec<Cluster>)
        requires
            old(self)@.failures + reports@.len() <= usize::MAX,
        ensures
            final(self)@ == absorbed(old(self)@, attr_report_models(reports@), clusters@),
    {
        let ghost before = self@;
        let ghost models = attr_report_models(reports@);
        let mut i: usize = 0;
        assert(models.take(0) =~= Seq::empty());
        while i < reports.len()
            invariant
                i <= reports@.len(),
                models == attr_report_models(reports@),
                before.failures + reports@.len() <= usize::MAX,
                self@ == absorbed(before, models.take(i as int), clusters@),
            decreases reports.len() - i,
        {
            proof {
                assert(models.take(i + 1).drop_last() =~= models.take(i as int));
                assert(models.take(i + 1).last() == reports@[i as int]@);
                lemma_failures_bound(before, models.take(i as int), clusters@);
            }
            self.absorb_report(&reports[i], clusters);
            i += 1;
        }
        assert(models.take(models.len() as int) =~= models);
    }

    fn absorb_report(&mut self, report: &AttrReport, clusters: &Vec<Cluster>)
        requires
            old(self)@.failures < usize::MAX,
        ensures
            final(self)@ == absorb_one(old(self)@, report@, clusters@),
    {
        let ghost before = self@;
        match report {
            AttrReport::Unparseable => {
                self.failures = self.failures + 1;
                assert(self@ =~= with_failure(before));
            },
            AttrReport::Status => {},
            AttrReport::Data { path, value } => match (path.endpoint, path.cluster, path.attr) {
                (Some(e), Some(c), Some(a)) => match attr_value_to_json(clusters, c, a, value) {
                    Err(_) => {
                        self.failures = self.failures + 1;
                        assert(self@ =~= with_failure(before));
                    },
                    Ok(json) => {
                        let key = path_string(e, c, a);
                        match list_index(path) {
                            None => self.put(key, json),
                            Some(_) => self.append(key, json),
                        }
                    },
                },
                _ => {
                    self.failures = self.failures + 1;
                    assert(self@ =~= with_failure(before));
                },
            },
        }
    }

    /// A whole attribute value: replaces anything already recorded for the path.
    fn put(&mut self, key: String, json: Json)
        ensures
            final(self)@ == (Accumulated {
                pairs: put_entry(old(self)@.pairs, key@, json@),
                ..old(self)@
            }),
    {
        put(&mut self.out, key, json);
    }

    /// One element of a chunked list.
    fn append(&mut self, key: String, json: Json)
        ensures
            final(self)@ == (Accumulated {
                pairs: append_element(old(self)@.pairs, key@, json@),
                orphans: if lookup(old(self)@.pairs, key@) is None {
                    old(self)@.orphans.push(key@)
                } else {
                    old(self)@.orphans
                },
                saw_list_chunks: true,
                ..old(self)@
            }),
    {
        let ghost before = self@;
        let ghost k = key@;
        let ghost element = json@;
        self.saw_list_chunks = true;
        let at = find_key(&self.out, key.as_str());
        proof {
            lemma_key_position(before.pairs, k);
        }
        if at < self.out.len() {
            let (slot_key, slot) = self.out.remove(at);
            let extended = match slot {
                Json::Array(mut items) => {
                    let ghost old_items = item_models(items@);
                    items.push(json);
                    assert(item_models(items@) =~= old_items.push(element));
                    Json::Array(items)
                },
                _ => {
                    let mut items: Vec<Json> = Vec::new();
                    items.push(json);
                    assert(item_models(items@) =~= seq![element]);
                    Json::Array(items)
                },
            };
            let ghost value = extended@;
            self.out.insert(at, (slot_key, extended));
            assert(entry_models(self.out@) =~= before.pairs.update(at as int, (k, value)));
            assert(text_models(self.orphan_appends@) == before.orphans);
        } else {
            let mut items: Vec<Json> = Vec::new();
            items.push(json);
            assert(item_models(items@) =~= seq![element]);
            self.orphan_appends.push(key.clone());
            assert(text_models(self.orphan_appends@) =~= before.orphans.push(k));
            self.out.push((key, Json::Array(items)));
            assert(entry_models(self.out@) =~= before.pairs.push(
                (k, JsonModel::Array(seq![element])),
            ));
        }
    }

    pub fn into_pairs(self) -> (res: Vec<(String, Json)>)
        ensures
            entry_models(res@) == self@.pairs,
    {
        self.out
    }

    /// Paths whose list elements had no list to go to.
    pub fn orphan_appends(&self) -> (res: &Vec<String>)
        ensures
            text_models(res@) == self@.orphans,
    {
        &self.orphan_appends
    }

    /// Whether any report was part of a chunked list.
    pub fn saw_list_chunks(&self) -> (res: bool)
        ensures
            res == self@.saw_list_chunks,
    {
        self.saw_list_chunks
    }

    /// Reports skipped rather than returned.
    pub fn failures(&self) -> (res: usize)
        ensures
            res == self@.failures,
    {
        self.failures
    }
}

/// When an event happened, as the device tells it. Delta encodings are relative
/// to an event that is not kept.
#[derive(Clone, Copy, Debug, PartialEq, Eq, Structural)]
pub enum EventTimestamp {
    /// Microseconds since the Matter epoch.
    Epoch(u64),
    /// Milliseconds of uptime.
    System(u64),
    DeltaEpoch(u64),
    DeltaSystem(u64),
}

#[derive(Clone, Copy, Debug, PartialEq, Eq, Structural)]
pub struct EventPath {
    pub endpoint: Option<u16>,
    pub cluster: Option<u32>,
    pub event: Option<u32>,
}

/// An event a device reported; `data` is absent when the payload is empty.
#[derive(Debug, PartialEq, Eq)]
pub struct EventData {
    pub path: EventPath,
    pub event_number: u64,
    pub priority: u8,
    pub timestamp: EventTimestamp,
    pub data: Option<Tlv>,
}

pub struct EventDataModel {
    pub path: EventPath,
    pub event_number: u64,
    pub priority: u8,
    pub timestamp: EventTimestamp,
    pub data: Option<TlvModel>,
}

impl EventData {
    pub open spec fn view(&self) -> EventDataModel {
        EventDataModel {
            path: self.path,
            event_number: self.event_number,
            priority: self.priority,
            timestamp: self.timestamp,
            data: payload_model(self.data),
        }
    }
}

pub open spec fn payload_model(data: Option<Tlv>) -> Option<TlvModel> {
    match data {
        Some(t) => Some(t@),
        None => None,
    }
}

/// One entry of a report's event list.
#[derive(Debug, PartialEq, Eq)]
pub enum EventReport {
    Unparseable,
    Status,
    Data(EventData),
}

/// The events of a report, in wire order, as far as they could be read.
pub open spec fn events_of(reports: Seq<EventReport>) -> Seq<EventDataModel>
    decreases reports.len(),
{
    if reports.len() == 0 {
        Seq::empty()
    } else {
        match reports.last() {
            EventReport::Data(data) => events_of(reports.drop_last()).push(data@),
            _ => events_of(reports.drop_last()),
        }
    }
}

/// One report message.
#[derive(Debug, PartialEq, Eq)]
pub struct ReportData {
    pub attr_reports: Vec<AttrReport>,
    pub event_reports: Vec<EventReport>,
    pub more_chunks: bool,
}

/// Every event of a report that could be read, in wire order. A status or an
/// unreadable entry costs no other event.
pub fn walk_events(reports: &Vec<EventReport>) -> (res: Vec<&EventData>)
    ensures
        res@.map_values(|d: &EventData| d@) == events_of(reports@),
{
    let mut out: Vec<&EventData> = Vec::new();
    let mut i: usize = 0;
    assert(reports@.take(0) =~= Seq::empty());
    assert(out@.map_values(|d: &EventData| d@) =~= Seq::empty());
    while i < reports.len()
        invariant
            i <= reports@.len(),
            out@.map_values(|d: &EventData| d@) == events_of(reports@.take(i as int)),
        decreases reports.len() - i,
    {
        assert(reports@.take(i + 1).drop_last() =~= reports@.take(i as int));
        if let EventReport::Data(data) = &reports[i] {
            let ghost before = out@.map_values(|d: &EventData| d@);
            out.push(data);
            assert(out@.map_values(|d: &EventData| d@) =~= before.push(data@));
        }
        i += 1;
    }
    assert(reports@.take(reports@.len() as int) =~= reports@);
    out
}

/// Unix milliseconds, given the milliseconds since 1970, absent for a clock set
/// before that: 0 for such a clock, and for one beyond the range.
pub fn unix_millis(since_epoch: Option<u128>) -> (res: i64)
    ensures
        res == (match since_epoch {
            Some(ms) => if ms <= i64::MAX {
                ms as i64
            } else {
                0
            },
            None => 0,
        }),
{
    match since_epoch {
        Some(ms) => if ms <= 0x7FFF_FFFF_FFFF_FFFF {
            ms as i64
        } else {
            0
        },
        None => 0,
    }
}

/// `(unix milliseconds, type)`: 1 = epoch, 0 = system uptime, 2 = the local clock
/// `now` stands in.
pub open spec fn unix_timestamp(ts: EventTimestamp, now: i64) -> (i64, u8) {
    match ts {
        EventTimestamp::Epoch(us) => (
            (us as int / 1000 + MATTER_EPOCH_OFFSET_US as int / 1000) as i64,
            1,
        ),
        EventTimestamp::System(ms) => (
            if ms <= i64::MAX {
                ms as i64
            } else {
                i64::MAX
            },
            0,
        ),
        EventTimestamp::DeltaEpoch(_) => (now, 2),
        EventTimestamp::DeltaSystem(_) => (now, 2),
    }
}

/// When an event happened, in Unix milliseconds, and how that is known.
pub fn convert_timestamp(ts: &EventTimestamp, now: i64) -> (res: (i64, u8))
    ensures
        res == unix_timestamp(*ts, now),
        ts is Epoch ==> 0 <= res.0,
{
    match *ts {
        EventTimestamp::Epoch(us) => {
            let ms: u64 = us / 1000 + MATTER_EPOCH_OFFSET_US / 1000;
            (ms as i64, 1)
        },
        EventTimestamp::System(ms) => if ms <= 0x7FFF_FFFF_FFFF_FFFF {
            (ms as i64, 0)
        } else {
            (i64::MAX, 0)
        },
        EventTimestamp::DeltaEpoch(_) | EventTimestamp::DeltaSystem(_) => (now, 2),
    }
}

/// What an event payload reads as: named by the tables where they know the
/// event, tag-based otherwise, and null when it is empty or cannot be read.
pub open spec fn event_value(
    clusters: Seq<Cluster>,
    cluster_id: u32,
    event_id: u32,
    payload: Option<TlvModel>,
) -> JsonModel {
    match payload {
        None => JsonModel::Null,
        Some(t) => {
            let converted = match cluster_by_id(clusters, cluster_id as nat) {
                None => json_of(t, 0),
                Some(c) => match event_by_code(c.events@, event_id as nat) {
                    None => json_of(t, 0),
                    Some(e) => named_json(t, e.fields@, c, 0),
                },
            };
            match converted {
                Ok(v) => v,
                Err(_) => JsonModel::Null,
            }
        },
    }
}

/// Reads an event payload.
pub fn event_json(
    clusters: &Vec<Cluster>,
    cluster_id: u32,
    event_id: u32,
    payload: &Option<Tlv>,
) -> (res: Json)
    ensures
        res@ == event_value(clusters@, cluster_id, event_id, payload_model(*payload)),
{
    let elem = match payload {
        None => {
            return Json::Null;
        },
        Some(elem) => elem,
    };
    let converted = match find_cluster(clusters, cluster_id) {
        None => tlv_to_json(elem),
        Some(c) => match c.event(event_id) {
            None => tlv_to_json(elem),
            Some(e) => tlv_to_json_named(elem, &e.fields, c),
        },
    };
    match converted {
        Ok(v) => v,
        Err(_) => Json::Null,
    }
}

pub open spec fn number_or_zero_16(n: Option<u16>) -> u16 {
    match n {
        Some(n) => n,
        None => 0,
    }
}

pub open spec fn number_or_zero_32(n: Option<u32>) -> u32 {
    match n {
        Some(n) => n,
        None => 0,
    }
}

/// An event as the controller sees it.
pub open spec fn node_event_of(
    clusters: Seq<Cluster>,
    data: EventDataModel,
    now: i64,
) -> NodeEventModel {
    let ts = unix_timestamp(data.timestamp, now);
    let cluster_id = number_or_zero_32(data.path.cluster);
    let event_id = number_or_zero_32(data.path.event);
    NodeEventModel {
        endpoint_id: number_or_zero_16(data.path.endpoint),
        cluster_id,
        event_id,
        event_number: data.event_number,
        priority: data.priority,
        timestamp: ts.0,
        timestamp_type: ts.1,
        data: event_value(clusters, cluster_id, event_id, data.data),
    }
}

/// An event as the controller sees it; `now` is the local clock.
pub fn node_event(clusters: &Vec<Cluster>, data: &EventData, now: i64) -> (res: NodeEventData)
    ensures
        res@ == node_event_of(clusters@, data@, now),
        res.endpoint_id == data.path.endpoint.unwrap_or(0),
        res.cluster_id == data.path.cluster.unwrap_or(0),
        res.event_id == data.path.event.unwrap_or(0),
        res.event_number == data.event_number,
        res.priority == data.priority,
{
    let (timestamp, timestamp_type) = convert_timestamp(&data.timestamp, now);
    let cluster_id: u32 = data.path.cluster.unwrap_or(0);
    let event_id: u32 = data.path.event.unwrap_or(0);
    let endpoint_id: u16 = data.path.endpoint.unwrap_or(0);
    NodeEventData {
        endpoint_id,
        cluster_id,
        event_id,
        event_number: data.event_number,
        priority: data.priority,
        timestamp,
        timestamp_type,
        data: event_json(clusters, cluster_id, event_id, &data.data),
    }
}

/// Where a report came from, as the session it arrived on tells.
#[derive(Clone, Copy, Debug, PartialEq, Eq, Structural)]
pub struct ReportSource {
    pub subscription_id: Option<u32>,
    pub fabric_idx: u8,
    pub peer_node_id: u64,
}

/// Why a report is refused. The device drops the subscription it is told is
/// invalid.
#[derive(Clone, Copy, Debug, PartialEq, Eq, Structural)]
pub enum ReportRefusal {
    InvalidSubscription,
}

/// Whether a report belongs to the subscription recorded for its node. The node
/// and the fabric are those of the session it arrived on; the id alone is the
/// device's own choice, and proves nothing.
pub open spec fn is_tracked(fab_idx: u8, subs: Map<u64, u32>, source: ReportSource) -> bool {
    match source.subscription_id {
        None => false,
        Some(id) => source.fabric_idx == fab_idx && subs.contains_key(source.peer_node_id)
            && subs[source.peer_node_id] == id,
    }
}

/// The marks after a run of events of one node.
pub open spec fn marks_after(last: Map<u64, u64>, node_id: u64, events: Seq<EventDataModel>) -> Map<
    u64,
    u64,
>
    decreases events.len(),
{
    if events.len() == 0 {
        last
    } else {
        noted(
            marks_after(last, node_id, events.drop_last()),
            node_id,
            events.last().event_number,
        )
    }
}

/// The events of a run that have not been forwarded yet.
pub open spec fn new_events(
    last: Map<u64, u64>,
    node_id: u64,
    events: Seq<EventDataModel>,
    clusters: Seq<Cluster>,
    now: i64,
) -> Seq<StackEventModel>
    decreases events.len(),
{
    if events.len() == 0 {
        Seq::empty()
    } else {
        let before = new_events(last, node_id, events.drop_last(), clusters, now);
        if is_new_event(
            marks_after(last, node_id, events.drop_last()),
            node_id,
            events.last().event_number,
        ) {
            before.push(
                StackEventModel::NodeEvent {
                    node_id,
                    event: node_event_of(clusters, events.last(), now),
                },
            )
        } else {
            before
        }
    }
}

/// What a report of a tracked subscription is forwarded as: the attribute
/// changes, if any, and then the new events.
pub open spec fn forwarded(
    last: Map<u64, u64>,
    node_id: u64,
    report: ReportData,
    clusters: Seq<Cluster>,
    now: i64,
) -> Seq<StackEventModel> {
    let changes = absorbed(
        nothing_accumulated(),
        attr_report_models(report.attr_reports@),
        clusters,
    ).pairs;
    let attributes = if changes.len() == 0 {
        Seq::empty()
    } else {
        seq![StackEventModel::AttributesChanged { node_id, changes }]
    };
    attributes + new_events(last, node_id, events_of(report.event_reports@), clusters, now)
}

/// Takes in one report of a subscription, at instant `at` of the monotonic clock
/// and Unix millisecond `now`. A report that does not belong to the subscription
/// recorded for its node is refused, and changes nothing.
pub fn handle_report(
    ctx: &mut StackCtx,
    source: ReportSource,
    report: &ReportData,
    clusters: &Vec<Cluster>,
    at: u64,
    now: i64,
) -> (res: Result<Vec<StackEvent>, ReportRefusal>)
    ensures
        final(ctx).fab_idx == old(ctx).fab_idx,
        final(ctx).subs == old(ctx).subs,
        final(ctx).addrs == old(ctx).addrs,
        res is Ok <==> is_tracked(old(ctx).fab_idx, old(ctx).subs@, source),
        res is Err ==> *final(ctx) == *old(ctx),
        res is Ok ==> {
            &&& event_models(res->Ok_0@) == forwarded(
                old(ctx).last_event@,
                source.peer_node_id,
                *report,
                clusters@,
                now,
            )
            &&& final(ctx).liveness@ == old(ctx).liveness@.insert(source.peer_node_id, at)
            &&& final(ctx).last_event@ == marks_after(
                old(ctx).last_event@,
                source.peer_node_id,
                events_of(report.event_reports@),
            )
        },
{
    broadcast use vstd::std_specs::hash::group_hash_axioms;

    let sub_id: u32 = match source.subscription_id {
        None => {
            return Err(ReportRefusal::InvalidSubscription);
        },
        Some(id) => id,
    };
    if source.fabric_idx != ctx.fab_idx {
        return Err(ReportRefusal::InvalidSubscription);
    }
    let node_id = source.peer_node_id;
    let known = match ctx.subs.get(&node_id) {
        Some(id) => *id == sub_id,
        None => false,
    };
    if !known {
        return Err(ReportRefusal::InvalidSubscription);
    }
    ctx.liveness.insert(node_id, at);

    let mut acc = AttrAccumulator::new();
    assert(report.attr_reports@.len() == report.attr_reports.len());
    acc.absorb(&report.attr_reports, clusters);
    let changes = acc.into_pairs();
    let mut out: Vec<StackEvent> = Vec::new();
    let ghost pairs = entry_models(changes@);
    let ghost attributes = if pairs.len() == 0 {
        Seq::empty()
    } else {
        seq![StackEventModel::AttributesChanged { node_id, changes: pairs }]
    };
    if !changes.is_empty() {
        out.push(StackEvent::AttributesChanged { node_id, changes });
    }
    assert(event_models(out@) =~= attributes);

    let events = walk_events(&report.event_reports);
    let ghost models = events_of(report.event_reports@);
    let ghost marks = ctx.last_event@;
    let mut i: usize = 0;
    assert(models.take(0) =~= Seq::empty());
    assert(attributes + Seq::<StackEventModel>::empty() =~= attributes);
    while i < events.len()
        invariant
            i <= events@.len(),
            models == events@.map_values(|d: &EventData| d@),
            ctx.fab_idx == old(ctx).fab_idx,
            ctx.subs == old(ctx).subs,
            ctx.addrs == old(ctx).addrs,
            ctx.liveness@ == old(ctx).liveness@.insert(node_id, at),
            marks == old(ctx).last_event@,
            ctx.last_event@ == marks_after(marks, node_id, models.take(i as int)),
            event_models(out@) == attributes + new_events(
                marks,
                node_id,
                models.take(i as int),
                clusters@,
                now,
            ),
        decreases events.len() - i,
    {
        assert(models.take(i + 1).drop_last() =~= models.take(i as int));
        assert(models.take(i + 1).last() == events@[i as int]@);
        let ghost before = event_models(out@);
        if ctx.note_event(node_id, events[i].event_number) {
            let event = node_event(clusters, events[i], now);
            let ghost e = event@;
            out.push(StackEvent::NodeEvent { node_id, event });
            assert(event_models(out@) =~= before.push(
                StackEventModel::NodeEvent { node_id, event: e },
            ));
            assert(event_models(out@) =~= attributes + new_events(
                marks,
                node_id,
                models.take(i + 1),
                clusters@,
                now,
            ));
        }
        i += 1;
    }
    assert(models.take(models.len() as int) =~= models);
    Ok(out)
}

} // verus!
