//! What report decoding promises as a whole.

use crate::ctx::{is_new_event, noted};
use crate::idl::{cluster_by_id, event_by_code, Cluster};
use crate::json::{lemma_key_position, lookup, put_entry, put_then_lookup, JsonModel};
use crate::reports::{
    absorb_one, absorbed, attr_report_models, element_index, events_of, forwarded, is_tracked,
    marks_after, new_events, node_event_of, nothing_accumulated, path_key, with_failure,
    Accumulated, AttrPath, AttrReportModel, EventData, EventDataModel, EventReport, EventTimestamp,
    ReportData, ReportSource,
};
use crate::stack_api::StackEventModel;
use crate::text::{decimal, decimal_injective, decimal_round_trip, is_digit, parse_unsigned};
use crate::tlv::TlvModel;
use crate::tlv_json::{attr_json, items_of, json_of, named_json};
use vstd::prelude::*;

verus! {

/// A report that is skipped: unreadable, without a concrete path, or with a
/// value that cannot be converted.
pub open spec fn is_bad(report: AttrReportModel, clusters: Seq<Cluster>) -> bool {
    match report {
        AttrReportModel::Unparseable => true,
        AttrReportModel::Status => false,
        AttrReportModel::Data { path, value } => match (path.endpoint, path.cluster, path.attr) {
            (Some(e), Some(c), Some(a)) => attr_json(clusters, c as nat, a as nat, value) is Err,
            _ => true,
        },
    }
}

/// One bad attribute costs no other: the pairs are those without it, and it is
/// counted once.
pub proof fn one_bad_report_loses_no_other(
    acc: Accumulated,
    before: Seq<AttrReportModel>,
    bad: AttrReportModel,
    after: Seq<AttrReportModel>,
    clusters: Seq<Cluster>,
)
    requires
        is_bad(bad, clusters),
    ensures
        absorbed(acc, before.push(bad) + after, clusters) == with_failure(
            absorbed(acc, before + after, clusters),
        ),
    decreases after.len(),
{
    if after.len() == 0 {
        assert(before.push(bad) + after =~= before.push(bad));
        assert(before + after =~= before);
        assert(before.push(bad).drop_last() =~= before);
    } else {
        one_bad_report_loses_no_other(acc, before, bad, after.drop_last(), clusters);
        assert((before.push(bad) + after).drop_last() =~= before.push(bad) + after.drop_last());
        assert((before + after).drop_last() =~= before + after.drop_last());
        assert((before.push(bad) + after).last() == after.last());
        assert((before + after).last() == after.last());
    }
}

/// A path status is neither a value nor a failure.
pub proof fn statuses_are_skipped(acc: Accumulated, clusters: Seq<Cluster>)
    ensures
        absorb_one(acc, AttrReportModel::Status, clusters) == acc,
{
}

/// No two pairs have the same path.
pub open spec fn paths_distinct(pairs: Seq<(Seq<char>, JsonModel)>) -> bool {
    forall|i: int, j: int|
        0 <= i < j < pairs.len() ==> (#[trigger] pairs[i]).0 != (#[trigger] pairs[j]).0
}

/// Recording a pair keeps every path in its place, and paths distinct.
pub proof fn lemma_put_keeps(pairs: Seq<(Seq<char>, JsonModel)>, key: Seq<char>, v: JsonModel)
    ensures
        pairs.len() <= put_entry(pairs, key, v).len(),
        forall|i: int|
            0 <= i < pairs.len() ==> (#[trigger] put_entry(pairs, key, v)[i]).0 == pairs[i].0,
        paths_distinct(pairs) ==> paths_distinct(put_entry(pairs, key, v)),
{
    lemma_key_position(pairs, key);
    let after = put_entry(pairs, key, v);
    if paths_distinct(pairs) {
        assert forall|i: int, j: int| 0 <= i < j < after.len() implies (#[trigger] after[i]).0 != (
        #[trigger] after[j]).0 by {
            assert(i < pairs.len());
            assert(after[i].0 == pairs[i].0);
            if j < pairs.len() {
                assert(after[j].0 == pairs[j].0);
            }
        }
    }
}

/// A path keeps its place in wire order, whatever is reported after it, and
/// every path has one pair.
pub proof fn wire_order_is_preserved(
    acc: Accumulated,
    reports: Seq<AttrReportModel>,
    clusters: Seq<Cluster>,
)
    ensures
        acc.pairs.len() <= absorbed(acc, reports, clusters).pairs.len(),
        forall|i: int|
            0 <= i < acc.pairs.len() ==> (#[trigger] absorbed(acc, reports, clusters).pairs[i]).0
                == acc.pairs[i].0,
        paths_distinct(acc.pairs) ==> paths_distinct(absorbed(acc, reports, clusters).pairs),
    decreases reports.len(),
{
    if reports.len() > 0 {
        wire_order_is_preserved(acc, reports.drop_last(), clusters);
        let before = absorbed(acc, reports.drop_last(), clusters);
        if let AttrReportModel::Data { path, value } = reports.last() {
            if let (Some(e), Some(c), Some(a)) = (path.endpoint, path.cluster, path.attr) {
                if let Ok(json) = attr_json(clusters, c as nat, a as nat, value) {
                    let key = path_key(e, c, a);
                    match element_index(path) {
                        None => lemma_put_keeps(before.pairs, key, json),
                        Some(_) => match lookup(before.pairs, key) {
                            Some(JsonModel::Array(items)) => lemma_put_keeps(
                                before.pairs,
                                key,
                                JsonModel::Array(items.push(json)),
                            ),
                            _ => lemma_put_keeps(
                                before.pairs,
                                key,
                                JsonModel::Array(seq![json]),
                            ),
                        },
                    }
                }
            }
        }
    }
}

/// Absorbing two runs of reports in turn is absorbing one run that holds both.
pub proof fn runs_are_absorbed_in_turn(
    acc: Accumulated,
    a: Seq<AttrReportModel>,
    b: Seq<AttrReportModel>,
    clusters: Seq<Cluster>,
)
    ensures
        absorbed(absorbed(acc, a, clusters), b, clusters) == absorbed(acc, a + b, clusters),
    decreases b.len(),
{
    if b.len() == 0 {
        assert(a + b =~= a);
    } else {
        runs_are_absorbed_in_turn(acc, a, b.drop_last(), clusters);
        assert((a + b).drop_last() =~= a + b.drop_last());
        assert((a + b).last() == b.last());
    }
}

/// The accumulator after a run of chunks, each absorbed on its own.
pub open spec fn absorbed_in_turn(
    acc: Accumulated,
    chunks: Seq<Seq<AttrReportModel>>,
    clusters: Seq<Cluster>,
) -> Accumulated
    decreases chunks.len(),
{
    if chunks.len() == 0 {
        acc
    } else {
        absorbed(absorbed_in_turn(acc, chunks.drop_last(), clusters), chunks.last(), clusters)
    }
}

/// How reports are split into chunks does not show: absorbing chunks in turn is
/// absorbing one that holds all their reports, and from nothing every path has one
/// pair.
pub proof fn chunking_does_not_show(
    acc: Accumulated,
    chunks: Seq<Seq<AttrReportModel>>,
    clusters: Seq<Cluster>,
)
    ensures
        absorbed_in_turn(acc, chunks, clusters) == absorbed(acc, chunks.flatten(), clusters),
        acc == nothing_accumulated() ==> paths_distinct(
            absorbed_in_turn(acc, chunks, clusters).pairs,
        ),
{
    chunks.lemma_flatten_and_flatten_alt_are_equivalent();
    lemma_in_turn(acc, chunks, clusters);
    wire_order_is_preserved(acc, chunks.flatten(), clusters);
}

proof fn lemma_in_turn(
    acc: Accumulated,
    chunks: Seq<Seq<AttrReportModel>>,
    clusters: Seq<Cluster>,
)
    ensures
        absorbed_in_turn(acc, chunks, clusters) == absorbed(acc, chunks.flatten_alt(), clusters),
    decreases chunks.len(),
{
    if chunks.len() > 0 {
        lemma_in_turn(acc, chunks.drop_last(), clusters);
        runs_are_absorbed_in_turn(
            acc,
            chunks.drop_last().flatten_alt(),
            chunks.last(),
            clusters,
        );
    }
}

/// The reports a list is sent as when it does not fit in one: an empty array
/// with a null index, and then one report per element.
pub open spec fn list_chunks(e: u16, c: u32, a: u32, values: Seq<TlvModel>) -> Seq<AttrReportModel>
    decreases values.len(),
{
    if values.len() == 0 {
        seq![
            AttrReportModel::Data {
                path: AttrPath {
                    node: None,
                    endpoint: Some(e),
                    cluster: Some(c),
                    attr: Some(a),
                    list_index: Some(None),
                },
                value: TlvModel::Array(Seq::empty()),
            },
        ]
    } else {
        list_chunks(e, c, a, values.drop_last()).push(
            AttrReportModel::Data {
                path: AttrPath {
                    node: None,
                    endpoint: Some(e),
                    cluster: Some(c),
                    attr: Some(a),
                    list_index: Some(Some((values.len() - 1) as u16)),
                },
                value: values.last(),
            },
        )
    }
}

/// The elements as JSON.
pub open spec fn list_items(clusters: Seq<Cluster>, c: u32, a: u32, values: Seq<TlvModel>) -> Seq<
    JsonModel,
> {
    values.map_values(|v: TlvModel| attr_json(clusters, c as nat, a as nat, v)->Ok_0)
}

/// A chunked list is put back together: what is recorded for its path is the
/// array of all its elements, in order, and nothing is flagged.
pub proof fn chunked_list_is_reassembled(
    acc: Accumulated,
    e: u16,
    c: u32,
    a: u32,
    values: Seq<TlvModel>,
    clusters: Seq<Cluster>,
)
    requires
        forall|i: int|
            0 <= i < values.len() ==> attr_json(
                clusters,
                c as nat,
                a as nat,
                #[trigger] values[i],
            ) is Ok,
    ensures
        lookup(
            absorbed(acc, list_chunks(e, c, a, values), clusters).pairs,
            path_key(e, c, a),
        ) == Some(JsonModel::Array(list_items(clusters, c, a, values))),
        absorbed(acc, list_chunks(e, c, a, values), clusters).orphans == acc.orphans,
        absorbed(acc, list_chunks(e, c, a, values), clusters).failures == acc.failures,
    decreases values.len(),
{
    let key = path_key(e, c, a);
    let chunks = list_chunks(e, c, a, values);
    if values.len() == 0 {
        assert(chunks.drop_last() =~= Seq::empty());
        let opened = chunks.last();
        assert(absorbed(acc, chunks.drop_last(), clusters) == acc);
        assert(items_of(Seq::empty(), 1) == Ok::<
            Seq<JsonModel>,
            crate::error::SdkErrorModel,
        >(Seq::empty()));
        assert(json_of(TlvModel::Array(Seq::empty()), 0) == Ok::<
            JsonModel,
            crate::error::SdkErrorModel,
        >(JsonModel::Array(Seq::empty())));
        put_then_lookup(acc.pairs, key, JsonModel::Array(Seq::empty()), key);
        assert(list_items(clusters, c, a, values) =~= Seq::empty());
    } else {
        let shorter = values.drop_last();
        assert forall|i: int| 0 <= i < shorter.len() implies attr_json(
            clusters,
            c as nat,
            a as nat,
            #[trigger] shorter[i],
        ) is Ok by {
            assert(shorter[i] == values[i]);
        }
        chunked_list_is_reassembled(acc, e, c, a, shorter, clusters);
        assert(chunks.drop_last() =~= list_chunks(e, c, a, shorter));
        let before = absorbed(acc, list_chunks(e, c, a, shorter), clusters);
        assert(values.last() == values[values.len() - 1]);
        let json = attr_json(clusters, c as nat, a as nat, values.last())->Ok_0;
        let items = list_items(clusters, c, a, shorter);
        put_then_lookup(before.pairs, key, JsonModel::Array(items.push(json)), key);
        assert(list_items(clusters, c, a, values) =~= items.push(json));
    }
}

/// Where the first separator stands.
proof fn lemma_first_slash(n: nat, m: nat, x: Seq<char>, y: Seq<char>)
    requires
        decimal(n) + seq!['/'] + x == decimal(m) + seq!['/'] + y,
    ensures
        n == m,
        x == y,
{
    decimal_round_trip(n, n);
    decimal_round_trip(m, m);
    let s = decimal(n) + seq!['/'] + x;
    let t = decimal(m) + seq!['/'] + y;
    let i = decimal(n).len() as int;
    let j = decimal(m).len() as int;
    assert(s[i] == '/');
    assert(t[j] == '/');
    if i < j {
        assert(t[i] == decimal(m)[i]);
        assert(is_digit(decimal(m)[i]));
    } else if j < i {
        assert(s[j] == decimal(n)[j]);
        assert(is_digit(decimal(n)[j]));
    }
    assert(decimal(n) =~= s.take(i));
    assert(decimal(m) =~= t.take(i));
    decimal_injective(n, m);
    assert(x =~= s.skip(i + 1));
    assert(y =~= t.skip(i + 1));
}

/// Two attribute paths with the same key are the same path.
pub proof fn path_keys_do_not_collide(e1: u16, c1: u32, a1: u32, e2: u16, c2: u32, a2: u32)
    requires
        path_key(e1, c1, a1) == path_key(e2, c2, a2),
    ensures
        e1 == e2,
        c1 == c2,
        a1 == a2,
{
    let x1 = decimal(c1 as nat) + seq!['/'] + decimal(a1 as nat);
    let x2 = decimal(c2 as nat) + seq!['/'] + decimal(a2 as nat);
    assert(path_key(e1, c1, a1) =~= decimal(e1 as nat) + seq!['/'] + x1);
    assert(path_key(e2, c2, a2) =~= decimal(e2 as nat) + seq!['/'] + x2);
    lemma_first_slash(e1 as nat, e2 as nat, x1, x2);
    lemma_first_slash(c1 as nat, c2 as nat, decimal(a1 as nat), decimal(a2 as nat));
    decimal_injective(a1 as nat, a2 as nat);
}

/// The event numbers forwarded for a node rise strictly, and all lie above what
/// had been forwarded before: nothing is forwarded twice.
pub proof fn forwarded_events_ascend(
    last: Map<u64, u64>,
    node_id: u64,
    events: Seq<EventDataModel>,
    clusters: Seq<Cluster>,
    now: i64,
)
    ensures
        forall|i: int|
            0 <= i < new_events(last, node_id, events, clusters, now).len() ==> {
                let n = (#[trigger] new_events(
                    last,
                    node_id,
                    events,
                    clusters,
                    now,
                )[i])->event.event_number;
                &&& last.contains_key(node_id) ==> n > last[node_id]
                &&& marks_after(last, node_id, events).contains_key(node_id)
                &&& n <= marks_after(last, node_id, events)[node_id]
            },
        forall|i: int, j: int|
            0 <= i < j < new_events(last, node_id, events, clusters, now).len() ==> (
            #[trigger] new_events(last, node_id, events, clusters, now)[i])->event.event_number < (
            #[trigger] new_events(last, node_id, events, clusters, now)[j])->event.event_number,
        last.contains_key(node_id) ==> marks_after(last, node_id, events).contains_key(node_id)
            && marks_after(last, node_id, events)[node_id] >= last[node_id],
    decreases events.len(),
{
    if events.len() > 0 {
        forwarded_events_ascend(last, node_id, events.drop_last(), clusters, now);
        let before = new_events(last, node_id, events.drop_last(), clusters, now);
        let after = new_events(last, node_id, events, clusters, now);
        assert forall|i: int, j: int| 0 <= i < j < after.len() implies (
        #[trigger] after[i])->event.event_number < (#[trigger] after[j])->event.event_number by {
            assert(after[i] == before[i]);
            if j < before.len() {
                assert(after[j] == before[j]);
            }
        }
        assert forall|i: int| 0 <= i < after.len() implies {
            let n = (#[trigger] after[i])->event.event_number;
            &&& last.contains_key(node_id) ==> n > last[node_id]
            &&& marks_after(last, node_id, events).contains_key(node_id)
            &&& n <= marks_after(last, node_id, events)[node_id]
        } by {
            if i < before.len() {
                assert(after[i] == before[i]);
            }
        }
    }
}

/// The events of one node leave every other node's mark alone.
pub proof fn marks_after_are_per_node(
    last: Map<u64, u64>,
    node_id: u64,
    events: Seq<EventDataModel>,
    other: u64,
)
    requires
        other != node_id,
    ensures
        marks_after(last, node_id, events).contains_key(other) == last.contains_key(other),
        last.contains_key(other) ==> marks_after(last, node_id, events)[other] == last[other],
    decreases events.len(),
{
    if events.len() > 0 {
        marks_after_are_per_node(last, node_id, events.drop_last(), other);
    }
}

/// The key of an attribute is its endpoint, its cluster and its own number, in this
/// order, in decimal and with slashes between them.
pub proof fn path_keys_are_read_as_paths(endpoint: u16, cluster: u32, attr: u32)
    ensures
        ({
            let key = path_key(endpoint, cluster, attr);
            exists|p: int, q: int|
                0 <= p < q < key.len() && #[trigger] key[p] == '/' && #[trigger] key[q] == '/'
                    && parse_unsigned(key.take(p), 0xFFFF) == Some(endpoint as nat)
                    && parse_unsigned(key.subrange(p + 1, q), 0xFFFF_FFFF) == Some(cluster as nat)
                    && parse_unsigned(key.skip(q + 1), 0xFFFF_FFFF) == Some(attr as nat)
        }),
{
    let (e, c, a) = (decimal(endpoint as nat), decimal(cluster as nat), decimal(attr as nat));
    let key = path_key(endpoint, cluster, attr);
    let p = e.len() as int;
    let q = p + 1 + c.len();
    decimal_round_trip(endpoint as nat, 0xFFFF);
    decimal_round_trip(cluster as nat, 0xFFFF_FFFF);
    decimal_round_trip(attr as nat, 0xFFFF_FFFF);
    assert(key.take(p) =~= e);
    assert(key.subrange(p + 1, q) =~= c);
    assert(key.skip(q + 1) =~= a);
    assert(key[p] == '/' && key[q] == '/');
}

/// A whole value that reads is recorded under the key of its path, as what it reads
/// as, in place of whatever was there; no other path is touched, and nothing is
/// counted or flagged.
pub proof fn whole_values_are_recorded(
    acc: Accumulated,
    path: AttrPath,
    value: TlvModel,
    clusters: Seq<Cluster>,
    other: Seq<char>,
)
    requires
        path.endpoint is Some,
        path.cluster is Some,
        path.attr is Some,
        path.list_index is None || path.list_index->0 is None,
        attr_json(clusters, path.cluster->0 as nat, path.attr->0 as nat, value) is Ok,
    ensures
        ({
            let after = absorb_one(acc, AttrReportModel::Data { path, value }, clusters);
            let key = path_key(path.endpoint->0, path.cluster->0, path.attr->0);
            &&& lookup(after.pairs, key) == Some(
                attr_json(clusters, path.cluster->0 as nat, path.attr->0 as nat, value)->Ok_0,
            )
            &&& other != key ==> lookup(after.pairs, other) == lookup(acc.pairs, other)
            &&& after.failures == acc.failures
            &&& after.orphans == acc.orphans
            &&& after.saw_list_chunks == acc.saw_list_chunks
        }),
{
    put_then_lookup(
        acc.pairs,
        path_key(path.endpoint->0, path.cluster->0, path.attr->0),
        attr_json(clusters, path.cluster->0 as nat, path.attr->0 as nat, value)->Ok_0,
        other,
    );
}

/// An element of a chunked list goes to the end of the array recorded for its path,
/// or starts a new one where there is none; it is flagged exactly where nothing was
/// recorded at all. No other path is touched, and nothing is counted.
pub proof fn list_elements_are_appended(
    acc: Accumulated,
    path: AttrPath,
    value: TlvModel,
    clusters: Seq<Cluster>,
    other: Seq<char>,
)
    requires
        path.endpoint is Some,
        path.cluster is Some,
        path.attr is Some,
        path.list_index is Some,
        path.list_index->0 is Some,
        attr_json(clusters, path.cluster->0 as nat, path.attr->0 as nat, value) is Ok,
    ensures
        ({
            let after = absorb_one(acc, AttrReportModel::Data { path, value }, clusters);
            let key = path_key(path.endpoint->0, path.cluster->0, path.attr->0);
            let read = attr_json(
                clusters,
                path.cluster->0 as nat,
                path.attr->0 as nat,
                value,
            )->Ok_0;
            &&& lookup(after.pairs, key) is Some
            &&& lookup(after.pairs, key)->0 is Array
            &&& lookup(after.pairs, key)->0->Array_0.last() == read
            &&& lookup(after.pairs, key)->0->Array_0.drop_last() == match lookup(acc.pairs, key) {
                Some(JsonModel::Array(items)) => items,
                _ => Seq::empty(),
            }
            &&& other != key ==> lookup(after.pairs, other) == lookup(acc.pairs, other)
            &&& lookup(acc.pairs, key) is None ==> after.orphans == acc.orphans.push(key)
            &&& lookup(acc.pairs, key) is Some ==> after.orphans == acc.orphans
            &&& after.failures == acc.failures
            &&& after.saw_list_chunks
        }),
{
    let key = path_key(path.endpoint->0, path.cluster->0, path.attr->0);
    let read = attr_json(clusters, path.cluster->0 as nat, path.attr->0 as nat, value)->Ok_0;
    let items = match lookup(acc.pairs, key) {
        Some(JsonModel::Array(items)) => items,
        _ => Seq::empty(),
    };
    assert(seq![read] =~= Seq::<JsonModel>::empty().push(read));
    put_then_lookup(acc.pairs, key, JsonModel::Array(items.push(read)), other);
    assert(items.push(read).drop_last() =~= items);
}

/// A report without a concrete path, or whose value does not read, and one that
/// cannot be read at all, is counted and changes nothing else.
pub proof fn bad_reports_are_only_counted(
    acc: Accumulated,
    path: AttrPath,
    value: TlvModel,
    clusters: Seq<Cluster>,
)
    requires
        path.endpoint is None || path.cluster is None || path.attr is None || attr_json(
            clusters,
            path.cluster->0 as nat,
            path.attr->0 as nat,
            value,
        ) is Err,
    ensures
        ({
            let after = absorb_one(acc, AttrReportModel::Data { path, value }, clusters);
            &&& after.failures == acc.failures + 1
            &&& after.pairs == acc.pairs
            &&& after.orphans == acc.orphans
            &&& after.saw_list_chunks == acc.saw_list_chunks
            &&& absorb_one(acc, AttrReportModel::Unparseable, clusters) == after
        }),
{
}

/// An event is told with the endpoint, the cluster and the event its path names, 0
/// for one it does not name, and with its own number and priority. Its payload is
/// what the fields of that event read, or what the element reads as for an event
/// the tables do not know, and null where there is none or it does not read.
pub proof fn events_name_where_they_come_from(
    clusters: Seq<Cluster>,
    data: EventDataModel,
    now: i64,
)
    ensures
        ({
            let e = node_event_of(clusters, data, now);
            &&& data.path.endpoint is Some ==> e.endpoint_id == data.path.endpoint->0
            &&& data.path.endpoint is None ==> e.endpoint_id == 0
            &&& data.path.cluster is Some ==> e.cluster_id == data.path.cluster->0
            &&& data.path.cluster is None ==> e.cluster_id == 0
            &&& data.path.event is Some ==> e.event_id == data.path.event->0
            &&& data.path.event is None ==> e.event_id == 0
            &&& e.event_number == data.event_number
            &&& e.priority == data.priority
            &&& data.data is None ==> e.data is Null
            &&& data.data is Some ==> {
                let known = cluster_by_id(clusters, e.cluster_id as nat) is Some && event_by_code(
                    cluster_by_id(clusters, e.cluster_id as nat)->0.events@,
                    e.event_id as nat,
                ) is Some;
                let read = if known {
                    named_json(
                        data.data->0,
                        event_by_code(
                            cluster_by_id(clusters, e.cluster_id as nat)->0.events@,
                            e.event_id as nat,
                        )->0.fields@,
                        cluster_by_id(clusters, e.cluster_id as nat)->0,
                        0,
                    )
                } else {
                    json_of(data.data->0, 0)
                };
                &&& read is Ok ==> e.data == read->Ok_0
                &&& read is Err ==> e.data is Null
            }
        }),
{
}

/// The time of an event in Unix milliseconds: its own where it tells one, from
/// microseconds since 2000-01-01 or milliseconds of uptime, and the local clock
/// where it only tells a difference; and which of the three it is.
pub proof fn events_tell_their_time(clusters: Seq<Cluster>, data: EventDataModel, now: i64)
    ensures
        ({
            let e = node_event_of(clusters, data, now);
            match data.timestamp {
                EventTimestamp::Epoch(us) => e.timestamp_type == 1 && 1000 * (e.timestamp
                    - 946_684_800_000) <= us < 1000 * (e.timestamp - 946_684_800_000) + 1000,
                EventTimestamp::System(ms) => e.timestamp_type == 0 && (e.timestamp == ms || (ms
                    > i64::MAX && e.timestamp == i64::MAX)),
                EventTimestamp::DeltaEpoch(_) => e.timestamp_type == 2 && e.timestamp == now,
                EventTimestamp::DeltaSystem(_) => e.timestamp_type == 2 && e.timestamp == now,
            }
        }),
{
}

/// An event is news exactly where the node has none noted yet, or only ones with
/// smaller numbers, and what is noted then is its own number.
pub proof fn news_is_above_the_mark(last: Map<u64, u64>, node_id: u64, n: u64)
    ensures
        is_new_event(last, node_id, n) <==> (last.contains_key(node_id) ==> last[node_id] < n),
        is_new_event(last, node_id, n) ==> noted(last, node_id, n).contains_key(node_id) && noted(
            last,
            node_id,
            n,
        )[node_id] == n,
        !is_new_event(last, node_id, n) ==> noted(last, node_id, n) == last,
{
}

/// A run of events, each with a larger number than the mark and the one before it,
/// is forwarded whole: one event for each, in order, of that node, as it is told.
pub proof fn every_new_event_is_forwarded(
    last: Map<u64, u64>,
    node_id: u64,
    events: Seq<EventDataModel>,
    clusters: Seq<Cluster>,
    now: i64,
)
    requires
        forall|i: int|
            0 <= i < events.len() ==> (last.contains_key(node_id) ==> last[node_id] < (
            #[trigger] events[i]).event_number),
        forall|i: int, j: int|
            0 <= i < j < events.len() ==> (#[trigger] events[i]).event_number < (
            #[trigger] events[j]).event_number,
    ensures
        new_events(last, node_id, events, clusters, now).len() == events.len(),
        forall|i: int|
            0 <= i < events.len() ==> #[trigger] new_events(last, node_id, events, clusters, now)[i]
                == (StackEventModel::NodeEvent {
                node_id,
                event: node_event_of(clusters, events[i], now),
            }),
        events.len() > 0 ==> marks_after(last, node_id, events).contains_key(node_id)
            && marks_after(last, node_id, events)[node_id] == events.last().event_number,
    decreases events.len(),
{
    if events.len() > 0 {
        let rest = events.drop_last();
        assert forall|i: int| 0 <= i < rest.len() implies rest[i] == events[i] by {}
        assert forall|i: int| 0 <= i < rest.len() implies (last.contains_key(node_id)
            ==> last[node_id] < (#[trigger] rest[i]).event_number) by {
            assert(last.contains_key(node_id) ==> last[node_id] < events[i].event_number);
        }
        assert forall|i: int, j: int| 0 <= i < j < rest.len() implies (
        #[trigger] rest[i]).event_number < (#[trigger] rest[j]).event_number by {
            assert(events[i].event_number < events[j].event_number);
        }
        every_new_event_is_forwarded(last, node_id, rest, clusters, now);
        let n = events.len() - 1;
        let marks = marks_after(last, node_id, rest);
        let before = new_events(last, node_id, rest, clusters, now);
        let told = StackEventModel::NodeEvent {
            node_id,
            event: node_event_of(clusters, events[n], now),
        };
        assert(is_new_event(marks, node_id, events[n].event_number)) by {
            if rest.len() > 0 {
                assert(rest.last() == events[n - 1]);
                assert(events[n - 1].event_number < events[n].event_number);
            } else {
                assert(marks == last);
                assert(last.contains_key(node_id) ==> last[node_id] < events[n].event_number);
            }
        }
        assert(events.last() == events[n]);
        assert(new_events(last, node_id, events, clusters, now) == before.push(told));
        assert(marks_after(last, node_id, events) == marks.insert(
            node_id,
            events[n].event_number,
        ));
        assert forall|i: int| 0 <= i < events.len() implies #[trigger] before.push(told)[i] == (
        StackEventModel::NodeEvent {
            node_id,
            event: node_event_of(clusters, events[i], now),
        }) by {
            if i < n {
                assert(before.push(told)[i] == before[i]);
                assert(rest[i] == events[i]);
            }
        }
    }
}

/// A replayed event, with a number no larger than the mark, is not forwarded, and
/// leaves the mark alone.
pub proof fn replayed_events_are_dropped(
    last: Map<u64, u64>,
    node_id: u64,
    events: Seq<EventDataModel>,
    clusters: Seq<Cluster>,
    now: i64,
)
    requires
        last.contains_key(node_id),
        forall|i: int|
            0 <= i < events.len() ==> (#[trigger] events[i]).event_number <= last[node_id],
    ensures
        new_events(last, node_id, events, clusters, now).len() == 0,
        marks_after(last, node_id, events) == last,
    decreases events.len(),
{
    if events.len() > 0 {
        let rest = events.drop_last();
        assert forall|i: int| 0 <= i < rest.len() implies (#[trigger] rest[i]).event_number
            <= last[node_id] by {
            assert(rest[i] == events[i]);
        }
        replayed_events_are_dropped(last, node_id, rest, clusters, now);
        assert(events[events.len() - 1].event_number <= last[node_id]);
    }
}

/// What a report of a live subscription is forwarded as: the attribute changes of
/// that node as one event, where there are any, and then its new events; and
/// nothing else.
pub proof fn changes_come_before_events(
    last: Map<u64, u64>,
    node_id: u64,
    report: ReportData,
    clusters: Seq<Cluster>,
    now: i64,
)
    ensures
        ({
            let told = forwarded(last, node_id, report, clusters, now);
            let changes = absorbed(
                nothing_accumulated(),
                attr_report_models(report.attr_reports@),
                clusters,
            ).pairs;
            let news = new_events(
                last,
                node_id,
                events_of(report.event_reports@),
                clusters,
                now,
            );
            &&& changes.len() == 0 ==> told == news
            &&& changes.len() > 0 ==> told.len() == news.len() + 1 && told[0]
                == (StackEventModel::AttributesChanged { node_id, changes }) && told.skip(1) == news
        }),
{
    let told = forwarded(last, node_id, report, clusters, now);
    let news = new_events(last, node_id, events_of(report.event_reports@), clusters, now);
    let changes = absorbed(
        nothing_accumulated(),
        attr_report_models(report.attr_reports@),
        clusters,
    ).pairs;
    if changes.len() == 0 {
        assert(Seq::<StackEventModel>::empty() + news =~= news);
    } else {
        assert(told.skip(1) =~= news);
    }
}

/// The events of a report are those of its entries that could be read, in order.
pub proof fn readable_events_are_walked(a: Seq<EventReport>, b: Seq<EventReport>, data: EventData)
    ensures
        events_of(Seq::empty()) == Seq::<EventDataModel>::empty(),
        events_of(seq![EventReport::Data(data)]) == seq![data@],
        events_of(seq![EventReport::Unparseable]) == Seq::<EventDataModel>::empty(),
        events_of(seq![EventReport::Status]) == Seq::<EventDataModel>::empty(),
        events_of(a + b) == events_of(a) + events_of(b),
    decreases b.len(),
{
    assert(events_of(Seq::empty()) =~= Seq::<EventDataModel>::empty());
    assert(seq![EventReport::Data(data)].drop_last() =~= Seq::empty());
    assert(seq![EventReport::Unparseable].drop_last() =~= Seq::empty());
    assert(seq![EventReport::Status].drop_last() =~= Seq::empty());
    assert(events_of(seq![EventReport::Data(data)]) =~= seq![data@]);
    if b.len() == 0 {
        assert(a + b =~= a);
        assert(events_of(a) + events_of(b) =~= events_of(a));
    } else {
        readable_events_are_walked(a, b.drop_last(), data);
        assert((a + b).drop_last() =~= a + b.drop_last());
        assert((a + b).last() == b.last());
        assert(events_of(a + b) =~= events_of(a) + events_of(b));
    }
}

/// A report is accepted exactly where it names a subscription, and that is the one
/// recorded for the node it comes from, over our own fabric.
pub proof fn only_our_subscription_is_heard(
    fab_idx: u8,
    subs: Map<u64, u32>,
    source: ReportSource,
)
    ensures
        is_tracked(fab_idx, subs, source) <==> source.subscription_id is Some
            && source.fabric_idx == fab_idx && subs.contains_pair(
            source.peer_node_id,
            source.subscription_id->0,
        ),
{
}

/// Events are taken in one after another: a run after a run is as both at once, and a
/// single event is forwarded exactly where it is above the mark, which then is its
/// number.
pub proof fn events_are_taken_in_turn(
    last: Map<u64, u64>,
    node_id: u64,
    a: Seq<EventDataModel>,
    b: Seq<EventDataModel>,
    data: EventDataModel,
    clusters: Seq<Cluster>,
    now: i64,
)
    ensures
        marks_after(last, node_id, a + b) == marks_after(
            marks_after(last, node_id, a),
            node_id,
            b,
        ),
        new_events(last, node_id, a + b, clusters, now) == new_events(
            last,
            node_id,
            a,
            clusters,
            now,
        ) + new_events(marks_after(last, node_id, a), node_id, b, clusters, now),
        ({
            let told = new_events(last, node_id, seq![data], clusters, now);
            let marks = marks_after(last, node_id, seq![data]);
            if last.contains_key(node_id) && data.event_number <= last[node_id] {
                told.len() == 0 && marks == last
            } else {
                &&& told.len() == 1
                &&& told[0] is NodeEvent
                &&& told[0]->NodeEvent_node_id == node_id
                &&& told[0]->event == node_event_of(clusters, data, now)
                &&& marks == last.insert(node_id, data.event_number)
            }
        }),
    decreases b.len(),
{
    let one = seq![data];
    assert(one.drop_last() =~= Seq::empty());
    assert(marks_after(last, node_id, Seq::empty()) == last);
    assert(new_events(last, node_id, Seq::empty(), clusters, now).len() == 0);
    if b.len() == 0 {
        assert(a + b =~= a);
        assert(new_events(last, node_id, a, clusters, now) + new_events(
            marks_after(last, node_id, a),
            node_id,
            b,
            clusters,
            now,
        ) =~= new_events(last, node_id, a, clusters, now));
    } else {
        events_are_taken_in_turn(last, node_id, a, b.drop_last(), data, clusters, now);
        assert((a + b).drop_last() =~= a + b.drop_last());
        assert((a + b).last() == b.last());
        assert(new_events(last, node_id, a + b, clusters, now) =~= new_events(
            last,
            node_id,
            a,
            clusters,
            now,
        ) + new_events(marks_after(last, node_id, a), node_id, b, clusters, now));
    }
}

/// Whether a forwarded event is this one, of this node: it has its number and its
/// priority, and names the endpoint, the cluster and the event of its path.
pub open spec fn is_told(told: StackEventModel, node: u64, data: EventDataModel) -> bool {
    match told {
        StackEventModel::NodeEvent { node_id, event } => {
            &&& node_id == node
            &&& event.event_number == data.event_number
            &&& event.priority == data.priority
            &&& data.path.endpoint is Some ==> event.endpoint_id == data.path.endpoint->0
            &&& data.path.cluster is Some ==> event.cluster_id == data.path.cluster->0
            &&& data.path.event is Some ==> event.event_id == data.path.event->0
        },
        _ => false,
    }
}

/// Every forwarded event is one that was reported, under its own path, number and
/// priority.
pub proof fn forwarded_events_name_where_they_come_from(
    last: Map<u64, u64>,
    node_id: u64,
    events: Seq<EventDataModel>,
    clusters: Seq<Cluster>,
    now: i64,
    i: int,
)
    requires
        0 <= i < new_events(last, node_id, events, clusters, now).len(),
    ensures
        exists|j: int|
            0 <= j < events.len() && is_told(
                new_events(last, node_id, events, clusters, now)[i],
                node_id,
                #[trigger] events[j],
            ),
    decreases events.len(),
{
    let rest = events.drop_last();
    let before = new_events(last, node_id, rest, clusters, now);
    let told = new_events(last, node_id, events, clusters, now);
    if i < before.len() {
        forwarded_events_name_where_they_come_from(last, node_id, rest, clusters, now, i);
        let j = choose|j: int|
            0 <= j < rest.len() && is_told(before[i], node_id, #[trigger] rest[j]);
        assert(told[i] == before[i]);
        assert(events[j] == rest[j]);
    } else {
        assert(events[events.len() - 1] == events.last());
        assert(is_told(told[i], node_id, events[events.len() - 1]));
    }
}

} // verus!
