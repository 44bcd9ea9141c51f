//! A node's attributes by path: every path once, in the order of the texts.

use crate::json::{
    entry_models, key_position, lemma_key_position, lemma_key_position_is, lookup, put_then_lookup,
    settled, settled_entries, Json, JsonModel,
};
use crate::report_laws::{lemma_put_keeps, paths_distinct};
use crate::text::{
    lemma_text_before_asymmetric, lemma_text_before_total, lemma_text_before_transitive, same_text,
    text_before, text_precedes,
};
use vstd::prelude::*;

verus! {

/// The value of the last pair with this key.
pub open spec fn latest(pairs: Seq<(Seq<char>, JsonModel)>, key: Seq<char>) -> Option<JsonModel>
    decreases pairs.len(),
{
    if pairs.len() == 0 {
        None
    } else if pairs.last().0 == key {
        Some(pairs.last().1)
    } else {
        latest(pairs.drop_last(), key)
    }
}

/// Whether every key comes before the keys that follow it.
pub open spec fn ascending(pairs: Seq<(Seq<char>, JsonModel)>) -> bool {
    forall|i: int, j: int|
        0 <= i < j < pairs.len() ==> text_before((#[trigger] pairs[i]).0, (#[trigger] pairs[j]).0)
}

/// Whether these are the given pairs by key: the keys ascend, and each has the
/// value it was given last.
pub open spec fn is_snapshot(
    snapshot: Seq<(Seq<char>, JsonModel)>,
    pairs: Seq<(Seq<char>, JsonModel)>,
) -> bool {
    &&& ascending(snapshot)
    &&& forall|key: Seq<char>| #[trigger] lookup(snapshot, key) == latest(pairs, key)
}

/// The pairs by key.
pub fn by_path(pairs: Vec<(String, Json)>) -> (res: Vec<(String, Json)>)
    ensures
        is_snapshot(entry_models(res@), entry_models(pairs@)),
{
    let ghost all = entry_models(pairs@);
    let mut pairs = pairs;
    let mut out: Vec<(String, Json)> = Vec::new();
    assert(entry_models(out@) =~= Seq::empty());
    assert(all.take(all.len() as int) =~= all);
    while pairs.len() > 0
        invariant
            pairs@.len() <= all.len(),
            entry_models(pairs@) == all.take(pairs@.len() as int),
            ascending(entry_models(out@)),
            forall|key: Seq<char>|
                latest(all, key) == match #[trigger] lookup(entry_models(out@), key) {
                    Some(v) => Some(v),
                    None => latest(all.take(pairs@.len() as int), key),
                },
        decreases pairs.len(),
    {
        let ghost left = all.take(pairs@.len() as int);
        let ghost before = entry_models(out@);
        assert(left.last() == entry_models(pairs@).last());
        assert(left.drop_last() =~= all.take(pairs@.len() - 1));
        if let Some((key, value)) = pairs.pop() {
            assert(entry_models(pairs@) =~= left.drop_last());
            let at = place_of(&out, key.as_str());
            if at < out.len() && same_text(out[at].0.as_str(), key.as_str()) {
                proof {
                    assert(before[at as int].0 == key@);
                    lemma_key_position(before, key@);
                    if key_position(before, key@) > at {
                        assert(before[at as int].0 != key@);
                    }
                }
            } else {
                let ghost k = key@;
                let ghost v = value@;
                assert(at < before.len() ==> before[at as int].0 != k) by {
                    if at < before.len() {
                        assert(before[at as int].0 == out@[at as int].0@);
                    }
                }
                out.insert(at, (key, value));
                proof {
                    assert(entry_models(out@) =~= before.insert(at as int, (k, v)));
                    lemma_insertion(before, at as int, k, v);
                    assert forall|other: Seq<char>|
                        latest(all, other) == match #[trigger] lookup(entry_models(out@), other) {
                            Some(v) => Some(v),
                            None => latest(left.drop_last(), other),
                        } by {
                        let known = lookup(before, other);
                        assert(latest(all, other) == if known is Some {
                            known
                        } else {
                            latest(left, other)
                        });
                    }
                }
            }
        }
    }
    out
}

/// The place a key has among ascending ones: what is before it comes first.
fn place_of(pairs: &Vec<(String, Json)>, key: &str) -> (res: usize)
    requires
        ascending(entry_models(pairs@)),
    ensures
        res <= pairs@.len(),
        forall|i: int|
            0 <= i < res ==> text_before((#[trigger] entry_models(pairs@)[i]).0, key@),
        forall|i: int|
            res <= i < pairs@.len() ==> !text_before((#[trigger] entry_models(pairs@)[i]).0, key@),
{
    let ghost models = entry_models(pairs@);
    let mut from: usize = 0;
    let mut to: usize = pairs.len();
    while from < to
        invariant
            models == entry_models(pairs@),
            ascending(models),
            from <= to <= pairs@.len(),
            forall|i: int| 0 <= i < from ==> text_before((#[trigger] models[i]).0, key@),
            forall|i: int|
                to <= i < models.len() ==> !text_before((#[trigger] models[i]).0, key@),
        decreases to - from,
    {
        let middle: usize = from + (to - from) / 2;
        assert(models[middle as int].0 == pairs@[middle as int].0@);
        if text_precedes(pairs[middle].0.as_str(), key) {
            assert forall|i: int| 0 <= i < middle + 1 implies text_before(
                (#[trigger] models[i]).0,
                key@,
            ) by {
                if i < middle {
                    lemma_text_before_transitive(models[i].0, models[middle as int].0, key@);
                }
            }
            from = middle + 1;
        } else {
            assert forall|i: int| middle <= i < models.len() implies !text_before(
                (#[trigger] models[i]).0,
                key@,
            ) by {
                if middle < i && text_before(models[i].0, key@) {
                    lemma_text_before_transitive(models[middle as int].0, models[i].0, key@);
                }
            }
            to = middle;
        }
    }
    from
}

/// A new key at its place keeps the keys ascending, and is found there; nothing
/// else changes.
proof fn lemma_insertion(
    pairs: Seq<(Seq<char>, JsonModel)>,
    at: int,
    key: Seq<char>,
    value: JsonModel,
)
    requires
        ascending(pairs),
        0 <= at <= pairs.len(),
        forall|i: int| 0 <= i < at ==> text_before((#[trigger] pairs[i]).0, key),
        forall|i: int| at <= i < pairs.len() ==> !text_before((#[trigger] pairs[i]).0, key),
        at < pairs.len() ==> pairs[at].0 != key,
    ensures
        ascending(pairs.insert(at, (key, value))),
        lookup(pairs, key) is None,
        lookup(pairs.insert(at, (key, value)), key) == Some(value),
        forall|other: Seq<char>|
            other != key ==> #[trigger] lookup(pairs.insert(at, (key, value)), other) == lookup(
                pairs,
                other,
            ),
{
    let after = pairs.insert(at, (key, value));
    assert forall|i: int| at <= i < pairs.len() implies text_before(
        key,
        (#[trigger] pairs[i]).0,
    ) by {
        lemma_text_before_total(key, pairs[at].0);
        if at < i {
            lemma_text_before_transitive(key, pairs[at].0, pairs[i].0);
        }
    }
    assert forall|i: int, j: int| 0 <= i < j < after.len() implies text_before(
        (#[trigger] after[i]).0,
        (#[trigger] after[j]).0,
    ) by {
        let x = if i < at {
            i
        } else {
            i - 1
        };
        let y = if j < at {
            j
        } else {
            j - 1
        };
        if i != at {
            assert(after[i] == pairs[x]);
        }
        if j != at {
            assert(after[j] == pairs[y]);
        }
    }
    assert forall|i: int| 0 <= i < pairs.len() implies (#[trigger] pairs[i]).0 != key by {
        if pairs[i].0 == key {
            lemma_text_before_asymmetric(key, key);
        }
    }
    lemma_key_position_is(pairs, key, pairs.len() as int);
    assert forall|i: int| 0 <= i < at implies (#[trigger] after[i]).0 != key by {
        assert(after[i] == pairs[i]);
    }
    lemma_key_position_is(after, key, at);
    assert forall|other: Seq<char>| other != key implies #[trigger] lookup(after, other) == lookup(
        pairs,
        other,
    ) by {
        lemma_key_position(pairs, other);
        let p = key_position(pairs, other);
        let q = if p < at {
            p
        } else {
            p + 1
        };
        assert forall|i: int| 0 <= i < q implies (#[trigger] after[i]).0 != other by {
            if i < at {
                assert(after[i] == pairs[i]);
            } else if i > at {
                assert(after[i] == pairs[i - 1]);
            }
        }
        if p < pairs.len() {
            assert(after[q] == pairs[p]);
        }
        lemma_key_position_is(after, other, q);
    }
}

/// What is found under the last of ascending keys, and under the others.
proof fn lemma_last_of_ascending(pairs: Seq<(Seq<char>, JsonModel)>, key: Seq<char>)
    requires
        ascending(pairs),
        pairs.len() > 0,
    ensures
        ascending(pairs.drop_last()),
        lookup(pairs, pairs.last().0) == Some(pairs.last().1),
        lookup(pairs.drop_last(), pairs.last().0) is None,
        key != pairs.last().0 ==> lookup(pairs.drop_last(), key) == lookup(pairs, key),
        lookup(pairs, key) is Some && key != pairs.last().0 ==> text_before(key, pairs.last().0),
{
    let rest = pairs.drop_last();
    let n = rest.len() as int;
    assert forall|i: int| 0 <= i < n implies (#[trigger] rest[i]).0 != pairs.last().0 by {
        assert(text_before(pairs[i].0, pairs[n].0));
        lemma_text_before_asymmetric(pairs[i].0, pairs[n].0);
    }
    assert forall|i: int, j: int| 0 <= i < j < rest.len() implies text_before(
        (#[trigger] rest[i]).0,
        (#[trigger] rest[j]).0,
    ) by {
        assert(text_before(pairs[i].0, pairs[j].0));
    }
    assert forall|i: int| 0 <= i < n implies (#[trigger] pairs[i]).0 != pairs.last().0 by {
        assert(rest[i].0 != pairs.last().0);
    }
    lemma_key_position_is(pairs, pairs.last().0, n);
    lemma_key_position_is(rest, pairs.last().0, n);
    if key != pairs.last().0 {
        lemma_key_position(pairs, key);
        let p = key_position(pairs, key);
        assert forall|i: int| 0 <= i < p && i < n implies (#[trigger] rest[i]).0 != key by {
            assert(pairs[i].0 != key);
        }
        if p < pairs.len() {
            assert(p < n);
            assert(text_before(pairs[p].0, pairs[n].0));
            lemma_key_position_is(rest, key, p);
        } else {
            lemma_key_position_is(rest, key, n);
        }
    }
}

/// There is one way to arrange pairs by key.
pub proof fn snapshots_are_determined(
    a: Seq<(Seq<char>, JsonModel)>,
    b: Seq<(Seq<char>, JsonModel)>,
    pairs: Seq<(Seq<char>, JsonModel)>,
)
    requires
        is_snapshot(a, pairs),
        is_snapshot(b, pairs),
    ensures
        a == b,
{
    assert forall|key: Seq<char>| #[trigger] lookup(a, key) == lookup(b, key) by {
        assert(lookup(b, key) == latest(pairs, key));
    }
    lemma_same_lookups(a, b);
}

proof fn lemma_same_lookups(a: Seq<(Seq<char>, JsonModel)>, b: Seq<(Seq<char>, JsonModel)>)
    requires
        ascending(a),
        ascending(b),
        forall|key: Seq<char>| #[trigger] lookup(a, key) == lookup(b, key),
    ensures
        a == b,
    decreases a.len(),
{
    if a.len() == 0 {
        if b.len() > 0 {
            lemma_last_of_ascending(b, b.last().0);
            lemma_key_position(a, b.last().0);
            assert(lookup(a, b.last().0) == lookup(b, b.last().0));
        }
        assert(a =~= b);
    } else {
        lemma_last_of_ascending(a, a.last().0);
        lemma_key_position(b, a.last().0);
        assert(lookup(a, a.last().0) == lookup(b, a.last().0));
        assert(b.len() > 0);
        lemma_last_of_ascending(b, a.last().0);
        lemma_last_of_ascending(a, b.last().0);
        lemma_last_of_ascending(b, b.last().0);
        assert(lookup(a, b.last().0) == lookup(b, b.last().0));
        lemma_text_before_asymmetric(a.last().0, b.last().0);
        assert(a.last() == b.last());
        assert forall|key: Seq<char>| #[trigger] lookup(a.drop_last(), key) == lookup(
            b.drop_last(),
            key,
        ) by {
            lemma_last_of_ascending(a, key);
            lemma_last_of_ascending(b, key);
            assert(lookup(a, key) == lookup(b, key));
        }
        lemma_same_lookups(a.drop_last(), b.drop_last());
        assert(a =~= a.drop_last().push(a.last()));
        assert(b =~= b.drop_last().push(b.last()));
    }
}

/// Arranging distinct paths by key loses none of them: each keeps its value.
pub proof fn snapshots_keep_every_path(
    snapshot: Seq<(Seq<char>, JsonModel)>,
    pairs: Seq<(Seq<char>, JsonModel)>,
    key: Seq<char>,
)
    requires
        is_snapshot(snapshot, pairs),
        paths_distinct(pairs),
    ensures
        lookup(snapshot, key) == lookup(pairs, key),
{
    lemma_latest_of_distinct(pairs, key);
    assert(lookup(snapshot, key) == latest(pairs, key));
}

/// Of the entries under one key the last counts, and it is settled in turn.
pub proof fn last_entry_counts(entries: Seq<(Seq<char>, JsonModel)>, key: Seq<char>)
    ensures
        lookup(settled_entries(entries), key) == match latest(entries, key) {
            Some(v) => Some(settled(v)),
            None => None,
        },
        paths_distinct(settled_entries(entries)),
    decreases entries.len(),
{
    if entries.len() > 0 {
        last_entry_counts(entries.drop_last(), key);
        let before = settled_entries(entries.drop_last());
        put_then_lookup(before, entries.last().0, settled(entries.last().1), key);
        lemma_put_keeps(before, entries.last().0, settled(entries.last().1));
    } else {
        lemma_key_position(settled_entries(entries), key);
    }
}

proof fn lemma_latest_of_distinct(pairs: Seq<(Seq<char>, JsonModel)>, key: Seq<char>)
    requires
        paths_distinct(pairs),
    ensures
        latest(pairs, key) == lookup(pairs, key),
    decreases pairs.len(),
{
    lemma_key_position(pairs, key);
    if pairs.len() > 0 {
        let rest = pairs.drop_last();
        let n = rest.len() as int;
        assert forall|i: int, j: int| 0 <= i < j < rest.len() implies (#[trigger] rest[i]).0 != (
        #[trigger] rest[j]).0 by {
            assert(pairs[i].0 != pairs[j].0);
        }
        lemma_latest_of_distinct(rest, key);
        if pairs.last().0 == key {
            assert forall|i: int| 0 <= i < n implies (#[trigger] pairs[i]).0 != key by {
                assert(pairs[i].0 != pairs[n].0);
            }
            lemma_key_position_is(pairs, key, n);
        } else {
            let p = key_position(pairs, key);
            assert forall|i: int| 0 <= i < p && i < n implies (#[trigger] rest[i]).0 != key by {
                assert(pairs[i].0 != key);
            }
            if p < pairs.len() {
                assert(p < n);
                lemma_key_position_is(rest, key, p);
            } else {
                lemma_key_position_is(rest, key, n);
            }
        }
    }
}

/// In a snapshot the keys ascend, and under each key stands the value of the last
/// pair with it, and nothing under any other. `at` is where that pair stands, or the
/// end where there is none.
pub proof fn snapshots_hold_the_last_values(
    snapshot: Seq<(Seq<char>, JsonModel)>,
    pairs: Seq<(Seq<char>, JsonModel)>,
    key: Seq<char>,
    at: int,
)
    requires
        is_snapshot(snapshot, pairs),
        0 <= at <= pairs.len(),
        at < pairs.len() ==> pairs[at].0 == key && forall|i: int|
            at < i < pairs.len() ==> (#[trigger] pairs[i]).0 != key,
        at == pairs.len() ==> forall|i: int|
            0 <= i < pairs.len() ==> (#[trigger] pairs[i]).0 != key,
    ensures
        lookup(snapshot, key) == if at < pairs.len() {
            Some(pairs[at].1)
        } else {
            None
        },
        forall|i: int, j: int|
            0 <= i < j < snapshot.len() ==> text_before(
                (#[trigger] snapshot[i]).0,
                (#[trigger] snapshot[j]).0,
            ),
{
    lemma_latest_is(pairs, key, at);
    assert(lookup(snapshot, key) == latest(pairs, key));
}

proof fn lemma_latest_is(pairs: Seq<(Seq<char>, JsonModel)>, key: Seq<char>, at: int)
    requires
        0 <= at <= pairs.len(),
        at < pairs.len() ==> pairs[at].0 == key && forall|i: int|
            at < i < pairs.len() ==> (#[trigger] pairs[i]).0 != key,
        at == pairs.len() ==> forall|i: int|
            0 <= i < pairs.len() ==> (#[trigger] pairs[i]).0 != key,
    ensures
        latest(pairs, key) == if at < pairs.len() {
            Some(pairs[at].1)
        } else {
            None
        },
    decreases pairs.len(),
{
    if pairs.len() > 0 && at != pairs.len() - 1 {
        let rest = pairs.drop_last();
        assert(pairs[pairs.len() - 1].0 != key);
        assert forall|i: int| 0 <= i < rest.len() implies rest[i] == pairs[i] by {}
        lemma_latest_is(
            rest,
            key,
            if at < pairs.len() {
                at
            } else {
                rest.len() as int
            },
        );
    }
}

} // verus!
