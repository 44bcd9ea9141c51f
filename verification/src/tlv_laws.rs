//! What the two conversions promise together: what is written is read back, and
//! what does not matter makes no difference.

use crate::base_types::{base_of, Base};
use crate::codec::{base64_bytes, base64_text, utf8_text};
use crate::idl::{
    attr_by_code, cluster_by_id, field_by_code, field_by_name, struct_by_name, Cluster, Field,
};
use crate::json::{
    bits_finite, lemma_key_position, lemma_key_position_is, lookup, put_entry, put_then_lookup,
    JsonModel, Number,
};
use crate::text::{ascii_lower, decimal, eq_ignore_case, parse_unsigned};
use crate::tlv::{MemberModel, TagModel, TlvModel};
use crate::tlv_json::{
    attr_json, attr_type, field_json, items_of, json_of, named_entries, named_items, named_json,
    shift_to_unix, tagged_entries, unix_value, MATTER_EPOCH_OFFSET_S, MATTER_EPOCH_OFFSET_US, MAX_DEPTH,
};
use crate::tlv_write::{
    base_tlv, entry_for, entry_of, field_hint, heuristic_tlv, hinted_tlv, item_members,
    keys_resolve, members_below, named_tlv, narrow_signed, narrow_unsigned, nested_keys, resolve,
    slot_of, struct_members, tag_of, tlv_of, HintModel, KeysModel,
};
use vstd::prelude::*;
use vstd::utf8::{encode_utf8, encode_utf8_decode_utf8, encode_utf8_valid_utf8};

verus! {

/// Equality of JSON values, in which the order of object entries does not count.
pub open spec fn same_json(a: JsonModel, b: JsonModel) -> bool
    decreases a,
{
    match a {
        JsonModel::Array(x) => match b {
            JsonModel::Array(y) => x.len() == y.len() && forall|i: int|
                0 <= i < x.len() ==> same_json(#[trigger] x[i], y[i]),
            _ => false,
        },
        JsonModel::Object(x) => match b {
            JsonModel::Object(y) => {
                &&& forall|i: int|
                    0 <= i < x.len() ==> match lookup(y, (#[trigger] x[i]).0) {
                        Some(w) => same_json(x[i].1, w),
                        None => false,
                    }
                &&& forall|j: int| 0 <= j < y.len() ==> lookup(x, (#[trigger] y[j]).0) is Some
            },
            _ => false,
        },
        _ => a == b,
    }
}

/// A value that needs no table to survive a round trip: numbers in their one
/// form, finite floats, keys that are context tags in their one decimal form,
/// and no more nesting than the read side accepts.
pub open spec fn plain(v: JsonModel, depth: nat) -> bool
    decreases v,
{
    &&& depth <= MAX_DEPTH
    &&& match v {
        JsonModel::Number(Number::NegInt(n)) => n < 0,
        JsonModel::Number(Number::Float(bits)) => bits_finite(bits),
        JsonModel::Array(items) => forall|i: int|
            0 <= i < items.len() ==> plain(#[trigger] items[i], depth + 1),
        JsonModel::Object(entries) => forall|i: int|
            0 <= i < entries.len() ==> canonical_tag((#[trigger] entries[i]).0) && plain(
                entries[i].1,
                depth + 1,
            ),
        _ => true,
    }
}

/// The decimal form of a context tag, without a sign or leading zeros.
pub open spec fn canonical_tag(key: Seq<char>) -> bool {
    match parse_unsigned(key, 255) {
        Some(n) => decimal(n) == key,
        None => false,
    }
}

/// A value of base type in the one form that reading gives it. A binary32 slot
/// rounds, so it is left out.
pub open spec fn base_conforms(v: JsonModel, base: Base) -> bool {
    match base {
        Base::Single => false,
        Base::Double => match v {
            JsonModel::Number(Number::Float(bits)) => bits_finite(bits),
            _ => false,
        },
        Base::Signed(_) => match v {
            JsonModel::Number(Number::NegInt(n)) => n < 0,
            _ => true,
        },
        _ => true,
    }
}

/// A value in the form that reading gives a field of type `ty`: struct members
/// under the names of the tables. Lists of epoch values are left out, because
/// writing shifts their elements and reading does not.
pub open spec fn conforms(v: JsonModel, ty: Seq<char>, is_list: bool, c: Cluster, depth: nat) -> bool
    decreases v, 2nat,
{
    &&& depth <= MAX_DEPTH
    &&& base_of(ty) is Some ==> struct_by_name(c.structs@, ty) is None
    &&& v is Null || if is_list {
        match v {
            JsonModel::Array(items) => match struct_by_name(c.structs@, ty) {
                Some(nested) => forall|i: int|
                    0 <= i < items.len() ==> struct_conforms(
                        #[trigger] items[i],
                        nested.fields@,
                        c,
                        depth + 1,
                    ),
                None => match base_of(ty) {
                    Some(base) => {
                        &&& base != Base::EpochS
                        &&& base != Base::EpochUs
                        &&& items.len() > 0 ==> depth < MAX_DEPTH
                        &&& forall|i: int|
                            0 <= i < items.len() ==> ((#[trigger] items[i]) is Null
                                || base_conforms(items[i], base))
                    },
                    None => forall|i: int|
                        0 <= i < items.len() ==> plain(#[trigger] items[i], depth + 1),
                },
            },
            _ => false,
        }
    } else {
        match base_of(ty) {
            Some(base) => base_conforms(v, base),
            None => match struct_by_name(c.structs@, ty) {
                Some(nested) => struct_conforms(v, nested.fields@, c, depth),
                None => plain(v, depth),
            },
        }
    }
}

/// A struct value, or null, whose members are in the form that reading gives
/// them.
pub open spec fn struct_conforms(v: JsonModel, fields: Seq<Field>, c: Cluster, depth: nat) -> bool
    decreases v, 1nat,
{
    &&& depth <= MAX_DEPTH
    &&& match v {
        JsonModel::Null => true,
        JsonModel::Object(entries) => entries_conform(
            entries,
            nested_keys(entries, fields, c),
            fields,
            c,
            depth + 1,
        ),
        _ => false,
    }
}

/// Every key is the table name of the field it is written to, and every value is
/// in the form that reading gives that field.
pub open spec fn entries_conform(
    entries: Seq<(Seq<char>, JsonModel)>,
    keys: KeysModel,
    fields: Seq<Field>,
    c: Cluster,
    depth: nat,
) -> bool
    decreases entries, 0nat,
{
    forall|i: int|
        0 <= i < entries.len() ==> match field_by_code(
            fields,
            tag_of(keys, (#[trigger] entries[i]).0) as nat,
        ) {
            Some(f) => f.name@ == entries[i].0 && slot_of(keys, entries[i].0) == Some(
                field_hint(f, c),
            ) && conforms(entries[i].1, f.ty@, f.is_list, c, depth),
            None => false,
        }
}

proof fn lemma_text_survives(s: Seq<char>)
    ensures
        utf8_text(encode_utf8(s)) == s,
{
    encode_utf8_valid_utf8(s);
    encode_utf8_decode_utf8(s);
}

/// A key that no entry has goes to the end.
proof fn lemma_put_new(entries: Seq<(Seq<char>, JsonModel)>, key: Seq<char>, v: JsonModel)
    requires
        forall|j: int| 0 <= j < entries.len() ==> (#[trigger] entries[j]).0 != key,
    ensures
        put_entry(entries, key, v) == entries.push((key, v)),
{
    lemma_key_position_is(entries, key, entries.len() as int);
}

/// What is written of a value without a hint is read back as that value.
pub proof fn written_is_read_back(v: JsonModel, depth: nat)
    requires
        plain(v, depth),
        heuristic_tlv(v) is Some,
    ensures
        json_of(heuristic_tlv(v)->0, depth) is Ok,
        same_json(v, json_of(heuristic_tlv(v)->0, depth)->Ok_0),
    decreases v, 2nat,
{
    match v {
        JsonModel::Text(s) => {
            lemma_text_survives(s);
        },
        JsonModel::Array(items) => {
            assert(items.take(items.len() as int) =~= items);
            lemma_items_read_back(items, items.len() as int, depth + 1);
        },
        JsonModel::Object(entries) => {
            lemma_members_read_back(entries, 256, depth + 1);
            let ys = tagged_entries(
                struct_members(entries, KeysModel::Tagged(None))->0,
                depth + 1,
            )->Ok_0;
            assert forall|j: int| 0 <= j < ys.len() implies lookup(
                entries,
                (#[trigger] ys[j]).0,
            ) is Some by {
                let i = choose|i: int| 0 <= i < entries.len() && (#[trigger] entries[i]).0 == ys[j].0;
                lemma_key_position(entries, ys[j].0);
            }
        },
        _ => {},
    }
}

proof fn lemma_items_read_back(items: Seq<JsonModel>, n: int, depth: nat)
    requires
        0 <= n <= items.len(),
        forall|i: int| 0 <= i < items.len() ==> plain(#[trigger] items[i], depth),
        item_members(items.take(n), None) is Some,
    ensures
        items_of(item_members(items.take(n), None)->0, depth) is Ok,
        items_of(item_members(items.take(n), None)->0, depth)->Ok_0.len() == n,
        forall|i: int|
            0 <= i < n ==> same_json(
                #[trigger] items[i],
                items_of(item_members(items.take(n), None)->0, depth)->Ok_0[i],
            ),
    decreases items, n,
{
    if n > 0 {
        assert(items.take(n).drop_last() =~= items.take(n - 1));
        assert(items.take(n).last() == items[n - 1]);
        lemma_items_read_back(items, n - 1, depth);
        assert(tlv_of(items[n - 1], None) == heuristic_tlv(items[n - 1]));
        written_is_read_back(items[n - 1], depth);
        let before = item_members(items.take(n - 1), None)->0;
        let after = item_members(items.take(n), None)->0;
        assert(after.drop_last() =~= before);
    }
}

proof fn lemma_members_read_back(entries: Seq<(Seq<char>, JsonModel)>, t: nat, depth: nat)
    requires
        t <= 256,
        forall|i: int|
            0 <= i < entries.len() ==> canonical_tag((#[trigger] entries[i]).0) && plain(
                entries[i].1,
                depth,
            ),
        keys_resolve(entries, KeysModel::Tagged(None)),
        members_below(entries, KeysModel::Tagged(None), t) is Some,
    ensures
        tagged_entries(members_below(entries, KeysModel::Tagged(None), t)->0, depth) is Ok,
        forall|i: int|
            0 <= i < entries.len() && tag_of(
                KeysModel::Tagged(None),
                (#[trigger] entries[i]).0,
            ) < t ==> match lookup(
                tagged_entries(members_below(entries, KeysModel::Tagged(None), t)->0, depth)->Ok_0,
                entries[i].0,
            ) {
                Some(w) => same_json(entries[i].1, w),
                None => false,
            },
        forall|j: int|
            0 <= j < tagged_entries(
                members_below(entries, KeysModel::Tagged(None), t)->0,
                depth,
            )->Ok_0.len() ==> exists|i: int|
                0 <= i < entries.len() && tag_of(
                    KeysModel::Tagged(None),
                    (#[trigger] entries[i]).0,
                ) < t && entries[i].0 == (#[trigger] tagged_entries(
                    members_below(entries, KeysModel::Tagged(None), t)->0,
                    depth,
                )->Ok_0[j]).0,
    decreases entries, t,
{
    let keys = KeysModel::Tagged(None);
    if t > 0 {
        let below = (t - 1) as nat;
        lemma_members_read_back(entries, below, depth);
        let before = members_below(entries, keys, below)->0;
        let ys = tagged_entries(before, depth)->Ok_0;
        match entry_of(entries, keys, below) {
            None => {
                assert forall|i: int| 0 <= i < entries.len() && tag_of(
                    keys,
                    (#[trigger] entries[i]).0,
                ) < t implies tag_of(keys, entries[i].0) < below by {
                    if tag_of(keys, entries[i].0) == below {
                        assert(entry_for(entries, keys, below, i));
                    }
                }
            },
            Some(e) => {
                assert(entry_for(entries, keys, below, e));
                let after = members_below(entries, keys, t)->0;
                assert(after.drop_last() =~= before);
                assert(tlv_of(entries[e].1, None) == heuristic_tlv(entries[e].1));
                written_is_read_back(entries[e].1, depth);
                let key = entries[e].0;
                assert(key == decimal(below));
                let w = json_of(after.last().value, depth)->Ok_0;
                assert forall|j: int| 0 <= j < ys.len() implies (#[trigger] ys[j]).0 != key by {
                    let i = choose|i: int|
                        0 <= i < entries.len() && tag_of(keys, (#[trigger] entries[i]).0) < below
                            && entries[i].0 == ys[j].0;
                    assert(tag_of(keys, entries[i].0) < below);
                }
                lemma_put_new(ys, key, w);
                let zs = ys.push((key, w));
                assert(tagged_entries(after, depth) == Ok::<
                    Seq<(Seq<char>, JsonModel)>,
                    crate::error::SdkErrorModel,
                >(zs));
                assert forall|i: int| 0 <= i < entries.len() && tag_of(
                    keys,
                    (#[trigger] entries[i]).0,
                ) < t implies match lookup(zs, entries[i].0) {
                    Some(w) => same_json(entries[i].1, w),
                    None => false,
                } by {
                    put_then_lookup(ys, key, w, entries[i].0);
                    if tag_of(keys, entries[i].0) == below {
                        if i < e {
                            assert(tag_of(keys, entries[i].0) != tag_of(keys, entries[e].0));
                        } else if e < i {
                            assert(tag_of(keys, entries[e].0) != tag_of(keys, entries[i].0));
                        }
                    } else {
                        assert(entries[i].0 != key);
                    }
                }
                assert forall|j: int| 0 <= j < zs.len() implies exists|i: int|
                    0 <= i < entries.len() && tag_of(keys, (#[trigger] entries[i]).0) < t
                        && entries[i].0 == (#[trigger] zs[j]).0 by {
                    if j < ys.len() {
                        assert(zs[j] == ys[j]);
                        let i = choose|i: int|
                            0 <= i < entries.len() && tag_of(keys, (#[trigger] entries[i]).0)
                                < below && entries[i].0 == ys[j].0;
                        assert(tag_of(keys, entries[i].0) < t);
                    } else {
                        assert(tag_of(keys, entries[e].0) < t);
                    }
                }
            },
        }
    }
}

/// A value of base type is read back exactly, epoch types after their shift.
pub proof fn base_value_is_read_back(v: JsonModel, ty: Seq<char>, base: Base, depth: nat)
    requires
        depth <= MAX_DEPTH,
        base_of(ty) == Some(base),
        base_conforms(v, base),
        base_tlv(v, base) is Some,
    ensures
        json_of(base_tlv(v, base)->0, depth) is Ok,
        unix_value(ty, json_of(base_tlv(v, base)->0, depth)->Ok_0) == Ok::<
            JsonModel,
            crate::error::SdkErrorModel,
        >(v),
        base != Base::EpochS && base != Base::EpochUs ==> json_of(base_tlv(v, base)->0, depth)->Ok_0
            == v,
{
    match v {
        JsonModel::Text(s) => {
            lemma_text_survives(s);
            if base == Base::Octets {
                let bytes = base64_bytes(s)->0;
                assert(base64_text(bytes) == s);
            }
        },
        _ => {},
    }
}

/// The slot of a field of type `ty`.
pub open spec fn slot(ty: Seq<char>, is_list: bool, c: Cluster) -> Option<HintModel> {
    Some(HintModel { ty, is_list, cluster: Some(c) })
}

/// What is written to a field is read back from it.
pub proof fn field_is_read_back(
    v: JsonModel,
    ty: Seq<char>,
    is_list: bool,
    c: Cluster,
    depth: nat,
)
    requires
        conforms(v, ty, is_list, c, depth),
        tlv_of(v, slot(ty, is_list, c)) is Some,
    ensures
        field_json(tlv_of(v, slot(ty, is_list, c))->0, ty, c, depth) is Ok,
        same_json(v, field_json(tlv_of(v, slot(ty, is_list, c))->0, ty, c, depth)->Ok_0),
    decreases v, 3nat,
{
    let h = HintModel { ty, is_list, cluster: Some(c) };
    let item = HintModel { ty, is_list: false, cluster: Some(c) };
    assert(slot(ty, is_list, c) == Some(h));
    if v is Null {
        assert(tlv_of(v, Some(h)) == Some(TlvModel::Null)) by {
            assert(hinted_tlv(v, h) == Some(TlvModel::Null));
        }
        assert(json_of(TlvModel::Null, depth) is Ok);
    } else if is_list {
        let items = v->Array_0;
        let ms = item_members(items, Some(item))->0;
        assert(items.take(items.len() as int) =~= items);
        match struct_by_name(c.structs@, ty) {
            Some(nested) => {
                lemma_struct_items_read_back(
                    items,
                    items.len() as int,
                    ty,
                    nested.fields@,
                    c,
                    depth + 1,
                );
            },
            None => {
                lemma_hinted_items_read_back(items, items.len() as int, ty, c, depth + 1);
                assert(json_of(TlvModel::Array(ms), depth) is Ok);
            },
        }
    } else {
        assert(tlv_of(v, Some(h)) == hinted_tlv(v, h));
        match base_of(ty) {
            Some(base) => {
                base_value_is_read_back(v, ty, base, depth);
                assert(!(base_tlv(v, base)->0 is Malformed));
            },
            None => match struct_by_name(c.structs@, ty) {
                Some(nested) => {
                    struct_is_read_back(v, nested.fields@, c, depth);
                },
                None => {
                    assert(hinted_tlv(v, h) == heuristic_tlv(v));
                    written_is_read_back(v, depth);
                    if let JsonModel::Text(s) = v {
                        lemma_text_survives(s);
                    }
                },
            },
        }
    }
}

/// The struct that a value with members, or null, is written as.
pub open spec fn struct_tlv(v: JsonModel, fields: Seq<Field>, c: Cluster) -> Option<TlvModel> {
    match v {
        JsonModel::Null => Some(TlvModel::Null),
        JsonModel::Object(entries) => match struct_members(
            entries,
            nested_keys(entries, fields, c),
        ) {
            Some(ms) => Some(TlvModel::Struct(ms)),
            None => None,
        },
        _ => None,
    }
}

/// What is written of a struct is read back from it.
pub proof fn struct_is_read_back(v: JsonModel, fields: Seq<Field>, c: Cluster, depth: nat)
    requires
        struct_conforms(v, fields, c, depth),
        struct_tlv(v, fields, c) is Some,
    ensures
        named_json(struct_tlv(v, fields, c)->0, fields, c, depth) is Ok,
        same_json(v, named_json(struct_tlv(v, fields, c)->0, fields, c, depth)->Ok_0),
    decreases v, 2nat,
{
    match v {
        JsonModel::Object(entries) => {
            let keys = nested_keys(entries, fields, c);
            lemma_named_members_read_back(entries, keys, fields, c, 256, depth + 1);
            lemma_object_read_back(
                entries,
                keys,
                named_entries(struct_members(entries, keys)->0, fields, c, depth + 1)->Ok_0,
            );
        },
        _ => {
            assert(json_of(TlvModel::Null, depth) is Ok);
        },
    }
}

/// A payload written under field names is read back under the same names.
pub proof fn named_payload_is_read_back(
    entries: Seq<(Seq<char>, JsonModel)>,
    fields: Seq<Field>,
    c: Cluster,
)
    requires
        entries_conform(entries, KeysModel::Named(fields, c), fields, c, 1),
        named_tlv(entries, fields, c) is Some,
    ensures
        named_json(named_tlv(entries, fields, c)->0, fields, c, 0) is Ok,
        same_json(
            JsonModel::Object(entries),
            named_json(named_tlv(entries, fields, c)->0, fields, c, 0)->Ok_0,
        ),
{
    let keys = KeysModel::Named(fields, c);
    lemma_named_members_read_back(entries, keys, fields, c, 256, 1);
    lemma_object_read_back(
        entries,
        keys,
        named_entries(struct_members(entries, keys)->0, fields, c, 1)->Ok_0,
    );
}

/// An object that has every entry, and no other key, is the same object.
proof fn lemma_object_read_back(
    entries: Seq<(Seq<char>, JsonModel)>,
    keys: KeysModel,
    ys: Seq<(Seq<char>, JsonModel)>,
)
    requires
        forall|i: int|
            0 <= i < entries.len() && tag_of(keys, (#[trigger] entries[i]).0) < 256 ==> match lookup(
                ys,
                entries[i].0,
            ) {
                Some(w) => same_json(entries[i].1, w),
                None => false,
            },
        forall|j: int|
            0 <= j < ys.len() ==> exists|i: int|
                0 <= i < entries.len() && tag_of(keys, (#[trigger] entries[i]).0) < 256
                    && entries[i].0 == (#[trigger] ys[j]).0,
    ensures
        same_json(JsonModel::Object(entries), JsonModel::Object(ys)),
{
    assert forall|j: int| 0 <= j < ys.len() implies lookup(entries, (#[trigger] ys[j]).0) is Some by {
        let i = choose|i: int|
            0 <= i < entries.len() && tag_of(keys, (#[trigger] entries[i]).0) < 256
                && entries[i].0 == ys[j].0;
        lemma_key_position(entries, ys[j].0);
        assert(entries[i].0 == ys[j].0);
    }
    assert forall|i: int| 0 <= i < entries.len() implies match lookup(ys, (#[trigger] entries[i]).0) {
        Some(w) => same_json(entries[i].1, w),
        None => false,
    } by {
        assert(tag_of(keys, entries[i].0) < 256);
    }
}

proof fn lemma_struct_items_read_back(
    items: Seq<JsonModel>,
    n: int,
    ty: Seq<char>,
    fields: Seq<Field>,
    c: Cluster,
    depth: nat,
)
    requires
        0 <= n <= items.len(),
        base_of(ty) is None,
        struct_by_name(c.structs@, ty) is Some,
        struct_by_name(c.structs@, ty)->0.fields@ == fields,
        forall|i: int|
            0 <= i < items.len() ==> struct_conforms(#[trigger] items[i], fields, c, depth),
        item_members(items.take(n), slot(ty, false, c)) is Some,
    ensures
        named_items(item_members(items.take(n), slot(ty, false, c))->0, fields, c, depth) is Ok,
        named_items(
            item_members(items.take(n), slot(ty, false, c))->0,
            fields,
            c,
            depth,
        )->Ok_0.len() == n,
        forall|i: int|
            0 <= i < n ==> same_json(
                #[trigger] items[i],
                named_items(
                    item_members(items.take(n), slot(ty, false, c))->0,
                    fields,
                    c,
                    depth,
                )->Ok_0[i],
            ),
    decreases items, n,
{
    if n > 0 {
        let h = HintModel { ty, is_list: false, cluster: Some(c) };
        let x = items[n - 1];
        assert(items.take(n).drop_last() =~= items.take(n - 1));
        assert(items.take(n).last() == x);
        lemma_struct_items_read_back(items, n - 1, ty, fields, c, depth);
        assert(tlv_of(x, Some(h)) == hinted_tlv(x, h));
        assert(hinted_tlv(x, h) == struct_tlv(x, fields, c));
        struct_is_read_back(x, fields, c, depth);
        let before = item_members(items.take(n - 1), slot(ty, false, c))->0;
        let after = item_members(items.take(n), slot(ty, false, c))->0;
        assert(after.drop_last() =~= before);
    }
}

proof fn lemma_hinted_items_read_back(
    items: Seq<JsonModel>,
    n: int,
    ty: Seq<char>,
    c: Cluster,
    depth: nat,
)
    requires
        0 <= n <= items.len(),
        struct_by_name(c.structs@, ty) is None,
        match base_of(ty) {
            Some(base) => {
                &&& base != Base::EpochS
                &&& base != Base::EpochUs
                &&& items.len() > 0 ==> depth <= MAX_DEPTH
                &&& forall|i: int|
                    0 <= i < items.len() ==> ((#[trigger] items[i]) is Null || base_conforms(
                        items[i],
                        base,
                    ))
            },
            None => forall|i: int| 0 <= i < items.len() ==> plain(#[trigger] items[i], depth),
        },
        item_members(items.take(n), slot(ty, false, c)) is Some,
    ensures
        items_of(item_members(items.take(n), slot(ty, false, c))->0, depth) is Ok,
        items_of(item_members(items.take(n), slot(ty, false, c))->0, depth)->Ok_0.len() == n,
        forall|i: int|
            0 <= i < n ==> same_json(
                #[trigger] items[i],
                items_of(item_members(items.take(n), slot(ty, false, c))->0, depth)->Ok_0[i],
            ),
    decreases items, n,
{
    if n > 0 {
        let h = HintModel { ty, is_list: false, cluster: Some(c) };
        let x = items[n - 1];
        assert(items.take(n).drop_last() =~= items.take(n - 1));
        assert(items.take(n).last() == x);
        lemma_hinted_items_read_back(items, n - 1, ty, c, depth);
        assert(tlv_of(x, Some(h)) == hinted_tlv(x, h));
        if x is Null {
            assert(json_of(TlvModel::Null, depth) is Ok);
        } else {
            match base_of(ty) {
                Some(base) => {
                    assert(hinted_tlv(x, h) == base_tlv(x, base));
                    base_value_is_read_back(x, ty, base, depth);
                    assert(!(x is Array) && !(x is Object));
                },
                None => {
                    assert(hinted_tlv(x, h) == heuristic_tlv(x));
                    written_is_read_back(x, depth);
                },
            }
        }
        let before = item_members(items.take(n - 1), slot(ty, false, c))->0;
        let after = item_members(items.take(n), slot(ty, false, c))->0;
        assert(after.drop_last() =~= before);
    }
}

proof fn lemma_named_members_read_back(
    entries: Seq<(Seq<char>, JsonModel)>,
    keys: KeysModel,
    fields: Seq<Field>,
    c: Cluster,
    t: nat,
    depth: nat,
)
    requires
        t <= 256,
        entries_conform(entries, keys, fields, c, depth),
        keys_resolve(entries, keys),
        members_below(entries, keys, t) is Some,
    ensures
        named_entries(members_below(entries, keys, t)->0, fields, c, depth) is Ok,
        forall|i: int|
            0 <= i < entries.len() && tag_of(keys, (#[trigger] entries[i]).0) < t ==> match lookup(
                named_entries(members_below(entries, keys, t)->0, fields, c, depth)->Ok_0,
                entries[i].0,
            ) {
                Some(w) => same_json(entries[i].1, w),
                None => false,
            },
        forall|j: int|
            0 <= j < named_entries(
                members_below(entries, keys, t)->0,
                fields,
                c,
                depth,
            )->Ok_0.len() ==> exists|i: int|
                0 <= i < entries.len() && tag_of(keys, (#[trigger] entries[i]).0) < t
                    && entries[i].0 == (#[trigger] named_entries(
                    members_below(entries, keys, t)->0,
                    fields,
                    c,
                    depth,
                )->Ok_0[j]).0,
    decreases entries, t,
{
    if t > 0 {
        let below = (t - 1) as nat;
        lemma_named_members_read_back(entries, keys, fields, c, below, depth);
        let before = members_below(entries, keys, below)->0;
        let ys = named_entries(before, fields, c, depth)->Ok_0;
        match entry_of(entries, keys, below) {
            None => {
                assert forall|i: int| 0 <= i < entries.len() && tag_of(
                    keys,
                    (#[trigger] entries[i]).0,
                ) < t implies tag_of(keys, entries[i].0) < below by {
                    if tag_of(keys, entries[i].0) == below {
                        assert(entry_for(entries, keys, below, i));
                    }
                }
            },
            Some(e) => {
                assert(entry_for(entries, keys, below, e));
                let after = members_below(entries, keys, t)->0;
                assert(after.drop_last() =~= before);
                let key = entries[e].0;
                assert(tag_of(keys, entries[e].0) == below);
                let f = field_by_code(fields, below)->0;
                assert(slot_of(keys, key) == slot(f.ty@, f.is_list, c));
                field_is_read_back(entries[e].1, f.ty@, f.is_list, c, depth);
                let w = field_json(after.last().value, f.ty@, c, depth)->Ok_0;
                assert forall|j: int| 0 <= j < ys.len() implies (#[trigger] ys[j]).0 != key by {
                    let i = choose|i: int|
                        0 <= i < entries.len() && tag_of(keys, (#[trigger] entries[i]).0) < below
                            && entries[i].0 == ys[j].0;
                    assert(tag_of(keys, entries[i].0) < below);
                }
                lemma_put_new(ys, key, w);
                let zs = ys.push((key, w));
                assert(named_entries(after, fields, c, depth) == Ok::<
                    Seq<(Seq<char>, JsonModel)>,
                    crate::error::SdkErrorModel,
                >(zs));
                assert forall|i: int| 0 <= i < entries.len() && tag_of(
                    keys,
                    (#[trigger] entries[i]).0,
                ) < t implies match lookup(zs, entries[i].0) {
                    Some(w) => same_json(entries[i].1, w),
                    None => false,
                } by {
                    put_then_lookup(ys, key, w, entries[i].0);
                    if tag_of(keys, entries[i].0) == below {
                        if i < e {
                            assert(tag_of(keys, entries[i].0) != tag_of(keys, entries[e].0));
                        } else if e < i {
                            assert(tag_of(keys, entries[e].0) != tag_of(keys, entries[i].0));
                        }
                    } else {
                        assert(entries[i].0 != key);
                    }
                }
                assert forall|j: int| 0 <= j < zs.len() implies exists|i: int|
                    0 <= i < entries.len() && tag_of(keys, (#[trigger] entries[i]).0) < t
                        && entries[i].0 == (#[trigger] zs[j]).0 by {
                    if j < ys.len() {
                        assert(zs[j] == ys[j]);
                        let i = choose|i: int|
                            0 <= i < entries.len() && tag_of(keys, (#[trigger] entries[i]).0)
                                < below && entries[i].0 == ys[j].0;
                        assert(tag_of(keys, entries[i].0) < t);
                    } else {
                        assert(tag_of(keys, entries[e].0) < t);
                    }
                }
            },
        }
    }
}

/// Struct members are written in strictly ascending order of their tags.
pub proof fn members_ascend(entries: Seq<(Seq<char>, JsonModel)>, keys: KeysModel)
    requires
        struct_members(entries, keys) is Some,
    ensures
        forall|i: int, j: int|
            0 <= i < j < struct_members(entries, keys)->0.len() ==> (#[trigger] struct_members(
                entries,
                keys,
            )->0[i]).tag->Context_0 < (#[trigger] struct_members(entries, keys)->0[j]).tag->Context_0,
        forall|i: int|
            0 <= i < struct_members(entries, keys)->0.len() ==> (#[trigger] struct_members(
                entries,
                keys,
            )->0[i]).tag is Context,
{
    lemma_members_ascend(entries, keys, 256);
}

proof fn lemma_members_ascend(entries: Seq<(Seq<char>, JsonModel)>, keys: KeysModel, t: nat)
    requires
        t <= 256,
        members_below(entries, keys, t) is Some,
    ensures
        forall|i: int|
            0 <= i < members_below(entries, keys, t)->0.len() ==> (#[trigger] members_below(
                entries,
                keys,
                t,
            )->0[i]).tag is Context && members_below(entries, keys, t)->0[i].tag->Context_0 < t,
        forall|i: int, j: int|
            0 <= i < j < members_below(entries, keys, t)->0.len() ==> (#[trigger] members_below(
                entries,
                keys,
                t,
            )->0[i]).tag->Context_0 < (#[trigger] members_below(
                entries,
                keys,
                t,
            )->0[j]).tag->Context_0,
    decreases t,
{
    if t > 0 {
        lemma_members_ascend(entries, keys, (t - 1) as nat);
    }
}

/// Every entry of an object becomes a member, and every member comes from an
/// entry: nothing the caller asked for is dropped and nothing is added.
pub proof fn members_are_the_entries(entries: Seq<(Seq<char>, JsonModel)>, keys: KeysModel)
    requires
        struct_members(entries, keys) is Some,
    ensures
        forall|i: int|
            0 <= i < entries.len() ==> exists|k: int|
                0 <= k < struct_members(entries, keys)->0.len() && member_of(
                    #[trigger] entries[i],
                    keys,
                    #[trigger] struct_members(entries, keys)->0[k],
                ),
        forall|k: int|
            0 <= k < struct_members(entries, keys)->0.len() ==> exists|i: int|
                0 <= i < entries.len() && member_of(
                    #[trigger] entries[i],
                    keys,
                    #[trigger] struct_members(entries, keys)->0[k],
                ),
{
    lemma_members_are_entries(entries, keys, 256);
    assert forall|i: int| 0 <= i < entries.len() implies exists|k: int|
        0 <= k < struct_members(entries, keys)->0.len() && member_of(
            #[trigger] entries[i],
            keys,
            #[trigger] struct_members(entries, keys)->0[k],
        ) by {
        assert(tag_of(keys, entries[i].0) < 256);
    }
}

/// Whether a member is what an entry is written as.
pub open spec fn member_of(entry: (Seq<char>, JsonModel), keys: KeysModel, m: MemberModel) -> bool {
    m.tag == TagModel::Context(tag_of(keys, entry.0)) && tlv_of(entry.1, slot_of(keys, entry.0))
        == Some(m.value)
}

proof fn lemma_members_are_entries(entries: Seq<(Seq<char>, JsonModel)>, keys: KeysModel, t: nat)
    requires
        t <= 256,
        keys_resolve(entries, keys),
        members_below(entries, keys, t) is Some,
    ensures
        forall|i: int|
            0 <= i < entries.len() && tag_of(keys, (#[trigger] entries[i]).0) < t ==> exists|k: int|
                0 <= k < members_below(entries, keys, t)->0.len() && member_of(
                    entries[i],
                    keys,
                    #[trigger] members_below(entries, keys, t)->0[k],
                ),
        forall|k: int|
            0 <= k < members_below(entries, keys, t)->0.len() ==> exists|i: int|
                0 <= i < entries.len() && member_of(
                    #[trigger] entries[i],
                    keys,
                    #[trigger] members_below(entries, keys, t)->0[k],
                ),
    decreases t,
{
    if t > 0 {
        let below = (t - 1) as nat;
        lemma_members_are_entries(entries, keys, below);
        let before = members_below(entries, keys, below)->0;
        let after = members_below(entries, keys, t)->0;
        assert forall|i: int| 0 <= i < entries.len() && tag_of(keys, (#[trigger] entries[i]).0)
            < t implies exists|k: int|
            0 <= k < after.len() && member_of(entries[i], keys, #[trigger] after[k]) by {
            if tag_of(keys, entries[i].0) < below {
                let k = choose|k: int|
                    0 <= k < before.len() && member_of(entries[i], keys, #[trigger] before[k]);
                assert(after[k] == before[k]);
            } else {
                assert(entry_for(entries, keys, below, i));
                let e = entry_of(entries, keys, below)->0;
                assert(entry_for(entries, keys, below, e));
                if i < e {
                    assert(tag_of(keys, entries[i].0) != tag_of(keys, entries[e].0));
                } else if e < i {
                    assert(tag_of(keys, entries[e].0) != tag_of(keys, entries[i].0));
                }
                assert(member_of(entries[i], keys, after[after.len() - 1]));
            }
        }
        assert forall|k: int| 0 <= k < after.len() implies exists|i: int|
            0 <= i < entries.len() && member_of(
                #[trigger] entries[i],
                keys,
                #[trigger] after[k],
            ) by {
            if k < before.len() {
                assert(after[k] == before[k]);
                let i = choose|i: int|
                    0 <= i < entries.len() && member_of(#[trigger] entries[i], keys, before[k]);
                assert(member_of(entries[i], keys, after[k]));
            } else {
                let e = entry_of(entries, keys, below)->0;
                assert(entry_for(entries, keys, below, e));
                assert(member_of(entries[e], keys, after[k]));
            }
        }
    }
}

/// Two keys for one tag are rejected rather than one of them dropped.
pub proof fn duplicate_tags_are_rejected(
    entries: Seq<(Seq<char>, JsonModel)>,
    keys: KeysModel,
    i: int,
    j: int,
)
    requires
        0 <= i < j < entries.len(),
        tag_of(keys, entries[i].0) == tag_of(keys, entries[j].0),
    ensures
        struct_members(entries, keys) is None,
{
}

/// A key that stands for no field is rejected.
pub proof fn unknown_keys_are_rejected(
    entries: Seq<(Seq<char>, JsonModel)>,
    keys: KeysModel,
    i: int,
)
    requires
        0 <= i < entries.len(),
        resolve(keys, entries[i].0) is None,
    ensures
        struct_members(entries, keys) is None,
{
}

/// Whether each entry of `a` has its like among those of `b`, at the place `at`
/// says: under a key for the same tag and slot, with the same value.
pub open spec fn alike(
    a: Seq<(Seq<char>, JsonModel)>,
    a_keys: KeysModel,
    b: Seq<(Seq<char>, JsonModel)>,
    b_keys: KeysModel,
    at: Seq<int>,
) -> bool {
    &&& at.len() == a.len()
    &&& forall|i: int|
        0 <= i < a.len() ==> 0 <= #[trigger] at[i] < b.len() && resolve(a_keys, a[i].0) == resolve(
            b_keys,
            b[at[i]].0,
        ) && a[i].1 == b[at[i]].1
    &&& forall|i: int, j: int| 0 <= i < j < a.len() ==> #[trigger] at[i] != #[trigger] at[j]
}

/// Neither how keys are spelled nor the order they come in matters: entries that
/// stand for the same tags and slots, with the same values, are written as the
/// same members.
pub proof fn spelling_and_order_of_keys_do_not_matter(
    a: Seq<(Seq<char>, JsonModel)>,
    a_keys: KeysModel,
    b: Seq<(Seq<char>, JsonModel)>,
    b_keys: KeysModel,
    at: Seq<int>,
    back: Seq<int>,
)
    requires
        alike(a, a_keys, b, b_keys, at),
        alike(b, b_keys, a, a_keys, back),
    ensures
        struct_members(a, a_keys) == struct_members(b, b_keys),
{
    if keys_resolve(a, a_keys) {
        lemma_keys_resolve_alike(a, a_keys, b, b_keys, back);
    }
    if keys_resolve(b, b_keys) {
        lemma_keys_resolve_alike(b, b_keys, a, a_keys, at);
    }
    if keys_resolve(a, a_keys) {
        lemma_same_members(a, a_keys, b, b_keys, at, back, 256);
    }
}

proof fn lemma_keys_resolve_alike(
    a: Seq<(Seq<char>, JsonModel)>,
    a_keys: KeysModel,
    b: Seq<(Seq<char>, JsonModel)>,
    b_keys: KeysModel,
    back: Seq<int>,
)
    requires
        alike(b, b_keys, a, a_keys, back),
        keys_resolve(a, a_keys),
    ensures
        keys_resolve(b, b_keys),
{
    assert forall|i: int| 0 <= i < b.len() implies resolve(b_keys, (#[trigger] b[i]).0) is Some by {
        assert(resolve(a_keys, a[back[i]].0) is Some);
    }
    assert forall|i: int, j: int| 0 <= i < j < b.len() implies tag_of(
        b_keys,
        (#[trigger] b[i]).0,
    ) != tag_of(b_keys, (#[trigger] b[j]).0) by {
        let x = back[i];
        let y = back[j];
        if x < y {
            assert(tag_of(a_keys, a[x].0) != tag_of(a_keys, a[y].0));
        } else {
            assert(tag_of(a_keys, a[y].0) != tag_of(a_keys, a[x].0));
        }
    }
}

proof fn lemma_same_members(
    a: Seq<(Seq<char>, JsonModel)>,
    a_keys: KeysModel,
    b: Seq<(Seq<char>, JsonModel)>,
    b_keys: KeysModel,
    at: Seq<int>,
    back: Seq<int>,
    t: nat,
)
    requires
        alike(a, a_keys, b, b_keys, at),
        alike(b, b_keys, a, a_keys, back),
        keys_resolve(a, a_keys),
        keys_resolve(b, b_keys),
    ensures
        members_below(a, a_keys, t) == members_below(b, b_keys, t),
    decreases t,
{
    if t > 0 {
        let below = (t - 1) as nat;
        lemma_same_members(a, a_keys, b, b_keys, at, back, below);
        if exists|i: int| entry_for(a, a_keys, below, i) {
            let i = choose|i: int| entry_for(a, a_keys, below, i);
            let like = at[i];
            assert(entry_for(b, b_keys, below, like));
            let j = choose|j: int| entry_for(b, b_keys, below, j);
            assert(entry_for(b, b_keys, below, j));
            if like < j {
                assert(tag_of(b_keys, b[like].0) != tag_of(b_keys, b[j].0));
            } else if j < like {
                assert(tag_of(b_keys, b[j].0) != tag_of(b_keys, b[like].0));
            }
        } else {
            assert forall|j: int| !entry_for(b, b_keys, below, j) by {
                if entry_for(b, b_keys, below, j) {
                    assert(entry_for(a, a_keys, below, back[j]));
                }
            }
        }
    }
}

/// Field names are matched up to ASCII case.
pub proof fn field_names_ignore_case(fields: Seq<Field>, c: Cluster, a: Seq<char>, b: Seq<char>)
    requires
        eq_ignore_case(a, b),
    ensures
        resolve(KeysModel::Named(fields, c), a) == resolve(KeysModel::Named(fields, c), b),
{
    lemma_field_by_name_ignores_case(fields, a, b);
}

proof fn lemma_field_by_name_ignores_case(fields: Seq<Field>, a: Seq<char>, b: Seq<char>)
    requires
        ascii_lower(a) == ascii_lower(b),
    ensures
        field_by_name(fields, a) == field_by_name(fields, b),
    decreases fields.len(),
{
    if fields.len() > 0 {
        lemma_field_by_name_ignores_case(fields.skip(1), a, b);
    }
}

/// Null fits every slot.
pub proof fn null_fits_every_slot(hint: Option<HintModel>)
    ensures
        tlv_of(JsonModel::Null, hint) == Some(TlvModel::Null),
{
    if let Some(h) = hint {
        assert(hinted_tlv(JsonModel::Null, h) == Some(TlvModel::Null));
    } else {
        assert(heuristic_tlv(JsonModel::Null) == Some(TlvModel::Null));
    }
}

/// The width an integer is encoded in does not show in what it reads as.
pub proof fn integer_width_does_not_show(u: u64, s: i64, depth: nat)
    ensures
        json_of(narrow_unsigned(u), depth) == json_of(TlvModel::U64(u), depth),
        u <= u8::MAX ==> json_of(TlvModel::U16(u as u16), depth) == json_of(
            TlvModel::U64(u),
            depth,
        ),
        u <= u16::MAX ==> json_of(TlvModel::U32(u as u32), depth) == json_of(
            TlvModel::U64(u),
            depth,
        ),
        json_of(narrow_signed(s), depth) == json_of(TlvModel::S64(s), depth),
        i8::MIN <= s <= i8::MAX ==> json_of(TlvModel::S16(s as i16), depth) == json_of(
            TlvModel::S64(s),
            depth,
        ),
        i16::MIN <= s <= i16::MAX ==> json_of(TlvModel::S32(s as i32), depth) == json_of(
            TlvModel::S64(s),
            depth,
        ),
{
}

/// How many containers deep the deepest element that is read lies.
pub open spec fn nesting(t: TlvModel) -> nat
    decreases t,
{
    match t {
        TlvModel::Struct(ms) => nesting_of(ms, true),
        TlvModel::Array(ms) => nesting_of(ms, false),
        TlvModel::List(ms) => nesting_of(ms, false),
        _ => 0,
    }
}

/// The same of a container's members; in a struct only those with a context tag
/// are read.
pub open spec fn nesting_of(ms: Seq<MemberModel>, context_only: bool) -> nat
    decreases ms,
{
    if ms.len() == 0 {
        0
    } else {
        let before = nesting_of(ms.drop_last(), context_only);
        let last = if context_only && !(ms.last().tag is Context) {
            0
        } else {
            nesting(ms.last().value) + 1
        };
        if before >= last {
            before
        } else {
            last
        }
    }
}

/// Nothing nested deeper than the limit is read: the walk gives up with an error
/// instead of recursing further.
pub proof fn nesting_is_bounded(t: TlvModel, depth: nat)
    requires
        json_of(t, depth) is Ok,
    ensures
        depth + nesting(t) <= MAX_DEPTH,
    decreases t, 1nat,
{
    match t {
        TlvModel::Struct(ms) => lemma_struct_nesting(ms, depth + 1),
        TlvModel::Array(ms) => lemma_array_nesting(ms, depth + 1),
        TlvModel::List(ms) => lemma_array_nesting(ms, depth + 1),
        _ => {},
    }
}

proof fn lemma_struct_nesting(ms: Seq<MemberModel>, depth: nat)
    requires
        1 <= depth <= MAX_DEPTH + 1,
        tagged_entries(ms, depth) is Ok,
    ensures
        depth + nesting_of(ms, true) <= MAX_DEPTH + 1,
    decreases ms, 0nat,
{
    if ms.len() > 0 {
        lemma_struct_nesting(ms.drop_last(), depth);
        if ms.last().tag is Context {
            nesting_is_bounded(ms.last().value, depth);
        }
    }
}

proof fn lemma_array_nesting(ms: Seq<MemberModel>, depth: nat)
    requires
        1 <= depth <= MAX_DEPTH + 1,
        items_of(ms, depth) is Ok,
    ensures
        depth + nesting_of(ms, false) <= MAX_DEPTH + 1,
    decreases ms, 0nat,
{
    if ms.len() > 0 {
        lemma_array_nesting(ms.drop_last(), depth);
        nesting_is_bounded(ms.last().value, depth);
    }
}

/// The same limit holds along the named path, where a string or an empty list of
/// structs may sit one level lower.
pub proof fn named_nesting_is_bounded(t: TlvModel, fields: Seq<Field>, c: Cluster, depth: nat)
    requires
        named_json(t, fields, c, depth) is Ok,
    ensures
        depth + nesting(t) <= MAX_DEPTH + 1,
    decreases t, 1nat,
{
    match t {
        TlvModel::Struct(ms) => lemma_named_struct_nesting(ms, fields, c, depth + 1),
        _ => nesting_is_bounded(t, depth),
    }
}

proof fn lemma_named_struct_nesting(ms: Seq<MemberModel>, fields: Seq<Field>, c: Cluster, depth: nat)
    requires
        1 <= depth <= MAX_DEPTH + 1,
        named_entries(ms, fields, c, depth) is Ok,
    ensures
        depth + nesting_of(ms, true) <= MAX_DEPTH + 2,
    decreases ms, 0nat,
{
    if ms.len() > 0 {
        lemma_named_struct_nesting(ms.drop_last(), fields, c, depth);
        if let TagModel::Context(n) = ms.last().tag {
            match field_by_code(fields, n as nat) {
                Some(f) => lemma_field_nesting(ms.last().value, f.ty@, c, depth),
                None => nesting_is_bounded(ms.last().value, depth),
            }
        }
    }
}

proof fn lemma_field_nesting(t: TlvModel, ty: Seq<char>, c: Cluster, depth: nat)
    requires
        1 <= depth <= MAX_DEPTH + 1,
        field_json(t, ty, c, depth) is Ok,
    ensures
        depth + nesting(t) <= MAX_DEPTH + 1,
    decreases t, 2nat,
{
    if !(t is Utf8) {
        match struct_by_name(c.structs@, ty) {
            None => nesting_is_bounded(t, depth),
            Some(nested) => match t {
                TlvModel::Struct(_) => named_nesting_is_bounded(t, nested.fields@, c, depth),
                TlvModel::Array(ms) => lemma_named_array_nesting(ms, nested.fields@, c, depth + 1),
                TlvModel::List(ms) => lemma_named_array_nesting(ms, nested.fields@, c, depth + 1),
                _ => nesting_is_bounded(t, depth),
            },
        }
    }
}

proof fn lemma_named_array_nesting(ms: Seq<MemberModel>, fields: Seq<Field>, c: Cluster, depth: nat)
    requires
        1 <= depth <= MAX_DEPTH + 2,
        named_items(ms, fields, c, depth) is Ok,
    ensures
        depth + nesting_of(ms, false) <= MAX_DEPTH + 2,
    decreases ms, 0nat,
{
    if ms.len() > 0 {
        lemma_named_array_nesting(ms.drop_last(), fields, c, depth);
        named_nesting_is_bounded(ms.last().value, fields, c, depth);
    }
}

/// Only an attribute that is itself a timestamp is moved to the Unix epoch: what
/// stands inside a struct or a list passes through as it is, and so does a value
/// of an attribute the tables do not know.
pub proof fn nested_timestamps_pass_through(
    clusters: Seq<Cluster>,
    cluster: nat,
    attr: nat,
    t: TlvModel,
)
    requires
        t is Struct || t is Array || t is List || (match cluster_by_id(clusters, cluster) {
            None => true,
            Some(c) => attr_by_code(c.attrs@, attr) is None,
        }),
    ensures
        attr_json(clusters, cluster, attr, t) == json_of(t, 0),
{
    if !(t is Struct || t is Array || t is List) {
        reveal_strlit("epoch_s");
        reveal_strlit("epoch_us");
        assert(attr_type(clusters, cluster, attr).len() == 0);
        assert(ascii_lower(attr_type(clusters, cluster, attr)).len() == 0);
    }
}

/// A timestamp that was moved to the Unix epoch moves back to where it came
/// from.
pub proof fn epoch_shift_is_undone(n: u64, unix: JsonModel)
    requires
        shift_to_unix(JsonModel::Number(Number::PosInt(n)), MATTER_EPOCH_OFFSET_US) == Ok::<
            JsonModel,
            crate::error::SdkErrorModel,
        >(unix),
    ensures
        base_tlv(unix, Base::EpochUs) == Some(narrow_unsigned(n)),
        n <= u32::MAX ==> shift_to_unix(
            JsonModel::Number(Number::PosInt(n)),
            MATTER_EPOCH_OFFSET_S,
        ) is Ok && base_tlv(
            shift_to_unix(
                JsonModel::Number(Number::PosInt(n)),
                MATTER_EPOCH_OFFSET_S,
            )->Ok_0,
            Base::EpochS,
        ) == Some(narrow_unsigned(n)),
{
}

} // verus!
