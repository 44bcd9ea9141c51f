//! What writing a value promises: which values fit a slot, and as what they are
//! written.

use crate::base_types::{base_of, Base};
use crate::codec::base64_text;
use crate::idl::{field_by_code, field_by_name, struct_by_name, Cluster, Command, Field};
use crate::json::{JsonModel, Number};
use crate::ops::interact::{attr_hint, command_args};
use crate::text::parse_unsigned;
use crate::tlv::{MemberModel, TagModel, TlvModel};
use crate::tlv_write::{
    base_tlv, entry_for, entry_of, heuristic_tlv, hinted_tlv, item_members, keys_resolve,
    members_below, nested_keys, resolve, slot_of, struct_members, tag_of, tlv_of,
    HintModel, KeysModel,
};
use vstd::arithmetic::power::pow;
use vstd::prelude::*;
use vstd::utf8::encode_utf8;

verus! {

/// The number an unsigned element holds.
pub open spec fn unsigned_value(t: TlvModel) -> Option<int> {
    match t {
        TlvModel::U8(v) => Some(v as int),
        TlvModel::U16(v) => Some(v as int),
        TlvModel::U32(v) => Some(v as int),
        TlvModel::U64(v) => Some(v as int),
        _ => None,
    }
}

/// The number a signed element holds.
pub open spec fn signed_value(t: TlvModel) -> Option<int> {
    match t {
        TlvModel::S8(v) => Some(v as int),
        TlvModel::S16(v) => Some(v as int),
        TlvModel::S32(v) => Some(v as int),
        TlvModel::S64(v) => Some(v as int),
        _ => None,
    }
}

/// An unsigned element of this number, and of no more bytes than it takes.
pub open spec fn holds_unsigned(t: TlvModel, n: int) -> bool {
    &&& unsigned_value(t) == Some(n)
    &&& t is U16 ==> n >= 0x100
    &&& t is U32 ==> n >= 0x1_0000
    &&& t is U64 ==> n >= 0x1_0000_0000
}

/// A signed element of this number, and of no more bytes than it takes.
pub open spec fn holds_signed(t: TlvModel, n: int) -> bool {
    &&& signed_value(t) == Some(n)
    &&& t is S16 ==> !(-0x80 <= n < 0x80)
    &&& t is S32 ==> !(-0x8000 <= n < 0x8000)
    &&& t is S64 ==> !(-0x8000_0000 <= n < 0x8000_0000)
}

/// A slot for one value of base type.
pub open spec fn is_base_slot(h: HintModel, base: Base) -> bool {
    !h.is_list && base_of(h.ty) == Some(base)
}

/// Every boolean is written to a boolean slot as it is, and nothing else is.
pub proof fn booleans_are_written(h: HintModel, b: bool, v: JsonModel)
    requires
        is_base_slot(h, Base::Bool),
    ensures
        tlv_of(JsonModel::Bool(b), Some(h)) == Some(TlvModel::Bool(b)),
        !(v is Bool) && !(v is Null) ==> tlv_of(v, Some(h)) is None,
{
    assert(tlv_of(JsonModel::Bool(b), Some(h)) == hinted_tlv(JsonModel::Bool(b), h));
    assert(tlv_of(v, Some(h)) == hinted_tlv(v, h));
}

proof fn lemma_powers(width: nat)
    requires
        1 <= width <= 8,
    ensures
        pow(256, 1) == 0x100,
        pow(256, 2) == 0x1_0000,
        pow(256, 3) == 0x100_0000,
        pow(256, 4) == 0x1_0000_0000,
        pow(256, 5) == 0x100_0000_0000,
        pow(256, 6) == 0x1_0000_0000_0000,
        pow(256, 7) == 0x100_0000_0000_0000,
        pow(256, 8) == 0x1_0000_0000_0000_0000,
{
    reveal(pow);
    assert(pow(256, 0) == 1);
    assert(pow(256, 1) == 256 * pow(256, 0));
    assert(pow(256, 2) == 256 * pow(256, 1));
    assert(pow(256, 3) == 256 * pow(256, 2));
    assert(pow(256, 4) == 256 * pow(256, 3));
    assert(pow(256, 5) == 256 * pow(256, 4));
    assert(pow(256, 6) == 256 * pow(256, 5));
    assert(pow(256, 7) == 256 * pow(256, 6));
    assert(pow(256, 8) == 256 * pow(256, 7));
}

/// An unsigned slot of so many bytes takes exactly the non-negative integers that
/// fit in them, each as an unsigned element that holds it; and nothing else but
/// null.
pub proof fn unsigned_integers_are_written(h: HintModel, width: u8, n: u64, v: JsonModel)
    requires
        is_base_slot(h, Base::Unsigned(width)),
        1 <= width <= 8,
    ensures
        ({
            let written = tlv_of(JsonModel::Number(Number::PosInt(n)), Some(h));
            &&& written is Some <==> n < pow(256, width as nat)
            &&& written is Some ==> holds_unsigned(written->0, n as int)
        }),
        !(v matches JsonModel::Number(Number::PosInt(_))) && !(v is Null) ==> tlv_of(
            v,
            Some(h),
        ) is None,
{
    lemma_powers(width as nat);
    let p = JsonModel::Number(Number::PosInt(n));
    assert(tlv_of(p, Some(h)) == hinted_tlv(p, h));
    assert(hinted_tlv(p, h) == base_tlv(p, Base::Unsigned(width)));
    assert(tlv_of(v, Some(h)) == hinted_tlv(v, h));
}

/// A signed slot of so many bytes takes exactly the integers that fit in them in
/// two's complement, each as a signed element that holds it; and nothing else but
/// null.
pub proof fn signed_integers_are_written(h: HintModel, width: u8, n: u64, i: i64, v: JsonModel)
    requires
        is_base_slot(h, Base::Signed(width)),
        1 <= width <= 8,
    ensures
        ({
            let written = tlv_of(JsonModel::Number(Number::PosInt(n)), Some(h));
            &&& written is Some <==> 2 * n < pow(256, width as nat)
            &&& written is Some ==> holds_signed(written->0, n as int)
        }),
        ({
            let written = tlv_of(JsonModel::Number(Number::NegInt(i)), Some(h));
            &&& written is Some <==> -pow(256, width as nat) <= 2 * i < pow(256, width as nat)
            &&& written is Some ==> holds_signed(written->0, i as int)
        }),
        (v !is Number || v matches JsonModel::Number(Number::Float(_))) && !(v is Null) ==> tlv_of(
            v,
            Some(h),
        ) is None,
{
    lemma_powers(width as nat);
    let p = JsonModel::Number(Number::PosInt(n));
    let q = JsonModel::Number(Number::NegInt(i));
    assert(tlv_of(p, Some(h)) == hinted_tlv(p, h));
    assert(tlv_of(q, Some(h)) == hinted_tlv(q, h));
    assert(hinted_tlv(p, h) == base_tlv(p, Base::Signed(width)));
    assert(hinted_tlv(q, h) == base_tlv(q, Base::Signed(width)));
    assert(tlv_of(v, Some(h)) == hinted_tlv(v, h));
}

/// Every text is written to a string slot, as its UTF-8 bytes, and every base64
/// text of bytes to an octet slot, as those bytes; and nothing else but null.
pub proof fn texts_are_written(h: HintModel, o: HintModel, s: Seq<char>, bytes: Seq<u8>, v: JsonModel)
    requires
        is_base_slot(h, Base::Utf8),
        is_base_slot(o, Base::Octets),
    ensures
        tlv_of(JsonModel::Text(s), Some(h)) == Some(TlvModel::Utf8(encode_utf8(s))),
        ({
            let written = tlv_of(JsonModel::Text(s), Some(o));
            match written {
                Some(t) => t is Octets && base64_text(t->Octets_0) == s,
                None => base64_text(bytes) != s,
            }
        }),
        !(v is Text) && !(v is Null) ==> tlv_of(v, Some(h)) is None && tlv_of(v, Some(o)) is None,
{
    let t = JsonModel::Text(s);
    assert(tlv_of(t, Some(h)) == hinted_tlv(t, h));
    assert(tlv_of(t, Some(o)) == hinted_tlv(t, o));
    assert(tlv_of(v, Some(h)) == hinted_tlv(v, h));
    assert(tlv_of(v, Some(o)) == hinted_tlv(v, o));
}

/// A timestamp is written as the time since 2000-01-01: seconds that fit in 32 bits
/// after that, and microseconds without a limit of their own; and nothing else but
/// null.
pub proof fn timestamps_are_written(h: HintModel, m: HintModel, n: u64, v: JsonModel)
    requires
        is_base_slot(h, Base::EpochS),
        is_base_slot(m, Base::EpochUs),
    ensures
        ({
            let written = tlv_of(JsonModel::Number(Number::PosInt(n)), Some(h));
            &&& written is Some <==> 946_684_800 <= n < 946_684_800 + 0x1_0000_0000
            &&& written is Some ==> holds_unsigned(written->0, n - 946_684_800)
        }),
        ({
            let written = tlv_of(JsonModel::Number(Number::PosInt(n)), Some(m));
            &&& written is Some <==> 946_684_800_000_000 <= n
            &&& written is Some ==> holds_unsigned(written->0, n - 946_684_800_000_000)
        }),
        !(v matches JsonModel::Number(Number::PosInt(_))) && !(v is Null) ==> tlv_of(
            v,
            Some(h),
        ) is None && tlv_of(v, Some(m)) is None,
{
    let p = JsonModel::Number(Number::PosInt(n));
    assert(tlv_of(p, Some(h)) == hinted_tlv(p, h));
    assert(tlv_of(p, Some(m)) == hinted_tlv(p, m));
    assert(tlv_of(v, Some(h)) == hinted_tlv(v, h));
    assert(tlv_of(v, Some(m)) == hinted_tlv(v, m));
}

/// Every number is written to a double slot, and to a single slot every number
/// that does not round to infinity there: an integer always, and a floating-point
/// number with the given exponent and fraction where it is below the largest
/// binary32 number and half a step more; and nothing else but null.
pub proof fn floats_are_written(
    h: HintModel,
    d: HintModel,
    n: Number,
    sign: u64,
    exponent: u64,
    fraction: u64,
    v: JsonModel,
)
    requires
        is_base_slot(h, Base::Single),
        is_base_slot(d, Base::Double),
        sign <= 1,
        exponent < 2048,
        fraction < 0x10_0000_0000_0000,
    ensures
        tlv_of(JsonModel::Number(n), Some(d)) == Some(TlvModel::Double(n)),
        !(n is Float) ==> tlv_of(JsonModel::Number(n), Some(h)) == Some(TlvModel::Single(n)),
        n == Number::Float(
            (sign * 0x8000_0000_0000_0000 + exponent * 0x10_0000_0000_0000 + fraction) as u64,
        ) ==> tlv_of(JsonModel::Number(n), Some(h)) == if exponent < 1023 + 127 || (exponent == 1023
            + 127 && fraction < 0x10_0000_0000_0000 - 0x1000_0000) {
            Some(TlvModel::Single(n))
        } else {
            None
        },
        !(v is Number) && !(v is Null) ==> tlv_of(v, Some(h)) is None && tlv_of(v, Some(d)) is None,
{
    let p = JsonModel::Number(n);
    assert(tlv_of(p, Some(h)) == hinted_tlv(p, h));
    assert(tlv_of(p, Some(d)) == hinted_tlv(p, d));
    assert(hinted_tlv(p, h) == base_tlv(p, Base::Single));
    assert(hinted_tlv(p, d) == base_tlv(p, Base::Double));
    assert(tlv_of(v, Some(h)) == hinted_tlv(v, h));
    assert(tlv_of(v, Some(d)) == hinted_tlv(v, d));
}

/// A value in a slot the tables do not know, or whose type is neither a base type
/// nor a struct of the cluster, is written by its shape alone: every boolean, text
/// and number is.
pub proof fn shapes_decide_without_a_type(h: HintModel, v: JsonModel, b: bool, n: u64, i: i64)
    requires
        !h.is_list,
        base_of(h.ty) is None,
        h.cluster is None || struct_by_name(h.cluster->0.structs@, h.ty) is None,
    ensures
        tlv_of(v, Some(h)) == tlv_of(v, None),
        tlv_of(JsonModel::Bool(b), None) == Some(TlvModel::Bool(b)),
        v is Text ==> tlv_of(v, None) == Some(TlvModel::Utf8(encode_utf8(v->Text_0))),
        tlv_of(JsonModel::Number(Number::PosInt(n)), None) is Some,
        holds_unsigned(tlv_of(JsonModel::Number(Number::PosInt(n)), None)->0, n as int),
        tlv_of(JsonModel::Number(Number::NegInt(i)), None) is Some,
        holds_signed(tlv_of(JsonModel::Number(Number::NegInt(i)), None)->0, i as int),
        tlv_of(JsonModel::Number(Number::Float(n)), None) == Some(
            TlvModel::Double(Number::Float(n)),
        ),
{
    assert(tlv_of(v, Some(h)) == hinted_tlv(v, h));
    assert(tlv_of(v, None) == heuristic_tlv(v));
    let (t, p, q, f) = (
        JsonModel::Bool(b),
        JsonModel::Number(Number::PosInt(n)),
        JsonModel::Number(Number::NegInt(i)),
        JsonModel::Number(Number::Float(n)),
    );
    assert(tlv_of(t, None) == heuristic_tlv(t));
    assert(tlv_of(p, None) == heuristic_tlv(p));
    assert(tlv_of(q, None) == heuristic_tlv(q));
    assert(tlv_of(f, None) == heuristic_tlv(f));
}

/// Whether these are the elements of an array: each item in its place, without a
/// tag, as it is written to the given slot.
pub open spec fn are_items(
    ms: Seq<MemberModel>,
    items: Seq<JsonModel>,
    hint: Option<HintModel>,
) -> bool {
    &&& ms.len() == items.len()
    &&& forall|i: int|
        0 <= i < items.len() ==> (#[trigger] ms[i]).tag == TagModel::Anonymous && tlv_of(
            items[i],
            hint,
        ) == Some(ms[i].value)
}

proof fn lemma_items(items: Seq<JsonModel>, hint: Option<HintModel>)
    ensures
        item_members(items, hint) is Some <==> forall|i: int|
            0 <= i < items.len() ==> tlv_of(#[trigger] items[i], hint) is Some,
        item_members(items, hint) is Some ==> are_items(
            item_members(items, hint)->0,
            items,
            hint,
        ),
    decreases items.len(),
{
    if items.len() > 0 {
        let rest = items.drop_last();
        lemma_items(rest, hint);
        if item_members(items, hint) is Some {
            let ms = item_members(items, hint)->0;
            let before = item_members(rest, hint)->0;
            assert forall|i: int| 0 <= i < items.len() implies tlv_of(
                #[trigger] items[i],
                hint,
            ) is Some by {
                if i < rest.len() {
                    assert(rest[i] == items[i]);
                }
            }
            assert forall|i: int| 0 <= i < items.len() implies (#[trigger] ms[i]).tag
                == TagModel::Anonymous && tlv_of(items[i], hint) == Some(ms[i].value) by {
                if i < rest.len() {
                    assert(ms[i] == before[i]);
                    assert(rest[i] == items[i]);
                }
            }
        } else if forall|i: int|
            0 <= i < items.len() ==> tlv_of(#[trigger] items[i], hint) is Some {
            assert forall|i: int| 0 <= i < rest.len() implies tlv_of(
                #[trigger] rest[i],
                hint,
            ) is Some by {
                assert(rest[i] == items[i]);
            }
            assert(tlv_of(items[items.len() - 1], hint) is Some);
        }
    }
}

/// A list slot takes an array exactly where every item fits the slot of one item,
/// and writes them all in their order; it takes nothing but arrays and null. An
/// array in a slot the tables do not know goes the same way.
pub proof fn lists_are_written(h: HintModel, items: Seq<JsonModel>, v: JsonModel)
    requires
        h.is_list,
    ensures
        ({
            let item = Some(HintModel { ty: h.ty, is_list: false, cluster: h.cluster });
            match tlv_of(JsonModel::Array(items), Some(h)) {
                Some(t) => t is Array && are_items(t->Array_0, items, item),
                None => !(forall|i: int|
                    0 <= i < items.len() ==> tlv_of(#[trigger] items[i], item) is Some),
            }
        }),
        match tlv_of(JsonModel::Array(items), None) {
            Some(t) => t is Array && are_items(t->Array_0, items, None),
            None => !(forall|i: int|
                0 <= i < items.len() ==> tlv_of(#[trigger] items[i], None) is Some),
        },
        !(v is Array) && !(v is Null) ==> tlv_of(v, Some(h)) is None,
{
    let item = Some(HintModel { ty: h.ty, is_list: false, cluster: h.cluster });
    lemma_items(items, item);
    lemma_items(items, None);
    let a = JsonModel::Array(items);
    assert(tlv_of(a, None) == heuristic_tlv(a));
}

proof fn lemma_members_accept(entries: Seq<(Seq<char>, JsonModel)>, keys: KeysModel, t: nat)
    requires
        t <= 256,
        keys_resolve(entries, keys),
    ensures
        members_below(entries, keys, t) is Some <==> forall|i: int|
            0 <= i < entries.len() && tag_of(keys, (#[trigger] entries[i]).0) < t ==> tlv_of(
                entries[i].1,
                slot_of(keys, entries[i].0),
            ) is Some,
    decreases t,
{
    if t > 0 {
        let below = (t - 1) as nat;
        lemma_members_accept(entries, keys, below);
        match entry_of(entries, keys, below) {
            None => {
                assert forall|i: int| 0 <= i < entries.len() && tag_of(
                    keys,
                    (#[trigger] entries[i]).0,
                ) < t implies tag_of(keys, entries[i].0) < below by {
                    if tag_of(keys, entries[i].0) == below {
                        assert(entry_for(entries, keys, below, i));
                    }
                }
            },
            Some(e) => {
                assert(entry_for(entries, keys, below, e));
                if members_below(entries, keys, t) is Some {
                    assert forall|i: int| 0 <= i < entries.len() && tag_of(
                        keys,
                        (#[trigger] entries[i]).0,
                    ) < t implies tlv_of(entries[i].1, slot_of(keys, entries[i].0)) is Some by {
                        if tag_of(keys, entries[i].0) == below {
                            if i < e {
                                assert(tag_of(keys, entries[i].0) != tag_of(keys, entries[e].0));
                            } else if e < i {
                                assert(tag_of(keys, entries[e].0) != tag_of(keys, entries[i].0));
                            }
                        }
                    }
                } else if forall|i: int|
                    0 <= i < entries.len() && tag_of(keys, (#[trigger] entries[i]).0) < t
                        ==> tlv_of(entries[i].1, slot_of(keys, entries[i].0)) is Some {
                    assert forall|i: int| 0 <= i < entries.len() && tag_of(
                        keys,
                        (#[trigger] entries[i]).0,
                    ) < below implies tlv_of(
                        entries[i].1,
                        slot_of(keys, entries[i].0),
                    ) is Some by {
                        assert(tag_of(keys, entries[i].0) < t);
                    }
                    assert(tag_of(keys, entries[e].0) < t);
                }
            },
        }
    }
}

/// An object is written exactly where its keys stand for different tags and every
/// value fits the slot of its key.
pub proof fn fitting_objects_are_written(entries: Seq<(Seq<char>, JsonModel)>, keys: KeysModel)
    ensures
        struct_members(entries, keys) is Some <==> {
            &&& forall|i: int|
                0 <= i < entries.len() ==> resolve(keys, (#[trigger] entries[i]).0) is Some
            &&& forall|i: int, j: int|
                0 <= i < j < entries.len() ==> (resolve(keys, (#[trigger] entries[i]).0)->0).0
                    != (resolve(keys, (#[trigger] entries[j]).0)->0).0
            &&& forall|i: int|
                0 <= i < entries.len() ==> tlv_of(
                    (#[trigger] entries[i]).1,
                    (resolve(keys, entries[i].0)->0).1,
                ) is Some
        },
{
    let resolved = forall|i: int|
        0 <= i < entries.len() ==> resolve(keys, (#[trigger] entries[i]).0) is Some;
    if resolved {
        assert forall|i: int| 0 <= i < entries.len() implies tag_of(
            keys,
            (#[trigger] entries[i]).0,
        ) == (resolve(keys, entries[i].0)->0).0 && slot_of(keys, entries[i].0) == (resolve(
            keys,
            entries[i].0,
        )->0).1 && tag_of(keys, entries[i].0) < 256 by {
            assert(resolve(keys, entries[i].0) is Some);
        }
    }
    if keys_resolve(entries, keys) {
        lemma_members_accept(entries, keys, 256);
    }
}

/// Keys that are numbers stand for the tag of that number, and for the slot of the
/// field with it, if there is one; keys that are names, up to ASCII case, for the
/// tag and the slot of the field of that name.
pub proof fn keys_stand_for_their_field(
    fields: Seq<Field>,
    c: Cluster,
    key: Seq<char>,
    f: Field,
)
    ensures
        match parse_unsigned(key, 255) {
            None => resolve(KeysModel::Tagged(None), key) is None && resolve(
                KeysModel::Tagged(Some((fields, c))),
                key,
            ) is None,
            Some(n) => {
                &&& resolve(KeysModel::Tagged(None), key) == Some((n as u8, None::<HintModel>))
                &&& field_by_code(fields, n) is None ==> resolve(
                    KeysModel::Tagged(Some((fields, c))),
                    key,
                ) == Some((n as u8, None::<HintModel>))
                &&& field_by_code(fields, n) == Some(f) ==> resolve(
                    KeysModel::Tagged(Some((fields, c))),
                    key,
                ) == Some(
                    (
                        n as u8,
                        Some(HintModel { ty: f.ty@, is_list: f.is_list, cluster: Some(c) }),
                    ),
                )
            },
        },
        field_by_name(fields, key) == Some(f) && f.code < 256 ==> resolve(
            KeysModel::Named(fields, c),
            key,
        ) == Some(
            (
                f.code as u8,
                Some(HintModel { ty: f.ty@, is_list: f.is_list, cluster: Some(c) }),
            ),
        ),
        field_by_name(fields, key) == Some(f) && f.code >= 256 ==> resolve(
            KeysModel::Named(fields, c),
            key,
        ) is None,
        field_by_name(fields, key) is None ==> resolve(KeysModel::Named(fields, c), key) is None,
{
}

/// A struct slot takes an object as the members of that struct: by tag where every
/// key is a tag, and by name otherwise. It takes nothing but objects and null.
pub proof fn structs_are_written_by_tag_or_by_name(
    h: HintModel,
    c: Cluster,
    fields: Seq<Field>,
    entries: Seq<(Seq<char>, JsonModel)>,
    v: JsonModel,
)
    requires
        !h.is_list,
        base_of(h.ty) is None,
        h.cluster == Some(c),
        struct_by_name(c.structs@, h.ty) is Some,
        struct_by_name(c.structs@, h.ty)->0.fields@ == fields,
    ensures
        ({
            let written = tlv_of(JsonModel::Object(entries), Some(h));
            let by_tag = struct_members(entries, KeysModel::Tagged(Some((fields, c))));
            let by_name = struct_members(entries, KeysModel::Named(fields, c));
            let tags = forall|i: int|
                0 <= i < entries.len() ==> parse_unsigned((#[trigger] entries[i]).0, 255) is Some;
            &&& written is Some <==> if tags {
                by_tag is Some
            } else {
                by_name is Some
            }
            &&& written is Some ==> written->0 is Struct && written->0->Struct_0 == if tags {
                by_tag->0
            } else {
                by_name->0
            }
        }),
        !(v is Object) && !(v is Null) ==> tlv_of(v, Some(h)) is None,
        match tlv_of(JsonModel::Object(entries), None) {
            Some(t) => t is Struct && struct_members(entries, KeysModel::Tagged(None)) == Some(
                t->Struct_0,
            ),
            None => struct_members(entries, KeysModel::Tagged(None)) is None,
        },
{
    let o = JsonModel::Object(entries);
    assert(tlv_of(o, Some(h)) == hinted_tlv(o, h));
    assert(tlv_of(v, Some(h)) == hinted_tlv(v, h));
    assert(tlv_of(o, None) == heuristic_tlv(o));
    assert(nested_keys(entries, fields, c) == if forall|i: int|
        0 <= i < entries.len() ==> parse_unsigned((#[trigger] entries[i]).0, 255) is Some {
        KeysModel::Tagged(Some((fields, c)))
    } else {
        KeysModel::Named(fields, c)
    });
}

/// The arguments of a command are the members of its request struct, under its
/// field names; null asks for none, as an empty object does. A command without a
/// request struct takes any object, and an empty struct is sent. Anything but an
/// object or null is refused.
pub proof fn command_arguments_are_named(
    c: Cluster,
    cmd: Command,
    entries: Seq<(Seq<char>, JsonModel)>,
    v: JsonModel,
)
    ensures
        command_args(c, cmd, JsonModel::Null) == command_args(
            c,
            cmd,
            JsonModel::Object(Seq::empty()),
        ),
        !(v is Object) && !(v is Null) ==> command_args(c, cmd, v) is None,
        cmd.input is None || struct_by_name(c.structs@, cmd.input->0@) is None ==> command_args(
            c,
            cmd,
            JsonModel::Object(entries),
        ) == Some(TlvModel::Struct(Seq::empty())),
        cmd.input is Some && struct_by_name(c.structs@, cmd.input->0@) is Some ==> {
            let members = struct_members(
                entries,
                KeysModel::Named(struct_by_name(c.structs@, cmd.input->0@)->0.fields@, c),
            );
            match command_args(c, cmd, JsonModel::Object(entries)) {
                Some(t) => t is Struct && members == Some(t->Struct_0),
                None => members is None,
            }
        },
{
}

/// The slot of an attribute is the one the tables give it, with its cluster's
/// structs; an attribute they do not know has none.
pub proof fn attribute_slots_are_the_tables(
    clusters: Seq<Cluster>,
    cluster: u32,
    attribute: u32,
)
    ensures
        match crate::idl::cluster_by_id(clusters, cluster as nat) {
            None => attr_hint(clusters, cluster, attribute) is None,
            Some(c) => match crate::idl::attr_by_code(c.attrs@, attribute as nat) {
                None => attr_hint(clusters, cluster, attribute) is None,
                Some(a) => {
                    let h = attr_hint(clusters, cluster, attribute);
                    h is Some && h->0.ty == a.ty@ && h->0.is_list == a.is_list && h->0.cluster
                        == Some(c)
                },
            },
        },
{
}

} // verus!
