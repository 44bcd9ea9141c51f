//! What reading an element promises: as what its value shows, and under which key.

use crate::base_types::{base_of, Base};
use crate::codec::{base64_text, lossy_text, utf8_text};
use crate::error::{ErrorCode, SdkErrorModel};
use crate::idl::{attr_by_code, cluster_by_id, field_by_code, struct_by_name, Cluster, Field};
use crate::json::{lookup, put_then_lookup, JsonModel, Number};
use crate::ops::interact::attr_hint;
use crate::text::{decimal, decimal_injective, parse_unsigned};
use crate::tlv::{MemberModel, TagModel, TlvModel};
use crate::tlv_json::{
    attr_json, field_json, items_of, json_of, named_entries, named_items, named_json,
    tagged_entries, unix_value, Reading,
};
use crate::tlv_laws::{
    base_conforms, base_value_is_read_back, canonical_tag, member_of, members_are_the_entries,
    members_ascend, plain, same_json, written_is_read_back,
};
use crate::tlv_write::{
    base_tlv, heuristic_tlv, hinted_tlv, slot_of, struct_members, tag_of, tlv_of, HintModel,
    KeysModel,
};
use crate::write_laws::{lists_are_written, structs_are_written_by_tag_or_by_name};
use vstd::prelude::*;
use vstd::utf8::{decode_utf8, valid_utf8};

verus! {

/// An integer as a JSON number of its value.
pub open spec fn is_integer(v: Reading, n: int) -> bool {
    match v {
        Ok(JsonModel::Number(Number::PosInt(u))) => u == n,
        Ok(JsonModel::Number(Number::NegInt(i))) => i == n && i < 0,
        _ => false,
    }
}

/// An integer element reads as the number it holds, whatever its width and sign.
pub proof fn integers_read_as_their_value(
    depth: nat,
    a: u8,
    b: u16,
    c: u32,
    d: u64,
    e: i8,
    f: i16,
    g: i32,
    h: i64,
)
    requires
        depth <= 32,
    ensures
        is_integer(json_of(TlvModel::U8(a), depth), a as int),
        is_integer(json_of(TlvModel::U16(b), depth), b as int),
        is_integer(json_of(TlvModel::U32(c), depth), c as int),
        is_integer(json_of(TlvModel::U64(d), depth), d as int),
        is_integer(json_of(TlvModel::S8(e), depth), e as int),
        is_integer(json_of(TlvModel::S16(f), depth), f as int),
        is_integer(json_of(TlvModel::S32(g), depth), g as int),
        is_integer(json_of(TlvModel::S64(h), depth), h as int),
{
}

/// A boolean reads as itself, null as null, octets as their base64 text, and a
/// string as the text its bytes are, as far as they are well-formed.
pub proof fn values_read_as_themselves(depth: nat, b: bool, bytes: Seq<u8>)
    requires
        depth <= 32,
    ensures
        json_of(TlvModel::Bool(b), depth) == Ok::<JsonModel, SdkErrorModel>(JsonModel::Bool(b)),
        json_of(TlvModel::Null, depth) == Ok::<JsonModel, SdkErrorModel>(JsonModel::Null),
        json_of(TlvModel::Octets(bytes), depth) == Ok::<JsonModel, SdkErrorModel>(
            JsonModel::Text(base64_text(bytes)),
        ),
        valid_utf8(bytes) ==> json_of(TlvModel::Utf8(bytes), depth) == Ok::<
            JsonModel,
            SdkErrorModel,
        >(JsonModel::Text(decode_utf8(bytes))),
        !valid_utf8(bytes) ==> json_of(TlvModel::Utf8(bytes), depth) == Ok::<
            JsonModel,
            SdkErrorModel,
        >(JsonModel::Text(lossy_text(bytes))),
{
}

/// A floating-point element reads as its number, and as null exactly where its
/// exponent is that of infinities and NaNs.
pub proof fn floats_read_as_their_number(
    depth: nat,
    sign: u64,
    exponent: u64,
    fraction: u64,
    n: Number,
)
    requires
        depth <= 32,
        sign <= 1,
        exponent < 2048,
        fraction < 0x10_0000_0000_0000,
        n is Float ==> n->Float_0 == sign * 0x8000_0000_0000_0000 + exponent * 0x10_0000_0000_0000
            + fraction,
    ensures
        json_of(TlvModel::Single(n), depth) == json_of(TlvModel::Double(n), depth),
        json_of(TlvModel::Double(n), depth) == Ok::<JsonModel, SdkErrorModel>(
            if n is Float && exponent == 2047 {
                JsonModel::Null
            } else {
                JsonModel::Number(n)
            },
        ),
{
}

/// What is nested too deep, or is no value at all, is an error for invalid data;
/// an element that could not be read fails with its own error.
pub proof fn unreadable_elements_fail(t: TlvModel, depth: nat, e: SdkErrorModel)
    ensures
        depth > 32 ==> json_of(t, depth) is Err && json_of(t, depth)->Err_0.code
            == ErrorCode::InvalidData,
        json_of(TlvModel::EndOfContainer, depth) is Err,
        json_of(TlvModel::EndOfContainer, depth)->Err_0.code == ErrorCode::InvalidData,
        depth <= 32 ==> json_of(TlvModel::Malformed(e), depth) == Err::<JsonModel, SdkErrorModel>(e),
{
}

/// Whether a member can be read: it has a readable tag, and a value that reads, if
/// its tag is one that counts.
pub open spec fn readable(m: MemberModel, depth: nat) -> bool {
    &&& m.tag !is Unreadable
    &&& m.tag is Context ==> json_of(m.value, depth) is Ok
}

proof fn lemma_tagged(ms: Seq<MemberModel>, depth: nat)
    ensures
        tagged_entries(ms, depth) is Ok <==> forall|i: int|
            0 <= i < ms.len() ==> readable(#[trigger] ms[i], depth),
        tagged_entries(ms, depth) is Ok ==> forall|i: int|
            0 <= i < ms.len() && (#[trigger] ms[i]).tag is Context && (forall|j: int|
                i < j < ms.len() ==> (#[trigger] ms[j]).tag != ms[i].tag) ==> lookup(
                tagged_entries(ms, depth)->Ok_0,
                decimal(ms[i].tag->Context_0 as nat),
            ) == Some(json_of(ms[i].value, depth)->Ok_0),
        tagged_entries(ms, depth) is Ok ==> forall|key: Seq<char>| #[trigger]
            lookup(tagged_entries(ms, depth)->Ok_0, key) is Some ==> exists|i: int|
                0 <= i < ms.len() && (#[trigger] ms[i]).tag is Context && key == decimal(
                    ms[i].tag->Context_0 as nat,
                ),
    decreases ms.len(),
{
    if ms.len() > 0 {
        let rest = ms.drop_last();
        let n = ms.len() - 1;
        lemma_tagged(rest, depth);
        assert forall|i: int| 0 <= i < n implies rest[i] == ms[i] by {}
        if tagged_entries(ms, depth) is Ok {
            let before = tagged_entries(rest, depth)->Ok_0;
            let after = tagged_entries(ms, depth)->Ok_0;
            assert forall|i: int| 0 <= i < ms.len() implies readable(#[trigger] ms[i], depth) by {
                if i < n {
                    assert(readable(rest[i], depth));
                }
            }
            assert forall|i: int|
                0 <= i < ms.len() && (#[trigger] ms[i]).tag is Context && (forall|j: int|
                    i < j < ms.len() ==> (#[trigger] ms[j]).tag != ms[i].tag) implies lookup(
                after,
                decimal(ms[i].tag->Context_0 as nat),
            ) == Some(json_of(ms[i].value, depth)->Ok_0) by {
                let key = decimal(ms[i].tag->Context_0 as nat);
                if let TagModel::Context(m) = ms[n].tag {
                    let w = json_of(ms[n].value, depth)->Ok_0;
                    put_then_lookup(before, decimal(m as nat), w, key);
                    if i < n {
                        assert(ms[n].tag != ms[i].tag);
                        if decimal(m as nat) == key {
                            decimal_injective(m as nat, ms[i].tag->Context_0 as nat);
                        }
                    }
                }
                if i < n {
                    assert(rest[i].tag is Context);
                    assert forall|j: int| i < j < rest.len() implies (#[trigger] rest[j]).tag
                        != rest[i].tag by {
                        assert(ms[j].tag != ms[i].tag);
                    }
                }
            }
            assert forall|key: Seq<char>| #[trigger] lookup(after, key) is Some implies exists|i: int|
                0 <= i < ms.len() && (#[trigger] ms[i]).tag is Context && key == decimal(
                    ms[i].tag->Context_0 as nat,
                ) by {
                if let TagModel::Context(m) = ms[n].tag {
                    let w = json_of(ms[n].value, depth)->Ok_0;
                    put_then_lookup(before, decimal(m as nat), w, key);
                }
                if ms[n].tag is Context && key == decimal(ms[n].tag->Context_0 as nat) {
                } else {
                    assert(lookup(before, key) is Some);
                    let i = choose|i: int|
                        0 <= i < rest.len() && (#[trigger] rest[i]).tag is Context && key
                            == decimal(rest[i].tag->Context_0 as nat);
                    assert(ms[i].tag is Context);
                }
            }
        } else if forall|i: int| 0 <= i < ms.len() ==> readable(#[trigger] ms[i], depth) {
            assert forall|i: int| 0 <= i < rest.len() implies readable(#[trigger] rest[i], depth) by {
                assert(readable(ms[i], depth));
            }
            assert(readable(ms[n], depth));
        }
    } else {
        assert forall|key: Seq<char>| #[trigger] lookup(
            tagged_entries(ms, depth)->Ok_0,
            key,
        ) is None by {
            crate::json::lemma_key_position(tagged_entries(ms, depth)->Ok_0, key);
        }
    }
}

/// A struct reads as an object in which the value of each member with a context tag
/// stands under the decimal form of that tag, the last of several with one tag,
/// and nothing else stands. It reads exactly where all of its members do.
pub proof fn structs_read_by_tag(ms: Seq<MemberModel>, depth: nat)
    requires
        depth <= 32,
    ensures
        json_of(TlvModel::Struct(ms), depth) is Ok <==> forall|i: int|
            0 <= i < ms.len() ==> readable(#[trigger] ms[i], depth + 1),
        json_of(TlvModel::Struct(ms), depth) is Ok ==> json_of(
            TlvModel::Struct(ms),
            depth,
        )->Ok_0 is Object,
        json_of(TlvModel::Struct(ms), depth) is Ok ==> forall|i: int|
            0 <= i < ms.len() && (#[trigger] ms[i]).tag is Context && (forall|j: int|
                i < j < ms.len() ==> (#[trigger] ms[j]).tag != ms[i].tag) ==> lookup(
                json_of(TlvModel::Struct(ms), depth)->Ok_0->Object_0,
                decimal(ms[i].tag->Context_0 as nat),
            ) == Some(json_of(ms[i].value, depth + 1)->Ok_0),
        json_of(TlvModel::Struct(ms), depth) is Ok ==> forall|key: Seq<char>| #[trigger]
            lookup(json_of(TlvModel::Struct(ms), depth)->Ok_0->Object_0, key) is Some
                ==> exists|i: int|
                0 <= i < ms.len() && (#[trigger] ms[i]).tag is Context && key == decimal(
                    ms[i].tag->Context_0 as nat,
                ),
{
    lemma_tagged(ms, depth + 1);
}

proof fn lemma_items_of(ms: Seq<MemberModel>, depth: nat)
    ensures
        items_of(ms, depth) is Ok <==> forall|i: int|
            0 <= i < ms.len() ==> (#[trigger] ms[i]).tag !is Unreadable && json_of(
                ms[i].value,
                depth,
            ) is Ok,
        items_of(ms, depth) is Ok ==> items_of(ms, depth)->Ok_0.len() == ms.len() && forall|i: int|
            0 <= i < ms.len() ==> Ok::<JsonModel, SdkErrorModel>(
                #[trigger] items_of(ms, depth)->Ok_0[i],
            ) == json_of(ms[i].value, depth),
    decreases ms.len(),
{
    if ms.len() > 0 {
        let rest = ms.drop_last();
        lemma_items_of(rest, depth);
        assert forall|i: int| 0 <= i < rest.len() implies rest[i] == ms[i] by {}
        if items_of(ms, depth) is Ok {
            assert forall|i: int| 0 <= i < ms.len() implies (#[trigger] ms[i]).tag !is Unreadable
                && json_of(ms[i].value, depth) is Ok by {
                if i < rest.len() {
                    assert(rest[i].tag !is Unreadable);
                }
            }
            assert forall|i: int| 0 <= i < ms.len() implies Ok::<JsonModel, SdkErrorModel>(
                #[trigger] items_of(ms, depth)->Ok_0[i],
            ) == json_of(ms[i].value, depth) by {
                if i < rest.len() {
                    assert(items_of(ms, depth)->Ok_0[i] == items_of(rest, depth)->Ok_0[i]);
                }
            }
        } else if forall|i: int|
            0 <= i < ms.len() ==> (#[trigger] ms[i]).tag !is Unreadable && json_of(
                ms[i].value,
                depth,
            ) is Ok {
            assert forall|i: int| 0 <= i < rest.len() implies (
            #[trigger] rest[i]).tag !is Unreadable && json_of(rest[i].value, depth) is Ok by {
                assert(ms[i].tag !is Unreadable);
            }
            assert(ms[ms.len() - 1].tag !is Unreadable);
        }
    }
}

/// An array or a list reads as the array of what its elements read as, in their
/// order, whatever their tags. It reads exactly where all of them do.
pub proof fn arrays_read_in_order(ms: Seq<MemberModel>, depth: nat)
    requires
        depth <= 32,
    ensures
        json_of(TlvModel::List(ms), depth) == json_of(TlvModel::Array(ms), depth),
        json_of(TlvModel::Array(ms), depth) is Ok <==> forall|i: int|
            0 <= i < ms.len() ==> (#[trigger] ms[i]).tag !is Unreadable && json_of(
                ms[i].value,
                depth + 1,
            ) is Ok,
        json_of(TlvModel::Array(ms), depth) is Ok ==> {
            let v = json_of(TlvModel::Array(ms), depth)->Ok_0;
            &&& v is Array
            &&& v->Array_0.len() == ms.len()
            &&& forall|i: int|
                0 <= i < ms.len() ==> Ok::<JsonModel, SdkErrorModel>(#[trigger] v->Array_0[i])
                    == json_of(ms[i].value, depth + 1)
        },
{
    lemma_items_of(ms, depth + 1);
}

/// A timestamp is moved from 2000-01-01 to 1970-01-01, seconds or microseconds by
/// its type, and fails where the sum does not fit; a value of any other type, and
/// one that is no unsigned integer, stays as it is.
pub proof fn timestamps_are_moved(ty: Seq<char>, v: JsonModel)
    ensures
        ({
            let offset: int = if base_of(ty) == Some(Base::EpochS) {
                946_684_800
            } else if base_of(ty) == Some(Base::EpochUs) {
                946_684_800_000_000
            } else {
                0
            };
            match v {
                JsonModel::Number(Number::PosInt(n)) => if n + offset < 0x1_0000_0000_0000_0000 {
                    is_integer(unix_value(ty, v), n + offset)
                } else {
                    unix_value(ty, v) is Err && unix_value(ty, v)->Err_0.code
                        == ErrorCode::InvalidData
                },
                _ => unix_value(ty, v) == Ok::<JsonModel, SdkErrorModel>(v),
            }
        }),
{
}

/// An attribute whose type is no timestamp, or that the tables do not know, reads
/// as its element does; one that is a timestamp reads as that moved to 1970.
pub proof fn attributes_read_as_their_element(
    clusters: Seq<Cluster>,
    cluster: nat,
    attr: nat,
    t: TlvModel,
)
    ensures
        match cluster_by_id(clusters, cluster) {
            None => attr_json(clusters, cluster, attr, t) == json_of(t, 0),
            Some(c) => match attr_by_code(c.attrs@, attr) {
                None => attr_json(clusters, cluster, attr, t) == json_of(t, 0),
                Some(a) => {
                    &&& base_of(a.ty@) != Some(Base::EpochS) && base_of(a.ty@) != Some(Base::EpochUs)
                        ==> attr_json(clusters, cluster, attr, t) == json_of(t, 0)
                    &&& json_of(t, 0) is Ok ==> attr_json(clusters, cluster, attr, t) == unix_value(
                        a.ty@,
                        json_of(t, 0)->Ok_0,
                    )
                    &&& json_of(t, 0) is Err ==> attr_json(clusters, cluster, attr, t) == json_of(
                        t,
                        0,
                    )
                },
            },
        },
{
    reveal_strlit("epoch_s");
    reveal_strlit("epoch_us");
    assert(crate::text::ascii_lower(Seq::empty()).len() == 0);
    assert("epoch_s"@.len() == 7);
    assert("epoch_us"@.len() == 8);
}

/// What is written to an attribute of base type is read back from it, and so is a
/// value that needs no table from an attribute of any type the tables do not
/// describe.
pub proof fn attributes_are_read_back(
    clusters: Seq<Cluster>,
    cluster: u32,
    attr: u32,
    v: JsonModel,
    base: Base,
)
    requires
        attr_hint(clusters, cluster, attr) is Some,
        !attr_hint(clusters, cluster, attr)->0.is_list,
        tlv_of(v, attr_hint(clusters, cluster, attr)) is Some,
        v !is Null,
    ensures
        ({
            let h = attr_hint(clusters, cluster, attr)->0;
            let read = attr_json(
                clusters,
                cluster as nat,
                attr as nat,
                tlv_of(v, Some(h))->0,
            );
            &&& base_of(h.ty) == Some(base) && base_conforms(v, base) ==> read == Ok::<
                JsonModel,
                SdkErrorModel,
            >(v)
            &&& base_of(h.ty) is None && struct_by_name(h.cluster->0.structs@, h.ty) is None
                && plain(v, 0) ==> read is Ok && same_json(v, read->Ok_0)
        }),
{
    let h = attr_hint(clusters, cluster, attr)->0;
    assert(tlv_of(v, Some(h)) == hinted_tlv(v, h));
    let t = tlv_of(v, Some(h))->0;
    attributes_read_as_their_element(clusters, cluster as nat, attr as nat, t);
    if base_of(h.ty) == Some(base) && base_conforms(v, base) {
        assert(hinted_tlv(v, h) == base_tlv(v, base));
        base_value_is_read_back(v, h.ty, base, 0);
    }
    if base_of(h.ty) is None && struct_by_name(h.cluster->0.structs@, h.ty) is None && plain(v, 0) {
        assert(hinted_tlv(v, h) == heuristic_tlv(v));
        written_is_read_back(v, 0);
    }
}

/// The key a member is read under: the name of its field, or the decimal form of a
/// tag that no field has.
pub open spec fn member_key(fields: Seq<Field>, n: u8) -> Seq<char> {
    match field_by_code(fields, n as nat) {
        Some(f) => f.name@,
        None => decimal(n as nat),
    }
}

/// What a member is read as: by the type of its field, or by its shape alone.
pub open spec fn member_reading(m: MemberModel, fields: Seq<Field>, c: Cluster, depth: nat) -> Reading {
    match field_by_code(fields, m.tag->Context_0 as nat) {
        Some(f) => field_json(m.value, f.ty@, c, depth),
        None => json_of(m.value, depth),
    }
}

pub open spec fn named_readable(m: MemberModel, fields: Seq<Field>, c: Cluster, depth: nat) -> bool {
    &&& m.tag !is Unreadable
    &&& m.tag is Context ==> member_reading(m, fields, c, depth) is Ok
}

/// Whether a member is the last with its key.
pub open spec fn last_of_its_key(ms: Seq<MemberModel>, fields: Seq<Field>, i: int) -> bool {
    forall|j: int|
        i < j < ms.len() && (#[trigger] ms[j]).tag is Context ==> member_key(
            fields,
            ms[j].tag->Context_0,
        ) != member_key(fields, ms[i].tag->Context_0)
}

proof fn lemma_named(ms: Seq<MemberModel>, fields: Seq<Field>, c: Cluster, depth: nat)
    ensures
        named_entries(ms, fields, c, depth) is Ok <==> forall|i: int|
            0 <= i < ms.len() ==> named_readable(#[trigger] ms[i], fields, c, depth),
        named_entries(ms, fields, c, depth) is Ok ==> forall|i: int|
            0 <= i < ms.len() && (#[trigger] ms[i]).tag is Context && last_of_its_key(ms, fields, i)
                ==> lookup(
                named_entries(ms, fields, c, depth)->Ok_0,
                member_key(fields, ms[i].tag->Context_0),
            ) == Some(member_reading(ms[i], fields, c, depth)->Ok_0),
        named_entries(ms, fields, c, depth) is Ok ==> forall|key: Seq<char>| #[trigger]
            lookup(named_entries(ms, fields, c, depth)->Ok_0, key) is Some ==> exists|i: int|
                0 <= i < ms.len() && (#[trigger] ms[i]).tag is Context && key == member_key(
                    fields,
                    ms[i].tag->Context_0,
                ),
    decreases ms.len(),
{
    if ms.len() > 0 {
        let rest = ms.drop_last();
        let n = ms.len() - 1;
        lemma_named(rest, fields, c, depth);
        assert forall|i: int| 0 <= i < n implies rest[i] == ms[i] by {}
        if named_entries(ms, fields, c, depth) is Ok {
            let before = named_entries(rest, fields, c, depth)->Ok_0;
            let after = named_entries(ms, fields, c, depth)->Ok_0;
            assert forall|i: int| 0 <= i < ms.len() implies named_readable(
                #[trigger] ms[i],
                fields,
                c,
                depth,
            ) by {
                if i < n {
                    assert(named_readable(rest[i], fields, c, depth));
                }
            }
            assert forall|i: int|
                0 <= i < ms.len() && (#[trigger] ms[i]).tag is Context && last_of_its_key(
                    ms,
                    fields,
                    i,
                ) implies lookup(after, member_key(fields, ms[i].tag->Context_0)) == Some(
                member_reading(ms[i], fields, c, depth)->Ok_0,
            ) by {
                let key = member_key(fields, ms[i].tag->Context_0);
                if ms[n].tag is Context {
                    let w = member_reading(ms[n], fields, c, depth)->Ok_0;
                    put_then_lookup(before, member_key(fields, ms[n].tag->Context_0), w, key);
                    assert(i < n ==> member_key(fields, ms[n].tag->Context_0) != key);
                }
                if i < n {
                    assert(rest[i].tag is Context);
                    assert(last_of_its_key(rest, fields, i)) by {
                        assert forall|j: int|
                            i < j < rest.len() && (
                            #[trigger] rest[j]).tag is Context implies member_key(
                            fields,
                            rest[j].tag->Context_0,
                        ) != member_key(fields, rest[i].tag->Context_0) by {
                            assert(ms[j].tag is Context);
                        }
                    }
                }
            }
            assert forall|key: Seq<char>| #[trigger] lookup(after, key) is Some implies exists|i: int|
                0 <= i < ms.len() && (#[trigger] ms[i]).tag is Context && key == member_key(
                    fields,
                    ms[i].tag->Context_0,
                ) by {
                if ms[n].tag is Context {
                    let w = member_reading(ms[n], fields, c, depth)->Ok_0;
                    put_then_lookup(before, member_key(fields, ms[n].tag->Context_0), w, key);
                }
                if ms[n].tag is Context && key == member_key(fields, ms[n].tag->Context_0) {
                } else {
                    assert(lookup(before, key) is Some);
                    let i = choose|i: int|
                        0 <= i < rest.len() && (#[trigger] rest[i]).tag is Context && key
                            == member_key(fields, rest[i].tag->Context_0);
                    assert(ms[i].tag is Context);
                }
            }
        } else if forall|i: int|
            0 <= i < ms.len() ==> named_readable(#[trigger] ms[i], fields, c, depth) {
            assert forall|i: int| 0 <= i < rest.len() implies named_readable(
                #[trigger] rest[i],
                fields,
                c,
                depth,
            ) by {
                assert(named_readable(ms[i], fields, c, depth));
            }
            assert(named_readable(ms[n], fields, c, depth));
        }
    } else {
        assert forall|key: Seq<char>| #[trigger] lookup(
            named_entries(ms, fields, c, depth)->Ok_0,
            key,
        ) is None by {
            crate::json::lemma_key_position(named_entries(ms, fields, c, depth)->Ok_0, key);
        }
    }
}

/// A struct with known fields reads as an object in which each member stands under
/// the name of its field, read by the type of that field, and one that no field
/// has under its tag; nothing else stands. Anything but a struct reads without
/// names.
pub proof fn structs_read_by_name(
    t: TlvModel,
    ms: Seq<MemberModel>,
    fields: Seq<Field>,
    c: Cluster,
    depth: nat,
)
    requires
        depth <= 32,
    ensures
        t !is Struct ==> named_json(t, fields, c, depth) == json_of(t, depth),
        ({
            let read = named_json(TlvModel::Struct(ms), fields, c, depth);
            &&& read is Ok <==> forall|i: int|
                0 <= i < ms.len() ==> named_readable(#[trigger] ms[i], fields, c, depth + 1)
            &&& read is Ok ==> read->Ok_0 is Object
            &&& read is Ok ==> forall|i: int|
                0 <= i < ms.len() && (#[trigger] ms[i]).tag is Context && last_of_its_key(
                    ms,
                    fields,
                    i,
                ) ==> lookup(read->Ok_0->Object_0, member_key(fields, ms[i].tag->Context_0))
                    == Some(member_reading(ms[i], fields, c, depth + 1)->Ok_0)
            &&& read is Ok ==> forall|key: Seq<char>| #[trigger]
                lookup(read->Ok_0->Object_0, key) is Some ==> exists|i: int|
                    0 <= i < ms.len() && (#[trigger] ms[i]).tag is Context && key == member_key(
                        fields,
                        ms[i].tag->Context_0,
                    )
        }),
{
    lemma_named(ms, fields, c, depth + 1);
}

proof fn lemma_named_items(ms: Seq<MemberModel>, fields: Seq<Field>, c: Cluster, depth: nat)
    ensures
        named_items(ms, fields, c, depth) is Ok <==> forall|i: int|
            0 <= i < ms.len() ==> (#[trigger] ms[i]).tag !is Unreadable && named_json(
                ms[i].value,
                fields,
                c,
                depth,
            ) is Ok,
        named_items(ms, fields, c, depth) is Ok ==> named_items(ms, fields, c, depth)->Ok_0.len()
            == ms.len() && forall|i: int|
            0 <= i < ms.len() ==> Ok::<JsonModel, SdkErrorModel>(
                #[trigger] named_items(ms, fields, c, depth)->Ok_0[i],
            ) == named_json(ms[i].value, fields, c, depth),
    decreases ms.len(),
{
    if ms.len() > 0 {
        let rest = ms.drop_last();
        lemma_named_items(rest, fields, c, depth);
        assert forall|i: int| 0 <= i < rest.len() implies rest[i] == ms[i] by {}
        if named_items(ms, fields, c, depth) is Ok {
            assert forall|i: int| 0 <= i < ms.len() implies (#[trigger] ms[i]).tag !is Unreadable
                && named_json(ms[i].value, fields, c, depth) is Ok by {
                if i < rest.len() {
                    assert(rest[i].tag !is Unreadable);
                }
            }
            assert forall|i: int| 0 <= i < ms.len() implies Ok::<JsonModel, SdkErrorModel>(
                #[trigger] named_items(ms, fields, c, depth)->Ok_0[i],
            ) == named_json(ms[i].value, fields, c, depth) by {
                if i < rest.len() {
                    assert(named_items(ms, fields, c, depth)->Ok_0[i] == named_items(
                        rest,
                        fields,
                        c,
                        depth,
                    )->Ok_0[i]);
                }
            }
        } else if forall|i: int|
            0 <= i < ms.len() ==> (#[trigger] ms[i]).tag !is Unreadable && named_json(
                ms[i].value,
                fields,
                c,
                depth,
            ) is Ok {
            assert forall|i: int| 0 <= i < rest.len() implies (
            #[trigger] rest[i]).tag !is Unreadable && named_json(
                rest[i].value,
                fields,
                c,
                depth,
            ) is Ok by {
                assert(ms[i].tag !is Unreadable);
            }
            assert(ms[ms.len() - 1].tag !is Unreadable);
        }
    }
}

/// The value of a field reads by its type. Where that is a struct of the cluster, a
/// struct reads under the names of its fields, and so does every struct of an
/// array, in order. Where it is not, the value reads as its element does, moved to
/// 1970 if it is a timestamp. A string reads, and an element that could not be read
/// fails with its own error, at any depth.
pub proof fn fields_read_by_their_type(
    t: TlvModel,
    ms: Seq<MemberModel>,
    ty: Seq<char>,
    c: Cluster,
    depth: nat,
    bytes: Seq<u8>,
)
    requires
        t !is Utf8,
    ensures
        t is Malformed ==> field_json(t, ty, c, depth) == Err::<JsonModel, SdkErrorModel>(
            t->Malformed_0,
        ),
        field_json(TlvModel::Utf8(bytes), ty, c, depth) == Ok::<JsonModel, SdkErrorModel>(
            JsonModel::Text(utf8_text(bytes)),
        ),
        match struct_by_name(c.structs@, ty) {
            None => t !is Malformed ==> {
                &&& json_of(t, depth) is Ok ==> field_json(t, ty, c, depth) == unix_value(
                    ty,
                    json_of(t, depth)->Ok_0,
                )
                &&& json_of(t, depth) is Err ==> field_json(t, ty, c, depth) == json_of(t, depth)
            },
            Some(nested) => {
                &&& t is Struct ==> field_json(t, ty, c, depth) == named_json(
                    t,
                    nested.fields@,
                    c,
                    depth,
                )
                &&& t !is Struct && t !is Array && t !is List && t !is Malformed ==> field_json(
                    t,
                    ty,
                    c,
                    depth,
                ) == json_of(t, depth)
                &&& field_json(TlvModel::List(ms), ty, c, depth) == field_json(
                    TlvModel::Array(ms),
                    ty,
                    c,
                    depth,
                )
                &&& field_json(TlvModel::Array(ms), ty, c, depth) is Ok <==> forall|i: int|
                    0 <= i < ms.len() ==> (#[trigger] ms[i]).tag !is Unreadable && named_json(
                        ms[i].value,
                        nested.fields@,
                        c,
                        depth + 1,
                    ) is Ok
                &&& field_json(TlvModel::Array(ms), ty, c, depth) is Ok ==> {
                    let v = field_json(TlvModel::Array(ms), ty, c, depth)->Ok_0;
                    &&& v is Array
                    &&& v->Array_0.len() == ms.len()
                    &&& forall|i: int|
                        0 <= i < ms.len() ==> Ok::<JsonModel, SdkErrorModel>(
                            #[trigger] v->Array_0[i],
                        ) == named_json(ms[i].value, nested.fields@, c, depth + 1)
                }
            },
        },
{
    if let Some(nested) = struct_by_name(c.structs@, ty) {
        lemma_named_items(ms, nested.fields@, c, depth + 1);
    }
}

/// A list whose items are read back is read back, item for item, and so is an
/// attribute that is such a list.
pub proof fn lists_are_read_back(
    clusters: Seq<Cluster>,
    cluster: u32,
    attr: u32,
    h: HintModel,
    items: Seq<JsonModel>,
    depth: nat,
)
    requires
        depth <= 32,
        h.is_list,
        tlv_of(JsonModel::Array(items), Some(h)) is Some,
        forall|i: int|
            0 <= i < items.len() ==> json_of(
                tlv_of(
                    #[trigger] items[i],
                    Some(HintModel { ty: h.ty, is_list: false, cluster: h.cluster }),
                )->0,
                depth + 1,
            ) == Ok::<JsonModel, SdkErrorModel>(items[i]),
    ensures
        json_of(tlv_of(JsonModel::Array(items), Some(h))->0, depth) == Ok::<
            JsonModel,
            SdkErrorModel,
        >(JsonModel::Array(items)),
        depth == 0 && attr_hint(clusters, cluster, attr) == Some(h) ==> attr_json(
            clusters,
            cluster as nat,
            attr as nat,
            tlv_of(JsonModel::Array(items), Some(h))->0,
        ) == Ok::<JsonModel, SdkErrorModel>(JsonModel::Array(items)),
{
    let item = Some(HintModel { ty: h.ty, is_list: false, cluster: h.cluster });
    lists_are_written(h, items, JsonModel::Null);
    let t = tlv_of(JsonModel::Array(items), Some(h))->0;
    let ms = t->Array_0;
    arrays_read_in_order(ms, depth);
    assert forall|i: int| 0 <= i < ms.len() implies (#[trigger] ms[i]).tag !is Unreadable
        && json_of(ms[i].value, depth + 1) == Ok::<JsonModel, SdkErrorModel>(items[i]) by {
        assert(tlv_of(items[i], item) == Some(ms[i].value));
    }
    let v = json_of(t, depth)->Ok_0;
    assert forall|i: int| 0 <= i < items.len() implies #[trigger] v->Array_0[i] == items[i] by {
        assert(ms[i].tag !is Unreadable);
    }
    assert(v->Array_0 =~= items);
    attributes_read_as_their_element(clusters, cluster as nat, attr as nat, t);
    if attr_hint(clusters, cluster, attr) == Some(h) {
        timestamps_are_moved(h.ty, v);
    }
}

proof fn lemma_members_are_read_back(
    entries: Seq<(Seq<char>, JsonModel)>,
    keys: KeysModel,
    depth: nat,
)
    requires
        depth <= 32,
        struct_members(entries, keys) is Some,
        forall|i: int|
            0 <= i < entries.len() ==> decimal(tag_of(keys, (#[trigger] entries[i]).0) as nat)
                == entries[i].0 && json_of(
                tlv_of(entries[i].1, slot_of(keys, entries[i].0))->0,
                depth + 1,
            ) == Ok::<JsonModel, SdkErrorModel>(entries[i].1),
    ensures
        ({
            let read = json_of(TlvModel::Struct(struct_members(entries, keys)->0), depth);
            &&& read is Ok
            &&& read->Ok_0 is Object
            &&& forall|i: int|
                0 <= i < entries.len() ==> read->Ok_0.member((#[trigger] entries[i]).0) == Some(
                    entries[i].1,
                )
            &&& forall|key: Seq<char>| #[trigger]
                read->Ok_0.member(key) is Some ==> exists|i: int|
                    0 <= i < entries.len() && (#[trigger] entries[i]).0 == key
        }),
{
    let ms = struct_members(entries, keys)->0;
    members_are_the_entries(entries, keys);
    members_ascend(entries, keys);
    assert forall|k: int| 0 <= k < ms.len() implies readable(#[trigger] ms[k], depth + 1) by {
        let i = choose|i: int|
            0 <= i < entries.len() && member_of(#[trigger] entries[i], keys, ms[k]);
        assert(decimal(tag_of(keys, entries[i].0) as nat) == entries[i].0);
    }
    structs_read_by_tag(ms, depth);
    let read = json_of(TlvModel::Struct(ms), depth)->Ok_0->Object_0;
    assert forall|i: int| 0 <= i < entries.len() implies lookup(read, (#[trigger] entries[i]).0)
        == Some(entries[i].1) by {
        let k = choose|k: int| 0 <= k < ms.len() && member_of(entries[i], keys, #[trigger] ms[k]);
        assert(decimal(tag_of(keys, entries[i].0) as nat) == entries[i].0);
        assert forall|j: int| k < j < ms.len() implies (#[trigger] ms[j]).tag != ms[k].tag by {
            assert(ms[k].tag->Context_0 < ms[j].tag->Context_0);
        }
    }
    assert forall|key: Seq<char>| #[trigger] lookup(read, key) is Some implies exists|i: int|
        0 <= i < entries.len() && (#[trigger] entries[i]).0 == key by {
        let k = choose|k: int|
            0 <= k < ms.len() && (#[trigger] ms[k]).tag is Context && key == decimal(
                ms[k].tag->Context_0 as nat,
            );
        let i = choose|i: int|
            0 <= i < entries.len() && member_of(#[trigger] entries[i], keys, ms[k]);
        assert(decimal(tag_of(keys, entries[i].0) as nat) == entries[i].0);
        assert(entries[i].0 == key);
    }
}

/// A struct written by tag whose members are read back is read back: under every key
/// of it stands its value, and nothing else stands.
pub proof fn tagged_structs_are_read_back(
    h: HintModel,
    c: Cluster,
    fields: Seq<Field>,
    entries: Seq<(Seq<char>, JsonModel)>,
    depth: nat,
)
    requires
        depth <= 32,
        !h.is_list,
        base_of(h.ty) is None,
        h.cluster == Some(c),
        struct_by_name(c.structs@, h.ty) is Some,
        struct_by_name(c.structs@, h.ty)->0.fields@ == fields,
        tlv_of(JsonModel::Object(entries), Some(h)) is Some,
        forall|i: int|
            0 <= i < entries.len() ==> canonical_tag((#[trigger] entries[i]).0) && json_of(
                tlv_of(
                    entries[i].1,
                    slot_of(KeysModel::Tagged(Some((fields, c))), entries[i].0),
                )->0,
                depth + 1,
            ) == Ok::<JsonModel, SdkErrorModel>(entries[i].1),
    ensures
        ({
            let read = json_of(tlv_of(JsonModel::Object(entries), Some(h))->0, depth);
            &&& read is Ok
            &&& read->Ok_0 is Object
            &&& forall|i: int|
                0 <= i < entries.len() ==> read->Ok_0.member((#[trigger] entries[i]).0) == Some(
                    entries[i].1,
                )
            &&& forall|key: Seq<char>| #[trigger]
                read->Ok_0.member(key) is Some ==> exists|i: int|
                    0 <= i < entries.len() && (#[trigger] entries[i]).0 == key
        }),
{
    let keys = KeysModel::Tagged(Some((fields, c)));
    assert forall|i: int| 0 <= i < entries.len() implies parse_unsigned(
        (#[trigger] entries[i]).0,
        255,
    ) is Some && decimal(tag_of(keys, entries[i].0) as nat) == entries[i].0 by {
        assert(canonical_tag(entries[i].0));
    }
    structs_are_written_by_tag_or_by_name(h, c, fields, entries, JsonModel::Null);
    lemma_members_are_read_back(entries, keys, depth);
}

} // verus!
