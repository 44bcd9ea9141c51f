//! TLV to JSON and back, in the two shapes the wire uses: tag-based objects
//! (attribute values: decimal tag keys) and name-based objects (command
//! responses and event data: field names from the cluster tables).
//!
//! Octet strings are base64 on the JSON side. Epoch fields count from 1970 on
//! the JSON side and from 2000 in TLV, so both directions shift them.

use crate::base_types::{base_of, base_type, Base};
use crate::codec::{base64_encode, base64_text, utf8_lossy, utf8_text};
use crate::error::{invalid, invalid_data, SdkError, SdkErrorModel};
use crate::idl::{
    attr_by_code, cluster_by_id, field_by_code, find_cluster, find_field, struct_by_name, Cluster,
    Field,
};
use crate::json::{
    entry_models, item_models, number_of, put, put_entry, Json, JsonModel, Number,
};
use crate::text::{decimal, decimal_string};
use crate::tlv::{member_models, MemberModel, Tag, TagModel, Tlv, TlvModel};
use vstd::prelude::*;

verus! {

/// Seconds from 1970-01-01 to 2000-01-01.
pub const MATTER_EPOCH_OFFSET_S: u64 = 946_684_800;

/// Microseconds from 1970-01-01 to 2000-01-01.
pub const MATTER_EPOCH_OFFSET_US: u64 = 946_684_800_000_000;

/// Nesting the read side accepts before giving up.
pub const MAX_DEPTH: u8 = 32;

pub type Reading = Result<JsonModel, SdkErrorModel>;

pub open spec fn reading(r: Result<Json, SdkError>) -> Reading {
    match r {
        Ok(v) => Ok(v@),
        Err(e) => Err(e@),
    }
}

/// A floating-point element reads as a number, or as null when it is not
/// finite.
pub open spec fn float_json(n: Number) -> JsonModel {
    if n.finite() {
        JsonModel::Number(n)
    } else {
        JsonModel::Null
    }
}

/// What an element nested `depth` containers deep reads as.
pub open spec fn json_of(t: TlvModel, depth: nat) -> Reading
    decreases t,
{
    if depth > MAX_DEPTH {
        Err(invalid_data())
    } else {
        match t {
            TlvModel::S8(v) => Ok(JsonModel::Number(number_of(v as int))),
            TlvModel::S16(v) => Ok(JsonModel::Number(number_of(v as int))),
            TlvModel::S32(v) => Ok(JsonModel::Number(number_of(v as int))),
            TlvModel::S64(v) => Ok(JsonModel::Number(number_of(v as int))),
            TlvModel::U8(v) => Ok(JsonModel::Number(number_of(v as int))),
            TlvModel::U16(v) => Ok(JsonModel::Number(number_of(v as int))),
            TlvModel::U32(v) => Ok(JsonModel::Number(number_of(v as int))),
            TlvModel::U64(v) => Ok(JsonModel::Number(number_of(v as int))),
            TlvModel::Bool(b) => Ok(JsonModel::Bool(b)),
            TlvModel::Single(n) => Ok(float_json(n)),
            TlvModel::Double(n) => Ok(float_json(n)),
            TlvModel::Utf8(b) => Ok(JsonModel::Text(utf8_text(b))),
            TlvModel::Octets(b) => Ok(JsonModel::Text(base64_text(b))),
            TlvModel::Null => Ok(JsonModel::Null),
            TlvModel::Struct(ms) => match tagged_entries(ms, depth + 1) {
                Ok(entries) => Ok(JsonModel::Object(entries)),
                Err(e) => Err(e),
            },
            TlvModel::Array(ms) => match items_of(ms, depth + 1) {
                Ok(items) => Ok(JsonModel::Array(items)),
                Err(e) => Err(e),
            },
            TlvModel::List(ms) => match items_of(ms, depth + 1) {
                Ok(items) => Ok(JsonModel::Array(items)),
                Err(e) => Err(e),
            },
            TlvModel::EndOfContainer => Err(invalid_data()),
            TlvModel::Malformed(e) => Err(e),
        }
    }
}

/// The object a struct's members read as, keyed by decimal context tag. Members
/// without a context tag are skipped; the first failure decides.
pub open spec fn tagged_entries(ms: Seq<MemberModel>, depth: nat) -> Result<
    Seq<(Seq<char>, JsonModel)>,
    SdkErrorModel,
>
    decreases ms,
{
    if ms.len() == 0 {
        Ok(Seq::empty())
    } else {
        match tagged_entries(ms.drop_last(), depth) {
            Err(e) => Err(e),
            Ok(entries) => match ms.last().tag {
                TagModel::Unreadable(e) => Err(e),
                TagModel::Context(n) => match json_of(ms.last().value, depth) {
                    Err(e) => Err(e),
                    Ok(v) => Ok(put_entry(entries, decimal(n as nat), v)),
                },
                _ => Ok(entries),
            },
        }
    }
}

/// The values an array's elements read as; the first failure decides.
pub open spec fn items_of(ms: Seq<MemberModel>, depth: nat) -> Result<
    Seq<JsonModel>,
    SdkErrorModel,
>
    decreases ms,
{
    if ms.len() == 0 {
        Ok(Seq::empty())
    } else {
        match items_of(ms.drop_last(), depth) {
            Err(e) => Err(e),
            Ok(items) => match ms.last().tag {
                TagModel::Unreadable(e) => Err(e),
                _ => match json_of(ms.last().value, depth) {
                    Err(e) => Err(e),
                    Ok(v) => Ok(items.push(v)),
                },
            },
        }
    }
}

/// Reads an element as tag-based JSON.
pub fn tlv_to_json(elem: &Tlv) -> (res: Result<Json, SdkError>)
    ensures
        reading(res) == json_of(elem@, 0),
{
    tlv_to_json_at(elem, 0)
}

fn tlv_to_json_at(elem: &Tlv, depth: u8) -> (res: Result<Json, SdkError>)
    requires
        depth < 100,
    ensures
        reading(res) == json_of(elem@, depth as nat),
    decreases elem,
{
    if depth > MAX_DEPTH {
        return Err(invalid());
    }
    match elem {
        Tlv::S8(v) => Ok(Json::Number(Number::from_i64(*v as i64))),
        Tlv::S16(v) => Ok(Json::Number(Number::from_i64(*v as i64))),
        Tlv::S32(v) => Ok(Json::Number(Number::from_i64(*v as i64))),
        Tlv::S64(v) => Ok(Json::Number(Number::from_i64(*v))),
        Tlv::U8(v) => Ok(Json::Number(Number::PosInt(*v as u64))),
        Tlv::U16(v) => Ok(Json::Number(Number::PosInt(*v as u64))),
        Tlv::U32(v) => Ok(Json::Number(Number::PosInt(*v as u64))),
        Tlv::U64(v) => Ok(Json::Number(Number::PosInt(*v))),
        Tlv::Bool(b) => Ok(Json::Bool(*b)),
        Tlv::Single(n) | Tlv::Double(n) => if n.is_finite() {
            Ok(Json::Number(*n))
        } else {
            Ok(Json::Null)
        },
        Tlv::Utf8(b) => Ok(Json::Text(utf8_lossy(b))),
        Tlv::Octets(b) => Ok(Json::Text(base64_encode(b))),
        Tlv::Null => Ok(Json::Null),
        Tlv::Struct(ms) => {
            let mut entries: Vec<(String, Json)> = Vec::new();
            let ghost models = member_models(ms@);
            let mut i: usize = 0;
            assert(models.take(0) =~= Seq::empty());
            assert(entry_models(entries@) =~= Seq::empty());
            while i < ms.len()
                invariant
                    depth <= MAX_DEPTH,
                    i <= ms@.len(),
                    models == member_models(ms@),
                    elem@ == TlvModel::Struct(models),
                    *elem == Tlv::Struct(*ms),
                    tagged_entries(models.take(i as int), (depth + 1) as nat) == Ok::<
                        Seq<(Seq<char>, JsonModel)>,
                        SdkErrorModel,
                    >(entry_models(entries@)),
                decreases ms.len() - i,
            {
                proof {
                    lemma_entries_prefix(models, i as int, (depth + 1) as nat);
                    assert(models[i as int] == ms@[i as int]@);
                }
                match &ms[i].tag {
                    Tag::Unreadable(e) => {
                        return Err(e.duplicate());
                    },
                    Tag::Context(n) => match tlv_to_json_at(&ms[i].value, depth + 1) {
                        Err(e) => {
                            return Err(e);
                        },
                        Ok(v) => {
                            put(&mut entries, decimal_string(*n as u64), v);
                        },
                    },
                    _ => {},
                }
                i += 1;
            }
            assert(models.take(models.len() as int) =~= models);
            Ok(Json::Object(entries))
        },
        Tlv::Array(ms) | Tlv::List(ms) => {
            let mut items: Vec<Json> = Vec::new();
            let ghost models = member_models(ms@);
            let mut i: usize = 0;
            assert(models.take(0) =~= Seq::empty());
            assert(item_models(items@) =~= Seq::empty());
            while i < ms.len()
                invariant
                    depth <= MAX_DEPTH,
                    i <= ms@.len(),
                    models == member_models(ms@),
                    elem@ == TlvModel::Array(models) || elem@ == TlvModel::List(models),
                    *elem == Tlv::Array(*ms) || *elem == Tlv::List(*ms),
                    items_of(models.take(i as int), (depth + 1) as nat) == Ok::<
                        Seq<JsonModel>,
                        SdkErrorModel,
                    >(item_models(items@)),
                decreases ms.len() - i,
            {
                proof {
                    lemma_items_prefix(models, i as int, (depth + 1) as nat);
                    assert(models[i as int] == ms@[i as int]@);
                }
                if let Tag::Unreadable(e) = &ms[i].tag {
                    return Err(e.duplicate());
                }
                match tlv_to_json_at(&ms[i].value, depth + 1) {
                    Err(e) => {
                        return Err(e);
                    },
                    Ok(v) => {
                        let ghost before = item_models(items@);
                        items.push(v);
                        assert(item_models(items@) =~= before.push(v@));
                    },
                }
                i += 1;
            }
            assert(models.take(models.len() as int) =~= models);
            Ok(Json::Array(items))
        },
        Tlv::EndOfContainer => Err(invalid()),
        Tlv::Malformed(e) => Err(e.duplicate()),
    }
}

/// A failure among the first members is the failure of the whole struct, and
/// one more member is one more step.
proof fn lemma_entries_prefix(ms: Seq<MemberModel>, i: int, depth: nat)
    requires
        0 <= i < ms.len(),
    ensures
        ms.take(i + 1).drop_last() == ms.take(i),
        ms.take(i + 1).last() == ms[i],
        tagged_entries(ms.take(i + 1), depth) is Err ==> tagged_entries(ms, depth)
            == tagged_entries(ms.take(i + 1), depth),
    decreases ms.len() - i,
{
    assert(ms.take(i + 1).drop_last() =~= ms.take(i));
    if i + 1 == ms.len() {
        assert(ms.take(i + 1) =~= ms);
    } else {
        lemma_entries_prefix(ms, i + 1, depth);
    }
}

proof fn lemma_items_prefix(ms: Seq<MemberModel>, i: int, depth: nat)
    requires
        0 <= i < ms.len(),
    ensures
        ms.take(i + 1).drop_last() == ms.take(i),
        ms.take(i + 1).last() == ms[i],
        items_of(ms.take(i + 1), depth) is Err ==> items_of(ms, depth) == items_of(
            ms.take(i + 1),
            depth,
        ),
    decreases ms.len() - i,
{
    assert(ms.take(i + 1).drop_last() =~= ms.take(i));
    if i + 1 == ms.len() {
        assert(ms.take(i + 1) =~= ms);
    } else {
        lemma_items_prefix(ms, i + 1, depth);
    }
}

/// A timestamp moved from the Matter epoch to the Unix epoch. Anything but an
/// unsigned integer passes through; a sum that does not fit is an error.
pub open spec fn shift_to_unix(v: JsonModel, offset: u64) -> Reading {
    match v.unsigned() {
        None => Ok(v),
        Some(n) => if n + offset <= u64::MAX {
            Ok(JsonModel::Number(Number::PosInt((n + offset) as u64)))
        } else {
            Err(invalid_data())
        },
    }
}

/// A value of type `ty` as JSON carries it: epoch types count from 1970.
pub open spec fn unix_value(ty: Seq<char>, v: JsonModel) -> Reading {
    match base_of(ty) {
        Some(Base::EpochS) => shift_to_unix(v, MATTER_EPOCH_OFFSET_S),
        Some(Base::EpochUs) => shift_to_unix(v, MATTER_EPOCH_OFFSET_US),
        _ => Ok(v),
    }
}

/// Moves an epoch value from the Matter epoch to the Unix epoch.
pub fn apply_epoch(ty: &str, v: Json) -> (res: Result<Json, SdkError>)
    ensures
        reading(res) == unix_value(ty@, v@),
{
    let offset: u64 = match base_type(ty) {
        Some(Base::EpochS) => MATTER_EPOCH_OFFSET_S,
        Some(Base::EpochUs) => MATTER_EPOCH_OFFSET_US,
        _ => {
            return Ok(v);
        },
    };
    match v.as_u64() {
        None => Ok(v),
        Some(n) => match n.checked_add(offset) {
            Some(unix) => Ok(Json::Number(Number::PosInt(unix))),
            None => Err(invalid()),
        },
    }
}

/// The type name of an attribute, empty when the tables do not know it.
pub open spec fn attr_type(clusters: Seq<Cluster>, cluster: nat, attr: nat) -> Seq<char> {
    match cluster_by_id(clusters, cluster) {
        None => Seq::empty(),
        Some(c) => match attr_by_code(c.attrs@, attr) {
            None => Seq::empty(),
            Some(a) => a.ty@,
        },
    }
}

/// What an attribute value reads as: tag-based at every depth, and moved to the
/// Unix epoch at the top level alone.
pub open spec fn attr_json(clusters: Seq<Cluster>, cluster: nat, attr: nat, t: TlvModel) -> Reading {
    match json_of(t, 0) {
        Err(e) => Err(e),
        Ok(v) => unix_value(attr_type(clusters, cluster, attr), v),
    }
}

/// Reads an attribute value.
pub fn attr_value_to_json(clusters: &Vec<Cluster>, cluster: u32, attr: u32, elem: &Tlv) -> (res:
    Result<Json, SdkError>)
    ensures
        reading(res) == attr_json(clusters@, cluster as nat, attr as nat, elem@),
{
    let v = match tlv_to_json(elem) {
        Ok(v) => v,
        Err(e) => {
            return Err(e);
        },
    };
    proof {
        reveal_strlit("");
        assert(""@ =~= Seq::empty());
        no_base_without_a_name();
    }
    match find_cluster(clusters, cluster) {
        None => Ok(v),
        Some(c) => match c.attr(attr) {
            None => Ok(v),
            Some(a) => apply_epoch(a.ty.as_str(), v),
        },
    }
}

/// The empty name is no epoch type.
proof fn no_base_without_a_name()
    ensures
        base_of(Seq::empty()) != Some(Base::EpochS),
        base_of(Seq::empty()) != Some(Base::EpochUs),
{
    reveal_strlit("epoch_s");
    reveal_strlit("epoch_us");
    assert(crate::text::ascii_lower(Seq::empty()).len() == 0);
    assert("epoch_s"@.len() == 7);
    assert("epoch_us"@.len() == 8);
}

/// What a struct described by `fields` reads as, nested `depth` containers deep.
/// Only structs have fields to name; anything else reads tag-based.
pub open spec fn named_json(t: TlvModel, fields: Seq<Field>, c: Cluster, depth: nat) -> Reading
    decreases t, 1nat,
{
    if depth > MAX_DEPTH {
        Err(invalid_data())
    } else {
        match t {
            TlvModel::Struct(ms) => match named_entries(ms, fields, c, depth + 1) {
                Ok(entries) => Ok(JsonModel::Object(entries)),
                Err(e) => Err(e),
            },
            _ => json_of(t, depth),
        }
    }
}

/// The object a struct's members read as: a known field under its name, an
/// unknown one under its decimal tag.
pub open spec fn named_entries(ms: Seq<MemberModel>, fields: Seq<Field>, c: Cluster, depth: nat) -> Result<
    Seq<(Seq<char>, JsonModel)>,
    SdkErrorModel,
>
    decreases ms, 0nat,
{
    if ms.len() == 0 {
        Ok(Seq::empty())
    } else {
        match named_entries(ms.drop_last(), fields, c, depth) {
            Err(e) => Err(e),
            Ok(entries) => match ms.last().tag {
                TagModel::Unreadable(e) => Err(e),
                TagModel::Context(n) => match field_by_code(fields, n as nat) {
                    Some(f) => match field_json(ms.last().value, f.ty@, c, depth) {
                        Err(e) => Err(e),
                        Ok(v) => Ok(put_entry(entries, f.name@, v)),
                    },
                    None => match json_of(ms.last().value, depth) {
                        Err(e) => Err(e),
                        Ok(v) => Ok(put_entry(entries, decimal(n as nat), v)),
                    },
                },
                _ => Ok(entries),
            },
        }
    }
}

/// The values a list of structs reads as.
pub open spec fn named_items(ms: Seq<MemberModel>, fields: Seq<Field>, c: Cluster, depth: nat) -> Result<
    Seq<JsonModel>,
    SdkErrorModel,
>
    decreases ms, 0nat,
{
    if ms.len() == 0 {
        Ok(Seq::empty())
    } else {
        match named_items(ms.drop_last(), fields, c, depth) {
            Err(e) => Err(e),
            Ok(items) => match ms.last().tag {
                TagModel::Unreadable(e) => Err(e),
                _ => match named_json(ms.last().value, fields, c, depth) {
                    Err(e) => Err(e),
                    Ok(v) => Ok(items.push(v)),
                },
            },
        }
    }
}

/// What the value of a field of type `ty` reads as: a struct type is named in
/// turn, and an epoch type is moved to the Unix epoch. A string reads, and an
/// unreadable element fails with its own error, however deep it lies.
pub open spec fn field_json(t: TlvModel, ty: Seq<char>, c: Cluster, depth: nat) -> Reading
    decreases t, 2nat,
{
    match t {
        TlvModel::Utf8(b) => Ok(JsonModel::Text(utf8_text(b))),
        TlvModel::Malformed(e) => Err(e),
        _ => match struct_by_name(c.structs@, ty) {
            None => match json_of(t, depth) {
                Err(e) => Err(e),
                Ok(v) => unix_value(ty, v),
            },
            Some(nested) => match t {
                TlvModel::Struct(_) => named_json(t, nested.fields@, c, depth),
                TlvModel::Array(ms) => match named_items(ms, nested.fields@, c, depth + 1) {
                    Ok(items) => Ok(JsonModel::Array(items)),
                    Err(e) => Err(e),
                },
                TlvModel::List(ms) => match named_items(ms, nested.fields@, c, depth + 1) {
                    Ok(items) => Ok(JsonModel::Array(items)),
                    Err(e) => Err(e),
                },
                _ => json_of(t, depth),
            },
        },
    }
}

/// Reads an element as name-based JSON.
pub fn tlv_to_json_named(elem: &Tlv, fields: &Vec<Field>, cluster: &Cluster) -> (res: Result<
    Json,
    SdkError,
>)
    ensures
        reading(res) == named_json(elem@, fields@, *cluster, 0),
{
    tlv_to_json_named_at(elem, fields, cluster, 0)
}

fn tlv_to_json_named_at(elem: &Tlv, fields: &Vec<Field>, cluster: &Cluster, depth: u8) -> (res:
    Result<Json, SdkError>)
    requires
        depth < 100,
    ensures
        reading(res) == named_json(elem@, fields@, *cluster, depth as nat),
    decreases elem, 1nat,
{
    if depth > MAX_DEPTH {
        return Err(invalid());
    }
    match elem {
        Tlv::Struct(ms) => {
            let mut entries: Vec<(String, Json)> = Vec::new();
            let ghost models = member_models(ms@);
            let mut i: usize = 0;
            assert(models.take(0) =~= Seq::empty());
            assert(entry_models(entries@) =~= Seq::empty());
            while i < ms.len()
                invariant
                    depth <= MAX_DEPTH,
                    i <= ms@.len(),
                    models == member_models(ms@),
                    elem@ == TlvModel::Struct(models),
                    *elem == Tlv::Struct(*ms),
                    named_entries(models.take(i as int), fields@, *cluster, (depth + 1) as nat)
                        == Ok::<Seq<(Seq<char>, JsonModel)>, SdkErrorModel>(
                        entry_models(entries@),
                    ),
                decreases ms.len() - i,
            {
                proof {
                    lemma_named_entries_prefix(
                        models,
                        i as int,
                        fields@,
                        *cluster,
                        (depth + 1) as nat,
                    );
                    assert(models[i as int] == ms@[i as int]@);
                }
                match &ms[i].tag {
                    Tag::Unreadable(e) => {
                        return Err(e.duplicate());
                    },
                    Tag::Context(n) => match find_field(fields, *n as u32) {
                        Some(f) => match named_field_to_json(&ms[i].value, f, cluster, depth + 1) {
                            Err(e) => {
                                return Err(e);
                            },
                            Ok(v) => {
                                put(&mut entries, f.name.clone(), v);
                            },
                        },
                        None => match tlv_to_json_at(&ms[i].value, depth + 1) {
                            Err(e) => {
                                return Err(e);
                            },
                            Ok(v) => {
                                put(&mut entries, decimal_string(*n as u64), v);
                            },
                        },
                    },
                    _ => {},
                }
                i += 1;
            }
            assert(models.take(models.len() as int) =~= models);
            Ok(Json::Object(entries))
        },
        _ => tlv_to_json_at(elem, depth),
    }
}

fn named_field_to_json(elem: &Tlv, f: &Field, cluster: &Cluster, depth: u8) -> (res: Result<
    Json,
    SdkError,
>)
    requires
        depth < 99,
    ensures
        reading(res) == field_json(elem@, f.ty@, *cluster, depth as nat),
    decreases elem, 2nat,
{
    if let Tlv::Utf8(b) = elem {
        return Ok(Json::Text(utf8_lossy(b)));
    }
    if let Tlv::Malformed(e) = elem {
        return Err(e.duplicate());
    }
    let nested = match cluster.find_struct(f.ty.as_str()) {
        None => {
            return match tlv_to_json_at(elem, depth) {
                Err(e) => Err(e),
                Ok(v) => apply_epoch(f.ty.as_str(), v),
            };
        },
        Some(nested) => nested,
    };
    match elem {
        Tlv::Struct(_) => tlv_to_json_named_at(elem, &nested.fields, cluster, depth),
        Tlv::Array(ms) | Tlv::List(ms) => {
            let mut items: Vec<Json> = Vec::new();
            let ghost models = member_models(ms@);
            let mut i: usize = 0;
            assert(models.take(0) =~= Seq::empty());
            assert(item_models(items@) =~= Seq::empty());
            while i < ms.len()
                invariant
                    depth < 99,
                    i <= ms@.len(),
                    models == member_models(ms@),
                    elem@ == TlvModel::Array(models) || elem@ == TlvModel::List(models),
                    *elem == Tlv::Array(*ms) || *elem == Tlv::List(*ms),
                    struct_by_name(cluster.structs@, f.ty@) == Some(*nested),
                    named_items(
                        models.take(i as int),
                        nested.fields@,
                        *cluster,
                        (depth + 1) as nat,
                    ) == Ok::<Seq<JsonModel>, SdkErrorModel>(item_models(items@)),
                decreases ms.len() - i,
            {
                proof {
                    lemma_named_items_prefix(
                        models,
                        i as int,
                        nested.fields@,
                        *cluster,
                        (depth + 1) as nat,
                    );
                    assert(models[i as int] == ms@[i as int]@);
                }
                if let Tag::Unreadable(e) = &ms[i].tag {
                    return Err(e.duplicate());
                }
                match tlv_to_json_named_at(&ms[i].value, &nested.fields, cluster, depth + 1) {
                    Err(e) => {
                        return Err(e);
                    },
                    Ok(v) => {
                        let ghost before = item_models(items@);
                        items.push(v);
                        assert(item_models(items@) =~= before.push(v@));
                    },
                }
                i += 1;
            }
            assert(models.take(models.len() as int) =~= models);
            Ok(Json::Array(items))
        },
        _ => tlv_to_json_at(elem, depth),
    }
}

proof fn lemma_named_entries_prefix(
    ms: Seq<MemberModel>,
    i: int,
    fields: Seq<Field>,
    c: Cluster,
    depth: nat,
)
    requires
        0 <= i < ms.len(),
    ensures
        ms.take(i + 1).drop_last() == ms.take(i),
        ms.take(i + 1).last() == ms[i],
        named_entries(ms.take(i + 1), fields, c, depth) is Err ==> named_entries(
            ms,
            fields,
            c,
            depth,
        ) == named_entries(ms.take(i + 1), fields, c, depth),
    decreases ms.len() - i,
{
    assert(ms.take(i + 1).drop_last() =~= ms.take(i));
    if i + 1 == ms.len() {
        assert(ms.take(i + 1) =~= ms);
    } else {
        lemma_named_entries_prefix(ms, i + 1, fields, c, depth);
    }
}

proof fn lemma_named_items_prefix(
    ms: Seq<MemberModel>,
    i: int,
    fields: Seq<Field>,
    c: Cluster,
    depth: nat,
)
    requires
        0 <= i < ms.len(),
    ensures
        ms.take(i + 1).drop_last() == ms.take(i),
        ms.take(i + 1).last() == ms[i],
        named_items(ms.take(i + 1), fields, c, depth) is Err ==> named_items(ms, fields, c, depth)
            == named_items(ms.take(i + 1), fields, c, depth),
    decreases ms.len() - i,
{
    assert(ms.take(i + 1).drop_last() =~= ms.take(i));
    if i + 1 == ms.len() {
        assert(ms.take(i + 1) =~= ms);
    } else {
        lemma_named_items_prefix(ms, i + 1, fields, c, depth);
    }
}

} // verus!
