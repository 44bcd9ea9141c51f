//! JSON to TLV. What the cluster tables know of a slot is passed as a hint;
//! without one the shape of the JSON value decides.
//!
//! Every rejection is the same error: the payload does not have the shape the
//! slot needs.

use crate::base_types::{base_of, base_type, Base};
use crate::codec::{base64_bytes, base64_decode};
use crate::error::{invalid, invalid_data, SdkError, SdkErrorModel};
use crate::idl::{
    field_by_code, field_by_name, find_field, find_field_named, struct_by_name, Cluster, Field,
};
use crate::json::{entry_models, item_models, Json, JsonModel, Number};
use crate::text::{parse_tag, parse_unsigned};
use crate::tlv::{member_models, Member, MemberModel, Tag, TagModel, Tlv, TlvModel};
use crate::tlv_json::{MATTER_EPOCH_OFFSET_S, MATTER_EPOCH_OFFSET_US};
use vstd::prelude::*;
use vstd::utf8::encode_utf8;

verus! {

/// What the tables know about the slot a value is written into: its type name,
/// whether it is a list, and the cluster whose structs resolve the name.
#[derive(Debug, Clone, Copy)]
pub struct TypeHint<'a> {
    pub ty: &'a str,
    pub is_list: bool,
    pub cluster: Option<&'a Cluster>,
}

pub struct HintModel {
    pub ty: Seq<char>,
    pub is_list: bool,
    pub cluster: Option<Cluster>,
}

impl<'a> TypeHint<'a> {
    pub open spec fn view(&self) -> HintModel {
        HintModel {
            ty: self.ty@,
            is_list: self.is_list,
            cluster: match self.cluster {
                Some(c) => Some(*c),
                None => None,
            },
        }
    }
}

pub open spec fn hint_model(h: Option<TypeHint<'_>>) -> Option<HintModel> {
    match h {
        Some(h) => Some(h@),
        None => None,
    }
}

/// The slot of a table field.
pub open spec fn field_hint(f: Field, c: Cluster) -> HintModel {
    HintModel { ty: f.ty@, is_list: f.is_list, cluster: Some(c) }
}

/// How the keys of an object name context tags.
#[derive(Clone, Copy)]
enum Keys<'a> {
    /// Decimal tags, with the fields they may belong to.
    Tagged(Option<(&'a Vec<Field>, &'a Cluster)>),
    /// Field names.
    Named(&'a Vec<Field>, &'a Cluster),
}

pub enum KeysModel {
    Tagged(Option<(Seq<Field>, Cluster)>),
    Named(Seq<Field>, Cluster),
}

impl<'a> Keys<'a> {
    spec fn view(&self) -> KeysModel {
        match *self {
            Keys::Tagged(None) => KeysModel::Tagged(None),
            Keys::Tagged(Some((fields, c))) => KeysModel::Tagged(Some((fields@, *c))),
            Keys::Named(fields, c) => KeysModel::Named(fields@, *c),
        }
    }
}

/// The context tag and slot that a key stands for, if it stands for one.
pub open spec fn resolve(keys: KeysModel, key: Seq<char>) -> Option<(u8, Option<HintModel>)> {
    match keys {
        KeysModel::Tagged(nested) => match parse_unsigned(key, 255) {
            None => None,
            Some(n) => Some(
                (
                    n as u8,
                    match nested {
                        None => None,
                        Some((fields, c)) => match field_by_code(fields, n) {
                            Some(f) => Some(field_hint(f, c)),
                            None => None,
                        },
                    },
                ),
            ),
        },
        KeysModel::Named(fields, c) => match field_by_name(fields, key) {
            None => None,
            Some(f) => if f.code <= 255 {
                Some((f.code as u8, Some(field_hint(f, c))))
            } else {
                None
            },
        },
    }
}

/// The context tag that a key stands for.
pub open spec fn tag_of(keys: KeysModel, key: Seq<char>) -> u8 {
    match resolve(keys, key) {
        Some((tag, _)) => tag,
        None => 0,
    }
}

/// What the tables know of the slot that a key stands for.
pub open spec fn slot_of(keys: KeysModel, key: Seq<char>) -> Option<HintModel> {
    match resolve(keys, key) {
        Some((_, hint)) => hint,
        None => None,
    }
}

/// Whether every key stands for a tag, and no two for the same one.
pub open spec fn keys_resolve(entries: Seq<(Seq<char>, JsonModel)>, keys: KeysModel) -> bool {
    &&& forall|i: int|
        0 <= i < entries.len() ==> resolve(keys, (#[trigger] entries[i]).0) is Some
    &&& forall|i: int, j: int|
        0 <= i < j < entries.len() ==> tag_of(keys, (#[trigger] entries[i]).0) != tag_of(
            keys,
            (#[trigger] entries[j]).0,
        )
}

/// Whether entry `i` is the one for tag `t`.
pub open spec fn entry_for(
    entries: Seq<(Seq<char>, JsonModel)>,
    keys: KeysModel,
    t: nat,
    i: int,
) -> bool {
    0 <= i < entries.len() && resolve(keys, entries[i].0) is Some && tag_of(keys, entries[i].0)
        == t
}

/// The entry for tag `t`, if there is one.
pub open spec fn entry_of(
    entries: Seq<(Seq<char>, JsonModel)>,
    keys: KeysModel,
    t: nat,
) -> Option<int> {
    if exists|i: int| entry_for(entries, keys, t, i) {
        Some(choose|i: int| entry_for(entries, keys, t, i))
    } else {
        None
    }
}

/// The element a value is written as, if it can be.
pub open spec fn tlv_of(v: JsonModel, hint: Option<HintModel>) -> Option<TlvModel>
    decreases v, 3nat,
{
    match hint {
        None => heuristic_tlv(v),
        Some(h) => if h.is_list {
            match v {
                JsonModel::Null => Some(TlvModel::Null),
                JsonModel::Array(items) => match item_members(
                    items,
                    Some(HintModel { ty: h.ty, is_list: false, cluster: h.cluster }),
                ) {
                    Some(ms) => Some(TlvModel::Array(ms)),
                    None => None,
                },
                _ => None,
            }
        } else {
            hinted_tlv(v, h)
        },
    }
}

/// Array elements, in order, without tags.
pub open spec fn item_members(items: Seq<JsonModel>, hint: Option<HintModel>) -> Option<
    Seq<MemberModel>,
>
    decreases items, 0nat,
{
    if items.len() == 0 {
        Some(Seq::empty())
    } else {
        match item_members(items.drop_last(), hint) {
            None => None,
            Some(ms) => match tlv_of(items.last(), hint) {
                None => None,
                Some(t) => Some(ms.push(MemberModel { tag: TagModel::Anonymous, value: t })),
            },
        }
    }
}

/// A value in a slot of a known type. Null fits every slot. A name that is
/// neither a base type nor a struct of the cluster is an enum or a bitmap, and
/// the shape of the value decides.
pub open spec fn hinted_tlv(v: JsonModel, h: HintModel) -> Option<TlvModel>
    decreases v, 2nat,
{
    if v is Null {
        Some(TlvModel::Null)
    } else {
        match base_of(h.ty) {
            Some(base) => base_tlv(v, base),
            None => match h.cluster {
                None => heuristic_tlv(v),
                Some(c) => match struct_by_name(c.structs@, h.ty) {
                    None => heuristic_tlv(v),
                    Some(nested) => match v {
                        JsonModel::Object(entries) => match struct_members(
                            entries,
                            nested_keys(entries, nested.fields@, c),
                        ) {
                            Some(ms) => Some(TlvModel::Struct(ms)),
                            None => None,
                        },
                        _ => None,
                    },
                },
            },
        }
    }
}

/// A nested struct is tag-based when all its keys are tags, and name-based
/// otherwise.
pub open spec fn nested_keys(
    entries: Seq<(Seq<char>, JsonModel)>,
    fields: Seq<Field>,
    c: Cluster,
) -> KeysModel {
    if forall|i: int|
        0 <= i < entries.len() ==> parse_unsigned((#[trigger] entries[i]).0, 255) is Some {
        KeysModel::Tagged(Some((fields, c)))
    } else {
        KeysModel::Named(fields, c)
    }
}

/// A value in a slot of unknown type.
pub open spec fn heuristic_tlv(v: JsonModel) -> Option<TlvModel>
    decreases v, 1nat,
{
    match v {
        JsonModel::Null => Some(TlvModel::Null),
        JsonModel::Bool(b) => Some(TlvModel::Bool(b)),
        JsonModel::Number(Number::PosInt(n)) => Some(narrow_unsigned(n)),
        JsonModel::Number(Number::NegInt(n)) => Some(narrow_signed(n)),
        JsonModel::Number(Number::Float(bits)) => Some(TlvModel::Double(Number::Float(bits))),
        JsonModel::Text(s) => Some(TlvModel::Utf8(encode_utf8(s))),
        JsonModel::Array(items) => match item_members(items, None) {
            Some(ms) => Some(TlvModel::Array(ms)),
            None => None,
        },
        JsonModel::Object(entries) => match struct_members(entries, KeysModel::Tagged(None)) {
            Some(ms) => Some(TlvModel::Struct(ms)),
            None => None,
        },
    }
}

/// The members of a struct, in ascending order of their tags.
pub open spec fn struct_members(
    entries: Seq<(Seq<char>, JsonModel)>,
    keys: KeysModel,
) -> Option<Seq<MemberModel>>
    decreases entries, 300nat,
{
    if keys_resolve(entries, keys) {
        members_below(entries, keys, 256)
    } else {
        None
    }
}

/// The members with tags below `t`, in ascending order.
pub open spec fn members_below(
    entries: Seq<(Seq<char>, JsonModel)>,
    keys: KeysModel,
    t: nat,
) -> Option<Seq<MemberModel>>
    decreases entries, t,
{
    if t == 0 {
        Some(Seq::empty())
    } else {
        match members_below(entries, keys, (t - 1) as nat) {
            None => None,
            Some(ms) => match entry_of(entries, keys, (t - 1) as nat) {
                None => Some(ms),
                Some(i) => if 0 <= i < entries.len() {
                    match tlv_of(entries[i].1, slot_of(keys, entries[i].0)) {
                        None => None,
                        Some(value) => Some(
                            ms.push(MemberModel { tag: TagModel::Context((t - 1) as u8), value }),
                        ),
                    }
                } else {
                    None
                },
            },
        }
    }
}

/// Whether a number is finite after rounding to binary32: its magnitude is below
/// the midpoint between the largest binary32 value and the next power of two.
pub open spec fn fits_single(n: Number) -> bool {
    match n {
        Number::Float(bits) => bits % 0x8000_0000_0000_0000 < 0x47EF_FFFF_F000_0000,
        _ => true,
    }
}

/// An unsigned integer in the narrowest element that holds it.
pub open spec fn narrow_unsigned(n: u64) -> TlvModel {
    if n <= u8::MAX {
        TlvModel::U8(n as u8)
    } else if n <= u16::MAX {
        TlvModel::U16(n as u16)
    } else if n <= u32::MAX {
        TlvModel::U32(n as u32)
    } else {
        TlvModel::U64(n)
    }
}

/// A signed integer in the narrowest element that holds it.
pub open spec fn narrow_signed(n: i64) -> TlvModel {
    if i8::MIN <= n <= i8::MAX {
        TlvModel::S8(n as i8)
    } else if i16::MIN <= n <= i16::MAX {
        TlvModel::S16(n as i16)
    } else if i32::MIN <= n <= i32::MAX {
        TlvModel::S32(n as i32)
    } else {
        TlvModel::S64(n)
    }
}

/// One more than the largest unsigned integer of `width` bytes.
pub open spec fn unsigned_limit(width: u8) -> int {
    if width == 1 {
        0x100
    } else if width == 2 {
        0x1_0000
    } else if width == 3 {
        0x100_0000
    } else if width == 4 {
        0x1_0000_0000
    } else if width == 5 {
        0x100_0000_0000
    } else if width == 6 {
        0x1_0000_0000_0000
    } else if width == 7 {
        0x100_0000_0000_0000
    } else {
        0x1_0000_0000_0000_0000
    }
}

/// One more than the largest signed integer of `width` bytes.
pub open spec fn signed_limit(width: u8) -> int {
    unsigned_limit(width) / 2
}

/// An unsigned integer of `width` bytes: checked against that width, then
/// written as narrow as its value allows.
pub open spec fn unsigned_tlv(n: u64, width: u8) -> Option<TlvModel> {
    if n < unsigned_limit(width) {
        Some(narrow_unsigned(n))
    } else {
        None
    }
}

/// A signed integer of `width` bytes.
pub open spec fn signed_tlv(n: i64, width: u8) -> Option<TlvModel> {
    if -signed_limit(width) <= n < signed_limit(width) {
        Some(narrow_signed(n))
    } else {
        None
    }
}

/// A value in a slot of base type.
pub open spec fn base_tlv(v: JsonModel, base: Base) -> Option<TlvModel> {
    match base {
        Base::Bool => match v {
            JsonModel::Bool(b) => Some(TlvModel::Bool(b)),
            _ => None,
        },
        Base::Single => match v {
            JsonModel::Number(n) => if fits_single(n) {
                Some(TlvModel::Single(n))
            } else {
                None
            },
            _ => None,
        },
        Base::Double => match v {
            JsonModel::Number(n) => Some(TlvModel::Double(n)),
            _ => None,
        },
        Base::Utf8 => match v {
            JsonModel::Text(s) => Some(TlvModel::Utf8(encode_utf8(s))),
            _ => None,
        },
        Base::Octets => match v {
            JsonModel::Text(s) => match base64_bytes(s) {
                Some(b) => Some(TlvModel::Octets(b)),
                None => None,
            },
            _ => None,
        },
        Base::EpochS => match v.unsigned() {
            Some(n) => if MATTER_EPOCH_OFFSET_S <= n <= MATTER_EPOCH_OFFSET_S + u32::MAX {
                Some(narrow_unsigned((n - MATTER_EPOCH_OFFSET_S) as u64))
            } else {
                None
            },
            None => None,
        },
        Base::EpochUs => match v.unsigned() {
            Some(n) => if MATTER_EPOCH_OFFSET_US <= n {
                Some(narrow_unsigned((n - MATTER_EPOCH_OFFSET_US) as u64))
            } else {
                None
            },
            None => None,
        },
        Base::Unsigned(width) => match v.unsigned() {
            Some(n) => unsigned_tlv(n, width),
            None => None,
        },
        Base::Signed(width) => match v.signed() {
            Some(n) => signed_tlv(n, width),
            None => None,
        },
    }
}

/// What a write comes to.
pub open spec fn writing(t: Option<TlvModel>) -> Result<TlvModel, SdkErrorModel> {
    match t {
        Some(t) => Ok(t),
        None => Err(invalid_data()),
    }
}

pub open spec fn written(r: Result<Tlv, SdkError>) -> Result<TlvModel, SdkErrorModel> {
    match r {
        Ok(t) => Ok(t@),
        Err(e) => Err(e@),
    }
}

spec fn option_view(t: Option<Tlv>) -> Option<TlvModel> {
    match t {
        Some(t) => Some(t@),
        None => None,
    }
}

spec fn members_view(ms: Option<Vec<Member>>) -> Option<Seq<MemberModel>> {
    match ms {
        Some(ms) => Some(member_models(ms@)),
        None => None,
    }
}

impl<'a> Keys<'a> {
    fn resolve(&self, key: &str) -> (res: Option<(u8, Option<TypeHint<'a>>)>)
        ensures
            match res {
                Some((tag, hint)) => resolve(self@, key@) == Some((tag, hint_model(hint))),
                None => resolve(self@, key@) is None,
            },
    {
        match self {
            Keys::Tagged(nested) => match parse_tag(key) {
                None => None,
                Some(n) => {
                    let hint: Option<TypeHint<'a>> = match nested {
                        None => None,
                        Some((fields, c)) => match find_field(*fields, n as u32) {
                            Some(f) => Some(
                                TypeHint { ty: f.ty.as_str(), is_list: f.is_list, cluster: Some(*c) },
                            ),
                            None => None,
                        },
                    };
                    Some((n, hint))
                },
            },
            Keys::Named(fields, c) => match find_field_named(*fields, key) {
                None => None,
                Some(f) => if f.code <= 255 {
                    Some(
                        (
                            f.code as u8,
                            Some(TypeHint { ty: f.ty.as_str(), is_list: f.is_list, cluster: Some(*c) }),
                        ),
                    )
                } else {
                    None
                },
            },
        }
    }
}

/// Encodes a value for a slot.
pub fn write_json(v: &Json, hint: Option<TypeHint<'_>>) -> (res: Result<Tlv, SdkError>)
    ensures
        written(res) == writing(tlv_of(v@, hint_model(hint))),
{
    match encode(v, hint) {
        Some(t) => Ok(t),
        None => Err(invalid()),
    }
}

/// Encodes an object whose keys are field names.
pub fn write_json_named(
    entries: &Vec<(String, Json)>,
    fields: &Vec<Field>,
    cluster: &Cluster,
) -> (res: Result<Tlv, SdkError>)
    ensures
        written(res) == writing(named_tlv(entry_models(entries@), fields@, *cluster)),
{
    match encode_struct(entries, Keys::Named(fields, cluster)) {
        Some(ms) => Ok(Tlv::Struct(ms)),
        None => Err(invalid()),
    }
}

/// The struct an object with field names for keys is written as.
pub open spec fn named_tlv(
    entries: Seq<(Seq<char>, JsonModel)>,
    fields: Seq<Field>,
    c: Cluster,
) -> Option<TlvModel> {
    match struct_members(entries, KeysModel::Named(fields, c)) {
        Some(ms) => Some(TlvModel::Struct(ms)),
        None => None,
    }
}

fn encode(v: &Json, hint: Option<TypeHint<'_>>) -> (res: Option<Tlv>)
    ensures
        option_view(res) == tlv_of(v@, hint_model(hint)),
    decreases v, 3nat,
{
    match hint {
        None => encode_heuristic(v),
        Some(h) => if h.is_list {
            match v {
                Json::Null => Some(Tlv::Null),
                Json::Array(items) => {
                    let item_hint = Some(TypeHint { ty: h.ty, is_list: false, cluster: h.cluster });
                    match encode_items(items, item_hint) {
                        Some(ms) => Some(Tlv::Array(ms)),
                        None => None,
                    }
                },
                _ => None,
            }
        } else {
            encode_hinted(v, h)
        },
    }
}

fn encode_items(items: &Vec<Json>, hint: Option<TypeHint<'_>>) -> (res: Option<Vec<Member>>)
    ensures
        members_view(res) == item_members(item_models(items@), hint_model(hint)),
    decreases items, 0nat,
{
    let mut out: Vec<Member> = Vec::new();
    let ghost models = item_models(items@);
    let mut i: usize = 0;
    assert(models.take(0) =~= Seq::empty());
    assert(member_models(out@) =~= Seq::empty());
    while i < items.len()
        invariant
            i <= items@.len(),
            models == item_models(items@),
            item_members(models.take(i as int), hint_model(hint)) == Some(member_models(out@)),
        decreases items.len() - i,
    {
        proof {
            lemma_items_prefix(models, i as int, hint_model(hint));
            assert(models[i as int] == items@[i as int]@);
        }
        match encode(&items[i], hint) {
            None => {
                return None;
            },
            Some(t) => {
                let ghost before = member_models(out@);
                let m = Member { tag: Tag::Anonymous, value: t };
                out.push(m);
                assert(member_models(out@) =~= before.push(m@));
            },
        }
        i += 1;
    }
    assert(models.take(models.len() as int) =~= models);
    Some(out)
}

proof fn lemma_items_prefix(items: Seq<JsonModel>, i: int, hint: Option<HintModel>)
    requires
        0 <= i < items.len(),
    ensures
        items.take(i + 1).drop_last() == items.take(i),
        items.take(i + 1).last() == items[i],
        item_members(items.take(i + 1), hint) is None ==> item_members(items, hint) is None,
    decreases items.len() - i,
{
    assert(items.take(i + 1).drop_last() =~= items.take(i));
    if i + 1 == items.len() {
        assert(items.take(i + 1) =~= items);
    } else {
        lemma_items_prefix(items, i + 1, hint);
    }
}

fn encode_hinted(v: &Json, h: TypeHint<'_>) -> (res: Option<Tlv>)
    ensures
        option_view(res) == hinted_tlv(v@, h@),
    decreases v, 2nat,
{
    if v.is_null() {
        return Some(Tlv::Null);
    }
    match base_type(h.ty) {
        Some(base) => encode_base(v, base),
        None => match h.cluster {
            None => encode_heuristic(v),
            Some(c) => match c.find_struct(h.ty) {
                None => encode_heuristic(v),
                Some(nested) => match v {
                    Json::Object(entries) => {
                        let keys = if all_tags(entries) {
                            Keys::Tagged(Some((&nested.fields, c)))
                        } else {
                            Keys::Named(&nested.fields, c)
                        };
                        match encode_struct(entries, keys) {
                            Some(ms) => Some(Tlv::Struct(ms)),
                            None => None,
                        }
                    },
                    _ => None,
                },
            },
        },
    }
}

fn all_tags(entries: &Vec<(String, Json)>) -> (res: bool)
    ensures
        res == (forall|i: int|
            0 <= i < entry_models(entries@).len() ==> parse_unsigned(
                (#[trigger] entry_models(entries@)[i]).0,
                255,
            ) is Some),
{
    let ghost models = entry_models(entries@);
    let mut i: usize = 0;
    while i < entries.len()
        invariant
            i <= entries@.len(),
            models == entry_models(entries@),
            forall|j: int| 0 <= j < i ==> parse_unsigned((#[trigger] models[j]).0, 255) is Some,
        decreases entries.len() - i,
    {
        assert(models[i as int].0 == entries@[i as int].0@);
        if parse_tag(entries[i].0.as_str()).is_none() {
            return false;
        }
        i += 1;
    }
    true
}

fn encode_heuristic(v: &Json) -> (res: Option<Tlv>)
    ensures
        option_view(res) == heuristic_tlv(v@),
    decreases v, 1nat,
{
    match v {
        Json::Null => Some(Tlv::Null),
        Json::Bool(b) => Some(Tlv::Bool(*b)),
        Json::Number(Number::PosInt(n)) => Some(narrowest_unsigned(*n)),
        Json::Number(Number::NegInt(n)) => Some(narrowest_signed(*n)),
        Json::Number(Number::Float(bits)) => Some(Tlv::Double(Number::Float(*bits))),
        Json::Text(s) => Some(Tlv::Utf8(s.as_str().as_bytes_vec())),
        Json::Array(items) => match encode_items(items, None) {
            Some(ms) => Some(Tlv::Array(ms)),
            None => None,
        },
        Json::Object(entries) => match encode_struct(entries, Keys::Tagged(None)) {
            Some(ms) => Some(Tlv::Struct(ms)),
            None => None,
        },
    }
}

/// What the first pass over an object keeps for one tag: the entry and its slot.
struct Slot<'a> {
    entry: usize,
    hint: Option<TypeHint<'a>>,
}

fn encode_struct<'a>(entries: &Vec<(String, Json)>, keys: Keys<'a>) -> (res: Option<Vec<Member>>)
    ensures
        members_view(res) == struct_members(entry_models(entries@), keys@),
    decreases entries, 300nat,
{
    let ghost models = entry_models(entries@);
    let mut slots: Vec<Option<Slot<'a>>> = Vec::new();
    while slots.len() < 256
        invariant
            slots@.len() <= 256,
            forall|t: int| 0 <= t < slots@.len() ==> (#[trigger] slots@[t]) is None,
        decreases 256 - slots.len(),
    {
        slots.push(None);
    }
    let mut i: usize = 0;
    while i < entries.len()
        invariant
            i <= entries@.len(),
            models == entry_models(entries@),
            slots@.len() == 256,
            forall|j: int| 0 <= j < i ==> resolve(keys@, (#[trigger] models[j]).0) is Some,
            forall|j: int, k: int|
                0 <= j < k < i ==> tag_of(keys@, (#[trigger] models[j]).0) != tag_of(
                    keys@,
                    (#[trigger] models[k]).0,
                ),
            forall|j: int|
                0 <= j < i ==> (#[trigger] slots@[tag_of(keys@, models[j].0) as int]) is Some,
            forall|t: int|
                0 <= t < 256 && (#[trigger] slots@[t]) is Some ==> slots@[t]->0.entry < i
                    && resolve(keys@, models[slots@[t]->0.entry as int].0) == Some(
                    (t as u8, hint_model(slots@[t]->0.hint)),
                ),
        decreases entries.len() - i,
    {
        assert(models[i as int].0 == entries@[i as int].0@);
        let ghost before = slots@;
        match keys.resolve(entries[i].0.as_str()) {
            None => {
                return None;
            },
            Some((tag, hint)) => {
                if slots[tag as usize].is_some() {
                    proof {
                        let e = slots@[tag as int]->0.entry as int;
                        assert(tag_of(keys@, models[e].0) == tag_of(keys@, models[i as int].0));
                    }
                    return None;
                }
                slots.set(tag as usize, Some(Slot { entry: i, hint }));
                proof {
                    assert forall|j: int| 0 <= j < i + 1 implies (#[trigger] slots@[tag_of(
                        keys@,
                        models[j].0,
                    ) as int]) is Some by {
                        if j < i {
                            assert(before[tag_of(keys@, models[j].0) as int] is Some);
                        }
                    }
                    assert forall|j: int, k: int| 0 <= j < k < i + 1 implies tag_of(
                        keys@,
                        (#[trigger] models[j]).0,
                    ) != tag_of(keys@, (#[trigger] models[k]).0) by {
                        if k == i {
                            assert(before[tag_of(keys@, models[j].0) as int] is Some);
                        }
                    }
                }
            },
        }
        i += 1;
    }
    assert(keys_resolve(models, keys@));
    let mut out: Vec<Member> = Vec::new();
    let mut t: usize = 0;
    assert(member_models(out@) =~= Seq::empty());
    while t < 256
        invariant
            t <= 256,
            models == entry_models(entries@),
            slots@.len() == 256,
            keys_resolve(models, keys@),
            forall|j: int|
                0 <= j < models.len() ==> (#[trigger] slots@[tag_of(keys@, models[j].0) as int]) is Some,
            forall|t: int|
                0 <= t < 256 && (#[trigger] slots@[t]) is Some ==> slots@[t]->0.entry
                    < models.len() && resolve(keys@, models[slots@[t]->0.entry as int].0) == Some(
                    (t as u8, hint_model(slots@[t]->0.hint)),
                ),
            members_below(models, keys@, t as nat) == Some(member_models(out@)),
        decreases 256 - t,
    {
        match &slots[t] {
            None => {
                assert forall|e: int| !entry_for(models, keys@, t as nat, e) by {
                    if entry_for(models, keys@, t as nat, e) {
                        assert(slots@[tag_of(keys@, models[e].0) as int] is Some);
                    }
                }
            },
            Some(slot) => {
                proof {
                    lemma_entry_unique(models, keys@, t as nat, slot.entry as int);
                    assert(models[slot.entry as int].1 == entries@[slot.entry as int].1@);
                }
                match encode(&entries[slot.entry].1, slot.hint) {
                    None => {
                        proof {
                            lemma_members_prefix(models, keys@, (t + 1) as nat);
                        }
                        return None;
                    },
                    Some(value) => {
                        let ghost before = member_models(out@);
                        let m = Member { tag: Tag::Context(t as u8), value };
                        out.push(m);
                        assert(member_models(out@) =~= before.push(m@));
                    },
                }
            },
        }
        t += 1;
    }
    Some(out)
}

/// At most one entry stands for a tag.
proof fn lemma_entry_unique(
    entries: Seq<(Seq<char>, JsonModel)>,
    keys: KeysModel,
    t: nat,
    at: int,
)
    requires
        keys_resolve(entries, keys),
        entry_for(entries, keys, t, at),
    ensures
        entry_of(entries, keys, t) == Some(at),
{
    let i = choose|i: int| entry_for(entries, keys, t, i);
    assert(entry_for(entries, keys, t, i));
    if i < at {
        assert(tag_of(keys, entries[i].0) != tag_of(keys, entries[at].0));
    } else if at < i {
        assert(tag_of(keys, entries[at].0) != tag_of(keys, entries[i].0));
    }
}

/// A member that cannot be written spoils the whole struct.
proof fn lemma_members_prefix(entries: Seq<(Seq<char>, JsonModel)>, keys: KeysModel, t: nat)
    requires
        t <= 256,
        members_below(entries, keys, t) is None,
    ensures
        members_below(entries, keys, 256) is None,
    decreases 256 - t,
{
    if t < 256 {
        lemma_members_prefix(entries, keys, t + 1);
    }
}

fn encode_base(v: &Json, base: Base) -> (res: Option<Tlv>)
    ensures
        option_view(res) == base_tlv(v@, base),
{
    match base {
        Base::Bool => match v {
            Json::Bool(b) => Some(Tlv::Bool(*b)),
            _ => None,
        },
        Base::Single => match v {
            Json::Number(n) => if is_single(*n) {
                Some(Tlv::Single(*n))
            } else {
                None
            },
            _ => None,
        },
        Base::Double => match v {
            Json::Number(n) => Some(Tlv::Double(*n)),
            _ => None,
        },
        Base::Utf8 => match v {
            Json::Text(s) => Some(Tlv::Utf8(s.as_str().as_bytes_vec())),
            _ => None,
        },
        Base::Octets => match v {
            Json::Text(s) => match base64_decode(s.as_str()) {
                Some(b) => Some(Tlv::Octets(b)),
                None => None,
            },
            _ => None,
        },
        Base::EpochS => match to_matter_epoch(v, MATTER_EPOCH_OFFSET_S) {
            Some(n) => if n <= 0xFFFF_FFFF {
                Some(narrowest_unsigned(n))
            } else {
                None
            },
            None => None,
        },
        Base::EpochUs => match to_matter_epoch(v, MATTER_EPOCH_OFFSET_US) {
            Some(n) => Some(narrowest_unsigned(n)),
            None => None,
        },
        Base::Unsigned(width) => match v.as_u64() {
            Some(n) => encode_unsigned(n, width),
            None => None,
        },
        Base::Signed(width) => match v.as_i64() {
            Some(n) => encode_signed(n, width),
            None => None,
        },
    }
}

fn is_single(n: Number) -> (res: bool)
    ensures
        res == fits_single(n),
{
    match n {
        Number::Float(bits) => bits % 0x8000_0000_0000_0000 < 0x47EF_FFFF_F000_0000,
        _ => true,
    }
}

/// A Unix timestamp counted from the Matter epoch. One before it is no
/// timestamp.
fn to_matter_epoch(v: &Json, offset: u64) -> (res: Option<u64>)
    ensures
        res == (match v@.unsigned() {
            Some(n) => if offset <= n {
                Some((n - offset) as u64)
            } else {
                None
            },
            None => None,
        }),
{
    match v.as_u64() {
        Some(n) => n.checked_sub(offset),
        None => None,
    }
}

fn narrowest_unsigned(n: u64) -> (res: Tlv)
    ensures
        res@ == narrow_unsigned(n),
{
    if n <= 0xFF {
        Tlv::U8(n as u8)
    } else if n <= 0xFFFF {
        Tlv::U16(n as u16)
    } else if n <= 0xFFFF_FFFF {
        Tlv::U32(n as u32)
    } else {
        Tlv::U64(n)
    }
}

fn narrowest_signed(n: i64) -> (res: Tlv)
    ensures
        res@ == narrow_signed(n),
{
    if -0x80 <= n && n <= 0x7F {
        Tlv::S8(n as i8)
    } else if -0x8000 <= n && n <= 0x7FFF {
        Tlv::S16(n as i16)
    } else if -0x8000_0000 <= n && n <= 0x7FFF_FFFF {
        Tlv::S32(n as i32)
    } else {
        Tlv::S64(n)
    }
}

fn encode_unsigned(n: u64, width: u8) -> (res: Option<Tlv>)
    ensures
        option_view(res) == unsigned_tlv(n, width),
{
    let max: u64 = match width {
        1 => 0xFF,
        2 => 0xFFFF,
        3 => 0xFF_FFFF,
        4 => 0xFFFF_FFFF,
        5 => 0xFF_FFFF_FFFF,
        6 => 0xFFFF_FFFF_FFFF,
        7 => 0xFF_FFFF_FFFF_FFFF,
        _ => u64::MAX,
    };
    if n <= max {
        Some(narrowest_unsigned(n))
    } else {
        None
    }
}

fn encode_signed(n: i64, width: u8) -> (res: Option<Tlv>)
    ensures
        option_view(res) == signed_tlv(n, width),
{
    let max: i64 = match width {
        1 => 0x7F,
        2 => 0x7FFF,
        3 => 0x7F_FFFF,
        4 => 0x7FFF_FFFF,
        5 => 0x7F_FFFF_FFFF,
        6 => 0x7FFF_FFFF_FFFF,
        7 => 0x7F_FFFF_FFFF_FFFF,
        _ => i64::MAX,
    };
    if -max - 1 <= n && n <= max {
        Some(narrowest_signed(n))
    } else {
        None
    }
}

} // verus!
