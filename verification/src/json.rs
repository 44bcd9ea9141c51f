//! A JSON value and its mathematical model.

use crate::text::same_text;
use vstd::prelude::*;

verus! {

/// A JSON number: a non-negative integer, a negative integer, or the bit
/// pattern of a binary64 value.
#[derive(Clone, Copy, Debug, PartialEq, Eq, Structural)]
pub enum Number {
    PosInt(u64),
    NegInt(i64),
    Float(u64),
}

/// A JSON value. An object keeps its entries in insertion order.
#[derive(Debug, PartialEq, Eq)]
pub enum Json {
    Null,
    Bool(bool),
    Number(Number),
    Text(String),
    Array(Vec<Json>),
    Object(Vec<(String, Json)>),
}

#[verifier::ext_equal]
pub enum JsonModel {
    Null,
    Bool(bool),
    Number(Number),
    Text(Seq<char>),
    Array(Seq<JsonModel>),
    Object(Seq<(Seq<char>, JsonModel)>),
}

/// The models of a run of values.
pub open spec fn item_models(items: Seq<Json>) -> Seq<JsonModel>
    decreases items,
{
    Seq::new(
        items.len(),
        |i: int|
            if 0 <= i < items.len() {
                items[i].view()
            } else {
                JsonModel::Null
            },
    )
}

/// The models of a run of object entries.
pub open spec fn entry_models(entries: Seq<(String, Json)>) -> Seq<(Seq<char>, JsonModel)>
    decreases entries,
{
    Seq::new(
        entries.len(),
        |i: int|
            if 0 <= i < entries.len() {
                (entries[i].0@, entries[i].1.view())
            } else {
                (Seq::empty(), JsonModel::Null)
            },
    )
}

/// An integer as a JSON number.
pub open spec fn number_of(v: int) -> Number {
    if v < 0 {
        Number::NegInt(v as i64)
    } else {
        Number::PosInt(v as u64)
    }
}

/// Whether a binary64 bit pattern is a number: the exponent of infinities and
/// NaNs is all ones.
pub open spec fn bits_finite(bits: u64) -> bool {
    bits % 0x8000_0000_0000_0000 < 0x7FF0_0000_0000_0000
}

impl Number {
    pub open spec fn finite(self) -> bool {
        match self {
            Number::Float(bits) => bits_finite(bits),
            _ => true,
        }
    }

    /// The value as an unsigned integer, when it is one.
    pub open spec fn unsigned(self) -> Option<u64> {
        match self {
            Number::PosInt(n) => Some(n),
            _ => None,
        }
    }

    /// The value as a signed 64-bit integer, when it is one.
    pub open spec fn signed(self) -> Option<i64> {
        match self {
            Number::PosInt(n) => if n <= i64::MAX {
                Some(n as i64)
            } else {
                None
            },
            Number::NegInt(n) => Some(n),
            Number::Float(_) => None,
        }
    }

    pub fn is_finite(self) -> (res: bool)
        ensures
            res == self.finite(),
    {
        match self {
            Number::Float(bits) => bits % 0x8000_0000_0000_0000 < 0x7FF0_0000_0000_0000,
            _ => true,
        }
    }

    pub fn as_u64(self) -> (res: Option<u64>)
        ensures
            res == self.unsigned(),
    {
        match self {
            Number::PosInt(n) => Some(n),
            _ => None,
        }
    }

    pub fn as_i64(self) -> (res: Option<i64>)
        ensures
            res == self.signed(),
    {
        match self {
            Number::PosInt(n) => if n <= 0x7FFF_FFFF_FFFF_FFFF {
                Some(n as i64)
            } else {
                None
            },
            Number::NegInt(n) => Some(n),
            Number::Float(_) => None,
        }
    }

    pub fn from_i64(v: i64) -> (res: Number)
        ensures
            res == number_of(v as int),
    {
        if v < 0 {
            Number::NegInt(v)
        } else {
            Number::PosInt(v as u64)
        }
    }
}

/// The position of the first entry with this key, or the number of entries.
pub open spec fn key_position(entries: Seq<(Seq<char>, JsonModel)>, key: Seq<char>) -> int
    decreases entries.len(),
{
    if entries.len() == 0 {
        0
    } else if entries[0].0 == key {
        0
    } else {
        1 + key_position(entries.skip(1), key)
    }
}

/// The value recorded under a key.
pub open spec fn lookup(entries: Seq<(Seq<char>, JsonModel)>, key: Seq<char>) -> Option<JsonModel> {
    let at = key_position(entries, key);
    if at < entries.len() {
        Some(entries[at].1)
    } else {
        None
    }
}

/// The entries after recording `value` under `key`: an entry with that key is
/// replaced in place, and a new one goes to the end.
pub open spec fn put_entry(
    entries: Seq<(Seq<char>, JsonModel)>,
    key: Seq<char>,
    value: JsonModel,
) -> Seq<(Seq<char>, JsonModel)> {
    let at = key_position(entries, key);
    if at < entries.len() {
        entries.update(at, (key, value))
    } else {
        entries.push((key, value))
    }
}

pub proof fn lemma_key_position(entries: Seq<(Seq<char>, JsonModel)>, key: Seq<char>)
    ensures
        0 <= key_position(entries, key) <= entries.len(),
        key_position(entries, key) < entries.len() ==> entries[key_position(entries, key)].0 == key,
        forall|i: int| 0 <= i < key_position(entries, key) ==> (#[trigger] entries[i]).0 != key,
    decreases entries.len(),
{
    if entries.len() > 0 && entries[0].0 != key {
        lemma_key_position(entries.skip(1), key);
        assert forall|i: int| 0 <= i < key_position(entries, key) implies (#[trigger] entries[i]).0
            != key by {
            if i > 0 {
                assert(entries[i] == entries.skip(1)[i - 1]);
            }
        }
    }
}

/// The entry position of a key is the only one that fits its description.
pub proof fn lemma_key_position_is(entries: Seq<(Seq<char>, JsonModel)>, key: Seq<char>, at: int)
    requires
        0 <= at <= entries.len(),
        at < entries.len() ==> entries[at].0 == key,
        forall|i: int| 0 <= i < at ==> (#[trigger] entries[i]).0 != key,
    ensures
        key_position(entries, key) == at,
{
    lemma_key_position(entries, key);
    let p = key_position(entries, key);
    if p < at {
        assert(entries[p].0 != key);
    } else if at < p {
        assert(entries[at].0 != key);
    }
}

/// The position of the first entry with this key, or the number of entries.
pub fn find_key(entries: &Vec<(String, Json)>, key: &str) -> (res: usize)
    ensures
        res == key_position(entry_models(entries@), key@),
        res <= entries@.len(),
{
    let ghost models = entry_models(entries@);
    let mut i: usize = 0;
    while i < entries.len()
        invariant
            models == entry_models(entries@),
            i <= entries@.len(),
            forall|j: int| 0 <= j < i ==> (#[trigger] models[j]).0 != key@,
        decreases entries.len() - i,
    {
        assert(models[i as int].0 == entries@[i as int].0@);
        if same_text(entries[i].0.as_str(), key) {
            proof {
                lemma_key_position_is(models, key@, i as int);
            }
            return i;
        }
        i += 1;
    }
    proof {
        lemma_key_position_is(models, key@, i as int);
    }
    i
}

/// Records `value` under `key`.
pub fn put(entries: &mut Vec<(String, Json)>, key: String, value: Json)
    ensures
        entry_models(final(entries)@) == put_entry(entry_models(old(entries)@), key@, value@),
{
    let ghost before = entry_models(entries@);
    let ghost k = key@;
    let ghost v = value@;
    let at = find_key(entries, key.as_str());
    if at < entries.len() {
        entries.set(at, (key, value));
        assert(entry_models(entries@) =~= before.update(at as int, (k, v)));
    } else {
        entries.push((key, value));
        assert(entry_models(entries@) =~= before.push((k, v)));
    }
}

impl Json {
    pub open spec fn view(&self) -> JsonModel
        decreases self,
    {
        match *self {
            Json::Null => JsonModel::Null,
            Json::Bool(b) => JsonModel::Bool(b),
            Json::Number(n) => JsonModel::Number(n),
            Json::Text(s) => JsonModel::Text(s@),
            Json::Array(v) => JsonModel::Array(item_models(v@)),
            Json::Object(v) => JsonModel::Object(entry_models(v@)),
        }
    }

    pub fn is_null(&self) -> (res: bool)
        ensures
            res == (self@ is Null),
    {
        matches!(self, Json::Null)
    }

    pub fn as_u64(&self) -> (res: Option<u64>)
        ensures
            res == self@.unsigned(),
    {
        match self {
            Json::Number(n) => n.as_u64(),
            _ => None,
        }
    }

    pub fn as_i64(&self) -> (res: Option<i64>)
        ensures
            res == self@.signed(),
    {
        match self {
            Json::Number(n) => n.as_i64(),
            _ => None,
        }
    }

    pub fn as_str(&self) -> (res: Option<&str>)
        ensures
            match res {
                Some(s) => self@ == JsonModel::Text(s@),
                None => !(self@ is Text),
            },
    {
        match self {
            Json::Text(s) => Some(s.as_str()),
            _ => None,
        }
    }

    /// The member of an object with this key.
    pub fn get(&self, key: &str) -> (res: Option<&Json>)
        ensures
            match res {
                Some(v) => self@.member(key@) == Some(v@),
                None => self@.member(key@) is None,
            },
    {
        match self {
            Json::Object(entries) => {
                let at = find_key(entries, key);
                if at < entries.len() {
                    Some(&entries[at].1)
                } else {
                    None
                }
            },
            _ => None,
        }
    }
}

impl Json {
    /// The same value again.
    pub fn duplicate(&self) -> (res: Json)
        ensures
            res@ == self@,
        decreases self, 1nat,
    {
        match self {
            Json::Null => Json::Null,
            Json::Bool(b) => Json::Bool(*b),
            Json::Number(n) => Json::Number(*n),
            Json::Text(s) => Json::Text(s.clone()),
            Json::Array(items) => Json::Array(duplicate_items(items)),
            Json::Object(entries) => Json::Object(duplicate_entries(entries)),
        }
    }
}

fn duplicate_items(items: &Vec<Json>) -> (res: Vec<Json>)
    ensures
        item_models(res@) == item_models(items@),
    decreases items, 0nat,
{
    let mut out: Vec<Json> = Vec::new();
    let ghost models = item_models(items@);
    let mut i: usize = 0;
    assert(item_models(out@) =~= models.take(0));
    while i < items.len()
        invariant
            i <= items@.len(),
            models == item_models(items@),
            item_models(out@) == models.take(i as int),
        decreases items.len() - i,
    {
        let ghost before = item_models(out@);
        let item = items[i].duplicate();
        let ghost m = item@;
        out.push(item);
        assert(item_models(out@) =~= before.push(m));
        assert(models.take(i + 1) =~= before.push(models[i as int]));
        i += 1;
    }
    assert(models.take(models.len() as int) =~= models);
    out
}

fn duplicate_entries(entries: &Vec<(String, Json)>) -> (res: Vec<(String, Json)>)
    ensures
        entry_models(res@) == entry_models(entries@),
    decreases entries, 0nat,
{
    let mut out: Vec<(String, Json)> = Vec::new();
    let ghost models = entry_models(entries@);
    let mut i: usize = 0;
    assert(entry_models(out@) =~= models.take(0));
    while i < entries.len()
        invariant
            i <= entries@.len(),
            models == entry_models(entries@),
            entry_models(out@) == models.take(i as int),
        decreases entries.len() - i,
    {
        let ghost before = entry_models(out@);
        let key = entries[i].0.clone();
        let value = entries[i].1.duplicate();
        let ghost m = (key@, value@);
        out.push((key, value));
        assert(entry_models(out@) =~= before.push(m));
        assert(models.take(i + 1) =~= before.push(models[i as int]));
        i += 1;
    }
    assert(models.take(models.len() as int) =~= models);
    out
}

impl Clone for Json {
    fn clone(&self) -> (res: Self)
        ensures
            res@ == self@,
    {
        self.duplicate()
    }
}

/// A value as a map-like reading of it has it: of the entries of an object under
/// one key only the last counts, in the place of the first.
pub open spec fn settled(v: JsonModel) -> JsonModel
    decreases v,
{
    match v {
        JsonModel::Array(items) => JsonModel::Array(settled_items(items)),
        JsonModel::Object(entries) => JsonModel::Object(settled_entries(entries)),
        _ => v,
    }
}

pub open spec fn settled_items(items: Seq<JsonModel>) -> Seq<JsonModel>
    decreases items,
{
    if items.len() == 0 {
        Seq::empty()
    } else {
        settled_items(items.drop_last()).push(settled(items.last()))
    }
}

pub open spec fn settled_entries(entries: Seq<(Seq<char>, JsonModel)>) -> Seq<
    (Seq<char>, JsonModel),
>
    decreases entries,
{
    if entries.len() == 0 {
        Seq::empty()
    } else {
        put_entry(
            settled_entries(entries.drop_last()),
            entries.last().0,
            settled(entries.last().1),
        )
    }
}

/// A value in which no object has a key twice.
pub fn settle(v: &Json) -> (res: Json)
    ensures
        res@ == settled(v@),
    decreases v, 1nat,
{
    match v {
        Json::Array(items) => Json::Array(settle_items(items)),
        Json::Object(entries) => Json::Object(settle_entries(entries)),
        _ => v.duplicate(),
    }
}

fn settle_items(items: &Vec<Json>) -> (res: Vec<Json>)
    ensures
        item_models(res@) == settled_items(item_models(items@)),
    decreases items, 0nat,
{
    let mut out: Vec<Json> = Vec::new();
    let ghost models = item_models(items@);
    let mut i: usize = 0;
    assert(models.take(0) =~= Seq::empty());
    assert(item_models(out@) =~= Seq::empty());
    while i < items.len()
        invariant
            i <= items@.len(),
            models == item_models(items@),
            item_models(out@) == settled_items(models.take(i as int)),
        decreases items.len() - i,
    {
        assert(models.take(i + 1).drop_last() =~= models.take(i as int));
        assert(models.take(i + 1).last() == items@[i as int]@);
        let ghost before = item_models(out@);
        let item = settle(&items[i]);
        let ghost m = item@;
        out.push(item);
        assert(item_models(out@) =~= before.push(m));
        i += 1;
    }
    assert(models.take(models.len() as int) =~= models);
    out
}

/// The entries of an object in which no key stands twice.
pub fn settle_entries(entries: &Vec<(String, Json)>) -> (res: Vec<(String, Json)>)
    ensures
        entry_models(res@) == settled_entries(entry_models(entries@)),
    decreases entries, 0nat,
{
    let mut out: Vec<(String, Json)> = Vec::new();
    let ghost models = entry_models(entries@);
    let mut i: usize = 0;
    assert(models.take(0) =~= Seq::empty());
    assert(entry_models(out@) =~= Seq::empty());
    while i < entries.len()
        invariant
            i <= entries@.len(),
            models == entry_models(entries@),
            entry_models(out@) == settled_entries(models.take(i as int)),
        decreases entries.len() - i,
    {
        assert(models.take(i + 1).drop_last() =~= models.take(i as int));
        assert(models.take(i + 1).last() == (entries@[i as int].0@, entries@[i as int].1@));
        let key = entries[i].0.clone();
        let value = settle(&entries[i].1);
        put(&mut out, key, value);
        i += 1;
    }
    assert(models.take(models.len() as int) =~= models);
    out
}

/// Whether a key stands more than once.
pub open spec fn repeated(entries: Seq<(Seq<char>, JsonModel)>, key: Seq<char>) -> bool {
    exists|i: int, j: int|
        0 <= i < j < entries.len() && (#[trigger] entries[i]).0 == key && (
        #[trigger] entries[j]).0 == key
}

/// Whether a key stands more than once.
pub fn is_repeated(entries: &Vec<(String, Json)>, key: &str) -> (res: bool)
    ensures
        res == repeated(entry_models(entries@), key@),
{
    let ghost models = entry_models(entries@);
    let first = find_key(entries, key);
    proof {
        lemma_key_position(models, key@);
    }
    if first >= entries.len() {
        return false;
    }
    let mut i: usize = first + 1;
    while i < entries.len()
        invariant
            models == entry_models(entries@),
            first < i <= entries@.len(),
            forall|j: int| 0 <= j < i && j != first ==> (#[trigger] models[j]).0 != key@,
            models[first as int].0 == key@,
        decreases entries.len() - i,
    {
        assert(models[i as int].0 == entries@[i as int].0@);
        if same_text(entries[i].0.as_str(), key) {
            assert(models[first as int].0 == key@ && models[i as int].0 == key@);
            return true;
        }
        i += 1;
    }
    false
}

impl JsonModel {
    pub open spec fn unsigned(self) -> Option<u64> {
        match self {
            JsonModel::Number(n) => n.unsigned(),
            _ => None,
        }
    }

    pub open spec fn signed(self) -> Option<i64> {
        match self {
            JsonModel::Number(n) => n.signed(),
            _ => None,
        }
    }

    pub open spec fn member(self, key: Seq<char>) -> Option<JsonModel> {
        match self {
            JsonModel::Object(entries) => lookup(entries, key),
            _ => None,
        }
    }
}

/// What was recorded under a key is what is found there, and no other key is
/// affected.
pub proof fn put_then_lookup(
    entries: Seq<(Seq<char>, JsonModel)>,
    key: Seq<char>,
    value: JsonModel,
    other: Seq<char>,
)
    ensures
        lookup(put_entry(entries, key, value), key) == Some(value),
        other != key ==> lookup(put_entry(entries, key, value), other) == lookup(entries, other),
{
    let after = put_entry(entries, key, value);
    let at = key_position(entries, key);
    lemma_key_position(entries, key);
    lemma_key_position_is(after, key, at);
    if other != key {
        let p = key_position(entries, other);
        lemma_key_position(entries, other);
        if p < entries.len() {
            lemma_key_position_is(after, other, p);
        } else {
            lemma_key_position_is(after, other, after.len() as int);
        }
    }
}

/// What is found under a key is the value of the first entry with it, and nothing
/// is found where there is none.
pub proof fn the_first_entry_is_found(
    entries: Seq<(Seq<char>, JsonModel)>,
    key: Seq<char>,
    at: int,
)
    ensures
        0 <= at < entries.len() && entries[at].0 == key && (forall|i: int|
            0 <= i < at ==> (#[trigger] entries[i]).0 != key) ==> lookup(entries, key) == Some(
            entries[at].1,
        ) && JsonModel::Object(entries).member(key) == Some(entries[at].1),
        (forall|i: int| 0 <= i < entries.len() ==> (#[trigger] entries[i]).0 != key) ==> lookup(
            entries,
            key,
        ) is None && JsonModel::Object(entries).member(key) is None,
{
    if 0 <= at < entries.len() && entries[at].0 == key && (forall|i: int|
        0 <= i < at ==> (#[trigger] entries[i]).0 != key) {
        lemma_key_position_is(entries, key, at);
    }
    if forall|i: int| 0 <= i < entries.len() ==> (#[trigger] entries[i]).0 != key {
        lemma_key_position_is(entries, key, entries.len() as int);
    }
}

/// A number is the integer it was written as: an unsigned one where it is not
/// negative, a signed one where it fits, and neither where it is no integer.
pub proof fn numbers_are_the_integers_they_hold(n: u64, i: i64, bits: u64, v: int)
    ensures
        Number::PosInt(n).unsigned() == Some(n),
        Number::NegInt(i).unsigned() is None,
        Number::Float(bits).unsigned() is None,
        n < 0x8000_0000_0000_0000 ==> Number::PosInt(n).signed() is Some && Number::PosInt(
            n,
        ).signed()->0 == n,
        n >= 0x8000_0000_0000_0000 ==> Number::PosInt(n).signed() is None,
        Number::NegInt(i).signed() == Some(i),
        Number::Float(bits).signed() is None,
        0 <= v < 0x1_0000_0000_0000_0000 ==> number_of(v).unsigned() is Some && number_of(
            v,
        ).unsigned()->0 == v,
        -0x8000_0000_0000_0000 <= v < 0x8000_0000_0000_0000 ==> number_of(v).signed() is Some
            && number_of(v).signed()->0 == v,
        JsonModel::Number(Number::PosInt(n)).unsigned() == Some(n),
        JsonModel::Number(Number::NegInt(i)).signed() == Some(i),
        JsonModel::Null.unsigned() is None && JsonModel::Null.signed() is None,
        JsonModel::Null.member(Seq::empty()) is None,
{
}

/// Settling leaves what holds nothing else as it is, and settles every item of an
/// array in its place.
pub proof fn settling_keeps_every_item(v: JsonModel, items: Seq<JsonModel>)
    ensures
        !(v is Array) && !(v is Object) ==> settled(v) == v,
        settled(JsonModel::Array(items)) is Array,
        settled(JsonModel::Array(items))->Array_0.len() == items.len(),
        forall|i: int|
            0 <= i < items.len() ==> #[trigger] settled(JsonModel::Array(items))->Array_0[i]
                == settled(items[i]),
{
    lemma_settled_items(items);
}

proof fn lemma_settled_items(items: Seq<JsonModel>)
    ensures
        settled_items(items).len() == items.len(),
        forall|i: int|
            0 <= i < items.len() ==> #[trigger] settled_items(items)[i] == settled(items[i]),
    decreases items.len(),
{
    if items.len() > 0 {
        let rest = items.drop_last();
        lemma_settled_items(rest);
        assert forall|i: int| 0 <= i < items.len() implies #[trigger] settled_items(items)[i]
            == settled(items[i]) by {
            if i < rest.len() {
                assert(settled_items(items)[i] == settled_items(rest)[i]);
                assert(rest[i] == items[i]);
            }
        }
    }
}

} // verus!
