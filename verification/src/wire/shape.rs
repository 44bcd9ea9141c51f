//! Building the objects of the wire, entry by entry.

use crate::json::{
    entry_models, item_models, key_position, lemma_key_position, lemma_key_position_is, lookup,
    number_of, Json, JsonModel, Number,
};
use vstd::prelude::*;

verus! {

/// The entries of an object, in order.
pub type Entries = Seq<(Seq<char>, JsonModel)>;

pub open spec fn json_entry(key: Seq<char>, v: JsonModel) -> Entries {
    seq![(key, v)]
}

pub open spec fn number_entry(key: Seq<char>, n: int) -> Entries {
    seq![(key, JsonModel::Number(number_of(n)))]
}

pub open spec fn text_entry(key: Seq<char>, s: String) -> Entries {
    seq![(key, JsonModel::Text(s@))]
}

pub open spec fn flag_entry(key: Seq<char>, b: bool) -> Entries {
    seq![(key, JsonModel::Bool(b))]
}

/// An array of texts.
pub open spec fn texts_entry(key: Seq<char>, texts: Seq<String>) -> Entries {
    seq![(key, JsonModel::Array(text_items(texts)))]
}

/// One entry for a number that is there, none otherwise.
pub open spec fn optional_number(key: Seq<char>, n: Option<u64>) -> Entries {
    match n {
        Some(n) => number_entry(key, n as int),
        None => Seq::empty(),
    }
}

/// One entry for a text that is there, none otherwise.
pub open spec fn optional_text(key: Seq<char>, s: Option<String>) -> Entries {
    match s {
        Some(s) => text_entry(key, s),
        None => Seq::empty(),
    }
}

/// One entry for a flag that is there, none otherwise.
pub open spec fn optional_flag(key: Seq<char>, b: Option<bool>) -> Entries {
    match b {
        Some(b) => flag_entry(key, b),
        None => Seq::empty(),
    }
}

/// A number, or null where there is none.
pub open spec fn nullable_number(key: Seq<char>, n: Option<i64>) -> Entries {
    match n {
        Some(n) => number_entry(key, n as int),
        None => json_entry(key, JsonModel::Null),
    }
}

/// A text, or null where there is none.
pub open spec fn nullable_text(key: Seq<char>, s: Option<String>) -> Entries {
    match s {
        Some(s) => text_entry(key, s),
        None => json_entry(key, JsonModel::Null),
    }
}

/// A flag, or null where there is none.
pub open spec fn nullable_flag(key: Seq<char>, b: Option<bool>) -> Entries {
    match b {
        Some(b) => flag_entry(key, b),
        None => json_entry(key, JsonModel::Null),
    }
}

pub open spec fn text_items(texts: Seq<String>) -> Seq<JsonModel> {
    texts.map_values(|s: String| JsonModel::Text(s@))
}

pub open spec fn widened_8(n: Option<u8>) -> Option<u64> {
    match n {
        Some(n) => Some(n as u64),
        None => None,
    }
}

pub open spec fn widened_16(n: Option<u16>) -> Option<u64> {
    match n {
        Some(n) => Some(n as u64),
        None => None,
    }
}

pub open spec fn widened_32(n: Option<u32>) -> Option<u64> {
    match n {
        Some(n) => Some(n as u64),
        None => None,
    }
}

pub(crate) fn widen_8(n: Option<u8>) -> (res: Option<u64>)
    ensures
        res == widened_8(n),
{
    match n {
        Some(n) => Some(n as u64),
        None => None,
    }
}

pub(crate) fn widen_16(n: Option<u16>) -> (res: Option<u64>)
    ensures
        res == widened_16(n),
{
    match n {
        Some(n) => Some(n as u64),
        None => None,
    }
}

pub(crate) fn widen_32(n: Option<u32>) -> (res: Option<u64>)
    ensures
        res == widened_32(n),
{
    match n {
        Some(n) => Some(n as u64),
        None => None,
    }
}

/// Appends an entry.
pub(crate) fn put_json(out: &mut Vec<(String, Json)>, key: &str, value: Json)
    ensures
        entry_models(final(out)@) == entry_models(old(out)@) + json_entry(key@, value@),
{
    let ghost before = entry_models(out@);
    let ghost v = value@;
    out.push((key.to_owned(), value));
    assert(entry_models(out@) =~= before + json_entry(key@, v));
}

pub(crate) fn put_number(out: &mut Vec<(String, Json)>, key: &str, n: u64)
    ensures
        entry_models(final(out)@) == entry_models(old(out)@) + number_entry(key@, n as int),
{
    put_json(out, key, Json::Number(Number::PosInt(n)));
}

pub(crate) fn put_signed(out: &mut Vec<(String, Json)>, key: &str, n: i64)
    ensures
        entry_models(final(out)@) == entry_models(old(out)@) + number_entry(key@, n as int),
{
    put_json(out, key, Json::Number(Number::from_i64(n)));
}

pub(crate) fn put_text(out: &mut Vec<(String, Json)>, key: &str, s: String)
    ensures
        entry_models(final(out)@) == entry_models(old(out)@) + text_entry(key@, s),
{
    put_json(out, key, Json::Text(s));
}

pub(crate) fn put_flag(out: &mut Vec<(String, Json)>, key: &str, b: bool)
    ensures
        entry_models(final(out)@) == entry_models(old(out)@) + flag_entry(key@, b),
{
    put_json(out, key, Json::Bool(b));
}

pub(crate) fn put_texts(out: &mut Vec<(String, Json)>, key: &str, texts: Vec<String>)
    ensures
        entry_models(final(out)@) == entry_models(old(out)@) + texts_entry(key@, texts@),
{
    let mut items: Vec<Json> = Vec::new();
    let mut i: usize = 0;
    assert(item_models(items@) =~= text_items(texts@).take(0));
    while i < texts.len()
        invariant
            i <= texts@.len(),
            item_models(items@) == text_items(texts@).take(i as int),
        decreases texts.len() - i,
    {
        let ghost before = item_models(items@);
        items.push(Json::Text(texts[i].clone()));
        assert(item_models(items@) =~= before.push(JsonModel::Text(texts@[i as int]@)));
        assert(text_items(texts@).take(i + 1) =~= before.push(JsonModel::Text(texts@[i as int]@)));
        i += 1;
    }
    assert(text_items(texts@).take(texts@.len() as int) =~= text_items(texts@));
    put_json(out, key, Json::Array(items));
}

pub(crate) fn put_optional_number(out: &mut Vec<(String, Json)>, key: &str, n: Option<u64>)
    ensures
        entry_models(final(out)@) == entry_models(old(out)@) + optional_number(key@, n),
{
    match n {
        Some(n) => put_number(out, key, n),
        None => {
            assert(entry_models(out@) + Seq::empty() =~= entry_models(out@));
        },
    }
}

pub(crate) fn put_optional_text(out: &mut Vec<(String, Json)>, key: &str, s: Option<String>)
    ensures
        entry_models(final(out)@) == entry_models(old(out)@) + optional_text(key@, s),
{
    match s {
        Some(s) => put_text(out, key, s),
        None => {
            assert(entry_models(out@) + Seq::empty() =~= entry_models(out@));
        },
    }
}

pub(crate) fn put_optional_flag(out: &mut Vec<(String, Json)>, key: &str, b: Option<bool>)
    ensures
        entry_models(final(out)@) == entry_models(old(out)@) + optional_flag(key@, b),
{
    match b {
        Some(b) => put_flag(out, key, b),
        None => {
            assert(entry_models(out@) + Seq::empty() =~= entry_models(out@));
        },
    }
}

pub(crate) fn put_nullable_number(out: &mut Vec<(String, Json)>, key: &str, n: Option<i64>)
    ensures
        entry_models(final(out)@) == entry_models(old(out)@) + nullable_number(key@, n),
{
    match n {
        Some(n) => put_signed(out, key, n),
        None => put_json(out, key, Json::Null),
    }
}

pub(crate) fn put_nullable_text(out: &mut Vec<(String, Json)>, key: &str, s: Option<String>)
    ensures
        entry_models(final(out)@) == entry_models(old(out)@) + nullable_text(key@, s),
{
    match s {
        Some(s) => put_text(out, key, s),
        None => put_json(out, key, Json::Null),
    }
}

pub(crate) fn put_nullable_flag(out: &mut Vec<(String, Json)>, key: &str, b: Option<bool>)
    ensures
        entry_models(final(out)@) == entry_models(old(out)@) + nullable_flag(key@, b),
{
    match b {
        Some(b) => put_flag(out, key, b),
        None => put_json(out, key, Json::Null),
    }
}

/// One for what is there, none otherwise.
pub open spec fn present(there: bool) -> int {
    if there {
        1
    } else {
        0
    }
}

/// What is found under a key.
pub closed spec fn found(entries: Entries, key: Seq<char>) -> Option<JsonModel> {
    lookup(entries, key)
}

pub proof fn lemma_found(entries: Entries)
    ensures
        forall|k: Seq<char>| #[trigger] lookup(entries, k) == found(entries, k),
{
}

/// What is found in one entry, or in none.
pub proof fn lemma_single(part: Entries, key: Seq<char>)
    requires
        part.len() <= 1,
        part.len() == 1 ==> part[0].0 == key,
    ensures
        forall|k: Seq<char>| #[trigger]
            found(part, k) == if k == key && part.len() == 1 {
                Some(part[0].1)
            } else {
                None
            },
{
    assert forall|k: Seq<char>| #[trigger] found(part, k) == if k == key && part.len() == 1 {
        Some(part[0].1)
    } else {
        None
    } by {
        if k == key && part.len() == 1 {
            lemma_key_position_is(part, k, 0);
        } else {
            lemma_key_position_is(part, k, part.len() as int);
        }
    }
}

/// What is found after one entry, or none, was added under a key that was not
/// there: that entry under its key, and what was there before under any other.
pub proof fn lemma_appended(before: Entries, part: Entries, key: Seq<char>)
    requires
        part.len() <= 1,
        part.len() == 1 ==> part[0].0 == key,
        found(before, key) is None,
    ensures
        forall|k: Seq<char>| #[trigger]
            found(before + part, k) == if k == key {
                found(part, key)
            } else {
                found(before, k)
            },
        found(part, key) == if part.len() == 1 {
            Some(part[0].1)
        } else {
            None
        },
{
    lemma_key_position(before, key);
    lemma_single(part, key);
    assert forall|k: Seq<char>| #[trigger] found(before + part, k) == if k == key {
        found(part, key)
    } else {
        found(before, k)
    } by {
        let after = before + part;
        lemma_key_position(before, k);
        let p = key_position(before, k);
        assert forall|i: int| 0 <= i < p implies (#[trigger] after[i]).0 != k by {
            assert(after[i] == before[i]);
        }
        if p < before.len() || k == key {
            lemma_key_position_is(after, k, p);
        } else {
            lemma_key_position_is(after, k, after.len() as int);
        }
    }
}

} // verus!
