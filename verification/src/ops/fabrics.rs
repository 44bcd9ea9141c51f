//! A device's own view of the fabrics it belongs to, removing one of them, and
//! naming ours.

use crate::ctx::IM_TIMEOUT_SECS;
use crate::identity::{truncate_to_bytes, truncated, FABRIC_LABEL_MAX_BYTES};
use crate::json::{entry_models, find_key, item_models, lookup, Json, JsonModel, Number};
use crate::ops::addr::{OP_CREDS, ROOT_ENDPOINT};
use crate::ops::interact::{read_request, ReadRequest};
use crate::reports::{path_key, path_string};
use crate::stack_api::{
    AttributePathSpec, DeviceFabric, StackError, StackErrorKind, StackErrorModel,
};
use crate::text::{decimal, decimal_string};
use vstd::prelude::*;

verus! {

/// `OperationalCredentials.Fabrics` attribute id.
pub const FABRICS_ATTR: u32 = 1;

/// The command that removes a fabric, and the name its failures go by.
pub const REMOVE_FABRIC: &'static str = "removeFabric";

pub const REMOVE_FABRIC_NAME: &'static str = "RemoveFabric";

/// The command that labels our fabric, and the name its failures go by.
pub const UPDATE_FABRIC_LABEL: &'static str = "updateFabricLabel";

pub const UPDATE_FABRIC_LABEL_NAME: &'static str = "UpdateFabricLabel";

/// The wording a client matches on.
pub const NO_FABRICS: &'static str = "No or invalid response received while querying fabrics";

/// The tags of a fabric descriptor, as keys.
pub const TAG_VENDOR_ID: &'static str = "2";

pub const TAG_FABRIC_ID: &'static str = "3";

pub const TAG_LABEL: &'static str = "5";

pub const TAG_FABRIC_INDEX: &'static str = "254";

#[verifier::ext_equal]
pub struct DeviceFabricModel {
    pub fabric_id: u64,
    pub vendor_id: u16,
    pub fabric_index: u8,
    pub fabric_label: Seq<char>,
}

impl DeviceFabric {
    pub open spec fn view(&self) -> DeviceFabricModel {
        DeviceFabricModel {
            fabric_id: self.fabric_id,
            vendor_id: self.vendor_id,
            fabric_index: self.fabric_index,
            fabric_label: self.fabric_label@,
        }
    }
}

/// The unsigned number under a key, 0 when there is none.
pub open spec fn number_at(entries: Seq<(Seq<char>, JsonModel)>, key: Seq<char>) -> u64 {
    match lookup(entries, key) {
        Some(v) => match v.unsigned() {
            Some(n) => n,
            None => 0,
        },
        None => 0,
    }
}

/// The text under a key, empty when there is none.
pub open spec fn text_at(entries: Seq<(Seq<char>, JsonModel)>, key: Seq<char>) -> Seq<char> {
    match lookup(entries, key) {
        Some(JsonModel::Text(s)) => s,
        _ => Seq::empty(),
    }
}

/// A fabric descriptor. A missing field has its default, so that the fabric still
/// shows; a number too large for its field is cut off.
pub open spec fn fabric_of(entries: Seq<(Seq<char>, JsonModel)>) -> DeviceFabricModel {
    DeviceFabricModel {
        fabric_id: number_at(entries, TAG_FABRIC_ID@),
        vendor_id: (number_at(entries, TAG_VENDOR_ID@) % 0x1_0000) as u16,
        fabric_index: (number_at(entries, TAG_FABRIC_INDEX@) % 0x100) as u8,
        fabric_label: text_at(entries, TAG_LABEL@),
    }
}

/// The fabrics of a list; what is not a struct is skipped.
pub open spec fn fabrics_of(items: Seq<JsonModel>) -> Seq<DeviceFabricModel>
    decreases items.len(),
{
    if items.len() == 0 {
        Seq::empty()
    } else {
        match items.last() {
            JsonModel::Object(entries) => fabrics_of(items.drop_last()).push(fabric_of(entries)),
            _ => fabrics_of(items.drop_last()),
        }
    }
}

pub open spec fn no_fabrics() -> StackErrorModel {
    StackErrorModel { kind: StackErrorKind::Sdk, message: NO_FABRICS@ }
}

pub open spec fn fabric_models(fabrics: Seq<DeviceFabric>) -> Seq<DeviceFabricModel> {
    fabrics.map_values(|f: DeviceFabric| f@)
}

/// What to read for the fabrics of a device. The read is not fabric-filtered:
/// the point is to see the other administrators' fabrics too.
pub fn fabrics_request() -> (res: ReadRequest)
    ensures
        res.paths@ == seq![
            AttributePathSpec {
                endpoint: Some(ROOT_ENDPOINT),
                cluster: Some(OP_CREDS),
                attribute: Some(FABRICS_ATTR),
            },
        ],
        res.paths@.len() == 1,
        res.paths@[0].endpoint == Some(0u16),
        res.paths@[0].cluster == Some(62u32),
        res.paths@[0].attribute == Some(1u32),
        !res.fabric_filtered,
        res.timeout_secs == IM_TIMEOUT_SECS,
        res.timeout_secs == 30,
{
    let mut paths: Vec<AttributePathSpec> = Vec::new();
    paths.push(
        AttributePathSpec {
            endpoint: Some(ROOT_ENDPOINT),
            cluster: Some(OP_CREDS),
            attribute: Some(FABRICS_ATTR),
        },
    );
    read_request(paths, false)
}

fn number_under(fields: &Vec<(String, Json)>, key: &str) -> (res: u64)
    ensures
        res == number_at(entry_models(fields@), key@),
{
    let at = find_key(fields, key);
    if at < fields.len() {
        match fields[at].1.as_u64() {
            Some(n) => n,
            None => 0,
        }
    } else {
        0
    }
}

fn text_under(fields: &Vec<(String, Json)>, key: &str) -> (res: String)
    ensures
        res@ == text_at(entry_models(fields@), key@),
{
    let at = find_key(fields, key);
    if at < fields.len() {
        match &fields[at].1 {
            Json::Text(s) => s.clone(),
            _ => String::new(),
        }
    } else {
        String::new()
    }
}

/// The fabrics a device reported. The list is looked up by its path; a device
/// that we reach over a fabric belongs to at least one, so an empty list is no
/// answer.
pub fn parse_fabrics(pairs: &Vec<(String, Json)>) -> (res: Result<Vec<DeviceFabric>, StackError>)
    ensures
        match lookup(entry_models(pairs@), path_key(ROOT_ENDPOINT, OP_CREDS, FABRICS_ATTR)) {
            Some(JsonModel::Array(items)) => if items.len() > 0 {
                res is Ok && fabric_models(res->Ok_0@) == fabrics_of(items)
            } else {
                res is Err && res->Err_0@ == no_fabrics()
            },
            _ => res is Err && res->Err_0@ == no_fabrics(),
        },
{
    let key = path_string(ROOT_ENDPOINT, OP_CREDS, FABRICS_ATTR);
    let at = find_key(pairs, key.as_str());
    if at >= pairs.len() {
        return Err(StackError::new(StackErrorKind::Sdk, NO_FABRICS.to_owned()));
    }
    let entries = match &pairs[at].1 {
        Json::Array(entries) => entries,
        _ => {
            return Err(StackError::new(StackErrorKind::Sdk, NO_FABRICS.to_owned()));
        },
    };
    let ghost models = item_models(entries@);
    assert(models.len() == entries@.len());
    if entries.len() == 0 {
        return Err(StackError::new(StackErrorKind::Sdk, NO_FABRICS.to_owned()));
    }
    let mut out: Vec<DeviceFabric> = Vec::new();
    let mut i: usize = 0;
    assert(models.take(0) =~= Seq::empty());
    assert(fabric_models(out@) =~= Seq::empty());
    while i < entries.len()
        invariant
            i <= entries@.len(),
            models == item_models(entries@),
            fabric_models(out@) == fabrics_of(models.take(i as int)),
        decreases entries.len() - i,
    {
        assert(models.take(i + 1).drop_last() =~= models.take(i as int));
        assert(models.take(i + 1).last() == entries@[i as int]@);
        if let Json::Object(fields) = &entries[i] {
            let ghost before = fabric_models(out@);
            let fabric = DeviceFabric {
                fabric_id: number_under(fields, TAG_FABRIC_ID),
                vendor_id: (number_under(fields, TAG_VENDOR_ID) % 0x1_0000) as u16,
                fabric_index: (number_under(fields, TAG_FABRIC_INDEX) % 0x100) as u8,
                fabric_label: text_under(fields, TAG_LABEL),
            };
            let ghost f = fabric@;
            out.push(fabric);
            assert(fabric_models(out@) =~= before.push(f));
        }
        i += 1;
    }
    assert(models.take(models.len() as int) =~= models);
    Ok(out)
}

/// What is wrong with the answer to a credentials command, if anything is: its
/// status code has to be there, and to be 0.
pub open spec fn noc_problem(command: Seq<char>, resp: JsonModel) -> Option<StackErrorModel> {
    let status = match resp.member("statusCode"@) {
        Some(v) => v.unsigned(),
        None => None,
    };
    match status {
        Some(0) => None,
        Some(n) => Some(
            StackErrorModel {
                kind: StackErrorKind::Sdk,
                message: command + " failed with status "@ + decimal(n as nat),
            },
        ),
        None => Some(
            StackErrorModel {
                kind: StackErrorKind::Sdk,
                message: command + " returned no status code"@,
            },
        ),
    }
}

/// Whether a credentials command succeeded: the device ran it, and the outcome is
/// in the payload.
pub fn check_noc_response(command: &str, resp: &Json) -> (res: Result<(), StackError>)
    ensures
        match noc_problem(command@, resp@) {
            None => res is Ok,
            Some(e) => res is Err && res->Err_0@ == e,
        },
{
    let status: Option<u64> = match resp.get("statusCode") {
        Some(v) => v.as_u64(),
        None => None,
    };
    match status {
        Some(n) => if n == 0 {
            Ok(())
        } else {
            let mut message = command.to_owned();
            message.append(" failed with status ");
            let code = decimal_string(n);
            message.append(code.as_str());
            Err(StackError::new(StackErrorKind::Sdk, message))
        },
        None => {
            let mut message = command.to_owned();
            message.append(" returned no status code");
            Err(StackError::new(StackErrorKind::Sdk, message))
        },
    }
}

/// What is wrong with telling one node our label, if anything is. It is only worth
/// a warning: the node keeps the label it has.
pub fn push_fabric_label(outcome: Result<Json, StackError>) -> (res: Option<StackError>)
    ensures
        match outcome {
            Err(e) => res == Some(e),
            Ok(resp) => match noc_problem(UPDATE_FABRIC_LABEL_NAME@, resp@) {
                None => res is None,
                Some(e) => res is Some && res->0@ == e,
            },
        },
{
    match outcome {
        Err(e) => Some(e),
        Ok(resp) => match check_noc_response(UPDATE_FABRIC_LABEL_NAME, &resp) {
            Ok(()) => None,
            Err(e) => Some(e),
        },
    }
}

/// The arguments of `removeFabric`.
pub fn remove_fabric_args(fabric_index: u8) -> (res: Json)
    ensures
        res@ == JsonModel::Object(
            seq![("fabricIndex"@, JsonModel::Number(Number::PosInt(fabric_index as u64)))],
        ),
{
    let mut entries: Vec<(String, Json)> = Vec::new();
    entries.push(("fabricIndex".to_owned(), Json::Number(Number::PosInt(fabric_index as u64))));
    assert(entry_models(entries@) =~= seq![
        ("fabricIndex"@, JsonModel::Number(Number::PosInt(fabric_index as u64))),
    ]);
    Json::Object(entries)
}

/// The arguments of `updateFabricLabel`: the label, cut to what a device accepts.
pub fn fabric_label_args(label: &str) -> (res: Json)
    ensures
        res@ == JsonModel::Object(
            seq![("label"@, JsonModel::Text(truncated(label@, FABRIC_LABEL_MAX_BYTES as nat)))],
        ),
        res@ == JsonModel::Object(seq![("label"@, JsonModel::Text(truncated(label@, 32)))]),
{
    let clamped = truncate_to_bytes(label, FABRIC_LABEL_MAX_BYTES);
    let mut entries: Vec<(String, Json)> = Vec::new();
    entries.push(("label".to_owned(), Json::Text(clamped.to_owned())));
    assert(entry_models(entries@) =~= seq![("label"@, JsonModel::Text(clamped@))]);
    Json::Object(entries)
}

/// Every struct in the list is one fabric, in order: none is dropped for a field
/// it lacks.
pub proof fn no_fabric_is_dropped(items: Seq<JsonModel>)
    requires
        forall|i: int| 0 <= i < items.len() ==> (#[trigger] items[i]) is Object,
    ensures
        fabrics_of(items).len() == items.len(),
        forall|i: int|
            0 <= i < items.len() ==> fabrics_of(items)[i] == fabric_of(
                (#[trigger] items[i])->Object_0,
            ),
    decreases items.len(),
{
    if items.len() > 0 {
        let shorter = items.drop_last();
        assert forall|i: int| 0 <= i < shorter.len() implies (#[trigger] shorter[i]) is Object by {
            assert(shorter[i] == items[i]);
        }
        no_fabric_is_dropped(shorter);
        assert(items.last() == items[items.len() - 1]);
        assert forall|i: int| 0 <= i < items.len() implies fabrics_of(items)[i] == fabric_of(
            (#[trigger] items[i])->Object_0,
        ) by {
            if i < shorter.len() {
                assert(shorter[i] == items[i]);
            }
        }
    }
}

/// A fabric is told by the tags of its descriptor: the vendor under 2, the fabric id
/// under 3, the label under 5 and the index under 254. A number that does not fit
/// its field keeps its low bits, and what is missing, or of another kind, is 0 or
/// empty.
pub proof fn fabrics_are_read_by_tag(entries: Seq<(Seq<char>, JsonModel)>, n: u64, s: Seq<char>)
    ensures
        ({
            let f = fabric_of(entries);
            let number = Some(JsonModel::Number(Number::PosInt(n)));
            &&& lookup(entries, "3"@) == number ==> f.fabric_id == n
            &&& lookup(entries, "2"@) == number ==> f.vendor_id == n % 0x1_0000
            &&& lookup(entries, "254"@) == number ==> f.fabric_index == n % 0x100
            &&& lookup(entries, "5"@) == Some(JsonModel::Text(s)) ==> f.fabric_label == s
            &&& !(lookup(entries, "3"@) matches Some(JsonModel::Number(Number::PosInt(_))))
                ==> f.fabric_id == 0
            &&& !(lookup(entries, "2"@) matches Some(JsonModel::Number(Number::PosInt(_))))
                ==> f.vendor_id == 0
            &&& !(lookup(entries, "254"@) matches Some(JsonModel::Number(Number::PosInt(_))))
                ==> f.fabric_index == 0
            &&& !(lookup(entries, "5"@) matches Some(JsonModel::Text(_))) ==> f.fabric_label
                == Seq::<char>::empty()
        }),
{
}

/// What is no struct among the fabrics is left out, and costs no other.
pub proof fn other_items_are_no_fabrics(a: Seq<JsonModel>, b: Seq<JsonModel>, v: JsonModel)
    ensures
        fabrics_of(a + b) == fabrics_of(a) + fabrics_of(b),
        v !is Object ==> fabrics_of(seq![v]).len() == 0,
    decreases b.len(),
{
    assert(seq![v].drop_last() =~= Seq::empty());
    assert(fabrics_of(Seq::empty()).len() == 0);
    if b.len() == 0 {
        assert(a + b =~= a);
        assert(fabrics_of(a) + fabrics_of(b) =~= fabrics_of(a));
    } else {
        other_items_are_no_fabrics(a, b.drop_last(), v);
        assert((a + b).drop_last() =~= a + b.drop_last());
        assert(fabrics_of(a + b) =~= fabrics_of(a) + fabrics_of(b));
    }
}

/// A credentials command succeeded exactly where its answer has the status code 0.
/// Any other code is named in what is told of it, and so is its lack.
pub proof fn only_status_zero_is_success(command: Seq<char>, resp: JsonModel, n: u64)
    ensures
        noc_problem(command, resp) is None <==> resp.member("statusCode"@) == Some(
            JsonModel::Number(Number::PosInt(0)),
        ),
        noc_problem(command, resp) is Some ==> noc_problem(command, resp)->0.kind is Sdk,
        n != 0 && resp.member("statusCode"@) == Some(JsonModel::Number(Number::PosInt(n)))
            ==> noc_problem(command, resp)->0.message == command + " failed with status "@
            + decimal(n as nat),
        !(resp.member("statusCode"@) matches Some(JsonModel::Number(Number::PosInt(_))))
            ==> noc_problem(command, resp)->0.message == command + " returned no status code"@,
{
}

/// The fabrics of a device are read from 0/62/1.
pub proof fn fabrics_are_read_by_path()
    ensures
        path_key(ROOT_ENDPOINT, OP_CREDS, FABRICS_ATTR) == "0/62/1"@,
        no_fabrics().kind is Sdk,
        no_fabrics().message == "No or invalid response received while querying fabrics"@,
{
    reveal_strlit("0/62/1");
    assert(decimal(6) =~= seq!['6']);
    assert(decimal(62) =~= seq!['6', '2']);
    assert(decimal(0) =~= seq!['0']);
    assert(decimal(1) =~= seq!['1']);
    assert(path_key(0, 62, 1) =~= "0/62/1"@);
}

} // verus!
