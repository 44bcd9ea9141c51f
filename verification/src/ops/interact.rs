//! Reads, writes and commands: what is sent, and what the answers come to.

use crate::ctx::{sdk_message, sdk_text, IM_TIMEOUT_SECS, INTERVIEW_TIMEOUT_SECS};
use crate::error::{invalid, invalid_data, SdkError, SdkErrorModel};
use crate::idl::{
    attr_by_code, cluster_by_id, command_by_name, find_cluster, struct_by_name, Cluster, Command,
    StructDef,
};
use crate::json::{Json, JsonModel};
use crate::reports::{path_key, path_string, AttrPath};
use crate::stack_api::{AttributePathSpec, StackError, StackErrorKind, StackErrorModel};
use crate::text::{decimal, decimal_string, hex, hex_string};
use crate::tlv::{member_models, Tlv, TlvModel};
use crate::tlv_json::{json_of, named_json, tlv_to_json, tlv_to_json_named, Reading};
use crate::tlv_write::{
    named_tlv, tlv_of, write_json, write_json_named, writing, written, HintModel, TypeHint,
};
use vstd::prelude::*;

verus! {

/// The budget of a command that has to be timed, in milliseconds, when the caller
/// asked for none.
pub const DEFAULT_TIMED_MS: u16 = 10_000;

/// The timed budget to use. Zero has already expired by the time the device reads
/// it, so it counts as none.
pub fn normalize_timed(timed_ms: Option<u16>, cmd: &Command) -> (res: Option<u16>)
    ensures
        res == timed_budget(timed_ms, cmd.is_timed),
{
    match timed_ms {
        Some(ms) if ms > 0 => Some(ms),
        _ => if cmd.is_timed {
            Some(DEFAULT_TIMED_MS)
        } else {
            None
        },
    }
}

pub open spec fn timed_budget(timed_ms: Option<u16>, is_timed: bool) -> Option<u16> {
    match timed_ms {
        Some(ms) if ms > 0 => Some(ms),
        _ => if is_timed {
            Some(DEFAULT_TIMED_MS)
        } else {
            None
        },
    }
}

/// The wire path of a path specification, segment for segment.
pub fn to_attr_path(p: &AttributePathSpec) -> (res: AttrPath)
    ensures
        res == (AttrPath {
            node: None,
            endpoint: p.endpoint,
            cluster: p.cluster,
            attr: p.attribute,
            list_index: None,
        }),
{
    AttrPath {
        node: None,
        endpoint: p.endpoint,
        cluster: p.cluster,
        attr: p.attribute,
        list_index: None,
    }
}

/// The wire paths of a read.
pub fn read_paths(paths: &Vec<AttributePathSpec>) -> (res: Vec<AttrPath>)
    ensures
        res@ == paths@.map_values(
            |p: AttributePathSpec|
                AttrPath {
                    node: None,
                    endpoint: p.endpoint,
                    cluster: p.cluster,
                    attr: p.attribute,
                    list_index: None,
                },
        ),
{
    let mut out: Vec<AttrPath> = Vec::new();
    let mut i: usize = 0;
    while i < paths.len()
        invariant
            i <= paths@.len(),
            out@.len() == i,
            forall|j: int|
                0 <= j < i ==> #[trigger] out@[j] == (AttrPath {
                    node: None,
                    endpoint: paths@[j].endpoint,
                    cluster: paths@[j].cluster,
                    attr: paths@[j].attribute,
                    list_index: None,
                }),
        decreases paths.len() - i,
    {
        out.push(to_attr_path(&paths[i]));
        i += 1;
    }
    out
}

/// What is asked of a device in one read.
#[derive(Debug, PartialEq, Eq)]
pub struct ReadRequest {
    pub paths: Vec<AttributePathSpec>,
    /// Whether lists are cut down to our own fabric's entries.
    pub fabric_filtered: bool,
    pub timeout_secs: u64,
}

/// A read of given paths, within the time of one transaction.
pub fn read_request(paths: Vec<AttributePathSpec>, fabric_filtered: bool) -> (res: ReadRequest)
    ensures
        res == (ReadRequest { paths, fabric_filtered, timeout_secs: IM_TIMEOUT_SECS }),
        res.timeout_secs == 30,
{
    ReadRequest { paths, fabric_filtered, timeout_secs: IM_TIMEOUT_SECS }
}

/// What an interview reads: everything, as seen by our own fabric, within the time
/// that a bridge takes to tell all it has.
pub fn interview_request() -> (res: ReadRequest)
    ensures
        res.paths@ == seq![AttributePathSpec { endpoint: None, cluster: None, attribute: None }],
        res.fabric_filtered,
        res.timeout_secs == INTERVIEW_TIMEOUT_SECS,
        res.timeout_secs == 120,
{
    let mut paths: Vec<AttributePathSpec> = Vec::new();
    paths.push(AttributePathSpec { endpoint: None, cluster: None, attribute: None });
    ReadRequest { paths, fabric_filtered: true, timeout_secs: INTERVIEW_TIMEOUT_SECS }
}

/// What the tables know of an attribute's slot.
pub open spec fn attr_hint(clusters: Seq<Cluster>, cluster: u32, attribute: u32) -> Option<HintModel> {
    match cluster_by_id(clusters, cluster as nat) {
        None => None,
        Some(c) => match attr_by_code(c.attrs@, attribute as nat) {
            None => None,
            Some(a) => Some(HintModel { ty: a.ty@, is_list: a.is_list, cluster: Some(c) }),
        },
    }
}

pub open spec fn invalid_value(
    endpoint: u16,
    cluster: u32,
    attribute: u32,
    e: SdkErrorModel,
) -> StackErrorModel {
    StackErrorModel {
        kind: StackErrorKind::InvalidArguments,
        message: "Invalid value for attribute "@ + path_key(endpoint, cluster, attribute) + ": "@
            + sdk_message(e),
    }
}

/// How a value that cannot be encoded is reported.
pub fn invalid_attribute_value(endpoint: u16, cluster: u32, attribute: u32, e: &SdkError) -> (res:
    StackError)
    ensures
        res@ == invalid_value(endpoint, cluster, attribute, e@),
{
    let mut message = "Invalid value for attribute ".to_owned();
    let path = path_string(endpoint, cluster, attribute);
    message.append(path.as_str());
    message.append(": ");
    let text = sdk_text(e);
    message.append(text.as_str());
    StackError::new(StackErrorKind::InvalidArguments, message)
}

/// Encodes the value of an attribute write, before anything is sent: a value of
/// the wrong shape is the caller's mistake.
pub fn encode_attribute(
    clusters: &Vec<Cluster>,
    endpoint: u16,
    cluster: u32,
    attribute: u32,
    value: &Json,
) -> (res: Result<Tlv, StackError>)
    ensures
        match tlv_of(value@, attr_hint(clusters@, cluster, attribute)) {
            Some(t) => res is Ok && res->Ok_0@ == t,
            None => res is Err && res->Err_0@ == invalid_value(
                endpoint,
                cluster,
                attribute,
                invalid_data(),
            ),
        },
{
    let hint: Option<TypeHint<'_>> = match find_cluster(clusters, cluster) {
        None => None,
        Some(c) => match c.attr(attribute) {
            None => None,
            Some(a) => Some(TypeHint { ty: a.ty.as_str(), is_list: a.is_list, cluster: Some(c) }),
        },
    };
    match write_json(value, hint) {
        Ok(t) => Ok(t),
        Err(e) => Err(invalid_attribute_value(endpoint, cluster, attribute, &e)),
    }
}

/// One entry of a write response.
#[derive(Debug, PartialEq, Eq)]
pub enum WriteStatus {
    Unreadable(SdkError),
    Status { path: AttrPath, code: u8 },
}

/// Whether a path is exactly this attribute.
pub open spec fn is_path(path: AttrPath, endpoint: u16, cluster: u32, attribute: u32) -> bool {
    path.endpoint == Some(endpoint) && path.cluster == Some(cluster) && path.attr == Some(attribute)
}

/// The status of a write among the entries of its response: the first failure for
/// the path that was written, or success when there are only successes for it, or
/// nothing when it is not mentioned. An unreadable entry before that is an error.
pub open spec fn status_for(
    entries: Seq<WriteStatus>,
    endpoint: u16,
    cluster: u32,
    attribute: u32,
    seen: bool,
) -> Result<Option<u8>, SdkErrorModel>
    decreases entries.len(),
{
    if entries.len() == 0 {
        Ok(
            if seen {
                Some(0u8)
            } else {
                None
            },
        )
    } else {
        match entries[0] {
            WriteStatus::Unreadable(e) => Err(e@),
            WriteStatus::Status { path, code } => if !is_path(path, endpoint, cluster, attribute) {
                status_for(entries.skip(1), endpoint, cluster, attribute, seen)
            } else if code != 0 {
                Ok(Some(code))
            } else {
                status_for(entries.skip(1), endpoint, cluster, attribute, true)
            },
        }
    }
}

pub open spec fn no_status(endpoint: u16, cluster: u32, attribute: u32) -> StackErrorModel {
    StackErrorModel {
        kind: StackErrorKind::Sdk,
        message: "device returned no write status for "@ + path_key(endpoint, cluster, attribute),
    }
}

/// What a write response comes to: the status of the attribute that was written.
/// A response that does not mention it is not a success.
pub fn write_status(entries: &Vec<WriteStatus>, endpoint: u16, cluster: u32, attribute: u32) -> (res:
    Result<Result<u8, StackError>, SdkError>)
    ensures
        match status_for(entries@, endpoint, cluster, attribute, false) {
            Err(e) => res is Err && res->Err_0@ == e,
            Ok(Some(code)) => res == Ok::<Result<u8, StackError>, SdkError>(Ok(code)),
            Ok(None) => res is Ok && res->Ok_0 is Err && res->Ok_0->Err_0@ == no_status(
                endpoint,
                cluster,
                attribute,
            ),
        },
{
    let mut seen = false;
    let mut i: usize = 0;
    assert(entries@.skip(0) =~= entries@);
    while i < entries.len()
        invariant
            i <= entries@.len(),
            status_for(entries@, endpoint, cluster, attribute, false) == status_for(
                entries@.skip(i as int),
                endpoint,
                cluster,
                attribute,
                seen,
            ),
        decreases entries.len() - i,
    {
        assert(entries@.skip(i as int).skip(1) =~= entries@.skip(i + 1));
        assert(entries@.skip(i as int)[0] == entries@[i as int]);
        match &entries[i] {
            WriteStatus::Unreadable(e) => {
                return Err(e.duplicate());
            },
            WriteStatus::Status { path, code } => {
                let ours = path.endpoint == Some(endpoint) && path.cluster == Some(cluster)
                    && path.attr == Some(attribute);
                if ours {
                    if *code != 0 {
                        return Ok(Ok(*code));
                    }
                    seen = true;
                }
            },
        }
        i += 1;
    }
    if seen {
        Ok(Ok(0))
    } else {
        let mut message = "device returned no write status for ".to_owned();
        let path = path_string(endpoint, cluster, attribute);
        message.append(path.as_str());
        Ok(Err(StackError::new(StackErrorKind::Sdk, message)))
    }
}

/// The arguments of a command: its request struct, or an empty one for a command
/// without. Null stands for no arguments; any other non-object is rejected.
pub open spec fn command_args(c: Cluster, cmd: Command, payload: JsonModel) -> Option<TlvModel> {
    let entries = match payload {
        JsonModel::Null => Some(Seq::<(Seq<char>, JsonModel)>::empty()),
        JsonModel::Object(entries) => Some(entries),
        _ => None,
    };
    match entries {
        None => None,
        Some(entries) => match request_struct(c, cmd) {
            Some(s) => named_tlv(entries, s.fields@, c),
            None => Some(TlvModel::Struct(Seq::empty())),
        },
    }
}

pub open spec fn named_struct(c: Cluster, name: Option<String>) -> Option<StructDef> {
    match name {
        Some(name) => struct_by_name(c.structs@, name@),
        None => None,
    }
}

pub open spec fn request_struct(c: Cluster, cmd: Command) -> Option<StructDef> {
    named_struct(c, cmd.input)
}

/// Encodes the arguments of a command.
pub fn encode_command_args(meta: &Cluster, cmd: &Command, payload: &Json) -> (res: Result<
    Tlv,
    SdkError,
>)
    ensures
        written(res) == writing(command_args(*meta, *cmd, payload@)),
{
    let empty: Vec<(String, Json)> = Vec::new();
    assert(crate::json::entry_models(empty@) =~= Seq::empty());
    let entries = match payload {
        Json::Null => &empty,
        Json::Object(entries) => entries,
        _ => {
            return Err(invalid());
        },
    };
    let input = match &cmd.input {
        Some(name) => meta.find_struct(name.as_str()),
        None => None,
    };
    match input {
        Some(s) => write_json_named(entries, &s.fields, meta),
        None => {
            let members: Vec<crate::tlv::Member> = Vec::new();
            assert(member_models(members@) =~= Seq::empty());
            Ok(Tlv::Struct(members))
        },
    }
}

/// A command ready to send.
pub struct PreparedInvoke<'a> {
    pub code: u32,
    pub timed_ms: Option<u16>,
    pub args: Tlv,
    pub cluster: &'a Cluster,
    pub output: Option<&'a StructDef>,
}

pub open spec fn unknown_cluster(cluster: u32) -> StackErrorModel {
    StackErrorModel {
        kind: StackErrorKind::InvalidArguments,
        message: "Cluster Id \""@ + decimal(cluster as nat) + "\" unknown"@,
    }
}

pub open spec fn unknown_command(name: Seq<char>, cluster_name: Seq<char>) -> StackErrorModel {
    StackErrorModel {
        kind: StackErrorKind::InvalidArguments,
        message: "Command \""@ + name + "\" does not exist on cluster \""@ + cluster_name + "\""@,
    }
}

pub open spec fn invalid_payload(name: Seq<char>, e: SdkErrorModel) -> StackErrorModel {
    StackErrorModel {
        kind: StackErrorKind::InvalidArguments,
        message: "Invalid payload for command \""@ + name + "\": "@ + sdk_message(e),
    }
}

/// How a payload that cannot be encoded is reported.
pub fn invalid_command_payload(command_name: &str, e: &SdkError) -> (res: StackError)
    ensures
        res@ == invalid_payload(command_name@, e@),
{
    let mut message = "Invalid payload for command \"".to_owned();
    message.append(command_name);
    message.append("\": ");
    let text = sdk_text(e);
    message.append(text.as_str());
    StackError::new(StackErrorKind::InvalidArguments, message)
}

/// Looks a command up and encodes its arguments, before anything is sent: an
/// unknown cluster, an unknown command and a payload of the wrong shape are the
/// caller's mistakes.
pub fn prepare_invoke<'a>(
    clusters: &'a Vec<Cluster>,
    cluster: u32,
    command_name: &str,
    payload: &Json,
    timed_ms: Option<u16>,
) -> (res: Result<PreparedInvoke<'a>, StackError>)
    ensures
        match cluster_by_id(clusters@, cluster as nat) {
            None => res is Err && res->Err_0@ == unknown_cluster(cluster),
            Some(c) => match command_by_name(c.commands@, command_name@) {
                None => res is Err && res->Err_0@ == unknown_command(command_name@, c.name@),
                Some(cmd) => match command_args(c, cmd, payload@) {
                    None => res is Err && res->Err_0@ == invalid_payload(
                        command_name@,
                        invalid_data(),
                    ),
                    Some(args) => {
                        &&& res is Ok
                        &&& res->Ok_0.code == cmd.code
                        &&& res->Ok_0.timed_ms == timed_budget(timed_ms, cmd.is_timed)
                        &&& res->Ok_0.args@ == args
                        &&& *res->Ok_0.cluster == c
                        &&& match res->Ok_0.output {
                            Some(s) => named_struct(c, cmd.output) == Some(*s),
                            None => named_struct(c, cmd.output) is None,
                        }
                    },
                },
            },
        },
{
    let meta = match find_cluster(clusters, cluster) {
        Some(c) => c,
        None => {
            let mut message = "Cluster Id \"".to_owned();
            let id = decimal_string(cluster as u64);
            message.append(id.as_str());
            message.append("\" unknown");
            return Err(StackError::new(StackErrorKind::InvalidArguments, message));
        },
    };
    let cmd = match meta.find_command(command_name) {
        Some(cmd) => cmd,
        None => {
            let mut message = "Command \"".to_owned();
            message.append(command_name);
            message.append("\" does not exist on cluster \"");
            message.append(meta.name.as_str());
            message.append("\"");
            return Err(StackError::new(StackErrorKind::InvalidArguments, message));
        },
    };
    let args = match encode_command_args(meta, cmd, payload) {
        Ok(args) => args,
        Err(e) => {
            return Err(invalid_command_payload(command_name, &e));
        },
    };
    let output = match &cmd.output {
        Some(name) => meta.find_struct(name.as_str()),
        None => None,
    };
    Ok(
        PreparedInvoke {
            code: cmd.code,
            timed_ms: normalize_timed(timed_ms, cmd),
            args,
            cluster: meta,
            output,
        },
    )
}

/// An interaction status: its code, and the name it goes by.
#[derive(Debug, PartialEq, Eq)]
pub struct ImStatus {
    pub code: u8,
    pub name: String,
}

pub const STATUS_SUCCESS: u8 = 0;

pub const STATUS_TIMEOUT: u8 = 0x94;

pub const STATUS_BUSY: u8 = 0x9C;

/// How a status other than success is reported.
pub open spec fn command_failure(command: Seq<char>, code: u8, name: Seq<char>) -> StackErrorModel {
    StackErrorModel {
        kind: if code == STATUS_BUSY {
            StackErrorKind::Busy
        } else if code == STATUS_TIMEOUT {
            StackErrorKind::Timeout
        } else {
            StackErrorKind::Sdk
        },
        message: "Command \""@ + command + "\" failed with IM status "@ + name + " (0x"@ + hex(
            code as nat,
            2,
            false,
        ) + ")"@,
    }
}

/// A device answering a command with a status other than success. It is never
/// reported as an unreachable node, whatever the status.
pub fn command_failed(command_name: &str, status: &ImStatus) -> (res: StackError)
    ensures
        res@ == command_failure(command_name@, status.code, status.name@),
        res@.kind != StackErrorKind::NodeUnreachable,
{
    let kind = if status.code == STATUS_BUSY {
        StackErrorKind::Busy
    } else if status.code == STATUS_TIMEOUT {
        StackErrorKind::Timeout
    } else {
        StackErrorKind::Sdk
    };
    let mut message = "Command \"".to_owned();
    message.append(command_name);
    message.append("\" failed with IM status ");
    message.append(status.name.as_str());
    message.append(" (0x");
    let code = hex_string(status.code as u64, 2, false);
    message.append(code.as_str());
    message.append(")");
    StackError::new(kind, message)
}

/// One entry of an invoke response.
#[derive(Debug, PartialEq, Eq)]
pub enum InvokeResponse {
    Unreadable(SdkError),
    Command(Tlv),
    Status(ImStatus),
}

/// What the answers to one command come to so far: the first payload, unless a
/// failure was reported, and then the last of those.
pub struct InvokeOutcome {
    result: Result<Json, StackError>,
    got_payload: bool,
    seen: usize,
}

#[verifier::ext_equal]
pub struct InvokeModel {
    pub result: Result<JsonModel, StackErrorModel>,
    pub got_payload: bool,
    pub seen: nat,
}

pub open spec fn outcome_model(r: Result<Json, StackError>) -> Result<JsonModel, StackErrorModel> {
    match r {
        Ok(v) => Ok(v@),
        Err(e) => Err(e@),
    }
}

/// What a response payload reads as.
pub open spec fn payload_json(t: TlvModel, output: Option<StructDef>, c: Cluster) -> Reading {
    match output {
        Some(s) => named_json(t, s.fields@, c, 0),
        None => json_of(t, 0),
    }
}

/// The outcome after one more entry, or the error that ends the exchange.
pub open spec fn outcome_after(
    m: InvokeModel,
    r: InvokeResponse,
    command: Seq<char>,
    output: Option<StructDef>,
    c: Cluster,
) -> Result<InvokeModel, SdkErrorModel> {
    match r {
        InvokeResponse::Unreadable(e) => Err(e@),
        InvokeResponse::Command(t) => match payload_json(t@, output, c) {
            Err(e) => Err(e),
            Ok(v) => if m.result is Ok && !m.got_payload {
                Ok(InvokeModel { result: Ok(v), got_payload: true, seen: m.seen + 1 })
            } else {
                Ok(InvokeModel { seen: m.seen + 1, ..m })
            },
        },
        InvokeResponse::Status(s) => if s.code != STATUS_SUCCESS {
            Ok(
                InvokeModel {
                    result: Err(command_failure(command, s.code, s.name@)),
                    seen: m.seen + 1,
                    ..m
                },
            )
        } else {
            Ok(InvokeModel { seen: m.seen + 1, ..m })
        },
    }
}

/// The outcome after a run of entries.
pub open spec fn outcome_of(
    m: InvokeModel,
    responses: Seq<InvokeResponse>,
    command: Seq<char>,
    output: Option<StructDef>,
    c: Cluster,
) -> Result<InvokeModel, SdkErrorModel>
    decreases responses.len(),
{
    if responses.len() == 0 {
        Ok(m)
    } else {
        match outcome_after(m, responses[0], command, output, c) {
            Err(e) => Err(e),
            Ok(next) => outcome_of(next, responses.skip(1), command, output, c),
        }
    }
}

/// What a run of entries comes to up to the first that ends the exchange.
pub open spec fn outcome_reached(
    m: InvokeModel,
    responses: Seq<InvokeResponse>,
    command: Seq<char>,
    output: Option<StructDef>,
    c: Cluster,
) -> InvokeModel
    decreases responses.len(),
{
    if responses.len() == 0 {
        m
    } else {
        match outcome_after(m, responses[0], command, output, c) {
            Err(_) => m,
            Ok(next) => outcome_reached(next, responses.skip(1), command, output, c),
        }
    }
}

pub open spec fn no_outcome() -> InvokeModel {
    InvokeModel { result: Ok(JsonModel::Null), got_payload: false, seen: 0 }
}

pub open spec fn optional<'a>(s: Option<&'a StructDef>) -> Option<StructDef> {
    match s {
        Some(s) => Some(*s),
        None => None,
    }
}

impl InvokeOutcome {
    pub closed spec fn view(&self) -> InvokeModel {
        InvokeModel {
            result: outcome_model(self.result),
            got_payload: self.got_payload,
            seen: self.seen as nat,
        }
    }

    /// Before any answer. A bare success answers with nothing, and comes to null.
    pub fn new() -> (res: InvokeOutcome)
        ensures
            res@ == no_outcome(),
    {
        InvokeOutcome { result: Ok(Json::Null), got_payload: false, seen: 0 }
    }

    /// Takes in the entries of one chunk.
    pub fn absorb(
        &mut self,
        responses: &Vec<InvokeResponse>,
        command_name: &str,
        output: Option<&StructDef>,
        cluster: &Cluster,
    ) -> (res: Result<(), SdkError>)
        requires
            old(self)@.seen + responses@.len() <= usize::MAX,
        ensures
            match outcome_of(old(self)@, responses@, command_name@, optional(output), *cluster) {
                Ok(m) => res is Ok && final(self)@ == m,
                Err(e) => res is Err && res->Err_0@ == e,
            },
            final(self)@ == outcome_reached(
                old(self)@,
                responses@,
                command_name@,
                optional(output),
                *cluster,
            ),
    {
        let ghost start = self@;
        let mut i: usize = 0;
        assert(responses@.skip(0) =~= responses@);
        while i < responses.len()
            invariant
                i <= responses@.len(),
                start == old(self)@,
                self@.seen == start.seen + i,
                start.seen + responses@.len() <= usize::MAX,
                outcome_reached(start, responses@, command_name@, optional(output), *cluster)
                    == outcome_reached(
                    self@,
                    responses@.skip(i as int),
                    command_name@,
                    optional(output),
                    *cluster,
                ),
                outcome_of(start, responses@, command_name@, optional(output), *cluster)
                    == outcome_of(
                    self@,
                    responses@.skip(i as int),
                    command_name@,
                    optional(output),
                    *cluster,
                ),
            decreases responses.len() - i,
        {
            assert(responses@.skip(i as int).skip(1) =~= responses@.skip(i + 1));
            assert(responses@.skip(i as int)[0] == responses@[i as int]);
            let ghost before = self@;
            match &responses[i] {
                InvokeResponse::Unreadable(e) => {
                    return Err(e.duplicate());
                },
                InvokeResponse::Command(t) => {
                    let converted = match output {
                        Some(s) => tlv_to_json_named(t, &s.fields, cluster),
                        None => tlv_to_json(t),
                    };
                    match converted {
                        Err(e) => {
                            return Err(e);
                        },
                        Ok(json) => {
                            self.seen = self.seen + 1;
                            if self.result.is_ok() && !self.got_payload {
                                self.got_payload = true;
                                self.result = Ok(json);
                            }
                        },
                    }
                },
                InvokeResponse::Status(s) => {
                    self.seen = self.seen + 1;
                    if s.code != STATUS_SUCCESS {
                        self.result = Err(command_failed(command_name, s));
                    }
                },
            }
            assert(outcome_after(
                before,
                responses@[i as int],
                command_name@,
                optional(output),
                *cluster,
            ) == Ok::<InvokeModel, SdkErrorModel>(self@));
            i += 1;
        }
        Ok(())
    }

    /// Entries taken in so far. One command is owed one answer.
    pub fn seen(&self) -> (res: usize)
        ensures
            res == self@.seen,
    {
        self.seen
    }

    pub fn into_result(self) -> (res: Result<Json, StackError>)
        ensures
            outcome_model(res) == self@.result,
    {
        self.result
    }
}

/// A failure outranks any payload: once one was reported, the outcome stays a
/// failure.
pub proof fn failures_outrank_payloads(
    m: InvokeModel,
    responses: Seq<InvokeResponse>,
    command: Seq<char>,
    output: Option<StructDef>,
    c: Cluster,
)
    requires
        m.result is Err,
        outcome_of(m, responses, command, output, c) is Ok,
    ensures
        outcome_of(m, responses, command, output, c)->Ok_0.result is Err,
    decreases responses.len(),
{
    if responses.len() > 0 {
        let next = outcome_after(m, responses[0], command, output, c)->Ok_0;
        failures_outrank_payloads(next, responses.skip(1), command, output, c);
    }
}

/// The first payload wins over later ones, unless a failure is reported.
pub proof fn first_payload_wins(
    m: InvokeModel,
    responses: Seq<InvokeResponse>,
    command: Seq<char>,
    output: Option<StructDef>,
    c: Cluster,
)
    requires
        m.result is Ok,
        m.got_payload,
        outcome_of(m, responses, command, output, c) is Ok,
    ensures
        outcome_of(m, responses, command, output, c)->Ok_0.result == m.result || outcome_of(
            m,
            responses,
            command,
            output,
            c,
        )->Ok_0.result is Err,
    decreases responses.len(),
{
    if responses.len() > 0 {
        let next = outcome_after(m, responses[0], command, output, c)->Ok_0;
        if next.result is Ok {
            first_payload_wins(next, responses.skip(1), command, output, c);
        } else {
            failures_outrank_payloads(next, responses.skip(1), command, output, c);
        }
    }
}

/// A success reported for the path that was written does not mask a failure
/// reported after it, and nothing reported later masks that failure.
pub proof fn write_failures_are_not_masked(
    before: Seq<WriteStatus>,
    path: AttrPath,
    code: u8,
    after: Seq<WriteStatus>,
    endpoint: u16,
    cluster: u32,
    attribute: u32,
    seen: bool,
)
    requires
        is_path(path, endpoint, cluster, attribute),
        code != 0,
        forall|i: int|
            0 <= i < before.len() ==> match #[trigger] before[i] {
                WriteStatus::Unreadable(_) => false,
                WriteStatus::Status { path: p, code: c } => is_path(
                    p,
                    endpoint,
                    cluster,
                    attribute,
                ) ==> c == 0,
            },
    ensures
        status_for(
            before.push(WriteStatus::Status { path, code }) + after,
            endpoint,
            cluster,
            attribute,
            seen,
        ) == Ok::<Option<u8>, SdkErrorModel>(Some(code)),
    decreases before.len(),
{
    let entries = before.push(WriteStatus::Status { path, code }) + after;
    if before.len() > 0 {
        let rest = before.skip(1);
        assert(entries.skip(1) =~= rest.push(WriteStatus::Status { path, code }) + after);
        assert(entries[0] == before[0]);
        assert forall|i: int| 0 <= i < rest.len() implies match #[trigger] rest[i] {
            WriteStatus::Unreadable(_) => false,
            WriteStatus::Status { path: p, code: c } => is_path(p, endpoint, cluster, attribute)
                ==> c == 0,
        } by {
            assert(rest[i] == before[i + 1]);
        }
        write_failures_are_not_masked(
            rest,
            path,
            code,
            after,
            endpoint,
            cluster,
            attribute,
            seen,
        );
        write_failures_are_not_masked(
            rest,
            path,
            code,
            after,
            endpoint,
            cluster,
            attribute,
            true,
        );
    } else {
        assert(entries[0] == (WriteStatus::Status { path, code }));
    }
}

/// Statuses for other paths count for nothing: a response with no other entries
/// is not a success.
pub proof fn unrelated_statuses_are_no_success(
    entries: Seq<WriteStatus>,
    endpoint: u16,
    cluster: u32,
    attribute: u32,
)
    requires
        forall|i: int|
            0 <= i < entries.len() ==> match #[trigger] entries[i] {
                WriteStatus::Unreadable(_) => false,
                WriteStatus::Status { path, code } => !is_path(path, endpoint, cluster, attribute),
            },
    ensures
        status_for(entries, endpoint, cluster, attribute, false) == Ok::<
            Option<u8>,
            SdkErrorModel,
        >(None),
    decreases entries.len(),
{
    if entries.len() > 0 {
        let rest = entries.skip(1);
        assert forall|i: int| 0 <= i < rest.len() implies match #[trigger] rest[i] {
            WriteStatus::Unreadable(_) => false,
            WriteStatus::Status { path, code } => !is_path(path, endpoint, cluster, attribute),
        } by {
            assert(rest[i] == entries[i + 1]);
        }
        assert(!(entries[0] is Unreadable));
        unrelated_statuses_are_no_success(rest, endpoint, cluster, attribute);
    }
}

/// A budget the caller asks for is the one used, unless it is zero; without one, a
/// command that has to be timed gets ten seconds, and any other none.
pub proof fn timed_commands_have_a_budget(timed_ms: Option<u16>, is_timed: bool)
    ensures
        timed_ms is Some && timed_ms->0 > 0 ==> timed_budget(timed_ms, is_timed) == timed_ms,
        timed_ms is None || timed_ms->0 == 0 ==> timed_budget(timed_ms, is_timed) == if is_timed {
            Some(10_000u16)
        } else {
            None
        },
        timed_budget(timed_ms, is_timed) != Some(0u16),
{
}

/// A response in which the attribute that was written has successes, and nothing
/// else, is a success.
pub proof fn written_attributes_succeed(
    entries: Seq<WriteStatus>,
    endpoint: u16,
    cluster: u32,
    attribute: u32,
    at: int,
)
    requires
        0 <= at < entries.len(),
        entries[at] is Status,
        entries[at]->path.endpoint == Some(endpoint),
        entries[at]->path.cluster == Some(cluster),
        entries[at]->path.attr == Some(attribute),
        forall|i: int|
            0 <= i < entries.len() ==> match #[trigger] entries[i] {
                WriteStatus::Unreadable(_) => false,
                WriteStatus::Status { path, code } => path.endpoint == Some(endpoint)
                    && path.cluster == Some(cluster) && path.attr == Some(attribute) ==> code == 0,
            },
    ensures
        status_for(entries, endpoint, cluster, attribute, false) == Ok::<
            Option<u8>,
            SdkErrorModel,
        >(Some(0u8)),
    decreases entries.len(),
{
    lemma_successes(entries, endpoint, cluster, attribute, false, at);
}

proof fn lemma_successes(
    entries: Seq<WriteStatus>,
    endpoint: u16,
    cluster: u32,
    attribute: u32,
    seen: bool,
    at: int,
)
    requires
        seen || (0 <= at < entries.len() && entries[at] is Status && is_path(
            entries[at]->path,
            endpoint,
            cluster,
            attribute,
        )),
        forall|i: int|
            0 <= i < entries.len() ==> match #[trigger] entries[i] {
                WriteStatus::Unreadable(_) => false,
                WriteStatus::Status { path, code } => is_path(path, endpoint, cluster, attribute)
                    ==> code == 0,
            },
    ensures
        status_for(entries, endpoint, cluster, attribute, seen) == Ok::<Option<u8>, SdkErrorModel>(
            Some(0u8),
        ),
    decreases entries.len(),
{
    if entries.len() > 0 {
        let rest = entries.skip(1);
        assert forall|i: int| 0 <= i < rest.len() implies match #[trigger] rest[i] {
            WriteStatus::Unreadable(_) => false,
            WriteStatus::Status { path, code } => is_path(path, endpoint, cluster, attribute)
                ==> code == 0,
        } by {
            assert(rest[i] == entries[i + 1]);
        }
        assert(!(entries[0] is Unreadable));
        if is_path(entries[0]->path, endpoint, cluster, attribute) {
            lemma_successes(rest, endpoint, cluster, attribute, true, 0);
        } else {
            if !seen {
                assert(rest[at - 1] == entries[at]);
            }
            lemma_successes(rest, endpoint, cluster, attribute, seen, at - 1);
        }
    }
}

/// An entry that cannot be read, before any failure of the attribute that was
/// written, is what the write fails with.
pub proof fn unreadable_statuses_fail_the_write(
    entries: Seq<WriteStatus>,
    endpoint: u16,
    cluster: u32,
    attribute: u32,
    seen: bool,
    at: int,
)
    requires
        0 <= at < entries.len(),
        entries[at] is Unreadable,
        forall|i: int|
            0 <= i < at ==> match #[trigger] entries[i] {
                WriteStatus::Unreadable(_) => false,
                WriteStatus::Status { path, code } => path.endpoint == Some(endpoint)
                    && path.cluster == Some(cluster) && path.attr == Some(attribute) ==> code == 0,
            },
    ensures
        status_for(entries, endpoint, cluster, attribute, seen) == Err::<
            Option<u8>,
            SdkErrorModel,
        >(entries[at]->Unreadable_0@),
    decreases at,
{
    if at > 0 {
        let rest = entries.skip(1);
        assert forall|i: int| 0 <= i < at - 1 implies match #[trigger] rest[i] {
            WriteStatus::Unreadable(_) => false,
            WriteStatus::Status { path, code } => path.endpoint == Some(endpoint) && path.cluster
                == Some(cluster) && path.attr == Some(attribute) ==> code == 0,
        } by {
            assert(rest[i] == entries[i + 1]);
        }
        assert(rest[at - 1] == entries[at]);
        assert(!(entries[0] is Unreadable));
        unreadable_statuses_fail_the_write(rest, endpoint, cluster, attribute, seen, at - 1);
        unreadable_statuses_fail_the_write(rest, endpoint, cluster, attribute, true, at - 1);
    }
}

/// A device that says it is busy is busy, one that says it timed out is a timeout,
/// and any other failure is the SDK's; the message names the command, the status
/// and its code.
pub proof fn failed_commands_are_told_apart(command: Seq<char>, code: u8, name: Seq<char>)
    ensures
        command_failure(command, code, name).kind is Busy <==> code == 0x9C,
        command_failure(command, code, name).kind is Timeout <==> code == 0x94,
        command_failure(command, code, name).kind is Sdk <==> code != 0x9C && code != 0x94,
        command_failure(command, code, name).message == "Command \""@ + command
            + "\" failed with IM status "@ + name + " (0x"@ + hex(code as nat, 2, false) + ")"@,
{
}

/// What the first entry of a run comes to: its payload, for one that reads; its
/// failure, for a status other than success; and for a bare success what there was
/// before, which is null at first. An entry that cannot be read ends the exchange.
pub proof fn answers_are_taken_in_turn(
    r: InvokeResponse,
    rest: Seq<InvokeResponse>,
    m: InvokeModel,
    command: Seq<char>,
    output: Option<StructDef>,
    c: Cluster,
)
    ensures
        no_outcome().result == Ok::<JsonModel, StackErrorModel>(JsonModel::Null),
        no_outcome().seen == 0,
        !no_outcome().got_payload,
        outcome_of(m, Seq::empty(), command, output, c) == Ok::<InvokeModel, SdkErrorModel>(m),
        ({
            let all = seq![r] + rest;
            let next = outcome_of(m, seq![r], command, output, c);
            &&& next is Ok ==> outcome_of(m, all, command, output, c) == outcome_of(
                next->Ok_0,
                rest,
                command,
                output,
                c,
            )
            &&& next is Err ==> outcome_of(m, all, command, output, c) == next && outcome_reached(
                m,
                all,
                command,
                output,
                c,
            ) == m
            &&& next is Ok ==> outcome_reached(m, all, command, output, c) == outcome_reached(
                next->Ok_0,
                rest,
                command,
                output,
                c,
            )
            &&& next is Ok ==> next->Ok_0.seen == m.seen + 1
            &&& match r {
                InvokeResponse::Unreadable(e) => next == Err::<InvokeModel, SdkErrorModel>(e@),
                InvokeResponse::Status(s) => next is Ok && next->Ok_0.got_payload == m.got_payload
                    && if s.code == 0 {
                    next->Ok_0.result == m.result
                } else {
                    next->Ok_0.result == Err::<JsonModel, StackErrorModel>(
                        command_failure(command, s.code, s.name@),
                    )
                },
                InvokeResponse::Command(t) => {
                    let read = match output {
                        Some(s) => named_json(t@, s.fields@, c, 0),
                        None => json_of(t@, 0),
                    };
                    match read {
                        Err(e) => next == Err::<InvokeModel, SdkErrorModel>(e),
                        Ok(v) => {
                            &&& next is Ok
                            &&& m.result is Ok && !m.got_payload ==> next->Ok_0.result == Ok::<
                                JsonModel,
                                StackErrorModel,
                            >(v) && next->Ok_0.got_payload
                            &&& m.result is Err || m.got_payload ==> next->Ok_0.result == m.result
                                && next->Ok_0.got_payload == m.got_payload
                        },
                    }
                },
            }
        }),
{
    let all = seq![r] + rest;
    assert(all.skip(1) =~= rest);
    assert(seq![r].skip(1) =~= Seq::empty());
    assert(all[0] == r);
    match outcome_after(m, r, command, output, c) {
        Ok(next) => {
            assert(outcome_of(next, Seq::empty(), command, output, c) == Ok::<
                InvokeModel,
                SdkErrorModel,
            >(next));
        },
        Err(_) => {},
    }
}

/// What is told of a value that does not fit an attribute, a payload that does not
/// fit a command, and a name the tables do not have: the caller's mistake, with what
/// it is about; and of a response that says nothing of the attribute written: the
/// SDK's failure.
pub proof fn mistakes_are_the_callers(
    endpoint: u16,
    cluster: u32,
    attribute: u32,
    name: Seq<char>,
    cluster_name: Seq<char>,
    e: SdkErrorModel,
)
    ensures
        invalid_value(endpoint, cluster, attribute, e) == (StackErrorModel {
            kind: StackErrorKind::InvalidArguments,
            message: "Invalid value for attribute "@ + path_key(endpoint, cluster, attribute)
                + ": "@ + ("Error::"@ + e.text),
        }),
        invalid_payload(name, e) == (StackErrorModel {
            kind: StackErrorKind::InvalidArguments,
            message: "Invalid payload for command \""@ + name + "\": "@ + ("Error::"@ + e.text),
        }),
        unknown_cluster(cluster) == (StackErrorModel {
            kind: StackErrorKind::InvalidArguments,
            message: "Cluster Id \""@ + decimal(cluster as nat) + "\" unknown"@,
        }),
        unknown_command(name, cluster_name) == (StackErrorModel {
            kind: StackErrorKind::InvalidArguments,
            message: "Command \""@ + name + "\" does not exist on cluster \""@ + cluster_name
                + "\""@,
        }),
        no_status(endpoint, cluster, attribute) == (StackErrorModel {
            kind: StackErrorKind::Sdk,
            message: "device returned no write status for "@ + path_key(
                endpoint,
                cluster,
                attribute,
            ),
        }),
{
}

} // verus!
