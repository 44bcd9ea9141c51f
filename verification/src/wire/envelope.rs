//! Requests, results and events.

use crate::json::{
    entry_models, is_repeated, item_models, lookup, repeated, settle_entries, settled,
    settled_entries, Json, JsonModel, Number,
};
use crate::snapshot::{last_entry_counts, latest};
use crate::wire::error::ServerErrorCode;
use crate::wire::shape::{
    json_entry, lemma_appended, lemma_found, lemma_single, number_entry, put_json, put_number,
    put_text, text_entry, Entries,
};
use vstd::prelude::*;

verus! {

/// Inbound request.
#[derive(Debug, Clone)]
pub struct CommandMessage {
    pub message_id: String,
    pub command: String,
    pub args: Vec<(String, Json)>,
}

#[verifier::ext_equal]
pub struct CommandModel {
    pub message_id: Seq<char>,
    pub command: Seq<char>,
    pub args: Seq<(Seq<char>, JsonModel)>,
}

/// A request: an id and a command, both texts, and arguments, which may be left
/// out.
pub open spec fn request_of(
    id: Option<JsonModel>,
    command: Option<JsonModel>,
    args: Option<JsonModel>,
) -> Option<CommandModel> {
    match (id, command) {
        (Some(JsonModel::Text(message_id)), Some(JsonModel::Text(command))) => match args {
            None => Some(CommandModel { message_id, command, args: Seq::empty() }),
            Some(JsonModel::Object(args)) => Some(
                CommandModel { message_id, command, args: settled_entries(args) },
            ),
            Some(_) => None,
        },
        _ => None,
    }
}

/// The request a value is, if it is one: an object that names its parts, each
/// once, or an array that lists them in order. Of arguments under one name the
/// last counts.
pub open spec fn command_of(v: JsonModel) -> Option<CommandModel> {
    match v {
        JsonModel::Array(items) => if items.len() == 2 {
            request_of(Some(items[0]), Some(items[1]), None)
        } else if items.len() == 3 {
            request_of(Some(items[0]), Some(items[1]), Some(items[2]))
        } else {
            None
        },
        JsonModel::Object(entries) => if repeated(entries, "message_id"@) || repeated(
            entries,
            "command"@,
        ) || repeated(entries, "args"@) {
            None
        } else {
            request_of(
                lookup(entries, "message_id"@),
                lookup(entries, "command"@),
                lookup(entries, "args"@),
            )
        },
        _ => None,
    }
}

impl CommandMessage {
    pub open spec fn view(&self) -> CommandModel {
        CommandModel {
            message_id: self.message_id@,
            command: self.command@,
            args: entry_models(self.args@),
        }
    }

    /// Reads an inbound request.
    pub fn from_json(v: Json) -> (res: Option<CommandMessage>)
        ensures
            match res {
                Some(m) => command_of(v@) == Some(m@),
                None => command_of(v@) is None,
            },
    {
        match v {
            Json::Array(items) => Self::from_items(items),
            Json::Object(entries) => Self::from_entries(entries),
            _ => None,
        }
    }

    fn from_items(items: Vec<Json>) -> (res: Option<CommandMessage>)
        ensures
            match res {
                Some(m) => command_of(JsonModel::Array(item_models(items@))) == Some(m@),
                None => command_of(JsonModel::Array(item_models(items@))) is None,
            },
    {
        let n = items.len();
        assert(item_models(items@).len() == n);
        if n != 2 && n != 3 {
            return None;
        }
        let mut items = items;
        assert(item_models(items@)[0] == items@[0]@ && item_models(items@)[1] == items@[1]@);
        let args = if n == 3 {
            assert(item_models(items@)[2] == items@[2]@);
            items.pop()
        } else {
            None
        };
        let command = items.pop();
        let message_id = items.pop();
        match (message_id, command) {
            (Some(Json::Text(message_id)), Some(Json::Text(command))) => match args {
                None => {
                    let args: Vec<(String, Json)> = Vec::new();
                    assert(entry_models(args@) =~= Seq::empty());
                    Some(CommandMessage { message_id, command, args })
                },
                Some(Json::Object(args)) => {
                    let args = settle_entries(&args);
                    Some(CommandMessage { message_id, command, args })
                },
                Some(_) => None,
            },
            _ => None,
        }
    }

    fn from_entries(entries: Vec<(String, Json)>) -> (res: Option<CommandMessage>)
        ensures
            match res {
                Some(m) => command_of(JsonModel::Object(entry_models(entries@))) == Some(m@),
                None => command_of(JsonModel::Object(entry_models(entries@))) is None,
            },
    {
        if is_repeated(&entries, "message_id") || is_repeated(&entries, "command") || is_repeated(
            &entries,
            "args",
        ) {
            return None;
        }
        let v = Json::Object(entries);
        let message_id = match v.get("message_id") {
            Some(Json::Text(s)) => s.clone(),
            _ => {
                return None;
            },
        };
        let command = match v.get("command") {
            Some(Json::Text(s)) => s.clone(),
            _ => {
                return None;
            },
        };
        match v.get("args") {
            None => {
                let args: Vec<(String, Json)> = Vec::new();
                assert(entry_models(args@) =~= Seq::empty());
                Some(CommandMessage { message_id, command, args })
            },
            Some(Json::Object(args)) => {
                let args = settle_entries(args);
                Some(CommandMessage { message_id, command, args })
            },
            Some(_) => None,
        }
    }
}

/// Outbound success.
#[derive(Debug, Clone)]
pub struct SuccessResult {
    pub message_id: String,
    pub result: Json,
}

/// Outbound error.
#[derive(Debug, Clone)]
pub struct ErrorResult {
    pub message_id: String,
    pub error_code: u16,
    pub details: String,
}

impl ErrorResult {
    pub fn new(message_id: String, code: ServerErrorCode, details: String) -> (res: Self)
        ensures
            res.message_id == message_id,
            res.error_code == code.number(),
            res.details == details,
    {
        ErrorResult { message_id, error_code: code.code(), details }
    }
}

/// Outbound event.
#[derive(Debug, Clone)]
pub struct EventMessage {
    pub event: String,
    pub data: Json,
}

impl SuccessResult {
    /// The entries of the message, in order.
    pub open spec fn entries(self) -> Entries {
        text_entry("message_id"@, self.message_id)
            + json_entry("result"@, self.result@)
    }

    /// Each key of the message carries the field of its own name, and there is no other
    /// key.
    pub proof fn result_is_told_by_key(self)
        ensures
            ({
                let told = JsonModel::Object(self.entries());
                &&& told.member("message_id"@) == Some(JsonModel::Text(self.message_id@))
                &&& told.member("result"@) == Some(self.result@)
                &&& forall|k: Seq<char>| #[trigger]
                    told.member(k) is Some ==> k == "message_id"@ || k == "result"@
                &&& told->Object_0.len() == 2
            }),
    {
        assert("message_id"@.len() == 10) by {
            reveal_strlit("message_id");
        }
        assert("result"@.len() == 6) by {
            reveal_strlit("result");
        }
        let p0 = text_entry("message_id"@, self.message_id);
        lemma_single(p0, "message_id"@);
        let p1 = json_entry("result"@, self.result@);
        lemma_appended(p0, p1, "result"@);
        let e1 = p0 + p1;
        assert(e1 == self.entries());
        lemma_found(self.entries());
    }

    /// The message as it goes out.
    pub fn to_json(self) -> (res: Json)
        ensures
            res@ == JsonModel::Object(self.entries()),
            res@.member("message_id"@) == Some(JsonModel::Text(self.message_id@)),
            res@.member("result"@) == Some(self.result@),
            forall|k: Seq<char>| #[trigger]
                res@.member(k) is Some ==> k == "message_id"@ || k == "result"@,
            res@->Object_0.len() == 2,
    {
        proof {
            self.result_is_told_by_key();
        }
        let mut out: Vec<(String, Json)> = Vec::new();
        assert(entry_models(out@) =~= Seq::empty());
        put_text(&mut out, "message_id", self.message_id);
        put_json(&mut out, "result", self.result);
        assert(entry_models(out@) =~= self.entries());
        Json::Object(out)
    }
}

impl ErrorResult {
    /// The entries of the message, in order.
    pub open spec fn entries(self) -> Entries {
        text_entry("message_id"@, self.message_id)
            + number_entry("error_code"@, self.error_code as int)
            + text_entry("details"@, self.details)
    }

    /// Each key of the message carries the field of its own name, and there is no other
    /// key.
    pub proof fn failure_is_told_by_key(self)
        ensures
            ({
                let told = JsonModel::Object(self.entries());
                &&& told.member("message_id"@) == Some(JsonModel::Text(self.message_id@))
                &&& told.member("error_code"@) == Some(
                    JsonModel::Number(Number::PosInt(self.error_code as u64)),
                )
                &&& told.member("details"@) == Some(JsonModel::Text(self.details@))
                &&& forall|k: Seq<char>| #[trigger]
                    told.member(k) is Some ==> k == "message_id"@ || k == "error_code"@
                        || k == "details"@
                &&& told->Object_0.len() == 3
            }),
    {
        assert("message_id"@.len() == 10) by {
            reveal_strlit("message_id");
        }
        assert("error_code"@.len() == 10) by {
            reveal_strlit("error_code");
        }
        assert("details"@.len() == 7) by {
            reveal_strlit("details");
        }
        assert("message_id"@ != "error_code"@) by {
            reveal_strlit("message_id");
            reveal_strlit("error_code");
            assert("message_id"@[0] != "error_code"@[0]);
        }
        let p0 = text_entry("message_id"@, self.message_id);
        lemma_single(p0, "message_id"@);
        let p1 = number_entry("error_code"@, self.error_code as int);
        lemma_appended(p0, p1, "error_code"@);
        let e1 = p0 + p1;
        let p2 = text_entry("details"@, self.details);
        lemma_appended(e1, p2, "details"@);
        let e2 = e1 + p2;
        assert(e2 == self.entries());
        lemma_found(self.entries());
    }

    /// The message as it goes out.
    pub fn to_json(self) -> (res: Json)
        ensures
            res@ == JsonModel::Object(self.entries()),
            res@.member("message_id"@) == Some(JsonModel::Text(self.message_id@)),
            res@.member("error_code"@) == Some(
                JsonModel::Number(Number::PosInt(self.error_code as u64)),
            ),
            res@.member("details"@) == Some(JsonModel::Text(self.details@)),
            forall|k: Seq<char>| #[trigger]
                res@.member(k) is Some ==> k == "message_id"@ || k == "error_code"@
                    || k == "details"@,
            res@->Object_0.len() == 3,
    {
        proof {
            self.failure_is_told_by_key();
        }
        let mut out: Vec<(String, Json)> = Vec::new();
        assert(entry_models(out@) =~= Seq::empty());
        put_text(&mut out, "message_id", self.message_id);
        put_number(&mut out, "error_code", self.error_code as u64);
        put_text(&mut out, "details", self.details);
        assert(entry_models(out@) =~= self.entries());
        Json::Object(out)
    }
}

impl EventMessage {
    /// The entries of the message, in order.
    pub open spec fn entries(self) -> Entries {
        text_entry("event"@, self.event)
            + json_entry("data"@, self.data@)
    }

    /// Each key of the message carries the field of its own name, and there is no other
    /// key.
    pub proof fn event_is_told_by_key(self)
        ensures
            ({
                let told = JsonModel::Object(self.entries());
                &&& told.member("event"@) == Some(JsonModel::Text(self.event@))
                &&& told.member("data"@) == Some(self.data@)
                &&& forall|k: Seq<char>| #[trigger]
                    told.member(k) is Some ==> k == "event"@ || k == "data"@
                &&& told->Object_0.len() == 2
            }),
    {
        assert("event"@.len() == 5) by {
            reveal_strlit("event");
        }
        assert("data"@.len() == 4) by {
            reveal_strlit("data");
        }
        let p0 = text_entry("event"@, self.event);
        lemma_single(p0, "event"@);
        let p1 = json_entry("data"@, self.data@);
        lemma_appended(p0, p1, "data"@);
        let e1 = p0 + p1;
        assert(e1 == self.entries());
        lemma_found(self.entries());
    }

    /// The message as it goes out.
    pub fn to_json(self) -> (res: Json)
        ensures
            res@ == JsonModel::Object(self.entries()),
            res@.member("event"@) == Some(JsonModel::Text(self.event@)),
            res@.member("data"@) == Some(self.data@),
            forall|k: Seq<char>| #[trigger]
                res@.member(k) is Some ==> k == "event"@ || k == "data"@,
            res@->Object_0.len() == 2,
    {
        proof {
            self.event_is_told_by_key();
        }
        let mut out: Vec<(String, Json)> = Vec::new();
        assert(entry_models(out@) =~= Seq::empty());
        put_text(&mut out, "event", self.event);
        put_json(&mut out, "data", self.data);
        assert(entry_models(out@) =~= self.entries());
        Json::Object(out)
    }
}

/// A request is told by its keys: an object with a text under `message_id` and one
/// under `command` is the request with that id and that command. Without `args` it
/// has no arguments; with an object there it has those, and under each name the last
/// given. Anything else is no request.
pub proof fn requests_are_read_by_key(
    entries: Seq<(Seq<char>, JsonModel)>,
    id: Seq<char>,
    command: Seq<char>,
    args: Seq<(Seq<char>, JsonModel)>,
    name: Seq<char>,
)
    ensures
        ({
            let request = command_of(JsonModel::Object(entries));
            let named = JsonModel::Object(entries).member("message_id"@) == Some(
                JsonModel::Text(id),
            ) && JsonModel::Object(entries).member("command"@) == Some(JsonModel::Text(command));
            let once = !repeated(entries, "message_id"@) && !repeated(entries, "command"@)
                && !repeated(entries, "args"@);
            let given = JsonModel::Object(entries).member("args"@);
            &&& named && once && given is None ==> request is Some && request->0.message_id == id
                && request->0.command == command && request->0.args.len() == 0
            &&& named && once && given == Some(JsonModel::Object(args)) ==> request is Some
                && request->0.message_id == id && request->0.command == command && lookup(
                request->0.args,
                name,
            ) == match latest(args, name) {
                Some(v) => Some(settled(v)),
                None => None,
            }
            &&& !once ==> request is None
            &&& given is Some && given->0 !is Object ==> request is None
            &&& !(JsonModel::Object(entries).member("message_id"@) matches Some(
                JsonModel::Text(_),
            )) ==> request is None
            &&& !(JsonModel::Object(entries).member("command"@) matches Some(JsonModel::Text(_)))
                ==> request is None
        }),
{
    last_entry_counts(args, name);
}

/// An array is the request that its items name in turn, the id first, then the
/// command, then the arguments, which may be left out. An array of any other length,
/// and what is neither array nor object, is no request.
pub proof fn requests_are_read_in_turn(
    items: Seq<JsonModel>,
    id: Seq<char>,
    command: Seq<char>,
    args: Seq<(Seq<char>, JsonModel)>,
    v: JsonModel,
)
    ensures
        command_of(JsonModel::Array(seq![JsonModel::Text(id), JsonModel::Text(command)])) == Some(
            CommandModel { message_id: id, command, args: Seq::empty() },
        ),
        command_of(
            JsonModel::Array(
                seq![JsonModel::Text(id), JsonModel::Text(command), JsonModel::Object(args)],
            ),
        ) == Some(CommandModel { message_id: id, command, args: settled_entries(args) }),
        items.len() != 2 && items.len() != 3 ==> command_of(JsonModel::Array(items)) is None,
        items.len() >= 2 && (items[0] !is Text || items[1] !is Text) ==> command_of(
            JsonModel::Array(items),
        ) is None,
        items.len() == 3 && items[2] !is Object ==> command_of(JsonModel::Array(items)) is None,
        v !is Array && v !is Object ==> command_of(v) is None,
{
}

} // verus!
