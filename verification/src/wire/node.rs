//! Node, fabric and device shapes.

use crate::json::{entry_models, item_models, Json, JsonModel, Number};
use crate::wire::shape::{
    flag_entry, found, json_entry, lemma_appended, lemma_found, lemma_single, nullable_flag,
    nullable_number, nullable_text, number_entry, optional_number, optional_text, present, put_flag,
    put_json, put_nullable_flag, put_nullable_number, put_nullable_text, put_number,
    put_optional_number, put_optional_text, put_signed, put_text, put_texts, text_entry,
    texts_entry, widen_16, widen_32, widened_16, widened_32, Entries,
};
use vstd::prelude::*;

verus! {

/// `attributes` keys are decimal "endpoint/cluster/attribute" paths; values are
/// tag-based JSON.
#[derive(Debug, Clone)]
pub struct MatterNodeData {
    pub node_id: u64,
    pub date_commissioned: String,
    pub last_interview: String,
    pub interview_version: u8,
    pub available: bool,
    pub is_bridge: bool,
    pub attributes: Vec<(String, Json)>,
    pub attribute_subscriptions: Vec<Json>,
    pub matter_version: Option<String>,
}

/// `data` is name-based or null. `timestamp_type`: 1 = epoch, 0 = system,
/// 2 = the local clock.
#[derive(Debug, Clone)]
pub struct MatterNodeEvent {
    pub node_id: u64,
    pub endpoint_id: u16,
    pub cluster_id: u32,
    pub event_id: u32,
    pub event_number: u64,
    pub priority: u8,
    pub timestamp: i64,
    pub timestamp_type: u8,
    pub data: Json,
}

/// One device found by discovery.
#[derive(Debug, Clone)]
pub struct CommissionableNodeData {
    pub instance_name: Option<String>,
    pub host_name: String,
    pub port: Option<u16>,
    pub long_discriminator: Option<u16>,
    pub vendor_id: i32,
    pub product_id: i32,
    pub commissioning_mode: u8,
    pub device_type: Option<u32>,
    pub device_name: Option<String>,
    pub pairing_instruction: Option<String>,
    pub pairing_hint: u32,
    pub mrp_retry_interval_idle: Option<u32>,
    pub mrp_retry_interval_active: Option<u32>,
    pub supports_tcp: bool,
    pub addresses: Vec<String>,
    pub rotating_id: Option<String>,
}

/// One fabric a node belongs to.
#[derive(Debug, Clone)]
pub struct MatterFabricData {
    pub fabric_id: u64,
    pub vendor_id: u16,
    pub fabric_index: u8,
    pub fabric_label: Option<String>,
    pub vendor_name: Option<String>,
}

/// The intermittently-connected state of a node.
#[derive(Debug, Clone)]
pub struct IcdState {
    pub supported: bool,
    pub lit_supported: bool,
    pub registered: bool,
    pub operating_mode: Option<String>,
    pub awake: Option<bool>,
    pub available: Option<bool>,
    pub next_expected_checkin: Option<i64>,
}

impl IcdState {
    /// Neither supported nor registered, and nothing known beyond that.
    pub fn not_registered() -> (res: Self)
        ensures
            res == (IcdState {
                supported: false,
                lit_supported: false,
                registered: false,
                operating_mode: None,
                awake: None,
                available: None,
                next_expected_checkin: None,
            }),
    {
        IcdState {
            supported: false,
            lit_supported: false,
            registered: false,
            operating_mode: None,
            awake: None,
            available: None,
            next_expected_checkin: None,
        }
    }
}

impl MatterNodeData {
    /// The entries of the message, in order; absent optional ones are left out.
    pub open spec fn entries(self) -> Entries {
        number_entry("node_id"@, self.node_id as int)
            + text_entry("date_commissioned"@, self.date_commissioned)
            + text_entry("last_interview"@, self.last_interview)
            + number_entry("interview_version"@, self.interview_version as int)
            + flag_entry("available"@, self.available)
            + flag_entry("is_bridge"@, self.is_bridge)
            + json_entry("attributes"@, JsonModel::Object(entry_models(self.attributes@)))
            + json_entry(
                "attribute_subscriptions"@,
                JsonModel::Array(item_models(self.attribute_subscriptions@)),
            )
            + optional_text("matter_version"@, self.matter_version)
    }

    /// Each key of the node carries the field of its own name, and there is no other
    /// key; an optional field that is absent has none.
    pub proof fn node_is_told_by_key(self)
        ensures
            ({
                let told = JsonModel::Object(self.entries());
                &&& told.member("node_id"@) == Some(
                    JsonModel::Number(Number::PosInt(self.node_id as u64)),
                )
                &&& told.member("date_commissioned"@) == Some(
                    JsonModel::Text(self.date_commissioned@),
                )
                &&& told.member("last_interview"@) == Some(JsonModel::Text(self.last_interview@))
                &&& told.member("interview_version"@) == Some(
                    JsonModel::Number(Number::PosInt(self.interview_version as u64)),
                )
                &&& told.member("available"@) == Some(JsonModel::Bool(self.available))
                &&& told.member("is_bridge"@) == Some(JsonModel::Bool(self.is_bridge))
                &&& told.member("attributes"@) == Some(
                    JsonModel::Object(entry_models(self.attributes@)),
                )
                &&& told.member("attribute_subscriptions"@) == Some(
                    JsonModel::Array(item_models(self.attribute_subscriptions@)),
                )
                &&& self.matter_version is Some ==> told.member("matter_version"@) == Some(
                    JsonModel::Text(self.matter_version->0@),
                )
                &&& self.matter_version is None ==> told.member("matter_version"@) is None
                &&& forall|k: Seq<char>| #[trigger]
                    told.member(k) is Some ==> k == "node_id"@ || k == "date_commissioned"@
                        || k == "last_interview"@ || k == "interview_version"@
                        || k == "available"@ || k == "is_bridge"@ || k == "attributes"@
                        || k == "attribute_subscriptions"@ || k == "matter_version"@
                &&& told->Object_0.len() == 8
                    + present(self.matter_version is Some)
            }),
    {
        assert("node_id"@.len() == 7) by {
            reveal_strlit("node_id");
        }
        assert("date_commissioned"@.len() == 17) by {
            reveal_strlit("date_commissioned");
        }
        assert("last_interview"@.len() == 14) by {
            reveal_strlit("last_interview");
        }
        assert("interview_version"@.len() == 17) by {
            reveal_strlit("interview_version");
        }
        assert("available"@.len() == 9) by {
            reveal_strlit("available");
        }
        assert("is_bridge"@.len() == 9) by {
            reveal_strlit("is_bridge");
        }
        assert("attributes"@.len() == 10) by {
            reveal_strlit("attributes");
        }
        assert("attribute_subscriptions"@.len() == 23) by {
            reveal_strlit("attribute_subscriptions");
        }
        assert("matter_version"@.len() == 14) by {
            reveal_strlit("matter_version");
        }
        assert("date_commissioned"@ != "interview_version"@) by {
            reveal_strlit("date_commissioned");
            reveal_strlit("interview_version");
            assert("date_commissioned"@[0] != "interview_version"@[0]);
        }
        assert("last_interview"@ != "matter_version"@) by {
            reveal_strlit("last_interview");
            reveal_strlit("matter_version");
            assert("last_interview"@[0] != "matter_version"@[0]);
        }
        assert("available"@ != "is_bridge"@) by {
            reveal_strlit("available");
            reveal_strlit("is_bridge");
            assert("available"@[0] != "is_bridge"@[0]);
        }
        let p0 = number_entry("node_id"@, self.node_id as int);
        lemma_single(p0, "node_id"@);
        let p1 = text_entry("date_commissioned"@, self.date_commissioned);
        lemma_appended(p0, p1, "date_commissioned"@);
        let e1 = p0 + p1;
        let p2 = text_entry("last_interview"@, self.last_interview);
        lemma_appended(e1, p2, "last_interview"@);
        let e2 = e1 + p2;
        let p3 = number_entry("interview_version"@, self.interview_version as int);
        lemma_appended(e2, p3, "interview_version"@);
        let e3 = e2 + p3;
        let p4 = flag_entry("available"@, self.available);
        lemma_appended(e3, p4, "available"@);
        let e4 = e3 + p4;
        let p5 = flag_entry("is_bridge"@, self.is_bridge);
        lemma_appended(e4, p5, "is_bridge"@);
        let e5 = e4 + p5;
        let p6 = json_entry("attributes"@, JsonModel::Object(entry_models(self.attributes@)));
        lemma_appended(e5, p6, "attributes"@);
        let e6 = e5 + p6;
        let p7 = json_entry(
            "attribute_subscriptions"@,
            JsonModel::Array(item_models(self.attribute_subscriptions@)),
        );
        lemma_appended(e6, p7, "attribute_subscriptions"@);
        let e7 = e6 + p7;
        let p8 = optional_text("matter_version"@, self.matter_version);
        lemma_appended(e7, p8, "matter_version"@);
        let e8 = e7 + p8;
        assert(e8 == self.entries());
        lemma_found(self.entries());
    }

    /// The node as it goes out.
    pub fn to_json(self) -> (res: Json)
        ensures
            res@ == JsonModel::Object(self.entries()),
            res@.member("node_id"@) == Some(JsonModel::Number(Number::PosInt(self.node_id as u64))),
            res@.member("date_commissioned"@) == Some(JsonModel::Text(self.date_commissioned@)),
            res@.member("last_interview"@) == Some(JsonModel::Text(self.last_interview@)),
            res@.member("interview_version"@) == Some(
                JsonModel::Number(Number::PosInt(self.interview_version as u64)),
            ),
            res@.member("available"@) == Some(JsonModel::Bool(self.available)),
            res@.member("is_bridge"@) == Some(JsonModel::Bool(self.is_bridge)),
            res@.member("attributes"@) == Some(JsonModel::Object(entry_models(self.attributes@))),
            res@.member("attribute_subscriptions"@) == Some(
                JsonModel::Array(item_models(self.attribute_subscriptions@)),
            ),
            self.matter_version is Some ==> res@.member("matter_version"@) == Some(
                JsonModel::Text(self.matter_version->0@),
            ),
            self.matter_version is None ==> res@.member("matter_version"@) is None,
            forall|k: Seq<char>| #[trigger]
                res@.member(k) is Some ==> k == "node_id"@ || k == "date_commissioned"@
                    || k == "last_interview"@ || k == "interview_version"@ || k == "available"@
                    || k == "is_bridge"@ || k == "attributes"@ || k == "attribute_subscriptions"@
                    || k == "matter_version"@,
            res@->Object_0.len() == 8
                + present(self.matter_version is Some),
    {
        proof {
            self.node_is_told_by_key();
        }
        let mut out: Vec<(String, Json)> = Vec::new();
        assert(entry_models(out@) =~= Seq::empty());
        put_number(&mut out, "node_id", self.node_id);
        put_text(&mut out, "date_commissioned", self.date_commissioned);
        put_text(&mut out, "last_interview", self.last_interview);
        put_number(&mut out, "interview_version", self.interview_version as u64);
        put_flag(&mut out, "available", self.available);
        put_flag(&mut out, "is_bridge", self.is_bridge);
        put_json(&mut out, "attributes", Json::Object(self.attributes));
        put_json(&mut out, "attribute_subscriptions", Json::Array(self.attribute_subscriptions));
        put_optional_text(&mut out, "matter_version", self.matter_version);
        assert(entry_models(out@) =~= self.entries());
        Json::Object(out)
    }
}

impl MatterNodeEvent {
    /// The entries of the message, in order.
    pub open spec fn entries(self) -> Entries {
        number_entry("node_id"@, self.node_id as int)
            + number_entry("endpoint_id"@, self.endpoint_id as int)
            + number_entry("cluster_id"@, self.cluster_id as int)
            + number_entry("event_id"@, self.event_id as int)
            + number_entry("event_number"@, self.event_number as int)
            + number_entry("priority"@, self.priority as int)
            + number_entry("timestamp"@, self.timestamp as int)
            + number_entry("timestamp_type"@, self.timestamp_type as int)
            + json_entry("data"@, self.data@)
    }

    /// Each key of the event carries the field of its own name, and there is no other
    /// key.
    pub proof fn event_is_told_by_key(self)
        ensures
            ({
                let told = JsonModel::Object(self.entries());
                &&& told.member("node_id"@) == Some(
                    JsonModel::Number(Number::PosInt(self.node_id as u64)),
                )
                &&& told.member("endpoint_id"@) == Some(
                    JsonModel::Number(Number::PosInt(self.endpoint_id as u64)),
                )
                &&& told.member("cluster_id"@) == Some(
                    JsonModel::Number(Number::PosInt(self.cluster_id as u64)),
                )
                &&& told.member("event_id"@) == Some(
                    JsonModel::Number(Number::PosInt(self.event_id as u64)),
                )
                &&& told.member("event_number"@) == Some(
                    JsonModel::Number(Number::PosInt(self.event_number as u64)),
                )
                &&& told.member("priority"@) == Some(
                    JsonModel::Number(Number::PosInt(self.priority as u64)),
                )
                &&& self.timestamp >= 0 ==> told.member("timestamp"@) == Some(
                    JsonModel::Number(Number::PosInt(self.timestamp as u64)),
                )
                &&& self.timestamp < 0 ==> told.member("timestamp"@) == Some(
                    JsonModel::Number(Number::NegInt(self.timestamp as i64)),
                )
                &&& told.member("timestamp_type"@) == Some(
                    JsonModel::Number(Number::PosInt(self.timestamp_type as u64)),
                )
                &&& told.member("data"@) == Some(self.data@)
                &&& forall|k: Seq<char>| #[trigger]
                    told.member(k) is Some ==> k == "node_id"@ || k == "endpoint_id"@
                        || k == "cluster_id"@ || k == "event_id"@ || k == "event_number"@
                        || k == "priority"@ || k == "timestamp"@ || k == "timestamp_type"@
                        || k == "data"@
                &&& told->Object_0.len() == 9
            }),
    {
        assert("node_id"@.len() == 7) by {
            reveal_strlit("node_id");
        }
        assert("endpoint_id"@.len() == 11) by {
            reveal_strlit("endpoint_id");
        }
        assert("cluster_id"@.len() == 10) by {
            reveal_strlit("cluster_id");
        }
        assert("event_id"@.len() == 8) by {
            reveal_strlit("event_id");
        }
        assert("event_number"@.len() == 12) by {
            reveal_strlit("event_number");
        }
        assert("priority"@.len() == 8) by {
            reveal_strlit("priority");
        }
        assert("timestamp"@.len() == 9) by {
            reveal_strlit("timestamp");
        }
        assert("timestamp_type"@.len() == 14) by {
            reveal_strlit("timestamp_type");
        }
        assert("data"@.len() == 4) by {
            reveal_strlit("data");
        }
        assert("event_id"@ != "priority"@) by {
            reveal_strlit("event_id");
            reveal_strlit("priority");
            assert("event_id"@[0] != "priority"@[0]);
        }
        let p0 = number_entry("node_id"@, self.node_id as int);
        lemma_single(p0, "node_id"@);
        let p1 = number_entry("endpoint_id"@, self.endpoint_id as int);
        lemma_appended(p0, p1, "endpoint_id"@);
        let e1 = p0 + p1;
        let p2 = number_entry("cluster_id"@, self.cluster_id as int);
        lemma_appended(e1, p2, "cluster_id"@);
        let e2 = e1 + p2;
        let p3 = number_entry("event_id"@, self.event_id as int);
        lemma_appended(e2, p3, "event_id"@);
        let e3 = e2 + p3;
        let p4 = number_entry("event_number"@, self.event_number as int);
        lemma_appended(e3, p4, "event_number"@);
        let e4 = e3 + p4;
        let p5 = number_entry("priority"@, self.priority as int);
        lemma_appended(e4, p5, "priority"@);
        let e5 = e4 + p5;
        let p6 = number_entry("timestamp"@, self.timestamp as int);
        lemma_appended(e5, p6, "timestamp"@);
        let e6 = e5 + p6;
        let p7 = number_entry("timestamp_type"@, self.timestamp_type as int);
        lemma_appended(e6, p7, "timestamp_type"@);
        let e7 = e6 + p7;
        let p8 = json_entry("data"@, self.data@);
        lemma_appended(e7, p8, "data"@);
        let e8 = e7 + p8;
        assert(e8 == self.entries());
        lemma_found(self.entries());
    }

    /// The event as it goes out.
    pub fn to_json(self) -> (res: Json)
        ensures
            res@ == JsonModel::Object(self.entries()),
            res@.member("node_id"@) == Some(JsonModel::Number(Number::PosInt(self.node_id as u64))),
            res@.member("endpoint_id"@) == Some(
                JsonModel::Number(Number::PosInt(self.endpoint_id as u64)),
            ),
            res@.member("cluster_id"@) == Some(
                JsonModel::Number(Number::PosInt(self.cluster_id as u64)),
            ),
            res@.member("event_id"@) == Some(
                JsonModel::Number(Number::PosInt(self.event_id as u64)),
            ),
            res@.member("event_number"@) == Some(
                JsonModel::Number(Number::PosInt(self.event_number as u64)),
            ),
            res@.member("priority"@) == Some(
                JsonModel::Number(Number::PosInt(self.priority as u64)),
            ),
            self.timestamp >= 0 ==> res@.member("timestamp"@) == Some(
                JsonModel::Number(Number::PosInt(self.timestamp as u64)),
            ),
            self.timestamp < 0 ==> res@.member("timestamp"@) == Some(
                JsonModel::Number(Number::NegInt(self.timestamp as i64)),
            ),
            res@.member("timestamp_type"@) == Some(
                JsonModel::Number(Number::PosInt(self.timestamp_type as u64)),
            ),
            res@.member("data"@) == Some(self.data@),
            forall|k: Seq<char>| #[trigger]
                res@.member(k) is Some ==> k == "node_id"@ || k == "endpoint_id"@
                    || k == "cluster_id"@ || k == "event_id"@ || k == "event_number"@
                    || k == "priority"@ || k == "timestamp"@ || k == "timestamp_type"@
                    || k == "data"@,
            res@->Object_0.len() == 9,
    {
        proof {
            self.event_is_told_by_key();
        }
        let mut out: Vec<(String, Json)> = Vec::new();
        assert(entry_models(out@) =~= Seq::empty());
        put_number(&mut out, "node_id", self.node_id);
        put_number(&mut out, "endpoint_id", self.endpoint_id as u64);
        put_number(&mut out, "cluster_id", self.cluster_id as u64);
        put_number(&mut out, "event_id", self.event_id as u64);
        put_number(&mut out, "event_number", self.event_number);
        put_number(&mut out, "priority", self.priority as u64);
        put_signed(&mut out, "timestamp", self.timestamp);
        put_number(&mut out, "timestamp_type", self.timestamp_type as u64);
        put_json(&mut out, "data", self.data);
        assert(entry_models(out@) =~= self.entries());
        Json::Object(out)
    }
}

impl CommissionableNodeData {
    /// The entries of the message, in order; absent optional ones are left out.
    pub open spec fn entries(self) -> Entries {
        optional_text("instance_name"@, self.instance_name)
            + text_entry("host_name"@, self.host_name)
            + optional_number("port"@, widened_16(self.port))
            + optional_number("long_discriminator"@, widened_16(self.long_discriminator))
            + number_entry("vendor_id"@, self.vendor_id as int)
            + number_entry("product_id"@, self.product_id as int)
            + number_entry("commissioning_mode"@, self.commissioning_mode as int)
            + optional_number("device_type"@, widened_32(self.device_type))
            + optional_text("device_name"@, self.device_name)
            + optional_text("pairing_instruction"@, self.pairing_instruction)
            + number_entry("pairing_hint"@, self.pairing_hint as int)
            + optional_number("mrp_retry_interval_idle"@, widened_32(self.mrp_retry_interval_idle))
            + optional_number(
                "mrp_retry_interval_active"@,
                widened_32(self.mrp_retry_interval_active),
            )
            + flag_entry("supports_tcp"@, self.supports_tcp)
            + texts_entry("addresses"@, self.addresses@)
            + optional_text("rotating_id"@, self.rotating_id)
    }

    /// Each key of the first half of the device's fields carries the field of its own
    /// name; an optional field that is absent has no key.
    pub proof fn device_is_told_by_key(self)
        ensures
            ({
                let told = JsonModel::Object(self.entries());
                &&& self.instance_name is Some ==> told.member("instance_name"@) == Some(
                    JsonModel::Text(self.instance_name->0@),
                )
                &&& self.instance_name is None ==> told.member("instance_name"@) is None
                &&& told.member("host_name"@) == Some(JsonModel::Text(self.host_name@))
                &&& self.port is Some ==> told.member("port"@) == Some(
                    JsonModel::Number(Number::PosInt(self.port->0 as u64)),
                )
                &&& self.port is None ==> told.member("port"@) is None
                &&& self.long_discriminator is Some ==> told.member("long_discriminator"@) == Some(
                    JsonModel::Number(Number::PosInt(self.long_discriminator->0 as u64)),
                )
                &&& self.long_discriminator is None ==> told.member("long_discriminator"@) is None
                &&& self.vendor_id >= 0 ==> told.member("vendor_id"@) == Some(
                    JsonModel::Number(Number::PosInt(self.vendor_id as u64)),
                )
                &&& self.vendor_id < 0 ==> told.member("vendor_id"@) == Some(
                    JsonModel::Number(Number::NegInt(self.vendor_id as i64)),
                )
                &&& self.product_id >= 0 ==> told.member("product_id"@) == Some(
                    JsonModel::Number(Number::PosInt(self.product_id as u64)),
                )
                &&& self.product_id < 0 ==> told.member("product_id"@) == Some(
                    JsonModel::Number(Number::NegInt(self.product_id as i64)),
                )
                &&& told.member("commissioning_mode"@) == Some(
                    JsonModel::Number(Number::PosInt(self.commissioning_mode as u64)),
                )
                &&& self.device_type is Some ==> told.member("device_type"@) == Some(
                    JsonModel::Number(Number::PosInt(self.device_type->0 as u64)),
                )
                &&& self.device_type is None ==> told.member("device_type"@) is None
            }),
    {
        self.lemma_found_by_key();
        lemma_found(self.entries());
    }

    /// The same of the second half.
    pub proof fn device_details_are_told_by_key(self)
        ensures
            ({
                let told = JsonModel::Object(self.entries());
                &&& self.device_name is Some ==> told.member("device_name"@) == Some(
                    JsonModel::Text(self.device_name->0@),
                )
                &&& self.device_name is None ==> told.member("device_name"@) is None
                &&& self.pairing_instruction is Some
                    ==> told.member("pairing_instruction"@) == Some(
                    JsonModel::Text(self.pairing_instruction->0@),
                )
                &&& self.pairing_instruction is None
                    ==> told.member("pairing_instruction"@) is None
                &&& told.member("pairing_hint"@) == Some(
                    JsonModel::Number(Number::PosInt(self.pairing_hint as u64)),
                )
                &&& self.mrp_retry_interval_idle is Some
                    ==> told.member("mrp_retry_interval_idle"@) == Some(
                    JsonModel::Number(Number::PosInt(self.mrp_retry_interval_idle->0 as u64)),
                )
                &&& self.mrp_retry_interval_idle is None
                    ==> told.member("mrp_retry_interval_idle"@) is None
                &&& self.mrp_retry_interval_active is Some
                    ==> told.member("mrp_retry_interval_active"@) == Some(
                    JsonModel::Number(Number::PosInt(self.mrp_retry_interval_active->0 as u64)),
                )
                &&& self.mrp_retry_interval_active is None
                    ==> told.member("mrp_retry_interval_active"@) is None
                &&& told.member("supports_tcp"@) == Some(JsonModel::Bool(self.supports_tcp))
                &&& told.member("addresses"@) is Some
                &&& told.member("addresses"@)->0 is Array
                &&& told.member("addresses"@)->0->Array_0.len() == self.addresses@.len()
                &&& forall|i: int|
                0 <= i < self.addresses@.len() ==> (
                #[trigger] told.member("addresses"@)->0->Array_0[i])
                    == JsonModel::Text(self.addresses@[i]@)
                &&& self.rotating_id is Some ==> told.member("rotating_id"@) == Some(
                    JsonModel::Text(self.rotating_id->0@),
                )
                &&& self.rotating_id is None ==> told.member("rotating_id"@) is None
            }),
    {
        self.lemma_found_by_key();
        lemma_found(self.entries());
    }

    /// There is one entry for each field that is not left out, and no other key.
    pub proof fn device_has_no_other_key(self)
        ensures
            ({
                let told = JsonModel::Object(self.entries());
                &&& forall|k: Seq<char>| #[trigger]
                    told.member(k) is Some ==> k == "instance_name"@ || k == "host_name"@
                        || k == "port"@ || k == "long_discriminator"@ || k == "vendor_id"@
                        || k == "product_id"@ || k == "commissioning_mode"@
                        || k == "device_type"@ || k == "device_name"@
                        || k == "pairing_instruction"@ || k == "pairing_hint"@
                        || k == "mrp_retry_interval_idle"@ || k == "mrp_retry_interval_active"@
                        || k == "supports_tcp"@ || k == "addresses"@ || k == "rotating_id"@
                &&& told->Object_0.len() == 7
                    + present(self.instance_name is Some)
                    + present(self.port is Some)
                    + present(self.long_discriminator is Some)
                    + present(self.device_type is Some)
                    + present(self.device_name is Some)
                    + present(self.pairing_instruction is Some)
                    + present(self.mrp_retry_interval_idle is Some)
                    + present(self.mrp_retry_interval_active is Some)
                    + present(self.rotating_id is Some)
            }),
    {
        self.lemma_found_by_key();
        lemma_found(self.entries());
    }

    /// The entries of the first half of the fields.
    spec fn front(self) -> Entries {
        optional_text("instance_name"@, self.instance_name)
            + text_entry("host_name"@, self.host_name)
            + optional_number("port"@, widened_16(self.port))
            + optional_number("long_discriminator"@, widened_16(self.long_discriminator))
            + number_entry("vendor_id"@, self.vendor_id as int)
            + number_entry("product_id"@, self.product_id as int)
            + number_entry("commissioning_mode"@, self.commissioning_mode as int)
            + optional_number("device_type"@, widened_32(self.device_type))
    }

    proof fn lemma_front(self)
        ensures
            self.instance_name is Some ==> found(self.front(), "instance_name"@) == Some(
                JsonModel::Text(self.instance_name->0@),
            ),
            self.instance_name is None ==> found(self.front(), "instance_name"@) is None,
            found(self.front(), "host_name"@) == Some(JsonModel::Text(self.host_name@)),
            self.port is Some ==> found(self.front(), "port"@) == Some(
                JsonModel::Number(Number::PosInt(self.port->0 as u64)),
            ),
            self.port is None ==> found(self.front(), "port"@) is None,
            self.long_discriminator is Some ==> found(self.front(), "long_discriminator"@) == Some(
                JsonModel::Number(Number::PosInt(self.long_discriminator->0 as u64)),
            ),
            self.long_discriminator is None ==> found(self.front(), "long_discriminator"@) is None,
            self.vendor_id >= 0 ==> found(self.front(), "vendor_id"@) == Some(
                JsonModel::Number(Number::PosInt(self.vendor_id as u64)),
            ),
            self.vendor_id < 0 ==> found(self.front(), "vendor_id"@) == Some(
                JsonModel::Number(Number::NegInt(self.vendor_id as i64)),
            ),
            self.product_id >= 0 ==> found(self.front(), "product_id"@) == Some(
                JsonModel::Number(Number::PosInt(self.product_id as u64)),
            ),
            self.product_id < 0 ==> found(self.front(), "product_id"@) == Some(
                JsonModel::Number(Number::NegInt(self.product_id as i64)),
            ),
            found(self.front(), "commissioning_mode"@) == Some(
                JsonModel::Number(Number::PosInt(self.commissioning_mode as u64)),
            ),
            self.device_type is Some ==> found(self.front(), "device_type"@) == Some(
                JsonModel::Number(Number::PosInt(self.device_type->0 as u64)),
            ),
            self.device_type is None ==> found(self.front(), "device_type"@) is None,
            forall|k: Seq<char>| #[trigger]
                found(self.front(), k) is Some ==> k == "instance_name"@ || k == "host_name"@
                    || k == "port"@ || k == "long_discriminator"@ || k == "vendor_id"@
                    || k == "product_id"@ || k == "commissioning_mode"@ || k == "device_type"@,
    {
        assert("instance_name"@.len() == 13) by {
            reveal_strlit("instance_name");
        }
        assert("host_name"@.len() == 9) by {
            reveal_strlit("host_name");
        }
        assert("port"@.len() == 4) by {
            reveal_strlit("port");
        }
        assert("long_discriminator"@.len() == 18) by {
            reveal_strlit("long_discriminator");
        }
        assert("vendor_id"@.len() == 9) by {
            reveal_strlit("vendor_id");
        }
        assert("product_id"@.len() == 10) by {
            reveal_strlit("product_id");
        }
        assert("commissioning_mode"@.len() == 18) by {
            reveal_strlit("commissioning_mode");
        }
        assert("device_type"@.len() == 11) by {
            reveal_strlit("device_type");
        }
        assert("host_name"@ != "vendor_id"@) by {
            reveal_strlit("host_name");
            reveal_strlit("vendor_id");
            assert("host_name"@[0] != "vendor_id"@[0]);
        }
        assert("long_discriminator"@ != "commissioning_mode"@) by {
            reveal_strlit("long_discriminator");
            reveal_strlit("commissioning_mode");
            assert("long_discriminator"@[0] != "commissioning_mode"@[0]);
        }
        let p0 = optional_text("instance_name"@, self.instance_name);
        lemma_single(p0, "instance_name"@);
        let p1 = text_entry("host_name"@, self.host_name);
        lemma_appended(p0, p1, "host_name"@);
        let e1 = p0 + p1;
        let p2 = optional_number("port"@, widened_16(self.port));
        lemma_appended(e1, p2, "port"@);
        let e2 = e1 + p2;
        let p3 = optional_number("long_discriminator"@, widened_16(self.long_discriminator));
        lemma_appended(e2, p3, "long_discriminator"@);
        let e3 = e2 + p3;
        let p4 = number_entry("vendor_id"@, self.vendor_id as int);
        lemma_appended(e3, p4, "vendor_id"@);
        let e4 = e3 + p4;
        let p5 = number_entry("product_id"@, self.product_id as int);
        lemma_appended(e4, p5, "product_id"@);
        let e5 = e4 + p5;
        let p6 = number_entry("commissioning_mode"@, self.commissioning_mode as int);
        lemma_appended(e5, p6, "commissioning_mode"@);
        let e6 = e5 + p6;
        let p7 = optional_number("device_type"@, widened_32(self.device_type));
        lemma_appended(e6, p7, "device_type"@);
        let e7 = e6 + p7;
        assert(e7 == self.front());
    }

    proof fn lemma_found_by_key(self)
        ensures
            self.instance_name is Some ==> found(self.entries(), "instance_name"@) == Some(
                JsonModel::Text(self.instance_name->0@),
            ),
            self.instance_name is None ==> found(self.entries(), "instance_name"@) is None,
            found(self.entries(), "host_name"@) == Some(JsonModel::Text(self.host_name@)),
            self.port is Some ==> found(self.entries(), "port"@) == Some(
                JsonModel::Number(Number::PosInt(self.port->0 as u64)),
            ),
            self.port is None ==> found(self.entries(), "port"@) is None,
            self.long_discriminator is Some
                ==> found(self.entries(), "long_discriminator"@) == Some(
                JsonModel::Number(Number::PosInt(self.long_discriminator->0 as u64)),
            ),
            self.long_discriminator is None
                ==> found(self.entries(), "long_discriminator"@) is None,
            self.vendor_id >= 0 ==> found(self.entries(), "vendor_id"@) == Some(
                JsonModel::Number(Number::PosInt(self.vendor_id as u64)),
            ),
            self.vendor_id < 0 ==> found(self.entries(), "vendor_id"@) == Some(
                JsonModel::Number(Number::NegInt(self.vendor_id as i64)),
            ),
            self.product_id >= 0 ==> found(self.entries(), "product_id"@) == Some(
                JsonModel::Number(Number::PosInt(self.product_id as u64)),
            ),
            self.product_id < 0 ==> found(self.entries(), "product_id"@) == Some(
                JsonModel::Number(Number::NegInt(self.product_id as i64)),
            ),
            found(self.entries(), "commissioning_mode"@) == Some(
                JsonModel::Number(Number::PosInt(self.commissioning_mode as u64)),
            ),
            self.device_type is Some ==> found(self.entries(), "device_type"@) == Some(
                JsonModel::Number(Number::PosInt(self.device_type->0 as u64)),
            ),
            self.device_type is None ==> found(self.entries(), "device_type"@) is None,
            self.device_name is Some ==> found(self.entries(), "device_name"@) == Some(
                JsonModel::Text(self.device_name->0@),
            ),
            self.device_name is None ==> found(self.entries(), "device_name"@) is None,
            self.pairing_instruction is Some
                ==> found(self.entries(), "pairing_instruction"@) == Some(
                JsonModel::Text(self.pairing_instruction->0@),
            ),
            self.pairing_instruction is None
                ==> found(self.entries(), "pairing_instruction"@) is None,
            found(self.entries(), "pairing_hint"@) == Some(
                JsonModel::Number(Number::PosInt(self.pairing_hint as u64)),
            ),
            self.mrp_retry_interval_idle is Some
                ==> found(self.entries(), "mrp_retry_interval_idle"@) == Some(
                JsonModel::Number(Number::PosInt(self.mrp_retry_interval_idle->0 as u64)),
            ),
            self.mrp_retry_interval_idle is None
                ==> found(self.entries(), "mrp_retry_interval_idle"@) is None,
            self.mrp_retry_interval_active is Some
                ==> found(self.entries(), "mrp_retry_interval_active"@) == Some(
                JsonModel::Number(Number::PosInt(self.mrp_retry_interval_active->0 as u64)),
            ),
            self.mrp_retry_interval_active is None
                ==> found(self.entries(), "mrp_retry_interval_active"@) is None,
            found(self.entries(), "supports_tcp"@) == Some(JsonModel::Bool(self.supports_tcp)),
            found(self.entries(), "addresses"@) is Some,
            found(self.entries(), "addresses"@)->0 is Array,
            found(self.entries(), "addresses"@)->0->Array_0.len() == self.addresses@.len(),
            forall|i: int|
                    0 <= i < self.addresses@.len() ==> (
                    #[trigger] found(self.entries(), "addresses"@)->0->Array_0[i])
                        == JsonModel::Text(self.addresses@[i]@),
            self.rotating_id is Some ==> found(self.entries(), "rotating_id"@) == Some(
                JsonModel::Text(self.rotating_id->0@),
            ),
            self.rotating_id is None ==> found(self.entries(), "rotating_id"@) is None,
            forall|k: Seq<char>| #[trigger]
                found(self.entries(), k) is Some ==> k == "instance_name"@ || k == "host_name"@
                    || k == "port"@ || k == "long_discriminator"@ || k == "vendor_id"@
                    || k == "product_id"@ || k == "commissioning_mode"@ || k == "device_type"@
                    || k == "device_name"@ || k == "pairing_instruction"@ || k == "pairing_hint"@
                    || k == "mrp_retry_interval_idle"@ || k == "mrp_retry_interval_active"@
                    || k == "supports_tcp"@ || k == "addresses"@ || k == "rotating_id"@,
    {
        assert("instance_name"@.len() == 13) by {
            reveal_strlit("instance_name");
        }
        assert("host_name"@.len() == 9) by {
            reveal_strlit("host_name");
        }
        assert("port"@.len() == 4) by {
            reveal_strlit("port");
        }
        assert("long_discriminator"@.len() == 18) by {
            reveal_strlit("long_discriminator");
        }
        assert("vendor_id"@.len() == 9) by {
            reveal_strlit("vendor_id");
        }
        assert("product_id"@.len() == 10) by {
            reveal_strlit("product_id");
        }
        assert("commissioning_mode"@.len() == 18) by {
            reveal_strlit("commissioning_mode");
        }
        assert("device_type"@.len() == 11) by {
            reveal_strlit("device_type");
        }
        assert("device_name"@.len() == 11) by {
            reveal_strlit("device_name");
        }
        assert("pairing_instruction"@.len() == 19) by {
            reveal_strlit("pairing_instruction");
        }
        assert("pairing_hint"@.len() == 12) by {
            reveal_strlit("pairing_hint");
        }
        assert("mrp_retry_interval_idle"@.len() == 23) by {
            reveal_strlit("mrp_retry_interval_idle");
        }
        assert("mrp_retry_interval_active"@.len() == 25) by {
            reveal_strlit("mrp_retry_interval_active");
        }
        assert("supports_tcp"@.len() == 12) by {
            reveal_strlit("supports_tcp");
        }
        assert("addresses"@.len() == 9) by {
            reveal_strlit("addresses");
        }
        assert("rotating_id"@.len() == 11) by {
            reveal_strlit("rotating_id");
        }
        assert("host_name"@ != "vendor_id"@) by {
            reveal_strlit("host_name");
            reveal_strlit("vendor_id");
            assert("host_name"@[0] != "vendor_id"@[0]);
        }
        assert("host_name"@ != "addresses"@) by {
            reveal_strlit("host_name");
            reveal_strlit("addresses");
            assert("host_name"@[0] != "addresses"@[0]);
        }
        assert("long_discriminator"@ != "commissioning_mode"@) by {
            reveal_strlit("long_discriminator");
            reveal_strlit("commissioning_mode");
            assert("long_discriminator"@[0] != "commissioning_mode"@[0]);
        }
        assert("vendor_id"@ != "addresses"@) by {
            reveal_strlit("vendor_id");
            reveal_strlit("addresses");
            assert("vendor_id"@[0] != "addresses"@[0]);
        }
        assert("device_type"@ != "device_name"@) by {
            reveal_strlit("device_type");
            reveal_strlit("device_name");
            assert("device_type"@[7] != "device_name"@[7]);
        }
        assert("device_type"@ != "rotating_id"@) by {
            reveal_strlit("device_type");
            reveal_strlit("rotating_id");
            assert("device_type"@[0] != "rotating_id"@[0]);
        }
        assert("device_name"@ != "rotating_id"@) by {
            reveal_strlit("device_name");
            reveal_strlit("rotating_id");
            assert("device_name"@[0] != "rotating_id"@[0]);
        }
        assert("pairing_hint"@ != "supports_tcp"@) by {
            reveal_strlit("pairing_hint");
            reveal_strlit("supports_tcp");
            assert("pairing_hint"@[0] != "supports_tcp"@[0]);
        }
        self.lemma_front();
        let e0 = self.front();
        let p1 = optional_text("device_name"@, self.device_name);
        lemma_appended(e0, p1, "device_name"@);
        let e1 = e0 + p1;
        let p2 = optional_text("pairing_instruction"@, self.pairing_instruction);
        lemma_appended(e1, p2, "pairing_instruction"@);
        let e2 = e1 + p2;
        let p3 = number_entry("pairing_hint"@, self.pairing_hint as int);
        lemma_appended(e2, p3, "pairing_hint"@);
        let e3 = e2 + p3;
        let p4 = optional_number(
            "mrp_retry_interval_idle"@,
            widened_32(self.mrp_retry_interval_idle),
        );
        lemma_appended(e3, p4, "mrp_retry_interval_idle"@);
        let e4 = e3 + p4;
        let p5 = optional_number(
            "mrp_retry_interval_active"@,
            widened_32(self.mrp_retry_interval_active),
        );
        lemma_appended(e4, p5, "mrp_retry_interval_active"@);
        let e5 = e4 + p5;
        let p6 = flag_entry("supports_tcp"@, self.supports_tcp);
        lemma_appended(e5, p6, "supports_tcp"@);
        let e6 = e5 + p6;
        let p7 = texts_entry("addresses"@, self.addresses@);
        lemma_appended(e6, p7, "addresses"@);
        let e7 = e6 + p7;
        let p8 = optional_text("rotating_id"@, self.rotating_id);
        lemma_appended(e7, p8, "rotating_id"@);
        let e8 = e7 + p8;
        assert(e8 == self.entries());
    }

    /// The device as it goes out.
    pub fn to_json(self) -> (res: Json)
        ensures
            res@ == JsonModel::Object(self.entries()),
            self.instance_name is Some ==> res@.member("instance_name"@) == Some(
                JsonModel::Text(self.instance_name->0@),
            ),
            self.instance_name is None ==> res@.member("instance_name"@) is None,
            res@.member("host_name"@) == Some(JsonModel::Text(self.host_name@)),
            self.port is Some ==> res@.member("port"@) == Some(
                JsonModel::Number(Number::PosInt(self.port->0 as u64)),
            ),
            self.port is None ==> res@.member("port"@) is None,
            self.long_discriminator is Some ==> res@.member("long_discriminator"@) == Some(
                JsonModel::Number(Number::PosInt(self.long_discriminator->0 as u64)),
            ),
            self.long_discriminator is None ==> res@.member("long_discriminator"@) is None,
            self.vendor_id >= 0 ==> res@.member("vendor_id"@) == Some(
                JsonModel::Number(Number::PosInt(self.vendor_id as u64)),
            ),
            self.vendor_id < 0 ==> res@.member("vendor_id"@) == Some(
                JsonModel::Number(Number::NegInt(self.vendor_id as i64)),
            ),
            self.product_id >= 0 ==> res@.member("product_id"@) == Some(
                JsonModel::Number(Number::PosInt(self.product_id as u64)),
            ),
            self.product_id < 0 ==> res@.member("product_id"@) == Some(
                JsonModel::Number(Number::NegInt(self.product_id as i64)),
            ),
            res@.member("commissioning_mode"@) == Some(
                JsonModel::Number(Number::PosInt(self.commissioning_mode as u64)),
            ),
            self.device_type is Some ==> res@.member("device_type"@) == Some(
                JsonModel::Number(Number::PosInt(self.device_type->0 as u64)),
            ),
            self.device_type is None ==> res@.member("device_type"@) is None,
            self.device_name is Some ==> res@.member("device_name"@) == Some(
                JsonModel::Text(self.device_name->0@),
            ),
            self.device_name is None ==> res@.member("device_name"@) is None,
            self.pairing_instruction is Some ==> res@.member("pairing_instruction"@) == Some(
                JsonModel::Text(self.pairing_instruction->0@),
            ),
            self.pairing_instruction is None ==> res@.member("pairing_instruction"@) is None,
            res@.member("pairing_hint"@) == Some(
                JsonModel::Number(Number::PosInt(self.pairing_hint as u64)),
            ),
            self.mrp_retry_interval_idle is Some
                ==> res@.member("mrp_retry_interval_idle"@) == Some(
                JsonModel::Number(Number::PosInt(self.mrp_retry_interval_idle->0 as u64)),
            ),
            self.mrp_retry_interval_idle is None
                ==> res@.member("mrp_retry_interval_idle"@) is None,
            self.mrp_retry_interval_active is Some
                ==> res@.member("mrp_retry_interval_active"@) == Some(
                JsonModel::Number(Number::PosInt(self.mrp_retry_interval_active->0 as u64)),
            ),
            self.mrp_retry_interval_active is None
                ==> res@.member("mrp_retry_interval_active"@) is None,
            res@.member("supports_tcp"@) == Some(JsonModel::Bool(self.supports_tcp)),
            res@.member("addresses"@) is Some,
            res@.member("addresses"@)->0 is Array,
            res@.member("addresses"@)->0->Array_0.len() == self.addresses@.len(),
            forall|i: int|
                    0 <= i < self.addresses@.len() ==> (
                    #[trigger] res@.member("addresses"@)->0->Array_0[i])
                        == JsonModel::Text(self.addresses@[i]@),
            self.rotating_id is Some ==> res@.member("rotating_id"@) == Some(
                JsonModel::Text(self.rotating_id->0@),
            ),
            self.rotating_id is None ==> res@.member("rotating_id"@) is None,
            forall|k: Seq<char>| #[trigger]
                res@.member(k) is Some ==> k == "instance_name"@ || k == "host_name"@
                    || k == "port"@ || k == "long_discriminator"@ || k == "vendor_id"@
                    || k == "product_id"@ || k == "commissioning_mode"@ || k == "device_type"@
                    || k == "device_name"@ || k == "pairing_instruction"@ || k == "pairing_hint"@
                    || k == "mrp_retry_interval_idle"@ || k == "mrp_retry_interval_active"@
                    || k == "supports_tcp"@ || k == "addresses"@ || k == "rotating_id"@,
            res@->Object_0.len() == 7
                + present(self.instance_name is Some)
                + present(self.port is Some)
                + present(self.long_discriminator is Some)
                + present(self.device_type is Some)
                + present(self.device_name is Some)
                + present(self.pairing_instruction is Some)
                + present(self.mrp_retry_interval_idle is Some)
                + present(self.mrp_retry_interval_active is Some)
                + present(self.rotating_id is Some),
    {
        proof {
            self.device_is_told_by_key();
            self.device_details_are_told_by_key();
            self.device_has_no_other_key();
        }
        let mut out: Vec<(String, Json)> = Vec::new();
        assert(entry_models(out@) =~= Seq::empty());
        put_optional_text(&mut out, "instance_name", self.instance_name);
        put_text(&mut out, "host_name", self.host_name);
        put_optional_number(&mut out, "port", widen_16(self.port));
        put_optional_number(&mut out, "long_discriminator", widen_16(self.long_discriminator));
        put_signed(&mut out, "vendor_id", self.vendor_id as i64);
        put_signed(&mut out, "product_id", self.product_id as i64);
        put_number(&mut out, "commissioning_mode", self.commissioning_mode as u64);
        put_optional_number(&mut out, "device_type", widen_32(self.device_type));
        put_optional_text(&mut out, "device_name", self.device_name);
        put_optional_text(&mut out, "pairing_instruction", self.pairing_instruction);
        put_number(&mut out, "pairing_hint", self.pairing_hint as u64);
        put_optional_number(
            &mut out,
            "mrp_retry_interval_idle",
            widen_32(self.mrp_retry_interval_idle),
        );
        put_optional_number(
            &mut out,
            "mrp_retry_interval_active",
            widen_32(self.mrp_retry_interval_active),
        );
        put_flag(&mut out, "supports_tcp", self.supports_tcp);
        put_texts(&mut out, "addresses", self.addresses);
        put_optional_text(&mut out, "rotating_id", self.rotating_id);
        assert(entry_models(out@) =~= self.entries());
        Json::Object(out)
    }
}

impl MatterFabricData {
    /// The entries of the message, in order; absent optional ones are left out.
    pub open spec fn entries(self) -> Entries {
        number_entry("fabric_id"@, self.fabric_id as int)
            + number_entry("vendor_id"@, self.vendor_id as int)
            + number_entry("fabric_index"@, self.fabric_index as int)
            + optional_text("fabric_label"@, self.fabric_label)
            + optional_text("vendor_name"@, self.vendor_name)
    }

    /// Each key of the fabric carries the field of its own name, and there is no other
    /// key; an optional field that is absent has none.
    pub proof fn fabric_is_told_by_key(self)
        ensures
            ({
                let told = JsonModel::Object(self.entries());
                &&& told.member("fabric_id"@) == Some(
                    JsonModel::Number(Number::PosInt(self.fabric_id as u64)),
                )
                &&& told.member("vendor_id"@) == Some(
                    JsonModel::Number(Number::PosInt(self.vendor_id as u64)),
                )
                &&& told.member("fabric_index"@) == Some(
                    JsonModel::Number(Number::PosInt(self.fabric_index as u64)),
                )
                &&& self.fabric_label is Some ==> told.member("fabric_label"@) == Some(
                    JsonModel::Text(self.fabric_label->0@),
                )
                &&& self.fabric_label is None ==> told.member("fabric_label"@) is None
                &&& self.vendor_name is Some ==> told.member("vendor_name"@) == Some(
                    JsonModel::Text(self.vendor_name->0@),
                )
                &&& self.vendor_name is None ==> told.member("vendor_name"@) is None
                &&& forall|k: Seq<char>| #[trigger]
                    told.member(k) is Some ==> k == "fabric_id"@ || k == "vendor_id"@
                        || k == "fabric_index"@ || k == "fabric_label"@ || k == "vendor_name"@
                &&& told->Object_0.len() == 3
                    + present(self.fabric_label is Some)
                    + present(self.vendor_name is Some)
            }),
    {
        assert("fabric_id"@.len() == 9) by {
            reveal_strlit("fabric_id");
        }
        assert("vendor_id"@.len() == 9) by {
            reveal_strlit("vendor_id");
        }
        assert("fabric_index"@.len() == 12) by {
            reveal_strlit("fabric_index");
        }
        assert("fabric_label"@.len() == 12) by {
            reveal_strlit("fabric_label");
        }
        assert("vendor_name"@.len() == 11) by {
            reveal_strlit("vendor_name");
        }
        assert("fabric_id"@ != "vendor_id"@) by {
            reveal_strlit("fabric_id");
            reveal_strlit("vendor_id");
            assert("fabric_id"@[0] != "vendor_id"@[0]);
        }
        assert("fabric_index"@ != "fabric_label"@) by {
            reveal_strlit("fabric_index");
            reveal_strlit("fabric_label");
            assert("fabric_index"@[7] != "fabric_label"@[7]);
        }
        let p0 = number_entry("fabric_id"@, self.fabric_id as int);
        lemma_single(p0, "fabric_id"@);
        let p1 = number_entry("vendor_id"@, self.vendor_id as int);
        lemma_appended(p0, p1, "vendor_id"@);
        let e1 = p0 + p1;
        let p2 = number_entry("fabric_index"@, self.fabric_index as int);
        lemma_appended(e1, p2, "fabric_index"@);
        let e2 = e1 + p2;
        let p3 = optional_text("fabric_label"@, self.fabric_label);
        lemma_appended(e2, p3, "fabric_label"@);
        let e3 = e2 + p3;
        let p4 = optional_text("vendor_name"@, self.vendor_name);
        lemma_appended(e3, p4, "vendor_name"@);
        let e4 = e3 + p4;
        assert(e4 == self.entries());
        lemma_found(self.entries());
    }

    /// The fabric as it goes out.
    pub fn to_json(self) -> (res: Json)
        ensures
            res@ == JsonModel::Object(self.entries()),
            res@.member("fabric_id"@) == Some(
                JsonModel::Number(Number::PosInt(self.fabric_id as u64)),
            ),
            res@.member("vendor_id"@) == Some(
                JsonModel::Number(Number::PosInt(self.vendor_id as u64)),
            ),
            res@.member("fabric_index"@) == Some(
                JsonModel::Number(Number::PosInt(self.fabric_index as u64)),
            ),
            self.fabric_label is Some ==> res@.member("fabric_label"@) == Some(
                JsonModel::Text(self.fabric_label->0@),
            ),
            self.fabric_label is None ==> res@.member("fabric_label"@) is None,
            self.vendor_name is Some ==> res@.member("vendor_name"@) == Some(
                JsonModel::Text(self.vendor_name->0@),
            ),
            self.vendor_name is None ==> res@.member("vendor_name"@) is None,
            forall|k: Seq<char>| #[trigger]
                res@.member(k) is Some ==> k == "fabric_id"@ || k == "vendor_id"@
                    || k == "fabric_index"@ || k == "fabric_label"@ || k == "vendor_name"@,
            res@->Object_0.len() == 3
                + present(self.fabric_label is Some)
                + present(self.vendor_name is Some),
    {
        proof {
            self.fabric_is_told_by_key();
        }
        let mut out: Vec<(String, Json)> = Vec::new();
        assert(entry_models(out@) =~= Seq::empty());
        put_number(&mut out, "fabric_id", self.fabric_id);
        put_number(&mut out, "vendor_id", self.vendor_id as u64);
        put_number(&mut out, "fabric_index", self.fabric_index as u64);
        put_optional_text(&mut out, "fabric_label", self.fabric_label);
        put_optional_text(&mut out, "vendor_name", self.vendor_name);
        assert(entry_models(out@) =~= self.entries());
        Json::Object(out)
    }
}

impl IcdState {
    /// The entries of the message, in order.
    pub open spec fn entries(self) -> Entries {
        flag_entry("supported"@, self.supported)
            + flag_entry("lit_supported"@, self.lit_supported)
            + flag_entry("registered"@, self.registered)
            + nullable_text("operating_mode"@, self.operating_mode)
            + nullable_flag("awake"@, self.awake)
            + nullable_flag("available"@, self.available)
            + nullable_number("next_expected_checkin"@, self.next_expected_checkin)
    }

    /// Each key of the state carries the field of its own name, and there is no other
    /// key; what is not known is null.
    pub proof fn state_is_told_by_key(self)
        ensures
            ({
                let told = JsonModel::Object(self.entries());
                &&& told.member("supported"@) == Some(JsonModel::Bool(self.supported))
                &&& told.member("lit_supported"@) == Some(JsonModel::Bool(self.lit_supported))
                &&& told.member("registered"@) == Some(JsonModel::Bool(self.registered))
                &&& self.operating_mode is Some ==> told.member("operating_mode"@) == Some(
                    JsonModel::Text(self.operating_mode->0@),
                )
                &&& self.operating_mode is None ==> told.member("operating_mode"@) == Some(
                    JsonModel::Null,
                )
                &&& self.awake is Some ==> told.member("awake"@) == Some(
                    JsonModel::Bool(self.awake->0),
                )
                &&& self.awake is None ==> told.member("awake"@) == Some(JsonModel::Null)
                &&& self.available is Some ==> told.member("available"@) == Some(
                    JsonModel::Bool(self.available->0),
                )
                &&& self.available is None ==> told.member("available"@) == Some(JsonModel::Null)
                &&& self.next_expected_checkin is Some && self.next_expected_checkin->0 >= 0
                    ==> told.member("next_expected_checkin"@) == Some(
                    JsonModel::Number(Number::PosInt(self.next_expected_checkin->0 as u64)),
                )
                &&& self.next_expected_checkin is Some && self.next_expected_checkin->0 < 0
                    ==> told.member("next_expected_checkin"@) == Some(
                    JsonModel::Number(Number::NegInt(self.next_expected_checkin->0)),
                )
                &&& self.next_expected_checkin is None
                    ==> told.member("next_expected_checkin"@) == Some(
                    JsonModel::Null,
                )
                &&& forall|k: Seq<char>| #[trigger]
                    told.member(k) is Some ==> k == "supported"@ || k == "lit_supported"@
                        || k == "registered"@ || k == "operating_mode"@ || k == "awake"@
                        || k == "available"@ || k == "next_expected_checkin"@
                &&& told->Object_0.len() == 7
            }),
    {
        assert("supported"@.len() == 9) by {
            reveal_strlit("supported");
        }
        assert("lit_supported"@.len() == 13) by {
            reveal_strlit("lit_supported");
        }
        assert("registered"@.len() == 10) by {
            reveal_strlit("registered");
        }
        assert("operating_mode"@.len() == 14) by {
            reveal_strlit("operating_mode");
        }
        assert("awake"@.len() == 5) by {
            reveal_strlit("awake");
        }
        assert("available"@.len() == 9) by {
            reveal_strlit("available");
        }
        assert("next_expected_checkin"@.len() == 21) by {
            reveal_strlit("next_expected_checkin");
        }
        assert("supported"@ != "available"@) by {
            reveal_strlit("supported");
            reveal_strlit("available");
            assert("supported"@[0] != "available"@[0]);
        }
        let p0 = flag_entry("supported"@, self.supported);
        lemma_single(p0, "supported"@);
        let p1 = flag_entry("lit_supported"@, self.lit_supported);
        lemma_appended(p0, p1, "lit_supported"@);
        let e1 = p0 + p1;
        let p2 = flag_entry("registered"@, self.registered);
        lemma_appended(e1, p2, "registered"@);
        let e2 = e1 + p2;
        let p3 = nullable_text("operating_mode"@, self.operating_mode);
        lemma_appended(e2, p3, "operating_mode"@);
        let e3 = e2 + p3;
        let p4 = nullable_flag("awake"@, self.awake);
        lemma_appended(e3, p4, "awake"@);
        let e4 = e3 + p4;
        let p5 = nullable_flag("available"@, self.available);
        lemma_appended(e4, p5, "available"@);
        let e5 = e4 + p5;
        let p6 = nullable_number("next_expected_checkin"@, self.next_expected_checkin);
        lemma_appended(e5, p6, "next_expected_checkin"@);
        let e6 = e5 + p6;
        assert(e6 == self.entries());
        lemma_found(self.entries());
    }

    /// The state as it goes out; what is not known is null.
    pub fn to_json(self) -> (res: Json)
        ensures
            res@ == JsonModel::Object(self.entries()),
            res@.member("supported"@) == Some(JsonModel::Bool(self.supported)),
            res@.member("lit_supported"@) == Some(JsonModel::Bool(self.lit_supported)),
            res@.member("registered"@) == Some(JsonModel::Bool(self.registered)),
            self.operating_mode is Some ==> res@.member("operating_mode"@) == Some(
                JsonModel::Text(self.operating_mode->0@),
            ),
            self.operating_mode is None ==> res@.member("operating_mode"@) == Some(JsonModel::Null),
            self.awake is Some ==> res@.member("awake"@) == Some(JsonModel::Bool(self.awake->0)),
            self.awake is None ==> res@.member("awake"@) == Some(JsonModel::Null),
            self.available is Some ==> res@.member("available"@) == Some(
                JsonModel::Bool(self.available->0),
            ),
            self.available is None ==> res@.member("available"@) == Some(JsonModel::Null),
            self.next_expected_checkin is Some && self.next_expected_checkin->0 >= 0
                ==> res@.member("next_expected_checkin"@) == Some(
                JsonModel::Number(Number::PosInt(self.next_expected_checkin->0 as u64)),
            ),
            self.next_expected_checkin is Some && self.next_expected_checkin->0 < 0
                ==> res@.member("next_expected_checkin"@) == Some(
                JsonModel::Number(Number::NegInt(self.next_expected_checkin->0)),
            ),
            self.next_expected_checkin is None ==> res@.member("next_expected_checkin"@) == Some(
                JsonModel::Null,
            ),
            forall|k: Seq<char>| #[trigger]
                res@.member(k) is Some ==> k == "supported"@ || k == "lit_supported"@
                    || k == "registered"@ || k == "operating_mode"@ || k == "awake"@
                    || k == "available"@ || k == "next_expected_checkin"@,
            res@->Object_0.len() == 7,
    {
        proof {
            self.state_is_told_by_key();
        }
        let mut out: Vec<(String, Json)> = Vec::new();
        assert(entry_models(out@) =~= Seq::empty());
        put_flag(&mut out, "supported", self.supported);
        put_flag(&mut out, "lit_supported", self.lit_supported);
        put_flag(&mut out, "registered", self.registered);
        put_nullable_text(&mut out, "operating_mode", self.operating_mode);
        put_nullable_flag(&mut out, "awake", self.awake);
        put_nullable_flag(&mut out, "available", self.available);
        put_nullable_number(&mut out, "next_expected_checkin", self.next_expected_checkin);
        assert(entry_models(out@) =~= self.entries());
        Json::Object(out)
    }
}

} // verus!
