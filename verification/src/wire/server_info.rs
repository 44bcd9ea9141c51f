//! The server description pushed on connect.

use crate::json::{entry_models, Json, JsonModel, Number};
use crate::wire::shape::{
    flag_entry, lemma_appended, lemma_found, lemma_single, number_entry, optional_flag,
    optional_number, optional_text, present, put_flag, put_number, put_optional_flag,
    put_optional_number, put_optional_text, put_text, text_entry, widen_8, widened_8, Entries,
};
use vstd::prelude::*;

verus! {

pub const SCHEMA_VERSION: u8 = 13;

pub const MIN_SUPPORTED_SCHEMA_VERSION: u8 = 11;

#[derive(Debug, Clone)]
pub struct ServerInfoMessage {
    pub fabric_id: u64,
    pub compressed_fabric_id: u64,
    pub fabric_index: Option<u8>,
    pub schema_version: u8,
    pub min_supported_schema_version: u8,
    pub sdk_version: String,
    pub wifi_credentials_set: bool,
    pub wifi_ssid: Option<String>,
    pub thread_credentials_set: bool,
    pub bluetooth_enabled: bool,
    pub ble_proxy_enabled: Option<bool>,
    pub controller_node_id: Option<u64>,
}

impl ServerInfoMessage {
    /// The entries of the message, in order; absent optional ones are left out.
    pub open spec fn entries(self) -> Entries {
        number_entry("fabric_id"@, self.fabric_id as int)
            + number_entry("compressed_fabric_id"@, self.compressed_fabric_id as int)
            + optional_number("fabric_index"@, widened_8(self.fabric_index))
            + number_entry("schema_version"@, self.schema_version as int)
            + number_entry(
                "min_supported_schema_version"@,
                self.min_supported_schema_version as int,
            )
            + text_entry("sdk_version"@, self.sdk_version)
            + flag_entry("wifi_credentials_set"@, self.wifi_credentials_set)
            + optional_text("wifi_ssid"@, self.wifi_ssid)
            + flag_entry("thread_credentials_set"@, self.thread_credentials_set)
            + flag_entry("bluetooth_enabled"@, self.bluetooth_enabled)
            + optional_flag("ble_proxy_enabled"@, self.ble_proxy_enabled)
            + optional_number("controller_node_id"@, self.controller_node_id)
    }

    /// Each key of the description carries the field of its own name, and there is no other
    /// key; an optional field that is absent has none.
    pub proof fn server_is_told_by_key(self)
        ensures
            ({
                let told = JsonModel::Object(self.entries());
                &&& told.member("fabric_id"@) == Some(
                    JsonModel::Number(Number::PosInt(self.fabric_id as u64)),
                )
                &&& told.member("compressed_fabric_id"@) == Some(
                    JsonModel::Number(Number::PosInt(self.compressed_fabric_id as u64)),
                )
                &&& self.fabric_index is Some ==> told.member("fabric_index"@) == Some(
                    JsonModel::Number(Number::PosInt(self.fabric_index->0 as u64)),
                )
                &&& self.fabric_index is None ==> told.member("fabric_index"@) is None
                &&& told.member("schema_version"@) == Some(
                    JsonModel::Number(Number::PosInt(self.schema_version as u64)),
                )
                &&& told.member("min_supported_schema_version"@) == Some(
                    JsonModel::Number(Number::PosInt(self.min_supported_schema_version as u64)),
                )
                &&& told.member("sdk_version"@) == Some(JsonModel::Text(self.sdk_version@))
                &&& told.member("wifi_credentials_set"@) == Some(
                    JsonModel::Bool(self.wifi_credentials_set),
                )
                &&& self.wifi_ssid is Some ==> told.member("wifi_ssid"@) == Some(
                    JsonModel::Text(self.wifi_ssid->0@),
                )
                &&& self.wifi_ssid is None ==> told.member("wifi_ssid"@) is None
                &&& told.member("thread_credentials_set"@) == Some(
                    JsonModel::Bool(self.thread_credentials_set),
                )
                &&& told.member("bluetooth_enabled"@) == Some(
                    JsonModel::Bool(self.bluetooth_enabled),
                )
                &&& self.ble_proxy_enabled is Some ==> told.member("ble_proxy_enabled"@) == Some(
                    JsonModel::Bool(self.ble_proxy_enabled->0),
                )
                &&& self.ble_proxy_enabled is None ==> told.member("ble_proxy_enabled"@) is None
                &&& self.controller_node_id is Some ==> told.member("controller_node_id"@) == Some(
                    JsonModel::Number(Number::PosInt(self.controller_node_id->0 as u64)),
                )
                &&& self.controller_node_id is None ==> told.member("controller_node_id"@) is None
                &&& forall|k: Seq<char>| #[trigger]
                    told.member(k) is Some ==> k == "fabric_id"@
                        || k == "compressed_fabric_id"@ || k == "fabric_index"@
                        || k == "schema_version"@ || k == "min_supported_schema_version"@
                        || k == "sdk_version"@ || k == "wifi_credentials_set"@
                        || k == "wifi_ssid"@ || k == "thread_credentials_set"@
                        || k == "bluetooth_enabled"@ || k == "ble_proxy_enabled"@
                        || k == "controller_node_id"@
                &&& told->Object_0.len() == 8
                    + present(self.fabric_index is Some)
                    + present(self.wifi_ssid is Some)
                    + present(self.ble_proxy_enabled is Some)
                    + present(self.controller_node_id is Some)
            }),
    {
        assert("fabric_id"@.len() == 9) by {
            reveal_strlit("fabric_id");
        }
        assert("compressed_fabric_id"@.len() == 20) by {
            reveal_strlit("compressed_fabric_id");
        }
        assert("fabric_index"@.len() == 12) by {
            reveal_strlit("fabric_index");
        }
        assert("schema_version"@.len() == 14) by {
            reveal_strlit("schema_version");
        }
        assert("min_supported_schema_version"@.len() == 28) by {
            reveal_strlit("min_supported_schema_version");
        }
        assert("sdk_version"@.len() == 11) by {
            reveal_strlit("sdk_version");
        }
        assert("wifi_credentials_set"@.len() == 20) by {
            reveal_strlit("wifi_credentials_set");
        }
        assert("wifi_ssid"@.len() == 9) by {
            reveal_strlit("wifi_ssid");
        }
        assert("thread_credentials_set"@.len() == 22) by {
            reveal_strlit("thread_credentials_set");
        }
        assert("bluetooth_enabled"@.len() == 17) by {
            reveal_strlit("bluetooth_enabled");
        }
        assert("ble_proxy_enabled"@.len() == 17) by {
            reveal_strlit("ble_proxy_enabled");
        }
        assert("controller_node_id"@.len() == 18) by {
            reveal_strlit("controller_node_id");
        }
        assert("fabric_id"@ != "wifi_ssid"@) by {
            reveal_strlit("fabric_id");
            reveal_strlit("wifi_ssid");
            assert("fabric_id"@[0] != "wifi_ssid"@[0]);
        }
        assert("compressed_fabric_id"@ != "wifi_credentials_set"@) by {
            reveal_strlit("compressed_fabric_id");
            reveal_strlit("wifi_credentials_set");
            assert("compressed_fabric_id"@[0] != "wifi_credentials_set"@[0]);
        }
        assert("bluetooth_enabled"@ != "ble_proxy_enabled"@) by {
            reveal_strlit("bluetooth_enabled");
            reveal_strlit("ble_proxy_enabled");
            assert("bluetooth_enabled"@[2] != "ble_proxy_enabled"@[2]);
        }
        let p0 = number_entry("fabric_id"@, self.fabric_id as int);
        lemma_single(p0, "fabric_id"@);
        let p1 = number_entry("compressed_fabric_id"@, self.compressed_fabric_id as int);
        lemma_appended(p0, p1, "compressed_fabric_id"@);
        let e1 = p0 + p1;
        let p2 = optional_number("fabric_index"@, widened_8(self.fabric_index));
        lemma_appended(e1, p2, "fabric_index"@);
        let e2 = e1 + p2;
        let p3 = number_entry("schema_version"@, self.schema_version as int);
        lemma_appended(e2, p3, "schema_version"@);
        let e3 = e2 + p3;
        let p4 = number_entry(
            "min_supported_schema_version"@,
            self.min_supported_schema_version as int,
        );
        lemma_appended(e3, p4, "min_supported_schema_version"@);
        let e4 = e3 + p4;
        let p5 = text_entry("sdk_version"@, self.sdk_version);
        lemma_appended(e4, p5, "sdk_version"@);
        let e5 = e4 + p5;
        let p6 = flag_entry("wifi_credentials_set"@, self.wifi_credentials_set);
        lemma_appended(e5, p6, "wifi_credentials_set"@);
        let e6 = e5 + p6;
        let p7 = optional_text("wifi_ssid"@, self.wifi_ssid);
        lemma_appended(e6, p7, "wifi_ssid"@);
        let e7 = e6 + p7;
        let p8 = flag_entry("thread_credentials_set"@, self.thread_credentials_set);
        lemma_appended(e7, p8, "thread_credentials_set"@);
        let e8 = e7 + p8;
        let p9 = flag_entry("bluetooth_enabled"@, self.bluetooth_enabled);
        lemma_appended(e8, p9, "bluetooth_enabled"@);
        let e9 = e8 + p9;
        let p10 = optional_flag("ble_proxy_enabled"@, self.ble_proxy_enabled);
        lemma_appended(e9, p10, "ble_proxy_enabled"@);
        let e10 = e9 + p10;
        let p11 = optional_number("controller_node_id"@, self.controller_node_id);
        lemma_appended(e10, p11, "controller_node_id"@);
        let e11 = e10 + p11;
        assert(e11 == self.entries());
        lemma_found(self.entries());
    }

    /// The description as it goes out.
    pub fn to_json(self) -> (res: Json)
        ensures
            res@ == JsonModel::Object(self.entries()),
            res@.member("fabric_id"@) == Some(
                JsonModel::Number(Number::PosInt(self.fabric_id as u64)),
            ),
            res@.member("compressed_fabric_id"@) == Some(
                JsonModel::Number(Number::PosInt(self.compressed_fabric_id as u64)),
            ),
            self.fabric_index is Some ==> res@.member("fabric_index"@) == Some(
                JsonModel::Number(Number::PosInt(self.fabric_index->0 as u64)),
            ),
            self.fabric_index is None ==> res@.member("fabric_index"@) is None,
            res@.member("schema_version"@) == Some(
                JsonModel::Number(Number::PosInt(self.schema_version as u64)),
            ),
            res@.member("min_supported_schema_version"@) == Some(
                JsonModel::Number(Number::PosInt(self.min_supported_schema_version as u64)),
            ),
            res@.member("sdk_version"@) == Some(JsonModel::Text(self.sdk_version@)),
            res@.member("wifi_credentials_set"@) == Some(
                JsonModel::Bool(self.wifi_credentials_set),
            ),
            self.wifi_ssid is Some ==> res@.member("wifi_ssid"@) == Some(
                JsonModel::Text(self.wifi_ssid->0@),
            ),
            self.wifi_ssid is None ==> res@.member("wifi_ssid"@) is None,
            res@.member("thread_credentials_set"@) == Some(
                JsonModel::Bool(self.thread_credentials_set),
            ),
            res@.member("bluetooth_enabled"@) == Some(JsonModel::Bool(self.bluetooth_enabled)),
            self.ble_proxy_enabled is Some ==> res@.member("ble_proxy_enabled"@) == Some(
                JsonModel::Bool(self.ble_proxy_enabled->0),
            ),
            self.ble_proxy_enabled is None ==> res@.member("ble_proxy_enabled"@) is None,
            self.controller_node_id is Some ==> res@.member("controller_node_id"@) == Some(
                JsonModel::Number(Number::PosInt(self.controller_node_id->0 as u64)),
            ),
            self.controller_node_id is None ==> res@.member("controller_node_id"@) is None,
            forall|k: Seq<char>| #[trigger]
                res@.member(k) is Some ==> k == "fabric_id"@ || k == "compressed_fabric_id"@
                    || k == "fabric_index"@ || k == "schema_version"@
                    || k == "min_supported_schema_version"@ || k == "sdk_version"@
                    || k == "wifi_credentials_set"@ || k == "wifi_ssid"@
                    || k == "thread_credentials_set"@ || k == "bluetooth_enabled"@
                    || k == "ble_proxy_enabled"@ || k == "controller_node_id"@,
            res@->Object_0.len() == 8
                + present(self.fabric_index is Some)
                + present(self.wifi_ssid is Some)
                + present(self.ble_proxy_enabled is Some)
                + present(self.controller_node_id is Some),
    {
        proof {
            self.server_is_told_by_key();
        }
        let mut out: Vec<(String, Json)> = Vec::new();
        assert(entry_models(out@) =~= Seq::empty());
        put_number(&mut out, "fabric_id", self.fabric_id);
        put_number(&mut out, "compressed_fabric_id", self.compressed_fabric_id);
        put_optional_number(&mut out, "fabric_index", widen_8(self.fabric_index));
        put_number(&mut out, "schema_version", self.schema_version as u64);
        put_number(
            &mut out,
            "min_supported_schema_version",
            self.min_supported_schema_version as u64,
        );
        put_text(&mut out, "sdk_version", self.sdk_version);
        put_flag(&mut out, "wifi_credentials_set", self.wifi_credentials_set);
        put_optional_text(&mut out, "wifi_ssid", self.wifi_ssid);
        put_flag(&mut out, "thread_credentials_set", self.thread_credentials_set);
        put_flag(&mut out, "bluetooth_enabled", self.bluetooth_enabled);
        put_optional_flag(&mut out, "ble_proxy_enabled", self.ble_proxy_enabled);
        put_optional_number(&mut out, "controller_node_id", self.controller_node_id);
        assert(entry_models(out@) =~= self.entries());
        Json::Object(out)
    }
}

} // verus!
