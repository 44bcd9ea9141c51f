//! The names and numbers that devices and clients know, where no other law says
//! them.

use crate::identity::{CONTROLLER_NODE_ID, FABRIC_LABEL_MAX_BYTES};
use crate::mdns::HOSTNAME;
use crate::migration::NOT_A_CERTIFICATE;
use crate::ops::addr::{OP_CREDS, ROOT_ENDPOINT};
use crate::ops::commission::BROWSE_TIMEOUT_SECS;
use crate::ops::fabrics::{
    REMOVE_FABRIC, REMOVE_FABRIC_NAME, UPDATE_FABRIC_LABEL, UPDATE_FABRIC_LABEL_NAME,
};
use crate::ops::window::{ADMIN_COMMISSIONING, OPEN_WINDOW, SALT_LEN, WINDOW_TIMED_MS};
use crate::runtime::{SECOND_STACK_MESSAGE, THREAD_DOWN};
use crate::tlv_json::{MATTER_EPOCH_OFFSET_S, MATTER_EPOCH_OFFSET_US, MAX_DEPTH};
use crate::wire::server_info::{MIN_SUPPORTED_SCHEMA_VERSION, SCHEMA_VERSION};
use vstd::prelude::*;

verus! {

/// What devices know clusters and commands by, and what they accept.
pub proof fn devices_know_these()
    ensures
        ROOT_ENDPOINT == 0,
        OP_CREDS == 62,
        ADMIN_COMMISSIONING == 60,
        OPEN_WINDOW@ == "openCommissioningWindow"@,
        REMOVE_FABRIC@ == "removeFabric"@,
        REMOVE_FABRIC_NAME@ == "RemoveFabric"@,
        UPDATE_FABRIC_LABEL@ == "updateFabricLabel"@,
        UPDATE_FABRIC_LABEL_NAME@ == "UpdateFabricLabel"@,
        FABRIC_LABEL_MAX_BYTES == 32,
        SALT_LEN == 32,
        WINDOW_TIMED_MS == 10_000,
        BROWSE_TIMEOUT_SECS == 30,
        CONTROLLER_NODE_ID == 112233,
        MATTER_EPOCH_OFFSET_US == MATTER_EPOCH_OFFSET_S * 1_000_000,
        MATTER_EPOCH_OFFSET_S == (30 * 365 + 7) * 86_400,
        MAX_DEPTH == 32,
{
}

/// What clients and other hosts are told.
pub proof fn clients_know_these()
    ensures
        SCHEMA_VERSION == 13,
        MIN_SUPPORTED_SCHEMA_VERSION == 11,
        HOSTNAME@ == "matter-rs-server"@,
        THREAD_DOWN@ == "stack thread is down"@,
        SECOND_STACK_MESSAGE@
            == "a Matter stack is already running in this process (rs-matter's state lives in process-wide statics, so there can only be one)"@,
        NOT_A_CERTIFICATE@ == "rcac_tlv does not parse as a Matter TLV certificate"@,
{
}

} // verus!
