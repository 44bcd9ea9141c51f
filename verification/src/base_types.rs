//! The base types of the data model, as opposed to named enums, bitmaps and
//! structs.

use crate::text::{ascii_lower, ascii_lowered, same_text};
use vstd::prelude::*;

verus! {

/// A base type. Integers carry their width in bytes.
#[derive(Clone, Copy, Debug, PartialEq, Eq, Structural)]
pub enum Base {
    Bool,
    Unsigned(u8),
    Signed(u8),
    Single,
    Double,
    Utf8,
    Octets,
    EpochS,
    EpochUs,
}

/// The byte width of an unsigned integer type, named in lower case.
pub open spec fn unsigned_width(t: Seq<char>) -> Option<u8> {
    if t == "int8u"@ || t == "enum8"@ || t == "bitmap8"@ || t == "percent"@ || t == "fabric_idx"@ || t
        == "action_id"@ || t == "priority"@ || t == "status"@ {
        Some(1)
    } else if t == "int16u"@ || t == "enum16"@ || t == "bitmap16"@ || t == "percent100ths"@ || t
        == "group_id"@ || t == "endpoint_no"@ || t == "vendor_id"@ || t == "entry_idx"@ {
        Some(2)
    } else if t == "int24u"@ {
        Some(3)
    } else if t == "int32u"@ || t == "bitmap32"@ || t == "cluster_id"@ || t == "attrib_id"@ || t
        == "field_id"@ || t == "command_id"@ || t == "event_id"@ || t == "devtype_id"@ || t
        == "trans_id"@ || t == "data_ver"@ || t == "elapsed_s"@ {
        Some(4)
    } else if t == "int40u"@ {
        Some(5)
    } else if t == "int48u"@ {
        Some(6)
    } else if t == "int56u"@ {
        Some(7)
    } else if t == "int64u"@ || t == "bitmap64"@ || t == "node_id"@ || t == "fabric_id"@ || t
        == "subject_id"@ || t == "event_no"@ || t == "systime_us"@ || t == "systime_ms"@ || t
        == "posix_ms"@ || t == "money"@ {
        Some(8)
    } else {
        None
    }
}

/// The byte width of a signed integer type, named in lower case.
pub open spec fn signed_width(t: Seq<char>) -> Option<u8> {
    if t == "int8s"@ {
        Some(1)
    } else if t == "int16s"@ || t == "temperature"@ {
        Some(2)
    } else if t == "int24s"@ {
        Some(3)
    } else if t == "int32s"@ {
        Some(4)
    } else if t == "int40s"@ {
        Some(5)
    } else if t == "int48s"@ {
        Some(6)
    } else if t == "int56s"@ {
        Some(7)
    } else if t == "int64s"@ || t == "amperage_ma"@ || t == "voltage_mv"@ || t == "power_mw"@ || t
        == "power_mva"@ || t == "power_mvar"@ || t == "energy_mwh"@ || t == "energy_mvah"@ || t
        == "energy_mvarh"@ {
        Some(8)
    } else {
        None
    }
}

/// The base type with this lower-case name.
pub open spec fn base_named(t: Seq<char>) -> Option<Base> {
    if t == "boolean"@ {
        Some(Base::Bool)
    } else if t == "single"@ {
        Some(Base::Single)
    } else if t == "double"@ {
        Some(Base::Double)
    } else if t == "char_string"@ || t == "long_char_string"@ {
        Some(Base::Utf8)
    } else if t == "octet_string"@ || t == "long_octet_string"@ {
        Some(Base::Octets)
    } else if t == "epoch_s"@ {
        Some(Base::EpochS)
    } else if t == "epoch_us"@ {
        Some(Base::EpochUs)
    } else {
        match unsigned_width(t) {
            Some(w) => Some(Base::Unsigned(w)),
            None => match signed_width(t) {
                Some(w) => Some(Base::Signed(w)),
                None => None,
            },
        }
    }
}

/// The base type a type name stands for, if any. Names are matched up to ASCII
/// case: the tables spell some of them in capitals.
pub open spec fn base_of(ty: Seq<char>) -> Option<Base> {
    base_named(ascii_lower(ty))
}

fn unsigned_width_of(t: &str) -> (res: Option<u8>)
    ensures
        res == unsigned_width(t@),
{
    if same_text(t, "int8u") || same_text(t, "enum8") || same_text(t, "bitmap8") || same_text(
        t,
        "percent",
    ) || same_text(t, "fabric_idx") || same_text(t, "action_id") || same_text(t, "priority")
        || same_text(t, "status") {
        Some(1)
    } else if same_text(t, "int16u") || same_text(t, "enum16") || same_text(t, "bitmap16")
        || same_text(t, "percent100ths") || same_text(t, "group_id") || same_text(t, "endpoint_no")
        || same_text(t, "vendor_id") || same_text(t, "entry_idx") {
        Some(2)
    } else if same_text(t, "int24u") {
        Some(3)
    } else if same_text(t, "int32u") || same_text(t, "bitmap32") || same_text(t, "cluster_id")
        || same_text(t, "attrib_id") || same_text(t, "field_id") || same_text(t, "command_id")
        || same_text(t, "event_id") || same_text(t, "devtype_id") || same_text(t, "trans_id")
        || same_text(t, "data_ver") || same_text(t, "elapsed_s") {
        Some(4)
    } else if same_text(t, "int40u") {
        Some(5)
    } else if same_text(t, "int48u") {
        Some(6)
    } else if same_text(t, "int56u") {
        Some(7)
    } else if same_text(t, "int64u") || same_text(t, "bitmap64") || same_text(t, "node_id")
        || same_text(t, "fabric_id") || same_text(t, "subject_id") || same_text(t, "event_no")
        || same_text(t, "systime_us") || same_text(t, "systime_ms") || same_text(t, "posix_ms")
        || same_text(t, "money") {
        Some(8)
    } else {
        None
    }
}

fn signed_width_of(t: &str) -> (res: Option<u8>)
    ensures
        res == signed_width(t@),
{
    if same_text(t, "int8s") {
        Some(1)
    } else if same_text(t, "int16s") || same_text(t, "temperature") {
        Some(2)
    } else if same_text(t, "int24s") {
        Some(3)
    } else if same_text(t, "int32s") {
        Some(4)
    } else if same_text(t, "int40s") {
        Some(5)
    } else if same_text(t, "int48s") {
        Some(6)
    } else if same_text(t, "int56s") {
        Some(7)
    } else if same_text(t, "int64s") || same_text(t, "amperage_ma") || same_text(t, "voltage_mv")
        || same_text(t, "power_mw") || same_text(t, "power_mva") || same_text(t, "power_mvar")
        || same_text(t, "energy_mwh") || same_text(t, "energy_mvah") || same_text(
        t,
        "energy_mvarh",
    ) {
        Some(8)
    } else {
        None
    }
}

/// The base type a type name stands for, if any.
pub fn base_type(ty: &str) -> (res: Option<Base>)
    ensures
        res == base_of(ty@),
{
    let lowered = ascii_lowered(ty);
    let t = lowered.as_str();
    if same_text(t, "boolean") {
        Some(Base::Bool)
    } else if same_text(t, "single") {
        Some(Base::Single)
    } else if same_text(t, "double") {
        Some(Base::Double)
    } else if same_text(t, "char_string") || same_text(t, "long_char_string") {
        Some(Base::Utf8)
    } else if same_text(t, "octet_string") || same_text(t, "long_octet_string") {
        Some(Base::Octets)
    } else if same_text(t, "epoch_s") {
        Some(Base::EpochS)
    } else if same_text(t, "epoch_us") {
        Some(Base::EpochUs)
    } else {
        match unsigned_width_of(t) {
            Some(w) => Some(Base::Unsigned(w)),
            None => match signed_width_of(t) {
                Some(w) => Some(Base::Signed(w)),
                None => None,
            },
        }
    }
}

/// The case of ASCII letters in a type name does not matter.
pub proof fn base_types_ignore_case(a: Seq<char>, b: Seq<char>)
    requires
        ascii_lower(a) == ascii_lower(b),
    ensures
        base_of(a) == base_of(b),
{
}

} // verus!
