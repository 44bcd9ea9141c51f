//! What looking something up in the tables comes to.

use crate::base_types::{base_of, Base};
use crate::idl::{
    attr_by_code, cluster_by_id, command_by_name, event_by_code, field_by_code, field_by_name,
    struct_by_name, Attr, Cluster, Command, Event, Field, StructDef,
};
use crate::text::{ascii_lower, eq_ignore_case, lower_char};
use vstd::prelude::*;

verus! {

/// The cluster with an id is found wherever it stands, the first of several is taken, and
/// nothing else is.
pub proof fn clusters_are_found_by_id(all: Seq<Cluster>, id: nat, at: int)
    ensures
        (0 <= at < all.len() && all[at].id == id && forall|i: int|
            0 <= i < at ==> !((#[trigger] all[i]).id == id)) ==> cluster_by_id(all, id) == Some(all[at]),
        (forall|i: int| 0 <= i < all.len() ==> !((#[trigger] all[i]).id == id)) ==> cluster_by_id(
            all,
            id,
        ) is None,
        cluster_by_id(all, id) is Some ==> cluster_by_id(all, id)->0.id == id,
    decreases all.len(),
{
    if all.len() > 0 {
        let rest = all.skip(1);
        assert forall|i: int| 0 <= i < rest.len() implies rest[i] == all[i + 1] by {}
        clusters_are_found_by_id(rest, id, at - 1);
        if forall|i: int| 0 <= i < all.len() ==> !((#[trigger] all[i]).id == id) {
            assert forall|i: int| 0 <= i < rest.len() implies !((#[trigger] rest[i]).id == id) by {
                assert(!(all[i + 1].id == id));
            }
            assert(!(all[0].id == id));
        }
        if 0 < at < all.len() && all[at].id == id && forall|i: int|
            0 <= i < at ==> !((#[trigger] all[i]).id == id) {
            assert(rest[at - 1] == all[at]);
            assert forall|i: int| 0 <= i < at - 1 implies !((#[trigger] rest[i]).id == id) by {
                assert(!(all[i + 1].id == id));
            }
            assert(!(all[0].id == id));
        }
    }
}

/// The attribute with a code is found wherever it stands, the first of several is taken, and
/// nothing else is.
pub proof fn attributes_are_found_by_code(all: Seq<Attr>, code: nat, at: int)
    ensures
        (0 <= at < all.len() && all[at].code == code && forall|i: int|
            0 <= i < at ==> !((#[trigger] all[i]).code == code)) ==> attr_by_code(all, code) == Some(all[at]),
        (forall|i: int| 0 <= i < all.len() ==> !((#[trigger] all[i]).code == code)) ==> attr_by_code(
            all,
            code,
        ) is None,
        attr_by_code(all, code) is Some ==> attr_by_code(all, code)->0.code == code,
    decreases all.len(),
{
    if all.len() > 0 {
        let rest = all.skip(1);
        assert forall|i: int| 0 <= i < rest.len() implies rest[i] == all[i + 1] by {}
        attributes_are_found_by_code(rest, code, at - 1);
        if forall|i: int| 0 <= i < all.len() ==> !((#[trigger] all[i]).code == code) {
            assert forall|i: int| 0 <= i < rest.len() implies !((#[trigger] rest[i]).code == code) by {
                assert(!(all[i + 1].code == code));
            }
            assert(!(all[0].code == code));
        }
        if 0 < at < all.len() && all[at].code == code && forall|i: int|
            0 <= i < at ==> !((#[trigger] all[i]).code == code) {
            assert(rest[at - 1] == all[at]);
            assert forall|i: int| 0 <= i < at - 1 implies !((#[trigger] rest[i]).code == code) by {
                assert(!(all[i + 1].code == code));
            }
            assert(!(all[0].code == code));
        }
    }
}

/// The event with a code is found wherever it stands, the first of several is taken, and
/// nothing else is.
pub proof fn events_are_found_by_code(all: Seq<Event>, code: nat, at: int)
    ensures
        (0 <= at < all.len() && all[at].code == code && forall|i: int|
            0 <= i < at ==> !((#[trigger] all[i]).code == code)) ==> event_by_code(all, code) == Some(all[at]),
        (forall|i: int| 0 <= i < all.len() ==> !((#[trigger] all[i]).code == code)) ==> event_by_code(
            all,
            code,
        ) is None,
        event_by_code(all, code) is Some ==> event_by_code(all, code)->0.code == code,
    decreases all.len(),
{
    if all.len() > 0 {
        let rest = all.skip(1);
        assert forall|i: int| 0 <= i < rest.len() implies rest[i] == all[i + 1] by {}
        events_are_found_by_code(rest, code, at - 1);
        if forall|i: int| 0 <= i < all.len() ==> !((#[trigger] all[i]).code == code) {
            assert forall|i: int| 0 <= i < rest.len() implies !((#[trigger] rest[i]).code == code) by {
                assert(!(all[i + 1].code == code));
            }
            assert(!(all[0].code == code));
        }
        if 0 < at < all.len() && all[at].code == code && forall|i: int|
            0 <= i < at ==> !((#[trigger] all[i]).code == code) {
            assert(rest[at - 1] == all[at]);
            assert forall|i: int| 0 <= i < at - 1 implies !((#[trigger] rest[i]).code == code) by {
                assert(!(all[i + 1].code == code));
            }
            assert(!(all[0].code == code));
        }
    }
}

/// The field with a code is found wherever it stands, the first of several is taken, and
/// nothing else is.
pub proof fn fields_are_found_by_code(all: Seq<Field>, code: nat, at: int)
    ensures
        (0 <= at < all.len() && all[at].code == code && forall|i: int|
            0 <= i < at ==> !((#[trigger] all[i]).code == code)) ==> field_by_code(all, code) == Some(all[at]),
        (forall|i: int| 0 <= i < all.len() ==> !((#[trigger] all[i]).code == code)) ==> field_by_code(
            all,
            code,
        ) is None,
        field_by_code(all, code) is Some ==> field_by_code(all, code)->0.code == code,
    decreases all.len(),
{
    if all.len() > 0 {
        let rest = all.skip(1);
        assert forall|i: int| 0 <= i < rest.len() implies rest[i] == all[i + 1] by {}
        fields_are_found_by_code(rest, code, at - 1);
        if forall|i: int| 0 <= i < all.len() ==> !((#[trigger] all[i]).code == code) {
            assert forall|i: int| 0 <= i < rest.len() implies !((#[trigger] rest[i]).code == code) by {
                assert(!(all[i + 1].code == code));
            }
            assert(!(all[0].code == code));
        }
        if 0 < at < all.len() && all[at].code == code && forall|i: int|
            0 <= i < at ==> !((#[trigger] all[i]).code == code) {
            assert(rest[at - 1] == all[at]);
            assert forall|i: int| 0 <= i < at - 1 implies !((#[trigger] rest[i]).code == code) by {
                assert(!(all[i + 1].code == code));
            }
            assert(!(all[0].code == code));
        }
    }
}

/// The field with a name, up to ASCII case, is found wherever it stands, the first of several is taken, and
/// nothing else is.
pub proof fn fields_are_found_by_name(all: Seq<Field>, name: Seq<char>, at: int)
    ensures
        (0 <= at < all.len() && eq_ignore_case(all[at].name@, name) && forall|i: int|
            0 <= i < at ==> !(eq_ignore_case((#[trigger] all[i]).name@, name))) ==> field_by_name(all, name) == Some(all[at]),
        (forall|i: int| 0 <= i < all.len() ==> !(eq_ignore_case((#[trigger] all[i]).name@, name))) ==> field_by_name(
            all,
            name,
        ) is None,
        field_by_name(all, name) is Some ==> eq_ignore_case(field_by_name(all, name)->0.name@, name),
    decreases all.len(),
{
    if all.len() > 0 {
        let rest = all.skip(1);
        assert forall|i: int| 0 <= i < rest.len() implies rest[i] == all[i + 1] by {}
        fields_are_found_by_name(rest, name, at - 1);
        if forall|i: int| 0 <= i < all.len() ==> !(eq_ignore_case((#[trigger] all[i]).name@, name)) {
            assert forall|i: int| 0 <= i < rest.len() implies !(eq_ignore_case((#[trigger] rest[i]).name@, name)) by {
                assert(!(eq_ignore_case(all[i + 1].name@, name)));
            }
            assert(!(eq_ignore_case(all[0].name@, name)));
        }
        if 0 < at < all.len() && eq_ignore_case(all[at].name@, name) && forall|i: int|
            0 <= i < at ==> !(eq_ignore_case((#[trigger] all[i]).name@, name)) {
            assert(rest[at - 1] == all[at]);
            assert forall|i: int| 0 <= i < at - 1 implies !(eq_ignore_case((#[trigger] rest[i]).name@, name)) by {
                assert(!(eq_ignore_case(all[i + 1].name@, name)));
            }
            assert(!(eq_ignore_case(all[0].name@, name)));
        }
    }
}

/// The command with a name, up to ASCII case, is found wherever it stands, the first of several is taken, and
/// nothing else is.
pub proof fn commands_are_found_by_name(all: Seq<Command>, name: Seq<char>, at: int)
    ensures
        (0 <= at < all.len() && eq_ignore_case(all[at].name@, name) && forall|i: int|
            0 <= i < at ==> !(eq_ignore_case((#[trigger] all[i]).name@, name))) ==> command_by_name(all, name) == Some(all[at]),
        (forall|i: int| 0 <= i < all.len() ==> !(eq_ignore_case((#[trigger] all[i]).name@, name))) ==> command_by_name(
            all,
            name,
        ) is None,
        command_by_name(all, name) is Some ==> eq_ignore_case(command_by_name(all, name)->0.name@, name),
    decreases all.len(),
{
    if all.len() > 0 {
        let rest = all.skip(1);
        assert forall|i: int| 0 <= i < rest.len() implies rest[i] == all[i + 1] by {}
        commands_are_found_by_name(rest, name, at - 1);
        if forall|i: int| 0 <= i < all.len() ==> !(eq_ignore_case((#[trigger] all[i]).name@, name)) {
            assert forall|i: int| 0 <= i < rest.len() implies !(eq_ignore_case((#[trigger] rest[i]).name@, name)) by {
                assert(!(eq_ignore_case(all[i + 1].name@, name)));
            }
            assert(!(eq_ignore_case(all[0].name@, name)));
        }
        if 0 < at < all.len() && eq_ignore_case(all[at].name@, name) && forall|i: int|
            0 <= i < at ==> !(eq_ignore_case((#[trigger] all[i]).name@, name)) {
            assert(rest[at - 1] == all[at]);
            assert forall|i: int| 0 <= i < at - 1 implies !(eq_ignore_case((#[trigger] rest[i]).name@, name)) by {
                assert(!(eq_ignore_case(all[i + 1].name@, name)));
            }
            assert(!(eq_ignore_case(all[0].name@, name)));
        }
    }
}

/// The struct with exactly a name is found wherever it stands, the first of several is taken, and
/// nothing else is.
pub proof fn structs_are_found_by_name(all: Seq<StructDef>, name: Seq<char>, at: int)
    ensures
        (0 <= at < all.len() && all[at].name@ == name && forall|i: int|
            0 <= i < at ==> !((#[trigger] all[i]).name@ == name)) ==> struct_by_name(all, name) == Some(all[at]),
        (forall|i: int| 0 <= i < all.len() ==> !((#[trigger] all[i]).name@ == name)) ==> struct_by_name(
            all,
            name,
        ) is None,
        struct_by_name(all, name) is Some ==> struct_by_name(all, name)->0.name@ == name,
    decreases all.len(),
{
    if all.len() > 0 {
        let rest = all.skip(1);
        assert forall|i: int| 0 <= i < rest.len() implies rest[i] == all[i + 1] by {}
        structs_are_found_by_name(rest, name, at - 1);
        if forall|i: int| 0 <= i < all.len() ==> !((#[trigger] all[i]).name@ == name) {
            assert forall|i: int| 0 <= i < rest.len() implies !((#[trigger] rest[i]).name@ == name) by {
                assert(!(all[i + 1].name@ == name));
            }
            assert(!(all[0].name@ == name));
        }
        if 0 < at < all.len() && all[at].name@ == name && forall|i: int|
            0 <= i < at ==> !((#[trigger] all[i]).name@ == name) {
            assert(rest[at - 1] == all[at]);
            assert forall|i: int| 0 <= i < at - 1 implies !((#[trigger] rest[i]).name@ == name) by {
                assert(!(all[i + 1].name@ == name));
            }
            assert(!(all[0].name@ == name));
        }
    }
}

/// Whether two characters are one ASCII letter in its two cases.
pub open spec fn two_cases(a: char, b: char) -> bool {
    ||| 'A' <= a <= 'Z' && b as u32 == a as u32 + 32
    ||| 'A' <= b <= 'Z' && a as u32 == b as u32 + 32
}

/// Up to ASCII case, two texts are equal where each character of one is that of
/// the other, or the same ASCII letter in the other case, and nowhere else.
pub proof fn only_ascii_case_is_ignored(a: Seq<char>, b: Seq<char>)
    ensures
        eq_ignore_case(a, b) <==> a.len() == b.len() && forall|i: int|
            0 <= i < a.len() ==> (#[trigger] a[i] == b[i] || two_cases(a[i], b[i])),
{
    if eq_ignore_case(a, b) {
        assert(ascii_lower(a).len() == ascii_lower(b).len());
        assert forall|i: int| 0 <= i < a.len() implies (#[trigger] a[i] == b[i] || two_cases(
            a[i],
            b[i],
        )) by {
            assert(ascii_lower(a)[i] == ascii_lower(b)[i]);
            assert(lower_char(a[i]) == lower_char(b[i]));
        }
    }
    if a.len() == b.len() && forall|i: int|
        0 <= i < a.len() ==> (#[trigger] a[i] == b[i] || two_cases(a[i], b[i])) {
        assert forall|i: int| 0 <= i < a.len() implies ascii_lower(a)[i] == ascii_lower(b)[i] by {
            assert(a[i] == b[i] || two_cases(a[i], b[i]));
        }
        assert(ascii_lower(a) =~= ascii_lower(b));
    }
}

/// Whether a text is one of several.
pub open spec fn among(t: Seq<char>, names: Seq<Seq<char>>) -> bool {
    exists|i: int| 0 <= i < names.len() && t == #[trigger] names[i]
}

/// The names that a base type goes by.
pub open spec fn names_of(base: Base) -> Seq<Seq<char>> {
    match base {
        Base::Bool => seq!["boolean"@],
        Base::Single => seq!["single"@],
        Base::Double => seq!["double"@],
        Base::Utf8 => seq!["char_string"@, "long_char_string"@],
        Base::Octets => seq!["octet_string"@, "long_octet_string"@],
        Base::EpochS => seq!["epoch_s"@],
        Base::EpochUs => seq!["epoch_us"@],
        Base::Unsigned(1) => seq!["int8u"@, "enum8"@, "bitmap8"@, "percent"@, "fabric_idx"@, "action_id"@, "priority"@, "status"@],
        Base::Unsigned(2) => seq!["int16u"@, "enum16"@, "bitmap16"@, "percent100ths"@, "group_id"@, "endpoint_no"@, "vendor_id"@, "entry_idx"@],
        Base::Unsigned(3) => seq!["int24u"@],
        Base::Unsigned(4) => seq!["int32u"@, "bitmap32"@, "cluster_id"@, "attrib_id"@, "field_id"@, "command_id"@, "event_id"@, "devtype_id"@, "trans_id"@, "data_ver"@, "elapsed_s"@],
        Base::Unsigned(5) => seq!["int40u"@],
        Base::Unsigned(6) => seq!["int48u"@],
        Base::Unsigned(7) => seq!["int56u"@],
        Base::Unsigned(8) => seq!["int64u"@, "bitmap64"@, "node_id"@, "fabric_id"@, "subject_id"@, "event_no"@, "systime_us"@, "systime_ms"@, "posix_ms"@, "money"@],
        Base::Signed(1) => seq!["int8s"@],
        Base::Signed(2) => seq!["int16s"@, "temperature"@],
        Base::Signed(3) => seq!["int24s"@],
        Base::Signed(4) => seq!["int32s"@],
        Base::Signed(5) => seq!["int40s"@],
        Base::Signed(6) => seq!["int48s"@],
        Base::Signed(7) => seq!["int56s"@],
        Base::Signed(8) => seq!["int64s"@, "amperage_ma"@, "voltage_mv"@, "power_mw"@, "power_mva"@, "power_mvar"@, "energy_mwh"@, "energy_mvah"@, "energy_mvarh"@],
        _ => Seq::empty(),
    }
}

/// A type name stands for a base type exactly where it is one of that type's
/// names, up to ASCII case: every name of a base type stands for one, and no base
/// type is taken for a name of another.
pub proof fn base_types_go_by_their_names(ty: Seq<char>, base: Base)
    ensures
        base_of(ty) is Some ==> among(ascii_lower(ty), names_of(base_of(ty)->0)),
        among(ascii_lower(ty), names_of(base)) ==> base_of(ty) is Some,
        ascii_lower(ty) == "boolean"@ ==> base_of(ty) == Some(Base::Bool),
{
    let t = ascii_lower(ty);
    if let Some(b) = base_of(ty) {
        let names = names_of(b);
        assert(exists|i: int| 0 <= i < names.len() && t == #[trigger] names[i]) by {
            assert(names.len() > 0 ==> names[0] == names[0]);
            assert(names.len() > 1 ==> names[1] == names[1]);
            assert(names.len() > 2 ==> names[2] == names[2]);
            assert(names.len() > 3 ==> names[3] == names[3]);
            assert(names.len() > 4 ==> names[4] == names[4]);
            assert(names.len() > 5 ==> names[5] == names[5]);
            assert(names.len() > 6 ==> names[6] == names[6]);
            assert(names.len() > 7 ==> names[7] == names[7]);
            assert(names.len() > 8 ==> names[8] == names[8]);
            assert(names.len() > 9 ==> names[9] == names[9]);
            assert(names.len() > 10 ==> names[10] == names[10]);
        }
    }
}

} // verus!
