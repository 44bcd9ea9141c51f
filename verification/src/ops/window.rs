//! Opening a commissioning window: fresh secrets, the request, and the vendor and
//! product for its code.

use crate::codec::{base64_encode, base64_text};
use crate::ctx::IM_TIMEOUT_SECS;
use crate::json::{entry_models, find_key, lookup, Json, JsonModel, Number};
use crate::ops::addr::ROOT_ENDPOINT;
use crate::ops::interact::{read_request, ReadRequest};
use crate::reports::{path_key, path_string};
use crate::stack_api::{AttributePathSpec, StackError};
use crate::text::decimal;
use vstd::prelude::*;

verus! {

/// `AdministratorCommissioning` cluster id.
pub const ADMIN_COMMISSIONING: u32 = 60;

/// The command that opens a window.
pub const OPEN_WINDOW: &'static str = "openCommissioningWindow";

/// `BasicInformation` cluster id.
pub const BASIC_INFO: u32 = 40;

pub const BASIC_INFO_VENDOR_ID: u32 = 2;

pub const BASIC_INFO_PRODUCT_ID: u32 = 4;

/// Iterations of the key derivation.
pub const PAKE_ITERATIONS: u32 = 2_000;

pub const SALT_LEN: usize = 32;

/// Largest legal setup passcode.
pub const MAX_PASSCODE: u32 = 99_999_998;

/// The timed budget of the request, in milliseconds.
pub const WINDOW_TIMED_MS: u16 = 10_000;

/// Passcodes that are too easy to guess, and the reserved 0.
pub open spec fn is_forbidden(p: u32) -> bool {
    p == 0 || p == 11111111 || p == 22222222 || p == 33333333 || p == 44444444 || p == 55555555 || p
        == 66666666 || p == 77777777 || p == 88888888 || p == 99999999 || p == 12345678 || p
        == 87654321
}

/// A passcode that a commissioner accepts.
pub open spec fn is_legal(p: u32) -> bool {
    1 <= p <= MAX_PASSCODE && !is_forbidden(p)
}

/// Whether a commissioner accepts a passcode.
pub fn passcode_is_legal(passcode: u32) -> (res: bool)
    ensures
        res == is_legal(passcode),
{
    1 <= passcode && passcode <= MAX_PASSCODE && !forbidden(passcode)
}

fn forbidden(p: u32) -> (res: bool)
    ensures
        res == is_forbidden(p),
{
    p == 0 || p == 11111111 || p == 22222222 || p == 33333333 || p == 44444444 || p == 55555555 || p
        == 66666666 || p == 77777777 || p == 88888888 || p == 99999999 || p == 12345678 || p
        == 87654321
}

/// The number four bytes stand for, least significant first.
pub open spec fn word_of(b: Seq<u8>) -> int {
    b[0] + b[1] * 0x100 + b[2] * 0x1_0000 + b[3] * 0x100_0000
}

/// The passcode that a draw of four bytes gives.
pub open spec fn drawn_passcode(b: Seq<u8>) -> u32 {
    (word_of(b) % (MAX_PASSCODE as int) + 1) as u32
}

/// The 12-bit discriminator that a draw of two bytes gives.
pub open spec fn drawn_discriminator(b: Seq<u8>) -> u16 {
    ((b[0] + b[1] * 0x100) % 4096) as u16
}

/// The passcode that a draw gives, unless it is forbidden and has to be drawn
/// again.
pub fn draw_passcode(b: [u8; 4]) -> (res: Option<u32>)
    ensures
        res == (if is_forbidden(drawn_passcode(b@)) {
            None
        } else {
            Some(drawn_passcode(b@))
        }),
        res is Some ==> is_legal(res->0),
{
    let word: u64 = b[0] as u64 + b[1] as u64 * 0x100 + b[2] as u64 * 0x1_0000 + b[3] as u64
        * 0x100_0000;
    let p: u32 = (word % (MAX_PASSCODE as u64)) as u32 + 1;
    if forbidden(p) {
        None
    } else {
        Some(p)
    }
}

/// The first draw whose passcode is allowed, if there is one.
pub open spec fn first_allowed(draws: Seq<[u8; 4]>) -> Option<u32>
    decreases draws.len(),
{
    if draws.len() == 0 {
        None
    } else if is_forbidden(drawn_passcode(draws[0]@)) {
        first_allowed(draws.skip(1))
    } else {
        Some(drawn_passcode(draws[0]@))
    }
}

/// A fresh `(passcode, discriminator, salt)` from random draws: passcode draws
/// are used up until one is allowed. `None` when they run out.
pub fn generate_window_secrets(
    passcode_draws: &Vec<[u8; 4]>,
    discriminator_draw: [u8; 2],
    salt: [u8; 32],
) -> (res: Option<(u32, u16, [u8; 32])>)
    ensures
        match first_allowed(passcode_draws@) {
            None => res is None,
            Some(p) => res == Some((p, drawn_discriminator(discriminator_draw@), salt)),
        },
        res is Some ==> is_legal(res->Some_0.0) && res->Some_0.1 < 4096,
{
    let d: u32 = (discriminator_draw[0] as u32 + discriminator_draw[1] as u32 * 0x100) % 4096;
    let discriminator: u16 = d as u16;
    let mut i: usize = 0;
    assert(passcode_draws@.skip(0) =~= passcode_draws@);
    while i < passcode_draws.len()
        invariant
            i <= passcode_draws@.len(),
            discriminator == drawn_discriminator(discriminator_draw@),
            first_allowed(passcode_draws@) == first_allowed(passcode_draws@.skip(i as int)),
        decreases passcode_draws.len() - i,
    {
        assert(passcode_draws@.skip(i as int).skip(1) =~= passcode_draws@.skip(i + 1));
        if let Some(p) = draw_passcode(passcode_draws[i]) {
            return Some((p, discriminator, salt));
        }
        i += 1;
    }
    None
}

/// The arguments of `openCommissioningWindow`: the device is told the verifier
/// and the salt, never the passcode.
pub fn window_args(timeout_secs: u16, verifier: &Vec<u8>, discriminator: u16, salt: &Vec<u8>) -> (res:
    Json)
    ensures
        res@ == JsonModel::Object(
            seq![
                ("commissioningTimeout"@, JsonModel::Number(Number::PosInt(timeout_secs as u64))),
                ("PAKEPasscodeVerifier"@, JsonModel::Text(base64_text(verifier@))),
                ("discriminator"@, JsonModel::Number(Number::PosInt(discriminator as u64))),
                ("iterations"@, JsonModel::Number(Number::PosInt(PAKE_ITERATIONS as u64))),
                ("salt"@, JsonModel::Text(base64_text(salt@))),
            ],
        ),
        res@ is Object,
        res@->Object_0[3] == ("iterations"@, JsonModel::Number(Number::PosInt(2_000))),
{
    let mut entries: Vec<(String, Json)> = Vec::new();
    entries.push(
        ("commissioningTimeout".to_owned(), Json::Number(Number::PosInt(timeout_secs as u64))),
    );
    entries.push(("PAKEPasscodeVerifier".to_owned(), Json::Text(base64_encode(verifier))));
    entries.push(("discriminator".to_owned(), Json::Number(Number::PosInt(discriminator as u64))));
    entries.push(("iterations".to_owned(), Json::Number(Number::PosInt(PAKE_ITERATIONS as u64))));
    entries.push(("salt".to_owned(), Json::Text(base64_encode(salt))));
    assert(entry_models(entries@) =~= seq![
        ("commissioningTimeout"@, JsonModel::Number(Number::PosInt(timeout_secs as u64))),
        ("PAKEPasscodeVerifier"@, JsonModel::Text(base64_text(verifier@))),
        ("discriminator"@, JsonModel::Number(Number::PosInt(discriminator as u64))),
        ("iterations"@, JsonModel::Number(Number::PosInt(PAKE_ITERATIONS as u64))),
        ("salt"@, JsonModel::Text(base64_text(salt@))),
    ]);
    Json::Object(entries)
}

/// What to read for the vendor and product of a node.
pub fn vid_pid_request() -> (res: ReadRequest)
    ensures
        res.paths@ == seq![
            AttributePathSpec {
                endpoint: Some(ROOT_ENDPOINT),
                cluster: Some(BASIC_INFO),
                attribute: Some(BASIC_INFO_VENDOR_ID),
            },
            AttributePathSpec {
                endpoint: Some(ROOT_ENDPOINT),
                cluster: Some(BASIC_INFO),
                attribute: Some(BASIC_INFO_PRODUCT_ID),
            },
        ],
        res.paths@.len() == 2,
        res.paths@[0].endpoint == Some(0u16) && res.paths@[1].endpoint == Some(0u16),
        res.paths@[0].cluster == Some(40u32) && res.paths@[1].cluster == Some(40u32),
        res.paths@[0].attribute == Some(2u32) && res.paths@[1].attribute == Some(4u32),
        !res.fabric_filtered,
        res.timeout_secs == IM_TIMEOUT_SECS,
        res.timeout_secs == 30,
{
    let mut paths: Vec<AttributePathSpec> = Vec::new();
    paths.push(
        AttributePathSpec {
            endpoint: Some(ROOT_ENDPOINT),
            cluster: Some(BASIC_INFO),
            attribute: Some(BASIC_INFO_VENDOR_ID),
        },
    );
    paths.push(
        AttributePathSpec {
            endpoint: Some(ROOT_ENDPOINT),
            cluster: Some(BASIC_INFO),
            attribute: Some(BASIC_INFO_PRODUCT_ID),
        },
    );
    read_request(paths, false)
}

/// The 16-bit number recorded for an attribute of `BasicInformation`, 0 when
/// there is none or it does not fit.
pub open spec fn basic_info_number(pairs: Seq<(Seq<char>, JsonModel)>, attr: u32) -> u16 {
    match lookup(pairs, path_key(ROOT_ENDPOINT, BASIC_INFO, attr)) {
        Some(v) => match v.unsigned() {
            Some(n) => if n <= u16::MAX {
                n as u16
            } else {
                0
            },
            None => 0,
        },
        None => 0,
    }
}

fn number_for(pairs: &Vec<(String, Json)>, attr: u32) -> (res: u16)
    ensures
        res == basic_info_number(entry_models(pairs@), attr),
{
    let key = path_string(ROOT_ENDPOINT, BASIC_INFO, attr);
    let at = find_key(pairs, key.as_str());
    if at < pairs.len() {
        match pairs[at].1.as_u64() {
            Some(n) => if n <= 0xFFFF {
                n as u16
            } else {
                0
            },
            None => 0,
        }
    } else {
        0
    }
}

/// The vendor and product of a node, 0 where they cannot be told.
pub fn vid_pid_from(pairs: &Vec<(String, Json)>) -> (res: (u16, u16))
    ensures
        res == (
            basic_info_number(entry_models(pairs@), BASIC_INFO_VENDOR_ID),
            basic_info_number(entry_models(pairs@), BASIC_INFO_PRODUCT_ID),
        ),
{
    (number_for(pairs, BASIC_INFO_VENDOR_ID), number_for(pairs, BASIC_INFO_PRODUCT_ID))
}

/// The vendor and product for the code of an open window, from what reading them
/// came to: they only decorate it, so a read that failed costs nothing more.
pub fn basic_info_vid_pid(read: &Result<Vec<(String, Json)>, StackError>) -> (res: (u16, u16))
    ensures
        res == match *read {
            Ok(pairs) => (
                basic_info_number(entry_models(pairs@), BASIC_INFO_VENDOR_ID),
                basic_info_number(entry_models(pairs@), BASIC_INFO_PRODUCT_ID),
            ),
            Err(_) => (0, 0),
        },
{
    match read {
        Ok(pairs) => vid_pid_from(pairs),
        Err(_) => (0, 0),
    }
}

/// A passcode draw is never out of range, and a forbidden one is never used.
pub proof fn drawn_passcodes_are_legal(draws: Seq<[u8; 4]>)
    ensures
        first_allowed(draws) is Some ==> is_legal(first_allowed(draws)->0),
    decreases draws.len(),
{
    if draws.len() > 0 {
        drawn_passcodes_are_legal(draws.skip(1));
    }
}

/// A legal passcode has at most eight digits, is neither 0 nor one digit eight times
/// over, which are the multiples of 11111111, and is no run of eight digits up or
/// down.
pub proof fn easy_passcodes_are_not_legal(p: u32)
    ensures
        is_legal(p) <==> 0 < p < 99_999_999 && p % 11_111_111 != 0 && p != 12_345_678 && p
            != 87_654_321,
{
}

/// A passcode is drawn from the number its four bytes stand for, least significant
/// first, over all that are in range; a discriminator from the low twelve bits of
/// its two.
pub proof fn secrets_are_drawn_over_their_range(b: Seq<u8>, d: Seq<u8>)
    ensures
        ({
            let word = b[0] + 0x100 * (b[1] + 0x100 * (b[2] + 0x100 * b[3]));
            &&& 1 <= drawn_passcode(b) <= 99_999_998
            &&& drawn_passcode(b) - 1 == word % 99_999_998
        }),
        drawn_discriminator(d) == (d[1] % 16) * 0x100 + d[0],
        drawn_discriminator(d) < 0x1000,
{
}

/// The passcode used is that of the first draw that is not too easy to guess, and
/// there is none exactly where no draw is.
pub proof fn the_first_usable_draw_is_used(draws: Seq<[u8; 4]>, at: int)
    ensures
        0 <= at < draws.len() && is_legal(drawn_passcode(draws[at]@)) && (forall|i: int|
            0 <= i < at ==> !is_legal(drawn_passcode((#[trigger] draws[i])@))) ==> first_allowed(
            draws,
        ) == Some(drawn_passcode(draws[at]@)),
        (forall|i: int| 0 <= i < draws.len() ==> !is_legal(drawn_passcode((#[trigger] draws[i])@)))
            ==> first_allowed(draws) is None,
    decreases draws.len(),
{
    if draws.len() > 0 {
        let rest = draws.skip(1);
        the_first_usable_draw_is_used(rest, at - 1);
        assert(draws[0] == draws[0]);
        if 0 < at < draws.len() {
            assert(rest[at - 1] == draws[at]);
        }
        assert forall|i: int|
            0 <= i < rest.len() && is_legal(
                drawn_passcode((#[trigger] rest[i])@),
            ) implies is_legal(drawn_passcode(draws[i + 1]@)) by {}
    }
}

/// The vendor and the product are what was read for 0/40/2 and 0/40/4, where that is
/// a number of 16 bits.
pub proof fn vendors_and_products_are_read_by_path(
    pairs: Seq<(Seq<char>, JsonModel)>,
    n: u64,
)
    ensures
        path_key(0, 40, 2) == "0/40/2"@,
        path_key(0, 40, 4) == "0/40/4"@,
        lookup(pairs, "0/40/2"@) == Some(JsonModel::Number(Number::PosInt(n))) ==> basic_info_number(
            pairs,
            2,
        ) == if n < 0x1_0000 {
            n
        } else {
            0
        },
        lookup(pairs, "0/40/4"@) == Some(JsonModel::Number(Number::PosInt(n))) ==> basic_info_number(
            pairs,
            4,
        ) == if n < 0x1_0000 {
            n
        } else {
            0
        },
        !(lookup(pairs, "0/40/2"@) matches Some(JsonModel::Number(Number::PosInt(_))))
            ==> basic_info_number(pairs, 2) == 0,
        !(lookup(pairs, "0/40/4"@) matches Some(JsonModel::Number(Number::PosInt(_))))
            ==> basic_info_number(pairs, 4) == 0,
{
    reveal_strlit("0/40/2");
    reveal_strlit("0/40/4");
    assert(decimal(4) =~= seq!['4']);
    assert(decimal(40) =~= seq!['4', '0']);
    assert(decimal(0) =~= seq!['0']);
    assert(decimal(2) =~= seq!['2']);
    assert(path_key(0, 40, 2) =~= "0/40/2"@);
    assert(path_key(0, 40, 4) =~= "0/40/4"@);
}

} // verus!
