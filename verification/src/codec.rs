//! Byte strings as text: base64 for octets, UTF-8 for names.

use base64::Engine;
use vstd::prelude::*;
use vstd::utf8::{decode_utf8, valid_utf8};

verus! {

/// The padded standard-alphabet base64 text of a byte string.
pub uninterp spec fn base64_text(bytes: Seq<u8>) -> Seq<char>;

/// What ill-formed UTF-8 is read as, with replacement characters in it.
pub uninterp spec fn lossy_text(bytes: Seq<u8>) -> Seq<char>;

/// The byte string whose base64 text this is, if it is one.
pub open spec fn base64_bytes(text: Seq<char>) -> Option<Seq<u8>> {
    if exists|bytes: Seq<u8>| #[trigger] base64_text(bytes) == text {
        Some(choose|bytes: Seq<u8>| #[trigger] base64_text(bytes) == text)
    } else {
        None
    }
}

/// A byte string read as UTF-8: well-formed text as it is, and anything else
/// with its ill-formed parts replaced.
pub open spec fn utf8_text(bytes: Seq<u8>) -> Seq<char> {
    if valid_utf8(bytes) {
        decode_utf8(bytes)
    } else {
        lossy_text(bytes)
    }
}

/// `base64::engine::general_purpose::STANDARD.encode`: the text is a function of
/// the bytes, and the same engine decodes it to those bytes again. The length of
/// the text overflows for no byte string that fits in memory.
#[verifier::external_body]
pub(crate) fn base64_encode(bytes: &Vec<u8>) -> (res: String)
    ensures
        res@ == base64_text(bytes@),
        base64_bytes(res@) == Some(bytes@),
{
    base64::engine::general_purpose::STANDARD.encode(bytes)
}

/// `base64::engine::general_purpose::STANDARD.decode`: the engine insists on
/// canonical padding and on clear trailing bits, so it accepts exactly the texts
/// that it encodes byte strings to, and gives back the one byte string each of
/// them stands for.
#[verifier::external_body]
pub(crate) fn base64_decode(text: &str) -> (res: Option<Vec<u8>>)
    ensures
        match res {
            Some(bytes) => base64_bytes(text@) == Some(bytes@),
            None => base64_bytes(text@) is None,
        },
{
    base64::engine::general_purpose::STANDARD.decode(text).ok()
}

/// `String::from_utf8_lossy`: well-formed UTF-8 is decoded as it is; what
/// anything else becomes is a function of the bytes.
#[verifier::external_body]
pub(crate) fn utf8_lossy(bytes: &Vec<u8>) -> (res: String)
    ensures
        res@ == utf8_text(bytes@),
        !valid_utf8(bytes@) ==> res@ == lossy_text(bytes@),
{
    String::from_utf8_lossy(bytes).into_owned()
}

} // verus!
