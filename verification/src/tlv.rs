//! A Matter TLV element as a tree of plain values.

use crate::error::{SdkError, SdkErrorModel};
use crate::json::Number;
use vstd::prelude::*;

verus! {

/// The tag of a container member.
#[derive(Debug, PartialEq, Eq)]
pub enum Tag {
    Anonymous,
    Context(u8),
    /// A profile-specific tag.
    Other,
    /// The member could not be read at all.
    Unreadable(SdkError),
}

#[verifier::ext_equal]
pub enum TagModel {
    Anonymous,
    Context(u8),
    Other,
    Unreadable(SdkErrorModel),
}

/// A TLV element. A floating-point element holds the number it was read from or
/// is to be written from; that number takes the element's width, and the form of a
/// floating-point number, only when it is put into bytes.
#[derive(Debug, PartialEq, Eq)]
pub enum Tlv {
    S8(i8),
    S16(i16),
    S32(i32),
    S64(i64),
    U8(u8),
    U16(u16),
    U32(u32),
    U64(u64),
    Bool(bool),
    Single(Number),
    Double(Number),
    /// The payload of a UTF-8 string, which a device may fill with any bytes.
    Utf8(Vec<u8>),
    Octets(Vec<u8>),
    Null,
    Struct(Vec<Member>),
    Array(Vec<Member>),
    List(Vec<Member>),
    /// An end-of-container marker where a value was due.
    EndOfContainer,
    /// An element that could not be read.
    Malformed(SdkError),
}

/// A tagged element inside a container.
#[derive(Debug, PartialEq, Eq)]
pub struct Member {
    pub tag: Tag,
    pub value: Tlv,
}

#[verifier::ext_equal]
pub enum TlvModel {
    S8(i8),
    S16(i16),
    S32(i32),
    S64(i64),
    U8(u8),
    U16(u16),
    U32(u32),
    U64(u64),
    Bool(bool),
    Single(Number),
    Double(Number),
    Utf8(Seq<u8>),
    Octets(Seq<u8>),
    Null,
    Struct(Seq<MemberModel>),
    Array(Seq<MemberModel>),
    List(Seq<MemberModel>),
    EndOfContainer,
    Malformed(SdkErrorModel),
}

#[verifier::ext_equal]
pub struct MemberModel {
    pub tag: TagModel,
    pub value: TlvModel,
}

impl Tag {
    pub open spec fn view(&self) -> TagModel {
        match *self {
            Tag::Anonymous => TagModel::Anonymous,
            Tag::Context(n) => TagModel::Context(n),
            Tag::Other => TagModel::Other,
            Tag::Unreadable(e) => TagModel::Unreadable(e@),
        }
    }
}

impl Member {
    pub open spec fn view(&self) -> MemberModel
        decreases self,
    {
        MemberModel { tag: self.tag.view(), value: self.value.view() }
    }
}

/// The models of a run of members.
pub open spec fn member_models(ms: Seq<Member>) -> Seq<MemberModel>
    decreases ms,
{
    Seq::new(
        ms.len(),
        |i: int|
            if 0 <= i < ms.len() {
                ms[i].view()
            } else {
                arbitrary()
            },
    )
}

impl Tlv {
    pub open spec fn view(&self) -> TlvModel
        decreases self,
    {
        match *self {
            Tlv::S8(v) => TlvModel::S8(v),
            Tlv::S16(v) => TlvModel::S16(v),
            Tlv::S32(v) => TlvModel::S32(v),
            Tlv::S64(v) => TlvModel::S64(v),
            Tlv::U8(v) => TlvModel::U8(v),
            Tlv::U16(v) => TlvModel::U16(v),
            Tlv::U32(v) => TlvModel::U32(v),
            Tlv::U64(v) => TlvModel::U64(v),
            Tlv::Bool(b) => TlvModel::Bool(b),
            Tlv::Single(n) => TlvModel::Single(n),
            Tlv::Double(n) => TlvModel::Double(n),
            Tlv::Utf8(b) => TlvModel::Utf8(b@),
            Tlv::Octets(b) => TlvModel::Octets(b@),
            Tlv::Null => TlvModel::Null,
            Tlv::Struct(ms) => TlvModel::Struct(member_models(ms@)),
            Tlv::Array(ms) => TlvModel::Array(member_models(ms@)),
            Tlv::List(ms) => TlvModel::List(member_models(ms@)),
            Tlv::EndOfContainer => TlvModel::EndOfContainer,
            Tlv::Malformed(e) => TlvModel::Malformed(e@),
        }
    }
}

} // verus!
