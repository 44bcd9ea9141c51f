//! Errors: what the Matter SDK reports, and the five kinds callers see.

use vstd::prelude::*;

verus! {

/// The SDK error codes that decide how an error is reported. Every other code
/// is `Other`, told apart by its text alone.
#[derive(Clone, Copy, Debug, PartialEq, Eq, Structural)]
pub enum ErrorCode {
    NotFound,
    RxTimeout,
    TxTimeout,
    Busy,
    InvalidData,
    StdIoError,
    Other,
}

/// An SDK error: its code and the text it is displayed as.
#[derive(Debug, PartialEq, Eq)]
pub struct SdkError {
    pub code: ErrorCode,
    pub text: String,
}

#[verifier::ext_equal]
pub struct SdkErrorModel {
    pub code: ErrorCode,
    pub text: Seq<char>,
}

impl SdkError {
    pub open spec fn view(&self) -> SdkErrorModel {
        SdkErrorModel { code: self.code, text: self.text@ }
    }

    pub fn duplicate(&self) -> (res: SdkError)
        ensures
            res@ == self@,
    {
        SdkError { code: self.code, text: self.text.clone() }
    }
}

pub open spec fn invalid_data() -> SdkErrorModel {
    SdkErrorModel { code: ErrorCode::InvalidData, text: "InvalidData"@ }
}

/// The error for data that does not have the shape it should have.
pub fn invalid() -> (res: SdkError)
    ensures
        res@ == invalid_data(),
        res.code == ErrorCode::InvalidData,
        res.text@ == "InvalidData"@,
{
    SdkError { code: ErrorCode::InvalidData, text: "InvalidData".to_owned() }
}

pub open spec fn io_error() -> SdkErrorModel {
    SdkErrorModel { code: ErrorCode::StdIoError, text: "StdIoError"@ }
}

/// The error for what the operating system does not have.
pub fn std_io_error() -> (res: SdkError)
    ensures
        res@ == io_error(),
        res.code == ErrorCode::StdIoError,
        res.text@ == "StdIoError"@,
{
    SdkError { code: ErrorCode::StdIoError, text: "StdIoError".to_owned() }
}

} // verus!
