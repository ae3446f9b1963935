//! The closed set of failure kinds, and the error value every fallible
//! operation of this crate returns.

use vstd::prelude::*;

verus! {

/// The status with which the host answers an operation.
#[derive(Debug, Clone, Copy, PartialEq, Eq, Structural)]
pub enum NapiStatus {
    Success,
    InvalidArg,
    ObjectExpected,
    StringExpected,
    NameExpected,
    FunctionExpected,
    NumberExpected,
    BooleanExpected,
    ArrayExpected,
    GenericFailure,
    PendingException,
    Cancelled,
    StatusLast,
}

/// The kind of a failed conversion or host operation.
#[derive(Debug, Clone, Copy, PartialEq, Eq, Structural)]
pub enum NapiErrorType {
    InvalidArg,
    ObjectExpected,
    StringExpected,
    NameExpected,
    FunctionExpected,
    NumberExpected,
    BooleanExpected,
    ArrayExpected,
    GenericFailure,
    PendingException,
    Cancelled,
    StatusLast,
}

impl From<NapiStatus> for NapiErrorType {
    /// Maps a host status to the kind reported for it. A status that names
    /// no failure of its own collapses to `GenericFailure`.
    fn from(s: NapiStatus) -> (r: Self) {
        match s {
            NapiStatus::InvalidArg => NapiErrorType::InvalidArg,
            NapiStatus::ObjectExpected => NapiErrorType::ObjectExpected,
            NapiStatus::StringExpected => NapiErrorType::StringExpected,
            NapiStatus::NameExpected => NapiErrorType::NameExpected,
            NapiStatus::FunctionExpected => NapiErrorType::FunctionExpected,
            NapiStatus::NumberExpected => NapiErrorType::NumberExpected,
            NapiStatus::BooleanExpected => NapiErrorType::BooleanExpected,
            NapiStatus::ArrayExpected => NapiErrorType::ArrayExpected,
            NapiStatus::GenericFailure => NapiErrorType::GenericFailure,
            NapiStatus::PendingException => NapiErrorType::PendingException,
            NapiStatus::Cancelled => NapiErrorType::Cancelled,
            _ => NapiErrorType::GenericFailure,
        }
    }
}

impl vstd::std_specs::convert::FromSpecImpl<NapiStatus> for NapiErrorType {
    open spec fn obeys_from_spec() -> bool {
        true
    }

    open spec fn from_spec(s: NapiStatus) -> Self {
        match s {
            NapiStatus::InvalidArg => NapiErrorType::InvalidArg,
            NapiStatus::ObjectExpected => NapiErrorType::ObjectExpected,
            NapiStatus::StringExpected => NapiErrorType::StringExpected,
            NapiStatus::NameExpected => NapiErrorType::NameExpected,
            NapiStatus::FunctionExpected => NapiErrorType::FunctionExpected,
            NapiStatus::NumberExpected => NapiErrorType::NumberExpected,
            NapiStatus::BooleanExpected => NapiErrorType::BooleanExpected,
            NapiStatus::ArrayExpected => NapiErrorType::ArrayExpected,
            NapiStatus::PendingException => NapiErrorType::PendingException,
            NapiStatus::Cancelled => NapiErrorType::Cancelled,
            NapiStatus::Success | NapiStatus::GenericFailure | NapiStatus::StatusLast =>
                NapiErrorType::GenericFailure,
        }
    }
}

/// The record the host keeps of the last operation that failed.
#[derive(Debug, Clone)]
pub struct ExtendedErrorInfo {
    /// The host's description; absent where the host gives none.
    pub error_message: Option<String>,
    pub engine_error_code: u32,
    pub error_code: NapiStatus,
}

/// The mathematical content of an [`ExtendedErrorInfo`].
pub struct ExtendedErrorInfoView {
    pub error_message: Option<Seq<char>>,
    pub engine_error_code: u32,
    pub error_code: NapiStatus,
}

impl View for ExtendedErrorInfo {
    type V = ExtendedErrorInfoView;

    open spec fn view(&self) -> ExtendedErrorInfoView {
        ExtendedErrorInfoView {
            error_message: match self.error_message {
                Some(m) => Some(m@),
                None => None,
            },
            engine_error_code: self.engine_error_code,
            error_code: self.error_code,
        }
    }
}

/// A failed conversion or host operation.
#[derive(Debug, Clone)]
pub struct NapiError {
    pub error_message: String,
    pub engine_error_code: u32,
    pub error_code: NapiErrorType,
}

/// The mathematical content of a [`NapiError`].
pub struct NapiErrorView {
    pub error_message: Seq<char>,
    pub engine_error_code: u32,
    pub error_code: NapiErrorType,
}

impl View for NapiError {
    type V = NapiErrorView;

    open spec fn view(&self) -> NapiErrorView {
        NapiErrorView {
            error_message: self.error_message@,
            engine_error_code: self.engine_error_code,
            error_code: self.error_code,
        }
    }
}

/// The error of kind `kind` that carries `message` and no engine code.
pub open spec fn plain_error(kind: NapiErrorType, message: Seq<char>) -> NapiErrorView {
    NapiErrorView { error_message: message, engine_error_code: 0, error_code: kind }
}

/// The error that a host record is reported as: its description, or the
/// empty text where it has none, its engine code, and the kind of its status.
pub open spec fn error_of_info(info: ExtendedErrorInfoView) -> NapiErrorView {
    NapiErrorView {
        error_message: match info.error_message {
            Some(m) => m,
            None => Seq::<char>::empty(),
        },
        engine_error_code: info.engine_error_code,
        error_code: <NapiErrorType as vstd::std_specs::convert::FromSpec<NapiStatus>>::from_spec(
            info.error_code,
        ),
    }
}

/// The mathematical content of a fallible result whose success value is
/// plain data.
pub open spec fn result_view<T>(r: Result<T, NapiError>) -> Result<T, NapiErrorView> {
    match r {
        Ok(v) => Ok(v),
        Err(e) => Err(e@),
    }
}

/// A `GenericFailure` with the given message.
pub fn make_generic_napi_error(message: &str) -> (r: NapiError)
    ensures
        r@ == plain_error(NapiErrorType::GenericFailure, message@),
{
    NapiError {
        error_message: String::from_str(message),
        engine_error_code: 0,
        error_code: NapiErrorType::GenericFailure,
    }
}

/// An `InvalidArg` with the given message.
pub fn make_invalid_arg_error(message: String) -> (r: NapiError)
    ensures
        r@ == plain_error(NapiErrorType::InvalidArg, message@),
{
    NapiError { error_message: message, engine_error_code: 0, error_code: NapiErrorType::InvalidArg }
}

impl NapiError {
    /// Reports a host error record as a [`NapiError`].
    pub fn from_error_info(error: ExtendedErrorInfo) -> (r: NapiError)
        ensures
            r@ == error_of_info(error@),
    {
        let message = match error.error_message {
            Some(m) => m,
            None => String::new(),
        };
        NapiError {
            error_message: message,
            engine_error_code: error.engine_error_code,
            error_code: NapiErrorType::from(error.error_code),
        }
    }

    /// The error for text that holds a zero byte.
    pub fn from_nul_error() -> (r: NapiError)
        ensures
            r@ == plain_error(NapiErrorType::GenericFailure, "string must not contain 0 byte"@),
    {
        make_generic_napi_error("string must not contain 0 byte")
    }

    /// The error for bytes that are not UTF-8.
    pub fn from_utf8_error() -> (r: NapiError)
        ensures
            r@ == plain_error(NapiErrorType::GenericFailure, "invalid utf-8 sequence"@),
    {
        make_generic_napi_error("invalid utf-8 sequence")
    }
}

} // verus!
