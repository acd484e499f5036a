//! The error type shared by every layer of the library.

use crate::constants::ErrorCode;
use crate::text;
use crate::text::{concat2, concat3, u64_text};
use vstd::prelude::*;

verus! {

/// Why an input or output operation failed.
#[derive(Debug, Clone, Copy, PartialEq, Eq, Structural)]
pub enum IoKind {
    UnexpectedEof,
    InvalidData,
    InvalidInput,
    TimedOut,
    ConnectionAborted,
    ConnectionRefused,
    BrokenPipe,
    AlreadyExists,
    NotConnected,
    Other,
}

/// A failed input or output operation.
#[derive(Debug, Clone)]
pub struct IoError {
    pub kind: IoKind,
    pub message: String,
}

/// Everything that can go wrong while framing, routing or carrying a message.
#[derive(Debug, Clone)]
pub enum RepeError {
    VersionMismatch(u8),
    InvalidSpec(u16),
    InvalidHeaderLength(usize),
    ReservedNonZero,
    LengthMismatch { expected: u64, got: u64 },
    BufferTooSmall { need: u64, have: u64 },
    ResponseIdMismatch { expected: u64, got: u64 },
    Io(IoError),
    Json(String),
    Beve(String),
    InvalidUtf8,
    UnknownEnumValue(u64),
    ServerError { code: ErrorCode, message: String },
    MessageTooLarge { size: usize, limit: usize },
}

/// What a [`RepeError`] says, with its texts as character sequences.
pub enum ErrorModel {
    VersionMismatch(u8),
    InvalidSpec(u16),
    InvalidHeaderLength(nat),
    ReservedNonZero,
    LengthMismatch { expected: u64, got: u64 },
    BufferTooSmall { need: u64, have: u64 },
    ResponseIdMismatch { expected: u64, got: u64 },
    Io { kind: IoKind, message: Seq<char> },
    Json(Seq<char>),
    Beve(Seq<char>),
    InvalidUtf8,
    UnknownEnumValue(u64),
    ServerError { code: ErrorCode, message: Seq<char> },
    MessageTooLarge { size: nat, limit: nat },
}

impl View for RepeError {
    type V = ErrorModel;

    open spec fn view(&self) -> ErrorModel {
        match *self {
            RepeError::VersionMismatch(version) => ErrorModel::VersionMismatch(version),
            RepeError::InvalidSpec(spec_field) => ErrorModel::InvalidSpec(spec_field),
            RepeError::InvalidHeaderLength(length) => ErrorModel::InvalidHeaderLength(
                length as nat,
            ),
            RepeError::ReservedNonZero => ErrorModel::ReservedNonZero,
            RepeError::LengthMismatch { expected, got } => ErrorModel::LengthMismatch {
                expected,
                got,
            },
            RepeError::BufferTooSmall { need, have } => ErrorModel::BufferTooSmall { need, have },
            RepeError::ResponseIdMismatch { expected, got } => ErrorModel::ResponseIdMismatch {
                expected,
                got,
            },
            RepeError::Io(e) => ErrorModel::Io { kind: e.kind, message: e.message@ },
            RepeError::Json(message) => ErrorModel::Json(message@),
            RepeError::Beve(message) => ErrorModel::Beve(message@),
            RepeError::InvalidUtf8 => ErrorModel::InvalidUtf8,
            RepeError::UnknownEnumValue(value) => ErrorModel::UnknownEnumValue(value),
            RepeError::ServerError { code, message } => ErrorModel::ServerError {
                code,
                message: message@,
            },
            RepeError::MessageTooLarge { size, limit } => ErrorModel::MessageTooLarge {
                size: size as nat,
                limit: limit as nat,
            },
        }
    }
}

impl ErrorModel {
    /// The code that reports the error to the other side.
    pub open spec fn error_code(self) -> ErrorCode {
        match self {
            ErrorModel::VersionMismatch(_) => ErrorCode::VersionMismatch,
            ErrorModel::InvalidSpec(_) => ErrorCode::InvalidHeader,
            ErrorModel::InvalidHeaderLength(_) => ErrorCode::InvalidHeader,
            ErrorModel::ReservedNonZero => ErrorCode::InvalidHeader,
            ErrorModel::LengthMismatch { .. } => ErrorCode::InvalidHeader,
            ErrorModel::BufferTooSmall { .. } => ErrorCode::InvalidHeader,
            ErrorModel::ResponseIdMismatch { .. } => ErrorCode::InvalidHeader,
            ErrorModel::Io { .. } => ErrorCode::InternalError,
            ErrorModel::Json(_) => ErrorCode::ParseError,
            ErrorModel::Beve(_) => ErrorCode::ParseError,
            ErrorModel::InvalidUtf8 => ErrorCode::ParseError,
            ErrorModel::UnknownEnumValue(_) => ErrorCode::ParseError,
            ErrorModel::ServerError { code, .. } => code,
            ErrorModel::MessageTooLarge { .. } => ErrorCode::ResourceExhausted,
        }
    }

    /// What the error says to a reader.
    pub open spec fn text(self) -> Seq<char> {
        match self {
            ErrorModel::VersionMismatch(version) => "version mismatch: "@ + text::decimal(version as nat),
            ErrorModel::InvalidSpec(number) => "invalid spec magic: "@ + text::decimal(number as nat),
            ErrorModel::InvalidHeaderLength(length) => "invalid header length: "@ + text::decimal(length),
            ErrorModel::ReservedNonZero => "reserved field must be zero"@,
            ErrorModel::LengthMismatch { expected, got } => "length mismatch: expected "@ + text::decimal(
                expected as nat,
            ) + ", got "@ + text::decimal(got as nat),
            ErrorModel::BufferTooSmall { need, have } => "buffer too small: need "@ + text::decimal(
                need as nat,
            ) + ", have "@ + text::decimal(have as nat),
            ErrorModel::ResponseIdMismatch { expected, got } => "response id mismatch: expected "@
                + text::decimal(expected as nat) + ", got "@ + text::decimal(got as nat),
            ErrorModel::Io { message, .. } => "io error: "@ + message,
            ErrorModel::Json(message) => "json error: "@ + message,
            ErrorModel::Beve(message) => "beve error: "@ + message,
            ErrorModel::InvalidUtf8 => "invalid UTF-8"@,
            ErrorModel::UnknownEnumValue(value) => "unknown enum value: "@ + text::decimal(value as nat),
            ErrorModel::ServerError { code, message } => "server error ("@ + code.label() + "): "@
                + message,
            ErrorModel::MessageTooLarge { size, limit } => "message of "@ + text::decimal(size)
                + " bytes exceeds the assumed peer limit of "@ + text::decimal(limit) + " bytes"@,
        }
    }
}

/// `before`, `a` in decimal, `between`, `b` in decimal.
fn two_numbers(before: &str, a: u64, between: &str, b: u64) -> (s: String)
    ensures
        s@ == before@ + text::decimal(a as nat) + between@ + text::decimal(b as nat),
{
    let mut s = concat2(before, u64_text(a).as_str());
    s.append(between);
    s.append(u64_text(b).as_str());
    s
}

impl RepeError {
    /// The code that reports this error to the other side.
    pub fn to_error_code(&self) -> (code: ErrorCode)
        ensures
            code == self@.error_code(),
    {
        match self {
            RepeError::VersionMismatch(_) => ErrorCode::VersionMismatch,
            RepeError::InvalidSpec(_) => ErrorCode::InvalidHeader,
            RepeError::InvalidHeaderLength(_) => ErrorCode::InvalidHeader,
            RepeError::ReservedNonZero => ErrorCode::InvalidHeader,
            RepeError::LengthMismatch { .. } => ErrorCode::InvalidHeader,
            RepeError::BufferTooSmall { .. } => ErrorCode::InvalidHeader,
            RepeError::ResponseIdMismatch { .. } => ErrorCode::InvalidHeader,
            RepeError::Io(_) => ErrorCode::InternalError,
            RepeError::Json(_) => ErrorCode::ParseError,
            RepeError::Beve(_) => ErrorCode::ParseError,
            RepeError::InvalidUtf8 => ErrorCode::ParseError,
            RepeError::UnknownEnumValue(_) => ErrorCode::ParseError,
            RepeError::ServerError { code, .. } => *code,
            RepeError::MessageTooLarge { .. } => ErrorCode::ResourceExhausted,
        }
    }

    /// What this error says to a reader.
    pub fn text(&self) -> (s: String)
        ensures
            s@ == self@.text(),
    {
        match self {
            RepeError::VersionMismatch(version) => concat2(
                "version mismatch: ",
                u64_text(*version as u64).as_str(),
            ),
            RepeError::InvalidSpec(number) => concat2(
                "invalid spec magic: ",
                u64_text(*number as u64).as_str(),
            ),
            RepeError::InvalidHeaderLength(length) => concat2(
                "invalid header length: ",
                u64_text(*length as u64).as_str(),
            ),
            RepeError::ReservedNonZero => "reserved field must be zero".to_owned(),
            RepeError::LengthMismatch { expected, got } => two_numbers(
                "length mismatch: expected ",
                *expected,
                ", got ",
                *got,
            ),
            RepeError::BufferTooSmall { need, have } => two_numbers(
                "buffer too small: need ",
                *need,
                ", have ",
                *have,
            ),
            RepeError::ResponseIdMismatch { expected, got } => two_numbers(
                "response id mismatch: expected ",
                *expected,
                ", got ",
                *got,
            ),
            RepeError::Io(e) => concat2("io error: ", e.message.as_str()),
            RepeError::Json(message) => concat2("json error: ", message.as_str()),
            RepeError::Beve(message) => concat2("beve error: ", message.as_str()),
            RepeError::InvalidUtf8 => "invalid UTF-8".to_owned(),
            RepeError::UnknownEnumValue(value) => concat2(
                "unknown enum value: ",
                u64_text(*value).as_str(),
            ),
            RepeError::ServerError { code, message } => {
                let mut s = concat3("server error (", code.message(), "): ");
                s.append(message.as_str());
                s
            },
            RepeError::MessageTooLarge { size, limit } => {
                let mut s = two_numbers(
                    "message of ",
                    *size as u64,
                    " bytes exceeds the assumed peer limit of ",
                    *limit as u64,
                );
                s.append(" bytes");
                s
            },
        }
    }

    /// An input or output error of the given kind.
    pub fn io(kind: IoKind, message: &str) -> (e: RepeError)
        ensures
            e@ == (ErrorModel::Io { kind, message: message@ }),
    {
        RepeError::Io(IoError { kind, message: message.to_owned() })
    }
}

/// Every error is reported under the code of what went wrong: the peer's version,
/// its header, what it wrote, a failure on this side, or a limit. An error of the
/// other side keeps its code.
pub proof fn an_error_has_the_code_of_its_cause(e: ErrorModel)
    ensures
        e is VersionMismatch <==> (e.error_code() == ErrorCode::VersionMismatch
            && e !is ServerError),
        e is InvalidSpec || e is InvalidHeaderLength || e is ReservedNonZero || e is LengthMismatch
            || e is BufferTooSmall || e is ResponseIdMismatch ==> e.error_code()
            == ErrorCode::InvalidHeader,
        e is Json || e is Beve || e is InvalidUtf8 || e is UnknownEnumValue ==> e.error_code()
            == ErrorCode::ParseError,
        e is Io ==> e.error_code() == ErrorCode::InternalError,
        e is MessageTooLarge ==> e.error_code() == ErrorCode::ResourceExhausted,
        e matches ErrorModel::ServerError { code, .. } ==> e.error_code() == code,
        e !is ServerError ==> e.error_code() != ErrorCode::Success,
{
}

} // verus!
