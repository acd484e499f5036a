//! Wire constants of the protocol and the enumerations carried in a header.

use vstd::prelude::*;

verus! {

/// Size of the fixed header in bytes.
pub const HEADER_SIZE: usize = 48;

/// Magic number that opens every header.
pub const REPE_SPEC: u16 = 0x1507;

/// Protocol version spoken by this library.
pub const REPE_VERSION: u8 = 1;

/// How the query of a message is encoded.
#[derive(Debug, Clone, Copy, PartialEq, Eq, Structural)]
pub enum QueryFormat {
    RawBinary,
    JsonPointer,
}

impl QueryFormat {
    /// The number that stands for the format on the wire.
    pub open spec fn wire(self) -> u16 {
        match self {
            QueryFormat::RawBinary => 0,
            QueryFormat::JsonPointer => 1,
        }
    }

    pub fn code(self) -> (c: u16)
        ensures
            c == self.wire(),
    {
        match self {
            QueryFormat::RawBinary => 0,
            QueryFormat::JsonPointer => 1,
        }
    }

    /// The format with wire number `code`, if there is one.
    pub fn from_code(code: u16) -> (r: Option<QueryFormat>)
        ensures
            r matches Some(f) ==> f.wire() == code,
            r is Some == (code <= 1),
    {
        if code == 0 {
            Some(QueryFormat::RawBinary)
        } else if code == 1 {
            Some(QueryFormat::JsonPointer)
        } else {
            None
        }
    }
}

/// How the body of a message is encoded.
#[derive(Debug, Clone, Copy, PartialEq, Eq, Structural)]
pub enum BodyFormat {
    RawBinary,
    Beve,
    Json,
    Utf8,
}

impl BodyFormat {
    /// The number that stands for the format on the wire.
    pub open spec fn wire(self) -> u16 {
        match self {
            BodyFormat::RawBinary => 0,
            BodyFormat::Beve => 1,
            BodyFormat::Json => 2,
            BodyFormat::Utf8 => 3,
        }
    }

    /// The format with wire number `code`, if there is one.
    pub open spec fn of_wire(code: u16) -> Option<BodyFormat> {
        if code == 0 {
            Some(BodyFormat::RawBinary)
        } else if code == 1 {
            Some(BodyFormat::Beve)
        } else if code == 2 {
            Some(BodyFormat::Json)
        } else if code == 3 {
            Some(BodyFormat::Utf8)
        } else {
            None
        }
    }

    pub fn code(self) -> (c: u16)
        ensures
            c == self.wire(),
            BodyFormat::of_wire(c) == Some(self),
    {
        match self {
            BodyFormat::RawBinary => 0,
            BodyFormat::Beve => 1,
            BodyFormat::Json => 2,
            BodyFormat::Utf8 => 3,
        }
    }

    /// The format with wire number `code`, if there is one.
    pub fn from_code(code: u16) -> (r: Option<BodyFormat>)
        ensures
            r == BodyFormat::of_wire(code),
    {
        if code == 0 {
            Some(BodyFormat::RawBinary)
        } else if code == 1 {
            Some(BodyFormat::Beve)
        } else if code == 2 {
            Some(BodyFormat::Json)
        } else if code == 3 {
            Some(BodyFormat::Utf8)
        } else {
            None
        }
    }
}

/// How a value is written in a body.
#[derive(Debug, Clone, Copy, PartialEq, Eq, Structural)]
pub enum TypedFormat {
    Json,
    Beve,
}

/// Outcome of a request, as carried in a response header.
#[derive(Debug, Clone, Copy, PartialEq, Eq, Structural)]
pub enum ErrorCode {
    /// The request succeeded.
    Success,
    VersionMismatch,
    InvalidHeader,
    InvalidQuery,
    InvalidBody,
    ParseError,
    MethodNotFound,
    Timeout,
    InternalError,
    ResourceExhausted,
    /// First code of the range that applications may use as they like.
    ApplicationErrorBase,
}

impl ErrorCode {
    /// The number that stands for the code on the wire.
    pub open spec fn wire(self) -> u32 {
        match self {
            ErrorCode::Success => 0,
            ErrorCode::VersionMismatch => 1,
            ErrorCode::InvalidHeader => 2,
            ErrorCode::InvalidQuery => 3,
            ErrorCode::InvalidBody => 4,
            ErrorCode::ParseError => 5,
            ErrorCode::MethodNotFound => 6,
            ErrorCode::Timeout => 7,
            ErrorCode::InternalError => 8,
            ErrorCode::ResourceExhausted => 9,
            ErrorCode::ApplicationErrorBase => 4096,
        }
    }

    /// The code with wire number `code`, if there is one.
    pub open spec fn of_wire(code: u32) -> Option<ErrorCode> {
        if code == 0 {
            Some(ErrorCode::Success)
        } else if code == 1 {
            Some(ErrorCode::VersionMismatch)
        } else if code == 2 {
            Some(ErrorCode::InvalidHeader)
        } else if code == 3 {
            Some(ErrorCode::InvalidQuery)
        } else if code == 4 {
            Some(ErrorCode::InvalidBody)
        } else if code == 5 {
            Some(ErrorCode::ParseError)
        } else if code == 6 {
            Some(ErrorCode::MethodNotFound)
        } else if code == 7 {
            Some(ErrorCode::Timeout)
        } else if code == 8 {
            Some(ErrorCode::InternalError)
        } else if code == 9 {
            Some(ErrorCode::ResourceExhausted)
        } else if code == 4096 {
            Some(ErrorCode::ApplicationErrorBase)
        } else {
            None
        }
    }

    pub fn code(self) -> (c: u32)
        ensures
            c == self.wire(),
            ErrorCode::of_wire(c) == Some(self),
    {
        match self {
            ErrorCode::Success => 0,
            ErrorCode::VersionMismatch => 1,
            ErrorCode::InvalidHeader => 2,
            ErrorCode::InvalidQuery => 3,
            ErrorCode::InvalidBody => 4,
            ErrorCode::ParseError => 5,
            ErrorCode::MethodNotFound => 6,
            ErrorCode::Timeout => 7,
            ErrorCode::InternalError => 8,
            ErrorCode::ResourceExhausted => 9,
            ErrorCode::ApplicationErrorBase => 4096,
        }
    }

    /// The code with wire number `code`, if there is one.
    pub fn from_code(code: u32) -> (r: Option<ErrorCode>)
        ensures
            r == ErrorCode::of_wire(code),
    {
        if code == 0 {
            Some(ErrorCode::Success)
        } else if code == 1 {
            Some(ErrorCode::VersionMismatch)
        } else if code == 2 {
            Some(ErrorCode::InvalidHeader)
        } else if code == 3 {
            Some(ErrorCode::InvalidQuery)
        } else if code == 4 {
            Some(ErrorCode::InvalidBody)
        } else if code == 5 {
            Some(ErrorCode::ParseError)
        } else if code == 6 {
            Some(ErrorCode::MethodNotFound)
        } else if code == 7 {
            Some(ErrorCode::Timeout)
        } else if code == 8 {
            Some(ErrorCode::InternalError)
        } else if code == 9 {
            Some(ErrorCode::ResourceExhausted)
        } else if code == 4096 {
            Some(ErrorCode::ApplicationErrorBase)
        } else {
            None
        }
    }

    /// What the code says to a reader.
    pub open spec fn label(self) -> Seq<char> {
        match self {
            ErrorCode::Success => "OK"@,
            ErrorCode::VersionMismatch => "Version mismatch"@,
            ErrorCode::InvalidHeader => "Invalid header"@,
            ErrorCode::InvalidQuery => "Invalid query"@,
            ErrorCode::InvalidBody => "Invalid body"@,
            ErrorCode::ParseError => "Parse error"@,
            ErrorCode::MethodNotFound => "Method not found"@,
            ErrorCode::Timeout => "Timeout"@,
            ErrorCode::InternalError => "Internal error"@,
            ErrorCode::ResourceExhausted => "Resource exhausted"@,
            ErrorCode::ApplicationErrorBase => "Application error"@,
        }
    }

    pub fn message(self) -> (s: &'static str)
        ensures
            s@ == self.label(),
    {
        match self {
            ErrorCode::Success => "OK",
            ErrorCode::VersionMismatch => "Version mismatch",
            ErrorCode::InvalidHeader => "Invalid header",
            ErrorCode::InvalidQuery => "Invalid query",
            ErrorCode::InvalidBody => "Invalid body",
            ErrorCode::ParseError => "Parse error",
            ErrorCode::MethodNotFound => "Method not found",
            ErrorCode::Timeout => "Timeout",
            ErrorCode::InternalError => "Internal error",
            ErrorCode::ResourceExhausted => "Resource exhausted",
            ErrorCode::ApplicationErrorBase => "Application error",
        }
    }
}

/// The wire numbers of two codes differ unless the codes are the same, and the
/// number of a code leads back to it.
pub proof fn error_codes_are_distinct_on_the_wire(a: ErrorCode, b: ErrorCode)
    ensures
        a.wire() == b.wire() ==> a == b,
        ErrorCode::of_wire(a.wire()) == Some(a),
{
}

/// The numbers that stand for formats and codes are those of the protocol, so
/// that other implementations understand them, and each number stands for one
/// thing only.
pub proof fn the_wire_numbers_are_those_of_the_protocol(
    query: QueryFormat,
    body: BodyFormat,
    code: ErrorCode,
    body_number: u16,
    code_number: u32,
)
    ensures
        query.wire() == 0 <==> query == QueryFormat::RawBinary,
        query.wire() == 1 <==> query == QueryFormat::JsonPointer,
        body.wire() == 0 <==> body == BodyFormat::RawBinary,
        body.wire() == 1 <==> body == BodyFormat::Beve,
        body.wire() == 2 <==> body == BodyFormat::Json,
        body.wire() == 3 <==> body == BodyFormat::Utf8,
        BodyFormat::of_wire(body_number) == Some(body) <==> body.wire() == body_number,
        BodyFormat::of_wire(body_number) is None <==> body_number > 3,
        code.wire() == 0 <==> code == ErrorCode::Success,
        code.wire() == 1 <==> code == ErrorCode::VersionMismatch,
        code.wire() == 2 <==> code == ErrorCode::InvalidHeader,
        code.wire() == 3 <==> code == ErrorCode::InvalidQuery,
        code.wire() == 4 <==> code == ErrorCode::InvalidBody,
        code.wire() == 5 <==> code == ErrorCode::ParseError,
        code.wire() == 6 <==> code == ErrorCode::MethodNotFound,
        code.wire() == 7 <==> code == ErrorCode::Timeout,
        code.wire() == 8 <==> code == ErrorCode::InternalError,
        code.wire() == 9 <==> code == ErrorCode::ResourceExhausted,
        code.wire() == 4096 <==> code == ErrorCode::ApplicationErrorBase,
        ErrorCode::of_wire(code_number) == Some(code) <==> code.wire() == code_number,
        ErrorCode::of_wire(code_number) is None <==> code_number > 9 && code_number != 4096,
{
}

} // verus!
