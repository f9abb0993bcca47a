//! Error taxonomy of the synchronisation core and its API envelope.

use vstd::prelude::*;
use vstd::string::*;
use crate::text::{decimal, push_decimal};

verus! {

/// The kinds of failure that the core reports.
#[derive(Clone, Copy, Debug, PartialEq, Eq, Structural)]
pub enum ErrorCode {
    /// Bad configuration, such as a malformed proxy URL.
    InvalidParameter,
    /// The server lacks a capability that the core needs.
    Incompatible,
    /// An API request ran past its deadline.
    RequestTimeout,
    /// A transport connection did not complete in time.
    ConnectionTimeout,
    /// A transport or proxy failure other than a timeout.
    NetworkError,
    /// The server rejected a protocol command.
    ImapCommandFailed,
    /// The server answered, but with data that breaks an assumption.
    ImapUnexpectedResult,
    /// A persistence or logic invariant was violated.
    InternalError,
}

/// The stable numeric code of each error kind.
pub open spec fn code_number(c: ErrorCode) -> u32 {
    match c {
        ErrorCode::InvalidParameter => 10000,
        ErrorCode::Incompatible => 10010,
        ErrorCode::RequestTimeout => 10020,
        ErrorCode::ConnectionTimeout => 50000,
        ErrorCode::NetworkError => 50010,
        ErrorCode::ImapCommandFailed => 50020,
        ErrorCode::ImapUnexpectedResult => 50030,
        ErrorCode::InternalError => 70000,
    }
}

/// The HTTP status that an API answer carries for each error kind.
pub open spec fn http_status(c: ErrorCode) -> u16 {
    match c {
        ErrorCode::InvalidParameter => 400,
        ErrorCode::Incompatible => 400,
        ErrorCode::RequestTimeout => 408,
        ErrorCode::ConnectionTimeout => 504,
        ErrorCode::NetworkError => 502,
        ErrorCode::ImapCommandFailed => 502,
        ErrorCode::ImapUnexpectedResult => 502,
        ErrorCode::InternalError => 500,
    }
}

impl ErrorCode {
    pub fn number(&self) -> (r: u32)
        ensures
            r == code_number(*self),
    {
        match self {
            ErrorCode::InvalidParameter => 10000,
            ErrorCode::Incompatible => 10010,
            ErrorCode::RequestTimeout => 10020,
            ErrorCode::ConnectionTimeout => 50000,
            ErrorCode::NetworkError => 50010,
            ErrorCode::ImapCommandFailed => 50020,
            ErrorCode::ImapUnexpectedResult => 50030,
            ErrorCode::InternalError => 70000,
        }
    }

    pub fn status(&self) -> (r: u16)
        ensures
            r == http_status(*self),
    {
        match self {
            ErrorCode::InvalidParameter => 400,
            ErrorCode::Incompatible => 400,
            ErrorCode::RequestTimeout => 408,
            ErrorCode::ConnectionTimeout => 504,
            ErrorCode::NetworkError => 502,
            ErrorCode::ImapCommandFailed => 502,
            ErrorCode::ImapUnexpectedResult => 502,
            ErrorCode::InternalError => 500,
        }
    }
}

/// A failure of the core: a human-readable message and its kind.
#[derive(Debug)]
pub enum BichonError {
    Generic { message: String, code: ErrorCode },
}

pub type BichonResult<T> = Result<T, BichonError>;

impl BichonError {
    pub open spec fn spec_code(&self) -> ErrorCode {
        match self {
            BichonError::Generic { code, .. } => *code,
        }
    }

    pub open spec fn spec_message(&self) -> Seq<char> {
        match self {
            BichonError::Generic { message, .. } => message@,
        }
    }

    pub fn new(message: String, code: ErrorCode) -> (r: Self)
        ensures
            r.spec_code() == code,
            r.spec_message() == message@,
    {
        BichonError::Generic { message, code }
    }

    pub fn code(&self) -> (r: ErrorCode)
        ensures
            r == self.spec_code(),
    {
        match self {
            BichonError::Generic { code, .. } => *code,
        }
    }
}

/// The error body that the API returns.
#[derive(Debug, Clone)]
pub struct ApiError {
    pub message: String,
    pub code: u32,
}

/// The text form of an API error: `Error(<code>): <message>`.
pub open spec fn api_error_text(code: u32, message: Seq<char>) -> Seq<char> {
    "Error("@ + decimal(code as nat) + "): "@ + message
}

/// Relies on the `{:#}` (alternate) form of std's `Display` for the value.
#[verifier::external_body]
fn display_alternate<E: std::fmt::Display>(error: &E) -> String {
    format!("{:#}", error)
}

impl ApiError {
    pub fn new(message: String, code: u32) -> (r: Self)
        ensures
            r.message@ == message@,
            r.code == code,
    {
        ApiError { message, code }
    }

    /// An API error whose message is the alternate display form of `error`.
    pub fn new_with_error_code<E: std::fmt::Display>(error: E, code: u32) -> (r: ApiError)
        ensures
            r.code == code,
    {
        Self::new(display_alternate(&error), code)
    }

    /// The API error that reports a core failure: its message and numeric code.
    pub fn from_error(error: BichonError) -> (r: ApiError)
        ensures
            r.message@ == error.spec_message(),
            r.code == code_number(error.spec_code()),
    {
        match error {
            BichonError::Generic { message, code } => ApiError { message, code: code.number() },
        }
    }

    /// The text form of the error, `Error(<code>): <message>`.
    pub fn to_text(&self) -> (r: String)
        ensures
            r@ == api_error_text(self.code, self.message@),
    {
        let mut s = String::from_str("Error(");
        push_decimal(&mut s, self.code as u64);
        s.append("): ");
        s.append(self.message.as_str());
        s
    }
}

} // verus!
