//! The error every command can end in: a stable code (which is also the exit status), a message,
//! and optional detail and remediation text.

use vstd::prelude::*;
use vstd::string::*;

verus! {

/// Stable failure classes. Each has a name (`code:` in the envelope) and an exit status.
#[derive(Clone, Copy, Debug, PartialEq, Eq, Structural)]
pub enum ErrorCode {
    Error,
    Network,
    AuthRequired,
    NotFound,
    RateLimited,
    InvalidInput,
    NoAccount,
}

/// The exit status of each code: `1 error`, `2 network`, `3 auth_required`, `4 not_found`,
/// `5 rate_limited`, `6 invalid_input`, `7 no_account` (0 is success).
pub open spec fn spec_exit_code(c: ErrorCode) -> int {
    match c {
        ErrorCode::Error => 1,
        ErrorCode::Network => 2,
        ErrorCode::AuthRequired => 3,
        ErrorCode::NotFound => 4,
        ErrorCode::RateLimited => 5,
        ErrorCode::InvalidInput => 6,
        ErrorCode::NoAccount => 7,
    }
}

/// The name of each code as it appears in the error envelope.
pub open spec fn spec_code_name(c: ErrorCode) -> Seq<char> {
    match c {
        ErrorCode::Error => "error"@,
        ErrorCode::Network => "network"@,
        ErrorCode::AuthRequired => "auth_required"@,
        ErrorCode::NotFound => "not_found"@,
        ErrorCode::RateLimited => "rate_limited"@,
        ErrorCode::InvalidInput => "invalid_input"@,
        ErrorCode::NoAccount => "no_account"@,
    }
}

impl ErrorCode {
    /// The name shown as `code:` in the error envelope.
    pub fn name(self) -> (r: &'static str)
        ensures
            r@ == spec_code_name(self),
    {
        match self {
            ErrorCode::Error => "error",
            ErrorCode::Network => "network",
            ErrorCode::AuthRequired => "auth_required",
            ErrorCode::NotFound => "not_found",
            ErrorCode::RateLimited => "rate_limited",
            ErrorCode::InvalidInput => "invalid_input",
            ErrorCode::NoAccount => "no_account",
        }
    }

    /// The process exit status for this code.
    pub fn exit_code(self) -> (r: i32)
        ensures
            r == spec_exit_code(self),
    {
        match self {
            ErrorCode::Error => 1,
            ErrorCode::Network => 2,
            ErrorCode::AuthRequired => 3,
            ErrorCode::NotFound => 4,
            ErrorCode::RateLimited => 5,
            ErrorCode::InvalidInput => 6,
            ErrorCode::NoAccount => 7,
        }
    }
}

/// The text of an optional string.
pub open spec fn opt_text(o: Option<String>) -> Option<Seq<char>> {
    match o {
        Some(s) => Some(s@),
        None => None,
    }
}

/// A failure with its code, a one-line message, and optional detail and remediation.
#[derive(Clone, Debug)]
pub struct Error {
    pub code: ErrorCode,
    pub message: String,
    pub detail: Option<String>,
    pub remediation: Option<String>,
}

impl Error {
    /// An error of the given code with only a message.
    pub fn new(code: ErrorCode, message: String) -> (r: Error)
        ensures
            r.code == code,
            r.message@ == message@,
            r.detail is None,
            r.remediation is None,
    {
        Error { code, message, detail: None, remediation: None }
    }

    /// An unclassified error (`ErrorCode::Error`).
    pub fn other(message: String) -> (r: Error)
        ensures
            r.code == ErrorCode::Error,
            r.message@ == message@,
            r.detail is None,
            r.remediation is None,
    {
        Error::new(ErrorCode::Error, message)
    }

    /// An invalid-input error (`ErrorCode::InvalidInput`).
    pub fn invalid(message: String) -> (r: Error)
        ensures
            r.code == ErrorCode::InvalidInput,
            r.message@ == message@,
            r.detail is None,
            r.remediation is None,
    {
        Error::new(ErrorCode::InvalidInput, message)
    }

    /// The same error with `detail` set.
    pub fn detail(self, detail: String) -> (r: Error)
        ensures
            r.code == self.code,
            r.message == self.message,
            r.detail == Some(detail),
            r.remediation == self.remediation,
    {
        Error { detail: Some(detail), ..self }
    }

    /// The same error with `remediation` set.
    pub fn fix(self, remediation: String) -> (r: Error)
        ensures
            r.code == self.code,
            r.message == self.message,
            r.detail == self.detail,
            r.remediation == Some(remediation),
    {
        Error { remediation: Some(remediation), ..self }
    }
}

/// An error with a literal message.
pub fn error_with(code: ErrorCode, message: &str) -> (r: Error)
    ensures
        r.code == code,
        r.message@ == message@,
        r.detail is None,
        r.remediation is None,
{
    Error::new(code, String::from_str(message))
}

} // verus!
