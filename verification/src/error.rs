//! The error type shared by every operation of the client.

use vstd::prelude::*;

use crate::text::{decimal, decimal_string};

verus! {

/// Errors returned by the TaskMarket client and its tools.
#[derive(Debug, Clone, PartialEq, Eq)]
pub enum TaskmarketError {
    /// An argument would produce an invalid or unsafe request.
    InvalidArgument(String),
    /// The HTTP transport failed; holds the transport's description of the failure.
    Transport(String),
    /// TaskMarket returned a non-success status.
    Api {
        /// HTTP status code.
        status: u16,
        /// Bounded response text useful for diagnostics.
        message: String,
    },
}

/// The reason phrase that the `http` crate's status table gives to `code`,
/// if the code has one.
pub uninterp spec fn canonical_reason(code: u16) -> Option<Seq<char>>;

/// Calls `reqwest::StatusCode::from_u16(code)` and `canonical_reason` on the
/// status. The phrase is named by `canonical_reason`, a function of the code
/// alone; the table itself is not restated here.
#[verifier::external_body]
fn status_reason(code: u16) -> (out: Option<String>)
    requires
        100 <= code <= 999,
    ensures
        out matches Some(s) ==> canonical_reason(code) == Some(s@),
        out is None ==> canonical_reason(code) is None,
{
    match reqwest::StatusCode::from_u16(code) {
        Ok(status) => match status.canonical_reason() {
            Some(reason) => Some(reason.to_string()),
            None => None,
        },
        Err(_) => None,
    }
}

/// How a status code with the given reason phrase reads in messages: the
/// number, a space, and the phrase (or `<unknown status code>` without one).
pub open spec fn status_line(code: u16, reason: Option<Seq<char>>) -> Seq<char> {
    decimal(code as nat) + " "@ + match reason {
        Some(r) => r,
        None => "<unknown status code>"@,
    }
}

/// How a status code reads in messages, with the phrase of the status table.
pub open spec fn status_text(code: u16) -> Seq<char> {
    status_line(
        code,
        if 100 <= code <= 999 {
            canonical_reason(code)
        } else {
            None
        },
    )
}

/// Writes a status code with its reason phrase, as `StatusCode`'s `Display` does.
pub fn status_line_string(code: u16, reason: Option<String>) -> (out: String)
    ensures
        out@ == status_line(
            code,
            match reason {
                Some(r) => Some(r@),
                None => None,
            },
        ),
{
    let mut s = decimal_string(code as u128);
    s.append(" ");
    match reason {
        Some(r) => s.append(r.as_str()),
        None => s.append("<unknown status code>"),
    }
    s
}

/// The human-readable message of an error.
pub open spec fn error_message(e: TaskmarketError) -> Seq<char> {
    match e {
        TaskmarketError::InvalidArgument(m) => "invalid TaskMarket request: "@ + m@,
        TaskmarketError::Transport(m) => "TaskMarket transport error: "@ + m@,
        TaskmarketError::Api { status, message } => "TaskMarket returned HTTP "@ + status_text(
            status,
        ) + ": "@ + message@,
    }
}

/// Whether an HTTP status code denotes success (200 through 299).
pub open spec fn is_success_code(code: u16) -> bool {
    200 <= code < 300
}

/// Whether an HTTP status code denotes success, as `StatusCode::is_success`.
pub fn is_success_status(code: u16) -> (b: bool)
    ensures
        b == is_success_code(code),
{
    200 <= code && code < 300
}

impl TaskmarketError {
    /// The error's message, as its `Display` rendering writes it.
    pub fn describe(&self) -> (out: String)
        ensures
            out@ == error_message(*self),
    {
        match self {
            TaskmarketError::InvalidArgument(m) => {
                let mut s = String::from_str("invalid TaskMarket request: ");
                s.append(m.as_str());
                s
            },
            TaskmarketError::Transport(m) => {
                let mut s = String::from_str("TaskMarket transport error: ");
                s.append(m.as_str());
                s
            },
            TaskmarketError::Api { status, message } => {
                let code = *status;
                let reason = if 100 <= code && code <= 999 {
                    status_reason(code)
                } else {
                    None
                };
                let mut s = String::from_str("TaskMarket returned HTTP ");
                s.append(status_line_string(code, reason).as_str());
                s.append(": ");
                s.append(message.as_str());
                s
            },
        }
    }
}

} // verus!
