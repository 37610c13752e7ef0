//! The error taxonomy: caller faults map to a 400-class status, upstream,
//! storage and configuration faults to a 500-class one. A single boundary
//! turns a typed error into the status and body the transport sends.

use vstd::prelude::*;
use vstd::string::*;
use crate::digits::dec_digits;
use crate::digits::dec_string;

verus! {

/// What went wrong: invalid input or a malformed upstream body, an upstream
/// failure, a storage failure, or a failed reconfiguration.
#[derive(Clone, Copy, Debug, PartialEq, Eq, Structural)]
pub enum ErrorKind {
    Validation,
    Upstream,
    Storage,
    Config,
}

/// The HTTP status that each kind maps to.
pub open spec fn status_of(k: ErrorKind) -> int {
    match k {
        ErrorKind::Validation => 400,
        ErrorKind::Upstream => 500,
        ErrorKind::Storage => 500,
        ErrorKind::Config => 500,
    }
}

/// The mathematical image of a typed error.
#[verifier::ext_equal]
pub struct ErrorModel {
    pub kind: ErrorKind,
    pub message: Seq<char>,
}

/// A typed error with a user-visible message.
#[derive(Debug)]
pub struct AppError {
    pub kind: ErrorKind,
    pub message: String,
}

impl View for AppError {
    type V = ErrorModel;

    open spec fn view(&self) -> ErrorModel {
        ErrorModel { kind: self.kind, message: self.message@ }
    }
}

/// The message the lookup endpoint answers with when the upstream returns a
/// non-success status.
pub open spec fn upstream_failure_message(status: nat, body: Seq<char>) -> Seq<char> {
    "Upstream API returned non-OK status: "@ + dec_digits(status) + ". Body: "@ + body
}

impl AppError {
    /// A 400-class error for a caller fault.
    pub fn bad_request(message: &str) -> (r: AppError)
        ensures
            r@ == (ErrorModel { kind: ErrorKind::Validation, message: message@ }),
    {
        AppError { kind: ErrorKind::Validation, message: String::from_str(message) }
    }

    /// A 500-class error for an upstream non-success answer; the message
    /// carries the upstream status and body.
    pub fn upstream_failure(status: u16, body: &str) -> (r: AppError)
        ensures
            r@ == (ErrorModel {
                kind: ErrorKind::Upstream,
                message: upstream_failure_message(status as nat, body@),
            }),
    {
        let mut m = String::from_str("Upstream API returned non-OK status: ");
        let d = dec_string(status as u64);
        m.append(d.as_str());
        m.append(". Body: ");
        m.append(body);
        AppError { kind: ErrorKind::Upstream, message: m }
    }

    /// A 500-class error for a failed storage read.
    pub fn storage(message: &str) -> (r: AppError)
        ensures
            r@ == (ErrorModel { kind: ErrorKind::Storage, message: message@ }),
    {
        AppError { kind: ErrorKind::Storage, message: String::from_str(message) }
    }

    /// A 500-class error for a failed reconfiguration.
    pub fn config(message: &str) -> (r: AppError)
        ensures
            r@ == (ErrorModel { kind: ErrorKind::Config, message: message@ }),
    {
        AppError { kind: ErrorKind::Config, message: String::from_str(message) }
    }

    /// The HTTP status this error maps to.
    pub fn status(&self) -> (s: u16)
        ensures
            s == status_of(self@.kind),
    {
        match self.kind {
            ErrorKind::Validation => 400,
            ErrorKind::Upstream => 500,
            ErrorKind::Storage => 500,
            ErrorKind::Config => 500,
        }
    }

    /// The user-visible message.
    pub fn message(&self) -> (m: &str)
        ensures
            m@ == self@.message,
    {
        self.message.as_str()
    }
}

/// The boundary that every handler error passes through: the response status
/// and body for a typed error.
pub fn error_response(err: &AppError) -> (r: (u16, String))
    ensures
        r.0 == status_of(err@.kind),
        r.1@ == err@.message,
{
    (err.status(), err.message.clone())
}

} // verus!
