//! The error type of the library.

use vstd::prelude::*;
use vstd::string::*;

verus! {

/// A span of time in whole seconds and nanoseconds.
#[derive(Copy, Clone, Debug, PartialEq, Eq, Structural)]
pub struct Span {
    /// Whole seconds.
    pub secs: u64,
    /// Nanoseconds beyond the whole seconds.
    pub nanos: u32,
}

/// What can go wrong while a plan runs.
#[derive(Debug, PartialEq, Eq)]
pub enum CirrusError {
    /// A device or its backend failed.
    Backend(String),
    /// The operation was cancelled.
    Cancelled,
    /// A value was rejected.
    InvalidValue(String),
    /// The plan asked for something that cannot be done.
    Plan(String),
    /// The operation took longer than the given span.
    Timeout(Span),
}

/// The human-readable text of an error.
pub open spec fn error_text(e: CirrusError) -> Seq<char> {
    match e {
        CirrusError::Backend(s) => s@,
        CirrusError::Cancelled => "cancelled"@,
        CirrusError::InvalidValue(s) => s@,
        CirrusError::Plan(s) => s@,
        CirrusError::Timeout(_) => "timed out"@,
    }
}

/// Whether `e` is a plan error with the given message.
pub open spec fn is_plan_error(e: CirrusError, message: Seq<char>) -> bool {
    e matches CirrusError::Plan(s) && s@ == message
}

impl CirrusError {
    /// The human-readable text of the error.
    pub fn describe(&self) -> (text: String)
        ensures
            text@ == error_text(*self),
    {
        match self {
            CirrusError::Backend(s) => s.clone(),
            CirrusError::Cancelled => "cancelled".to_owned(),
            CirrusError::InvalidValue(s) => s.clone(),
            CirrusError::Plan(s) => s.clone(),
            CirrusError::Timeout(_) => "timed out".to_owned(),
        }
    }

    /// A plan error with the given message.
    pub fn plan(message: &str) -> (e: CirrusError)
        ensures
            is_plan_error(e, message@),
    {
        CirrusError::Plan(message.to_owned())
    }
}

/// An error that carries a message is described by that message, whatever its kind, and a plan
/// error carries the message that it was made with.
pub proof fn law_error_tells_its_message(e: CirrusError, text: String, message: &str, p: CirrusError)
    requires
        call_ensures(CirrusError::describe, (&e,), text),
        call_ensures(CirrusError::plan, (message,), p),
    ensures
        match e {
            CirrusError::Backend(s) | CirrusError::InvalidValue(s) | CirrusError::Plan(s) => text@
                == s@,
            _ => text@.len() > 0,
        },
        p matches CirrusError::Plan(s) && s@ == message@,
{
    reveal_strlit("cancelled");
    reveal_strlit("timed out");
}

} // verus!
