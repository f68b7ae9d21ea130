//! Live-query translation aggregation core.
//!
//! As the user types, each keystroke yields a query that is fanned out to a
//! fixed, ordered pool of translation backends. Backend calls finish out of
//! order and may fail independently; the display must only ever show the
//! result of the most recently issued query. This crate holds the verified
//! logic of that engine: the staleness gate over the shared display state,
//! the per-backend credential cache with its expiry rule, the aggregation of
//! per-backend outcomes in registration order, and the parsing of the
//! backends' wire formats. The host process owns the actual network calls,
//! threads and locks, and hands this crate plain values.

use vstd::prelude::*;

pub mod aggregate;
pub mod codec;
pub mod display;
pub mod escape;
pub mod google;
pub mod json;
pub mod microsoft;
pub mod translator;

verus! {

/// The error taxonomy of the engine. Provider-level errors are captured per
/// provider and rendered as a failed list item; they never abort the
/// aggregate or the other providers.
#[derive(Clone, Copy, Debug, PartialEq, Eq, Structural)]
pub enum CoreError {
    /// Transport failure or unreachable endpoint.
    Network,
    /// Malformed or unexpected response shape.
    Parse,
    /// Credential refresh or decode failure.
    Auth,
    /// Failure to acquire a shared-state lock.
    Lock,
}

pub open spec fn core_error_text(e: CoreError) -> Seq<char> {
    match e {
        CoreError::Network => "network error"@,
        CoreError::Parse => "no translation found"@,
        CoreError::Auth => "authentication failed"@,
        CoreError::Lock => "lock poisoned"@,
    }
}

impl CoreError {
    /// The user-visible description of this error.
    pub fn message(&self) -> (r: String)
        ensures
            r@ == core_error_text(*self),
    {
        match self {
            CoreError::Network => "network error".to_owned(),
            CoreError::Parse => "no translation found".to_owned(),
            CoreError::Auth => "authentication failed".to_owned(),
            CoreError::Lock => "lock poisoned".to_owned(),
        }
    }
}

} // verus!
