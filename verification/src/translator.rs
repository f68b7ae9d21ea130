//! The capability every translation backend offers.
//!
//! The host owns the network: it asks a backend whether authentication is
//! needed, fetches a fresh credential when it is, and hands each wire
//! response back for parsing. Each backend pins these steps down with spec
//! functions of its own, so every implementation is verified against its
//! stated behaviour.

use vstd::prelude::*;
use crate::CoreError;

verus! {

pub trait Translator: Sized {
    /// Whether the backend needs a credential refresh at time `now`
    /// (seconds since the epoch).
    spec fn needs_auth_at(&self, now: u64) -> bool;

    /// How accepting a freshly fetched credential relates the old state,
    /// the new state and the outcome.
    spec fn auth_post(pre: Self, post: Self, fetched: Seq<char>, r: Result<(), CoreError>) -> bool;

    /// What the backend's translate endpoint answer means: the translated
    /// text carried by a response body, if the body is well-formed.
    spec fn response_text_of(&self, body: Seq<char>) -> Option<Seq<char>>;

    fn auth_required(&self, now: u64) -> (r: bool)
        ensures
            r == self.needs_auth_at(now),
    ;

    /// Offer the backend a freshly fetched credential.
    fn auth(&mut self, fetched: &str) -> (r: Result<(), CoreError>)
        ensures
            Self::auth_post(*old(self), *final(self), fetched@, r),
    ;

    /// Read the translated text out of a translate-endpoint response body.
    fn parse_response(&self, body: &str) -> (r: Result<String, CoreError>)
        ensures
            match r {
                Ok(t) => self.response_text_of(body@) == Some(t@),
                Err(e) => self.response_text_of(body@) is None && e == CoreError::Parse,
            },
    ;
}

} // verus!
