//! The unauthenticated backend.
//!
//! Its translate endpoint answers with a nested JSON array; the translated
//! text is the string at array path `[0][0][0]`. Absence at any level is a
//! parse failure.

use vstd::prelude::*;
use crate::CoreError;
use crate::json::{json_tree_of, parse_json, JsonValue};
use crate::translator::Translator;

verus! {

/// What a well-formed response document carries: the string at `[0][0][0]`.
pub open spec fn google_text_of(j: JsonValue) -> Option<Seq<char>> {
    match j.spec_at(0) {
        None => None,
        Some(a) => match a.spec_at(0) {
            None => None,
            Some(b) => match b.spec_at(0) {
                None => None,
                Some(c) => c.spec_str(),
            },
        },
    }
}

/// The translated text carried by a response body: parse it as JSON, then
/// read `[0][0][0]` as a string.
pub open spec fn google_response_text(s: Seq<char>) -> Option<Seq<char>> {
    match json_tree_of(s) {
        None => None,
        Some(j) => google_text_of(j),
    }
}

pub struct GoogleTranslator;

impl GoogleTranslator {
    /// The string at array path `[0][0][0]` of a parsed response document.
    pub fn extract_translation(j: &JsonValue) -> (r: Option<String>)
        ensures
            match r {
                Some(t) => google_text_of(*j) == Some(t@),
                None => google_text_of(*j) is None,
            },
    {
        match j.at(0) {
            None => None,
            Some(a) => match a.at(0) {
                None => None,
                Some(b) => match b.at(0) {
                    None => None,
                    Some(c) => c.as_text(),
                },
            },
        }
    }

    /// Parse a translate-endpoint response body; any missing level of the
    /// expected shape is a parse failure.
    pub fn parse_response_body(body: &str) -> (r: Result<String, CoreError>)
        ensures
            match r {
                Ok(t) => google_response_text(body@) == Some(t@),
                Err(e) => google_response_text(body@) is None && e == CoreError::Parse,
            },
    {
        match parse_json(body) {
            None => Err(CoreError::Parse),
            Some(j) => match Self::extract_translation(&j) {
                Some(t) => Ok(t),
                None => Err(CoreError::Parse),
            },
        }
    }
}

impl Translator for GoogleTranslator {
    /// This backend never needs authentication.
    open spec fn needs_auth_at(&self, now: u64) -> bool {
        false
    }

    /// Accepting a credential is a no-op that always succeeds and changes
    /// nothing.
    open spec fn auth_post(
        pre: Self,
        post: Self,
        fetched: Seq<char>,
        r: Result<(), CoreError>,
    ) -> bool {
        r is Ok
    }

    open spec fn response_text_of(&self, body: Seq<char>) -> Option<Seq<char>> {
        google_response_text(body)
    }

    fn auth_required(&self, now: u64) -> (r: bool) {
        false
    }

    fn auth(&mut self, fetched: &str) -> (r: Result<(), CoreError>) {
        Ok(())
    }

    fn parse_response(&self, body: &str) -> (r: Result<String, CoreError>) {
        Self::parse_response_body(body)
    }
}

} // verus!
