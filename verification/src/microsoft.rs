//! The authenticated backend and its credential cache.
//!
//! The credential is a three-part, dot-separated token whose middle part is
//! base64url (no padding) over a JSON object with a numeric `exp` claim
//! (epoch seconds). The cache treats a token as live only while `now + 10`
//! seconds stays strictly below `exp`; at or past that margin a refresh is
//! required. A freshly fetched credential replaces the cached one only if
//! its claims decode; otherwise the old credential stays in place and the
//! refresh fails hard.

use vstd::prelude::*;
use vstd::string::*;
use crate::CoreError;
use crate::codec::{b64url_decode, b64url_decoded, chars_to_string, utf8_decoded, utf8_to_string};
use crate::escape::{escape_chars, json_escaped};
use crate::json::{json_tree_of, parse_json, JsonValue};
use crate::translator::Translator;

verus! {

/// The safety margin, in seconds, taken off a credential's expiry when
/// judging cache validity.
pub const EXPIRY_MARGIN_SECS: u64 = 10;

/// The index of the first dot of a text, if it has one.
pub open spec fn first_dot(s: Seq<char>) -> Option<int>
    decreases s.len(),
{
    if s.len() == 0 {
        None
    } else if s[0] == '.' {
        Some(0)
    } else {
        match first_dot(s.drop_first()) {
            Some(i) => Some(i + 1),
            None => None,
        }
    }
}

/// `first_dot` finds exactly the least index holding a dot.
pub proof fn lemma_first_dot(s: Seq<char>)
    ensures
        match first_dot(s) {
            Some(i) => 0 <= i < s.len() && s[i] == '.' && forall|k: int|
                0 <= k < i ==> s[k] != '.',
            None => forall|k: int| 0 <= k < s.len() ==> s[k] != '.',
        },
    decreases s.len(),
{
    if s.len() > 0 && s[0] != '.' {
        let t = s.drop_first();
        lemma_first_dot(t);
        assert(forall|k: int| 0 <= k < t.len() ==> t[k] == s[k + 1]);
        match first_dot(t) {
            Some(i) => {
                assert forall|k: int| 0 <= k < i + 1 implies s[k] != '.' by {
                    if k > 0 {
                        assert(t[k - 1] != '.');
                    }
                }
            },
            None => {
                assert forall|k: int| 0 <= k < s.len() implies s[k] != '.' by {
                    if k > 0 {
                        assert(t[k - 1] != '.');
                    }
                }
            },
        }
    }
}

/// The middle part of a three-part dot-separated token: the text strictly
/// between the first and second dot, provided there is no third dot.
pub open spec fn jwt_payload(t: Seq<char>) -> Option<Seq<char>> {
    match first_dot(t) {
        None => None,
        Some(i) => match first_dot(t.skip(i + 1)) {
            None => None,
            Some(d) => if first_dot(t.skip(i + 1 + d + 1)) is None {
                Some(t.subrange(i + 1, i + 1 + d))
            } else {
                None
            },
        },
    }
}

/// The claims of a credential: the payload part, base64url-decoded, read as
/// UTF-8, parsed as JSON.
pub open spec fn jwt_claims(t: Seq<char>) -> Option<JsonValue> {
    match jwt_payload(t) {
        None => None,
        Some(p) => match b64url_decoded(p) {
            None => None,
            Some(bytes) => match utf8_decoded(bytes) {
                None => None,
                Some(text) => json_tree_of(text),
            },
        },
    }
}

/// The numeric `exp` claim of a credential, if its claims decode and carry
/// one.
pub open spec fn jwt_exp(t: Seq<char>) -> Option<u64> {
    match jwt_claims(t) {
        None => None,
        Some(j) => match j.spec_field("exp"@) {
            None => None,
            Some(v) => v.spec_u64(),
        },
    }
}

/// A credential is live at `now` iff its expiry claim decodes and
/// `now + 10 < exp`; at `now + 10 == exp` it is already stale.
pub open spec fn token_live(t: Seq<char>, now: u64) -> bool {
    match jwt_exp(t) {
        Some(e) => now + EXPIRY_MARGIN_SECS < e,
        None => false,
    }
}

/// What a well-formed translate response carries: the string at
/// `[0].translations[0].text`.
pub open spec fn ms_text_of(j: JsonValue) -> Option<Seq<char>> {
    match j.spec_at(0) {
        None => None,
        Some(a) => match a.spec_field("translations"@) {
            None => None,
            Some(b) => match b.spec_at(0) {
                None => None,
                Some(c) => match c.spec_field("text"@) {
                    None => None,
                    Some(d) => d.spec_str(),
                },
            },
        },
    }
}

/// The translated text carried by a response body: parse it as JSON, then
/// read `[0].translations[0].text`.
pub open spec fn ms_response_text(s: Seq<char>) -> Option<Seq<char>> {
    match json_tree_of(s) {
        None => None,
        Some(j) => ms_text_of(j),
    }
}

/// The POST body of a translate request: a one-element array holding an
/// object whose `Text` field is the query.
pub open spec fn ms_body_text(q: Seq<char>) -> Seq<char> {
    "[{\"Text\":\""@ + json_escaped(q) + "\"}]"@
}

/// The first dot of `s` at or after `from`.
fn find_dot(s: &str, from: usize) -> (r: Option<usize>)
    requires
        from <= s@.len(),
    ensures
        match r {
            Some(i) => from <= i < s@.len() && s@[i as int] == '.' && forall|k: int|
                from <= k < i ==> s@[k] != '.',
            None => forall|k: int| from <= k < s@.len() ==> s@[k] != '.',
        },
{
    let n = s.unicode_len();
    for i in from..n
        invariant
            n == s@.len(),
            from <= i <= n,
            forall|k: int| from <= k < i ==> s@[k] != '.',
    {
        if s.get_char(i) == '.' {
            return Some(i);
        }
    }
    None
}

pub struct MicrosoftTranslator {
    token: String,
}

impl View for MicrosoftTranslator {
    type V = Seq<char>;

    /// The cached credential's characters.
    closed spec fn view(&self) -> Seq<char> {
        self.token@
    }
}

impl MicrosoftTranslator {
    /// A fresh backend with an empty (hence stale) cached credential.
    pub fn new() -> (s: MicrosoftTranslator)
        ensures
            s@.len() == 0,
    {
        MicrosoftTranslator { token: String::new() }
    }

    /// Decode a credential's claims: split on dots, base64url-decode the
    /// middle part, parse it as JSON. Any failure is an authentication
    /// error.
    pub fn try_parse_jwt(token: &str) -> (r: Result<JsonValue, CoreError>)
        ensures
            match r {
                Ok(j) => jwt_claims(token@) == Some(j),
                Err(e) => jwt_claims(token@) is None && e == CoreError::Auth,
            },
    {
        let n = token.unicode_len();
        let i = match find_dot(token, 0) {
            None => {
                proof {
                    lemma_first_dot(token@);
                }
                return Err(CoreError::Auth);
            },
            Some(i) => i,
        };
        proof {
            lemma_first_dot(token@);
        }
        let j = match find_dot(token, i + 1) {
            None => {
                proof {
                    let u = token@.skip(i + 1);
                    assert(forall|k: int| 0 <= k < u.len() ==> u[k] == token@[k + i + 1]);
                    lemma_first_dot(u);
                }
                return Err(CoreError::Auth);
            },
            Some(j) => j,
        };
        proof {
            let u = token@.skip(i + 1);
            assert(forall|k: int| 0 <= k < u.len() ==> u[k] == token@[k + i + 1]);
            lemma_first_dot(u);
            let d = j - (i + 1);
            assert(u[d] == token@[j as int]);
            if first_dot(u) is None {
                assert(u[d] != '.');
                assert(false);
            } else {
                let ip = first_dot(u)->Some_0;
                if ip < d {
                    assert(u[ip] == token@[ip + i + 1]);
                    assert(token@[ip + i + 1] != '.');
                    assert(false);
                } else if ip > d {
                    assert(u[d] != '.');
                    assert(false);
                }
            }
            assert(first_dot(u) == Some(j - (i + 1)));
        }
        match find_dot(token, j + 1) {
            Some(k2) => {
                proof {
                    let w = token@.skip(j + 1);
                    assert(forall|k: int| 0 <= k < w.len() ==> w[k] == token@[k + j + 1]);
                    lemma_first_dot(w);
                    if first_dot(w) is None {
                        assert(w[k2 - (j + 1)] == token@[k2 as int]);
                        assert(false);
                    }
                }
                return Err(CoreError::Auth);
            },
            None => {},
        }
        proof {
            let w = token@.skip(j + 1);
            assert(forall|k: int| 0 <= k < w.len() ==> w[k] == token@[k + j + 1]);
            lemma_first_dot(w);
            assert(jwt_payload(token@) == Some(token@.subrange(i + 1, j as int)));
        }
        let payload = token.substring_char(i + 1, j);
        let bytes = match b64url_decode(payload) {
            None => {
                return Err(CoreError::Auth);
            },
            Some(b) => b,
        };
        let text = match utf8_to_string(bytes) {
            None => {
                return Err(CoreError::Auth);
            },
            Some(t) => t,
        };
        match parse_json(text.as_str()) {
            None => Err(CoreError::Auth),
            Some(claims) => Ok(claims),
        }
    }

    /// The expiry safety margin on plain values: a token expiring at `exp`
    /// is still usable at `now` iff `now + 10 < exp`.
    pub fn token_fresh(exp: u64, now: u64) -> (r: bool)
        ensures
            r == (now + EXPIRY_MARGIN_SECS < exp),
    {
        now <= u64::MAX - EXPIRY_MARGIN_SECS && now + EXPIRY_MARGIN_SECS < exp
    }

    /// The cached credential's expiry claim, if the credential is live at
    /// `now`: its claims decode, carry a numeric `exp`, and `now + 10 <
    /// exp`.
    pub fn cached_token(&self, now: u64) -> (r: Option<u64>)
        ensures
            match r {
                Some(e) => jwt_exp(self@) == Some(e) && token_live(self@, now),
                None => !token_live(self@, now),
            },
    {
        match Self::try_parse_jwt(self.token.as_str()) {
            Err(_) => None,
            Ok(claims) => match claims.field("exp") {
                None => None,
                Some(v) => match v.as_u64() {
                    None => None,
                    Some(e) => if Self::token_fresh(e, now) {
                        Some(e)
                    } else {
                        None
                    },
                },
            },
        }
    }

    /// Build the translate-request POST body for a query.
    pub fn request_body(query: &str) -> (r: String)
        ensures
            r@ == ms_body_text(query@),
    {
        let mut out: String = "[{\"Text\":\"".to_owned();
        let esc = escape_chars(query);
        let mid = chars_to_string(&esc);
        out.append(mid.as_str());
        out.append("\"}]");
        out
    }

    /// The cached credential, to be sent as subscription key and bearer.
    pub fn credential(&self) -> (r: &String)
        ensures
            r@ == self@,
    {
        &self.token
    }

    /// The string at `[0].translations[0].text` of a parsed response
    /// document.
    pub fn extract_translation(j: &JsonValue) -> (r: Option<String>)
        ensures
            match r {
                Some(t) => ms_text_of(*j) == Some(t@),
                None => ms_text_of(*j) is None,
            },
    {
        match j.at(0) {
            None => None,
            Some(a) => match a.field("translations") {
                None => None,
                Some(b) => match b.at(0) {
                    None => None,
                    Some(c) => match c.field("text") {
                        None => None,
                        Some(d) => d.as_text(),
                    },
                },
            },
        }
    }

    /// Parse a translate-endpoint response body; any missing level of the
    /// expected shape is a parse failure.
    pub fn parse_response_body(body: &str) -> (r: Result<String, CoreError>)
        ensures
            match r {
                Ok(t) => ms_response_text(body@) == Some(t@),
                Err(e) => ms_response_text(body@) is None && e == CoreError::Parse,
            },
    {
        match parse_json(body) {
            None => Err(CoreError::Parse),
            Some(j) => match Self::extract_translation(&j) {
                Some(t) => Ok(t),
                None => Err(CoreError::Parse),
            },
        }
    }
}

impl Translator for MicrosoftTranslator {
    /// Authentication is needed exactly when the cached credential is not
    /// live.
    open spec fn needs_auth_at(&self, now: u64) -> bool {
        !token_live(self@, now)
    }

    /// A fetched credential whose claims decode replaces the cache
    /// wholesale (concurrent refreshes are tolerated: the last writer
    /// wins); one whose claims do not decode is a hard failure that leaves
    /// the cache untouched.
    open spec fn auth_post(
        pre: Self,
        post: Self,
        fetched: Seq<char>,
        r: Result<(), CoreError>,
    ) -> bool {
        match r {
            Ok(_) => jwt_claims(fetched) is Some && post@ == fetched,
            Err(e) => jwt_claims(fetched) is None && post@ == pre@ && e == CoreError::Auth,
        }
    }

    open spec fn response_text_of(&self, body: Seq<char>) -> Option<Seq<char>> {
        ms_response_text(body)
    }

    fn auth_required(&self, now: u64) -> (r: bool) {
        match self.cached_token(now) {
            Some(_) => false,
            None => true,
        }
    }

    fn auth(&mut self, fetched: &str) -> (r: Result<(), CoreError>) {
        match Self::try_parse_jwt(fetched) {
            Ok(_) => {
                self.token = fetched.to_owned();
                Ok(())
            },
            Err(e) => Err(e),
        }
    }

    fn parse_response(&self, body: &str) -> (r: Result<String, CoreError>) {
        Self::parse_response_body(body)
    }
}

} // verus!
