//! A JSON document as a tree of plain values, with verified navigation.
//!
//! The backends' responses are JSON; serde_json does the parsing, behind one
//! trusted wrapper whose result is converted, variant by variant, into the
//! crate's own [`JsonValue`] tree. Everything the engine then reads out of a
//! document — an array element, an object field, a string or an integer —
//! is verified navigation over that tree.

use vstd::prelude::*;

verus! {

/// A parsed JSON document reduced to what the engine reads: strings,
/// unsigned integers, arrays and objects. Anything else (null, booleans,
/// fractional or negative numbers) is kept only as [`JsonValue::Other`].
#[derive(Debug, PartialEq, Eq)]
pub enum JsonValue {
    Str(String),
    Num(u64),
    Arr(Vec<JsonValue>),
    Obj(Vec<(String, JsonValue)>),
    Other,
}

/// The first value bound to `key`, scanning the object's fields in order.
pub open spec fn spec_lookup(fields: Seq<(String, JsonValue)>, key: Seq<char>) -> Option<JsonValue>
    decreases fields.len(),
{
    if fields.len() == 0 {
        None
    } else if fields[0].0@ == key {
        Some(fields[0].1)
    } else {
        spec_lookup(fields.drop_first(), key)
    }
}

impl JsonValue {
    /// Element `i` of an array, if this is an array that long.
    pub open spec fn spec_at(self, i: int) -> Option<JsonValue> {
        match self {
            JsonValue::Arr(v) => if 0 <= i < v@.len() {
                Some(v@[i])
            } else {
                None
            },
            _ => None,
        }
    }

    /// The value of field `key`, if this is an object that has it.
    pub open spec fn spec_field(self, key: Seq<char>) -> Option<JsonValue> {
        match self {
            JsonValue::Obj(fields) => spec_lookup(fields@, key),
            _ => None,
        }
    }

    /// The text, if this is a string.
    pub open spec fn spec_str(self) -> Option<Seq<char>> {
        match self {
            JsonValue::Str(s) => Some(s@),
            _ => None,
        }
    }

    /// The integer, if this is one.
    pub open spec fn spec_u64(self) -> Option<u64> {
        match self {
            JsonValue::Num(n) => Some(n),
            _ => None,
        }
    }

    pub fn at(&self, i: usize) -> (r: Option<&JsonValue>)
        ensures
            match r {
                Some(v) => self.spec_at(i as int) == Some(*v),
                None => self.spec_at(i as int) is None,
            },
    {
        match self {
            JsonValue::Arr(v) => if i < v.len() {
                Some(&v[i])
            } else {
                None
            },
            _ => None,
        }
    }

    pub fn field(&self, key: &str) -> (r: Option<&JsonValue>)
        ensures
            match r {
                Some(v) => self.spec_field(key@) == Some(*v),
                None => self.spec_field(key@) is None,
            },
    {
        match self {
            JsonValue::Obj(fields) => {
                let n = fields.len();
                proof {
                    assert(fields@.skip(0) =~= fields@);
                }
                for j in 0..n
                    invariant
                        n == fields@.len(),
                        self.spec_field(key@) == spec_lookup(fields@.skip(j as int), key@),
                {
                    proof {
                        assert(fields@.skip(j as int)[0] == fields@[j as int]);
                        assert(fields@.skip(j as int).drop_first() =~= fields@.skip(j as int + 1));
                    }
                    let pair = &fields[j];
                    if str_eq(pair.0.as_str(), key) {
                        proof {
                            assert(spec_lookup(fields@.skip(j as int), key@) == Some(
                                fields@[j as int].1,
                            ));
                            assert(spec_lookup(fields@.skip(j as int), key@) == Some(pair.1));
                        }
                        return Some(&pair.1);
                    }
                }
                None
            },
            _ => None,
        }
    }

    pub fn as_text(&self) -> (r: Option<String>)
        ensures
            match r {
                Some(s) => self.spec_str() == Some(s@),
                None => self.spec_str() is None,
            },
    {
        match self {
            JsonValue::Str(s) => Some(s.clone()),
            _ => None,
        }
    }

    pub fn as_u64(&self) -> (r: Option<u64>)
        ensures
            match r {
                Some(n) => self.spec_u64() == Some(n),
                None => self.spec_u64() is None,
            },
    {
        match self {
            JsonValue::Num(n) => Some(*n),
            _ => None,
        }
    }
}

/// Character-for-character string comparison.
pub fn str_eq(a: &str, b: &str) -> (r: bool)
    ensures
        r == (a@ == b@),
{
    let an = a.unicode_len();
    let bn = b.unicode_len();
    if an != bn {
        return false;
    }
    for i in 0..an
        invariant
            an == a@.len(),
            an == b@.len(),
            forall|k: int| 0 <= k < i ==> a@[k] == b@[k],
    {
        if a.get_char(i) != b.get_char(i) {
            return false;
        }
    }
    proof {
        assert(a@ =~= b@);
    }
    true
}

#[verifier::external_type_specification]
#[verifier::external_body]
pub struct ExValue(serde_json::Value);

/// What parsing a text as JSON yields: the document as a [`JsonValue`]
/// tree, or nothing if the text is not valid JSON.
pub uninterp spec fn json_tree_of(s: Seq<char>) -> Option<JsonValue>;

/// Relies on `serde_json::from_str::<serde_json::Value>`: parsing is a pure
/// function of the input text, and fails exactly on invalid JSON.
#[verifier::external_body]
pub(crate) fn parse_json(s: &str) -> (r: Option<JsonValue>)
    ensures
        r == json_tree_of(s@),
{
    match serde_json::from_str::<serde_json::Value>(s) {
        Ok(v) => Some(convert_tree(&v)),
        Err(_) => None,
    }
}

/// Relies on serde_json's `Value` variants and `Number::as_u64`: converts a
/// parsed document into the crate's own tree, one arm per variant, keeping
/// of numbers only their u64 reading.
#[verifier::external_body]
fn convert_tree(v: &serde_json::Value) -> JsonValue {
    match v {
        serde_json::Value::String(s) => JsonValue::Str(s.clone()),
        serde_json::Value::Array(a) => JsonValue::Arr(a.iter().map(convert_tree).collect()),
        serde_json::Value::Object(m) => JsonValue::Obj(
            m.iter().map(|(k, x)| (k.clone(), convert_tree(x))).collect(),
        ),
        serde_json::Value::Number(n) => match n.as_u64() {
            Some(u) => JsonValue::Num(u),
            None => JsonValue::Other,
        },
        _ => JsonValue::Other,
    }
}

} // verus!
