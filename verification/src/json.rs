//! A plain model of JSON documents, as the gateway reads them from upstream
//! payloads, and the lookups the routing and stream-parsing logic performs.
//!
//! Text is parsed by `serde_json`; the parsed tree is copied into [`Json`],
//! which holds only what the logic reads: a number is kept as the `u64` it
//! denotes when it is a non-negative integer that fits (what
//! `serde_json::Number::as_u64` gives), and nothing otherwise.

use vstd::prelude::*;

verus! {

/// `serde_json::Value`, carried through the parsing wrapper only.
#[verifier::external_type_specification]
#[verifier::external_body]
pub struct ExJsonValue(serde_json::Value);

/// A JSON value.
#[derive(Debug)]
pub enum Json {
    Null,
    Bool(bool),
    /// A number; `Some(n)` when it is a non-negative integer `n` fitting `u64`.
    Number(Option<u64>),
    Str(String),
    Array(Vec<Json>),
    /// Members in the order the parser yields them.
    Object(Vec<(String, Json)>),
}

/// Value of the first member of `entries` whose key is `key`.
pub open spec fn member(entries: Seq<(String, Json)>, key: Seq<char>) -> Option<Json>
    decreases entries.len(),
{
    if entries.len() == 0 {
        None
    } else if entries[0].0@ == key {
        Some(entries[0].1)
    } else {
        member(entries.drop_first(), key)
    }
}

/// `j[key]` when `j` is an object holding `key` (serde's `Value::get`).
pub open spec fn field(j: Json, key: Seq<char>) -> Option<Json> {
    match j {
        Json::Object(entries) => member(entries@, key),
        _ => None,
    }
}

/// `field` on an optional value.
pub open spec fn opt_field(j: Option<Json>, key: Seq<char>) -> Option<Json> {
    match j {
        Some(v) => field(v, key),
        None => None,
    }
}

/// The text of a string value.
pub open spec fn str_of(j: Option<Json>) -> Option<Seq<char>> {
    match j {
        Some(Json::Str(s)) => Some(s@),
        _ => None,
    }
}

/// The elements of an array value.
pub open spec fn array_of(j: Option<Json>) -> Option<Seq<Json>> {
    match j {
        Some(Json::Array(a)) => Some(a@),
        _ => None,
    }
}

/// The first element of an array value.
pub open spec fn first_of(j: Option<Json>) -> Option<Json> {
    match array_of(j) {
        Some(a) => if a.len() > 0 { Some(a[0]) } else { None },
        None => None,
    }
}

/// The `u64` a number value denotes, when it has one.
pub open spec fn u64_of(j: Option<Json>) -> Option<u64> {
    match j {
        Some(Json::Number(n)) => n,
        _ => None,
    }
}

/// Name for what `serde_json::from_str::<serde_json::Value>` yields for a
/// text, copied into [`Json`]; `None` when the text is not valid JSON.
pub uninterp spec fn parsed_json(text: Seq<char>) -> Option<Json>;

impl Json {
    /// Copies a parsed `serde_json::Value` into a [`Json`] tree, one node for
    /// one node (used only by [`parse_json`]).
    #[verifier::external_body]
    fn from_serde(v: &serde_json::Value) -> Json {
        match v {
            serde_json::Value::Null => Json::Null,
            serde_json::Value::Bool(b) => Json::Bool(*b),
            serde_json::Value::Number(n) => Json::Number(n.as_u64()),
            serde_json::Value::String(s) => Json::Str(s.clone()),
            serde_json::Value::Array(a) => Json::Array(a.iter().map(Json::from_serde).collect()),
            serde_json::Value::Object(m) => Json::Object(
                m.iter().map(|(k, x)| (k.clone(), Json::from_serde(x))).collect(),
            ),
        }
    }
}

/// `serde_json::from_str::<serde_json::Value>`: parses `text` as JSON.
/// The contract claims only that the result is the one named by
/// [`parsed_json`] for this text.
#[verifier::external_body]
pub(crate) fn parse_json(text: &str) -> (r: Option<Json>)
    ensures
        r == parsed_json(text@),
{
    match serde_json::from_str::<serde_json::Value>(text) {
        Ok(v) => Some(Json::from_serde(&v)),
        Err(_) => None,
    }
}

/// Do two strings hold the same characters?
pub fn same_text(a: &str, b: &str) -> (r: bool)
    ensures
        r == (a@ == b@),
{
    let x = crate::text::chars_of(a);
    let y = crate::text::chars_of(b);
    if x.len() != y.len() {
        return false;
    }
    let mut i: usize = 0;
    while i < x.len()
        invariant
            x@.len() == y@.len(),
            x@ == a@,
            y@ == b@,
            i <= x@.len(),
            forall|k: int| 0 <= k < i ==> x@[k] == y@[k],
        decreases x@.len() - i,
    {
        if x[i] != y[i] {
            assert(x@[i as int] != y@[i as int]);
            assert(a@ != b@);
            return false;
        }
        i = i + 1;
    }
    assert(x@ =~= y@);
    true
}

/// `j[key]`: the value of member `key` when `j` is an object holding it.
pub fn get<'a>(j: &'a Json, key: &str) -> (r: Option<&'a Json>)
    ensures
        match r {
            Some(v) => field(*j, key@) == Some(*v),
            None => field(*j, key@) is None,
        },
{
    match j {
        Json::Object(entries) => {
            assert(entries@.skip(0) =~= entries@);
            let mut i: usize = 0;
            while i < entries.len()
                invariant
                    i <= entries@.len(),
                    field(*j, key@) == member(entries@, key@),
                    member(entries@, key@) == member(entries@.skip(i as int), key@),
                decreases entries@.len() - i,
            {
                assert(entries@.skip(i as int).drop_first() =~= entries@.skip(i + 1));
                assert(entries@.skip(i as int)[0] == entries@[i as int]);
                if same_text(entries[i].0.as_str(), key) {
                    assert(member(entries@.skip(i as int), key@) == Some(entries@[i as int].1));
                    return Some(&entries[i].1);
                }
                i = i + 1;
            }
            None
        },
        _ => None,
    }
}

/// `get` on an optional value.
pub fn get_opt<'a>(j: Option<&'a Json>, key: &str) -> (r: Option<&'a Json>)
    ensures
        match r {
            Some(v) => opt_field(opt_val(j), key@) == Some(*v),
            None => opt_field(opt_val(j), key@) is None,
        },
{
    match j {
        Some(v) => get(v, key),
        None => None,
    }
}

/// The referenced value, if any.
pub open spec fn opt_val(j: Option<&Json>) -> Option<Json> {
    match j {
        Some(v) => Some(*v),
        None => None,
    }
}

/// The text of a string value.
pub fn as_str<'a>(j: Option<&'a Json>) -> (r: Option<&'a String>)
    ensures
        match r {
            Some(s) => str_of(opt_val(j)) == Some(s@),
            None => str_of(opt_val(j)) is None,
        },
{
    match j {
        Some(Json::Str(s)) => Some(s),
        _ => None,
    }
}

/// The elements of an array value.
pub fn as_array<'a>(j: Option<&'a Json>) -> (r: Option<&'a Vec<Json>>)
    ensures
        match r {
            Some(a) => array_of(opt_val(j)) == Some(a@),
            None => array_of(opt_val(j)) is None,
        },
{
    match j {
        Some(Json::Array(a)) => Some(a),
        _ => None,
    }
}

/// The first element of an array value.
pub fn first<'a>(j: Option<&'a Json>) -> (r: Option<&'a Json>)
    ensures
        match r {
            Some(v) => first_of(opt_val(j)) == Some(*v),
            None => first_of(opt_val(j)) is None,
        },
{
    match as_array(j) {
        Some(a) => if a.len() > 0 { Some(&a[0]) } else { None },
        None => None,
    }
}

/// The `u64` a number value denotes.
pub fn as_u64(j: Option<&Json>) -> (r: Option<u64>)
    ensures
        r == u64_of(opt_val(j)),
{
    match j {
        Some(Json::Number(n)) => *n,
        _ => None,
    }
}

} // verus!
