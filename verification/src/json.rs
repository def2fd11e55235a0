//! JSON documents as `serde_json` reads them, held as plain values, and the
//! lookups the providers make in them.
use crate::providers::streaming_community::text_of;
use vstd::prelude::*;

verus! {

#[verifier::external_type_specification]
#[verifier::external_body]
pub struct ExJsonValue(serde_json::Value);

/// A JSON value. A number is kept as the unsigned and the signed 64-bit
/// integer it is, when it is one (what `as_u64` and `as_i64` give); an
/// object keeps its members once each.
#[derive(Debug)]
pub enum Json {
    Null,
    Bool(bool),
    Number(Option<u64>, Option<i64>),
    Text(String),
    Array(Vec<Json>),
    Object(Vec<(String, Json)>),
}

/// The values a JSON value holds.
pub enum JsonV {
    Null,
    Bool(bool),
    Number(Option<u64>, Option<i64>),
    Text(Seq<char>),
    Array(Seq<JsonV>),
    Object(Seq<(Seq<char>, JsonV)>),
}

/// The values of a JSON value.
pub open spec fn json_view(j: Json) -> JsonV
    decreases j, 0nat,
{
    match j {
        Json::Null => JsonV::Null,
        Json::Bool(b) => JsonV::Bool(b),
        Json::Number(n, i) => JsonV::Number(n, i),
        Json::Text(s) => JsonV::Text(s@),
        Json::Array(v) => JsonV::Array(json_seq_view(v@)),
        Json::Object(m) => JsonV::Object(json_members_view(m@)),
    }
}

/// The values of a list of JSON values.
pub open spec fn json_seq_view(s: Seq<Json>) -> Seq<JsonV>
    decreases s, 1nat,
{
    if s.len() == 0 {
        Seq::empty()
    } else {
        json_seq_view(s.subrange(0, s.len() - 1)).push(json_view(s[s.len() - 1]))
    }
}

/// The values of the members of a JSON object.
pub open spec fn json_members_view(m: Seq<(String, Json)>) -> Seq<(Seq<char>, JsonV)>
    decreases m, 1nat,
{
    if m.len() == 0 {
        Seq::empty()
    } else {
        json_members_view(m.subrange(0, m.len() - 1)).push((m[m.len() - 1].0@, json_view(m[m.len() - 1].1)))
    }
}

impl View for Json {
    type V = JsonV;

    open spec fn view(&self) -> JsonV {
        json_view(*self)
    }
}

pub proof fn lemma_json_seq_view(s: Seq<Json>)
    ensures
        json_seq_view(s).len() == s.len(),
        forall|i: int| 0 <= i < s.len() ==> json_seq_view(s)[i] == json_view(#[trigger] s[i]),
    decreases s.len(),
{
    if s.len() > 0 {
        let t = s.subrange(0, s.len() - 1);
        lemma_json_seq_view(t);
        assert forall|i: int| 0 <= i < s.len() implies json_seq_view(s)[i] == json_view(#[trigger] s[i]) by {
            if i < s.len() - 1 {
                assert(t[i] == s[i]);
            }
        }
    }
}

pub proof fn lemma_json_members_view(m: Seq<(String, Json)>)
    ensures
        json_members_view(m).len() == m.len(),
        forall|i: int| 0 <= i < m.len() ==> json_members_view(m)[i] == (m[i].0@, json_view(#[trigger] m[i].1)),
    decreases m.len(),
{
    if m.len() > 0 {
        let t = m.subrange(0, m.len() - 1);
        lemma_json_members_view(t);
        assert forall|i: int| 0 <= i < m.len() implies json_members_view(m)[i] == (m[i].0@, json_view(#[trigger] m[i].1)) by {
            if i < m.len() - 1 {
                assert(t[i] == m[i]);
            }
        }
    }
}

/// What `serde_json` reads from a JSON text: the value, or the message of
/// its error when the text is not JSON.
pub uninterp spec fn json_of(text: Seq<char>) -> Result<JsonV, Seq<char>>;

/// A `serde_json::Value` converted variant by variant.
#[verifier::external_body]
fn json_from_value(v: serde_json::Value) -> (r: Json) {
    match v {
        serde_json::Value::Null => Json::Null,
        serde_json::Value::Bool(b) => Json::Bool(b),
        serde_json::Value::Number(n) => Json::Number(n.as_u64(), n.as_i64()),
        serde_json::Value::String(s) => Json::Text(s),
        serde_json::Value::Array(a) => Json::Array(a.into_iter().map(json_from_value).collect()),
        serde_json::Value::Object(o) => Json::Object(o.into_iter().map(|(k, x)| (k, json_from_value(x))).collect()),
    }
}

/// `serde_json::from_str` into a `serde_json::Value`, converted; the
/// error's message when the text is not JSON.
#[verifier::external_body]
pub(crate) fn parse_json(text: &str) -> (r: Result<Json, String>)
    ensures
        match r {
            Ok(j) => json_of(text@) == Ok::<JsonV, Seq<char>>(j@),
            Err(e) => json_of(text@) == Err::<JsonV, Seq<char>>(e@),
        },
{
    match serde_json::from_str::<serde_json::Value>(text) {
        Ok(v) => Ok(json_from_value(v)),
        Err(e) => Err(e.to_string()),
    }
}

/// The value of the first member with the key.
pub open spec fn first_member(ms: Seq<(Seq<char>, JsonV)>, key: Seq<char>) -> Option<JsonV>
    decreases ms.len(),
{
    if ms.len() == 0 {
        None
    } else if ms[0].0 == key {
        Some(ms[0].1)
    } else {
        first_member(ms.drop_first(), key)
    }
}

/// A member of an object (`value[key]` when it is not null for lack of
/// one): nothing when the value is not an object or lacks the key.
pub open spec fn field(o: Option<JsonV>, key: Seq<char>) -> Option<JsonV> {
    match o {
        Some(JsonV::Object(ms)) => first_member(ms, key),
        _ => None,
    }
}

/// The text a value holds, when it is a string.
pub open spec fn text_at(o: Option<JsonV>) -> Option<Seq<char>> {
    match o {
        Some(JsonV::Text(s)) => Some(s),
        _ => None,
    }
}

/// The unsigned integer a value holds, when it is one.
pub open spec fn u64_at(o: Option<JsonV>) -> Option<u64> {
    match o {
        Some(JsonV::Number(n, _)) => n,
        _ => None,
    }
}

/// The signed integer a value holds, when it is one.
pub open spec fn i64_at(o: Option<JsonV>) -> Option<i64> {
    match o {
        Some(JsonV::Number(_, i)) => i,
        _ => None,
    }
}

/// Whether a value is absent or null.
pub open spec fn is_null_at(o: Option<JsonV>) -> bool {
    match o {
        Some(JsonV::Null) => true,
        None => true,
        _ => false,
    }
}

/// The items a value holds, when it is an array.
pub open spec fn array_at(o: Option<JsonV>) -> Option<Seq<JsonV>> {
    match o {
        Some(JsonV::Array(s)) => Some(s),
        _ => None,
    }
}

/// The items a value holds: none when it is not an array.
pub open spec fn items_at(o: Option<JsonV>) -> Seq<JsonV> {
    match array_at(o) {
        Some(s) => s,
        None => Seq::empty(),
    }
}

/// The values an optional reference holds.
pub open spec fn opt_view(o: Option<&Json>) -> Option<JsonV> {
    match o {
        Some(j) => Some(j@),
        None => None,
    }
}

/// A member of an object, by its key.
pub fn member<'a>(o: Option<&'a Json>, key: &str) -> (r: Option<&'a Json>)
    ensures
        opt_view(r) == field(opt_view(o), key@),
{
    let ms = match o {
        Some(Json::Object(ms)) => ms,
        _ => return None,
    };
    let ghost mv = json_members_view(ms@);
    assert(opt_view(o) == Some(JsonV::Object(mv)));
    proof {
        lemma_json_members_view(ms@);
    }
    assert(mv.skip(0) =~= mv);
    let k = key.to_string();
    let mut i: usize = 0;
    while i < ms.len()
        invariant
            i <= ms@.len(),
            mv == json_members_view(ms@),
            mv.len() == ms@.len(),
            forall|k: int| 0 <= k < ms@.len() ==> mv[k] == (ms@[k].0@, json_view(#[trigger] ms@[k].1)),
            first_member(mv, key@) == first_member(mv.skip(i as int), key@),
            k@ == key@,
            opt_view(o) == Some(JsonV::Object(mv)),
        decreases ms@.len() - i,
    {
        assert(mv.skip(i as int)[0] == mv[i as int]);
        if ms[i].0 == k {
            assert(mv[i as int] == (ms@[i as int].0@, json_view(ms@[i as int].1)));
            assert(ms@[i as int].0@ == k@);
            assert(mv[i as int].0 == key@);
            assert(first_member(mv.skip(i as int), key@) == Some(mv[i as int].1));
            return Some(&ms[i].1);
        }
        assert(mv.skip(i as int).drop_first() =~= mv.skip(i + 1));
        i = i + 1;
    }
    None
}

/// The text of a value, when it is a string.
pub fn text_in(o: Option<&Json>) -> (r: Option<String>)
    ensures
        text_of(r) == text_at(opt_view(o)),
{
    match o {
        Some(Json::Text(s)) => Some(s.clone()),
        _ => None,
    }
}

/// The unsigned integer of a value, when it is one.
pub fn u64_in(o: Option<&Json>) -> (r: Option<u64>)
    ensures
        r == u64_at(opt_view(o)),
{
    match o {
        Some(Json::Number(n, _)) => *n,
        _ => None,
    }
}

/// The signed integer of a value, when it is one.
pub fn i64_in(o: Option<&Json>) -> (r: Option<i64>)
    ensures
        r == i64_at(opt_view(o)),
{
    match o {
        Some(Json::Number(_, i)) => *i,
        _ => None,
    }
}

/// Whether a value is absent or null.
pub fn is_null_in(o: Option<&Json>) -> (r: bool)
    ensures
        r == is_null_at(opt_view(o)),
{
    match o {
        Some(Json::Null) => true,
        None => true,
        _ => false,
    }
}

/// The items of a value, when it is an array.
pub fn array_in<'a>(o: Option<&'a Json>) -> (r: Option<&'a Vec<Json>>)
    ensures
        match r {
            Some(v) => array_at(opt_view(o)) == Some(json_seq_view(v@)),
            None => array_at(opt_view(o)) is None,
        },
{
    match o {
        Some(Json::Array(v)) => Some(v),
        _ => None,
    }
}

/// A reply read as JSON; a reply that is not JSON fails as an undecodable
/// response body.
pub fn reply_json(text: &str) -> (r: Result<Json, crate::providers::ProviderError>)
    ensures
        match json_of(text@) {
            Ok(p) => r matches Ok(j) && j@ == p,
            Err(_) => r matches Err(crate::providers::ProviderError::Network(m)) && m@ == "error decoding response body"@,
        },
{
    match parse_json(text) {
        Ok(j) => Ok(j),
        Err(_) => Err(crate::providers::ProviderError::Network("error decoding response body".to_string())),
    }
}

} // verus!
