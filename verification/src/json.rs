//! Reading JSON documents: the members of an object, the elements of an
//! array, the text of a string, each as plain values.
use vstd::prelude::*;
use crate::text::str_eq;

verus! {

/// What `serde_json` reads from a document: an object's members, each value
/// as compact JSON text (`Some`); `None` for a well-formed document that is
/// not an object; the parser's message for a malformed one.
pub uninterp spec fn json_members(text: Seq<char>) -> Result<Option<Seq<(Seq<char>, Seq<char>)>>, Seq<char>>;

/// What `serde_json` reads from a document as an array: its elements, each as
/// compact JSON text, or the parser's message.
pub uninterp spec fn json_elements(text: Seq<char>) -> Result<Seq<Seq<char>>, Seq<char>>;

/// What `serde_json` reads from a document as a string: its unescaped text,
/// or `None`.
pub uninterp spec fn json_text(text: Seq<char>) -> Option<Seq<char>>;

/// What `serde_json` reads from a document as a `u64`, or `None`.
pub uninterp spec fn json_unsigned(text: Seq<char>) -> Option<u64>;

pub open spec fn pair_views(v: Seq<(String, String)>) -> Seq<(Seq<char>, Seq<char>)> {
    Seq::new(v.len(), |i: int| (v[i].0@, v[i].1@))
}

pub open spec fn members_view(r: Result<Option<Vec<(String, String)>>, String>) -> Result<Option<Seq<(Seq<char>, Seq<char>)>>, Seq<char>> {
    match r {
        Ok(Some(ms)) => Ok(Some(pair_views(ms@))),
        Ok(None) => Ok(None),
        Err(e) => Err(e@),
    }
}

pub open spec fn elements_view(r: Result<Vec<String>, String>) -> Result<Seq<Seq<char>>, Seq<char>> {
    match r {
        Ok(es) => Ok(Seq::new(es@.len(), |i: int| es@[i]@)),
        Err(e) => Err(e@),
    }
}

/// `serde_json::from_str::<serde_json::Value>`: an object's members with each
/// value written back by `Value::to_string`, `None` for any other value, the
/// error's text when the parse fails.  Claimed: the result is
/// `json_members(text)`; nothing is claimed of what that is.
#[verifier::external_body]
pub(crate) fn object_members(text: &str) -> (r: Result<Option<Vec<(String, String)>>, String>)
    ensures
        members_view(r) == json_members(text@),
{
    match serde_json::from_str::<serde_json::Value>(text) {
        Err(e) => Err(e.to_string()),
        Ok(serde_json::Value::Object(m)) => Ok(Some(m.into_iter().map(|(k, v)| (k, v.to_string())).collect())),
        Ok(_) => Ok(None),
    }
}

/// `serde_json::from_str::<Vec<serde_json::Value>>`: the elements, each
/// written back by `Value::to_string`, or the error's text.  Claimed: the
/// result is `json_elements(text)`.
#[verifier::external_body]
pub(crate) fn array_elements(text: &str) -> (r: Result<Vec<String>, String>)
    ensures
        elements_view(r) == json_elements(text@),
{
    match serde_json::from_str::<Vec<serde_json::Value>>(text) {
        Ok(vs) => Ok(vs.into_iter().map(|v| v.to_string()).collect()),
        Err(e) => Err(e.to_string()),
    }
}

/// `serde_json::from_str::<String>`: the string a document holds.  Claimed:
/// the result is `json_text(text)`.
#[verifier::external_body]
pub(crate) fn string_value(text: &str) -> (r: Option<String>)
    ensures
        r.deep_view() == json_text(text@),
{
    serde_json::from_str::<String>(text).ok()
}

/// `serde_json::from_str::<u64>`: the unsigned integer a document holds.
/// Claimed: the result is `json_unsigned(text)`.
#[verifier::external_body]
pub(crate) fn unsigned_value(text: &str) -> (r: Option<u64>)
    ensures
        r == json_unsigned(text@),
{
    serde_json::from_str::<u64>(text).ok()
}

/// The value of the first member named `key`.
pub open spec fn member_value(ms: Seq<(Seq<char>, Seq<char>)>, key: Seq<char>) -> Option<Seq<char>>
    decreases ms.len(),
{
    if ms.len() == 0 {
        None
    } else if ms[0].0 == key {
        Some(ms[0].1)
    } else {
        member_value(ms.drop_first(), key)
    }
}

/// The value of the first member named `key` (see [`member_value`]).
pub fn member(ms: &Vec<(String, String)>, key: &str) -> (r: Option<String>)
    ensures
        r.deep_view() == member_value(pair_views(ms@), key@),
{
    let ghost all = pair_views(ms@);
    let mut i: usize = 0;
    assert(all.skip(0) =~= all);
    while i < ms.len()
        invariant
            i <= ms@.len(),
            all == pair_views(ms@),
            member_value(all, key@) == member_value(all.skip(i as int), key@),
        decreases ms.len() - i,
    {
        assert(all.skip(i as int)[0] == all[i as int]);
        if str_eq(ms[i].0.as_str(), key) {
            return Some(ms[i].1.clone());
        }
        assert(all.skip(i as int).drop_first() =~= all.skip(i + 1));
        i += 1;
    }
    assert(all.skip(i as int).len() == 0);
    None
}

/// The string held by member `key` of an object document, if any.
pub open spec fn string_member(text: Seq<char>, key: Seq<char>) -> Option<Seq<char>> {
    match json_members(text) {
        Ok(Some(ms)) => match member_value(ms, key) {
            Some(v) => json_text(v),
            None => None,
        },
        _ => None,
    }
}

/// The string held by member `key` of an object document (see [`string_member`]).
pub fn string_member_of(text: &str, key: &str) -> (r: Option<String>)
    ensures
        r.deep_view() == string_member(text@, key@),
{
    match object_members(text) {
        Ok(Some(ms)) => match member(&ms, key) {
            Some(v) => string_value(v.as_str()),
            None => None,
        },
        _ => None,
    }
}

/// The value of member `key` of an object document, as JSON text, if any.
pub open spec fn member_of_document(text: Seq<char>, key: Seq<char>) -> Option<Seq<char>> {
    match json_members(text) {
        Ok(Some(ms)) => member_value(ms, key),
        _ => None,
    }
}

/// The value of member `key` of an object document (see [`member_of_document`]).
pub fn member_of(text: &str, key: &str) -> (r: Option<String>)
    ensures
        r.deep_view() == member_of_document(text@, key@),
{
    match object_members(text) {
        Ok(Some(ms)) => member(&ms, key),
        _ => None,
    }
}

} // verus!
