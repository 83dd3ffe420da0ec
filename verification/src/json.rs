//! JSON documents

use serde_json::Value as JsonValue;
use vstd::prelude::*;

verus! {

/// `serde_json::Value`, a JSON value
#[verifier::external_type_specification]
#[verifier::external_body]
pub struct ExJsonValue(JsonValue);

/// `serde_json::Error`
#[verifier::external_type_specification]
#[verifier::external_body]
pub struct ExJsonError(serde_json::Error);

/// What a JSON value means
pub enum Json {
    /// `null`
    Null,
    /// `true` or `false`
    Bool(bool),
    /// A number; those that are not integers or do not fit have no value here
    Number(Option<i64>),
    /// A string
    Text(Seq<char>),
    /// An array
    List(Seq<Json>),
    /// An object, with its members in the order in which they are kept
    Object(Seq<(Seq<char>, Json)>),
}

/// What a JSON value holds
pub uninterp spec fn json_of(value: JsonValue) -> Json;

/// The JSON value that bytes stand for, if they do
pub uninterp spec fn document(data: Seq<u8>) -> Option<Json>;

/// The member of an object with the given name
pub open spec fn member_of(members: Seq<(Seq<char>, Json)>, key: Seq<char>) -> Option<Json>
    decreases members.len(),
{
    if members.len() == 0 {
        None
    } else if members[0].0 == key {
        Some(members[0].1)
    } else {
        member_of(members.skip(1), key)
    }
}

impl Json {
    /// The member with the given name, if the value is an object and has one
    pub open spec fn member(self, key: Seq<char>) -> Option<Json> {
        match self {
            Json::Object(members) => member_of(members, key),
            _ => None,
        }
    }

    /// The integer, if the value is one that fits
    pub open spec fn integer(self) -> Option<i64> {
        match self {
            Json::Number(n) => n,
            _ => None,
        }
    }
}

/// `serde_json::from_slice`: whether bytes are a JSON document, and which value they stand
/// for, depends on the bytes alone
#[verifier::external_body]
pub(crate) fn parse(data: &[u8]) -> (r: Result<JsonValue, serde_json::Error>)
    ensures
        r is Ok <==> document(data@) is Some,
        r matches Ok(value) ==> document(data@) == Some(json_of(value)),
{
    serde_json::from_slice(data)
}

/// `serde_json::Value::get` with a string: the member of an object with that name, and
/// nothing for other values
#[verifier::external_body]
pub(crate) fn get<'a>(value: &'a JsonValue, key: &str) -> (r: Option<&'a JsonValue>)
    ensures
        r is Some <==> json_of(*value).member(key@) is Some,
        r matches Some(v) ==> json_of(*value).member(key@) == Some(json_of(*v)),
{
    value.get(key)
}

/// `serde_json::Value::as_i64`: the number if it is an integer that fits, and nothing for
/// other values
#[verifier::external_body]
pub(crate) fn as_i64(value: &JsonValue) -> (r: Option<i64>)
    ensures
        r == json_of(*value).integer(),
{
    value.as_i64()
}

/// `serde_json::Value::as_object`: the members of an object in the order in which they are
/// kept, and nothing for other values; as an object is a map, no two members have the same name
#[verifier::external_body]
pub(crate) fn members(value: &JsonValue) -> (r: Option<Vec<(String, &JsonValue)>>)
    ensures
        match json_of(*value) {
            Json::Object(all) => {
                &&& r matches Some(list)
                &&& list@.len() == all.len()
                &&& forall|i: int|
                    0 <= i < all.len() ==> (#[trigger] list@[i]).0@ == all[i].0 && json_of(
                        *list@[i].1,
                    ) == all[i].1
                &&& forall|i: int, j: int|
                    0 <= i < j < list@.len() ==> (#[trigger] list@[i]).0@ != (
                    #[trigger] list@[j]).0@
            },
            _ => r is None,
        },
{
    value.as_object().map(|object| object.iter().map(|(k, v)| (k.clone(), v)).collect())
}

/// The strings of a JSON object whose members are all strings, by their names
pub uninterp spec fn string_map(data: Seq<u8>) -> Option<Map<Seq<char>, Seq<char>>>;

/// Pairs hold the entries of a map, each of them once
pub open spec fn lists_map(pairs: Seq<(String, String)>, map: Map<Seq<char>, Seq<char>>) -> bool {
    &&& forall|i: int|
        0 <= i < pairs.len() ==> map.contains_key((#[trigger] pairs[i]).0@) && map[pairs[i].0@]
            == pairs[i].1@
    &&& forall|k: Seq<char>| #[trigger]
        map.contains_key(k) ==> exists|i: int| 0 <= i < pairs.len() && (#[trigger] pairs[i]).0@ == k
    &&& forall|i: int, j: int|
        0 <= i < j < pairs.len() ==> (#[trigger] pairs[i]).0@ != (#[trigger] pairs[j]).0@
}

/// `serde_json::from_slice` into a map of strings: whether bytes are a JSON object of
/// strings, and which strings it has, depends on the bytes alone; the order in which the
/// strings come is open
#[verifier::external_body]
pub(crate) fn parse_string_map(data: &[u8]) -> (r: Option<Vec<(String, String)>>)
    ensures
        r is Some <==> string_map(data@) is Some,
        r matches Some(pairs) ==> lists_map(pairs@, string_map(data@)->0),
{
    let map = serde_json::from_slice::<std::collections::HashMap<String, String>>(data);
    map.ok().map(|m| m.into_iter().collect())
}

/// A member of an object is found by its name, the first one where there are several
pub proof fn member_found(members: Seq<(Seq<char>, Json)>, key: Seq<char>, i: int)
    requires
        forall|j: int| 0 <= j < i && j < members.len() ==> (#[trigger] members[j]).0 != key,
    ensures
        0 <= i < members.len() && members[i].0 == key ==> Json::Object(members).member(key) == Some(
            members[i].1,
        ),
        i >= members.len() ==> Json::Object(members).member(key) is None,
    decreases members.len(),
{
    if members.len() > 0 && i > 0 {
        assert(members[0].0 != key);
        let rest = members.skip(1);
        assert forall|j: int| 0 <= j < i - 1 && j < rest.len() implies (#[trigger] rest[j]).0
            != key by {
            assert(members[j + 1].0 != key);
        }
        member_found(rest, key, i - 1);
        if i < members.len() {
            assert(rest[i - 1] == members[i]);
        }
    }
}

/// Only integers count as numbers, and only objects have members
pub proof fn kinds_told_apart(n: i64, text: Seq<char>, list: Seq<Json>, b: bool, key: Seq<char>)
    ensures
        Json::Number(Some(n)).integer() == Some(n),
        Json::Number(None).integer() is None,
        Json::Text(text).integer() is None,
        Json::Bool(b).integer() is None,
        Json::Null.integer() is None,
        Json::List(list).integer() is None,
        Json::Text(text).member(key) is None,
        Json::List(list).member(key) is None,
        Json::Number(Some(n)).member(key) is None,
{
}

} // verus!
