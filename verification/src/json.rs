use vstd::prelude::*;

use crate::models::RawJson;

verus! {

/// The view of an optional string.
pub open spec fn opt_view(o: Option<String>) -> Option<Seq<char>> {
    match o {
        Some(s) => Some(s@),
        None => None,
    }
}

/// What `serde_json` parses a text into, when that value is a JSON string: the string.
pub uninterp spec fn json_string_value(text: Seq<char>) -> Option<Seq<char>>;

/// What `serde_json` parses a text into, when that value is a JSON array: for each
/// element that is a JSON object, its members in map order, each with its value when that
/// value is a JSON string.
pub uninterp spec fn json_array_item_members(text: Seq<char>) -> Option<Seq<Option<Seq<(Seq<char>, Option<Seq<char>>)>>>>;

/// The `Debug` rendering of the optional `serde_json::Value` parsed from an optional text.
pub uninterp spec fn json_debug_option(text: Option<Seq<char>>) -> Seq<char>;

/// What `serde_json` parses a line into, when that value is a JSON object: its members
/// in map order, each with its value when that value is a JSON string.
pub uninterp spec fn json_object_string_members(line: Seq<char>) -> Option<Seq<(Seq<char>, Option<Seq<char>>)>>;

/// The view of a list of members.
pub open spec fn members_view(v: Seq<(String, Option<String>)>) -> Seq<(Seq<char>, Option<Seq<char>>)> {
    v.map_values(|m: (String, Option<String>)| (m.0@, opt_view(m.1)))
}

/// `serde_json::from_str::<Value>`, read as a JSON string.
#[verifier::external_body]
pub fn json_as_string(text: &str) -> (r: Option<String>)
    ensures
        opt_view(r) == json_string_value(text@),
{
    match serde_json::from_str::<serde_json::Value>(text) {
        Ok(serde_json::Value::String(s)) => Some(s),
        Ok(serde_json::Value::Null) => None,
        Ok(serde_json::Value::Bool(_)) => None,
        Ok(serde_json::Value::Number(_)) => None,
        Ok(serde_json::Value::Array(_)) => None,
        Ok(serde_json::Value::Object(_)) => None,
        Err(_) => None,
    }
}

/// The view of a list of array items, each the members of an object or `None`.
pub open spec fn items_view(v: Seq<Option<Vec<(String, Option<String>)>>>) -> Seq<Option<Seq<(Seq<char>, Option<Seq<char>>)>>> {
    v.map_values(
        |o: Option<Vec<(String, Option<String>)>>|
            match o {
                Some(m) => Some(members_view(m@)),
                None => None,
            },
    )
}

/// `serde_json::from_str::<Value>`, read as an array whose object items give their
/// string members.
#[verifier::external_body]
pub fn json_array_items(text: &str) -> (r: Option<Vec<Option<Vec<(String, Option<String>)>>>>)
    ensures
        match r {
            Some(v) => json_array_item_members(text@) == Some(items_view(v@)),
            None => json_array_item_members(text@) is None,
        },
{
    match serde_json::from_str::<serde_json::Value>(text) {
        Ok(serde_json::Value::Array(items)) => Some(
            items.iter().map(|b| b.as_object().map(|m| m.iter().map(|(k, v)| (k.clone(), v.as_str().map(String::from))).collect())).collect(),
        ),
        Ok(serde_json::Value::Null) => None,
        Ok(serde_json::Value::Bool(_)) => None,
        Ok(serde_json::Value::Number(_)) => None,
        Ok(serde_json::Value::String(_)) => None,
        Ok(serde_json::Value::Object(_)) => None,
        Err(_) => None,
    }
}

/// `format!("{:?}", …)` of the optional `serde_json::Value` parsed from an optional text.
#[verifier::external_body]
pub fn json_debug(v: &Option<RawJson>) -> (r: String)
    ensures
        r@ == json_debug_option(
            match v {
                Some(j) => Some(j.text@),
                None => None,
            },
        ),
{
    format!("{:?}", v.as_ref().and_then(|j| serde_json::from_str::<serde_json::Value>(&j.text).ok()))
}

/// `serde_json::from_str::<Value>` of one line, read as an object of string members.
#[verifier::external_body]
pub fn json_object_members(line: &str) -> (r: Option<Vec<(String, Option<String>)>>)
    ensures
        match r {
            Some(v) => json_object_string_members(line@) == Some(members_view(v@)),
            None => json_object_string_members(line@) is None,
        },
{
    match serde_json::from_str::<serde_json::Value>(line) {
        Ok(serde_json::Value::Object(m)) => Some(
            m.into_iter().map(|(k, v)| (k, v.as_str().map(String::from))).collect(),
        ),
        Ok(serde_json::Value::Null) => None,
        Ok(serde_json::Value::Bool(_)) => None,
        Ok(serde_json::Value::Number(_)) => None,
        Ok(serde_json::Value::String(_)) => None,
        Ok(serde_json::Value::Array(_)) => None,
        Err(_) => None,
    }
}

/// The first member named `key`, when its value is a string.
pub open spec fn member_str(members: Seq<(Seq<char>, Option<Seq<char>>)>, key: Seq<char>) -> Option<Seq<char>>
    decreases members.len(),
{
    if members.len() == 0 {
        None
    } else if members[0].0 == key {
        members[0].1
    } else {
        member_str(members.drop_first(), key)
    }
}

/// Looks up the string value of member `key`.
pub fn lookup_member(members: &Vec<(String, Option<String>)>, key: &str) -> (r: Option<String>)
    ensures
        opt_view(r) == member_str(members_view(members@), key@),
{
    let kc = crate::text::chars_of(key);
    let mut i: usize = 0;
    assert(members_view(members@).skip(0) =~= members_view(members@));
    while i < members.len()
        invariant
            i <= members@.len(),
            kc@ == key@,
            member_str(members_view(members@), key@) == member_str(members_view(members@).skip(i as int), key@),
        decreases members.len() - i,
    {
        let ghost rest = members_view(members@).skip(i as int);
        assert(rest[0] == members_view(members@)[i as int]);
        assert(rest.drop_first() =~= members_view(members@).skip(i + 1));
        let name = crate::text::chars_of(members[i].0.as_str());
        if crate::text::chars_eq(name.as_slice(), kc.as_slice()) {
            return crate::models::copy_opt_string(&members[i].1);
        }
        i = i + 1;
    }
    assert(members_view(members@).skip(i as int).len() == 0);
    None
}

} // verus!
