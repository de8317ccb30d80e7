//! Reading one member of a JSON document through `serde_json`.

use vstd::prelude::*;

verus! {

/// The string value of member `key` of the JSON object that `bytes` hold: `None` when
/// `bytes` are not one JSON value, the value is not an object, it has no such member,
/// or the member is not a string.
pub uninterp spec fn json_str_member(bytes: Seq<u8>, key: Seq<char>) -> Option<Seq<char>>;

/// `serde_json::from_slice::<Value>(bytes)`, then `Value::get(key)` and
/// `Value::as_str`. Claims only the named result.
#[verifier::external_body]
pub(crate) fn str_member(bytes: &[u8], key: &str) -> (r: Option<String>)
    ensures
        match r {
            Some(s) => json_str_member(bytes@, key@) == Some(s@),
            None => json_str_member(bytes@, key@) is None,
        },
{
    let value: serde_json::Value = serde_json::from_slice(bytes).ok()?;
    value.get(key)?.as_str().map(|s| s.to_owned())
}

/// The members of the object under `key` in the JSON object that `bytes` hold, in
/// the order `serde_json`'s map walks them, each with its value when that value is a
/// string: `None` when `bytes` are not one JSON object or its `key` member is not an
/// object.
pub uninterp spec fn json_object_members(bytes: Seq<u8>, key: Seq<char>) -> Option<
    Seq<(Seq<char>, Option<Seq<char>>)>,
>;

/// The members as plain values.
pub open spec fn members_view(v: Seq<(String, Option<String>)>) -> Seq<(Seq<char>, Option<Seq<char>>)> {
    v.map_values(
        |m: (String, Option<String>)|
            (
                m.0@,
                match m.1 {
                    Some(s) => Some(s@),
                    None => None,
                },
            ),
    )
}

/// `serde_json::from_slice::<Value>(bytes)`, then the object under `key` and each of
/// its members with `Value::as_str`. Claims only the named result.
#[verifier::external_body]
pub(crate) fn object_members(bytes: &[u8], key: &str) -> (r: Option<Vec<(String, Option<String>)>>)
    ensures
        match r {
            Some(v) => json_object_members(bytes@, key@) == Some(members_view(v@)),
            None => json_object_members(bytes@, key@) is None,
        },
{
    match serde_json::from_slice::<serde_json::Value>(bytes) {
        Ok(serde_json::Value::Object(obj)) => match obj.get(key) {
            Some(serde_json::Value::Object(members)) => Some(
                members.iter().map(|(k, v)| (k.clone(), v.as_str().map(|s| s.to_owned()))).collect(),
            ),
            _ => None,
        },
        _ => None,
    }
}

} // verus!
