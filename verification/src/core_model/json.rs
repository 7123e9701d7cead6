//! JSON values, as far as the bridge builds and reads them.

use vstd::prelude::*;

verus! {

/// `serde_json::Value`, seen through what its methods return.
#[verifier::external_type_specification]
#[verifier::external_body]
pub struct ExJsonValue(serde_json::Value);

/// `serde_json::Map`, the members of a JSON object.
#[verifier::external_type_specification]
#[verifier::external_body]
#[verifier::reject_recursive_types(K)]
#[verifier::reject_recursive_types(V)]
pub struct ExJsonMap<K, V>(serde_json::Map<K, V>);

/// The member of a value that `serde_json::Value::get` finds under a key.
pub uninterp spec fn member_of(v: serde_json::Value, key: Seq<char>) -> Option<serde_json::Value>;

/// The text that `serde_json::Value::as_str` finds in a value.
pub uninterp spec fn text_of(v: serde_json::Value) -> Option<Seq<char>>;

/// What `serde_json::Value::is_null` says of a value.
pub uninterp spec fn is_null_value(v: serde_json::Value) -> bool;

/// The members that a `serde_json::Map` holds, by key.
pub uninterp spec fn members(m: serde_json::Map<String, serde_json::Value>) -> Map<
    Seq<char>,
    serde_json::Value,
>;

/// `serde_json::Value::clone`: the clone is the value itself.
pub assume_specification[ <serde_json::Value as Clone>::clone ](v: &serde_json::Value) -> (r:
    serde_json::Value)
    ensures
        r == *v,
;

/// The variant `serde_json::Value::String`: a value that holds this text, is not null and has no
/// members.
#[verifier::external_body]
pub(crate) fn json_text(s: &str) -> (r: serde_json::Value)
    ensures
        text_of(r) == Some(s@),
        !is_null_value(r),
        forall|k: Seq<char>| (#[trigger] member_of(r, k)) is None,
{
    serde_json::Value::String(s.to_string())
}

/// The variant `serde_json::Value::Null`: a value that is null, and holds neither a text nor
/// members.
#[verifier::external_body]
pub(crate) fn json_null() -> (r: serde_json::Value)
    ensures
        is_null_value(r),
        text_of(r) is None,
        forall|k: Seq<char>| (#[trigger] member_of(r, k)) is None,
{
    serde_json::Value::Null
}

/// `serde_json::Map::new`: no members.
#[verifier::external_body]
pub(crate) fn new_members() -> (r: serde_json::Map<String, serde_json::Value>)
    ensures
        members(r).dom() == Set::<Seq<char>>::empty(),
{
    serde_json::Map::new()
}

/// `serde_json::Map::insert`: the member stands under the key, in place of one that stood there.
#[verifier::external_body]
pub(crate) fn insert_member(
    m: &mut serde_json::Map<String, serde_json::Value>,
    key: &str,
    value: serde_json::Value,
)
    ensures
        members(*final(m)) == members(*old(m)).insert(key@, value),
{
    m.insert(key.to_string(), value);
}

/// The variant `serde_json::Value::Object`: a value whose members are those of the map, and which
/// is neither a text nor null.
#[verifier::external_body]
pub(crate) fn json_object(m: serde_json::Map<String, serde_json::Value>) -> (r: serde_json::Value)
    ensures
        forall|k: Seq<char>| #[trigger]
            member_of(r, k) == (if members(m).contains_key(k) {
                Some(members(m)[k])
            } else {
                None
            }),
        text_of(r) is None,
        !is_null_value(r),
{
    serde_json::Value::Object(m)
}

/// `serde_json::Value::get` with a text for a key: the member that it finds.
#[verifier::external_body]
pub(crate) fn json_member<'a>(v: &'a serde_json::Value, key: &str) -> (r: Option<&'a serde_json::Value>)
    ensures
        match r {
            Some(m) => member_of(*v, key@) == Some(*m),
            None => member_of(*v, key@) is None,
        },
{
    v.get(key)
}

/// `serde_json::Value::as_str`: the text that it finds.
#[verifier::external_body]
pub(crate) fn json_as_text(v: &serde_json::Value) -> (r: Option<&str>)
    ensures
        match r {
            Some(s) => text_of(*v) == Some(s@),
            None => text_of(*v) is None,
        },
{
    v.as_str()
}

} // verus!
