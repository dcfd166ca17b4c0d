//! Numbers in JSON, read by the `serde_json` crate.

use serde_json::Value;
use vstd::prelude::*;

verus! {

/// A JSON value.
#[verifier::external_type_specification]
#[verifier::external_body]
pub struct ExValue(Value);

/// The number that a value is, if it is one that a `u64` can be.
pub uninterp spec fn value_number(v: Value) -> Option<u64>;

/// The number under a key of a value, if it is an object with a number there.
pub uninterp spec fn member_number(v: Value, key: Seq<char>) -> Option<u64>;

/// The number under a key of the value that some bytes are.
pub uninterp spec fn json_number(bytes: Seq<u8>, key: Seq<char>) -> Option<u64>;

/// `serde_json::from_slice`: the value that the bytes are, known by the numbers under its
/// keys, which depend on the bytes alone. Bytes that are no JSON have none.
#[verifier::external_body]
fn read_value(bytes: &[u8]) -> (r: Option<Value>)
    ensures
        r matches Some(v) ==> forall|key: Seq<char>| #[trigger] member_number(v, key) == json_number(bytes@, key),
        r is None ==> forall|key: Seq<char>| #[trigger] json_number(bytes@, key) is None,
{
    serde_json::from_slice(bytes).ok()
}

/// `Value::get`: the value under a key, whose number is the one under that key. What isn't an
/// object, or has no such key, has none.
#[verifier::external_body]
fn member<'a>(v: &'a Value, key: &str) -> (r: Option<&'a Value>)
    ensures
        r matches Some(found) ==> value_number(*found) == member_number(*v, key@),
        r is None ==> member_number(*v, key@) is None,
{
    v.get(key)
}

/// `Value::as_u64`: the number that a value is.
#[verifier::external_body]
fn number(v: &Value) -> (r: Option<u64>)
    ensures
        r == value_number(*v),
{
    v.as_u64()
}

/// The number under a key of the JSON object that some bytes are.
pub fn number_in_json(bytes: &[u8], key: &str) -> (r: Option<u64>)
    ensures
        r == json_number(bytes@, key@),
{
    match read_value(bytes) {
        Some(v) => {
            assert(member_number(v, key@) == json_number(bytes@, key@));
            match member(&v, key) {
                Some(found) => number(found),
                None => None,
            }
        },
        None => None,
    }
}

} // verus!
