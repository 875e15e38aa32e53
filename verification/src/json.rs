//! JSON text of the broker's statistics, as serde_json writes it.

use vstd::prelude::*;

verus! {

/// The JSON text of an object without members.
pub open spec fn empty_json_object() -> Seq<char> {
    seq!['{', '}']
}

#[verifier::external_type_specification]
#[verifier::external_body]
pub struct ExJsonError(serde_json::Error);

/// Calls `serde_json::to_string` on an empty `serde_json::Map`. The compact
/// serializer writes `{` and, since the map announces no entries, `}` at
/// once into a `Vec`, which cannot fail; so the result is `Ok("{}")`.
#[verifier::external_body]
pub(crate) fn json_empty_object() -> (r: Result<String, serde_json::Error>)
    ensures
        r is Ok,
        r->Ok_0@ == empty_json_object(),
{
    serde_json::to_string(&serde_json::Map::new())
}

} // verus!
