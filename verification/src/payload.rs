//! The binary payload for the engine's CBOR apply entry point.

use vstd::prelude::*;

verus! {

/// What ciborium's encoder produces for a one-entry map from `key` to
/// `value`: a function of the two arguments alone.
pub uninterp spec fn cbor_of_entry(key: Seq<char>, value: i32) -> Seq<u8>;

/// Relies on `ciborium::ser::into_writer`: encodes the one-entry map from
/// `key` to `value` as CBOR into a growable buffer, which cannot fail for
/// a map of a string to an integer.
#[verifier::external_body]
fn cbor_entry(key: &str, value: i32) -> (r: Vec<u8>)
    ensures
        r@ == cbor_of_entry(key@, value),
{
    let map = std::collections::BTreeMap::from([(key, value)]);
    let mut out: Vec<u8> = Vec::new();
    ciborium::ser::into_writer(&map, &mut out).unwrap();
    out
}

/// The fixed payload the engine's binary apply entry point is exercised
/// with: the CBOR encoding of the map from `"key"` to `1`.
pub fn probe_payload() -> (r: Vec<u8>)
    ensures
        r@ == cbor_of_entry("key"@, 1),
{
    cbor_entry("key", 1)
}

} // verus!
