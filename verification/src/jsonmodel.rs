//! The library's model of a JSON document.
//!
//! A parsed document is opaque to the verifier. The trusted boundary names
//! what the parser returns as a value of this model, and the decoders'
//! contracts are then exact functions of it.

use vstd::prelude::*;

verus! {

/// A JSON value as the library reads it: a number representable as a
/// signed 64-bit integer, a string, an array, or an object keyed by member
/// name (duplicate member names keep the last member, as the parser does).
/// `Other` stands for every value the library never inspects further:
/// null, booleans, and numbers outside the signed 64-bit integer range.
pub enum JsonV {
    Int(int),
    Str(Seq<char>),
    Arr(Seq<JsonV>),
    Obj(Map<Seq<char>, JsonV>),
    Other,
}

/// The member of a JSON object under a key: `None` when the value is not
/// an object or has no such member.
pub open spec fn spec_obj_get(j: JsonV, k: Seq<char>) -> Option<JsonV> {
    match j {
        JsonV::Obj(o) => if o.contains_key(k) {
            Some(o[k])
        } else {
            None
        },
        _ => None,
    }
}

} // verus!
