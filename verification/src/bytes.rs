//! Byte strings held in vectors, seen as sequences.

use vstd::prelude::*;

verus! {

/// The bytes of each vector, in order.
pub open spec fn views_of(parts: Seq<Vec<u8>>) -> Seq<Seq<u8>> {
    parts.map_values(|part: Vec<u8>| part@)
}

} // verus!
