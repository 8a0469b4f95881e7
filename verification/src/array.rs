//! Arrays as the engine serializes them: a count followed by the entries.

use vstd::prelude::*;

verus! {

/// Marks the serialized form of an array.
pub struct TArray;

/// Readers of a serialized array into a vector.
pub trait TArrayDeserializer {
}

} // verus!
