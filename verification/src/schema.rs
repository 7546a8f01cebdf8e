use vstd::prelude::*;
use crate::codec::Codec;

verus! {

/// The binding of a key type and a value type, each with its codec, under one name.
///
/// A schema is chosen when a store operation is written and does not change while
/// the store is in use.
pub trait KeyValueSchema {
    /// The type of the keys.
    type Key: Codec;

    /// The type of the values.
    type Value: Codec;

    /// The name under which the schema is known, for diagnostics.
    fn name() -> &'static str;
}

} // verus!
