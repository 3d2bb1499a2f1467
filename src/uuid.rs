//! Identifiers of catalog rows: 128-bit UUIDs held as plain integers.

use vstd::prelude::*;

verus! {

/// A 128-bit identifier of a file, a watched root or a thumbnail.
#[derive(PartialEq, Eq, Structural, Clone, Copy, Debug, Hash)]
pub struct UUID(pub u128);

impl UUID {
    /// The identifier with the given 128 bits.
    pub fn from_u128(v: u128) -> (r: UUID)
        ensures
            r.0 == v,
    {
        UUID(v)
    }

    /// The 128 bits of this identifier.
    pub fn as_u128(&self) -> (r: u128)
        ensures
            r == self.0,
    {
        self.0
    }
}

} // verus!
