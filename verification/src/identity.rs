//! Identities of principals.

use vstd::prelude::*;
use vstd::std_specs::cmp::PartialEqSpecImpl;

verus! {

broadcast use vstd::array::group_array_axioms;

/// The number of bytes in an identity.
pub const IDENTITY_LEN: usize = 32;

/// An opaque, fixed-size public identifier that names a principal: the
/// administrator, an assigning authority, or a subject user. Two identities
/// name the same principal exactly when their bytes agree.
#[derive(Clone, Copy, Debug)]
pub struct Identity {
    pub bytes: [u8; 32],
}

impl Identity {
    /// Whether every byte of this identity is zero, as in a blank record.
    pub open spec fn is_zero(self) -> bool {
        forall|i: int| 0 <= i < 32 ==> self.bytes[i] == 0u8
    }

    /// The identity made of the given bytes.
    pub fn new(bytes: [u8; 32]) -> (id: Identity)
        ensures
            id.bytes == bytes,
    {
        Identity { bytes }
    }

    /// The bytes of this identity.
    pub fn to_bytes(&self) -> (bytes: [u8; 32])
        ensures
            bytes == self.bytes,
    {
        self.bytes
    }
}

impl PartialEq for Identity {
    /// Compares two identities byte by byte.
    fn eq(&self, other: &Identity) -> (same: bool) {
        let mut i: usize = 0;
        while i < IDENTITY_LEN
            invariant
                i <= IDENTITY_LEN,
                forall|j: int| 0 <= j < i ==> self.bytes[j] == other.bytes[j],
            decreases IDENTITY_LEN - i,
        {
            if self.bytes[i] != other.bytes[i] {
                return false;
            }
            i += 1;
        }
        assert(self.bytes =~= other.bytes);
        true
    }
}

impl Eq for Identity {

}

impl PartialEqSpecImpl for Identity {
    open spec fn obeys_eq_spec() -> bool {
        true
    }

    open spec fn eq_spec(&self, other: &Identity) -> bool {
        *self == *other
    }
}

impl Default for Identity {
    /// The identity whose bytes are all zero.
    fn default() -> (id: Identity)
        ensures
            id.is_zero(),
    {
        Identity { bytes: [0u8; 32] }
    }
}

} // verus!
