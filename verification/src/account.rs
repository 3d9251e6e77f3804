//! Account identifiers.

use vstd::prelude::*;

verus! {

/// An opaque, fixed-width, comparable account identifier.
#[derive(Clone, Copy, Debug, PartialEq, Eq, Hash)]
pub struct AccountId {
    pub bytes: [u8; 32],
}

impl AccountId {
    /// The reserved identifier that stands for "no account": every byte is zero.
    pub open spec fn spec_null() -> AccountId {
        AccountId { bytes: vstd::array::spec_array_fill_for_copy_type::<u8, 32>(0u8) }
    }

    /// Whether this is the reserved null account.
    pub open spec fn spec_is_null(&self) -> bool {
        *self == Self::spec_null()
    }

    /// The null account is the one account whose bytes are all zero.
    pub proof fn lemma_null_is_all_zero(self)
        ensures
            self.spec_is_null() <==> (forall|i: int| 0 <= i < 32 ==> self.bytes[i] == 0u8),
    {
        let zero = Self::spec_null();
        assert(forall|i: int| 0 <= i < 32 ==> zero.bytes[i] == 0u8);
        if forall|i: int| 0 <= i < 32 ==> self.bytes[i] == 0u8 {
            assert(self.bytes =~= zero.bytes);
        }
    }

    /// Wraps 32 raw bytes as an account identifier.
    pub fn from_bytes(bytes: [u8; 32]) -> (a: AccountId)
        ensures
            a.bytes == bytes,
    {
        AccountId { bytes }
    }

    /// The null account.
    #[verifier::when_used_as_spec(spec_null)]
    pub fn null() -> (a: AccountId)
        ensures
            a == Self::spec_null(),
    {
        AccountId { bytes: [0u8; 32] }
    }

    /// Byte-wise comparison of two identifiers.
    pub fn same(&self, other: &AccountId) -> (r: bool)
        ensures
            r == (*self == *other),
    {
        let mut i: usize = 0;
        while i < 32
            invariant
                i <= 32,
                forall|j: int| 0 <= j < i ==> self.bytes[j] == other.bytes[j],
            decreases 32 - i,
        {
            if self.bytes[i] != other.bytes[i] {
                return false;
            }
            i += 1;
        }
        assert(self.bytes =~= other.bytes);
        true
    }

    /// Whether this is the null account.
    #[verifier::when_used_as_spec(spec_is_null)]
    pub fn is_null(&self) -> (r: bool)
        ensures
            r == self.spec_is_null(),
    {
        let zero = AccountId::null();
        self.same(&zero)
    }
}

} // verus!
