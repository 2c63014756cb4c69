use vstd::prelude::*;

verus! {

broadcast use vstd::array::group_array_axioms;

/// An opaque 32-byte participant identity.
#[derive(Debug, Clone, Copy, PartialEq, Eq, Hash)]
pub struct AccountId {
    pub bytes: [u8; 32],
}

impl AccountId {
    /// Byte-wise comparison; agrees with identity equality.
    pub fn same(&self, other: &AccountId) -> (r: bool)
        ensures
            r == (*self == *other),
    {
        let mut i: usize = 0;
        while i < 32
            invariant
                0 <= i <= 32,
                self.bytes@.len() == 32,
                other.bytes@.len() == 32,
                forall|j: int| 0 <= j < i ==> self.bytes[j] == other.bytes[j],
            decreases 32 - i,
        {
            if self.bytes[i] != other.bytes[i] {
                return false;
            }
            i = i + 1;
        }
        proof {
            assert(self.bytes =~= other.bytes);
        }
        true
    }
}

/// A key of a [`crate::table::Table`]: comparison must agree with equality.
pub trait TableKey: Copy + Sized {
    fn key_eq(&self, other: &Self) -> (r: bool)
        ensures
            r == (*self == *other),
    ;
}

impl TableKey for AccountId {
    fn key_eq(&self, other: &Self) -> (r: bool) {
        self.same(other)
    }
}

/// The (owner, spender) pair under which an allowance is recorded.
#[derive(Debug, Clone, Copy, PartialEq, Eq, Hash)]
pub struct AllowanceKey {
    pub owner: AccountId,
    pub spender: AccountId,
}

impl TableKey for AllowanceKey {
    fn key_eq(&self, other: &Self) -> (r: bool) {
        self.owner.same(&other.owner) && self.spender.same(&other.spender)
    }
}

} // verus!
