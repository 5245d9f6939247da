//! Account identifiers and code hashes: 32-byte values, compared byte by byte.
use vstd::prelude::*;

verus! {

broadcast use vstd::array::group_array_axioms;

/// A 32-byte account identifier.
#[derive(Clone, Copy, Debug, PartialEq, Eq)]
pub struct AccountId(pub [u8; 32]);

/// A 32-byte code hash.
#[derive(Clone, Copy, Debug, PartialEq, Eq)]
pub struct CodeHash(pub [u8; 32]);

impl View for AccountId {
    type V = AccountId;

    open spec fn view(&self) -> AccountId {
        *self
    }
}

impl View for CodeHash {
    type V = CodeHash;

    open spec fn view(&self) -> CodeHash {
        *self
    }
}

/// The byte that fills every position of the reserved "zero" address.
pub const ZERO_ADDRESS_BYTE: u8 = 255;

/// Whether every byte of `bytes` is `b`.
pub open spec fn all_bytes(bytes: [u8; 32], b: u8) -> bool {
    forall|i: int| 0 <= i < 32 ==> #[trigger] bytes[i] == b
}

/// The 32-byte array whose bytes are all `b`.
pub open spec fn filled(b: u8) -> [u8; 32] {
    vstd::array::spec_array_fill_for_copy_type::<u8, 32>(b)
}

/// Compares two 32-byte arrays.
pub fn bytes32_eq(a: &[u8; 32], b: &[u8; 32]) -> (r: bool)
    ensures
        r == (*a == *b),
{
    let mut i: usize = 0;
    while i < 32
        invariant
            0 <= i <= 32,
            forall|j: int| 0 <= j < i ==> a[j] == b[j],
        decreases 32 - i,
    {
        if a[i] != b[i] {
            return false;
        }
        i = i + 1;
    }
    assert(*a =~= *b);
    true
}

impl AccountId {
    /// The reserved "zero" address: all bytes are 255.
    pub open spec fn spec_is_zero(&self) -> bool {
        all_bytes(self.0, ZERO_ADDRESS_BYTE)
    }

    /// The reserved "zero" address.
    pub fn zero() -> (r: AccountId)
        ensures
            r.spec_is_zero(),
            r == AccountId(filled(ZERO_ADDRESS_BYTE)),
    {
        AccountId([ZERO_ADDRESS_BYTE; 32])
    }

    /// Whether this is the reserved "zero" address.
    #[verifier::when_used_as_spec(spec_is_zero)]
    pub fn is_zero(&self) -> (r: bool)
        ensures
            r == self.spec_is_zero(),
    {
        let mut i: usize = 0;
        while i < 32
            invariant
                0 <= i <= 32,
                forall|j: int| 0 <= j < i ==> self.0[j] == ZERO_ADDRESS_BYTE,
            decreases 32 - i,
        {
            if self.0[i] != ZERO_ADDRESS_BYTE {
                return false;
            }
            i = i + 1;
        }
        true
    }

    /// Equality of account identifiers.
    pub fn same(&self, other: &AccountId) -> (r: bool)
        ensures
            r == (*self == *other),
    {
        bytes32_eq(&self.0, &other.0)
    }
}

impl CodeHash {
    /// Equality of code hashes.
    pub fn same(&self, other: &CodeHash) -> (r: bool)
        ensures
            r == (*self == *other),
    {
        bytes32_eq(&self.0, &other.0)
    }
}

} // verus!
