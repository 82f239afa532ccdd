//! Fixed-width values of the ledger and the digests computed over them.

use vstd::prelude::*;

verus! {

/// A 20-byte account address.
pub type Address = [u8; 20];

/// A 32-byte digest.
pub type B256 = [u8; 32];

/// A 256-bit unsigned integer, stored as 32 big-endian bytes.
pub type U256 = [u8; 32];

/// The Keccak-256 digest of a byte string.
pub uninterp spec fn keccak_of(data: Seq<u8>) -> B256;

/// The digest that marks an account without code.
pub open spec fn empty_code_digest() -> B256 {
    keccak_of(Seq::empty())
}

/// Whether every byte of a word is zero.
pub open spec fn is_zero_word(w: Seq<u8>) -> bool {
    forall|i: int| 0 <= i < w.len() ==> w[i] == 0
}

/// The all-zero 256-bit word.
pub open spec fn zero_u256() -> U256 {
    vstd::array::spec_array_fill_for_copy_type::<u8, 32>(0)
}

/// The all-zero 256-bit word.
pub fn zero_word() -> (r: U256)
    ensures
        r == zero_u256(),
        is_zero_word(r@),
        r@.len() == 32,
{
    [0u8; 32]
}

/// Whether every byte of `w` is zero.
pub fn word_is_zero(w: &[u8; 32]) -> (r: bool)
    ensures
        r == is_zero_word(w@),
{
    let mut i: usize = 0;
    while i < 32
        invariant
            0 <= i <= 32,
            w@.len() == 32,
            forall|j: int| 0 <= j < i ==> w@[j] == 0,
        decreases 32 - i,
    {
        if w[i] != 0 {
            return false;
        }
        i = i + 1;
    }
    true
}

/// Whether two digests hold the same bytes.
pub fn digest_eq(a: &[u8; 32], b: &[u8; 32]) -> (r: bool)
    ensures
        r == (*a == *b),
{
    let mut i: usize = 0;
    while i < 32
        invariant
            0 <= i <= 32,
            a@.len() == 32,
            b@.len() == 32,
            forall|j: int| 0 <= j < i ==> a@[j] == b@[j],
        decreases 32 - i,
    {
        if a[i] != b[i] {
            return false;
        }
        i = i + 1;
    }
    assert(*a =~= *b);
    true
}

/// A copy of a byte string.
pub fn copy_bytes(v: &Vec<u8>) -> (r: Vec<u8>)
    ensures
        r@ == v@,
{
    let mut r: Vec<u8> = Vec::new();
    let mut i: usize = 0;
    while i < v.len()
        invariant
            0 <= i <= v.len(),
            r@ == v@.subrange(0, i as int),
        decreases v.len() - i,
    {
        r.push(v[i]);
        i = i + 1;
        assert(r@ =~= v@.subrange(0, i as int));
    }
    assert(r@ =~= v@);
    r
}

/// Relies on `revm::primitives::keccak256`: the Keccak-256 digest of `data`.
#[verifier::external_body]
pub(crate) fn keccak256(data: &[u8]) -> (r: B256)
    ensures
        r == keccak_of(data@),
{
    revm::primitives::keccak256(data).0
}

/// The digest that marks an account without code: that of the empty string.
pub fn empty_code_hash() -> (r: B256)
    ensures
        r == empty_code_digest(),
{
    let empty: Vec<u8> = Vec::new();
    let r = keccak256(empty.as_slice());
    assert(empty@ =~= Seq::<u8>::empty());
    r
}

} // verus!
