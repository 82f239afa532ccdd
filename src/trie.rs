//! Merkle roots over storage slots and over accounts.

use vstd::prelude::*;
use crate::account::AccountModel;
use crate::primitives::{Address, B256, U256};
use crate::tables::{StorageTable, storage_entries};

verus! {

/// The RLP encoding of a byte string.
pub uninterp spec fn rlp_string_of(b: Seq<u8>) -> Seq<u8>;

/// The RLP encoding of the list `[nonce, balance, storage_root, code_hash]`,
/// where `balance` holds the integer's big-endian bytes without leading zeros.
pub uninterp spec fn rlp_account_of(nonce: u64, balance: Seq<u8>, storage_root: B256, code_hash: B256) -> Seq<u8>;

/// The secure (key-hashed) Merkle-Patricia root over storage entries.
pub uninterp spec fn slot_trie_root(entries: Map<U256, Seq<u8>>) -> B256;

/// The secure (key-hashed) Merkle-Patricia root over account entries.
pub uninterp spec fn address_trie_root(entries: Map<Address, Seq<u8>>) -> B256;

/// Relies on `rlp::encode` of a byte slice: its RLP string encoding.
#[verifier::external_body]
fn rlp_encode_bytes(b: &[u8]) -> (r: Vec<u8>)
    ensures
        r@ == rlp_string_of(b@),
{
    rlp::encode(&b).to_vec()
}

/// Relies on `rlp::RlpStream` appending four items to a list: the nonce as an
/// integer and the other three as byte strings.
#[verifier::external_body]
pub(crate) fn rlp_encode_account(nonce: u64, balance: &[u8], storage_root: &B256, code_hash: &B256) -> (r: Vec<u8>)
    ensures
        r@ == rlp_account_of(nonce, balance@, *storage_root, *code_hash),
{
    let mut stream = rlp::RlpStream::new_list(4);
    stream.append(&nonce).append(&balance).append(&&storage_root[..]).append(&&code_hash[..]);
    stream.out().to_vec()
}

/// Pairs with distinct keys as a map.
pub open spec fn slot_pairs_map(s: Seq<(U256, Vec<u8>)>) -> Map<U256, Seq<u8>>
    decreases s.len(),
{
    if s.len() == 0 {
        Map::empty()
    } else {
        slot_pairs_map(s.drop_last()).insert(s.last().0, s.last().1@)
    }
}

/// Pairs with distinct keys as a map.
pub open spec fn address_pairs_map(s: Seq<(Address, Vec<u8>)>) -> Map<Address, Seq<u8>>
    decreases s.len(),
{
    if s.len() == 0 {
        Map::empty()
    } else {
        address_pairs_map(s.drop_last()).insert(s.last().0, s.last().1@)
    }
}

/// Relies on `triehash::sec_trie_root` with the Keccak hasher: the root over
/// the pairs, which it sorts by hashed key.
#[verifier::external_body]
fn sec_trie_root_slots(entries: Vec<(U256, Vec<u8>)>) -> (r: B256)
    requires
        forall|i: int, j: int| 0 <= i < j < entries@.len() ==> entries@[i].0 != entries@[j].0,
    ensures
        r == slot_trie_root(slot_pairs_map(entries@)),
{
    triehash::sec_trie_root::<keccak_hasher::KeccakHasher, _, _, _>(entries)
}

/// Relies on `triehash::sec_trie_root` with the Keccak hasher: the root over
/// the pairs, which it sorts by hashed key.
#[verifier::external_body]
pub(crate) fn sec_trie_root_addresses(entries: Vec<(Address, Vec<u8>)>) -> (r: B256)
    requires
        forall|i: int, j: int| 0 <= i < j < entries@.len() ==> entries@[i].0 != entries@[j].0,
    ensures
        r == address_trie_root(address_pairs_map(entries@)),
{
    triehash::sec_trie_root::<keccak_hasher::KeccakHasher, _, _, _>(entries)
}

/// A big-endian integer without its leading zero bytes.
pub open spec fn strip_zeros(s: Seq<u8>) -> Seq<u8>
    decreases s.len(),
{
    if s.len() > 0 && s[0] == 0 {
        strip_zeros(s.drop_first())
    } else {
        s
    }
}

proof fn lemma_strip_zeros(s: Seq<u8>, k: int)
    requires
        0 <= k <= s.len(),
        forall|j: int| 0 <= j < k ==> s[j] == 0,
        k == s.len() || s[k] != 0,
    ensures
        strip_zeros(s) == s.subrange(k, s.len() as int),
    decreases k,
{
    if k == 0 {
        assert(s.subrange(0, s.len() as int) =~= s);
    } else {
        let t = s.drop_first();
        assert forall|j: int| 0 <= j < k - 1 implies t[j] == 0 by {
            assert(t[j] == s[j + 1]);
        }
        lemma_strip_zeros(t, k - 1);
        assert(t.subrange(k - 1, t.len() as int) =~= s.subrange(k, s.len() as int));
    }
}

/// The bytes of a 256-bit integer without leading zeros.
pub fn strip_leading_zeros(w: &U256) -> (r: Vec<u8>)
    ensures
        r@ == strip_zeros(w@),
{
    let mut k: usize = 0;
    while k < 32 && w[k] == 0
        invariant
            0 <= k <= 32,
            w@.len() == 32,
            forall|j: int| 0 <= j < k ==> w@[j] == 0,
        decreases 32 - k,
    {
        k = k + 1;
    }
    proof {
        lemma_strip_zeros(w@, k as int);
    }
    let mut r: Vec<u8> = Vec::new();
    let mut i: usize = k;
    while i < 32
        invariant
            k <= i <= 32,
            w@.len() == 32,
            r@ == w@.subrange(k as int, i as int),
        decreases 32 - i,
    {
        r.push(w[i]);
        i = i + 1;
        assert(r@ =~= w@.subrange(k as int, i as int));
    }
    r
}

/// What a storage trie holds under each slot: the RLP encoding of the value.
pub open spec fn storage_leaves(storage: Map<U256, U256>) -> Map<U256, Seq<u8>> {
    Map::new(|k: U256| storage.contains_key(k), |k: U256| rlp_string_of(strip_zeros(storage[k]@)))
}

/// The storage root of an account's slots.
pub open spec fn storage_root_of(storage: Map<U256, U256>) -> B256 {
    slot_trie_root(storage_leaves(storage))
}

/// What the state trie holds under an account's address.
pub open spec fn account_leaf(m: AccountModel) -> Seq<u8> {
    rlp_account_of(
        m.info.nonce,
        strip_zeros(m.info.balance@),
        storage_root_of(m.storage),
        m.info.code_hash,
    )
}

/// The state root over the given accounts.
pub open spec fn state_root_of(accounts: Map<Address, AccountModel>) -> B256 {
    address_trie_root(Map::new(|a: Address| accounts.contains_key(a), |a: Address| account_leaf(accounts[a])))
}

/// The Merkle root over the slots of a storage table.
pub fn storage_root(storage: &StorageTable) -> (r: B256)
    ensures
        r == storage_root_of(storage_entries(*storage)),
{
    let entries = storage.entries();
    let ghost m = storage_entries(*storage);
    let mut out: Vec<(U256, Vec<u8>)> = Vec::new();
    let mut i: usize = 0;
    while i < entries.len()
        invariant
            0 <= i <= entries@.len(),
            out@.len() == i,
            forall|j: int| 0 <= j < i ==> #[trigger] out@[j].0 == entries@[j].0,
            forall|a: int, b: int| 0 <= a < b < entries@.len() ==> entries@[a].0 != entries@[b].0,
            forall|j: int| 0 <= j < entries@.len() ==> #[trigger] m.contains_key(entries@[j].0)
                && m[entries@[j].0] == entries@[j].1,
            slot_pairs_map(out@) == Map::new(
                |k: U256| exists|j: int| 0 <= j < i && entries@[j].0 == k,
                |k: U256| rlp_string_of(strip_zeros(m[k]@)),
            ),
        decreases entries@.len() - i,
    {
        let (k, v) = entries[i];
        let stripped = strip_leading_zeros(&v);
        let enc = rlp_encode_bytes(stripped.as_slice());
        let ghost prev = out@;
        out.push((k, enc));
        i = i + 1;
        proof {
            assert(out@.drop_last() =~= prev);
            assert(m.contains_key(entries@[i - 1].0));
            assert(slot_pairs_map(out@) =~= Map::new(
                |k: U256| exists|j: int| 0 <= j < i && entries@[j].0 == k,
                |k: U256| rlp_string_of(strip_zeros(m[k]@)),
            )) by {
                assert forall|key: U256| #[trigger] slot_pairs_map(out@).contains_key(key)
                    implies exists|j: int| 0 <= j < i && entries@[j].0 == key by {
                    if key == k {
                        assert(entries@[i - 1].0 == key);
                    }
                }
            }
        }
    }
    proof {
        assert(slot_pairs_map(out@) =~= storage_leaves(m)) by {
            assert forall|key: U256| m.contains_key(key)
                implies exists|j: int| 0 <= j < i && entries@[j].0 == key by {
                assert(m.contains_key(key));
            }
        }
    }
    sec_trie_root_slots(out)
}

} // verus!
