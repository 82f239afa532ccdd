//! Hash tables of the state, kept in `hashbrown` maps.
//!
//! Each table is opaque to the verifier; what it holds is named by a spec
//! function, and each operation states its effect on that content.

use vstd::prelude::*;
use crate::primitives::{Address, B256, U256};
use crate::account::{AccountModel, RethnetAccount, opt_account_model};
use crate::layer::{LayerModel, RethnetLayer, layers_model};

verus! {

/// Storage slots of one account.
#[verifier::external_body]
#[derive(Debug)]
pub struct StorageTable {
    inner: hashbrown::HashMap<U256, U256>,
}

/// The slot-to-value content of a storage table.
pub uninterp spec fn storage_entries(t: StorageTable) -> Map<U256, U256>;

impl StorageTable {
    /// Relies on `hashbrown::HashMap::new`: the map starts empty.
    #[verifier::external_body]
    pub(crate) fn new() -> (r: Self)
        ensures
            storage_entries(r).dom() == Set::<U256>::empty(),
    {
        StorageTable { inner: hashbrown::HashMap::new() }
    }

    /// Relies on `hashbrown::HashMap::get`: the value under `k`, if any.
    #[verifier::external_body]
    pub(crate) fn get(&self, k: &U256) -> (r: Option<U256>)
        ensures
            r == (if storage_entries(*self).contains_key(*k) {
                Some(storage_entries(*self)[*k])
            } else {
                None
            }),
    {
        self.inner.get(k).copied()
    }

    /// Relies on `hashbrown::HashMap::insert`: sets the value under `k`.
    #[verifier::external_body]
    pub(crate) fn insert(&mut self, k: U256, v: U256)
        ensures
            storage_entries(*final(self)) == storage_entries(*old(self)).insert(k, v),
    {
        self.inner.insert(k, v);
    }

    /// Relies on `hashbrown::HashMap::remove`: drops the entry under `k`.
    #[verifier::external_body]
    pub(crate) fn remove(&mut self, k: &U256)
        ensures
            storage_entries(*final(self)) == storage_entries(*old(self)).remove(*k),
    {
        self.inner.remove(k);
    }

    /// Relies on `hashbrown::HashMap::clear`: drops every entry.
    #[verifier::external_body]
    pub(crate) fn clear(&mut self)
        ensures
            storage_entries(*final(self)).dom() == Set::<U256>::empty(),
    {
        self.inner.clear();
    }

    /// Relies on `hashbrown::HashMap::iter`: each entry once, in some order.
    #[verifier::external_body]
    pub(crate) fn entries(&self) -> (r: Vec<(U256, U256)>)
        ensures
            forall|i: int, j: int| 0 <= i < j < r@.len() ==> r@[i].0 != r@[j].0,
            forall|i: int| 0 <= i < r@.len() ==> #[trigger] storage_entries(*self).contains_key(r@[i].0)
                && storage_entries(*self)[r@[i].0] == r@[i].1,
            forall|k: U256| #[trigger] storage_entries(*self).contains_key(k)
                ==> exists|i: int| 0 <= i < r@.len() && r@[i].0 == k,
    {
        self.inner.iter().map(|(k, v)| (*k, *v)).collect()
    }

    /// Relies on `hashbrown::HashMap::clone`: an independent copy.
    #[verifier::external_body]
    pub(crate) fn duplicate(&self) -> (r: Self)
        ensures
            storage_entries(r) == storage_entries(*self),
    {
        Self { inner: self.inner.clone() }
    }
}

/// Bytecode of one layer, keyed by its digest.
#[verifier::external_body]
#[derive(Debug)]
pub struct CodeTable {
    inner: hashbrown::HashMap<B256, Vec<u8>>,
}

/// The digest-to-bytecode content of a code table.
pub uninterp spec fn code_entries(t: CodeTable) -> Map<B256, Seq<u8>>;

impl CodeTable {
    /// Relies on `hashbrown::HashMap::new`: the map starts empty.
    #[verifier::external_body]
    pub(crate) fn new() -> (r: Self)
        ensures
            code_entries(r).dom() == Set::<B256>::empty(),
    {
        CodeTable { inner: hashbrown::HashMap::new() }
    }

    /// Relies on `hashbrown::HashMap::get`: a copy of the bytecode under `k`.
    #[verifier::external_body]
    pub(crate) fn get(&self, k: &B256) -> (r: Option<Vec<u8>>)
        ensures
            match r {
                Some(v) => code_entries(*self).contains_key(*k) && v@ == code_entries(*self)[*k],
                None => !code_entries(*self).contains_key(*k),
            },
    {
        self.inner.get(k).cloned()
    }

    /// Relies on `hashbrown::HashMap::insert`: sets the bytecode under `k`.
    #[verifier::external_body]
    pub(crate) fn insert(&mut self, k: B256, v: Vec<u8>)
        ensures
            code_entries(*final(self)) == code_entries(*old(self)).insert(k, v@),
    {
        self.inner.insert(k, v);
    }

    /// Relies on `hashbrown::HashMap::clone`: an independent copy.
    #[verifier::external_body]
    pub(crate) fn duplicate(&self) -> (r: Self)
        ensures
            code_entries(r) == code_entries(*self),
    {
        Self { inner: self.inner.clone() }
    }
}

/// Account entries of one layer: `None` marks a deleted account.
#[verifier::external_body]
#[derive(Debug)]
pub struct AccountTable {
    inner: hashbrown::HashMap<Address, Option<RethnetAccount>>,
}

/// The address-to-entry content of an account table.
pub uninterp spec fn account_entries(t: AccountTable) -> Map<Address, Option<AccountModel>>;

impl AccountTable {
    /// Relies on `hashbrown::HashMap::new`: the map starts empty.
    #[verifier::external_body]
    pub(crate) fn new() -> (r: Self)
        ensures
            account_entries(r).dom() == Set::<Address>::empty(),
    {
        AccountTable { inner: hashbrown::HashMap::new() }
    }

    /// Relies on `hashbrown::HashMap::get`: the entry under `k`, if any.
    #[verifier::external_body]
    pub(crate) fn get(&self, k: &Address) -> (r: Option<&Option<RethnetAccount>>)
        ensures
            match r {
                Some(e) => account_entries(*self).contains_key(*k)
                    && opt_account_model(*e) == account_entries(*self)[*k],
                None => !account_entries(*self).contains_key(*k),
            },
    {
        self.inner.get(k)
    }

    /// Relies on `hashbrown::HashMap::contains_key`.
    #[verifier::external_body]
    pub(crate) fn contains_key(&self, k: &Address) -> (r: bool)
        ensures
            r == account_entries(*self).contains_key(*k),
    {
        self.inner.contains_key(k)
    }

    /// Relies on `hashbrown::HashMap::insert`: sets the entry under `k`.
    #[verifier::external_body]
    pub(crate) fn insert(&mut self, k: Address, v: Option<RethnetAccount>)
        ensures
            account_entries(*final(self)) == account_entries(*old(self)).insert(
                k,
                opt_account_model(v),
            ),
    {
        self.inner.insert(k, v);
    }

    /// Relies on `hashbrown::HashMap::get_mut`: the entry under `k`, to
    /// change in place.
    #[verifier::external_body]
    pub(crate) fn get_mut(&mut self, k: &Address) -> (r: &mut Option<RethnetAccount>)
        requires
            account_entries(*old(self)).contains_key(*k),
        ensures
            opt_account_model(*r) == account_entries(*old(self))[*k],
            account_entries(*final(self)) == account_entries(*old(self)).insert(*k, opt_account_model(*final(r))),
    {
        self.inner.get_mut(k).unwrap()
    }

    /// Relies on `hashbrown::HashMap::keys`: each address once, in some order.
    #[verifier::external_body]
    pub(crate) fn keys(&self) -> (r: Vec<Address>)
        ensures
            r@.no_duplicates(),
            forall|a: Address| account_entries(*self).contains_key(a) <==> #[trigger] r@.contains(a),
    {
        self.inner.keys().copied().collect()
    }

    /// Relies on `hashbrown::HashMap::clone`, which clones each entry: an
    /// independent copy with the same content.
    #[verifier::external_body]
    pub(crate) fn duplicate(&self) -> (r: Self)
        ensures
            account_entries(r) == account_entries(*self),
    {
        Self { inner: self.inner.clone() }
    }
}

/// Copies of whole layer stacks, keyed by the state root they were taken at.
#[verifier::external_body]
#[derive(Debug)]
pub struct SnapshotTable {
    inner: hashbrown::HashMap<B256, Vec<RethnetLayer>>,
}

/// The root-to-stack content of a snapshot table.
pub uninterp spec fn snapshot_entries(t: SnapshotTable) -> Map<B256, Seq<LayerModel>>;

impl SnapshotTable {
    /// Relies on `hashbrown::HashMap::new`: the map starts empty.
    #[verifier::external_body]
    pub(crate) fn new() -> (r: Self)
        ensures
            snapshot_entries(r).dom() == Set::<B256>::empty(),
    {
        SnapshotTable { inner: hashbrown::HashMap::new() }
    }

    /// Relies on `hashbrown::HashMap::contains_key`.
    #[verifier::external_body]
    pub(crate) fn contains_key(&self, k: &B256) -> (r: bool)
        ensures
            r == snapshot_entries(*self).contains_key(*k),
    {
        self.inner.contains_key(k)
    }

    /// Relies on `hashbrown::HashMap::get`: the stack under `k`, if any.
    #[verifier::external_body]
    pub(crate) fn get(&self, k: &B256) -> (r: Option<&Vec<RethnetLayer>>)
        ensures
            match r {
                Some(v) => snapshot_entries(*self).contains_key(*k)
                    && layers_model(v@) == snapshot_entries(*self)[*k],
                None => !snapshot_entries(*self).contains_key(*k),
            },
    {
        self.inner.get(k)
    }

    /// Relies on `hashbrown::HashMap::insert`: sets the stack under `k`.
    #[verifier::external_body]
    pub(crate) fn insert(&mut self, k: B256, v: Vec<RethnetLayer>)
        ensures
            snapshot_entries(*final(self)) == snapshot_entries(*old(self)).insert(
                k,
                layers_model(v@),
            ),
    {
        self.inner.insert(k, v);
    }

    /// Relies on `hashbrown::HashMap::remove`: takes the stack under `k` out.
    #[verifier::external_body]
    pub(crate) fn remove(&mut self, k: &B256) -> (r: Option<Vec<RethnetLayer>>)
        ensures
            snapshot_entries(*final(self)) == snapshot_entries(*old(self)).remove(*k),
            match r {
                Some(v) => snapshot_entries(*old(self)).contains_key(*k)
                    && layers_model(v@) == snapshot_entries(*old(self))[*k],
                None => !snapshot_entries(*old(self)).contains_key(*k),
            },
    {
        self.inner.remove(k)
    }
}

} // verus!
