//! A single account: its ledger-visible fields and its storage.

use vstd::prelude::*;
use crate::primitives::{B256, U256, copy_bytes, digest_eq, empty_code_digest, empty_code_hash, keccak256, keccak_of, zero_u256, zero_word};
use crate::tables::{StorageTable, storage_entries};

verus! {

/// The ledger-visible fields of an account.
#[derive(Clone, Debug)]
pub struct AccountInfo {
    pub balance: U256,
    pub nonce: u64,
    pub code_hash: B256,
    /// Bytecode carried inline; `None` once it is kept in a code table.
    pub code: Option<Vec<u8>>,
}

/// The fields of an account as plain values.
pub struct InfoModel {
    pub balance: U256,
    pub nonce: u64,
    pub code_hash: B256,
    pub code: Option<Seq<u8>>,
}

/// An account as plain values: its fields and its storage slots.
pub struct AccountModel {
    pub info: InfoModel,
    pub storage: Map<U256, U256>,
}

/// Optional bytecode as plain values.
pub open spec fn opt_bytes(c: Option<Vec<u8>>) -> Option<Seq<u8>> {
    match c {
        Some(v) => Some(v@),
        None => None,
    }
}

impl View for AccountInfo {
    type V = InfoModel;

    open spec fn view(&self) -> InfoModel {
        InfoModel {
            balance: self.balance,
            nonce: self.nonce,
            code_hash: self.code_hash,
            code: opt_bytes(self.code),
        }
    }
}

/// The fields of an account that does not exist yet: zero balance, zero
/// nonce, no code.
pub open spec fn default_info(empty: B256) -> InfoModel {
    InfoModel { balance: zero_u256(), nonce: 0, code_hash: empty, code: None }
}

impl AccountInfo {
    /// An account with zero balance, zero nonce and no code.
    pub fn new_default() -> (r: Self)
        ensures
            r@ == default_info(empty_code_digest()),
    {
        AccountInfo { balance: zero_word(), nonce: 0, code_hash: empty_code_hash(), code: None }
    }

    /// An independent copy.
    pub fn duplicate(&self) -> (r: Self)
        ensures
            r@ == self@,
    {
        let code = match &self.code {
            Some(c) => Some(copy_bytes(c)),
            None => None,
        };
        AccountInfo { balance: self.balance, nonce: self.nonce, code_hash: self.code_hash, code }
    }
}

/// An account with its storage.
#[derive(Debug)]
pub struct RethnetAccount {
    pub info: AccountInfo,
    pub storage: StorageTable,
}

impl View for RethnetAccount {
    type V = AccountModel;

    open spec fn view(&self) -> AccountModel {
        AccountModel { info: self.info@, storage: storage_entries(self.storage) }
    }
}

/// An optional account as plain values.
pub open spec fn opt_account_model(a: Option<RethnetAccount>) -> Option<AccountModel> {
    match a {
        Some(acc) => Some(acc@),
        None => None,
    }
}

/// Whether `detach_code` takes the inline code out of an account.
pub open spec fn has_detachable_code(info: InfoModel) -> bool {
    info.code_hash != empty_code_digest() && info.code is Some && info.code.unwrap().len() > 0
}

/// The account once its inline code is kept elsewhere.
pub open spec fn detached(info: InfoModel) -> InfoModel {
    InfoModel { code_hash: keccak_of(info.code.unwrap()), code: None, ..info }
}

impl RethnetAccount {
    /// An account with the given fields and no storage.
    pub fn from_info(info: AccountInfo) -> (r: Self)
        ensures
            r@.info == info@,
            r@.storage.dom() == Set::<U256>::empty(),
    {
        RethnetAccount { info, storage: StorageTable::new() }
    }

    /// An account with zero balance, zero nonce, no code and no storage.
    pub fn new_default() -> (r: Self)
        ensures
            r@ == default_account(),
    {
        let r = Self::from_info(AccountInfo::new_default());
        assert(r@.storage =~= Map::empty());
        r
    }

    /// An independent copy.
    pub fn duplicate(&self) -> (r: Self)
        ensures
            r@ == self@,
    {
        RethnetAccount { info: self.info.duplicate(), storage: self.storage.duplicate() }
    }

    /// Takes the inline code out of the account, if its digest is not that of
    /// empty code and the code is not empty; the digest is then recomputed
    /// from the code. Otherwise returns `None` and leaves the account as it is.
    pub fn split_code(&mut self) -> (r: Option<Vec<u8>>)
        ensures
            has_detachable_code(old(self)@.info) ==> {
                &&& r is Some
                &&& r.unwrap()@ == old(self)@.info.code.unwrap()
                &&& final(self)@.info == detached(old(self)@.info)
            },
            !has_detachable_code(old(self)@.info) ==> r is None && final(self)@.info == old(self)@.info,
            final(self)@.storage == old(self)@.storage,
    {
        let empty = empty_code_hash();
        if digest_eq(&self.info.code_hash, &empty) {
            return None;
        }
        let has_code = match &self.info.code {
            Some(c) => c.len() > 0,
            None => false,
        };
        if !has_code {
            return None;
        }
        let code = self.info.code.take();
        match code {
            Some(c) => {
                self.info.code_hash = keccak256(c.as_slice());
                Some(c)
            },
            None => None,
        }
    }
}

impl Clone for RethnetAccount {
    fn clone(&self) -> Self {
        self.duplicate()
    }
}

/// An account that does not exist yet.
pub open spec fn default_account() -> AccountModel {
    AccountModel { info: default_info(empty_code_digest()), storage: Map::empty() }
}

} // verus!
