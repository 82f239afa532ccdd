//! One copy-on-write layer of accounts and bytecode.

use vstd::prelude::*;
use crate::account::{
    AccountInfo, AccountModel, InfoModel, RethnetAccount, detached, has_detachable_code,
};
use crate::primitives::{
    Address, B256, digest_eq, empty_code_digest, empty_code_hash, is_zero_word, keccak_of,
    word_is_zero,
};
use crate::tables::{AccountTable, CodeTable, account_entries, code_entries};

verus! {

/// A layer: account entries (`None` marks a deleted account), bytecode by
/// digest, and the state root cached when the layer was sealed.
#[derive(Debug)]
pub struct RethnetLayer {
    pub accounts: AccountTable,
    pub contracts: CodeTable,
    pub state_root: Option<B256>,
}

/// A layer as plain values.
pub struct LayerModel {
    pub accounts: Map<Address, Option<AccountModel>>,
    pub contracts: Map<B256, Seq<u8>>,
    pub state_root: Option<B256>,
}

impl View for RethnetLayer {
    type V = LayerModel;

    open spec fn view(&self) -> LayerModel {
        LayerModel {
            accounts: account_entries(self.accounts),
            contracts: code_entries(self.contracts),
            state_root: self.state_root,
        }
    }
}

/// Layers as plain values.
pub open spec fn layers_model(v: Seq<RethnetLayer>) -> Seq<LayerModel> {
    v.map_values(|l: RethnetLayer| l@)
}

/// A layer with no accounts, no bytecode and no cached root.
pub open spec fn empty_layer() -> LayerModel {
    LayerModel { accounts: Map::empty(), contracts: Map::empty(), state_root: None }
}

/// The record of an account as one genesis entry leaves it: inline code is
/// moved out when it can be.
pub open spec fn genesis_record(info: InfoModel) -> AccountModel {
    AccountModel {
        info: if has_detachable_code(info) { detached(info) } else { info },
        storage: Map::empty(),
    }
}

/// The layer built from the first `n` genesis entries; a later entry for an
/// address replaces an earlier one.
pub open spec fn genesis_layer(genesis: Seq<(Address, InfoModel)>) -> LayerModel
    decreases genesis.len(),
{
    if genesis.len() == 0 {
        empty_layer()
    } else {
        let prev = genesis_layer(genesis.drop_last());
        let (a, info) = genesis.last();
        LayerModel {
            accounts: prev.accounts.insert(a, Some(genesis_record(info))),
            contracts: if has_detachable_code(info) {
                prev.contracts.insert(keccak_of(info.code.unwrap()), info.code.unwrap())
            } else {
                prev.contracts
            },
            state_root: None,
        }
    }
}

/// Genesis entries as plain values.
pub open spec fn genesis_models(g: Seq<(Address, AccountInfo)>) -> Seq<(Address, InfoModel)> {
    g.map_values(|e: (Address, AccountInfo)| (e.0, e.1@))
}

/// The digest an inserted account is stored under: a zero digest stands for
/// empty code.
pub open spec fn normalized_hash(h: B256) -> B256 {
    if is_zero_word(h@) { empty_code_digest() } else { h }
}

/// The fields of an account as `insert_account` stores them.
pub open spec fn inserted_info(info: InfoModel) -> InfoModel {
    let n = InfoModel { code_hash: normalized_hash(info.code_hash), ..info };
    if n.code_hash == empty_code_digest() {
        InfoModel { code: Some(Seq::empty()), ..n }
    } else if has_detachable_code(n) {
        detached(n)
    } else {
        n
    }
}

/// The bytecode table once `insert_account` has stored an account's code.
pub open spec fn inserted_contracts(contracts: Map<B256, Seq<u8>>, info: InfoModel) -> Map<B256, Seq<u8>> {
    let n = InfoModel { code_hash: normalized_hash(info.code_hash), ..info };
    if n.code_hash != empty_code_digest() && has_detachable_code(n) {
        contracts.insert(keccak_of(n.code.unwrap()), n.code.unwrap())
    } else {
        contracts
    }
}

impl Clone for RethnetLayer {
    fn clone(&self) -> Self {
        self.duplicate()
    }
}

impl Default for RethnetLayer {
    fn default() -> (r: Self)
        ensures
            r@ == empty_layer(),
    {
        Self::new()
    }
}

impl RethnetLayer {
    /// A layer with no accounts, no bytecode and no cached root.
    pub fn new() -> (r: Self)
        ensures
            r@ == empty_layer(),
    {
        let r = RethnetLayer { accounts: AccountTable::new(), contracts: CodeTable::new(), state_root: None };
        assert(r@.accounts =~= Map::empty());
        assert(r@.contracts =~= Map::empty());
        r
    }

    /// A layer that holds the genesis accounts, each present, with any inline
    /// code moved into the layer's bytecode table under its digest.
    pub fn with_genesis_accounts(genesis_accounts: Vec<(Address, AccountInfo)>) -> (r: Self)
        ensures
            r@ == genesis_layer(genesis_models(genesis_accounts@)),
    {
        let mut layer = RethnetLayer::new();
        let mut i: usize = 0;
        let ghost g = genesis_accounts@;
        while i < genesis_accounts.len()
            invariant
                0 <= i <= g.len(),
                g == genesis_accounts@,
                layer@ == genesis_layer(genesis_models(g.subrange(0, i as int))),
            decreases g.len() - i,
        {
            let address = genesis_accounts[i].0;
            let info = genesis_accounts[i].1.duplicate();
            let mut account = RethnetAccount::from_info(info);
            let code = account.split_code();
            match code {
                Some(c) => {
                    let h = account.info.code_hash;
                    layer.contracts.insert(h, c);
                },
                None => {},
            }
            assert(account@.storage =~= Map::empty());
            layer.accounts.insert(address, Some(account));
            i = i + 1;
            proof {
                let s = genesis_models(g.subrange(0, i as int));
                assert(s.drop_last() =~= genesis_models(g.subrange(0, i - 1)));
                assert(s.last() == (address, info@));
            }
        }
        assert(g.subrange(0, i as int) =~= g);
        layer
    }

    /// Whether the layer has been sealed with a cached state root.
    pub fn has_state_root(&self) -> (r: bool)
        ensures
            r == (self.state_root is Some),
    {
        self.state_root.is_some()
    }

    /// Stores `account` as present under `address`. A zero code digest is
    /// read as the digest of empty code; an account with that digest carries
    /// empty inline code, and one with another digest has its inline code
    /// moved into the layer's bytecode table.
    pub fn insert_account(&mut self, address: Address, account: RethnetAccount)
        ensures
            final(self)@.accounts == old(self)@.accounts.insert(
                address,
                Some(AccountModel { info: inserted_info(account@.info), storage: account@.storage }),
            ),
            final(self)@.contracts == inserted_contracts(old(self)@.contracts, account@.info),
            final(self)@.state_root == old(self)@.state_root,
    {
        let mut account = account;
        if word_is_zero(&account.info.code_hash) {
            account.info.code_hash = empty_code_hash();
        }
        let empty = empty_code_hash();
        if digest_eq(&account.info.code_hash, &empty) {
            account.info.code = Some(Vec::new());
        } else {
            let code = account.split_code();
            match code {
                Some(c) => {
                    let h = account.info.code_hash;
                    self.contracts.insert(h, c);
                },
                None => {},
            }
        }
        self.accounts.insert(address, Some(account));
    }

    /// An independent copy.
    pub fn duplicate(&self) -> (r: Self)
        ensures
            r@ == self@,
    {
        RethnetLayer {
            accounts: self.accounts.duplicate(),
            contracts: self.contracts.duplicate(),
            state_root: self.state_root,
        }
    }
}

} // verus!
