//! The layered state: a stack of copy-on-write layers, with reads that look
//! through the stack top-down, checkpoints, reverts, snapshots and state
//! roots.

use vstd::prelude::*;
use crate::account::{
    AccountInfo, AccountModel, InfoModel, RethnetAccount, default_account, opt_account_model,
    opt_bytes,
};
use crate::layer::{LayerModel, RethnetLayer, empty_layer, layers_model};
use crate::primitives::{Address, B256, U256, digest_eq, empty_code_digest, empty_code_hash, zero_u256, zero_word, is_zero_word, keccak_of, keccak256, word_is_zero};
use crate::tables::storage_entries;
use crate::layer::{inserted_contracts, inserted_info};
use crate::trie::{
    account_leaf, address_pairs_map, rlp_encode_account, sec_trie_root_addresses, state_root_of,
    storage_root, storage_root_of, strip_leading_zeros,
};
use crate::tables::{SnapshotTable, snapshot_entries};

verus! {

/// Why a state operation failed.
#[derive(Debug, PartialEq, Eq)]
pub enum StateError {
    /// No layer holds bytecode under this digest.
    InvalidCodeHash(B256),
    /// Neither a snapshot nor a layer carries this state root.
    InvalidStateRoot(B256),
    /// Only the base layer is left.
    CannotRevert,
}

/// A state made of layers; the last one is the one that changes.
#[derive(Debug)]
pub struct LayeredState {
    stack: Vec<RethnetLayer>,
    /// Copies of the whole stack, keyed by the state root they were taken at.
    snapshots: SnapshotTable,
}

/// A layered state as plain values.
pub struct StateModel {
    pub stack: Seq<LayerModel>,
    pub snapshots: Map<B256, Seq<LayerModel>>,
}

impl View for LayeredState {
    type V = StateModel;

    closed spec fn view(&self) -> StateModel {
        StateModel { stack: layers_model(self.stack@), snapshots: snapshot_entries(self.snapshots) }
    }
}

/// The entry for `a` in the topmost of the first `n` layers that has one.
pub open spec fn lookup(stack: Seq<LayerModel>, n: int, a: Address) -> Option<AccountModel>
    decreases n,
{
    if n <= 0 {
        None
    } else if stack[n - 1].accounts.contains_key(a) {
        stack[n - 1].accounts[a]
    } else {
        lookup(stack, n - 1, a)
    }
}

/// The record of `a` that reads see: the first entry found from the top,
/// `None` if that entry marks a deletion or no layer has one.
pub open spec fn visible_account(stack: Seq<LayerModel>, a: Address) -> Option<AccountModel> {
    lookup(stack, stack.len() as int, a)
}

/// Every account that reads see, with its record.
pub open spec fn visible_accounts(stack: Seq<LayerModel>) -> Map<Address, AccountModel> {
    Map::new(|a: Address| visible_account(stack, a) is Some, |a: Address| visible_account(stack, a).unwrap())
}

/// The bytecode under `h` in the topmost of the first `n` layers that has it.
pub open spec fn code_lookup(stack: Seq<LayerModel>, n: int, h: B256) -> Option<Seq<u8>>
    decreases n,
{
    if n <= 0 {
        None
    } else if stack[n - 1].contracts.contains_key(h) {
        Some(stack[n - 1].contracts[h])
    } else {
        code_lookup(stack, n - 1, h)
    }
}

/// The stack with its top layer replaced.
pub open spec fn set_top(stack: Seq<LayerModel>, layer: LayerModel) -> Seq<LayerModel> {
    stack.update(stack.len() - 1, layer)
}

/// The stack with `entry` stored for `a` in the top layer.
pub open spec fn with_top_entry(stack: Seq<LayerModel>, a: Address, entry: Option<AccountModel>) -> Seq<LayerModel> {
    let t = stack.last();
    set_top(stack, LayerModel { accounts: t.accounts.insert(a, entry), ..t })
}

/// The stack with `code` stored under `h` in the top layer.
pub open spec fn with_top_code(stack: Seq<LayerModel>, h: B256, code: Seq<u8>) -> Seq<LayerModel> {
    let t = stack.last();
    set_top(stack, LayerModel { contracts: t.contracts.insert(h, code), ..t })
}

/// A borrowed optional account as plain values.
pub open spec fn ref_model(r: Option<&RethnetAccount>) -> Option<AccountModel> {
    match r {
        Some(acc) => Some(acc@),
        None => None,
    }
}

/// The record that a write to `a` starts from: the visible one, or that of
/// an account that does not exist yet.
pub open spec fn promoted_record(stack: Seq<LayerModel>, a: Address) -> AccountModel {
    match visible_account(stack, a) {
        Some(rec) => rec,
        None => default_account(),
    }
}

/// The stack once the record of `a` has been brought into the top layer.
pub open spec fn promoted_stack(stack: Seq<LayerModel>, a: Address) -> Seq<LayerModel> {
    with_top_entry(stack, a, Some(promoted_record(stack, a)))
}

/// The stack once `a` has been deleted: an account with code leaves empty
/// bytecode under its digest in the top layer, and the top layer marks the
/// account deleted. Nothing changes for an account that reads do not see.
pub open spec fn removed_stack(stack: Seq<LayerModel>, a: Address) -> Seq<LayerModel> {
    match visible_account(stack, a) {
        None => stack,
        Some(rec) => {
            let s = if rec.info.code_hash != empty_code_digest() {
                with_top_code(stack, rec.info.code_hash, Seq::empty())
            } else {
                stack
            };
            with_top_entry(s, a, None)
        },
    }
}

/// The value of a storage slot as reads see it: zero when unset.
pub open spec fn visible_storage(stack: Seq<LayerModel>, a: Address, index: U256) -> U256 {
    match visible_account(stack, a) {
        Some(rec) => if rec.storage.contains_key(index) { rec.storage[index] } else { zero_u256() },
        None => zero_u256(),
    }
}

/// The changes to one account that a batch commits.
#[derive(Debug)]
pub struct AccountDiff {
    /// The account's new fields.
    pub info: AccountInfo,
    /// New slot values; a zero value unsets the slot.
    pub storage: Vec<(U256, U256)>,
    /// Whether every slot is unset before `storage` applies.
    pub storage_cleared: bool,
    /// Whether the account was destroyed.
    pub is_destroyed: bool,
}

/// A diff as plain values.
pub struct DiffModel {
    pub info: InfoModel,
    pub storage: Seq<(U256, U256)>,
    pub storage_cleared: bool,
    pub is_destroyed: bool,
}

impl View for AccountDiff {
    type V = DiffModel;

    open spec fn view(&self) -> DiffModel {
        DiffModel {
            info: self.info@,
            storage: self.storage@,
            storage_cleared: self.storage_cleared,
            is_destroyed: self.is_destroyed,
        }
    }
}

/// A batch of diffs as plain values.
pub open spec fn batch_model(b: Seq<(Address, AccountDiff)>) -> Seq<(Address, DiffModel)> {
    b.map_values(|e: (Address, AccountDiff)| (e.0, e.1@))
}

/// Whether fields describe an empty account: zero balance, zero nonce, and
/// a code digest that is either that of empty code or zero.
pub open spec fn info_is_empty(info: InfoModel) -> bool {
    &&& is_zero_word(info.balance@)
    &&& info.nonce == 0
    &&& (info.code_hash == empty_code_digest() || is_zero_word(info.code_hash@))
}

/// Slots after writing `slots` in order; a zero value unsets its slot.
pub open spec fn apply_slots(storage: Map<U256, U256>, slots: Seq<(U256, U256)>) -> Map<U256, U256>
    decreases slots.len(),
{
    if slots.len() == 0 {
        storage
    } else {
        slot_written(apply_slots(storage, slots.drop_last()), slots.last().0, slots.last().1)
    }
}

/// Slots after writing `v` under `k`; a zero value unsets the slot.
pub open spec fn slot_written(storage: Map<U256, U256>, k: U256, v: U256) -> Map<U256, U256> {
    if is_zero_word(v@) { storage.remove(k) } else { storage.insert(k, v) }
}

/// A record once a diff has been applied to it.
pub open spec fn updated_record(rec: AccountModel, d: DiffModel) -> AccountModel {
    AccountModel {
        info: d.info,
        storage: apply_slots(if d.storage_cleared { Map::empty() } else { rec.storage }, d.storage),
    }
}

/// The stack once the diff `d` for `a` is committed: an empty or destroyed
/// account is deleted, any other is written into the top layer.
pub open spec fn committed_one(stack: Seq<LayerModel>, a: Address, d: DiffModel) -> Seq<LayerModel> {
    if info_is_empty(d.info) || d.is_destroyed {
        removed_stack(stack, a)
    } else {
        with_top_entry(stack, a, Some(updated_record(promoted_record(stack, a), d)))
    }
}

/// The stack once each diff of the batch is committed in turn.
pub open spec fn committed(stack: Seq<LayerModel>, batch: Seq<(Address, DiffModel)>) -> Seq<LayerModel>
    decreases batch.len(),
{
    if batch.len() == 0 {
        stack
    } else {
        let (a, d) = batch.last();
        committed_one(committed(stack, batch.drop_last()), a, d)
    }
}

/// The fields that `modify_account` hands to its modifier.
pub struct AccountFields {
    pub balance: U256,
    pub nonce: u64,
    pub code: Option<Vec<u8>>,
}

/// Fields as plain values.
pub struct FieldsModel {
    pub balance: U256,
    pub nonce: u64,
    pub code: Option<Seq<u8>>,
}

impl View for AccountFields {
    type V = FieldsModel;

    open spec fn view(&self) -> FieldsModel {
        FieldsModel { balance: self.balance, nonce: self.nonce, code: opt_bytes(self.code) }
    }
}

/// The digest of optional code: that of empty code when there is none.
pub open spec fn digest_of_code(code: Option<Seq<u8>>) -> B256 {
    match code {
        Some(c) => keccak_of(c),
        None => empty_code_digest(),
    }
}

/// The stack once the record of `a` has taken the fields `f`: code with a
/// digest other than that of empty code goes into the top layer's bytecode
/// table, and a replaced digest other than that of empty code is left with
/// empty bytecode.
pub open spec fn modified_stack(stack: Seq<LayerModel>, a: Address, f: FieldsModel) -> Seq<LayerModel> {
    let rec = promoted_record(stack, a);
    let old_hash = rec.info.code_hash;
    let new_hash = digest_of_code(f.code);
    let info = InfoModel {
        balance: f.balance,
        nonce: f.nonce,
        code_hash: new_hash,
        code: if new_hash != empty_code_digest() { None } else { f.code },
    };
    let s1 = with_top_entry(stack, a, Some(AccountModel { info, storage: rec.storage }));
    let s2 = if new_hash != empty_code_digest() { with_top_code(s1, new_hash, f.code.unwrap()) } else { s1 };
    if old_hash != empty_code_digest() && old_hash != new_hash {
        with_top_code(s2, old_hash, Seq::empty())
    } else {
        s2
    }
}

/// Whether a layer at an index in `[from, stack.len())` has an entry for `a`.
pub open spec fn mentioned_from(stack: Seq<LayerModel>, from: int, a: Address) -> bool {
    exists|j: int| from <= j < stack.len() && #[trigger] stack[j].accounts.contains_key(a)
}

/// The state root over the accounts that reads see.
pub open spec fn root_of_stack(stack: Seq<LayerModel>) -> B256 {
    state_root_of(visible_accounts(stack))
}

/// The stack with the top layer carrying `root` as its cached root.
pub open spec fn sealed(stack: Seq<LayerModel>, root: B256) -> Seq<LayerModel> {
    set_top(stack, LayerModel { state_root: Some(root), ..stack.last() })
}

/// The stack with its top layer sealed, if it was not yet.
pub open spec fn sealed_if_open(stack: Seq<LayerModel>) -> Seq<LayerModel> {
    if stack.last().state_root is Some { stack } else { sealed(stack, root_of_stack(stack)) }
}

/// The root the top layer carries once sealed.
pub open spec fn top_root(stack: Seq<LayerModel>) -> B256 {
    sealed_if_open(stack).last().state_root.unwrap()
}

/// Every layer below the top one carries a cached root.
pub open spec fn sealed_below_top(stack: Seq<LayerModel>) -> bool {
    forall|i: int| 0 <= i < stack.len() - 1 ==> (#[trigger] stack[i]).state_root is Some
}

/// Whether layer `i` is the lowest whose cached root is `root`.
pub open spec fn first_layer_with_root(stack: Seq<LayerModel>, i: int, root: B256) -> bool {
    &&& 0 <= i < stack.len()
    &&& stack[i].state_root == Some(root)
    &&& forall|j: int| 0 <= j < i ==> (#[trigger] stack[j]).state_root != Some(root)
}

/// Lookups through layers above `m` that have no entry for `a` end where
/// they would from layer `m`.
pub proof fn lemma_lookup_skip(stack: Seq<LayerModel>, n: int, m: int, a: Address)
    requires
        0 <= m <= n <= stack.len(),
        forall|j: int| m <= j < n ==> !(#[trigger] stack[j].accounts.contains_key(a)),
    ensures
        lookup(stack, n, a) == lookup(stack, m, a),
    decreases n - m,
{
    if n > m {
        lemma_lookup_skip(stack, n - 1, m, a);
    }
}

/// Lookups depend on the account entries of the layers alone.
pub proof fn lemma_lookup_same_accounts(s: Seq<LayerModel>, t: Seq<LayerModel>, n: int, a: Address)
    requires
        0 <= n <= s.len(),
        n <= t.len(),
        forall|j: int| 0 <= j < n ==> (#[trigger] s[j]).accounts == t[j].accounts,
    ensures
        lookup(s, n, a) == lookup(t, n, a),
    decreases n,
{
    if n > 0 {
        assert(s[n - 1].accounts == t[n - 1].accounts);
        lemma_lookup_same_accounts(s, t, n - 1, a);
    }
}

impl Default for LayeredState {
    fn default() -> (r: Self)
        ensures
            r.wf(),
            r@.stack == seq![empty_layer()],
            r@.snapshots.dom() == Set::<B256>::empty(),
    {
        Self::new()
    }
}

impl LayeredState {
    /// The stack is never empty, nor is any stored snapshot.
    pub closed spec fn wf(&self) -> bool {
        &&& self.stack@.len() >= 1
        &&& forall|k: B256| #[trigger] snapshot_entries(self.snapshots).contains_key(k)
            ==> snapshot_entries(self.snapshots)[k].len() >= 1
    }

    /// A state with `layer` as its only layer and no snapshots.
    pub fn with_layer(layer: RethnetLayer) -> (r: Self)
        ensures
            r.wf(),
            r@.stack == seq![layer@],
            r@.snapshots.dom() == Set::<B256>::empty(),
    {
        let mut stack: Vec<RethnetLayer> = Vec::new();
        let ghost l = layer@;
        stack.push(layer);
        let r = LayeredState { stack, snapshots: SnapshotTable::new() };
        assert(r@.stack =~= seq![l]);
        r
    }

    /// A state with one empty layer and no snapshots.
    pub fn new() -> (r: Self)
        ensures
            r.wf(),
            r@.stack == seq![empty_layer()],
            r@.snapshots.dom() == Set::<B256>::empty(),
    {
        Self::with_layer(RethnetLayer::new())
    }

    /// The index of the top layer.
    pub fn last_layer_id(&self) -> (r: usize)
        requires
            self.wf(),
        ensures
            r == self@.stack.len() - 1,
    {
        self.stack.len() - 1
    }

    /// The top layer, to change in place.
    pub fn last_layer_mut(&mut self) -> (r: &mut RethnetLayer)
        requires
            old(self).wf(),
        ensures
            final(self).wf(),
            (*r)@ == old(self)@.stack.last(),
            final(self)@.stack == old(self)@.stack.update(old(self)@.stack.len() - 1, (*final(r))@),
            final(self)@.snapshots == old(self)@.snapshots,
    {
        let n = self.stack.len();
        assert(self@.snapshots == old(self)@.snapshots);
        &mut self.stack[n - 1]
    }

    /// Puts `layer` on top; returns its index and the layer, to change in
    /// place.
    pub fn add_layer(&mut self, layer: RethnetLayer) -> (r: (usize, &mut RethnetLayer))
        requires
            old(self).wf(),
        ensures
            final(self).wf(),
            r.0 == old(self)@.stack.len(),
            (*r.1)@ == layer@,
            final(self)@.stack == old(self)@.stack.push((*final(r.1))@),
            final(self)@.snapshots == old(self)@.snapshots,
    {
        let id = self.stack.len();
        self.stack.push(layer);
        (id, self.last_layer_mut())
    }

    /// Puts an empty layer on top; returns its index and the layer, to
    /// change in place.
    pub fn add_layer_default(&mut self) -> (r: (usize, &mut RethnetLayer))
        requires
            old(self).wf(),
        ensures
            final(self).wf(),
            r.0 == old(self)@.stack.len(),
            (*r.1)@ == empty_layer(),
            final(self)@.stack == old(self)@.stack.push((*final(r.1))@),
            final(self)@.snapshots == old(self)@.snapshots,
    {
        self.add_layer(RethnetLayer::new())
    }

    /// Drops every layer above `layer_id`.
    pub fn revert_to_layer(&mut self, layer_id: usize)
        requires
            old(self).wf(),
            layer_id < old(self)@.stack.len(),
        ensures
            final(self).wf(),
            final(self)@.stack == old(self)@.stack.subrange(0, layer_id + 1),
            final(self)@.snapshots == old(self)@.snapshots,
    {
        let n = self.stack.len();
        assert(old(self)@.stack.len() == n);
        self.stack.truncate(layer_id + 1);
        assert(self@.stack =~= old(self)@.stack.subrange(0, layer_id + 1));
    }

    /// The layers from the top one down to the base.
    pub fn iter(&self) -> (r: Vec<&RethnetLayer>)
        ensures
            r@.len() == self@.stack.len(),
            forall|i: int| 0 <= i < r@.len() ==> (*r@[i])@ == self@.stack[self@.stack.len() - 1 - i],
    {
        let mut r: Vec<&RethnetLayer> = Vec::new();
        let mut i: usize = self.stack.len();
        while i > 0
            invariant
                0 <= i <= self.stack@.len(),
                r@.len() == self.stack@.len() - i,
                forall|j: int| 0 <= j < r@.len() ==> *r@[j] == self.stack@[self.stack@.len() - 1 - j],
            decreases i,
        {
            i = i - 1;
            r.push(&self.stack[i]);
        }
        r
    }

    /// Stores `entry` for `a` in the top layer.
    fn put_top_entry(&mut self, a: Address, entry: Option<RethnetAccount>)
        requires
            old(self).wf(),
        ensures
            final(self).wf(),
            final(self)@.stack == with_top_entry(old(self)@.stack, a, opt_account_model(entry)),
            final(self)@.snapshots == old(self)@.snapshots,
    {
        let mut top = self.stack.pop().unwrap();
        top.accounts.insert(a, entry);
        self.stack.push(top);
        assert(self@.stack =~= with_top_entry(old(self)@.stack, a, opt_account_model(entry)));
    }

    /// Stores `code` under `h` in the top layer.
    fn put_top_code(&mut self, h: B256, code: Vec<u8>)
        requires
            old(self).wf(),
        ensures
            final(self).wf(),
            final(self)@.stack == with_top_code(old(self)@.stack, h, code@),
            final(self)@.snapshots == old(self)@.snapshots,
    {
        let mut top = self.stack.pop().unwrap();
        top.contracts.insert(h, code);
        self.stack.push(top);
        assert(self@.stack =~= with_top_code(old(self)@.stack, h, code@));
    }

    /// The record of `address` that reads see, if the account exists.
    pub fn account(&self, address: &Address) -> (r: Option<&RethnetAccount>)
        ensures
            ref_model(r) == visible_account(self@.stack, *address),
    {
        let ghost s = self@.stack;
        let mut i: usize = self.stack.len();
        while i > 0
            invariant
                0 <= i <= self.stack@.len(),
                s == self@.stack,
                lookup(s, i as int, *address) == visible_account(s, *address),
            decreases i,
        {
            match self.stack[i - 1].accounts.get(address) {
                Some(entry) => {
                    return entry.as_ref();
                },
                None => {},
            }
            i = i - 1;
        }
        None
    }

    /// Brings the record of `address` into the top layer if reads see it
    /// and the top layer has no entry for it; returns the top layer's
    /// entry, to change in place, or `None` if there is none and reads see
    /// no record.
    pub fn account_mut(&mut self, address: &Address) -> (r: Option<&mut Option<RethnetAccount>>)
        requires
            old(self).wf(),
        ensures
            final(self).wf(),
            final(self)@.snapshots == old(self)@.snapshots,
            old(self)@.stack.last().accounts.contains_key(*address) ==> {
                &&& r is Some
                &&& opt_account_model(*r.unwrap()) == old(self)@.stack.last().accounts[*address]
                &&& final(self)@.stack == with_top_entry(
                    old(self)@.stack,
                    *address,
                    opt_account_model(*final(r.unwrap())),
                )
            },
            !old(self)@.stack.last().accounts.contains_key(*address) ==> match visible_account(old(self)@.stack, *address) {
                Some(rec) => {
                    &&& r is Some
                    &&& opt_account_model(*r.unwrap()) == Some(rec)
                    &&& final(self)@.stack == with_top_entry(
                        promoted_stack(old(self)@.stack, *address),
                        *address,
                        opt_account_model(*final(r.unwrap())),
                    )
                },
                None => final(self)@.stack == old(self)@.stack && r is None,
            },
    {
        let n = self.stack.len();
        if self.stack[n - 1].accounts.contains_key(address) {
            let top = self.last_layer_mut();
            return Some(top.accounts.get_mut(address));
        }
        let copy = match self.account(address) {
            Some(acc) => acc.duplicate(),
            None => {
                return None;
            },
        };
        self.put_top_entry(*address, Some(copy));
        let top = self.last_layer_mut();
        Some(top.accounts.get_mut(address))
    }

    /// Brings the record of `address` into the top layer, or a new account
    /// if reads see none (also where the top layer marks it deleted);
    /// returns the record in the top layer, to change in place.
    pub fn account_or_insert_mut(&mut self, address: &Address) -> (r: &mut RethnetAccount)
        requires
            old(self).wf(),
        ensures
            (*r)@ == promoted_record(old(self)@.stack, *address),
            final(self).wf(),
            final(self)@.snapshots == old(self)@.snapshots,
            final(self)@.stack == with_top_entry(
                promoted_stack(old(self)@.stack, *address),
                *address,
                Some((*final(r))@),
            ),
    {
        let record = match self.account(address) {
            Some(acc) => acc.duplicate(),
            None => RethnetAccount::new_default(),
        };
        self.put_top_entry(*address, Some(record));
        let top = self.last_layer_mut();
        let entry = top.accounts.get_mut(address);
        entry.as_mut().unwrap()
    }

    /// Brings the record of `address` into the top layer, as
    /// `account_or_insert_mut` does; returns a copy of it.
    fn promote_record(&mut self, address: &Address) -> (r: RethnetAccount)
        requires
            old(self).wf(),
        ensures
            final(self).wf(),
            final(self)@.snapshots == old(self)@.snapshots,
            final(self)@.stack == promoted_stack(old(self)@.stack, *address),
            r@ == promoted_record(old(self)@.stack, *address),
    {
        let record = match self.account(address) {
            Some(acc) => acc.duplicate(),
            None => RethnetAccount::new_default(),
        };
        let stored = record.duplicate();
        self.put_top_entry(*address, Some(stored));
        record
    }

    /// Deletes `address`: the top layer marks it deleted and, if it had
    /// code, holds empty bytecode under the old digest. Returns the fields
    /// that reads saw, or `None` (changing nothing) if they saw no account.
    pub fn remove_account(&mut self, address: &Address) -> (r: Option<AccountInfo>)
        requires
            old(self).wf(),
        ensures
            final(self).wf(),
            final(self)@.snapshots == old(self)@.snapshots,
            final(self)@.stack == removed_stack(old(self)@.stack, *address),
            match visible_account(old(self)@.stack, *address) {
                Some(rec) => r is Some && r.unwrap()@ == rec.info,
                None => r is None,
            },
    {
        let (info, hash) = match self.account(address) {
            Some(acc) => (acc.info.duplicate(), acc.info.code_hash),
            None => {
                return None;
            },
        };
        let empty = empty_code_hash();
        if !digest_eq(&hash, &empty) {
            self.put_top_code(hash, Vec::new());
        }
        self.put_top_entry(*address, None);
        Some(info)
    }

    /// The fields of `address` as reads see them; an account that does not
    /// exist reads as zero balance, zero nonce and no code.
    pub fn basic(&self, address: Address) -> (r: Result<Option<AccountInfo>, StateError>)
        ensures
            r is Ok,
            r.unwrap() is Some,
            r.unwrap().unwrap()@ == promoted_record(self@.stack, address).info,
    {
        match self.account(&address) {
            Some(acc) => Ok(Some(acc.info.duplicate())),
            None => Ok(Some(AccountInfo::new_default())),
        }
    }

    /// The bytecode under `code_hash` in the topmost layer that has it.
    pub fn code_by_hash(&self, code_hash: B256) -> (r: Result<Vec<u8>, StateError>)
        ensures
            match code_lookup(self@.stack, self@.stack.len() as int, code_hash) {
                Some(code) => r is Ok && r.unwrap()@ == code,
                None => r == Err::<Vec<u8>, StateError>(StateError::InvalidCodeHash(code_hash)),
            },
    {
        let ghost s = self@.stack;
        let mut i: usize = self.stack.len();
        while i > 0
            invariant
                0 <= i <= self.stack@.len(),
                s == self@.stack,
                code_lookup(s, i as int, code_hash) == code_lookup(s, s.len() as int, code_hash),
            decreases i,
        {
            match self.stack[i - 1].contracts.get(&code_hash) {
                Some(code) => {
                    return Ok(code);
                },
                None => {},
            }
            i = i - 1;
        }
        Err(StateError::InvalidCodeHash(code_hash))
    }

    /// The value of a storage slot; zero when the account or the slot is
    /// unset.
    pub fn storage(&self, address: Address, index: U256) -> (r: Result<U256, StateError>)
        ensures
            r == Ok::<U256, StateError>(visible_storage(self@.stack, address, index)),
    {
        match self.account(&address) {
            Some(acc) => match acc.storage.get(&index) {
                Some(v) => Ok(v),
                None => Ok(zero_word()),
            },
            None => Ok(zero_word()),
        }
    }

    /// The storage root of `address`, if reads see the account.
    pub fn account_storage_root(&self, address: &Address) -> (r: Result<Option<B256>, StateError>)
        ensures
            r == Ok::<Option<B256>, StateError>(match visible_account(self@.stack, *address) {
                Some(rec) => Some(storage_root_of(rec.storage)),
                None => None,
            }),
    {
        match self.account(address) {
            Some(acc) => Ok(Some(storage_root(&acc.storage))),
            None => Ok(None),
        }
    }

    /// Stores an account with the given fields and no storage in the top
    /// layer, as the layer's own `insert_account` does.
    pub fn insert_account(&mut self, address: Address, account_info: AccountInfo) -> (r: Result<(), StateError>)
        requires
            old(self).wf(),
        ensures
            r is Ok,
            final(self).wf(),
            final(self)@.snapshots == old(self)@.snapshots,
            final(self)@.stack == set_top(old(self)@.stack, LayerModel {
                accounts: old(self)@.stack.last().accounts.insert(
                    address,
                    Some(AccountModel { info: inserted_info(account_info@), storage: Map::empty() }),
                ),
                contracts: inserted_contracts(old(self)@.stack.last().contracts, account_info@),
                ..old(self)@.stack.last()
            }),
    {
        let account = RethnetAccount::from_info(account_info);
        assert(account@.storage =~= Map::empty());
        let mut top = self.stack.pop().unwrap();
        top.insert_account(address, account);
        self.stack.push(top);
        assert(self@.stack =~= set_top(old(self)@.stack, LayerModel {
            accounts: old(self)@.stack.last().accounts.insert(
                address,
                Some(AccountModel { info: inserted_info(account_info@), storage: Map::empty() }),
            ),
            contracts: inserted_contracts(old(self)@.stack.last().contracts, account_info@),
            ..old(self)@.stack.last()
        }));
        Ok(())
    }

    /// Commits the diff `d` for `address`.
    fn commit_one(&mut self, address: &Address, d: &AccountDiff)
        requires
            old(self).wf(),
        ensures
            final(self).wf(),
            final(self)@.snapshots == old(self)@.snapshots,
            final(self)@.stack == committed_one(old(self)@.stack, *address, d@),
    {
        let empty = empty_code_hash();
        let no_code = digest_eq(&d.info.code_hash, &empty) || word_is_zero(&d.info.code_hash);
        if d.is_destroyed || (word_is_zero(&d.info.balance) && d.info.nonce == 0 && no_code) {
            self.remove_account(address);
            return;
        }
        let ghost s0 = self@.stack;
        let mut record = self.promote_record(address);
        record.info = d.info.duplicate();
        if d.storage_cleared {
            record.storage.clear();
            assert(storage_entries(record.storage) =~= Map::empty());
        }
        let ghost base = storage_entries(record.storage);
        let mut j: usize = 0;
        while j < d.storage.len()
            invariant
                0 <= j <= d.storage@.len(),
                storage_entries(record.storage) == apply_slots(base, d.storage@.subrange(0, j as int)),
                record@.info == d@.info,
            decreases d.storage@.len() - j,
        {
            let (k, v) = d.storage[j];
            if word_is_zero(&v) {
                record.storage.remove(&k);
            } else {
                record.storage.insert(k, v);
            }
            j = j + 1;
            assert(d.storage@.subrange(0, j as int).drop_last() =~= d.storage@.subrange(0, j - 1));
        }
        assert(d.storage@.subrange(0, j as int) =~= d.storage@);
        self.put_top_entry(*address, Some(record));
        assert(self@.stack =~= committed_one(s0, *address, d@)) by {
            assert(self@.stack.last().accounts =~= committed_one(s0, *address, d@).last().accounts);
        }
    }

    /// Commits a batch of diffs, each in turn.
    pub fn commit(&mut self, changes: Vec<(Address, AccountDiff)>)
        requires
            old(self).wf(),
        ensures
            final(self).wf(),
            final(self)@.snapshots == old(self)@.snapshots,
            final(self)@.stack == committed(old(self)@.stack, batch_model(changes@)),
    {
        let mut i: usize = 0;
        while i < changes.len()
            invariant
                0 <= i <= changes@.len(),
                self.wf(),
                self@.snapshots == old(self)@.snapshots,
                self@.stack == committed(old(self)@.stack, batch_model(changes@.subrange(0, i as int))),
            decreases changes@.len() - i,
        {
            let address = changes[i].0;
            self.commit_one(&address, &changes[i].1);
            i = i + 1;
            assert(batch_model(changes@.subrange(0, i as int)).drop_last() =~= batch_model(changes@.subrange(0, i - 1)));
        }
        assert(changes@.subrange(0, i as int) =~= changes@);
    }

    /// Sets the fields of `address` to what `modifier` makes of them,
    /// starting from the record that a write starts from. Code with a digest
    /// other than that of empty code is kept in the top layer's bytecode
    /// table; a replaced digest is left with empty bytecode there.
    pub fn modify_account<F: Fn(AccountFields) -> AccountFields>(
        &mut self,
        address: Address,
        modifier: F,
    ) -> (r: Result<(), StateError>)
        requires
            old(self).wf(),
            forall|f: AccountFields| #[trigger] modifier.requires((f,)),
        ensures
            r is Ok,
            final(self).wf(),
            final(self)@.snapshots == old(self)@.snapshots,
            exists|input: AccountFields, output: AccountFields| {
                &&& input@ == (FieldsModel {
                    balance: promoted_record(old(self)@.stack, address).info.balance,
                    nonce: promoted_record(old(self)@.stack, address).info.nonce,
                    code: promoted_record(old(self)@.stack, address).info.code,
                })
                &&& modifier.ensures((input,), output)
                &&& final(self)@.stack == modified_stack(old(self)@.stack, address, output@)
            },
    {
        let ghost s0 = self@.stack;
        let record = self.promote_record(&address);
        let old_hash = record.info.code_hash;
        let input = AccountFields {
            balance: record.info.balance,
            nonce: record.info.nonce,
            code: match &record.info.code {
                Some(c) => Some(crate::primitives::copy_bytes(c)),
                None => None,
            },
        };
        let output = modifier(input);
        let empty = empty_code_hash();
        let new_hash = match &output.code {
            Some(c) => keccak256(c.as_slice()),
            None => empty,
        };
        let detach = !digest_eq(&new_hash, &empty);
        let ghost out_model = output@;
        let AccountFields { balance, nonce, code } = output;
        let (inline, moved) = if detach { (None, code) } else { (code, None) };
        let info = AccountInfo { balance, nonce, code_hash: new_hash, code: inline };
        let updated = RethnetAccount { info, storage: record.storage };
        self.put_top_entry(address, Some(updated));
        let ghost s1 = self@.stack;
        assert(s1 =~= with_top_entry(s0, address, Some(AccountModel {
            info: InfoModel {
                balance: out_model.balance,
                nonce: out_model.nonce,
                code_hash: new_hash,
                code: if new_hash != empty_code_digest() { None } else { out_model.code },
            },
            storage: promoted_record(s0, address).storage,
        }))) by {
            assert(s1.last().accounts =~= with_top_entry(s0, address, Some(AccountModel {
                info: InfoModel {
                    balance: out_model.balance,
                    nonce: out_model.nonce,
                    code_hash: new_hash,
                    code: if new_hash != empty_code_digest() { None } else { out_model.code },
                },
                storage: promoted_record(s0, address).storage,
            })).last().accounts);
        }
        match moved {
            Some(c) => self.put_top_code(new_hash, c),
            None => {},
        }
        if !digest_eq(&old_hash, &empty) && !digest_eq(&old_hash, &new_hash) {
            self.put_top_code(old_hash, Vec::new());
        }
        assert(self@.stack == modified_stack(s0, address, out_model));
        Ok(())
    }

    /// Whether a layer above `i` has an entry for `a`.
    fn mentioned_above(&self, i: usize, a: &Address) -> (r: bool)
        requires
            i < self@.stack.len(),
        ensures
            r == mentioned_from(self@.stack, i + 1, *a),
    {
        let n = self.stack.len();
        let mut j: usize = i + 1;
        while j < n
            invariant
                i + 1 <= j <= n,
                n == self@.stack.len(),
                forall|k: int| i + 1 <= k < j ==> !(#[trigger] self@.stack[k].accounts.contains_key(*a)),
            decreases n - j,
        {
            if self.stack[j].accounts.contains_key(a) {
                assert(self@.stack[j as int].accounts.contains_key(*a));
                return true;
            }
            j = j + 1;
        }
        false
    }

    /// The state root over the accounts that reads see: each address takes
    /// its entry in the topmost layer that has one, and deleted accounts
    /// are left out.
    pub fn state_root(&self) -> (r: Result<B256, StateError>)
        ensures
            r == Ok::<B256, StateError>(root_of_stack(self@.stack)),
    {
        let ghost s = self@.stack;
        let ghost n = s.len() as int;
        let ghost target = Map::new(
            |a: Address| visible_account(s, a) is Some,
            |a: Address| account_leaf(visible_account(s, a).unwrap()),
        );
        let mut out: Vec<(Address, Vec<u8>)> = Vec::new();
        let mut i: usize = self.stack.len();
        while i > 0
            invariant
                0 <= i <= n,
                n == self.stack@.len(),
                s == self@.stack,
                forall|p: int, q: int| 0 <= p < q < out@.len() ==> out@[p].0 != out@[q].0,
                forall|p: int| 0 <= p < out@.len() ==> mentioned_from(s, i as int, #[trigger] out@[p].0),
                address_pairs_map(out@) == Map::new(
                    |a: Address| visible_account(s, a) is Some && mentioned_from(s, i as int, a),
                    |a: Address| account_leaf(visible_account(s, a).unwrap()),
                ),
            decreases i,
        {
            i = i - 1;
            let keys = self.stack[i].accounts.keys();
            let ghost li = s[i as int].accounts;
            let mut k: usize = 0;
            while k < keys.len()
                invariant
                    0 <= i < n,
                    0 <= k <= keys@.len(),
                    n == self.stack@.len(),
                    s == self@.stack,
                    li == s[i as int].accounts,
                    keys@.no_duplicates(),
                    forall|a: Address| li.contains_key(a) <==> #[trigger] keys@.contains(a),
                    forall|p: int, q: int| 0 <= p < q < out@.len() ==> out@[p].0 != out@[q].0,
                    forall|p: int| 0 <= p < out@.len() ==> mentioned_from(s, i + 1, #[trigger] out@[p].0)
                        || keys@.subrange(0, k as int).contains(out@[p].0),
                    address_pairs_map(out@) == Map::new(
                        |a: Address| visible_account(s, a) is Some
                            && (mentioned_from(s, i + 1, a) || keys@.subrange(0, k as int).contains(a)),
                        |a: Address| account_leaf(visible_account(s, a).unwrap()),
                    ),
                decreases keys@.len() - k,
            {
                let a = keys[k];
                let ghost prev = out@;
                assert(keys@.contains(a));
                if !self.mentioned_above(i, &a) {
                    proof {
                        lemma_lookup_skip(s, n, i + 1, a);
                    }
                    match self.stack[i].accounts.get(&a) {
                        Some(Some(acc)) => {
                            let sr = storage_root(&acc.storage);
                            let balance = strip_leading_zeros(&acc.info.balance);
                            let leaf = rlp_encode_account(acc.info.nonce, balance.as_slice(), &sr, &acc.info.code_hash);
                            out.push((a, leaf));
                            proof {
                                assert(out@.drop_last() =~= prev);
                                assert forall|p: int| 0 <= p < out@.len() - 1 implies out@[p].0 != a by {
                                    if out@[p].0 == a && !mentioned_from(s, i + 1, out@[p].0) {
                                        assert(keys@.subrange(0, k as int).contains(out@[p].0));
                                        let w = choose|w: int| 0 <= w < k && keys@.subrange(0, k as int)[w] == out@[p].0;
                                        assert(keys@[w] == keys@[k as int]);
                                    }
                                }
                            }
                        },
                        _ => {},
                    }
                }
                k = k + 1;
                proof {
                    let sub = keys@.subrange(0, k as int);
                    assert(sub =~= keys@.subrange(0, k - 1).push(a));
                    assert forall|p: int| 0 <= p < out@.len() implies mentioned_from(s, i + 1, #[trigger] out@[p].0)
                        || sub.contains(out@[p].0) by {
                        if p < prev.len() {
                            if !mentioned_from(s, i + 1, out@[p].0) {
                                assert(keys@.subrange(0, k - 1).contains(out@[p].0));
                            }
                        } else {
                            assert(sub[k - 1] == a);
                        }
                    }
                    assert(address_pairs_map(out@) =~= Map::new(
                        |b: Address| visible_account(s, b) is Some
                            && (mentioned_from(s, i + 1, b) || sub.contains(b)),
                        |b: Address| account_leaf(visible_account(s, b).unwrap()),
                    )) by {
                        assert forall|b: Address| (mentioned_from(s, i + 1, b) || sub.contains(b))
                            == (mentioned_from(s, i + 1, b) || keys@.subrange(0, k - 1).contains(b) || b == a) by {
                            if b == a {
                                assert(sub[k - 1] == a);
                            }
                            if sub.contains(b) && b != a {
                                let w = choose|w: int| 0 <= w < sub.len() && sub[w] == b;
                                assert(keys@.subrange(0, k - 1)[w] == b);
                            }
                        }
                        if mentioned_from(s, i + 1, a) {
                        } else {
                            assert(li.contains_key(a));
                        }
                    }
                }
            }
            proof {
                assert forall|b: Address| (mentioned_from(s, i + 1, b) || keys@.subrange(0, k as int).contains(b))
                    == mentioned_from(s, i as int, b) by {
                    assert(keys@.subrange(0, k as int) =~= keys@);
                    if mentioned_from(s, i as int, b) && !mentioned_from(s, i + 1, b) {
                        let j = choose|j: int| i <= j < s.len() && #[trigger] s[j].accounts.contains_key(b);
                        assert(j == i);
                        assert(keys@.contains(b));
                    }
                    if keys@.contains(b) {
                        assert(s[i as int].accounts.contains_key(b));
                    }
                }
                assert(address_pairs_map(out@) =~= Map::new(
                    |a: Address| visible_account(s, a) is Some && mentioned_from(s, i as int, a),
                    |a: Address| account_leaf(visible_account(s, a).unwrap()),
                ));
            }
        }
        proof {
            assert forall|a: Address| visible_account(s, a) is Some implies mentioned_from(s, 0, a) by {
                if !mentioned_from(s, 0, a) {
                    lemma_lookup_skip(s, n, 0, a);
                }
            }
            assert(address_pairs_map(out@) =~= target);
            assert(target =~= Map::new(
                |a: Address| visible_accounts(s).contains_key(a),
                |a: Address| account_leaf(visible_accounts(s)[a]),
            ));
        }
        Ok(sec_trie_root_addresses(out))
    }

    /// Stores `root` as the top layer's cached root.
    fn seal_top(&mut self, root: B256)
        requires
            old(self).wf(),
        ensures
            final(self).wf(),
            final(self)@.stack == sealed(old(self)@.stack, root),
            final(self)@.snapshots == old(self)@.snapshots,
    {
        let mut top = self.stack.pop().unwrap();
        top.state_root = Some(root);
        self.stack.push(top);
        assert(self@.stack =~= sealed(old(self)@.stack, root));
    }

    /// Seals the top layer with the current state root unless it already
    /// carries one; returns the top layer's root.
    fn ensure_top_root(&mut self) -> (r: B256)
        requires
            old(self).wf(),
        ensures
            final(self).wf(),
            final(self)@.stack == sealed_if_open(old(self)@.stack),
            final(self)@.snapshots == old(self)@.snapshots,
            r == top_root(old(self)@.stack),
    {
        let n = self.stack.len();
        match self.stack[n - 1].state_root {
            Some(root) => root,
            None => {
                let root = match self.state_root() {
                    Ok(root) => root,
                    Err(_) => {
                        return zero_word();
                    },
                };
                self.seal_top(root);
                root
            },
        }
    }

    /// Whether every layer below the top one carries a cached root.
    pub fn layers_below_top_sealed(&self) -> (r: bool)
        ensures
            r == sealed_below_top(self@.stack),
    {
        let n = self.stack.len();
        let mut i: usize = 1;
        while i < n
            invariant
                n == self@.stack.len(),
                1 <= i,
                i <= n || n == 0,
                forall|j: int| 0 <= j < i - 1 ==> (#[trigger] self@.stack[j]).state_root is Some,
            decreases n - i,
        {
            if self.stack[i - 1].state_root.is_none() {
                assert(self@.stack[i - 1].state_root is None);
                return false;
            }
            i = i + 1;
        }
        true
    }

    /// Seals the top layer with the current state root and opens an empty
    /// layer above it.
    pub fn checkpoint(&mut self) -> (r: Result<(), StateError>)
        requires
            old(self).wf(),
        ensures
            r is Ok,
            final(self).wf(),
            final(self)@.snapshots == old(self)@.snapshots,
            final(self)@.stack == sealed(old(self)@.stack, root_of_stack(old(self)@.stack)).push(empty_layer()),
    {
        let root = match self.state_root() {
            Ok(root) => root,
            Err(e) => {
                return Err(e);
            },
        };
        self.seal_top(root);
        let ghost sealed_stack = self@.stack;
        let (_, _top) = self.add_layer_default();
        assert(self@.stack =~= sealed_stack.push(empty_layer()));
        Ok(())
    }

    /// Drops the top layer; the base layer cannot be dropped.
    pub fn revert(&mut self) -> (r: Result<(), StateError>)
        requires
            old(self).wf(),
        ensures
            final(self).wf(),
            final(self)@.snapshots == old(self)@.snapshots,
            old(self)@.stack.len() > 1 ==> r is Ok && final(self)@.stack == old(self)@.stack.subrange(
                0,
                old(self)@.stack.len() - 1,
            ),
            old(self)@.stack.len() == 1 ==> r == Err::<(), StateError>(StateError::CannotRevert)
                && final(self)@.stack == old(self)@.stack,
    {
        let last_layer_id = self.last_layer_id();
        if last_layer_id > 0 {
            self.revert_to_layer(last_layer_id - 1);
            Ok(())
        } else {
            Err(StateError::CannotRevert)
        }
    }

    /// Independent copies of the given layers.
    fn copy_layers(layers: &Vec<RethnetLayer>) -> (r: Vec<RethnetLayer>)
        ensures
            layers_model(r@) == layers_model(layers@),
    {
        let mut r: Vec<RethnetLayer> = Vec::new();
        let mut i: usize = 0;
        while i < layers.len()
            invariant
                0 <= i <= layers@.len(),
                r@.len() == i,
                forall|j: int| 0 <= j < i ==> (#[trigger] r@[j])@ == layers@[j]@,
            decreases layers@.len() - i,
        {
            r.push(layers[i].duplicate());
            i = i + 1;
        }
        assert(layers_model(r@) =~= layers_model(layers@));
        r
    }

    /// Seals the top layer if it is open, then stores a copy of the whole
    /// stack under the top layer's root unless a snapshot is already stored
    /// there. Returns the root and whether a snapshot was already stored.
    pub fn make_snapshot(&mut self) -> (r: (B256, bool))
        requires
            old(self).wf(),
        ensures
            final(self).wf(),
            r.0 == top_root(old(self)@.stack),
            r.1 == old(self)@.snapshots.contains_key(r.0),
            final(self)@.stack == sealed_if_open(old(self)@.stack),
            final(self)@.snapshots == (if r.1 {
                old(self)@.snapshots
            } else {
                old(self)@.snapshots.insert(r.0, final(self)@.stack)
            }),
    {
        let root = self.ensure_top_root();
        if self.snapshots.contains_key(&root) {
            (root, true)
        } else {
            let copy = Self::copy_layers(&self.stack);
            self.snapshots.insert(root, copy);
            (root, false)
        }
    }

    /// Drops the snapshot stored under `state_root`; returns whether there
    /// was one.
    pub fn remove_snapshot(&mut self, state_root: &B256) -> (r: bool)
        requires
            old(self).wf(),
        ensures
            final(self).wf(),
            r == old(self)@.snapshots.contains_key(*state_root),
            final(self)@.snapshots == old(self)@.snapshots.remove(*state_root),
            final(self)@.stack == old(self)@.stack,
    {
        let r = self.snapshots.remove(state_root);
        r.is_some()
    }

    /// Sets a storage slot of `address`, starting from the record that a
    /// write starts from; a zero value unsets the slot.
    pub fn set_account_storage_slot(&mut self, address: Address, index: U256, value: U256) -> (r: Result<(), StateError>)
        requires
            old(self).wf(),
        ensures
            r is Ok,
            final(self).wf(),
            final(self)@.snapshots == old(self)@.snapshots,
            final(self)@.stack == with_top_entry(old(self)@.stack, address, Some(AccountModel {
                storage: slot_written(promoted_record(old(self)@.stack, address).storage, index, value),
                ..promoted_record(old(self)@.stack, address)
            })),
    {
        let ghost s0 = self@.stack;
        let mut record = self.promote_record(&address);
        if word_is_zero(&value) {
            record.storage.remove(&index);
        } else {
            record.storage.insert(index, value);
        }
        self.put_top_entry(address, Some(record));
        assert(self@.stack =~= with_top_entry(s0, address, Some(AccountModel {
            storage: slot_written(promoted_record(s0, address).storage, index, value),
            ..promoted_record(s0, address)
        }))) by {
            assert(self@.stack.last().accounts =~= with_top_entry(s0, address, Some(AccountModel {
                storage: slot_written(promoted_record(s0, address).storage, index, value),
                ..promoted_record(s0, address)
            })).last().accounts);
        }
        Ok(())
    }

    /// Goes back to the state under `state_root`: a copy of the snapshot
    /// stored under it if there is one; otherwise, once the top layer is
    /// sealed, the stack up to the lowest layer that carries that root.
    pub fn set_state_root(&mut self, state_root: &B256) -> (r: Result<(), StateError>)
        requires
            old(self).wf(),
            sealed_below_top(old(self)@.stack),
        ensures
            final(self).wf(),
            final(self)@.snapshots == old(self)@.snapshots,
            old(self)@.snapshots.contains_key(*state_root) ==> r is Ok
                && final(self)@.stack == old(self)@.snapshots[*state_root],
            !old(self)@.snapshots.contains_key(*state_root) ==> {
                let s1 = sealed_if_open(old(self)@.stack);
                &&& forall|i: int| first_layer_with_root(s1, i, *state_root) ==> r is Ok
                    && final(self)@.stack == s1.subrange(0, i + 1)
                &&& (forall|i: int| !first_layer_with_root(s1, i, *state_root)) ==> r
                    == Err::<(), StateError>(StateError::InvalidStateRoot(*state_root))
                    && final(self)@.stack == s1
            },
    {
        match self.snapshots.get(state_root) {
            Some(snapshot) => {
                let copy = Self::copy_layers(snapshot);
                self.stack = copy;
                return Ok(());
            },
            None => {},
        }
        self.ensure_top_root();
        let ghost s1 = self@.stack;
        let n = self.stack.len();
        let mut i: usize = 0;
        while i < n
            invariant
                0 <= i <= n,
                n == self@.stack.len(),
                s1 == self@.stack,
                self.wf(),
                self@.snapshots == old(self)@.snapshots,
                !old(self)@.snapshots.contains_key(*state_root),
                s1 == sealed_if_open(old(self)@.stack),
                forall|j: int| 0 <= j < i ==> (#[trigger] s1[j]).state_root != Some(*state_root),
            decreases n - i,
        {
            let found = match &self.stack[i].state_root {
                Some(root) => digest_eq(root, state_root),
                None => false,
            };
            if found {
                assert(s1[i as int].state_root == Some(*state_root));
                assert(first_layer_with_root(s1, i as int, *state_root));
                self.revert_to_layer(i);
                assert forall|j: int| first_layer_with_root(s1, j, *state_root) implies j == i by {
                    if j < i {
                    } else if j > i {
                        assert(s1[i as int].state_root == Some(*state_root));
                    }
                }
                return Ok(());
            }
            i = i + 1;
        }
        Err(StateError::InvalidStateRoot(*state_root))
    }
}

} // verus!
