//! What holds of the layered state across operations.

use vstd::prelude::*;
use crate::account::AccountModel;
use crate::layer::LayerModel;
use crate::primitives::{Address, B256, U256};
use crate::state::{
    StateModel, code_lookup, committed, lemma_lookup_same_accounts, lemma_lookup_skip,
    mentioned_from, promoted_stack, root_of_stack, sealed, sealed_if_open, top_root,
    visible_account, visible_accounts, visible_storage, with_top_entry,
};

verus! {

/// Reads see the entry of the topmost layer that has one for `a`: the
/// record if it is present, nothing if it marks a deletion.
pub proof fn lemma_shadowing(stack: Seq<LayerModel>, i: int, a: Address)
    requires
        0 <= i < stack.len(),
        stack[i].accounts.contains_key(a),
        !mentioned_from(stack, i + 1, a),
    ensures
        visible_account(stack, a) == stack[i].accounts[a],
{
    lemma_lookup_skip(stack, stack.len() as int, i + 1, a);
}

/// A deletion in a layer above `i`, with no entry above it, hides the
/// record that layer `i` holds.
pub proof fn lemma_deletion_hides(stack: Seq<LayerModel>, i: int, j: int, a: Address)
    requires
        0 <= i < j < stack.len(),
        stack[i].accounts.contains_key(a),
        stack[j].accounts.contains_key(a),
        stack[j].accounts[a] is None,
        !mentioned_from(stack, j + 1, a),
    ensures
        visible_account(stack, a) is None,
{
    lemma_shadowing(stack, j, a);
}

/// Bringing a record into the top layer and then changing it in place, as
/// through `account_or_insert_mut`, changes no other layer.
pub proof fn lemma_promotion_keeps_lower_layers(stack: Seq<LayerModel>, a: Address, entry: Option<AccountModel>)
    requires
        stack.len() >= 1,
    ensures
        with_top_entry(promoted_stack(stack, a), a, entry).len() == stack.len(),
        with_top_entry(promoted_stack(stack, a), a, entry).subrange(0, stack.len() - 1)
            == stack.subrange(0, stack.len() - 1),
{
    assert(with_top_entry(promoted_stack(stack, a), a, entry).subrange(0, stack.len() - 1)
        =~= stack.subrange(0, stack.len() - 1));
}

/// After a checkpoint, whatever changes only the top layer is undone by a
/// revert: reads see the accounts, slots and bytecode they saw before the
/// checkpoint.
pub proof fn lemma_checkpoint_then_revert(before: Seq<LayerModel>, after: Seq<LayerModel>)
    requires
        before.len() >= 1,
        after.len() == before.len() + 1,
        after.subrange(0, before.len() as int) == sealed(before, root_of_stack(before)),
    ensures
        forall|a: Address| visible_account(after.subrange(0, before.len() as int), a) == visible_account(before, a),
        forall|a: Address, k: U256| visible_storage(after.subrange(0, before.len() as int), a, k)
            == visible_storage(before, a, k),
        forall|h: B256| code_lookup(after.subrange(0, before.len() as int), before.len() as int, h)
            == code_lookup(before, before.len() as int, h),
        visible_accounts(after.subrange(0, before.len() as int)) == visible_accounts(before),
{
    let reverted = after.subrange(0, before.len() as int);
    assert forall|a: Address| visible_account(reverted, a) == visible_account(before, a) by {
        lemma_lookup_same_accounts(reverted, before, before.len() as int, a);
    }
    assert forall|h: B256| code_lookup(reverted, before.len() as int, h) == code_lookup(before, before.len() as int, h) by {
        lemma_code_same_contracts(reverted, before, before.len() as int, h);
    }
    assert(visible_accounts(reverted) =~= visible_accounts(before));
}

proof fn lemma_code_same_contracts(s: Seq<LayerModel>, t: Seq<LayerModel>, n: int, h: B256)
    requires
        0 <= n <= s.len(),
        n <= t.len(),
        forall|j: int| 0 <= j < n ==> (#[trigger] s[j]).contracts == t[j].contracts,
    ensures
        code_lookup(s, n, h) == code_lookup(t, n, h),
    decreases n,
{
    if n > 0 {
        assert(s[n - 1].contracts == t[n - 1].contracts);
        lemma_code_same_contracts(s, t, n - 1, h);
    }
}

/// Committing an empty batch changes nothing, so the state root stays.
pub proof fn lemma_empty_commit(stack: Seq<LayerModel>)
    ensures
        committed(stack, Seq::empty()) == stack,
        root_of_stack(committed(stack, Seq::empty())) == root_of_stack(stack),
{
}

/// Taking a snapshot of a state whose top layer is open, changing the
/// state in any way that keeps that snapshot, and going back to the
/// snapshot's root restores the root and every read.
pub proof fn lemma_snapshot_round_trip(
    s0: StateModel,
    root: B256,
    s1: StateModel,
    s2: StateModel,
    s3: StateModel,
)
    requires
        s0.stack.len() >= 1,
        s0.stack.last().state_root is None,
        root == top_root(s0.stack),
        !s0.snapshots.contains_key(root),
        s1.stack == sealed_if_open(s0.stack),
        s1.snapshots == s0.snapshots.insert(root, s1.stack),
        s2.snapshots.contains_key(root),
        s2.snapshots[root] == s1.snapshots[root],
        s3.stack == s2.snapshots[root],
    ensures
        root_of_stack(s3.stack) == root,
        visible_accounts(s3.stack) == visible_accounts(s0.stack),
        forall|a: Address| visible_account(s3.stack, a) == visible_account(s0.stack, a),
        forall|a: Address, k: U256| visible_storage(s3.stack, a, k) == visible_storage(s0.stack, a, k),
{
    assert(s3.stack == sealed(s0.stack, root_of_stack(s0.stack)));
    assert forall|a: Address| visible_account(s3.stack, a) == visible_account(s0.stack, a) by {
        lemma_lookup_same_accounts(s3.stack, s0.stack, s0.stack.len() as int, a);
    }
    assert(visible_accounts(s3.stack) =~= visible_accounts(s0.stack));
}

/// The state root depends on the accounts that reads see alone, not on how
/// many layers hold them or in which order they were written.
pub proof fn lemma_root_determinism(s: Seq<LayerModel>, t: Seq<LayerModel>)
    requires
        visible_accounts(s) == visible_accounts(t),
    ensures
        root_of_stack(s) == root_of_stack(t),
{
}

} // verus!
