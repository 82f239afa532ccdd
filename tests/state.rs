use rethnet_state::account::{AccountInfo, RethnetAccount};
use rethnet_state::debug::{step_action, DebugCommand, DebugError, StepAction};
use rethnet_state::layer::RethnetLayer;
use rethnet_state::primitives::{empty_code_hash, Address, B256, U256};
use rethnet_state::state::{AccountDiff, AccountFields, LayeredState, StateError};
use rethnet_state::trie::strip_leading_zeros;

fn addr(n: u8) -> Address {
    let mut a = [0u8; 20];
    a[19] = n;
    a
}

fn word(n: u64) -> U256 {
    let mut w = [0u8; 32];
    w[24..].copy_from_slice(&n.to_be_bytes());
    w
}

fn hex32(s: &str) -> B256 {
    let mut out = [0u8; 32];
    for i in 0..32 {
        out[i] = u8::from_str_radix(&s[2 * i..2 * i + 2], 16).unwrap();
    }
    out
}

const EMPTY_TRIE_ROOT: &str = "56e81f171bcc55a6ff8345e692c0f86e5b48e01b996cadc001622fb5e363b421";
const KECCAK_OF_EMPTY: &str = "c5d2460186f7233c927e7db2dcc703c0e500b653ca82273b7bfad8045d85a470";

fn keccak256(code: &[u8]) -> B256 {
    let mut account = RethnetAccount::from_info(AccountInfo {
        balance: word(0),
        nonce: 0,
        code_hash: word(1),
        code: Some(code.to_vec()),
    });
    account.split_code();
    account.info.code_hash
}

fn plain_info(balance: u64, nonce: u64) -> AccountInfo {
    AccountInfo { balance: word(balance), nonce, code_hash: empty_code_hash(), code: None }
}

fn genesis_state(accounts: Vec<(Address, AccountInfo)>) -> LayeredState {
    LayeredState::with_layer(RethnetLayer::with_genesis_accounts(accounts))
}

fn diff(balance: u64, nonce: u64, storage: Vec<(U256, U256)>) -> AccountDiff {
    AccountDiff { info: plain_info(balance, nonce), storage, storage_cleared: false, is_destroyed: false }
}

fn balance_of(state: &LayeredState, a: Address) -> U256 {
    state.basic(a).unwrap().unwrap().balance
}

#[test]
fn checkpoint_commit_revert_scenario() {
    let a = addr(1);
    let mut state = genesis_state(vec![(a, plain_info(100, 0))]);
    state.checkpoint().unwrap();
    state.commit(vec![(a, diff(40, 0, vec![(word(1), word(7))]))]);
    assert_eq!(balance_of(&state, a), word(40));
    assert_eq!(state.storage(a, word(1)), Ok(word(7)));
    assert_eq!(state.storage(a, word(2)), Ok(word(0)));
    state.revert().unwrap();
    assert_eq!(balance_of(&state, a), word(100));
    assert_eq!(state.storage(a, word(1)), Ok(word(0)));
}

#[test]
fn removed_account_leaves_empty_code() {
    let a = addr(1);
    let code = vec![0x60u8, 0x01, 0x60, 0x00];
    let h = keccak256(&code);
    let mut state = LayeredState::new();
    state
        .insert_account(a, AccountInfo { balance: word(5), nonce: 1, code_hash: h, code: Some(code.clone()) })
        .unwrap();
    assert_eq!(state.code_by_hash(h), Ok(code));
    let removed = state.remove_account(&a).unwrap();
    assert_eq!(removed.code_hash, h);
    assert!(state.account(&a).is_none());
    assert_eq!(state.code_by_hash(h), Ok(Vec::new()));
}

#[test]
fn revert_on_base_layer_fails() {
    let mut state = LayeredState::new();
    assert_eq!(state.revert(), Err(StateError::CannotRevert));
    assert_eq!(state.last_layer_id(), 0);
    state.checkpoint().unwrap();
    assert_eq!(state.last_layer_id(), 1);
    assert_eq!(state.revert(), Ok(()));
    assert_eq!(state.revert(), Err(StateError::CannotRevert));
    assert_eq!(state.last_layer_id(), 0);
}

#[test]
fn empty_commit_keeps_root() {
    let mut state = genesis_state(vec![(addr(1), plain_info(100, 3))]);
    let before = state.state_root().unwrap();
    state.commit(Vec::new());
    assert_eq!(state.state_root().unwrap(), before);
}

#[test]
fn snapshot_round_trip_restores_reads() {
    let a = addr(1);
    let b = addr(2);
    let mut state = genesis_state(vec![(a, plain_info(100, 0))]);
    let root_before = state.state_root().unwrap();
    let (root, existed) = state.make_snapshot();
    assert!(!existed);
    assert_eq!(root, root_before);
    state.commit(vec![(a, diff(1, 1, vec![(word(3), word(9))])), (b, diff(50, 0, Vec::new()))]);
    state.checkpoint().unwrap();
    state.commit(vec![(b, diff(60, 0, Vec::new()))]);
    assert_ne!(state.state_root().unwrap(), root);
    assert_eq!(state.set_state_root(&root), Ok(()));
    assert_eq!(state.state_root().unwrap(), root);
    assert_eq!(balance_of(&state, a), word(100));
    assert_eq!(state.storage(a, word(3)), Ok(word(0)));
    assert!(state.account(&b).is_none());
    let (again, existed_again) = state.make_snapshot();
    assert_eq!(again, root);
    assert!(existed_again);
}

#[test]
fn root_independent_of_layering() {
    let a = addr(1);
    let b = addr(2);
    let mut one = LayeredState::new();
    one.commit(vec![(a, diff(10, 1, vec![(word(1), word(2))])), (b, diff(20, 2, Vec::new()))]);

    let mut many = LayeredState::new();
    many.commit(vec![(b, diff(20, 2, Vec::new()))]);
    many.checkpoint().unwrap();
    many.commit(vec![(a, diff(99, 0, Vec::new()))]);
    many.checkpoint().unwrap();
    many.commit(vec![(a, diff(10, 1, vec![(word(1), word(2))]))]);

    assert_eq!(one.state_root().unwrap(), many.state_root().unwrap());
}

#[test]
fn top_entry_shadows_lower_layers() {
    let a = addr(1);
    let mut state = genesis_state(vec![(a, plain_info(100, 0))]);
    state.checkpoint().unwrap();
    state.remove_account(&a);
    assert!(state.account(&a).is_none());
    assert_eq!(balance_of(&state, a), word(0));
    state.checkpoint().unwrap();
    state.commit(vec![(a, diff(7, 0, Vec::new()))]);
    assert_eq!(balance_of(&state, a), word(7));
    state.revert().unwrap();
    assert!(state.account(&a).is_none());
    state.revert().unwrap();
    assert_eq!(balance_of(&state, a), word(100));
}

#[test]
fn writes_touch_only_the_top_layer() {
    let a = addr(1);
    let mut state = genesis_state(vec![(a, plain_info(100, 0))]);
    state.checkpoint().unwrap();
    let record = state.account_or_insert_mut(&a);
    assert_eq!(record.info.balance, word(100));
    record.info.nonce = 5;
    assert_eq!(state.basic(a).unwrap().unwrap().nonce, 5);
    state.set_account_storage_slot(a, word(4), word(8)).unwrap();
    assert_eq!(state.storage(a, word(4)), Ok(word(8)));
    assert_eq!(state.iter().len(), 2);
    state.revert().unwrap();
    assert_eq!(state.storage(a, word(4)), Ok(word(0)));
}

#[test]
fn unknown_code_hash_fails() {
    let state = LayeredState::new();
    let h = word(77);
    assert_eq!(state.code_by_hash(h), Err(StateError::InvalidCodeHash(h)));
}

#[test]
fn unknown_state_root_fails() {
    let mut state = LayeredState::new();
    let r = word(5);
    assert_eq!(state.set_state_root(&r), Err(StateError::InvalidStateRoot(r)));
    assert_eq!(state.last_layer_id(), 0);
}

#[test]
fn set_state_root_to_checkpoint_layer() {
    let a = addr(1);
    let mut state = genesis_state(vec![(a, plain_info(100, 0))]);
    let base_root = state.state_root().unwrap();
    state.checkpoint().unwrap();
    state.commit(vec![(a, diff(1, 0, Vec::new()))]);
    state.checkpoint().unwrap();
    state.commit(vec![(a, diff(2, 0, Vec::new()))]);
    assert!(state.layers_below_top_sealed());
    assert_eq!(state.set_state_root(&base_root), Ok(()));
    assert_eq!(state.last_layer_id(), 0);
    assert_eq!(balance_of(&state, a), word(100));
}

#[test]
fn empty_state_has_empty_trie_root() {
    let state = LayeredState::new();
    assert_eq!(state.state_root().unwrap(), hex32(EMPTY_TRIE_ROOT));
    let mut state = LayeredState::new();
    state.insert_account(addr(1), plain_info(1, 0)).unwrap();
    assert_eq!(state.account_storage_root(&addr(1)), Ok(Some(hex32(EMPTY_TRIE_ROOT))));
}

#[test]
fn roots_follow_content() {
    let a = addr(1);
    let mut first = LayeredState::new();
    first.set_account_storage_slot(a, word(1), word(7)).unwrap();
    let with_slot = first.account_storage_root(&a).unwrap().unwrap();
    assert_ne!(with_slot, hex32(EMPTY_TRIE_ROOT));
    let mut second = LayeredState::new();
    second.commit(vec![(a, diff(1, 0, vec![(word(1), word(7))]))]);
    assert_eq!(second.account_storage_root(&a), Ok(Some(with_slot)));
    assert_eq!(second.account_storage_root(&addr(2)), Ok(None));
    assert_ne!(second.state_root().unwrap(), hex32(EMPTY_TRIE_ROOT));
    assert_ne!(second.state_root().unwrap(), first.state_root().unwrap());
    second.set_account_storage_slot(a, word(1), word(8)).unwrap();
    assert_ne!(second.account_storage_root(&a).unwrap().unwrap(), with_slot);
}

#[test]
fn keccak_of_empty_input() {
    assert_eq!(empty_code_hash(), hex32(KECCAK_OF_EMPTY));
    assert_ne!(keccak256(&[1u8]), hex32(KECCAK_OF_EMPTY));
    assert_ne!(keccak256(&[1u8])[..1], [1u8][..]);
}

#[test]
fn leading_zero_bytes_are_stripped() {
    assert_eq!(strip_leading_zeros(&word(0x0100)), vec![1u8, 0]);
    assert_eq!(strip_leading_zeros(&word(0)), Vec::<u8>::new());
    let mut full = [0xffu8; 32];
    full[0] = 1;
    assert_eq!(strip_leading_zeros(&full).len(), 32);
}

#[test]
fn split_code_moves_code_out_once() {
    let code = vec![0x60u8, 0x00];
    let mut account = RethnetAccount::from_info(AccountInfo {
        balance: word(0),
        nonce: 0,
        code_hash: word(1),
        code: Some(code.clone()),
    });
    assert_eq!(account.split_code(), Some(code.clone()));
    assert_eq!(account.info.code_hash, keccak256(&code));
    assert!(account.info.code.is_none());
    assert_eq!(account.split_code(), None);

    let mut empty = RethnetAccount::from_info(plain_info(0, 0));
    empty.info.code = Some(vec![1u8]);
    assert_eq!(empty.split_code(), None);
    assert_eq!(empty.info.code, Some(vec![1u8]));
}

#[test]
fn insert_account_normalizes_code() {
    let a = addr(3);
    let mut state = LayeredState::new();
    state
        .insert_account(a, AccountInfo { balance: word(1), nonce: 0, code_hash: [0u8; 32], code: None })
        .unwrap();
    let stored = &state.account(&a).unwrap().info;
    assert_eq!(stored.code_hash, empty_code_hash());
    assert_eq!(stored.code, Some(Vec::new()));
    assert!(!RethnetLayer::new().has_state_root());
    state.checkpoint().unwrap();
    assert!(state.iter()[1].has_state_root());
    assert!(!state.iter()[0].has_state_root());
}

#[test]
fn genesis_code_goes_to_code_table() {
    let a = addr(1);
    let code = vec![0x60u8, 0x02];
    let h = keccak256(&code);
    let info = AccountInfo { balance: word(1), nonce: 0, code_hash: h, code: Some(code.clone()) };
    let state = genesis_state(vec![(a, info)]);
    assert_eq!(state.code_by_hash(h), Ok(code));
    assert!(state.account(&a).unwrap().info.code.is_none());
}

#[test]
fn modify_account_stores_code_by_digest() {
    let a = addr(1);
    let code = vec![0x60u8, 0x03];
    let h = keccak256(&code);
    let mut state = LayeredState::new();
    let new_code = code.clone();
    state
        .modify_account(a, move |f: AccountFields| AccountFields { balance: word(9), nonce: f.nonce + 1, code: Some(new_code.clone()) })
        .unwrap();
    let info = state.basic(a).unwrap().unwrap();
    assert_eq!(info.balance, word(9));
    assert_eq!(info.nonce, 1);
    assert_eq!(info.code_hash, h);
    assert_eq!(state.code_by_hash(h), Ok(code));

    state.modify_account(a, |f: AccountFields| AccountFields { code: None, ..f }).unwrap();
    assert_eq!(state.basic(a).unwrap().unwrap().code_hash, empty_code_hash());
    assert_eq!(state.code_by_hash(h), Ok(Vec::new()));
}

#[test]
fn commit_handles_zero_values_clears_and_destruction() {
    let a = addr(1);
    let mut state = LayeredState::new();
    state.commit(vec![(a, diff(5, 0, vec![(word(1), word(1)), (word(2), word(2))]))]);
    state.commit(vec![(a, diff(5, 0, vec![(word(1), word(0))]))]);
    assert_eq!(state.storage(a, word(1)), Ok(word(0)));
    assert_eq!(state.storage(a, word(2)), Ok(word(2)));
    let mut cleared = diff(5, 0, vec![(word(3), word(3))]);
    cleared.storage_cleared = true;
    state.commit(vec![(a, cleared)]);
    assert_eq!(state.storage(a, word(2)), Ok(word(0)));
    assert_eq!(state.storage(a, word(3)), Ok(word(3)));
    let mut destroyed = diff(5, 0, Vec::new());
    destroyed.is_destroyed = true;
    state.commit(vec![(a, destroyed)]);
    assert!(state.account(&a).is_none());
    state.commit(vec![(a, diff(1, 0, Vec::new()))]);
    state.commit(vec![(a, diff(0, 0, Vec::new()))]);
    assert!(state.account(&a).is_none());
}

#[test]
fn account_mut_and_default_reads() {
    let a = addr(1);
    let mut state = LayeredState::new();
    assert!(state.account_mut(&a).is_none());
    assert_eq!(state.basic(a).unwrap().unwrap().balance, word(0));
    assert_eq!(state.basic(a).unwrap().unwrap().code_hash, empty_code_hash());
    let created = state.account_or_insert_mut(&a);
    assert_eq!(created.info.nonce, 0);
    assert!(state.account_mut(&a).unwrap().is_some());
    if let Some(Some(account)) = state.account_mut(&a) {
        account.info.balance = word(12);
    }
    assert_eq!(balance_of(&state, a), word(12));
    state.remove_account(&a);
    assert!(state.account_mut(&a).unwrap().is_none());
    assert!(state.remove_account(&addr(9)).is_none());
}

#[test]
fn snapshots_can_be_removed() {
    let mut state = LayeredState::new();
    let (root, _) = state.make_snapshot();
    assert!(state.remove_snapshot(&root));
    assert!(!state.remove_snapshot(&root));
}

#[test]
fn debugger_actions() {
    assert_eq!(step_action(None, 3), StepAction::Halt(DebugError::CommandChannelClosed));
    assert_eq!(step_action(Some(DebugCommand::Stop), 3), StepAction::Halt(DebugError::ExecutionStopped));
    assert_eq!(
        step_action(Some(DebugCommand::StepBackwards), 3),
        StepAction::Continue { rewind: true, record_pointer: false }
    );
    assert_eq!(
        step_action(Some(DebugCommand::StepBackwards), 0),
        StepAction::Continue { rewind: false, record_pointer: false }
    );
    assert_eq!(
        step_action(Some(DebugCommand::StepForwards), 0),
        StepAction::Continue { rewind: false, record_pointer: true }
    );
}

#[test]
fn layers_added_in_place() {
    let a = addr(4);
    let mut state = LayeredState::new();
    let (id, layer) = state.add_layer_default();
    assert_eq!(id, 1);
    layer.insert_account(a, RethnetAccount::from_info(plain_info(3, 0)));
    assert_eq!(balance_of(&state, a), word(3));
    state.last_layer_mut().insert_account(a, RethnetAccount::from_info(plain_info(4, 0)));
    assert_eq!(balance_of(&state, a), word(4));
    let (id, _) = state.add_layer(RethnetLayer::default());
    assert_eq!(id, 2);
    assert_eq!(state.last_layer_id(), 2);
    state.revert_to_layer(0);
    assert_eq!(state.last_layer_id(), 0);
    assert!(state.account(&a).is_none());
}

#[test]
fn zero_code_hash_counts_as_empty_in_commit() {
    let a = addr(5);
    let mut state = genesis_state(vec![(a, plain_info(1, 1))]);
    let mut d = diff(0, 0, Vec::new());
    d.info.code_hash = [0u8; 32];
    state.commit(vec![(a, d)]);
    assert!(state.account(&a).is_none());
}

#[test]
fn detached_code_digest_is_keccak() {
    assert_eq!(
        keccak256(b"abc"),
        hex32("4e03657aea45a94fc7d47ba826c8d667c0d1e6e33a64a036ec44f58fa12d6c45")
    );
}

#[test]
fn zero_slot_write_unsets_the_slot() {
    let a = addr(6);
    let mut state = LayeredState::new();
    state.set_account_storage_slot(a, word(1), word(7)).unwrap();
    state.set_account_storage_slot(a, word(1), word(0)).unwrap();
    assert_eq!(state.storage(a, word(1)), Ok(word(0)));
    assert_eq!(state.account_storage_root(&a), Ok(Some(hex32(EMPTY_TRIE_ROOT))));
}
