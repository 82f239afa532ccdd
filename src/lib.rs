//! Layered, copy-on-write account state with checkpoints, snapshots and
//! Merkle state roots.

pub mod account;
pub mod debug;
pub mod layer;
pub mod primitives;
pub mod state;
pub mod state_lemmas;
pub mod tables;
pub mod trie;
