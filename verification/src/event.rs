//! Records of completed operations, returned by the entry points for the
//! caller to emit. Account addresses are carried as raw 32-byte keys.

use vstd::prelude::*;

verus! {

/// Emitted after a successful shielded deposit:
/// the deposit hash was marked processed, the commitment was inserted at
/// `next_leaf_index`, and the root cache was updated with `new_merkle_root`.
#[derive(Clone, Debug)]
pub struct DepositCompleted {
    pub deposit_hash: [u8; 32],
    pub owner_cipherpay_pubkey: [u8; 32],
    pub commitment: [u8; 32],
    pub old_merkle_root: [u8; 32],
    pub new_merkle_root: [u8; 32],
    pub next_leaf_index: u32,
    pub mint: [u8; 32],
}

/// Emitted after a successful shielded transfer:
/// the input note's membership was proven against `merkle_root_before`, and two
/// new commitments were inserted at `next_leaf_index` and `next_leaf_index + 1`.
#[derive(Clone, Debug)]
pub struct TransferCompleted {
    pub nullifier: [u8; 32],
    pub out1_commitment: [u8; 32],
    pub out2_commitment: [u8; 32],
    pub enc_note1_hash: [u8; 32],
    pub enc_note2_hash: [u8; 32],
    /// Root before the appends (from the membership proof).
    pub merkle_root_before: [u8; 32],
    /// Root after inserting the first output.
    pub new_merkle_root1: [u8; 32],
    /// Root after inserting the second output.
    pub new_merkle_root2: [u8; 32],
    /// Starting leaf index for the first output (the second uses +1).
    pub next_leaf_index: u32,
    /// Mint that identifies the vault this applies to.
    pub mint: [u8; 32],
}

/// Emitted after a successful shielded withdraw:
/// inclusion was proven, the note nullified, and `amount` is owed to
/// `recipient` from the vault.
#[derive(Clone, Debug)]
pub struct WithdrawCompleted {
    pub nullifier: [u8; 32],
    pub recipient: [u8; 32],
    pub amount: u64,
    /// Mint that identifies the vault this came from.
    pub mint: [u8; 32],
}

} // verus!
