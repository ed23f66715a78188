//! Records emitted when individual proofs are verified. Account addresses are
//! carried as raw 32-byte keys.

use vstd::prelude::*;

verus! {

/// Emitted when a proof is verified.
pub struct ProofVerified {
    pub stream_id: [u8; 32],
    pub timestamp: i64,
}

/// Emitted when funds are deposited to the vault.
pub struct VaultDeposited {
    /// Amount deposited.
    pub amount: u64,
    /// Timestamp of the deposit.
    pub timestamp: i64,
}

/// Emitted when funds are withdrawn from the vault.
pub struct VaultWithdrawn {
    /// Amount withdrawn.
    pub amount: u64,
    /// Timestamp of the withdrawal.
    pub timestamp: i64,
}

/// Emitted when a transfer proof is verified.
pub struct TransferProofVerified {
    /// Amount transferred.
    pub amount: u64,
    /// Recipient address.
    pub recipient: [u8; 32],
    /// Timestamp of verification.
    pub timestamp: i64,
}

/// Emitted when a withdraw proof is verified.
pub struct WithdrawProofVerified {
    /// Amount withdrawn.
    pub amount: u64,
    /// Recipient address.
    pub recipient: [u8; 32],
    /// Timestamp of verification.
    pub timestamp: i64,
}

/// Emitted when a merkle proof is verified.
pub struct MerkleProofVerified {
    /// Merkle root.
    pub merkle_root: [u8; 32],
    /// Timestamp of verification.
    pub timestamp: i64,
}

/// Emitted when a nullifier proof is verified.
pub struct NullifierProofVerified {
    /// Nullifier.
    pub nullifier: [u8; 32],
    /// Timestamp of verification.
    pub timestamp: i64,
}

/// Emitted when an audit proof is verified.
pub struct AuditProofVerified {
    /// Audit ID.
    pub audit_id: [u8; 32],
    /// Merkle root.
    pub merkle_root: [u8; 32],
    /// Timestamp of verification.
    pub timestamp: i64,
}

/// Emitted when a stream proof is verified.
pub struct StreamProofVerified {
    /// Stream ID.
    pub stream_id: [u8; 32],
    /// Amount.
    pub amount: u64,
    /// Timestamp of verification.
    pub timestamp: i64,
}

/// Emitted when a split proof is verified.
pub struct SplitProofVerified {
    /// Split ID.
    pub split_id: [u8; 32],
    /// Recipients.
    pub recipients: Vec<[u8; 32]>,
    /// Amounts.
    pub amounts: Vec<u64>,
    /// Timestamp of verification.
    pub timestamp: i64,
}

/// Emitted when a condition proof is verified.
pub struct ConditionProofVerified {
    /// Condition ID.
    pub condition_id: [u8; 32],
    /// Merkle root.
    pub merkle_root: [u8; 32],
    /// Timestamp of verification.
    pub timestamp: i64,
}

} // verus!
