//! Error taxonomy of the transaction engine.

use vstd::prelude::*;

verus! {

#[derive(Clone, Copy, Debug, PartialEq, Eq, Structural)]
pub enum CipherPayError {
    /// The deposit marker for this deposit hash is already marked processed.
    DepositAlreadyUsed,
    /// The provided Merkle root was not found in the root cache.
    UnknownMerkleRoot,
    /// The leaf index asserted in the proof does not match the expected next index.
    LeafIndexMismatch,
    /// Generic verifier failure (pairing check / input inconsistency).
    InvalidZkProof,
    /// Proof bytes were not the expected 256 bytes (A:64 + B:128 + C:64).
    InvalidProofBytesLength,
    /// Public inputs blob length is wrong for the circuit.
    InvalidPublicInputsLength,
    /// Verifying key bytes are malformed or truncated.
    InvalidVerifyingKey,
    /// The number of public inputs does not match the circuit's expected count.
    PublicInputCountMismatch,
    /// Opaque payload tags do not match the outputs they are bound to.
    PayloadBindingMismatch,
    /// Nullifier is already recorded as used.
    NullifierAlreadyUsed,
    /// Nullifier provided does not equal the one asserted in the proof.
    NullifierMismatch,
    /// Sanity checks on the withdrawal amount failed.
    InvalidWithdrawAmount,
    /// A token transfer returned an error status.
    TokenTransferFailed,
    /// The provided vault account does not match the program's vault.
    VaultMismatch,
    /// The vault authority does not match the account provided.
    VaultAuthorityMismatch,
    /// Required memo operation not found in the same atomic unit.
    MemoMissing,
    /// Required token transfer not found in the same atomic unit.
    RequiredSplTransferMissing,
    /// Signer or ownership checks failed.
    Unauthorized,
    /// Generic bad input (range/format) guard.
    InvalidInput,
    /// Guarded arithmetic would wrap or underflow.
    ArithmeticError,
    /// Old Merkle root does not match current state.
    OldRootMismatch,
    /// Next leaf index mismatch.
    NextLeafIndexMismatch,
    /// Record already processed (deposit marker or nullifier record).
    AlreadyProcessed,
}

impl CipherPayError {
    /// Human-readable message for the error, as the ledger surfaces it.
    pub fn message(&self) -> &'static str {
        match self {
            CipherPayError::DepositAlreadyUsed => "Deposit hash already used.",
            CipherPayError::UnknownMerkleRoot => "Merkle root not found in root cache.",
            CipherPayError::LeafIndexMismatch => "Leaf index in proof does not match on-chain next_leaf_index.",
            CipherPayError::InvalidZkProof => "Zero-knowledge proof verification failed.",
            CipherPayError::InvalidProofBytesLength => "Invalid Groth16 proof byte length.",
            CipherPayError::InvalidPublicInputsLength => "Invalid public inputs byte length.",
            CipherPayError::InvalidVerifyingKey => "Invalid or truncated verifying key bytes.",
            CipherPayError::PublicInputCountMismatch => "Mismatched number of public inputs for this circuit.",
            CipherPayError::PayloadBindingMismatch => "Public input payload binding mismatch.",
            CipherPayError::NullifierAlreadyUsed => "Nullifier already used.",
            CipherPayError::NullifierMismatch => "Nullifier provided does not match one in proof.",
            CipherPayError::InvalidWithdrawAmount => "Invalid withdrawal amount.",
            CipherPayError::TokenTransferFailed => "Token transfer failed.",
            CipherPayError::VaultMismatch => "Provided vault account does not match program's vault.",
            CipherPayError::VaultAuthorityMismatch => "Vault authority PDA does not match.",
            CipherPayError::MemoMissing => "Required Memo instruction not found in transaction.",
            CipherPayError::RequiredSplTransferMissing => "Required SPL Token transfer not found in transaction.",
            CipherPayError::Unauthorized => "You are not authorized to perform this action.",
            CipherPayError::InvalidInput => "Invalid input.",
            CipherPayError::ArithmeticError => "Arithmetic overflow or underflow.",
            CipherPayError::OldRootMismatch => "Old Merkle root does not match on-chain state.",
            CipherPayError::NextLeafIndexMismatch => "Next leaf index mismatch.",
            CipherPayError::AlreadyProcessed => "Already processed",
        }
    }
}

} // verus!
