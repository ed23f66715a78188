//! Error codes for circuit-specific validation helpers.

use vstd::prelude::*;

verus! {

#[derive(Clone, Copy, Debug, PartialEq, Eq, Structural)]
pub enum CipherPayError {
    /// Invalid proof format.
    InvalidProofFormat,
    /// Proof verification failed.
    ProofVerificationFailed,
    /// Insufficient compute budget.
    InsufficientComputeBudget,
    /// Insufficient compute units.
    InsufficientComputeUnits,
    /// Invalid merkle root.
    InvalidMerkleRoot,
    /// Invalid merkle proof.
    InvalidMerkleProof,
    /// Invalid nullifier.
    InvalidNullifier,
    /// Arithmetic overflow.
    ArithmeticOverflow,
    /// Invalid stream parameters.
    InvalidStreamParams,
    /// Stream has expired.
    StreamExpired,
    /// Invalid split distribution.
    InvalidSplitDistribution,
    /// Recipient limit exceeded.
    RecipientLimitExceeded,
    /// Amount overflow.
    AmountOverflow,
    /// Time constraint violation.
    TimeConstraintViolation,
    /// Insufficient funds in vault.
    InsufficientFunds,
    /// Nullifier already used.
    NullifierAlreadyUsed,
    /// Duplicate recipient.
    DuplicateRecipient,
    /// Invalid split parameters.
    InvalidSplitParams,
    /// Zero amount.
    ZeroAmount,
    /// Invalid compute budget.
    InvalidComputeBudget,
    /// Unsupported circuit type.
    UnsupportedCircuit,
    /// Invalid public inputs.
    InvalidPublicInputs,
    /// Invalid curve point.
    InvalidCurvePoint,
    /// Pairing verification failed.
    PairingVerificationFailed,
    /// Invalid audit proof.
    InvalidAuditProof,
    /// Invalid condition proof.
    InvalidConditionProof,
    /// Invalid stream proof.
    InvalidStreamProof,
    /// Invalid split proof.
    InvalidSplitProof,
    /// Invalid transfer proof.
    InvalidTransferProof,
    /// Invalid withdraw proof.
    InvalidWithdrawProof,
    /// State verification failed.
    StateVerificationFailed,
    /// Authority verification failed.
    AuthorityVerificationFailed,
    /// Vault not initialized.
    VaultNotInitialized,
    /// Verifier not initialized.
    VerifierNotInitialized,
}

impl CipherPayError {
    /// Human-readable message for the error code.
    pub fn message(&self) -> &'static str {
        match self {
            CipherPayError::InvalidProofFormat => "Invalid proof format",
            CipherPayError::ProofVerificationFailed => "Proof verification failed",
            CipherPayError::InsufficientComputeBudget => "Insufficient compute budget",
            CipherPayError::InsufficientComputeUnits => "Insufficient compute units",
            CipherPayError::InvalidMerkleRoot => "Invalid merkle root",
            CipherPayError::InvalidMerkleProof => "Invalid merkle proof",
            CipherPayError::InvalidNullifier => "Invalid nullifier",
            CipherPayError::ArithmeticOverflow => "Arithmetic overflow",
            CipherPayError::InvalidStreamParams => "Invalid stream parameters",
            CipherPayError::StreamExpired => "Stream has expired",
            CipherPayError::InvalidSplitDistribution => "Invalid split distribution",
            CipherPayError::RecipientLimitExceeded => "Recipient limit exceeded",
            CipherPayError::AmountOverflow => "Amount overflow",
            CipherPayError::TimeConstraintViolation => "Time constraint violation",
            CipherPayError::InsufficientFunds => "Insufficient funds in vault",
            CipherPayError::NullifierAlreadyUsed => "Nullifier already used",
            CipherPayError::DuplicateRecipient => "Duplicate recipient",
            CipherPayError::InvalidSplitParams => "Invalid split parameters",
            CipherPayError::ZeroAmount => "Zero amount",
            CipherPayError::InvalidComputeBudget => "Invalid compute budget",
            CipherPayError::UnsupportedCircuit => "Unsupported circuit type",
            CipherPayError::InvalidPublicInputs => "Invalid public inputs",
            CipherPayError::InvalidCurvePoint => "Invalid curve point",
            CipherPayError::PairingVerificationFailed => "Pairing verification failed",
            CipherPayError::InvalidAuditProof => "Invalid audit proof",
            CipherPayError::InvalidConditionProof => "Invalid condition proof",
            CipherPayError::InvalidStreamProof => "Invalid stream proof",
            CipherPayError::InvalidSplitProof => "Invalid split proof",
            CipherPayError::InvalidTransferProof => "Invalid transfer proof",
            CipherPayError::InvalidWithdrawProof => "Invalid withdraw proof",
            CipherPayError::StateVerificationFailed => "State verification failed",
            CipherPayError::AuthorityVerificationFailed => "Authority verification failed",
            CipherPayError::VaultNotInitialized => "Vault not initialized",
            CipherPayError::VerifierNotInitialized => "Verifier not initialized",
        }
    }
}

} // verus!
