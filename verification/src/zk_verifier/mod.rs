//! Groth16/BN254 proof verification: wire codec, verifying-key parsing, and
//! the pairing-engine adapter.

pub mod deposit;
pub mod solana_verifier;
pub mod types;

pub use solana_verifier::{
    extract_public_input, parse_proof_bytes, parse_public_signals_exact, verify_deposit,
    verify_deposit_payload, verify_transfer, verify_transfer_payload, verify_withdraw,
    verify_withdraw_payload,
};

pub use solana_verifier::{
    BYTES_F, BYTES_G1, BYTES_G2, BYTES_PROOF, DEPOSIT_N_PUBLIC, MAX_IC, TRANSFER_N_PUBLIC,
    WITHDRAW_N_PUBLIC,
};

pub use types::{ZkProof, ZkPublicInputs};
