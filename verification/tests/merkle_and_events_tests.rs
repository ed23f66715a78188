//! Tests for the Merkle module, the event records, the error catalogs, and
//! the validation limits.

use cipherpay_anchor::error_code::CipherPayError;
use cipherpay_anchor::events::AuditProofVerified;
use cipherpay_anchor::events::ConditionProofVerified;
use cipherpay_anchor::events::MerkleProofVerified;
use cipherpay_anchor::events::NullifierProofVerified;
use cipherpay_anchor::events::ProofVerified;
use cipherpay_anchor::events::SplitProofVerified;
use cipherpay_anchor::events::StreamProofVerified;
use cipherpay_anchor::events::TransferProofVerified;
use cipherpay_anchor::events::VaultDeposited;
use cipherpay_anchor::events::VaultWithdrawn;
use cipherpay_anchor::events::WithdrawProofVerified;
use cipherpay_anchor::helper::compute_sha256;
use cipherpay_anchor::merkle::calculate_merkle_root;
use cipherpay_anchor::merkle::verify_leaf_in_tree;
use cipherpay_anchor::merkle::verify_merkle_proof;
use cipherpay_anchor::merkle::verify_nullifier;
use cipherpay_anchor::merkle::MerkleError;
use cipherpay_anchor::validation_limits::ValidationLimits;
use cipherpay_anchor::error::CipherPayError as EngineError;
use cipherpay_anchor::validation;
use cipherpay_anchor::zk_verifier::deposit::parse_deposit_proof;

#[test]
fn test_merkle_proof_verification() {
    // Create a simple merkle tree with 4 leaves
    let leaf1 = [1u8; 32];
    let leaf2 = [2u8; 32];
    let leaf3 = [3u8; 32];
    let leaf4 = [4u8; 32];

    // Calculate intermediate hashes
    let mut combined = Vec::new();
    combined.extend_from_slice(&leaf1);
    combined.extend_from_slice(&leaf2);
    let _hash12 = compute_sha256(&combined);

    let mut combined = Vec::new();
    combined.extend_from_slice(&leaf3);
    combined.extend_from_slice(&leaf4);
    let hash34 = compute_sha256(&combined);

    // The proof folds its first element through the rest, ordering each pair;
    // compute the root the same way the verifier does
    let proof = vec![leaf2, hash34];
    let root = calculate_merkle_root(&proof);

    // Verify proof
    assert!(verify_merkle_proof(&proof, root).is_ok());
}

#[test]
fn test_nullifier_verification() {
    let nullifier = [1u8; 32];
    let mut nullifier_set = Vec::new();

    // First verification should succeed
    assert!(verify_nullifier(nullifier, &nullifier_set).is_ok());

    // Add nullifier to set
    nullifier_set.push(nullifier);

    // Second verification should fail
    assert!(verify_nullifier(nullifier, &nullifier_set).is_err());
}

#[test]
fn merkle_verify_rejects_wrong_root() {
    let proof = vec![[1u8; 32], [2u8; 32]];
    let root = calculate_merkle_root(&proof);
    assert!(verify_merkle_proof(&proof, root).is_ok());
    let mut wrong = root;
    wrong[0] ^= 1;
    assert_eq!(verify_merkle_proof(&proof, wrong), Err(MerkleError::InvalidMerkleRoot));
    assert_eq!(verify_merkle_proof(&vec![], root), Err(MerkleError::InvalidProofFormat));
}

#[test]
fn merkle_leaf_in_tree_walks_from_leaf() {
    let leaf = [7u8; 32];
    let sibling = [8u8; 32];
    // One step: hash of the sorted pair
    let mut combined = Vec::new();
    combined.extend_from_slice(&leaf);
    combined.extend_from_slice(&sibling);
    let root = compute_sha256(&combined);
    assert_eq!(verify_leaf_in_tree(leaf, &vec![sibling], root), Ok(true));
    assert_eq!(verify_leaf_in_tree(leaf, &vec![sibling], [0u8; 32]), Ok(false));
}

#[test]
fn test_error_messages() {
    // Test that all error variants have messages
    let errors = [
        CipherPayError::InvalidProofFormat,
        CipherPayError::ProofVerificationFailed,
        CipherPayError::InsufficientComputeBudget,
        CipherPayError::InsufficientComputeUnits,
        CipherPayError::InvalidMerkleRoot,
        CipherPayError::InvalidMerkleProof,
        CipherPayError::InvalidNullifier,
        CipherPayError::ArithmeticOverflow,
        CipherPayError::InvalidStreamParams,
        CipherPayError::StreamExpired,
        CipherPayError::InvalidSplitDistribution,
        CipherPayError::RecipientLimitExceeded,
        CipherPayError::AmountOverflow,
        CipherPayError::TimeConstraintViolation,
        CipherPayError::InsufficientFunds,
        CipherPayError::NullifierAlreadyUsed,
        CipherPayError::DuplicateRecipient,
        CipherPayError::InvalidSplitParams,
        CipherPayError::ZeroAmount,
        CipherPayError::InvalidComputeBudget,
        CipherPayError::UnsupportedCircuit,
        CipherPayError::InvalidPublicInputs,
        CipherPayError::InvalidCurvePoint,
        CipherPayError::PairingVerificationFailed,
        CipherPayError::InvalidAuditProof,
        CipherPayError::InvalidConditionProof,
        CipherPayError::InvalidStreamProof,
        CipherPayError::InvalidSplitProof,
        CipherPayError::InvalidTransferProof,
        CipherPayError::InvalidWithdrawProof,
        CipherPayError::StateVerificationFailed,
        CipherPayError::AuthorityVerificationFailed,
        CipherPayError::VaultNotInitialized,
        CipherPayError::VerifierNotInitialized,
    ];

    for error in errors {
        assert!(!error.message().is_empty());
    }
}

#[test]
fn engine_error_messages_are_nonempty() {
    let errors = [
        EngineError::DepositAlreadyUsed,
        EngineError::UnknownMerkleRoot,
        EngineError::LeafIndexMismatch,
        EngineError::InvalidZkProof,
        EngineError::InvalidProofBytesLength,
        EngineError::InvalidPublicInputsLength,
        EngineError::InvalidVerifyingKey,
        EngineError::PublicInputCountMismatch,
        EngineError::PayloadBindingMismatch,
        EngineError::NullifierAlreadyUsed,
        EngineError::NullifierMismatch,
        EngineError::InvalidWithdrawAmount,
        EngineError::TokenTransferFailed,
        EngineError::VaultMismatch,
        EngineError::VaultAuthorityMismatch,
        EngineError::MemoMissing,
        EngineError::RequiredSplTransferMissing,
        EngineError::Unauthorized,
        EngineError::InvalidInput,
        EngineError::ArithmeticError,
        EngineError::OldRootMismatch,
        EngineError::NextLeafIndexMismatch,
        EngineError::AlreadyProcessed,
    ];
    for error in errors {
        assert!(!error.message().is_empty());
    }
}

#[test]
fn test_proof_verified_event() {
    // Test with default values
    let event = ProofVerified { stream_id: [0; 32], timestamp: 1234567890 };
    assert_eq!(event.stream_id, [0; 32]);
    assert_eq!(event.timestamp, 1234567890);

    // Test with maximum values
    let event = ProofVerified { stream_id: [255; 32], timestamp: i64::MAX };
    assert_eq!(event.stream_id, [255; 32]);
    assert_eq!(event.timestamp, i64::MAX);

    // Test with mock timestamp
    let mock_time = 1234567890;
    let event = ProofVerified { stream_id: [42; 32], timestamp: mock_time };
    assert_eq!(event.stream_id, [42; 32]);
    assert_eq!(event.timestamp, mock_time);
}

#[test]
fn test_vault_events() {
    let base_time = 1234567890;

    // Test deposit event
    let deposit_event = VaultDeposited { amount: 100, timestamp: base_time };
    assert_eq!(deposit_event.amount, 100);
    assert_eq!(deposit_event.timestamp, base_time);

    // Test withdrawal event
    let withdraw_event = VaultWithdrawn { amount: 100, timestamp: base_time + 1 };
    assert_eq!(withdraw_event.amount, 100);
    assert_eq!(withdraw_event.timestamp, base_time + 1);
}

#[test]
fn test_circuit_verification_events() {
    let base_time = 1234567890;
    let test_pubkey = [0x5Au8; 32];

    // Test transfer proof event
    let transfer_event =
        TransferProofVerified { amount: 1000, recipient: test_pubkey, timestamp: base_time };
    assert_eq!(transfer_event.amount, 1000);
    assert_eq!(transfer_event.recipient, test_pubkey);

    // Test withdraw proof event
    let withdraw_event =
        WithdrawProofVerified { amount: 500, recipient: test_pubkey, timestamp: base_time + 1 };
    assert_eq!(withdraw_event.amount, 500);
    assert_eq!(withdraw_event.recipient, test_pubkey);

    // Test merkle proof event
    let merkle_event = MerkleProofVerified { merkle_root: [42; 32], timestamp: base_time + 2 };
    assert_eq!(merkle_event.merkle_root, [42; 32]);

    // Test nullifier proof event
    let nullifier_event =
        NullifierProofVerified { nullifier: [123; 32], timestamp: base_time + 3 };
    assert_eq!(nullifier_event.nullifier, [123; 32]);

    // Test audit proof event
    let audit_event =
        AuditProofVerified { audit_id: [1; 32], merkle_root: [2; 32], timestamp: base_time + 4 };
    assert_eq!(audit_event.audit_id, [1; 32]);
    assert_eq!(audit_event.merkle_root, [2; 32]);

    // Test stream proof event
    let stream_event =
        StreamProofVerified { stream_id: [10; 32], amount: 2000, timestamp: base_time + 5 };
    assert_eq!(stream_event.stream_id, [10; 32]);
    assert_eq!(stream_event.amount, 2000);

    // Test split proof event
    let split_event = SplitProofVerified {
        split_id: [20; 32],
        recipients: vec![test_pubkey],
        amounts: vec![100],
        timestamp: base_time + 6,
    };
    assert_eq!(split_event.split_id, [20; 32]);
    assert_eq!(split_event.recipients.len(), 1);
    assert_eq!(split_event.amounts.len(), 1);

    // Test condition proof event
    let condition_event = ConditionProofVerified {
        condition_id: [30; 32],
        merkle_root: [40; 32],
        timestamp: base_time + 7,
    };
    assert_eq!(condition_event.condition_id, [30; 32]);
    assert_eq!(condition_event.merkle_root, [40; 32]);
}

#[test]
fn validation_limits_defaults_and_checks() {
    let limits = ValidationLimits::new();
    assert_eq!(limits.max_stream_amount, 1_000_000_000);
    assert_eq!(limits.max_stream_duration, 365 * 24 * 60 * 60);
    assert_eq!(limits.max_recipients, 10);
    assert_eq!(limits.max_proof_size, 1024);
    assert_eq!(limits.max_public_inputs, 100);
    assert!(limits.verify_stream_amount(1_000_000_000));
    assert!(!limits.verify_stream_amount(1_000_000_001));
    assert!(limits.verify_stream_duration(1000));
    assert!(!limits.verify_stream_duration(365 * 24 * 60 * 60 + 1));
    assert!(limits.verify_recipients_count(10));
    assert!(!limits.verify_recipients_count(11));
    assert!(limits.verify_proof_size(1024));
    assert!(!limits.verify_proof_size(1025));
    assert!(limits.verify_public_inputs_count(100));
    assert!(!limits.verify_public_inputs_count(101));
    let by_default = ValidationLimits::default();
    assert_eq!(by_default.max_proof_size, 1024);
}

#[test]
fn validation_guards() {
    assert!(validation::verify_stream_params(10, 1, 2).is_ok());
    assert_eq!(
        validation::verify_stream_params(0, 1, 2),
        Err(CipherPayError::ZeroAmount)
    );
    assert_eq!(
        validation::verify_stream_params(10, 2, 2),
        Err(CipherPayError::InvalidStreamParams)
    );
    assert!(validation::verify_vault_balance(10, 10).is_ok());
    assert_eq!(
        validation::verify_vault_balance(9, 10),
        Err(CipherPayError::InsufficientFunds)
    );
    let set = vec![[1u8; 32]];
    assert!(validation::verify_nullifier_usage([2u8; 32], &set).is_ok());
    assert_eq!(
        validation::verify_nullifier_usage([1u8; 32], &set),
        Err(CipherPayError::NullifierAlreadyUsed)
    );
    assert!(validation::verify_merkle_root([0u8; 32], &vec![[1u8; 32]]).is_ok());
    assert_eq!(
        validation::verify_merkle_root([0u8; 32], &vec![]),
        Err(CipherPayError::InvalidMerkleProof)
    );
    assert!(validation::verify_compute_budget_usage(1).is_ok());
}

#[test]
fn deposit_proof_intake_checks_length() {
    let ok = parse_deposit_proof(&[7u8; 200]).unwrap();
    assert_eq!(ok.len(), 200);
    assert_eq!(
        parse_deposit_proof(&[7u8; 191]),
        Err(cipherpay_anchor::error::CipherPayError::InvalidZkProof)
    );
}

#[test]
fn le_bytes_32_to_u64_reads_little_endian() {
    let mut x = [0u8; 32];
    x[0] = 0x01;
    x[1] = 0x02;
    x[7] = 0x80;
    x[8] = 0xFF; // beyond the u64 window, ignored
    assert_eq!(
        cipherpay_anchor::constants::le_bytes_32_to_u64(&x),
        0x8000_0000_0000_0201u64
    );
}
