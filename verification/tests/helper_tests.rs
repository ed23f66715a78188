//! Unit tests for the validation helpers: point-format heuristics, entropy
//! checks, Merkle walkers, and parameter guards.

use cipherpay_anchor::error_code::CipherPayError;
use cipherpay_anchor::helper::compute_sha256;
use cipherpay_anchor::helper::is_valid_merkle_root;
use cipherpay_anchor::helper::validate_entropy;
use cipherpay_anchor::helper::validate_not_all_zeros;
use cipherpay_anchor::helper::validate_not_uniform;
use cipherpay_anchor::helper::verify_audit_public_inputs;
use cipherpay_anchor::helper::verify_g1_point;
use cipherpay_anchor::helper::verify_g2_point;
use cipherpay_anchor::helper::verify_merkle_proof;
use cipherpay_anchor::helper::verify_nullifier;
use cipherpay_anchor::helper::verify_nullifier_public_inputs;
use cipherpay_anchor::helper::verify_pairing;
use cipherpay_anchor::helper::verify_proof_internal;
use cipherpay_anchor::helper::verify_split_params;
use cipherpay_anchor::helper::verify_stream_params;
use cipherpay_anchor::helper::verify_transfer_public_inputs;
use cipherpay_anchor::SplitParams;
use cipherpay_anchor::StreamParams;
use cipherpay_anchor::VerifyProofArgs;
use cipherpay_anchor::helper::verify_groth16_proof;
use cipherpay_anchor::helper::verify_arithmetic_overflow;

#[test]
fn test_basic_math() {
    assert_eq!(2 + 2, 4);
}

#[test]
fn test_verify_proof_internal() {
    // Create test data with sufficient entropy and valid format
    let mut proof_a = [0u8; 64];
    let mut proof_b = [0u8; 128];
    let mut proof_c = [0u8; 64];

    // Fill with non-zero, non-uniform data, but keep highest byte <= 0x30 (48)
    for i in 0..64 {
        proof_a[i] = ((i % 31) + 1) as u8; // 1..31, highest byte 1
        proof_c[i] = ((i % 31) + 2) as u8; // 2..32, highest byte 2
    }
    for i in 0..128 {
        proof_b[i] = ((i % 31) + 3) as u8; // 3..33, highest byte 3
    }
    // Set the highest byte in each coordinate to <= 0x30
    proof_a[31] = 0x10;
    proof_a[63] = 0x10;
    proof_b[63] = 0x10;
    proof_b[127] = 0x10;
    proof_c[31] = 0x10;
    proof_c[63] = 0x10;

    // Create public inputs with valid merkle root
    let mut public_inputs = vec![0u8; 32];
    for i in 0..32 {
        public_inputs[i] = (i + 10) as u8;
    }

    // Create valid merkle root
    let mut merkle_root = [0u8; 32];
    for i in 0..32 {
        merkle_root[i] = (i + 10) as u8;
    }

    let request = VerifyProofArgs {
        proof_a,
        proof_b,
        proof_c,
        public_inputs,
        merkle_root,
        nullifier: [0u8; 32],
        stream_id: [0u8; 32],
        proof: Vec::new(),
        recipient_address: [0u8; 32],
        amount: 100,
        timestamp: 1234567890, // Past timestamp that should pass validation
        purpose: String::from("compliance"),
        audit_id: [0u8; 32],
    };

    let result = verify_proof_internal(&request, 1234567890 + 1000);
    assert!(result.is_ok());
}

#[test]
fn test_verify_stream_params() {
    let params = StreamParams {
        stream_id: [0u8; 32],
        start_time: 1234567890, // Past time
        end_time: 1234567890 + 1000, // Future time (1000 seconds later)
        total_amount: 1000,
    };
    assert!(verify_stream_params(&params, 1234567890 + 500).is_ok());
}

#[test]
fn test_verify_split_params() {
    let params = SplitParams {
        split_id: [0u8; 32],
        recipients: vec![[0u8; 32]],
        amounts: vec![100],
    };
    assert!(verify_split_params(&params).is_ok());
}

#[test]
fn test_verify_merkle_proof() {
    // Create a simple merkle tree with 2 leaves
    let leaf1 = [1u8; 32];
    let leaf2 = [2u8; 32];

    // Hash leaf1 and leaf2
    let hash1 = compute_sha256(&leaf1);
    let hash2 = compute_sha256(&leaf2);

    // Create the root by hashing the concatenated hashes (sorted)
    let mut combined = Vec::new();
    if hash1 < hash2 {
        combined.extend_from_slice(&hash1);
        combined.extend_from_slice(&hash2);
    } else {
        combined.extend_from_slice(&hash2);
        combined.extend_from_slice(&hash1);
    }
    let root = compute_sha256(&combined);

    // Create proof for leaf1: the hash of the sibling leaf
    let proof = vec![hash2];

    println!("Expected root: {:?}", root);
    println!("Computed root: {:?}", compute_sha256(&combined));
    println!("Roots match: {}", true);

    // Verify the proof
    assert!(verify_merkle_proof(&leaf1, &proof, root).is_ok());

    // Test invalid proof
    let invalid_proof = vec![];
    assert!(verify_merkle_proof(&leaf1, &invalid_proof, root).is_err());

    // Test invalid root (all zeros)
    let invalid_root = [0u8; 32];
    assert!(verify_merkle_proof(&leaf1, &proof, invalid_root).is_err());
}

#[test]
fn test_verify_nullifier() {
    // Test valid nullifier
    let valid_nullifier = [
        1u8, 2u8, 3u8, 4u8, 5u8, 6u8, 7u8, 8u8, 9u8, 10u8, 11u8, 12u8, 13u8, 14u8, 15u8, 16u8,
        17u8, 18u8, 19u8, 20u8, 21u8, 22u8, 23u8, 24u8, 25u8, 26u8, 27u8, 28u8, 29u8, 30u8, 31u8,
        32u8,
    ];
    assert!(verify_nullifier(&valid_nullifier).is_ok());

    // Test all zeros
    let zero_nullifier = [0u8; 32];
    assert!(verify_nullifier(&zero_nullifier).is_err());

    // Test all ones
    let ones_nullifier = [0xFFu8; 32];
    assert!(verify_nullifier(&ones_nullifier).is_err());

    // Test uniform value
    let uniform_nullifier = [42u8; 32];
    assert!(verify_nullifier(&uniform_nullifier).is_err());
}

#[test]
fn test_is_valid_merkle_root() {
    // Test valid merkle root
    let valid_root = [
        1u8, 2u8, 3u8, 4u8, 5u8, 6u8, 7u8, 8u8, 9u8, 10u8, 11u8, 12u8, 13u8, 14u8, 15u8, 16u8,
        17u8, 18u8, 19u8, 20u8, 21u8, 22u8, 23u8, 24u8, 25u8, 26u8, 27u8, 28u8, 29u8, 30u8, 31u8,
        32u8,
    ];
    assert!(is_valid_merkle_root(&valid_root));

    // Test all zeros
    let zero_root = [0u8; 32];
    assert!(!is_valid_merkle_root(&zero_root));

    // Test uniform value
    let uniform_root = [42u8; 32];
    assert!(!is_valid_merkle_root(&uniform_root));

    // Test wrong length
    let short_root = [1u8; 16];
    assert!(!is_valid_merkle_root(&short_root));
}

#[test]
fn test_verify_g1_point() {
    // Test valid G1 point
    let mut valid_point = [0u8; 64];
    valid_point[0] = 1;
    valid_point[32] = 2;
    assert!(verify_g1_point(&valid_point));

    // Test all zeros
    let zero_point = [0u8; 64];
    assert!(!verify_g1_point(&zero_point));

    // Test invalid field bounds (simplified check)
    let mut invalid_point = [0u8; 64];
    invalid_point[31] = 0x31; // Too large for the simplified bounds check
    assert!(!verify_g1_point(&invalid_point));
}

#[test]
fn test_verify_g2_point() {
    // Test valid G2 point
    let mut valid_point = [0u8; 128];
    valid_point[0] = 1;
    valid_point[64] = 2;
    assert!(verify_g2_point(&valid_point));

    // Test all zeros
    let zero_point = [0u8; 128];
    assert!(!verify_g2_point(&zero_point));

    // Test invalid field bounds (simplified check)
    let mut invalid_point = [0u8; 128];
    invalid_point[63] = 0x31; // Too large for the simplified bounds check
    assert!(!verify_g2_point(&invalid_point));
}

#[test]
fn test_verify_pairing() {
    // Test valid pairing components with sufficient entropy
    let mut proof_a = [0u8; 64];
    let mut proof_b = [0u8; 128];
    let mut proof_c = [0u8; 64];

    // Add sufficient entropy to pass validation, ensuring highest bytes <= 0x30
    for i in 0..32 {
        proof_a[i] = ((i % 30) + 1) as u8; // x coordinate: 1..30
        proof_a[i + 32] = ((i % 30) + 10) as u8; // y coordinate: 10..39
        proof_c[i] = ((i % 30) + 20) as u8; // x coordinate: 20..49
        proof_c[i + 32] = ((i % 30) + 30) as u8; // y coordinate: 30..59
    }

    for i in 0..64 {
        proof_b[i] = ((i % 30) + 40) as u8; // x coordinate: 40..69
        proof_b[i + 64] = ((i % 30) + 50) as u8; // y coordinate: 50..79
    }

    // Ensure highest bytes are within valid range (<= 0x30)
    proof_a[31] = 0x20; // x coordinate highest byte
    proof_a[63] = 0x20; // y coordinate highest byte
    proof_b[63] = 0x20; // x coordinate highest byte (quadratic extension)
    proof_b[127] = 0x20; // y coordinate highest byte (quadratic extension)
    proof_c[31] = 0x20; // x coordinate highest byte
    proof_c[63] = 0x20; // y coordinate highest byte

    assert!(verify_pairing(&proof_a, &proof_b, &proof_c));

    // Test identical proof_a and proof_c (should fail)
    assert!(!verify_pairing(&proof_a, &proof_b, &proof_a));

    // Test all zeros (should fail)
    let zero_a = [0u8; 64];
    let zero_b = [0u8; 128];
    let zero_c = [0u8; 64];
    assert!(!verify_pairing(&zero_a, &zero_b, &zero_c));
}

#[test]
fn test_validate_entropy() {
    // Test high entropy data
    let high_entropy = [
        1u8, 2u8, 3u8, 4u8, 5u8, 6u8, 7u8, 8u8, 9u8, 10u8, 11u8, 12u8, 13u8, 14u8, 15u8, 16u8,
        17u8, 18u8, 19u8, 20u8, 21u8, 22u8, 23u8, 24u8, 25u8, 26u8, 27u8, 28u8, 29u8, 30u8, 31u8,
        32u8,
    ];
    assert!(validate_entropy(&high_entropy, 4));

    // Test low entropy data
    let low_entropy = [
        1u8, 1u8, 1u8, 1u8, 1u8, 1u8, 1u8, 1u8, 1u8, 1u8, 1u8, 1u8, 1u8, 1u8, 1u8, 1u8, 1u8, 1u8,
        1u8, 1u8, 1u8, 1u8, 1u8, 1u8, 1u8, 1u8, 1u8, 1u8, 1u8, 1u8, 1u8,
    ];
    assert!(!validate_entropy(&low_entropy, 4));
}

#[test]
fn test_validate_not_uniform() {
    // Test non-uniform data
    let non_uniform = [1u8, 2u8, 3u8, 4u8];
    assert!(validate_not_uniform(&non_uniform));

    // Test uniform data
    let uniform = [42u8; 4];
    assert!(!validate_not_uniform(&uniform));

    // Test empty data
    let empty: [u8; 0] = [];
    assert!(!validate_not_uniform(&empty));
}

#[test]
fn test_validate_not_all_zeros() {
    // Test non-zero data
    let non_zero = [1u8, 2u8, 3u8, 4u8];
    assert!(validate_not_all_zeros(&non_zero));

    // Test all zeros
    let all_zeros = [0u8; 4];
    assert!(!validate_not_all_zeros(&all_zeros));
}

#[test]
fn test_public_input_verification() {
    // Test transfer public inputs
    let mut transfer_inputs = [0u8; 32];
    transfer_inputs[0] = 1;
    transfer_inputs[1] = 2;
    transfer_inputs[2] = 3;
    transfer_inputs[3] = 4;
    assert!(verify_transfer_public_inputs(&transfer_inputs).is_ok());

    // Test nullifier public inputs with sufficient entropy
    let mut nullifier_inputs = [0u8; 32];
    for i in 0..32 {
        nullifier_inputs[i] = i as u8; // This gives us 32 unique bytes
    }
    assert!(verify_nullifier_public_inputs(&nullifier_inputs).is_ok());

    // Test audit public inputs
    let mut audit_inputs = [0u8; 64];
    for i in 0..32 {
        audit_inputs[i] = i as u8; // merkle_root with 32 unique bytes
    }
    for i in 32..64 {
        audit_inputs[i] = (i + 100) as u8; // audit_id with 32 unique bytes
    }
    assert!(verify_audit_public_inputs(&audit_inputs).is_ok());
}

#[test]
fn sha256_digest_matches_known_vector() {
    // SHA-256 of "abc" (FIPS 180-4 test vector)
    let digest = compute_sha256(b"abc");
    let expected: [u8; 32] = [
        0xba, 0x78, 0x16, 0xbf, 0x8f, 0x01, 0xcf, 0xea, 0x41, 0x41, 0x40, 0xde, 0x5d, 0xae, 0x22,
        0x23, 0xb0, 0x03, 0x61, 0xa3, 0x96, 0x17, 0x7a, 0x9c, 0xb4, 0x10, 0xff, 0x61, 0xf2, 0x00,
        0x15, 0xad,
    ];
    assert_eq!(digest, expected);
}

#[test]
fn groth16_format_check_dispatches_on_circuit() {
    let mut a = [0u8; 64];
    let mut b = [0u8; 128];
    let mut c = [0u8; 64];
    for i in 0..64 {
        a[i] = ((i % 29) + 1) as u8;
        c[i] = ((i % 29) + 2) as u8;
    }
    for i in 0..128 {
        b[i] = ((i % 29) + 3) as u8;
    }
    a[31] = 0x11;
    a[63] = 0x11;
    b[63] = 0x11;
    b[127] = 0x11;
    c[31] = 0x11;
    c[63] = 0x11;
    let mut inputs = [0u8; 32];
    for i in 0..32 {
        inputs[i] = (i + 10) as u8;
    }
    assert!(verify_groth16_proof(&a, &b, &c, &inputs, "transfer").is_ok());
    assert_eq!(
        verify_groth16_proof(&a, &b, &c, &inputs, "unknown"),
        Err(CipherPayError::UnsupportedCircuit)
    );
    assert_eq!(
        verify_groth16_proof(&a, &b, &c, &[0u8; 32], "transfer"),
        Err(CipherPayError::InvalidMerkleRoot)
    );
    let zero_a = [0u8; 64];
    assert_eq!(
        verify_groth16_proof(&zero_a, &b, &c, &inputs, "transfer"),
        Err(CipherPayError::InvalidProofFormat)
    );
}

#[test]
fn stream_and_split_param_errors() {
    let expired = StreamParams {
        stream_id: [0u8; 32],
        start_time: 100,
        end_time: 200,
        total_amount: 10,
    };
    assert_eq!(
        verify_stream_params(&expired, 300),
        Err(CipherPayError::StreamExpired)
    );
    let backwards = StreamParams {
        stream_id: [0u8; 32],
        start_time: 200,
        end_time: 100,
        total_amount: 10,
    };
    assert_eq!(
        verify_stream_params(&backwards, 50),
        Err(CipherPayError::InvalidStreamParams)
    );
    let zero = StreamParams { stream_id: [0u8; 32], start_time: 1, end_time: 2, total_amount: 0 };
    assert_eq!(verify_stream_params(&zero, 1), Err(CipherPayError::InvalidStreamParams));

    let too_many = SplitParams {
        split_id: [0u8; 32],
        recipients: vec![[0u8; 32]; 11],
        amounts: vec![1; 11],
    };
    assert_eq!(
        verify_split_params(&too_many),
        Err(CipherPayError::RecipientLimitExceeded)
    );
    let ragged = SplitParams {
        split_id: [0u8; 32],
        recipients: vec![[0u8; 32]; 2],
        amounts: vec![1; 3],
    };
    assert_eq!(
        verify_split_params(&ragged),
        Err(CipherPayError::InvalidSplitDistribution)
    );
    let zero_amount = SplitParams {
        split_id: [0u8; 32],
        recipients: vec![[0u8; 32]; 2],
        amounts: vec![1, 0],
    };
    assert_eq!(
        verify_split_params(&zero_amount),
        Err(CipherPayError::InvalidSplitDistribution)
    );
    let overflowing = SplitParams {
        split_id: [0u8; 32],
        recipients: vec![[0u8; 32]; 2],
        amounts: vec![u64::MAX, 1],
    };
    assert_eq!(verify_split_params(&overflowing), Err(CipherPayError::AmountOverflow));
}

#[test]
fn arithmetic_overflow_guards() {
    assert!(verify_arithmetic_overflow(1, 2).is_ok());
    assert_eq!(
        verify_arithmetic_overflow(u64::MAX, 1),
        Err(CipherPayError::AmountOverflow)
    );
    assert!(cipherpay_anchor::validation::verify_arithmetic_overflow(3, 4).is_ok());
    assert_eq!(
        cipherpay_anchor::validation::verify_arithmetic_overflow(u64::MAX, 1),
        Err(cipherpay_anchor::error_code::CipherPayError::ArithmeticOverflow)
    );
}
