//! Verifier-adapter tests: wire codec, verifying-key parsing, and rejection
//! of corrupted proofs against each circuit's key.

use cipherpay_anchor::zk_verifier::solana_verifier;
use cipherpay_anchor::zk_verifier::solana_verifier::VerifierError;
use cipherpay_anchor::zk_verifier::solana_verifier::ProofVerifier;

// ---------- deterministic stand-in wire blobs ----------
//
// The deployed verifying keys and recorded proof fixtures are not part of
// this tree, so the tests run against deterministic pseudo-random blobs of
// the right shape: every verification of them must fail, and the negative
// tests below assert exactly that.

fn fill(len: usize, seed: u8) -> Vec<u8> {
    let mut v = Vec::with_capacity(len);
    for i in 0..len {
        v.push((seed as usize).wrapping_add(i.wrapping_mul(31)).wrapping_add(i >> 5) as u8);
    }
    v
}

fn vk_for(n_public: usize, seed: u8) -> Vec<u8> {
    fill(448 + 64 * (n_public + 1), seed)
}

fn proof_for(seed: u8) -> Vec<u8> {
    fill(solana_verifier::BYTES_PROOF, seed)
}

fn publics_for(n_public: usize, seed: u8) -> Vec<u8> {
    fill(solana_verifier::BYTES_F * n_public, seed)
}

/// Return a copy of `proof` with the G2 inner limbs of B pre-swapped on the
/// wire (LE). Layout on wire: A(0..64) | B(64..192) | C(192..256).
/// B chunks (each 32B): [ bx.c0 | bx.c1 | by.c0 | by.c1 ].
fn preswap_b_on_wire(proof: &[u8]) -> Vec<u8> {
    assert_eq!(proof.len(), solana_verifier::BYTES_PROOF);
    let mut out = proof.to_vec();
    for k in 0..32 {
        out.swap(64 + k, 96 + k);
        out.swap(128 + k, 160 + k);
    }
    out
}

/// Flip one byte at `i` in a copy of `bytes`.
fn corrupt_at(bytes: &[u8], i: usize) -> Vec<u8> {
    let mut v = bytes.to_vec();
    v[i] ^= 0x01;
    v
}

/// Corrupt exactly one 32-byte public signal limb (by index, 0-based).
fn corrupt_public_at_index(publics_le: &[u8], limb_index: usize) -> Vec<u8> {
    let mut v = publics_le.to_vec();
    let start = limb_index * solana_verifier::BYTES_F;
    assert!(start + solana_verifier::BYTES_F <= v.len());
    v[start + solana_verifier::BYTES_F - 1] ^= 0x01;
    v
}

// ======================= DEPOSIT (negative) =======================

#[test]
fn verify_deposit_fails_if_publics_corrupted() {
    let vk = vk_for(solana_verifier::DEPOSIT_N_PUBLIC, 11);
    let proof = proof_for(21);
    let publics = publics_for(solana_verifier::DEPOSIT_N_PUBLIC, 31);
    let bad_publics = corrupt_public_at_index(&publics, solana_verifier::DEPOSIT_N_PUBLIC - 1);
    let res = solana_verifier::verify_deposit(&vk, &proof, &bad_publics);
    assert!(res.is_err(), "deposit verification unexpectedly succeeded with corrupted publics");
    println!("verify_deposit (corrupted publics): {:?}", res.err());
}

#[test]
fn verify_deposit_fails_if_proof_byte_flipped() {
    let vk = vk_for(solana_verifier::DEPOSIT_N_PUBLIC, 11);
    let proof = proof_for(21);
    let publics = publics_for(solana_verifier::DEPOSIT_N_PUBLIC, 31);
    let bad_proof = corrupt_at(&proof, 5);
    let res = solana_verifier::verify_deposit(&vk, &bad_proof, &publics);
    assert!(res.is_err(), "deposit verification unexpectedly succeeded with corrupted proof");
    println!("verify_deposit (corrupted proof): {:?}", res.err());
}

#[test]
fn verify_deposit_fails_if_b_is_preswapped() {
    let vk = vk_for(solana_verifier::DEPOSIT_N_PUBLIC, 11);
    let proof = proof_for(21);
    let publics = publics_for(solana_verifier::DEPOSIT_N_PUBLIC, 31);
    let bad = preswap_b_on_wire(&proof);
    assert_eq!(bad.len(), proof.len());
    let res = solana_verifier::verify_deposit(&vk, &bad, &publics);
    assert!(res.is_err(), "deposit verification unexpectedly succeeded with pre-swapped B");
    println!("verify_deposit (with pre-swapped B): {:?}", res.err());
}

// ======================= TRANSFER (negative) =======================

#[test]
fn verify_transfer_fails_if_b_is_preswapped() {
    let vk = vk_for(solana_verifier::TRANSFER_N_PUBLIC, 12);
    let proof = proof_for(22);
    let publics = publics_for(solana_verifier::TRANSFER_N_PUBLIC, 32);
    let bad = preswap_b_on_wire(&proof);
    assert_eq!(bad.len(), proof.len());
    let res = solana_verifier::verify_transfer(&vk, &bad, &publics);
    assert!(res.is_err(), "transfer verification unexpectedly succeeded with pre-swapped B");
    println!("verify_transfer (with pre-swapped B): {:?}", res.err());
}

#[test]
fn verify_transfer_fails_if_publics_corrupted() {
    let vk = vk_for(solana_verifier::TRANSFER_N_PUBLIC, 12);
    let proof = proof_for(22);
    let publics = publics_for(solana_verifier::TRANSFER_N_PUBLIC, 32);
    let bad_publics = corrupt_public_at_index(&publics, solana_verifier::TRANSFER_N_PUBLIC - 1);
    let res = solana_verifier::verify_transfer(&vk, &proof, &bad_publics);
    assert!(res.is_err(), "transfer verification unexpectedly succeeded with corrupted publics");
    println!("verify_transfer (corrupted publics): {:?}", res.err());
}

#[test]
fn verify_transfer_fails_if_proof_byte_flipped() {
    let vk = vk_for(solana_verifier::TRANSFER_N_PUBLIC, 12);
    let proof = proof_for(22);
    let publics = publics_for(solana_verifier::TRANSFER_N_PUBLIC, 32);
    let bad_proof = corrupt_at(&proof, 7);
    let res = solana_verifier::verify_transfer(&vk, &bad_proof, &publics);
    assert!(res.is_err(), "transfer verification unexpectedly succeeded with corrupted proof");
    println!("verify_transfer (corrupted proof): {:?}", res.err());
}

// ======================= WITHDRAW (negative) =======================

#[test]
fn verify_withdraw_fails_if_b_is_preswapped() {
    let vk = vk_for(solana_verifier::WITHDRAW_N_PUBLIC, 13);
    let proof = proof_for(23);
    let publics = publics_for(solana_verifier::WITHDRAW_N_PUBLIC, 33);
    let bad = preswap_b_on_wire(&proof);
    assert_eq!(bad.len(), proof.len());
    let res = solana_verifier::verify_withdraw(&vk, &bad, &publics);
    assert!(res.is_err(), "withdraw verification unexpectedly succeeded with pre-swapped B");
    println!("verify_withdraw (with pre-swapped B): {:?}", res.err());
}

#[test]
fn verify_withdraw_fails_if_publics_recipient_corrupted() {
    let vk = vk_for(solana_verifier::WITHDRAW_N_PUBLIC, 13);
    let proof = proof_for(23);
    let publics = publics_for(solana_verifier::WITHDRAW_N_PUBLIC, 33);
    // Corrupt the recipient limb (index = 2)
    let bad_publics = corrupt_public_at_index(&publics, 2);
    let res = solana_verifier::verify_withdraw(&vk, &proof, &bad_publics);
    assert!(
        res.is_err(),
        "withdraw verification unexpectedly succeeded with corrupted recipient pubkey"
    );
    println!("verify_withdraw (corrupted recipient): {:?}", res.err());
}

#[test]
fn verify_withdraw_fails_if_publics_tokenid_corrupted() {
    let vk = vk_for(solana_verifier::WITHDRAW_N_PUBLIC, 13);
    let proof = proof_for(23);
    let publics = publics_for(solana_verifier::WITHDRAW_N_PUBLIC, 33);
    // Corrupt the tokenId limb (index = 4 in the canonical 5-signal layout;
    // here the last limb of the deployed layout)
    let bad_publics = corrupt_public_at_index(&publics, 4);
    let res = solana_verifier::verify_withdraw(&vk, &proof, &bad_publics);
    assert!(
        res.is_err(),
        "withdraw verification unexpectedly succeeded with corrupted tokenId"
    );
    println!("verify_withdraw (corrupted tokenId): {:?}", res.err());
}

#[test]
fn verify_withdraw_fails_if_proof_byte_flipped() {
    let vk = vk_for(solana_verifier::WITHDRAW_N_PUBLIC, 13);
    let proof = proof_for(23);
    let publics = publics_for(solana_verifier::WITHDRAW_N_PUBLIC, 33);
    let bad_proof = corrupt_at(&proof, 11);
    let res = solana_verifier::verify_withdraw(&vk, &bad_proof, &publics);
    assert!(res.is_err(), "withdraw verification unexpectedly succeeded with corrupted proof");
    println!("verify_withdraw (corrupted proof): {:?}", res.err());
}

// ======================= Codec units =======================

#[test]
fn le32_to_be32_reverses_one_limb() {
    let mut le = [0u8; 32];
    for i in 0..32 {
        le[i] = i as u8;
    }
    let be = solana_verifier::le32_to_be32(&le);
    for i in 0..32 {
        assert_eq!(be[i], (31 - i) as u8);
    }
}

#[test]
fn le64_to_be64_reverses_each_coordinate() {
    let mut le = [0u8; 64];
    for i in 0..64 {
        le[i] = i as u8;
    }
    let be = solana_verifier::le64_to_be64_xy(&le);
    for i in 0..32 {
        assert_eq!(be[i], (31 - i) as u8);
        assert_eq!(be[32 + i], (63 - i) as u8);
    }
}

#[test]
fn negate_fq_maps_zero_to_zero() {
    let mut y = [0u8; 32];
    solana_verifier::negate_fq_be_in_place(&mut y);
    assert_eq!(y, [0u8; 32]);
}

#[test]
fn negate_fq_of_one_is_modulus_minus_one() {
    let mut y = [0u8; 32];
    y[31] = 1;
    solana_verifier::negate_fq_be_in_place(&mut y);
    let mut expected = solana_verifier::BN254_FQ_MOD_BE;
    expected[31] -= 1; // p ends in 0x47, so only the last byte changes
    assert_eq!(y, expected);
}

#[test]
fn swap_g2_exchanges_inner_limbs() {
    let mut b = [0u8; 128];
    for i in 0..128 {
        b[i] = i as u8;
    }
    let s = solana_verifier::swap_g2_inner_limbs_be(b);
    for i in 0..32 {
        assert_eq!(s[i], (32 + i) as u8);
        assert_eq!(s[32 + i], i as u8);
        assert_eq!(s[64 + i], (96 + i) as u8);
        assert_eq!(s[96 + i], (64 + i) as u8);
    }
    let twice = solana_verifier::swap_g2_inner_limbs_be(s);
    assert_eq!(twice, b);
}

#[test]
fn parse_proof_bytes_splits_at_fixed_offsets() {
    let proof = proof_for(77);
    let (a, b, c) = solana_verifier::parse_proof_bytes(&proof).unwrap();
    assert_eq!(&a[..], &proof[0..64]);
    assert_eq!(&b[..], &proof[64..192]);
    assert_eq!(&c[..], &proof[192..256]);
    assert_eq!(
        solana_verifier::parse_proof_bytes(&proof[1..]),
        Err(VerifierError::BadProofLength)
    );
}

#[test]
fn parse_public_signals_round_trips() {
    let mut signals: Vec<[u8; 32]> = Vec::new();
    for k in 0..5u8 {
        let mut limb = [0u8; 32];
        for i in 0..32 {
            limb[i] = k.wrapping_mul(37).wrapping_add(i as u8);
        }
        signals.push(limb);
    }
    let encoded = solana_verifier::encode_public_signals(&signals);
    assert_eq!(encoded.len(), 5 * 32);
    let decoded = solana_verifier::parse_public_signals_exact(&encoded).unwrap();
    assert_eq!(decoded, signals);
}

#[test]
fn parse_public_signals_rejects_ragged_blob() {
    let blob = fill(33, 1);
    assert_eq!(
        solana_verifier::parse_public_signals_exact(&blob),
        Err(VerifierError::PublicInputsNotMultipleOf32)
    );
}

#[test]
fn extract_public_input_reads_one_limb() {
    let blob = fill(96, 9);
    let limb = solana_verifier::extract_public_input(&blob, 1).unwrap();
    assert_eq!(&limb[..], &blob[32..64]);
    assert_eq!(
        solana_verifier::extract_public_input(&blob, 3),
        Err(VerifierError::IndexOutOfBounds)
    );
}

#[test]
fn ic_count_and_vk_parts() {
    let vk = vk_for(7, 50);
    assert_eq!(solana_verifier::ic_count_from_vk(&vk), Ok(8));
    let (alpha, beta, gamma, delta, ic) = solana_verifier::parse_vk_parts(&vk).unwrap();
    assert_eq!(&alpha[..], &vk[0..64]);
    assert_eq!(&beta[..], &vk[64..192]);
    assert_eq!(&gamma[..], &vk[192..320]);
    assert_eq!(&delta[..], &vk[320..448]);
    assert_eq!(ic.len(), 8);
    for i in 0..8 {
        assert_eq!(&ic[i][..], &vk[448 + 64 * i..448 + 64 * i + 64]);
    }
    assert_eq!(
        solana_verifier::ic_count_from_vk(&vk[0..500]),
        Err(VerifierError::VkTooShort)
    );
    assert_eq!(
        solana_verifier::ic_count_from_vk(&vk[0..513]),
        Err(VerifierError::VkIcRemainder)
    );
}

#[test]
fn verify_once_reports_first_failing_check() {
    let vk = vk_for(7, 50);
    let proof = proof_for(51);
    let publics = publics_for(7, 52);
    assert_eq!(
        solana_verifier::verify_once_const::<7>(&vk, &proof[1..], &publics),
        Err(VerifierError::BadProofLength)
    );
    assert_eq!(
        solana_verifier::verify_once_const::<7>(&vk, &proof, &publics[32..]),
        Err(VerifierError::PublicInputsLengthMismatch)
    );
    assert_eq!(
        solana_verifier::verify_once_const::<7>(&vk[0..100], &proof, &publics),
        Err(VerifierError::VkTooShort)
    );
    assert_eq!(
        solana_verifier::verify_once_const::<7>(&vk[0..513], &proof, &publics),
        Err(VerifierError::VkIcRemainder)
    );
    // One IC point too few for the arity
    assert_eq!(
        solana_verifier::verify_once_const::<7>(&vk_for(6, 50), &proof, &publics),
        Err(VerifierError::VkIcCountMismatch)
    );
    // 65 IC points are beyond the supported maximum
    let big_vk = vk_for(64, 50);
    let big_publics = publics_for(64, 52);
    assert_eq!(
        solana_verifier::verify_once_const::<64>(&big_vk, &proof, &big_publics),
        Err(VerifierError::VkIcTooLarge)
    );
    // Shape is fine, so the garbage key fails only at the pairing itself
    assert_eq!(
        solana_verifier::verify_once_const::<7>(&vk, &proof, &publics),
        Err(VerifierError::PairingFailed)
    );
}

#[test]
fn format_only_backend_checks_shape_alone() {
    let v = ProofVerifier::FormatOnly;
    let proof = proof_for(60);
    let publics = publics_for(7, 61);
    assert!(v.accepts::<7>(&proof, &publics));
    assert!(!v.accepts::<7>(&proof[1..], &publics));
    assert!(!v.accepts::<7>(&proof, &publics[1..]));
    assert!(!v.accepts::<9>(&proof, &publics));
    let real = ProofVerifier::Groth16 { vk_be: vk_for(7, 62) };
    assert!(!real.accepts::<7>(&proof, &publics));
}

#[test]
fn verifier_error_messages_are_nonempty() {
    let errors = [
        VerifierError::PublicInputsNotMultipleOf32,
        VerifierError::IndexOutOfBounds,
        VerifierError::BadProofLength,
        VerifierError::PublicInputsLengthMismatch,
        VerifierError::VkTooShort,
        VerifierError::VkIcRemainder,
        VerifierError::VkIcCountMismatch,
        VerifierError::VkIcTooLarge,
        VerifierError::PairingFailed,
    ];
    for e in errors {
        assert!(!e.message().is_empty());
    }
}

#[test]
fn swap32_in_place_exchanges_blocks() {
    let mut data: Vec<u8> = (0u8..128).collect();
    solana_verifier::swap32_in_place(&mut data, 0, 32);
    for k in 0..32 {
        assert_eq!(data[k], (32 + k) as u8);
        assert_eq!(data[32 + k], k as u8);
        assert_eq!(data[64 + k], (64 + k) as u8);
    }
}

#[test]
fn negate_fq_wraps_for_values_above_the_modulus() {
    // 2^256 - 1 exceeds the modulus, so the difference wraps once: p + 1.
    let mut y = [0xFFu8; 32];
    solana_verifier::negate_fq_be_in_place(&mut y);
    let mut expected = solana_verifier::BN254_FQ_MOD_BE;
    expected[31] += 1; // p ends in 0x47, so only the last byte changes
    assert_eq!(y, expected);
}
