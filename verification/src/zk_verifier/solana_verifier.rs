//! Groth16 adapter for the BN254 pairing engine.
//!
//! The verifying key blob carries BIG-ENDIAN limbs (alpha G1 | beta G2 |
//! gamma G2 | delta G2 | IC[0..n]); the proof and public signals arrive on the
//! wire as LITTLE-ENDIAN 32-byte limbs. The adapter converts LE to BE per
//! limb, negates A.y, and reorders the inner G2 limbs to the order the
//! pairing engine expects. Both the negation and the limb swaps are fixed
//! configuration that must match the key-generation toolchain: getting either
//! wrong makes every verification fail, so deployments must be validated
//! against known-good fixtures.

use vstd::prelude::*;

use crate::bytes::all_zero;
use crate::bytes::read32;

verus! {

/// Negate the y coordinate of proof point A before the pairing call.
pub const NEGATE_A_Y: bool = true;

/// Swap the inner G2 limbs of proof point B.
pub const SWAP_PROOF_B: bool = true;

/// Swap the inner G2 limbs of the verifying key's G2 points.
pub const SWAP_VK_G2: bool = true;

// ---- Sizes ------------------------------------------------------------------
pub const BYTES_F: usize = 32;

pub const BYTES_G1: usize = 64;

pub const BYTES_G2: usize = 128;

pub const BYTES_PROOF: usize = 256;

/// Fixed part of a verifying-key blob: alpha, beta, gamma, delta.
pub const BYTES_VK_FIXED: usize = 448;

pub const MAX_IC: usize = 64;

// ---- Circuit-specific public counts -----------------------------------------
// Fixed from the field layout the state machine reads (the verifying key's IC
// count must equal the arity plus one).
pub const DEPOSIT_N_PUBLIC: usize = 7;

pub const TRANSFER_N_PUBLIC: usize = 9;

pub const WITHDRAW_N_PUBLIC: usize = 7;

// ---- Public-signal indices, deposit circuit ---------------------------------
pub const DEPOSIT_IDX_NEW_COMMITMENT: usize = 0;

pub const DEPOSIT_IDX_OWNER_CIPHERPAY_PUBKEY: usize = 1;

pub const DEPOSIT_IDX_NEW_MERKLE_ROOT: usize = 2;

pub const DEPOSIT_IDX_NEW_NEXT_LEAF_INDEX: usize = 3;

pub const DEPOSIT_IDX_AMOUNT: usize = 4;

pub const DEPOSIT_IDX_DEPOSIT_HASH: usize = 5;

pub const DEPOSIT_IDX_OLD_MERKLE_ROOT: usize = 6;

// ---- Public-signal indices, transfer circuit --------------------------------
pub const TRANSFER_IDX_OUT_COMMITMENT_1: usize = 0;

pub const TRANSFER_IDX_OUT_COMMITMENT_2: usize = 1;

pub const TRANSFER_IDX_NULLIFIER: usize = 2;

pub const TRANSFER_IDX_MERKLE_ROOT: usize = 3;

pub const TRANSFER_IDX_NEW_MERKLE_ROOT_1: usize = 4;

pub const TRANSFER_IDX_NEW_MERKLE_ROOT_2: usize = 5;

pub const TRANSFER_IDX_NEW_NEXT_LEAF_INDEX: usize = 6;

pub const TRANSFER_IDX_ENC_NOTE1_HASH: usize = 7;

pub const TRANSFER_IDX_ENC_NOTE2_HASH: usize = 8;

// ---- Public-signal indices, withdraw circuit --------------------------------
pub const WITHDRAW_IDX_NULLIFIER: usize = 0;

pub const WITHDRAW_IDX_MERKLE_ROOT: usize = 1;

pub const WITHDRAW_IDX_RECIPIENT_OWNER_LO: usize = 2;

pub const WITHDRAW_IDX_RECIPIENT_OWNER_HI: usize = 3;

pub const WITHDRAW_IDX_RECIPIENT_WALLET_PUBKEY: usize = 4;

pub const WITHDRAW_IDX_AMOUNT: usize = 5;

pub const WITHDRAW_IDX_TOKEN_ID: usize = 6;

/// BN254 base-field modulus, big-endian.
pub const BN254_FQ_MOD_BE: [u8; 32] = [
    0x30, 0x64, 0x4e, 0x72, 0xe1, 0x31, 0xa0, 0x29, 0xb8, 0x50, 0x45, 0xb6, 0x81, 0x81, 0x58,
    0x5d, 0x97, 0x81, 0x6a, 0x91, 0x68, 0x71, 0xca, 0x8d, 0x3c, 0x20, 0x8c, 0x16, 0xd8, 0x7c,
    0xfd, 0x47,
];

/// Failure modes of the verifier adapter.
#[derive(Clone, Copy, Debug, PartialEq, Eq, Structural)]
pub enum VerifierError {
    /// Public inputs blob is not a multiple of 32 bytes.
    PublicInputsNotMultipleOf32,
    /// A public-signal index is out of bounds.
    IndexOutOfBounds,
    /// Proof blob is not exactly 256 bytes.
    BadProofLength,
    /// Public inputs length does not equal the circuit arity times 32.
    PublicInputsLengthMismatch,
    /// Verifying key blob too short for alpha, beta, gamma, delta and one IC
    /// point.
    VkTooShort,
    /// Trailing IC list is not a multiple of 64 bytes.
    VkIcRemainder,
    /// IC count differs from the circuit arity plus one.
    VkIcCountMismatch,
    /// IC list longer than the supported maximum.
    VkIcTooLarge,
    /// The pairing engine rejected the proof.
    PairingFailed,
}

impl VerifierError {
    /// Short diagnostic text for logs.
    pub fn message(&self) -> &'static str {
        match self {
            VerifierError::PublicInputsNotMultipleOf32 => "public inputs len not multiple of 32",
            VerifierError::IndexOutOfBounds => "index OOB",
            VerifierError::BadProofLength => "bad proof len",
            VerifierError::PublicInputsLengthMismatch => "public inputs length mismatch",
            VerifierError::VkTooShort => "vk too short",
            VerifierError::VkIcRemainder => "IC remainder not multiple of 64",
            VerifierError::VkIcCountMismatch => "vk.ic count != N+1",
            VerifierError::VkIcTooLarge => "vk.ic too large",
            VerifierError::PairingFailed => "pairing failed",
        }
    }
}

// -------------------- Little helpers (LE/BE & math) --------------------------
/// Reversal of one 32-byte limb.
pub open spec fn spec_rev32(le: Seq<u8>) -> Seq<u8> {
    Seq::new(32, |i: int| le[31 - i])
}

/// Limb-wise reversal of a G1 point: x and y reversed independently.
pub open spec fn spec_be64_xy(le: Seq<u8>) -> Seq<u8> {
    spec_rev32(le.subrange(0, 32)) + spec_rev32(le.subrange(32, 64))
}

/// Whether the borrow chain of the big-endian subtraction `p - y` reaches
/// byte `i` (borrows propagate from the last byte toward the first).
pub open spec fn spec_borrow(p: Seq<u8>, y: Seq<u8>, i: int) -> bool
    decreases 31 - i,
{
    if i >= 31 {
        false
    } else {
        p[i + 1] - y[i + 1] - (if spec_borrow(p, y, i + 1) {
            1int
        } else {
            0int
        }) < 0
    }
}

/// Byte `i` of the big-endian difference `(p - y) mod 2^256`.
pub open spec fn spec_sub_byte(p: Seq<u8>, y: Seq<u8>, i: int) -> u8 {
    (((p[i] - y[i] - (if spec_borrow(p, y, i) {
        1int
    } else {
        0int
    })) % 256) as u8)
}

/// `(p - y) mod 2^256` for the BN254 base-field modulus `p`, with zero mapped
/// to itself: there is no negative zero in this representation.
pub open spec fn spec_negate_fq(y: Seq<u8>) -> Seq<u8> {
    if all_zero(y) {
        y
    } else {
        Seq::new(32, |i: int| spec_sub_byte(BN254_FQ_MOD_BE@, y, i))
    }
}

/// Exchange of the sub-field coordinate limbs of a 128-byte G2 encoding:
/// bytes [0..32) with [32..64) and [64..96) with [96..128).
pub open spec fn spec_swap_g2(b: Seq<u8>) -> Seq<u8> {
    b.subrange(32, 64) + b.subrange(0, 32) + b.subrange(96, 128) + b.subrange(64, 96)
}

/// One 32-byte limb turned from little- to big-endian.
pub fn le32_to_be32(le: &[u8]) -> (out: [u8; 32])
    requires
        le@.len() == 32,
    ensures
        out@ == spec_rev32(le@),
{
    let mut out: [u8; 32] = [0; 32];
    let mut i: usize = 0;
    while i < 32
        invariant
            i <= 32,
            le@.len() == 32,
            forall|j: int| 0 <= j < i ==> out@[j] == le@[31 - j],
        decreases 32 - i,
    {
        out[i] = le[31 - i];
        i = i + 1;
    }
    proof {
        assert(out@ =~= spec_rev32(le@));
    }
    out
}

/// A 64-byte G1 point with each coordinate limb reversed independently.
pub fn le64_to_be64_xy(le: &[u8]) -> (out: [u8; 64])
    requires
        le@.len() == 64,
    ensures
        out@ == spec_be64_xy(le@),
{
    let mut out: [u8; 64] = [0; 64];
    let mut i: usize = 0;
    while i < 32
        invariant
            i <= 32,
            le@.len() == 64,
            forall|j: int| 0 <= j < i ==> out@[j] == le@[31 - j],
            forall|j: int| 32 <= j < 32 + i ==> out@[j] == le@[95 - j],
        decreases 32 - i,
    {
        out[i] = le[31 - i];
        out[32 + i] = le[63 - i];
        i = i + 1;
    }
    proof {
        assert(out@ =~= spec_be64_xy(le@));
    }
    out
}

/// y := (p - y) mod 2^256 (big-endian limb), by limb-wise subtraction with
/// borrow. If y == 0, keep 0.
pub fn negate_fq_be_in_place(y: &mut [u8; 32])
    ensures
        final(y)@ == spec_negate_fq(old(y)@),
{
    if crate::bytes::is_all_zero(y.as_slice()) {
        return ;
    }
    let ghost y0 = y@;
    let mut borrow: u16 = 0;
    let mut i: usize = 32;
    while i > 0
        invariant
            i <= 32,
            !all_zero(y0),
            borrow <= 1,
            (borrow == 1) <==> spec_borrow(BN254_FQ_MOD_BE@, y0, i - 1),
            forall|j: int| 0 <= j < i ==> y@[j] == y0[j],
            forall|j: int| i <= j < 32 ==> y@[j] == spec_sub_byte(BN254_FQ_MOD_BE@, y0, j),
        decreases i,
    {
        i = i - 1;
        let p = BN254_FQ_MOD_BE[i] as i16;
        let yi = y[i] as i16;
        let mut diff: i32 = p as i32 - yi as i32 - borrow as i32;
        if diff < 0 {
            diff = diff + 256;
            borrow = 1;
        } else {
            borrow = 0;
        }
        y[i] = diff as u8;
    }
    proof {
        assert(y@ =~= spec_negate_fq(y0));
    }
}

/// Swap the 32-byte block at `i` with the 32-byte block at `j` (`i + 32 <= j`).
pub fn swap32_in_place(data: &mut [u8], i: usize, j: usize)
    requires
        i + 32 <= j,
        j + 32 <= old(data)@.len(),
    ensures
        final(data)@.len() == old(data)@.len(),
        forall|k: int|
            0 <= k < old(data)@.len() ==> final(data)@[k] == if i <= k < i + 32 {
                old(data)@[k - i + j]
            } else if j <= k < j + 32 {
                old(data)@[k - j + i]
            } else {
                old(data)@[k]
            },
{
    let mut k: usize = 0;
    while k < 32
        invariant
            k <= 32,
            i + 32 <= j,
            j + 32 <= data@.len(),
            data@.len() == old(data)@.len(),
            forall|t: int|
                0 <= t < data@.len() ==> data@[t] == if i <= t < i + k {
                    old(data)@[t - i + j]
                } else if j <= t < j + k {
                    old(data)@[t - j + i]
                } else {
                    old(data)@[t]
                },
        decreases 32 - k,
    {
        let tmp = data[i + k];
        data[i + k] = data[j + k];
        data[j + k] = tmp;
        k = k + 1;
    }
}

/// The two inner limb pairs of a 128-byte G2 encoding exchanged.
pub fn swap_g2_inner_limbs_be(b: [u8; 128]) -> (out: [u8; 128])
    ensures
        out@ == spec_swap_g2(b@),
{
    let mut out: [u8; 128] = [0; 128];
    let mut k: usize = 0;
    while k < 32
        invariant
            k <= 32,
            forall|j: int| 0 <= j < k ==> out@[j] == b@[32 + j],
            forall|j: int| 32 <= j < 32 + k ==> out@[j] == b@[j - 32],
            forall|j: int| 64 <= j < 64 + k ==> out@[j] == b@[j + 32],
            forall|j: int| 96 <= j < 96 + k ==> out@[j] == b@[j - 32],
        decreases 32 - k,
    {
        out[k] = b[32 + k];
        out[32 + k] = b[k];
        out[64 + k] = b[96 + k];
        out[96 + k] = b[64 + k];
        k = k + 1;
    }
    proof {
        assert(out@ =~= spec_swap_g2(b@));
    }
    out
}

} // verus!

verus! {

// ---- Public inputs & proof (LE on wire) -------------------------------------
/// The `i`-th 32-byte public signal of a signal blob.
pub open spec fn signal_at(s: Seq<u8>, i: int) -> Seq<u8> {
    s.subrange(32 * i, 32 * i + 32)
}

/// Splits a public-signal blob into its 32-byte field elements.
pub fn parse_public_signals_exact(signals: &[u8]) -> (r: Result<Vec<[u8; 32]>, VerifierError>)
    ensures
        r is Ok <==> signals@.len() % 32 == 0,
        r is Err ==> r == Result::<Vec<[u8; 32]>, VerifierError>::Err(
            VerifierError::PublicInputsNotMultipleOf32,
        ),
        r matches Ok(v) ==> v@.len() == signals@.len() / 32 && forall|i: int|
            0 <= i < v@.len() ==> v@[i]@ == signal_at(signals@, i),
{
    if signals.len() % BYTES_F != 0 {
        return Err(VerifierError::PublicInputsNotMultipleOf32);
    }
    let len = signals.len();
    let n = len / BYTES_F;
    let mut out: Vec<[u8; 32]> = Vec::new();
    let mut i: usize = 0;
    while i < n
        invariant
            i <= n,
            len == signals@.len(),
            signals@.len() % 32 == 0,
            n == signals@.len() / 32,
            out@.len() == i,
            forall|j: int| 0 <= j < i ==> out@[j]@ == signal_at(signals@, j),
        decreases n - i,
    {
        proof {
            vstd::arithmetic::div_mod::lemma_fundamental_div_mod(signals@.len() as int, 32);
        }
        out.push(read32(signals, i * 32));
        i = i + 1;
    }
    Ok(out)
}

/// Reads the public signal at `idx` from a signal blob.
pub fn extract_public_input(signals: &[u8], idx: usize) -> (r: Result<[u8; 32], VerifierError>)
    ensures
        r is Ok <==> 32 * idx + 32 <= signals@.len(),
        r is Err ==> r == Result::<[u8; 32], VerifierError>::Err(VerifierError::IndexOutOfBounds),
        r matches Ok(v) ==> v@ == signal_at(signals@, idx as int),
{
    if idx >= signals.len() / BYTES_F {
        proof {
            vstd::arithmetic::div_mod::lemma_fundamental_div_mod(signals@.len() as int, 32);
        }
        return Err(VerifierError::IndexOutOfBounds);
    }
    proof {
        vstd::arithmetic::div_mod::lemma_fundamental_div_mod(signals@.len() as int, 32);
    }
    Ok(read32(signals, idx * 32))
}

/// Splits a 256-byte wire proof into its three points A | B | C at the fixed
/// offsets 0 / 64 / 192, with no validation beyond the length.
pub fn parse_proof_bytes(proof_le: &[u8]) -> (r: Result<
    ([u8; 64], [u8; 128], [u8; 64]),
    VerifierError,
>)
    ensures
        r is Ok <==> proof_le@.len() == 256,
        r is Err ==> r == Result::<([u8; 64], [u8; 128], [u8; 64]), VerifierError>::Err(
            VerifierError::BadProofLength,
        ),
        r matches Ok(t) ==> t.0@ == proof_le@.subrange(0, 64) && t.1@ == proof_le@.subrange(64, 192)
            && t.2@ == proof_le@.subrange(192, 256),
{
    if proof_le.len() != BYTES_PROOF {
        return Err(VerifierError::BadProofLength);
    }
    let a = read64(proof_le, 0);
    let b = read128(proof_le, 64);
    let c = read64(proof_le, 192);
    Ok((a, b, c))
}

/// Copies 64 bytes starting at `off` into a fresh array.
fn read64(s: &[u8], off: usize) -> (r: [u8; 64])
    requires
        off + 64 <= s@.len(),
    ensures
        r@ == s@.subrange(off as int, off + 64),
{
    let n = s.len();
    let mut r: [u8; 64] = [0; 64];
    let mut i: usize = 0;
    while i < 64
        invariant
            i <= 64,
            n == s@.len(),
            off + 64 <= n,
            forall|j: int| 0 <= j < i ==> r@[j] == s@[off + j],
        decreases 64 - i,
    {
        r[i] = s[off + i];
        i = i + 1;
    }
    proof {
        assert(r@ =~= s@.subrange(off as int, off + 64));
    }
    r
}

/// Copies 128 bytes starting at `off` into a fresh array.
fn read128(s: &[u8], off: usize) -> (r: [u8; 128])
    requires
        off + 128 <= s@.len(),
    ensures
        r@ == s@.subrange(off as int, off + 128),
{
    let n = s.len();
    let mut r: [u8; 128] = [0; 128];
    let mut i: usize = 0;
    while i < 128
        invariant
            i <= 128,
            n == s@.len(),
            off + 128 <= n,
            forall|j: int| 0 <= j < i ==> r@[j] == s@[off + j],
        decreases 128 - i,
    {
        r[i] = s[off + i];
        i = i + 1;
    }
    proof {
        assert(r@ =~= s@.subrange(off as int, off + 128));
    }
    r
}

// ---- VK parsing (BE on disk) ------------------------------------------------
/// Whether a verifying-key blob has a well-formed length: room for alpha,
/// beta, gamma, delta, and a whole number of 64-byte IC points.
pub open spec fn spec_vk_shape_ok(vk: Seq<u8>) -> bool {
    vk.len() >= 512 && (vk.len() - 448) % 64 == 0
}

/// Number of IC points in the trailing list of a verifying-key blob.
pub open spec fn spec_ic_count(vk: Seq<u8>) -> int {
    (vk.len() - 448) / 64
}

/// The `i`-th IC point of a verifying-key blob.
pub open spec fn spec_vk_ic_at(vk: Seq<u8>, i: int) -> Seq<u8> {
    vk.subrange(448 + 64 * i, 448 + 64 * i + 64)
}

/// Counts the IC points of a verifying-key blob, rejecting ill-shaped blobs.
pub fn ic_count_from_vk(vk_be: &[u8]) -> (r: Result<usize, VerifierError>)
    ensures
        r is Ok <==> spec_vk_shape_ok(vk_be@),
        vk_be@.len() < 512 ==> r == Result::<usize, VerifierError>::Err(VerifierError::VkTooShort),
        vk_be@.len() >= 512 && (vk_be@.len() - 448) % 64 != 0 ==> r == Result::<
            usize,
            VerifierError,
        >::Err(VerifierError::VkIcRemainder),
        r matches Ok(n) ==> n == spec_ic_count(vk_be@),
{
    if vk_be.len() < BYTES_G1 + 3 * BYTES_G2 + BYTES_G1 {
        return Err(VerifierError::VkTooShort);
    }
    let rem = vk_be.len() - BYTES_VK_FIXED;
    if rem % BYTES_G1 != 0 {
        return Err(VerifierError::VkIcRemainder);
    }
    Ok(rem / BYTES_G1)
}

/// Splits a verifying-key blob into (alpha, beta, gamma, delta, IC list).
pub fn parse_vk_parts(vk_be: &[u8]) -> (r: Result<
    ([u8; 64], [u8; 128], [u8; 128], [u8; 128], Vec<[u8; 64]>),
    VerifierError,
>)
    ensures
        r is Ok <==> spec_vk_shape_ok(vk_be@),
        vk_be@.len() < 512 ==> r == Result::<
            ([u8; 64], [u8; 128], [u8; 128], [u8; 128], Vec<[u8; 64]>),
            VerifierError,
        >::Err(VerifierError::VkTooShort),
        vk_be@.len() >= 512 && (vk_be@.len() - 448) % 64 != 0 ==> r == Result::<
            ([u8; 64], [u8; 128], [u8; 128], [u8; 128], Vec<[u8; 64]>),
            VerifierError,
        >::Err(VerifierError::VkIcRemainder),
        r matches Ok(t) ==> t.0@ == vk_be@.subrange(0, 64) && t.1@ == vk_be@.subrange(64, 192)
            && t.2@ == vk_be@.subrange(192, 320) && t.3@ == vk_be@.subrange(320, 448)
            && t.4@.len() == spec_ic_count(vk_be@) && forall|i: int|
            0 <= i < t.4@.len() ==> t.4@[i]@ == spec_vk_ic_at(vk_be@, i),
{
    let ic = match ic_count_from_vk(vk_be) {
        Ok(n) => n,
        Err(e) => {
            return Err(e);
        },
    };
    let alpha = read64(vk_be, 0);
    let beta = read128(vk_be, 64);
    let gamma = read128(vk_be, 192);
    let delta = read128(vk_be, 320);
    let mut ic_vec: Vec<[u8; 64]> = Vec::new();
    let mut i: usize = 0;
    let len = vk_be.len();
    while i < ic
        invariant
            i <= ic,
            len == vk_be@.len(),
            spec_vk_shape_ok(vk_be@),
            ic == spec_ic_count(vk_be@),
            ic_vec@.len() == i,
            forall|j: int| 0 <= j < i ==> ic_vec@[j]@ == spec_vk_ic_at(vk_be@, j),
        decreases ic - i,
    {
        proof {
            vstd::arithmetic::div_mod::lemma_fundamental_div_mod(vk_be@.len() - 448, 64);
            assert(448 + 64 * (i + 1) <= vk_be@.len());
        }
        ic_vec.push(read64(vk_be, BYTES_VK_FIXED + i * 64));
        i = i + 1;
    }
    Ok((alpha, beta, gamma, delta, ic_vec))
}

} // verus!

verus! {

// -------------------- Core verify (const-generic N) --------------------------
/// Proof point A as handed to the pairing engine: limbs big-endian, y negated.
pub open spec fn spec_prepared_a(proof: Seq<u8>) -> Seq<u8> {
    let a = spec_be64_xy(proof.subrange(0, 64));
    if NEGATE_A_Y {
        a.subrange(0, 32) + spec_negate_fq(a.subrange(32, 64))
    } else {
        a
    }
}

/// Proof point B as handed to the pairing engine: limbs big-endian, inner
/// limbs swapped.
pub open spec fn spec_prepared_b(proof: Seq<u8>) -> Seq<u8> {
    let b = spec_rev32(proof.subrange(64, 96)) + spec_rev32(proof.subrange(96, 128)) + spec_rev32(
        proof.subrange(128, 160),
    ) + spec_rev32(proof.subrange(160, 192));
    if SWAP_PROOF_B {
        spec_swap_g2(b)
    } else {
        b
    }
}

/// Proof point C as handed to the pairing engine: limbs big-endian.
pub open spec fn spec_prepared_c(proof: Seq<u8>) -> Seq<u8> {
    spec_be64_xy(proof.subrange(192, 256))
}

/// The public signals as handed to the pairing engine: each limb big-endian.
pub open spec fn spec_prepared_publics(publics: Seq<u8>, n: int) -> Seq<Seq<u8>> {
    Seq::new(n as nat, |i: int| spec_rev32(signal_at(publics, i)))
}

pub open spec fn spec_vk_alpha(vk: Seq<u8>) -> Seq<u8> {
    vk.subrange(0, 64)
}

pub open spec fn spec_vk_beta(vk: Seq<u8>) -> Seq<u8> {
    if SWAP_VK_G2 {
        spec_swap_g2(vk.subrange(64, 192))
    } else {
        vk.subrange(64, 192)
    }
}

pub open spec fn spec_vk_gamma(vk: Seq<u8>) -> Seq<u8> {
    if SWAP_VK_G2 {
        spec_swap_g2(vk.subrange(192, 320))
    } else {
        vk.subrange(192, 320)
    }
}

pub open spec fn spec_vk_delta(vk: Seq<u8>) -> Seq<u8> {
    if SWAP_VK_G2 {
        spec_swap_g2(vk.subrange(320, 448))
    } else {
        vk.subrange(320, 448)
    }
}

/// The IC list of a verifying-key blob.
pub open spec fn spec_vk_ic(vk: Seq<u8>) -> Seq<Seq<u8>> {
    Seq::new(spec_ic_count(vk) as nat, |i: int| spec_vk_ic_at(vk, i))
}

/// The views of a list of 32-byte limbs.
pub open spec fn seq_views32(s: Seq<[u8; 32]>) -> Seq<Seq<u8>> {
    Seq::new(s.len(), |i: int| s[i]@)
}

/// The views of a list of 64-byte points.
pub open spec fn seq_views64(s: Seq<[u8; 64]>) -> Seq<Seq<u8>> {
    Seq::new(s.len(), |i: int| s[i]@)
}

/// Whether the BN254 pairing engine accepts this fully-prepared input: proof
/// points A, B, C (big-endian, A negated, B swapped), the public signals
/// (big-endian), and the verifying key's alpha, beta, gamma, delta and IC
/// points as the engine expects them. The exact pairing equation is owned by
/// the engine; the adapter's task is producing correctly-signed,
/// correctly-endianed inputs for it.
pub uninterp spec fn pairing_ok(
    proof_a: Seq<u8>,
    proof_b: Seq<u8>,
    proof_c: Seq<u8>,
    publics: Seq<Seq<u8>>,
    vk_alpha: Seq<u8>,
    vk_beta: Seq<u8>,
    vk_gamma: Seq<u8>,
    vk_delta: Seq<u8>,
    vk_ic: Seq<Seq<u8>>,
) -> bool;

/// Relies on `groth16_solana::groth16::Groth16Verifier` (`new` + `verify`):
/// the Groth16 pairing check over BN254, written for the byte layout this
/// adapter produces. `new` fails only when the IC list does not hold exactly
/// one more point than there are public inputs, which the preconditions rule
/// out; `verify` is deterministic in its inputs (it also rejects any public
/// input not below the scalar-field modulus).
#[verifier::external_body]
fn groth16_pairing_check<const N: usize>(
    proof_a: &[u8; 64],
    proof_b: &[u8; 128],
    proof_c: &[u8; 64],
    publics: &Vec<[u8; 32]>,
    vk_alpha: &[u8; 64],
    vk_beta: &[u8; 128],
    vk_gamma: &[u8; 128],
    vk_delta: &[u8; 128],
    vk_ic: &Vec<[u8; 64]>,
) -> (r: bool)
    requires
        publics@.len() == N,
        vk_ic@.len() == N + 1,
    ensures
        r == pairing_ok(
            proof_a@,
            proof_b@,
            proof_c@,
            seq_views32(publics@),
            vk_alpha@,
            vk_beta@,
            vk_gamma@,
            vk_delta@,
            seq_views64(vk_ic@),
        ),
{
    let vk = groth16_solana::groth16::Groth16Verifyingkey {
        nr_pubinputs: N,
        vk_alpha_g1: *vk_alpha,
        vk_beta_g2: *vk_beta,
        vk_gamme_g2: *vk_gamma,
        vk_delta_g2: *vk_delta,
        vk_ic: vk_ic.as_slice(),
    };
    let publics_arr: &[[u8; 32]; N] = publics.as_slice().try_into().unwrap();
    match groth16_solana::groth16::Groth16Verifier::<N>::new(
        proof_a, proof_b, proof_c, publics_arr, &vk,
    ) {
        Ok(mut verifier) => verifier.verify().is_ok(),
        Err(_) => false,
    }
}

/// Whether verification succeeds for arity `n`: both blobs have the right
/// length, the key is well-shaped with `n + 1` IC points within the supported
/// maximum, and the pairing engine accepts the prepared inputs.
pub open spec fn spec_verify_ok(n: int, vk: Seq<u8>, proof: Seq<u8>, publics: Seq<u8>) -> bool {
    &&& proof.len() == 256
    &&& publics.len() == 32 * n
    &&& spec_vk_shape_ok(vk)
    &&& spec_ic_count(vk) == n + 1
    &&& n + 1 <= MAX_IC
    &&& pairing_ok(
        spec_prepared_a(proof),
        spec_prepared_b(proof),
        spec_prepared_c(proof),
        spec_prepared_publics(publics, n),
        spec_vk_alpha(vk),
        spec_vk_beta(vk),
        spec_vk_gamma(vk),
        spec_vk_delta(vk),
        spec_vk_ic(vk),
    )
}

/// The exact outcome of verification for arity `n`: the first failing check
/// names the error.
pub open spec fn spec_verify_result(n: int, vk: Seq<u8>, proof: Seq<u8>, publics: Seq<u8>) -> Result<
    (),
    VerifierError,
> {
    if proof.len() != 256 {
        Err(VerifierError::BadProofLength)
    } else if publics.len() != 32 * n {
        Err(VerifierError::PublicInputsLengthMismatch)
    } else if vk.len() < 512 {
        Err(VerifierError::VkTooShort)
    } else if (vk.len() - 448) % 64 != 0 {
        Err(VerifierError::VkIcRemainder)
    } else if spec_ic_count(vk) != n + 1 {
        Err(VerifierError::VkIcCountMismatch)
    } else if n + 1 > MAX_IC {
        Err(VerifierError::VkIcTooLarge)
    } else if !pairing_ok(
        spec_prepared_a(proof),
        spec_prepared_b(proof),
        spec_prepared_c(proof),
        spec_prepared_publics(publics, n),
        spec_vk_alpha(vk),
        spec_vk_beta(vk),
        spec_vk_gamma(vk),
        spec_vk_delta(vk),
        spec_vk_ic(vk),
    ) {
        Err(VerifierError::PairingFailed)
    } else {
        Ok(())
    }
}

/// Copies a 32-byte block into a 128-byte point at `off`.
fn write32_128(dst: &mut [u8; 128], off: usize, src: &[u8; 32])
    requires
        off + 32 <= 128,
    ensures
        forall|k: int|
            0 <= k < 128 ==> final(dst)@[k] == if off <= k < off + 32 {
                src@[k - off]
            } else {
                old(dst)@[k]
            },
{
    let mut k: usize = 0;
    while k < 32
        invariant
            k <= 32,
            off + 32 <= 128,
            forall|t: int|
                0 <= t < 128 ==> dst@[t] == if off <= t < off + k {
                    src@[t - off]
                } else {
                    old(dst)@[t]
                },
        decreases 32 - k,
    {
        dst[off + k] = src[k];
        k = k + 1;
    }
}

/// Runs the whole verification for a circuit with `N` public inputs: length
/// checks, key parsing, wire conversion, and the pairing call.
pub fn verify_once_const<const N: usize>(vk_be: &[u8], proof_le: &[u8], public_le: &[u8]) -> (r:
    Result<(), VerifierError>)
    requires
        N <= MAX_IC,
    ensures
        r == spec_verify_result(N as int, vk_be@, proof_le@, public_le@),
        r is Ok <==> spec_verify_ok(N as int, vk_be@, proof_le@, public_le@),
{
    if proof_le.len() != BYTES_PROOF {
        return Err(VerifierError::BadProofLength);
    }
    let public_len = public_le.len();
    if public_len % BYTES_F != 0 || public_len / BYTES_F != N {
        proof {
            vstd::arithmetic::div_mod::lemma_fundamental_div_mod(public_le@.len() as int, 32);
        }
        return Err(VerifierError::PublicInputsLengthMismatch);
    }
    proof {
        vstd::arithmetic::div_mod::lemma_fundamental_div_mod(public_le@.len() as int, 32);
        assert(public_le@.len() == 32 * N);
    }
    let (vk_alpha, vk_beta, vk_gamma, vk_delta, ic_vec) = match parse_vk_parts(vk_be) {
        Ok(t) => t,
        Err(e) => {
            return Err(e);
        },
    };
    if ic_vec.len() != N + 1 {
        return Err(VerifierError::VkIcCountMismatch);
    }
    if ic_vec.len() > MAX_IC {
        return Err(VerifierError::VkIcTooLarge);
    }
    // publics: LE -> BE
    let mut publics_vec: Vec<[u8; 32]> = Vec::new();
    let mut i: usize = 0;
    while i < N
        invariant
            i <= N,
            public_len == public_le@.len(),
            public_le@.len() == 32 * N,
            publics_vec@.len() == i,
            forall|j: int|
                0 <= j < i ==> publics_vec@[j]@ == spec_rev32(signal_at(public_le@, j)),
        decreases N - i,
    {
        let limb = le32_to_be32(&public_le[i * 32..i * 32 + 32]);
        publics_vec.push(limb);
        i = i + 1;
    }
    // proof A/B/C
    let (a_le, b_le, c_le) = match parse_proof_bytes(proof_le) {
        Ok(t) => t,
        Err(e) => {
            return Err(e);
        },
    };
    // A: LE -> BE, then y := p - y if enabled
    let mut a_be = le64_to_be64_xy(a_le.as_slice());
    if NEGATE_A_Y {
        let mut ay = read32(a_be.as_slice(), 32);
        negate_fq_be_in_place(&mut ay);
        let ghost a_mid = a_be@;
        let mut k: usize = 0;
        while k < 32
            invariant
                k <= 32,
                a_be@.len() == 64,
                forall|t: int| 0 <= t < 32 ==> a_be@[t] == a_mid[t],
                forall|t: int| 32 <= t < 32 + k ==> a_be@[t] == ay@[t - 32],
                forall|t: int| 32 + k <= t < 64 ==> a_be@[t] == a_mid[t],
            decreases 32 - k,
        {
            a_be[32 + k] = ay[k];
            k = k + 1;
        }
        proof {
            assert(a_be@ =~= spec_prepared_a(proof_le@));
        }
    }
    // B: LE limbs -> BE limbs; swap inner limbs if enabled
    let mut b_be: [u8; 128] = [0; 128];
    let b0 = le32_to_be32(&b_le[0..32]);
    let b1 = le32_to_be32(&b_le[32..64]);
    let b2 = le32_to_be32(&b_le[64..96]);
    let b3 = le32_to_be32(&b_le[96..128]);
    write32_128(&mut b_be, 0, &b0);
    write32_128(&mut b_be, 32, &b1);
    write32_128(&mut b_be, 64, &b2);
    write32_128(&mut b_be, 96, &b3);
    proof {
        assert(b_be@ =~= spec_rev32(proof_le@.subrange(64, 96)) + spec_rev32(
            proof_le@.subrange(96, 128),
        ) + spec_rev32(proof_le@.subrange(128, 160)) + spec_rev32(proof_le@.subrange(160, 192)));
    }
    if SWAP_PROOF_B {
        b_be = swap_g2_inner_limbs_be(b_be);
    }
    // C: LE -> BE
    let c_be = le64_to_be64_xy(c_le.as_slice());
    // VK G2 points in engine order
    let vk_beta2 = if SWAP_VK_G2 {
        swap_g2_inner_limbs_be(vk_beta)
    } else {
        vk_beta
    };
    let vk_gamma2 = if SWAP_VK_G2 {
        swap_g2_inner_limbs_be(vk_gamma)
    } else {
        vk_gamma
    };
    let vk_delta2 = if SWAP_VK_G2 {
        swap_g2_inner_limbs_be(vk_delta)
    } else {
        vk_delta
    };
    proof {
        assert(a_be@ == spec_prepared_a(proof_le@));
        assert(b_be@ == spec_prepared_b(proof_le@));
        assert(c_be@ =~= spec_prepared_c(proof_le@));
        assert(seq_views32(publics_vec@) =~= spec_prepared_publics(public_le@, N as int));
        assert(vk_alpha@ == spec_vk_alpha(vk_be@));
        assert(vk_beta2@ == spec_vk_beta(vk_be@));
        assert(vk_gamma2@ == spec_vk_gamma(vk_be@));
        assert(vk_delta2@ == spec_vk_delta(vk_be@));
        assert(seq_views64(ic_vec@) =~= spec_vk_ic(vk_be@));
    }
    let ok = groth16_pairing_check::<N>(
        &a_be,
        &b_be,
        &c_be,
        &publics_vec,
        &vk_alpha,
        &vk_beta2,
        &vk_gamma2,
        &vk_delta2,
        &ic_vec,
    );
    if ok {
        Ok(())
    } else {
        Err(VerifierError::PairingFailed)
    }
}

// -------------------- Public wrappers per circuit ----------------------------
/// Verifies a deposit-circuit proof against the deposit verifying key.
pub fn verify_deposit(vk_be: &[u8], proof_le: &[u8], public_le: &[u8]) -> (r: Result<
    (),
    VerifierError,
>)
    ensures
        r == spec_verify_result(DEPOSIT_N_PUBLIC as int, vk_be@, proof_le@, public_le@),
        r is Ok <==> spec_verify_ok(DEPOSIT_N_PUBLIC as int, vk_be@, proof_le@, public_le@),
{
    verify_once_const::<7>(vk_be, proof_le, public_le)
}

/// Verifies a transfer-circuit proof against the transfer verifying key.
pub fn verify_transfer(vk_be: &[u8], proof_le: &[u8], public_le: &[u8]) -> (r: Result<
    (),
    VerifierError,
>)
    ensures
        r == spec_verify_result(TRANSFER_N_PUBLIC as int, vk_be@, proof_le@, public_le@),
        r is Ok <==> spec_verify_ok(TRANSFER_N_PUBLIC as int, vk_be@, proof_le@, public_le@),
{
    verify_once_const::<9>(vk_be, proof_le, public_le)
}

/// Verifies a withdraw-circuit proof against the withdraw verifying key.
pub fn verify_withdraw(vk_be: &[u8], proof_le: &[u8], public_le: &[u8]) -> (r: Result<
    (),
    VerifierError,
>)
    ensures
        r == spec_verify_result(WITHDRAW_N_PUBLIC as int, vk_be@, proof_le@, public_le@),
        r is Ok <==> spec_verify_ok(WITHDRAW_N_PUBLIC as int, vk_be@, proof_le@, public_le@),
{
    verify_once_const::<7>(vk_be, proof_le, public_le)
}

/// Thin shim kept for callers that use the payload names.
pub fn verify_deposit_payload(vk_be: &[u8], p: &[u8], s: &[u8]) -> (r: Result<(), VerifierError>)
    ensures
        r == spec_verify_result(DEPOSIT_N_PUBLIC as int, vk_be@, p@, s@),
        r is Ok <==> spec_verify_ok(DEPOSIT_N_PUBLIC as int, vk_be@, p@, s@),
{
    verify_deposit(vk_be, p, s)
}

/// Thin shim kept for callers that use the payload names.
pub fn verify_transfer_payload(vk_be: &[u8], p: &[u8], s: &[u8]) -> (r: Result<(), VerifierError>)
    ensures
        r == spec_verify_result(TRANSFER_N_PUBLIC as int, vk_be@, p@, s@),
        r is Ok <==> spec_verify_ok(TRANSFER_N_PUBLIC as int, vk_be@, p@, s@),
{
    verify_transfer(vk_be, p, s)
}

/// Thin shim kept for callers that use the payload names.
pub fn verify_withdraw_payload(vk_be: &[u8], p: &[u8], s: &[u8]) -> (r: Result<(), VerifierError>)
    ensures
        r == spec_verify_result(WITHDRAW_N_PUBLIC as int, vk_be@, p@, s@),
        r is Ok <==> spec_verify_ok(WITHDRAW_N_PUBLIC as int, vk_be@, p@, s@),
{
    verify_withdraw(vk_be, p, s)
}

// -------------------- Verification backend -----------------------------------
/// The proof-verification capability: the real pairing backend holding a
/// circuit's verifying-key blob, or a format-only stub for non-cryptographic
/// builds. The choice is build/deployment configuration, never derived from
/// untrusted input.
pub enum ProofVerifier {
    /// Real pairing backend with the circuit's verifying-key blob
    /// (big-endian limbs).
    Groth16 { vk_be: Vec<u8> },
    /// Format-only stub: accepts any proof of the right shape.
    FormatOnly,
}

impl ProofVerifier {
    /// Whether this backend accepts the given wire proof and signals for a
    /// circuit of arity `n`.
    pub open spec fn spec_accepts(&self, n: int, proof: Seq<u8>, publics: Seq<u8>) -> bool {
        match self {
            ProofVerifier::Groth16 { vk_be } => spec_verify_ok(n, vk_be@, proof, publics),
            ProofVerifier::FormatOnly => proof.len() == 256 && publics.len() == 32 * n,
        }
    }

    /// Runs the backend for a circuit with `N` public inputs.
    pub fn accepts<const N: usize>(&self, proof_le: &[u8], public_le: &[u8]) -> (r: bool)
        requires
            N <= MAX_IC,
        ensures
            r == self.spec_accepts(N as int, proof_le@, public_le@),
    {
        match self {
            ProofVerifier::Groth16 { vk_be } => {
                verify_once_const::<N>(vk_be.as_slice(), proof_le, public_le).is_ok()
            },
            ProofVerifier::FormatOnly => {
                let public_len = public_le.len();
                let shape_ok = proof_le.len() == BYTES_PROOF && public_len % BYTES_F == 0
                    && public_len / BYTES_F == N;
                proof {
                    vstd::arithmetic::div_mod::lemma_fundamental_div_mod(
                        public_le@.len() as int,
                        32,
                    );
                }
                shape_ok
            },
        }
    }
}

} // verus!

verus! {

// -------------------- Wire-format laws ---------------------------------------
/// The wire encoding of a list of public signals: their 32-byte limbs
/// concatenated.
pub open spec fn spec_encode_signals(signals: Seq<[u8; 32]>) -> Seq<u8> {
    Seq::new(32 * signals.len(), |k: int| signals[k / 32]@[k % 32])
}

/// Concatenates a list of 32-byte field elements into one wire blob.
pub fn encode_public_signals(signals: &Vec<[u8; 32]>) -> (out: Vec<u8>)
    ensures
        out@ == spec_encode_signals(signals@),
{
    let n = signals.len();
    let mut out: Vec<u8> = Vec::new();
    let mut i: usize = 0;
    while i < n
        invariant
            i <= n,
            n == signals@.len(),
            out@.len() == 32 * i,
            forall|k: int| 0 <= k < 32 * i ==> out@[k] == spec_encode_signals(signals@)[k],
        decreases n - i,
    {
        let limb = signals[i];
        let mut j: usize = 0;
        while j < 32
            invariant
                j <= 32,
                i < n,
                n == signals@.len(),
                limb == signals@[i as int],
                out@.len() == 32 * i + j,
                forall|k: int| 0 <= k < 32 * i + j ==> out@[k] == spec_encode_signals(signals@)[k],
            decreases 32 - j,
        {
            out.push(limb[j]);
            proof {
                let k = 32 * (i as int) + j;
                vstd::arithmetic::div_mod::lemma_fundamental_div_mod_converse(
                    k,
                    32,
                    i as int,
                    j as int,
                );
                assert(out@[k] == spec_encode_signals(signals@)[k]);
            }
            j = j + 1;
        }
        i = i + 1;
    }
    out
}

/// Law (round trip): encoding a list of field elements yields a blob of
/// whole limbs that decodes back to the same list, byte for byte — splitting
/// the encoding at every 32-byte boundary returns each original element.
pub proof fn lemma_public_signals_round_trip(signals: Seq<[u8; 32]>)
    ensures
        spec_encode_signals(signals).len() % 32 == 0,
        spec_encode_signals(signals).len() / 32 == signals.len(),
        forall|i: int|
            0 <= i < signals.len() ==> signal_at(spec_encode_signals(signals), i) == signals[i]@,
{
    let enc = spec_encode_signals(signals);
    assert(enc.len() == 32 * signals.len());
    assert(enc.len() % 32 == 0) by (nonlinear_arith)
        requires
            enc.len() == 32 * signals.len(),
    ;
    assert(enc.len() / 32 == signals.len()) by (nonlinear_arith)
        requires
            enc.len() == 32 * signals.len(),
    ;
    assert forall|i: int| 0 <= i < signals.len() implies signal_at(enc, i) == signals[i]@ by {
        assert forall|j: int| 0 <= j < 32 implies signal_at(enc, i)[j] == signals[i]@[j] by {
            let k = 32 * i + j;
            vstd::arithmetic::div_mod::lemma_fundamental_div_mod_converse(k, 32, i, j);
            assert(signal_at(enc, i)[j] == enc[k]);
        }
        assert(signal_at(enc, i) =~= signals[i]@);
    }
}

/// Law (limb-swap involution): exchanging the inner G2 limbs twice restores
/// the encoding. So the adapter's swap exactly undoes a swap already present
/// on the wire: a proof generated with pre-swapped limbs reaches the pairing
/// engine with B in the toolchain's original order, not the engine's.
pub proof fn lemma_swap_g2_involution(b: Seq<u8>)
    requires
        b.len() == 128,
    ensures
        spec_swap_g2(spec_swap_g2(b)) == b,
{
    assert(spec_swap_g2(spec_swap_g2(b)) =~= b);
}

/// Law (pre-swapped B): a wire proof whose B region already has its inner
/// limbs exchanged hands the pairing engine the limb-swapped image of what
/// the original proof would reach it with. The engine therefore sees B in
/// the wrong order unless generation and adapter agree on the swap.
pub proof fn lemma_preswapped_b(proof: Seq<u8>, preswapped: Seq<u8>)
    requires
        proof.len() == 256,
        preswapped.len() == 256,
        preswapped == proof.take(64) + spec_swap_g2(proof.subrange(64, 192)) + proof.skip(192),
    ensures
        spec_prepared_b(preswapped) == spec_swap_g2(spec_prepared_b(proof)),
{
    assert(preswapped.subrange(64, 96) =~= proof.subrange(96, 128));
    assert(preswapped.subrange(96, 128) =~= proof.subrange(64, 96));
    assert(preswapped.subrange(128, 160) =~= proof.subrange(160, 192));
    assert(preswapped.subrange(160, 192) =~= proof.subrange(128, 160));
    assert(spec_prepared_b(preswapped) =~= spec_swap_g2(spec_prepared_b(proof)));
}

} // verus!

verus! {

/// Law (limb-reversal involution): reversing a 32-byte limb twice restores
/// it.
pub proof fn lemma_rev32_involution(s: Seq<u8>)
    requires
        s.len() == 32,
    ensures
        spec_rev32(spec_rev32(s)) == s,
{
    assert(spec_rev32(spec_rev32(s)) =~= s);
}

/// Law (faithful B and C conversion): two wire proofs that hand the pairing
/// engine the same prepared B and C points agree byte-for-byte on their B
/// and C regions. Corrupting any byte there changes what the engine sees.
pub proof fn lemma_prepared_bc_injective(p1: Seq<u8>, p2: Seq<u8>)
    requires
        p1.len() == 256,
        p2.len() == 256,
        spec_prepared_b(p1) == spec_prepared_b(p2),
        spec_prepared_c(p1) == spec_prepared_c(p2),
    ensures
        p1.subrange(64, 192) == p2.subrange(64, 192),
        p1.subrange(192, 256) == p2.subrange(192, 256),
{
    let b1 = spec_prepared_b(p1);
    assert forall|k: int| 64 <= k < 192 implies p1[k] == p2[k] by {
        // Each wire byte reappears at a fixed position of the prepared point:
        // limb l (byte j) lands in limb l^1 at offset 31 - j.
        let l = (k - 64) / 32;
        let j = (k - 64) % 32;
        vstd::arithmetic::div_mod::lemma_fundamental_div_mod(k - 64, 32);
        let swapped_l = if l == 0 {
            1int
        } else if l == 1 {
            0int
        } else if l == 2 {
            3int
        } else {
            2int
        };
        let pos = 32 * swapped_l + 31 - j;
        assert(b1[pos] == p1[k]);
        assert(spec_prepared_b(p2)[pos] == p2[k]);
    }
    assert(p1.subrange(64, 192) =~= p2.subrange(64, 192));
    assert forall|k: int| 192 <= k < 256 implies p1[k] == p2[k] by {
        let c1 = spec_prepared_c(p1);
        let half = if k < 224 {
            0int
        } else {
            1int
        };
        let j = k - 192 - 32 * half;
        let pos = 32 * half + 31 - j;
        assert(c1[pos] == p1[k]);
        assert(spec_prepared_c(p2)[pos] == p2[k]);
    }
    assert(p1.subrange(192, 256) =~= p2.subrange(192, 256));
}

/// Law (faithful signal conversion): two signal blobs of the same arity that
/// reach the pairing engine as the same prepared limbs are byte-for-byte
/// equal. Corrupting any signal byte changes what the engine sees.
pub proof fn lemma_prepared_publics_injective(s1: Seq<u8>, s2: Seq<u8>, n: int)
    requires
        n >= 0,
        s1.len() == 32 * n,
        s2.len() == 32 * n,
        spec_prepared_publics(s1, n) == spec_prepared_publics(s2, n),
    ensures
        s1 == s2,
{
    assert forall|k: int| 0 <= k < 32 * n implies s1[k] == s2[k] by {
        let l = k / 32;
        let j = k % 32;
        vstd::arithmetic::div_mod::lemma_fundamental_div_mod(k, 32);
        assert(0 <= l < n) by (nonlinear_arith)
            requires
                0 <= k < 32 * n,
                k == 32 * l + j,
                0 <= j < 32,
        ;
        assert(spec_prepared_publics(s1, n)[l][31 - j] == s1[k]);
        assert(spec_prepared_publics(s2, n)[l][31 - j] == s2[k]);
    }
    assert(s1 =~= s2);
}

} // verus!

verus! {

/// The full 32-byte borrow-chain difference `(p - y) mod 2^256`.
pub open spec fn spec_sub_bytes(p: Seq<u8>, y: Seq<u8>) -> Seq<u8> {
    Seq::new(32, |k: int| spec_sub_byte(p, y, k))
}

/// Relates the borrow-chain difference to integer subtraction on each
/// suffix: difference + subtrahend equals minuend, plus the whole suffix
/// range exactly when a borrow leaves it.
proof fn lemma_sub_suffix(p: Seq<u8>, y: Seq<u8>, i: int)
    requires
        p.len() == 32,
        y.len() == 32,
        0 <= i <= 32,
    ensures
        crate::bytes::be_val(spec_sub_bytes(p, y).skip(i)) + crate::bytes::be_val(y.skip(i))
            == crate::bytes::be_val(p.skip(i)) + (if spec_borrow(p, y, i - 1) {
            crate::bytes::pow256((32 - i) as nat)
        } else {
            0
        }),
    decreases 32 - i,
{
    let d = spec_sub_bytes(p, y);
    if i == 32 {
        assert(d.skip(32) =~= Seq::<u8>::empty());
        assert(y.skip(32) =~= Seq::<u8>::empty());
        assert(p.skip(32) =~= Seq::<u8>::empty());
        assert(!spec_borrow(p, y, 31));
    } else {
        lemma_sub_suffix(p, y, i + 1);
        let k1 = crate::bytes::pow256((31 - i) as nat);
        assert(crate::bytes::pow256((32 - i) as nat) == 256 * k1);
        // head decompositions of the three suffixes
        assert(d.skip(i).drop_first() =~= d.skip(i + 1));
        assert(y.skip(i).drop_first() =~= y.skip(i + 1));
        assert(p.skip(i).drop_first() =~= p.skip(i + 1));
        crate::bytes::lemma_be_val_head(d.skip(i));
        crate::bytes::lemma_be_val_head(y.skip(i));
        crate::bytes::lemma_be_val_head(p.skip(i));
        assert(d.skip(i)[0] == d[i]);
        assert(y.skip(i)[0] == y[i]);
        assert(p.skip(i)[0] == p[i]);
        let bin: int = if spec_borrow(p, y, i) {
            1
        } else {
            0
        };
        let t = p[i] - y[i] - bin;
        assert(-256 <= t < 256);
        if t < 0 {
            assert(spec_borrow(p, y, i - 1));
            assert(t % 256 == t + 256);
            assert(d[i] == t + 256);
            assert((t + 256 + y[i] + bin) * k1 == (p[i] + 256) * k1) by (nonlinear_arith)
                requires
                    t == p[i] - y[i] - bin,
            ;
            assert((t + 256 + y[i] + bin) * k1 == (t + 256) * k1 + y[i] * k1 + bin * k1)
                by (nonlinear_arith);
            assert((p[i] + 256) * k1 == p[i] * k1 + 256 * k1) by (nonlinear_arith);
        } else {
            assert(!spec_borrow(p, y, i - 1));
            assert(t % 256 == t);
            assert(d[i] == t);
            assert((t + y[i] + bin) * k1 == p[i] * k1) by (nonlinear_arith)
                requires
                    t == p[i] - y[i] - bin,
            ;
            assert((t + y[i] + bin) * k1 == t * k1 + y[i] * k1 + bin * k1) by (nonlinear_arith);
        }
    }
}

/// Law (negation value): the limb-wise subtraction with borrow computes
/// exactly `(p - y) mod 2^256` on big-endian values, with zero kept at zero:
/// for a non-zero `y` at most the modulus the result is `p - y`; beyond the
/// modulus the difference wraps once around `2^256`.
pub proof fn lemma_negate_fq_value(y: Seq<u8>)
    requires
        y.len() == 32,
    ensures
        crate::bytes::all_zero(y) ==> crate::bytes::be_val(spec_negate_fq(y)) == 0,
        !crate::bytes::all_zero(y) && crate::bytes::be_val(y) <= crate::bytes::be_val(
            BN254_FQ_MOD_BE@,
        ) ==> crate::bytes::be_val(spec_negate_fq(y)) == crate::bytes::be_val(BN254_FQ_MOD_BE@)
            - crate::bytes::be_val(y),
        !crate::bytes::all_zero(y) && crate::bytes::be_val(y) > crate::bytes::be_val(
            BN254_FQ_MOD_BE@,
        ) ==> crate::bytes::be_val(spec_negate_fq(y)) == crate::bytes::be_val(BN254_FQ_MOD_BE@)
            + crate::bytes::pow256(32) - crate::bytes::be_val(y),
{
    if crate::bytes::all_zero(y) {
        crate::bytes::lemma_be_val_all_zero(y);
    } else {
        let p = BN254_FQ_MOD_BE@;
        let d = spec_sub_bytes(p, y);
        assert(spec_negate_fq(y) == d);
        lemma_sub_suffix(p, y, 0);
        assert(d.skip(0) =~= d);
        assert(y.skip(0) =~= y);
        assert(p.skip(0) =~= p);
        crate::bytes::lemma_be_val_bound(d);
        assert(d.len() == 32);
        if crate::bytes::be_val(y) <= crate::bytes::be_val(p) {
            if spec_borrow(p, y, -1) {
                assert(crate::bytes::be_val(d) >= crate::bytes::pow256(32));
                assert(false);
            }
        } else {
            if !spec_borrow(p, y, -1) {
                assert(crate::bytes::be_val(d) + crate::bytes::be_val(y) == crate::bytes::be_val(
                    p,
                ));
                assert(false);
            }
        }
    }
}

} // verus!
