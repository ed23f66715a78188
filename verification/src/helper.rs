//! Validation helpers around proofs, public inputs and Merkle material: the
//! SHA-256 digest wrapper, format heuristics for curve points, entropy
//! checks, and the per-circuit public-input validators.

use vstd::prelude::*;

use crate::bytes::all_same;
use crate::bytes::all_zero;
use crate::bytes::bytes32_eq;
use crate::bytes::bytes_eq;
use crate::bytes::is_all_byte;
use crate::bytes::is_all_zero;
use crate::error_code::CipherPayError;
use vstd::string::StringSliceAdditionalSpecFns;

verus! {

/// The SHA-256 digest of a byte string. The digest is a function of the data
/// alone; its value is stated nowhere here and is owned by the hash
/// implementation.
pub uninterp spec fn sha256_of(data: Seq<u8>) -> Seq<u8>;

/// Relies on `sha2::Sha256::digest` (FIPS 180-4 SHA-256): a 32-byte digest
/// that depends on the input bytes alone.
#[verifier::external_body]
pub fn compute_sha256(data: &[u8]) -> (r: [u8; 32])
    ensures
        r@ == sha256_of(data@),
{
    let digest = <sha2::Sha256 as sha2::Digest>::digest(data);
    digest.into()
}

/// How one chaining step orders its operands: the smaller side (byte
/// lexicographic) goes first, then the pair is hashed.
pub open spec fn hash_pair_sorted(a: Seq<u8>, b: Seq<u8>) -> Seq<u8> {
    if crate::bytes::lex_lt(a, b) {
        sha256_of(a + b)
    } else {
        sha256_of(b + a)
    }
}

/// The hash chain from `cur` through the given siblings, each step ordering
/// its operands byte-lexicographically.
pub open spec fn spec_chain(cur: Seq<u8>, elems: Seq<[u8; 32]>) -> Seq<u8>
    decreases elems.len(),
{
    if elems.len() == 0 {
        cur
    } else {
        spec_chain(hash_pair_sorted(cur, elems[0]@), elems.drop_first())
    }
}

/// `spec_chain` peels its last sibling.
pub proof fn lemma_chain_snoc(cur: Seq<u8>, elems: Seq<[u8; 32]>)
    requires
        elems.len() > 0,
    ensures
        spec_chain(cur, elems) == hash_pair_sorted(
            spec_chain(cur, elems.drop_last()),
            elems.last()@,
        ),
    decreases elems.len(),
{
    reveal_with_fuel(spec_chain, 3);
    if elems.len() == 1 {
        assert(elems.drop_last() =~= Seq::<[u8; 32]>::empty());
        assert(elems.drop_first() =~= Seq::<[u8; 32]>::empty());
    } else {
        let tail = elems.drop_first();
        lemma_chain_snoc(hash_pair_sorted(cur, elems[0]@), tail);
        assert(spec_chain(cur, elems) == spec_chain(hash_pair_sorted(cur, elems[0]@), tail));
        assert(tail.drop_last() =~= elems.drop_last().drop_first());
        assert(tail.last() == elems.last());
        assert(elems.drop_last()[0] == elems[0]);
        assert(spec_chain(cur, elems.drop_last()) == spec_chain(
            hash_pair_sorted(cur, elems.drop_last()[0]@),
            elems.drop_last().drop_first(),
        ));
    }
}

/// Concatenation of two 32-byte strings.
fn concat32(a: &[u8; 32], b: &[u8; 32]) -> (out: Vec<u8>)
    ensures
        out@ == a@ + b@,
{
    let mut out: Vec<u8> = Vec::new();
    let mut i: usize = 0;
    while i < 32
        invariant
            i <= 32,
            out@.len() == i,
            forall|j: int| 0 <= j < i ==> out@[j] == a@[j],
        decreases 32 - i,
    {
        out.push(a[i]);
        i = i + 1;
    }
    let mut k: usize = 0;
    while k < 32
        invariant
            k <= 32,
            out@.len() == 32 + k,
            forall|j: int| 0 <= j < 32 ==> out@[j] == a@[j],
            forall|j: int| 32 <= j < 32 + k ==> out@[j] == b@[j - 32],
        decreases 32 - k,
    {
        out.push(b[k]);
        k = k + 1;
    }
    proof {
        assert(out@ =~= a@ + b@);
    }
    out
}

/// One chaining step: hash the sorted pair.
pub(crate) fn hash_pair(a: &[u8; 32], b: &[u8; 32]) -> (r: [u8; 32])
    ensures
        r@ == hash_pair_sorted(a@, b@),
{
    if crate::bytes::bytes32_lt(a, b) {
        let combined = concat32(a, b);
        compute_sha256(combined.as_slice())
    } else {
        let combined = concat32(b, a);
        compute_sha256(combined.as_slice())
    }
}

/// Number of distinct byte values in a byte string.
pub open spec fn spec_distinct_count(s: Seq<u8>) -> int
    decreases s.len(),
{
    if s.len() == 0 {
        0
    } else {
        spec_distinct_count(s.drop_last()) + if s.drop_last().contains(s.last()) {
            0int
        } else {
            1int
        }
    }
}

/// A prefix never has more distinct byte values than the whole.
proof fn lemma_distinct_prefix(s: Seq<u8>, i: int)
    requires
        0 <= i <= s.len(),
    ensures
        spec_distinct_count(s.take(i)) <= spec_distinct_count(s),
    decreases s.len() - i,
{
    if i < s.len() {
        lemma_distinct_prefix(s, i + 1);
        assert(s.take(i + 1).drop_last() =~= s.take(i));
        assert(spec_distinct_count(s.take(i)) <= spec_distinct_count(s.take(i + 1)));
    } else {
        assert(s.take(i) =~= s);
    }
}

/// True when the data holds at least `m` distinct byte values.
fn has_distinct_at_least(data: &[u8], m: usize) -> (r: bool)
    ensures
        r <==> spec_distinct_count(data@) >= m,
{
    let mut seen: [bool; 256] = [false; 256];
    let mut count: usize = 0;
    let n = data.len();
    let mut i: usize = 0;
    while i < n
        invariant
            i <= n,
            n == data@.len(),
            count <= i,
            count == spec_distinct_count(data@.take(i as int)),
            forall|b: int| 0 <= b < 256 ==> (seen@[b] <==> data@.take(i as int).contains(b as u8)),
        decreases n - i,
    {
        let b = data[i];
        proof {
            assert(data@.take(i + 1).drop_last() =~= data@.take(i as int));
            assert(data@.take(i + 1).last() == data@[i as int]);
        }
        if !seen[b as usize] {
            seen[b as usize] = true;
            count = count + 1;
            if count >= m {
                proof {
                    lemma_distinct_prefix(data@, i + 1);
                }
                return true;
            }
        }
        proof {
            assert forall|v: int| 0 <= v < 256 implies (seen@[v] <==> data@.take(i + 1).contains(
                v as u8,
            )) by {
                let t = data@.take(i + 1);
                if seen@[v] {
                    if v == b as int {
                        assert(t.last() == v as u8);
                        assert(t.contains(v as u8));
                    } else {
                        assert(data@.take(i as int).contains(v as u8));
                        let w = choose|k: int|
                            0 <= k < i && data@.take(i as int)[k] == v as u8;
                        assert(t[w] == v as u8);
                    }
                } else {
                    if t.contains(v as u8) {
                        let w = choose|k: int| 0 <= k < t.len() && t[k] == v as u8;
                        if w < i {
                            assert(data@.take(i as int)[w] == v as u8);
                        } else {
                            assert(v == b as int);
                        }
                        assert(false);
                    }
                }
            }
        }
        i = i + 1;
    }
    proof {
        assert(data@.take(n as int) =~= data@);
    }
    count >= m
}

/// Count of occurrences of a byte value in a byte string.
pub open spec fn spec_count_byte(s: Seq<u8>, v: u8) -> int
    decreases s.len(),
{
    if s.len() == 0 {
        0
    } else {
        spec_count_byte(s.drop_last(), v) + if s.last() == v {
            1int
        } else {
            0int
        }
    }
}

/// Counts the occurrences of a byte value.
fn count_byte(data: &[u8], v: u8) -> (r: usize)
    ensures
        r == spec_count_byte(data@, v),
{
    let n = data.len();
    let mut count: usize = 0;
    let mut i: usize = 0;
    while i < n
        invariant
            i <= n,
            n == data@.len(),
            count <= i,
            count == spec_count_byte(data@.take(i as int), v),
        decreases n - i,
    {
        proof {
            assert(data@.take(i + 1).drop_last() =~= data@.take(i as int));
            assert(data@.take(i + 1).last() == data@[i as int]);
        }
        if data[i] == v {
            count = count + 1;
        }
        i = i + 1;
    }
    proof {
        assert(data@.take(n as int) =~= data@);
    }
    count
}

} // verus!

verus! {

/// Format heuristic for a 64-byte G1 encoding: both coordinates non-zero and
/// non-uniform, highest byte of each within the field-size bound.
pub open spec fn spec_g1_ok(p: Seq<u8>) -> bool {
    &&& !all_zero(p.subrange(0, 32))
    &&& !all_zero(p.subrange(32, 64))
    &&& p[31] <= 0x30
    &&& p[63] <= 0x30
    &&& !all_same(p.subrange(0, 32))
    &&& !all_same(p.subrange(32, 64))
}

/// Format heuristic for a 128-byte G2 encoding: both extension-field
/// coordinates non-zero and non-uniform, highest byte of each within the
/// field-size bound.
pub open spec fn spec_g2_ok(p: Seq<u8>) -> bool {
    &&& !all_zero(p.subrange(0, 64))
    &&& !all_zero(p.subrange(64, 128))
    &&& p[63] <= 0x30
    &&& p[127] <= 0x30
    &&& !all_same(p.subrange(0, 64))
    &&& !all_same(p.subrange(64, 128))
}

/// The format-only stand-in for the pairing equation: distinct A and C, and
/// all three points pass the format heuristics.
pub open spec fn spec_pairing_ok3(a: Seq<u8>, b: Seq<u8>, c: Seq<u8>) -> bool {
    &&& a != c
    &&& spec_g1_ok(a)
    &&& spec_g2_ok(b)
    &&& spec_g1_ok(c)
}

/// Validates a G1 point by format heuristics (no curve arithmetic).
pub fn verify_g1_point(point: &[u8; 64]) -> (r: bool)
    ensures
        r == spec_g1_ok(point@),
{
    if is_all_zero(point.as_slice()) {
        return false;
    }
    let x = &point[0..32];
    let y = &point[32..64];
    if is_all_zero(x) || is_all_zero(y) {
        return false;
    }
    if point[31] > 0x30 || point[63] > 0x30 {
        return false;
    }
    let xu = validate_not_uniform(x);
    let yu = validate_not_uniform(y);
    xu && yu
}

/// Validates a G2 point by format heuristics (no curve arithmetic).
pub fn verify_g2_point(point: &[u8; 128]) -> (r: bool)
    ensures
        r == spec_g2_ok(point@),
{
    if is_all_zero(point.as_slice()) {
        return false;
    }
    let x = &point[0..64];
    let y = &point[64..128];
    if is_all_zero(x) || is_all_zero(y) {
        return false;
    }
    if point[63] > 0x30 || point[127] > 0x30 {
        return false;
    }
    let xu = validate_not_uniform(x);
    let yu = validate_not_uniform(y);
    xu && yu
}

/// Format-only stand-in for the pairing check: rejects a reused point and any
/// point failing the format heuristics.
pub fn verify_pairing(proof_a: &[u8; 64], proof_b: &[u8; 128], proof_c: &[u8; 64]) -> (r: bool)
    ensures
        r == spec_pairing_ok3(proof_a@, proof_b@, proof_c@),
{
    // A reused point between A and C is a malformed proof.
    if bytes_eq(proof_a.as_slice(), proof_c.as_slice()) {
        proof {
            if proof_a@ == proof_c@ {
                assert(*proof_a =~= *proof_c);
            }
        }
        return false;
    }
    if !verify_g1_point(proof_a) || !verify_g2_point(proof_b) || !verify_g1_point(proof_c) {
        return false;
    }
    true
}

/// True when the data is not one repeated byte (a single byte counts as
/// non-uniform).
pub fn validate_not_uniform(data: &[u8]) -> (r: bool)
    ensures
        r <==> (data@.len() == 1 || (data@.len() > 1 && !all_same(data@))),
{
    if data.len() == 0 {
        return false;
    }
    if data.len() == 1 {
        return true;
    }
    !is_all_byte(data, data[0])
}

/// True when at least one byte is non-zero.
pub fn validate_not_all_zeros(data: &[u8]) -> (r: bool)
    ensures
        r <==> !all_zero(data@),
{
    !is_all_zero(data)
}

/// Sufficient entropy: long enough, not all zeros, and at least
/// `min_unique_bytes` distinct byte values.
pub open spec fn spec_entropy_ok(s: Seq<u8>, m: int) -> bool {
    &&& s.len() >= m
    &&& !all_zero(s)
    &&& spec_distinct_count(s) >= m
}

/// Checks that the data has sufficient entropy.
pub fn validate_entropy(data: &[u8], min_unique_bytes: usize) -> (r: bool)
    ensures
        r == spec_entropy_ok(data@, min_unique_bytes as int),
{
    if data.len() < min_unique_bytes {
        return false;
    }
    if is_all_zero(data) {
        return false;
    }
    has_distinct_at_least(data, min_unique_bytes)
}

/// What the validators accept as a Merkle root: 32 bytes, not all zeros, not
/// one repeated byte, and at least 4 distinct byte values.
pub open spec fn spec_root_format_ok(s: Seq<u8>) -> bool {
    &&& s.len() == 32
    &&& !all_zero(s)
    &&& !all_same(s)
    &&& spec_distinct_count(s) >= 4
}

/// Validates a Merkle root's format, including the entropy floor.
pub fn is_valid_merkle_root_real(root: &[u8]) -> (r: bool)
    ensures
        r == spec_root_format_ok(root@),
{
    if root.len() != 32 {
        return false;
    }
    if is_all_zero(root) {
        return false;
    }
    if is_all_byte(root, root[0]) {
        return false;
    }
    has_distinct_at_least(root, 4)
}

/// Validates a Merkle root's format.
pub fn is_valid_merkle_root(root: &[u8]) -> (r: bool)
    ensures
        r == spec_root_format_ok(root@),
{
    is_valid_merkle_root_real(root)
}

/// What the nullifier format checks accept: not all zeros, not one repeated
/// byte, and no suspicious concentration of 0x00 or 0x01 bytes.
pub open spec fn spec_nullifier_ok(s: Seq<u8>) -> bool {
    &&& !all_zero(s)
    &&& !all_same(s)
    &&& spec_count_byte(s, 0) <= 25
    &&& spec_count_byte(s, 1) <= 25
}

/// Verifies nullifier format: entropy and distribution checks.
pub fn verify_nullifier(nullifier: &[u8; 32]) -> (r: Result<(), CipherPayError>)
    ensures
        r is Ok <==> spec_nullifier_ok(nullifier@),
        r is Err ==> r == Result::<(), CipherPayError>::Err(CipherPayError::InvalidNullifier),
{
    if is_all_zero(nullifier.as_slice()) {
        return Err(CipherPayError::InvalidNullifier);
    }
    if is_all_byte(nullifier.as_slice(), nullifier[0]) {
        return Err(CipherPayError::InvalidNullifier);
    }
    // All-ones is one repeated byte, so it is already rejected above; the
    // explicit check mirrors the protocol description.
    if is_all_byte(nullifier.as_slice(), 0xFF) {
        return Err(CipherPayError::InvalidNullifier);
    }
    let zero_count = count_byte(nullifier.as_slice(), 0);
    let one_count = count_byte(nullifier.as_slice(), 1);
    if zero_count > 25 || one_count > 25 {
        return Err(CipherPayError::InvalidNullifier);
    }
    Ok(())
}

/// Verifies a Merkle proof walking from the leaf itself, with zero-entry
/// rejection on every step.
pub fn verify_merkle_proof_real(leaf: &[u8; 32], siblings: &Vec<[u8; 32]>, root: [u8; 32]) -> (r:
    Result<(), CipherPayError>)
    ensures
        r is Ok <==> (siblings@.len() > 0 && !all_zero(leaf@) && !all_zero(root@) && (forall|i: int|
            0 <= i < siblings@.len() ==> !all_zero(siblings@[i]@)) && spec_chain(leaf@, siblings@)
            == root@),
        (siblings@.len() == 0 || all_zero(leaf@)) ==> r == Result::<(), CipherPayError>::Err(
            CipherPayError::InvalidMerkleProof,
        ),
        (siblings@.len() > 0 && !all_zero(leaf@) && all_zero(root@)) ==> r == Result::<
            (),
            CipherPayError,
        >::Err(CipherPayError::InvalidMerkleRoot),
        (siblings@.len() > 0 && !all_zero(leaf@) && !all_zero(root@) && r is Err) ==> r
            == Result::<(), CipherPayError>::Err(CipherPayError::InvalidMerkleProof),
{
    if siblings.len() == 0 {
        return Err(CipherPayError::InvalidMerkleProof);
    }
    if is_all_zero(leaf.as_slice()) {
        return Err(CipherPayError::InvalidMerkleProof);
    }
    if is_all_zero(root.as_slice()) {
        return Err(CipherPayError::InvalidMerkleRoot);
    }
    let mut current: [u8; 32] = *leaf;
    let n = siblings.len();
    let mut i: usize = 0;
    proof {
        assert(siblings@.take(0) =~= Seq::<[u8; 32]>::empty());
    }
    while i < n
        invariant
            i <= n,
            n == siblings@.len(),
            n > 0,
            !all_zero(leaf@),
            !all_zero(root@),
            current@ == spec_chain(leaf@, siblings@.take(i as int)),
            forall|j: int| 0 <= j < i ==> !all_zero(siblings@[j]@),
        decreases n - i,
    {
        let elem = &siblings[i];
        if is_all_zero(elem.as_slice()) {
            return Err(CipherPayError::InvalidMerkleProof);
        }
        current = hash_pair(&current, elem);
        proof {
            lemma_chain_snoc(leaf@, siblings@.take(i + 1));
            assert(siblings@.take(i + 1).drop_last() =~= siblings@.take(i as int));
            assert(siblings@.take(i + 1).last() == siblings@[i as int]);
        }
        i = i + 1;
    }
    proof {
        assert(siblings@.take(n as int) =~= siblings@);
    }
    if !bytes32_eq(&current, &root) {
        return Err(CipherPayError::InvalidMerkleProof);
    }
    Ok(())
}

/// Verifies a Merkle proof walking from the hash of the leaf, with
/// zero-entry rejection on every step.
pub fn verify_merkle_proof(leaf: &[u8; 32], siblings: &Vec<[u8; 32]>, root: [u8; 32]) -> (r: Result<
    (),
    CipherPayError,
>)
    ensures
        r is Ok <==> (siblings@.len() > 0 && (forall|i: int|
            0 <= i < siblings@.len() ==> !all_zero(siblings@[i]@)) && spec_chain(
            sha256_of(leaf@),
            siblings@,
        ) == root@),
        r is Err ==> r == Result::<(), CipherPayError>::Err(CipherPayError::InvalidMerkleProof),
{
    if siblings.len() == 0 {
        return Err(CipherPayError::InvalidMerkleProof);
    }
    let mut current: [u8; 32] = compute_sha256(leaf.as_slice());
    let n = siblings.len();
    let mut i: usize = 0;
    proof {
        assert(siblings@.take(0) =~= Seq::<[u8; 32]>::empty());
    }
    while i < n
        invariant
            i <= n,
            n == siblings@.len(),
            current@ == spec_chain(sha256_of(leaf@), siblings@.take(i as int)),
            forall|j: int| 0 <= j < i ==> !all_zero(siblings@[j]@),
        decreases n - i,
    {
        let elem = &siblings[i];
        if is_all_zero(elem.as_slice()) {
            return Err(CipherPayError::InvalidMerkleProof);
        }
        current = hash_pair(&current, elem);
        proof {
            lemma_chain_snoc(sha256_of(leaf@), siblings@.take(i + 1));
            assert(siblings@.take(i + 1).drop_last() =~= siblings@.take(i as int));
            assert(siblings@.take(i + 1).last() == siblings@[i as int]);
        }
        i = i + 1;
    }
    proof {
        assert(siblings@.take(n as int) =~= siblings@);
    }
    if !bytes32_eq(&current, &root) {
        return Err(CipherPayError::InvalidMerkleProof);
    }
    Ok(())
}

/// Validates the three Groth16 proof points by format heuristics.
pub fn verify_proof_components(proof_a: &[u8; 64], proof_b: &[u8; 128], proof_c: &[u8; 64]) -> (r:
    Result<(), CipherPayError>)
    ensures
        r is Ok <==> spec_g1_ok(proof_a@) && spec_g1_ok(proof_c@) && spec_g2_ok(proof_b@),
        r is Err ==> r == Result::<(), CipherPayError>::Err(CipherPayError::InvalidProofFormat),
{
    if !verify_g1_point(proof_a) {
        return Err(CipherPayError::InvalidProofFormat);
    }
    if !verify_g1_point(proof_c) {
        return Err(CipherPayError::InvalidProofFormat);
    }
    if !verify_g2_point(proof_b) {
        return Err(CipherPayError::InvalidProofFormat);
    }
    Ok(())
}

/// What the generic public-input validator accepts: non-empty, whole 32-byte
/// limbs, not all zeros, and an entropy floor once two limbs are present.
pub open spec fn spec_public_inputs_ok(s: Seq<u8>) -> bool {
    &&& s.len() > 0
    &&& s.len() % 32 == 0
    &&& !all_zero(s)
    &&& (s.len() >= 64 ==> spec_entropy_ok(s, 16))
}

/// Validates a public-input blob's format.
pub fn verify_public_inputs(inputs: &[u8]) -> (r: Result<(), CipherPayError>)
    ensures
        r is Ok <==> spec_public_inputs_ok(inputs@),
        r is Err ==> r == Result::<(), CipherPayError>::Err(CipherPayError::InvalidPublicInputs),
{
    if inputs.len() == 0 {
        return Err(CipherPayError::InvalidPublicInputs);
    }
    if inputs.len() % 32 != 0 {
        return Err(CipherPayError::InvalidPublicInputs);
    }
    if is_all_zero(inputs) {
        return Err(CipherPayError::InvalidPublicInputs);
    }
    if inputs.len() >= 64 && !validate_entropy(inputs, 16) {
        return Err(CipherPayError::InvalidPublicInputs);
    }
    Ok(())
}

/// Compute budget is the runtime's concern; nothing is checked here.
pub fn verify_compute_budget(_required_units: u32) -> (r: Result<(), CipherPayError>)
    ensures
        r is Ok,
{
    Ok(())
}

} // verus!

verus! {

/// Outcome of the validators whose inputs lead with a Merkle root.
pub open spec fn spec_root_inputs_result(inputs: Seq<u8>) -> Result<(), CipherPayError> {
    if inputs.len() < 32 {
        Err(CipherPayError::InvalidProofFormat)
    } else if !spec_root_format_ok(inputs.subrange(0, 32)) {
        Err(CipherPayError::InvalidMerkleRoot)
    } else {
        Ok(())
    }
}

/// Outcome of the nullifier-circuit input validator.
pub open spec fn spec_nullifier_inputs_result(inputs: Seq<u8>) -> Result<(), CipherPayError> {
    if inputs.len() < 32 {
        Err(CipherPayError::InvalidProofFormat)
    } else if !spec_nullifier_ok(inputs.subrange(0, 32)) {
        Err(CipherPayError::InvalidNullifier)
    } else {
        Ok(())
    }
}

/// Outcome of the validators whose inputs carry a Merkle root and a 32-byte
/// identifier; `bad` is the identifier's own error.
pub open spec fn spec_tagged_inputs_result(inputs: Seq<u8>, bad: CipherPayError) -> Result<
    (),
    CipherPayError,
> {
    if inputs.len() < 64 {
        Err(CipherPayError::InvalidProofFormat)
    } else if !spec_root_format_ok(inputs.subrange(0, 32)) {
        Err(CipherPayError::InvalidMerkleRoot)
    } else if all_zero(inputs.subrange(32, 64)) || spec_distinct_count(inputs.subrange(32, 64))
        < 4 {
        Err(bad)
    } else {
        Ok(())
    }
}

/// Validates transfer-circuit public inputs: a well-formed Merkle root first.
pub fn verify_transfer_public_inputs(inputs: &[u8]) -> (r: Result<(), CipherPayError>)
    ensures
        r == spec_root_inputs_result(inputs@),
{
    if inputs.len() < 32 {
        return Err(CipherPayError::InvalidProofFormat);
    }
    if !is_valid_merkle_root(&inputs[0..32]) {
        return Err(CipherPayError::InvalidMerkleRoot);
    }
    Ok(())
}

/// Validates withdraw-circuit public inputs: a well-formed Merkle root first.
pub fn verify_withdraw_public_inputs(inputs: &[u8]) -> (r: Result<(), CipherPayError>)
    ensures
        r == spec_root_inputs_result(inputs@),
{
    if inputs.len() < 32 {
        return Err(CipherPayError::InvalidProofFormat);
    }
    if !is_valid_merkle_root(&inputs[0..32]) {
        return Err(CipherPayError::InvalidMerkleRoot);
    }
    Ok(())
}

/// Validates merkle-circuit public inputs: a well-formed Merkle root first.
pub fn verify_merkle_public_inputs(inputs: &[u8]) -> (r: Result<(), CipherPayError>)
    ensures
        r == spec_root_inputs_result(inputs@),
{
    if inputs.len() < 32 {
        return Err(CipherPayError::InvalidProofFormat);
    }
    if !is_valid_merkle_root(&inputs[0..32]) {
        return Err(CipherPayError::InvalidMerkleRoot);
    }
    Ok(())
}

/// Validates nullifier-circuit public inputs.
pub fn verify_nullifier_public_inputs(inputs: &[u8]) -> (r: Result<(), CipherPayError>)
    ensures
        r == spec_nullifier_inputs_result(inputs@),
{
    if inputs.len() < 32 {
        return Err(CipherPayError::InvalidProofFormat);
    }
    let nf = crate::bytes::read32(inputs, 0);
    match verify_nullifier(&nf) {
        Ok(()) => Ok(()),
        Err(e) => Err(e),
    }
}

/// Validates audit-circuit public inputs: a Merkle root and an audit id.
pub fn verify_audit_public_inputs(inputs: &[u8]) -> (r: Result<(), CipherPayError>)
    ensures
        r == spec_tagged_inputs_result(inputs@, CipherPayError::InvalidAuditProof),
{
    if inputs.len() < 64 {
        return Err(CipherPayError::InvalidProofFormat);
    }
    if !is_valid_merkle_root(&inputs[0..32]) {
        return Err(CipherPayError::InvalidMerkleRoot);
    }
    let tag = &inputs[32..64];
    if is_all_zero(tag) {
        return Err(CipherPayError::InvalidAuditProof);
    }
    if !has_distinct_at_least(tag, 4) {
        return Err(CipherPayError::InvalidAuditProof);
    }
    Ok(())
}

/// Validates stream-circuit public inputs: a Merkle root and a stream id.
pub fn verify_stream_public_inputs(inputs: &[u8]) -> (r: Result<(), CipherPayError>)
    ensures
        r == spec_tagged_inputs_result(inputs@, CipherPayError::InvalidStreamProof),
{
    if inputs.len() < 64 {
        return Err(CipherPayError::InvalidProofFormat);
    }
    if !is_valid_merkle_root(&inputs[0..32]) {
        return Err(CipherPayError::InvalidMerkleRoot);
    }
    let tag = &inputs[32..64];
    if is_all_zero(tag) {
        return Err(CipherPayError::InvalidStreamProof);
    }
    if !has_distinct_at_least(tag, 4) {
        return Err(CipherPayError::InvalidStreamProof);
    }
    Ok(())
}

/// Validates split-circuit public inputs: a Merkle root and a split id.
pub fn verify_split_public_inputs(inputs: &[u8]) -> (r: Result<(), CipherPayError>)
    ensures
        r == spec_tagged_inputs_result(inputs@, CipherPayError::InvalidSplitProof),
{
    if inputs.len() < 64 {
        return Err(CipherPayError::InvalidProofFormat);
    }
    if !is_valid_merkle_root(&inputs[0..32]) {
        return Err(CipherPayError::InvalidMerkleRoot);
    }
    let tag = &inputs[32..64];
    if is_all_zero(tag) {
        return Err(CipherPayError::InvalidSplitProof);
    }
    if !has_distinct_at_least(tag, 4) {
        return Err(CipherPayError::InvalidSplitProof);
    }
    Ok(())
}

/// Validates condition-circuit public inputs: a Merkle root and a condition
/// id.
pub fn verify_condition_public_inputs(inputs: &[u8]) -> (r: Result<(), CipherPayError>)
    ensures
        r == spec_tagged_inputs_result(inputs@, CipherPayError::InvalidConditionProof),
{
    if inputs.len() < 64 {
        return Err(CipherPayError::InvalidProofFormat);
    }
    if !is_valid_merkle_root(&inputs[0..32]) {
        return Err(CipherPayError::InvalidMerkleRoot);
    }
    let tag = &inputs[32..64];
    if is_all_zero(tag) {
        return Err(CipherPayError::InvalidConditionProof);
    }
    if !has_distinct_at_least(tag, 4) {
        return Err(CipherPayError::InvalidConditionProof);
    }
    Ok(())
}

// ---- Circuit names, as ASCII bytes ------------------------------------------
/// "transfer"
pub const TAG_TRANSFER: [u8; 8] = [116, 114, 97, 110, 115, 102, 101, 114];

/// "withdraw"
pub const TAG_WITHDRAW: [u8; 8] = [119, 105, 116, 104, 100, 114, 97, 119];

/// "merkle"
pub const TAG_MERKLE: [u8; 6] = [109, 101, 114, 107, 108, 101];

/// "nullifier"
pub const TAG_NULLIFIER: [u8; 9] = [110, 117, 108, 108, 105, 102, 105, 101, 114];

/// "audit_proof"
pub const TAG_AUDIT_PROOF: [u8; 11] = [97, 117, 100, 105, 116, 95, 112, 114, 111, 111, 102];

/// "zkStream"
pub const TAG_ZK_STREAM: [u8; 8] = [122, 107, 83, 116, 114, 101, 97, 109];

/// "zkSplit"
pub const TAG_ZK_SPLIT: [u8; 7] = [122, 107, 83, 112, 108, 105, 116];

/// "zkCondition"
pub const TAG_ZK_CONDITION: [u8; 11] = [122, 107, 67, 111, 110, 100, 105, 116, 105, 111, 110];

/// The input validator a circuit name selects, or nothing for an unknown
/// name.
pub open spec fn spec_circuit_inputs_result(tag: Seq<u8>, inputs: Seq<u8>) -> Option<
    Result<(), CipherPayError>,
> {
    if tag == TAG_TRANSFER@ {
        Some(spec_root_inputs_result(inputs))
    } else if tag == TAG_WITHDRAW@ {
        Some(spec_root_inputs_result(inputs))
    } else if tag == TAG_MERKLE@ {
        Some(spec_root_inputs_result(inputs))
    } else if tag == TAG_NULLIFIER@ {
        Some(spec_nullifier_inputs_result(inputs))
    } else if tag == TAG_AUDIT_PROOF@ {
        Some(spec_tagged_inputs_result(inputs, CipherPayError::InvalidAuditProof))
    } else if tag == TAG_ZK_STREAM@ {
        Some(spec_tagged_inputs_result(inputs, CipherPayError::InvalidStreamProof))
    } else if tag == TAG_ZK_SPLIT@ {
        Some(spec_tagged_inputs_result(inputs, CipherPayError::InvalidSplitProof))
    } else if tag == TAG_ZK_CONDITION@ {
        Some(spec_tagged_inputs_result(inputs, CipherPayError::InvalidConditionProof))
    } else {
        None
    }
}

/// The exact outcome of the format-only Groth16 check: point heuristics, then
/// the circuit's input validator, then the pairing stand-in.
pub open spec fn spec_groth16_result(
    a: Seq<u8>,
    b: Seq<u8>,
    c: Seq<u8>,
    inputs: Seq<u8>,
    tag: Seq<u8>,
) -> Result<(), CipherPayError> {
    if !(spec_g1_ok(a) && spec_g2_ok(b) && spec_g1_ok(c)) {
        Err(CipherPayError::InvalidProofFormat)
    } else {
        match spec_circuit_inputs_result(tag, inputs) {
            Option::None => Err(CipherPayError::UnsupportedCircuit),
            Option::Some(Result::Err(e)) => Err(e),
            Option::Some(Result::Ok(_)) => if spec_pairing_ok3(a, b, c) {
                Ok(())
            } else {
                Err(CipherPayError::ProofVerificationFailed)
            },
        }
    }
}

/// Verifies a Groth16 proof's format for a named circuit: point heuristics,
/// the circuit's public-input validator, and the pairing stand-in.
pub fn verify_groth16_proof(
    proof_a: &[u8; 64],
    proof_b: &[u8; 128],
    proof_c: &[u8; 64],
    public_inputs: &[u8],
    circuit_type: &str,
) -> (r: Result<(), CipherPayError>)
    ensures
        r == spec_groth16_result(
            proof_a@,
            proof_b@,
            proof_c@,
            public_inputs@,
            circuit_type.spec_bytes(),
        ),
{
    let ga = verify_g1_point(proof_a);
    let gb = verify_g2_point(proof_b);
    let gc = verify_g1_point(proof_c);
    if !ga || !gb || !gc {
        return Err(CipherPayError::InvalidProofFormat);
    }
    let tag = circuit_type.as_bytes();
    let sub: Result<(), CipherPayError> = if bytes_eq(tag, TAG_TRANSFER.as_slice()) {
        verify_transfer_public_inputs(public_inputs)
    } else if bytes_eq(tag, TAG_WITHDRAW.as_slice()) {
        verify_withdraw_public_inputs(public_inputs)
    } else if bytes_eq(tag, TAG_MERKLE.as_slice()) {
        verify_merkle_public_inputs(public_inputs)
    } else if bytes_eq(tag, TAG_NULLIFIER.as_slice()) {
        verify_nullifier_public_inputs(public_inputs)
    } else if bytes_eq(tag, TAG_AUDIT_PROOF.as_slice()) {
        verify_audit_public_inputs(public_inputs)
    } else if bytes_eq(tag, TAG_ZK_STREAM.as_slice()) {
        verify_stream_public_inputs(public_inputs)
    } else if bytes_eq(tag, TAG_ZK_SPLIT.as_slice()) {
        verify_split_public_inputs(public_inputs)
    } else if bytes_eq(tag, TAG_ZK_CONDITION.as_slice()) {
        verify_condition_public_inputs(public_inputs)
    } else {
        return Err(CipherPayError::UnsupportedCircuit);
    };
    match sub {
        Ok(()) => {},
        Err(e) => {
            return Err(e);
        },
    }
    if !verify_pairing(proof_a, proof_b, proof_c) {
        return Err(CipherPayError::ProofVerificationFailed);
    }
    Ok(())
}

/// Verifies stream parameters against the given clock reading.
pub fn verify_stream_params(params: &crate::StreamParams, current_time: i64) -> (r: Result<
    (),
    CipherPayError,
>)
    ensures
        r is Ok <==> (params.start_time < params.end_time && current_time <= params.end_time
            && params.total_amount != 0),
        params.start_time >= params.end_time ==> r == Result::<(), CipherPayError>::Err(
            CipherPayError::InvalidStreamParams,
        ),
        params.start_time < params.end_time && current_time > params.end_time ==> r == Result::<
            (),
            CipherPayError,
        >::Err(CipherPayError::StreamExpired),
        params.start_time < params.end_time && current_time <= params.end_time
            && params.total_amount == 0 ==> r == Result::<(), CipherPayError>::Err(
            CipherPayError::InvalidStreamParams,
        ),
{
    if params.start_time >= params.end_time {
        return Err(CipherPayError::InvalidStreamParams);
    }
    if current_time > params.end_time {
        return Err(CipherPayError::StreamExpired);
    }
    if params.total_amount == 0 {
        return Err(CipherPayError::InvalidStreamParams);
    }
    Ok(())
}

/// Outcome of summing split amounts left to right with overflow checking:
/// the running total, or the first rejection (a zero amount, or a sum beyond
/// `u64::MAX`).
pub open spec fn spec_sum_checked(amounts: Seq<u64>, acc: int) -> Result<int, CipherPayError>
    decreases amounts.len(),
{
    if amounts.len() == 0 {
        Ok(acc)
    } else if amounts[0] == 0 {
        Err(CipherPayError::InvalidSplitDistribution)
    } else if acc + amounts[0] > u64::MAX {
        Err(CipherPayError::AmountOverflow)
    } else {
        spec_sum_checked(amounts.drop_first(), acc + amounts[0])
    }
}

/// Verifies split parameters: recipient cap, matched lengths, and non-zero
/// amounts whose sum fits in a u64.
pub fn verify_split_params(params: &crate::SplitParams) -> (r: Result<(), CipherPayError>)
    ensures
        params.recipients@.len() > 10 ==> r == Result::<(), CipherPayError>::Err(
            CipherPayError::RecipientLimitExceeded,
        ),
        params.recipients@.len() <= 10 && params.recipients@.len() != params.amounts@.len() ==> r
            == Result::<(), CipherPayError>::Err(CipherPayError::InvalidSplitDistribution),
        params.recipients@.len() <= 10 && params.recipients@.len() == params.amounts@.len() ==> r
            == match spec_sum_checked(params.amounts@, 0) {
            Result::Ok(_) => Result::<(), CipherPayError>::Ok(()),
            Result::Err(e) => Result::<(), CipherPayError>::Err(e),
        },
{
    if params.recipients.len() > 10 {
        return Err(CipherPayError::RecipientLimitExceeded);
    }
    if params.recipients.len() != params.amounts.len() {
        return Err(CipherPayError::InvalidSplitDistribution);
    }
    let n = params.amounts.len();
    let mut total: u64 = 0;
    let mut i: usize = 0;
    proof {
        assert(params.amounts@.skip(0) =~= params.amounts@);
    }
    while i < n
        invariant
            i <= n,
            n == params.amounts@.len(),
            params.recipients@.len() <= 10,
            params.recipients@.len() == params.amounts@.len(),
            spec_sum_checked(params.amounts@, 0) == spec_sum_checked(
                params.amounts@.skip(i as int),
                total as int,
            ),
        decreases n - i,
    {
        proof {
            assert(params.amounts@.skip(i as int).drop_first() =~= params.amounts@.skip(i + 1));
        }
        let a = params.amounts[i];
        if a == 0 {
            return Err(CipherPayError::InvalidSplitDistribution);
        }
        if total > u64::MAX - a {
            return Err(CipherPayError::AmountOverflow);
        }
        total = total + a;
        i = i + 1;
    }
    proof {
        assert(params.amounts@.skip(n as int) =~= Seq::<u64>::empty());
    }
    Ok(())
}

/// The exact outcome of the internal proof-request validation.
pub open spec fn spec_proof_internal_result(p: crate::VerifyProofArgs, current_time: i64) -> Result<
    (),
    CipherPayError,
> {
    if !(spec_g1_ok(p.proof_a@) && spec_g1_ok(p.proof_c@) && spec_g2_ok(p.proof_b@)) {
        Err(CipherPayError::InvalidProofFormat)
    } else if !spec_public_inputs_ok(p.public_inputs@) {
        Err(CipherPayError::InvalidPublicInputs)
    } else if !spec_root_format_ok(p.merkle_root@) {
        Err(CipherPayError::InvalidMerkleRoot)
    } else if p.timestamp > current_time {
        Err(CipherPayError::TimeConstraintViolation)
    } else {
        Ok(())
    }
}

/// Validates a whole proof request: point formats, public inputs, Merkle
/// root, and that the claimed timestamp is not in the future of the given
/// clock reading.
pub fn verify_proof_internal(request: &crate::VerifyProofArgs, current_time: i64) -> (r: Result<
    (),
    CipherPayError,
>)
    ensures
        r == spec_proof_internal_result(*request, current_time),
{
    match verify_proof_components(&request.proof_a, &request.proof_b, &request.proof_c) {
        Ok(()) => {},
        Err(e) => {
            return Err(e);
        },
    }
    match verify_public_inputs(request.public_inputs.as_slice()) {
        Ok(()) => {},
        Err(e) => {
            return Err(e);
        },
    }
    if !is_valid_merkle_root(request.merkle_root.as_slice()) {
        return Err(CipherPayError::InvalidMerkleRoot);
    }
    if request.timestamp > current_time {
        return Err(CipherPayError::TimeConstraintViolation);
    }
    Ok(())
}

/// Guards the addition `amount + increment` against overflow.
pub fn verify_arithmetic_overflow(amount: u64, increment: u64) -> (r: Result<(), CipherPayError>)
    ensures
        r is Ok <==> amount + increment <= u64::MAX,
        r is Err ==> r == Result::<(), CipherPayError>::Err(CipherPayError::AmountOverflow),
{
    if amount > u64::MAX - increment {
        return Err(CipherPayError::AmountOverflow);
    }
    Ok(())
}

} // verus!
