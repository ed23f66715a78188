//! Merkle-proof checking over SHA-256 with order-normalized pairs, and the
//! set-based nullifier check.

use vstd::prelude::*;

use crate::bytes::bytes32_eq;
use crate::helper::lemma_chain_snoc;
use crate::helper::spec_chain;

verus! {

#[derive(Clone, Copy, Debug, PartialEq, Eq, Structural)]
pub enum MerkleError {
    /// Invalid proof format.
    InvalidProofFormat,
    /// Invalid merkle root.
    InvalidMerkleRoot,
    /// Nullifier already used.
    NullifierAlreadyUsed,
}

impl MerkleError {
    /// Human-readable message for the error.
    pub fn message(&self) -> &'static str {
        match self {
            MerkleError::InvalidProofFormat => "Invalid proof format",
            MerkleError::InvalidMerkleRoot => "Invalid merkle root",
            MerkleError::NullifierAlreadyUsed => "Nullifier already used",
        }
    }
}

/// Verifies a merkle proof against a root: the chain folded from the proof's
/// first element through the rest must equal the root.
pub fn verify_merkle_proof(proof: &Vec<[u8; 32]>, root: [u8; 32]) -> (r: Result<(), MerkleError>)
    ensures
        r is Ok <==> (proof@.len() > 0 && spec_chain(proof@[0]@, proof@.skip(1)) == root@),
        proof@.len() == 0 ==> r == Result::<(), MerkleError>::Err(MerkleError::InvalidProofFormat),
        proof@.len() > 0 && r is Err ==> r == Result::<(), MerkleError>::Err(
            MerkleError::InvalidMerkleRoot,
        ),
{
    if proof.len() == 0 {
        return Err(MerkleError::InvalidProofFormat);
    }
    let calculated_root = calculate_merkle_root(proof);
    if !bytes32_eq(&calculated_root, &root) {
        return Err(MerkleError::InvalidMerkleRoot);
    }
    Ok(())
}

/// Folds a proof into its root: starts at the first element and hashes each
/// later element in, ordering every pair byte-lexicographically.
pub fn calculate_merkle_root(proof: &Vec<[u8; 32]>) -> (r: [u8; 32])
    requires
        proof@.len() > 0,
    ensures
        r@ == spec_chain(proof@[0]@, proof@.skip(1)),
{
    let mut current: [u8; 32] = proof[0];
    let n = proof.len();
    let mut i: usize = 1;
    proof {
        assert(proof@.subrange(1, 1) =~= Seq::<[u8; 32]>::empty());
    }
    while i < n
        invariant
            1 <= i <= n,
            n == proof@.len(),
            current@ == spec_chain(proof@[0]@, proof@.subrange(1, i as int)),
        decreases n - i,
    {
        current = crate::helper::hash_pair(&current, &proof[i]);
        proof {
            lemma_chain_snoc(proof@[0]@, proof@.subrange(1, i + 1));
            assert(proof@.subrange(1, i + 1).drop_last() =~= proof@.subrange(1, i as int));
            assert(proof@.subrange(1, i + 1).last() == proof@[i as int]);
        }
        i = i + 1;
    }
    proof {
        assert(proof@.subrange(1, n as int) =~= proof@.skip(1));
    }
    current
}

/// Whether a leaf is in the tree: folds the leaf through the proof and
/// compares with the root.
pub fn verify_leaf_in_tree(leaf: [u8; 32], proof: &Vec<[u8; 32]>, root: [u8; 32]) -> (r: Result<
    bool,
    MerkleError,
>)
    ensures
        r == Result::<bool, MerkleError>::Ok(spec_chain(leaf@, proof@) == root@),
{
    let mut current: [u8; 32] = leaf;
    let n = proof.len();
    let mut i: usize = 0;
    proof {
        assert(proof@.take(0) =~= Seq::<[u8; 32]>::empty());
    }
    while i < n
        invariant
            i <= n,
            n == proof@.len(),
            current@ == spec_chain(leaf@, proof@.take(i as int)),
        decreases n - i,
    {
        current = crate::helper::hash_pair(&current, &proof[i]);
        proof {
            lemma_chain_snoc(leaf@, proof@.take(i + 1));
            assert(proof@.take(i + 1).drop_last() =~= proof@.take(i as int));
            assert(proof@.take(i + 1).last() == proof@[i as int]);
        }
        i = i + 1;
    }
    proof {
        assert(proof@.take(n as int) =~= proof@);
    }
    let equal = bytes32_eq(&current, &root);
    Ok(equal)
}

/// Whether a nullifier is still fresh: fails if it is already in the spent
/// set.
pub fn verify_nullifier(nullifier: [u8; 32], nullifier_set: &Vec<[u8; 32]>) -> (r: Result<
    bool,
    MerkleError,
>)
    ensures
        r is Ok <==> !nullifier_set@.contains(nullifier),
        r is Ok ==> r == Result::<bool, MerkleError>::Ok(true),
        r is Err ==> r == Result::<bool, MerkleError>::Err(MerkleError::NullifierAlreadyUsed),
{
    let n = nullifier_set.len();
    let mut i: usize = 0;
    while i < n
        invariant
            i <= n,
            n == nullifier_set@.len(),
            forall|j: int| 0 <= j < i ==> nullifier_set@[j] != nullifier,
        decreases n - i,
    {
        if bytes32_eq(&nullifier_set[i], &nullifier) {
            assert(nullifier_set@[i as int] == nullifier);
            return Err(MerkleError::NullifierAlreadyUsed);
        }
        i = i + 1;
    }
    proof {
        if nullifier_set@.contains(nullifier) {
            let w = choose|j: int|
                0 <= j < nullifier_set@.len() && nullifier_set@[j] == nullifier;
            assert(nullifier_set@[w] != nullifier);
        }
    }
    Ok(true)
}

} // verus!
