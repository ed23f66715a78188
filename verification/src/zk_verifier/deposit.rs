//! Deposit-circuit proof intake.

use vstd::prelude::*;

use crate::error::CipherPayError;
use crate::zk_verifier::types::ZkProof;

verus! {

/// Accepts the raw bytes of a deposit proof, rejecting blobs too short to
/// hold a Groth16 proof.
pub fn parse_deposit_proof(proof_bytes: &[u8]) -> (r: Result<ZkProof, CipherPayError>)
    ensures
        r is Ok <==> proof_bytes@.len() >= 192,
        r is Err ==> r == Result::<ZkProof, CipherPayError>::Err(CipherPayError::InvalidZkProof),
        r matches Ok(v) ==> v@ == proof_bytes@,
{
    if proof_bytes.len() < 192 {
        return Err(CipherPayError::InvalidZkProof);
    }
    Ok(vstd::slice::slice_to_vec(proof_bytes))
}

} // verus!
