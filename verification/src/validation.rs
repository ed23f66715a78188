//! Plain-value guards shared by the operations.

use vstd::prelude::*;

use crate::bytes::bytes32_eq;
use crate::error_code::CipherPayError;

verus! {

/// Verifies stream parameters: a positive amount and a forward time window.
pub fn verify_stream_params(amount: u64, start_time: i64, end_time: i64) -> (r: Result<
    (),
    CipherPayError,
>)
    ensures
        r is Ok <==> amount != 0 && start_time < end_time,
        amount == 0 ==> r == Result::<(), CipherPayError>::Err(CipherPayError::ZeroAmount),
        amount != 0 && start_time >= end_time ==> r == Result::<(), CipherPayError>::Err(
            CipherPayError::InvalidStreamParams,
        ),
{
    if amount == 0 {
        return Err(CipherPayError::ZeroAmount);
    }
    if start_time >= end_time {
        return Err(CipherPayError::InvalidStreamParams);
    }
    Ok(())
}

/// Verifies the vault can cover a withdrawal.
pub fn verify_vault_balance(balance: u64, amount: u64) -> (r: Result<(), CipherPayError>)
    ensures
        r is Ok <==> balance >= amount,
        r is Err ==> r == Result::<(), CipherPayError>::Err(CipherPayError::InsufficientFunds),
{
    if balance < amount {
        return Err(CipherPayError::InsufficientFunds);
    }
    Ok(())
}

/// Verifies a nullifier has not been spent yet.
pub fn verify_nullifier_usage(nullifier: [u8; 32], nullifier_set: &Vec<[u8; 32]>) -> (r: Result<
    (),
    CipherPayError,
>)
    ensures
        r is Ok <==> !nullifier_set@.contains(nullifier),
        r is Err ==> r == Result::<(), CipherPayError>::Err(CipherPayError::NullifierAlreadyUsed),
{
    let n = nullifier_set.len();
    let mut i: usize = 0;
    while i < n
        invariant
            i <= n,
            n == nullifier_set@.len(),
            forall|j: int| 0 <= j < i ==> nullifier_set@[j] != nullifier,
        decreases n - i,
    {
        if bytes32_eq(&nullifier_set[i], &nullifier) {
            assert(nullifier_set@[i as int] == nullifier);
            return Err(CipherPayError::NullifierAlreadyUsed);
        }
        i = i + 1;
    }
    proof {
        if nullifier_set@.contains(nullifier) {
            let w = choose|j: int|
                0 <= j < nullifier_set@.len() && nullifier_set@[j] == nullifier;
            assert(nullifier_set@[w] != nullifier);
        }
    }
    Ok(())
}

/// Verifies a Merkle proof is present at all for the given root.
pub fn verify_merkle_root(_root: [u8; 32], proof: &Vec<[u8; 32]>) -> (r: Result<
    (),
    CipherPayError,
>)
    ensures
        r is Ok <==> proof@.len() > 0,
        r is Err ==> r == Result::<(), CipherPayError>::Err(CipherPayError::InvalidMerkleProof),
{
    if proof.len() == 0 {
        return Err(CipherPayError::InvalidMerkleProof);
    }
    Ok(())
}

/// Compute budget is the runtime's concern; nothing is checked here.
pub fn verify_compute_budget_usage(_required_units: u32) -> (r: Result<(), CipherPayError>)
    ensures
        r is Ok,
{
    Ok(())
}

/// Guards the addition `a + b` against overflow.
pub fn verify_arithmetic_overflow(a: u64, b: u64) -> (r: Result<(), CipherPayError>)
    ensures
        r is Ok <==> a + b <= u64::MAX,
        r is Err ==> r == Result::<(), CipherPayError>::Err(CipherPayError::ArithmeticOverflow),
{
    if a > u64::MAX - b {
        return Err(CipherPayError::ArithmeticOverflow);
    }
    Ok(())
}

} // verus!
