//! Program-wide constants and small wire helpers.

use vstd::prelude::*;

use crate::bytes::le_val;
use crate::bytes::u64_from_le8;

verus! {

/// Field element size in bytes (BN254 Fr).
pub const FIELD_BYTES: usize = 32;

/// G1 point = (x, y) = 2 * 32 bytes.
pub const G1_BYTES: usize = 64;

/// G2 point = (x.c0, x.c1, y.c0, y.c1) = 4 * 32 bytes.
pub const G2_BYTES: usize = 128;

/// Groth16 proof bytes = A(G1) + B(G2) + C(G1).
pub const PROOF_BYTES_LEN: usize = 256;

/// How many historical roots the ring-buffer cache stores.
pub const MAX_ROOTS: usize = 128;

/// Reads a u64 from the first 8 little-endian bytes of a 32-byte field element.
pub fn le_bytes_32_to_u64(x: &[u8; 32]) -> (v: u64)
    ensures
        v == le_val(x@.take(8)),
{
    u64_from_le8(x.as_slice())
}

} // verus!
