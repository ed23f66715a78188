//! Central location for proof type definitions: the wire forms of a proof and
//! its public inputs are plain byte vectors.

use vstd::prelude::*;

verus! {

pub type ZkProof = Vec<u8>;

pub type ZkPublicInputs = Vec<u8>;

} // verus!
