//! Configurable limits on stream, split and proof parameters.

use vstd::prelude::*;

verus! {

pub struct ValidationLimits {
    pub max_stream_amount: u64,
    pub max_stream_duration: i64,
    pub max_recipients: u8,
    pub max_proof_size: usize,
    pub max_public_inputs: usize,
}

/// Upper bound on the tracked nullifier set.
pub const MAX_NULLIFIER_SET_SIZE: usize = 1000;

/// Upper bound on split recipients.
pub const MAX_SPLIT_RECIPIENTS: usize = 10;

impl ValidationLimits {
    /// The default limits: 1 billion base units, a one-year window, ten
    /// recipients, 1 KiB proofs, one hundred public inputs.
    pub fn new() -> (r: Self)
        ensures
            r.max_stream_amount == 1_000_000_000u64,
            r.max_stream_duration == 31_536_000i64,
            r.max_recipients == 10u8,
            r.max_proof_size == 1024usize,
            r.max_public_inputs == 100usize,
    {
        ValidationLimits {
            max_stream_amount: 1_000_000_000,
            // One year in seconds.
            max_stream_duration: 365 * 24 * 60 * 60,
            max_recipients: 10,
            max_proof_size: 1024,
            max_public_inputs: 100,
        }
    }

    pub fn verify_stream_amount(&self, amount: u64) -> (r: bool)
        ensures
            r == (amount <= self.max_stream_amount),
    {
        amount <= self.max_stream_amount
    }

    pub fn verify_stream_duration(&self, duration: i64) -> (r: bool)
        ensures
            r == (duration <= self.max_stream_duration),
    {
        duration <= self.max_stream_duration
    }

    pub fn verify_recipients_count(&self, count: u8) -> (r: bool)
        ensures
            r == (count <= self.max_recipients),
    {
        count <= self.max_recipients
    }

    pub fn verify_proof_size(&self, size: usize) -> (r: bool)
        ensures
            r == (size <= self.max_proof_size),
    {
        size <= self.max_proof_size
    }

    pub fn verify_public_inputs_count(&self, count: usize) -> (r: bool)
        ensures
            r == (count <= self.max_public_inputs),
    {
        count <= self.max_public_inputs
    }
}

impl Default for ValidationLimits {
    /// The same limits as `new`.
    fn default() -> (r: Self)
        ensures
            r.max_stream_amount == 1_000_000_000u64,
            r.max_stream_duration == 31_536_000i64,
            r.max_recipients == 10u8,
            r.max_proof_size == 1024usize,
            r.max_public_inputs == 100usize,
    {
        ValidationLimits::new()
    }
}

pub struct StreamVerification;

/// Compute units a stream verification asks for.
pub const STREAM_REQUIRED_UNITS: u32 = 200_000;

pub struct SplitVerification;

/// Compute units a split verification asks for.
pub const SPLIT_REQUIRED_UNITS: u32 = 150_000;

} // verus!
