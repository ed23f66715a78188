//! The deposit-binding protocol: scanning the operations bundled in the same
//! atomic unit of execution for the companion value transfer and the memo
//! carrying the deposit hash, plus the root-cache helpers.
//!
//! The surrounding ledger hands the bundle in as plain values: one
//! `BundleInstruction` per operation, up to and including the current one.

use vstd::prelude::*;

use crate::bytes::bytes32_eq;
use crate::bytes::bytes_eq;
use crate::bytes::le_val;
use crate::bytes::u64_from_le8;
use crate::error::CipherPayError;
use crate::state::cache_dedup_insert;
use crate::state::cache_dedup_insert_all;
use crate::state::lemma_dedup_insert_all_snoc;
use crate::state::MerkleRootCache;

verus! {

/// One operation of the current atomic execution unit, as the ledger reports
/// it: the program addressed, the accounts handed to it in order, and its
/// raw payload.
pub struct BundleInstruction {
    pub program_id: [u8; 32],
    pub account_keys: Vec<[u8; 32]>,
    pub data: Vec<u8>,
}

/// The memo program's address (base58 `MemoSq4gqABAXKb96qnH8TysNcWxMyWCqXgDLGmfcHr`).
pub const MEMO_PROGRAM_ID: [u8; 32] = [
    0x05, 0x4a, 0x53, 0x5a, 0x99, 0x29, 0x21, 0x06, 0x4d, 0x24, 0xe8, 0x71, 0x60, 0xda, 0x38,
    0x7c, 0x7c, 0x35, 0xb5, 0xdd, 0xbc, 0x92, 0xbb, 0x81, 0xe4, 0x1f, 0xa8, 0x40, 0x41, 0x05,
    0x44, 0x8d,
];

/// The token program's address (base58 `TokenkegQfeZyiNwAJbNbGKPFXCWuBvf9Ss623VQ5DA`).
pub const TOKEN_PROGRAM_ID: [u8; 32] = [
    0x06, 0xdd, 0xf6, 0xe1, 0xd7, 0x65, 0xa1, 0x93, 0xd9, 0xcb, 0xe1, 0x46, 0xce, 0xeb, 0x79,
    0xac, 0x1c, 0xb4, 0x85, 0xed, 0x5f, 0x5b, 0x37, 0x91, 0x3a, 0x8c, 0xf5, 0x85, 0x7e, 0xff,
    0x00, 0xa9,
];

/// ASCII code of the lower-case hex digit for a value below 16.
pub open spec fn hex_digit(n: u8) -> u8 {
    if n < 10 {
        (48 + n) as u8
    } else {
        (87 + n) as u8
    }
}

/// Lower-case hex encoding of a byte string, as ASCII codes.
pub open spec fn spec_hex_lower(s: Seq<u8>) -> Seq<u8> {
    Seq::new(
        2 * s.len(),
        |k: int|
            if k % 2 == 0 {
                hex_digit(s[k / 2] / 16)
            } else {
                hex_digit(s[k / 2] % 16)
            },
    )
}

/// Lower-case hex encoding of a byte string, as ASCII codes.
fn hex_lower(data: &[u8]) -> (out: Vec<u8>)
    ensures
        out@ == spec_hex_lower(data@),
{
    let n = data.len();
    let mut out: Vec<u8> = Vec::new();
    let mut i: usize = 0;
    while i < n
        invariant
            i <= n,
            n == data@.len(),
            out@.len() == 2 * i,
            forall|k: int| 0 <= k < 2 * i ==> out@[k] == spec_hex_lower(data@)[k],
        decreases n - i,
    {
        let b = data[i];
        let hi = b / 16;
        let lo = b % 16;
        out.push(if hi < 10 {
            48 + hi
        } else {
            87 + hi
        });
        out.push(if lo < 10 {
            48 + lo
        } else {
            87 + lo
        });
        i = i + 1;
    }
    proof {
        assert(out@ =~= spec_hex_lower(data@));
    }
    out
}

/// The string form of the memo payload: `"deposit:" + hex(hash)`, as bytes.
pub open spec fn spec_memo_text(h: Seq<u8>) -> Seq<u8> {
    seq![100u8, 101u8, 112u8, 111u8, 115u8, 105u8, 116u8, 58u8] + spec_hex_lower(h)
}

/// Whether one bundled operation is the memo that binds this deposit: it
/// addresses the memo program and carries either the raw 32-byte hash or the
/// string `"deposit:<hex>"`.
pub open spec fn spec_memo_ok(ix: BundleInstruction, h: Seq<u8>) -> bool {
    &&& ix.program_id@ == MEMO_PROGRAM_ID@
    &&& (ix.data@ == h || ix.data@ == spec_memo_text(h))
}

/// Requires a memo operation carrying `expected_hash_le` somewhere in the
/// current atomic unit: raw 32-byte form or `"deposit:<hex-le>"` string form.
pub fn assert_memo_in_same_tx(
    instructions: &Vec<BundleInstruction>,
    expected_hash_le: &[u8; 32],
) -> (r: Result<(), CipherPayError>)
    ensures
        r is Ok <==> exists|i: int|
            0 <= i < instructions@.len() && spec_memo_ok(instructions@[i], expected_hash_le@),
        r is Err ==> r == Result::<(), CipherPayError>::Err(CipherPayError::InvalidInput),
{
    let hex = hex_lower(expected_hash_le.as_slice());
    let mut want: Vec<u8> = Vec::new();
    want.push(100);
    want.push(101);
    want.push(112);
    want.push(111);
    want.push(115);
    want.push(105);
    want.push(116);
    want.push(58);
    let mut k: usize = 0;
    while k < hex.len()
        invariant
            k <= hex@.len(),
            hex@ == spec_hex_lower(expected_hash_le@),
            want@ == seq![100u8, 101u8, 112u8, 111u8, 115u8, 105u8, 116u8, 58u8] + hex@.take(
                k as int,
            ),
        decreases hex@.len() - k,
    {
        want.push(hex[k]);
        proof {
            assert(hex@.take(k + 1) =~= hex@.take(k as int).push(hex@[k as int]));
            assert(want@ =~= seq![100u8, 101u8, 112u8, 111u8, 115u8, 105u8, 116u8, 58u8]
                + hex@.take(k + 1));
        }
        k = k + 1;
    }
    proof {
        assert(hex@.take(hex@.len() as int) =~= hex@);
        assert(want@ == spec_memo_text(expected_hash_le@));
    }
    let n = instructions.len();
    let mut i: usize = 0;
    while i < n
        invariant
            i <= n,
            n == instructions@.len(),
            want@ == spec_memo_text(expected_hash_le@),
            forall|j: int| 0 <= j < i ==> !spec_memo_ok(instructions@[j], expected_hash_le@),
        decreases n - i,
    {
        let ix = &instructions[i];
        if bytes32_eq(&ix.program_id, &MEMO_PROGRAM_ID) {
            let raw_ok = bytes_eq(ix.data.as_slice(), expected_hash_le.as_slice());
            let str_ok = bytes_eq(ix.data.as_slice(), want.as_slice());
            if raw_ok || str_ok {
                assert(spec_memo_ok(instructions@[i as int], expected_hash_le@));
                return Ok(());
            }
        }
        i = i + 1;
    }
    proof {
        if exists|j: int|
            0 <= j < instructions@.len() && spec_memo_ok(instructions@[j], expected_hash_le@) {
            let w = choose|j: int|
                0 <= j < instructions@.len() && spec_memo_ok(instructions@[j], expected_hash_le@);
            assert(!spec_memo_ok(instructions@[w], expected_hash_le@));
        }
    }
    Err(CipherPayError::InvalidInput)
}

/// What a token-program payload says, if it is one of the two transfer forms:
/// tag 3 (`Transfer { amount }`) or tag 12 (`TransferChecked { amount,
/// decimals }`), the amount in little-endian bytes after the tag.
pub open spec fn spec_token_amount(data: Seq<u8>) -> Option<(u8, u64, Option<u8>)> {
    if data.len() == 0 {
        None
    } else if data[0] == 3 {
        if data.len() < 9 {
            None
        } else {
            Some((3u8, le_val(data.subrange(1, 9)) as u64, None))
        }
    } else if data[0] == 12 {
        if data.len() < 10 {
            None
        } else {
            Some((12u8, le_val(data.subrange(1, 9)) as u64, Some(data[9])))
        }
    } else {
        None
    }
}

/// Minimal decoder for token-transfer payloads:
/// tag 3  -> Transfer { amount: u64 },
/// tag 12 -> TransferChecked { amount: u64, decimals: u8 }.
fn parse_spl_token_amount(data: &[u8]) -> (r: Option<(u8, u64, Option<u8>)>)
    ensures
        r == spec_token_amount(data@),
{
    if data.len() == 0 {
        return None;
    }
    proof {
        crate::bytes::lemma_le_val_bound(data@.subrange(1, 9));
        reveal_with_fuel(crate::bytes::pow256, 9);
    }
    if data[0] == 3 {
        if data.len() < 9 {
            return None;
        }
        let amount = u64_from_le8(&data[1..9]);
        proof {
            assert(data@.subrange(1, 9).take(8) =~= data@.subrange(1, 9));
        }
        Some((3, amount, None))
    } else if data[0] == 12 {
        if data.len() < 10 {
            return None;
        }
        let amount = u64_from_le8(&data[1..9]);
        proof {
            assert(data@.subrange(1, 9).take(8) =~= data@.subrange(1, 9));
        }
        Some((12, amount, Some(data[9])))
    } else {
        None
    }
}

/// Whether one bundled operation is the companion value transfer this deposit
/// claims: a token-program Transfer or TransferChecked whose destination is
/// `dst` and whose amount matches (a zero `expected_amount` is a wildcard for
/// non-production configurations).
pub open spec fn spec_transfer_ok(ix: BundleInstruction, dst: Seq<u8>, expected_amount: u64) -> bool {
    &&& ix.program_id@ == TOKEN_PROGRAM_ID@
    &&& match spec_token_amount(ix.data@) {
        Some((tag, amount, _)) => {
            if tag == 3 {
                // Transfer: [source, destination, authority, ...]
                &&& ix.account_keys@.len() > 1
                &&& ix.account_keys@[1]@ == dst
                &&& (expected_amount == 0 || amount == expected_amount)
            } else if tag == 12 {
                // TransferChecked: [source, mint, destination, authority, ...]
                &&& ix.account_keys@.len() > 2
                &&& ix.account_keys@[2]@ == dst
                &&& (expected_amount == 0 || amount == expected_amount)
            } else {
                false
            }
        },
        None => false,
    }
}

/// Requires a Transfer/TransferChecked to `expected_dst` somewhere in the
/// current atomic unit. If `expected_amount == 0`, the amount is a wildcard.
pub fn assert_transfer_checked_in_same_tx(
    instructions: &Vec<BundleInstruction>,
    expected_dst: &[u8; 32],
    expected_amount: u64,
) -> (r: Result<(), CipherPayError>)
    ensures
        r is Ok <==> exists|i: int|
            0 <= i < instructions@.len() && spec_transfer_ok(
                instructions@[i],
                expected_dst@,
                expected_amount,
            ),
        r is Err ==> r == Result::<(), CipherPayError>::Err(
            CipherPayError::RequiredSplTransferMissing,
        ),
{
    let n = instructions.len();
    let mut i: usize = 0;
    while i < n
        invariant
            i <= n,
            n == instructions@.len(),
            forall|j: int|
                0 <= j < i ==> !spec_transfer_ok(instructions@[j], expected_dst@, expected_amount),
        decreases n - i,
    {
        let ix = &instructions[i];
        if bytes32_eq(&ix.program_id, &TOKEN_PROGRAM_ID) {
            match parse_spl_token_amount(ix.data.as_slice()) {
                Some((tag, amount, _decimals)) => {
                    if tag == 3 {
                        if ix.account_keys.len() > 1 {
                            let dst_ok = bytes32_eq(&ix.account_keys[1], expected_dst);
                            let amount_ok = expected_amount == 0 || amount == expected_amount;
                            if dst_ok && amount_ok {
                                assert(spec_transfer_ok(
                                    instructions@[i as int],
                                    expected_dst@,
                                    expected_amount,
                                ));
                                return Ok(());
                            }
                        }
                    } else if tag == 12 {
                        if ix.account_keys.len() > 2 {
                            let dst_ok = bytes32_eq(&ix.account_keys[2], expected_dst);
                            let amount_ok = expected_amount == 0 || amount == expected_amount;
                            if dst_ok && amount_ok {
                                assert(spec_transfer_ok(
                                    instructions@[i as int],
                                    expected_dst@,
                                    expected_amount,
                                ));
                                return Ok(());
                            }
                        }
                    }
                },
                None => {},
            }
        }
        i = i + 1;
    }
    proof {
        if exists|j: int|
            0 <= j < instructions@.len() && spec_transfer_ok(
                instructions@[j],
                expected_dst@,
                expected_amount,
            ) {
            let w = choose|j: int|
                0 <= j < instructions@.len() && spec_transfer_ok(
                    instructions@[j],
                    expected_dst@,
                    expected_amount,
                );
            assert(!spec_transfer_ok(instructions@[w], expected_dst@, expected_amount));
        }
    }
    Err(CipherPayError::RequiredSplTransferMissing)
}

// ─── Root-cache helpers ───
/// Insert a single root if absent.
pub fn insert_merkle_root(new_root: &[u8; 32], cache: &mut MerkleRootCache)
    requires
        old(cache).well_formed(),
    ensures
        final(cache).well_formed(),
        final(cache).entries() == cache_dedup_insert(old(cache).entries(), *new_root),
{
    if !cache.contains(new_root) {
        cache.insert(*new_root);
    }
}

/// Insert many roots, deduplicating each in turn.
pub fn insert_many_roots(new_roots: &[[u8; 32]], cache: &mut MerkleRootCache)
    requires
        old(cache).well_formed(),
    ensures
        final(cache).well_formed(),
        final(cache).entries() == cache_dedup_insert_all(old(cache).entries(), new_roots@),
{
    let n = new_roots.len();
    let mut i: usize = 0;
    proof {
        assert(new_roots@.take(0) =~= Seq::<[u8; 32]>::empty());
    }
    while i < n
        invariant
            i <= n,
            n == new_roots@.len(),
            cache.well_formed(),
            cache.entries() == cache_dedup_insert_all(
                old(cache).entries(),
                new_roots@.take(i as int),
            ),
        decreases n - i,
    {
        insert_merkle_root(&new_roots[i], cache);
        proof {
            lemma_dedup_insert_all_snoc(old(cache).entries(), new_roots@.take(i + 1));
            assert(new_roots@.take(i + 1).drop_last() =~= new_roots@.take(i as int));
            assert(new_roots@.take(i + 1).last() == new_roots@[i as int]);
        }
        i = i + 1;
    }
    proof {
        assert(new_roots@.take(n as int) =~= new_roots@);
    }
}

/// Pure read: check whether a root is known to the cache.
pub fn is_valid_root(root: &[u8; 32], cache: &MerkleRootCache) -> (r: bool)
    requires
        cache.well_formed(),
    ensures
        r == cache.entries().contains(*root),
{
    cache.contains(root)
}

} // verus!
