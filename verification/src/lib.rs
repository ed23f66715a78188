use vstd::prelude::*;

pub mod bytes;
pub mod constants;
pub mod error;
pub mod error_code;
pub mod helper;
pub mod merkle;
pub mod event;
pub mod events;
pub mod state;
pub mod utils;
pub mod validation;
pub mod validation_limits;
pub mod zk_verifier;

verus! {

/// Everything a proof-verification request carries, flattened to plain
/// values. Addresses are raw 32-byte keys.
pub struct VerifyProofArgs {
    pub proof_a: [u8; 64],
    pub proof_b: [u8; 128],
    pub proof_c: [u8; 64],
    pub public_inputs: Vec<u8>,
    pub merkle_root: [u8; 32],
    pub nullifier: [u8; 32],
    pub stream_id: [u8; 32],
    pub proof: Vec<u8>,
    pub recipient_address: [u8; 32],
    pub amount: u64,
    pub timestamp: i64,
    pub purpose: String,
    pub audit_id: [u8; 32],
}

/// Parameters of a streaming payment.
pub struct StreamParams {
    pub stream_id: [u8; 32],
    pub start_time: i64,
    pub end_time: i64,
    pub total_amount: u64,
}

/// Parameters of a split payment.
pub struct SplitParams {
    pub split_id: [u8; 32],
    pub recipients: Vec<[u8; 32]>,
    pub amounts: Vec<u64>,
}

} // verus!

use crate::bytes::bytes32_of;
use crate::bytes::bytes_eq;
use crate::bytes::le_val;
use crate::bytes::read32;
use crate::bytes::u32_from_le4;
use crate::constants::le_bytes_32_to_u64;
use crate::error::CipherPayError;
use crate::event::DepositCompleted;
use crate::event::TransferCompleted;
use crate::event::WithdrawCompleted;
use crate::state::cache_dedup_insert;
use crate::state::cache_dedup_insert_all;
use crate::state::consumed;
use crate::state::DepositMarker;
use crate::state::MerkleRootCache;
use crate::state::NullifierRecord;
use crate::state::TreeState;
use crate::utils::assert_memo_in_same_tx;
use crate::utils::assert_transfer_checked_in_same_tx;
use crate::utils::insert_many_roots;
use crate::utils::insert_merkle_root;
use crate::utils::is_valid_root;
use crate::utils::spec_memo_ok;
use crate::utils::spec_transfer_ok;
use crate::utils::BundleInstruction;
use crate::zk_verifier::solana_verifier::signal_at;
use crate::zk_verifier::solana_verifier::parse_public_signals_exact;
use crate::zk_verifier::solana_verifier::ProofVerifier;
use crate::zk_verifier::solana_verifier::DEPOSIT_N_PUBLIC;
use crate::zk_verifier::solana_verifier::TRANSFER_N_PUBLIC;
use crate::zk_verifier::solana_verifier::WITHDRAW_N_PUBLIC;

verus! {

/// The accounts a withdraw binds together, as raw 32-byte keys: the vault's
/// token account (its mint and owner), the vault authority, the recipient's
/// token account (its mint and owner), the recipient's wallet, and the mint
/// being withdrawn.
#[derive(Clone, Copy)]
pub struct WithdrawAccounts {
    pub vault_token_mint: [u8; 32],
    pub vault_token_owner: [u8; 32],
    pub vault_pda: [u8; 32],
    pub recipient_token_mint: [u8; 32],
    pub recipient_token_owner: [u8; 32],
    pub recipient_owner: [u8; 32],
    pub token_mint: [u8; 32],
}

/// Reads the little-endian u32 in the first four bytes of a field element.
fn u32_le(x: &[u8; 32]) -> (v: u32)
    ensures
        v == le_val(x@.take(4)),
{
    u32_from_le4(x.as_slice())
}

/// Rebuilding a 32-byte wallet key from two little-endian field limbs, each
/// carrying 16 bytes: low half then high half.
pub open spec fn spec_pubkey_from_limbs(lo: Seq<u8>, hi: Seq<u8>) -> Seq<u8> {
    lo.take(16) + hi.take(16)
}

/// Rebuild a 32-byte wallet key from two 32-byte LE field limbs (each below
/// 2^128): the first 16 bytes of each, low half then high half.
fn pubkey_from_limbs(lo32: &[u8; 32], hi32: &[u8; 32]) -> (r: [u8; 32])
    ensures
        r@ == spec_pubkey_from_limbs(lo32@, hi32@),
{
    let mut out: [u8; 32] = [0; 32];
    let mut i: usize = 0;
    while i < 16
        invariant
            i <= 16,
            forall|j: int| 0 <= j < i ==> out@[j] == lo32@[j],
            forall|j: int| 16 <= j < 16 + i ==> out@[j] == hi32@[j - 16],
        decreases 16 - i,
    {
        out[i] = lo32[i];
        out[16 + i] = hi32[i];
        i = i + 1;
    }
    proof {
        assert(out@ =~= spec_pubkey_from_limbs(lo32@, hi32@));
    }
    out
}

/// Splits a transfer public-signal blob into its nine field elements.
fn parse_transfer_publics(signals: &[u8]) -> (r: Result<[[u8; 32]; 9], CipherPayError>)
    ensures
        r is Ok <==> signals@.len() == 288,
        r is Err ==> r == Result::<[[u8; 32]; 9], CipherPayError>::Err(CipherPayError::InvalidInput),
        r matches Ok(v) ==> forall|i: int| 0 <= i < 9 ==> v@[i]@ == signal_at(signals@, i),
{
    if signals.len() != 9 * 32 {
        return Err(CipherPayError::InvalidInput);
    }
    let mut out: [[u8; 32]; 9] = [[0; 32]; 9];
    let mut i: usize = 0;
    while i < 9
        invariant
            i <= 9,
            signals@.len() == 288,
            forall|j: int| 0 <= j < i ==> out@[j]@ == signal_at(signals@, j),
        decreases 9 - i,
    {
        out[i] = read32(signals, i * 32);
        i = i + 1;
    }
    Ok(out)
}

/// Create the global commitment-tree state with a genesis root and a cursor
/// at zero.
pub fn initialize_tree_state(tree: &mut TreeState, depth: u8, genesis_root: [u8; 32])
    ensures
        final(tree).version == 1,
        final(tree).depth == depth,
        final(tree).current_root == genesis_root,
        final(tree).next_index == 0,
{
    tree.version = 1;
    tree.depth = depth;
    tree.current_root = genesis_root;
    tree.next_index = 0;
}

/// One-time reset of the root cache.
pub fn initialize_root_cache(cache: &mut MerkleRootCache)
    ensures
        final(cache).well_formed(),
        final(cache).entries() == Seq::<[u8; 32]>::empty(),
        final(cache).count == 0,
{
    cache.clear();
}

/// The little-endian u64 in the first eight bytes of the amount signal.
pub open spec fn deposit_amount_of(publics: Seq<u8>) -> u64 {
    le_val(signal_at(publics, 4).take(8)) as u64
}

/// The exact outcome of a deposit attempt: the first failing check names the
/// error; `Ok(false)` is the idempotent no-op on a processed marker,
/// `Ok(true)` a fresh deposit.
pub open spec fn spec_deposit_outcome(
    tree: TreeState,
    marker: DepositMarker,
    v: ProofVerifier,
    instrs: Seq<BundleInstruction>,
    vault: Seq<u8>,
    hash: Seq<u8>,
    proof: Seq<u8>,
    publics: Seq<u8>,
) -> Result<bool, CipherPayError> {
    if hash.len() != 32 {
        Err(CipherPayError::InvalidInput)
    } else if marker.processed {
        Ok(false)
    } else if !v.spec_accepts(DEPOSIT_N_PUBLIC as int, proof, publics) {
        Err(CipherPayError::InvalidZkProof)
    } else if signal_at(publics, 5) != hash {
        Err(CipherPayError::InvalidZkProof)
    } else if !(exists|i: int| 0 <= i < instrs.len() && spec_memo_ok(instrs[i], hash)) {
        Err(CipherPayError::InvalidInput)
    } else if !(exists|i: int|
        0 <= i < instrs.len() && spec_transfer_ok(instrs[i], vault, deposit_amount_of(publics))) {
        Err(CipherPayError::RequiredSplTransferMissing)
    } else if signal_at(publics, 6) != tree.current_root@ {
        Err(CipherPayError::OldRootMismatch)
    } else if le_val(signal_at(publics, 3).take(4)) != tree.next_index + 1 {
        Err(CipherPayError::InvalidInput)
    } else {
        Ok(true)
    }
}

/// Atomic deposit: the memo carrying the deposit hash and the token transfer
/// to the vault must both appear in the same atomic unit
/// (`instructions`, up to and including the current operation); the proof
/// must verify; the proof's old root and cursor must match the tree. Only
/// then does the tree advance by one leaf, the new root enter the cache, and
/// the marker become processed. A marker already processed makes the whole
/// call a benign no-op (`Ok(None)`); every error leaves all state unchanged.
pub fn shielded_deposit_atomic(
    tree: &mut TreeState,
    root_cache: &mut MerkleRootCache,
    deposit_marker: &mut DepositMarker,
    verifier: &ProofVerifier,
    instructions: &Vec<BundleInstruction>,
    vault_token_account: &[u8; 32],
    token_mint: &[u8; 32],
    deposit_hash: &Vec<u8>,
    proof_bytes: &Vec<u8>,
    public_inputs_bytes: &Vec<u8>,
) -> (r: Result<Option<DepositCompleted>, CipherPayError>)
    requires
        old(root_cache).well_formed(),
    ensures
        spec_deposit_outcome(
            *old(tree),
            *old(deposit_marker),
            *verifier,
            instructions@,
            vault_token_account@,
            deposit_hash@,
            proof_bytes@,
            public_inputs_bytes@,
        ) matches Err(e) ==> {
            &&& r == Result::<Option<DepositCompleted>, CipherPayError>::Err(e)
            &&& *final(tree) == *old(tree)
            &&& *final(root_cache) == *old(root_cache)
            &&& *final(deposit_marker) == *old(deposit_marker)
        },
        spec_deposit_outcome(
            *old(tree),
            *old(deposit_marker),
            *verifier,
            instructions@,
            vault_token_account@,
            deposit_hash@,
            proof_bytes@,
            public_inputs_bytes@,
        ) == Result::<bool, CipherPayError>::Ok(false) ==> r == Result::<
            Option<DepositCompleted>,
            CipherPayError,
        >::Ok(None) && *final(tree) == *old(tree) && *final(root_cache) == *old(root_cache)
            && *final(deposit_marker) == *old(deposit_marker),
        spec_deposit_outcome(
            *old(tree),
            *old(deposit_marker),
            *verifier,
            instructions@,
            vault_token_account@,
            deposit_hash@,
            proof_bytes@,
            public_inputs_bytes@,
        ) == Result::<bool, CipherPayError>::Ok(true) ==> {
            &&& r matches Ok(Some(ev)) && {
                &&& ev.deposit_hash@ == deposit_hash@
                &&& ev.owner_cipherpay_pubkey@ == signal_at(public_inputs_bytes@, 1)
                &&& ev.commitment@ == signal_at(public_inputs_bytes@, 0)
                &&& ev.old_merkle_root == old(tree).current_root
                &&& ev.new_merkle_root == final(tree).current_root
                &&& ev.next_leaf_index == final(tree).next_index
                &&& ev.mint == *token_mint
            }
            &&& final(tree).current_root@ == signal_at(public_inputs_bytes@, 2)
            &&& final(tree).next_index == old(tree).next_index + 1
            &&& final(tree).version == old(tree).version
            &&& final(tree).depth == old(tree).depth
            &&& final(root_cache).well_formed()
            &&& final(root_cache).entries() == cache_dedup_insert(
                old(root_cache).entries(),
                bytes32_of(signal_at(public_inputs_bytes@, 2)),
            )
            &&& final(deposit_marker).processed
            &&& final(deposit_marker).bump == old(deposit_marker).bump
        },
{
    if deposit_hash.len() != 32 {
        return Err(CipherPayError::InvalidInput);
    }
    if deposit_marker.processed {
        return Ok(None);
    }
    if !verifier.accepts::<7>(proof_bytes.as_slice(), public_inputs_bytes.as_slice()) {
        return Err(CipherPayError::InvalidZkProof);
    }
    let sigs = match parse_public_signals_exact(public_inputs_bytes.as_slice()) {
        Ok(s) => s,
        Err(_) => {
            return Err(CipherPayError::InvalidZkProof);
        },
    };
    let new_commitment = sigs[0];
    let owner_cipherpay_pk = sigs[1];
    let new_root = sigs[2];
    let new_next_leaf_index = sigs[3];
    let amount_fe = sigs[4];
    let expected_deposit_hash = sigs[5];
    let old_root = sigs[6];
    if !bytes_eq(expected_deposit_hash.as_slice(), deposit_hash.as_slice()) {
        return Err(CipherPayError::InvalidZkProof);
    }
    // FE (LE) -> u64
    let amount_u64 = le_bytes_32_to_u64(&amount_fe);
    // Atomicity with the companion operations in the same unit
    match assert_memo_in_same_tx(instructions, &expected_deposit_hash) {
        Ok(()) => {},
        Err(e) => {
            proof {
                assert(expected_deposit_hash@ == deposit_hash@);
            }
            return Err(e);
        },
    }
    match assert_transfer_checked_in_same_tx(instructions, vault_token_account, amount_u64) {
        Ok(()) => {},
        Err(e) => {
            return Err(e);
        },
    }
    // Single-history checks
    if !bytes_eq(old_root.as_slice(), tree.current_root.as_slice()) {
        return Err(CipherPayError::OldRootMismatch);
    }
    let sig_next = u32_le(&new_next_leaf_index);
    if (sig_next as u64) != (tree.next_index as u64) + 1 {
        return Err(CipherPayError::InvalidInput);
    }
    // State updates
    tree.current_root = new_root;
    tree.next_index = sig_next;
    insert_merkle_root(&new_root, root_cache);
    deposit_marker.set_processed();
    proof {
        crate::bytes::lemma_bytes32_of(new_root);
    }
    let mut deposit_hash32: [u8; 32] = [0; 32];
    let mut i: usize = 0;
    while i < 32
        invariant
            i <= 32,
            deposit_hash@.len() == 32,
            forall|j: int| 0 <= j < i ==> deposit_hash32@[j] == deposit_hash@[j],
        decreases 32 - i,
    {
        deposit_hash32[i] = deposit_hash[i];
        i = i + 1;
    }
    proof {
        assert(deposit_hash32@ =~= deposit_hash@);
    }
    Ok(
        Some(
            DepositCompleted {
                deposit_hash: deposit_hash32,
                owner_cipherpay_pubkey: owner_cipherpay_pk,
                commitment: new_commitment,
                old_merkle_root: old_root,
                new_merkle_root: new_root,
                next_leaf_index: sig_next,
                mint: *token_mint,
            },
        ),
    )
}

} // verus!

verus! {

/// The exact outcome of a transfer attempt: the first failing check names
/// the error. A spent nullifier is a hard failure, never a no-op.
pub open spec fn spec_transfer_outcome(
    tree: TreeState,
    rec: NullifierRecord,
    v: ProofVerifier,
    nullifier: Seq<u8>,
    proof: Seq<u8>,
    publics: Seq<u8>,
) -> Result<(), CipherPayError> {
    if nullifier.len() != 32 {
        Err(CipherPayError::InvalidInput)
    } else if rec.processed {
        Err(CipherPayError::AlreadyProcessed)
    } else if !v.spec_accepts(TRANSFER_N_PUBLIC as int, proof, publics) {
        Err(CipherPayError::InvalidZkProof)
    } else if signal_at(publics, 2) != nullifier {
        Err(CipherPayError::InvalidZkProof)
    } else if signal_at(publics, 3) != tree.current_root@ {
        Err(CipherPayError::OldRootMismatch)
    } else if le_val(signal_at(publics, 6).take(4)) != tree.next_index + 2 {
        Err(CipherPayError::InvalidInput)
    } else {
        Ok(())
    }
}

/// Shielded transfer: spends one input note (consuming its nullifier) and
/// appends two output commitments. The proof must verify, its spent root
/// must equal the current tip (transfers may not reference a stale root),
/// and its cursor must jump by exactly two. On success the tree advances to
/// the second new root and both intermediate roots enter the cache, so a
/// withdraw referencing the first remains valid. Every error leaves all
/// state unchanged.
pub fn shielded_transfer(
    tree: &mut TreeState,
    root_cache: &mut MerkleRootCache,
    nullifier_record: &mut NullifierRecord,
    verifier: &ProofVerifier,
    nullifier: &Vec<u8>,
    proof_bytes: &Vec<u8>,
    public_inputs_bytes: &Vec<u8>,
) -> (r: Result<TransferCompleted, CipherPayError>)
    requires
        old(root_cache).well_formed(),
    ensures
        spec_transfer_outcome(
            *old(tree),
            *old(nullifier_record),
            *verifier,
            nullifier@,
            proof_bytes@,
            public_inputs_bytes@,
        ) matches Err(e) ==> {
            &&& r == Result::<TransferCompleted, CipherPayError>::Err(e)
            &&& *final(tree) == *old(tree)
            &&& *final(root_cache) == *old(root_cache)
            &&& *final(nullifier_record) == *old(nullifier_record)
        },
        spec_transfer_outcome(
            *old(tree),
            *old(nullifier_record),
            *verifier,
            nullifier@,
            proof_bytes@,
            public_inputs_bytes@,
        ) is Ok ==> {
            &&& r matches Ok(ev) && {
                &&& ev.nullifier@ == nullifier@
                &&& ev.out1_commitment@ == signal_at(public_inputs_bytes@, 0)
                &&& ev.out2_commitment@ == signal_at(public_inputs_bytes@, 1)
                &&& ev.enc_note1_hash@ == signal_at(public_inputs_bytes@, 7)
                &&& ev.enc_note2_hash@ == signal_at(public_inputs_bytes@, 8)
                &&& ev.merkle_root_before == old(tree).current_root
                &&& ev.new_merkle_root1@ == signal_at(public_inputs_bytes@, 4)
                &&& ev.new_merkle_root2@ == signal_at(public_inputs_bytes@, 5)
                &&& ev.next_leaf_index == final(tree).next_index
                &&& crate::bytes::all_zero(ev.mint@)
            }
            &&& final(tree).current_root@ == signal_at(public_inputs_bytes@, 5)
            &&& final(tree).next_index == old(tree).next_index + 2
            &&& final(tree).version == old(tree).version
            &&& final(tree).depth == old(tree).depth
            &&& final(root_cache).well_formed()
            &&& final(root_cache).entries() == cache_dedup_insert_all(
                old(root_cache).entries(),
                seq![
                    bytes32_of(signal_at(public_inputs_bytes@, 4)),
                    bytes32_of(signal_at(public_inputs_bytes@, 5)),
                ],
            )
            &&& *final(nullifier_record) == consumed(*old(nullifier_record))
        },
{
    // --- basic input checks ---
    if nullifier.len() != 32 {
        return Err(CipherPayError::InvalidInput);
    }
    // --- idempotency: nullifier record (checked first, consumed only on
    // success: an operation either fully commits or commits nothing) ---
    if nullifier_record.processed {
        return Err(CipherPayError::AlreadyProcessed);
    }
    // --- verify + parse public signals ---
    if !verifier.accepts::<9>(proof_bytes.as_slice(), public_inputs_bytes.as_slice()) {
        return Err(CipherPayError::InvalidZkProof);
    }
    let sigs = match parse_transfer_publics(public_inputs_bytes.as_slice()) {
        Ok(s) => s,
        Err(e) => {
            return Err(e);
        },
    };
    let out1_commitment = sigs[0];
    let out2_commitment = sigs[1];
    let nf = sigs[2];
    let old_root = sigs[3];
    let new_root1 = sigs[4];
    let new_root2 = sigs[5];
    let next_leaf_index = sigs[6];
    let enc_note1_hash = sigs[7];
    let enc_note2_hash = sigs[8];
    // ensure nullifier in proof == instruction arg
    if !bytes_eq(nf.as_slice(), nullifier.as_slice()) {
        return Err(CipherPayError::InvalidZkProof);
    }
    // --- strict sync with on-chain tree history ---
    if !bytes_eq(old_root.as_slice(), tree.current_root.as_slice()) {
        return Err(CipherPayError::OldRootMismatch);
    }
    // transfer inserts two leaves -> next_index must jump by 2
    let sig_next = u32_le(&next_leaf_index);
    if (sig_next as u64) != (tree.next_index as u64) + 2 {
        return Err(CipherPayError::InvalidInput);
    }
    // --- commit state: advance to the *final* new root ---
    tree.current_root = new_root2;
    tree.next_index = sig_next;
    // --- cache both intermediate roots ---
    let two: [[u8; 32]; 2] = [new_root1, new_root2];
    insert_many_roots(two.as_slice(), root_cache);
    let consume_result = nullifier_record.consume();
    proof {
        crate::bytes::lemma_bytes32_of(new_root1);
        crate::bytes::lemma_bytes32_of(new_root2);
        assert(two@ =~= seq![
            bytes32_of(signal_at(public_inputs_bytes@, 4)),
            bytes32_of(signal_at(public_inputs_bytes@, 5)),
        ]);
        assert(consume_result is Ok);
    }
    Ok(
        TransferCompleted {
            nullifier: nf,
            out1_commitment,
            out2_commitment,
            enc_note1_hash,
            enc_note2_hash,
            merkle_root_before: old_root,
            new_merkle_root1: new_root1,
            new_merkle_root2: new_root2,
            next_leaf_index: sig_next,
            mint: [0; 32],
        },
    )
}

/// The exact outcome of a withdraw attempt: the first failing check names
/// the error. A spent nullifier is a hard failure, never a no-op; the
/// referenced root may be the tip or any root still in the history cache.
pub open spec fn spec_withdraw_outcome(
    cache: MerkleRootCache,
    rec: NullifierRecord,
    accounts: WithdrawAccounts,
    v: ProofVerifier,
    nullifier: Seq<u8>,
    proof: Seq<u8>,
    publics: Seq<u8>,
) -> Result<(), CipherPayError> {
    if nullifier.len() != 32 {
        Err(CipherPayError::InvalidInput)
    } else if proof.len() != 256 {
        Err(CipherPayError::InvalidProofBytesLength)
    } else if publics.len() != 224 {
        Err(CipherPayError::InvalidPublicInputsLength)
    } else if nullifier != signal_at(publics, 0) {
        Err(CipherPayError::NullifierMismatch)
    } else if rec.processed {
        Err(CipherPayError::AlreadyProcessed)
    } else if !cache.entries().contains(bytes32_of(signal_at(publics, 1))) {
        Err(CipherPayError::UnknownMerkleRoot)
    } else if accounts.vault_token_mint@ != accounts.token_mint@ {
        Err(CipherPayError::VaultMismatch)
    } else if accounts.vault_token_owner@ != accounts.vault_pda@ {
        Err(CipherPayError::VaultAuthorityMismatch)
    } else if accounts.recipient_token_mint@ != accounts.token_mint@ {
        Err(CipherPayError::InvalidInput)
    } else if accounts.recipient_token_owner@ != accounts.recipient_owner@ {
        Err(CipherPayError::InvalidInput)
    } else if accounts.recipient_owner@ != spec_pubkey_from_limbs(
        signal_at(publics, 2),
        signal_at(publics, 3),
    ) {
        Err(CipherPayError::InvalidInput)
    } else if !v.spec_accepts(WITHDRAW_N_PUBLIC as int, proof, publics) {
        Err(CipherPayError::InvalidZkProof)
    } else {
        Ok(())
    }
}

/// Shielded withdraw: proves inclusion against a cached root, consumes the
/// nullifier, and reports the amount owed from the vault to the recipient.
/// The tree is never mutated; the cache is only read. The caller performs
/// the value movement the returned record describes after this call, inside
/// the same atomic unit, so a failed movement discards the consumption along
/// with everything else. Every error leaves the record unchanged.
pub fn shielded_withdraw(
    root_cache: &MerkleRootCache,
    nullifier_record: &mut NullifierRecord,
    accounts: &WithdrawAccounts,
    verifier: &ProofVerifier,
    nullifier: &Vec<u8>,
    proof_bytes: &Vec<u8>,
    public_inputs_bytes: &Vec<u8>,
) -> (r: Result<WithdrawCompleted, CipherPayError>)
    requires
        root_cache.well_formed(),
    ensures
        spec_withdraw_outcome(
            *root_cache,
            *old(nullifier_record),
            *accounts,
            *verifier,
            nullifier@,
            proof_bytes@,
            public_inputs_bytes@,
        ) matches Err(e) ==> {
            &&& r == Result::<WithdrawCompleted, CipherPayError>::Err(e)
            &&& *final(nullifier_record) == *old(nullifier_record)
        },
        spec_withdraw_outcome(
            *root_cache,
            *old(nullifier_record),
            *accounts,
            *verifier,
            nullifier@,
            proof_bytes@,
            public_inputs_bytes@,
        ) is Ok ==> {
            &&& r matches Ok(ev) && {
                &&& ev.nullifier@ == nullifier@
                &&& ev.recipient == accounts.recipient_owner
                &&& ev.amount == le_val(signal_at(public_inputs_bytes@, 5).take(8))
                &&& ev.mint == accounts.token_mint
            }
            &&& *final(nullifier_record) == consumed(*old(nullifier_record))
        },
{
    // -------------------- 0) Byte-size sanity (cheap, first) ----------------
    if nullifier.len() != 32 {
        return Err(CipherPayError::InvalidInput);
    }
    if proof_bytes.len() != 256 {
        return Err(CipherPayError::InvalidProofBytesLength);
    }
    // Withdraw publics = 7 * 32 bytes:
    // [0] nullifier, [1] root, [2] recip_owner_lo, [3] recip_owner_hi,
    // [4] recip_wallet_pk, [5] amount, [6] token_id
    if public_inputs_bytes.len() != 7 * 32 {
        return Err(CipherPayError::InvalidPublicInputsLength);
    }
    let publics = public_inputs_bytes.as_slice();
    let nf32 = read32(publics, 0);
    let root32 = read32(publics, 32);
    let rec_owner_lo32 = read32(publics, 64);
    let rec_owner_hi32 = read32(publics, 96);
    let _recipient_pk32 = read32(publics, 128);
    let amount_fe32 = read32(publics, 160);
    let _token_id32 = read32(publics, 192);
    // Caller-provided nullifier must equal the public-input nullifier
    if !bytes_eq(nullifier.as_slice(), nf32.as_slice()) {
        return Err(CipherPayError::NullifierMismatch);
    }
    // u64 amount from the first 8 bytes (little-endian) of the field element
    let amount_u64 = le_bytes_32_to_u64(&amount_fe32);
    // -------------------- 1) Cheap state checks (before verifier) -----------
    if nullifier_record.processed {
        return Err(CipherPayError::AlreadyProcessed);
    }
    proof {
        crate::bytes::lemma_bytes32_of(root32);
    }
    if !is_valid_root(&root32, root_cache) {
        return Err(CipherPayError::UnknownMerkleRoot);
    }
    // Vault token account must be (mint = token_mint, owner = vault_pda)
    if !bytes_eq(accounts.vault_token_mint.as_slice(), accounts.token_mint.as_slice()) {
        return Err(CipherPayError::VaultMismatch);
    }
    if !bytes_eq(accounts.vault_token_owner.as_slice(), accounts.vault_pda.as_slice()) {
        return Err(CipherPayError::VaultAuthorityMismatch);
    }
    // Recipient token account must be (mint = token_mint, owner = recipient)
    if !bytes_eq(accounts.recipient_token_mint.as_slice(), accounts.token_mint.as_slice()) {
        return Err(CipherPayError::InvalidInput);
    }
    if !bytes_eq(accounts.recipient_token_owner.as_slice(), accounts.recipient_owner.as_slice()) {
        return Err(CipherPayError::InvalidInput);
    }
    // Rebuild the owner key from the proof's limbs and bind it to the account
    let expected_owner = pubkey_from_limbs(&rec_owner_lo32, &rec_owner_hi32);
    if !bytes_eq(accounts.recipient_owner.as_slice(), expected_owner.as_slice()) {
        return Err(CipherPayError::InvalidInput);
    }
    // -------------------- 2) Proof verification (after cheap guards) --------
    if !verifier.accepts::<7>(proof_bytes.as_slice(), public_inputs_bytes.as_slice()) {
        return Err(CipherPayError::InvalidZkProof);
    }
    // -------------------- 3) Mark the nullifier as consumed -----------------
    let consume_result = nullifier_record.consume();
    proof {
        assert(consume_result is Ok);
    }
    // -------------------- 4) The outcome the caller pays out ----------------
    Ok(
        WithdrawCompleted {
            nullifier: nf32,
            recipient: accounts.recipient_owner,
            amount: amount_u64,
            mint: accounts.token_mint,
        },
    )
}

} // verus!
