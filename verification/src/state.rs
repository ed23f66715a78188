//! Persisted state records: the deposit marker, the nullifier record, the
//! commitment-tree cursor, and the fixed-capacity ring buffer of recent
//! Merkle roots.

use vstd::prelude::*;

use crate::constants::MAX_ROOTS;
use crate::error::CipherPayError;

verus! {

/// Marker record keyed by `deposit_hash` that makes a shielded deposit
/// idempotent.
pub struct DepositMarker {
    /// Has this deposit hash already been consumed (commitment inserted)?
    pub processed: bool,
    /// Record bump seed, managed by the surrounding ledger.
    pub bump: u8,
}

/// Raw field size of a `DepositMarker` record (excluding the 8-byte record
/// discriminator of the surrounding ledger).
pub const DEPOSIT_MARKER_SIZE: usize = 2;

/// Full `DepositMarker` record space, discriminator included.
pub const DEPOSIT_MARKER_SPACE: usize = 10;

impl DepositMarker {
    /// Mark as processed (idempotent setter).
    pub fn set_processed(&mut self)
        ensures
            final(self).processed,
            final(self).bump == old(self).bump,
    {
        self.processed = true;
    }
}

/// One record per spent note, keyed by the nullifier tag; enforces at-most-once
/// consumption.
pub struct NullifierRecord {
    pub processed: bool,
    /// Record bump seed, managed by the surrounding ledger.
    pub bump: u8,
}

/// Raw field size of a `NullifierRecord` record.
pub const NULLIFIER_RECORD_SIZE: usize = 2;

/// Full `NullifierRecord` record space, discriminator included.
pub const NULLIFIER_RECORD_SPACE: usize = 10;

/// Whether a `consume` of this record succeeds.
pub open spec fn consume_succeeds(r: NullifierRecord) -> bool {
    !r.processed
}

/// The record after a `consume` attempt, successful or not.
pub open spec fn consumed(r: NullifierRecord) -> NullifierRecord {
    NullifierRecord { processed: true, bump: r.bump }
}

impl NullifierRecord {
    /// Consume the nullifier this record stands for. The first call for a
    /// given tag succeeds and permanently marks the record; any later call
    /// fails and changes nothing.
    pub fn consume(&mut self) -> (r: Result<(), CipherPayError>)
        ensures
            r is Ok <==> consume_succeeds(*old(self)),
            !consume_succeeds(*old(self)) ==> r == Result::<(), CipherPayError>::Err(
                CipherPayError::AlreadyProcessed,
            ),
            *final(self) == consumed(*old(self)),
    {
        if self.processed {
            return Err(CipherPayError::AlreadyProcessed);
        }
        self.processed = true;
        Ok(())
    }
}

/// Law: nullifier consumption is hostile to repetition. Whatever record a
/// first `consume` attempt leaves behind, a second attempt on it must fail.
pub proof fn lemma_consume_twice_fails(r: NullifierRecord)
    ensures
        !consume_succeeds(consumed(r)),
{
}

/// The commitment-tree state: current root and next-leaf-index cursor.
pub struct TreeState {
    pub version: u16,
    pub current_root: [u8; 32],
    pub next_index: u32,
    pub depth: u8,
}

/// Serialized size of a `TreeState` record (version, root, cursor, depth, and
/// 31 reserved bytes).
pub const TREE_STATE_INIT_SPACE: usize = 70;

/// Fixed-capacity ring buffer of recent Merkle roots.
///
/// Invariant of the layout: `roots` always holds `MAX_ROOTS` slots; `count`
/// of them are valid; `next_slot` is the next write position. While the
/// buffer is not yet full the valid entries sit at `0 .. count`; once full,
/// the oldest entry sits at `next_slot`.
pub struct MerkleRootCache {
    /// Ring buffer of recent roots.
    pub roots: Vec<[u8; 32]>,
    /// Next write position in the ring (`0 .. MAX_ROOTS-1`).
    pub next_slot: u16,
    /// Number of valid entries (`<= MAX_ROOTS`).
    pub count: u16,
}

/// Byte size of the cache record, excluding the discriminator.
pub const MERKLE_ROOT_CACHE_BYTE_SIZE: usize = 4100;

/// Insertion into the logical contents of a ring buffer of capacity
/// `MAX_ROOTS`: appends, evicting the oldest entry once full.
pub open spec fn cache_insert(s: Seq<[u8; 32]>, r: [u8; 32]) -> Seq<[u8; 32]> {
    if s.len() < MAX_ROOTS {
        s.push(r)
    } else {
        s.skip(1).push(r)
    }
}

/// Deduplicating insertion: a root already present is left where it is.
pub open spec fn cache_dedup_insert(s: Seq<[u8; 32]>, r: [u8; 32]) -> Seq<[u8; 32]> {
    if s.contains(r) {
        s
    } else {
        cache_insert(s, r)
    }
}

/// Deduplicating insertion of a whole sequence of roots, first to last.
pub open spec fn cache_dedup_insert_all(s: Seq<[u8; 32]>, roots: Seq<[u8; 32]>) -> Seq<[u8; 32]>
    decreases roots.len(),
{
    if roots.len() == 0 {
        s
    } else {
        cache_dedup_insert_all(cache_dedup_insert(s, roots[0]), roots.drop_first())
    }
}

impl MerkleRootCache {
    /// Structural invariant of the ring buffer.
    pub open spec fn well_formed(&self) -> bool {
        &&& self.roots@.len() == MAX_ROOTS
        &&& (self.next_slot as int) < MAX_ROOTS as int
        &&& (self.count as int) <= MAX_ROOTS as int
        &&& ((self.count as int) < MAX_ROOTS as int ==> self.next_slot == self.count)
    }

    /// Logical contents of the cache, oldest first.
    pub open spec fn entries(&self) -> Seq<[u8; 32]> {
        if (self.count as int) < MAX_ROOTS as int {
            self.roots@.subrange(0, self.count as int)
        } else {
            self.roots@.subrange(self.next_slot as int, MAX_ROOTS as int) + self.roots@.subrange(
                0,
                self.next_slot as int,
            )
        }
    }

    /// A fresh, empty cache: all slots zeroed, both counters at zero.
    pub fn new() -> (c: Self)
        ensures
            c.well_formed(),
            c.entries() == Seq::<[u8; 32]>::empty(),
            c.count == 0,
    {
        let mut roots: Vec<[u8; 32]> = Vec::new();
        let mut i: usize = 0;
        while i < MAX_ROOTS
            invariant
                i <= MAX_ROOTS,
                roots@.len() == i,
            decreases MAX_ROOTS - i,
        {
            roots.push([0; 32]);
            i = i + 1;
        }
        let c = MerkleRootCache { roots, next_slot: 0, count: 0 };
        proof {
            assert(c.entries() =~= Seq::<[u8; 32]>::empty());
        }
        c
    }

    /// Reset to the empty state: counters zeroed and every slot zeroed.
    pub fn clear(&mut self)
        ensures
            final(self).well_formed(),
            final(self).entries() == Seq::<[u8; 32]>::empty(),
            final(self).count == 0,
            final(self).next_slot == 0,
    {
        let fresh = MerkleRootCache::new();
        self.roots = fresh.roots;
        self.next_slot = 0;
        self.count = 0;
    }

    /// Insert a new root (ring-buffer). Overwrites the oldest when full.
    pub fn insert(&mut self, new_root: [u8; 32])
        requires
            old(self).well_formed(),
        ensures
            final(self).well_formed(),
            final(self).entries() == cache_insert(old(self).entries(), new_root),
            final(self).count == if (old(self).count as int) < MAX_ROOTS as int {
                old(self).count + 1
            } else {
                old(self).count as int
            },
    {
        let idx = (self.next_slot as usize) % MAX_ROOTS;
        self.roots[idx] = new_root;
        self.next_slot = ((self.next_slot as usize + 1) % MAX_ROOTS) as u16;
        if (self.count as usize) < MAX_ROOTS {
            self.count = self.count + 1;
        }
        proof {
            let pre = *old(self);
            let post = *self;
            if (pre.count as int) < MAX_ROOTS as int {
                assert(post.entries() =~= cache_insert(pre.entries(), new_root));
            } else {
                let s = pre.next_slot as int;
                if s + 1 < MAX_ROOTS as int {
                    assert(post.entries() =~= pre.entries().skip(1).push(new_root));
                } else {
                    assert(post.entries() =~= pre.entries().skip(1).push(new_root));
                }
            }
        }
    }

    /// Check whether a root is held in the cache.
    pub fn contains(&self, root: &[u8; 32]) -> (r: bool)
        requires
            self.well_formed(),
        ensures
            r == self.entries().contains(*root),
    {
        let total = self.count as usize;
        if total == 0 {
            return false;
        }
        // If not yet full, the logical order starts at slot 0; once full, the
        // oldest entry sits at `next_slot`.
        let start: usize = if total < MAX_ROOTS {
            0
        } else {
            self.next_slot as usize
        };
        let mut i: usize = 0;
        while i < total
            invariant
                self.well_formed(),
                i <= total,
                total == self.count as int,
                start == if (self.count as int) < MAX_ROOTS as int {
                    0int
                } else {
                    self.next_slot as int
                },
                forall|j: int| 0 <= j < i ==> self.entries()[j] != *root,
            decreases total - i,
        {
            let idx = (start + i) % MAX_ROOTS;
            proof {
                self.lemma_entries_index(i as int);
            }
            if crate::bytes::bytes32_eq(&self.roots[idx], root) {
                assert(self.entries()[i as int] == *root);
                return true;
            }
            i = i + 1;
        }
        proof {
            if self.entries().contains(*root) {
                let w = choose|j: int| 0 <= j < self.entries().len() && self.entries()[j] == *root;
                assert(self.entries()[w] != *root);
            }
        }
        false
    }

    /// Relates a logical position to its physical slot.
    proof fn lemma_entries_index(&self, j: int)
        requires
            self.well_formed(),
            0 <= j < self.entries().len(),
        ensures
            self.entries().len() == self.count as int,
            self.entries()[j] == self.roots@[(
                (if (self.count as int) < MAX_ROOTS as int {
                    0int
                } else {
                    self.next_slot as int
                }) + j) % (MAX_ROOTS as int)],
    {
        if (self.count as int) < MAX_ROOTS as int {
            assert(j % (MAX_ROOTS as int) == j);
        } else {
            let s = self.next_slot as int;
            if s + j < MAX_ROOTS as int {
                assert((s + j) % (MAX_ROOTS as int) == s + j);
            } else {
                assert((s + j) % (MAX_ROOTS as int) == s + j - MAX_ROOTS as int);
            }
        }
    }

    /// Latest (most recently inserted) root, if any.
    pub fn latest(&self) -> (r: Option<[u8; 32]>)
        requires
            self.well_formed(),
        ensures
            r == if self.count == 0 {
                Option::<[u8; 32]>::None
            } else {
                Option::Some(self.entries().last())
            },
    {
        if self.count == 0 {
            None
        } else {
            let idx = (self.next_slot as usize + MAX_ROOTS - 1) % MAX_ROOTS;
            proof {
                self.lemma_entries_index(self.count as int - 1);
                if (self.count as int) < MAX_ROOTS as int {
                    assert((self.count as int - 1) % (MAX_ROOTS as int) == self.next_slot as int
                        + MAX_ROOTS as int - 1 - MAX_ROOTS as int);
                }
            }
            Some(self.roots[idx])
        }
    }
}

/// Law: filling an empty capacity-`MAX_ROOTS` cache with `MAX_ROOTS + 1`
/// pairwise-distinct roots leaves exactly `MAX_ROOTS` entries: the first
/// (oldest) root has been evicted and every later one is present.
pub proof fn lemma_cache_eviction(roots: Seq<[u8; 32]>)
    requires
        roots.len() == MAX_ROOTS + 1,
        forall|i: int, j: int| 0 <= i < j < roots.len() ==> roots[i] != roots[j],
    ensures
        cache_dedup_insert_all(Seq::empty(), roots) =~= roots.skip(1),
        cache_dedup_insert_all(Seq::empty(), roots).len() == MAX_ROOTS,
        !cache_dedup_insert_all(Seq::empty(), roots).contains(roots[0]),
        forall|i: int|
            1 <= i < roots.len() ==> cache_dedup_insert_all(Seq::empty(), roots).contains(roots[i]),
{
    lemma_cache_fill_prefix(roots, roots.len() as int - 1);
    let full = cache_dedup_insert_all(Seq::empty(), roots.take(roots.len() - 1));
    assert(full =~= roots.take(roots.len() - 1));
    lemma_dedup_insert_all_step(roots, roots.len() as int - 1);
    assert(roots.take(roots.len() as int) =~= roots);
    assert(cache_dedup_insert_all(Seq::empty(), roots) == cache_dedup_insert(
        full,
        roots[roots.len() - 1],
    ));
    if full.contains(roots[roots.len() - 1]) {
        let w = choose|j: int| 0 <= j < full.len() && full[j] == roots[roots.len() - 1];
        assert(roots[w] == roots[roots.len() - 1]);
        assert(false);
    }
    let result = cache_insert(full, roots[roots.len() - 1]);
    assert(result =~= roots.skip(1));
    if result.contains(roots[0]) {
        let w = choose|j: int| 0 <= j < result.len() && result[j] == roots[0];
        assert(roots[w + 1] == roots[0]);
        assert(false);
    }
    assert forall|i: int| 1 <= i < roots.len() implies cache_dedup_insert_all(
        Seq::empty(),
        roots,
    ).contains(roots[i]) by {
        assert(result[i - 1] == roots[i]);
    }
}

/// Inserting the first `n` of pairwise-distinct roots (with `n` at most the
/// capacity) into an empty cache holds exactly those roots, in order.
proof fn lemma_cache_fill_prefix(roots: Seq<[u8; 32]>, n: int)
    requires
        0 <= n <= MAX_ROOTS,
        n <= roots.len(),
        forall|i: int, j: int| 0 <= i < j < roots.len() ==> roots[i] != roots[j],
    ensures
        cache_dedup_insert_all(Seq::empty(), roots.take(n)) =~= roots.take(n),
    decreases n,
{
    if n > 0 {
        lemma_cache_fill_prefix(roots, n - 1);
        let prev = cache_dedup_insert_all(Seq::empty(), roots.take(n - 1));
        assert(prev =~= roots.take(n - 1));
        lemma_dedup_insert_all_step(roots.take(n), n - 1);
        assert(roots.take(n).take(n) =~= roots.take(n));
        assert(roots.take(n).take(n - 1) =~= roots.take(n - 1));
        if prev.contains(roots[n - 1]) {
            let w = choose|j: int| 0 <= j < prev.len() && prev[j] == roots[n - 1];
            assert(roots[w] == roots[n - 1]);
            assert(false);
        }
        assert(cache_insert(prev, roots[n - 1]) =~= roots.take(n));
    } else {
        assert(roots.take(0) =~= Seq::<[u8; 32]>::empty());
    }
}

/// Unrolls the last step of `cache_dedup_insert_all` over a prefix.
proof fn lemma_dedup_insert_all_step(roots: Seq<[u8; 32]>, n: int)
    requires
        0 <= n < roots.len(),
    ensures
        cache_dedup_insert_all(Seq::empty(), roots.take(n + 1)) == cache_dedup_insert(
            cache_dedup_insert_all(Seq::empty(), roots.take(n)),
            roots[n],
        ),
{
    lemma_dedup_insert_all_snoc(Seq::empty(), roots.take(n + 1));
    assert(roots.take(n + 1).drop_last() =~= roots.take(n));
    assert(roots.take(n + 1).last() == roots[n]);
}

/// `cache_dedup_insert_all` peels its last element.
pub proof fn lemma_dedup_insert_all_snoc(s: Seq<[u8; 32]>, roots: Seq<[u8; 32]>)
    requires
        roots.len() > 0,
    ensures
        cache_dedup_insert_all(s, roots) == cache_dedup_insert(
            cache_dedup_insert_all(s, roots.drop_last()),
            roots.last(),
        ),
    decreases roots.len(),
{
    reveal_with_fuel(cache_dedup_insert_all, 3);
    if roots.len() == 1 {
        assert(roots.drop_last() =~= Seq::<[u8; 32]>::empty());
        assert(roots.drop_first() =~= Seq::<[u8; 32]>::empty());
    } else {
        let tail = roots.drop_first();
        lemma_dedup_insert_all_snoc(cache_dedup_insert(s, roots[0]), tail);
        assert(cache_dedup_insert_all(s, roots) == cache_dedup_insert_all(
            cache_dedup_insert(s, roots[0]),
            tail,
        ));
        assert(tail.drop_last() =~= roots.drop_last().drop_first());
        assert(tail.last() == roots.last());
        assert(roots.drop_last()[0] == roots[0]);
        assert(cache_dedup_insert_all(s, roots.drop_last()) == cache_dedup_insert_all(
            cache_dedup_insert(s, roots.drop_last()[0]),
            roots.drop_last().drop_first(),
        ));
    }
}

} // verus!
