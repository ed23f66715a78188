//! Byte-level primitives shared across the crate: little-endian integer reads
//! and comparisons of byte strings, with their mathematical models.

use vstd::prelude::*;

verus! {

/// Value of a byte string read as a little-endian integer (first byte least
/// significant).
pub open spec fn le_val(s: Seq<u8>) -> nat
    decreases s.len(),
{
    if s.len() == 0 {
        0
    } else {
        (s[0] + 256 * le_val(s.drop_first())) as nat
    }
}

/// `le_val` of an `n`-byte string is below `256^n`.
pub proof fn lemma_le_val_bound(s: Seq<u8>)
    ensures
        le_val(s) < pow256(s.len() as nat),
    decreases s.len(),
{
    if s.len() > 0 {
        lemma_le_val_bound(s.drop_first());
    }
}

pub open spec fn pow256(n: nat) -> nat
    decreases n,
{
    if n == 0 {
        1
    } else {
        256 * pow256((n - 1) as nat)
    }
}

/// Reads a `u64` from the first 8 bytes of `s`, little-endian.
pub fn u64_from_le8(s: &[u8]) -> (v: u64)
    requires
        s@.len() >= 8,
    ensures
        v == le_val(s@.take(8)),
{
    let mut v: u64 = 0;
    let mut i: usize = 8;
    while i > 0
        invariant
            i <= 8,
            s@.len() >= 8,
            v == le_val(s@.subrange(i as int, 8)),
            v < pow256((8 - i) as nat),
        decreases i,
    {
        proof {
            assert(s@.subrange(i - 1, 8).drop_first() =~= s@.subrange(i as int, 8));
            lemma_pow256_monotonic((8 - i) as nat, 7);
            reveal_with_fuel(pow256, 9);
            assert(pow256(8) == 0x1_0000_0000_0000_0000);
        }
        i = i - 1;
        v = (s[i] as u64) + 256 * v;
    }
    proof {
        assert(s@.subrange(0, 8) =~= s@.take(8));
    }
    v
}

/// Reads a `u32` from the first 4 bytes of `s`, little-endian.
pub fn u32_from_le4(s: &[u8]) -> (v: u32)
    requires
        s@.len() >= 4,
    ensures
        v == le_val(s@.take(4)),
{
    let mut v: u32 = 0;
    let mut i: usize = 4;
    while i > 0
        invariant
            i <= 4,
            s@.len() >= 4,
            v == le_val(s@.subrange(i as int, 4)),
            v < pow256((4 - i) as nat),
        decreases i,
    {
        proof {
            assert(s@.subrange(i - 1, 4).drop_first() =~= s@.subrange(i as int, 4));
            lemma_pow256_monotonic((4 - i) as nat, 3);
            reveal_with_fuel(pow256, 5);
            assert(pow256(4) == 0x1_0000_0000);
        }
        i = i - 1;
        v = (s[i] as u32) + 256 * v;
    }
    proof {
        assert(s@.subrange(0, 4) =~= s@.take(4));
    }
    v
}

proof fn lemma_pow256_monotonic(m: nat, n: nat)
    requires
        m <= n,
    ensures
        pow256(m) <= pow256(n),
    decreases n,
{
    if m < n {
        lemma_pow256_monotonic(m, (n - 1) as nat);
    }
}

/// True when two byte slices hold the same bytes.
pub fn bytes_eq(a: &[u8], b: &[u8]) -> (r: bool)
    ensures
        r <==> a@ == b@,
{
    if a.len() != b.len() {
        proof {
            assert(a@.len() != b@.len());
        }
        return false;
    }
    let n = a.len();
    let mut i: usize = 0;
    while i < n
        invariant
            i <= n,
            n == a@.len(),
            n == b@.len(),
            forall|j: int| 0 <= j < i ==> a@[j] == b@[j],
        decreases n - i,
    {
        if a[i] != b[i] {
            return false;
        }
        i = i + 1;
    }
    proof {
        assert(a@ =~= b@);
    }
    true
}

/// True when the 32-byte strings are equal.
pub fn bytes32_eq(a: &[u8; 32], b: &[u8; 32]) -> (r: bool)
    ensures
        r <==> a@ == b@,
        r <==> *a == *b,
{
    let r = bytes_eq(a.as_slice(), b.as_slice());
    proof {
        if a@ == b@ {
            assert(*a =~= *b);
        }
        if *a == *b {
            assert(a@ == b@);
        }
    }
    r
}

/// Lexicographic strict order on byte strings of equal length.
pub open spec fn lex_lt(a: Seq<u8>, b: Seq<u8>) -> bool
    decreases a.len(),
{
    if a.len() == 0 || b.len() == 0 {
        false
    } else if a[0] != b[0] {
        a[0] < b[0]
    } else {
        lex_lt(a.drop_first(), b.drop_first())
    }
}

/// True when `a` sorts strictly before `b` in byte-lexicographic order, as the
/// derived `Ord` on `[u8; 32]` orders them.
pub fn bytes32_lt(a: &[u8; 32], b: &[u8; 32]) -> (r: bool)
    ensures
        r <==> lex_lt(a@, b@),
{
    proof {
        assert(a@.skip(0) =~= a@);
        assert(b@.skip(0) =~= b@);
    }
    let mut i: usize = 0;
    while i < 32
        invariant
            i <= 32,
            forall|j: int| 0 <= j < i ==> a@[j] == b@[j],
            lex_lt(a@, b@) <==> lex_lt(a@.skip(i as int), b@.skip(i as int)),
        decreases 32 - i,
    {
        proof {
            assert(a@.skip(i as int).drop_first() =~= a@.skip(i + 1));
            assert(b@.skip(i as int).drop_first() =~= b@.skip(i + 1));
        }
        if a[i] < b[i] {
            return true;
        }
        if a[i] > b[i] {
            return false;
        }
        i = i + 1;
    }
    false
}

/// True when every byte of `s` is zero.
pub open spec fn all_zero(s: Seq<u8>) -> bool {
    forall|i: int| 0 <= i < s.len() ==> s[i] == 0
}

/// True when `s` holds no byte other than `s[0]` (vacuously true when empty).
pub open spec fn all_same(s: Seq<u8>) -> bool {
    forall|i: int| 0 <= i < s.len() ==> #[trigger] s[i] == s[0]
}

/// True when every byte of the slice is zero.
pub fn is_all_zero(s: &[u8]) -> (r: bool)
    ensures
        r <==> all_zero(s@),
{
    let n = s.len();
    let mut i: usize = 0;
    while i < n
        invariant
            i <= n,
            n == s@.len(),
            forall|j: int| 0 <= j < i ==> s@[j] == 0,
        decreases n - i,
    {
        if s[i] != 0 {
            return false;
        }
        i = i + 1;
    }
    true
}

/// True when every byte of the slice equals the given value.
pub fn is_all_byte(s: &[u8], v: u8) -> (r: bool)
    ensures
        r <==> (forall|i: int| 0 <= i < s@.len() ==> s@[i] == v),
{
    let n = s.len();
    let mut i: usize = 0;
    while i < n
        invariant
            i <= n,
            n == s@.len(),
            forall|j: int| 0 <= j < i ==> s@[j] == v,
        decreases n - i,
    {
        if s[i] != v {
            return false;
        }
        i = i + 1;
    }
    true
}

/// Copies 32 bytes starting at `off` into a fresh array.
pub fn read32(s: &[u8], off: usize) -> (r: [u8; 32])
    requires
        off + 32 <= s@.len(),
    ensures
        r@ == s@.subrange(off as int, off + 32),
{
    let n = s.len();
    let mut r: [u8; 32] = [0; 32];
    let mut i: usize = 0;
    while i < 32
        invariant
            i <= 32,
            n == s@.len(),
            off + 32 <= n,
            forall|j: int| 0 <= j < i ==> r@[j] == s@[off + j],
        decreases 32 - i,
    {
        r[i] = s[off + i];
        i = i + 1;
    }
    proof {
        assert(r@ =~= s@.subrange(off as int, off + 32));
    }
    r
}

} // verus!

verus! {

/// The 32-byte array whose view is the given (length-32) byte string.
pub open spec fn bytes32_of(s: Seq<u8>) -> [u8; 32] {
    choose|a: [u8; 32]| a@ == s
}

/// Every 32-byte array is the witness for its own view.
pub proof fn lemma_bytes32_of(a: [u8; 32])
    ensures
        bytes32_of(a@) == a,
{
    assert(a@ == a@);
    let b = bytes32_of(a@);
    assert(b@ == a@);
    assert(b =~= a);
}

} // verus!

verus! {

/// Value of a byte string read as a big-endian integer (first byte most
/// significant).
pub open spec fn be_val(s: Seq<u8>) -> nat
    decreases s.len(),
{
    if s.len() == 0 {
        0
    } else {
        (256 * be_val(s.drop_last()) + s.last()) as nat
    }
}

/// `be_val` of an `n`-byte string is below `256^n`.
pub proof fn lemma_be_val_bound(s: Seq<u8>)
    ensures
        be_val(s) < pow256(s.len() as nat),
    decreases s.len(),
{
    if s.len() > 0 {
        lemma_be_val_bound(s.drop_last());
    }
}

/// A string of zero bytes has value zero.
pub proof fn lemma_be_val_all_zero(s: Seq<u8>)
    requires
        all_zero(s),
    ensures
        be_val(s) == 0,
    decreases s.len(),
{
    if s.len() > 0 {
        lemma_be_val_all_zero(s.drop_last());
    }
}

/// `be_val` peels its first byte: the head carries `256^(len-1)`.
pub proof fn lemma_be_val_head(s: Seq<u8>)
    requires
        s.len() > 0,
    ensures
        be_val(s) == s[0] * pow256((s.len() - 1) as nat) + be_val(s.drop_first()),
    decreases s.len(),
{
    if s.len() == 1 {
        assert(s.drop_last() =~= Seq::<u8>::empty());
        assert(s.drop_first() =~= Seq::<u8>::empty());
        assert(be_val(Seq::<u8>::empty()) == 0);
        assert(be_val(s) == s[0]);
        assert(pow256(0) == 1);
    } else {
        let dl = s.drop_last();
        lemma_be_val_head(dl);
        assert(dl[0] == s[0]);
        assert(dl.drop_first() =~= s.drop_first().drop_last());
        assert(s.drop_first().last() == s.last());
        assert(s.drop_first().len() > 0);
        let k2 = pow256((s.len() - 2) as nat);
        let tail_val = be_val(dl.drop_first());
        assert(pow256((s.len() - 1) as nat) == 256 * k2);
        assert(be_val(s) == 256 * be_val(dl) + s.last());
        assert(be_val(dl) == s[0] * k2 + tail_val);
        assert(256 * (s[0] * k2 + tail_val) == s[0] * (256 * k2) + 256 * tail_val)
            by (nonlinear_arith);
        assert(be_val(s.drop_first()) == 256 * be_val(s.drop_first().drop_last())
            + s.drop_first().last());
        assert(be_val(s.drop_first()) == 256 * tail_val + s.last());
        assert(be_val(s) == s[0] * (256 * k2) + 256 * tail_val + s.last());
    }
}

} // verus!
