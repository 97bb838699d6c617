//! Bit-level facts about 64-bit words, used to reason about bitboards.

use vstd::prelude::*;

verus! {

/// Whether bit `i` of `x` is set (false for `i` outside 0..64).
pub open spec fn bit(x: u64, i: int) -> bool {
    0 <= i < 64 && ((x >> (i as u64)) & 1u64) == 1u64
}

/// The number of set bits of `x`.
pub open spec fn popcount(x: u64) -> nat
    decreases x,
{
    if x == 0 {
        0
    } else {
        (x % 2) as nat + popcount(x / 2)
    }
}

/// A word with only bit `k` set.
pub open spec fn single(k: int) -> u64 {
    (1u64 << (k as u64))
}

/// Per-bit behaviour of the word operations at one position.
proof fn bv_word_facts(x: u64, y: u64, j: u64)
    by (bit_vector)
    requires
        j < 64,
    ensures
        ((x >> j) & 1u64) == 1u64 || ((x >> j) & 1u64) == 0u64,
        (((x & y) >> j) & 1u64 == 1u64) <==> (((x >> j) & 1u64 == 1u64) && ((y >> j) & 1u64 == 1u64)),
        (((x | y) >> j) & 1u64 == 1u64) <==> (((x >> j) & 1u64 == 1u64) || ((y >> j) & 1u64 == 1u64)),
        (((x ^ y) >> j) & 1u64 == 1u64) <==> (((x >> j) & 1u64 == 1u64) != ((y >> j) & 1u64 == 1u64)),
        (((!x) >> j) & 1u64 == 1u64) <==> !((x >> j) & 1u64 == 1u64),
        ((x & (1u64 << j)) != 0) <==> ((x >> j) & 1u64 == 1u64),
        (0u64 >> j) & 1u64 == 0u64,
        (0xffff_ffff_ffff_ffffu64 >> j) & 1u64 == 1u64,
{
}

/// Per-bit behaviour of a single-bit word.
proof fn bv_single_facts(k: u64, j: u64)
    by (bit_vector)
    requires
        k < 64,
        j < 64,
    ensures
        (((1u64 << k) >> j) & 1u64 == 1u64) <==> j == k,
{
}

pub proof fn lemma_bit_and(x: u64, y: u64, i: int)
    ensures
        bit(x & y, i) == (bit(x, i) && bit(y, i)),
{
    if 0 <= i < 64 {
        bv_word_facts(x, y, i as u64);
    }
}

pub proof fn lemma_bit_or(x: u64, y: u64, i: int)
    ensures
        bit(x | y, i) == (bit(x, i) || bit(y, i)),
{
    if 0 <= i < 64 {
        bv_word_facts(x, y, i as u64);
    }
}

pub proof fn lemma_bit_xor(x: u64, y: u64, i: int)
    ensures
        bit(x ^ y, i) == (bit(x, i) != bit(y, i)),
{
    if 0 <= i < 64 {
        bv_word_facts(x, y, i as u64);
    }
}

pub proof fn lemma_bit_not(x: u64, i: int)
    ensures
        bit(!x, i) == (0 <= i < 64 && !bit(x, i)),
{
    if 0 <= i < 64 {
        bv_word_facts(x, x, i as u64);
    }
}

pub proof fn lemma_bit_single(k: int, i: int)
    requires
        0 <= k < 64,
    ensures
        bit(single(k), i) == (i == k),
{
    if 0 <= i < 64 {
        bv_single_facts(k as u64, i as u64);
    }
}

pub proof fn lemma_bit_zero(i: int)
    ensures
        !bit(0u64, i),
{
    if 0 <= i < 64 {
        bv_word_facts(0u64, 0u64, i as u64);
    }
}

/// Testing a word against a single-bit mask reads that bit.
pub proof fn lemma_mask_test(x: u64, k: int)
    requires
        0 <= k < 64,
    ensures
        ((x & single(k)) != 0) == bit(x, k),
{
    bv_word_facts(x, x, k as u64);
}

/// Two words with the same bits are equal.
pub proof fn lemma_bits_ext(x: u64, y: u64)
    requires
        forall|i: int| 0 <= i < 64 ==> #[trigger] bit(x, i) == bit(y, i),
    ensures
        x == y,
{
    lemma_bit_eq_raw(x, y, 0u64);
    lemma_bit_eq_raw(x, y, 1u64);
    lemma_bit_eq_raw(x, y, 2u64);
    lemma_bit_eq_raw(x, y, 3u64);
    lemma_bit_eq_raw(x, y, 4u64);
    lemma_bit_eq_raw(x, y, 5u64);
    lemma_bit_eq_raw(x, y, 6u64);
    lemma_bit_eq_raw(x, y, 7u64);
    lemma_bit_eq_raw(x, y, 8u64);
    lemma_bit_eq_raw(x, y, 9u64);
    lemma_bit_eq_raw(x, y, 10u64);
    lemma_bit_eq_raw(x, y, 11u64);
    lemma_bit_eq_raw(x, y, 12u64);
    lemma_bit_eq_raw(x, y, 13u64);
    lemma_bit_eq_raw(x, y, 14u64);
    lemma_bit_eq_raw(x, y, 15u64);
    lemma_bit_eq_raw(x, y, 16u64);
    lemma_bit_eq_raw(x, y, 17u64);
    lemma_bit_eq_raw(x, y, 18u64);
    lemma_bit_eq_raw(x, y, 19u64);
    lemma_bit_eq_raw(x, y, 20u64);
    lemma_bit_eq_raw(x, y, 21u64);
    lemma_bit_eq_raw(x, y, 22u64);
    lemma_bit_eq_raw(x, y, 23u64);
    lemma_bit_eq_raw(x, y, 24u64);
    lemma_bit_eq_raw(x, y, 25u64);
    lemma_bit_eq_raw(x, y, 26u64);
    lemma_bit_eq_raw(x, y, 27u64);
    lemma_bit_eq_raw(x, y, 28u64);
    lemma_bit_eq_raw(x, y, 29u64);
    lemma_bit_eq_raw(x, y, 30u64);
    lemma_bit_eq_raw(x, y, 31u64);
    lemma_bit_eq_raw(x, y, 32u64);
    lemma_bit_eq_raw(x, y, 33u64);
    lemma_bit_eq_raw(x, y, 34u64);
    lemma_bit_eq_raw(x, y, 35u64);
    lemma_bit_eq_raw(x, y, 36u64);
    lemma_bit_eq_raw(x, y, 37u64);
    lemma_bit_eq_raw(x, y, 38u64);
    lemma_bit_eq_raw(x, y, 39u64);
    lemma_bit_eq_raw(x, y, 40u64);
    lemma_bit_eq_raw(x, y, 41u64);
    lemma_bit_eq_raw(x, y, 42u64);
    lemma_bit_eq_raw(x, y, 43u64);
    lemma_bit_eq_raw(x, y, 44u64);
    lemma_bit_eq_raw(x, y, 45u64);
    lemma_bit_eq_raw(x, y, 46u64);
    lemma_bit_eq_raw(x, y, 47u64);
    lemma_bit_eq_raw(x, y, 48u64);
    lemma_bit_eq_raw(x, y, 49u64);
    lemma_bit_eq_raw(x, y, 50u64);
    lemma_bit_eq_raw(x, y, 51u64);
    lemma_bit_eq_raw(x, y, 52u64);
    lemma_bit_eq_raw(x, y, 53u64);
    lemma_bit_eq_raw(x, y, 54u64);
    lemma_bit_eq_raw(x, y, 55u64);
    lemma_bit_eq_raw(x, y, 56u64);
    lemma_bit_eq_raw(x, y, 57u64);
    lemma_bit_eq_raw(x, y, 58u64);
    lemma_bit_eq_raw(x, y, 59u64);
    lemma_bit_eq_raw(x, y, 60u64);
    lemma_bit_eq_raw(x, y, 61u64);
    lemma_bit_eq_raw(x, y, 62u64);
    lemma_bit_eq_raw(x, y, 63u64);
    lemma_bits_ext_bv(x, y);
}

proof fn lemma_bit_eq_raw(x: u64, y: u64, j: u64)
    requires
        j < 64,
        bit(x, j as int) == bit(y, j as int),
    ensures
        (x >> j) & 1u64 == (y >> j) & 1u64,
{
    bv_word_facts(x, y, j);
    bv_word_facts(y, x, j);
}

proof fn lemma_bits_ext_bv(x: u64, y: u64)
    by (bit_vector)
    requires
            (x >> 0u64) & 1u64 == (y >> 0u64) & 1u64,
            (x >> 1u64) & 1u64 == (y >> 1u64) & 1u64,
            (x >> 2u64) & 1u64 == (y >> 2u64) & 1u64,
            (x >> 3u64) & 1u64 == (y >> 3u64) & 1u64,
            (x >> 4u64) & 1u64 == (y >> 4u64) & 1u64,
            (x >> 5u64) & 1u64 == (y >> 5u64) & 1u64,
            (x >> 6u64) & 1u64 == (y >> 6u64) & 1u64,
            (x >> 7u64) & 1u64 == (y >> 7u64) & 1u64,
            (x >> 8u64) & 1u64 == (y >> 8u64) & 1u64,
            (x >> 9u64) & 1u64 == (y >> 9u64) & 1u64,
            (x >> 10u64) & 1u64 == (y >> 10u64) & 1u64,
            (x >> 11u64) & 1u64 == (y >> 11u64) & 1u64,
            (x >> 12u64) & 1u64 == (y >> 12u64) & 1u64,
            (x >> 13u64) & 1u64 == (y >> 13u64) & 1u64,
            (x >> 14u64) & 1u64 == (y >> 14u64) & 1u64,
            (x >> 15u64) & 1u64 == (y >> 15u64) & 1u64,
            (x >> 16u64) & 1u64 == (y >> 16u64) & 1u64,
            (x >> 17u64) & 1u64 == (y >> 17u64) & 1u64,
            (x >> 18u64) & 1u64 == (y >> 18u64) & 1u64,
            (x >> 19u64) & 1u64 == (y >> 19u64) & 1u64,
            (x >> 20u64) & 1u64 == (y >> 20u64) & 1u64,
            (x >> 21u64) & 1u64 == (y >> 21u64) & 1u64,
            (x >> 22u64) & 1u64 == (y >> 22u64) & 1u64,
            (x >> 23u64) & 1u64 == (y >> 23u64) & 1u64,
            (x >> 24u64) & 1u64 == (y >> 24u64) & 1u64,
            (x >> 25u64) & 1u64 == (y >> 25u64) & 1u64,
            (x >> 26u64) & 1u64 == (y >> 26u64) & 1u64,
            (x >> 27u64) & 1u64 == (y >> 27u64) & 1u64,
            (x >> 28u64) & 1u64 == (y >> 28u64) & 1u64,
            (x >> 29u64) & 1u64 == (y >> 29u64) & 1u64,
            (x >> 30u64) & 1u64 == (y >> 30u64) & 1u64,
            (x >> 31u64) & 1u64 == (y >> 31u64) & 1u64,
            (x >> 32u64) & 1u64 == (y >> 32u64) & 1u64,
            (x >> 33u64) & 1u64 == (y >> 33u64) & 1u64,
            (x >> 34u64) & 1u64 == (y >> 34u64) & 1u64,
            (x >> 35u64) & 1u64 == (y >> 35u64) & 1u64,
            (x >> 36u64) & 1u64 == (y >> 36u64) & 1u64,
            (x >> 37u64) & 1u64 == (y >> 37u64) & 1u64,
            (x >> 38u64) & 1u64 == (y >> 38u64) & 1u64,
            (x >> 39u64) & 1u64 == (y >> 39u64) & 1u64,
            (x >> 40u64) & 1u64 == (y >> 40u64) & 1u64,
            (x >> 41u64) & 1u64 == (y >> 41u64) & 1u64,
            (x >> 42u64) & 1u64 == (y >> 42u64) & 1u64,
            (x >> 43u64) & 1u64 == (y >> 43u64) & 1u64,
            (x >> 44u64) & 1u64 == (y >> 44u64) & 1u64,
            (x >> 45u64) & 1u64 == (y >> 45u64) & 1u64,
            (x >> 46u64) & 1u64 == (y >> 46u64) & 1u64,
            (x >> 47u64) & 1u64 == (y >> 47u64) & 1u64,
            (x >> 48u64) & 1u64 == (y >> 48u64) & 1u64,
            (x >> 49u64) & 1u64 == (y >> 49u64) & 1u64,
            (x >> 50u64) & 1u64 == (y >> 50u64) & 1u64,
            (x >> 51u64) & 1u64 == (y >> 51u64) & 1u64,
            (x >> 52u64) & 1u64 == (y >> 52u64) & 1u64,
            (x >> 53u64) & 1u64 == (y >> 53u64) & 1u64,
            (x >> 54u64) & 1u64 == (y >> 54u64) & 1u64,
            (x >> 55u64) & 1u64 == (y >> 55u64) & 1u64,
            (x >> 56u64) & 1u64 == (y >> 56u64) & 1u64,
            (x >> 57u64) & 1u64 == (y >> 57u64) & 1u64,
            (x >> 58u64) & 1u64 == (y >> 58u64) & 1u64,
            (x >> 59u64) & 1u64 == (y >> 59u64) & 1u64,
            (x >> 60u64) & 1u64 == (y >> 60u64) & 1u64,
            (x >> 61u64) & 1u64 == (y >> 61u64) & 1u64,
            (x >> 62u64) & 1u64 == (y >> 62u64) & 1u64,
            (x >> 63u64) & 1u64 == (y >> 63u64) & 1u64,
    ensures
        x == y,
{
}

/// A word is zero exactly when none of its bits is set.
pub proof fn lemma_zero_iff_no_bits(x: u64)
    ensures
        x == 0 <==> forall|i: int| 0 <= i < 64 ==> !#[trigger] bit(x, i),
{
    if x == 0 {
        assert forall|i: int| 0 <= i < 64 implies !#[trigger] bit(x, i) by {
            lemma_bit_zero(i);
        }
    } else {
        if forall|i: int| 0 <= i < 64 ==> !#[trigger] bit(x, i) {
            assert forall|i: int| 0 <= i < 64 implies #[trigger] bit(x, i) == bit(0u64, i) by {
                lemma_bit_zero(i);
            }
            lemma_bits_ext(x, 0u64);
        }
    }
}

/// Facts about `x & (x - 1)` around the lowest set bit `k` of `x`.
proof fn bv_clear_lowest(x: u64, k: u64, j: u64)
    by (bit_vector)
    requires
        k < 64,
        j < 64,
        (x >> k) & 1u64 == 1u64,
        k == 0 || x << ((64 - k) as u64) == 0u64,
    ensures
        j < k ==> ((x & ((x - 1) as u64)) >> j) & 1u64 == 0u64,
        j == k ==> ((x & ((x - 1) as u64)) >> j) & 1u64 == 0u64,
        j > k ==> ((x & ((x - 1) as u64)) >> j) & 1u64 == (x >> j) & 1u64,
{
}

/// The bits below the trailing-zero count of a nonzero word shift out to zero.
proof fn bv_low_zero(x: u64, k: u64, t: u64)
    by (bit_vector)
    requires
        0 < k <= t,
        t <= 64,
        t == 64 || x << ((64 - t) as u64) == 0u64,
        t == 64 ==> x == 0,
    ensures
        x << ((64 - k) as u64) == 0u64,
{
}

/// Clearing the lowest set bit `k` of `x`: `x & (x - 1)` has exactly the bits of `x` other than `k`.
pub proof fn lemma_clear_lowest(x: u64, k: int)
    requires
        bit(x, k),
        forall|j: int| 0 <= j < k ==> !#[trigger] bit(x, j),
    ensures
        forall|j: int| #[trigger] bit(x & ((x - 1) as u64), j) == (bit(x, j) && j != k),
{
    let kk = k as u64;
    if k > 0 {
        vstd::std_specs::bits::axiom_u64_trailing_zeros(x);
        let t = vstd::std_specs::bits::u64_trailing_zeros(x) as u64;
        if t < kk {
            assert(bit(x, t as int));
        }
        bv_low_zero(x, kk, t);
    }
    assert forall|j: int| #[trigger] bit(x & ((x - 1) as u64), j) == (bit(x, j) && j != k) by {
        if 0 <= j < 64 {
            bv_clear_lowest(x, kk, j as u64);
            bv_word_facts(x, x, j as u64);
            bv_word_facts(x & ((x - 1) as u64), x, j as u64);
        }
    }
}

/// Popcount facts for toggling one bit, stated on the low bit and the rest.
proof fn bv_toggle_facts(x: u64, k: u64)
    by (bit_vector)
    requires
        k < 64,
    ensures
        k == 0 ==> (x ^ (1u64 << k)) / 2 == x / 2,
        k == 0 ==> (x ^ (1u64 << k)) % 2 == 1 - x % 2,
        k == 0 ==> ((x >> k) & 1u64 == 1u64) == (x % 2 == 1),
        k > 0 ==> (x ^ (1u64 << k)) / 2 == (x / 2) ^ (1u64 << ((k - 1) as u64)),
        k > 0 ==> (x ^ (1u64 << k)) % 2 == x % 2,
        k > 0 ==> (((x >> k) & 1u64 == 1u64) == (((x / 2) >> ((k - 1) as u64)) & 1u64 == 1u64)),
        (x ^ (1u64 << k)) != 0 || x != 0,
        (x ^ (1u64 << k)) == 0 ==> x == (1u64 << k),
        x == 0 ==> (x ^ (1u64 << k)) != 0,
        x % 2 == 0 || x % 2 == 1,
{
}

/// Toggling a set bit lowers the popcount by one; toggling a clear bit raises it by one.
pub proof fn lemma_popcount_toggle(x: u64, k: int)
    requires
        0 <= k < 64,
    ensures
        bit(x, k) ==> popcount(x ^ single(k)) + 1 == popcount(x),
        !bit(x, k) ==> popcount(x ^ single(k)) == popcount(x) + 1,
    decreases k,
{
    let kk = k as u64;
    bv_toggle_facts(x, kk);
    if k > 0 {
        lemma_popcount_toggle(x / 2, k - 1);
        if x == (1u64 << kk) {
            bv_toggle_facts(x / 2, (k - 1) as u64);
        }
    }
}

/// Removing one set bit lowers the popcount by one.
pub proof fn lemma_popcount_pop(x: u64, rest: u64, k: int)
    requires
        bit(x, k),
        forall|j: int| #[trigger] bit(rest, j) == (bit(x, j) && j != k),
    ensures
        popcount(rest) + 1 == popcount(x),
{
    lemma_popcount_toggle(x, k);
    let y = x ^ single(k);
    assert forall|j: int| 0 <= j < 64 implies #[trigger] bit(rest, j) == bit(y, j) by {
        lemma_bit_xor(x, single(k), j);
        lemma_bit_single(k, j);
    }
    lemma_bits_ext(rest, y);
}

/// XOR is associative and commutative, with 0 as identity and every word its own inverse.
pub proof fn lemma_xor_algebra(a: u64, b: u64, c: u64)
    by (bit_vector)
    ensures
        (a ^ b) ^ c == a ^ (b ^ c),
        a ^ b == b ^ a,
        a ^ 0u64 == a,
        a ^ a == 0u64,
{
}

/// Rearrangements of XOR chains.
pub proof fn lemma_xor_shuffle(a: u64, b: u64, c: u64, d: u64, e: u64)
    by (bit_vector)
    ensures
        (a ^ c) ^ b == (a ^ b) ^ c,
        (a ^ b) ^ (b ^ c) == a ^ c,
        0u64 ^ a == a,
        ((((a ^ b) ^ c) ^ d) ^ d) ^ c == a ^ b,
        (((a ^ b) ^ c) ^ d) ^ e == ((a ^ (b ^ e)) ^ c) ^ d,
{
}

/// Shifting by one rank moves every bit by eight places, and the rank mask
/// `0xFF << 8r` holds exactly the bits of rank `r`.
proof fn bv_shift_rank_facts(x: u64, j: u64, r: u64)
    by (bit_vector)
    requires
        j < 64,
        r < 8,
    ensures
        (((x << 8u64) >> j) & 1u64 == 1u64) == (j >= 8 && ((x >> ((j - 8u64) as u64)) & 1u64) == 1u64),
        (((x >> 8u64) >> j) & 1u64 == 1u64) == (j < 56 && ((x >> ((j + 8u64) as u64)) & 1u64) == 1u64),
        (((0xFFu64 << (8u64 * r)) >> j) & 1u64 == 1u64) == (j / 8u64 == r),
{
}

/// Bit `i` of `x` shifted up or down by one rank.
pub proof fn lemma_bit_shift8(x: u64, i: int)
    ensures
        bit(x << 8u8, i) == (8 <= i < 64 && bit(x, i - 8)),
        bit(x >> 8u8, i) == (0 <= i < 56 && bit(x, i + 8)),
{
    if 0 <= i < 64 {
        bv_shift_rank_facts(x, i as u64, 0);
        assert(x << 8u8 == x << 8u64);
        assert(x >> 8u8 == x >> 8u64);
    }
}

/// Bit `i` of the mask of rank `r` is set exactly on that rank.
pub proof fn lemma_bit_rank(r: int, i: int)
    requires
        0 <= r < 8,
    ensures
        bit(0xFFu64 << ((8 * r) as u64), i) == (0 <= i < 64 && i / 8 == r),
{
    if 0 <= i < 64 {
        bv_shift_rank_facts(0, i as u64, r as u64);
        assert((8 * r) as u64 == 8u64 * (r as u64));
    }
}

/// The number of squares `t` in `lo..64` for which `p(t)` holds.
pub open spec fn count_from(p: spec_fn(int) -> bool, lo: int) -> nat
    decreases 64 - lo,
{
    if lo >= 64 {
        0
    } else {
        (if p(lo) { 1nat } else { 0nat }) + count_from(p, lo + 1)
    }
}

/// Predicates that agree on every square count the same.
pub proof fn lemma_count_ext(p: spec_fn(int) -> bool, q: spec_fn(int) -> bool, lo: int)
    requires
        0 <= lo,
        forall|t: int| 0 <= t < 64 ==> #[trigger] p(t) == q(t),
    ensures
        count_from(p, lo) == count_from(q, lo),
    decreases 64 - lo,
{
    if lo < 64 {
        assert(p(lo) == q(lo));
        lemma_count_ext(p, q, lo + 1);
    }
}

/// Halving a word moves each bit down one place.
proof fn bv_half_facts(x: u64, j: u64)
    by (bit_vector)
    requires
        j < 63,
    ensures
        (((x / 2) >> j) & 1u64 == 1u64) == ((x >> ((j + 1) as u64)) & 1u64 == 1u64),
        ((x / 2) >> 63u64) & 1u64 == 0u64,
        ((x >> 0u64) & 1u64 == 1u64) == (x % 2 == 1),
{
}

/// The number of set bits of `x` at positions `lo..64`.
pub open spec fn count_bits(x: u64, lo: int) -> nat
    decreases 64 - lo,
{
    if lo >= 64 {
        0
    } else {
        (if bit(x, lo) { 1nat } else { 0nat }) + count_bits(x, lo + 1)
    }
}

proof fn lemma_count_half(x: u64, lo: int)
    requires
        0 <= lo < 64,
    ensures
        count_bits(x, lo + 1) == count_bits(x / 2, lo),
    decreases 64 - lo,
{
    let h: u64 = x / 2;
    if lo == 63 {
        bv_half_facts(x, 0);
        assert(!bit(h, 63));
        assert(count_bits(x, 64) == 0);
        assert(count_bits(h, 64) == 0);
        assert(count_bits(h, 63) == 0);
    } else {
        bv_half_facts(x, lo as u64);
        assert(bit(h, lo) == bit(x, lo + 1));
        lemma_count_half(x, lo + 1);
        assert(count_bits(x, lo + 1) == (if bit(x, lo + 1) { 1nat } else { 0nat }) + count_bits(x, lo + 2));
        assert(count_bits(h, lo) == (if bit(h, lo) { 1nat } else { 0nat }) + count_bits(h, lo + 1));
    }
}

proof fn lemma_count_zero(lo: int)
    ensures
        count_bits(0u64, lo) == 0,
    decreases 64 - lo,
{
    if lo < 64 {
        lemma_bit_zero(lo);
        lemma_count_zero(lo + 1);
    }
}

/// The popcount of a word counts its set bits.
pub proof fn lemma_popcount_count(x: u64)
    ensures
        popcount(x) == count_bits(x, 0),
    decreases x,
{
    if x == 0 {
        lemma_count_zero(0);
    } else {
        lemma_popcount_count(x / 2);
        lemma_count_half(x, 0);
        bv_half_facts(x, 0);
    }
}

proof fn lemma_count_bits_pred(x: u64, p: spec_fn(int) -> bool, lo: int)
    requires
        0 <= lo,
        forall|t: int| 0 <= t < 64 ==> #[trigger] bit(x, t) == p(t),
    ensures
        count_bits(x, lo) == count_from(p, lo),
    decreases 64 - lo,
{
    if lo < 64 {
        assert(bit(x, lo) == p(lo));
        lemma_count_bits_pred(x, p, lo + 1);
    }
}

/// The popcount of a word equals the count of any predicate that holds on exactly its set bits.
pub proof fn lemma_popcount_pred(x: u64, p: spec_fn(int) -> bool)
    requires
        forall|t: int| 0 <= t < 64 ==> #[trigger] bit(x, t) == p(t),
    ensures
        popcount(x) == count_from(p, 0),
{
    lemma_popcount_count(x);
    lemma_count_bits_pred(x, p, 0);
}

/// Per-bit facts of a file mask.
proof fn bv_file_facts(f: u64, j: u64)
    by (bit_vector)
    requires
        f < 8,
        j < 64,
    ensures
        (((0x0101_0101_0101_0101u64 << f) >> j) & 1u64 == 1u64) == (j % 8 == f),
{
}

/// Bit `i` of the mask of file `f` is set exactly on that file.
pub proof fn lemma_bit_file(f: int, i: int)
    requires
        0 <= f < 8,
    ensures
        bit(0x0101_0101_0101_0101u64 << (f as u64), i) == (0 <= i < 64 && i % 8 == f),
{
    if 0 <= i < 64 {
        bv_file_facts(f as u64, i as u64);
    }
}

/// Two words share no bit exactly when their intersection is zero.
pub proof fn lemma_and_zero(a: u64, b: u64)
    ensures
        (a & b == 0) <==> (forall|t: int| 0 <= t < 64 ==> !(#[trigger] bit(a, t) && bit(b, t))),
{
    lemma_zero_iff_no_bits(a & b);
    assert forall|t: int| #[trigger] bit(a & b, t) == (bit(a, t) && bit(b, t)) by {
        lemma_bit_and(a, b, t);
    }
    if a & b == 0 {
        assert forall|t: int| 0 <= t < 64 implies !(#[trigger] bit(a, t) && bit(b, t)) by {
            assert(!bit(a & b, t));
        }
    }
    if forall|t: int| 0 <= t < 64 ==> !(#[trigger] bit(a, t) && bit(b, t)) {
        assert forall|t: int| 0 <= t < 64 implies !#[trigger] bit(a & b, t) by {
            assert(!(bit(a, t) && bit(b, t)));
        }
    }
}

/// A predicate that implies another counts no more squares.
pub proof fn lemma_count_le(p: spec_fn(int) -> bool, q: spec_fn(int) -> bool, lo: int)
    requires
        0 <= lo,
        forall|t: int| 0 <= t < 64 ==> #[trigger] q(t) ==> p(t),
    ensures
        count_from(q, lo) <= count_from(p, lo),
    decreases 64 - lo,
{
    if lo < 64 {
        lemma_count_le(p, q, lo + 1);
        assert(q(lo) ==> p(lo));
    }
}

/// `count_ones` returns the number of set bits of a word.
#[verifier::external_body]
pub fn count_ones_u64(x: u64) -> (r: u32)
    ensures
        r == popcount(x),
{
    x.count_ones()
}

} // verus!
