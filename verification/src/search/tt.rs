//! Transposition table: two 64-bit words per entry, with an XOR check that
//! detects entries torn by concurrent writers.
//!
//! ```text
//! word0:
//!   bits 63-32: key           (upper 32 bits of Zobrist hash)
//!   bits 31-27: generation    (5 bits, wraps at 32)
//!   bits 26-26: is_pv         (1 bit)
//!   bits 25-24: bound         (2 bits)
//!   bits 23-16: depth         (8 bits)
//!   bits 15-0:  move          (16 bits)
//!
//! word1:
//!   bits 63-32: check         = key XOR (word0 & 0xFFFF_FFFF)
//!   bits 31-16: score         (i16 as u16)
//!   bits 15-0:  eval          (i16 as u16)
//! ```

use vstd::prelude::*;

use crate::chess_move::Move;
use crate::search::slots::SlotTable;

verus! {

/// Bound type stored in a TT entry.
#[derive(Debug, Clone, Copy, PartialEq, Eq, Structural)]
pub enum Bound {
    /// No bound information (empty entry).
    NoBound,
    /// The stored score is exact (PV node).
    Exact,
    /// The stored score is a lower bound (failed high / beta cutoff).
    LowerBound,
    /// The stored score is an upper bound (failed low / all-node).
    UpperBound,
}

impl Bound {
    /// The two-bit code of the bound.
    pub open spec fn code(self) -> u64 {
        match self {
            Bound::NoBound => 0,
            Bound::Exact => 1,
            Bound::LowerBound => 2,
            Bound::UpperBound => 3,
        }
    }

    /// The bound with the given two-bit code (only the low two bits count).
    pub open spec fn from_code(bits: u64) -> Bound {
        let b = bits % 4;
        if b == 1 {
            Bound::Exact
        } else if b == 2 {
            Bound::LowerBound
        } else if b == 3 {
            Bound::UpperBound
        } else {
            Bound::NoBound
        }
    }

    fn bits(self) -> (r: u64)
        ensures
            r == self.code(),
    {
        match self {
            Bound::NoBound => 0,
            Bound::Exact => 1,
            Bound::LowerBound => 2,
            Bound::UpperBound => 3,
        }
    }

    fn from_bits(bits: u64) -> (r: Bound)
        ensures
            r == Bound::from_code(bits),
    {
        match bits % 4 {
            1 => Bound::Exact,
            2 => Bound::LowerBound,
            3 => Bound::UpperBound,
            _ => Bound::NoBound,
        }
    }
}

/// Scores above this threshold indicate a forced mate.
pub const MATE_THRESHOLD: i32 = 28_000;

/// A score adjusted for storage: mate scores move from distance-to-root to
/// distance-to-node (away from zero by `ply`), then wrap to 16 bits.
pub open spec fn tt_score(score: int, ply: int) -> i16 {
    (if score > 28_000 {
        score + ply
    } else if score < -28_000 {
        score - ply
    } else {
        score
    }) as i16
}

/// A stored score read back: mate scores move back toward zero by `ply`.
pub open spec fn untt_score(score: int, ply: int) -> int {
    if score > 28_000 {
        score - ply
    } else if score < -28_000 {
        score + ply
    } else {
        score
    }
}

/// Convert a search score to TT-storable form.
///
/// Mate scores are path-dependent: `MATE_SCORE - ply` changes based on
/// the search path. We store them as distance-from-node instead of
/// distance-from-root so they're path-independent.
pub fn score_to_tt(score: i32, ply: u8) -> (r: i16)
    requires
        score > 28_000 ==> score + ply <= i32::MAX,
        score < -28_000 ==> score - ply >= i32::MIN,
    ensures
        r == tt_score(score as int, ply as int),
{
    let adjusted = if score > MATE_THRESHOLD {
        score + ply as i32
    } else if score < -MATE_THRESHOLD {
        score - ply as i32
    } else {
        score
    };
    adjusted as i16
}

/// Convert a TT-stored score back to search-usable form.
///
/// Reverses the mate-distance adjustment applied by [`score_to_tt`].
pub fn score_from_tt(score: i16, ply: u8) -> (r: i32)
    ensures
        r == untt_score(score as int, ply as int),
{
    let score = score as i32;
    if score > MATE_THRESHOLD {
        score - ply as i32
    } else if score < -MATE_THRESHOLD {
        score + ply as i32
    } else {
        score
    }
}

/// Storing a score and reading it back at the same ply gives it back, for
/// every score whose adjusted form fits in 16 bits and stays on the same
/// side of the mate thresholds.
pub proof fn lemma_tt_score_roundtrip(score: int, ply: int)
    requires
        0 <= ply <= 255,
        -32768 <= score - ply,
        score + ply <= 32767,
        -28_000 <= score <= 28_000 || score > 28_000 || score < -28_000,
    ensures
        untt_score(tt_score(score, ply) as int, ply) == score,
{
}

// ── Word layout ─────────────────────────────────────────────────────────────

/// The first word of an entry.
pub open spec fn word0(key32: u64, generation: u64, is_pv: bool, bound: Bound, depth: u64, mv: u64) -> u64 {
    (key32 << 32u64) | ((generation % 32) << 27u64) | ((if is_pv { 1u64 } else { 0u64 }) << 26u64) | (
    bound.code() << 24u64) | (depth << 16u64) | mv
}

/// The check field of a first word: its key XOR its low half.
pub open spec fn check_of(w0: u64) -> u64 {
    (w0 >> 32u64) ^ (w0 & 0xFFFF_FFFFu64)
}

/// The second word of an entry.
pub open spec fn word1(w0: u64, score16: u64, eval16: u64) -> u64 {
    (check_of(w0) << 32u64) | (score16 << 16u64) | eval16
}

/// The fields of a first word: key, generation, pv flag, bound, depth, move.
pub open spec fn decode0(w0: u64) -> (u64, u64, bool, Bound, u64, u64) {
    (
        w0 >> 32u64,
        (w0 >> 27u64) & 0x1Fu64,
        (w0 >> 26u64) & 1u64 != 0,
        Bound::from_code((w0 >> 24u64) & 3u64),
        (w0 >> 16u64) & 0xFFu64,
        w0 & 0xFFFFu64,
    )
}

/// Packing and unpacking a first word are inverse.
pub proof fn lemma_word0_roundtrip(key32: u64, generation: u64, pv: u64, bound_code: u64, depth: u64, mv: u64)
    by (bit_vector)
    requires
        key32 < 0x1_0000_0000,
        generation < 32,
        pv < 2,
        bound_code < 4,
        depth < 256,
        mv < 0x1_0000,
    ensures
        ((key32 << 32u64) | (generation << 27u64) | (pv << 26u64) | (bound_code << 24u64) | (depth << 16u64) | mv)
            >> 32u64 == key32,
        (((key32 << 32u64) | (generation << 27u64) | (pv << 26u64) | (bound_code << 24u64) | (depth << 16u64) | mv)
            >> 27u64) & 0x1Fu64 == generation,
        (((key32 << 32u64) | (generation << 27u64) | (pv << 26u64) | (bound_code << 24u64) | (depth << 16u64) | mv)
            >> 26u64) & 1u64 == pv,
        (((key32 << 32u64) | (generation << 27u64) | (pv << 26u64) | (bound_code << 24u64) | (depth << 16u64) | mv)
            >> 24u64) & 3u64 == bound_code,
        (((key32 << 32u64) | (generation << 27u64) | (pv << 26u64) | (bound_code << 24u64) | (depth << 16u64) | mv)
            >> 16u64) & 0xFFu64 == depth,
        ((key32 << 32u64) | (generation << 27u64) | (pv << 26u64) | (bound_code << 24u64) | (depth << 16u64) | mv)
            & 0xFFFFu64 == mv,
        ((((key32 << 32u64) | (generation << 27u64) | (pv << 26u64) | (bound_code << 24u64) | (depth << 16u64) | mv)
            >> 32u64) ^ (((key32 << 32u64) | (generation << 27u64) | (pv << 26u64) | (bound_code << 24u64) | (depth
            << 16u64) | mv) & 0xFFFF_FFFFu64)) < 0x1_0000_0000,
{
}

/// Packing and unpacking a second word are inverse.
pub proof fn lemma_word1_roundtrip(check: u64, score16: u64, eval16: u64)
    by (bit_vector)
    requires
        check < 0x1_0000_0000,
        score16 < 0x1_0000,
        eval16 < 0x1_0000,
    ensures
        ((check << 32u64) | (score16 << 16u64) | eval16) >> 32u64 == check,
        (((check << 32u64) | (score16 << 16u64) | eval16) >> 16u64) & 0xFFFFu64 == score16,
        ((check << 32u64) | (score16 << 16u64) | eval16) & 0xFFFFu64 == eval16,
{
}

/// A 16-bit value widened through its bits and read back is itself.
proof fn bv_i16_bits(x: i16, w: u64)
    by (bit_vector)
    requires
        w == x as u16 as u64,
    ensures
        w < 0x1_0000,
        w as u16 as i16 == x,
{
}

/// What a probe reads back of a store: at the ply of the store, the words it
/// wrote for `hash` give back its move, depth, bound, pv flag and score, and
/// its evaluation wrapped to 16 bits — for every bound but `NoBound` and
/// every score whose adjusted form fits in 16 bits.
pub proof fn lemma_store_then_probe(
    hash: u64,
    generation: u64,
    is_pv: bool,
    bound: Bound,
    depth: u8,
    mv: Move,
    score: int,
    eval: i32,
    ply: u8,
)
    requires
        bound != Bound::NoBound,
        -32768 <= score - ply,
        score + ply <= 32767,
    ensures
        ({
            let w0 = word0(hash >> 32u64, generation, is_pv, bound, depth as u64, mv.view() as u64);
            let w1 = word1(w0, tt_score(score, ply as int) as u16 as u64, eval as i16 as u16 as u64);
            probe_result(hash, ply as int, w0, w1) == Some(
                (mv.view() as u64, depth as u64, bound, is_pv, score, eval as i16 as int),
            )
        }),
{
    let key32 = hash >> 32u64;
    assert(key32 < 0x1_0000_0000) by (bit_vector)
        requires
            key32 == hash >> 32u64,
    ;
    let g = generation % 32;
    let pv: u64 = if is_pv { 1 } else { 0 };
    let w0 = word0(key32, generation, is_pv, bound, depth as u64, mv.view() as u64);
    lemma_word0_roundtrip(key32, g, pv, bound.code(), depth as u64, mv.view() as u64);
    let s16 = tt_score(score, ply as int) as u16 as u64;
    let e16 = eval as i16 as u16 as u64;
    bv_i16_bits(tt_score(score, ply as int), s16);
    bv_i16_bits(eval as i16, e16);
    let check = check_of(w0);
    lemma_word1_roundtrip(check, s16, e16);
    lemma_tt_score_roundtrip(score, ply as int);
    assert(Bound::from_code(bound.code()) == bound);
}

fn pack_word0(key32: u64, generation: u64, is_pv: bool, bound: Bound, depth: u8, mv: Move) -> (r: u64)
    ensures
        r == word0(key32, generation, is_pv, bound, depth as u64, mv.view() as u64),
{
    let key_bits = key32 << 32u64;
    let gen_bits = (generation % 32) << 27u64;
    let pv_bit: u64 = if is_pv { 1u64 << 26u64 } else { 0u64 };
    let bound_bits = bound.bits() << 24u64;
    let depth_bits = (depth as u64) << 16u64;
    let mv_bits = mv.raw() as u64;
    proof {
        assert((if is_pv { 1u64 } else { 0u64 }) << 26u64 == pv_bit) by (bit_vector)
            requires
                pv_bit == (if is_pv { 1u64 << 26u64 } else { 0u64 }),
        ;
    }
    key_bits | gen_bits | pv_bit | bound_bits | depth_bits | mv_bits
}

fn pack_word1(w0: u64, score: i16, eval: i16) -> (r: u64)
    ensures
        r == word1(w0, score as u16 as u64, eval as u16 as u64),
{
    let key32 = w0 >> 32u64;
    let data_lower = w0 & 0xFFFF_FFFFu64;
    let check = key32 ^ data_lower;
    let score_bits = (score as u16 as u64) << 16u64;
    let eval_bits = eval as u16 as u64;
    (check << 32u64) | score_bits | eval_bits
}

fn decode_w0(w0: u64) -> (r: (u64, u64, bool, Bound, u8, Move))
    ensures
        r.0 == decode0(w0).0,
        r.1 == decode0(w0).1,
        r.2 == decode0(w0).2,
        r.3 == decode0(w0).3,
        r.4 as u64 == decode0(w0).4,
        r.5.view() as u64 == decode0(w0).5,
{
    let key32 = w0 >> 32u64;
    let generation = (w0 >> 27u64) & 0x1Fu64;
    let is_pv = ((w0 >> 26u64) & 1u64) != 0;
    let bound = Bound::from_bits((w0 >> 24u64) & 3u64);
    let depth_bits = (w0 >> 16u64) & 0xFFu64;
    proof {
        assert(depth_bits < 256) by (bit_vector)
            requires
                depth_bits == (w0 >> 16u64) & 0xFFu64,
        ;
    }
    let mv_bits = w0 & 0xFFFFu64;
    proof {
        assert(mv_bits < 0x1_0000) by (bit_vector)
            requires
                mv_bits == w0 & 0xFFFFu64,
        ;
    }
    let depth = depth_bits as u8;
    let mv = Move::from_raw(mv_bits as u16);
    (key32, generation, is_pv, bound, depth, mv)
}

/// Result of a successful TT probe.
#[derive(Debug, Clone)]
pub struct TtProbeResult {
    /// Best move from a previous search of this position.
    pub best_move: Move,
    /// Search depth of the stored entry.
    pub depth: u8,
    /// Bound type (exact, lower, or upper).
    pub bound: Bound,
    /// Score (already adjusted from TT-relative back to root-relative).
    pub score: i32,
    /// Static evaluation.
    pub eval: i32,
    /// Whether this entry was written from a PV node.
    pub is_pv: bool,
}

/// What a probe for `hash` at `ply` reports of the words `w0`, `w1` it read:
/// nothing when the check field disagrees, the key differs or the bound is
/// empty; else the decoded fields.
pub open spec fn probe_result(hash: u64, ply: int, w0: u64, w1: u64) -> Option<(u64, u64, Bound, bool, int, int)> {
    let (key32, _generation, is_pv, bound, depth, mv) = decode0(w0);
    if check_of(w0) != w1 >> 32u64 || key32 != hash >> 32u64 || bound == Bound::NoBound {
        None
    } else {
        Some((mv, depth, bound, is_pv, untt_score(((w1 >> 16u64) & 0xFFFFu64) as u16 as i16 as int, ply), (w1 & 0xFFFFu64) as u16 as i16 as int))
    }
}

/// A slot whose two words are zero, as `clear` leaves every slot, answers no
/// probe, whatever the hash and ply.
pub proof fn lemma_zero_slot_misses(hash: u64, ply: int)
    ensures
        probe_result(hash, ply, 0, 0) is None,
{
    assert((0u64 >> 24u64) & 3u64 == 0) by (bit_vector);
}

/// Whether a store of depth `depth` and bound `bound` in generation
/// `generation` replaces the entry whose first word is `existing`: when that
/// slot is empty, from another generation, not deeper, or the new bound is
/// exact.
pub open spec fn replaces(existing: u64, generation: u64, depth: int, bound: Bound) -> bool {
    let (_k, existing_generation, _pv, existing_bound, existing_depth, _mv) = decode0(existing);
    existing_bound == Bound::NoBound || existing_generation != generation || depth >= existing_depth || bound
        == Bound::Exact
}

/// A store whose bound is exact replaces whatever the slot holds, and so
/// does a store into an empty slot (a first word of zero).
pub proof fn lemma_exact_replaces(existing: u64, generation: u64, depth: int)
    ensures
        replaces(existing, generation, depth, Bound::Exact),
        forall|b: Bound| #[trigger] replaces(0, generation, depth, b),
{
    assert((0u64 >> 24u64) & 3u64 == 0) by (bit_vector);
}

/// A store replaces an entry it is at least as deep as, and an entry of
/// another generation; an entry of its own generation that is deeper it
/// keeps, unless the new bound is exact or the slot is empty.
pub proof fn lemma_replacement_policy(existing: u64, generation: u64, depth: int, bound: Bound)
    ensures
        depth >= (existing >> 16u64) & 0xFFu64 ==> replaces(existing, generation, depth, bound),
        (existing >> 27u64) & 0x1Fu64 != generation ==> replaces(existing, generation, depth, bound),
        depth < (existing >> 16u64) & 0xFFu64 && (existing >> 27u64) & 0x1Fu64 == generation && bound != Bound::Exact
            && (existing >> 24u64) & 3u64 != 0 ==> !replaces(existing, generation, depth, bound),
{
    assert((existing >> 24u64) & 3u64 < 4) by (bit_vector);
}

/// Whether a store of depth `depth` and bound `bound` in generation
/// `generation` replaces the entry whose first word is `existing_w0` (see
/// [`replaces`]).
pub fn replaces_entry(existing_w0: u64, generation: u64, depth: u8, bound: Bound) -> (r: bool)
    ensures
        r == replaces(existing_w0, generation, depth as int, bound),
{
    let (_, existing_generation, _existing_is_pv, existing_bound, existing_depth, _) = decode_w0(existing_w0);
    existing_bound == Bound::NoBound || existing_generation != generation || depth >= existing_depth || bound
        == Bound::Exact
}

/// The two words a store writes: the key, generation, pv flag, bound, depth
/// and move in the first, its check field, the score adjusted to the ply and
/// the evaluation wrapped to 16 bits in the second.
pub fn entry_words(
    hash: u64,
    generation: u64,
    is_pv: bool,
    bound: Bound,
    depth: u8,
    best_move: Move,
    score: i32,
    eval: i32,
    ply: u8,
) -> (r: (u64, u64))
    requires
        score > 28_000 ==> score + ply <= i32::MAX,
        score < -28_000 ==> score - ply >= i32::MIN,
    ensures
        r.0 == word0(hash >> 32u64, generation, is_pv, bound, depth as u64, best_move.view() as u64),
        r.1 == word1(r.0, tt_score(score as int, ply as int) as u16 as u64, eval as i16 as u16 as u64),
{
    let key32 = hash >> 32u64;
    let w0 = pack_word0(key32, generation, is_pv, bound, depth, best_move);
    let w1 = pack_word1(w0, score_to_tt(score, ply), eval as i16);
    (w0, w1)
}

/// Lockless transposition table with XOR integrity checking.
///
/// All method receivers are `&self` — the table is safe to share across threads.
pub struct TranspositionTable {
    slots: SlotTable,
    /// Index mask — `num_entries - 1` (power-of-two allocation).
    mask: u64,
}

/// `p` is a power of two.
pub open spec fn is_pow2(p: nat) -> bool
    decreases p,
{
    if p <= 1 {
        p == 1
    } else {
        p % 2 == 0 && is_pow2(p / 2)
    }
}

/// The number of entries for a table whose entry count rounded up to a power
/// of two is `p`: half of `p`, and at least one.
pub open spec fn entry_count(p: nat) -> nat {
    if p / 2 >= 1 { p / 2 } else { 1 }
}

impl TranspositionTable {
    /// The table is well formed: its index mask is its size minus one.
    pub closed spec fn wf(&self) -> bool {
        self.slots.len() == self.mask + 1 && self.mask < usize::MAX
    }

    /// Number of entries.
    pub closed spec fn size(&self) -> nat {
        self.slots.len()
    }

    /// Create a new transposition table with the given size in megabytes.
    ///
    /// The number of entries is half the smallest power of two at least
    /// the size divided by the 16 bytes of an entry, and at least one.
    pub fn new(mb: usize) -> (r: TranspositionTable)
        requires
            mb * 0x10_0000 <= usize::MAX,
        ensures
            r.wf(),
            exists|p: nat|
                #![trigger entry_count(p)]
                is_pow2(p) && p >= mb * 0x10_0000 / 16 && (p == 1 || p / 2 < mb * 0x10_0000 / 16) && r.size() == entry_count(p),
    {
        let bytes = mb * 0x10_0000;
        let n = bytes / 16;
        let mut p: usize = 1;
        while p < n
            invariant
                1 <= p,
                p == 1 || p < 2 * n,
                n <= usize::MAX / 16,
                is_pow2(p as nat),
            decreases 2 * n - p,
        {
            assert(is_pow2((2 * p) as nat));
            p = p * 2;
        }
        let num_entries = if p / 2 >= 1 { p / 2 } else { 1 };
        let slots = SlotTable::new(num_entries);
        let r = TranspositionTable { slots, mask: (num_entries - 1) as u64 };
        assert(r.size() == entry_count(p as nat));
        r
    }

    /// Clear all entries and reset the generation counter.
    pub fn clear(&self)
        requires
            self.wf(),
    {
        self.slots.clear();
    }

    /// Advance the generation counter. Call once per `go` command.
    pub fn new_generation(&self) {
        let current = self.slots.current_generation();
        self.slots.set_generation(current.wrapping_add(1) & 0x1F);
    }

    /// Probe the table for a position.
    ///
    /// Returns `Some(TtProbeResult)` if a matching, intact entry is found.
    /// Returns `None` on a miss, key mismatch, or torn-write detection.
    pub fn probe(&self, hash: u64, ply: u8) -> (r: Option<TtProbeResult>)
        requires
            self.wf(),
        ensures
            r matches Some(res) ==> exists|w0: u64, w1: u64| #[trigger] probe_result(hash, ply as int, w0, w1)
                == Some(
                (res.best_move.view() as u64, res.depth as u64, res.bound, res.is_pv, res.score as int, res.eval as int),
            ),
    {
        let mask = self.mask;
        let masked = hash & mask;
        proof {
            assert(masked <= mask) by (bit_vector)
                requires
                    masked == hash & mask,
            ;
        }
        let index = masked as usize;
        let (w0, w1) = self.slots.load(index);
        let key32_w0 = w0 >> 32u64;
        let data_lower = w0 & 0xFFFF_FFFFu64;
        let check_expected = key32_w0 ^ data_lower;
        let check_stored = w1 >> 32u64;
        if check_expected != check_stored {
            return None;
        }
        let key32 = hash >> 32u64;
        if key32_w0 != key32 {
            return None;
        }
        let (_key, _generation, is_pv, bound, depth, mv) = decode_w0(w0);
        if bound == Bound::NoBound {
            return None;
        }
        let score_raw = ((w1 >> 16u64) & 0xFFFFu64) as u16 as i16;
        let eval_raw = (w1 & 0xFFFFu64) as u16 as i16;
        let res = TtProbeResult {
            best_move: mv,
            depth,
            bound,
            score: score_from_tt(score_raw, ply),
            eval: eval_raw as i32,
            is_pv,
        };
        assert(probe_result(hash, ply as int, w0, w1) == Some(
            (res.best_move.view() as u64, res.depth as u64, res.bound, res.is_pv, res.score as int, res.eval as int),
        ));
        Some(res)
    }

    /// Store a position in the table.
    ///
    /// Replacement policy: replace if any of:
    /// - The slot is empty (bound is None)
    /// - The stored entry is from a different generation
    /// - The new depth >= stored depth
    /// - The new bound is Exact
    ///
    /// The score is stored as [`score_to_tt`] gives it and the evaluation
    /// wrapped to 16 bits.
    pub fn store(
        &self,
        hash: u64,
        depth: u8,
        score: i32,
        eval: i32,
        best_move: Move,
        bound: Bound,
        ply: u8,
        is_pv: bool,
    ) -> (r: Option<(u64, u64)>)
        requires
            self.wf(),
            score > 28_000 ==> score + ply <= i32::MAX,
            score < -28_000 ==> score - ply >= i32::MIN,
        ensures
            exists|existing: u64, generation: u64|
                #![trigger replaces(existing, generation, depth as int, bound)]
                r == if replaces(existing, generation, depth as int, bound) {
                    Some(
                        (
                            word0(hash >> 32u64, generation, is_pv, bound, depth as u64, best_move.view() as u64),
                            word1(
                                word0(hash >> 32u64, generation, is_pv, bound, depth as u64, best_move.view() as u64),
                                tt_score(score as int, ply as int) as u16 as u64,
                                eval as i16 as u16 as u64,
                            ),
                        ),
                    )
                } else {
                    None::<(u64, u64)>
                },
            bound == Bound::Exact ==> r is Some,
            r is Some && bound != Bound::NoBound && -32768 <= score - ply && score + ply <= 32767 ==> probe_result(
                hash,
                ply as int,
                r.unwrap().0,
                r.unwrap().1,
            ) == Some((best_move.view() as u64, depth as u64, bound, is_pv, score as int, eval as i16 as int)),
    {
        let mask = self.mask;
        let masked = hash & mask;
        proof {
            assert(masked <= mask) by (bit_vector)
                requires
                    masked == hash & mask,
            ;
        }
        let index = masked as usize;
        let generation = self.slots.current_generation() as u64;
        let existing_w0 = self.slots.peek(index);
        proof {
            lemma_exact_replaces(existing_w0, generation, depth as int);
        }
        if !replaces_entry(existing_w0, generation, depth, bound) {
            return None;
        }
        let (w0, w1) = entry_words(hash, generation, is_pv, bound, depth, best_move, score, eval, ply);
        self.slots.store(index, w0, w1);
        proof {
            if bound != Bound::NoBound && -32768 <= score - ply && score + ply <= 32767 {
                lemma_store_then_probe(hash, generation, is_pv, bound, depth, best_move, score as int, eval, ply);
            }
        }
        Some((w0, w1))
    }
}

} // verus!
