//! Hand-crafted evaluation (HCE) with tapered eval.
//!
//! Evaluation terms: material, piece-square tables, pawn structure,
//! piece mobility, and king safety (pawn shield).
//!
//! All individual terms return [`score::Score`] from White's perspective.
//! The orchestrator tapers the combined mg/eg values based on game phase
//! and flips the sign for Black.

pub mod king_safety;
pub mod material;
pub mod mobility;
pub mod nnue;
pub mod outposts;
pub mod pawns;
pub mod phase;
pub mod pst;
pub mod rooks;
pub mod score;

use vstd::prelude::*;

use crate::bitboard::Bitboard;
use crate::bits::{bit, lemma_bit_and, lemma_bit_rank, lemma_zero_iff_no_bits};
use crate::board::{Board, BoardModel};
use crate::color::Color;
use crate::search::heuristics::{div_toward_zero, div_trunc};

use self::king_safety::{evaluate_king_safety, king_safety_word};
use self::material::{material, material_diff, material_eg, material_fits, material_mg, material_word};
use self::mobility::{evaluate_mobility, mobility_word};
use self::pawns::{evaluate_pawns, pawns_below_last_rank, pawns_word};
use self::phase::{game_phase, phase_model, MAX_PHASE};
use self::pst::{pst_terms, pst_total};
use self::score::{scale_fits, unpack_eg, unpack_mg, wadd, Score};

verus! {

broadcast use Score::lemma_from_word;

/// The positions the evaluation handles: both kings present, no pawn on its
/// promotion rank, and material surpluses whose weighted values fit in 16 bits.
pub open spec fn evaluable(m: BoardModel) -> bool {
    &&& m.has_king(Color::White)
    &&& m.has_king(Color::Black)
    &&& pawns_below_last_rank(m.pieces[0] & m.sides[0], Color::White)
    &&& pawns_below_last_rank(m.pieces[0] & m.sides[1], Color::Black)
    &&& material_fits(m)
}

/// The evaluation word of a position from White's side: material, piece-square
/// tables, pawn structure, mobility and king safety, summed.
pub open spec fn white_word(m: BoardModel) -> i32 {
    wadd(wadd(wadd(wadd(wadd(0, material_word(m)), pst_terms(m, 6)), pawns_word(m)), mobility_word(m)), king_safety_word(m))
}

/// No pawn of `pawns` stands on the rank with mask `0xFF << (8 * rank)`.
fn clear_of_rank(pawns: u64, rank: u64) -> (r: bool)
    requires
        rank < 8,
    ensures
        r == forall|t: int| #[trigger] bit(pawns, t) ==> t / 8 != rank,
{
    let mask = 0xFFu64 << (8 * rank);
    let r = pawns & mask == 0;
    proof {
        lemma_zero_iff_no_bits(pawns & mask);
        if r {
            assert forall|t: int| #[trigger] bit(pawns, t) implies t / 8 != rank by {
                lemma_bit_and(pawns, mask, t);
                lemma_bit_rank(rank as int, t);
                assert((8 * rank) as u64 == (8 * (rank as int)) as u64);
            }
        } else {
            let t = choose|t: int| 0 <= t < 64 && bit(pawns & mask, t);
            lemma_bit_and(pawns, mask, t);
            lemma_bit_rank(rank as int, t);
            assert((8 * rank) as u64 == (8 * (rank as int)) as u64);
            assert(bit(pawns, t) && t / 8 == rank);
        }
    }
    r
}

/// The middlegame and endgame material values of kind index `k`.
fn material_values(k: usize) -> (r: (i32, i32))
    requires
        k < 6,
    ensures
        r.0 == material_mg(k as int),
        r.1 == material_eg(k as int),
{
    match k {
        0 => (100, 120),
        1 => (320, 310),
        2 => (330, 320),
        3 => (500, 520),
        4 => (900, 950),
        _ => (0, 0),
    }
}

/// Whether [`evaluate`] handles the position (see [`evaluable`]).
pub fn can_evaluate(board: &Board) -> (r: bool)
    ensures
        r == evaluable(board.view()),
{
    let ghost m = board.view();
    let white_king = board.pieces_by_index(5).inner() & board.side_by_index(0).inner();
    let black_king = board.pieces_by_index(5).inner() & board.side_by_index(1).inner();
    if white_king == 0 || black_king == 0 {
        return false;
    }
    let white_pawns = board.pieces_by_index(0).inner() & board.side_by_index(0).inner();
    let black_pawns = board.pieces_by_index(0).inner() & board.side_by_index(1).inner();
    let white_clear = clear_of_rank(white_pawns, 7);
    let black_clear = clear_of_rank(black_pawns, 0);
    proof {
        assert(white_clear == pawns_below_last_rank(white_pawns, Color::White)) by {
            if !white_clear {
                let t = choose|t: int| #[trigger] bit(white_pawns, t) && t / 8 == 7;
                assert(bit(white_pawns, t));
            }
        }
        assert(black_clear == pawns_below_last_rank(black_pawns, Color::Black)) by {
            if !black_clear {
                let t = choose|t: int| #[trigger] bit(black_pawns, t) && t / 8 == 0;
                assert(bit(black_pawns, t));
            }
        }
    }
    if !white_clear || !black_clear {
        return false;
    }
    let mut k: usize = 0;
    while k < 6
        invariant
            k <= 6,
            m == board.view(),
            forall|j: int| 0 <= j < k ==> scale_fits(material_mg(j), material_eg(j), #[trigger] material_diff(m, j)),
        decreases 6 - k,
    {
        let w = Bitboard::new(board.pieces_by_index(k).inner() & board.side_by_index(0).inner()).count();
        let b = Bitboard::new(board.pieces_by_index(k).inner() & board.side_by_index(1).inner()).count();
        proof {
            crate::bitboard::lemma_popcount_le_64(m.pieces[k as int] & m.sides[0]);
            crate::bitboard::lemma_popcount_le_64(m.pieces[k as int] & m.sides[1]);
        }
        let diff = w as i32 - b as i32;
        let (mg, eg) = material_values(k);
        let fits = -32768 <= mg * diff && mg * diff <= 32767 && -32768 <= eg * diff && eg * diff <= 32767;
        assert(fits == scale_fits(material_mg(k as int), material_eg(k as int), material_diff(m, k as int)));
        if !fits {
            return false;
        }
        k = k + 1;
    }
    true
}

/// The tapered value of a packed word at `phase`: the middlegame and endgame
/// components weighted by `phase` and `MAX_PHASE - phase`, divided by
/// `MAX_PHASE` rounding toward zero.
pub open spec fn tapered(w: i32, phase: int) -> int {
    div_trunc(unpack_mg(w) * phase + unpack_eg(w) * (MAX_PHASE - phase), MAX_PHASE as int)
}

/// The arithmetic of `taper` stays within 32 bits.
pub open spec fn taper_fits(w: i32, phase: int) -> bool {
    &&& i32::MIN <= MAX_PHASE - phase <= i32::MAX
    &&& i32::MIN <= unpack_mg(w) * phase <= i32::MAX
    &&& i32::MIN <= unpack_eg(w) * (MAX_PHASE - phase) <= i32::MAX
    &&& i32::MIN < unpack_mg(w) * phase + unpack_eg(w) * (MAX_PHASE - phase) <= i32::MAX
}

/// The evaluation of a position from the side to move's perspective.
pub open spec fn evaluation(m: BoardModel) -> int {
    let t = tapered(white_word(m), phase_model(m));
    if m.side_to_move == Color::White {
        t
    } else {
        -t
    }
}

/// The evaluation of a position (see [`evaluation`]), named for contracts
/// that speak of it without its terms.
pub closed spec fn evaluation_of(m: BoardModel) -> int {
    evaluation(m)
}

/// Evaluate the board position and return a centipawn score from the
/// side-to-move's perspective (positive = good for the side to move).
///
/// The evaluation:
/// 1. Computes all terms from White's perspective as packed [`Score`] values.
/// 2. Tapers the combined mg/eg values using the game phase.
/// 3. Flips the sign when Black is to move.
pub fn evaluate(board: &Board) -> (r: i32)
    requires
        evaluable(board.view()),
    ensures
        r == evaluation(board.view()),
        r == evaluation_of(board.view()),
        -32768 <= r <= 32768,
{
    let white_score = evaluate_white(board);
    let phase = game_phase(board);
    proof {
        lemma_taper_fits(white_score.view(), phase as int);
    }
    let t = taper(white_score, phase);
    match board.side_to_move() {
        Color::White => t,
        Color::Black => -t,
    }
}

/// A phase in `0..=MAX_PHASE` keeps the taper within 32 bits, and its result
/// within 16 bits.
proof fn lemma_taper_fits(w: i32, phase: int)
    requires
        0 <= phase <= MAX_PHASE,
    ensures
        taper_fits(w, phase),
        -32768 <= tapered(w, phase) <= 32767,
{
    let mg = unpack_mg(w) as int;
    let eg = unpack_eg(w) as int;
    assert(-32768 * 24 <= mg * phase + eg * (24 - phase) <= 32767 * 24) by (nonlinear_arith)
        requires
            -32768 <= mg <= 32767,
            -32768 <= eg <= 32767,
            0 <= phase <= 24,
    ;
    assert(-32768 * 24 <= mg * phase <= 32767 * 24) by (nonlinear_arith)
        requires
            -32768 <= mg <= 32767,
            0 <= phase <= 24,
    ;
    assert(-32768 * 24 <= eg * (24 - phase) <= 32767 * 24) by (nonlinear_arith)
        requires
            -32768 <= eg <= 32767,
            0 <= phase <= 24,
    ;
}

/// Taper a packed Score into a single centipawn value using the game phase.
///
/// Formula: `(mg * phase + eg * (MAX_PHASE - phase)) / MAX_PHASE`
pub fn taper(score: Score, phase: i32) -> (r: i32)
    requires
        taper_fits(score.view(), phase as int),
    ensures
        r == tapered(score.view(), phase as int),
{
    let mg = score.mg() as i32;
    let eg = score.eg() as i32;
    div_toward_zero(mg * phase + eg * (MAX_PHASE - phase), MAX_PHASE)
}

/// Compute the total evaluation from White's perspective as a packed Score.
///
/// Sums material, piece-square tables, pawn structure, mobility, and
/// king safety.
pub fn evaluate_white(board: &Board) -> (r: Score)
    requires
        evaluable(board.view()),
    ensures
        r.view() == white_word(board.view()),
{
    let mut score = Score::ZERO();
    score = score + material(board);
    score = score + pst_total(board);
    score = score + evaluate_pawns(board);
    score = score + evaluate_mobility(board);
    score = score + evaluate_king_safety(board);
    score
}

} // verus!
