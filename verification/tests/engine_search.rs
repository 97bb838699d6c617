use cesso::board::Board;
use cesso::chess_move::{Move, MoveKind};
use cesso::color::Color;
use cesso::eval::score::{Score, S};
use cesso::movegen::generate_legal_moves;
use cesso::piece_kind::PieceKind;
use cesso::search::draw::{decide_draw, DrawDecision};
use cesso::search::heuristics::{
    apply_gravity, ContHistIndex, ContinuationHistory, CorrectionHistory, HistoryTable, KillerTable, StackEntry,
    HISTORY_MAX,
};
use cesso::search::see::{see, see_ge};
use cesso::search::tt::{score_from_tt, score_to_tt, Bound, TranspositionTable};
use cesso::square::Square;

// --- Score ---

#[test]
fn roundtrip_positive() {
    let s = S(100, 200);
    assert_eq!(s.mg(), 100);
    assert_eq!(s.eg(), 200);
}

#[test]
fn roundtrip_negative() {
    let s = S(-50, -30);
    assert_eq!(s.mg(), -50);
    assert_eq!(s.eg(), -30);
}

#[test]
fn mixed_signs_pos_mg_neg_eg() {
    let s = S(100, -50);
    assert_eq!(s.mg(), 100);
    assert_eq!(s.eg(), -50);
}

#[test]
fn mixed_signs_neg_mg_pos_eg() {
    let s = S(-100, 50);
    assert_eq!(s.mg(), -100);
    assert_eq!(s.eg(), 50);
}

#[test]
fn addition() {
    assert_eq!(S(10, 20) + S(30, 40), S(40, 60));
}

#[test]
fn subtraction() {
    assert_eq!(S(50, 60) - S(10, 20), S(40, 40));
}

#[test]
fn negation() {
    assert_eq!(-S(10, -20), S(-10, 20));
}

#[test]
fn multiply_positive_scalar() {
    assert_eq!(S(10, 20) * 3, S(30, 60));
}

#[test]
fn multiply_negative_scalar() {
    assert_eq!(S(10, 20) * -2, S(-20, -40));
}

#[test]
fn zero_constant() {
    assert_eq!(Score::ZERO().mg(), 0);
    assert_eq!(Score::ZERO().eg(), 0);
}

#[test]
fn boundary_max() {
    let s = S(i16::MAX, i16::MAX);
    assert_eq!(s.mg(), i16::MAX);
    assert_eq!(s.eg(), i16::MAX);
}

#[test]
fn boundary_min() {
    let s = S(i16::MIN, i16::MIN);
    assert_eq!(s.mg(), i16::MIN);
    assert_eq!(s.eg(), i16::MIN);
}

#[test]
fn boundary_mixed() {
    let s = S(i16::MAX, i16::MIN);
    assert_eq!(s.mg(), i16::MAX);
    assert_eq!(s.eg(), i16::MIN);
}

#[test]
fn add_assign() {
    let mut s = S(1, 2);
    s += S(3, 4);
    assert_eq!(s, S(4, 6));
}

// --- Draw decisions ---

#[test]
fn accept_when_losing_and_offered() {
    assert_eq!(decide_draw(-100, 0, 12, true), DrawDecision::Accept);
}

#[test]
fn accept_when_equal_and_zero_contempt() {
    assert_eq!(decide_draw(0, 0, 12, true), DrawDecision::Accept);
}

#[test]
fn accept_with_positive_contempt_only_when_losing_enough() {
    assert_eq!(decide_draw(-50, 50, 12, true), DrawDecision::Accept);
    assert_eq!(decide_draw(-100, 50, 12, true), DrawDecision::Accept);
}

#[test]
fn decline_when_winning_despite_offer() {
    assert_eq!(decide_draw(0, 50, 12, true), DrawDecision::PlayOn);
    assert_eq!(decide_draw(100, 0, 12, true), DrawDecision::PlayOn);
}

#[test]
fn accept_with_negative_contempt_generous() {
    assert_eq!(decide_draw(50, -50, 12, true), DrawDecision::Accept);
    assert_eq!(decide_draw(0, -50, 12, true), DrawDecision::Accept);
    assert_eq!(decide_draw(-100, -50, 12, true), DrawDecision::Accept);
}

#[test]
fn decline_with_negative_contempt_too_much_advantage() {
    assert_eq!(decide_draw(60, -50, 12, true), DrawDecision::PlayOn);
}

#[test]
fn offer_in_endgame_near_equal_zero_contempt() {
    assert_eq!(decide_draw(0, 0, 6, false), DrawDecision::Offer);
    assert_eq!(decide_draw(5, 0, 4, false), DrawDecision::Offer);
    assert_eq!(decide_draw(-10, 0, 0, false), DrawDecision::Offer);
}

#[test]
fn offer_with_negative_contempt() {
    assert_eq!(decide_draw(0, -50, 6, false), DrawDecision::Offer);
}

#[test]
fn no_offer_with_positive_contempt() {
    assert_eq!(decide_draw(0, 1, 6, false), DrawDecision::PlayOn);
}

#[test]
fn no_offer_in_middlegame() {
    assert_eq!(decide_draw(0, 0, 7, false), DrawDecision::PlayOn);
    assert_eq!(decide_draw(0, 0, 24, false), DrawDecision::PlayOn);
}

#[test]
fn no_offer_when_not_near_equal() {
    assert_eq!(decide_draw(11, 0, 6, false), DrawDecision::PlayOn);
    assert_eq!(decide_draw(-11, 0, 6, false), DrawDecision::PlayOn);
}

#[test]
fn no_offer_when_opponent_already_offered() {
    assert_eq!(decide_draw(0, 0, 6, true), DrawDecision::Accept);
}

#[test]
fn play_on_when_winning_no_offer() {
    assert_eq!(decide_draw(200, 0, 12, false), DrawDecision::PlayOn);
}

#[test]
fn play_on_default() {
    assert_eq!(decide_draw(50, 50, 12, false), DrawDecision::PlayOn);
}

// --- Heuristics ---

#[test]
fn killer_store_and_check() {
    let mut kt = KillerTable::new();
    let mv1 = Move::new(Square::E2, Square::E4);
    let mv2 = Move::new(Square::D2, Square::D4);
    kt.store(5, mv1);
    assert!(kt.is_killer(5, mv1));
    assert!(!kt.is_killer(5, mv2));
    kt.store(5, mv2);
    assert!(kt.is_killer(5, mv1));
    assert!(kt.is_killer(5, mv2));
}

#[test]
fn killer_same_move_no_shift() {
    let mut kt = KillerTable::new();
    let mv1 = Move::new(Square::E2, Square::E4);
    let mv2 = Move::new(Square::D2, Square::D4);
    kt.store(0, mv1);
    kt.store(0, mv2);
    kt.store(0, mv2);
    assert!(kt.is_killer(0, mv1));
    assert!(kt.is_killer(0, mv2));
}

#[test]
fn killer_different_plies_independent() {
    let mut kt = KillerTable::new();
    let mv = Move::new(Square::E2, Square::E4);
    kt.store(3, mv);
    assert!(kt.is_killer(3, mv));
    assert!(!kt.is_killer(4, mv));
}

#[test]
fn history_update_and_score() {
    let mut ht = HistoryTable::new();
    assert_eq!(ht.score(PieceKind::Knight, 20), 0);
    ht.update(PieceKind::Knight, 20, 16);
    assert!(ht.score(PieceKind::Knight, 20) > 0);
    ht.update(PieceKind::Knight, 20, -9);
}

#[test]
fn history_gravity_bounded() {
    let mut ht = HistoryTable::new();
    for _ in 0..200 {
        ht.update(PieceKind::Pawn, 0, 100);
    }
    assert!(ht.score(PieceKind::Pawn, 0) <= HISTORY_MAX);
    assert!(ht.score(PieceKind::Pawn, 0) > 0);
    for _ in 0..400 {
        ht.update(PieceKind::Pawn, 0, -100);
    }
    assert!(ht.score(PieceKind::Pawn, 0) >= -HISTORY_MAX);
}

#[test]
fn apply_gravity_converges() {
    let mut entry = 0i32;
    for _ in 0..1000 {
        apply_gravity(&mut entry, 400);
    }
    assert!(entry > HISTORY_MAX / 2);
    assert!(entry <= HISTORY_MAX);
}

#[test]
fn stack_entry_empty_is_zeroed() {
    let entry = StackEntry::EMPTY();
    assert_eq!(entry.static_eval, 0);
    assert!(entry.current_move.is_null());
    assert_eq!(entry.moved_piece, PieceKind::Pawn);
    assert!(entry.excluded_move.is_null());
    assert_eq!(entry.cutoff_count, 0);
    assert!(entry.cont_hist_index.is_none());
}

#[test]
fn cont_hist_entry_read_write() {
    let mut ch = ContinuationHistory::new();
    let idx = ContHistIndex { side: Color::White, piece: PieceKind::Knight, to: Square::from_index(28).unwrap() };
    assert_eq!(ch.entry(&idx).score(PieceKind::Pawn, 20), 0);
    *ch.entry_mut(&idx).entry_mut(PieceKind::Pawn, 20) = 42;
    assert_eq!(ch.entry(&idx).score(PieceKind::Pawn, 20), 42);
}

#[test]
fn correction_history_zeroed_gives_no_correction() {
    let ch = CorrectionHistory::new();
    let corrected = ch.correct_eval(Color::White, 0x1234, 0x5678, 0x9ABC, 0xDEF0, 0x1111, None, None, 100);
    assert_eq!(corrected, 100, "zeroed correction should not modify eval");
}

#[test]
fn correction_history_update_then_correct() {
    let mut ch = CorrectionHistory::new();
    ch.update(Color::White, 0x1234, 0x5678, 0x9ABC, 0xDEF0, 0x1111, None, None, 200);
    let corrected = ch.correct_eval(Color::White, 0x1234, 0x5678, 0x9ABC, 0xDEF0, 0x1111, None, None, 100);
    assert!(corrected > 100, "positive correction should increase eval, got {corrected}");
}

// --- SEE ---

fn find_move(board: &Board, from: &str, to: &str) -> Move {
    let moves = generate_legal_moves(board);
    let from_sq = Square::from_algebraic(from).unwrap();
    let to_sq = Square::from_algebraic(to).unwrap();
    moves
        .as_slice()
        .iter()
        .find(|m| m.source() == from_sq && m.dest() == to_sq && m.kind() != MoveKind::Promotion)
        .copied()
        .unwrap_or_else(|| {
            moves
                .as_slice()
                .iter()
                .find(|m| m.source() == from_sq && m.dest() == to_sq)
                .copied()
                .expect("move not found")
        })
}

#[test]
fn pawn_takes_undefended_knight() {
    let board: Board = "4k3/8/8/3n4/4P3/8/8/4K3 w - - 0 1".parse().unwrap();
    let mv = find_move(&board, "e4", "d5");
    assert_eq!(see(&board, mv), 320);
}

#[test]
fn pawn_takes_defended_knight() {
    let board: Board = "4k3/8/4p3/3n4/4P3/8/8/4K3 w - - 0 1".parse().unwrap();
    let mv = find_move(&board, "e4", "d5");
    assert_eq!(see(&board, mv), 220);
}

#[test]
fn queen_takes_defended_pawn_loses() {
    let board: Board = "4k3/8/3p4/2p5/8/4Q3/8/4K3 w - - 0 1".parse().unwrap();
    let mv = find_move(&board, "e3", "c5");
    assert!(see(&board, mv) < 0);
}

#[test]
fn equal_trade() {
    let board: Board = "4k3/8/8/3n4/8/4N3/8/4K3 w - - 0 1".parse().unwrap();
    let mv = find_move(&board, "e3", "d5");
    assert_eq!(see(&board, mv), 320);
}

#[test]
fn see_ge_threshold() {
    let board: Board = "4k3/8/8/3n4/4P3/8/8/4K3 w - - 0 1".parse().unwrap();
    let mv = find_move(&board, "e4", "d5");
    assert!(see_ge(&board, mv, 0));
    assert!(see_ge(&board, mv, 300));
    assert!(!see_ge(&board, mv, 400));
}

// --- Transposition table ---

#[test]
fn store_and_probe_roundtrip() {
    let tt = TranspositionTable::new(1);
    let hash: u64 = 0xDEAD_BEEF_1234_5678;
    let mv = Move::new(Square::E2, Square::E4);
    tt.store(hash, 5, 100, 50, mv, Bound::Exact, 0, false);
    let result = tt.probe(hash, 0).expect("should find stored entry");
    assert_eq!(result.best_move, mv);
    assert_eq!(result.depth, 5);
    assert_eq!(result.bound, Bound::Exact);
    assert_eq!(result.score, 100);
    assert_eq!(result.eval, 50);
}

#[test]
fn probe_miss_returns_none() {
    let tt = TranspositionTable::new(1);
    assert!(tt.probe(0x1234_5678_9ABC_DEF0, 0).is_none());
}

#[test]
fn mate_score_adjustment_roundtrip() {
    let mate_score = 29_000 - 3;
    let ply: u8 = 5;
    let tt_score = score_to_tt(mate_score, ply);
    let restored = score_from_tt(tt_score, ply);
    assert_eq!(restored, mate_score);
}

#[test]
fn negative_mate_score_adjustment_roundtrip() {
    let mated_score = -(29_000 - 3);
    let ply: u8 = 7;
    let tt_score = score_to_tt(mated_score, ply);
    let restored = score_from_tt(tt_score, ply);
    assert_eq!(restored, mated_score);
}

#[test]
fn normal_score_not_adjusted() {
    let score = 150;
    let ply: u8 = 10;
    let tt_score = score_to_tt(score, ply);
    let restored = score_from_tt(tt_score, ply);
    assert_eq!(restored, score);
}

#[test]
fn generation_replacement_policy() {
    let tt = TranspositionTable::new(1);
    let hash: u64 = 0xAAAA_BBBB_CCCC_DDDD;
    let mv1 = Move::new(Square::E2, Square::E4);
    let mv2 = Move::new(Square::D2, Square::D4);
    tt.store(hash, 10, 100, 50, mv1, Bound::Exact, 0, false);
    tt.new_generation();
    tt.store(hash, 1, 200, 60, mv2, Bound::LowerBound, 0, false);
    let result = tt.probe(hash, 0).unwrap();
    assert_eq!(result.best_move, mv2);
    assert_eq!(result.score, 200);
}

#[test]
fn depth_replacement_policy() {
    let tt = TranspositionTable::new(1);
    let hash: u64 = 0x1111_2222_3333_4444;
    let mv1 = Move::new(Square::E2, Square::E4);
    let mv2 = Move::new(Square::D2, Square::D4);
    tt.store(hash, 5, 100, 50, mv1, Bound::LowerBound, 0, false);
    tt.store(hash, 3, 200, 60, mv2, Bound::LowerBound, 0, false);
    let result = tt.probe(hash, 0).unwrap();
    assert_eq!(result.best_move, mv1);
}

#[test]
fn clear_removes_all_entries() {
    let tt = TranspositionTable::new(1);
    let hash: u64 = 0xAAAA_BBBB_CCCC_DDDD;
    let mv = Move::new(Square::E2, Square::E4);
    tt.store(hash, 5, 100, 50, mv, Bound::Exact, 0, false);
    assert!(tt.probe(hash, 0).is_some());
    tt.clear();
    assert!(tt.probe(hash, 0).is_none());
}

// --- Laws on concrete values ---

#[test]
fn score_pack_laws_concrete() {
    let a = S(-300, 250);
    let b = S(120, -400);
    assert_eq!((a + b).mg(), -180);
    assert_eq!((a + b).eg(), -150);
    assert_eq!((a - b).mg(), -420);
    assert_eq!((a - b).eg(), 650);
}

#[test]
fn gravity_stays_within_limit_concrete() {
    let mut entry = HISTORY_MAX;
    apply_gravity(&mut entry, HISTORY_MAX);
    assert_eq!(entry, HISTORY_MAX);
    let mut low = -HISTORY_MAX;
    apply_gravity(&mut low, -HISTORY_MAX);
    assert_eq!(low, -HISTORY_MAX);
}
