use cesso::board::Board;
use cesso::color::Color;
use cesso::eval::king_safety::evaluate_king_safety;
use cesso::eval::material::{material, BISHOP_PAIR_BONUS, MATERIAL_VALUE};
use cesso::eval::mobility::evaluate_mobility;
use cesso::eval::outposts::evaluate_outposts;
use cesso::eval::rooks::evaluate_rooks;
use cesso::eval::pawns::evaluate_pawns;
use cesso::eval::phase::{game_phase, MAX_PHASE};
use cesso::eval::pst::{pst_total, pst_value};
use cesso::eval::score::{Score, S};
use cesso::eval::{evaluate, evaluate_white, taper};
use cesso::piece_kind::PieceKind;
use cesso::square::Square;

fn parse(fen: &str) -> Board {
    fen.parse::<Board>().unwrap()
}

// --- phase ---

#[test]
fn starting_position_is_max_phase() {
    let board = Board::starting_position();
    assert_eq!(game_phase(&board), MAX_PHASE);
}

#[test]
fn bare_kings_is_zero_phase() {
    let board = parse("8/8/4k3/8/8/4K3/8/8 w - - 0 1");
    assert_eq!(game_phase(&board), 0);
}

#[test]
fn missing_one_queen_is_20() {
    let board = parse("rnbqkbnr/pppppppp/8/8/8/8/PPPPPPPP/RNB1KBNR w KQkq - 0 1");
    assert_eq!(game_phase(&board), 20);
}

#[test]
fn phase_is_capped_with_promoted_queens() {
    // Three white queens and the full black army: 24 + 8 raw, capped at 24.
    let board = parse("rnbqkbnr/pppppppp/8/8/8/8/QQ6/RNBQKBNR w KQkq - 0 1");
    assert_eq!(game_phase(&board), MAX_PHASE);
    // Only rooks: 2 + 2.
    let board = parse("r3k3/8/8/8/8/8/8/R3K3 w - - 0 1");
    assert_eq!(game_phase(&board), 4);
}

// --- material ---

#[test]
fn material_starting_position_is_zero() {
    let board = Board::starting_position();
    assert_eq!(material(&board), Score::ZERO());
}

#[test]
fn missing_black_queen_gives_queen_advantage() {
    let board = parse("rnb1kbnr/pppppppp/8/8/8/8/PPPPPPPP/RNBQKBNR w KQkq - 0 1");
    let score = material(&board);
    let queen_value = MATERIAL_VALUE()[PieceKind::Queen.index()];
    assert_eq!(score, queen_value);
}

#[test]
fn missing_black_queen_mg_eg() {
    let board = parse("rnb1kbnr/pppppppp/8/8/8/8/PPPPPPPP/RNBQKBNR w KQkq - 0 1");
    let score = material(&board);
    assert_eq!(score.mg(), 900);
    assert_eq!(score.eg(), 950);
}

#[test]
fn bishop_pair_bonus_white_only() {
    let board = parse("rn1qk1nr/pppppppp/8/8/8/8/PPPPPPPP/RNBQKBNR w KQkq - 0 1");
    let score = material(&board);
    let bishop_value = MATERIAL_VALUE()[PieceKind::Bishop.index()];
    let expected = bishop_value * 2 + BISHOP_PAIR_BONUS();
    assert_eq!(score, expected);
}

#[test]
fn bishop_pair_bonus_both_sides_cancels() {
    let board = Board::starting_position();
    let score = material(&board);
    assert_eq!(score, Score::ZERO());
}

#[test]
fn extra_white_rook() {
    let board = parse("1nbqkbnr/pppppppp/8/8/8/8/PPPPPPPP/RNBQKBNR w KQkq - 0 1");
    let score = material(&board);
    let rook_value = MATERIAL_VALUE()[PieceKind::Rook.index()];
    assert_eq!(score, rook_value);
}

#[test]
fn score_is_negated_when_black_is_ahead() {
    let board = parse("rnbqkbnr/pppppppp/8/8/8/8/PPPPPPPP/RNB1KBNR w KQkq - 0 1");
    let score = material(&board);
    let queen_value = MATERIAL_VALUE()[PieceKind::Queen.index()];
    assert_eq!(score, -queen_value);
}

#[test]
fn material_value_table_king_is_zero() {
    assert_eq!(MATERIAL_VALUE()[PieceKind::King.index()], S(0, 0));
}

#[test]
fn material_value_table_entries() {
    let values = MATERIAL_VALUE();
    assert_eq!(values[PieceKind::Pawn.index()], S(100, 120));
    assert_eq!(values[PieceKind::Knight.index()], S(320, 310));
    assert_eq!(values[PieceKind::Bishop.index()], S(330, 320));
    assert_eq!(values[PieceKind::Rook.index()], S(500, 520));
    assert_eq!(BISHOP_PAIR_BONUS(), S(50, 60));
}

#[test]
fn bishop_pair_bonus_black_only() {
    // White lost both bishops: Black is two bishops up plus the pair bonus.
    let board = parse("rnbqkbnr/pppppppp/8/8/8/8/PPPPPPPP/RN1QK1NR w KQkq - 0 1");
    assert_eq!(material(&board), S(-710, -700));
}

// --- piece-square tables ---

#[test]
fn pawn_white_e4() {
    let score = pst_value(PieceKind::Pawn, Color::White, Square::E4);
    assert_eq!(score.mg(), 20);
    assert_eq!(score.eg(), 20);
}

#[test]
fn pawn_black_e5_mirrors_white_e4() {
    let white_e4 = pst_value(PieceKind::Pawn, Color::White, Square::E4);
    let black_e5 = pst_value(PieceKind::Pawn, Color::Black, Square::E5);
    assert_eq!(white_e4, black_e5);
}

#[test]
fn knight_a1_h1_symmetric() {
    let a1 = pst_value(PieceKind::Knight, Color::White, Square::A1);
    let h1 = pst_value(PieceKind::Knight, Color::White, Square::H1);
    assert_eq!(a1, h1);
}

#[test]
fn bishop_a1_h1_symmetric() {
    let a1 = pst_value(PieceKind::Bishop, Color::White, Square::A1);
    let h1 = pst_value(PieceKind::Bishop, Color::White, Square::H1);
    assert_eq!(a1, h1);
}

#[test]
fn black_rank1_mirrors_white_rank8() {
    let black_a1 = pst_value(PieceKind::King, Color::Black, Square::A1);
    let white_a8 = pst_value(PieceKind::King, Color::White, Square::A8);
    assert_eq!(black_a1, white_a8);
}

#[test]
fn pst_exact_entries() {
    assert_eq!(pst_value(PieceKind::King, Color::White, Square::G1), S(30, -10));
    assert_eq!(pst_value(PieceKind::Queen, Color::Black, Square::D8), S(-5, -5));
    assert_eq!(pst_value(PieceKind::Rook, Color::White, Square::A7), S(5, 10));
    assert_eq!(pst_value(PieceKind::Pawn, Color::Black, Square::A2), S(100, 200));
}

#[test]
fn pst_total_symmetric_start_is_zero() {
    assert_eq!(pst_total(&Board::starting_position()), Score::ZERO());
    // Lone kings: White king on e1 (0, 0), Black king on e8 mirrors to e1.
    let board = parse("4k3/8/8/8/8/8/8/4K3 w - - 0 1");
    assert_eq!(pst_total(&board), Score::ZERO());
    // White king moved to g1: S(30, -10) - S(0, 0).
    let board = parse("4k3/8/8/8/8/8/8/6K1 w - - 0 1");
    assert_eq!(pst_total(&board), S(30, -10));
}

// --- pawns ---

#[test]
fn starting_position_is_symmetric() {
    let board = parse("rnbqkbnr/pppppppp/8/8/8/8/PPPPPPPP/RNBQKBNR w KQkq - 0 1");
    assert_eq!(evaluate_pawns(&board), Score::ZERO());
}

#[test]
fn isolated_pawn_penalty() {
    let board = parse("4k3/8/8/8/4P3/8/8/4K3 w - - 0 1");
    let expected = S(20, 40) + S(-10, -20);
    assert_eq!(evaluate_pawns(&board), expected);
}

#[test]
fn doubled_pawn_penalty() {
    let board = parse("4k3/8/8/8/4P3/4P3/8/4K3 w - - 0 1");
    let expected = S(-10, -15) + S(10, 20) + S(-10, -20) + S(20, 40) + S(-10, -20);
    assert_eq!(evaluate_pawns(&board), expected);
}

#[test]
fn passed_pawn_bonus() {
    let board = parse("4k3/8/8/4P3/8/8/8/4K3 w - - 0 1");
    let expected = S(40, 70) + S(-10, -20);
    assert_eq!(evaluate_pawns(&board), expected);
}

#[test]
fn backward_pawn_penalty() {
    let board = parse("4k3/8/8/8/3p1P2/8/4P3/4K3 w - - 0 1");
    let white_score = S(-15, -10) + S(20, 40);
    let black_score = S(-10, -20);
    assert_eq!(evaluate_pawns(&board), white_score - black_score);
}

#[test]
fn supported_passed_and_connected_pawns() {
    // White d4 and e5 with no black pawns: both passed; e5 is defended by d4
    // (supported and connected), d4 is not isolated (e-file neighbour).
    let board = parse("4k3/8/8/4P3/3P4/8/8/4K3 w - - 0 1");
    // d4: passed rank 3 S(20,40); no rear support (e5 ahead) and no stop guard.
    // e5: passed rank 4 S(40,70) + supported S(15,25) + connected S(5,8).
    let expected = S(20, 40) + S(40, 70) + S(15, 25) + S(5, 8);
    assert_eq!(evaluate_pawns(&board), expected);
}

// --- mobility ---

#[test]
fn mobility_starting_position_is_zero() {
    let board = Board::starting_position();
    let score = evaluate_mobility(&board);
    assert_eq!(score.mg(), 0);
    assert_eq!(score.eg(), 0);
}

#[test]
fn after_e4_nf6_white_advantage() {
    let board = parse("rnbqkb1r/pppppppp/5n2/8/4P3/8/PPPP1PPP/RNBQKBNR w KQkq - 1 2");
    let score = evaluate_mobility(&board);
    assert!(score.mg() > 0, "expected positive mg mobility, got {}", score.mg());
}

#[test]
fn open_rook_gives_positive_score() {
    let board = parse("r3k3/8/8/8/4R3/8/8/4K3 w - - 0 1");
    let score = evaluate_mobility(&board);
    assert!(score.mg() > 0, "expected positive mg mobility, got {}", score.mg());
}

#[test]
fn mobility_exact_rook_count() {
    // White rook e4 sees 14 squares minus e1 (own king): 13 safe squares.
    // Black rook a8 sees a1..a7 (7) and b8..d8 (3), e8 holds its king: 10.
    let board = parse("r3k3/8/8/8/4R3/8/8/4K3 w - - 0 1");
    assert_eq!(evaluate_mobility(&board), S(2 * 13 - 2 * 10, 3 * 13 - 3 * 10));
}

// --- king safety ---

#[test]
fn king_safety_starting_position_is_zero() {
    let board = Board::starting_position();
    assert_eq!(evaluate_king_safety(&board), Score::ZERO());
}

#[test]
fn missing_white_shield_pawn_negative() {
    let board = parse("4k3/pppppppp/8/8/8/8/PPPPP1PP/6K1 w - - 0 1");
    let score = evaluate_king_safety(&board);
    assert!(score.mg() < 0, "missing shield pawn should penalize White, got mg={}", score.mg());
}

#[test]
fn open_file_near_king_penalizes() {
    let board = parse("4k3/pppppp1p/8/8/8/8/PPPPPP1P/6K1 w - - 0 1");
    let score = evaluate_king_safety(&board);
    assert!(score.mg() < 0, "open file near king should penalize, got mg={}", score.mg());
}

#[test]
fn attacker_zone_danger_with_queen() {
    let board = parse("4k3/8/8/8/8/5q2/5PPP/6KR b - - 0 1");
    let score = evaluate_king_safety(&board);
    let _ = score;
}

#[test]
fn king_safety_exact_shield_and_files() {
    // White king g1 with the f2 pawn missing; Black king e8 with a full shield.
    // White: one missing shield pawn S(-30, 0); the f-file holds only Black's
    // f7 pawn, so it is semi-open for White: S(-15, 0). No queens, no storm.
    let board = parse("4k3/pppppppp/8/8/8/8/PPPPP1PP/6K1 w - - 0 1");
    let score = evaluate_king_safety(&board);
    assert_eq!(score, S(-30 - 15, 0));
}

// --- orchestration ---

#[test]
fn mod_starting_position_near_zero() {
    let board = Board::starting_position();
    let score = evaluate(&board);
    assert!(score.abs() <= 50, "starting position should be near 0, got {score}");
}

#[test]
fn extra_white_queen_is_positive() {
    let board = parse("rnb1kbnr/pppppppp/8/8/8/8/PPPPPPPP/RNBQKBNR w KQkq - 0 1");
    let score = evaluate(&board);
    assert!(score > 500, "extra queen should give White a large advantage, got {score}");
}

#[test]
fn extra_white_queen_black_to_move() {
    let board = parse("rnb1kbnr/pppppppp/8/8/8/8/PPPPPPPP/RNBQKBNR b KQkq - 0 1");
    let score = evaluate(&board);
    assert!(score < -500, "extra queen for opponent should give Black a negative score, got {score}");
}

#[test]
fn endgame_uses_eg_values() {
    let board = parse("4k3/pppppppp/8/8/8/8/PPPPPPPP/4K3 w - - 0 1");
    let score = evaluate(&board);
    assert!(score.abs() <= 50, "symmetric KP endgame should be near 0, got {score}");
}

#[test]
fn taper_function_works() {
    let s = S(100, 50);
    assert_eq!(taper(s, MAX_PHASE), 100);
    assert_eq!(taper(s, 0), 50);
    assert_eq!(taper(s, 12), 75);
}

#[test]
fn taper_rounds_toward_zero() {
    // (-1 * 1 + 0 * 23) / 24 rounds to 0, not -1.
    assert_eq!(taper(S(-1, 0), 1), 0);
    assert_eq!(taper(S(-25, -25), 12), -25);
}

#[test]
fn evaluation_flips_with_side_to_move() {
    let w = parse("rnb1kbnr/pppppppp/8/8/8/8/PPPPPPPP/RNBQKBNR w KQkq - 0 1");
    let b = parse("rnb1kbnr/pppppppp/8/8/8/8/PPPPPPPP/RNBQKBNR b KQkq - 0 1");
    assert_eq!(evaluate(&w), -evaluate(&b));
    assert_eq!(evaluate_white(&w), evaluate_white(&b));
}

// --- rooks ---

#[test]
fn rooks_starting_position_is_zero() {
    let board = Board::starting_position();
    let score = evaluate_rooks(&board);
    assert_eq!(score.mg(), 0);
    assert_eq!(score.eg(), 0);
}

#[test]
fn rook_on_open_file() {
    let board = parse("4k3/pppp1ppp/8/8/8/8/PPPP1PPP/4RK2 w - - 0 1");
    let score = evaluate_rooks(&board);
    assert!(score.mg() > 0, "rook on open file should be positive, got {}", score.mg());
}

#[test]
fn rook_on_seventh() {
    let board = parse("4k3/3R4/8/8/8/8/8/4K3 w - - 0 1");
    let score = evaluate_rooks(&board);
    assert!(score.mg() > 0, "rook on 7th should be positive, got {}", score.mg());
}

#[test]
fn rook_exact_terms() {
    // d7 rook: open d-file S(25, 15) plus seventh rank S(20, 30).
    let board = parse("4k3/3R4/8/8/8/8/8/4K3 w - - 0 1");
    assert_eq!(evaluate_rooks(&board), S(45, 45));
    // e1 rook with only a black e-pawn: semi-open S(15, 10).
    let board = parse("4k3/4p3/8/8/8/8/8/4RK2 w - - 0 1");
    assert_eq!(evaluate_rooks(&board), S(15, 10));
}

// --- outposts ---

#[test]
fn outposts_starting_position_is_zero() {
    let board = Board::starting_position();
    let score = evaluate_outposts(&board);
    assert_eq!(score.mg(), 0);
    assert_eq!(score.eg(), 0);
}

#[test]
fn knight_outpost_positive() {
    let board = parse("4k3/pp1p1ppp/8/3N4/4P3/8/PPP2PPP/4K3 w - - 0 1");
    let score = evaluate_outposts(&board);
    assert!(score.mg() > 0, "knight outpost should give positive score, got {}", score.mg());
}

#[test]
fn outpost_exact_terms() {
    // Supported knight outpost on d5: S(30, 20).
    let board = parse("4k3/pp1p1ppp/8/3N4/4P3/8/PPP2PPP/4K3 w - - 0 1");
    assert_eq!(evaluate_outposts(&board), S(30, 20));
    // A black c-pawn on c7 could attack d6 later: no outpost for a knight on d5? c7 is ahead of d5 on an adjacent file.
    let board = parse("4k3/ppp2ppp/8/3N4/4P3/8/PPP2PPP/4K3 w - - 0 1");
    assert_eq!(evaluate_outposts(&board), Score::ZERO());
}
