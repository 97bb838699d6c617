use cesso::board::Board;
use cesso::chess_move::{Move, MoveKind};
use cesso::movegen::generate_legal_moves;
use cesso::piece_kind::PieceKind;
use cesso::search::heuristics::{ContinuationHistory, HistoryTable, KillerTable, StackEntry};
use cesso::search::ordering::{lmr_reduction, score_move, MovePicker, ProbCutPicker, MVV_LVA};
use cesso::square::Square;

fn parse(fen: &str) -> Board {
    fen.parse::<Board>().unwrap()
}

#[test]
fn pawn_takes_queen_scores_higher_than_queen_takes_pawn() {
    assert!(MVV_LVA[PieceKind::Queen.index()][PieceKind::Pawn.index()]
        > MVV_LVA[PieceKind::Pawn.index()][PieceKind::Queen.index()]);
}

#[test]
fn lighter_attacker_preferred_for_same_victim() {
    let pxr = MVV_LVA[PieceKind::Rook.index()][PieceKind::Pawn.index()];
    let nxr = MVV_LVA[PieceKind::Rook.index()][PieceKind::Knight.index()];
    let qxr = MVV_LVA[PieceKind::Rook.index()][PieceKind::Queen.index()];
    assert!(pxr > nxr);
    assert!(nxr > qxr);
}

#[test]
fn queen_promotion_scores_highest() {
    let board = parse("7k/4P3/8/8/8/8/8/4K3 w - - 0 1");
    let moves = generate_legal_moves(&board);
    let mut max_score = i32::MIN;
    for mv in moves.as_slice() {
        let s = score_move(&board, *mv);
        if s > max_score {
            max_score = s;
        }
    }
    assert_eq!(max_score, 200);
}

#[test]
fn en_passant_scores_correctly() {
    let board = parse("rnbqkbnr/ppp1pppp/8/3pP3/8/8/PPPP1PPP/RNBQKBNR w KQkq d6 0 3");
    let moves = generate_legal_moves(&board);
    let ep_move = moves.as_slice().iter().find(|m| m.kind() == MoveKind::EnPassant);
    assert!(ep_move.is_some(), "should have en passant move available");
    assert_eq!(score_move(&board, *ep_move.unwrap()), 15);
}

#[test]
fn qsearch_picker_empty_on_starting_position() {
    let board = Board::starting_position();
    let moves = generate_legal_moves(&board);
    let mut picker = MovePicker::new_qsearch(&moves, &board);
    assert!(picker.pick_next().is_none());
}

#[test]
fn picker_yields_all_moves_in_starting_position() {
    let board = Board::starting_position();
    let moves = generate_legal_moves(&board);
    let cont_hist = ContinuationHistory::new();
    let stack = [StackEntry::EMPTY(); 128];
    let mut picker = MovePicker::new(
        &moves,
        &board,
        Move::NULL(),
        &KillerTable::new(),
        &HistoryTable::new(),
        &cont_hist,
        &stack,
        0,
    );
    let mut count = 0;
    while picker.pick_next().is_some() {
        count += 1;
    }
    assert_eq!(count, 20);
}

#[test]
fn picker_yields_captures_before_quiet() {
    let board = parse("4k3/8/8/4p3/3Q4/8/8/4K3 w - - 0 1");
    let moves = generate_legal_moves(&board);
    let cont_hist = ContinuationHistory::new();
    let stack = [StackEntry::EMPTY(); 128];
    let mut picker = MovePicker::new(
        &moves,
        &board,
        Move::NULL(),
        &KillerTable::new(),
        &HistoryTable::new(),
        &cont_hist,
        &stack,
        0,
    );
    let first = picker.pick_next().unwrap();
    assert!(board.piece_on(first.dest()).is_some(), "first move from picker should be a capture");
}

#[test]
fn tt_move_yielded_first() {
    let board = Board::starting_position();
    let moves = generate_legal_moves(&board);
    let tt_move = moves.get(10);
    let cont_hist = ContinuationHistory::new();
    let stack = [StackEntry::EMPTY(); 128];
    let mut picker = MovePicker::new(
        &moves,
        &board,
        tt_move,
        &KillerTable::new(),
        &HistoryTable::new(),
        &cont_hist,
        &stack,
        0,
    );
    let first = picker.pick_next().unwrap();
    assert_eq!(first, tt_move, "TT move should be yielded first");
}

#[test]
fn probcut_picker_filters_by_see() {
    let board = parse("4k3/8/8/4p3/3Q4/8/8/4K3 w - - 0 1");
    let moves = generate_legal_moves(&board);
    let mut picker = ProbCutPicker::new(&moves, &board, 0);
    let mut count = 0;
    while picker.pick_next().is_some() {
        count += 1;
    }
    assert!(count >= 1, "should have at least one good capture");
}

#[test]
fn lmr_reduction_increases_with_depth_and_move_count() {
    let r_low = lmr_reduction(2, 3);
    let r_high = lmr_reduction(10, 10);
    assert!(r_high > r_low, "deeper searches with more moves should reduce more");
    assert!(r_low > 0, "should have some reduction at depth 3, move 2");
}

#[test]
fn lmr_reduction_exact_values() {
    assert_eq!(lmr_reduction(0, 5), 0);
    assert_eq!(lmr_reduction(5, 0), 0);
    assert_eq!(lmr_reduction(1, 1), 778);
    assert_eq!(lmr_reduction(2, 3), 1114);
    assert_eq!(lmr_reduction(10, 10), 3118);
    // Indices and depths beyond 63 read the last row and column.
    assert_eq!(lmr_reduction(500, 900), lmr_reduction(63, 63));
    assert_eq!(lmr_reduction(63, 63), 8354);
}

#[test]
fn score_move_exact_bands() {
    // Qd4xe5 wins a pawn: 1000 + MVV_LVA[pawn][queen] = 1007.
    let board = parse("4k3/8/8/4p3/3Q4/8/8/4K3 w - - 0 1");
    let capture = Move::new(Square::D4, Square::E5);
    assert_eq!(score_move(&board, capture), 1007);
    // A quiet queen move scores 0.
    assert_eq!(score_move(&board, Move::new(Square::D4, Square::D5)), 0);
    // Defended pawn: Qxe5 loses the queen for a pawn: -10000 + (100 - 900).
    let board = parse("4k3/8/5p2/4p3/3Q4/8/8/4K3 w - - 0 1");
    assert_eq!(score_move(&board, capture), -10000 + 100 - 900);
}

#[test]
fn picker_yields_in_descending_score_order() {
    // Several captures of different value: the picker yields them best first,
    // every move exactly once.
    let board = parse("4k3/8/2r1q3/3P4/8/8/8/K7 w - - 0 1");
    let moves = generate_legal_moves(&board);
    let mut picker = MovePicker::new_qsearch(&moves, &board);
    let first = picker.pick_next().unwrap();
    let second = picker.pick_next().unwrap();
    assert_eq!(first, Move::new(Square::D5, Square::E6));
    assert_eq!(second, Move::new(Square::D5, Square::C6));
    assert!(score_move(&board, first) >= score_move(&board, second));
    assert!(picker.pick_next().is_none());
}
