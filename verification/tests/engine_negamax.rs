use std::sync::atomic::{AtomicBool, Ordering};
use std::sync::Arc;

use cesso::board::Board;
use cesso::chess_move::Move;
use cesso::movegen::generate_legal_moves;
use cesso::search::control::SearchControl;
use cesso::search::heuristics::update_cont_history;
use cesso::search::heuristics::{ContHistIndex, ContinuationHistory, StackEntry};
use cesso::search::negamax::{
    aspiration_search, has_non_pawn_material, negamax, qsearch, NodeParams, SearchContext, SearchResult, INF,
    MATE_SCORE, MATE_THRESHOLD,
};
use cesso::search::pool::{run_helper, ThreadPool};
use cesso::search::searcher::Searcher;
use cesso::search::forced::forced_move;
use cesso::search::negamax::{no_move_score, node_terminal};
use cesso::search::tt::{entry_words, replaces_entry, Bound, TranspositionTable};
use cesso::color::Color;
use cesso::piece_kind::PieceKind;
use cesso::square::Square;

const SCHOLAR: &str = "r1bqkb1r/pppp1ppp/2n2n2/4p2Q/2B1P3/8/PPPP1PPP/RNB1K1NR w KQkq - 4 4";
const STALEMATE: &str = "k7/2K5/1Q6/8/8/8/8/8 b - - 0 1";
const MATED: &str = "7k/6Q1/5K2/8/8/8/8/8 b - - 0 1";

fn search_depth(searcher: &Searcher, board: &Board, depth: u8) -> SearchResult {
    let stopped = Arc::new(AtomicBool::new(false));
    let control = SearchControl::new_infinite(stopped);
    searcher.search(board, depth, &control).0
}

fn depths_of(searcher: &Searcher, board: &Board, depth: u8) -> Vec<u8> {
    let stopped = Arc::new(AtomicBool::new(false));
    let control = SearchControl::new_infinite(stopped);
    searcher.search(board, depth, &control).1.iter().map(|r| r.depth).collect()
}

#[test]
fn depth_1_returns_legal_move() {
    let board = Board::starting_position();
    let searcher = Searcher::new();
    let result = search_depth(&searcher, &board, 1);
    assert!(!result.best_move.is_null(), "should find a move at depth 1");
}

#[test]
fn finds_mate_in_one() {
    let board: Board = SCHOLAR.parse().unwrap();
    let searcher = Searcher::new();
    let result = search_depth(&searcher, &board, 2);
    assert_eq!(result.best_move.to_uci(), "h5f7");
    assert!(result.score > MATE_THRESHOLD, "score {} should indicate mate", result.score);
}

#[test]
fn stalemate_returns_zero() {
    let board: Board = STALEMATE.parse().unwrap();
    let searcher = Searcher::new();
    let result = search_depth(&searcher, &board, 1);
    assert_eq!(result.score, 0, "stalemate should score 0");
}

#[test]
fn mated_position_returns_negative() {
    let board: Board = MATED.parse().unwrap();
    let searcher = Searcher::new();
    let result = search_depth(&searcher, &board, 1);
    assert!(result.score < -MATE_THRESHOLD, "mated score {} should be deeply negative", result.score);
}

#[test]
fn iterative_deepening_calls_callback() {
    let board = Board::starting_position();
    let searcher = Searcher::new();
    assert_eq!(depths_of(&searcher, &board, 3), vec![1, 2, 3]);
}

#[test]
fn on_iter_never_emits_null_move() {
    let board = Board::starting_position();
    let searcher = Searcher::new();
    let stopped = Arc::new(AtomicBool::new(false));
    let control = SearchControl::new_infinite(stopped);
    let (_, reports) = searcher.search(&board, 4, &control);
    for report in &reports {
        assert!(!report.pv.is_empty() && !report.pv[0].is_null(), "report with empty PV or Move::NULL");
    }
}

#[test]
fn repeated_search_no_null_leak() {
    let board = Board::starting_position();
    let searcher = Searcher::new();
    let stopped1 = Arc::new(AtomicBool::new(false));
    let control1 = SearchControl::new_infinite(stopped1);
    for report in &searcher.search(&board, 3, &control1).1 {
        assert!(!report.pv.is_empty() && !report.pv[0].is_null(), "null move in first search report");
    }
    let stopped2 = Arc::new(AtomicBool::new(false));
    let control2 = SearchControl::new_infinite(stopped2);
    for report in &searcher.search(&board, 3, &control2).1 {
        assert!(!report.pv.is_empty() && !report.pv[0].is_null(), "null move in second search report (warm TT)");
    }
}

#[test]
fn stalemate_result_is_null() {
    let board: Board = STALEMATE.parse().unwrap();
    let searcher = Searcher::new();
    let result = search_depth(&searcher, &board, 1);
    assert!(result.best_move.is_null(), "stalemate should produce null best_move");
}

#[test]
fn checkmate_result_is_null() {
    let board: Board = MATED.parse().unwrap();
    let searcher = Searcher::new();
    let result = search_depth(&searcher, &board, 1);
    assert!(result.best_move.is_null(), "checkmate should produce null best_move");
}

#[test]
fn pv_has_multiple_moves_at_depth_4() {
    let board = Board::starting_position();
    let searcher = Searcher::new();
    let result = search_depth(&searcher, &board, 4);
    assert!(result.pv.len() >= 2, "PV at depth 4 should have at least 2 moves, got {}", result.pv.len());
}

#[test]
fn ponder_move_available_at_depth_4() {
    let board = Board::starting_position();
    let searcher = Searcher::new();
    let result = search_depth(&searcher, &board, 4);
    assert!(result.ponder_move.is_some(), "ponder move should be available at depth 4");
}

#[test]
fn pv_first_move_matches_best_move() {
    let board = Board::starting_position();
    let searcher = Searcher::new();
    let result = search_depth(&searcher, &board, 4);
    if !result.pv.is_empty() {
        assert_eq!(result.pv[0], result.best_move, "first PV move should match best_move");
    }
}

#[test]
fn nmp_still_finds_mate_in_one() {
    let board: Board = SCHOLAR.parse().unwrap();
    let searcher = Searcher::new();
    let result = search_depth(&searcher, &board, 4);
    assert_eq!(result.best_move.to_uci(), "h5f7", "NMP should not break mate-in-one");
    assert!(result.score > MATE_THRESHOLD);
}

#[test]
fn nmp_stalemate_still_zero() {
    let board: Board = STALEMATE.parse().unwrap();
    let searcher = Searcher::new();
    let result = search_depth(&searcher, &board, 4);
    assert_eq!(result.score, 0, "stalemate should still return 0 with NMP");
}

#[test]
fn lmr_still_finds_mate_in_one() {
    let board: Board = SCHOLAR.parse().unwrap();
    let searcher = Searcher::new();
    let result = search_depth(&searcher, &board, 5);
    assert_eq!(result.best_move.to_uci(), "h5f7", "LMR should not break mate-in-one");
    assert!(result.score > MATE_THRESHOLD);
}

#[test]
fn lmr_startpos_depth4_legal_move() {
    let board = Board::starting_position();
    let searcher = Searcher::new();
    let result = search_depth(&searcher, &board, 4);
    assert!(!result.best_move.is_null(), "LMR should return legal move from startpos");
}

#[test]
fn aspiration_fires_all_depths() {
    let board = Board::starting_position();
    let searcher = Searcher::new();
    assert_eq!(depths_of(&searcher, &board, 6), vec![1, 2, 3, 4, 5, 6], "aspiration should not skip depths");
}

#[test]
fn aspiration_mate_score_not_corrupted() {
    let board: Board = SCHOLAR.parse().unwrap();
    let searcher = Searcher::new();
    let result = search_depth(&searcher, &board, 6);
    assert_eq!(result.best_move.to_uci(), "h5f7");
    assert!(result.score > MATE_THRESHOLD, "mate score should survive aspiration");
}

#[test]
fn aborted_search_uses_previous_iteration_result() {
    let board = Board::starting_position();
    let searcher = Searcher::new();
    let stopped = Arc::new(AtomicBool::new(false));
    let control = SearchControl::new_infinite(Arc::clone(&stopped));

    let stopped2 = Arc::new(AtomicBool::new(false));
    let control2 = SearchControl::new_infinite(stopped2);
    let baseline = searcher.search(&board, 2, &control2).0;
    assert!(!baseline.best_move.is_null());

    stopped.store(true, Ordering::Release);
    let searcher2 = Searcher::new();
    let result = searcher2.search(&board, 100, &control).0;
    assert!(result.depth == 0 || !result.best_move.is_null(), "if any iteration completed, best_move should be non-null");
}

// --- Own tests of the search ---

#[test]
fn stopped_search_reports_nothing() {
    let board = Board::starting_position();
    let searcher = Searcher::new();
    let stopped = Arc::new(AtomicBool::new(true));
    let control = SearchControl::new_infinite(stopped);
    let (result, reports) = searcher.search(&board, 5, &control);
    assert!(reports.is_empty());
    assert_eq!(result.depth, 0);
    assert!(result.best_move.is_null());
    assert_eq!(result.score, -INF);
    assert_eq!(result.pv, vec![Move::NULL()]);
    assert_eq!(result.ponder_move, None);
}

#[test]
fn result_matches_last_report() {
    let board = Board::starting_position();
    let searcher = Searcher::new();
    let stopped = Arc::new(AtomicBool::new(false));
    let control = SearchControl::new_infinite(stopped);
    let (result, reports) = searcher.search(&board, 3, &control);
    let last = reports.last().unwrap();
    assert_eq!(result.depth, last.depth);
    assert_eq!(result.score, last.score);
    assert_eq!(result.pv, last.pv);
    assert_eq!(result.best_move, last.pv[0]);
    assert_eq!(result.ponder_move, if last.pv.len() > 1 { Some(last.pv[1]) } else { None });
}

#[test]
fn negamax_scores_mate_by_ply() {
    let board: Board = MATED.parse().unwrap();
    let tt = TranspositionTable::new(1);
    let control = SearchControl::new_infinite(Arc::new(AtomicBool::new(false)));
    let mut ctx = SearchContext::new(Vec::new(), 0, Color::Black);
    let params = NodeParams { depth: 1, ply: 3, do_null: true, excluded: Move::NULL(), cutnode: false, double_extensions: 0 };
    let score = negamax(&board, -INF, INF, params, &mut ctx, &tt, &control);
    assert_eq!(score, -(MATE_SCORE - 3));
    assert!(ctx.history.is_empty());
}

#[test]
fn negamax_draws_by_repetition_with_contempt() {
    let board = Board::starting_position();
    let tt = TranspositionTable::new(1);
    let control = SearchControl::new_infinite(Arc::new(AtomicBool::new(false)));
    // A position seen before the node counts as a draw at once; the engine plays
    // Black, so White to move scores the contempt itself.
    let mut ctx = SearchContext::new(vec![board.hash()], 25, Color::Black);
    let params = NodeParams { depth: 3, ply: 1, do_null: true, excluded: Move::NULL(), cutnode: false, double_extensions: 0 };
    assert_eq!(negamax(&board, -INF, INF, params, &mut ctx, &tt, &control), 25);
    assert_eq!(ctx.history, vec![board.hash()]);
}

#[test]
fn negamax_fifty_move_rule_scores_draw() {
    let board: Board = "4k3/8/8/8/8/8/8/R3K3 w - - 100 80".parse().unwrap();
    let tt = TranspositionTable::new(1);
    let control = SearchControl::new_infinite(Arc::new(AtomicBool::new(false)));
    let mut ctx = SearchContext::new(Vec::new(), 10, Color::White);
    let params = NodeParams { depth: 4, ply: 0, do_null: true, excluded: Move::NULL(), cutnode: false, double_extensions: 0 };
    assert_eq!(negamax(&board, -INF, INF, params, &mut ctx, &tt, &control), -10);
}

#[test]
fn qsearch_stands_pat_without_captures() {
    let board = Board::starting_position();
    let control = SearchControl::new_infinite(Arc::new(AtomicBool::new(false)));
    let mut ctx = SearchContext::new(Vec::new(), 0, Color::White);
    let stand_pat = cesso::eval::evaluate(&board);
    assert_eq!(qsearch(&board, 0, -INF, INF, &mut ctx, &control), stand_pat);
    assert_eq!(ctx.nodes, 1);
}

#[test]
fn qsearch_without_king_scores_zero() {
    let board: Board = "8/8/8/8/8/8/8/4K3 w - - 0 1".parse().unwrap();
    let control = SearchControl::new_infinite(Arc::new(AtomicBool::new(false)));
    let mut ctx = SearchContext::new(Vec::new(), 0, Color::White);
    assert_eq!(qsearch(&board, 0, -INF, INF, &mut ctx, &control), 0);
}

#[test]
fn aspiration_search_finds_mate() {
    let board: Board = SCHOLAR.parse().unwrap();
    let tt = TranspositionTable::new(1);
    let control = SearchControl::new_infinite(Arc::new(AtomicBool::new(false)));
    let mut ctx = SearchContext::new(Vec::new(), 0, Color::White);
    let score = aspiration_search(&board, 2, 0, &mut ctx, &tt, &control);
    assert!(score > MATE_THRESHOLD);
}

#[test]
fn non_pawn_material_of_side_to_move() {
    let board: Board = "4k3/pppp4/8/8/8/8/8/4K2R w - - 0 1".parse().unwrap();
    assert!(has_non_pawn_material(&board));
    let black: Board = "4k3/pppp4/8/8/8/8/8/4K2R b - - 0 1".parse().unwrap();
    assert!(!has_non_pawn_material(&black));
}

#[test]
fn null_move_flips_side_and_clears_en_passant() {
    let board: Board = "4k3/8/8/3pP3/8/8/8/4K3 w - d6 0 3".parse().unwrap();
    let null = board.make_null_move();
    assert_eq!(null.side_to_move(), Color::Black);
    assert!(null.en_passant().is_none());
    assert_eq!(null.hash(), cesso::zobrist::hash_from_scratch(&null));
    assert_eq!(null.halfmove_clock(), board.halfmove_clock());
    assert_eq!(null.make_null_move().hash(), cesso::zobrist::hash_from_scratch(&board.make_null_move().make_null_move()));
}

#[test]
fn group_hashes_split_the_placement() {
    let board = Board::starting_position();
    // Every piece belongs to the pawns or to one side's other pieces.
    let placement = board.pawn_hash() ^ board.non_pawn_hash(Color::White) ^ board.non_pawn_hash(Color::Black);
    let side = 0u64; // White to move: no side key
    let castling = cesso::zobrist::KEYS[769 + 15];
    assert_eq!(placement ^ side ^ castling, board.hash());
    assert_ne!(board.major_hash(), board.minor_hash());
    let empty: Board = "4k3/8/8/8/8/8/8/4K3 w - - 0 1".parse().unwrap();
    assert_eq!(empty.pawn_hash(), 0);
    assert_eq!(empty.major_hash(), 0);
    assert_eq!(empty.minor_hash(), 0);
}

#[test]
fn update_cont_history_applies_gravity_per_offset() {
    let mut ch = ContinuationHistory::new();
    let mut stack = vec![StackEntry::EMPTY(); 8];
    let idx = ContHistIndex { side: Color::White, piece: PieceKind::Knight, to: Square::from_index(20).unwrap() };
    stack[4].cont_hist_index = Some(idx);
    // Ply 5: offset 1 reaches stack[4].
    update_cont_history(&mut ch, &stack, 5, PieceKind::Bishop, 10, 100);
    assert_eq!(ch.entry(&idx).score(PieceKind::Bishop, 10), 100);
    assert_eq!(ch.entry(&idx).score(PieceKind::Bishop, 11), 0);
    // The same slot at offsets 1 and 2: two gravity steps.
    stack[3].cont_hist_index = Some(idx);
    update_cont_history(&mut ch, &stack, 5, PieceKind::Rook, 7, 1000);
    // 0 -> 1000 -> 1000 + 1000 - 1000 * 1000 / 16384 = 1939
    assert_eq!(ch.entry(&idx).score(PieceKind::Rook, 7), 1939);
}

#[test]
fn single_thread_pool_matches_searcher_shape() {
    let board: Board = SCHOLAR.parse().unwrap();
    let pool = ThreadPool::new(1);
    let control = SearchControl::new_infinite(Arc::new(AtomicBool::new(false)));
    let (result, reports) = pool.search_single(&board, 2, &control, &[]);
    assert_eq!(result.best_move.to_uci(), "h5f7");
    assert_eq!(reports.len(), 2);
    let nodes = run_helper(1, pool.tt(), &board, 2, &control, &[]);
    assert!(nodes > 0);
}

#[test]
fn legal_moves_exist_for_search_root() {
    let board = Board::starting_position();
    assert_eq!(generate_legal_moves(&board).len(), 20);
}

#[test]
fn one_legal_move_bypass_single_thread() {
    let b: Board = "8/8/8/8/8/1r6/2k5/K7 w - - 0 1".parse().unwrap();
    let mut pool = ThreadPool::new(16);
    pool.set_num_threads(1);
    let control = SearchControl::new_infinite(Arc::new(AtomicBool::new(false)));
    let (r, reports) = pool.search_single(&b, 10, &control, &[]);
    assert_eq!(r.depth, 0);
    assert_eq!(r.nodes, 0);
    assert!(reports.is_empty());
    assert_eq!(r.best_move, Move::new(Square::A1, Square::A2));
}

#[test]
fn searcher_returns_forced_move_at_once() {
    let b: Board = "8/8/8/8/8/1r6/2k5/K7 w - - 0 1".parse().unwrap();
    let searcher = Searcher::new();
    let r = search_depth(&searcher, &b, 10);
    assert_eq!((r.depth, r.nodes), (0, 0));
    assert_eq!(r.best_move, Move::new(Square::A1, Square::A2));
    assert_eq!(r.pv, vec![Move::new(Square::A1, Square::A2)]);
}

#[test]
fn forced_move_only_with_one_legal_move() {
    let b: Board = "8/8/8/8/8/1r6/2k5/K7 w - - 0 1".parse().unwrap();
    assert_eq!(forced_move(&b), Some(Move::new(Square::A1, Square::A2)));
    assert_eq!(forced_move(&Board::starting_position()), None);
    let mated: Board = MATED.parse().unwrap();
    assert_eq!(forced_move(&mated), None);
}

#[test]
fn node_terminal_scores_rules_draws() {
    let board = Board::starting_position();
    let ctx = SearchContext::new(vec![board.hash()], 7, Color::White);
    assert_eq!(node_terminal(&board, 2, true, &ctx), Some(0));
    assert_eq!(node_terminal(&board, 0, false, &ctx), None);
    // A repetition within the last 0 reversible moves is not looked for.
    assert_eq!(node_terminal(&board, 2, false, &ctx), None);
    let later: Board = "rnbqkbnr/pppppppp/8/8/8/8/PPPPPPPP/RNBQKBNR w KQkq - 4 3".parse().unwrap();
    let ctx2 = SearchContext::new(vec![later.hash()], 7, Color::White);
    assert_eq!(node_terminal(&later, 2, false, &ctx2), Some(-7));
    let fifty: Board = "4k3/8/8/8/8/8/8/R3K3 b - - 100 80".parse().unwrap();
    assert_eq!(node_terminal(&fifty, 0, false, &ctx), Some(7));
    assert_eq!(no_move_score(&board, 3, true, &ctx), -(MATE_SCORE - 3));
    assert_eq!(no_move_score(&board, 3, false, &ctx), -7);
}

#[test]
fn replacement_decision_on_words() {
    let mv = Move::new(Square::E2, Square::E4);
    let (w0, _) = entry_words(0x1111_2222_3333_4444, 0, false, Bound::LowerBound, 5, mv, 100, 50, 0);
    // Same generation, shallower, not exact: kept.
    assert!(!replaces_entry(w0, 0, 3, Bound::LowerBound));
    assert!(replaces_entry(w0, 0, 5, Bound::LowerBound));
    assert!(replaces_entry(w0, 0, 1, Bound::Exact));
    assert!(replaces_entry(w0, 1, 1, Bound::LowerBound));
    assert!(replaces_entry(0, 0, 0, Bound::UpperBound));
}

#[test]
fn helpers_start_only_without_forced_move() {
    let forced: Board = "8/8/8/8/8/1r6/2k5/K7 w - - 0 1".parse().unwrap();
    let mut pool = ThreadPool::new(1);
    assert!(!pool.helpers_wanted(&Board::starting_position()));
    pool.set_num_threads(4);
    assert!(pool.helpers_wanted(&Board::starting_position()));
    assert!(!pool.helpers_wanted(&forced));
}

#[test]
fn search_pv_starts_with_best_move() {
    let board: Board = SCHOLAR.parse().unwrap();
    let searcher = Searcher::new();
    let r = search_depth(&searcher, &board, 2);
    assert!(!r.pv.is_empty());
    assert_eq!(r.pv[0], r.best_move);
}
