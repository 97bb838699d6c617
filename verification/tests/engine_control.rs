use std::sync::atomic::{AtomicBool, Ordering};
use std::sync::Arc;

use cesso::color::Color;
use cesso::search::control::SearchControl;
use cesso::time::{go_plan, hard_limit_reached, soft_limit_reached, GoPlan};
use cesso::uci::command::GoParams;

fn params() -> GoParams {
    GoParams::default()
}

#[test]
fn soft_scale_60_fires_earlier() {
    let stopped = Arc::new(AtomicBool::new(false));
    let control = SearchControl::new_timed(stopped, 10_000, 30_000);
    control.update_soft_scale(60);
    assert!(!control.should_stop_iterating());
}

#[test]
fn soft_scale_does_not_affect_hard() {
    let stopped = Arc::new(AtomicBool::new(false));
    let control = SearchControl::new_timed(stopped, 10_000, 30_000);
    control.update_soft_scale(1);
    assert!(!control.should_stop(2048));
}

#[test]
fn stop_flag_stops_everything() {
    let stopped = Arc::new(AtomicBool::new(false));
    let control = SearchControl::new_infinite(stopped.clone());
    assert!(!control.should_stop(2048));
    assert!(!control.should_stop_iterating());
    stopped.store(true, Ordering::SeqCst);
    assert!(control.should_stop(1));
    assert!(control.should_stop_iterating());
    assert!(control.stop_flag().load(Ordering::SeqCst));
}

#[test]
fn zero_hard_limit_sets_flag() {
    let stopped = Arc::new(AtomicBool::new(false));
    let control = SearchControl::new_timed(stopped.clone(), 0, 0);
    // Off the 2048 boundary the clock is not read.
    assert!(!control.should_stop(5));
    assert!(control.should_stop(4096));
    assert!(stopped.load(Ordering::SeqCst));
}

#[test]
fn ponder_clock_starts_on_activate() {
    let stopped = Arc::new(AtomicBool::new(false));
    let control = SearchControl::new_ponder(stopped, 0, 0);
    assert!(!control.should_stop(0));
    assert_eq!(control.elapsed(), 0);
    control.activate();
    assert!(control.should_stop(0));
}

#[test]
fn hard_and_soft_decisions() {
    assert!(hard_limit_reached(true, 3, false, None, 0));
    assert!(!hard_limit_reached(false, 3, true, Some(0), 100));
    assert!(hard_limit_reached(false, 2048, true, Some(100), 100));
    assert!(!hard_limit_reached(false, 2048, true, Some(100), 99));
    assert!(!hard_limit_reached(false, 2048, false, Some(100), 500));
    // 10000 ms at 60 hundredths is 6000 ms.
    assert!(!soft_limit_reached(false, true, Some(10_000), 60, 5_999));
    assert!(soft_limit_reached(false, true, Some(10_000), 60, 6_000));
    assert!(!soft_limit_reached(false, true, None, 60, 1_000_000));
}

#[test]
fn limits_from_go_infinite() {
    let mut p = params();
    p.infinite = true;
    assert_eq!(go_plan(&p, Color::White), GoPlan::Infinite);
}

#[test]
fn limits_from_go_movetime() {
    let mut p = params();
    p.movetime = Some(5000);
    assert_eq!(go_plan(&p, Color::Black), GoPlan::Fixed { ms: 5000, ponder: false });
}

#[test]
fn limits_from_go_with_clock() {
    let mut p = params();
    p.wtime = Some(60_000);
    p.btime = Some(30_000);
    p.binc = Some(500);
    p.movestogo = Some(20);
    assert_eq!(
        go_plan(&p, Color::White),
        GoPlan::Clock { remaining_ms: 60_000, increment_ms: 0, movestogo: Some(20), ponder: false }
    );
    assert_eq!(
        go_plan(&p, Color::Black),
        GoPlan::Clock { remaining_ms: 30_000, increment_ms: 500, movestogo: Some(20), ponder: false }
    );
}

#[test]
fn limits_from_go_depth_only() {
    let mut p = params();
    p.depth = Some(8);
    assert_eq!(go_plan(&p, Color::White), GoPlan::Infinite);
    p.ponder = true;
    p.infinite = true;
    assert_eq!(go_plan(&p, Color::White), GoPlan::Infinite);
}

// --- searcher state, thread pool, PV table, NNUE features ---

use cesso::chess_move::Move;
use cesso::eval::nnue::features::feature_index;
use cesso::piece_kind::PieceKind;
use cesso::search::pool::ThreadPool;
use cesso::search::pv::PvTable;
use cesso::search::searcher::Searcher;
use cesso::square::Square;
use cesso::uci::engine::UciEngine;

#[test]
fn feature_index_bounds() {
    for &perspective in &[Color::White, Color::Black] {
        for &piece_color in &[Color::White, Color::Black] {
            for kind in [
                PieceKind::Pawn,
                PieceKind::Knight,
                PieceKind::Bishop,
                PieceKind::Rook,
                PieceKind::Queen,
                PieceKind::King,
            ] {
                for sq in Square::all() {
                    let idx = feature_index(perspective, piece_color, kind, sq);
                    assert!(idx < 768);
                }
            }
        }
    }
}

#[test]
fn feature_index_exact_values() {
    assert_eq!(feature_index(Color::White, Color::White, PieceKind::Pawn, Square::A1), 0);
    assert_eq!(feature_index(Color::White, Color::Black, PieceKind::King, Square::H8), 384 + 5 * 64 + 63);
    // Black's perspective mirrors the square vertically: e2 becomes e7.
    assert_eq!(feature_index(Color::Black, Color::Black, PieceKind::Knight, Square::E2), 64 + 52);
}

#[test]
fn pv_table_update_and_root() {
    let mut pv = PvTable::new();
    assert_eq!(pv.root_len(), 0);
    let a = Move::new(Square::E2, Square::E4);
    let b = Move::new(Square::E7, Square::E5);
    let c = Move::new(Square::G1, Square::F3);
    pv.set_single(2, c);
    pv.update(1, b);
    pv.update(0, a);
    assert_eq!(pv.root_pv(), &[a, b, c]);
    assert_eq!(pv.root_len(), 3);
    pv.clear_ply(0);
    assert_eq!(pv.root_len(), 0);
    // Plies beyond the table are ignored.
    pv.update(500, a);
    pv.set_single(500, a);
    pv.clear_ply(500);
}

#[test]
fn searcher_and_pool_state() {
    let mut searcher = Searcher::new();
    searcher.clear_tt();
    searcher.resize_tt(1);
    let mut pool = ThreadPool::new(1);
    pool.set_num_threads(0);
    pool.set_num_threads(4);
    pool.resize_tt(2);
    pool.clear_tt();
    let mut engine = UciEngine::new();
    assert_eq!(engine.board().to_fen(), "rnbqkbnr/pppppppp/8/8/8/8/PPPPPPPP/RNBQKBNR w KQkq - 0 1");
    let b: cesso::board::Board = "8/8/4k3/8/8/4K3/8/8 w - - 0 1".parse().unwrap();
    engine.set_position(b);
    assert_eq!(engine.board().to_fen(), "8/8/4k3/8/8/4K3/8/8 w - - 0 1");
    engine.new_game();
    assert_eq!(engine.board().to_fen(), "rnbqkbnr/pppppppp/8/8/8/8/PPPPPPPP/RNBQKBNR w KQkq - 0 1");
}
