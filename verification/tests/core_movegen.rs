use cesso::board::Board;
use cesso::movegen::generate_legal_moves;
use cesso::perft::{divide, perft};
use cesso::piece_kind::PieceKind;
use cesso::square::Square;

#[test]
fn starting_position_20_moves() {
    let board = Board::starting_position();
    let moves = generate_legal_moves(&board);
    assert_eq!(moves.len(), 20, "starting position should have 20 legal moves, got {}", moves.len());
}

#[test]
fn pinned_knight_zero_moves() {
    let board: Board = "4r2k/8/8/8/8/8/4N3/4K3 w - - 0 1".parse().unwrap();
    let moves = generate_legal_moves(&board);
    let knight_moves: Vec<_> = moves.as_slice().iter().filter(|m| m.source() == Square::E2).collect();
    assert_eq!(knight_moves.len(), 0, "pinned knight should have 0 moves");
}

#[test]
fn double_check_king_only() {
    let board: Board = "4r1k1/8/8/8/8/5n2/8/4K3 w - - 0 1".parse().unwrap();
    let moves = generate_legal_moves(&board);
    for mv in moves.as_slice() {
        assert_eq!(
            board.piece_on(mv.source()),
            Some(PieceKind::King),
            "in double check, only king moves should be legal, but got move from {:?}",
            mv.source()
        );
    }
}

#[test]
fn castling_not_through_check() {
    let board: Board = "4k3/8/b7/8/8/8/8/R3K2R w KQ - 0 1".parse().unwrap();
    let moves = generate_legal_moves(&board);
    let castle_moves: Vec<_> = moves.as_slice().iter().filter(|m| m.is_castle()).collect();
    for mv in &castle_moves {
        assert_ne!(mv.dest(), Square::G1, "should not castle kingside through attacked f1");
    }
}

#[test]
fn en_passant_legal() {
    let board: Board = "4k3/8/8/3pP3/8/8/8/4K3 w - d6 0 1".parse().unwrap();
    let moves = generate_legal_moves(&board);
    let ep_moves: Vec<_> = moves.as_slice().iter().filter(|m| m.is_en_passant()).collect();
    assert_eq!(ep_moves.len(), 1, "should have 1 en passant move");
}

#[test]
fn en_passant_discovered_check_illegal() {
    let board: Board = "4k3/8/8/KPp4r/8/8/8/8 w - c6 0 1".parse().unwrap();
    let moves = generate_legal_moves(&board);
    let ep_moves: Vec<_> = moves.as_slice().iter().filter(|m| m.is_en_passant()).collect();
    assert_eq!(ep_moves.len(), 0, "EP should be illegal due to discovered check");
}

#[test]
fn promotion_generates_4_moves() {
    let board: Board = "4k3/P7/8/8/8/8/8/4K3 w - - 0 1".parse().unwrap();
    let moves = generate_legal_moves(&board);
    let promo_moves: Vec<_> = moves.as_slice().iter().filter(|m| m.is_promotion()).collect();
    assert_eq!(promo_moves.len(), 4, "promotion should generate 4 moves (Q/R/B/N)");
}

// --- Perft ---

#[test]
fn perft_startpos_depth_1() {
    let board = Board::starting_position();
    assert_eq!(perft(&board, 1), 20);
}

#[test]
fn perft_startpos_depth_2() {
    let board = Board::starting_position();
    assert_eq!(perft(&board, 2), 400);
}

#[test]
fn perft_startpos_depth_3() {
    let board = Board::starting_position();
    assert_eq!(perft(&board, 3), 8_902);
}

#[test]
fn perft_startpos_depth_4() {
    let board = Board::starting_position();
    assert_eq!(perft(&board, 4), 197_281);
}

fn kiwipete() -> Board {
    "r3k2r/p1ppqpb1/bn2pnp1/3PN3/1p2P3/2N2Q1p/PPPBBPPP/R3K2R w KQkq - 0 1".parse().unwrap()
}

#[test]
fn perft_kiwipete_depth_1() {
    assert_eq!(perft(&kiwipete(), 1), 48);
}

#[test]
fn perft_kiwipete_depth_2() {
    assert_eq!(perft(&kiwipete(), 2), 2_039);
}

#[test]
fn perft_kiwipete_depth_3() {
    assert_eq!(perft(&kiwipete(), 3), 97_862);
}

#[test]
fn perft_kiwipete_depth_4() {
    assert_eq!(perft(&kiwipete(), 4), 4_085_603);
}

fn position3() -> Board {
    "8/2p5/3p4/KP5r/1R3p1k/8/4P1P1/8 w - - 0 1".parse().unwrap()
}

#[test]
fn perft_pos3_depth_1() {
    assert_eq!(perft(&position3(), 1), 14);
}

#[test]
fn perft_pos3_depth_2() {
    assert_eq!(perft(&position3(), 2), 191);
}

#[test]
fn perft_pos3_depth_3() {
    assert_eq!(perft(&position3(), 3), 2_812);
}

#[test]
fn perft_pos3_depth_4() {
    assert_eq!(perft(&position3(), 4), 43_238);
}

fn position4() -> Board {
    "r3k2r/Pppp1ppp/1b3nbN/nP6/BBP1P3/q4N2/Pp1P2PP/R2Q1RK1 w kq - 0 1".parse().unwrap()
}

#[test]
fn perft_pos4_depth_1() {
    assert_eq!(perft(&position4(), 1), 6);
}

#[test]
fn perft_pos4_depth_2() {
    assert_eq!(perft(&position4(), 2), 264);
}

#[test]
fn perft_pos4_depth_3() {
    assert_eq!(perft(&position4(), 3), 9_467);
}

#[test]
fn perft_pos4_depth_4() {
    assert_eq!(perft(&position4(), 4), 422_333);
}

fn position5() -> Board {
    "rnbq1k1r/pp1Pbppp/2p5/8/2B5/8/PPP1NnPP/RNBQK2R w KQ - 1 8".parse().unwrap()
}

#[test]
fn perft_pos5_depth_1() {
    assert_eq!(perft(&position5(), 1), 44);
}

#[test]
fn perft_pos5_depth_2() {
    assert_eq!(perft(&position5(), 2), 1_486);
}

#[test]
fn perft_pos5_depth_3() {
    assert_eq!(perft(&position5(), 3), 62_379);
}

#[test]
fn perft_pos5_depth_4() {
    assert_eq!(perft(&position5(), 4), 2_103_487);
}

#[test]
fn divide_startpos_depth_1() {
    let board = Board::starting_position();
    let results = divide(&board, 1);
    assert_eq!(results.len(), 20);
    for (_, count) in &results {
        assert_eq!(*count, 1);
    }
}

#[test]
fn perft_depth_0() {
    let board = Board::starting_position();
    assert_eq!(perft(&board, 0), 1);
}

#[test]
fn legal_moves_listed_once() {
    for board in [Board::starting_position(), kiwipete(), position3(), position4(), position5()] {
        let moves = generate_legal_moves(&board);
        let mut codes: Vec<u16> = moves.as_slice().iter().map(|m| m.raw()).collect();
        codes.sort();
        codes.dedup();
        assert_eq!(codes.len(), moves.len());
    }
}

#[test]
fn divide_names_each_legal_move_once() {
    let board = kiwipete();
    let results = divide(&board, 2);
    let mut names: Vec<String> = results.iter().map(|(n, _)| n.clone()).collect();
    let mut expected: Vec<String> = generate_legal_moves(&board).as_slice().iter().map(|m| m.to_uci()).collect();
    expected.sort();
    assert_eq!(names, expected);
    names.dedup();
    assert_eq!(names.len(), 48);
    let total: u64 = results.iter().map(|(_, c)| *c).sum();
    assert_eq!(total, perft(&board, 2));
    for (name, count) in &results {
        let mv = generate_legal_moves(&board).as_slice().iter().copied().find(|m| &m.to_uci() == name).unwrap();
        assert_eq!(*count, perft(&board.make_move(mv), 1));
    }
}

#[test]
fn perft_depth_1_counts_legal_moves() {
    for board in [Board::starting_position(), kiwipete(), position3(), position4(), position5()] {
        assert_eq!(perft(&board, 1), generate_legal_moves(&board).len() as u64);
    }
}

#[test]
fn perft_sums_children() {
    let board = position4();
    let mut sum: u64 = 0;
    for mv in generate_legal_moves(&board).as_slice() {
        sum += perft(&board.make_move(*mv), 2);
    }
    assert_eq!(sum, perft(&board, 3));
}
