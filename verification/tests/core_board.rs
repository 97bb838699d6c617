use cesso::attacks::{
    between, bishop_attacks, bishop_attacks_on_the_fly, king_attacks, knight_attacks, pawn_attacks,
    rook_attacks, rook_attacks_on_the_fly,
};
use cesso::bitboard::Bitboard;
use cesso::board::Board;
use cesso::castle_rights::CastleRights;
use cesso::chess_move::{Move, PromotionPiece};
use cesso::color::Color;
use cesso::fen::STARTING_FEN;
use cesso::piece::Piece;
use cesso::piece_kind::PieceKind;
use cesso::square::Square;
use cesso::zobrist::{hash_from_scratch, KEYS};

// --- Attacks ---

#[test]
fn knight_e4_has_8_attacks() {
    assert_eq!(knight_attacks(Square::E4).count(), 8);
}

#[test]
fn knight_a1_has_2_attacks() {
    assert_eq!(knight_attacks(Square::A1).count(), 2);
}

#[test]
fn king_e1_has_5_attacks() {
    assert_eq!(king_attacks(Square::E1).count(), 5);
}

#[test]
fn king_e4_has_8_attacks() {
    assert_eq!(king_attacks(Square::E4).count(), 8);
}

#[test]
fn pawn_no_wrap_file_a() {
    let attacks = pawn_attacks(Color::White, Square::A4);
    assert_eq!(attacks.count(), 1);
    assert!(attacks.contains(Square::B5));
}

#[test]
fn pawn_no_wrap_file_h() {
    let attacks = pawn_attacks(Color::White, Square::H4);
    assert_eq!(attacks.count(), 1);
    assert!(attacks.contains(Square::G5));
}

#[test]
fn pawn_black_attacks_south() {
    let attacks = pawn_attacks(Color::Black, Square::E5);
    assert_eq!(attacks.count(), 2);
    assert!(attacks.contains(Square::D4));
    assert!(attacks.contains(Square::F4));
}

#[test]
fn rook_empty_board_always_14() {
    for sq in Square::all() {
        assert_eq!(rook_attacks(sq, Bitboard::EMPTY()).count(), 14, "rook on {:?} should have 14 attacks on empty board", sq);
    }
}

#[test]
fn bishop_d4_empty_board_13() {
    assert_eq!(bishop_attacks(Square::D4, Bitboard::EMPTY()).count(), 13);
}

#[test]
fn rook_e4_blocked_e6() {
    let occupied = Square::E6.bitboard();
    let attacks = rook_attacks(Square::E4, occupied);
    assert!(attacks.contains(Square::E5));
    assert!(attacks.contains(Square::E6));
    assert!(!attacks.contains(Square::E7));
}

#[test]
fn between_e1_e4() {
    let bb = between(Square::E1, Square::E4);
    assert_eq!(bb.count(), 2);
    assert!(bb.contains(Square::E2));
    assert!(bb.contains(Square::E3));
}

#[test]
fn between_a1_h8() {
    let bb = between(Square::A1, Square::H8);
    assert_eq!(bb.count(), 6);
}

#[test]
fn between_non_aligned_empty() {
    let bb = between(Square::A1, Square::B3);
    assert!(bb.is_empty());
}

#[test]
fn line_a1_h8() {
    let bb = cesso::attacks::line(Square::A1, Square::H8);
    assert_eq!(bb.count(), 8);
}

#[test]
fn line_non_aligned_empty() {
    let bb = cesso::attacks::line(Square::A1, Square::B3);
    assert!(bb.is_empty());
}

#[test]
fn rook_magic_vs_naive() {
    let mut rng: u64 = 0xDEADBEEF12345678;
    for sq_idx in 0..64usize {
        let sq = Square::from_index(sq_idx as u8).unwrap();
        for _ in 0..128 {
            rng = rng.wrapping_mul(6364136223846793005).wrapping_add(1442695040888963407);
            let occupied = Bitboard::new(rng);
            let magic_result = rook_attacks(sq, occupied);
            let naive_result = Bitboard::new(rook_attacks_on_the_fly(sq_idx, rng));
            assert_eq!(magic_result, naive_result, "rook mismatch on sq {:?} with occ {:016x}", sq, rng);
        }
    }
}

#[test]
fn bishop_magic_vs_naive() {
    let mut rng: u64 = 0xCAFEBABE87654321;
    for sq_idx in 0..64usize {
        let sq = Square::from_index(sq_idx as u8).unwrap();
        for _ in 0..128 {
            rng = rng.wrapping_mul(6364136223846793005).wrapping_add(1442695040888963407);
            let occupied = Bitboard::new(rng);
            let magic_result = bishop_attacks(sq, occupied);
            let naive_result = Bitboard::new(bishop_attacks_on_the_fly(sq_idx, rng));
            assert_eq!(magic_result, naive_result, "bishop mismatch on sq {:?} with occ {:016x}", sq, rng);
        }
    }
}

// --- Board ---

#[test]
fn starting_position_validates() {
    let board = Board::starting_position();
    board.validate().unwrap();
}

#[test]
fn starting_position_piece_on() {
    let board = Board::starting_position();
    assert_eq!(board.piece_on(Square::E1), Some(PieceKind::King));
    assert_eq!(board.piece_on(Square::D1), Some(PieceKind::Queen));
    assert_eq!(board.piece_on(Square::A1), Some(PieceKind::Rook));
    assert_eq!(board.piece_on(Square::B1), Some(PieceKind::Knight));
    assert_eq!(board.piece_on(Square::C1), Some(PieceKind::Bishop));
    assert_eq!(board.piece_on(Square::E2), Some(PieceKind::Pawn));
    assert_eq!(board.piece_on(Square::E4), None);
}

#[test]
fn starting_position_color_on() {
    let board = Board::starting_position();
    assert_eq!(board.color_on(Square::E1), Some(Color::White));
    assert_eq!(board.color_on(Square::E8), Some(Color::Black));
    assert_eq!(board.color_on(Square::E4), None);
}

#[test]
fn king_square() {
    let board = Board::starting_position();
    assert_eq!(board.king_square(Color::White), Square::E1);
    assert_eq!(board.king_square(Color::Black), Square::E8);
}

#[test]
fn occupied_count() {
    let board = Board::starting_position();
    assert_eq!(board.occupied().count(), 32);
}

#[test]
fn toggle_piece() {
    let mut board = Board::starting_position();
    board.toggle_piece(Square::E2, PieceKind::Pawn, Color::White);
    assert!(!board.is_occupied(Square::E2));
    assert_eq!(board.occupied().count(), 31);
    board.toggle_piece(Square::E4, PieceKind::Pawn, Color::White);
    assert!(board.is_occupied(Square::E4));
    assert_eq!(board.piece_on(Square::E4), Some(PieceKind::Pawn));
    assert_eq!(board.color_on(Square::E4), Some(Color::White));
}

#[test]
fn pretty_print() {
    let board = Board::starting_position();
    let output = format!("{}", board.pretty());
    assert!(output.contains("r n b q k b n r"));
    assert!(output.contains("R N B Q K B N R"));
    assert!(output.contains("a b c d e f g h"));
}

#[test]
fn colored_piece_on_starting() {
    let board = Board::starting_position();
    assert_eq!(board.colored_piece_on(Square::E1), Some(Piece::WHITE_KING));
    assert_eq!(board.colored_piece_on(Square::E8), Some(Piece::BLACK_KING));
    assert_eq!(board.colored_piece_on(Square::D1), Some(Piece::WHITE_QUEEN));
    assert_eq!(board.colored_piece_on(Square::E4), None);
}

// --- FEN ---

fn roundtrip(fen: &str) {
    let board: Board = fen.parse().unwrap();
    let output = board.to_fen();
    assert_eq!(output, fen, "FEN roundtrip failed");
    let board2: Board = output.parse().unwrap();
    assert_eq!(board, board2);
}

#[test]
fn roundtrip_starting() {
    roundtrip(STARTING_FEN);
}

#[test]
fn roundtrip_sicilian() {
    roundtrip("rnbqkbnr/pp1ppppp/8/2p5/4P3/8/PPPP1PPP/RNBQKBNR w KQkq c6 0 2");
}

#[test]
fn roundtrip_kiwipete() {
    roundtrip("r3k2r/p1ppqpb1/bn2pnp1/3PN3/1p2P3/2N2Q1p/PPPBBPPP/R3K2R w KQkq - 0 1");
}

#[test]
fn roundtrip_endgame() {
    roundtrip("8/2p5/3p4/KP5r/1R3p1k/8/4P1P1/8 w - - 0 1");
}

#[test]
fn roundtrip_black_to_move() {
    roundtrip("rnbqkbnr/pppppppp/8/8/4P3/8/PPPP1PPP/RNBQKBNR b KQkq e3 0 1");
}

#[test]
fn starting_position_matches_fen() {
    let from_constructor = Board::starting_position();
    let from_fen: Board = STARTING_FEN.parse().unwrap();
    assert_eq!(from_constructor, from_fen);
}

#[test]
fn error_wrong_field_count() {
    let result = "e4 e5".parse::<Board>();
    assert!(result.is_err());
}

#[test]
fn error_invalid_piece_char() {
    let result = "rnbqkbnr/pppppppp/8/8/8/8/PPPPXPPP/RNBQKBNR w KQkq - 0 1".parse::<Board>();
    assert!(result.is_err());
}

#[test]
fn error_bad_rank_length() {
    let result = "rnbqkbnr/ppppppp/8/8/8/8/PPPPPPPP/RNBQKBNR w KQkq - 0 1".parse::<Board>();
    assert!(result.is_err());
}

#[test]
fn error_invalid_color() {
    let result = "rnbqkbnr/pppppppp/8/8/8/8/PPPPPPPP/RNBQKBNR x KQkq - 0 1".parse::<Board>();
    assert!(result.is_err());
}

#[test]
fn error_invalid_castling() {
    let result = "rnbqkbnr/pppppppp/8/8/8/8/PPPPPPPP/RNBQKBNR w XQkq - 0 1".parse::<Board>();
    assert!(result.is_err());
}

#[test]
fn error_invalid_en_passant() {
    let result = "rnbqkbnr/pppppppp/8/8/8/8/PPPPPPPP/RNBQKBNR w KQkq z9 0 1".parse::<Board>();
    assert!(result.is_err());
}

#[test]
fn error_invalid_move_counter() {
    let result = "rnbqkbnr/pppppppp/8/8/8/8/PPPPPPPP/RNBQKBNR w KQkq - abc 1".parse::<Board>();
    assert!(result.is_err());
}

// --- Make move ---

fn starting() -> Board {
    Board::starting_position()
}

#[test]
fn normal_pawn_push_e2e4() {
    let board = starting();
    let mv = Move::new(Square::E2, Square::E4);
    let after = board.make_move(mv);
    assert_eq!(after.piece_on(Square::E4), Some(PieceKind::Pawn));
    assert_eq!(after.color_on(Square::E4), Some(Color::White));
    assert_eq!(after.piece_on(Square::E2), None);
    assert_eq!(after.en_passant(), Some(Square::E3));
    assert_eq!(after.side_to_move(), Color::Black);
}

#[test]
fn capture_resets_clock() {
    let b0 = starting();
    let b1 = b0.make_move(Move::new(Square::E2, Square::E4));
    let b2 = b1.make_move(Move::new(Square::D7, Square::D5));
    let b3 = b2.make_move(Move::new(Square::E4, Square::D5));
    assert_eq!(b3.piece_on(Square::D5), Some(PieceKind::Pawn));
    assert_eq!(b3.color_on(Square::D5), Some(Color::White));
    assert_eq!(b3.piece_on(Square::E4), None);
    assert_eq!(b3.halfmove_clock(), 0);
}

#[test]
fn en_passant_capture() {
    let b = starting()
        .make_move(Move::new(Square::E2, Square::E4))
        .make_move(Move::new(Square::A7, Square::A6))
        .make_move(Move::new(Square::E4, Square::E5))
        .make_move(Move::new(Square::D7, Square::D5));
    assert_eq!(b.en_passant(), Some(Square::D6));
    let after = b.make_move(Move::new_en_passant(Square::E5, Square::D6));
    assert_eq!(after.piece_on(Square::D6), Some(PieceKind::Pawn));
    assert_eq!(after.color_on(Square::D6), Some(Color::White));
    assert_eq!(after.piece_on(Square::D5), None);
    assert_eq!(after.piece_on(Square::E5), None);
}

#[test]
fn promotion() {
    let board: Board = "4k3/4P3/8/8/8/8/8/4K3 w - - 0 1".parse().unwrap();
    let mv = Move::new_promotion(Square::E7, Square::E8, PromotionPiece::Queen);
    let after = board.make_move(mv);
    assert_eq!(after.piece_on(Square::E8), Some(PieceKind::Queen));
    assert_eq!(after.color_on(Square::E8), Some(Color::White));
    assert_eq!(after.piece_on(Square::E7), None);
}

#[test]
fn capture_promotion() {
    let board: Board = "3rk3/4P3/8/8/8/8/8/4K3 w - - 0 1".parse().unwrap();
    let mv = Move::new_promotion(Square::E7, Square::D8, PromotionPiece::Queen);
    let after = board.make_move(mv);
    assert_eq!(after.piece_on(Square::D8), Some(PieceKind::Queen));
    assert_eq!(after.color_on(Square::D8), Some(Color::White));
    assert_eq!(after.piece_on(Square::E7), None);
}

#[test]
fn kingside_castling_white() {
    let board: Board = "r3k2r/pppppppp/8/8/8/8/PPPPPPPP/R3K2R w KQkq - 0 1".parse().unwrap();
    let mv = Move::new_castle(Square::E1, Square::G1);
    let after = board.make_move(mv);
    assert_eq!(after.piece_on(Square::G1), Some(PieceKind::King));
    assert_eq!(after.color_on(Square::G1), Some(Color::White));
    assert_eq!(after.piece_on(Square::F1), Some(PieceKind::Rook));
    assert_eq!(after.color_on(Square::F1), Some(Color::White));
    assert_eq!(after.piece_on(Square::E1), None);
    assert_eq!(after.piece_on(Square::H1), None);
    assert!(!after.castling().contains(CastleRights::WHITE_KING()));
    assert!(!after.castling().contains(CastleRights::WHITE_QUEEN()));
    assert!(after.castling().contains(CastleRights::BLACK_KING()));
    assert!(after.castling().contains(CastleRights::BLACK_QUEEN()));
}

#[test]
fn queenside_castling_white() {
    let board: Board = "r3k2r/pppppppp/8/8/8/8/PPPPPPPP/R3K2R w KQkq - 0 1".parse().unwrap();
    let mv = Move::new_castle(Square::E1, Square::C1);
    let after = board.make_move(mv);
    assert_eq!(after.piece_on(Square::C1), Some(PieceKind::King));
    assert_eq!(after.piece_on(Square::D1), Some(PieceKind::Rook));
    assert_eq!(after.piece_on(Square::E1), None);
    assert_eq!(after.piece_on(Square::A1), None);
}

#[test]
fn rook_move_revokes_castling() {
    let board: Board = "r3k2r/pppppppp/8/8/8/8/PPPPPPPP/R3K2R w KQkq - 0 1".parse().unwrap();
    let mv = Move::new(Square::H1, Square::G1);
    let after = board.make_move(mv);
    assert!(!after.castling().contains(CastleRights::WHITE_KING()));
    assert!(after.castling().contains(CastleRights::WHITE_QUEEN()));
}

#[test]
fn halfmove_clock_increments_on_quiet() {
    let board = starting();
    let mv = Move::new(Square::G1, Square::F3);
    let after = board.make_move(mv);
    assert_eq!(after.halfmove_clock(), 1);
}

#[test]
fn fullmove_increments_after_black() {
    let b0 = starting();
    assert_eq!(b0.fullmove_number(), 1);
    let b1 = b0.make_move(Move::new(Square::E2, Square::E4));
    assert_eq!(b1.fullmove_number(), 1);
    let b2 = b1.make_move(Move::new(Square::E7, Square::E5));
    assert_eq!(b2.fullmove_number(), 2);
}

#[test]
fn is_square_attacked_starting() {
    let board = starting();
    assert!(board.is_square_attacked(Square::E2, Color::White));
    assert!(!board.is_square_attacked(Square::E4, Color::White));
    assert!(!board.is_square_attacked(Square::E4, Color::Black));
}

#[test]
fn is_square_attacked_knight() {
    let board = starting();
    assert!(board.is_square_attacked(Square::F3, Color::White));
    assert!(board.is_square_attacked(Square::F6, Color::Black));
}

#[test]
fn incremental_hash_normal_move() {
    let board = starting();
    let after = board.make_move(Move::new(Square::E2, Square::E4));
    assert_eq!(after.hash(), hash_from_scratch(&after));
}

#[test]
fn incremental_hash_capture() {
    let b = starting().make_move(Move::new(Square::E2, Square::E4)).make_move(Move::new(Square::D7, Square::D5));
    let after = b.make_move(Move::new(Square::E4, Square::D5));
    assert_eq!(after.hash(), hash_from_scratch(&after));
}

#[test]
fn incremental_hash_double_pawn_push() {
    let board = starting();
    let after = board.make_move(Move::new(Square::E2, Square::E4));
    assert_eq!(after.hash(), hash_from_scratch(&after));
    assert!(after.en_passant().is_some());
}

#[test]
fn incremental_hash_en_passant() {
    let b = starting()
        .make_move(Move::new(Square::E2, Square::E4))
        .make_move(Move::new(Square::A7, Square::A6))
        .make_move(Move::new(Square::E4, Square::E5))
        .make_move(Move::new(Square::D7, Square::D5));
    assert_eq!(b.hash(), hash_from_scratch(&b));
    let after = b.make_move(Move::new_en_passant(Square::E5, Square::D6));
    assert_eq!(after.hash(), hash_from_scratch(&after));
}

#[test]
fn incremental_hash_kingside_castling() {
    let board: Board = "r3k2r/pppppppp/8/8/8/8/PPPPPPPP/R3K2R w KQkq - 0 1".parse().unwrap();
    let after = board.make_move(Move::new_castle(Square::E1, Square::G1));
    assert_eq!(after.hash(), hash_from_scratch(&after));
}

#[test]
fn incremental_hash_queenside_castling() {
    let board: Board = "r3k2r/pppppppp/8/8/8/8/PPPPPPPP/R3K2R w KQkq - 0 1".parse().unwrap();
    let after = board.make_move(Move::new_castle(Square::E1, Square::C1));
    assert_eq!(after.hash(), hash_from_scratch(&after));
}

#[test]
fn incremental_hash_black_castling() {
    let board: Board = "r3k2r/pppppppp/8/8/8/8/PPPPPPPP/R3K2R b KQkq - 0 1".parse().unwrap();
    let after = board.make_move(Move::new_castle(Square::E8, Square::G8));
    assert_eq!(after.hash(), hash_from_scratch(&after));
    let after2 = board.make_move(Move::new_castle(Square::E8, Square::C8));
    assert_eq!(after2.hash(), hash_from_scratch(&after2));
}

#[test]
fn incremental_hash_promotion() {
    let board: Board = "4k3/4P3/8/8/8/8/8/4K3 w - - 0 1".parse().unwrap();
    for promo in PromotionPiece::ALL {
        let after = board.make_move(Move::new_promotion(Square::E7, Square::E8, promo));
        assert_eq!(after.hash(), hash_from_scratch(&after), "hash mismatch for promotion to {:?}", promo);
    }
}

#[test]
fn incremental_hash_capture_promotion() {
    let board: Board = "3rk3/4P3/8/8/8/8/8/4K3 w - - 0 1".parse().unwrap();
    let after = board.make_move(Move::new_promotion(Square::E7, Square::D8, PromotionPiece::Queen));
    assert_eq!(after.hash(), hash_from_scratch(&after));
}

// --- Zobrist ---

#[test]
fn starting_position_nonzero_hash() {
    let board = Board::starting_position();
    assert_ne!(hash_from_scratch(&board), 0);
}

#[test]
fn starting_position_hash_matches_field() {
    let board = Board::starting_position();
    assert_eq!(board.hash(), hash_from_scratch(&board));
}

#[test]
fn different_positions_different_hashes() {
    let starting = Board::starting_position();
    let sicilian: Board = "rnbqkbnr/pp1ppppp/8/2p5/4P3/8/PPPP1PPP/RNBQKBNR w KQkq c6 0 2".parse().unwrap();
    assert_ne!(starting.hash(), sicilian.hash());
}

#[test]
fn fen_parsed_board_has_correct_hash() {
    let from_fen: Board = "rnbqkbnr/pppppppp/8/8/8/8/PPPPPPPP/RNBQKBNR w KQkq - 0 1".parse().unwrap();
    assert_eq!(from_fen.hash(), hash_from_scratch(&from_fen));
}

#[test]
fn all_keys_are_unique() {
    let mut all_keys: Vec<u64> = KEYS.to_vec();
    let count = all_keys.len();
    all_keys.sort();
    all_keys.dedup();
    assert_eq!(all_keys.len(), count, "some Zobrist keys collide");
}

#[test]
fn transposition_same_hash() {
    // 1.Nf3 Nf6 2.Nc3 Nc6 vs 1.Nc3 Nc6 2.Nf3 Nf6 — same position!
    let path_a = Board::starting_position()
        .make_move(Move::new(Square::G1, Square::F3))
        .make_move(Move::new(Square::G8, Square::F6))
        .make_move(Move::new(Square::B1, Square::C3))
        .make_move(Move::new(Square::B8, Square::C6));
    let path_b = Board::starting_position()
        .make_move(Move::new(Square::B1, Square::C3))
        .make_move(Move::new(Square::B8, Square::C6))
        .make_move(Move::new(Square::G1, Square::F3))
        .make_move(Move::new(Square::G8, Square::F6));
    assert_eq!(path_a.hash(), path_b.hash(), "transposed positions should have equal hashes");
}

#[test]
fn incremental_hash_many_moves_sequence() {
    let moves = [
        Move::new(Square::E2, Square::E4),
        Move::new(Square::E7, Square::E5),
        Move::new(Square::G1, Square::F3),
        Move::new(Square::B8, Square::C6),
        Move::new(Square::F1, Square::B5),
        Move::new(Square::A7, Square::A6),
    ];
    let mut board = Board::starting_position();
    for mv in &moves {
        board = board.make_move(*mv);
        assert_eq!(board.hash(), hash_from_scratch(&board), "hash mismatch after move {}", mv.to_uci());
    }
}

#[test]
fn legal_moves_keep_board_valid_and_hash() {
    let fens = [
        "r3k2r/p1ppqpb1/bn2pnp1/3PN3/1p2P3/2N2Q1p/PPPBBPPP/R3K2R w KQkq - 0 1",
        "rnbqkbnr/pppppppp/8/8/8/8/PPPPPPPP/RNBQKBNR w KQkq - 0 1",
        "8/2p5/3p4/KP5r/1R3p1k/8/4P1P1/8 w - - 0 1",
    ];
    for fen in fens {
        let board: Board = fen.parse().unwrap();
        for mv in cesso::movegen::generate_legal_moves(&board).as_slice() {
            let after = board.make_move(*mv);
            assert_eq!(after.validate(), Ok(()));
            assert_eq!(after.hash(), hash_from_scratch(&after));
        }
    }
}
