use std::collections::HashSet;

use cesso::bitboard::Bitboard;
use cesso::castle_rights::{CastleRights, CastleSide};
use cesso::chess_move::{Move, MoveKind, PromotionPiece};
use cesso::color::Color;
use cesso::error::{BoardError, FenError};
use cesso::file::File;
use cesso::piece::Piece;
use cesso::piece_kind::PieceKind;
use cesso::rank::Rank;
use cesso::square::Square;

// --- Color ---

#[test]
fn color_index_values() {
    assert_eq!(Color::White.index(), 0);
    assert_eq!(Color::Black.index(), 1);
}

#[test]
fn flip_roundtrip() {
    assert_eq!(Color::White.flip(), Color::Black);
    assert_eq!(Color::Black.flip(), Color::White);
    assert_eq!(Color::White.flip().flip(), Color::White);
}

#[test]
fn color_not_operator() {
    assert_eq!(!Color::White, Color::Black);
    assert_eq!(!Color::Black, Color::White);
}

#[test]
fn color_display() {
    assert_eq!(Color::White.to_fen(), "w");
    assert_eq!(Color::Black.to_fen(), "b");
}

#[test]
fn color_all_and_count() {
    assert_eq!(Color::COUNT, 2);
    assert_eq!(Color::ALL.len(), Color::COUNT);
    assert_eq!(Color::ALL[0], Color::White);
    assert_eq!(Color::ALL[1], Color::Black);
}

// --- File ---

#[test]
fn file_index_values() {
    assert_eq!(File::FileA.index(), 0);
    assert_eq!(File::FileH.index(), 7);
}

#[test]
fn file_from_index_roundtrip() {
    for file in File::ALL {
        assert_eq!(File::from_index(file.index() as u8), Some(file));
    }
}

#[test]
fn file_from_index_out_of_range() {
    assert_eq!(File::from_index(8), None);
    assert_eq!(File::from_index(255), None);
}

#[test]
fn file_display() {
    assert_eq!(File::FileA.to_char().to_string(), "a");
    assert_eq!(File::FileH.to_char().to_string(), "h");
}

#[test]
fn file_ordering() {
    assert!(File::FileA < File::FileH);
    assert!(File::FileC < File::FileE);
}

#[test]
fn file_all_and_count() {
    assert_eq!(File::COUNT, 8);
    assert_eq!(File::ALL.len(), File::COUNT);
}

// --- Rank ---

#[test]
fn rank_index_values() {
    assert_eq!(Rank::Rank1.index(), 0);
    assert_eq!(Rank::Rank8.index(), 7);
}

#[test]
fn rank_from_index_roundtrip() {
    for rank in Rank::ALL {
        assert_eq!(Rank::from_index(rank.index() as u8), Some(rank));
    }
}

#[test]
fn rank_from_index_out_of_range() {
    assert_eq!(Rank::from_index(8), None);
    assert_eq!(Rank::from_index(255), None);
}

#[test]
fn rank_display() {
    assert_eq!(Rank::Rank1.to_char().to_string(), "1");
    assert_eq!(Rank::Rank8.to_char().to_string(), "8");
}

#[test]
fn rank_ordering() {
    assert!(Rank::Rank1 < Rank::Rank8);
    assert!(Rank::Rank3 < Rank::Rank5);
}

#[test]
fn rank_all_and_count() {
    assert_eq!(Rank::COUNT, 8);
    assert_eq!(Rank::ALL.len(), Rank::COUNT);
}

// --- PieceKind ---

#[test]
fn piece_kind_index_values() {
    assert_eq!(PieceKind::Pawn.index(), 0);
    assert_eq!(PieceKind::Knight.index(), 1);
    assert_eq!(PieceKind::Bishop.index(), 2);
    assert_eq!(PieceKind::Rook.index(), 3);
    assert_eq!(PieceKind::Queen.index(), 4);
    assert_eq!(PieceKind::King.index(), 5);
}

#[test]
fn piece_kind_fen_char_roundtrip() {
    for kind in PieceKind::ALL {
        let c = kind.fen_char();
        assert_eq!(PieceKind::from_fen_char(c), Some(kind));
        assert_eq!(PieceKind::from_fen_char(c.to_ascii_uppercase()), Some(kind));
    }
}

#[test]
fn from_fen_char_invalid() {
    assert_eq!(PieceKind::from_fen_char('x'), None);
    assert_eq!(PieceKind::from_fen_char('1'), None);
}

#[test]
fn piece_kind_display() {
    assert_eq!(PieceKind::Pawn.fen_char().to_string(), "p");
    assert_eq!(PieceKind::King.fen_char().to_string(), "k");
}

#[test]
fn piece_kind_all_and_count() {
    assert_eq!(PieceKind::COUNT, 6);
    assert_eq!(PieceKind::ALL.len(), PieceKind::COUNT);
}

// --- Piece ---

#[test]
fn new_roundtrip() {
    for color in Color::ALL {
        for kind in PieceKind::ALL {
            let piece = Piece::new(kind, color);
            assert_eq!(piece.kind(), kind, "kind mismatch for {color:?} {kind:?}");
            assert_eq!(piece.color(), color, "color mismatch for {color:?} {kind:?}");
        }
    }
}

#[test]
fn raw_values() {
    assert_eq!(Piece::WHITE_PAWN.raw(), 0);
    assert_eq!(Piece::WHITE_KNIGHT.raw(), 1);
    assert_eq!(Piece::WHITE_BISHOP.raw(), 2);
    assert_eq!(Piece::WHITE_ROOK.raw(), 3);
    assert_eq!(Piece::WHITE_QUEEN.raw(), 4);
    assert_eq!(Piece::WHITE_KING.raw(), 5);
    assert_eq!(Piece::BLACK_PAWN.raw(), 8);
    assert_eq!(Piece::BLACK_KNIGHT.raw(), 9);
    assert_eq!(Piece::BLACK_BISHOP.raw(), 10);
    assert_eq!(Piece::BLACK_ROOK.raw(), 11);
    assert_eq!(Piece::BLACK_QUEEN.raw(), 12);
    assert_eq!(Piece::BLACK_KING.raw(), 13);
}

#[test]
fn index_contiguity() {
    let mut seen = [false; 12];
    for piece in Piece::ALL {
        let idx = piece.index();
        assert!(idx < 12, "index {idx} out of range for {piece:?}");
        assert!(!seen[idx], "duplicate index {idx} for {piece:?}");
        seen[idx] = true;
    }
    assert!(seen.iter().all(|&v| v), "not all indices 0-11 were covered");
}

#[test]
fn piece_fen_char_roundtrip() {
    for piece in Piece::ALL {
        let c = piece.fen_char();
        assert_eq!(Piece::from_fen_char(c), Some(piece), "roundtrip failed for {piece:?} (char '{c}')");
    }
}

#[test]
fn from_fen_char_case_sensitivity() {
    assert_eq!(Piece::from_fen_char('P'), Some(Piece::WHITE_PAWN));
    assert_eq!(Piece::from_fen_char('N'), Some(Piece::WHITE_KNIGHT));
    assert_eq!(Piece::from_fen_char('B'), Some(Piece::WHITE_BISHOP));
    assert_eq!(Piece::from_fen_char('R'), Some(Piece::WHITE_ROOK));
    assert_eq!(Piece::from_fen_char('Q'), Some(Piece::WHITE_QUEEN));
    assert_eq!(Piece::from_fen_char('K'), Some(Piece::WHITE_KING));
    assert_eq!(Piece::from_fen_char('p'), Some(Piece::BLACK_PAWN));
    assert_eq!(Piece::from_fen_char('n'), Some(Piece::BLACK_KNIGHT));
    assert_eq!(Piece::from_fen_char('b'), Some(Piece::BLACK_BISHOP));
    assert_eq!(Piece::from_fen_char('r'), Some(Piece::BLACK_ROOK));
    assert_eq!(Piece::from_fen_char('q'), Some(Piece::BLACK_QUEEN));
    assert_eq!(Piece::from_fen_char('k'), Some(Piece::BLACK_KING));
    assert_eq!(Piece::from_fen_char('x'), None);
    assert_eq!(Piece::from_fen_char('1'), None);
    assert_eq!(Piece::from_fen_char(' '), None);
    assert_eq!(Piece::from_fen_char('Z'), None);
}

#[test]
fn display_format() {
    assert_eq!(Piece::WHITE_PAWN.fen_char().to_string(), "P");
    assert_eq!(Piece::WHITE_KING.fen_char().to_string(), "K");
    assert_eq!(Piece::BLACK_PAWN.fen_char().to_string(), "p");
    assert_eq!(Piece::BLACK_KING.fen_char().to_string(), "k");
    assert_eq!(Piece::WHITE_KNIGHT.fen_char().to_string(), "N");
    assert_eq!(Piece::BLACK_QUEEN.fen_char().to_string(), "q");
}

#[test]
fn count_and_all() {
    assert_eq!(Piece::COUNT, 12);
    assert_eq!(Piece::ALL.len(), Piece::COUNT);
}

// --- Square ---

#[test]
fn new_and_accessors() {
    let sq = Square::new(Rank::Rank1, File::FileA);
    assert_eq!(sq, Square::A1);
    assert_eq!(sq.rank(), Rank::Rank1);
    assert_eq!(sq.file(), File::FileA);
    assert_eq!(sq.index(), 0);
}

#[test]
fn rank_file_roundtrip() {
    for sq in Square::all() {
        let reconstructed = Square::new(sq.rank(), sq.file());
        assert_eq!(sq, reconstructed);
    }
}

#[test]
fn from_index_valid() {
    for i in 0u8..64 {
        assert!(Square::from_index(i).is_some());
    }
}

#[test]
fn from_index_invalid() {
    assert!(Square::from_index(64).is_none());
    assert!(Square::from_index(255).is_none());
}

#[test]
fn algebraic_notation() {
    assert_eq!(Square::from_algebraic("a1"), Some(Square::A1));
    assert_eq!(Square::from_algebraic("e4"), Some(Square::E4));
    assert_eq!(Square::from_algebraic("h8"), Some(Square::H8));
    assert_eq!(Square::E4.to_algebraic(), "e4");
    assert_eq!(Square::A1.to_algebraic(), "a1");
    assert_eq!(Square::H8.to_algebraic(), "h8");
}

#[test]
fn algebraic_invalid() {
    assert!(Square::from_algebraic("i1").is_none());
    assert!(Square::from_algebraic("a9").is_none());
    assert!(Square::from_algebraic("").is_none());
    assert!(Square::from_algebraic("a").is_none());
    assert!(Square::from_algebraic("a1b").is_none());
}

#[test]
fn named_constants() {
    assert_eq!(Square::A1.index(), 0);
    assert_eq!(Square::H1.index(), 7);
    assert_eq!(Square::A8.index(), 56);
    assert_eq!(Square::H8.index(), 63);
    assert_eq!(Square::E1.index(), 4);
    assert_eq!(Square::E8.index(), 60);
}

#[test]
fn bitboard_single_bit() {
    let bb = Square::A1.bitboard();
    assert_eq!(bb.count(), 1);
    assert!(bb.contains(Square::A1));
    assert!(!bb.contains(Square::B1));
}

#[test]
fn all_iterator_count() {
    assert_eq!(Square::all().len(), 64);
}

// --- Bitboard ---

#[test]
fn empty_and_full() {
    assert!(Bitboard::EMPTY().is_empty());
    assert!(!Bitboard::FULL().is_empty());
    assert!(!Bitboard::EMPTY().is_nonempty());
    assert!(Bitboard::FULL().is_nonempty());
    assert_eq!(!Bitboard::EMPTY(), Bitboard::FULL());
    assert_eq!(!Bitboard::FULL(), Bitboard::EMPTY());
}

#[test]
fn set_contains_clear() {
    let bb = Bitboard::EMPTY().with(Square::E4);
    assert!(bb.contains(Square::E4));
    assert!(!bb.contains(Square::D4));
    assert_eq!(bb.count(), 1);
    let bb2 = bb.without(Square::E4);
    assert!(!bb2.contains(Square::E4));
    assert!(bb2.is_empty());
}

#[test]
fn toggle() {
    let bb = Bitboard::EMPTY().toggle(Square::A1).toggle(Square::H8);
    assert!(bb.contains(Square::A1));
    assert!(bb.contains(Square::H8));
    assert_eq!(bb.count(), 2);
    let bb2 = bb.toggle(Square::A1);
    assert!(!bb2.contains(Square::A1));
    assert!(bb2.contains(Square::H8));
}

#[test]
fn count() {
    assert_eq!(Bitboard::EMPTY().count(), 0);
    assert_eq!(Bitboard::FULL().count(), 64);
    assert_eq!(Bitboard::RANK_1().count(), 8);
    assert_eq!(Bitboard::FILE_A().count(), 8);
}

#[test]
fn rank_masks() {
    for rank in Rank::ALL {
        let mask = Bitboard::rank_mask(rank);
        assert_eq!(mask.count(), 8);
        for file in File::ALL {
            let sq = Square::new(rank, file);
            assert!(mask.contains(sq));
        }
    }
}

#[test]
fn file_masks() {
    for file in File::ALL {
        let mask = Bitboard::file_mask(file);
        assert_eq!(mask.count(), 8);
        for rank in Rank::ALL {
            let sq = Square::new(rank, file);
            assert!(mask.contains(sq));
        }
    }
}

#[test]
fn lsb() {
    assert_eq!(Bitboard::EMPTY().lsb(), None);
    let bb = Bitboard::EMPTY().with(Square::C3).with(Square::F6);
    assert_eq!(bb.lsb(), Some(Square::C3));
}

#[test]
fn pop_lsb() {
    let bb = Bitboard::EMPTY().with(Square::A1).with(Square::H8);
    let (sq, rest) = bb.pop_lsb().unwrap();
    assert_eq!(sq, Square::A1);
    assert_eq!(rest.count(), 1);
    let (sq2, rest2) = rest.pop_lsb().unwrap();
    assert_eq!(sq2, Square::H8);
    assert!(rest2.is_empty());
}

#[test]
fn iterator_order_and_count() {
    let bb = Bitboard::EMPTY().with(Square::A1).with(Square::E4).with(Square::H8);
    let squares: Vec<_> = bb.squares();
    assert_eq!(squares.len(), 3);
    assert_eq!(squares[0], Square::A1);
    assert_eq!(squares[1], Square::E4);
    assert_eq!(squares[2], Square::H8);
}

#[test]
fn exact_size_iterator() {
    let bb = Bitboard::RANK_1();
    assert_eq!(bb.squares().len(), 8);
}

#[test]
fn operator_commutativity() {
    let a = Bitboard::RANK_1();
    let b = Bitboard::FILE_A();
    assert_eq!(a & b, b & a);
    assert_eq!(a | b, b | a);
    assert_eq!(a ^ b, b ^ a);
}

#[test]
fn shift_operators() {
    let bb = Bitboard::RANK_1();
    let shifted = bb << 8;
    assert_eq!(shifted, Bitboard::RANK_2());
    let back = shifted >> 8;
    assert_eq!(back, Bitboard::RANK_1());
}

#[test]
fn default_is_empty() {
    assert_eq!(Bitboard::default(), Bitboard::EMPTY());
}

#[test]
fn assign_operators() {
    let mut bb = Bitboard::RANK_1();
    bb |= Bitboard::RANK_2();
    assert_eq!(bb.count(), 16);
    bb &= Bitboard::FILE_A();
    assert_eq!(bb.count(), 2);
    bb ^= Bitboard::EMPTY().with(Square::A1);
    assert_eq!(bb.count(), 1);
}

// --- CastleRights ---

#[test]
fn insert_remove_roundtrip() {
    let rights = CastleRights::NONE().insert(CastleRights::WHITE_KING()).insert(CastleRights::BLACK_QUEEN());
    assert!(rights.contains(CastleRights::WHITE_KING()));
    assert!(rights.contains(CastleRights::BLACK_QUEEN()));
    assert!(!rights.contains(CastleRights::WHITE_QUEEN()));
    let removed = rights.remove(CastleRights::WHITE_KING());
    assert!(!removed.contains(CastleRights::WHITE_KING()));
    assert!(removed.contains(CastleRights::BLACK_QUEEN()));
}

#[test]
fn from_fen_to_fen_roundtrip() {
    let cases = ["KQkq", "Kq", "k", "-", "KQ", "kq", "Qk"];
    for fen in &cases {
        let rights = CastleRights::from_fen(fen).unwrap();
        let output = rights.to_fen();
        let reparsed = CastleRights::from_fen(&output).unwrap();
        assert_eq!(rights, reparsed, "roundtrip failed for {fen}");
    }
}

#[test]
fn from_fen_starting() {
    let rights = CastleRights::from_fen("KQkq").unwrap();
    assert_eq!(rights, CastleRights::ALL());
}

#[test]
fn from_fen_none() {
    let rights = CastleRights::from_fen("-").unwrap();
    assert_eq!(rights, CastleRights::NONE());
    assert!(rights.is_empty());
}

#[test]
fn from_fen_invalid() {
    assert!(CastleRights::from_fen("KQxq").is_err());
    assert!(CastleRights::from_fen("1").is_err());
}

#[test]
fn has_color_side() {
    let rights = CastleRights::from_fen("Kq").unwrap();
    assert!(rights.has(Color::White, CastleSide::KingSide));
    assert!(!rights.has(Color::White, CastleSide::QueenSide));
    assert!(!rights.has(Color::Black, CastleSide::KingSide));
    assert!(rights.has(Color::Black, CastleSide::QueenSide));
}

#[test]
fn remove_color() {
    let rights = CastleRights::ALL().remove_color(Color::White);
    assert_eq!(rights, CastleRights::BLACK_BOTH());
    let rights2 = CastleRights::ALL().remove_color(Color::Black);
    assert_eq!(rights2, CastleRights::WHITE_BOTH());
}

#[test]
fn contains_checks() {
    assert!(CastleRights::ALL().contains(CastleRights::WHITE_BOTH()));
    assert!(CastleRights::ALL().contains(CastleRights::BLACK_BOTH()));
    assert!(!CastleRights::NONE().contains(CastleRights::WHITE_KING()));
}

#[test]
fn castle_rights_not_operator() {
    assert_eq!(!CastleRights::NONE(), CastleRights::ALL());
    assert_eq!(!CastleRights::ALL(), CastleRights::NONE());
    assert_eq!(!CastleRights::WHITE_BOTH(), CastleRights::BLACK_BOTH());
}

#[test]
fn castle_rights_display() {
    assert_eq!(CastleRights::ALL().to_fen(), "KQkq");
    assert_eq!(CastleRights::NONE().to_fen(), "-");
}

#[test]
fn new_masks_to_four_bits() {
    let rights = CastleRights::new(0xFF);
    assert_eq!(rights.bits(), 0b1111);
}

// --- Move ---

#[test]
fn size_of_move() {
    assert_eq!(std::mem::size_of::<Move>(), 2);
}

#[test]
fn normal_move_roundtrip() {
    let mv = Move::new(Square::E2, Square::E4);
    assert_eq!(mv.source(), Square::E2);
    assert_eq!(mv.dest(), Square::E4);
    assert_eq!(mv.kind(), MoveKind::Normal);
    assert!(mv.is_quiet());
    assert!(!mv.is_promotion());
    assert!(!mv.is_en_passant());
    assert!(!mv.is_castle());
    assert!(!mv.is_null());
}

#[test]
fn edge_squares() {
    let mv1 = Move::new(Square::A1, Square::H8);
    assert_eq!(mv1.source(), Square::A1);
    assert_eq!(mv1.dest(), Square::H8);
    assert_eq!(mv1.kind(), MoveKind::Normal);
    let mv2 = Move::new(Square::H1, Square::A8);
    assert_eq!(mv2.source(), Square::H1);
    assert_eq!(mv2.dest(), Square::A8);
    assert_eq!(mv2.kind(), MoveKind::Normal);
}

#[test]
fn promotion_all_pieces() {
    for promo in PromotionPiece::ALL {
        let mv = Move::new_promotion(Square::E7, Square::E8, promo);
        assert_eq!(mv.source(), Square::E7);
        assert_eq!(mv.dest(), Square::E8);
        assert_eq!(mv.kind(), MoveKind::Promotion);
        assert_eq!(mv.promotion_piece(), promo);
        assert!(mv.is_promotion());
        assert!(!mv.is_quiet());
    }
}

#[test]
fn promotion_a_file() {
    let mv = Move::new_promotion(Square::A7, Square::A8, PromotionPiece::Queen);
    assert_eq!(mv.source(), Square::A7);
    assert_eq!(mv.dest(), Square::A8);
    assert_eq!(mv.kind(), MoveKind::Promotion);
    assert_eq!(mv.promotion_piece(), PromotionPiece::Queen);
}

#[test]
fn promotion_h_file() {
    let mv = Move::new_promotion(Square::H7, Square::H8, PromotionPiece::Rook);
    assert_eq!(mv.source(), Square::H7);
    assert_eq!(mv.dest(), Square::H8);
    assert_eq!(mv.kind(), MoveKind::Promotion);
    assert_eq!(mv.promotion_piece(), PromotionPiece::Rook);
}

#[test]
fn en_passant_roundtrip() {
    let mv = Move::new_en_passant(Square::E5, Square::D6);
    assert_eq!(mv.source(), Square::E5);
    assert_eq!(mv.dest(), Square::D6);
    assert_eq!(mv.kind(), MoveKind::EnPassant);
    assert!(mv.is_en_passant());
    assert!(!mv.is_quiet());
    assert!(!mv.is_promotion());
    assert!(!mv.is_castle());
    assert!(!mv.is_null());
}

#[test]
fn castling_all_four() {
    let cases = [
        (Square::E1, Square::G1),
        (Square::E1, Square::C1),
        (Square::E8, Square::G8),
        (Square::E8, Square::C8),
    ];
    for (src, dst) in cases {
        let mv = Move::new_castle(src, dst);
        assert_eq!(mv.source(), src);
        assert_eq!(mv.dest(), dst);
        assert_eq!(mv.kind(), MoveKind::Castling);
        assert!(mv.is_castle());
        assert!(!mv.is_quiet());
        assert!(!mv.is_promotion());
        assert!(!mv.is_en_passant());
    }
}

#[test]
fn null_move() {
    let mv = Move::NULL();
    assert!(mv.is_null());
    assert_eq!(mv.source(), Square::A1);
    assert_eq!(mv.dest(), Square::A1);
    assert_eq!(mv.kind(), MoveKind::Normal);
}

#[test]
fn uci_normal() {
    assert_eq!(Move::new(Square::E2, Square::E4).to_uci(), "e2e4");
}

#[test]
fn uci_promotion() {
    let mv = Move::new_promotion(Square::E7, Square::E8, PromotionPiece::Queen);
    assert_eq!(mv.to_uci(), "e7e8q");
}

#[test]
fn display_null() {
    assert_eq!(Move::NULL().to_text(), "0000");
}

#[test]
fn equality_and_hash() {
    let mv1 = Move::new(Square::E2, Square::E4);
    let mv2 = Move::new(Square::E2, Square::E4);
    let mv3 = Move::new(Square::D2, Square::D4);
    assert_eq!(mv1, mv2);
    assert_ne!(mv1, mv3);
    let mut set = HashSet::new();
    set.insert(mv1);
    set.insert(mv2);
    assert_eq!(set.len(), 1);
    set.insert(mv3);
    assert_eq!(set.len(), 2);
}

#[test]
fn promotion_piece_to_piece_kind() {
    assert_eq!(PromotionPiece::Knight.to_piece_kind(), PieceKind::Knight);
    assert_eq!(PromotionPiece::Bishop.to_piece_kind(), PieceKind::Bishop);
    assert_eq!(PromotionPiece::Rook.to_piece_kind(), PieceKind::Rook);
    assert_eq!(PromotionPiece::Queen.to_piece_kind(), PieceKind::Queen);
}

#[test]
fn exhaustive_normal_roundtrip() {
    for src in 0u8..64 {
        for dst in 0u8..64 {
            let src_sq = Square::from_index(src).unwrap();
            let dst_sq = Square::from_index(dst).unwrap();
            let mv = Move::new(src_sq, dst_sq);
            assert_eq!(mv.source(), src_sq, "source mismatch for {src}->{dst}");
            assert_eq!(mv.dest(), dst_sq, "dest mismatch for {src}->{dst}");
            assert_eq!(mv.kind(), MoveKind::Normal, "kind mismatch for {src}->{dst}");
        }
    }
}

// --- Errors ---

#[test]
fn fen_error_from_board_error() {
    let board_err = BoardError::OverlappingPieces;
    let fen_err: FenError = board_err.into();
    assert!(matches!(fen_err, FenError::InvalidBoard { .. }));
}

#[test]
fn castle_text_roundtrip_all_rights() {
    for bits in 0u8..16 {
        let rights = CastleRights::new(bits);
        assert_eq!(CastleRights::from_fen(&rights.to_fen()), Ok(rights));
    }
    assert_eq!(CastleRights::new(0).to_fen(), "-");
    assert_eq!(CastleRights::new(15).to_fen(), "KQkq");
    assert_eq!(CastleRights::new(0b1010).to_fen(), "Qq");
}
