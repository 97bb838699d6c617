//! cesso: a bitboard chess engine library with verified board handling,
//! legal move generation, evaluation (hand-crafted and NNUE), alpha-beta
//! search and UCI command parsing.

pub mod text;
pub mod bits;
pub mod color;
pub mod file;
pub mod rank;
pub mod piece_kind;
pub mod square;
pub mod bitboard;
pub mod piece;
pub mod error;
pub mod castle_rights;
pub mod chess_move;
pub mod attacks;
pub mod zobrist;
pub mod board;
pub mod make_move;
pub mod fen;
pub mod fen_roundtrip;
pub mod movegen;
pub mod move_text;
pub mod legal_apply;
pub mod perft;
pub mod eval;
pub mod search;
pub mod time;
pub mod uci;

pub use color::Color;
pub use file::File;
pub use rank::Rank;
pub use piece_kind::PieceKind;
pub use square::Square;
pub use bitboard::Bitboard;
pub use piece::Piece;
pub use error::{BoardError, FenError};
pub use castle_rights::{CastleRights, CastleSide};
pub use chess_move::{Move, MoveKind, PromotionPiece};
pub use board::Board;
