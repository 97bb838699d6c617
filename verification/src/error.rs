//! Error types for FEN parsing and board validation.

use vstd::prelude::*;

verus! {

/// Errors that occur when parsing a FEN string.
#[derive(Debug, Clone, PartialEq, Eq)]
pub enum FenError {
    /// The FEN string does not have exactly 6 space-separated fields.
    WrongFieldCount {
        /// Number of fields found.
        found: usize,
    },
    /// The piece placement section does not have exactly 8 ranks.
    WrongRankCount {
        /// Number of ranks found.
        found: usize,
    },
    /// A rank in the piece placement describes more or fewer than 8 squares.
    BadRankLength {
        /// Zero-based rank index (0 = rank 8 in FEN, 7 = rank 1).
        rank_index: usize,
        /// Number of squares described.
        length: usize,
    },
    /// An unrecognized character appeared in the piece placement.
    InvalidPieceChar {
        /// The invalid character.
        character: char,
    },
    /// The active color field is not "w" or "b".
    InvalidColor {
        /// The invalid color string.
        found: String,
    },
    /// An unrecognized character appeared in the castling rights field.
    InvalidCastlingChar {
        /// The invalid character.
        character: char,
    },
    /// The en passant field is not "-" or a valid algebraic square.
    InvalidEnPassant {
        /// The invalid en passant string.
        found: String,
    },
    /// A move counter (halfmove clock or fullmove number) is not a valid number.
    InvalidMoveCounter {
        /// The field name ("halfmove clock" or "fullmove number").
        field: &'static str,
        /// The invalid string.
        found: String,
    },
    /// The parsed board fails structural validation.
    InvalidBoard {
        /// The underlying board validation error.
        source: BoardError,
    },
}

/// Errors from structural validation of a [`Board`](crate::board::Board).
#[derive(Debug, Clone, Copy, PartialEq, Eq)]
pub enum BoardError {
    /// A side does not have exactly one king.
    InvalidKingCount {
        /// Which side has the wrong king count.
        color: &'static str,
        /// Number of kings found.
        count: u32,
    },
    /// Pawns occupy the first or eighth rank.
    PawnsOnBackRank,
    /// Two different piece kinds claim the same square.
    OverlappingPieces,
    /// The occupied bitboard does not equal the union of both sides.
    InconsistentOccupied,
    /// The two side bitboards overlap.
    InconsistentSides,
}

impl From<BoardError> for FenError {
    fn from(source: BoardError) -> (r: FenError) {
        FenError::InvalidBoard { source }
    }
}

impl vstd::std_specs::convert::FromSpecImpl<BoardError> for FenError {
    open spec fn obeys_from_spec() -> bool {
        true
    }

    open spec fn from_spec(source: BoardError) -> FenError {
        FenError::InvalidBoard { source }
    }
}

/// The mathematical content of a [`FenError`]: the same variants, with the
/// text fields as character sequences.
pub enum FenErrorModel {
    WrongFieldCount { found: int },
    WrongRankCount { found: int },
    BadRankLength { rank_index: int, length: int },
    InvalidPieceChar { character: char },
    InvalidColor { found: Seq<char> },
    InvalidCastlingChar { character: char },
    InvalidEnPassant { found: Seq<char> },
    InvalidMoveCounter { field: Seq<char>, found: Seq<char> },
    InvalidBoard { source: BoardError },
}

impl View for FenError {
    type V = FenErrorModel;

    open spec fn view(&self) -> FenErrorModel {
        match self {
            FenError::WrongFieldCount { found } => FenErrorModel::WrongFieldCount { found: *found as int },
            FenError::WrongRankCount { found } => FenErrorModel::WrongRankCount { found: *found as int },
            FenError::BadRankLength { rank_index, length } => FenErrorModel::BadRankLength {
                rank_index: *rank_index as int,
                length: *length as int,
            },
            FenError::InvalidPieceChar { character } => FenErrorModel::InvalidPieceChar { character: *character },
            FenError::InvalidColor { found } => FenErrorModel::InvalidColor { found: found@ },
            FenError::InvalidCastlingChar { character } => FenErrorModel::InvalidCastlingChar { character: *character },
            FenError::InvalidEnPassant { found } => FenErrorModel::InvalidEnPassant { found: found@ },
            FenError::InvalidMoveCounter { field, found } => FenErrorModel::InvalidMoveCounter {
                field: field@,
                found: found@,
            },
            FenError::InvalidBoard { source } => FenErrorModel::InvalidBoard { source: *source },
        }
    }
}

} // verus!
