//! Chess piece kinds.

use vstd::prelude::*;

verus! {

/// The kind of a chess piece, without color information.
#[derive(Debug, Clone, Copy, PartialEq, Eq, Hash, Structural)]
pub enum PieceKind {
    Pawn,
    Knight,
    Bishop,
    Rook,
    Queen,
    King,
}

impl PieceKind {
    /// Total number of piece kinds.
    pub const COUNT: usize = 6;

    /// All piece kinds in index order.
    pub const ALL: [PieceKind; 6] = [
        PieceKind::Pawn,
        PieceKind::Knight,
        PieceKind::Bishop,
        PieceKind::Rook,
        PieceKind::Queen,
        PieceKind::King,
    ];

    /// The index of a piece kind (Pawn = 0 … King = 5).
    pub open spec fn idx(self) -> int {
        match self {
            PieceKind::Pawn => 0,
            PieceKind::Knight => 1,
            PieceKind::Bishop => 2,
            PieceKind::Rook => 3,
            PieceKind::Queen => 4,
            PieceKind::King => 5,
        }
    }

    /// The piece kind with index `i` (values past 5 give King).
    pub open spec fn from_idx(i: int) -> PieceKind {
        if i == 0 {
            PieceKind::Pawn
        } else if i == 1 {
            PieceKind::Knight
        } else if i == 2 {
            PieceKind::Bishop
        } else if i == 3 {
            PieceKind::Rook
        } else if i == 4 {
            PieceKind::Queen
        } else {
            PieceKind::King
        }
    }

    /// The lowercase FEN letter of a piece kind.
    pub open spec fn spec_fen_char(self) -> char {
        match self {
            PieceKind::Pawn => 'p',
            PieceKind::Knight => 'n',
            PieceKind::Bishop => 'b',
            PieceKind::Rook => 'r',
            PieceKind::Queen => 'q',
            PieceKind::King => 'k',
        }
    }

    /// The piece kind named by a FEN letter, either case.
    pub open spec fn spec_from_fen_char(c: char) -> Option<PieceKind> {
        if c == 'p' || c == 'P' {
            Some(PieceKind::Pawn)
        } else if c == 'n' || c == 'N' {
            Some(PieceKind::Knight)
        } else if c == 'b' || c == 'B' {
            Some(PieceKind::Bishop)
        } else if c == 'r' || c == 'R' {
            Some(PieceKind::Rook)
        } else if c == 'q' || c == 'Q' {
            Some(PieceKind::Queen)
        } else if c == 'k' || c == 'K' {
            Some(PieceKind::King)
        } else {
            None
        }
    }

    /// Return the index (0..5).
    pub fn index(self) -> (r: usize)
        ensures
            r == self.idx(),
            r < 6,
    {
        match self {
            PieceKind::Pawn => 0,
            PieceKind::Knight => 1,
            PieceKind::Bishop => 2,
            PieceKind::Rook => 3,
            PieceKind::Queen => 4,
            PieceKind::King => 5,
        }
    }

    /// Return the FEN character for this piece kind (lowercase).
    pub fn fen_char(self) -> (c: char)
        ensures
            c == self.spec_fen_char(),
    {
        match self {
            PieceKind::Pawn => 'p',
            PieceKind::Knight => 'n',
            PieceKind::Bishop => 'b',
            PieceKind::Rook => 'r',
            PieceKind::Queen => 'q',
            PieceKind::King => 'k',
        }
    }

    /// Parse a FEN character (case-insensitive) into a piece kind.
    pub fn from_fen_char(c: char) -> (r: Option<PieceKind>)
        ensures
            r == PieceKind::spec_from_fen_char(c),
    {
        match c {
            'p' | 'P' => Some(PieceKind::Pawn),
            'n' | 'N' => Some(PieceKind::Knight),
            'b' | 'B' => Some(PieceKind::Bishop),
            'r' | 'R' => Some(PieceKind::Rook),
            'q' | 'Q' => Some(PieceKind::Queen),
            'k' | 'K' => Some(PieceKind::King),
            _ => None,
        }
    }
}

/// Reading back the FEN letter of a piece kind, in either case, gives the kind.
pub proof fn lemma_fen_char_roundtrip(k: PieceKind)
    ensures
        PieceKind::spec_from_fen_char(k.spec_fen_char()) == Some(k),
        PieceKind::from_idx(k.idx()) == k,
        0 <= k.idx() < 6,
{
}

} // verus!
