//! The chess board: piece placement, side to move, castling, en passant, and move counters.

use vstd::prelude::*;

use crate::bitboard::Bitboard;
use crate::bits::{bit, lemma_bit_and, lemma_bit_or, lemma_bit_xor, lemma_bit_single, lemma_zero_iff_no_bits, popcount, single};
use crate::castle_rights::CastleRights;
use crate::color::Color;
use crate::error::BoardError;
use crate::piece::Piece;
use crate::piece_kind::PieceKind;
use crate::square::Square;
use crate::zobrist::{hash_from_scratch, zobrist_hash};

verus! {

broadcast use Square::lemma_range, Bitboard::lemma_from_bits;

/// The mathematical content of a board.
pub struct BoardModel {
    /// Bits of each piece kind, indexed by kind (both colors).
    pub pieces: Seq<u64>,
    /// Bits of each side, indexed by color.
    pub sides: Seq<u64>,
    /// The cached occupancy.
    pub occupied: u64,
    pub side_to_move: Color,
    /// The 4-bit castling field.
    pub castling: u8,
    /// The en passant target square index.
    pub en_passant: Option<int>,
    pub halfmove_clock: u16,
    pub fullmove_number: u16,
    pub hash: u64,
}

impl BoardModel {
    /// The first kind (in index order) whose bitboard holds square `s`.
    pub open spec fn piece_at(self, s: int) -> Option<PieceKind> {
        if bit(self.pieces[0], s) {
            Some(PieceKind::Pawn)
        } else if bit(self.pieces[1], s) {
            Some(PieceKind::Knight)
        } else if bit(self.pieces[2], s) {
            Some(PieceKind::Bishop)
        } else if bit(self.pieces[3], s) {
            Some(PieceKind::Rook)
        } else if bit(self.pieces[4], s) {
            Some(PieceKind::Queen)
        } else if bit(self.pieces[5], s) {
            Some(PieceKind::King)
        } else {
            None
        }
    }

    /// The side (White first) whose bitboard holds square `s`.
    pub open spec fn color_at(self, s: int) -> Option<Color> {
        if bit(self.sides[0], s) {
            Some(Color::White)
        } else if bit(self.sides[1], s) {
            Some(Color::Black)
        } else {
            None
        }
    }

    /// The bits of the pieces of kind `k` and color `c`.
    pub open spec fn pieces_of(self, k: PieceKind, c: Color) -> u64 {
        self.pieces[k.idx()] & self.sides[c.idx()]
    }

    /// Whether the bitboards of kinds `i` and `j` share a square.
    pub open spec fn kinds_overlap(self, i: int, j: int) -> bool {
        self.pieces[i] & self.pieces[j] != 0
    }

    /// Some two different kinds share a square.
    pub open spec fn any_kinds_overlap(self) -> bool {
        exists|i: int, j: int| 0 <= i < j < 6 && #[trigger] self.kinds_overlap(i, j)
    }

    /// The error `validate` reports first, if any.
    pub open spec fn validation(self) -> Option<BoardError> {
        let wk = popcount(self.pieces[5] & self.sides[0]);
        let bk = popcount(self.pieces[5] & self.sides[1]);
        if wk != 1 {
            Some(BoardError::InvalidKingCount { color: "white", count: wk as u32 })
        } else if bk != 1 {
            Some(BoardError::InvalidKingCount { color: "black", count: bk as u32 })
        } else if self.pieces[0] & 0xFF00_0000_0000_00FFu64 != 0 {
            Some(BoardError::PawnsOnBackRank)
        } else if self.any_kinds_overlap() {
            Some(BoardError::OverlappingPieces)
        } else if self.sides[0] & self.sides[1] != 0 {
            Some(BoardError::InconsistentSides)
        } else if self.occupied != self.sides[0] | self.sides[1] {
            Some(BoardError::InconsistentOccupied)
        } else {
            None
        }
    }

    /// The board has a king of color `c`.
    pub open spec fn has_king(self, c: Color) -> bool {
        self.pieces[5] & self.sides[c.idx()] != 0
    }

    /// Structural shape: six kind bitboards and two side bitboards.
    pub open spec fn shaped(self) -> bool {
        self.pieces.len() == 6 && self.sides.len() == 2
    }
}

/// Complete chess position state.
#[derive(Clone, Copy, PartialEq, Eq, Debug)]
pub struct Board {
    /// Bitboard for each piece kind, indexed by [`PieceKind::index()`].
    pieces: [Bitboard; 6],
    /// Bitboard for each side, indexed by [`Color::index()`].
    sides: [Bitboard; 2],
    /// Union of both sides — cached for performance.
    occupied: Bitboard,
    /// Which side moves next.
    side_to_move: Color,
    /// Current castling rights.
    castling: CastleRights,
    /// En passant target square, if any.
    en_passant: Option<Square>,
    /// Halfmove clock for the fifty-move rule.
    halfmove_clock: u16,
    /// Fullmove number (starts at 1, incremented after Black moves).
    fullmove_number: u16,
    /// Zobrist hash of the position.
    hash: u64,
}

/// The model of an optional square.
pub open spec fn opt_sq(s: Option<Square>) -> Option<int> {
    match s {
        Some(q) => Some(q.view()),
        None => None,
    }
}

impl Board {
    /// The mathematical content of the board.
    pub closed spec fn view(&self) -> BoardModel {
        BoardModel {
            pieces: Seq::new(6, |i: int| self.pieces[i].view()),
            sides: Seq::new(2, |i: int| self.sides[i].view()),
            occupied: self.occupied.view(),
            side_to_move: self.side_to_move,
            castling: self.castling.view(),
            en_passant: opt_sq(self.en_passant),
            halfmove_clock: self.halfmove_clock,
            fullmove_number: self.fullmove_number,
            hash: self.hash,
        }
    }

    /// Every board has six kind bitboards and two side bitboards.
    pub broadcast proof fn lemma_shaped(b: Board)
        ensures
            #[trigger] b.view().shaped(),
    {
    }

    /// Boards are equal exactly when their models are.
    pub broadcast proof fn lemma_view_eq(a: Board, b: Board)
        ensures
            #![trigger a.view(), b.view()]
            a.view() == b.view() <==> a == b,
    {
        if a.view() == b.view() {
            assert(a.pieces@ =~= b.pieces@) by {
                assert forall|i: int| 0 <= i < 6 implies a.pieces@[i] == b.pieces@[i] by {
                    assert(a.view().pieces[i] == b.view().pieces[i]);
                    Bitboard::lemma_view_eq(a.pieces[i], b.pieces[i]);
                }
            }
            assert(a.sides@ =~= b.sides@) by {
                assert forall|i: int| 0 <= i < 2 implies a.sides@[i] == b.sides@[i] by {
                    assert(a.view().sides[i] == b.view().sides[i]);
                    Bitboard::lemma_view_eq(a.sides[i], b.sides[i]);
                }
            }
            Bitboard::lemma_view_eq(a.occupied, b.occupied);
            CastleRights::lemma_view_eq(a.castling, b.castling);
            match (a.en_passant, b.en_passant) {
                (Some(x), Some(y)) => {
                    Square::lemma_view_eq(x, y);
                },
                _ => {},
            }
            assert(a.pieces == b.pieces);
            assert(a.sides == b.sides);
        }
    }

    /// The standard starting placement of the six kinds.
    pub open spec fn start_pieces() -> Seq<u64> {
        seq![
            0x00FF_0000_0000_FF00u64,
            0x4200_0000_0000_0042u64,
            0x2400_0000_0000_0024u64,
            0x8100_0000_0000_0081u64,
            0x0800_0000_0000_0008u64,
            0x1000_0000_0000_0010u64,
        ]
    }

    /// Return the standard starting position.
    pub fn starting_position() -> (r: Board)
        ensures
            r.view().pieces == Board::start_pieces(),
            r.view().sides == seq![0x0000_0000_0000_FFFFu64, 0xFFFF_0000_0000_0000u64],
            r.view().occupied == 0xFFFF_0000_0000_FFFFu64,
            r.view().side_to_move == Color::White,
            r.view().castling == 15,
            r.view().en_passant.is_none(),
            r.view().halfmove_clock == 0,
            r.view().fullmove_number == 1,
            r.view().hash == zobrist_hash(r.view()),
    {
        let pawns = Bitboard::new(0x00FF_0000_0000_FF00);
        let knights = Bitboard::new(0x4200_0000_0000_0042);
        let bishops = Bitboard::new(0x2400_0000_0000_0024);
        let rooks = Bitboard::new(0x8100_0000_0000_0081);
        let queens = Bitboard::new(0x0800_0000_0000_0008);
        let kings = Bitboard::new(0x1000_0000_0000_0010);
        let white = Bitboard::new(0x0000_0000_0000_FFFF);
        let black = Bitboard::new(0xFFFF_0000_0000_0000);
        let occupied = Bitboard::new(0xFFFF_0000_0000_FFFF);
        let board = Board {
            pieces: [pawns, knights, bishops, rooks, queens, kings],
            sides: [white, black],
            occupied,
            side_to_move: Color::White,
            castling: CastleRights::ALL(),
            en_passant: None,
            halfmove_clock: 0,
            fullmove_number: 1,
            hash: 0,
        };
        assert(board.view().pieces =~= Board::start_pieces());
        assert(board.view().sides =~= seq![0x0000_0000_0000_FFFFu64, 0xFFFF_0000_0000_0000u64]);
        let mut board = board;
        let h = hash_from_scratch(&board);
        board.hash = h;
        board
    }

    /// Construct a board from raw components. Used by FEN parsing.
    pub(crate) fn from_raw(
        pieces: [Bitboard; 6],
        sides: [Bitboard; 2],
        occupied: Bitboard,
        side_to_move: Color,
        castling: CastleRights,
        en_passant: Option<Square>,
        halfmove_clock: u16,
        fullmove_number: u16,
        hash: u64,
    ) -> (r: Board)
        ensures
            r.view().pieces == Seq::new(6, |i: int| pieces[i].view()),
            r.view().sides == Seq::new(2, |i: int| sides[i].view()),
            r.view().occupied == occupied.view(),
            r.view().side_to_move == side_to_move,
            r.view().castling == castling.view(),
            r.view().en_passant == opt_sq(en_passant),
            r.view().halfmove_clock == halfmove_clock,
            r.view().fullmove_number == fullmove_number,
            r.view().hash == hash,
    {
        Board {
            pieces,
            sides,
            occupied,
            side_to_move,
            castling,
            en_passant,
            halfmove_clock,
            fullmove_number,
            hash,
        }
    }

    /// Return the piece kind on the given square, if any.
    pub fn piece_on(&self, sq: Square) -> (r: Option<PieceKind>)
        ensures
            r == self.view().piece_at(sq.view()),
    {
        if self.pieces[0].contains(sq) {
            Some(PieceKind::Pawn)
        } else if self.pieces[1].contains(sq) {
            Some(PieceKind::Knight)
        } else if self.pieces[2].contains(sq) {
            Some(PieceKind::Bishop)
        } else if self.pieces[3].contains(sq) {
            Some(PieceKind::Rook)
        } else if self.pieces[4].contains(sq) {
            Some(PieceKind::Queen)
        } else if self.pieces[5].contains(sq) {
            Some(PieceKind::King)
        } else {
            None
        }
    }

    /// Return the color of the piece on the given square, if any.
    pub fn color_on(&self, sq: Square) -> (r: Option<Color>)
        ensures
            r == self.view().color_at(sq.view()),
    {
        if self.sides[0].contains(sq) {
            Some(Color::White)
        } else if self.sides[1].contains(sq) {
            Some(Color::Black)
        } else {
            None
        }
    }

    /// Return the bitboard for the given piece kind (both colors).
    pub fn pieces(&self, kind: PieceKind) -> (r: Bitboard)
        ensures
            r.view() == self.view().pieces[kind.idx()],
    {
        self.pieces[kind.index()]
    }

    /// The bitboard of the kind with index `k`.
    pub(crate) fn pieces_by_index(&self, k: usize) -> (r: Bitboard)
        requires
            k < 6,
        ensures
            r.view() == self.view().pieces[k as int],
    {
        self.pieces[k]
    }

    /// The bitboard of the side with index `c`.
    pub(crate) fn side_by_index(&self, c: usize) -> (r: Bitboard)
        requires
            c < 2,
        ensures
            r.view() == self.view().sides[c as int],
    {
        self.sides[c]
    }

    /// Return the bitboard for the given side.
    pub fn side(&self, color: Color) -> (r: Bitboard)
        ensures
            r.view() == self.view().sides[color.idx()],
    {
        self.sides[color.index()]
    }

    /// Return the occupied squares bitboard.
    pub fn occupied(&self) -> (r: Bitboard)
        ensures
            r.view() == self.view().occupied,
    {
        self.occupied
    }

    /// Return `true` if the given square is occupied.
    pub fn is_occupied(&self, sq: Square) -> (r: bool)
        ensures
            r == bit(self.view().occupied, sq.view()),
    {
        self.occupied.contains(sq)
    }

    /// Return the square of the king for the given side (the lowest one if
    /// the board has several).
    pub fn king_square(&self, color: Color) -> (r: Square)
        requires
            self.view().has_king(color),
        ensures
            bit(self.view().pieces_of(PieceKind::King, color), r.view()),
            forall|j: int| 0 <= j < r.view() ==> !#[trigger] bit(self.view().pieces_of(PieceKind::King, color), j),
    {
        let king_bb = Bitboard::new(self.pieces[5].inner() & self.sides[color.index()].inner());
        match king_bb.lsb() {
            Some(s) => {
                assert forall|j: int| 0 <= j < s.view() implies !#[trigger] bit(self.view().pieces_of(PieceKind::King, color), j) by {
                    assert(!king_bb.has(j));
                }
                s
            },
            None => Square::A1,
        }
    }

    /// Return the side to move.
    pub fn side_to_move(&self) -> (r: Color)
        ensures
            r == self.view().side_to_move,
    {
        self.side_to_move
    }

    /// Return the current castling rights.
    pub fn castling(&self) -> (r: CastleRights)
        ensures
            r.view() == self.view().castling,
    {
        self.castling
    }

    /// Return the en passant target square, if any.
    pub fn en_passant(&self) -> (r: Option<Square>)
        ensures
            opt_sq(r) == self.view().en_passant,
    {
        self.en_passant
    }

    /// Return the halfmove clock.
    pub fn halfmove_clock(&self) -> (r: u16)
        ensures
            r == self.view().halfmove_clock,
    {
        self.halfmove_clock
    }

    /// Return the fullmove number.
    pub fn fullmove_number(&self) -> (r: u16)
        ensures
            r == self.view().fullmove_number,
    {
        self.fullmove_number
    }

    /// Return the Zobrist hash of the position.
    pub fn hash(&self) -> (r: u64)
        ensures
            r == self.view().hash,
    {
        self.hash
    }

    /// Set the Zobrist hash.
    pub(crate) fn set_hash(&mut self, hash: u64)
        ensures
            final(self).view() == (BoardModel { hash, ..old(self).view() }),
    {
        self.hash = hash;
    }

    /// Toggle a piece into/out of the board arrays via XOR.
    pub fn toggle_piece(&mut self, sq: Square, kind: PieceKind, color: Color)
        ensures
            final(self).view() == toggled(old(self).view(), sq.view(), kind, color),
    {
        let k = kind.index();
        let c = color.index();
        self.pieces[k] = self.pieces[k].toggle(sq);
        self.sides[c] = self.sides[c].toggle(sq);
        self.occupied = Bitboard::new(self.sides[0].inner() | self.sides[1].inner());
        proof {
            let m = toggled(old(self).view(), sq.view(), kind, color);
            assert(self.view().pieces =~= m.pieces);
            assert(self.view().sides =~= m.sides);
        }
    }

    /// Return the colored piece on the given square, if any.
    pub fn colored_piece_on(&self, sq: Square) -> (r: Option<Piece>)
        ensures
            r.is_some() == (self.view().piece_at(sq.view()).is_some() && self.view().color_at(sq.view()).is_some()),
            r matches Some(p) ==> Some(p.spec_kind()) == self.view().piece_at(sq.view())
                && Some(p.spec_color()) == self.view().color_at(sq.view()),
    {
        let kind = match self.piece_on(sq) {
            Some(k) => k,
            None => return None,
        };
        let color = match self.color_on(sq) {
            Some(c) => c,
            None => return None,
        };
        Some(Piece::new(kind, color))
    }

    /// Toggle a packed piece into/out of the board arrays via XOR.
    pub(crate) fn toggle_piece_packed(&mut self, sq: Square, piece: Piece)
        ensures
            final(self).view() == toggled(old(self).view(), sq.view(), piece.spec_kind(), piece.spec_color()),
    {
        self.toggle_piece(sq, piece.kind(), piece.color());
    }

    /// Set the en passant target square.
    pub(crate) fn set_en_passant(&mut self, sq: Option<Square>)
        ensures
            final(self).view() == (BoardModel { en_passant: opt_sq(sq), ..old(self).view() }),
    {
        self.en_passant = sq;
    }

    /// Set the castling rights.
    pub(crate) fn set_castling(&mut self, rights: CastleRights)
        ensures
            final(self).view() == (BoardModel { castling: rights.view(), ..old(self).view() }),
    {
        self.castling = rights;
    }

    /// Set the halfmove clock.
    pub(crate) fn set_halfmove_clock(&mut self, clock: u16)
        ensures
            final(self).view() == (BoardModel { halfmove_clock: clock, ..old(self).view() }),
    {
        self.halfmove_clock = clock;
    }

    /// Set the side to move.
    pub(crate) fn set_side_to_move(&mut self, color: Color)
        ensures
            final(self).view() == (BoardModel { side_to_move: color, ..old(self).view() }),
    {
        self.side_to_move = color;
    }

    /// Set the fullmove number.
    pub(crate) fn set_fullmove_number(&mut self, number: u16)
        ensures
            final(self).view() == (BoardModel { fullmove_number: number, ..old(self).view() }),
    {
        self.fullmove_number = number;
    }

    /// Validate the structural integrity of the board.
    #[verifier::loop_isolation(false)]
    pub fn validate(&self) -> (r: Result<(), BoardError>)
        ensures
            match self.view().validation() {
                None => r is Ok,
                Some(e) => r == Err::<(), BoardError>(e),
            },
    {
        let wk = Bitboard::new(self.pieces[5].inner() & self.sides[0].inner()).count();
        if wk != 1 {
            return Err(BoardError::InvalidKingCount { color: "white", count: wk });
        }
        let bk = Bitboard::new(self.pieces[5].inner() & self.sides[1].inner()).count();
        if bk != 1 {
            return Err(BoardError::InvalidKingCount { color: "black", count: bk });
        }
        let back_ranks: u64 = 0xFF00_0000_0000_00FF;
        if self.pieces[0].inner() & back_ranks != 0 {
            return Err(BoardError::PawnsOnBackRank);
        }
        let mut i: usize = 0;
        while i < 6
            invariant
                i <= 6,
                forall|a: int, b: int| 0 <= a < i && a < b < 6 ==> !#[trigger] self.view().kinds_overlap(a, b),
            decreases 6 - i,
        {
            let mut j: usize = i + 1;
            while j < 6
                invariant
                    i < 6,
                    i + 1 <= j <= 6,
                    forall|a: int, b: int| 0 <= a < i && a < b < 6 ==> !#[trigger] self.view().kinds_overlap(a, b),
                    forall|b: int| i < b < j ==> !#[trigger] self.view().kinds_overlap(i as int, b),
                decreases 6 - j,
            {
                if self.pieces[i].inner() & self.pieces[j].inner() != 0 {
                    assert(self.view().kinds_overlap(i as int, j as int));
                    return Err(BoardError::OverlappingPieces);
                }
                j = j + 1;
            }
            i = i + 1;
        }
        if self.sides[0].inner() & self.sides[1].inner() != 0 {
            return Err(BoardError::InconsistentSides);
        }
        if self.occupied.inner() != (self.sides[0].inner() | self.sides[1].inner()) {
            return Err(BoardError::InconsistentOccupied);
        }
        Ok(())
    }
}

/// The board after XOR-ing square `s` into the bitboards of kind `k` and color `c`
/// and recomputing the occupancy from the sides.
pub open spec fn toggled(m: BoardModel, s: int, k: PieceKind, c: Color) -> BoardModel {
    let pieces = m.pieces.update(k.idx(), m.pieces[k.idx()] ^ single(s));
    let sides = m.sides.update(c.idx(), m.sides[c.idx()] ^ single(s));
    BoardModel { pieces, sides, occupied: sides[0] | sides[1], ..m }
}

} // verus!
