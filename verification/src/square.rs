//! Chess board squares using Little-Endian Rank-File (LERF) encoding.

use vstd::prelude::*;

use crate::file::File;
use crate::rank::Rank;
use vstd::string::StringSliceAdditionalSpecFns;

verus! {

/// A square on the chess board in LERF order.
///
/// Index = rank * 8 + file, so A1 = 0, B1 = 1, ..., H8 = 63.
#[derive(Clone, Copy, PartialEq, Eq, Hash, Debug, Structural)]
pub enum Square {
    A1,
    B1,
    C1,
    D1,
    E1,
    F1,
    G1,
    H1,
    A2,
    B2,
    C2,
    D2,
    E2,
    F2,
    G2,
    H2,
    A3,
    B3,
    C3,
    D3,
    E3,
    F3,
    G3,
    H3,
    A4,
    B4,
    C4,
    D4,
    E4,
    F4,
    G4,
    H4,
    A5,
    B5,
    C5,
    D5,
    E5,
    F5,
    G5,
    H5,
    A6,
    B6,
    C6,
    D6,
    E6,
    F6,
    G6,
    H6,
    A7,
    B7,
    C7,
    D7,
    E7,
    F7,
    G7,
    H7,
    A8,
    B8,
    C8,
    D8,
    E8,
    F8,
    G8,
    H8,
}

/// The rank index (0..7) of a square index.
pub open spec fn rank_of(s: int) -> int {
    s / 8
}

/// The file index (0..7) of a square index.
pub open spec fn file_of(s: int) -> int {
    s % 8
}

/// The square index of a (rank, file) pair.
pub open spec fn sq_of(r: int, f: int) -> int {
    r * 8 + f
}

/// The two characters naming square index `s` ("a1" .. "h8").
pub open spec fn square_name(s: int) -> Seq<char> {
    seq![('a' as int + file_of(s)) as char, ('1' as int + rank_of(s)) as char]
}

/// The index of the square named by two bytes such as "e4", if they name one.
pub open spec fn square_index_from_bytes(b: Seq<u8>) -> Option<int> {
    if b.len() == 2 && 97 <= b[0] <= 104 && 49 <= b[1] <= 56 {
        Some(sq_of(b[1] - 49, b[0] - 97))
    } else {
        None
    }
}

impl Square {
    /// Total number of squares.
    pub const COUNT: usize = 64;

    /// The LERF index of the square.
    pub open spec fn view(self) -> int {
        match self {
            Square::A1 => 0,
            Square::B1 => 1,
            Square::C1 => 2,
            Square::D1 => 3,
            Square::E1 => 4,
            Square::F1 => 5,
            Square::G1 => 6,
            Square::H1 => 7,
            Square::A2 => 8,
            Square::B2 => 9,
            Square::C2 => 10,
            Square::D2 => 11,
            Square::E2 => 12,
            Square::F2 => 13,
            Square::G2 => 14,
            Square::H2 => 15,
            Square::A3 => 16,
            Square::B3 => 17,
            Square::C3 => 18,
            Square::D3 => 19,
            Square::E3 => 20,
            Square::F3 => 21,
            Square::G3 => 22,
            Square::H3 => 23,
            Square::A4 => 24,
            Square::B4 => 25,
            Square::C4 => 26,
            Square::D4 => 27,
            Square::E4 => 28,
            Square::F4 => 29,
            Square::G4 => 30,
            Square::H4 => 31,
            Square::A5 => 32,
            Square::B5 => 33,
            Square::C5 => 34,
            Square::D5 => 35,
            Square::E5 => 36,
            Square::F5 => 37,
            Square::G5 => 38,
            Square::H5 => 39,
            Square::A6 => 40,
            Square::B6 => 41,
            Square::C6 => 42,
            Square::D6 => 43,
            Square::E6 => 44,
            Square::F6 => 45,
            Square::G6 => 46,
            Square::H6 => 47,
            Square::A7 => 48,
            Square::B7 => 49,
            Square::C7 => 50,
            Square::D7 => 51,
            Square::E7 => 52,
            Square::F7 => 53,
            Square::G7 => 54,
            Square::H7 => 55,
            Square::A8 => 56,
            Square::B8 => 57,
            Square::C8 => 58,
            Square::D8 => 59,
            Square::E8 => 60,
            Square::F8 => 61,
            Square::G8 => 62,
            Square::H8 => 63,
        }
    }

    /// Every square index lies in 0..64.
    pub broadcast proof fn lemma_range(s: Square)
        ensures
            0 <= #[trigger] s.view() < 64,
    {
    }

    /// Two squares are equal exactly when their indices are.
    pub broadcast proof fn lemma_view_eq(a: Square, b: Square)
        ensures
            #![trigger a.view(), b.view()]
            a.view() == b.view() <==> a == b,
    {
    }

    /// Return the zero-based index (0..63).
    pub fn index(self) -> (r: usize)
        ensures
            r == self.view(),
            r < 64,
    {
        match self {
            Square::A1 => 0,
            Square::B1 => 1,
            Square::C1 => 2,
            Square::D1 => 3,
            Square::E1 => 4,
            Square::F1 => 5,
            Square::G1 => 6,
            Square::H1 => 7,
            Square::A2 => 8,
            Square::B2 => 9,
            Square::C2 => 10,
            Square::D2 => 11,
            Square::E2 => 12,
            Square::F2 => 13,
            Square::G2 => 14,
            Square::H2 => 15,
            Square::A3 => 16,
            Square::B3 => 17,
            Square::C3 => 18,
            Square::D3 => 19,
            Square::E3 => 20,
            Square::F3 => 21,
            Square::G3 => 22,
            Square::H3 => 23,
            Square::A4 => 24,
            Square::B4 => 25,
            Square::C4 => 26,
            Square::D4 => 27,
            Square::E4 => 28,
            Square::F4 => 29,
            Square::G4 => 30,
            Square::H4 => 31,
            Square::A5 => 32,
            Square::B5 => 33,
            Square::C5 => 34,
            Square::D5 => 35,
            Square::E5 => 36,
            Square::F5 => 37,
            Square::G5 => 38,
            Square::H5 => 39,
            Square::A6 => 40,
            Square::B6 => 41,
            Square::C6 => 42,
            Square::D6 => 43,
            Square::E6 => 44,
            Square::F6 => 45,
            Square::G6 => 46,
            Square::H6 => 47,
            Square::A7 => 48,
            Square::B7 => 49,
            Square::C7 => 50,
            Square::D7 => 51,
            Square::E7 => 52,
            Square::F7 => 53,
            Square::G7 => 54,
            Square::H7 => 55,
            Square::A8 => 56,
            Square::B8 => 57,
            Square::C8 => 58,
            Square::D8 => 59,
            Square::E8 => 60,
            Square::F8 => 61,
            Square::G8 => 62,
            Square::H8 => 63,
        }
    }

    /// Create a square from a zero-based index, returning `None` if out of range.
    pub fn from_index(index: u8) -> (r: Option<Square>)
        ensures
            index < 64 ==> (r matches Some(s) && s.view() == index),
            index >= 64 ==> r.is_none(),
    {
        match index {
            0 => Some(Square::A1),
            1 => Some(Square::B1),
            2 => Some(Square::C1),
            3 => Some(Square::D1),
            4 => Some(Square::E1),
            5 => Some(Square::F1),
            6 => Some(Square::G1),
            7 => Some(Square::H1),
            8 => Some(Square::A2),
            9 => Some(Square::B2),
            10 => Some(Square::C2),
            11 => Some(Square::D2),
            12 => Some(Square::E2),
            13 => Some(Square::F2),
            14 => Some(Square::G2),
            15 => Some(Square::H2),
            16 => Some(Square::A3),
            17 => Some(Square::B3),
            18 => Some(Square::C3),
            19 => Some(Square::D3),
            20 => Some(Square::E3),
            21 => Some(Square::F3),
            22 => Some(Square::G3),
            23 => Some(Square::H3),
            24 => Some(Square::A4),
            25 => Some(Square::B4),
            26 => Some(Square::C4),
            27 => Some(Square::D4),
            28 => Some(Square::E4),
            29 => Some(Square::F4),
            30 => Some(Square::G4),
            31 => Some(Square::H4),
            32 => Some(Square::A5),
            33 => Some(Square::B5),
            34 => Some(Square::C5),
            35 => Some(Square::D5),
            36 => Some(Square::E5),
            37 => Some(Square::F5),
            38 => Some(Square::G5),
            39 => Some(Square::H5),
            40 => Some(Square::A6),
            41 => Some(Square::B6),
            42 => Some(Square::C6),
            43 => Some(Square::D6),
            44 => Some(Square::E6),
            45 => Some(Square::F6),
            46 => Some(Square::G6),
            47 => Some(Square::H6),
            48 => Some(Square::A7),
            49 => Some(Square::B7),
            50 => Some(Square::C7),
            51 => Some(Square::D7),
            52 => Some(Square::E7),
            53 => Some(Square::F7),
            54 => Some(Square::G7),
            55 => Some(Square::H7),
            56 => Some(Square::A8),
            57 => Some(Square::B8),
            58 => Some(Square::C8),
            59 => Some(Square::D8),
            60 => Some(Square::E8),
            61 => Some(Square::F8),
            62 => Some(Square::G8),
            63 => Some(Square::H8),
            _ => None,
        }
    }

    /// Create a square from a zero-based index the caller knows to be in range.
    pub(crate) fn from_index_unchecked(index: u8) -> (r: Square)
        requires
            index < 64,
        ensures
            r.view() == index,
    {
        match Square::from_index(index) {
            Some(s) => s,
            None => Square::A1,
        }
    }

    /// Create a square from a rank and file.
    pub fn new(rank: Rank, file: File) -> (r: Square)
        ensures
            r.view() == sq_of(rank.idx(), file.idx()),
    {
        let ri = rank.index() as u8;
        let fi = file.index() as u8;
        Square::from_index_unchecked(ri * 8 + fi)
    }

    /// Parse an algebraic notation string (e.g. "e4") into a square.
    pub fn from_algebraic(s: &str) -> (r: Option<Square>)
        ensures
            r.is_some() == square_index_from_bytes(s.spec_bytes()).is_some(),
            r matches Some(q) ==> square_index_from_bytes(s.spec_bytes()) == Some(q.view()),
    {
        let bytes = s.as_bytes();
        Square::from_algebraic_bytes(bytes)
    }

    /// Parse the two bytes of a square name ("e4") into a square.
    pub fn from_algebraic_bytes(bytes: &[u8]) -> (r: Option<Square>)
        ensures
            r.is_some() == square_index_from_bytes(bytes@).is_some(),
            r matches Some(q) ==> square_index_from_bytes(bytes@) == Some(q.view()),
    {
        if bytes.len() != 2 {
            return None;
        }
        let file_byte = bytes[0];
        let rank_byte = bytes[1];
        if file_byte < 97 || file_byte > 104 || rank_byte < 49 || rank_byte > 56 {
            return None;
        }
        Some(Square::from_index_unchecked((rank_byte - 49) * 8 + (file_byte - 97)))
    }

    /// Return the rank of this square.
    pub fn rank(self) -> (r: Rank)
        ensures
            r.idx() == rank_of(self.view()),
    {
        match Rank::from_index((self.index() / 8) as u8) {
            Some(r) => r,
            None => Rank::Rank8,
        }
    }

    /// Return the file of this square.
    pub fn file(self) -> (r: File)
        ensures
            r.idx() == file_of(self.view()),
    {
        match File::from_index((self.index() % 8) as u8) {
            Some(f) => f,
            None => File::FileH,
        }
    }

    /// All 64 squares in index order (A1, B1, ..., H8).
    pub fn all() -> (r: Vec<Square>)
        ensures
            r@.len() == 64,
            forall|i: int| 0 <= i < 64 ==> (#[trigger] r@[i]).view() == i,
    {
        let mut v: Vec<Square> = Vec::new();
        let mut i: u8 = 0;
        while i < 64
            invariant
                i <= 64,
                v@.len() == i,
                forall|j: int| 0 <= j < i ==> (#[trigger] v@[j]).view() == j,
            decreases 64 - i,
        {
            v.push(Square::from_index_unchecked(i));
            i = i + 1;
        }
        v
    }

    /// The algebraic name of the square, such as "e4".
    pub fn to_algebraic(self) -> (r: String)
        ensures
            r@ == square_name(self.view()),
    {
        let mut s = String::new();
        s.push(self.file().to_char());
        s.push(self.rank().to_char());
        s
    }
}

} // verus!
