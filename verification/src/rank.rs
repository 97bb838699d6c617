//! Chess board ranks (rows 1–8).

use vstd::prelude::*;

verus! {

/// A rank (row) on the chess board, from Rank1 (White's back rank) to Rank8.
#[derive(Debug, Clone, Copy, PartialEq, Eq, PartialOrd, Ord, Hash, Structural)]
pub enum Rank {
    Rank1,
    Rank2,
    Rank3,
    Rank4,
    Rank5,
    Rank6,
    Rank7,
    Rank8,
}

impl Rank {
    /// Total number of ranks.
    pub const COUNT: usize = 8;

    /// All ranks in index order.
    pub const ALL: [Rank; 8] = [
        Rank::Rank1,
        Rank::Rank2,
        Rank::Rank3,
        Rank::Rank4,
        Rank::Rank5,
        Rank::Rank6,
        Rank::Rank7,
        Rank::Rank8,
    ];

    /// The zero-based index of a rank (Rank1 = 0 … Rank8 = 7).
    pub open spec fn idx(self) -> int {
        match self {
            Rank::Rank1 => 0,
            Rank::Rank2 => 1,
            Rank::Rank3 => 2,
            Rank::Rank4 => 3,
            Rank::Rank5 => 4,
            Rank::Rank6 => 5,
            Rank::Rank7 => 6,
            Rank::Rank8 => 7,
        }
    }

    /// The file with index `i`, for `0 <= i < 8`.
    pub open spec fn from_idx(i: int) -> Rank {
        if i == 0 {
            Rank::Rank1
        } else if i == 1 {
            Rank::Rank2
        } else if i == 2 {
            Rank::Rank3
        } else if i == 3 {
            Rank::Rank4
        } else if i == 4 {
            Rank::Rank5
        } else if i == 5 {
            Rank::Rank6
        } else if i == 6 {
            Rank::Rank7
        } else {
            Rank::Rank8
        }
    }

    /// Return the index (0..7).
    pub fn index(self) -> (r: usize)
        ensures
            r == self.idx(),
            r < 8,
    {
        match self {
            Rank::Rank1 => 0,
            Rank::Rank2 => 1,
            Rank::Rank3 => 2,
            Rank::Rank4 => 3,
            Rank::Rank5 => 4,
            Rank::Rank6 => 5,
            Rank::Rank7 => 6,
            Rank::Rank8 => 7,
        }
    }

    /// Create a rank from a zero-based index (0 = Rank1, 7 = Rank8).
    pub fn from_index(index: u8) -> (r: Option<Rank>)
        ensures
            index < 8 ==> r == Some(Rank::from_idx(index as int)),
            index >= 8 ==> r.is_none(),
    {
        match index {
            0 => Some(Rank::Rank1),
            1 => Some(Rank::Rank2),
            2 => Some(Rank::Rank3),
            3 => Some(Rank::Rank4),
            4 => Some(Rank::Rank5),
            5 => Some(Rank::Rank6),
            6 => Some(Rank::Rank7),
            7 => Some(Rank::Rank8),
            _ => None,
        }
    }

    /// The letter of a rank in algebraic notation ('1'..'8').
    pub fn to_char(self) -> (c: char)
        ensures
            c as int == '1' as int + self.idx(),
    {
        match self {
            Rank::Rank1 => '1',
            Rank::Rank2 => '2',
            Rank::Rank3 => '3',
            Rank::Rank4 => '4',
            Rank::Rank5 => '5',
            Rank::Rank6 => '6',
            Rank::Rank7 => '7',
            Rank::Rank8 => '8',
        }
    }
}

/// `from_idx` and `idx` are inverse on the eight ranks.
pub proof fn lemma_rank_index_roundtrip(f: Rank, i: int)
    ensures
        Rank::from_idx(f.idx()) == f,
        0 <= i < 8 ==> Rank::from_idx(i).idx() == i,
        0 <= f.idx() < 8,
{
}

} // verus!
