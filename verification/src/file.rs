//! Chess board files (columns a–h).

use vstd::prelude::*;

verus! {

/// A file (column) on the chess board, from FileA to FileH.
#[derive(Debug, Clone, Copy, PartialEq, Eq, PartialOrd, Ord, Hash, Structural)]
pub enum File {
    FileA,
    FileB,
    FileC,
    FileD,
    FileE,
    FileF,
    FileG,
    FileH,
}

impl File {
    /// Total number of files.
    pub const COUNT: usize = 8;

    /// All files in index order.
    pub const ALL: [File; 8] = [
        File::FileA,
        File::FileB,
        File::FileC,
        File::FileD,
        File::FileE,
        File::FileF,
        File::FileG,
        File::FileH,
    ];

    /// The zero-based index of a file (FileA = 0 … FileH = 7).
    pub open spec fn idx(self) -> int {
        match self {
            File::FileA => 0,
            File::FileB => 1,
            File::FileC => 2,
            File::FileD => 3,
            File::FileE => 4,
            File::FileF => 5,
            File::FileG => 6,
            File::FileH => 7,
        }
    }

    /// The file with index `i`, for `0 <= i < 8`.
    pub open spec fn from_idx(i: int) -> File {
        if i == 0 {
            File::FileA
        } else if i == 1 {
            File::FileB
        } else if i == 2 {
            File::FileC
        } else if i == 3 {
            File::FileD
        } else if i == 4 {
            File::FileE
        } else if i == 5 {
            File::FileF
        } else if i == 6 {
            File::FileG
        } else {
            File::FileH
        }
    }

    /// Return the index (0..7).
    pub fn index(self) -> (r: usize)
        ensures
            r == self.idx(),
            r < 8,
    {
        match self {
            File::FileA => 0,
            File::FileB => 1,
            File::FileC => 2,
            File::FileD => 3,
            File::FileE => 4,
            File::FileF => 5,
            File::FileG => 6,
            File::FileH => 7,
        }
    }

    /// Create a file from a zero-based index (0 = FileA, 7 = FileH).
    pub fn from_index(index: u8) -> (r: Option<File>)
        ensures
            index < 8 ==> r == Some(File::from_idx(index as int)),
            index >= 8 ==> r.is_none(),
    {
        match index {
            0 => Some(File::FileA),
            1 => Some(File::FileB),
            2 => Some(File::FileC),
            3 => Some(File::FileD),
            4 => Some(File::FileE),
            5 => Some(File::FileF),
            6 => Some(File::FileG),
            7 => Some(File::FileH),
            _ => None,
        }
    }

    /// The letter of a file in algebraic notation ('a'..'h').
    pub fn to_char(self) -> (c: char)
        ensures
            c as int == 'a' as int + self.idx(),
    {
        match self {
            File::FileA => 'a',
            File::FileB => 'b',
            File::FileC => 'c',
            File::FileD => 'd',
            File::FileE => 'e',
            File::FileF => 'f',
            File::FileG => 'g',
            File::FileH => 'h',
        }
    }
}

/// `from_idx` and `idx` are inverse on the eight files.
pub proof fn lemma_file_index_roundtrip(f: File, i: int)
    ensures
        File::from_idx(f.idx()) == f,
        0 <= i < 8 ==> File::from_idx(i).idx() == i,
        0 <= f.idx() < 8,
{
}

} // verus!
