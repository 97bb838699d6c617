//! Chess piece colors.

use vstd::prelude::*;

verus! {

/// A chess piece color: White or Black.
#[derive(Debug, Clone, Copy, PartialEq, Eq, Hash, Structural)]
pub enum Color {
    White,
    Black,
}

impl Color {
    /// Total number of colors.
    pub const COUNT: usize = 2;

    /// All colors in index order.
    pub const ALL: [Color; 2] = [Color::White, Color::Black];

    /// The index of a color: 0 for White, 1 for Black.
    pub open spec fn idx(self) -> int {
        match self {
            Color::White => 0,
            Color::Black => 1,
        }
    }

    /// The opposite color.
    pub open spec fn opp(self) -> Color {
        match self {
            Color::White => Color::Black,
            Color::Black => Color::White,
        }
    }

    /// Return the index (0 for White, 1 for Black).
    pub fn index(self) -> (r: usize)
        ensures
            r == self.idx(),
            r < 2,
    {
        match self {
            Color::White => 0,
            Color::Black => 1,
        }
    }

    /// Return the opposite color.
    pub fn flip(self) -> (r: Color)
        ensures
            r == self.opp(),
            r != self,
    {
        match self {
            Color::White => Color::Black,
            Color::Black => Color::White,
        }
    }

    /// The color whose index is `i` (0 = White, anything else = Black).
    pub open spec fn from_idx(i: int) -> Color {
        if i == 0 { Color::White } else { Color::Black }
    }

    /// The text of a color in FEN and UCI: "w" or "b".
    pub fn to_fen(self) -> (r: String)
        ensures
            r@ == (match self {
                Color::White => seq!['w'],
                Color::Black => seq!['b'],
            }),
    {
        let mut s = String::new();
        match self {
            Color::White => s.push('w'),
            Color::Black => s.push('b'),
        }
        s
    }
}

/// Flipping a color twice gives the color back.
pub proof fn lemma_flip_involutive(c: Color)
    ensures
        c.opp().opp() == c,
        c.opp().idx() == 1 - c.idx(),
{
}

impl core::ops::Not for Color {
    type Output = Color;

    fn not(self) -> (r: Color) {
        self.flip()
    }
}

impl vstd::std_specs::ops::NotSpecImpl for Color {
    open spec fn obeys_not_spec() -> bool {
        true
    }

    open spec fn not_req(self) -> bool {
        true
    }

    open spec fn not_spec(self) -> Color {
        self.opp()
    }
}

} // verus!
