//! Bitboard representation for chess — a 64-bit integer where each bit maps to a square.

use vstd::prelude::*;

use crate::bits::{
    bit, count_ones_u64, lemma_bit_and, lemma_bit_not, lemma_bit_or, lemma_bit_single, lemma_bit_xor,
    lemma_clear_lowest, lemma_mask_test, lemma_popcount_pop, lemma_zero_iff_no_bits, popcount, single,
};
use crate::file::File;
use crate::rank::Rank;
use crate::square::Square;

verus! {

broadcast use Square::lemma_range;

/// A 64-bit board where each bit represents a square (LERF mapping).
#[derive(Clone, Copy, PartialEq, Eq, Hash, Default, Debug, Structural)]
pub struct Bitboard(u64);

/// The bits of rank `r` (0..7): `0xFF << 8r`.
pub open spec fn rank_bits(r: int) -> u64 {
    (0xFFu64 << ((8 * r) as u64))
}

/// The bits of file `f` (0..7): `0x0101_0101_0101_0101 << f`.
pub open spec fn file_bits(f: int) -> u64 {
    (0x0101_0101_0101_0101u64 << (f as u64))
}

impl Bitboard {
    /// The 64-bit word of the bitboard.
    pub closed spec fn view(self) -> u64 {
        self.0
    }

    /// The bitboard holding the word `x`.
    pub closed spec fn from_bits(x: u64) -> Bitboard {
        Bitboard(x)
    }

    /// `from_bits` and `view` are inverse.
    pub broadcast proof fn lemma_from_bits(x: u64)
        ensures
            #[trigger] Bitboard::from_bits(x).view() == x,
    {
    }

    /// Bitboards are equal exactly when their words are.
    pub broadcast proof fn lemma_view_eq(a: Bitboard, b: Bitboard)
        ensures
            #![trigger a.view(), b.view()]
            a.view() == b.view() <==> a == b,
    {
    }

    /// Whether square index `i` is set.
    pub open spec fn has(self, i: int) -> bool {
        bit(self.view(), i)
    }

    /// Empty bitboard (no squares set).
    #[allow(non_snake_case)]
    pub fn EMPTY() -> (r: Bitboard)
        ensures
            r.view() == 0,
    {
        Bitboard(0)
    }

    /// Full bitboard (all 64 squares set).
    #[allow(non_snake_case)]
    pub fn FULL() -> (r: Bitboard)
        ensures
            r.view() == 0xffff_ffff_ffff_ffffu64,
    {
        Bitboard(0xffff_ffff_ffff_ffff)
    }

    /// Rank 1 mask.
    #[allow(non_snake_case)]
    pub fn RANK_1() -> (r: Bitboard)
        ensures
            r.view() == rank_bits(0),
    {
        Bitboard(0xFFu64 << 0u64)
    }

    /// Rank 2 mask.
    #[allow(non_snake_case)]
    pub fn RANK_2() -> (r: Bitboard)
        ensures
            r.view() == rank_bits(1),
    {
        Bitboard(0xFFu64 << 8u64)
    }

    /// Rank 3 mask.
    #[allow(non_snake_case)]
    pub fn RANK_3() -> (r: Bitboard)
        ensures
            r.view() == rank_bits(2),
    {
        Bitboard(0xFFu64 << 16u64)
    }

    /// Rank 4 mask.
    #[allow(non_snake_case)]
    pub fn RANK_4() -> (r: Bitboard)
        ensures
            r.view() == rank_bits(3),
    {
        Bitboard(0xFFu64 << 24u64)
    }

    /// Rank 5 mask.
    #[allow(non_snake_case)]
    pub fn RANK_5() -> (r: Bitboard)
        ensures
            r.view() == rank_bits(4),
    {
        Bitboard(0xFFu64 << 32u64)
    }

    /// Rank 6 mask.
    #[allow(non_snake_case)]
    pub fn RANK_6() -> (r: Bitboard)
        ensures
            r.view() == rank_bits(5),
    {
        Bitboard(0xFFu64 << 40u64)
    }

    /// Rank 7 mask.
    #[allow(non_snake_case)]
    pub fn RANK_7() -> (r: Bitboard)
        ensures
            r.view() == rank_bits(6),
    {
        Bitboard(0xFFu64 << 48u64)
    }

    /// Rank 8 mask.
    #[allow(non_snake_case)]
    pub fn RANK_8() -> (r: Bitboard)
        ensures
            r.view() == rank_bits(7),
    {
        Bitboard(0xFFu64 << 56u64)
    }

    /// File A mask.
    #[allow(non_snake_case)]
    pub fn FILE_A() -> (r: Bitboard)
        ensures
            r.view() == file_bits(0),
    {
        Bitboard(0x0101_0101_0101_0101u64 << 0u64)
    }

    /// File B mask.
    #[allow(non_snake_case)]
    pub fn FILE_B() -> (r: Bitboard)
        ensures
            r.view() == file_bits(1),
    {
        Bitboard(0x0101_0101_0101_0101u64 << 1u64)
    }

    /// File C mask.
    #[allow(non_snake_case)]
    pub fn FILE_C() -> (r: Bitboard)
        ensures
            r.view() == file_bits(2),
    {
        Bitboard(0x0101_0101_0101_0101u64 << 2u64)
    }

    /// File D mask.
    #[allow(non_snake_case)]
    pub fn FILE_D() -> (r: Bitboard)
        ensures
            r.view() == file_bits(3),
    {
        Bitboard(0x0101_0101_0101_0101u64 << 3u64)
    }

    /// File E mask.
    #[allow(non_snake_case)]
    pub fn FILE_E() -> (r: Bitboard)
        ensures
            r.view() == file_bits(4),
    {
        Bitboard(0x0101_0101_0101_0101u64 << 4u64)
    }

    /// File F mask.
    #[allow(non_snake_case)]
    pub fn FILE_F() -> (r: Bitboard)
        ensures
            r.view() == file_bits(5),
    {
        Bitboard(0x0101_0101_0101_0101u64 << 5u64)
    }

    /// File G mask.
    #[allow(non_snake_case)]
    pub fn FILE_G() -> (r: Bitboard)
        ensures
            r.view() == file_bits(6),
    {
        Bitboard(0x0101_0101_0101_0101u64 << 6u64)
    }

    /// File H mask.
    #[allow(non_snake_case)]
    pub fn FILE_H() -> (r: Bitboard)
        ensures
            r.view() == file_bits(7),
    {
        Bitboard(0x0101_0101_0101_0101u64 << 7u64)
    }

    /// All rank masks indexed by rank index.
    #[allow(non_snake_case)]
    pub fn RANKS() -> (r: [Bitboard; 8])
        ensures
            forall|i: int| 0 <= i < 8 ==> (#[trigger] r@[i]).view() == rank_bits(i),
    {
        [
            Self::RANK_1(),
            Self::RANK_2(),
            Self::RANK_3(),
            Self::RANK_4(),
            Self::RANK_5(),
            Self::RANK_6(),
            Self::RANK_7(),
            Self::RANK_8(),
        ]
    }

    /// All file masks indexed by file index.
    #[allow(non_snake_case)]
    pub fn FILES() -> (r: [Bitboard; 8])
        ensures
            forall|i: int| 0 <= i < 8 ==> (#[trigger] r@[i]).view() == file_bits(i),
    {
        [
            Self::FILE_A(),
            Self::FILE_B(),
            Self::FILE_C(),
            Self::FILE_D(),
            Self::FILE_E(),
            Self::FILE_F(),
            Self::FILE_G(),
            Self::FILE_H(),
        ]
    }

    /// Create a bitboard from a raw `u64`.
    pub fn new(bits: u64) -> (r: Bitboard)
        ensures
            r.view() == bits,
    {
        Bitboard(bits)
    }

    /// Return the underlying `u64`.
    pub fn inner(self) -> (r: u64)
        ensures
            r == self.view(),
    {
        self.0
    }

    /// Return `true` if no bits are set.
    pub fn is_empty(self) -> (r: bool)
        ensures
            r == (self.view() == 0),
    {
        self.0 == 0
    }

    /// Return `true` if at least one bit is set.
    pub fn is_nonempty(self) -> (r: bool)
        ensures
            r == (self.view() != 0),
    {
        self.0 != 0
    }

    /// Count the number of set bits.
    pub fn count(self) -> (r: u32)
        ensures
            r == popcount(self.view()),
    {
        count_ones_u64(self.0)
    }

    /// Return `true` if the given square's bit is set.
    pub fn contains(self, sq: Square) -> (r: bool)
        ensures
            r == self.has(sq.view()),
    {
        let i = sq.index() as u64;
        proof {
            lemma_mask_test(self.0, sq.view());
        }
        (self.0 & (1u64 << i)) != 0
    }

    /// Return a new bitboard with the given square set.
    pub fn with(self, sq: Square) -> (r: Bitboard)
        ensures
            r.view() == self.view() | single(sq.view()),
            forall|i: int| #[trigger] r.has(i) == (self.has(i) || i == sq.view()),
    {
        let i = sq.index() as u64;
        proof {
            assert forall|j: int| #[trigger] bit(self.0 | single(sq.view()), j) == (bit(self.0, j) || j == sq.view()) by {
                lemma_bit_or(self.0, single(sq.view()), j);
                lemma_bit_single(sq.view(), j);
            }
        }
        Bitboard(self.0 | (1u64 << i))
    }

    /// Return a new bitboard with the given square cleared.
    pub fn without(self, sq: Square) -> (r: Bitboard)
        ensures
            r.view() == self.view() & !single(sq.view()),
            forall|i: int| #[trigger] r.has(i) == (self.has(i) && i != sq.view()),
    {
        let i = sq.index() as u64;
        proof {
            assert forall|j: int| #[trigger] bit(self.0 & !single(sq.view()), j) == (bit(self.0, j) && j != sq.view()) by {
                lemma_bit_and(self.0, !single(sq.view()), j);
                lemma_bit_not(single(sq.view()), j);
                lemma_bit_single(sq.view(), j);
            }
        }
        Bitboard(self.0 & !(1u64 << i))
    }

    /// Return a new bitboard with the given square toggled.
    pub fn toggle(self, sq: Square) -> (r: Bitboard)
        ensures
            r.view() == self.view() ^ single(sq.view()),
            forall|i: int| #[trigger] r.has(i) == (self.has(i) != (i == sq.view())),
    {
        let i = sq.index() as u64;
        proof {
            assert forall|j: int| #[trigger] bit(self.0 ^ single(sq.view()), j) == (bit(self.0, j) != (j == sq.view())) by {
                lemma_bit_xor(self.0, single(sq.view()), j);
                lemma_bit_single(sq.view(), j);
            }
        }
        Bitboard(self.0 ^ (1u64 << i))
    }

    /// Return the least significant set bit as a square, or `None` if empty.
    pub fn lsb(self) -> (r: Option<Square>)
        ensures
            r.is_none() == (self.view() == 0),
            r matches Some(s) ==> self.has(s.view()) && forall|j: int| 0 <= j < s.view() ==> !#[trigger] self.has(j),
    {
        if self.0 == 0 {
            None
        } else {
            let tz = self.0.trailing_zeros();
            proof {
                vstd::std_specs::bits::axiom_u64_trailing_zeros(self.0);
                assert forall|j: int| 0 <= j < tz implies !#[trigger] self.has(j) by {
                    let jj = j as u64;
                    assert((self.0 >> jj) & 1u64 == 0u64);
                }
            }
            Some(Square::from_index_unchecked(tz as u8))
        }
    }

    /// Pop the least significant set bit, returning the square and the remaining bitboard.
    pub fn pop_lsb(self) -> (r: Option<(Square, Bitboard)>)
        ensures
            r.is_none() == (self.view() == 0),
            r matches Some((s, rest)) ==> {
                &&& self.has(s.view())
                &&& forall|j: int| 0 <= j < s.view() ==> !#[trigger] self.has(j)
                &&& rest.view() == self.view() & ((self.view() - 1) as u64)
                &&& forall|j: int| #[trigger] rest.has(j) == (self.has(j) && j != s.view())
            },
    {
        match self.lsb() {
            None => None,
            Some(sq) => {
                let x = self.0;
                let rest = x & (x - 1);
                proof {
                    assert forall|j: int| 0 <= j < sq.view() implies !#[trigger] bit(x, j) by {
                        assert(!self.has(j));
                    }
                    lemma_clear_lowest(x, sq.view());
                }
                Some((sq, Bitboard(rest)))
            },
        }
    }

    /// Return the rank mask for the given rank.
    pub fn rank_mask(rank: Rank) -> (r: Bitboard)
        ensures
            r.view() == rank_bits(rank.idx()),
    {
        let ranks = Self::RANKS();
        ranks[rank.index()]
    }

    /// Return the file mask for the given file.
    pub fn file_mask(file: File) -> (r: Bitboard)
        ensures
            r.view() == file_bits(file.idx()),
    {
        let files = Self::FILES();
        files[file.index()]
    }

    /// The squares of the set bits, lowest index first.
    pub fn squares(self) -> (r: Vec<Square>)
        ensures
            forall|i: int| 0 <= i < r@.len() ==> self.has((#[trigger] r@[i]).view()),
            forall|i: int, j: int| 0 <= i < j < r@.len() ==> (#[trigger] r@[i]).view() < (#[trigger] r@[j]).view(),
            forall|s: int| #[trigger] self.has(s) ==> exists|i: int| 0 <= i < r@.len() && (#[trigger] r@[i]).view() == s,
    {
        let mut v: Vec<Square> = Vec::new();
        let mut rest = self;
        while rest.is_nonempty()
            invariant
                forall|i: int| 0 <= i < v@.len() ==> self.has((#[trigger] v@[i]).view()),
                forall|i: int, j: int| 0 <= i < j < v@.len() ==> (#[trigger] v@[i]).view() < (#[trigger] v@[j]).view(),
                forall|s: int| #[trigger] rest.has(s) ==> self.has(s),
                forall|s: int| #[trigger] self.has(s) ==> (rest.has(s) || exists|i: int| 0 <= i < v@.len() && (#[trigger] v@[i]).view() == s),
                forall|i: int, s: int| 0 <= i < v@.len() && #[trigger] rest.has(s) ==> (#[trigger] v@[i]).view() < s,
            decreases popcount(rest.view()),
        {
            let (sq, next) = match rest.pop_lsb() {
                Some(p) => p,
                None => {
                    return v;
                },
            };
            proof {
                assert forall|j: int| #[trigger] bit(next.view(), j) == (bit(rest.view(), j) && j != sq.view()) by {
                    assert(next.has(j) == (rest.has(j) && j != sq.view()));
                }
                lemma_popcount_pop(rest.view(), next.view(), sq.view());
                assert forall|s: int| #[trigger] self.has(s) implies (next.has(s) || exists|i: int| 0 <= i < v@.len() + 1 && (#[trigger] v@.push(sq)[i]).view() == s) by {
                    if s == sq.view() {
                        assert(v@.push(sq)[v@.len() as int] == sq);
                    } else if !rest.has(s) {
                        let i = choose|i: int| 0 <= i < v@.len() && (#[trigger] v@[i]).view() == s;
                        assert(v@.push(sq)[i] == v@[i]);
                    }
                }
            }
            v.push(sq);
            rest = next;
        }
        proof {
            lemma_zero_iff_no_bits(rest.view());
        }
        v
    }
}

impl core::ops::BitAnd for Bitboard {
    type Output = Bitboard;

    fn bitand(self, rhs: Bitboard) -> (r: Bitboard) {
        Bitboard(self.0 & rhs.0)
    }
}

impl vstd::std_specs::ops::BitAndSpecImpl for Bitboard {
    open spec fn obeys_bitand_spec() -> bool {
        true
    }

    open spec fn bitand_req(self, rhs: Bitboard) -> bool {
        true
    }

    open spec fn bitand_spec(self, rhs: Bitboard) -> Bitboard {
        Bitboard::from_bits(self.view() & rhs.view())
    }
}

impl core::ops::BitAndAssign for Bitboard {
    fn bitand_assign(&mut self, rhs: Bitboard) {
        self.0 = self.0 & rhs.0;
    }
}

impl core::ops::BitOr for Bitboard {
    type Output = Bitboard;

    fn bitor(self, rhs: Bitboard) -> (r: Bitboard) {
        Bitboard(self.0 | rhs.0)
    }
}

impl vstd::std_specs::ops::BitOrSpecImpl for Bitboard {
    open spec fn obeys_bitor_spec() -> bool {
        true
    }

    open spec fn bitor_req(self, rhs: Bitboard) -> bool {
        true
    }

    open spec fn bitor_spec(self, rhs: Bitboard) -> Bitboard {
        Bitboard::from_bits(self.view() | rhs.view())
    }
}

impl core::ops::BitOrAssign for Bitboard {
    fn bitor_assign(&mut self, rhs: Bitboard) {
        self.0 = self.0 | rhs.0;
    }
}

impl core::ops::BitXor for Bitboard {
    type Output = Bitboard;

    fn bitxor(self, rhs: Bitboard) -> (r: Bitboard) {
        Bitboard(self.0 ^ rhs.0)
    }
}

impl vstd::std_specs::ops::BitXorSpecImpl for Bitboard {
    open spec fn obeys_bitxor_spec() -> bool {
        true
    }

    open spec fn bitxor_req(self, rhs: Bitboard) -> bool {
        true
    }

    open spec fn bitxor_spec(self, rhs: Bitboard) -> Bitboard {
        Bitboard::from_bits(self.view() ^ rhs.view())
    }
}

impl core::ops::BitXorAssign for Bitboard {
    fn bitxor_assign(&mut self, rhs: Bitboard) {
        self.0 = self.0 ^ rhs.0;
    }
}

impl core::ops::Not for Bitboard {
    type Output = Bitboard;

    fn not(self) -> (r: Bitboard) {
        Bitboard(!self.0)
    }
}

impl vstd::std_specs::ops::NotSpecImpl for Bitboard {
    open spec fn obeys_not_spec() -> bool {
        true
    }

    open spec fn not_req(self) -> bool {
        true
    }

    open spec fn not_spec(self) -> Bitboard {
        Bitboard::from_bits(!self.view())
    }
}

impl core::ops::Shl<u8> for Bitboard {
    type Output = Bitboard;

    fn shl(self, rhs: u8) -> (r: Bitboard) {
        Bitboard(self.0 << rhs)
    }
}

impl vstd::std_specs::ops::ShlSpecImpl<u8> for Bitboard {
    open spec fn obeys_shl_spec() -> bool {
        true
    }

    open spec fn shl_req(self, rhs: u8) -> bool {
        rhs < 64
    }

    open spec fn shl_spec(self, rhs: u8) -> Bitboard {
        Bitboard::from_bits(self.view() << rhs)
    }
}

impl core::ops::Shr<u8> for Bitboard {
    type Output = Bitboard;

    fn shr(self, rhs: u8) -> (r: Bitboard) {
        Bitboard(self.0 >> rhs)
    }
}

impl vstd::std_specs::ops::ShrSpecImpl<u8> for Bitboard {
    open spec fn obeys_shr_spec() -> bool {
        true
    }

    open spec fn shr_req(self, rhs: u8) -> bool {
        rhs < 64
    }

    open spec fn shr_spec(self, rhs: u8) -> Bitboard {
        Bitboard::from_bits(self.view() >> rhs)
    }
}

impl core::ops::Mul for Bitboard {
    type Output = Bitboard;

    fn mul(self, rhs: Bitboard) -> (r: Bitboard) {
        Bitboard(self.0.wrapping_mul(rhs.0))
    }
}

impl vstd::std_specs::ops::MulSpecImpl for Bitboard {
    open spec fn obeys_mul_spec() -> bool {
        true
    }

    open spec fn mul_req(self, rhs: Bitboard) -> bool {
        true
    }

    open spec fn mul_spec(self, rhs: Bitboard) -> Bitboard {
        Bitboard::from_bits(vstd::wrapping::u64_specs::wrapping_mul(self.view(), rhs.view()))
    }
}

/// At most 64 bits are set.
pub proof fn lemma_popcount_le_64(x: u64)
    ensures
        popcount(x) <= 64,
{
    vstd::arithmetic::power2::lemma2_to64_rest();
    lemma_popcount_bound(x, 64);
}

proof fn lemma_popcount_bound(x: u64, n: nat)
    requires
        n <= 64,
        x < vstd::arithmetic::power2::pow2(n),
    ensures
        popcount(x) <= n,
    decreases n,
{
    if x != 0 {
        if n == 0 {
            vstd::arithmetic::power2::lemma2_to64();
            assert(false);
        } else {
            vstd::arithmetic::power2::lemma_pow2_unfold(n);
            lemma_popcount_bound(x / 2, (n - 1) as nat);
        }
    }
}

impl Square {
    /// Return a bitboard with only this square set.
    pub fn bitboard(self) -> (r: Bitboard)
        ensures
            r.view() == single(self.view()),
            forall|t: int| #[trigger] r.has(t) == (t == self.view()),
    {
        proof {
            assert forall|t: int| #[trigger] bit(single(self.view()), t) == (t == self.view()) by {
                lemma_bit_single(self.view(), t);
            }
        }
        Bitboard(1u64 << (self.index() as u64))
    }
}

} // verus!
