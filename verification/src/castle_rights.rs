//! Castling rights stored as a 4-bit field within a `u8`.

use vstd::prelude::*;

use crate::color::Color;
use crate::error::FenError;
use crate::text::str_chars;

verus! {

/// Which side of the board to castle toward.
#[derive(Debug, Clone, Copy, PartialEq, Eq, Hash, Structural)]
pub enum CastleSide {
    KingSide,
    QueenSide,
}

/// Castling rights encoded as a 4-bit field: bit 0 = WK, 1 = WQ, 2 = BK, 3 = BQ.
#[derive(Clone, Copy, PartialEq, Eq, Hash, Debug, Structural)]
pub struct CastleRights(u8);

/// The bit of a (color, side) castling right.
pub open spec fn flag_bits(color: Color, side: CastleSide) -> u8 {
    match (color, side) {
        (Color::White, CastleSide::KingSide) => 1,
        (Color::White, CastleSide::QueenSide) => 2,
        (Color::Black, CastleSide::KingSide) => 4,
        (Color::Black, CastleSide::QueenSide) => 8,
    }
}

/// The right named by one FEN castling letter.
pub open spec fn castle_char_bits(c: char) -> Option<u8> {
    if c == 'K' {
        Some(1u8)
    } else if c == 'Q' {
        Some(2u8)
    } else if c == 'k' {
        Some(4u8)
    } else if c == 'q' {
        Some(8u8)
    } else {
        None
    }
}

/// Parse of the FEN castling field: "-" is no rights; otherwise the union of
/// the rights named by its letters, or the first letter that names none.
pub open spec fn castle_field_parse(cs: Seq<char>) -> Result<u8, char> {
    if cs == seq!['-'] {
        Ok(0u8)
    } else {
        castle_letters(cs, 0)
    }
}

/// Union of the rights named by `cs`, starting from `acc`, or the first bad letter.
pub open spec fn castle_letters(cs: Seq<char>, acc: u8) -> Result<u8, char>
    decreases cs.len(),
{
    if cs.len() == 0 {
        Ok(acc)
    } else {
        match castle_char_bits(cs[0]) {
            Some(b) => castle_letters(cs.drop_first(), acc | b),
            None => Err(cs[0]),
        }
    }
}

/// The FEN castling field of a set of rights, in the order "KQkq", or "-".
pub open spec fn castle_fen_text(bits: u8) -> Seq<char> {
    if bits == 0 {
        seq!['-']
    } else {
        (if bits & 1 != 0 { seq!['K'] } else { Seq::empty() })
        + (if bits & 2 != 0 { seq!['Q'] } else { Seq::empty() })
        + (if bits & 4 != 0 { seq!['k'] } else { Seq::empty() })
        + (if bits & 8 != 0 { seq!['q'] } else { Seq::empty() })
    }
}

/// Reading letters after other letters continues from the rights the first
/// ones named.
proof fn lemma_castle_letters_append(a: Seq<char>, b: Seq<char>, acc: u8)
    ensures
        castle_letters(a + b, acc) == match castle_letters(a, acc) {
            Ok(x) => castle_letters(b, x),
            Err(c) => Err(c),
        },
    decreases a.len(),
{
    if a.len() == 0 {
        assert(a + b =~= b);
    } else {
        assert((a + b).drop_first() =~= a.drop_first() + b);
        assert((a + b)[0] == a[0]);
        if let Some(x) = castle_char_bits(a[0]) {
            lemma_castle_letters_append(a.drop_first(), b, acc | x);
        }
    }
}

/// The letter `ch` when `bits` holds the right `mask`, else nothing.
spec fn letter_if(bits: u8, mask: u8, ch: char) -> Seq<char> {
    if bits & mask != 0 {
        seq![ch]
    } else {
        Seq::empty()
    }
}

/// Reading the letter part of one right adds that right when `bits` holds it.
proof fn lemma_letter_if(bits: u8, mask: u8, ch: char, acc: u8)
    requires
        castle_char_bits(ch) == Some(mask),
    ensures
        castle_letters(letter_if(bits, mask, ch), acc) == Ok::<u8, char>(acc | (if bits & mask != 0 { mask } else { 0u8 })),
{
    reveal_with_fuel(castle_letters, 2);
    assert(seq![ch].drop_first() =~= Seq::<char>::empty());
    assert(acc | 0u8 == acc) by (bit_vector);
}

/// Reading back the FEN castling field written for a set of rights gives
/// the same rights.
pub proof fn lemma_castle_fen_roundtrip(bits: u8)
    requires
        bits < 16,
    ensures
        castle_field_parse(castle_fen_text(bits)) == Ok::<u8, char>(bits),
{
    if bits != 0 {
        let a = letter_if(bits, 1, 'K');
        let b = letter_if(bits, 2, 'Q');
        let c = letter_if(bits, 4, 'k');
        let d = letter_if(bits, 8, 'q');
        assert(castle_fen_text(bits) == a + b + c + d);
        let x1: u8 = 0u8 | (if bits & 1 != 0 { 1u8 } else { 0u8 });
        let x2: u8 = x1 | (if bits & 2 != 0 { 2u8 } else { 0u8 });
        let x3: u8 = x2 | (if bits & 4 != 0 { 4u8 } else { 0u8 });
        let x4: u8 = x3 | (if bits & 8 != 0 { 8u8 } else { 0u8 });
        lemma_letter_if(bits, 1, 'K', 0);
        lemma_letter_if(bits, 2, 'Q', x1);
        lemma_letter_if(bits, 4, 'k', x2);
        lemma_letter_if(bits, 8, 'q', x3);
        lemma_castle_letters_append(a, b, 0);
        lemma_castle_letters_append(a + b, c, 0);
        lemma_castle_letters_append(a + b + c, d, 0);
        assert(x4 == bits) by (bit_vector)
            requires
                bits < 16,
                x1 == 0u8 | (if bits & 1 != 0 { 1u8 } else { 0u8 }),
                x2 == x1 | (if bits & 2 != 0 { 2u8 } else { 0u8 }),
                x3 == x2 | (if bits & 4 != 0 { 4u8 } else { 0u8 }),
                x4 == x3 | (if bits & 8 != 0 { 8u8 } else { 0u8 }),
        ;
        assert(bits & 1 != 0 || bits & 2 != 0 || bits & 4 != 0 || bits & 8 != 0) by (bit_vector)
            requires
                bits != 0,
                bits < 16,
        ;
        let t = a + b + c + d;
        assert(t != seq!['-']) by {
            if t == seq!['-'] {
                assert(t.len() == 1);
                if a.len() == 1 {
                    assert(t[0] == 'K');
                } else if b.len() == 1 {
                    assert(t[0] == 'Q');
                } else if c.len() == 1 {
                    assert(t[0] == 'k');
                } else {
                    assert(t[0] == 'q');
                }
            }
        }
    }
}

impl CastleRights {
    #[verifier::type_invariant]
    spec fn inv(self) -> bool {
        self.0 < 16
    }

    /// The 4-bit field of the rights.
    pub closed spec fn view(self) -> u8 {
        self.0
    }

    /// The rights holding the field `b & 15`.
    pub closed spec fn from_bits(b: u8) -> CastleRights {
        CastleRights(b & 15)
    }

    /// `from_bits` keeps the low four bits.
    pub broadcast proof fn lemma_from_bits(b: u8)
        ensures
            #[trigger] CastleRights::from_bits(b).view() == b & 15,
    {
    }

    /// Rights are equal exactly when their fields are.
    pub broadcast proof fn lemma_view_eq(a: CastleRights, b: CastleRights)
        ensures
            #![trigger a.view(), b.view()]
            a.view() == b.view() <==> a == b,
    {
    }

    /// No castling rights.
    #[allow(non_snake_case)]
    pub fn NONE() -> (r: CastleRights)
        ensures
            r.view() == 0,
    {
        CastleRights(0)
    }

    /// All castling rights.
    #[allow(non_snake_case)]
    pub fn ALL() -> (r: CastleRights)
        ensures
            r.view() == 15,
    {
        CastleRights(0b1111)
    }

    /// White king-side castling.
    #[allow(non_snake_case)]
    pub fn WHITE_KING() -> (r: CastleRights)
        ensures
            r.view() == 1,
    {
        CastleRights(0b0001)
    }

    /// White queen-side castling.
    #[allow(non_snake_case)]
    pub fn WHITE_QUEEN() -> (r: CastleRights)
        ensures
            r.view() == 2,
    {
        CastleRights(0b0010)
    }

    /// Black king-side castling.
    #[allow(non_snake_case)]
    pub fn BLACK_KING() -> (r: CastleRights)
        ensures
            r.view() == 4,
    {
        CastleRights(0b0100)
    }

    /// Black queen-side castling.
    #[allow(non_snake_case)]
    pub fn BLACK_QUEEN() -> (r: CastleRights)
        ensures
            r.view() == 8,
    {
        CastleRights(0b1000)
    }

    /// Both white castling rights.
    #[allow(non_snake_case)]
    pub fn WHITE_BOTH() -> (r: CastleRights)
        ensures
            r.view() == 3,
    {
        CastleRights(0b0011)
    }

    /// Both black castling rights.
    #[allow(non_snake_case)]
    pub fn BLACK_BOTH() -> (r: CastleRights)
        ensures
            r.view() == 12,
    {
        CastleRights(0b1100)
    }

    /// Create castling rights from a raw `u8`, masking to the lower 4 bits.
    pub fn new(bits: u8) -> (r: CastleRights)
        ensures
            r.view() == bits & 15,
    {
        proof {
            lemma_nibble(bits, bits);
        }
        CastleRights(bits & 0b1111)
    }

    /// Return the raw bits.
    pub fn bits(self) -> (r: u8)
        ensures
            r == self.view(),
            r < 16,
    {
        proof {
            use_type_invariant(&self);
        }
        self.0
    }

    /// Return `true` if no castling rights remain.
    pub fn is_empty(self) -> (r: bool)
        ensures
            r == (self.view() == 0),
    {
        self.0 == 0
    }

    /// Return `true` if all bits in `other` are set in `self`.
    pub fn contains(self, other: CastleRights) -> (r: bool)
        ensures
            r == (self.view() & other.view() == other.view()),
    {
        (self.0 & other.0) == other.0
    }

    /// Return new rights with all bits from `other` added.
    pub fn insert(self, other: CastleRights) -> (r: CastleRights)
        ensures
            r.view() == self.view() | other.view(),
    {
        proof {
            use_type_invariant(&self);
            use_type_invariant(&other);
            lemma_nibble(self.0, other.0);
        }
        CastleRights(self.0 | other.0)
    }

    /// Return new rights with all bits from `other` removed.
    pub fn remove(self, other: CastleRights) -> (r: CastleRights)
        ensures
            r.view() == self.view() & !other.view(),
    {
        proof {
            use_type_invariant(&self);
            use_type_invariant(&other);
            lemma_nibble(self.0, other.0);
        }
        CastleRights(self.0 & !other.0)
    }

    /// Check whether a specific color and side can castle.
    pub fn has(self, color: Color, side: CastleSide) -> (r: bool)
        ensures
            r == (self.view() & flag_bits(color, side) != 0),
    {
        let bit = Self::flag(color, side).0;
        (self.0 & bit) != 0
    }

    /// Remove all castling rights for the given color.
    pub fn remove_color(self, color: Color) -> (r: CastleRights)
        ensures
            r.view() == self.view() & !(match color {
                Color::White => 3u8,
                Color::Black => 12u8,
            }),
    {
        match color {
            Color::White => self.remove(Self::WHITE_BOTH()),
            Color::Black => self.remove(Self::BLACK_BOTH()),
        }
    }

    /// Return the single-bit flag for a color and side.
    fn flag(color: Color, side: CastleSide) -> (r: CastleRights)
        ensures
            r.view() == flag_bits(color, side),
    {
        match (color, side) {
            (Color::White, CastleSide::KingSide) => Self::WHITE_KING(),
            (Color::White, CastleSide::QueenSide) => Self::WHITE_QUEEN(),
            (Color::Black, CastleSide::KingSide) => Self::BLACK_KING(),
            (Color::Black, CastleSide::QueenSide) => Self::BLACK_QUEEN(),
        }
    }

    /// Parse castling rights from the FEN castling field (e.g. "KQkq", "Kq", "-").
    pub fn from_fen(s: &str) -> (r: Result<CastleRights, FenError>)
        ensures
            castle_field_parse(s@) matches Ok(b) ==> (r matches Ok(c) && c.view() == b),
            castle_field_parse(s@) matches Err(c) ==> r == Err::<CastleRights, FenError>(
                FenError::InvalidCastlingChar { character: c },
            ),
    {
        let cs = str_chars(s);
        Self::from_fen_chars(cs.as_slice())
    }

    /// Parse castling rights from the characters of a FEN castling field.
    pub fn from_fen_chars(cs: &[char]) -> (r: Result<CastleRights, FenError>)
        ensures
            castle_field_parse(cs@) matches Ok(b) ==> (r matches Ok(c) && c.view() == b),
            castle_field_parse(cs@) matches Err(c) ==> r == Err::<CastleRights, FenError>(
                FenError::InvalidCastlingChar { character: c },
            ),
    {
        if cs.len() == 1 && cs[0] == '-' {
            assert(cs@ == seq!['-']);
            return Ok(CastleRights::NONE());
        }
        assert(cs@ != seq!['-']) by {
            if cs@ == seq!['-'] {
                assert(cs@.len() == 1 && cs@[0] == '-');
            }
        }
        let mut rights = CastleRights::NONE();
        let mut i: usize = 0;
        assert(cs@.skip(0) == cs@);
        while i < cs.len()
            invariant
                i <= cs@.len(),
                cs@ != seq!['-'],
                castle_letters(cs@, 0) == castle_letters(cs@.skip(i as int), rights.view()),
            decreases cs@.len() - i,
        {
            let c = cs[i];
            assert(cs@.skip(i as int)[0] == c);
            assert(cs@.skip(i as int).drop_first() == cs@.skip(i + 1));
            let flag = if c == 'K' {
                Self::WHITE_KING()
            } else if c == 'Q' {
                Self::WHITE_QUEEN()
            } else if c == 'k' {
                Self::BLACK_KING()
            } else if c == 'q' {
                Self::BLACK_QUEEN()
            } else {
                assert(castle_char_bits(c).is_none());
                assert(castle_letters(cs@.skip(i as int), rights.view()) == Err::<u8, char>(c));
                assert(castle_field_parse(cs@) == Err::<u8, char>(c));
                return Err(FenError::InvalidCastlingChar { character: c });
            };
            rights = rights.insert(flag);
            i = i + 1;
        }
        assert(cs@.skip(i as int).len() == 0);
        Ok(rights)
    }

    /// Serialize castling rights to the FEN castling field.
    pub fn to_fen(self) -> (r: String)
        ensures
            r@ == castle_fen_text(self.view()),
    {
        let mut s = String::new();
        if self.is_empty() {
            s.push('-');
            return s;
        }
        if self.contains(Self::WHITE_KING()) {
            s.push('K');
        }
        let ghost s1 = s@;
        if self.contains(Self::WHITE_QUEEN()) {
            s.push('Q');
        }
        let ghost s2 = s@;
        if self.contains(Self::BLACK_KING()) {
            s.push('k');
        }
        let ghost s3 = s@;
        if self.contains(Self::BLACK_QUEEN()) {
            s.push('q');
        }
        proof {
            let b = self.0;
            lemma_nibble(b, b);
            assert(s@ == castle_fen_text(b));
        }
        s
    }
}

/// Facts about 4-bit fields under the byte operations.
proof fn lemma_nibble(a: u8, b: u8)
    by (bit_vector)
    ensures
        a < 16 && b < 16 ==> a | b < 16,
        a < 16 ==> a & !b < 16,
        a < 16 ==> a & b < 16,
        a < 16 && b < 16 ==> a | b == (a | b) & 15,
        a < 16 ==> a & b == (a & b) & 15,
        a < 16 ==> a & !b == (a & !b) & 15,
        b & 15 < 16,
        !b & 15 < 16,
        (b & 1u8 == 1u8) == (b & 1 != 0),
        (b & 2u8 == 2u8) == (b & 2 != 0),
        (b & 4u8 == 4u8) == (b & 4 != 0),
        (b & 8u8 == 8u8) == (b & 8 != 0),
{
}

impl core::ops::BitAnd for CastleRights {
    type Output = CastleRights;

    fn bitand(self, rhs: CastleRights) -> (r: CastleRights) {
        proof {
            use_type_invariant(&self);
            lemma_nibble(self.0, rhs.0);
        }
        CastleRights(self.0 & rhs.0)
    }
}

impl vstd::std_specs::ops::BitAndSpecImpl for CastleRights {
    open spec fn obeys_bitand_spec() -> bool {
        true
    }

    open spec fn bitand_req(self, rhs: CastleRights) -> bool {
        true
    }

    open spec fn bitand_spec(self, rhs: CastleRights) -> CastleRights {
        CastleRights::from_bits(self.view() & rhs.view())
    }
}

impl core::ops::BitOr for CastleRights {
    type Output = CastleRights;

    fn bitor(self, rhs: CastleRights) -> (r: CastleRights) {
        proof {
            use_type_invariant(&self);
            use_type_invariant(&rhs);
            lemma_nibble(self.0, rhs.0);
        }
        CastleRights(self.0 | rhs.0)
    }
}

impl vstd::std_specs::ops::BitOrSpecImpl for CastleRights {
    open spec fn obeys_bitor_spec() -> bool {
        true
    }

    open spec fn bitor_req(self, rhs: CastleRights) -> bool {
        true
    }

    open spec fn bitor_spec(self, rhs: CastleRights) -> CastleRights {
        CastleRights::from_bits(self.view() | rhs.view())
    }
}

impl core::ops::Not for CastleRights {
    type Output = CastleRights;

    fn not(self) -> (r: CastleRights) {
        proof {
            lemma_nibble(self.0, self.0);
        }
        CastleRights(!self.0 & 0b1111)
    }
}

impl vstd::std_specs::ops::NotSpecImpl for CastleRights {
    open spec fn obeys_not_spec() -> bool {
        true
    }

    open spec fn not_req(self) -> bool {
        true
    }

    open spec fn not_spec(self) -> CastleRights {
        CastleRights::from_bits(!self.view())
    }
}

} // verus!
