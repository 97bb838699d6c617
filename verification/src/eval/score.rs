//! Packed middlegame/endgame score type used throughout evaluation.

use vstd::prelude::*;

verus! {

/// The packed word of a middlegame and an endgame value:
/// `(mg << 16) + eg`, wrapped to 32 bits.
pub open spec fn pack(mg: i16, eg: i16) -> i32 {
    (((mg as i32) << 16u32) as int + eg as int) as i32
}

/// The middlegame value of a packed word (the `+0x8000` undoes the borrow a
/// negative endgame value takes from the upper half).
pub open spec fn unpack_mg(x: i32) -> i16 {
    (((x as int + 0x8000) as i32) >> 16u32) as i16
}

/// The endgame value of a packed word: its low 16 bits.
pub open spec fn unpack_eg(x: i32) -> i16 {
    x as i16
}

/// The packed sum of two words (wrapping, as the word addition of scores).
pub open spec fn wadd(a: i32, b: i32) -> i32 {
    vstd::wrapping::i32_specs::wrapping_add(a, b)
}

/// The packed difference of two words (wrapping, as the word subtraction of scores).
pub open spec fn wsub(a: i32, b: i32) -> i32 {
    vstd::wrapping::i32_specs::wrapping_sub(a, b)
}

/// The word of `S(mg, eg) * k`: each component multiplied by `k`.
pub open spec fn scaled(mg: i16, eg: i16, k: int) -> i32 {
    pack((mg * k) as i16, (eg * k) as i16)
}

/// Both components of `S(mg, eg) * k` fit in 16 bits.
pub open spec fn scale_fits(mg: i16, eg: i16, k: int) -> bool {
    i16::MIN <= mg * k <= i16::MAX && i16::MIN <= eg * k <= i16::MAX
}

/// Unpacking a packed pair gives the pair back.
pub proof fn lemma_pack_roundtrip(mg: i16, eg: i16)
    by (bit_vector)
    ensures
        unpack_mg(pack(mg, eg)) == mg,
        unpack_eg(pack(mg, eg)) == eg,
{
}

/// Packed words add component by component while each component sum fits
/// in 16 bits.
pub proof fn lemma_pack_add(m1: i16, e1: i16, m2: i16, e2: i16)
    by (bit_vector)
    requires
        -32768 <= m1 + m2 <= 32767,
        -32768 <= e1 + e2 <= 32767,
    ensures
        vstd::wrapping::i32_specs::wrapping_add(pack(m1, e1), pack(m2, e2)) == pack((m1 + m2) as i16, (e1 + e2) as i16),
{
}

/// Packed words subtract component by component while each component
/// difference fits in 16 bits.
pub proof fn lemma_pack_sub(m1: i16, e1: i16, m2: i16, e2: i16)
    by (bit_vector)
    requires
        -32768 <= m1 - m2 <= 32767,
        -32768 <= e1 - e2 <= 32767,
    ensures
        vstd::wrapping::i32_specs::wrapping_sub(pack(m1, e1), pack(m2, e2)) == pack((m1 - m2) as i16, (e1 - e2) as i16),
{
}

/// Packed middlegame/endgame evaluation score.
///
/// Encodes two `i16` values into a single `i32`: the middlegame value in
/// the upper 16 bits, the endgame value in the lower 16 bits
/// (`(mg << 16) + eg`). Addition and subtraction work on the packed word;
/// multiplication and negation unpack, compute each component and repack.
#[derive(Clone, Copy, PartialEq, Eq, Default, Hash, Debug, Structural)]
pub struct Score(i32);

impl Score {
    /// The packed word.
    pub closed spec fn view(self) -> i32 {
        self.0
    }

    /// Zero score (mg=0, eg=0).
    #[allow(non_snake_case)]
    pub fn ZERO() -> (r: Score)
        ensures
            r.view() == 0,
            r.view() == pack(0, 0),
    {
        proof {
            assert(pack(0, 0) == 0i32) by (bit_vector);
        }
        Score(0)
    }

    /// Construct a `Score` from separate middlegame and endgame values.
    pub fn new(mg: i16, eg: i16) -> (r: Score)
        ensures
            r.view() == pack(mg, eg),
    {
        let hi: i32 = (mg as i32) << 16u32;
        let x = hi.wrapping_add(eg as i32);
        proof {
            assert(x == pack(mg, eg)) by (bit_vector)
                requires
                    hi == (mg as i32) << 16u32,
                    x == vstd::wrapping::i32_specs::wrapping_add(hi, eg as i32),
            ;
        }
        Score(x)
    }

    /// Extract the middlegame component.
    pub fn mg(self) -> (r: i16)
        ensures
            r == unpack_mg(self.view()),
    {
        let y = self.0.wrapping_add(0x8000);
        let r = (y >> 16u32) as i16;
        proof {
            let x = self.0;
            assert(r == unpack_mg(x)) by (bit_vector)
                requires
                    y == vstd::wrapping::i32_specs::wrapping_add(x, 0x8000i32),
                    r == (y >> 16u32) as i16,
            ;
        }
        r
    }

    /// Extract the endgame component.
    pub fn eg(self) -> (r: i16)
        ensures
            r == unpack_eg(self.view()),
    {
        self.0 as i16
    }
}

/// Shorthand constructor for a packed [`Score`]: `S(mg, eg)` is
/// `Score::new(mg, eg)`.
#[allow(non_snake_case)]
pub fn S(mg: i16, eg: i16) -> (r: Score)
    ensures
        r.view() == pack(mg, eg),
{
    Score::new(mg, eg)
}

impl core::ops::Add for Score {
    type Output = Score;

    fn add(self, rhs: Score) -> (r: Score) {
        Score(self.0.wrapping_add(rhs.0))
    }
}

impl vstd::std_specs::ops::AddSpecImpl for Score {
    open spec fn obeys_add_spec() -> bool {
        true
    }

    open spec fn add_req(self, rhs: Score) -> bool {
        true
    }

    open spec fn add_spec(self, rhs: Score) -> Score {
        Score::from_word(vstd::wrapping::i32_specs::wrapping_add(self.view(), rhs.view()))
    }
}

impl core::ops::AddAssign for Score {
    fn add_assign(&mut self, rhs: Score) {
        self.0 = self.0.wrapping_add(rhs.0);
    }
}

impl core::ops::Sub for Score {
    type Output = Score;

    fn sub(self, rhs: Score) -> (r: Score) {
        Score(self.0.wrapping_sub(rhs.0))
    }
}

impl vstd::std_specs::ops::SubSpecImpl for Score {
    open spec fn obeys_sub_spec() -> bool {
        true
    }

    open spec fn sub_req(self, rhs: Score) -> bool {
        true
    }

    open spec fn sub_spec(self, rhs: Score) -> Score {
        Score::from_word(vstd::wrapping::i32_specs::wrapping_sub(self.view(), rhs.view()))
    }
}

impl core::ops::SubAssign for Score {
    fn sub_assign(&mut self, rhs: Score) {
        self.0 = self.0.wrapping_sub(rhs.0);
    }
}

impl core::ops::Neg for Score {
    type Output = Score;

    fn neg(self) -> (r: Score) {
        let m = self.mg();
        let e = self.eg();
        Score::new(-m, -e)
    }
}

impl vstd::std_specs::ops::NegSpecImpl for Score {
    open spec fn obeys_neg_spec() -> bool {
        true
    }

    open spec fn neg_req(self) -> bool {
        unpack_mg(self.view()) != i16::MIN && unpack_eg(self.view()) != i16::MIN
    }

    open spec fn neg_spec(self) -> Score {
        Score::from_word(pack((-unpack_mg(self.view())) as i16, (-unpack_eg(self.view())) as i16))
    }
}

impl core::ops::Mul<i16> for Score {
    type Output = Score;

    fn mul(self, rhs: i16) -> (r: Score) {
        let m = self.mg();
        let e = self.eg();
        Score::new(m * rhs, e * rhs)
    }
}

impl vstd::std_specs::ops::MulSpecImpl<i16> for Score {
    open spec fn obeys_mul_spec() -> bool {
        true
    }

    open spec fn mul_req(self, rhs: i16) -> bool {
        i16::MIN <= unpack_mg(self.view()) * rhs <= i16::MAX && i16::MIN <= unpack_eg(self.view()) * rhs <= i16::MAX
    }

    open spec fn mul_spec(self, rhs: i16) -> Score {
        Score::from_word(pack((unpack_mg(self.view()) * rhs) as i16, (unpack_eg(self.view()) * rhs) as i16))
    }
}

impl Score {
    /// The score with packed word `x`.
    pub closed spec fn from_word(x: i32) -> Score {
        Score(x)
    }

    /// `from_word` and `view` are inverse.
    pub broadcast proof fn lemma_from_word(x: i32)
        ensures
            #[trigger] Score::from_word(x).view() == x,
    {
    }

    /// Scores are equal exactly when their words are.
    pub broadcast proof fn lemma_view_eq(a: Score, b: Score)
        ensures
            #![trigger a.view(), b.view()]
            a.view() == b.view() <==> a == b,
    {
    }
}

} // verus!
