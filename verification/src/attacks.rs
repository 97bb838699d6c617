//! Attack patterns for every piece, computed from square geometry.
//!
//! Leaper attacks (knight, king, pawn) are the on-board squares at fixed
//! offsets; slider attacks walk each ray until the first occupied square,
//! which is included.

use vstd::prelude::*;

use crate::bitboard::Bitboard;
use crate::bits::{bit, lemma_bit_or, lemma_bit_single, lemma_bit_zero, lemma_mask_test, single};
use crate::color::Color;
use crate::square::{file_of, rank_of, sq_of, Square};

verus! {

broadcast use Square::lemma_range, Bitboard::lemma_from_bits;

/// Absolute value.
pub open spec fn abs(x: int) -> int {
    if x < 0 { -x } else { x }
}

/// Whether (rank, file) lies on the board.
pub open spec fn on_board(r: int, f: int) -> bool {
    0 <= r < 8 && 0 <= f < 8
}

/// Whether `s` is a square index.
pub open spec fn is_sq(s: int) -> bool {
    0 <= s < 64
}

/// A knight on `s` attacks `t`.
pub open spec fn knight_geom(s: int, t: int) -> bool {
    &&& is_sq(s)
    &&& is_sq(t)
    &&& {
        let dr = abs(rank_of(t) - rank_of(s));
        let df = abs(file_of(t) - file_of(s));
        (dr == 1 && df == 2) || (dr == 2 && df == 1)
    }
}

/// A king on `s` attacks `t`.
pub open spec fn king_geom(s: int, t: int) -> bool {
    &&& is_sq(s)
    &&& is_sq(t)
    &&& s != t
    &&& abs(rank_of(t) - rank_of(s)) <= 1
    &&& abs(file_of(t) - file_of(s)) <= 1
}

/// A pawn of color `c` on `s` attacks `t` (one rank forward, one file aside).
pub open spec fn pawn_geom(c: Color, s: int, t: int) -> bool {
    &&& is_sq(s)
    &&& is_sq(t)
    &&& rank_of(t) - rank_of(s) == (if c == Color::White { 1int } else { -1int })
    &&& abs(file_of(t) - file_of(s)) == 1
}

/// `j` steps along direction component `d` (which is -1, 0 or 1).
pub open spec fn step(d: int, j: int) -> int {
    if d > 0 {
        j
    } else if d < 0 {
        -j
    } else {
        0
    }
}

/// Whether `(dr, df)` is one of the eight ray directions.
pub open spec fn is_dir(dr: int, df: int) -> bool {
    -1 <= dr <= 1 && -1 <= df <= 1 && (dr != 0 || df != 0)
}

/// Whether the `j`-th square from `s` along `(dr, df)` is on the board.
pub open spec fn ray_on(s: int, dr: int, df: int, j: int) -> bool {
    on_board(rank_of(s) + step(dr, j), file_of(s) + step(df, j))
}

/// The index of the `j`-th square from `s` along `(dr, df)`.
pub open spec fn ray_sq(s: int, dr: int, df: int, j: int) -> int {
    sq_of(rank_of(s) + step(dr, j), file_of(s) + step(df, j))
}

/// A slider on `s` moving along `(dr, df)` reaches `t` over the occupancy
/// `occ`: `t` is on the ray and every square strictly before it is empty.
pub open spec fn ray_sees(s: int, t: int, occ: u64, dr: int, df: int) -> bool {
    exists|k: int|
        #![trigger ray_sq(s, dr, df, k)]
        k >= 1 && ray_on(s, dr, df, k) && ray_sq(s, dr, df, k) == t && forall|j: int|
            1 <= j < k ==> !bit(occ, #[trigger] ray_sq(s, dr, df, j))
}

/// A rook on `s` attacks `t` over `occ`.
pub open spec fn rook_sees(s: int, t: int, occ: u64) -> bool {
    ray_sees(s, t, occ, 1, 0) || ray_sees(s, t, occ, -1, 0) || ray_sees(s, t, occ, 0, 1)
        || ray_sees(s, t, occ, 0, -1)
}

/// A bishop on `s` attacks `t` over `occ`.
pub open spec fn bishop_sees(s: int, t: int, occ: u64) -> bool {
    ray_sees(s, t, occ, 1, 1) || ray_sees(s, t, occ, 1, -1) || ray_sees(s, t, occ, -1, 1)
        || ray_sees(s, t, occ, -1, -1)
}

/// The single bit of the square `(r + dr, f + df)`, or nothing when that is off the board.
fn offset_bit(r: i8, f: i8, dr: i8, df: i8) -> (b: u64)
    requires
        0 <= r < 8,
        0 <= f < 8,
        -2 <= dr <= 2,
        -2 <= df <= 2,
    ensures
        forall|t: int| #[trigger] bit(b, t) == (on_board(r + dr, f + df) && t == sq_of(r + dr, f + df)),
{
    let nr = r + dr;
    let nf = f + df;
    if nr >= 0 && nr < 8 && nf >= 0 && nf < 8 {
        let idx = (nr as u64) * 8 + (nf as u64);
        assert(idx == sq_of(r + dr, f + df));
        let b = 1u64 << idx;
        proof {
            assert(b == single(idx as int));
            assert forall|t: int| #[trigger] bit(b, t) == (t == idx) by {
                lemma_bit_single(idx as int, t);
            }
        }
        b
    } else {
        proof {
            assert forall|t: int| !#[trigger] bit(0u64, t) by {
                lemma_bit_zero(t);
            }
        }
        0
    }
}

/// The union of two bit sets.
fn or_bits(a: u64, b: u64) -> (r: u64)
    ensures
        r == a | b,
        forall|t: int| #[trigger] bit(r, t) == (bit(a, t) || bit(b, t)),
{
    proof {
        assert forall|t: int| #[trigger] bit(a | b, t) == (bit(a, t) || bit(b, t)) by {
            lemma_bit_or(a, b, t);
        }
    }
    a | b
}

/// Squares attacked by a knight on `sq`.
pub fn knight_attacks(sq: Square) -> (r: Bitboard)
    ensures
        forall|t: int| #[trigger] r.has(t) == knight_geom(sq.view(), t),
{
    let rank = (sq.index() / 8) as i8;
    let file = (sq.index() % 8) as i8;
    let b0 = offset_bit(rank, file, -2, -1);
    let b1 = offset_bit(rank, file, -2, 1);
    let b2 = offset_bit(rank, file, -1, -2);
    let b3 = offset_bit(rank, file, -1, 2);
    let b4 = offset_bit(rank, file, 1, -2);
    let b5 = offset_bit(rank, file, 1, 2);
    let b6 = offset_bit(rank, file, 2, -1);
    let b7 = offset_bit(rank, file, 2, 1);
    let x = or_bits(or_bits(or_bits(b0, b1), or_bits(b2, b3)), or_bits(or_bits(b4, b5), or_bits(b6, b7)));
    Bitboard::new(x)
}

/// Squares attacked by a king on `sq`.
pub fn king_attacks(sq: Square) -> (r: Bitboard)
    ensures
        forall|t: int| #[trigger] r.has(t) == king_geom(sq.view(), t),
{
    let rank = (sq.index() / 8) as i8;
    let file = (sq.index() % 8) as i8;
    let b0 = offset_bit(rank, file, -1, -1);
    let b1 = offset_bit(rank, file, -1, 0);
    let b2 = offset_bit(rank, file, -1, 1);
    let b3 = offset_bit(rank, file, 0, -1);
    let b4 = offset_bit(rank, file, 0, 1);
    let b5 = offset_bit(rank, file, 1, -1);
    let b6 = offset_bit(rank, file, 1, 0);
    let b7 = offset_bit(rank, file, 1, 1);
    let x = or_bits(or_bits(or_bits(b0, b1), or_bits(b2, b3)), or_bits(or_bits(b4, b5), or_bits(b6, b7)));
    Bitboard::new(x)
}

/// Squares attacked by a pawn of `color` on `sq`.
pub fn pawn_attacks(color: Color, sq: Square) -> (r: Bitboard)
    ensures
        forall|t: int| #[trigger] r.has(t) == pawn_geom(color, sq.view(), t),
{
    let rank = (sq.index() / 8) as i8;
    let file = (sq.index() % 8) as i8;
    let dr: i8 = match color {
        Color::White => 1,
        Color::Black => -1,
    };
    let b0 = offset_bit(rank, file, dr, -1);
    let b1 = offset_bit(rank, file, dr, 1);
    Bitboard::new(or_bits(b0, b1))
}


/// The squares a slider on `sq` reaches along `(dr, df)` over `occupied`:
/// every square up to and including the first occupied one.
fn ray_attacks(sq: usize, occupied: u64, dr: i8, df: i8) -> (r: u64)
    requires
        sq < 64,
        is_dir(dr as int, df as int),
    ensures
        forall|t: int| #[trigger] bit(r, t) == ray_sees(sq as int, t, occupied, dr as int, df as int),
{
    let ghost s = sq as int;
    let ghost d_r = dr as int;
    let ghost d_f = df as int;
    let rank = (sq / 8) as i8;
    let file = (sq % 8) as i8;
    let mut r: i8 = rank + dr;
    let mut f: i8 = file + df;
    let mut k: i8 = 1;
    let mut attacks: u64 = 0;
    let mut blocked = false;
    proof {
        assert forall|t: int| !#[trigger] bit(0u64, t) by {
            lemma_bit_zero(t);
        }
    }
    while !blocked && r >= 0 && r < 8 && f >= 0 && f < 8
        invariant
            is_dir(d_r, d_f),
            d_r == dr,
            d_f == df,
            0 <= s < 64,
            1 <= k <= 9,
            !blocked ==> r == rank_of(s) + step(d_r, k as int),
            !blocked ==> f == file_of(s) + step(d_f, k as int),
            forall|j: int| 1 <= j < k ==> #[trigger] ray_on(s, d_r, d_f, j),
            forall|t: int| #[trigger] bit(attacks, t) == exists|j: int| 1 <= j < k && #[trigger] ray_sq(s, d_r, d_f, j) == t,
            !blocked ==> forall|j: int| 1 <= j < k ==> !bit(occupied, #[trigger] ray_sq(s, d_r, d_f, j)),
            blocked ==> (forall|j: int| 1 <= j < k - 1 ==> !bit(occupied, #[trigger] ray_sq(s, d_r, d_f, j)))
                && bit(occupied, ray_sq(s, d_r, d_f, k - 1)) && k >= 2,
        decreases 9 - k + (if blocked { 0int } else { 1int }),
    {
        let idx = (r as u64) * 8 + (f as u64);
        let b = 1u64 << idx;
        proof {
            assert(b == single(idx as int));
            assert(idx == ray_sq(s, d_r, d_f, k as int));
            assert forall|t: int| #[trigger] bit(attacks | b, t) == (bit(attacks, t) || t == idx) by {
                lemma_bit_or(attacks, b, t);
                lemma_bit_single(idx as int, t);
            }
            lemma_mask_test(occupied, idx as int);
            assert forall|t: int| #[trigger] bit(attacks | b, t) == exists|j: int| 1 <= j < k + 1 && #[trigger] ray_sq(s, d_r, d_f, j) == t by {
                if t == idx {
                    assert(ray_sq(s, d_r, d_f, k as int) == t);
                }
                if exists|j: int| 1 <= j < k + 1 && #[trigger] ray_sq(s, d_r, d_f, j) == t {
                    let j = choose|j: int| 1 <= j < k + 1 && #[trigger] ray_sq(s, d_r, d_f, j) == t;
                    if j < k {
                        assert(bit(attacks, t));
                    }
                }
            }
        }
        attacks = attacks | b;
        if occupied & b != 0 {
            blocked = true;
        } else {
            r = r + dr;
            f = f + df;
        }
        k = k + 1;
    }
    proof {
        assert forall|t: int| #[trigger] bit(attacks, t) == ray_sees(s, t, occupied, d_r, d_f) by {
            if bit(attacks, t) {
                let j = choose|j: int| 1 <= j < k && #[trigger] ray_sq(s, d_r, d_f, j) == t;
                assert(ray_on(s, d_r, d_f, j));
                assert forall|i: int| 1 <= i < j implies !bit(occupied, #[trigger] ray_sq(s, d_r, d_f, i)) by {
                }
            }
            if ray_sees(s, t, occupied, d_r, d_f) {
                let kk = choose|kk: int|
                    #![trigger ray_sq(s, d_r, d_f, kk)]
                    kk >= 1 && ray_on(s, d_r, d_f, kk) && ray_sq(s, d_r, d_f, kk) == t && forall|j: int|
                        1 <= j < kk ==> !bit(occupied, #[trigger] ray_sq(s, d_r, d_f, j));
                if kk >= k {
                    if blocked {
                        assert(!bit(occupied, ray_sq(s, d_r, d_f, k - 1)));
                    } else {
                        assert(!ray_on(s, d_r, d_f, k as int));
                        assert(!ray_on(s, d_r, d_f, kk));
                    }
                }
                assert(ray_sq(s, d_r, d_f, kk) == t);
            }
        }
    }
    attacks
}

/// Rook attacks from square index `sq` over the occupancy `occupied`, walking
/// each orthogonal ray until a blocker (which is included).
pub fn rook_attacks_on_the_fly(sq: usize, occupied: u64) -> (r: u64)
    requires
        sq < 64,
    ensures
        forall|t: int| #[trigger] bit(r, t) == rook_sees(sq as int, t, occupied),
{
    let n = ray_attacks(sq, occupied, 1, 0);
    let so = ray_attacks(sq, occupied, -1, 0);
    let e = ray_attacks(sq, occupied, 0, 1);
    let w = ray_attacks(sq, occupied, 0, -1);
    or_bits(or_bits(n, so), or_bits(e, w))
}

/// Bishop attacks from square index `sq` over the occupancy `occupied`, walking
/// each diagonal until a blocker (which is included).
pub fn bishop_attacks_on_the_fly(sq: usize, occupied: u64) -> (r: u64)
    requires
        sq < 64,
    ensures
        forall|t: int| #[trigger] bit(r, t) == bishop_sees(sq as int, t, occupied),
{
    let ne = ray_attacks(sq, occupied, 1, 1);
    let nw = ray_attacks(sq, occupied, 1, -1);
    let se = ray_attacks(sq, occupied, -1, 1);
    let sw = ray_attacks(sq, occupied, -1, -1);
    or_bits(or_bits(ne, nw), or_bits(se, sw))
}

/// Squares attacked by a rook on `sq` given `occupied` squares.
pub fn rook_attacks(sq: Square, occupied: Bitboard) -> (r: Bitboard)
    ensures
        forall|t: int| #[trigger] r.has(t) == rook_sees(sq.view(), t, occupied.view()),
{
    Bitboard::new(rook_attacks_on_the_fly(sq.index(), occupied.inner()))
}

/// Squares attacked by a bishop on `sq` given `occupied` squares.
pub fn bishop_attacks(sq: Square, occupied: Bitboard) -> (r: Bitboard)
    ensures
        forall|t: int| #[trigger] r.has(t) == bishop_sees(sq.view(), t, occupied.view()),
{
    Bitboard::new(bishop_attacks_on_the_fly(sq.index(), occupied.inner()))
}

/// Squares attacked by a queen on `sq` given `occupied` squares.
pub fn queen_attacks(sq: Square, occupied: Bitboard) -> (r: Bitboard)
    ensures
        forall|t: int| #[trigger] r.has(t) == (rook_sees(sq.view(), t, occupied.view()) || bishop_sees(sq.view(), t, occupied.view())),
{
    let a = rook_attacks(sq, occupied);
    let b = bishop_attacks(sq, occupied);
    let x = or_bits(a.inner(), b.inner());
    proof {
        assert forall|t: int| #[trigger] bit(x, t) == (a.has(t) || b.has(t)) by {
        }
    }
    Bitboard::new(x)
}


/// The sign of `x`: -1, 0 or 1.
pub open spec fn sign(x: int) -> int {
    if x > 0 {
        1
    } else if x < 0 {
        -1
    } else {
        0
    }
}

/// Rank direction from `s1` toward `s2`.
pub open spec fn dir_r(s1: int, s2: int) -> int {
    sign(rank_of(s2) - rank_of(s1))
}

/// File direction from `s1` toward `s2`.
pub open spec fn dir_f(s1: int, s2: int) -> int {
    sign(file_of(s2) - file_of(s1))
}

/// Number of king steps from `s1` to `s2` along their line.
pub open spec fn dist(s1: int, s2: int) -> int {
    let a = abs(rank_of(s2) - rank_of(s1));
    let b = abs(file_of(s2) - file_of(s1));
    if a > b { a } else { b }
}

/// `s1` and `s2` are distinct squares on a common rank, file or diagonal.
pub open spec fn aligned(s1: int, s2: int) -> bool {
    &&& is_sq(s1)
    &&& is_sq(s2)
    &&& s1 != s2
    &&& {
        let a = rank_of(s2) - rank_of(s1);
        let b = file_of(s2) - file_of(s1);
        a == 0 || b == 0 || abs(a) == abs(b)
    }
}

/// `t` lies strictly between aligned squares `s1` and `s2`.
pub open spec fn between_geom(s1: int, s2: int, t: int) -> bool {
    aligned(s1, s2) && exists|j: int|
        1 <= j < dist(s1, s2) && #[trigger] ray_sq(s1, dir_r(s1, s2), dir_f(s1, s2), j) == t
}

/// `t` lies on the full board line through aligned squares `s1` and `s2`.
pub open spec fn line_geom(s1: int, s2: int, t: int) -> bool {
    aligned(s1, s2) && exists|j: int|
        ray_on(s1, dir_r(s1, s2), dir_f(s1, s2), j) && #[trigger] ray_sq(s1, dir_r(s1, s2), dir_f(s1, s2), j) == t
}

/// The sign of a small integer.
pub fn signum(x: i8) -> (r: i8)
    ensures
        r == sign(x as int),
{
    if x > 0 {
        1
    } else if x < 0 {
        -1
    } else {
        0
    }
}

/// The bits of the squares `ray_sq(s, dr, df, j)` for `lo <= j < hi` that are on the board.
fn ray_segment(sq: usize, dr: i8, df: i8, lo: i8, hi: i8) -> (r: u64)
    requires
        sq < 64,
        -1 <= dr <= 1,
        -1 <= df <= 1,
        -8 <= lo <= hi <= 8,
    ensures
        forall|t: int| #[trigger] bit(r, t) == exists|j: int|
            lo <= j < hi && ray_on(sq as int, dr as int, df as int, j) && #[trigger] ray_sq(sq as int, dr as int, df as int, j) == t,
{
    let ghost s = sq as int;
    let rank = (sq / 8) as i8;
    let file = (sq % 8) as i8;
    let mut j: i8 = lo;
    let mut bits: u64 = 0;
    proof {
        assert forall|t: int| !#[trigger] bit(0u64, t) by {
            lemma_bit_zero(t);
        }
    }
    while j < hi
        invariant
            -8 <= lo <= j <= hi <= 8,
            -1 <= dr <= 1,
            -1 <= df <= 1,
            s == sq,
            rank == rank_of(s),
            file == file_of(s),
            0 <= s < 64,
            forall|t: int| #[trigger] bit(bits, t) == exists|i: int|
                lo <= i < j && ray_on(s, dr as int, df as int, i) && #[trigger] ray_sq(s, dr as int, df as int, i) == t,
        decreases hi - j,
    {
        let sr: i8 = if dr > 0 { j } else if dr < 0 { -j } else { 0 };
        let sf: i8 = if df > 0 { j } else if df < 0 { -j } else { 0 };
        let r = rank + sr;
        let f = file + sf;
        assert(r == rank_of(s) + step(dr as int, j as int));
        assert(f == file_of(s) + step(df as int, j as int));
        if r >= 0 && r < 8 && f >= 0 && f < 8 {
            let idx = (r as u64) * 8 + (f as u64);
            let b = 1u64 << idx;
            proof {
                assert(b == single(idx as int));
                assert(idx == ray_sq(s, dr as int, df as int, j as int));
                assert forall|t: int| #[trigger] bit(bits | b, t) == exists|i: int|
                    lo <= i < j + 1 && ray_on(s, dr as int, df as int, i) && #[trigger] ray_sq(s, dr as int, df as int, i) == t by {
                    lemma_bit_or(bits, b, t);
                    lemma_bit_single(idx as int, t);
                    if t == idx {
                        assert(ray_sq(s, dr as int, df as int, j as int) == t);
                    }
                    if exists|i: int| lo <= i < j + 1 && ray_on(s, dr as int, df as int, i) && #[trigger] ray_sq(s, dr as int, df as int, i) == t {
                        let i = choose|i: int| lo <= i < j + 1 && ray_on(s, dr as int, df as int, i) && #[trigger] ray_sq(s, dr as int, df as int, i) == t;
                        if i < j {
                            assert(bit(bits, t));
                        }
                    }
                }
            }
            bits = bits | b;
        } else {
            proof {
                assert forall|t: int| #[trigger] bit(bits, t) == exists|i: int|
                    lo <= i < j + 1 && ray_on(s, dr as int, df as int, i) && #[trigger] ray_sq(s, dr as int, df as int, i) == t by {
                    if exists|i: int| lo <= i < j + 1 && ray_on(s, dr as int, df as int, i) && #[trigger] ray_sq(s, dr as int, df as int, i) == t {
                        let i = choose|i: int| lo <= i < j + 1 && ray_on(s, dr as int, df as int, i) && #[trigger] ray_sq(s, dr as int, df as int, i) == t;
                        if i < j {
                            assert(bit(bits, t));
                        }
                    }
                }
            }
        }
        j = j + 1;
    }
    bits
}

/// Direction and distance from `s1` to `s2`, and whether they are aligned.
fn line_params(sq1: Square, sq2: Square) -> (r: (i8, i8, i8, bool))
    ensures
        r.0 == dir_r(sq1.view(), sq2.view()),
        r.1 == dir_f(sq1.view(), sq2.view()),
        r.2 == dist(sq1.view(), sq2.view()),
        r.3 == aligned(sq1.view(), sq2.view()),
{
    let s1 = sq1.index();
    let s2 = sq2.index();
    let r1 = (s1 / 8) as i8;
    let f1 = (s1 % 8) as i8;
    let r2 = (s2 / 8) as i8;
    let f2 = (s2 % 8) as i8;
    let raw_dr = r2 - r1;
    let raw_df = f2 - f1;
    let raw_dr_abs = if raw_dr < 0 { -raw_dr } else { raw_dr };
    let raw_df_abs = if raw_df < 0 { -raw_df } else { raw_df };
    let d = if raw_dr_abs > raw_df_abs { raw_dr_abs } else { raw_df_abs };
    let ok = s1 != s2 && (raw_dr == 0 || raw_df == 0 || raw_dr_abs == raw_df_abs);
    (signum(raw_dr), signum(raw_df), d, ok)
}

/// Squares strictly between `sq1` and `sq2` when they share a rank, file or
/// diagonal; empty otherwise.
pub fn between(sq1: Square, sq2: Square) -> (r: Bitboard)
    ensures
        forall|t: int| #[trigger] r.has(t) == between_geom(sq1.view(), sq2.view(), t),
{
    let (dr, df, d, ok) = line_params(sq1, sq2);
    if !ok {
        proof {
            assert forall|t: int| !#[trigger] bit(0u64, t) by {
                lemma_bit_zero(t);
            }
        }
        return Bitboard::new(0);
    }
    let ghost s1 = sq1.view();
    let ghost s2 = sq2.view();
    let x = ray_segment(sq1.index(), dr, df, 1, d);
    proof {
        assert forall|t: int| #[trigger] bit(x, t) == between_geom(s1, s2, t) by {
            if between_geom(s1, s2, t) {
                let j = choose|j: int| 1 <= j < dist(s1, s2) && #[trigger] ray_sq(s1, dir_r(s1, s2), dir_f(s1, s2), j) == t;
                lemma_ray_inside(s1, s2, j);
            }
        }
    }
    Bitboard::new(x)
}

/// The full line through `sq1` and `sq2` (both included) when they share a
/// rank, file or diagonal; empty otherwise.
pub fn line(sq1: Square, sq2: Square) -> (r: Bitboard)
    ensures
        forall|t: int| #[trigger] r.has(t) == line_geom(sq1.view(), sq2.view(), t),
{
    let (dr, df, d, ok) = line_params(sq1, sq2);
    if !ok {
        proof {
            assert forall|t: int| !#[trigger] bit(0u64, t) by {
                lemma_bit_zero(t);
            }
        }
        return Bitboard::new(0);
    }
    let ghost s1 = sq1.view();
    let ghost s2 = sq2.view();
    let x = ray_segment(sq1.index(), dr, df, -7, 8);
    proof {
        assert forall|t: int| #[trigger] bit(x, t) == line_geom(s1, s2, t) by {
            if line_geom(s1, s2, t) {
                let j = choose|j: int| ray_on(s1, dir_r(s1, s2), dir_f(s1, s2), j) && #[trigger] ray_sq(s1, dir_r(s1, s2), dir_f(s1, s2), j) == t;
                lemma_ray_on_bound(s1, dir_r(s1, s2), dir_f(s1, s2), j);
            }
        }
    }
    Bitboard::new(x)
}

/// A square on the ray has a step count within -7..7.
proof fn lemma_ray_on_bound(s: int, dr: int, df: int, j: int)
    requires
        is_sq(s),
        is_dir(dr, df),
        ray_on(s, dr, df, j),
    ensures
        -7 <= j <= 7,
{
}

/// The squares strictly between two aligned squares are on the board.
proof fn lemma_ray_inside(s1: int, s2: int, j: int)
    requires
        aligned(s1, s2),
        1 <= j < dist(s1, s2),
    ensures
        ray_on(s1, dir_r(s1, s2), dir_f(s1, s2), j),
{
}


/// Walking a ray from `s` to `t` and walking back from `t` pass the same squares.
proof fn lemma_ray_reverse(s: int, t: int, occ: u64, dr: int, df: int)
    requires
        is_sq(s),
        is_dir(dr, df),
        ray_sees(s, t, occ, dr, df),
    ensures
        ray_sees(t, s, occ, -dr, -df),
{
    let k = choose|k: int|
        #![trigger ray_sq(s, dr, df, k)]
        k >= 1 && ray_on(s, dr, df, k) && ray_sq(s, dr, df, k) == t && forall|j: int|
            1 <= j < k ==> !bit(occ, #[trigger] ray_sq(s, dr, df, j));
    assert(rank_of(t) == rank_of(s) + step(dr, k));
    assert(file_of(t) == file_of(s) + step(df, k));
    assert(ray_on(t, -dr, -df, k));
    assert(ray_sq(t, -dr, -df, k) == s);
    assert forall|j: int| 1 <= j < k implies !bit(occ, #[trigger] ray_sq(t, -dr, -df, j)) by {
        assert(ray_sq(t, -dr, -df, j) == ray_sq(s, dr, df, k - j));
    }
}

/// Rook and bishop sight is symmetric: `s` sees `t` exactly when `t` sees `s`.
pub proof fn lemma_sees_symmetric(s: int, t: int, occ: u64)
    requires
        is_sq(s),
        is_sq(t),
    ensures
        rook_sees(s, t, occ) == rook_sees(t, s, occ),
        bishop_sees(s, t, occ) == bishop_sees(t, s, occ),
{
    if ray_sees(s, t, occ, 1, 0) { lemma_ray_reverse(s, t, occ, 1, 0); }
    if ray_sees(s, t, occ, -1, 0) { lemma_ray_reverse(s, t, occ, -1, 0); }
    if ray_sees(s, t, occ, 0, 1) { lemma_ray_reverse(s, t, occ, 0, 1); }
    if ray_sees(s, t, occ, 0, -1) { lemma_ray_reverse(s, t, occ, 0, -1); }
    if ray_sees(t, s, occ, 1, 0) { lemma_ray_reverse(t, s, occ, 1, 0); }
    if ray_sees(t, s, occ, -1, 0) { lemma_ray_reverse(t, s, occ, -1, 0); }
    if ray_sees(t, s, occ, 0, 1) { lemma_ray_reverse(t, s, occ, 0, 1); }
    if ray_sees(t, s, occ, 0, -1) { lemma_ray_reverse(t, s, occ, 0, -1); }
    if ray_sees(s, t, occ, 1, 1) { lemma_ray_reverse(s, t, occ, 1, 1); }
    if ray_sees(s, t, occ, 1, -1) { lemma_ray_reverse(s, t, occ, 1, -1); }
    if ray_sees(s, t, occ, -1, 1) { lemma_ray_reverse(s, t, occ, -1, 1); }
    if ray_sees(s, t, occ, -1, -1) { lemma_ray_reverse(s, t, occ, -1, -1); }
    if ray_sees(t, s, occ, 1, 1) { lemma_ray_reverse(t, s, occ, 1, 1); }
    if ray_sees(t, s, occ, 1, -1) { lemma_ray_reverse(t, s, occ, 1, -1); }
    if ray_sees(t, s, occ, -1, 1) { lemma_ray_reverse(t, s, occ, -1, 1); }
    if ray_sees(t, s, occ, -1, -1) { lemma_ray_reverse(t, s, occ, -1, -1); }
}

/// Knight, king and pawn attacks read backwards: `t` attacks `s` the way `s`
/// attacks `t`, with a pawn's direction reversed.
pub proof fn lemma_leapers_symmetric(c: Color, s: int, t: int)
    ensures
        knight_geom(s, t) == knight_geom(t, s),
        king_geom(s, t) == king_geom(t, s),
        pawn_geom(c, s, t) == pawn_geom(c.opp(), t, s),
{
}

} // verus!
