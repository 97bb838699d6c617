//! FEN text: reading a position from Forsyth–Edwards notation and writing it back.

use vstd::prelude::*;

use crate::bitboard::Bitboard;
use crate::bits::single;
use crate::board::{opt_sq, Board, BoardModel};
use crate::castle_rights::{castle_fen_text, castle_field_parse, CastleRights};
use crate::color::Color;
use crate::error::{FenError, FenErrorModel};
use crate::piece::Piece;
use crate::piece_kind::PieceKind;
use crate::square::{sq_of, square_name, Square};
use crate::text::{str_chars, string_from_chars};
use crate::zobrist::{hash_from_scratch, zobrist_hash};

verus! {

broadcast use Square::lemma_range, Bitboard::lemma_from_bits, Board::lemma_shaped;

/// The FEN string for the standard starting position.
pub const STARTING_FEN: &'static str = "rnbqkbnr/pppppppp/8/8/8/8/PPPPPPPP/RNBQKBNR w KQkq - 0 1";

// ---------------------------------------------------------------------------
// Fields
// ---------------------------------------------------------------------------

/// The characters with the Unicode `White_Space` property.
pub open spec fn is_white_space(c: char) -> bool {
    ('\t' <= c && c <= '\r') || c == ' ' || c == '\u{85}' || c == '\u{a0}' || c == '\u{1680}'
        || ('\u{2000}' <= c && c <= '\u{200a}') || c == '\u{2028}' || c == '\u{2029}'
        || c == '\u{202f}' || c == '\u{205f}' || c == '\u{3000}'
}

fn white_space(c: char) -> (r: bool)
    ensures
        r == is_white_space(c),
{
    ('\t' <= c && c <= '\r') || c == ' ' || c == '\u{85}' || c == '\u{a0}' || c == '\u{1680}'
        || ('\u{2000}' <= c && c <= '\u{200a}') || c == '\u{2028}' || c == '\u{2029}'
        || c == '\u{202f}' || c == '\u{205f}' || c == '\u{3000}'
}

/// The `[start, end)` spans of the maximal runs of non-whitespace characters of `s`.
pub open spec fn field_spans(s: Seq<char>) -> Seq<(int, int)>
    decreases s.len(),
{
    if s.len() == 0 {
        Seq::empty()
    } else {
        let n = s.len() - 1;
        let pre = field_spans(s.take(n));
        if is_white_space(s[n]) {
            pre
        } else if n > 0 && !is_white_space(s[n - 1]) {
            pre.update(pre.len() - 1, (pre.last().0, n + 1))
        } else {
            pre.push((n, n + 1))
        }
    }
}

/// The `k`-th whitespace-separated field of `s`.
pub open spec fn field(s: Seq<char>, k: int) -> Seq<char> {
    s.subrange(field_spans(s)[k].0, field_spans(s)[k].1)
}

/// The spans of the whitespace-separated fields of `s`.
#[verifier::spinoff_prover]
pub(crate) fn whitespace_fields(s: &Vec<char>) -> (r: Vec<(usize, usize)>)
    ensures
        r@.len() == field_spans(s@).len(),
        forall|k: int| #![trigger r@[k]] 0 <= k < r@.len() ==> r@[k].0 == field_spans(s@)[k].0 && r@[k].1 == field_spans(s@)[k].1,
        forall|k: int| #![trigger r@[k]] 0 <= k < r@.len() ==> r@[k].0 < r@[k].1 <= s@.len(),
        forall|k: int| #![trigger r@[k]] 0 <= k < r@.len() - 1 ==> r@[k].1 < r@[k + 1].0,
{
    let mut r: Vec<(usize, usize)> = Vec::new();
    let mut i: usize = 0;
    while i < s.len()
        invariant
            i <= s@.len(),
            r@.len() == field_spans(s@.take(i as int)).len(),
            forall|k: int| #![trigger r@[k]] 0 <= k < r@.len() ==> r@[k].0 == field_spans(s@.take(i as int))[k].0
                && r@[k].1 == field_spans(s@.take(i as int))[k].1,
            forall|k: int| #![trigger r@[k]] 0 <= k < r@.len() ==> r@[k].0 < r@[k].1 <= i,
            forall|k: int| #![trigger r@[k]] 0 <= k < r@.len() - 1 ==> r@[k].1 < r@[k + 1].0,
            r@.len() > 0 ==> (r@.last().1 == i <==> (i > 0 && !is_white_space(s@[i - 1]))),
            i > 0 && !is_white_space(s@[i - 1]) ==> r@.len() > 0,
        decreases s@.len() - i,
    {
        let c = s[i];
        let ghost t = s@.take(i + 1);
        assert(t.take(i as int) =~= s@.take(i as int));
        assert(t[i as int] == c);
        if white_space(c) {
        } else if i > 0 && !white_space(s[i - 1]) {
            assert(t[i - 1] == s@[i - 1]);
            let last = r.len() - 1;
            let st = r[last].0;
            r.set(last, (st, i + 1));
        } else {
            r.push((i, i + 1));
        }
        i = i + 1;
    }
    assert(s@.take(s@.len() as int) =~= s@);
    r
}

/// The characters `s[a..b]`.
pub(crate) fn sub_chars(s: &Vec<char>, a: usize, b: usize) -> (r: Vec<char>)
    requires
        a <= b <= s@.len(),
    ensures
        r@ == s@.subrange(a as int, b as int),
{
    let mut r: Vec<char> = Vec::new();
    let mut i = a;
    while i < b
        invariant
            a <= i <= b <= s@.len(),
            r@ == s@.subrange(a as int, i as int),
        decreases b - i,
    {
        r.push(s[i]);
        i = i + 1;
    }
    r
}

// ---------------------------------------------------------------------------
// Piece placement
// ---------------------------------------------------------------------------

/// The number of `'/'` characters in `s`.
pub open spec fn slash_count(s: Seq<char>) -> nat
    decreases s.len(),
{
    if s.len() == 0 {
        0
    } else {
        slash_count(s.drop_last()) + (if s.last() == '/' { 1nat } else { 0nat })
    }
}

proof fn lemma_slash_prefix(s: Seq<char>, i: int)
    requires
        0 <= i <= s.len(),
    ensures
        slash_count(s.take(i)) <= slash_count(s),
        slash_count(s) <= s.len(),
    decreases s.len(),
{
    if s.len() > 0 {
        if i == s.len() {
            assert(s.take(i) =~= s);
            lemma_slash_prefix(s.drop_last(), i - 1);
        } else {
            lemma_slash_prefix(s.drop_last(), i);
            assert(s.drop_last().take(i) =~= s.take(i));
        }
    }
}

fn count_slashes(f: &Vec<char>) -> (r: usize)
    ensures
        r == slash_count(f@),
{
    let mut n: usize = 0;
    let mut i: usize = 0;
    while i < f.len()
        invariant
            i <= f@.len(),
            n == slash_count(f@.take(i as int)),
            n <= i,
        decreases f@.len() - i,
    {
        assert(f@.take(i + 1).drop_last() =~= f@.take(i as int));
        if f[i] == '/' {
            n = n + 1;
        }
        i = i + 1;
    }
    assert(f@.take(f@.len() as int) =~= f@);
    n
}

/// The result of reading the placement field `f` from position `i`, at rank
/// `rank` (0 is the eighth rank) with `fi` squares of that rank described so
/// far (counted in a byte, so it wraps at 256), starting from the given piece
/// and side bitboards.
pub open spec fn placement_scan(
    f: Seq<char>,
    i: int,
    rank: int,
    fi: int,
    pieces: Seq<u64>,
    sides: Seq<u64>,
) -> Result<(Seq<u64>, Seq<u64>), FenErrorModel>
    decreases f.len() - i,
{
    if i >= f.len() {
        if fi != 8 {
            Err(FenErrorModel::BadRankLength { rank_index: rank, length: fi })
        } else {
            Ok((pieces, sides))
        }
    } else if i < 0 {
        Ok((pieces, sides))
    } else {
        let c = f[i];
        if c == '/' {
            if fi != 8 {
                Err(FenErrorModel::BadRankLength { rank_index: rank, length: fi })
            } else {
                placement_scan(f, i + 1, rank + 1, 0, pieces, sides)
            }
        } else if '0' <= c && c <= '9' {
            let d = c as int - '0' as int;
            if d < 1 || d > 8 {
                Err(FenErrorModel::InvalidPieceChar { character: c })
            } else {
                placement_scan(f, i + 1, rank, (fi + d) % 256, pieces, sides)
            }
        } else {
            match PieceKind::spec_from_fen_char(c) {
                None => Err(FenErrorModel::InvalidPieceChar { character: c }),
                Some(kind) => {
                    let color = if 'A' <= c && c <= 'Z' { Color::White } else { Color::Black };
                    if fi >= 8 {
                        Err(FenErrorModel::BadRankLength { rank_index: rank, length: fi + 1 })
                    } else {
                        let sq = sq_of(7 - rank, fi);
                        placement_scan(
                            f,
                            i + 1,
                            rank,
                            fi + 1,
                            pieces.update(kind.idx(), pieces[kind.idx()] | single(sq)),
                            sides.update(color.idx(), sides[color.idx()] | single(sq)),
                        )
                    }
                }
            }
        }
    }
}

/// Empty bitboards of the six kinds.
pub open spec fn no_pieces() -> Seq<u64> {
    seq![0u64, 0u64, 0u64, 0u64, 0u64, 0u64]
}

/// Empty bitboards of the two sides.
pub open spec fn no_sides() -> Seq<u64> {
    seq![0u64, 0u64]
}

/// Read the piece placement field (which holds exactly seven `'/'`).
#[verifier::spinoff_prover]
fn parse_placement(f: &Vec<char>) -> (r: Result<(Vec<u64>, Vec<u64>), FenError>)
    requires
        slash_count(f@) == 7,
    ensures
        match placement_scan(f@, 0, 0, 0, no_pieces(), no_sides()) {
            Ok((p, s)) => r matches Ok((pv, sv)) && pv@ == p && sv@ == s,
            Err(e) => r matches Err(x) && x@ == e,
        },
        r matches Ok((pv, sv)) ==> pv@.len() == 6 && sv@.len() == 2,
{
    let mut pieces: Vec<u64> = vec![0, 0, 0, 0, 0, 0];
    let mut sides: Vec<u64> = vec![0, 0];
    assert(pieces@ =~= no_pieces());
    assert(sides@ =~= no_sides());
    let mut rank: usize = 0;
    let mut fi: u8 = 0;
    let mut i: usize = 0;
    while i < f.len()
        invariant
            i <= f@.len(),
            pieces@.len() == 6,
            sides@.len() == 2,
            rank == slash_count(f@.take(i as int)),
            slash_count(f@) == 7,
            placement_scan(f@, 0, 0, 0, no_pieces(), no_sides()) == placement_scan(
                f@,
                i as int,
                rank as int,
                fi as int,
                pieces@,
                sides@,
            ),
        decreases f@.len() - i,
    {
        let c = f[i];
        assert(f@.take(i + 1).drop_last() =~= f@.take(i as int));
        proof {
            lemma_slash_prefix(f@, i + 1);
            lemma_slash_prefix(f@, i as int);
        }
        if c == '/' {
            if fi != 8 {
                return Err(FenError::BadRankLength { rank_index: rank, length: fi as usize });
            }
            rank = rank + 1;
            fi = 0;
        } else if '0' <= c && c <= '9' {
            let d = (c as u32 - '0' as u32) as u8;
            if d < 1 || d > 8 {
                return Err(FenError::InvalidPieceChar { character: c });
            }
            assert((fi as int + d as int) % 256 == vstd::wrapping::u8_specs::wrapping_add(fi, d)) by {
                assert(0 <= fi as int + d as int <= 263);
            }
            fi = fi.wrapping_add(d);
        } else {
            match PieceKind::from_fen_char(c) {
                None => {
                    return Err(FenError::InvalidPieceChar { character: c });
                },
                Some(kind) => {
                    let color = if 'A' <= c && c <= 'Z' {
                        Color::White
                    } else {
                        Color::Black
                    };
                    if fi >= 8 {
                        return Err(FenError::BadRankLength { rank_index: rank, length: fi as usize + 1 });
                    }
                    let sq: u64 = ((7 - rank) * 8 + fi as usize) as u64;
                    assert(sq == sq_of(7 - rank, fi as int));
                    let bb: u64 = 1u64 << sq;
                    let k = kind.index();
                    let pk = pieces[k] | bb;
                    pieces.set(k, pk);
                    let ci = color.index();
                    let sc = sides[ci] | bb;
                    sides.set(ci, sc);
                    fi = fi + 1;
                },
            }
        }
        i = i + 1;
    }
    if fi != 8 {
        return Err(FenError::BadRankLength { rank_index: rank, length: fi as usize });
    }
    Ok((pieces, sides))
}

// ---------------------------------------------------------------------------
// Other fields
// ---------------------------------------------------------------------------

/// Whether `c` is an ASCII decimal digit.
pub open spec fn is_digit(c: char) -> bool {
    '0' <= c && c <= '9'
}

/// The decimal value of a string of digits.
pub open spec fn digits_value(ds: Seq<char>) -> int
    decreases ds.len(),
{
    if ds.len() == 0 {
        0
    } else {
        digits_value(ds.drop_last()) * 10 + (ds.last() as int - '0' as int)
    }
}

/// The digits of a counter field: the field without one leading `'+'`.
pub open spec fn counter_digits(cs: Seq<char>) -> Seq<char> {
    if cs.len() > 0 && cs[0] == '+' { cs.drop_first() } else { cs }
}

/// Every character of `ds` is a decimal digit.
pub open spec fn all_digits(ds: Seq<char>) -> bool {
    forall|j: int| 0 <= j < ds.len() ==> is_digit(#[trigger] ds[j])
}

/// The value of `cs` read as a `u16` in the way `str::parse::<u16>` reads it:
/// an optional `'+'`, then at least one decimal digit, with a value that fits.
pub open spec fn parse_u16(cs: Seq<char>) -> Option<u16> {
    let ds = counter_digits(cs);
    if ds.len() == 0 || !all_digits(ds) || digits_value(ds) > 0xFFFF {
        None
    } else {
        Some(digits_value(ds) as u16)
    }
}

proof fn lemma_digits_prefix(ds: Seq<char>, n: int)
    requires
        0 <= n <= ds.len(),
        forall|j: int| 0 <= j < ds.len() ==> is_digit(#[trigger] ds[j]),
    ensures
        0 <= digits_value(ds.take(n)) <= digits_value(ds),
    decreases ds.len(),
{
    if ds.len() > 0 {
        let p = ds.drop_last();
        assert forall|j: int| 0 <= j < p.len() implies is_digit(#[trigger] p[j]) by {
            assert(p[j] == ds[j]);
        }
        assert(is_digit(ds[ds.len() - 1]));
        if n == ds.len() {
            assert(ds.take(n) =~= ds);
            lemma_digits_prefix(p, n - 1);
        } else {
            lemma_digits_prefix(p, n);
            assert(p.take(n) =~= ds.take(n));
        }
    }
}

/// Read a move counter.
#[verifier::spinoff_prover]
fn parse_counter(cs: &Vec<char>) -> (r: Option<u16>)
    ensures
        r == parse_u16(cs@),
{
    let mut start: usize = 0;
    if cs.len() > 0 && cs[0] == '+' {
        start = 1;
    }
    let ghost ds = counter_digits(cs@);
    assert(ds =~= cs@.subrange(start as int, cs@.len() as int));
    if start >= cs.len() {
        return None;
    }
    let mut acc: u32 = 0;
    let mut i: usize = start;
    while i < cs.len()
        invariant
            start <= i <= cs@.len(),
            ds == cs@.subrange(start as int, cs@.len() as int),
            ds == counter_digits(cs@),
            forall|j: int| 0 <= j < i - start ==> is_digit(#[trigger] ds[j]),
            acc == digits_value(ds.take(i - start)),
            acc <= 0xFFFF,
        decreases cs@.len() - i,
    {
        let c = cs[i];
        let ghost n = i - start;
        assert(ds[n] == c);
        if !('0' <= c && c <= '9') {
            proof {
                assert(!is_digit(ds[n]));
                assert(0 <= n < ds.len());
                assert(!all_digits(ds));
            }
            return None;
        }
        let d: u32 = c as u32 - '0' as u32;
        assert(d == c as int - '0' as int);
        let ghost t = ds.take(n + 1);
        assert(t.drop_last() =~= ds.take(n));
        assert(t.last() == c);
        assert(digits_value(t) == digits_value(ds.take(n)) * 10 + d);
        acc = acc * 10 + d;
        if acc > 0xFFFF {
            proof {
                if all_digits(ds) {
                    lemma_digits_prefix(ds, n + 1);
                    assert(digits_value(ds) > 0xFFFF);
                }
            }
            return None;
        }
        i = i + 1;
    }
    assert(ds.take(ds.len() as int) =~= ds);
    Some(acc as u16)
}

/// The square an en passant field names, if it names one.
pub open spec fn ep_field(cs: Seq<char>) -> Option<int> {
    if cs.len() == 2 && 'a' <= cs[0] && cs[0] <= 'h' && '1' <= cs[1] && cs[1] <= '8' {
        Some(sq_of(cs[1] as int - '1' as int, cs[0] as int - 'a' as int))
    } else {
        None
    }
}

#[verifier::spinoff_prover]
fn parse_square(cs: &Vec<char>) -> (r: Option<Square>)
    ensures
        opt_sq(r) == ep_field(cs@),
{
    if cs.len() == 2 && 'a' <= cs[0] && cs[0] <= 'h' && '1' <= cs[1] && cs[1] <= '8' {
        let fc: u32 = cs[0] as u32;
        let rc: u32 = cs[1] as u32;
        assert(97 <= fc <= 104 && 49 <= rc <= 56);
        let file: u8 = (fc - 97) as u8;
        let rank: u8 = (rc - 49) as u8;
        assert(rank * 8 + file == sq_of(cs@[1] as int - '1' as int, cs@[0] as int - 'a' as int));
        Some(Square::from_index_unchecked(rank * 8 + file))
    } else {
        None
    }
}

// ---------------------------------------------------------------------------
// The whole record
// ---------------------------------------------------------------------------

/// The side to move, castling bits, en passant square and move counters
/// that fields two to six describe, or the first error found in them.
pub open spec fn state_fields_model(
    f1: Seq<char>,
    f2: Seq<char>,
    f3: Seq<char>,
    f4: Seq<char>,
    f5: Seq<char>,
) -> Result<(Color, u8, Option<int>, u16, u16), FenErrorModel> {
    if f1 != seq!['w'] && f1 != seq!['b'] {
        Err(FenErrorModel::InvalidColor { found: f1 })
    } else {
        let side_to_move = if f1 == seq!['w'] { Color::White } else { Color::Black };
        match castle_field_parse(f2) {
            Err(c) => Err(FenErrorModel::InvalidCastlingChar { character: c }),
            Ok(castling) => {
                if f3 != seq!['-'] && ep_field(f3).is_none() {
                    Err(FenErrorModel::InvalidEnPassant { found: f3 })
                } else {
                    let en_passant = if f3 == seq!['-'] { None } else { ep_field(f3) };
                    match parse_u16(f4) {
                        None => Err(FenErrorModel::InvalidMoveCounter { field: "halfmove clock"@, found: f4 }),
                        Some(halfmove_clock) => match parse_u16(f5) {
                            None => Err(FenErrorModel::InvalidMoveCounter { field: "fullmove number"@, found: f5 }),
                            Some(fullmove_number) => Ok((side_to_move, castling, en_passant, halfmove_clock, fullmove_number)),
                        },
                    }
                }
            },
        }
    }
}

/// The board with the given placement and state, its occupancy the union of
/// the sides and its hash the Zobrist hash of the rest.
pub open spec fn assembled(pieces: Seq<u64>, sides: Seq<u64>, st: (Color, u8, Option<int>, u16, u16)) -> BoardModel {
    let m0 = BoardModel {
        pieces,
        sides,
        occupied: sides[0] | sides[1],
        side_to_move: st.0,
        castling: st.1,
        en_passant: st.2,
        halfmove_clock: st.3,
        fullmove_number: st.4,
        hash: 0,
    };
    BoardModel { hash: zobrist_hash(m0), ..m0 }
}

/// The position a FEN text describes, or the first error found in it, in the
/// order: field count, rank count, placement, side to move, castling, en
/// passant, halfmove clock, fullmove number, board validation.
pub open spec fn fen_model(s: Seq<char>) -> Result<BoardModel, FenErrorModel> {
    let n = field_spans(s).len();
    if n != 6 {
        Err(FenErrorModel::WrongFieldCount { found: n as int })
    } else if slash_count(field(s, 0)) != 7 {
        Err(FenErrorModel::WrongRankCount { found: slash_count(field(s, 0)) + 1int })
    } else {
        match placement_scan(field(s, 0), 0, 0, 0, no_pieces(), no_sides()) {
            Err(e) => Err(e),
            Ok((pieces, sides)) => match state_fields_model(field(s, 1), field(s, 2), field(s, 3), field(s, 4), field(s, 5)) {
                Err(e) => Err(e),
                Ok(st) => {
                    let m = assembled(pieces, sides, st);
                    match m.validation() {
                        Some(e) => Err(FenErrorModel::InvalidBoard { source: e }),
                        None => Ok(m),
                    }
                },
            },
        }
    }
}

/// Read fields two to six: side to move, castling, en passant and the counters.
#[verifier::spinoff_prover]
fn parse_state_fields(
    f1: &Vec<char>,
    f2: &Vec<char>,
    f3: &Vec<char>,
    f4: &Vec<char>,
    f5: &Vec<char>,
) -> (r: Result<(Color, CastleRights, Option<Square>, u16, u16), FenError>)
    ensures
        match state_fields_model(f1@, f2@, f3@, f4@, f5@) {
            Ok(st) => r matches Ok(x) && x.0 == st.0 && x.1.view() == st.1 && opt_sq(x.2) == st.2
                && x.3 == st.3 && x.4 == st.4,
            Err(e) => r matches Err(x) && x@ == e,
        },
{
    let side_to_move = if f1.len() == 1 && f1[0] == 'w' {
        assert(f1@ =~= seq!['w']);
        Color::White
    } else if f1.len() == 1 && f1[0] == 'b' {
        assert(f1@ =~= seq!['b']);
        Color::Black
    } else {
        assert(f1@ != seq!['w'] && f1@ != seq!['b']) by {
            if f1@ == seq!['w'] || f1@ == seq!['b'] {
                assert(f1@.len() == 1);
            }
        }
        return Err(FenError::InvalidColor { found: string_from_chars(f1.as_slice()) });
    };
    let castling = match CastleRights::from_fen_chars(f2.as_slice()) {
        Ok(c) => c,
        Err(e) => {
            return Err(e);
        },
    };
    let en_passant = if f3.len() == 1 && f3[0] == '-' {
        assert(f3@ =~= seq!['-']);
        None
    } else {
        assert(f3@ != seq!['-']) by {
            if f3@ == seq!['-'] {
                assert(f3@.len() == 1);
            }
        }
        match parse_square(f3) {
            Some(sq) => Some(sq),
            None => {
                return Err(FenError::InvalidEnPassant { found: string_from_chars(f3.as_slice()) });
            },
        }
    };
    let halfmove_clock = match parse_counter(f4) {
        Some(n) => n,
        None => {
            return Err(FenError::InvalidMoveCounter {
                field: "halfmove clock",
                found: string_from_chars(f4.as_slice()),
            });
        },
    };
    let fullmove_number = match parse_counter(f5) {
        Some(n) => n,
        None => {
            return Err(FenError::InvalidMoveCounter {
                field: "fullmove number",
                found: string_from_chars(f5.as_slice()),
            });
        },
    };
    Ok((side_to_move, castling, en_passant, halfmove_clock, fullmove_number))
}

/// Build the board from its placement and state, hashing it from scratch.
#[verifier::spinoff_prover]
fn assemble_board(
    pieces: &Vec<u64>,
    sides: &Vec<u64>,
    st: (Color, CastleRights, Option<Square>, u16, u16),
) -> (r: Board)
    requires
        pieces@.len() == 6,
        sides@.len() == 2,
    ensures
        r.view() == assembled(pieces@, sides@, (st.0, st.1.view(), opt_sq(st.2), st.3, st.4)),
{
    let white = Bitboard::new(sides[0]);
    let black = Bitboard::new(sides[1]);
    let mut board = Board::from_raw(
        [
            Bitboard::new(pieces[0]),
            Bitboard::new(pieces[1]),
            Bitboard::new(pieces[2]),
            Bitboard::new(pieces[3]),
            Bitboard::new(pieces[4]),
            Bitboard::new(pieces[5]),
        ],
        [white, black],
        Bitboard::new(sides[0] | sides[1]),
        st.0,
        st.1,
        st.2,
        st.3,
        st.4,
        0,
    );
    assert(board.view().pieces =~= pieces@);
    assert(board.view().sides =~= sides@);
    let h = hash_from_scratch(&board);
    board.set_hash(h);
    board
}

impl Board {
    /// Parse a position from FEN text.
    #[verifier::spinoff_prover]
    pub fn from_fen(fen: &str) -> (r: Result<Board, FenError>)
        ensures
            match fen_model(fen@) {
                Ok(m) => r matches Ok(b) && b.view() == m,
                Err(e) => r matches Err(x) && x@ == e,
            },
    {
        let s = str_chars(fen);
        let spans = whitespace_fields(&s);
        if spans.len() != 6 {
            return Err(FenError::WrongFieldCount { found: spans.len() });
        }
        let f0 = sub_chars(&s, spans[0].0, spans[0].1);
        let f1 = sub_chars(&s, spans[1].0, spans[1].1);
        let f2 = sub_chars(&s, spans[2].0, spans[2].1);
        let f3 = sub_chars(&s, spans[3].0, spans[3].1);
        let f4 = sub_chars(&s, spans[4].0, spans[4].1);
        let f5 = sub_chars(&s, spans[5].0, spans[5].1);
        assert(f0@ == field(s@, 0));
        assert(f1@ == field(s@, 1));
        assert(f2@ == field(s@, 2));
        assert(f3@ == field(s@, 3));
        assert(f4@ == field(s@, 4));
        assert(f5@ == field(s@, 5));

        let slashes = count_slashes(&f0);
        if slashes != 7 {
            proof {
                lemma_slash_prefix(f0@, 0);
            }
            return Err(FenError::WrongRankCount { found: slashes + 1 });
        }
        let (pieces, sides) = match parse_placement(&f0) {
            Ok(ps) => ps,
            Err(e) => {
                return Err(e);
            },
        };
        let st = match parse_state_fields(&f1, &f2, &f3, &f4, &f5) {
            Ok(st) => st,
            Err(e) => {
                return Err(e);
            },
        };
        let board = assemble_board(&pieces, &sides, st);
        match board.validate() {
            Ok(()) => Ok(board),
            Err(e) => Err(FenError::InvalidBoard { source: e }),
        }
    }
}

// ---------------------------------------------------------------------------
// Writing
// ---------------------------------------------------------------------------

/// The digit character of `n` (0 to 9).
pub open spec fn digit_char(n: int) -> char {
    ('0' as int + n) as char
}

/// The FEN letter of a piece of kind `k` and color `c`.
pub open spec fn piece_letter(k: PieceKind, c: Color) -> char {
    match c {
        Color::White => (k.spec_fen_char() as int - 32) as char,
        Color::Black => k.spec_fen_char(),
    }
}

/// The FEN text of rank `r` from file `f` on, with `empty` empty squares
/// pending before it.
pub open spec fn rank_text(m: BoardModel, r: int, f: int, empty: int) -> Seq<char>
    decreases 8 - f,
{
    if f >= 8 {
        if empty > 0 { seq![digit_char(empty)] } else { Seq::empty() }
    } else {
        match (m.piece_at(sq_of(r, f)), m.color_at(sq_of(r, f))) {
            (Some(k), Some(c)) => (if empty > 0 { seq![digit_char(empty)] } else { Seq::empty() }) + seq![
                piece_letter(k, c),
            ] + rank_text(m, r, f + 1, 0),
            _ => rank_text(m, r, f + 1, empty + 1),
        }
    }
}

/// The FEN text of ranks `r` down to the first, separated by `'/'`.
pub open spec fn placement_text(m: BoardModel, r: int) -> Seq<char>
    decreases r,
{
    if r <= 0 {
        rank_text(m, 0, 0, 0)
    } else {
        rank_text(m, r, 0, 0) + seq!['/'] + placement_text(m, r - 1)
    }
}

/// The decimal text of `n`.
pub open spec fn dec_text(n: nat) -> Seq<char>
    decreases n,
{
    if n < 10 {
        seq![digit_char(n as int)]
    } else {
        dec_text(n / 10).push(digit_char((n % 10) as int))
    }
}

/// The FEN text of an en passant field.
pub open spec fn ep_text(ep: Option<int>) -> Seq<char> {
    match ep {
        Some(s) => square_name(s),
        None => seq!['-'],
    }
}

/// The FEN text of a position.
pub open spec fn fen_text(m: BoardModel) -> Seq<char> {
    placement_text(m, 7) + seq![' ', if m.side_to_move == Color::White { 'w' } else { 'b' }, ' ']
        + castle_fen_text(m.castling) + seq![' '] + ep_text(m.en_passant) + seq![' ']
        + dec_text(m.halfmove_clock as nat) + seq![' '] + dec_text(m.fullmove_number as nat)
}

fn digit_to_char(d: u8) -> (c: char)
    requires
        d < 10,
    ensures
        c == digit_char(d as int),
{
    match d {
        0 => '0',
        1 => '1',
        2 => '2',
        3 => '3',
        4 => '4',
        5 => '5',
        6 => '6',
        7 => '7',
        8 => '8',
        _ => '9',
    }
}

fn push_decimal(s: &mut String, n: u16)
    ensures
        final(s)@ == old(s)@ + dec_text(n as nat),
    decreases n,
{
    if n >= 10 {
        push_decimal(s, n / 10);
    }
    let ghost before = s@;
    s.push(digit_to_char((n % 10) as u8));
    proof {
        if n >= 10 {
            assert(s@ =~= old(s)@ + dec_text(n as nat));
        } else {
            assert(s@ =~= old(s)@ + dec_text(n as nat));
        }
    }
}

impl Board {
    #[verifier::spinoff_prover]
    fn push_rank(&self, s: &mut String, r: u8)
        requires
            r < 8,
        ensures
            final(s)@ == old(s)@ + rank_text(self.view(), r as int, 0, 0),
    {
        let ghost m = self.view();
        let ghost s0 = s@;
        let mut f: u8 = 0;
        let mut empty: u8 = 0;
        while f < 8
            invariant
                r < 8,
                f <= 8,
                empty <= f,
                m == self.view(),
                s@ + rank_text(m, r as int, f as int, empty as int) == s0 + rank_text(m, r as int, 0, 0),
            decreases 8 - f,
        {
            let ghost before = s@;
            let sq = Square::from_index_unchecked(r * 8 + f);
            match (self.piece_on(sq), self.color_on(sq)) {
                (Some(kind), Some(color)) => {
                    let ghost e0 = empty as int;
                    let ghost pre = if e0 > 0 { seq![digit_char(e0)] } else { Seq::<char>::empty() };
                    if empty > 0 {
                        s.push(digit_to_char(empty));
                        empty = 0;
                    }
                    assert(s@ =~= before + pre);
                    let letter = Piece::new(kind, color).fen_char();
                    assert(letter == piece_letter(kind, color));
                    s.push(letter);
                    assert(rank_text(m, r as int, f as int, e0) == pre + seq![letter] + rank_text(m, r as int, f + 1, 0));
                    assert(s@ + rank_text(m, r as int, f + 1, 0) =~= before + rank_text(m, r as int, f as int, e0));
                },
                _ => {
                    empty = empty + 1;
                },
            }
            f = f + 1;
        }
        if empty > 0 {
            s.push(digit_to_char(empty));
        }
        assert(s@ =~= s0 + rank_text(m, r as int, 0, 0));
    }

    /// The FEN text of this position.
    #[verifier::spinoff_prover]
    pub fn to_fen(&self) -> (r: String)
        ensures
            r@ == fen_text(self.view()),
    {
        let ghost m = self.view();
        let mut s = String::new();
        let mut ri: u8 = 8;
        while ri > 0
            invariant
                ri <= 8,
                m == self.view(),
                ri > 0 ==> s@ + placement_text(m, ri - 1) == placement_text(m, 7),
                ri == 0 ==> s@ == placement_text(m, 7),
            decreases ri,
        {
            let r = ri - 1;
            let ghost before = s@;
            self.push_rank(&mut s, r);
            if r > 0 {
                s.push('/');
                assert(s@ + placement_text(m, r - 1) =~= before + placement_text(m, r as int));
            } else {
                assert(s@ =~= before + placement_text(m, 0));
            }
            ri = r;
        }
        let ghost p = s@;
        s.push(' ');
        match self.side_to_move() {
            Color::White => s.push('w'),
            Color::Black => s.push('b'),
        }
        s.push(' ');
        let castling = self.castling().to_fen();
        s.append(castling.as_str());
        s.push(' ');
        match self.en_passant() {
            Some(sq) => {
                let name = sq.to_algebraic();
                s.append(name.as_str());
            },
            None => s.push('-'),
        }
        s.push(' ');
        push_decimal(&mut s, self.halfmove_clock());
        s.push(' ');
        push_decimal(&mut s, self.fullmove_number());
        assert(s@ =~= fen_text(m));
        s
    }
}

/// The grid letter of square `s`: the piece's FEN letter, or `'.'`.
pub open spec fn grid_cell(m: BoardModel, s: int) -> char {
    match (m.piece_at(s), m.color_at(s)) {
        (Some(k), Some(c)) => piece_letter(k, c),
        _ => '.',
    }
}

/// The cells of rank `r` from file `f` on, separated by spaces.
pub open spec fn grid_cells(m: BoardModel, r: int, f: int) -> Seq<char>
    decreases 8 - f,
{
    if f >= 8 {
        Seq::empty()
    } else if f == 7 {
        seq![grid_cell(m, sq_of(r, f))]
    } else {
        seq![grid_cell(m, sq_of(r, f)), ' '] + grid_cells(m, r, f + 1)
    }
}

/// The grid lines of ranks `r` down to the first, each ending in a newline.
pub open spec fn grid_rows(m: BoardModel, r: int) -> Seq<char>
    decreases r + 1,
{
    if r < 0 {
        Seq::empty()
    } else {
        seq![digit_char(r + 1), ' ', ' '] + grid_cells(m, r, 0) + seq!['\n'] + grid_rows(m, r - 1)
    }
}

/// The 8x8 grid text of a position, with file letters under it.
pub open spec fn grid_text(m: BoardModel) -> Seq<char> {
    grid_rows(m, 7) + seq![' ', ' ', ' ', 'a', ' ', 'b', ' ', 'c', ' ', 'd', ' ', 'e', ' ', 'f', ' ', 'g', ' ', 'h']
}

impl Board {
    fn push_grid_cells(&self, s: &mut String, r: u8)
        requires
            r < 8,
        ensures
            final(s)@ == old(s)@ + grid_cells(self.view(), r as int, 0),
    {
        let ghost m = self.view();
        let ghost s0 = s@;
        let mut f: u8 = 0;
        while f < 8
            invariant
                r < 8,
                f <= 8,
                m == self.view(),
                s@ + grid_cells(m, r as int, f as int) == s0 + grid_cells(m, r as int, 0),
            decreases 8 - f,
        {
            let ghost before = s@;
            let sq = Square::from_index_unchecked(r * 8 + f);
            let c = match (self.piece_on(sq), self.color_on(sq)) {
                (Some(kind), Some(color)) => Piece::new(kind, color).fen_char(),
                _ => '.',
            };
            assert(c == grid_cell(m, sq_of(r as int, f as int)));
            s.push(c);
            if f < 7 {
                s.push(' ');
            }
            assert(s@ + grid_cells(m, r as int, f + 1) =~= before + grid_cells(m, r as int, f as int));
            f = f + 1;
        }
        assert(s@ =~= s0 + grid_cells(m, r as int, 0));
    }

    /// The position drawn as an 8x8 grid: rank number, then the cells
    /// (FEN letters, `'.'` for empty squares), with file letters underneath.
    #[verifier::spinoff_prover]
    pub fn pretty(&self) -> (r: String)
        ensures
            r@ == grid_text(self.view()),
    {
        let ghost m = self.view();
        let mut s = String::new();
        let mut ri: u8 = 8;
        while ri > 0
            invariant
                ri <= 8,
                m == self.view(),
                s@ + grid_rows(m, ri - 1) == grid_rows(m, 7),
            decreases ri,
        {
            let r = ri - 1;
            let ghost before = s@;
            s.push(digit_to_char(r + 1));
            s.push(' ');
            s.push(' ');
            self.push_grid_cells(&mut s, r);
            s.push('\n');
            assert(s@ + grid_rows(m, r - 1) =~= before + grid_rows(m, r as int));
            ri = r;
        }
        let ghost p = s@;
        s.append("   a b c d e f g h");
        proof {
            reveal_strlit("   a b c d e f g h");
        }
        assert(s@ =~= grid_text(m));
        s
    }
}

impl core::str::FromStr for Board {
    type Err = FenError;

    fn from_str(fen: &str) -> Result<Board, FenError> {
        Board::from_fen(fen)
    }
}

} // verus!
