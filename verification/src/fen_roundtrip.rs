//! Reading back what the FEN writer writes.

use vstd::prelude::*;

use crate::color::Color;
use crate::fen::{all_digits, counter_digits, dec_text, digit_char, digits_value, ep_field, ep_text, is_digit, parse_u16, piece_letter};
use crate::piece_kind::PieceKind;

verus! {

/// The decimal text of `n` is a non-empty string of digits whose value is `n`.
proof fn lemma_dec_text_digits(n: nat)
    ensures
        dec_text(n).len() > 0,
        all_digits(dec_text(n)),
        digits_value(dec_text(n)) == n,
    decreases n,
{
    if n >= 10 {
        lemma_dec_text_digits(n / 10);
        let t = dec_text(n / 10);
        let u = t.push(digit_char((n % 10) as int));
        assert(u.drop_last() =~= t);
        assert forall|j: int| 0 <= j < u.len() implies is_digit(#[trigger] u[j]) by {
            if j < t.len() {
                assert(u[j] == t[j]);
            }
        }
        assert(u.last() == digit_char((n % 10) as int));
        assert(digit_char((n % 10) as int) as int == '0' as int + n % 10);
        assert((n / 10) * 10 + n % 10 == n);
        assert(dec_text(n) == u);
        assert(digits_value(u) == digits_value(t) * 10 + (u.last() as int - '0' as int));
    } else {
        let u = seq![digit_char(n as int)];
        assert(u.drop_last() =~= Seq::<char>::empty());
        assert(digit_char(n as int) as int == '0' as int + n);
        assert(dec_text(n) == u);
        assert(digits_value(u) == digits_value(u.drop_last()) * 10 + (u.last() as int - '0' as int));
    }
}

/// Reading back a move counter written in decimal gives the counter.
pub proof fn lemma_counter_text_roundtrip(n: u16)
    ensures
        parse_u16(dec_text(n as nat)) == Some(n),
{
    lemma_dec_text_digits(n as nat);
    let t = dec_text(n as nat);
    assert(is_digit(t[0]));
    assert(counter_digits(t) == t);
}

/// Reading back the en passant field written for a square gives the square.
pub proof fn lemma_ep_text_roundtrip(sq: int)
    requires
        0 <= sq < 64,
    ensures
        ep_field(ep_text(Some(sq))) == Some(sq),
{
}

/// The letter written for a piece reads back as its kind, in the case of
/// its color (upper case for White).
pub proof fn lemma_piece_letter_roundtrip(k: PieceKind, c: Color)
    ensures
        PieceKind::spec_from_fen_char(piece_letter(k, c)) == Some(k),
        ('A' <= piece_letter(k, c) && piece_letter(k, c) <= 'Z') == (c == Color::White),
{
}

/// An empty-square count from 1 to 8 is written as the digit the reader
/// takes for it.
pub proof fn lemma_empty_count_digit(n: int)
    requires
        1 <= n <= 8,
    ensures
        '0' <= digit_char(n) <= '9',
        digit_char(n) as int - '0' as int == n,
{
}

} // verus!
