//! Perft (performance test) for move generation correctness verification.

use vstd::prelude::*;

use crate::board::{Board, BoardModel};
use crate::chess_move::Move;
use crate::make_move::{consistent, make_move_defined, make_move_model};
use crate::movegen::{distinct, generate_legal_moves, legal_move, listed, no_legal_move, MoveList};
use crate::text::str_chars;

verus! {

/// Counting `depth` plies from `m` never reaches a position without a king
/// for the side to move, nor a move whose application leaves the integer
/// ranges of the board (see [`make_move_defined`]).
pub open spec fn perft_safe(m: BoardModel, depth: nat) -> bool
    decreases depth,
{
    depth == 0 || (m.has_king(m.side_to_move) && (depth == 1 || forall|mv: Move|
        #![trigger make_move_model(m, mv)]
        legal_move(m, mv.view() as int) ==> make_move_defined(m, mv) && perft_safe(
            make_move_model(m, mv),
            (depth - 1) as nat,
        )))
}

/// The move with code `c`.
pub open spec fn code_move(c: int) -> Move {
    Move::of_code(c as u16)
}

/// The number of leaf nodes `depth` plies below `m`: 1 at depth 0, else the
/// sum, over the legal moves, of the count below the position each move
/// reaches.
pub open spec fn perft_count(m: BoardModel, depth: nat) -> nat
    decreases depth, 0nat,
{
    if depth == 0 {
        1
    } else {
        children_count(m, (depth - 1) as nat, 65536)
    }
}

/// The sum, over the legal codes below `n`, of the count `depth` plies below
/// the position the move of that code reaches.
pub open spec fn children_count(m: BoardModel, depth: nat, n: nat) -> nat
    decreases depth, n,
{
    if n == 0 {
        0
    } else {
        children_count(m, depth, (n - 1) as nat) + if legal_move(m, n - 1) {
            perft_count(make_move_model(m, code_move(n - 1)), depth)
        } else {
            0
        }
    }
}

/// Every position with moves left to count, `depth` plies from `m`, is
/// consistent (each square empty or holding one piece of one side).
pub open spec fn perft_consistent(m: BoardModel, depth: nat) -> bool
    decreases depth,
{
    depth == 0 || (consistent(m) && (depth == 1 || forall|mv: Move|
        #![trigger make_move_model(m, mv)]
        legal_move(m, mv.view() as int) ==> perft_consistent(make_move_model(m, mv), (depth - 1) as nat)))
}

/// The sum of `g` over the codes of `ms`.
pub open spec fn seq_total(ms: Seq<Move>, g: spec_fn(int) -> nat) -> nat
    decreases ms.len(),
{
    if ms.len() == 0 {
        0
    } else {
        seq_total(ms.drop_last(), g) + g(ms.last().view() as int)
    }
}

/// The sum of `g` over the codes below `n` that satisfy `p`.
pub open spec fn code_total(p: spec_fn(int) -> bool, g: spec_fn(int) -> nat, n: nat) -> nat
    decreases n,
{
    if n == 0 {
        0
    } else {
        code_total(p, g, (n - 1) as nat) + if p(n - 1) {
            g(n - 1)
        } else {
            0
        }
    }
}

proof fn lemma_code_total_add(p: spec_fn(int) -> bool, q: spec_fn(int) -> bool, g: spec_fn(int) -> nat, x: int, n: nat)
    requires
        forall|c: int| #[trigger] q(c) == (p(c) || c == x),
        !p(x),
        0 <= x,
    ensures
        code_total(q, g, n) == code_total(p, g, n) + if x < n {
            g(x)
        } else {
            0
        },
    decreases n,
{
    if n > 0 {
        lemma_code_total_add(p, q, g, x, (n - 1) as nat);
        assert(q(n - 1) == (p(n - 1) || n - 1 == x));
    }
}

proof fn lemma_code_total_ext(p: spec_fn(int) -> bool, q: spec_fn(int) -> bool, g: spec_fn(int) -> nat, n: nat)
    requires
        forall|c: int| 0 <= c < n ==> #[trigger] p(c) == q(c),
    ensures
        code_total(p, g, n) == code_total(q, g, n),
    decreases n,
{
    if n > 0 {
        lemma_code_total_ext(p, q, g, (n - 1) as nat);
        assert(p(n - 1) == q(n - 1));
    }
}

/// Summing over a list of distinct codes is summing over the codes it lists.
proof fn lemma_seq_total_codes(ms: Seq<Move>, g: spec_fn(int) -> nat)
    requires
        distinct(ms),
    ensures
        seq_total(ms, g) == code_total(|c: int| listed(ms, c), g, 65536),
    decreases ms.len(),
{
    if ms.len() == 0 {
        lemma_code_total_ext(|c: int| listed(ms, c), |c: int| false, g, 65536);
        lemma_code_total_zero(g, 65536);
    } else {
        let ms2 = ms.drop_last();
        let x = ms.last().view() as int;
        assert(distinct(ms2)) by {
            assert forall|i: int, j: int| 0 <= i < j < ms2.len() implies (#[trigger] ms2[i]).view() != (#[trigger] ms2[j]).view() by {
                assert(ms2[i] == ms[i] && ms2[j] == ms[j]);
            }
        }
        lemma_seq_total_codes(ms2, g);
        assert(!listed(ms2, x)) by {
            if listed(ms2, x) {
                let i = choose|i: int| 0 <= i < ms2.len() && (#[trigger] ms2[i]).view() == x;
                assert(ms[i] == ms2[i]);
                assert(ms[i].view() != ms[ms.len() - 1].view());
            }
        }
        assert forall|c: int| #[trigger] listed(ms, c) == (listed(ms2, c) || c == x) by {
            if listed(ms, c) {
                let i = choose|i: int| 0 <= i < ms.len() && (#[trigger] ms[i]).view() == c;
                if i < ms.len() - 1 {
                    assert(ms2[i] == ms[i]);
                }
            }
            if listed(ms2, c) {
                let i = choose|i: int| 0 <= i < ms2.len() && (#[trigger] ms2[i]).view() == c;
                assert(ms[i] == ms2[i]);
            }
            if c == x {
                assert(ms[ms.len() - 1].view() == x);
            }
        }
        lemma_code_total_add(|c: int| listed(ms2, c), |c: int| listed(ms, c), g, x, 65536);
    }
}

proof fn lemma_code_total_zero(g: spec_fn(int) -> nat, n: nat)
    ensures
        code_total(|c: int| false, g, n) == 0,
    decreases n,
{
    if n > 0 {
        lemma_code_total_zero(g, (n - 1) as nat);
    }
}

/// A prefix sums to no more than the whole list.
proof fn lemma_seq_total_prefix(ms: Seq<Move>, g: spec_fn(int) -> nat, i: int)
    requires
        0 <= i <= ms.len(),
    ensures
        seq_total(ms.take(i), g) <= seq_total(ms, g),
    decreases ms.len() - i,
{
    if i < ms.len() {
        lemma_seq_total_prefix(ms, g, i + 1);
        assert(ms.take(i + 1).drop_last() =~= ms.take(i));
    } else {
        assert(ms.take(i) =~= ms);
    }
}

/// The child counts summed over the legal codes.
proof fn lemma_children_count(m: BoardModel, depth: nat, n: nat)
    ensures
        children_count(m, depth, n) == code_total(
            |c: int| legal_move(m, c),
            |c: int| perft_count(make_move_model(m, code_move(c)), depth),
            n,
        ),
    decreases n,
{
    if n > 0 {
        lemma_children_count(m, depth, (n - 1) as nat);
    }
}

/// A move is the move of its code.
proof fn lemma_code_move(mv: Move)
    ensures
        code_move(mv.view() as int) == mv,
{
    Move::lemma_of_code(mv.view());
    Move::lemma_view_eq(code_move(mv.view() as int), mv);
}

/// The sum of a child count over a complete list of the legal moves is the
/// count of the parent.
proof fn lemma_list_count(m: BoardModel, depth: nat, ms: Seq<Move>)
    requires
        distinct(ms),
        forall|c: int| #[trigger] listed(ms, c) == legal_move(m, c),
    ensures
        seq_total(ms, |c: int| perft_count(make_move_model(m, code_move(c)), depth)) == perft_count(m, depth + 1),
{
    let g = |c: int| perft_count(make_move_model(m, code_move(c)), depth);
    lemma_seq_total_codes(ms, g);
    lemma_code_total_ext(|c: int| listed(ms, c), |c: int| legal_move(m, c), g, 65536);
    lemma_children_count(m, depth, 65536);
}

/// A list of `n` moves sums a constant 1 to `n`.
proof fn lemma_seq_total_ones(ms: Seq<Move>)
    ensures
        seq_total(ms, |c: int| 1nat) == ms.len(),
    decreases ms.len(),
{
    if ms.len() > 0 {
        lemma_seq_total_ones(ms.drop_last());
    }
}

/// Count the number of leaf nodes at the given depth.
///
/// Depth 0 returns 1 (the current position). Depth 1 returns the number
/// of legal moves (bulk-counting optimization: no recursive make_move).
/// Node counts add with wrapping; where the count fits in 64 bits (and the
/// positions reached are consistent) the result is exactly [`perft_count`].
pub fn perft(board: &Board, depth: usize) -> (r: u64)
    requires
        perft_safe(board.view(), depth as nat),
    ensures
        depth == 0 ==> r == 1,
        depth >= 1 && no_legal_move(board.view()) ==> r == 0,
        perft_consistent(board.view(), depth as nat) && perft_count(board.view(), depth as nat) <= u64::MAX ==> r == perft_count(
            board.view(),
            depth as nat,
        ),
    decreases depth,
{
    let ghost m = board.view();
    if depth == 0 {
        return 1;
    }
    let moves = generate_legal_moves(board);
    let ghost ms = moves@;
    let ghost cond = perft_consistent(m, depth as nat) && perft_count(m, depth as nat) <= u64::MAX;
    let ghost g = |c: int| perft_count(make_move_model(m, code_move(c)), (depth - 1) as nat);
    proof {
        if cond {
            lemma_list_count(m, (depth - 1) as nat, ms);
        }
    }
    if depth == 1 {
        proof {
            if cond {
                assert forall|c: int| #[trigger] g(c) == 1nat by {}
                lemma_seq_total_ones(ms);
                assert(g =~= |c: int| 1nat);
            }
        }
        return moves.len() as u64;
    }
    let mut nodes: u64 = 0;
    let mut i: usize = 0;
    while i < moves.len()
        invariant
            1 < depth,
            m == board.view(),
            ms == moves@,
            i <= moves@.len(),
            perft_safe(board.view(), depth as nat),
            forall|c: int| #[trigger] listed(moves@, c) == legal_move(board.view(), c),
            moves@.len() == 0 ==> nodes == 0,
            cond == (perft_consistent(m, depth as nat) && perft_count(m, depth as nat) <= u64::MAX),
            g == (|c: int| perft_count(make_move_model(m, code_move(c)), (depth - 1) as nat)),
            cond ==> seq_total(ms, g) == perft_count(m, depth as nat),
            cond ==> nodes == seq_total(ms.take(i as int), g),
        decreases moves@.len() - i,
    {
        let mv = moves.get(i);
        proof {
            assert(listed(moves@, mv.view() as int));
            assert(legal_move(board.view(), mv.view() as int));
            assert(make_move_defined(board.view(), mv) && perft_safe(make_move_model(board.view(), mv), (depth - 1) as nat));
        }
        let child = board.make_move(mv);
        let sub = perft(&child, depth - 1);
        proof {
            if cond {
                lemma_code_move(mv);
                assert(ms[i as int] == mv);
                assert(ms.take(i + 1).drop_last() =~= ms.take(i as int));
                assert(seq_total(ms.take(i + 1), g) == seq_total(ms.take(i as int), g) + g(mv.view() as int));
                lemma_seq_total_prefix(ms, g, i + 1);
                assert(perft_consistent(make_move_model(m, mv), (depth - 1) as nat));
                assert(sub == perft_count(make_move_model(m, mv), (depth - 1) as nat));
            }
        }
        nodes = nodes.wrapping_add(sub);
        i = i + 1;
    }
    proof {
        if cond {
            assert(ms.take(ms.len() as int) =~= ms);
        }
    }
    nodes
}

/// Whether UCI text `a` sorts strictly before `b` (character by character).
pub open spec fn text_less(a: Seq<char>, b: Seq<char>) -> bool
    decreases a.len(),
{
    if b.len() == 0 {
        false
    } else if a.len() == 0 {
        true
    } else if a[0] != b[0] {
        (a[0] as int) < (b[0] as int)
    } else {
        text_less(a.drop_first(), b.drop_first())
    }
}

proof fn lemma_text_less_total(a: Seq<char>, b: Seq<char>)
    ensures
        text_less(a, b) || text_less(b, a) || a == b,
    decreases a.len(),
{
    if a.len() > 0 && b.len() > 0 && a[0] == b[0] {
        lemma_text_less_total(a.drop_first(), b.drop_first());
        if a.drop_first() == b.drop_first() {
            assert(a =~= seq![a[0]] + a.drop_first());
            assert(b =~= seq![b[0]] + b.drop_first());
        }
    }
}

proof fn lemma_text_less_asym(a: Seq<char>, b: Seq<char>)
    ensures
        text_less(a, b) ==> !text_less(b, a),
    decreases a.len(),
{
    if a.len() > 0 && b.len() > 0 && a[0] == b[0] {
        lemma_text_less_asym(a.drop_first(), b.drop_first());
    }
}

proof fn lemma_text_less_trans(a: Seq<char>, b: Seq<char>, c: Seq<char>)
    ensures
        text_less(a, b) && text_less(b, c) ==> text_less(a, c),
    decreases a.len(),
{
    if a.len() > 0 && b.len() > 0 && c.len() > 0 && a[0] == b[0] && b[0] == c[0] {
        lemma_text_less_trans(a.drop_first(), b.drop_first(), c.drop_first());
    }
}

proof fn lemma_text_less_order(a: Seq<char>, b: Seq<char>, c: Seq<char>)
    ensures
        text_less(a, b) ==> !text_less(b, a),
        text_less(a, b) && text_less(b, c) ==> text_less(a, c),
        text_less(a, b) || text_less(b, a) || a == b,
{
    lemma_text_less_asym(a, b);
    lemma_text_less_trans(a, b, c);
    lemma_text_less_total(a, b);
}

#[verifier::spinoff_prover]
fn chars_less(a: &Vec<char>, b: &Vec<char>) -> (r: bool)
    ensures
        r == text_less(a@, b@),
{
    let mut i: usize = 0;
    assert(a@.skip(0) =~= a@);
    assert(b@.skip(0) =~= b@);
    while i < a.len() && i < b.len()
        invariant
            i <= a@.len(),
            i <= b@.len(),
            forall|j: int| 0 <= j < i ==> a@[j] == b@[j],
            text_less(a@, b@) == text_less(a@.skip(i as int), b@.skip(i as int)),
        decreases a@.len() - i,
    {
        if a[i] != b[i] {
            assert(a@.skip(i as int)[0] == a@[i as int]);
            assert(b@.skip(i as int)[0] == b@[i as int]);
            return a[i] < b[i];
        }
        assert(a@.skip(i as int).drop_first() =~= a@.skip(i + 1));
        assert(b@.skip(i as int).drop_first() =~= b@.skip(i + 1));
        i = i + 1;
    }
    i < b.len()
}

/// The node count `divide` gives for `mv` at `depth`: 1 at depth 0 or 1,
/// else the perft count below the position `mv` reaches, wherever that
/// count is exact (see [`perft`]).
#[verifier::opaque]
pub open spec fn divide_count_ok(m: BoardModel, depth: nat, mv: Move, n: u64) -> bool {
    let child = make_move_model(m, mv);
    if depth <= 1 {
        n == 1
    } else {
        perft_consistent(child, (depth - 1) as nat) && perft_count(child, (depth - 1) as nat) <= u64::MAX ==> n == perft_count(
            child,
            (depth - 1) as nat,
        )
    }
}

proof fn lemma_listed_insert(ms: Seq<Move>, pos: int, mv: Move)
    requires
        0 <= pos <= ms.len(),
    ensures
        forall|c: int| #[trigger] listed(ms.insert(pos, mv), c) == (listed(ms, c) || c == mv.view()),
{
    let ins = ms.insert(pos, mv);
    assert forall|c: int| #[trigger] listed(ins, c) == (listed(ms, c) || c == mv.view()) by {
        if listed(ins, c) {
            let i = choose|i: int| 0 <= i < ins.len() && (#[trigger] ins[i]).view() == c;
            if i < pos {
                assert(ins[i] == ms[i]);
            } else if i > pos {
                assert(ins[i] == ms[i - 1]);
            }
        }
        if listed(ms, c) {
            let i = choose|i: int| 0 <= i < ms.len() && (#[trigger] ms[i]).view() == c;
            if i < pos {
                assert(ins[i] == ms[i]);
            } else {
                assert(ins[i + 1] == ms[i]);
            }
        }
        if c == mv.view() {
            assert(ins[pos] == mv);
        }
    }
}

proof fn lemma_listed_take(ms: Seq<Move>, i: int)
    requires
        0 <= i < ms.len(),
    ensures
        forall|c: int| #[trigger] listed(ms.take(i + 1), c) == (listed(ms.take(i), c) || c == ms[i].view()),
{
    assert(ms.take(i + 1) =~= ms.take(i).push(ms[i]));
    assert forall|c: int| #[trigger] listed(ms.take(i + 1), c) == (listed(ms.take(i), c) || c == ms[i].view()) by {
        let t = ms.take(i);
        if listed(ms.take(i + 1), c) {
            let j = choose|j: int| 0 <= j < i + 1 && (#[trigger] ms.take(i + 1)[j]).view() == c;
            if j < i {
                assert(t[j] == ms.take(i + 1)[j]);
            }
        }
        if listed(t, c) {
            let j = choose|j: int| 0 <= j < t.len() && (#[trigger] t[j]).view() == c;
            assert(ms.take(i + 1)[j] == t[j]);
        }
        if c == ms[i].view() {
            assert(ms.take(i + 1)[i] == ms[i]);
        }
    }
}

/// The position at which `key` goes into the sorted `keys`: after every
/// entry that does not sort after it.
fn sorted_position(keys: &Vec<Vec<char>>, key: &Vec<char>) -> (pos: usize)
    requires
        forall|a: int, b: int| 0 <= a < b < keys@.len() ==> !text_less(#[trigger] keys@[b]@, #[trigger] keys@[a]@),
    ensures
        pos <= keys@.len(),
        forall|a: int, b: int| 0 <= a < b < keys@.len() + 1 ==> !text_less(
            #[trigger] keys@.insert(pos as int, *key)[b]@,
            #[trigger] keys@.insert(pos as int, *key)[a]@,
        ),
{
    let ghost old_keys = keys@;
    let mut pos: usize = keys.len();
    while pos > 0 && chars_less(key, &keys[pos - 1])
        invariant
            pos <= keys@.len(),
            forall|k: int| pos <= k < keys@.len() ==> text_less(key@, #[trigger] keys@[k]@),
        decreases pos,
    {
        pos = pos - 1;
    }
    proof {
        assert forall|a: int, b: int| 0 <= a < b < old_keys.len() + 1 implies !text_less(
            #[trigger] old_keys.insert(pos as int, *key)[b]@,
            #[trigger] old_keys.insert(pos as int, *key)[a]@,
        ) by {
            let ins = old_keys.insert(pos as int, *key);
            if a < pos && b == pos {
                lemma_text_less_order(key@, old_keys[a]@, old_keys[pos - 1]@);
                lemma_text_less_order(old_keys[pos - 1]@, old_keys[a]@, key@);
                lemma_text_less_order(old_keys[a]@, old_keys[pos - 1]@, key@);
                if a < pos - 1 {
                    assert(!text_less(old_keys[pos - 1]@, old_keys[a]@));
                }
            } else if a == pos && b > pos {
                lemma_text_less_order(key@, old_keys[b - 1]@, key@);
            }
        }
    }
    pos
}

/// The entries of `r` stand for the moves of `srcs`, one for one and in
/// order: each a legal move, named by its UCI text, with its node count;
/// and every legal move is among them.
pub open spec fn divide_entries(m: BoardModel, depth: nat, srcs: Seq<Move>, r: Seq<(String, u64)>) -> bool {
    &&& srcs.len() == r.len()
    &&& forall|k: int| 0 <= k < r.len() ==> legal_move(m, srcs[k].view() as int) && (#[trigger] r[k]).0@ == srcs[k].uci_text()
        && divide_count_ok(m, depth, srcs[k], r[k].1)
    &&& forall|c: int| legal_move(m, c) ==> #[trigger] listed(srcs, c)
}

/// The sum of the node counts of divide entries.
pub open spec fn count_sum(r: Seq<(String, u64)>) -> nat
    decreases r.len(),
{
    if r.len() == 0 {
        0
    } else {
        count_sum(r.drop_last()) + r.last().1 as nat
    }
}

/// One term of a sum is at most the sum.
proof fn lemma_seq_total_elem(ms: Seq<Move>, g: spec_fn(int) -> nat, k: int)
    requires
        0 <= k < ms.len(),
    ensures
        g(ms[k].view() as int) <= seq_total(ms, g),
    decreases ms.len(),
{
    if k < ms.len() - 1 {
        lemma_seq_total_elem(ms.drop_last(), g, k);
        assert(ms.drop_last()[k] == ms[k]);
    }
}

/// Entries whose counts are the terms of a sum add up to it.
proof fn lemma_count_sum_terms(r: Seq<(String, u64)>, ms: Seq<Move>, g: spec_fn(int) -> nat)
    requires
        r.len() == ms.len(),
        forall|k: int| 0 <= k < r.len() ==> (#[trigger] r[k]).1 == g(ms[k].view() as int),
    ensures
        count_sum(r) == seq_total(ms, g),
    decreases r.len(),
{
    if r.len() > 0 {
        assert forall|k: int| 0 <= k < r.drop_last().len() implies (#[trigger] r.drop_last()[k]).1 == g(
            ms.drop_last()[k].view() as int,
        ) by {
            assert(r.drop_last()[k] == r[k]);
            assert(ms.drop_last()[k] == ms[k]);
        }
        lemma_count_sum_terms(r.drop_last(), ms.drop_last(), g);
        assert(r.last() == r[r.len() - 1]);
    }
}

/// Inserting a code not yet listed keeps the codes distinct.
proof fn lemma_distinct_insert(ms: Seq<Move>, pos: int, mv: Move)
    requires
        0 <= pos <= ms.len(),
        distinct(ms),
        !listed(ms, mv.view() as int),
    ensures
        distinct(ms.insert(pos, mv)),
{
    let ins = ms.insert(pos, mv);
    assert forall|i: int, j: int| 0 <= i < j < ins.len() implies (#[trigger] ins[i]).view() != (#[trigger] ins[j]).view() by {
        let a = if i < pos { i } else { i - 1 };
        let b = if j < pos { j } else { j - 1 };
        if i == pos {
            assert(ins[j] == ms[b]);
            assert(!listed(ms, mv.view() as int));
        } else if j == pos {
            assert(ins[i] == ms[a]);
            assert(!listed(ms, mv.view() as int));
        } else {
            assert(ins[i] == ms[a]);
            assert(ins[j] == ms[b]);
        }
    }
}

/// The counts of divide entries that stand for the legal moves one for one
/// add up to the perft count of the position.
proof fn lemma_divide_sum(m: BoardModel, depth: nat, srcs: Seq<Move>, r: Seq<(String, u64)>)
    requires
        depth >= 1,
        perft_consistent(m, depth),
        perft_count(m, depth) <= u64::MAX,
        distinct(srcs),
        divide_entries(m, depth, srcs, r),
        forall|c: int| #[trigger] listed(srcs, c) == legal_move(m, c),
    ensures
        count_sum(r) == perft_count(m, depth),
{
    let g = |c: int| perft_count(make_move_model(m, code_move(c)), (depth - 1) as nat);
    lemma_list_count(m, (depth - 1) as nat, srcs);
    assert forall|k: int| 0 <= k < r.len() implies (#[trigger] r[k]).1 == g(srcs[k].view() as int) by {
        let mv = srcs[k];
        lemma_code_move(mv);
        reveal(divide_count_ok);
        assert(divide_count_ok(m, depth, mv, r[k].1));
        if depth > 1 {
            assert(legal_move(m, mv.view() as int));
            assert(perft_consistent(make_move_model(m, mv), (depth - 1) as nat));
            lemma_seq_total_elem(srcs, g, k);
        }
    }
    lemma_count_sum_terms(r, srcs, g);
}

#[verifier::spinoff_prover]
/// Run perft with per-move breakdown (useful for debugging).
///
/// Returns a vector of `(uci_move, node_count)` pairs, one per legal move,
/// sorted by the move text.
pub fn divide(board: &Board, depth: usize) -> (r: Vec<(String, u64)>)
    requires
        perft_safe(board.view(), (if depth <= 1 { 1 } else { depth }) as nat),
    ensures
        forall|i: int, j: int| 0 <= i < j < r@.len() ==> !text_less(#[trigger] r@[j].0@, #[trigger] r@[i].0@),
        exists|srcs: Seq<Move>| #[trigger] divide_entries(board.view(), depth as nat, srcs, r@),
        consistent(board.view()) ==> r@.len() == perft_count(board.view(), 1),
        depth >= 1 && perft_consistent(board.view(), depth as nat) && perft_count(board.view(), depth as nat) <= u64::MAX
            ==> count_sum(r@) == perft_count(board.view(), depth as nat),
{
    let ghost m = board.view();
    let moves = generate_legal_moves(board);
    let mut results: Vec<(String, u64)> = Vec::new();
    let mut keys: Vec<Vec<char>> = Vec::new();
    let ghost mut srcs: Seq<Move> = Seq::empty();
    let mut i: usize = 0;
    while i < moves.len()
        invariant
            i <= moves@.len(),
            m == board.view(),
            srcs.len() == results@.len(),
            forall|k: int| 0 <= k < srcs.len() ==> (#[trigger] results@[k]).0@ == srcs[k].uci_text() && divide_count_ok(
                m,
                depth as nat,
                srcs[k],
                results@[k].1,
            ),
            forall|c: int| #[trigger] listed(srcs, c) == listed(moves@.take(i as int), c),
            consistent(m) ==> distinct(moves@) && distinct(srcs),
            srcs.len() == i,
            perft_safe(board.view(), (if depth <= 1 { 1 } else { depth }) as nat),
            forall|c: int| #[trigger] listed(moves@, c) == legal_move(board.view(), c),
            keys@.len() == results@.len(),
            forall|k: int| 0 <= k < keys@.len() ==> (#[trigger] keys@[k])@ == results@[k].0@,
            forall|a: int, b: int| 0 <= a < b < keys@.len() ==> !text_less(#[trigger] keys@[b]@, #[trigger] keys@[a]@),
        decreases moves@.len() - i,
    {
        let mv = moves.get(i);
        proof {
            assert(listed(moves@, mv.view() as int));
        }
        let count = if depth <= 1 {
            1
        } else {
            proof {
                assert(legal_move(board.view(), mv.view() as int));
                assert(make_move_defined(board.view(), mv) && perft_safe(make_move_model(board.view(), mv), (depth - 1) as nat));
            }
            let child = board.make_move(mv);
            perft(&child, depth - 1)
        };
        let text = mv.to_uci();
        let key = str_chars(text.as_str());
        let pos = sorted_position(&keys, &key);
        let ghost old_keys = keys@;
        let ghost old_results = results@;
        proof {
            lemma_listed_insert(srcs, pos as int, mv);
            lemma_listed_take(moves@, i as int);
            assert(moves@[i as int] == mv);
            reveal(divide_count_ok);
            assert(divide_count_ok(m, depth as nat, mv, count));
            if consistent(m) {
                assert(!listed(moves@.take(i as int), mv.view() as int)) by {
                    if listed(moves@.take(i as int), mv.view() as int) {
                        let j = choose|j: int| 0 <= j < i && (#[trigger] moves@.take(i as int)[j]).view() == mv.view();
                        assert(moves@[j] == moves@.take(i as int)[j]);
                    }
                }
                lemma_distinct_insert(srcs, pos as int, mv);
            }
            srcs = srcs.insert(pos as int, mv);
        }
        keys.insert(pos, key);
        results.insert(pos, (text, count));
        i = i + 1;
    }
    proof {
        assert forall|a: int, b: int| 0 <= a < b < results@.len() implies !text_less(#[trigger] results@[b].0@, #[trigger] results@[a].0@) by {
            assert(keys@[a]@ == results@[a].0@);
            assert(keys@[b]@ == results@[b].0@);
        }
        assert(moves@.take(moves@.len() as int) =~= moves@);
        assert forall|k: int| 0 <= k < results@.len() implies legal_move(m, srcs[k].view() as int) by {
            assert(listed(srcs, srcs[k].view() as int));
        }
        assert forall|c: int| legal_move(m, c) implies #[trigger] listed(srcs, c) by {
            assert(listed(moves@, c));
        }
        assert(divide_entries(m, depth as nat, srcs, results@));
        if depth >= 1 && perft_consistent(m, depth as nat) && perft_count(m, depth as nat) <= u64::MAX {
            assert forall|c: int| #[trigger] listed(srcs, c) == legal_move(m, c) by {
                assert(listed(moves@, c) == legal_move(m, c));
            }
            lemma_divide_sum(m, depth as nat, srcs, results@);
        }
        if consistent(m) {
            lemma_list_count(m, 0, moves@);
            lemma_seq_total_ones(moves@);
            assert((|c: int| perft_count(make_move_model(m, code_move(c)), 0)) =~= (|c: int| 1nat));
        }
    }
    results
}

} // verus!
