//! The record quiescence search keeps of the moves it searched.

use vstd::prelude::*;

use crate::board::BoardModel;
use crate::chess_move::{Move, MoveKind};
use crate::make_move::make_move_defined;
use crate::movegen::{legal_move, listed};
use crate::search::ordering::qsearch_score;
use crate::search::see::see_model;

verus! {

/// One entry of the quiescence record: the position, the ply, the code of
/// the move searched from it (-1 when the search was stopped there) and the
/// score the search of the position that move reaches returned (0 for a stop).
pub type QsEntry = (BoardModel, int, int, int);

/// The moves quiescence search looks at in `m`: the legal captures and
/// promotions its ordering keeps (a positive ordering score), that are
/// promotions or do not lose material by static exchange, and that can be
/// applied.
pub closed spec fn qs_searched(m: BoardModel, mv: Move) -> bool {
    &&& legal_move(m, mv.view() as int)
    &&& qsearch_score(m, mv) >= 1
    &&& (mv.spec_kind() == MoveKind::Promotion || see_model(m, mv) >= 0)
    &&& make_move_defined(m, mv)
}

/// `qs_searched` spelled out.
pub proof fn lemma_qs_searched(m: BoardModel, mv: Move)
    ensures
        qs_searched(m, mv) == (legal_move(m, mv.view() as int) && qsearch_score(m, mv) >= 1 && (mv.spec_kind()
            == MoveKind::Promotion || see_model(m, mv) >= 0) && make_move_defined(m, mv)),
{
}

/// From entry `from` on, `log` records a search of the move of code `c` from
/// `m` at `ply` whose child score `s` satisfies `bound >= -s`.
pub open spec fn qs_logged(log: Seq<QsEntry>, from: int, m: BoardModel, ply: int, c: int, bound: int) -> bool {
    exists|i: int|
        #![trigger log[i]]
        0 <= from <= i < log.len() && log[i].0 == m && log[i].1 == ply && log[i].2 == c && bound >= -log[i].3
}

/// From entry `from` on, `log` records that the search of `m` at `ply` was stopped.
pub open spec fn qs_stopped(log: Seq<QsEntry>, from: int, m: BoardModel, ply: int) -> bool {
    exists|i: int| #![trigger log[i]] 0 <= from <= i < log.len() && log[i] == (m, ply, -1int, 0int)
}

/// `b` extends `a`.
pub open spec fn extends(b: Seq<QsEntry>, a: Seq<QsEntry>) -> bool {
    a.len() <= b.len() && b.subrange(0, a.len() as int) == a
}

/// A recorded search stays recorded as the record grows and the bound rises.
pub proof fn lemma_logged_grow(
    a: Seq<QsEntry>,
    b: Seq<QsEntry>,
    from: int,
    m: BoardModel,
    ply: int,
    c: int,
    lo: int,
    hi: int,
)
    requires
        extends(b, a),
        qs_logged(a, from, m, ply, c, lo),
        lo <= hi,
    ensures
        qs_logged(b, from, m, ply, c, hi),
{
    let i = choose|i: int| #![trigger a[i]] 0 <= from <= i < a.len() && a[i].0 == m && a[i].1 == ply && a[i].2 == c && lo >= -a[i].3;
    assert(b.subrange(0, a.len() as int)[i] == b[i]);
    assert(b[i] == a[i]);
}

/// Extension is transitive.
pub proof fn lemma_extends_trans(a: Seq<QsEntry>, b: Seq<QsEntry>, c: Seq<QsEntry>)
    requires
        extends(b, a),
        extends(c, b),
    ensures
        extends(c, a),
{
    assert forall|i: int| 0 <= i < a.len() implies #[trigger] c.subrange(0, a.len() as int)[i] == a[i] by {
        assert(c.subrange(0, b.len() as int)[i] == b[i]);
        assert(b.subrange(0, a.len() as int)[i] == a[i]);
    }
    assert(c.subrange(0, a.len() as int) =~= a);
}

/// Pushing an entry extends the record.
pub proof fn lemma_extends_push(a: Seq<QsEntry>, e: QsEntry)
    ensures
        extends(a.push(e), a),
{
    assert(a.push(e).subrange(0, a.len() as int) =~= a);
}

/// The pushed entry is recorded.
pub proof fn lemma_logged_push(a: Seq<QsEntry>, from: int, m: BoardModel, ply: int, c: int, s: int, bound: int)
    requires
        0 <= from <= a.len(),
        bound >= -s,
    ensures
        qs_logged(a.push((m, ply, c, s)), from, m, ply, c, bound),
{
    let b = a.push((m, ply, c, s));
    assert(b[a.len() as int] == (m, ply, c, s));
}

/// When every move the picker held from `cursor` on scores below 1, and the
/// picker's moves are the legal moves of `m`, each move quiescence search
/// looks at lies before `cursor`; so if each of those is recorded, all are.
pub proof fn lemma_qs_complete(
    m: BoardModel,
    ply: int,
    log: Seq<QsEntry>,
    from: int,
    moves: Seq<Move>,
    pm: Seq<Move>,
    ps: Seq<i32>,
    cursor: int,
    bound: int,
)
    requires
        forall|c: int| #[trigger] listed(moves, c) == legal_move(m, c),
        pm.to_multiset() == moves.to_multiset(),
        pm.len() == ps.len(),
        0 <= cursor <= pm.len(),
        forall|i: int| 0 <= i < ps.len() ==> #[trigger] ps[i] == qsearch_score(m, pm[i]),
        forall|j: int| cursor <= j < ps.len() ==> #[trigger] ps[j] < 1,
        forall|j: int| 0 <= j < cursor && #[trigger] qs_searched(m, pm[j]) ==> qs_logged(log, from, m, ply, pm[j].view() as int, bound),
    ensures
        forall|mv: Move| #[trigger] qs_searched(m, mv) ==> qs_logged(log, from, m, ply, mv.view() as int, bound),
{
    broadcast use vstd::seq_lib::group_to_multiset_ensures;

    assert forall|mv: Move| #[trigger] qs_searched(m, mv) implies qs_logged(log, from, m, ply, mv.view() as int, bound) by {
        assert(listed(moves, mv.view() as int));
        let k = choose|k: int| 0 <= k < moves.len() && (#[trigger] moves[k]).view() == mv.view() as int;
        Move::lemma_view_eq(moves[k], mv);
        assert(moves.contains(mv));
        assert(moves.to_multiset().count(mv) > 0);
        assert(pm.to_multiset().count(mv) > 0);
        assert(pm.contains(mv));
        let j = choose|j: int| 0 <= j < pm.len() && pm[j] == mv;
        assert(ps[j] == qsearch_score(m, mv));
    }
}

} // verus!
