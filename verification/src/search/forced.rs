//! Forced moves: positions with exactly one legal move.

use vstd::prelude::*;

use crate::board::{Board, BoardModel};
use crate::chess_move::Move;
use crate::movegen::{generate_legal_moves, legal_move, listed};
use crate::piece_kind::PieceKind;

verus! {

/// Move code `c` is the only legal move of `m` (whose side to move has a king).
pub open spec fn forced(m: BoardModel, c: int) -> bool {
    &&& m.has_king(m.side_to_move)
    &&& legal_move(m, c)
    &&& forall|c2: int| #[trigger] legal_move(m, c2) ==> c2 == c
}

/// The only legal move of the position, when it has exactly one.
#[verifier::spinoff_prover]
pub fn forced_move(board: &Board) -> (r: Option<Move>)
    ensures
        r matches Some(mv) ==> forced(board.view(), mv.view() as int),
        r is None ==> forall|c: int| !#[trigger] forced(board.view(), c),
{
    let ghost m = board.view();
    let us = board.side_to_move();
    if (board.pieces(PieceKind::King).inner() & board.side(us).inner()) == 0 {
        return None;
    }
    let moves = generate_legal_moves(board);
    if moves.len() == 0 {
        proof {
            assert forall|c: int| !#[trigger] forced(m, c) by {
                assert(!listed(moves@, c));
            }
        }
        return None;
    }
    let first = moves.get(0);
    proof {
        assert(listed(moves@, first.view() as int));
    }
    let mut i: usize = 1;
    while i < moves.len()
        invariant
            m == board.view(),
            forall|c: int| #[trigger] listed(moves@, c) == legal_move(m, c),
            1 <= i <= moves@.len(),
            first == moves@[0],
            forall|j: int| 0 <= j < i ==> (#[trigger] moves@[j]).view() == first.view(),
        decreases moves@.len() - i,
    {
        let mv = moves.get(i);
        if mv.raw() != first.raw() {
            proof {
                assert(listed(moves@, mv.view() as int));
                assert(moves@[0].view() == first.view());
                assert(listed(moves@, first.view() as int));
                assert forall|c: int| !#[trigger] forced(m, c) by {
                    if forced(m, c) {
                        assert(legal_move(m, mv.view() as int));
                        assert(legal_move(m, first.view() as int));
                    }
                }
            }
            return None;
        }
        i = i + 1;
    }
    proof {
        assert forall|c2: int| #[trigger] legal_move(m, c2) implies c2 == first.view() by {
            assert(listed(moves@, c2));
            let j = choose|j: int| 0 <= j < moves@.len() && (#[trigger] moves@[j]).view() == c2;
            assert(moves@[j].view() == first.view());
        }
    }
    Some(first)
}

} // verus!
