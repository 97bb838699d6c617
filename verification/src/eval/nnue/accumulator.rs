//! NNUE accumulator for incremental feature updates.

use vstd::prelude::*;

use crate::bits::bit;
use crate::board::{Board, BoardModel};
use crate::color::Color;
use crate::eval::nnue::features::{feature, feature_index};
use crate::eval::nnue::network::{Network, HIDDEN};
use crate::piece_kind::PieceKind;
use crate::square::Square;

verus! {

/// Accumulated hidden-layer activations for one perspective.
#[derive(Clone)]
pub struct Accumulator {
    pub vals: Vec<i16>,
}

/// The feature of iteration slot `t` — kinds in order, then colors, then
/// squares — when a piece of that kind and color stands on that square.
pub open spec fn slot_feature(m: BoardModel, perspective: Color, t: int) -> Option<int> {
    let k = t / 128;
    let c = (t / 64) % 2;
    let s = t % 64;
    if bit(m.pieces[k] & m.sides[c], s) {
        Some(feature(perspective, Color::from_idx(c), PieceKind::from_idx(k), s))
    } else {
        None
    }
}

/// Hidden unit `j` of the bias plus the weights of the features of the slots
/// below `t`.
pub open spec fn acc_sum(net: Network, m: BoardModel, perspective: Color, j: int, t: int) -> int
    decreases t,
{
    if t <= 0 {
        net.feature_bias_view()[j] as int
    } else {
        acc_sum(net, m, perspective, j, t - 1) + match slot_feature(m, perspective, t - 1) {
            Some(f) => net.weight(f, j) as int,
            None => 0,
        }
    }
}

/// Every partial sum of a refresh fits in 16 bits.
pub open spec fn refresh_fits(net: Network, m: BoardModel, perspective: Color) -> bool {
    forall|j: int, t: int| 0 <= j < HIDDEN && 0 <= t <= 768 ==> i16::MIN <= #[trigger] acc_sum(net, m, perspective, j, t) <= i16::MAX
}

/// The accumulator of a position from `perspective`.
pub open spec fn accumulated(net: Network, m: BoardModel, perspective: Color) -> Seq<i16> {
    Seq::new(HIDDEN as nat, |j: int| acc_sum(net, m, perspective, j, 768) as i16)
}

fn kind_of(k: usize) -> (r: PieceKind)
    requires
        k < 6,
    ensures
        r == PieceKind::from_idx(k as int),
{
    match k {
        0 => PieceKind::Pawn,
        1 => PieceKind::Knight,
        2 => PieceKind::Bishop,
        3 => PieceKind::Rook,
        4 => PieceKind::Queen,
        _ => PieceKind::King,
    }
}

impl Accumulator {
    /// One value per hidden unit.
    pub open spec fn wf(&self) -> bool {
        self.vals@.len() == HIDDEN
    }

    /// Full recompute: start from bias, then add all features on the board.
    pub fn refresh(board: &Board, perspective: Color, net: &Network) -> (r: Accumulator)
        requires
            net.wf(),
            refresh_fits(*net, board.view(), perspective),
        ensures
            r.wf(),
            r.vals@ == accumulated(*net, board.view(), perspective),
    {
        let ghost m = board.view();
        let mut acc = net.bias_accumulator();
        let mut t: usize = 0;
        while t < 768
            invariant
                net.wf(),
                m == board.view(),
                refresh_fits(*net, m, perspective),
                t <= 768,
                acc.wf(),
                forall|j: int| 0 <= j < HIDDEN ==> #[trigger] acc.vals@[j] == acc_sum(*net, m, perspective, j, t as int),
            decreases 768 - t,
        {
            let k = t / 128;
            let c = (t / 64) % 2;
            let s = t % 64;
            let bb = board.pieces_by_index(k).inner() & board.side_by_index(c).inner();
            if (bb >> (s as u64)) & 1u64 == 1u64 {
                let color = if c == 0 { Color::White } else { Color::Black };
                let idx = feature_index(perspective, color, kind_of(k), Square::from_index_unchecked(s as u8));
                assert forall|j: int| 0 <= j < HIDDEN implies i16::MIN <= #[trigger] acc.vals@[j] + net.weight(idx as int, j) <= i16::MAX by {
                    assert(acc_sum(*net, m, perspective, j, t + 1) == acc_sum(*net, m, perspective, j, t as int) + net.weight(idx as int, j));
                    assert(i16::MIN <= acc_sum(*net, m, perspective, j, t + 1) <= i16::MAX);
                }
                acc.add_feature(idx, net);
            }
            t = t + 1;
        }
        proof {
            assert(acc.vals@ =~= accumulated(*net, m, perspective));
        }
        acc
    }

    /// Incrementally add a feature (piece placed on a square).
    pub fn add_feature(&mut self, idx: usize, net: &Network)
        requires
            old(self).wf(),
            net.wf(),
            idx < 768,
            forall|j: int| 0 <= j < HIDDEN ==> i16::MIN <= #[trigger] old(self).vals@[j] + net.weight(idx as int, j) <= i16::MAX,
        ensures
            final(self).wf(),
            forall|j: int| 0 <= j < HIDDEN ==> #[trigger] final(self).vals@[j] == old(self).vals@[j] + net.weight(idx as int, j),
    {
        let mut j: usize = 0;
        while j < HIDDEN
            invariant
                net.wf(),
                idx < 768,
                j <= HIDDEN,
                self.wf(),
                forall|k: int| 0 <= k < HIDDEN ==> i16::MIN <= #[trigger] old(self).vals@[k] + net.weight(idx as int, k) <= i16::MAX,
                forall|k: int| 0 <= k < j ==> #[trigger] self.vals@[k] == old(self).vals@[k] + net.weight(idx as int, k),
                forall|k: int| j <= k < HIDDEN ==> #[trigger] self.vals@[k] == old(self).vals@[k],
            decreases HIDDEN - j,
        {
            let w = net.feature_weight(idx, j);
            let v = self.vals[j];
            assert(i16::MIN <= old(self).vals@[j as int] + net.weight(idx as int, j as int) <= i16::MAX);
            self.vals.set(j, v + w);
            j = j + 1;
        }
    }

    /// Incrementally remove a feature (piece removed from a square).
    pub fn remove_feature(&mut self, idx: usize, net: &Network)
        requires
            old(self).wf(),
            net.wf(),
            idx < 768,
            forall|j: int| 0 <= j < HIDDEN ==> i16::MIN <= #[trigger] old(self).vals@[j] - net.weight(idx as int, j) <= i16::MAX,
        ensures
            final(self).wf(),
            forall|j: int| 0 <= j < HIDDEN ==> #[trigger] final(self).vals@[j] == old(self).vals@[j] - net.weight(idx as int, j),
    {
        let mut j: usize = 0;
        while j < HIDDEN
            invariant
                net.wf(),
                idx < 768,
                j <= HIDDEN,
                self.wf(),
                forall|k: int| 0 <= k < HIDDEN ==> i16::MIN <= #[trigger] old(self).vals@[k] - net.weight(idx as int, k) <= i16::MAX,
                forall|k: int| 0 <= k < j ==> #[trigger] self.vals@[k] == old(self).vals@[k] - net.weight(idx as int, k),
                forall|k: int| j <= k < HIDDEN ==> #[trigger] self.vals@[k] == old(self).vals@[k],
            decreases HIDDEN - j,
        {
            let w = net.feature_weight(idx, j);
            let v = self.vals[j];
            assert(i16::MIN <= old(self).vals@[j as int] - net.weight(idx as int, j as int) <= i16::MAX);
            self.vals.set(j, v - w);
            j = j + 1;
        }
    }
}

} // verus!
