//! Triangular principal-variation table.

use vstd::prelude::*;

use crate::chess_move::Move;
use crate::search::heuristics::MAX_PLY;

verus! {

/// Triangular PV table for collecting principal variation lines.
///
/// Each row `ply` contains the PV continuation from that ply onward; row
/// `ply` occupies the moves `MAX_PLY * ply ..` of the flat buffer.
pub struct PvTable {
    moves: Vec<Move>,
    len: Vec<usize>,
}

impl PvTable {
    /// The PV line stored at `ply`.
    pub closed spec fn line(&self, ply: int) -> Seq<Move> {
        self.moves@.subrange(MAX_PLY * ply, MAX_PLY * ply + self.len@[ply] as int)
    }

    /// `MAX_PLY` rows of `MAX_PLY` moves, each line no longer than its row.
    pub closed spec fn wf(&self) -> bool {
        &&& self.moves@.len() == MAX_PLY * MAX_PLY
        &&& self.len@.len() == MAX_PLY
        &&& forall|p: int| 0 <= p < MAX_PLY ==> #[trigger] self.len@[p] <= MAX_PLY
    }

    /// No stored line holds the null move.
    pub open spec fn lines_non_null(&self) -> bool {
        forall|p: int, i: int| 0 <= p < MAX_PLY && 0 <= i < self.line(p).len() ==> (#[trigger] self.line(p)[i]).view() != 0
    }

    /// Create a zeroed PV table.
    pub fn new() -> (r: PvTable)
        ensures
            r.wf(),
            r.lines_non_null(),
            forall|p: int| 0 <= p < MAX_PLY ==> #[trigger] r.line(p) == Seq::<Move>::empty(),
    {
        let mut moves: Vec<Move> = Vec::new();
        let mut i: usize = 0;
        while i < MAX_PLY * MAX_PLY
            invariant
                i <= MAX_PLY * MAX_PLY,
                moves@.len() == i,
            decreases MAX_PLY * MAX_PLY - i,
        {
            moves.push(Move::NULL());
            i = i + 1;
        }
        let mut len: Vec<usize> = Vec::new();
        let mut j: usize = 0;
        while j < MAX_PLY
            invariant
                j <= MAX_PLY,
                len@.len() == j,
                forall|p: int| 0 <= p < j ==> #[trigger] len@[p] == 0,
            decreases MAX_PLY - j,
        {
            len.push(0);
            j = j + 1;
        }
        let r = PvTable { moves, len };
        proof {
            assert forall|p: int| 0 <= p < MAX_PLY implies #[trigger] r.line(p) == Seq::<Move>::empty() by {
                assert(r.line(p) =~= Seq::<Move>::empty());
            }
        }
        r
    }

    /// Clear the PV line at `ply` (called at the top of each node).
    pub fn clear_ply(&mut self, ply: usize)
        requires
            old(self).wf(),
        ensures
            final(self).wf(),
            ply < MAX_PLY ==> final(self).line(ply as int) == Seq::<Move>::empty(),
            forall|p: int| 0 <= p < MAX_PLY && p != ply ==> #[trigger] final(self).line(p) == old(self).line(p),
            old(self).lines_non_null() ==> final(self).lines_non_null(),
    {
        let ghost old_self = *self;
        if ply < MAX_PLY {
            self.len.set(ply, 0);
            assert(self.line(ply as int) =~= Seq::<Move>::empty());
            assert forall|p: int| 0 <= p < MAX_PLY && p != ply implies #[trigger] self.line(p) == old_self.line(p) by {
                assert(self.line(p) =~= old_self.line(p));
            }
        }
        proof {
            if old_self.lines_non_null() {
                assert forall|p: int, i: int| 0 <= p < MAX_PLY && 0 <= i < self.line(p).len() implies (#[trigger] self.line(
                    p,
                )[i]).view() != 0 by {
                    assert(self.line(p) == old_self.line(p));
                    assert(old_self.line(p)[i].view() != 0);
                }
            }
        }
    }

    /// Update the PV at `ply`: set `mv` as the best move and copy
    /// the continuation from `ply + 1`.
    ///
    /// After this call, the line at `ply` is `mv` followed by the line at
    /// `ply + 1` (at most `MAX_PLY - 1` moves of it).
    pub fn update(&mut self, ply: usize, mv: Move)
        requires
            old(self).wf(),
        ensures
            final(self).wf(),
            ply < MAX_PLY ==> final(self).line(ply as int) == if ply + 1 < MAX_PLY {
                seq![mv] + old(self).line(ply + 1).take(
                    if old(self).line(ply + 1).len() < MAX_PLY - 1 { old(self).line(ply + 1).len() as int } else { MAX_PLY - 1 },
                )
            } else {
                seq![mv]
            },
            forall|p: int| 0 <= p < MAX_PLY && p != ply ==> #[trigger] final(self).line(p) == old(self).line(p),
            old(self).lines_non_null() && mv.view() != 0 ==> final(self).lines_non_null(),
    {
        if ply >= MAX_PLY {
            return;
        }
        let ghost old_self = *self;
        let base = MAX_PLY * ply;
        self.moves.set(base, mv);
        let child = ply + 1;
        if child < MAX_PLY {
            let child_len = self.len[child];
            let copy_len = if child_len < MAX_PLY - 1 { child_len } else { MAX_PLY - 1 };
            let cbase = MAX_PLY * child;
            let mut i: usize = 0;
            while i < copy_len
                invariant
                    old_self.wf(),
                    self.moves@.len() == MAX_PLY * MAX_PLY,
                    self.len@ == old_self.len@,
                    ply + 1 == child < MAX_PLY,
                    base == MAX_PLY * ply,
                    cbase == MAX_PLY * child,
                    copy_len <= MAX_PLY - 1,
                    copy_len <= old_self.len@[child as int],
                    i <= copy_len,
                    self.moves@[base as int] == mv,
                    forall|k: int| 0 <= k < i ==> #[trigger] self.moves@[base + 1 + k] == old_self.moves@[cbase + k],
                    forall|k: int| 0 <= k < MAX_PLY * MAX_PLY && (k < base || k >= base + MAX_PLY) ==> #[trigger] self.moves@[k] == old_self.moves@[k],
                decreases copy_len - i,
            {
                let m = self.moves[cbase + i];
                self.moves.set(base + 1 + i, m);
                i = i + 1;
            }
            self.len.set(ply, 1 + copy_len);
            proof {
                let l = self.line(ply as int);
                let expect = seq![mv] + old_self.line(child as int).take(copy_len as int);
                assert(l.len() == expect.len());
                assert forall|k: int| 0 <= k < l.len() implies l[k] == expect[k] by {
                    if k > 0 {
                        assert(self.moves@[base + 1 + (k - 1)] == old_self.moves@[cbase + (k - 1)]);
                    }
                }
                assert(l =~= expect);
                assert forall|p: int| 0 <= p < MAX_PLY && p != ply implies #[trigger] self.line(p) == old_self.line(p) by {
                    assert(self.line(p) =~= old_self.line(p));
                }
                if old_self.lines_non_null() && mv.view() != 0 {
                    assert forall|p: int, i: int| 0 <= p < MAX_PLY && 0 <= i < self.line(p).len() implies (#[trigger] self.line(
                        p,
                    )[i]).view() != 0 by {
                        if p == ply && i > 0 {
                            assert(self.line(p)[i] == old_self.line(child as int)[i - 1]);
                            assert(old_self.line(child as int)[i - 1].view() != 0);
                        } else if p != ply {
                            assert(old_self.line(p)[i].view() != 0);
                        }
                    }
                }
            }
        } else {
            self.len.set(ply, 1);
            proof {
                assert(self.line(ply as int) =~= seq![mv]);
                assert forall|p: int| 0 <= p < MAX_PLY && p != ply implies #[trigger] self.line(p) == old_self.line(p) by {
                    assert(self.line(p) =~= old_self.line(p));
                }
                if old_self.lines_non_null() && mv.view() != 0 {
                    assert forall|p: int, i: int| 0 <= p < MAX_PLY && 0 <= i < self.line(p).len() implies (#[trigger] self.line(
                        p,
                    )[i]).view() != 0 by {
                        if p != ply {
                            assert(old_self.line(p)[i].view() != 0);
                        }
                    }
                }
            }
        }
    }

    /// Set a single move as the PV at `ply` (no continuation).
    ///
    /// Used for TT cutoffs at the root.
    pub fn set_single(&mut self, ply: usize, mv: Move)
        requires
            old(self).wf(),
        ensures
            final(self).wf(),
            ply < MAX_PLY ==> final(self).line(ply as int) == seq![mv],
            forall|p: int| 0 <= p < MAX_PLY && p != ply ==> #[trigger] final(self).line(p) == old(self).line(p),
    {
        if ply < MAX_PLY {
            let ghost old_self = *self;
            self.moves.set(MAX_PLY * ply, mv);
            self.len.set(ply, 1);
            proof {
                assert(self.line(ply as int) =~= seq![mv]);
                assert forall|p: int| 0 <= p < MAX_PLY && p != ply implies #[trigger] self.line(p) == old_self.line(p) by {
                    assert(self.line(p) =~= old_self.line(p));
                }
            }
        }
    }

    /// The principal variation from the root.
    pub fn root_pv(&self) -> (r: &[Move])
        requires
            self.wf(),
        ensures
            r@ == self.line(0),
    {
        let n = self.len[0];
        &self.moves.as_slice()[0..n]
    }

    /// Length of the root PV line.
    pub fn root_len(&self) -> (r: usize)
        requires
            self.wf(),
        ensures
            r == self.line(0).len(),
    {
        self.len[0]
    }
}

} // verus!
