//! The searcher's persistent state: its transposition table.

use vstd::prelude::*;

use crate::board::Board;
use crate::search::control::SearchControl;
use crate::search::forced::{forced, forced_move};
use crate::search::negamax::{
    iterative_deepening, IterationReport, SearchContext, SearchResult, MAX_SEARCH_DEPTH, SCORE_LIMIT,
};
use crate::search::tt::{entry_count, is_pow2, TranspositionTable};

verus! {

/// Iterative-deepening searcher state: the transposition table kept between searches.
pub struct Searcher {
    tt: TranspositionTable,
}

impl Searcher {
    /// The table is well formed.
    pub closed spec fn wf(&self) -> bool {
        self.tt.wf()
    }

    /// Number of table entries.
    pub closed spec fn tt_size(&self) -> nat {
        self.tt.size()
    }

    /// Create a fresh searcher with a 16 MB transposition table.
    pub fn new() -> (r: Searcher)
        ensures
            r.wf(),
            exists|p: nat|
                #![trigger entry_count(p)]
                is_pow2(p) && p >= 16 * 0x10_0000 / 16 && (p == 1 || p / 2 < 16 * 0x10_0000 / 16) && r.tt_size() == entry_count(p),
    {
        Searcher { tt: TranspositionTable::new(16) }
    }

    /// Clear the transposition table (preserving the allocation).
    pub fn clear_tt(&self)
        requires
            self.wf(),
    {
        self.tt.clear();
    }

    /// Run iterative-deepening search up to `max_depth` (at most
    /// [`MAX_SEARCH_DEPTH`]) from a fresh search context, in a new table
    /// generation. Returns the result with the report of each completed
    /// iteration, one per depth from 1 on.
    pub fn search(&self, board: &Board, max_depth: u8, control: &SearchControl) -> (r: (SearchResult, Vec<IterationReport>))
        requires
            self.wf(),
        ensures
            r.0.depth <= max_depth,
            r.0.depth <= MAX_SEARCH_DEPTH,
            forall|i: int| 0 <= i < r.1@.len() ==> (#[trigger] r.1@[i]).depth == i + 1,
            forall|i: int| 0 <= i < r.1@.len() ==> -SCORE_LIMIT <= (#[trigger] r.1@[i]).score <= SCORE_LIMIT,
            r.0.pv@.len() >= 1,
            r.0.pv@[0] == r.0.best_move,
            forall|i: int, j: int| 0 <= i < r.1@.len() && 0 <= j < r.1@[i].pv@.len() ==> (#[trigger] r.1@[i].pv@[j]).view() != 0,
            forall|c: int| #[trigger] forced(board.view(), c) ==> r.0.best_move.view() == c && r.0.depth == 0 && r.0.nodes == 0
                && r.1@.len() == 0 && r.0.pv@ == seq![r.0.best_move] && r.0.ponder_move is None,
            (forall|c: int| !#[trigger] forced(board.view(), c)) ==> {
                &&& r.1@.len() == 0 ==> r.0.depth == 0 && r.0.best_move.view() == 0
                &&& r.1@.len() > 0 ==> r.0.depth == r.1@.last().depth && r.0.score == r.1@.last().score
            },
    {
        self.tt.new_generation();
        // A forced move is returned at once, without searching.
        if let Some(mv) = forced_move(board) {
            let result = SearchResult { best_move: mv, ponder_move: None, pv: vec![mv], score: 0, nodes: 0, depth: 0 };
            return (result, Vec::new());
        }
        let mut ctx = SearchContext::new(Vec::new(), 0, board.side_to_move());
        iterative_deepening(board, 1, max_depth, &mut ctx, &self.tt, control)
    }

    /// Resize the transposition table to the given size in megabytes.
    pub fn resize_tt(&mut self, mb: usize)
        requires
            mb * 0x10_0000 <= usize::MAX,
        ensures
            final(self).wf(),
            exists|p: nat|
                #![trigger entry_count(p)]
                is_pow2(p) && p >= mb * 0x10_0000 / 16 && (p == 1 || p / 2 < mb * 0x10_0000 / 16) && final(self).tt_size() == entry_count(p),
    {
        self.tt = TranspositionTable::new(mb);
    }
}

} // verus!
