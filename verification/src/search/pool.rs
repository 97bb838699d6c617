//! Lazy SMP thread pool state: the shared transposition table and the thread count.

use vstd::prelude::*;

use crate::board::Board;
use crate::search::control::SearchControl;
use crate::search::forced::{forced, forced_move};
use crate::search::negamax::{
    iterative_deepening, IterationReport, SearchContext, SearchResult, MAX_SEARCH_DEPTH, SCORE_LIMIT,
};
use crate::search::tt::{entry_count, is_pow2, TranspositionTable};

verus! {

/// Lazy SMP thread pool — owns the shared transposition table.
pub struct ThreadPool {
    tt: TranspositionTable,
    num_threads: usize,
}

impl ThreadPool {
    /// The table is well formed and at least one thread searches.
    pub closed spec fn wf(&self) -> bool {
        self.tt.wf() && self.num_threads >= 1
    }

    /// Number of table entries.
    pub closed spec fn tt_size(&self) -> nat {
        self.tt.size()
    }

    /// Number of search threads.
    pub closed spec fn threads(&self) -> usize {
        self.num_threads
    }

    /// Create a new thread pool with `hash_mb` MB transposition table.
    pub fn new(hash_mb: usize) -> (r: ThreadPool)
        requires
            hash_mb * 0x10_0000 <= usize::MAX,
        ensures
            r.wf(),
            r.threads() == 1,
            exists|p: nat|
                #![trigger entry_count(p)]
                is_pow2(p) && p >= hash_mb * 0x10_0000 / 16 && (p == 1 || p / 2 < hash_mb * 0x10_0000 / 16) && r.tt_size() == entry_count(p),
    {
        ThreadPool { tt: TranspositionTable::new(hash_mb), num_threads: 1 }
    }

    /// Set the number of search threads (at least one).
    pub fn set_num_threads(&mut self, n: usize)
        requires
            old(self).wf(),
        ensures
            final(self).wf(),
            final(self).threads() == if n >= 1 { n } else { 1 },
            final(self).tt_size() == old(self).tt_size(),
    {
        self.num_threads = if n >= 1 { n } else { 1 };
    }

    /// Resize the transposition table.
    pub fn resize_tt(&mut self, mb: usize)
        requires
            old(self).wf(),
            mb * 0x10_0000 <= usize::MAX,
        ensures
            final(self).wf(),
            final(self).threads() == old(self).threads(),
            exists|p: nat|
                #![trigger entry_count(p)]
                is_pow2(p) && p >= mb * 0x10_0000 / 16 && (p == 1 || p / 2 < mb * 0x10_0000 / 16) && final(self).tt_size() == entry_count(p),
    {
        self.tt = TranspositionTable::new(mb);
    }

    /// Clear the transposition table.
    pub fn clear_tt(&self)
        requires
            self.wf(),
    {
        self.tt.clear();
    }

    /// The shared transposition table.
    pub fn tt(&self) -> (r: &TranspositionTable)
        requires
            self.wf(),
        ensures
            r.wf(),
    {
        &self.tt
    }

    /// The number of search threads.
    pub fn num_threads(&self) -> (r: usize)
        ensures
            r == self.threads(),
    {
        self.num_threads
    }

    /// Start a new table generation for the next search.
    pub fn new_generation(&self)
        requires
            self.wf(),
    {
        self.tt.new_generation();
    }

    /// Whether a search of `board` starts helper threads: only with more than
    /// one thread and when the position has no forced move (a forced move is
    /// answered at once, without searching).
    pub fn helpers_wanted(&self, board: &Board) -> (r: bool)
        ensures
            r == (self.threads() > 1 && forall|c: int| !#[trigger] forced(board.view(), c)),
    {
        if self.num_threads <= 1 {
            return false;
        }
        forced_move(board).is_none()
    }

    /// Iterative deepening on the calling thread over the positions `history`
    /// played before the root: the search of the pool's main thread, with
    /// the result and the report of each completed iteration, one per depth
    /// from 1 on.
    pub fn search_single(
        &self,
        board: &Board,
        max_depth: u8,
        control: &SearchControl,
        history: &[u64],
    ) -> (r: (SearchResult, Vec<IterationReport>))
        requires
            self.wf(),
        ensures
            r.0.depth <= max_depth,
            r.0.depth <= MAX_SEARCH_DEPTH,
            forall|i: int| 0 <= i < r.1@.len() ==> (#[trigger] r.1@[i]).depth == i + 1,
            forall|i: int| 0 <= i < r.1@.len() ==> -SCORE_LIMIT <= (#[trigger] r.1@[i]).score <= SCORE_LIMIT,
            r.0.pv@.len() >= 1,
            r.0.pv@[0] == r.0.best_move,
            forall|i: int, j: int| 0 <= i < r.1@.len() && 0 <= j < r.1@[i].pv@.len() ==> (#[trigger] r.1@[i].pv@[j]).view() != 0,
            forall|c: int| #[trigger] forced(board.view(), c) ==> r.0.best_move.view() == c && r.0.depth == 0 && r.0.nodes == 0
                && r.1@.len() == 0 && r.0.pv@ == seq![r.0.best_move] && r.0.ponder_move is None,
            (forall|c: int| !#[trigger] forced(board.view(), c)) ==> {
                &&& r.1@.len() == 0 ==> r.0.depth == 0 && r.0.best_move.view() == 0
                &&& r.1@.len() > 0 ==> r.0.depth == r.1@.last().depth && r.0.score == r.1@.last().score
            },
    {
        // A forced move is returned at once, without searching.
        if let Some(mv) = forced_move(board) {
            let result = SearchResult { best_move: mv, ponder_move: None, pv: vec![mv], score: 0, nodes: 0, depth: 0 };
            return (result, Vec::new());
        }
        let mut ctx = SearchContext::new(copy_history(history), 0, board.side_to_move());
        iterative_deepening(board, 1, max_depth, &mut ctx, &self.tt, control)
    }
}

/// The positions of `history` in a vector of their own.
fn copy_history(history: &[u64]) -> (r: Vec<u64>)
    ensures
        r@ == history@,
{
    let mut v: Vec<u64> = Vec::new();
    let mut i: usize = 0;
    while i < history.len()
        invariant
            i <= history@.len(),
            v@ == history@.take(i as int),
        decreases history@.len() - i,
    {
        v.push(history[i]);
        i = i + 1;
        assert(v@ =~= history@.take(i as int));
    }
    assert(history@.take(history@.len() as int) =~= history@);
    v
}

/// Silent helper thread for Lazy SMP — writes to the shared table only.
/// Helper `thread_id` starts at depth `1 + thread_id % 2`, so odd helpers
/// skip depth 1. Returns the number of nodes it visited.
pub fn run_helper(
    thread_id: usize,
    tt: &TranspositionTable,
    board: &Board,
    max_depth: u8,
    control: &SearchControl,
    history: &[u64],
) -> (r: u64)
    requires
        tt.wf(),
{
    let mut ctx = SearchContext::new(copy_history(history), 0, board.side_to_move());
    let start_depth: u8 = 1 + (thread_id % 2) as u8;
    let _ = iterative_deepening(board, start_depth, max_depth, &mut ctx, tt, control);
    ctx.nodes
}

} // verus!
