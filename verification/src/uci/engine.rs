//! UCI engine state.

use vstd::prelude::*;

use crate::board::Board;
use crate::search::control::SearchControl;
use crate::search::forced::forced;
use crate::search::negamax::{IterationReport, SearchResult, MAX_SEARCH_DEPTH, SCORE_LIMIT};
use crate::search::searcher::Searcher;
use crate::uci::command::start_model;

verus! {

/// The UCI engine, holding current board state and searcher.
pub struct UciEngine {
    board: Board,
    searcher: Searcher,
}

impl UciEngine {
    /// The current position.
    pub closed spec fn position(&self) -> Board {
        self.board
    }

    /// The searcher is well formed.
    pub closed spec fn wf(&self) -> bool {
        self.searcher.wf()
    }

    /// Create a new engine with the starting position.
    pub fn new() -> (r: UciEngine)
        ensures
            r.wf(),
            r.position().view() == start_model(),
    {
        UciEngine { board: Board::starting_position(), searcher: Searcher::new() }
    }

    /// Start a new game: the starting position and a cleared table.
    pub fn new_game(&mut self)
        requires
            old(self).wf(),
        ensures
            final(self).wf(),
            final(self).position().view() == start_model(),
    {
        self.board = Board::starting_position();
        self.searcher.clear_tt();
    }

    /// Set the current position.
    pub fn set_position(&mut self, board: Board)
        requires
            old(self).wf(),
        ensures
            final(self).wf(),
            final(self).position() == board,
    {
        self.board = board;
    }

    /// Search the current position to `max_depth` (at most
    /// [`MAX_SEARCH_DEPTH`]): the result and the report of each completed
    /// iteration, for the `info` and `bestmove` lines.
    pub fn search(&self, max_depth: u8, control: &SearchControl) -> (r: (SearchResult, Vec<IterationReport>))
        requires
            self.wf(),
        ensures
            r.0.depth <= max_depth,
            r.0.depth <= MAX_SEARCH_DEPTH,
            forall|i: int| 0 <= i < r.1@.len() ==> (#[trigger] r.1@[i]).depth == i + 1,
            forall|i: int| 0 <= i < r.1@.len() ==> -SCORE_LIMIT <= (#[trigger] r.1@[i]).score <= SCORE_LIMIT,
            r.0.pv@.len() >= 1,
            r.0.pv@[0] == r.0.best_move,
            forall|i: int, j: int| 0 <= i < r.1@.len() && 0 <= j < r.1@[i].pv@.len() ==> (#[trigger] r.1@[i].pv@[j]).view() != 0,
            forall|c: int| #[trigger] forced(self.position().view(), c) ==> r.0.best_move.view() == c && r.0.depth == 0
                && r.0.nodes == 0 && r.1@.len() == 0 && r.0.pv@ == seq![r.0.best_move] && r.0.ponder_move is None,
            (forall|c: int| !#[trigger] forced(self.position().view(), c)) ==> {
                &&& r.1@.len() == 0 ==> r.0.depth == 0 && r.0.best_move.view() == 0
                &&& r.1@.len() > 0 ==> r.0.depth == r.1@.last().depth && r.0.score == r.1@.last().score
            },
    {
        self.searcher.search(&self.board, max_depth, control)
    }

    /// The current position.
    pub fn board(&self) -> (r: &Board)
        ensures
            *r == self.position(),
    {
        &self.board
    }
}

} // verus!
