//! NNUE evaluation using a (768->1024)x2->1x8 SCReLU network.

pub mod accumulator;
pub mod features;
pub mod network;

use vstd::prelude::*;

use crate::bits::popcount;
use crate::board::{Board, BoardModel};
use crate::color::Color;

use self::accumulator::{accumulated, refresh_fits, Accumulator};
use self::network::{Network, NUM_BUCKETS};

verus! {

/// The output bucket of a position: two pieces fewer than it holds (none
/// below zero), in groups of four.
pub open spec fn bucket_of(m: BoardModel) -> int {
    let n = popcount(m.occupied) as int;
    (if n >= 2 { n - 2 } else { 0 }) / 4
}

/// Compute the output bucket index from material count.
pub fn output_bucket(board: &Board) -> (r: usize)
    ensures
        r == bucket_of(board.view()),
{
    let piece_count = board.occupied().count() as usize;
    let rest = if piece_count >= 2 { piece_count - 2 } else { 0 };
    rest / 4
}

/// The NNUE evaluation of a position from its side to move.
pub open spec fn nnue_evaluation(net: Network, m: BoardModel) -> int {
    let white = accumulated(net, m, Color::White);
    let black = accumulated(net, m, Color::Black);
    if m.side_to_move == Color::White {
        net.forward(white, black, bucket_of(m))
    } else {
        net.forward(black, white, bucket_of(m))
    }
}

/// The positions the network evaluates within its integer ranges: a bucket
/// of its own, accumulators within 16 bits and a forward pass within 32.
pub open spec fn nnue_evaluable(net: Network, m: BoardModel) -> bool {
    let white = accumulated(net, m, Color::White);
    let black = accumulated(net, m, Color::Black);
    &&& bucket_of(m) < NUM_BUCKETS
    &&& refresh_fits(net, m, Color::White)
    &&& refresh_fits(net, m, Color::Black)
    &&& m.side_to_move == Color::White ==> net.forward_fits(white, black, bucket_of(m))
    &&& m.side_to_move == Color::Black ==> net.forward_fits(black, white, bucket_of(m))
}

/// Evaluate the board using NNUE.
///
/// Returns a centipawn score from the side-to-move's perspective
/// (positive = good for the side to move).
pub fn evaluate(board: &Board, net: &Network) -> (r: i32)
    requires
        net.wf(),
        nnue_evaluable(*net, board.view()),
    ensures
        r == nnue_evaluation(*net, board.view()),
{
    let bucket = output_bucket(board);

    let white_acc = Accumulator::refresh(board, Color::White, net);
    let black_acc = Accumulator::refresh(board, Color::Black, net);

    match board.side_to_move() {
        Color::White => net.evaluate(&white_acc, &black_acc, bucket),
        Color::Black => net.evaluate(&black_acc, &white_acc, bucket),
    }
}

} // verus!
