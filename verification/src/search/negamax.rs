//! Negamax alpha-beta search with quiescence, PVS, LMR, and advanced pruning.

use vstd::prelude::*;

use crate::board::Board;
use crate::chess_move::{Move, MoveKind};
use crate::color::Color;
use crate::eval::{can_evaluate, evaluable, evaluate, evaluation_of};
use crate::board::BoardModel;
use crate::movegen::{generate_legal_moves, lemma_null_not_legal, listed, no_legal_move};
use crate::piece_kind::PieceKind;
use crate::search::control::SearchControl;
use crate::search::heuristics::{
    div_toward_zero, lemma_cont_fits, update_cont_history, ContHistIndex, ContinuationHistory, CorrectionHistory, HistoryTable,
    KillerTable, StackEntry, HISTORY_MAX, MAX_PLY,
};
use crate::search::ordering::{first_max, lemma_first_max, lmr_reduction, mover, qsearch_score, staged_fits, MovePicker};
use crate::search::pv::PvTable;
use crate::search::qs_log::{
    extends, lemma_extends_push, lemma_extends_trans, lemma_logged_grow, lemma_logged_push, lemma_qs_complete, lemma_qs_searched,
    qs_logged, qs_searched, qs_stopped, QsEntry,
};
use crate::search::see::see_ge;
use crate::search::tt::{probe_result, Bound, TranspositionTable, TtProbeResult};
use crate::square::Square;

verus! {

/// Score representing an unreachable upper/lower bound.
pub const INF: i32 = 30_000;

/// Base score for checkmate (adjusted by ply for mate distance).
pub const MATE_SCORE: i32 = 29_000;

/// Scores above this threshold indicate a forced mate.
pub const MATE_THRESHOLD: i32 = 28_000;

/// The widest search window: every score a search returns lies within it.
pub const SCORE_LIMIT: i32 = 40_000;

/// Maximum depth for futility pruning.
const FUTILITY_DEPTH: u8 = 3;

/// Forward futility margins indexed by depth.
const FUTILITY_MARGIN: [i32; 4] = [0, 200, 450, 700];

/// Reverse futility pruning margins indexed by depth.
const RFP_MARGIN: [i32; 4] = [0, 200, 450, 700];

/// Maximum depth for Late Move Pruning.
const LMP_MAX_DEPTH: u8 = 4;

/// Move count threshold for LMP by depth (formula: 3 + d*d).
const LMP_THRESHOLD: [usize; 5] = [0, 4, 7, 12, 19];

/// ProbCut threshold margin above beta.
const PROBCUT_MARGIN: i32 = 344;

/// Razoring margins indexed by depth (depth <= 3).
const RAZOR_MARGIN: [i32; 4] = [0, 300, 550, 900];

/// History pruning threshold: prune if hist < -(HISTORY_PRUNE_MARGIN * depth).
const HISTORY_PRUNE_MARGIN: i32 = 2711;

/// Minimum depth for singular extension.
const SE_DEPTH: u8 = 8;

/// Double extension threshold (singular_score < singular_beta - SE_DOUBLE_MARGIN).
const SE_DOUBLE_MARGIN: i32 = 23;

/// Depth threshold above which NMP verification is required.
const NMP_VERIFY_DEPTH: u8 = 12;

/// Maximum cumulative double extensions allowed per search path.
pub const MAX_DOUBLE_EXTENSIONS: u8 = 16;

/// Parameters passed to each negamax call beyond alpha/beta.
#[derive(Clone, Copy)]
pub struct NodeParams {
    pub depth: u8,
    pub ply: u8,
    pub do_null: bool,
    pub excluded: Move,
    pub cutnode: bool,
    pub double_extensions: u8,
}

impl NodeParams {
    /// The depth stays within eight bits along every path: what the remaining
    /// plies and double extensions can add to it fits.
    pub open spec fn fits(self) -> bool {
        &&& self.ply <= MAX_PLY
        &&& self.double_extensions <= MAX_DOUBLE_EXTENSIONS
        &&& self.depth + (MAX_PLY - self.ply) + 2 * (MAX_DOUBLE_EXTENSIONS - self.double_extensions) <= 255
    }
}

/// Search state threaded through negamax calls.
pub struct SearchContext {
    /// Total nodes visited.
    pub nodes: u64,
    /// Principal variation table.
    pub pv: PvTable,
    /// Killer move table.
    pub killers: KillerTable,
    /// History heuristic table.
    pub history_table: HistoryTable,
    /// Continuation history table.
    pub cont_history: ContinuationHistory,
    /// Correction history for static eval adjustment.
    pub correction_history: CorrectionHistory,
    /// Per-ply search stack.
    pub stack: Vec<StackEntry>,
    /// Zobrist hashes of positions visited before this node (for repetition detection).
    pub history: Vec<u64>,
    /// Contempt factor in centipawns — biases draw evaluation.
    pub contempt: i32,
    /// The color the engine is playing (for contempt sign).
    pub engine_color: Color,
    /// The record quiescence search keeps of the moves it searched.
    pub qs_log: Ghost<Seq<QsEntry>>,
}

impl SearchContext {
    /// The tables are well formed, the stack has one entry per ply, and the
    /// contempt is a score.
    pub open spec fn wf(&self) -> bool {
        &&& self.pv.wf()
        &&& self.pv.lines_non_null()
        &&& self.killers.wf()
        &&& self.history_table.wf()
        &&& self.cont_history.wf()
        &&& self.cont_history.bounded()
        &&& self.correction_history.wf()
        &&& self.stack@.len() == MAX_PLY
        &&& -INF <= self.contempt <= INF
    }

    /// A fresh context over the positions `history` played before the root.
    pub fn new(history: Vec<u64>, contempt: i32, engine_color: Color) -> (r: SearchContext)
        requires
            -INF <= contempt <= INF,
        ensures
            r.wf(),
            r.nodes == 0,
            r.history@ == history@,
            r.contempt == contempt,
            r.engine_color == engine_color,
    {
        let mut stack: Vec<StackEntry> = Vec::new();
        let mut i: usize = 0;
        while i < MAX_PLY
            invariant
                i <= MAX_PLY,
                stack@.len() == i,
            decreases MAX_PLY - i,
        {
            stack.push(StackEntry::EMPTY());
            i = i + 1;
        }
        SearchContext {
            nodes: 0,
            pv: PvTable::new(),
            killers: KillerTable::new(),
            history_table: HistoryTable::new(),
            cont_history: ContinuationHistory::new(),
            correction_history: CorrectionHistory::new(),
            stack,
            history,
            contempt,
            engine_color,
            qs_log: Ghost(Seq::empty()),
        }
    }

    /// Contempt-aware draw score for negamax.
    ///
    /// When the engine is to move, a draw scores `-contempt` (bad when
    /// contempt > 0). When the opponent is to move, it scores `+contempt`.
    pub fn draw_score(&self, board: &Board) -> (r: i32)
        requires
            self.wf(),
        ensures
            r == if board.view().side_to_move == self.engine_color { -self.contempt } else { self.contempt as int },
    {
        if board.side_to_move() == self.engine_color {
            -self.contempt
        } else {
            self.contempt
        }
    }
}

/// The draw score of `ctx` for the side to move of `m`: the contempt against
/// the engine when it is to move, for it otherwise.
pub open spec fn draw_value(ctx: SearchContext, m: BoardModel) -> int {
    if m.side_to_move == ctx.engine_color { -ctx.contempt } else { ctx.contempt as int }
}

/// The position `hash` occurs among the last `hmc` entries of `history`.
pub open spec fn repeated(history: Seq<u64>, hash: u64, hmc: int) -> bool {
    let lookback = if hmc < history.len() { hmc } else { history.len() as int };
    exists|i: int| history.len() - lookback <= i < history.len() && #[trigger] history[i] == hash
}

/// The score a node ends with before it searches, once the stop controls
/// have answered `stopped`: 0 when stopped, the draw score under the
/// fifty-move rule or (below the root) on a repetition within the moves
/// since the last capture or pawn move, and nothing otherwise.
#[verifier::spinoff_prover]
pub fn node_terminal(board: &Board, ply: u8, stopped: bool, ctx: &SearchContext) -> (r: Option<i32>)
    requires
        ctx.wf(),
    ensures
        r == if stopped {
            Some(0i32)
        } else if board.view().halfmove_clock >= 100 {
            Some(draw_value(*ctx, board.view()) as i32)
        } else if ply > 0 && repeated(ctx.history@, board.view().hash, board.view().halfmove_clock as int) {
            Some(draw_value(*ctx, board.view()) as i32)
        } else {
            None
        },
{
    if stopped {
        return Some(0);
    }
    // Fifty-move rule draw
    if board.halfmove_clock() >= 100 {
        return Some(ctx.draw_score(board));
    }
    // Repetition detection (twofold repetition = draw in search)
    if ply > 0 {
        let hash = board.hash();
        let hmc = board.halfmove_clock() as usize;
        let len = ctx.history.len();
        let lookback = if hmc < len { hmc } else { len };
        let mut i = len;
        while i > len - lookback
            invariant
                ctx.wf(),
                !stopped,
                ply > 0,
                board.view().halfmove_clock < 100,
                hash == board.view().hash,
                hmc == board.view().halfmove_clock,
                len == ctx.history@.len(),
                lookback <= len,
                lookback == if (hmc as int) < len { hmc as int } else { len as int },
                len - lookback <= i <= len,
                forall|j: int| i <= j < len ==> #[trigger] ctx.history@[j] != hash,
            decreases i,
        {
            i = i - 1;
            if ctx.history[i] == hash {
                proof {
                    assert(ctx.history@[i as int] == hash);
                    assert(repeated(ctx.history@, board.view().hash, board.view().halfmove_clock as int));
                }
                return Some(ctx.draw_score(board));
            }
        }
        proof {
            assert(!repeated(ctx.history@, board.view().hash, board.view().halfmove_clock as int));
        }
    }
    None
}

/// The score of a node without a legal move: mated when in check, a draw otherwise.
pub fn no_move_score(board: &Board, ply: u8, in_check: bool, ctx: &SearchContext) -> (r: i32)
    requires
        ctx.wf(),
    ensures
        r == if in_check { -(MATE_SCORE - ply) } else { draw_value(*ctx, board.view()) },
{
    if in_check {
        -(MATE_SCORE - ply as i32)
    } else {
        ctx.draw_score(board)
    }
}

/// Check if the side to move has any non-pawn, non-king material.
pub fn has_non_pawn_material(board: &Board) -> (r: bool)
    ensures
        r == ({
            let m = board.view();
            let ours = m.sides[m.side_to_move.idx()];
            m.pieces[1] & ours != 0 || m.pieces[2] & ours != 0 || m.pieces[3] & ours != 0 || m.pieces[4] & ours != 0
        }),
{
    let us = board.side_to_move();
    let our_pieces = board.side(us);
    (board.pieces(PieceKind::Knight).inner() & our_pieces.inner()) != 0
        || (board.pieces(PieceKind::Bishop).inner() & our_pieces.inner()) != 0
        || (board.pieces(PieceKind::Rook).inner() & our_pieces.inner()) != 0
        || (board.pieces(PieceKind::Queen).inner() & our_pieces.inner()) != 0
}

/// Quiescence search — resolve tactical sequences before evaluating.
///
/// Only considers captures and promotions (via [`MovePicker::new_qsearch`])
/// to avoid the horizon effect. A position that the evaluation cannot handle
/// (a missing king, a pawn on its last rank) scores 0.
#[verifier::spinoff_prover]
#[verifier::rlimit(50)]
pub fn qsearch(
    board: &Board,
    ply: u8,
    alpha: i32,
    beta: i32,
    ctx: &mut SearchContext,
    control: &SearchControl,
) -> (r: i32)
    requires
        old(ctx).wf(),
        ply <= MAX_PLY,
        -SCORE_LIMIT <= alpha < beta <= SCORE_LIMIT,
    ensures
        final(ctx).wf(),
        final(ctx).history@ == old(ctx).history@,
        final(ctx).contempt == old(ctx).contempt,
        final(ctx).engine_color == old(ctx).engine_color,
        -SCORE_LIMIT <= r <= SCORE_LIMIT,
        !evaluable(board.view()) ==> r == 0,
        extends(final(ctx).qs_log@, old(ctx).qs_log@),
        evaluable(board.view()) && ply < MAX_PLY && board.view().halfmove_clock < 100 && r < beta && !qs_stopped(
            final(ctx).qs_log@,
            old(ctx).qs_log@.len() as int,
            board.view(),
            ply as int,
        ) ==> forall|mv: Move| #[trigger] qs_searched(board.view(), mv) ==> qs_logged(
            final(ctx).qs_log@,
            old(ctx).qs_log@.len() as int,
            board.view(),
            ply as int,
            mv.view() as int,
            r as int,
        ),
    decreases MAX_PLY - ply, 0int, 0int,
{
    let ghost m = board.view();
    let ghost from = ctx.qs_log@.len() as int;
    let mut alpha = alpha;
    ctx.nodes = ctx.nodes.wrapping_add(1);
    proof {
        assert(ctx.qs_log@.subrange(0, from) =~= ctx.qs_log@);
    }

    // Check stop condition (time limit, node limit, etc.)
    if control.should_stop(ctx.nodes) {
        let ghost before = ctx.qs_log@;
        ctx.qs_log = Ghost(ctx.qs_log@.push((m, ply as int, -1int, 0int)));
        proof {
            lemma_extends_push(before, (m, ply as int, -1int, 0int));
            assert(ctx.qs_log@[from] == (m, ply as int, -1int, 0int));
        }
        return 0;
    }
    if !can_evaluate(board) {
        return 0;
    }

    // Ply ceiling to prevent runaway recursion
    if ply as usize >= MAX_PLY {
        return evaluate(board);
    }

    // Fifty-move rule draw
    if board.halfmove_clock() >= 100 {
        return ctx.draw_score(board);
    }

    // Stand-pat: the side to move can choose not to capture
    let stand_pat = evaluate(board);
    if stand_pat >= beta {
        return stand_pat;
    }
    if stand_pat > alpha {
        alpha = stand_pat;
    }

    let moves = generate_legal_moves(board);
    let mut picker = MovePicker::new_qsearch(&moves, board);
    proof {
        picker.lemma_cursor_in_range();
    }
    loop
        invariant
            ctx.wf(),
            ctx.history@ == old(ctx).history@,
            ctx.contempt == old(ctx).contempt,
            ctx.engine_color == old(ctx).engine_color,
            picker.wf(),
            ply < MAX_PLY,
            evaluable(board.view()),
            -SCORE_LIMIT <= alpha < beta <= SCORE_LIMIT,
            m == board.view(),
            from == old(ctx).qs_log@.len(),
            extends(ctx.qs_log@, old(ctx).qs_log@),
            picker.min_score_view() == 1,
            forall|i: int| 0 <= i < picker.scores_view().len() ==> #[trigger] picker.scores_view()[i] == qsearch_score(
                m,
                picker.moves_view()[i],
            ),
            picker.moves_view().to_multiset() == moves@.to_multiset(),
            forall|j: int| 0 <= j < picker.cursor_view() && #[trigger] qs_searched(m, picker.moves_view()[j]) ==> qs_logged(
                ctx.qs_log@,
                from,
                m,
                ply as int,
                picker.moves_view()[j].view() as int,
                alpha as int,
            ),
        ensures
            forall|j: int| picker.cursor_view() <= j < picker.scores_view().len() ==> #[trigger] picker.scores_view()[j] < 1,
        decreases picker.moves_view().len() - picker.cursor_view(),
    {
        proof {
            picker.lemma_cursor_in_range();
        }
        let ghost before = picker;
        let next = picker.pick_next();
        let mv = match next {
            Some(mv) => mv,
            None => {
                proof {
                    let c = before.cursor_view();
                    let n = before.moves_view().len() as int;
                    picker.lemma_cursor_in_range();
                    if c < n {
                        lemma_first_max(before.scores_view(), c, n);
                    }
                }
                break;
            },
        };
        assert(picker.cursor_view() == before.cursor_view() + 1);
        assert(picker.moves_view().len() == before.moves_view().len());
        let ghost c = before.cursor_view();
        proof {
            picker.lemma_cursor_in_range();
            let b = first_max(before.scores_view(), c, before.moves_view().len() as int);
            lemma_first_max(before.scores_view(), c, before.moves_view().len() as int);
            assert(picker.moves_view()[c] == mv);
            assert forall|i: int| 0 <= i < picker.scores_view().len() implies #[trigger] picker.scores_view()[i]
                == qsearch_score(m, picker.moves_view()[i]) by {
                if i == c {
                    assert(before.scores_view()[b] == qsearch_score(m, before.moves_view()[b]));
                } else if i == b {
                    assert(before.scores_view()[c] == qsearch_score(m, before.moves_view()[c]));
                } else {
                    assert(before.scores_view()[i] == qsearch_score(m, before.moves_view()[i]));
                }
            }
            assert forall|j: int| 0 <= j < c && #[trigger] qs_searched(m, picker.moves_view()[j]) implies qs_logged(
                ctx.qs_log@,
                from,
                m,
                ply as int,
                picker.moves_view()[j].view() as int,
                alpha as int,
            ) by {
                assert(picker.moves_view()[j] == before.moves_view()[j]);
            }
            lemma_qs_searched(m, mv);
        }
        // Skip captures with negative SEE (losing exchanges), but never skip promotions.
        if mv.kind() != MoveKind::Promotion && !see_ge(board, mv, 0) {
            continue;
        }
        if !board.move_defined(mv) {
            continue;
        }

        let ghost log0 = ctx.qs_log@;
        let ghost alpha0 = alpha;
        let child = board.make_move(mv);
        let score = -qsearch(&child, ply + 1, -beta, -alpha, ctx, control);
        let ghost log1 = ctx.qs_log@;
        ctx.qs_log = Ghost(ctx.qs_log@.push((m, ply as int, mv.view() as int, -score as int)));

        if score >= beta {
            proof {
                lemma_extends_trans(old(ctx).qs_log@, log0, log1);
                lemma_extends_push(log1, (m, ply as int, mv.view() as int, -score as int));
                lemma_extends_trans(old(ctx).qs_log@, log1, ctx.qs_log@);
            }
            return score;
        }
        if score > alpha {
            alpha = score;
        }
        proof {
            lemma_extends_trans(old(ctx).qs_log@, log0, log1);
            lemma_extends_push(log1, (m, ply as int, mv.view() as int, -score as int));
            lemma_extends_trans(old(ctx).qs_log@, log1, ctx.qs_log@);
            lemma_extends_trans(log0, log1, ctx.qs_log@);
            lemma_logged_push(log1, from, m, ply as int, mv.view() as int, -score as int, alpha as int);
            assert forall|j: int| 0 <= j < picker.cursor_view() && #[trigger] qs_searched(m, picker.moves_view()[j]) implies qs_logged(
                ctx.qs_log@,
                from,
                m,
                ply as int,
                picker.moves_view()[j].view() as int,
                alpha as int,
            ) by {
                if j < c {
                    lemma_logged_grow(log0, ctx.qs_log@, from, m, ply as int, picker.moves_view()[j].view() as int, alpha0 as int, alpha as int);
                }
            }
        }
    }
    proof {
        picker.lemma_cursor_in_range();
        lemma_qs_complete(m, ply as int, ctx.qs_log@, from, moves@, picker.moves_view(), picker.scores_view(), picker.cursor_view() as int, alpha as int);
    }

    alpha
}

/// A probed score lies within 16 bits once moved back from the ply, and the
/// probed evaluation within 16 bits.
proof fn lemma_probe_bounds(e: TtProbeResult, hash: u64, ply: u8)
    requires
        ply < MAX_PLY,
        exists|w0: u64, w1: u64| #[trigger] probe_result(hash, ply as int, w0, w1)
            == Some((e.best_move.view() as u64, e.depth as u64, e.bound, e.is_pv, e.score as int, e.eval as int)),
    ensures
        -32768 <= e.score <= 32768,
        -32768 <= e.eval <= 32767,
{
    let (w0, w1) = choose|w0: u64, w1: u64| #[trigger] probe_result(hash, ply as int, w0, w1)
        == Some((e.best_move.view() as u64, e.depth as u64, e.bound, e.is_pv, e.score as int, e.eval as int));
    assert(probe_result(hash, ply as int, w0, w1) is Some);
}


/// Pushing a position and popping it again leaves the history as it was.
proof fn lemma_push_pop(h: Seq<u64>, x: u64)
    ensures
        h.push(x).drop_last() == h,
{
    assert(h.push(x).drop_last() =~= h);
}

/// What a search call keeps of its context: well-formed tables, the
/// position history as it found it, the contempt and the engine's color.
pub open spec fn keeps(after: SearchContext, before: SearchContext) -> bool {
    &&& after.wf()
    &&& after.history@ == before.history@
    &&& after.contempt == before.contempt
    &&& after.engine_color == before.engine_color
}

/// Whether a non-first move is pruned without being searched: forward
/// futility, history, static exchange and late-move pruning.
fn skip_move(
    board: &Board,
    mv: Move,
    ctx: &SearchContext,
    depth: u8,
    in_check: bool,
    is_tactical: bool,
    moved_piece: PieceKind,
    static_eval: i32,
    alpha: i32,
    improving: bool,
    move_count: usize,
    best_score: i32,
) -> bool
    requires
        ctx.wf(),
        1 <= depth,
        -34_000 <= static_eval <= 34_000,
        -SCORE_LIMIT <= alpha <= SCORE_LIMIT,
        -SCORE_LIMIT <= best_score <= SCORE_LIMIT,
{
    // Forward Futility Pruning
    if !in_check && depth <= FUTILITY_DEPTH && !is_tactical && -MATE_THRESHOLD < alpha && alpha < MATE_THRESHOLD {
        let margin = FUTILITY_MARGIN[depth as usize] - if improving { 0 } else { 50 };
        if static_eval + margin <= alpha {
            return true;
        }
    }

    // History pruning
    if !in_check && !is_tactical && depth <= 5 {
        let hist = ctx.history_table.score(moved_piece, mv.dest().index());
        if hist < -(HISTORY_PRUNE_MARGIN * depth as i32) {
            return true;
        }
    }

    // SEE pruning
    if depth <= 5 && mv.kind() != MoveKind::Promotion {
        let d = depth as i32;
        assert(27 * d * d <= 675) by (nonlinear_arith)
            requires
                0 <= d <= 5,
        ;
        if is_tactical {
            if !see_ge(board, mv, -(27 * d * d)) {
                return true;
            }
        } else if !in_check && !see_ge(board, mv, -(59 * d)) {
            return true;
        }
    }

    // Late Move Pruning
    let capped = if depth < LMP_MAX_DEPTH { depth } else { LMP_MAX_DEPTH };
    let lmp_threshold = if improving {
        LMP_THRESHOLD[capped as usize]
    } else {
        LMP_THRESHOLD[capped as usize] / 2
    };
    !in_check && depth <= LMP_MAX_DEPTH && move_count >= lmp_threshold && !is_tactical && best_score > -MATE_THRESHOLD
}

/// Reward a quiet move that caused a cutoff in the history, killer and
/// continuation tables, and penalise the quiet moves searched before it.
fn reward_cutoff(
    board: &Board,
    ctx: &mut SearchContext,
    searched_quiets: &Vec<Move>,
    p: usize,
    mv: Move,
    moved_piece: PieceKind,
    depth: u8,
)
    requires
        old(ctx).wf(),
        p < MAX_PLY,
    ensures
        keeps(*final(ctx), *old(ctx)),
{
    ctx.killers.store(p, mv);
    let d = depth as i32;
    assert(0 <= d * d <= 65025) by (nonlinear_arith)
        requires
            0 <= d <= 255,
    ;
    let bonus = if d * d > HISTORY_MAX { HISTORY_MAX } else { d * d };

    // Reward cutoff move
    ctx.history_table.update(moved_piece, mv.dest().index(), bonus);
    update_cont_history(&mut ctx.cont_history, ctx.stack.as_slice(), p, moved_piece, mv.dest().index(), bonus);

    // Penalise all previously searched quiets
    let n = if searched_quiets.len() > 0 { searched_quiets.len() - 1 } else { 0 };
    let mut i: usize = 0;
    while i < n
        invariant
            keeps(*ctx, *old(ctx)),
            n <= searched_quiets@.len(),
            p < MAX_PLY,
            0 <= bonus <= HISTORY_MAX,
        decreases n - i,
    {
        let bad_mv = searched_quiets[i];
        if let Some(bad_piece) = board.piece_on(bad_mv.source()) {
            ctx.history_table.update(bad_piece, bad_mv.dest().index(), -bonus);
            update_cont_history(&mut ctx.cont_history, ctx.stack.as_slice(), p, bad_piece, bad_mv.dest().index(), -bonus);
        }
        i = i + 1;
    }
}

/// ProbCut: a tactical move whose exchange clears `beta` by a margin and
/// whose reduced search confirms it cuts the node off.
#[verifier::spinoff_prover]
fn probcut(
    board: &Board,
    beta: i32,
    params: NodeParams,
    depth: u8,
    static_eval: i32,
    raw_eval: i32,
    ctx: &mut SearchContext,
    tt: &TranspositionTable,
    control: &SearchControl,
) -> (r: Option<i32>)
    requires
        old(ctx).wf(),
        tt.wf(),
        params.fits(),
        params.ply < MAX_PLY,
        7 <= depth <= params.depth,
        -MATE_THRESHOLD < beta < MATE_THRESHOLD,
        -34_000 <= static_eval <= 34_000,
        -34_000 <= raw_eval <= 34_000,
        evaluable(board.view()),
    ensures
        keeps(*final(ctx), *old(ctx)),
        r matches Some(s) ==> -SCORE_LIMIT <= s <= SCORE_LIMIT,
    decreases MAX_PLY - params.ply, params.depth, 1int,
{
    let ply = params.ply;
    let probcut_beta = beta + PROBCUT_MARGIN;
    let moves = generate_legal_moves(board);
    let mut i: usize = 0;
    while i < moves.len()
        invariant
            keeps(*ctx, *old(ctx)),
            tt.wf(),
            params.fits(),
            ply == params.ply,
            ply < MAX_PLY,
            7 <= depth <= params.depth,
            -MATE_THRESHOLD < beta < MATE_THRESHOLD,
            probcut_beta == beta + PROBCUT_MARGIN,
            -34_000 <= static_eval <= 34_000,
            -34_000 <= raw_eval <= 34_000,
        decreases moves@.len() - i,
    {
        let mv = moves.get(i);
        i = i + 1;
        let is_tactical = board.piece_on(mv.dest()).is_some() || mv.kind() == MoveKind::EnPassant || mv.kind()
            == MoveKind::Promotion;
        if !is_tactical || !see_ge(board, mv, probcut_beta - static_eval) {
            continue;
        }
        if !board.move_defined(mv) {
            continue;
        }

        let child = board.make_move(mv);
        let ghost pushed_from = ctx.history@;
        ctx.history.push(board.hash());

        // qsearch to verify
        let mut score = -qsearch(&child, ply + 1, -probcut_beta, -probcut_beta + 1, ctx, control);

        if score >= probcut_beta {
            // Verify with reduced negamax
            score = -negamax(
                &child,
                -probcut_beta,
                -probcut_beta + 1,
                NodeParams {
                    depth: depth - 5,
                    ply: ply + 1,
                    do_null: true,
                    excluded: Move::NULL(),
                    cutnode: !params.cutnode,
                    double_extensions: params.double_extensions,
                },
                ctx,
                tt,
                control,
            );
        }

        ctx.history.pop();
        proof {
            lemma_push_pop(pushed_from, board.view().hash);
        }

        if score >= probcut_beta {
            tt.store(board.hash(), depth - 3, score, raw_eval, mv, Bound::LowerBound, ply, false);
            return Some(score);
        }
    }
    None
}

/// The pruning a node tries before its moves: razoring, reverse futility,
/// null-move pruning (verified at high depths) and ProbCut. `Some` is the
/// node's score when one of them cuts it off.
#[verifier::spinoff_prover]
#[verifier::rlimit(40)]
fn prune_before_moves(
    board: &Board,
    alpha: i32,
    beta: i32,
    params: NodeParams,
    depth: u8,
    in_check: bool,
    improving: bool,
    static_eval: i32,
    raw_eval: i32,
    ctx: &mut SearchContext,
    tt: &TranspositionTable,
    control: &SearchControl,
) -> (r: Option<i32>)
    requires
        old(ctx).wf(),
        tt.wf(),
        params.fits(),
        params.ply < MAX_PLY,
        1 <= depth <= params.depth + 1,
        !in_check ==> depth <= params.depth,
        -SCORE_LIMIT <= alpha < beta <= SCORE_LIMIT,
        -34_000 <= static_eval <= 34_000,
        -34_000 <= raw_eval <= 34_000,
        evaluable(board.view()),
    ensures
        keeps(*final(ctx), *old(ctx)),
        r matches Some(s) ==> -SCORE_LIMIT <= s <= SCORE_LIMIT,
    decreases MAX_PLY - params.ply, params.depth, 2int,
{
    let ply = params.ply;
    let is_pv = alpha + 1 < beta;
    let excluded = params.excluded;

    // Razoring
    if !is_pv && !in_check && depth <= 3 && static_eval + RAZOR_MARGIN[depth as usize] < alpha {
        let razor_score = qsearch(board, ply, alpha, beta, ctx, control);
        if razor_score <= alpha {
            return Some(razor_score);
        }
    }

    // Reverse Futility Pruning
    if !is_pv && !in_check && excluded.is_null() && depth >= 1 && depth <= FUTILITY_DEPTH && -MATE_THRESHOLD < beta
        && beta < MATE_THRESHOLD {
        let margin = RFP_MARGIN[depth as usize] - if improving { 0 } else { 100 };
        if static_eval - margin >= beta {
            return Some(static_eval);
        }
    }

    // Null Move Pruning
    if params.do_null && !is_pv && ply > 0 && excluded.is_null() && depth >= 3 && -MATE_THRESHOLD < beta && beta
        < MATE_THRESHOLD && !in_check && has_non_pawn_material(board) && static_eval >= beta {
        let r: u8 = if depth >= 6 { 3 } else { 2 };
        let null_board = board.make_null_move();
        let ghost pushed_from = ctx.history@;
        ctx.history.push(board.hash());

        // Clear stack entry for null move
        let p = ply as usize;
        let mut entry = ctx.stack[p];
        entry.current_move = Move::NULL();
        entry.cont_hist_index = None;
        ctx.stack.set(p, entry);

        let reduced = depth - 1 - r;
        let null_score = -negamax(
            &null_board,
            -beta,
            -beta + 1,
            NodeParams {
                depth: reduced,
                ply: ply + 1,
                do_null: false,
                excluded: Move::NULL(),
                cutnode: !params.cutnode,
                double_extensions: params.double_extensions,
            },
            ctx,
            tt,
            control,
        );
        ctx.history.pop();
        proof {
            lemma_push_pop(pushed_from, board.view().hash);
        }

        if null_score >= beta {
            // NMP Verification at high depths
            if depth > NMP_VERIFY_DEPTH {
                let verify_score = negamax(
                    board,
                    alpha,
                    beta,
                    NodeParams {
                        depth: reduced,
                        ply,
                        do_null: false,
                        excluded: Move::NULL(),
                        cutnode: false,
                        double_extensions: params.double_extensions,
                    },
                    ctx,
                    tt,
                    control,
                );
                if verify_score >= beta {
                    return Some(beta);
                }
                // Fall through to full search if verification fails
            } else {
                return Some(beta);
            }
        }
    }

    // ProbCut
    if !is_pv && !in_check && depth >= 7 && -MATE_THRESHOLD < beta && beta < MATE_THRESHOLD {
        return probcut(board, beta, params, depth, static_eval, raw_eval, ctx, tt, control);
    }
    None
}

/// The score of a searched move's child by principal variation search:
/// the first move gets the full window, later ones a null window at a depth
/// that late move reduction may cut, re-searched when they beat `alpha`.
#[verifier::spinoff_prover]
#[verifier::rlimit(40)]
fn pvs_child(
    child: &Board,
    alpha: i32,
    beta: i32,
    params: NodeParams,
    depth: u8,
    new_depth: u8,
    child_double_ext: u8,
    move_count: usize,
    mv: Move,
    moved_piece: PieceKind,
    is_tactical: bool,
    is_quiet_move: bool,
    in_check: bool,
    tt_is_pv: bool,
    ctx: &mut SearchContext,
    tt: &TranspositionTable,
    control: &SearchControl,
) -> (r: i32)
    requires
        old(ctx).wf(),
        tt.wf(),
        params.fits(),
        params.ply < MAX_PLY,
        1 <= move_count,
        (NodeParams {
            depth: new_depth,
            ply: (params.ply + 1) as u8,
            do_null: true,
            excluded: params.excluded,
            cutnode: false,
            double_extensions: child_double_ext,
        }).fits(),
        -SCORE_LIMIT <= alpha < beta <= SCORE_LIMIT,
    ensures
        keeps(*final(ctx), *old(ctx)),
        -SCORE_LIMIT <= r <= SCORE_LIMIT,
    decreases MAX_PLY - params.ply, params.depth, 1int,
{
    let ply = params.ply;
    let p = ply as usize;
    let is_pv = alpha + 1 < beta;
    let cutnode = params.cutnode;
    if move_count == 1 {
        // First move: full window, full depth
        return -negamax(
            child,
            -beta,
            -alpha,
            NodeParams {
                depth: new_depth,
                ply: ply + 1,
                do_null: true,
                excluded: Move::NULL(),
                cutnode: false,
                double_extensions: child_double_ext,
            },
            ctx,
            tt,
            control,
        );
    }
    let do_lmr = depth >= 3 && move_count >= 4 && !is_tactical && !in_check;

    let mut searched_depth = new_depth;

    if do_lmr {
        // Base LMR reduction (in 1024ths of a ply)
        let mut r: i64 = lmr_reduction(move_count, depth as usize) as i64;

        // Adjustments (in 1024ths)
        r = r - 372;
        if is_pv {
            r = r - 1062;
        }
        if cutnode {
            r = r + 1303;
        }
        if tt_is_pv {
            r = r - 975;
        }
        let is_killer = ctx.killers.is_killer(p, mv);
        if is_killer {
            r = r - 932;
        }

        // History-based reduction for quiets
        if is_quiet_move {
            let hist = ctx.history_table.score(moved_piece, mv.dest().index());
            // hist ranges -16384..16384, divide by 8 to get adjustment in 1024ths
            r = r - div_toward_zero(hist, 8) as i64;
        }

        // Convert from 1024ths to plies, clamped to at least 1
        let r_plies: u8 = if r <= 0 { 0 } else { ((r as u64) / 1024) as u8 };
        let reduced = if new_depth > r_plies { new_depth - r_plies } else { 0 };
        searched_depth = if reduced < 1 { 1 } else { reduced };
    }

    // Null-window search at (possibly reduced) depth
    let mut sc = -negamax(
        child,
        -alpha - 1,
        -alpha,
        NodeParams {
            depth: searched_depth,
            ply: ply + 1,
            do_null: true,
            excluded: Move::NULL(),
            cutnode: !cutnode,
            double_extensions: child_double_ext,
        },
        ctx,
        tt,
        control,
    );

    // Re-search at full depth if LMR reduced and score beats alpha
    if do_lmr && sc > alpha && searched_depth < new_depth {
        sc = -negamax(
            child,
            -alpha - 1,
            -alpha,
            NodeParams {
                depth: new_depth,
                ply: ply + 1,
                do_null: true,
                excluded: Move::NULL(),
                cutnode: !cutnode,
                double_extensions: child_double_ext,
            },
            ctx,
            tt,
            control,
        );
    }

    // Full window re-search for PV nodes
    if sc > alpha && is_pv {
        sc = -negamax(
            child,
            -beta,
            -alpha,
            NodeParams {
                depth: new_depth,
                ply: ply + 1,
                do_null: true,
                excluded: Move::NULL(),
                cutnode: false,
                double_extensions: child_double_ext,
            },
            ctx,
            tt,
            control,
        );
    }
    sc
}

/// The singular-extension probe: the node searched at half depth without
/// the TT move, against a window just below the TT score.
fn singular_probe(
    board: &Board,
    mv: Move,
    singular_beta: i32,
    params: NodeParams,
    depth: u8,
    ctx: &mut SearchContext,
    tt: &TranspositionTable,
    control: &SearchControl,
) -> (r: i32)
    requires
        old(ctx).wf(),
        tt.wf(),
        params.fits(),
        params.ply < MAX_PLY,
        SE_DEPTH <= depth <= params.depth + 1,
        -SCORE_LIMIT < singular_beta <= SCORE_LIMIT,
    ensures
        keeps(*final(ctx), *old(ctx)),
        -SCORE_LIMIT <= r <= SCORE_LIMIT,
    decreases MAX_PLY - params.ply, params.depth, 1int,
{
    let half = (depth - 1) / 2;
    assert(half < params.depth && half <= depth);
    negamax(
        board,
        singular_beta - 1,
        singular_beta,
        NodeParams {
            depth: half,
            ply: params.ply,
            do_null: false,
            excluded: mv,
            cutnode: params.cutnode,
            double_extensions: params.double_extensions,
        },
        ctx,
        tt,
        control,
    )
}

/// The moves of a node, searched in the picker's order with pruning,
/// extensions and principal variation search; the best score found, stored
/// in the transposition table together with the correction history update.
#[verifier::spinoff_prover]
#[verifier::rlimit(80)]
#[verifier::loop_isolation(false)]
fn search_moves(
    board: &Board,
    alpha: i32,
    beta: i32,
    params: NodeParams,
    depth: u8,
    in_check: bool,
    improving: bool,
    static_eval: i32,
    raw_eval: i32,
    tt_move: Move,
    tt_score: i32,
    tt_depth: u8,
    tt_bound: Bound,
    tt_is_pv: bool,
    prev_piece: Option<PieceKind>,
    prev_dest: Option<Square>,
    ctx: &mut SearchContext,
    tt: &TranspositionTable,
    control: &SearchControl,
) -> (r: i32)
    requires
        old(ctx).wf(),
        tt.wf(),
        params.fits(),
        params.ply < MAX_PLY,
        1 <= depth <= params.depth + 1,
        !in_check ==> depth <= params.depth,
        -SCORE_LIMIT <= alpha < beta <= SCORE_LIMIT,
        -34_000 <= static_eval <= 34_000,
        -34_000 <= raw_eval <= 34_000,
        -32768 <= tt_score <= 32768,
        evaluable(board.view()),
    ensures
        keeps(*final(ctx), *old(ctx)),
        -SCORE_LIMIT <= r <= SCORE_LIMIT,
        no_legal_move(board.view()) ==> r == if in_check {
            -(MATE_SCORE - params.ply)
        } else {
            draw_value(*old(ctx), board.view())
        },
    decreases MAX_PLY - params.ply, params.depth, 2int,
{
    let mut alpha = alpha;
    let ply = params.ply;
    let p = ply as usize;
    let is_pv = alpha + 1 < beta;
    let is_root = ply == 0;
    let excluded = params.excluded;
    let cutnode = params.cutnode;
    let double_extensions = params.double_extensions;

    // Move generation
    let moves = generate_legal_moves(board);

    if moves.is_empty() {
        return no_move_score(board, ply, in_check, ctx);
    }

    let original_alpha = alpha;
    let mut best_score = -INF;
    let mut best_move = Move::NULL();
    proof {
        assert forall|i: int| 0 <= i < moves@.len() implies staged_fits(
            board.view(),
            #[trigger] moves@[i],
            ctx.killers,
            ctx.cont_history,
            ctx.stack@,
            p as int,
        ) by {
            lemma_cont_fits(ctx.cont_history, ctx.stack@, p as int, mover(board.view(), moves@[i]), moves@[i].dst());
        }
    }
    let mut picker = MovePicker::new(
        &moves,
        board,
        tt_move,
        &ctx.killers,
        &ctx.history_table,
        &ctx.cont_history,
        ctx.stack.as_slice(),
        p,
    );
    proof {
        lemma_null_not_legal(board.view());
        assert forall|i: int| 0 <= i < picker.moves_view().len() implies (#[trigger] picker.moves_view()[i]).view() != 0 by {
            assert(listed(moves@, moves@[i].view() as int));
        }
    }
    let mut searched_quiets: Vec<Move> = Vec::new();
    let mut move_count: usize = 0;

    loop
        invariant
            keeps(*ctx, *old(ctx)),
            picker.wf(),
            forall|i: int| 0 <= i < picker.moves_view().len() ==> (#[trigger] picker.moves_view()[i]).view() != 0,
            -SCORE_LIMIT <= alpha < beta,
            -SCORE_LIMIT <= best_score <= SCORE_LIMIT,
            move_count <= picker.cursor_view(),
        decreases picker.moves_view().len() - picker.cursor_view(),
    {
        proof {
            picker.lemma_cursor_in_range();
        }
        let ghost before = picker;
        let next = picker.pick_next();
        let mv = match next {
            Some(mv) => mv,
            None => break,
        };
        assert(picker.cursor_view() == before.cursor_view() + 1);
        proof {
            let c = before.cursor_view();
            let b = first_max(before.scores_view(), c, before.moves_view().len() as int);
            if c < before.moves_view().len() {
                lemma_first_max(before.scores_view(), c, before.moves_view().len() as int);
            }
            assert(mv.view() != 0) by {
                assert(before.moves_view()[b].view() != 0);
            }
            assert forall|i: int| 0 <= i < picker.moves_view().len() implies (#[trigger] picker.moves_view()[i]).view() != 0 by {
                if i == c {
                    assert(before.moves_view()[b].view() != 0);
                } else if i == b {
                    assert(before.moves_view()[c].view() != 0);
                } else {
                    assert(before.moves_view()[i].view() != 0);
                }
            }
        }

        // Skip excluded move (singular extension search)
        if mv == excluded {
            continue;
        }

        let is_tactical = board.piece_on(mv.dest()).is_some() || mv.kind() == MoveKind::EnPassant || mv.kind()
            == MoveKind::Promotion;

        let moved_piece = match board.piece_on(mv.source()) {
            Some(k) => k,
            None => PieceKind::Pawn,
        };

        // Pruning (skip non-first moves in some conditions)
        if move_count > 0 && !is_root && skip_move(
            board,
            mv,
            ctx,
            depth,
            in_check,
            is_tactical,
            moved_piece,
            static_eval,
            alpha,
            improving,
            move_count,
            best_score,
        ) {
            continue;
        }

        // Track quiet moves searched before cutoff (for history penalty)
        let is_quiet_move = mv.kind() == MoveKind::Normal && board.piece_on(mv.dest()).is_none();
        if is_quiet_move && searched_quiets.len() < 64 {
            searched_quiets.push(mv);
        }

        // Set stack entry before make_move
        let mut entry = ctx.stack[p];
        entry.current_move = mv;
        entry.moved_piece = moved_piece;
        entry.cont_hist_index = Some(ContHistIndex { side: board.side_to_move(), piece: moved_piece, to: mv.dest() });
        ctx.stack.set(p, entry);

        if !board.move_defined(mv) {
            continue;
        }
        let child = board.make_move(mv);
        move_count = move_count + 1;
        let ghost pushed_from = ctx.history@;
        ctx.history.push(board.hash());

        // Extensions
        let mut extension: i32 = 0;

        // Singular Extension — for TT move only
        if mv == tt_move && !is_root && depth >= SE_DEPTH && tt_depth >= depth - 3 && tt_bound != Bound::UpperBound
            && excluded.is_null() {
            let singular_beta = tt_score - 2 * depth as i32;
            let singular_score = singular_probe(board, mv, singular_beta, params, depth, ctx, tt, control);

            if singular_score < singular_beta {
                extension = 1;
                // Double extension
                if singular_score < singular_beta - SE_DOUBLE_MARGIN && double_extensions < MAX_DOUBLE_EXTENSIONS {
                    extension = 2;
                }
            } else if singular_score >= beta {
                // Multicut: not singular, another move also beats beta
                ctx.history.pop();
        proof {
            lemma_push_pop(pushed_from, board.view().hash);
        }
                return singular_score;
            } else if tt_score >= beta {
                // TT score beats beta but isn't singular — negative extension
                extension = -3;
            } else if cutnode {
                extension = -2;
            }
        }

        let nd = (depth as i32 - 1) + extension;
        let new_depth: u8 = if nd < 0 { 0 } else { nd as u8 };
        let child_double_ext = if extension == 2 { double_extensions + 1 } else { double_extensions };

        let score = pvs_child(
            &child,
            alpha,
            beta,
            params,
            depth,
            new_depth,
            child_double_ext,
            move_count,
            mv,
            moved_piece,
            is_tactical,
            is_quiet_move,
            in_check,
            tt_is_pv,
            ctx,
            tt,
            control,
        );

        ctx.history.pop();
        proof {
            lemma_push_pop(pushed_from, board.view().hash);
        }

        if score > best_score {
            best_score = score;
            best_move = mv;
            if score > alpha {
                alpha = score;
                ctx.pv.update(p, mv);
            }
        }

        if alpha >= beta {
            // Cutoff — update heuristics
            let mut entry = ctx.stack[p];
            entry.cutoff_count = entry.cutoff_count.wrapping_add(1);
            ctx.stack.set(p, entry);

            if is_quiet_move {
                reward_cutoff(board, ctx, &searched_quiets, p, mv, moved_piece, depth);
            }
            break;
        }
    }

    // TT store — skip during singular extension search
    if excluded.is_null() {
        let bound = if best_score <= original_alpha {
            Bound::UpperBound
        } else if best_score >= beta {
            Bound::LowerBound
        } else {
            Bound::Exact
        };

        let store_move = if bound == Bound::UpperBound && best_move.is_null() {
            tt_move
        } else {
            best_move
        };
        tt.store(board.hash(), depth, best_score, raw_eval, store_move, bound, ply, is_pv || tt_is_pv);

        // Update correction history
        if !in_check && !best_move.is_null() && (bound == Bound::Exact || bound == Bound::LowerBound) {
            let score_diff = best_score - raw_eval;
            ctx.correction_history.update(
                board.side_to_move(),
                board.pawn_hash(),
                board.non_pawn_hash(Color::White),
                board.non_pawn_hash(Color::Black),
                board.major_hash(),
                board.minor_hash(),
                prev_piece,
                prev_dest,
                score_diff,
            );
        }
    }

    best_score
}

/// Negamax alpha-beta search with PVS, LMR, and all advanced pruning techniques.
///
/// Returns the best score for the side to move. The principal
/// variation is collected into `ctx.pv`. A position that the evaluation
/// cannot handle (a missing king, a pawn on its last rank) scores 0, and a
/// move whose application would leave the board's clock ranges is skipped.
#[verifier::spinoff_prover]
#[verifier::rlimit(60)]
#[verifier::loop_isolation(false)]
pub fn negamax(
    board: &Board,
    alpha: i32,
    beta: i32,
    params: NodeParams,
    ctx: &mut SearchContext,
    tt: &TranspositionTable,
    control: &SearchControl,
) -> (r: i32)
    requires
        old(ctx).wf(),
        tt.wf(),
        params.fits(),
        -SCORE_LIMIT <= alpha < beta <= SCORE_LIMIT,
    ensures
        keeps(*final(ctx), *old(ctx)),
        -SCORE_LIMIT <= r <= SCORE_LIMIT,
        !evaluable(board.view()) ==> r == 0,
        evaluable(board.view()) && params.ply >= MAX_PLY ==> r == evaluation_of(board.view()),
        evaluable(board.view()) && params.ply < MAX_PLY && board.view().halfmove_clock >= 100 ==> r == 0 || r == draw_value(
            *old(ctx),
            board.view(),
        ),
    decreases MAX_PLY - params.ply, params.depth, 3int,
{
    let mut alpha = alpha;
    let mut depth = params.depth;
    let ply = params.ply;
    let is_pv = alpha + 1 < beta;
    let is_root = ply == 0;

    ctx.pv.clear_ply(ply as usize);
    ctx.nodes = ctx.nodes.wrapping_add(1);

    if !can_evaluate(board) {
        return 0;
    }

    // Ply ceiling to prevent out-of-bounds access and runaway recursion
    if ply as usize >= MAX_PLY {
        return evaluate(board);
    }
    let p = ply as usize;

    // Reset cutoff count for this node
    let mut entry = ctx.stack[p];
    entry.cutoff_count = 0;
    ctx.stack.set(p, entry);

    // Check stop condition (time limit, node limit, etc.), then the draws by rule
    let stopped = control.should_stop(ctx.nodes);
    if let Some(score) = node_terminal(board, ply, stopped, ctx) {
        return score;
    }

    // Mate Distance Pruning
    if !is_root {
        let lo = -MATE_SCORE + ply as i32;
        if alpha < lo {
            alpha = lo;
        }
        let hi = MATE_SCORE - ply as i32 - 1;
        let new_beta = if beta < hi { beta } else { hi };
        if alpha >= new_beta {
            return alpha;
        }
    }

    // TT probe — skip if we have an excluded move (singular extension search)
    let mut tt_move = Move::NULL();
    let mut tt_score: i32 = 0;
    let mut tt_depth: u8 = 0;
    let mut tt_bound = Bound::NoBound;
    let mut tt_is_pv = is_pv;
    let mut tt_eval: i32 = 0;

    if params.excluded.is_null() {
        if let Some(tt_entry) = tt.probe(board.hash(), ply) {
            proof {
                lemma_probe_bounds(tt_entry, board.view().hash, ply);
            }
            tt_move = tt_entry.best_move;
            tt_score = tt_entry.score;
            tt_depth = tt_entry.depth;
            tt_bound = tt_entry.bound;
            tt_is_pv = tt_is_pv || tt_entry.is_pv;
            tt_eval = tt_entry.eval;

            // TT cutoff (not at root, not in PV)
            if !is_root && tt_depth >= depth {
                let cutoff = match tt_bound {
                    Bound::Exact => true,
                    Bound::LowerBound => tt_score >= beta,
                    Bound::UpperBound => tt_score <= alpha,
                    Bound::NoBound => false,
                };
                if cutoff {
                    return tt_score;
                }
            }
        }
    }

    // Compute check status
    let king_sq = board.king_square(board.side_to_move());
    let in_check = board.is_square_attacked(king_sq, board.side_to_move().flip());

    // IIR — Internal Iterative Reduction
    if (is_pv || params.cutnode) && depth > 4 && tt_move.is_null() {
        depth = depth - 2;
    }

    // Check extension
    if in_check && p < MAX_PLY - 1 {
        depth = depth + 1;
    }

    // Drop to qsearch at depth 0
    if depth == 0 {
        return qsearch(board, ply, alpha, beta, ctx, control);
    }

    // Static eval with correction history
    let raw_eval = if tt_eval != 0 { tt_eval } else { evaluate(board) };

    // Get previous move info for correction history
    let mut prev_piece: Option<PieceKind> = None;
    let mut prev_dest: Option<Square> = None;
    if ply >= 1 {
        let prev = ctx.stack[p - 1];
        if !prev.current_move.is_null() {
            prev_piece = Some(prev.moved_piece);
            prev_dest = Some(prev.current_move.dest());
        }
    }

    let static_eval = if !in_check {
        ctx.correction_history.correct_eval(
            board.side_to_move(),
            board.pawn_hash(),
            board.non_pawn_hash(Color::White),
            board.non_pawn_hash(Color::Black),
            board.major_hash(),
            board.minor_hash(),
            prev_piece,
            prev_dest,
            raw_eval,
        )
    } else {
        raw_eval
    };

    // Store static eval in stack
    let mut entry = ctx.stack[p];
    entry.static_eval = static_eval;
    ctx.stack.set(p, entry);

    // Compute improving flag
    let improving = if ply >= 2 && !in_check {
        static_eval > ctx.stack[p - 2].static_eval
    } else {
        false
    };

    if let Some(score) = prune_before_moves(
        board,
        alpha,
        beta,
        params,
        depth,
        in_check,
        improving,
        static_eval,
        raw_eval,
        ctx,
        tt,
        control,
    ) {
        return score;
    }

    search_moves(
        board,
        alpha,
        beta,
        params,
        depth,
        in_check,
        improving,
        static_eval,
        raw_eval,
        tt_move,
        tt_score,
        tt_depth,
        tt_bound,
        tt_is_pv,
        prev_piece,
        prev_dest,
        ctx,
        tt,
        control,
    )
}


/// The deepest iteration a search runs: deeper ones could overflow the
/// 8-bit depth counter along the extensions of a path.
pub const MAX_SEARCH_DEPTH: u8 = 95;

/// Aspiration window search — wraps [`negamax`] with a narrow window
/// that widens on fail-high/fail-low.
///
/// For depths 1-4 or near-mate scores, uses a full window.
/// For deeper searches, starts with `delta = 50` centered on `prev_score`,
/// and widens fourfold on each failure until the window is full. A window
/// whose next widening would leave 32 bits gives up with the last score.
#[verifier::spinoff_prover]
#[verifier::rlimit(40)]
pub fn aspiration_search(
    board: &Board,
    depth: u8,
    prev_score: i32,
    ctx: &mut SearchContext,
    tt: &TranspositionTable,
    control: &SearchControl,
) -> (r: i32)
    requires
        old(ctx).wf(),
        tt.wf(),
        depth <= MAX_SEARCH_DEPTH,
        -SCORE_LIMIT <= prev_score <= SCORE_LIMIT,
    ensures
        keeps(*final(ctx), *old(ctx)),
        -SCORE_LIMIT <= r <= SCORE_LIMIT,
        !evaluable(board.view()) ==> r == 0,
{
    let base_params = NodeParams {
        depth,
        ply: 0,
        do_null: true,
        excluded: Move::NULL(),
        cutnode: false,
        double_extensions: 0,
    };

    // Full window for shallow depths or near-mate scores
    if depth <= 4 || prev_score >= MATE_THRESHOLD || prev_score <= -MATE_THRESHOLD {
        return negamax(board, -INF, INF, base_params, ctx, tt, control);
    }

    let mut delta: i32 = 50;
    let mut alpha = if prev_score - delta > -INF { prev_score - delta } else { -INF };
    let mut beta = if prev_score + delta < INF { prev_score + delta } else { INF };

    loop
        invariant
            keeps(*ctx, *old(ctx)),
            tt.wf(),
            base_params.fits(),
            -MATE_THRESHOLD < prev_score < MATE_THRESHOLD,
            50 <= delta,
            -INF <= alpha < prev_score < beta <= INF,
        decreases i32::MAX - delta,
    {
        let score = negamax(board, alpha, beta, base_params, ctx, tt, control);

        // Abort immediately if the search was stopped
        if control.should_stop(ctx.nodes) {
            return score;
        }
        if score > alpha && score < beta {
            // Score is within the window — done
            return score;
        }
        if delta > i32::MAX / 4 {
            return score;
        }
        delta = delta * 4;
        if delta > INF {
            alpha = -INF;
            beta = INF;
        } else if score <= alpha {
            // Fail low — widen alpha
            alpha = if prev_score - delta > -INF { prev_score - delta } else { -INF };
        } else {
            // Fail high — widen beta
            beta = if prev_score + delta < INF { prev_score + delta } else { INF };
        }
    }
}

/// Result of a completed search.
#[derive(Debug, Clone)]
pub struct SearchResult {
    /// Best move found at the highest completed depth.
    pub best_move: Move,
    /// Second move in the PV — the expected reply (for pondering).
    pub ponder_move: Option<Move>,
    /// Full principal variation line.
    pub pv: Vec<Move>,
    /// Evaluation score in centipawns from the engine's perspective.
    pub score: i32,
    /// Total nodes visited during the search.
    pub nodes: u64,
    /// Depth reached.
    pub depth: u8,
}

/// What one completed iteration reports: its depth, score, the nodes
/// visited so far and its principal variation.
#[derive(Debug, Clone)]
pub struct IterationReport {
    pub depth: u8,
    pub score: i32,
    pub nodes: u64,
    pub pv: Vec<Move>,
}

/// The moves of `line` other than the null move, in order.
pub open spec fn non_null(line: Seq<Move>) -> Seq<Move> {
    line.filter(|m: Move| m.view() != 0)
}

/// A line without the null move keeps all its moves.
proof fn lemma_non_null_all(line: Seq<Move>)
    requires
        forall|i: int| 0 <= i < line.len() ==> (#[trigger] line[i]).view() != 0,
    ensures
        non_null(line) == line,
    decreases line.len(),
{
    reveal(Seq::filter);
    if line.len() > 0 {
        lemma_non_null_all(line.drop_last());
        assert(line.drop_last().push(line.last()) =~= line);
    } else {
        assert(line.filter(|m: Move| m.view() != 0) =~= line);
    }
}

/// The moves of `pv` other than the null move, in order.
#[verifier::spinoff_prover]
pub fn non_null_moves(pv: &[Move]) -> (r: Vec<Move>)
    ensures
        r@ == non_null(pv@),
{
    let mut line: Vec<Move> = Vec::new();
    let mut i: usize = 0;
    while i < pv.len()
        invariant
            i <= pv@.len(),
            line@ == non_null(pv@.take(i as int)),
        decreases pv@.len() - i,
    {
        proof {
            assert(pv@.take(i + 1).drop_last() =~= pv@.take(i as int));
            assert(pv@.take(i + 1).last() == pv@[i as int]);
            reveal(Seq::filter);
        }
        if !pv[i].is_null() {
            line.push(pv[i]);
        }
        i = i + 1;
    }
    assert(pv@.take(pv@.len() as int) =~= pv@);
    line
}

/// Iterative deepening from `start_depth` up to `max_depth` (at most
/// [`MAX_SEARCH_DEPTH`]): each iteration runs an aspiration search around
/// the previous score; an iteration cut short by the stop controls is
/// discarded. The result holds the score, depth and principal variation of
/// the last completed iteration, and the reports those of every completed
/// iteration, one per depth from `start_depth` on.
#[verifier::spinoff_prover]
#[verifier::rlimit(40)]
pub fn iterative_deepening(
    board: &Board,
    start_depth: u8,
    max_depth: u8,
    ctx: &mut SearchContext,
    tt: &TranspositionTable,
    control: &SearchControl,
) -> (r: (SearchResult, Vec<IterationReport>))
    requires
        old(ctx).wf(),
        tt.wf(),
        1 <= start_depth,
    ensures
        keeps(*final(ctx), *old(ctx)),
        r.0.nodes == final(ctx).nodes,
        r.0.depth <= MAX_SEARCH_DEPTH,
        r.0.depth <= max_depth,
        forall|i: int| 0 <= i < r.1@.len() ==> (#[trigger] r.1@[i]).depth == start_depth + i,
        forall|i: int| 0 <= i < r.1@.len() ==> -SCORE_LIMIT <= (#[trigger] r.1@[i]).score <= SCORE_LIMIT,
        r.0.pv@.len() >= 1,
        r.0.pv@[0] == r.0.best_move,
        forall|i: int, j: int| 0 <= i < r.1@.len() && 0 <= j < r.1@[i].pv@.len() ==> (#[trigger] r.1@[i].pv@[j]).view() != 0,
        r.1@.len() == 0 ==> r.0.depth == 0 && r.0.best_move.view() == 0 && r.0.score == -INF && r.0.pv@ == seq![
            r.0.best_move,
        ] && r.0.ponder_move is None,
        r.1@.len() > 0 ==> {
            let last = r.1@.last();
            &&& r.0.depth == last.depth
            &&& r.0.score == last.score
            &&& r.0.pv@ == (if last.pv@.len() == 0 { seq![r.0.best_move] } else { last.pv@ })
            &&& r.0.ponder_move == (if last.pv@.len() > 1 { Some(last.pv@[1]) } else { None::<Move> })
        },
{
    let last = if max_depth < MAX_SEARCH_DEPTH { max_depth } else { MAX_SEARCH_DEPTH };
    let mut reports: Vec<IterationReport> = Vec::new();

    // Track completed iteration results (for abort-safety)
    let mut completed_move = Move::NULL();
    let mut completed_score = -INF;
    let mut completed_depth: u8 = 0;
    let mut completed_pv: Vec<Move> = Vec::new();
    let mut prev_score: i32 = 0;

    let mut depth = start_depth;
    while depth <= last
        invariant
            keeps(*ctx, *old(ctx)),
            tt.wf(),
            1 <= start_depth <= depth,
            depth == start_depth + reports@.len(),
            last <= MAX_SEARCH_DEPTH,
            last <= max_depth,
            -SCORE_LIMIT <= prev_score <= SCORE_LIMIT,
            completed_depth <= last,
            forall|i: int| 0 <= i < reports@.len() ==> (#[trigger] reports@[i]).depth == start_depth + i,
            forall|i: int| 0 <= i < reports@.len() ==> -SCORE_LIMIT <= (#[trigger] reports@[i]).score <= SCORE_LIMIT,
            reports@.len() == 0 ==> completed_depth == 0 && completed_move.view() == 0 && completed_score == -INF
                && completed_pv@.len() == 0,
            reports@.len() > 0 ==> completed_depth == reports@.last().depth && completed_score == reports@.last().score
                && completed_pv@ == reports@.last().pv@,
            completed_pv@.len() > 0 ==> completed_pv@[0] == completed_move,
            forall|i: int, j: int| 0 <= i < reports@.len() && 0 <= j < reports@[i].pv@.len() ==> (#[trigger] reports@[i].pv@[j]).view()
                != 0,
        decreases last + 1 - depth,
    {
        // Check soft limit before starting a new iteration
        if control.should_stop_iterating() {
            break;
        }

        let score = aspiration_search(board, depth, prev_score, ctx, tt, control);

        // If search was aborted mid-iteration, discard this iteration's result
        if control.should_stop(ctx.nodes) {
            break;
        }

        prev_score = score;

        // This iteration completed successfully — record results
        let pv = ctx.pv.root_pv();
        if pv.len() > 0 && !pv[0].is_null() {
            completed_move = pv[0];
        }
        completed_score = score;
        completed_depth = depth;
        let line = non_null_moves(pv);
        completed_pv = line.clone();
        proof {
            assert(completed_pv@ == line@);
            assert forall|j: int| 0 <= j < pv@.len() implies (#[trigger] pv@[j]).view() != 0 by {
                assert(ctx.pv.line(0)[j].view() != 0);
            }
            lemma_non_null_all(pv@);
        }
        reports.push(IterationReport { depth, score, nodes: ctx.nodes, pv: line });
        depth = depth + 1;
    }

    let ponder_move = if completed_pv.len() > 1 {
        Some(completed_pv[1])
    } else {
        None
    };

    let result = SearchResult {
        best_move: completed_move,
        ponder_move,
        pv: if completed_pv.len() == 0 {
            vec![completed_move]
        } else {
            completed_pv
        },
        score: completed_score,
        nodes: ctx.nodes,
        depth: completed_depth,
    };
    (result, reports)
}

} // verus!
