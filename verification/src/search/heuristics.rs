//! Killer move table, history heuristic, continuation history, and correction history.

use vstd::prelude::*;

use crate::chess_move::Move;
use crate::color::Color;
use crate::piece_kind::PieceKind;
use crate::square::Square;

verus! {

/// Maximum search depth in plies.
pub const MAX_PLY: usize = 128;

/// Two killer moves per ply — quiet moves that caused beta cutoffs.
pub struct KillerTable {
    slots: Vec<Move>,
}

impl KillerTable {
    /// Slot `k` (0 or 1) of ply `ply`.
    pub closed spec fn killer(&self, ply: int, k: int) -> Move {
        self.slots@[2 * ply + k]
    }

    /// The table holds two slots for each of the `MAX_PLY` plies.
    pub closed spec fn wf(&self) -> bool {
        self.slots@.len() == 2 * MAX_PLY
    }

    /// Create an empty killer table.
    pub fn new() -> (r: KillerTable)
        ensures
            r.wf(),
            forall|p: int, k: int| 0 <= p < MAX_PLY && 0 <= k < 2 ==> (#[trigger] r.killer(p, k)).view() == 0,
    {
        let mut slots: Vec<Move> = Vec::new();
        let mut i: usize = 0;
        while i < 2 * MAX_PLY
            invariant
                i <= 2 * MAX_PLY,
                slots@.len() == i,
                forall|j: int| 0 <= j < i ==> (#[trigger] slots@[j]).view() == 0,
            decreases 2 * MAX_PLY - i,
        {
            slots.push(Move::NULL());
            i = i + 1;
        }
        KillerTable { slots }
    }

    /// Store a killer move at the given ply.
    ///
    /// Shifts slot 0 to slot 1 if the new move differs from slot 0.
    pub fn store(&mut self, ply: usize, mv: Move)
        requires
            old(self).wf(),
        ensures
            final(self).wf(),
            forall|p: int, k: int| 0 <= p < MAX_PLY && 0 <= k < 2 && p != ply ==> #[trigger] final(self).killer(p, k)
                == old(self).killer(p, k),
            ply < MAX_PLY && old(self).killer(ply as int, 0) != mv ==> final(self).killer(ply as int, 0) == mv
                && final(self).killer(ply as int, 1) == old(self).killer(ply as int, 0),
            ply < MAX_PLY && old(self).killer(ply as int, 0) == mv ==> final(self).killer(ply as int, 0) == old(self).killer(ply as int, 0)
                && final(self).killer(ply as int, 1) == old(self).killer(ply as int, 1),
    {
        if ply >= MAX_PLY {
            return;
        }
        let first = self.slots[2 * ply];
        if first != mv {
            self.slots.set(2 * ply + 1, first);
            self.slots.set(2 * ply, mv);
        }
    }

    /// Check if a move is a killer at the given ply.
    pub fn is_killer(&self, ply: usize, mv: Move) -> (r: bool)
        requires
            self.wf(),
        ensures
            r == (ply < MAX_PLY && (self.killer(ply as int, 0) == mv || self.killer(ply as int, 1) == mv)),
    {
        if ply >= MAX_PLY {
            return false;
        }
        self.slots[2 * ply] == mv || self.slots[2 * ply + 1] == mv
    }
}

impl Default for KillerTable {
    fn default() -> (r: KillerTable)
        ensures
            r.wf(),
    {
        KillerTable::new()
    }
}

/// Maximum absolute value for history scores (prevents overflow).
pub const HISTORY_MAX: i32 = 16_384;

/// Integer division rounding toward zero, as Rust's `/` on integers does.
pub open spec fn div_trunc(a: int, b: int) -> int {
    if a >= 0 { a / b } else { -((-a) / b) }
}

/// Absolute value.
pub open spec fn iabs(x: int) -> int {
    if x < 0 { -x } else { x }
}

/// The gravity update of a history entry: `entry + bonus - entry * |bonus| / limit`,
/// the division rounding toward zero.
pub open spec fn gravity(entry: int, bonus: int, limit: int) -> int {
    entry + bonus - div_trunc(entry * iabs(bonus), limit)
}

/// `a / b` rounding toward zero, for a positive divisor.
pub(crate) fn div_toward_zero(a: i32, b: i32) -> (r: i32)
    requires
        b > 0,
    ensures
        r == div_trunc(a as int, b as int),
{
    let x = a as i64;
    let y = b as i64;
    let q = if x >= 0 {
        x / y
    } else {
        -((-x) / y)
    };
    proof {
        if x >= 0 {
            assert(0 <= x / y <= x) by (nonlinear_arith)
                requires
                    x >= 0,
                    y > 0,
            ;
        } else {
            let nx: int = -x;
            assert(0 <= nx / (y as int) <= nx) by (nonlinear_arith)
                requires
                    nx > 0,
                    y > 0,
            ;
        }
    }
    q as i32
}

/// The gravity update keeps entries within the limit while bonuses stay
/// within it.
pub proof fn lemma_gravity_bounded(entry: int, bonus: int, limit: int)
    requires
        limit > 0,
        -limit <= entry <= limit,
        -limit <= bonus <= limit,
    ensures
        -limit <= gravity(entry, bonus, limit) <= limit,
{
    let y = iabs(bonus);
    let t = entry * y;
    assert(0 <= y <= limit);
    if entry >= 0 {
        let q = t / limit;
        assert(0 <= t <= entry * limit) by (nonlinear_arith)
            requires
                0 <= entry,
                0 <= y <= limit,
                t == entry * y,
        ;
        assert(q * limit <= t < q * limit + limit) by (nonlinear_arith)
            requires
                limit > 0,
                q == t / limit,
                t >= 0,
        ;
        assert((limit - entry) * (limit - y) >= 0) by (nonlinear_arith)
            requires
                entry <= limit,
                y <= limit,
        ;
        assert(q <= entry) by (nonlinear_arith)
            requires
                q * limit <= t,
                t <= entry * limit,
                limit > 0,
        ;
        assert(entry + y - q <= limit) by (nonlinear_arith)
            requires
                t < q * limit + limit,
                t == entry * y,
                (limit - entry) * (limit - y) >= 0,
                limit > 0,
        ;
        assert(entry - y - q >= -limit) by (nonlinear_arith)
            requires
                q <= entry,
                q * limit <= t,
                t == entry * y,
                0 <= entry <= limit,
                0 <= y <= limit,
                limit > 0,
        ;
    } else {
        let e = -entry;
        let t2 = e * y;
        let q = t2 / limit;
        assert(t == -t2) by (nonlinear_arith)
            requires
                e == -entry,
                t == entry * y,
                t2 == e * y,
        ;
        assert(0 <= t2 <= e * limit) by (nonlinear_arith)
            requires
                0 <= e,
                0 <= y <= limit,
                t2 == e * y,
        ;
        assert(q * limit <= t2 < q * limit + limit) by (nonlinear_arith)
            requires
                limit > 0,
                q == t2 / limit,
                t2 >= 0,
        ;
        assert((limit - e) * (limit - y) >= 0) by (nonlinear_arith)
            requires
                e <= limit,
                y <= limit,
        ;
        assert(q <= e) by (nonlinear_arith)
            requires
                q * limit <= t2,
                t2 <= e * limit,
                limit > 0,
        ;
        assert(e + y - q <= limit) by (nonlinear_arith)
            requires
                t2 < q * limit + limit,
                t2 == e * y,
                (limit - e) * (limit - y) >= 0,
                limit > 0,
        ;
        assert(e - y - q >= -limit) by (nonlinear_arith)
            requires
                q <= e,
                q * limit <= t2,
                t2 == e * y,
                0 <= e <= limit,
                0 <= y <= limit,
                limit > 0,
        ;
    }
}

/// Apply gravity update: `entry += bonus - entry * |bonus| / HISTORY_MAX`.
///
/// Keeps history scores bounded without a hard clamp by pulling values
/// toward zero at a rate proportional to their magnitude.
pub fn apply_gravity(entry: &mut i32, bonus: i32)
    requires
        -HISTORY_MAX <= *old(entry) <= HISTORY_MAX,
        -HISTORY_MAX <= bonus <= HISTORY_MAX,
    ensures
        *final(entry) == gravity(*old(entry) as int, bonus as int, HISTORY_MAX as int),
        -HISTORY_MAX <= *final(entry) <= HISTORY_MAX,
{
    let mag = if bonus < 0 { -bonus } else { bonus };
    let e = *entry;
    proof {
        assert(-HISTORY_MAX * HISTORY_MAX <= e * mag <= HISTORY_MAX * HISTORY_MAX) by (nonlinear_arith)
            requires
                -HISTORY_MAX <= e <= HISTORY_MAX,
                0 <= mag <= HISTORY_MAX,
        ;
        lemma_gravity_bounded(e as int, bonus as int, HISTORY_MAX as int);
    }
    let pull = div_toward_zero(e * mag, HISTORY_MAX);
    *entry = e + bonus - pull;
}

/// History heuristic table — indexed by `[piece_kind][to_square]`.
///
/// Rewards quiet moves that cause beta cutoffs, penalises those that don't.
pub struct HistoryTable {
    table: Vec<i32>,
}

impl HistoryTable {
    /// The score of a move of `piece` to square `to`.
    pub closed spec fn at(&self, piece: PieceKind, to: int) -> i32 {
        self.table@[64 * piece.idx() + to]
    }

    /// Six rows of 64 entries, each within the history limit.
    pub closed spec fn wf(&self) -> bool {
        &&& self.table@.len() == 384
        &&& forall|i: int| 0 <= i < 384 ==> -HISTORY_MAX <= #[trigger] self.table@[i] <= HISTORY_MAX
    }

    /// Create a zeroed history table.
    pub fn new() -> (r: HistoryTable)
        ensures
            r.wf(),
            forall|p: PieceKind, t: int| 0 <= t < 64 ==> #[trigger] r.at(p, t) == 0,
    {
        let mut table: Vec<i32> = Vec::new();
        let mut i: usize = 0;
        while i < 384
            invariant
                i <= 384,
                table@.len() == i,
                forall|j: int| 0 <= j < i ==> #[trigger] table@[j] == 0,
            decreases 384 - i,
        {
            table.push(0);
            i = i + 1;
        }
        HistoryTable { table }
    }

    /// Update history score using gravity formula.
    pub fn update(&mut self, piece: PieceKind, to: usize, bonus: i32)
        requires
            old(self).wf(),
            to < 64,
            -HISTORY_MAX <= bonus <= HISTORY_MAX,
        ensures
            final(self).wf(),
            final(self).at(piece, to as int) == gravity(old(self).at(piece, to as int) as int, bonus as int, HISTORY_MAX as int),
            forall|p: PieceKind, t: int| 0 <= t < 64 && (p != piece || t != to) ==> #[trigger] final(self).at(p, t)
                == old(self).at(p, t),
    {
        let k = 64 * piece.index() + to;
        let mut entry = self.table[k];
        apply_gravity(&mut entry, bonus);
        self.table.set(k, entry);
        proof {
            assert forall|p: PieceKind, t: int| 0 <= t < 64 && (p != piece || t != to) implies #[trigger] self.at(p, t)
                == old(self).at(p, t) by {
                assert(64 * p.idx() + t != k);
            }
        }
    }

    /// Reward a move with the square of the depth.
    pub fn update_good(&mut self, piece: PieceKind, to: usize, depth: u8)
        requires
            old(self).wf(),
            to < 64,
            depth <= 128,
        ensures
            final(self).wf(),
            final(self).at(piece, to as int) == gravity(old(self).at(piece, to as int) as int, depth * depth, HISTORY_MAX as int),
    {
        let d = depth as i32;
        proof {
            assert(d * d <= 128 * 128) by (nonlinear_arith)
                requires
                    0 <= d <= 128,
            ;
        }
        let bonus = d * d;
        self.update(piece, to, bonus);
    }

    /// Penalise a move with the square of the depth.
    pub fn update_bad(&mut self, piece: PieceKind, to: usize, depth: u8)
        requires
            old(self).wf(),
            to < 64,
            depth <= 128,
        ensures
            final(self).wf(),
            final(self).at(piece, to as int) == gravity(old(self).at(piece, to as int) as int, -(depth * depth), HISTORY_MAX as int),
    {
        let d = depth as i32;
        proof {
            assert(d * d <= 128 * 128) by (nonlinear_arith)
                requires
                    0 <= d <= 128,
            ;
        }
        let penalty = d * d;
        self.update(piece, to, -penalty);
    }

    /// Every entry of a well-formed table is within the history limit.
    pub proof fn lemma_bounded(&self, piece: PieceKind, to: int)
        requires
            self.wf(),
            0 <= to < 64,
        ensures
            -HISTORY_MAX <= self.at(piece, to) <= HISTORY_MAX,
    {
        assert(0 <= 64 * piece.idx() + to < 384);
    }

    /// Get the history score for a quiet move.
    pub fn score(&self, piece: PieceKind, to: usize) -> (r: i32)
        requires
            self.wf(),
            to < 64,
        ensures
            r == self.at(piece, to as int),
    {
        self.table[64 * piece.index() + to]
    }
}

impl Default for HistoryTable {
    fn default() -> (r: HistoryTable)
        ensures
            r.wf(),
    {
        HistoryTable::new()
    }
}

// ---------------------------------------------------------------------------
// Continuation history
// ---------------------------------------------------------------------------

/// Key for continuation history lookup.
#[derive(Debug, Clone, Copy)]
pub struct ContHistIndex {
    pub side: Color,
    pub piece: PieceKind,
    pub to: Square,
}

/// The flat position of a continuation history key.
pub open spec fn cont_slot(idx: ContHistIndex) -> int {
    384 * idx.side.idx() + 64 * idx.piece.idx() + idx.to.view()
}

/// Inner leaf table `[6][64]` of `i32` for continuation history.
pub struct ContHistEntry {
    table: Vec<i32>,
}

impl ContHistEntry {
    /// The score of a move of `piece` to square `to`.
    pub closed spec fn at(&self, piece: PieceKind, to: int) -> i32 {
        self.table@[64 * piece.idx() + to]
    }

    /// Six rows of 64 entries.
    pub closed spec fn wf(&self) -> bool {
        self.table@.len() == 384
    }

    /// A zeroed leaf table.
    pub fn zeroed() -> (r: ContHistEntry)
        ensures
            r.wf(),
            forall|p: PieceKind, t: int| 0 <= t < 64 ==> #[trigger] r.at(p, t) == 0,
    {
        let mut table: Vec<i32> = Vec::new();
        let mut i: usize = 0;
        while i < 384
            invariant
                i <= 384,
                table@.len() == i,
                forall|j: int| 0 <= j < i ==> #[trigger] table@[j] == 0,
            decreases 384 - i,
        {
            table.push(0);
            i = i + 1;
        }
        ContHistEntry { table }
    }

    /// Get the history score for a piece moving to a square.
    pub fn score(&self, piece: PieceKind, to: usize) -> (r: i32)
        requires
            self.wf(),
            to < 64,
        ensures
            r == self.at(piece, to as int),
    {
        self.table[64 * piece.index() + to]
    }

    /// Get a mutable reference to a history entry.
    pub fn entry_mut(&mut self, piece: PieceKind, to: usize) -> (r: &mut i32)
        requires
            old(self).wf(),
            to < 64,
        ensures
            *r == old(self).at(piece, to as int),
            final(self).wf(),
            final(self).at(piece, to as int) == *final(r),
            forall|p: PieceKind, t: int| 0 <= t < 64 && (p != piece || t != to) ==> #[trigger] final(self).at(p, t)
                == old(self).at(p, t),
    {
        let k = 64 * piece.index() + to;
        &mut self.table[k]
    }
}

/// Continuation history table: `[color][piece][square] -> ContHistEntry`.
pub struct ContinuationHistory {
    table: Vec<ContHistEntry>,
}

impl ContinuationHistory {
    /// The leaf table of a key.
    pub closed spec fn leaf(&self, idx: ContHistIndex) -> ContHistEntry {
        self.table@[cont_slot(idx)]
    }

    /// Two colors, six kinds and 64 squares of well-formed leaf tables.
    pub closed spec fn wf(&self) -> bool {
        &&& self.table@.len() == 768
        &&& forall|i: int| 0 <= i < 768 ==> (#[trigger] self.table@[i]).wf()
    }

    /// Every entry of every leaf is within the history limit.
    pub open spec fn bounded(&self) -> bool {
        forall|j: ContHistIndex, p: PieceKind, t: int|
            0 <= t < 64 ==> -HISTORY_MAX <= #[trigger] self.leaf(j).at(p, t) <= HISTORY_MAX
    }

    /// Create a zeroed continuation history.
    pub fn new() -> (r: ContinuationHistory)
        ensures
            r.wf(),
            forall|idx: ContHistIndex, p: PieceKind, t: int| 0 <= t < 64 ==> #[trigger] r.leaf(idx).at(p, t) == 0,
            r.bounded(),
    {
        let mut table: Vec<ContHistEntry> = Vec::new();
        let mut i: usize = 0;
        while i < 768
            invariant
                i <= 768,
                table@.len() == i,
                forall|j: int| 0 <= j < i ==> (#[trigger] table@[j]).wf(),
                forall|j: int, p: PieceKind, t: int| 0 <= j < i && 0 <= t < 64 ==> #[trigger] table@[j].at(p, t) == 0,
            decreases 768 - i,
        {
            table.push(ContHistEntry::zeroed());
            i = i + 1;
        }
        let r = ContinuationHistory { table };
        proof {
            assert forall|idx: ContHistIndex, p: PieceKind, t: int| 0 <= t < 64 implies #[trigger] r.leaf(idx).at(p, t) == 0 by {
                assert(0 <= cont_slot(idx) < 768);
            }
        }
        r
    }

    /// Get a reference to the [`ContHistEntry`] for the given index.
    pub fn entry(&self, idx: &ContHistIndex) -> (r: &ContHistEntry)
        requires
            self.wf(),
        ensures
            *r == self.leaf(*idx),
            r.wf(),
    {
        let k = 384 * idx.side.index() + 64 * idx.piece.index() + idx.to.index();
        &self.table[k]
    }

    /// Get a mutable reference to the [`ContHistEntry`] for the given index.
    pub fn entry_mut(&mut self, idx: &ContHistIndex) -> (r: &mut ContHistEntry)
        requires
            old(self).wf(),
        ensures
            *r == old(self).leaf(*idx),
            r.wf(),
            final(r).wf() ==> final(self).wf(),
            final(self).leaf(*idx) == *final(r),
            forall|j: ContHistIndex| cont_slot(j) != cont_slot(*idx) ==> #[trigger] final(self).leaf(j) == old(self).leaf(j),
    {
        let k = 384 * idx.side.index() + 64 * idx.piece.index() + idx.to.index();
        &mut self.table[k]
    }
}

impl Default for ContinuationHistory {
    fn default() -> (r: ContinuationHistory)
        ensures
            r.wf(),
    {
        ContinuationHistory::new()
    }
}

// ---------------------------------------------------------------------------
// Per-ply search stack entry
// ---------------------------------------------------------------------------

/// Per-ply search state, stored in an array on the search context.
#[derive(Clone, Copy)]
pub struct StackEntry {
    /// Static evaluation at this ply.
    pub static_eval: i32,
    /// Move being searched at this ply.
    pub current_move: Move,
    /// Piece kind that moved.
    pub moved_piece: PieceKind,
    /// Move excluded from search (for singular extensions).
    pub excluded_move: Move,
    /// Number of beta cutoffs found at this ply.
    pub cutoff_count: u16,
    /// Key for continuation history lookup.
    pub cont_hist_index: Option<ContHistIndex>,
}

impl StackEntry {
    /// Empty stack entry (all zeroed/null).
    #[allow(non_snake_case)]
    pub fn EMPTY() -> (r: StackEntry)
        ensures
            r.static_eval == 0,
            r.current_move.view() == 0,
            r.moved_piece == PieceKind::Pawn,
            r.excluded_move.view() == 0,
            r.cutoff_count == 0,
            r.cont_hist_index.is_none(),
    {
        StackEntry {
            static_eval: 0,
            current_move: Move::NULL(),
            moved_piece: PieceKind::Pawn,
            excluded_move: Move::NULL(),
            cutoff_count: 0,
            cont_hist_index: None,
        }
    }
}

// ---------------------------------------------------------------------------
// Continuation history helpers
// ---------------------------------------------------------------------------

/// The `j`-th ply offset (0..5) that continuation history looks back: 1, 2, 3, 4, 6.
pub open spec fn cont_offset(j: int) -> int {
    if j == 0 {
        1
    } else if j == 1 {
        2
    } else if j == 2 {
        3
    } else if j == 3 {
        4
    } else {
        6
    }
}

/// The continuation history score of `piece` to `to` under the key stored
/// `cont_offset(j)` plies back, or 0 when there is no such ply or key.
pub open spec fn cont_term(ch: ContinuationHistory, stack: Seq<StackEntry>, ply: int, j: int, piece: PieceKind, to: int) -> int {
    let off = cont_offset(j);
    if ply >= off {
        match stack[ply - off].cont_hist_index {
            Some(idx) => ch.leaf(idx).at(piece, to) as int,
            None => 0,
        }
    } else {
        0
    }
}

/// The sum of the first `n` continuation terms.
pub open spec fn cont_sum(ch: ContinuationHistory, stack: Seq<StackEntry>, ply: int, piece: PieceKind, to: int, n: int) -> int
    decreases n,
{
    if n <= 0 {
        0
    } else {
        cont_sum(ch, stack, ply, piece, to, n - 1) + cont_term(ch, stack, ply, n - 1, piece, to)
    }
}

/// Every partial continuation sum fits in 32 bits.
pub open spec fn cont_fits(ch: ContinuationHistory, stack: Seq<StackEntry>, ply: int, piece: PieceKind, to: int) -> bool {
    forall|n: int| 0 <= n <= 5 ==> i32::MIN <= #[trigger] cont_sum(ch, stack, ply, piece, to, n) <= i32::MAX
}

/// Sum continuation history scores from plies -1, -2, -3, -4, -6 relative to current ply.
pub fn cont_hist_score(
    cont_history: &ContinuationHistory,
    stack: &[StackEntry],
    ply: usize,
    piece: PieceKind,
    to: usize,
) -> (r: i32)
    requires
        cont_history.wf(),
        ply <= stack@.len(),
        to < 64,
        cont_fits(*cont_history, stack@, ply as int, piece, to as int),
    ensures
        r == cont_sum(*cont_history, stack@, ply as int, piece, to as int, 5),
{
    let offsets: [usize; 5] = [1, 2, 3, 4, 6];
    let mut score: i32 = 0;
    let mut j: usize = 0;
    while j < 5
        invariant
            j <= 5,
            cont_history.wf(),
            ply <= stack@.len(),
            to < 64,
            cont_fits(*cont_history, stack@, ply as int, piece, to as int),
            forall|i: int| 0 <= i < 5 ==> offsets@[i] == cont_offset(i),
            score == cont_sum(*cont_history, stack@, ply as int, piece, to as int, j as int),
        decreases 5 - j,
    {
        let offset = offsets[j];
        assert(cont_sum(*cont_history, stack@, ply as int, piece, to as int, j + 1) == score + cont_term(*cont_history, stack@, ply as int, j as int, piece, to as int));
        if ply >= offset {
            if let Some(idx) = &stack[ply - offset].cont_hist_index {
                score = score + cont_history.entry(idx).score(piece, to);
            }
        }
        j = j + 1;
    }
    score
}

/// On a bounded table, every partial continuation sum fits in 32 bits.
pub proof fn lemma_cont_fits(ch: ContinuationHistory, stack: Seq<StackEntry>, ply: int, piece: PieceKind, to: int)
    requires
        ch.bounded(),
        0 <= to < 64,
    ensures
        cont_fits(ch, stack, ply, piece, to),
{
    assert forall|n: int| 0 <= n <= 5 implies i32::MIN <= #[trigger] cont_sum(ch, stack, ply, piece, to, n) <= i32::MAX by {
        lemma_cont_sum_bound(ch, stack, ply, piece, to, n);
    }
}

proof fn lemma_cont_sum_bound(ch: ContinuationHistory, stack: Seq<StackEntry>, ply: int, piece: PieceKind, to: int, n: int)
    requires
        ch.bounded(),
        0 <= to < 64,
        0 <= n <= 5,
    ensures
        -HISTORY_MAX * n <= cont_sum(ch, stack, ply, piece, to, n) <= HISTORY_MAX * n,
    decreases n,
{
    if n > 0 {
        lemma_cont_sum_bound(ch, stack, ply, piece, to, n - 1);
        let off = cont_offset(n - 1);
        if ply >= off {
            if let Some(idx) = stack[ply - off].cont_hist_index {
                assert(-HISTORY_MAX <= ch.leaf(idx).at(piece, to) <= HISTORY_MAX);
            }
        }
    }
}

/// The value an entry of leaf slot `slot` takes after the first `n`
/// continuation updates with `bonus`: one gravity step for each offset whose
/// stack entry records a continuation index of that slot.
pub open spec fn cont_updated(v: int, slot: int, stack: Seq<StackEntry>, ply: int, bonus: int, n: int) -> int
    decreases n,
{
    if n <= 0 {
        v
    } else {
        let prev = cont_updated(v, slot, stack, ply, bonus, n - 1);
        let off = cont_offset(n - 1);
        if ply >= off && (stack[ply - off].cont_hist_index matches Some(idx) && cont_slot(idx) == slot) {
            gravity(prev, bonus, HISTORY_MAX as int)
        } else {
            prev
        }
    }
}

/// Update continuation history at plies -1, -2, -3, -4, -6 relative to current ply.
pub fn update_cont_history(
    cont_history: &mut ContinuationHistory,
    stack: &[StackEntry],
    ply: usize,
    piece: PieceKind,
    to: usize,
    bonus: i32,
)
    requires
        old(cont_history).wf(),
        old(cont_history).bounded(),
        ply <= stack@.len(),
        to < 64,
        -HISTORY_MAX <= bonus <= HISTORY_MAX,
    ensures
        final(cont_history).wf(),
        final(cont_history).bounded(),
        forall|j: ContHistIndex, p: PieceKind, t: int|
            0 <= t < 64 ==> #[trigger] final(cont_history).leaf(j).at(p, t) == if p == piece && t == to {
                cont_updated(old(cont_history).leaf(j).at(p, t) as int, cont_slot(j), stack@, ply as int, bonus as int, 5)
            } else {
                old(cont_history).leaf(j).at(p, t) as int
            },
{
    let ghost start = *cont_history;
    let offsets: [usize; 5] = [1, 2, 3, 4, 6];
    let mut k: usize = 0;
    while k < 5
        invariant
            k <= 5,
            cont_history.wf(),
            cont_history.bounded(),
            ply <= stack@.len(),
            to < 64,
            -HISTORY_MAX <= bonus <= HISTORY_MAX,
            forall|i: int| 0 <= i < 5 ==> offsets@[i] == cont_offset(i),
            forall|j: ContHistIndex, p: PieceKind, t: int|
                0 <= t < 64 ==> #[trigger] cont_history.leaf(j).at(p, t) == if p == piece && t == to {
                    cont_updated(start.leaf(j).at(p, t) as int, cont_slot(j), stack@, ply as int, bonus as int, k as int)
                } else {
                    start.leaf(j).at(p, t) as int
                },
        decreases 5 - k,
    {
        let offset = offsets[k];
        assert(offset == cont_offset(k as int));
        let ghost before = *cont_history;
        if ply >= offset {
            if let Some(idx) = &stack[ply - offset].cont_hist_index {
                let idx_owned = *idx;
                let entry = cont_history.entry_mut(&idx_owned);
                let cell = entry.entry_mut(piece, to);
                apply_gravity(cell, bonus);
                proof {
                    assert forall|j: ContHistIndex, p: PieceKind, t: int| 0 <= t < 64 implies #[trigger] cont_history.leaf(j).at(p, t)
                        == if cont_slot(j) == cont_slot(idx_owned) && p == piece && t == to {
                            gravity(before.leaf(j).at(p, t) as int, bonus as int, HISTORY_MAX as int)
                        } else {
                            before.leaf(j).at(p, t) as int
                        } by {
                        if cont_slot(j) == cont_slot(idx_owned) {
                            assert(before.leaf(j) == before.leaf(idx_owned));
                            assert(cont_history.leaf(j) == cont_history.leaf(idx_owned));
                        }
                    }
                }
            }
        }
        proof {
            assert forall|j: ContHistIndex, p: PieceKind, t: int|
                0 <= t < 64 implies #[trigger] cont_history.leaf(j).at(p, t) == if p == piece && t == to {
                    cont_updated(start.leaf(j).at(p, t) as int, cont_slot(j), stack@, ply as int, bonus as int, k + 1)
                } else {
                    start.leaf(j).at(p, t) as int
                } by {
                assert(before.leaf(j).at(p, t) == if p == piece && t == to {
                    cont_updated(start.leaf(j).at(p, t) as int, cont_slot(j), stack@, ply as int, bonus as int, k as int)
                } else {
                    start.leaf(j).at(p, t) as int
                });
            }
        }
        k = k + 1;
    }
}

// ---------------------------------------------------------------------------
// Correction history
// ---------------------------------------------------------------------------

/// Maximum absolute value for correction history entries.
pub const MAX_CORRHIST: i32 = 1024;

/// Number of correction history buckets (hash & 0x3FFF).
pub const CORR_BUCKETS: usize = 16384;

/// Divisor for the weighted correction sum.
pub const CORR_DIVISOR: i32 = 2048;

/// The bucket of a hash: its low 14 bits.
pub open spec fn bucket(h: u64) -> int {
    (h % 16384) as int
}

fn bucket_of(h: u64) -> (r: usize)
    ensures
        r == bucket(h),
        r < 16384,
{
    let b = h & 0x3FFFu64;
    proof {
        assert(b == h % 16384 && b < 16384) by (bit_vector)
            requires
                b == h & 0x3FFFu64,
        ;
    }
    b as usize
}

/// `x` clamped to `[lo, hi]`.
pub open spec fn clamp(x: int, lo: int, hi: int) -> int {
    if x < lo { lo } else if x > hi { hi } else { x }
}

fn clamp_i32(x: i32, lo: i32, hi: i32) -> (r: i32)
    requires
        lo <= hi,
    ensures
        r == clamp(x as int, lo as int, hi as int),
{
    if x < lo {
        lo
    } else if x > hi {
        hi
    } else {
        x
    }
}

/// Eval correction history tables.
pub struct CorrectionHistory {
    pawn: Vec<i32>,
    non_pawn: Vec<i32>,
    major: Vec<i32>,
    minor: Vec<i32>,
    cont: Vec<i32>,
}

/// Every entry of `v` lies within the correction limit.
pub open spec fn corr_bounded(v: Seq<i32>) -> bool {
    forall|i: int| 0 <= i < v.len() ==> -MAX_CORRHIST <= #[trigger] v[i] <= MAX_CORRHIST
}

fn zeroed(n: usize) -> (r: Vec<i32>)
    ensures
        r@.len() == n,
        forall|i: int| 0 <= i < n ==> #[trigger] r@[i] == 0,
{
    let mut v: Vec<i32> = Vec::new();
    let mut i: usize = 0;
    while i < n
        invariant
            i <= n,
            v@.len() == i,
            forall|j: int| 0 <= j < i ==> #[trigger] v@[j] == 0,
        decreases n - i,
    {
        v.push(0);
        i = i + 1;
    }
    v
}

impl CorrectionHistory {
    /// The pawn-structure table, by side then bucket.
    pub closed spec fn pawn_t(&self) -> Seq<i32> {
        self.pawn@
    }

    /// The non-pawn tables, by side, then the owner of the pieces, then bucket.
    pub closed spec fn non_pawn_t(&self) -> Seq<i32> {
        self.non_pawn@
    }

    /// The major-piece table, by side then bucket.
    pub closed spec fn major_t(&self) -> Seq<i32> {
        self.major@
    }

    /// The minor-piece table, by side then bucket.
    pub closed spec fn minor_t(&self) -> Seq<i32> {
        self.minor@
    }

    /// The previous-move table, by side, piece kind, then square.
    pub closed spec fn cont_t(&self) -> Seq<i32> {
        self.cont@
    }

    /// Table lengths and entry bounds.
    pub closed spec fn wf(&self) -> bool {
        &&& self.pawn@.len() == 2 * CORR_BUCKETS
        &&& self.non_pawn@.len() == 4 * CORR_BUCKETS
        &&& self.major@.len() == 2 * CORR_BUCKETS
        &&& self.minor@.len() == 2 * CORR_BUCKETS
        &&& self.cont@.len() == 768
        &&& corr_bounded(self.pawn@)
        &&& corr_bounded(self.non_pawn@)
        &&& corr_bounded(self.major@)
        &&& corr_bounded(self.minor@)
        &&& corr_bounded(self.cont@)
    }

    /// The weighted sum of the entries a lookup reads.
    pub closed spec fn weighted(
        &self,
        s: int,
        pawn_hash: u64,
        np_white_hash: u64,
        np_black_hash: u64,
        major_hash: u64,
        minor_hash: u64,
        prev: Option<(PieceKind, Square)>,
    ) -> int {
        117 * self.pawn@[16384 * s + bucket(pawn_hash)] + 134 * self.non_pawn@[32768 * s + bucket(np_white_hash)]
            + 134 * self.non_pawn@[32768 * s + 16384 + bucket(np_black_hash)] + 61 * self.major@[16384 * s + bucket(
            major_hash,
        )] + 67 * self.minor@[16384 * s + bucket(minor_hash)] + match prev {
            Some((p, d)) => 140 * self.cont@[384 * s + 64 * p.idx() + d.view()],
            None => 0,
        }
    }

    /// Create a zeroed correction history.
    pub fn new() -> (r: CorrectionHistory)
        ensures
            r.wf(),
            forall|s: int, a: u64, b: u64, c: u64, d: u64, e: u64, prev: Option<(PieceKind, Square)>|
                0 <= s < 2 ==> #[trigger] r.weighted(s, a, b, c, d, e, prev) == 0,
    {
        CorrectionHistory {
            pawn: zeroed(2 * CORR_BUCKETS),
            non_pawn: zeroed(4 * CORR_BUCKETS),
            major: zeroed(2 * CORR_BUCKETS),
            minor: zeroed(2 * CORR_BUCKETS),
            cont: zeroed(768),
        }
    }

    /// Apply correction to a raw static eval: add the weighted sum of the
    /// entries the hashes select, divided by 2048 (toward zero).
    pub fn correct_eval(
        &self,
        side: Color,
        pawn_hash: u64,
        np_white_hash: u64,
        np_black_hash: u64,
        major_hash: u64,
        minor_hash: u64,
        prev_piece: Option<PieceKind>,
        prev_dest: Option<Square>,
        raw_eval: i32,
    ) -> (r: i32)
        requires
            self.wf(),
            i32::MIN + 400 <= raw_eval <= i32::MAX - 400,
        ensures
            r == raw_eval + div_trunc(
                self.weighted(
                    side.idx(),
                    pawn_hash,
                    np_white_hash,
                    np_black_hash,
                    major_hash,
                    minor_hash,
                    match (prev_piece, prev_dest) {
                        (Some(p), Some(d)) => Some((p, d)),
                        _ => None,
                    },
                ),
                CORR_DIVISOR as int,
            ),
            raw_eval - 400 <= r <= raw_eval + 400,
    {
        let s = side.index();
        let ph = bucket_of(pawn_hash);
        let nph_w = bucket_of(np_white_hash);
        let nph_b = bucket_of(np_black_hash);
        let majh = bucket_of(major_hash);
        let minh = bucket_of(minor_hash);
        let a = self.pawn[16384 * s + ph];
        let b = self.non_pawn[32768 * s + nph_w];
        let c = self.non_pawn[32768 * s + 16384 + nph_b];
        let d = self.major[16384 * s + majh];
        let e = self.minor[16384 * s + minh];
        let mut correction: i32 = 117 * a + 134 * b + 134 * c + 61 * d + 67 * e;
        if let (Some(piece), Some(dest)) = (prev_piece, prev_dest) {
            let f = self.cont[384 * s + 64 * piece.index() + dest.index()];
            correction = correction + 140 * f;
        }
        proof {
            assert(-700_000 <= correction <= 700_000);
        }
        raw_eval + div_toward_zero(correction, CORR_DIVISOR)
    }

    /// The gravity update of one correction entry, clamped to the limit.
    fn apply_corr_gravity(table: &mut Vec<i32>, k: usize, bonus: i32)
        requires
            k < old(table)@.len(),
            corr_bounded(old(table)@),
            -256 <= bonus <= 256,
        ensures
            final(table)@ == old(table)@.update(
                k as int,
                clamp(gravity(old(table)@[k as int] as int, bonus as int, MAX_CORRHIST as int), -1024, 1024) as i32,
            ),
            corr_bounded(final(table)@),
    {
        let e = table[k];
        let mag = if bonus < 0 { -bonus } else { bonus };
        proof {
            assert(-1024 * 256 <= e * mag <= 1024 * 256) by (nonlinear_arith)
                requires
                    -1024 <= e <= 1024,
                    0 <= mag <= 256,
            ;
            lemma_gravity_bounded(e as int, bonus as int, 1024);
        }
        let g = e + bonus - div_toward_zero(e * mag, MAX_CORRHIST);
        let c = clamp_i32(g, -MAX_CORRHIST, MAX_CORRHIST);
        table.set(k, c);
    }

    /// Update correction history tables after a search: every entry the
    /// hashes select moves by the gravity update toward the score
    /// difference (clamped to ±256).
    pub fn update(
        &mut self,
        side: Color,
        pawn_hash: u64,
        np_white_hash: u64,
        np_black_hash: u64,
        major_hash: u64,
        minor_hash: u64,
        prev_piece: Option<PieceKind>,
        prev_dest: Option<Square>,
        score_diff: i32,
    )
        requires
            old(self).wf(),
        ensures
            final(self).wf(),
            ({
                let s = side.idx();
                let bonus = clamp(score_diff as int, -256, 256);
                let up = |t: Seq<i32>, k: int| t.update(k, clamp(gravity(t[k] as int, bonus, 1024), -1024, 1024) as i32);
                &&& final(self).pawn_t() == up(old(self).pawn_t(), 16384 * s + bucket(pawn_hash))
                &&& final(self).non_pawn_t() == up(
                    up(old(self).non_pawn_t(), 32768 * s + bucket(np_white_hash)),
                    32768 * s + 16384 + bucket(np_black_hash),
                )
                &&& final(self).major_t() == up(old(self).major_t(), 16384 * s + bucket(major_hash))
                &&& final(self).minor_t() == up(old(self).minor_t(), 16384 * s + bucket(minor_hash))
                &&& final(self).cont_t() == match (prev_piece, prev_dest) {
                    (Some(p), Some(d)) => up(old(self).cont_t(), 384 * s + 64 * p.idx() + d.view()),
                    _ => old(self).cont_t(),
                }
            }),
    {
        let bonus = clamp_i32(score_diff, -256, 256);
        let s = side.index();
        let ph = bucket_of(pawn_hash);
        let nph_w = bucket_of(np_white_hash);
        let nph_b = bucket_of(np_black_hash);
        let majh = bucket_of(major_hash);
        let minh = bucket_of(minor_hash);
        Self::apply_corr_gravity(&mut self.pawn, 16384 * s + ph, bonus);
        Self::apply_corr_gravity(&mut self.non_pawn, 32768 * s + nph_w, bonus);
        Self::apply_corr_gravity(&mut self.non_pawn, 32768 * s + 16384 + nph_b, bonus);
        Self::apply_corr_gravity(&mut self.major, 16384 * s + majh, bonus);
        Self::apply_corr_gravity(&mut self.minor, 16384 * s + minh, bonus);
        if let (Some(piece), Some(dest)) = (prev_piece, prev_dest) {
            Self::apply_corr_gravity(&mut self.cont, 384 * s + 64 * piece.index() + dest.index(), bonus);
        }
    }
}

impl Default for CorrectionHistory {
    fn default() -> (r: CorrectionHistory)
        ensures
            r.wf(),
    {
        CorrectionHistory::new()
    }
}

} // verus!
