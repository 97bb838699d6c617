//! UCI command parsing.

use vstd::prelude::*;

use crate::board::{Board, BoardModel};
use crate::chess_move::Move;
use crate::color::Color;
use crate::fen::{all_digits, counter_digits, digits_value, field, field_spans, fen_model, is_digit, sub_chars, whitespace_fields};
use crate::make_move::{make_move_defined, make_move_model};
use crate::movegen::uci_move;
use crate::text::{str_chars, string_from_chars};
use crate::uci::error::{UciError, UciErrorModel};
use crate::zobrist::zobrist_hash;

verus! {

/// Parameters for the `go` command. Times are in milliseconds.
///
/// All fields are optional; a bare `go` uses defaults.
#[derive(Debug, Clone, Copy, PartialEq, Eq)]
pub struct GoParams {
    /// White's remaining time.
    pub wtime: Option<u64>,
    /// Black's remaining time.
    pub btime: Option<u64>,
    /// White's increment per move.
    pub winc: Option<u64>,
    /// Black's increment per move.
    pub binc: Option<u64>,
    /// Moves until next time control.
    pub movestogo: Option<u32>,
    /// Search to this depth only.
    pub depth: Option<u8>,
    /// Search for exactly this duration.
    pub movetime: Option<u64>,
    /// Search this many nodes only.
    pub nodes: Option<u64>,
    /// Search until `stop` (no time limit).
    pub infinite: bool,
    /// Search in pondering mode.
    pub ponder: bool,
}

/// The parameters of a bare `go`.
pub open spec fn no_params() -> GoParams {
    GoParams {
        wtime: None,
        btime: None,
        winc: None,
        binc: None,
        movestogo: None,
        depth: None,
        movetime: None,
        nodes: None,
        infinite: false,
        ponder: false,
    }
}

impl Default for GoParams {
    fn default() -> (r: GoParams)
        ensures
            r == no_params(),
    {
        GoParams {
            wtime: None,
            btime: None,
            winc: None,
            binc: None,
            movestogo: None,
            depth: None,
            movetime: None,
            nodes: None,
            infinite: false,
            ponder: false,
        }
    }
}

/// A parsed UCI command.
#[derive(Debug)]
pub enum Command {
    /// `uci` -- identify the engine.
    Uci,
    /// `isready` -- synchronization ping.
    IsReady,
    /// `ucinewgame` -- reset engine state.
    UciNewGame,
    /// `position` -- set up a board position with optional moves applied.
    Position(Board),
    /// `go` -- start searching with given parameters.
    Go(GoParams),
    /// `ponderhit` -- opponent played the expected move during pondering.
    PonderHit,
    /// `stop` -- halt the current search.
    Stop,
    /// `quit` -- exit the engine.
    Quit,
    /// Unrecognized command (silently ignored per UCI spec).
    Unknown(String),
}

/// The mathematical content of a [`Command`].
pub enum CommandModel {
    Uci,
    IsReady,
    UciNewGame,
    Position(BoardModel),
    Go(GoParams),
    PonderHit,
    Stop,
    Quit,
    Unknown(Seq<char>),
}

impl View for Command {
    type V = CommandModel;

    open spec fn view(&self) -> CommandModel {
        match self {
            Command::Uci => CommandModel::Uci,
            Command::IsReady => CommandModel::IsReady,
            Command::UciNewGame => CommandModel::UciNewGame,
            Command::Position(b) => CommandModel::Position(b.view()),
            Command::Go(p) => CommandModel::Go(*p),
            Command::PonderHit => CommandModel::PonderHit,
            Command::Stop => CommandModel::Stop,
            Command::Quit => CommandModel::Quit,
            Command::Unknown(s) => CommandModel::Unknown(s@),
        }
    }
}

// ---------------------------------------------------------------------------
// Tokens
// ---------------------------------------------------------------------------

/// The number of whitespace-separated tokens of `s`.
pub open spec fn ntok(s: Seq<char>) -> int {
    field_spans(s).len() as int
}

/// The tokens `i..j` of `s` joined with single spaces.
pub open spec fn joined(s: Seq<char>, i: int, j: int) -> Seq<char>
    decreases j - i,
{
    if j <= i {
        Seq::empty()
    } else if j == i + 1 {
        field(s, i)
    } else {
        joined(s, i, j - 1) + seq![' '] + field(s, j - 1)
    }
}

/// The value of `cs` read as an unsigned integer no larger than `max`, in the
/// way `str::parse` reads one: an optional `'+'`, then at least one decimal
/// digit, with a value that fits.
pub open spec fn parse_uint(cs: Seq<char>, max: int) -> Option<int> {
    let ds = counter_digits(cs);
    if ds.len() == 0 || !all_digits(ds) || digits_value(ds) > max {
        None
    } else {
        Some(digits_value(ds))
    }
}

/// Whether the characters of `t` are those of `lit`.
fn lit_eq(t: &Vec<char>, lit: &str) -> (r: bool)
    ensures
        r == (t@ == lit@),
{
    let l = str_chars(lit);
    if t.len() != l.len() {
        return false;
    }
    let mut i: usize = 0;
    while i < t.len()
        invariant
            i <= t@.len(),
            t@.len() == l@.len(),
            l@ == lit@,
            forall|j: int| 0 <= j < i ==> t@[j] == l@[j],
        decreases t@.len() - i,
    {
        if t[i] != l[i] {
            return false;
        }
        i = i + 1;
    }
    assert(t@ =~= l@);
    true
}

proof fn lemma_digits_prefix_value(ds: Seq<char>, n: int)
    requires
        0 <= n <= ds.len(),
        forall|j: int| 0 <= j < ds.len() ==> is_digit(#[trigger] ds[j]),
    ensures
        0 <= digits_value(ds.take(n)) <= digits_value(ds),
    decreases ds.len(),
{
    if ds.len() > 0 {
        let p = ds.drop_last();
        assert forall|j: int| 0 <= j < p.len() implies is_digit(#[trigger] p[j]) by {
            assert(p[j] == ds[j]);
        }
        assert(is_digit(ds[ds.len() - 1]));
        if n == ds.len() {
            assert(ds.take(n) =~= ds);
            lemma_digits_prefix_value(p, n - 1);
        } else {
            lemma_digits_prefix_value(p, n);
            assert(p.take(n) =~= ds.take(n));
        }
    }
}

/// Read an unsigned integer no larger than `max`.
#[verifier::spinoff_prover]
fn parse_unsigned(cs: &Vec<char>, max: u64) -> (r: Option<u64>)
    ensures
        match parse_uint(cs@, max as int) {
            Some(v) => r matches Some(x) && x as int == v,
            None => r is None,
        },
{
    let mut start: usize = 0;
    if cs.len() > 0 && cs[0] == '+' {
        start = 1;
    }
    let ghost ds = counter_digits(cs@);
    assert(ds =~= cs@.subrange(start as int, cs@.len() as int));
    if start >= cs.len() {
        return None;
    }
    let mut acc: u128 = 0;
    let mut i: usize = start;
    while i < cs.len()
        invariant
            start <= i <= cs@.len(),
            ds == cs@.subrange(start as int, cs@.len() as int),
            ds == counter_digits(cs@),
            forall|j: int| 0 <= j < i - start ==> is_digit(#[trigger] ds[j]),
            acc == digits_value(ds.take(i - start)),
            acc <= max,
        decreases cs@.len() - i,
    {
        let c = cs[i];
        let ghost n = i - start;
        assert(ds[n] == c);
        if !('0' <= c && c <= '9') {
            proof {
                assert(!is_digit(ds[n]));
                assert(!all_digits(ds));
            }
            return None;
        }
        let d: u128 = (c as u32 - '0' as u32) as u128;
        assert(d == c as int - '0' as int);
        let ghost t = ds.take(n + 1);
        assert(t.drop_last() =~= ds.take(n));
        assert(t.last() == c);
        assert(digits_value(t) == digits_value(ds.take(n)) * 10 + d);
        acc = acc * 10 + d;
        if acc > max as u128 {
            proof {
                if all_digits(ds) {
                    lemma_digits_prefix_value(ds, n + 1);
                }
            }
            return None;
        }
        i = i + 1;
    }
    assert(ds.take(ds.len() as int) =~= ds);
    Some(acc as u64)
}

/// The tokens of a line: its characters and the spans of its whitespace-separated fields.
struct Tokens {
    chars: Vec<char>,
    spans: Vec<(usize, usize)>,
}

impl Tokens {
    spec fn wf(&self) -> bool {
        &&& self.spans@.len() == field_spans(self.chars@).len()
        &&& forall|k: int| #![trigger self.spans@[k]] 0 <= k < self.spans@.len() ==> self.spans@[k].0 == field_spans(self.chars@)[k].0
            && self.spans@[k].1 == field_spans(self.chars@)[k].1
        &&& forall|k: int| #![trigger self.spans@[k]] 0 <= k < self.spans@.len() ==> self.spans@[k].0 < self.spans@[k].1 <= self.chars@.len()
    }

    fn new(line: &str) -> (r: Tokens)
        ensures
            r.wf(),
            r.chars@ == line@,
    {
        let chars = str_chars(line);
        let spans = whitespace_fields(&chars);
        Tokens { chars, spans }
    }

    fn len(&self) -> (r: usize)
        requires
            self.wf(),
        ensures
            r == ntok(self.chars@),
    {
        self.spans.len()
    }

    fn get(&self, k: usize) -> (r: Vec<char>)
        requires
            self.wf(),
            k < ntok(self.chars@),
        ensures
            r@ == field(self.chars@, k as int),
    {
        let (a, b) = self.spans[k];
        sub_chars(&self.chars, a, b)
    }

    /// The tokens `i..j` joined with single spaces.
    fn join(&self, i: usize, j: usize) -> (r: Vec<char>)
        requires
            self.wf(),
            i <= j <= ntok(self.chars@),
        ensures
            r@ == joined(self.chars@, i as int, j as int),
    {
        let mut out: Vec<char> = Vec::new();
        let mut k = i;
        while k < j
            invariant
                self.wf(),
                i <= k <= j <= ntok(self.chars@),
                out@ == joined(self.chars@, i as int, k as int),
            decreases j - k,
        {
            if k > i {
                out.push(' ');
            }
            let t = self.get(k);
            let mut x: usize = 0;
            let ghost before = out@;
            while x < t.len()
                invariant
                    x <= t@.len(),
                    out@ == before + t@.take(x as int),
                decreases t@.len() - x,
            {
                out.push(t[x]);
                x = x + 1;
                assert(t@.take(x as int) == t@.take((x - 1) as int).push(t@[x - 1]));
            }
            assert(t@.take(t@.len() as int) =~= t@);
            k = k + 1;
        }
        out
    }
}

// ---------------------------------------------------------------------------
// go
// ---------------------------------------------------------------------------

/// The index of a `go` keyword: wtime 0, btime 1, winc 2, binc 3, movestogo 4,
/// depth 5, movetime 6, nodes 7, infinite 8, ponder 9; -1 for any other token.
pub open spec fn go_key(t: Seq<char>) -> int {
    if t == "wtime"@ {
        0
    } else if t == "btime"@ {
        1
    } else if t == "winc"@ {
        2
    } else if t == "binc"@ {
        3
    } else if t == "movestogo"@ {
        4
    } else if t == "depth"@ {
        5
    } else if t == "movetime"@ {
        6
    } else if t == "nodes"@ {
        7
    } else if t == "infinite"@ {
        8
    } else if t == "ponder"@ {
        9
    } else {
        -1
    }
}

/// The largest value the `go` keyword with index `k` takes.
pub open spec fn go_max(k: int) -> int {
    if k == 4 {
        u32::MAX as int
    } else if k == 5 {
        u8::MAX as int
    } else {
        u64::MAX as int
    }
}

/// `p` with the valued `go` parameter of index `k` set to `v`.
pub open spec fn go_set(p: GoParams, k: int, v: int) -> GoParams {
    if k == 0 {
        GoParams { wtime: Some(v as u64), ..p }
    } else if k == 1 {
        GoParams { btime: Some(v as u64), ..p }
    } else if k == 2 {
        GoParams { winc: Some(v as u64), ..p }
    } else if k == 3 {
        GoParams { binc: Some(v as u64), ..p }
    } else if k == 4 {
        GoParams { movestogo: Some(v as u32), ..p }
    } else if k == 5 {
        GoParams { depth: Some(v as u8), ..p }
    } else if k == 6 {
        GoParams { movetime: Some(v as u64), ..p }
    } else {
        GoParams { nodes: Some(v as u64), ..p }
    }
}

/// The `go` parameters read from the tokens of `s` from index `i` on, into `p`:
/// a valued keyword takes the next token as its value (an error when it is
/// missing or not a number in range), `infinite` and `ponder` set their flags,
/// and any other token is skipped.
pub open spec fn go_scan(s: Seq<char>, i: int, p: GoParams) -> Result<GoParams, UciErrorModel>
    decreases ntok(s) - i,
{
    if i >= ntok(s) || i < 0 {
        Ok(p)
    } else {
        let t = field(s, i);
        let k = go_key(t);
        if 0 <= k <= 7 {
            if i + 1 >= ntok(s) {
                Err(UciErrorModel::MissingGoValue { param: t })
            } else {
                match parse_uint(field(s, i + 1), go_max(k)) {
                    Some(v) => go_scan(s, i + 2, go_set(p, k, v)),
                    None => Err(UciErrorModel::InvalidGoValue { param: t, value: field(s, i + 1) }),
                }
            }
        } else if k == 8 {
            go_scan(s, i + 1, GoParams { infinite: true, ..p })
        } else if k == 9 {
            go_scan(s, i + 1, GoParams { ponder: true, ..p })
        } else {
            go_scan(s, i + 1, p)
        }
    }
}

fn go_key_of(t: &Vec<char>) -> (r: i32)
    ensures
        r == go_key(t@),
{
    if lit_eq(t, "wtime") {
        0
    } else if lit_eq(t, "btime") {
        1
    } else if lit_eq(t, "winc") {
        2
    } else if lit_eq(t, "binc") {
        3
    } else if lit_eq(t, "movestogo") {
        4
    } else if lit_eq(t, "depth") {
        5
    } else if lit_eq(t, "movetime") {
        6
    } else if lit_eq(t, "nodes") {
        7
    } else if lit_eq(t, "infinite") {
        8
    } else if lit_eq(t, "ponder") {
        9
    } else {
        -1
    }
}

/// Parse the `go` command arguments (the tokens from index `first` on).
///
/// Supports: wtime, btime, winc, binc, movestogo, depth, movetime,
/// nodes, infinite, ponder. Unknown tokens are silently skipped.
fn parse_go(tokens: &Tokens, first: usize) -> (r: Result<GoParams, UciError>)
    requires
        tokens.wf(),
    ensures
        match go_scan(tokens.chars@, first as int, no_params()) {
            Ok(p) => r == Ok::<GoParams, UciError>(p),
            Err(e) => r matches Err(x) && x@ == e,
        },
{
    let ghost s = tokens.chars@;
    let mut params = GoParams::default();
    let n = tokens.len();
    let mut i = first;
    while i < n
        invariant
            tokens.wf(),
            s == tokens.chars@,
            n == ntok(s),
            first <= i,
            go_scan(s, first as int, no_params()) == go_scan(s, i as int, params),
        decreases n - i,
    {
        let t = tokens.get(i);
        let k = go_key_of(&t);
        let ghost old_params = params;
        if 0 <= k && k <= 7 {
            if i + 1 >= n {
                return Err(UciError::MissingGoValue { param: string_from_chars(t.as_slice()) });
            }
            let v = tokens.get(i + 1);
            let max: u64 = if k == 4 {
                0xFFFF_FFFF
            } else if k == 5 {
                0xFF
            } else {
                0xFFFF_FFFF_FFFF_FFFF
            };
            assert(max as int == go_max(k as int));
            let value = match parse_unsigned(&v, max) {
                Some(x) => x,
                None => {
                    return Err(UciError::InvalidGoValue {
                        param: string_from_chars(t.as_slice()),
                        value: string_from_chars(v.as_slice()),
                    });
                },
            };
            if k == 0 {
                params.wtime = Some(value);
            } else if k == 1 {
                params.btime = Some(value);
            } else if k == 2 {
                params.winc = Some(value);
            } else if k == 3 {
                params.binc = Some(value);
            } else if k == 4 {
                params.movestogo = Some(value as u32);
            } else if k == 5 {
                params.depth = Some(value as u8);
            } else if k == 6 {
                params.movetime = Some(value);
            } else {
                params.nodes = Some(value);
            }
            assert(params == go_set(old_params, k as int, value as int));
            assert(parse_uint(field(s, i + 1), go_max(k as int)) == Some(value as int));
            assert(go_scan(s, i as int, old_params) == go_scan(s, i + 2, go_set(old_params, k as int, value as int)));
            i = i + 2;
        } else if k == 8 {
            params.infinite = true;
            assert(go_scan(s, i as int, old_params) == go_scan(s, i + 1, params));
            i = i + 1;
        } else if k == 9 {
            params.ponder = true;
            assert(go_scan(s, i as int, old_params) == go_scan(s, i + 1, params));
            i = i + 1;
        } else {
            assert(go_scan(s, i as int, old_params) == go_scan(s, i + 1, params));
            i = i + 1;
        }
    }
    Ok(params)
}

// ---------------------------------------------------------------------------
// position
// ---------------------------------------------------------------------------

/// The standard starting position.
pub open spec fn start_model() -> BoardModel {
    let m = BoardModel {
        pieces: Board::start_pieces(),
        sides: seq![0x0000_0000_0000_FFFFu64, 0xFFFF_0000_0000_0000u64],
        occupied: 0xFFFF_0000_0000_FFFFu64,
        side_to_move: Color::White,
        castling: 15,
        en_passant: None,
        halfmove_clock: 0,
        fullmove_number: 1,
        hash: 0,
    };
    BoardModel { hash: zobrist_hash(m), ..m }
}

/// The code of the legal move that text `t` names on `b` (see [`uci_move`]).
#[verifier::opaque]
pub open spec fn named_move(b: BoardModel, t: Seq<char>) -> Option<int> {
    uci_move(b, t)
}

/// The board a FEN text describes, or its error (see [`fen_model`]).
#[verifier::opaque]
pub open spec fn fen_board(t: Seq<char>) -> Result<BoardModel, crate::error::FenErrorModel> {
    fen_model(t)
}

/// The board after playing the move with code `c` on `b`, when that is defined.
#[verifier::opaque]
pub open spec fn after_move(b: BoardModel, c: int) -> Option<BoardModel> {
    let mv = Move::of_code(c as u16);
    if make_move_defined(b, mv) {
        Some(make_move_model(b, mv))
    } else {
        None
    }
}

/// The board after playing the moves named by the tokens of `s` from index
/// `j` on, starting from `b`: an error for the first token that names no legal
/// move; `None` when a move would push a move counter past its limit.
pub open spec fn moves_scan(s: Seq<char>, j: int, b: BoardModel) -> Option<Result<BoardModel, UciErrorModel>>
    decreases ntok(s) - j,
{
    if j >= ntok(s) || j < 0 {
        Some(Ok(b))
    } else {
        match named_move(b, field(s, j)) {
            None => Some(Err(UciErrorModel::InvalidMove { uci_move: field(s, j) })),
            Some(c) => match after_move(b, c) {
                Some(b2) => moves_scan(s, j + 1, b2),
                None => None,
            },
        }
    }
}

/// The board of a position command whose setup ends before token `i`: the
/// moves after a `moves` token are played, anything else is ignored.
pub open spec fn position_moves(s: Seq<char>, i: int, b: BoardModel) -> Option<Result<BoardModel, UciErrorModel>> {
    if i < ntok(s) && field(s, i) == "moves"@ {
        moves_scan(s, i + 1, b)
    } else {
        Some(Ok(b))
    }
}

/// The board of a `position` command line `s`: `startpos` or `fen` and six FEN
/// fields, then optionally `moves` and UCI moves.
#[verifier::opaque]
pub open spec fn position_model(s: Seq<char>) -> Option<Result<BoardModel, UciErrorModel>> {
    let n = ntok(s);
    if n < 2 {
        Some(Err(UciErrorModel::MalformedPosition))
    } else if field(s, 1) == "startpos"@ {
        position_moves(s, 2, start_model())
    } else if field(s, 1) == "fen"@ {
        if n < 8 {
            Some(Err(UciErrorModel::InvalidFen { fen: joined(s, 2, n) }))
        } else {
            match fen_board(joined(s, 2, 8)) {
                Ok(b) => position_moves(s, 8, b),
                Err(_) => Some(Err(UciErrorModel::InvalidFen { fen: joined(s, 2, 8) })),
            }
        }
    } else {
        Some(Err(UciErrorModel::MalformedPosition))
    }
}

/// Play the moves of the tokens from `j` on, starting from `board`; `None`
/// when a move would push a move counter past its limit.
#[verifier::spinoff_prover]
fn play_moves(tokens: &Tokens, j: usize, board: Board) -> (r: Option<Result<Board, UciError>>)
    requires
        tokens.wf(),
    ensures
        match moves_scan(tokens.chars@, j as int, board.view()) {
            Some(Ok(b)) => r matches Some(Ok(x)) && x.view() == b,
            Some(Err(e)) => r matches Some(Err(x)) && x@ == e,
            None => r is None,
        },
{
    let ghost s = tokens.chars@;
    let ghost target = moves_scan(s, j as int, board.view());
    let ghost start = board.view();
    let n = tokens.len();
    let mut cur = board;
    let mut k = j;
    while k < n
        invariant
            tokens.wf(),
            s == tokens.chars@,
            n == ntok(s),
            j <= k,
            start == board.view(),
            target == moves_scan(s, j as int, start),
            target == moves_scan(s, k as int, cur.view()),
        decreases n - k,
    {
        let t = tokens.get(k);
        let text = string_from_chars(t.as_slice());
        let mv = match Move::from_uci(text.as_str(), &cur) {
            Some(mv) => mv,
            None => {
                assert(named_move(cur.view(), field(s, k as int)) is None) by {
                    reveal(named_move);
                }
                assert(text@ == field(s, k as int));
                let err = UciError::InvalidMove { uci_move: text };
                assert(target == Some(Err::<BoardModel, UciErrorModel>(err@)));
                return Some(Err(err));
            },
        };
        let ghost before = cur.view();
        proof {
            Move::lemma_of_code(mv.view());
            Move::lemma_view_eq(mv, Move::of_code(mv.view()));
            assert(named_move(before, field(s, k as int)) == Some(mv.view() as int)) by {
                reveal(named_move);
            }
            reveal(after_move);
        }
        if !cur.move_defined(mv) {
            return None;
        }
        cur = cur.make_move(mv);
        proof {
            reveal(after_move);
            assert(after_move(before, mv.view() as int) == Some(cur.view()));
        }
        k = k + 1;
    }
    Some(Ok(cur))
}

/// Parse the `position` command arguments.
///
/// Supports:
/// - `position startpos [moves e2e4 d7d5 ...]`
/// - `position fen <fen-string> [moves e2e4 d7d5 ...]`
#[verifier::spinoff_prover]
fn parse_position(tokens: &Tokens) -> (r: Option<Result<Board, UciError>>)
    requires
        tokens.wf(),
    ensures
        match position_model(tokens.chars@) {
            Some(Ok(b)) => r matches Some(Ok(x)) && x.view() == b,
            Some(Err(e)) => r matches Some(Err(x)) && x@ == e,
            None => r is None,
        },
{
    let ghost s = tokens.chars@;
    reveal(position_model);
    let n = tokens.len();
    if n < 2 {
        return Some(Err(UciError::MalformedPosition));
    }
    let kw = tokens.get(1);
    let (board, rest) = if lit_eq(&kw, "startpos") {
        let b = Board::starting_position();
        assert(b.view() == start_model());
        (b, 2usize)
    } else if lit_eq(&kw, "fen") {
        if n < 8 {
            let fen = tokens.join(2, n);
            return Some(Err(UciError::InvalidFen { fen: string_from_chars(fen.as_slice()) }));
        }
        let fen = tokens.join(2, 8);
        let fen_str = string_from_chars(fen.as_slice());
        let parsed = Board::from_fen(fen_str.as_str());
        assert(parsed is Ok <==> fen_board(joined(s, 2, 8)) is Ok) by {
            reveal(fen_board);
        }
        match parsed {
            Ok(b) => {
                assert(fen_board(joined(s, 2, 8)) == Ok::<BoardModel, crate::error::FenErrorModel>(b.view())) by {
                    reveal(fen_board);
                }
                (b, 8usize)
            },
            Err(_) => {
                return Some(Err(UciError::InvalidFen { fen: fen_str }));
            },
        }
    } else {
        return Some(Err(UciError::MalformedPosition));
    };
    if rest < n {
        let word = tokens.get(rest);
        if lit_eq(&word, "moves") {
            return play_moves(tokens, rest + 1, board);
        }
    }
    Some(Ok(board))
}

// ---------------------------------------------------------------------------
// Commands
// ---------------------------------------------------------------------------

/// The command a UCI line `s` holds: keywords by their first token,
/// `position` and `go` with their arguments, and any other first token as an
/// unknown command (the empty text for a blank line). `None` when playing the
/// moves of a `position` command would push a move counter past its limit.
pub open spec fn command_model(s: Seq<char>) -> Option<Result<CommandModel, UciErrorModel>> {
    if ntok(s) == 0 {
        Some(Ok(CommandModel::Unknown(Seq::empty())))
    } else {
        let t = field(s, 0);
        if t == "uci"@ {
            Some(Ok(CommandModel::Uci))
        } else if t == "isready"@ {
            Some(Ok(CommandModel::IsReady))
        } else if t == "ucinewgame"@ {
            Some(Ok(CommandModel::UciNewGame))
        } else if t == "stop"@ {
            Some(Ok(CommandModel::Stop))
        } else if t == "quit"@ {
            Some(Ok(CommandModel::Quit))
        } else if t == "ponderhit"@ {
            Some(Ok(CommandModel::PonderHit))
        } else if t == "position"@ {
            match position_model(s) {
                Some(Ok(b)) => Some(Ok(CommandModel::Position(b))),
                Some(Err(e)) => Some(Err(e)),
                None => None,
            }
        } else if t == "go"@ {
            match go_scan(s, 1, no_params()) {
                Ok(p) => Some(Ok(CommandModel::Go(p))),
                Err(e) => Some(Err(e)),
            }
        } else {
            Some(Ok(CommandModel::Unknown(t)))
        }
    }
}

/// Parse a single line of UCI input into a [`Command`]; `None` when playing
/// the moves of a `position` command would push a move counter past its limit.
#[verifier::spinoff_prover]
pub fn try_parse_command(line: &str) -> (r: Option<Result<Command, UciError>>)
    ensures
        match command_model(line@) {
            Some(Ok(c)) => r matches Some(Ok(x)) && x@ == c,
            Some(Err(e)) => r matches Some(Err(x)) && x@ == e,
            None => r is None,
        },
{
    let tokens = Tokens::new(line);
    if tokens.len() == 0 {
        return Some(Ok(Command::Unknown(String::new())));
    }
    let t = tokens.get(0);
    if lit_eq(&t, "uci") {
        Some(Ok(Command::Uci))
    } else if lit_eq(&t, "isready") {
        Some(Ok(Command::IsReady))
    } else if lit_eq(&t, "ucinewgame") {
        Some(Ok(Command::UciNewGame))
    } else if lit_eq(&t, "stop") {
        Some(Ok(Command::Stop))
    } else if lit_eq(&t, "quit") {
        Some(Ok(Command::Quit))
    } else if lit_eq(&t, "ponderhit") {
        Some(Ok(Command::PonderHit))
    } else if lit_eq(&t, "position") {
        match parse_position(&tokens) {
            Some(Ok(b)) => Some(Ok(Command::Position(b))),
            Some(Err(e)) => Some(Err(e)),
            None => None,
        }
    } else if lit_eq(&t, "go") {
        match parse_go(&tokens, 1) {
            Ok(p) => Some(Ok(Command::Go(p))),
            Err(e) => Some(Err(e)),
        }
    } else {
        Some(Ok(Command::Unknown(string_from_chars(t.as_slice()))))
    }
}

/// Parse a single line of UCI input into a [`Command`].
pub fn parse_command(line: &str) -> (r: Result<Command, UciError>)
    requires
        command_model(line@) is Some,
    ensures
        match command_model(line@) {
            Some(Ok(c)) => r matches Ok(x) && x@ == c,
            Some(Err(e)) => r matches Err(x) && x@ == e,
            None => false,
        },
{
    match try_parse_command(line) {
        Some(r) => r,
        None => Err(UciError::MalformedPosition),
    }
}

} // verus!
