//! Time management decisions: which limits a `go` command asks for, and when
//! the clock has run past them.

use vstd::prelude::*;

use crate::color::Color;
use crate::search::heuristics::div_trunc;
use crate::uci::command::GoParams;

verus! {

/// The kind of time control a `go` command asks for.
#[derive(Debug, Clone, Copy, PartialEq, Eq)]
pub enum GoPlan {
    /// No time limit: search until stopped (infinite search, depth-only or
    /// bare `go`, and pondering without time information).
    Infinite,
    /// A fixed search time in milliseconds (`movetime`), used as both the
    /// soft and the hard limit; `ponder` keeps the clock stopped until `ponderhit`.
    Fixed { ms: u64, ponder: bool },
    /// Limits derived from the side to move's clock and increment.
    Clock { remaining_ms: u64, increment_ms: u64, movestogo: Option<u32>, ponder: bool },
}

/// The time control of a `go` command for `side`: an infinite search (unless
/// pondering), then `movetime`, then the side's clock (its increment defaulting
/// to zero), and otherwise no limit.
pub open spec fn go_plan_model(p: GoParams, side: Color) -> GoPlan {
    let remaining = if side == Color::White { p.wtime } else { p.btime };
    let increment = if side == Color::White { p.winc } else { p.binc };
    if p.infinite && !p.ponder {
        GoPlan::Infinite
    } else if p.movetime is Some {
        GoPlan::Fixed { ms: p.movetime->0, ponder: p.ponder }
    } else if remaining is Some {
        GoPlan::Clock {
            remaining_ms: remaining->0,
            increment_ms: if increment is Some { increment->0 } else { 0 },
            movestogo: p.movestogo,
            ponder: p.ponder,
        }
    } else {
        GoPlan::Infinite
    }
}

/// Decide the time control of a `go` command for the side to move.
///
/// Priority order:
/// 1. `infinite` without `ponder` -> no limit
/// 2. `movetime` -> that time as both limits
/// 3. the side's clock -> limits computed from remaining time and increment
/// 4. depth only / bare `go` (pondering or not) -> no limit
pub fn go_plan(params: &GoParams, side: Color) -> (r: GoPlan)
    ensures
        r == go_plan_model(*params, side),
{
    let (remaining, increment) = match side {
        Color::White => (params.wtime, params.winc),
        Color::Black => (params.btime, params.binc),
    };
    if params.infinite && !params.ponder {
        return GoPlan::Infinite;
    }
    if let Some(mt) = params.movetime {
        return GoPlan::Fixed { ms: mt, ponder: params.ponder };
    }
    if let Some(rem) = remaining {
        let inc = match increment {
            Some(i) => i,
            None => 0,
        };
        return GoPlan::Clock { remaining_ms: rem, increment_ms: inc, movestogo: params.movestogo, ponder: params.ponder };
    }
    GoPlan::Infinite
}

/// The search must stop now: the stop flag is set, or on a node count that is
/// a multiple of 2048 the running clock has reached the hard limit.
pub open spec fn hard_stop(stopped: bool, nodes: u64, clock_active: bool, hard_ms: Option<u64>, elapsed_ms: u64) -> bool {
    stopped || (nodes % 2048 == 0 && clock_active && hard_ms is Some && elapsed_ms >= hard_ms->0)
}

/// Decide whether the search must stop now, given the stop flag, the node
/// count, whether the clock runs, the hard limit and the elapsed time.
pub fn hard_limit_reached(stopped: bool, nodes: u64, clock_active: bool, hard_ms: Option<u64>, elapsed_ms: u64) -> (r: bool)
    ensures
        r == hard_stop(stopped, nodes, clock_active, hard_ms, elapsed_ms),
{
    if stopped {
        return true;
    }
    if nodes & 2047 != 0 {
        assert(nodes & 2047 == nodes % 2048) by (bit_vector);
        return false;
    }
    assert(nodes & 2047 == nodes % 2048) by (bit_vector);
    if !clock_active {
        return false;
    }
    match hard_ms {
        Some(hard) => elapsed_ms >= hard,
        None => false,
    }
}

/// The soft limit scaled by `scale` hundredths, in milliseconds, as the clock
/// compares it: the limit read as a signed 64-bit count, times `scale`,
/// divided by 100 rounding toward zero, read back as an unsigned count.
pub open spec fn scaled_soft(soft_ms: u64, scale: i32) -> u64 {
    div_trunc((soft_ms as i64) * scale, 100) as u64
}

/// Iterative deepening should not start another iteration: the stop flag is
/// set, or the running clock has reached the scaled soft limit.
pub open spec fn soft_stop(stopped: bool, clock_active: bool, soft_ms: Option<u64>, scale: i32, elapsed_ms: u64) -> bool {
    stopped || (clock_active && soft_ms is Some && elapsed_ms >= scaled_soft(soft_ms->0, scale))
}

/// Decide whether iterative deepening should stop before another iteration.
pub fn soft_limit_reached(stopped: bool, clock_active: bool, soft_ms: Option<u64>, scale: i32, elapsed_ms: u64) -> (r: bool)
    ensures
        r == soft_stop(stopped, clock_active, soft_ms, scale, elapsed_ms),
{
    if stopped {
        return true;
    }
    if !clock_active {
        return false;
    }
    match soft_ms {
        Some(soft) => {
            let s64 = soft as i64;
            proof {
                assert(-0x8000_0000_0000_0000 * 0x8000_0000 <= s64 * scale <= 0x8000_0000_0000_0000 * 0x8000_0000) by (nonlinear_arith)
                    requires
                        -0x8000_0000_0000_0000 <= s64 <= 0x7FFF_FFFF_FFFF_FFFF,
                        -0x8000_0000 <= scale <= 0x7FFF_FFFF,
                ;
            }
            let p = (s64 as i128) * (scale as i128);
            let q: i128 = if p >= 0 {
                p / 100
            } else {
                -((-p) / 100)
            };
            proof {
                if p < 0 {
                    let np: int = -p;
                    assert(0 <= np / 100 <= np) by (nonlinear_arith)
                        requires
                            np > 0,
                    ;
                }
            }
            elapsed_ms >= q as u64
        },
        None => false,
    }
}

} // verus!
