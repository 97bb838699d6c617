//! Search: negamax alpha-beta with quiescence, aspiration windows and
//! iterative deepening, over the transposition table, move ordering, static
//! exchange evaluation, history heuristics, the principal variation, draw
//! decisions and the stop controls of a search.

pub mod clock;
pub mod control;
pub mod draw;
pub mod forced;
pub mod heuristics;
pub mod negamax;
pub mod ordering;
pub mod pool;
pub mod pv;
pub mod qs_log;
pub mod searcher;
pub mod see;
pub mod see_laws;
pub mod slots;
pub mod tt;
