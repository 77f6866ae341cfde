//! The decision core of a chess engine: principal-variation search with
//! quiescence and iterative deepening, a transposition table, an
//! incrementally updated quantised network evaluator and move ordering,
//! each stated and proved with Verus. Positions come from the cozy-chess
//! crate and are read only through the wrappers of `board`.
pub mod consts;
pub mod history;
pub mod lmr;
pub mod movegen;
pub mod moves;
pub mod nnue;
pub mod board;
pub mod position;
pub mod pv_table;
pub mod rules;
pub mod search;
pub mod stat_vec;
pub mod tt;
pub mod uci;
