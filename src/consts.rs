use vstd::prelude::*;

verus! {

/// Deepest ply the search ever reaches.
pub const MAX_PLY: usize = 128;

/// Upper bound on the number of legal moves in any chess position.
pub const MAX_MOVES_POSITION: usize = 218;

/// Sentinel for "no score"; strictly above every real score.
pub const NONE: i32 = 32002;

/// Finite bound on every score the search produces.
pub const INFINITY: i32 = 32001;

/// Score of delivering mate at the root; mate in `n` plies scores `MATE - n`.
pub const MATE: i32 = 32000;

/// Every score at or above this is a mate score.
pub const MATE_IN: i32 = 31872;

/// Scores at or above this are stored ply-relative in the transposition table.
pub const TB_WIN_IN_PLY: i32 = 31744;

/// Scores at or below this are stored ply-relative in the transposition table.
pub const TB_LOSS_IN_PLY: i32 = -31744;

/// Milliseconds kept back from a clock budget for communication overhead.
pub const TIME_OVERHEAD: u64 = 10;

/// The packed encoding of "no move".
pub const NOMOVE: u16 = 0;

/// Integer division rounding toward zero, as Rust's `/` does.
pub open spec fn trunc_div(a: int, b: int) -> int {
    if a >= 0 {
        a / b
    } else {
        -((-a) / b)
    }
}

/// Divides rounding toward zero.
pub fn div_toward_zero(a: i64, b: i64) -> (r: i64)
    requires
        b > 0,
        a > i64::MIN,
    ensures
        r == trunc_div(a as int, b as int),
{
    if a >= 0 {
        a / b
    } else {
        let q = (-a) / b;
        -q
    }
}

/// Score of being checkmated at distance `ply` from the root.
pub open spec fn mated_in(ply: int) -> int {
    ply - MATE
}

/// Score of delivering checkmate at distance `ply` from the root.
pub open spec fn mate_in(ply: int) -> int {
    MATE - ply
}

/// Mating in one ply scores strictly higher than mating in three, which
/// scores strictly higher than any score that is not a mate score.
pub proof fn lemma_mate_ordering(non_mate: int)
    requires
        -MATE_IN < non_mate < MATE_IN,
    ensures
        mate_in(1) > mate_in(3),
        mate_in(3) > non_mate,
        mated_in(1) < mated_in(3) < non_mate,
{
}

/// A shorter mate always scores higher than a longer one, and every mate
/// reachable within the search horizon counts as a mate score.
pub proof fn lemma_shorter_mate_scores_higher(a: int, b: int)
    requires
        0 <= a < b <= MAX_PLY,
    ensures
        mate_in(a) > mate_in(b),
        mate_in(b) >= MATE_IN,
        mated_in(a) < mated_in(b) <= -MATE_IN,
{
}

} // verus!
