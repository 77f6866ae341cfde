use vstd::prelude::*;

use crate::consts::{trunc_div, INFINITY, MATE, MATE_IN, MAX_MOVES_POSITION, MAX_PLY};
use crate::tt::TTFlag;

verus! {

/// Depth below which reverse futility pruning applies.
pub const RFP_DEPTH: i32 = 9;

/// Reverse futility margin per ply of depth.
pub const RFP_MARGIN: i32 = 75;

/// Futility margin per ply of reduced depth.
pub const FP_COEFFICIENT: i32 = 100;

/// Futility margin at reduced depth zero.
pub const FP_MARGIN: i32 = 75;

/// Reduced depth below which futility pruning applies.
pub const FP_DEPTH: i32 = 6;

/// Initial half-width of the aspiration window.
pub const ASPIRATION_DELTA: i32 = 25;

/// Largest half-width of the aspiration window; wider than the whole band.
pub const MAX_DELTA: i32 = 100000;

/// Depth from which iterations start with an aspiration window.
pub const ASPIRATION_DEPTH: i32 = 5;

/// A score clamped into the legal band.
pub open spec fn clamp_band(s: int) -> int {
    if s < -INFINITY {
        -INFINITY as int
    } else if s > INFINITY {
        INFINITY as int
    } else {
        s
    }
}

pub fn clamp_to_band(s: i32) -> (r: i32)
    ensures
        r == clamp_band(s as int),
{
    if s < -INFINITY {
        -INFINITY
    } else if s > INFINITY {
        INFINITY
    } else {
        s
    }
}

/// A static evaluation kept clear of the mate band, so that an evaluation
/// never reads as a forced mate.
pub open spec fn clamp_eval_spec(s: int) -> int {
    if s <= -MATE_IN {
        -MATE_IN + 1
    } else if s >= MATE_IN {
        MATE_IN - 1
    } else {
        s
    }
}

pub fn clamp_eval(s: i32) -> (r: i32)
    ensures
        r == clamp_eval_spec(s as int),
        -MATE_IN < r < MATE_IN,
{
    if s <= -MATE_IN {
        -MATE_IN + 1
    } else if s >= MATE_IN {
        MATE_IN - 1
    } else {
        s
    }
}

/// The draw score, jittered by the node counter: between 1 and 8.
pub open spec fn draw_score_spec(nodes: int) -> int {
    8 - nodes % 8
}

pub fn draw_score(nodes: u64) -> (r: i32)
    ensures
        r == draw_score_spec(nodes as int),
        1 <= r <= 8,
{
    8 - (nodes % 8) as i32
}

/// Mate distance pruning: the window narrowed to the best mate still
/// possible from `ply`; the node is cut when it closes.
pub open spec fn mate_window(alpha: int, beta: int, ply: int) -> (int, int) {
    let a = if alpha > ply - MATE { alpha } else { ply - MATE };
    let b = if beta < MATE - (ply + 1) { beta } else { MATE - (ply + 1) };
    (a, b)
}

pub fn mate_distance_window(alpha: i32, beta: i32, ply: usize) -> (r: (i32, i32))
    requires
        ply <= MAX_PLY,
    ensures
        (r.0 as int, r.1 as int) == mate_window(alpha as int, beta as int, ply as int),
{
    let p = ply as i32;
    let a = if alpha > p - MATE { alpha } else { p - MATE };
    let b = if beta < MATE - (p + 1) { beta } else { MATE - (p + 1) };
    (a, b)
}

/// Whether a stored bound settles the node: an exact score, a lower bound
/// at or above beta, or an upper bound at or below alpha.
pub open spec fn tt_cutoff_spec(flag: TTFlag, score: int, alpha: int, beta: int) -> bool {
    flag == TTFlag::Exact || (flag == TTFlag::LowerBound && score >= beta) || (flag == TTFlag::UpperBound && score <= alpha)
}

pub fn tt_cutoff(flag: TTFlag, score: i32, alpha: i32, beta: i32) -> (r: bool)
    ensures
        r == tt_cutoff_spec(flag, score as int, alpha as int, beta as int),
{
    flag == TTFlag::Exact || (flag == TTFlag::LowerBound && score >= beta) || (flag == TTFlag::UpperBound && score <= alpha)
}

/// Reverse futility pruning: at shallow depth, a static evaluation that
/// beats beta by a depth-scaled margin (halved when improving) cuts the node.
pub open spec fn rfp_spec(eval: int, beta: int, depth: int, improving: bool) -> bool {
    depth < RFP_DEPTH && eval >= beta + (RFP_MARGIN * depth) / (if improving { 2int } else { 1int })
}

pub fn reverse_futility_prunes(eval: i32, beta: i32, depth: i32, improving: bool) -> (r: bool)
    requires
        0 <= depth,
        -INFINITY <= beta <= INFINITY,
    ensures
        r == rfp_spec(eval as int, beta as int, depth as int, improving),
{
    if depth >= RFP_DEPTH {
        return false;
    }
    let div: i32 = if improving { 2 } else { 1 };
    eval >= beta + RFP_MARGIN * depth / div
}

/// Whether null-move pruning is tried: enough depth, an evaluation at or
/// above beta, and pieces besides pawns (to stay clear of zugzwang).
pub open spec fn nmp_spec(depth: int, eval: int, beta: int, has_pieces: bool) -> bool {
    depth >= 3 && eval >= beta && has_pieces
}

pub fn null_move_allowed(depth: i32, eval: i32, beta: i32, has_pieces: bool) -> (r: bool)
    ensures
        r == nmp_spec(depth as int, eval as int, beta as int, has_pieces),
{
    depth >= 3 && eval >= beta && has_pieces
}

/// Depth reduction of the null-move search.
pub open spec fn nmp_reduction_spec(depth: int, eval: int, beta: int) -> int {
    let extra = (eval - beta) / 200;
    3 + depth / 3 + if extra < 3 { extra } else { 3 }
}

pub fn null_move_reduction(depth: i32, eval: i32, beta: i32) -> (r: i32)
    requires
        0 <= depth <= 1000,
        -INFINITY <= eval <= INFINITY,
        -INFINITY <= beta <= eval,
    ensures
        r == nmp_reduction_spec(depth as int, eval as int, beta as int),
        3 <= r <= 6 + depth / 3,
{
    let extra = (eval - beta) / 200;
    3 + depth / 3 + if extra < 3 { extra } else { 3 }
}

/// Late move pruning: how many quiet moves are searched at `depth`.
pub open spec fn lmp_limit_spec(depth: int) -> int {
    if depth == 1 {
        5
    } else if depth == 2 {
        8
    } else if depth == 3 {
        18
    } else {
        MAX_MOVES_POSITION as int
    }
}

pub fn lmp_limit(depth: i32) -> (r: usize)
    ensures
        r == lmp_limit_spec(depth as int),
{
    if depth == 1 {
        5
    } else if depth == 2 {
        8
    } else if depth == 3 {
        18
    } else {
        MAX_MOVES_POSITION
    }
}

/// Futility pruning: at small reduced depth, a quiet move whose static
/// evaluation plus a margin cannot reach alpha ends the move loop.
pub open spec fn futility_spec(lmr_depth: int, eval: int, alpha: int) -> bool {
    lmr_depth < FP_DEPTH && eval + lmr_depth * FP_COEFFICIENT + FP_MARGIN <= alpha
}

pub fn futility_prunes(lmr_depth: i32, eval: i32, alpha: i32) -> (r: bool)
    requires
        0 <= lmr_depth <= 40000,
        -INFINITY <= eval <= INFINITY,
    ensures
        r == futility_spec(lmr_depth as int, eval as int, alpha as int),
{
    lmr_depth < FP_DEPTH && eval + lmr_depth * FP_COEFFICIENT + FP_MARGIN <= alpha
}

/// Late move reduction: the table's value, one more off the principal
/// variation, one less for a capture and for a check, kept in 1..depth-1.
pub open spec fn lmr_spec(base: int, pv: bool, capture: bool, check: bool, depth: int) -> int {
    let r = base + (if pv { 0int } else { 1int }) - (if capture { 1int } else { 0int }) - (if check { 1int } else { 0int });
    if r < 1 {
        1
    } else if r > depth - 1 {
        depth - 1
    } else {
        r
    }
}

pub fn late_move_reduction(base: i32, pv: bool, capture: bool, check: bool, depth: i32) -> (r: i32)
    requires
        -40000 <= base <= 40000,
        2 <= depth,
    ensures
        r == lmr_spec(base as int, pv, capture, check, depth as int),
        1 <= r <= depth - 1,
{
    let mut r = base;
    if !pv {
        r = r + 1;
    }
    if capture {
        r = r - 1;
    }
    if check {
        r = r - 1;
    }
    if r < 1 {
        1
    } else if r > depth - 1 {
        depth - 1
    } else {
        r
    }
}

/// What the best score says about the node: a lower bound when it reached
/// beta, exact when it raised alpha, else (a fail low) an upper bound.
pub open spec fn bound_spec(best: int, old_alpha: int, beta: int) -> TTFlag {
    if best >= beta {
        TTFlag::LowerBound
    } else if best > old_alpha {
        TTFlag::Exact
    } else {
        TTFlag::UpperBound
    }
}

pub fn bound_flag(best: i32, old_alpha: i32, beta: i32) -> (r: TTFlag)
    ensures
        r == bound_spec(best as int, old_alpha as int, beta as int),
{
    if best >= beta {
        TTFlag::LowerBound
    } else if best > old_alpha {
        TTFlag::Exact
    } else {
        TTFlag::UpperBound
    }
}

/// The state of the aspiration loop at one depth.
#[derive(Clone, Copy, PartialEq, Eq, Structural, Debug)]
pub struct Window {
    pub alpha: i32,
    pub beta: i32,
    pub delta: i32,
    pub depth: i32,
}

impl Window {
    pub open spec fn wf(self) -> bool {
        &&& -INFINITY <= self.alpha < self.beta <= INFINITY
        &&& ASPIRATION_DELTA <= self.delta <= MAX_DELTA
    }
}

/// The first window at depth `depth`: full below the aspiration depth,
/// else `delta` either side of the previous score.
pub open spec fn first_window_spec(prev: int, depth: int) -> Window {
    if depth >= ASPIRATION_DEPTH {
        Window {
            alpha: (if prev - ASPIRATION_DELTA > -INFINITY { prev - ASPIRATION_DELTA } else { -INFINITY as int }) as i32,
            beta: (if prev + ASPIRATION_DELTA < INFINITY { prev + ASPIRATION_DELTA } else { INFINITY as int }) as i32,
            delta: ASPIRATION_DELTA,
            depth: depth as i32,
        }
    } else {
        Window { alpha: (-INFINITY) as i32, beta: INFINITY, delta: ASPIRATION_DELTA, depth: depth as i32 }
    }
}

pub fn first_window(prev: i32, depth: i32) -> (r: Window)
    requires
        -INFINITY <= prev <= INFINITY,
    ensures
        r == first_window_spec(prev as int, depth as int),
        r.wf(),
{
    if depth >= ASPIRATION_DEPTH {
        let a = if prev - ASPIRATION_DELTA > -INFINITY { prev - ASPIRATION_DELTA } else { -INFINITY };
        let b = if prev + ASPIRATION_DELTA < INFINITY { prev + ASPIRATION_DELTA } else { INFINITY };
        Window { alpha: a, beta: b, delta: ASPIRATION_DELTA, depth }
    } else {
        Window { alpha: -INFINITY, beta: INFINITY, delta: ASPIRATION_DELTA, depth }
    }
}

/// The window after a search returned `score`: `None` when the score fell
/// inside; after a fail low the window moves down and the depth returns to
/// `init_depth`; after a fail high the window moves up and the depth drops
/// by one unless the score is a mate score. The width grows by half, up to
/// a width past the whole band. Every widened window is again a proper
/// window inside the band.
pub open spec fn next_window_spec(w: Window, score: int, init_depth: int) -> Option<Window> {
    let grown = if w.delta + w.delta / 2 < MAX_DELTA { w.delta + w.delta / 2 } else { MAX_DELTA as int };
    if score <= w.alpha {
        Some(Window {
            alpha: (if score - w.delta > -INFINITY { score - w.delta } else { -INFINITY as int }) as i32,
            beta: trunc_div(w.alpha + w.beta, 2) as i32,
            delta: grown as i32,
            depth: init_depth as i32,
        })
    } else if score >= w.beta {
        let mate = score >= MATE_IN || score <= -MATE_IN;
        Some(Window {
            alpha: w.alpha,
            beta: (if score + w.delta < INFINITY { score + w.delta } else { INFINITY as int }) as i32,
            delta: grown as i32,
            depth: (if mate { w.depth as int } else { w.depth - 1 }) as i32,
        })
    } else {
        None
    }
}

pub fn next_window(w: Window, score: i32, init_depth: i32) -> (r: Option<Window>)
    requires
        w.wf(),
        -INFINITY <= score <= INFINITY,
        w.depth > -1000,
    ensures
        r == next_window_spec(w, score as int, init_depth as int),
        r matches Some(n) ==> n.wf(),
{
    let grown = if w.delta + w.delta / 2 < MAX_DELTA { w.delta + w.delta / 2 } else { MAX_DELTA };
    if score <= w.alpha {
        let a = if score - w.delta > -INFINITY { score - w.delta } else { -INFINITY };
        let sum = w.alpha + w.beta;
        let mid = if sum >= 0 { sum / 2 } else { -((-sum) / 2) };
        Some(Window { alpha: a, beta: mid, delta: grown, depth: init_depth })
    } else if score >= w.beta {
        let mate = score >= MATE_IN || score <= -MATE_IN;
        let b = if score + w.delta < INFINITY { score + w.delta } else { INFINITY };
        Some(Window { alpha: w.alpha, beta: b, delta: grown, depth: if mate { w.depth } else { w.depth - 1 } })
    } else {
        None
    }
}

/// The window after failed searches returned `fails`, in order, starting
/// from `w`.
pub open spec fn window_after(w: Window, fails: Seq<int>, init_depth: int) -> Window
    decreases fails.len(),
{
    if fails.len() == 0 {
        w
    } else {
        let prev = window_after(w, fails.drop_last(), init_depth);
        match next_window_spec(prev, fails.last(), init_depth) {
            Some(n) => n,
            None => prev,
        }
    }
}

/// Whether every score of `fails` failed the window it was searched in,
/// starting from `w`.
pub open spec fn all_failed(w: Window, fails: Seq<int>, init_depth: int) -> bool
    decreases fails.len(),
{
    if fails.len() == 0 {
        true
    } else {
        &&& all_failed(w, fails.drop_last(), init_depth)
        &&& next_window_spec(window_after(w, fails.drop_last(), init_depth), fails.last(), init_depth) is Some
    }
}

/// Whether the position recurred within the last `window` plies of
/// `history`, counting back from the newest entry and skipping it.
pub open spec fn repetition_spec(history: Seq<u64>, window: int, hash: u64) -> bool {
    exists|i: int| 0 <= i < history.len() && history.len() - window <= i && i <= history.len() - 2 && #[trigger] history[i] == hash
}

/// Two-fold repetition: `hash` among the positions since the last
/// irreversible move, the newest one excluded.
pub fn is_repetition(history: &Vec<u64>, halfmove_clock: u8, hash: u64) -> (r: bool)
    ensures
        r == repetition_spec(history@, halfmove_clock as int, hash),
{
    let n = history.len();
    let window = halfmove_clock as usize;
    if n < 2 || window == 0 {
        return false;
    }
    let low: usize = if window >= n { 0 } else { n - window };
    let mut i: usize = n - 1;
    while i > low
        invariant
            n == history.len(),
            n >= 2,
            window == halfmove_clock as usize,
            window > 0,
            low <= i <= n - 1,
            low == if window >= n { 0 } else { n - window },
            forall|j: int| i <= j <= n - 2 ==> history@[j] != hash,
        decreases i,
    {
        if history[i - 1] == hash {
            let ghost k = i - 1;
            assert(0 <= k < history@.len() && history@.len() - halfmove_clock as int <= k && k <= history@.len() - 2 && history@[k] == hash);
            return true;
        }
        i = i - 1;
    }
    false
}

} // verus!
