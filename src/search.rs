use vstd::prelude::*;

use std::sync::atomic::{AtomicBool, Ordering};
use std::sync::Arc;
use std::time::Instant;

use crate::board::{
    board_hash, color_at, halfmove_at, hash_of, legal_of, piece_at, status_of, color_on, copy_board, game_state, halfmove_clock, in_check, legal_moves, null_move,
    piece_on, side_to_move, GameState,
};
use crate::consts::{INFINITY, MATE, MAX_MOVES_POSITION, MAX_PLY, NONE, TB_LOSS_IN_PLY};
use crate::history::History;
use crate::lmr::LMRTable;
use crate::movegen::{all_moves, capture_moves, kept, lemma_ranked_from, lemma_ranked_none_kept, Killers, Picker};
use crate::moves::{Color, Move, Piece};
use crate::nnue::NNUEState;
use crate::position::{is_capture, is_quiet, play_move};
use crate::pv_table::{legal_reply, reverse_castling_move, standard_castling_spec, PVTable};
use crate::rules::{
    bound_flag, draw_score_spec, repetition_spec, clamp_eval, clamp_eval_spec, clamp_to_band, draw_score, first_window,
    futility_prunes, is_repetition, late_move_reduction, lmp_limit, mate_distance_window,
    next_window, null_move_allowed, first_window_spec, next_window_spec, window_after, all_failed, null_move_reduction, reverse_futility_prunes, tt_cutoff,
};
use crate::stat_vec::StaticVec;
use crate::tt::{score_from_tt, AgeAndFlag, TTFlag, TT};
use crate::uci::SearchType;

verus! {

/// A point in time from std.
#[verifier::external_type_specification]
#[verifier::external_body]
pub struct ExInstant(std::time::Instant);

/// Relies on `Instant::now`.
#[verifier::external_body]
fn start_clock() -> (r: Instant) {
    Instant::now()
}

/// Relies on `Instant::elapsed`: whole milliseconds since `t`.
#[verifier::external_body]
fn elapsed_ms(t: &Instant) -> (r: u64) {
    t.elapsed().as_millis() as u64
}

/// How many nodes pass between two looks at the clock and the stop signal.
pub const POLL_INTERVAL: u64 = 1024;

/// Most searches the aspiration loop makes at one depth.
pub const MAX_ASPIRATION_TRIES: u32 = 64;

/// Per-ply record of the search path.
#[derive(Clone, Copy, PartialEq, Eq, Structural, Debug)]
pub struct StackEntry {
    pub eval: i32,
}

impl Default for StackEntry {
    fn default() -> (r: StackEntry)
        ensures
            r.eval == NONE,
    {
        StackEntry { eval: NONE }
    }
}

/// The mutable state of one worker.
pub struct SearchInfo {
    pub stop: bool,
    pub search_type: SearchType,
    pub timer: Option<Instant>,
    pub base_optimum: Option<u64>,
    pub max_time: Option<u64>,
    pub nodes: u64,
    pub node_table: Vec<u64>,
    pub seldepth: usize,
    pub game_history: Vec<u64>,
    pub killers: Vec<Killers>,
    pub history: History,
    pub stack: Vec<StackEntry>,
}

/// Number of (from, to) cells of the root node counts.
pub const NODE_CELLS: usize = 4096;

fn zeroed_counts() -> (r: Vec<u64>)
    ensures
        r.len() == NODE_CELLS,
        forall|i: int| 0 <= i < r.len() ==> r@[i] == 0,
{
    let mut v: Vec<u64> = Vec::new();
    let mut i: usize = 0;
    while i < NODE_CELLS
        invariant
            i <= NODE_CELLS,
            v.len() == i,
            forall|j: int| 0 <= j < i ==> v@[j] == 0,
        decreases NODE_CELLS - i,
    {
        v.push(0);
        i = i + 1;
    }
    v
}

fn empty_killers() -> (r: Vec<Killers>)
    ensures
        r.len() == MAX_PLY,
        forall|i: int| 0 <= i < r.len() ==> r@[i] == (None::<Move>, None::<Move>),
{
    let mut v: Vec<Killers> = Vec::new();
    let mut i: usize = 0;
    while i < MAX_PLY
        invariant
            i <= MAX_PLY,
            v.len() == i,
            forall|j: int| 0 <= j < i ==> v@[j] == (None::<Move>, None::<Move>),
        decreases MAX_PLY - i,
    {
        v.push((None, None));
        i = i + 1;
    }
    v
}

fn fresh_stack() -> (r: Vec<StackEntry>)
    ensures
        r.len() == MAX_PLY,
{
    let mut v: Vec<StackEntry> = Vec::new();
    let mut i: usize = 0;
    while i < MAX_PLY
        invariant
            i <= MAX_PLY,
            v.len() == i,
        decreases MAX_PLY - i,
    {
        v.push(StackEntry { eval: NONE });
        i = i + 1;
    }
    v
}

impl SearchInfo {
    pub open spec fn wf(&self) -> bool {
        &&& self.node_table.len() == NODE_CELLS
        &&& self.killers.len() == MAX_PLY
        &&& self.stack.len() == MAX_PLY
        &&& self.history.wf()
    }

    /// Fresh state: nothing searched, no killers, zero history.
    pub fn new() -> (r: SearchInfo)
        ensures
            r.wf(),
            !r.stop,
            r.nodes == 0,
            r.game_history@.len() == 0,
            forall|i: int| 0 <= i < r.history.table.len() ==> r.history.table@[i] == 0,
            forall|i: int| 0 <= i < MAX_PLY ==> r.killers@[i] == (None::<Move>, None::<Move>),
            forall|i: int| 0 <= i < NODE_CELLS ==> r.node_table@[i] == 0,
            r.timer is None,
            r.max_time is None,
            r.base_optimum is None,
            r.seldepth == 0,
    {
        SearchInfo {
            stop: false,
            search_type: SearchType::Depth(0),
            timer: None,
            base_optimum: None,
            max_time: None,
            nodes: 0,
            node_table: zeroed_counts(),
            seldepth: 0,
            game_history: Vec::new(),
            killers: empty_killers(),
            history: History::new(),
            stack: fresh_stack(),
        }
    }
}

/// One completed iteration of the root search.
#[derive(Debug)]
pub struct DepthReport {
    pub depth: usize,
    pub seldepth: usize,
    pub score: i32,
    pub nodes: u64,
    pub time_ms: u64,
    pub pv: Vec<Move>,
}

/// What a search hands back: the move to play, its score, and a report
/// of every completed iteration.
pub struct SearchOutcome {
    pub best_move: Option<Move>,
    pub score: i32,
    pub reports: Vec<DepthReport>,
}

/// The optimum time scaled by how much of the search went to the best
/// move: from 1.8 times (none of it) down to 0.6 times (all of it).
pub open spec fn optimum_spec(base: int, best_nodes: int, nodes: int) -> int {
    let raw = 1800 * nodes - 1200 * best_nodes;
    let permille = if nodes == 0 || raw < 0 { 0 } else { raw / nodes };
    let t = base * permille / 1000;
    if t > u64::MAX { u64::MAX as int } else { t }
}

pub fn optimum_time(base: u64, best_nodes: u64, nodes: u64) -> (r: u64)
    ensures
        r == optimum_spec(base as int, best_nodes as int, nodes as int),
{
    let n = nodes as u128;
    let b = best_nodes as u128;
    let permille: u128 = if nodes == 0 || 1800 * n < 1200 * b {
        0
    } else {
        let raw = 1800 * n - 1200 * b;
        assert(raw / n <= 1800) by (nonlinear_arith)
            requires
                raw <= 1800 * n,
                n > 0,
        ;
        raw / n
    };
    assert(base as u128 * permille <= 0xffff_ffff_ffff_ffff * 1800) by (nonlinear_arith)
        requires
            permille <= 1800,
            base <= 0xffff_ffff_ffff_ffffu64,
    ;
    let t = base as u128 * permille / 1000;
    if t > u64::MAX as u128 {
        u64::MAX
    } else {
        t as u64
    }
}

/// The move to announce: the variation's first move, else the first legal
/// move written as the outside world writes it, so that a move is announced
/// whenever one exists.
pub fn reply_for(board: &cozy_chess::Board, best_move: Option<Move>) -> (r: Option<Move>)
    requires
        best_move matches Some(m) ==> m.wf() && legal_reply(*board, m),
    ensures
        best_move is Some ==> r == best_move,
        r matches Some(m) ==> m.wf() && legal_reply(*board, m),
        legal_of(*board).len() > 0 ==> r is Some,
{
    match best_move {
        Some(m) => Some(m),
        None => {
            let legal = legal_moves(board);
            if legal.len() > 0 {
                let m = reverse_castling_move(board, legal[0]);
                assert(m == standard_castling_spec(piece_at(*board, legal_of(*board)[0].from), legal_of(*board)[0]));
                Some(m)
            } else {
                None
            }
        },
    }
}

/// Whether square `sq` of `b` holds a knight, bishop, rook or queen of `color`.
pub open spec fn is_piece_of(b: cozy_chess::Board, sq: u8, color: Color) -> bool {
    match (piece_at(b, sq), color_at(b, sq)) {
        (Some(Piece::Knight), Some(c)) | (Some(Piece::Bishop), Some(c)) | (Some(Piece::Rook), Some(c)) | (Some(Piece::Queen), Some(c)) => c == color,
        _ => false,
    }
}

/// One search worker: its evaluator, the table it shares, its own
/// ordering state, and the signal that stops it from outside.
pub struct Search {
    pub nnue: NNUEState,
    pub tt: TT,
    pub info: SearchInfo,
    pub lmr: LMRTable,
    pub stop_signal: Arc<AtomicBool>,
}

impl Search {
    pub open spec fn wf(&self) -> bool {
        &&& self.nnue.wf()
        &&& self.tt.wf()
        &&& self.lmr.wf()
        &&& self.info.wf()
    }

    /// What a search call leaves as it was: the evaluator's position on its
    /// stack and everything below it, the network, and the path's hashes.
    pub open spec fn frame_kept(&self, before: &Search) -> bool {
        &&& self.nnue.current_acc == before.nnue.current_acc
        &&& self.nnue.params == before.nnue.params
        &&& forall|i: int| 0 <= i <= before.nnue.current_acc ==> self.nnue.accumulators@[i] == before.nnue.accumulators@[i]
        &&& self.info.game_history@ == before.info.game_history@
        &&& (before.info.stop ==> self.info.stop)
    }

    /// The stand-pat value of the accumulator in use for `stm`.
    pub open spec fn static_eval_spec(&self, stm: Color) -> int {
        clamp_eval_spec(self.nnue.eval_spec(stm))
    }

    pub fn new(tt: TT, nnue: NNUEState, lmr: LMRTable, stop_signal: Arc<AtomicBool>) -> (r: Search)
        requires
            tt.wf(),
            nnue.wf(),
            lmr.wf(),
        ensures
            r.wf(),
            r.tt == tt,
            r.nnue == nnue,
            !r.info.stop,
    {
        Search { nnue, tt, info: SearchInfo::new(), lmr, stop_signal }
    }

    /// The static evaluation for `stm`, kept clear of the mate band.
    pub fn static_eval(&self, stm: Color) -> (r: i32)
        requires
            self.nnue.wf(),
        ensures
            r == self.static_eval_spec(stm),
            -INFINITY < r < INFINITY,
    {
        clamp_eval(self.nnue.evaluate(stm))
    }

    /// Sets the stop flag when the hard time limit has passed or a stop was
    /// signalled from outside.
    fn poll_stop(&mut self)
        ensures
            *final(self) == (Search { info: SearchInfo { stop: final(self).info.stop, ..old(self).info }, ..*old(self) }),
            old(self).info.stop ==> final(self).info.stop,
    {
        let mut out_of_time = false;
        if let Some(max) = self.info.max_time {
            if let Some(timer) = &self.info.timer {
                out_of_time = elapsed_ms(timer) >= max;
            }
        }
        if out_of_time || self.stop_signal.load(Ordering::Relaxed) {
            self.info.stop = true;
        }
    }

    fn count_node(&mut self)
        ensures
            *final(self) == (Search { info: SearchInfo { nodes: final(self).info.nodes, ..old(self).info }, ..*old(self) }),
    {
        if self.info.nodes < u64::MAX {
            self.info.nodes = self.info.nodes + 1;
        }
    }

    /// Whether `color` has a knight, bishop, rook or queen on `board`.
    fn non_pawn_material(&self, board: &cozy_chess::Board, color: Color) -> (r: bool)
        ensures
            r == exists|sq: u8| sq < 64 && #[trigger] is_piece_of(*board, sq, color),
    {
        let mut sq: u8 = 0;
        while sq < 64
            invariant
                sq <= 64,
                forall|t: u8| t < sq ==> !#[trigger] is_piece_of(*board, t, color),
            decreases 64 - sq,
        {
            assert(is_piece_of(*board, sq, color) == (match (piece_at(*board, sq), color_at(*board, sq)) {
                (Some(Piece::Knight), Some(c)) | (Some(Piece::Bishop), Some(c)) | (Some(Piece::Rook), Some(c)) | (Some(Piece::Queen), Some(c)) => c == color,
                _ => false,
            }));
            match (piece_on(board, sq), color_on(board, sq)) {
                (Some(Piece::Knight), Some(c)) | (Some(Piece::Bishop), Some(c)) | (Some(Piece::Rook), Some(c)) | (Some(Piece::Queen), Some(c)) => {
                    if c == color {
                        return true;
                    }
                },
                _ => {},
            }
            sq = sq + 1;
        }
        false
    }

    /// Quiescence search: captures and promotions only, from the stand-pat
    /// value of `stm`, the side to move on `board`. Unless stopped, it never
    /// returns less than that stand-pat value, and returns it unchanged when
    /// it reaches beta.
    /// Once stopped it writes nothing to the table.
    pub fn qsearch(&mut self, board: &cozy_chess::Board, stm: Color, alpha: i32, beta: i32, ply: usize, is_pv: bool) -> (r: i32)
        requires
            old(self).wf(),
            -INFINITY <= alpha < beta <= INFINITY,
            ply <= MAX_PLY,
            old(self).nnue.current_acc <= ply,
        ensures
            final(self).wf(),
            final(self).frame_kept(old(self)),
            -INFINITY <= r <= INFINITY,
            ply < MAX_PLY && !final(self).info.stop ==> r >= old(self).static_eval_spec(stm),
            is_pv && ply < MAX_PLY && !final(self).info.stop && old(self).static_eval_spec(stm) < beta
                && (forall|k: int| 0 <= k < legal_of(*board).len() ==> !kept(*board, #[trigger] legal_of(*board)[k], true))
                ==> r == old(self).static_eval_spec(stm),
            ply < MAX_PLY && !final(self).info.stop && old(self).static_eval_spec(stm) >= beta ==> {
                &&& r == old(self).static_eval_spec(stm)
                &&& final(self).tt == old(self).tt
                &&& final(self).info.nodes == old(self).info.nodes
            },
            old(self).info.stop ==> final(self).tt == old(self).tt,
            old(self).info.stop && ply > 0 ==> r == 0,
        decreases MAX_PLY - ply, 0int,
    {
        if self.info.nodes % POLL_INTERVAL == 0 {
            self.poll_stop();
            if self.info.stop {
                return 0;
            }
        }
        if self.info.stop && ply > 0 {
            return 0;
        }
        if ply >= MAX_PLY {
            return self.static_eval(stm);
        }
        let hash_key = board_hash(board);
        if ply > self.info.seldepth {
            self.info.seldepth = ply;
        }
        let stand_pat = self.static_eval(stm);
        let mut alpha = if stand_pat > alpha { stand_pat } else { alpha };
        if stand_pat >= beta {
            return stand_pat;
        }
        let tt_entry = self.tt.probe(hash_key);
        let tt_hit = tt_entry.key == #[verifier::truncate] (hash_key as u16);
        let mut tt_move: Option<Move> = None;
        if tt_hit && !is_pv && tt_entry.age_flag != AgeAndFlag(0) {
            let tt_score = clamp_to_band(score_from_tt(tt_entry.score, ply) as i32);
            tt_move = Some(tt_entry.mv.unpack());
            if tt_cutoff(tt_entry.age_flag.flag(), tt_score, alpha, beta) {
                // The stand-pat value stays a floor.
                return if tt_score > stand_pat { tt_score } else { stand_pat };
            }
        }
        let killers = self.info.killers[ply];
        let captures = capture_moves(board, tt_move, killers, &self.info.history);
        let ghost none_kept = forall|k: int| 0 <= k < legal_of(*board).len() ==> !kept(*board, #[trigger] legal_of(*board)[k], true);
        proof {
            if none_kept {
                lemma_ranked_none_kept(*board, legal_of(*board), tt_move, killers, self.info.history, true);
            }
        }
        let mut picker = Picker::new(captures);
        let mut best_score = stand_pat;
        let mut best_move: Option<Move> = None;
        let ghost start = *self;
        loop
            invariant_except_break
                -INFINITY <= alpha < beta <= INFINITY,
            invariant
                self.wf(),
                self.frame_kept(&start),
                start.frame_kept(old(self)),
                start.nnue.current_acc <= ply < MAX_PLY,
                picker.wf(),
                picker.moves_wf(),
                stand_pat <= best_score <= INFINITY,
                stand_pat == old(self).static_eval_spec(stm),
                old(self).info.stop ==> self.tt == old(self).tt,
                none_kept ==> picker.moves.len() == 0 && best_score == stand_pat,
                best_move matches Some(m) ==> m.wf(),
            decreases picker.moves.len() - picker.index,
        {
            let next = picker.pick_move();
            let mv = match next {
                None => break,
                Some(m) => m,
            };
            let ghost before = *self;
            let mut new_b = copy_board(board);
            play_move(&mut new_b, &mut self.nnue, mv);
            self.count_node();
            let score = -self.qsearch(&new_b, stm.other(), -beta, -alpha, ply + 1, is_pv);
            self.nnue.pop();
            assert(self.frame_kept(&before));
            if score <= best_score {
                continue;
            }
            best_score = score;
            if score <= alpha {
                continue;
            }
            alpha = score;
            best_move = Some(mv);
            if score >= beta {
                break;
            }
        }
        let flag = if best_score >= beta { TTFlag::LowerBound } else { TTFlag::UpperBound };
        if !self.info.stop {
            self.tt.store(hash_key, best_move, best_score as i16, 0, flag, ply);
        }
        best_score
    }
    /// Adds the nodes spent below root move `mv` to its count.
    fn credit_root_move(&mut self, mv: Move, previous_nodes: u64)
        requires
            old(self).wf(),
            mv.wf(),
        ensures
            final(self).wf(),
            final(self).frame_kept(old(self)),
            final(self).tt == old(self).tt,
    {
        let cell = mv.from as usize * 64 + mv.to as usize;
        let spent = if self.info.nodes >= previous_nodes { self.info.nodes - previous_nodes } else { 0 };
        let old_count = self.info.node_table[cell];
        let total = if old_count <= u64::MAX - spent { old_count + spent } else { u64::MAX };
        self.info.node_table.set(cell, total);
    }

    /// After quiet move `mv` failed high: it becomes the first killer of the
    /// ply, gains history, and every quiet move tried before it loses history.
    fn record_fail_high(&mut self, ply: usize, stm: Color, mv: Move, depth: i32, tried: &[Option<Move>])
        requires
            old(self).wf(),
            ply < MAX_PLY,
            mv.wf(),
            0 <= depth <= 255,
            forall|k: int| 0 <= k < tried@.len() ==> (#[trigger] tried@[k] matches Some(m) && m.wf()),
        ensures
            final(self).wf(),
            final(self).frame_kept(old(self)),
            final(self).info.killers@[ply as int] == (Some(mv), old(self).info.killers@[ply as int].0),
            final(self).tt == old(self).tt,
    {
        let previous_first = self.info.killers[ply].0;
        self.info.killers.set(ply, (Some(mv), previous_first));
        self.info.history.update_table(stm, mv, depth, true);
        let n = tried.len();
        let last = if n > 0 { n - 1 } else { 0 };
        let mut i: usize = 0;
        while i < last
            invariant
                self.wf(),
                n == tried@.len(),
                last <= n,
                0 <= depth <= 255,
                forall|k: int| 0 <= k < tried@.len() ==> (#[trigger] tried@[k] matches Some(m) && m.wf()),
                self.frame_kept(old(self)),
                self.info.killers@[ply as int] == (Some(mv), old(self).info.killers@[ply as int].0),
                self.tt == old(self).tt,
            decreases last - i,
        {
            if let Some(q) = tried[i] {
                assert(tried@[i as int] matches Some(m) && m.wf());
                self.info.history.update_table(stm, q, depth, false);
            }
            i = i + 1;
        }
    }

    /// Searches one move's child position: the first move with the full
    /// window; later ones with a null window at a reduced depth, again at
    /// full depth when that beats alpha, and with the full window when the
    /// score lands inside it.
    fn search_child(&mut self, child: &cozy_chess::Board, child_pv: &mut PVTable, alpha: i32, beta: i32, depth: i32, ply: usize, is_pv: bool, moves_played: usize, lmr_threshold: usize, capture: bool, gives_check: bool) -> (r: i32)
        requires
            old(self).wf(),
            old(child_pv).wf(),
            -INFINITY <= alpha < beta <= INFINITY,
            0 <= depth <= 201,
            ply < MAX_PLY,
            old(self).nnue.current_acc <= ply + 1,
            moves_played >= 1,
        ensures
            final(self).wf(),
            final(child_pv).wf(),
            final(child_pv).length < MAX_PLY - ply,
            final(self).frame_kept(old(self)),
            -INFINITY <= r <= INFINITY,
            old(self).info.stop ==> final(self).tt == old(self).tt,
        decreases MAX_PLY - ply, 0int,
    {
        if moves_played == 1 {
            return -self.pvsearch(child, child_pv, -beta, -alpha, depth - 1, ply + 1, is_pv);
        }
        let r = if depth >= 3 && moves_played > lmr_threshold {
            let c: i32 = if moves_played > 63 { 63 } else { moves_played as i32 };
            let base = self.lmr.reduction(depth, c);
            late_move_reduction(base, is_pv, capture, gives_check, depth)
        } else {
            1
        };
        let mut score = -self.pvsearch(child, child_pv, -alpha - 1, -alpha, depth - r, ply + 1, false);
        if score > alpha && r > 1 {
            score = -self.pvsearch(child, child_pv, -alpha - 1, -alpha, depth - 1, ply + 1, false);
        }
        if alpha < score && score < beta {
            score = -self.pvsearch(child, child_pv, -beta, -alpha, depth - 1, ply + 1, is_pv);
        }
        score
    }

    /// Principal-variation search of `board` at distance `ply` from the
    /// root, within (`alpha`, `beta`), to `depth` plies. `is_pv` marks a
    /// node on the principal variation. Leaves the variation found in `pv`.
    /// Once stopped it writes nothing to the table, and below the root it
    /// returns the neutral score 0. Otherwise a checkmated side scores
    /// `ply - MATE`, and a drawn position or a repetition within the
    /// halfmove window scores the jittered draw. At the root the variation
    /// left in `pv`, if any, starts with a legal move.
    #[verifier::rlimit(100)]
    pub fn pvsearch(&mut self, board: &cozy_chess::Board, pv: &mut PVTable, alpha: i32, beta: i32, depth: i32, ply: usize, is_pv: bool) -> (r: i32)
        requires
            old(self).wf(),
            old(pv).wf(),
            -INFINITY <= alpha < beta <= INFINITY,
            -1000 <= depth <= 200,
            ply <= MAX_PLY,
            old(self).nnue.current_acc <= ply,
        ensures
            final(self).wf(),
            final(pv).wf(),
            final(pv).length <= MAX_PLY - ply,
            final(self).frame_kept(old(self)),
            -INFINITY <= r <= INFINITY,
            old(self).info.stop ==> final(self).tt == old(self).tt,
            old(self).info.stop && ply > 0 ==> r == 0,
            ply < MAX_PLY && !final(self).info.stop && status_of(*board) == GameState::Won ==> r == ply - MATE,
            ply < MAX_PLY && !final(self).info.stop && status_of(*board) == GameState::Drawn ==> r == draw_score_spec(old(self).info.nodes as int),
            0 < ply < MAX_PLY && !final(self).info.stop && status_of(*board) == GameState::Ongoing
                && repetition_spec(old(self).info.game_history@, halfmove_at(*board) as int, hash_of(*board)) ==> {
                &&& r == draw_score_spec(old(self).info.nodes as int)
                &&& final(self).tt == old(self).tt
            },
            ply == 0 ==> final(pv).starts_legal(*board),
        decreases MAX_PLY - ply, 1int,
    {
        pv.clear();
        if self.info.nodes % POLL_INTERVAL == 0 {
            self.poll_stop();
        }
        if self.info.stop && ply > 0 {
            return 0;
        }
        let stm = side_to_move(board);
        if ply >= MAX_PLY {
            return self.static_eval(stm);
        }
        let hash_key = board_hash(board);
        if ply > self.info.seldepth {
            self.info.seldepth = ply;
        }
        let mut depth = if depth < 0 { 0 } else { depth };
        let mut old_pv = PVTable::new();
        match game_state(board) {
            GameState::Won => return ply as i32 - MATE,
            GameState::Drawn => return draw_score(self.info.nodes),
            GameState::Ongoing => {},
        }
        let root = ply == 0;
        if !root {
            if is_repetition(&self.info.game_history, halfmove_clock(board), hash_key) {
                return draw_score(self.info.nodes);
            }
            let (mate_alpha, mate_beta) = mate_distance_window(alpha, beta, ply);
            if mate_alpha >= mate_beta {
                return mate_alpha;
            }
        }
        let checked = in_check(board);
        if depth == 0 && !checked {
            return self.qsearch(board, stm, alpha, beta, ply, is_pv);
        }
        let tt_entry = self.tt.probe(hash_key);
        let tt_hit = tt_entry.key == #[verifier::truncate] (hash_key as u16);
        let tt_score = clamp_to_band(score_from_tt(tt_entry.score, ply) as i32);
        let mut tt_move: Option<Move> = None;
        if tt_hit {
            tt_move = Some(tt_entry.mv.unpack());
            if !is_pv && tt_entry.depth as i32 >= depth {
                if tt_cutoff(tt_entry.age_flag.flag(), tt_score, alpha, beta) {
                    return tt_score;
                }
            }
        }
        let eval = if tt_hit {
            tt_score
        } else if checked {
            -INFINITY
        } else {
            self.static_eval(stm)
        };

        // Internal iterative reduction: no stored move to start from.
        if depth >= 3 && !tt_hit {
            depth = depth - 1;
        }
        self.info.stack.set(ply, StackEntry { eval });
        let improving = ply >= 2 && !checked && eval > self.info.stack[ply - 2].eval;

        if !is_pv && !checked {
            if reverse_futility_prunes(eval, beta, depth, improving) {
                return eval;
            }
            if null_move_allowed(depth, eval, beta, self.non_pawn_material(board, stm)) {
                let r = null_move_reduction(depth, eval, beta);
                if let Some(new_b) = null_move(board) {
                    let score = -self.pvsearch(&new_b, &mut old_pv, -beta, -beta + 1, depth - r, ply + 1, false);
                    if score >= beta {
                        return beta;
                    }
                }
            }
        }

        let old_alpha = alpha;
        let mut alpha = alpha;
        let mut best_score = -INFINITY;
        let mut best_move: Option<Move> = None;
        let mut moves_played: usize = 0;
        let killers = self.info.killers[ply];
        let move_list = all_moves(board, tt_move, killers, &self.info.history);
        proof {
            lemma_ranked_from(*board, legal_of(*board), tt_move, killers, self.info.history, false);
        }
        let mut quiet_moves: StaticVec<Option<Move>, MAX_MOVES_POSITION> = StaticVec::new(None);
        let mut picker = Picker::new(move_list);
        let lmr_threshold: usize = if is_pv { 5 } else { 3 };
        let mut quiets_checked: usize = 0;
        let quiets_to_check = lmp_limit(depth);

        // Check extension.
        if checked {
            depth = depth + 1;
        }
        let ghost start = *self;
        loop
            invariant_except_break
                -INFINITY <= alpha < beta <= INFINITY,
            invariant
                self.wf(),
                pv.wf(),
                old_pv.wf(),
                pv.length <= MAX_PLY - ply,
                self.frame_kept(&start),
                start.frame_kept(old(self)),
                start.nnue.current_acc <= ply < MAX_PLY,
                picker.wf(),
                picker.moves_wf(),
                -INFINITY <= best_score <= INFINITY,
                best_move matches Some(m) ==> m.wf(),
                0 <= depth <= 201,
                -INFINITY <= eval <= INFINITY,
                quiet_moves.wf(),
                forall|i: int| 0 <= i < quiet_moves.view().len() ==> (#[trigger] quiet_moves.view()[i] matches Some(m) && m.wf()),
                moves_played <= picker.index,
                quiets_checked <= picker.index,
                old(self).info.stop ==> self.tt == old(self).tt,
                ply == 0 ==> pv.starts_legal(*board),
                forall|j: int| #![trigger picker.moves@[j]] 0 <= j < picker.moves.len() ==>
                    exists|k: int| 0 <= k < legal_of(*board).len() && picker.moves@[j].mv == #[trigger] legal_of(*board)[k],
            decreases picker.moves.len() - picker.index,
        {
            let ghost prev_moves = picker.moves@;
            let ghost prev_index = picker.index;
            let next = picker.pick_move();
            let mv = match next {
                None => break,
                Some(m) => m,
            };
            let ghost legal = legal_of(*board);
            assert forall|jj: int| #![trigger picker.moves@[jj]] 0 <= jj < picker.moves.len() implies
                exists|k: int| 0 <= k < legal.len() && picker.moves@[jj].mv == #[trigger] legal[k] by {
                let k0 = choose|k0: int| 0 <= k0 < prev_moves.len() && picker.moves@[jj] == #[trigger] prev_moves[k0];
            }
            assert(exists|k: int| 0 <= k < legal.len() && mv == #[trigger] legal[k]) by {
                assert(picker.moves@[prev_index as int].mv == mv);
            }
            let quiet = is_quiet(board, mv);
            let count: i32 = if moves_played < 1 { 1 } else if moves_played > 63 { 63 } else { moves_played as i32 };
            let lmr_reduction = self.lmr.reduction(depth, count);
            let lmr_depth = if depth - lmr_reduction > 0 { depth - lmr_reduction } else { 0 };
            if quiet {
                quiets_checked = quiets_checked + 1;
                if !is_pv && !checked && best_score > TB_LOSS_IN_PLY {
                    // Late move pruning.
                    if quiets_checked >= quiets_to_check {
                        break;
                    }
                    if futility_prunes(lmr_depth, eval, alpha) {
                        break;
                    }
                }
                if quiet_moves.len() < MAX_MOVES_POSITION {
                    quiet_moves.push(Some(mv));
                }
            }

            let ghost before = *self;
            let mut new_b = copy_board(board);
            play_move(&mut new_b, &mut self.nnue, mv);
            moves_played = moves_played + 1;
            self.info.game_history.push(hash_key);
            self.count_node();
            let previous_nodes = self.info.nodes;
            let gives_check = checked;

            let capture = if moves_played > 1 && depth >= 3 && moves_played > lmr_threshold { is_capture(board, mv) } else { false };
            let score = self.search_child(&new_b, &mut old_pv, alpha, beta, depth, ply, is_pv, moves_played, lmr_threshold, capture, gives_check);
            self.info.game_history.pop();
            self.nnue.pop();
            assert(self.info.game_history@ =~= before.info.game_history@);
            assert(self.frame_kept(&before));

            if root {
                self.credit_root_move(mv, previous_nodes);
            }

            if score <= best_score {
                continue;
            }
            best_score = score;
            if score <= alpha {
                continue;
            }
            alpha = score;
            best_move = Some(mv);
            pv.store(board, mv, &old_pv);
            proof {
                if ply == 0 {
                    let k = choose|k: int| 0 <= k < legal_of(*board).len() && mv == #[trigger] legal_of(*board)[k];
                    assert(pv.table@[0] == Some(standard_castling_spec(piece_at(*board, legal_of(*board)[k].from), legal_of(*board)[k])));
                }
            }

            // Fail high.
            if score >= beta {
                if quiet {
                    self.record_fail_high(ply, stm, mv, depth, quiet_moves.as_slice());
                }
                break;
            }
        }

        let flag = bound_flag(best_score, old_alpha, beta);
        if flag == TTFlag::UpperBound {
            best_move = None;
        }
        if !self.info.stop {
            self.tt.store(hash_key, best_move, best_score as i16, depth as u8, flag, ply);
        }
        best_score
    }
    /// Searches the root at `depth` inside an aspiration window around
    /// `prev_eval`, widening it on every failure; 0 once stopped. Unless
    /// stopped, the result is that of a root search that did not fail: it
    /// lies strictly inside the window reached from the first one through
    /// the scores of the searches that failed before it. The last allowed
    /// search uses the whole band, where only a score of exactly ±INFINITY
    /// counts as failing. The variation left in `pv` starts with a legal
    /// move.
    pub fn aspiration_window(&mut self, board: &cozy_chess::Board, pv: &mut PVTable, prev_eval: i32, depth: i32) -> (r: i32)
        requires
            old(self).wf(),
            old(pv).wf(),
            old(self).nnue.current_acc == 0,
            -INFINITY <= prev_eval <= INFINITY,
            1 <= depth <= 128,
        ensures
            final(self).wf(),
            final(pv).wf(),
            final(self).frame_kept(old(self)),
            -INFINITY <= r <= INFINITY,
            final(self).info.stop ==> r == 0,
            final(pv).starts_legal(*board),
            !final(self).info.stop ==> exists|fails: Seq<int>|
                #![trigger window_after(first_window_spec(prev_eval as int, depth as int), fails, depth as int)]
                fails.len() < MAX_ASPIRATION_TRIES
                && all_failed(first_window_spec(prev_eval as int, depth as int), fails, depth as int)
                && ({
                    let w = window_after(first_window_spec(prev_eval as int, depth as int), fails, depth as int);
                    if fails.len() + 1 < MAX_ASPIRATION_TRIES {
                        w.alpha < r < w.beta
                    } else {
                        -INFINITY <= r <= INFINITY
                    }
                }),
    {
        let mut w = first_window(prev_eval, depth);
        let mut tries: u32 = 0;
        let ghost mut fails: Seq<int> = Seq::empty();
        loop
            invariant
                self.wf(),
                pv.wf(),
                self.frame_kept(old(self)),
                self.nnue.current_acc == 0,
                w.wf(),
                1 <= depth <= 128,
                -1000 + 2 * MAX_ASPIRATION_TRIES - 2 * tries <= w.depth <= 128,
                tries < MAX_ASPIRATION_TRIES,
                fails.len() == tries,
                w == window_after(first_window_spec(prev_eval as int, depth as int), fails, depth as int),
                all_failed(first_window_spec(prev_eval as int, depth as int), fails, depth as int),
            decreases MAX_ASPIRATION_TRIES - tries,
        {
            let last = tries + 1 == MAX_ASPIRATION_TRIES;
            let (alpha, beta) = if last { (-INFINITY, INFINITY) } else { (w.alpha, w.beta) };
            let score = self.pvsearch(board, pv, alpha, beta, w.depth, 0, true);
            if self.info.stop {
                return 0;
            }
            if last {
                assert(window_after(first_window_spec(prev_eval as int, depth as int), fails, depth as int) == w);
                return score;
            }
            match next_window(w, score, depth) {
                None => {
                    assert(window_after(first_window_spec(prev_eval as int, depth as int), fails, depth as int) == w);
                    return score;
                },
                Some(n) => {
                    proof {
                        let f2 = fails.push(score as int);
                        assert(f2.drop_last() =~= fails);
                        fails = f2;
                    }
                    w = n;
                },
            }
            tries = tries + 1;
        }
    }

    /// Takes the budget of `st`: the depth limit, and the clock or node goal.
    fn start_budget(&mut self, st: SearchType) -> (r: (usize, Option<u64>, Option<u64>))
        requires
            old(self).wf(),
        ensures
            final(self).wf(),
            final(self).frame_kept(old(self)),
            final(self).nnue == old(self).nnue,
            r.0 <= MAX_PLY,
            r.0 == 0 <==> st == SearchType::Depth(0),
    {
        match st {
            SearchType::Time(opt, max) => {
                self.info.timer = Some(start_clock());
                self.info.max_time = Some(max);
                self.info.base_optimum = Some(opt);
                (MAX_PLY, Some(opt), None)
            },
            SearchType::Infinite => (MAX_PLY, None, None),
            SearchType::Depth(d) => (if d < MAX_PLY { d } else { MAX_PLY }, None, None),
            SearchType::Nodes(n) => (MAX_PLY, None, Some(n)),
        }
    }

    /// The line of a variation, its moves in order.
    fn line_of(pv: &PVTable) -> (r: Vec<Move>)
        requires
            pv.wf(),
        ensures
            r@.len() == pv.length,
            forall|i: int| 0 <= i < pv.length ==> pv.table@[i] == Some(#[trigger] r@[i]),
    {
        let mut out: Vec<Move> = Vec::new();
        let mut i: usize = 0;
        while i < pv.length
            invariant
                pv.wf(),
                i <= pv.length,
                out@.len() == i,
                forall|j: int| 0 <= j < i ==> pv.table@[j] == Some(#[trigger] out@[j]),
            decreases pv.length - i,
        {
            if let Some(m) = pv.table[i] {
                out.push(m);
            }
            i = i + 1;
        }
        out
    }

    /// Iterative deepening from `board` within the budget `st`: searches
    /// depth 1, 2, ... each in an aspiration window, keeps the best move of
    /// the deepest completed iteration (the first iteration always counts),
    /// and falls back to a legal move when no iteration produced one.
    pub fn iterative_deepening(&mut self, board: &cozy_chess::Board, st: SearchType) -> (r: SearchOutcome)
        requires
            old(self).wf(),
            old(self).nnue.current_acc == 0,
        ensures
            final(self).wf(),
            final(self).nnue.current_acc == 0,
            final(self).nnue.params == old(self).nnue.params,
            -INFINITY <= r.score <= INFINITY,
            r.best_move matches Some(m) ==> m.wf(),
            r.reports@.len() <= MAX_PLY,
            forall|i: int| 0 <= i < r.reports@.len() ==> (#[trigger] r.reports@[i]).depth == i + 1,
            st != SearchType::Depth(0) ==> r.reports@.len() >= 1,
            r.reports@.len() > 0 ==> r.score == r.reports@.last().score,
            r.best_move matches Some(m) ==> legal_reply(*board, m),
            legal_of(*board).len() > 0 ==> r.best_move is Some,
            r.reports@.len() > 0 && r.reports@.last().pv@.len() > 0 ==> r.best_move == Some(r.reports@.last().pv@[0]),
    {
        let (depth, opt_time, goal_nodes) = self.start_budget(st);
        let info_timer = start_clock();
        let mut best_move: Option<Move> = None;
        let mut score: i32 = 0;
        let mut pv = PVTable::new();
        let mut reports: Vec<DepthReport> = Vec::new();
        let mut d: usize = 1;
        while d <= depth
            invariant_except_break
                reports@.len() < d,
                reports@.len() == d - 1,
            invariant
                forall|i: int| 0 <= i < reports@.len() ==> (#[trigger] reports@[i]).depth == i + 1,
                reports@.len() >= 1 || (d == 1 && reports@.len() == 0),
                reports@.len() >= d - 1,
                depth == 0 <==> st == SearchType::Depth(0),
                self.wf(),
                pv.wf(),
                self.nnue.current_acc == 0,
                self.nnue.params == old(self).nnue.params,
                depth <= MAX_PLY,
                1 <= d <= depth + 1,
                -INFINITY <= score <= INFINITY,
                best_move matches Some(m) ==> m.wf() && legal_reply(*board, m),
                reports@.len() > 0 ==> score == reports@.last().score,
                reports@.len() > 0 && reports@.last().pv@.len() > 0 ==> best_move == Some(reports@.last().pv@[0]),
                reports@.len() <= d,
                reports@.len() <= depth,
            ensures
                depth >= 1 ==> reports@.len() >= 1,
            decreases depth + 1 - d,
        {
            self.info.seldepth = 0;
            let found = self.aspiration_window(board, &mut pv, score, d as i32);
            if self.info.stop && d > 1 {
                break;
            }
            score = found;
            best_move = pv.best_move();
            reports.push(DepthReport {
                depth: d,
                seldepth: self.info.seldepth,
                score,
                nodes: self.info.nodes,
                time_ms: elapsed_ms(&info_timer),
                pv: Self::line_of(&pv),
            });
            if let Some(nodes) = goal_nodes {
                if self.info.nodes >= nodes {
                    break;
                }
            }
            if let Some(base) = opt_time {
                if let Some(m) = best_move {
                    let best_nodes = self.info.node_table[m.from as usize * 64 + m.to as usize];
                    let opt = optimum_time(base, best_nodes, self.info.nodes);
                    if elapsed_ms(&info_timer) >= opt {
                        break;
                    }
                }
            }
            d = d + 1;
        }
        SearchOutcome { best_move: reply_for(board, best_move), score, reports }
    }

    /// A search by depth or node count for generating training data: the
    /// score and the move found. Other budgets search to the deepest depth.
    pub fn data_search(&mut self, board: &cozy_chess::Board, st: SearchType) -> (r: (i32, Option<Move>))
        requires
            old(self).wf(),
            old(self).nnue.current_acc == 0,
        ensures
            final(self).wf(),
            final(self).nnue.current_acc == 0,
            -INFINITY <= r.0 <= INFINITY,
            r.1 matches Some(m) ==> m.wf() && legal_reply(*board, m),
            legal_of(*board).len() > 0 ==> r.1 is Some,
    {
        let (depth, goal_nodes): (usize, Option<u64>) = match st {
            SearchType::Depth(d) => (if d < MAX_PLY { d } else { MAX_PLY }, None),
            SearchType::Nodes(n) => (MAX_PLY, Some(n)),
            _ => (MAX_PLY, None),
        };
        self.nnue.refresh(board);
        let mut best_move: Option<Move> = None;
        let mut score: i32 = 0;
        let mut pv = PVTable::new();
        let mut d: usize = 1;
        while d <= depth
            invariant
                self.wf(),
                pv.wf(),
                self.nnue.current_acc == 0,
                depth <= MAX_PLY,
                1 <= d <= depth + 1,
                -INFINITY <= score <= INFINITY,
                best_move matches Some(m) ==> m.wf() && legal_reply(*board, m),
            decreases depth + 1 - d,
        {
            self.info.seldepth = 0;
            let found = self.aspiration_window(board, &mut pv, score, d as i32);
            if self.info.stop && d > 1 {
                break;
            }
            score = found;
            best_move = pv.best_move();
            if let Some(nodes) = goal_nodes {
                if self.info.nodes >= nodes {
                    break;
                }
            }
            d = d + 1;
        }
        (score, reply_for(board, best_move))
    }

    /// Prepares for the next search of the same game: clears the budget,
    /// counters and killers, halves the history and ages the table.
    pub fn go_reset(&mut self)
        requires
            old(self).wf(),
        ensures
            final(self).wf(),
            !final(self).info.stop,
            final(self).info.nodes == 0,
            final(self).info.seldepth == 0,
            final(self).info.timer is None,
            final(self).info.max_time is None,
            final(self).info.base_optimum is None,
            forall|i: int| 0 <= i < NODE_CELLS ==> final(self).info.node_table@[i] == 0,
            final(self).nnue == old(self).nnue,
            final(self).tt.entries == old(self).tt.entries,
            final(self).tt.epoch == if old(self).tt.epoch < 63 { old(self).tt.epoch + 1 } else { 63int },
            forall|i: int| 0 <= i < MAX_PLY ==> final(self).info.killers@[i] == (None::<Move>, None::<Move>),
            forall|i: int| 0 <= i < final(self).info.history.table.len() ==> final(self).info.history.table@[i] == crate::consts::trunc_div(old(self).info.history.table@[i] as int, 2),
    {
        self.info.stop = false;
        self.info.search_type = SearchType::Depth(0);
        self.info.timer = None;
        self.info.max_time = None;
        self.info.base_optimum = None;
        self.info.nodes = 0;
        self.info.node_table = zeroed_counts();
        self.info.seldepth = 0;
        self.info.killers = empty_killers();
        self.info.history.age_table();
        self.tt.age();
    }

    /// Prepares for a new game: empties the table and starts the worker's
    /// state afresh.
    pub fn game_reset(&mut self)
        requires
            old(self).wf(),
        ensures
            final(self).wf(),
            final(self).nnue == old(self).nnue,
            forall|i: int| 0 <= i < final(self).tt.entries.len() ==> final(self).tt.entries@[i] == crate::tt::TTEntry::empty(),
            final(self).info.nodes == 0,
            !final(self).info.stop,
            final(self).info.timer is None,
            forall|i: int| 0 <= i < MAX_PLY ==> final(self).info.killers@[i] == (None::<Move>, None::<Move>),
            forall|i: int| 0 <= i < final(self).info.history.table.len() ==> final(self).info.history.table@[i] == 0,
    {
        self.tt.reset();
        self.info = SearchInfo::new();
    }
}

} // verus!
