use vstd::prelude::*;

use crate::board::{legal_moves, legal_of, piece_at, piece_on, side_at, side_to_move};
use crate::consts::{INFINITY, MAX_MOVES_POSITION};
use crate::history::History;
use crate::moves::{Move, Piece};
use crate::position::{capture_at, is_capture};

verus! {

/// A move and its ordering score.
#[derive(Clone, Copy, PartialEq, Eq, Structural, Debug)]
pub struct MoveEntry {
    pub mv: Move,
    pub score: i32,
}

/// The two killer moves of one ply, most recent first.
pub type Killers = (Option<Move>, Option<Move>);

/// Rank of the transposition table's move.
pub const TT_MOVE_SCORE: i32 = 1032001;

/// Rank of a promotion.
pub const PROMOTION_SCORE: i32 = 310000;

/// Base rank of a capture, to which its victim/attacker score is added.
pub const CAPTURE_SCORE: i32 = 200000;

/// Rank of the first killer.
pub const FIRST_KILLER_SCORE: i32 = 100000;

/// Rank of the second killer.
pub const SECOND_KILLER_SCORE: i32 = 95000;

/// Number that indexes the victim/attacker table: none 0, pawn 1 up to king 6.
pub open spec fn piece_num_spec(p: Option<Piece>) -> int {
    match p {
        None => 0,
        Some(k) => k.index_spec() as int + 1,
    }
}

pub fn piece_num(p: Option<Piece>) -> (r: i32)
    ensures
        r == piece_num_spec(p),
        0 <= r <= 6,
{
    match p {
        None => 0,
        Some(k) => k.index() as i32 + 1,
    }
}

/// The piece number on `square` of `board`.
pub fn piece_num_at(board: &cozy_chess::Board, square: u8) -> (r: i32)
    requires
        square < 64,
    ensures
        r == piece_num_spec(piece_at(*board, square)),
        0 <= r <= 6,
{
    piece_num(piece_on(board, square))
}

/// Most valuable victim, least valuable attacker: a hundred per victim
/// number, less one per attacker number; an empty destination (en passant)
/// counts as a pawn, and no attacker scores nothing.
pub open spec fn mvvlva_spec(victim: int, attacker: int) -> int {
    let v = if victim == 0 { 1 } else { victim };
    if attacker == 0 {
        0
    } else {
        v * 100 + 6 - attacker
    }
}

pub fn mvvlva_score(victim: i32, attacker: i32) -> (r: i32)
    requires
        0 <= victim <= 6,
        0 <= attacker <= 6,
    ensures
        r == mvvlva_spec(victim as int, attacker as int),
        0 <= r <= 605,
{
    let v = if victim == 0 { 1 } else { victim };
    if attacker == 0 {
        0
    } else {
        v * 100 + 6 - attacker
    }
}

/// The victim/attacker score of `mv` on board `b`.
pub open spec fn mvvlva_at(b: cozy_chess::Board, mv: Move) -> int {
    mvvlva_spec(piece_num_spec(piece_at(b, mv.to)), piece_num_spec(piece_at(b, mv.from)))
}

/// The victim/attacker score of `mv` on `board`.
pub fn mvvlva(board: &cozy_chess::Board, mv: Move) -> (r: i32)
    requires
        mv.wf(),
    ensures
        r == mvvlva_at(*board, mv),
        0 <= r <= 605,
{
    let attacker = piece_num_at(board, mv.from);
    let victim = piece_num_at(board, mv.to);
    mvvlva_score(victim, attacker)
}

/// The ordering rank of a move: the table's move first, then promotions,
/// captures by victim and attacker, the two killers, and the history score.
pub open spec fn rank_spec(mv: Move, tt_move: Option<Move>, capture: bool, mvv: int, killers: Killers, hist: int) -> int {
    if tt_move == Some(mv) {
        TT_MOVE_SCORE as int
    } else if mv.promotion is Some {
        PROMOTION_SCORE as int
    } else if capture {
        mvv + CAPTURE_SCORE
    } else if killers.0 == Some(mv) {
        FIRST_KILLER_SCORE as int
    } else if killers.1 == Some(mv) {
        SECOND_KILLER_SCORE as int
    } else {
        hist
    }
}

pub fn move_rank(mv: Move, tt_move: Option<Move>, capture: bool, mvv: i32, killers: Killers, hist: i32) -> (r: i32)
    requires
        0 <= mvv <= 605,
    ensures
        r == rank_spec(mv, tt_move, capture, mvv as int, killers, hist as int),
{
    if tt_move == Some(mv) {
        TT_MOVE_SCORE
    } else if mv.promotion.is_some() {
        PROMOTION_SCORE
    } else if capture {
        mvv + CAPTURE_SCORE
    } else if killers.0 == Some(mv) {
        FIRST_KILLER_SCORE
    } else if killers.1 == Some(mv) {
        SECOND_KILLER_SCORE
    } else {
        hist
    }
}

/// The ordering rank of `mv` on board `b`.
pub open spec fn score_spec(b: cozy_chess::Board, mv: Move, tt_move: Option<Move>, killers: Killers, history: History) -> int {
    let capture = capture_at(b, mv);
    rank_spec(mv, tt_move, capture, if capture { mvvlva_at(b, mv) } else { 0 }, killers, history.value(side_at(b), mv))
}

/// Whether the ranked list keeps `mv`: every move, or in a capture list
/// the captures (en passant included) and promotions.
pub open spec fn kept(b: cozy_chess::Board, mv: Move, captures_only: bool) -> bool {
    !captures_only || capture_at(b, mv) || mv.promotion is Some
}

/// The moves of `moves` that the list keeps, each with its rank.
pub open spec fn ranked(b: cozy_chess::Board, moves: Seq<Move>, tt_move: Option<Move>, killers: Killers, history: History, captures_only: bool) -> Seq<MoveEntry>
    decreases moves.len(),
{
    if moves.len() == 0 {
        Seq::empty()
    } else {
        let prev = ranked(b, moves.drop_last(), tt_move, killers, history, captures_only);
        let mv = moves.last();
        if kept(b, mv, captures_only) {
            prev.push(MoveEntry { mv, score: score_spec(b, mv, tt_move, killers, history) as i32 })
        } else {
            prev
        }
    }
}

/// The ordering rank of `mv` on `board`.
pub fn score_moves(board: &cozy_chess::Board, mv: Move, tt_move: Option<Move>, killers: Killers, history: &History) -> (r: i32)
    requires
        mv.wf(),
        history.wf(),
    ensures
        r == score_spec(*board, mv, tt_move, killers, *history),
{
    let capture = is_capture(board, mv);
    let mvv = if capture { mvvlva(board, mv) } else { 0 };
    let hist = history.get_score(side_to_move(board), mv);
    move_rank(mv, tt_move, capture, mvv, killers, hist)
}

/// Ranks each move of `moves` that the list keeps.
fn rank_all(board: &cozy_chess::Board, moves: &Vec<Move>, tt_move: Option<Move>, killers: Killers, history: &History, captures_only: bool) -> (r: Vec<MoveEntry>)
    requires
        forall|i: int| 0 <= i < moves.len() ==> (#[trigger] moves@[i]).wf(),
        history.wf(),
    ensures
        r@ == ranked(*board, moves@, tt_move, killers, *history, captures_only),
        forall|i: int| 0 <= i < r.len() ==> (#[trigger] r@[i]).mv.wf(),
{
    let mut out: Vec<MoveEntry> = Vec::new();
    let mut i: usize = 0;
    while i < moves.len()
        invariant
            i <= moves.len(),
            history.wf(),
            forall|j: int| 0 <= j < moves.len() ==> (#[trigger] moves@[j]).wf(),
            out@ == ranked(*board, moves@.subrange(0, i as int), tt_move, killers, *history, captures_only),
            forall|j: int| 0 <= j < out.len() ==> (#[trigger] out@[j]).mv.wf(),
        decreases moves.len() - i,
    {
        let mv = moves[i];
        assert(moves@.subrange(0, i as int + 1).drop_last() =~= moves@.subrange(0, i as int));
        if !captures_only || is_capture(board, mv) || mv.promotion.is_some() {
            let score = score_moves(board, mv, tt_move, killers, history);
            out.push(MoveEntry { mv, score });
        }
        i = i + 1;
    }
    assert(moves@.subrange(0, moves.len() as int) =~= moves@);
    out
}

/// Every entry of a ranked list holds one of the listed moves.
pub proof fn lemma_ranked_from(b: cozy_chess::Board, moves: Seq<Move>, tt_move: Option<Move>, killers: Killers, history: History, captures_only: bool)
    ensures
        forall|j: int| #![trigger ranked(b, moves, tt_move, killers, history, captures_only)[j]] 0 <= j < ranked(b, moves, tt_move, killers, history, captures_only).len() ==>
            exists|k: int| 0 <= k < moves.len() && ranked(b, moves, tt_move, killers, history, captures_only)[j].mv == #[trigger] moves[k],
    decreases moves.len(),
{
    if moves.len() > 0 {
        let prefix = moves.drop_last();
        lemma_ranked_from(b, prefix, tt_move, killers, history, captures_only);
        let r = ranked(b, moves, tt_move, killers, history, captures_only);
        let p = ranked(b, prefix, tt_move, killers, history, captures_only);
        assert forall|j: int| #![trigger r[j]] 0 <= j < r.len() implies exists|k: int| 0 <= k < moves.len() && r[j].mv == #[trigger] moves[k] by {
            if j < p.len() {
                assert(r[j] == p[j]);
                let k = choose|k: int| 0 <= k < prefix.len() && p[j].mv == prefix[k];
                assert(moves[k] == prefix[k]);
            } else {
                assert(r[j].mv == moves[moves.len() - 1]);
            }
        }
    }
}

/// A list that keeps none of its moves is empty.
pub proof fn lemma_ranked_none_kept(b: cozy_chess::Board, moves: Seq<Move>, tt_move: Option<Move>, killers: Killers, history: History, captures_only: bool)
    requires
        forall|k: int| 0 <= k < moves.len() ==> !kept(b, #[trigger] moves[k], captures_only),
    ensures
        ranked(b, moves, tt_move, killers, history, captures_only).len() == 0,
    decreases moves.len(),
{
    if moves.len() > 0 {
        let prefix = moves.drop_last();
        assert forall|k: int| 0 <= k < prefix.len() implies !kept(b, #[trigger] prefix[k], captures_only) by {
            assert(prefix[k] == moves[k]);
        }
        lemma_ranked_none_kept(b, prefix, tt_move, killers, history, captures_only);
        assert(!kept(b, moves[moves.len() - 1], captures_only));
    }
}

/// Every legal move of `board`, unranked.
pub fn pure_moves(board: &cozy_chess::Board) -> (r: Vec<Move>)
    ensures
        forall|i: int| 0 <= i < r.len() ==> (#[trigger] r@[i]).wf(),
{
    legal_moves(board)
}

/// Every legal move of `board` with its ordering rank.
pub fn all_moves(board: &cozy_chess::Board, tt_move: Option<Move>, killers: Killers, history: &History) -> (r: Vec<MoveEntry>)
    requires
        history.wf(),
    ensures
        r@ == ranked(*board, legal_of(*board), tt_move, killers, *history, false),
        forall|i: int| 0 <= i < r.len() ==> (#[trigger] r@[i]).mv.wf(),
{
    let moves = legal_moves(board);
    rank_all(board, &moves, tt_move, killers, history, false)
}

/// The legal captures of `board`, en passant included, and its legal
/// promotions, with their ranks.
pub fn capture_moves(board: &cozy_chess::Board, tt_move: Option<Move>, killers: Killers, history: &History) -> (r: Vec<MoveEntry>)
    requires
        history.wf(),
    ensures
        r@ == ranked(*board, legal_of(*board), tt_move, killers, *history, true),
        forall|i: int| 0 <= i < r.len() ==> (#[trigger] r@[i]).mv.wf(),
{
    let moves = legal_moves(board);
    rank_all(board, &moves, tt_move, killers, history, true)
}

/// Hands out moves best rank first, selecting among the ones not yet handed out.
pub struct Picker {
    pub moves: Vec<MoveEntry>,
    pub index: usize,
}

impl Picker {
    pub open spec fn wf(&self) -> bool {
        self.index <= self.moves.len()
    }

    /// Every move held is well formed.
    pub open spec fn moves_wf(&self) -> bool {
        forall|j: int| 0 <= j < self.moves.len() ==> (#[trigger] self.moves@[j]).mv.wf()
    }

    pub fn new(moves: Vec<MoveEntry>) -> (r: Picker)
        ensures
            r.wf(),
            r.moves == moves,
            r.index == 0,
    {
        Picker { moves, index: 0 }
    }

    /// Swaps the best-ranked remaining move (the last of equals) to the front
    /// of the remaining ones and hands it out; `None` when none remain.
    pub fn pick_move(&mut self) -> (r: Option<Move>)
        requires
            old(self).wf(),
        ensures
            final(self).wf(),
            old(self).moves_wf() ==> final(self).moves_wf(),
            old(self).moves_wf() ==> (r matches Some(m) ==> m.wf()),
            final(self).moves.len() == old(self).moves.len(),
            r is Some ==> forall|j: int| #![trigger final(self).moves@[j]] 0 <= j < final(self).moves.len() ==> exists|k: int| 0 <= k < old(self).moves.len() && final(self).moves@[j] == #[trigger] old(self).moves@[k],
            final(self).index <= old(self).index + 1,
            final(self).index >= old(self).index,
            r is Some ==> final(self).index == old(self).index + 1,
            old(self).index == old(self).moves.len() ==> r is None && *final(self) == *old(self),
            old(self).index < old(self).moves.len() ==> {
                &&& final(self).index == old(self).index + 1
                &&& final(self).moves@.to_multiset() == old(self).moves@.to_multiset()
                &&& final(self).moves.len() == old(self).moves.len()
                &&& r == Some(final(self).moves@[old(self).index as int].mv)
                &&& forall|j: int| 0 <= j < old(self).index ==> final(self).moves@[j] == old(self).moves@[j]
                &&& forall|j: int| old(self).index <= j < old(self).moves.len() ==>
                    final(self).moves@[old(self).index as int].score >= #[trigger] final(self).moves@[j].score
                &&& exists|b: int| old(self).index <= b < old(self).moves.len()
                    && final(self).moves@ == old(self).moves@.update(old(self).index as int, old(self).moves@[b]).update(b, old(self).moves@[old(self).index as int])
            },
    {
        let n = self.moves.len();
        let start = self.index;
        if start >= n {
            return None;
        }
        let mut best = start;
        let mut j = start + 1;
        while j < n
            invariant
                n == self.moves.len(),
                start < n,
                start <= best < j,
                j <= n,
                *self == *old(self),
                forall|k: int| start <= k < j ==> self.moves@[best as int].score >= #[trigger] self.moves@[k].score,
            decreases n - j,
        {
            if self.moves[j].score >= self.moves[best].score {
                best = j;
            }
            j = j + 1;
        }
        let a = self.moves[start];
        let b = self.moves[best];
        self.moves.set(start, b);
        self.moves.set(best, a);
        proof {
            let s0 = old(self).moves@;
            let s1 = s0.update(start as int, s0[best as int]);
            let s2 = s1.update(best as int, s0[start as int]);
            assert(self.moves@ == s2);
            vstd::seq_lib::to_multiset_update(s0, start as int, s0[best as int]);
            vstd::seq_lib::to_multiset_update(s1, best as int, s0[start as int]);
            assert forall|j: int| 0 <= j < s2.len() && (forall|k: int| 0 <= k < s0.len() ==> (#[trigger] s0[k]).mv.wf()) implies (#[trigger] s2[j]).mv.wf() by {
                if j == start as int {
                    assert(s0[best as int].mv.wf());
                } else if j == best as int {
                    assert(s0[start as int].mv.wf());
                } else {
                    assert(s0[j].mv.wf());
                }
            }
            assert forall|j: int| #![trigger s2[j]] 0 <= j < s2.len() implies exists|k: int| 0 <= k < s0.len() && s2[j] == #[trigger] s0[k] by {
                if j == start as int {
                    assert(s2[j] == s0[best as int]);
                } else if j == best as int {
                    assert(s2[j] == s0[start as int]);
                } else {
                    assert(s2[j] == s0[j]);
                }
            }
            if start != best {
                assert(s1[best as int] == s0[best as int]);
                let a0 = s0[start as int];
                let b0 = s0[best as int];
                let m0 = s0.to_multiset();
                assert(m0.count(a0) > 0 && m0.count(b0) > 0) by {
                    vstd::seq_lib::to_multiset_contains(s0, a0);
                    vstd::seq_lib::to_multiset_contains(s0, b0);
                    assert(s0.contains(a0));
                    assert(s0.contains(b0));
                }
                assert(m0.insert(b0).remove(a0).insert(a0).remove(b0) =~= m0);
            } else {
                assert(s2 =~= s0);
            }
        }
        self.index = start + 1;
        Some(b.mv)
    }
}

} // verus!
