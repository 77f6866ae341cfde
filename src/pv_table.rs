use vstd::prelude::*;

use vstd::slice::slice_subrange;

use crate::board::{legal_of, piece_at, piece_on};
use crate::consts::MAX_PLY;
use crate::moves::{Move, Piece};

verus! {

/// The move as the outside world writes it: castling as the king's two-square
/// step instead of the king taking its own rook.
pub open spec fn standard_castling_spec(moved: Option<Piece>, mv: Move) -> Move {
    if moved == Some(Piece::King) {
        let to = if mv.from == 4 && mv.to == 7 {
            6
        } else if mv.from == 60 && mv.to == 63 {
            62
        } else if mv.from == 4 && mv.to == 0 {
            2
        } else if mv.from == 60 && mv.to == 56 {
            58
        } else {
            mv.to
        };
        Move { to: to as u8, ..mv }
    } else {
        mv
    }
}

pub fn standard_castling(moved: Option<Piece>, mv: Move) -> (r: Move)
    requires
        mv.wf(),
    ensures
        r == standard_castling_spec(moved, mv),
        r.wf(),
{
    if moved == Some(Piece::King) {
        let to: u8 = if mv.from == 4 && mv.to == 7 {
            6
        } else if mv.from == 60 && mv.to == 63 {
            62
        } else if mv.from == 4 && mv.to == 0 {
            2
        } else if mv.from == 60 && mv.to == 56 {
            58
        } else {
            mv.to
        };
        Move { to, ..mv }
    } else {
        mv
    }
}

/// `mv` on `board` with castling written as the king's two-square step.
pub fn reverse_castling_move(board: &cozy_chess::Board, mv: Move) -> (r: Move)
    requires
        mv.wf(),
    ensures
        r == standard_castling_spec(piece_at(*board, mv.from), mv),
        r.wf(),
{
    standard_castling(piece_on(board, mv.from), mv)
}

/// A legal move of board `b`, written as the outside world writes it.
pub open spec fn legal_reply(b: cozy_chess::Board, m: Move) -> bool {
    exists|k: int| 0 <= k < legal_of(b).len() && m == #[trigger] standard_castling_spec(piece_at(b, legal_of(b)[k].from), legal_of(b)[k])
}

/// The principal variation found below one node.
pub struct PVTable {
    pub length: usize,
    pub table: Vec<Option<Move>>,
}

impl PVTable {
    /// A non-empty variation starts with a legal move of `b`.
    pub open spec fn starts_legal(&self, b: cozy_chess::Board) -> bool {
        self.length > 0 ==> (self.table@[0] matches Some(m) && legal_reply(b, m))
    }

    pub open spec fn wf(&self) -> bool {
        &&& self.table.len() == MAX_PLY
        &&& self.length <= MAX_PLY
        &&& forall|i: int| 0 <= i < self.length ==> ((#[trigger] self.table@[i]) matches Some(m) && m.wf())
    }

    /// The moves of the variation.
    pub open spec fn line(&self) -> Seq<Option<Move>> {
        self.table@.subrange(0, self.length as int)
    }

    /// An empty variation.
    pub fn new() -> (r: PVTable)
        ensures
            r.wf(),
            r.line().len() == 0,
    {
        let mut table: Vec<Option<Move>> = Vec::new();
        let mut i: usize = 0;
        while i < MAX_PLY
            invariant
                i <= MAX_PLY,
                table.len() == i,
            decreases MAX_PLY - i,
        {
            table.push(None);
            i = i + 1;
        }
        PVTable { length: 0, table }
    }

    /// Empties the variation.
    pub fn clear(&mut self)
        requires
            old(self).wf(),
        ensures
            final(self).wf(),
            final(self).line().len() == 0,
    {
        self.length = 0;
    }

    /// Makes this variation `mv` followed by the variation `child` below it.
    pub fn store(&mut self, board: &cozy_chess::Board, mv: Move, child: &PVTable)
        requires
            old(self).wf(),
            child.wf(),
            child.length < MAX_PLY,
            mv.wf(),
        ensures
            final(self).wf(),
            final(self).length == child.length + 1,
            final(self).line().drop_first() == child.line(),
            final(self).table@[0] == Some(standard_castling_spec(piece_at(*board, mv.from), mv)),
    {
        let first = reverse_castling_move(board, mv);
        self.table.set(0, Some(first));
        let n = child.length;
        let mut i: usize = 0;
        while i < n
            invariant
                n == child.length,
                n < MAX_PLY,
                child.wf(),
                i <= n,
                self.table.len() == MAX_PLY,
                self.table@[0] == Some(first),
                forall|j: int| 0 <= j < i ==> self.table@[j + 1] == child.table@[j],
            decreases n - i,
        {
            self.table.set(i + 1, child.table[i]);
            i = i + 1;
        }
        self.length = n + 1;
        assert(self.line().drop_first() =~= child.line());
        assert forall|i: int| 0 <= i < self.length implies ((#[trigger] self.table@[i]) matches Some(m) && m.wf()) by {
            if i > 0 {
                assert(self.table@[(i - 1) + 1] == child.table@[i - 1]);
            }
        }
    }

    /// The moves of the variation.
    pub fn moves(&self) -> (r: &[Option<Move>])
        requires
            self.wf(),
        ensures
            r@ == self.line(),
    {
        slice_subrange(self.table.as_slice(), 0, self.length)
    }

    /// The first move of the variation, if any.
    pub fn best_move(&self) -> (r: Option<Move>)
        requires
            self.wf(),
        ensures
            self.length == 0 ==> r is None,
            self.length > 0 ==> r == self.table@[0] && r is Some,
            r matches Some(m) ==> m.wf(),
    {
        if self.length == 0 {
            None
        } else {
            self.table[0]
        }
    }
}

} // verus!
