use vstd::prelude::*;

verus! {

/// Kind of a chess piece.
#[derive(Clone, Copy, PartialEq, Eq, Structural, Debug)]
pub enum Piece {
    Pawn,
    Knight,
    Bishop,
    Rook,
    Queen,
    King,
}

/// Side of a chess piece, or the side to move.
#[derive(Clone, Copy, PartialEq, Eq, Structural, Debug)]
pub enum Color {
    White,
    Black,
}

/// A move as the search sees it: origin and destination square (0..64,
/// a1 = 0, h8 = 63) and the piece a pawn promotes to, if any.
/// Castling is written as the king moving onto its own rook.
#[derive(Clone, Copy, PartialEq, Eq, Structural, Debug)]
pub struct Move {
    pub from: u8,
    pub to: u8,
    pub promotion: Option<Piece>,
}

impl Piece {
    /// Index of the piece kind: pawn 0 up to king 5.
    pub open spec fn index_spec(self) -> nat {
        match self {
            Piece::Pawn => 0,
            Piece::Knight => 1,
            Piece::Bishop => 2,
            Piece::Rook => 3,
            Piece::Queen => 4,
            Piece::King => 5,
        }
    }

    /// A piece a pawn may promote to.
    pub open spec fn is_promotion_kind(self) -> bool {
        match self {
            Piece::Knight | Piece::Bishop | Piece::Rook | Piece::Queen => true,
            _ => false,
        }
    }

    /// The piece kind of an index; 5 and above read as king.
    pub open spec fn from_index_spec(i: int) -> Piece {
        if i == 0 {
            Piece::Pawn
        } else if i == 1 {
            Piece::Knight
        } else if i == 2 {
            Piece::Bishop
        } else if i == 3 {
            Piece::Rook
        } else if i == 4 {
            Piece::Queen
        } else {
            Piece::King
        }
    }

    pub fn from_index(i: usize) -> (r: Piece)
        ensures
            r == Self::from_index_spec(i as int),
            i < 6 ==> r.index_spec() == i,
    {
        if i == 0 {
            Piece::Pawn
        } else if i == 1 {
            Piece::Knight
        } else if i == 2 {
            Piece::Bishop
        } else if i == 3 {
            Piece::Rook
        } else if i == 4 {
            Piece::Queen
        } else {
            Piece::King
        }
    }

    pub fn index(self) -> (r: usize)
        ensures
            r == self.index_spec(),
    {
        match self {
            Piece::Pawn => 0,
            Piece::Knight => 1,
            Piece::Bishop => 2,
            Piece::Rook => 3,
            Piece::Queen => 4,
            Piece::King => 5,
        }
    }
}

impl Color {
    /// White for 0, black otherwise.
    pub open spec fn from_index_spec(i: int) -> Color {
        if i == 0 {
            Color::White
        } else {
            Color::Black
        }
    }

    pub open spec fn index_spec(self) -> nat {
        match self {
            Color::White => 0,
            Color::Black => 1,
        }
    }

    pub open spec fn other_spec(self) -> Color {
        match self {
            Color::White => Color::Black,
            Color::Black => Color::White,
        }
    }

    pub fn index(self) -> (r: usize)
        ensures
            r == self.index_spec(),
    {
        match self {
            Color::White => 0,
            Color::Black => 1,
        }
    }

    pub fn other(self) -> (r: Color)
        ensures
            r == self.other_spec(),
    {
        match self {
            Color::White => Color::Black,
            Color::Black => Color::White,
        }
    }
}

impl Move {
    /// Squares on the board and a promotion, if any, to one of the four
    /// promotion kinds.
    pub open spec fn wf(self) -> bool {
        &&& self.from < 64
        &&& self.to < 64
        &&& match self.promotion {
            None => true,
            Some(p) => p.is_promotion_kind(),
        }
    }
}

/// Square index mirrored across the board's horizontal midline.
pub open spec fn flip_rank_spec(sq: int) -> int {
    (7 - sq / 8) * 8 + sq % 8
}

pub fn flip_rank(sq: u8) -> (r: u8)
    requires
        sq < 64,
    ensures
        r == flip_rank_spec(sq as int),
        r < 64,
{
    (7 - sq / 8) * 8 + sq % 8
}

} // verus!
