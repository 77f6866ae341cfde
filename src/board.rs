use vstd::prelude::*;

use crate::moves::{Color, Move, Piece};

verus! {

/// A chess position from the cozy-chess crate; the search reads it only
/// through the functions of this module.
#[verifier::external_type_specification]
#[verifier::external_body]
pub struct ExBoard(cozy_chess::Board);

/// Whether the game goes on, is lost for the side to move, or is drawn.
#[derive(Clone, Copy, PartialEq, Eq, Structural, Debug)]
pub enum GameState {
    Ongoing,
    Won,
    Drawn,
}

/// What `Board::side_to_move` returns for a board: 0 white, 1 black.
pub uninterp spec fn side_code_of(b: cozy_chess::Board) -> u8;

/// What `Board::hash` returns for a board.
pub uninterp spec fn hash_of(b: cozy_chess::Board) -> u64;

/// What `Board::status` returns for a board.
pub uninterp spec fn status_of(b: cozy_chess::Board) -> GameState;

/// Whether `Board::checkers` is non-empty for a board.
pub uninterp spec fn checked_at(b: cozy_chess::Board) -> bool;

/// What `Board::piece_on` returns for square `sq`: the kind's index.
pub uninterp spec fn piece_code_at(b: cozy_chess::Board, sq: u8) -> Option<u8>;

/// What `Board::color_on` returns for square `sq`: 0 white, 1 black.
pub uninterp spec fn color_code_at(b: cozy_chess::Board, sq: u8) -> Option<u8>;

/// What `Board::en_passant` returns for a board: the file's index.
pub uninterp spec fn ep_at(b: cozy_chess::Board) -> Option<u8>;

/// What `Board::halfmove_clock` returns for a board.
pub uninterp spec fn halfmove_at(b: cozy_chess::Board) -> u8;

/// The moves `Board::generate_moves` hands out for a board, in order.
pub uninterp spec fn legal_of(b: cozy_chess::Board) -> Seq<Move>;

/// The board `Board::play_unchecked` leaves after the legal move `mv`.
pub uninterp spec fn played_of(b: cozy_chess::Board, mv: Move) -> cozy_chess::Board;

/// The side to move.
pub open spec fn side_at(b: cozy_chess::Board) -> Color {
    Color::from_index_spec(side_code_of(b) as int)
}

/// The piece kind on square `sq`, if any.
pub open spec fn piece_at(b: cozy_chess::Board, sq: u8) -> Option<Piece> {
    match piece_code_at(b, sq) {
        None => None,
        Some(p) => Some(Piece::from_index_spec(p as int)),
    }
}

/// The side of the piece on square `sq`, if any.
pub open spec fn color_at(b: cozy_chess::Board, sq: u8) -> Option<Color> {
    match color_code_at(b, sq) {
        None => None,
        Some(c) => Some(Color::from_index_spec(c as int)),
    }
}

/// Relies on `Board::side_to_move`; white reads as 0, black as 1.
#[verifier::external_body]
fn side_index(board: &cozy_chess::Board) -> (r: u8)
    ensures
        r == side_code_of(*board),
        r < 2,
{
    board.side_to_move() as u8
}

/// The side to move.
pub fn side_to_move(board: &cozy_chess::Board) -> (r: Color)
    ensures
        r == side_at(*board),
{
    if side_index(board) == 0 {
        Color::White
    } else {
        Color::Black
    }
}

/// Relies on `Board::hash`: the incrementally updated Zobrist hash.
#[verifier::external_body]
pub fn board_hash(board: &cozy_chess::Board) -> (r: u64)
    ensures
        r == hash_of(*board),
{
    board.hash()
}

/// Relies on `Board::status`: checkmate reads as won (for the side that
/// delivered it), stalemate and the fifty-move rule as drawn. The game goes
/// on only where a legal move exists, and is won only where none does.
#[verifier::external_body]
pub fn game_state(board: &cozy_chess::Board) -> (r: GameState)
    ensures
        r == status_of(*board),
        r == GameState::Ongoing ==> legal_of(*board).len() > 0,
        r == GameState::Won ==> legal_of(*board).len() == 0,
{
    match board.status() {
        cozy_chess::GameStatus::Ongoing => GameState::Ongoing,
        cozy_chess::GameStatus::Won => GameState::Won,
        cozy_chess::GameStatus::Drawn => GameState::Drawn,
    }
}

/// Relies on `Board::checkers`: whether any piece gives check.
#[verifier::external_body]
pub fn in_check(board: &cozy_chess::Board) -> (r: bool)
    ensures
        r == checked_at(*board),
{
    !board.checkers().is_empty()
}

/// Relies on `Board::piece_on` for square index `sq` (a1 = 0, h8 = 63);
/// the result is the piece kind's index, pawn 0 up to king 5.
#[verifier::external_body]
fn piece_index_on(board: &cozy_chess::Board, sq: u8) -> (r: Option<u8>)
    requires
        sq < 64,
    ensures
        r == piece_code_at(*board, sq),
        r matches Some(p) ==> p < 6,
{
    board.piece_on(cozy_chess::Square::index(sq as usize)).map(|p| p as u8)
}

/// Relies on `Board::color_on` for square index `sq`; white reads as 0,
/// black as 1.
#[verifier::external_body]
fn color_index_on(board: &cozy_chess::Board, sq: u8) -> (r: Option<u8>)
    requires
        sq < 64,
    ensures
        r == color_code_at(*board, sq),
        r matches Some(c) ==> c < 2,
{
    board.color_on(cozy_chess::Square::index(sq as usize)).map(|c| c as u8)
}

/// The piece kind on square `sq`, if any.
pub fn piece_on(board: &cozy_chess::Board, sq: u8) -> (r: Option<Piece>)
    requires
        sq < 64,
    ensures
        r == piece_at(*board, sq),
{
    match piece_index_on(board, sq) {
        None => None,
        Some(p) => Some(Piece::from_index(p as usize)),
    }
}

/// The side of the piece on square `sq`, if any.
pub fn color_on(board: &cozy_chess::Board, sq: u8) -> (r: Option<Color>)
    requires
        sq < 64,
    ensures
        r == color_at(*board, sq),
{
    match color_index_on(board, sq) {
        None => None,
        Some(c) => Some(if c == 0 { Color::White } else { Color::Black }),
    }
}

/// Relies on `Board::en_passant`: the file (0 = a, 7 = h) of a pawn that
/// may be taken en passant.
#[verifier::external_body]
pub fn en_passant_file(board: &cozy_chess::Board) -> (r: Option<u8>)
    ensures
        r == ep_at(*board),
        r matches Some(f) ==> f < 8,
{
    board.en_passant().map(|f| f as u8)
}

/// Relies on `Board::halfmove_clock`, which the crate caps at 100.
#[verifier::external_body]
pub fn halfmove_clock(board: &cozy_chess::Board) -> (r: u8)
    ensures
        r == halfmove_at(*board),
        r <= 100,
{
    board.halfmove_clock()
}

/// Relies on `Board::null_move`: the position with the turn passed, or
/// `None` when the side to move is in check.
#[verifier::external_body]
pub fn null_move(board: &cozy_chess::Board) -> (r: Option<cozy_chess::Board>)
    ensures
        r is None <==> checked_at(*board),
{
    board.null_move()
}

/// Relies on `Board::clone` (derived): an equal board.
#[verifier::external_body]
pub fn copy_board(board: &cozy_chess::Board) -> (r: cozy_chess::Board)
    ensures
        r == *board,
{
    board.clone()
}

/// Relies on `Board::try_play`: plays `mv` if it is legal (one of the moves
/// `generate_moves` hands out) and reports whether it did; an illegal move
/// leaves the board as it was.
#[verifier::external_body]
pub fn try_play(board: &mut cozy_chess::Board, mv: Move) -> (r: bool)
    requires
        mv.wf(),
    ensures
        r == legal_of(*old(board)).contains(mv),
        r ==> *final(board) == played_of(*old(board), mv),
        !r ==> *final(board) == *old(board),
{
    let from = cozy_chess::Square::index(mv.from as usize);
    let to = cozy_chess::Square::index(mv.to as usize);
    let promotion = mv.promotion.map(|p| cozy_chess::Piece::index(p.index()));
    board.try_play(cozy_chess::Move { from, to, promotion }).is_ok()
}

/// Relies on `Board::generate_moves`: every legal move of the position,
/// castling written as the king taking its own rook.
#[verifier::external_body]
pub fn legal_moves(board: &cozy_chess::Board) -> (r: Vec<Move>)
    ensures
        r@ == legal_of(*board),
        forall|i: int| 0 <= i < r.len() ==> (#[trigger] r@[i]).wf(),
{
    let mut list: Vec<Move> = Vec::new();
    board.generate_moves(|moves| {
        for m in moves {
            let promotion = m.promotion.map(|p| Piece::from_index(p as usize));
            list.push(Move { from: m.from as u8, to: m.to as u8, promotion });
        }
        false
    });
    list
}

} // verus!
