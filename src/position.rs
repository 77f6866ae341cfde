use vstd::prelude::*;

use crate::board::{legal_of, played_of, color_at, color_on, en_passant_file, ep_at, piece_at, piece_on, side_at, side_to_move, try_play};
use crate::consts::MAX_PLY;
use crate::moves::{Color, Move, Piece};
use crate::nnue::{feature_update, NNUEState};

verus! {

/// Square of file `file` on the rank `rank` counted from `side`'s back rank.
pub open spec fn relative_square(file: int, rank: int, side: Color) -> int {
    match side {
        Color::White => rank * 8 + file,
        Color::Black => (7 - rank) * 8 + file,
    }
}

pub fn square_relative(file: u8, rank: u8, side: Color) -> (r: u8)
    requires
        file < 8,
        rank < 8,
    ensures
        r == relative_square(file as int, rank as int, side),
        r < 64,
{
    match side {
        Color::White => rank * 8 + file,
        Color::Black => (7 - rank) * 8 + file,
    }
}

/// A pawn move onto the en-passant square of the side to move.
pub open spec fn en_passant_spec(stm: Color, moved: Option<Piece>, ep_file: Option<u8>, mv: Move) -> bool {
    &&& moved == Some(Piece::Pawn)
    &&& ep_file matches Some(f)
    &&& mv.to == relative_square(f as int, 5, stm)
}

/// A move that takes a piece of the other side, or a pawn en passant.
pub open spec fn capture_spec(stm: Color, target: Option<Color>, moved: Option<Piece>, ep_file: Option<u8>, mv: Move) -> bool {
    target == Some(stm.other_spec()) || en_passant_spec(stm, moved, ep_file, mv)
}

/// Whether `mv` takes en passant, given the side to move, the piece on its
/// origin and the en-passant file.
pub fn en_passant_move(stm: Color, moved: Option<Piece>, ep_file: Option<u8>, mv: Move) -> (r: bool)
    requires
        ep_file matches Some(f) ==> f < 8,
    ensures
        r == en_passant_spec(stm, moved, ep_file, mv),
{
    match (moved, ep_file) {
        (Some(Piece::Pawn), Some(f)) => mv.to == square_relative(f, 5, stm),
        _ => false,
    }
}

/// Whether `mv` captures, given the side to move, the side of the piece on
/// its destination, the piece on its origin and the en-passant file.
pub fn capture_move(stm: Color, target: Option<Color>, moved: Option<Piece>, ep_file: Option<u8>, mv: Move) -> (r: bool)
    requires
        ep_file matches Some(f) ==> f < 8,
    ensures
        r == capture_spec(stm, target, moved, ep_file, mv),
{
    let theirs = match target {
        Some(c) => c == stm.other(),
        None => false,
    };
    theirs || en_passant_move(stm, moved, ep_file, mv)
}

/// Whether `mv` captures on board `b`.
pub open spec fn capture_at(b: cozy_chess::Board, mv: Move) -> bool {
    capture_spec(side_at(b), color_at(b, mv.to), piece_at(b, mv.from), ep_at(b), mv)
}

/// Whether `mv` takes en passant on `board`.
pub fn is_ep(board: &cozy_chess::Board, mv: Move) -> (r: bool)
    requires
        mv.wf(),
    ensures
        r == en_passant_spec(side_at(*board), piece_at(*board, mv.from), ep_at(*board), mv),
{
    let stm = side_to_move(board);
    let moved = piece_on(board, mv.from);
    en_passant_move(stm, moved, en_passant_file(board), mv)
}

/// Whether `mv` captures on `board`.
pub fn is_capture(board: &cozy_chess::Board, mv: Move) -> (r: bool)
    requires
        mv.wf(),
    ensures
        r == capture_at(*board, mv),
{
    let stm = side_to_move(board);
    capture_move(stm, color_on(board, mv.to), piece_on(board, mv.from), en_passant_file(board), mv)
}

/// A move that neither captures nor promotes.
pub fn is_quiet(board: &cozy_chess::Board, mv: Move) -> (r: bool)
    requires
        mv.wf(),
    ensures
        r == (mv.promotion is None && !capture_at(*board, mv)),
{
    mv.promotion.is_none() && !is_capture(board, mv)
}

/// One change of the accumulator: a piece on a square, added or removed.
pub type Feature = (u8, Piece, Color, bool);

/// The changes that `mv` makes on board `b`: the moving piece leaves its
/// square, a piece on the destination (for castling, the own rook) leaves,
/// a pawn taken en passant leaves, and then either king and rook land on
/// their castled squares or the moving (or promoted) piece lands.
pub open spec fn move_features(b: cozy_chess::Board, mv: Move) -> Seq<Feature> {
    let stm = side_at(b);
    let moved = piece_at(b, mv.from);
    let piece = match moved { Some(p) => p, None => Piece::Pawn };
    let target = color_at(b, mv.to);
    let ep = ep_at(b);
    let leave = seq![(mv.from, piece, stm, false)];
    let taken = match (target, piece_at(b, mv.to)) {
        (Some(c), Some(p)) => seq![(mv.to, p, c, false)],
        _ => Seq::empty(),
    };
    let passed = match ep {
        Some(f) if en_passant_spec(stm, moved, ep, mv) => seq![(relative_square(f as int, 4, stm) as u8, Piece::Pawn, stm.other_spec(), false)],
        _ => Seq::empty(),
    };
    let back = relative_square(0, 0, stm);
    let land = if target == Some(stm) {
        if mv.from % 8 < mv.to % 8 {
            seq![((back + 5) as u8, Piece::Rook, stm, true), ((back + 6) as u8, Piece::King, stm, true)]
        } else {
            seq![((back + 3) as u8, Piece::Rook, stm, true), ((back + 2) as u8, Piece::King, stm, true)]
        }
    } else {
        seq![(mv.to, match mv.promotion { Some(p) => p, None => piece }, stm, true)]
    };
    leave + taken + passed + land
}

/// Both perspectives after applying the changes `fs` in order.
pub open spec fn apply_features(white: Seq<i16>, black: Seq<i16>, w: Seq<i16>, fs: Seq<Feature>) -> (Seq<i16>, Seq<i16>)
    decreases fs.len(),
{
    if fs.len() == 0 {
        (white, black)
    } else {
        let prev = apply_features(white, black, w, fs.drop_last());
        let f = fs.last();
        feature_update(prev.0, prev.1, w, f.0 as int, f.1, f.2, f.3)
    }
}

/// Plays `mv` on `board` and brings the evaluator along: a new accumulator
/// is pushed and updated by the pieces that leave and arrive. Reports
/// whether the board accepted the move. Either way the accumulators below
/// the new one are untouched, so a `pop` restores the evaluation.
#[verifier::rlimit(100)]
pub fn play_move(board: &mut cozy_chess::Board, nnue: &mut NNUEState, mv: Move) -> (r: bool)
    requires
        old(nnue).wf(),
        old(nnue).current_acc < MAX_PLY,
        mv.wf(),
    ensures
        final(nnue).wf(),
        final(nnue).params == old(nnue).params,
        final(nnue).current_acc == old(nnue).current_acc + 1,
        forall|i: int| 0 <= i <= old(nnue).current_acc ==> final(nnue).accumulators@[i] == old(nnue).accumulators@[i],
        (final(nnue).top().white@, final(nnue).top().black@) == apply_features(old(nnue).top().white@, old(nnue).top().black@,
            old(nnue).params.feature_weights@, move_features(*old(board), mv)),
        r == legal_of(*old(board)).contains(mv),
        r ==> *final(board) == played_of(*old(board), mv),
        !r ==> *final(board) == *old(board),
{
    let ghost b0 = *old(board);
    let ghost w = old(nnue).params.feature_weights@;
    nnue.push();
    let ghost start = (nnue.top().white@, nnue.top().black@);
    let ghost mut fs: Seq<Feature> = Seq::empty();
    assert(start == apply_features(start.0, start.1, w, fs));
    let stm = side_to_move(board);
    let moved = piece_on(board, mv.from);
    let piece = match moved {
        Some(p) => p,
        None => Piece::Pawn,
    };
    let target = color_on(board, mv.to);
    let ep_file = en_passant_file(board);
    let cur = nnue.current_acc;

    nnue.update_feature(mv.from, piece, stm, false);
    proof {
        lemma_apply_push(start.0, start.1, w, fs, (mv.from, piece, stm, false));
        fs = fs.push((mv.from, piece, stm, false));
    }
    let ghost leave = fs;

    // The piece on the destination leaves; for castling this is the rook.
    match (target, piece_on(board, mv.to)) {
        (Some(color), Some(p)) => {
            nnue.update_feature(mv.to, p, color, false);
            proof {
                lemma_apply_push(start.0, start.1, w, fs, (mv.to, p, color, false));
                fs = fs.push((mv.to, p, color, false));
                assert((nnue.top().white@, nnue.top().black@) == apply_features(start.0, start.1, w, fs));
            }
        },
        _ => {},
    }
    let ghost taken = fs;

    if en_passant_move(stm, moved, ep_file, mv) {
        if let Some(f) = ep_file {
            let victim = square_relative(f, 4, stm);
            nnue.update_feature(victim, Piece::Pawn, stm.other(), false);
            proof {
                lemma_apply_push(start.0, start.1, w, fs, (victim, Piece::Pawn, stm.other_spec(), false));
                fs = fs.push((victim, Piece::Pawn, stm.other_spec(), false));
                assert((nnue.top().white@, nnue.top().black@) == apply_features(start.0, start.1, w, fs));
            }
        }
    }
    let ghost passed = fs;

    let castling = match target {
        Some(c) => c == stm,
        None => false,
    };
    if castling {
        let rank = square_relative(0, 0, stm);
        if mv.from % 8 < mv.to % 8 {
            nnue.update_feature(rank + 5, Piece::Rook, stm, true);
            proof {
                lemma_apply_push(start.0, start.1, w, fs, ((rank + 5) as u8, Piece::Rook, stm, true));
                fs = fs.push(((rank + 5) as u8, Piece::Rook, stm, true));
                assert((nnue.top().white@, nnue.top().black@) == apply_features(start.0, start.1, w, fs));
            }
            nnue.update_feature(rank + 6, Piece::King, stm, true);
            proof {
                lemma_apply_push(start.0, start.1, w, fs, ((rank + 6) as u8, Piece::King, stm, true));
                fs = fs.push(((rank + 6) as u8, Piece::King, stm, true));
                assert((nnue.top().white@, nnue.top().black@) == apply_features(start.0, start.1, w, fs));
            }
        } else {
            nnue.update_feature(rank + 3, Piece::Rook, stm, true);
            proof {
                lemma_apply_push(start.0, start.1, w, fs, ((rank + 3) as u8, Piece::Rook, stm, true));
                fs = fs.push(((rank + 3) as u8, Piece::Rook, stm, true));
                assert((nnue.top().white@, nnue.top().black@) == apply_features(start.0, start.1, w, fs));
            }
            nnue.update_feature(rank + 2, Piece::King, stm, true);
            proof {
                lemma_apply_push(start.0, start.1, w, fs, ((rank + 2) as u8, Piece::King, stm, true));
                fs = fs.push(((rank + 2) as u8, Piece::King, stm, true));
                assert((nnue.top().white@, nnue.top().black@) == apply_features(start.0, start.1, w, fs));
            }
        }
    } else {
        let arriving = match mv.promotion {
            Some(p) => p,
            None => piece,
        };
        nnue.update_feature(mv.to, arriving, stm, true);
        proof {
            lemma_apply_push(start.0, start.1, w, fs, (mv.to, arriving, stm, true));
            fs = fs.push((mv.to, arriving, stm, true));
            assert((nnue.top().white@, nnue.top().black@) == apply_features(start.0, start.1, w, fs));
        }
    }
    assert(nnue.current_acc == cur);
    proof {
        let spec_fs = move_features(b0, mv);
        assert(fs =~= spec_fs);
    }
    try_play(board, mv)
}

/// Applying one more change applies it to the result of the earlier ones.
proof fn lemma_apply_push(white: Seq<i16>, black: Seq<i16>, w: Seq<i16>, fs: Seq<Feature>, f: Feature)
    ensures
        apply_features(white, black, w, fs.push(f)) == ({
            let prev = apply_features(white, black, w, fs);
            feature_update(prev.0, prev.1, w, f.0 as int, f.1, f.2, f.3)
        }),
{
    assert(fs.push(f).drop_last() =~= fs);
}

} // verus!
