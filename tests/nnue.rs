use std::sync::Arc;

use cozy_chess::{Board, Square};
use svart::moves::{Color, Piece};
use svart::movegen::all_moves;
use svart::history::History;
use svart::nnue::{read_words, weight_column_index, NNUEState, Parameters, FEATURES, HIDDEN};
use svart::position::play_move;

/// Bytes of `n` pseudo-random little-endian words in -64..64.
fn words(n: usize, seed: &mut u64) -> Vec<u8> {
    let mut out = Vec::with_capacity(2 * n);
    for _ in 0..n {
        *seed = seed.wrapping_mul(6364136223846793005).wrapping_add(1442695040888963407);
        let w = ((*seed >> 33) % 128) as i16 - 64;
        out.extend_from_slice(&w.to_le_bytes());
    }
    out
}

fn params() -> Arc<Parameters> {
    let mut seed = 17u64;
    let fw = words(FEATURES * HIDDEN, &mut seed);
    let fb = words(HIDDEN, &mut seed);
    let ow = words(2 * HIDDEN, &mut seed);
    let ob = words(1, &mut seed);
    Arc::new(Parameters::from_bytes(&fw, &fb, &ow, &ob).unwrap())
}

fn sq(s: Square) -> u8 {
    s as u8
}

#[test]
fn nnue_indexing() {
    let idx1 = weight_column_index(sq(Square::A8), Piece::Pawn, Color::White);
    let idx2 = weight_column_index(sq(Square::H1), Piece::Pawn, Color::White);
    let idx3 = weight_column_index(sq(Square::A1), Piece::Pawn, Color::Black);
    let idx4 = weight_column_index(sq(Square::E1), Piece::King, Color::White);

    assert_eq!(idx1, (14336, 98304));
    assert_eq!(idx2, (1792, 114432));
    assert_eq!(idx3, (98304, 14336));
    assert_eq!(idx4, (82944, 195584));
}

#[test]
fn nnue_update_feature() {
    let board: Board = Board::default();
    let mut state = NNUEState::from_board(&board, params());

    let old_white = state.accumulators[0].white.clone();
    let old_black = state.accumulators[0].black.clone();

    state.update_feature(sq(Square::A3), Piece::Pawn, Color::White, true);
    assert_ne!(old_white, state.accumulators[0].white);
    state.update_feature(sq(Square::A3), Piece::Pawn, Color::White, false);

    assert_eq!(old_white, state.accumulators[0].white);
    assert_eq!(old_black, state.accumulators[0].black);
}

#[test]
fn nnue_moves() {
    let board = Board::default();
    let mut nnue = NNUEState::from_board(&board, params());
    let history = History::new();
    let moves = all_moves(&board, None, (None, None), &history);
    assert_eq!(moves.len(), 20);
    let initial_white = nnue.accumulators[0].white.clone();
    let initial_black = nnue.accumulators[0].black.clone();
    for entry in moves {
        let mut new_b = board.clone();
        assert!(play_move(&mut new_b, &mut nnue, entry.mv));
        assert_ne!(initial_white, nnue.accumulators[1].white);
        assert_ne!(initial_black, nnue.accumulators[1].black);
        nnue.pop();
        assert_eq!(initial_white, nnue.accumulators[0].white);
        assert_eq!(initial_black, nnue.accumulators[0].black);
    }
}

/// Plays the first generated move incrementally and compares with a fresh
/// build of the resulting position.
fn check_incremental(fen: Option<&str>) {
    let p = params();
    let start = match fen {
        Some(f) => Board::from_fen(f, false).unwrap(),
        None => Board::default(),
    };
    let mut board = start.clone();
    let mut state1 = NNUEState::from_board(&board, p.clone());
    let history = History::new();
    let moves = all_moves(&board, None, (None, None), &history);
    assert!(play_move(&mut board, &mut state1, moves[0].mv));

    let mut board2 = start.clone();
    let m = moves[0].mv;
    board2.play_unchecked(cozy_chess::Move {
        from: Square::index(m.from as usize),
        to: Square::index(m.to as usize),
        promotion: m.promotion.map(|k| cozy_chess::Piece::index(k.index())),
    });
    let state2 = NNUEState::from_board(&board2, p);

    assert_eq!(state1.accumulators[1].white, state2.accumulators[0].white);
    assert_eq!(state1.accumulators[1].black, state2.accumulators[0].black);
    assert_ne!(state1.accumulators[0].white, state2.accumulators[0].white);
    state1.refresh(&board);
    assert_ne!(state1.accumulators[0].white, state2.accumulators[0].white);
    assert_eq!(state1.accumulators[1].white, state2.accumulators[0].white);
    assert_eq!(state1.accumulators[1].black, state2.accumulators[0].black);
}

#[test]
fn nnue_incremental() {
    check_incremental(None);
    check_incremental(Some("4r1k1/4r1p1/8/p2R1P1K/5P1P/1QP3q1/1P6/3R4 b - - 0 1"));
    check_incremental(Some("1n2k3/r3r1bn/pp1p4/1P1q1p1p/3P4/P3P1RP/1BQN1PR1/1K6 w - - 6 28"));
    check_incremental(Some("8/3r1b2/3r1Pk1/1N6/5ppP/1q2P1Q1/7K/4RB2 w - - 0 66"));
}

#[test]
fn incremental_matches_rebuild_for_special_moves() {
    // Capture, en passant, castling, promotion.
    let cases = [
        ("rnbqkbnr/ppp1pppp/8/3p4/4P3/8/PPPP1PPP/RNBQKBNR w KQkq - 0 2", "e4d5"),
        ("rnbqkbnr/ppp1p1pp/8/3pPp2/8/8/PPPP1PPP/RNBQKBNR w KQkq f6 0 3", "e5f6"),
        ("r3k2r/pppppppp/8/8/8/8/PPPPPPPP/R3K2R w KQkq - 0 1", "e1h1"),
        ("r3k2r/pppppppp/8/8/8/8/PPPPPPPP/R3K2R b KQkq - 0 1", "e8a8"),
        ("8/1P6/8/8/8/8/6k1/4K3 w - - 0 1", "b7b8q"),
    ];
    let p = params();
    for (fen, text) in cases {
        let start = Board::from_fen(fen, false).unwrap();
        let outside: cozy_chess::Move = text.parse().unwrap();
        let m = svart::moves::Move {
            from: outside.from as u8,
            to: outside.to as u8,
            promotion: outside.promotion.map(|k| Piece::from_index(k as usize)),
        };
        let mut board = start.clone();
        let mut state = NNUEState::from_board(&board, p.clone());
        let before_white = state.evaluate(Color::White);
        assert!(play_move(&mut board, &mut state, m), "{fen} {text}");
        let fresh = NNUEState::from_board(&board, p.clone());
        assert_eq!(state.accumulators[1].white, fresh.accumulators[0].white, "{fen} {text}");
        assert_eq!(state.accumulators[1].black, fresh.accumulators[0].black, "{fen} {text}");
        assert_eq!(state.evaluate(Color::Black), fresh.evaluate(Color::Black));
        state.pop();
        assert_eq!(state.evaluate(Color::White), before_white);
    }
}

#[test]
fn weight_files_must_have_exact_sizes() {
    let mut seed = 3u64;
    let fw = words(FEATURES * HIDDEN, &mut seed);
    let fb = words(HIDDEN, &mut seed);
    let ow = words(2 * HIDDEN, &mut seed);
    let ob = words(1, &mut seed);
    assert!(Parameters::from_bytes(&fw, &fb, &ow, &ob).is_some());
    assert!(Parameters::from_bytes(&fw[1..], &fb, &ow, &ob).is_none());
    assert!(Parameters::from_bytes(&fw, &fb[..2 * HIDDEN - 2], &ow, &ob).is_none());
    assert!(Parameters::from_bytes(&fw, &fb, &ow, &[1, 2, 3, 4]).is_none());
    assert_eq!(read_words(&[0x34, 0x12, 0xff, 0xff], 2), Some(vec![0x1234, -1]));
    assert_eq!(read_words(&[0x34, 0x12, 0xff], 1), None);
}

#[test]
fn evaluate_follows_the_quantised_formula() {
    // One hidden unit active at 10 for white, 300 (clipped to 255) for black.
    let mut fw = vec![0u8; 2 * FEATURES * HIDDEN];
    let mut fb = vec![0u8; 2 * HIDDEN];
    let mut ow = vec![0u8; 4 * HIDDEN];
    let ob = 7i16.to_le_bytes();
    fb[0..2].copy_from_slice(&10i16.to_le_bytes());
    fb[2..4].copy_from_slice(&300i16.to_le_bytes());
    ow[0..2].copy_from_slice(&100i16.to_le_bytes());
    ow[2..4].copy_from_slice(&(-50i16).to_le_bytes());
    ow[2 * HIDDEN..2 * HIDDEN + 2].copy_from_slice(&3i16.to_le_bytes());
    fw[0] = 0;
    let p = Arc::new(Parameters::from_bytes(&fw, &fb, &ow, &ob).unwrap());
    let state = NNUEState::new(p);
    // us: 10*100 + 255*(-50) = -11750; them: 10*3 = 30; plus bias 7.
    let raw: i64 = 7 + 1000 - 12750 + 30;
    assert_eq!(state.evaluate(Color::White) as i64, raw * 400 / 16320);
    assert_eq!(state.evaluate(Color::White), -287);
}
