use std::sync::atomic::AtomicBool;
use std::sync::Arc;
use std::time::Instant;

use cozy_chess::Board;
use svart::consts::{INFINITY, MATE, MATE_IN};
use svart::history::History;
use svart::lmr::LMRTable;
use svart::moves::{Color, Move};
use svart::nnue::{NNUEState, Parameters, FEATURES, HIDDEN};
use svart::rules::{
    bound_flag, draw_score, first_window, is_repetition, late_move_reduction, mate_distance_window,
    next_window, null_move_reduction, reverse_futility_prunes, tt_cutoff, Window,
};
use svart::search::{optimum_time, Search};
use svart::tt::{TTFlag, TT};
use svart::uci::{format_score, score_report, time_for_move, ScoreReport, SearchType};

fn lmr() -> LMRTable {
    let mut table = vec![0i16; 4096];
    for d in 0..64 {
        for m in 0..64 {
            let ld = f64::ln(d as f64);
            let lp = f64::ln(m as f64);
            table[d * 64 + m] = (0.75 + ld * lp / 2.25) as i16;
        }
    }
    LMRTable::new(table)
}

/// A network whose evaluation is zero everywhere.
fn flat_params() -> Arc<Parameters> {
    let fw = vec![0u8; 2 * FEATURES * HIDDEN];
    let fb = vec![0u8; 2 * HIDDEN];
    let ow = vec![0u8; 4 * HIDDEN];
    Arc::new(Parameters::from_bytes(&fw, &fb, &ow, &[0, 0]).unwrap())
}

/// A network that counts material: one hidden unit per perspective sums
/// piece values from 128 up, the output weighs ours against theirs.
fn material_params() -> Arc<Parameters> {
    let values: [i16; 6] = [1, 3, 3, 5, 9, 0];
    let mut fw = vec![0u8; 2 * FEATURES * HIDDEN];
    for colour in 0..2 {
        for piece in 0..6 {
            for sq in 0..64 {
                let feature = colour * 384 + piece * 64 + sq;
                // Unit 0 counts our pieces, unit 1 theirs.
                let unit = colour;
                let v = values[piece];
                let at = 2 * (feature * HIDDEN + unit);
                fw[at..at + 2].copy_from_slice(&v.to_le_bytes());
            }
        }
    }
    let mut fb = vec![0u8; 2 * HIDDEN];
    fb[0..2].copy_from_slice(&100i16.to_le_bytes());
    fb[2..4].copy_from_slice(&100i16.to_le_bytes());
    let mut ow = vec![0u8; 4 * HIDDEN];
    ow[0..2].copy_from_slice(&4080i16.to_le_bytes());
    ow[2..4].copy_from_slice(&(-4080i16).to_le_bytes());
    ow[2 * HIDDEN..2 * HIDDEN + 2].copy_from_slice(&(-4080i16).to_le_bytes());
    ow[2 * HIDDEN + 2..2 * HIDDEN + 4].copy_from_slice(&4080i16.to_le_bytes());
    Arc::new(Parameters::from_bytes(&fw, &fb, &ow, &[0, 0]).unwrap())
}

fn searcher(board: &Board, params: Arc<Parameters>, mb: u32) -> Search {
    let nnue = NNUEState::from_board(board, params);
    Search::new(TT::new(mb), nnue, lmr(), Arc::new(AtomicBool::new(false)))
}

fn uci(m: Move) -> String {
    let name = |s: u8| format!("{}{}", (b'a' + s % 8) as char, s / 8 + 1);
    format!("{}{}", name(m.from), name(m.to))
}

#[test]
fn repetitions() {
    const FENS: [&str; 3] = [
        "5k2/4q1p1/3P1pQb/1p1B4/pP5p/P1PR4/5PP1/1K6 b - - 0 38",
        "6k1/6p1/8/6KQ/1r6/q2b4/8/8 w - - 0 32",
        "5rk1/1rP3pp/p4n2/3Pp3/1P2Pq2/2Q4P/P5P1/R3R1K1 b - - 0 32",
    ];

    // No trained network ships with the crate; with an evaluation that is
    // level everywhere only mates and draws decide the score.
    let first = Board::from_fen(FENS[0], false).unwrap();
    let mut search = searcher(&first, flat_params(), 16);

    for fen in FENS.iter() {
        let board = Board::from_fen(fen, false).unwrap();
        search.nnue.refresh(&board);

        let (score, _) = search.data_search(&board, SearchType::Depth(20));

        assert!((-10..=10).contains(&score), "{score} {fen}");

        search.game_reset();
    }
}

#[test]
fn perpetual_check_scores_as_draw_despite_material() {
    // Both sides to move are well behind in material but can force a
    // repetition of checks.
    const FENS: [&str; 2] = [
        "5k2/4q1p1/3P1pQb/1p1B4/pP5p/P1PR4/5PP1/1K6 b - - 0 38",
        "6k1/6p1/8/6KQ/1r6/q2b4/8/8 w - - 0 32",
    ];
    for fen in FENS {
        let board = Board::from_fen(fen, false).unwrap();
        let mut search = searcher(&board, material_params(), 16);
        let stm = if board.side_to_move() == cozy_chess::Color::White { Color::White } else { Color::Black };
        assert!(search.static_eval(stm) <= -400, "{fen}");
        let (score, best) = search.data_search(&board, SearchType::Depth(12));
        assert!((-10..=10).contains(&score), "{score} {fen}");
        assert!(best.is_some());
    }
}

#[test]
fn finds_unique_mate_in_one() {
    // Back-rank mate: Re1-e8 is the only mate.
    let board = Board::from_fen("6k1/5ppp/8/8/8/8/5PPP/4R1K1 w - - 0 1", false).unwrap();
    let mut search = searcher(&board, material_params(), 1);
    let (score, best) = search.data_search(&board, SearchType::Depth(2));
    assert_eq!(uci(best.unwrap()), "e1e8");
    assert_eq!(score, MATE - 1);
}

#[test]
fn mate_in_one_outscores_mate_in_three() {
    assert!(MATE - 1 > MATE - 3);
    assert!(MATE - 3 >= MATE_IN);
    assert_eq!(score_report(MATE - 1), ScoreReport::Mate(1));
    assert_eq!(score_report(MATE - 3), ScoreReport::Mate(2));
    assert_eq!(score_report(-(MATE - 2)), ScoreReport::Mate(-1));
    assert_eq!(score_report(35), ScoreReport::Centipawns(35));
    assert_eq!(format_score(MATE - 3), "mate 2");
    assert_eq!(format_score(-(MATE - 4)), "mate -2");
    assert_eq!(format_score(-17), "cp -17");
    assert_eq!(format_score(0), "cp 0");
    assert_eq!(format_score(INFINITY), "mate 1");
    assert_eq!(format_score(-INFINITY), "mate -1");
    assert_eq!(format_score(1234), "cp 1234");
    assert_eq!(format_score(-(MATE - 21)), "mate -11");
}

#[test]
fn respects_a_hard_deadline() {
    let board = Board::default();
    let mut search = searcher(&board, material_params(), 4);
    let start = Instant::now();
    let outcome = search.iterative_deepening(&board, SearchType::Time(100, 200));
    let spent = start.elapsed().as_millis();
    assert!(spent <= 400, "{spent}");
    assert!(outcome.best_move.is_some());
    assert!(!outcome.reports.is_empty());
}

#[test]
fn stopped_search_still_replies() {
    let board = Board::default();
    let mut search = searcher(&board, material_params(), 1);
    search.stop_signal.store(true, std::sync::atomic::Ordering::Relaxed);
    let outcome = search.iterative_deepening(&board, SearchType::Infinite);
    assert!(outcome.best_move.is_some());
    assert_eq!(outcome.reports.len(), 1);
}

#[test]
fn no_reply_without_legal_moves() {
    // Black is checkmated.
    let board = Board::from_fen("R5k1/5ppp/8/8/8/8/5PPP/6K1 b - - 0 1", false).unwrap();
    let mut search = searcher(&board, material_params(), 1);
    let outcome = search.iterative_deepening(&board, SearchType::Depth(3));
    assert_eq!(outcome.best_move, None);
    assert_eq!(outcome.score, -MATE);
}

#[test]
fn quiescence_never_below_stand_pat() {
    let fens = [
        "rnbqkbnr/pppppppp/8/8/8/8/PPPPPPPP/RNBQKBNR w KQkq - 0 1",
        "r1bqkbnr/pppp1ppp/2n5/4p3/3PP3/5N2/PPP2PPP/RNBQKB1R b KQkq - 0 3",
        "4k3/8/8/3q4/4P3/8/8/4K3 w - - 0 1",
    ];
    for fen in fens {
        let board = Board::from_fen(fen, false).unwrap();
        let mut search = searcher(&board, material_params(), 1);
        let stm = if board.side_to_move() == cozy_chess::Color::White { Color::White } else { Color::Black };
        let stand_pat = search.static_eval(stm);
        let q = search.qsearch(&board, stm, -INFINITY, INFINITY, 0, true);
        assert!(q >= stand_pat, "{fen}: {q} < {stand_pat}");
    }
    // A hanging queen: the capture lifts the score above the stand pat.
    let board = Board::from_fen("4k3/8/8/3q4/4P3/8/8/4K3 w - - 0 1", false).unwrap();
    let mut search = searcher(&board, material_params(), 1);
    let stand_pat = search.static_eval(Color::White);
    let q = search.qsearch(&board, Color::White, -INFINITY, INFINITY, 0, true);
    assert!(q > stand_pat + 500, "{q} {stand_pat}");
}

#[test]
fn two_fold_repetition_is_a_near_draw() {
    let h = vec![10u64, 20, 30, 20, 40];
    assert!(is_repetition(&h, 4, 20));
    assert!(!is_repetition(&h, 4, 40));
    assert!(!is_repetition(&h, 1, 20));
    assert!(is_repetition(&h, 2, 20));
    assert!(!is_repetition(&h, 2, 30));
    assert!(is_repetition(&h, 3, 20));
    assert!(!is_repetition(&h, 100, 99));
    for nodes in 0..16u64 {
        let d = draw_score(nodes);
        assert!((1..=8).contains(&d));
        assert_eq!(d, 8 - (nodes % 8) as i32);
    }
}

#[test]
fn pruning_rules() {
    assert_eq!(mate_distance_window(-INFINITY, INFINITY, 3), (3 - MATE, MATE - 4));
    assert!(tt_cutoff(TTFlag::Exact, 0, -5, 5));
    assert!(tt_cutoff(TTFlag::LowerBound, 5, -5, 5));
    assert!(!tt_cutoff(TTFlag::LowerBound, 4, -5, 5));
    assert!(tt_cutoff(TTFlag::UpperBound, -5, -5, 5));
    assert!(!tt_cutoff(TTFlag::NoBound, 0, -5, 5));
    assert!(reverse_futility_prunes(300, 0, 4, false));
    assert!(!reverse_futility_prunes(299, 0, 4, false));
    assert!(reverse_futility_prunes(150, 0, 4, true));
    assert!(!reverse_futility_prunes(10000, 0, 9, true));
    assert_eq!(null_move_reduction(9, 1000, 0), 9);
    assert_eq!(null_move_reduction(3, 100, 0), 4);
    assert_eq!(late_move_reduction(3, false, false, false, 8), 4);
    assert_eq!(late_move_reduction(3, true, true, true, 8), 1);
    assert_eq!(late_move_reduction(20, false, false, false, 8), 7);
    assert_eq!(bound_flag(10, 0, 10), TTFlag::LowerBound);
    assert_eq!(bound_flag(5, 0, 10), TTFlag::Exact);
    assert_eq!(bound_flag(0, 0, 10), TTFlag::UpperBound);
    assert_eq!(bound_flag(-7, 0, 10), TTFlag::UpperBound);
}

#[test]
fn aspiration_windows() {
    assert_eq!(first_window(40, 4), Window { alpha: -INFINITY, beta: INFINITY, delta: 25, depth: 4 });
    let w = first_window(40, 6);
    assert_eq!(w, Window { alpha: 15, beta: 65, delta: 25, depth: 6 });
    assert_eq!(next_window(w, 30, 6), None);
    assert_eq!(next_window(w, 10, 6), Some(Window { alpha: -15, beta: 40, delta: 37, depth: 6 }));
    assert_eq!(next_window(w, 70, 6), Some(Window { alpha: 15, beta: 95, delta: 37, depth: 5 }));
    assert_eq!(next_window(w, MATE - 5, 6), Some(Window { alpha: 15, beta: INFINITY, delta: 37, depth: 6 }));
}

#[test]
fn time_management() {
    assert_eq!(time_for_move(1010, 0, None), (30, 100));
    assert_eq!(time_for_move(10010, 1000, None), (600, 2000));
    assert_eq!(time_for_move(1010, 0, Some(10)), (100, 100));
    assert_eq!(time_for_move(1010, 0, Some(0)), (1000, 1000));
    assert_eq!(optimum_time(1000, 0, 100), 1800);
    assert_eq!(optimum_time(1000, 100, 100), 600);
    assert_eq!(optimum_time(1000, 50, 100), 1200);
    assert_eq!(optimum_time(1000, 0, 0), 0);
}

#[test]
fn history_rewards_and_ages() {
    let mut h = History::new();
    let m = Move { from: 12, to: 28, promotion: None };
    h.update_table(Color::White, m, 3, true);
    assert_eq!(h.get_score(Color::White, m), 144);
    assert_eq!(h.get_score(Color::Black, m), 0);
    h.update_table(Color::White, m, 3, false);
    // 144 - 144 - 144 * 144 / 32767 rounds toward zero.
    assert_eq!(h.get_score(Color::White, m), 0);
    h.update_table(Color::Black, m, 20, true);
    assert_eq!(h.get_score(Color::Black, m), 1200);
    h.update_table(Color::Black, m, 20, true);
    assert_eq!(h.get_score(Color::Black, m), 1200 + 1200 - 1200 * 1200 / 32767);
    h.update_table(Color::White, m, 1, false);
    assert_eq!(h.get_score(Color::White, m), -16);
    h.age_table();
    assert_eq!(h.get_score(Color::White, m), -8);
    assert_eq!(h.get_score(Color::Black, m), 1178);
    for _ in 0..1000 {
        h.update_table(Color::Black, m, 50, true);
    }
    assert!(h.get_score(Color::Black, m) <= 32767);
}

#[test]
fn lmr_lookup_caps_arguments() {
    let t = lmr();
    assert_eq!(t.reduction(1, 1), 0);
    assert_eq!(t.reduction(10, 10), (0.75 + (10f64).ln() * (10f64).ln() / 2.25) as i32);
    assert_eq!(t.reduction(100, 100), t.reduction(63, 63));
}
