use cozy_chess::{Board, Square};
use svart::moves::{Color, Move, Piece};
use svart::movegen::{mvvlva_score, move_rank, piece_num, Picker, MoveEntry, PROMOTION_SCORE, TT_MOVE_SCORE};
use svart::position::{capture_move, en_passant_move, is_capture, is_ep, is_quiet};
use svart::pv_table::standard_castling;
use svart::history::History;

fn mv(from: Square, to: Square, promotion: Option<Piece>) -> Move {
    Move { from: from as u8, to: to as u8, promotion }
}

#[test]
fn quiet_moves() {
    let board_1 = Board::from_fen("rnbqkbnr/pppppppp/8/8/8/8/PPPPPPPP/RNBQKBNR w KQkq - 0 1", false).unwrap();
    let board_2 = Board::from_fen("8/1k6/1q3R2/8/2p5/5K2/1p6/8 w - - 0 1", false).unwrap();
    let board_3 = Board::from_fen("2q5/1k5P/5n2/8/8/5K2/1p6/8 b - - 0 1", false).unwrap();

    // Quiet pawn move
    let m = mv(Square::A2, Square::A3, None);
    // Queen promotion
    let m_1 = mv(Square::H7, Square::H8, Some(Piece::Queen));
    // Quiet rook move
    let m_2 = mv(Square::F6, Square::F8, None);
    // Queen takes pawn
    let m_3 = mv(Square::E2, Square::B2, None);
    // Queen promotion
    let m_4 = mv(Square::B2, Square::B1, Some(Piece::Queen));
    // Knight takes pawn
    let m_5 = mv(Square::F6, Square::H7, None);
    // Quiet check
    let m_6 = mv(Square::C8, Square::C3, None);

    assert!(is_quiet(&board_1, m));
    assert!(!is_quiet(&board_2, m_1));
    assert!(is_quiet(&board_2, m_2));
    assert!(!is_quiet(&board_2, m_3));
    assert!(!is_quiet(&board_3, m_4));
    assert!(!is_quiet(&board_3, m_5));
    assert!(is_quiet(&board_3, m_6));
}

#[test]
fn capture_moves() {
    let board_1 = Board::from_fen("rnbqkbnr/pppppppp/8/8/8/8/PPPPPPPP/RNBQKBNR w KQkq - 0 1", false).unwrap();
    let board_2 = Board::from_fen("8/1k6/1q3R2/8/2p5/5K2/1p6/8 w - - 0 1", false).unwrap();
    let board_3 = Board::from_fen("2q5/1k5P/5n2/8/8/5K2/1p6/8 b - - 0 1", false).unwrap();

    // Quiet pawn push
    let m = mv(Square::A2, Square::A3, None);
    // Rook takes queen
    let m_1 = mv(Square::F6, Square::B6, None);
    // Quiet king move
    let m_2 = mv(Square::F3, Square::E2, None);
    // Queen promotion
    let m_3 = mv(Square::B2, Square::B1, Some(Piece::Queen));
    // Knight takes pawn
    let m_4 = mv(Square::F6, Square::H7, None);

    assert!(!is_capture(&board_1, m));
    assert!(is_capture(&board_2, m_1));
    assert!(!is_capture(&board_3, m_2));
    assert!(!is_capture(&board_3, m_3));
    assert!(is_capture(&board_3, m_4));
}

#[test]
fn en_passant_is_a_capture() {
    let board = Board::from_fen("rnbqkbnr/ppp1p1pp/8/3pPp2/8/8/PPPP1PPP/RNBQKBNR w KQkq f6 0 3", false).unwrap();
    let m = mv(Square::E5, Square::F6, None);
    assert!(is_ep(&board, m));
    assert!(is_capture(&board, m));
    assert!(!is_ep(&board, mv(Square::E5, Square::E6, None)));
}

#[test]
fn capture_rules_on_plain_values() {
    let m = Move { from: 36, to: 45, promotion: None };
    // White pawn to f6 with the f-file open for en passant.
    assert!(en_passant_move(Color::White, Some(Piece::Pawn), Some(5), m));
    assert!(!en_passant_move(Color::White, Some(Piece::Knight), Some(5), m));
    assert!(!en_passant_move(Color::White, Some(Piece::Pawn), Some(4), m));
    // Black pawn to f3.
    let b = Move { from: 30, to: 21, promotion: None };
    assert!(en_passant_move(Color::Black, Some(Piece::Pawn), Some(5), b));
    assert!(capture_move(Color::White, Some(Color::Black), Some(Piece::Rook), None, Move { from: 0, to: 8, promotion: None }));
    assert!(!capture_move(Color::White, Some(Color::White), Some(Piece::King), None, Move { from: 4, to: 7, promotion: None }));
}

#[test]
fn mvvlva_table() {
    assert_eq!(mvvlva_score(5, 1), 505);
    assert_eq!(mvvlva_score(1, 5), 101);
    assert_eq!(mvvlva_score(0, 1), 105);
    assert_eq!(mvvlva_score(6, 6), 600);
    assert_eq!(mvvlva_score(3, 0), 0);
    assert_eq!(piece_num(None), 0);
    assert_eq!(piece_num(Some(Piece::King)), 6);
}

#[test]
fn move_ranking_order() {
    let m = Move { from: 12, to: 28, promotion: None };
    let other = Move { from: 1, to: 18, promotion: None };
    let promo = Move { from: 52, to: 60, promotion: Some(Piece::Queen) };
    assert_eq!(move_rank(m, Some(m), true, 505, (None, None), 7), TT_MOVE_SCORE);
    assert_eq!(move_rank(promo, Some(m), true, 505, (None, None), 7), PROMOTION_SCORE);
    assert_eq!(move_rank(m, Some(other), true, 505, (None, None), 7), 200505);
    assert_eq!(move_rank(m, None, false, 0, (Some(m), None), 7), 100000);
    assert_eq!(move_rank(m, None, false, 0, (Some(other), Some(m)), 7), 95000);
    assert_eq!(move_rank(m, None, false, 0, (Some(other), None), -42), -42);
}

#[test]
fn picker_hands_out_best_first() {
    let e = |from: u8, score: i32| MoveEntry { mv: Move { from, to: 0, promotion: None }, score };
    let mut picker = Picker::new(vec![e(1, 5), e(2, 90), e(3, -4), e(4, 90), e(5, 30)]);
    let mut order = vec![];
    while let Some(m) = picker.pick_move() {
        order.push(m.from);
    }
    // Equal ranks: the later one first.
    assert_eq!(order, vec![4, 2, 5, 1, 3]);
    assert_eq!(picker.pick_move(), None);
}

#[test]
fn castling_written_as_king_step() {
    let k = Some(Piece::King);
    assert_eq!(standard_castling(k, Move { from: 4, to: 7, promotion: None }).to, 6);
    assert_eq!(standard_castling(k, Move { from: 4, to: 0, promotion: None }).to, 2);
    assert_eq!(standard_castling(k, Move { from: 60, to: 63, promotion: None }).to, 62);
    assert_eq!(standard_castling(k, Move { from: 60, to: 56, promotion: None }).to, 58);
    assert_eq!(standard_castling(Some(Piece::Rook), Move { from: 4, to: 7, promotion: None }).to, 7);
}

#[test]
fn capture_list_holds_captures_and_promotions() {
    // White pawn b7 may promote on b8 or take the rook on a8.
    let board = Board::from_fen("r3k3/1P6/8/8/8/8/8/4K3 w - - 0 1", false).unwrap();
    let history = History::new();
    let list = svart::movegen::capture_moves(&board, None, (None, None), &history);
    assert_eq!(list.len(), 8);
    assert!(list.iter().all(|e| e.mv.from == Square::B7 as u8));
    let quiet_queen = list.iter().find(|e| e.mv.to == Square::B8 as u8 && e.mv.promotion == Some(Piece::Queen)).unwrap();
    assert_eq!(quiet_queen.score, PROMOTION_SCORE);
}
