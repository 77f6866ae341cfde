use cozy_chess::Square;
use svart::consts::{MATE, MAX_PLY, NOMOVE, TB_WIN_IN_PLY};
use svart::moves::{Move, Piece};
use svart::tt::{score_from_tt, score_to_tt, AgeAndFlag, PackedMove, TTEntry, TTFlag, TT};

fn mv(from: Square, to: Square, promotion: Option<Piece>) -> Move {
    Move { from: from as u8, to: to as u8, promotion }
}

#[test]
fn tt_tt_reset() {
    let mut tt = TT::new(1);
    let m = mv(Square::A1, Square::A2, None);
    tt.store(5, Some(m), 1, 3, TTFlag::UpperBound, 22);
    assert_eq!(tt.probe(5).score, 1);

    tt.reset();
    for entry in tt.entries.iter() {
        assert_eq!(entry.score, 0);
        assert_eq!(entry.age_flag, AgeAndFlag(0));
        assert_eq!(entry.depth, 0);
        assert_eq!(entry.key, 0);
        assert_eq!(entry.mv, PackedMove(NOMOVE));
    }
}

#[test]
fn tt_packed_moves() {
    let m = mv(Square::A1, Square::A2, None);
    assert_eq!(PackedMove::new(Some(m)).unpack(), m);

    let m = mv(Square::B7, Square::A2, Some(Piece::Knight));
    assert_eq!(PackedMove::new(Some(m)).unpack(), m);

    let m = mv(Square::C1, Square::A2, Some(Piece::Bishop));
    assert_eq!(PackedMove::new(Some(m)).unpack(), m);

    let m = mv(Square::H3, Square::H4, Some(Piece::Rook));
    assert_eq!(PackedMove::new(Some(m)).unpack(), m);

    let m = mv(Square::D8, Square::D7, Some(Piece::Queen));
    assert_eq!(PackedMove::new(Some(m)).unpack(), m);
}

#[test]
fn age_flag() {
    let entry = TTEntry {
        key: 0,
        mv: PackedMove(NOMOVE),
        score: 0,
        depth: 0,
        age_flag: AgeAndFlag::new(5, TTFlag::Exact),
    };

    assert_eq!(entry.age_flag.age(), 0b0000_0101);
    assert_eq!(entry.age_flag.age(), 5);
    assert_eq!(entry.age_flag.flag(), TTFlag::Exact);

    let entry = TTEntry {
        key: 0,
        mv: PackedMove(NOMOVE),
        score: 0,
        depth: 0,
        age_flag: AgeAndFlag::new(63, TTFlag::UpperBound),
    };

    assert_eq!(entry.age_flag.age(), 0b0011_1111);
    assert_eq!(entry.age_flag.age(), 63);
    assert_eq!(entry.age_flag.flag(), TTFlag::UpperBound);

    let entry = TTEntry {
        key: 0,
        mv: PackedMove(NOMOVE),
        score: 0,
        depth: 0,
        age_flag: AgeAndFlag::new(0, TTFlag::LowerBound),
    };

    assert_eq!(entry.age_flag.age(), 0b0000_0000);
    assert_eq!(entry.age_flag.age(), 0);
    assert_eq!(entry.age_flag.flag(), TTFlag::LowerBound);
}

#[test]
fn packed_move_bit_layout() {
    let m = Move { from: 12, to: 28, promotion: Some(Piece::Queen) };
    assert_eq!(PackedMove::new(Some(m)).0, 12 | (28 << 6) | (0b111 << 12));
    assert_eq!(PackedMove::new(None).0, 0);
}

#[test]
fn every_move_survives_packing() {
    let promotions = [None, Some(Piece::Knight), Some(Piece::Bishop), Some(Piece::Rook), Some(Piece::Queen)];
    for from in 0..64u8 {
        for to in 0..64u8 {
            for p in promotions {
                let m = Move { from, to, promotion: p };
                assert_eq!(PackedMove::new(Some(m)).unpack(), m);
            }
        }
    }
}

#[test]
fn store_then_probe_round_trip() {
    let mut tt = TT::new(1);
    tt.age();
    let m = Move { from: 6, to: 21, promotion: None };
    let key = 0xdead_beef_1234_5678u64;
    let mate_score = (MATE - 7) as i16;
    tt.store(key, Some(m), mate_score, 9, TTFlag::Exact, 3);
    let e = tt.probe(key);
    assert_eq!(e.key, key as u16);
    assert_eq!(e.depth, 9);
    assert_eq!(e.age_flag.flag(), TTFlag::Exact);
    assert_eq!(e.age_flag.age(), 1);
    assert_eq!(e.mv.unpack(), m);
    assert_eq!(e.score, mate_score + 3);
    assert_eq!(score_from_tt(e.score, 3), mate_score);
}

#[test]
fn store_without_move_keeps_previous_move() {
    let mut tt = TT::new(1);
    let m = Move { from: 1, to: 18, promotion: None };
    tt.store(77, Some(m), 10, 4, TTFlag::LowerBound, 0);
    tt.store(77, None, -20, 5, TTFlag::UpperBound, 0);
    let e = tt.probe(77);
    assert_eq!(e.score, -20);
    assert_eq!(e.depth, 5);
    assert_eq!(e.mv.unpack(), m);
}

#[test]
fn lower_quality_store_is_refused() {
    let mut tt = TT::new(1);
    let m = Move { from: 1, to: 18, promotion: None };
    tt.store(99, Some(m), 50, 10, TTFlag::Exact, 0);
    let before = tt.probe(99);
    tt.store(99, None, -300, 2, TTFlag::UpperBound, 0);
    assert_eq!(tt.probe(99), before);

    // A newer generation outweighs depth.
    for _ in 0..6 {
        tt.age();
    }
    tt.store(99, None, -300, 2, TTFlag::UpperBound, 0);
    assert_eq!(tt.probe(99).score, -300);
}

#[test]
fn epoch_caps_at_the_age_field() {
    let mut tt = TT::new(1);
    for _ in 0..100 {
        tt.age();
    }
    assert_eq!(tt.epoch, 63);
}

#[test]
fn table_size_and_index() {
    let tt = TT::new(1);
    assert_eq!(tt.entries.len(), 1024 * 1024 / 8);
    assert_eq!(tt.index(0), 0);
    assert_eq!(tt.index(u64::MAX), tt.entries.len() - 1);
    assert_eq!(tt.index(1u64 << 63), tt.entries.len() / 2);
}

#[test]
fn mate_scores_are_rebased_by_ply() {
    let win = TB_WIN_IN_PLY as i16;
    assert_eq!(score_to_tt(win + 10, 5), win + 15);
    assert_eq!(score_to_tt(-win - 10, 5), -win - 15);
    assert_eq!(score_to_tt(123, 5), 123);
    assert_eq!(score_from_tt(win + 15, 5), win + 10);
    assert_eq!(score_from_tt(-win - 15, 5), -win - 10);
    assert_eq!(score_from_tt(-123, MAX_PLY), -123);
}
