use vstd::prelude::*;

use crate::consts::{INFINITY, MAX_PLY, NOMOVE, TB_LOSS_IN_PLY, TB_WIN_IN_PLY};
use crate::moves::{Move, Piece};

verus! {

/// What a stored score says about the true score of a position.
#[derive(Clone, Copy, PartialEq, Eq, Structural, Debug)]
pub enum TTFlag {
    NoBound,
    Exact,
    LowerBound,
    UpperBound,
}

/// A move packed into 16 bits: origin in bits 0..6, destination in bits
/// 6..12, promotion in bits 12..15 (0 for none, 0b100 + kind for knight,
/// bishop, rook, queen).
#[derive(Clone, Copy, PartialEq, Eq, Structural, Debug)]
pub struct PackedMove(pub u16);

/// The three promotion bits of a move.
pub open spec fn promotion_bits(p: Option<Piece>) -> u16 {
    match p {
        None => 0b000,
        Some(Piece::Knight) => 0b100,
        Some(Piece::Bishop) => 0b101,
        Some(Piece::Rook) => 0b110,
        Some(Piece::Queen) => 0b111,
        Some(_) => 0b000,
    }
}

/// The packed value of a move, as a number.
pub open spec fn pack_spec(mv: Option<Move>) -> u16 {
    match mv {
        None => NOMOVE,
        Some(m) => (m.from as u16) | ((m.to as u16) << 6u16) | (promotion_bits(m.promotion) << 12u16),
    }
}

/// The promotion that three packed bits stand for; the unused codes 1..4
/// read as no promotion.
pub open spec fn promotion_of_bits(b: u16) -> Option<Piece> {
    if b == 0b100 {
        Some(Piece::Knight)
    } else if b == 0b101 {
        Some(Piece::Bishop)
    } else if b == 0b110 {
        Some(Piece::Rook)
    } else if b == 0b111 {
        Some(Piece::Queen)
    } else {
        None
    }
}

impl PackedMove {
    pub open spec fn unpack_spec(self) -> Move {
        Move {
            from: (self.0 & 0x3f) as u8,
            to: ((self.0 >> 6u16) & 0x3f) as u8,
            promotion: promotion_of_bits((self.0 >> 12u16) & 0x7),
        }
    }

    /// Packs a move; `None` packs to the empty move.
    pub fn new(mv: Option<Move>) -> (r: PackedMove)
        requires
            mv matches Some(m) ==> m.wf(),
        ensures
            r.0 == pack_spec(mv),
    {
        match mv {
            None => PackedMove(NOMOVE),
            Some(m) => {
                let from = m.from as u16;
                let to = m.to as u16;
                let promotion: u16 = match m.promotion {
                    None => 0b000,
                    Some(Piece::Knight) => 0b100,
                    Some(Piece::Bishop) => 0b101,
                    Some(Piece::Rook) => 0b110,
                    Some(Piece::Queen) => 0b111,
                    Some(_) => 0b000,
                };
                PackedMove(from | to << 6u16 | promotion << 12u16)
            },
        }
    }

    /// The move that the packed bits describe.
    pub fn unpack(self) -> (r: Move)
        ensures
            r == self.unpack_spec(),
            r.wf(),
    {
        let v = self.0;
        let from = v & 0x3f;
        let to = (v >> 6u16) & 0x3f;
        let bits = (v >> 12u16) & 0x7;
        assert(from < 64 && to < 64) by (bit_vector)
            requires
                from == v & 0x3f,
                to == (v >> 6u16) & 0x3f,
        ;
        let promotion = if bits == 0b100 {
            Some(Piece::Knight)
        } else if bits == 0b101 {
            Some(Piece::Bishop)
        } else if bits == 0b110 {
            Some(Piece::Rook)
        } else if bits == 0b111 {
            Some(Piece::Queen)
        } else {
            None
        };
        Move { from: from as u8, to: to as u8, promotion }
    }
}

/// Every well-formed move survives packing and unpacking unchanged.
pub proof fn lemma_pack_unpack(m: Move)
    requires
        m.wf(),
    ensures
        PackedMove(pack_spec(Some(m))).unpack_spec() == m,
{
    let f = m.from as u16;
    let t = m.to as u16;
    let b = promotion_bits(m.promotion);
    let v = pack_spec(Some(m));
    assert(v & 0x3f == f && (v >> 6u16) & 0x3f == t && (v >> 12u16) & 0x7 == b) by (bit_vector)
        requires
            v == f | (t << 6u16) | (b << 12u16),
            f < 64,
            t < 64,
            b < 8,
    ;
}

/// The age of an entry (six bits) and its bound flag (two bits) in one byte.
#[derive(Clone, Copy, PartialEq, Eq, Structural, Debug)]
pub struct AgeAndFlag(pub u8);

/// Largest value the six age bits hold.
pub const MAX_AGE: u8 = 63;

pub open spec fn flag_bits(flag: TTFlag) -> u8 {
    match flag {
        TTFlag::NoBound => 0,
        TTFlag::Exact => 1,
        TTFlag::LowerBound => 2,
        TTFlag::UpperBound => 3,
    }
}

pub open spec fn flag_of_bits(b: u8) -> TTFlag {
    if b == 0 {
        TTFlag::NoBound
    } else if b == 1 {
        TTFlag::Exact
    } else if b == 2 {
        TTFlag::LowerBound
    } else {
        TTFlag::UpperBound
    }
}

/// The age and the flag bits both read back from their packed byte.
pub proof fn lemma_age_flag_bits(age: u8, f: u8)
    requires
        age <= MAX_AGE,
        f < 4,
    ensures
        (age << 2u8 | f) >> 2u8 == age,
        (age << 2u8 | f) & 0x3 == f,
{
    assert((age << 2u8 | f) >> 2u8 == age && (age << 2u8 | f) & 0x3 == f) by (bit_vector)
        requires
            age < 64,
            f < 4,
    ;
}

impl AgeAndFlag {
    pub open spec fn age_spec(self) -> u8 {
        self.0 >> 2u8
    }

    pub open spec fn flag_spec(self) -> TTFlag {
        flag_of_bits(self.0 & 0x3)
    }

    pub open spec fn new_spec(age: u8, flag: TTFlag) -> AgeAndFlag {
        AgeAndFlag(age << 2u8 | flag_bits(flag))
    }

    pub fn new(age: u8, flag: TTFlag) -> (r: AgeAndFlag)
        requires
            age <= MAX_AGE,
        ensures
            r == Self::new_spec(age, flag),
            r.age_spec() == age,
            r.flag_spec() == flag,
    {
        let f: u8 = match flag {
            TTFlag::NoBound => 0b00,
            TTFlag::Exact => 0b01,
            TTFlag::LowerBound => 0b10,
            TTFlag::UpperBound => 0b11,
        };
        let v = age << 2u8 | f;
        proof {
            lemma_age_flag_bits(age, f);
        }
        AgeAndFlag(v)
    }

    pub fn age(&self) -> (r: u8)
        ensures
            r == self.age_spec(),
            r <= MAX_AGE,
    {
        let v = self.0;
        let r = v >> 2u8;
        assert(r <= 63) by (bit_vector)
            requires
                r == v >> 2u8,
        ;
        r
    }

    pub fn flag(&self) -> (r: TTFlag)
        ensures
            r == self.flag_spec(),
    {
        let v = self.0;
        let b = v & 0x3;
        if b == 0 {
            TTFlag::NoBound
        } else if b == 1 {
            TTFlag::Exact
        } else if b == 2 {
            TTFlag::LowerBound
        } else {
            TTFlag::UpperBound
        }
    }
}

/// One slot of the table: fingerprint, best move, score, depth, age and flag.
#[derive(Clone, Copy, PartialEq, Eq, Structural, Debug)]
pub struct TTEntry {
    pub mv: PackedMove,
    pub key: u16,
    pub score: i16,
    pub depth: u8,
    pub age_flag: AgeAndFlag,
}

impl TTEntry {
    pub open spec fn empty() -> TTEntry {
        TTEntry { mv: PackedMove(NOMOVE), key: 0, score: 0, depth: 0, age_flag: AgeAndFlag(0) }
    }

    /// Fresher and deeper entries are worth more.
    pub open spec fn quality_spec(self) -> int {
        self.age_flag.age_spec() * 2 + self.depth
    }

    pub fn quality(&self) -> (r: u16)
        ensures
            r == self.quality_spec(),
    {
        let age = self.age_flag.age();
        age as u16 * 2 + self.depth as u16
    }
}

/// A ply-relative mate score rebased for storage: mate scores are stored
/// as distance from the stored position instead of from the root.
pub open spec fn to_tt_spec(score: int, ply: int) -> int {
    if score >= TB_WIN_IN_PLY {
        score + ply
    } else if score <= TB_LOSS_IN_PLY {
        score - ply
    } else {
        score
    }
}

/// The inverse rebasing, applied when a stored score is read back at `ply`.
pub open spec fn from_tt_spec(score: int, ply: int) -> int {
    if score >= TB_WIN_IN_PLY {
        score - ply
    } else if score <= TB_LOSS_IN_PLY {
        score + ply
    } else {
        score
    }
}

/// A score in the legal band of the search.
pub open spec fn score_in_band(score: int) -> bool {
    -INFINITY <= score <= INFINITY
}

pub fn score_to_tt(score: i16, ply: usize) -> (r: i16)
    requires
        score_in_band(score as int),
        ply <= MAX_PLY,
    ensures
        r == to_tt_spec(score as int, ply as int),
{
    if score as i32 >= TB_WIN_IN_PLY {
        score + ply as i16
    } else if score as i32 <= TB_LOSS_IN_PLY {
        score - ply as i16
    } else {
        score
    }
}

pub fn score_from_tt(score: i16, ply: usize) -> (r: i16)
    requires
        ply <= MAX_PLY,
    ensures
        r == from_tt_spec(score as int, ply as int),
{
    if score as i32 >= TB_WIN_IN_PLY {
        score - ply as i16
    } else if score as i32 <= TB_LOSS_IN_PLY {
        score + ply as i16
    } else {
        score
    }
}

/// Reading back a rebased score at the same ply gives the original score.
pub proof fn lemma_tt_score_round_trip(score: int, ply: int)
    requires
        score_in_band(score),
        0 <= ply <= MAX_PLY,
    ensures
        from_tt_spec(to_tt_spec(score, ply), ply) == score,
{
}

/// Number of bytes one entry takes.
pub const ENTRY_BYTES: u32 = 8;

/// 2^64, the divisor that keeps the high half of a 128-bit product.
pub const HIGH_HALF: u128 = 0x1_0000_0000_0000_0000;

/// Slot of `key` in a table of `len` slots: the high 64 bits of `key * len`.
pub open spec fn index_spec(key: u64, len: nat) -> int {
    (key as int * len as int) / HIGH_HALF as int
}

/// The shared cache of search results, keyed by position hash.
pub struct TT {
    pub entries: Vec<TTEntry>,
    pub epoch: u8,
}

impl TT {
    pub open spec fn wf(&self) -> bool {
        &&& self.entries.len() > 0
        &&& self.epoch <= MAX_AGE
    }

    pub open spec fn slot(&self, key: u64) -> int {
        index_spec(key, self.entries.len() as nat)
    }

    /// The entry a store of these values would write, before the sticky-move rule.
    pub open spec fn candidate(&self, key: u64, mv: Option<Move>, score: i16, depth: u8, flag: TTFlag, ply: usize) -> TTEntry {
        TTEntry {
            mv: PackedMove(pack_spec(mv)),
            key: key as u16,
            score: to_tt_spec(score as int, ply as int) as i16,
            depth,
            age_flag: AgeAndFlag::new_spec(self.epoch, flag),
        }
    }

    /// What the slot holds after a store: the candidate if it is worth at
    /// least as much as the resident entry, keeping the resident move when
    /// the candidate has none; else the resident entry.
    pub open spec fn stored_entry(&self, key: u64, mv: Option<Move>, score: i16, depth: u8, flag: TTFlag, ply: usize) -> TTEntry {
        let old = self.entries@[self.slot(key)];
        let c = self.candidate(key, mv, score, depth, flag, ply);
        if c.quality_spec() >= old.quality_spec() {
            TTEntry { mv: if mv is Some { c.mv } else { old.mv }, ..c }
        } else {
            old
        }
    }

    /// The table after a store.
    pub open spec fn store_spec(&self, key: u64, mv: Option<Move>, score: i16, depth: u8, flag: TTFlag, ply: usize) -> Seq<TTEntry> {
        self.entries@.update(self.slot(key), self.stored_entry(key, mv, score, depth, flag, ply))
    }

    /// A table of `mb` megabytes, every entry empty, epoch zero.
    pub fn new(mb: u32) -> (r: TT)
        requires
            1 <= mb,
            mb as int * 1024 * 1024 <= u32::MAX,
        ensures
            r.wf(),
            r.epoch == 0,
            r.entries.len() == mb as int * 1024 * 1024 / ENTRY_BYTES as int,
            forall|i: int| 0 <= i < r.entries.len() ==> r.entries@[i] == TTEntry::empty(),
    {
        let hash_size = mb * 1024 * 1024;
        let size = hash_size / ENTRY_BYTES;
        let mut entries: Vec<TTEntry> = Vec::new();
        let mut i: u32 = 0;
        while i < size
            invariant
                i <= size,
                entries.len() == i,
                forall|j: int| 0 <= j < entries.len() ==> entries@[j] == TTEntry::empty(),
            decreases size - i,
        {
            entries.push(TTEntry { mv: PackedMove(NOMOVE), key: 0, score: 0, depth: 0, age_flag: AgeAndFlag(0) });
            i = i + 1;
        }
        TT { entries, epoch: 0 }
    }

    pub fn index(&self, key: u64) -> (r: usize)
        requires
            self.wf(),
        ensures
            r == self.slot(key),
            r < self.entries.len(),
    {
        let len = self.entries.len();
        let k = key as u128;
        let l = len as u128;
        let ghost h = HIGH_HALF as int;
        assert(k * l < h * l) by (nonlinear_arith)
            requires
                k < h,
                l > 0,
        ;
        assert(k * l <= u128::MAX) by (nonlinear_arith)
            requires
                k < h,
                l < h,
                h == 0x1_0000_0000_0000_0000int,
        ;
        let q = (k * l) / HIGH_HALF;
        assert(q < l) by (nonlinear_arith)
            requires
                q == (k * l) / h,
                k * l < h * l,
                h > 0,
        ;
        q as usize
    }

    /// The entry in the slot of `key`; its fingerprint may belong to
    /// another position.
    pub fn probe(&self, key: u64) -> (r: TTEntry)
        requires
            self.wf(),
        ensures
            r == self.entries@[self.slot(key)],
    {
        let i = self.index(key);
        self.entries[i]
    }

    /// Starts a new search generation, capped at the largest age.
    pub fn age(&mut self)
        requires
            old(self).wf(),
        ensures
            final(self).wf(),
            final(self).entries == old(self).entries,
            final(self).epoch == if old(self).epoch < MAX_AGE { old(self).epoch + 1 } else { MAX_AGE as int },
    {
        if self.epoch < MAX_AGE {
            self.epoch = self.epoch + 1;
        }
    }

    /// Writes a search result into the slot of `key` when it is worth at
    /// least as much as the entry there (see `stored_entry`).
    pub fn store(&mut self, key: u64, mv: Option<Move>, score: i16, depth: u8, flag: TTFlag, ply: usize)
        requires
            old(self).wf(),
            mv matches Some(m) ==> m.wf(),
            score_in_band(score as int),
            ply <= MAX_PLY,
        ensures
            final(self).wf(),
            final(self).epoch == old(self).epoch,
            final(self).entries@ == old(self).store_spec(key, mv, score, depth, flag, ply),
    {
        let target_index = self.index(key);
        let target = self.entries[target_index];
        let entry = TTEntry {
            key: key as u16,
            mv: PackedMove::new(mv),
            score: score_to_tt(score, ply),
            depth,
            age_flag: AgeAndFlag::new(self.epoch, flag),
        };
        if entry.quality() >= target.quality() {
            let new_mv = if mv.is_some() { entry.mv } else { target.mv };
            self.entries.set(target_index, TTEntry { mv: new_mv, ..entry });
        }
    }

    /// The score to store for `score` found at `ply` (see `score_to_tt`).
    pub fn score_to_tt(&self, score: i16, ply: usize) -> (r: i16)
        requires
            score_in_band(score as int),
            ply <= MAX_PLY,
        ensures
            r == to_tt_spec(score as int, ply as int),
    {
        score_to_tt(score, ply)
    }

    /// The score that a stored `score` stands for at `ply` (see `score_from_tt`).
    pub fn score_from_tt(&self, score: i16, ply: usize) -> (r: i16)
        requires
            ply <= MAX_PLY,
        ensures
            r == from_tt_spec(score as int, ply as int),
    {
        score_from_tt(score, ply)
    }

    /// Empties every entry; the epoch stays.
    pub fn reset(&mut self)
        requires
            old(self).wf(),
        ensures
            final(self).wf(),
            final(self).epoch == old(self).epoch,
            final(self).entries.len() == old(self).entries.len(),
            forall|i: int| 0 <= i < final(self).entries.len() ==> final(self).entries@[i] == TTEntry::empty(),
    {
        let n = self.entries.len();
        let mut i: usize = 0;
        while i < n
            invariant
                i <= n,
                self.entries.len() == n,
                self.epoch == old(self).epoch,
                self.wf(),
                forall|j: int| 0 <= j < i ==> self.entries@[j] == TTEntry::empty(),
            decreases n - i,
        {
            self.entries.set(i, TTEntry { mv: PackedMove(NOMOVE), key: 0, score: 0, depth: 0, age_flag: AgeAndFlag(0) });
            i = i + 1;
        }
    }
}

/// Storing and then probing the same key gives back what was stored, with
/// the score rebased back to its ply, whenever the store was worth at least
/// as much as the resident entry. Without a new move the old one stays.
pub proof fn lemma_store_then_probe(tt: TT, key: u64, mv: Option<Move>, score: i16, depth: u8, flag: TTFlag, ply: usize)
    requires
        tt.wf(),
        mv matches Some(m) ==> m.wf(),
        score_in_band(score as int),
        ply <= MAX_PLY,
        tt.candidate(key, mv, score, depth, flag, ply).quality_spec() >= tt.entries@[tt.slot(key)].quality_spec(),
    ensures
        ({
            let e = tt.store_spec(key, mv, score, depth, flag, ply)[tt.slot(key)];
            &&& e.key == key as u16
            &&& from_tt_spec(e.score as int, ply as int) == score
            &&& e.depth == depth
            &&& e.age_flag.flag_spec() == flag
            &&& e.age_flag.age_spec() == tt.epoch
            &&& (mv matches Some(m) ==> e.mv.unpack_spec() == m)
            &&& (mv is None ==> e.mv == tt.entries@[tt.slot(key)].mv)
        }),
{
    lemma_slot_in_range(tt, key);
    let a = tt.epoch;
    let f = flag_bits(flag);
    lemma_age_flag_bits(a, f);
    lemma_tt_score_round_trip(score as int, ply as int);
    if let Some(m) = mv {
        lemma_pack_unpack(m);
    }
}

/// Every key has a slot inside a non-empty table.
pub proof fn lemma_slot_in_range(tt: TT, key: u64)
    requires
        tt.wf(),
    ensures
        0 <= tt.slot(key) < tt.entries.len(),
{
    assert(0 <= tt.slot(key) < tt.entries.len()) by {
        let k = key as int;
        let l = tt.entries.len() as int;
        let h = HIGH_HALF as int;
        assert(k * l < h * l) by (nonlinear_arith)
            requires
                k < h,
                l > 0,
                k >= 0,
        ;
        assert(0 <= (k * l) / h < l) by (nonlinear_arith)
            requires
                k * l < h * l,
                k * l >= 0,
                h > 0,
        ;
    }
}

/// A store that is worth less than the resident entry leaves the table as
/// it was.
pub proof fn lemma_lower_quality_keeps_entry(tt: TT, key: u64, mv: Option<Move>, score: i16, depth: u8, flag: TTFlag, ply: usize)
    requires
        tt.wf(),
        tt.candidate(key, mv, score, depth, flag, ply).quality_spec() < tt.entries@[tt.slot(key)].quality_spec(),
    ensures
        tt.store_spec(key, mv, score, depth, flag, ply) == tt.entries@,
{
    lemma_slot_in_range(tt, key);
    assert(tt.store_spec(key, mv, score, depth, flag, ply) =~= tt.entries@);
}

} // verus!
