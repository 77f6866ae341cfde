use vstd::prelude::*;

use crate::consts::{div_toward_zero, trunc_div};
use crate::moves::{Color, Move};

verus! {

/// Largest size of a history score.
pub const MAX_HISTORY: i32 = 32767;

/// Largest bonus one cutoff gives.
pub const MAX_BONUS: i32 = 1200;

/// Number of (side, from, to) cells.
pub const HISTORY_CELLS: usize = 8192;

/// Cell of side `c` moving from `from` to `to`.
pub open spec fn cell(c: Color, from: int, to: int) -> int {
    c.index_spec() * 4096 + from * 64 + to
}

/// Bonus for a quiet move at `depth`: 16 depth², capped.
pub open spec fn bonus_spec(depth: int) -> int {
    if 16 * depth * depth < MAX_BONUS {
        16 * depth * depth
    } else {
        MAX_BONUS as int
    }
}

/// A score after a bonus: the bonus, less the share of it the score
/// already holds.
pub open spec fn updated_score(score: int, bonus: int) -> int {
    let mag = if bonus < 0 { -bonus } else { bonus };
    score + bonus - trunc_div(score * mag, MAX_HISTORY as int)
}

/// The signed success score of each (side, from, to) quiet move.
pub struct History {
    pub table: Vec<i32>,
}

impl History {
    pub open spec fn wf(&self) -> bool {
        &&& self.table.len() == HISTORY_CELLS
        &&& forall|i: int| 0 <= i < self.table.len() ==> -MAX_HISTORY <= #[trigger] self.table@[i] <= MAX_HISTORY
    }

    pub open spec fn value(&self, c: Color, mv: Move) -> int {
        self.table@[cell(c, mv.from as int, mv.to as int)] as int
    }

    /// Every score zero.
    pub fn new() -> (r: History)
        ensures
            r.wf(),
            forall|i: int| 0 <= i < r.table.len() ==> r.table@[i] == 0,
    {
        let mut table: Vec<i32> = Vec::new();
        let mut i: usize = 0;
        while i < HISTORY_CELLS
            invariant
                i <= HISTORY_CELLS,
                table.len() == i,
                forall|j: int| 0 <= j < i ==> table@[j] == 0,
            decreases HISTORY_CELLS - i,
        {
            table.push(0);
            i = i + 1;
        }
        History { table }
    }

    /// The score of `stm` playing `mv`.
    pub fn get_score(&self, stm: Color, mv: Move) -> (r: i32)
        requires
            self.wf(),
            mv.wf(),
        ensures
            r == self.value(stm, mv),
    {
        self.table[stm.index() * 4096 + mv.from as usize * 64 + mv.to as usize]
    }

    /// Rewards (`positive`) or punishes `stm`'s move `mv` after a cutoff
    /// at `depth`.
    pub fn update_table(&mut self, stm: Color, mv: Move, depth: i32, positive: bool)
        requires
            old(self).wf(),
            mv.wf(),
            0 <= depth <= 255,
        ensures
            final(self).wf(),
            final(self).table@ == old(self).table@.update(cell(stm, mv.from as int, mv.to as int),
                updated_score(old(self).value(stm, mv), if positive { bonus_spec(depth as int) } else { -bonus_spec(depth as int) }) as i32),
    {
        assert(0 <= depth * depth <= 65025) by (nonlinear_arith)
            requires
                0 <= depth <= 255,
        ;
        let sq = 16 * (depth * depth);
        assert(sq == 16 * depth * depth) by (nonlinear_arith)
            requires
                sq == 16 * (depth * depth),
        ;
        let delta = if sq < MAX_BONUS { sq } else { MAX_BONUS };
        let bonus = if positive { delta } else { -delta };
        self.update_score(stm, mv, bonus);
    }

    /// Moves the score of `stm`'s move `mv` toward the sign of `bonus`.
    pub fn update_score(&mut self, stm: Color, mv: Move, bonus: i32)
        requires
            old(self).wf(),
            mv.wf(),
            -MAX_HISTORY <= bonus <= MAX_HISTORY,
        ensures
            final(self).wf(),
            final(self).table@ == old(self).table@.update(cell(stm, mv.from as int, mv.to as int),
                updated_score(old(self).value(stm, mv), bonus as int) as i32),
    {
        let i = stm.index() * 4096 + mv.from as usize * 64 + mv.to as usize;
        let s = self.table[i];
        assert(-MAX_HISTORY <= self.table@[i as int] <= MAX_HISTORY);
        let mag: i32 = if bonus < 0 { -bonus } else { bonus };
        assert(-1073676289 <= s as i64 * mag as i64 <= 1073676289) by (nonlinear_arith)
            requires
                -32767 <= s <= 32767,
                0 <= mag <= 32767,
        ;
        let share = div_toward_zero(s as i64 * mag as i64, MAX_HISTORY as i64);
        proof {
            lemma_update_bounded(s as int, bonus as int);
        }
        let v = s + bonus - share as i32;
        self.table.set(i, v);
        assert forall|j: int| 0 <= j < self.table.len() implies -MAX_HISTORY <= #[trigger] self.table@[j] <= MAX_HISTORY by {
            if j != i as int {
                assert(self.table@[j] == old(self).table@[j]);
            }
        }
    }

    /// Halves every score, rounding toward zero; done between searches.
    pub fn age_table(&mut self)
        requires
            old(self).wf(),
        ensures
            final(self).wf(),
            final(self).table.len() == old(self).table.len(),
            forall|i: int| 0 <= i < final(self).table.len() ==> final(self).table@[i] == trunc_div(old(self).table@[i] as int, 2),
    {
        let n = self.table.len();
        let mut i: usize = 0;
        while i < n
            invariant
                n == self.table.len(),
                n == old(self).table.len(),
                i <= n,
                self.wf(),
                forall|j: int| 0 <= j < i ==> self.table@[j] == trunc_div(old(self).table@[j] as int, 2),
                forall|j: int| i <= j < n ==> self.table@[j] == old(self).table@[j],
            decreases n - i,
        {
            let v = self.table[i];
            self.table.set(i, v / 2);
            i = i + 1;
        }
    }
}

impl Default for History {
    fn default() -> (r: History)
        ensures
            r.wf(),
            forall|i: int| 0 <= i < r.table.len() ==> r.table@[i] == 0,
    {
        History::new()
    }
}

/// A score in the band stays in the band after any bonus in it.
pub proof fn lemma_update_bounded(s: int, b: int)
    requires
        -MAX_HISTORY <= s <= MAX_HISTORY,
        -MAX_HISTORY <= b <= MAX_HISTORY,
    ensures
        -MAX_HISTORY <= updated_score(s, b) <= MAX_HISTORY,
{
    let m = MAX_HISTORY as int;
    let mag = if b < 0 { -b } else { b };
    if s >= 0 {
        assert(s * mag >= 0) by (nonlinear_arith)
            requires
                s >= 0,
                mag >= 0,
        ;
        let q = (s * mag) / m;
        assert(q * m <= s * mag < q * m + m) by (nonlinear_arith)
            requires
                q == (s * mag) / m,
                m > 0,
                s * mag >= 0,
        ;
        assert(0 <= q <= s) by (nonlinear_arith)
            requires
                q * m <= s * mag,
                s * mag < q * m + m,
                0 <= mag <= m,
                s >= 0,
                m > 0,
        ;
        assert((m - s) * (m - mag) >= 0) by (nonlinear_arith)
            requires
                s <= m,
                mag <= m,
        ;
        assert(q >= s + mag - m) by (nonlinear_arith)
            requires
                q * m <= s * mag,
                s * mag < q * m + m,
                (m - s) * (m - mag) >= 0,
                m > 0,
        ;
    } else {
        assert((-s) * mag >= 0 && s * mag == -((-s) * mag)) by (nonlinear_arith)
            requires
                s < 0,
                mag >= 0,
        ;
        if mag == 0 {
            assert(s * mag == 0) by (nonlinear_arith)
                requires
                    mag == 0,
            ;
        } else {
            assert(s * mag < 0) by (nonlinear_arith)
                requires
                    s < 0,
                    mag > 0,
            ;
        }
        let q = ((-s) * mag) / m;
        assert(q * m <= (-s) * mag < q * m + m) by (nonlinear_arith)
            requires
                q == ((-s) * mag) / m,
                m > 0,
                (-s) * mag >= 0,
        ;
        assert(0 <= q <= -s) by (nonlinear_arith)
            requires
                q * m <= (-s) * mag,
                (-s) * mag < q * m + m,
                0 <= mag <= m,
                s < 0,
                m > 0,
        ;
        assert((m + s) * (m - mag) >= 0) by (nonlinear_arith)
            requires
                -s <= m,
                mag <= m,
        ;
        assert(q >= -s + mag - m) by (nonlinear_arith)
            requires
                q * m <= (-s) * mag,
                (-s) * mag < q * m + m,
                (m + s) * (m - mag) >= 0,
                m > 0,
        ;
    }
}

} // verus!
