use vstd::prelude::*;

verus! {

/// Number of table cells: 64 depths by 64 move counts.
pub const LMR_CELLS: usize = 4096;

/// Late-move reductions by depth and move count, both capped at 63.
pub struct LMRTable {
    pub table: Vec<i16>,
}

/// Argument capped at 63.
pub open spec fn cap63(x: int) -> int {
    if x < 63 {
        x
    } else {
        63
    }
}

impl LMRTable {
    pub open spec fn wf(&self) -> bool {
        self.table.len() == LMR_CELLS
    }

    /// A table from its cells, depth-major: cell `d * 64 + m` holds the
    /// reduction at depth `d` for the `m`-th move.
    pub fn new(table: Vec<i16>) -> (r: LMRTable)
        requires
            table.len() == LMR_CELLS,
        ensures
            r.wf(),
            r.table@ == table@,
    {
        LMRTable { table }
    }

    /// The reduction for the `move_count`-th move searched at `depth`.
    pub fn reduction(&self, depth: i32, move_count: i32) -> (r: i32)
        requires
            self.wf(),
            depth >= 0,
            move_count >= 0,
        ensures
            r == self.table@[cap63(depth as int) * 64 + cap63(move_count as int)],
    {
        let d: usize = if depth < 63 { depth as usize } else { 63 };
        let c: usize = if move_count < 63 { move_count as usize } else { 63 };
        self.table[d * 64 + c] as i32
    }
}

} // verus!
