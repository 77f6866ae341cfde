use vstd::prelude::*;

use std::sync::Arc;

use crate::board::{color_at, color_on, piece_at, piece_on};
use crate::consts::{div_toward_zero, trunc_div, MAX_PLY};
use crate::moves::{flip_rank, flip_rank_spec, Color, Piece};

verus! {

/// Number of input features: 64 squares, 6 piece kinds, 2 colours.
pub const FEATURES: usize = 768;

/// Width of the hidden layer, per perspective.
pub const HIDDEN: usize = 256;

/// Lower clamp of the hidden activations.
pub const CR_MIN: i16 = 0;

/// Upper clamp of the hidden activations.
pub const CR_MAX: i16 = 255;

/// Quantisation divisor of the output.
pub const QAB: i64 = 16320;

/// Scale of the output, in centipawns.
pub const SCALE: i64 = 400;

/// The network's quantised weights; shared read-only by every worker.
pub struct Parameters {
    pub feature_weights: Vec<i16>,
    pub feature_bias: Vec<i16>,
    pub output_weights: Vec<i16>,
    pub output_bias: i16,
}

impl Parameters {
    pub open spec fn wf(&self) -> bool {
        &&& self.feature_weights.len() == FEATURES * HIDDEN
        &&& self.feature_bias.len() == HIDDEN
        &&& self.output_weights.len() == 2 * HIDDEN
    }
}

/// The little-endian 16-bit word at word index `i` of `b`.
pub open spec fn le_word(b: Seq<u8>, i: int) -> i16 {
    (b[2 * i] as int + 256 * b[2 * i + 1] as int) as u16 as i16
}

/// The little-endian 16-bit words of `b`.
pub open spec fn le_words(b: Seq<u8>) -> Seq<i16> {
    Seq::new(b.len() / 2, |i: int| le_word(b, i))
}

/// Reads `n` little-endian 16-bit words, or `None` when `b` does not hold
/// exactly `n` of them.
pub fn read_words(b: &[u8], n: usize) -> (r: Option<Vec<i16>>)
    ensures
        b@.len() == 2 * n <==> r is Some,
        r matches Some(v) ==> v@ == le_words(b@),
{
    if b.len() / 2 != n || b.len() % 2 != 0 {
        return None;
    }
    let total = b.len();
    assert(total == 2 * n);
    let mut out: Vec<i16> = Vec::new();
    let mut i: usize = 0;
    while i < n
        invariant
            b@.len() == 2 * n,
            total == 2 * n,
            i <= n,
            out@.len() == i,
            forall|j: int| 0 <= j < i ==> out@[j] == le_word(b@, j),
        decreases n - i,
    {
        let lo = b[2 * i] as u16;
        let hi = b[2 * i + 1] as u16;
        let w = #[verifier::truncate] ((lo + 256 * hi) as i16);
        out.push(w);
        i = i + 1;
    }
    assert(out@ =~= le_words(b@));
    Some(out)
}

impl Parameters {
    /// Builds the network from its four weight files, each an array of
    /// little-endian 16-bit words; `None` when any file has the wrong size.
    pub fn from_bytes(feature_weights: &[u8], feature_bias: &[u8], output_weights: &[u8], output_bias: &[u8]) -> (r: Option<Parameters>)
        ensures
            r is Some <==> (feature_weights@.len() == 2 * FEATURES * HIDDEN
                && feature_bias@.len() == 2 * HIDDEN
                && output_weights@.len() == 4 * HIDDEN
                && output_bias@.len() == 2),
            r matches Some(p) ==> {
                &&& p.wf()
                &&& p.feature_weights@ == le_words(feature_weights@)
                &&& p.feature_bias@ == le_words(feature_bias@)
                &&& p.output_weights@ == le_words(output_weights@)
                &&& p.output_bias == le_word(output_bias@, 0)
            },
    {
        let fw = read_words(feature_weights, FEATURES * HIDDEN);
        let fb = read_words(feature_bias, HIDDEN);
        let ow = read_words(output_weights, 2 * HIDDEN);
        let ob = read_words(output_bias, 1);
        match (fw, fb, ow, ob) {
            (Some(fw), Some(fb), Some(ow), Some(ob)) => {
                let bias = ob[0];
                Some(Parameters { feature_weights: fw, feature_bias: fb, output_weights: ow, output_bias: bias })
            },
            _ => None,
        }
    }
}

/// The hidden layer seen from both sides.
#[derive(Debug)]
pub struct Accumulator {
    pub white: Vec<i16>,
    pub black: Vec<i16>,
}

impl Accumulator {
    pub open spec fn wf(&self) -> bool {
        self.white.len() == HIDDEN && self.black.len() == HIDDEN
    }

    /// A copy with the same activations.
    pub fn duplicate(&self) -> (r: Accumulator)
        ensures
            r.white@ == self.white@,
            r.black@ == self.black@,
    {
        Accumulator { white: copy_activations(&self.white), black: copy_activations(&self.black) }
    }
}

/// A copy of one perspective.
fn copy_activations(v: &Vec<i16>) -> (r: Vec<i16>)
    ensures
        r@ == v@,
{
    let mut out: Vec<i16> = Vec::new();
    let mut i: usize = 0;
    while i < v.len()
        invariant
            i <= v.len(),
            out@ == v@.subrange(0, i as int),
        decreases v.len() - i,
    {
        out.push(v[i]);
        i = i + 1;
    }
    assert(out@ =~= v@);
    out
}

/// One perspective after adding (or removing) the weight column at `off`.
pub open spec fn column_update(acc: Seq<i16>, w: Seq<i16>, off: int, activate: bool) -> Seq<i16> {
    Seq::new(acc.len(), |i: int| if activate { acc[i].wrapping_add(w[off + i]) } else { acc[i].wrapping_sub(w[off + i]) })
}

/// Weight-column offsets of a feature for the white and the black perspective.
pub open spec fn column_index_spec(sq: int, piece: Piece, color: Color) -> (int, int) {
    let p = piece.index_spec() as int;
    let c = color.index_spec() as int;
    let white = c * 384 + p * 64 + sq;
    let black = (1 - c) * 384 + p * 64 + flip_rank_spec(sq);
    (white * HIDDEN, black * HIDDEN)
}

/// Where a feature's weight column starts in the weight matrix, for the
/// white and the black perspective.
pub fn weight_column_index(sq: u8, piece: Piece, color: Color) -> (r: (usize, usize))
    requires
        sq < 64,
    ensures
        r.0 == column_index_spec(sq as int, piece, color).0,
        r.1 == column_index_spec(sq as int, piece, color).1,
        r.0 + HIDDEN <= FEATURES * HIDDEN,
        r.1 + HIDDEN <= FEATURES * HIDDEN,
{
    let p = piece.index();
    let c = color.index();
    let white = c * 384 + p * 64 + sq as usize;
    let black = (1 - c) * 384 + p * 64 + flip_rank(sq) as usize;
    (white * HIDDEN, black * HIDDEN)
}

/// Adds or removes the weight column at `off` to one perspective.
fn update_perspective(acc: &mut Vec<i16>, w: &Vec<i16>, off: usize, activate: bool)
    requires
        off + old(acc).len() <= w.len(),
    ensures
        final(acc)@ == column_update(old(acc)@, w@, off as int, activate),
{
    let n = acc.len();
    let mut i: usize = 0;
    while i < n
        invariant
            n == acc.len(),
            n == old(acc).len(),
            off + n <= w.len(),
            i <= n,
            forall|j: int| 0 <= j < i ==> acc@[j] == (if activate { old(acc)@[j].wrapping_add(w@[off + j]) } else { old(acc)@[j].wrapping_sub(w@[off + j]) }),
            forall|j: int| i <= j < n ==> acc@[j] == old(acc)@[j],
        decreases n - i,
    {
        let a = acc[i];
        let v = if activate { a.wrapping_add(w[off + i]) } else { a.wrapping_sub(w[off + i]) };
        acc.set(i, v);
        i = i + 1;
    }
    assert(acc@ =~= column_update(old(acc)@, w@, off as int, activate));
}

/// A placed piece: square, kind and side.
#[derive(Clone, Copy, PartialEq, Eq, Structural, Debug)]
pub struct Placement {
    pub sq: u8,
    pub piece: Piece,
    pub color: Color,
}

/// The pieces on the squares below `n` of board `b`, by increasing square.
pub open spec fn placements_spec(b: cozy_chess::Board, n: int) -> Seq<Placement>
    decreases n,
{
    if n <= 0 {
        Seq::empty()
    } else {
        let prev = placements_spec(b, n - 1);
        let sq = (n - 1) as u8;
        match (piece_at(b, sq), color_at(b, sq)) {
            (Some(piece), Some(color)) => prev.push(Placement { sq, piece, color }),
            _ => prev,
        }
    }
}

/// The pieces on `board`, by increasing square.
pub fn placements(board: &cozy_chess::Board) -> (r: Vec<Placement>)
    ensures
        r@ == placements_spec(*board, 64),
        forall|i: int| 0 <= i < r.len() ==> (#[trigger] r@[i]).sq < 64,
        forall|i: int, j: int| 0 <= i < j < r.len() ==> r@[i].sq < r@[j].sq,
{
    let mut out: Vec<Placement> = Vec::new();
    let mut sq: u8 = 0;
    while sq < 64
        invariant
            sq <= 64,
            out@ == placements_spec(*board, sq as int),
            forall|i: int| 0 <= i < out.len() ==> (#[trigger] out@[i]).sq < sq,
            forall|i: int, j: int| 0 <= i < j < out.len() ==> out@[i].sq < out@[j].sq,
        decreases 64 - sq,
    {
        match (piece_on(board, sq), color_on(board, sq)) {
            (Some(piece), Some(color)) => {
                out.push(Placement { sq, piece, color });
            },
            _ => {},
        }
        sq = sq + 1;
    }
    out
}

/// The accumulator update of one feature.
pub open spec fn feature_update(white: Seq<i16>, black: Seq<i16>, w: Seq<i16>, sq: int, piece: Piece, color: Color, activate: bool) -> (Seq<i16>, Seq<i16>) {
    let idx = column_index_spec(sq, piece, color);
    (column_update(white, w, idx.0, activate), column_update(black, w, idx.1, activate))
}

/// The perspective that a list of placed pieces activates on top of `base`.
pub open spec fn build_white(base: Seq<i16>, w: Seq<i16>, ps: Seq<Placement>) -> Seq<i16>
    decreases ps.len(),
{
    if ps.len() == 0 {
        base
    } else {
        let last = ps.last();
        column_update(build_white(base, w, ps.drop_last()), w, column_index_spec(last.sq as int, last.piece, last.color).0, true)
    }
}

pub open spec fn build_black(base: Seq<i16>, w: Seq<i16>, ps: Seq<Placement>) -> Seq<i16>
    decreases ps.len(),
{
    if ps.len() == 0 {
        base
    } else {
        let last = ps.last();
        column_update(build_black(base, w, ps.drop_last()), w, column_index_spec(last.sq as int, last.piece, last.color).1, true)
    }
}

pub proof fn lemma_build_len(base: Seq<i16>, w: Seq<i16>, ps: Seq<Placement>)
    ensures
        build_white(base, w, ps).len() == base.len(),
        build_black(base, w, ps).len() == base.len(),
    decreases ps.len(),
{
    if ps.len() > 0 {
        lemma_build_len(base, w, ps.drop_last());
    }
}

/// The clipped activation of a hidden unit.
pub open spec fn clipped(v: i16) -> int {
    if v < CR_MIN {
        CR_MIN as int
    } else if v > CR_MAX {
        CR_MAX as int
    } else {
        v as int
    }
}

/// Sum of the first `n` clipped activations times the weights from `off`.
pub open spec fn dot(acc: Seq<i16>, w: Seq<i16>, off: int, n: int) -> int
    decreases n,
{
    if n <= 0 {
        0
    } else {
        dot(acc, w, off, n - 1) + clipped(acc[n - 1]) * w[off + n - 1]
    }
}

/// The network's output for two perspectives, the side to move's first.
pub open spec fn output_spec(us: Seq<i16>, them: Seq<i16>, ow: Seq<i16>, bias: i16) -> int {
    trunc_div((bias + dot(us, ow, 0, HIDDEN as int) + dot(them, ow, HIDDEN as int, HIDDEN as int)) * SCALE, QAB as int)
}

/// Largest size of one term of the output's dot products.
pub const TERM_BOUND: i64 = 8355840;

/// Adds the clipped dot product of `acc` and `w[off..off + HIDDEN]` to `sum`.
fn dot_into(acc: &Vec<i16>, w: &Vec<i16>, off: usize, sum: i64) -> (r: i64)
    requires
        acc.len() == HIDDEN,
        off + HIDDEN <= w.len(),
        -(4 * HIDDEN as int) * TERM_BOUND <= sum <= (4 * HIDDEN as int) * TERM_BOUND,
    ensures
        r == sum + dot(acc@, w@, off as int, HIDDEN as int),
        -(HIDDEN as int) * TERM_BOUND <= r - sum <= (HIDDEN as int) * TERM_BOUND,
{
    let mut out = sum;
    let mut i: usize = 0;
    while i < HIDDEN
        invariant
            acc.len() == HIDDEN,
            off + HIDDEN <= w.len(),
            i <= HIDDEN,
            -(4 * HIDDEN as int) * TERM_BOUND <= sum <= (4 * HIDDEN as int) * TERM_BOUND,
            out == sum + dot(acc@, w@, off as int, i as int),
            -(i as int) * TERM_BOUND <= out - sum <= (i as int) * TERM_BOUND,
        decreases HIDDEN - i,
    {
        let v = acc[i];
        let c: i64 = if v < CR_MIN {
            CR_MIN as i64
        } else if v > CR_MAX {
            CR_MAX as i64
        } else {
            v as i64
        };
        let wt = w[off + i] as i64;
        assert(-TERM_BOUND <= c * wt <= TERM_BOUND) by (nonlinear_arith)
            requires
                0 <= c <= 255,
                -32768 <= wt <= 32767,
        ;
        out = out + c * wt;
        i = i + 1;
    }
    out
}

/// The stack of accumulators, one per ply of the current search path, and
/// the network they feed.
pub struct NNUEState {
    pub accumulators: Vec<Accumulator>,
    pub current_acc: usize,
    pub params: Arc<Parameters>,
}

impl NNUEState {
    pub open spec fn wf(&self) -> bool {
        &&& self.params.wf()
        &&& self.accumulators.len() == MAX_PLY + 1
        &&& self.current_acc <= MAX_PLY
        &&& forall|i: int| 0 <= i < self.accumulators.len() ==> (#[trigger] self.accumulators@[i]).wf()
    }

    /// The accumulator in use.
    pub open spec fn top(&self) -> Accumulator {
        self.accumulators@[self.current_acc as int]
    }

    /// The static evaluation from `stm`'s point of view.
    pub open spec fn eval_spec(&self, stm: Color) -> int {
        let acc = self.top();
        match stm {
            Color::White => output_spec(acc.white@, acc.black@, self.params.output_weights@, self.params.output_bias),
            Color::Black => output_spec(acc.black@, acc.white@, self.params.output_weights@, self.params.output_bias),
        }
    }

    /// The accumulator of a position with pieces `ps`, built from the bias.
    pub open spec fn fresh_accumulator(params: Parameters, ps: Seq<Placement>) -> (Seq<i16>, Seq<i16>) {
        (build_white(params.feature_bias@, params.feature_weights@, ps), build_black(params.feature_bias@, params.feature_weights@, ps))
    }

    /// Recomputes the accumulator in use from the pieces `ps`.
    pub fn refresh_from(&mut self, ps: &Vec<Placement>)
        requires
            old(self).wf(),
            forall|i: int| 0 <= i < ps.len() ==> (#[trigger] ps@[i]).sq < 64,
        ensures
            final(self).wf(),
            final(self).current_acc == old(self).current_acc,
            final(self).params == old(self).params,
            final(self).top().white@ == Self::fresh_accumulator(*old(self).params, ps@).0,
            final(self).top().black@ == Self::fresh_accumulator(*old(self).params, ps@).1,
            forall|i: int| 0 <= i < final(self).accumulators.len() && i != old(self).current_acc ==> final(self).accumulators@[i] == old(self).accumulators@[i],
    {
        let cur = self.current_acc;
        let mut white = copy_activations(&self.params.feature_bias);
        let mut black = copy_activations(&self.params.feature_bias);
        let mut k: usize = 0;
        while k < ps.len()
            invariant
                self.wf(),
                self.current_acc == cur,
                self == old(self),
                k <= ps.len(),
                forall|i: int| 0 <= i < ps.len() ==> (#[trigger] ps@[i]).sq < 64,
                white@ == build_white(self.params.feature_bias@, self.params.feature_weights@, ps@.subrange(0, k as int)),
                black@ == build_black(self.params.feature_bias@, self.params.feature_weights@, ps@.subrange(0, k as int)),
            decreases ps.len() - k,
        {
            proof {
                lemma_build_len(self.params.feature_bias@, self.params.feature_weights@, ps@.subrange(0, k as int));
            }
            let p = ps[k];
            let idx = weight_column_index(p.sq, p.piece, p.color);
            update_perspective(&mut white, &self.params.feature_weights, idx.0, true);
            update_perspective(&mut black, &self.params.feature_weights, idx.1, true);
            assert(ps@.subrange(0, k as int + 1).drop_last() =~= ps@.subrange(0, k as int));
            k = k + 1;
        }
        assert(ps@.subrange(0, ps.len() as int) =~= ps@);
        proof {
            lemma_build_len(self.params.feature_bias@, self.params.feature_weights@, ps@);
        }
        self.accumulators.set(cur, Accumulator { white, black });
    }

    /// A stack whose every slot holds the bias, the first one in use.
    pub fn new(params: Arc<Parameters>) -> (r: NNUEState)
        requires
            params.wf(),
        ensures
            r.wf(),
            r.params == params,
            r.current_acc == 0,
            r.top().white@ == params.feature_bias@,
            r.top().black@ == params.feature_bias@,
    {
        let mut accumulators: Vec<Accumulator> = Vec::new();
        let mut i: usize = 0;
        while i <= MAX_PLY
            invariant
                params.wf(),
                i <= MAX_PLY + 1,
                accumulators.len() == i,
                forall|j: int| 0 <= j < i ==> (#[trigger] accumulators@[j]).white@ == params.feature_bias@ && accumulators@[j].black@ == params.feature_bias@,
            decreases MAX_PLY + 1 - i,
        {
            let white = copy_activations(&params.feature_bias);
            let black = copy_activations(&params.feature_bias);
            accumulators.push(Accumulator { white, black });
            i = i + 1;
        }
        NNUEState { accumulators, current_acc: 0, params }
    }

    /// A stack for `board`: the first slot holds the accumulator built from
    /// the bias and every piece on the board.
    pub fn from_board(board: &cozy_chess::Board, params: Arc<Parameters>) -> (r: NNUEState)
        requires
            params.wf(),
        ensures
            r.wf(),
            r.params == params,
            r.current_acc == 0,
            r.top().white@ == Self::fresh_accumulator(*params, placements_spec(*board, 64)).0,
            r.top().black@ == Self::fresh_accumulator(*params, placements_spec(*board, 64)).1,
    {
        let mut state = NNUEState::new(params);
        state.refresh(board);
        state
    }

    /// Recomputes the accumulator in use from the pieces on `board`.
    pub fn refresh(&mut self, board: &cozy_chess::Board)
        requires
            old(self).wf(),
        ensures
            final(self).wf(),
            final(self).current_acc == old(self).current_acc,
            final(self).params == old(self).params,
            final(self).top().white@ == Self::fresh_accumulator(*old(self).params, placements_spec(*board, 64)).0,
            final(self).top().black@ == Self::fresh_accumulator(*old(self).params, placements_spec(*board, 64)).1,
            forall|i: int| 0 <= i < final(self).accumulators.len() && i != old(self).current_acc ==> final(self).accumulators@[i] == old(self).accumulators@[i],
    {
        let ps = placements(board);
        self.refresh_from(&ps);
    }

    /// Copies the accumulator in use one slot up and moves there; called
    /// as a move is made.
    pub fn push(&mut self)
        requires
            old(self).wf(),
            old(self).current_acc < MAX_PLY,
        ensures
            final(self).wf(),
            final(self).params == old(self).params,
            final(self).current_acc == old(self).current_acc + 1,
            final(self).top().white@ == old(self).top().white@,
            final(self).top().black@ == old(self).top().black@,
            forall|i: int| 0 <= i < final(self).accumulators.len() && i != old(self).current_acc + 1 ==> final(self).accumulators@[i] == old(self).accumulators@[i],
    {
        let cur = self.current_acc;
        let copy = self.accumulators[cur].duplicate();
        self.accumulators.set(cur + 1, copy);
        self.current_acc = cur + 1;
    }

    /// Drops the accumulator in use; called as a move is unmade.
    pub fn pop(&mut self)
        requires
            old(self).wf(),
            old(self).current_acc > 0,
        ensures
            final(self).wf(),
            final(self).params == old(self).params,
            final(self).accumulators == old(self).accumulators,
            final(self).current_acc == old(self).current_acc - 1,
    {
        self.current_acc = self.current_acc - 1;
    }

    /// Adds (`activate`) or removes a piece on `sq` in both perspectives of
    /// the accumulator in use.
    pub fn update_feature(&mut self, sq: u8, piece: Piece, color: Color, activate: bool)
        requires
            old(self).wf(),
            sq < 64,
        ensures
            final(self).wf(),
            final(self).params == old(self).params,
            final(self).current_acc == old(self).current_acc,
            (final(self).top().white@, final(self).top().black@) == feature_update(old(self).top().white@, old(self).top().black@, old(self).params.feature_weights@, sq as int, piece, color, activate),
            forall|i: int| 0 <= i < final(self).accumulators.len() && i != old(self).current_acc ==> final(self).accumulators@[i] == old(self).accumulators@[i],
    {
        let idx = weight_column_index(sq, piece, color);
        let cur = self.current_acc;
        let mut acc = self.accumulators[cur].duplicate();
        update_perspective(&mut acc.white, &self.params.feature_weights, idx.0, activate);
        update_perspective(&mut acc.black, &self.params.feature_weights, idx.1, activate);
        self.accumulators.set(cur, acc);
    }

    /// The static evaluation of the accumulator in use, in centipawns, from
    /// `stm`'s point of view.
    pub fn evaluate(&self, stm: Color) -> (r: i32)
        requires
            self.wf(),
        ensures
            r == self.eval_spec(stm),
    {
        let acc = &self.accumulators[self.current_acc];
        let (us, them) = match stm {
            Color::White => (&acc.white, &acc.black),
            Color::Black => (&acc.black, &acc.white),
        };
        let ow = &self.params.output_weights;
        let bias = self.params.output_bias as i64;
        let s1 = dot_into(us, ow, 0, bias);
        let s2 = dot_into(them, ow, HIDDEN, s1);
        let q = div_toward_zero(s2 * SCALE, QAB);
        assert(-200000000 <= q <= 200000000) by (nonlinear_arith)
            requires
                q == trunc_div(s2 * SCALE, QAB as int),
                -4278550000 <= s2 <= 4278550000,
        ;
        q as i32
    }
}

} // verus!

verus! {

/// Removing a feature that was just added gives back the activations
/// from before.
pub proof fn lemma_activate_deactivate(acc: Seq<i16>, w: Seq<i16>, off: int)
    ensures
        column_update(column_update(acc, w, off, true), w, off, false) == acc,
{
    let once = column_update(acc, w, off, true);
    let twice = column_update(once, w, off, false);
    assert forall|i: int| 0 <= i < acc.len() implies twice[i] == acc[i] by {
        let x = acc[i];
        let y = w[off + i];
        assert(x.wrapping_add(y).wrapping_sub(y) == x);
    }
    assert(twice =~= acc);
}

/// Unmaking a move restores the evaluation from before the move: a push
/// leaves the slots below untouched, feature updates touch only the slot
/// in use, and a pop returns to the slot below, so every state reached this
/// way evaluates as the state before the push did.
pub proof fn lemma_unmake_restores_eval(before: NNUEState, after: NNUEState, stm: Color)
    requires
        before.wf(),
        after.wf(),
        after.params == before.params,
        after.current_acc == before.current_acc,
        after.accumulators@[before.current_acc as int] == before.accumulators@[before.current_acc as int],
    ensures
        after.eval_spec(stm) == before.eval_spec(stm),
{
}

} // verus!
