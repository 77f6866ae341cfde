use vstd::prelude::*;
use vstd::string::StringExecFns;

use crate::consts::{trunc_div, INFINITY, MATE, MATE_IN, TIME_OVERHEAD};

verus! {

/// The budget of one search.
#[derive(Clone, Copy, PartialEq, Eq, Structural, Debug)]
pub enum SearchType {
    /// Optimum and hard limit, in milliseconds.
    Time(u64, u64),
    Nodes(u64),
    Depth(usize),
    Infinite,
}

/// Optimum and hard time for a move from the clock `time`, the increment
/// and the moves left to the next time control.
pub open spec fn time_for_move_spec(time: int, inc: int, moves_to_go: Option<u8>) -> (int, int) {
    let t = time - TIME_OVERHEAD;
    match moves_to_go {
        Some(n) => {
            let opt = t / (if n == 0 { 1 } else { n as int });
            (opt, opt)
        },
        None => {
            let temp = t / 20 + inc / 2;
            (6 * temp / 10, if t < 2 * temp { t } else { 2 * temp })
        },
    }
}

pub fn time_for_move(time: u64, inc: u64, moves_to_go: Option<u8>) -> (r: (u64, u64))
    requires
        time >= TIME_OVERHEAD,
        time / 20 + inc / 2 <= u64::MAX / 6,
    ensures
        (r.0 as int, r.1 as int) == time_for_move_spec(time as int, inc as int, moves_to_go),
{
    let t = time - TIME_OVERHEAD;
    match moves_to_go {
        Some(n) => {
            let d: u64 = if n == 0 { 1 } else { n as u64 };
            let opt = t / d;
            (opt, opt)
        },
        None => {
            let temp = t / 20 + inc / 2;
            let twice = 2 * temp;
            let max = if t < twice { t } else { twice };
            (6 * temp / 10, max)
        },
    }
}

/// A score as the protocol reports it: mate in moves (negative when the
/// engine is being mated) or centipawns.
#[derive(Clone, Copy, PartialEq, Eq, Structural, Debug)]
pub enum ScoreReport {
    Mate(i32),
    Centipawns(i32),
}

pub open spec fn score_report_spec(score: int) -> ScoreReport {
    if score >= MATE_IN {
        ScoreReport::Mate(mate_moves(MATE - score) as i32)
    } else if score <= -MATE_IN {
        ScoreReport::Mate((-mate_moves(MATE + score)) as i32)
    } else {
        ScoreReport::Centipawns(score as i32)
    }
}

/// Moves to mate for a distance of `d` plies: half of it, rounded toward
/// zero, plus one when it is odd.
pub open spec fn mate_moves(d: int) -> int {
    trunc_div(d, 2) + if d % 2 == 0 { 0int } else { 1int }
}

fn moves_to_mate(d: i32) -> (r: i32)
    requires
        -10 <= d <= 1000,
    ensures
        r == mate_moves(d as int),
{
    let odd: i32 = if d % 2 == 0 { 0 } else { 1 };
    let half: i32 = if d >= 0 { d / 2 } else { -((-d) / 2) };
    half + odd
}

/// Turns a score into moves to mate (rounded up) or centipawns.
pub fn score_report(score: i32) -> (r: ScoreReport)
    requires
        -INFINITY <= score <= INFINITY,
    ensures
        r == score_report_spec(score as int),
{
    if score >= MATE_IN {
        ScoreReport::Mate(moves_to_mate(MATE - score))
    } else if score <= -MATE_IN {
        ScoreReport::Mate(-moves_to_mate(MATE + score))
    } else {
        ScoreReport::Centipawns(score)
    }
}

/// The character of decimal digit `d`.
pub open spec fn digit_char(d: int) -> char {
    if d == 0 {
        '0'
    } else if d == 1 {
        '1'
    } else if d == 2 {
        '2'
    } else if d == 3 {
        '3'
    } else if d == 4 {
        '4'
    } else if d == 5 {
        '5'
    } else if d == 6 {
        '6'
    } else if d == 7 {
        '7'
    } else if d == 8 {
        '8'
    } else {
        '9'
    }
}

/// The decimal digits of `n`, most significant first.
pub open spec fn decimal_nat(n: nat) -> Seq<char>
    decreases n,
{
    if n < 10 {
        seq![digit_char(n as int)]
    } else {
        decimal_nat(n / 10) + seq![digit_char((n % 10) as int)]
    }
}

/// The decimal text of an integer, with a minus sign when negative.
pub open spec fn decimal_text(n: int) -> Seq<char> {
    if n < 0 {
        seq!['-'] + decimal_nat((-n) as nat)
    } else {
        decimal_nat(n as nat)
    }
}

fn digit_str(d: u32) -> (r: &'static str)
    requires
        d < 10,
    ensures
        r@ == seq![digit_char(d as int)],
{
    proof {
        reveal_strlit("0");
        reveal_strlit("1");
        reveal_strlit("2");
        reveal_strlit("3");
        reveal_strlit("4");
        reveal_strlit("5");
        reveal_strlit("6");
        reveal_strlit("7");
        reveal_strlit("8");
        reveal_strlit("9");
    }
    if d == 0 {
        "0"
    } else if d == 1 {
        "1"
    } else if d == 2 {
        "2"
    } else if d == 3 {
        "3"
    } else if d == 4 {
        "4"
    } else if d == 5 {
        "5"
    } else if d == 6 {
        "6"
    } else if d == 7 {
        "7"
    } else if d == 8 {
        "8"
    } else {
        "9"
    }
}

/// Appends the decimal digits of `n`.
fn append_decimal(s: &mut String, n: u32)
    ensures
        final(s)@ == old(s)@ + decimal_nat(n as nat),
    decreases n,
{
    if n >= 10 {
        append_decimal(s, n / 10);
        s.append(digit_str(n % 10));
        assert(final(s)@ =~= old(s)@ + decimal_nat(n as nat));
    } else {
        s.append(digit_str(n));
    }
}

/// Appends the decimal text of `n`.
fn append_signed(s: &mut String, n: i32)
    ensures
        final(s)@ == old(s)@ + decimal_text(n as int),
{
    if n < 0 {
        proof {
            reveal_strlit("-");
        }
        s.append("-");
        let m = (-(n as i64)) as u32;
        append_decimal(s, m);
        assert(final(s)@ =~= old(s)@ + decimal_text(n as int));
    } else {
        append_decimal(s, n as u32);
    }
}

/// The protocol's text for a score: "mate N" or "cp N".
pub fn format_score(score: i32) -> (s: String)
    requires
        -INFINITY <= score <= INFINITY,
    ensures
        score_report_spec(score as int) matches ScoreReport::Mate(n) ==> s@ == seq!['m', 'a', 't', 'e', ' '] + decimal_text(n as int),
        score_report_spec(score as int) matches ScoreReport::Centipawns(n) ==> s@ == seq!['c', 'p', ' '] + decimal_text(n as int),
{
    let mut s = String::new();
    match score_report(score) {
        ScoreReport::Mate(n) => {
            proof {
                reveal_strlit("mate ");
            }
            s.append("mate ");
            append_signed(&mut s, n);
        },
        ScoreReport::Centipawns(n) => {
            proof {
                reveal_strlit("cp ");
            }
            s.append("cp ");
            append_signed(&mut s, n);
        },
    }
    s
}

} // verus!
