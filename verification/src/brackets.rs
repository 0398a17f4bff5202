//! Loop brackets: where a scan for a bracket ends.
//!
//! Both scans keep a depth counter that starts at zero. The forward scan
//! looks at its starting position too, the backward scan starts one
//! position before the one it is given.

use vstd::prelude::*;
use crate::error::{Error, ErrorKind};
use crate::instruction::Instruction;
use crate::search::{
    first_in, last_in, lemma_first_in, lemma_first_in_is, lemma_last_in, lemma_last_in_is,
};

verus! {

/// What an instruction adds to the nesting depth.
pub open spec fn weight(instruction: Instruction) -> int {
    match instruction {
        Instruction::LoopOpen => 1,
        Instruction::LoopClose => -1,
        _ => 0,
    }
}

/// The number of `[` less the number of `]` at the positions `from..to`.
pub open spec fn excess(program: Seq<Instruction>, from: int, to: int) -> int
    decreases to - from,
{
    if to <= from {
        0
    } else {
        excess(program, from, to - 1) + weight(program[to - 1])
    }
}

/// `at` holds a `]`, and `from..at` holds as many `[` as `]`.
pub open spec fn closes(program: Seq<Instruction>, from: int, at: int) -> bool {
    &&& 0 <= from <= at < program.len()
    &&& program[at] == Instruction::LoopClose
    &&& excess(program, from, at) == 0
}

/// `at` holds a `[`, and the positions after it up to `to` hold as many
/// `[` as `]`.
pub open spec fn opens(program: Seq<Instruction>, to: int, at: int) -> bool {
    &&& 0 <= at < to <= program.len()
    &&& program[at] == Instruction::LoopOpen
    &&& excess(program, at + 1, to) == 0
}

/// The positions at which the forward scan from `from` may end.
pub open spec fn closes_from(program: Seq<Instruction>, from: int) -> spec_fn(int) -> bool {
    |at: int| closes(program, from, at)
}

/// The positions at which the backward scan from `to` may end.
pub open spec fn opens_before(program: Seq<Instruction>, to: int) -> spec_fn(int) -> bool {
    |at: int| opens(program, to, at)
}

/// Where the forward scan from `from` ends: at the first `]`, at or after
/// `from`, that is preceded from `from` on by as many `[` as `]`.
pub open spec fn matching_close(program: Seq<Instruction>, from: int) -> Option<int> {
    first_in(from, program.len() as int, closes_from(program, from))
}

/// Where the backward scan from `to` ends: at the last `[` before `to` that
/// is followed up to `to` by as many `[` as `]`.
pub open spec fn matching_open(program: Seq<Instruction>, to: int) -> Option<int> {
    last_in(0, to, opens_before(program, to))
}

/// The outcome of a scan that started at `start`: the position it ended
/// at, or the error that names `start`.
pub open spec fn scan_result(target: Option<int>, start: usize) -> Result<usize, Error> {
    match target {
        Some(at) => Ok(at as usize),
        None => Err(Error { kind: ErrorKind::UnmatchedBracket, position: start }),
    }
}

/// The partner of the bracket at `at`: for a `[` the `]` at which the
/// forward scan from just behind it ends, for a `]` the `[` at which the
/// backward scan from it ends.
pub open spec fn partner(program: Seq<Instruction>, at: int) -> Option<int> {
    if 0 <= at < program.len() {
        match program[at] {
            Instruction::LoopOpen => matching_close(program, at + 1),
            Instruction::LoopClose => matching_open(program, at),
            _ => None,
        }
    } else {
        None
    }
}

/// `at` holds a bracket that has no partner.
pub open spec fn unmatched(program: Seq<Instruction>, at: int) -> bool {
    &&& 0 <= at < program.len()
    &&& weight(program[at]) != 0
    &&& partner(program, at) is None
}

/// Every bracket has a partner.
pub open spec fn well_bracketed(program: Seq<Instruction>) -> bool {
    forall|at: int| 0 <= at < program.len() ==> !unmatched(program, at)
}

/// The positions of the brackets without a partner.
pub open spec fn unmatched_in(program: Seq<Instruction>) -> spec_fn(int) -> bool {
    |at: int| unmatched(program, at)
}

/// The first bracket without a partner.
pub open spec fn first_unmatched(program: Seq<Instruction>) -> Option<int> {
    first_in(0, program.len() as int, unmatched_in(program))
}

/// Every bracket has a partner exactly if there is no first bracket
/// without one.
pub proof fn lemma_well_bracketed(program: Seq<Instruction>)
    ensures
        well_bracketed(program) <==> first_unmatched(program) is None,
{
    let hit = unmatched_in(program);
    lemma_first_in(0, program.len() as int, hit);
    assert forall|j: int| 0 <= j < program.len() && !hit(j) implies !unmatched(program, j) by {}
}

/// The excess of a range is the sum of the excesses of its two parts.
pub proof fn lemma_excess_split(program: Seq<Instruction>, from: int, mid: int, to: int)
    requires
        from <= mid <= to,
    ensures
        excess(program, from, to) == excess(program, from, mid) + excess(program, mid, to),
    decreases to - mid,
{
    if mid < to {
        lemma_excess_split(program, from, mid, to - 1);
    }
}

/// The excess of a range is the weight of its first instruction and the
/// excess of the rest.
pub proof fn lemma_excess_first(program: Seq<Instruction>, from: int, to: int)
    requires
        from < to,
    ensures
        excess(program, from, to) == weight(program[from]) + excess(program, from + 1, to),
{
    lemma_excess_split(program, from, from + 1, to);
    assert(excess(program, from, from) == 0);
}

/// What `matching_close` returns is a `]` at or after `from` at which
/// the forward scan from `from` ends, and the first such position.
pub proof fn lemma_matching_close(program: Seq<Instruction>, from: int)
    ensures
        match matching_close(program, from) {
            Some(at) => closes(program, from, at) && forall|j: int|
                from <= j < at ==> !closes(program, from, j),
            None => forall|j: int| from <= j < program.len() ==> !closes(program, from, j),
        },
{
    let hit = closes_from(program, from);
    lemma_first_in(from, program.len() as int, hit);
    assert forall|j: int| from <= j < program.len() && !hit(j) implies !closes(
        program,
        from,
        j,
    ) by {}
}

/// What `matching_open` returns is a `[` before `to` at which the
/// backward scan from `to` ends, and the last such position.
pub proof fn lemma_matching_open(program: Seq<Instruction>, to: int)
    ensures
        match matching_open(program, to) {
            Some(at) => opens(program, to, at) && forall|j: int|
                at < j < to ==> !opens(program, to, j),
            None => forall|j: int| 0 <= j < to ==> !opens(program, to, j),
        },
{
    let hit = opens_before(program, to);
    lemma_last_in(0, to, hit);
    assert forall|j: int| 0 <= j < to && !hit(j) implies !opens(program, to, j) by {}
}

/// While the forward scan from `from` has not ended, its depth is not
/// negative.
proof fn lemma_forward_depth(program: Seq<Instruction>, from: int, at: int, end: int)
    requires
        0 <= from <= at <= end <= program.len(),
        forall|j: int| from <= j < end ==> !closes(program, from, j),
    ensures
        excess(program, from, at) >= 0,
    decreases at - from,
{
    if from < at {
        lemma_forward_depth(program, from, at - 1, end);
        assert(!closes(program, from, at - 1));
    }
}

/// While the backward scan from `to` has not ended, its depth is not
/// negative.
proof fn lemma_backward_depth(program: Seq<Instruction>, to: int, at: int, end: int)
    requires
        -1 <= end < at <= to <= program.len(),
        forall|j: int| end < j < to ==> !opens(program, to, j),
    ensures
        excess(program, at, to) <= 0,
    decreases to - at,
{
    if at < to {
        lemma_backward_depth(program, to, at + 1, end);
        lemma_excess_first(program, at, to);
        assert(!opens(program, to, at));
    }
}

/// The `]` at which the forward scan from just behind a `[` ends is the
/// `]` from which the backward scan ends at that `[`.
pub proof fn lemma_close_then_open(program: Seq<Instruction>, open: int, close: int)
    requires
        0 <= open < program.len(),
        program[open] == Instruction::LoopOpen,
        matching_close(program, open + 1) == Some(close),
    ensures
        matching_open(program, close) == Some(open),
{
    lemma_matching_close(program, open + 1);
    assert forall|j: int| open < j < close implies !opens(program, close, j) by {
        lemma_forward_depth(program, open + 1, j, close);
        lemma_excess_split(program, open + 1, j + 1, close);
    }
    lemma_last_in_is(0, close, opens_before(program, close), open);
}

/// The `[` at which the backward scan from a `]` ends is the `[` from
/// just behind which the forward scan ends at that `]`.
pub proof fn lemma_open_then_close(program: Seq<Instruction>, close: int, open: int)
    requires
        0 <= close < program.len(),
        program[close] == Instruction::LoopClose,
        matching_open(program, close) == Some(open),
    ensures
        matching_close(program, open + 1) == Some(close),
{
    let from = open + 1;
    lemma_matching_open(program, close);
    assert forall|j: int| from <= j < close implies !closes(program, from, j) by {
        lemma_backward_depth(program, close, j + 1, open);
        lemma_excess_split(program, from, j, close);
        lemma_excess_first(program, j, close);
    }
    lemma_first_in_is(from, program.len() as int, closes_from(program, from), close);
}

/// Partners are partners of each other.
pub proof fn lemma_partner_of_partner(program: Seq<Instruction>, at: int)
    ensures
        partner(program, at) matches Some(other) ==> partner(program, other) == Some(at),
{
    if 0 <= at < program.len() {
        match partner(program, at) {
            Some(other) => {
                if program[at] == Instruction::LoopOpen {
                    lemma_matching_close(program, at + 1);
                    lemma_close_then_open(program, at, other);
                } else {
                    lemma_matching_open(program, at);
                    lemma_open_then_close(program, at, other);
                }
            },
            None => {},
        }
    }
}

/// The forward scan from a `[` counts that bracket, so it passes the
/// bracket's own partner and ends where the scan from just behind the
/// partner ends: at the `]` of the loop around, if there is one. It never
/// ends at the partner itself.
pub proof fn lemma_scan_from_open(program: Seq<Instruction>, open: int)
    requires
        0 <= open < program.len(),
        program[open] == Instruction::LoopOpen,
    ensures
        matching_close(program, open) == match matching_close(program, open + 1) {
            Some(own) => matching_close(program, own + 1),
            None => None,
        },
{
    let n = program.len() as int;
    lemma_matching_close(program, open);
    lemma_matching_close(program, open + 1);
    match matching_close(program, open + 1) {
        Some(own) => {
            let behind = own + 1;
            lemma_matching_close(program, behind);
            assert forall|j: int| open <= j <= own implies !closes(program, open, j) by {
                if open < j {
                    lemma_forward_depth(program, open + 1, j, own);
                    lemma_excess_first(program, open, j);
                }
            }
            assert forall|j: int| own < j < n implies closes(program, open, j) == closes(
                program,
                behind,
                j,
            ) by {
                lemma_excess_first(program, open, j);
                lemma_excess_split(program, open + 1, own, j);
                lemma_excess_first(program, own, j);
            }
        },
        None => {
            assert forall|j: int| open <= j < n implies !closes(program, open, j) by {
                if open < j {
                    lemma_forward_depth(program, open + 1, j, n);
                    lemma_excess_first(program, open, j);
                }
            }
        },
    }
}

} // verus!
