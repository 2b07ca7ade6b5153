//! Running sums of a line of samples that is continued past both ends by
//! its outermost samples.

use vstd::prelude::*;

verus! {

/// The sample of `line` at position `j`. Positions before the first sample
/// are answered by the first sample, positions past the last by the last.
pub open spec fn padded(line: Seq<u8>, j: int) -> int {
    if j < 0 {
        line[0] as int
    } else if j >= line.len() {
        line[line.len() - 1] as int
    } else {
        line[j] as int
    }
}

/// The sum of the padded samples of `line` at the positions `[from, to)`.
pub open spec fn span_sum(line: Seq<u8>, from: int, to: int) -> int
    decreases to - from,
{
    if to <= from {
        0
    } else {
        span_sum(line, from, to - 1) + padded(line, to - 1)
    }
}

/// Whether `sums` holds the running sums of `line` after `padding` copies of
/// its first sample are put before it and `padding` copies of its last
/// sample after it: entry `i` is the sum of the first `i + 1` samples of the
/// padded line.
pub open spec fn is_running_sum(sums: Seq<u32>, line: Seq<u8>, padding: int) -> bool {
    &&& sums.len() == line.len() + 2 * padding
    &&& forall|i: int|
        0 <= i < sums.len() ==> #[trigger] sums[i] == span_sum(line, -padding, i - padding + 1)
}

/// A span sum is the sum of its two parts.
pub proof fn lemma_span_sum_split(line: Seq<u8>, from: int, mid: int, to: int)
    requires
        from <= mid <= to,
    ensures
        span_sum(line, from, to) == span_sum(line, from, mid) + span_sum(line, mid, to),
    decreases to - mid,
{
    if mid < to {
        lemma_span_sum_split(line, from, mid, to - 1);
    }
}

/// A span sum holds at most 255 for each of its positions.
pub proof fn lemma_span_sum_bounds(line: Seq<u8>, from: int, to: int)
    requires
        from <= to,
    ensures
        0 <= span_sum(line, from, to) <= 255 * (to - from),
    decreases to - from,
{
    if from < to {
        lemma_span_sum_bounds(line, from, to - 1);
    }
}

/// Over a line whose samples all equal `c`, a span sum is `c` times the
/// number of its positions.
pub proof fn lemma_span_sum_uniform(line: Seq<u8>, c: u8, from: int, to: int)
    requires
        line.len() > 0,
        forall|i: int| 0 <= i < line.len() ==> line[i] == c,
        from <= to,
    ensures
        span_sum(line, from, to) == c * (to - from),
    decreases to - from,
{
    if from < to {
        lemma_span_sum_uniform(line, c, from, to - 1);
        assert(c * (to - from) == c * (to - 1 - from) + c) by (nonlinear_arith);
    } else {
        assert(c * (to - from) == 0) by (nonlinear_arith)
            requires
                to - from == 0,
        ;
    }
}

} // verus!
