//! Chunk planning: split a file of a given size into the ordered sequence of
//! byte ranges that will be uploaded as parts.

use vstd::prelude::*;
use vstd::arithmetic::mul::lemma_mul_inequality;
use crate::math::{ceil_div, lemma_ceil_div_bounds};

verus! {

/// One contiguous byte range of a file, uploaded as a single part.
///
/// The ranges planned for one file are contiguous, start at offset zero, and
/// their lengths sum to the file size; the part uploaded for a range is
/// numbered `index + 1`.
#[derive(Clone, Copy, PartialEq, Eq, Structural, Debug)]
pub struct ChunkRange {
    pub index: u64,
    pub offset: u64,
    pub length: u64,
}

/// Number of ranges planned for a file: `0` for an empty file, otherwise
/// the ceiling of `file_size / chunk_size`.
pub open spec fn spec_chunk_count(file_size: u64, chunk_size: u64) -> int
    recommends
        chunk_size > 0,
{
    ceil_div(file_size as int, chunk_size as int)
}

/// Length of the range at position `i` of the plan: the chunk size for every
/// range but the last, and whatever remains of the file for the last.
pub open spec fn spec_range_length(file_size: u64, chunk_size: u64, i: int) -> int
    recommends
        chunk_size > 0,
        0 <= i < spec_chunk_count(file_size, chunk_size),
{
    if i == spec_chunk_count(file_size, chunk_size) - 1 {
        file_size - i * chunk_size
    } else {
        chunk_size as int
    }
}

/// The full plan for a file, as a mathematical sequence.
pub open spec fn spec_plan(file_size: u64, chunk_size: u64) -> Seq<ChunkRange>
    recommends
        chunk_size > 0,
{
    Seq::new(
        spec_chunk_count(file_size, chunk_size) as nat,
        |i: int| (ChunkRange {
            index: i as u64,
            offset: (i * chunk_size) as u64,
            length: spec_range_length(file_size, chunk_size, i) as u64,
        }),
    )
}

/// Every prefix of the plan fits in the file: range `i` starts at
/// `i * chunk_size`, which lies strictly below `file_size` while `i` is a
/// valid position.
proof fn lemma_plan_offsets_in_file(file_size: u64, chunk_size: u64, i: int)
    requires
        chunk_size > 0,
        0 <= i < spec_chunk_count(file_size, chunk_size),
    ensures
        0 <= i * chunk_size < file_size,
        i * chunk_size + spec_range_length(file_size, chunk_size, i) <= file_size,
        0 < spec_range_length(file_size, chunk_size, i) <= chunk_size,
{
    let n = spec_chunk_count(file_size, chunk_size);
    lemma_ceil_div_bounds(file_size as int, chunk_size as int);
    assert(0 <= i * chunk_size) by (nonlinear_arith)
        requires 0 <= i, 0 < chunk_size;
    lemma_mul_inequality(i, n - 1, chunk_size as int);
    if i < n - 1 {
        lemma_mul_inequality(i + 1, n - 1, chunk_size as int);
        assert((i + 1) * chunk_size == i * chunk_size + chunk_size) by (nonlinear_arith);
    } else {
        assert(n * chunk_size == (n - 1) * chunk_size + chunk_size) by (nonlinear_arith);
    }
}

/// The planner.  `plan` is a pure function of its two arguments; its whole
/// result is pinned by [`spec_plan`].
pub struct ChunkPlanner;

impl ChunkPlanner {
    /// Compute the ordered byte ranges in which a file of `file_size` bytes
    /// is uploaded, each of `chunk_size` bytes but for a shorter final
    /// remainder.  An empty file yields an empty plan.
    pub fn plan(file_size: u64, chunk_size: u64) -> (ranges: Vec<ChunkRange>)
        requires
            chunk_size > 0,
        ensures
            ranges@ == spec_plan(file_size, chunk_size),
    {
        let mut ranges: Vec<ChunkRange> = Vec::new();
        if file_size == 0 {
            proof {
                assert(ranges@ =~= spec_plan(file_size, chunk_size));
            }
            return ranges;
        }
        let count: u64 = (file_size - 1) / chunk_size + 1;
        proof {
            lemma_ceil_div_bounds(file_size as int, chunk_size as int);
            assert(count == spec_chunk_count(file_size, chunk_size));
        }
        let mut i: u64 = 0;
        let mut offset: u64 = 0;
        while i < count
            invariant
                chunk_size > 0,
                0 < file_size,
                count == spec_chunk_count(file_size, chunk_size),
                0 <= i <= count,
                i < count ==> offset == i * chunk_size,
                i == count ==> offset == file_size,
                i < count ==> offset < file_size,
                ranges@ =~= spec_plan(file_size, chunk_size).take(i as int),
            decreases count - i,
        {
            proof {
                lemma_plan_offsets_in_file(file_size, chunk_size, i as int);
            }
            let length: u64 = if i == count - 1 {
                file_size - offset
            } else {
                chunk_size
            };
            ranges.push(ChunkRange { index: i, offset, length });
            proof {
                assert(ranges@ =~= spec_plan(file_size, chunk_size).take(i + 1));
                assert((i + 1) * chunk_size == i * chunk_size + chunk_size) by (nonlinear_arith);
                if i + 1 < count {
                    lemma_plan_offsets_in_file(file_size, chunk_size, i + 1);
                }
            }
            offset = offset + length;
            i = i + 1;
        }
        proof {
            assert(ranges@ =~= spec_plan(file_size, chunk_size));
        }
        ranges
    }
}

/// Whether byte `b` of the file falls inside range `r`.
pub open spec fn range_covers(r: ChunkRange, b: int) -> bool {
    r.offset <= b < r.offset + r.length
}

/// Whether byte `b` falls inside exactly one range of the plan for
/// `file_size` and `chunk_size`.
pub open spec fn plan_covers_byte_once(file_size: u64, chunk_size: u64, b: int) -> bool {
    &&& exists|i: int|
        0 <= i < spec_plan(file_size, chunk_size).len()
            && range_covers(#[trigger] spec_plan(file_size, chunk_size)[i], b)
    &&& forall|i: int, k: int|
        0 <= i < spec_plan(file_size, chunk_size).len()
            && 0 <= k < spec_plan(file_size, chunk_size).len()
            && range_covers(#[trigger] spec_plan(file_size, chunk_size)[i], b)
            && range_covers(#[trigger] spec_plan(file_size, chunk_size)[k], b)
            ==> i == k
}

/// The combined length of a sequence of ranges.
pub open spec fn total_length(ranges: Seq<ChunkRange>) -> int
    decreases ranges.len(),
{
    if ranges.len() == 0 {
        0
    } else {
        total_length(ranges.drop_last()) + ranges.last().length
    }
}

/// The lengths of the first `i` planned ranges sum to where range `i`
/// starts; over the whole plan they sum to the file size.
proof fn lemma_total_length_prefix(file_size: u64, chunk_size: u64, i: int)
    requires
        chunk_size > 0,
        0 <= i <= spec_chunk_count(file_size, chunk_size),
    ensures
        total_length(spec_plan(file_size, chunk_size).take(i)) == (if i
            < spec_chunk_count(file_size, chunk_size) {
            i * chunk_size
        } else {
            file_size as int
        }),
    decreases i,
{
    let s = spec_plan(file_size, chunk_size);
    let n = spec_chunk_count(file_size, chunk_size);
    if i == 0 {
        assert(total_length(s.take(0)) == 0);
        if n == 0 {
            assert(file_size == 0);
        }
    } else {
        lemma_total_length_prefix(file_size, chunk_size, i - 1);
        lemma_plan_offsets_in_file(file_size, chunk_size, i - 1);
        assert(s.take(i).drop_last() =~= s.take(i - 1));
        assert(s.take(i).last() == s[i - 1]);
        assert(i * chunk_size == (i - 1) * chunk_size + chunk_size) by (nonlinear_arith);
    }
}

/// The plan covers `[0, file_size)` exactly once: it starts at offset zero,
/// each range begins where the previous one ends, every length is positive
/// and at most the chunk size, the ranges end at the file size, and the
/// number of ranges is `0` for an empty file and the ceiling of
/// `file_size / chunk_size` otherwise.  Every byte of the file lies in
/// exactly one range.
pub proof fn lemma_plan_covers_file(file_size: u64, chunk_size: u64)
    requires
        chunk_size > 0,
    ensures
        spec_plan(file_size, chunk_size).len() == spec_chunk_count(file_size, chunk_size),
        file_size == 0 ==> spec_plan(file_size, chunk_size).len() == 0,
        forall|i: int| 0 <= i < spec_plan(file_size, chunk_size).len() ==> {
            let p = #[trigger] spec_plan(file_size, chunk_size)[i];
            &&& p.index == i
            &&& p.offset == i * chunk_size
            &&& 0 < p.length <= chunk_size
            &&& p.offset + p.length <= file_size
        },
        forall|i: int| 0 <= i < spec_plan(file_size, chunk_size).len() - 1 ==> {
            let p = #[trigger] spec_plan(file_size, chunk_size)[i];
            let next = spec_plan(file_size, chunk_size)[i + 1];
            p.length == chunk_size && next.offset == p.offset + p.length
        },
        file_size > 0 ==> {
            let s = spec_plan(file_size, chunk_size);
            s[0].offset == 0 && s[s.len() - 1].offset + s[s.len() - 1].length == file_size
        },
        total_length(spec_plan(file_size, chunk_size)) == file_size,
        forall|b: int| 0 <= b < file_size ==>
            #[trigger] plan_covers_byte_once(file_size, chunk_size, b),
{
    let s = spec_plan(file_size, chunk_size);
    let n = spec_chunk_count(file_size, chunk_size);
    lemma_ceil_div_bounds(file_size as int, chunk_size as int);
    assert forall|i: int| 0 <= i < s.len() implies {
        let p = #[trigger] s[i];
        &&& p.index == i
        &&& p.offset == i * chunk_size
        &&& 0 < p.length <= chunk_size
        &&& p.offset + p.length <= file_size
    } by {
        lemma_plan_offsets_in_file(file_size, chunk_size, i);
    }
    assert forall|i: int| 0 <= i < s.len() - 1 implies {
        let p = #[trigger] s[i];
        let next = s[i + 1];
        p.length == chunk_size && next.offset == p.offset + p.length
    } by {
        lemma_plan_offsets_in_file(file_size, chunk_size, i);
        lemma_plan_offsets_in_file(file_size, chunk_size, i + 1);
        assert((i + 1) * chunk_size == i * chunk_size + chunk_size) by (nonlinear_arith);
    }
    if file_size > 0 {
        lemma_plan_offsets_in_file(file_size, chunk_size, n - 1);
        assert(spec_range_length(file_size, chunk_size, n - 1)
            == file_size - (n - 1) * chunk_size);
    }
    lemma_total_length_prefix(file_size, chunk_size, n);
    assert(s.take(n) =~= s);
    assert forall|b: int| 0 <= b < file_size implies
        #[trigger] plan_covers_byte_once(file_size, chunk_size, b) by {
        let d = chunk_size as int;
        let j = b / d;
        vstd::arithmetic::div_mod::lemma_fundamental_div_mod(b, d);
        vstd::arithmetic::div_mod::lemma_mod_division_less_than_divisor(b, d);
        assert(j * d == d * j) by (nonlinear_arith);
        assert(j * d <= b < j * d + d);
        assert(0 <= j) by (nonlinear_arith)
            requires 0 <= b, 0 < d, j * d <= b < j * d + d;
        assert(j < n) by {
            if j >= n {
                lemma_mul_inequality(n, j, d);
                assert(file_size <= n * d);
            }
        }
        lemma_plan_offsets_in_file(file_size, chunk_size, j);
        if j < n - 1 {
            assert(s[j].offset + s[j].length == j * d + d);
        }
        assert(range_covers(s[j], b));
        assert forall|i: int| 0 <= i < s.len() && range_covers(#[trigger] s[i], b) implies
            i == j by {
            lemma_plan_offsets_in_file(file_size, chunk_size, i);
            if i < j {
                lemma_mul_inequality(i + 1, j, d);
                assert((i + 1) * d == i * d + d) by (nonlinear_arith);
            } else if i > j {
                lemma_mul_inequality(j + 1, i, d);
                assert((j + 1) * d == j * d + d) by (nonlinear_arith);
            }
        }
    }
}

/// Planning is pure: two plans drawn from the same file size and chunk size
/// are the same sequence of ranges.
pub proof fn lemma_plan_deterministic(
    first: Seq<ChunkRange>,
    second: Seq<ChunkRange>,
    file_size: u64,
    chunk_size: u64,
)
    requires
        chunk_size > 0,
        first == spec_plan(file_size, chunk_size),
        second == spec_plan(file_size, chunk_size),
    ensures
        first == second,
{
}

} // verus!
