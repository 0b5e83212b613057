//! Work partitioning: split the flat job list into one ordered sublist per
//! worker, balanced by a computed target size, so that workers own disjoint
//! slices of the work for the whole run.

use vstd::prelude::*;
use vstd::arithmetic::mul::lemma_mul_is_distributive_sub;
use vstd::arithmetic::mul::lemma_mul_nonnegative;
use crate::jobs::UploadJob;
use crate::math::{ceil_div, lemma_ceil_div_bounds};

verus! {

/// The slice of jobs one worker owns, created once at partition time and
/// immutable afterwards.
#[derive(Debug, PartialEq, Eq)]
pub struct WorkerAssignment {
    pub worker_index: usize,
    pub jobs: Vec<UploadJob>,
}

/// Jobs handed to the next worker: a full target-sized slice while enough
/// jobs remain, the remainder after that.
pub open spec fn spec_take_len(len: int, target: int) -> int {
    if target <= len {
        target
    } else {
        len
    }
}

/// The balanced contiguous partition: each worker in turn takes the next
/// `target` jobs (or whatever is left) off the front of the list.
pub open spec fn spec_split(jobs: Seq<UploadJob>, target: int, workers: nat) -> Seq<Seq<UploadJob>>
    recommends
        0 <= target,
    decreases workers,
{
    if workers == 0 {
        Seq::empty()
    } else {
        let m = spec_take_len(jobs.len() as int, target);
        seq![jobs.take(m)] + spec_split(jobs.skip(m), target, (workers - 1) as nat)
    }
}

/// Per-worker target size: the ceiling of `len / workers`, so that `workers`
/// slices of this size always hold the whole list.
pub open spec fn spec_target(len: int, workers: int) -> int
    recommends
        0 <= len,
        0 < workers,
{
    ceil_div(len, workers)
}

/// The job lists of a sequence of assignments, in worker order.
pub open spec fn assignment_jobs(assignments: Seq<WorkerAssignment>) -> Seq<Seq<UploadJob>> {
    assignments.map_values(|a: WorkerAssignment| a.jobs@)
}

/// The partitioner.  `partition` consumes the job list, so that each job is
/// owned by exactly one worker afterwards.
pub struct WorkPartitioner;

impl WorkPartitioner {
    /// Split `jobs` in input order into `worker_count` assignments: every
    /// worker receives the next `spec_target` jobs, the last worker the
    /// remainder (possibly fewer, including none).
    pub fn partition(jobs: Vec<UploadJob>, worker_count: usize) -> (assignments: Vec<
        WorkerAssignment,
    >)
        requires
            worker_count > 0,
        ensures
            assignments@.len() == worker_count,
            forall|w: int|
                0 <= w < worker_count ==> (#[trigger] assignments@[w]).worker_index == w,
            assignment_jobs(assignments@) == spec_split(
                jobs@,
                spec_target(jobs@.len() as int, worker_count as int),
                worker_count as nat,
            ),
    {
        let ghost original = jobs@;
        let mut jobs = jobs;
        let target: usize = if jobs.len() == 0 {
            0
        } else {
            (jobs.len() - 1) / worker_count + 1
        };
        assert(target == spec_target(original.len() as int, worker_count as int));
        let mut assignments: Vec<WorkerAssignment> = Vec::new();
        let mut w: usize = 0;
        while w < worker_count
            invariant
                0 < worker_count,
                w <= worker_count,
                target == spec_target(original.len() as int, worker_count as int),
                assignments@.len() == w,
                forall|v: int|
                    0 <= v < w ==> (#[trigger] assignments@[v]).worker_index == v,
                assignment_jobs(assignments@) + spec_split(
                    jobs@,
                    target as int,
                    (worker_count - w) as nat,
                ) == spec_split(original, target as int, worker_count as nat),
            decreases worker_count - w,
        {
            let take: usize = if target <= jobs.len() {
                target
            } else {
                jobs.len()
            };
            let ghost before = jobs@;
            let mut mine: Vec<UploadJob> = Vec::new();
            let mut k: usize = 0;
            while k < take
                invariant
                    k <= take <= before.len(),
                    mine@ =~= before.take(k as int),
                    jobs@ =~= before.skip(k as int),
                decreases take - k,
            {
                let next = jobs.remove(0);
                mine.push(next);
                proof {
                    assert(mine@ =~= before.take(k + 1));
                    assert(jobs@ =~= before.skip(k + 1));
                }
                k = k + 1;
            }
            assignments.push(WorkerAssignment { worker_index: w, jobs: mine });
            proof {
                let rest = spec_split(jobs@, target as int, (worker_count - w - 1) as nat);
                assert(spec_split(before, target as int, (worker_count - w) as nat) =~= seq![
                    before.take(take as int),
                ] + rest);
                assert(assignment_jobs(assignments@) =~= assignment_jobs(
                    assignments@.take(assignments@.len() - 1),
                ).push(before.take(take as int)));
                assert(assignment_jobs(assignments@) + rest =~= spec_split(
                    original,
                    target as int,
                    worker_count as nat,
                ));
            }
            w = w + 1;
        }
        proof {
            assert(assignment_jobs(assignments@) + spec_split(jobs@, target as int, 0) =~=
                assignment_jobs(assignments@));
        }
        assignments
    }
}

/// The partition always yields one slice per worker.
pub proof fn lemma_split_len(jobs: Seq<UploadJob>, target: int, workers: nat)
    ensures
        spec_split(jobs, target, workers).len() == workers,
    decreases workers,
{
    if workers > 0 {
        let m = spec_take_len(jobs.len() as int, target);
        lemma_split_len(jobs.skip(m), target, (workers - 1) as nat);
    }
}

/// Concatenating the slices in worker order rebuilds the job list exactly,
/// provided the slices can hold it (`jobs.len() <= target * workers`): no job
/// is lost, duplicated or reordered.
pub proof fn lemma_split_concat(jobs: Seq<UploadJob>, target: int, workers: nat)
    requires
        0 <= target,
        jobs.len() <= target * workers,
    ensures
        spec_split(jobs, target, workers).flatten() == jobs,
    decreases workers,
{
    if workers == 0 {
        assert(spec_split(jobs, target, workers).flatten() =~= jobs);
    } else {
        let m = spec_take_len(jobs.len() as int, target);
        let rest = spec_split(jobs.skip(m), target, (workers - 1) as nat);
        lemma_mul_nonnegative(target, workers - 1);
        lemma_mul_is_distributive_sub(target, workers as int, 1);
        assert(jobs.skip(m).len() <= target * (workers - 1) as nat);
        lemma_split_concat(jobs.skip(m), target, (workers - 1) as nat);
        let whole = seq![jobs.take(m)] + rest;
        assert(whole.drop_first() =~= rest);
        assert(whole.first() == jobs.take(m));
        assert(spec_split(jobs, target, workers).flatten() =~= jobs.take(m) + jobs.skip(m));
        assert(jobs.take(m) + jobs.skip(m) =~= jobs);
    }
}

/// With the ceiling target, the partition of any job list over any positive
/// worker count concatenates back to the original list in order.
pub proof fn lemma_partition_concat(jobs: Seq<UploadJob>, worker_count: int)
    requires
        0 < worker_count,
    ensures
        spec_split(
            jobs,
            spec_target(jobs.len() as int, worker_count),
            worker_count as nat,
        ).flatten() == jobs,
{
    lemma_ceil_div_bounds(jobs.len() as int, worker_count);
    let target = spec_target(jobs.len() as int, worker_count);
    lemma_split_concat(jobs, target, worker_count as nat);
}

/// The partition is balanced: no worker receives more than `target` jobs,
/// and every worker before one that received any jobs was filled to exactly
/// `target` — so sizes run `target, …, target, remainder, 0, …, 0`.
pub proof fn lemma_split_balanced(jobs: Seq<UploadJob>, target: int, workers: nat)
    requires
        0 <= target,
    ensures
        forall|w: int|
            0 <= w < workers ==> (#[trigger] spec_split(jobs, target, workers)[w]).len()
                <= target,
        forall|w: int|
            0 <= w < workers ==> (#[trigger] spec_split(jobs, target, workers)[w]).len()
                <= jobs.len(),
        forall|v: int, w: int|
            #![trigger spec_split(jobs, target, workers)[v], spec_split(jobs, target, workers)[w]]
            0 <= v < w < workers && spec_split(jobs, target, workers)[w].len() > 0
                ==> spec_split(jobs, target, workers)[v].len() == target,
    decreases workers,
{
    if workers > 0 {
        let s = spec_split(jobs, target, workers);
        let m = spec_take_len(jobs.len() as int, target);
        let rest = spec_split(jobs.skip(m), target, (workers - 1) as nat);
        lemma_split_balanced(jobs.skip(m), target, (workers - 1) as nat);
        lemma_split_len(jobs, target, workers);
        lemma_split_len(jobs.skip(m), target, (workers - 1) as nat);
        assert(s == seq![jobs.take(m)] + rest);
        assert forall|w: int| 1 <= w < workers implies #[trigger] s[w] == rest[w - 1] by {
            assert(s[w] == (seq![jobs.take(m)] + rest)[w]);
        }
        assert(s[0] == jobs.take(m));
        assert forall|v: int, w: int|
            #![trigger s[v], s[w]]
            0 <= v < w < workers && s[w].len() > 0 implies s[v].len() == target by {
            assert(s[w] == rest[w - 1]);
            if v == 0 {
                if m < target {
                    assert(jobs.skip(m).len() == 0);
                    assert(rest[w - 1].len() <= jobs.skip(m).len());
                }
            } else {
                assert(s[v] == rest[v - 1]);
                assert(rest[w - 1].len() > 0);
            }
        }
    }
}

} // verus!
