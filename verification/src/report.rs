//! Startup configuration checks and the per-job outcome report the
//! orchestrator aggregates after all workers finish.

use vstd::prelude::*;

verus! {

/// The validated run configuration.
#[derive(Clone, Copy, PartialEq, Eq, Structural, Debug)]
pub struct UploadConfig {
    pub worker_count: usize,
    pub chunk_size: u64,
    pub read_buffer_size: usize,
}

/// A configuration error: fatal, reported before any upload begins.
#[derive(Clone, Copy, PartialEq, Eq, Structural, Debug)]
pub enum ConfigError {
    ZeroChunkSize,
    ZeroBufferSize,
    ZeroWorkerCount,
}

/// Check the run configuration once at startup: chunk size, read-buffer
/// size and worker count must all be positive.  Each zero value is rejected
/// with its own error, in this order of checks.
pub fn validate_config(worker_count: usize, chunk_size: u64, read_buffer_size: usize) -> (r:
    Result<UploadConfig, ConfigError>)
    ensures
        r == (if chunk_size == 0 {
            Err::<UploadConfig, ConfigError>(ConfigError::ZeroChunkSize)
        } else if read_buffer_size == 0 {
            Err::<UploadConfig, ConfigError>(ConfigError::ZeroBufferSize)
        } else if worker_count == 0 {
            Err::<UploadConfig, ConfigError>(ConfigError::ZeroWorkerCount)
        } else {
            Ok::<UploadConfig, ConfigError>(
                UploadConfig { worker_count, chunk_size, read_buffer_size },
            )
        }),
        r is Ok <==> worker_count > 0 && chunk_size > 0 && read_buffer_size > 0,
{
    if chunk_size == 0 {
        Err(ConfigError::ZeroChunkSize)
    } else if read_buffer_size == 0 {
        Err(ConfigError::ZeroBufferSize)
    } else if worker_count == 0 {
        Err(ConfigError::ZeroWorkerCount)
    } else {
        Ok(UploadConfig { worker_count, chunk_size, read_buffer_size })
    }
}

/// Which step of a job failed.
#[derive(Clone, Copy, PartialEq, Eq, Structural, Debug)]
pub enum FailureKind {
    /// The file disappeared or became unreadable between listing and reading.
    Discovery,
    /// The remote create-session call failed.
    RemoteCreate,
    /// An upload-part call failed, or the byte-range read feeding it came
    /// up short.
    RemotePart,
    /// The complete-session call failed.
    RemoteComplete,
}

/// The terminal result of one job.
#[derive(Debug, PartialEq, Eq)]
pub enum JobOutcome {
    Succeeded,
    Failed { kind: FailureKind, detail: String },
}

/// One job's entry in the final report, keyed by its source path.
#[derive(Debug, PartialEq, Eq)]
pub struct JobReport {
    pub source_path: String,
    pub outcome: JobOutcome,
}

impl JobReport {
    /// Whether this job failed.
    pub open spec fn failed(self) -> bool {
        self.outcome is Failed
    }
}

/// How many of the reports are failures.
pub open spec fn spec_failed_count(reports: Seq<JobReport>) -> nat
    decreases reports.len(),
{
    if reports.len() == 0 {
        0
    } else {
        spec_failed_count(reports.drop_last()) + (if reports.last().failed() {
            1nat
        } else {
            0nat
        })
    }
}

/// Count the failed jobs in the aggregated report.
pub fn count_failed(reports: &Vec<JobReport>) -> (n: usize)
    ensures
        n == spec_failed_count(reports@),
        n <= reports@.len(),
{
    let mut n: usize = 0;
    let mut i: usize = 0;
    while i < reports.len()
        invariant
            i <= reports@.len(),
            n == spec_failed_count(reports@.take(i as int)),
            n <= i,
        decreases reports@.len() - i,
    {
        let is_failure = match reports[i].outcome {
            JobOutcome::Failed { .. } => true,
            JobOutcome::Succeeded => false,
        };
        if is_failure {
            n = n + 1;
        }
        proof {
            assert(reports@.take(i + 1).drop_last() =~= reports@.take(i as int));
            assert(reports@.take(i + 1).last() == reports@[i as int]);
        }
        i = i + 1;
    }
    proof {
        assert(reports@.take(reports@.len() as int) =~= reports@);
    }
    n
}

/// Whether any job in the aggregated report failed.
pub fn any_failed(reports: &Vec<JobReport>) -> (b: bool)
    ensures
        b == (exists|i: int| 0 <= i < reports@.len() && (#[trigger] reports@[i]).failed()),
{
    let mut i: usize = 0;
    while i < reports.len()
        invariant
            i <= reports@.len(),
            forall|j: int| 0 <= j < i ==> !(#[trigger] reports@[j]).failed(),
        decreases reports@.len() - i,
    {
        let is_failure = match reports[i].outcome {
            JobOutcome::Failed { .. } => true,
            JobOutcome::Succeeded => false,
        };
        if is_failure {
            return true;
        }
        i = i + 1;
    }
    false
}

/// The process exit code of a run: zero exactly when every job succeeded,
/// one otherwise.
pub fn run_exit_code(reports: &Vec<JobReport>) -> (code: i32)
    ensures
        code == 0 || code == 1,
        (code == 0) <==> !(exists|i: int|
            0 <= i < reports@.len() && (#[trigger] reports@[i]).failed()),
{
    if any_failed(reports) {
        1
    } else {
        0
    }
}

} // verus!
