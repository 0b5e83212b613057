use multipart_uploader::report::{
    any_failed, count_failed, run_exit_code, validate_config, ConfigError, FailureKind,
    JobOutcome, JobReport,
};

fn success(path: &str) -> JobReport {
    JobReport { source_path: String::from(path), outcome: JobOutcome::Succeeded }
}

fn failure(path: &str, kind: FailureKind) -> JobReport {
    JobReport {
        source_path: String::from(path),
        outcome: JobOutcome::Failed { kind, detail: String::from("remote call failed") },
    }
}

#[test]
fn valid_config_is_accepted() {
    let config = validate_config(3, 5_000_000, 524_288).unwrap();
    assert_eq!(config.worker_count, 3);
    assert_eq!(config.chunk_size, 5_000_000);
    assert_eq!(config.read_buffer_size, 524_288);
}

#[test]
fn zero_chunk_size_is_rejected() {
    assert_eq!(validate_config(3, 0, 524_288), Err(ConfigError::ZeroChunkSize));
}

#[test]
fn zero_buffer_size_is_rejected() {
    assert_eq!(validate_config(3, 5_000_000, 0), Err(ConfigError::ZeroBufferSize));
}

#[test]
fn zero_worker_count_is_rejected() {
    assert_eq!(validate_config(0, 5_000_000, 524_288), Err(ConfigError::ZeroWorkerCount));
}

#[test]
fn all_successes_exit_zero() {
    let reports = vec![success("/a"), success("/b")];
    assert!(!any_failed(&reports));
    assert_eq!(count_failed(&reports), 0);
    assert_eq!(run_exit_code(&reports), 0);
}

#[test]
fn one_failure_exits_nonzero() {
    let reports = vec![
        success("/a"),
        failure("/b", FailureKind::RemotePart),
        success("/c"),
    ];
    assert!(any_failed(&reports));
    assert_eq!(count_failed(&reports), 1);
    assert_eq!(run_exit_code(&reports), 1);
}

#[test]
fn every_failure_kind_is_counted() {
    let reports = vec![
        failure("/a", FailureKind::Discovery),
        failure("/b", FailureKind::RemoteCreate),
        failure("/c", FailureKind::RemotePart),
        failure("/d", FailureKind::RemoteComplete),
    ];
    assert_eq!(count_failed(&reports), 4);
    assert_eq!(run_exit_code(&reports), 1);
}

#[test]
fn empty_report_exits_zero() {
    let reports: Vec<JobReport> = Vec::new();
    assert!(!any_failed(&reports));
    assert_eq!(count_failed(&reports), 0);
    assert_eq!(run_exit_code(&reports), 0);
}
