use multipart_uploader::jobs::UploadJob;
use multipart_uploader::partition::WorkPartitioner;

fn jobs_named(n: usize) -> Vec<UploadJob> {
    (0..n)
        .map(|i| UploadJob {
            source_path: format!("/data/file-{}", i),
            destination_key: format!("backup/file-{}", i),
        })
        .collect()
}

#[test]
fn ten_jobs_three_workers_split_four_four_two() {
    let assignments = WorkPartitioner::partition(jobs_named(10), 3);
    assert_eq!(assignments.len(), 3);
    let sizes: Vec<usize> = assignments.iter().map(|a| a.jobs.len()).collect();
    assert_eq!(sizes, vec![4, 4, 2]);
    for (w, a) in assignments.iter().enumerate() {
        assert_eq!(a.worker_index, w);
    }
    let rebuilt: Vec<String> = assignments
        .iter()
        .flat_map(|a| a.jobs.iter().map(|j| j.source_path.clone()))
        .collect();
    let original: Vec<String> = jobs_named(10).into_iter().map(|j| j.source_path).collect();
    assert_eq!(rebuilt, original);
}

#[test]
fn no_jobs_yields_empty_assignments() {
    let assignments = WorkPartitioner::partition(Vec::new(), 3);
    assert_eq!(assignments.len(), 3);
    assert!(assignments.iter().all(|a| a.jobs.is_empty()));
}

#[test]
fn more_workers_than_jobs() {
    let assignments = WorkPartitioner::partition(jobs_named(2), 5);
    assert_eq!(assignments.len(), 5);
    let sizes: Vec<usize> = assignments.iter().map(|a| a.jobs.len()).collect();
    assert_eq!(sizes, vec![1, 1, 0, 0, 0]);
}

#[test]
fn single_worker_takes_everything_in_order() {
    let assignments = WorkPartitioner::partition(jobs_named(4), 1);
    assert_eq!(assignments.len(), 1);
    assert_eq!(assignments[0].jobs.len(), 4);
    assert_eq!(assignments[0].jobs, jobs_named(4));
}

#[test]
fn exact_division_splits_evenly() {
    let assignments = WorkPartitioner::partition(jobs_named(9), 3);
    let sizes: Vec<usize> = assignments.iter().map(|a| a.jobs.len()).collect();
    assert_eq!(sizes, vec![3, 3, 3]);
}
