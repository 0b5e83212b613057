use multipart_uploader::planner::{ChunkPlanner, ChunkRange};

const FIVE_MB: u64 = 5_000_000;

#[test]
fn plan_empty_file_is_empty() {
    let ranges = ChunkPlanner::plan(0, FIVE_MB);
    assert!(ranges.is_empty());
}

#[test]
fn plan_exact_multiple_of_chunk_size() {
    let ranges = ChunkPlanner::plan(10_000_000, FIVE_MB);
    assert_eq!(ranges.len(), 2);
    assert_eq!(ranges[0], ChunkRange { index: 0, offset: 0, length: FIVE_MB });
    assert_eq!(ranges[1], ChunkRange { index: 1, offset: FIVE_MB, length: FIVE_MB });
}

#[test]
fn plan_with_remainder() {
    let ranges = ChunkPlanner::plan(12_000_001, FIVE_MB);
    assert_eq!(ranges.len(), 3);
    assert_eq!(ranges[0], ChunkRange { index: 0, offset: 0, length: FIVE_MB });
    assert_eq!(ranges[1], ChunkRange { index: 1, offset: FIVE_MB, length: FIVE_MB });
    assert_eq!(ranges[2], ChunkRange { index: 2, offset: 10_000_000, length: 2_000_001 });
}

#[test]
fn plan_single_byte_file() {
    let ranges = ChunkPlanner::plan(1, FIVE_MB);
    assert_eq!(ranges.len(), 1);
    assert_eq!(ranges[0], ChunkRange { index: 0, offset: 0, length: 1 });
}

#[test]
fn plan_file_smaller_than_chunk() {
    let ranges = ChunkPlanner::plan(4_999_999, FIVE_MB);
    assert_eq!(ranges.len(), 1);
    assert_eq!(ranges[0], ChunkRange { index: 0, offset: 0, length: 4_999_999 });
}

#[test]
fn plan_covers_file_contiguously() {
    let ranges = ChunkPlanner::plan(7, 3);
    assert_eq!(ranges.len(), 3);
    let mut expected_offset = 0u64;
    for (i, r) in ranges.iter().enumerate() {
        assert_eq!(r.index, i as u64);
        assert_eq!(r.offset, expected_offset);
        assert!(r.length > 0 && r.length <= 3);
        expected_offset += r.length;
    }
    assert_eq!(expected_offset, 7);
}

#[test]
fn plan_is_idempotent() {
    let first = ChunkPlanner::plan(12_000_001, FIVE_MB);
    let second = ChunkPlanner::plan(12_000_001, FIVE_MB);
    assert_eq!(first, second);
    let first = ChunkPlanner::plan(0, FIVE_MB);
    let second = ChunkPlanner::plan(0, FIVE_MB);
    assert_eq!(first, second);
}

#[test]
fn plan_handles_sizes_near_the_integer_limit() {
    let chunk = 6_000_000_000_000_000_000u64;
    let ranges = ChunkPlanner::plan(u64::MAX, chunk);
    assert_eq!(ranges.len(), 4);
    assert_eq!(ranges[3].offset, 3 * chunk);
    assert_eq!(ranges[3].length, u64::MAX - 3 * chunk);
    let whole = ChunkPlanner::plan(u64::MAX, u64::MAX);
    assert_eq!(whole.len(), 1);
    assert_eq!(whole[0].length, u64::MAX);
}

#[test]
fn plan_chunk_size_one() {
    let ranges = ChunkPlanner::plan(4, 1);
    assert_eq!(ranges.len(), 4);
    for (i, r) in ranges.iter().enumerate() {
        assert_eq!(r.offset, i as u64);
        assert_eq!(r.length, 1);
    }
}
