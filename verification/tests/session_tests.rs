use multipart_uploader::planner::ChunkPlanner;
use multipart_uploader::session::{ETag, SessionId, SessionPhase, UploadSession};

const FIVE_MB: u64 = 5_000_000;

/// A stand-in for the remote service, counting the calls a driver issues.
struct FakeRemote {
    fail_part_number: Option<u64>,
    fail_complete: bool,
    upload_calls: u64,
    complete_calls: u64,
    abort_calls: u64,
}

impl FakeRemote {
    fn reliable() -> FakeRemote {
        FakeRemote {
            fail_part_number: None,
            fail_complete: false,
            upload_calls: 0,
            complete_calls: 0,
            abort_calls: 0,
        }
    }
}

/// Drive one session to a terminal state, issuing the remote call each phase
/// asks for and feeding the outcome back in.
fn drive(session: &mut UploadSession, remote: &mut FakeRemote) {
    loop {
        match session.phase {
            SessionPhase::Uploading => {
                let (part_number, range) = session.next_part();
                assert_eq!(part_number, range.index + 1);
                remote.upload_calls += 1;
                if remote.fail_part_number == Some(part_number) {
                    session.record_remote_failure();
                } else {
                    session.record_part_uploaded(ETag { text: format!("etag-{}", part_number) });
                }
            }
            SessionPhase::ReadyToComplete => {
                remote.complete_calls += 1;
                if remote.fail_complete {
                    session.record_remote_failure();
                } else {
                    session.mark_completed();
                }
            }
            SessionPhase::NeedsAbort => {
                remote.abort_calls += 1;
                session.mark_aborted();
            }
            SessionPhase::Done | SessionPhase::Aborted => break,
        }
    }
}

fn open_session(file_size: u64, chunk_size: u64) -> UploadSession {
    UploadSession::open(
        String::from("backup/data.bin"),
        SessionId { text: String::from("session-1") },
        ChunkPlanner::plan(file_size, chunk_size),
    )
}

#[test]
fn empty_file_completes_with_no_parts() {
    let mut session = open_session(0, FIVE_MB);
    assert_eq!(session.phase, SessionPhase::ReadyToComplete);
    assert!(session.completed_parts().is_empty());
    let mut remote = FakeRemote::reliable();
    drive(&mut session, &mut remote);
    assert_eq!(session.phase, SessionPhase::Done);
    assert_eq!(remote.upload_calls, 0);
    assert_eq!(remote.complete_calls, 1);
    assert_eq!(remote.abort_calls, 0);
    assert!(session.parts.is_empty());
}

#[test]
fn two_part_file_gets_parts_one_and_two() {
    let mut session = open_session(10_000_000, FIVE_MB);
    let mut remote = FakeRemote::reliable();
    drive(&mut session, &mut remote);
    assert_eq!(session.phase, SessionPhase::Done);
    assert_eq!(remote.upload_calls, 2);
    let numbers: Vec<u64> = session.parts.iter().map(|p| p.part_number).collect();
    assert_eq!(numbers, vec![1, 2]);
}

#[test]
fn remainder_file_gets_parts_one_two_three() {
    let mut session = open_session(12_000_001, FIVE_MB);
    let mut remote = FakeRemote::reliable();
    drive(&mut session, &mut remote);
    assert_eq!(session.phase, SessionPhase::Done);
    let numbers: Vec<u64> = session.parts.iter().map(|p| p.part_number).collect();
    assert_eq!(numbers, vec![1, 2, 3]);
    let tags: Vec<String> = session.parts.iter().map(|p| p.e_tag.text.clone()).collect();
    assert_eq!(tags, vec!["etag-1", "etag-2", "etag-3"]);
}

#[test]
fn failure_on_part_two_of_three_aborts_once_and_never_completes() {
    let mut session = open_session(12_000_001, FIVE_MB);
    let mut remote = FakeRemote::reliable();
    remote.fail_part_number = Some(2);
    drive(&mut session, &mut remote);
    assert_eq!(session.phase, SessionPhase::Aborted);
    assert_eq!(remote.upload_calls, 2);
    assert_eq!(remote.abort_calls, 1);
    assert_eq!(remote.complete_calls, 0);
    assert_eq!(session.parts.len(), 1);
}

#[test]
fn failure_on_complete_aborts_once() {
    let mut session = open_session(10_000_000, FIVE_MB);
    let mut remote = FakeRemote::reliable();
    remote.fail_complete = true;
    drive(&mut session, &mut remote);
    assert_eq!(session.phase, SessionPhase::Aborted);
    assert_eq!(remote.upload_calls, 2);
    assert_eq!(remote.complete_calls, 1);
    assert_eq!(remote.abort_calls, 1);
}

#[test]
fn completed_parts_are_ascending_with_no_gaps() {
    let mut session = open_session(17, 4);
    let mut remote = FakeRemote::reliable();
    while session.phase == SessionPhase::Uploading {
        let (part_number, _) = session.next_part();
        remote.upload_calls += 1;
        session.record_part_uploaded(ETag { text: format!("t{}", part_number) });
    }
    assert_eq!(session.phase, SessionPhase::ReadyToComplete);
    let parts = session.completed_parts();
    assert_eq!(parts.len(), 5);
    for (i, p) in parts.iter().enumerate() {
        assert_eq!(p.part_number, i as u64 + 1);
    }
}
