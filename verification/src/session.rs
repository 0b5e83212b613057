//! The upload session: the lifecycle of one multipart upload for one
//! destination key.
//!
//! A session is created after the remote create-session call succeeds, then
//! records one part per planned chunk range in ascending order, and ends in
//! exactly one of two terminal states: `Done` after a successful
//! complete-session call, or `Aborted` after the abort that every remote
//! failure forces.  The session itself performs no I/O: the driver around it
//! issues the remote call the current phase asks for and feeds the outcome
//! back in, so every decision the driver acts on is verified here.

use vstd::prelude::*;
use crate::planner::ChunkRange;

verus! {

/// The opaque identifier a remote create-session call returns; echoed on
/// every later call of the same session.  A distinct type, so that it cannot
/// be mixed up with destination keys or bucket names.
#[derive(Debug, PartialEq, Eq)]
pub struct SessionId {
    pub text: String,
}

/// The opaque integrity tag the remote service returns for one uploaded
/// part; echoed at completion time.
#[derive(Debug, PartialEq, Eq)]
pub struct ETag {
    pub text: String,
}

/// The record of one uploaded part.  Part numbers are 1-based: the part for
/// the chunk range at index `i` is numbered `i + 1`.
#[derive(Debug, PartialEq, Eq)]
pub struct PartResult {
    pub part_number: u64,
    pub e_tag: ETag,
}

/// Where one session stands.  `Uploading` covers a freshly created session
/// (no parts yet) as well as one mid-way through its parts; a session whose
/// plan is empty is ready to complete from the start.  `Done` and `Aborted`
/// are final.
#[derive(Clone, Copy, PartialEq, Eq, Structural, Debug)]
pub enum SessionPhase {
    /// Parts remain to upload; the driver must upload the next one.
    Uploading,
    /// Every planned part is recorded; the driver must complete the session.
    ReadyToComplete,
    /// A remote call failed; the driver must abort the session before
    /// reporting the job failed.
    NeedsAbort,
    /// The session completed.
    Done,
    /// The session was aborted.
    Aborted,
}

/// What a session looks like to the state machine: how many parts are
/// planned, how many are recorded, and the phase.
pub ghost struct SessionModel {
    pub plan_len: nat,
    pub parts_len: nat,
    pub phase: SessionPhase,
}

/// The outcome of one remote call, fed back into the session by the driver.
#[derive(Clone, Copy, PartialEq, Eq, Structural, Debug)]
pub enum SessionEvent {
    /// The upload-part call for the next planned range returned a tag.
    PartSucceeded,
    /// The upload-part call failed (remote error or a short byte-range read).
    PartFailed,
    /// The complete-session call succeeded.
    CompleteSucceeded,
    /// The complete-session call failed.
    CompleteFailed,
    /// The abort-session call was issued (best effort; its own outcome does
    /// not change the job's fate).
    AbortFinished,
}

/// The remote call a driver issues from a given (non-terminal) session
/// state.
pub ghost enum RemoteCall {
    UploadPart { part_number: nat },
    CompleteSession,
    AbortSession,
}

/// Which events can answer the call issued from `m`.  Terminal states issue
/// no call and accept no event.
pub open spec fn event_allowed(m: SessionModel, e: SessionEvent) -> bool {
    match m.phase {
        SessionPhase::Uploading => e is PartSucceeded || e is PartFailed,
        SessionPhase::ReadyToComplete => e is CompleteSucceeded || e is CompleteFailed,
        SessionPhase::NeedsAbort => e is AbortFinished,
        SessionPhase::Done => false,
        SessionPhase::Aborted => false,
    }
}

/// The remote call that the phase of `m` asks the driver for.
pub open spec fn issued_call(m: SessionModel) -> RemoteCall
    recommends
        !(m.phase is Done),
        !(m.phase is Aborted),
{
    match m.phase {
        SessionPhase::Uploading => RemoteCall::UploadPart { part_number: m.parts_len + 1 },
        SessionPhase::ReadyToComplete => RemoteCall::CompleteSession,
        _ => RemoteCall::AbortSession,
    }
}

/// The state after `m` absorbs event `e`.
pub open spec fn step(m: SessionModel, e: SessionEvent) -> SessionModel {
    match e {
        SessionEvent::PartSucceeded => SessionModel {
            parts_len: m.parts_len + 1,
            phase: if m.parts_len + 1 == m.plan_len {
                SessionPhase::ReadyToComplete
            } else {
                SessionPhase::Uploading
            },
            ..m
        },
        SessionEvent::PartFailed => SessionModel { phase: SessionPhase::NeedsAbort, ..m },
        SessionEvent::CompleteSucceeded => SessionModel { phase: SessionPhase::Done, ..m },
        SessionEvent::CompleteFailed => SessionModel { phase: SessionPhase::NeedsAbort, ..m },
        SessionEvent::AbortFinished => SessionModel { phase: SessionPhase::Aborted, ..m },
    }
}

/// A well-formed run: each event in turn answers the call its state issued.
pub open spec fn valid_run(m: SessionModel, events: Seq<SessionEvent>) -> bool
    decreases events.len(),
{
    events.len() == 0 || (event_allowed(m, events.first()) && valid_run(
        step(m, events.first()),
        events.drop_first(),
    ))
}

/// The remote calls a driver issues along a run: one per absorbed event.
pub open spec fn run_calls(m: SessionModel, events: Seq<SessionEvent>) -> Seq<RemoteCall>
    decreases events.len(),
{
    if events.len() == 0 {
        Seq::empty()
    } else {
        seq![issued_call(m)] + run_calls(step(m, events.first()), events.drop_first())
    }
}

/// The state a run ends in.
pub open spec fn run_end(m: SessionModel, events: Seq<SessionEvent>) -> SessionModel
    decreases events.len(),
{
    if events.len() == 0 {
        m
    } else {
        run_end(step(m, events.first()), events.drop_first())
    }
}

/// How many abort-session calls a call sequence holds.
pub open spec fn abort_calls(calls: Seq<RemoteCall>) -> nat
    decreases calls.len(),
{
    if calls.len() == 0 {
        0
    } else {
        (if calls.first() is AbortSession {
            1nat
        } else {
            0nat
        }) + abort_calls(calls.drop_first())
    }
}

/// How many complete-session calls a call sequence holds.
pub open spec fn complete_calls(calls: Seq<RemoteCall>) -> nat
    decreases calls.len(),
{
    if calls.len() == 0 {
        0
    } else {
        (if calls.first() is CompleteSession {
            1nat
        } else {
            0nat
        }) + complete_calls(calls.drop_first())
    }
}

/// Whether some part upload in the run failed.
pub open spec fn has_part_failure(events: Seq<SessionEvent>) -> bool {
    exists|i: int| 0 <= i < events.len() && events[i] is PartFailed
}

proof fn lemma_counts_cons(c: RemoteCall, rest: Seq<RemoteCall>)
    ensures
        abort_calls(seq![c] + rest) == (if c is AbortSession {
            1nat
        } else {
            0nat
        }) + abort_calls(rest),
        complete_calls(seq![c] + rest) == (if c is CompleteSession {
            1nat
        } else {
            0nat
        }) + complete_calls(rest),
{
    let s = seq![c] + rest;
    assert(s.first() == c);
    assert(s.drop_first() =~= rest);
}

/// Terminal states absorb nothing: a valid run out of `Done` or `Aborted` is
/// empty.
pub proof fn lemma_terminal_run_is_empty(m: SessionModel, events: Seq<SessionEvent>)
    requires
        m.phase is Done || m.phase is Aborted,
        valid_run(m, events),
    ensures
        events.len() == 0,
        run_calls(m, events) == Seq::<RemoteCall>::empty(),
{
}

/// Once a session needs an abort, the rest of the run is exactly one
/// abort-session call, and it ends aborted.
pub proof fn lemma_abort_run(m: SessionModel, events: Seq<SessionEvent>)
    requires
        m.phase is NeedsAbort,
        valid_run(m, events),
        run_end(m, events).phase is Done || run_end(m, events).phase is Aborted,
    ensures
        abort_calls(run_calls(m, events)) == 1,
        complete_calls(run_calls(m, events)) == 0,
        run_end(m, events).phase is Aborted,
        !has_part_failure(events),
{
    assert(events.len() > 0);
    let e = events.first();
    let next = step(m, e);
    lemma_terminal_run_is_empty(next, events.drop_first());
    lemma_counts_cons(issued_call(m), run_calls(next, events.drop_first()));
    assert(run_end(m, events) == run_end(next, events.drop_first()));
    assert(run_end(next, events.drop_first()) == next);
    assert(!has_part_failure(events)) by {
        if has_part_failure(events) {
            let i = choose|i: int| 0 <= i < events.len() && events[i] is PartFailed;
            assert(events.len() == 1);
            assert(events[0] is AbortFinished);
        }
    }
}

/// From the ready-to-complete phase, a run to a terminal state issues
/// exactly one complete-session call, issues an abort exactly when that call
/// failed, and contains no part-upload failure.
pub proof fn lemma_ready_run(m: SessionModel, events: Seq<SessionEvent>)
    requires
        m.phase is ReadyToComplete,
        valid_run(m, events),
        run_end(m, events).phase is Done || run_end(m, events).phase is Aborted,
    ensures
        complete_calls(run_calls(m, events)) == 1,
        abort_calls(run_calls(m, events)) == (if run_end(m, events).phase is Aborted {
            1nat
        } else {
            0nat
        }),
        !has_part_failure(events),
{
    assert(events.len() > 0);
    let e = events.first();
    let next = step(m, e);
    let rest = events.drop_first();
    lemma_counts_cons(issued_call(m), run_calls(next, rest));
    assert(run_end(m, events) == run_end(next, rest));
    if e is CompleteSucceeded {
        lemma_terminal_run_is_empty(next, rest);
        assert(run_end(next, rest) == next);
    } else {
        lemma_abort_run(next, rest);
    }
    assert(!has_part_failure(events)) by {
        if has_part_failure(events) {
            let i = choose|i: int| 0 <= i < events.len() && events[i] is PartFailed;
            assert(i != 0);
            assert(rest[i - 1] is PartFailed);
            assert(has_part_failure(rest));
        }
    }
}

/// The central failure guarantee: if any part upload in a run fails, the
/// driver issues exactly one abort-session call, never calls
/// complete-session, and the session ends aborted.
pub proof fn lemma_part_failure_aborts(m: SessionModel, events: Seq<SessionEvent>)
    requires
        m.phase is Uploading,
        valid_run(m, events),
        run_end(m, events).phase is Done || run_end(m, events).phase is Aborted,
        has_part_failure(events),
    ensures
        abort_calls(run_calls(m, events)) == 1,
        complete_calls(run_calls(m, events)) == 0,
        run_end(m, events).phase is Aborted,
    decreases events.len(),
{
    assert(events.len() > 0);
    let e = events.first();
    let next = step(m, e);
    let rest = events.drop_first();
    lemma_counts_cons(issued_call(m), run_calls(next, rest));
    if e is PartFailed {
        lemma_abort_run(next, rest);
    } else {
        assert(e is PartSucceeded);
        assert(has_part_failure(rest)) by {
            let i = choose|i: int| 0 <= i < events.len() && events[i] is PartFailed;
            assert(i != 0);
            assert(rest[i - 1] is PartFailed);
        }
        if next.phase is Uploading {
            lemma_part_failure_aborts(next, rest);
        } else {
            lemma_ready_run(next, rest);
            assert(false);
        }
    }
}

/// The success guarantee: a run that ends in `Done` saw no failed part,
/// issued exactly one complete-session call and no abort.
pub proof fn lemma_success_run(m: SessionModel, events: Seq<SessionEvent>)
    requires
        m.phase is Uploading,
        valid_run(m, events),
        run_end(m, events).phase is Done,
    ensures
        complete_calls(run_calls(m, events)) == 1,
        abort_calls(run_calls(m, events)) == 0,
        !has_part_failure(events),
    decreases events.len(),
{
    assert(events.len() > 0);
    let e = events.first();
    let next = step(m, e);
    let rest = events.drop_first();
    lemma_counts_cons(issued_call(m), run_calls(next, rest));
    if e is PartFailed {
        lemma_abort_run(next, rest);
        assert(false);
    } else {
        assert(e is PartSucceeded);
        if next.phase is Uploading {
            lemma_success_run(next, rest);
        } else {
            lemma_ready_run(next, rest);
        }
        assert(!has_part_failure(events)) by {
            if has_part_failure(events) {
                let i = choose|i: int| 0 <= i < events.len() && events[i] is PartFailed;
                assert(i != 0);
                assert(rest[i - 1] is PartFailed);
                assert(has_part_failure(rest));
            }
        }
    }
}

/// One multipart upload session.  Created on a successful remote
/// create-session call; mutated only by recording outcomes; discarded after
/// completion or abort.
pub struct UploadSession {
    pub destination_key: String,
    pub session_id: SessionId,
    pub plan: Vec<ChunkRange>,
    pub parts: Vec<PartResult>,
    pub phase: SessionPhase,
}

impl UploadSession {
    /// The session as the state machine sees it.
    pub open spec fn model(self) -> SessionModel {
        SessionModel {
            plan_len: self.plan@.len(),
            parts_len: self.parts@.len(),
            phase: self.phase,
        }
    }

    /// Internal invariant: parts are recorded in range order, numbered from
    /// 1 with no gaps, never more than planned; the phase agrees with how
    /// many parts are recorded.
    pub open spec fn wf(self) -> bool {
        &&& self.parts@.len() <= self.plan@.len()
        &&& forall|i: int|
            0 <= i < self.parts@.len() ==> (#[trigger] self.parts@[i]).part_number == i + 1
        &&& (self.phase is Uploading ==> self.parts@.len() < self.plan@.len())
        &&& (self.phase is ReadyToComplete ==> self.parts@.len() == self.plan@.len())
    }

    /// Open a session for `destination_key` under the plan of its file,
    /// after the remote create-session call returned `session_id`.  A
    /// session over an empty plan (an empty file) is ready to complete at
    /// once, with an empty part list and no part upload ever asked for.
    pub fn open(destination_key: String, session_id: SessionId, plan: Vec<ChunkRange>) -> (s:
        UploadSession)
        ensures
            s.wf(),
            s.destination_key == destination_key,
            s.session_id == session_id,
            s.plan == plan,
            s.parts@.len() == 0,
            s.phase == (if plan@.len() == 0 {
                SessionPhase::ReadyToComplete
            } else {
                SessionPhase::Uploading
            }),
            s.model() == (SessionModel {
                plan_len: plan@.len(),
                parts_len: 0,
                phase: s.phase,
            }),
    {
        let phase = if plan.len() == 0 {
            SessionPhase::ReadyToComplete
        } else {
            SessionPhase::Uploading
        };
        UploadSession { destination_key, session_id, plan, parts: Vec::new(), phase }
    }

    /// The part to upload next: its 1-based part number and its byte range.
    pub fn next_part(&self) -> (r: (u64, ChunkRange))
        requires
            self.wf(),
            self.phase is Uploading,
        ensures
            r.0 == self.parts@.len() + 1,
            r.1 == self.plan@[self.parts@.len() as int],
            issued_call(self.model()) == (RemoteCall::UploadPart { part_number: r.0 as nat }),
    {
        let index = self.parts.len();
        let planned = self.plan.len();
        assert(index < planned);
        ((index + 1) as u64, self.plan[index])
    }

    /// Record that the upload-part call for the next range succeeded with
    /// `e_tag`.  Appends the next part result; once every planned part is
    /// recorded the session becomes ready to complete.
    pub fn record_part_uploaded(&mut self, e_tag: ETag)
        requires
            old(self).wf(),
            old(self).phase is Uploading,
        ensures
            final(self).wf(),
            final(self).parts@ == old(self).parts@.push(
                PartResult { part_number: (old(self).parts@.len() + 1) as u64, e_tag },
            ),
            final(self).phase == (if final(self).parts@.len() == final(self).plan@.len() {
                SessionPhase::ReadyToComplete
            } else {
                SessionPhase::Uploading
            }),
            final(self).destination_key == old(self).destination_key,
            final(self).session_id == old(self).session_id,
            final(self).plan == old(self).plan,
            final(self).model() == step(old(self).model(), SessionEvent::PartSucceeded),
    {
        let recorded = self.parts.len();
        let planned = self.plan.len();
        assert(recorded < planned);
        let part_number = (recorded + 1) as u64;
        self.parts.push(PartResult { part_number, e_tag });
        if self.parts.len() == self.plan.len() {
            self.phase = SessionPhase::ReadyToComplete;
        }
    }

    /// Record that a remote call failed: an upload-part call (or the local
    /// byte-range read feeding it) while uploading, or the complete-session
    /// call once ready.  Either way the session now needs an abort before
    /// the job is reported failed.
    pub fn record_remote_failure(&mut self)
        requires
            old(self).wf(),
            old(self).phase is Uploading || old(self).phase is ReadyToComplete,
        ensures
            final(self).wf(),
            final(self).phase is NeedsAbort,
            final(self).parts == old(self).parts,
            final(self).plan == old(self).plan,
            final(self).destination_key == old(self).destination_key,
            final(self).session_id == old(self).session_id,
            final(self).model() == step(
                old(self).model(),
                if old(self).phase is Uploading {
                    SessionEvent::PartFailed
                } else {
                    SessionEvent::CompleteFailed
                },
            ),
    {
        self.phase = SessionPhase::NeedsAbort;
    }

    /// The ordered part list to submit with the complete-session call: one
    /// result per planned range, part numbers `1 ..= n` strictly ascending
    /// with no gaps.  For an empty plan this list is empty.
    pub fn completed_parts(&self) -> (parts: &Vec<PartResult>)
        requires
            self.wf(),
            self.phase is ReadyToComplete,
        ensures
            parts@ == self.parts@,
            parts@.len() == self.plan@.len(),
            forall|i: int|
                0 <= i < parts@.len() ==> (#[trigger] parts@[i]).part_number == i + 1,
    {
        &self.parts
    }

    /// Record that the complete-session call succeeded: the session is done.
    pub fn mark_completed(&mut self)
        requires
            old(self).wf(),
            old(self).phase is ReadyToComplete,
        ensures
            final(self).wf(),
            final(self).phase is Done,
            final(self).parts == old(self).parts,
            final(self).plan == old(self).plan,
            final(self).destination_key == old(self).destination_key,
            final(self).session_id == old(self).session_id,
            final(self).model() == step(old(self).model(), SessionEvent::CompleteSucceeded),
    {
        self.phase = SessionPhase::Done;
    }

    /// Record that the abort-session call was issued: the session is
    /// aborted.  Abort is best effort, so the call's own outcome is not
    /// taken in.
    pub fn mark_aborted(&mut self)
        requires
            old(self).wf(),
            old(self).phase is NeedsAbort,
        ensures
            final(self).wf(),
            final(self).phase is Aborted,
            final(self).parts == old(self).parts,
            final(self).plan == old(self).plan,
            final(self).destination_key == old(self).destination_key,
            final(self).session_id == old(self).session_id,
            final(self).model() == step(old(self).model(), SessionEvent::AbortFinished),
    {
        self.phase = SessionPhase::Aborted;
    }
}

} // verus!
