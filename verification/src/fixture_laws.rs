//! What holds of every attempt, whatever steps it takes.
use vstd::prelude::*;

use crate::events::{Mode, ObservationKind, Resolution};
use crate::fixture_model::{frame_place, Attempt, FixtureError, Frame, Progress, Receipt, Stamp};
use crate::hardware::{RealBits, TouchEvent};

verus! {

/// A step of an attempt.
pub enum Step {
    BindSource { expected: bool },
    Allocate,
    BindPeriodic { id: u64, interval: RealBits },
    RetirePeriodic,
    Status,
    Resolve { id: u64, resolution: Resolution, ns: u64 },
    CloseWarmup,
    Finish,
    Receive { receipt: Receipt },
    EnterDelivery { event: TouchEvent },
    AdvanceToken,
    ExitDelivery { success: bool },
    FailRuntime { timed: bool },
    FinishRender,
}

/// The attempt after a step.
pub open spec fn stepped(a: Attempt, at: Stamp, step: Step) -> Attempt {
    match step {
        Step::BindSource { expected } => if expected && !a.p.bound && !a.p.failed {
            Attempt { p: Progress { bound: true, ..a.p }, ..a }
        } else {
            a.refused(at)
        },
        Step::Allocate => a.allocated(at).0,
        Step::BindPeriodic { id, interval } => a.periodic_bound(at, id, interval).0,
        Step::RetirePeriodic => a.periodic_retired(at).0,
        Step::Status => a.refreshed(at).0,
        Step::Resolve { id, resolution, ns } => a.resolved(at, id, resolution, ns).0,
        Step::CloseWarmup => a.warmup_closed(at).0,
        Step::Finish => a.finished(at).0,
        Step::Receive { receipt } => a.received(at, receipt).0,
        Step::EnterDelivery { event } => a.delivered(at, event).0,
        Step::AdvanceToken => a.token_advanced(at).0,
        Step::ExitDelivery { success } => a.delivery_left(at, success).0,
        Step::FailRuntime { timed } => a.runtime_failed(
            if timed {
                Some(at)
            } else {
                None
            },
        ),
        Step::FinishRender => Attempt { p: Progress { current_frame: None, ..a.p }, ..a },
    }
}

/// What no step undoes.
pub open spec fn follows(a: Attempt, b: Attempt) -> bool {
    &&& a.p.failed ==> b.p.failed
    &&& a.p.closed ==> b.p.closed
    &&& a.p.failed || a.p.closed ==> b.p.allocated == a.p.allocated
    &&& b.p.last_decision_ns >= a.p.last_decision_ns
    &&& b.plan == a.plan
    &&& a.plan.mode != Mode::C ==> b.observations == a.observations && b.raw == a.raw
    &&& a.observations.is_prefix_of(b.observations)
}

/// Observing changes the observations, the recorder, and whether the attempt failed.
proof fn lemma_observed(a: Attempt, at: Stamp, kind: ObservationKind)
    ensures
        ({
            let b = a.observed(at, kind).0;
            &&& follows(a, b)
            &&& b.p == (Progress { failed: b.p.failed, lost: b.p.lost, ..a.p })
            &&& b.receipts == a.receipts
            &&& b.outstanding == a.outstanding
            &&& a.observed(at, kind).1 is Ok ==> b.p == a.p
            &&& a.observed(at, kind).1 is Err ==> b.p.failed
        }),
{
    reveal(Attempt::observed);
}

proof fn lemma_refused(a: Attempt, at: Stamp)
    ensures
        follows(a, a.refused(at)),
        a.refused(at).p.failed,
{
    lemma_observed(
        Attempt { p: Progress { failed: true, ..a.p }, ..a },
        at,
        ObservationKind::Failed,
    );
}

/// Bringing the phase up to date changes the phase and the last decision.
proof fn lemma_refreshed(a: Attempt, at: Stamp)
    ensures
        follows(a, a.refreshed(at).0),
        a.p.failed || a.p.closed ==> a.refreshed(at).1 is Err,
        a.refreshed(at).1 matches Ok(phase) ==> {
            let b = a.refreshed(at).0;
            &&& b.p == (Progress { phase, last_decision_ns: at.decision_ns, ..a.p })
            &&& b.receipts == a.receipts
            &&& b.outstanding == a.outstanding
            &&& phase == a.phase_at(at.decision_ns)
            &&& at.decision_ns >= a.plan.start_ns ==> a.p.warmup_closed_ns is Some
            &&& !b.p.failed && !b.p.closed
        },
{
    reveal(Attempt::refreshed);
    lemma_refused(a, at);
    let ticked = a.ticked(at);
    lemma_refused(ticked, at);
    let phase = a.phase_at(at.decision_ns);
    lemma_observed(
        Attempt { p: Progress { phase, ..ticked.p }, ..ticked },
        at,
        ObservationKind::Phase(phase),
    );
}

proof fn lemma_clocked(a: Attempt, at: Stamp)
    ensures
        follows(a, a.clocked(at).0),
{
    lemma_refused(a, at);
}

broadcast proof fn lemma_observing(a: Attempt, at: Stamp, kind: ObservationKind)
    ensures
        follows(a, (#[trigger] a.observed(at, kind)).0),
        a.observed(at, kind).1 is Ok ==> a.observed(at, kind).0.p == a.p,
{
    lemma_observed(a, at, kind);
}

/// Every step follows on from where the attempt was.
proof fn lemma_stepped(a: Attempt, at: Stamp, step: Step)
    ensures
        follows(a, stepped(a, at, step)),
{
    broadcast use lemma_observing;

    lemma_refused(a, at);
    lemma_refreshed(a, at);
    lemma_clocked(a, at);
    lemma_refused(a.refreshed(at).0, at);
    lemma_refused(a.clocked(at).0, at);
    match step {
        Step::Allocate => {},
        Step::BindPeriodic { id, interval } => {},
        Step::RetirePeriodic => {},
        Step::Resolve { id, resolution, ns } => {
            lemma_resolved_follows(a, at, id, resolution, ns);
        },
        Step::CloseWarmup => {},
        Step::Finish => {},
        Step::Receive { receipt } => {
            lemma_received_follows(a, at, receipt);
        },
        Step::EnterDelivery { event } => {
            lemma_refused(a.refreshed(at).0.popped(), at);
        },
        Step::AdvanceToken => {},
        Step::ExitDelivery { success } => {
            let now = a.clocked(at).0;
            lemma_refused(Attempt { p: Progress { delivery: None, ..now.p }, ..now }, at);
        },
        _ => {},
    }
}

proof fn lemma_resolved_follows(a: Attempt, at: Stamp, id: u64, resolution: Resolution, ns: u64)
    ensures
        follows(a, a.resolved(at, id, resolution, ns).0),
{
    broadcast use lemma_observing;

    lemma_clocked(a, at);
    let now = a.clocked(at).0;
    lemma_refused(now, at);
    if frame_place(now.outstanding, id, 0) is Some {
        let place = frame_place(now.outstanding, id, 0)->Some_0;
        let removed = Attempt {
            p: Progress { coordinator_frontier_ns: ns, ..now.p },
            outstanding: now.without(place),
            ..now
        };
        let noted = removed.observed(
            at,
            ObservationKind::Resolved { frame_id: id, resolution, resolved_ns: ns },
        ).0;
        lemma_refused(noted, at);
    }
}

proof fn lemma_received_follows(a: Attempt, at: Stamp, receipt: Receipt)
    ensures
        follows(a, a.received(at, receipt).0),
{
    let kind = ObservationKind::ReceiptSupplied {
        receipt_sequence: receipt.sequence,
        received_ns: receipt.received_ns,
        contact: receipt.event.id,
        phase: receipt.event.phase,
    };
    lemma_observed(a, at, kind);
    let noted = a.observed(at, kind).0;
    lemma_clocked(noted, at);
    lemma_refused(noted.clocked(at).0, at);
}

/// An attempt that failed or is closed stays so, whatever it is asked to do, and
/// allocates no frame.
pub proof fn law_failing_and_closing_are_final(a: Attempt, at: Stamp, step: Step)
    ensures
        a.p.failed ==> stepped(a, at, step).p.failed,
        a.p.closed ==> stepped(a, at, step).p.closed,
        a.p.failed || a.p.closed ==> stepped(a, at, step).p.allocated == a.p.allocated,
{
    lemma_stepped(a, at, step);
}

/// The deciding clock never runs back.
pub proof fn law_the_clock_never_runs_back(a: Attempt, at: Stamp, step: Step)
    ensures
        stepped(a, at, step).p.last_decision_ns >= a.p.last_decision_ns,
{
    lemma_stepped(a, at, step);
}

/// Only one mode observes: in the others nothing is kept and nothing reported.
pub proof fn law_other_modes_observe_nothing(a: Attempt, at: Stamp, step: Step)
    requires
        a.plan.mode != Mode::C,
    ensures
        stepped(a, at, step).observations == a.observations,
        stepped(a, at, step).raw == a.raw,
{
    lemma_stepped(a, at, step);
}

/// What was observed is never taken back.
pub proof fn law_observations_are_kept(a: Attempt, at: Stamp, step: Step)
    ensures
        a.observations.is_prefix_of(stepped(a, at, step).observations),
{
    lemma_stepped(a, at, step);
}

/// A closed attempt left nothing over: it closed after its end, with every frame
/// resolved, every touch delivered and answered, and its warmup was closed before
/// its start.
pub proof fn law_closing_leaves_nothing_over(a: Attempt, at: Stamp)
    requires
        a.wf(),
        a.finished(at).1 is Ok,
    ensures
        a.settled(),
        a.finished(at).0.settled(),
        a.finished(at).0.p.closed && !a.finished(at).0.p.failed,
        at.decision_ns >= a.plan.end_ns,
        a.p.warmup_closed_ns matches Some(t) && t < a.plan.start_ns,
{
    lemma_refreshed(a, at);
    let now = a.refreshed(at).0;
    lemma_observed(now, at, ObservationKind::Closed);
}

/// A frame is allocated only while warming up, measuring or answering a touch, and
/// its number was never used before.
pub proof fn law_frames_are_numbered_in_order(a: Attempt, at: Stamp, frame: Frame)
    requires
        a.wf(),
        a.allocated(at).1 == Ok::<Option<Frame>, FixtureError>(Some(frame)),
    ensures
        frame.id == a.p.allocated + 1,
        forall|i: int|
            0 <= i < a.outstanding.len() ==> (#[trigger] a.outstanding[i]).id != frame.id,
        at.decision_ns < a.plan.end_ns,
        at.decision_ns >= a.plan.stop_ns ==> a.answers_in_drain(),
{
    lemma_refreshed(a, at);
}

/// A touch changes the token once: a second change during the same delivery fails the
/// attempt.
pub proof fn law_a_touch_changes_the_token_once(a: Attempt, first: Stamp, second: Stamp)
    requires
        a.token_advanced(first).1 is Ok,
        second.decision_ns >= first.decision_ns,
    ensures
        a.token_advanced(first).0.token_advanced(second).1 == Err::<u64, FixtureError>(
            FixtureError::TokenMutation,
        ),
        a.token_advanced(first).0.token_advanced(second).0.p.failed,
{
    broadcast use lemma_observing;

    let after = a.token_advanced(first).0;
    lemma_refused(after.ticked(second), second);
}

proof fn lemma_place(frames: Seq<Frame>, id: u64, from: int)
    ensures
        frame_place(frames, id, from) matches Some(i) ==> from <= i < frames.len() && frames[i].id
            == id,
        0 <= from && frame_place(frames, id, from) is None ==> forall|i: int|
            from <= i < frames.len() ==> (#[trigger] frames[i]).id != id,
    decreases frames.len() - from,
{
    if 0 <= from < frames.len() && frames[from].id != id {
        lemma_place(frames, id, from + 1);
    }
}

proof fn lemma_resolved_outstanding(
    a: Attempt,
    at: Stamp,
    id: u64,
    resolution: Resolution,
    ns: u64,
)
    requires
        a.resolved(at, id, resolution, ns).1 is Ok,
    ensures
        frame_place(a.outstanding, id, 0) matches Some(place) && a.resolved(
            at,
            id,
            resolution,
            ns,
        ).0.outstanding == a.without(place) && a.resolved(
            at,
            id,
            resolution,
            ns,
        ).0.p.last_decision_ns == at.decision_ns,
{
    let now = a.ticked(at);
    let place = frame_place(now.outstanding, id, 0)->Some_0;
    let removed = Attempt {
        p: Progress { coordinator_frontier_ns: ns, ..now.p },
        outstanding: now.without(place),
        ..now
    };
    let kind = ObservationKind::Resolved { frame_id: id, resolution, resolved_ns: ns };
    lemma_observed(removed, at, kind);
    let noted = removed.observed(at, kind).0;
    if noted.p.unanswered is Some {
        let input = noted.p.unanswered->Some_0;
        lemma_observed(
            Attempt {
                p: Progress { unanswered: None, receipt_unanswered: None, ..noted.p },
                ..noted
            },
            at,
            ObservationKind::ResponseConfirmed {
                receipt_sequence: input.receipt.sequence,
                frame_id: id,
                token: input.token,
                responded_ns: ns,
            },
        );
    }
}

/// A frame is resolved once: resolving it again fails the attempt.
pub proof fn law_a_frame_is_resolved_once(
    a: Attempt,
    first: Stamp,
    second: Stamp,
    id: u64,
    resolution: Resolution,
    ns: u64,
    again: Resolution,
    later: u64,
)
    requires
        a.wf(),
        a.resolved(first, id, resolution, ns).1 is Ok,
        second.decision_ns >= first.decision_ns,
    ensures
        a.resolved(first, id, resolution, ns).0.resolved(second, id, again, later).1 == Err::<
            (),
            FixtureError,
        >(FixtureError::UnknownFrame),
        a.resolved(first, id, resolution, ns).0.resolved(second, id, again, later).0.p.failed,
{
    broadcast use lemma_observing;

    lemma_place(a.outstanding, id, 0);
    let place = frame_place(a.outstanding, id, 0)->Some_0;
    let after = a.resolved(first, id, resolution, ns).0;
    lemma_refused(after.ticked(second), second);
    lemma_resolved_outstanding(a, first, id, resolution, ns);
    assert(after.outstanding == a.ticked(first).without(place));
    lemma_place(after.outstanding, id, 0);
    if frame_place(after.outstanding, id, 0) is Some {
        let i = frame_place(after.outstanding, id, 0)->Some_0;
        let last = a.outstanding.len() - 1;
        assert(after.outstanding[i] == (if i == place {
            a.outstanding[last]
        } else {
            a.outstanding[i]
        }));
        assert(a.outstanding[place].id == id);
        if i == place {
            assert(a.outstanding[last].id != a.outstanding[place].id);
        } else if i < place {
            assert(a.outstanding[i].id != a.outstanding[place].id);
        } else {
            assert(a.outstanding[place].id != a.outstanding[i].id);
        }
    }
}

/// Presenting a frame that carries the token of an unanswered touch answers it, and
/// nothing else does: a frame with another token, or one that was discarded, leaves it
/// unanswered.
pub proof fn law_only_its_own_frame_answers_a_touch(
    a: Attempt,
    at: Stamp,
    id: u64,
    resolution: Resolution,
    ns: u64,
)
    requires
        a.p.unanswered is Some,
        a.resolved(at, id, resolution, ns).1 is Ok,
    ensures
        ({
            let frame = a.outstanding[frame_place(a.outstanding, id, 0)->Some_0];
            let answers = resolution == Resolution::Presented && frame.token
                == a.p.unanswered->Some_0.token;
            a.resolved(at, id, resolution, ns).0.p.unanswered == (if answers {
                None
            } else {
                a.p.unanswered
            })
        }),
{
    broadcast use lemma_observing;

}

} // verus!
