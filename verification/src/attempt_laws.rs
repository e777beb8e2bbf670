//! What an attempt and its coordinator are for.
use vstd::prelude::*;

use crate::bootstrap::BootstrapView;
use crate::bytes::be_value;
use crate::coordinator::{
    packet_names, pixels_error, CoordinatorError, CoordinatorView, FrameRecord,
};
use crate::decimal::decimal;
use crate::events::{
    EventKind, FrameAllocation, FrameCorrelation, Mode, ObservationKind, Phase, Resolution,
};
use crate::fixture_model::{
    frame_place, initial_progress, interval_bits, plan_error, planned, Attempt, FixtureError,
    Frame, Observation, Progress, Receipt, Stamp,
};
use crate::hardware::{LogicalFrame, RealBits, TouchEvent};
use crate::marker::{cells_clean, identity_bytes, marker_geometry, painted_packet, valid_packet};
use crate::observer::CaptureError;

verus! {

/// A plan is sound exactly where both identities fit a marker, the rate is thirty or sixty,
/// the end, sixty-two seconds after the start, is a time that a script can count, and
/// touches are answered at thirty alone.
pub proof fn law_a_plan_is_sound(plan: BootstrapView)
    ensures
        plan.error() is None <==> {
            &&& 1 <= plan.run.len() <= 128 && identity_bytes(plan.run)
            &&& 1 <= plan.generation.len() <= 128 && identity_bytes(plan.generation)
            &&& plan.rate == 30 || plan.rate == 60
            &&& plan.start_ns + 62_000_000_000 <= 0x7fff_ffff_ffff_ffff
            &&& plan.causal ==> plan.rate == 30
        },
        plan.error() is None ==> {
            &&& plan.schedule().start_ns == plan.start_ns
            &&& plan.schedule().stop_ns == plan.start_ns + 60_000_000_000
            &&& plan.schedule().end_ns == plan.start_ns + 62_000_000_000
            &&& plan.schedule().rate == plan.rate
            &&& plan.schedule().mode == plan.mode
            &&& plan.schedule().causal == plan.causal
        },
        plan.level() is Detailed <==> plan.mode is C,
{
}

/// What is wrong with a plan is named: an identity, the rate, or a time that is too late.
pub proof fn law_an_unsound_plan_is_refused_by_what_is_wrong(
    run: Seq<u8>,
    generation: Seq<u8>,
    start_ns: u64,
    rate: u32,
)
    ensures
        plan_error(run, generation, start_ns, rate) == Some(FixtureError::Identity) <==> !(1
            <= run.len() <= 128 && identity_bytes(run) && 1 <= generation.len() <= 128
            && identity_bytes(generation)),
        plan_error(run, generation, start_ns, rate) == Some(FixtureError::Rate) ==> rate != 30
            && rate != 60,
        plan_error(run, generation, start_ns, rate) == Some(FixtureError::TimeRange) ==> start_ns
            + 62_000_000_000 > 0x7fff_ffff_ffff_ffff,
        plan_error(run, generation, start_ns, rate) == Some(FixtureError::StopOverflow)
            ==> start_ns + 60_000_000_000 > u64::MAX,
        plan_error(run, generation, start_ns, rate) == Some(FixtureError::EndOverflow) ==> start_ns
            + 60_000_000_000 <= u64::MAX && start_ns + 62_000_000_000 > u64::MAX,
        planned(start_ns, rate, Mode::A, false).start_ns == start_ns,
{
}

/// The phase is told by the time alone once the start has come: a minute is measured, two
/// seconds are drained, and then the attempt has ended. Before the start it warms up, is
/// quiet from five seconds after its first frame on, and is armed once the warmup is closed.
pub proof fn law_the_phase_is_told_by_the_time(a: Attempt, ns: u64)
    requires
        a.wf(),
    ensures
        ns >= a.plan.start_ns + 62_000_000_000 <==> a.phase_at(ns) is Ended,
        a.plan.start_ns + 60_000_000_000 <= ns < a.plan.start_ns + 62_000_000_000 <==> a.phase_at(
            ns,
        ) is Drain,
        a.plan.start_ns <= ns < a.plan.start_ns + 60_000_000_000 <==> a.phase_at(ns) is Measured,
        ns < a.plan.start_ns && a.p.warmup_closed_ns is Some <==> a.phase_at(ns) is Armed,
        ns < a.plan.start_ns && a.p.warmup_closed_ns is None && (a.p.first_warmup_ns matches Some(
            first,
        ) && ns >= first + 5_000_000_000) <==> a.phase_at(ns) is Quiescing,
        a.phase_at(ns) is Warmup <==> ns < a.plan.start_ns && a.p.warmup_closed_ns is None && (
        a.p.first_warmup_ns matches Some(first) ==> ns < first + 5_000_000_000),
{
}

/// In the one mode that observes, an observation is kept behind the others, with both of
/// its times, as long as there is room and the recorder is healthy.
pub proof fn law_an_observation_of_an_attempt_is_kept(a: Attempt, at: Stamp, kind: ObservationKind)
    requires
        a.plan.mode is C,
        a.observations.len() < 16_384,
        a.raw is None,
    ensures
        a.observed(at, kind).1 is Ok,
        a.observed(at, kind).0.observations == a.observations.push(
            Observation { host_ns: at.host_ns, decision_ns: at.decision_ns, kind },
        ),
        a.observed(at, kind).0.p == a.p,
        a.observed(at, kind).0.outstanding == a.outstanding,
        a.observed(at, kind).0.receipts == a.receipts,
{
    reveal(Attempt::observed);
}

broadcast proof fn lemma_observed_well(a: Attempt, at: Stamp, kind: ObservationKind)
    requires
        (#[trigger] a.observed(at, kind)).1 is Ok,
    ensures
        a.observed(at, kind).0.p == a.p,
        a.observed(at, kind).0.plan == a.plan,
        a.observed(at, kind).0.outstanding == a.outstanding,
        a.observed(at, kind).0.receipts == a.receipts,
{
    reveal(Attempt::observed);
}

broadcast proof fn lemma_refreshed_well(a: Attempt, at: Stamp)
    requires
        (#[trigger] a.refreshed(at)).1 is Ok,
    ensures
        a.refreshed(at).1 == Ok::<Phase, FixtureError>(a.phase_at(at.decision_ns)),
        a.refreshed(at).0.p == (Progress {
            last_decision_ns: at.decision_ns,
            phase: a.phase_at(at.decision_ns),
            ..a.p
        }),
        a.refreshed(at).0.plan == a.plan,
        a.refreshed(at).0.outstanding == a.outstanding,
        a.refreshed(at).0.receipts == a.receipts,
        !a.p.failed && !a.p.closed,
        at.decision_ns >= a.p.last_decision_ns,
        at.decision_ns >= a.plan.start_ns ==> a.p.warmup_closed_ns is Some,
{
    broadcast use lemma_observed_well;

    reveal(Attempt::refreshed);
}

/// A step that goes well brings the phase up to the time, and no attempt that failed or is
/// closed, no clock that runs back, and no start with an open warmup goes well.
pub proof fn law_a_status_is_up_to_date(a: Attempt, at: Stamp)
    requires
        a.refreshed(at).1 is Ok,
    ensures
        a.refreshed(at).1 == Ok::<Phase, FixtureError>(a.phase_at(at.decision_ns)),
        a.refreshed(at).0.p.phase == a.phase_at(at.decision_ns),
        a.refreshed(at).0.p.last_decision_ns == at.decision_ns,
        !a.p.failed && !a.p.closed,
        at.decision_ns >= a.p.last_decision_ns,
        at.decision_ns >= a.plan.start_ns ==> a.p.warmup_closed_ns is Some,
{
    lemma_refreshed_well(a, at);
}

/// A frame that is allocated has the next number, the time of its allocation and the token
/// of the last touch, and stands behind those that are not resolved yet. The first of a
/// warmup starts it. A frame that is suppressed leaves the frames as they were.
pub proof fn law_an_allocated_frame_is_the_next_one(a: Attempt, at: Stamp)
    requires
        a.wf(),
    ensures
        a.allocated(at).1 matches Ok(Some(frame)) ==> ({
            let after = a.allocated(at).0;
            let phase = a.phase_at(at.decision_ns);
            &&& frame.id == a.p.allocated + 1
            &&& frame.allocated_ns == at.host_ns
            &&& frame.decision_ns == at.decision_ns
            &&& frame.token == a.p.token
            &&& after.p.allocated == frame.id
            &&& after.p.current_frame == Some(frame)
            &&& after.outstanding == a.outstanding.push(frame)
            &&& after.receipts == a.receipts
            &&& after.p.token == a.p.token
            &&& after.p.unanswered == a.p.unanswered
            &&& after.p.first_warmup_ns == (if phase is Warmup && a.p.first_warmup_ns is None {
                Some(at.decision_ns)
            } else {
                a.p.first_warmup_ns
            })
            &&& phase is Warmup || phase is Measured || phase is Drain
            &&& a.p.bound && a.p.current_frame is None && a.outstanding.len() < 64
        }),
        a.allocated(at).1 matches Ok(None) ==> ({
            let after = a.allocated(at).0;
            let phase = a.phase_at(at.decision_ns);
            &&& after.p.allocated == a.p.allocated
            &&& after.outstanding == a.outstanding
            &&& !(phase is Warmup) && !(phase is Measured)
        }),
{
    broadcast use {lemma_observed_well, lemma_refreshed_well};

}

/// In the drain a frame is allocated for a touch of the measured minute that no frame
/// carries yet, and for nothing else.
pub proof fn law_the_drain_answers_touches_alone(a: Attempt, phase: Phase)
    ensures
        phase is Warmup || phase is Measured ==> a.allocates(phase),
        phase is Quiescing || phase is Armed || phase is Ended ==> !a.allocates(phase),
        phase is Drain ==> (a.allocates(phase) <==> (a.p.unanswered matches Some(input)
            && a.plan.start_ns <= input.receipt.received_ns < a.plan.stop_ns && (forall|i: int|
            0 <= i < a.outstanding.len() ==> (#[trigger] a.outstanding[i]).token != input.token))),
{
}

/// The one periodic timer has the interval of the rate, and can be installed once.
pub proof fn law_one_periodic_timer_is_installed(
    a: Attempt,
    at: Stamp,
    id: u64,
    interval: RealBits,
)
    ensures
        a.periodic_bound(at, id, interval).1 is Ok <==> a.p.periodic is None && interval.bits == (
        if a.plan.rate == 30 {
            0x3fa1_1111_1111_1111u64
        } else {
            0x3f91_1111_1111_1111u64
        }),
        a.periodic_bound(at, id, interval).1 is Ok ==> a.periodic_bound(
            at,
            id,
            interval,
        ).0.p.periodic == Some(id),
        interval_bits(30) == 0x3fa1_1111_1111_1111,
        interval_bits(60) == 0x3f91_1111_1111_1111,
{
}

/// The periodic timer is retired when the measured minute is over, once, and not before.
pub proof fn law_the_periodic_timer_is_retired_once(a: Attempt, at: Stamp)
    ensures
        a.periodic_retired(at).1 matches Ok(Some(id)) ==> a.p.periodic == Some(id) && !a.p.retired
            && at.decision_ns >= a.plan.stop_ns && a.periodic_retired(at).0.p.retired,
        a.periodic_retired(at).1 matches Ok(None) ==> at.decision_ns < a.plan.stop_ns
            || a.p.retired || a.p.periodic is None,
{
    broadcast use {lemma_observed_well, lemma_refreshed_well};

}

proof fn lemma_found(frames: Seq<Frame>, id: u64, from: int)
    ensures
        frame_place(frames, id, from) matches Some(i) ==> from <= i < frames.len() && 0 <= i
            && frames[i].id == id,
        0 <= from ==> (frame_place(frames, id, from) is None ==> forall|j: int|
            from <= j < frames.len() ==> (#[trigger] frames[j]).id != id),
    decreases frames.len() - from,
{
    if 0 <= from < frames.len() && frames[from].id != id {
        lemma_found(frames, id, from + 1);
    }
}

/// A frame that is resolved was outstanding and is so no more, and every other frame stays.
/// It was not resolved before it was allocated, nor later than now, nor out of order, nor
/// after the end.
pub proof fn law_a_resolved_frame_is_outstanding_no_more(
    a: Attempt,
    at: Stamp,
    id: u64,
    resolution: Resolution,
    ns: u64,
    other: Frame,
)
    requires
        a.wf(),
        a.resolved(at, id, resolution, ns).1 is Ok,
    ensures
        ({
            let after = a.resolved(at, id, resolution, ns).0;
            &&& exists|i: int|
                0 <= i < a.outstanding.len() && (#[trigger] a.outstanding[i]).id == id
                    && a.outstanding[i].decision_ns <= ns
            &&& after.outstanding.len() == a.outstanding.len() - 1
            &&& after.outstanding.contains(other) <==> a.outstanding.contains(other) && other.id
                != id
            &&& !(resolution is Failed)
            &&& a.p.coordinator_frontier_ns <= ns <= at.decision_ns
            &&& ns <= a.plan.end_ns
            &&& after.p.coordinator_frontier_ns == ns
            &&& after.p.allocated == a.p.allocated
            &&& after.p.token == a.p.token
        }),
{
    broadcast use lemma_observed_well;

    lemma_found(a.outstanding, id, 0);
    let place = frame_place(a.outstanding, id, 0)->Some_0;
    let after = a.resolved(at, id, resolution, ns).0;
    let left = a.outstanding.update(place, a.outstanding.last()).drop_last();
    assert(a.ticked(at).outstanding == a.outstanding);
    assert(after.outstanding == left);
    let last = a.outstanding.len() - 1;
    assert forall|i: int| 0 <= i < left.len() implies #[trigger] left[i] == (if i == place {
        a.outstanding[last]
    } else {
        a.outstanding[i]
    }) by {}
    if a.outstanding.contains(other) && other.id != id {
        let i = a.outstanding.index_of(other);
        if i == last {
            assert(left[place] == other);
        } else {
            assert(left[i] == other);
        }
    }
    if left.contains(other) {
        let i = left.index_of(other);
        if i == place {
            assert(a.outstanding[last] == other);
            assert(a.outstanding[last].id != a.outstanding[place].id);
        } else {
            assert(a.outstanding[i] == other);
            if i < place {
                assert(a.outstanding[i].id != a.outstanding[place].id);
            } else {
                assert(a.outstanding[place].id != a.outstanding[i].id);
            }
        }
    }
}

/// A receipt is taken exactly in order: with the next number, not before the one before it
/// nor before the last endpoint, not in the future, and where it is expected. It waits
/// behind the others.
pub proof fn law_a_receipt_is_taken_in_order(a: Attempt, at: Stamp, receipt: Receipt)
    requires
        a.received(at, receipt).1 is Ok,
    ensures
        receipt.sequence == a.p.last_receipt_sequence + 1,
        a.p.last_receipt_ns <= receipt.received_ns <= at.decision_ns,
        a.p.coordinator_frontier_ns <= receipt.received_ns <= a.plan.end_ns,
        a.receipts.len() < 64,
        !a.p.closed,
        a.p.warmup_closed_ns is Some ==> receipt.received_ns >= a.plan.start_ns,
        receipt.received_ns >= a.plan.start_ns ==> a.plan.causal,
        !(receipt.event.phase is Cancel),
        receipt.event.phase is Down ==> receipt.received_ns < a.plan.stop_ns
            && a.p.receipt_contact is None && a.p.receipt_unanswered is None,
        !(receipt.event.phase is Down) ==> a.p.receipt_contact == Some(receipt.event.id),
        ({
            let after = a.received(at, receipt).0;
            &&& after.receipts == a.receipts.push(receipt)
            &&& after.outstanding == a.outstanding
            &&& after.p.last_receipt_sequence == receipt.sequence
            &&& after.p.last_receipt_ns == receipt.received_ns
            &&& after.p.coordinator_frontier_ns == receipt.received_ns
            &&& receipt.event.phase is Down ==> after.p.receipt_contact == Some(receipt.event.id)
                && after.p.receipt_unanswered == Some(receipt.sequence)
            &&& receipt.event.phase is Up ==> after.p.receipt_contact is None
            &&& receipt.event.phase is Move ==> after.p.receipt_contact == a.p.receipt_contact
            &&& !(receipt.event.phase is Down) ==> after.p.receipt_unanswered
                == a.p.receipt_unanswered
            &&& after.p.token == a.p.token
        }),
{
    broadcast use lemma_observed_well;

}

/// A touch is delivered where it is the one that was received first, one at a time. It
/// waits no more, and a contact begins with its first touch and ends with its last.
pub proof fn law_a_touch_is_delivered_as_it_was_received(a: Attempt, at: Stamp, event: TouchEvent)
    requires
        a.delivered(at, event).1 is Ok,
    ensures
        a.receipts.len() > 0 && a.receipts[0].event.same_event(event),
        a.p.delivery is None,
        at.decision_ns <= a.plan.end_ns,
        !(event.phase is Cancel),
        event.phase is Down ==> a.p.contact is None && a.p.unanswered is None,
        !(event.phase is Down) ==> a.p.contact == Some(event.id),
        ({
            let after = a.delivered(at, event).0;
            &&& after.receipts == a.receipts.drop_first()
            &&& after.p.delivery matches Some(d) && d.receipt == a.receipts[0] && !d.mutated
            &&& event.phase is Down ==> after.p.contact == Some(event.id)
            &&& event.phase is Up ==> after.p.contact is None
            &&& event.phase is Move ==> after.p.contact == a.p.contact
            &&& after.p.token == a.p.token
            &&& after.p.unanswered == a.p.unanswered
            &&& after.outstanding == a.outstanding
        }),
{
    broadcast use {lemma_observed_well, lemma_refreshed_well};

}

/// The token goes up by one, for a touch that began and is being delivered, and that touch
/// then waits for a frame with the new token.
pub proof fn law_the_token_goes_up_by_one(a: Attempt, at: Stamp, token: u64)
    requires
        a.token_advanced(at).1 == Ok::<u64, FixtureError>(token),
    ensures
        token == a.p.token + 1,
        a.p.delivery matches Some(d) && d.receipt.event.phase is Down && !d.mutated,
        ({
            let after = a.token_advanced(at).0;
            &&& after.p.token == token
            &&& after.p.delivery matches Some(d) && d.receipt == a.p.delivery->Some_0.receipt
                && d.mutated
            &&& after.p.unanswered matches Some(input) && input.receipt
                == a.p.delivery->Some_0.receipt && input.token == token
            &&& after.outstanding == a.outstanding
            &&& after.receipts == a.receipts
        }),
{
    broadcast use lemma_observed_well;

}

/// The delivery of a touch ends well exactly where its callback succeeded, and the callback
/// of a touch that began changed the token. Nothing is being delivered afterwards.
pub proof fn law_a_delivery_ends_with_its_callback(a: Attempt, at: Stamp, success: bool)
    ensures
        a.delivery_left(at, success).1 is Ok <==> at.decision_ns >= a.p.last_decision_ns && success
            && (a.p.delivery matches Some(d) && (d.receipt.event.phase is Down ==> d.mutated)),
        a.delivery_left(at, success).1 is Ok ==> a.delivery_left(at, success).0.p.delivery is None
            && a.delivery_left(at, success).0.p.unanswered == a.p.unanswered
            && a.delivery_left(at, success).0.p.token == a.p.token,
{
}

/// The warmup is closed exactly while it is quiet before the start, with a periodic timer
/// installed and nothing left over, and the attempt is armed from then on.
pub proof fn law_a_quiet_warmup_is_closed(a: Attempt, at: Stamp)
    requires
        a.warmup_closed(at).1 is Ok,
    ensures
        a.phase_at(at.decision_ns) is Quiescing,
        a.p.periodic is Some,
        a.outstanding.len() == 0 && a.receipts.len() == 0,
        a.p.delivery is None && a.p.contact is None && a.p.unanswered is None,
        a.p.receipt_contact is None && a.p.receipt_unanswered is None,
        a.warmup_closed(at).0.p.warmup_closed_ns == Some(at.decision_ns),
        a.warmup_closed(at).0.p.phase is Armed,
{
    broadcast use {lemma_observed_well, lemma_refreshed_well};

}

/// An attempt is closed where it has ended with nothing left over.
pub proof fn law_an_ended_attempt_is_closed(a: Attempt, at: Stamp)
    requires
        a.finished(at).1 is Ok,
    ensures
        at.decision_ns >= a.plan.end_ns,
        a.outstanding.len() == 0 && a.receipts.len() == 0,
        a.p.delivery is None && a.p.contact is None && a.p.unanswered is None,
        a.p.receipt_contact is None && a.p.receipt_unanswered is None,
        a.finished(at).0.p.closed,
        !a.p.failed && !a.p.closed,
{
    broadcast use {lemma_observed_well, lemma_refreshed_well};

}

/// A failure from outside fails the attempt, and one that already failed stays as it is.
pub proof fn law_a_failure_from_outside_fails_the_attempt(a: Attempt, at: Option<Stamp>)
    ensures
        a.runtime_failed(at).p.failed,
        a.p.failed ==> a.runtime_failed(at) == a,
        at is None ==> a.runtime_failed(at).observations == a.observations,
{
    reveal(Attempt::observed);
}

/// A frame is accepted exactly where it is the next one, there is room for it, the clock
/// could be read, it was allocated between the last endpoint and now, and its time fits the
/// part of the attempt that is open: the warmup before it is closed, and after that the
/// measured minute and the drain.
pub proof fn law_a_frame_is_accepted_in_its_place(
    v: CoordinatorView,
    c: FrameCorrelation,
    before: Result<u64, CaptureError>,
)
    requires
        v.wf(),
    ensures
        v.correlation_error(c, before) is None <==> {
            &&& c.allocation.id == v.frames.len() + 1
            &&& c.sequence == v.frames.len() + 1
            &&& v.frames.len() < 8192
            &&& before matches Ok(ns) && v.last_endpoint_ns <= c.allocation.allocated_ns <= ns
            &&& c.allocation.allocated_ns > 0
            &&& c.allocation.allocated_ns < v.plan.start_ns ==> v.warmup_closed_ns is None
            &&& c.allocation.allocated_ns >= v.plan.start_ns ==> v.warmup_closed_ns is Some
            &&& c.allocation.allocated_ns < v.plan.start_ns + 62_000_000_000
        },
        v.is_next(c) <==> c.allocation.id == v.frames.len() + 1 && c.sequence == v.frames.len()
            + 1,
{
    if v.frames.len() > 0 {
        let last = v.frames[v.frames.len() - 1];
        assert(v.frames.last() == last);
        assert(last.correlation.allocation.id == v.frames.len());
    }
}

/// What is wrong with a frame is named.
pub proof fn law_a_refused_frame_is_refused_by_what_is_wrong(
    v: CoordinatorView,
    c: FrameCorrelation,
    before: Result<u64, CaptureError>,
)
    ensures
        match v.correlation_error(c, before) {
            None => true,
            Some(CoordinatorError::Gap) => !v.is_next(c),
            Some(CoordinatorError::FrameCapacity) => v.frames.len() >= 8192,
            Some(CoordinatorError::Clock(e)) => before == Err::<u64, CaptureError>(e),
            Some(CoordinatorError::AllocationTime) => before matches Ok(ns) && (
            c.allocation.allocated_ns == 0 || c.allocation.allocated_ns > ns
                || c.allocation.allocated_ns < v.last_endpoint_ns),
            Some(CoordinatorError::WarmupAfterClosure) => c.allocation.allocated_ns
                < v.plan.start_ns && v.warmup_closed_ns is Some,
            Some(CoordinatorError::NoWarmupClosure) => c.allocation.allocated_ns >= v.plan.start_ns
                && v.warmup_closed_ns is None,
            Some(CoordinatorError::AllocationAfterEnd) => c.allocation.allocated_ns
                >= v.plan.schedule().end_ns,
            Some(_) => false,
        },
{
}

/// A frame belongs to the part of the attempt in which it was allocated.
pub proof fn law_a_frame_belongs_to_its_part(v: CoordinatorView, a: FrameAllocation)
    requires
        v.wf(),
    ensures
        v.cohort(a) is Warmup <==> a.allocated_ns < v.plan.start_ns,
        v.cohort(a) is Measured <==> v.plan.start_ns <= a.allocated_ns < v.plan.start_ns
            + 60_000_000_000,
        v.cohort(a) is Drain <==> a.allocated_ns >= v.plan.start_ns + 60_000_000_000,
{
}

/// The words of the first failure are kept, and nothing else changes.
pub proof fn law_the_first_failure_is_kept(v: CoordinatorView, e: CoordinatorError)
    ensures
        v.failure is None ==> v.failed(e).failure == Some(e.text()),
        v.failure is Some ==> v.failed(e).failure == v.failure,
        v.failed(e) == (CoordinatorView { failure: v.failed(e).failure, ..v }),
        v.worker_error() is None <==> v.failure is None && v.worker,
        v.worker_error() == Some(CoordinatorError::AlreadyFailed) <==> v.failure is Some,
        v.worker_error() == Some(CoordinatorError::WorkerStopped) <==> v.failure is None
            && !v.worker,
{
}

/// A presentation that returned is recorded behind the others, and the next frame may not
/// have been allocated before it returned. The first frame of the warmup is remembered.
pub proof fn law_a_presentation_is_recorded(
    v: CoordinatorView,
    record: FrameRecord,
    c: FrameCorrelation,
)
    ensures
        v.recorded(record).frames == v.frames.push(record),
        v.recorded(record).last_endpoint_ns == record.adapter_return_ns,
        v.recorded(record).failure == v.failure,
        v.recorded(record).first_warmup_ns == v.first_warmup_ns,
        v.recorded(record).warmup_closed_ns == v.warmup_closed_ns,
        v.first_warmup_ns is Some ==> v.noted(c) == v,
        v.first_warmup_ns is None && c.allocation.allocated_ns >= v.plan.start_ns ==> v.noted(c)
            == v,
        v.first_warmup_ns is None && c.allocation.allocated_ns < v.plan.start_ns ==> v.noted(c)
            == (CoordinatorView { first_warmup_ns: Some(c.allocation.allocated_ns), ..v }),
{
}

/// A frame is presented where it carries a correlation that is accepted, and in the one mode
/// that paints markers where its pixels say the same. In the other modes pixels are not read.
pub proof fn law_a_frame_is_presented_where_it_adds_up(
    v: CoordinatorView,
    frame: LogicalFrame,
    before: Result<u64, CaptureError>,
)
    ensures
        v.entered(frame, before).1 is Ok <==> (frame.correlation() matches Some(c)
            && v.correlation_error(c, before) is None && (v.plan.mode is C ==> pixels_error(
            frame@,
            v.plan,
            c.allocation,
        ) is None)),
        v.entered(frame, before).1 matches Ok(()) ==> v.entered(frame, before).0 == v.noted(
            frame.correlation()->Some_0,
        ),
        v.entered(frame, before).1 is Err && v.failure is None ==> v.entered(
            frame,
            before,
        ).0.failure is Some,
        v.entered(frame, before).0.frames == v.frames,
{
}

/// The pixels say the same as a correlation where they hold a whole packet that names the
/// run, the generation, the frame and its token.
pub proof fn law_pixels_name_their_frame(
    frame: LogicalFrame,
    plan: BootstrapView,
    a: FrameAllocation,
)
    ensures
        ({
            let p = painted_packet(frame@);
            pixels_error(frame@, plan, a) is None <==> {
                &&& marker_geometry(frame@)
                &&& cells_clean(frame@, 3264)
                &&& valid_packet(p)
                &&& p.subrange(20, 20 + p[16]) == plan.run
                &&& p.subrange(148, 148 + p[17]) == plan.generation
                &&& be_value(p.subrange(8, 16)) == a.id
                &&& a.token == 0 ==> p[18] == 0
                &&& a.token != 0 ==> p[18] != 0 && p.subrange(276, 276 + p[18]) == decimal(
                    a.token as nat,
                )
            }
        }),
        packet_names(painted_packet(frame@), plan, a) ==> be_value(
            painted_packet(frame@).subrange(8, 16),
        ) == a.id,
{
}

/// An attempt refuses with these words.
pub proof fn law_an_attempt_says_why()
    ensures
        FixtureError::Identity.text() == "invalid fixture identity"@,
        FixtureError::Rate.text() == "P1 requires 30 or 60 Hz"@,
        FixtureError::StopOverflow.text() == "fixture stop overflow"@,
        FixtureError::EndOverflow.text() == "fixture end overflow"@,
        FixtureError::TimeRange.text() == "fixture time outside Lua integer range"@,
        FixtureError::CausalRate.text() == "P1 causal case uses 30 Hz"@,
        FixtureError::PastEpoch.text() == "fixture epoch must be future"@,
        FixtureError::ObservationCapacity.text() == "fixture local observation capacity exhausted"@,
        FixtureError::RawObservation.text()
            == "fixture raw source lost an observation or is unhealthy"@,
        FixtureError::Regressed.text() == "fixture clock regressed"@,
        FixtureError::RawUnhealthy.text() == "fixture raw source is closed or unhealthy"@,
        FixtureError::AttemptFailed.text() == "fixture attempt has failed"@,
        FixtureError::AlreadyClosed.text() == "fixture already closed"@,
        FixtureError::WarmupOpen.text() == "warmup was not closed strictly before T"@,
        FixtureError::Sink.text() == "fixture sink requires unused C capability"@,
        FixtureError::Source.text()
            == "private fixture source does not match reviewed bytes, or capability already used"@,
        FixtureError::AllocationContext.text()
            == "invalid or exhausted fixture allocation context"@,
        FixtureError::AllocationOverflow.text() == "fixture allocation ID overflow"@,
        FixtureError::Periodic.text() == "fixture must install its single declared periodic timer"@,
        FixtureError::UnknownFrame.text() == "unknown or repeated frame resolution"@,
        FixtureError::Endpoint.text()
            == "out-of-order or impossible coordinator terminal endpoint"@,
        FixtureError::Resolution.text() == "failed or late frame resolution"@,
        FixtureError::WarmupClosure.text()
            == "warmup closure requires five seconds and resolved work before T"@,
        FixtureError::Closure.text() == "fixture closure requires E and resolved work"@,
        FixtureError::ReceiptContext.text()
            == "invalid, out-of-order or exhausted coordinator receipt context"@,
        FixtureError::UnexpectedInput.text() == "unexpected input for fixture case or phase"@,
        FixtureError::ConcurrentDown.text() == "concurrent or unanswered down at trusted receipt"@,
        FixtureError::ReceiptOrder.text() == "broken trusted receipt contact order"@,
        FixtureError::LateDelivery.text() == "callback delivery after E"@,
        FixtureError::MissingReceipt.text()
            == "missing or mismatched trusted receipt for callback"@,
        FixtureError::ConcurrentContact.text() == "concurrent contact or unanswered token"@,
        FixtureError::ContactOrder.text() == "broken contact ordering"@,
        FixtureError::Cancelled.text() == "cancelled isolated contact"@,
        FixtureError::TokenMutation.text()
            == "token mutation requires the delivered down callback exactly once"@,
        FixtureError::CallbackFailed.text() == "failed callback or missing down-token mutation"@,
        FixtureError::Inactive.text() == "fixture is failed or closed"@,
        FixtureError::NoFrame.text() == "fixture identity only available during rendering"@,
{
}

/// A coordinator fails with these words.
pub proof fn law_a_coordinator_says_why()
    ensures
        CoordinatorError::PlanMismatch.text() == "worker/bootstrap plan mismatch"@,
        CoordinatorError::PastEpoch.text() == "coordinator epoch is not future"@,
        CoordinatorError::AlreadyFailed.text() == "coordinator already failed"@,
        CoordinatorError::WorkerStopped.text() == "coordinator worker already stopped"@,
        CoordinatorError::AlreadyStarted.text() == "coordinator already started"@,
        CoordinatorError::NotStarted.text() == "coordinator not started"@,
        CoordinatorError::FixtureClosed.text() == "fixture already closed"@,
        CoordinatorError::ReceiptCapacity.text() == "coordinator receipt capacity exhausted"@,
        CoordinatorError::AmbiguousReceipt.text()
            == "receipt forwarded after a later or ambiguously equal resolved endpoint"@,
        CoordinatorError::Effects.text() == "unexpected effects from reviewed fixture"@,
        CoordinatorError::NoCorrelation.text() == "fixture frame lacks allocation correlation"@,
        CoordinatorError::Gap.text() == "lockstep allocation/publication gap or replay"@,
        CoordinatorError::FrameCapacity.text() == "coordinator frame capacity exhausted"@,
        CoordinatorError::AllocationTime.text()
            == "impossible or out-of-order fixture allocation time"@,
        CoordinatorError::WarmupAfterClosure.text() == "warmup frame after closure"@,
        CoordinatorError::NoWarmupClosure.text() == "measured work without warmup closure"@,
        CoordinatorError::AllocationAfterEnd.text() == "allocation at or after E"@,
        CoordinatorError::MarkerGeometry.text() == "fixture marker decode: Geometry"@,
        CoordinatorError::MarkerCell.text() == "fixture marker decode: Cell"@,
        CoordinatorError::MarkerPacket.text() == "fixture marker decode: Packet"@,
        CoordinatorError::PixelsDisagree.text()
            == "fixture pixels disagree with allocation/publication correlation"@,
        CoordinatorError::AdapterClock.text() == "coordinator adapter clock regressed"@,
        CoordinatorError::NoWarmup.text() == "no warmup frame"@,
        CoordinatorError::WarmupShort.text() == "warmup needs five seconds strictly before T"@,
        CoordinatorError::WarmupClosed.text() == "warmup already closed"@,
        CoordinatorError::LateAcknowledgement.text() == "warmup acknowledgement reached T"@,
        CoordinatorError::FinishEarly.text() == "fixture finish before E"@,
{
}

/// An attempt that has just begun has done nothing: it warms up from the time at which it
/// began, with no token, no frame, no touch and no timer.
pub proof fn law_an_attempt_begins_with_nothing(at: Stamp, synthetic: bool)
    ensures
        ({
            let p = initial_progress(at, synthetic);
            &&& !p.bound && !p.failed && !p.closed && !p.retired
            &&& p.token == 0 && p.allocated == 0 && p.lost == 0 && p.last_receipt_sequence == 0
            &&& p.last_receipt_ns == at.decision_ns
            &&& p.coordinator_frontier_ns == at.decision_ns
            &&& p.last_decision_ns == at.decision_ns
            &&& p.phase is Warmup
            &&& p.delivery is None && p.contact is None && p.unanswered is None
            &&& p.receipt_contact is None && p.receipt_unanswered is None
            &&& p.first_warmup_ns is None && p.warmup_closed_ns is None
            &&& p.periodic is None && p.current_frame is None
            &&& p.synthetic == synthetic
        }),
{
}

/// There is room for what a step observes, and no recorder that could fail.
pub open spec fn unhindered(a: Attempt) -> bool {
    a.wf() && a.raw is None && a.observations.len() <= 16_380
}

broadcast proof fn lemma_observed_unhindered(a: Attempt, at: Stamp, kind: ObservationKind)
    requires
        a.raw is None,
        a.observations.len() < 16_384,
    ensures
        (#[trigger] a.observed(at, kind)).1 is Ok,
        a.observed(at, kind).0.raw is None,
        a.observed(at, kind).0.observations.len() <= a.observations.len() + 1,
{
    reveal(Attempt::observed);
}

broadcast proof fn lemma_refreshed_unhindered(a: Attempt, at: Stamp)
    requires
        a.raw is None,
        a.observations.len() < 16_384,
        !a.p.failed,
        !a.p.closed,
        at.decision_ns >= a.p.last_decision_ns,
        at.decision_ns >= a.plan.start_ns ==> a.p.warmup_closed_ns is Some,
    ensures
        (#[trigger] a.refreshed(at)).1 is Ok,
        a.refreshed(at).0.raw is None,
        a.refreshed(at).0.observations.len() <= a.observations.len() + 1,
{
    broadcast use lemma_observed_unhindered;

    reveal(Attempt::refreshed);
}

/// The steps of an attempt that begin by bringing its phase up to date are taken where it
/// goes on: it did not fail, is not closed, the clock does not run back, and its warmup was
/// closed before its start.
pub open spec fn goes_on(a: Attempt, at: Stamp) -> bool {
    &&& !a.p.failed && !a.p.closed
    &&& at.decision_ns >= a.p.last_decision_ns
    &&& at.decision_ns >= a.plan.start_ns ==> a.p.warmup_closed_ns is Some
}

/// The status of an attempt that goes on is given, and of any other it is not.
pub proof fn law_the_status_is_given_while_the_attempt_goes_on(a: Attempt, at: Stamp)
    requires
        unhindered(a),
    ensures
        a.refreshed(at).1 is Ok <==> goes_on(a, at),
{
    broadcast use {
        lemma_observed_well,
        lemma_refreshed_well,
        lemma_observed_unhindered,
        lemma_refreshed_unhindered,
    };

    if a.refreshed(at).1 is Ok {
        lemma_refreshed_well(a, at);
    }
}

/// A frame is allocated wherever the attempt goes on, its source is bound, no frame is being
/// rendered, fewer than sixty-four are outstanding, and its phase renders: while it warms up
/// and is measured, and in the drain for a touch that no frame carries yet. In the other
/// phases it is suppressed.
pub proof fn law_a_frame_is_allocated_where_it_may_be(a: Attempt, at: Stamp)
    requires
        unhindered(a),
        goes_on(a, at),
        a.p.allocated < u64::MAX,
    ensures
        ({
            let phase = a.phase_at(at.decision_ns);
            let renders = phase is Warmup || phase is Measured || (phase is Drain
                && a.allocates(Phase::Drain));
            &&& renders && a.p.bound && a.p.current_frame is None && a.outstanding.len() < 64
                ==> (a.allocated(at).1 matches Ok(Some(_)))
            &&& renders && !(a.p.bound && a.p.current_frame is None && a.outstanding.len() < 64)
                ==> a.allocated(at).1 is Err
            &&& !renders ==> (a.allocated(at).1 matches Ok(None))
        }),
{
    broadcast use {
        lemma_observed_well,
        lemma_refreshed_well,
        lemma_observed_unhindered,
        lemma_refreshed_unhindered,
    };

}

/// A frame is resolved wherever it is outstanding, was presented or discarded, and its
/// endpoint is possible: not before its allocation nor before the endpoint before it, not in
/// the future, and not after the end.
pub proof fn law_a_frame_is_resolved_where_it_may_be(
    a: Attempt,
    at: Stamp,
    i: int,
    resolution: Resolution,
    ns: u64,
)
    requires
        unhindered(a),
        0 <= i < a.outstanding.len(),
        at.decision_ns >= a.p.last_decision_ns,
        !a.p.closed,
        !(resolution is Failed),
        a.outstanding[i].decision_ns <= ns <= at.decision_ns,
        a.p.coordinator_frontier_ns <= ns <= a.plan.end_ns,
    ensures
        a.resolved(at, a.outstanding[i].id, resolution, ns).1 is Ok,
{
    broadcast use {lemma_observed_well, lemma_observed_unhindered};

    let id = a.outstanding[i].id;
    lemma_found(a.outstanding, id, 0);
    let place = frame_place(a.outstanding, id, 0)->Some_0;
    if place < i {
        assert(a.outstanding[place].id != a.outstanding[i].id);
    } else if i < place {
        assert(a.outstanding[i].id != a.outstanding[place].id);
    }
}

/// A receipt is taken wherever it is in order and expected.
pub proof fn law_a_receipt_is_taken_where_it_may_be(a: Attempt, at: Stamp, receipt: Receipt)
    requires
        unhindered(a),
        at.decision_ns >= a.p.last_decision_ns,
        !a.p.closed,
        a.receipts.len() < 64,
        receipt.sequence == a.p.last_receipt_sequence + 1,
        a.p.last_receipt_ns <= receipt.received_ns <= at.decision_ns,
        a.p.coordinator_frontier_ns <= receipt.received_ns <= a.plan.end_ns,
        a.p.warmup_closed_ns is Some ==> receipt.received_ns >= a.plan.start_ns,
        receipt.received_ns >= a.plan.start_ns ==> a.plan.causal,
        !(receipt.event.phase is Cancel),
        receipt.event.phase is Down ==> receipt.received_ns < a.plan.stop_ns
            && a.p.receipt_contact is None && a.p.receipt_unanswered is None,
        !(receipt.event.phase is Down) ==> a.p.receipt_contact == Some(receipt.event.id),
    ensures
        a.received(at, receipt).1 is Ok,
{
    broadcast use {lemma_observed_well, lemma_observed_unhindered};

}

/// A touch is delivered wherever the attempt goes on until its end, nothing else is being
/// delivered, it is the touch that was received first, and it fits the contact that is down.
pub proof fn law_a_touch_is_delivered_where_it_may_be(a: Attempt, at: Stamp, event: TouchEvent)
    requires
        unhindered(a),
        goes_on(a, at),
        at.decision_ns <= a.plan.end_ns,
        a.p.delivery is None,
        a.receipts.len() > 0,
        a.receipts[0].event.same_event(event),
        !(event.phase is Cancel),
        event.phase is Down ==> a.p.contact is None && a.p.unanswered is None,
        !(event.phase is Down) ==> a.p.contact == Some(event.id),
    ensures
        a.delivered(at, event).1 is Ok,
{
    broadcast use {
        lemma_observed_well,
        lemma_refreshed_well,
        lemma_observed_unhindered,
        lemma_refreshed_unhindered,
    };

}

/// The token changes wherever a touch that began is being delivered and has not changed it.
pub proof fn law_the_token_changes_where_it_may(a: Attempt, at: Stamp)
    requires
        unhindered(a),
        at.decision_ns >= a.p.last_decision_ns,
        a.p.delivery matches Some(d) && d.receipt.event.phase is Down && !d.mutated,
        a.p.token < 0x7fff_ffff_ffff_ffff,
    ensures
        a.token_advanced(at).1 is Ok,
{
    broadcast use {lemma_observed_well, lemma_observed_unhindered};

}

/// The warmup is closed wherever it is quiet, and the attempt wherever it has ended, with
/// nothing left over.
pub proof fn law_the_warmup_and_the_attempt_are_closed_where_they_may_be(a: Attempt, at: Stamp)
    requires
        unhindered(a),
        goes_on(a, at),
        a.outstanding.len() == 0 && a.receipts.len() == 0,
        a.p.delivery is None && a.p.contact is None && a.p.unanswered is None,
        a.p.receipt_contact is None && a.p.receipt_unanswered is None,
    ensures
        a.phase_at(at.decision_ns) is Quiescing && a.p.periodic is Some ==> a.warmup_closed(
            at,
        ).1 is Ok,
        at.decision_ns >= a.plan.end_ns ==> a.finished(at).1 is Ok,
{
    broadcast use {
        lemma_observed_well,
        lemma_refreshed_well,
        lemma_observed_unhindered,
        lemma_refreshed_unhindered,
    };

}

/// The periodic timer is retired wherever the attempt goes on after the measured minute and
/// it was not retired before.
pub proof fn law_the_periodic_timer_is_retired_where_it_may_be(a: Attempt, at: Stamp, id: u64)
    requires
        unhindered(a),
        goes_on(a, at),
        at.decision_ns >= a.plan.stop_ns,
        a.p.periodic == Some(id),
        !a.p.retired,
    ensures
        a.periodic_retired(at).1 == Ok::<Option<u64>, FixtureError>(Some(id)),
{
    broadcast use {
        lemma_observed_well,
        lemma_refreshed_well,
        lemma_observed_unhindered,
        lemma_refreshed_unhindered,
    };

}

/// What an attempt observes is reported to its recorder at the time of the host, with the
/// time that decided, whether its clock is synthetic, and what was observed.
pub proof fn law_an_observation_is_reported_with_both_times(
    a: Attempt,
    at: Stamp,
    kind: ObservationKind,
)
    ensures
        a.raw matches Some(c) ==> a.reported(at, kind).raw == Some(
            c.after(
                Some(at.host_ns),
                EventKind::FixtureObserved {
                    synthetic: a.p.synthetic,
                    decision_ns: at.decision_ns,
                    kind,
                },
            ),
        ),
        a.raw is None ==> a.reported(at, kind) == a,
        a.reported(at, kind).p == a.p,
        a.plan.mode is C && a.observations.len() < 16_384 && a.observed(at, kind).1 is Ok
            ==> a.observed(at, kind).0.raw == a.reported(at, kind).raw,
{
    reveal(Attempt::observed);
}

/// An observation that finds no room is counted as lost and fails the attempt.
pub proof fn law_a_lost_observation_fails_the_attempt(a: Attempt, at: Stamp, kind: ObservationKind)
    requires
        a.plan.mode is C,
        a.observations.len() >= 16_384,
        a.p.lost < u64::MAX,
    ensures
        a.observed(at, kind).1 == Err::<(), FixtureError>(FixtureError::ObservationCapacity),
        a.observed(at, kind).0.p.failed,
        a.observed(at, kind).0.p.lost == a.p.lost + 1,
        a.observed(at, kind).0.observations == a.observations,
{
    reveal(Attempt::observed);
}

/// A broken rule fails the attempt, and in the one mode that observes the failure is observed
/// behind everything else. Frames, touches and the token stay as they were.
pub proof fn law_a_broken_rule_fails_the_attempt(a: Attempt, at: Stamp)
    ensures
        a.refused(at).p.failed,
        a.refused(at).outstanding == a.outstanding,
        a.refused(at).receipts == a.receipts,
        a.refused(at).p.token == a.p.token,
        a.refused(at).p.allocated == a.p.allocated,
        a.refused(at).p.closed == a.p.closed,
        a.plan.mode is C && a.observations.len() < 16_384 ==> a.refused(at).observations
            == a.observations.push(
            Observation {
                host_ns: at.host_ns,
                decision_ns: at.decision_ns,
                kind: ObservationKind::Failed,
            },
        ),
        !(a.plan.mode is C) ==> a.refused(at).observations == a.observations,
{
    reveal(Attempt::observed);
}

/// An attempt that does not go on says why: its recorder is unhealthy, it failed, it is
/// closed, or the clock ran back.
pub proof fn law_an_attempt_at_a_standstill_says_why(a: Attempt, at: Stamp)
    ensures
        match a.standstill(at) {
            None => !a.p.failed && !a.p.closed && at.decision_ns >= a.p.last_decision_ns && (a.raw
                matches Some(c) ==> c.healthy(false)),
            Some(FixtureError::RawUnhealthy) => a.raw matches Some(c) && !c.healthy(false),
            Some(FixtureError::AttemptFailed) => a.p.failed,
            Some(FixtureError::AlreadyClosed) => a.p.closed,
            Some(FixtureError::Regressed) => at.decision_ns < a.p.last_decision_ns,
            Some(_) => false,
        },
        a.standstill(at) matches Some(why) ==> a.refreshed(at).1 == Err::<Phase, FixtureError>(why),
{
    reveal(Attempt::refreshed);
}

/// A receipt that is refused is refused for a reason that is true of it.
pub proof fn law_a_refused_receipt_is_refused_by_what_is_wrong(
    a: Attempt,
    at: Stamp,
    receipt: Receipt,
)
    ensures
        match a.receipt_error(at, receipt) {
            None => true,
            Some(FixtureError::ReceiptContext) => receipt.sequence != a.p.last_receipt_sequence + 1
                || receipt.received_ns < a.p.last_receipt_ns || receipt.received_ns
                < a.p.coordinator_frontier_ns || receipt.received_ns > at.decision_ns
                || a.receipts.len() >= 64 || a.p.closed,
            Some(FixtureError::UnexpectedInput) => receipt.received_ns > a.plan.end_ns || (
            a.p.warmup_closed_ns is Some && receipt.received_ns < a.plan.start_ns) || (
            receipt.received_ns >= a.plan.start_ns && !a.plan.causal) || (receipt.received_ns
                >= a.plan.stop_ns && receipt.event.phase is Down) || receipt.event.phase is Cancel,
            Some(FixtureError::ConcurrentDown) => receipt.event.phase is Down && (
            a.p.receipt_contact is Some || a.p.receipt_unanswered is Some),
            Some(FixtureError::ReceiptOrder) => !(receipt.event.phase is Down)
                && a.p.receipt_contact != Some(receipt.event.id),
            Some(_) => false,
        },
{
}

/// A delivery that is refused is refused for a reason that is true of it.
pub proof fn law_a_refused_delivery_is_refused_by_what_is_wrong(a: Attempt, event: TouchEvent)
    ensures
        match a.delivery_error(event) {
            None => true,
            Some(FixtureError::MissingReceipt) => a.p.delivery is Some || a.receipts.len() == 0
                || !a.receipts[0].event.same_event(event),
            Some(FixtureError::ConcurrentContact) => event.phase is Down && (a.p.contact is Some
                || a.p.unanswered is Some),
            Some(FixtureError::Cancelled) => event.phase is Cancel,
            Some(FixtureError::ContactOrder) => !(event.phase is Down) && a.p.contact != Some(
                event.id,
            ),
            Some(_) => false,
        },
{
}

/// A delivery is refused for want of a receipt wherever another touch is being delivered,
/// none was received, or another was received first. A receipt is taken only where nothing
/// is wrong with it.
pub proof fn law_what_is_wrong_is_refused(
    a: Attempt,
    at: Stamp,
    event: TouchEvent,
    receipt: Receipt,
)
    ensures
        a.p.delivery is Some ==> a.delivery_error(event) is Some,
        a.receipts.len() == 0 ==> a.delivery_error(event) is Some,
        a.receipts.len() > 0 && !a.receipts[0].event.same_event(event) ==> a.delivery_error(
            event,
        ) is Some,
        event.phase is Cancel ==> a.delivery_error(event) is Some,
        a.p.delivery is None && a.receipts.len() > 0 && a.receipts[0].event.same_event(event)
            && event.phase is Cancel ==> a.delivery_error(event) == Some(FixtureError::Cancelled),
        a.p.closed ==> a.receipt_error(at, receipt) == Some(FixtureError::ReceiptContext),
        receipt.sequence != a.p.last_receipt_sequence + 1 ==> a.receipt_error(at, receipt) == Some(
            FixtureError::ReceiptContext,
        ),
        receipt.received_ns > at.decision_ns ==> a.receipt_error(at, receipt) == Some(
            FixtureError::ReceiptContext,
        ),
        receipt.received_ns > a.plan.end_ns ==> a.receipt_error(at, receipt) is Some,
        receipt.received_ns >= a.plan.start_ns && !a.plan.causal ==> a.receipt_error(
            at,
            receipt,
        ) is Some,
        receipt.received_ns >= a.plan.stop_ns && receipt.event.phase is Down ==> a.receipt_error(
            at,
            receipt,
        ) is Some,
        receipt.event.phase is Cancel ==> a.receipt_error(at, receipt) is Some,
{
}

/// A delivery that is refused takes the first receipt with it.
pub proof fn law_a_refused_delivery_takes_its_receipt(a: Attempt, at: Stamp, event: TouchEvent)
    requires
        a.refreshed(at).1 is Ok,
        at.decision_ns <= a.plan.end_ns,
        a.refreshed(at).0.delivery_error(event) is Some,
    ensures
        a.refreshed(at).0.receipts.len() > 0 ==> a.delivered(at, event).0.receipts
            == a.refreshed(at).0.receipts.skip(1),
        a.refreshed(at).0.receipts.len() == 0 ==> a.delivered(at, event).0.receipts.len() == 0,
        a.delivered(at, event).0.p.failed,
{
    reveal(Attempt::observed);
    let now = a.refreshed(at).0;
    law_a_broken_rule_fails_the_attempt(now.popped(), at);
    if now.receipts.len() > 0 {
        assert(now.receipts.skip(1) =~= now.receipts.drop_first());
    }
}

/// A frame answers the touch that waits for an answer where it was presented and carries the
/// token of that touch, and no other frame does.
pub proof fn law_a_presented_frame_answers_the_touch_of_its_token(
    a: Attempt,
    at: Stamp,
    frame: Frame,
    resolution: Resolution,
    ns: u64,
)
    requires
        a.wf(),
        a.outstanding.contains(frame),
        a.resolved(at, frame.id, resolution, ns).1 is Ok,
    ensures
        ({
            let after = a.resolved(at, frame.id, resolution, ns).0;
            match a.p.unanswered {
                Some(input) => if resolution is Presented && input.token == frame.token {
                    after.p.unanswered is None && after.p.receipt_unanswered is None
                } else {
                    after.p.unanswered == Some(input) && after.p.receipt_unanswered
                        == a.p.receipt_unanswered
                },
                None => after.p.unanswered is None && after.p.receipt_unanswered
                    == a.p.receipt_unanswered,
            }
        }),
{
    broadcast use lemma_observed_well;

    lemma_found(a.outstanding, frame.id, 0);
    let place = frame_place(a.outstanding, frame.id, 0)->Some_0;
    let k = a.outstanding.index_of(frame);
    assert(a.outstanding[k] == frame);
    assert(a.ticked(at).outstanding == a.outstanding);
    assert(a.outstanding[place].id == a.outstanding[k].id);
    assert(place == k);
}

} // verus!
