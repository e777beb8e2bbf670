//! Running a measured attempt.
//!
//! Each step takes the time at which it is decided and the recorder that the attempt
//! reports to, where one is attached.
use vstd::prelude::*;

use crate::bytes::{copy_bytes, same_bytes};
use crate::events::{EventKind, Mode, ObservationKind, Phase, Resolution};
use crate::fixture_model::{
    carried, frame_place, initial_progress, plan_error, planned, valid_identity, Attempt, Delivery,
    FixtureError, Frame, Observation, PendingInput, Progress, Receipt, Schedule, Stamp, DRAIN_NS,
    LATEST_NS, MAX_OBSERVATIONS, MAX_OUTSTANDING, MEASURED_NS, WARMUP_NS,
};
use crate::hardware::{RealBits, TouchEvent, TouchPhase};
use crate::marker::are_identity_bytes;
use crate::observer::{Capture, CaptureView};

verus! {

/// The identity and the schedule of an attempt.
pub struct Plan {
    pub run: Vec<u8>,
    pub generation: Vec<u8>,
    pub schedule: Schedule,
}

fn is_valid_identity(s: &[u8]) -> (r: bool)
    ensures
        r == valid_identity(s@),
{
    s.len() >= 1 && s.len() <= 128 && are_identity_bytes(s)
}

impl Plan {
    /// A plan for one minute of measuring and two seconds of draining.
    pub fn new(run: &[u8], generation: &[u8], start_ns: u64, rate: u32, mode: Mode) -> (r: Result<
        Plan,
        FixtureError,
    >)
        ensures
            match r {
                Ok(plan) => {
                    &&& plan_error(run@, generation@, start_ns, rate) is None
                    &&& plan.run@ == run@
                    &&& plan.generation@ == generation@
                    &&& plan.schedule == planned(start_ns, rate, mode, false)
                    &&& plan.schedule.wf()
                },
                Err(e) => plan_error(run@, generation@, start_ns, rate) == Some(e),
            },
    {
        if !is_valid_identity(run) || !is_valid_identity(generation) {
            return Err(FixtureError::Identity);
        }
        if rate != 30 && rate != 60 {
            return Err(FixtureError::Rate);
        }
        let stop_ns: u64 = match start_ns.checked_add(MEASURED_NS) {
            Some(ns) => ns,
            None => {
                return Err(FixtureError::StopOverflow);
            },
        };
        let end_ns: u64 = match stop_ns.checked_add(DRAIN_NS) {
            Some(ns) => ns,
            None => {
                return Err(FixtureError::EndOverflow);
            },
        };
        if end_ns > LATEST_NS {
            return Err(FixtureError::TimeRange);
        }
        Ok(
            Plan {
                run: copy_bytes(run),
                generation: copy_bytes(generation),
                schedule: Schedule { start_ns, stop_ns, end_ns, rate, mode, causal: false },
            },
        )
    }

    /// The same plan with touches to be answered. It has one rate.
    pub fn causal_response(self) -> (r: Result<Plan, FixtureError>)
        ensures
            match r {
                Ok(plan) => self.schedule.rate == 30 && plan.run@ == self.run@
                    && plan.generation@ == self.generation@ && plan.schedule == (Schedule {
                    causal: true,
                    ..self.schedule
                }),
                Err(e) => self.schedule.rate != 30 && e == FixtureError::CausalRate,
            },
    {
        if self.schedule.rate != 30 {
            return Err(FixtureError::CausalRate);
        }
        let schedule = Schedule { causal: true, ..self.schedule };
        Ok(Plan { run: self.run, generation: self.generation, schedule })
    }
}

/// The time of a step. A synthetic clock decides alone, and its time is never put in
/// place of the host's.
pub fn stamp(host_ns: u64, synthetic_ns: Option<u64>) -> (at: Stamp)
    ensures
        at == (Stamp {
            host_ns,
            decision_ns: match synthetic_ns {
                Some(ns) => ns,
                None => host_ns,
            },
        }),
{
    let decision_ns: u64 = match synthetic_ns {
        Some(ns) => ns,
        None => host_ns,
    };
    Stamp { host_ns, decision_ns }
}

/// The view of a recorder, where there is one.
pub open spec fn recorder(raw: Option<Capture>) -> Option<CaptureView> {
    match raw {
        Some(capture) => Some(capture@),
        None => None,
    }
}

/// What a marker says of a frame.
pub struct FrameIdentity {
    pub run: Vec<u8>,
    pub generation: Vec<u8>,
    pub frame_id: u64,
    pub input: Option<u64>,
}

/// What is known of an attempt.
pub struct FixtureReport {
    pub synthetic: bool,
    pub allocated: u64,
    pub phase: Phase,
    pub warmup_closed_ns: Option<u64>,
    pub failed: bool,
    pub closed: bool,
    pub lost: u64,
    pub observations: Vec<Observation>,
}

/// A running attempt.
pub struct Fixture {
    plan: Plan,
    p: Progress,
    receipts: Vec<Receipt>,
    outstanding: Vec<Frame>,
    observations: Vec<Observation>,
}

impl Fixture {
    /// The attempt, with the recorder that it reports to.
    pub closed spec fn attempt(self, raw: Option<Capture>) -> Attempt {
        Attempt {
            plan: self.plan.schedule,
            p: self.p,
            receipts: self.receipts@,
            outstanding: self.outstanding@,
            observations: self.observations@,
            raw: recorder(raw),
        }
    }

    /// The identities of the attempt.
    pub closed spec fn identities(self) -> (Seq<u8>, Seq<u8>) {
        (self.plan.run@, self.plan.generation@)
    }

    /// An attempt at a plan whose start is still to come.
    pub fn new(plan: Plan, synthetic: bool, at: Stamp) -> (r: Result<Fixture, FixtureError>)
        requires
            plan.schedule.wf(),
        ensures
            match r {
                Ok(fixture) => {
                    &&& at.decision_ns < plan.schedule.start_ns
                    &&& fixture.identities() == (plan.run@, plan.generation@)
                    &&& fixture.attempt(None).wf()
                    &&& fixture.attempt(None) == (Attempt {
                        plan: plan.schedule,
                        p: initial_progress(at, synthetic),
                        receipts: Seq::empty(),
                        outstanding: Seq::empty(),
                        observations: Seq::empty(),
                        raw: None,
                    })
                },
                Err(e) => at.decision_ns >= plan.schedule.start_ns && e == FixtureError::PastEpoch,
            },
    {
        if at.decision_ns >= plan.schedule.start_ns {
            return Err(FixtureError::PastEpoch);
        }
        let p = Progress {
            bound: false,
            last_receipt_sequence: 0,
            last_receipt_ns: at.decision_ns,
            coordinator_frontier_ns: at.decision_ns,
            delivery: None,
            contact: None,
            receipt_contact: None,
            receipt_unanswered: None,
            token: 0,
            unanswered: None,
            first_warmup_ns: None,
            last_decision_ns: at.decision_ns,
            periodic: None,
            retired: false,
            current_frame: None,
            synthetic,
            allocated: 0,
            phase: Phase::Warmup,
            warmup_closed_ns: None,
            failed: false,
            closed: false,
            lost: 0,
        };
        let fixture = Fixture {
            plan,
            p,
            receipts: Vec::new(),
            outstanding: Vec::new(),
            observations: Vec::new(),
        };
        assert(fixture.attempt(None).receipts =~= Seq::empty());
        assert(fixture.attempt(None).outstanding =~= Seq::empty());
        assert(fixture.attempt(None).observations =~= Seq::empty());
        Ok(fixture)
    }

    /// The mode of the attempt.
    pub fn mode(&self) -> (m: Mode)
        ensures
            forall|raw: Option<Capture>| m == (#[trigger] self.attempt(raw)).plan.mode,
    {
        self.plan.schedule.mode
    }

    fn observe_raw(&self, raw: &mut Option<Capture>, at: Stamp, kind: ObservationKind)
        requires
            self.attempt(*old(raw)).wf(),
        ensures
            self.attempt(*final(raw)).wf(),
            self.attempt(*final(raw)) == self.attempt(*old(raw)).reported(at, kind),
    {
        if let Some(mut capture) = raw.take() {
            capture.record_at(
                Some(at.host_ns),
                EventKind::FixtureObserved {
                    synthetic: self.p.synthetic,
                    decision_ns: at.decision_ns,
                    kind,
                },
            );
            *raw = Some(capture);
        }
    }

    fn is_raw_healthy(&self, raw: &Option<Capture>) -> (r: bool)
        ensures
            r == self.attempt(*raw).raw_healthy(),
    {
        match raw {
            Some(capture) => capture.ensure_open_and_healthy().is_ok(),
            None => true,
        }
    }

    fn fail_observing(&mut self, raw: &mut Option<Capture>, at: Stamp, kind: ObservationKind)
        requires
            old(self).attempt(*old(raw)).wf(),
        ensures
            final(self).attempt(*final(raw)).wf(),
            final(self).attempt(*final(raw)) == old(self).attempt(*old(raw)).failed_observing(
                at,
                kind,
            ),
            final(self).attempt(*final(raw)).plan == old(self).attempt(*old(raw)).plan,
            final(self).identities() == old(self).identities(),
    {
        self.p.failed = true;
        match kind {
            ObservationKind::Failed => {},
            _ => {
                self.observe_raw(raw, at, ObservationKind::Failed);
            },
        }
    }

    fn observe(&mut self, raw: &mut Option<Capture>, at: Stamp, kind: ObservationKind) -> (r: Result<
        (),
        FixtureError,
    >)
        requires
            old(self).attempt(*old(raw)).wf(),
        ensures
            final(self).attempt(*final(raw)).wf(),
            (final(self).attempt(*final(raw)), r) == old(self).attempt(*old(raw)).observed(
                at,
                kind,
            ),
            final(self).attempt(*final(raw)).plan == old(self).attempt(*old(raw)).plan,
            final(self).identities() == old(self).identities(),
    {
        reveal(Attempt::observed);
        if self.plan.schedule.mode != Mode::C {
            return Ok(());
        }
        self.observe_raw(raw, at, kind);
        if self.observations.len() >= MAX_OBSERVATIONS {
            self.p.lost = self.p.lost.saturating_add(1);
            self.fail_observing(raw, at, kind);
            return Err(FixtureError::ObservationCapacity);
        }
        self.observations.push(
            Observation { host_ns: at.host_ns, decision_ns: at.decision_ns, kind },
        );
        if !self.is_raw_healthy(raw) {
            self.fail_observing(raw, at, kind);
            return Err(FixtureError::RawObservation);
        }
        Ok(())
    }

    fn refuse(&mut self, raw: &mut Option<Capture>, at: Stamp)
        requires
            old(self).attempt(*old(raw)).wf(),
        ensures
            final(self).attempt(*final(raw)).wf(),
            final(self).attempt(*final(raw)) == old(self).attempt(*old(raw)).refused(at),
            final(self).attempt(*final(raw)).plan == old(self).attempt(*old(raw)).plan,
            final(self).identities() == old(self).identities(),
    {
        self.p.failed = true;
        let _ = self.observe(raw, at, ObservationKind::Failed);
    }

    fn check_clock(&mut self, raw: &mut Option<Capture>, at: Stamp) -> (r: Result<(), FixtureError>)
        requires
            old(self).attempt(*old(raw)).wf(),
        ensures
            final(self).attempt(*final(raw)).wf(),
            (final(self).attempt(*final(raw)), r) == old(self).attempt(*old(raw)).clocked(at),
            final(self).attempt(*final(raw)).plan == old(self).attempt(*old(raw)).plan,
            final(self).identities() == old(self).identities(),
    {
        if at.decision_ns < self.p.last_decision_ns {
            self.refuse(raw, at);
            return Err(FixtureError::Regressed);
        }
        self.p.last_decision_ns = at.decision_ns;
        Ok(())
    }

    fn refresh(&mut self, raw: &mut Option<Capture>, at: Stamp) -> (r: Result<Phase, FixtureError>)
        requires
            old(self).attempt(*old(raw)).wf(),
        ensures
            final(self).attempt(*final(raw)).wf(),
            (final(self).attempt(*final(raw)), r) == old(self).attempt(*old(raw)).refreshed(at),
            final(self).attempt(*final(raw)).plan == old(self).attempt(*old(raw)).plan,
            r == Ok::<Phase, FixtureError>(Phase::Quiescing) ==> at.decision_ns < old(self).attempt(
                *old(raw),
            ).plan.start_ns,
            final(self).identities() == old(self).identities(),
    {
        reveal(Attempt::refreshed);
        if !self.is_raw_healthy(raw) {
            self.refuse(raw, at);
            return Err(FixtureError::RawUnhealthy);
        }
        if self.p.failed {
            self.refuse(raw, at);
            return Err(FixtureError::AttemptFailed);
        }
        if self.p.closed {
            self.refuse(raw, at);
            return Err(FixtureError::AlreadyClosed);
        }
        self.check_clock(raw, at)?;
        let plan: Schedule = self.plan.schedule;
        let ns: u64 = at.decision_ns;
        let phase: Phase = if ns >= plan.start_ns {
            if self.p.warmup_closed_ns.is_none() {
                self.refuse(raw, at);
                return Err(FixtureError::WarmupOpen);
            }
            if ns >= plan.end_ns {
                Phase::Ended
            } else if ns >= plan.stop_ns {
                Phase::Drain
            } else {
                Phase::Measured
            }
        } else if self.p.warmup_closed_ns.is_some() {
            Phase::Armed
        } else {
            match self.p.first_warmup_ns {
                Some(first) => if ns.saturating_sub(first) >= WARMUP_NS {
                    Phase::Quiescing
                } else {
                    Phase::Warmup
                },
                None => Phase::Warmup,
            }
        };
        if self.p.phase != phase {
            self.p.phase = phase;
            self.observe(raw, at, ObservationKind::Phase(phase))?;
        }
        Ok(phase)
    }

    /// Attaches the recorder, before the attempt is bound to its source.
    pub fn attach_observer(
        &mut self,
        raw: &mut Option<Capture>,
        at: Stamp,
        observer: Capture,
    ) -> (r: Result<(), FixtureError>)
        requires
            old(self).attempt(*old(raw)).wf(),
            observer@.wf(),
        ensures
            final(self).attempt(*final(raw)).wf(),
            ({
                let before = old(self).attempt(*old(raw));
                let after = final(self).attempt(*final(raw));
                let unused = before.plan.mode == Mode::C && !before.p.bound && before.raw is None;
                match r {
                    Ok(()) => unused && after == (Attempt { raw: Some(observer@), ..before }),
                    Err(e) => !unused && e == FixtureError::Sink && after == before.refused(at),
                }
            }),
            final(self).identities() == old(self).identities(),
    {
        if self.plan.schedule.mode != Mode::C || self.p.bound || raw.is_some() {
            self.refuse(raw, at);
            return Err(FixtureError::Sink);
        }
        *raw = Some(observer);
        Ok(())
    }

    /// Binds the attempt to its source, once, if the source is the one expected.
    pub fn bind_source(
        &mut self,
        raw: &mut Option<Capture>,
        at: Stamp,
        bytes: &[u8],
        expected: &[u8],
    ) -> (r: Result<(), FixtureError>)
        requires
            old(self).attempt(*old(raw)).wf(),
        ensures
            final(self).attempt(*final(raw)).wf(),
            ({
                let before = old(self).attempt(*old(raw));
                let after = final(self).attempt(*final(raw));
                let unused = bytes@ == expected@ && !before.p.bound && !before.p.failed;
                match r {
                    Ok(()) => unused && after == (Attempt {
                        p: Progress { bound: true, ..before.p },
                        ..before
                    }),
                    Err(e) => !unused && e == FixtureError::Source && after == before.refused(at),
                }
            }),
            final(self).identities() == old(self).identities(),
    {
        if !same_bytes(bytes, expected) || self.p.bound || self.p.failed {
            self.refuse(raw, at);
            return Err(FixtureError::Source);
        }
        self.p.bound = true;
        Ok(())
    }
}

impl Fixture {
    fn place_of(&self, id: u64) -> (r: Option<usize>)
        ensures
            match r {
                Some(place) => frame_place(self.outstanding@, id, 0) == Some(place as int) && place
                    < self.outstanding@.len(),
                None => frame_place(self.outstanding@, id, 0) is None,
            },
    {
        let mut i: usize = 0;
        while i < self.outstanding.len()
            invariant
                i <= self.outstanding@.len(),
                frame_place(self.outstanding@, id, 0) == frame_place(
                    self.outstanding@,
                    id,
                    i as int,
                ),
            decreases self.outstanding@.len() - i,
        {
            if self.outstanding[i].id == id {
                return Some(i);
            }
            i += 1;
        }
        None
    }

    fn is_carried(&self, token: u64) -> (r: bool)
        ensures
            r == carried(self.outstanding@, token),
    {
        let mut i: usize = 0;
        while i < self.outstanding.len()
            invariant
                i <= self.outstanding@.len(),
                forall|j: int| 0 <= j < i ==> (#[trigger] self.outstanding@[j]).token != token,
            decreases self.outstanding@.len() - i,
        {
            if self.outstanding[i].token == token {
                return true;
            }
            i += 1;
        }
        false
    }

    /// Allocates the next frame. Outside the phases that render, none is allocated.
    pub fn allocate(&mut self, raw: &mut Option<Capture>, at: Stamp) -> (r: Result<
        Option<Frame>,
        FixtureError,
    >)
        requires
            old(self).attempt(*old(raw)).wf(),
        ensures
            final(self).attempt(*final(raw)).wf(),
            (final(self).attempt(*final(raw)), r) == old(self).attempt(*old(raw)).allocated(at),
            final(self).identities() == old(self).identities(),
    {
        let phase: Phase = self.refresh(raw, at)?;
        let plan: Schedule = self.plan.schedule;
        let causal_drain: bool = match self.p.unanswered {
            Some(input) => phase == Phase::Drain && input.receipt.received_ns >= plan.start_ns
                && input.receipt.received_ns < plan.stop_ns && !self.is_carried(input.token),
            None => false,
        };
        if phase != Phase::Warmup && phase != Phase::Measured && !causal_drain {
            self.observe(raw, at, ObservationKind::Suppressed)?;
            return Ok(None);
        }
        if !self.p.bound || self.p.current_frame.is_some() || self.outstanding.len()
            >= MAX_OUTSTANDING {
            self.refuse(raw, at);
            return Err(FixtureError::AllocationContext);
        }
        let id: u64 = match self.p.allocated.checked_add(1) {
            Some(id) => id,
            None => {
                return Err(FixtureError::AllocationOverflow);
            },
        };
        self.p.allocated = id;
        if phase == Phase::Warmup && self.p.first_warmup_ns.is_none() {
            self.p.first_warmup_ns = Some(at.decision_ns);
        }
        let frame = Frame {
            id,
            allocated_ns: at.host_ns,
            decision_ns: at.decision_ns,
            token: self.p.token,
        };
        self.p.current_frame = Some(frame);
        self.outstanding.push(frame);
        self.observe(
            raw,
            at,
            ObservationKind::Allocated { frame_id: frame.id, token: frame.token },
        )?;
        Ok(Some(frame))
    }

    /// Installs the one periodic timer, whose interval is one second divided by the rate.
    pub fn bind_periodic(
        &mut self,
        raw: &mut Option<Capture>,
        at: Stamp,
        id: u64,
        interval: RealBits,
    ) -> (r: Result<(), FixtureError>)
        requires
            old(self).attempt(*old(raw)).wf(),
        ensures
            final(self).attempt(*final(raw)).wf(),
            (final(self).attempt(*final(raw)), r) == old(self).attempt(*old(raw)).periodic_bound(
                at,
                id,
                interval,
            ),
            final(self).identities() == old(self).identities(),
    {
        let expected: u64 = if self.plan.schedule.rate == 30 {
            0x3fa1_1111_1111_1111
        } else {
            0x3f91_1111_1111_1111
        };
        if self.p.periodic.is_some() || interval.bits != expected {
            self.refuse(raw, at);
            return Err(FixtureError::Periodic);
        }
        self.p.periodic = Some(id);
        Ok(())
    }

    /// The periodic timer to be retired: once, when the measured phase is over.
    pub fn retire_periodic(&mut self, raw: &mut Option<Capture>, at: Stamp) -> (r: Result<
        Option<u64>,
        FixtureError,
    >)
        requires
            old(self).attempt(*old(raw)).wf(),
        ensures
            final(self).attempt(*final(raw)).wf(),
            (final(self).attempt(*final(raw)), r) == old(self).attempt(*old(raw)).periodic_retired(at),
            final(self).identities() == old(self).identities(),
    {
        self.refresh(raw, at)?;
        if at.decision_ns < self.plan.schedule.stop_ns || self.p.retired {
            return Ok(None);
        }
        self.p.retired = true;
        let periodic: Option<u64> = self.p.periodic;
        if let Some(timer_id) = periodic {
            self.observe(raw, at, ObservationKind::PeriodicRetired { timer_id })?;
        }
        Ok(periodic)
    }

    /// The phase now.
    pub fn status(&mut self, raw: &mut Option<Capture>, at: Stamp) -> (r: Result<
        Phase,
        FixtureError,
    >)
        requires
            old(self).attempt(*old(raw)).wf(),
        ensures
            final(self).attempt(*final(raw)).wf(),
            (final(self).attempt(*final(raw)), r) == old(self).attempt(*old(raw)).refreshed(at),
            final(self).identities() == old(self).identities(),
    {
        self.refresh(raw, at)
    }

    /// A frame was presented, discarded or failed at a time on the deciding clock. Such
    /// news follow the order of the events.
    pub fn resolve_frame(
        &mut self,
        raw: &mut Option<Capture>,
        at: Stamp,
        id: u64,
        resolution: Resolution,
        resolved_ns: u64,
    ) -> (r: Result<(), FixtureError>)
        requires
            old(self).attempt(*old(raw)).wf(),
        ensures
            final(self).attempt(*final(raw)).wf(),
            (final(self).attempt(*final(raw)), r) == old(self).attempt(*old(raw)).resolved(
                at,
                id,
                resolution,
                resolved_ns,
            ),
            final(self).identities() == old(self).identities(),
    {
        self.check_clock(raw, at)?;
        let place: usize = match self.place_of(id) {
            Some(place) => place,
            None => {
                self.refuse(raw, at);
                return Err(FixtureError::UnknownFrame);
            },
        };
        if resolved_ns < self.outstanding[place].decision_ns || resolved_ns
            < self.p.coordinator_frontier_ns || resolved_ns > at.decision_ns || self.p.closed {
            self.refuse(raw, at);
            return Err(FixtureError::Endpoint);
        }
        let frame: Frame = self.take_frame(raw, place, resolved_ns);
        self.observe(
            raw,
            at,
            ObservationKind::Resolved { frame_id: id, resolution, resolved_ns },
        )?;
        if resolution == Resolution::Failed || resolved_ns > self.plan.schedule.end_ns {
            self.refuse(raw, at);
            return Err(FixtureError::Resolution);
        }
        self.answer(raw, at, id, frame.token, resolution, resolved_ns)
    }

    /// Takes a frame from those that are outstanding.
    fn take_frame(&mut self, raw: &Option<Capture>, place: usize, resolved_ns: u64) -> (frame: Frame)
        requires
            old(self).attempt(*raw).wf(),
            place < old(self).attempt(*raw).outstanding.len(),
        ensures
            ({
                let before = old(self).attempt(*raw);
                &&& frame == before.outstanding[place as int]
                &&& final(self).attempt(*raw) == (Attempt {
                    p: Progress { coordinator_frontier_ns: resolved_ns, ..before.p },
                    outstanding: before.without(place as int),
                    ..before
                })
            }),
            final(self).attempt(*raw).wf(),
            final(self).identities() == old(self).identities(),
    {
        let ghost before = self.outstanding@;
        self.p.coordinator_frontier_ns = resolved_ns;
        let frame: Frame = self.outstanding.swap_remove(place);
        proof {
            let after = self.outstanding@;
            assert forall|i: int| 0 <= i < after.len() implies #[trigger] after[i] == (if i
                == place {
                before[before.len() - 1]
            } else {
                before[i]
            }) by {}
        }
        frame
    }

    /// A frame that was presented answers the touch whose token it carries.
    fn answer(
        &mut self,
        raw: &mut Option<Capture>,
        at: Stamp,
        id: u64,
        token: u64,
        resolution: Resolution,
        resolved_ns: u64,
    ) -> (r: Result<(), FixtureError>)
        requires
            old(self).attempt(*old(raw)).wf(),
        ensures
            final(self).attempt(*final(raw)).wf(),
            (final(self).attempt(*final(raw)), r) == old(self).attempt(*old(raw)).answered(
                at,
                id,
                token,
                resolution,
                resolved_ns,
            ),
            final(self).identities() == old(self).identities(),
    {
        if resolution != Resolution::Presented {
            return Ok(());
        }
        match self.p.unanswered {
            Some(input) => {
                if input.token != token {
                    return Ok(());
                }
                self.p.unanswered = None;
                self.p.receipt_unanswered = None;
                self.observe(
                    raw,
                    at,
                    ObservationKind::ResponseConfirmed {
                        receipt_sequence: input.receipt.sequence,
                        frame_id: id,
                        token: input.token,
                        responded_ns: resolved_ns,
                    },
                )
            },
            None => Ok(()),
        }
    }

    fn is_settled(&self) -> (r: bool)
        ensures
            forall|raw: Option<Capture>| r == (#[trigger] self.attempt(raw)).settled(),
    {
        self.p.receipt_contact.is_none() && self.p.receipt_unanswered.is_none()
            && self.outstanding.len() == 0 && self.receipts.len() == 0 && self.p.delivery.is_none()
            && self.p.contact.is_none() && self.p.unanswered.is_none()
    }

    /// Closes the warmup.
    pub fn confirm_warmup_closed(&mut self, raw: &mut Option<Capture>, at: Stamp) -> (r: Result<
        (),
        FixtureError,
    >)
        requires
            old(self).attempt(*old(raw)).wf(),
        ensures
            final(self).attempt(*final(raw)).wf(),
            (final(self).attempt(*final(raw)), r) == old(self).attempt(*old(raw)).warmup_closed(at),
            final(self).identities() == old(self).identities(),
    {
        let phase: Phase = self.refresh(raw, at)?;
        if phase != Phase::Quiescing || !self.is_settled() || self.p.periodic.is_none() {
            self.refuse(raw, at);
            return Err(FixtureError::WarmupClosure);
        }
        self.observe(raw, at, ObservationKind::WarmupClosed)?;
        self.p.warmup_closed_ns = Some(at.decision_ns);
        self.p.phase = Phase::Armed;
        Ok(())
    }

    /// Closes the attempt.
    pub fn finish(&mut self, raw: &mut Option<Capture>, at: Stamp) -> (r: Result<(), FixtureError>)
        requires
            old(self).attempt(*old(raw)).wf(),
        ensures
            final(self).attempt(*final(raw)).wf(),
            (final(self).attempt(*final(raw)), r) == old(self).attempt(*old(raw)).finished(at),
            final(self).identities() == old(self).identities(),
    {
        let phase: Phase = self.refresh(raw, at)?;
        if phase != Phase::Ended || !self.is_settled() {
            self.refuse(raw, at);
            return Err(FixtureError::Closure);
        }
        self.observe(raw, at, ObservationKind::Closed)?;
        self.p.closed = true;
        Ok(())
    }

    fn check_receipt(&self, at: Stamp, receipt: Receipt) -> (r: Option<FixtureError>)
        ensures
            forall|raw: Option<Capture>|
                r == (#[trigger] self.attempt(raw)).receipt_error(at, receipt),
    {
        let plan: Schedule = self.plan.schedule;
        let ns: u64 = receipt.received_ns;
        let phase: TouchPhase = receipt.event.phase;
        if self.p.last_receipt_sequence == 0xffff_ffff_ffff_ffff || receipt.sequence
            != self.p.last_receipt_sequence + 1 || ns < self.p.last_receipt_ns || ns
            < self.p.coordinator_frontier_ns || ns > at.decision_ns || self.receipts.len()
            >= MAX_OUTSTANDING || self.p.closed {
            return Some(FixtureError::ReceiptContext);
        }
        if ns > plan.end_ns || (self.p.warmup_closed_ns.is_some() && ns < plan.start_ns) || (ns
            >= plan.start_ns && !plan.causal) || (ns >= plan.stop_ns && phase == TouchPhase::Down)
            || phase == TouchPhase::Cancel {
            return Some(FixtureError::UnexpectedInput);
        }
        if phase == TouchPhase::Down {
            if self.p.receipt_contact.is_some() || self.p.receipt_unanswered.is_some() {
                return Some(FixtureError::ConcurrentDown);
            }
        } else {
            match self.p.receipt_contact {
                Some(contact) => {
                    if contact != receipt.event.id {
                        return Some(FixtureError::ReceiptOrder);
                    }
                },
                None => {
                    return Some(FixtureError::ReceiptOrder);
                },
            }
        }
        None
    }

    /// Takes a receipt. On which side of a phase it falls is decided by the time at which
    /// it was received, never by its delivery or by the time that the touch carries.
    pub fn receive(&mut self, raw: &mut Option<Capture>, at: Stamp, receipt: Receipt) -> (r: Result<
        (),
        FixtureError,
    >)
        requires
            old(self).attempt(*old(raw)).wf(),
        ensures
            final(self).attempt(*final(raw)).wf(),
            (final(self).attempt(*final(raw)), r) == old(self).attempt(*old(raw)).received(
                at,
                receipt,
            ),
            final(self).identities() == old(self).identities(),
    {
        self.observe(
            raw,
            at,
            ObservationKind::ReceiptSupplied {
                receipt_sequence: receipt.sequence,
                received_ns: receipt.received_ns,
                contact: receipt.event.id,
                phase: receipt.event.phase,
            },
        )?;
        self.check_clock(raw, at)?;
        if let Some(why) = self.check_receipt(at, receipt) {
            self.refuse(raw, at);
            return Err(why);
        }
        match receipt.event.phase {
            TouchPhase::Down => {
                self.p.receipt_contact = Some(receipt.event.id);
                self.p.receipt_unanswered = Some(receipt.sequence);
            },
            TouchPhase::Up => {
                self.p.receipt_contact = None;
            },
            _ => {},
        }
        self.p.last_receipt_sequence = receipt.sequence;
        self.p.last_receipt_ns = receipt.received_ns;
        self.p.coordinator_frontier_ns = receipt.received_ns;
        self.receipts.push(receipt);
        Ok(())
    }

    fn check_delivery(&self, event: TouchEvent) -> (r: Option<FixtureError>)
        ensures
            forall|raw: Option<Capture>| r == (#[trigger] self.attempt(raw)).delivery_error(event),
    {
        if self.p.delivery.is_some() || self.receipts.len() == 0 || !self.receipts[0].event.equals(
            &event,
        ) {
            return Some(FixtureError::MissingReceipt);
        }
        match event.phase {
            TouchPhase::Down => if self.p.contact.is_some() || self.p.unanswered.is_some() {
                Some(FixtureError::ConcurrentContact)
            } else {
                None
            },
            TouchPhase::Cancel => Some(FixtureError::Cancelled),
            _ => match self.p.contact {
                Some(contact) => if contact != event.id {
                    Some(FixtureError::ContactOrder)
                } else {
                    None
                },
                None => Some(FixtureError::ContactOrder),
            },
        }
    }

    /// Begins to deliver a touch, which has to be the one that was received first.
    pub fn enter_delivery(&mut self, raw: &mut Option<Capture>, at: Stamp, event: TouchEvent) -> (r:
        Result<(), FixtureError>)
        requires
            old(self).attempt(*old(raw)).wf(),
        ensures
            final(self).attempt(*final(raw)).wf(),
            (final(self).attempt(*final(raw)), r) == old(self).attempt(*old(raw)).delivered(
                at,
                event,
            ),
            final(self).identities() == old(self).identities(),
    {
        self.refresh(raw, at)?;
        if at.decision_ns > self.plan.schedule.end_ns {
            self.refuse(raw, at);
            return Err(FixtureError::LateDelivery);
        }
        let error: Option<FixtureError> = self.check_delivery(event);
        let ghost now = self.attempt(*raw);
        if self.receipts.len() == 0 {
            self.refuse(raw, at);
            return Err(FixtureError::MissingReceipt);
        }
        let receipt: Receipt = self.receipts.remove(0);
        assert(self.receipts@ =~= now.receipts.drop_first());
        if let Some(why) = error {
            self.refuse(raw, at);
            return Err(why);
        }
        match event.phase {
            TouchPhase::Down => {
                self.p.contact = Some(event.id);
            },
            TouchPhase::Up => {
                self.p.contact = None;
            },
            _ => {},
        }
        self.p.delivery = Some(Delivery { receipt, mutated: false });
        self.observe(raw, at, ObservationKind::Delivered { receipt_sequence: receipt.sequence })
    }

    /// Changes the token: during the delivery of a touch that began, exactly once.
    pub fn advance_token(&mut self, raw: &mut Option<Capture>, at: Stamp) -> (r: Result<
        u64,
        FixtureError,
    >)
        requires
            old(self).attempt(*old(raw)).wf(),
        ensures
            final(self).attempt(*final(raw)).wf(),
            (final(self).attempt(*final(raw)), r) == old(self).attempt(*old(raw)).token_advanced(at),
            final(self).identities() == old(self).identities(),
    {
        self.check_clock(raw, at)?;
        let receipt: Receipt = match self.p.delivery {
            Some(d) => if d.receipt.event.phase == TouchPhase::Down && !d.mutated && self.p.token
                < LATEST_NS {
                d.receipt
            } else {
                self.refuse(raw, at);
                return Err(FixtureError::TokenMutation);
            },
            None => {
                self.refuse(raw, at);
                return Err(FixtureError::TokenMutation);
            },
        };
        let previous: u64 = self.p.token;
        let token: u64 = previous + 1;
        self.p.token = token;
        self.p.delivery = Some(Delivery { receipt, mutated: true });
        self.p.unanswered = Some(PendingInput { receipt, token });
        self.observe(
            raw,
            at,
            ObservationKind::TokenMutated { receipt_sequence: receipt.sequence, previous, token },
        )?;
        Ok(token)
    }

    /// Ends the delivery of a touch.
    pub fn exit_delivery(&mut self, raw: &mut Option<Capture>, at: Stamp, success: bool) -> (r:
        Result<(), FixtureError>)
        requires
            old(self).attempt(*old(raw)).wf(),
        ensures
            final(self).attempt(*final(raw)).wf(),
            (final(self).attempt(*final(raw)), r) == old(self).attempt(*old(raw)).delivery_left(
                at,
                success,
            ),
            final(self).identities() == old(self).identities(),
    {
        self.check_clock(raw, at)?;
        let complete: bool = match self.p.delivery {
            Some(d) => success && (d.receipt.event.phase != TouchPhase::Down || d.mutated),
            None => false,
        };
        self.p.delivery = None;
        if !complete {
            self.refuse(raw, at);
            return Err(FixtureError::CallbackFailed);
        }
        Ok(())
    }

    /// Fails the attempt for a reason outside it. Without a time nothing is observed.
    pub fn fail_runtime(&mut self, raw: &mut Option<Capture>, at: Option<Stamp>)
        requires
            old(self).attempt(*old(raw)).wf(),
        ensures
            final(self).attempt(*final(raw)).wf(),
            final(self).attempt(*final(raw)) == old(self).attempt(*old(raw)).runtime_failed(at),
            final(self).identities() == old(self).identities(),
    {
        if !self.p.failed {
            self.p.failed = true;
            if let Some(at) = at {
                let _ = self.observe(raw, at, ObservationKind::Failed);
            }
        }
    }

    /// Refuses an attempt that failed or is closed.
    pub fn ensure_runtime_active(&self) -> (r: Result<(), FixtureError>)
        ensures
            forall|raw: Option<Capture>|
                r is Ok == (!(#[trigger] self.attempt(raw)).p.failed && !self.attempt(
                    raw,
                ).p.closed),
            r matches Err(e) ==> e == FixtureError::Inactive,
    {
        if self.p.failed || self.p.closed {
            return Err(FixtureError::Inactive);
        }
        Ok(())
    }

    /// A render is over: no frame is current.
    pub fn finish_render(&mut self)
        ensures
            forall|raw: Option<Capture>|
                {
                    let before = old(self).attempt(raw);
                    &&& (#[trigger] final(self).attempt(raw)) == (Attempt {
                        p: Progress { current_frame: None, ..before.p },
                        ..before
                    })
                    &&& before.wf() ==> final(self).attempt(raw).wf()
                },
            final(self).identities() == old(self).identities(),
    {
        self.p.current_frame = None;
    }

    /// The frame that is being rendered.
    pub fn frame(&self) -> (r: Result<Frame, FixtureError>)
        ensures
            forall|raw: Option<Capture>|
                r == (match (#[trigger] self.attempt(raw)).p.current_frame {
                    Some(frame) => Ok::<Frame, FixtureError>(frame),
                    None => Err(FixtureError::NoFrame),
                }),
    {
        match self.p.current_frame {
            Some(frame) => Ok(frame),
            None => Err(FixtureError::NoFrame),
        }
    }

    /// Whether frames carry a marker.
    pub fn marker_enabled(&self) -> (r: bool)
        ensures
            forall|raw: Option<Capture>|
                r == ((#[trigger] self.attempt(raw)).plan.mode != Mode::A),
    {
        self.plan.schedule.mode != Mode::A
    }

    /// What the marker of the current frame says. A token of zero names no input.
    pub fn frame_identity(&self) -> (r: Result<FrameIdentity, FixtureError>)
        ensures
            forall|raw: Option<Capture>|
                match ((#[trigger] self.attempt(raw)).p.current_frame, r) {
                    (Some(frame), Ok(identity)) => {
                        &&& identity.frame_id == frame.id
                        &&& identity.input == (if frame.token == 0 {
                            None
                        } else {
                            Some(frame.token)
                        })
                        &&& (identity.run@, identity.generation@) == self.identities()
                    },
                    (None, Err(e)) => e == FixtureError::NoFrame,
                    _ => false,
                },
    {
        let frame: Frame = self.frame()?;
        let input: Option<u64> = if frame.token == 0 {
            None
        } else {
            Some(frame.token)
        };
        Ok(
            FrameIdentity {
                run: copy_bytes(self.plan.run.as_slice()),
                generation: copy_bytes(self.plan.generation.as_slice()),
                frame_id: frame.id,
                input,
            },
        )
    }

    /// What is known of the attempt.
    pub fn report(&self) -> (r: FixtureReport)
        ensures
            forall|raw: Option<Capture>|
                {
                    let p = (#[trigger] self.attempt(raw)).p;
                    &&& r.synthetic == p.synthetic
                    &&& r.allocated == p.allocated
                    &&& r.phase == p.phase
                    &&& r.warmup_closed_ns == p.warmup_closed_ns
                    &&& r.failed == p.failed
                    &&& r.closed == p.closed
                    &&& r.lost == p.lost
                    &&& r.observations@ == self.attempt(raw).observations
                },
    {
        let mut observations: Vec<Observation> = Vec::new();
        let mut i: usize = 0;
        while i < self.observations.len()
            invariant
                i <= self.observations@.len(),
                observations@ == self.observations@.take(i as int),
            decreases self.observations@.len() - i,
        {
            observations.push(self.observations[i]);
            i += 1;
            assert(self.observations@.take(i as int) =~= self.observations@.take(i - 1).push(
                self.observations@[i - 1],
            ));
        }
        assert(self.observations@.take(i as int) =~= self.observations@);
        FixtureReport {
            synthetic: self.p.synthetic,
            allocated: self.p.allocated,
            phase: self.p.phase,
            warmup_closed_ns: self.p.warmup_closed_ns,
            failed: self.p.failed,
            closed: self.p.closed,
            lost: self.p.lost,
            observations,
        }
    }
}

} // verus!
