//! A measured attempt: its plan, its state, and what each step does to it.
//!
//! An attempt warms up, is armed before its start, is measured for a minute, drains
//! for two seconds and ends. Every step carries the time at which it was decided. A
//! step that breaks the rules fails the attempt for good.
use vstd::prelude::*;

use crate::events::{EventKind, Mode, ObservationKind, Phase, Resolution};
use crate::hardware::{RealBits, TouchEvent, TouchPhase};
use crate::marker::identity_bytes;
use crate::observer::{plus_one, CaptureView};

verus! {

/// The most observations that an attempt keeps.
pub const MAX_OBSERVATIONS: usize = 16_384;

/// The most frames that are unresolved, and receipts that are undelivered, at once.
pub const MAX_OUTSTANDING: usize = 64;

/// The least length of a warmup.
pub const WARMUP_NS: u64 = 5_000_000_000;

/// The length of the measured phase.
pub const MEASURED_NS: u64 = 60_000_000_000;

/// The length of the drain.
pub const DRAIN_NS: u64 = 2_000_000_000;

/// The latest end that a script can count.
pub const LATEST_NS: u64 = 0x7fff_ffff_ffff_ffff;

/// Why a fixture refuses.
#[derive(Clone, Copy, Debug, PartialEq, Eq, Structural)]
pub enum FixtureError {
    Identity,
    Rate,
    StopOverflow,
    EndOverflow,
    TimeRange,
    CausalRate,
    PastEpoch,
    ObservationCapacity,
    RawObservation,
    Regressed,
    RawUnhealthy,
    AttemptFailed,
    AlreadyClosed,
    WarmupOpen,
    Sink,
    Source,
    AllocationContext,
    AllocationOverflow,
    Periodic,
    UnknownFrame,
    Endpoint,
    Resolution,
    WarmupClosure,
    Closure,
    ReceiptContext,
    UnexpectedInput,
    ConcurrentDown,
    ReceiptOrder,
    LateDelivery,
    MissingReceipt,
    ConcurrentContact,
    ContactOrder,
    Cancelled,
    TokenMutation,
    CallbackFailed,
    Inactive,
    NoFrame,
}

impl FixtureError {
    /// The words of an error.
    pub open spec fn text(self) -> Seq<char> {
        match self {
            FixtureError::Identity => "invalid fixture identity"@,
            FixtureError::Rate => "P1 requires 30 or 60 Hz"@,
            FixtureError::StopOverflow => "fixture stop overflow"@,
            FixtureError::EndOverflow => "fixture end overflow"@,
            FixtureError::TimeRange => "fixture time outside Lua integer range"@,
            FixtureError::CausalRate => "P1 causal case uses 30 Hz"@,
            FixtureError::PastEpoch => "fixture epoch must be future"@,
            FixtureError::ObservationCapacity => "fixture local observation capacity exhausted"@,
            FixtureError::RawObservation =>
            "fixture raw source lost an observation or is unhealthy"@,
            FixtureError::Regressed => "fixture clock regressed"@,
            FixtureError::RawUnhealthy => "fixture raw source is closed or unhealthy"@,
            FixtureError::AttemptFailed => "fixture attempt has failed"@,
            FixtureError::AlreadyClosed => "fixture already closed"@,
            FixtureError::WarmupOpen => "warmup was not closed strictly before T"@,
            FixtureError::Sink => "fixture sink requires unused C capability"@,
            FixtureError::Source =>
            "private fixture source does not match reviewed bytes, or capability already used"@,
            FixtureError::AllocationContext => "invalid or exhausted fixture allocation context"@,
            FixtureError::AllocationOverflow => "fixture allocation ID overflow"@,
            FixtureError::Periodic => "fixture must install its single declared periodic timer"@,
            FixtureError::UnknownFrame => "unknown or repeated frame resolution"@,
            FixtureError::Endpoint => "out-of-order or impossible coordinator terminal endpoint"@,
            FixtureError::Resolution => "failed or late frame resolution"@,
            FixtureError::WarmupClosure =>
            "warmup closure requires five seconds and resolved work before T"@,
            FixtureError::Closure => "fixture closure requires E and resolved work"@,
            FixtureError::ReceiptContext =>
            "invalid, out-of-order or exhausted coordinator receipt context"@,
            FixtureError::UnexpectedInput => "unexpected input for fixture case or phase"@,
            FixtureError::ConcurrentDown => "concurrent or unanswered down at trusted receipt"@,
            FixtureError::ReceiptOrder => "broken trusted receipt contact order"@,
            FixtureError::LateDelivery => "callback delivery after E"@,
            FixtureError::MissingReceipt => "missing or mismatched trusted receipt for callback"@,
            FixtureError::ConcurrentContact => "concurrent contact or unanswered token"@,
            FixtureError::ContactOrder => "broken contact ordering"@,
            FixtureError::Cancelled => "cancelled isolated contact"@,
            FixtureError::TokenMutation =>
            "token mutation requires the delivered down callback exactly once"@,
            FixtureError::CallbackFailed => "failed callback or missing down-token mutation"@,
            FixtureError::Inactive => "fixture is failed or closed"@,
            FixtureError::NoFrame => "fixture identity only available during rendering"@,
        }
    }

    /// The words of this error.
    pub fn message(self) -> (s: &'static str)
        ensures
            s@ == self.text(),
    {
        match self {
            FixtureError::Identity => "invalid fixture identity",
            FixtureError::Rate => "P1 requires 30 or 60 Hz",
            FixtureError::StopOverflow => "fixture stop overflow",
            FixtureError::EndOverflow => "fixture end overflow",
            FixtureError::TimeRange => "fixture time outside Lua integer range",
            FixtureError::CausalRate => "P1 causal case uses 30 Hz",
            FixtureError::PastEpoch => "fixture epoch must be future",
            FixtureError::ObservationCapacity => "fixture local observation capacity exhausted",
            FixtureError::RawObservation =>
            "fixture raw source lost an observation or is unhealthy",
            FixtureError::Regressed => "fixture clock regressed",
            FixtureError::RawUnhealthy => "fixture raw source is closed or unhealthy",
            FixtureError::AttemptFailed => "fixture attempt has failed",
            FixtureError::AlreadyClosed => "fixture already closed",
            FixtureError::WarmupOpen => "warmup was not closed strictly before T",
            FixtureError::Sink => "fixture sink requires unused C capability",
            FixtureError::Source =>
            "private fixture source does not match reviewed bytes, or capability already used",
            FixtureError::AllocationContext => "invalid or exhausted fixture allocation context",
            FixtureError::AllocationOverflow => "fixture allocation ID overflow",
            FixtureError::Periodic => "fixture must install its single declared periodic timer",
            FixtureError::UnknownFrame => "unknown or repeated frame resolution",
            FixtureError::Endpoint => "out-of-order or impossible coordinator terminal endpoint",
            FixtureError::Resolution => "failed or late frame resolution",
            FixtureError::WarmupClosure =>
            "warmup closure requires five seconds and resolved work before T",
            FixtureError::Closure => "fixture closure requires E and resolved work",
            FixtureError::ReceiptContext =>
            "invalid, out-of-order or exhausted coordinator receipt context",
            FixtureError::UnexpectedInput => "unexpected input for fixture case or phase",
            FixtureError::ConcurrentDown => "concurrent or unanswered down at trusted receipt",
            FixtureError::ReceiptOrder => "broken trusted receipt contact order",
            FixtureError::LateDelivery => "callback delivery after E",
            FixtureError::MissingReceipt => "missing or mismatched trusted receipt for callback",
            FixtureError::ConcurrentContact => "concurrent contact or unanswered token",
            FixtureError::ContactOrder => "broken contact ordering",
            FixtureError::Cancelled => "cancelled isolated contact",
            FixtureError::TokenMutation =>
            "token mutation requires the delivered down callback exactly once",
            FixtureError::CallbackFailed => "failed callback or missing down-token mutation",
            FixtureError::Inactive => "fixture is failed or closed",
            FixtureError::NoFrame => "fixture identity only available during rendering",
        }
    }
}

/// When an attempt runs, and how.
#[derive(Clone, Copy, Debug, PartialEq, Eq, Structural)]
pub struct Schedule {
    pub start_ns: u64,
    pub stop_ns: u64,
    pub end_ns: u64,
    pub rate: u32,
    pub mode: Mode,
    pub causal: bool,
}

impl Schedule {
    /// The phases follow each other, and the rate is one of two.
    pub open spec fn wf(self) -> bool {
        &&& self.stop_ns == self.start_ns + MEASURED_NS
        &&& self.end_ns == self.stop_ns + DRAIN_NS
        &&& self.end_ns <= LATEST_NS
        &&& self.rate == 30 || self.rate == 60
        &&& self.causal ==> self.rate == 30
    }
}

/// An identity that a marker can carry.
pub open spec fn valid_identity(s: Seq<u8>) -> bool {
    1 <= s.len() <= 128 && identity_bytes(s)
}

/// Why a plan is refused.
pub open spec fn plan_error(
    run: Seq<u8>,
    generation: Seq<u8>,
    start_ns: u64,
    rate: u32,
) -> Option<FixtureError> {
    if !valid_identity(run) || !valid_identity(generation) {
        Some(FixtureError::Identity)
    } else if rate != 30 && rate != 60 {
        Some(FixtureError::Rate)
    } else if start_ns + MEASURED_NS > u64::MAX {
        Some(FixtureError::StopOverflow)
    } else if start_ns + MEASURED_NS + DRAIN_NS > u64::MAX {
        Some(FixtureError::EndOverflow)
    } else if start_ns + MEASURED_NS + DRAIN_NS > LATEST_NS {
        Some(FixtureError::TimeRange)
    } else {
        None
    }
}

/// The schedule of a plan.
pub open spec fn planned(start_ns: u64, rate: u32, mode: Mode, causal: bool) -> Schedule {
    Schedule {
        start_ns,
        stop_ns: (start_ns + MEASURED_NS) as u64,
        end_ns: (start_ns + MEASURED_NS + DRAIN_NS) as u64,
        rate,
        mode,
        causal,
    }
}

/// The time of a step: on the host's clock, and on the clock that decides.
#[derive(Clone, Copy, Debug, PartialEq, Eq, Structural)]
pub struct Stamp {
    pub host_ns: u64,
    pub decision_ns: u64,
}

/// One observation of an attempt.
#[derive(Clone, Copy, Debug)]
pub struct Observation {
    pub host_ns: u64,
    pub decision_ns: u64,
    pub kind: ObservationKind,
}

/// A frame that was allocated.
#[derive(Clone, Copy, Debug, PartialEq, Eq, Structural)]
pub struct Frame {
    pub id: u64,
    pub allocated_ns: u64,
    pub decision_ns: u64,
    pub token: u64,
}

/// A touch with the number and time at which it was received.
#[derive(Clone, Copy, Debug)]
pub struct Receipt {
    pub sequence: u64,
    pub received_ns: u64,
    pub event: TouchEvent,
}

/// A touch that a frame has yet to answer.
#[derive(Clone, Copy, Debug)]
pub struct PendingInput {
    pub receipt: Receipt,
    pub token: u64,
}

/// A touch that is being delivered.
#[derive(Clone, Copy, Debug)]
pub struct Delivery {
    pub receipt: Receipt,
    pub mutated: bool,
}

/// How far an attempt has come.
#[derive(Clone, Copy, Debug)]
pub struct Progress {
    pub bound: bool,
    pub last_receipt_sequence: u64,
    pub last_receipt_ns: u64,
    pub coordinator_frontier_ns: u64,
    pub delivery: Option<Delivery>,
    pub contact: Option<u32>,
    pub receipt_contact: Option<u32>,
    pub receipt_unanswered: Option<u64>,
    pub token: u64,
    pub unanswered: Option<PendingInput>,
    pub first_warmup_ns: Option<u64>,
    pub last_decision_ns: u64,
    pub periodic: Option<u64>,
    pub retired: bool,
    pub current_frame: Option<Frame>,
    pub synthetic: bool,
    pub allocated: u64,
    pub phase: Phase,
    pub warmup_closed_ns: Option<u64>,
    pub failed: bool,
    pub closed: bool,
    pub lost: u64,
}

/// The progress of an attempt that has just begun.
pub open spec fn initial_progress(at: Stamp, synthetic: bool) -> Progress {
    Progress {
        bound: false,
        last_receipt_sequence: 0,
        last_receipt_ns: at.decision_ns,
        coordinator_frontier_ns: at.decision_ns,
        delivery: None,
        contact: None,
        receipt_contact: None,
        receipt_unanswered: None,
        token: 0,
        unanswered: None,
        first_warmup_ns: None,
        last_decision_ns: at.decision_ns,
        periodic: None,
        retired: false,
        current_frame: None,
        synthetic,
        allocated: 0,
        phase: Phase::Warmup,
        warmup_closed_ns: None,
        failed: false,
        closed: false,
        lost: 0,
    }
}

/// The interval of a periodic timer: one second divided by the rate.
pub open spec fn interval_bits(rate: u32) -> u64 {
    if rate == 30 {
        0x3fa1_1111_1111_1111
    } else {
        0x3f91_1111_1111_1111
    }
}

/// An attempt, with the recorder that it reports to, where there is one.
pub struct Attempt {
    pub plan: Schedule,
    pub p: Progress,
    pub receipts: Seq<Receipt>,
    pub outstanding: Seq<Frame>,
    pub observations: Seq<Observation>,
    pub raw: Option<CaptureView>,
}

/// The place of frame `id` at or behind `from`.
pub open spec fn frame_place(frames: Seq<Frame>, id: u64, from: int) -> Option<int>
    decreases frames.len() - from,
{
    if from < 0 || from >= frames.len() {
        None
    } else if frames[from].id == id {
        Some(from)
    } else {
        frame_place(frames, id, from + 1)
    }
}

/// Some frame carries `token`.
pub open spec fn carried(frames: Seq<Frame>, token: u64) -> bool {
    exists|i: int| 0 <= i < frames.len() && (#[trigger] frames[i]).token == token
}

impl Attempt {
    /// The bounds and links that every step keeps.
    pub open spec fn wf(self) -> bool {
        &&& self.plan.wf()
        &&& self.receipts.len() <= MAX_OUTSTANDING
        &&& self.outstanding.len() <= MAX_OUTSTANDING
        &&& self.observations.len() <= MAX_OBSERVATIONS
        &&& self.raw matches Some(c) ==> c.wf()
        &&& self.p.token <= LATEST_NS
        &&& self.p.warmup_closed_ns matches Some(t) ==> t < self.plan.start_ns
        &&& forall|i: int|
            0 <= i < self.outstanding.len() ==> 1 <= (#[trigger] self.outstanding[i]).id
                <= self.p.allocated && self.outstanding[i].token <= self.p.token
        &&& forall|i: int, j: int|
            0 <= i < j < self.outstanding.len() ==> (#[trigger] self.outstanding[i]).id != (
            #[trigger] self.outstanding[j]).id
    }

    /// The recorder, where there is one, is open and healthy.
    pub open spec fn raw_healthy(self) -> bool {
        self.raw matches Some(c) ==> c.healthy(false)
    }

    /// Reports to the recorder alone.
    pub open spec fn reported(self, at: Stamp, kind: ObservationKind) -> Attempt {
        Attempt {
            raw: match self.raw {
                Some(c) => Some(
                    c.after(
                        Some(at.host_ns),
                        EventKind::FixtureObserved {
                            synthetic: self.p.synthetic,
                            decision_ns: at.decision_ns,
                            kind,
                        },
                    ),
                ),
                None => None,
            },
            ..self
        }
    }

    /// The attempt failed while it observed `kind`: the failure itself is reported,
    /// unless it was the failure that was being observed.
    pub open spec fn failed_observing(self, at: Stamp, kind: ObservationKind) -> Attempt {
        let failed = Attempt { p: Progress { failed: true, ..self.p }, ..self };
        if kind is Failed {
            failed
        } else {
            failed.reported(at, ObservationKind::Failed)
        }
    }

    /// Observes `kind`. Only one mode observes. Losing an observation fails the attempt.
    #[verifier::opaque]
    pub open spec fn observed(self, at: Stamp, kind: ObservationKind) -> (
        Attempt,
        Result<(), FixtureError>,
    ) {
        let reported = self.reported(at, kind);
        if self.plan.mode != Mode::C {
            (self, Ok(()))
        } else if self.observations.len() >= MAX_OBSERVATIONS {
            let lossy = Attempt {
                p: Progress { lost: plus_one(self.p.lost), ..reported.p },
                ..reported
            };
            (lossy.failed_observing(at, kind), Err(FixtureError::ObservationCapacity))
        } else {
            let kept = Attempt {
                observations: self.observations.push(
                    Observation { host_ns: at.host_ns, decision_ns: at.decision_ns, kind },
                ),
                ..reported
            };
            if kept.raw_healthy() {
                (kept, Ok(()))
            } else {
                (kept.failed_observing(at, kind), Err(FixtureError::RawObservation))
            }
        }
    }

    /// A broken rule fails the attempt, and the failure is observed.
    pub open spec fn refused(self, at: Stamp) -> Attempt {
        (Attempt { p: Progress { failed: true, ..self.p }, ..self }).observed(
            at,
            ObservationKind::Failed,
        ).0
    }

    /// The attempt once its last decision was at a time.
    pub open spec fn ticked(self, at: Stamp) -> Attempt {
        Attempt { p: Progress { last_decision_ns: at.decision_ns, ..self.p }, ..self }
    }

    /// Why no further step is taken.
    pub open spec fn standstill(self, at: Stamp) -> Option<FixtureError> {
        if !self.raw_healthy() {
            Some(FixtureError::RawUnhealthy)
        } else if self.p.failed {
            Some(FixtureError::AttemptFailed)
        } else if self.p.closed {
            Some(FixtureError::AlreadyClosed)
        } else if at.decision_ns < self.p.last_decision_ns {
            Some(FixtureError::Regressed)
        } else {
            None
        }
    }

    /// The phase at a time.
    pub open spec fn phase_at(self, ns: u64) -> Phase {
        if ns >= self.plan.end_ns {
            Phase::Ended
        } else if ns >= self.plan.stop_ns {
            Phase::Drain
        } else if ns >= self.plan.start_ns {
            Phase::Measured
        } else if self.p.warmup_closed_ns is Some {
            Phase::Armed
        } else if self.p.first_warmup_ns matches Some(first) && ns - first >= WARMUP_NS {
            Phase::Quiescing
        } else {
            Phase::Warmup
        }
    }

    /// Brings the phase up to date.
    #[verifier::opaque]
    pub open spec fn refreshed(self, at: Stamp) -> (Attempt, Result<Phase, FixtureError>) {
        match self.standstill(at) {
            Some(why) => (self.refused(at), Err(why)),
            None => {
                let ticked = self.ticked(at);
                let phase = self.phase_at(at.decision_ns);
                if at.decision_ns >= self.plan.start_ns && self.p.warmup_closed_ns is None {
                    (ticked.refused(at), Err(FixtureError::WarmupOpen))
                } else if self.p.phase == phase {
                    (ticked, Ok(phase))
                } else {
                    let moved = Attempt { p: Progress { phase, ..ticked.p }, ..ticked };
                    let (after, r) = moved.observed(at, ObservationKind::Phase(phase));
                    match r {
                        Ok(()) => (after, Ok(phase)),
                        Err(e) => (after, Err(e)),
                    }
                }
            },
        }
    }

    /// Takes a step that only the clock can refuse.
    pub open spec fn clocked(self, at: Stamp) -> (Attempt, Result<(), FixtureError>) {
        if at.decision_ns < self.p.last_decision_ns {
            (self.refused(at), Err(FixtureError::Regressed))
        } else {
            (self.ticked(at), Ok(()))
        }
    }

    /// A frame may still answer a measured touch while draining.
    pub open spec fn answers_in_drain(self) -> bool {
        self.p.unanswered matches Some(input) && self.plan.start_ns <= input.receipt.received_ns
            < self.plan.stop_ns && !carried(self.outstanding, input.token)
    }

    /// Frames are allocated while warming up and measuring, and to answer a touch.
    pub open spec fn allocates(self, phase: Phase) -> bool {
        phase == Phase::Warmup || phase == Phase::Measured || (phase == Phase::Drain
            && self.answers_in_drain())
    }

    /// The frame that is allocated next.
    pub open spec fn next_frame(self, at: Stamp) -> Frame {
        Frame {
            id: (self.p.allocated + 1) as u64,
            allocated_ns: at.host_ns,
            decision_ns: at.decision_ns,
            token: self.p.token,
        }
    }

    /// Allocates a frame, or suppresses it.
    pub open spec fn allocated(self, at: Stamp) -> (Attempt, Result<Option<Frame>, FixtureError>) {
        let (now, r) = self.refreshed(at);
        match r {
            Err(e) => (now, Err(e)),
            Ok(phase) => if !now.allocates(phase) {
                let (after, r) = now.observed(at, ObservationKind::Suppressed);
                match r {
                    Ok(()) => (after, Ok(None)),
                    Err(e) => (after, Err(e)),
                }
            } else if !now.p.bound || now.p.current_frame is Some || now.outstanding.len()
                >= MAX_OUTSTANDING {
                (now.refused(at), Err(FixtureError::AllocationContext))
            } else if now.p.allocated == u64::MAX {
                (now, Err(FixtureError::AllocationOverflow))
            } else {
                let frame = now.next_frame(at);
                let begun = Attempt {
                    p: Progress {
                        allocated: frame.id,
                        first_warmup_ns: if phase == Phase::Warmup && now.p.first_warmup_ns is None {
                            Some(at.decision_ns)
                        } else {
                            now.p.first_warmup_ns
                        },
                        current_frame: Some(frame),
                        ..now.p
                    },
                    outstanding: now.outstanding.push(frame),
                    ..now
                };
                let (after, r) = begun.observed(
                    at,
                    ObservationKind::Allocated { frame_id: frame.id, token: frame.token },
                );
                match r {
                    Ok(()) => (after, Ok(Some(frame))),
                    Err(e) => (after, Err(e)),
                }
            },
        }
    }

    /// Installs the one periodic timer.
    pub open spec fn periodic_bound(self, at: Stamp, id: u64, interval: RealBits) -> (
        Attempt,
        Result<(), FixtureError>,
    ) {
        if self.p.periodic is Some || interval.bits != interval_bits(self.plan.rate) {
            (self.refused(at), Err(FixtureError::Periodic))
        } else {
            (Attempt { p: Progress { periodic: Some(id), ..self.p }, ..self }, Ok(()))
        }
    }

    /// Retires the periodic timer once, when the measured phase is over.
    pub open spec fn periodic_retired(self, at: Stamp) -> (
        Attempt,
        Result<Option<u64>, FixtureError>,
    ) {
        let (now, r) = self.refreshed(at);
        match r {
            Err(e) => (now, Err(e)),
            Ok(_) => if at.decision_ns < self.plan.stop_ns || now.p.retired {
                (now, Ok(None))
            } else {
                let retired = Attempt { p: Progress { retired: true, ..now.p }, ..now };
                match now.p.periodic {
                    None => (retired, Ok(None)),
                    Some(timer_id) => {
                        let (after, r) = retired.observed(
                            at,
                            ObservationKind::PeriodicRetired { timer_id },
                        );
                        match r {
                            Ok(()) => (after, Ok(Some(timer_id))),
                            Err(e) => (after, Err(e)),
                        }
                    },
                }
            },
        }
    }

    /// The outstanding frames without one of them; the last takes its place.
    pub open spec fn without(self, place: int) -> Seq<Frame> {
        self.outstanding.update(place, self.outstanding.last()).drop_last()
    }

    /// Resolves a frame. A frame that was presented answers the touch whose token it
    /// carries.
    pub open spec fn resolved(self, at: Stamp, id: u64, resolution: Resolution, ns: u64) -> (
        Attempt,
        Result<(), FixtureError>,
    ) {
        let (now, r) = self.clocked(at);
        match (r, frame_place(now.outstanding, id, 0)) {
            (Err(e), _) => (now, Err(e)),
            (Ok(()), None) => (now.refused(at), Err(FixtureError::UnknownFrame)),
            (Ok(()), Some(place)) => {
                let frame = now.outstanding[place];
                if ns < frame.decision_ns || ns < now.p.coordinator_frontier_ns || ns
                    > at.decision_ns || now.p.closed {
                    (now.refused(at), Err(FixtureError::Endpoint))
                } else {
                    let removed = Attempt {
                        p: Progress { coordinator_frontier_ns: ns, ..now.p },
                        outstanding: now.without(place),
                        ..now
                    };
                    let (noted, r) = removed.observed(
                        at,
                        ObservationKind::Resolved { frame_id: id, resolution, resolved_ns: ns },
                    );
                    match r {
                        Err(e) => (noted, Err(e)),
                        Ok(()) => if resolution == Resolution::Failed || ns > self.plan.end_ns {
                            (noted.refused(at), Err(FixtureError::Resolution))
                        } else {
                            noted.answered(at, id, frame.token, resolution, ns)
                        },
                    }
                }
            },
        }
    }

    /// A frame with a token was presented: the touch with that token is answered.
    pub open spec fn answered(
        self,
        at: Stamp,
        id: u64,
        token: u64,
        resolution: Resolution,
        ns: u64,
    ) -> (Attempt, Result<(), FixtureError>) {
        match self.p.unanswered {
            Some(input) => if resolution == Resolution::Presented && input.token == token {
                (Attempt {
                    p: Progress { unanswered: None, receipt_unanswered: None, ..self.p },
                    ..self
                }).observed(
                    at,
                    ObservationKind::ResponseConfirmed {
                        receipt_sequence: input.receipt.sequence,
                        frame_id: id,
                        token,
                        responded_ns: ns,
                    },
                )
            } else {
                (self, Ok(()))
            },
            None => (self, Ok(())),
        }
    }

    /// No frame, touch or contact is left over.
    pub open spec fn settled(self) -> bool {
        &&& self.p.receipt_contact is None
        &&& self.p.receipt_unanswered is None
        &&& self.outstanding.len() == 0
        &&& self.receipts.len() == 0
        &&& self.p.delivery is None
        &&& self.p.contact is None
        &&& self.p.unanswered is None
    }

    /// Closes the warmup: after five seconds, with nothing left over, and before the
    /// start.
    pub open spec fn warmup_closed(self, at: Stamp) -> (Attempt, Result<(), FixtureError>) {
        let (now, r) = self.refreshed(at);
        match r {
            Err(e) => (now, Err(e)),
            Ok(phase) => if phase != Phase::Quiescing || !now.settled() || now.p.periodic is None {
                (now.refused(at), Err(FixtureError::WarmupClosure))
            } else {
                let (noted, r) = now.observed(at, ObservationKind::WarmupClosed);
                match r {
                    Err(e) => (noted, Err(e)),
                    Ok(()) => (
                        Attempt {
                            p: Progress {
                                warmup_closed_ns: Some(at.decision_ns),
                                phase: Phase::Armed,
                                ..noted.p
                            },
                            ..noted
                        },
                        Ok(()),
                    ),
                }
            },
        }
    }

    /// Closes the attempt: once it ended, with nothing left over.
    pub open spec fn finished(self, at: Stamp) -> (Attempt, Result<(), FixtureError>) {
        let (now, r) = self.refreshed(at);
        match r {
            Err(e) => (now, Err(e)),
            Ok(phase) => if phase != Phase::Ended || !now.settled() {
                (now.refused(at), Err(FixtureError::Closure))
            } else {
                let (noted, r) = now.observed(at, ObservationKind::Closed);
                match r {
                    Err(e) => (noted, Err(e)),
                    Ok(()) => (
                        Attempt { p: Progress { closed: true, ..noted.p }, ..noted },
                        Ok(()),
                    ),
                }
            },
        }
    }

    /// Why a receipt is refused.
    pub open spec fn receipt_error(self, at: Stamp, receipt: Receipt) -> Option<FixtureError> {
        if receipt.sequence != self.p.last_receipt_sequence + 1 || receipt.received_ns
            < self.p.last_receipt_ns || receipt.received_ns < self.p.coordinator_frontier_ns
            || receipt.received_ns > at.decision_ns || self.receipts.len() >= MAX_OUTSTANDING
            || self.p.closed {
            Some(FixtureError::ReceiptContext)
        } else if receipt.received_ns > self.plan.end_ns || (self.p.warmup_closed_ns is Some
            && receipt.received_ns < self.plan.start_ns) || (receipt.received_ns
            >= self.plan.start_ns && !self.plan.causal) || (receipt.received_ns
            >= self.plan.stop_ns && receipt.event.phase == TouchPhase::Down)
            || receipt.event.phase == TouchPhase::Cancel {
            Some(FixtureError::UnexpectedInput)
        } else if receipt.event.phase == TouchPhase::Down && (self.p.receipt_contact is Some
            || self.p.receipt_unanswered is Some) {
            Some(FixtureError::ConcurrentDown)
        } else if receipt.event.phase != TouchPhase::Down && self.p.receipt_contact != Some(
            receipt.event.id,
        ) {
            Some(FixtureError::ReceiptOrder)
        } else {
            None
        }
    }

    /// Takes a receipt.
    pub open spec fn received(self, at: Stamp, receipt: Receipt) -> (
        Attempt,
        Result<(), FixtureError>,
    ) {
        let (noted, r) = self.observed(
            at,
            ObservationKind::ReceiptSupplied {
                receipt_sequence: receipt.sequence,
                received_ns: receipt.received_ns,
                contact: receipt.event.id,
                phase: receipt.event.phase,
            },
        );
        match r {
            Err(e) => (noted, Err(e)),
            Ok(()) => {
                let (now, r) = noted.clocked(at);
                match (r, now.receipt_error(at, receipt)) {
                    (Err(e), _) => (now, Err(e)),
                    (Ok(()), Some(why)) => (now.refused(at), Err(why)),
                    (Ok(()), None) => (
                        Attempt {
                            p: Progress {
                                receipt_contact: match receipt.event.phase {
                                    TouchPhase::Down => Some(receipt.event.id),
                                    TouchPhase::Up => None,
                                    _ => now.p.receipt_contact,
                                },
                                receipt_unanswered: if receipt.event.phase == TouchPhase::Down {
                                    Some(receipt.sequence)
                                } else {
                                    now.p.receipt_unanswered
                                },
                                last_receipt_sequence: receipt.sequence,
                                last_receipt_ns: receipt.received_ns,
                                coordinator_frontier_ns: receipt.received_ns,
                                ..now.p
                            },
                            receipts: now.receipts.push(receipt),
                            ..now
                        },
                        Ok(()),
                    ),
                }
            },
        }
    }

    /// The attempt without its first receipt.
    pub open spec fn popped(self) -> Attempt {
        Attempt {
            receipts: if self.receipts.len() > 0 {
                self.receipts.drop_first()
            } else {
                self.receipts
            },
            ..self
        }
    }

    /// Why the delivery of a touch is refused.
    pub open spec fn delivery_error(self, event: TouchEvent) -> Option<FixtureError> {
        if self.p.delivery is Some || self.receipts.len() == 0
            || !self.receipts[0].event.same_event(event) {
            Some(FixtureError::MissingReceipt)
        } else {
            match event.phase {
                TouchPhase::Down => if self.p.contact is Some || self.p.unanswered is Some {
                    Some(FixtureError::ConcurrentContact)
                } else {
                    None
                },
                TouchPhase::Cancel => Some(FixtureError::Cancelled),
                _ => if self.p.contact != Some(event.id) {
                    Some(FixtureError::ContactOrder)
                } else {
                    None
                },
            }
        }
    }

    /// Begins to deliver a touch: the one that was received first.
    pub open spec fn delivered(self, at: Stamp, event: TouchEvent) -> (
        Attempt,
        Result<(), FixtureError>,
    ) {
        let (now, r) = self.refreshed(at);
        match r {
            Err(e) => (now, Err(e)),
            Ok(_) => if at.decision_ns > self.plan.end_ns {
                (now.refused(at), Err(FixtureError::LateDelivery))
            } else {
                match now.delivery_error(event) {
                    Some(why) => (now.popped().refused(at), Err(why)),
                    None => {
                        let receipt = now.receipts[0];
                        (Attempt {
                            p: Progress {
                                contact: match event.phase {
                                    TouchPhase::Down => Some(event.id),
                                    TouchPhase::Up => None,
                                    _ => now.p.contact,
                                },
                                delivery: Some(Delivery { receipt, mutated: false }),
                                ..now.p
                            },
                            ..now.popped()
                        }).observed(
                            at,
                            ObservationKind::Delivered { receipt_sequence: receipt.sequence },
                        )
                    },
                }
            },
        }
    }

    /// A touch that began is being delivered and has not changed the token yet.
    pub open spec fn may_mutate(self) -> bool {
        self.p.delivery matches Some(d) && d.receipt.event.phase == TouchPhase::Down && !d.mutated
            && self.p.token < LATEST_NS
    }

    /// Changes the token, once for each touch that began.
    pub open spec fn token_advanced(self, at: Stamp) -> (Attempt, Result<u64, FixtureError>) {
        let (now, r) = self.clocked(at);
        match r {
            Err(e) => (now, Err(e)),
            Ok(()) => if !now.may_mutate() {
                (now.refused(at), Err(FixtureError::TokenMutation))
            } else {
                let receipt = now.p.delivery->Some_0.receipt;
                let token = (now.p.token + 1) as u64;
                let (after, r) = (Attempt {
                    p: Progress {
                        token,
                        delivery: Some(Delivery { receipt, mutated: true }),
                        unanswered: Some(PendingInput { receipt, token }),
                        ..now.p
                    },
                    ..now
                }).observed(
                    at,
                    ObservationKind::TokenMutated {
                        receipt_sequence: receipt.sequence,
                        previous: now.p.token,
                        token,
                    },
                );
                match r {
                    Ok(()) => (after, Ok(token)),
                    Err(e) => (after, Err(e)),
                }
            },
        }
    }

    /// Ends the delivery of a touch.
    pub open spec fn delivery_left(self, at: Stamp, success: bool) -> (
        Attempt,
        Result<(), FixtureError>,
    ) {
        let (now, r) = self.clocked(at);
        let left = Attempt { p: Progress { delivery: None, ..now.p }, ..now };
        match r {
            Err(e) => (now, Err(e)),
            Ok(()) => if success && (now.p.delivery matches Some(d) && (d.receipt.event.phase
                != TouchPhase::Down || d.mutated)) {
                (left, Ok(()))
            } else {
                (left.refused(at), Err(FixtureError::CallbackFailed))
            },
        }
    }

    /// Fails the attempt from outside. A failure is noted at a known time only.
    pub open spec fn runtime_failed(self, at: Option<Stamp>) -> Attempt {
        if self.p.failed {
            self
        } else {
            match at {
                Some(at) => self.refused(at),
                None => Attempt { p: Progress { failed: true, ..self.p }, ..self },
            }
        }
    }
}

} // verus!
