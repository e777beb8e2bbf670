//! Driving a worker's attempt in lockstep: what is accepted from the worker, and
//! what it is told.
//!
//! The first error fails the coordinator for good: the worker is then stopped and
//! nothing more is asked of it.
use vstd::prelude::*;

use crate::bootstrap::{BootstrapView, FixtureBootstrap, FixtureControl};
use crate::bytes::{be_value, same_bytes};
use crate::decimal::{decimal, to_decimal};
use crate::events::{
    EventKind, FrameAllocation, FrameCorrelation, Mode, Resolution, SpanKind, SpanStatus,
};
use crate::fixture_model::{FixtureError, Receipt, DRAIN_NS, MEASURED_NS, WARMUP_NS};
use crate::hardware::{FrameView, LogicalFrame, RealBits};
use crate::marker::{cells_clean, decode, marker_geometry, painted_packet, valid_packet};
use crate::marker::{DecodeError, Marker};
use crate::observer::{plus_one, CaptureError};
use crate::timing::{reading, Span, TimingCapture};

verus! {

/// The most frames of an attempt.
pub const MAX_FRAMES: usize = 8192;

/// The most receipts of one drive.
pub const MAX_RECEIPTS_PER_DRIVE: usize = 64;

/// Why a coordinator fails.
#[derive(Debug, PartialEq, Eq)]
pub enum CoordinatorError {
    Plan(FixtureError),
    PlanMismatch,
    PastEpoch,
    Clock(CaptureError),
    AlreadyFailed,
    WorkerStopped,
    AlreadyStarted,
    NotStarted,
    FixtureClosed,
    ReceiptCapacity,
    AmbiguousReceipt,
    Effects,
    NoCorrelation,
    Gap,
    FrameCapacity,
    AllocationTime,
    WarmupAfterClosure,
    NoWarmupClosure,
    AllocationAfterEnd,
    MarkerGeometry,
    MarkerCell,
    MarkerPacket,
    PixelsDisagree,
    AdapterClock,
    /// The adapter failed, with its words and those of what caused it.
    Hardware(String),
    /// The worker failed, with its words and those of what caused it.
    Worker(String),
    NoWarmup,
    WarmupShort,
    WarmupClosed,
    LateAcknowledgement,
    FinishEarly,
}

impl CoordinatorError {
    /// The words of an error.
    pub open spec fn text(self) -> Seq<char> {
        match self {
            CoordinatorError::Plan(e) => e.text(),
            CoordinatorError::PlanMismatch => "worker/bootstrap plan mismatch"@,
            CoordinatorError::PastEpoch => "coordinator epoch is not future"@,
            CoordinatorError::Clock(e) => e.text(),
            CoordinatorError::AlreadyFailed => "coordinator already failed"@,
            CoordinatorError::WorkerStopped => "coordinator worker already stopped"@,
            CoordinatorError::AlreadyStarted => "coordinator already started"@,
            CoordinatorError::NotStarted => "coordinator not started"@,
            CoordinatorError::FixtureClosed => "fixture already closed"@,
            CoordinatorError::ReceiptCapacity => "coordinator receipt capacity exhausted"@,
            CoordinatorError::AmbiguousReceipt =>
            "receipt forwarded after a later or ambiguously equal resolved endpoint"@,
            CoordinatorError::Effects => "unexpected effects from reviewed fixture"@,
            CoordinatorError::NoCorrelation => "fixture frame lacks allocation correlation"@,
            CoordinatorError::Gap => "lockstep allocation/publication gap or replay"@,
            CoordinatorError::FrameCapacity => "coordinator frame capacity exhausted"@,
            CoordinatorError::AllocationTime =>
            "impossible or out-of-order fixture allocation time"@,
            CoordinatorError::WarmupAfterClosure => "warmup frame after closure"@,
            CoordinatorError::NoWarmupClosure => "measured work without warmup closure"@,
            CoordinatorError::AllocationAfterEnd => "allocation at or after E"@,
            CoordinatorError::MarkerGeometry => "fixture marker decode: Geometry"@,
            CoordinatorError::MarkerCell => "fixture marker decode: Cell"@,
            CoordinatorError::MarkerPacket => "fixture marker decode: Packet"@,
            CoordinatorError::PixelsDisagree =>
            "fixture pixels disagree with allocation/publication correlation"@,
            CoordinatorError::AdapterClock => "coordinator adapter clock regressed"@,
            CoordinatorError::Hardware(words) => words@,
            CoordinatorError::Worker(words) => words@,
            CoordinatorError::NoWarmup => "no warmup frame"@,
            CoordinatorError::WarmupShort => "warmup needs five seconds strictly before T"@,
            CoordinatorError::WarmupClosed => "warmup already closed"@,
            CoordinatorError::LateAcknowledgement => "warmup acknowledgement reached T"@,
            CoordinatorError::FinishEarly => "fixture finish before E"@,
        }
    }

    /// The words of this error.
    pub fn message(&self) -> (s: String)
        ensures
            s@ == self.text(),
    {
        let s: &'static str = match self {
            CoordinatorError::Plan(e) => e.message(),
            CoordinatorError::PlanMismatch => "worker/bootstrap plan mismatch",
            CoordinatorError::PastEpoch => "coordinator epoch is not future",
            CoordinatorError::Clock(e) => e.message(),
            CoordinatorError::AlreadyFailed => "coordinator already failed",
            CoordinatorError::WorkerStopped => "coordinator worker already stopped",
            CoordinatorError::AlreadyStarted => "coordinator already started",
            CoordinatorError::NotStarted => "coordinator not started",
            CoordinatorError::FixtureClosed => "fixture already closed",
            CoordinatorError::ReceiptCapacity => "coordinator receipt capacity exhausted",
            CoordinatorError::AmbiguousReceipt =>
            "receipt forwarded after a later or ambiguously equal resolved endpoint",
            CoordinatorError::Effects => "unexpected effects from reviewed fixture",
            CoordinatorError::NoCorrelation => "fixture frame lacks allocation correlation",
            CoordinatorError::Gap => "lockstep allocation/publication gap or replay",
            CoordinatorError::FrameCapacity => "coordinator frame capacity exhausted",
            CoordinatorError::AllocationTime =>
            "impossible or out-of-order fixture allocation time",
            CoordinatorError::WarmupAfterClosure => "warmup frame after closure",
            CoordinatorError::NoWarmupClosure => "measured work without warmup closure",
            CoordinatorError::AllocationAfterEnd => "allocation at or after E",
            CoordinatorError::MarkerGeometry => "fixture marker decode: Geometry",
            CoordinatorError::MarkerCell => "fixture marker decode: Cell",
            CoordinatorError::MarkerPacket => "fixture marker decode: Packet",
            CoordinatorError::PixelsDisagree =>
            "fixture pixels disagree with allocation/publication correlation",
            CoordinatorError::AdapterClock => "coordinator adapter clock regressed",
            CoordinatorError::Hardware(words) => {
                return words.clone();
            },
            CoordinatorError::Worker(words) => {
                return words.clone();
            },
            CoordinatorError::NoWarmup => "no warmup frame",
            CoordinatorError::WarmupShort => "warmup needs five seconds strictly before T",
            CoordinatorError::WarmupClosed => "warmup already closed",
            CoordinatorError::LateAcknowledgement => "warmup acknowledgement reached T",
            CoordinatorError::FinishEarly => "fixture finish before E",
        };
        s.to_owned()
    }
}

/// The part of an attempt that a frame belongs to.
#[derive(Clone, Copy, Debug, PartialEq, Eq, Structural)]
pub enum Cohort {
    Warmup,
    Measured,
    Drain,
}

/// A frame that was presented, or was not.
#[derive(Clone, Copy, Debug, PartialEq, Eq, Structural)]
pub struct FrameRecord {
    pub correlation: FrameCorrelation,
    pub cohort: Cohort,
    pub drive_span: u64,
    pub present_span: u64,
    /// When the adapter returned. It is no hardware endpoint.
    pub adapter_return_ns: u64,
    pub success: bool,
}

/// A frame that was accepted and is being presented.
pub struct Presentation {
    pub correlation: FrameCorrelation,
    pub cohort: Cohort,
    pub before_ns: u64,
    pub span: Span,
}

/// A coordinator.
pub struct Coordinator {
    plan: FixtureBootstrap,
    first_warmup_ns: Option<u64>,
    last_endpoint_ns: u64,
    started: bool,
    worker: bool,
    frames: Vec<FrameRecord>,
    warmup_closed_ns: Option<u64>,
    fixture_closed_ns: Option<u64>,
    worker_stopped_ns: Option<u64>,
    failure: Option<String>,
}

/// What a coordinator knows.
pub struct CoordinatorView {
    pub plan: BootstrapView,
    pub first_warmup_ns: Option<u64>,
    pub last_endpoint_ns: u64,
    pub started: bool,
    pub worker: bool,
    pub frames: Seq<FrameRecord>,
    pub warmup_closed_ns: Option<u64>,
    pub fixture_closed_ns: Option<u64>,
    pub worker_stopped_ns: Option<u64>,
    pub failure: Option<Seq<char>>,
}

impl View for Coordinator {
    type V = CoordinatorView;

    closed spec fn view(&self) -> CoordinatorView {
        CoordinatorView {
            plan: self.plan@,
            first_warmup_ns: self.first_warmup_ns,
            last_endpoint_ns: self.last_endpoint_ns,
            started: self.started,
            worker: self.worker,
            frames: self.frames@,
            warmup_closed_ns: self.warmup_closed_ns,
            fixture_closed_ns: self.fixture_closed_ns,
            worker_stopped_ns: self.worker_stopped_ns,
            failure: match self.failure {
                Some(words) => Some(words@),
                None => None,
            },
        }
    }
}

/// A packet names a plan and an allocation. A token of zero names no input.
pub open spec fn packet_names(p: Seq<u8>, plan: BootstrapView, a: FrameAllocation) -> bool {
    &&& p.subrange(20, 20 + p[16]) == plan.run
    &&& p.subrange(148, 148 + p[17]) == plan.generation
    &&& be_value(p.subrange(8, 16)) == a.id
    &&& (p[18] != 0) == (a.token != 0)
    &&& a.token != 0 ==> p.subrange(276, 276 + p[18]) == decimal(a.token as nat)
}

/// Why the pixels of a frame are refused.
pub open spec fn pixels_error(f: FrameView, plan: BootstrapView, a: FrameAllocation) -> Option<
    CoordinatorError,
> {
    if !marker_geometry(f) {
        Some(CoordinatorError::MarkerGeometry)
    } else if !cells_clean(f, 3264) {
        Some(CoordinatorError::MarkerCell)
    } else if !valid_packet(painted_packet(f)) {
        Some(CoordinatorError::MarkerPacket)
    } else if !packet_names(painted_packet(f), plan, a) {
        Some(CoordinatorError::PixelsDisagree)
    } else {
        None
    }
}

impl CoordinatorView {
    /// The plan is sound, and what was accepted fits.
    pub open spec fn wf(self) -> bool {
        &&& self.plan.error() is None
        &&& self.frames.len() <= MAX_FRAMES
        &&& forall|k: int|
            0 <= k < self.frames.len() ==> (#[trigger] self.frames[k]).correlation.allocation.id == k
                + 1 && self.frames[k].correlation.sequence == k + 1
        &&& self.first_warmup_ns matches Some(t) ==> t < self.plan.start_ns
        &&& self.warmup_closed_ns matches Some(t) ==> t < self.plan.start_ns
    }

    /// The words of the first error stay.
    pub open spec fn failed(self, e: CoordinatorError) -> CoordinatorView {
        CoordinatorView {
            failure: match self.failure {
                Some(first) => Some(first),
                None => Some(e.text()),
            },
            ..self
        }
    }

    /// Why the worker is not asked for anything.
    pub open spec fn worker_error(self) -> Option<CoordinatorError> {
        if self.failure is Some {
            Some(CoordinatorError::AlreadyFailed)
        } else if !self.worker {
            Some(CoordinatorError::WorkerStopped)
        } else {
            None
        }
    }

    /// A frame is the next one: its number and its publication follow on from the last.
    pub open spec fn is_next(self, c: FrameCorrelation) -> bool {
        if self.frames.len() == 0 {
            c.allocation.id == 1 && c.sequence == 1
        } else {
            let last = self.frames.last().correlation;
            c.allocation.id == last.allocation.id + 1 && c.sequence == last.sequence + 1
        }
    }

    /// The part of the attempt that a frame belongs to.
    pub open spec fn cohort(self, a: FrameAllocation) -> Cohort {
        let schedule = self.plan.schedule();
        if a.allocated_ns < schedule.start_ns {
            Cohort::Warmup
        } else if a.allocated_ns < schedule.stop_ns {
            Cohort::Measured
        } else {
            Cohort::Drain
        }
    }

    /// Why a correlation is refused at a time.
    pub open spec fn correlation_error(
        self,
        c: FrameCorrelation,
        before: Result<u64, CaptureError>,
    ) -> Option<CoordinatorError> {
        let a = c.allocation;
        if !self.is_next(c) {
            Some(CoordinatorError::Gap)
        } else if self.frames.len() >= MAX_FRAMES {
            Some(CoordinatorError::FrameCapacity)
        } else if before is Err {
            Some(CoordinatorError::Clock(before->Err_0))
        } else if a.allocated_ns == 0 || a.allocated_ns > before->Ok_0 || a.allocated_ns
            < self.last_endpoint_ns {
            Some(CoordinatorError::AllocationTime)
        } else if a.allocated_ns < self.plan.start_ns && self.warmup_closed_ns is Some {
            Some(CoordinatorError::WarmupAfterClosure)
        } else if a.allocated_ns >= self.plan.start_ns && self.warmup_closed_ns is None {
            Some(CoordinatorError::NoWarmupClosure)
        } else if a.allocated_ns >= self.plan.schedule().end_ns {
            Some(CoordinatorError::AllocationAfterEnd)
        } else {
            None
        }
    }

    /// The first frame of the warmup starts it.
    pub open spec fn noted(self, c: FrameCorrelation) -> CoordinatorView {
        CoordinatorView {
            first_warmup_ns: if c.allocation.allocated_ns < self.plan.start_ns
                && self.first_warmup_ns is None {
                Some(c.allocation.allocated_ns)
            } else {
                self.first_warmup_ns
            },
            ..self
        }
    }

    /// Accepts a frame, or fails. Its pixels are read in one mode alone.
    pub open spec fn entered(self, frame: LogicalFrame, before: Result<u64, CaptureError>) -> (
        CoordinatorView,
        Result<(), CoordinatorError>,
    ) {
        match frame.correlation() {
            None => (
                self.failed(CoordinatorError::NoCorrelation),
                Err(CoordinatorError::NoCorrelation),
            ),
            Some(c) => match self.correlation_error(c, before) {
                Some(e) => (self.failed(e), Err(e)),
                None => match pixels_error(frame@, self.plan, c.allocation) {
                    Some(e) => if self.plan.mode == Mode::C {
                        (self.noted(c).failed(e), Err(e))
                    } else {
                        (self.noted(c), Ok(()))
                    },
                    None => (self.noted(c), Ok(())),
                },
            },
        }
    }

    /// The coordinator after a presentation returned.
    pub open spec fn recorded(self, record: FrameRecord) -> CoordinatorView {
        CoordinatorView {
            frames: self.frames.push(record),
            last_endpoint_ns: record.adapter_return_ns,
            ..self
        }
    }
}

fn names(marker: &Marker, plan: &FixtureBootstrap, a: FrameAllocation) -> (r: bool)
    ensures
        r == packet_names(marker@, plan@, a),
{
    let run: Vec<u8> = marker.run_id();
    let generation: Vec<u8> = marker.generation();
    if !same_bytes(run.as_slice(), plan.run.as_slice()) || !same_bytes(
        generation.as_slice(),
        plan.generation.as_slice(),
    ) || marker.frame_id() != a.id {
        return false;
    }
    match marker.input_id() {
        None => a.token == 0,
        Some(input) => {
            if a.token == 0 {
                return false;
            }
            let token: Vec<u8> = to_decimal(a.token);
            same_bytes(input.as_slice(), token.as_slice())
        },
    }
}

fn check_pixels(frame: &LogicalFrame, plan: &FixtureBootstrap, a: FrameAllocation) -> (r: Option<
    CoordinatorError,
>)
    ensures
        r == pixels_error(frame@, plan@, a),
{
    match decode(frame) {
        Err(DecodeError::Geometry) => Some(CoordinatorError::MarkerGeometry),
        Err(DecodeError::Cell) => Some(CoordinatorError::MarkerCell),
        Err(DecodeError::Packet) => Some(CoordinatorError::MarkerPacket),
        Ok(marker) => if names(&marker, plan, a) {
            None
        } else {
            Some(CoordinatorError::PixelsDisagree)
        },
    }
}

/// When the worker is to be driven next: at once while a redraw is pending.
pub fn next_deadline(
    redraw_pending: bool,
    now: RealBits,
    worker_deadline: Option<RealBits>,
) -> (r: Option<RealBits>)
    ensures
        r == (if redraw_pending {
            Some(now)
        } else {
            worker_deadline
        }),
{
    if redraw_pending {
        Some(now)
    } else {
        worker_deadline
    }
}

impl Coordinator {
    /// A coordinator for a worker that was given the same plan, before its start.
    pub fn new(
        plan: FixtureBootstrap,
        worker_plan: &FixtureBootstrap,
        now: Result<u64, CaptureError>,
    ) -> (r: Result<Coordinator, CoordinatorError>)
        ensures
            match r {
                Ok(c) => {
                    &&& plan@.error() is None
                    &&& plan@ == worker_plan@
                    &&& now matches Ok(ns) && ns < plan.start_ns
                    &&& c@.wf()
                    &&& c@ == (CoordinatorView {
                        plan: plan@,
                        first_warmup_ns: None,
                        last_endpoint_ns: 0,
                        started: false,
                        worker: true,
                        frames: Seq::empty(),
                        warmup_closed_ns: None,
                        fixture_closed_ns: None,
                        worker_stopped_ns: None,
                        failure: None,
                    })
                },
                Err(CoordinatorError::Plan(e)) => plan@.error() == Some(e),
                Err(CoordinatorError::PlanMismatch) => plan@.error() is None && plan@
                    != worker_plan@,
                Err(CoordinatorError::Clock(e)) => plan@.error() is None && plan@ == worker_plan@
                    && now == Err::<u64, CaptureError>(e),
                Err(CoordinatorError::PastEpoch) => plan@.error() is None && plan@ == worker_plan@
                    && (now matches Ok(ns) && ns >= plan.start_ns),
                Err(_) => false,
            },
    {
        if let Err(e) = plan.plan() {
            return Err(CoordinatorError::Plan(e));
        }
        if !plan.equals(worker_plan) {
            return Err(CoordinatorError::PlanMismatch);
        }
        match now {
            Err(e) => {
                return Err(CoordinatorError::Clock(e));
            },
            Ok(ns) => {
                if ns >= plan.start_ns {
                    return Err(CoordinatorError::PastEpoch);
                }
            },
        }
        let c = Coordinator {
            plan,
            first_warmup_ns: None,
            last_endpoint_ns: 0,
            started: false,
            worker: true,
            frames: Vec::new(),
            warmup_closed_ns: None,
            fixture_closed_ns: None,
            worker_stopped_ns: None,
            failure: None,
        };
        assert(c@.frames =~= Seq::empty());
        Ok(c)
    }

    /// Fails the coordinator. The words of the first error stay.
    pub fn fail(&mut self, e: CoordinatorError) -> (r: CoordinatorError)
        requires
            old(self)@.wf(),
        ensures
            final(self)@.wf(),
            final(self)@ == old(self)@.failed(e),
            r == e,
    {
        if self.failure.is_none() {
            self.failure = Some(e.message());
        }
        e
    }

    /// The words of the first error, where there was one.
    pub fn failure(&self) -> (r: Option<&String>)
        ensures
            match r {
                Some(words) => self@.failure == Some(words@),
                None => self@.failure is None,
            },
    {
        self.failure.as_ref()
    }

    /// The frames that were presented, or were not.
    pub fn frames(&self) -> (r: &Vec<FrameRecord>)
        ensures
            r@ == self@.frames,
    {
        &self.frames
    }

    /// When the warmup was closed.
    pub fn warmup_closed_ns(&self) -> (r: Option<u64>)
        ensures
            r == self@.warmup_closed_ns,
    {
        self.warmup_closed_ns
    }

    /// When the attempt was closed.
    pub fn fixture_closed_ns(&self) -> (r: Option<u64>)
        ensures
            r == self@.fixture_closed_ns,
    {
        self.fixture_closed_ns
    }

    /// When the worker stopped.
    pub fn worker_stopped_ns(&self) -> (r: Option<u64>)
        ensures
            r == self@.worker_stopped_ns,
    {
        self.worker_stopped_ns
    }

    fn check_worker(&self) -> (r: Option<CoordinatorError>)
        ensures
            r == self@.worker_error(),
    {
        if self.failure.is_some() {
            Some(CoordinatorError::AlreadyFailed)
        } else if !self.worker {
            Some(CoordinatorError::WorkerStopped)
        } else {
            None
        }
    }

    /// Whether the worker may be asked for its first frame: once.
    pub fn begin_start(&mut self) -> (r: Result<(), CoordinatorError>)
        requires
            old(self)@.wf(),
        ensures
            final(self)@.wf(),
            ({
                let error = if old(self)@.started {
                    Some(CoordinatorError::AlreadyStarted)
                } else {
                    old(self)@.worker_error()
                };
                match error {
                    Some(e) => r == Err::<(), CoordinatorError>(e) && final(self)@ == old(
                        self,
                    )@.failed(e),
                    None => r is Ok && final(self)@ == old(self)@,
                }
            }),
    {
        if self.started {
            return Err(self.fail(CoordinatorError::AlreadyStarted));
        }
        match self.check_worker() {
            Some(e) => Err(self.fail(e)),
            None => Ok(()),
        }
    }

    /// The worker committed its first frame, or failed to.
    pub fn committed(&mut self, outcome: Result<(), String>) -> (r: Result<(), CoordinatorError>)
        requires
            old(self)@.wf(),
        ensures
            final(self)@.wf(),
            ({
                let error = match old(self)@.worker_error() {
                    Some(e) => Some(e),
                    None => match outcome {
                        Ok(()) => None,
                        Err(words) => Some(CoordinatorError::Worker(words)),
                    },
                };
                match error {
                    Some(e) => r == Err::<(), CoordinatorError>(e) && final(self)@ == old(
                        self,
                    )@.failed(e),
                    None => r is Ok && final(self)@ == (CoordinatorView {
                        started: true,
                        ..old(self)@
                    }),
                }
            }),
    {
        if let Some(e) = self.check_worker() {
            return Err(self.fail(e));
        }
        if let Err(words) = outcome {
            return Err(self.fail(CoordinatorError::Worker(words)));
        }
        self.started = true;
        Ok(())
    }

    /// Whether the worker may be driven with some receipts.
    pub fn begin_drive(&mut self, receipts: usize) -> (r: Result<(), CoordinatorError>)
        requires
            old(self)@.wf(),
        ensures
            final(self)@.wf(),
            ({
                let error = if !old(self)@.started {
                    Some(CoordinatorError::NotStarted)
                } else if old(self)@.fixture_closed_ns is Some {
                    Some(CoordinatorError::FixtureClosed)
                } else if receipts > MAX_RECEIPTS_PER_DRIVE {
                    Some(CoordinatorError::ReceiptCapacity)
                } else {
                    None
                };
                match error {
                    Some(e) => r == Err::<(), CoordinatorError>(e) && final(self)@ == old(
                        self,
                    )@.failed(e),
                    None => r is Ok && final(self)@ == old(self)@,
                }
            }),
    {
        if !self.started {
            return Err(self.fail(CoordinatorError::NotStarted));
        }
        if self.fixture_closed_ns.is_some() {
            return Err(self.fail(CoordinatorError::FixtureClosed));
        }
        if receipts > MAX_RECEIPTS_PER_DRIVE {
            return Err(self.fail(CoordinatorError::ReceiptCapacity));
        }
        Ok(())
    }

    /// What the worker is told of a receipt. One that is not later than the last
    /// endpoint could not be ordered.
    pub fn forward(&mut self, receipt: Receipt) -> (r: Result<FixtureControl, CoordinatorError>)
        requires
            old(self)@.wf(),
        ensures
            final(self)@.wf(),
            ({
                let error = if receipt.received_ns <= old(self)@.last_endpoint_ns {
                    Some(CoordinatorError::AmbiguousReceipt)
                } else {
                    old(self)@.worker_error()
                };
                match error {
                    Some(e) => r == Err::<FixtureControl, CoordinatorError>(e) && final(self)@
                        == old(self)@.failed(e),
                    None => r == Ok::<FixtureControl, CoordinatorError>(
                        FixtureControl::Receive(receipt),
                    ) && final(self)@ == old(self)@,
                }
            }),
    {
        if receipt.received_ns <= self.last_endpoint_ns {
            return Err(self.fail(CoordinatorError::AmbiguousReceipt));
        }
        match self.check_worker() {
            Some(e) => Err(self.fail(e)),
            None => Ok(FixtureControl::Receive(receipt)),
        }
    }

    /// Whether the worker may be driven now that its receipts are forwarded.
    pub fn dispatch(&mut self) -> (r: Result<(), CoordinatorError>)
        requires
            old(self)@.wf(),
        ensures
            final(self)@.wf(),
            match old(self)@.worker_error() {
                Some(e) => r == Err::<(), CoordinatorError>(e) && final(self)@ == old(self)@.failed(
                    e,
                ),
                None => r is Ok && final(self)@ == old(self)@,
            },
    {
        match self.check_worker() {
            Some(e) => Err(self.fail(e)),
            None => Ok(()),
        }
    }

    /// The worker was driven: nothing but frames is expected of it.
    pub fn driven(&mut self, sets_backlight: bool, key_requests: usize) -> (r: Result<
        (),
        CoordinatorError,
    >)
        requires
            old(self)@.wf(),
        ensures
            final(self)@.wf(),
            if sets_backlight || key_requests > 0 {
                r == Err::<(), CoordinatorError>(CoordinatorError::Effects) && final(self)@ == old(
                    self,
                )@.failed(CoordinatorError::Effects)
            } else {
                r is Ok && final(self)@ == old(self)@
            },
    {
        if sets_backlight || key_requests > 0 {
            return Err(self.fail(CoordinatorError::Effects));
        }
        Ok(())
    }

    fn check_correlation(
        &self,
        c: FrameCorrelation,
        before: Result<u64, CaptureError>,
    ) -> (r: Option<CoordinatorError>)
        requires
            self@.wf(),
        ensures
            r == self@.correlation_error(c, before),
    {
        let a: FrameAllocation = c.allocation;
        let count: usize = self.frames.len();
        let next: bool = if count == 0 {
            a.id == 1 && c.sequence == 1
        } else {
            let last: FrameCorrelation = self.frames[count - 1].correlation;
            a.id > 0 && a.id - 1 == last.allocation.id && c.sequence > 0 && c.sequence - 1
                == last.sequence
        };
        if !next {
            return Some(CoordinatorError::Gap);
        }
        if count >= MAX_FRAMES {
            return Some(CoordinatorError::FrameCapacity);
        }
        let before_ns: u64 = match before {
            Ok(ns) => ns,
            Err(e) => {
                return Some(CoordinatorError::Clock(e));
            },
        };
        let ns: u64 = a.allocated_ns;
        if ns == 0 || ns > before_ns || ns < self.last_endpoint_ns {
            return Some(CoordinatorError::AllocationTime);
        }
        if ns < self.plan.start_ns {
            if self.warmup_closed_ns.is_some() {
                return Some(CoordinatorError::WarmupAfterClosure);
            }
        } else {
            if self.warmup_closed_ns.is_none() {
                return Some(CoordinatorError::NoWarmupClosure);
            }
            if ns >= self.plan.start_ns + MEASURED_NS + DRAIN_NS {
                return Some(CoordinatorError::AllocationAfterEnd);
            }
        }
        None
    }

    /// Accepts a frame for presentation. It has to be the next one, allocated at a
    /// possible time, and in one mode its pixels have to say so too.
    pub fn present_entered(
        &mut self,
        timing: &mut TimingCapture,
        frame: &LogicalFrame,
        before: Result<u64, CaptureError>,
        start: Option<u64>,
    ) -> (r: Result<Presentation, CoordinatorError>)
        requires
            old(self)@.wf(),
            old(timing)@.wf(),
        ensures
            final(self)@.wf(),
            final(timing)@.wf(),
            final(self)@ == old(self)@.entered(*frame, before).0,
            match r {
                Ok(p) => {
                    &&& old(self)@.entered(*frame, before).1 is Ok
                    &&& frame.correlation() == Some(p.correlation)
                    &&& before == Ok::<u64, CaptureError>(p.before_ns)
                    &&& p.cohort == old(self)@.cohort(p.correlation.allocation)
                    &&& p.span == (Span {
                        sequence: plus_one(old(timing)@.counters.started_spans),
                        start_ns: reading(start),
                        kind: SpanKind::Present,
                    })
                    &&& final(timing)@ == old(timing)@.begun(start)
                    &&& final(timing)@.counters.open_spans >= 1
                    &&& final(self)@.frames.len() < MAX_FRAMES
                    &&& final(self)@.is_next(p.correlation)
                },
                Err(e) => old(self)@.entered(*frame, before).1 == Err::<(), CoordinatorError>(e)
                    && final(timing)@ == old(timing)@,
            },
    {
        let c: FrameCorrelation = match frame.fixture_correlation() {
            Some(c) => c,
            None => {
                return Err(self.fail(CoordinatorError::NoCorrelation));
            },
        };
        if let Some(e) = self.check_correlation(c, before) {
            return Err(self.fail(e));
        }
        let before_ns: u64 = match before {
            Ok(ns) => ns,
            Err(e) => {
                return Err(self.fail(CoordinatorError::Clock(e)));
            },
        };
        let a: FrameAllocation = c.allocation;
        let cohort: Cohort = if a.allocated_ns < self.plan.start_ns {
            if self.first_warmup_ns.is_none() {
                self.first_warmup_ns = Some(a.allocated_ns);
            }
            Cohort::Warmup
        } else if a.allocated_ns < self.plan.start_ns + MEASURED_NS {
            Cohort::Measured
        } else {
            Cohort::Drain
        };
        if self.plan.mode == Mode::C {
            if let Some(e) = check_pixels(frame, &self.plan, a) {
                return Err(self.fail(e));
            }
        }
        let span: Span = timing.begin(start, SpanKind::Present);
        Ok(Presentation { correlation: c, cohort, before_ns, span })
    }

    /// The adapter returned. The frame is recorded as it went, and the worker is to be
    /// told. What a shared recorder is to be offered of the span is returned too.
    pub fn present_returned(
        &mut self,
        timing: &mut TimingCapture,
        p: Presentation,
        drive_span: u64,
        returned: Result<u64, CaptureError>,
        finished: Option<u64>,
        success: bool,
    ) -> (r: (Result<FixtureControl, CoordinatorError>, Option<EventKind>))
        requires
            old(self)@.wf(),
            old(self)@.frames.len() < MAX_FRAMES,
            old(self)@.is_next(p.correlation),
            old(timing)@.wf(),
            old(timing)@.counters.open_spans >= 1,
        ensures
            final(self)@.wf(),
            final(timing)@.wf(),
            ({
                let status = if success && returned is Ok {
                    SpanStatus::Succeeded
                } else {
                    SpanStatus::Failed
                };
                &&& final(timing)@ == old(timing)@.completed(p.span, finished, true, status)
                &&& r.1 == old(timing)@.exported(p.span, finished, true, status)
            }),
            match returned {
                Err(e) => r.0 == Err::<FixtureControl, CoordinatorError>(CoordinatorError::Clock(e))
                    && final(self)@ == old(self)@.failed(CoordinatorError::Clock(e)),
                Ok(ns) => if ns < p.before_ns {
                    r.0 == Err::<FixtureControl, CoordinatorError>(CoordinatorError::AdapterClock)
                        && final(self)@ == old(self)@.failed(CoordinatorError::AdapterClock)
                } else {
                    let recorded = old(self)@.recorded(
                        FrameRecord {
                            correlation: p.correlation,
                            cohort: p.cohort,
                            drive_span,
                            present_span: p.span.sequence,
                            adapter_return_ns: ns,
                            success,
                        },
                    );
                    match old(self)@.worker_error() {
                        Some(e) => r.0 == Err::<FixtureControl, CoordinatorError>(e) && final(self)@
                            == recorded.failed(e),
                        None => final(self)@ == recorded && r.0 == Ok::<
                            FixtureControl,
                            CoordinatorError,
                        >(
                            FixtureControl::Resolve {
                                frame_id: p.correlation.allocation.id,
                                resolution: if success {
                                    Resolution::Presented
                                } else {
                                    Resolution::Failed
                                },
                                resolved_ns: ns,
                            },
                        ),
                    }
                },
            },
    {
        let present_span: u64 = p.span.sequence;
        let export: Option<EventKind> = timing.finish(
            p.span,
            finished,
            true,
            success && returned.is_ok(),
        );
        let ns: u64 = match returned {
            Ok(ns) => ns,
            Err(e) => {
                return (Err(self.fail(CoordinatorError::Clock(e))), export);
            },
        };
        if ns < p.before_ns {
            return (Err(self.fail(CoordinatorError::AdapterClock)), export);
        }
        self.frames.push(
            FrameRecord {
                correlation: p.correlation,
                cohort: p.cohort,
                drive_span,
                present_span,
                adapter_return_ns: ns,
                success,
            },
        );
        self.last_endpoint_ns = ns;
        if let Some(e) = self.check_worker() {
            return (Err(self.fail(e)), export);
        }
        let resolution: Resolution = if success {
            Resolution::Presented
        } else {
            Resolution::Failed
        };
        (
            Ok(
                FixtureControl::Resolve {
                    frame_id: p.correlation.allocation.id,
                    resolution,
                    resolved_ns: ns,
                },
            ),
            export,
        )
    }

    /// The worker was told of the resolution. A failed presentation stays failed,
    /// whatever the worker made of it.
    pub fn present_resolved(
        &mut self,
        presented: Result<(), String>,
        acknowledged: Result<(), String>,
    ) -> (r: Result<(), CoordinatorError>)
        requires
            old(self)@.wf(),
        ensures
            final(self)@.wf(),
            ({
                let error = match (presented, acknowledged) {
                    (Err(words), _) => Some(CoordinatorError::Hardware(words)),
                    (Ok(()), Err(words)) => Some(CoordinatorError::Worker(words)),
                    (Ok(()), Ok(())) => None,
                };
                match error {
                    Some(e) => r == Err::<(), CoordinatorError>(e) && final(self)@ == old(
                        self,
                    )@.failed(e),
                    None => r is Ok && final(self)@ == old(self)@,
                }
            }),
    {
        if let Err(words) = presented {
            return Err(self.fail(CoordinatorError::Hardware(words)));
        }
        if let Err(words) = acknowledged {
            return Err(self.fail(CoordinatorError::Worker(words)));
        }
        Ok(())
    }

    /// Whether the worker may be told that the warmup is closed: five seconds after its
    /// first frame, before the start, and once.
    pub fn confirm_warmup_closed(&mut self, now: Result<u64, CaptureError>) -> (r: Result<
        FixtureControl,
        CoordinatorError,
    >)
        requires
            old(self)@.wf(),
        ensures
            final(self)@.wf(),
            ({
                let v = old(self)@;
                let error = match (v.first_warmup_ns, now) {
                    (None, _) => Some(CoordinatorError::NoWarmup),
                    (Some(_), Err(e)) => Some(CoordinatorError::Clock(e)),
                    (Some(first), Ok(ns)) => if ns < first + WARMUP_NS || ns >= v.plan.start_ns {
                        Some(CoordinatorError::WarmupShort)
                    } else if v.warmup_closed_ns is Some {
                        Some(CoordinatorError::WarmupClosed)
                    } else {
                        v.worker_error()
                    },
                };
                match error {
                    Some(e) => r == Err::<FixtureControl, CoordinatorError>(e) && final(self)@
                        == v.failed(e),
                    None => r == Ok::<FixtureControl, CoordinatorError>(
                        FixtureControl::ConfirmWarmupClosed,
                    ) && final(self)@ == v,
                }
            }),
    {
        let first: u64 = match self.first_warmup_ns {
            Some(first) => first,
            None => {
                return Err(self.fail(CoordinatorError::NoWarmup));
            },
        };
        let ns: u64 = match now {
            Ok(ns) => ns,
            Err(e) => {
                return Err(self.fail(CoordinatorError::Clock(e)));
            },
        };
        if ns < first + WARMUP_NS || ns >= self.plan.start_ns {
            return Err(self.fail(CoordinatorError::WarmupShort));
        }
        if self.warmup_closed_ns.is_some() {
            return Err(self.fail(CoordinatorError::WarmupClosed));
        }
        match self.check_worker() {
            Some(e) => Err(self.fail(e)),
            None => Ok(FixtureControl::ConfirmWarmupClosed),
        }
    }

    /// The worker acknowledged the closing of the warmup, which has to come before the
    /// start.
    pub fn warmup_acknowledged(
        &mut self,
        acknowledged: Result<(), String>,
        at: Result<u64, CaptureError>,
    ) -> (r: Result<(), CoordinatorError>)
        requires
            old(self)@.wf(),
        ensures
            final(self)@.wf(),
            ({
                let v = old(self)@;
                let error = match (acknowledged, at) {
                    (Err(words), _) => Some(CoordinatorError::Worker(words)),
                    (Ok(()), Err(e)) => Some(CoordinatorError::Clock(e)),
                    (Ok(()), Ok(ns)) => if ns >= v.plan.start_ns {
                        Some(CoordinatorError::LateAcknowledgement)
                    } else {
                        None
                    },
                };
                match error {
                    Some(e) => r == Err::<(), CoordinatorError>(e) && final(self)@ == v.failed(e),
                    None => r is Ok && final(self)@ == (CoordinatorView {
                        warmup_closed_ns: Some(at->Ok_0),
                        ..v
                    }),
                }
            }),
    {
        if let Err(words) = acknowledged {
            return Err(self.fail(CoordinatorError::Worker(words)));
        }
        match at {
            Err(e) => Err(self.fail(CoordinatorError::Clock(e))),
            Ok(ns) => {
                if ns >= self.plan.start_ns {
                    return Err(self.fail(CoordinatorError::LateAcknowledgement));
                }
                self.warmup_closed_ns = Some(ns);
                Ok(())
            },
        }
    }

    /// Whether the worker may be told to finish: at the end, and not before.
    pub fn finish(&mut self, now: Result<u64, CaptureError>) -> (r: Result<
        FixtureControl,
        CoordinatorError,
    >)
        requires
            old(self)@.wf(),
        ensures
            final(self)@.wf(),
            ({
                let v = old(self)@;
                let error = if !v.started {
                    Some(CoordinatorError::NotStarted)
                } else {
                    match now {
                        Err(e) => Some(CoordinatorError::Clock(e)),
                        Ok(ns) => if ns < v.plan.schedule().end_ns {
                            Some(CoordinatorError::FinishEarly)
                        } else {
                            v.worker_error()
                        },
                    }
                };
                match error {
                    Some(e) => r == Err::<FixtureControl, CoordinatorError>(e) && final(self)@
                        == v.failed(e),
                    None => r == Ok::<FixtureControl, CoordinatorError>(FixtureControl::Finish)
                        && final(self)@ == v,
                }
            }),
    {
        if !self.started {
            return Err(self.fail(CoordinatorError::NotStarted));
        }
        let ns: u64 = match now {
            Ok(ns) => ns,
            Err(e) => {
                return Err(self.fail(CoordinatorError::Clock(e)));
            },
        };
        if ns < self.plan.start_ns + MEASURED_NS + DRAIN_NS {
            return Err(self.fail(CoordinatorError::FinishEarly));
        }
        match self.check_worker() {
            Some(e) => Err(self.fail(e)),
            None => Ok(FixtureControl::Finish),
        }
    }

    /// The worker acknowledged the end of the attempt. It is then to be stopped.
    pub fn fixture_closed(
        &mut self,
        acknowledged: Result<(), String>,
        at: Result<u64, CaptureError>,
    ) -> (r: Result<(), CoordinatorError>)
        requires
            old(self)@.wf(),
        ensures
            final(self)@.wf(),
            ({
                let v = old(self)@;
                let error = match (acknowledged, at) {
                    (Err(words), _) => Some(CoordinatorError::Worker(words)),
                    (Ok(()), Err(e)) => Some(CoordinatorError::Clock(e)),
                    (Ok(()), Ok(_)) => None,
                };
                match error {
                    Some(e) => r == Err::<(), CoordinatorError>(e) && final(self)@ == v.failed(e),
                    None => r is Ok && final(self)@ == (CoordinatorView {
                        fixture_closed_ns: Some(at->Ok_0),
                        worker: false,
                        ..v
                    }),
                }
            }),
    {
        if let Err(words) = acknowledged {
            return Err(self.fail(CoordinatorError::Worker(words)));
        }
        match at {
            Err(e) => Err(self.fail(CoordinatorError::Clock(e))),
            Ok(ns) => {
                self.fixture_closed_ns = Some(ns);
                self.worker = false;
                Ok(())
            },
        }
    }

    /// The worker was stopped, or could not be.
    pub fn worker_stopped(
        &mut self,
        stopped: Result<(), String>,
        at: Result<u64, CaptureError>,
    ) -> (r: Result<(), CoordinatorError>)
        requires
            old(self)@.wf(),
        ensures
            final(self)@.wf(),
            ({
                let v = old(self)@;
                let error = match (stopped, at) {
                    (Err(words), _) => Some(CoordinatorError::Worker(words)),
                    (Ok(()), Err(e)) => Some(CoordinatorError::Clock(e)),
                    (Ok(()), Ok(_)) => None,
                };
                match error {
                    Some(e) => r == Err::<(), CoordinatorError>(e) && final(self)@ == v.failed(e),
                    None => r is Ok && final(self)@ == (CoordinatorView {
                        worker_stopped_ns: Some(at->Ok_0),
                        ..v
                    }),
                }
            }),
    {
        if let Err(words) = stopped {
            return Err(self.fail(CoordinatorError::Worker(words)));
        }
        match at {
            Err(e) => Err(self.fail(CoordinatorError::Clock(e))),
            Ok(ns) => {
                self.worker_stopped_ns = Some(ns);
                Ok(())
            },
        }
    }
}

/// A coordinator that failed accepts no further frame as presented and asks nothing more
/// of its worker.
pub proof fn law_a_failure_is_final(v: CoordinatorView, e: CoordinatorError)
    requires
        v.failure is Some,
    ensures
        v.failed(e) == v,
        v.worker_error() == Some(CoordinatorError::AlreadyFailed),
{
}

/// The frames of an attempt are numbered from one without a gap, and so are their
/// publications.
pub proof fn law_frames_follow_on(v: CoordinatorView, k: int)
    requires
        v.wf(),
        0 <= k < v.frames.len(),
    ensures
        v.frames[k].correlation.allocation.id == k + 1,
        v.frames[k].correlation.sequence == k + 1,
{
}

/// Frames are accepted in order and without gaps: a frame that was accepted and
/// recorded is never accepted again.
pub proof fn law_no_frame_is_accepted_twice(
    v: CoordinatorView,
    c: FrameCorrelation,
    before: Result<u64, CaptureError>,
    record: FrameRecord,
    again: Result<u64, CaptureError>,
)
    requires
        v.correlation_error(c, before) is None,
        record.correlation == c,
    ensures
        v.noted(c).recorded(record).correlation_error(c, again) == Some(CoordinatorError::Gap),
{
}

} // verus!
