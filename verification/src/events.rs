//! The vocabulary of raw observations: what a source can write down.
use vstd::prelude::*;

use crate::hardware::{HardwareEvent, RealBits, TouchEvent, TouchPhase};
use crate::marker::{DecodeError, Marker};

verus! {

/// The largest number that a signed integer holds.
pub const MAX_SIGNED: u64 = 0x7fff_ffff_ffff_ffff;

/// How much a fixture run paints and observes.
#[derive(Clone, Copy, Debug, PartialEq, Eq, Structural)]
pub enum Mode {
    A,
    B,
    C,
}

/// Where a fixture run stands.
#[derive(Clone, Copy, Debug, PartialEq, Eq, Structural)]
pub enum Phase {
    Warmup,
    Quiescing,
    Armed,
    Measured,
    Drain,
    Ended,
}

impl Phase {
    /// The name under which a script sees a phase.
    pub open spec fn text(self) -> Seq<char> {
        match self {
            Phase::Warmup => "warmup"@,
            Phase::Quiescing => "quiescing"@,
            Phase::Armed => "armed"@,
            Phase::Measured => "measured"@,
            Phase::Drain => "drain"@,
            Phase::Ended => "ended"@,
        }
    }

    /// The name under which a script sees this phase.
    pub fn name(self) -> (s: &'static str)
        ensures
            s@ == self.text(),
    {
        match self {
            Phase::Warmup => "warmup",
            Phase::Quiescing => "quiescing",
            Phase::Armed => "armed",
            Phase::Measured => "measured",
            Phase::Drain => "drain",
            Phase::Ended => "ended",
        }
    }
}

/// How an allocated frame ended.
#[derive(Clone, Copy, Debug, PartialEq, Eq, Structural)]
pub enum Resolution {
    Presented,
    Discarded,
    Failed,
}

/// What a fixture observes of itself.
#[derive(Clone, Copy, Debug, PartialEq, Eq, Structural)]
pub enum ObservationKind {
    Phase(Phase),
    Allocated { frame_id: u64, token: u64 },
    Suppressed,
    Resolved { frame_id: u64, resolution: Resolution, resolved_ns: u64 },
    WarmupClosed,
    PeriodicRetired { timer_id: u64 },
    ReceiptSupplied { receipt_sequence: u64, received_ns: u64, contact: u32, phase: TouchPhase },
    Delivered { receipt_sequence: u64 },
    TokenMutated { receipt_sequence: u64, previous: u64, token: u64 },
    ResponseConfirmed { receipt_sequence: u64, frame_id: u64, token: u64, responded_ns: u64 },
    Failed,
    Closed,
}

/// What a minimal span measures.
#[derive(Clone, Copy, Debug, PartialEq, Eq, Structural)]
pub enum SpanKind {
    /// A probe of the sampler itself, never work.
    Calibration,
    RenderCallback,
    Present,
    SupervisorDrive,
}

/// How a span ended.
#[derive(Clone, Copy, Debug, PartialEq, Eq, Structural)]
pub enum SpanStatus {
    Succeeded,
    Failed,
    Abandoned,
}

/// One completed span.
#[derive(Clone, Copy, Debug, PartialEq, Eq, Structural)]
pub struct Sample {
    /// The order of completion, independent of the order of starts.
    pub sequence: u64,
    pub span_id: u64,
    pub kind: SpanKind,
    pub start_ns: u64,
    pub end_ns: u64,
    pub frame_bearing: bool,
    pub status: SpanStatus,
}

/// The counters of a timing source at one moment.
#[derive(Clone, Copy, Debug)]
pub struct Summary {
    pub capacity: u64,
    pub started_spans: u64,
    pub completed_spans: u64,
    pub open_spans: u64,
    pub failed_spans: u64,
    pub lost: u64,
    pub after_close: u64,
    pub clock_failures: u64,
    pub closed_at_ns: Option<u64>,
    pub clock_resolution_ns: u64,
    pub record_bytes: u64,
    pub clock_read_samples_ns: [u64; 32],
}

/// What a broker source observes of the calls through it.
#[derive(Clone, Copy, Debug, PartialEq, Eq, Structural)]
pub enum Operation {
    Claim,
    Reacquire,
    ConfirmOwner,
    EmitKeys,
    GetBacklight,
    SetBacklight,
    Release,
    PlanIdentity,
    SourceClosed,
    SourceAbandoned,
    AfterClose,
}

impl Operation {
    /// The byte that stands for an operation on the wire.
    pub open spec fn code(self) -> u8 {
        match self {
            Operation::Claim => 0,
            Operation::Reacquire => 1,
            Operation::ConfirmOwner => 2,
            Operation::EmitKeys => 3,
            Operation::GetBacklight => 4,
            Operation::SetBacklight => 5,
            Operation::Release => 6,
            Operation::PlanIdentity => 7,
            Operation::SourceClosed => 8,
            Operation::SourceAbandoned => 9,
            Operation::AfterClose => 10,
        }
    }

    /// The byte that stands for this operation on the wire.
    pub fn to_wire(self) -> (b: u8)
        ensures
            b == self.code(),
            b <= 10,
    {
        match self {
            Operation::Claim => 0,
            Operation::Reacquire => 1,
            Operation::ConfirmOwner => 2,
            Operation::EmitKeys => 3,
            Operation::GetBacklight => 4,
            Operation::SetBacklight => 5,
            Operation::Release => 6,
            Operation::PlanIdentity => 7,
            Operation::SourceClosed => 8,
            Operation::SourceAbandoned => 9,
            Operation::AfterClose => 10,
        }
    }

    /// The operation that a byte stands for; the byte itself where it stands for none.
    pub fn from_wire(value: u8) -> (r: Result<Operation, u8>)
        ensures
            r is Ok == (value <= 10),
            r matches Ok(operation) ==> operation.code() == value,
            r matches Err(unknown) ==> unknown == value,
    {
        match value {
            0 => Ok(Operation::Claim),
            1 => Ok(Operation::Reacquire),
            2 => Ok(Operation::ConfirmOwner),
            3 => Ok(Operation::EmitKeys),
            4 => Ok(Operation::GetBacklight),
            5 => Ok(Operation::SetBacklight),
            6 => Ok(Operation::Release),
            7 => Ok(Operation::PlanIdentity),
            8 => Ok(Operation::SourceClosed),
            9 => Ok(Operation::SourceAbandoned),
            10 => Ok(Operation::AfterClose),
            _ => Err(value),
        }
    }
}

/// The fixture frame that a publication carries.
#[derive(Clone, Copy, Debug, PartialEq, Eq, Structural)]
pub struct FrameAllocation {
    pub id: u64,
    pub token: u64,
    pub allocated_ns: u64,
}

impl FrameAllocation {
    /// All three numbers fit a signed integer; only the token may be zero.
    pub open spec fn valid(self) -> bool {
        &&& 1 <= self.id <= MAX_SIGNED
        &&& self.token <= MAX_SIGNED
        &&& 1 <= self.allocated_ns <= MAX_SIGNED
    }

    /// Whether all three numbers are in range.
    pub fn is_valid(self) -> (r: bool)
        ensures
            r == self.valid(),
    {
        1 <= self.id && self.id <= MAX_SIGNED && self.token <= MAX_SIGNED && 1 <= self.allocated_ns
            && self.allocated_ns <= MAX_SIGNED
    }
}

/// The publication of an allocated frame.
#[derive(Clone, Copy, Debug, PartialEq, Eq, Structural)]
pub struct FrameCorrelation {
    pub allocation: FrameAllocation,
    pub sequence: u64,
}

/// Why a published frame was never selected.
#[derive(Clone, Copy, Debug, PartialEq, Eq, Structural)]
pub enum DiscardReason {
    ProducerReclaim,
    ConsumerSuperseded,
    MappingClosed,
}

/// What the scheduler did with a timer after its callback.
#[derive(Clone, Copy, Debug, PartialEq, Eq, Structural)]
pub enum TimerDisposition {
    Completed,
    Cancelled,
    Rescheduled {
        next_deadline_seconds: RealBits,
        intervals_advanced: RealBits,
        skipped_intervals: RealBits,
        fallback: bool,
    },
}

/// One raw observation.
#[derive(Clone, Copy, Debug)]
#[allow(inconsistent_fields)]
pub enum EventKind {
    BrokerConfigured { mode: Mode, start_ns: u64, rate: u32, causal: bool },
    BrokerOperation { operation: Operation, success: bool },
    MinimalSpan(Sample),
    MinimalSummary(Summary),
    MinimalCalibration { cost_ns: [u64; 32] },
    FixtureObserved { synthetic: bool, decision_ns: u64, kind: ObservationKind },
    WorkerLoadFailed,
    WorkerLoopFailed,
    WorkerCommandFailed,
    WorkerRunFailed,
    WorkerCaptureConfigured { detailed: bool },
    TimerRegistered {
        timer_id: u64,
        delay_seconds: RealBits,
        interval_seconds: Option<RealBits>,
        scheduler_now_seconds: Option<RealBits>,
    },
    TimerActivated { timer_id: u64, scheduler_now_seconds: RealBits, deadline_seconds: RealBits },
    TimerCancelled { timer_id: u64, removed: bool },
    TimerDeadlineShifted {
        timer_id: u64,
        previous_deadline_seconds: RealBits,
        shift_seconds: RealBits,
        deadline_seconds: RealBits,
    },
    TimerDispatched {
        timer_id: u64,
        scheduled_deadline_seconds: RealBits,
        scheduler_now_seconds: RealBits,
    },
    TimerFinished {
        timer_id: u64,
        success: bool,
        scheduler_now_seconds: RealBits,
        disposition: TimerDisposition,
    },
    RedrawRequested { coalesced: bool },
    RenderAllocated { attempt: u64 },
    RenderFinished { attempt: u64, marker: Option<Result<Marker, DecodeError>> },
    Published {
        sequence: u64,
        allocation: Option<FrameAllocation>,
        marker: Result<Marker, DecodeError>,
    },
    Selected { sequence: u64 },
    Discarded { sequence: u64, reason: DiscardReason },
    PendingDiscarded { allocation: Option<FrameAllocation>, marker: Result<Marker, DecodeError> },
    PresentEntered { call: u64, marker: Result<Marker, DecodeError> },
    PresentReturned { call: u64, success: bool },
    InputReceived(HardwareEvent),
    PollFailed,
    TouchCallbackEntered(TouchEvent),
    TouchCallbackReturned { contact: u32, success: bool },
}

/// One raw observation with its place and time.
#[derive(Clone, Copy, Debug)]
pub struct Record {
    pub sequence: u64,
    pub at_ns: u64,
    pub kind: EventKind,
}

} // verus!
