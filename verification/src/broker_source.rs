//! What a broker records of its own work, from its configuration to its closing.
//!
//! A source that was closed is never silently disarmed: whatever happens later is
//! counted as lost and as activity after closing.
use vstd::prelude::*;

use crate::bootstrap::{BootstrapView, FixtureBootstrap};
use crate::bytes::same_bytes;
use crate::capture_storage::{metadata_writes, MappedWriter, SourceRole, WordWrite};
use crate::events::{EventKind, Mode, Operation, SpanKind, SpanStatus};
use crate::fixture_model::FixtureError;
use crate::hardware::{HardwareEvent, LogicalFrame};
use crate::marker::{decode, DecodeError, Marker};
use crate::observer::{
    initial_view, marker_result, plus_one, received_kinds, zero_counters, Capture, CaptureError,
    CaptureView, MAX_RECORDS,
};
use crate::timing::{
    reading, summary_of, Span, TimingCapture, TimingCounters, TimingError, TimingView, MAX_SAMPLES,
};

verus! {

/// Why a broker's source is refused.
#[derive(Clone, Copy, Debug, PartialEq, Eq, Structural)]
pub enum SourceError {
    NotBroker,
    Plan(FixtureError),
    PastEpoch,
    /// The clock could not be read, or the recorder is refused or unhealthy.
    Capture(CaptureError),
    /// The calibration is refused.
    Timing(TimingError),
    CalibrationEpoch,
    Incomplete,
}

impl SourceError {
    /// The words of an error.
    pub open spec fn text(self) -> Seq<char> {
        match self {
            SourceError::NotBroker => "writer is not broker-bound"@,
            SourceError::Plan(e) => e.text(),
            SourceError::PastEpoch => "broker capture epoch is not future"@,
            SourceError::Capture(e) => e.text(),
            SourceError::Timing(e) => e.text(),
            SourceError::CalibrationEpoch => "broker calibration reached declared epoch"@,
            SourceError::Incomplete => "broker source incomplete or unhealthy"@,
        }
    }

    /// The words of this error.
    pub fn message(self) -> (s: &'static str)
        ensures
            s@ == self.text(),
    {
        match self {
            SourceError::NotBroker => "writer is not broker-bound",
            SourceError::Plan(e) => e.message(),
            SourceError::PastEpoch => "broker capture epoch is not future",
            SourceError::Capture(e) => e.message(),
            SourceError::Timing(e) => e.message(),
            SourceError::CalibrationEpoch => "broker calibration reached declared epoch",
            SourceError::Incomplete => "broker source incomplete or unhealthy",
        }
    }
}

/// The refusal of a calibration whose recorder is unhealthy.
pub open spec fn recorder_unhealthy() -> SourceError {
    SourceError::Timing(TimingError::Capture(CaptureError::Unhealthy))
}

/// Readings of the clock taken before a source is made.
#[derive(Clone, Copy, Debug)]
pub struct ClockFacts {
    pub samples_ns: [u64; 32],
    pub resolution_ns: u64,
}

/// Readings of the clock taken while a source is closed: when its timing closes, when
/// the summary and the closing are recorded, and when the recorder closes.
#[derive(Clone, Copy, Debug)]
pub struct ClosingTimes {
    pub timing: Option<u64>,
    pub summary: Option<u64>,
    pub operation: Option<u64>,
    pub recorder: Option<u64>,
}

/// The source of a broker.
pub struct BrokerCapture {
    plan: FixtureBootstrap,
    raw: Capture,
    timing: TimingCapture,
    calls: u64,
    closed: bool,
}

/// What the source of a broker holds.
pub struct BrokerSource {
    pub plan: BootstrapView,
    pub raw: CaptureView,
    pub timing: TimingView,
    pub calls: u64,
    pub closed: bool,
}

impl View for BrokerCapture {
    type V = BrokerSource;

    closed spec fn view(&self) -> BrokerSource {
        BrokerSource {
            plan: self.plan@,
            raw: self.raw@,
            timing: self.timing@,
            calls: self.calls,
            closed: self.closed,
        }
    }
}

/// The record of how a source is configured.
pub open spec fn configured(plan: BootstrapView) -> EventKind {
    EventKind::BrokerConfigured {
        mode: plan.mode,
        start_ns: plan.start_ns,
        rate: plan.rate,
        causal: plan.causal,
    }
}

/// What is read of a frame's marker: in one mode alone anything.
pub open spec fn marker_read(
    mode: Mode,
    frame: LogicalFrame,
    marker: Option<Result<Marker, DecodeError>>,
) -> bool {
    match marker {
        Some(m) => mode == Mode::C && marker_result(frame, m),
        None => mode != Mode::C,
    }
}

impl BrokerSource {
    /// The parts are sound, and samples go to the recorder.
    pub open spec fn wf(self) -> bool {
        &&& self.raw.wf()
        &&& self.timing.wf()
        &&& self.timing.exporting
        &&& self.plan.error() is None
    }

    /// An operation is noted.
    pub open spec fn noted(self, time: Option<u64>, operation: Operation, success: bool) -> BrokerSource {
        BrokerSource {
            raw: self.raw.after(time, EventKind::BrokerOperation { operation, success }),
            ..self
        }
    }

    /// Activity after closing is noted as such.
    pub open spec fn active(self, time: Option<u64>) -> BrokerSource {
        if self.closed {
            self.noted(time, Operation::AfterClose, false)
        } else {
            self
        }
    }

    /// The source once its timing closed and its summary is recorded.
    pub open spec fn summarized(self, at: ClosingTimes) -> BrokerSource {
        let timing = self.timing.closed_at(at.timing);
        BrokerSource {
            timing,
            raw: self.raw.after(at.summary, EventKind::MinimalSummary(summary_of(timing.counters))),
            ..self
        }
    }

    /// A source closes as healthy on request alone, and if nothing failed or was lost.
    pub open spec fn closes_healthy(self, explicit: bool, at: ClosingTimes) -> bool {
        explicit && self.summarized(at).raw.healthy(false) && self.summarized(at).timing.clean()
    }

    /// The source once its closing is recorded.
    pub open spec fn concluded(self, explicit: bool, at: ClosingTimes) -> BrokerSource {
        self.summarized(at).noted(
            at.operation,
            if explicit {
                Operation::SourceClosed
            } else {
                Operation::SourceAbandoned
            },
            self.closes_healthy(explicit, at),
        )
    }

    /// Closes the source. Closing again only asks whether it is still healthy.
    pub open spec fn finished(self, explicit: bool, at: ClosingTimes) -> (
        BrokerSource,
        Result<(), SourceError>,
    ) {
        if self.closed {
            (
                self,
                if self.raw.healthy(true) {
                    Ok(())
                } else {
                    Err(SourceError::Capture(CaptureError::Unhealthy))
                },
            )
        } else {
            let concluded = self.concluded(explicit, at);
            let after = BrokerSource {
                raw: concluded.raw.finished(at.recorder),
                closed: true,
                ..concluded
            };
            (
                after,
                if !concluded.raw.healthy(false) {
                    Err(SourceError::Capture(CaptureError::Unhealthy))
                } else if !self.closes_healthy(explicit, at) {
                    Err(SourceError::Incomplete)
                } else if !after.raw.healthy(true) {
                    Err(SourceError::Capture(CaptureError::Unhealthy))
                } else {
                    Ok(())
                },
            )
        }
    }

    /// A marker names another plan.
    pub open spec fn names_another(self, marker: Result<Marker, DecodeError>) -> bool {
        marker matches Ok(m) && (m@.subrange(20, 20 + m@[16]) != self.plan.run || m@.subrange(
            148,
            148 + m@[17],
        ) != self.plan.generation)
    }

    /// A frame is about to be presented. In one mode its marker is read and recorded.
    pub open spec fn entered(
        self,
        activity: Option<u64>,
        mismatch: Option<u64>,
        at: Option<u64>,
        start: Option<u64>,
        marker: Option<Result<Marker, DecodeError>>,
    ) -> BrokerSource {
        let active = self.active(activity);
        let call = plus_one(self.calls);
        let counted = BrokerSource { calls: call, ..active };
        let observed = match marker {
            None => counted,
            Some(marker) => {
                let checked = if counted.names_another(marker) {
                    counted.noted(mismatch, Operation::PlanIdentity, false)
                } else {
                    counted
                };
                BrokerSource {
                    raw: checked.raw.after(at, EventKind::PresentEntered { call, marker }),
                    ..checked
                }
            },
        };
        BrokerSource { timing: observed.timing.begun(start), ..observed }
    }

    /// A presentation returned. Its span ends at the very reading at which it returned.
    pub open spec fn returned(
        self,
        span: Span,
        call: u64,
        returned: Option<u64>,
        exported: Option<u64>,
        success: bool,
    ) -> BrokerSource {
        let status = if success {
            SpanStatus::Succeeded
        } else {
            SpanStatus::Failed
        };
        let sampled = BrokerSource {
            timing: self.timing.completed(span, returned, true, status),
            raw: self.raw.after(
                exported,
                self.timing.exported(span, returned, true, status)->Some_0,
            ),
            ..self
        };
        if self.plan.mode == Mode::C {
            BrokerSource {
                raw: sampled.raw.after(returned, EventKind::PresentReturned { call, success }),
                ..sampled
            }
        } else {
            sampled
        }
    }
}

impl BrokerCapture {
    /// A source over a broker's storage, for a plan whose start is still to come. Its
    /// configuration is recorded.
    pub fn from_writer(
        plan: FixtureBootstrap,
        writer: MappedWriter,
        now: Result<u64, CaptureError>,
        clock: ClockFacts,
        timing_clock: ClockFacts,
        record_bytes: u64,
        configured_at: Option<u64>,
    ) -> (r: Result<BrokerCapture, SourceError>)
        requires
            writer.committed == 0,
        ensures
            match r {
                Ok(source) => {
                    &&& writer.role == SourceRole::Broker
                    &&& plan@.error() is None
                    &&& now matches Ok(ns) && ns < plan.start_ns
                    &&& 1 <= writer.capacity <= MAX_RECORDS
                    &&& source@.wf()
                    &&& source@ == (BrokerSource {
                        plan: plan@,
                        raw: initial_view(
                            writer.capacity as nat,
                            clock.samples_ns,
                            clock.resolution_ns,
                            Some(writer.updated()),
                            metadata_writes(
                                writer,
                                zero_counters(clock.samples_ns, clock.resolution_ns),
                            ),
                        ).after(configured_at, configured(plan@)),
                        timing: TimingView {
                            counters: TimingCounters {
                                capacity: MAX_SAMPLES,
                                started_spans: 0,
                                completed_spans: 0,
                                open_spans: 0,
                                failed_spans: 0,
                                lost: 0,
                                after_close: 0,
                                clock_failures: 0,
                                closed_at_ns: None,
                                closed: false,
                                clock_resolution_ns: timing_clock.resolution_ns,
                                record_bytes,
                                clock_read_samples_ns: timing_clock.samples_ns,
                                counter_cost_samples_ns: None,
                            },
                            records: Seq::empty(),
                            exporting: true,
                        },
                        calls: 0,
                        closed: false,
                    })
                },
                Err(e) => e == (if writer.role != SourceRole::Broker {
                    SourceError::NotBroker
                } else if plan@.error() is Some {
                    SourceError::Plan(plan@.error()->Some_0)
                } else if now is Err {
                    SourceError::Capture(now->Err_0)
                } else if now->Ok_0 >= plan.start_ns {
                    SourceError::PastEpoch
                } else {
                    SourceError::Capture(CaptureError::Capacity)
                }) && (writer.role != SourceRole::Broker || plan@.error() is Some || now is Err
                    || now->Ok_0 >= plan.start_ns || !(1 <= writer.capacity <= MAX_RECORDS)),
            },
    {
        if writer.role != SourceRole::Broker {
            return Err(SourceError::NotBroker);
        }
        if let Err(e) = plan.plan() {
            return Err(SourceError::Plan(e));
        }
        match now {
            Err(e) => {
                return Err(SourceError::Capture(e));
            },
            Ok(ns) => {
                if ns >= plan.start_ns {
                    return Err(SourceError::PastEpoch);
                }
            },
        }
        let mut raw: Capture = match Capture::from_mapped(
            writer,
            clock.samples_ns,
            clock.resolution_ns,
        ) {
            Ok(raw) => raw,
            Err(e) => {
                return Err(SourceError::Capture(e));
            },
        };
        let timing: TimingCapture = match TimingCapture::new(
            MAX_SAMPLES,
            true,
            timing_clock.samples_ns,
            timing_clock.resolution_ns,
            record_bytes,
        ) {
            Ok(timing) => timing,
            Err(e) => {
                return Err(SourceError::Timing(e));
            },
        };
        raw.record_at(
            configured_at,
            EventKind::BrokerConfigured {
                mode: plan.mode,
                start_ns: plan.start_ns,
                rate: plan.rate,
                causal: plan.causal,
            },
        );
        Ok(BrokerCapture { plan, raw, timing, calls: 0, closed: false })
    }

    /// The recorder, to hand its words to storage.
    pub fn raw(&self) -> (raw: &Capture)
        ensures
            raw@ == self@.raw,
    {
        &self.raw
    }

    /// Begins a probe of a calibration, which precedes any work.
    pub fn begin_probe(&mut self, start: Option<u64>) -> (span: Span)
        requires
            old(self)@.wf(),
        ensures
            final(self)@.wf(),
            final(self)@ == (BrokerSource { timing: old(self)@.timing.begun(start), ..old(self)@ }),
            final(self)@.timing.counters.open_spans >= 1,
            span == (Span {
                sequence: plus_one(old(self)@.timing.counters.started_spans),
                start_ns: reading(start),
                kind: SpanKind::Calibration,
            }),
    {
        self.timing.begin(start, SpanKind::Calibration)
    }

    /// Ends a probe, whose sample is recorded.
    pub fn finish_probe(&mut self, span: Span, end: Option<u64>, exported: Option<u64>)
        requires
            old(self)@.wf(),
            old(self)@.timing.counters.open_spans >= 1,
        ensures
            final(self)@.wf(),
            ({
                let v = old(self)@;
                final(self)@ == (BrokerSource {
                    timing: v.timing.completed(span, end, false, SpanStatus::Succeeded),
                    raw: v.raw.after(
                        exported,
                        v.timing.exported(span, end, false, SpanStatus::Succeeded)->Some_0,
                    ),
                    ..v
                })
            }),
    {
        if let Some(kind) = self.timing.finish(span, end, false, true) {
            self.raw.record_at(exported, kind);
        }
    }

    /// Whether the calibration may begin.
    pub fn begin_calibration(&self) -> (r: Result<(), SourceError>)
        requires
            self@.wf(),
        ensures
            r == (if self@.timing.counters.closed || self@.timing.counters.started_spans != 0 {
                Err::<(), SourceError>(SourceError::Timing(TimingError::Late))
            } else if !self@.raw.healthy(false) {
                Err(recorder_unhealthy())
            } else {
                Ok(())
            }),
    {
        match self.timing.begin_calibration(Some(&self.raw)) {
            Ok(()) => Ok(()),
            Err(e) => Err(SourceError::Timing(e)),
        }
    }

    /// Concludes the calibration: the probes alone were timed, their costs are recorded
    /// without loss, and the start is still to come.
    pub fn finish_calibration(
        &mut self,
        cost_ns: [u64; 32],
        aggregated: Option<u64>,
        now: Result<u64, CaptureError>,
    ) -> (r: Result<(), SourceError>)
        requires
            old(self)@.wf(),
        ensures
            final(self)@.wf(),
            ({
                let v = old(self)@;
                let aggregate = BrokerSource {
                    raw: v.raw.after(aggregated, EventKind::MinimalCalibration { cost_ns }),
                    ..v
                };
                let calibrated = BrokerSource {
                    timing: TimingView {
                        counters: TimingCounters {
                            counter_cost_samples_ns: Some(cost_ns),
                            ..v.timing.counters
                        },
                        ..v.timing
                    },
                    ..aggregate
                };
                if !v.timing.probed() {
                    r == Err::<(), SourceError>(SourceError::Timing(TimingError::Overlap))
                        && final(self)@ == v
                } else if !v.raw.healthy(false) {
                    r == Err::<(), SourceError>(recorder_unhealthy()) && final(self)@ == v
                } else if !aggregate.raw.healthy(false) {
                    r == Err::<(), SourceError>(recorder_unhealthy()) && final(self)@ == aggregate
                } else {
                    &&& final(self)@ == calibrated
                    &&& r == (match now {
                        Err(e) => Err::<(), SourceError>(SourceError::Capture(e)),
                        Ok(ns) => if ns >= v.plan.start_ns {
                            Err(SourceError::CalibrationEpoch)
                        } else {
                            Ok(())
                        },
                    })
                }
            }),
    {
        match self.timing.probes_done(Some(&self.raw), cost_ns) {
            Ok(Some(kind)) => {
                self.raw.record_at(aggregated, kind);
            },
            Ok(None) => {},
            Err(e) => {
                return Err(SourceError::Timing(e));
            },
        }
        if let Err(e) = self.timing.calibrated(Some(&self.raw), cost_ns) {
            return Err(SourceError::Timing(e));
        }
        match now {
            Err(e) => Err(SourceError::Capture(e)),
            Ok(ns) => if ns >= self.plan.start_ns {
                Err(SourceError::CalibrationEpoch)
            } else {
                Ok(())
            },
        }
    }

    fn note(&mut self, time: Option<u64>, operation: Operation, success: bool)
        requires
            old(self)@.wf(),
        ensures
            final(self)@.wf(),
            final(self)@ == old(self)@.noted(time, operation, success),
    {
        self.raw.record_at(time, EventKind::BrokerOperation { operation, success });
    }

    /// Something is about to happen.
    pub fn activity(&mut self, time: Option<u64>)
        requires
            old(self)@.wf(),
        ensures
            final(self)@.wf(),
            final(self)@ == old(self)@.active(time),
    {
        if self.closed {
            self.note(time, Operation::AfterClose, false);
        }
    }

    /// An operation returned.
    pub fn operation(&mut self, time: Option<u64>, operation: Operation, success: bool)
        requires
            old(self)@.wf(),
        ensures
            final(self)@.wf(),
            final(self)@ == old(self)@.noted(time, operation, success),
    {
        self.note(time, operation, success);
    }

    /// An operation never returned: the source is noted as abandoned.
    pub fn poisoned(&mut self, time: Option<u64>)
        requires
            old(self)@.wf(),
        ensures
            final(self)@.wf(),
            final(self)@ == old(self)@.noted(time, Operation::SourceAbandoned, false),
    {
        self.note(time, Operation::SourceAbandoned, false);
    }

    fn is_another(&self, marker: &Result<Marker, DecodeError>) -> (r: bool)
        ensures
            r == self@.names_another(*marker),
    {
        match marker {
            Ok(m) => {
                let run: Vec<u8> = m.run_id();
                let generation: Vec<u8> = m.generation();
                !same_bytes(run.as_slice(), self.plan.run.as_slice()) || !same_bytes(
                    generation.as_slice(),
                    self.plan.generation.as_slice(),
                )
            },
            Err(_) => false,
        }
    }

    /// A frame is about to be presented. Reading its marker is no part of the span.
    pub fn present_entered(
        &mut self,
        frame: &LogicalFrame,
        activity: Option<u64>,
        mismatch: Option<u64>,
        entered: Option<u64>,
        start: Option<u64>,
    ) -> (r: (u64, Span))
        requires
            old(self)@.wf(),
        ensures
            final(self)@.wf(),
            exists|marker: Option<Result<Marker, DecodeError>>| #[trigger]
                marker_read(old(self)@.plan.mode, *frame, marker) && final(self)@ == old(self)@.entered(
                    activity,
                    mismatch,
                    entered,
                    start,
                    marker,
                ),
            r.0 == plus_one(old(self)@.calls),
            r.1 == (Span {
                sequence: plus_one(old(self)@.timing.counters.started_spans),
                start_ns: reading(start),
                kind: SpanKind::Present,
            }),
            final(self)@.timing.counters.open_spans >= 1,
    {
        self.activity(activity);
        self.calls = self.calls.saturating_add(1);
        let call: u64 = self.calls;
        let ghost mut read: Option<Result<Marker, DecodeError>> = None;
        if self.plan.mode == Mode::C {
            let marker: Result<Marker, DecodeError> = decode(frame);
            proof {
                read = Some(marker);
            }
            if self.is_another(&marker) {
                self.note(mismatch, Operation::PlanIdentity, false);
            }
            self.raw.record_at(entered, EventKind::PresentEntered { call, marker });
        }
        assert(marker_read(self.plan.mode, *frame, read));
        let span: Span = self.timing.begin(start, SpanKind::Present);
        (call, span)
    }

    /// A presentation returned.
    pub fn present_returned(
        &mut self,
        span: Span,
        call: u64,
        returned: Option<u64>,
        exported: Option<u64>,
        success: bool,
    )
        requires
            old(self)@.wf(),
            old(self)@.timing.counters.open_spans >= 1,
        ensures
            final(self)@.wf(),
            final(self)@ == old(self)@.returned(span, call, returned, exported, success),
    {
        if let Some(kind) = self.timing.finish(span, returned, true, success) {
            self.raw.record_at(exported, kind);
        }
        if self.plan.mode == Mode::C {
            self.raw.record_at(returned, EventKind::PresentReturned { call, success });
        }
    }

    /// A poll returned. Unexpected input and failures are kept in every mode.
    pub fn polled(&mut self, received: Option<u64>, events: &Option<Vec<HardwareEvent>>)
        requires
            old(self)@.wf(),
        ensures
            final(self)@.wf(),
            final(self)@ == (BrokerSource {
                raw: match *events {
                    Some(batch) => old(self)@.raw.after_all(received, received_kinds(batch@)),
                    None => old(self)@.raw.after(received, EventKind::PollFailed),
                },
                ..old(self)@
            }),
    {
        self.raw.polled(received, events);
    }

    /// Closes the source, on request or because it was dropped.
    pub fn finish(&mut self, explicit: bool, at: ClosingTimes) -> (r: Result<(), SourceError>)
        requires
            old(self)@.wf(),
        ensures
            final(self)@.wf(),
            (final(self)@, r) == old(self)@.finished(explicit, at),
    {
        if self.closed {
            return match self.raw.ensure_closed_and_healthy() {
                Ok(()) => Ok(()),
                Err(_) => Err(SourceError::Capture(CaptureError::Unhealthy)),
            };
        }
        if let Some(kind) = self.timing.close(at.timing) {
            self.raw.record_at(at.summary, kind);
        }
        let healthy: bool = explicit && self.raw.ensure_open_and_healthy().is_ok()
            && self.timing.is_clean();
        let operation: Operation = if explicit {
            Operation::SourceClosed
        } else {
            Operation::SourceAbandoned
        };
        self.note(at.operation, operation, healthy);
        let open: bool = self.raw.ensure_open_and_healthy().is_ok();
        self.raw.finish(at.recorder);
        self.closed = true;
        if !open {
            return Err(SourceError::Capture(CaptureError::Unhealthy));
        }
        if !healthy {
            return Err(SourceError::Incomplete);
        }
        match self.raw.ensure_closed_and_healthy() {
            Ok(()) => Ok(()),
            Err(_) => Err(SourceError::Capture(CaptureError::Unhealthy)),
        }
    }

    /// The words that are still to be written to storage.
    pub fn take_writes(&mut self) -> (writes: Vec<WordWrite>)
        ensures
            writes@ == old(self)@.raw.pending,
            final(self)@ == (BrokerSource {
                raw: CaptureView { pending: Seq::empty(), ..old(self)@.raw },
                ..old(self)@
            }),
            old(self)@.wf() ==> final(self)@.wf(),
    {
        self.raw.take_writes()
    }
}

/// A source that closed cleanly closes cleanly again, and nothing changes by it.
pub proof fn law_clean_closing_repeats(
    s: BrokerSource,
    explicit: bool,
    first: ClosingTimes,
    again: bool,
    second: ClosingTimes,
)
    requires
        s.finished(explicit, first).1 is Ok,
    ensures
        s.finished(explicit, first).0.finished(again, second) == (
            s.finished(explicit, first).0,
            Ok::<(), SourceError>(()),
        ),
{
}

/// A source that is dropped never closes cleanly.
pub proof fn law_an_abandoned_source_is_not_clean(s: BrokerSource, at: ClosingTimes)
    requires
        s.wf(),
        !s.closed,
    ensures
        s.finished(false, at).1 is Err,
        s.finished(false, at).0.closed,
        s.finished(false, at).0.raw.counters.failed_operations > 0,
{
}

/// Activity after closing is never lost from sight: it is counted, and closing again
/// then fails.
pub proof fn law_a_closed_source_is_not_disarmed(
    s: BrokerSource,
    time: Option<u64>,
    explicit: bool,
    at: ClosingTimes,
)
    requires
        s.wf(),
        s.closed,
        s.raw.counters.closed,
    ensures
        s.active(time).raw.counters.after_close == plus_one(s.raw.counters.after_close),
        s.active(time).raw.counters.lost == plus_one(s.raw.counters.lost),
        s.active(time).raw.counters.closed_at_ns == s.raw.counters.closed_at_ns,
        s.active(time).finished(explicit, at).1 == Err::<(), SourceError>(
            SourceError::Capture(CaptureError::Unhealthy),
        ),
{
}

} // verus!
