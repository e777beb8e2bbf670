//! Bounded timing of work spans.
//!
//! A span is timed from before any recording work until after the complete
//! operation. Samples are kept here, or handed out as observations for a shared
//! recorder, whose capacity and losses are then the ones that count.
use vstd::prelude::*;

use crate::events::{EventKind, Sample, SpanKind, SpanStatus, Summary};
use crate::observer::{plus_one, Capture, CaptureError, CaptureView};

verus! {

/// The most samples that can be kept.
pub const MAX_SAMPLES: usize = 65_536;

/// The number of probes of a calibration.
pub const PROBES: u64 = 32;

/// Why timing is refused.
#[derive(Clone, Copy, Debug, PartialEq, Eq, Structural)]
pub enum TimingError {
    Capacity,
    Late,
    Overlap,
    ClockRegressed,
    /// The clock could not be read, or the shared recorder is unhealthy.
    Capture(CaptureError),
}

impl TimingError {
    /// The words of an error.
    pub open spec fn text(self) -> Seq<char> {
        match self {
            TimingError::Capacity => "timing capacity outside 1..=65536"@,
            TimingError::Late => "minimal calibration must precede work and closure"@,
            TimingError::Overlap => "minimal calibration overlaps work or has errors/loss"@,
            TimingError::ClockRegressed => "monotonic calibration clock regressed"@,
            TimingError::Capture(e) => e.text(),
        }
    }

    /// The words of this error.
    pub fn message(self) -> (s: &'static str)
        ensures
            s@ == self.text(),
    {
        match self {
            TimingError::Capacity => "timing capacity outside 1..=65536",
            TimingError::Late => "minimal calibration must precede work and closure",
            TimingError::Overlap => "minimal calibration overlaps work or has errors/loss",
            TimingError::ClockRegressed => "monotonic calibration clock regressed",
            TimingError::Capture(e) => e.message(),
        }
    }
}

/// The counters of a timing.
#[derive(Clone, Copy, Debug)]
pub struct TimingCounters {
    pub capacity: usize,
    pub started_spans: u64,
    pub completed_spans: u64,
    pub open_spans: u64,
    pub failed_spans: u64,
    pub lost: u64,
    pub after_close: u64,
    pub clock_failures: u64,
    pub closed_at_ns: Option<u64>,
    pub closed: bool,
    pub clock_resolution_ns: u64,
    pub record_bytes: u64,
    pub clock_read_samples_ns: [u64; 32],
    pub counter_cost_samples_ns: Option<[u64; 32]>,
}

/// What a timing holds.
pub struct TimingReport {
    pub records: Vec<Sample>,
    pub counters: TimingCounters,
}

/// A span that began. It ends once.
pub struct Span {
    pub sequence: u64,
    pub start_ns: u64,
    pub kind: SpanKind,
}

/// A timing of work spans.
pub struct TimingCapture {
    counters: TimingCounters,
    records: Vec<Sample>,
    exporting: bool,
}

/// What a timing holds.
pub struct TimingView {
    pub counters: TimingCounters,
    pub records: Seq<Sample>,
    pub exporting: bool,
}

impl View for TimingCapture {
    type V = TimingView;

    closed spec fn view(&self) -> TimingView {
        TimingView {
            counters: self.counters,
            records: self.records@,
            exporting: self.exporting,
        }
    }
}

/// The summary of the counters.
pub open spec fn summary_of(c: TimingCounters) -> Summary {
    Summary {
        capacity: c.capacity as u64,
        started_spans: c.started_spans,
        completed_spans: c.completed_spans,
        open_spans: c.open_spans,
        failed_spans: c.failed_spans,
        lost: c.lost,
        after_close: c.after_close,
        clock_failures: c.clock_failures,
        closed_at_ns: c.closed_at_ns,
        clock_resolution_ns: c.clock_resolution_ns,
        record_bytes: c.record_bytes,
        clock_read_samples_ns: c.clock_read_samples_ns,
    }
}

/// The time of a reading, and zero for none.
pub open spec fn reading(time: Option<u64>) -> u64 {
    match time {
        Some(ns) => ns,
        None => 0,
    }
}

impl TimingView {
    /// What is kept fits, and an exporting timing keeps nothing itself.
    pub open spec fn wf(self) -> bool {
        &&& 1 <= self.counters.capacity <= MAX_SAMPLES
        &&& self.records.len() <= self.counters.capacity
        &&& self.exporting ==> self.records.len() == 0
    }

    /// The timing once a span began.
    pub open spec fn begun(self, start: Option<u64>) -> TimingView {
        let c = self.counters;
        TimingView {
            counters: TimingCounters {
                started_spans: plus_one(c.started_spans),
                open_spans: plus_one(c.open_spans),
                clock_failures: if start is None {
                    plus_one(c.clock_failures)
                } else {
                    c.clock_failures
                },
                after_close: if c.closed {
                    plus_one(c.after_close)
                } else {
                    c.after_close
                },
                ..c
            },
            ..self
        }
    }

    /// A completed span is kept unless the timing is closed or full.
    pub open spec fn keeps(self) -> bool {
        !self.counters.closed && (self.exporting || self.records.len() < self.counters.capacity)
    }

    /// The counters once a span ended.
    pub open spec fn counted(self, span: Span, end: Option<u64>, status: SpanStatus) -> TimingCounters {
        let c = self.counters;
        let unread = if end is None {
            plus_one(c.clock_failures)
        } else {
            c.clock_failures
        };
        TimingCounters {
            open_spans: (c.open_spans - 1) as u64,
            completed_spans: plus_one(c.completed_spans),
            failed_spans: if status != SpanStatus::Succeeded {
                plus_one(c.failed_spans)
            } else {
                c.failed_spans
            },
            clock_failures: if reading(end) < span.start_ns {
                plus_one(unread)
            } else {
                unread
            },
            after_close: if c.closed {
                plus_one(c.after_close)
            } else {
                c.after_close
            },
            lost: if self.keeps() {
                c.lost
            } else {
                plus_one(c.lost)
            },
            ..c
        }
    }

    /// The sample of a span that ended.
    pub open spec fn sample(
        self,
        span: Span,
        end: Option<u64>,
        frame_bearing: bool,
        status: SpanStatus,
    ) -> Sample {
        Sample {
            sequence: plus_one(self.counters.completed_spans),
            span_id: span.sequence,
            kind: span.kind,
            start_ns: span.start_ns,
            end_ns: reading(end),
            frame_bearing,
            status,
        }
    }

    /// The timing once a span ended.
    pub open spec fn completed(
        self,
        span: Span,
        end: Option<u64>,
        frame_bearing: bool,
        status: SpanStatus,
    ) -> TimingView {
        TimingView {
            counters: self.counted(span, end, status),
            records: if self.keeps() && !self.exporting {
                self.records.push(self.sample(span, end, frame_bearing, status))
            } else {
                self.records
            },
            ..self
        }
    }

    /// What a shared recorder is offered when a span ends: its sample, or a summary
    /// once the timing is closed.
    pub open spec fn exported(
        self,
        span: Span,
        end: Option<u64>,
        frame_bearing: bool,
        status: SpanStatus,
    ) -> Option<EventKind> {
        if !self.exporting {
            None
        } else if self.keeps() {
            Some(EventKind::MinimalSpan(self.sample(span, end, frame_bearing, status)))
        } else {
            Some(EventKind::MinimalSummary(summary_of(self.counted(span, end, status))))
        }
    }

    /// The timing once it is closed. Closing again changes nothing.
    pub open spec fn closed_at(self, now: Option<u64>) -> TimingView {
        let c = self.counters;
        TimingView {
            counters: if c.closed {
                c
            } else {
                TimingCounters {
                    closed: true,
                    closed_at_ns: now,
                    clock_failures: if now is None {
                        plus_one(c.clock_failures)
                    } else {
                        c.clock_failures
                    },
                    ..c
                }
            },
            ..self
        }
    }

    /// Exactly the probes were timed, and nothing failed.
    pub open spec fn probed(self) -> bool {
        let c = self.counters;
        &&& !c.closed
        &&& c.started_spans == PROBES
        &&& c.completed_spans == PROBES
        &&& c.open_spans == 0
        &&& c.failed_spans == 0
        &&& c.clock_failures == 0
        &&& c.lost == 0
    }

    /// No failure, loss or open span, closed at a known time, and calibrated.
    pub open spec fn clean(self) -> bool {
        let c = self.counters;
        &&& c.open_spans == 0
        &&& c.failed_spans == 0
        &&& c.lost == 0
        &&& c.after_close == 0
        &&& c.clock_failures == 0
        &&& c.closed_at_ns is Some
        &&& c.counter_cost_samples_ns is Some
    }
}

/// The cost of one probe.
pub fn probe_cost(before: Result<u64, CaptureError>, after: Result<u64, CaptureError>) -> (r:
    Result<u64, TimingError>)
    ensures
        r == (match (before, after) {
            (Err(e), _) => Err::<u64, TimingError>(TimingError::Capture(e)),
            (Ok(_), Err(e)) => Err(TimingError::Capture(e)),
            (Ok(a), Ok(b)) => if b >= a {
                Ok((b - a) as u64)
            } else {
                Err(TimingError::ClockRegressed)
            },
        }),
{
    match (before, after) {
        (Err(e), _) => Err(TimingError::Capture(e)),
        (Ok(_), Err(e)) => Err(TimingError::Capture(e)),
        (Ok(a), Ok(b)) => if b >= a {
            Ok(b - a)
        } else {
            Err(TimingError::ClockRegressed)
        },
    }
}

/// A shared recorder, where there is one, is open and healthy.
pub open spec fn shared_healthy(raw: Option<CaptureView>) -> bool {
    raw matches Some(c) ==> c.healthy(false)
}

/// The view of a shared recorder, where there is one.
pub open spec fn shared_view(raw: Option<&Capture>) -> Option<CaptureView> {
    match raw {
        Some(capture) => Some(capture@),
        None => None,
    }
}

fn is_shared_healthy(raw: Option<&Capture>) -> (r: bool)
    ensures
        r == shared_healthy(shared_view(raw)),
{
    match raw {
        Some(capture) => capture.ensure_open_and_healthy().is_ok(),
        None => true,
    }
}

impl TimingCapture {
    /// A timing that keeps its samples, or that hands them out.
    pub fn new(
        capacity: usize,
        exporting: bool,
        samples: [u64; 32],
        resolution_ns: u64,
        record_bytes: u64,
    ) -> (r: Result<TimingCapture, TimingError>)
        ensures
            match r {
                Ok(timing) => {
                    &&& 1 <= capacity <= MAX_SAMPLES
                    &&& timing@.wf()
                    &&& timing@ == (TimingView {
                        counters: TimingCounters {
                            capacity,
                            started_spans: 0,
                            completed_spans: 0,
                            open_spans: 0,
                            failed_spans: 0,
                            lost: 0,
                            after_close: 0,
                            clock_failures: 0,
                            closed_at_ns: None,
                            closed: false,
                            clock_resolution_ns: resolution_ns,
                            record_bytes,
                            clock_read_samples_ns: samples,
                            counter_cost_samples_ns: None,
                        },
                        records: Seq::empty(),
                        exporting,
                    })
                },
                Err(e) => !(1 <= capacity <= MAX_SAMPLES) && e == TimingError::Capacity,
            },
    {
        if capacity < 1 || capacity > MAX_SAMPLES {
            return Err(TimingError::Capacity);
        }
        let timing = TimingCapture {
            counters: TimingCounters {
                capacity,
                started_spans: 0,
                completed_spans: 0,
                open_spans: 0,
                failed_spans: 0,
                lost: 0,
                after_close: 0,
                clock_failures: 0,
                closed_at_ns: None,
                closed: false,
                clock_resolution_ns: resolution_ns,
                record_bytes,
                clock_read_samples_ns: samples,
                counter_cost_samples_ns: None,
            },
            records: Vec::new(),
            exporting,
        };
        assert(timing@.records =~= Seq::empty());
        Ok(timing)
    }

    /// The counters.
    pub fn counters(&self) -> (c: TimingCounters)
        ensures
            c == self@.counters,
    {
        self.counters
    }

    /// Begins a span. A reading that failed counts, and the span starts at zero.
    pub fn begin(&mut self, start: Option<u64>, kind: SpanKind) -> (span: Span)
        requires
            old(self)@.wf(),
        ensures
            final(self)@.wf(),
            final(self)@ == old(self)@.begun(start),
            final(self)@.counters.open_spans >= 1,
            span == (Span {
                sequence: plus_one(old(self)@.counters.started_spans),
                start_ns: reading(start),
                kind,
            }),
    {
        let start_ns: u64 = match start {
            Some(ns) => ns,
            None => {
                self.counters.clock_failures = self.counters.clock_failures.saturating_add(1);
                0
            },
        };
        self.counters.started_spans = self.counters.started_spans.saturating_add(1);
        self.counters.open_spans = self.counters.open_spans.saturating_add(1);
        if self.counters.closed {
            self.counters.after_close = self.counters.after_close.saturating_add(1);
        }
        Span { sequence: self.counters.started_spans, start_ns, kind }
    }

    /// Ends a span and gives what a shared recorder is to be offered.
    pub fn complete(
        &mut self,
        span: Span,
        end: Option<u64>,
        frame_bearing: bool,
        status: SpanStatus,
    ) -> (export: Option<EventKind>)
        requires
            old(self)@.wf(),
            old(self)@.counters.open_spans >= 1,
        ensures
            final(self)@.wf(),
            final(self)@ == old(self)@.completed(span, end, frame_bearing, status),
            export == old(self)@.exported(span, end, frame_bearing, status),
    {
        let ghost before = self@;
        let end_ns: u64 = match end {
            Some(ns) => ns,
            None => {
                self.counters.clock_failures = self.counters.clock_failures.saturating_add(1);
                0
            },
        };
        if end_ns < span.start_ns {
            self.counters.clock_failures = self.counters.clock_failures.saturating_add(1);
        }
        self.counters.open_spans = self.counters.open_spans - 1;
        self.counters.completed_spans = self.counters.completed_spans.saturating_add(1);
        if status != SpanStatus::Succeeded {
            self.counters.failed_spans = self.counters.failed_spans.saturating_add(1);
        }
        if self.counters.closed {
            self.counters.after_close = self.counters.after_close.saturating_add(1);
        }
        if self.counters.closed || (!self.exporting && self.records.len()
            == self.counters.capacity) {
            self.counters.lost = self.counters.lost.saturating_add(1);
            if self.exporting {
                return Some(EventKind::MinimalSummary(self.summary()));
            }
            return None;
        }
        let sample = Sample {
            sequence: self.counters.completed_spans,
            span_id: span.sequence,
            kind: span.kind,
            start_ns: span.start_ns,
            end_ns,
            frame_bearing,
            status,
        };
        if self.exporting {
            Some(EventKind::MinimalSpan(sample))
        } else {
            self.records.push(sample);
            None
        }
    }

    /// Ends a span that succeeded or failed.
    pub fn finish(&mut self, span: Span, end: Option<u64>, frame_bearing: bool, success: bool) -> (
    export: Option<EventKind>)
        requires
            old(self)@.wf(),
            old(self)@.counters.open_spans >= 1,
        ensures
            final(self)@.wf(),
            ({
                let status = if success {
                    SpanStatus::Succeeded
                } else {
                    SpanStatus::Failed
                };
                &&& final(self)@ == old(self)@.completed(span, end, frame_bearing, status)
                &&& export == old(self)@.exported(span, end, frame_bearing, status)
            }),
    {
        let status: SpanStatus = if success {
            SpanStatus::Succeeded
        } else {
            SpanStatus::Failed
        };
        self.complete(span, end, frame_bearing, status)
    }

    /// Ends a span that was dropped: it never passes for work that succeeded.
    pub fn abandon(&mut self, span: Span, end: Option<u64>) -> (export: Option<EventKind>)
        requires
            old(self)@.wf(),
            old(self)@.counters.open_spans >= 1,
        ensures
            final(self)@.wf(),
            final(self)@ == old(self)@.completed(span, end, false, SpanStatus::Abandoned),
            export == old(self)@.exported(span, end, false, SpanStatus::Abandoned),
    {
        self.complete(span, end, false, SpanStatus::Abandoned)
    }

    fn summary(&self) -> (s: Summary)
        ensures
            s == summary_of(self@.counters),
    {
        let c: &TimingCounters = &self.counters;
        Summary {
            capacity: c.capacity as u64,
            started_spans: c.started_spans,
            completed_spans: c.completed_spans,
            open_spans: c.open_spans,
            failed_spans: c.failed_spans,
            lost: c.lost,
            after_close: c.after_close,
            clock_failures: c.clock_failures,
            closed_at_ns: c.closed_at_ns,
            clock_resolution_ns: c.clock_resolution_ns,
            record_bytes: c.record_bytes,
            clock_read_samples_ns: c.clock_read_samples_ns,
        }
    }

    /// Closes the timing. Every close offers a summary to a shared recorder.
    pub fn close(&mut self, now: Option<u64>) -> (export: Option<EventKind>)
        requires
            old(self)@.wf(),
        ensures
            final(self)@.wf(),
            final(self)@ == old(self)@.closed_at(now),
            export == (if old(self)@.exporting {
                Some(EventKind::MinimalSummary(summary_of(final(self)@.counters)))
            } else {
                None
            }),
    {
        if !self.counters.closed {
            self.counters.closed = true;
            self.counters.closed_at_ns = now;
            if now.is_none() {
                self.counters.clock_failures = self.counters.clock_failures.saturating_add(1);
            }
        }
        if self.exporting {
            Some(EventKind::MinimalSummary(self.summary()))
        } else {
            None
        }
    }

    /// What the timing holds.
    pub fn report(&self) -> (r: TimingReport)
        ensures
            r.records@ == self@.records,
            r.counters == self@.counters,
    {
        let mut records: Vec<Sample> = Vec::new();
        let mut i: usize = 0;
        while i < self.records.len()
            invariant
                i <= self.records@.len(),
                records@ == self.records@.take(i as int),
            decreases self.records@.len() - i,
        {
            records.push(self.records[i]);
            i += 1;
            assert(self.records@.take(i as int) =~= self.records@.take(i - 1).push(
                self.records@[i - 1],
            ));
        }
        assert(self.records@.take(i as int) =~= self.records@);
        TimingReport { records, counters: self.counters }
    }

    /// A calibration comes before any work and before closing, and a shared recorder
    /// is open and healthy.
    pub fn begin_calibration(&self, raw: Option<&Capture>) -> (r: Result<(), TimingError>)
        ensures
            match r {
                Ok(()) => !self@.counters.closed && self@.counters.started_spans == 0
                    && shared_healthy(shared_view(raw)),
                Err(TimingError::Late) => self@.counters.closed || self@.counters.started_spans
                    != 0,
                Err(TimingError::Capture(CaptureError::Unhealthy)) => !self@.counters.closed
                    && self@.counters.started_spans == 0 && !shared_healthy(shared_view(raw)),
                Err(_) => false,
            },
    {
        if self.counters.closed || self.counters.started_spans != 0 {
            return Err(TimingError::Late);
        }
        if !is_shared_healthy(raw) {
            return Err(TimingError::Capture(CaptureError::Unhealthy));
        }
        Ok(())
    }

    /// The probes are done: gives the aggregate that a shared recorder is to be offered.
    pub fn probes_done(&self, raw: Option<&Capture>, cost_ns: [u64; 32]) -> (r: Result<
        Option<EventKind>,
        TimingError,
    >)
        ensures
            match r {
                Ok(export) => {
                    &&& self@.probed()
                    &&& shared_healthy(shared_view(raw))
                    &&& export == (if raw is Some {
                        Some(EventKind::MinimalCalibration { cost_ns })
                    } else {
                        None
                    })
                },
                Err(TimingError::Overlap) => !self@.probed(),
                Err(TimingError::Capture(CaptureError::Unhealthy)) => self@.probed()
                    && !shared_healthy(shared_view(raw)),
                Err(_) => false,
            },
    {
        let c: &TimingCounters = &self.counters;
        if !(!c.closed && c.started_spans == PROBES && c.completed_spans == PROBES && c.open_spans
            == 0 && c.failed_spans == 0 && c.clock_failures == 0 && c.lost == 0) {
            return Err(TimingError::Overlap);
        }
        if !is_shared_healthy(raw) {
            return Err(TimingError::Capture(CaptureError::Unhealthy));
        }
        match raw {
            Some(_) => Ok(Some(EventKind::MinimalCalibration { cost_ns })),
            None => Ok(None),
        }
    }

    /// The costs hold once a shared recorder kept the aggregate.
    pub fn calibrated(&mut self, raw: Option<&Capture>, cost_ns: [u64; 32]) -> (r: Result<
        (),
        TimingError,
    >)
        ensures
            match r {
                Ok(()) => shared_healthy(shared_view(raw)) && final(self)@ == (TimingView {
                    counters: TimingCounters {
                        counter_cost_samples_ns: Some(cost_ns),
                        ..old(self)@.counters
                    },
                    ..old(self)@
                }),
                Err(e) => !shared_healthy(shared_view(raw)) && e == TimingError::Capture(
                    CaptureError::Unhealthy,
                ) && final(self)@ == old(self)@,
            },
    {
        if !is_shared_healthy(raw) {
            return Err(TimingError::Capture(CaptureError::Unhealthy));
        }
        self.counters.counter_cost_samples_ns = Some(cost_ns);
        Ok(())
    }

    /// Whether nothing failed, was lost or is still open.
    pub fn is_clean(&self) -> (r: bool)
        ensures
            r == self@.clean(),
    {
        let c: &TimingCounters = &self.counters;
        c.open_spans == 0 && c.failed_spans == 0 && c.lost == 0 && c.after_close == 0
            && c.clock_failures == 0 && c.closed_at_ns.is_some()
            && c.counter_cost_samples_ns.is_some()
    }
}

/// Every span that began is completed or open, as long as the counters do not run
/// over.
pub proof fn law_spans_are_completed_or_open(
    t: TimingView,
    start: Option<u64>,
    span: Span,
    end: Option<u64>,
    frame_bearing: bool,
    status: SpanStatus,
)
    requires
        t.counters.started_spans == t.counters.completed_spans + t.counters.open_spans,
        t.counters.started_spans < u64::MAX,
    ensures
        t.begun(start).counters.started_spans == t.begun(start).counters.completed_spans + t.begun(
            start,
        ).counters.open_spans,
        t.counters.open_spans >= 1 ==> ({
            let after = t.completed(span, end, frame_bearing, status).counters;
            after.started_spans == after.completed_spans + after.open_spans
        }),
{
}

/// Closing early cannot hide a span: it stays open, and when it ends it is counted as
/// lost and as activity after closing, and the closing time stays.
pub proof fn law_early_close_hides_nothing(
    t: TimingView,
    now: Option<u64>,
    span: Span,
    end: Option<u64>,
    frame_bearing: bool,
    status: SpanStatus,
)
    requires
        t.wf(),
        t.counters.open_spans >= 1,
    ensures
        ({
            let closed = t.closed_at(now);
            let after = closed.completed(span, end, frame_bearing, status);
            &&& closed.counters.open_spans == t.counters.open_spans
            &&& after.counters.lost == plus_one(t.counters.lost)
            &&& after.counters.after_close == plus_one(t.counters.after_close)
            &&& after.counters.closed_at_ns == closed.counters.closed_at_ns
            &&& after.records == t.records
            &&& !after.clean()
        }),
{
}

/// Every span that ended was kept or is counted as lost, in a timing that keeps its samples
/// itself.
pub open spec fn kept_or_lost(t: TimingView) -> bool {
    t.counters.completed_spans == t.records.len() + t.counters.lost
}

/// A timing that keeps its samples itself never loses one silently: beginning, ending and
/// closing keep the count of ended spans equal to those kept and those lost.
pub proof fn law_ended_spans_are_kept_or_lost(
    t: TimingView,
    time: Option<u64>,
    span: Span,
    frame_bearing: bool,
    status: SpanStatus,
)
    requires
        t.wf(),
        !t.exporting,
        kept_or_lost(t),
        t.counters.completed_spans < u64::MAX,
    ensures
        kept_or_lost(t.begun(time)),
        kept_or_lost(t.completed(span, time, frame_bearing, status)),
        kept_or_lost(t.closed_at(time)),
{
}

} // verus!
