use sliver::capture_storage::{
    snapshot_mapping, Collector, DescriptorFacts, MappedWriter, RawReport, SourceRole, WordWrite,
};
use sliver::events::{EventKind, SpanKind, SpanStatus};
use sliver::fake_touch_bar::{FakeError, FakeTouchBar};
use sliver::hardware::{HardwareCapability, HardwareEvent, LogicalFrame, RealBits};
use sliver::marker::DecodeError;
use sliver::observer::{Capture, CaptureError};
use sliver::timing::{probe_cost, TimingCapture, TimingError, MAX_SAMPLES};

/// A clock that moves by one at every reading.
struct Clock(u64);

impl Clock {
    fn read(&mut self) -> Option<u64> {
        self.0 += 1;
        Some(self.0)
    }
    fn time(&mut self) -> Result<u64, CaptureError> {
        self.0 += 1;
        Ok(self.0)
    }
}

struct Storage {
    words: Vec<u64>,
    capacity: usize,
}

impl Storage {
    fn with_capture(capacity: usize) -> (Storage, Capture) {
        let (mut collector, mut words) = Collector::new(capacity).ok().unwrap();
        collector.take_worker_storage().unwrap();
        let facts = DescriptorFacts {
            regular: true,
            size_sealed: true,
            read_write: true,
            size: words.len() as i64 * 8,
        };
        let writer =
            MappedWriter::receive_for_role(facts, &mut words, SourceRole::Worker).unwrap();
        let capture = Capture::from_mapped(writer, [1; 32], 1).ok().unwrap();
        (Storage { words, capacity }, capture)
    }
    fn apply(&mut self, writes: Vec<WordWrite>) {
        for write in writes {
            self.words[write.index] = write.value;
        }
    }
    fn snapshot(&self) -> RawReport {
        snapshot_mapping(&self.words, self.words[7], self.words[7], self.capacity)
            .ok()
            .unwrap()
    }
}

fn exporting(capacity: usize) -> TimingCapture {
    TimingCapture::new(capacity, true, [1; 32], 1, 40).ok().unwrap()
}

fn keeping(capacity: usize) -> TimingCapture {
    TimingCapture::new(capacity, false, [1; 32], 1, 40).ok().unwrap()
}

fn calibrate(
    timing: &mut TimingCapture,
    raw: &mut Capture,
    clock: &mut Clock,
) -> Result<[u64; 32], TimingError> {
    timing.begin_calibration(Some(raw))?;
    let mut costs = [0; 32];
    for cost in &mut costs {
        let before = clock.time();
        let start = clock.read();
        let span = timing.begin(start, SpanKind::Calibration);
        let end = clock.read();
        if let Some(kind) = timing.finish(span, end, false, true) {
            raw.record_at(clock.read(), kind);
        }
        let after = clock.time();
        *cost = probe_cost(before, after)?;
    }
    if let Some(kind) = timing.probes_done(Some(raw), costs)? {
        raw.record_at(clock.read(), kind);
    }
    timing.calibrated(Some(raw), costs)?;
    Ok(costs)
}

fn close(timing: &mut TimingCapture, raw: &mut Capture, clock: &mut Clock) {
    let now = clock.read();
    if let Some(kind) = timing.close(now) {
        raw.record_at(clock.read(), kind);
    }
}

#[test]
fn private_minimal_timing_exports_actual_samples_without_a_second_record_buffer() {
    let mut clock = Clock(0);
    let (mut storage, mut capture) = Storage::with_capture(8);
    let mut timing = exporting(8);
    let mut hardware = FakeTouchBar::new();
    hardware.claim().unwrap();
    let frame = LogicalFrame::from_parts(2, 1, 8, vec![255; 8]);
    let span = timing.begin(clock.read(), SpanKind::Present);
    let result = hardware.present(&frame);
    let end = clock.read();
    let export = timing.finish(span, end, true, result.is_ok()).unwrap();
    capture.record_at(clock.read(), export);
    close(&mut timing, &mut capture, &mut clock);
    let local = timing.report();
    assert!(local.records.is_empty());
    assert_eq!(local.counters.completed_spans, 1);
    capture.finish(clock.read());
    storage.apply(capture.take_writes());
    let raw = storage.snapshot();
    assert!(raw.report.counters.closed && raw.metadata_consistent);
    assert_eq!(raw.report.counters.lost, 0);
    assert_eq!(raw.report.records.len(), 2);
    let EventKind::MinimalSpan(sample) = &raw.report.records[0].kind else {
        panic!("actual present sample was not exported");
    };
    assert_eq!(sample.kind, SpanKind::Present);
    assert_eq!(sample.status, SpanStatus::Succeeded);
    assert!(sample.start_ns <= sample.end_ns);
    let EventKind::MinimalSummary(summary) = &raw.report.records[1].kind else {
        panic!("closure metadata was not exported");
    };
    assert_eq!(summary.completed_spans, 1);
    assert_eq!(summary.open_spans, 0);
    assert!(summary.closed_at_ns.is_some_and(|closed| closed >= sample.end_ns));
}

#[test]
fn private_minimal_timing_calibrates_complete_sampler_cost_without_work_credit() {
    let mut clock = Clock(0);
    let (mut storage, mut capture) = Storage::with_capture(40);
    let mut timing = exporting(40);
    let costs = calibrate(&mut timing, &mut capture, &mut clock).unwrap();
    assert_eq!(calibrate(&mut timing, &mut capture, &mut clock), Err(TimingError::Late));
    close(&mut timing, &mut capture, &mut clock);
    let report = timing.report();
    assert_eq!(report.counters.counter_cost_samples_ns, Some(costs));
    assert_eq!(report.counters.completed_spans, 32);
    assert_eq!(report.counters.failed_spans, 0);
    capture.finish(clock.read());
    storage.apply(capture.take_writes());
    let raw = storage.snapshot();
    assert_eq!(raw.report.counters.lost, 0);
    let samples: Vec<_> = raw
        .report
        .records
        .iter()
        .filter_map(|row| match &row.kind {
            EventKind::MinimalSpan(sample) => Some(sample),
            _ => None,
        })
        .collect();
    assert_eq!(samples.len(), 32);
    for (sample, cost) in samples.iter().zip(costs) {
        assert_eq!(sample.kind, SpanKind::Calibration);
        assert!(!sample.frame_bearing);
        assert!(cost >= sample.end_ns - sample.start_ns);
    }
    assert!(raw.report.records.iter().any(|row| matches!(row.kind,
        EventKind::MinimalCalibration { cost_ns } if cost_ns == costs)));
}

#[test]
fn private_minimal_timing_calibration_cannot_hide_shared_source_overflow() {
    let mut clock = Clock(0);
    let (mut storage, mut capture) = Storage::with_capture(1);
    let mut timing = exporting(64);
    assert!(calibrate(&mut timing, &mut capture, &mut clock).is_err());
    close(&mut timing, &mut capture, &mut clock);
    assert!(timing.report().counters.counter_cost_samples_ns.is_none());
    capture.finish(clock.read());
    storage.apply(capture.take_writes());
    assert!(storage.snapshot().report.counters.lost > 0);
}

#[test]
fn private_minimal_timing_calibration_checks_aggregate_retention_and_existing_raw_errors() {
    let mut clock = Clock(0);
    let (mut storage, mut capture) = Storage::with_capture(32);
    let mut timing = exporting(64);
    assert!(calibrate(&mut timing, &mut capture, &mut clock).is_err());
    storage.apply(capture.take_writes());
    let raw = storage.snapshot();
    assert_eq!(raw.report.records.len(), 32);
    assert_eq!(raw.report.counters.lost, 1);
    assert!(!raw.report.counters.closed);
    close(&mut timing, &mut capture, &mut clock);
    assert!(timing.report().counters.counter_cost_samples_ns.is_none());

    for failure in 0..4 {
        let mut capture = Capture::new(64, [1; 32], 1).ok().unwrap();
        match failure {
            0 => capture.record_at(clock.read(), EventKind::WorkerRunFailed),
            1 => capture.record_at(None, EventKind::WorkerCaptureConfigured { detailed: false }),
            2 => capture.record_at(
                clock.read(),
                EventKind::Published {
                    sequence: 1,
                    allocation: None,
                    marker: Err(DecodeError::Geometry),
                },
            ),
            _ => capture.finish(clock.read()),
        }
        let mut timing = exporting(64);
        assert_eq!(
            calibrate(&mut timing, &mut capture, &mut clock),
            Err(TimingError::Capture(CaptureError::Unhealthy))
        );
        close(&mut timing, &mut capture, &mut clock);
        let local = timing.report();
        assert_eq!(local.counters.started_spans, 0);
        assert!(local.counters.counter_cost_samples_ns.is_none());
        capture.finish(clock.read());
        let raw = capture.report();
        assert_eq!(raw.counters.failed_operations, u64::from(failure == 0));
        assert_eq!(raw.counters.clock_failures, u64::from(failure == 1));
        assert_eq!(raw.counters.decode_failures, u64::from(failure == 2));
        assert!(!raw
            .records
            .iter()
            .any(|record| matches!(record.kind, EventKind::MinimalCalibration { .. })));
    }
}

#[test]
fn private_minimal_timing_early_close_cannot_hide_open_or_abandoned_work() {
    let mut timing = keeping(4);
    let span = timing.begin(Some(1), SpanKind::SupervisorDrive);
    timing.close(Some(2));
    let early = timing.report();
    assert_eq!(early.counters.open_spans, 1);
    assert_eq!(early.counters.completed_spans, 0);
    timing.abandon(span, Some(3));
    timing.close(Some(4));
    let after = timing.report();
    assert_eq!(after.counters.open_spans, 0);
    assert_eq!(after.counters.completed_spans, 1);
    assert_eq!(after.counters.failed_spans, 1);
    assert_eq!(after.counters.after_close, 1);
    assert_eq!(after.counters.lost, 1);
    assert!(after.records.is_empty());
    assert_eq!(after.counters.closed_at_ns, early.counters.closed_at_ns);
    assert!(!timing.is_clean());
}

#[test]
fn private_minimal_timing_abandoned_spans_are_not_success_samples() {
    let mut timing = keeping(4);
    let span = timing.begin(Some(1), SpanKind::SupervisorDrive);
    timing.abandon(span, Some(2));
    timing.close(Some(3));
    let report = timing.report();
    assert_eq!(report.counters.failed_spans, 1);
    assert_eq!(report.counters.open_spans, 0);
    assert_eq!(report.counters.lost, 0);
    assert_eq!(report.records.len(), 1);
    assert_eq!(report.records[0].status, SpanStatus::Abandoned);
    assert!(report.records[0].start_ns <= report.records[0].end_ns);
}

/// A Touch Bar whose calls are recorded and timed where that is wanted.
struct ObservedHardware {
    hardware: FakeTouchBar,
    raw: Capture,
    timing: TimingCapture,
    enabled: bool,
    clock: Clock,
}

impl ObservedHardware {
    fn present(&mut self, frame: &LogicalFrame) -> Result<(), FakeError> {
        if !self.enabled {
            return self.hardware.present(frame);
        }
        let span = self.timing.begin(self.clock.read(), SpanKind::Present);
        let call = self.raw.present_entered(self.clock.read(), frame);
        let result = self.hardware.present(frame);
        self.raw.present_returned(self.clock.read(), call, result.is_ok());
        let end = self.clock.read();
        self.timing.finish(span, end, true, result.is_ok());
        result
    }
    fn poll(&mut self) -> Result<Vec<HardwareEvent>, FakeError> {
        let result = self.hardware.poll();
        if self.enabled {
            let events = result.as_ref().ok().cloned();
            let received = if Capture::poll_needs_clock(&events) {
                self.clock.read()
            } else {
                None
            };
            self.raw.polled(received, &events);
        }
        result
    }
}

#[test]
fn private_broker_capture_preserves_adapter_failures_and_lifecycle_with_capture_off_or_on() {
    let frame = LogicalFrame::from_parts(2, 1, 8, vec![255; 8]);
    let quarter = RealBits {
        bits: 0.25_f64.to_bits(),
    };
    for enabled in [false, true] {
        let mut hardware = ObservedHardware {
            hardware: FakeTouchBar::new(),
            raw: Capture::new(32, [1; 32], 1).ok().unwrap(),
            timing: keeping(8),
            enabled,
            clock: Clock(0),
        };
        hardware.hardware.inject(HardwareEvent::Capability {
            capability: HardwareCapability::Display,
            present: false,
        });
        assert!(hardware.present(&frame).unwrap_err().message().contains("not claimed"));
        assert!(hardware.poll().unwrap_err().message().contains("not claimed"));
        hardware.hardware.claim().unwrap();
        assert!(hardware.hardware.is_available());
        assert_eq!(hardware.poll().unwrap().len(), 1);
        assert!(!hardware.hardware.is_available());
        assert_eq!(
            hardware.hardware.unavailable_capability(),
            Some(HardwareCapability::Display)
        );
        hardware.hardware.release();
        hardware.hardware.reacquire().unwrap();
        assert!(hardware.hardware.is_available());
        hardware.hardware.set_backlight(quarter).unwrap();
        assert_eq!(hardware.hardware.get_backlight().unwrap(), quarter);
        hardware.present(&frame).unwrap();
        hardware.hardware.release();
        hardware.raw.finish(hardware.clock.read());
        hardware.timing.close(hardware.clock.read());
        let report = hardware.raw.report();
        let minimal = hardware.timing.report();
        if enabled {
            assert_eq!(report.counters.failed_operations, 2);
            assert_eq!(report.counters.decode_failures, 2);
            assert_eq!(report.counters.lost, 0);
            assert_eq!(minimal.counters.failed_spans, 1);
            assert_eq!(minimal.records.len(), 2);
            assert_eq!(minimal.records[0].status, SpanStatus::Failed);
            assert_eq!(minimal.records[1].status, SpanStatus::Succeeded);
            for sample in &minimal.records {
                let within = |at: u64| at >= sample.start_ns && at <= sample.end_ns;
                let entered = report.records.iter().find(|record| {
                    matches!(record.kind, EventKind::PresentEntered { .. }) && within(record.at_ns)
                });
                let returned = report.records.iter().find(|record| {
                    matches!(record.kind, EventKind::PresentReturned { .. }) && within(record.at_ns)
                });
                assert!(
                    entered.is_some() && returned.is_some(),
                    "minimal span did not enclose detailed adapter seams"
                );
            }
        } else {
            assert!(report.records.is_empty());
            assert!(minimal.records.is_empty());
        }
    }
}

#[test]
fn timing_keeps_what_fits_and_counts_bad_clocks() {
    let mut timing = keeping(1);
    let first = timing.begin(None, SpanKind::Present);
    assert_eq!(first.start_ns, 0);
    timing.finish(first, Some(4), true, true);
    let second = timing.begin(Some(10), SpanKind::Present);
    timing.finish(second, Some(9), true, true);
    let third = timing.begin(Some(11), SpanKind::Present);
    timing.finish(third, None, true, true);
    let report = timing.report();
    assert_eq!(report.records.len(), 1);
    assert_eq!(report.counters.lost, 2);
    assert_eq!(report.counters.completed_spans, 3);
    assert_eq!(report.counters.clock_failures, 4);
    assert!(TimingCapture::new(0, false, [0; 32], 1, 40).is_err());
    assert!(TimingCapture::new(MAX_SAMPLES + 1, false, [0; 32], 1, 40).is_err());
    assert_eq!(probe_cost(Ok(4), Ok(9)), Ok(5));
    assert_eq!(probe_cost(Ok(9), Ok(4)), Err(TimingError::ClockRegressed));
    let unread = Err(CaptureError::ClockRead);
    let invalid = Err(CaptureError::ClockInvalid);
    assert_eq!(
        probe_cost(unread, invalid),
        Err(TimingError::Capture(CaptureError::ClockRead))
    );
    assert_eq!(
        probe_cost(Ok(4), invalid),
        Err(TimingError::Capture(CaptureError::ClockInvalid))
    );
    assert!(timing.probes_done(None, [0; 32]).is_err());
}
