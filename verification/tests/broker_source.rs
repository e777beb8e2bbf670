use sliver::bootstrap::FixtureBootstrap;
use sliver::broker_source::{BrokerCapture, ClockFacts, ClosingTimes, SourceError};
use sliver::capture_storage::{
    snapshot_mapping, Collector, DescriptorFacts, MappedWriter, RawReport, SourceRole,
};
use sliver::events::{EventKind, Mode, Operation, SpanKind, SpanStatus};
use sliver::fake_touch_bar::{FakeError, FakeTouchBar};
use sliver::hardware::{
    HardwareEvent, LogicalFrame, ModifierState, RealBits, TouchEvent, TouchPhase,
};
use sliver::observer::CaptureError;
use sliver::timing::{probe_cost, TimingError};

const START_NS: u64 = 10_000_000_000;

struct Source {
    capture: BrokerCapture,
    words: Vec<u64>,
    capacity: usize,
    clock: u64,
}

fn storage(capacity: usize) -> (MappedWriter, Vec<u64>) {
    let (mut collector, mut words) = Collector::for_role(capacity, SourceRole::Broker)
        .ok()
        .unwrap();
    collector.take_storage(SourceRole::Broker).unwrap();
    let facts = DescriptorFacts {
        regular: true,
        size_sealed: true,
        read_write: true,
        size: words.len() as i64 * 8,
    };
    let writer = MappedWriter::receive_for_role(facts, &mut words, SourceRole::Broker).unwrap();
    (writer, words)
}

fn facts() -> ClockFacts {
    ClockFacts {
        samples_ns: [1; 32],
        resolution_ns: 1,
    }
}

impl Source {
    /// A source that has recorded its configuration and is not calibrated yet.
    fn configured(mode: Mode, capacity: usize) -> Source {
        let plan = FixtureBootstrap::new(b"broker-test", b"child", START_NS, 30, mode)
            .ok()
            .unwrap();
        let (writer, words) = storage(capacity);
        let capture =
            BrokerCapture::from_writer(plan, writer, Ok(1), facts(), facts(), 40, Some(2))
                .ok()
                .unwrap();
        Source {
            capture,
            words,
            capacity,
            clock: 2,
        }
    }
    fn new(mode: Mode, capacity: usize) -> Source {
        let mut source = Source::configured(mode, capacity);
        source.calibrate().unwrap();
        source
    }
    fn read(&mut self) -> Option<u64> {
        self.clock += 1;
        Some(self.clock)
    }
    fn time(&mut self) -> Result<u64, CaptureError> {
        self.clock += 1;
        Ok(self.clock)
    }
    fn calibrate(&mut self) -> Result<(), SourceError> {
        self.capture.begin_calibration()?;
        let mut costs = [0; 32];
        for cost in &mut costs {
            let before = self.time();
            let start = self.read();
            let span = self.capture.begin_probe(start);
            let (end, exported) = (self.read(), self.read());
            self.capture.finish_probe(span, end, exported);
            let after = self.time();
            *cost = probe_cost(before, after).unwrap();
        }
        let (aggregated, now) = (self.read(), self.time());
        self.capture.finish_calibration(costs, aggregated, now)
    }
    fn closing(&mut self) -> ClosingTimes {
        ClosingTimes {
            timing: self.read(),
            summary: self.read(),
            operation: self.read(),
            recorder: self.read(),
        }
    }
    fn finish(&mut self) -> Result<(), SourceError> {
        let at = self.closing();
        self.capture.finish(true, at)
    }
    fn abandon(&mut self) {
        let at = self.closing();
        let _ = self.capture.finish(false, at);
    }
    fn operation(&mut self, operation: Operation, success: bool) {
        let at = self.read();
        self.capture.activity(at);
        let at = self.read();
        self.capture.operation(at, operation, success);
    }
    fn present(&mut self, hardware: &mut FakeTouchBar, frame: &LogicalFrame) -> Result<(), FakeError> {
        let (activity, mismatch, entered, start) =
            (self.read(), self.read(), self.read(), self.read());
        let (call, span) = self
            .capture
            .present_entered(frame, activity, mismatch, entered, start);
        let result = hardware.present(frame);
        let (returned, exported) = (self.read(), self.read());
        self.capture
            .present_returned(span, call, returned, exported, result.is_ok());
        result
    }
    fn poll(&mut self, hardware: &mut FakeTouchBar) -> Result<Vec<HardwareEvent>, FakeError> {
        let at = self.read();
        self.capture.activity(at);
        let result = hardware.poll();
        let events = result.as_ref().ok().cloned();
        let received = self.read();
        self.capture.polled(received, &events);
        result
    }
    fn snapshot(&mut self) -> RawReport {
        for write in self.capture.take_writes() {
            self.words[write.index] = write.value;
        }
        snapshot_mapping(&self.words, self.words[7], self.words[7], self.capacity)
            .ok()
            .unwrap()
    }
}

fn number(value: f64) -> RealBits {
    RealBits {
        bits: value.to_bits(),
    }
}

fn frame() -> LogicalFrame {
    LogicalFrame::from_parts(2008, 60, 8032, vec![0; 8032 * 60])
}

#[test]
fn private_broker_source_all_modes_retain_actual_errors_and_all_normalized_input() {
    for mode in [Mode::A, Mode::B, Mode::C] {
        let mut source = Source::new(mode, 256);
        let mut fake = FakeTouchBar::new();
        let mut expected = Vec::new();
        for phase in [TouchPhase::Down, TouchPhase::Move, TouchPhase::Up] {
            let event = HardwareEvent::Touch(TouchEvent {
                phase,
                id: 7,
                time: number(0.25),
                x: number(10.0),
                y: number(20.0),
                modifiers: ModifierState::empty(),
                pressure: None,
                width: None,
                height: None,
            });
            fake.inject(event);
            expected.push(event);
        }
        fake.inject(HardwareEvent::Fn { active: true });
        expected.push(HardwareEvent::Fn { active: true });
        assert!(source
            .present(&mut fake, &frame())
            .unwrap_err()
            .message()
            .contains("not claimed"));
        assert!(source.poll(&mut fake).is_err());
        let claimed = fake.claim().is_ok();
        source.operation(Operation::Claim, claimed);
        assert_eq!(source.poll(&mut fake).unwrap(), expected);
        source.present(&mut fake, &frame()).unwrap();
        fake.release();
        source.operation(Operation::Release, true);
        assert!(source.finish().is_err());
        let raw = source.snapshot();
        assert!(raw.initialized && raw.metadata_consistent && raw.report.counters.closed);
        assert_eq!(raw.report.counters.lost, 0);
        let receipts: Vec<_> = raw
            .report
            .records
            .iter()
            .filter_map(|r| match r.kind {
                EventKind::InputReceived(event) => Some((r.at_ns, event)),
                _ => None,
            })
            .collect();
        assert_eq!(receipts.iter().map(|r| r.1).collect::<Vec<_>>(), expected);
        assert!(receipts.windows(2).all(|w| w[0].0 == w[1].0));
        let samples: Vec<_> = raw
            .report
            .records
            .iter()
            .filter_map(|r| match &r.kind {
                EventKind::MinimalSpan(s) if s.kind == SpanKind::Present => Some(s),
                _ => None,
            })
            .collect();
        assert_eq!(samples.len(), 2);
        assert_eq!(samples[0].status, SpanStatus::Failed);
        assert_eq!(samples[1].status, SpanStatus::Succeeded);
        assert!(samples.iter().all(|s| s.start_ns <= s.end_ns));
        assert_eq!(
            raw.report.counters.decode_failures,
            if mode == Mode::C { 2 } else { 0 }
        );
        if mode == Mode::C {
            let returns: Vec<_> = raw
                .report
                .records
                .iter()
                .filter(|r| matches!(r.kind, EventKind::PresentReturned { .. }))
                .collect();
            assert_eq!(returns.len(), 2);
            for (sample, returned) in samples.iter().zip(returns) {
                assert_eq!(
                    sample.end_ns, returned.at_ns,
                    "hardware duration and endpoint must use the exact same return reading"
                );
            }
        } else {
            assert!(!raw.report.records.iter().any(|r| matches!(
                r.kind,
                EventKind::PresentEntered { .. } | EventKind::PresentReturned { .. }
            )));
        }
    }
}

#[test]
fn private_broker_source_panicked_operation_cannot_be_closed_as_healthy() {
    let mut source = Source::new(Mode::A, 128);
    let at = source.read();
    source.capture.activity(at);
    // The operation never returned; whoever comes next finds it so.
    let at = source.read();
    source.capture.poisoned(at);
    assert!(
        source.finish().is_err(),
        "a panicked source operation disappeared at closure"
    );
    assert!(source.snapshot().report.counters.failed_operations > 0);
}

#[test]
fn private_broker_source_closure_is_idempotent_and_never_silently_disarms() {
    let mut source = Source::new(Mode::A, 128);
    let mut hardware = FakeTouchBar::new();
    let claimed = hardware.claim().is_ok();
    source.operation(Operation::Claim, claimed);
    source.present(&mut hardware, &frame()).unwrap();
    hardware.release();
    source.operation(Operation::Release, true);
    assert_eq!(source.finish(), Ok(()));
    let first = source.snapshot().report.counters;
    assert_eq!(source.finish(), Ok(()));
    assert_eq!(
        source.snapshot().report.counters.attempted_records,
        first.attempted_records
    );
    assert!(source.poll(&mut hardware).is_err());
    assert!(source.finish().is_err());
    let after = source.snapshot().report.counters;
    assert!(after.after_close > 0 && after.lost > 0);
    assert_eq!(after.closed_at_ns, first.closed_at_ns);
}

#[test]
fn private_broker_source_abandonment_and_setup_or_terminal_overflow_cannot_close_cleanly() {
    let mut source = Source::new(Mode::A, 128);
    source.abandon();
    let report = source.snapshot().report;
    assert!(report.counters.closed && report.counters.failed_operations > 0);
    assert!(report.records.iter().any(|r| matches!(
        r.kind,
        EventKind::BrokerOperation {
            operation: Operation::SourceAbandoned,
            success: false,
        }
    )));
    // Configuration, probes and aggregate fit in 34 records. Closing requires both a
    // summary and a terminal record; neither may silently overflow.
    for capacity in [1, 33, 34, 35] {
        let mut source = Source::configured(Mode::A, capacity);
        if source.calibrate().is_ok() {
            assert!(source.finish().is_err());
        } else {
            source.abandon();
        }
        assert!(source.snapshot().report.counters.lost > 0);
    }
}

#[test]
fn a_source_is_made_by_its_broker_before_its_start() {
    let plan = |causal, rate| {
        let mut plan = FixtureBootstrap::new(b"run", b"child", START_NS, rate, Mode::C)
            .ok()
            .unwrap();
        plan.causal = causal;
        plan
    };
    let make = |plan, writer, now| {
        BrokerCapture::from_writer(plan, writer, now, facts(), facts(), 40, Some(2)).err()
    };
    let (writer, _) = storage(4);
    let worker = MappedWriter {
        role: SourceRole::Worker,
        ..writer
    };
    assert_eq!(make(plan(false, 30), worker, Ok(1)), Some(SourceError::NotBroker));
    assert!(matches!(make(plan(true, 60), writer, Ok(1)), Some(SourceError::Plan(_))));
    for (clock, words) in [
        (CaptureError::ClockRead, "reading diagnostic CLOCK_MONOTONIC failed"),
        (CaptureError::ClockInvalid, "invalid monotonic time"),
        (CaptureError::ClockOverflow, "monotonic nanoseconds overflow"),
    ] {
        let error = make(plan(false, 30), writer, Err(clock)).unwrap();
        assert_eq!((error, error.message()), (SourceError::Capture(clock), words));
    }
    assert_eq!(make(plan(false, 30), writer, Ok(START_NS)), Some(SourceError::PastEpoch));
    assert_eq!(make(plan(true, 30), writer, Ok(START_NS - 1)), None);
    let empty = MappedWriter {
        capacity: 0,
        ..writer
    };
    let error = make(plan(false, 30), empty, Ok(1)).unwrap();
    assert_eq!(error.message(), "diagnostic capacity outside 1..=65536");

    let mut source = Source::configured(Mode::C, 64);
    source.clock = START_NS - 100;
    assert_eq!(source.calibrate(), Err(SourceError::CalibrationEpoch));
    let late = source.calibrate().unwrap_err();
    assert_eq!(late, SourceError::Timing(TimingError::Late));
    assert_eq!(late.message(), "minimal calibration must precede work and closure");
    let overlap = Source::configured(Mode::C, 64)
        .capture
        .finish_calibration([1; 32], Some(1), Ok(1))
        .unwrap_err();
    assert_eq!(overlap, SourceError::Timing(TimingError::Overlap));
    assert_eq!(overlap.message(), "minimal calibration overlaps work or has errors/loss");
    let mut failed = Source::configured(Mode::C, 64);
    failed.operation(Operation::Claim, false);
    assert_eq!(
        failed.calibrate().unwrap_err().message(),
        "raw diagnostic source has wrong closure state or errors/loss"
    );
}
