use sliver::bootstrap::{FixtureBootstrap, FixtureControl};
use sliver::capture_storage::{
    snapshot_mapping, Collector, DescriptorFacts, MappedWriter, RawReport, SourceRole,
};
use sliver::coordinator::{next_deadline, Cohort, Coordinator, CoordinatorError};
use sliver::events::{
    EventKind, FrameAllocation, FrameCorrelation, Mode, ObservationKind, Resolution, SpanKind,
    SpanStatus,
};
use sliver::fake_touch_bar::{FakeError, FakeTouchBar};
use sliver::fixture::{stamp, Fixture};
use sliver::fixture_model::{Frame, Receipt, WARMUP_NS};
use sliver::hardware::{HardwareEvent, LogicalFrame, ModifierState, RealBits, TouchEvent, TouchPhase};
use sliver::observer::{Capture, CaptureError};
use sliver::timing::{probe_cost, TimingCapture};

const RUN: &[u8] = b"coordinator-test";
const GENERATION: &[u8] = b"child";

/// A clock that moves a little at every reading.
struct Clock(u64);

impl Clock {
    fn read(&mut self) -> u64 {
        self.0 += 1_000;
        self.0
    }
    fn at(&mut self) -> Option<u64> {
        Some(self.read())
    }
    fn time(&mut self) -> Result<u64, CaptureError> {
        Ok(self.read())
    }
}

fn number(value: f64) -> RealBits {
    RealBits {
        bits: value.to_bits(),
    }
}

fn crc32(bytes: &[u8]) -> u32 {
    let mut crc = u32::MAX;
    for byte in bytes {
        crc ^= u32::from(*byte);
        for _ in 0..8 {
            crc = if crc & 1 == 1 { (crc >> 1) ^ 0xedb8_8320 } else { crc >> 1 };
        }
    }
    !crc
}

fn packet(run: &[u8], generation: &[u8], frame: u64, input: &[u8]) -> [u8; 408] {
    let mut p = [0; 408];
    p[..8].copy_from_slice(b"SLVMRK00");
    p[8..16].copy_from_slice(&frame.to_be_bytes());
    p[16] = run.len() as u8;
    p[17] = generation.len() as u8;
    p[18] = input.len() as u8;
    p[20..20 + run.len()].copy_from_slice(run);
    p[148..148 + generation.len()].copy_from_slice(generation);
    p[276..276 + input.len()].copy_from_slice(input);
    let crc = crc32(&p[..404]);
    p[404..].copy_from_slice(&crc.to_be_bytes());
    p
}

/// A strip whose green tells the token, with a marker on it where one is wanted.
fn paint(token: u64, marker: Option<[u8; 408]>) -> Vec<u8> {
    let mut pixels = Vec::with_capacity(8032 * 60);
    for _ in 0..2008 * 60 {
        pixels.extend([0, (37 * token) as u8, 0, 255]);
    }
    if let Some(packet) = marker {
        for cell in 0..3264 {
            let white = packet[cell / 8] >> (7 - cell % 8) & 1 == 1;
            let (x, y) = (188 + cell % 816 * 2, 4 + cell / 816 * 2);
            for (dx, dy) in [(0, 0), (1, 0), (0, 1), (1, 1)] {
                let at = (y + dy) * 8032 + (x + dx) * 4;
                let level = if white { 255 } else { 0 };
                pixels[at..at + 3].fill(level);
            }
        }
    }
    pixels
}

/// A worker in the same process: an attempt that records into mapped storage.
struct Child {
    fixture: Fixture,
    observer: Option<Capture>,
    own: Option<Capture>,
    timing: TimingCapture,
    words: Vec<u64>,
    capacity: usize,
    mode: Mode,
    sequence: u64,
    stopped: bool,
}

fn calibrate(timing: &mut TimingCapture, mut raw: Option<&mut Capture>, clock: &mut Clock) {
    timing.begin_calibration(raw.as_deref()).unwrap();
    let mut costs = [0; 32];
    for cost in &mut costs {
        let before = clock.time();
        let span = timing.begin(clock.at(), SpanKind::Calibration);
        let end = clock.at();
        if let Some(kind) = timing.finish(span, end, false, true) {
            raw.as_deref_mut().unwrap().record_at(clock.at(), kind);
        }
        *cost = probe_cost(before, clock.time()).unwrap();
    }
    if let Some(kind) = timing.probes_done(raw.as_deref(), costs).unwrap() {
        raw.as_deref_mut().unwrap().record_at(clock.at(), kind);
    }
    timing.calibrated(raw.as_deref(), costs).unwrap();
}

impl Child {
    fn new(plan: &FixtureBootstrap, capacity: usize, clock: &mut Clock) -> Child {
        let (mut collector, mut words) = Collector::new(capacity).ok().unwrap();
        collector.take_worker_storage().unwrap();
        let facts = DescriptorFacts {
            regular: true,
            size_sealed: true,
            read_write: true,
            size: words.len() as i64 * 8,
        };
        let writer =
            MappedWriter::receive_for_role(facts, &mut words, SourceRole::Worker).unwrap();
        let mut capture = Capture::from_mapped(writer, [1; 32], 1).ok().unwrap();
        let mut timing = TimingCapture::new(65_536, true, [1; 32], 1, 40).ok().unwrap();
        calibrate(&mut timing, Some(&mut capture), clock);
        let mut fixture = Fixture::new(plan.plan().ok().unwrap(), false, stamp(clock.read(), None))
            .ok()
            .unwrap();
        let (mut observer, mut own) = (None, None);
        if plan.mode == Mode::C {
            fixture
                .attach_observer(&mut observer, stamp(clock.read(), None), capture)
                .unwrap();
        } else {
            own = Some(capture);
        }
        fixture
            .bind_source(&mut observer, stamp(clock.read(), None), b"source", b"source")
            .unwrap();
        let interval = number(1.0 / f64::from(plan.rate));
        fixture
            .bind_periodic(&mut observer, stamp(clock.read(), None), 1, interval)
            .unwrap();
        Child {
            fixture,
            observer,
            own,
            timing,
            words,
            capacity,
            mode: plan.mode,
            sequence: 0,
            stopped: false,
        }
    }
    fn capture(&mut self) -> &mut Capture {
        self.observer.as_mut().or(self.own.as_mut()).unwrap()
    }
    fn control(&mut self, control: FixtureControl, clock: &mut Clock) -> Result<(), String> {
        let at = stamp(clock.read(), None);
        let raw = &mut self.observer;
        match control {
            FixtureControl::Receive(receipt) => self.fixture.receive(raw, at, receipt),
            FixtureControl::ConfirmWarmupClosed => self.fixture.confirm_warmup_closed(raw, at),
            FixtureControl::Finish => self.fixture.finish(raw, at),
            FixtureControl::Resolve {
                frame_id,
                resolution,
                resolved_ns,
            } => self
                .fixture
                .resolve_frame(raw, at, frame_id, resolution, resolved_ns),
        }
        .map_err(|error| error.message().to_string())
    }
    fn deliver(&mut self, event: TouchEvent, clock: &mut Clock) {
        let raw = &mut self.observer;
        self.fixture
            .enter_delivery(raw, stamp(clock.read(), None), event)
            .unwrap();
        if event.phase == TouchPhase::Down {
            self.fixture
                .advance_token(raw, stamp(clock.read(), None))
                .unwrap();
        }
        self.fixture
            .exit_delivery(raw, stamp(clock.read(), None), true)
            .unwrap();
    }
    fn render(&mut self, clock: &mut Clock) -> Option<LogicalFrame> {
        let frame: Frame = self
            .fixture
            .allocate(&mut self.observer, stamp(clock.read(), None))
            .unwrap()?;
        let identity = self.fixture.frame_identity().ok().unwrap();
        let marker = self.fixture.marker_enabled().then(|| {
            let input = identity.input.map(|n| n.to_string()).unwrap_or_default();
            packet(&identity.run, &identity.generation, identity.frame_id, input.as_bytes())
        });
        self.fixture.finish_render();
        self.sequence += 1;
        let pixels = paint(frame.token, marker);
        let correlation = FrameCorrelation {
            allocation: FrameAllocation {
                id: frame.id,
                token: frame.token,
                allocated_ns: frame.allocated_ns,
            },
            sequence: self.sequence,
        };
        Some(LogicalFrame::from_parts(2008, 60, 8032, pixels).correlated(Some(correlation)))
    }
    fn close(&mut self, clock: &mut Clock) {
        let now = clock.at();
        if let Some(kind) = self.timing.close(now) {
            let at = clock.at();
            self.capture().record_at(at, kind);
        }
        let at = clock.at();
        self.capture().finish(at);
        self.stopped = true;
    }
    fn snapshot(&mut self) -> RawReport {
        for write in self.capture().take_writes() {
            self.words[write.index] = write.value;
        }
        snapshot_mapping(&self.words, self.words[7], self.words[7], self.capacity)
            .ok()
            .unwrap()
    }
}

struct Lockstep {
    coordinator: Coordinator,
    child: Child,
    timing: TimingCapture,
}

impl Lockstep {
    fn new(mode: Mode, start_ns: u64, capacity: usize, clock: &mut Clock) -> Lockstep {
        let plan = FixtureBootstrap::new(RUN, GENERATION, start_ns, 30, mode).ok().unwrap();
        let child = Child::new(&plan, capacity, clock);
        let mut timing = TimingCapture::new(65_536, false, [1; 32], 1, 40).ok().unwrap();
        let coordinator = Coordinator::new(plan.copy(), &plan, clock.time()).ok().unwrap();
        calibrate(&mut timing, None, clock);
        Lockstep {
            coordinator,
            child,
            timing,
        }
    }
    fn present(
        &mut self,
        hardware: &mut FakeTouchBar,
        frame: &LogicalFrame,
        drive_span: u64,
        clock: &mut Clock,
    ) -> Result<(), CoordinatorError> {
        let (before, start) = (clock.time(), clock.at());
        let presentation =
            self.coordinator
                .present_entered(&mut self.timing, frame, before, start)?;
        let result = hardware.present(frame);
        let (returned, finished) = (clock.time(), clock.at());
        let (control, _) = self.coordinator.present_returned(
            &mut self.timing,
            presentation,
            drive_span,
            returned,
            finished,
            result.is_ok(),
        );
        let acknowledged = self.child.control(control?, clock);
        let presented = result.map_err(|error| error.message().to_string());
        self.coordinator.present_resolved(presented, acknowledged)
    }
    fn start(&mut self, hardware: &mut FakeTouchBar, clock: &mut Clock) -> Result<(), CoordinatorError> {
        let span = self.timing.begin(clock.at(), SpanKind::SupervisorDrive);
        let mut frame_bearing = false;
        let mut run = || {
            self.coordinator.begin_start()?;
            let frame = self.child.render(clock).unwrap();
            frame_bearing = true;
            self.present(hardware, &frame, span.sequence, clock)?;
            self.coordinator.committed(Ok(()))
        };
        let result = run();
        let end = clock.at();
        self.timing.finish(span, end, frame_bearing, result.is_ok());
        result
    }
    fn drive(
        &mut self,
        hardware: &mut FakeTouchBar,
        receipts: &[Receipt],
        clock: &mut Clock,
    ) -> Result<(), CoordinatorError> {
        let span = self.timing.begin(clock.at(), SpanKind::SupervisorDrive);
        let mut frame_bearing = false;
        let mut run = || {
            self.coordinator.begin_drive(receipts.len())?;
            for receipt in receipts {
                let control = self.coordinator.forward(*receipt)?;
                if let Err(words) = self.child.control(control, clock) {
                    return Err(self.coordinator.fail(CoordinatorError::Worker(words)));
                }
            }
            self.coordinator.dispatch()?;
            for receipt in receipts {
                self.child.deliver(receipt.event, clock);
            }
            let frame = self.child.render(clock);
            self.coordinator.driven(false, 0)?;
            if let Some(frame) = frame {
                frame_bearing = true;
                self.present(hardware, &frame, span.sequence, clock)?;
            }
            Ok(())
        };
        let result = run();
        let end = clock.at();
        self.timing.finish(span, end, frame_bearing, result.is_ok());
        result
    }
    fn confirm_warmup_closed(&mut self, clock: &mut Clock) -> Result<(), CoordinatorError> {
        let control = self.coordinator.confirm_warmup_closed(clock.time())?;
        let acknowledged = self.child.control(control, clock);
        self.coordinator.warmup_acknowledged(acknowledged, clock.time())
    }
    fn finish(&mut self, clock: &mut Clock) -> Result<(), CoordinatorError> {
        let control = self.coordinator.finish(clock.time())?;
        let acknowledged = self.child.control(control, clock);
        self.coordinator.fixture_closed(acknowledged, clock.time())?;
        self.child.close(clock);
        self.coordinator.worker_stopped(Ok(()), clock.time())
    }
}

fn touch(phase: TouchPhase) -> TouchEvent {
    TouchEvent {
        phase,
        id: 17,
        time: number(0.125),
        x: number(19.0),
        y: number(23.0),
        modifiers: ModifierState::empty(),
        pressure: None,
        width: None,
        height: None,
    }
}

#[test]
fn private_process_coordinator_rejects_plan_mismatch_before_work() {
    for mutation in 0..6 {
        let mut clock = Clock(0);
        let actual = FixtureBootstrap::new(b"bound-run", b"bound-child", 10_000_000_000, 30, Mode::A)
            .ok()
            .unwrap();
        let mut child = Child::new(&actual, 128, &mut clock);
        let mut declared = actual.copy();
        match mutation {
            0 => declared.mode = Mode::B,
            1 => declared.rate = 60,
            2 => declared.causal = true,
            3 => declared.start_ns += 1,
            4 => declared.run = b"other-run".to_vec(),
            _ => declared.generation = b"other-child".to_vec(),
        }
        let error = Coordinator::new(declared, &actual, clock.time()).err().unwrap();
        assert!(error.message().contains("bootstrap plan mismatch"));
        let raw = child.snapshot();
        assert!(!raw.report.records.iter().any(|r| matches!(
            r.kind,
            EventKind::Published { .. } | EventKind::RenderAllocated { .. }
        )));
    }
}

#[test]
fn private_process_coordinator_retains_all_mode_identity_and_actual_calibration() {
    for mode in [Mode::A, Mode::B, Mode::C] {
        let mut clock = Clock(0);
        let mut run = Lockstep::new(mode, 10_000_000_000, 512, &mut clock);
        let mut hardware = FakeTouchBar::new();
        hardware.claim().unwrap();
        run.start(&mut hardware, &mut clock).unwrap();
        assert_eq!(run.coordinator.frames().len(), 1);
        let frame = run.coordinator.frames()[0];
        assert_eq!(frame.correlation.allocation.id, 1);
        assert_eq!(frame.correlation.sequence, 1);
        assert_eq!(frame.correlation.allocation.token, 0);
        assert!(frame.correlation.allocation.allocated_ns < frame.adapter_return_ns);
        assert_eq!(frame.cohort, Cohort::Warmup);
        // Early finish must poison this attempt, not close or relabel it.
        assert_eq!(run.finish(&mut clock), Err(CoordinatorError::FinishEarly));
        assert!(run.coordinator.failure().is_some());
        assert!(run.coordinator.fixture_closed_ns().is_none());
        assert!(run.drive(&mut hardware, &[], &mut clock).is_err());
        let raw = run.child.snapshot();
        let probes: Vec<_> = raw
            .report
            .records
            .iter()
            .filter_map(|r| match &r.kind {
                EventKind::MinimalSpan(s) if s.kind == SpanKind::Calibration => Some(s),
                _ => None,
            })
            .collect();
        assert_eq!(probes.len(), 32);
        assert!(probes
            .iter()
            .all(|s| s.status == SpanStatus::Succeeded && !s.frame_bearing));
        assert!(raw
            .report
            .records
            .iter()
            .any(|r| matches!(r.kind, EventKind::MinimalCalibration { .. })));
        run.timing.close(clock.at());
        let local = run.timing.report();
        let drive = local
            .records
            .iter()
            .find(|s| s.span_id == frame.drive_span)
            .unwrap();
        assert_eq!(drive.kind, SpanKind::SupervisorDrive);
        assert!(drive.frame_bearing && drive.status == SpanStatus::Succeeded);
        assert!(drive.end_ns >= frame.adapter_return_ns);
        hardware.release();
    }
}

#[test]
fn private_process_coordinator_forwards_observed_warmup_touch_to_causal_pixels() {
    let mut clock = Clock(0);
    let mut run = Lockstep::new(Mode::C, 10_000_000_000, 512, &mut clock);
    let mut hardware = FakeTouchBar::new();
    hardware.claim().unwrap();
    run.start(&mut hardware, &mut clock).unwrap();
    for (index, phase) in [TouchPhase::Down, TouchPhase::Up].into_iter().enumerate() {
        let event = touch(phase);
        hardware.inject(HardwareEvent::Touch(event));
        let mut source = Capture::new(8, [1; 32], 1).ok().unwrap();
        let events = hardware.poll().ok();
        assert_eq!(events.as_ref().unwrap().len(), 1);
        source.polled(clock.at(), &events);
        let observed = source.report();
        let receipt = Receipt {
            sequence: index as u64 + 1,
            received_ns: observed.records[0].at_ns,
            event,
        };
        run.drive(&mut hardware, &[receipt], &mut clock).unwrap();
    }
    let correlated = *run
        .coordinator
        .frames()
        .iter()
        .find(|r| r.correlation.allocation.token == 1)
        .expect("touch callback produced no correlated token frame");
    let frame_id = correlated.correlation.allocation.id;
    let endpoint = correlated.adapter_return_ns;
    // Outside the marker, token 1 changes green from 0 to 37.
    let last = hardware.presented_frames().last().unwrap();
    assert_eq!(last.pixels[1], 37);
    let raw = run.child.snapshot();
    assert!(raw.report.records.iter().any(|r| matches!(
        r.kind,
        EventKind::FixtureObserved {
            kind: ObservationKind::TokenMutated {
                receipt_sequence: 1,
                previous: 0,
                token: 1
            },
            ..
        }
    )));
    assert!(raw.report.records.iter().any(|r| matches!(r.kind,
        EventKind::FixtureObserved { kind: ObservationKind::ResponseConfirmed { receipt_sequence: 1, frame_id: id, token: 1, responded_ns }, .. }
            if id == frame_id && responded_ns == endpoint)));
    hardware.release();
}

#[test]
fn private_process_coordinator_rejects_ambiguous_equal_timestamp_receipt() {
    let mut clock = Clock(0);
    let mut run = Lockstep::new(Mode::C, 10_000_000_000, 512, &mut clock);
    let mut hardware = FakeTouchBar::new();
    hardware.claim().unwrap();
    run.start(&mut hardware, &mut clock).unwrap();
    let receipt = Receipt {
        sequence: 1,
        received_ns: run.coordinator.frames()[0].adapter_return_ns,
        event: touch(TouchPhase::Down),
    };
    assert_eq!(
        run.drive(&mut hardware, &[receipt], &mut clock),
        Err(CoordinatorError::AmbiguousReceipt)
    );
    assert!(run.coordinator.failure().is_some());
    assert!(!run.child.snapshot().report.records.iter().any(|r| matches!(
        r.kind,
        EventKind::FixtureObserved {
            kind: ObservationKind::ReceiptSupplied { .. },
            ..
        }
    )));
    hardware.release();
}

#[test]
fn private_process_coordinator_always_retains_complete_adapter_timing() {
    let mut clock = Clock(0);
    let mut run = Lockstep::new(Mode::A, 10_000_000_000, 128, &mut clock);
    let mut hardware = FakeTouchBar::new();
    hardware.claim().unwrap();
    run.start(&mut hardware, &mut clock).unwrap();
    let returned = run.coordinator.frames()[0].adapter_return_ns;
    run.timing.close(clock.at());
    let report = run.timing.report();
    let presents: Vec<_> = report
        .records
        .iter()
        .filter(|s| s.kind == SpanKind::Present)
        .collect();
    assert_eq!(
        presents.len(),
        1,
        "bare adapters must not bypass minimal Present sampling"
    );
    assert!(presents[0].start_ns <= returned && presents[0].end_ns >= returned);
    assert!(presents[0].frame_bearing && presents[0].status == SpanStatus::Succeeded);
    hardware.release();
}

#[test]
fn private_process_coordinator_adapter_failure_keeps_failed_frame_and_stops_child() {
    let mut clock = Clock(0);
    let mut run = Lockstep::new(Mode::C, 10_000_000_000, 512, &mut clock);
    // Deliberately unclaimed adapter: actual present fails.
    let mut hardware = FakeTouchBar::new();
    let unclaimed = "fake Touch Bar is not claimed";
    assert_eq!(
        run.start(&mut hardware, &mut clock),
        Err(CoordinatorError::Hardware(unclaimed.to_string()))
    );
    assert_eq!(run.coordinator.failure().map(String::as_str), Some(unclaimed));
    assert_eq!(run.coordinator.frames().len(), 1);
    assert!(!run.coordinator.frames()[0].success);
    assert!(run.coordinator.failure().is_some());
    assert_eq!(
        run.start(&mut hardware, &mut clock),
        Err(CoordinatorError::AlreadyFailed)
    );
    assert_eq!(run.coordinator.frames().len(), 1);
    let raw = run.child.snapshot();
    assert!(raw.report.counters.failed_operations > 0);
    assert!(raw.report.records.iter().any(|r| matches!(
        r.kind,
        EventKind::FixtureObserved {
            kind: ObservationKind::Resolved {
                resolution: Resolution::Failed,
                ..
            },
            ..
        }
    )));
    assert!(!raw.report.records.iter().any(|r| matches!(
        r.kind,
        EventKind::FixtureObserved {
            kind: ObservationKind::Closed,
            ..
        }
    )));
    run.timing.close(clock.at());
    assert!(run.timing.report().counters.failed_spans >= 1);
    assert_eq!(hardware.present(&LogicalFrame::from_parts(2, 1, 8, vec![0; 8])), Err(FakeError::NotClaimed));
}

#[test]
fn private_process_coordinator_complete_host_clock_lifecycle_all_modes() {
    let epoch = 8_000_000_000;
    let end_ns = epoch + 62_000_000_000;
    for mode in [Mode::A, Mode::B, Mode::C] {
        let mut clock = Clock(0);
        let mut run = Lockstep::new(mode, epoch, 65_536, &mut clock);
        let mut hardware = FakeTouchBar::new();
        hardware.claim().unwrap();
        run.start(&mut hardware, &mut clock).unwrap();
        while clock.read() < end_ns {
            let first = run.coordinator.frames()[0].correlation.allocation.allocated_ns;
            if run.coordinator.warmup_closed_ns().is_none() && clock.read() >= first + WARMUP_NS {
                // The attempt finds out that its warmup is long enough, and then closes it.
                run.drive(&mut hardware, &[], &mut clock).unwrap();
                run.confirm_warmup_closed(&mut clock).unwrap();
            }
            run.drive(&mut hardware, &[], &mut clock).unwrap();
            clock.0 += 2_000_000_000;
        }
        run.finish(&mut clock).unwrap();
        assert!(run.coordinator.failure().is_none());
        let frames = run.coordinator.frames();
        let warmup = run.coordinator.warmup_closed_ns().unwrap();
        assert!(
            warmup >= frames[0].correlation.allocation.allocated_ns + WARMUP_NS && warmup < epoch
        );
        let closed = run.coordinator.fixture_closed_ns().unwrap();
        assert!(closed >= end_ns);
        assert!(run.coordinator.worker_stopped_ns().unwrap() >= closed);
        assert!(frames.iter().any(|r| r.cohort == Cohort::Measured));
        assert!(!frames.iter().any(|r| r.cohort == Cohort::Drain));
        assert!(frames.iter().all(|r| r.success && r.adapter_return_ns <= end_ns));
        let count = frames.len();
        let frames = frames.clone();
        let raw = run.child.snapshot();
        assert!(raw.initialized && raw.metadata_consistent && raw.report.counters.closed);
        let counters = raw.report.counters;
        assert_eq!(counters.lost, 0);
        assert_eq!(counters.after_close, 0);
        assert_eq!(counters.clock_failures, 0);
        assert_eq!(counters.failed_operations, 0);
        assert_eq!(counters.decode_failures, 0);
        let summaries: Vec<_> = raw
            .report
            .records
            .iter()
            .filter_map(|r| match &r.kind {
                EventKind::MinimalSummary(s) => Some(s),
                _ => None,
            })
            .collect();
        assert_eq!(summaries.len(), 1);
        assert_eq!(summaries[0].open_spans, 0);
        assert_eq!(summaries[0].lost, 0);
        assert!(summaries[0].closed_at_ns.is_some());
        if run.child.mode == Mode::C {
            let closings = raw
                .report
                .records
                .iter()
                .filter(|r| {
                    matches!(
                        r.kind,
                        EventKind::FixtureObserved {
                            kind: ObservationKind::Closed,
                            synthetic: false,
                            ..
                        }
                    )
                })
                .count();
            assert_eq!(closings, 1);
        }
        run.timing.close(clock.at());
        let minimal = run.timing.report();
        assert!(run.timing.is_clean());
        let presents = minimal
            .records
            .iter()
            .filter(|s| s.kind == SpanKind::Present)
            .count();
        assert_eq!(presents, count);
        for frame in &frames {
            let sample = minimal
                .records
                .iter()
                .find(|s| s.span_id == frame.drive_span)
                .unwrap();
            assert_eq!(sample.kind, SpanKind::SupervisorDrive);
            assert!(sample.frame_bearing && sample.status == SpanStatus::Succeeded);
            assert!(sample.start_ns <= frame.correlation.allocation.allocated_ns);
            assert!(sample.end_ns >= frame.adapter_return_ns);
            let present = minimal
                .records
                .iter()
                .find(|s| s.span_id == frame.present_span)
                .unwrap();
            assert_eq!(present.kind, SpanKind::Present);
            assert!(present.start_ns >= sample.start_ns && present.end_ns <= sample.end_ns);
            assert!(
                present.start_ns <= frame.adapter_return_ns
                    && present.end_ns >= frame.adapter_return_ns
            );
        }
        hardware.release();
    }
}

fn correlated(id: u64, sequence: u64, token: u64, at: u64, marker: Option<[u8; 408]>) -> LogicalFrame {
    let allocation = FrameAllocation {
        id,
        token,
        allocated_ns: at,
    };
    LogicalFrame::from_parts(2008, 60, 8032, paint(token, marker))
        .correlated(Some(FrameCorrelation { allocation, sequence }))
}

#[test]
fn frames_are_accepted_in_order_and_by_their_pixels() {
    let plan = FixtureBootstrap::new(RUN, GENERATION, 10_000, 30, Mode::C).ok().unwrap();
    let attempt = |frame: &LogicalFrame, before: Result<u64, CaptureError>| {
        let mut coordinator = Coordinator::new(plan.copy(), &plan, Ok(1)).ok().unwrap();
        let mut timing = TimingCapture::new(8, false, [1; 32], 1, 40).ok().unwrap();
        coordinator
            .present_entered(&mut timing, frame, before, before.ok())
            .map(|p| p.cohort)
    };
    let good = packet(RUN, GENERATION, 1, b"");
    let frame = correlated(1, 1, 0, 100, Some(good));
    assert_eq!(attempt(&frame, Ok(100)), Ok(Cohort::Warmup));
    assert_eq!(attempt(&frame, Ok(99)), Err(CoordinatorError::AllocationTime));
    let unread = CaptureError::ClockRead;
    assert_eq!(attempt(&frame, Err(unread)), Err(CoordinatorError::Clock(unread)));
    let bare = LogicalFrame::from_parts(2008, 60, 8032, paint(0, Some(good)));
    assert_eq!(attempt(&bare, Ok(100)), Err(CoordinatorError::NoCorrelation));
    for (id, sequence) in [(2, 1), (1, 2), (0, 0)] {
        let gap = correlated(id, sequence, 0, 100, Some(good));
        assert_eq!(attempt(&gap, Ok(100)), Err(CoordinatorError::Gap));
    }
    let measured = correlated(1, 1, 0, 10_000, Some(good));
    assert_eq!(attempt(&measured, Ok(10_000)), Err(CoordinatorError::NoWarmupClosure));
    let input = packet(RUN, GENERATION, 1, b"12");
    let answered = correlated(1, 1, 12, 100, Some(input));
    assert_eq!(attempt(&answered, Ok(100)), Ok(Cohort::Warmup));
    for wrong in [
        packet(b"other", GENERATION, 1, b""),
        packet(RUN, b"other", 1, b""),
        packet(RUN, GENERATION, 2, b""),
        packet(RUN, GENERATION, 1, b"1"),
    ] {
        let frame = correlated(1, 1, 0, 100, Some(wrong));
        assert_eq!(attempt(&frame, Ok(100)), Err(CoordinatorError::PixelsDisagree));
    }
    let mut broken = good;
    broken[300] = 1;
    let frame = correlated(1, 1, 0, 100, Some(broken));
    assert_eq!(attempt(&frame, Ok(100)), Err(CoordinatorError::MarkerPacket));
    let mut pixels = paint(0, Some(good));
    pixels[4 * 8032 + 188 * 4] = 7;
    let smudged = LogicalFrame::from_parts(2008, 60, 8032, pixels)
        .correlated(frame.fixture_correlation());
    assert_eq!(attempt(&smudged, Ok(100)), Err(CoordinatorError::MarkerCell));
    let small = LogicalFrame::from_parts(2, 1, 8, vec![0; 8])
        .correlated(frame.fixture_correlation());
    assert_eq!(attempt(&small, Ok(100)), Err(CoordinatorError::MarkerGeometry));
}

#[test]
fn a_coordinator_refuses_what_comes_at_the_wrong_time() {
    let plan = FixtureBootstrap::new(RUN, GENERATION, 10_000_000_000, 30, Mode::A).ok().unwrap();
    let fresh = || Coordinator::new(plan.copy(), &plan, Ok(1)).ok().unwrap();
    assert_eq!(
        Coordinator::new(plan.copy(), &plan, Ok(plan.start_ns)).err(),
        Some(CoordinatorError::PastEpoch)
    );
    let unread = CaptureError::ClockInvalid;
    let error = Coordinator::new(plan.copy(), &plan, Err(unread)).err().unwrap();
    assert_eq!(error, CoordinatorError::Clock(unread));
    assert_eq!(error.message(), "invalid monotonic time");
    assert_eq!(fresh().begin_drive(0), Err(CoordinatorError::NotStarted));
    assert_eq!(fresh().finish(Ok(u64::MAX)).err(), Some(CoordinatorError::NotStarted));
    assert_eq!(
        fresh().confirm_warmup_closed(Ok(1)).err(),
        Some(CoordinatorError::NoWarmup)
    );
    assert_eq!(fresh().driven(true, 0), Err(CoordinatorError::Effects));
    assert_eq!(fresh().driven(false, 1), Err(CoordinatorError::Effects));
    let mut started = fresh();
    started.committed(Ok(())).unwrap();
    assert_eq!(started.begin_drive(65), Err(CoordinatorError::ReceiptCapacity));
    // The first failure stays, and nothing more is asked of the worker.
    assert_eq!(started.begin_start(), Err(CoordinatorError::AlreadyStarted));
    assert_eq!(
        started.failure().map(String::as_str),
        Some("coordinator receipt capacity exhausted")
    );
    assert_eq!(started.dispatch(), Err(CoordinatorError::AlreadyFailed));
    // What an adapter or a worker says is kept as it was said, the adapter first.
    let words = |text: &str| Err(text.to_string());
    let mut unrendered = fresh();
    assert_eq!(
        unrendered.committed(words("render: line 3")),
        Err(CoordinatorError::Worker("render: line 3".to_string()))
    );
    assert_eq!(unrendered.failure().map(String::as_str), Some("render: line 3"));
    let mut refused = fresh();
    let error = refused.present_resolved(words("panel: gone"), words("late")).unwrap_err();
    assert_eq!(error.message(), "panel: gone");
    assert_eq!(
        fresh().present_resolved(Ok(()), words("late")).unwrap_err().message(),
        "late"
    );
    assert_eq!(
        fresh().warmup_acknowledged(words("late"), Err(unread)).unwrap_err().message(),
        "late"
    );
    assert_eq!(
        fresh().fixture_closed(Ok(()), Err(unread)),
        Err(CoordinatorError::Clock(unread))
    );
    assert_eq!(
        fresh().worker_stopped(words("hung"), Ok(1)).unwrap_err().message(),
        "hung"
    );
    let now = number(1.5);
    assert_eq!(next_deadline(true, now, None), Some(now));
    assert_eq!(next_deadline(false, now, None), None);
}
