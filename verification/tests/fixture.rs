use sliver::bootstrap::{CaptureLevel, FixtureBootstrap};
use sliver::events::{EventKind, Mode, ObservationKind, Phase, Resolution};
use sliver::fixture::{stamp, Fixture, Plan};
use sliver::fixture_model::{FixtureError, Receipt, Stamp};
use sliver::hardware::{ModifierState, RealBits, TouchEvent, TouchPhase};
use sliver::observer::Capture;

const START: u64 = 10_000_000_000;
const STOP: u64 = START + 60_000_000_000;
const END: u64 = STOP + 2_000_000_000;

fn at(ns: u64) -> Stamp {
    stamp(1, Some(ns))
}

fn number(value: f64) -> RealBits {
    RealBits {
        bits: value.to_bits(),
    }
}

fn touch(phase: TouchPhase, id: u32) -> TouchEvent {
    TouchEvent {
        phase,
        id,
        time: number(0.5),
        x: number(1.0),
        y: number(2.0),
        modifiers: ModifierState::empty(),
        pressure: None,
        width: None,
        height: None,
    }
}

fn receipt(sequence: u64, received_ns: u64, phase: TouchPhase) -> Receipt {
    Receipt {
        sequence,
        received_ns,
        event: touch(phase, 7),
    }
}

struct Attempt {
    fixture: Fixture,
    raw: Option<Capture>,
}

impl Attempt {
    fn new(causal: bool) -> Attempt {
        let plan = Plan::new(b"run", b"generation", START, 30, Mode::C).ok().unwrap();
        let plan = if causal { plan.causal_response().ok().unwrap() } else { plan };
        let mut fixture = Fixture::new(plan, true, at(0)).ok().unwrap();
        let mut raw = None;
        fixture.bind_source(&mut raw, at(1), b"x", b"x").unwrap();
        fixture.bind_periodic(&mut raw, at(2), 5, number(1.0 / 30.0)).unwrap();
        Attempt { fixture, raw }
    }
    fn allocate(&mut self, ns: u64) -> Result<Option<u64>, FixtureError> {
        let frame = self.fixture.allocate(&mut self.raw, at(ns))?;
        self.fixture.finish_render();
        Ok(frame.map(|f| f.id))
    }
    fn present(&mut self, id: u64, ns: u64) -> Result<(), FixtureError> {
        self.fixture
            .resolve_frame(&mut self.raw, at(ns), id, Resolution::Presented, ns)
    }
    fn touch(&mut self, sequence: u64, ns: u64, phase: TouchPhase) -> Result<(), FixtureError> {
        let receipt = receipt(sequence, ns, phase);
        self.fixture.receive(&mut self.raw, at(ns), receipt)?;
        self.fixture.enter_delivery(&mut self.raw, at(ns), receipt.event)?;
        if phase == TouchPhase::Down {
            self.fixture.advance_token(&mut self.raw, at(ns))?;
        }
        self.fixture.exit_delivery(&mut self.raw, at(ns), true)
    }
    fn warm(&mut self) {
        let id = self.allocate(10).unwrap().unwrap();
        self.present(id, 20).unwrap();
        assert_eq!(self.allocate(6_000_000_000), Ok(None));
        self.fixture.confirm_warmup_closed(&mut self.raw, at(6_000_000_001)).unwrap();
    }
    fn failed(&self) -> bool {
        self.fixture.report().failed
    }
}

#[test]
fn an_attempt_runs_through_its_phases_and_closes() {
    let mut a = Attempt::new(true);
    a.warm();
    assert_eq!(a.fixture.status(&mut a.raw, at(START - 1)), Ok(Phase::Armed));
    assert_eq!(a.allocate(START - 1), Ok(None));
    let id = a.allocate(START).unwrap().unwrap();
    assert_eq!(id, 2);
    a.present(id, START + 1).unwrap();
    a.touch(1, START + 2, TouchPhase::Down).unwrap();
    a.touch(2, START + 3, TouchPhase::Up).unwrap();
    // The answer to a measured touch may still come while draining, once.
    assert_eq!(a.fixture.retire_periodic(&mut a.raw, at(STOP - 1)), Ok(None));
    assert_eq!(a.fixture.retire_periodic(&mut a.raw, at(STOP)), Ok(Some(5)));
    assert_eq!(a.fixture.retire_periodic(&mut a.raw, at(STOP)), Ok(None));
    let answer = a.allocate(STOP + 1).unwrap().unwrap();
    assert_eq!(a.allocate(STOP + 2), Ok(None));
    a.present(answer, STOP + 3).unwrap();
    assert_eq!(a.fixture.status(&mut a.raw, at(END)), Ok(Phase::Ended));
    a.fixture.finish(&mut a.raw, at(END + 1)).unwrap();
    let report = a.fixture.report();
    assert!(report.closed && !report.failed && report.synthetic);
    assert_eq!(report.allocated, 3);
    assert!(report.observations.iter().any(|o| matches!(
        o.kind,
        ObservationKind::ResponseConfirmed {
            receipt_sequence: 1,
            frame_id: 3,
            token: 1,
            ..
        }
    )));
    assert!(matches!(report.observations.last().unwrap().kind, ObservationKind::Closed));
    assert_eq!(a.fixture.ensure_runtime_active(), Err(FixtureError::Inactive));
    assert_eq!(a.allocate(END + 2), Err(FixtureError::AlreadyClosed));
}

#[test]
fn plans_are_checked() {
    let plan = |run: &[u8], generation: &[u8], start, rate| {
        Plan::new(run, generation, start, rate, Mode::A).err()
    };
    let long = [b'a'; 129];
    assert_eq!(plan(b"", b"g", 1, 30), Some(FixtureError::Identity));
    assert_eq!(plan(b"r", b"bad/name", 1, 30), Some(FixtureError::Identity));
    assert_eq!(plan(&long, b"g", 1, 30), Some(FixtureError::Identity));
    assert_eq!(plan(&long[..128], b"g", 1, 60), None);
    assert_eq!(plan(b"r", b"g", 1, 31), Some(FixtureError::Rate));
    assert_eq!(plan(b"r", b"g", u64::MAX, 30), Some(FixtureError::StopOverflow));
    assert_eq!(
        plan(b"r", b"g", u64::MAX - 61_000_000_000, 30),
        Some(FixtureError::EndOverflow)
    );
    assert_eq!(plan(b"r", b"g", i64::MAX as u64, 30), Some(FixtureError::TimeRange));
    assert_eq!(plan(b"r", b"g", i64::MAX as u64 - 62_000_000_000, 30), None);
    let fast = Plan::new(b"r", b"g", 1, 60, Mode::A).ok().unwrap();
    assert_eq!(fast.causal_response().err(), Some(FixtureError::CausalRate));
    let plan = Plan::new(b"r", b"g", START, 30, Mode::A).ok().unwrap();
    assert_eq!(Fixture::new(plan, true, at(START)).err(), Some(FixtureError::PastEpoch));
    let mut bootstrap = FixtureBootstrap::new(b"r", b"g", START, 60, Mode::C).ok().unwrap();
    assert_eq!(bootstrap.capture_level(), CaptureLevel::Detailed);
    assert!(bootstrap.plan().is_ok());
    bootstrap.causal = true;
    assert_eq!(bootstrap.plan().err(), Some(FixtureError::CausalRate));
    bootstrap.mode = Mode::B;
    assert_eq!(bootstrap.capture_level(), CaptureLevel::Minimal);
}

#[test]
fn a_broken_rule_fails_the_attempt_for_good() {
    type Step = fn(&mut Attempt) -> Result<(), FixtureError>;
    let cases: [(Step, FixtureError); 14] = [
        (|a| a.fixture.bind_source(&mut a.raw, at(5), b"x", b"x"), FixtureError::Source),
        (
            |a| a.fixture.bind_periodic(&mut a.raw, at(5), 6, number(1.0 / 30.0)),
            FixtureError::Periodic,
        ),
        (|a| a.present(1, 5), FixtureError::UnknownFrame),
        (|a| a.touch(2, 5, TouchPhase::Down), FixtureError::ReceiptContext),
        (|a| a.touch(1, 5, TouchPhase::Cancel), FixtureError::UnexpectedInput),
        (|a| a.touch(1, 5, TouchPhase::Up), FixtureError::ReceiptOrder),
        (
            |a| a.fixture.enter_delivery(&mut a.raw, at(5), touch(TouchPhase::Down, 7)),
            FixtureError::MissingReceipt,
        ),
        (
            |a| a.fixture.advance_token(&mut a.raw, at(5)).map(|_| ()),
            FixtureError::TokenMutation,
        ),
        (
            |a| a.fixture.exit_delivery(&mut a.raw, at(5), true),
            FixtureError::CallbackFailed,
        ),
        (
            |a| a.fixture.confirm_warmup_closed(&mut a.raw, at(5)),
            FixtureError::WarmupClosure,
        ),
        (|a| a.fixture.finish(&mut a.raw, at(5)), FixtureError::Closure),
        (|a| a.fixture.status(&mut a.raw, at(START)).map(|_| ()), FixtureError::WarmupOpen),
        (|a| a.fixture.status(&mut a.raw, at(0)).map(|_| ()).and(a.present(9, 0)), FixtureError::UnknownFrame),
        (
            |a| {
                let id = a.allocate(5)?.unwrap();
                a.fixture.resolve_frame(&mut a.raw, at(9), id, Resolution::Failed, 9)
            },
            FixtureError::Resolution,
        ),
    ];
    for (step, error) in cases {
        let mut a = Attempt::new(true);
        assert_eq!(step(&mut a), Err(error), "{}", error.message());
        assert!(a.failed());
        assert_eq!(a.allocate(START - 1), Err(FixtureError::AttemptFailed));
    }
}

#[test]
fn time_and_order_are_enforced() {
    let mut a = Attempt::new(false);
    assert_eq!(a.fixture.status(&mut a.raw, at(50)), Ok(Phase::Warmup));
    assert_eq!(a.fixture.status(&mut a.raw, at(49)), Err(FixtureError::Regressed));

    let mut a = Attempt::new(false);
    let id = a.allocate(10).unwrap().unwrap();
    assert_eq!(
        a.fixture.resolve_frame(&mut a.raw, at(30), id, Resolution::Presented, 31),
        Err(FixtureError::Endpoint)
    );

    // A touch that falls into the measured phase is unexpected without a causal plan.
    let mut a = Attempt::new(false);
    a.warm();
    assert_eq!(a.touch(1, START, TouchPhase::Down), Err(FixtureError::UnexpectedInput));
    let mut a = Attempt::new(true);
    a.warm();
    assert_eq!(a.touch(1, START - 1, TouchPhase::Down), Err(FixtureError::UnexpectedInput));
    let mut a = Attempt::new(true);
    a.warm();
    assert_eq!(a.touch(1, STOP, TouchPhase::Down), Err(FixtureError::UnexpectedInput));

    // A second touch waits until the first is answered.
    let mut a = Attempt::new(true);
    a.touch(1, 10, TouchPhase::Down).unwrap();
    a.touch(2, 11, TouchPhase::Move).unwrap();
    a.touch(3, 12, TouchPhase::Up).unwrap();
    assert_eq!(a.touch(4, 13, TouchPhase::Down), Err(FixtureError::ConcurrentDown));

    // A render that is not over is not started again.
    let mut a = Attempt::new(true);
    assert!(a.fixture.frame().is_err());
    assert!(a.fixture.allocate(&mut a.raw, at(10)).is_ok());
    assert_eq!(a.fixture.frame().unwrap().id, 1);
    assert_eq!(a.fixture.frame_identity().ok().unwrap().input, None);
    assert_eq!(
        a.fixture.allocate(&mut a.raw, at(11)).err(),
        Some(FixtureError::AllocationContext)
    );
}

#[test]
fn an_attached_recorder_sees_what_is_observed() {
    let plan = Plan::new(b"run", b"generation", START, 30, Mode::C).ok().unwrap();
    let mut fixture = Fixture::new(plan, true, at(0)).ok().unwrap();
    let mut raw = None;
    let capture = || Capture::new(4, [1; 32], 1).ok().unwrap();
    fixture.attach_observer(&mut raw, at(1), capture()).unwrap();
    fixture.bind_source(&mut raw, at(2), b"x", b"x").unwrap();
    for ns in [10, 20, 30, 40] {
        fixture.allocate(&mut raw, at(ns)).unwrap();
        fixture.finish_render();
    }
    assert_eq!(fixture.allocate(&mut raw, at(50)).err(), Some(FixtureError::RawObservation));
    assert!(fixture.report().failed);
    let report = raw.unwrap().report();
    assert_eq!(report.records.len(), 4);
    assert!(report.counters.lost >= 1);
    assert!(report.records.iter().all(|r| r.at_ns == 1
        && matches!(r.kind, EventKind::FixtureObserved { synthetic: true, .. })));

    // Other modes have no recorder, and one that is bound takes none.
    for (mode, bound) in [(Mode::A, false), (Mode::C, true)] {
        let plan = Plan::new(b"run", b"generation", START, 30, mode).ok().unwrap();
        let mut fixture = Fixture::new(plan, true, at(0)).ok().unwrap();
        let mut raw = None;
        if bound {
            fixture.bind_source(&mut raw, at(1), b"x", b"x").unwrap();
        }
        assert_eq!(
            fixture.attach_observer(&mut raw, at(2), capture()),
            Err(FixtureError::Sink)
        );
        assert_eq!(fixture.report().observations.len(), usize::from(mode == Mode::C));
    }
}

#[test]
fn a_failure_outside_is_noted_at_a_known_time_only() {
    let mut a = Attempt::new(false);
    a.fixture.fail_runtime(&mut a.raw, None);
    assert!(a.failed());
    assert!(a.fixture.report().observations.is_empty());
    let mut a = Attempt::new(false);
    a.fixture.fail_runtime(&mut a.raw, Some(at(9)));
    a.fixture.fail_runtime(&mut a.raw, Some(at(10)));
    assert_eq!(a.fixture.report().observations.len(), 1);
    assert_eq!(stamp(7, None), stamp(7, Some(7)));
}
