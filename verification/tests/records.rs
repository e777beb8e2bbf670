use sliver::events::{
    DiscardReason, EventKind, FrameAllocation, Mode, ObservationKind, Operation, Phase, Record,
    Resolution, Sample, SpanKind, SpanStatus, Summary, TimerDisposition,
};
use sliver::hardware::{
    HardwareCapability, HardwareEvent, LogicalFrame, Modifier, ModifierState, RealBits, TouchEvent,
    TouchPhase,
};
use sliver::marker::{checksum, decode, decode_packet, DecodeError};
use sliver::record_codec::{decode_record, encode_record};
use sliver::record_layout::{RecordError, RECORD_BYTES};

fn number(value: f64) -> RealBits {
    RealBits {
        bits: value.to_bits(),
    }
}

fn packet(run: &[u8], generation: &[u8], frame: u64, input: &[u8]) -> [u8; 408] {
    let mut p = [0; 408];
    p[..8].copy_from_slice(b"SLVMRK00");
    p[8..16].copy_from_slice(&frame.to_be_bytes());
    p[16] = run.len() as u8;
    p[17] = generation.len() as u8;
    p[18] = input.len() as u8;
    p[20..20 + run.len()].copy_from_slice(run);
    p[148..148 + generation.len()].copy_from_slice(generation);
    p[276..276 + input.len()].copy_from_slice(input);
    seal(&mut p);
    p
}

fn seal(p: &mut [u8; 408]) {
    let crc = checksum(&p[..], 404);
    p[404..].copy_from_slice(&crc.to_be_bytes());
}

fn painted(packet: &[u8; 408]) -> LogicalFrame {
    let mut pixels = [9, 8, 7, 255].repeat(2008 * 60);
    for cell in 0..3264 {
        let white = packet[cell / 8] >> (7 - cell % 8) & 1 == 1;
        let (x, y) = (188 + cell % 816 * 2, 4 + cell / 816 * 2);
        for (dx, dy) in [(0, 0), (1, 0), (0, 1), (1, 1)] {
            let at = (y + dy) * 8032 + (x + dx) * 4;
            pixels[at..at + 3].fill(if white { 255 } else { 0 });
        }
    }
    LogicalFrame::from_parts(2008, 60, 8032, pixels)
}

fn touch(phase: TouchPhase) -> TouchEvent {
    let mut modifiers = ModifierState::empty();
    modifiers.set(Modifier::LeftAlt, true);
    TouchEvent {
        phase,
        id: 77,
        time: number(1.5),
        x: number(-0.0),
        y: number(f64::INFINITY),
        modifiers,
        pressure: None,
        width: Some(number(2.5)),
        height: None,
    }
}

fn sample(kind: SpanKind, status: SpanStatus) -> Sample {
    Sample {
        sequence: 1,
        span_id: 2,
        kind,
        start_ns: 3,
        end_ns: 4,
        frame_bearing: true,
        status,
    }
}

fn allocation() -> FrameAllocation {
    FrameAllocation {
        id: 5,
        token: 0,
        allocated_ns: 6,
    }
}

fn observed(kind: ObservationKind) -> EventKind {
    EventKind::FixtureObserved {
        synthetic: true,
        decision_ns: 8,
        kind,
    }
}

fn finished(disposition: TimerDisposition) -> EventKind {
    EventKind::TimerFinished {
        timer_id: 1,
        success: true,
        scheduler_now_seconds: number(0.5),
        disposition,
    }
}

fn kinds() -> Vec<EventKind> {
    let marker = Ok(decode_packet(packet(b"run", b"gen", 9, b"1")).unwrap());
    vec![
        EventKind::BrokerConfigured {
            mode: Mode::B,
            start_ns: 1,
            rate: 30,
            causal: true,
        },
        EventKind::BrokerOperation {
            operation: Operation::SourceAbandoned,
            success: false,
        },
        EventKind::MinimalSpan(sample(SpanKind::SupervisorDrive, SpanStatus::Abandoned)),
        EventKind::MinimalSummary(Summary {
            capacity: 1,
            started_spans: 2,
            completed_spans: 3,
            open_spans: 4,
            failed_spans: 5,
            lost: 6,
            after_close: 7,
            clock_failures: 8,
            closed_at_ns: Some(9),
            clock_resolution_ns: 10,
            record_bytes: 11,
            clock_read_samples_ns: [12; 32],
        }),
        EventKind::MinimalCalibration { cost_ns: [13; 32] },
        observed(ObservationKind::Phase(Phase::Drain)),
        observed(ObservationKind::Allocated {
            frame_id: 1,
            token: 2,
        }),
        observed(ObservationKind::Suppressed),
        observed(ObservationKind::Resolved {
            frame_id: 1,
            resolution: Resolution::Failed,
            resolved_ns: 2,
        }),
        observed(ObservationKind::WarmupClosed),
        observed(ObservationKind::PeriodicRetired { timer_id: 3 }),
        observed(ObservationKind::ReceiptSupplied {
            receipt_sequence: 1,
            received_ns: 2,
            contact: 3,
            phase: TouchPhase::Cancel,
        }),
        observed(ObservationKind::Delivered {
            receipt_sequence: 4,
        }),
        observed(ObservationKind::TokenMutated {
            receipt_sequence: 1,
            previous: 2,
            token: 3,
        }),
        observed(ObservationKind::ResponseConfirmed {
            receipt_sequence: 1,
            frame_id: 2,
            token: 3,
            responded_ns: 4,
        }),
        observed(ObservationKind::Failed),
        observed(ObservationKind::Closed),
        EventKind::WorkerLoadFailed,
        EventKind::WorkerLoopFailed,
        EventKind::WorkerCommandFailed,
        EventKind::WorkerRunFailed,
        EventKind::WorkerCaptureConfigured { detailed: true },
        EventKind::TimerRegistered {
            timer_id: 1,
            delay_seconds: number(0.25),
            interval_seconds: None,
            scheduler_now_seconds: Some(number(f64::NAN)),
        },
        EventKind::TimerActivated {
            timer_id: 1,
            scheduler_now_seconds: number(1.0),
            deadline_seconds: number(2.0),
        },
        EventKind::TimerCancelled {
            timer_id: 1,
            removed: false,
        },
        EventKind::TimerDeadlineShifted {
            timer_id: 1,
            previous_deadline_seconds: number(1.0),
            shift_seconds: number(2.0),
            deadline_seconds: number(3.0),
        },
        EventKind::TimerDispatched {
            timer_id: 1,
            scheduled_deadline_seconds: number(1.0),
            scheduler_now_seconds: number(2.0),
        },
        finished(TimerDisposition::Completed),
        finished(TimerDisposition::Rescheduled {
            next_deadline_seconds: number(1.0),
            intervals_advanced: number(2.0),
            skipped_intervals: number(1.0),
            fallback: true,
        }),
        EventKind::RedrawRequested { coalesced: true },
        EventKind::RenderAllocated { attempt: 3 },
        EventKind::RenderFinished {
            attempt: 3,
            marker: None,
        },
        EventKind::RenderFinished {
            attempt: 3,
            marker: Some(Err(DecodeError::Cell)),
        },
        EventKind::Published {
            sequence: 4,
            allocation: Some(allocation()),
            marker,
        },
        EventKind::Selected { sequence: 4 },
        EventKind::Discarded {
            sequence: 4,
            reason: DiscardReason::MappingClosed,
        },
        EventKind::PendingDiscarded {
            allocation: None,
            marker: Err(DecodeError::Packet),
        },
        EventKind::PresentEntered { call: 1, marker },
        EventKind::PresentReturned {
            call: 1,
            success: true,
        },
        EventKind::InputReceived(HardwareEvent::Touch(touch(TouchPhase::Move))),
        EventKind::InputReceived(HardwareEvent::Fn { active: true }),
        EventKind::InputReceived(HardwareEvent::Modifier {
            modifier: Modifier::RightShift,
            active: false,
        }),
        EventKind::InputReceived(HardwareEvent::Device { present: true }),
        EventKind::InputReceived(HardwareEvent::Visibility { visible: false }),
        EventKind::InputReceived(HardwareEvent::Capability {
            capability: HardwareCapability::Backlight,
            present: true,
        }),
        EventKind::PollFailed,
        EventKind::TouchCallbackEntered(touch(TouchPhase::Up)),
        EventKind::TouchCallbackReturned {
            contact: u32::MAX,
            success: true,
        },
    ]
}

fn block(kind: EventKind) -> Vec<u8> {
    let record = Record {
        sequence: 0x0102,
        at_ns: u64::MAX,
        kind,
    };
    encode_record(&record).unwrap()
}

fn refusal(bytes: &[u8]) -> RecordError {
    match decode_record(bytes) {
        Err(error) => error,
        Ok(record) => panic!("accepted {record:?}"),
    }
}

#[test]
fn every_kind_of_record_is_read_back() {
    for kind in kinds() {
        let bytes = block(kind);
        assert_eq!(bytes.len() as u64, RECORD_BYTES as u64);
        let record = decode_record(&bytes).unwrap();
        assert_eq!((record.sequence, record.at_ns), (0x0102, u64::MAX));
        assert_eq!(format!("{:?}", record.kind), format!("{kind:?}"));
        assert_eq!(encode_record(&record).unwrap(), bytes);
    }
}

#[test]
fn a_record_has_a_fixed_layout() {
    let bytes = block(EventKind::PresentReturned {
        call: 0x0304,
        success: true,
    });
    assert_eq!(bytes[..2], [28, 0]);
    assert_eq!(bytes[2..10], 0x0102_u64.to_le_bytes());
    assert_eq!(bytes[10..18], [0xff; 8]);
    assert_eq!(bytes[19..27], 0x0304_u64.to_le_bytes());
    assert_eq!(bytes[27], 1);
    assert!(bytes[28..].iter().all(|byte| *byte == 0));
}

/// The byte that tells two kinds apart is made meaningless.
fn spoilt(a: EventKind, b: EventKind) -> RecordError {
    let (mut bytes, other) = (block(a), block(b));
    let at = (18..bytes.len()).find(|i| bytes[*i] != other[*i]).unwrap();
    bytes[at] = 0xee;
    refusal(&bytes)
}

#[test]
fn each_fault_of_a_record_has_its_own_error() {
    let returned = |success| EventKind::PresentReturned { call: 1, success };
    let mut bytes = block(returned(false));
    bytes[18] = 0xee;
    assert_eq!(refusal(&bytes), RecordError::Tag);
    let mut bytes = block(returned(false));
    bytes[0] -= 1;
    assert_eq!(refusal(&bytes), RecordError::Truncated);
    let mut bytes = block(returned(false));
    bytes[0] += 1;
    assert_eq!(refusal(&bytes), RecordError::Trailing);
    let mut bytes = block(returned(false));
    bytes[1] = 0xff;
    assert_eq!(refusal(&bytes), RecordError::Length);
    let mut bytes = block(returned(false));
    bytes[511] = 1;
    assert_eq!(refusal(&bytes), RecordError::Padding);
    assert_eq!(spoilt(returned(false), returned(true)), RecordError::Boolean);

    let entered = |marker| EventKind::PresentEntered { call: 1, marker };
    assert_eq!(
        spoilt(entered(Err(DecodeError::Geometry)), entered(Err(DecodeError::Cell))),
        RecordError::MarkerStatus
    );
    let marker = Ok(decode_packet(packet(b"run", b"gen", 9, b"1")).unwrap());
    let mut bytes = block(entered(marker));
    bytes[100] ^= 1;
    assert_eq!(refusal(&bytes), RecordError::MarkerPacket);

    let phase = |phase| observed(ObservationKind::Phase(phase));
    assert_eq!(spoilt(phase(Phase::Warmup), phase(Phase::Ended)), RecordError::FixturePhase);
    let resolved = |resolution| {
        observed(ObservationKind::Resolved {
            frame_id: 1,
            resolution,
            resolved_ns: 2,
        })
    };
    assert_eq!(
        spoilt(resolved(Resolution::Presented), resolved(Resolution::Failed)),
        RecordError::FixtureResolution
    );
    let supplied = |phase| {
        observed(ObservationKind::ReceiptSupplied {
            receipt_sequence: 1,
            received_ns: 2,
            contact: 3,
            phase,
        })
    };
    assert_eq!(
        spoilt(supplied(TouchPhase::Down), supplied(TouchPhase::Up)),
        RecordError::FixtureTouchPhase
    );
    assert_eq!(
        spoilt(
            observed(ObservationKind::Suppressed),
            observed(ObservationKind::Closed)
        ),
        RecordError::FixtureTag
    );
    let entered = |phase| EventKind::TouchCallbackEntered(touch(phase));
    assert_eq!(
        spoilt(entered(TouchPhase::Down), entered(TouchPhase::Up)),
        RecordError::TouchPhase
    );
    let discarded = |reason| EventKind::Discarded {
        sequence: 1,
        reason,
    };
    assert_eq!(
        spoilt(
            discarded(DiscardReason::ProducerReclaim),
            discarded(DiscardReason::MappingClosed)
        ),
        RecordError::Discard
    );
    let modifier = |modifier| {
        EventKind::InputReceived(HardwareEvent::Modifier {
            modifier,
            active: true,
        })
    };
    assert_eq!(
        spoilt(modifier(Modifier::LeftAlt), modifier(Modifier::RightShift)),
        RecordError::Modifier
    );
    let capability = |capability| {
        EventKind::InputReceived(HardwareEvent::Capability {
            capability,
            present: true,
        })
    };
    assert_eq!(
        spoilt(
            capability(HardwareCapability::Display),
            capability(HardwareCapability::Backlight)
        ),
        RecordError::Capability
    );
    assert_eq!(
        spoilt(
            EventKind::InputReceived(HardwareEvent::Device { present: true }),
            EventKind::InputReceived(HardwareEvent::Visibility { visible: true })
        ),
        RecordError::Event
    );
    assert_eq!(
        spoilt(
            finished(TimerDisposition::Completed),
            finished(TimerDisposition::Cancelled)
        ),
        RecordError::Disposition
    );
    let span = |kind, status| EventKind::MinimalSpan(sample(kind, status));
    assert_eq!(
        spoilt(
            span(SpanKind::Present, SpanStatus::Failed),
            span(SpanKind::Calibration, SpanStatus::Failed)
        ),
        RecordError::SpanKind
    );
    assert_eq!(
        spoilt(
            span(SpanKind::Present, SpanStatus::Failed),
            span(SpanKind::Present, SpanStatus::Succeeded)
        ),
        RecordError::SpanStatus
    );
    let configured = |mode| EventKind::BrokerConfigured {
        mode,
        start_ns: 1,
        rate: 30,
        causal: false,
    };
    assert_eq!(spoilt(configured(Mode::A), configured(Mode::C)), RecordError::Mode);
    let operation = |operation| EventKind::BrokerOperation {
        operation,
        success: true,
    };
    assert_eq!(
        spoilt(operation(Operation::Claim), operation(Operation::Release)),
        RecordError::Operation
    );
    for (allocation, error) in [
        (FrameAllocation { id: 0, ..allocation() }, RecordError::AllocationId),
        (FrameAllocation { token: 1 << 63, ..allocation() }, RecordError::AllocationTokenTime),
        (FrameAllocation { allocated_ns: 0, ..allocation() }, RecordError::AllocationTokenTime),
    ] {
        let record = Record {
            sequence: 1,
            at_ns: 1,
            kind: EventKind::PendingDiscarded {
                allocation: Some(allocation),
                marker: Err(DecodeError::Cell),
            },
        };
        assert_eq!(encode_record(&record).err(), Some(error));
    }
}

#[test]
fn a_painted_marker_is_read() {
    let spelled = packet(b"run-1", b"gen.2", 0x0102_0304, b"17");
    let marker = decode(&painted(&spelled)).unwrap();
    assert_eq!(marker.bytes(), &spelled);
    assert_eq!(marker.run_id(), b"run-1");
    assert_eq!(marker.generation(), b"gen.2");
    assert_eq!(marker.input_id(), Some(b"17".to_vec()));
    assert_eq!(marker.frame_id(), 0x0102_0304);
    let bare = decode_packet(packet(b"r", b"g", 1, b"")).unwrap();
    assert_eq!(bare.input_id(), None);
    assert_eq!(checksum(b"123456789", 9), 0xcbf4_3926);
}

#[test]
fn a_marker_that_is_not_whole_is_refused() {
    let spelled = packet(b"run", b"gen", 1, b"");
    let frame = painted(&spelled);
    let small = LogicalFrame::from_parts(2008, 59, 8032, vec![0; 8032 * 59]);
    assert_eq!(decode(&small).err(), Some(DecodeError::Geometry));
    let mut pixels = frame.pixels().to_vec();
    pixels[4 * 8032 + 188 * 4] ^= 1;
    let grey = LogicalFrame::from_parts(2008, 60, 8032, pixels);
    assert_eq!(decode(&grey).err(), Some(DecodeError::Cell));

    let spoil = |change: &dyn Fn(&mut [u8; 408])| {
        let mut p = spelled;
        change(&mut p);
        seal(&mut p);
        decode_packet(p).err()
    };
    assert_eq!(spoil(&|_| ()), None);
    for change in [
        (&|p: &mut [u8; 408]| p[0] = b'X') as &dyn Fn(&mut [u8; 408]),
        &|p| p[8..16].fill(0),
        &|p| p[8] = 0x80,
        &|p| p[16] = 0,
        &|p| p[17] = 129,
        &|p| p[19] = 1,
        &|p| p[20] = b' ',
        &|p| p[40] = b'a',
        &|p| p[276] = b'1',
    ] {
        assert_eq!(spoil(change), Some(DecodeError::Packet));
    }
    let mut unsealed = spelled;
    unsealed[407] ^= 1;
    assert_eq!(decode(&painted(&unsealed)).err(), Some(DecodeError::Packet));
}

#[test]
fn a_pixel_is_read_as_red_green_blue_and_alpha() {
    let mut pixels = vec![0; 24];
    pixels[16..20].copy_from_slice(&[1, 2, 3, 4]);
    let frame = LogicalFrame::from_parts(2, 2, 12, pixels);
    assert_eq!(frame.rgba_at(1, 1), [3, 2, 1, 4]);
    assert_eq!(frame.rgba_at(0, 1), [0, 0, 0, 0]);
}
