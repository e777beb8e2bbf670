use sliver::bootstrap::{
    after_receive, after_send, bootstrap_byte, read_ancillary, receive_storage, Ancillary,
    AncillaryHeader, AncillaryKind, BootstrapError, CaptureLevel, IoStep, BOOTSTRAP_OFF,
    BOOTSTRAP_WORKER, BOOTSTRAP_WORKER_MINIMAL,
};
use sliver::capture_storage::{
    page_words, reads_again, snapshot_mapping, Collector, DescriptorFacts, MappedWriter, RawReport,
    SourceRole, StorageError, WordWrite, HEADER_BYTES,
};
use sliver::events::{
    EventKind, FrameAllocation, ObservationKind, Phase, Record, Resolution, SpanKind, SpanStatus,
};
use sliver::fake_touch_bar::FakeTouchBar;
use sliver::hardware::{HardwareEvent, LogicalFrame, TouchPhase};
use sliver::marker::DecodeError;
use sliver::observer::{clock_ns, clock_read_cost, Capture, CaptureError, MAX_RECORDS};
use sliver::record_layout::RECORD_BYTES;
use sliver::timing::TimingCapture;

/// Storage as bytes, which a collector and a writer share.
struct Store {
    collector: Collector,
    bytes: Vec<u8>,
}

impl Store {
    fn new(capacity: usize) -> Store {
        let (mut collector, words) = Collector::new(capacity).ok().unwrap();
        collector.take_worker_storage().unwrap();
        let bytes = words.iter().flat_map(|w| w.to_le_bytes()).collect();
        Store { collector, bytes }
    }
    fn words(&self) -> Vec<u64> {
        self.bytes
            .chunks_exact(8)
            .map(|c| u64::from_le_bytes(c.try_into().unwrap()))
            .collect()
    }
    fn facts(&self) -> DescriptorFacts {
        DescriptorFacts {
            regular: true,
            size_sealed: true,
            read_write: true,
            size: self.bytes.len() as i64,
        }
    }
    fn receive(&mut self) -> Result<MappedWriter, StorageError> {
        let mut words = self.words();
        let facts = self.facts();
        let writer = MappedWriter::receive_for_role(facts, &mut words, SourceRole::Worker);
        self.bytes = words.iter().flat_map(|w| w.to_le_bytes()).collect();
        writer
    }
    fn apply(&mut self, writes: Vec<WordWrite>) {
        for write in writes {
            self.put(write.index * 8, &write.value.to_le_bytes());
        }
    }
    fn put(&mut self, at: usize, bytes: &[u8]) {
        self.bytes[at..at + bytes.len()].copy_from_slice(bytes);
    }
    fn snapshot(&self) -> Result<RawReport, StorageError> {
        let words = self.words();
        snapshot_mapping(&words, words[7], words[7], self.collector.capacity)
    }
    fn record(&self, index: usize) -> [u8; RECORD_BYTES] {
        let at = HEADER_BYTES + index * RECORD_BYTES;
        self.bytes[at..at + RECORD_BYTES].try_into().unwrap()
    }
    fn capture(&mut self) -> Capture {
        let writer = self.receive().unwrap();
        Capture::from_mapped(writer, [1; 32], 1).ok().unwrap()
    }
}

fn frame() -> LogicalFrame {
    LogicalFrame::from_parts(2, 1, 8, vec![255; 8])
}

#[test]
fn private_capture_bootstrap_rejects_missing_extra_and_truncated_rights() {
    for (byte, count, truncated, message) in [
        (BOOTSTRAP_WORKER, 0, false, "exactly one"),
        (BOOTSTRAP_WORKER, 2, false, "exactly one"),
        (BOOTSTRAP_WORKER, 8, true, "truncated"),
        (BOOTSTRAP_WORKER_MINIMAL, 0, false, "exactly one"),
        (BOOTSTRAP_WORKER_MINIMAL, 2, false, "exactly one"),
        (BOOTSTRAP_WORKER_MINIMAL, 8, true, "truncated"),
        (BOOTSTRAP_OFF, 1, false, "off bootstrap"),
        (0xff, 1, false, "version"),
    ] {
        let headers = if count == 0 {
            vec![]
        } else {
            vec![AncillaryHeader {
                kind: AncillaryKind::Rights,
                payload: 4 * count,
            }]
        };
        let ancillary = read_ancillary(&headers, truncated, false);
        assert_eq!(ancillary.descriptors, count as u64);
        let error = receive_storage(1, byte, ancillary).unwrap_err();
        assert!(error.message().contains(message), "{}", error.message());
    }
    let one = Ancillary {
        descriptors: 1,
        invalid: false,
    };
    assert_eq!(
        receive_storage(1, bootstrap_byte(Some(CaptureLevel::Detailed)), one),
        Ok(Some(CaptureLevel::Detailed))
    );
    assert_eq!(receive_storage(0, BOOTSTRAP_OFF, one), Err(BootstrapError::Disconnected));
}

#[test]
fn unwanted_ancillary_data_is_counted_and_refused() {
    let rights = AncillaryHeader {
        kind: AncillaryKind::Rights,
        payload: 6,
    };
    let a = read_ancillary(&vec![rights], false, false);
    assert!(a.invalid && a.descriptors == 1);
    let pidfd = AncillaryHeader {
        kind: AncillaryKind::Pidfd,
        payload: 4,
    };
    let owned = read_ancillary(&vec![pidfd], false, true);
    assert!(owned.invalid && owned.descriptors == 1);
    let ignored = read_ancillary(&vec![pidfd], false, false);
    assert!(ignored.invalid && ignored.descriptors == 0);
    let other = AncillaryHeader {
        kind: AncillaryKind::Other,
        payload: 8,
    };
    assert!(read_ancillary(&vec![other], false, true).invalid);
    assert!(!read_ancillary(&vec![], false, true).invalid);
}

#[test]
fn private_capture_storage_rejects_unsealed_readonly_wrong_role_and_layout() {
    let mut store = Store::new(2);
    let facts = store.facts();
    let mut words = store.words();
    for (bad, error) in [
        (DescriptorFacts { regular: false, ..facts }, StorageError::NotRegular),
        (DescriptorFacts { size_sealed: false, ..facts }, StorageError::Unsealed),
        (DescriptorFacts { read_write: false, ..facts }, StorageError::NotWritable),
        (DescriptorFacts { size: 511, ..facts }, StorageError::SizeBound),
        (DescriptorFacts { size: 33_554_945, ..facts }, StorageError::SizeBound),
    ] {
        assert_eq!(
            MappedWriter::receive_for_role(bad, &mut words, SourceRole::Worker),
            Err(error)
        );
    }
    for (index, invalid, original, error) in [
        (0, 1, 0x3130_5741_5256_4c53, StorageError::Version),
        (2, 2, 1, StorageError::ExpectedRole),
        (3, 2, 1, StorageError::ExpectedRole),
        (4, 3, 2, StorageError::Truncated),
        (4, 0, 2, StorageError::Layout),
        (5, 1024, RECORD_BYTES as u64, StorageError::Layout),
        (7, 1, 0, StorageError::Used),
    ] {
        store.put(index * 8, &u64::to_le_bytes(invalid));
        assert_eq!(store.receive(), Err(error));
        store.put(index * 8, &u64::to_le_bytes(original));
    }
    assert!(store.receive().is_ok());
    assert_eq!(store.receive(), Err(StorageError::Claimed), "a second writer");
    assert_eq!(store.collector.take_worker_storage(), Err(StorageError::TicketTaken));
    assert!(Collector::new(0).is_err());
    assert!(Collector::new(MAX_RECORDS + 1).is_err());
}

#[test]
fn a_ticket_is_for_one_role() {
    let (mut collector, words) = Collector::for_role(1, SourceRole::Broker).ok().unwrap();
    assert_eq!(words.len(), 128);
    assert_eq!(words[2], 2);
    assert_eq!(collector.take_storage(SourceRole::Supervisor), Err(StorageError::Role));
    assert_eq!(collector.take_storage(SourceRole::Broker), Ok(()));
    assert_eq!(collector.take_storage(SourceRole::Broker), Err(StorageError::TicketTaken));
    assert!(StorageError::ExpectedRole.message().contains("expected role"));
}

#[test]
fn private_capture_wire_is_explicit_and_late_writes_remain_loss() {
    let mut store = Store::new(2);
    let mut capture = store.capture();
    capture.record_at(Some(123_456), EventKind::RenderAllocated { attempt: 7 });
    capture.finish(Some(200_000));
    capture.record_at(Some(300_000), EventKind::PollFailed);
    store.apply(capture.take_writes());
    let raw = store.snapshot().ok().unwrap();
    assert!(raw.initialized && raw.metadata_consistent && raw.report.counters.closed);
    assert_eq!(raw.report.records.len(), 1);
    assert_eq!(raw.report.counters.attempted_records, 2);
    assert_eq!(raw.report.counters.lost, 1);
    assert_eq!(raw.report.counters.after_close, 1);
    assert_eq!(raw.report.counters.failed_operations, 1);
    assert_eq!(raw.storage_bytes, 1536);
    let record = store.record(0);
    assert_eq!(&record[..10], &[27, 0, 1, 0, 0, 0, 0, 0, 0, 0]);
    assert_eq!(&record[10..18], &raw.report.records[0].at_ns.to_le_bytes());
    assert_eq!(&record[18..27], &[1, 7, 0, 0, 0, 0, 0, 0, 0]);
    assert!(record[27..].iter().all(|byte| *byte == 0));
}

#[test]
fn private_capture_rejects_truncated_and_unknown_record_encoding() {
    let mut store = Store::new(1);
    let mut capture = store.capture();
    capture.record_at(Some(1), EventKind::RenderAllocated { attempt: 1 });
    capture.finish(Some(2));
    store.apply(capture.take_writes());
    store.put(HEADER_BYTES, &25_u16.to_le_bytes());
    assert!(store.snapshot().is_err(), "truncated typed payload was accepted");
    store.put(HEADER_BYTES, &27_u16.to_le_bytes());
    store.put(HEADER_BYTES + 18, &[255]);
    assert!(store.snapshot().is_err(), "unknown event type was accepted");
    store.put(HEADER_BYTES + 18, &[1]);
    store.put(HEADER_BYTES + RECORD_BYTES - 1, &[1]);
    assert!(store.snapshot().is_err(), "noncanonical padding was accepted");
    store.put(HEADER_BYTES + RECORD_BYTES - 1, &[0]);
    store.put(HEADER_BYTES + 2, &[2]);
    assert!(matches!(store.snapshot(), Err(StorageError::Discontinuous)));
    store.put(64, &2_u64.to_le_bytes());
    assert!(matches!(store.snapshot(), Err(StorageError::CommittedCount)));
}

#[test]
fn every_page_of_storage_is_touched_once() {
    assert_eq!(page_words(4096, 66_048).ok().unwrap().len(), 17);
    assert_eq!(page_words(4096, 8192).ok().unwrap(), vec![0, 512]);
    assert_eq!(page_words(8, 24).ok().unwrap(), vec![0, 1, 2]);
    assert!(page_words(4096, 0).ok().unwrap().is_empty());
    assert!(matches!(page_words(12, 64), Err(StorageError::PageSize)));
    assert!(matches!(page_words(-1, 64), Err(StorageError::PageSize)));
}

fn timing(capacity: usize, exporting: bool) -> TimingCapture {
    TimingCapture::new(capacity, exporting, [1; 32], 1, 40).ok().unwrap()
}

#[test]
fn private_capture_counts_failed_minimal_spans_without_recounting_summaries() {
    let mut store = Store::new(8);
    let mut capture = store.capture();
    let mut timing = timing(4, true);
    let present = timing.begin(Some(10), SpanKind::Present);
    let export = timing.finish(present, Some(20), true, false).unwrap();
    capture.record_at(Some(21), export);
    let render = timing.begin(Some(30), SpanKind::RenderCallback);
    let export = timing.abandon(render, Some(40)).unwrap();
    capture.record_at(Some(41), export);
    for at in [50, 60] {
        let export = timing.close(Some(at)).unwrap();
        capture.record_at(Some(at + 1), export);
    }
    capture.finish(Some(70));
    store.apply(capture.take_writes());
    let raw = store.snapshot().ok().unwrap();
    assert_eq!(
        raw.report.counters.failed_operations, 2,
        "failed and abandoned samples count once each, repeated summaries add no failures"
    );
    let summaries = raw
        .report
        .records
        .iter()
        .filter(|r| matches!(r.kind, EventKind::MinimalSummary(_)))
        .count();
    assert_eq!(summaries, 2);
    assert_eq!(raw.report.counters.clock_failures, 0);
}

#[test]
fn private_capture_counts_fixture_failure_observations_not_phase_or_summaries() {
    for synthetic in [false, true] {
        let mut store = Store::new(8);
        let mut capture = store.capture();
        for kind in [
            ObservationKind::Failed,
            ObservationKind::Resolved {
                frame_id: 7,
                resolution: Resolution::Failed,
                resolved_ns: 80,
            },
            ObservationKind::Resolved {
                frame_id: 8,
                resolution: Resolution::Discarded,
                resolved_ns: 81,
            },
            ObservationKind::Resolved {
                frame_id: 9,
                resolution: Resolution::Presented,
                resolved_ns: 82,
            },
            ObservationKind::Phase(Phase::Ended),
            ObservationKind::Closed,
        ] {
            capture.record_at(
                Some(100),
                EventKind::FixtureObserved {
                    synthetic,
                    decision_ns: 90,
                    kind,
                },
            );
        }
        let mut timing = timing(1, true);
        for at in [110, 120] {
            let export = timing.close(Some(at)).unwrap();
            capture.record_at(Some(at), export);
        }
        capture.finish(Some(130));
        store.apply(capture.take_writes());
        let raw = store.snapshot().ok().unwrap();
        assert_eq!(
            raw.report.counters.failed_operations, 2,
            "Failed and Resolved(Failed) are separate failure observations, synthetic={synthetic}"
        );
        assert_eq!(raw.report.counters.clock_failures, 0);
        assert_eq!(raw.report.records.len(), 8);
        assert_eq!(raw.report.counters.lost, 0);
    }
}

#[test]
fn private_capture_bootstrap_preserves_typed_recording_level() {
    for level in [CaptureLevel::Detailed, CaptureLevel::Minimal] {
        let mut store = Store::new(8);
        let byte = bootstrap_byte(Some(level));
        let one = Ancillary {
            descriptors: 1,
            invalid: false,
        };
        assert_eq!(receive_storage(1, byte, one), Ok(Some(level)));
        let writer = store.receive().unwrap();
        assert_eq!(writer.capacity, 8);
        assert!(!store.snapshot().ok().unwrap().initialized);
    }
}

#[test]
fn private_capture_encodes_calibration_separately_from_work() {
    let mut store = Store::new(4);
    let mut capture = store.capture();
    let mut timing = timing(1, true);
    let span = timing.begin(Some(5), SpanKind::Calibration);
    let export = timing.finish(span, Some(6), false, true).unwrap();
    capture.record_at(Some(7), export);
    let mut costs = [7; 32];
    costs[0] = 0;
    costs[31] = u64::MAX;
    capture.record_at(Some(8), EventKind::MinimalCalibration { cost_ns: costs });
    let export = timing.close(Some(9)).unwrap();
    capture.record_at(Some(10), export);
    capture.finish(Some(11));
    store.apply(capture.take_writes());
    let raw = store.snapshot().ok().unwrap();
    assert!(
        matches!(&raw.report.records[0].kind, EventKind::MinimalSpan(s)
            if s.kind == SpanKind::Calibration && !s.frame_bearing && s.status == SpanStatus::Succeeded)
    );
    assert!(
        matches!(&raw.report.records[1].kind, EventKind::MinimalCalibration { cost_ns } if *cost_ns == costs)
    );
    assert_eq!(raw.report.counters.failed_operations, 0);
    assert_eq!(store.bytes[HEADER_BYTES + 35], 3, "Calibration has its own span wire kind");
    let encoded = store.record(1);
    assert_eq!(&encoded[..2], &275_u16.to_le_bytes());
    assert_eq!(encoded[18], 27);
    assert_eq!(&encoded[19..27], &[0; 8]);
    assert_eq!(&encoded[267..275], &[255; 8]);
    assert!(encoded[275..].iter().all(|b| *b == 0));
}

#[test]
fn private_capture_preserves_fixture_endpoint_and_clock_domains() {
    let mut store = Store::new(4);
    let mut capture = store.capture();
    capture.record_at(
        Some(100),
        EventKind::FixtureObserved {
            synthetic: true,
            decision_ns: 90,
            kind: ObservationKind::Resolved {
                frame_id: 7,
                resolution: Resolution::Presented,
                resolved_ns: 80,
            },
        },
    );
    capture.record_at(
        Some(200),
        EventKind::FixtureObserved {
            synthetic: false,
            decision_ns: 190,
            kind: ObservationKind::ResponseConfirmed {
                receipt_sequence: 3,
                frame_id: 7,
                token: 1,
                responded_ns: 180,
            },
        },
    );
    capture.finish(Some(300));
    store.apply(capture.take_writes());
    let raw = store.snapshot().ok().unwrap();
    assert_eq!(raw.report.records[0].at_ns, 100);
    assert_eq!(raw.report.records[1].at_ns, 200);
    assert!(matches!(
        raw.report.records[0].kind,
        EventKind::FixtureObserved {
            synthetic: true,
            decision_ns: 90,
            kind: ObservationKind::Resolved {
                frame_id: 7,
                resolution: Resolution::Presented,
                resolved_ns: 80
            },
        }
    ));
    assert!(matches!(
        raw.report.records[1].kind,
        EventKind::FixtureObserved {
            synthetic: false,
            decision_ns: 190,
            kind: ObservationKind::ResponseConfirmed {
                receipt_sequence: 3,
                frame_id: 7,
                token: 1,
                responded_ns: 180
            },
        }
    ));
    let record = store.record(0);
    assert_eq!(record[18], 32);
    assert_eq!(record[19], 1);
    assert_eq!(&record[20..28], &90_u64.to_le_bytes());
    assert_eq!(record[28], 3, "Resolved has a fixed fixture subtag");
    assert_eq!(&record[38..46], &80_u64.to_le_bytes());
}

#[test]
fn private_capture_fixture_variants_roundtrip_in_fixed_records() {
    let mut cases = vec![
        (
            ObservationKind::Allocated {
                frame_id: 0,
                token: u64::MAX,
            },
            1,
            45,
        ),
        (ObservationKind::Suppressed, 2, 29),
        (ObservationKind::WarmupClosed, 4, 29),
        (ObservationKind::PeriodicRetired { timer_id: u64::MAX }, 5, 37),
        (
            ObservationKind::Delivered {
                receipt_sequence: u64::MAX,
            },
            7,
            37,
        ),
        (
            ObservationKind::TokenMutated {
                receipt_sequence: 0,
                previous: u64::MAX,
                token: 1,
            },
            8,
            53,
        ),
        (
            ObservationKind::ResponseConfirmed {
                receipt_sequence: 0,
                frame_id: 1,
                token: 2,
                responded_ns: u64::MAX,
            },
            9,
            61,
        ),
        (ObservationKind::Failed, 10, 29),
        (ObservationKind::Closed, 11, 29),
    ];
    for phase in [
        Phase::Warmup,
        Phase::Quiescing,
        Phase::Armed,
        Phase::Measured,
        Phase::Drain,
        Phase::Ended,
    ] {
        cases.push((ObservationKind::Phase(phase), 0, 30));
    }
    for resolution in [Resolution::Presented, Resolution::Discarded, Resolution::Failed] {
        cases.push((
            ObservationKind::Resolved {
                frame_id: u64::MAX,
                resolution,
                resolved_ns: 0,
            },
            3,
            46,
        ));
    }
    for phase in [TouchPhase::Down, TouchPhase::Move, TouchPhase::Up, TouchPhase::Cancel] {
        cases.push((
            ObservationKind::ReceiptSupplied {
                receipt_sequence: u64::MAX,
                received_ns: 0,
                contact: u32::MAX,
                phase,
            },
            6,
            50,
        ));
    }
    let mut store = Store::new(cases.len());
    let mut capture = store.capture();
    for (index, (kind, _, _)) in cases.iter().enumerate() {
        capture.record_at(
            Some(u64::MAX),
            EventKind::FixtureObserved {
                synthetic: index % 2 == 0,
                decision_ns: 0,
                kind: *kind,
            },
        );
    }
    capture.finish(Some(1));
    store.apply(capture.take_writes());
    let raw = store.snapshot().ok().unwrap();
    assert!(raw.metadata_consistent && raw.report.counters.closed);
    assert_eq!(raw.report.records.len(), cases.len());
    assert_eq!(raw.report.counters.lost, 0);
    assert_eq!(raw.storage_bytes, HEADER_BYTES + cases.len() * RECORD_BYTES);
    for (index, (expected, subtag, len)) in cases.iter().enumerate() {
        let record = &raw.report.records[index];
        assert_eq!(record.sequence, index as u64 + 1);
        assert_eq!(record.at_ns, u64::MAX);
        let EventKind::FixtureObserved {
            synthetic,
            decision_ns,
            kind,
        } = record.kind
        else {
            panic!("fixture record decoded as another event");
        };
        assert_eq!(synthetic, index % 2 == 0);
        assert_eq!(decision_ns, 0);
        assert_eq!(kind, *expected);
        let encoded = store.record(index);
        assert_eq!(u16::from_le_bytes([encoded[0], encoded[1]]), *len as u16);
        assert_eq!(encoded[18], 32);
        assert_eq!(encoded[28], *subtag);
        assert!(encoded[*len..].iter().all(|byte| *byte == 0));
        match index {
            9..=14 => assert_eq!(encoded[29], (index - 9) as u8),
            15..=17 => assert_eq!(encoded[37], (index - 15) as u8),
            18..=21 => assert_eq!(encoded[49], (index - 18) as u8),
            _ => {}
        }
    }
}

#[test]
fn private_capture_rejects_malformed_calibration_and_fixture_records() {
    let mut store = Store::new(1);
    let mut capture = store.capture();
    capture.record_at(Some(100), EventKind::MinimalCalibration { cost_ns: [0; 32] });
    capture.finish(Some(101));
    store.apply(capture.take_writes());
    let mut packets = vec![store.record(0)];
    for (subtag, len) in [(0, 30_u16), (3, 46), (6, 50), (9, 61)] {
        let mut packet = [0; RECORD_BYTES];
        packet[..2].copy_from_slice(&len.to_le_bytes());
        packet[2] = 1;
        packet[18] = 32;
        packet[28] = subtag;
        packets.push(packet);
    }
    for original in packets {
        store.put(HEADER_BYTES, &original);
        assert!(store.snapshot().is_ok(), "valid packet must decode first");
        let len = u16::from_le_bytes([original[0], original[1]]) as usize;
        for short in 0..len {
            let mut malformed = original;
            malformed[short.max(2)..].fill(0);
            malformed[..2].copy_from_slice(&(short as u16).to_le_bytes());
            store.put(HEADER_BYTES, &malformed);
            assert!(store.snapshot().is_err(), "accepted tag {} length {short}", original[18]);
        }
        for invalid_len in [len + 1, RECORD_BYTES, RECORD_BYTES + 1, u16::MAX as usize] {
            let mut malformed = original;
            malformed[..2].copy_from_slice(&(invalid_len as u16).to_le_bytes());
            store.put(HEADER_BYTES, &malformed);
            assert!(
                store.snapshot().is_err(),
                "accepted tag {} length {invalid_len}",
                original[18]
            );
        }
        let mut invalid_bytes = vec![(RECORD_BYTES - 1, 1)];
        if original[18] == 32 {
            invalid_bytes.extend([(19, 2), (28, 12), (28, 255)]);
            match original[28] {
                0 => invalid_bytes.push((29, 6)),
                3 => invalid_bytes.push((37, 3)),
                6 => invalid_bytes.push((49, 4)),
                _ => {}
            }
        }
        for (offset, value) in invalid_bytes {
            let mut malformed = original;
            malformed[offset] = value;
            store.put(HEADER_BYTES, &malformed);
            assert!(
                store.snapshot().is_err(),
                "accepted tag {} byte {offset}={value}",
                original[18]
            );
        }
        store.put(HEADER_BYTES, &original);
        assert!(
            store.snapshot().is_ok(),
            "malformed input must not consume the valid prefix"
        );
    }
}

#[test]
fn private_capture_correlated_publications_preserve_exact_allocation_and_reject_malformed_fields() {
    let allocation = FrameAllocation {
        id: 7,
        token: 3,
        allocated_ns: 123_456_789,
    };
    let mut store = Store::new(4);
    let mut capture = store.capture();
    capture.record_at(
        Some(200_000_000),
        EventKind::Published {
            sequence: 2,
            allocation: Some(allocation),
            marker: Err(DecodeError::Geometry),
        },
    );
    capture.record_at(
        Some(200_000_001),
        EventKind::PendingDiscarded {
            allocation: Some(allocation),
            marker: Err(DecodeError::Geometry),
        },
    );
    capture.record_at(
        Some(200_000_002),
        EventKind::Published {
            sequence: 3,
            allocation: None,
            marker: Err(DecodeError::Geometry),
        },
    );
    capture.finish(Some(200_000_003));
    store.apply(capture.take_writes());
    let report = store.snapshot().ok().unwrap();
    assert!(matches!(report.report.records[0].kind,
        EventKind::Published { sequence: 2, allocation: Some(actual), .. } if actual == allocation));
    assert!(matches!(report.report.records[1].kind,
        EventKind::PendingDiscarded { allocation: Some(actual), .. } if actual == allocation));
    assert!(matches!(
        report.report.records[2].kind,
        EventKind::Published {
            sequence: 3,
            allocation: None,
            ..
        }
    ));
    let original = store.record(0);
    assert_eq!(original[18], 3);
    assert_eq!(original[27], 1);
    for (offset, value) in [(28, 0), (28, u64::MAX), (36, u64::MAX), (44, 0), (44, u64::MAX)] {
        let mut malformed = original;
        malformed[offset..offset + 8].copy_from_slice(&value.to_le_bytes());
        store.put(HEADER_BYTES, &malformed);
        assert!(store.snapshot().is_err(), "accepted malformed allocation at {offset}");
    }
    let mut malformed = original;
    malformed[27] = 2;
    store.put(HEADER_BYTES, &malformed);
    assert!(store.snapshot().is_err());
    store.put(HEADER_BYTES, &original);
    assert!(store.snapshot().is_ok());
    store.put(8, &1_u64.to_le_bytes());
    let error = store.receive().unwrap_err();
    assert!(error.message().contains("unsupported raw storage version"));
}

#[test]
fn private_capture_bootstrap_honors_expired_deadline() {
    assert_eq!(after_send(-1, true, true), Err(BootstrapError::SendTimeout));
    assert_eq!(after_send(-1, true, false), Ok(IoStep::Retry));
    assert_eq!(after_send(-1, false, false), Ok(IoStep::Failed));
    assert_eq!(after_send(0, true, false), Err(BootstrapError::SendClosed));
    assert_eq!(after_send(1, true, true), Ok(IoStep::Done));
    assert_eq!(after_receive(-1, true, Some(true)), Err(BootstrapError::ReceiveTimeout));
    assert_eq!(after_receive(-1, true, None), Ok(IoStep::Retry));
    assert_eq!(after_receive(-1, false, Some(false)), Ok(IoStep::Failed));
    assert_eq!(after_receive(1, true, Some(true)), Ok(IoStep::Done));
    let none = Ancillary {
        descriptors: 0,
        invalid: false,
    };
    assert_eq!(receive_storage(1, bootstrap_byte(None), none), Ok(None));
}

#[test]
fn private_empty_poll_does_not_sample_and_discard_a_clock_failure() {
    let mut source = Capture::new(8, [1; 32], 1).ok().unwrap();
    let mut hardware = FakeTouchBar::new();
    hardware.claim().unwrap();
    let events = hardware.poll().ok();
    assert!(events.as_ref().unwrap().is_empty());
    assert!(!Capture::poll_needs_clock(&events), "an empty poll must not sample the clock");
    source.polled(None, &events);
    source.finish(Some(9));
    let report = source.report();
    assert!(report.records.is_empty());
    assert_eq!(report.counters.clock_failures, 0);
    hardware.release();
}

#[test]
fn private_nonempty_poll_clock_failure_is_retained_without_changing_hardware_result() {
    let mut source = Capture::new(8, [1; 32], 1).ok().unwrap();
    let mut hardware = FakeTouchBar::new();
    hardware.claim().unwrap();
    let event = HardwareEvent::Fn { active: true };
    hardware.inject(event);
    let events = hardware.poll().ok();
    assert_eq!(events, Some(vec![event]));
    assert!(Capture::poll_needs_clock(&events));
    source.polled(None, &events);
    source.finish(Some(9));
    let report = source.report();
    assert_eq!(report.counters.clock_failures, 1);
    assert_eq!(report.records.len(), 1);
    assert_eq!(report.records[0].at_ns, 0);
    assert!(matches!(report.records[0].kind, EventKind::InputReceived(e) if e == event));
    assert!(source.ensure_closed_and_healthy().is_err());
    hardware.release();
}

#[test]
fn a_recorder_counts_what_it_keeps_and_what_it_loses() {
    let mut source = Capture::new(2, [1; 32], 5).ok().unwrap();
    assert!(source.ensure_open_and_healthy().is_ok());
    assert!(source.ensure_closed_and_healthy().is_err());
    assert_eq!(source.allocate_render(Some(1)), 1);
    assert_eq!(source.allocate_render(Some(2)), 2);
    assert!(source.ensure_open_and_healthy().is_ok());
    assert_eq!(source.allocate_render(Some(3)), 3);
    assert_eq!(source.ensure_open_and_healthy(), Err(CaptureError::Unhealthy));
    let report = source.report();
    assert_eq!(report.records.len(), 2);
    assert_eq!(report.counters.attempted_records, 3);
    assert_eq!(report.counters.lost, 1);
    assert_eq!(report.capacity, 2);
    assert_eq!(report.record_bytes, RECORD_BYTES);

    let mut source = Capture::new(4, [1; 32], 5).ok().unwrap();
    let call = source.present_entered(Some(1), &frame());
    assert_eq!(call, 1);
    source.present_returned(Some(2), call, false);
    source.polled(Some(3), &None);
    source.finish(None);
    let counters = source.report().counters;
    assert_eq!(counters.decode_failures, 1);
    assert_eq!(counters.failed_operations, 2);
    assert_eq!(counters.clock_failures, 1);
    assert!(counters.closed && counters.closed_at_ns.is_none());
    assert!(Capture::new(0, [0; 32], 1).is_err());
    assert!(Capture::new(MAX_RECORDS + 1, [0; 32], 1).is_err());
}

#[test]
fn an_interrupted_update_is_never_consistent() {
    let mut store = Store::new(2);
    let mut capture = store.capture();
    store.apply(capture.take_writes());
    capture.record_at(Some(5), EventKind::WorkerCaptureConfigured { detailed: true });
    store.apply(capture.take_writes());
    capture.record_at(Some(6), EventKind::RedrawRequested { coalesced: false });
    let writes = capture.take_writes();
    for done in 1..writes.len() {
        let mut words = store.words();
        for write in &writes[..done] {
            words[write.index] = write.value;
        }
        let raw = snapshot_mapping(&words, words[7], words[7], 2).ok().unwrap();
        assert!(!raw.metadata_consistent, "after {done} words");
        assert!(reads_again(&raw, 2) && !reads_again(&raw, 3));
        assert!(!raw.report.counters.closed);
        let kept = raw.report.records.len();
        assert!(kept == 1 || (kept == 2 && done >= 66));
    }
    store.apply(writes);
    let raw = store.snapshot().ok().unwrap();
    assert!(raw.metadata_consistent && !reads_again(&raw, 1));
    assert_eq!(raw.report.records.len(), 2);
    // Two different readings of the revision are no consistent reading.
    let words = store.words();
    let torn = snapshot_mapping(&words, words[7] - 2, words[7], 2).ok().unwrap();
    assert!(!torn.metadata_consistent);
}

#[test]
fn a_writer_refuses_what_does_not_fit() {
    let mut store = Store::new(1);
    let mut writer = store.receive().unwrap();
    let record = |sequence, kind| Record {
        sequence,
        at_ns: 1,
        kind,
    };
    let bad = FrameAllocation {
        id: 0,
        token: 0,
        allocated_ns: 1,
    };
    let refused = writer.append(&record(
        1,
        EventKind::PendingDiscarded {
            allocation: Some(bad),
            marker: Err(DecodeError::Cell),
        },
    ));
    assert!(matches!(refused, Err(StorageError::Record(_))));
    assert_eq!(writer.append(&record(1, EventKind::PollFailed)).ok().unwrap().len(), 66);
    assert!(matches!(
        writer.append(&record(2, EventKind::PollFailed)),
        Err(StorageError::Full)
    ));
}

#[test]
fn clock_readings_are_checked() {
    assert_eq!(clock_ns(true, 2, 3), Ok(2_000_000_003));
    assert_eq!(clock_ns(false, 2, 3), Err(CaptureError::ClockRead));
    assert_eq!(clock_ns(true, -1, 3), Err(CaptureError::ClockInvalid));
    assert_eq!(clock_ns(true, 1, 1_000_000_000), Err(CaptureError::ClockInvalid));
    assert_eq!(clock_ns(true, i64::MAX, 0), Err(CaptureError::ClockOverflow));
    assert_eq!(clock_read_cost(Ok(5), Ok(9)), Ok(4));
    assert_eq!(clock_read_cost(Ok(9), Ok(5)), Err(CaptureError::ClockRegressed));
    let invalid = Err(CaptureError::ClockInvalid);
    assert_eq!(clock_read_cost(Err(CaptureError::ClockRead), Ok(5)), Err(CaptureError::ClockRead));
    assert_eq!(clock_read_cost(Ok(5), invalid), invalid);
}

#[test]
fn records_are_numbered_from_one() {
    let mut capture = Capture::new(3, [1; 32], 1).unwrap();
    for at in [5, 6, 7, 8] {
        capture.record_at(Some(at), EventKind::PollFailed);
    }
    capture.finish(Some(9));
    let report = capture.report();
    let numbers: Vec<u64> = report.records.iter().map(|record| record.sequence).collect();
    assert_eq!(numbers, vec![1, 2, 3]);
    assert_eq!((report.counters.attempted_records, report.counters.lost), (4, 1));
}
