use sliver::events::{DiscardReason, EventKind, FrameAllocation, FrameCorrelation};
use sliver::frame_records::{
    claim_records, closing_records, publication_records, selection_records, superseded_records,
};
use sliver::frame_slots::{FrameError, FrameSlots, FrameTiming, Publication};
use sliver::hardware::{LogicalFrame, RealBits};
use sliver::marker::{decode, DecodeError};
use sliver::observer::Capture;
use sliver::shared_frames::{
    slot_offset, SharedError, SharedFrameMap, SharedPublication, FREE, READING,
};

fn frame(value: u8) -> Vec<u8> {
    vec![value; 8]
}

fn number(value: f64) -> RealBits {
    RealBits {
        bits: value.to_bits(),
    }
}

fn timing(presentation_time: f64, delta: f64) -> FrameTiming {
    FrameTiming::new(number(presentation_time), number(delta)).unwrap()
}

fn allocation(id: u64) -> FrameAllocation {
    FrameAllocation {
        id,
        token: 7,
        allocated_ns: 123_456_789 + id,
    }
}

/// A block that an owner made and a child opened.
struct Shared {
    owner: SharedFrameMap,
    child: SharedFrameMap,
    storage: Vec<u8>,
}

impl Shared {
    fn new() -> Shared {
        let (owner, storage) = SharedFrameMap::new_shared(2, 1, 8).ok().unwrap();
        let child = SharedFrameMap::open(&storage).ok().unwrap();
        Shared {
            owner,
            child,
            storage,
        }
    }
    fn publish(
        &mut self,
        value: u8,
        timing: FrameTiming,
        allocation: Option<FrameAllocation>,
    ) -> SharedPublication {
        self.child
            .try_publish_fixture(&mut self.storage, (2, 1, 8), &frame(value), timing, allocation)
            .ok()
            .flatten()
            .unwrap()
    }
    fn put(&mut self, at: usize, value: u64) {
        self.storage[at..at + 8].copy_from_slice(&value.to_le_bytes());
    }
}

#[test]
fn private_allocation_survives_shared_selection_without_marker_pixels() {
    let mut shared = Shared::new();
    for (sequence, id) in [(1, 41), (2, 73)] {
        shared.publish(0, timing(987.0, 0.5), Some(allocation(id)));
        let taken = shared.owner.take_newest(&mut shared.storage).ok().flatten().unwrap();
        let expected = Some(FrameCorrelation {
            allocation: allocation(id),
            sequence,
        });
        assert_eq!(taken.frame.fixture_correlation, expected);
        let (logical, timing) = taken.frame.into_logical();
        assert_eq!(logical.fixture_correlation(), expected);
        assert_eq!(logical.clone().fixture_correlation(), expected);
        assert_eq!(timing.presentation_time, number(987.0));
        assert!(decode(&logical).is_err());
        // The complete payload is still pixels only.
        let wire = LogicalFrame::from_parts(
            logical.width(),
            logical.height(),
            logical.stride(),
            logical.pixels().to_vec(),
        );
        assert_eq!(wire.fixture_correlation(), None);
    }
    // Reuse of the same slot must erase all prior metadata.
    shared.publish(0, timing(987.0, 0.5), None);
    let taken = shared.owner.take_newest(&mut shared.storage).ok().flatten().unwrap();
    assert_eq!(taken.frame.fixture_correlation, None);
}

#[test]
fn private_shared_allocation_rejects_malformed_tags_and_values() {
    for (offset, value) in [
        (32, 2),
        (32, 0),
        (40, 0),
        (56, 0),
        (8, 0),
        (40, u64::MAX),
        (48, u64::MAX),
        (56, u64::MAX),
    ] {
        let mut shared = Shared::new();
        shared.publish(8, timing(0.0, 0.0), Some(allocation(9)));
        shared.put(slot_offset(0) + offset, value);
        assert!(
            shared.owner.take_newest(&mut shared.storage).is_err(),
            "accepted offset {offset} value {value}"
        );
    }
}

#[test]
fn private_shared_reclaim_preserves_exact_publication_dispositions() {
    let mut capture = Capture::new(32, [1; 32], 1).unwrap();
    let mut shared = Shared::new();
    for id in [10, 20, 30, 40] {
        let made = shared.publish(0, timing(0.0, 0.0), Some(allocation(id)));
        let picture = LogicalFrame::from_parts(2, 1, 8, frame(0));
        for kind in publication_records(
            &picture,
            made.sequence,
            made.discarded,
            Some(allocation(id)),
        ) {
            capture.record_at(Some(id), kind);
        }
    }
    let taken = shared.owner.take_newest(&mut shared.storage).ok().flatten().unwrap();
    for kind in selection_records(taken.sequence, &taken.discarded) {
        capture.record_at(Some(50), kind);
    }
    assert_eq!(
        taken.frame.fixture_correlation,
        Some(FrameCorrelation {
            allocation: allocation(40),
            sequence: 4,
        })
    );
    for kind in closing_records(&shared.owner.close(&shared.storage, true)) {
        capture.record_at(Some(60), kind);
    }
    let report = capture.report();
    let published: Vec<_> = report
        .records
        .iter()
        .filter_map(|record| match record.kind {
            EventKind::Published {
                sequence,
                allocation,
                ..
            } => Some((sequence, allocation)),
            _ => None,
        })
        .collect();
    assert_eq!(
        published,
        vec![
            (1, Some(allocation(10))),
            (2, Some(allocation(20))),
            (3, Some(allocation(30))),
            (4, Some(allocation(40)))
        ]
    );
    let mut discarded: Vec<_> = report
        .records
        .iter()
        .filter_map(|record| match record.kind {
            EventKind::Discarded { sequence, reason } => Some((sequence, reason)),
            _ => None,
        })
        .collect();
    discarded.sort_by_key(|(sequence, _)| *sequence);
    assert_eq!(
        discarded,
        vec![
            (1, DiscardReason::ProducerReclaim),
            (2, DiscardReason::ConsumerSuperseded),
            (3, DiscardReason::ConsumerSuperseded)
        ]
    );
    assert_eq!(report.counters.lost, 0);
}

#[test]
fn what_happens_to_frames_is_written_down_in_order() {
    let picture = LogicalFrame::from_parts(2, 1, 8, frame(0));
    let kinds = publication_records(&picture, 5, Some(2), None);
    assert!(matches!(
        kinds[..],
        [
            EventKind::Discarded {
                sequence: 2,
                reason: DiscardReason::ProducerReclaim
            },
            EventKind::Published {
                sequence: 5,
                allocation: None,
                marker: Err(DecodeError::Geometry)
            }
        ]
    ));
    assert_eq!(publication_records(&picture, 5, None, None).len(), 1);
    assert!(claim_records(None).is_empty());
    assert!(matches!(
        claim_records(Some(2))[..],
        [EventKind::Discarded {
            sequence: 2,
            reason: DiscardReason::ProducerReclaim
        }]
    ));
    assert!(matches!(
        selection_records(9, &vec![7])[..],
        [
            EventKind::Selected { sequence: 9 },
            EventKind::Discarded {
                sequence: 7,
                reason: DiscardReason::ConsumerSuperseded
            }
        ]
    ));
    assert!(matches!(
        closing_records(&vec![3, 4])[..],
        [
            EventKind::Discarded {
                sequence: 3,
                reason: DiscardReason::MappingClosed
            },
            EventKind::Discarded {
                sequence: 4,
                reason: DiscardReason::MappingClosed
            }
        ]
    ));
}

#[test]
fn a_frame_for_another_block_is_not_published() {
    let mut shared = Shared::new();
    let before = shared.storage.clone();
    let pace = timing(0.0, 0.0);
    let mut publish = |dimensions, pixels: &[u8], allocation| {
        shared
            .child
            .try_publish_fixture(&mut shared.storage, dimensions, pixels, pace, allocation)
            .err()
    };
    let wrong = FrameAllocation {
        id: 0,
        ..allocation(1)
    };
    assert_eq!(
        publish((1, 1, 8), &frame(0), Some(wrong)),
        Some(SharedError::Frame(FrameError::Dimensions))
    );
    assert_eq!(publish((2, 1, 8), &[0; 7], Some(wrong)), Some(SharedError::Pixels));
    assert_eq!(
        publish((2, 1, 8), &frame(0), Some(wrong)),
        Some(SharedError::Frame(FrameError::Allocation))
    );
    assert_eq!(shared.storage, before);
}

#[test]
fn private_shared_concurrent_reclaim_keeps_correlation_and_exact_dispositions() {
    let mut capture = Capture::new(64, [1; 32], 1).unwrap();
    let mut shared = Shared::new();
    // Neither the numbers nor the times are derived from the success of a publication.
    // Tokens and pixels also differ, so a mixed publication cannot pass.
    let allocations =
        [101, 205, 309, 413, 517, 621, 725, 829, 933, 1037, 1141].map(|id| FrameAllocation {
            token: id + 10,
            ..allocation(id)
        });
    let publish = |shared: &mut Shared, capture: &mut Capture, value: u8| {
        let pace = timing(f64::from(value), f64::from(value) / 100.0);
        let identity = (value != 10).then_some(allocations[usize::from(value - 1)]);
        let made = shared.publish(value, pace, identity);
        let picture = LogicalFrame::from_parts(2, 1, 8, frame(value));
        for kind in publication_records(&picture, made.sequence, made.discarded, identity) {
            capture.record_at(Some(u64::from(value)), kind);
        }
    };
    let note = |capture: &mut Capture, kinds: Vec<EventKind>| {
        for kind in kinds {
            capture.record_at(Some(100), kind);
        }
    };
    for value in 1..=3 {
        publish(&mut shared, &mut capture, value);
    }
    // The consumer chose slot 2 holding publication 3, but does not own it yet. Every
    // slot is reclaimed, the chosen one among them.
    let chosen = shared.owner.choose_newest(&shared.storage).unwrap();
    assert_eq!(chosen, 2);
    for value in 4..=6 {
        publish(&mut shared, &mut capture, value);
    }
    let selection = shared.owner.own(&mut shared.storage, chosen).unwrap();
    assert_eq!((selection.index, selection.sequence), (2, 6));
    assert!(shared.owner.own(&mut shared.storage, chosen).is_none());
    note(&mut capture, selection_records(selection.sequence, &vec![]));
    // The consumer now owns publication 6, before it copies anything. Both other slots
    // are reclaimed, then one again: the pinned publication stays intact and newer work
    // survives.
    for value in 7..=9 {
        publish(&mut shared, &mut capture, value);
    }
    let first = shared.owner.read(&shared.storage, selection).ok().unwrap();
    let superseded = shared.owner.release(&mut shared.storage, selection);
    note(&mut capture, superseded_records(&superseded));
    let second = shared.owner.take_newest(&mut shared.storage).ok().flatten().unwrap();
    note(&mut capture, selection_records(second.sequence, &second.discarded));
    // Publication 9 used slot 0, which held an allocation before. The ordinary
    // publication 10 reuses it and clears every word of it.
    publish(&mut shared, &mut capture, 10);
    let ordinary = shared.owner.take_newest(&mut shared.storage).ok().flatten().unwrap();
    note(&mut capture, selection_records(ordinary.sequence, &ordinary.discarded));
    for (completed, value, sequence) in
        [(first, 6, 6), (second.frame, 9, 9), (ordinary.frame, 10, 10)]
    {
        assert_eq!((completed.width, completed.height, completed.stride), (2, 1, 8));
        assert_eq!(completed.pixels, frame(value));
        assert_eq!(completed.timing, timing(f64::from(value), f64::from(value) / 100.0));
        assert_eq!(
            completed.fixture_correlation,
            (value != 10).then_some(FrameCorrelation {
                allocation: allocations[usize::from(value - 1)],
                sequence,
            })
        );
    }
    assert!(shared.owner.take_newest(&mut shared.storage).ok().flatten().is_none());
    // A publication that is still visible is closed by the owner alone, after the
    // producer is gone.
    publish(&mut shared, &mut capture, 11);
    note(&mut capture, closing_records(&shared.child.close(&shared.storage, false)));
    note(&mut capture, closing_records(&shared.owner.close(&shared.storage, true)));
    let report = capture.report();
    let published: Vec<_> = report
        .records
        .iter()
        .filter_map(|record| match record.kind {
            EventKind::Published {
                sequence,
                allocation,
                ..
            } => Some((sequence, allocation)),
            _ => None,
        })
        .collect();
    let expected: Vec<_> = allocations
        .iter()
        .enumerate()
        .map(|(index, allocation)| ((index + 1) as u64, (index != 9).then_some(*allocation)))
        .collect();
    assert_eq!(published, expected);
    let selected: Vec<_> = report
        .records
        .iter()
        .filter_map(|record| match record.kind {
            EventKind::Selected { sequence } => Some(sequence),
            _ => None,
        })
        .collect();
    assert_eq!(selected, vec![6, 9, 10]);
    let mut discarded: Vec<_> = report
        .records
        .iter()
        .filter_map(|record| match record.kind {
            EventKind::Discarded { sequence, reason } => Some((sequence, reason)),
            _ => None,
        })
        .collect();
    discarded.sort_by_key(|(sequence, _)| *sequence);
    assert_eq!(
        discarded,
        vec![
            (1, DiscardReason::ProducerReclaim),
            (2, DiscardReason::ProducerReclaim),
            (3, DiscardReason::ProducerReclaim),
            (4, DiscardReason::ProducerReclaim),
            (5, DiscardReason::ProducerReclaim),
            (7, DiscardReason::ProducerReclaim),
            (8, DiscardReason::ConsumerSuperseded),
            (11, DiscardReason::MappingClosed),
        ]
    );
    let mut disposed = selected;
    disposed.extend(discarded.iter().map(|(sequence, _)| *sequence));
    disposed.sort_unstable();
    assert_eq!(disposed, (1..=11).collect::<Vec<_>>());
    assert_eq!(report.counters.lost, 0);
}

#[test]
fn private_shared_blocked_publication_does_not_allocate_a_sequence() {
    let mut shared = Shared::new();
    for index in 0..3 {
        shared.storage[slot_offset(index)] = READING;
    }
    let blocked = shared.child.try_publish(
        &mut shared.storage,
        &frame(0),
        timing(0.0, 0.0),
        Some(allocation(45)),
    );
    assert!(matches!(blocked, Ok(None)));
    for index in 0..3 {
        shared.storage[slot_offset(index)] = FREE;
    }
    shared.publish(0, timing(0.0, 0.0), Some(allocation(45)));
    let taken = shared.owner.take_newest(&mut shared.storage).ok().flatten().unwrap();
    assert_eq!(
        taken.frame.fixture_correlation,
        Some(FrameCorrelation {
            allocation: allocation(45),
            sequence: 1
        })
    );
}

#[test]
fn private_shared_layout_and_sequence_exhaustion_fail_closed() {
    let mut shared = Shared::new();
    shared.storage[..8].copy_from_slice(b"SLVRFRM1");
    assert!(
        matches!(SharedFrameMap::open(&shared.storage), Err(SharedError::Magic)),
        "old metadata layout accepted"
    );
    shared.storage[..8].copy_from_slice(b"SLVRFRM2");
    shared.put(32, u64::MAX);
    let child = SharedFrameMap::open(&shared.storage).ok().unwrap();
    let exhausted = child.try_publish(
        &mut shared.storage,
        &frame(0),
        timing(0.0, 0.0),
        Some(allocation(1)),
    );
    assert!(matches!(exhausted, Err(SharedError::SequenceExhausted)));
    assert!(
        shared.owner.take_newest(&mut shared.storage).ok().flatten().is_none(),
        "exhaustion published wrapped sequence"
    );
}

#[test]
fn shared_mappings_exchange_complete_frames_between_broker_instances() {
    let (owner, mut storage) = SharedFrameMap::new_shared(2, 1, 8).ok().unwrap();
    let reader = SharedFrameMap::open(&storage).ok().unwrap();
    let made = owner.try_publish(&mut storage, &frame(7), timing(3.0, 0.5), None);
    assert!(matches!(made, Ok(Some(_))));
    let completed = reader.take_newest(&mut storage).ok().flatten().unwrap().frame;
    assert_eq!(completed.pixels, frame(7));
    assert_eq!(completed.timing.presentation_time, number(3.0));
}

#[test]
fn private_observed_opener_close_does_not_dispose_the_owners_ready_frame() {
    for consume in [false, true] {
        let mut shared = Shared::new();
        shared.publish(7, timing(0.0, 0.0), None);
        assert!(
            shared.child.close(&shared.storage, false).is_empty(),
            "worker unmapping is not global publication disposal"
        );
        if consume {
            let taken = shared.owner.take_newest(&mut shared.storage).ok().flatten().unwrap();
            assert_eq!(taken.frame.pixels, frame(7));
        }
        let closed = shared.owner.close(&shared.storage, true);
        assert_eq!(closed, if consume { vec![] } else { vec![1] });
    }
}

#[test]
fn a_block_is_refused_for_what_it_says() {
    let (_, storage) = SharedFrameMap::new_shared(2, 1, 8).ok().unwrap();
    let opened = |at: usize, bytes: &[u8]| {
        let mut storage = storage.clone();
        storage[at..at + bytes.len()].copy_from_slice(bytes);
        SharedFrameMap::open(&storage).err()
    };
    assert_eq!(opened(0, b""), None);
    assert_eq!(opened(0, b"X"), Some(SharedError::Magic));
    assert!(opened(8, &0_u32.to_le_bytes()).is_some());
    assert!(opened(16, &9_u32.to_le_bytes()).is_some());
    assert_eq!(
        SharedFrameMap::open(&storage[..100].to_vec()).err(),
        Some(SharedError::Truncated)
    );
    assert!(matches!(
        SharedFrameMap::new_shared(2, 1, 7),
        Err(SharedError::Frame(FrameError::Stride))
    ));
    let mut storage = storage;
    let map = SharedFrameMap::open(&storage).ok().unwrap();
    assert!(matches!(
        map.try_publish(&mut storage, &[0; 7], timing(0.0, 0.0), None),
        Err(SharedError::Pixels)
    ));
}

fn publish(slots: &mut FrameSlots, value: u8, pace: FrameTiming) -> Publication {
    slots
        .try_publish_fixture(2, 1, 8, &frame(value), pace, None)
        .ok()
        .flatten()
        .unwrap()
}

#[test]
fn private_publication_rejects_invalid_allocation_before_slot_claim() {
    let mut slots = FrameSlots::new(2, 1, 8).ok().unwrap();
    for invalid in [
        FrameAllocation {
            id: 0,
            ..allocation(1)
        },
        FrameAllocation {
            allocated_ns: 0,
            ..allocation(1)
        },
        FrameAllocation {
            id: u64::MAX,
            ..allocation(1)
        },
        FrameAllocation {
            token: u64::MAX,
            ..allocation(1)
        },
        FrameAllocation {
            allocated_ns: u64::MAX,
            ..allocation(1)
        },
    ] {
        assert!(matches!(
            slots.try_publish_fixture(2, 1, 8, &frame(0), timing(0.0, 0.0), Some(invalid)),
            Err(FrameError::Allocation)
        ));
    }
    assert!(slots.take_newest().ok().flatten().is_none());
    assert_eq!(publish(&mut slots, 1, timing(0.0, 0.0)).sequence, 1);
}

#[test]
fn broker_keeps_frames_published_after_selection_snapshot() {
    let mut slots = FrameSlots::new(2, 1, 8).ok().unwrap();
    for value in 1..=3 {
        let delta = if value == 1 { 0.0 } else { 1.0 };
        publish(&mut slots, value, timing(f64::from(value), delta));
    }
    let selection = slots.select().unwrap();
    let number = selection.sequence();
    publish(&mut slots, 4, timing(4.0, 1.0));
    for index in 0..3 {
        if slots.begin_reclaim(index) {
            slots.finish_reclaim(index, number);
        }
    }
    let first = slots.finish_read(&selection).ok().unwrap();
    assert_eq!(first.pixels, frame(3));
    let second = slots.take_newest().ok().flatten().expect("newer frame was dropped");
    assert_eq!(second.frame.pixels, frame(4));
}

#[test]
fn producer_can_retry_after_all_slots_held_by_broker_reclamation() {
    let mut slots = FrameSlots::new(2, 1, 8).ok().unwrap();
    publish(&mut slots, 1, timing(1.0, 0.0));
    publish(&mut slots, 2, timing(2.0, 1.0));
    let _held_writer = slots.begin_write().expect("third slot was unavailable");
    let selection = slots.select().unwrap();
    let held: Vec<usize> = (0..3).filter(|index| slots.begin_reclaim(*index)).collect();
    let blocked = slots.try_publish_fixture(2, 1, 8, &frame(3), timing(3.0, 1.0), None);
    assert!(matches!(blocked, Ok(None)));
    for index in held {
        slots.finish_reclaim(index, selection.sequence());
    }
    let selected = slots.finish_read(&selection).ok().unwrap();
    assert_eq!(selected.pixels, frame(2));
    publish(&mut slots, 3, timing(3.0, 1.0));
    let retried = slots.take_newest().ok().flatten().expect("retried frame was lost");
    assert_eq!(retried.frame.pixels, frame(3));
}

#[test]
fn broker_presents_the_newest_complete_frame_and_drops_older_ready_frames() {
    let mut slots = FrameSlots::new(2, 1, 8).ok().unwrap();
    for value in 1..=4 {
        let delta = if value == 1 { 0.0 } else { 1.0 };
        publish(&mut slots, value, timing(f64::from(value), delta));
    }
    let presented = slots.take_newest().ok().flatten().expect("complete frame was lost");
    assert_eq!(presented.frame.pixels, frame(4));
    assert_eq!(presented.frame.timing.presentation_time, number(4.0));
    assert_eq!(presented.sequence, 4);
    assert!(slots.take_newest().ok().flatten().is_none());
}

#[test]
fn dropped_writer_cannot_clear_a_successor_metadata() {
    let mut slots = FrameSlots::new(2, 1, 8).ok().unwrap();
    let claim = slots.begin_write().expect("first slot was unavailable");
    slots.abandon(claim.writer);
    publish(&mut slots, 9, timing(9.0, 0.0));
    let completed = slots.take_newest().ok().flatten().expect("successor frame was lost");
    assert_eq!(completed.frame.timing.presentation_time, number(9.0));
}

#[test]
fn incomplete_slot_is_invisible_while_another_slot_can_present() {
    let mut slots = FrameSlots::new(2, 1, 8).ok().unwrap();
    let partial = slots.begin_write().expect("first slot was unavailable").writer;
    assert!(slots.write_bytes(&partial, &[7, 7, 7, 7]).is_ok());
    assert!(slots.take_newest().ok().flatten().is_none());
    publish(&mut slots, 9, timing(2.0, 0.0));
    let complete = slots.take_newest().ok().flatten().expect("complete slot stalled");
    assert_eq!(complete.frame.pixels, frame(9));
    slots.abandon(partial);
}

#[test]
fn abandoned_producer_mid_write_leaves_incomplete_slot_ignored() {
    let mut slots = FrameSlots::new(2, 1, 8).ok().unwrap();
    // The producer disappears with its slot half written.
    let partial = slots.begin_write().expect("first slot was unavailable").writer;
    assert!(slots.write_bytes(&partial, &[3, 3, 3, 3]).is_ok());
    assert!(slots.take_newest().ok().flatten().is_none());
    publish(&mut slots, 5, timing(5.0, 0.0));
    let completed = slots.take_newest().ok().flatten().expect("broker stalled");
    assert_eq!(completed.frame.pixels, frame(5));
    assert_eq!(completed.frame.timing.presentation_time, number(5.0));
}

#[test]
fn every_publication_ends_once() {
    let mut slots = FrameSlots::new(2, 1, 8).ok().unwrap();
    let mut ended = Vec::new();
    for value in 1..=5 {
        ended.extend(publish(&mut slots, value, timing(0.0, 0.0)).discarded);
    }
    assert_eq!(ended, vec![1, 2]);
    let taken = slots.take_newest().ok().flatten().unwrap();
    ended.push(taken.sequence);
    ended.extend(taken.discarded);
    publish(&mut slots, 6, timing(0.0, 0.0));
    ended.extend(slots.close());
    ended.sort_unstable();
    assert_eq!(ended, vec![1, 2, 3, 4, 5, 6]);
}

#[test]
fn frames_of_another_shape_are_refused() {
    let mut slots = FrameSlots::new(2, 1, 8).ok().unwrap();
    let pace = timing(0.0, 0.0);
    assert!(matches!(
        slots.try_publish_fixture(2, 2, 8, &frame(0), pace, None),
        Err(FrameError::Dimensions)
    ));
    assert!(matches!(
        slots.try_publish_fixture(2, 1, 8, &[0; 7], pace, None),
        Err(FrameError::Pixels)
    ));
    let writer = slots.begin_write().unwrap().writer;
    assert_eq!(slots.write_complete(&writer, &[0; 7]), Err(FrameError::Pixels));
    for (width, height, stride, error) in [
        (0, 1, 8, FrameError::Width),
        (2, 0, 8, FrameError::Height),
        (2, 1, 7, FrameError::Stride),
        (2, usize::MAX, 8, FrameError::SlotSize),
    ] {
        assert_eq!(FrameSlots::new(width, height, stride).err(), Some(error));
    }
    assert_eq!(
        FrameTiming::new(number(f64::NAN), number(0.0)),
        Err(FrameError::PresentationTime)
    );
    assert_eq!(
        FrameTiming::new(number(0.0), number(-1.0)),
        Err(FrameError::Delta)
    );
    assert!(FrameTiming::new(number(-0.0), number(0.0)).is_ok());
}
