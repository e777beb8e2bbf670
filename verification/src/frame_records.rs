//! What is written down of the frames that pass through the slots: every publication,
//! every selection, and every publication that is given up.
use vstd::prelude::*;

use crate::events::{DiscardReason, EventKind, FrameAllocation};
use crate::hardware::LogicalFrame;
use crate::marker::{decode, DecodeError, Marker};
use crate::observer::marker_result;

verus! {

/// The record of a publication that was given up.
pub open spec fn given_up(sequence: u64, reason: DiscardReason) -> EventKind {
    EventKind::Discarded { sequence, reason }
}

/// The records of publications that were given up for the same reason.
pub open spec fn all_given_up(numbers: Seq<u64>, reason: DiscardReason) -> Seq<EventKind> {
    numbers.map_values(|n: u64| given_up(n, reason))
}

/// The records of a claim: the publication that was given up for it, where there is one.
pub open spec fn claim_kinds(discarded: Option<u64>) -> Seq<EventKind> {
    match discarded {
        Some(n) => seq![given_up(n, DiscardReason::ProducerReclaim)],
        None => Seq::empty(),
    }
}

/// The records of a publication: the one that was given up for it comes first.
pub open spec fn publication_kinds(
    sequence: u64,
    discarded: Option<u64>,
    allocation: Option<FrameAllocation>,
    marker: Result<Marker, DecodeError>,
) -> Seq<EventKind> {
    claim_kinds(discarded).push(EventKind::Published { sequence, allocation, marker })
}

/// The records of a frame that was taken: its selection, then the older ones that were
/// given up for it.
pub open spec fn selection_kinds(sequence: u64, discarded: Seq<u64>) -> Seq<EventKind> {
    seq![EventKind::Selected { sequence }] + all_given_up(
        discarded,
        DiscardReason::ConsumerSuperseded,
    )
}

fn push_given_up(kinds: &mut Vec<EventKind>, numbers: &Vec<u64>, reason: DiscardReason)
    ensures
        final(kinds)@ == old(kinds)@ + all_given_up(numbers@, reason),
{
    let ghost before = kinds@;
    let mut i: usize = 0;
    while i < numbers.len()
        invariant
            i <= numbers@.len(),
            kinds@ == before + all_given_up(numbers@, reason).take(i as int),
        decreases numbers@.len() - i,
    {
        kinds.push(EventKind::Discarded { sequence: numbers[i], reason });
        i += 1;
        assert(kinds@ =~= before + all_given_up(numbers@, reason).take(i as int));
    }
    assert(all_given_up(numbers@, reason).take(i as int) =~= all_given_up(numbers@, reason));
}

/// What is written down of a slot that was claimed.
pub fn claim_records(discarded: Option<u64>) -> (kinds: Vec<EventKind>)
    ensures
        kinds@ == claim_kinds(discarded),
{
    let mut kinds: Vec<EventKind> = Vec::new();
    if let Some(n) = discarded {
        kinds.push(EventKind::Discarded { sequence: n, reason: DiscardReason::ProducerReclaim });
    }
    assert(kinds@ =~= claim_kinds(discarded));
    kinds
}

/// What is written down of a publication. The marker is read from the picture.
pub fn publication_records(
    frame: &LogicalFrame,
    sequence: u64,
    discarded: Option<u64>,
    allocation: Option<FrameAllocation>,
) -> (kinds: Vec<EventKind>)
    ensures
        exists|marker: Result<Marker, DecodeError>| #[trigger]
            marker_result(*frame, marker) && kinds@ == publication_kinds(
                sequence,
                discarded,
                allocation,
                marker,
            ),
{
    let marker: Result<Marker, DecodeError> = decode(frame);
    let mut kinds: Vec<EventKind> = claim_records(discarded);
    kinds.push(EventKind::Published { sequence, allocation, marker });
    assert(marker_result(*frame, marker));
    assert(kinds@ =~= publication_kinds(sequence, discarded, allocation, marker));
    kinds
}

/// What is written down of the older frames that were given up for one that was taken.
pub fn superseded_records(discarded: &Vec<u64>) -> (kinds: Vec<EventKind>)
    ensures
        kinds@ == all_given_up(discarded@, DiscardReason::ConsumerSuperseded),
{
    let mut kinds: Vec<EventKind> = Vec::new();
    push_given_up(&mut kinds, discarded, DiscardReason::ConsumerSuperseded);
    assert(kinds@ =~= all_given_up(discarded@, DiscardReason::ConsumerSuperseded));
    kinds
}

/// What is written down of a frame that was taken.
pub fn selection_records(sequence: u64, discarded: &Vec<u64>) -> (kinds: Vec<EventKind>)
    ensures
        kinds@ == selection_kinds(sequence, discarded@),
{
    let mut kinds: Vec<EventKind> = Vec::new();
    kinds.push(EventKind::Selected { sequence });
    push_given_up(&mut kinds, discarded, DiscardReason::ConsumerSuperseded);
    assert(kinds@ =~= selection_kinds(sequence, discarded@));
    kinds
}

/// What is written down when the slots are closed: the publications that nobody took.
pub fn closing_records(numbers: &Vec<u64>) -> (kinds: Vec<EventKind>)
    ensures
        kinds@ == all_given_up(numbers@, DiscardReason::MappingClosed),
{
    let mut kinds: Vec<EventKind> = Vec::new();
    push_given_up(&mut kinds, numbers, DiscardReason::MappingClosed);
    assert(kinds@ =~= all_given_up(numbers@, DiscardReason::MappingClosed));
    kinds
}

} // verus!
