//! What stands in a record, field by field.
use vstd::prelude::*;

use crate::bytes::le_bytes;
use crate::events::{EventKind, FrameAllocation, ObservationKind, Sample, Summary, TimerDisposition};
use crate::hardware::{HardwareEvent, ModifierState, RealBits, TouchEvent};
use crate::marker::{DecodeError, Marker};
use crate::record_layout::{
    mode_code, phase_code, put_allocation, put_bytes, put_disposition, put_event, put_fixture,
    put_kind, put_marker, put_modifiers, put_optional, put_sample, put_summary, put_touch,
    put_u32, put_u64, put_u8, put_words, reason_code, resolution_code, span_kind_code,
    span_status_code, touch_phase_code,
};

verus! {

/// Eight bytes, the lowest first.
pub open spec fn word(v: u64) -> Seq<u8> {
    seq![
        (v % 0x100) as u8,
        (v / 0x100 % 0x100) as u8,
        (v / 0x1_0000 % 0x100) as u8,
        (v / 0x100_0000 % 0x100) as u8,
        (v / 0x1_0000_0000 % 0x100) as u8,
        (v / 0x100_0000_0000 % 0x100) as u8,
        (v / 0x1_0000_0000_0000 % 0x100) as u8,
        (v / 0x100_0000_0000_0000) as u8,
    ]
}

/// Four bytes, the lowest first.
pub open spec fn half(v: u32) -> Seq<u8> {
    seq![
        (v % 0x100) as u8,
        (v / 0x100 % 0x100) as u8,
        (v / 0x1_0000 % 0x100) as u8,
        (v / 0x100_0000) as u8,
    ]
}

/// One byte that is one for yes and zero for no.
pub open spec fn flag(v: bool) -> Seq<u8> {
    seq![if v { 1u8 } else { 0 }]
}

/// A flag, and the number behind it where there is one.
pub open spec fn optional(v: Option<RealBits>) -> Seq<u8> {
    match v {
        Some(value) => flag(true) + word(value.bits),
        None => flag(false),
    }
}

proof fn lemma_quotient(v: int, d: int)
    requires
        v >= 0,
        d > 0,
    ensures
        v / d / 0x100 == v / (d * 0x100),
{
    vstd::arithmetic::div_mod::lemma_div_denominator(v, d, 0x100);
}

proof fn lemma_step(v: nat, width: nat, next: nat)
    requires
        width > 0,
        v / 0x100 == next,
    ensures
        le_bytes(v, width) == seq![(v % 0x100) as u8] + le_bytes(next, (width - 1) as nat),
        width == 1 ==> le_bytes(v, width) == seq![(v % 0x100) as u8],
{
    reveal_with_fuel(le_bytes, 2);
    assert(seq![(v % 0x100) as u8] + Seq::<u8>::empty() =~= seq![(v % 0x100) as u8]);
}

/// Numbers are written with their lowest byte first.
pub proof fn law_numbers_are_written_from_their_lowest_byte(v: u64, w: u32)
    ensures
        le_bytes(v as nat, 8) == word(v),
        le_bytes(w as nat, 4) == half(w),
{
    let n = v as nat;
    lemma_step(n, 8, n / 0x100);
    lemma_quotient(v as int, 0x100);
    lemma_step(n / 0x100, 7, n / 0x1_0000);
    lemma_quotient(v as int, 0x1_0000);
    lemma_step(n / 0x1_0000, 6, n / 0x100_0000);
    lemma_quotient(v as int, 0x100_0000);
    lemma_step(n / 0x100_0000, 5, n / 0x1_0000_0000);
    lemma_quotient(v as int, 0x1_0000_0000);
    lemma_step(n / 0x1_0000_0000, 4, n / 0x100_0000_0000);
    lemma_quotient(v as int, 0x100_0000_0000);
    lemma_step(n / 0x100_0000_0000, 3, n / 0x1_0000_0000_0000);
    lemma_quotient(v as int, 0x1_0000_0000_0000);
    lemma_step(n / 0x1_0000_0000_0000, 2, n / 0x100_0000_0000_0000);
    lemma_step(n / 0x100_0000_0000_0000, 1, 0);
    assert(le_bytes(n, 8) =~= word(v));
    let m = w as nat;
    lemma_step(m, 4, m / 0x100);
    lemma_quotient(w as int, 0x100);
    lemma_step(m / 0x100, 3, m / 0x1_0000);
    lemma_quotient(w as int, 0x1_0000);
    lemma_step(m / 0x1_0000, 2, m / 0x100_0000);
    lemma_step(m / 0x100_0000, 1, 0);
    assert(le_bytes(m, 4) =~= half(w));
}

proof fn lemma_fields(v: u64, w: u32, b: u8, rest: Seq<u8>)
    ensures
        put_u64(v, rest) == word(v) + rest,
        put_u32(w, rest) == half(w) + rest,
        put_u8(b, rest) == seq![b] + rest,
{
    reveal(put_u64);
    reveal(put_u32);
    reveal(put_u8);
    law_numbers_are_written_from_their_lowest_byte(v, w);
}

/// The words of a record stand in their order.
pub proof fn law_words_stand_in_their_order(v: Seq<u64>, rest: Seq<u8>)
    ensures
        v.len() == 0 ==> put_words(v, rest) == rest,
        v.len() > 0 ==> put_words(v, rest) == word(v[0]) + put_words(v.skip(1), rest),
{
    if v.len() > 0 {
        lemma_fields(v[0], 0, 0, put_words(v.drop_first(), rest));
        assert(v.skip(1) =~= v.drop_first());
    }
}

/// The modifiers of a contact are eight flags, the left of each pair first.
pub proof fn law_modifiers_are_eight_flags(m: ModifierState, rest: Seq<u8>)
    ensures
        put_modifiers(m, 0, rest) == flag(m.left_ctrl) + (flag(m.right_ctrl) + (flag(m.left_alt) + (
        flag(m.right_alt) + (flag(m.left_shift) + (flag(m.right_shift) + (flag(m.left_super) + (flag(
            m.right_super,
        ) + rest))))))),
{
    reveal(put_u8);
    reveal_with_fuel(put_modifiers, 9);
}

/// An allocation is a flag, and behind it its number, its token and its time. A marker is
/// its letters behind a zero, or says why there is none.
pub proof fn law_allocations_and_markers_are_laid_out_in_order(
    allocation: Option<FrameAllocation>,
    marker: Result<Marker, DecodeError>,
    rest: Seq<u8>,
)
    ensures
        put_allocation(allocation, rest) == (match allocation {
            Some(a) => flag(true) + (word(a.id) + (word(a.token) + (word(a.allocated_ns) + rest))),
            None => flag(false) + rest,
        }),
        put_marker(marker, rest) == (match marker {
            Ok(m) => seq![0u8] + (m@ + rest),
            Err(DecodeError::Geometry) => seq![1u8] + rest,
            Err(DecodeError::Cell) => seq![2u8] + rest,
            Err(DecodeError::Packet) => seq![3u8] + rest,
        }),
{
    reveal(put_allocation);
    reveal(put_marker);
    reveal(put_bytes);
    assert forall|v: u64, r: Seq<u8>| #[trigger] put_u64(v, r) == word(v) + r by {
        lemma_fields(v, 0, 0, r);
    }
    reveal(put_u8);
}

/// A contact in a record is its phase, its number, its time, its place, the modifiers, and
/// what was measured of it.
pub proof fn law_a_contact_is_laid_out_in_order(v: TouchEvent, rest: Seq<u8>)
    ensures
        put_touch(v, rest) == seq![touch_phase_code(v.phase)] + (half(v.id) + (word(v.time.bits) + (
        word(v.x.bits) + (word(v.y.bits) + put_modifiers(
            v.modifiers,
            0,
            optional(v.pressure) + (optional(v.width) + (optional(v.height) + rest)),
        ))))),
{
    reveal(put_touch);
    assert forall|w: u64, r: Seq<u8>| #[trigger] put_u64(w, r) == word(w) + r by {
        lemma_fields(w, 0, 0, r);
    }
    assert forall|w: u32, r: Seq<u8>| #[trigger] put_u32(w, r) == half(w) + r by {
        lemma_fields(0, w, 0, r);
    }
    assert forall|w: Option<RealBits>, r: Seq<u8>| #[trigger]
        put_optional(w, r) == optional(w) + r by {
        reveal(put_optional);
        reveal(put_u8);
        assert(put_optional(w, r) =~= optional(w) + r);
    }
    reveal(put_u8);
}

/// An event in a record is its tag and what it says.
pub proof fn law_an_event_is_laid_out_in_order(v: HardwareEvent, rest: Seq<u8>)
    ensures
        put_event(v, rest) == (match v {
            HardwareEvent::Touch(touch) => seq![0u8] + put_touch(touch, rest),
            HardwareEvent::Fn { active } => seq![1u8] + (flag(active) + rest),
            HardwareEvent::Modifier { modifier, active } => seq![2u8] + (seq![
                modifier.position() as u8,
            ] + (flag(active) + rest)),
            HardwareEvent::Device { present } => seq![3u8] + (flag(present) + rest),
            HardwareEvent::Capability { capability, present } => seq![4u8] + (seq![
                capability.code(),
            ] + (flag(present) + rest)),
            HardwareEvent::Visibility { visible } => seq![5u8] + (flag(visible) + rest),
        }),
{
    reveal(put_event);
    reveal(put_u8);
}

/// How a timer ended is a tag, and for one that goes on its next deadline, how far it
/// advanced, how much it skipped, and whether it fell back.
pub proof fn law_a_disposition_is_laid_out_in_order(v: TimerDisposition, rest: Seq<u8>)
    ensures
        put_disposition(v, rest) == (match v {
            TimerDisposition::Completed => seq![0u8] + rest,
            TimerDisposition::Cancelled => seq![1u8] + rest,
            TimerDisposition::Rescheduled {
                next_deadline_seconds,
                intervals_advanced,
                skipped_intervals,
                fallback,
            } => seq![2u8] + (word(next_deadline_seconds.bits) + (word(intervals_advanced.bits) + (
            word(skipped_intervals.bits) + (flag(fallback) + rest)))),
        }),
{
    reveal(put_disposition);
    assert forall|w: u64, r: Seq<u8>| #[trigger] put_u64(w, r) == word(w) + r by {
        lemma_fields(w, 0, 0, r);
    }
    reveal(put_u8);
}

/// A span in a record is its place, its number, its kind, its two times, whether it bears a
/// frame, and how it ended.
pub proof fn law_a_span_is_laid_out_in_order(v: Sample, rest: Seq<u8>)
    ensures
        put_sample(v, rest) == word(v.sequence) + (word(v.span_id) + (seq![span_kind_code(v.kind)]
            + (word(v.start_ns) + (word(v.end_ns) + (flag(v.frame_bearing) + (seq![
            span_status_code(v.status),
        ] + rest)))))),
{
    reveal(put_sample);
    assert forall|w: u64, r: Seq<u8>| #[trigger] put_u64(w, r) == word(w) + r by {
        lemma_fields(w, 0, 0, r);
    }
    reveal(put_u8);
}

/// A summary in a record is its counters, the time of closing where there is one, the clock,
/// and the samples of it.
pub proof fn law_a_summary_is_laid_out_in_order(v: Summary, rest: Seq<u8>)
    ensures
        put_summary(v, rest) == word(v.capacity) + (word(v.started_spans) + (word(
            v.completed_spans,
        ) + (word(v.open_spans) + (word(v.failed_spans) + (word(v.lost) + (word(v.after_close) + (
        word(v.clock_failures) + ({
            let clock = word(v.clock_resolution_ns) + (word(v.record_bytes) + put_words(
                v.clock_read_samples_ns@,
                rest,
            ));
            match v.closed_at_ns {
                Some(at) => flag(true) + (word(at) + clock),
                None => flag(false) + clock,
            }
        })))))))),
{
    reveal(put_summary);
    assert forall|w: u64, r: Seq<u8>| #[trigger] put_u64(w, r) == word(w) + r by {
        lemma_fields(w, 0, 0, r);
    }
    reveal(put_u8);
}

/// What a fixture observed is a tag and its fields in their order.
pub proof fn law_what_a_fixture_observed_is_laid_out_in_order(v: ObservationKind, rest: Seq<u8>)
    ensures
        put_fixture(v, rest) == (match v {
            ObservationKind::Phase(phase) => seq![0u8] + (seq![phase_code(phase)] + rest),
            ObservationKind::Allocated { frame_id, token } => seq![1u8] + (word(frame_id) + (word(
                token,
            ) + rest)),
            ObservationKind::Suppressed => seq![2u8] + rest,
            ObservationKind::Resolved { frame_id, resolution, resolved_ns } => seq![3u8] + (word(
                frame_id,
            ) + (seq![resolution_code(resolution)] + (word(resolved_ns) + rest))),
            ObservationKind::WarmupClosed => seq![4u8] + rest,
            ObservationKind::PeriodicRetired { timer_id } => seq![5u8] + (word(timer_id) + rest),
            ObservationKind::ReceiptSupplied { receipt_sequence, received_ns, contact, phase } =>
            seq![6u8] + (word(receipt_sequence) + (word(received_ns) + (half(contact) + (seq![
                touch_phase_code(phase),
            ] + rest)))),
            ObservationKind::Delivered { receipt_sequence } => seq![7u8] + (word(receipt_sequence)
                + rest),
            ObservationKind::TokenMutated { receipt_sequence, previous, token } => seq![8u8] + (word(
                receipt_sequence,
            ) + (word(previous) + (word(token) + rest))),
            ObservationKind::ResponseConfirmed {
                receipt_sequence,
                frame_id,
                token,
                responded_ns,
            } => seq![9u8] + (word(receipt_sequence) + (word(frame_id) + (word(token) + (word(
                responded_ns,
            ) + rest)))),
            ObservationKind::Failed => seq![10u8] + rest,
            ObservationKind::Closed => seq![11u8] + rest,
        }),
{
    reveal(put_fixture);
    assert forall|w: u64, r: Seq<u8>| #[trigger] put_u64(w, r) == word(w) + r by {
        lemma_fields(w, 0, 0, r);
    }
    assert forall|w: u32, r: Seq<u8>| #[trigger] put_u32(w, r) == half(w) + r by {
        lemma_fields(0, w, 0, r);
    }
    reveal(put_u8);
}

/// What was seen of a frame is a tag and its fields in their order.
pub proof fn law_what_was_seen_of_a_frame_is_laid_out_in_order(v: EventKind, rest: Seq<u8>)
    ensures
        match v {
            EventKind::RenderAllocated { attempt } => put_kind(v, rest) == seq![1u8] + (word(
                attempt,
            ) + rest),
            EventKind::RenderFinished { attempt, marker: Some(marker) } => put_kind(v, rest)
                == seq![2u8] + (word(attempt) + (flag(true) + put_marker(marker, rest))),
            EventKind::RenderFinished { attempt, marker: None } => put_kind(v, rest) == seq![2u8]
                + (word(attempt) + (flag(false) + rest)),
            EventKind::Published { sequence, allocation, marker } => put_kind(v, rest) == seq![3u8]
                + (word(sequence) + put_allocation(allocation, put_marker(marker, rest))),
            EventKind::Selected { sequence } => put_kind(v, rest) == seq![4u8] + (word(sequence)
                + rest),
            EventKind::Discarded { sequence, reason } => put_kind(v, rest) == seq![5u8] + (word(
                sequence,
            ) + (seq![reason_code(reason)] + rest)),
            EventKind::PendingDiscarded { allocation, marker } => put_kind(v, rest) == seq![6u8]
                + put_allocation(allocation, put_marker(marker, rest)),
            EventKind::PresentEntered { call, marker } => put_kind(v, rest) == seq![7u8] + (word(
                call,
            ) + put_marker(marker, rest)),
            EventKind::PresentReturned { call, success } => put_kind(v, rest) == seq![8u8] + (word(
                call,
            ) + (flag(success) + rest)),
            _ => true,
        },
{
    assert forall|w: u64, r: Seq<u8>| #[trigger] put_u64(w, r) == word(w) + r by {
        lemma_fields(w, 0, 0, r);
    }
    reveal(put_u8);
}

/// What was seen of input and of timers is a tag and its fields in their order.
pub proof fn law_what_was_seen_of_input_and_timers_is_laid_out_in_order(
    v: EventKind,
    rest: Seq<u8>,
)
    ensures
        match v {
            EventKind::InputReceived(value) => put_kind(v, rest) == seq![9u8] + put_event(
                value,
                rest,
            ),
            EventKind::PollFailed => put_kind(v, rest) == seq![10u8] + rest,
            EventKind::TouchCallbackEntered(value) => put_kind(v, rest) == seq![11u8] + put_touch(
                value,
                rest,
            ),
            EventKind::TouchCallbackReturned { contact, success } => put_kind(v, rest)
                == seq![12u8] + (half(contact) + (flag(success) + rest)),
            EventKind::TimerRegistered {
                timer_id,
                delay_seconds,
                interval_seconds,
                scheduler_now_seconds,
            } => put_kind(v, rest) == seq![13u8] + (word(timer_id) + (word(delay_seconds.bits) + (
            optional(interval_seconds) + (optional(scheduler_now_seconds) + rest)))),
            EventKind::TimerActivated { timer_id, scheduler_now_seconds, deadline_seconds } =>
            put_kind(v, rest) == seq![14u8] + (word(timer_id) + (word(scheduler_now_seconds.bits)
                + (word(deadline_seconds.bits) + rest))),
            EventKind::TimerCancelled { timer_id, removed } => put_kind(v, rest) == seq![15u8] + (
            word(timer_id) + (flag(removed) + rest)),
            EventKind::TimerDeadlineShifted {
                timer_id,
                previous_deadline_seconds,
                shift_seconds,
                deadline_seconds,
            } => put_kind(v, rest) == seq![16u8] + (word(timer_id) + (word(
                previous_deadline_seconds.bits,
            ) + (word(shift_seconds.bits) + (word(deadline_seconds.bits) + rest)))),
            EventKind::TimerDispatched {
                timer_id,
                scheduled_deadline_seconds,
                scheduler_now_seconds,
            } => put_kind(v, rest) == seq![17u8] + (word(timer_id) + (word(
                scheduled_deadline_seconds.bits,
            ) + (word(scheduler_now_seconds.bits) + rest))),
            EventKind::TimerFinished { timer_id, success, scheduler_now_seconds, disposition } =>
            put_kind(v, rest) == seq![18u8] + (word(timer_id) + (flag(success) + (word(
                scheduler_now_seconds.bits,
            ) + put_disposition(disposition, rest)))),
            _ => true,
        },
{
    assert forall|w: u64, r: Seq<u8>| #[trigger] put_u64(w, r) == word(w) + r by {
        lemma_fields(w, 0, 0, r);
    }
    assert forall|w: u32, r: Seq<u8>| #[trigger] put_u32(w, r) == half(w) + r by {
        lemma_fields(0, w, 0, r);
    }
    assert forall|w: Option<RealBits>, r: Seq<u8>| #[trigger]
        put_optional(w, r) == optional(w) + r by {
        reveal(put_optional);
        reveal(put_u8);
        assert(put_optional(w, r) =~= optional(w) + r);
    }
    reveal(put_u8);
}

/// What was seen of workers, of the broker and of a fixture is a tag and its fields in their
/// order.
pub proof fn law_what_was_seen_of_a_run_is_laid_out_in_order(v: EventKind, rest: Seq<u8>)
    ensures
        match v {
            EventKind::RedrawRequested { coalesced } => put_kind(v, rest) == seq![19u8] + (flag(
                coalesced,
            ) + rest),
            EventKind::WorkerLoadFailed => put_kind(v, rest) == seq![20u8] + rest,
            EventKind::WorkerLoopFailed => put_kind(v, rest) == seq![21u8] + rest,
            EventKind::MinimalSpan(value) => put_kind(v, rest) == seq![22u8] + put_sample(
                value,
                rest,
            ),
            EventKind::MinimalSummary(value) => put_kind(v, rest) == seq![23u8] + put_summary(
                value,
                rest,
            ),
            EventKind::WorkerCommandFailed => put_kind(v, rest) == seq![24u8] + rest,
            EventKind::WorkerRunFailed => put_kind(v, rest) == seq![25u8] + rest,
            EventKind::WorkerCaptureConfigured { detailed } => put_kind(v, rest) == seq![26u8] + (
            flag(detailed) + rest),
            EventKind::MinimalCalibration { cost_ns } => put_kind(v, rest) == seq![27u8]
                + put_words(cost_ns@, rest),
            EventKind::BrokerConfigured { mode, start_ns, rate, causal } => put_kind(v, rest)
                == seq![28u8] + (seq![mode_code(mode)] + (word(start_ns) + (half(rate) + (flag(
                causal,
            ) + rest)))),
            EventKind::BrokerOperation { operation, success } => put_kind(v, rest) == seq![29u8] + (
            seq![operation.code()] + (flag(success) + rest)),
            EventKind::FixtureObserved { synthetic, decision_ns, kind } => put_kind(v, rest)
                == seq![32u8] + (flag(synthetic) + (word(decision_ns) + put_fixture(kind, rest))),
            _ => true,
        },
{
    assert forall|w: u64, r: Seq<u8>| #[trigger] put_u64(w, r) == word(w) + r by {
        lemma_fields(w, 0, 0, r);
    }
    assert forall|w: u32, r: Seq<u8>| #[trigger] put_u32(w, r) == half(w) + r by {
        lemma_fields(0, w, 0, r);
    }
    reveal(put_u8);
}

} // verus!
