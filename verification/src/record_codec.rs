//! Raw records as fixed blocks of 512 bytes: writing and reading them.
use vstd::prelude::*;

use crate::bytes::{
    append_slice, copy_range, get_le, le_bytes, le_value, lemma_array_of, lemma_le_bytes_len,
    lemma_pow256_values, put_le,
};
use crate::events::{
    DiscardReason, EventKind, FrameAllocation, Mode, ObservationKind, Operation, Phase, Record,
    Resolution, Sample, SpanKind, SpanStatus, Summary, TimerDisposition, MAX_SIGNED,
};
use crate::hardware::{
    modifier_at, HardwareCapability, HardwareEvent, Modifier, ModifierState, RealBits, TouchEvent,
    TouchPhase,
};
use crate::marker::{decode_packet, lemma_marker_of, valid_packet, DecodeError, Marker};
use crate::record_layout::{
    allocation_error, block_record, carried_allocation, encodable, group_put,
    law_block_denotes_its_record, law_block_is_canonical, lemma_operation_of, lemma_put_kind,
    mode_code, phase_code, put_allocation, put_bool, put_bytes, put_disposition, put_event,
    put_fixture, put_kind, put_marker, put_modifiers, put_optional, put_optional_u64, put_real,
    put_record, put_sample, put_summary, put_touch, put_u32, put_u64, put_u8, put_words, reason_code,
    record_block, resolution_code, span_kind_code, span_status_code, take_allocation, take_bool,
    take_bytes, take_disposition, take_event, take_fixture, take_kind, take_marker, take_mode,
    take_modifiers, take_optional, take_optional_u64, take_phase, take_real, take_reason,
    take_resolution, take_sample, take_span_kind, take_span_status, take_summary, take_touch,
    take_touch_phase, take_u32, take_u64, take_u8, take_words, touch_phase_code, zeros_from, Parsed,
    RecordError, RECORD_BYTES,
};

verus! {

/// How reading one value off the front of a byte string turned out.
pub open spec fn outcome<T>(r: Result<T, RecordError>, p: Parsed<T>, rest: Seq<u8>) -> bool {
    match r {
        Ok(v) => p == Ok::<(T, Seq<u8>), RecordError>((v, rest)),
        Err(e) => p == Err::<(T, Seq<u8>), RecordError>(e),
    }
}

fn phase_byte(v: Phase) -> (b: u8)
    ensures
        b == phase_code(v),
{
    match v {
        Phase::Warmup => 0,
        Phase::Quiescing => 1,
        Phase::Armed => 2,
        Phase::Measured => 3,
        Phase::Drain => 4,
        Phase::Ended => 5,
    }
}

fn resolution_byte(v: Resolution) -> (b: u8)
    ensures
        b == resolution_code(v),
{
    match v {
        Resolution::Presented => 0,
        Resolution::Discarded => 1,
        Resolution::Failed => 2,
    }
}

fn touch_phase_byte(v: TouchPhase) -> (b: u8)
    ensures
        b == touch_phase_code(v),
{
    match v {
        TouchPhase::Down => 0,
        TouchPhase::Move => 1,
        TouchPhase::Up => 2,
        TouchPhase::Cancel => 3,
    }
}

fn reason_byte(v: DiscardReason) -> (b: u8)
    ensures
        b == reason_code(v),
{
    match v {
        DiscardReason::ProducerReclaim => 0,
        DiscardReason::ConsumerSuperseded => 1,
        DiscardReason::MappingClosed => 2,
    }
}

fn span_kind_byte(v: SpanKind) -> (b: u8)
    ensures
        b == span_kind_code(v),
{
    match v {
        SpanKind::RenderCallback => 0,
        SpanKind::Present => 1,
        SpanKind::SupervisorDrive => 2,
        SpanKind::Calibration => 3,
    }
}

fn span_status_byte(v: SpanStatus) -> (b: u8)
    ensures
        b == span_status_code(v),
{
    match v {
        SpanStatus::Succeeded => 0,
        SpanStatus::Failed => 1,
        SpanStatus::Abandoned => 2,
    }
}

fn mode_byte(v: Mode) -> (b: u8)
    ensures
        b == mode_code(v),
{
    match v {
        Mode::A => 0,
        Mode::B => 1,
        Mode::C => 2,
    }
}

/// Appends the fields of one record.
pub struct Encoder {
    bytes: Vec<u8>,
}

impl View for Encoder {
    type V = Seq<u8>;

    closed spec fn view(&self) -> Seq<u8> {
        self.bytes@
    }
}

impl Encoder {
    /// Nothing written yet.
    pub fn new() -> (e: Encoder)
        ensures
            e@ == Seq::<u8>::empty(),
    {
        Encoder { bytes: Vec::new() }
    }

    pub fn u8(&mut self, v: u8)
        ensures
            forall|t: Seq<u8>|
                #![trigger put_u8(v, t)]
                old(self)@ + put_u8(v, t) == final(self)@ + t,
    {
        let ghost before = self@;
        self.bytes.push(v);
        assert forall|t: Seq<u8>| before + #[trigger] put_u8(v, t) == self@ + t by {
            reveal(put_u8);
            assert(before + (seq![v] + t) =~= self@ + t);
        }
    }

    pub fn u32(&mut self, v: u32)
        ensures
            forall|t: Seq<u8>|
                #![trigger put_u32(v, t)]
                old(self)@ + put_u32(v, t) == final(self)@ + t,
    {
        let ghost before = self@;
        put_le(&mut self.bytes, v as u64, 4);
        assert forall|t: Seq<u8>| before + #[trigger] put_u32(v, t) == self@ + t by {
            reveal(put_u32);
            assert(before + (le_bytes(v as nat, 4) + t) =~= self@ + t);
        }
    }

    pub fn u64(&mut self, v: u64)
        ensures
            forall|t: Seq<u8>|
                #![trigger put_u64(v, t)]
                old(self)@ + put_u64(v, t) == final(self)@ + t,
    {
        let ghost before = self@;
        put_le(&mut self.bytes, v, 8);
        assert forall|t: Seq<u8>| before + #[trigger] put_u64(v, t) == self@ + t by {
            reveal(put_u64);
            assert(before + (le_bytes(v as nat, 8) + t) =~= self@ + t);
        }
    }

    pub fn bytes(&mut self, v: &[u8])
        ensures
            forall|t: Seq<u8>|
                #![trigger put_bytes(v@, t)]
                old(self)@ + put_bytes(v@, t) == final(self)@ + t,
    {
        let ghost before = self@;
        append_slice(&mut self.bytes, v);
        assert forall|t: Seq<u8>| before + #[trigger] put_bytes(v@, t) == self@ + t by {
            reveal(put_bytes);
            assert(before + (v@ + t) =~= self@ + t);
        }
    }

    pub fn boolean(&mut self, v: bool)
        ensures
            forall|t: Seq<u8>|
                #![trigger put_bool(v, t)]
                old(self)@ + put_bool(v, t) == final(self)@ + t,
    {
        self.u8(
            if v {
                1
            } else {
                0
            },
        );
    }

    pub fn number(&mut self, v: RealBits)
        ensures
            forall|t: Seq<u8>|
                #![trigger put_real(v, t)]
                old(self)@ + put_real(v, t) == final(self)@ + t,
    {
        self.u64(v.bits);
    }

    pub fn optional(&mut self, v: Option<RealBits>)
        ensures
            forall|t: Seq<u8>|
                #![trigger put_optional(v, t)]
                old(self)@ + put_optional(v, t) == final(self)@ + t,
    {
        proof {
            reveal(put_optional);
        }
        match v {
            Some(value) => {
                self.boolean(true);
                self.number(value);
            },
            None => self.boolean(false),
        }
    }

    pub fn optional_u64(&mut self, v: Option<u64>)
        ensures
            forall|t: Seq<u8>|
                #![trigger put_optional_u64(v, t)]
                old(self)@ + put_optional_u64(v, t) == final(self)@ + t,
    {
        match v {
            Some(value) => {
                self.boolean(true);
                self.u64(value);
            },
            None => self.boolean(false),
        }
    }

    /// Writes an allocation, unless one of its numbers is out of range.
    pub fn allocation(&mut self, v: Option<FrameAllocation>) -> (r: Result<(), RecordError>)
        ensures
            match r {
                Ok(_) => (v matches Some(a) ==> a.valid()) && forall|t: Seq<u8>|
                    #![trigger put_allocation(v, t)]
                    old(self)@ + put_allocation(v, t) == final(self)@ + t,
                Err(e) => (v matches Some(a) && allocation_error(a) == Some(e)),
            },
    {
        proof {
            reveal(put_allocation);
        }
        match v {
            Some(a) => {
                validate_allocation(a)?;
                self.boolean(true);
                self.u64(a.id);
                self.u64(a.token);
                self.u64(a.allocated_ns);
            },
            None => self.boolean(false),
        }
        Ok(())
    }

    pub fn marker(&mut self, v: &Result<Marker, DecodeError>)
        ensures
            (*v matches Ok(m) ==> valid_packet(m@)),
            forall|t: Seq<u8>|
                #![trigger put_marker(*v, t)]
                old(self)@ + put_marker(*v, t) == final(self)@ + t,
    {
        proof {
            reveal(put_marker);
        }
        match v {
            Ok(marker) => {
                self.u8(0);
                self.bytes(marker.bytes().as_slice());
            },
            Err(DecodeError::Geometry) => self.u8(1),
            Err(DecodeError::Cell) => self.u8(2),
            Err(DecodeError::Packet) => self.u8(3),
        }
    }

    pub fn fixture(&mut self, v: &ObservationKind)
        ensures
            forall|t: Seq<u8>|
                #![trigger put_fixture(*v, t)]
                old(self)@ + put_fixture(*v, t) == final(self)@ + t,
    {
        proof {
            reveal(put_fixture);
        }
        match *v {
            ObservationKind::Phase(phase) => {
                self.u8(0);
                self.u8(phase_byte(phase));
            },
            ObservationKind::Allocated { frame_id, token } => {
                self.u8(1);
                self.u64(frame_id);
                self.u64(token);
            },
            ObservationKind::Suppressed => self.u8(2),
            ObservationKind::Resolved { frame_id, resolution, resolved_ns } => {
                self.u8(3);
                self.u64(frame_id);
                self.u8(resolution_byte(resolution));
                self.u64(resolved_ns);
            },
            ObservationKind::WarmupClosed => self.u8(4),
            ObservationKind::PeriodicRetired { timer_id } => {
                self.u8(5);
                self.u64(timer_id);
            },
            ObservationKind::ReceiptSupplied { receipt_sequence, received_ns, contact, phase } => {
                self.u8(6);
                self.u64(receipt_sequence);
                self.u64(received_ns);
                self.u32(contact);
                self.u8(touch_phase_byte(phase));
            },
            ObservationKind::Delivered { receipt_sequence } => {
                self.u8(7);
                self.u64(receipt_sequence);
            },
            ObservationKind::TokenMutated { receipt_sequence, previous, token } => {
                self.u8(8);
                self.u64(receipt_sequence);
                self.u64(previous);
                self.u64(token);
            },
            ObservationKind::ResponseConfirmed {
                receipt_sequence,
                frame_id,
                token,
                responded_ns,
            } => {
                self.u8(9);
                self.u64(receipt_sequence);
                self.u64(frame_id);
                self.u64(token);
                self.u64(responded_ns);
            },
            ObservationKind::Failed => self.u8(10),
            ObservationKind::Closed => self.u8(11),
        }
    }

    pub fn modifiers(&mut self, v: ModifierState)
        ensures
            forall|t: Seq<u8>|
                #![trigger put_modifiers(v, 0, t)]
                old(self)@ + put_modifiers(v, 0, t) == final(self)@ + t,
    {
        let ghost before = self@;
        let mut i: u8 = 0;
        while i < 8
            invariant
                i <= 8,
                forall|t: Seq<u8>|
                    #![trigger put_modifiers(v, i as int, t)]
                    #![trigger put_modifiers(v, 0, t)]
                    before + put_modifiers(v, 0, t) == self@ + put_modifiers(v, i as int, t),
            decreases 8 - i,
        {
            if let Some(modifier) = Modifier::from_index(i) {
                assert(modifier == modifier_at(i as int));
                let ghost at = self@;
                self.boolean(v.is_active(modifier));
                assert forall|t: Seq<u8>|
                    #![trigger put_modifiers(v, i + 1, t)]
                    #![trigger put_modifiers(v, 0, t)]
                    before + put_modifiers(v, 0, t) == self@ + put_modifiers(v, i + 1, t) by {
                    let later = put_modifiers(v, i + 1, t);
                    assert(put_modifiers(v, i as int, t) == put_bool(
                        v.active(modifier_at(i as int)),
                        later,
                    ));
                    assert(at + put_bool(v.active(modifier_at(i as int)), later) == self@ + later);
                }
            }
            i += 1;
        }
    }

    pub fn touch(&mut self, v: &TouchEvent)
        ensures
            forall|t: Seq<u8>|
                #![trigger put_touch(*v, t)]
                old(self)@ + put_touch(*v, t) == final(self)@ + t,
    {
        proof {
            reveal(put_touch);
        }
        self.u8(touch_phase_byte(v.phase));
        self.u32(v.id);
        self.number(v.time);
        self.number(v.x);
        self.number(v.y);
        self.modifiers(v.modifiers);
        self.optional(v.pressure);
        self.optional(v.width);
        self.optional(v.height);
    }

    pub fn event(&mut self, v: &HardwareEvent)
        ensures
            forall|t: Seq<u8>|
                #![trigger put_event(*v, t)]
                old(self)@ + put_event(*v, t) == final(self)@ + t,
    {
        proof {
            reveal(put_event);
        }
        match v {
            HardwareEvent::Touch(touch) => {
                self.u8(0);
                self.touch(touch);
            },
            HardwareEvent::Fn { active } => {
                self.u8(1);
                self.boolean(*active);
            },
            HardwareEvent::Modifier { modifier, active } => {
                self.u8(2);
                self.u8(modifier.index() as u8);
                self.boolean(*active);
            },
            HardwareEvent::Device { present } => {
                self.u8(3);
                self.boolean(*present);
            },
            HardwareEvent::Capability { capability, present } => {
                self.u8(4);
                self.u8(capability.to_wire());
                self.boolean(*present);
            },
            HardwareEvent::Visibility { visible } => {
                self.u8(5);
                self.boolean(*visible);
            },
        }
    }

    pub fn disposition(&mut self, v: &TimerDisposition)
        ensures
            forall|t: Seq<u8>|
                #![trigger put_disposition(*v, t)]
                old(self)@ + put_disposition(*v, t) == final(self)@ + t,
    {
        proof {
            reveal(put_disposition);
        }
        match *v {
            TimerDisposition::Completed => self.u8(0),
            TimerDisposition::Cancelled => self.u8(1),
            TimerDisposition::Rescheduled {
                next_deadline_seconds,
                intervals_advanced,
                skipped_intervals,
                fallback,
            } => {
                self.u8(2);
                self.number(next_deadline_seconds);
                self.number(intervals_advanced);
                self.number(skipped_intervals);
                self.boolean(fallback);
            },
        }
    }

    pub fn sample(&mut self, v: &Sample)
        ensures
            forall|t: Seq<u8>|
                #![trigger put_sample(*v, t)]
                old(self)@ + put_sample(*v, t) == final(self)@ + t,
    {
        proof {
            reveal(put_sample);
        }
        self.u64(v.sequence);
        self.u64(v.span_id);
        self.u8(span_kind_byte(v.kind));
        self.u64(v.start_ns);
        self.u64(v.end_ns);
        self.boolean(v.frame_bearing);
        self.u8(span_status_byte(v.status));
    }

    pub fn words(&mut self, v: &[u64; 32])
        ensures
            forall|t: Seq<u8>|
                #![trigger put_words(v@, t)]
                old(self)@ + put_words(v@, t) == final(self)@ + t,
    {
        let ghost before = self@;
        let mut i: usize = 0;
        assert(v@.skip(0) =~= v@);
        while i < 32
            invariant
                i <= 32,
                forall|t: Seq<u8>|
                    #![trigger put_words(v@.skip(i as int), t)]
                    #![trigger put_words(v@, t)]
                    before + put_words(v@, t) == self@ + put_words(v@.skip(i as int), t),
            decreases 32 - i,
        {
            let ghost at = self@;
            self.u64(v[i]);
            assert forall|t: Seq<u8>|
                #![trigger put_words(v@.skip(i + 1), t)]
                #![trigger put_words(v@, t)]
                before + put_words(v@, t) == self@ + put_words(v@.skip(i + 1), t) by {
                let later = put_words(v@.skip(i + 1), t);
                assert(v@.skip(i as int).drop_first() =~= v@.skip(i + 1));
                assert(put_words(v@.skip(i as int), t) == put_u64(v@[i as int], later));
                assert(at + put_u64(v@[i as int], later) == self@ + later);
            }
            i += 1;
        }
        assert(v@.skip(32) =~= Seq::empty());
    }

    pub fn summary(&mut self, v: &Summary)
        ensures
            forall|t: Seq<u8>|
                #![trigger put_summary(*v, t)]
                old(self)@ + put_summary(*v, t) == final(self)@ + t,
    {
        proof {
            reveal(put_summary);
        }
        self.u64(v.capacity);
        self.u64(v.started_spans);
        self.u64(v.completed_spans);
        self.u64(v.open_spans);
        self.u64(v.failed_spans);
        self.u64(v.lost);
        self.u64(v.after_close);
        self.u64(v.clock_failures);
        self.optional_u64(v.closed_at_ns);
        self.u64(v.clock_resolution_ns);
        self.u64(v.record_bytes);
        self.words(&v.clock_read_samples_ns);
    }

    /// Writes one observation, unless its allocation is out of range.
    #[verifier::rlimit(60)]
    pub fn kind(&mut self, v: &EventKind) -> (r: Result<(), RecordError>)
        ensures
            match r {
                Ok(_) => encodable(*v) && forall|t: Seq<u8>|
                    #![trigger put_kind(*v, t)]
                    old(self)@ + put_kind(*v, t) == final(self)@ + t,
                Err(e) => (carried_allocation(*v) matches Some(a) && allocation_error(a) == Some(e)),
            },
    {
        match v {
            EventKind::RenderAllocated { attempt } => {
                self.u8(1);
                self.u64(*attempt);
            },
            EventKind::Published { sequence, allocation, marker } => {
                self.u8(3);
                self.u64(*sequence);
                self.allocation(*allocation)?;
                self.marker(marker);
            },
            EventKind::Selected { sequence } => {
                self.u8(4);
                self.u64(*sequence);
            },
            EventKind::Discarded { sequence, reason } => {
                self.u8(5);
                self.u64(*sequence);
                self.u8(reason_byte(*reason));
            },
            EventKind::PendingDiscarded { allocation, marker } => {
                self.u8(6);
                self.allocation(*allocation)?;
                self.marker(marker);
            },
            EventKind::PresentEntered { call, marker } => {
                self.u8(7);
                self.u64(*call);
                self.marker(marker);
            },
            EventKind::PresentReturned { call, success } => {
                self.u8(8);
                self.u64(*call);
                self.boolean(*success);
            },
            EventKind::InputReceived(value) => {
                self.u8(9);
                self.event(value);
            },
            EventKind::PollFailed => {
                self.u8(10);
            },
            EventKind::TouchCallbackEntered(value) => {
                self.u8(11);
                self.touch(value);
            },
            EventKind::TouchCallbackReturned { contact, success } => {
                self.u8(12);
                self.u32(*contact);
                self.boolean(*success);
            },
            EventKind::TimerRegistered { timer_id, delay_seconds, interval_seconds, scheduler_now_seconds } => {
                self.u8(13);
                self.u64(*timer_id);
                self.number(*delay_seconds);
                self.optional(*interval_seconds);
                self.optional(*scheduler_now_seconds);
            },
            EventKind::TimerActivated { timer_id, scheduler_now_seconds, deadline_seconds } => {
                self.u8(14);
                self.u64(*timer_id);
                self.number(*scheduler_now_seconds);
                self.number(*deadline_seconds);
            },
            EventKind::TimerCancelled { timer_id, removed } => {
                self.u8(15);
                self.u64(*timer_id);
                self.boolean(*removed);
            },
            EventKind::TimerDeadlineShifted { timer_id, previous_deadline_seconds, shift_seconds, deadline_seconds } => {
                self.u8(16);
                self.u64(*timer_id);
                self.number(*previous_deadline_seconds);
                self.number(*shift_seconds);
                self.number(*deadline_seconds);
            },
            EventKind::TimerDispatched { timer_id, scheduled_deadline_seconds, scheduler_now_seconds } => {
                self.u8(17);
                self.u64(*timer_id);
                self.number(*scheduled_deadline_seconds);
                self.number(*scheduler_now_seconds);
            },
            EventKind::TimerFinished { timer_id, success, scheduler_now_seconds, disposition } => {
                self.u8(18);
                self.u64(*timer_id);
                self.boolean(*success);
                self.number(*scheduler_now_seconds);
                self.disposition(disposition);
            },
            EventKind::RedrawRequested { coalesced } => {
                self.u8(19);
                self.boolean(*coalesced);
            },
            EventKind::WorkerLoadFailed => {
                self.u8(20);
            },
            EventKind::WorkerLoopFailed => {
                self.u8(21);
            },
            EventKind::MinimalSpan(value) => {
                self.u8(22);
                self.sample(value);
            },
            EventKind::MinimalSummary(value) => {
                self.u8(23);
                self.summary(value);
            },
            EventKind::WorkerCommandFailed => {
                self.u8(24);
            },
            EventKind::WorkerRunFailed => {
                self.u8(25);
            },
            EventKind::WorkerCaptureConfigured { detailed } => {
                self.u8(26);
                self.boolean(*detailed);
            },
            EventKind::BrokerConfigured { mode, start_ns, rate, causal } => {
                self.u8(28);
                self.u8(mode_byte(*mode));
                self.u64(*start_ns);
                self.u32(*rate);
                self.boolean(*causal);
            },
            EventKind::FixtureObserved { synthetic, decision_ns, kind } => {
                self.u8(32);
                self.boolean(*synthetic);
                self.u64(*decision_ns);
                self.fixture(kind);
            },
            EventKind::RenderFinished { attempt, marker } => {
                self.u8(2);
                self.u64(*attempt);
                match marker {
                    Some(marker) => {
                        self.boolean(true);
                        self.marker(marker);
                    },
                    None => self.boolean(false),
                }
            },
            EventKind::MinimalCalibration { cost_ns } => {
                self.u8(27);
                self.words(cost_ns);
            },
            EventKind::BrokerOperation { operation, success } => {
                self.u8(29);
                self.u8(operation.to_wire());
                self.boolean(*success);
            },
        }
        Ok(())
    }
}

/// Refuses an allocation whose numbers do not fit signed integers.
pub fn validate_allocation(a: FrameAllocation) -> (r: Result<(), RecordError>)
    ensures
        r is Ok == a.valid(),
        r matches Err(e) ==> allocation_error(a) == Some(e),
{
    if !(a.id > 0 && a.id <= MAX_SIGNED) {
        return Err(RecordError::AllocationId);
    }
    if !(a.token <= MAX_SIGNED && a.allocated_ns > 0 && a.allocated_ns <= MAX_SIGNED) {
        return Err(RecordError::AllocationTokenTime);
    }
    Ok(())
}

/// The block of a record. Only an allocation out of range has none.
pub fn encode_record(record: &Record) -> (r: Result<Vec<u8>, RecordError>)
    ensures
        r is Ok == (carried_allocation(record.kind) matches Some(a) ==> a.valid()),
        r matches Ok(block) ==> encodable(record.kind) && block@ == record_block(*record)
            && block@.len() == RECORD_BYTES,
        r matches Err(e) ==> (carried_allocation(record.kind) matches Some(a) && allocation_error(a)
            == Some(e)),
{
    let mut e: Encoder = Encoder::new();
    e.u64(record.sequence);
    e.u64(record.at_ns);
    e.kind(&record.kind)?;
    proof {
        let rest = put_kind(record.kind, Seq::empty());
        let tail = put_u64(record.at_ns, rest);
        assert(put_record(*record) == put_u64(record.sequence, tail));
        assert(e@ + Seq::<u8>::empty() =~= e@);
        assert(Seq::<u8>::empty() + put_record(*record) =~= put_record(*record));
        assert(e@ == put_record(*record));
        law_block_denotes_its_record(*record);
        broadcast use group_put;

        lemma_put_kind(record.kind, Seq::empty());
    }
    let body: Vec<u8> = e.bytes;
    let n: usize = body.len();
    let mut block: Vec<u8> = Vec::new();
    put_le(&mut block, (2 + n) as u64, 2);
    append_slice(&mut block, body.as_slice());
    proof {
        lemma_le_bytes_len((2 + n) as nat, 2);
    }
    let ghost written = block@;
    let mut i: usize = 2 + n;
    while i < 512
        invariant
            2 + n <= i <= 512,
            block@ == written + Seq::new((i - 2 - n) as nat, |i: int| 0u8),
        decreases 512 - i,
    {
        block.push(0);
        i += 1;
        assert(block@ =~= written + Seq::new((i - 2 - n) as nat, |i: int| 0u8));
    }
    assert(block@ =~= record_block(*record));
    Ok(block)
}

/// Reads the fields of one record.
pub struct Decoder<'a> {
    bytes: &'a [u8],
    at: usize,
}

impl<'a> Decoder<'a> {
    pub closed spec fn wf(self) -> bool {
        self.at <= self.bytes@.len()
    }

    /// What is still to be read.
    pub closed spec fn rest(self) -> Seq<u8> {
        self.bytes@.skip(self.at as int)
    }

    /// Reads `bytes` from the start.
    pub fn new(bytes: &'a [u8]) -> (d: Decoder<'a>)
        ensures
            d.wf(),
            d.rest() == bytes@,
    {
        let d = Decoder { bytes, at: 0 };
        assert(d.rest() =~= bytes@);
        d
    }

    /// Whether everything was read.
    pub fn at_end(&self) -> (r: bool)
        requires
            self.wf(),
        ensures
            r == (self.rest().len() == 0),
    {
        self.at == self.bytes.len()
    }

    pub fn u8(&mut self) -> (r: Result<u8, RecordError>)
        requires
            old(self).wf(),
        ensures
            final(self).wf(),
            outcome(r, take_u8(old(self).rest()), final(self).rest()),
    {
        proof {
            reveal(take_u8);
        }
        if self.at >= self.bytes.len() {
            return Err(RecordError::Truncated);
        }
        let v: u8 = self.bytes[self.at];
        let ghost before = self.rest();
        self.at = self.at + 1;
        assert(self.rest() =~= before.skip(1));
        Ok(v)
    }

    pub fn u32(&mut self) -> (r: Result<u32, RecordError>)
        requires
            old(self).wf(),
        ensures
            final(self).wf(),
            outcome(r, take_u32(old(self).rest()), final(self).rest()),
    {
        proof {
            reveal(take_u32);
        }
        if self.bytes.len() - self.at < 4 {
            return Err(RecordError::Truncated);
        }
        let v: u64 = get_le(self.bytes, self.at, 4);
        proof {
            lemma_pow256_values();
            assert(self.rest().take(4) =~= self.bytes@.subrange(self.at as int, self.at + 4));
        }
        let ghost before = self.rest();
        self.at = self.at + 4;
        assert(self.rest() =~= before.skip(4));
        Ok(v as u32)
    }

    pub fn u64(&mut self) -> (r: Result<u64, RecordError>)
        requires
            old(self).wf(),
        ensures
            final(self).wf(),
            outcome(r, take_u64(old(self).rest()), final(self).rest()),
    {
        proof {
            reveal(take_u64);
        }
        if self.bytes.len() - self.at < 8 {
            return Err(RecordError::Truncated);
        }
        let v: u64 = get_le(self.bytes, self.at, 8);
        proof {
            lemma_pow256_values();
            assert(self.rest().take(8) =~= self.bytes@.subrange(self.at as int, self.at + 8));
        }
        let ghost before = self.rest();
        self.at = self.at + 8;
        assert(self.rest() =~= before.skip(8));
        Ok(v)
    }

    /// Reads a marker packet.
    pub fn packet(&mut self) -> (r: Result<[u8; 408], RecordError>)
        requires
            old(self).wf(),
        ensures
            final(self).wf(),
            match r {
                Ok(packet) => take_bytes(old(self).rest(), 408) == Ok::<
                    (Seq<u8>, Seq<u8>),
                    RecordError,
                >((packet@, final(self).rest())),
                Err(e) => take_bytes(old(self).rest(), 408) == Err::<
                    (Seq<u8>, Seq<u8>),
                    RecordError,
                >(e),
            },
    {
        proof {
            reveal(take_bytes);
        }
        if self.bytes.len() - self.at < 408 {
            return Err(RecordError::Truncated);
        }
        let mut packet: [u8; 408] = [0;408];
        let mut i: usize = 0;
        while i < 408
            invariant
                i <= 408,
                self.at + 408 <= self.bytes@.len(),
                forall|j: int| 0 <= j < i ==> #[trigger] packet@[j] == self.bytes@[self.at + j],
            decreases 408 - i,
        {
            assert(self.at + 408 <= self.bytes.len());
            packet[i] = self.bytes[self.at + i];
            i += 1;
        }
        let ghost before = self.rest();
        assert(packet@ =~= before.take(408));
        self.at = self.at + 408;
        assert(self.rest() =~= before.skip(408));
        Ok(packet)
    }

    pub fn boolean(&mut self) -> (r: Result<bool, RecordError>)
        requires
            old(self).wf(),
        ensures
            final(self).wf(),
            outcome(r, take_bool(old(self).rest()), final(self).rest()),
    {
        let b: u8 = self.u8()?;
        match b {
            0 => Ok(false),
            1 => Ok(true),
            _ => Err(RecordError::Boolean),
        }
    }

    pub fn number(&mut self) -> (r: Result<RealBits, RecordError>)
        requires
            old(self).wf(),
        ensures
            final(self).wf(),
            outcome(r, take_real(old(self).rest()), final(self).rest()),
    {
        let bits: u64 = self.u64()?;
        Ok(RealBits { bits })
    }

    pub fn optional(&mut self) -> (r: Result<Option<RealBits>, RecordError>)
        requires
            old(self).wf(),
        ensures
            final(self).wf(),
            outcome(r, take_optional(old(self).rest()), final(self).rest()),
    {
        proof {
            reveal(take_optional);
        }
        if self.boolean()? {
            let value: RealBits = self.number()?;
            Ok(Some(value))
        } else {
            Ok(None)
        }
    }

    pub fn optional_u64(&mut self) -> (r: Result<Option<u64>, RecordError>)
        requires
            old(self).wf(),
        ensures
            final(self).wf(),
            outcome(r, take_optional_u64(old(self).rest()), final(self).rest()),
    {
        if self.boolean()? {
            let value: u64 = self.u64()?;
            Ok(Some(value))
        } else {
            Ok(None)
        }
    }

    pub fn allocation(&mut self) -> (r: Result<Option<FrameAllocation>, RecordError>)
        requires
            old(self).wf(),
        ensures
            final(self).wf(),
            outcome(r, take_allocation(old(self).rest()), final(self).rest()),
    {
        proof {
            reveal(take_allocation);
        }
        if !self.boolean()? {
            return Ok(None);
        }
        let id: u64 = self.u64()?;
        let token: u64 = self.u64()?;
        let allocated_ns: u64 = self.u64()?;
        let allocation = FrameAllocation { id, token, allocated_ns };
        validate_allocation(allocation)?;
        Ok(Some(allocation))
    }

    pub fn marker(&mut self) -> (r: Result<Result<Marker, DecodeError>, RecordError>)
        requires
            old(self).wf(),
        ensures
            final(self).wf(),
            outcome(r, take_marker(old(self).rest()), final(self).rest()),
    {
        proof {
            reveal(take_marker);
        }
        let status: u8 = self.u8()?;
        match status {
            0 => {
                let packet: [u8; 408] = self.packet()?;
                match decode_packet(packet) {
                    Ok(marker) => {
                        proof {
                            lemma_marker_of(marker);
                        }
                        Ok(Ok(marker))
                    },
                    Err(_) => Err(RecordError::MarkerPacket),
                }
            },
            1 => Ok(Err(DecodeError::Geometry)),
            2 => Ok(Err(DecodeError::Cell)),
            3 => Ok(Err(DecodeError::Packet)),
            _ => Err(RecordError::MarkerStatus),
        }
    }

    pub fn phase(&mut self) -> (r: Result<Phase, RecordError>)
        requires
            old(self).wf(),
        ensures
            final(self).wf(),
            outcome(r, take_phase(old(self).rest()), final(self).rest()),
    {
        let b: u8 = self.u8()?;
        match b {
            0 => Ok(Phase::Warmup),
            1 => Ok(Phase::Quiescing),
            2 => Ok(Phase::Armed),
            3 => Ok(Phase::Measured),
            4 => Ok(Phase::Drain),
            5 => Ok(Phase::Ended),
            _ => Err(RecordError::FixturePhase),
        }
    }

    pub fn resolution(&mut self) -> (r: Result<Resolution, RecordError>)
        requires
            old(self).wf(),
        ensures
            final(self).wf(),
            outcome(r, take_resolution(old(self).rest()), final(self).rest()),
    {
        let b: u8 = self.u8()?;
        match b {
            0 => Ok(Resolution::Presented),
            1 => Ok(Resolution::Discarded),
            2 => Ok(Resolution::Failed),
            _ => Err(RecordError::FixtureResolution),
        }
    }

    pub fn touch_phase(&mut self, error: RecordError) -> (r: Result<TouchPhase, RecordError>)
        requires
            old(self).wf(),
        ensures
            final(self).wf(),
            outcome(r, take_touch_phase(old(self).rest(), error), final(self).rest()),
    {
        let b: u8 = self.u8()?;
        match b {
            0 => Ok(TouchPhase::Down),
            1 => Ok(TouchPhase::Move),
            2 => Ok(TouchPhase::Up),
            3 => Ok(TouchPhase::Cancel),
            _ => Err(error),
        }
    }

    pub fn reason(&mut self) -> (r: Result<DiscardReason, RecordError>)
        requires
            old(self).wf(),
        ensures
            final(self).wf(),
            outcome(r, take_reason(old(self).rest()), final(self).rest()),
    {
        let b: u8 = self.u8()?;
        match b {
            0 => Ok(DiscardReason::ProducerReclaim),
            1 => Ok(DiscardReason::ConsumerSuperseded),
            2 => Ok(DiscardReason::MappingClosed),
            _ => Err(RecordError::Discard),
        }
    }

    pub fn span_kind(&mut self) -> (r: Result<SpanKind, RecordError>)
        requires
            old(self).wf(),
        ensures
            final(self).wf(),
            outcome(r, take_span_kind(old(self).rest()), final(self).rest()),
    {
        let b: u8 = self.u8()?;
        match b {
            0 => Ok(SpanKind::RenderCallback),
            1 => Ok(SpanKind::Present),
            2 => Ok(SpanKind::SupervisorDrive),
            3 => Ok(SpanKind::Calibration),
            _ => Err(RecordError::SpanKind),
        }
    }

    pub fn span_status(&mut self) -> (r: Result<SpanStatus, RecordError>)
        requires
            old(self).wf(),
        ensures
            final(self).wf(),
            outcome(r, take_span_status(old(self).rest()), final(self).rest()),
    {
        let b: u8 = self.u8()?;
        match b {
            0 => Ok(SpanStatus::Succeeded),
            1 => Ok(SpanStatus::Failed),
            2 => Ok(SpanStatus::Abandoned),
            _ => Err(RecordError::SpanStatus),
        }
    }

    pub fn mode(&mut self) -> (r: Result<Mode, RecordError>)
        requires
            old(self).wf(),
        ensures
            final(self).wf(),
            outcome(r, take_mode(old(self).rest()), final(self).rest()),
    {
        let b: u8 = self.u8()?;
        match b {
            0 => Ok(Mode::A),
            1 => Ok(Mode::B),
            2 => Ok(Mode::C),
            _ => Err(RecordError::Mode),
        }
    }

    pub fn fixture(&mut self) -> (r: Result<ObservationKind, RecordError>)
        requires
            old(self).wf(),
        ensures
            final(self).wf(),
            outcome(r, take_fixture(old(self).rest()), final(self).rest()),
    {
        proof {
            reveal(take_fixture);
        }
        let tag: u8 = self.u8()?;
        match tag {
            0 => {
                let phase: Phase = self.phase()?;
                Ok(ObservationKind::Phase(phase))
            },
            1 => {
                let frame_id: u64 = self.u64()?;
                let token: u64 = self.u64()?;
                Ok(ObservationKind::Allocated { frame_id, token })
            },
            2 => Ok(ObservationKind::Suppressed),
            3 => {
                let frame_id: u64 = self.u64()?;
                let resolution: Resolution = self.resolution()?;
                let resolved_ns: u64 = self.u64()?;
                Ok(ObservationKind::Resolved { frame_id, resolution, resolved_ns })
            },
            4 => Ok(ObservationKind::WarmupClosed),
            5 => {
                let timer_id: u64 = self.u64()?;
                Ok(ObservationKind::PeriodicRetired { timer_id })
            },
            6 => {
                let receipt_sequence: u64 = self.u64()?;
                let received_ns: u64 = self.u64()?;
                let contact: u32 = self.u32()?;
                let phase: TouchPhase = self.touch_phase(RecordError::FixtureTouchPhase)?;
                Ok(ObservationKind::ReceiptSupplied { receipt_sequence, received_ns, contact, phase })
            },
            7 => {
                let receipt_sequence: u64 = self.u64()?;
                Ok(ObservationKind::Delivered { receipt_sequence })
            },
            8 => {
                let receipt_sequence: u64 = self.u64()?;
                let previous: u64 = self.u64()?;
                let token: u64 = self.u64()?;
                Ok(ObservationKind::TokenMutated { receipt_sequence, previous, token })
            },
            9 => {
                let receipt_sequence: u64 = self.u64()?;
                let frame_id: u64 = self.u64()?;
                let token: u64 = self.u64()?;
                let responded_ns: u64 = self.u64()?;
                Ok(
                    ObservationKind::ResponseConfirmed {
                        receipt_sequence,
                        frame_id,
                        token,
                        responded_ns,
                    },
                )
            },
            10 => Ok(ObservationKind::Failed),
            11 => Ok(ObservationKind::Closed),
            _ => Err(RecordError::FixtureTag),
        }
    }

    pub fn modifiers(&mut self) -> (r: Result<ModifierState, RecordError>)
        requires
            old(self).wf(),
        ensures
            final(self).wf(),
            outcome(r, take_modifiers(ModifierState::none(), 0, old(self).rest()), final(self).rest()),
    {
        let ghost start = self.rest();
        let mut v: ModifierState = ModifierState::empty();
        let mut i: u8 = 0;
        while i < 8
            invariant
                i <= 8,
                self.wf(),
                start == old(self).rest(),
                take_modifiers(ModifierState::none(), 0, start) == take_modifiers(
                    v,
                    i as int,
                    self.rest(),
                ),
            decreases 8 - i,
        {
            let active: bool = self.boolean()?;
            if let Some(modifier) = Modifier::from_index(i) {
                assert(modifier == modifier_at(i as int));
                v.set(modifier, active);
            }
            i += 1;
        }
        Ok(v)
    }

    pub fn touch(&mut self) -> (r: Result<TouchEvent, RecordError>)
        requires
            old(self).wf(),
        ensures
            final(self).wf(),
            outcome(r, take_touch(old(self).rest()), final(self).rest()),
    {
        proof {
            reveal(take_touch);
        }
        let phase: TouchPhase = self.touch_phase(RecordError::TouchPhase)?;
        let id: u32 = self.u32()?;
        let time: RealBits = self.number()?;
        let x: RealBits = self.number()?;
        let y: RealBits = self.number()?;
        let modifiers: ModifierState = self.modifiers()?;
        let pressure: Option<RealBits> = self.optional()?;
        let width: Option<RealBits> = self.optional()?;
        let height: Option<RealBits> = self.optional()?;
        Ok(TouchEvent { phase, id, time, x, y, modifiers, pressure, width, height })
    }

    pub fn event(&mut self) -> (r: Result<HardwareEvent, RecordError>)
        requires
            old(self).wf(),
        ensures
            final(self).wf(),
            outcome(r, take_event(old(self).rest()), final(self).rest()),
    {
        proof {
            reveal(take_event);
        }
        let tag: u8 = self.u8()?;
        match tag {
            0 => {
                let touch: TouchEvent = self.touch()?;
                Ok(HardwareEvent::Touch(touch))
            },
            1 => {
                let active: bool = self.boolean()?;
                Ok(HardwareEvent::Fn { active })
            },
            2 => {
                let index: u8 = self.u8()?;
                match Modifier::from_index(index) {
                    Some(modifier) => {
                        let active: bool = self.boolean()?;
                        Ok(HardwareEvent::Modifier { modifier, active })
                    },
                    None => Err(RecordError::Modifier),
                }
            },
            3 => {
                let present: bool = self.boolean()?;
                Ok(HardwareEvent::Device { present })
            },
            4 => {
                let code: u8 = self.u8()?;
                match HardwareCapability::from_wire(code) {
                    Ok(capability) => {
                        let present: bool = self.boolean()?;
                        Ok(HardwareEvent::Capability { capability, present })
                    },
                    Err(_) => Err(RecordError::Capability),
                }
            },
            5 => {
                let visible: bool = self.boolean()?;
                Ok(HardwareEvent::Visibility { visible })
            },
            _ => Err(RecordError::Event),
        }
    }

    pub fn disposition(&mut self) -> (r: Result<TimerDisposition, RecordError>)
        requires
            old(self).wf(),
        ensures
            final(self).wf(),
            outcome(r, take_disposition(old(self).rest()), final(self).rest()),
    {
        proof {
            reveal(take_disposition);
        }
        let tag: u8 = self.u8()?;
        match tag {
            0 => Ok(TimerDisposition::Completed),
            1 => Ok(TimerDisposition::Cancelled),
            2 => {
                let next_deadline_seconds: RealBits = self.number()?;
                let intervals_advanced: RealBits = self.number()?;
                let skipped_intervals: RealBits = self.number()?;
                let fallback: bool = self.boolean()?;
                Ok(
                    TimerDisposition::Rescheduled {
                        next_deadline_seconds,
                        intervals_advanced,
                        skipped_intervals,
                        fallback,
                    },
                )
            },
            _ => Err(RecordError::Disposition),
        }
    }

    pub fn sample(&mut self) -> (r: Result<Sample, RecordError>)
        requires
            old(self).wf(),
        ensures
            final(self).wf(),
            outcome(r, take_sample(old(self).rest()), final(self).rest()),
    {
        proof {
            reveal(take_sample);
        }
        let sequence: u64 = self.u64()?;
        let span_id: u64 = self.u64()?;
        let kind: SpanKind = self.span_kind()?;
        let start_ns: u64 = self.u64()?;
        let end_ns: u64 = self.u64()?;
        let frame_bearing: bool = self.boolean()?;
        let status: SpanStatus = self.span_status()?;
        Ok(Sample { sequence, span_id, kind, start_ns, end_ns, frame_bearing, status })
    }

    /// Reads thirty-two long words.
    pub fn words(&mut self) -> (r: Result<[u64; 32], RecordError>)
        requires
            old(self).wf(),
        ensures
            final(self).wf(),
            match r {
                Ok(words) => take_words(old(self).rest(), 32) == Ok::<
                    (Seq<u64>, Seq<u8>),
                    RecordError,
                >((words@, final(self).rest())),
                Err(e) => take_words(old(self).rest(), 32) == Err::<
                    (Seq<u64>, Seq<u8>),
                    RecordError,
                >(e),
            },
    {
        let ghost start = self.rest();
        let mut words: [u64; 32] = [0;32];
        let mut i: usize = 0;
        while i < 32
            invariant
                i <= 32,
                self.wf(),
                start == old(self).rest(),
                match take_words(self.rest(), (32 - i) as nat) {
                    Ok((later, t)) => take_words(start, 32) == Ok::<
                        (Seq<u64>, Seq<u8>),
                        RecordError,
                    >((words@.take(i as int) + later, t)),
                    Err(e) => take_words(start, 32) == Err::<(Seq<u64>, Seq<u8>), RecordError>(e),
                },
            decreases 32 - i,
        {
            let ghost before = words@.take(i as int);
            let v: u64 = self.u64()?;
            words[i] = v;
            proof {
                assert(words@.take(i + 1) =~= before.push(v));
                if let Ok((later, t)) = take_words(self.rest(), (32 - i - 1) as nat) {
                    assert(before + (seq![v] + later) =~= words@.take(i + 1) + later);
                }
            }
            i += 1;
        }
        assert(words@.take(32) + Seq::<u64>::empty() =~= words@);
        Ok(words)
    }

    pub fn summary(&mut self) -> (r: Result<Summary, RecordError>)
        requires
            old(self).wf(),
        ensures
            final(self).wf(),
            outcome(r, take_summary(old(self).rest()), final(self).rest()),
    {
        broadcast use lemma_array_of;

        proof {
            reveal(take_summary);
        }
        let capacity: u64 = self.u64()?;
        let started_spans: u64 = self.u64()?;
        let completed_spans: u64 = self.u64()?;
        let open_spans: u64 = self.u64()?;
        let failed_spans: u64 = self.u64()?;
        let lost: u64 = self.u64()?;
        let after_close: u64 = self.u64()?;
        let clock_failures: u64 = self.u64()?;
        let closed_at_ns: Option<u64> = self.optional_u64()?;
        let clock_resolution_ns: u64 = self.u64()?;
        let record_bytes: u64 = self.u64()?;
        let clock_read_samples_ns: [u64; 32] = self.words()?;
        Ok(
            Summary {
                capacity,
                started_spans,
                completed_spans,
                open_spans,
                failed_spans,
                lost,
                after_close,
                clock_failures,
                closed_at_ns,
                clock_resolution_ns,
                record_bytes,
                clock_read_samples_ns,
            },
        )
    }

    /// Reads one observation.
    #[verifier::rlimit(60)]
    pub fn kind(&mut self) -> (r: Result<EventKind, RecordError>)
        requires
            old(self).wf(),
        ensures
            final(self).wf(),
            outcome(r, take_kind(old(self).rest()), final(self).rest()),
    {
        broadcast use lemma_array_of, lemma_operation_of;

        let tag: u8 = self.u8()?;
        match tag {
            1 => {
                let attempt: u64 = self.u64()?;
                Ok(EventKind::RenderAllocated { attempt })
            },
            3 => {
                let sequence: u64 = self.u64()?;
                let allocation: Option<FrameAllocation> = self.allocation()?;
                let marker: Result<Marker, DecodeError> = self.marker()?;
                Ok(EventKind::Published { sequence, allocation, marker })
            },
            4 => {
                let sequence: u64 = self.u64()?;
                Ok(EventKind::Selected { sequence })
            },
            5 => {
                let sequence: u64 = self.u64()?;
                let reason: DiscardReason = self.reason()?;
                Ok(EventKind::Discarded { sequence, reason })
            },
            6 => {
                let allocation: Option<FrameAllocation> = self.allocation()?;
                let marker: Result<Marker, DecodeError> = self.marker()?;
                Ok(EventKind::PendingDiscarded { allocation, marker })
            },
            7 => {
                let call: u64 = self.u64()?;
                let marker: Result<Marker, DecodeError> = self.marker()?;
                Ok(EventKind::PresentEntered { call, marker })
            },
            8 => {
                let call: u64 = self.u64()?;
                let success: bool = self.boolean()?;
                Ok(EventKind::PresentReturned { call, success })
            },
            9 => {
                let value: HardwareEvent = self.event()?;
                Ok(EventKind::InputReceived(value))
            },
            10 => Ok(EventKind::PollFailed),
            11 => {
                let value: TouchEvent = self.touch()?;
                Ok(EventKind::TouchCallbackEntered(value))
            },
            12 => {
                let contact: u32 = self.u32()?;
                let success: bool = self.boolean()?;
                Ok(EventKind::TouchCallbackReturned { contact, success })
            },
            13 => {
                let timer_id: u64 = self.u64()?;
                let delay_seconds: RealBits = self.number()?;
                let interval_seconds: Option<RealBits> = self.optional()?;
                let scheduler_now_seconds: Option<RealBits> = self.optional()?;
                Ok(EventKind::TimerRegistered { timer_id, delay_seconds, interval_seconds, scheduler_now_seconds })
            },
            14 => {
                let timer_id: u64 = self.u64()?;
                let scheduler_now_seconds: RealBits = self.number()?;
                let deadline_seconds: RealBits = self.number()?;
                Ok(EventKind::TimerActivated { timer_id, scheduler_now_seconds, deadline_seconds })
            },
            15 => {
                let timer_id: u64 = self.u64()?;
                let removed: bool = self.boolean()?;
                Ok(EventKind::TimerCancelled { timer_id, removed })
            },
            16 => {
                let timer_id: u64 = self.u64()?;
                let previous_deadline_seconds: RealBits = self.number()?;
                let shift_seconds: RealBits = self.number()?;
                let deadline_seconds: RealBits = self.number()?;
                Ok(EventKind::TimerDeadlineShifted { timer_id, previous_deadline_seconds, shift_seconds, deadline_seconds })
            },
            17 => {
                let timer_id: u64 = self.u64()?;
                let scheduled_deadline_seconds: RealBits = self.number()?;
                let scheduler_now_seconds: RealBits = self.number()?;
                Ok(EventKind::TimerDispatched { timer_id, scheduled_deadline_seconds, scheduler_now_seconds })
            },
            18 => {
                let timer_id: u64 = self.u64()?;
                let success: bool = self.boolean()?;
                let scheduler_now_seconds: RealBits = self.number()?;
                let disposition: TimerDisposition = self.disposition()?;
                Ok(EventKind::TimerFinished { timer_id, success, scheduler_now_seconds, disposition })
            },
            19 => {
                let coalesced: bool = self.boolean()?;
                Ok(EventKind::RedrawRequested { coalesced })
            },
            20 => Ok(EventKind::WorkerLoadFailed),
            21 => Ok(EventKind::WorkerLoopFailed),
            22 => {
                let value: Sample = self.sample()?;
                Ok(EventKind::MinimalSpan(value))
            },
            23 => {
                let value: Summary = self.summary()?;
                Ok(EventKind::MinimalSummary(value))
            },
            24 => Ok(EventKind::WorkerCommandFailed),
            25 => Ok(EventKind::WorkerRunFailed),
            26 => {
                let detailed: bool = self.boolean()?;
                Ok(EventKind::WorkerCaptureConfigured { detailed })
            },
            28 => {
                let mode: Mode = self.mode()?;
                let start_ns: u64 = self.u64()?;
                let rate: u32 = self.u32()?;
                let causal: bool = self.boolean()?;
                Ok(EventKind::BrokerConfigured { mode, start_ns, rate, causal })
            },
            32 => {
                let synthetic: bool = self.boolean()?;
                let decision_ns: u64 = self.u64()?;
                let kind: ObservationKind = self.fixture()?;
                Ok(EventKind::FixtureObserved { synthetic, decision_ns, kind })
            },
            2 => {
                let attempt: u64 = self.u64()?;
                let finished: bool = self.boolean()?;
                if finished {
                    let marker: Result<Marker, DecodeError> = self.marker()?;
                    Ok(EventKind::RenderFinished { attempt, marker: Some(marker) })
                } else {
                    Ok(EventKind::RenderFinished { attempt, marker: None })
                }
            },
            27 => {
                let cost_ns: [u64; 32] = self.words()?;
                Ok(EventKind::MinimalCalibration { cost_ns })
            },
            29 => {
                let code: u8 = self.u8()?;
                match Operation::from_wire(code) {
                    Ok(operation) => {
                        let success: bool = self.boolean()?;
                        Ok(EventKind::BrokerOperation { operation, success })
                    },
                    Err(_) => Err(RecordError::Operation),
                }
            },
            _ => Err(RecordError::Tag),
        }
    }
}

/// The record that a block denotes. A block is accepted exactly if it is the block
/// of some record.
pub fn decode_record(bytes: &[u8]) -> (r: Result<Record, RecordError>)
    requires
        bytes@.len() == RECORD_BYTES,
    ensures
        r == block_record(bytes@),
        r matches Ok(record) ==> encodable(record.kind) && record_block(record) == bytes@,
        r is Err ==> forall|record: Record|
            encodable(record.kind) ==> #[trigger] record_block(record) != bytes@,
{
    proof {
        if block_record(bytes@) is Ok {
            law_block_is_canonical(bytes@);
        }
        assert forall|record: Record|
            encodable(record.kind) && block_record(bytes@) is Err implies #[trigger] record_block(
            record,
        ) != bytes@ by {
            law_block_denotes_its_record(record);
        }
        assert(bytes@.take(2) =~= bytes@.subrange(0, 2));
        lemma_pow256_values();
    }
    let length: usize = get_le(bytes, 0, 2) as usize;
    if length < 19 || length > 512 {
        return Err(RecordError::Length);
    }
    let mut i: usize = length;
    while i < 512
        invariant
            length <= i <= 512,
            bytes@.len() == 512,
            forall|j: int| length <= j < i ==> #[trigger] bytes@[j] == 0,
            length == le_value(bytes@.take(2)),
            19 <= length <= 512,
        decreases 512 - i,
    {
        if bytes[i] != 0 {
            assert(!zeros_from(bytes@, length as int));
            assert(block_record(bytes@) == Err::<Record, RecordError>(RecordError::Padding));
            proof {
                assert forall|record: Record| encodable(record.kind) implies #[trigger] record_block(
                    record,
                ) != bytes@ by {
                    law_block_denotes_its_record(record);
                }
            }
            return Err(RecordError::Padding);
        }
        i += 1;
    }
    assert(zeros_from(bytes@, length as int));
    let content: Vec<u8> = copy_range(bytes, 2, length);
    let mut d: Decoder = Decoder::new(content.as_slice());
    let sequence: u64 = d.u64()?;
    let at_ns: u64 = d.u64()?;
    let kind: EventKind = d.kind()?;
    if !d.at_end() {
        return Err(RecordError::Trailing);
    }
    Ok(Record { sequence, at_ns, kind })
}

} // verus!
