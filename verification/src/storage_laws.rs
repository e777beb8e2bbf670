//! What is kept of a run: its markers, its records, its storage, its sources, and who
//! declared it.
use vstd::prelude::*;

use crate::bootstrap::BootstrapView;
use crate::broker_source::{
    configured, marker_read, recorder_unhealthy, BrokerSource, ClosingTimes, SourceError,
};
use crate::bytes::{be_value, le_bytes, le_value, lemma_le_bytes_len};
use crate::capture_storage::{
    append_writes, begin_writes, counter_words, descriptor_error, fresh_words, layout_error,
    metadata_writes, next_revision, revisions_agree, stored_counters, stored_record,
    stored_records, written, DescriptorFacts, MappedWriter, SourceRole, StorageError, WordWrite,
};
use crate::events::{
    DiscardReason, EventKind, FrameAllocation, Mode, ObservationKind, Operation, Phase, Record,
    Resolution, SpanKind, SpanStatus,
};
use crate::hardware::{FrameView, HardwareEvent, LogicalFrame, TouchPhase};
use crate::marker::{
    cell_bits, cell_is, cell_x, cell_y, crc32, crc_bit, crc_bits, crc_register, identity_byte,
    identity_bytes, marker_geometry, painted_packet, pixel_at, pixel_is, valid_packet,
    DecodeError, Marker,
};
use crate::observer::{marker_result, plus_one, CaptureError, Counters};
use crate::provisioning::{declared, DeclarationView, ProvisioningError};
use crate::record_layout::{
    allocation_error, carried_allocation, mode_code, phase_code, put_event, put_fixture,
    put_kind, put_record, put_u64, put_u8, reason_code, record_block, resolution_code,
    span_kind_code, span_status_code, touch_phase_code, RecordError,
};
use crate::timing::Span;

verus! {

/// An identity is made of letters, digits, and the characters `_`, `-` and `.` alone.
pub proof fn law_an_identity_is_letters_digits_and_three_signs(b: u8)
    ensures
        identity_byte(b) <==> (0x30 <= b <= 0x39 || 0x41 <= b <= 0x5a || 0x61 <= b <= 0x7a || b
            == 0x5f || b == 0x2d || b == 0x2e),
{
}

/// The checksum shifts its register by one bit at a time, eight times for each byte, from all
/// ones, and flips the bits of the polynomial in whenever a one falls out.
pub proof fn law_the_checksum_divides_by_its_polynomial(s: Seq<u8>, b: u8, crc: u32)
    ensures
        crc32(s) == crc_register(s) ^ 0xffff_ffff,
        crc_register(Seq::empty()) == 0xffff_ffff,
        crc_register(s.push(b)) == crc_bits(crc_register(s) ^ (b as u32), 8),
        crc_bits(crc, 8) == crc_bit(
            crc_bit(crc_bit(crc_bit(crc_bit(crc_bit(crc_bit(crc_bit(crc))))))),
        ),
        crc & 1 == 1 ==> crc_bit(crc) == (crc >> 1) ^ 0xedb8_8320,
        crc & 1 != 1 ==> crc_bit(crc) == crc >> 1,
{
    assert(s.push(b).drop_last() =~= s);
    reveal_with_fuel(crc_bits, 9);
}

/// A packet is well formed exactly where it starts with its eight letters, numbers a frame
/// from one up to the largest signed number, names a run, a generation and perhaps an input
/// of up to one hundred and twenty-eight bytes each with zeros behind, and ends in the
/// checksum of what comes before.
pub proof fn law_a_packet_is_well_formed(p: Seq<u8>)
    ensures
        valid_packet(p) <==> {
            &&& p.len() == 408
            &&& p.subrange(0, 8) == seq![0x53u8, 0x4c, 0x56, 0x4d, 0x52, 0x4b, 0x30, 0x30]
            &&& 1 <= be_value(p.subrange(8, 16)) <= 0x7fff_ffff_ffff_ffff
            &&& p[19] == 0
            &&& 1 <= p[16] <= 128 && identity_bytes(p.subrange(20, 20 + p[16]))
            &&& forall|i: int| 20 + p[16] <= i < 148 ==> #[trigger] p[i] == 0
            &&& 1 <= p[17] <= 128 && identity_bytes(p.subrange(148, 148 + p[17]))
            &&& forall|i: int| 148 + p[17] <= i < 276 ==> #[trigger] p[i] == 0
            &&& p[18] <= 128 && identity_bytes(p.subrange(276, 276 + p[18]))
            &&& forall|i: int| 276 + p[18] <= i < 404 ==> #[trigger] p[i] == 0
            &&& crc32(p.subrange(0, 404)) == be_value(p.subrange(404, 408))
        },
{
}

/// A marker is looked for in frames of the size of the panel, with whole pixels in whole
/// rows and no more than sixteen mebibytes.
pub proof fn law_a_marker_is_looked_for_in_whole_frames(f: FrameView)
    ensures
        marker_geometry(f) <==> f.width == 2008 && f.height == 60 && f.stride >= 8032 && f.stride
            % 4 == 0 && f.pixels.len() <= 16_777_216 && f.pixels.len() == f.stride * 60,
{
}

/// The cells of a marker stand in four rows of eight hundred and sixteen, two pixels wide and
/// two high, from column one hundred and eighty-eight and row four on. A cell is at a level
/// where all of its four pixels are, opaque and gray.
pub proof fn law_cells_stand_in_four_rows(f: FrameView, row: int, column: int, level: u8)
    requires
        0 <= row < 4,
        0 <= column < 816,
    ensures
        ({
            let cell = 816 * row + column;
            let x = 188 + 2 * column;
            let y = 4 + 2 * row;
            &&& cell_x(cell) == x
            &&& cell_y(cell) == y
            &&& cell_is(f, cell, level) <==> pixel_is(f, x, y, level) && pixel_is(
                f,
                x + 1,
                y,
                level,
            ) && pixel_is(f, x, y + 1, level) && pixel_is(f, x + 1, y + 1, level)
        }),
{
    let cell = 816 * row + column;
    assert(cell / 816 == row && cell % 816 == column) by (nonlinear_arith)
        requires
            cell == 816 * row + column,
            0 <= column < 816,
            0 <= row < 4,
    ;
}

/// A pixel is four bytes: blue, green and red at the level, and full opacity.
pub proof fn law_a_gray_pixel_is_opaque(f: FrameView, x: int, y: int, level: u8)
    ensures
        ({
            let at = y * f.stride + x * 4;
            pixel_is(f, x, y, level) <==> f.pixels[at] == level && f.pixels[at + 1] == level
                && f.pixels[at + 2] == level && f.pixels[at + 3] == 255
        }),
        pixel_at(f, x, y) == y * f.stride + x * 4,
{
}

/// A white cell as a bit.
pub open spec fn white(f: FrameView, cell: int) -> int {
    if cell_is(f, cell, 255) {
        1
    } else {
        0
    }
}

/// Eight cells are one byte of the packet, the first of them its highest bit.
pub proof fn law_eight_cells_are_one_byte(f: FrameView, k: int)
    requires
        0 <= k < 408,
    ensures
        painted_packet(f).len() == 408,
        painted_packet(f)[k] == 128 * white(f, 8 * k) + 64 * white(f, 8 * k + 1) + 32 * white(
            f,
            8 * k + 2,
        ) + 16 * white(f, 8 * k + 3) + 8 * white(f, 8 * k + 4) + 4 * white(f, 8 * k + 5) + 2
            * white(f, 8 * k + 6) + white(f, 8 * k + 7),
{
    reveal_with_fuel(cell_bits, 9);
}

/// The bytes that stand for phases, resolutions, contacts, reasons, spans and modes in a
/// record are numbered in order.
pub proof fn law_record_codes_are_numbered()
    ensures
        phase_code(Phase::Warmup) == 0 && phase_code(Phase::Quiescing) == 1,
        phase_code(Phase::Armed) == 2 && phase_code(Phase::Measured) == 3,
        phase_code(Phase::Drain) == 4 && phase_code(Phase::Ended) == 5,
        resolution_code(Resolution::Presented) == 0,
        resolution_code(Resolution::Discarded) == 1,
        resolution_code(Resolution::Failed) == 2,
        touch_phase_code(TouchPhase::Down) == 0 && touch_phase_code(TouchPhase::Move) == 1,
        touch_phase_code(TouchPhase::Up) == 2 && touch_phase_code(TouchPhase::Cancel) == 3,
        reason_code(DiscardReason::ProducerReclaim) == 0,
        reason_code(DiscardReason::ConsumerSuperseded) == 1,
        reason_code(DiscardReason::MappingClosed) == 2,
        span_kind_code(SpanKind::RenderCallback) == 0,
        span_kind_code(SpanKind::Present) == 1,
        span_kind_code(SpanKind::SupervisorDrive) == 2,
        span_kind_code(SpanKind::Calibration) == 3,
        span_status_code(SpanStatus::Succeeded) == 0,
        span_status_code(SpanStatus::Failed) == 1,
        span_status_code(SpanStatus::Abandoned) == 2,
        mode_code(Mode::A) == 0 && mode_code(Mode::B) == 1 && mode_code(Mode::C) == 2,
{
}

/// The first byte of an observation in a record tells what was observed.
pub proof fn law_an_observation_is_told_by_its_tag(kind: EventKind, rest: Seq<u8>)
    ensures
        put_kind(kind, rest)[0] == (match kind {
            EventKind::RenderAllocated { .. } => 1u8,
            EventKind::RenderFinished { .. } => 2,
            EventKind::Published { .. } => 3,
            EventKind::Selected { .. } => 4,
            EventKind::Discarded { .. } => 5,
            EventKind::PendingDiscarded { .. } => 6,
            EventKind::PresentEntered { .. } => 7,
            EventKind::PresentReturned { .. } => 8,
            EventKind::InputReceived(_) => 9,
            EventKind::PollFailed => 10,
            EventKind::TouchCallbackEntered(_) => 11,
            EventKind::TouchCallbackReturned { .. } => 12,
            EventKind::TimerRegistered { .. } => 13,
            EventKind::TimerActivated { .. } => 14,
            EventKind::TimerCancelled { .. } => 15,
            EventKind::TimerDeadlineShifted { .. } => 16,
            EventKind::TimerDispatched { .. } => 17,
            EventKind::TimerFinished { .. } => 18,
            EventKind::RedrawRequested { .. } => 19,
            EventKind::WorkerLoadFailed => 20,
            EventKind::WorkerLoopFailed => 21,
            EventKind::MinimalSpan(_) => 22,
            EventKind::MinimalSummary(_) => 23,
            EventKind::WorkerCommandFailed => 24,
            EventKind::WorkerRunFailed => 25,
            EventKind::WorkerCaptureConfigured { .. } => 26,
            EventKind::MinimalCalibration { .. } => 27,
            EventKind::BrokerConfigured { .. } => 28,
            EventKind::BrokerOperation { .. } => 29,
            EventKind::FixtureObserved { .. } => 32,
        }),
{
    reveal(put_u8);
}

/// The first byte of an event, and of what a fixture observes, in a record.
pub proof fn law_events_in_records_are_told_by_their_tags(
    event: HardwareEvent,
    seen: ObservationKind,
    rest: Seq<u8>,
)
    ensures
        put_event(event, rest)[0] == (match event {
            HardwareEvent::Touch(_) => 0u8,
            HardwareEvent::Fn { .. } => 1,
            HardwareEvent::Modifier { .. } => 2,
            HardwareEvent::Device { .. } => 3,
            HardwareEvent::Capability { .. } => 4,
            HardwareEvent::Visibility { .. } => 5,
        }),
        put_fixture(seen, rest)[0] == (match seen {
            ObservationKind::Phase(_) => 0u8,
            ObservationKind::Allocated { .. } => 1,
            ObservationKind::Suppressed => 2,
            ObservationKind::Resolved { .. } => 3,
            ObservationKind::WarmupClosed => 4,
            ObservationKind::PeriodicRetired { .. } => 5,
            ObservationKind::ReceiptSupplied { .. } => 6,
            ObservationKind::Delivered { .. } => 7,
            ObservationKind::TokenMutated { .. } => 8,
            ObservationKind::ResponseConfirmed { .. } => 9,
            ObservationKind::Failed => 10,
            ObservationKind::Closed => 11,
        }),
{
    reveal(put_u8);
    reveal(put_event);
    reveal(put_fixture);
}

/// A record is its length in two bytes, its number and its time in eight each, and what was
/// observed, with zeros behind up to five hundred and twelve bytes.
pub proof fn law_a_record_is_laid_out_in_order(r: Record)
    requires
        put_record(r).len() <= 510,
    ensures
        record_block(r).len() == 512,
        record_block(r).take(2) == le_bytes((2 + put_record(r).len()) as nat, 2),
        record_block(r).subrange(2, 10) == le_bytes(r.sequence as nat, 8),
        record_block(r).subrange(10, 18) == le_bytes(r.at_ns as nat, 8),
        record_block(r).subrange(18, 2int + put_record(r).len()) == put_kind(r.kind, Seq::empty()),
        forall|i: int|
            2 + put_record(r).len() <= i < 512 ==> #[trigger] record_block(r)[i] == 0,
{
    reveal(put_u64);
    let body = put_record(r);
    let kind = put_kind(r.kind, Seq::empty());
    lemma_le_bytes_len((2 + body.len()) as nat, 2);
    lemma_le_bytes_len(r.sequence as nat, 8);
    lemma_le_bytes_len(r.at_ns as nat, 8);
    assert(body == le_bytes(r.sequence as nat, 8) + (le_bytes(r.at_ns as nat, 8) + kind));
    assert(record_block(r).take(2) =~= le_bytes((2 + body.len()) as nat, 2));
    assert(record_block(r).subrange(2, 10) =~= le_bytes(r.sequence as nat, 8));
    assert(record_block(r).subrange(10, 18) =~= le_bytes(r.at_ns as nat, 8));
    assert(record_block(r).subrange(18, 2int + body.len()) =~= kind);
}

/// Only a publication and a frame that was given up before it was published carry an
/// allocation.
pub proof fn law_frames_carry_allocations(kind: EventKind)
    ensures
        match kind {
            EventKind::Published { allocation, .. } => carried_allocation(kind) == allocation,
            EventKind::PendingDiscarded { allocation, .. } => carried_allocation(kind)
                == allocation,
            _ => carried_allocation(kind) is None,
        },
{
}

/// New storage says what it is in its first six words: its letters, its version, its role,
/// that it is one source, how many records fit, and how long they are. Everything else is
/// zero.
pub proof fn law_new_storage_says_what_it_is(capacity: nat, role: SourceRole, i: int)
    requires
        1 <= capacity <= 65_536,
        0 <= i < 64 * (1 + capacity),
    ensures
        ({
            let words = fresh_words(capacity, role);
            &&& words.len() == 64 * (1 + capacity)
            &&& words[0] == 0x3130_5741_5256_4c53
            &&& words[1] == 2
            &&& words[2] == (match role {
                SourceRole::Worker => 1u64,
                SourceRole::Broker => 2,
                SourceRole::Supervisor => 3,
            })
            &&& words[3] == 1
            &&& words[4] == capacity
            &&& words[5] == 512
            &&& i > 5 ==> words[i] == 0
        }),
{
}

/// Storage is taken by a writer exactly where it has the right letters, version and role, is
/// one source with room for its records, is as long as it says, and was never used.
pub proof fn law_storage_is_taken_where_it_is_new(words: Seq<u64>, role: SourceRole)
    ensures
        layout_error(words, role) is None <==> {
            &&& words[0] == 0x3130_5741_5256_4c53
            &&& words[1] == 2
            &&& words[2] == role.code()
            &&& words[3] == 1
            &&& 1 <= words[4] <= 65_536
            &&& words[5] == 512
            &&& words.len() == 64 * (1 + words[4])
            &&& words[7] == 0 && words[8] == 0 && words[51] == 0
        },
        match layout_error(words, role) {
            None => true,
            Some(StorageError::Version) => words[0] != 0x3130_5741_5256_4c53 || words[1] != 2,
            Some(StorageError::ExpectedRole) => words[2] != role.code() || words[3] != 1,
            Some(StorageError::Layout) => words[4] < 1 || words[4] > 65_536 || words[5] != 512,
            Some(StorageError::Truncated) => words.len() != 64 * (1 + words[4]),
            Some(StorageError::Used) => words[7] != 0 || words[8] != 0 || words[51] != 0,
            Some(_) => false,
        },
{
}

/// A descriptor is mapped exactly where it is regular, of a sealed size within bounds, and
/// can be written.
pub proof fn law_a_descriptor_is_mapped_where_it_is_sealed(facts: DescriptorFacts)
    ensures
        descriptor_error(facts) is None <==> facts.regular && facts.size_sealed
            && facts.read_write && 512 <= facts.size <= 33_554_944,
        descriptor_error(facts) == Some(StorageError::NotRegular) <==> !facts.regular,
        descriptor_error(facts) == Some(StorageError::Unsealed) <==> facts.regular
            && !facts.size_sealed,
        descriptor_error(facts) == Some(StorageError::NotWritable) <==> facts.regular
            && facts.size_sealed && !facts.read_write,
{
}

/// While words are written the revision is odd, and afterwards it is even again and another
/// one. A record counts one more, and the counters alone count none.
pub proof fn law_the_revision_is_odd_while_words_are_written(w: MappedWriter)
    requires
        w.committed < usize::MAX,
    ensures
        w.begun().revision % 2 == 1,
        w.updated().revision % 2 == 0,
        w.revision % 2 == 0 ==> w.updated().revision != w.revision,
        w.begun().committed == w.committed,
        w.updated().committed == w.committed,
        w.appended().committed == w.committed + 1,
        w.appended().revision % 2 == 1,
        w.appended().capacity == w.capacity && w.appended().role == w.role,
        w.revision < u64::MAX ==> next_revision(w.revision) == w.revision + 1,
        next_revision(u64::MAX) == 0,
        w.revision % 2 == 0 ==> begin_writes(w) == seq![
            WordWrite { index: 7, value: w.begun().revision },
        ],
        w.revision % 2 == 1 ==> begin_writes(w) == Seq::<WordWrite>::empty(),
        forall|before: u64, after: u64| #[trigger]
            revisions_agree(before, after) <==> before == after && after % 2 == 0,
{
}

/// Words are written in order: the last write to a place counts, every other word stays, and
/// nothing is written beyond the end.
pub proof fn law_words_are_written_in_order(words: Seq<u64>, writes: Seq<WordWrite>, w: WordWrite)
    ensures
        written(words, Seq::empty()) == words,
        w.index < written(words, writes).len() ==> written(words, writes.push(w)) == written(
            words,
            writes,
        ).update(w.index as int, w.value),
        w.index >= written(words, writes).len() ==> written(words, writes.push(w)) == written(
            words,
            writes,
        ),
{
    assert(writes.push(w).drop_last() =~= writes);
}

/// The counters stand in their places in the header, and those of a header that does not
/// hold say nothing of closing.
pub proof fn law_counters_stand_in_their_places(words: Seq<u64>, c: Counters)
    ensures
        ({
            let read = stored_counters(words, true);
            &&& read.attempted_records == words[9]
            &&& read.lost == words[10]
            &&& read.clock_failures == words[11]
            &&& read.failed_operations == words[12]
            &&& read.decode_failures == words[13]
            &&& read.after_close == words[14]
            &&& read.closed == (words[15] == 1)
            &&& read.closed_at_ns == (if words[16] == 0xffff_ffff_ffff_ffff {
                None
            } else {
                Some(words[16])
            })
            &&& read.clock_resolution_ns == words[17]
        }),
        !stored_counters(words, false).closed,
        stored_counters(words, false).closed_at_ns is None,
        stored_counters(words, false).lost == words[10],
        ({
            let put = counter_words(c);
            &&& put.len() == 9
            &&& put[0] == c.attempted_records
            &&& put[1] == c.lost
            &&& put[2] == c.clock_failures
            &&& put[3] == c.failed_operations
            &&& put[4] == c.decode_failures
            &&& put[5] == c.after_close
            &&& put[6] == (if c.closed { 1u64 } else { 0u64 })
            &&& c.closed_at_ns is None ==> put[7] == 0xffff_ffff_ffff_ffff
            &&& c.closed_at_ns matches Some(ns) ==> put[7] == ns
            &&& put[8] == c.clock_resolution_ns
        }),
{
}

/// A record that is read from its place carries the number of that place.
pub proof fn law_records_are_read_in_their_places(words: Seq<u64>, i: int)
    ensures
        stored_record(words, i) matches Ok(record) ==> record.sequence == i + 1,
{
}

/// A source is configured as its plan says.
pub proof fn law_a_source_is_configured_as_planned(plan: BootstrapView)
    ensures
        configured(plan) == (EventKind::BrokerConfigured {
            mode: plan.mode,
            start_ns: plan.start_ns,
            rate: plan.rate,
            causal: plan.causal,
        }),
{
}

/// An operation is recorded with whether it succeeded, and nothing else of the source
/// changes. What happens after closing is recorded as such, and before closing nothing is.
pub proof fn law_an_operation_is_recorded(
    s: BrokerSource,
    time: Option<u64>,
    operation: Operation,
    success: bool,
)
    ensures
        s.noted(time, operation, success) == (BrokerSource {
            raw: s.raw.after(time, EventKind::BrokerOperation { operation, success }),
            ..s
        }),
        !s.closed ==> s.active(time) == s,
        s.closed ==> s.active(time) == (BrokerSource {
            raw: s.raw.after(
                time,
                EventKind::BrokerOperation { operation: Operation::AfterClose, success: false },
            ),
            ..s
        }),
{
}

/// A source that closes well was closed on request, with a recorder that lost nothing and a
/// clean timing, and stays closed.
pub proof fn law_a_source_closes_well_where_nothing_was_lost(
    s: BrokerSource,
    explicit: bool,
    at: ClosingTimes,
)
    requires
        !s.closed,
        s.finished(explicit, at).1 is Ok,
    ensures
        explicit,
        s.finished(explicit, at).0.closed,
        s.finished(explicit, at).0.raw.healthy(true),
        s.finished(explicit, at).0.timing.clean(),
        s.finished(explicit, at).0.timing.counters.closed,
        s.finished(explicit, at).0.calls == s.calls,
        s.finished(explicit, at).0.plan == s.plan,
        s.raw.counters.lost == 0 && s.raw.counters.failed_operations == 0,
        s.timing.counters.open_spans == 0 && s.timing.counters.failed_spans == 0,
        at.timing is Some || s.timing.counters.closed,
        at.recorder is Some,
{
}

/// A marker is read in the one mode that paints markers, as it is in the pixels, and in no
/// other mode.
pub proof fn law_markers_are_read_in_one_mode(
    mode: Mode,
    frame: LogicalFrame,
    marker: Option<Result<Marker, DecodeError>>,
)
    ensures
        marker_read(mode, frame, marker) ==> (marker is Some <==> mode is C),
        marker_read(mode, frame, marker) ==> (marker matches Some(m) ==> marker_result(frame, m)),
        mode is C && (marker matches Some(m) && marker_result(frame, m)) ==> marker_read(
            mode,
            frame,
            marker,
        ),
        !(mode is C) && marker is None ==> marker_read(mode, frame, marker),
{
}

/// A presentation that begins is one call more and one span more. A marker is recorded with
/// the call, and one that names another run or generation is recorded as such before.
pub proof fn law_a_presentation_that_begins_is_observed(
    s: BrokerSource,
    mismatch: Option<u64>,
    at: Option<u64>,
    start: Option<u64>,
    marker: Result<Marker, DecodeError>,
)
    requires
        !s.closed,
    ensures
        ({
            let after = s.entered(None, mismatch, at, start, None);
            &&& after.calls == plus_one(s.calls)
            &&& after.timing == s.timing.begun(start)
            &&& after.raw == s.raw
        }),
        ({
            let after = s.entered(None, mismatch, at, start, Some(marker));
            let another = marker matches Ok(m) && (m@.subrange(20, 20 + m@[16]) != s.plan.run
                || m@.subrange(148, 148 + m@[17]) != s.plan.generation);
            let checked = if another {
                s.raw.after(
                    mismatch,
                    EventKind::BrokerOperation {
                        operation: Operation::PlanIdentity,
                        success: false,
                    },
                )
            } else {
                s.raw
            };
            &&& after.calls == plus_one(s.calls)
            &&& after.timing == s.timing.begun(start)
            &&& after.raw == checked.after(
                at,
                EventKind::PresentEntered { call: plus_one(s.calls), marker },
            )
        }),
{
}

/// A presentation that returns ends its span at the reading at which it returned, as a frame
/// that succeeded or failed. The sample is handed to the recorder, and the return itself is
/// recorded in the one mode that observes.
pub proof fn law_a_presentation_that_returns_is_observed(
    s: BrokerSource,
    span: Span,
    call: u64,
    returned: Option<u64>,
    exported: Option<u64>,
    success: bool,
)
    ensures
        ({
            let after = s.returned(span, call, returned, exported, success);
            let status = if success { SpanStatus::Succeeded } else { SpanStatus::Failed };
            let sampled = s.raw.after(
                exported,
                s.timing.exported(span, returned, true, status)->Some_0,
            );
            &&& after.timing == s.timing.completed(span, returned, true, status)
            &&& after.calls == s.calls
            &&& s.plan.mode is C ==> after.raw == sampled.after(
                returned,
                EventKind::PresentReturned { call, success },
            )
            &&& !(s.plan.mode is C) ==> after.raw == sampled
        }),
{
}

/// What is declared is sound: a plan without error, a launcher of the trusted owner, three
/// sources in their roles, four processes that differ, each with a number and a start above
/// zero, and room for at least one and together at most sixty-five thousand five hundred and
/// thirty-six records.
pub proof fn law_what_is_declared_is_sound(
    bytes: Seq<u8>,
    boot: Seq<u8>,
    owner: u32,
    d: DeclarationView,
)
    requires
        declared(bytes, boot, owner) == Ok::<DeclarationView, ProvisioningError>(d),
    ensures
        1 <= bytes.len() <= 4096,
        bytes.last() == 0x0a,
        d.plan.error() is None,
        d.launcher.uid == owner,
        d.worker.role is Worker && d.broker.role is Broker && d.supervisor.role is Supervisor,
        d.launcher.pid > 0 && d.worker.process.pid > 0 && d.broker.process.pid > 0
            && d.supervisor.process.pid > 0,
        d.launcher.start_ticks > 0 && d.worker.process.start_ticks > 0
            && d.broker.process.start_ticks > 0 && d.supervisor.process.start_ticks > 0,
        d.launcher.pid != d.worker.process.pid,
        d.launcher.pid != d.broker.process.pid && d.worker.process.pid != d.broker.process.pid,
        d.launcher.pid != d.supervisor.process.pid && d.worker.process.pid
            != d.supervisor.process.pid && d.broker.process.pid != d.supervisor.process.pid,
        d.worker.capacity >= 1 && d.broker.capacity >= 1 && d.supervisor.capacity >= 1,
        d.worker.capacity + d.broker.capacity + d.supervisor.capacity <= 65_536,
{
    let first = seq![d.launcher.pid];
    let second = seq![d.launcher.pid, d.worker.process.pid];
    let third = seq![d.launcher.pid, d.worker.process.pid, d.broker.process.pid];
    assert(first[0] == d.launcher.pid);
    assert(second[0] == d.launcher.pid && second[1] == d.worker.process.pid);
    assert(third[0] == d.launcher.pid && third[1] == d.worker.process.pid && third[2]
        == d.broker.process.pid);
    assert(first.contains(d.launcher.pid));
    assert(second.contains(d.launcher.pid) && second.contains(d.worker.process.pid));
    assert(third.contains(d.launcher.pid) && third.contains(d.worker.process.pid)
        && third.contains(d.broker.process.pid));
}

/// Records, storage and sources are refused with these words.
pub proof fn law_records_storage_and_sources_say_why()
    ensures
        RecordError::AllocationId.text() == "invalid raw fixture allocation id"@,
        RecordError::AllocationTokenTime.text() == "invalid raw fixture allocation token/time"@,
        RecordError::Truncated.text() == "truncated raw record"@,
        RecordError::Boolean.text() == "invalid raw boolean"@,
        RecordError::MarkerPacket.text() == "invalid exported marker packet"@,
        RecordError::MarkerStatus.text() == "invalid raw marker status"@,
        RecordError::FixturePhase.text() == "invalid raw fixture phase"@,
        RecordError::FixtureResolution.text() == "invalid raw fixture resolution"@,
        RecordError::FixtureTouchPhase.text() == "invalid raw fixture touch phase"@,
        RecordError::FixtureTag.text() == "invalid raw fixture observation tag"@,
        RecordError::TouchPhase.text() == "invalid raw touch phase"@,
        RecordError::Length.text() == "invalid raw record length"@,
        RecordError::Padding.text() == "nonzero raw record padding"@,
        RecordError::Discard.text() == "invalid raw discard reason"@,
        RecordError::Modifier.text() == "invalid raw modifier"@,
        RecordError::Capability.text() == "invalid raw hardware capability"@,
        RecordError::Event.text() == "invalid raw hardware event"@,
        RecordError::Disposition.text() == "invalid raw timer disposition"@,
        RecordError::SpanKind.text() == "invalid raw minimal span kind"@,
        RecordError::SpanStatus.text() == "invalid raw minimal span status"@,
        RecordError::Mode.text() == "invalid raw capture mode"@,
        RecordError::Operation.text() == "unknown broker observation operation"@,
        RecordError::Tag.text() == "unknown raw event tag"@,
        RecordError::Trailing.text() == "trailing raw record bytes"@,
        StorageError::Capacity.text() == "raw capture capacity outside 1..=65536"@,
        StorageError::TicketTaken.text() == "worker capture ticket already taken"@,
        StorageError::Role.text() == "capture ticket is for another role"@,
        StorageError::NotRegular.text() == "raw storage is not a regular memfd"@,
        StorageError::Unsealed.text() == "raw storage lacks immutable size seals"@,
        StorageError::NotWritable.text() == "raw storage is not writable"@,
        StorageError::SizeBound.text() == "raw storage size outside bound"@,
        StorageError::Version.text() == "unsupported raw storage version"@,
        StorageError::ExpectedRole.text()
            == "raw storage is not exactly one source of the expected role"@,
        StorageError::PageSize.text() == "invalid raw capture page size"@,
        StorageError::Layout.text() == "invalid raw storage layout"@,
        StorageError::Truncated.text() == "truncated raw storage layout"@,
        StorageError::Used.text() == "raw storage already used"@,
        StorageError::Claimed.text() == "raw storage already claimed"@,
        StorageError::Full.text() == "raw recording storage full"@,
        StorageError::CommittedCount.text() == "raw committed count exceeds capacity"@,
        StorageError::Discontinuous.text() == "raw record sequence is discontinuous"@,
        SourceError::NotBroker.text() == "writer is not broker-bound"@,
        SourceError::PastEpoch.text() == "broker capture epoch is not future"@,
        SourceError::CalibrationEpoch.text() == "broker calibration reached declared epoch"@,
        SourceError::Incomplete.text() == "broker source incomplete or unhealthy"@,
{
}

/// A source closes well wherever it is closed on request, at known times, with a healthy
/// recorder that has room for the two last records, and a calibrated timing without trouble.
pub proof fn law_a_sound_source_closes_well(s: BrokerSource, at: ClosingTimes)
    requires
        s.wf(),
        !s.closed,
        s.raw.healthy(false),
        s.raw.stored + 2 <= s.raw.capacity,
        !s.timing.counters.closed,
        s.timing.counters.open_spans == 0,
        s.timing.counters.failed_spans == 0,
        s.timing.counters.lost == 0,
        s.timing.counters.after_close == 0,
        s.timing.counters.clock_failures == 0,
        s.timing.counters.counter_cost_samples_ns is Some,
        at.timing is Some && at.summary is Some && at.operation is Some && at.recorder is Some,
    ensures
        s.finished(true, at).1 is Ok,
        s.finished(true, at).0.raw.stored == s.raw.stored + 2,
{
}

/// An allocation is refused by its identity where that is out of range, and otherwise by its
/// token and time.
pub proof fn law_an_allocation_is_refused_by_what_is_wrong(a: FrameAllocation)
    ensures
        allocation_error(a) is None <==> a.valid(),
        allocation_error(a) == Some(RecordError::AllocationId) <==> a.id == 0 || a.id
            > 0x7fff_ffff_ffff_ffff,
        allocation_error(a) == Some(RecordError::AllocationTokenTime) <==> 1 <= a.id
            <= 0x7fff_ffff_ffff_ffff && (a.token > 0x7fff_ffff_ffff_ffff || a.allocated_ns == 0
            || a.allocated_ns > 0x7fff_ffff_ffff_ffff),
{
}

/// A calibration whose recorder is unhealthy is refused with the words of the recorder.
pub proof fn law_an_unhealthy_recorder_refuses_the_calibration()
    ensures
        recorder_unhealthy().text()
            == "raw diagnostic source has wrong closure state or errors/loss"@,
{
}

/// A source that is closed stays as it is, and closing it again asks its recorder alone. One
/// that is given up, or whose timing is not clean, does not close well.
pub proof fn law_closing_again_asks_the_recorder(
    s: BrokerSource,
    explicit: bool,
    at: ClosingTimes,
)
    ensures
        s.closed ==> s.finished(explicit, at).0 == s,
        s.closed ==> (s.finished(explicit, at).1 is Ok <==> s.raw.healthy(true)),
        s.closed ==> (s.finished(explicit, at).1 matches Err(e) ==> e == SourceError::Capture(
            CaptureError::Unhealthy,
        )),
        !s.closed ==> s.finished(explicit, at).0.closed,
        !s.closed && !explicit ==> s.finished(explicit, at).1 is Err,
        !s.closed ==> (s.finished(explicit, at).1 matches Err(e) ==> e == SourceError::Incomplete
            || e == SourceError::Capture(CaptureError::Unhealthy)),
        !s.closed ==> (s.finished(explicit, at).1 == Err::<(), SourceError>(SourceError::Incomplete)
            ==> s.concluded(explicit, at).raw.healthy(false)),
{
}

/// The records of storage are those of its places, in order, and none can be read where one
/// before it cannot.
pub proof fn law_all_records_are_read_in_order(words: Seq<u64>, n: int)
    requires
        n >= 0,
    ensures
        stored_records(words, n) matches Ok(records) ==> records.len() == n && forall|i: int|
            0 <= i < n ==> stored_record(words, i) == Ok::<Record, StorageError>(
                #[trigger] records[i],
            ),
        (forall|i: int| 0 <= i < n ==> #[trigger] stored_record(words, i) is Ok) ==> stored_records(
            words,
            n,
        ) is Ok,
    decreases n,
{
    if n > 0 {
        law_all_records_are_read_in_order(words, n - 1);
    }
}

/// A record counts with the last word that is written for it, and the counters hold with the
/// last two.
pub proof fn law_what_is_written_counts_at_the_end(
    w: MappedWriter,
    record: Record,
    c: Counters,
    i: int,
)
    requires
        w.committed < 0xffff_ffff,
    ensures
        ({
            let begun: int = if w.revision % 2 == 0 {
                1
            } else {
                0
            };
            let put = append_writes(w, record);
            let kept = metadata_writes(w, c);
            &&& put.len() == begun + 65
            &&& put.last() == (WordWrite { index: 8, value: (w.committed + 1) as u64 })
            &&& 0 <= i < 64 ==> put[begun + i].index == (64 + 64 * w.committed + i) as usize
            &&& 0 <= i < 64 ==> put[begun + i].value == le_value(
                record_block(record).subrange(8 * i, 8 * i + 8),
            ) as u64
            &&& kept.len() == begun + 43
            &&& 0 <= i < 9 ==> kept[begun + i] == (WordWrite {
                index: (9 + i) as usize,
                value: counter_words(c)[i],
            })
            &&& 0 <= i < 32 ==> kept[begun + 9 + i] == (WordWrite {
                index: (19 + i) as usize,
                value: c.clock_read_samples_ns@[i],
            })
            &&& kept[begun + 41] == (WordWrite { index: 51, value: 1 })
            &&& kept[begun + 42] == (WordWrite { index: 7, value: w.updated().revision })
        }),
{
}

} // verus!
