//! What recording and timing are for.
use vstd::prelude::*;

use crate::events::{EventKind, ObservationKind, Sample, SpanStatus};
use crate::capture_storage::MappedWriter;
use crate::hardware::{HardwareEvent, LogicalFrame};
use crate::marker::{
    cells_clean, marker_geometry, painted_packet, valid_packet, DecodeError, Marker,
};
use crate::observer::{
    initial_view, is_decode_failure, is_failure, marker_result, plus_one, received_kinds,
    zero_counters, CaptureError, CaptureView,
};
use crate::timing::{reading, shared_healthy, summary_of, Span, TimingError, TimingView};

verus! {

/// A counter goes up by one, and stays where it can go no further.
pub proof fn law_a_counter_goes_up_by_one(n: u64)
    ensures
        n < 0xffff_ffff_ffff_ffff ==> plus_one(n) == n + 1,
        n == 0xffff_ffff_ffff_ffff ==> plus_one(n) == n,
{
}

/// Exactly the observations that say that something failed count as failures: a render
/// without a picture, a call or an operation that did not succeed, a worker or a poll that
/// failed, a fixture that failed or whose frame did, and a span that did not succeed.
pub proof fn law_a_failure_is_what_says_so(kind: EventKind)
    ensures
        match kind {
            EventKind::RenderFinished { marker, .. } => is_failure(kind) == (marker is None),
            EventKind::PresentReturned { success, .. } => is_failure(kind) == !success,
            EventKind::TouchCallbackReturned { success, .. } => is_failure(kind) == !success,
            EventKind::TimerFinished { success, .. } => is_failure(kind) == !success,
            EventKind::BrokerOperation { success, .. } => is_failure(kind) == !success,
            EventKind::MinimalSpan(sample) => is_failure(kind) == !(sample.status is Succeeded),
            EventKind::FixtureObserved { kind: seen, .. } => is_failure(kind) == (seen is Failed
                || (seen matches ObservationKind::Resolved { resolution, .. }
                && resolution is Failed)),
            _ => is_failure(kind) == (kind is WorkerLoadFailed || kind is WorkerLoopFailed
                || kind is WorkerCommandFailed || kind is WorkerRunFailed || kind is PollFailed),
        },
{
}

/// Exactly the observations of a frame without a readable marker count as failed decodes.
pub proof fn law_a_failed_decode_is_what_says_so(kind: EventKind)
    ensures
        match kind {
            EventKind::RenderFinished { marker, .. } => is_decode_failure(kind) == (marker matches
                Some(read) && read is Err),
            EventKind::Published { marker, .. } => is_decode_failure(kind) == (marker is Err),
            EventKind::PresentEntered { marker, .. } => is_decode_failure(kind) == (marker is Err),
            EventKind::PendingDiscarded { marker, .. } => is_decode_failure(kind) == (marker
                is Err),
            _ => !is_decode_failure(kind),
        },
{
}

/// An observation that is offered to an open recorder with room is kept behind the others,
/// as it was made, at the time at which it was made, under the next number. Offered to a
/// closed or a full one it is lost. Either way it is counted, once in each counter that it
/// is about, and no other counter moves.
pub proof fn law_an_observation_is_kept_or_counted_as_lost(
    c: CaptureView,
    time: Option<u64>,
    kind: EventKind,
)
    requires
        c.mapped is None,
        c.counters.attempted_records < u64::MAX,
        c.counters.lost < u64::MAX,
        c.counters.clock_failures < u64::MAX,
        c.counters.failed_operations < u64::MAX,
        c.counters.decode_failures < u64::MAX,
        c.counters.after_close < u64::MAX,
    ensures
        ({
            let after = c.after(time, kind);
            let kept = !c.counters.closed && c.stored < c.capacity;
            &&& kept ==> {
                &&& after.records.len() == c.records.len() + 1
                &&& after.records.take(c.records.len() as int) == c.records
                &&& after.records.last().kind == kind
                &&& time matches Some(ns) ==> after.records.last().at_ns == ns
                &&& after.records.last().sequence == c.counters.attempted_records + 1
                &&& after.stored == c.stored + 1
            }
            &&& !kept ==> after.records == c.records && after.stored == c.stored
            &&& after.counters.attempted_records == c.counters.attempted_records + 1
            &&& after.counters.lost == c.counters.lost + (if kept { 0int } else { 1 })
            &&& after.counters.clock_failures == c.counters.clock_failures + (if time is None {
                1int
            } else {
                0
            })
            &&& after.counters.failed_operations == c.counters.failed_operations + (if is_failure(
                kind,
            ) {
                1int
            } else {
                0
            })
            &&& after.counters.decode_failures == c.counters.decode_failures + (
            if is_decode_failure(kind) {
                1int
            } else {
                0
            })
            &&& after.counters.after_close == c.counters.after_close + (if c.counters.closed {
                1int
            } else {
                0
            })
            &&& after.counters.closed == c.counters.closed
            &&& after.counters.closed_at_ns == c.counters.closed_at_ns
            &&& after.counters.clock_resolution_ns == c.counters.clock_resolution_ns
            &&& after.counters.clock_read_samples_ns == c.counters.clock_read_samples_ns
            &&& after.capacity == c.capacity
            &&& after.renders == c.renders
            &&& after.calls == c.calls
        }),
{
    let after = c.after(time, kind);
    if !c.counters.closed && c.stored < c.capacity {
        assert(after.records.take(c.records.len() as int) =~= c.records);
    }
}

/// Closing a recorder notes the time, keeps every record and every count, and counts a clock
/// that could not be read. Closing it again changes no count.
pub proof fn law_closing_a_recorder_keeps_what_it_holds(
    c: CaptureView,
    time: Option<u64>,
    later: Option<u64>,
)
    requires
        c.mapped is None,
        !c.counters.closed,
    ensures
        ({
            let after = c.finished(time);
            &&& after.counters.closed
            &&& after.counters.closed_at_ns == time
            &&& after.records == c.records
            &&& after.stored == c.stored
            &&& after.counters.attempted_records == c.counters.attempted_records
            &&& after.counters.lost == c.counters.lost
            &&& after.counters.failed_operations == c.counters.failed_operations
            &&& after.counters.decode_failures == c.counters.decode_failures
            &&& after.counters.after_close == c.counters.after_close
            &&& time is Some ==> after.counters.clock_failures == c.counters.clock_failures
            &&& time is None && c.counters.clock_failures < u64::MAX
                ==> after.counters.clock_failures == c.counters.clock_failures + 1
            &&& after.finished(later) == after
        }),
{
}

/// A recorder is healthy exactly where it is open or closed as asked, at a known time where
/// it is closed, and nothing was lost, failed, could not be read, or came too late.
pub proof fn law_a_healthy_recorder_lost_nothing(c: CaptureView, closed: bool)
    ensures
        c.healthy(closed) <==> {
            &&& c.counters.closed == closed
            &&& closed ==> c.counters.closed_at_ns is Some
            &&& c.counters.lost == 0
            &&& c.counters.clock_failures == 0
            &&& c.counters.failed_operations == 0
            &&& c.counters.decode_failures == 0
            &&& c.counters.after_close == 0
        },
        shared_healthy(None),
        shared_healthy(Some(c)) <==> c.healthy(false),
{
}

/// A new recorder has counted nothing and is open.
pub proof fn law_a_new_recorder_has_counted_nothing(samples: [u64; 32], resolution_ns: u64)
    ensures
        ({
            let c = zero_counters(samples, resolution_ns);
            &&& c.attempted_records == 0 && c.lost == 0 && c.clock_failures == 0
            &&& c.failed_operations == 0 && c.decode_failures == 0 && c.after_close == 0
            &&& !c.closed && c.closed_at_ns is None
            &&& c.clock_resolution_ns == resolution_ns
            &&& c.clock_read_samples_ns == samples
        }),
{
}

/// Every event of a poll is observed as received, in order.
pub proof fn law_every_event_of_a_poll_is_observed(events: Seq<HardwareEvent>, i: int)
    requires
        0 <= i < events.len(),
    ensures
        received_kinds(events).len() == events.len(),
        received_kinds(events)[i] == EventKind::InputReceived(events[i]),
{
}

/// A recorder and a timing refuse with these words.
pub proof fn law_recorders_say_why()
    ensures
        CaptureError::Capacity.text() == "diagnostic capacity outside 1..=65536"@,
        CaptureError::ClockRead.text() == "reading diagnostic CLOCK_MONOTONIC failed"@,
        CaptureError::ClockInvalid.text() == "invalid monotonic time"@,
        CaptureError::ClockOverflow.text() == "monotonic nanoseconds overflow"@,
        CaptureError::ClockRegressed.text() == "monotonic clock regressed"@,
        CaptureError::Unhealthy.text()
            == "raw diagnostic source has wrong closure state or errors/loss"@,
        TimingError::Capacity.text() == "timing capacity outside 1..=65536"@,
        TimingError::Late.text() == "minimal calibration must precede work and closure"@,
        TimingError::Overlap.text() == "minimal calibration overlaps work or has errors/loss"@,
        TimingError::ClockRegressed.text() == "monotonic calibration clock regressed"@,
        TimingError::Capture(CaptureError::ClockInvalid).text() == "invalid monotonic time"@,
{
}

/// A span that begins is counted as begun and as open. Nothing else is counted but a clock
/// that could not be read and a timing that was closed.
pub proof fn law_a_span_that_begins_is_open(t: TimingView, start: Option<u64>)
    requires
        t.counters.started_spans < u64::MAX,
        t.counters.open_spans < u64::MAX,
        t.counters.clock_failures < u64::MAX,
        t.counters.after_close < u64::MAX,
    ensures
        ({
            let after = t.begun(start);
            &&& after.records == t.records && after.exporting == t.exporting
            &&& after.counters.started_spans == t.counters.started_spans + 1
            &&& after.counters.open_spans == t.counters.open_spans + 1
            &&& after.counters.completed_spans == t.counters.completed_spans
            &&& after.counters.failed_spans == t.counters.failed_spans
            &&& after.counters.lost == t.counters.lost
            &&& after.counters.closed == t.counters.closed
            &&& after.counters.closed_at_ns == t.counters.closed_at_ns
            &&& after.counters.clock_failures == t.counters.clock_failures + (if start is None {
                1int
            } else {
                0
            })
            &&& after.counters.after_close == t.counters.after_close + (if t.counters.closed {
                1int
            } else {
                0
            })
        }),
        start matches Some(ns) ==> reading(start) == ns,
        start is None ==> reading(start) == 0,
{
}

/// A span that ends is open no more and counted as completed, and as failed where it did
/// not succeed. In an open timing with room its sample is kept behind the others, with the
/// identity, kind and start of the span, its end, and how it ended. In a closed or a full
/// one it is lost.
pub proof fn law_a_span_that_ends_is_kept_or_counted_as_lost(
    t: TimingView,
    span: Span,
    end: u64,
    frame_bearing: bool,
    status: SpanStatus,
)
    requires
        !t.exporting,
        t.counters.open_spans >= 1,
        t.counters.completed_spans < u64::MAX,
        t.counters.failed_spans < u64::MAX,
        t.counters.clock_failures < u64::MAX,
        t.counters.after_close < u64::MAX,
        t.counters.lost < u64::MAX,
    ensures
        ({
            let after = t.completed(span, Some(end), frame_bearing, status);
            let kept = !t.counters.closed && t.records.len() < t.counters.capacity;
            &&& kept ==> {
                &&& after.records.len() == t.records.len() + 1
                &&& after.records.take(t.records.len() as int) == t.records
                &&& after.records.last() == (Sample {
                    sequence: (t.counters.completed_spans + 1) as u64,
                    span_id: span.sequence,
                    kind: span.kind,
                    start_ns: span.start_ns,
                    end_ns: end,
                    frame_bearing,
                    status,
                })
            }
            &&& !kept ==> after.records == t.records
            &&& after.counters.lost == t.counters.lost + (if kept { 0int } else { 1 })
            &&& after.counters.open_spans == t.counters.open_spans - 1
            &&& after.counters.completed_spans == t.counters.completed_spans + 1
            &&& after.counters.failed_spans == t.counters.failed_spans + (if status is Succeeded {
                0int
            } else {
                1
            })
            &&& after.counters.clock_failures == t.counters.clock_failures + (if end
                < span.start_ns {
                1int
            } else {
                0
            })
            &&& after.counters.after_close == t.counters.after_close + (if t.counters.closed {
                1int
            } else {
                0
            })
            &&& after.counters.started_spans == t.counters.started_spans
            &&& after.counters.closed == t.counters.closed
            &&& after.counters.closed_at_ns == t.counters.closed_at_ns
            &&& after.counters.counter_cost_samples_ns == t.counters.counter_cost_samples_ns
        }),
        t.exported(span, Some(end), frame_bearing, status) is None,
{
    let after = t.completed(span, Some(end), frame_bearing, status);
    if !t.counters.closed && t.records.len() < t.counters.capacity {
        assert(after.records.take(t.records.len() as int) =~= t.records);
    }
}

/// A timing that hands its samples out keeps none and loses none before it is closed: the
/// shared recorder is offered the sample of every span that ends, and once the timing is
/// closed its counters instead.
pub proof fn law_an_exporting_timing_hands_every_sample_out(
    t: TimingView,
    span: Span,
    end: u64,
    frame_bearing: bool,
    status: SpanStatus,
)
    requires
        t.exporting,
        t.counters.open_spans >= 1,
        t.counters.completed_spans < u64::MAX,
        t.counters.lost < u64::MAX,
    ensures
        ({
            let after = t.completed(span, Some(end), frame_bearing, status);
            let export = t.exported(span, Some(end), frame_bearing, status);
            &&& after.records == t.records
            &&& !t.counters.closed ==> after.counters.lost == t.counters.lost && export == Some(
                EventKind::MinimalSpan(
                    Sample {
                        sequence: (t.counters.completed_spans + 1) as u64,
                        span_id: span.sequence,
                        kind: span.kind,
                        start_ns: span.start_ns,
                        end_ns: end,
                        frame_bearing,
                        status,
                    },
                ),
            )
            &&& t.counters.closed ==> after.counters.lost == t.counters.lost + 1 && export == Some(
                EventKind::MinimalSummary(summary_of(after.counters)),
            )
        }),
{
}

/// A summary says what the counters say.
pub proof fn law_a_summary_says_what_was_counted(t: TimingView)
    ensures
        ({
            let c = t.counters;
            let s = summary_of(c);
            &&& s.capacity == c.capacity
            &&& s.started_spans == c.started_spans
            &&& s.completed_spans == c.completed_spans
            &&& s.open_spans == c.open_spans
            &&& s.failed_spans == c.failed_spans
            &&& s.lost == c.lost
            &&& s.after_close == c.after_close
            &&& s.clock_failures == c.clock_failures
            &&& s.closed_at_ns == c.closed_at_ns
            &&& s.clock_resolution_ns == c.clock_resolution_ns
            &&& s.record_bytes == c.record_bytes
            &&& s.clock_read_samples_ns == c.clock_read_samples_ns
        }),
{
}

/// Closing a timing notes the time and keeps every sample and every count. Closing it again
/// changes nothing.
pub proof fn law_closing_a_timing_keeps_what_it_holds(
    t: TimingView,
    now: Option<u64>,
    later: Option<u64>,
)
    requires
        !t.counters.closed,
    ensures
        ({
            let after = t.closed_at(now);
            &&& after.counters.closed
            &&& after.counters.closed_at_ns == now
            &&& after.records == t.records
            &&& after.exporting == t.exporting
            &&& after.counters.started_spans == t.counters.started_spans
            &&& after.counters.completed_spans == t.counters.completed_spans
            &&& after.counters.open_spans == t.counters.open_spans
            &&& after.counters.failed_spans == t.counters.failed_spans
            &&& after.counters.lost == t.counters.lost
            &&& after.counters.after_close == t.counters.after_close
            &&& now is Some ==> after.counters.clock_failures == t.counters.clock_failures
            &&& now is None && t.counters.clock_failures < u64::MAX
                ==> after.counters.clock_failures == t.counters.clock_failures + 1
            &&& after.closed_at(later) == after
        }),
{
}

/// A calibration is thirty-two spans that began and ended without any trouble, and nothing
/// besides. A clean timing has nothing open, failed, lost or late, was closed at a known
/// time, and was calibrated.
pub proof fn law_calibrated_and_clean_timings_had_no_trouble(t: TimingView)
    ensures
        t.probed() <==> {
            &&& !t.counters.closed
            &&& t.counters.started_spans == 32
            &&& t.counters.completed_spans == 32
            &&& t.counters.open_spans == 0
            &&& t.counters.failed_spans == 0
            &&& t.counters.clock_failures == 0
            &&& t.counters.lost == 0
        },
        t.clean() <==> {
            &&& t.counters.open_spans == 0
            &&& t.counters.failed_spans == 0
            &&& t.counters.lost == 0
            &&& t.counters.after_close == 0
            &&& t.counters.clock_failures == 0
            &&& t.counters.closed_at_ns is Some
            &&& t.counters.counter_cost_samples_ns is Some
        },
{
}

/// A recorder over mapped storage keeps an observation under the same conditions, but for one
/// that carries an allocation out of range, and writes it to storage instead of holding it.
pub proof fn law_mapped_storage_keeps_what_has_a_block(
    c: CaptureView,
    writer: MappedWriter,
    time: Option<u64>,
    kind: EventKind,
)
    requires
        c.mapped == Some(writer),
    ensures
        ({
            let after = c.after(time, kind);
            let allocated = match kind {
                EventKind::Published { allocation: Some(a), .. } => a.valid(),
                EventKind::PendingDiscarded { allocation: Some(a), .. } => a.valid(),
                _ => true,
            };
            let kept = !c.counters.closed && c.stored < c.capacity && allocated;
            &&& after.records == c.records
            &&& after.stored == c.stored + (if kept { 1int } else { 0 })
            &&& kept ==> after.mapped == Some(writer.appended().updated())
            &&& !kept ==> after.mapped == Some(writer.updated())
            &&& c.pending.is_prefix_of(after.pending)
        }),
{
    let after = c.after(time, kind);
    assert(c.pending =~= after.pending.take(c.pending.len() as int));
}

/// What reading a marker gives is what the pixels hold: no marker in a frame of another size,
/// none where a cell is not clean, none where the packet is not well formed, and otherwise
/// the packet itself.
pub proof fn law_a_marker_is_read_from_the_pixels(
    frame: LogicalFrame,
    m: Result<Marker, DecodeError>,
)
    requires
        marker_result(frame, m),
    ensures
        m is Ok <==> marker_geometry(frame@) && cells_clean(frame@, 3264) && valid_packet(
            painted_packet(frame@),
        ),
        m matches Ok(marker) ==> marker@ == painted_packet(frame@),
        m == Err::<Marker, DecodeError>(DecodeError::Geometry) <==> !marker_geometry(frame@),
        m == Err::<Marker, DecodeError>(DecodeError::Cell) <==> marker_geometry(frame@)
            && !cells_clean(frame@, 3264),
{
}

/// A recorder that was just made holds nothing and has its whole room.
pub proof fn law_a_new_recorder_holds_nothing(
    capacity: nat,
    samples: [u64; 32],
    resolution_ns: u64,
)
    ensures
        ({
            let c = initial_view(capacity, samples, resolution_ns, None, Seq::empty());
            &&& c.records.len() == 0 && c.stored == 0
            &&& c.capacity == capacity
            &&& c.renders == 0 && c.calls == 0
            &&& c.mapped is None && c.pending.len() == 0
            &&& c.healthy(false)
        }),
{
}

} // verus!
