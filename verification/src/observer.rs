//! A bounded recorder of raw observations.
//!
//! A recorder counts everything that was offered to it, keeps what fits, and says
//! what it lost. Closing it describes storage, not the success of any work.
use vstd::prelude::*;

use crate::capture_storage::{append_writes, metadata_writes, MappedWriter, WordWrite};
use crate::events::{EventKind, ObservationKind, Record, Resolution, SpanStatus};
use crate::hardware::{HardwareEvent, LogicalFrame};
use crate::marker::{
    cells_clean, decode, marker_geometry, painted_packet, valid_packet, DecodeError, Marker,
};
use crate::record_layout::{carried_allocation, RECORD_BYTES};

verus! {

/// The most records that a recorder can hold.
pub const MAX_RECORDS: usize = 65_536;

/// Why a recorder is refused or unhealthy.
#[derive(Clone, Copy, Debug, PartialEq, Eq, Structural)]
pub enum CaptureError {
    Capacity,
    ClockRead,
    ClockInvalid,
    ClockOverflow,
    ClockRegressed,
    Unhealthy,
}

impl CaptureError {
    /// The words of an error.
    pub open spec fn text(self) -> Seq<char> {
        match self {
            CaptureError::Capacity => "diagnostic capacity outside 1..=65536"@,
            CaptureError::ClockRead => "reading diagnostic CLOCK_MONOTONIC failed"@,
            CaptureError::ClockInvalid => "invalid monotonic time"@,
            CaptureError::ClockOverflow => "monotonic nanoseconds overflow"@,
            CaptureError::ClockRegressed => "monotonic clock regressed"@,
            CaptureError::Unhealthy =>
            "raw diagnostic source has wrong closure state or errors/loss"@,
        }
    }

    /// The words of this error.
    pub fn message(self) -> (s: &'static str)
        ensures
            s@ == self.text(),
    {
        match self {
            CaptureError::Capacity => "diagnostic capacity outside 1..=65536",
            CaptureError::ClockRead => "reading diagnostic CLOCK_MONOTONIC failed",
            CaptureError::ClockInvalid => "invalid monotonic time",
            CaptureError::ClockOverflow => "monotonic nanoseconds overflow",
            CaptureError::ClockRegressed => "monotonic clock regressed",
            CaptureError::Unhealthy =>
            "raw diagnostic source has wrong closure state or errors/loss",
        }
    }
}

/// The nanoseconds of a clock reading in seconds and nanoseconds.
pub fn clock_ns(read: bool, seconds: i64, nanoseconds: i64) -> (r: Result<u64, CaptureError>)
    ensures
        r == (if !read {
            Err::<u64, CaptureError>(CaptureError::ClockRead)
        } else if seconds < 0 || !(0 <= nanoseconds < 1_000_000_000) {
            Err(CaptureError::ClockInvalid)
        } else if seconds * 1_000_000_000 + nanoseconds > u64::MAX {
            Err(CaptureError::ClockOverflow)
        } else {
            Ok((seconds * 1_000_000_000 + nanoseconds) as u64)
        }),
{
    if !read {
        return Err(CaptureError::ClockRead);
    }
    if seconds < 0 || nanoseconds < 0 || nanoseconds >= 1_000_000_000 {
        return Err(CaptureError::ClockInvalid);
    }
    match (seconds as u64).checked_mul(1_000_000_000) {
        Some(whole) => match whole.checked_add(nanoseconds as u64) {
            Some(ns) => Ok(ns),
            None => Err(CaptureError::ClockOverflow),
        },
        None => Err(CaptureError::ClockOverflow),
    }
}

/// The time between two readings of the clock.
pub fn clock_read_cost(start: Result<u64, CaptureError>, end: Result<u64, CaptureError>) -> (r:
    Result<u64, CaptureError>)
    ensures
        r == (match (start, end) {
            (Err(e), _) => Err::<u64, CaptureError>(e),
            (Ok(_), Err(e)) => Err(e),
            (Ok(a), Ok(b)) => if b >= a {
                Ok((b - a) as u64)
            } else {
                Err(CaptureError::ClockRegressed)
            },
        }),
{
    match (start, end) {
        (Err(e), _) => Err(e),
        (Ok(_), Err(e)) => Err(e),
        (Ok(a), Ok(b)) => if b >= a {
            Ok(b - a)
        } else {
            Err(CaptureError::ClockRegressed)
        },
    }
}

/// The counters of a recorder.
#[derive(Clone, Copy, Debug)]
pub struct Counters {
    pub attempted_records: u64,
    pub lost: u64,
    pub clock_failures: u64,
    /// Failed observations, not distinct failed operations.
    pub failed_operations: u64,
    /// Failed decodes, not distinct frames.
    pub decode_failures: u64,
    pub after_close: u64,
    pub closed: bool,
    pub closed_at_ns: Option<u64>,
    pub clock_resolution_ns: u64,
    pub clock_read_samples_ns: [u64; 32],
}

/// What a recorder holds.
pub struct Report {
    pub records: Vec<Record>,
    pub capacity: usize,
    pub record_bytes: usize,
    pub counters: Counters,
}

/// One more, up to the largest number.
pub open spec fn plus_one(n: u64) -> u64 {
    if n == u64::MAX {
        n
    } else {
        (n + 1) as u64
    }
}

/// An observation that something failed. Summaries repeat earlier failures and
/// count for none.
pub open spec fn is_failure(kind: EventKind) -> bool {
    match kind {
        EventKind::RenderFinished { marker, .. } => marker is None,
        EventKind::PresentReturned { success, .. } => !success,
        EventKind::TouchCallbackReturned { success, .. } => !success,
        EventKind::TimerFinished { success, .. } => !success,
        EventKind::WorkerLoadFailed => true,
        EventKind::WorkerLoopFailed => true,
        EventKind::WorkerCommandFailed => true,
        EventKind::WorkerRunFailed => true,
        EventKind::PollFailed => true,
        EventKind::BrokerOperation { success, .. } => !success,
        EventKind::FixtureObserved { kind, .. } => match kind {
            ObservationKind::Failed => true,
            ObservationKind::Resolved { resolution, .. } => resolution == Resolution::Failed,
            _ => false,
        },
        EventKind::MinimalSpan(sample) => sample.status != SpanStatus::Succeeded,
        _ => false,
    }
}

/// An observation that a frame carried no readable marker.
pub open spec fn is_decode_failure(kind: EventKind) -> bool {
    match kind {
        EventKind::RenderFinished { marker, .. } => marker matches Some(m) && m is Err,
        EventKind::Published { marker, .. } => marker is Err,
        EventKind::PresentEntered { marker, .. } => marker is Err,
        EventKind::PendingDiscarded { marker, .. } => marker is Err,
        _ => false,
    }
}

fn counts_as_failure(kind: &EventKind) -> (r: bool)
    ensures
        r == is_failure(*kind),
{
    match kind {
        EventKind::RenderFinished { marker, .. } => marker.is_none(),
        EventKind::PresentReturned { success, .. } => !*success,
        EventKind::TouchCallbackReturned { success, .. } => !*success,
        EventKind::TimerFinished { success, .. } => !*success,
        EventKind::WorkerLoadFailed => true,
        EventKind::WorkerLoopFailed => true,
        EventKind::WorkerCommandFailed => true,
        EventKind::WorkerRunFailed => true,
        EventKind::PollFailed => true,
        EventKind::BrokerOperation { success, .. } => !*success,
        EventKind::FixtureObserved { kind, .. } => match kind {
            ObservationKind::Failed => true,
            ObservationKind::Resolved { resolution, .. } => *resolution == Resolution::Failed,
            _ => false,
        },
        EventKind::MinimalSpan(sample) => sample.status != SpanStatus::Succeeded,
        _ => false,
    }
}

fn counts_as_decode_failure(kind: &EventKind) -> (r: bool)
    ensures
        r == is_decode_failure(*kind),
{
    match kind {
        EventKind::RenderFinished { marker, .. } => match marker {
            Some(marker) => marker.is_err(),
            None => false,
        },
        EventKind::Published { marker, .. } => marker.is_err(),
        EventKind::PresentEntered { marker, .. } => marker.is_err(),
        EventKind::PendingDiscarded { marker, .. } => marker.is_err(),
        _ => false,
    }
}

/// The counters after an observation is offered; `retained` if it is kept.
pub open spec fn counters_after(
    c: Counters,
    time: Option<u64>,
    kind: EventKind,
    retained: bool,
) -> Counters {
    Counters {
        attempted_records: plus_one(c.attempted_records),
        failed_operations: if is_failure(kind) {
            plus_one(c.failed_operations)
        } else {
            c.failed_operations
        },
        decode_failures: if is_decode_failure(kind) {
            plus_one(c.decode_failures)
        } else {
            c.decode_failures
        },
        clock_failures: if time is None {
            plus_one(c.clock_failures)
        } else {
            c.clock_failures
        },
        after_close: if c.closed {
            plus_one(c.after_close)
        } else {
            c.after_close
        },
        lost: if retained {
            c.lost
        } else {
            plus_one(c.lost)
        },
        ..c
    }
}

/// A recorder. Records go to memory, or to mapped storage as words to be written.
pub struct Capture {
    counters: Counters,
    capacity: usize,
    records: Vec<Record>,
    renders: u64,
    calls: u64,
    stored: usize,
    mapped: Option<MappedWriter>,
    pending: Vec<WordWrite>,
}

/// What a recorder holds. The pending words are still to be written to mapped storage.
pub struct CaptureView {
    pub counters: Counters,
    pub capacity: nat,
    pub records: Seq<Record>,
    pub renders: u64,
    pub calls: u64,
    pub stored: nat,
    pub mapped: Option<MappedWriter>,
    pub pending: Seq<WordWrite>,
}

impl View for Capture {
    type V = CaptureView;

    closed spec fn view(&self) -> CaptureView {
        CaptureView {
            counters: self.counters,
            capacity: self.capacity as nat,
            records: self.records@,
            renders: self.renders,
            calls: self.calls,
            stored: self.stored as nat,
            mapped: self.mapped,
            pending: self.pending@,
        }
    }
}

impl CaptureView {
    /// What is stored fits; mapped storage and the count agree.
    pub open spec fn wf(self) -> bool {
        &&& 1 <= self.capacity <= MAX_RECORDS
        &&& self.stored <= self.capacity
        &&& match self.mapped {
            Some(writer) => writer.capacity == self.capacity && writer.committed == self.stored
                && self.records.len() == 0,
            None => self.records.len() == self.stored,
        }
    }

    /// An observation is kept while the recorder is open and not full. Mapped storage
    /// also refuses one that has no block.
    pub open spec fn retains(self, kind: EventKind) -> bool {
        &&& !self.counters.closed
        &&& self.stored < self.capacity
        &&& self.mapped is Some ==> (carried_allocation(kind) matches Some(a) ==> a.valid())
    }

    /// The record that an observation becomes.
    pub open spec fn record(self, time: Option<u64>, kind: EventKind) -> Record {
        Record {
            sequence: plus_one(self.counters.attempted_records),
            at_ns: match time {
                Some(ns) => ns,
                None => 0,
            },
            kind,
        }
    }

    /// The counters after an observation is offered.
    pub open spec fn counted(self, time: Option<u64>, kind: EventKind) -> Counters {
        counters_after(self.counters, time, kind, self.retains(kind))
    }

    /// The recorder after an observation is offered.
    pub open spec fn after(self, time: Option<u64>, kind: EventKind) -> CaptureView {
        let retained = self.retains(kind);
        CaptureView {
            counters: self.counted(time, kind),
            records: if retained && self.mapped is None {
                self.records.push(self.record(time, kind))
            } else {
                self.records
            },
            stored: if retained {
                self.stored + 1
            } else {
                self.stored
            },
            mapped: match self.mapped {
                Some(writer) => Some(
                    if retained {
                        writer.appended().updated()
                    } else {
                        writer.updated()
                    },
                ),
                None => None,
            },
            pending: self.pending + self.writes(time, kind),
            ..self
        }
    }

    /// The words that go to mapped storage when an observation is offered.
    pub open spec fn writes(self, time: Option<u64>, kind: EventKind) -> Seq<WordWrite> {
        match self.mapped {
            Some(writer) => {
                let after = self.counted(time, kind);
                if self.retains(kind) {
                    append_writes(writer, self.record(time, kind)) + metadata_writes(
                        writer.appended(),
                        after,
                    )
                } else {
                    metadata_writes(writer, after)
                }
            },
            None => Seq::empty(),
        }
    }

    /// Open or closed as asked, and nothing was lost and nothing failed.
    pub open spec fn healthy(self, closed: bool) -> bool {
        let c = self.counters;
        &&& c.closed == closed
        &&& closed ==> c.closed_at_ns is Some
        &&& c.lost == 0
        &&& c.clock_failures == 0
        &&& c.failed_operations == 0
        &&& c.decode_failures == 0
        &&& c.after_close == 0
    }

    /// The recorder after it is closed. Closing again changes nothing.
    pub open spec fn finished(self, time: Option<u64>) -> CaptureView {
        let counters = if self.counters.closed {
            self.counters
        } else {
            Counters {
                closed: true,
                closed_at_ns: time,
                clock_failures: if time is None {
                    plus_one(self.counters.clock_failures)
                } else {
                    self.counters.clock_failures
                },
                ..self.counters
            }
        };
        CaptureView {
            counters,
            mapped: match self.mapped {
                Some(writer) => Some(writer.updated()),
                None => None,
            },
            pending: match self.mapped {
                Some(writer) => self.pending + metadata_writes(writer, counters),
                None => self.pending,
            },
            ..self
        }
    }

    /// The recorder after a batch of observations at one time.
    pub open spec fn after_all(self, time: Option<u64>, kinds: Seq<EventKind>) -> CaptureView
        decreases kinds.len(),
    {
        if kinds.len() == 0 {
            self
        } else {
            self.after_all(time, kinds.drop_last()).after(time, kinds.last())
        }
    }
}

/// The observations of a batch of events.
pub open spec fn received_kinds(events: Seq<HardwareEvent>) -> Seq<EventKind> {
    Seq::new(events.len(), |i: int| EventKind::InputReceived(events[i]))
}

/// What reading a frame's marker gives.
pub open spec fn marker_result(frame: LogicalFrame, m: Result<Marker, DecodeError>) -> bool {
    match m {
        Err(DecodeError::Geometry) => !marker_geometry(frame@),
        Err(DecodeError::Cell) => marker_geometry(frame@) && !cells_clean(frame@, 3264),
        Err(DecodeError::Packet) => marker_geometry(frame@) && cells_clean(frame@, 3264)
            && !valid_packet(painted_packet(frame@)),
        Ok(marker) => marker_geometry(frame@) && cells_clean(frame@, 3264) && valid_packet(
            painted_packet(frame@),
        ) && marker@ == painted_packet(frame@),
    }
}

impl Capture {
    /// A recorder that keeps its records in memory. `record_bytes` describes them.
    pub fn new(capacity: usize, samples: [u64; 32], resolution_ns: u64) -> (r: Result<
        Capture,
        CaptureError,
    >)
        ensures
            match r {
                Ok(capture) => {
                    &&& 1 <= capacity <= MAX_RECORDS
                    &&& capture@.wf()
                    &&& capture@ == initial_view(
                        capacity as nat,
                        samples,
                        resolution_ns,
                        None,
                        Seq::empty(),
                    )
                },
                Err(e) => !(1 <= capacity <= MAX_RECORDS) && e == CaptureError::Capacity,
            },
    {
        if capacity < 1 || capacity > MAX_RECORDS {
            return Err(CaptureError::Capacity);
        }
        let capture = Capture {
            counters: initial_counters(samples, resolution_ns),
            capacity,
            records: Vec::new(),
            renders: 0,
            calls: 0,
            stored: 0,
            mapped: None,
            pending: Vec::new(),
        };
        assert(capture@.records =~= Seq::empty());
        assert(capture@.pending =~= Seq::empty());
        Ok(capture)
    }

    /// A recorder over mapped storage of which nothing was used. The words that mark the
    /// storage as in use are pending.
    pub fn from_mapped(writer: MappedWriter, samples: [u64; 32], resolution_ns: u64) -> (r: Result<
        Capture,
        CaptureError,
    >)
        requires
            writer.committed == 0,
        ensures
            match r {
                Ok(capture) => {
                    &&& 1 <= writer.capacity <= MAX_RECORDS
                    &&& capture@.wf()
                    &&& capture@ == initial_view(
                        writer.capacity as nat,
                        samples,
                        resolution_ns,
                        Some(writer.updated()),
                        metadata_writes(writer, zero_counters(samples, resolution_ns)),
                    )
                },
                Err(e) => !(1 <= writer.capacity <= MAX_RECORDS) && e == CaptureError::Capacity,
            },
    {
        let mut writer: MappedWriter = writer;
        if writer.capacity < 1 || writer.capacity > MAX_RECORDS {
            return Err(CaptureError::Capacity);
        }
        let counters: Counters = initial_counters(samples, resolution_ns);
        let capacity: usize = writer.capacity;
        let pending: Vec<WordWrite> = writer.update_metadata(&counters);
        let capture = Capture {
            counters,
            capacity,
            records: Vec::new(),
            renders: 0,
            calls: 0,
            stored: 0,
            mapped: Some(writer),
            pending,
        };
        assert(capture@.records =~= Seq::empty());
        Ok(capture)
    }

    /// Offers an observation with the time it was made, if the clock could be read.
    pub fn record_at(&mut self, time: Option<u64>, kind: EventKind)
        requires
            old(self)@.wf(),
        ensures
            final(self)@.wf(),
            final(self)@ == old(self)@.after(time, kind),
    {
        let ghost before = self@;
        let closed: bool = self.counters.closed;
        self.counters.attempted_records = self.counters.attempted_records.saturating_add(1);
        if counts_as_failure(&kind) {
            self.counters.failed_operations = self.counters.failed_operations.saturating_add(1);
        }
        if counts_as_decode_failure(&kind) {
            self.counters.decode_failures = self.counters.decode_failures.saturating_add(1);
        }
        let at_ns: u64 = match time {
            Some(ns) => ns,
            None => {
                self.counters.clock_failures = self.counters.clock_failures.saturating_add(1);
                0
            },
        };
        if closed {
            self.counters.after_close = self.counters.after_close.saturating_add(1);
        }
        let record = Record { sequence: self.counters.attempted_records, at_ns, kind };
        assert(record == before.record(time, kind));
        let mut writes: Vec<WordWrite> = Vec::new();
        assert(writes@ =~= Seq::empty());
        if closed || self.stored == self.capacity {
            self.counters.lost = self.counters.lost.saturating_add(1);
        } else if let Some(writer) = self.mapped {
            let mut writer: MappedWriter = writer;
            match writer.append(&record) {
                Ok(appended) => {
                    writes = appended;
                    self.mapped = Some(writer);
                    self.stored = self.stored + 1;
                },
                Err(_) => {
                    self.counters.lost = self.counters.lost.saturating_add(1);
                },
            }
        } else {
            self.records.push(record);
            self.stored = self.stored + 1;
        }
        if let Some(writer) = self.mapped {
            let mut writer: MappedWriter = writer;
            let ghost appended = writes@;
            let mut metadata: Vec<WordWrite> = writer.update_metadata(&self.counters);
            writes.append(&mut metadata);
            self.mapped = Some(writer);
        }
        assert(self@.counters == counters_after(before.counters, time, kind, before.retains(kind)));
        assert(self@.records =~= before.after(time, kind).records);
        assert(writes@ =~= before.writes(time, kind));
        self.pending.append(&mut writes);
        assert(self@ == before.after(time, kind));
    }

    /// The words that are still to be written to mapped storage, in order.
    pub fn take_writes(&mut self) -> (writes: Vec<WordWrite>)
        ensures
            writes@ == old(self)@.pending,
            final(self)@ == (CaptureView { pending: Seq::empty(), ..old(self)@ }),
    {
        let mut writes: Vec<WordWrite> = Vec::new();
        writes.append(&mut self.pending);
        assert(writes@ =~= old(self)@.pending);
        assert(self@.pending =~= Seq::empty());
        writes
    }

    /// Starts a render and gives its number.
    pub fn allocate_render(&mut self, time: Option<u64>) -> (attempt: u64)
        requires
            old(self)@.wf(),
        ensures
            final(self)@.wf(),
            attempt == plus_one(old(self)@.renders),
            final(self)@ == (CaptureView { renders: attempt, ..old(self)@ }).after(
                time,
                EventKind::RenderAllocated { attempt },
            ),
    {
        self.renders = self.renders.saturating_add(1);
        let attempt: u64 = self.renders;
        self.record_at(time, EventKind::RenderAllocated { attempt });
        attempt
    }

    /// A frame is about to be presented: its marker is read and noted.
    pub fn present_entered(&mut self, entered: Option<u64>, frame: &LogicalFrame) -> (call: u64)
        requires
            old(self)@.wf(),
        ensures
            final(self)@.wf(),
            call == plus_one(old(self)@.calls),
            exists|marker: Result<Marker, DecodeError>|
                {
                    &&& #[trigger] marker_result(*frame, marker)
                    &&& final(self)@ == (CaptureView { calls: call, ..old(self)@ }).after(
                        entered,
                        EventKind::PresentEntered { call, marker },
                    )
                },
    {
        self.calls = self.calls.saturating_add(1);
        let call: u64 = self.calls;
        let marker: Result<Marker, DecodeError> = decode(frame);
        assert(marker_result(*frame, marker));
        self.record_at(entered, EventKind::PresentEntered { call, marker });
        call
    }

    /// A presentation returned.
    pub fn present_returned(&mut self, returned: Option<u64>, call: u64, success: bool)
        requires
            old(self)@.wf(),
        ensures
            final(self)@.wf(),
            final(self)@ == old(self)@.after(
                returned,
                EventKind::PresentReturned { call, success },
            ),
    {
        self.record_at(returned, EventKind::PresentReturned { call, success });
    }

    /// Whether the clock is read after a poll: not after one that gave no event.
    pub fn poll_needs_clock(events: &Option<Vec<HardwareEvent>>) -> (r: bool)
        ensures
            r == !(*events matches Some(batch) && batch@.len() == 0),
    {
        match events {
            Some(batch) => batch.len() != 0,
            None => true,
        }
    }

    /// A poll returned: every event of the batch was received at the same time, and a
    /// failed poll is noted. A poll that gave no event leaves no trace.
    pub fn polled(&mut self, received: Option<u64>, events: &Option<Vec<HardwareEvent>>)
        requires
            old(self)@.wf(),
        ensures
            final(self)@.wf(),
            final(self)@ == (match *events {
                Some(batch) => old(self)@.after_all(received, received_kinds(batch@)),
                None => old(self)@.after(received, EventKind::PollFailed),
            }),
    {
        let batch: &Vec<HardwareEvent> = match events {
            Some(batch) => batch,
            None => {
                self.record_at(received, EventKind::PollFailed);
                return ;
            },
        };
        let ghost before = self@;
        let ghost kinds = received_kinds(batch@);
        let mut i: usize = 0;
        assert(kinds.take(0) =~= Seq::empty());
        while i < batch.len()
            invariant
                i <= batch@.len(),
                kinds == received_kinds(batch@),
                self@.wf(),
                self@ == before.after_all(received, kinds.take(i as int)),
            decreases batch@.len() - i,
        {
            self.record_at(received, EventKind::InputReceived(batch[i]));
            i += 1;
            assert(kinds.take(i as int).drop_last() =~= kinds.take(i - 1));
        }
        assert(kinds.take(i as int) =~= kinds);
    }

    /// Refuses a recorder that is not open, or lost or failed anything.
    pub fn ensure_open_and_healthy(&self) -> (r: Result<(), CaptureError>)
        ensures
            r is Ok == self@.healthy(false),
            r matches Err(e) ==> e == CaptureError::Unhealthy,
    {
        self.ensure_health(false)
    }

    /// Refuses a recorder that is not closed, or lost or failed anything.
    pub fn ensure_closed_and_healthy(&self) -> (r: Result<(), CaptureError>)
        ensures
            r is Ok == self@.healthy(true),
            r matches Err(e) ==> e == CaptureError::Unhealthy,
    {
        self.ensure_health(true)
    }

    fn ensure_health(&self, closed: bool) -> (r: Result<(), CaptureError>)
        ensures
            r is Ok == self@.healthy(closed),
            r matches Err(e) ==> e == CaptureError::Unhealthy,
    {
        let c: &Counters = &self.counters;
        if c.closed == closed && (!closed || c.closed_at_ns.is_some()) && c.lost == 0
            && c.clock_failures == 0 && c.failed_operations == 0 && c.decode_failures == 0
            && c.after_close == 0 {
            Ok(())
        } else {
            Err(CaptureError::Unhealthy)
        }
    }

    /// Closes the recorder. What is offered later is counted as lost.
    pub fn finish(&mut self, time: Option<u64>)
        requires
            old(self)@.wf(),
        ensures
            final(self)@.wf(),
            final(self)@ == old(self)@.finished(time),
    {
        let ghost before = self@;
        if !self.counters.closed {
            self.counters.closed = true;
            self.counters.closed_at_ns = time;
            if time.is_none() {
                self.counters.clock_failures = self.counters.clock_failures.saturating_add(1);
            }
        }
        if let Some(writer) = self.mapped {
            let mut writer: MappedWriter = writer;
            let mut writes: Vec<WordWrite> = writer.update_metadata(&self.counters);
            self.pending.append(&mut writes);
            self.mapped = Some(writer);
        }
        assert(self@.pending =~= before.finished(time).pending);
    }

    /// What the recorder holds. Records in mapped storage are read from there.
    pub fn report(&self) -> (r: Report)
        ensures
            r.records@ == self@.records,
            r.capacity == self@.capacity,
            r.record_bytes == RECORD_BYTES,
            r.counters == self@.counters,
    {
        let mut records: Vec<Record> = Vec::new();
        let mut i: usize = 0;
        while i < self.records.len()
            invariant
                i <= self.records@.len(),
                records@ == self.records@.take(i as int),
            decreases self.records@.len() - i,
        {
            records.push(self.records[i]);
            i += 1;
            assert(self.records@.take(i as int) =~= self.records@.take(i - 1).push(
                self.records@[i - 1],
            ));
        }
        assert(self.records@.take(i as int) =~= self.records@);
        Report {
            records,
            capacity: self.capacity,
            record_bytes: RECORD_BYTES,
            counters: self.counters,
        }
    }
}

/// The counters of a recorder that was just made.
pub open spec fn zero_counters(samples: [u64; 32], resolution_ns: u64) -> Counters {
    Counters {
        attempted_records: 0,
        lost: 0,
        clock_failures: 0,
        failed_operations: 0,
        decode_failures: 0,
        after_close: 0,
        closed: false,
        closed_at_ns: None,
        clock_resolution_ns: resolution_ns,
        clock_read_samples_ns: samples,
    }
}

/// A recorder that was just made.
pub open spec fn initial_view(
    capacity: nat,
    samples: [u64; 32],
    resolution_ns: u64,
    mapped: Option<MappedWriter>,
    pending: Seq<WordWrite>,
) -> CaptureView {
    CaptureView {
        counters: zero_counters(samples, resolution_ns),
        capacity,
        records: Seq::empty(),
        renders: 0,
        calls: 0,
        stored: 0,
        mapped,
        pending,
    }
}

fn initial_counters(samples: [u64; 32], resolution_ns: u64) -> (c: Counters)
    ensures
        c == zero_counters(samples, resolution_ns),
{
    Counters {
        attempted_records: 0,
        lost: 0,
        clock_failures: 0,
        failed_operations: 0,
        decode_failures: 0,
        after_close: 0,
        closed: false,
        closed_at_ns: None,
        clock_resolution_ns: resolution_ns,
        clock_read_samples_ns: samples,
    }
}

/// Every observation is either stored or lost: until the counters run over, the
/// attempts are the stored records and the losses together.
pub proof fn law_attempts_are_stored_or_lost(c: CaptureView, time: Option<u64>, kind: EventKind)
    requires
        c.wf(),
        c.counters.attempted_records < u64::MAX,
        c.counters.attempted_records == c.stored + c.counters.lost,
    ensures
        ({
            let after = c.after(time, kind);
            &&& after.wf()
            &&& after.counters.attempted_records == after.stored + after.counters.lost
        }),
{
}

/// Something was lost, failed, or came after closing.
pub open spec fn troubled(c: Counters) -> bool {
    c.lost > 0 || c.clock_failures > 0 || c.failed_operations > 0 || c.decode_failures > 0
        || c.after_close > 0
}

/// A recorder never forgets trouble: whatever it is offered later, and when it is
/// closed, it stays unhealthy. Being offered anything after closing is trouble.
pub proof fn law_trouble_is_never_forgotten(
    c: CaptureView,
    time: Option<u64>,
    kind: EventKind,
    closed: bool,
)
    ensures
        troubled(c.counters) ==> !c.healthy(closed),
        troubled(c.counters) || c.counters.closed ==> troubled(c.after(time, kind).counters),
        troubled(c.counters) ==> troubled(c.finished(time).counters),
{
}

/// The records are numbered from one without a gap, and as long as there is room nothing
/// was lost.
pub open spec fn numbered(c: CaptureView) -> bool {
    &&& forall|k: int| 0 <= k < c.records.len() ==> (#[trigger] c.records[k]).sequence == k + 1
    &&& !c.counters.closed && c.stored < c.capacity ==> c.counters.attempted_records == c.stored
}

/// The records that a recorder keeps itself are numbered from one without a gap, whatever
/// it is offered and when it is closed.
pub proof fn law_records_are_numbered_from_one(
    capacity: nat,
    samples: [u64; 32],
    resolution_ns: u64,
    c: CaptureView,
    time: Option<u64>,
    kind: EventKind,
)
    requires
        c.wf(),
        c.mapped is None,
        numbered(c),
    ensures
        numbered(initial_view(capacity, samples, resolution_ns, None, Seq::empty())),
        numbered(c.after(time, kind)),
        numbered(c.finished(time)),
{
    let after = c.after(time, kind);
    assert forall|k: int| 0 <= k < after.records.len() implies (
    #[trigger] after.records[k]).sequence == k + 1 by {
        if k < c.records.len() {
            assert(after.records[k] == c.records[k]);
        }
    }
}

} // verus!
