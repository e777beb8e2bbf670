//! Raw records as fixed blocks of 512 bytes: what the bytes mean.
//!
//! A block holds its length, the record's place and time, a tag, the fields of
//! the observation, and zeros. Every field has one encoding, so a block denotes
//! at most one record and a record has exactly one block.
//!
//! `put_x(v, rest)` is the encoding of `v` followed by `rest`, and `take_x` reads
//! one such value off the front of a byte string.
use vstd::prelude::*;

use crate::bytes::{
    array_of, le_bytes, le_value, lemma_array_exists, lemma_array_of, lemma_le_bytes_len,
    lemma_le_canonical, lemma_le_round_trip, lemma_le_value_bound, lemma_pow256_values,
};
use crate::events::{
    DiscardReason, EventKind, FrameAllocation, Mode, ObservationKind, Operation, Phase, Record,
    Resolution, Sample, SpanKind, SpanStatus, Summary, TimerDisposition, MAX_SIGNED,
};
use crate::hardware::{
    modifier_at, HardwareCapability, HardwareEvent, ModifierState, RealBits, TouchEvent, TouchPhase,
};
use crate::marker::{
    lemma_marker_exists, lemma_marker_of, marker_of, valid_packet, DecodeError, Marker,
};

verus! {

/// Bytes in one block.
pub const RECORD_BYTES: usize = 512;

/// Why a record has no block, or a block no record.
#[derive(Clone, Copy, Debug, PartialEq, Eq, Structural)]
pub enum RecordError {
    AllocationId,
    AllocationTokenTime,
    Truncated,
    Boolean,
    MarkerPacket,
    MarkerStatus,
    FixturePhase,
    FixtureResolution,
    FixtureTouchPhase,
    FixtureTag,
    TouchPhase,
    Length,
    Padding,
    Discard,
    Modifier,
    Capability,
    Event,
    Disposition,
    SpanKind,
    SpanStatus,
    Mode,
    Operation,
    Tag,
    Trailing,
}

impl RecordError {
    /// What the error says.
    pub open spec fn text(self) -> Seq<char> {
        match self {
            RecordError::AllocationId => "invalid raw fixture allocation id"@,
            RecordError::AllocationTokenTime => "invalid raw fixture allocation token/time"@,
            RecordError::Truncated => "truncated raw record"@,
            RecordError::Boolean => "invalid raw boolean"@,
            RecordError::MarkerPacket => "invalid exported marker packet"@,
            RecordError::MarkerStatus => "invalid raw marker status"@,
            RecordError::FixturePhase => "invalid raw fixture phase"@,
            RecordError::FixtureResolution => "invalid raw fixture resolution"@,
            RecordError::FixtureTouchPhase => "invalid raw fixture touch phase"@,
            RecordError::FixtureTag => "invalid raw fixture observation tag"@,
            RecordError::TouchPhase => "invalid raw touch phase"@,
            RecordError::Length => "invalid raw record length"@,
            RecordError::Padding => "nonzero raw record padding"@,
            RecordError::Discard => "invalid raw discard reason"@,
            RecordError::Modifier => "invalid raw modifier"@,
            RecordError::Capability => "invalid raw hardware capability"@,
            RecordError::Event => "invalid raw hardware event"@,
            RecordError::Disposition => "invalid raw timer disposition"@,
            RecordError::SpanKind => "invalid raw minimal span kind"@,
            RecordError::SpanStatus => "invalid raw minimal span status"@,
            RecordError::Mode => "invalid raw capture mode"@,
            RecordError::Operation => "unknown broker observation operation"@,
            RecordError::Tag => "unknown raw event tag"@,
            RecordError::Trailing => "trailing raw record bytes"@,
        }
    }

    /// What this error says.
    pub fn message(self) -> (s: &'static str)
        ensures
            s@ == self.text(),
    {
        match self {
            RecordError::AllocationId => "invalid raw fixture allocation id",
            RecordError::AllocationTokenTime => "invalid raw fixture allocation token/time",
            RecordError::Truncated => "truncated raw record",
            RecordError::Boolean => "invalid raw boolean",
            RecordError::MarkerPacket => "invalid exported marker packet",
            RecordError::MarkerStatus => "invalid raw marker status",
            RecordError::FixturePhase => "invalid raw fixture phase",
            RecordError::FixtureResolution => "invalid raw fixture resolution",
            RecordError::FixtureTouchPhase => "invalid raw fixture touch phase",
            RecordError::FixtureTag => "invalid raw fixture observation tag",
            RecordError::TouchPhase => "invalid raw touch phase",
            RecordError::Length => "invalid raw record length",
            RecordError::Padding => "nonzero raw record padding",
            RecordError::Discard => "invalid raw discard reason",
            RecordError::Modifier => "invalid raw modifier",
            RecordError::Capability => "invalid raw hardware capability",
            RecordError::Event => "invalid raw hardware event",
            RecordError::Disposition => "invalid raw timer disposition",
            RecordError::SpanKind => "invalid raw minimal span kind",
            RecordError::SpanStatus => "invalid raw minimal span status",
            RecordError::Mode => "invalid raw capture mode",
            RecordError::Operation => "unknown broker observation operation",
            RecordError::Tag => "unknown raw event tag",
            RecordError::Trailing => "trailing raw record bytes",
        }
    }
}

/// A value read off the front of a byte string, with what is left.
pub type Parsed<T> = Result<(T, Seq<u8>), RecordError>;

#[verifier::opaque]
pub open spec fn put_u8(v: u8, rest: Seq<u8>) -> Seq<u8> {
    seq![v] + rest
}

#[verifier::opaque]
pub open spec fn put_u32(v: u32, rest: Seq<u8>) -> Seq<u8> {
    le_bytes(v as nat, 4) + rest
}

#[verifier::opaque]
pub open spec fn put_u64(v: u64, rest: Seq<u8>) -> Seq<u8> {
    le_bytes(v as nat, 8) + rest
}

#[verifier::opaque]
pub open spec fn put_bytes(v: Seq<u8>, rest: Seq<u8>) -> Seq<u8> {
    v + rest
}

#[verifier::opaque]
pub open spec fn take_u8(s: Seq<u8>) -> Parsed<u8> {
    if s.len() < 1 {
        Err(RecordError::Truncated)
    } else {
        Ok((s[0], s.skip(1)))
    }
}

#[verifier::opaque]
pub open spec fn take_u32(s: Seq<u8>) -> Parsed<u32> {
    if s.len() < 4 {
        Err(RecordError::Truncated)
    } else {
        Ok((le_value(s.take(4)) as u32, s.skip(4)))
    }
}

#[verifier::opaque]
pub open spec fn take_u64(s: Seq<u8>) -> Parsed<u64> {
    if s.len() < 8 {
        Err(RecordError::Truncated)
    } else {
        Ok((le_value(s.take(8)) as u64, s.skip(8)))
    }
}

#[verifier::opaque]
pub open spec fn take_bytes(s: Seq<u8>, n: nat) -> Parsed<Seq<u8>> {
    if s.len() < n {
        Err(RecordError::Truncated)
    } else {
        Ok((s.take(n as int), s.skip(n as int)))
    }
}

/// Reading a byte undoes writing it, and the other way round.
pub broadcast proof fn lemma_u8(v: u8, t: Seq<u8>)
    ensures
        #![trigger put_u8(v, t)]
        take_u8(put_u8(v, t)) == Ok::<(u8, Seq<u8>), RecordError>((v, t)),
        put_u8(v, t).len() == 1 + t.len(),
{
    reveal(put_u8);
    reveal(take_u8);
    assert(put_u8(v, t).skip(1) =~= t);
}

pub broadcast proof fn lemma_take_u8(s: Seq<u8>)
    ensures
        #![trigger take_u8(s)]
        take_u8(s) matches Ok((v, t)) ==> s == put_u8(v, t),
{
    reveal(put_u8);
    reveal(take_u8);
    if s.len() >= 1 {
        assert(seq![s[0]] + s.skip(1) =~= s);
    }
}

/// Reading a word undoes writing it, and the other way round.
pub broadcast proof fn lemma_u32(v: u32, t: Seq<u8>)
    ensures
        #![trigger put_u32(v, t)]
        take_u32(put_u32(v, t)) == Ok::<(u32, Seq<u8>), RecordError>((v, t)),
        put_u32(v, t).len() == 4 + t.len(),
{
    reveal(put_u32);
    reveal(take_u32);
    lemma_le_bytes_len(v as nat, 4);
    lemma_pow256_values();
    lemma_le_round_trip(v as nat, 4);
    assert(put_u32(v, t).take(4) =~= le_bytes(v as nat, 4));
    assert(put_u32(v, t).skip(4) =~= t);
}

pub broadcast proof fn lemma_take_u32(s: Seq<u8>)
    ensures
        #![trigger take_u32(s)]
        take_u32(s) matches Ok((v, t)) ==> s == put_u32(v, t),
{
    reveal(put_u32);
    reveal(take_u32);
    if s.len() >= 4 {
        lemma_pow256_values();
        lemma_le_value_bound(s.take(4));
        lemma_le_canonical(s.take(4));
        assert(s.take(4) + s.skip(4) =~= s);
    }
}

/// Reading a long word undoes writing it, and the other way round.
pub broadcast proof fn lemma_u64(v: u64, t: Seq<u8>)
    ensures
        #![trigger put_u64(v, t)]
        take_u64(put_u64(v, t)) == Ok::<(u64, Seq<u8>), RecordError>((v, t)),
        put_u64(v, t).len() == 8 + t.len(),
{
    reveal(put_u64);
    reveal(take_u64);
    lemma_le_bytes_len(v as nat, 8);
    lemma_pow256_values();
    lemma_le_round_trip(v as nat, 8);
    assert(put_u64(v, t).take(8) =~= le_bytes(v as nat, 8));
    assert(put_u64(v, t).skip(8) =~= t);
}

pub broadcast proof fn lemma_take_u64(s: Seq<u8>)
    ensures
        #![trigger take_u64(s)]
        take_u64(s) matches Ok((v, t)) ==> s == put_u64(v, t),
{
    reveal(put_u64);
    reveal(take_u64);
    if s.len() >= 8 {
        lemma_pow256_values();
        lemma_le_value_bound(s.take(8));
        lemma_le_canonical(s.take(8));
        assert(s.take(8) + s.skip(8) =~= s);
    }
}

/// Reading bytes undoes writing them, and the other way round.
pub broadcast proof fn lemma_bytes(v: Seq<u8>, t: Seq<u8>)
    ensures
        #![trigger put_bytes(v, t)]
        take_bytes(put_bytes(v, t), v.len()) == Ok::<(Seq<u8>, Seq<u8>), RecordError>((v, t)),
        put_bytes(v, t).len() == v.len() + t.len(),
{
    reveal(put_bytes);
    reveal(take_bytes);
    assert(put_bytes(v, t).take(v.len() as int) =~= v);
    assert(put_bytes(v, t).skip(v.len() as int) =~= t);
}

pub broadcast proof fn lemma_take_bytes(s: Seq<u8>, n: nat)
    ensures
        #![trigger take_bytes(s, n)]
        take_bytes(s, n) matches Ok((v, t)) ==> s == put_bytes(v, t) && v.len() == n,
{
    reveal(put_bytes);
    reveal(take_bytes);
    if s.len() >= n {
        assert(s.take(n as int) + s.skip(n as int) =~= s);
    }
}

pub broadcast group group_put {
    lemma_u8,
    lemma_u32,
    lemma_u64,
    lemma_bytes,
    lemma_array_of,
    lemma_marker_of,
}

pub broadcast group group_take {
    lemma_take_u8,
    lemma_take_u32,
    lemma_take_u64,
    lemma_take_bytes,
}

/// The byte that stands for a phase.
pub open spec fn phase_code(v: Phase) -> u8 {
    match v {
        Phase::Warmup => 0,
        Phase::Quiescing => 1,
        Phase::Armed => 2,
        Phase::Measured => 3,
        Phase::Drain => 4,
        Phase::Ended => 5,
    }
}

pub open spec fn take_phase(s: Seq<u8>) -> Parsed<Phase> {
    match take_u8(s) {
        Err(e) => Err(e),
        Ok((b, t)) => if b == 0 {
            Ok((Phase::Warmup, t))
        } else if b == 1 {
            Ok((Phase::Quiescing, t))
        } else if b == 2 {
            Ok((Phase::Armed, t))
        } else if b == 3 {
            Ok((Phase::Measured, t))
        } else if b == 4 {
            Ok((Phase::Drain, t))
        } else if b == 5 {
            Ok((Phase::Ended, t))
        } else {
            Err(RecordError::FixturePhase)
        },
    }
}

/// The byte that stands for a resolution.
pub open spec fn resolution_code(v: Resolution) -> u8 {
    match v {
        Resolution::Presented => 0,
        Resolution::Discarded => 1,
        Resolution::Failed => 2,
    }
}

pub open spec fn take_resolution(s: Seq<u8>) -> Parsed<Resolution> {
    match take_u8(s) {
        Err(e) => Err(e),
        Ok((b, t)) => if b == 0 {
            Ok((Resolution::Presented, t))
        } else if b == 1 {
            Ok((Resolution::Discarded, t))
        } else if b == 2 {
            Ok((Resolution::Failed, t))
        } else {
            Err(RecordError::FixtureResolution)
        },
    }
}

/// The byte that stands for a touch phase.
pub open spec fn touch_phase_code(v: TouchPhase) -> u8 {
    match v {
        TouchPhase::Down => 0,
        TouchPhase::Move => 1,
        TouchPhase::Up => 2,
        TouchPhase::Cancel => 3,
    }
}

pub open spec fn take_touch_phase(s: Seq<u8>, error: RecordError) -> Parsed<TouchPhase> {
    match take_u8(s) {
        Err(e) => Err(e),
        Ok((b, t)) => if b == 0 {
            Ok((TouchPhase::Down, t))
        } else if b == 1 {
            Ok((TouchPhase::Move, t))
        } else if b == 2 {
            Ok((TouchPhase::Up, t))
        } else if b == 3 {
            Ok((TouchPhase::Cancel, t))
        } else {
            Err(error)
        },
    }
}

/// The byte that stands for a discard reason.
pub open spec fn reason_code(v: DiscardReason) -> u8 {
    match v {
        DiscardReason::ProducerReclaim => 0,
        DiscardReason::ConsumerSuperseded => 1,
        DiscardReason::MappingClosed => 2,
    }
}

pub open spec fn take_reason(s: Seq<u8>) -> Parsed<DiscardReason> {
    match take_u8(s) {
        Err(e) => Err(e),
        Ok((b, t)) => if b == 0 {
            Ok((DiscardReason::ProducerReclaim, t))
        } else if b == 1 {
            Ok((DiscardReason::ConsumerSuperseded, t))
        } else if b == 2 {
            Ok((DiscardReason::MappingClosed, t))
        } else {
            Err(RecordError::Discard)
        },
    }
}

/// The byte that stands for a span kind.
pub open spec fn span_kind_code(v: SpanKind) -> u8 {
    match v {
        SpanKind::RenderCallback => 0,
        SpanKind::Present => 1,
        SpanKind::SupervisorDrive => 2,
        SpanKind::Calibration => 3,
    }
}

pub open spec fn take_span_kind(s: Seq<u8>) -> Parsed<SpanKind> {
    match take_u8(s) {
        Err(e) => Err(e),
        Ok((b, t)) => if b == 0 {
            Ok((SpanKind::RenderCallback, t))
        } else if b == 1 {
            Ok((SpanKind::Present, t))
        } else if b == 2 {
            Ok((SpanKind::SupervisorDrive, t))
        } else if b == 3 {
            Ok((SpanKind::Calibration, t))
        } else {
            Err(RecordError::SpanKind)
        },
    }
}

/// The byte that stands for a span status.
pub open spec fn span_status_code(v: SpanStatus) -> u8 {
    match v {
        SpanStatus::Succeeded => 0,
        SpanStatus::Failed => 1,
        SpanStatus::Abandoned => 2,
    }
}

pub open spec fn take_span_status(s: Seq<u8>) -> Parsed<SpanStatus> {
    match take_u8(s) {
        Err(e) => Err(e),
        Ok((b, t)) => if b == 0 {
            Ok((SpanStatus::Succeeded, t))
        } else if b == 1 {
            Ok((SpanStatus::Failed, t))
        } else if b == 2 {
            Ok((SpanStatus::Abandoned, t))
        } else {
            Err(RecordError::SpanStatus)
        },
    }
}

/// The byte that stands for a mode.
pub open spec fn mode_code(v: Mode) -> u8 {
    match v {
        Mode::A => 0,
        Mode::B => 1,
        Mode::C => 2,
    }
}

pub open spec fn take_mode(s: Seq<u8>) -> Parsed<Mode> {
    match take_u8(s) {
        Err(e) => Err(e),
        Ok((b, t)) => if b == 0 {
            Ok((Mode::A, t))
        } else if b == 1 {
            Ok((Mode::B, t))
        } else if b == 2 {
            Ok((Mode::C, t))
        } else {
            Err(RecordError::Mode)
        },
    }
}

pub open spec fn put_bool(v: bool, rest: Seq<u8>) -> Seq<u8> {
    put_u8(
        if v {
            1
        } else {
            0
        },
        rest,
    )
}

pub open spec fn take_bool(s: Seq<u8>) -> Parsed<bool> {
    match take_u8(s) {
        Err(e) => Err(e),
        Ok((b, t)) => if b == 0 {
            Ok((false, t))
        } else if b == 1 {
            Ok((true, t))
        } else {
            Err(RecordError::Boolean)
        },
    }
}

pub open spec fn put_real(v: RealBits, rest: Seq<u8>) -> Seq<u8> {
    put_u64(v.bits, rest)
}

pub open spec fn take_real(s: Seq<u8>) -> Parsed<RealBits> {
    match take_u64(s) {
        Err(e) => Err(e),
        Ok((bits, t)) => Ok((RealBits { bits }, t)),
    }
}

#[verifier::opaque]
pub open spec fn put_optional(v: Option<RealBits>, rest: Seq<u8>) -> Seq<u8> {
    match v {
        Some(value) => put_bool(true, put_real(value, rest)),
        None => put_bool(false, rest),
    }
}

#[verifier::opaque]
pub open spec fn take_optional(s: Seq<u8>) -> Parsed<Option<RealBits>> {
    match take_bool(s) {
        Err(e) => Err(e),
        Ok((false, t)) => Ok((None, t)),
        Ok((true, t)) => match take_real(t) {
            Err(e) => Err(e),
            Ok((v, t)) => Ok((Some(v), t)),
        },
    }
}

pub open spec fn put_optional_u64(v: Option<u64>, rest: Seq<u8>) -> Seq<u8> {
    match v {
        Some(value) => put_bool(true, put_u64(value, rest)),
        None => put_bool(false, rest),
    }
}

pub open spec fn take_optional_u64(s: Seq<u8>) -> Parsed<Option<u64>> {
    match take_bool(s) {
        Err(e) => Err(e),
        Ok((false, t)) => Ok((None, t)),
        Ok((true, t)) => match take_u64(t) {
            Err(e) => Err(e),
            Ok((v, t)) => Ok((Some(v), t)),
        },
    }
}

/// Which of an allocation's numbers is out of range, the number first.
pub open spec fn allocation_error(a: FrameAllocation) -> Option<RecordError> {
    if !(1 <= a.id <= MAX_SIGNED) {
        Some(RecordError::AllocationId)
    } else if !a.valid() {
        Some(RecordError::AllocationTokenTime)
    } else {
        None
    }
}

#[verifier::opaque]
pub open spec fn put_allocation(v: Option<FrameAllocation>, rest: Seq<u8>) -> Seq<u8> {
    match v {
        Some(a) => put_bool(true, put_u64(a.id, put_u64(a.token, put_u64(a.allocated_ns, rest)))),
        None => put_bool(false, rest),
    }
}

#[verifier::opaque]
pub open spec fn take_allocation(s: Seq<u8>) -> Parsed<Option<FrameAllocation>> {
    match take_bool(s) {
        Err(e) => Err(e),
        Ok((false, t)) => Ok((None, t)),
        Ok((true, t)) => match take_three(t) {
            Err(e) => Err(e),
            Ok(((id, token, allocated_ns), t)) => {
                let a = FrameAllocation { id, token, allocated_ns };
                match allocation_error(a) {
                    Some(e) => Err(e),
                    None => Ok((Some(a), t)),
                }
            },
        },
    }
}

#[verifier::opaque]
pub open spec fn put_marker(v: Result<Marker, DecodeError>, rest: Seq<u8>) -> Seq<u8> {
    match v {
        Ok(marker) => put_u8(0, put_bytes(marker@, rest)),
        Err(DecodeError::Geometry) => put_u8(1, rest),
        Err(DecodeError::Cell) => put_u8(2, rest),
        Err(DecodeError::Packet) => put_u8(3, rest),
    }
}

#[verifier::opaque]
pub open spec fn take_marker(s: Seq<u8>) -> Parsed<Result<Marker, DecodeError>> {
    match take_u8(s) {
        Err(e) => Err(e),
        Ok((b, t)) => if b == 0 {
            match take_bytes(t, 408) {
                Err(e) => Err(e),
                Ok((packet, t)) => if valid_packet(packet) {
                    Ok((Ok(marker_of(packet)), t))
                } else {
                    Err(RecordError::MarkerPacket)
                },
            }
        } else if b == 1 {
            Ok((Err(DecodeError::Geometry), t))
        } else if b == 2 {
            Ok((Err(DecodeError::Cell), t))
        } else if b == 3 {
            Ok((Err(DecodeError::Packet), t))
        } else {
            Err(RecordError::MarkerStatus)
        },
    }
}

pub open spec fn take_two(s: Seq<u8>) -> Parsed<(u64, u64)> {
    match take_u64(s) {
        Err(e) => Err(e),
        Ok((a, t)) => match take_u64(t) {
            Err(e) => Err(e),
            Ok((b, t)) => Ok(((a, b), t)),
        },
    }
}

pub open spec fn take_three(s: Seq<u8>) -> Parsed<(u64, u64, u64)> {
    match take_two(s) {
        Err(e) => Err(e),
        Ok(((a, b), t)) => match take_u64(t) {
            Err(e) => Err(e),
            Ok((c, t)) => Ok(((a, b, c), t)),
        },
    }
}

pub open spec fn take_four(s: Seq<u8>) -> Parsed<(u64, u64, u64, u64)> {
    match take_three(s) {
        Err(e) => Err(e),
        Ok(((a, b, c), t)) => match take_u64(t) {
            Err(e) => Err(e),
            Ok((d, t)) => Ok(((a, b, c, d), t)),
        },
    }
}

/// Long words one after another.
pub open spec fn put_words(v: Seq<u64>, rest: Seq<u8>) -> Seq<u8>
    decreases v.len(),
{
    if v.len() == 0 {
        rest
    } else {
        put_u64(v[0], put_words(v.drop_first(), rest))
    }
}

pub open spec fn take_words(s: Seq<u8>, n: nat) -> Parsed<Seq<u64>>
    decreases n,
{
    if n == 0 {
        Ok((Seq::empty(), s))
    } else {
        match take_u64(s) {
            Err(e) => Err(e),
            Ok((v, t)) => match take_words(t, (n - 1) as nat) {
                Err(e) => Err(e),
                Ok((w, t)) => Ok((seq![v] + w, t)),
            },
        }
    }
}

/// Reading words undoes writing them, and the other way round.
pub broadcast proof fn lemma_words(v: Seq<u64>, t: Seq<u8>)
    ensures
        #![trigger put_words(v, t)]
        take_words(put_words(v, t), v.len()) == Ok::<(Seq<u64>, Seq<u8>), RecordError>((v, t)),
        put_words(v, t).len() == 8 * v.len() + t.len(),
    decreases v.len(),
{
    broadcast use group_put;

    if v.len() > 0 {
        lemma_words(v.drop_first(), t);
        assert(seq![v[0]] + v.drop_first() =~= v);
    } else {
        assert(v =~= Seq::empty());
    }
}

pub broadcast proof fn lemma_take_words(s: Seq<u8>, n: nat)
    ensures
        #![trigger take_words(s, n)]
        take_words(s, n) matches Ok((v, t)) ==> s == put_words(v, t) && v.len() == n,
    decreases n,
{
    broadcast use group_take;

    if n > 0 {
        if let Ok((v, t)) = take_u64(s) {
            lemma_take_words(t, (n - 1) as nat);
            if let Ok((w, u)) = take_words(t, (n - 1) as nat) {
                assert((seq![v] + w).drop_first() =~= w);
            }
        }
    }
}

/// What a fixture observed.
#[verifier::opaque]
pub open spec fn put_fixture(v: ObservationKind, rest: Seq<u8>) -> Seq<u8> {
    match v {
        ObservationKind::Phase(phase) => put_u8(0, put_u8(phase_code(phase), rest)),
        ObservationKind::Allocated { frame_id, token } => put_u8(
            1,
            put_u64(frame_id, put_u64(token, rest)),
        ),
        ObservationKind::Suppressed => put_u8(2, rest),
        ObservationKind::Resolved { frame_id, resolution, resolved_ns } => put_u8(
            3,
            put_u64(frame_id, put_u8(resolution_code(resolution), put_u64(resolved_ns, rest))),
        ),
        ObservationKind::WarmupClosed => put_u8(4, rest),
        ObservationKind::PeriodicRetired { timer_id } => put_u8(5, put_u64(timer_id, rest)),
        ObservationKind::ReceiptSupplied { receipt_sequence, received_ns, contact, phase } => put_u8(
            6,
            put_u64(
                receipt_sequence,
                put_u64(received_ns, put_u32(contact, put_u8(touch_phase_code(phase), rest))),
            ),
        ),
        ObservationKind::Delivered { receipt_sequence } => put_u8(
            7,
            put_u64(receipt_sequence, rest),
        ),
        ObservationKind::TokenMutated { receipt_sequence, previous, token } => put_u8(
            8,
            put_u64(receipt_sequence, put_u64(previous, put_u64(token, rest))),
        ),
        ObservationKind::ResponseConfirmed { receipt_sequence, frame_id, token, responded_ns } =>
        put_u8(
            9,
            put_u64(
                receipt_sequence,
                put_u64(frame_id, put_u64(token, put_u64(responded_ns, rest))),
            ),
        ),
        ObservationKind::Failed => put_u8(10, rest),
        ObservationKind::Closed => put_u8(11, rest),
    }
}

#[verifier::opaque]
pub open spec fn take_fixture(s: Seq<u8>) -> Parsed<ObservationKind> {
    match take_u8(s) {
        Err(e) => Err(e),
        Ok((b, t)) => if b == 0 {
            match take_phase(t) {
                Err(e) => Err(e),
                Ok((phase, t)) => Ok((ObservationKind::Phase(phase), t)),
            }
        } else if b == 1 {
            match take_two(t) {
                Err(e) => Err(e),
                Ok(((frame_id, token), t)) => Ok((ObservationKind::Allocated { frame_id, token }, t)),
            }
        } else if b == 2 {
            Ok((ObservationKind::Suppressed, t))
        } else if b == 3 {
            match take_u64(t) {
                Err(e) => Err(e),
                Ok((frame_id, t)) => match take_resolution(t) {
                    Err(e) => Err(e),
                    Ok((resolution, t)) => match take_u64(t) {
                        Err(e) => Err(e),
                        Ok((resolved_ns, t)) => Ok(
                            (ObservationKind::Resolved { frame_id, resolution, resolved_ns }, t),
                        ),
                    },
                },
            }
        } else if b == 4 {
            Ok((ObservationKind::WarmupClosed, t))
        } else if b == 5 {
            match take_u64(t) {
                Err(e) => Err(e),
                Ok((timer_id, t)) => Ok((ObservationKind::PeriodicRetired { timer_id }, t)),
            }
        } else if b == 6 {
            match take_two(t) {
                Err(e) => Err(e),
                Ok(((receipt_sequence, received_ns), t)) => match take_u32(t) {
                    Err(e) => Err(e),
                    Ok((contact, t)) => match take_touch_phase(t, RecordError::FixtureTouchPhase) {
                        Err(e) => Err(e),
                        Ok((phase, t)) => Ok(
                            (
                                ObservationKind::ReceiptSupplied {
                                    receipt_sequence,
                                    received_ns,
                                    contact,
                                    phase,
                                },
                                t,
                            ),
                        ),
                    },
                },
            }
        } else if b == 7 {
            match take_u64(t) {
                Err(e) => Err(e),
                Ok((receipt_sequence, t)) => Ok((ObservationKind::Delivered { receipt_sequence }, t)),
            }
        } else if b == 8 {
            match take_three(t) {
                Err(e) => Err(e),
                Ok(((receipt_sequence, previous, token), t)) => Ok(
                    (ObservationKind::TokenMutated { receipt_sequence, previous, token }, t),
                ),
            }
        } else if b == 9 {
            match take_four(t) {
                Err(e) => Err(e),
                Ok(((receipt_sequence, frame_id, token, responded_ns), t)) => Ok(
                    (
                        ObservationKind::ResponseConfirmed {
                            receipt_sequence,
                            frame_id,
                            token,
                            responded_ns,
                        },
                        t,
                    ),
                ),
            }
        } else if b == 10 {
            Ok((ObservationKind::Failed, t))
        } else if b == 11 {
            Ok((ObservationKind::Closed, t))
        } else {
            Err(RecordError::FixtureTag)
        },
    }
}

/// The held modifiers, one flag each in wire order, from position `n`.
pub open spec fn put_modifiers(v: ModifierState, n: int, rest: Seq<u8>) -> Seq<u8>
    decreases 8 - n,
{
    if n >= 8 {
        rest
    } else {
        put_bool(v.active(modifier_at(n)), put_modifiers(v, n + 1, rest))
    }
}

pub open spec fn take_modifiers(v: ModifierState, n: int, s: Seq<u8>) -> Parsed<ModifierState>
    decreases 8 - n,
{
    if n >= 8 {
        Ok((v, s))
    } else {
        match take_bool(s) {
            Err(e) => Err(e),
            Ok((active, t)) => take_modifiers(v.with(modifier_at(n), active), n + 1, t),
        }
    }
}

/// One report of a contact.
#[verifier::opaque]
pub open spec fn put_touch(v: TouchEvent, rest: Seq<u8>) -> Seq<u8> {
    put_u8(
        touch_phase_code(v.phase),
        put_u32(
            v.id,
            put_real(
                v.time,
                put_real(
                    v.x,
                    put_real(
                        v.y,
                        put_modifiers(
                            v.modifiers,
                            0,
                            put_optional(
                                v.pressure,
                                put_optional(v.width, put_optional(v.height, rest)),
                            ),
                        ),
                    ),
                ),
            ),
        ),
    )
}

/// The three optional measurements of a contact.
pub open spec fn take_measures(s: Seq<u8>) -> Parsed<
    (Option<RealBits>, Option<RealBits>, Option<RealBits>),
> {
    match take_optional(s) {
        Err(e) => Err(e),
        Ok((pressure, t)) => match take_optional(t) {
            Err(e) => Err(e),
            Ok((width, t)) => match take_optional(t) {
                Err(e) => Err(e),
                Ok((height, t)) => Ok(((pressure, width, height), t)),
            },
        },
    }
}

#[verifier::opaque]
pub open spec fn take_touch(s: Seq<u8>) -> Parsed<TouchEvent> {
    match take_touch_phase(s, RecordError::TouchPhase) {
        Err(e) => Err(e),
        Ok((phase, t)) => match take_u32(t) {
            Err(e) => Err(e),
            Ok((id, t)) => match take_three(t) {
                Err(e) => Err(e),
                Ok(((time, x, y), t)) => match take_modifiers(ModifierState::none(), 0, t) {
                    Err(e) => Err(e),
                    Ok((modifiers, t)) => match take_measures(t) {
                        Err(e) => Err(e),
                        Ok(((pressure, width, height), t)) => Ok(
                            (
                                TouchEvent {
                                    phase,
                                    id,
                                    time: RealBits { bits: time },
                                    x: RealBits { bits: x },
                                    y: RealBits { bits: y },
                                    modifiers,
                                    pressure,
                                    width,
                                    height,
                                },
                                t,
                            ),
                        ),
                    },
                },
            },
        },
    }
}

/// What an adapter reported.
#[verifier::opaque]
pub open spec fn put_event(v: HardwareEvent, rest: Seq<u8>) -> Seq<u8> {
    match v {
        HardwareEvent::Touch(touch) => put_u8(0, put_touch(touch, rest)),
        HardwareEvent::Fn { active } => put_u8(1, put_bool(active, rest)),
        HardwareEvent::Modifier { modifier, active } => put_u8(
            2,
            put_u8(modifier.position() as u8, put_bool(active, rest)),
        ),
        HardwareEvent::Device { present } => put_u8(3, put_bool(present, rest)),
        HardwareEvent::Capability { capability, present } => put_u8(
            4,
            put_u8(capability.code(), put_bool(present, rest)),
        ),
        HardwareEvent::Visibility { visible } => put_u8(5, put_bool(visible, rest)),
    }
}

#[verifier::opaque]
pub open spec fn take_event(s: Seq<u8>) -> Parsed<HardwareEvent> {
    match take_u8(s) {
        Err(e) => Err(e),
        Ok((b, t)) => if b == 0 {
            match take_touch(t) {
                Err(e) => Err(e),
                Ok((touch, t)) => Ok((HardwareEvent::Touch(touch), t)),
            }
        } else if b == 1 {
            match take_bool(t) {
                Err(e) => Err(e),
                Ok((active, t)) => Ok((HardwareEvent::Fn { active }, t)),
            }
        } else if b == 2 {
            match take_u8(t) {
                Err(e) => Err(e),
                Ok((m, t)) => if m >= 8 {
                    Err(RecordError::Modifier)
                } else {
                    match take_bool(t) {
                        Err(e) => Err(e),
                        Ok((active, t)) => Ok(
                            (HardwareEvent::Modifier { modifier: modifier_at(m as int), active }, t),
                        ),
                    }
                },
            }
        } else if b == 3 {
            match take_bool(t) {
                Err(e) => Err(e),
                Ok((present, t)) => Ok((HardwareEvent::Device { present }, t)),
            }
        } else if b == 4 {
            match take_u8(t) {
                Err(e) => Err(e),
                Ok((c, t)) => if c >= 2 {
                    Err(RecordError::Capability)
                } else {
                    match take_bool(t) {
                        Err(e) => Err(e),
                        Ok((present, t)) => Ok(
                            (
                                HardwareEvent::Capability {
                                    capability: if c == 0 {
                                        HardwareCapability::Display
                                    } else {
                                        HardwareCapability::Backlight
                                    },
                                    present,
                                },
                                t,
                            ),
                        ),
                    }
                },
            }
        } else if b == 5 {
            match take_bool(t) {
                Err(e) => Err(e),
                Ok((visible, t)) => Ok((HardwareEvent::Visibility { visible }, t)),
            }
        } else {
            Err(RecordError::Event)
        },
    }
}

#[verifier::opaque]
pub open spec fn put_disposition(v: TimerDisposition, rest: Seq<u8>) -> Seq<u8> {
    match v {
        TimerDisposition::Completed => put_u8(0, rest),
        TimerDisposition::Cancelled => put_u8(1, rest),
        TimerDisposition::Rescheduled {
            next_deadline_seconds,
            intervals_advanced,
            skipped_intervals,
            fallback,
        } => put_u8(
            2,
            put_real(
                next_deadline_seconds,
                put_real(
                    intervals_advanced,
                    put_real(skipped_intervals, put_bool(fallback, rest)),
                ),
            ),
        ),
    }
}

#[verifier::opaque]
pub open spec fn take_disposition(s: Seq<u8>) -> Parsed<TimerDisposition> {
    match take_u8(s) {
        Err(e) => Err(e),
        Ok((b, t)) => if b == 0 {
            Ok((TimerDisposition::Completed, t))
        } else if b == 1 {
            Ok((TimerDisposition::Cancelled, t))
        } else if b == 2 {
            match take_three(t) {
                Err(e) => Err(e),
                Ok(((next, advanced, skipped), t)) => match take_bool(t) {
                    Err(e) => Err(e),
                    Ok((fallback, t)) => Ok(
                        (
                            TimerDisposition::Rescheduled {
                                next_deadline_seconds: RealBits { bits: next },
                                intervals_advanced: RealBits { bits: advanced },
                                skipped_intervals: RealBits { bits: skipped },
                                fallback,
                            },
                            t,
                        ),
                    ),
                },
            }
        } else {
            Err(RecordError::Disposition)
        },
    }
}

#[verifier::opaque]
pub open spec fn put_sample(v: Sample, rest: Seq<u8>) -> Seq<u8> {
    put_u64(
        v.sequence,
        put_u64(
            v.span_id,
            put_u8(
                span_kind_code(v.kind),
                put_u64(
                    v.start_ns,
                    put_u64(
                        v.end_ns,
                        put_bool(v.frame_bearing, put_u8(span_status_code(v.status), rest)),
                    ),
                ),
            ),
        ),
    )
}

#[verifier::opaque]
pub open spec fn take_sample(s: Seq<u8>) -> Parsed<Sample> {
    match take_two(s) {
        Err(e) => Err(e),
        Ok(((sequence, span_id), t)) => match take_span_kind(t) {
            Err(e) => Err(e),
            Ok((kind, t)) => match take_two(t) {
                Err(e) => Err(e),
                Ok(((start_ns, end_ns), t)) => match take_bool(t) {
                    Err(e) => Err(e),
                    Ok((frame_bearing, t)) => match take_span_status(t) {
                        Err(e) => Err(e),
                        Ok((status, t)) => Ok(
                            (
                                Sample {
                                    sequence,
                                    span_id,
                                    kind,
                                    start_ns,
                                    end_ns,
                                    frame_bearing,
                                    status,
                                },
                                t,
                            ),
                        ),
                    },
                },
            },
        },
    }
}

#[verifier::opaque]
pub open spec fn put_summary(v: Summary, rest: Seq<u8>) -> Seq<u8> {
    put_u64(
        v.capacity,
        put_u64(
            v.started_spans,
            put_u64(
                v.completed_spans,
                put_u64(
                    v.open_spans,
                    put_u64(
                        v.failed_spans,
                        put_u64(
                            v.lost,
                            put_u64(
                                v.after_close,
                                put_u64(
                                    v.clock_failures,
                                    put_optional_u64(
                                        v.closed_at_ns,
                                        put_u64(
                                            v.clock_resolution_ns,
                                            put_u64(
                                                v.record_bytes,
                                                put_words(v.clock_read_samples_ns@, rest),
                                            ),
                                        ),
                                    ),
                                ),
                            ),
                        ),
                    ),
                ),
            ),
        ),
    )
}

#[verifier::opaque]
pub open spec fn take_summary(s: Seq<u8>) -> Parsed<Summary> {
    match take_four(s) {
        Err(e) => Err(e),
        Ok(((capacity, started_spans, completed_spans, open_spans), t)) => match take_four(t) {
            Err(e) => Err(e),
            Ok(((failed_spans, lost, after_close, clock_failures), t)) => match take_optional_u64(
                t,
            ) {
                Err(e) => Err(e),
                Ok((closed_at_ns, t)) => match take_two(t) {
                    Err(e) => Err(e),
                    Ok(((clock_resolution_ns, record_bytes), t)) => match take_words(t, 32) {
                        Err(e) => Err(e),
                        Ok((samples, t)) => Ok(
                            (
                                Summary {
                                    capacity,
                                    started_spans,
                                    completed_spans,
                                    open_spans,
                                    failed_spans,
                                    lost,
                                    after_close,
                                    clock_failures,
                                    closed_at_ns,
                                    clock_resolution_ns,
                                    record_bytes,
                                    clock_read_samples_ns: array_of(samples),
                                },
                                t,
                            ),
                        ),
                    },
                },
            },
        },
    }
}

/// An observation: a tag and its fields.
pub open spec fn put_kind(v: EventKind, rest: Seq<u8>) -> Seq<u8> {
    match v {
        EventKind::RenderAllocated { attempt } => put_u8(1, put_u64(attempt, rest)),
        EventKind::Published { sequence, allocation, marker } => put_u8(3, put_u64(sequence, put_allocation(allocation, put_marker(marker, rest)))),
        EventKind::Selected { sequence } => put_u8(4, put_u64(sequence, rest)),
        EventKind::Discarded { sequence, reason } => put_u8(5, put_u64(sequence, put_u8(reason_code(reason), rest))),
        EventKind::PendingDiscarded { allocation, marker } => put_u8(6, put_allocation(allocation, put_marker(marker, rest))),
        EventKind::PresentEntered { call, marker } => put_u8(7, put_u64(call, put_marker(marker, rest))),
        EventKind::PresentReturned { call, success } => put_u8(8, put_u64(call, put_bool(success, rest))),
        EventKind::InputReceived(value) => put_u8(9, put_event(value, rest)),
        EventKind::PollFailed => put_u8(10, rest),
        EventKind::TouchCallbackEntered(value) => put_u8(11, put_touch(value, rest)),
        EventKind::TouchCallbackReturned { contact, success } => put_u8(12, put_u32(contact, put_bool(success, rest))),
        EventKind::TimerRegistered { timer_id, delay_seconds, interval_seconds, scheduler_now_seconds } => put_u8(13, put_u64(timer_id, put_real(delay_seconds, put_optional(interval_seconds, put_optional(scheduler_now_seconds, rest))))),
        EventKind::TimerActivated { timer_id, scheduler_now_seconds, deadline_seconds } => put_u8(14, put_u64(timer_id, put_real(scheduler_now_seconds, put_real(deadline_seconds, rest)))),
        EventKind::TimerCancelled { timer_id, removed } => put_u8(15, put_u64(timer_id, put_bool(removed, rest))),
        EventKind::TimerDeadlineShifted { timer_id, previous_deadline_seconds, shift_seconds, deadline_seconds } => put_u8(16, put_u64(timer_id, put_real(previous_deadline_seconds, put_real(shift_seconds, put_real(deadline_seconds, rest))))),
        EventKind::TimerDispatched { timer_id, scheduled_deadline_seconds, scheduler_now_seconds } => put_u8(17, put_u64(timer_id, put_real(scheduled_deadline_seconds, put_real(scheduler_now_seconds, rest)))),
        EventKind::TimerFinished { timer_id, success, scheduler_now_seconds, disposition } => put_u8(18, put_u64(timer_id, put_bool(success, put_real(scheduler_now_seconds, put_disposition(disposition, rest))))),
        EventKind::RedrawRequested { coalesced } => put_u8(19, put_bool(coalesced, rest)),
        EventKind::WorkerLoadFailed => put_u8(20, rest),
        EventKind::WorkerLoopFailed => put_u8(21, rest),
        EventKind::MinimalSpan(value) => put_u8(22, put_sample(value, rest)),
        EventKind::MinimalSummary(value) => put_u8(23, put_summary(value, rest)),
        EventKind::WorkerCommandFailed => put_u8(24, rest),
        EventKind::WorkerRunFailed => put_u8(25, rest),
        EventKind::WorkerCaptureConfigured { detailed } => put_u8(26, put_bool(detailed, rest)),
        EventKind::BrokerConfigured { mode, start_ns, rate, causal } => put_u8(28, put_u8(mode_code(mode), put_u64(start_ns, put_u32(rate, put_bool(causal, rest))))),
        EventKind::FixtureObserved { synthetic, decision_ns, kind } => put_u8(32, put_bool(synthetic, put_u64(decision_ns, put_fixture(kind, rest)))),
        EventKind::RenderFinished { attempt, marker } => put_u8(
            2,
            put_u64(
                attempt,
                match marker {
                    Some(marker) => put_bool(true, put_marker(marker, rest)),
                    None => put_bool(false, rest),
                },
            ),
        ),
        EventKind::MinimalCalibration { cost_ns } => put_u8(27, put_words(cost_ns@, rest)),
        EventKind::BrokerOperation { operation, success } => put_u8(
            29,
            put_u8(operation.code(), put_bool(success, rest)),
        ),
    }
}

/// The operation that a byte stands for.
pub open spec fn operation_of(code: u8) -> Operation {
    choose|o: Operation| o.code() == code
}

pub broadcast proof fn lemma_operation_of(o: Operation)
    ensures
        #![trigger operation_of(o.code())]
        operation_of(o.code()) == o,
        o.code() <= 10,
{
    let found = operation_of(o.code());
    assert(found.code() == o.code());
}

pub proof fn lemma_operation_exists(code: u8)
    requires
        code <= 10,
    ensures
        operation_of(code).code() == code,
{
    assert(Operation::Claim.code() == 0);
    assert(Operation::Reacquire.code() == 1);
    assert(Operation::ConfirmOwner.code() == 2);
    assert(Operation::EmitKeys.code() == 3);
    assert(Operation::GetBacklight.code() == 4);
    assert(Operation::SetBacklight.code() == 5);
    assert(Operation::Release.code() == 6);
    assert(Operation::PlanIdentity.code() == 7);
    assert(Operation::SourceClosed.code() == 8);
    assert(Operation::SourceAbandoned.code() == 9);
    assert(Operation::AfterClose.code() == 10);
    assert(exists|o: Operation| o.code() == code);
}

pub open spec fn take_kind(s: Seq<u8>) -> Parsed<EventKind> {
    match take_u8(s) {
        Err(e) => Err(e),
        Ok((tag, t)) => if tag == 1 {
            match take_u64(t) {
                Err(e) => Err(e),
                Ok((attempt, t)) => Ok((EventKind::RenderAllocated { attempt }, t)),
            }
        } else if tag == 3 {
            match take_u64(t) {
                Err(e) => Err(e),
                Ok((sequence, t)) => match take_allocation(t) {
                        Err(e) => Err(e),
                        Ok((allocation, t)) => match take_marker(t) {
                                Err(e) => Err(e),
                                Ok((marker, t)) => Ok((EventKind::Published { sequence, allocation, marker }, t)),
                            },
                    },
            }
        } else if tag == 4 {
            match take_u64(t) {
                Err(e) => Err(e),
                Ok((sequence, t)) => Ok((EventKind::Selected { sequence }, t)),
            }
        } else if tag == 5 {
            match take_u64(t) {
                Err(e) => Err(e),
                Ok((sequence, t)) => match take_reason(t) {
                        Err(e) => Err(e),
                        Ok((reason, t)) => Ok((EventKind::Discarded { sequence, reason }, t)),
                    },
            }
        } else if tag == 6 {
            match take_allocation(t) {
                Err(e) => Err(e),
                Ok((allocation, t)) => match take_marker(t) {
                        Err(e) => Err(e),
                        Ok((marker, t)) => Ok((EventKind::PendingDiscarded { allocation, marker }, t)),
                    },
            }
        } else if tag == 7 {
            match take_u64(t) {
                Err(e) => Err(e),
                Ok((call, t)) => match take_marker(t) {
                        Err(e) => Err(e),
                        Ok((marker, t)) => Ok((EventKind::PresentEntered { call, marker }, t)),
                    },
            }
        } else if tag == 8 {
            match take_u64(t) {
                Err(e) => Err(e),
                Ok((call, t)) => match take_bool(t) {
                        Err(e) => Err(e),
                        Ok((success, t)) => Ok((EventKind::PresentReturned { call, success }, t)),
                    },
            }
        } else if tag == 9 {
            match take_event(t) {
                Err(e) => Err(e),
                Ok((value, t)) => Ok((EventKind::InputReceived(value), t)),
            }
        } else if tag == 10 {
            Ok((EventKind::PollFailed, t))
        } else if tag == 11 {
            match take_touch(t) {
                Err(e) => Err(e),
                Ok((value, t)) => Ok((EventKind::TouchCallbackEntered(value), t)),
            }
        } else if tag == 12 {
            match take_u32(t) {
                Err(e) => Err(e),
                Ok((contact, t)) => match take_bool(t) {
                        Err(e) => Err(e),
                        Ok((success, t)) => Ok((EventKind::TouchCallbackReturned { contact, success }, t)),
                    },
            }
        } else if tag == 13 {
            match take_u64(t) {
                Err(e) => Err(e),
                Ok((timer_id, t)) => match take_real(t) {
                        Err(e) => Err(e),
                        Ok((delay_seconds, t)) => match take_optional(t) {
                                Err(e) => Err(e),
                                Ok((interval_seconds, t)) => match take_optional(t) {
                                        Err(e) => Err(e),
                                        Ok((scheduler_now_seconds, t)) => Ok((EventKind::TimerRegistered { timer_id, delay_seconds, interval_seconds, scheduler_now_seconds }, t)),
                                    },
                            },
                    },
            }
        } else if tag == 14 {
            match take_u64(t) {
                Err(e) => Err(e),
                Ok((timer_id, t)) => match take_real(t) {
                        Err(e) => Err(e),
                        Ok((scheduler_now_seconds, t)) => match take_real(t) {
                                Err(e) => Err(e),
                                Ok((deadline_seconds, t)) => Ok((EventKind::TimerActivated { timer_id, scheduler_now_seconds, deadline_seconds }, t)),
                            },
                    },
            }
        } else if tag == 15 {
            match take_u64(t) {
                Err(e) => Err(e),
                Ok((timer_id, t)) => match take_bool(t) {
                        Err(e) => Err(e),
                        Ok((removed, t)) => Ok((EventKind::TimerCancelled { timer_id, removed }, t)),
                    },
            }
        } else if tag == 16 {
            match take_u64(t) {
                Err(e) => Err(e),
                Ok((timer_id, t)) => match take_real(t) {
                        Err(e) => Err(e),
                        Ok((previous_deadline_seconds, t)) => match take_real(t) {
                                Err(e) => Err(e),
                                Ok((shift_seconds, t)) => match take_real(t) {
                                        Err(e) => Err(e),
                                        Ok((deadline_seconds, t)) => Ok((EventKind::TimerDeadlineShifted { timer_id, previous_deadline_seconds, shift_seconds, deadline_seconds }, t)),
                                    },
                            },
                    },
            }
        } else if tag == 17 {
            match take_u64(t) {
                Err(e) => Err(e),
                Ok((timer_id, t)) => match take_real(t) {
                        Err(e) => Err(e),
                        Ok((scheduled_deadline_seconds, t)) => match take_real(t) {
                                Err(e) => Err(e),
                                Ok((scheduler_now_seconds, t)) => Ok((EventKind::TimerDispatched { timer_id, scheduled_deadline_seconds, scheduler_now_seconds }, t)),
                            },
                    },
            }
        } else if tag == 18 {
            match take_u64(t) {
                Err(e) => Err(e),
                Ok((timer_id, t)) => match take_bool(t) {
                        Err(e) => Err(e),
                        Ok((success, t)) => match take_real(t) {
                                Err(e) => Err(e),
                                Ok((scheduler_now_seconds, t)) => match take_disposition(t) {
                                        Err(e) => Err(e),
                                        Ok((disposition, t)) => Ok((EventKind::TimerFinished { timer_id, success, scheduler_now_seconds, disposition }, t)),
                                    },
                            },
                    },
            }
        } else if tag == 19 {
            match take_bool(t) {
                Err(e) => Err(e),
                Ok((coalesced, t)) => Ok((EventKind::RedrawRequested { coalesced }, t)),
            }
        } else if tag == 20 {
            Ok((EventKind::WorkerLoadFailed, t))
        } else if tag == 21 {
            Ok((EventKind::WorkerLoopFailed, t))
        } else if tag == 22 {
            match take_sample(t) {
                Err(e) => Err(e),
                Ok((value, t)) => Ok((EventKind::MinimalSpan(value), t)),
            }
        } else if tag == 23 {
            match take_summary(t) {
                Err(e) => Err(e),
                Ok((value, t)) => Ok((EventKind::MinimalSummary(value), t)),
            }
        } else if tag == 24 {
            Ok((EventKind::WorkerCommandFailed, t))
        } else if tag == 25 {
            Ok((EventKind::WorkerRunFailed, t))
        } else if tag == 26 {
            match take_bool(t) {
                Err(e) => Err(e),
                Ok((detailed, t)) => Ok((EventKind::WorkerCaptureConfigured { detailed }, t)),
            }
        } else if tag == 28 {
            match take_mode(t) {
                Err(e) => Err(e),
                Ok((mode, t)) => match take_u64(t) {
                        Err(e) => Err(e),
                        Ok((start_ns, t)) => match take_u32(t) {
                                Err(e) => Err(e),
                                Ok((rate, t)) => match take_bool(t) {
                                        Err(e) => Err(e),
                                        Ok((causal, t)) => Ok((EventKind::BrokerConfigured { mode, start_ns, rate, causal }, t)),
                                    },
                            },
                    },
            }
        } else if tag == 32 {
            match take_bool(t) {
                Err(e) => Err(e),
                Ok((synthetic, t)) => match take_u64(t) {
                        Err(e) => Err(e),
                        Ok((decision_ns, t)) => match take_fixture(t) {
                                Err(e) => Err(e),
                                Ok((kind, t)) => Ok((EventKind::FixtureObserved { synthetic, decision_ns, kind }, t)),
                            },
                    },
            }
        } else if tag == 2 {
            match take_u64(t) {
                Err(e) => Err(e),
                Ok((attempt, t)) => match take_bool(t) {
                    Err(e) => Err(e),
                    Ok((false, t)) => Ok((EventKind::RenderFinished { attempt, marker: None }, t)),
                    Ok((true, t)) => match take_marker(t) {
                        Err(e) => Err(e),
                        Ok((marker, t)) => Ok(
                            (EventKind::RenderFinished { attempt, marker: Some(marker) }, t),
                        ),
                    },
                },
            }
        } else if tag == 27 {
            match take_words(t, 32) {
                Err(e) => Err(e),
                Ok((costs, t)) => Ok((EventKind::MinimalCalibration { cost_ns: array_of(costs) }, t)),
            }
        } else if tag == 29 {
            match take_u8(t) {
                Err(e) => Err(e),
                Ok((code, t)) => if code > 10 {
                    Err(RecordError::Operation)
                } else {
                    match take_bool(t) {
                        Err(e) => Err(e),
                        Ok((success, t)) => Ok(
                            (
                                EventKind::BrokerOperation { operation: operation_of(code), success },
                                t,
                            ),
                        ),
                    }
                },
            }
        } else {
            Err(RecordError::Tag)
        },
    }
}

/// Every marker in an observation is well formed.
pub open spec fn markers_valid(v: EventKind) -> bool {
    match v {
        EventKind::RenderFinished { marker: Some(Ok(m)), .. } => valid_packet(m@),
        EventKind::Published { marker: Ok(m), .. } => valid_packet(m@),
        EventKind::PendingDiscarded { marker: Ok(m), .. } => valid_packet(m@),
        EventKind::PresentEntered { marker: Ok(m), .. } => valid_packet(m@),
        _ => true,
    }
}

/// The allocation that an observation carries, if it does.
pub open spec fn carried_allocation(v: EventKind) -> Option<FrameAllocation> {
    match v {
        EventKind::Published { allocation, .. } => allocation,
        EventKind::PendingDiscarded { allocation, .. } => allocation,
        _ => None,
    }
}

/// An observation has a block: its allocation is in range and its marker well formed.
pub open spec fn encodable(v: EventKind) -> bool {
    &&& markers_valid(v)
    &&& (carried_allocation(v) matches Some(a) ==> a.valid())
}

pub broadcast proof fn lemma_put_optional(v: Option<RealBits>, t: Seq<u8>)
    ensures
        #![trigger put_optional(v, t)]
        take_optional(put_optional(v, t)) == Ok::<(Option<RealBits>, Seq<u8>), RecordError>((v, t)),
        1 <= put_optional(v, t).len() - t.len() <= 9,
{
    broadcast use group_put;

    reveal(put_optional);
    reveal(take_optional);
}

pub broadcast proof fn lemma_take_optional(s: Seq<u8>)
    ensures
        #![trigger take_optional(s)]
        take_optional(s) matches Ok((v, t)) ==> s == put_optional(v, t),
{
    broadcast use group_take;

    reveal(put_optional);
    reveal(take_optional);
}

pub broadcast proof fn lemma_put_allocation(v: Option<FrameAllocation>, t: Seq<u8>)
    requires
        v matches Some(a) ==> a.valid(),
    ensures
        #![trigger put_allocation(v, t)]
        take_allocation(put_allocation(v, t)) == Ok::<(Option<FrameAllocation>, Seq<u8>), RecordError>((v, t)),
        1 <= put_allocation(v, t).len() - t.len() <= 25,
{
    broadcast use group_put;

    reveal(put_allocation);
    reveal(take_allocation);
}

pub broadcast proof fn lemma_take_allocation(s: Seq<u8>)
    ensures
        #![trigger take_allocation(s)]
        take_allocation(s) matches Ok((v, t)) ==> s == put_allocation(v, t) && (v matches Some(a) ==> a.valid()),
{
    broadcast use group_take;

    reveal(put_allocation);
    reveal(take_allocation);
}

pub broadcast proof fn lemma_put_marker(v: Result<Marker, DecodeError>, t: Seq<u8>)
    requires
        v matches Ok(m) ==> valid_packet(m@),
    ensures
        #![trigger put_marker(v, t)]
        take_marker(put_marker(v, t)) == Ok::<(Result<Marker, DecodeError>, Seq<u8>), RecordError>((v, t)),
        1 <= put_marker(v, t).len() - t.len() <= 409,
{
    broadcast use group_put;

    reveal(put_marker);
    reveal(take_marker);
}

pub broadcast proof fn lemma_take_marker(s: Seq<u8>)
    ensures
        #![trigger take_marker(s)]
        take_marker(s) matches Ok((v, t)) ==> s == put_marker(v, t) && (v matches Ok(m) ==> valid_packet(m@)),
{
    broadcast use group_take;

    reveal(put_marker);
    reveal(take_marker);
    if let Ok((b, t)) = take_u8(s) {
        if let Ok((packet, u)) = take_bytes(t, 408) {
            lemma_marker_exists(packet);
        }
    }
}

pub broadcast proof fn lemma_put_fixture(v: ObservationKind, t: Seq<u8>)
    ensures
        #![trigger put_fixture(v, t)]
        take_fixture(put_fixture(v, t)) == Ok::<(ObservationKind, Seq<u8>), RecordError>((v, t)),
        1 <= put_fixture(v, t).len() - t.len() <= 33,
{
    broadcast use group_put;

    reveal(put_fixture);
    reveal(take_fixture);
}

pub broadcast proof fn lemma_take_fixture(s: Seq<u8>)
    ensures
        #![trigger take_fixture(s)]
        take_fixture(s) matches Ok((v, t)) ==> s == put_fixture(v, t),
{
    broadcast use group_take;

    reveal(put_fixture);
    reveal(take_fixture);
}

proof fn lemma_with_other(w: ModifierState, n: int, active: bool, i: int)
    requires
        0 <= n < 8,
        0 <= i < 8,
    ensures
        w.with(modifier_at(n), active).active(modifier_at(i)) == if i == n {
            active
        } else {
            w.active(modifier_at(i))
        },
{
    assert(modifier_at(i).position() == i && modifier_at(n).position() == n);
}

proof fn lemma_put_modifiers(v: ModifierState, w: ModifierState, n: int, t: Seq<u8>)
    requires
        0 <= n <= 8,
        forall|i: int| 0 <= i < n ==> v.active(#[trigger] modifier_at(i)) == w.active(modifier_at(i)),
    ensures
        take_modifiers(w, n, put_modifiers(v, n, t)) == Ok::<(ModifierState, Seq<u8>), RecordError>(
            (v, t),
        ),
        put_modifiers(v, n, t).len() == 8 - n + t.len(),
    decreases 8 - n,
{
    broadcast use group_put;

    if n < 8 {
        let active = v.active(modifier_at(n));
        assert forall|i: int| 0 <= i < n + 1 implies v.active(#[trigger] modifier_at(i)) == w.with(
            modifier_at(n),
            active,
        ).active(modifier_at(i)) by {
            lemma_with_other(w, n, active, i);
        }
        lemma_put_modifiers(v, w.with(modifier_at(n), active), n + 1, t);
    } else {
        assert(v.active(modifier_at(0)) == w.active(modifier_at(0)));
        assert(v.active(modifier_at(1)) == w.active(modifier_at(1)));
        assert(v.active(modifier_at(2)) == w.active(modifier_at(2)));
        assert(v.active(modifier_at(3)) == w.active(modifier_at(3)));
        assert(v.active(modifier_at(4)) == w.active(modifier_at(4)));
        assert(v.active(modifier_at(5)) == w.active(modifier_at(5)));
        assert(v.active(modifier_at(6)) == w.active(modifier_at(6)));
        assert(v.active(modifier_at(7)) == w.active(modifier_at(7)));
        assert(v == w);
    }
}

proof fn lemma_take_modifiers(w: ModifierState, n: int, s: Seq<u8>)
    requires
        0 <= n <= 8,
    ensures
        take_modifiers(w, n, s) matches Ok((v, t)) ==> s == put_modifiers(v, n, t) && forall|i: int|
            0 <= i < n ==> v.active(#[trigger] modifier_at(i)) == w.active(modifier_at(i)),
    decreases 8 - n,
{
    broadcast use group_take;

    if n < 8 {
        if let Ok((active, t)) = take_bool(s) {
            let w2 = w.with(modifier_at(n), active);
            lemma_take_modifiers(w2, n + 1, t);
            if let Ok((v, u)) = take_modifiers(w2, n + 1, t) {
                lemma_with_other(w, n, active, n);
                assert(v.active(modifier_at(n)) == w2.active(modifier_at(n)));
                assert(s == put_modifiers(v, n, u));
                assert forall|i: int| 0 <= i < n implies v.active(#[trigger] modifier_at(i))
                    == w.active(modifier_at(i)) by {
                    lemma_with_other(w, n, active, i);
                    assert(v.active(modifier_at(i)) == w2.active(modifier_at(i)));
                }
            }
        }
    }
}

pub broadcast proof fn lemma_put_touch(v: TouchEvent, t: Seq<u8>)
    ensures
        #![trigger put_touch(v, t)]
        take_touch(put_touch(v, t)) == Ok::<(TouchEvent, Seq<u8>), RecordError>((v, t)),
        1 <= put_touch(v, t).len() - t.len() <= 64,
{
    broadcast use {group_put, lemma_put_optional};

    reveal(put_touch);
    reveal(take_touch);
    let measures = put_optional(v.pressure, put_optional(v.width, put_optional(v.height, t)));
    lemma_put_modifiers(v.modifiers, ModifierState::none(), 0, measures);
}

pub broadcast proof fn lemma_take_touch(s: Seq<u8>)
    ensures
        #![trigger take_touch(s)]
        take_touch(s) matches Ok((v, t)) ==> s == put_touch(v, t),
{
    broadcast use {group_take, lemma_take_optional};

    reveal(put_touch);
    reveal(take_touch);
    if let Ok((phase, t1)) = take_touch_phase(s, RecordError::TouchPhase) {
        if let Ok((id, t2)) = take_u32(t1) {
            if let Ok((_, t3)) = take_three(t2) {
                lemma_take_modifiers(ModifierState::none(), 0, t3);
            }
        }
    }
}

pub broadcast proof fn lemma_put_event(v: HardwareEvent, t: Seq<u8>)
    ensures
        #![trigger put_event(v, t)]
        take_event(put_event(v, t)) == Ok::<(HardwareEvent, Seq<u8>), RecordError>((v, t)),
        1 <= put_event(v, t).len() - t.len() <= 65,
{
    broadcast use {group_put, lemma_put_touch};

    reveal(put_event);
    reveal(take_event);
}

pub broadcast proof fn lemma_take_event(s: Seq<u8>)
    ensures
        #![trigger take_event(s)]
        take_event(s) matches Ok((v, t)) ==> s == put_event(v, t),
{
    broadcast use {group_take, lemma_take_touch};

    reveal(put_event);
    reveal(take_event);
}

pub broadcast proof fn lemma_put_disposition(v: TimerDisposition, t: Seq<u8>)
    ensures
        #![trigger put_disposition(v, t)]
        take_disposition(put_disposition(v, t)) == Ok::<(TimerDisposition, Seq<u8>), RecordError>((v, t)),
        1 <= put_disposition(v, t).len() - t.len() <= 26,
{
    broadcast use group_put;

    reveal(put_disposition);
    reveal(take_disposition);
}

pub broadcast proof fn lemma_take_disposition(s: Seq<u8>)
    ensures
        #![trigger take_disposition(s)]
        take_disposition(s) matches Ok((v, t)) ==> s == put_disposition(v, t),
{
    broadcast use group_take;

    reveal(put_disposition);
    reveal(take_disposition);
}

pub broadcast proof fn lemma_put_sample(v: Sample, t: Seq<u8>)
    ensures
        #![trigger put_sample(v, t)]
        take_sample(put_sample(v, t)) == Ok::<(Sample, Seq<u8>), RecordError>((v, t)),
        1 <= put_sample(v, t).len() - t.len() <= 35,
{
    broadcast use group_put;

    reveal(put_sample);
    reveal(take_sample);
}

pub broadcast proof fn lemma_take_sample(s: Seq<u8>)
    ensures
        #![trigger take_sample(s)]
        take_sample(s) matches Ok((v, t)) ==> s == put_sample(v, t),
{
    broadcast use group_take;

    reveal(put_sample);
    reveal(take_sample);
}

pub broadcast proof fn lemma_put_summary(v: Summary, t: Seq<u8>)
    ensures
        #![trigger put_summary(v, t)]
        take_summary(put_summary(v, t)) == Ok::<(Summary, Seq<u8>), RecordError>((v, t)),
        1 <= put_summary(v, t).len() - t.len() <= 345,
{
    broadcast use {group_put, lemma_words};

    reveal(put_summary);
    reveal(take_summary);
}

pub broadcast proof fn lemma_take_summary(s: Seq<u8>)
    ensures
        #![trigger take_summary(s)]
        take_summary(s) matches Ok((v, t)) ==> s == put_summary(v, t),
{
    broadcast use {group_take, lemma_take_words};

    reveal(put_summary);
    reveal(take_summary);
    if let Ok((_, t1)) = take_four(s) {
        if let Ok((_, t2)) = take_four(t1) {
            if let Ok((_, t3)) = take_optional_u64(t2) {
                if let Ok((_, t4)) = take_two(t3) {
                    if let Ok((samples, _)) = take_words(t4, 32) {
                        lemma_array_exists::<u64, 32>(samples);
                    }
                }
            }
        }
    }
}

pub broadcast group group_put_parts {
    group_put,
    lemma_words,
    lemma_put_optional,
    lemma_put_allocation,
    lemma_put_marker,
    lemma_put_fixture,
    lemma_put_touch,
    lemma_put_event,
    lemma_put_disposition,
    lemma_put_sample,
    lemma_put_summary,
    lemma_operation_of,
}

pub broadcast group group_take_parts {
    group_take,
    lemma_take_words,
    lemma_take_optional,
    lemma_take_allocation,
    lemma_take_marker,
    lemma_take_fixture,
    lemma_take_touch,
    lemma_take_event,
    lemma_take_disposition,
    lemma_take_sample,
    lemma_take_summary,
}

/// One observation is written and read back: the goal of the case analysis below.
pub open spec fn kind_round_trip(v: EventKind, t: Seq<u8>) -> bool {
    &&& take_kind(put_kind(v, t)) == Ok::<(EventKind, Seq<u8>), RecordError>((v, t))
    &&& 1 <= put_kind(v, t).len() - t.len() <= 460
}

#[verifier::rlimit(60)]
pub proof fn lemma_put_kind(v: EventKind, t: Seq<u8>)
    requires
        encodable(v),
    ensures
        kind_round_trip(v, t),
{
    broadcast use group_put_parts;

    match v {
        EventKind::RenderAllocated { .. } => assert(kind_round_trip(v, t)),
        EventKind::RenderFinished { .. } => assert(kind_round_trip(v, t)),
        EventKind::Published { .. } => assert(kind_round_trip(v, t)),
        EventKind::Selected { .. } => assert(kind_round_trip(v, t)),
        EventKind::Discarded { .. } => assert(kind_round_trip(v, t)),
        EventKind::PendingDiscarded { .. } => assert(kind_round_trip(v, t)),
        EventKind::PresentEntered { .. } => assert(kind_round_trip(v, t)),
        EventKind::PresentReturned { .. } => assert(kind_round_trip(v, t)),
        EventKind::InputReceived(_) => assert(kind_round_trip(v, t)),
        EventKind::PollFailed => assert(kind_round_trip(v, t)),
        EventKind::TouchCallbackEntered(_) => assert(kind_round_trip(v, t)),
        EventKind::TouchCallbackReturned { .. } => assert(kind_round_trip(v, t)),
        EventKind::TimerRegistered { .. } => assert(kind_round_trip(v, t)),
        EventKind::TimerActivated { .. } => assert(kind_round_trip(v, t)),
        EventKind::TimerCancelled { .. } => assert(kind_round_trip(v, t)),
        EventKind::TimerDeadlineShifted { .. } => assert(kind_round_trip(v, t)),
        EventKind::TimerDispatched { .. } => assert(kind_round_trip(v, t)),
        EventKind::TimerFinished { .. } => assert(kind_round_trip(v, t)),
        EventKind::RedrawRequested { .. } => assert(kind_round_trip(v, t)),
        EventKind::WorkerLoadFailed => assert(kind_round_trip(v, t)),
        EventKind::WorkerLoopFailed => assert(kind_round_trip(v, t)),
        EventKind::MinimalSpan(_) => assert(kind_round_trip(v, t)),
        EventKind::MinimalSummary(_) => assert(kind_round_trip(v, t)),
        EventKind::WorkerCommandFailed => assert(kind_round_trip(v, t)),
        EventKind::WorkerRunFailed => assert(kind_round_trip(v, t)),
        EventKind::WorkerCaptureConfigured { .. } => assert(kind_round_trip(v, t)),
        EventKind::MinimalCalibration { .. } => assert(kind_round_trip(v, t)),
        EventKind::BrokerConfigured { .. } => assert(kind_round_trip(v, t)),
        EventKind::BrokerOperation { .. } => assert(kind_round_trip(v, t)),
        EventKind::FixtureObserved { .. } => assert(kind_round_trip(v, t)),
    }
}

pub open spec fn kind_canonical(s: Seq<u8>) -> bool {
    take_kind(s) matches Ok((v, t)) ==> s == put_kind(v, t) && encodable(v)
}

#[verifier::rlimit(60)]
pub proof fn lemma_take_kind(s: Seq<u8>)
    ensures
        kind_canonical(s),
{
    broadcast use group_take_parts;

    if let Ok((tag, t)) = take_u8(s) {
        if tag == 27 {
            if let Ok((costs, u)) = take_words(t, 32) {
                lemma_array_exists::<u64, 32>(costs);
            }
            assert(kind_canonical(s));
        } else if tag == 29 {
            if let Ok((code, u)) = take_u8(t) {
                if code <= 10 {
                    lemma_operation_exists(code);
                }
            }
            assert(kind_canonical(s));
        } else if tag == 1 {
            assert(kind_canonical(s));
        } else if tag == 2 {
            assert(kind_canonical(s));
        } else if tag == 3 {
            assert(kind_canonical(s));
        } else if tag == 4 {
            assert(kind_canonical(s));
        } else if tag == 5 {
            assert(kind_canonical(s));
        } else if tag == 6 {
            assert(kind_canonical(s));
        } else if tag == 7 {
            assert(kind_canonical(s));
        } else if tag == 8 {
            assert(kind_canonical(s));
        } else if tag == 9 {
            assert(kind_canonical(s));
        } else if tag == 10 {
            assert(kind_canonical(s));
        } else if tag == 11 {
            assert(kind_canonical(s));
        } else if tag == 12 {
            assert(kind_canonical(s));
        } else if tag == 13 {
            assert(kind_canonical(s));
        } else if tag == 14 {
            assert(kind_canonical(s));
        } else if tag == 15 {
            assert(kind_canonical(s));
        } else if tag == 16 {
            assert(kind_canonical(s));
        } else if tag == 17 {
            assert(kind_canonical(s));
        } else if tag == 18 {
            assert(kind_canonical(s));
        } else if tag == 19 {
            assert(kind_canonical(s));
        } else if tag == 20 {
            assert(kind_canonical(s));
        } else if tag == 21 {
            assert(kind_canonical(s));
        } else if tag == 22 {
            assert(kind_canonical(s));
        } else if tag == 23 {
            assert(kind_canonical(s));
        } else if tag == 24 {
            assert(kind_canonical(s));
        } else if tag == 25 {
            assert(kind_canonical(s));
        } else if tag == 26 {
            assert(kind_canonical(s));
        } else if tag == 28 {
            assert(kind_canonical(s));
        } else if tag == 32 {
            assert(kind_canonical(s));
        }
    }
}

/// The record's place and time, and its observation.
pub open spec fn put_record(r: Record) -> Seq<u8> {
    put_u64(r.sequence, put_u64(r.at_ns, put_kind(r.kind, Seq::empty())))
}

/// Only zeros from `from` on.
pub open spec fn zeros_from(s: Seq<u8>, from: int) -> bool {
    forall|i: int| from <= i < s.len() ==> #[trigger] s[i] == 0
}

/// The block of a record: its length, its contents and zeros.
pub open spec fn record_block(r: Record) -> Seq<u8> {
    let body = put_record(r);
    le_bytes((2 + body.len()) as nat, 2) + body + Seq::new((510 - body.len()) as nat, |i: int| 0u8)
}

/// The record that a byte string starts with.
pub open spec fn take_record(s: Seq<u8>) -> Parsed<Record> {
    match take_two(s) {
        Err(e) => Err(e),
        Ok(((sequence, at_ns), t)) => match take_kind(t) {
            Err(e) => Err(e),
            Ok((kind, t)) => Ok((Record { sequence, at_ns, kind }, t)),
        },
    }
}

/// The record that a block denotes, or why it denotes none.
pub open spec fn block_record(s: Seq<u8>) -> Result<Record, RecordError> {
    let length = le_value(s.take(2)) as int;
    if !(19 <= length <= RECORD_BYTES) {
        Err(RecordError::Length)
    } else if !zeros_from(s, length) {
        Err(RecordError::Padding)
    } else {
        match take_record(s.subrange(2, length)) {
            Err(e) => Err(e),
            Ok((r, t)) => if t.len() == 0 {
                Ok(r)
            } else {
                Err(RecordError::Trailing)
            },
        }
    }
}

/// The block of a record denotes that record.
pub proof fn law_block_denotes_its_record(r: Record)
    requires
        encodable(r.kind),
    ensures
        record_block(r).len() == RECORD_BYTES,
        block_record(record_block(r)) == Ok::<Record, RecordError>(r),
{
    broadcast use group_put;

    lemma_put_kind(r.kind, Seq::empty());
    let body = put_record(r);
    let length = (2 + body.len()) as nat;
    let s = record_block(r);
    lemma_le_bytes_len(length, 2);
    lemma_pow256_values();
    lemma_le_round_trip(length, 2);
    assert(s.take(2) =~= le_bytes(length, 2));
    assert(s.subrange(2, length as int) =~= body);
    assert(zeros_from(s, length as int));
}

/// A block that denotes a record is the block of that record: no record has two.
pub proof fn law_block_is_canonical(s: Seq<u8>)
    requires
        s.len() == RECORD_BYTES,
        block_record(s) is Ok,
    ensures
        encodable(block_record(s)->Ok_0.kind),
        record_block(block_record(s)->Ok_0) == s,
{
    broadcast use group_take;

    let length = le_value(s.take(2)) as int;
    let body = s.subrange(2, length);
    let (r, t) = take_record(body)->Ok_0;
    assert(t =~= Seq::empty());
    let (words, u) = take_two(body)->Ok_0;
    lemma_take_kind(u);
    assert(put_record(r) == body);
    lemma_le_canonical(s.take(2));
    assert(record_block(r) =~= s);
}

} // verus!
