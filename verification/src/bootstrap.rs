//! Handing a plan and a storage to a process when it starts.
use vstd::prelude::*;

use crate::bytes::{copy_bytes, same_bytes};
use crate::events::{Mode, Resolution};
use crate::fixture::Plan;
use crate::fixture_model::{plan_error, planned, FixtureError, Receipt, Schedule};

verus! {

/// Why a bootstrap is refused.
#[derive(Clone, Copy, Debug, PartialEq, Eq, Structural)]
pub enum BootstrapError {
    SendTimeout,
    SendClosed,
    ReceiveTimeout,
    Disconnected,
    Ancillary,
    OffDescriptors,
    StorageCount,
    Version,
}

impl BootstrapError {
    /// The words of an error.
    pub open spec fn text(self) -> Seq<char> {
        match self {
            BootstrapError::SendTimeout => "sending worker bootstrap descriptors timed out"@,
            BootstrapError::SendClosed => "worker bootstrap descriptor send closed"@,
            BootstrapError::ReceiveTimeout => "receiving worker bootstrap descriptors timed out"@,
            BootstrapError::Disconnected => "worker disconnected before descriptor bootstrap"@,
            BootstrapError::Ancillary => "truncated or unsupported bootstrap ancillary data"@,
            BootstrapError::OffDescriptors => "off bootstrap carries descriptors"@,
            BootstrapError::StorageCount =>
            "worker bootstrap requires exactly one storage descriptor"@,
            BootstrapError::Version => "unknown worker descriptor bootstrap version"@,
        }
    }

    /// The words of this error.
    pub fn message(self) -> (s: &'static str)
        ensures
            s@ == self.text(),
    {
        match self {
            BootstrapError::SendTimeout => "sending worker bootstrap descriptors timed out",
            BootstrapError::SendClosed => "worker bootstrap descriptor send closed",
            BootstrapError::ReceiveTimeout => "receiving worker bootstrap descriptors timed out",
            BootstrapError::Disconnected => "worker disconnected before descriptor bootstrap",
            BootstrapError::Ancillary => "truncated or unsupported bootstrap ancillary data",
            BootstrapError::OffDescriptors => "off bootstrap carries descriptors",
            BootstrapError::StorageCount =>
            "worker bootstrap requires exactly one storage descriptor",
            BootstrapError::Version => "unknown worker descriptor bootstrap version",
        }
    }
}

/// How much is recorded. It says nothing of markers or scenes.
#[derive(Clone, Copy, Debug, PartialEq, Eq, Structural)]
pub enum CaptureLevel {
    Detailed,
    Minimal,
}

/// A plan as it is handed over. The receiver checks it again.
pub struct FixtureBootstrap {
    pub run: Vec<u8>,
    pub generation: Vec<u8>,
    pub start_ns: u64,
    pub rate: u32,
    pub mode: Mode,
    pub causal: bool,
}

/// The contents of a plan.
pub struct BootstrapView {
    pub run: Seq<u8>,
    pub generation: Seq<u8>,
    pub start_ns: u64,
    pub rate: u32,
    pub mode: Mode,
    pub causal: bool,
}

impl View for FixtureBootstrap {
    type V = BootstrapView;

    open spec fn view(&self) -> BootstrapView {
        BootstrapView {
            run: self.run@,
            generation: self.generation@,
            start_ns: self.start_ns,
            rate: self.rate,
            mode: self.mode,
            causal: self.causal,
        }
    }
}

impl BootstrapView {
    /// Why a plan is refused.
    pub open spec fn error(self) -> Option<FixtureError> {
        match plan_error(self.run, self.generation, self.start_ns, self.rate) {
            Some(e) => Some(e),
            None => if self.causal && self.rate != 30 {
                Some(FixtureError::CausalRate)
            } else {
                None
            },
        }
    }

    /// The schedule of a plan.
    pub open spec fn schedule(self) -> Schedule {
        planned(self.start_ns, self.rate, self.mode, self.causal)
    }

    /// How much is recorded: the one mode that observes is recorded in detail.
    pub open spec fn level(self) -> CaptureLevel {
        if self.mode == Mode::C {
            CaptureLevel::Detailed
        } else {
            CaptureLevel::Minimal
        }
    }
}

impl FixtureBootstrap {
    /// A plan to be handed over, without touches to be answered.
    pub fn new(run: &[u8], generation: &[u8], start_ns: u64, rate: u32, mode: Mode) -> (r: Result<
        FixtureBootstrap,
        FixtureError,
    >)
        ensures
            match r {
                Ok(plan) => plan_error(run@, generation@, start_ns, rate) is None && plan@ == (
                BootstrapView {
                    run: run@,
                    generation: generation@,
                    start_ns,
                    rate,
                    mode,
                    causal: false,
                }),
                Err(e) => plan_error(run@, generation@, start_ns, rate) == Some(e),
            },
    {
        match Plan::new(run, generation, start_ns, rate, mode) {
            Ok(_) => Ok(
                FixtureBootstrap {
                    run: copy_bytes(run),
                    generation: copy_bytes(generation),
                    start_ns,
                    rate,
                    mode,
                    causal: false,
                },
            ),
            Err(e) => Err(e),
        }
    }

    /// The plan itself, checked.
    pub fn plan(&self) -> (r: Result<Plan, FixtureError>)
        ensures
            match r {
                Ok(plan) => self@.error() is None && plan.run@ == self@.run && plan.generation@
                    == self@.generation && plan.schedule == self@.schedule() && plan.schedule.wf(),
                Err(e) => self@.error() == Some(e),
            },
    {
        let plan: Plan = Plan::new(
            self.run.as_slice(),
            self.generation.as_slice(),
            self.start_ns,
            self.rate,
            self.mode,
        )?;
        if self.causal {
            plan.causal_response()
        } else {
            Ok(plan)
        }
    }

    /// How much is recorded under this plan.
    pub fn capture_level(&self) -> (level: CaptureLevel)
        ensures
            level == self@.level(),
    {
        match self.mode {
            Mode::C => CaptureLevel::Detailed,
            _ => CaptureLevel::Minimal,
        }
    }

    /// Whether two plans are the same in every part.
    pub fn equals(&self, other: &FixtureBootstrap) -> (r: bool)
        ensures
            r == (self@ == other@),
    {
        same_bytes(self.run.as_slice(), other.run.as_slice()) && same_bytes(
            self.generation.as_slice(),
            other.generation.as_slice(),
        ) && self.start_ns == other.start_ns && self.rate == other.rate && self.mode == other.mode
            && self.causal == other.causal
    }

    /// A copy of this plan.
    pub fn copy(&self) -> (plan: FixtureBootstrap)
        ensures
            plan@ == self@,
    {
        FixtureBootstrap {
            run: copy_bytes(self.run.as_slice()),
            generation: copy_bytes(self.generation.as_slice()),
            start_ns: self.start_ns,
            rate: self.rate,
            mode: self.mode,
            causal: self.causal,
        }
    }
}

/// What a coordinator tells a worker's attempt.
#[derive(Clone, Copy, Debug)]
pub enum FixtureControl {
    Receive(Receipt),
    ConfirmWarmupClosed,
    Finish,
    Resolve { frame_id: u64, resolution: Resolution, resolved_ns: u64 },
}

/// No storage comes with the bootstrap.
pub const BOOTSTRAP_OFF: u8 = 0xa0;

/// A worker's storage comes with it, to be recorded in detail.
pub const BOOTSTRAP_WORKER: u8 = 0xa1;

/// A worker's storage comes with it, to be recorded minimally.
pub const BOOTSTRAP_WORKER_MINIMAL: u8 = 0xa2;

/// The byte that announces what comes with a bootstrap.
pub open spec fn announced(storage: Option<CaptureLevel>) -> u8 {
    match storage {
        Some(CaptureLevel::Detailed) => BOOTSTRAP_WORKER,
        Some(CaptureLevel::Minimal) => BOOTSTRAP_WORKER_MINIMAL,
        None => BOOTSTRAP_OFF,
    }
}

/// The byte that announces what comes with a bootstrap.
pub fn bootstrap_byte(storage: Option<CaptureLevel>) -> (byte: u8)
    ensures
        byte == announced(storage),
{
    match storage {
        Some(CaptureLevel::Detailed) => BOOTSTRAP_WORKER,
        Some(CaptureLevel::Minimal) => BOOTSTRAP_WORKER_MINIMAL,
        None => BOOTSTRAP_OFF,
    }
}

/// What to do after an attempt to send or receive that did not block.
#[derive(Clone, Copy, Debug, PartialEq, Eq, Structural)]
pub enum IoStep {
    Done,
    Retry,
    Failed,
}

/// After an attempt to send the byte. One sent byte is all of it. A call that would
/// block or was interrupted is made again until the deadline.
pub fn after_send(sent: i64, retryable: bool, expired: bool) -> (r: Result<IoStep, BootstrapError>)
    ensures
        r == (if sent == 1 {
            Ok::<IoStep, BootstrapError>(IoStep::Done)
        } else if sent == 0 {
            Err(BootstrapError::SendClosed)
        } else if !retryable {
            Ok(IoStep::Failed)
        } else if expired {
            Err(BootstrapError::SendTimeout)
        } else {
            Ok(IoStep::Retry)
        }),
{
    if sent == 1 {
        Ok(IoStep::Done)
    } else if sent == 0 {
        Err(BootstrapError::SendClosed)
    } else if !retryable {
        Ok(IoStep::Failed)
    } else if expired {
        Err(BootstrapError::SendTimeout)
    } else {
        Ok(IoStep::Retry)
    }
}

/// After an attempt to receive the byte. Without a deadline it is made again for ever.
pub fn after_receive(received: i64, retryable: bool, expired: Option<bool>) -> (r: Result<
    IoStep,
    BootstrapError,
>)
    ensures
        r == (if received >= 0 {
            Ok::<IoStep, BootstrapError>(IoStep::Done)
        } else if !retryable {
            Ok(IoStep::Failed)
        } else if expired == Some(true) {
            Err(BootstrapError::ReceiveTimeout)
        } else {
            Ok(IoStep::Retry)
        }),
{
    if received >= 0 {
        return Ok(IoStep::Done);
    }
    if !retryable {
        return Ok(IoStep::Failed);
    }
    match expired {
        Some(true) => Err(BootstrapError::ReceiveTimeout),
        _ => Ok(IoStep::Retry),
    }
}

/// What a piece of ancillary data carries.
#[derive(Clone, Copy, Debug, PartialEq, Eq, Structural)]
pub enum AncillaryKind {
    Rights,
    Pidfd,
    Other,
}

/// A piece of ancillary data and the length of its payload.
#[derive(Clone, Copy, Debug, PartialEq, Eq, Structural)]
pub struct AncillaryHeader {
    pub kind: AncillaryKind,
    pub payload: usize,
}

/// What came with a byte: the number of descriptors, each of which the receiver now
/// owns, and whether anything else came.
#[derive(Clone, Copy, Debug, PartialEq, Eq, Structural)]
pub struct Ancillary {
    pub descriptors: u64,
    pub invalid: bool,
}

/// The descriptors in one piece. A process descriptor is owned where `owns_pidfd`,
/// and is never wanted.
pub open spec fn piece_descriptors(h: AncillaryHeader, owns_pidfd: bool) -> nat {
    match h.kind {
        AncillaryKind::Rights => h.payload as nat / 4,
        AncillaryKind::Pidfd => if owns_pidfd {
            h.payload as nat / 4
        } else {
            0
        },
        AncillaryKind::Other => 0,
    }
}

/// A piece is whole and carries rights alone.
pub open spec fn piece_valid(h: AncillaryHeader) -> bool {
    h.kind == AncillaryKind::Rights && h.payload % 4 == 0
}

/// The descriptors in all pieces.
pub open spec fn descriptors_in(headers: Seq<AncillaryHeader>, owns_pidfd: bool) -> nat
    decreases headers.len(),
{
    if headers.len() == 0 {
        0
    } else {
        descriptors_in(headers.drop_last(), owns_pidfd) + piece_descriptors(
            headers.last(),
            owns_pidfd,
        )
    }
}

proof fn lemma_descriptors_bound(headers: Seq<AncillaryHeader>, owns_pidfd: bool, n: int)
    requires
        0 <= n <= headers.len(),
    ensures
        descriptors_in(headers.take(n), owns_pidfd) <= descriptors_in(headers, owns_pidfd),
    decreases headers.len(),
{
    if n < headers.len() {
        assert(headers.drop_last().take(n) =~= headers.take(n));
        lemma_descriptors_bound(headers.drop_last(), owns_pidfd, n);
    } else {
        assert(headers.take(n) =~= headers);
    }
}

/// Reads what came with a byte. Every descriptor is counted, also where the message is
/// refused: the receiver closes them.
pub fn read_ancillary(headers: &Vec<AncillaryHeader>, truncated: bool, owns_pidfd: bool) -> (a:
    Ancillary)
    requires
        descriptors_in(headers@, owns_pidfd) <= u64::MAX,
    ensures
        a.descriptors == descriptors_in(headers@, owns_pidfd),
        a.invalid == (truncated || exists|i: int|
            0 <= i < headers@.len() && !piece_valid(#[trigger] headers@[i])),
{
    let mut descriptors: u64 = 0;
    let mut invalid: bool = truncated;
    let mut i: usize = 0;
    assert(headers@.take(0) =~= Seq::empty());
    while i < headers.len()
        invariant
            i <= headers@.len(),
            descriptors_in(headers@, owns_pidfd) <= u64::MAX,
            descriptors == descriptors_in(headers@.take(i as int), owns_pidfd),
            invalid == (truncated || exists|j: int|
                0 <= j < i && !piece_valid(#[trigger] headers@[j])),
        decreases headers@.len() - i,
    {
        let h: AncillaryHeader = headers[i];
        proof {
            assert(headers@.take(i + 1).drop_last() =~= headers@.take(i as int));
            lemma_descriptors_bound(headers@, owns_pidfd, i + 1);
        }
        match h.kind {
            AncillaryKind::Rights => {
                descriptors = descriptors + (h.payload / 4) as u64;
                if h.payload % 4 != 0 {
                    invalid = true;
                    assert(!piece_valid(headers@[i as int]));
                }
            },
            AncillaryKind::Pidfd => {
                if owns_pidfd {
                    descriptors = descriptors + (h.payload / 4) as u64;
                }
                invalid = true;
                assert(!piece_valid(headers@[i as int]));
            },
            AncillaryKind::Other => {
                invalid = true;
                assert(!piece_valid(headers@[i as int]));
            },
        }
        i += 1;
    }
    assert(headers@.take(i as int) =~= headers@);
    Ancillary { descriptors, invalid }
}

/// What came with a received byte, and whether it is accepted.
pub open spec fn storage_announced(received: i64, byte: u8, a: Ancillary) -> Result<
    Option<CaptureLevel>,
    BootstrapError,
> {
    if received != 1 {
        Err(BootstrapError::Disconnected)
    } else if a.invalid {
        Err(BootstrapError::Ancillary)
    } else if byte == BOOTSTRAP_OFF {
        if a.descriptors == 0 {
            Ok(None)
        } else {
            Err(BootstrapError::OffDescriptors)
        }
    } else if byte == BOOTSTRAP_WORKER || byte == BOOTSTRAP_WORKER_MINIMAL {
        if a.descriptors != 1 {
            Err(BootstrapError::StorageCount)
        } else if byte == BOOTSTRAP_WORKER {
            Ok(Some(CaptureLevel::Detailed))
        } else {
            Ok(Some(CaptureLevel::Minimal))
        }
    } else {
        Err(BootstrapError::Version)
    }
}

/// Decides on a received byte: no storage, or one descriptor and how much to record.
pub fn receive_storage(received: i64, byte: u8, a: Ancillary) -> (r: Result<
    Option<CaptureLevel>,
    BootstrapError,
>)
    ensures
        r == storage_announced(received, byte, a),
{
    if received != 1 {
        return Err(BootstrapError::Disconnected);
    }
    if a.invalid {
        return Err(BootstrapError::Ancillary);
    }
    match byte {
        0xa0 => {
            if a.descriptors != 0 {
                return Err(BootstrapError::OffDescriptors);
            }
            Ok(None)
        },
        0xa1 | 0xa2 => {
            if a.descriptors != 1 {
                return Err(BootstrapError::StorageCount);
            }
            if byte == BOOTSTRAP_WORKER {
                Ok(Some(CaptureLevel::Detailed))
            } else {
                Ok(Some(CaptureLevel::Minimal))
            }
        },
        _ => Err(BootstrapError::Version),
    }
}

/// What is announced is what is received, when exactly the announced descriptor comes
/// with it.
pub proof fn law_announcement_is_received(storage: Option<CaptureLevel>)
    ensures
        storage_announced(
            1,
            announced(storage),
            Ancillary {
                descriptors: if storage is Some {
                    1
                } else {
                    0
                },
                invalid: false,
            },
        ) == Ok::<Option<CaptureLevel>, BootstrapError>(storage),
{
}

} // verus!
