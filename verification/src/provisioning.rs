//! Startup declarations: who may record what, and from when.
//!
//! A declaration is eight lines of text. It names a plan, the process that launches
//! it, and one process for each source. Each declaration has one text.
use vstd::prelude::*;
use vstd::string::StringSliceAdditionalSpecFns;
use vstd::utf8::valid_utf8;

use crate::bootstrap::{BootstrapView, FixtureBootstrap};
use crate::bytes::{append_slice, copy_range, same_bytes};
use crate::capture_storage::{SourceRole, StorageError};
use crate::decimal::{number, parse_number, parse_signed, signed_number, NumberError};
use crate::events::Mode;
use crate::fixture_model::{plan_error, FixtureError};
use crate::observer::CaptureError;
use crate::text::{is_utf8, part_views, split, split_bytes};

verus! {

/// The most bytes of a declaration.
pub const MAX_DECLARATION: usize = 4096;

/// The most records of all sources together.
pub const MAX_TOTAL_RECORDS: usize = 65_536;

/// Why a startup is refused.
#[derive(Clone, Copy, Debug, PartialEq, Eq, Structural)]
pub enum ProvisioningError {
    TooLarge,
    NotText,
    NoNewline,
    Layout,
    Policy,
    Boot,
    PlanFields,
    LauncherFields,
    WorkerFields,
    BrokerFields,
    SupervisorFields,
    Integer,
    Noncanonical,
    Mode,
    Causal,
    Plan(FixtureError),
    Process,
    LauncherOwner,
    Capacity,
    Distinct,
    Total,
    PlanMismatch,
    Clock(CaptureError),
    Stale,
    Lead,
    Recipient,
    Announcement,
    MappingCapacity,
    NotLauncher,
    UntrustedLauncher,
    Attempted,
    LauncherChanged,
    Expired,
    PathDepth,
    PathComponent,
    UnsafeDirectory,
    Open,
    NotRegular,
    Owner,
    Permissions,
    Links,
    Size,
    PinnedChanged,
    NotReadOnly,
    Truncated,
    Changed,
    BootIdentity,
    InvalidPid,
    StatTooLarge,
    StatNotText,
    StatMalformed,
    StatMissing,
    Credentials,
    PeerStart,
    PeerGone,
    Ancillary,
    ChannelClosed,
    SendClosed,
    DescriptorSend,
    Envelope,
    Storage(StorageError),
}

impl ProvisioningError {
    /// The words of an error.
    pub open spec fn text(self) -> Seq<char> {
        match self {
            ProvisioningError::TooLarge => "declaration too large"@,
            ProvisioningError::NotText => "declaration is not text"@,
            ProvisioningError::NoNewline => "declaration needs final newline"@,
            ProvisioningError::Layout => "unsupported declaration layout"@,
            ProvisioningError::Policy => "unapproved provisioning policy"@,
            ProvisioningError::Boot => "startup declaration belongs to another boot"@,
            ProvisioningError::PlanFields => "invalid plan declaration"@,
            ProvisioningError::LauncherFields => "invalid launcher declaration"@,
            ProvisioningError::WorkerFields => "invalid worker declaration"@,
            ProvisioningError::BrokerFields => "invalid broker declaration"@,
            ProvisioningError::SupervisorFields => "invalid supervisor declaration"@,
            ProvisioningError::Integer => "invalid declaration integer"@,
            ProvisioningError::Noncanonical => "noncanonical declaration integer"@,
            ProvisioningError::Mode => "invalid capture mode"@,
            ProvisioningError::Causal => "invalid causal flag"@,
            ProvisioningError::Plan(e) => e.text(),
            ProvisioningError::Process => "invalid process identity"@,
            ProvisioningError::LauncherOwner => "launcher is not the trusted owner"@,
            ProvisioningError::Capacity => "source capacity outside bound"@,
            ProvisioningError::Distinct => "roles require distinct processes"@,
            ProvisioningError::Total => "total run storage exceeds 65536 records"@,
            ProvisioningError::PlanMismatch => "startup fixture plan mismatch"@,
            ProvisioningError::Clock(e) => e.text(),
            ProvisioningError::Stale => "startup epoch is stale"@,
            ProvisioningError::Lead => "startup epoch must be >5s and <=10min ahead"@,
            ProvisioningError::Recipient => "startup recipient process mismatch"@,
            ProvisioningError::Announcement => "launcher declaration mismatch"@,
            ProvisioningError::MappingCapacity => "source mapping capacity mismatch"@,
            ProvisioningError::NotLauncher => "not the declared trusted launcher"@,
            ProvisioningError::UntrustedLauncher => "untrusted launcher"@,
            ProvisioningError::Attempted => "source ticket already attempted"@,
            ProvisioningError::LauncherChanged => "launcher process changed"@,
            ProvisioningError::Expired => "startup acquisition deadline expired"@,
            ProvisioningError::PathDepth => "invalid startup path depth"@,
            ProvisioningError::PathComponent => "invalid startup path component"@,
            ProvisioningError::UnsafeDirectory => "unsafe startup directory"@,
            ProvisioningError::Open => "opening private startup declaration"@,
            ProvisioningError::NotRegular => "declaration is not a regular file"@,
            ProvisioningError::Owner => "declaration owner is not trusted"@,
            ProvisioningError::Permissions => "unsafe declaration permissions"@,
            ProvisioningError::Links => "declaration must have exactly one link"@,
            ProvisioningError::Size => "declaration size outside bound"@,
            ProvisioningError::PinnedChanged => "pinned declaration changed"@,
            ProvisioningError::NotReadOnly => "declaration FD must be readable and read-only"@,
            ProvisioningError::Truncated => "declaration truncated during read"@,
            ProvisioningError::Changed => "declaration changed during acquisition"@,
            ProvisioningError::BootIdentity => "invalid host boot identity"@,
            ProvisioningError::InvalidPid => "invalid process PID"@,
            ProvisioningError::StatTooLarge => "process stat exceeds bound"@,
            ProvisioningError::StatNotText => "process stat is not text"@,
            ProvisioningError::StatMalformed => "malformed process stat"@,
            ProvisioningError::StatMissing => "missing process start time"@,
            ProvisioningError::Credentials => "startup peer credentials mismatch"@,
            ProvisioningError::PeerStart => "startup peer process start mismatch"@,
            ProvisioningError::PeerGone => "startup peer exited or pidfd invalid"@,
            ProvisioningError::Ancillary => "unexpected declaration ancillary data"@,
            ProvisioningError::ChannelClosed => "startup channel closed during declaration"@,
            ProvisioningError::SendClosed => "startup channel closed while sending declaration"@,
            ProvisioningError::DescriptorSend => "startup descriptor send closed"@,
            ProvisioningError::Envelope => "invalid startup descriptor envelope"@,
            ProvisioningError::Storage(e) => e.text(),
        }
    }

    /// The words of this error.
    pub fn message(self) -> (s: &'static str)
        ensures
            s@ == self.text(),
    {
        match self {
            ProvisioningError::TooLarge => "declaration too large",
            ProvisioningError::NotText => "declaration is not text",
            ProvisioningError::NoNewline => "declaration needs final newline",
            ProvisioningError::Layout => "unsupported declaration layout",
            ProvisioningError::Policy => "unapproved provisioning policy",
            ProvisioningError::Boot => "startup declaration belongs to another boot",
            ProvisioningError::PlanFields => "invalid plan declaration",
            ProvisioningError::LauncherFields => "invalid launcher declaration",
            ProvisioningError::WorkerFields => "invalid worker declaration",
            ProvisioningError::BrokerFields => "invalid broker declaration",
            ProvisioningError::SupervisorFields => "invalid supervisor declaration",
            ProvisioningError::Integer => "invalid declaration integer",
            ProvisioningError::Noncanonical => "noncanonical declaration integer",
            ProvisioningError::Mode => "invalid capture mode",
            ProvisioningError::Causal => "invalid causal flag",
            ProvisioningError::Plan(e) => e.message(),
            ProvisioningError::Process => "invalid process identity",
            ProvisioningError::LauncherOwner => "launcher is not the trusted owner",
            ProvisioningError::Capacity => "source capacity outside bound",
            ProvisioningError::Distinct => "roles require distinct processes",
            ProvisioningError::Total => "total run storage exceeds 65536 records",
            ProvisioningError::PlanMismatch => "startup fixture plan mismatch",
            ProvisioningError::Clock(e) => e.message(),
            ProvisioningError::Stale => "startup epoch is stale",
            ProvisioningError::Lead => "startup epoch must be >5s and <=10min ahead",
            ProvisioningError::Recipient => "startup recipient process mismatch",
            ProvisioningError::Announcement => "launcher declaration mismatch",
            ProvisioningError::MappingCapacity => "source mapping capacity mismatch",
            ProvisioningError::NotLauncher => "not the declared trusted launcher",
            ProvisioningError::UntrustedLauncher => "untrusted launcher",
            ProvisioningError::Attempted => "source ticket already attempted",
            ProvisioningError::LauncherChanged => "launcher process changed",
            ProvisioningError::Expired => "startup acquisition deadline expired",
            ProvisioningError::PathDepth => "invalid startup path depth",
            ProvisioningError::PathComponent => "invalid startup path component",
            ProvisioningError::UnsafeDirectory => "unsafe startup directory",
            ProvisioningError::Open => "opening private startup declaration",
            ProvisioningError::NotRegular => "declaration is not a regular file",
            ProvisioningError::Owner => "declaration owner is not trusted",
            ProvisioningError::Permissions => "unsafe declaration permissions",
            ProvisioningError::Links => "declaration must have exactly one link",
            ProvisioningError::Size => "declaration size outside bound",
            ProvisioningError::PinnedChanged => "pinned declaration changed",
            ProvisioningError::NotReadOnly => "declaration FD must be readable and read-only",
            ProvisioningError::Truncated => "declaration truncated during read",
            ProvisioningError::Changed => "declaration changed during acquisition",
            ProvisioningError::BootIdentity => "invalid host boot identity",
            ProvisioningError::InvalidPid => "invalid process PID",
            ProvisioningError::StatTooLarge => "process stat exceeds bound",
            ProvisioningError::StatNotText => "process stat is not text",
            ProvisioningError::StatMalformed => "malformed process stat",
            ProvisioningError::StatMissing => "missing process start time",
            ProvisioningError::Credentials => "startup peer credentials mismatch",
            ProvisioningError::PeerStart => "startup peer process start mismatch",
            ProvisioningError::PeerGone => "startup peer exited or pidfd invalid",
            ProvisioningError::Ancillary => "unexpected declaration ancillary data",
            ProvisioningError::ChannelClosed => "startup channel closed during declaration",
            ProvisioningError::SendClosed => "startup channel closed while sending declaration",
            ProvisioningError::DescriptorSend => "startup descriptor send closed",
            ProvisioningError::Envelope => "invalid startup descriptor envelope",
            ProvisioningError::Storage(e) => e.message(),
        }
    }
}

/// A process as it is declared: no number of it is used again for another.
#[derive(Clone, Copy, Debug, PartialEq, Eq, Structural)]
pub struct ProcessIdentity {
    pub pid: i32,
    pub uid: u32,
    pub gid: u32,
    pub start_ticks: u64,
}

/// A source and the process that it is bound to.
#[derive(Clone, Copy, Debug, PartialEq, Eq, Structural)]
pub struct SourceBinding {
    pub role: SourceRole,
    pub process: ProcessIdentity,
    pub capacity: usize,
}

/// What is declared.
pub struct DeclarationView {
    pub plan: BootstrapView,
    pub launcher: ProcessIdentity,
    pub worker: SourceBinding,
    pub broker: SourceBinding,
    pub supervisor: SourceBinding,
}

/// The first line.
pub open spec fn heading() -> Seq<u8> {
    "SLIVER-PROVISIONING-1".spec_bytes()
}

/// The second line: the policy under which declarations are made.
pub open spec fn policy_line() -> Seq<u8> {
    "policy cbe2b5da809eed7cc4b3406b222baf43e1e34a2d".spec_bytes()
}

/// The third line: the boot for which a declaration is made.
pub open spec fn boot_line(boot: Seq<u8>) -> Seq<u8> {
    "boot ".spec_bytes() + boot
}

/// The fields of a line with a label. None of them is empty.
pub open spec fn fields(line: Seq<u8>, label: Seq<u8>, count: nat) -> Option<Seq<Seq<u8>>> {
    let values = split(line, 0x20);
    if values.len() == count && values[0] == label && forall|i: int|
        0 <= i < count ==> (#[trigger] values[i]).len() > 0 {
        Some(values)
    } else {
        None
    }
}

/// Why a number is refused.
pub open spec fn number_refusal(e: NumberError) -> ProvisioningError {
    match e {
        NumberError::Invalid => ProvisioningError::Integer,
        NumberError::Noncanonical => ProvisioningError::Noncanonical,
    }
}

/// The letter of a mode.
pub open spec fn mode_letter(mode: Mode) -> Seq<u8> {
    match mode {
        Mode::A => seq![0x41u8],
        Mode::B => seq![0x42u8],
        Mode::C => seq![0x43u8],
    }
}

/// The digit of a flag.
pub open spec fn flag_digit(flag: bool) -> Seq<u8> {
    if flag {
        seq![0x31u8]
    } else {
        seq![0x30u8]
    }
}

/// The mode that a letter names.
pub open spec fn letter_mode(s: Seq<u8>) -> Option<Mode> {
    if s == mode_letter(Mode::A) {
        Some(Mode::A)
    } else if s == mode_letter(Mode::B) {
        Some(Mode::B)
    } else if s == mode_letter(Mode::C) {
        Some(Mode::C)
    } else {
        None
    }
}

/// The flag that a digit stands for.
pub open spec fn digit_flag(s: Seq<u8>) -> Option<bool> {
    if s == flag_digit(false) {
        Some(false)
    } else if s == flag_digit(true) {
        Some(true)
    } else {
        None
    }
}

/// The plan of a line.
pub open spec fn plan_of(line: Seq<u8>) -> Result<BootstrapView, ProvisioningError> {
    match fields(line, "plan".spec_bytes(), 7) {
        None => Err(ProvisioningError::PlanFields),
        Some(f) => match (number(f[3], u64::MAX), number(f[4], 0xffff_ffff)) {
            (Err(e), _) => Err(number_refusal(e)),
            (Ok(_), Err(e)) => Err(number_refusal(e)),
            (Ok(start_ns), Ok(rate)) => match letter_mode(f[5]) {
                None => Err(ProvisioningError::Mode),
                Some(mode) => match plan_error(f[1], f[2], start_ns, rate as u32) {
                    Some(e) => Err(ProvisioningError::Plan(e)),
                    None => match digit_flag(f[6]) {
                        None => Err(ProvisioningError::Causal),
                        Some(causal) => if causal && rate != 30 {
                            Err(ProvisioningError::Plan(FixtureError::CausalRate))
                        } else {
                            Ok(
                                BootstrapView {
                                    run: f[1],
                                    generation: f[2],
                                    start_ns,
                                    rate: rate as u32,
                                    mode,
                                    causal,
                                },
                            )
                        },
                    },
                },
            },
        },
    }
}

/// The process of four fields, from field one on.
pub open spec fn process_of(f: Seq<Seq<u8>>) -> Result<ProcessIdentity, ProvisioningError> {
    match signed_number(f[1]) {
        Err(e) => Err(number_refusal(e)),
        Ok(pid) => match number(f[2], 0xffff_ffff) {
            Err(e) => Err(number_refusal(e)),
            Ok(uid) => match number(f[3], 0xffff_ffff) {
                Err(e) => Err(number_refusal(e)),
                Ok(gid) => match number(f[4], u64::MAX) {
                    Err(e) => Err(number_refusal(e)),
                    Ok(start_ticks) => if pid <= 0 || start_ticks == 0 {
                        Err(ProvisioningError::Process)
                    } else {
                        Ok(
                            ProcessIdentity {
                                pid,
                                uid: uid as u32,
                                gid: gid as u32,
                                start_ticks,
                            },
                        )
                    },
                },
            },
        },
    }
}

/// The launcher of a line: a process of the trusted owner.
pub open spec fn launcher_of(line: Seq<u8>, owner: u32) -> Result<
    ProcessIdentity,
    ProvisioningError,
> {
    match fields(line, "launcher".spec_bytes(), 5) {
        None => Err(ProvisioningError::LauncherFields),
        Some(f) => match process_of(f) {
            Err(e) => Err(e),
            Ok(process) => if process.uid != owner {
                Err(ProvisioningError::LauncherOwner)
            } else {
                Ok(process)
            },
        },
    }
}

/// The label of a role.
pub open spec fn role_label(role: SourceRole) -> Seq<u8> {
    match role {
        SourceRole::Worker => "worker".spec_bytes(),
        SourceRole::Broker => "broker".spec_bytes(),
        SourceRole::Supervisor => "supervisor".spec_bytes(),
    }
}

/// Why the fields of a role are refused.
pub open spec fn role_refusal(role: SourceRole) -> ProvisioningError {
    match role {
        SourceRole::Worker => ProvisioningError::WorkerFields,
        SourceRole::Broker => ProvisioningError::BrokerFields,
        SourceRole::Supervisor => ProvisioningError::SupervisorFields,
    }
}

/// The source of a line. Its process is none of those before it.
pub open spec fn source_of(line: Seq<u8>, role: SourceRole, before: Seq<i32>) -> Result<
    SourceBinding,
    ProvisioningError,
> {
    match fields(line, role_label(role), 6) {
        None => Err(role_refusal(role)),
        Some(f) => match process_of(f) {
            Err(e) => Err(e),
            Ok(process) => match number(f[5], u64::MAX) {
                Err(e) => Err(number_refusal(e)),
                Ok(capacity) => if !(1 <= capacity <= MAX_TOTAL_RECORDS) {
                    Err(ProvisioningError::Capacity)
                } else if before.contains(process.pid) {
                    Err(ProvisioningError::Distinct)
                } else {
                    Ok(SourceBinding { role, process, capacity: capacity as usize })
                },
            },
        },
    }
}

/// What eight lines declare.
pub open spec fn lines_declare(lines: Seq<Seq<u8>>, boot: Seq<u8>, owner: u32) -> Result<
    DeclarationView,
    ProvisioningError,
> {
    if lines.len() != 8 || lines[0] != heading() {
        Err(ProvisioningError::Layout)
    } else if lines[1] != policy_line() {
        Err(ProvisioningError::Policy)
    } else if lines[2] != boot_line(boot) {
        Err(ProvisioningError::Boot)
    } else {
        match plan_of(lines[3]) {
            Err(e) => Err(e),
            Ok(plan) => match launcher_of(lines[4], owner) {
                Err(e) => Err(e),
                Ok(launcher) => match source_of(
                    lines[5],
                    SourceRole::Worker,
                    seq![launcher.pid],
                ) {
                    Err(e) => Err(e),
                    Ok(worker) => match source_of(
                        lines[6],
                        SourceRole::Broker,
                        seq![launcher.pid, worker.process.pid],
                    ) {
                        Err(e) => Err(e),
                        Ok(broker) => match source_of(
                            lines[7],
                            SourceRole::Supervisor,
                            seq![launcher.pid, worker.process.pid, broker.process.pid],
                        ) {
                            Err(e) => Err(e),
                            Ok(supervisor) => if worker.capacity + broker.capacity
                                + supervisor.capacity > MAX_TOTAL_RECORDS {
                                Err(ProvisioningError::Total)
                            } else {
                                Ok(DeclarationView { plan, launcher, worker, broker, supervisor })
                            },
                        },
                    },
                },
            },
        }
    }
}

/// What a text declares on a boot, to a trusted owner.
pub open spec fn declared(bytes: Seq<u8>, boot: Seq<u8>, owner: u32) -> Result<
    DeclarationView,
    ProvisioningError,
> {
    if bytes.len() > MAX_DECLARATION {
        Err(ProvisioningError::TooLarge)
    } else if !valid_utf8(bytes) {
        Err(ProvisioningError::NotText)
    } else if bytes.len() == 0 || bytes.last() != 0x0a {
        Err(ProvisioningError::NoNewline)
    } else {
        lines_declare(split(bytes.drop_last(), 0x0a), boot, owner)
    }
}

/// A declaration, with its text.
pub struct Declaration {
    pub bytes: Vec<u8>,
    pub plan: FixtureBootstrap,
    pub launcher: ProcessIdentity,
    pub worker: SourceBinding,
    pub broker: SourceBinding,
    pub supervisor: SourceBinding,
    pub owner: u32,
    /// By when everything that follows from the declaration has to be done.
    pub acquisition_deadline_ns: u64,
}

impl View for Declaration {
    type V = DeclarationView;

    open spec fn view(&self) -> DeclarationView {
        DeclarationView {
            plan: self.plan@,
            launcher: self.launcher,
            worker: self.worker,
            broker: self.broker,
            supervisor: self.supervisor,
        }
    }
}

fn is_text(part: &Vec<u8>, text: &str) -> (r: bool)
    ensures
        r == (part@ == text.spec_bytes()),
{
    same_bytes(part.as_slice(), text.as_bytes())
}

fn read_fields(line: &Vec<u8>, label: &str, count: usize) -> (r: Option<Vec<Vec<u8>>>)
    ensures
        match r {
            Some(values) => fields(line@, label.spec_bytes(), count as nat) == Some(
                part_views(values@),
            ) && values@.len() == count,
            None => fields(line@, label.spec_bytes(), count as nat) is None,
        },
{
    let values: Vec<Vec<u8>> = split_bytes(line.as_slice(), 0x20);
    let ghost parts = split(line@, 0x20);
    assert(forall|i: int| 0 <= i < values@.len() ==> parts[i] == #[trigger] values@[i]@);
    if values.len() != count || !is_text(&values[0], label) {
        return None;
    }
    let mut i: usize = 0;
    while i < values.len()
        invariant
            i <= values@.len(),
            values@.len() == count,
            parts == split(line@, 0x20),
            parts == part_views(values@),
            forall|j: int| 0 <= j < values@.len() ==> parts[j] == #[trigger] values@[j]@,
            forall|j: int| 0 <= j < i ==> (#[trigger] parts[j]).len() > 0,
        decreases values@.len() - i,
    {
        if values[i].len() == 0 {
            assert(parts[i as int].len() == 0);
            return None;
        }
        i += 1;
    }
    Some(values)
}

fn read_number(part: &Vec<u8>, limit: u64) -> (r: Result<u64, ProvisioningError>)
    ensures
        r == (match number(part@, limit) {
            Ok(v) => Ok::<u64, ProvisioningError>(v),
            Err(e) => Err(number_refusal(e)),
        }),
{
    match parse_number(part.as_slice(), limit) {
        Ok(v) => Ok(v),
        Err(NumberError::Invalid) => Err(ProvisioningError::Integer),
        Err(NumberError::Noncanonical) => Err(ProvisioningError::Noncanonical),
    }
}

fn read_signed(part: &Vec<u8>) -> (r: Result<i32, ProvisioningError>)
    ensures
        r == (match signed_number(part@) {
            Ok(v) => Ok::<i32, ProvisioningError>(v),
            Err(e) => Err(number_refusal(e)),
        }),
{
    match parse_signed(part.as_slice()) {
        Ok(v) => Ok(v),
        Err(NumberError::Invalid) => Err(ProvisioningError::Integer),
        Err(NumberError::Noncanonical) => Err(ProvisioningError::Noncanonical),
    }
}

fn parse_process(f: &Vec<Vec<u8>>) -> (r: Result<ProcessIdentity, ProvisioningError>)
    requires
        f@.len() >= 5,
    ensures
        r == process_of(part_views(f@)),
{
    let pid: i32 = read_signed(&f[1])?;
    let uid: u64 = read_number(&f[2], 0xffff_ffff)?;
    let gid: u64 = read_number(&f[3], 0xffff_ffff)?;
    let start_ticks: u64 = read_number(&f[4], 0xffff_ffff_ffff_ffff)?;
    if pid <= 0 || start_ticks == 0 {
        return Err(ProvisioningError::Process);
    }
    Ok(ProcessIdentity { pid, uid: uid as u32, gid: gid as u32, start_ticks })
}

fn parse_mode(part: &Vec<u8>) -> (r: Option<Mode>)
    ensures
        r == letter_mode(part@),
{
    if part.len() != 1 {
        return None;
    }
    assert(part@ =~= seq![part@[0]]);
    match part[0] {
        0x41 => Some(Mode::A),
        0x42 => Some(Mode::B),
        0x43 => Some(Mode::C),
        _ => {
            assert(part@[0] != mode_letter(Mode::A)[0]);
            assert(part@[0] != mode_letter(Mode::B)[0]);
            assert(part@[0] != mode_letter(Mode::C)[0]);
            None
        },
    }
}

fn parse_flag(part: &Vec<u8>) -> (r: Option<bool>)
    ensures
        r == digit_flag(part@),
{
    if part.len() != 1 {
        return None;
    }
    assert(part@ =~= seq![part@[0]]);
    match part[0] {
        0x30 => Some(false),
        0x31 => Some(true),
        _ => {
            assert(part@[0] != flag_digit(false)[0]);
            assert(part@[0] != flag_digit(true)[0]);
            None
        },
    }
}

fn parse_plan(line: &Vec<u8>) -> (r: Result<FixtureBootstrap, ProvisioningError>)
    ensures
        match r {
            Ok(plan) => plan_of(line@) == Ok::<BootstrapView, ProvisioningError>(plan@)
                && plan@.error() is None,
            Err(e) => plan_of(line@) == Err::<BootstrapView, ProvisioningError>(e),
        },
{
    let f: Vec<Vec<u8>> = match read_fields(line, "plan", 7) {
        Some(f) => f,
        None => {
            return Err(ProvisioningError::PlanFields);
        },
    };
    let start_ns: u64 = read_number(&f[3], 0xffff_ffff_ffff_ffff)?;
    let rate: u64 = read_number(&f[4], 0xffff_ffff)?;
    let mode: Mode = match parse_mode(&f[5]) {
        Some(mode) => mode,
        None => {
            return Err(ProvisioningError::Mode);
        },
    };
    let mut plan: FixtureBootstrap = match FixtureBootstrap::new(
        f[1].as_slice(),
        f[2].as_slice(),
        start_ns,
        rate as u32,
        mode,
    ) {
        Ok(plan) => plan,
        Err(e) => {
            return Err(ProvisioningError::Plan(e));
        },
    };
    plan.causal = match parse_flag(&f[6]) {
        Some(causal) => causal,
        None => {
            return Err(ProvisioningError::Causal);
        },
    };
    match plan.plan() {
        Ok(_) => Ok(plan),
        Err(e) => Err(ProvisioningError::Plan(e)),
    }
}

fn parse_launcher(line: &Vec<u8>, owner: u32) -> (r: Result<ProcessIdentity, ProvisioningError>)
    ensures
        r == launcher_of(line@, owner),
{
    let f: Vec<Vec<u8>> = match read_fields(line, "launcher", 5) {
        Some(f) => f,
        None => {
            return Err(ProvisioningError::LauncherFields);
        },
    };
    let process: ProcessIdentity = parse_process(&f)?;
    if process.uid != owner {
        return Err(ProvisioningError::LauncherOwner);
    }
    Ok(process)
}

fn label_of(role: SourceRole) -> (label: &'static str)
    ensures
        label.spec_bytes() == role_label(role),
{
    match role {
        SourceRole::Worker => "worker",
        SourceRole::Broker => "broker",
        SourceRole::Supervisor => "supervisor",
    }
}

fn is_among(pid: i32, before: &Vec<i32>) -> (r: bool)
    ensures
        r == before@.contains(pid),
{
    let mut i: usize = 0;
    while i < before.len()
        invariant
            i <= before@.len(),
            forall|j: int| 0 <= j < i ==> #[trigger] before@[j] != pid,
        decreases before@.len() - i,
    {
        if before[i] == pid {
            assert(before@[i as int] == pid);
            return true;
        }
        i += 1;
    }
    false
}

fn parse_source(line: &Vec<u8>, role: SourceRole, before: &Vec<i32>) -> (r: Result<
    SourceBinding,
    ProvisioningError,
>)
    ensures
        r == source_of(line@, role, before@),
{
    let f: Vec<Vec<u8>> = match read_fields(line, label_of(role), 6) {
        Some(f) => f,
        None => {
            return Err(
                match role {
                    SourceRole::Worker => ProvisioningError::WorkerFields,
                    SourceRole::Broker => ProvisioningError::BrokerFields,
                    SourceRole::Supervisor => ProvisioningError::SupervisorFields,
                },
            );
        },
    };
    let process: ProcessIdentity = parse_process(&f)?;
    let capacity: u64 = read_number(&f[5], 0xffff_ffff_ffff_ffff)?;
    if capacity < 1 || capacity > MAX_TOTAL_RECORDS as u64 {
        return Err(ProvisioningError::Capacity);
    }
    if is_among(process.pid, before) {
        return Err(ProvisioningError::Distinct);
    }
    Ok(SourceBinding { role, process, capacity: capacity as usize })
}

fn is_boot_line(line: &Vec<u8>, boot: &[u8]) -> (r: bool)
    ensures
        r == (line@ == boot_line(boot@)),
{
    let mut expected: Vec<u8> = Vec::new();
    append_slice(&mut expected, "boot ".as_bytes());
    append_slice(&mut expected, boot);
    assert(expected@ =~= boot_line(boot@));
    same_bytes(line.as_slice(), expected.as_slice())
}

impl Declaration {
    /// Reads a declaration made for a boot by a trusted owner. What follows from it has to
    /// be done by the deadline of its acquisition.
    pub fn parse(
        bytes: Vec<u8>,
        boot: &[u8],
        owner: u32,
        acquisition_deadline_ns: u64,
    ) -> (r: Result<Declaration, ProvisioningError>)
        ensures
            match r {
                Ok(d) => {
                    &&& declared(bytes@, boot@, owner) == Ok::<DeclarationView, ProvisioningError>(
                        d@,
                    )
                    &&& d.bytes@ == bytes@
                    &&& d.owner == owner
                    &&& d.acquisition_deadline_ns == acquisition_deadline_ns
                    &&& d@.plan.error() is None
                    &&& d@.launcher.uid == owner
                },
                Err(e) => declared(bytes@, boot@, owner) == Err::<
                    DeclarationView,
                    ProvisioningError,
                >(e),
            },
    {
        if bytes.len() > MAX_DECLARATION {
            return Err(ProvisioningError::TooLarge);
        }
        if !is_utf8(bytes.as_slice()) {
            return Err(ProvisioningError::NotText);
        }
        if bytes.len() == 0 || bytes[bytes.len() - 1] != 0x0a {
            return Err(ProvisioningError::NoNewline);
        }
        let body: Vec<u8> = copy_range(bytes.as_slice(), 0, bytes.len() - 1);
        assert(body@ =~= bytes@.drop_last());
        let lines: Vec<Vec<u8>> = split_bytes(body.as_slice(), 0x0a);
        let ghost parts = part_views(lines@);
        assert(forall|i: int| 0 <= i < lines@.len() ==> parts[i] == #[trigger] lines@[i]@);
        if lines.len() != 8 || !is_text(&lines[0], "SLIVER-PROVISIONING-1") {
            return Err(ProvisioningError::Layout);
        }
        if !is_text(&lines[1], "policy cbe2b5da809eed7cc4b3406b222baf43e1e34a2d") {
            return Err(ProvisioningError::Policy);
        }
        if !is_boot_line(&lines[2], boot) {
            return Err(ProvisioningError::Boot);
        }
        let plan: FixtureBootstrap = parse_plan(&lines[3])?;
        let launcher: ProcessIdentity = parse_launcher(&lines[4], owner)?;
        let mut before: Vec<i32> = Vec::new();
        before.push(launcher.pid);
        assert(before@ =~= seq![launcher.pid]);
        let worker: SourceBinding = parse_source(&lines[5], SourceRole::Worker, &before)?;
        before.push(worker.process.pid);
        assert(before@ =~= seq![launcher.pid, worker.process.pid]);
        let broker: SourceBinding = parse_source(&lines[6], SourceRole::Broker, &before)?;
        before.push(broker.process.pid);
        assert(before@ =~= seq![launcher.pid, worker.process.pid, broker.process.pid]);
        let supervisor: SourceBinding = parse_source(&lines[7], SourceRole::Supervisor, &before)?;
        if worker.capacity + broker.capacity + supervisor.capacity > MAX_TOTAL_RECORDS {
            return Err(ProvisioningError::Total);
        }
        Ok(
            Declaration {
                bytes,
                plan,
                launcher,
                worker,
                broker,
                supervisor,
                owner,
                acquisition_deadline_ns,
            },
        )
    }
}

} // verus!
