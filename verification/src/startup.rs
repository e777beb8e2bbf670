//! Acquiring a startup declaration and handing out its storages.
use vstd::prelude::*;
use vstd::utf8::valid_utf8;

use crate::authorization::PeerCredentials;
use crate::bootstrap::{Ancillary, BootstrapView, CaptureLevel, FixtureBootstrap};
use crate::bytes::{copy_range, same_bytes};
use crate::capture_storage::{fresh_words, Collector, MappedWriter, SourceRole, StorageError};
use crate::decimal::{number, parse_number, NumberError};
use crate::observer::CaptureError;
use crate::provisioning::{
    number_refusal, Declaration, DeclarationView, ProcessIdentity, ProvisioningError, SourceBinding,
    MAX_TOTAL_RECORDS,
};
use crate::text::{is_utf8, part_views};

verus! {

/// The longest that an acquisition takes.
pub const ACQUISITION_LIMIT_NS: u64 = 2_000_000_000;

/// A start has to be further ahead than this.
pub const MIN_LEAD_NS: u64 = 5_000_000_000;

/// A start may be this far ahead.
pub const MAX_LEAD_NS: u64 = 600_000_000_000;

/// The time that an acquisition may take.
#[derive(Clone, Copy, Debug, PartialEq, Eq, Structural)]
pub struct Budget {
    pub until_ns: u64,
}

impl Budget {
    /// Until a deadline, but no longer than the limit from now on.
    pub open spec fn until(deadline_ns: u64, now_ns: u64) -> u64 {
        if now_ns + ACQUISITION_LIMIT_NS < deadline_ns {
            (now_ns + ACQUISITION_LIMIT_NS) as u64
        } else {
            deadline_ns
        }
    }

    /// A budget that has not run out yet.
    pub fn new(deadline_ns: u64, now_ns: u64) -> (r: Result<Budget, ProvisioningError>)
        ensures
            match r {
                Ok(budget) => now_ns < Budget::until(deadline_ns, now_ns) && budget.until_ns
                    == Budget::until(deadline_ns, now_ns),
                Err(e) => now_ns >= Budget::until(deadline_ns, now_ns) && e
                    == ProvisioningError::Expired,
            },
    {
        let limit: u64 = now_ns.saturating_add(ACQUISITION_LIMIT_NS);
        let until_ns: u64 = if limit < deadline_ns {
            limit
        } else {
            deadline_ns
        };
        let budget = Budget { until_ns };
        budget.check(now_ns)?;
        Ok(budget)
    }

    /// Refuses once the budget has run out.
    pub fn check(self, now_ns: u64) -> (r: Result<(), ProvisioningError>)
        ensures
            r == (if now_ns < self.until_ns {
                Ok::<(), ProvisioningError>(())
            } else {
                Err(ProvisioningError::Expired)
            }),
    {
        if now_ns < self.until_ns {
            Ok(())
        } else {
            Err(ProvisioningError::Expired)
        }
    }

    /// The milliseconds to wait for a channel: what is left, rounded up.
    pub fn wait_millis(self, now_ns: u64) -> (ms: i32)
        ensures
            ({
                let left = if self.until_ns > now_ns {
                    (self.until_ns - now_ns) / 1_000_000
                } else {
                    0
                };
                ms == (if left + 1 < i32::MAX {
                    left + 1
                } else {
                    i32::MAX as int
                })
            }),
    {
        let left: u64 = self.until_ns.saturating_sub(now_ns) / 1_000_000;
        if left >= 0x7fff_fffe {
            0x7fff_ffff
        } else {
            left as i32 + 1
        }
    }
}

/// What the system says of a file.
#[derive(Clone, Copy, Debug, PartialEq, Eq, Structural)]
pub struct FileStat {
    pub dev: u64,
    pub ino: u64,
    pub mode: u32,
    pub uid: u32,
    pub gid: u32,
    pub nlink: u64,
    pub size: i64,
    pub mtime: i64,
    pub mtime_nsec: i64,
    pub ctime: i64,
    pub ctime_nsec: i64,
}

/// A directory of the trusted owner that nobody else can write, without special bits.
pub open spec fn safe_directory(value: FileStat, owner: u32) -> bool {
    value.mode & 0o170000 == 0o040000 && value.uid == owner && value.mode & 0o7022 == 0
}

/// Refuses what is no safe directory.
pub fn check_directory(value: FileStat, owner: u32) -> (r: Result<(), ProvisioningError>)
    ensures
        r == (if safe_directory(value, owner) {
            Ok::<(), ProvisioningError>(())
        } else {
            Err(ProvisioningError::UnsafeDirectory)
        }),
{
    if value.mode & 0o170000 == 0o040000 && value.uid == owner && value.mode & 0o7022 == 0 {
        Ok(())
    } else {
        Err(ProvisioningError::UnsafeDirectory)
    }
}

/// Why a file is not taken for a declaration.
pub open spec fn stat_error(value: FileStat, owner: u32) -> Option<ProvisioningError> {
    if value.mode & 0o170000 != 0o100000 {
        Some(ProvisioningError::NotRegular)
    } else if value.uid != owner {
        Some(ProvisioningError::Owner)
    } else if value.mode & 0o7133 != 0 {
        Some(ProvisioningError::Permissions)
    } else if value.nlink != 1 {
        Some(ProvisioningError::Links)
    } else if !(1 <= value.size <= 4096) {
        Some(ProvisioningError::Size)
    } else {
        None
    }
}

/// A declaration is a regular file of the trusted owner, with one link and a bounded
/// size, that nobody else can write and nobody can run.
pub fn check_declaration_stat(value: FileStat, owner: u32) -> (r: Result<(), ProvisioningError>)
    ensures
        match r {
            Ok(()) => stat_error(value, owner) is None,
            Err(e) => stat_error(value, owner) == Some(e),
        },
{
    if value.mode & 0o170000 != 0o100000 {
        return Err(ProvisioningError::NotRegular);
    }
    if value.uid != owner {
        return Err(ProvisioningError::Owner);
    }
    if value.mode & 0o7133 != 0 {
        return Err(ProvisioningError::Permissions);
    }
    if value.nlink != 1 {
        return Err(ProvisioningError::Links);
    }
    if value.size < 1 || value.size > 4096 {
        return Err(ProvisioningError::Size);
    }
    Ok(())
}

/// Whether a file is the same, unchanged.
pub fn stable_file(a: FileStat, b: FileStat) -> (r: bool)
    ensures
        r == (a == b),
{
    a == b
}

/// A file that was pinned is still the same when it is opened.
pub fn check_pinned(pinned: FileStat, opened: FileStat) -> (r: Result<(), ProvisioningError>)
    ensures
        r == (if pinned == opened {
            Ok::<(), ProvisioningError>(())
        } else {
            Err(ProvisioningError::PinnedChanged)
        }),
{
    if stable_file(pinned, opened) {
        Ok(())
    } else {
        Err(ProvisioningError::PinnedChanged)
    }
}

/// A file did not change while it was read.
pub fn check_unchanged(before: FileStat, after: FileStat) -> (r: Result<(), ProvisioningError>)
    ensures
        r == (if before == after {
            Ok::<(), ProvisioningError>(())
        } else {
            Err(ProvisioningError::Changed)
        }),
{
    if stable_file(before, after) {
        Ok(())
    } else {
        Err(ProvisioningError::Changed)
    }
}

/// A path below the root has one to eight components.
pub fn check_depth(parts: usize) -> (r: Result<(), ProvisioningError>)
    ensures
        r == (if 1 <= parts <= 8 {
            Ok::<(), ProvisioningError>(())
        } else {
            Err(ProvisioningError::PathDepth)
        }),
{
    if parts >= 1 && parts <= 8 {
        Ok(())
    } else {
        Err(ProvisioningError::PathDepth)
    }
}

/// A component names one entry: it is neither empty nor a dot nor two dots, and holds
/// no slash.
pub open spec fn valid_component(part: Seq<u8>) -> bool {
    &&& part.len() > 0
    &&& part != seq![0x2eu8]
    &&& part != seq![0x2eu8, 0x2eu8]
    &&& !part.contains(0x2fu8)
}

/// Checks a component of a path.
pub fn check_component(part: &[u8]) -> (r: Result<(), ProvisioningError>)
    ensures
        r == (if valid_component(part@) {
            Ok::<(), ProvisioningError>(())
        } else {
            Err(ProvisioningError::PathComponent)
        }),
{
    if part.len() == 0 {
        return Err(ProvisioningError::PathComponent);
    }
    if part.len() == 1 && part[0] == 0x2e {
        assert(part@ =~= seq![0x2eu8]);
        return Err(ProvisioningError::PathComponent);
    }
    if part.len() == 2 && part[0] == 0x2e && part[1] == 0x2e {
        assert(part@ =~= seq![0x2eu8, 0x2eu8]);
        return Err(ProvisioningError::PathComponent);
    }
    let mut i: usize = 0;
    while i < part.len()
        invariant
            i <= part@.len(),
            forall|j: int| 0 <= j < i ==> #[trigger] part@[j] != 0x2f,
        decreases part@.len() - i,
    {
        if part[i] == 0x2f {
            assert(part@[i as int] == 0x2f);
            return Err(ProvisioningError::PathComponent);
        }
        i += 1;
    }
    assert(seq![0x2eu8][0] == 0x2e);
    assert(seq![0x2eu8, 0x2eu8][0] == 0x2e && seq![0x2eu8, 0x2eu8][1] == 0x2e);
    Ok(())
}

/// A lower-case hexadecimal digit.
pub open spec fn is_lower_hex(b: u8) -> bool {
    0x30 <= b <= 0x39 || 0x61 <= b <= 0x66
}

/// The identity of a boot: lower-case hexadecimal digits in five groups.
pub open spec fn valid_boot(s: Seq<u8>) -> bool {
    &&& s.len() == 36
    &&& forall|i: int|
        0 <= i < 36 ==> if i == 8 || i == 13 || i == 18 || i == 23 {
            #[trigger] s[i] == 0x2d
        } else {
            is_lower_hex(s[i])
        }
}

/// The identity of the boot, as the system gives it with a final newline.
pub fn boot_id(bytes: &[u8]) -> (r: Result<Vec<u8>, ProvisioningError>)
    ensures
        match r {
            Ok(id) => bytes@ == id@.push(0x0a) && valid_boot(id@),
            Err(e) => e == ProvisioningError::BootIdentity && !(bytes@.len() == 37 && bytes@[36]
                == 0x0a && valid_boot(bytes@.take(36))),
        },
{
    if bytes.len() != 37 || bytes[36] != 0x0a {
        return Err(ProvisioningError::BootIdentity);
    }
    let ghost id = bytes@.take(36);
    let mut i: usize = 0;
    while i < 36
        invariant
            i <= 36,
            bytes@.len() == 37,
            id == bytes@.take(36),
            forall|j: int|
                0 <= j < i ==> if j == 8 || j == 13 || j == 18 || j == 23 {
                    #[trigger] id[j] == 0x2d
                } else {
                    is_lower_hex(id[j])
                },
        decreases 36 - i,
    {
        let b: u8 = bytes[i];
        assert(id[i as int] == b);
        let fits: bool = if i == 8 || i == 13 || i == 18 || i == 23 {
            b == 0x2d
        } else {
            (b >= 0x30 && b <= 0x39) || (b >= 0x61 && b <= 0x66)
        };
        if !fits {
            assert(!valid_boot(id));
            return Err(ProvisioningError::BootIdentity);
        }
        i += 1;
    }
    let r: Vec<u8> = copy_range(bytes, 0, 36);
    assert(r@ =~= id);
    assert(bytes@ =~= id.push(0x0a));
    Ok(r)
}

/// The white space of a table of numbers.
pub open spec fn is_space(b: u8) -> bool {
    b == 0x20 || b == 0x09 || b == 0x0a || b == 0x0c || b == 0x0d
}

/// The words between white space.
pub open spec fn words(s: Seq<u8>) -> Seq<Seq<u8>>
    decreases s.len(),
{
    if s.len() == 0 {
        Seq::empty()
    } else {
        let before = words(s.drop_last());
        if is_space(s.last()) {
            before
        } else if s.len() == 1 || is_space(s[s.len() - 2]) {
            before.push(seq![s.last()])
        } else {
            before.drop_last().push(before.last().push(s.last()))
        }
    }
}

/// Where a byte occurs last.
pub open spec fn last_place(s: Seq<u8>, b: u8) -> Option<int>
    decreases s.len(),
{
    if s.len() == 0 {
        None
    } else if s.last() == b {
        Some(s.len() - 1)
    } else {
        last_place(s.drop_last(), b)
    }
}

/// The start time in a process's status. The name before it may hold anything, also
/// white space and brackets: the last closing bracket ends it.
pub open spec fn start_of(bytes: Seq<u8>) -> Result<u64, ProvisioningError> {
    if bytes.len() > 4096 {
        Err(ProvisioningError::StatTooLarge)
    } else if !valid_utf8(bytes) {
        Err(ProvisioningError::StatNotText)
    } else {
        match last_place(bytes, 0x29) {
            None => Err(ProvisioningError::StatMalformed),
            Some(at) => {
                let tail = words(bytes.subrange(at + 1, bytes.len() as int));
                if tail.len() < 20 {
                    Err(ProvisioningError::StatMissing)
                } else {
                    match number(tail[19], u64::MAX) {
                        Ok(ticks) => Ok(ticks),
                        Err(e) => Err(number_refusal(e)),
                    }
                }
            },
        }
    }
}

fn find_last(s: &[u8], b: u8) -> (r: Option<usize>)
    ensures
        match r {
            Some(at) => last_place(s@, b) == Some(at as int) && at < s@.len(),
            None => last_place(s@, b) is None,
        },
{
    let mut n: usize = s.len();
    assert(s@.take(n as int) =~= s@);
    while n > 0
        invariant
            n <= s@.len(),
            last_place(s@, b) == last_place(s@.take(n as int), b),
        decreases n,
    {
        assert(s@.take(n as int).drop_last() =~= s@.take(n - 1));
        if s[n - 1] == b {
            return Some(n - 1);
        }
        n -= 1;
    }
    None
}

fn is_space_byte(b: u8) -> (r: bool)
    ensures
        r == is_space(b),
{
    b == 0x20 || b == 0x09 || b == 0x0a || b == 0x0c || b == 0x0d
}

fn split_words(s: &[u8]) -> (parts: Vec<Vec<u8>>)
    ensures
        part_views(parts@) == words(s@),
{
    let mut parts: Vec<Vec<u8>> = Vec::new();
    let mut word: Vec<u8> = Vec::new();
    let mut in_word: bool = false;
    let mut i: usize = 0;
    assert(part_views(parts@) =~= words(s@.take(0)));
    while i < s.len()
        invariant
            i <= s@.len(),
            in_word == (i > 0 && !is_space(s@[i - 1])),
            words(s@.take(i as int)) == (if in_word {
                part_views(parts@).push(word@)
            } else {
                part_views(parts@)
            }),
            !in_word ==> word@ == Seq::<u8>::empty(),
        decreases s@.len() - i,
    {
        let b: u8 = s[i];
        let ghost now = s@.take(i + 1);
        let ghost before = part_views(parts@);
        proof {
            assert(now.drop_last() =~= s@.take(i as int));
            assert(now.last() == b);
            assert(i > 0 ==> now[now.len() - 2] == s@[i - 1]);
            assert(before.push(word@).drop_last() =~= before);
        }
        if is_space_byte(b) {
            if in_word {
                parts.push(word);
                word = Vec::new();
                in_word = false;
                assert(part_views(parts@) =~= words(s@.take(i as int)));
                assert(word@ =~= Seq::empty());
            }
        } else {
            let ghost old_word = word@;
            word.push(b);
            proof {
                if !in_word {
                    assert(old_word.push(b) =~= seq![b]);
                }
            }
            in_word = true;
        }
        i += 1;
    }
    assert(s@.take(i as int) =~= s@);
    if in_word {
        let ghost before = part_views(parts@).push(word@);
        parts.push(word);
        assert(part_views(parts@) =~= before);
    }
    parts
}

/// The start time of a process, from its status.
pub fn process_start(pid: i32, bytes: &[u8]) -> (r: Result<u64, ProvisioningError>)
    ensures
        r == (if pid <= 0 {
            Err::<u64, ProvisioningError>(ProvisioningError::InvalidPid)
        } else {
            start_of(bytes@)
        }),
{
    if pid <= 0 {
        return Err(ProvisioningError::InvalidPid);
    }
    if bytes.len() > 4096 {
        return Err(ProvisioningError::StatTooLarge);
    }
    if !is_utf8(bytes) {
        return Err(ProvisioningError::StatNotText);
    }
    let at: usize = match find_last(bytes, 0x29) {
        Some(at) => at,
        None => {
            return Err(ProvisioningError::StatMalformed);
        },
    };
    let tail: Vec<u8> = copy_range(bytes, at + 1, bytes.len());
    let parts: Vec<Vec<u8>> = split_words(tail.as_slice());
    if parts.len() < 20 {
        return Err(ProvisioningError::StatMissing);
    }
    match parse_number(parts[19].as_slice(), 0xffff_ffff_ffff_ffff) {
        Ok(ticks) => Ok(ticks),
        Err(NumberError::Invalid) => Err(ProvisioningError::Integer),
        Err(NumberError::Noncanonical) => Err(ProvisioningError::Noncanonical),
    }
}

/// The peer of a channel is the declared process.
pub fn check_credentials(peer: PeerCredentials, expected: ProcessIdentity) -> (r: Result<
    (),
    ProvisioningError,
>)
    ensures
        r == (if peer.pid == expected.pid && peer.uid == expected.uid && peer.gid == expected.gid {
            Ok::<(), ProvisioningError>(())
        } else {
            Err(ProvisioningError::Credentials)
        }),
{
    if peer.pid == expected.pid && peer.uid == expected.uid && peer.gid == expected.gid {
        Ok(())
    } else {
        Err(ProvisioningError::Credentials)
    }
}

/// The peer of a channel lives, and was started when it was declared to be.
pub fn check_peer(alive_before: bool, start_ticks: u64, alive_after: bool, expected: ProcessIdentity) -> (r:
    Result<(), ProvisioningError>)
    ensures
        r == (if !alive_before {
            Err::<(), ProvisioningError>(ProvisioningError::PeerGone)
        } else if start_ticks != expected.start_ticks {
            Err(ProvisioningError::PeerStart)
        } else if !alive_after {
            Err(ProvisioningError::PeerGone)
        } else {
            Ok(())
        }),
{
    if !alive_before {
        return Err(ProvisioningError::PeerGone);
    }
    if start_ticks != expected.start_ticks {
        return Err(ProvisioningError::PeerStart);
    }
    if !alive_after {
        return Err(ProvisioningError::PeerGone);
    }
    Ok(())
}

/// Some bytes of a declaration arrived. Nothing comes with them.
pub fn declaration_chunk(count: usize, a: Ancillary) -> (r: Result<usize, ProvisioningError>)
    ensures
        r == (if a.invalid || a.descriptors != 0 {
            Err::<usize, ProvisioningError>(ProvisioningError::Ancillary)
        } else if count == 0 {
            Err(ProvisioningError::ChannelClosed)
        } else {
            Ok(count)
        }),
{
    if a.invalid || a.descriptors != 0 {
        return Err(ProvisioningError::Ancillary);
    }
    if count == 0 {
        return Err(ProvisioningError::ChannelClosed);
    }
    Ok(count)
}

/// The byte that comes with the descriptor of a role.
pub open spec fn role_tag(role: SourceRole) -> u8 {
    match role {
        SourceRole::Worker => 1,
        SourceRole::Broker => 2,
        SourceRole::Supervisor => 3,
    }
}

/// The byte that comes with the descriptor of this role.
pub fn envelope_tag(role: SourceRole) -> (tag: u8)
    ensures
        tag == role_tag(role),
{
    match role {
        SourceRole::Worker => 1,
        SourceRole::Broker => 2,
        SourceRole::Supervisor => 3,
    }
}

/// A descriptor arrives alone, with the one byte of its role.
pub fn check_envelope(count: usize, byte: u8, a: Ancillary, role: SourceRole) -> (r: Result<
    (),
    ProvisioningError,
>)
    ensures
        r == (if count == 1 && !a.invalid && byte == role_tag(role) && a.descriptors == 1 {
            Ok::<(), ProvisioningError>(())
        } else {
            Err(ProvisioningError::Envelope)
        }),
{
    if count == 1 && !a.invalid && byte == envelope_tag(role) && a.descriptors == 1 {
        Ok(())
    } else {
        Err(ProvisioningError::Envelope)
    }
}

impl DeclarationView {
    /// The source of a role.
    pub open spec fn source(self, role: SourceRole) -> SourceBinding {
        match role {
            SourceRole::Worker => self.worker,
            SourceRole::Broker => self.broker,
            SourceRole::Supervisor => self.supervisor,
        }
    }

    /// Why a plan is not the declared one at a time that leaves enough, and not too
    /// much, before its start.
    pub open spec fn plan_refusal(
        self,
        expected: BootstrapView,
        now: Result<u64, CaptureError>,
    ) -> Option<ProvisioningError> {
        if self.plan != expected {
            Some(ProvisioningError::PlanMismatch)
        } else {
            match now {
                Err(e) => Some(ProvisioningError::Clock(e)),
                Ok(ns) => if self.plan.start_ns < ns {
                    Some(ProvisioningError::Stale)
                } else if !(MIN_LEAD_NS < self.plan.start_ns - ns <= MAX_LEAD_NS) {
                    Some(ProvisioningError::Lead)
                } else {
                    None
                },
            }
        }
    }
}

impl Declaration {
    /// The source of a role.
    pub fn binding(&self, role: SourceRole) -> (r: SourceBinding)
        ensures
            r == self@.source(role),
    {
        match role {
            SourceRole::Worker => self.worker,
            SourceRole::Broker => self.broker,
            SourceRole::Supervisor => self.supervisor,
        }
    }

    /// Until when a stage that begins at some time may take: no longer than its own
    /// deadline and that of the acquisition.
    pub open spec fn stage_until(self, deadline_ns: u64, at_ns: u64) -> u64 {
        Budget::until(
            if deadline_ns < self.acquisition_deadline_ns {
                deadline_ns
            } else {
                self.acquisition_deadline_ns
            },
            at_ns,
        )
    }

    /// The budget of a stage: no stage renews the deadline of the acquisition.
    pub fn budget(&self, deadline_ns: u64, now_ns: u64) -> (r: Result<Budget, ProvisioningError>)
        ensures
            r == (if now_ns < self.stage_until(deadline_ns, now_ns) {
                Ok::<Budget, ProvisioningError>(
                    Budget { until_ns: self.stage_until(deadline_ns, now_ns) },
                )
            } else {
                Err(ProvisioningError::Expired)
            }),
    {
        let earliest: u64 = if deadline_ns < self.acquisition_deadline_ns {
            deadline_ns
        } else {
            self.acquisition_deadline_ns
        };
        Budget::new(earliest, now_ns)
    }

    /// Checks a plan against the declared one, and the time before its start.
    pub fn check_plan(
        &self,
        expected: &FixtureBootstrap,
        now: Result<u64, CaptureError>,
    ) -> (r: Result<(), ProvisioningError>)
        ensures
            match r {
                Ok(()) => self@.plan_refusal(expected@, now) is None,
                Err(e) => self@.plan_refusal(expected@, now) == Some(e),
            },
    {
        if !self.plan.equals(expected) {
            return Err(ProvisioningError::PlanMismatch);
        }
        let ns: u64 = match now {
            Ok(ns) => ns,
            Err(e) => {
                return Err(ProvisioningError::Clock(e));
            },
        };
        if self.plan.start_ns < ns {
            return Err(ProvisioningError::Stale);
        }
        let lead: u64 = self.plan.start_ns - ns;
        if lead <= MIN_LEAD_NS || lead > MAX_LEAD_NS {
            return Err(ProvisioningError::Lead);
        }
        Ok(())
    }

    /// Begins to receive the storage of a role: whether a process may, and until when.
    pub fn begin_receive(
        &self,
        role: SourceRole,
        expected: &FixtureBootstrap,
        deadline_ns: u64,
        at_ns: u64,
        now: Result<u64, CaptureError>,
        current: ProcessIdentity,
    ) -> (r: Result<Budget, ProvisioningError>)
        ensures
            r == (if at_ns >= self.stage_until(deadline_ns, at_ns) {
                Err::<Budget, ProvisioningError>(ProvisioningError::Expired)
            } else {
                match self@.plan_refusal(expected@, now) {
                    Some(e) => Err(e),
                    None => if current != self@.source(role).process {
                        Err(ProvisioningError::Recipient)
                    } else {
                        Ok(Budget { until_ns: self.stage_until(deadline_ns, at_ns) })
                    },
                }
            }),
    {
        let budget: Budget = self.budget(deadline_ns, at_ns)?;
        self.check_plan(expected, now)?;
        let binding: SourceBinding = self.binding(role);
        if current != binding.process {
            return Err(ProvisioningError::Recipient);
        }
        Ok(budget)
    }

    /// The launcher announces the same declaration, byte for byte.
    pub fn check_announcement(&self, announcement: &[u8]) -> (r: Result<(), ProvisioningError>)
        ensures
            r == (if announcement@ == self.bytes@ {
                Ok::<(), ProvisioningError>(())
            } else {
                Err(ProvisioningError::Announcement)
            }),
    {
        if same_bytes(announcement, self.bytes.as_slice()) {
            Ok(())
        } else {
            Err(ProvisioningError::Announcement)
        }
    }

    /// Binds a writer to the declared source, within the budget of the stage. The plan is
    /// checked once more.
    pub fn receive(
        self,
        role: SourceRole,
        expected: &FixtureBootstrap,
        now: Result<u64, CaptureError>,
        writer: MappedWriter,
        budget: Budget,
        at_ns: u64,
    ) -> (r: Result<StartupCapture, ProvisioningError>)
        ensures
            match r {
                Ok(capture) => {
                    &&& self@.plan_refusal(expected@, now) is None
                    &&& writer.capacity == self@.source(role).capacity
                    &&& at_ns < budget.until_ns
                    &&& capture.declaration == self
                    &&& capture.binding == self@.source(role)
                    &&& capture.writer == writer
                },
                Err(e) => match self@.plan_refusal(expected@, now) {
                    Some(why) => e == why,
                    None => if writer.capacity != self@.source(role).capacity {
                        e == ProvisioningError::MappingCapacity
                    } else {
                        at_ns >= budget.until_ns && e == ProvisioningError::Expired
                    },
                },
            },
    {
        self.check_plan(expected, now)?;
        let binding: SourceBinding = self.binding(role);
        if writer.capacity != binding.capacity {
            return Err(ProvisioningError::MappingCapacity);
        }
        budget.check(at_ns)?;
        Ok(StartupCapture { declaration: self, binding, writer })
    }
}

/// A writer that is bound to a source of a declaration.
pub struct StartupCapture {
    pub declaration: Declaration,
    pub binding: SourceBinding,
    pub writer: MappedWriter,
}

impl StartupCapture {
    /// The writer, and how much it records.
    pub fn into_writer(self) -> (r: (MappedWriter, CaptureLevel))
        ensures
            r.0 == self.writer,
            r.1 == self.declaration@.plan.level(),
    {
        let level: CaptureLevel = self.declaration.plan.capture_level();
        (self.writer, level)
    }
}

/// The launcher's registry: one collector and one attempt for each source.
pub struct Launcher {
    pub declaration: Declaration,
    pub worker: Collector,
    pub broker: Collector,
    pub supervisor: Collector,
    pub worker_attempted: bool,
    pub broker_attempted: bool,
    pub supervisor_attempted: bool,
}

/// The words of the three storages.
pub struct LauncherStorage {
    pub worker: Vec<u64>,
    pub broker: Vec<u64>,
    pub supervisor: Vec<u64>,
}

/// A collector that was just made for a source.
pub open spec fn fresh_collector(source: SourceBinding, role: SourceRole) -> Collector {
    Collector { capacity: source.capacity, role, ticket_taken: false }
}

fn collector(source: SourceBinding, role: SourceRole) -> (r: Result<
    (Collector, Vec<u64>),
    ProvisioningError,
>)
    ensures
        match r {
            Ok((c, words)) => 1 <= source.capacity <= MAX_TOTAL_RECORDS && c == fresh_collector(
                source,
                role,
            ) && words@ == fresh_words(source.capacity as nat, role),
            Err(e) => !(1 <= source.capacity <= MAX_TOTAL_RECORDS) && e
                == ProvisioningError::Storage(StorageError::Capacity),
        },
{
    match Collector::for_role(source.capacity, role) {
        Ok(made) => Ok(made),
        Err(e) => Err(ProvisioningError::Storage(e)),
    }
}

impl Launcher {
    /// The attempt of a role was made.
    pub open spec fn attempted(self, role: SourceRole) -> bool {
        match role {
            SourceRole::Worker => self.worker_attempted,
            SourceRole::Broker => self.broker_attempted,
            SourceRole::Supervisor => self.supervisor_attempted,
        }
    }

    /// The collector of a role.
    pub open spec fn collector(self, role: SourceRole) -> Collector {
        match role {
            SourceRole::Worker => self.worker,
            SourceRole::Broker => self.broker,
            SourceRole::Supervisor => self.supervisor,
        }
    }

    /// A registry, made by the declared launcher in time, the words of its storages, and
    /// until when they may be made.
    pub fn new(
        declaration: Declaration,
        deadline_ns: u64,
        at_ns: u64,
        current: ProcessIdentity,
        now: Result<u64, CaptureError>,
    ) -> (r: Result<(Launcher, LauncherStorage, Budget), ProvisioningError>)
        ensures
            match r {
                Ok((launcher, storage, budget)) => {
                    let d = declaration@;
                    &&& at_ns < budget.until_ns
                    &&& budget.until_ns == declaration.stage_until(deadline_ns, at_ns)
                    &&& current == d.launcher
                    &&& d.launcher.uid == declaration.owner
                    &&& d.plan_refusal(d.plan, now) is None
                    &&& launcher.declaration == declaration
                    &&& forall|role: SourceRole|
                        (#[trigger] launcher.collector(role)) == fresh_collector(
                            d.source(role),
                            role,
                        ) && !launcher.attempted(role)
                    &&& storage.worker@ == fresh_words(
                        d.worker.capacity as nat,
                        SourceRole::Worker,
                    )
                    &&& storage.broker@ == fresh_words(
                        d.broker.capacity as nat,
                        SourceRole::Broker,
                    )
                    &&& storage.supervisor@ == fresh_words(
                        d.supervisor.capacity as nat,
                        SourceRole::Supervisor,
                    )
                },
                Err(e) => {
                    let d = declaration@;
                    if at_ns >= declaration.stage_until(deadline_ns, at_ns) {
                        e == ProvisioningError::Expired
                    } else if current != d.launcher {
                        e == ProvisioningError::NotLauncher
                    } else if d.launcher.uid != declaration.owner {
                        e == ProvisioningError::UntrustedLauncher
                    } else if d.plan_refusal(d.plan, now) is Some {
                        d.plan_refusal(d.plan, now) == Some(e)
                    } else {
                        e == ProvisioningError::Storage(StorageError::Capacity) && exists|
                            role: SourceRole,
                        |
                            !(1 <= (#[trigger] d.source(role)).capacity <= MAX_TOTAL_RECORDS)
                    }
                },
            },
    {
        let budget: Budget = declaration.budget(deadline_ns, at_ns)?;
        if current != declaration.launcher {
            return Err(ProvisioningError::NotLauncher);
        }
        if declaration.launcher.uid != declaration.owner {
            return Err(ProvisioningError::UntrustedLauncher);
        }
        declaration.check_plan(&declaration.plan, now)?;
        assert(declaration@.source(SourceRole::Worker) == declaration.worker);
        assert(declaration@.source(SourceRole::Broker) == declaration.broker);
        assert(declaration@.source(SourceRole::Supervisor) == declaration.supervisor);
        let (worker, worker_words) = collector(declaration.worker, SourceRole::Worker)?;
        let (broker, broker_words) = collector(declaration.broker, SourceRole::Broker)?;
        let (supervisor, supervisor_words) = collector(
            declaration.supervisor,
            SourceRole::Supervisor,
        )?;
        let launcher = Launcher {
            declaration,
            worker,
            broker,
            supervisor,
            worker_attempted: false,
            broker_attempted: false,
            supervisor_attempted: false,
        };
        let storage = LauncherStorage {
            worker: worker_words,
            broker: broker_words,
            supervisor: supervisor_words,
        };
        Ok((launcher, storage, budget))
    }

    /// Begins to hand out the storage of a role, and gives the process that is to receive
    /// it, and until when. Each role has one attempt, and a failed one counts.
    pub fn begin_send(
        &mut self,
        role: SourceRole,
        expected: &FixtureBootstrap,
        deadline_ns: u64,
        at_ns: u64,
        now: Result<u64, CaptureError>,
        current: ProcessIdentity,
    ) -> (r: Result<(ProcessIdentity, Budget), ProvisioningError>)
        ensures
            final(self).declaration == old(self).declaration,
            forall|other: SourceRole|
                (#[trigger] final(self).attempted(other)) == (old(self).attempted(other) || other
                    == role),
            forall|other: SourceRole|
                (#[trigger] final(self).collector(other)) == old(self).collector(other),
            ({
                let d = old(self).declaration@;
                let until_ns = old(self).declaration.stage_until(deadline_ns, at_ns);
                r == (if old(self).attempted(role) {
                    Err::<(ProcessIdentity, Budget), ProvisioningError>(
                        ProvisioningError::Attempted,
                    )
                } else if at_ns >= until_ns {
                    Err(ProvisioningError::Expired)
                } else {
                    match d.plan_refusal(expected@, now) {
                        Some(e) => Err(e),
                        None => if current != d.launcher {
                            Err(ProvisioningError::LauncherChanged)
                        } else {
                            Ok((d.source(role).process, Budget { until_ns }))
                        },
                    }
                })
            }),
    {
        let attempted: bool = match role {
            SourceRole::Worker => self.worker_attempted,
            SourceRole::Broker => self.broker_attempted,
            SourceRole::Supervisor => self.supervisor_attempted,
        };
        if attempted {
            return Err(ProvisioningError::Attempted);
        }
        match role {
            SourceRole::Worker => {
                self.worker_attempted = true;
            },
            SourceRole::Broker => {
                self.broker_attempted = true;
            },
            SourceRole::Supervisor => {
                self.supervisor_attempted = true;
            },
        }
        let budget: Budget = self.declaration.budget(deadline_ns, at_ns)?;
        self.declaration.check_plan(expected, now)?;
        if current != self.declaration.launcher {
            return Err(ProvisioningError::LauncherChanged);
        }
        Ok((self.declaration.binding(role).process, budget))
    }

    /// Takes the one ticket of a role.
    pub fn take_storage(&mut self, role: SourceRole) -> (r: Result<(), ProvisioningError>)
        ensures
            final(self).declaration == old(self).declaration,
            forall|other: SourceRole|
                (#[trigger] final(self).attempted(other)) == old(self).attempted(other),
            forall|other: SourceRole|
                other != role ==> (#[trigger] final(self).collector(other)) == old(self).collector(
                    other,
                ),
            ({
                let before = old(self).collector(role);
                match r {
                    Ok(()) => before.role == role && !before.ticket_taken && final(self).collector(
                        role,
                    ) == (Collector { ticket_taken: true, ..before }),
                    Err(ProvisioningError::Storage(StorageError::Role)) => before.role != role
                        && final(self).collector(role) == before,
                    Err(ProvisioningError::Storage(StorageError::TicketTaken)) => before.role
                        == role && before.ticket_taken && final(self).collector(role) == before,
                    Err(_) => false,
                }
            }),
    {
        let taken: Result<(), StorageError> = match role {
            SourceRole::Worker => self.worker.take_storage(role),
            SourceRole::Broker => self.broker.take_storage(role),
            SourceRole::Supervisor => self.supervisor.take_storage(role),
        };
        match taken {
            Ok(()) => Ok(()),
            Err(e) => Err(ProvisioningError::Storage(e)),
        }
    }
}

/// No stage outlives the deadline of the acquisition, whenever it begins and whatever its
/// own deadline is, and none begins once that deadline has passed.
pub proof fn law_no_stage_renews_the_deadline(d: Declaration, deadline_ns: u64, at_ns: u64)
    ensures
        d.stage_until(deadline_ns, at_ns) <= d.acquisition_deadline_ns,
        d.stage_until(deadline_ns, at_ns) <= deadline_ns,
        d.stage_until(deadline_ns, at_ns) <= at_ns + ACQUISITION_LIMIT_NS,
        at_ns >= d.acquisition_deadline_ns ==> at_ns >= d.stage_until(deadline_ns, at_ns),
{
}

} // verus!
