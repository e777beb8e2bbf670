//! What starting a measured run is for: who may hand what to whom, and until when.
use vstd::prelude::*;
use vstd::string::StringSliceAdditionalSpecFns;
use vstd::utf8::valid_utf8;

use crate::bootstrap::{
    announced, descriptors_in, piece_descriptors, piece_valid, storage_announced, Ancillary,
    AncillaryHeader, BootstrapError, BootstrapView, CaptureLevel,
};
use crate::capture_storage::SourceRole;
use crate::decimal::{
    decimal, digits, digits_value, is_digit, law_decimal_denotes_its_number, number,
    signed_number, unsigned_part, NumberError,
};
use crate::events::Mode;
use crate::observer::CaptureError;
use crate::path_walk::{Found, WalkStep, WalkView};
use crate::provisioning::{
    boot_line, digit_flag, fields, flag_digit, heading, letter_mode, mode_letter,
    number_refusal, policy_line, role_label, role_refusal, Declaration, DeclarationView,
    ProvisioningError, SourceBinding,
};
use crate::service_files::{broker_lines, supervisor_lines, unit_text, worker_lines};
use crate::startup::{
    fresh_collector, is_space, last_place, role_tag, safe_directory, start_of, stat_error,
    valid_boot, valid_component, words, Budget, FileStat, Launcher,
};
use crate::text::{lemma_split_append, split};

verus! {

/// An acquisition takes until its deadline, but never longer than two seconds.
pub proof fn law_an_acquisition_takes_two_seconds_at_most(deadline_ns: u64, now_ns: u64)
    ensures
        Budget::until(deadline_ns, now_ns) <= deadline_ns,
        Budget::until(deadline_ns, now_ns) <= now_ns + 2_000_000_000,
        Budget::until(deadline_ns, now_ns) == deadline_ns || Budget::until(deadline_ns, now_ns)
            == now_ns + 2_000_000_000,
{
}

/// A stage takes until the earliest of its own deadline, that of the acquisition, and two
/// seconds from its beginning.
pub proof fn law_a_stage_takes_until_the_earliest_deadline(
    d: Declaration,
    deadline_ns: u64,
    at_ns: u64,
)
    ensures
        ({
            let until = d.stage_until(deadline_ns, at_ns);
            &&& until <= deadline_ns
            &&& until <= d.acquisition_deadline_ns
            &&& until <= at_ns + 2_000_000_000
            &&& until == deadline_ns || until == d.acquisition_deadline_ns || until == at_ns
                + 2_000_000_000
        }),
{
}

/// A directory is safe exactly where it is a directory of the owner that neither its group
/// nor anybody else can write, and that has no special bit.
pub proof fn law_a_safe_directory_is_the_owners_alone(value: FileStat, owner: u32)
    ensures
        safe_directory(value, owner) <==> {
            &&& value.mode & 0o170000 == 0o040000
            &&& value.uid == owner
            &&& value.mode & 0o0020 == 0
            &&& value.mode & 0o0002 == 0
            &&& value.mode & 0o7000 == 0
        },
{
    let mode = value.mode;
    assert((mode & 0o7022 == 0) <==> (mode & 0o0020 == 0 && mode & 0o0002 == 0 && mode & 0o7000
        == 0)) by (bit_vector);
}

/// A file is taken for a declaration exactly where it is a regular file of the owner that
/// nobody else can write and nobody can run, without a special bit, with one link, and of
/// one to four thousand and ninety-six bytes.
pub proof fn law_a_declaration_is_a_plain_file_of_the_owner(value: FileStat, owner: u32)
    ensures
        stat_error(value, owner) is None <==> {
            &&& value.mode & 0o170000 == 0o100000
            &&& value.uid == owner
            &&& value.mode & 0o0022 == 0
            &&& value.mode & 0o0111 == 0
            &&& value.mode & 0o7000 == 0
            &&& value.nlink == 1
            &&& 1 <= value.size <= 4096
        },
        match stat_error(value, owner) {
            None => true,
            Some(ProvisioningError::NotRegular) => value.mode & 0o170000 != 0o100000,
            Some(ProvisioningError::Owner) => value.uid != owner,
            Some(ProvisioningError::Permissions) => value.mode & 0o0022 != 0 || value.mode & 0o0111
                != 0 || value.mode & 0o7000 != 0,
            Some(ProvisioningError::Links) => value.nlink != 1,
            Some(ProvisioningError::Size) => value.size < 1 || value.size > 4096,
            Some(_) => false,
        },
{
    let mode = value.mode;
    assert((mode & 0o7133 == 0) <==> (mode & 0o0022 == 0 && mode & 0o0111 == 0 && mode & 0o7000
        == 0)) by (bit_vector);
}

/// A component of a path names one entry: it has bytes, none of them a slash, and is neither
/// one dot nor two.
pub proof fn law_a_component_names_one_entry(part: Seq<u8>)
    ensures
        valid_component(part) <==> {
            &&& part.len() > 0
            &&& !(part.len() == 1 && part[0] == 0x2e)
            &&& !(part.len() == 2 && part[0] == 0x2e && part[1] == 0x2e)
            &&& forall|i: int| 0 <= i < part.len() ==> #[trigger] part[i] != 0x2f
        },
{
    if part.len() == 1 && part[0] == 0x2e {
        assert(part =~= seq![0x2eu8]);
    }
    if part.len() == 2 && part[0] == 0x2e && part[1] == 0x2e {
        assert(part =~= seq![0x2eu8, 0x2eu8]);
    }
    if part == seq![0x2eu8] {
        assert(part[0] == 0x2e && part.len() == 1);
    }
    if part == seq![0x2eu8, 0x2eu8] {
        assert(part[0] == 0x2e && part[1] == 0x2e && part.len() == 2);
    }
    if part.contains(0x2fu8) {
        let i = part.index_of(0x2fu8);
        assert(part[i] == 0x2f);
    }
}

/// The identity of a boot has thirty-six bytes: hyphens at four places, and small
/// hexadecimal digits everywhere else.
pub proof fn law_a_boot_is_digits_in_five_groups(s: Seq<u8>)
    ensures
        valid_boot(s) <==> s.len() == 36 && forall|i: int|
            0 <= i < 36 ==> {
                let b = #[trigger] s[i];
                if i == 8 || i == 13 || i == 18 || i == 23 {
                    b == 0x2d
                } else {
                    0x30 <= b <= 0x39 || 0x61 <= b <= 0x66
                }
            },
{
    if valid_boot(s) {
        assert forall|i: int| 0 <= i < 36 implies {
            let b = #[trigger] s[i];
            if i == 8 || i == 13 || i == 18 || i == 23 {
                b == 0x2d
            } else {
                0x30 <= b <= 0x39 || 0x61 <= b <= 0x66
            }
        } by {}
    }
}

/// A byte occurs last where it stands and does not stand again, and nowhere where it does
/// not stand at all.
pub proof fn law_the_last_place_of_a_byte(s: Seq<u8>, b: u8)
    ensures
        match last_place(s, b) {
            Some(at) => 0 <= at < s.len() && s[at] == b && forall|i: int|
                at < i < s.len() ==> #[trigger] s[i] != b,
            None => forall|i: int| 0 <= i < s.len() ==> #[trigger] s[i] != b,
        },
    decreases s.len(),
{
    if s.len() > 0 && s.last() != b {
        let less = s.drop_last();
        law_the_last_place_of_a_byte(less, b);
        assert forall|i: int| 0 <= i < s.len() implies #[trigger] s[i] == (if i < less.len() {
            less[i]
        } else {
            s.last()
        }) by {}
    }
}

/// White space alone adds no word, and behind white space a run of other bytes is one word
/// more.
pub proof fn law_words_stand_between_white_space(s: Seq<u8>, space: u8, word: Seq<u8>)
    requires
        space == 0x20 || space == 0x09 || space == 0x0a || space == 0x0c || space == 0x0d,
        word.len() > 0,
        forall|i: int|
            0 <= i < word.len() ==> {
                let b = #[trigger] word[i];
                b != 0x20 && b != 0x09 && b != 0x0a && b != 0x0c && b != 0x0d
            },
    ensures
        words(Seq::empty()) == Seq::<Seq<u8>>::empty(),
        words(s.push(space)) == words(s),
        words(s.push(space) + word) == words(s).push(word),
        words(word) == seq![word],
    decreases word.len(),
{
    assert(s.push(space).drop_last() =~= s);
    let before = s.push(space);
    let whole = before + word;
    let less = word.drop_last();
    assert(!is_space(word.last())) by {
        assert(word[word.len() - 1] == word.last());
    }
    assert(whole.drop_last() =~= before + less);
    assert(whole.last() == word.last());
    if word.len() == 1 {
        assert(less =~= Seq::<u8>::empty());
        assert(before + less =~= before);
        assert(whole[whole.len() - 2] == space);
        assert(seq![word.last()] =~= word);
        reveal_with_fuel(words, 2);
        assert(words(word) =~= seq![word]);
    } else {
        assert forall|i: int| 0 <= i < less.len() implies {
            let b = #[trigger] less[i];
            b != 0x20 && b != 0x09 && b != 0x0a && b != 0x0c && b != 0x0d
        } by {
            assert(less[i] == word[i]);
        }
        law_words_stand_between_white_space(s, space, less);
        assert(whole[whole.len() - 2] == word[word.len() - 2]);
        assert(!is_space(word[word.len() - 2]));
        assert(words(before + less) == words(s).push(less));
        assert(words(s).push(less).drop_last() =~= words(s));
        assert(less.push(word.last()) =~= word);
        assert(words(whole) =~= words(s).push(word));
        assert(seq![less].drop_last() =~= Seq::<Seq<u8>>::empty());
        assert(words(word) =~= seq![word]);
    }
}

/// The start time of a process is the twentieth word behind the last closing bracket of its
/// status, whatever stands before that bracket.
pub proof fn law_the_start_time_stands_behind_the_name(head: Seq<u8>, tail: Seq<u8>, ticks: u64)
    requires
        head.len() + 1 + tail.len() <= 4096,
        valid_utf8(head + seq![0x29u8] + tail),
        forall|i: int| 0 <= i < tail.len() ==> #[trigger] tail[i] != 0x29,
        words(tail).len() >= 20,
        number(words(tail)[19], u64::MAX) == Ok::<u64, NumberError>(ticks),
    ensures
        start_of(head + seq![0x29u8] + tail) == Ok::<u64, ProvisioningError>(ticks),
{
    let all = head + seq![0x29u8] + tail;
    law_the_last_place_of_a_byte(all, 0x29);
    assert(all[head.len() as int] == 0x29);
    let at = last_place(all, 0x29)->Some_0;
    if at > head.len() {
        assert(all[at] == tail[at - head.len() - 1]);
    }
    assert(all.subrange(head.len() as int + 1, all.len() as int) =~= tail);
}

/// The byte that comes with a descriptor, the label and the refusal of a role are its own,
/// and so are its source, its collector and its one attempt.
pub proof fn law_each_role_has_its_own(d: DeclarationView, launcher: Launcher)
    ensures
        role_tag(SourceRole::Worker) == 1,
        role_tag(SourceRole::Broker) == 2,
        role_tag(SourceRole::Supervisor) == 3,
        SourceRole::Worker.code() == 1,
        SourceRole::Broker.code() == 2,
        SourceRole::Supervisor.code() == 3,
        role_label(SourceRole::Worker) == "worker".spec_bytes(),
        role_label(SourceRole::Broker) == "broker".spec_bytes(),
        role_label(SourceRole::Supervisor) == "supervisor".spec_bytes(),
        role_refusal(SourceRole::Worker) == ProvisioningError::WorkerFields,
        role_refusal(SourceRole::Broker) == ProvisioningError::BrokerFields,
        role_refusal(SourceRole::Supervisor) == ProvisioningError::SupervisorFields,
        d.source(SourceRole::Worker) == d.worker,
        d.source(SourceRole::Broker) == d.broker,
        d.source(SourceRole::Supervisor) == d.supervisor,
        launcher.collector(SourceRole::Worker) == launcher.worker,
        launcher.collector(SourceRole::Broker) == launcher.broker,
        launcher.collector(SourceRole::Supervisor) == launcher.supervisor,
        launcher.attempted(SourceRole::Worker) == launcher.worker_attempted,
        launcher.attempted(SourceRole::Broker) == launcher.broker_attempted,
        launcher.attempted(SourceRole::Supervisor) == launcher.supervisor_attempted,
{
}

/// A plan is taken exactly where it is the declared one, the clock could be read, and the
/// start is more than five seconds and at most ten minutes ahead.
pub proof fn law_a_plan_is_taken_in_time(
    d: DeclarationView,
    expected: BootstrapView,
    now: Result<u64, CaptureError>,
)
    ensures
        d.plan_refusal(expected, now) is None <==> d.plan == expected && (now matches Ok(ns)
            && d.plan.start_ns > ns + 5_000_000_000 && d.plan.start_ns <= ns + 600_000_000_000),
        d.plan_refusal(expected, now) == Some(ProvisioningError::PlanMismatch) <==> d.plan
            != expected,
        d.plan_refusal(expected, now) == Some(ProvisioningError::Stale) <==> d.plan == expected && (
        now matches Ok(ns) && d.plan.start_ns < ns),
{
}

/// An entry that is missing turns a walk off, and one that cannot be opened ends it. Every
/// entry but the last has to be a safe directory and is entered; the last has to be a
/// declaration, and that very file is pinned.
pub proof fn law_each_entry_of_a_walk_is_checked(walk: WalkView, found: Found)
    requires
        walk.wf(),
    ensures
        ({
            let last = walk.position == walk.parts.len() - 1;
            let answer = walk.answer(found);
            &&& answer == Ok::<WalkStep, ProvisioningError>(WalkStep::Off) <==> found is Missing
            &&& found is Failed ==> answer == Err::<WalkStep, ProvisioningError>(
                ProvisioningError::Open,
            )
            &&& answer == Ok::<WalkStep, ProvisioningError>(WalkStep::Enter) <==> !last && (
            found matches Found::Entry(value) && safe_directory(value, walk.owner))
            &&& answer matches Ok(WalkStep::Pin(pinned)) ==> last && found == Found::Entry(pinned)
                && stat_error(pinned, walk.owner) is None
            &&& last ==> (found matches Found::Entry(value) ==> (stat_error(value, walk.owner)
                matches Some(e) ==> answer == Err::<WalkStep, ProvisioningError>(e)))
            &&& !last ==> (found matches Found::Entry(value) ==> (!safe_directory(
                value,
                walk.owner,
            ) ==> answer == Err::<WalkStep, ProvisioningError>(
                ProvisioningError::UnsafeDirectory,
            )))
        }),
        walk.further().position == walk.position + 1,
        walk.further().parts == walk.parts && walk.further().owner == walk.owner,
{
}

/// An entry is opened exactly while there is time left and its name is that of one entry.
pub proof fn law_an_entry_is_opened_in_time(walk: WalkView, budget: Budget, now_ns: u64)
    ensures
        walk.refusal(budget, now_ns) is None <==> now_ns < budget.until_ns && valid_component(
            walk.parts[walk.position],
        ),
        now_ns >= budget.until_ns ==> walk.refusal(budget, now_ns) == Some(
            ProvisioningError::Expired,
        ),
{
}

/// The text of a unit is its lines, each with a line break behind it.
pub proof fn law_a_unit_is_its_lines(lines: Seq<Seq<char>>, line: Seq<char>)
    ensures
        unit_text(Seq::empty()) == Seq::<char>::empty(),
        unit_text(lines.push(line)) == unit_text(lines) + line + "\n"@,
{
    assert(lines.push(line).drop_last() =~= lines);
}

/// The broker runs under its own account with the three groups of the devices, is started
/// again when it fails, and is ended after five seconds. The supervisor runs for members of
/// its group in a graphical session, and is ended after five seconds. A worker has bounded
/// memory and tasks, no devices, and is not started again.
pub proof fn law_the_services_keep_their_policy()
    ensures
        broker_lines() == seq![
            "[Service]"@,
            "Type=notify"@,
            "User=sliver"@,
            "SupplementaryGroups=sliver-drm sliver-input sliver-backlight"@,
            "Restart=on-failure"@,
            "TimeoutStopSec=5s"@,
            "FinalKillSignal=SIGKILL"@,
        ],
        supervisor_lines() == seq![
            "[Unit]"@,
            "ConditionGroup=sliver-supervisors"@,
            "[Service]"@,
            "TimeoutStopSec=5s"@,
            "FinalKillSignal=SIGKILL"@,
            "[Install]"@,
            "WantedBy=graphical-session.target"@,
        ],
        worker_lines() == seq![
            "[Service]"@,
            "MemoryMax=512M"@,
            "TasksMax=64"@,
            "KillMode=control-group"@,
            "PrivateDevices=yes"@,
            "DevicePolicy=closed"@,
            "Restart=no"@,
        ],
{
}

/// A bootstrap is accepted exactly where one byte came with nothing but whole rights, and as
/// many descriptors as it announces: none, or one to be recorded in detail or minimally.
pub proof fn law_a_bootstrap_is_accepted_as_announced(received: i64, byte: u8, a: Ancillary)
    ensures
        storage_announced(received, byte, a) == Ok::<Option<CaptureLevel>, BootstrapError>(None)
            <==> received == 1 && !a.invalid && byte == 0xa0 && a.descriptors == 0,
        storage_announced(received, byte, a) == Ok::<Option<CaptureLevel>, BootstrapError>(
            Some(CaptureLevel::Detailed),
        ) <==> received == 1 && !a.invalid && byte == 0xa1 && a.descriptors == 1,
        storage_announced(received, byte, a) == Ok::<Option<CaptureLevel>, BootstrapError>(
            Some(CaptureLevel::Minimal),
        ) <==> received == 1 && !a.invalid && byte == 0xa2 && a.descriptors == 1,
        announced(None) == 0xa0,
        announced(Some(CaptureLevel::Detailed)) == 0xa1,
        announced(Some(CaptureLevel::Minimal)) == 0xa2,
{
}

/// Every descriptor that came is counted, four bytes for each: those that were passed as
/// rights, and those of processes where they are owned.
pub proof fn law_every_descriptor_is_counted(
    headers: Seq<AncillaryHeader>,
    h: AncillaryHeader,
    owns_pidfd: bool,
)
    ensures
        descriptors_in(Seq::empty(), owns_pidfd) == 0,
        descriptors_in(headers.push(h), owns_pidfd) == descriptors_in(headers, owns_pidfd)
            + piece_descriptors(h, owns_pidfd),
        h.kind is Rights ==> piece_descriptors(h, owns_pidfd) == h.payload as nat / 4,
        h.kind is Pidfd ==> piece_descriptors(h, owns_pidfd) == (if owns_pidfd {
            h.payload as nat / 4
        } else {
            0
        }),
        h.kind is Other ==> piece_descriptors(h, owns_pidfd) == 0,
        piece_valid(h) <==> h.kind is Rights && h.payload % 4 == 0,
{
    assert(headers.push(h).drop_last() =~= headers);
}

/// The first three lines of a declaration name its version, its policy and its boot. Modes
/// are letters and flags are digits, and each is read as what it was written for.
pub proof fn law_a_declaration_names_its_version_policy_and_boot(boot: Seq<u8>, s: Seq<u8>)
    ensures
        heading() == "SLIVER-PROVISIONING-1".spec_bytes(),
        policy_line() == "policy cbe2b5da809eed7cc4b3406b222baf43e1e34a2d".spec_bytes(),
        boot_line(boot) == "boot ".spec_bytes() + boot,
        mode_letter(Mode::A) == seq![0x41u8],
        mode_letter(Mode::B) == seq![0x42u8],
        mode_letter(Mode::C) == seq![0x43u8],
        flag_digit(false) == seq![0x30u8],
        flag_digit(true) == seq![0x31u8],
        letter_mode(s) == Some(Mode::A) <==> s == seq![0x41u8],
        letter_mode(s) == Some(Mode::B) <==> s == seq![0x42u8],
        letter_mode(s) == Some(Mode::C) <==> s == seq![0x43u8],
        digit_flag(s) == Some(false) <==> s == seq![0x30u8],
        digit_flag(s) == Some(true) <==> s == seq![0x31u8],
        number_refusal(NumberError::Invalid) == ProvisioningError::Integer,
        number_refusal(NumberError::Noncanonical) == ProvisioningError::Noncanonical,
{
    assert(seq![0x41u8][0] == 0x41 && seq![0x42u8][0] == 0x42 && seq![0x43u8][0] == 0x43);
    assert(seq![0x30u8][0] == 0x30 && seq![0x31u8][0] == 0x31);
}

/// One more field behind a space is one more field of the line, where it is not empty; and a
/// line with an empty field, or with another label, has none.
pub proof fn law_fields_stand_between_spaces(
    line: Seq<u8>,
    label: Seq<u8>,
    value: Seq<u8>,
    count: nat,
)
    requires
        forall|i: int| 0 <= i < value.len() ==> #[trigger] value[i] != 0x20,
    ensures
        fields(line, label, count) matches Some(f) ==> f.len() == count && f[0] == label,
        fields(line, label, count) is Some && value.len() > 0 && count > 0 ==> fields(
            line.push(0x20) + value,
            label,
            count + 1,
        ) == Some(fields(line, label, count)->Some_0.push(value)),
        value.len() == 0 ==> fields(line.push(0x20) + value, label, count) is None,
{
    lemma_split_append(line, value, 0x20);
    let whole = line.push(0x20) + value;
    let values = split(line, 0x20).push(value);
    assert(split(whole, 0x20) == values);
    if fields(line, label, count) is Some && value.len() > 0 && count > 0 {
        assert forall|i: int| 0 <= i < count + 1 implies (#[trigger] values[i]).len() > 0 by {
            if i < count {
                assert(values[i] == split(line, 0x20)[i]);
            }
        }
    }
    if value.len() == 0 && fields(whole, label, count) is Some {
        assert(values[values.len() - 1].len() == 0);
        assert(false);
    }
}

/// A startup is refused with these words.
pub proof fn law_a_startup_says_why()
    ensures
        ProvisioningError::TooLarge.text() == "declaration too large"@,
        ProvisioningError::NotText.text() == "declaration is not text"@,
        ProvisioningError::NoNewline.text() == "declaration needs final newline"@,
        ProvisioningError::Layout.text() == "unsupported declaration layout"@,
        ProvisioningError::Policy.text() == "unapproved provisioning policy"@,
        ProvisioningError::Boot.text() == "startup declaration belongs to another boot"@,
        ProvisioningError::PlanFields.text() == "invalid plan declaration"@,
        ProvisioningError::LauncherFields.text() == "invalid launcher declaration"@,
        ProvisioningError::WorkerFields.text() == "invalid worker declaration"@,
        ProvisioningError::BrokerFields.text() == "invalid broker declaration"@,
        ProvisioningError::SupervisorFields.text() == "invalid supervisor declaration"@,
        ProvisioningError::Integer.text() == "invalid declaration integer"@,
        ProvisioningError::Noncanonical.text() == "noncanonical declaration integer"@,
        ProvisioningError::Mode.text() == "invalid capture mode"@,
        ProvisioningError::Causal.text() == "invalid causal flag"@,
        ProvisioningError::Process.text() == "invalid process identity"@,
        ProvisioningError::LauncherOwner.text() == "launcher is not the trusted owner"@,
        ProvisioningError::Capacity.text() == "source capacity outside bound"@,
        ProvisioningError::Distinct.text() == "roles require distinct processes"@,
        ProvisioningError::Total.text() == "total run storage exceeds 65536 records"@,
        ProvisioningError::PlanMismatch.text() == "startup fixture plan mismatch"@,
        ProvisioningError::Stale.text() == "startup epoch is stale"@,
        ProvisioningError::Lead.text() == "startup epoch must be >5s and <=10min ahead"@,
        ProvisioningError::Recipient.text() == "startup recipient process mismatch"@,
        ProvisioningError::Announcement.text() == "launcher declaration mismatch"@,
        ProvisioningError::MappingCapacity.text() == "source mapping capacity mismatch"@,
        ProvisioningError::NotLauncher.text() == "not the declared trusted launcher"@,
        ProvisioningError::UntrustedLauncher.text() == "untrusted launcher"@,
        ProvisioningError::Attempted.text() == "source ticket already attempted"@,
        ProvisioningError::LauncherChanged.text() == "launcher process changed"@,
        ProvisioningError::Expired.text() == "startup acquisition deadline expired"@,
        ProvisioningError::PathDepth.text() == "invalid startup path depth"@,
        ProvisioningError::PathComponent.text() == "invalid startup path component"@,
        ProvisioningError::UnsafeDirectory.text() == "unsafe startup directory"@,
        ProvisioningError::Open.text() == "opening private startup declaration"@,
        ProvisioningError::NotRegular.text() == "declaration is not a regular file"@,
        ProvisioningError::Owner.text() == "declaration owner is not trusted"@,
        ProvisioningError::Permissions.text() == "unsafe declaration permissions"@,
        ProvisioningError::Links.text() == "declaration must have exactly one link"@,
        ProvisioningError::Size.text() == "declaration size outside bound"@,
        ProvisioningError::PinnedChanged.text() == "pinned declaration changed"@,
        ProvisioningError::NotReadOnly.text() == "declaration FD must be readable and read-only"@,
        ProvisioningError::Truncated.text() == "declaration truncated during read"@,
        ProvisioningError::Changed.text() == "declaration changed during acquisition"@,
        ProvisioningError::BootIdentity.text() == "invalid host boot identity"@,
        ProvisioningError::InvalidPid.text() == "invalid process PID"@,
        ProvisioningError::StatTooLarge.text() == "process stat exceeds bound"@,
        ProvisioningError::StatNotText.text() == "process stat is not text"@,
        ProvisioningError::StatMalformed.text() == "malformed process stat"@,
        ProvisioningError::StatMissing.text() == "missing process start time"@,
        ProvisioningError::Credentials.text() == "startup peer credentials mismatch"@,
        ProvisioningError::PeerStart.text() == "startup peer process start mismatch"@,
        ProvisioningError::PeerGone.text() == "startup peer exited or pidfd invalid"@,
        ProvisioningError::Ancillary.text() == "unexpected declaration ancillary data"@,
        ProvisioningError::ChannelClosed.text() == "startup channel closed during declaration"@,
        ProvisioningError::SendClosed.text() == "startup channel closed while sending declaration"@,
        ProvisioningError::DescriptorSend.text() == "startup descriptor send closed"@,
        ProvisioningError::Envelope.text() == "invalid startup descriptor envelope"@,
{
}

/// A bootstrap is refused with these words.
pub proof fn law_a_bootstrap_says_why()
    ensures
        BootstrapError::SendTimeout.text() == "sending worker bootstrap descriptors timed out"@,
        BootstrapError::SendClosed.text() == "worker bootstrap descriptor send closed"@,
        BootstrapError::ReceiveTimeout.text()
            == "receiving worker bootstrap descriptors timed out"@,
        BootstrapError::Disconnected.text() == "worker disconnected before descriptor bootstrap"@,
        BootstrapError::Ancillary.text() == "truncated or unsupported bootstrap ancillary data"@,
        BootstrapError::OffDescriptors.text() == "off bootstrap carries descriptors"@,
        BootstrapError::StorageCount.text()
            == "worker bootstrap requires exactly one storage descriptor"@,
        BootstrapError::Version.text() == "unknown worker descriptor bootstrap version"@,
{
}

/// A number is read exactly from the one text that writes it, and only up to the limit. What
/// denotes a number in range but is written otherwise is told apart from what denotes none.
pub proof fn law_a_number_is_read_from_its_one_text(n: u64, s: Seq<u8>, limit: u64)
    ensures
        n <= limit ==> number(decimal(n as nat), limit) == Ok::<u64, NumberError>(n),
        n > limit ==> number(decimal(n as nat), limit) == Err::<u64, NumberError>(
            NumberError::Invalid,
        ),
        number(s, limit) matches Ok(v) ==> s == decimal(v as nat) && v <= limit,
        number(s, limit) == Err::<u64, NumberError>(NumberError::Noncanonical) ==> digits(
            unsigned_part(s),
        ) && digits_value(unsigned_part(s)) <= limit,
{
    law_decimal_denotes_its_number(n as nat);
    let d = decimal(n as nat);
    assert(is_digit(d[0]));
    assert(unsigned_part(d) == d);
}

/// The number of a process is read from its one text, with a minus sign in front where it is
/// below zero.
pub proof fn law_a_process_number_is_read_from_its_one_text(n: i32)
    ensures
        n >= 0 ==> signed_number(decimal(n as nat)) == Ok::<i32, NumberError>(n),
        n < 0 ==> signed_number(seq![0x2du8] + decimal((-n) as nat)) == Ok::<i32, NumberError>(n),
        signed_number(seq![0x2du8, 0x30u8]) == Err::<i32, NumberError>(NumberError::Noncanonical),
{
    if n >= 0 {
        law_decimal_denotes_its_number(n as nat);
        let d = decimal(n as nat);
        assert(is_digit(d[0]));
        assert(unsigned_part(d) == d);
    } else {
        let m = (-n) as nat;
        law_decimal_denotes_its_number(m);
        let s = seq![0x2du8] + decimal(m);
        assert(s.drop_first() =~= decimal(m));
    }
    let zero = seq![0x2du8, 0x30u8];
    assert(zero.drop_first() =~= seq![0x30u8]);
    assert(seq![0x30u8].drop_last() =~= Seq::<u8>::empty());
    reveal_with_fuel(digits_value, 2);
    assert(digits(seq![0x30u8]));
}

/// A collector that was just made is for its source and role, and its ticket is still there.
pub proof fn law_a_new_collector_has_its_ticket(source: SourceBinding, role: SourceRole)
    ensures
        fresh_collector(source, role).capacity == source.capacity,
        fresh_collector(source, role).role == role,
        !fresh_collector(source, role).ticket_taken,
{
}

} // verus!
