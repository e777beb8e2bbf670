use sliver::authorization::PeerCredentials;
use sliver::bootstrap::{
    read_ancillary, Ancillary, AncillaryHeader, AncillaryKind, CaptureLevel, FixtureBootstrap,
};
use sliver::capture_storage::{
    snapshot_mapping, DescriptorFacts, MappedWriter, SourceRole, StorageError,
};
use sliver::decimal::{parse_number, parse_signed, to_decimal, NumberError};
use sliver::events::Mode;
use sliver::observer::CaptureError;
use sliver::path_walk::{Found, PathWalk, WalkStep};
use sliver::provisioning::{Declaration, ProcessIdentity, ProvisioningError, MAX_DECLARATION};
use sliver::startup::{
    boot_id, check_component, check_credentials, check_declaration_stat, check_depth,
    check_directory, check_envelope, check_peer, check_pinned, check_unchanged, declaration_chunk,
    envelope_tag, process_start, stable_file, Budget, FileStat, Launcher, ACQUISITION_LIMIT_NS,
    MAX_LEAD_NS, MIN_LEAD_NS,
};

const NOW: u64 = 1_000_000_000_000;
const DEADLINE: u64 = NOW + 1_000_000_000;
const OWNER: u32 = 1000;
const POLICY: &str = "cbe2b5da809eed7cc4b3406b222baf43e1e34a2d";
const BOOT: &str = "0f7d2ac9-93a1-4c7e-8b51-d0a5b7e6c431";
const ROLES: [SourceRole; 3] = [
    SourceRole::Worker,
    SourceRole::Broker,
    SourceRole::Supervisor,
];

fn me() -> ProcessIdentity {
    ProcessIdentity {
        pid: 4321,
        uid: OWNER,
        gid: 100,
        start_ticks: 987_654,
    }
}

fn plan(mode: Mode) -> FixtureBootstrap {
    FixtureBootstrap::new(
        b"provisioning-test",
        b"generation-1",
        NOW + 30_000_000_000,
        30,
        mode,
    )
    .ok()
    .unwrap()
}

fn fake_sources() -> [ProcessIdentity; 3] {
    [0, 1, 2].map(|i| ProcessIdentity {
        pid: i32::MAX - i,
        ..me()
    })
}

fn role_name(role: SourceRole) -> &'static str {
    match role {
        SourceRole::Worker => "worker",
        SourceRole::Broker => "broker",
        SourceRole::Supervisor => "supervisor",
    }
}

fn declaration_bytes(
    plan: &FixtureBootstrap,
    processes: [ProcessIdentity; 3],
    capacities: [usize; 3],
) -> Vec<u8> {
    let launcher = me();
    let mut text = format!(
        "SLIVER-PROVISIONING-1\npolicy {POLICY}\nboot {BOOT}\nplan {} {} {} {} {} {}\nlauncher {} {} {} {}\n",
        String::from_utf8(plan.run.clone()).unwrap(),
        String::from_utf8(plan.generation.clone()).unwrap(),
        plan.start_ns,
        plan.rate,
        match plan.mode {
            Mode::A => "A",
            Mode::B => "B",
            Mode::C => "C",
        },
        u8::from(plan.causal),
        launcher.pid,
        launcher.uid,
        launcher.gid,
        launcher.start_ticks
    );
    for ((role, process), capacity) in ROLES.into_iter().zip(processes).zip(capacities) {
        text.push_str(&format!(
            "{} {} {} {} {} {}\n",
            role_name(role),
            process.pid,
            process.uid,
            process.gid,
            process.start_ticks,
            capacity
        ));
    }
    text.into_bytes()
}

fn parse(bytes: Vec<u8>) -> Result<Declaration, ProvisioningError> {
    Declaration::parse(bytes, BOOT.as_bytes(), OWNER, NOW + ACQUISITION_LIMIT_NS)
}

fn valid_declaration(mode: Mode) -> Declaration {
    parse(declaration_bytes(&plan(mode), fake_sources(), [64; 3])).ok().unwrap()
}

fn error(bytes: String) -> ProvisioningError {
    match parse(bytes.into_bytes()) {
        Ok(_) => panic!("accepted a malformed declaration"),
        Err(e) => e,
    }
}

/// Walks below a safe directory over what is found there, and says what it comes to.
fn beneath(parts: &[&str], found: &[Found]) -> Result<WalkStep, ProvisioningError> {
    let parts: Vec<Vec<u8>> = parts.iter().map(|part| part.as_bytes().to_vec()).collect();
    let budget = Budget::new(NOW + 1_000_000_000, NOW).unwrap();
    let count = parts.len();
    let mut walk = PathWalk::new(parts.clone(), OWNER, stat(0o040700))?;
    let mut step = WalkStep::Enter;
    for (position, found) in found.iter().enumerate() {
        assert_eq!(walk.next(budget, NOW)?, position + 1 != count);
        assert_eq!(walk.part(), &parts[position]);
        step = walk.opened(*found)?;
        if step != WalkStep::Enter {
            break;
        }
    }
    Ok(step)
}

/// What a directory holds under the name of the declaration.
fn acquire(found: Found, bytes: &[u8]) -> Result<Option<Declaration>, ProvisioningError> {
    match beneath(&["startup"], &[found])? {
        WalkStep::Off => Ok(None),
        WalkStep::Pin(pinned) => {
            check_pinned(pinned, stat(0o100600))?;
            parse(bytes.to_vec()).map(Some)
        }
        WalkStep::Enter => panic!("a declaration was taken for a directory"),
    }
}

#[test]
fn absent_is_off_but_existing_invalid_is_not_off() {
    let present = Found::Entry(stat(0o100600));
    assert!(acquire(Found::Missing, b"").unwrap().is_none());
    assert!(acquire(present, b"not a declaration").is_err());
    let bytes = declaration_bytes(&plan(Mode::C), fake_sources(), [64; 3]);
    let declaration = acquire(present, &bytes).ok().unwrap().unwrap();
    assert_eq!(declaration.plan.mode, Mode::C);
    assert_eq!(declaration.binding(SourceRole::Broker).capacity, 64);
    assert_eq!(acquire(Found::Failed, &bytes).err(), Some(ProvisioningError::Open));
    assert!(parse(b"not a declaration".to_vec()).is_err());
    let bytes = declaration_bytes(&plan(Mode::C), fake_sources(), [64; 3]);
    let declaration = parse(bytes).ok().unwrap();
    assert_eq!(declaration.plan.mode, Mode::C);
    assert_eq!(declaration.binding(SourceRole::Broker).capacity, 64);
}

#[test]
fn declaration_is_strict_policy_boot_plan_process_and_total_budget() {
    let fixture = plan(Mode::C);
    let original =
        String::from_utf8(declaration_bytes(&fixture, fake_sources(), [64; 3])).unwrap();
    for bytes in [
        original.replace("PROVISIONING-1", "PROVISIONING-2"),
        original.replace(POLICY, "wrong"),
        original.replace(BOOT, "00000000-0000-0000-0000-000000000000"),
        original.replace("plan ", "plan  "),
        original.replace(" 30 C 0\n", " 60 C 1\n"),
        original.replace(" 30 C 0\n", " 31 C 0\n"),
        original.replace(" 30 C 0\n", " 30 D 0\n"),
        original.replace(" 30 C 0\n", " 30 C 2\n"),
        original.replace(" 64\n", " 065\n"),
        original.replace(" 64\n", " 0\n"),
        original.replace("worker ", "supervisor "),
        original.replace("generation-1", "bad/name"),
        original.replace("generation-1", &"a".repeat(129)),
        original.replace(&fixture.start_ns.to_string(), &u64::MAX.to_string()),
        original.trim_end().to_owned(),
        format!("{original}extra\n"),
    ] {
        assert!(parse(bytes.into_bytes()).is_err());
    }
    let mut processes = fake_sources();
    processes[1] = processes[0];
    assert!(parse(declaration_bytes(&fixture, processes, [1; 3])).is_err());
    processes = fake_sources();
    processes[0] = me();
    assert!(parse(declaration_bytes(&fixture, processes, [1; 3])).is_err());
    assert!(parse(declaration_bytes(&fixture, fake_sources(), [21_845, 21_845, 21_846])).is_ok());
    assert!(parse(declaration_bytes(&fixture, fake_sources(), [21_845, 21_845, 21_847])).is_err());
    assert!(parse(vec![b'x'; MAX_DECLARATION + 1]).is_err());
    assert!(parse(Vec::new()).is_err());
}

#[test]
fn each_fault_of_a_declaration_has_its_own_error() {
    let fixture = plan(Mode::C);
    let original =
        String::from_utf8(declaration_bytes(&fixture, fake_sources(), [64; 3])).unwrap();
    let e = |from: &str, to: &str| error(original.replace(from, to));
    assert_eq!(e("PROVISIONING-1", "PROVISIONING-2"), ProvisioningError::Layout);
    assert_eq!(e(POLICY, "wrong"), ProvisioningError::Policy);
    assert_eq!(e(BOOT, "x"), ProvisioningError::Boot);
    assert_eq!(e("plan ", "plan  "), ProvisioningError::PlanFields);
    assert_eq!(e(" 30 C 0\n", " 030 C 0\n"), ProvisioningError::Noncanonical);
    assert_eq!(e(" 30 C 0\n", " +30 C 0\n"), ProvisioningError::Noncanonical);
    assert_eq!(e(" 30 C 0\n", " x C 0\n"), ProvisioningError::Integer);
    assert_eq!(e(" 30 C 0\n", " 4294967296 C 0\n"), ProvisioningError::Integer);
    assert_eq!(e(" 30 C 0\n", " 30 D 0\n"), ProvisioningError::Mode);
    assert_eq!(e(" 30 C 0\n", " 30 C 2\n"), ProvisioningError::Causal);
    assert!(matches!(e(" 30 C 0\n", " 31 C 0\n"), ProvisioningError::Plan(_)));
    assert_eq!(e("launcher 4321", "launcher -4321"), ProvisioningError::Process);
    assert_eq!(e("launcher 4321 1000", "launcher 4321 1001"), ProvisioningError::LauncherOwner);
    assert_eq!(e("launcher ", "launch "), ProvisioningError::LauncherFields);
    assert_eq!(e("worker ", "work "), ProvisioningError::WorkerFields);
    assert_eq!(e("broker ", "broke "), ProvisioningError::BrokerFields);
    assert_eq!(e("supervisor ", "super "), ProvisioningError::SupervisorFields);
    assert_eq!(e(" 64\n", " 0\n"), ProvisioningError::Capacity);
    assert_eq!(e(" 64\n", " 65536\n"), ProvisioningError::Total);
    assert_eq!(e("2147483646", "2147483647"), ProvisioningError::Distinct);
    assert_eq!(error(original.trim_end().to_owned()), ProvisioningError::NoNewline);
    assert!(matches!(
        parse(vec![b'x'; MAX_DECLARATION + 1]),
        Err(ProvisioningError::TooLarge)
    ));
    assert!(matches!(parse(vec![0xff, b'\n']), Err(ProvisioningError::NotText)));
}

#[test]
fn a_declaration_says_what_it_was_made_from() {
    let bytes = declaration_bytes(&plan(Mode::B), fake_sources(), [1, 2, 3]);
    let d = parse(bytes.clone()).ok().unwrap();
    assert_eq!(d.bytes, bytes);
    assert!(d.plan.equals(&plan(Mode::B)));
    assert_eq!(d.launcher, me());
    for (role, process, capacity) in [
        (SourceRole::Worker, fake_sources()[0], 1),
        (SourceRole::Broker, fake_sources()[1], 2),
        (SourceRole::Supervisor, fake_sources()[2], 3),
    ] {
        let binding = d.binding(role);
        assert_eq!(binding.role, role);
        assert_eq!(binding.process, process);
        assert_eq!(binding.capacity, capacity);
    }
}

#[test]
fn every_plan_field_and_epoch_is_checked() {
    let declaration = valid_declaration(Mode::C);
    let original = declaration.plan.copy();
    assert!(declaration.check_plan(&original, Ok(NOW)).is_ok());
    for field in 0..6 {
        let mut changed = original.copy();
        match field {
            0 => changed.run.push(b'x'),
            1 => changed.generation.push(b'x'),
            2 => changed.start_ns += 1,
            3 => changed.rate = 60,
            4 => changed.mode = Mode::B,
            5 => changed.causal = true,
            _ => unreachable!(),
        }
        assert_eq!(
            declaration.check_plan(&changed, Ok(NOW)),
            Err(ProvisioningError::PlanMismatch)
        );
    }
    for lead in [0, MIN_LEAD_NS, MAX_LEAD_NS + 1_000_000_000] {
        let mut declaration = valid_declaration(Mode::A);
        declaration.plan.start_ns = NOW + lead;
        assert_eq!(
            declaration.check_plan(&declaration.plan, Ok(NOW)),
            Err(ProvisioningError::Lead)
        );
    }
    let start = original.start_ns;
    assert!(declaration.check_plan(&original, Ok(start - MIN_LEAD_NS - 1)).is_ok());
    assert!(declaration.check_plan(&original, Ok(start - MAX_LEAD_NS)).is_ok());
    assert_eq!(
        declaration.check_plan(&original, Ok(start + 1)),
        Err(ProvisioningError::Stale)
    );
    let unread = CaptureError::ClockRead;
    assert_eq!(
        declaration.check_plan(&original, Err(unread)),
        Err(ProvisioningError::Clock(unread))
    );
    assert_eq!(
        ProvisioningError::Clock(unread).message(),
        "reading diagnostic CLOCK_MONOTONIC failed"
    );
}

fn stat(mode: u32) -> FileStat {
    FileStat {
        dev: 1,
        ino: 2,
        mode,
        uid: OWNER,
        gid: 100,
        nlink: 1,
        size: 500,
        mtime: 10,
        mtime_nsec: 11,
        ctime: 12,
        ctime_nsec: 13,
    }
}

#[test]
fn leaf_rejects_hardlinks_permissions_fifo_socket_directory_and_sizes() {
    let regular = 0o100000;
    assert_eq!(check_declaration_stat(stat(regular | 0o600), OWNER), Ok(()));
    for mode in [0o620, 0o602, 0o700, 0o4600] {
        assert_eq!(
            check_declaration_stat(stat(regular | mode), OWNER),
            Err(ProvisioningError::Permissions)
        );
    }
    let linked = FileStat {
        nlink: 2,
        ..stat(regular | 0o600)
    };
    assert_eq!(check_declaration_stat(linked, OWNER), Err(ProvisioningError::Links));
    for size in [0, MAX_DECLARATION as i64 + 1] {
        let sized = FileStat {
            size,
            ..stat(regular | 0o600)
        };
        assert_eq!(check_declaration_stat(sized, OWNER), Err(ProvisioningError::Size));
    }
    for kind in [0o010000, 0o140000, 0o040000] {
        assert_eq!(
            check_declaration_stat(stat(kind | 0o600), OWNER),
            Err(ProvisioningError::NotRegular)
        );
    }
    assert_eq!(
        check_declaration_stat(stat(regular | 0o600), OWNER ^ 1),
        Err(ProvisioningError::Owner)
    );
}

#[test]
fn no_follow_rejects_leaf_and_directory_links_and_unsafe_ancestors() {
    let directory = Found::Entry(stat(0o040700));
    let present = Found::Entry(stat(0o100600));
    let link = Found::Entry(stat(0o120777));
    // A link is opened itself as a declaration, and not at all as a directory.
    assert_eq!(beneath(&["startup"], &[link]), Err(ProvisioningError::NotRegular));
    assert_eq!(
        beneath(&["sub", "startup"], &[Found::Failed]),
        Err(ProvisioningError::Open)
    );
    for parts in [["..", "startup"], ["", "startup"], ["sub/startup", "x"]] {
        assert_eq!(
            beneath(&parts, &[directory, present]),
            Err(ProvisioningError::PathComponent)
        );
    }
    assert_eq!(beneath(&["missing", "startup"], &[Found::Missing]), Ok(WalkStep::Off));
    assert_eq!(
        beneath(&["run", "startup"], &[directory, Found::Missing]),
        Ok(WalkStep::Off)
    );
    assert_eq!(
        beneath(&["run", "startup"], &[directory, present]),
        Ok(WalkStep::Pin(stat(0o100600)))
    );
    assert_eq!(beneath(&[], &[]), Err(ProvisioningError::PathDepth));
    assert_eq!(beneath(&["x"; 9], &[directory; 9]), Err(ProvisioningError::PathDepth));
    for mode in [0o777, 0o770, 0o1777, 0o2700] {
        let unsafe_directory = Found::Entry(stat(0o040000 | mode));
        assert_eq!(
            beneath(&["sub", "startup"], &[unsafe_directory, Found::Missing]),
            Err(ProvisioningError::UnsafeDirectory)
        );
        let parts = vec![b"startup".to_vec()];
        assert_eq!(
            PathWalk::new(parts, OWNER, stat(0o040000 | mode)).err(),
            Some(ProvisioningError::UnsafeDirectory)
        );
    }
    let late = PathWalk::new(vec![b"startup".to_vec()], OWNER, stat(0o040700)).ok().unwrap();
    assert_eq!(
        late.next(Budget { until_ns: NOW }, NOW),
        Err(ProvisioningError::Expired)
    );
    for part in ["..", ".", "", "sub/startup"] {
        assert_eq!(
            check_component(part.as_bytes()),
            Err(ProvisioningError::PathComponent)
        );
    }
    assert_eq!(check_component(b"startup"), Ok(()));
    assert_eq!(check_component(b"..."), Ok(()));
    for mode in [0o777, 0o770, 0o1777, 0o2700] {
        assert_eq!(
            check_directory(stat(0o040000 | mode), OWNER),
            Err(ProvisioningError::UnsafeDirectory)
        );
    }
    assert_eq!(check_directory(stat(0o040000 | 0o700), OWNER), Ok(()));
    assert!(check_directory(stat(0o040000 | 0o700), 0).is_err());
    assert!(check_directory(stat(0o120000 | 0o700), OWNER).is_err());
    assert_eq!(check_depth(3), Ok(()));
    assert_eq!(check_depth(0), Err(ProvisioningError::PathDepth));
    assert_eq!(check_depth(9), Err(ProvisioningError::PathDepth));
}

#[test]
fn a_file_that_changed_is_not_the_same() {
    let before = stat(0o100600);
    let after = FileStat {
        ctime_nsec: before.ctime_nsec ^ 1,
        ..before
    };
    assert!(stable_file(before, before));
    assert!(!stable_file(before, after));
    assert_eq!(check_pinned(before, after), Err(ProvisioningError::PinnedChanged));
    assert_eq!(check_unchanged(before, after), Err(ProvisioningError::Changed));
    assert_eq!(check_unchanged(before, before), Ok(()));
}

#[test]
fn socket_authentication_checks_all_kernel_identity_fields() {
    let peer = PeerCredentials {
        pid: me().pid,
        uid: me().uid,
        gid: me().gid,
    };
    assert_eq!(check_credentials(peer, me()), Ok(()));
    assert_eq!(check_peer(true, me().start_ticks, true, me()), Ok(()));
    for field in 0..4 {
        let mut wrong = me();
        match field {
            0 => wrong.pid += 1,
            1 => wrong.uid ^= 1,
            2 => wrong.gid ^= 1,
            3 => wrong.start_ticks += 1,
            _ => unreachable!(),
        }
        assert!(
            check_credentials(peer, wrong).is_err()
                || check_peer(true, me().start_ticks, true, wrong).is_err()
        );
    }
    assert_eq!(
        check_peer(false, me().start_ticks, true, me()),
        Err(ProvisioningError::PeerGone)
    );
    assert_eq!(
        check_peer(true, me().start_ticks, false, me()),
        Err(ProvisioningError::PeerGone)
    );
}

#[test]
fn deadline_is_shared_by_partial_payload_and_rights_and_clamped() {
    let budget = Budget::new(NOW + 100_000_000_000, NOW).unwrap();
    assert_eq!(budget.until_ns, NOW + ACQUISITION_LIMIT_NS);
    assert_eq!(Budget::new(NOW, NOW), Err(ProvisioningError::Expired));
    let budget = Budget::new(NOW + 40_000_000, NOW).unwrap();
    assert_eq!(budget.check(NOW + 39_999_999), Ok(()));
    assert_eq!(budget.check(NOW + 40_000_000), Err(ProvisioningError::Expired));
    assert_eq!(budget.wait_millis(NOW), 41);
    assert_eq!(budget.wait_millis(NOW + 40_000_001), 1);
    let endless = Budget { until_ns: u64::MAX };
    assert_eq!(endless.wait_millis(0), i32::MAX);
}

#[test]
fn acquisition_deadline_cannot_be_renewed_by_a_later_stage() {
    let mut declaration = valid_declaration(Mode::C);
    declaration.acquisition_deadline_ns = NOW;
    assert!(matches!(
        Launcher::new(declaration, DEADLINE, NOW, me(), Ok(NOW)),
        Err(ProvisioningError::Expired)
    ));
    let mut declaration = valid_declaration(Mode::C);
    declaration.acquisition_deadline_ns = NOW;
    let fixture = declaration.plan.copy();
    let expired = declaration
        .begin_receive(
            SourceRole::Broker,
            &fixture,
            DEADLINE,
            NOW,
            Ok(NOW),
            fake_sources()[1],
        )
        .unwrap_err();
    assert!(expired.message().contains("deadline"));

    let declaration = valid_declaration(Mode::C);
    let later = NOW + 1_000_000_000;
    let budget = declaration.budget(later + ACQUISITION_LIMIT_NS, later).unwrap();
    assert_eq!(budget.until_ns, NOW + ACQUISITION_LIMIT_NS);
    let expired = declaration.budget(u64::MAX, NOW + ACQUISITION_LIMIT_NS).unwrap_err();
    assert!(expired.message().contains("deadline"));
}

#[test]
fn a_declaration_keeps_its_deadline_through_every_stage() {
    let limit = NOW + ACQUISITION_LIMIT_NS;
    let declaration = valid_declaration(Mode::C);
    let (bytes, fixture) = (declaration.bytes.clone(), declaration.plan.copy());
    let (mut launcher, storage, budget) =
        Launcher::new(declaration, u64::MAX, NOW + 5, me(), Ok(NOW)).ok().unwrap();
    assert_eq!(budget.until_ns, limit);
    assert_eq!(launcher.declaration.budget(u64::MAX, NOW + 10).unwrap().until_ns, limit);
    assert_eq!(
        launcher.declaration.budget(u64::MAX, limit),
        Err(ProvisioningError::Expired)
    );
    assert_eq!(launcher.declaration.owner, OWNER);
    assert_eq!(launcher.declaration.bytes, bytes);
    let role = SourceRole::Broker;
    let (_, sending) = launcher
        .begin_send(role, &fixture, u64::MAX, NOW + 20, Ok(NOW), me())
        .unwrap();
    assert_eq!(sending.until_ns, limit);
    assert_eq!(
        launcher.begin_send(SourceRole::Worker, &fixture, u64::MAX, limit, Ok(NOW), me()),
        Err(ProvisioningError::Expired)
    );

    let mut words = storage.broker;
    let facts = DescriptorFacts {
        regular: true,
        size_sealed: true,
        read_write: true,
        size: words.len() as i64 * 8,
    };
    let writer = MappedWriter::receive_for_role(facts, &mut words, role).unwrap();
    let declaration = valid_declaration(Mode::C);
    let receiving = declaration
        .begin_receive(role, &fixture, u64::MAX, NOW + 30, Ok(NOW), fake_sources()[1])
        .unwrap();
    assert_eq!(receiving.until_ns, limit);
    assert!(matches!(
        valid_declaration(Mode::C).receive(role, &fixture, Ok(NOW), writer, receiving, limit),
        Err(ProvisioningError::Expired)
    ));
    let capture = declaration
        .receive(role, &fixture, Ok(NOW), writer, receiving, NOW + 40)
        .ok()
        .unwrap();
    assert_eq!(capture.declaration.budget(u64::MAX, NOW + 50).unwrap().until_ns, limit);
    assert_eq!(
        capture.declaration.budget(u64::MAX, limit),
        Err(ProvisioningError::Expired)
    );
    assert_eq!(capture.declaration.owner, OWNER);
    assert_eq!(capture.declaration.bytes, bytes);
}

fn rights(count: usize, truncated: bool) -> Ancillary {
    let headers = if count == 0 {
        vec![]
    } else {
        vec![AncillaryHeader {
            kind: AncillaryKind::Rights,
            payload: 4 * count,
        }]
    };
    read_ancillary(&headers, truncated, true)
}

#[test]
fn rights_reject_missing_extra_truncated_wrong_role_and_unexpected_position() {
    let role = SourceRole::Broker;
    for (count, truncated) in [(0, false), (2, false), (4, true)] {
        assert_eq!(
            check_envelope(1, 2, rights(count, truncated), role),
            Err(ProvisioningError::Envelope)
        );
    }
    assert!(check_envelope(1, envelope_tag(SourceRole::Worker), rights(1, false), role).is_err());
    assert!(check_envelope(0, envelope_tag(role), rights(1, false), role).is_err());
    assert_eq!(check_envelope(1, envelope_tag(role), rights(1, false), role), Ok(()));
    assert_eq!(
        declaration_chunk(1, rights(1, false)),
        Err(ProvisioningError::Ancillary)
    );
    assert_eq!(declaration_chunk(5, rights(0, false)), Ok(5));
    assert_eq!(
        declaration_chunk(0, rights(0, false)),
        Err(ProvisioningError::ChannelClosed)
    );
}

#[test]
fn scm_pidfd_is_owned_and_closed_on_rejection() {
    let pidfd = AncillaryHeader {
        kind: AncillaryKind::Pidfd,
        payload: 4,
    };
    let a = read_ancillary(&vec![pidfd], false, true);
    assert!(a.invalid, "a process descriptor must not become an accepted capability");
    assert_eq!(a.descriptors, 1, "an installed descriptor must be owned before rejection");
    assert!(check_envelope(1, 2, a, SourceRole::Broker).is_err());
}

#[test]
fn failed_ticket_is_not_reissued_or_rebound() {
    let declaration = valid_declaration(Mode::C);
    let fixture = declaration.plan.copy();
    let (mut launcher, storage, _) =
        Launcher::new(declaration, DEADLINE, NOW, me(), Ok(NOW)).ok().unwrap();
    let mut other = me();
    other.pid += 1;
    assert_eq!(
        launcher.begin_send(SourceRole::Broker, &fixture, DEADLINE, NOW, Ok(NOW), other),
        Err(ProvisioningError::LauncherChanged)
    );
    let again = launcher
        .begin_send(SourceRole::Broker, &fixture, DEADLINE, NOW, Ok(NOW), me())
        .unwrap_err();
    assert!(again.message().contains("already attempted"));
    let raw = snapshot_mapping(&storage.broker, 0, 0, 64).ok().unwrap();
    assert!(!raw.initialized);

    assert_eq!(
        launcher.begin_send(SourceRole::Worker, &fixture, NOW, NOW, Ok(NOW), me()),
        Err(ProvisioningError::Expired)
    );
    assert_eq!(
        launcher.begin_send(SourceRole::Supervisor, &fixture, DEADLINE, NOW, Ok(NOW), me()),
        Ok((fake_sources()[2], Budget { until_ns: DEADLINE }))
    );
    assert_eq!(launcher.take_storage(SourceRole::Supervisor), Ok(()));
    assert_eq!(
        launcher.take_storage(SourceRole::Supervisor),
        Err(ProvisioningError::Storage(StorageError::TicketTaken))
    );
}

#[test]
fn only_the_declared_launcher_opens_the_registry() {
    let mut other = me();
    other.start_ticks += 1;
    assert!(matches!(
        Launcher::new(valid_declaration(Mode::C), DEADLINE, NOW, other, Ok(NOW)),
        Err(ProvisioningError::NotLauncher)
    ));
    let mut foreign = valid_declaration(Mode::C);
    foreign.owner = 0;
    assert!(matches!(
        Launcher::new(foreign, DEADLINE, NOW, me(), Ok(NOW)),
        Err(ProvisioningError::UntrustedLauncher)
    ));
    assert!(matches!(
        Launcher::new(valid_declaration(Mode::C), DEADLINE, NOW, me(), Ok(NOW + 29_000_000_000)),
        Err(ProvisioningError::Lead)
    ));
    let mut empty = valid_declaration(Mode::C);
    empty.broker.capacity = 0;
    assert!(matches!(
        Launcher::new(empty, DEADLINE, NOW, me(), Ok(NOW)),
        Err(ProvisioningError::Storage(StorageError::Capacity))
    ));
}

#[test]
fn actual_recipient_rejects_wrong_declaration_process_role_and_capacity() {
    let role = SourceRole::Broker;
    let recipient = fake_sources()[1];
    let declaration = valid_declaration(Mode::A);
    let fixture = declaration.plan.copy();
    let (_, storage, _) =
        Launcher::new(valid_declaration(Mode::A), DEADLINE, NOW, me(), Ok(NOW)).ok().unwrap();
    assert_eq!(
        declaration.begin_receive(role, &fixture, DEADLINE, NOW, Ok(NOW), me()),
        Err(ProvisioningError::Recipient)
    );
    assert_eq!(
        declaration.begin_receive(role, &fixture, DEADLINE, NOW, Ok(NOW), recipient),
        Ok(Budget { until_ns: DEADLINE })
    );
    let bytes = declaration.bytes.clone();
    assert_eq!(declaration.check_announcement(&bytes), Ok(()));
    assert_eq!(
        declaration.check_announcement(&bytes[1..]),
        Err(ProvisioningError::Announcement)
    );
    let mut words = storage.broker;
    let facts = DescriptorFacts {
        regular: true,
        size_sealed: true,
        read_write: true,
        size: words.len() as i64 * 8,
    };
    let wrong = MappedWriter::receive_for_role(facts, &mut words, SourceRole::Supervisor);
    assert!(wrong.unwrap_err().message().contains("expected role"));
    let writer = MappedWriter::receive_for_role(facts, &mut words, role).unwrap();
    let budget = Budget { until_ns: DEADLINE };
    let small = MappedWriter {
        capacity: 63,
        ..writer
    };
    assert!(matches!(
        valid_declaration(Mode::A).receive(role, &fixture, Ok(NOW), small, budget, NOW),
        Err(ProvisioningError::MappingCapacity)
    ));
    let capture = declaration
        .receive(role, &fixture, Ok(NOW), writer, budget, NOW)
        .ok()
        .unwrap();
    assert_eq!(capture.binding.process, recipient);
    let (kept, level) = capture.into_writer();
    assert_eq!(kept, writer);
    assert_eq!(level, CaptureLevel::Minimal);
}

#[test]
fn the_boot_identity_has_one_form() {
    let line = format!("{BOOT}\n");
    assert_eq!(boot_id(line.as_bytes()).unwrap(), BOOT.as_bytes());
    for bad in [
        BOOT.to_owned(),
        format!("{BOOT} "),
        line.to_uppercase(),
        line.replace('-', "0"),
        line.replace('f', "g"),
    ] {
        assert_eq!(boot_id(bad.as_bytes()), Err(ProvisioningError::BootIdentity));
    }
}

#[test]
fn the_start_time_follows_the_last_bracket() {
    let fields: Vec<String> = (3..53).map(|n| n.to_string()).collect();
    let line = format!("7 (a) b\n) {}\n", fields.join(" "));
    assert_eq!(process_start(7, line.as_bytes()), Ok(22));
    assert_eq!(process_start(0, line.as_bytes()), Err(ProvisioningError::InvalidPid));
    assert_eq!(process_start(7, b"7 (a"), Err(ProvisioningError::StatMalformed));
    assert_eq!(process_start(7, b"7 (a) S 1"), Err(ProvisioningError::StatMissing));
    assert_eq!(process_start(7, &[b'x'; 4097]), Err(ProvisioningError::StatTooLarge));
    assert_eq!(process_start(7, &[0xff]), Err(ProvisioningError::StatNotText));
    let padded = line.replace(" 22 ", " 022 ");
    assert_eq!(process_start(7, padded.as_bytes()), Err(ProvisioningError::Noncanonical));
}

#[test]
fn numbers_have_one_text() {
    for n in [0, 7, 10, 65_536, u64::MAX] {
        let text = to_decimal(n);
        assert_eq!(text, n.to_string().into_bytes());
        assert_eq!(parse_number(&text, u64::MAX), Ok(n));
    }
    assert_eq!(parse_number(b"18446744073709551616", u64::MAX), Err(NumberError::Invalid));
    assert_eq!(parse_number(b"", 9), Err(NumberError::Invalid));
    assert_eq!(parse_number(b"+", 9), Err(NumberError::Invalid));
    assert_eq!(parse_number(b"+7", 9), Err(NumberError::Noncanonical));
    assert_eq!(parse_number(b"07", 9), Err(NumberError::Noncanonical));
    assert_eq!(parse_number(b"10", 9), Err(NumberError::Invalid));
    assert_eq!(parse_signed(b"-2147483648"), Ok(i32::MIN));
    assert_eq!(parse_signed(b"-2147483649"), Err(NumberError::Invalid));
    assert_eq!(parse_signed(b"-0"), Err(NumberError::Noncanonical));
    assert_eq!(parse_signed(b"2147483647"), Ok(i32::MAX));
    assert_eq!(parse_signed(b"2147483648"), Err(NumberError::Invalid));
}
