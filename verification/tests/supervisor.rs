use sliver::apply_ipc::{
    absolute_lexical, apply_config, apply_default, read_length, read_reply, read_request,
    write_bytes, write_reply, ApplyError, ConfigSelection, MAX_MESSAGE_BYTES,
};
use sliver::cli::{parse_arguments, usage, CliAction, USAGE_STATUS};
use sliver::failures::{is_disconnect, is_owner_fence_failure, socket_path, FailureCause};
use sliver::service_files::{broker_service, supervisor_service, worker_policy};
use sliver::supervisor::{
    after_start, before_start, claim_socket, finish_user_session, is_transient_supervisor_error,
    selected_path_state_file, shuts_down_for_logout, supervisor_socket_path, wait_slice, Cause,
    LoopStep, PathError, Revocation, SessionFailure, SocketProbe, SocketStep,
};

#[test]
fn service_files_keep_the_broker_and_worker_policy_explicit() {
    let broker = broker_service();
    let supervisor = supervisor_service();
    let worker = worker_policy();

    for setting in [
        "Type=notify",
        "User=sliver",
        "SupplementaryGroups=sliver-drm sliver-input sliver-backlight",
        "Restart=on-failure",
        "TimeoutStopSec=5s",
        "FinalKillSignal=SIGKILL",
    ] {
        assert!(broker.contains(setting), "broker service lacks {setting}");
    }
    assert!(supervisor.contains("WantedBy=graphical-session.target"));
    assert!(supervisor.contains("ConditionGroup=sliver-supervisors"));
    assert!(supervisor.contains("TimeoutStopSec=5s"));
    assert!(supervisor.contains("FinalKillSignal=SIGKILL"));
    assert!(!supervisor.contains("PartOf=graphical-session.target"));
    assert!(!broker.contains("XDG_RUNTIME_DIR=/run/user/%U"));
    assert!(!broker.contains("DBUS_SESSION_BUS_ADDRESS=unix:path=/run/user/%U/bus"));
    for setting in [
        "MemoryMax=512M",
        "TasksMax=64",
        "KillMode=control-group",
        "PrivateDevices=yes",
        "DevicePolicy=closed",
        "Restart=no",
    ] {
        assert!(worker.contains(setting), "worker policy lacks {setting}");
    }
    assert!(worker.starts_with("[Service]\nMemoryMax=512M\n"));
}

#[test]
fn a_wait_for_session_error_restarts_supervisor_startup() {
    let result = Err(vec![Cause::WaitForActiveSession, Cause::Other]);
    assert!(is_transient_supervisor_error(&result));
    assert!(is_transient_supervisor_error(&Err(vec![Cause::Other, Cause::WaitForHardware])));
    assert!(!is_transient_supervisor_error(&Err(vec![Cause::Other])));
    assert!(!is_transient_supervisor_error(&Ok(())));
}

/// Runs the loop around a supervisor on a clock that only the waits move.
fn run_loop(
    running: &mut bool,
    delay_ns: u64,
    now: &mut u64,
    mut start: impl FnMut(&mut bool, u64) -> Result<(), Vec<Cause>>,
) -> Result<(), Vec<Cause>> {
    loop {
        if before_start(*running) == LoopStep::Stop {
            return Ok(());
        }
        let result = start(running, *now);
        if after_start(&result) == LoopStep::Return {
            return result;
        }
        let deadline = *now + delay_ns;
        while let Some(ns) = wait_slice(*running, *now, deadline) {
            *now += ns;
        }
    }
}

#[test]
fn hardware_retries_are_paced_and_wait_is_cancellable() {
    let delay = 30_000_000;
    let (mut running, mut now) = (true, 0);
    let mut attempts = Vec::new();
    let result = run_loop(&mut running, delay, &mut now, |running, at| {
        attempts.push(at);
        if attempts.len() == 3 {
            *running = false;
            Ok(())
        } else {
            Err(vec![Cause::WaitForHardware, Cause::Other])
        }
    });
    assert!(result.is_ok());
    assert_eq!(attempts, vec![0, 30_000_000, 60_000_000]);

    // A service that is to stop is not kept waiting.
    assert_eq!(wait_slice(false, 0, 30_000_000_000), None);
    assert_eq!(wait_slice(true, 0, 30_000_000_000), Some(10_000_000));
    assert_eq!(wait_slice(true, 5, 9), Some(4));
    assert_eq!(wait_slice(true, 9, 9), None);
}

#[test]
fn supervisor_retries_a_transient_startup_failure() {
    let (mut running, mut now) = (true, 0);
    let mut attempts = 0;
    let result = run_loop(&mut running, 0, &mut now, |running, _| {
        attempts += 1;
        if attempts == 1 {
            Err(vec![Cause::WaitForActiveSession])
        } else {
            *running = false;
            Ok(())
        }
    });
    assert!(result.is_ok());
    assert_eq!(attempts, 2);
}

#[test]
fn a_lasting_failure_is_returned_at_once() {
    let (mut running, mut now) = (true, 0);
    let mut attempts = 0;
    let result = run_loop(&mut running, 1, &mut now, |_, _| {
        attempts += 1;
        Err(vec![Cause::Other])
    });
    assert_eq!(result, Err(vec![Cause::Other]));
    assert_eq!(attempts, 1);
}

#[test]
fn the_end_of_a_session_names_everything_that_failed() {
    assert!(finish_user_session(None, false, false).is_empty());
    assert_eq!(
        finish_user_session(None, true, true),
        vec![SessionFailure::Serve, SessionFailure::Shutdown]
    );
    let revoked = Revocation {
        handoff_failed: true,
        acknowledgement_failed: true,
    };
    assert_eq!(
        finish_user_session(Some(revoked), true, true),
        vec![
            SessionFailure::SessionEnded,
            SessionFailure::Handoff,
            SessionFailure::Acknowledgement,
            SessionFailure::Shutdown,
        ]
    );
    let clean = Revocation {
        handoff_failed: false,
        acknowledgement_failed: false,
    };
    assert_eq!(
        finish_user_session(Some(clean), false, false),
        vec![SessionFailure::SessionEnded]
    );
    assert!(shuts_down_for_logout(true, true));
    assert!(shuts_down_for_logout(false, false));
    assert!(!shuts_down_for_logout(false, true));
}

#[test]
fn an_answering_socket_is_left_alone() {
    assert_eq!(claim_socket(SocketProbe::Absent), SocketStep::Bind);
    assert_eq!(claim_socket(SocketProbe::Dead), SocketStep::RemoveAndBind);
    assert_eq!(claim_socket(SocketProbe::Connected), SocketStep::AlreadyListening);
    assert_eq!(claim_socket(SocketProbe::Failed), SocketStep::Fail);
}

#[test]
fn paths_come_from_the_environment() {
    assert_eq!(
        supervisor_socket_path(Some(b"/run/user/1000")).unwrap(),
        b"/run/user/1000/sliver/supervisor.sock"
    );
    assert_eq!(
        supervisor_socket_path(Some(b"/run/")).unwrap(),
        b"/run/sliver/supervisor.sock"
    );
    let error = supervisor_socket_path(None).unwrap_err();
    assert_eq!(error, PathError::NoRuntimeDirectory);
    assert!(error.message().contains("XDG_RUNTIME_DIR is not set"));
    assert_eq!(
        selected_path_state_file(Some(b"/state"), Some(b"/home/u")).unwrap(),
        b"/state/sliver/config-path"
    );
    assert_eq!(
        selected_path_state_file(None, Some(b"/home/u")).unwrap(),
        b"/home/u/.local/state/sliver/config-path"
    );
    assert_eq!(selected_path_state_file(None, None), Err(PathError::NoHome));
    assert_eq!(socket_path(None), b"/run/sliver/broker.sock");
    assert_eq!(socket_path(Some(b"/tmp/b")), b"/tmp/b");
}

#[test]
fn causes_decide_what_a_failure_is() {
    assert!(is_disconnect(&vec![FailureCause::Other, FailureCause::BrokenPipe]));
    assert!(is_disconnect(&vec![FailureCause::UnexpectedEof]));
    assert!(is_disconnect(&vec![FailureCause::ConnectionReset]));
    assert!(!is_disconnect(&vec![FailureCause::OwnerFenceFailed, FailureCause::Other]));
    assert!(is_owner_fence_failure(&vec![FailureCause::Other, FailureCause::OwnerFenceFailed]));
    assert!(!is_owner_fence_failure(&vec![FailureCause::BrokenPipe]));
}

#[test]
fn paths_are_made_absolute_without_asking_the_file_system() {
    let at = |path: &str, dir: Option<&str>| {
        absolute_lexical(path.as_bytes(), dir.map(str::as_bytes))
            .ok()
            .map(|p| String::from_utf8(p).unwrap())
    };
    assert_eq!(at("/a/./b//c/../d", None).as_deref(), Some("/a/b/d"));
    assert_eq!(at("../../../x", Some("/home/u")).as_deref(), Some("/x"));
    assert_eq!(at("", Some("/home/u")).as_deref(), Some("/home/u"));
    assert_eq!(at("/", None).as_deref(), Some("/"));
    assert_eq!(at("/..", None).as_deref(), Some("/"));
    assert_eq!(at("config.lua", Some("/home/u/")).as_deref(), Some("/home/u/config.lua"));
    assert!(matches!(absolute_lexical(b"x", None), Err(ApplyError::CurrentDirectory)));
    assert!(matches!(absolute_lexical(b"x", Some(b"rel")), Err(ApplyError::NotAbsolute)));
    // What was made absolute stays as it is.
    assert_eq!(at("/a/b/d", None).as_deref(), Some("/a/b/d"));
}

#[test]
fn requests_and_replies_are_framed_by_their_length() {
    assert_eq!(
        apply_config(b"c.lua", Some(b"/h")).unwrap(),
        [&[0, 0, 0, 8][..], b"/h/c.lua"].concat()
    );
    assert_eq!(apply_default(), vec![0, 0, 0, 1, 0]);
    let long = vec![b'a'; MAX_MESSAGE_BYTES];
    assert!(matches!(apply_config(&long, Some(b"/")), Err(ApplyError::PathTooLong)));

    assert_eq!(read_length(&[0, 0, 0, 8]).unwrap(), 8);
    assert_eq!(read_length(&[0, 0x10, 0, 0]).unwrap(), MAX_MESSAGE_BYTES);
    assert!(matches!(read_length(&[0, 0x10, 0, 1]), Err(ApplyError::TooLarge)));
    assert_eq!(write_bytes(b"").unwrap(), vec![0, 0, 0, 0]);

    assert!(matches!(read_request(b"/x".to_vec()), Ok(ConfigSelection::Path(p)) if p == b"/x"));
    assert!(matches!(read_request(vec![0]), Ok(ConfigSelection::Default)));
    assert!(matches!(read_request(vec![]), Err(ApplyError::EmptyPath)));

    assert_eq!(write_reply(None).unwrap(), vec![0, 0, 0, 0, 0]);
    assert_eq!(write_reply(Some(b"no")).unwrap(), vec![1, 0, 0, 0, 2, b'n', b'o']);
    assert!(read_reply(0, vec![]).is_ok());
    assert!(matches!(read_reply(0, vec![1]), Err(ApplyError::InvalidSuccess)));
    assert!(matches!(read_reply(1, b"no".to_vec()), Err(ApplyError::Refused(w)) if w == b"no"));
    assert!(matches!(read_reply(9, vec![]), Err(ApplyError::UnknownStatus(9))));
}

#[test]
fn the_command_line_selects_a_source() {
    let parse = |words: &[&str]| {
        parse_arguments(&words.iter().map(|w| w.as_bytes().to_vec()).collect())
    };
    assert!(matches!(parse(&[]), CliAction::ApplyDefault));
    assert!(matches!(parse(&["--help"]), CliAction::Help));
    assert!(matches!(parse(&["--version"]), CliAction::Version));
    assert!(matches!(parse(&["c.lua"]), CliAction::Apply(p) if p == b"c.lua"));
    assert!(matches!(parse(&["a", "b"]), CliAction::Usage));
    assert!(usage().starts_with("usage: sliver"));
    assert_eq!(USAGE_STATUS, 2);
}
