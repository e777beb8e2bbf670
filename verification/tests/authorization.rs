use sliver::authorization::{
    authorize, authorize_active_uid, recheck, recheck_active_uid, ActiveSession, AuthorizationGrant,
    CallerAnswers, OwnershipAnswers, PeerCredentials, Session,
};

const UID: u32 = 1000;
const PID: i32 = 4242;

fn peer(uid: u32) -> PeerCredentials {
    PeerCredentials {
        pid: PID,
        uid,
        gid: 1000,
    }
}

fn session(id: &str, uid: u32, seat: Option<&str>, remote: bool, active: bool) -> Session {
    Session {
        id: id.to_string(),
        uid,
        seat: seat.map(str::to_string),
        remote,
        active,
    }
}

fn active(id: &str, uid: u32) -> ActiveSession {
    ActiveSession {
        id: id.to_string(),
        uid,
    }
}

fn caller(
    generation: u64,
    session: Option<Session>,
    active: Option<ActiveSession>,
) -> CallerAnswers {
    CallerAnswers {
        generation_before: Some(generation),
        session: Some(session),
        active: Some(active),
        generation_after: Some(generation),
    }
}

fn owner(generation: u64, active: Option<ActiveSession>) -> OwnershipAnswers {
    OwnershipAnswers {
        generation_before: Some(generation),
        active: Some(active),
        generation_after: Some(generation),
    }
}

fn refused(result: Result<AuthorizationGrant, sliver::authorization::AuthorizationError>) -> String {
    match result {
        Ok(_) => panic!("a caller was accepted"),
        Err(error) => error.message(),
    }
}

#[test]
fn root_is_rejected_even_when_it_has_the_active_local_session() {
    let answers = caller(
        1,
        Some(session("root-session", 0, Some("seat0"), false, true)),
        Some(active("root-session", 0)),
    );
    assert!(refused(authorize(peer(0), &answers)).contains("root is not authorized"));
}

#[test]
fn a_generation_change_invalidates_an_unchanged_session_snapshot() {
    let answers = |generation| {
        caller(
            generation,
            Some(session("same-session", UID, Some("seat0"), false, true)),
            Some(active("same-session", UID)),
        )
    };
    let grant = authorize(peer(UID), &answers(1)).ok().unwrap();
    assert!(recheck(peer(UID), &grant, &answers(1)).is_ok());
    let error = recheck(peer(UID), &grant, &answers(2)).unwrap_err();
    assert!(error.message().contains("changed during config apply"));
}

#[test]
fn a_user_manager_is_authorized_by_its_active_uid_and_seat() {
    let answers = owner(7, Some(active("user-session", UID)));
    let grant = authorize_active_uid(UID, "seat0", &answers).ok().unwrap();
    assert_eq!(grant.uid(), UID);
    assert_eq!(grant.seat(), "seat0");
    assert!(recheck_active_uid(UID, &grant, &answers).is_ok());
    assert!(recheck_active_uid(UID, &grant, &owner(8, Some(active("user-session", UID)))).is_err());
}

#[test]
fn non_qualifying_logind_callers_are_rejected() {
    let cases = [
        (
            "inactive",
            Some(session("inactive", UID, Some("seat0"), false, false)),
            Some(active("inactive", UID)),
            "session is inactive",
        ),
        (
            "remote",
            Some(session("ssh", UID, Some("seat0"), true, true)),
            Some(active("ssh", UID)),
            "remote sessions",
        ),
        (
            "uid-mismatch",
            Some(session("wrong-owner", UID + 1, Some("seat0"), false, true)),
            Some(active("wrong-owner", UID + 1)),
            "kernel peer UID",
        ),
        ("cron", None, None, "does not belong to a logind session"),
        ("user-service", None, None, "does not belong to a logind session"),
        (
            "no-seat",
            Some(session("background", UID, None, false, true)),
            None,
            "not attached to a local seat",
        ),
        (
            "background-seat-session",
            Some(session("background", UID, Some("seat0"), false, true)),
            Some(active("other-active", UID)),
            "not the active session",
        ),
    ];
    for (name, session, active, expected) in cases {
        let words = refused(authorize(peer(UID), &caller(3, session, active)));
        assert!(words.contains(expected), "{name}: {words}");
    }
}

#[test]
fn failed_lookups_and_changes_are_told_apart() {
    let mut answers = caller(
        1,
        Some(session("s", UID, Some("seat0"), false, true)),
        Some(active("s", UID)),
    );
    answers.generation_after = Some(2);
    assert!(refused(authorize(peer(UID), &answers)).contains("changed while checking"));
    answers.generation_after = None;
    assert!(refused(authorize(peer(UID), &answers)).contains("generation"));
    answers.active = None;
    assert_eq!(
        refused(authorize(peer(UID), &answers)),
        "looking up the active logind session on seat0"
    );
    answers.active = Some(Some(active("other", UID)));
    assert_eq!(
        refused(authorize(peer(UID), &answers)),
        "caller session is not the active session on seat seat0"
    );
    answers.session = None;
    assert!(refused(authorize(peer(UID), &answers)).contains("looking up the caller"));

    assert!(refused(authorize_active_uid(0, "seat0", &owner(1, None))).contains("root"));
    assert!(refused(authorize_active_uid(UID, "seat0", &owner(1, None))).contains("no local user"));
    let mut silent = owner(1, None);
    silent.active = None;
    assert_eq!(
        refused(authorize_active_uid(UID, "seat7", &silent)),
        "looking up the active logind session on seat7"
    );
    let other = owner(1, Some(active("s", UID + 1)));
    assert!(refused(authorize_active_uid(UID, "seat0", &other)).contains("not owned by the active"));
}
