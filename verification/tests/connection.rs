use sliver::authorization::{ActiveSession, OwnershipAnswers};
use sliver::broker_client::{BrokerHardware, ClientError, Exchange, StopReason};
use sliver::broker_connection::{Connection, MessageStep, OwnerStep, Stage};
use sliver::broker_ipc::{
    decode_events, decode_key_events, encode_claim, encode_events, encode_frame,
    encode_key_events, encode_message, MessageWriter, WriteStep,
};
use sliver::broker_server::{
    ensure_supervisor_peer, refuse_peer, unavailable_reply, ClaimAnswer, HardwareFailure, Reply,
    ServerError, Work,
};
use sliver::broker_wire::{
    WireError, CLAIM, CONFIRM, EMIT_KEYS, ERROR, GET_BACKLIGHT, LOGOUT_COMPLETE, OK, POLL, PRESENT,
    RELEASE, REVOKED_LOGOUT, SESSION_REVOKED, SET_BACKLIGHT, WAIT_FOR_HARDWARE, WAIT_FOR_SESSION,
};
use sliver::hardware::{
    HardwareCapability, HardwareEvent, InputState, KeyboardKey, LogicalFrame, ModifierState,
    OutputKey, RealBits, SyntheticKeyEvent, TouchEvent, TouchPhase,
};

const SEAT: &str = "seat0";
const UID: u32 = 1000;
const UNIT: &[u8] =
    b"0::/user.slice/user-1000.slice/user@1000.service/sliver-supervisor.service\n";

fn number(value: f64) -> RealBits {
    RealBits {
        bits: value.to_bits(),
    }
}

fn owned(generation: u64, id: &str, uid: u32) -> OwnershipAnswers {
    OwnershipAnswers {
        generation_before: Some(generation),
        active: Some(Some(ActiveSession {
            id: id.to_string(),
            uid,
        })),
        generation_after: Some(generation),
    }
}

fn free(generation: u64) -> OwnershipAnswers {
    OwnershipAnswers {
        generation_before: Some(generation),
        active: Some(None),
        generation_after: Some(generation),
    }
}

fn message(operation: u8, payload: &[u8]) -> Vec<u8> {
    let mut message = vec![operation];
    message.extend(payload);
    message
}

fn sent(reply: &Reply) -> Vec<u8> {
    message(reply.status, &reply.body)
}

fn key(key: KeyboardKey, active: bool) -> SyntheticKeyEvent {
    SyntheticKeyEvent {
        key: OutputKey::Keyboard(key),
        active,
    }
}

fn touch(phase: TouchPhase) -> TouchEvent {
    TouchEvent {
        phase,
        id: 9,
        time: number(1.0),
        x: number(5.0),
        y: number(6.0),
        modifiers: ModifierState::empty(),
        pressure: None,
        width: None,
        height: None,
    }
}

fn peer_accepted() -> Connection {
    let mut connection = Connection::new();
    assert!(connection.peer_checked(UNIT).is_ok());
    connection
}

fn authorizing() -> Connection {
    let mut connection = peer_accepted();
    assert_eq!(connection.first_message(Some(&[CLAIM]), UID), Ok(true));
    connection
}

/// A connection whose claim was granted to the session.
fn granted(id: &str) -> Connection {
    let mut connection = authorizing();
    let answers = owned(7, id, UID);
    assert!(connection.authorized(SEAT, &answers).is_ok());
    assert_eq!(connection.confirmed(&answers, true, false).ok(), Some(true));
    assert!(!connection.claimed);
    connection.handed_off();
    assert!(connection.claimed);
    let answer = connection.claim_answered(InputState::empty(), &Ok(number(0.75)));
    assert!(matches!(answer, ClaimAnswer::Grant(reply)
        if reply.status == OK && reply.body == encode_claim(InputState::empty(), number(0.75))));
    assert_eq!(connection.stage, Stage::Ready);
    connection
}

fn asks(connection: &mut Connection, request: Vec<u8>) {
    assert!(matches!(connection.message(Some(request)), Ok(MessageStep::AskOwner)));
    assert_eq!(connection.stage, Stage::Owner);
}

fn work(connection: &mut Connection, request: Vec<u8>, answers: &OwnershipAnswers) -> Work {
    asks(connection, request);
    match connection.owner_checked(answers, true) {
        Ok(OwnerStep::Work(work)) => work,
        _ => panic!("the owner's request was not done"),
    }
}

#[test]
fn an_unrelated_logind_session_event_does_not_revoke_a_stable_claim() {
    let mut connection = granted("stable-session");
    // A session without a seat changes nothing of what is known of the seat.
    let answers = owned(7, "stable-session", UID);
    let poll = message(POLL, &0_u64.to_be_bytes());
    assert!(matches!(work(&mut connection, poll, &answers), Work::Poll { millis: 0 }));
    let reply = connection.polled(vec![], true, true, None).ok().unwrap();
    assert_eq!(sent(&reply), message(OK, &encode_events(&[]).unwrap()));
    assert!(matches!(work(&mut connection, vec![RELEASE], &answers),
        Work::Finish(reply) if reply.status == OK && reply.body.is_empty()));
    assert_eq!(connection.stage, Stage::Ended);
}

#[test]
fn failed_claim_recheck_returns_a_protocol_error_instead_of_reset() {
    let mut connection = authorizing();
    assert!(connection.authorized(SEAT, &owned(1, "claim-recheck-session", UID)).is_ok());
    let reply = match connection.confirmed(&owned(2, "claim-recheck-session", UID), true, false) {
        Err(reply) => reply,
        Ok(_) => panic!("a changed session was confirmed"),
    };
    assert_eq!(connection.stage, Stage::Ended);
    assert!(!connection.claimed);
    let mut client = BrokerHardware::new();
    assert!(matches!(client.claim_response(&sent(&reply)), Err(ClientError::WaitForSession(text))
        if text == b"worker session changed during broker request"));
    assert!(!client.claimed);

    let mut retry = authorizing();
    let answers = owned(2, "claim-recheck-session", UID);
    assert!(retry.authorized(SEAT, &answers).is_ok());
    assert_eq!(retry.confirmed(&answers, false, false).ok(), Some(false));
}

#[test]
fn production_peer_rejection_is_returned_over_the_broker_protocol() {
    let mut connection = Connection::new();
    let reply = connection.peer_checked(b"0::/user.slice/session-2.scope\n").err().unwrap();
    assert_eq!(connection.stage, Stage::Ended);
    let mut client = BrokerHardware::new();
    let text = match client.claim_response(&sent(&reply)) {
        Err(ClientError::Refused(text)) => text,
        _ => panic!("the test process was accepted as a production supervisor"),
    };
    assert!(String::from_utf8(text)
        .unwrap()
        .contains("not the Sliver user supervisor"));
}

#[test]
fn production_peer_verification_does_not_require_proc_exe_access() {
    assert!(ensure_supervisor_peer(UNIT));
}

#[test]
fn broker_rejects_a_non_supervisor_peer() {
    assert!(!ensure_supervisor_peer(b"0::/user.slice/user-1000.slice/session-2.scope\n"));
    let reply = refuse_peer();
    assert_eq!(reply.status, ERROR);
    assert_eq!(reply.body, b"broker peer is not the Sliver user supervisor");
}

#[test]
fn broker_clamps_client_hardware_poll_before_shutdown() {
    let mut connection = granted("bounded-poll-session");
    let poll = message(POLL, &u64::MAX.to_be_bytes());
    let answers = owned(7, "bounded-poll-session", UID);
    assert!(matches!(work(&mut connection, poll, &answers), Work::Poll { millis } if millis <= 250));
}

#[test]
fn broker_shutdown_interrupts_an_unread_large_client_response() {
    let events: Vec<HardwareEvent> = (0..4096)
        .map(|id| {
            HardwareEvent::Touch(TouchEvent {
                phase: TouchPhase::Move,
                id,
                time: number(f64::from(id)),
                x: number(1.0),
                y: number(1.0),
                modifiers: ModifierState::empty(),
                pressure: Some(number(0.5)),
                width: Some(number(0.5)),
                height: Some(number(0.5)),
            })
        })
        .collect();
    let mut connection = granted("unread-response-session");
    let poll = message(POLL, &0_u64.to_be_bytes());
    let answers = owned(7, "unread-response-session", UID);
    assert!(matches!(work(&mut connection, poll, &answers), Work::Poll { millis: 0 }));
    let reply = connection.polled(events.clone(), true, true, None).ok().unwrap();
    assert_eq!(decode_events(&reply.body).unwrap(), events);
    let mut writer = MessageWriter::new(reply.status, &reply.body).ok().unwrap();
    writer.sent(500).unwrap();
    assert_eq!(writer.next(false), Ok(WriteStep::Send(500)));
    assert_eq!(writer.next(true), Err(WireError::Interrupted));
}

#[test]
fn revoked_user_must_acknowledge_lua_cleanup_before_disconnect() {
    let mut hardware = BrokerHardware::new();
    assert_eq!(hardware.claim_request().ok(), encode_message(CLAIM, &[]).ok());
    hardware.connected = true;
    let claim = message(OK, &encode_claim(InputState::empty(), number(0.75)));
    assert!(hardware.claim_response(&claim).is_ok());
    assert_eq!(
        hardware.poll_request(0).ok(),
        encode_message(POLL, &0_u64.to_be_bytes()).ok()
    );
    let mut revocation = vec![SESSION_REVOKED, REVOKED_LOGOUT];
    revocation.extend(encode_events(&[]).unwrap());
    assert!(hardware.poll_response(&Exchange::Message(revocation)).is_err());
    assert!(hardware.session_revoked);
    assert_eq!(hardware.revoked_stop_reason(), StopReason::Logout);
    assert_eq!(
        hardware.logout_complete().ok(),
        encode_message(LOGOUT_COMPLETE, &[]).ok()
    );
    assert_eq!(hardware.response(&Exchange::Message(vec![OK])).ok(), Some(vec![]));
}

#[test]
fn a_claim_comes_first_and_alone() {
    assert_eq!(peer_accepted().first_message(None, UID), Ok(false));
    let mut stopped = peer_accepted();
    stopped.first_message(None, UID).unwrap();
    assert_eq!(stopped.stage, Stage::Ended);
    for (request, error) in [
        (vec![], ServerError::EmptyRequest),
        (vec![POLL], ServerError::ExpectedClaim),
        (vec![CLAIM, 0, 0, 3, 0xe8], ServerError::ClaimPayload),
    ] {
        let mut connection = peer_accepted();
        assert_eq!(connection.first_message(Some(&request), UID), Err(error));
        assert_eq!(connection.stage, Stage::Ended);
    }
}

#[test]
fn a_claim_that_is_not_owned_is_told_to_wait_or_refused() {
    for (answers, status, text) in [
        (free(1), WAIT_FOR_SESSION, "no local user session is active"),
        (owned(1, "x", UID + 1), WAIT_FOR_SESSION, "worker is not owned by the active user"),
    ] {
        let mut connection = authorizing();
        let reply = connection.authorized(SEAT, &answers).err().unwrap();
        assert_eq!((reply.status, reply.body), (status, text.as_bytes().to_vec()));
        assert_eq!(connection.stage, Stage::Ended);
        assert!(connection.grant.is_none());
    }
    let mut root = peer_accepted();
    assert_eq!(root.first_message(Some(&[CLAIM]), 0), Ok(true));
    let reply = root.authorized(SEAT, &owned(1, "root", 0)).err().unwrap();
    assert_eq!(reply.status, ERROR);
    assert_eq!(reply.body, b"root is not authorized to own Sliver workers");
}

#[test]
fn missing_hardware_keeps_a_claim_waiting() {
    let waiting = |available| {
        let mut connection = authorizing();
        let answers = owned(1, "a", UID);
        assert!(connection.authorized(SEAT, &answers).is_ok());
        assert!(connection.confirmed(&answers, false, true).is_ok());
        connection.handed_off();
        let failure = HardwareFailure {
            available,
            capability: Some(HardwareCapability::Display),
            text: b"gone".to_vec(),
        };
        let answer = connection.claim_answered(InputState::empty(), &Err(failure));
        assert_eq!(connection.stage, Stage::Ended);
        answer
    };
    assert!(matches!(waiting(false), ClaimAnswer::Wait(reply)
        if reply.status == WAIT_FOR_HARDWARE && reply.body == b"\x00gone"));
    assert!(matches!(waiting(true), ClaimAnswer::Fail));
}

#[test]
fn an_owner_is_served_request_by_request() {
    let mut connection = granted("a");
    let answers = owned(7, "a", UID);
    let frame = LogicalFrame::from_parts(2008, 60, 8032, vec![3; 8032 * 60]);
    let present = message(PRESENT, &encode_frame(&frame).unwrap());
    assert!(matches!(work(&mut connection, present, &answers), Work::Present(f)
        if f.pixels() == frame.pixels()));
    assert_eq!(sent(&connection.done()), vec![OK]);
    let level = message(SET_BACKLIGHT, &0.25_f64.to_be_bytes());
    assert!(matches!(work(&mut connection, level, &answers), Work::SetBacklight(l)
        if l == number(0.25)));
    connection.done();
    assert!(matches!(work(&mut connection, vec![GET_BACKLIGHT], &answers), Work::GetBacklight));
    let reply = connection.level_read(number(0.25));
    assert_eq!(sent(&reply), message(OK, &0.25_f64.to_be_bytes()));
    assert!(matches!(work(&mut connection, vec![CONFIRM], &answers), Work::Answer(reply)
        if sent(&reply) == vec![OK]));
    assert_eq!(connection.stage, Stage::Ready);

    asks(&mut connection, vec![0x77]);
    assert!(connection.owner_stands(&answers) && !connection.owner_stands(&free(7)));
    assert!(matches!(connection.owner_checked(&answers, true),
        Err(ServerError::UnknownRequest(0x77))));
    assert_eq!(connection.stage, Stage::Ended);
}

#[test]
fn a_connection_that_lost_the_hardware_only_lets_go() {
    let mut connection = granted("a");
    let answers = owned(7, "a", UID);
    let down = [key(KeyboardKey::LeftCtrl, true)];
    let emit = message(EMIT_KEYS, &encode_key_events(&down).unwrap());
    assert!(matches!(work(&mut connection, emit.clone(), &answers), Work::EmitKeys(events)
        if events == down));
    assert_eq!(connection.emitted(&down).status, OK);
    let poll = message(POLL, &1_u64.to_be_bytes());
    work(&mut connection, poll.clone(), &answers);
    let events = vec![HardwareEvent::Touch(touch(TouchPhase::Down))];
    assert!(connection.polled(events, true, true, None).is_ok());

    // The same user logged in again: the old grant does not stand.
    asks(&mut connection, poll.clone());
    let reply = match connection.owner_checked(&owned(8, "b", UID), false) {
        Ok(OwnerStep::Revoke(reply)) => reply,
        _ => panic!("an old grant still stands"),
    };
    assert_eq!(reply.status, SESSION_REVOKED);
    assert_eq!(reply.body[0], REVOKED_LOGOUT);
    assert_eq!(
        decode_events(&reply.body[1..]).unwrap(),
        vec![HardwareEvent::Touch(touch(TouchPhase::Cancel))]
    );
    assert!(matches!(connection.message(Some(poll)), Ok(MessageStep::Answer(reply))
        if sent(&reply) == vec![SESSION_REVOKED]));
    let up = [key(KeyboardKey::LeftCtrl, false)];
    let release = message(EMIT_KEYS, &encode_key_events(&up).unwrap());
    assert!(matches!(connection.message(Some(release)), Ok(MessageStep::EmitHeld(events))
        if events == up));
    connection.emitted(&up);
    assert!(matches!(connection.message(Some(vec![LOGOUT_COMPLETE])),
        Ok(MessageStep::Finish(reply)) if sent(&reply) == vec![OK]));
    assert!(connection.session.logout_acknowledged);
    assert_eq!(connection.stage, Stage::Ended);

    let mut again = granted("a");
    asks(&mut again, vec![CONFIRM]);
    assert!(matches!(again.owner_checked(&free(8), true), Ok(OwnerStep::Revoke(_))));
    assert!(matches!(again.message(Some(emit)), Err(ServerError::RevokedOutput)));
    let mut closed = granted("a");
    assert!(matches!(closed.message(None), Ok(MessageStep::Ended)));
    assert!(!closed.session.logout_acknowledged);
}

#[test]
fn a_client_understands_what_the_broker_answers() {
    let mut client = BrokerHardware::new();
    let mut connection = granted("a");
    let claim = message(OK, &encode_claim(InputState::empty(), number(0.75)));
    assert!(client.claim_response(&claim).is_ok());
    let reply = unavailable_reply(&HardwareFailure {
        available: false,
        capability: Some(HardwareCapability::Backlight),
        text: b"gone".to_vec(),
    })
    .unwrap();
    assert!(matches!(client.response(&Exchange::Message(sent(&reply))),
        Err(ClientError::Unavailable { capability: Some(HardwareCapability::Backlight), detail })
            if detail == b"gone"));
    assert!(!client.hardware_available);

    let wait = client.poll_request(7).ok().unwrap();
    assert!(matches!(connection.message(Some(wait[4..].to_vec())), Ok(MessageStep::AskOwner)));
    let replaced = owned(8, "b", UID + 1);
    let reply = match connection.owner_checked(&replaced, true) {
        Ok(OwnerStep::Revoke(reply)) => reply,
        _ => panic!("a client without the seat still owns the hardware"),
    };
    assert!(matches!(
        client.poll_response(&Exchange::Message(sent(&reply))),
        Err(ClientError::SessionRevoked)
    ));
    assert_eq!(client.revoked_stop_reason(), StopReason::Replaced);
}

#[test]
fn a_batch_is_refused_with_a_byte_more_or_less() {
    let events = vec![
        HardwareEvent::Fn { active: true },
        HardwareEvent::Device { present: false },
    ];
    let payload = encode_events(&events).unwrap();
    assert_eq!(decode_events(&payload), Ok(events));
    let mut longer = payload.clone();
    longer.push(0);
    assert_eq!(decode_events(&longer), Err(WireError::EventTrailing));
    assert!(decode_events(&payload[..payload.len() - 1]).is_err());
    let keys = vec![SyntheticKeyEvent {
        key: OutputKey::Keyboard(KeyboardKey::Escape),
        active: true,
    }];
    let payload = encode_key_events(&keys).unwrap();
    assert_eq!(decode_key_events(&payload), Ok(keys));
    let mut longer = payload.clone();
    longer.push(0);
    assert_eq!(decode_key_events(&longer), Err(WireError::KeyTrailing));
    assert!(decode_key_events(&payload[..payload.len() - 1]).is_err());
}
