use sliver::authorization::{ActiveSession, AuthorizationError, Refusal};
use sliver::broker_client::{BrokerHardware, ClientError, Exchange, Reacquire, Release, StopReason};
use sliver::broker_ipc::{
    decode_claim, decode_events, decode_frame, decode_key_events, encode_claim, encode_events,
    encode_frame, encode_key_events, encode_message, message_length, take_message, MessageReader,
    MessageWriter, ReadStep, WriteStep,
};
use sliver::broker_loop::{broker_main, BrokerLoop, ClientEnd, IdleStep, Startup};
use sliver::broker_server::{
    after_cleanup, after_fence, backlight_reply, broker_error_status, claim_answer, claim_uid,
    ensure_supervisor_peer, must_fence_failure, must_hand_off, refuse, refuse_peer,
    unavailable_reply, ClaimAnswer, ClientFailure, ClientSession, EndFailure, HardwareFailure,
    RequestStep, ServerError, Work, MAX_HARDWARE_POLL_WAIT,
};
use sliver::broker_wire::{
    WireError, CLAIM, CONFIRM, EMIT_KEYS, ERROR, GET_BACKLIGHT, HARDWARE_UNAVAILABLE,
    LOGOUT_COMPLETE, MAX_BATCH, OK, POLL, PRESENT, RELEASE, REVOKED_LOGOUT, SESSION_REVOKED,
    SET_BACKLIGHT, WAIT_FOR_HARDWARE, WAIT_FOR_SESSION,
};
use sliver::hardware::{
    validate_backlight, ConsumerKey, HardwareCapability, HardwareEvent, InputState, KeyboardKey,
    LogicalFrame, Modifier, ModifierState, ObservedKey, OutputKey, RealBits, SyntheticKeyEvent,
    TouchEvent, TouchPhase,
};
use sliver::held_input::{ActiveContacts, HeldKeys};

fn number(value: f64) -> RealBits {
    RealBits {
        bits: value.to_bits(),
    }
}

fn touch(phase: TouchPhase, id: u32) -> TouchEvent {
    let mut modifiers = ModifierState::empty();
    modifiers.set(Modifier::RightSuper, true);
    TouchEvent {
        phase,
        id,
        time: number(1.25),
        x: number(100.0),
        y: number(20.0),
        modifiers,
        pressure: Some(number(0.5)),
        width: None,
        height: Some(number(3.0)),
    }
}

fn key(key: KeyboardKey, active: bool) -> SyntheticKeyEvent {
    SyntheticKeyEvent {
        key: OutputKey::Keyboard(key),
        active,
    }
}

fn strip() -> LogicalFrame {
    let pixels = (0..8032 * 60).map(|i| (i % 251) as u8).collect();
    LogicalFrame::from_parts(2008, 60, 8032, pixels)
}

fn message(operation: u8, payload: &[u8]) -> Vec<u8> {
    let mut message = vec![operation];
    message.extend(payload);
    message
}

#[test]
fn messages_are_framed_by_their_length() {
    let sent = encode_message(POLL, &[9; 8]).unwrap();
    assert_eq!(&sent[..6], &[0, 0, 0, 9, POLL, 9]);
    assert_eq!(message_length(&sent), Ok(9));
    assert_eq!(message_length(&[0; 4]), Err(WireError::Length));
    assert_eq!(message_length(&[0, 0x80, 0, 1]), Err(WireError::Length));

    let mut input = sent.clone();
    input.extend(&sent[..7]);
    assert_eq!(take_message(&mut input), Ok(Some(sent[4..].to_vec())));
    assert_eq!(take_message(&mut input), Ok(None));
    input.extend(&sent[7..]);
    assert_eq!(take_message(&mut input), Ok(Some(sent[4..].to_vec())));
    assert!(input.is_empty());
}

#[test]
fn a_reader_stops_between_messages_and_notices_a_cut() {
    let sent = encode_message(CLAIM, &[]).unwrap();
    let mut reader = MessageReader::new();
    assert!(matches!(reader.next(false), Ok(ReadStep::Receive)));
    assert!(reader.closed().is_ok());
    reader.received(&sent[..3]).unwrap();
    assert!(matches!(reader.next(false), Ok(ReadStep::Receive)));
    assert_eq!(reader.closed(), Err(WireError::ClosedMidMessage));
    reader.received(&sent[3..]).unwrap();
    assert!(matches!(reader.next(true), Ok(ReadStep::Stopped)));
    assert!(matches!(reader.next(false), Ok(ReadStep::Message(m)) if m == vec![CLAIM]));
    let mut writer = MessageWriter::new(OK, &[1, 2]).ok().unwrap();
    assert_eq!(writer.next(false), Ok(WriteStep::Send(0)));
    writer.sent(3).unwrap();
    assert_eq!(writer.next(false), Ok(WriteStep::Send(3)));
    assert_eq!(writer.next(true), Err(WireError::Interrupted));
    assert_eq!(writer.sent(0), Err(WireError::ClosedWhileWriting));
    writer.sent(4).unwrap();
    assert_eq!(writer.next(true), Ok(WriteStep::Done));
    assert_eq!(writer.bytes(), &[0, 0, 0, 3, OK, 1, 2]);
}

#[test]
fn every_event_and_key_is_read_back() {
    let mut events = vec![
        HardwareEvent::Fn { active: true },
        HardwareEvent::Modifier {
            modifier: Modifier::LeftAlt,
            active: false,
        },
        HardwareEvent::Device { present: false },
        HardwareEvent::Visibility { visible: true },
        HardwareEvent::Capability {
            capability: HardwareCapability::Backlight,
            present: true,
        },
    ];
    for phase in [TouchPhase::Down, TouchPhase::Move, TouchPhase::Up, TouchPhase::Cancel] {
        events.push(HardwareEvent::Touch(touch(phase, u32::MAX)));
    }
    let payload = encode_events(&events).unwrap();
    assert_eq!(decode_events(&payload).unwrap(), events);
    for short in 0..payload.len() {
        assert!(decode_events(&payload[..short]).is_err(), "accepted {short} bytes");
    }
    let mut long = payload.clone();
    long.push(0);
    assert_eq!(decode_events(&long), Err(WireError::EventTrailing));
    let mut unknown = payload;
    unknown[4] = 0xee;
    assert_eq!(decode_events(&unknown), Err(WireError::UnknownEvent(0xee)));
    let many = (MAX_BATCH as u32 + 1).to_be_bytes();
    assert_eq!(decode_events(&many), Err(WireError::EventBatch));

    let keys = vec![
        key(KeyboardKey::LeftCtrl, true),
        SyntheticKeyEvent {
            key: OutputKey::Consumer(ConsumerKey::VolumeUp),
            active: false,
        },
    ];
    let payload = encode_key_events(&keys).unwrap();
    assert_eq!(decode_key_events(&payload).unwrap(), keys);
    for short in 0..payload.len() {
        assert!(decode_key_events(&payload[..short]).is_err());
    }
}

#[test]
fn frames_and_claims_are_read_back() {
    let frame = strip();
    let payload = encode_frame(&frame).unwrap();
    let read = decode_frame(&payload).ok().unwrap();
    assert_eq!((read.width(), read.height(), read.stride()), (2008, 60, 8032));
    assert_eq!(read.pixels(), frame.pixels());
    assert_eq!(read.fixture_correlation(), None);
    let refused = |payload: &[u8]| decode_frame(payload).err();
    assert_eq!(refused(&payload[..payload.len() - 1]), Some(WireError::FramePixels));
    assert_eq!(refused(&payload[..11]), Some(WireError::PayloadTruncated));
    for (at, error) in [
        (3, WireError::FrameWidth),
        (7, WireError::FrameHeight),
        (11, WireError::FrameStride),
    ] {
        let mut bad = payload.clone();
        bad[at] -= 1;
        assert_eq!(refused(&bad), Some(error));
    }

    let mut input = InputState::empty();
    input.apply(ObservedKey::Fn, true);
    input.apply(ObservedKey::Modifier(Modifier::LeftShift), true);
    let payload = encode_claim(input, number(0.75));
    assert_eq!(decode_claim(&payload), Ok((input, number(0.75))));
    assert!(decode_claim(&payload[1..]).is_err());
    assert_eq!(
        decode_claim(&[payload.clone(), vec![0]].concat()),
        Err(WireError::ClaimMalformed)
    );
    assert!(validate_backlight(number(1.0)).is_ok());
    assert!(validate_backlight(number(1.01)).is_err());
    assert!(validate_backlight(number(f64::NAN)).is_err());
}

#[test]
fn a_first_message_claims_for_the_user_that_the_kernel_names() {
    assert_eq!(claim_uid(&[CLAIM], 1000), Ok(1000));
    assert_eq!(claim_uid(&[], 1000), Err(ServerError::EmptyRequest));
    assert_eq!(claim_uid(&[POLL], 1000), Err(ServerError::ExpectedClaim));
    assert_eq!(claim_uid(&[CLAIM, 0], 1000), Err(ServerError::ClaimPayload));
    assert!(ensure_supervisor_peer(b"0::/user.slice/sliver-supervisor.service\n"));
    assert!(ensure_supervisor_peer(b"1:a\r\n0::/x/sliver-supervisor.service"));
    assert!(!ensure_supervisor_peer(b"0::/sliver-supervisor.service/child\n"));
    assert!(!ensure_supervisor_peer(b"0::/user.slice/other.service\n"));
    assert_eq!(refuse_peer().status, ERROR);
    assert!(String::from_utf8(refuse_peer().body)
        .unwrap()
        .contains("not the Sliver user supervisor"));
    let error = |refusal| AuthorizationError {
        refusal,
        seat: "seat0".to_string(),
    };
    assert_eq!(
        broker_error_status(&error(Refusal::NoActiveUserSession)),
        WAIT_FOR_SESSION
    );
    assert_eq!(refuse(&error(Refusal::RootWorker)).status, ERROR);
    assert_eq!(
        refuse(&error(Refusal::ActiveLookup)).body,
        b"looking up the active logind session on seat0"
    );
    assert!(must_hand_off(true, false) && must_hand_off(false, true));
    assert!(!must_hand_off(false, false));
}

#[test]
fn a_claim_is_answered_by_what_the_hardware_says() {
    let failure = |available| HardwareFailure {
        available,
        capability: None,
        text: b"gone".to_vec(),
    };
    let input = InputState::empty();
    assert!(matches!(claim_answer(input, &Ok(number(0.5))),
        ClaimAnswer::Grant(r) if r.status == OK && r.body == encode_claim(input, number(0.5))));
    assert!(matches!(claim_answer(input, &Err(failure(false))),
        ClaimAnswer::Wait(r) if r.status == WAIT_FOR_HARDWARE && r.body == b"\x01gone"));
    assert!(matches!(claim_answer(input, &Err(failure(true))), ClaimAnswer::Fail));
    assert!(unavailable_reply(&failure(true)).is_none());
    let reply = unavailable_reply(&failure(false)).unwrap();
    assert_eq!((reply.status, &reply.body[..]), (HARDWARE_UNAVAILABLE, &b"\x00gone"[..]));
    assert_eq!(backlight_reply(number(1.0)).body, 1.0_f64.to_be_bytes());
}

#[test]
fn an_owner_asks_for_one_thing_at_a_time() {
    let work = |request: &[u8]| ClientSession::owner_request(request);
    let long = message(POLL, &u64::MAX.to_be_bytes());
    assert!(matches!(work(&long), Ok(Work::Poll { millis }) if millis == MAX_HARDWARE_POLL_WAIT));
    let short = message(POLL, &7_u64.to_be_bytes());
    assert!(matches!(work(&short), Ok(Work::Poll { millis: 7 })));
    assert!(matches!(work(&[POLL]), Err(ServerError::PollMalformed)));
    let frame = strip();
    let present = message(PRESENT, &encode_frame(&frame).unwrap());
    assert!(matches!(work(&present), Ok(Work::Present(f)) if f.pixels() == frame.pixels()));
    assert!(matches!(work(&[PRESENT]), Err(ServerError::Wire(_))));
    assert!(matches!(work(&[CONFIRM]), Ok(Work::Answer(r)) if r.status == OK));
    assert!(matches!(work(&[CONFIRM, 0]), Err(ServerError::ConfirmPayload)));
    assert!(matches!(work(&[GET_BACKLIGHT]), Ok(Work::GetBacklight)));
    let level = message(SET_BACKLIGHT, &0.5_f64.to_be_bytes());
    assert!(matches!(work(&level), Ok(Work::SetBacklight(l)) if l == number(0.5)));
    assert!(matches!(work(&[SET_BACKLIGHT]), Err(ServerError::BacklightMalformed)));
    assert!(matches!(work(&[RELEASE]), Ok(Work::Finish(r)) if r.status == OK));
    assert!(matches!(work(&[RELEASE, 1]), Err(ServerError::ReleasePayload)));
    assert!(matches!(work(&[0x77]), Err(ServerError::UnknownRequest(0x77))));
}

#[test]
fn a_revoked_client_brings_its_keys_up_and_acknowledges() {
    let mut session = ClientSession::new();
    let down = [key(KeyboardKey::LeftCtrl, true), key(KeyboardKey::F2, true)];
    assert_eq!(session.keys_emitted(&down).status, OK);
    let touches = vec![HardwareEvent::Touch(touch(TouchPhase::Down, 3))];
    let reply = session.poll_done(touches, true, true).ok().unwrap();
    assert_eq!(decode_events(&reply.body).unwrap().len(), 1);
    assert!(matches!(session.begin_request(&[CONFIRM]), Ok(RequestStep::Recheck)));

    let reply = session.revoke(false).ok().unwrap();
    assert_eq!(reply.status, SESSION_REVOKED);
    assert_eq!(reply.body[0], REVOKED_LOGOUT);
    assert_eq!(
        decode_events(&reply.body[1..]).unwrap(),
        vec![HardwareEvent::Touch(touch(TouchPhase::Cancel, 3))]
    );
    // Only keys that it holds may still be brought up.
    let up = [key(KeyboardKey::F2, false)];
    let request = message(EMIT_KEYS, &encode_key_events(&up).unwrap());
    assert!(matches!(session.begin_request(&request),
        Ok(RequestStep::EmitHeld(events)) if events == up));
    session.keys_emitted(&up);
    assert!(matches!(session.begin_request(&request), Err(ServerError::RevokedOutput)));
    let press = message(EMIT_KEYS, &encode_key_events(&down[..1]).unwrap());
    assert!(matches!(session.begin_request(&press), Err(ServerError::RevokedOutput)));
    assert!(matches!(session.begin_request(&[LOGOUT_COMPLETE, 1]), Err(ServerError::LogoutPayload)));
    assert!(matches!(session.begin_request(&[CONFIRM]),
        Ok(RequestStep::Answer(r)) if r.status == SESSION_REVOKED));
    assert!(!session.logout_acknowledged);
    assert!(matches!(session.begin_request(&[LOGOUT_COMPLETE]),
        Ok(RequestStep::Finish(r)) if r.status == OK));
    assert!(session.logout_acknowledged);
    assert!(matches!(session.begin_request(&[]), Err(ServerError::EmptyRequest)));
}

#[test]
fn hardware_that_came_back_is_reported_once() {
    let mut session = ClientSession::new();
    let back = HardwareEvent::Device { present: true };
    let reply = session.poll_done(vec![], false, true).ok().unwrap();
    assert_eq!(decode_events(&reply.body).unwrap(), vec![back]);
    let reply = session.poll_done(vec![back], false, true).ok().unwrap();
    assert_eq!(decode_events(&reply.body).unwrap(), vec![back]);
    let reply = session.poll_done(vec![], true, true).ok().unwrap();
    assert!(decode_events(&reply.body).unwrap().is_empty());
}

#[test]
fn failures_at_the_end_of_a_connection_are_kept_apart() {
    assert!(matches!(after_cleanup::<u8, u8>(Ok(1), Ok(())), Ok(1)));
    assert!(matches!(after_cleanup::<u8, u8>(Err(2), Ok(())), Err(ClientFailure::Session(2))));
    assert!(matches!(after_cleanup::<u8, u8>(Ok(1), Err(3)), Err(ClientFailure::Cleanup(3))));
    assert!(matches!(
        after_cleanup::<u8, u8>(Err(2), Err(3)),
        Err(ClientFailure::SessionAndCleanup { session: 2, cleanup: 3 })
    ));
    assert!(matches!(
        after_fence::<u8, u8>(Err(2), Err(3)),
        Err(EndFailure::Fence { fence: 3, client: Some(2) })
    ));
    assert!(matches!(
        after_fence::<u8, u8>(Ok(2), Err(3)),
        Err(EndFailure::Fence { fence: 3, client: None })
    ));
    assert!(matches!(after_fence::<u8, u8>(Err(2), Ok(())), Err(EndFailure::Client(2))));
    assert!(matches!(after_fence::<u8, u8>(Ok(2), Ok(())), Ok(2)));
    assert!(must_fence_failure(true, true, true));
    assert!(!must_fence_failure(true, true, false));
}

#[test]
fn held_input_is_undone_in_order() {
    let mut keys = HeldKeys::new();
    keys.observe(&[
        key(KeyboardKey::LeftCtrl, true),
        key(KeyboardKey::F1, true),
        key(KeyboardKey::F1, true),
        key(KeyboardKey::F2, true),
        key(KeyboardKey::F1, false),
    ]);
    assert!(keys.contains(OutputKey::Keyboard(KeyboardKey::F2)));
    assert!(!keys.contains(OutputKey::Keyboard(KeyboardKey::F1)));
    assert_eq!(
        keys.release(),
        vec![key(KeyboardKey::F2, false), key(KeyboardKey::LeftCtrl, false)]
    );
    assert!(keys.release().is_empty());

    let mut contacts = ActiveContacts::new();
    let event = |phase, id| HardwareEvent::Touch(touch(phase, id));
    contacts.observe(&[
        event(TouchPhase::Down, 9),
        event(TouchPhase::Down, 2),
        event(TouchPhase::Move, 9),
        event(TouchPhase::Down, 5),
        event(TouchPhase::Up, 5),
    ]);
    assert_eq!(
        contacts.cancel(),
        vec![event(TouchPhase::Cancel, 2), event(TouchPhase::Cancel, 9)]
    );
    assert!(contacts.cancel().is_empty());
}

fn claimed() -> BrokerHardware {
    let mut client = BrokerHardware::new();
    client.connected = true;
    let answer = message(OK, &encode_claim(InputState::empty(), number(0.5)));
    assert!(client.claim_response(&answer).is_ok());
    client
}

#[test]
fn a_client_follows_what_the_broker_says() {
    let fresh = BrokerHardware::new();
    assert_eq!(fresh.claim_request().ok(), encode_message(CLAIM, &[]).ok());
    assert!(matches!(fresh.poll_request(1), Err(ClientError::NotClaimed)));
    assert!(matches!(fresh.release(), Release::Nothing));
    assert!(matches!(fresh.reacquire(), Reacquire::Claim));

    let mut client = claimed();
    assert!(client.claimed && client.hardware_available);
    assert!(matches!(client.claim_request(), Err(ClientError::AlreadyClaimed)));
    assert!(matches!(client.reacquire(), Reacquire::Nothing));
    assert_eq!(
        client.poll_request(7).ok(),
        encode_message(POLL, &7_u64.to_be_bytes()).ok()
    );
    let events = vec![
        HardwareEvent::Fn { active: true },
        HardwareEvent::Capability {
            capability: HardwareCapability::Display,
            present: false,
        },
    ];
    let answer = Exchange::Message(message(OK, &encode_events(&events).unwrap()));
    assert_eq!(client.poll_response(&answer).ok(), Some(events));
    assert!(!client.hardware_available);
    assert_eq!(client.unavailable_capability, Some(HardwareCapability::Display));
    assert!(matches!(client.reacquire(), Reacquire::ReleaseThenClaim));
    assert!(matches!(client.release(), Release::Send(m)
        if Some(m.clone()) == encode_message(RELEASE, &[]).ok()));

    let body = client.response(&Exchange::Message(vec![OK, 4, 5])).ok();
    assert_eq!(body, Some(vec![4, 5]));
    assert!(matches!(client.response(&Exchange::Message(vec![ERROR, b'x'])),
        Err(ClientError::Refused(words)) if words == b"x"));
    assert!(matches!(
        client.response(&Exchange::Message(vec![])),
        Err(ClientError::EmptyResponse)
    ));
    assert!(matches!(
        client.response(&Exchange::Message(vec![0x55])),
        Err(ClientError::UnknownStatus(0x55))
    ));
    assert!(matches!(
        client.response(&Exchange::Failed { disconnect: true }),
        Err(ClientError::Connection)
    ));
    assert!(!client.claimed && !client.connected && client.connection_lost);
}

#[test]
fn a_revoked_client_stops_for_the_reason_it_was_given() {
    let mut client = claimed();
    assert_eq!(client.revoked_stop_reason(), StopReason::Shutdown);
    let cancelled = encode_events(&[]).unwrap();
    let mut revoked = vec![SESSION_REVOKED, REVOKED_LOGOUT];
    revoked.extend(cancelled);
    assert!(matches!(
        client.poll_response(&Exchange::Message(revoked)),
        Err(ClientError::SessionRevoked)
    ));
    assert!(client.session_revoked);
    assert_eq!(client.revoked_stop_reason(), StopReason::Logout);
    assert_eq!(client.logout_complete().ok(), encode_message(LOGOUT_COMPLETE, &[]).ok());
    assert!(matches!(client.release(), Release::Forget));
    client.released();
    assert!(!client.claimed);
    assert!(matches!(claimed().logout_complete(), Err(ClientError::NotRevoked)));
}

#[test]
fn requests_of_a_client_carry_their_payload() {
    let client = claimed();
    let frame = LogicalFrame::from_parts(2, 1, 8, vec![9; 8]);
    let keys = [key(KeyboardKey::F5, true)];
    let sent = |operation, payload: &[u8]| encode_message(operation, payload).ok();
    assert_eq!(
        client.present_request(&frame).ok(),
        sent(PRESENT, &encode_frame(&frame).unwrap())
    );
    assert_eq!(client.confirm_request().ok(), sent(CONFIRM, &[]));
    assert_eq!(
        client.emit_request(&keys).ok(),
        sent(EMIT_KEYS, &encode_key_events(&keys).unwrap())
    );
    assert_eq!(client.get_backlight_request().ok(), sent(GET_BACKLIGHT, &[]));
    assert_eq!(
        client.set_backlight_request(number(0.5)).ok(),
        sent(SET_BACKLIGHT, &0.5_f64.to_be_bytes())
    );
    let level = 0.25_f64.to_be_bytes();
    assert_eq!(BrokerHardware::backlight_level(&level).ok(), Some(number(0.25)));
    assert!(matches!(
        BrokerHardware::backlight_level(&level[1..]),
        Err(ClientError::BacklightMalformed)
    ));
}

#[test]
fn the_fallback_follows_the_seat() {
    assert_eq!(broker_main(true, true), Startup::Serve);
    assert_eq!(broker_main(false, true), Startup::RetryAfter(1000));
    assert_eq!(broker_main(false, false), Startup::Stop);
    let user = |id: &str| {
        Some(ActiveSession {
            id: id.to_string(),
            uid: 1000,
        })
    };
    let (mut seat, start) = BrokerLoop::new(None);
    assert!(start);
    seat.fallback_started(true);
    assert_eq!(seat.idle(None), IdleStep::Nothing);
    assert_eq!(seat.idle(user("a")), IdleStep::HandOff);
    seat.handed_to_client();
    assert!(BrokerLoop::must_fence(
        ClientEnd::Finished {
            logout_acknowledged: false
        },
        true
    ));
    assert!(!BrokerLoop::must_fence(ClientEnd::Failed, true));
    seat.client_ended(
        ClientEnd::Finished {
            logout_acknowledged: true,
        },
        None,
    );
    assert!(seat.starts_after_client(true, true));
    assert!(!seat.starts_after_client(false, true));
    assert_eq!(seat.idle(None), IdleStep::StartFallback);
    seat.fallback_started(false);
    assert_eq!(seat.idle(None), IdleStep::Nothing, "one attempt on a free seat");
    assert!(seat.polls_fallback(true, true) && seat.polls_fallback(false, false));
    seat.polled(false, false, true);
    assert_eq!(seat.idle(None), IdleStep::StartFallback);
    let (_, start) = BrokerLoop::new(user("b"));
    assert!(!start);
}
