//! One client's connection to the broker, from the check of its peer to its end.
//!
//! The connection says what is to be done next and is told what came of it. Nothing is
//! done for a client before the session manager confirmed that it owns the hardware,
//! and that is asked again before every request.
use vstd::prelude::*;
use vstd::string::StringSliceAdditionalSpecFns;
use vstd::utf8::encode_utf8;

use crate::authorization::{
    authorize_active_uid, recheck_active_uid, refusal_text, AuthorizationError, AuthorizationGrant,
    OwnershipAnswers, Refusal,
};
use crate::broker_server::{
    backlight_reply, claim_answer, claim_uid, clamped, ensure_supervisor_peer, failure_body,
    in_supervisor_unit, must_hand_off, only_releases, polled_events, refusal_status, refuse,
    refuse_peer, revocation_body, unavailable_reply, ClaimAnswer, ClientSession, HardwareFailure,
    Reply, RequestStep, ServerError, Work,
};
use crate::broker_wire::{
    claim_payload, events_payload, payload_frame, payload_keys, WireError, CLAIM, CONFIRM,
    EMIT_KEYS, ERROR, GET_BACKLIGHT, HARDWARE_UNAVAILABLE, LOGOUT_COMPLETE, OK, POLL, PRESENT,
    RELEASE, SESSION_REVOKED, SET_BACKLIGHT, WAIT_FOR_HARDWARE,
};
use crate::bytes::{be_bytes, be_value, copy_bytes};
use crate::hardware::{
    FrameView, HardwareCapability, HardwareEvent, InputState, OutputKey, RealBits,
    SyntheticKeyEvent, TouchEvent,
};
use crate::held_input::{contact_map, contacts_after_all, keys_after_all};

verus! {

/// What a connection waits for.
#[derive(Clone, Copy, Debug, PartialEq, Eq, Structural)]
pub enum Stage {
    /// The control group of the peer.
    Peer,
    /// The first message, which has to be a claim.
    Claim,
    /// The answers of the session manager to the claim.
    Authorize,
    /// The same answers once more.
    Confirm,
    /// The fallback to give the hardware up, where it holds it.
    HandOff,
    /// The state of the input and the backlight.
    Input,
    /// The next message.
    Ready,
    /// The answers of the session manager to a request.
    Owner,
    /// The events of a poll.
    Polling,
    /// Keys to go out.
    Emitting,
    /// A presentation or a level to be read or set.
    Working,
    /// Nothing: the connection is over.
    Ended,
}

/// What a message calls for.
pub enum MessageStep {
    /// Nothing: no message came, and the connection is over.
    Ended,
    /// Ask whether the client still owns the hardware.
    AskOwner,
    /// Bring up keys that the client still holds.
    EmitHeld(Vec<SyntheticKeyEvent>),
    /// Send the reply and go on.
    Answer(Reply),
    /// Send the reply; the connection is over.
    Finish(Reply),
}

/// What the answers of the session manager call for.
pub enum OwnerStep {
    /// The client lost the hardware: take its frame off the panel, then send the reply.
    Revoke(Reply),
    /// Do what the client asked for.
    Work(Work),
}

/// One client's connection.
pub struct Connection {
    pub stage: Stage,
    pub uid: u32,
    pub grant: Option<AuthorizationGrant>,
    pub session: ClientSession,
    pub claimed: bool,
    pub request: Vec<u8>,
}

/// Why a grant does not stand any more.
pub open spec fn grant_error(
    uid: u32,
    grant: AuthorizationGrant,
    answers: OwnershipAnswers,
) -> Option<Refusal> {
    match answers.refusal(uid) {
        Some(e) => Some(e),
        None => if answers.grant(uid, grant@.seat) == grant@ {
            None
        } else {
            Some(Refusal::WorkerSessionChanged)
        },
    }
}

/// The reply that refuses a claim on a seat.
pub open spec fn refuses(reply: Reply, refusal: Refusal, seat: Seq<char>) -> bool {
    reply.status == refusal_status(refusal) && reply.body@ == encode_utf8(
        refusal_text(refusal, seat),
    )
}

/// The stage that the work of a request leads to.
pub open spec fn work_stage(work: Work) -> Stage {
    match work {
        Work::Poll { .. } => Stage::Polling,
        Work::Present(_) => Stage::Working,
        Work::EmitKeys(_) => Stage::Emitting,
        Work::GetBacklight => Stage::Working,
        Work::SetBacklight(_) => Stage::Working,
        Work::Answer(_) => Stage::Ready,
        Work::Finish(_) => Stage::Ended,
    }
}

/// The work that a request asks for.
pub open spec fn asks_for(request: Seq<u8>, work: Work) -> bool {
    let op = request[0];
    let payload = request.skip(1);
    match work {
        Work::Poll { millis } => op == POLL && payload.len() == 8 && millis == clamped(
            be_value(payload),
        ),
        Work::Present(frame) => op == PRESENT && payload_frame(payload) == Ok::<
            FrameView,
            WireError,
        >(frame@),
        Work::EmitKeys(events) => op == EMIT_KEYS && payload_keys(payload) == Ok::<
            Seq<SyntheticKeyEvent>,
            WireError,
        >(events@),
        Work::GetBacklight => op == GET_BACKLIGHT,
        Work::SetBacklight(level) => op == SET_BACKLIGHT && payload.len() == 8 && level.bits
            == be_value(payload),
        Work::Answer(reply) => op == CONFIRM && payload.len() == 0 && reply.status == OK
            && reply.body@ == Seq::<u8>::empty(),
        Work::Finish(reply) => op == RELEASE && payload.len() == 0 && reply.status == OK
            && reply.body@ == Seq::<u8>::empty(),
    }
}

/// Why a request asks for no work.
pub open spec fn asks_wrongly(request: Seq<u8>, e: ServerError) -> bool {
    let op = request[0];
    let payload = request.skip(1);
    match e {
        ServerError::PollMalformed => op == POLL && payload.len() != 8,
        ServerError::ConfirmPayload => op == CONFIRM && payload.len() > 0,
        ServerError::BacklightMalformed => op == SET_BACKLIGHT && payload.len() != 8,
        ServerError::ReleasePayload => op == RELEASE && payload.len() > 0,
        ServerError::UnknownRequest(b) => b == op && !(POLL <= op <= RELEASE),
        ServerError::Wire(w) => (op == PRESENT && payload_frame(payload) == Err::<
            FrameView,
            WireError,
        >(w)) || (op == EMIT_KEYS && payload_keys(payload) == Err::<
            Seq<SyntheticKeyEvent>,
            WireError,
        >(w)),
        _ => false,
    }
}

impl Connection {
    /// Behind the authorization there is a grant, and a request waits for its answers.
    pub open spec fn wf(self) -> bool {
        &&& self.session.wf()
        &&& !(self.stage is Peer || self.stage is Claim || self.stage is Authorize
            || self.stage is Ended) ==> self.grant is Some
        &&& self.stage is Owner ==> self.request@.len() > 0 && !self.session.session_revoked
        &&& self.claimed ==> self.grant is Some
    }

    /// The connection as before, but for its stage.
    pub open spec fn moved(self, stage: Stage) -> Connection {
        Connection { stage, ..self }
    }

    /// A connection that was just accepted.
    pub fn new() -> (c: Connection)
        ensures
            c.wf(),
            c.stage is Peer,
            !c.claimed,
            c.grant is None,
            !c.session.session_revoked,
            !c.session.logout_acknowledged,
            c.session.contacts.ordered() == Seq::<TouchEvent>::empty(),
            c.session.held_keys@ == Seq::<OutputKey>::empty(),
    {
        Connection {
            stage: Stage::Peer,
            uid: 0,
            grant: None,
            session: ClientSession::new(),
            claimed: false,
            request: Vec::new(),
        }
    }

    /// The control group of the peer is known: any other than the supervisor is refused.
    pub fn peer_checked(&mut self, cgroup: &[u8]) -> (r: Result<(), Reply>)
        requires
            old(self).wf(),
            old(self).stage is Peer,
        ensures
            final(self).wf(),
            match r {
                Ok(()) => in_supervisor_unit(cgroup@) && *final(self) == old(self).moved(
                    Stage::Claim,
                ),
                Err(reply) => !in_supervisor_unit(cgroup@) && *final(self) == old(self).moved(
                    Stage::Ended,
                ) && reply.status == ERROR && reply.body@ == encode_utf8(
                    "broker peer is not the Sliver user supervisor"@,
                ),
            },
    {
        if ensure_supervisor_peer(cgroup) {
            self.stage = Stage::Claim;
            Ok(())
        } else {
            self.stage = Stage::Ended;
            Err(refuse_peer())
        }
    }

    /// The first message came, or the broker stops before it. A claim is for the user that
    /// the kernel names.
    pub fn first_message(&mut self, request: Option<&[u8]>, peer_uid: u32) -> (r: Result<
        bool,
        ServerError,
    >)
        requires
            old(self).wf(),
            old(self).stage is Claim,
        ensures
            final(self).wf(),
            match request {
                None => r == Ok::<bool, ServerError>(false) && *final(self) == old(self).moved(
                    Stage::Ended,
                ),
                Some(m) => if m@.len() == 1 && m@[0] == CLAIM {
                    r == Ok::<bool, ServerError>(true) && *final(self) == (Connection {
                        stage: Stage::Authorize,
                        uid: peer_uid,
                        ..*old(self)
                    })
                } else {
                    *final(self) == old(self).moved(Stage::Ended) && r == Err::<bool, ServerError>(
                        if m@.len() == 0 {
                            ServerError::EmptyRequest
                        } else if m@[0] != CLAIM {
                            ServerError::ExpectedClaim
                        } else {
                            ServerError::ClaimPayload
                        },
                    )
                },
            },
    {
        match request {
            None => {
                self.stage = Stage::Ended;
                Ok(false)
            },
            Some(m) => match claim_uid(m, peer_uid) {
                Ok(uid) => {
                    self.uid = uid;
                    self.stage = Stage::Authorize;
                    Ok(true)
                },
                Err(e) => {
                    self.stage = Stage::Ended;
                    Err(e)
                },
            },
        }
    }

    /// The session manager answered to the claim.
    pub fn authorized(&mut self, seat: &str, answers: &OwnershipAnswers) -> (r: Result<(), Reply>)
        requires
            old(self).wf(),
            old(self).stage is Authorize,
        ensures
            final(self).wf(),
            match r {
                Ok(()) => answers.refusal(old(self).uid) is None && (final(self).grant matches Some(
                    grant,
                ) && grant@ == answers.grant(old(self).uid, seat@) && *final(self) == (Connection {
                    stage: Stage::Confirm,
                    grant: Some(grant),
                    ..*old(self)
                })),
                Err(reply) => *final(self) == old(self).moved(Stage::Ended) && (answers.refusal(
                    old(self).uid,
                ) matches Some(refusal) && refuses(reply, refusal, seat@)),
            },
    {
        match authorize_active_uid(self.uid, seat, answers) {
            Ok(grant) => {
                self.grant = Some(grant);
                self.stage = Stage::Confirm;
                Ok(())
            },
            Err(e) => {
                self.stage = Stage::Ended;
                Err(refuse(&e))
            },
        }
    }

    /// The session manager answered once more. Says whether the fallback has to give the
    /// hardware up first.
    pub fn confirmed(
        &mut self,
        answers: &OwnershipAnswers,
        fallback_running: bool,
        has_recovery: bool,
    ) -> (r: Result<bool, Reply>)
        requires
            old(self).wf(),
            old(self).stage is Confirm,
        ensures
            final(self).wf(),
            match (r, grant_error(old(self).uid, old(self).grant->Some_0, *answers)) {
                (Ok(hands_off), None) => hands_off == (fallback_running || has_recovery)
                    && *final(self) == old(self).moved(Stage::HandOff),
                (Err(reply), Some(refusal)) => refuses(
                    reply,
                    refusal,
                    old(self).grant->Some_0@.seat,
                ) && *final(self) == old(self).moved(Stage::Ended),
                _ => false,
            },
    {
        let checked: Result<(), AuthorizationError> = match &self.grant {
            Some(grant) => recheck_active_uid(self.uid, grant, answers),
            None => Ok(()),
        };
        match checked {
            Ok(()) => {
                self.stage = Stage::HandOff;
                Ok(must_hand_off(fallback_running, has_recovery))
            },
            Err(e) => {
                self.stage = Stage::Ended;
                Err(refuse(&e))
            },
        }
    }

    /// The fallback gave the hardware up: from here on the client owns it.
    pub fn handed_off(&mut self)
        requires
            old(self).wf(),
            old(self).stage is HandOff,
        ensures
            final(self).wf(),
            *final(self) == (Connection { stage: Stage::Input, claimed: true, ..*old(self) }),
    {
        self.claimed = true;
        self.stage = Stage::Input;
    }

    /// The state of the input and the backlight is known: answers the claim.
    pub fn claim_answered(
        &mut self,
        input: InputState,
        backlight: &Result<RealBits, HardwareFailure>,
    ) -> (r: ClaimAnswer)
        requires
            old(self).wf(),
            old(self).stage is Input,
        ensures
            final(self).wf(),
            match (*backlight, r) {
                (Ok(level), ClaimAnswer::Grant(reply)) => reply.status == OK && reply.body@
                    == claim_payload(input, level) && *final(self) == old(self).moved(Stage::Ready),
                (Err(failure), ClaimAnswer::Wait(reply)) => !failure.available && reply.status
                    == WAIT_FOR_HARDWARE && reply.body@ == failure_body(
                    failure.capability,
                    HardwareCapability::Backlight,
                    failure.text@,
                ) && *final(self) == old(self).moved(Stage::Ended),
                (Err(failure), ClaimAnswer::Fail) => failure.available && *final(self) == old(
                    self,
                ).moved(Stage::Ended),
                _ => false,
            },
    {
        let answer: ClaimAnswer = claim_answer(input, backlight);
        self.stage = match &answer {
            ClaimAnswer::Grant(_) => Stage::Ready,
            _ => Stage::Ended,
        };
        answer
    }

    /// The next message came, or there is none any more. A client that lost the hardware
    /// may only bring up keys that it holds and acknowledge its loss.
    pub fn message(&mut self, request: Option<Vec<u8>>) -> (r: Result<MessageStep, ServerError>)
        requires
            old(self).wf(),
            old(self).stage is Ready,
        ensures
            final(self).wf(),
            final(self).uid == old(self).uid,
            final(self).grant == old(self).grant,
            final(self).claimed == old(self).claimed,
            final(self).session.same_but_acknowledged(old(self).session),
            final(self).session.logout_acknowledged == (old(self).session.logout_acknowledged || (
            r matches Ok(MessageStep::Finish(_)))),
            ({
                let revoked = old(self).session.session_revoked;
                let held = old(self).session.held_keys@;
                match request {
                    None => r matches Ok(MessageStep::Ended) && final(self).stage is Ended,
                    Some(m) => {
                        let keys = payload_keys(m@.skip(1));
                        match r {
                            Ok(MessageStep::AskOwner) => m@.len() > 0 && !revoked
                                && final(self).stage is Owner && final(self).request@ == m@,
                            Ok(MessageStep::EmitHeld(events)) => revoked && m@.len() > 0 && m@[0]
                                == EMIT_KEYS && keys == Ok::<Seq<SyntheticKeyEvent>, WireError>(
                                events@,
                            ) && only_releases(events@, held) && final(self).stage is Emitting,
                            Ok(MessageStep::Answer(reply)) => revoked && m@.len() > 0 && m@[0]
                                != EMIT_KEYS && m@[0] != LOGOUT_COMPLETE && reply.status
                                == SESSION_REVOKED && reply.body@ == Seq::<u8>::empty()
                                && final(self).stage is Ready,
                            Ok(MessageStep::Finish(reply)) => revoked && m@ == seq![LOGOUT_COMPLETE]
                                && reply.status == OK && reply.body@ == Seq::<u8>::empty()
                                && final(self).stage is Ended,
                            Ok(MessageStep::Ended) => false,
                            Err(e) => final(self).stage is Ended && (match e {
                                ServerError::EmptyRequest => m@.len() == 0,
                                ServerError::Wire(w) => revoked && m@.len() > 0 && m@[0]
                                    == EMIT_KEYS && keys == Err::<
                                    Seq<SyntheticKeyEvent>,
                                    WireError,
                                >(w),
                                ServerError::RevokedOutput => revoked && m@.len() > 0 && m@[0]
                                    == EMIT_KEYS && (keys matches Ok(events) && !only_releases(
                                    events,
                                    held,
                                )),
                                ServerError::LogoutPayload => revoked && m@.len() > 1 && m@[0]
                                    == LOGOUT_COMPLETE,
                                _ => false,
                            }),
                        }
                    },
                }
            }),
    {
        let m: Vec<u8> = match request {
            Some(m) => m,
            None => {
                self.stage = Stage::Ended;
                return Ok(MessageStep::Ended);
            },
        };
        let begun: Result<RequestStep, ServerError> = self.session.begin_request(m.as_slice());
        match begun {
            Ok(RequestStep::Recheck) => {
                assert(m@ != seq![LOGOUT_COMPLETE] || !old(self).session.session_revoked);
                self.request = m;
                self.stage = Stage::Owner;
                Ok(MessageStep::AskOwner)
            },
            Ok(RequestStep::EmitHeld(events)) => {
                assert(m@ != seq![LOGOUT_COMPLETE]) by {
                    assert(seq![LOGOUT_COMPLETE][0] == LOGOUT_COMPLETE);
                }
                self.stage = Stage::Emitting;
                Ok(MessageStep::EmitHeld(events))
            },
            Ok(RequestStep::Answer(reply)) => {
                assert(m@ != seq![LOGOUT_COMPLETE]) by {
                    assert(seq![LOGOUT_COMPLETE][0] == LOGOUT_COMPLETE);
                }
                Ok(MessageStep::Answer(reply))
            },
            Ok(RequestStep::Finish(reply)) => {
                self.stage = Stage::Ended;
                Ok(MessageStep::Finish(reply))
            },
            Err(e) => {
                assert(m@ != seq![LOGOUT_COMPLETE]) by {
                    assert(seq![LOGOUT_COMPLETE].len() == 1 && seq![LOGOUT_COMPLETE][0]
                        == LOGOUT_COMPLETE);
                }
                self.stage = Stage::Ended;
                Err(e)
            },
        }
    }

    /// Whether the client still owns the hardware, by the answers of the session manager.
    pub fn owner_stands(&self, answers: &OwnershipAnswers) -> (r: bool)
        requires
            self.wf(),
            self.stage is Owner,
        ensures
            r == (grant_error(self.uid, self.grant->Some_0, *answers) is None),
    {
        match &self.grant {
            Some(grant) => recheck_active_uid(self.uid, grant, answers).is_ok(),
            None => true,
        }
    }

    /// The session manager answered to a request: a client that still owns the hardware
    /// gets its work done, any other loses the hardware.
    pub fn owner_checked(&mut self, answers: &OwnershipAnswers, session_active: bool) -> (r: Result<
        OwnerStep,
        ServerError,
    >)
        requires
            old(self).wf(),
            old(self).stage is Owner,
        ensures
            final(self).wf(),
            ({
                let lost = grant_error(old(self).uid, old(self).grant->Some_0, *answers);
                let contacts = old(self).session.contacts.ordered();
                match r {
                    Ok(OwnerStep::Work(work)) => lost is None && asks_for(old(self).request@, work)
                        && *final(self) == old(self).moved(work_stage(work)),
                    Ok(OwnerStep::Revoke(reply)) => {
                        &&& lost is Some
                        &&& contacts.len() <= u32::MAX
                        &&& reply.status == SESSION_REVOKED
                        &&& reply.body@ == revocation_body(session_active, contacts)
                        &&& final(self).stage is Ready
                        &&& final(self).session.session_revoked
                        &&& final(self).session.contacts.ordered() == Seq::<TouchEvent>::empty()
                        &&& final(self).session.held_keys == old(self).session.held_keys
                        &&& final(self).session.logout_acknowledged
                            == old(self).session.logout_acknowledged
                        &&& final(self).grant == old(self).grant
                        &&& final(self).uid == old(self).uid
                        &&& final(self).claimed == old(self).claimed
                    },
                    Err(e) => final(self).stage is Ended && (if lost is None {
                        asks_wrongly(old(self).request@, e) && *final(self) == old(self).moved(
                            Stage::Ended,
                        )
                    } else {
                        contacts.len() > u32::MAX && e == ServerError::Wire(WireError::Count)
                    }),
                }
            }),
    {
        if !self.owner_stands(answers) {
            return match self.session.revoke(session_active) {
                Ok(reply) => {
                    self.stage = Stage::Ready;
                    Ok(OwnerStep::Revoke(reply))
                },
                Err(e) => {
                    self.stage = Stage::Ended;
                    Err(e)
                },
            };
        }
        match ClientSession::owner_request(self.request.as_slice()) {
            Ok(work) => {
                self.stage = match &work {
                    Work::Poll { .. } => Stage::Polling,
                    Work::Present(_) => Stage::Working,
                    Work::EmitKeys(_) => Stage::Emitting,
                    Work::GetBacklight => Stage::Working,
                    Work::SetBacklight(_) => Stage::Working,
                    Work::Answer(_) => Stage::Ready,
                    Work::Finish(_) => Stage::Ended,
                };
                Ok(OwnerStep::Work(work))
            },
            Err(e) => {
                self.stage = Stage::Ended;
                Err(e)
            },
        }
    }

    /// A poll gave events: they are remembered and sent. More events than a message can
    /// count are not sent: a client whose hardware is gone is told so, any other client's
    /// connection ends.
    pub fn polled(
        &mut self,
        events: Vec<HardwareEvent>,
        was_available: bool,
        available: bool,
        missing: Option<HardwareCapability>,
    ) -> (r: Result<Reply, ServerError>)
        requires
            old(self).wf(),
            old(self).stage is Polling,
        ensures
            final(self).wf(),
            final(self).session.held_keys == old(self).session.held_keys,
            final(self).session.session_revoked == old(self).session.session_revoked,
            final(self).session.logout_acknowledged == old(self).session.logout_acknowledged,
            final(self).grant == old(self).grant,
            final(self).uid == old(self).uid,
            final(self).claimed == old(self).claimed,
            ({
                let sent = polled_events(events@, was_available, available);
                &&& contact_map(final(self).session.contacts.ordered()) == contacts_after_all(
                    contact_map(old(self).session.contacts.ordered()),
                    sent,
                )
                &&& match r {
                    Ok(reply) => final(self).stage is Ready && (if sent.len() <= u32::MAX {
                        reply.status == OK && reply.body@ == events_payload(sent)
                    } else {
                        !available && reply.status == HARDWARE_UNAVAILABLE && reply.body@
                            == failure_body(
                            missing,
                            HardwareCapability::Display,
                            "out of range integral type conversion attempted".spec_bytes(),
                        )
                    }),
                    Err(e) => sent.len() > u32::MAX && available && final(self).stage is Ended && e
                        == ServerError::Wire(WireError::Count),
                }
            }),
    {
        let reply: Result<Reply, ServerError> = self.session.poll_done(
            events,
            was_available,
            available,
        );
        match reply {
            Ok(reply) => {
                self.stage = Stage::Ready;
                Ok(reply)
            },
            Err(e) => {
                let text: Vec<u8> = copy_bytes(
                    "out of range integral type conversion attempted".as_bytes(),
                );
                match unavailable_reply(&HardwareFailure { available, capability: missing, text }) {
                    Some(reply) => {
                        self.stage = Stage::Ready;
                        Ok(reply)
                    },
                    None => {
                        self.stage = Stage::Ended;
                        Err(e)
                    },
                }
            },
        }
    }

    /// Keys went out: they are remembered.
    pub fn emitted(&mut self, events: &[SyntheticKeyEvent]) -> (reply: Reply)
        requires
            old(self).wf(),
            old(self).stage is Emitting,
        ensures
            final(self).wf(),
            final(self).stage is Ready,
            final(self).session.held_keys@ == keys_after_all(
                old(self).session.held_keys@,
                events@,
            ),
            final(self).session.contacts == old(self).session.contacts,
            final(self).session.session_revoked == old(self).session.session_revoked,
            final(self).session.logout_acknowledged == old(self).session.logout_acknowledged,
            final(self).grant == old(self).grant,
            final(self).uid == old(self).uid,
            final(self).claimed == old(self).claimed,
            reply.status == OK,
            reply.body@ == Seq::<u8>::empty(),
    {
        self.stage = Stage::Ready;
        self.session.keys_emitted(events)
    }

    /// A frame was presented, or the level was set.
    pub fn done(&mut self) -> (reply: Reply)
        requires
            old(self).wf(),
            old(self).stage is Working,
        ensures
            final(self).wf(),
            *final(self) == old(self).moved(Stage::Ready),
            reply.status == OK,
            reply.body@ == Seq::<u8>::empty(),
    {
        self.stage = Stage::Ready;
        Reply { status: OK, body: Vec::new() }
    }

    /// The level was read.
    pub fn level_read(&mut self, level: RealBits) -> (reply: Reply)
        requires
            old(self).wf(),
            old(self).stage is Working,
        ensures
            final(self).wf(),
            *final(self) == old(self).moved(Stage::Ready),
            reply.status == OK,
            reply.body@ == be_bytes(level.bits as nat, 8),
    {
        self.stage = Stage::Ready;
        backlight_reply(level)
    }
}

} // verus!
