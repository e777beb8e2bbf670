//! The broker's side of one supervisor connection.
//!
//! The broker process reads messages, asks the session manager and drives the
//! hardware; the functions here say what each message calls for and what is
//! answered.
use vstd::prelude::*;
use vstd::utf8::encode_utf8;

use crate::authorization::{AuthorizationError, Refusal};
use crate::broker_ipc::{decode_frame, decode_key_events, encode_claim, encode_events};
use crate::broker_wire::{
    claim_payload, events_payload, payload_frame, payload_keys, WireError, CLAIM, CONFIRM,
    EMIT_KEYS, ERROR, GET_BACKLIGHT, HARDWARE_UNAVAILABLE, LOGOUT_COMPLETE, OK, POLL, PRESENT,
    RELEASE, REVOKED_LOGOUT, REVOKED_REPLACED, SESSION_REVOKED, SET_BACKLIGHT, WAIT_FOR_HARDWARE,
    WAIT_FOR_SESSION,
};
use crate::bytes::{
    append_slice, be_bytes, be_value, copy_range, get_be, lemma_be_value_bound, lemma_pow256_values,
    put_be,
};
use crate::hardware::{
    FrameView, HardwareCapability, HardwareEvent, InputState, LogicalFrame, OutputKey, RealBits,
    SyntheticKeyEvent, TouchEvent,
};
use crate::held_input::{
    cancellations, contact_map, contacts_after_all, keys_after_all, ActiveContacts, HeldKeys,
};

verus! {

/// The longest that the hardware is polled for one request, in milliseconds.
pub const MAX_HARDWARE_POLL_WAIT: u64 = 50;

/// Why a connection is ended with an error.
#[derive(Clone, Copy, Debug, PartialEq, Eq, Structural)]
pub enum ServerError {
    EmptyRequest,
    ExpectedClaim,
    ClaimPayload,
    RevokedOutput,
    LogoutPayload,
    PollMalformed,
    ConfirmPayload,
    BacklightMalformed,
    ReleasePayload,
    UnknownRequest(u8),
    Wire(WireError),
}

/// An answer: a status and a body.
pub struct Reply {
    pub status: u8,
    pub body: Vec<u8>,
}

impl Reply {
    fn empty(status: u8) -> (r: Reply)
        ensures
            r.status == status,
            r.body@ == Seq::<u8>::empty(),
    {
        Reply { status, body: Vec::new() }
    }
}

/// The end of the control group of a supervisor process.
pub open spec fn supervisor_unit() -> Seq<u8> {
    encode_utf8("/sliver-supervisor.service"@)
}

/// A line of text ends at `end`: at the end of the text, or before a line feed,
/// which a carriage return may precede.
pub open spec fn line_end(text: Seq<u8>, end: int) -> bool {
    end == text.len() || (end < text.len() && text[end] == 0x0a) || (end + 1 < text.len()
        && text[end] == 0x0d && text[end + 1] == 0x0a)
}

/// Some line of a control group listing ends in the supervisor's unit.
pub open spec fn in_supervisor_unit(cgroup: Seq<u8>) -> bool {
    exists|end: int|
        supervisor_unit().len() <= end <= cgroup.len() && #[trigger] line_end(cgroup, end)
            && cgroup.subrange(end - supervisor_unit().len(), end) == supervisor_unit()
}

/// Whether a process is a Sliver supervisor, by its control group listing.
pub fn ensure_supervisor_peer(cgroup: &[u8]) -> (r: bool)
    ensures
        r == in_supervisor_unit(cgroup@),
{
    let unit: &[u8] = "/sliver-supervisor.service".as_bytes();
    let n: usize = unit.len();
    let total: usize = cgroup.len();
    if total < n {
        return false;
    }
    let mut end: usize = n;
    loop
        invariant
            n == unit@.len(),
            unit@ == supervisor_unit(),
            total == cgroup@.len(),
            n <= end <= total,
            forall|e: int|
                n <= e < end && #[trigger] line_end(cgroup@, e) ==> cgroup@.subrange(e - n, e)
                    != unit@,
        decreases total - end,
    {
        let ends: bool = end == total || cgroup[end] == 0x0a || (end + 1 < total && cgroup[end]
            == 0x0d && cgroup[end + 1] == 0x0a);
        assert(ends == line_end(cgroup@, end as int));
        if ends {
            let tail: Vec<u8> = copy_range(cgroup, end - n, end);
            if crate::bytes::same_bytes(tail.as_slice(), unit) {
                return true;
            }
        }
        if end == total {
            return false;
        }
        end += 1;
    }
}

/// The status with which a refusal is reported: one that can pass by itself asks
/// the supervisor to wait.
pub open spec fn refusal_status(refusal: Refusal) -> u8 {
    if refusal.waits_for_session() {
        WAIT_FOR_SESSION
    } else {
        ERROR
    }
}

/// The status with which a refusal is reported.
pub fn broker_error_status(error: &AuthorizationError) -> (status: u8)
    ensures
        status == refusal_status(error.refusal),
{
    match error.refusal {
        Refusal::NoActiveUserSession => WAIT_FOR_SESSION,
        Refusal::SessionChangedOwnership => WAIT_FOR_SESSION,
        Refusal::WorkerSessionChanged => WAIT_FOR_SESSION,
        Refusal::WorkerNotOwnedByActiveUser => WAIT_FOR_SESSION,
        _ => ERROR,
    }
}

/// The answer to a claim that is refused.
pub fn refuse(error: &AuthorizationError) -> (r: Reply)
    ensures
        r.status == refusal_status(error.refusal),
        r.body@ == encode_utf8(error.text()),
{
    let mut body: Vec<u8> = Vec::new();
    let text: String = error.message();
    append_slice(&mut body, text.as_str().as_bytes());
    assert(body@ =~= encode_utf8(error.text()));
    Reply { status: broker_error_status(error), body }
}

/// The answer to a process that is no supervisor.
pub fn refuse_peer() -> (r: Reply)
    ensures
        r.status == ERROR,
        r.body@ == encode_utf8("broker peer is not the Sliver user supervisor"@),
{
    let mut body: Vec<u8> = Vec::new();
    append_slice(&mut body, "broker peer is not the Sliver user supervisor".as_bytes());
    assert(body@ =~= encode_utf8("broker peer is not the Sliver user supervisor"@));
    Reply { status: ERROR, body }
}

/// The user for whom a first message claims the hardware: the one the kernel names.
pub fn claim_uid(request: &[u8], peer_uid: u32) -> (r: Result<u32, ServerError>)
    ensures
        r == (if request@.len() == 0 {
            Err::<u32, ServerError>(ServerError::EmptyRequest)
        } else if request@[0] != CLAIM {
            Err(ServerError::ExpectedClaim)
        } else if request@.len() > 1 {
            Err(ServerError::ClaimPayload)
        } else {
            Ok(peer_uid)
        }),
{
    let n: usize = request.len();
    if n == 0 {
        return Err(ServerError::EmptyRequest);
    }
    if request[0] != CLAIM {
        return Err(ServerError::ExpectedClaim);
    }
    if n > 1 {
        return Err(ServerError::ClaimPayload);
    }
    Ok(peer_uid)
}

/// Whether the fallback has to give the hardware up before a client gets it.
pub fn must_hand_off(fallback_running: bool, has_recovery: bool) -> (r: bool)
    ensures
        r == (fallback_running || has_recovery),
{
    fallback_running || has_recovery
}

/// A hardware operation that failed.
pub struct HardwareFailure {
    pub available: bool,
    pub capability: Option<HardwareCapability>,
    pub text: Vec<u8>,
}

/// A body that names a capability and says what failed.
pub open spec fn failure_body(
    capability: Option<HardwareCapability>,
    otherwise: HardwareCapability,
    text: Seq<u8>,
) -> Seq<u8> {
    seq![
        match capability {
            Some(c) => c.code(),
            None => otherwise.code(),
        },
    ] + text
}

fn failure_bytes(
    capability: Option<HardwareCapability>,
    otherwise: HardwareCapability,
    text: &[u8],
) -> (body: Vec<u8>)
    ensures
        body@ == failure_body(capability, otherwise, text@),
{
    let mut body: Vec<u8> = Vec::new();
    body.push(
        match capability {
            Some(c) => c.to_wire(),
            None => otherwise.to_wire(),
        },
    );
    append_slice(&mut body, text);
    assert(body@ =~= failure_body(capability, otherwise, text@));
    body
}

/// How an authorized claim is answered.
pub enum ClaimAnswer {
    /// Send the reply; the client owns the hardware.
    Grant(Reply),
    /// Send the reply and end the connection.
    Wait(Reply),
    /// End the connection without an answer.
    Fail,
}

/// The answer to an authorized claim: the input state and the backlight level, or
/// a request to wait where the hardware is unavailable.
pub fn claim_answer(input: InputState, backlight: &Result<RealBits, HardwareFailure>) -> (r:
    ClaimAnswer)
    ensures
        match (*backlight, r) {
            (Ok(level), ClaimAnswer::Grant(reply)) => reply.status == OK && reply.body@
                == claim_payload(input, level),
            (Err(failure), ClaimAnswer::Wait(reply)) => !failure.available && reply.status
                == WAIT_FOR_HARDWARE && reply.body@ == failure_body(
                failure.capability,
                HardwareCapability::Backlight,
                failure.text@,
            ),
            (Err(failure), ClaimAnswer::Fail) => failure.available,
            _ => false,
        },
{
    match backlight {
        Ok(level) => ClaimAnswer::Grant(Reply { status: OK, body: encode_claim(input, *level) }),
        Err(failure) => if failure.available {
            ClaimAnswer::Fail
        } else {
            ClaimAnswer::Wait(
                Reply {
                    status: WAIT_FOR_HARDWARE,
                    body: failure_bytes(
                        failure.capability,
                        HardwareCapability::Backlight,
                        failure.text.as_slice(),
                    ),
                },
            )
        },
    }
}

/// What a client's next message calls for before its ownership is checked.
pub enum RequestStep {
    /// Check that the client still owns the hardware.
    Recheck,
    /// Bring up keys that the client still holds, then call `keys_emitted`.
    EmitHeld(Vec<SyntheticKeyEvent>),
    /// Send the reply and go on.
    Answer(Reply),
    /// Send the reply and end the connection.
    Finish(Reply),
}

/// What the message of an owner calls for.
pub enum Work {
    /// Poll the hardware for this many milliseconds, then call `poll_done`.
    Poll { millis: u64 },
    /// Present a frame and answer with an empty body.
    Present(LogicalFrame),
    /// Emit keys, then call `keys_emitted`.
    EmitKeys(Vec<SyntheticKeyEvent>),
    /// Read the backlight level and answer with `backlight_reply`.
    GetBacklight,
    /// Set the backlight level and answer with an empty body.
    SetBacklight(RealBits),
    /// Send the reply and go on.
    Answer(Reply),
    /// Send the reply and end the connection.
    Finish(Reply),
}

/// One connection that owns, or owned, the hardware.
pub struct ClientSession {
    pub held_keys: HeldKeys,
    pub contacts: ActiveContacts,
    pub session_revoked: bool,
    pub logout_acknowledged: bool,
}

/// Only releases of keys that are held.
pub open spec fn only_releases(events: Seq<SyntheticKeyEvent>, held: Seq<OutputKey>) -> bool {
    forall|i: int|
        0 <= i < events.len() ==> !(#[trigger] events[i]).active && held.contains(events[i].key)
}

/// The longest wait that a poll may ask for.
pub open spec fn clamped(millis: nat) -> nat {
    if millis > MAX_HARDWARE_POLL_WAIT {
        MAX_HARDWARE_POLL_WAIT as nat
    } else {
        millis
    }
}

/// Whether a batch already reports that hardware came back.
pub open spec fn reports_return(events: Seq<HardwareEvent>) -> bool {
    exists|i: int|
        0 <= i < events.len() && match #[trigger] events[i] {
            HardwareEvent::Device { present } => present,
            HardwareEvent::Capability { present, .. } => present,
            _ => false,
        }
}

/// The events of a poll, with the return of the hardware if nothing reports it.
pub open spec fn polled_events(
    events: Seq<HardwareEvent>,
    was_available: bool,
    available: bool,
) -> Seq<HardwareEvent> {
    if !was_available && available && !reports_return(events) {
        events.push(HardwareEvent::Device { present: true })
    } else {
        events
    }
}

/// The body of a revocation: its reason, and the cancellations of all contacts.
pub open spec fn revocation_body(session_active: bool, contacts: Seq<TouchEvent>) -> Seq<u8> {
    seq![
        if session_active {
            REVOKED_REPLACED
        } else {
            REVOKED_LOGOUT
        },
    ] + events_payload(cancellations(contacts))
}

impl ClientSession {
    pub open spec fn wf(self) -> bool {
        &&& self.held_keys.wf()
        &&& self.contacts.wf()
        &&& self.logout_acknowledged ==> self.session_revoked
    }

    /// Everything but the acknowledgement is as before.
    pub open spec fn same_but_acknowledged(self, other: ClientSession) -> bool {
        &&& self.held_keys == other.held_keys
        &&& self.contacts == other.contacts
        &&& self.session_revoked == other.session_revoked
    }

    /// A connection whose claim was just granted.
    pub fn new() -> (s: ClientSession)
        ensures
            s.wf(),
            s.held_keys@ == Seq::<OutputKey>::empty(),
            s.contacts.ordered() == Seq::<TouchEvent>::empty(),
            !s.session_revoked,
            !s.logout_acknowledged,
    {
        ClientSession {
            held_keys: HeldKeys::new(),
            contacts: ActiveContacts::new(),
            session_revoked: false,
            logout_acknowledged: false,
        }
    }

    /// Takes a message. A client whose session was revoked may only bring up keys
    /// that it holds and acknowledge the revocation.
    pub fn begin_request(&mut self, request: &[u8]) -> (r: Result<RequestStep, ServerError>)
        requires
            old(self).wf(),
        ensures
            final(self).wf(),
            final(self).same_but_acknowledged(*old(self)),
            final(self).logout_acknowledged == (old(self).logout_acknowledged || (
            old(self).session_revoked && request@ == seq![LOGOUT_COMPLETE])),
            ({
                let revoked = old(self).session_revoked && request@.len() > 0;
                let emits = revoked && request@[0] == EMIT_KEYS;
                match r {
                    Err(ServerError::EmptyRequest) => request@.len() == 0,
                    Ok(RequestStep::Recheck) => request@.len() > 0 && !old(self).session_revoked,
                    Ok(RequestStep::EmitHeld(events)) => emits && payload_keys(request@.skip(1))
                        == Ok::<Seq<SyntheticKeyEvent>, WireError>(events@) && only_releases(
                        events@,
                        old(self).held_keys@,
                    ),
                    Err(ServerError::Wire(e)) => emits && payload_keys(request@.skip(1)) == Err::<
                        Seq<SyntheticKeyEvent>,
                        WireError,
                    >(e),
                    Err(ServerError::RevokedOutput) => emits && payload_keys(
                        request@.skip(1),
                    ) is Ok && !only_releases(
                        payload_keys(request@.skip(1))->Ok_0,
                        old(self).held_keys@,
                    ),
                    Ok(RequestStep::Answer(reply)) => revoked && !emits && request@[0]
                        != LOGOUT_COMPLETE && reply.status == SESSION_REVOKED && reply.body@
                        == Seq::<u8>::empty(),
                    Err(ServerError::LogoutPayload) => revoked && request@[0] == LOGOUT_COMPLETE
                        && request@.len() > 1,
                    Ok(RequestStep::Finish(reply)) => revoked && request@ == seq![LOGOUT_COMPLETE]
                        && reply.status == OK && reply.body@ == Seq::<u8>::empty(),
                    Err(_) => false,
                }
            }),
    {
        let n: usize = request.len();
        if n == 0 {
            return Err(ServerError::EmptyRequest);
        }
        proof {
            assert(request@ == seq![LOGOUT_COMPLETE] <==> request@.len() == 1 && request@[0]
                == LOGOUT_COMPLETE) by {
                if request@.len() == 1 && request@[0] == LOGOUT_COMPLETE {
                    assert(request@ =~= seq![LOGOUT_COMPLETE]);
                }
            }
        }
        if !self.session_revoked {
            return Ok(RequestStep::Recheck);
        }
        let operation: u8 = request[0];
        if operation == EMIT_KEYS {
            let payload: Vec<u8> = copy_range(request, 1, n);
            assert(payload@ =~= request@.skip(1));
            let events: Vec<SyntheticKeyEvent> = match decode_key_events(payload.as_slice()) {
                Ok(events) => events,
                Err(e) => {
                    return Err(ServerError::Wire(e));
                },
            };
            let mut i: usize = 0;
            while i < events.len()
                invariant
                    i <= events@.len(),
                    self.held_keys.wf(),
                    *self == *old(self),
                    forall|j: int|
                        0 <= j < i ==> !(#[trigger] events@[j]).active && self.held_keys@.contains(
                            events@[j].key,
                        ),
                    old(self).wf(),
                    old(self).session_revoked,
                    request@.len() > 0,
                    request@[0] == EMIT_KEYS,
                    payload_keys(request@.skip(1)) == Ok::<Seq<SyntheticKeyEvent>, WireError>(
                        events@,
                    ),
                decreases events@.len() - i,
            {
                if events[i].active || !self.held_keys.contains(events[i].key) {
                    assert(!only_releases(events@, self.held_keys@)) by {
                        assert(events@[i as int].active || !self.held_keys@.contains(
                            events@[i as int].key,
                        ));
                    }
                    assert(request@ != seq![LOGOUT_COMPLETE]) by {
                        assert(seq![LOGOUT_COMPLETE][0] == LOGOUT_COMPLETE);
                    }
                    return Err(ServerError::RevokedOutput);
                }
                i += 1;
            }
            return Ok(RequestStep::EmitHeld(events));
        }
        if operation != LOGOUT_COMPLETE {
            return Ok(RequestStep::Answer(Reply::empty(SESSION_REVOKED)));
        }
        if n > 1 {
            return Err(ServerError::LogoutPayload);
        }
        self.logout_acknowledged = true;
        Ok(RequestStep::Finish(Reply::empty(OK)))
    }

    /// The keys of a request went out: they are remembered and the request answered.
    pub fn keys_emitted(&mut self, events: &[SyntheticKeyEvent]) -> (reply: Reply)
        requires
            old(self).wf(),
        ensures
            final(self).wf(),
            final(self).held_keys@ == keys_after_all(old(self).held_keys@, events@),
            final(self).contacts == old(self).contacts,
            final(self).session_revoked == old(self).session_revoked,
            final(self).logout_acknowledged == old(self).logout_acknowledged,
            reply.status == OK,
            reply.body@ == Seq::<u8>::empty(),
    {
        self.held_keys.observe(events);
        Reply::empty(OK)
    }

    /// The client no longer owns the hardware: its contacts are cancelled. The
    /// reply goes out once the client's last frame is off the panel.
    pub fn revoke(&mut self, session_active: bool) -> (r: Result<Reply, ServerError>)
        requires
            old(self).wf(),
        ensures
            final(self).wf(),
            final(self).contacts.ordered() == Seq::<TouchEvent>::empty(),
            final(self).held_keys == old(self).held_keys,
            final(self).logout_acknowledged == old(self).logout_acknowledged,
            final(self).session_revoked == (old(self).session_revoked || r is Ok),
            r is Ok == (old(self).contacts.ordered().len() <= u32::MAX),
            r matches Ok(reply) ==> reply.status == SESSION_REVOKED && reply.body@
                == revocation_body(session_active, old(self).contacts.ordered()),
            r matches Err(e) ==> e == ServerError::Wire(WireError::Count),
    {
        let cancelled: Vec<HardwareEvent> = self.contacts.cancel();
        let events: Vec<u8> = match encode_events(cancelled.as_slice()) {
            Ok(events) => events,
            Err(e) => {
                return Err(ServerError::Wire(e));
            },
        };
        let mut body: Vec<u8> = Vec::new();
        body.push(
            if session_active {
                REVOKED_REPLACED
            } else {
                REVOKED_LOGOUT
            },
        );
        append_slice(&mut body, events.as_slice());
        assert(body@ =~= revocation_body(session_active, old(self).contacts.ordered()));
        self.session_revoked = true;
        Ok(Reply { status: SESSION_REVOKED, body })
    }

    /// What the message of a client that still owns the hardware calls for.
    pub fn owner_request(request: &[u8]) -> (r: Result<Work, ServerError>)
        requires
            request@.len() > 0,
        ensures
            ({
                let op = request@[0];
                let payload = request@.skip(1);
                match r {
                    Ok(Work::Poll { millis }) => op == POLL && payload.len() == 8 && millis
                        == clamped(be_value(payload)),
                    Err(ServerError::PollMalformed) => op == POLL && payload.len() != 8,
                    Ok(Work::Present(frame)) => op == PRESENT && payload_frame(payload) == Ok::<
                        FrameView,
                        WireError,
                    >(frame@),
                    Ok(Work::EmitKeys(events)) => op == EMIT_KEYS && payload_keys(payload) == Ok::<
                        Seq<SyntheticKeyEvent>,
                        WireError,
                    >(events@),
                    Err(ServerError::Wire(e)) => {
                        ||| op == PRESENT && payload_frame(payload) == Err::<FrameView, WireError>(e)
                        ||| op == EMIT_KEYS && payload_keys(payload) == Err::<
                            Seq<SyntheticKeyEvent>,
                            WireError,
                        >(e)
                    },
                    Ok(Work::Answer(reply)) => op == CONFIRM && payload.len() == 0 && reply.status
                        == OK && reply.body@ == Seq::<u8>::empty(),
                    Err(ServerError::ConfirmPayload) => op == CONFIRM && payload.len() > 0,
                    Ok(Work::GetBacklight) => op == GET_BACKLIGHT,
                    Ok(Work::SetBacklight(level)) => op == SET_BACKLIGHT && payload.len() == 8
                        && level.bits == be_value(payload),
                    Err(ServerError::BacklightMalformed) => op == SET_BACKLIGHT && payload.len()
                        != 8,
                    Ok(Work::Finish(reply)) => op == RELEASE && payload.len() == 0 && reply.status
                        == OK && reply.body@ == Seq::<u8>::empty(),
                    Err(ServerError::ReleasePayload) => op == RELEASE && payload.len() > 0,
                    Err(ServerError::UnknownRequest(b)) => b == op && !(POLL <= op <= RELEASE),
                    Err(_) => false,
                }
            }),
    {
        let n: usize = request.len();
        let operation: u8 = request[0];
        let payload: Vec<u8> = copy_range(request, 1, n);
        proof {
            assert(payload@ =~= request@.skip(1));
            lemma_pow256_values();
            lemma_be_value_bound(payload@);
            if payload@.len() == 8 {
                assert(payload@.subrange(0, 8) =~= payload@);
            }
        }
        if operation == POLL {
            if n != 9 {
                return Err(ServerError::PollMalformed);
            }
            let asked: u64 = get_be(payload.as_slice(), 0, 8);
            let millis: u64 = if asked > MAX_HARDWARE_POLL_WAIT {
                MAX_HARDWARE_POLL_WAIT
            } else {
                asked
            };
            Ok(Work::Poll { millis })
        } else if operation == PRESENT {
            match decode_frame(payload.as_slice()) {
                Ok(frame) => Ok(Work::Present(frame)),
                Err(e) => Err(ServerError::Wire(e)),
            }
        } else if operation == CONFIRM {
            if n > 1 {
                return Err(ServerError::ConfirmPayload);
            }
            Ok(Work::Answer(Reply::empty(OK)))
        } else if operation == EMIT_KEYS {
            match decode_key_events(payload.as_slice()) {
                Ok(events) => Ok(Work::EmitKeys(events)),
                Err(e) => Err(ServerError::Wire(e)),
            }
        } else if operation == GET_BACKLIGHT {
            Ok(Work::GetBacklight)
        } else if operation == SET_BACKLIGHT {
            if n != 9 {
                return Err(ServerError::BacklightMalformed);
            }
            let bits: u64 = get_be(payload.as_slice(), 0, 8);
            Ok(Work::SetBacklight(RealBits { bits }))
        } else if operation == RELEASE {
            if n > 1 {
                return Err(ServerError::ReleasePayload);
            }
            Ok(Work::Finish(Reply::empty(OK)))
        } else {
            Err(ServerError::UnknownRequest(operation))
        }
    }

    /// The hardware was polled: its events are remembered and sent.
    pub fn poll_done(
        &mut self,
        events: Vec<HardwareEvent>,
        was_available: bool,
        available: bool,
    ) -> (r: Result<Reply, ServerError>)
        requires
            old(self).wf(),
        ensures
            final(self).wf(),
            final(self).held_keys == old(self).held_keys,
            final(self).session_revoked == old(self).session_revoked,
            final(self).logout_acknowledged == old(self).logout_acknowledged,
            ({
                let sent = polled_events(events@, was_available, available);
                &&& contact_map(final(self).contacts.ordered()) == contacts_after_all(
                    contact_map(old(self).contacts.ordered()),
                    sent,
                )
                &&& r is Ok == (sent.len() <= u32::MAX)
                &&& r matches Ok(reply) ==> reply.status == OK && reply.body@ == events_payload(
                    sent,
                )
                &&& r matches Err(e) ==> e == ServerError::Wire(WireError::Count)
            }),
    {
        let ghost polled = events@;
        let mut events: Vec<HardwareEvent> = events;
        if !was_available && available {
            let mut reported: bool = false;
            let mut i: usize = 0;
            while i < events.len()
                invariant
                    i <= events@.len(),
                    reported == reports_return(events@.take(i as int)),
                decreases events@.len() - i,
            {
                let ghost shorter = events@.take(i as int);
                let here: bool = match events[i] {
                    HardwareEvent::Device { present } => present,
                    HardwareEvent::Capability { present, .. } => present,
                    _ => false,
                };
                if here {
                    reported = true;
                }
                i += 1;
                proof {
                    let longer = events@.take(i as int);
                    assert(longer[i - 1] == events@[i - 1]);
                    assert(forall|j: int| 0 <= j < i - 1 ==> shorter[j] == longer[j]);
                    if reports_return(shorter) {
                        let j = choose|j: int|
                            0 <= j < shorter.len() && match #[trigger] shorter[j] {
                                HardwareEvent::Device { present } => present,
                                HardwareEvent::Capability { present, .. } => present,
                                _ => false,
                            };
                        assert(longer[j] == shorter[j]);
                    }
                }
            }
            assert(events@.take(i as int) =~= events@);
            if !reported {
                events.push(HardwareEvent::Device { present: true });
            }
        }
        assert(events@ =~= polled_events(polled, was_available, available));
        self.contacts.observe(events.as_slice());
        match encode_events(events.as_slice()) {
            Ok(body) => Ok(Reply { status: OK, body }),
            Err(e) => Err(ServerError::Wire(e)),
        }
    }
}

/// The answer to a request for the backlight level.
pub fn backlight_reply(level: RealBits) -> (r: Reply)
    ensures
        r.status == OK,
        r.body@ == be_bytes(level.bits as nat, 8),
{
    let mut body: Vec<u8> = Vec::new();
    put_be(&mut body, level.bits, 8);
    assert(body@ =~= be_bytes(level.bits as nat, 8));
    Reply { status: OK, body }
}

/// The answer where a response cannot be made: the client is told that the hardware
/// is unavailable, if it is; otherwise the connection ends.
pub fn unavailable_reply(failure: &HardwareFailure) -> (r: Option<Reply>)
    ensures
        r is Some == !failure.available,
        r matches Some(reply) ==> reply.status == HARDWARE_UNAVAILABLE && reply.body@
            == failure_body(failure.capability, HardwareCapability::Display, failure.text@),
{
    if failure.available {
        None
    } else {
        Some(
            Reply {
                status: HARDWARE_UNAVAILABLE,
                body: failure_bytes(
                    failure.capability,
                    HardwareCapability::Display,
                    failure.text.as_slice(),
                ),
            },
        )
    }
}

/// How a connection failed in the end, with what else failed on the way.
pub enum ClientFailure<E> {
    /// The connection failed.
    Session(E),
    /// The connection failed, and so did bringing its keys up.
    SessionAndCleanup { session: E, cleanup: E },
    /// Only bringing the client's keys up failed.
    Cleanup(E),
}

/// How a connection ended once its keys were brought up.
pub fn after_cleanup<T, E>(session: Result<T, E>, cleanup: Result<(), E>) -> (r: Result<
    T,
    ClientFailure<E>,
>)
    ensures
        match (session, cleanup, r) {
            (Ok(outcome), Ok(_), Ok(kept)) => kept == outcome,
            (Err(e), Ok(_), Err(ClientFailure::Session(f))) => f == e,
            (Err(e), Err(c), Err(ClientFailure::SessionAndCleanup { session: f, cleanup: d })) => f
                == e && d == c,
            (Ok(_), Err(c), Err(ClientFailure::Cleanup(d))) => d == c,
            _ => false,
        },
{
    match (session, cleanup) {
        (Err(session), Err(cleanup)) => Err(ClientFailure::SessionAndCleanup { session, cleanup }),
        (Err(session), Ok(_)) => Err(ClientFailure::Session(session)),
        (Ok(_), Err(cleanup)) => Err(ClientFailure::Cleanup(cleanup)),
        (Ok(outcome), Ok(_)) => Ok(outcome),
    }
}

/// Whether a failed connection's last frame has to be taken off the panel: the
/// client owned the hardware and the broker is not shutting down.
pub fn must_fence_failure(claimed: bool, failed: bool, running: bool) -> (r: bool)
    ensures
        r == (claimed && failed && running),
{
    claimed && failed && running
}

/// How a connection failed, taking the fence of its last frame into account.
pub enum EndFailure<F> {
    /// The connection failed and its frame is off the panel.
    Client(F),
    /// The frame could not be taken off the panel.
    Fence { fence: F, client: Option<F> },
}

/// How a connection ended: a fence that failed comes before any other failure.
pub fn after_fence<T, F>(result: Result<T, F>, fence: Result<(), F>) -> (r: Result<
    T,
    EndFailure<F>,
>)
    ensures
        match (result, fence, r) {
            (Ok(outcome), Ok(_), Ok(kept)) => kept == outcome,
            (Err(e), Ok(_), Err(EndFailure::Client(f))) => f == e,
            (Err(e), Err(c), Err(EndFailure::Fence { fence: d, client: Some(f) })) => d == c && f
                == e,
            (Ok(_), Err(c), Err(EndFailure::Fence { fence: d, client: None })) => d == c,
            _ => false,
        },
{
    match (result, fence) {
        (Err(client), Err(fence)) => Err(EndFailure::Fence { fence, client: Some(client) }),
        (Err(client), Ok(_)) => Err(EndFailure::Client(client)),
        (Ok(outcome), Ok(_)) => Ok(outcome),
        (Ok(_), Err(fence)) => Err(EndFailure::Fence { fence, client: None }),
    }
}

} // verus!
