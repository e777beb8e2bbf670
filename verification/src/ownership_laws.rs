//! Who may own the hardware, what an owner and its broker tell each other, and what is
//! held meanwhile.
use vstd::prelude::*;
use vstd::utf8::encode_utf8;

use crate::authorization::{
    refusal_text, ActiveSession, AuthorizationGrant, CallerAnswers, OwnershipAnswers,
    PeerCredentials, Refusal,
};
use crate::broker_client::{
    exchange_error, named_capability, revocation_reason, BrokerHardware, CapabilitySet,
    ClientError, Exchange, StopReason,
};
use crate::broker_connection::{asks_for, asks_wrongly, grant_error, refuses, work_stage};
use crate::broker_loop::same_session;
use crate::broker_server::{
    clamped, failure_body, in_supervisor_unit, line_end, only_releases, polled_events,
    refusal_status, reports_return, revocation_body, supervisor_unit, ClientSession, Reply,
    ServerError, Work,
};
use crate::broker_wire::events_payload;
use crate::bytes::be_value;
use crate::failures::{is_gone, FailureCause};
use crate::hardware::{
    input_after, HardwareCapability, HardwareEvent, ModifierState, OutputKey, SyntheticKeyEvent,
    TouchEvent, TouchPhase,
};
use crate::held_input::{
    by_identity, cancellations, cancelled, contact_map, contacts_after_all, keys_after,
    keys_after_all,
};

verus! {

/// A caller is granted a change exactly where it is not root, its own session is local,
/// on a seat and active, is the session in the foreground of that seat for the same user,
/// and nothing changed while the session manager was asked.
pub proof fn law_a_caller_is_granted_a_change_in_its_own_foreground_session(
    peer: PeerCredentials,
    answers: CallerAnswers,
)
    ensures
        answers.refusal(peer) is None <==> {
            &&& peer.uid != 0
            &&& answers.generation_before is Some
            &&& answers.generation_after == answers.generation_before
            &&& answers.session matches Some(Some(session)) && session.uid == peer.uid
                && !session.remote && session.seat is Some && session.active && (answers.active
                matches Some(Some(active)) && active.id@ == session.id@ && active.uid == peer.uid)
        },
        answers.refusal(peer) is None ==> ({
            let grant = answers.grant(peer);
            &&& grant.session_id == answers.session->0->0.id@
            &&& answers.session->0->0.seat matches Some(seat) && grant.seat == seat@
            &&& grant.uid == peer.uid
            &&& answers.generation_after == Some(grant.generation)
        }),
{
}

/// A user is granted the hardware exactly where it is not root, owns the session in the
/// foreground of the seat, and nothing changed while the session manager was asked.
pub proof fn law_a_user_is_granted_the_hardware_in_the_foreground_session(
    uid: u32,
    seat: Seq<char>,
    answers: OwnershipAnswers,
)
    ensures
        answers.refusal(uid) is None <==> {
            &&& uid != 0
            &&& answers.generation_before is Some
            &&& answers.generation_after == answers.generation_before
            &&& answers.active matches Some(Some(active)) && active.uid == uid
        },
        answers.refusal(uid) is None ==> ({
            let grant = answers.grant(uid, seat);
            &&& grant.session_id == answers.active->0->0.id@
            &&& grant.seat == seat
            &&& grant.uid == uid
            &&& answers.generation_after == Some(grant.generation)
        }),
{
}

/// A refusal of a caller names something that is wrong.
pub proof fn law_a_refusal_of_a_caller_names_what_is_wrong(
    peer: PeerCredentials,
    answers: CallerAnswers,
)
    ensures
        match answers.refusal(peer) {
            None => true,
            Some(Refusal::RootApply) => peer.uid == 0,
            Some(Refusal::Generation) => peer.uid != 0 && (answers.generation_before is None
                || answers.generation_after is None),
            Some(Refusal::SessionLookup) => peer.uid != 0 && answers.session is None,
            Some(Refusal::NoSession) => peer.uid != 0 && answers.session matches Some(None),
            Some(Refusal::SessionOwner) => answers.session matches Some(Some(session))
                && session.uid != peer.uid,
            Some(Refusal::Remote) => answers.session matches Some(Some(session)) && session.uid
                == peer.uid && session.remote,
            Some(Refusal::NoSeat) => answers.session matches Some(Some(session))
                && !session.remote && session.seat is None,
            Some(Refusal::Inactive) => answers.session matches Some(Some(session))
                && session.seat is Some && !session.active,
            Some(Refusal::ActiveLookup) => answers.session matches Some(Some(session))
                && session.active && answers.active is None,
            Some(Refusal::NotActiveSession) => answers.session matches Some(Some(session)) && (
            answers.active matches Some(found) && (found matches Some(active) ==> active.id@
                != session.id@ || active.uid != peer.uid)),
            Some(Refusal::SessionChanged) => answers.generation_before is Some
                && answers.generation_after is Some && answers.generation_before
                != answers.generation_after,
            Some(_) => false,
        },
{
}

/// A refusal of an owner names something that is wrong.
pub proof fn law_a_refusal_of_an_owner_names_what_is_wrong(uid: u32, answers: OwnershipAnswers)
    ensures
        match answers.refusal(uid) {
            None => true,
            Some(Refusal::RootWorker) => uid == 0,
            Some(Refusal::Generation) => uid != 0 && (answers.generation_before is None
                || answers.generation_after is None),
            Some(Refusal::ActiveLookup) => uid != 0 && answers.active is None,
            Some(Refusal::NoActiveUserSession) => uid != 0 && answers.active matches Some(None),
            Some(Refusal::WorkerNotOwnedByActiveUser) => answers.active matches Some(Some(active))
                && active.uid != uid,
            Some(Refusal::SessionChangedOwnership) => answers.generation_before is Some
                && answers.generation_after is Some && answers.generation_before
                != answers.generation_after,
            Some(_) => false,
        },
{
}

/// A grant stands exactly while the same user is granted the hardware again, in the same
/// session and the same generation.
pub proof fn law_a_grant_stands_while_nothing_changes(
    uid: u32,
    grant: AuthorizationGrant,
    answers: OwnershipAnswers,
)
    ensures
        grant_error(uid, grant, answers) is None <==> {
            &&& uid != 0
            &&& grant@.uid == uid
            &&& answers.generation_before == Some(grant@.generation)
            &&& answers.generation_after == Some(grant@.generation)
            &&& answers.active matches Some(Some(active)) && active.uid == uid && active.id@
                == grant@.session_id
        },
        answers.refusal(uid) is Some ==> grant_error(uid, grant, answers) == answers.refusal(uid),
        answers.refusal(uid) is None && grant_error(uid, grant, answers) is Some ==> grant_error(
            uid,
            grant,
            answers,
        ) == Some(Refusal::WorkerSessionChanged),
{
    if grant_error(uid, grant, answers) is Some && answers.refusal(uid) is None {
        let again = answers.grant(uid, grant@.seat);
        if again.session_id == grant@.session_id && again.uid == grant@.uid && again.generation
            == grant@.generation {
            assert(again == grant@);
        }
    }
}

/// Exactly the refusals that pass when the right session comes to the foreground ask the
/// supervisor to wait. Every other refusal is an error.
pub proof fn law_a_supervisor_waits_for_its_session(refusal: Refusal)
    ensures
        refusal_status(refusal) == (match refusal {
            Refusal::NoActiveUserSession => 3u8,
            Refusal::WorkerNotOwnedByActiveUser => 3,
            Refusal::SessionChangedOwnership => 3,
            Refusal::WorkerSessionChanged => 3,
            _ => 1,
        }),
{
}

/// Every refusal has its own words, and those about the foreground of a seat name it.
pub proof fn law_a_refusal_has_its_words(seat: Seq<char>)
    ensures
        refusal_text(Refusal::RootWorker, seat) == "root is not authorized to own Sliver workers"@,
        refusal_text(Refusal::RootApply, seat)
            == "root is not authorized to apply Sliver configurations"@,
        refusal_text(Refusal::Generation, seat) == "reading the logind session generation"@,
        refusal_text(Refusal::ActiveLookup, seat)
            == "looking up the active logind session on "@ + seat,
        refusal_text(Refusal::SessionLookup, seat) == "looking up the caller's logind session"@,
        refusal_text(Refusal::NoActiveUserSession, seat) == "no local user session is active"@,
        refusal_text(Refusal::WorkerNotOwnedByActiveUser, seat)
            == "worker is not owned by the active user"@,
        refusal_text(Refusal::SessionChangedOwnership, seat)
            == "session changed while checking worker ownership"@,
        refusal_text(Refusal::WorkerSessionChanged, seat)
            == "worker session changed during broker request"@,
        refusal_text(Refusal::NoSession, seat) == "caller does not belong to a logind session"@,
        refusal_text(Refusal::SessionOwner, seat)
            == "kernel peer UID does not own the caller's logind session"@,
        refusal_text(Refusal::Remote, seat)
            == "remote sessions are not authorized to apply Sliver configurations"@,
        refusal_text(Refusal::NoSeat, seat) == "caller session is not attached to a local seat"@,
        refusal_text(Refusal::Inactive, seat) == "caller logind session is inactive"@,
        refusal_text(Refusal::NotActiveSession, seat)
            == "caller session is not the active session on seat "@ + seat,
        refusal_text(Refusal::SessionChanged, seat)
            == "session changed while checking authorization"@,
        refusal_text(Refusal::CallerSessionChanged, seat)
            == "caller session changed during config apply"@,
{
}

/// A process is taken for a supervisor where a line of its control group ends in the unit
/// of the supervisor, whatever stands before it and on other lines.
pub proof fn law_a_line_that_ends_in_the_unit_is_a_supervisor(before: Seq<u8>, after: Seq<u8>)
    ensures
        in_supervisor_unit(before + encode_utf8("/sliver-supervisor.service"@)),
        in_supervisor_unit(
            before + encode_utf8("/sliver-supervisor.service"@) + seq![0x0au8] + after,
        ),
        in_supervisor_unit(
            before + encode_utf8("/sliver-supervisor.service"@) + seq![0x0du8, 0x0au8] + after,
        ),
{
    let unit = encode_utf8("/sliver-supervisor.service"@);
    let end = (before.len() + unit.len()) as int;
    let first = before + unit;
    let second = before + unit + seq![0x0au8] + after;
    let third = before + unit + seq![0x0du8, 0x0au8] + after;
    assert(first.subrange(end - unit.len(), end) =~= unit);
    assert(second.subrange(end - unit.len(), end) =~= unit);
    assert(third.subrange(end - unit.len(), end) =~= unit);
    assert(line_end(first, end));
    assert(second[end] == 0x0a);
    assert(line_end(second, end));
    assert(third[end] == 0x0d && third[end + 1] == 0x0a);
    assert(line_end(third, end));
}

/// A process whose control group does not hold the unit, with the end of a line behind it,
/// is no supervisor.
pub proof fn law_without_the_unit_there_is_no_supervisor(cgroup: Seq<u8>)
    requires
        forall|i: int|
            0 <= i <= cgroup.len() - encode_utf8("/sliver-supervisor.service"@).len()
                && #[trigger] cgroup.subrange(
                i,
                i + encode_utf8("/sliver-supervisor.service"@).len(),
            ) == encode_utf8("/sliver-supervisor.service"@) ==> ({
                let end = i + encode_utf8("/sliver-supervisor.service"@).len();
                &&& end < cgroup.len()
                &&& cgroup[end] != 0x0a
                &&& !(cgroup[end] == 0x0d && end + 1 < cgroup.len() && cgroup[end + 1] == 0x0a)
            }),
    ensures
        !in_supervisor_unit(cgroup),
{
    let unit = supervisor_unit();
    if in_supervisor_unit(cgroup) {
        let end = choose|end: int|
            unit.len() <= end <= cgroup.len() && #[trigger] line_end(cgroup, end)
                && cgroup.subrange(end - unit.len(), end) == unit;
        let i = end - unit.len();
        assert(cgroup.subrange(i, i + unit.len()) == unit);
        assert(false);
    }
}

/// A capability is its own flag: in the set of what is missing, the display comes first.
pub proof fn law_a_capability_is_its_own_flag(s: CapabilitySet, member: bool)
    ensures
        s.with(HardwareCapability::Display, member) == (CapabilitySet { display: member, ..s }),
        s.with(HardwareCapability::Backlight, member) == (CapabilitySet { backlight: member, ..s }),
        s.first() is None <==> !s.display && !s.backlight,
        s.first() == Some(HardwareCapability::Display) <==> s.display,
        s.first() == Some(HardwareCapability::Backlight) <==> s.backlight && !s.display,
        !CapabilitySet::none().display && !CapabilitySet::none().backlight,
        CapabilitySet::all().display && CapabilitySet::all().backlight,
{
}

/// What the client holds on to while the hardware comes and goes: its connection, its
/// claim, and what it knows of a revocation.
pub proof fn law_events_leave_the_claim_alone(client: BrokerHardware, event: HardwareEvent)
    ensures
        ({
            let after = client.after_event(event);
            &&& after.connected == client.connected
            &&& after.claimed == client.claimed
            &&& after.session_revoked == client.session_revoked
            &&& after.connection_lost == client.connection_lost
            &&& after.revoked_reason == client.revoked_reason
            &&& (event is Device || event is Capability) ==> after.input_state
                == client.input_state
            &&& !(event is Device || event is Capability) ==> after.input_state == input_after(
                client.input_state,
                event,
            ) && after.missing_capabilities == client.missing_capabilities
                && after.hardware_available == client.hardware_available
                && after.unavailable_capability == client.unavailable_capability
        }),
{
}

/// A device that goes takes everything with it, and one that comes brings everything back.
/// A part that goes or comes leaves the other as it was, and the hardware is available
/// exactly where no part is missing. The part that is named as missing is the one that
/// went, or after a return the first that is still missing.
pub proof fn law_parts_are_missing_one_by_one(
    client: BrokerHardware,
    capability: HardwareCapability,
    present: bool,
)
    ensures
        ({
            let after = client.after_event(HardwareEvent::Device { present });
            &&& after.hardware_available == present
            &&& after.missing_capabilities.display == !present
            &&& after.missing_capabilities.backlight == !present
            &&& present ==> after.unavailable_capability is None
            &&& !present ==> after.unavailable_capability == client.unavailable_capability
        }),
        ({
            let after = client.after_event(HardwareEvent::Capability { capability, present });
            let missing = after.missing_capabilities;
            &&& capability is Display ==> missing.display == !present && missing.backlight
                == client.missing_capabilities.backlight
            &&& capability is Backlight ==> missing.backlight == !present && missing.display
                == client.missing_capabilities.display
            &&& after.hardware_available == (!missing.display && !missing.backlight)
            &&& !present ==> after.unavailable_capability == Some(capability)
            &&& present ==> after.unavailable_capability == (if missing.display {
                Some(HardwareCapability::Display)
            } else if missing.backlight {
                Some(HardwareCapability::Backlight)
            } else {
                None
            })
        }),
{
}

/// After a batch of events a part is missing exactly where the last event about it, or
/// about the whole device, said that it is gone.
pub proof fn law_a_part_is_missing_where_it_was_last_said_to_be(
    client: BrokerHardware,
    events: Seq<HardwareEvent>,
    i: int,
    display: bool,
    present: bool,
)
    requires
        0 <= i < events.len(),
        events[i] == (HardwareEvent::Device { present }) || events[i] == (
        HardwareEvent::Capability {
            capability: if display {
                HardwareCapability::Display
            } else {
                HardwareCapability::Backlight
            },
            present,
        }),
        forall|j: int|
            i < j < events.len() ==> !(#[trigger] events[j] is Device) && !(events[j] matches
                HardwareEvent::Capability { capability, .. } && (capability is Display)
                == display),
    ensures
        display ==> client.after_events(events).missing_capabilities.display == !present,
        !display ==> client.after_events(events).missing_capabilities.backlight == !present,
    decreases events.len(),
{
    let less = events.drop_last();
    if i < events.len() - 1 {
        assert(less[i] == events[i]);
        assert forall|j: int| i < j < less.len() implies !(#[trigger] less[j] is Device) && !(
        less[j] matches HardwareEvent::Capability { capability, .. } && (capability is Display)
            == display) by {
            assert(less[j] == events[j]);
        }
        law_a_part_is_missing_where_it_was_last_said_to_be(client, less, i, display, present);
        assert(events.last() == events[events.len() - 1]);
    }
}

/// Only a revocation, missing hardware and a broker that is gone change what the client
/// knows. A broker that is gone takes the connection and the claim with it, and nothing
/// else that was known.
pub proof fn law_only_bad_news_changes_the_client(client: BrokerHardware, exchange: Exchange)
    ensures
        exchange matches Exchange::Message(m) ==> (m@.len() == 0 || (m@[0] != 2 && m@[0] != 4)
            ==> client.after_exchange(exchange) == client),
        exchange matches Exchange::Failed { disconnect } ==> (!disconnect
            ==> client.after_exchange(exchange) == client),
        exchange matches Exchange::Failed { disconnect } ==> (disconnect
            ==> client.after_exchange(exchange) == (BrokerHardware {
            connected: false,
            claimed: false,
            hardware_available: false,
            connection_lost: true,
            ..client
        })),
{
}

/// The answer to a claim that is neither a grant nor a request to wait for hardware
/// changes nothing.
pub proof fn law_a_refused_claim_changes_nothing(client: BrokerHardware, response: Seq<u8>)
    requires
        response.len() == 0 || (response[0] != 0 && response[0] != 5),
    ensures
        client.after_claim(response) == client,
{
}

/// The first byte behind a revocation says whether another session took over or the user
/// logged out, and the first byte behind missing hardware says which part is missing.
pub proof fn law_reasons_and_parts_are_told_by_a_byte(body: Seq<u8>)
    ensures
        revocation_reason(body) == Some(StopReason::Replaced) <==> body.len() > 0 && body[0] == 0,
        revocation_reason(body) == Some(StopReason::Logout) <==> body.len() > 0 && body[0] == 1,
        revocation_reason(body) != Some(StopReason::Shutdown),
        named_capability(body) == Some(HardwareCapability::Display) <==> body.len() > 0 && body[0]
            == 0,
        named_capability(body) == Some(HardwareCapability::Backlight) <==> body.len() > 0
            && body[0] == 1,
{
}

/// A failure is reported as the part that failed, or where none is known the one that was
/// asked for, and behind it the words of the failure.
pub proof fn law_a_failure_names_its_part(
    capability: Option<HardwareCapability>,
    otherwise: HardwareCapability,
    text: Seq<u8>,
)
    ensures
        ({
            let body = failure_body(capability, otherwise, text);
            let named = match capability {
                Some(c) => c,
                None => otherwise,
            };
            &&& body.len() == text.len() + 1
            &&& body[0] == (if named is Display { 0u8 } else { 1u8 })
            &&& body.skip(1) == text
        }),
{
    assert(failure_body(capability, otherwise, text).skip(1) =~= text);
}

/// A revocation says whether another session took over, and cancels every contact that
/// was down, in their order, with everything but the phase as it was last reported.
pub proof fn law_a_revocation_cancels_every_contact(
    session_active: bool,
    contacts: Seq<TouchEvent>,
    i: int,
)
    requires
        0 <= i < contacts.len(),
    ensures
        revocation_body(session_active, contacts)[0] == (if session_active { 0u8 } else { 1u8 }),
        revocation_body(session_active, contacts).skip(1) == events_payload(
            cancellations(contacts),
        ),
        cancellations(contacts).len() == contacts.len(),
        cancellations(contacts)[i] == HardwareEvent::Touch(
            TouchEvent { phase: TouchPhase::Cancel, ..contacts[i] },
        ),
        cancelled(contacts[i]).phase == TouchPhase::Cancel,
{
    assert(revocation_body(session_active, contacts).skip(1) =~= events_payload(
        cancellations(contacts),
    ));
}

/// A poll waits for as long as it asks, but never longer than fifty milliseconds.
pub proof fn law_a_poll_waits_for_fifty_milliseconds_at_most(millis: nat)
    ensures
        clamped(millis) <= 50,
        clamped(millis) <= millis,
        clamped(millis) == millis || clamped(millis) == 50,
{
}

/// The events of a poll are the ones that happened, in order. Hardware that came back
/// during the poll is reported, by an event of its own where no other says so, and nothing
/// is added otherwise.
pub proof fn law_returning_hardware_is_reported(
    events: Seq<HardwareEvent>,
    was_available: bool,
    available: bool,
)
    ensures
        ({
            let sent = polled_events(events, was_available, available);
            &&& sent.len() == events.len() || sent.len() == events.len() + 1
            &&& sent.take(events.len() as int) == events
            &&& !was_available && available ==> exists|i: int|
                0 <= i < sent.len() && (#[trigger] sent[i] == (HardwareEvent::Device {
                    present: true,
                }) || (sent[i] matches HardwareEvent::Capability { present, .. } && present))
            &&& was_available || !available ==> sent == events
            &&& sent.len() == events.len() + 1 ==> sent.last() == (HardwareEvent::Device {
                present: true,
            })
        }),
        forall|i: int|
            0 <= i < events.len() && (#[trigger] events[i] == (HardwareEvent::Device {
                present: true,
            }) || (events[i] matches HardwareEvent::Capability { present, .. } && present))
                ==> polled_events(events, was_available, available) == events,
{
    let sent = polled_events(events, was_available, available);
    assert(sent.take(events.len() as int) =~= events);
    if !was_available && available {
        if reports_return(events) {
            let i = choose|i: int|
                0 <= i < events.len() && match #[trigger] events[i] {
                    HardwareEvent::Device { present } => present,
                    HardwareEvent::Capability { present, .. } => present,
                    _ => false,
                };
            assert(sent[i] == events[i]);
        } else {
            assert(sent[events.len() as int] == (HardwareEvent::Device { present: true }));
        }
    }
}

/// A client that lost the hardware may bring up keys that it holds, and nothing else: one
/// press, or one release of a key that it does not hold, is too much.
pub proof fn law_only_held_keys_are_brought_up(
    events: Seq<SyntheticKeyEvent>,
    event: SyntheticKeyEvent,
    held: Seq<OutputKey>,
)
    ensures
        only_releases(Seq::empty(), held),
        only_releases(events.push(event), held) <==> only_releases(events, held) && !event.active
            && held.contains(event.key),
{
    let more = events.push(event);
    assert(more[events.len() as int] == event);
    assert(forall|i: int| 0 <= i < events.len() ==> #[trigger] more[i] == events[i]);
    if only_releases(more, held) {
        assert forall|i: int| 0 <= i < events.len() implies !(#[trigger] events[i]).active
            && held.contains(events[i].key) by {
            assert(more[i] == events[i]);
        }
    }
}

proof fn lemma_one_event(keys: Seq<OutputKey>, event: SyntheticKeyEvent, key: OutputKey)
    requires
        keys.no_duplicates(),
    ensures
        keys_after(keys, event).no_duplicates(),
        keys_after(keys, event).contains(key) == (if event.key == key {
            event.active
        } else {
            keys.contains(key)
        }),
{
    let after = keys_after(keys, event);
    if event.active && !keys.contains(event.key) {
        assert(after[keys.len() as int] == event.key);
        if keys.contains(key) {
            let i = keys.index_of(key);
            assert(after[i] == key);
        }
        if after.contains(key) && key != event.key {
            let i = after.index_of(key);
            assert(keys[i] == key);
        }
    }
    if !event.active && keys.contains(event.key) {
        let at = keys.index_of(event.key);
        if keys.contains(key) && key != event.key {
            let i = keys.index_of(key);
            if i < at {
                assert(after[i] == key);
            } else {
                assert(after[i - 1] == key);
            }
        }
        if after.contains(key) {
            let i = after.index_of(key);
            if i < at {
                assert(keys[i] == key);
            } else {
                assert(keys[i + 1] == key);
            }
        }
    }
}

proof fn lemma_no_duplicates(keys: Seq<OutputKey>, events: Seq<SyntheticKeyEvent>)
    requires
        keys.no_duplicates(),
    ensures
        keys_after_all(keys, events).no_duplicates(),
    decreases events.len(),
{
    if events.len() > 0 {
        lemma_no_duplicates(keys, events.drop_last());
        lemma_one_event(
            keys_after_all(keys, events.drop_last()),
            events.last(),
            events.last().key,
        );
    }
}

/// A key is held exactly where the last event about it was a press.
pub proof fn law_a_key_is_held_where_it_was_last_pressed(
    keys: Seq<OutputKey>,
    events: Seq<SyntheticKeyEvent>,
    i: int,
)
    requires
        keys.no_duplicates(),
        0 <= i < events.len(),
        forall|j: int| i < j < events.len() ==> (#[trigger] events[j]).key != events[i].key,
    ensures
        keys_after_all(keys, events).contains(events[i].key) == events[i].active,
    decreases events.len(),
{
    let less = events.drop_last();
    lemma_no_duplicates(keys, less);
    lemma_one_event(keys_after_all(keys, less), events.last(), events[i].key);
    assert(events.last() == events[events.len() - 1]);
    if i < events.len() - 1 {
        assert(less[i] == events[i]);
        assert forall|j: int| i < j < less.len() implies (#[trigger] less[j]).key
            != less[i].key by {
            assert(less[j] == events[j]);
        }
        law_a_key_is_held_where_it_was_last_pressed(keys, less, i);
    }
}

/// A key without an event stays as it was. A key that goes down stands behind those that
/// are held, and one that comes up leaves the others in their order.
pub proof fn law_held_keys_keep_their_order(
    before: Seq<OutputKey>,
    key: OutputKey,
    behind: Seq<OutputKey>,
)
    requires
        (before + seq![key] + behind).no_duplicates(),
    ensures
        keys_after(before, SyntheticKeyEvent { key, active: true }) == before.push(key),
        keys_after(
            before + seq![key] + behind,
            SyntheticKeyEvent { key, active: false },
        ) == before + behind,
        keys_after(
            before + seq![key] + behind,
            SyntheticKeyEvent { key, active: true },
        ) == before + seq![key] + behind,
        keys_after(before, SyntheticKeyEvent { key, active: false }) == before,
{
    let all = before + seq![key] + behind;
    let at = before.len() as int;
    assert(all[at] == key);
    assert(!before.contains(key)) by {
        if before.contains(key) {
            let i = before.index_of(key);
            assert(all[i] == key);
        }
    }
    assert(all.index_of(key) == at);
    assert(all.remove(at) =~= before + behind);
}

/// A contact is down exactly where the last report about it was not that it was lifted or
/// cancelled, and then it is as that report said.
pub proof fn law_a_contact_is_as_it_was_last_reported(
    contacts: Map<u32, TouchEvent>,
    events: Seq<HardwareEvent>,
    i: int,
    touch: TouchEvent,
)
    requires
        0 <= i < events.len(),
        events[i] == HardwareEvent::Touch(touch),
        forall|j: int|
            i < j < events.len() ==> !(#[trigger] events[j] matches HardwareEvent::Touch(later)
                && later.id == touch.id),
    ensures
        ({
            let after = contacts_after_all(contacts, events);
            let down = touch.phase is Down || touch.phase is Move;
            &&& after.dom().contains(touch.id) == down
            &&& down ==> after[touch.id] == touch
        }),
    decreases events.len(),
{
    let less = events.drop_last();
    if i < events.len() - 1 {
        assert(less[i] == events[i]);
        assert forall|j: int| i < j < less.len() implies !(#[trigger] less[j] matches
            HardwareEvent::Touch(later) && later.id == touch.id) by {
            assert(less[j] == events[j]);
        }
        law_a_contact_is_as_it_was_last_reported(contacts, less, i, touch);
        assert(events.last() == events[events.len() - 1]);
    }
}

/// A contact about which nothing is reported stays as it was.
pub proof fn law_a_contact_stays_without_a_report(
    contacts: Map<u32, TouchEvent>,
    events: Seq<HardwareEvent>,
    id: u32,
)
    requires
        forall|j: int|
            0 <= j < events.len() ==> !(#[trigger] events[j] matches HardwareEvent::Touch(touch)
                && touch.id == id),
    ensures
        contacts_after_all(contacts, events).dom().contains(id) == contacts.dom().contains(id),
        contacts.dom().contains(id) ==> contacts_after_all(contacts, events)[id] == contacts[id],
    decreases events.len(),
{
    if events.len() > 0 {
        let less = events.drop_last();
        assert forall|j: int| 0 <= j < less.len() implies !(#[trigger] less[j] matches
            HardwareEvent::Touch(touch) && touch.id == id) by {
            assert(less[j] == events[j]);
        }
        law_a_contact_stays_without_a_report(contacts, less, id);
        assert(events.last() == events[events.len() - 1]);
    }
}

/// The work of a request is told by its first byte, and the work decides what the connection
/// waits for: events, keys, something that is being done, the next message, or nothing.
pub proof fn law_a_request_is_told_by_its_first_byte(request: Seq<u8>, work: Work)
    requires
        request.len() > 0,
        asks_for(request, work),
    ensures
        request[0] == (match work {
            Work::Poll { .. } => 2u8,
            Work::Present(_) => 3,
            Work::Answer(_) => 4,
            Work::EmitKeys(_) => 5,
            Work::GetBacklight => 6,
            Work::SetBacklight(_) => 7,
            Work::Finish(_) => 8,
        }),
        work matches Work::Poll { millis } ==> request.len() == 9 && millis <= 50 && millis
            <= be_value(request.skip(1)) && (millis == 50 || millis == be_value(request.skip(1))),
        work matches Work::SetBacklight(level) ==> request.len() == 9 && level.bits == be_value(
            request.skip(1),
        ),
        work is Answer || work is Finish ==> request.len() == 1,
        work matches Work::Answer(reply) ==> reply.status == 0 && reply.body@.len() == 0,
        work matches Work::Finish(reply) ==> reply.status == 0 && reply.body@.len() == 0,
        work is Poll ==> work_stage(work) is Polling,
        work is EmitKeys ==> work_stage(work) is Emitting,
        work is Present || work is GetBacklight || work is SetBacklight ==> work_stage(
            work,
        ) is Working,
        work is Answer ==> work_stage(work) is Ready,
        work is Finish ==> work_stage(work) is Ended,
{
}

/// A request that asks for no work is refused for a reason that is true of it.
pub proof fn law_a_wrong_request_is_refused_by_what_is_wrong(request: Seq<u8>, e: ServerError)
    requires
        request.len() > 0,
        asks_wrongly(request, e),
    ensures
        match e {
            ServerError::PollMalformed => request[0] == 2 && request.len() != 9,
            ServerError::ConfirmPayload => request[0] == 4 && request.len() > 1,
            ServerError::BacklightMalformed => request[0] == 7 && request.len() != 9,
            ServerError::ReleasePayload => request[0] == 8 && request.len() > 1,
            ServerError::UnknownRequest(b) => b == request[0] && (b < 2 || b > 8),
            ServerError::Wire(_) => request[0] == 3 || request[0] == 5,
            _ => false,
        },
{
}

/// A refusal is answered with its status and its words.
pub proof fn law_a_refusal_is_answered_with_its_words(
    reply: Reply,
    refusal: Refusal,
    seat: Seq<char>,
)
    ensures
        refuses(reply, refusal, seat) <==> reply.status == refusal_status(refusal) && reply.body@
            == encode_utf8(refusal_text(refusal, seat)),
{
}

/// A connection is gone where it ended, broke or was reset, and by nothing else.
pub proof fn law_a_connection_is_gone_where_it_broke(cause: FailureCause)
    ensures
        is_gone(cause) <==> cause is UnexpectedEof || cause is BrokenPipe || cause
            is ConnectionReset,
{
}

/// The contacts that are down are found by their identities, each as it was last reported.
pub proof fn law_contacts_are_found_by_identity(s: Seq<TouchEvent>, i: int, id: u32)
    requires
        by_identity(s),
        0 <= i < s.len(),
    ensures
        contact_map(s).dom().contains(s[i].id),
        contact_map(s)[s[i].id] == s[i],
        contact_map(s).dom().contains(id) ==> exists|j: int|
            0 <= j < s.len() && #[trigger] s[j].id == id,
{
    let found = choose|j: int| 0 <= j < s.len() && #[trigger] s[j].id == s[i].id;
    assert(s[i].id == s[i].id);
    if found < i {
        assert(s[found].id < s[i].id);
    } else if i < found {
        assert(s[i].id < s[found].id);
    }
}

/// Two reports of a contact are the same exactly where every part of them is, and numbers are
/// compared as numbers.
pub proof fn law_reports_are_the_same_in_every_part(a: TouchEvent, b: TouchEvent)
    ensures
        a.same_event(b) <==> {
            &&& a.phase == b.phase && a.id == b.id && a.modifiers == b.modifiers
            &&& a.time.same_number(b.time) && a.x.same_number(b.x) && a.y.same_number(b.y)
            &&& match (a.pressure, b.pressure) {
                (None, None) => true,
                (Some(p), Some(q)) => p.same_number(q),
                _ => false,
            }
            &&& match (a.width, b.width) {
                (None, None) => true,
                (Some(p), Some(q)) => p.same_number(q),
                _ => false,
            }
            &&& match (a.height, b.height) {
                (None, None) => true,
                (Some(p), Some(q)) => p.same_number(q),
                _ => false,
            }
        },
{
}

/// Two answers of the session manager name the same session where both name none, or the same
/// one of the same user.
pub proof fn law_sessions_are_the_same_by_name_and_user(
    a: Option<ActiveSession>,
    b: Option<ActiveSession>,
)
    ensures
        same_session(a, b) <==> (a is None && b is None) || (a matches Some(x) && (b matches Some(y)
            && x.id@ == y.id@ && x.uid == y.uid)),
{
}

/// Why a request failed is told by the status of the answer: words for an error, the reason of
/// a revocation, the missing part with what is said of it, and a status that is unknown by
/// itself. An answer that says yes is no failure.
pub proof fn law_a_failed_request_says_why(e: ClientError, m: Vec<u8>, disconnect: bool)
    ensures
        exchange_error(e, Exchange::Failed { disconnect }) <==> e is Connection,
        m@.len() == 0 ==> (exchange_error(e, Exchange::Message(m)) <==> e is EmptyResponse),
        m@.len() > 0 && m@[0] == 0 ==> !exchange_error(e, Exchange::Message(m)),
        m@.len() > 0 && m@[0] == 1 ==> (exchange_error(e, Exchange::Message(m)) <==> (e matches
            ClientError::Refused(text) && text@ == m@.skip(1))),
        m@.len() > 0 && m@[0] == 2 ==> (exchange_error(e, Exchange::Message(m)) <==> (match e {
            ClientError::RevocationWithoutReason => m@.len() == 1,
            ClientError::SessionRevoked => m@.len() > 1 && m@[1] <= 1,
            ClientError::UnknownRevocation(b) => m@.len() > 1 && m@[1] > 1 && b == m@[1],
            _ => false,
        })),
        m@.len() > 0 && m@[0] == 4 ==> (exchange_error(e, Exchange::Message(m)) <==> (e matches
            ClientError::Unavailable { capability, detail } && capability == named_capability(
            m@.skip(1),
        ) && detail@ == (if m@.len() > 1 {
            m@.skip(2)
        } else {
            Seq::<u8>::empty()
        }))),
        m@.len() > 0 && (m@[0] == 3 || m@[0] > 4) ==> (exchange_error(e, Exchange::Message(m))
            <==> (e matches ClientError::UnknownStatus(b) && b == m@[0])),
{
    if m@.len() > 1 {
        assert(m@.skip(1)[0] == m@[1]);
        assert(m@.skip(1).skip(1) =~= m@.skip(2));
    } else if m@.len() == 1 {
        assert(m@.skip(1) =~= Seq::<u8>::empty());
    }
}

/// A client that was never connected owns nothing, knows of no revocation, and takes the
/// hardware for available with nothing held and nothing missing.
pub proof fn law_a_new_client_owns_nothing()
    ensures
        ({
            let client = BrokerHardware::initial();
            &&& !client.connected && !client.claimed && !client.connection_lost
            &&& !client.session_revoked && client.revoked_reason is None
            &&& client.hardware_available && client.unavailable_capability is None
            &&& !client.missing_capabilities.display && !client.missing_capabilities.backlight
            &&& !client.input_state.fn_active
            &&& client.input_state.modifiers == ModifierState::none()
        }),
{
}

/// A claim that has to wait for hardware leaves the client without it, and names the part
/// where the broker does. Nothing else changes.
pub proof fn law_a_claim_that_waits_names_what_is_missing(client: BrokerHardware, response: Seq<u8>)
    requires
        response.len() > 0,
        response[0] == 5,
    ensures
        ({
            let after = client.after_claim(response);
            let display = response.len() > 1 && response[1] == 0;
            let backlight = response.len() > 1 && response[1] == 1;
            &&& !after.hardware_available
            &&& after.missing_capabilities.display == (client.missing_capabilities.display
                || display)
            &&& after.missing_capabilities.backlight == (client.missing_capabilities.backlight
                || backlight)
            &&& after.unavailable_capability == (if display {
                Some(HardwareCapability::Display)
            } else if backlight {
                Some(HardwareCapability::Backlight)
            } else {
                None
            })
            &&& after.claimed == client.claimed && after.connected == client.connected
            &&& after.input_state == client.input_state
            &&& after.session_revoked == client.session_revoked
            &&& after.revoked_reason == client.revoked_reason
            &&& after.connection_lost == client.connection_lost
        }),
{
    if response.len() > 1 {
        assert(response.skip(1)[0] == response[1]);
    }
}

/// A session that was taken as the same but for its acknowledgement holds the same keys and
/// contacts, and is revoked or not as before.
pub proof fn law_an_acknowledgement_changes_nothing_else(a: ClientSession, b: ClientSession)
    ensures
        a.same_but_acknowledged(b) <==> a.held_keys == b.held_keys && a.contacts == b.contacts
            && a.session_revoked == b.session_revoked,
{
}

} // verus!
