//! What the two sides of a broker connection understand of each other.
use vstd::prelude::*;

use crate::broker_client::{detail_of, BrokerHardware, CapabilitySet, Exchange, StopReason};
use crate::broker_connection::asks_for;
use crate::broker_server::{clamped, failure_body, revocation_body, Work};
use crate::broker_wire::{
    claim_payload, events_payload, frame_payload, keys_payload, law_claim_round_trip,
    law_events_round_trip, law_frame_round_trip, law_keys_round_trip, payload_events, WireError,
    EMIT_KEYS, HARDWARE_UNAVAILABLE, MAX_BATCH, OK, POLL, PRESENT, SESSION_REVOKED,
    SET_BACKLIGHT,
};
use crate::bytes::{be_bytes, lemma_be_bytes_len, lemma_be_round_trip, lemma_pow256_values};
use crate::hardware::{
    HardwareCapability, HardwareEvent, InputState, LogicalFrame, RealBits, SyntheticKeyEvent,
    TouchEvent,
};
use crate::held_input::cancellations;

verus! {

/// A claim that is granted is taken in as it was granted: the client owns the hardware,
/// knows the state of the input, and misses nothing.
pub proof fn law_a_granted_claim_is_taken_in(
    client: BrokerHardware,
    input: InputState,
    level: RealBits,
)
    ensures
        client.after_claim(seq![OK] + claim_payload(input, level)) == (BrokerHardware {
            connected: true,
            input_state: input,
            claimed: true,
            hardware_available: true,
            connection_lost: false,
            missing_capabilities: CapabilitySet::none(),
            unavailable_capability: None,
            ..client
        }),
{
    let response = seq![OK] + claim_payload(input, level);
    assert(response.skip(1) =~= claim_payload(input, level));
    law_claim_round_trip(input, level);
}

/// A client whose session was revoked learns why, and which contacts were cancelled.
pub proof fn law_a_revocation_says_why(
    client: BrokerHardware,
    message: Vec<u8>,
    session_active: bool,
    contacts: Seq<TouchEvent>,
)
    requires
        message@ == seq![SESSION_REVOKED] + revocation_body(session_active, contacts),
        contacts.len() <= MAX_BATCH,
    ensures
        client.after_exchange(Exchange::Message(message)) == (BrokerHardware {
            session_revoked: true,
            revoked_reason: Some(
                if session_active {
                    StopReason::Replaced
                } else {
                    StopReason::Logout
                },
            ),
            ..client
        }),
        payload_events(message@.skip(2)) == Ok::<Seq<HardwareEvent>, WireError>(
            cancellations(contacts),
        ),
{
    let body = revocation_body(session_active, contacts);
    assert(message@.skip(1) =~= body);
    assert(message@.skip(2) =~= body.skip(1));
    assert(body.skip(1) =~= events_payload(cancellations(contacts)));
    law_events_round_trip(cancellations(contacts));
}

/// A client whose request met missing hardware learns which and what was said of it.
pub proof fn law_missing_hardware_is_named(
    client: BrokerHardware,
    message: Vec<u8>,
    capability: HardwareCapability,
    text: Seq<u8>,
)
    requires
        message@ == seq![HARDWARE_UNAVAILABLE] + failure_body(
            Some(capability),
            HardwareCapability::Display,
            text,
        ),
    ensures
        client.after_exchange(Exchange::Message(message)) == (BrokerHardware {
            hardware_available: false,
            unavailable_capability: Some(capability),
            missing_capabilities: client.missing_capabilities.with(capability, true),
            ..client
        }),
        detail_of(message@.skip(1)) == text,
{
    let body = failure_body(Some(capability), HardwareCapability::Display, text);
    assert(message@.skip(1) =~= body);
    assert(body.skip(1) =~= text);
}

/// What a client asks for is the work that the broker does: the same frame, the same
/// keys, the same level, and a wait that the broker only ever shortens.
pub proof fn law_a_request_asks_for_its_work(
    frame: LogicalFrame,
    keys: Vec<SyntheticKeyEvent>,
    level: RealBits,
    millis: u64,
)
    requires
        frame@.width == 2008,
        frame@.height == 60,
        8032 <= frame@.stride <= u32::MAX,
        frame@.pixels.len() == frame@.stride * 60,
        keys@.len() <= MAX_BATCH,
    ensures
        asks_for(seq![PRESENT] + frame_payload(frame@), Work::Present(frame)),
        asks_for(seq![EMIT_KEYS] + keys_payload(keys@), Work::EmitKeys(keys)),
        asks_for(seq![SET_BACKLIGHT] + be_bytes(level.bits as nat, 8), Work::SetBacklight(level)),
        asks_for(
            seq![POLL] + be_bytes(millis as nat, 8),
            Work::Poll { millis: clamped(millis as nat) as u64 },
        ),
        clamped(millis as nat) <= millis,
{
    law_frame_round_trip(frame@);
    law_keys_round_trip(keys@);
    lemma_pow256_values();
    lemma_be_bytes_len(level.bits as nat, 8);
    lemma_be_round_trip(level.bits as nat, 8);
    lemma_be_bytes_len(millis as nat, 8);
    lemma_be_round_trip(millis as nat, 8);
    assert((seq![PRESENT] + frame_payload(frame@)).skip(1) =~= frame_payload(frame@));
    assert((seq![EMIT_KEYS] + keys_payload(keys@)).skip(1) =~= keys_payload(keys@));
    assert((seq![SET_BACKLIGHT] + be_bytes(level.bits as nat, 8)).skip(1) =~= be_bytes(
        level.bits as nat,
        8,
    ));
    assert((seq![POLL] + be_bytes(millis as nat, 8)).skip(1) =~= be_bytes(millis as nat, 8));
}

} // verus!
