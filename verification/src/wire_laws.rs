//! The bytes that the broker, its clients and the memory between them agree on.
use vstd::prelude::*;

use crate::broker_ipc::{message_in, sendable};
use crate::broker_wire::{
    claim_payload, events_payload, frame_payload, framed, keys_payload, payload_events,
    payload_frame, payload_keys, put_be32, put_be64, put_event, put_event_list, put_input,
    put_key, put_key_list, put_measure, put_modifiers, put_touch, put_u8, payload_claim,
    take_be32, take_event, take_flag, take_input, take_key, take_modifiers, take_touch_phase,
    take_u8, touch_phase_code, WireError, CLAIM, CONFIRM, EMIT_KEYS, ERROR, GET_BACKLIGHT,
    HARDWARE_UNAVAILABLE, LOGOUT_COMPLETE, OK, POLL, PRESENT, RELEASE, REVOKED_LOGOUT,
    REVOKED_REPLACED, SESSION_REVOKED, SET_BACKLIGHT, WAIT_FOR_HARDWARE, WAIT_FOR_SESSION,
};
use crate::bytes::{
    be_bytes, be_value, lemma_be_bytes_len, lemma_be_round_trip, lemma_pow256_values,
};
use crate::hardware::{
    modifier_at, FrameView, HardwareEvent, InputState, ModifierState, OutputKey, RealBits,
    SyntheticKeyEvent, TouchEvent, TouchPhase,
};

verus! {

/// The requests are numbered from one, and the answers, the reasons of a revocation and the
/// phases of a contact from zero.
pub proof fn law_messages_are_numbered()
    ensures
        CLAIM == 1 && POLL == 2 && PRESENT == 3 && CONFIRM == 4 && EMIT_KEYS == 5,
        GET_BACKLIGHT == 6 && SET_BACKLIGHT == 7 && RELEASE == 8 && LOGOUT_COMPLETE == 9,
        OK == 0 && ERROR == 1 && SESSION_REVOKED == 2 && WAIT_FOR_SESSION == 3,
        HARDWARE_UNAVAILABLE == 4 && WAIT_FOR_HARDWARE == 5,
        REVOKED_REPLACED == 0 && REVOKED_LOGOUT == 1,
        touch_phase_code(TouchPhase::Down) == 0,
        touch_phase_code(TouchPhase::Move) == 1,
        touch_phase_code(TouchPhase::Up) == 2,
        touch_phase_code(TouchPhase::Cancel) == 3,
{
}

/// A byte order: the highest of four bytes comes first.
pub proof fn law_words_are_written_with_the_highest_byte_first(a: u8, b: u8, c: u8, d: u8)
    ensures
        be_bytes((0x100_0000 * a + 0x1_0000 * b + 0x100 * c + d) as nat, 4) == seq![a, b, c, d],
        be_value(seq![a, b, c, d]) == 0x100_0000 * a + 0x1_0000 * b + 0x100 * c + d,
{
    let v = (0x100_0000 * a + 0x1_0000 * b + 0x100 * c + d) as nat;
    reveal_with_fuel(be_bytes, 5);
    assert(v / 256 == 0x1_0000 * a + 0x100 * b + c);
    assert(v / 256 / 256 == 0x100 * a + b);
    assert(v / 256 / 256 / 256 == a);
    assert(be_bytes(v, 4) =~= seq![a, b, c, d]);
    lemma_pow256_values();
    lemma_be_round_trip(v, 4);
}

/// A message is its length with the operation, the operation, and the payload.
pub proof fn law_a_message_is_length_operation_and_payload(operation: u8, payload: Seq<u8>)
    ensures
        framed(operation, payload).len() == payload.len() + 5,
        framed(operation, payload).take(4) == be_bytes(payload.len() + 1, 4),
        framed(operation, payload)[4] == operation,
        framed(operation, payload).skip(5) == payload,
{
    lemma_be_bytes_len(payload.len() + 1, 4);
    assert(framed(operation, payload).take(4) =~= be_bytes(payload.len() + 1, 4));
    assert(framed(operation, payload).skip(5) =~= payload);
}

/// A flag as a byte.
pub open spec fn flag(v: bool) -> u8 {
    if v {
        1
    } else {
        0
    }
}

/// A key is three bytes: zero for a key of the keyboard and one for a media key, its
/// number, and whether it goes down.
pub proof fn law_a_key_is_three_bytes(v: SyntheticKeyEvent, rest: Seq<u8>)
    ensures
        v.key matches OutputKey::Keyboard(key) ==> put_key(v, rest) == seq![
            0u8,
            key.code(),
            flag(v.active),
        ] + rest,
        v.key matches OutputKey::Consumer(key) ==> put_key(v, rest) == seq![
            1u8,
            key.code(),
            flag(v.active),
        ] + rest,
{
    reveal(put_key);
    reveal(put_u8);
    match v.key {
        OutputKey::Keyboard(key) => {
            assert(put_key(v, rest) =~= seq![0u8, key.code(), flag(v.active)] + rest);
        },
        OutputKey::Consumer(key) => {
            assert(put_key(v, rest) =~= seq![1u8, key.code(), flag(v.active)] + rest);
        },
    }
}

proof fn lemma_next_modifier(m: ModifierState, n: int, rest: Seq<u8>)
    requires
        0 <= n < 8,
    ensures
        put_modifiers(m, n, rest) == seq![flag(m.active(modifier_at(n)))] + put_modifiers(
            m,
            n + 1,
            rest,
        ),
{
    reveal(put_u8);
}

/// The state of the input is nine bytes: Fn, and then the left and right control, alt,
/// shift and super keys.
pub proof fn law_the_input_is_nine_bytes(v: InputState, rest: Seq<u8>)
    ensures
        put_input(v, rest) == seq![flag(v.fn_active)] + ({
            let m = v.modifiers;
            seq![flag(m.left_ctrl)] + (seq![flag(m.right_ctrl)] + (seq![flag(m.left_alt)] + (seq![
                flag(m.right_alt),
            ] + (seq![flag(m.left_shift)] + (seq![flag(m.right_shift)] + (seq![
                flag(m.left_super),
            ] + (seq![flag(m.right_super)] + rest)))))))
        }),
{
    reveal(put_input);
    reveal(put_u8);
    lemma_next_modifier(v.modifiers, 0, rest);
    lemma_next_modifier(v.modifiers, 1, rest);
    lemma_next_modifier(v.modifiers, 2, rest);
    lemma_next_modifier(v.modifiers, 3, rest);
    lemma_next_modifier(v.modifiers, 4, rest);
    lemma_next_modifier(v.modifiers, 5, rest);
    lemma_next_modifier(v.modifiers, 6, rest);
    lemma_next_modifier(v.modifiers, 7, rest);
    assert(put_modifiers(v.modifiers, 8, rest) == rest);
}

/// A measurement is a byte that says whether there is one, and its eight bytes.
pub open spec fn measure_bytes(v: Option<RealBits>) -> Seq<u8> {
    match v {
        Some(value) => seq![1u8] + be_bytes(value.bits as nat, 8),
        None => seq![0u8],
    }
}

/// A report of a contact is its phase, its identity, its time and place, the modifiers with
/// the place of Fn clear, and its pressure, width and height where they were measured.
pub proof fn law_a_report_of_a_contact_is_laid_out_in_order(v: TouchEvent, rest: Seq<u8>)
    ensures
        put_touch(v, rest) == seq![touch_phase_code(v.phase)] + (be_bytes(v.id as nat, 4) + (be_bytes(
            v.time.bits as nat,
            8,
        ) + (be_bytes(v.x.bits as nat, 8) + (be_bytes(v.y.bits as nat, 8) + put_input(
            InputState { fn_active: false, modifiers: v.modifiers },
            measure_bytes(v.pressure) + (measure_bytes(v.width) + (measure_bytes(v.height) + rest)),
        ))))),
{
    reveal(put_touch);
    reveal(put_u8);
    reveal(put_be32);
    reveal(put_be64);
    lemma_measure(v.height, rest);
    lemma_measure(v.width, measure_bytes(v.height) + rest);
    lemma_measure(v.pressure, measure_bytes(v.width) + (measure_bytes(v.height) + rest));
}

proof fn lemma_measure(v: Option<RealBits>, rest: Seq<u8>)
    ensures
        put_measure(v, rest) == measure_bytes(v) + rest,
{
    reveal(put_u8);
    reveal(put_be64);
    assert(put_measure(v, rest) =~= measure_bytes(v) + rest);
}

/// An event is a byte that says what happened, and what it happened to: Fn, a modifier, a
/// contact, the device, the strip, or a part of the hardware.
pub proof fn law_an_event_is_told_by_its_first_byte(v: HardwareEvent, rest: Seq<u8>)
    ensures
        match v {
            HardwareEvent::Fn { active } => put_event(v, rest) == seq![0u8, flag(active)] + rest,
            HardwareEvent::Modifier { modifier, active } => put_event(v, rest) == seq![
                1u8,
                modifier.position() as u8,
                flag(active),
            ] + rest,
            HardwareEvent::Touch(touch) => put_event(v, rest) == seq![2u8] + put_touch(touch, rest),
            HardwareEvent::Device { present } => put_event(v, rest) == seq![3u8, flag(present)]
                + rest,
            HardwareEvent::Visibility { visible } => put_event(v, rest) == seq![4u8, flag(visible)]
                + rest,
            HardwareEvent::Capability { capability, present } => put_event(v, rest) == seq![
                5u8,
                if capability is Display {
                    0u8
                } else {
                    1u8
                },
                flag(present),
            ] + rest,
        },
{
    reveal(put_event);
    reveal(put_u8);
    match v {
        HardwareEvent::Fn { active } => {
            assert(put_event(v, rest) =~= seq![0u8, flag(active)] + rest);
        },
        HardwareEvent::Modifier { modifier, active } => {
            assert(put_event(v, rest) =~= seq![1u8, modifier.position() as u8, flag(active)]
                + rest);
        },
        HardwareEvent::Touch(touch) => {},
        HardwareEvent::Device { present } => {
            assert(put_event(v, rest) =~= seq![3u8, flag(present)] + rest);
        },
        HardwareEvent::Visibility { visible } => {
            assert(put_event(v, rest) =~= seq![4u8, flag(visible)] + rest);
        },
        HardwareEvent::Capability { capability, present } => {
            assert(put_event(v, rest) =~= seq![
                5u8,
                if capability is Display {
                    0u8
                } else {
                    1u8
                },
                flag(present),
            ] + rest);
        },
    }
}

/// A batch is how many there are in four bytes, and then each of them in order. A frame is
/// its width, its height, its stride and its pixels. The answer to a claim is the state of
/// the input and the level of the light.
pub proof fn law_payloads_are_laid_out_in_order(
    events: Seq<HardwareEvent>,
    keys: Seq<SyntheticKeyEvent>,
    f: FrameView,
    input: InputState,
    level: RealBits,
)
    ensures
        events_payload(events) == be_bytes(events.len(), 4) + put_event_list(events, Seq::empty()),
        keys_payload(keys) == be_bytes(keys.len(), 4) + put_key_list(keys, Seq::empty()),
        events.len() > 0 ==> put_event_list(events, Seq::empty()) == put_event(
            events[0],
            put_event_list(events.drop_first(), Seq::empty()),
        ),
        keys.len() > 0 ==> put_key_list(keys, Seq::empty()) == put_key(
            keys[0],
            put_key_list(keys.drop_first(), Seq::empty()),
        ),
        put_event_list(Seq::empty(), Seq::empty()) == Seq::<u8>::empty(),
        put_key_list(Seq::empty(), Seq::empty()) == Seq::<u8>::empty(),
        frame_payload(f) == be_bytes(f.width as nat, 4) + (be_bytes(f.height as nat, 4) + (be_bytes(
            f.stride as nat,
            4,
        ) + f.pixels)),
        claim_payload(input, level) == put_input(input, be_bytes(level.bits as nat, 8)),
{
    reveal(put_be32);
}

/// A batch of more than four thousand and ninety-six events or keys is refused by its count,
/// whatever it holds.
pub proof fn law_a_batch_is_bounded(count: nat, rest: Seq<u8>)
    requires
        4096 < count <= 0xffff_ffff,
    ensures
        payload_events(be_bytes(count, 4) + rest) == Err::<Seq<HardwareEvent>, WireError>(
            WireError::EventBatch,
        ),
        payload_keys(be_bytes(count, 4) + rest) == Err::<Seq<SyntheticKeyEvent>, WireError>(
            WireError::KeyBatch,
        ),
{
    reveal(take_be32);
    let s = be_bytes(count, 4) + rest;
    lemma_be_bytes_len(count, 4);
    lemma_pow256_values();
    lemma_be_round_trip(count, 4);
    assert(s.take(4) =~= be_bytes(count, 4));
}

/// A frame that is taken has the size of the panel and whole rows.
pub proof fn law_a_frame_that_is_taken_fits_the_panel(s: Seq<u8>)
    ensures
        payload_frame(s) matches Ok(f) ==> f.width == 2008 && f.height == 60 && f.stride >= 8032
            && f.pixels.len() == f.stride * 60 && s.len() == 12 + f.pixels.len() && s.skip(12)
            == f.pixels,
{
    reveal(take_be32);
    if payload_frame(s) is Ok {
        assert(s.skip(4).skip(4).skip(4) =~= s.skip(12));
    }
}

/// What is cut short, unknown or out of range is refused: a flag that is neither zero nor
/// one, a kind of key or a key that does not exist, a state that is no flag, a phase of a
/// contact or an event that is unknown, and the answer to a claim that is too short or long.
pub proof fn law_what_is_no_message_is_refused(s: Seq<u8>)
    ensures
        s.len() == 0 ==> take_flag(s) is Err && take_event(s) is Err && take_key(s) is Err,
        s.len() > 0 && s[0] > 1 ==> take_flag(s) == Err::<(bool, Seq<u8>), WireError>(
            WireError::BooleanInvalid,
        ),
        s.len() > 0 && s[0] <= 1 ==> take_flag(s) == Ok::<(bool, Seq<u8>), WireError>(
            (s[0] == 1, s.skip(1)),
        ),
        s.len() < 3 ==> take_key(s) == Err::<(SyntheticKeyEvent, Seq<u8>), WireError>(
            WireError::KeyTruncated,
        ),
        take_key(s) is Ok <==> s.len() >= 3 && s[2] <= 1 && (s[0] == 0 && s[1] <= 20 || s[0] == 1
            && s[1] <= 7),
        s.len() > 0 && s[0] > 5 ==> take_event(s) == Err::<(HardwareEvent, Seq<u8>), WireError>(
            WireError::UnknownEvent(s[0]),
        ),
        s.len() > 0 && s[0] > 3 ==> take_touch_phase(s) == Err::<(TouchPhase, Seq<u8>), WireError>(
            WireError::UnknownTouchPhase(s[0]),
        ),
        payload_claim(s) is Ok ==> s.len() == 17,
{
    reveal(take_u8);
    reveal(take_key);
    reveal(take_event);
    reveal(take_input);
    if payload_claim(s) is Ok {
        let none = ModifierState::none();
        lemma_modifiers_len(none, 0, s.skip(1));
    }
}

proof fn lemma_modifiers_len(v: ModifierState, n: int, s: Seq<u8>)
    requires
        0 <= n <= 8,
    ensures
        take_modifiers(v, n, s) matches Ok((_, t)) ==> t.len() == s.len() - (8 - n),
    decreases 8 - n,
{
    reveal(take_u8);
    if n < 8 && s.len() > 0 {
        lemma_modifiers_len(v.with(modifier_at(n), s[0] != 0), n + 1, s.skip(1));
    }
}

/// A message is sent where it has at most eight mebibytes with its operation, and is taken
/// for one where its length is above zero and within that bound.
pub proof fn law_messages_are_bounded(payload: Seq<u8>, s: Seq<u8>)
    ensures
        sendable(payload) <==> payload.len() + 1 <= 8_388_608,
        s.len() < 4 ==> message_in(s) == (Ok::<Option<Seq<u8>>, WireError>(None), s),
        s.len() >= 4 && (be_value(s.take(4)) == 0 || be_value(s.take(4)) > 8_388_608)
            ==> message_in(s) == (Err::<Option<Seq<u8>>, WireError>(WireError::Length), s),
        message_in(s).0 matches Ok(Some(m)) ==> be_value(s.take(4)) == m.len() && s == s.take(4) + m
            + message_in(s).1,
{
    if let Ok(Some(m)) = message_in(s).0 {
        assert(s =~= s.take(4) + m + message_in(s).1);
    }
}

} // verus!
