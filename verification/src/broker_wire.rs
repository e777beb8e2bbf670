//! Messages between the hardware broker and a supervisor.
//!
//! A message is a big-endian length, an operation or status byte, and a payload.
//! `put_x(v, rest)` is the encoding of `v` followed by `rest`, and `take_x` reads
//! one such value off the front of a byte string.
use vstd::prelude::*;

use crate::bytes::{
    be_bytes, be_value, lemma_be_bytes_len, lemma_be_round_trip, lemma_pow256_values,
};
use crate::hardware::{
    modifier_at, ConsumerKey, FrameView, HardwareCapability, HardwareEvent, InputState, KeyboardKey,
    ModifierState, OutputKey, RealBits, SyntheticKeyEvent, TouchEvent, TouchPhase,
};

verus! {

/// The longest message, without its length.
pub const MAX_MESSAGE_BYTES: usize = 8_388_608;

/// The most events or keys in one message.
pub const MAX_BATCH: usize = 4096;

pub const CLAIM: u8 = 1;

pub const POLL: u8 = 2;

pub const PRESENT: u8 = 3;

pub const CONFIRM: u8 = 4;

pub const EMIT_KEYS: u8 = 5;

pub const GET_BACKLIGHT: u8 = 6;

pub const SET_BACKLIGHT: u8 = 7;

pub const RELEASE: u8 = 8;

pub const LOGOUT_COMPLETE: u8 = 9;

pub const OK: u8 = 0;

pub const ERROR: u8 = 1;

pub const SESSION_REVOKED: u8 = 2;

pub const WAIT_FOR_SESSION: u8 = 3;

pub const HARDWARE_UNAVAILABLE: u8 = 4;

pub const WAIT_FOR_HARDWARE: u8 = 5;

pub const REVOKED_REPLACED: u8 = 0;

pub const REVOKED_LOGOUT: u8 = 1;

/// Why bytes are no message, or a message cannot be sent.
#[derive(Clone, Copy, Debug, PartialEq, Eq, Structural)]
pub enum WireError {
    TooLarge,
    Count,
    Length,
    BufferFull,
    ClosedMidMessage,
    ClosedWhileWriting,
    Interrupted,
    PayloadTruncated,
    InputTruncated,
    ModifierTruncated,
    ClaimMalformed,
    EventBatch,
    EventTruncated,
    ModifierEventTruncated,
    InvalidModifier,
    CapabilityTruncated,
    UnknownCapability(u8),
    UnknownEvent(u8),
    EventTrailing,
    BooleanTruncated,
    BooleanInvalid,
    TouchTruncated,
    UnknownTouchPhase(u8),
    TouchIdTruncated,
    TouchTime,
    TouchX,
    TouchY,
    TouchPressure,
    TouchWidth,
    TouchHeight,
    KeyBatch,
    KeyTruncated,
    UnknownKeyboardKey(u8),
    UnknownConsumerKey(u8),
    UnknownKeyKind(u8),
    KeyStateInvalid,
    KeyTrailing,
    FrameWidth,
    FrameHeight,
    FrameStride,
    FramePixels,
}

/// A value read off the front of a byte string, with what is left.
pub type Taken<T> = Result<(T, Seq<u8>), WireError>;

#[verifier::opaque]
pub open spec fn put_u8(v: u8, rest: Seq<u8>) -> Seq<u8> {
    seq![v] + rest
}

#[verifier::opaque]
pub open spec fn put_be32(v: nat, rest: Seq<u8>) -> Seq<u8> {
    be_bytes(v, 4) + rest
}

#[verifier::opaque]
pub open spec fn put_be64(v: nat, rest: Seq<u8>) -> Seq<u8> {
    be_bytes(v, 8) + rest
}

#[verifier::opaque]
pub open spec fn take_u8(s: Seq<u8>, short: WireError) -> Taken<u8> {
    if s.len() < 1 {
        Err(short)
    } else {
        Ok((s[0], s.skip(1)))
    }
}

#[verifier::opaque]
pub open spec fn take_be32(s: Seq<u8>, short: WireError) -> Taken<u32> {
    if s.len() < 4 {
        Err(short)
    } else {
        Ok((be_value(s.take(4)) as u32, s.skip(4)))
    }
}

#[verifier::opaque]
pub open spec fn take_be64(s: Seq<u8>, short: WireError) -> Taken<u64> {
    if s.len() < 8 {
        Err(short)
    } else {
        Ok((be_value(s.take(8)) as u64, s.skip(8)))
    }
}

/// Reading a byte undoes writing it.
pub broadcast proof fn lemma_u8(v: u8, t: Seq<u8>, short: WireError)
    ensures
        #![trigger take_u8(put_u8(v, t), short)]
        take_u8(put_u8(v, t), short) == Ok::<(u8, Seq<u8>), WireError>((v, t)),
{
    reveal(put_u8);
    reveal(take_u8);
    assert(put_u8(v, t).skip(1) =~= t);
}

/// Reading a word undoes writing it.
pub broadcast proof fn lemma_be32(v: nat, t: Seq<u8>, short: WireError)
    requires
        v < 0x1_0000_0000,
    ensures
        #![trigger take_be32(put_be32(v, t), short)]
        take_be32(put_be32(v, t), short) == Ok::<(u32, Seq<u8>), WireError>((v as u32, t)),
{
    reveal(put_be32);
    reveal(take_be32);
    lemma_be_bytes_len(v, 4);
    lemma_pow256_values();
    lemma_be_round_trip(v, 4);
    assert(put_be32(v, t).take(4) =~= be_bytes(v, 4));
    assert(put_be32(v, t).skip(4) =~= t);
}

/// Reading a long word undoes writing it.
pub broadcast proof fn lemma_be64(v: nat, t: Seq<u8>, short: WireError)
    requires
        v < 0x1_0000_0000_0000_0000,
    ensures
        #![trigger take_be64(put_be64(v, t), short)]
        take_be64(put_be64(v, t), short) == Ok::<(u64, Seq<u8>), WireError>((v as u64, t)),
{
    reveal(put_be64);
    reveal(take_be64);
    lemma_be_bytes_len(v, 8);
    lemma_pow256_values();
    lemma_be_round_trip(v, 8);
    assert(put_be64(v, t).take(8) =~= be_bytes(v, 8));
    assert(put_be64(v, t).skip(8) =~= t);
}

pub broadcast group group_wire {
    lemma_u8,
    lemma_be32,
    lemma_be64,
}

pub open spec fn put_flag(v: bool, rest: Seq<u8>) -> Seq<u8> {
    put_u8(
        if v {
            1
        } else {
            0
        },
        rest,
    )
}

/// A flag is exactly zero or one.
pub open spec fn take_flag(s: Seq<u8>) -> Taken<bool> {
    match take_u8(s, WireError::BooleanTruncated) {
        Err(e) => Err(e),
        Ok((b, t)) => if b <= 1 {
            Ok((b != 0, t))
        } else {
            Err(WireError::BooleanInvalid)
        },
    }
}

/// The held modifiers, one byte each in wire order, from position `n`.
pub open spec fn put_modifiers(v: ModifierState, n: int, rest: Seq<u8>) -> Seq<u8>
    decreases 8 - n,
{
    if n >= 8 {
        rest
    } else {
        put_flag(v.active(modifier_at(n)), put_modifiers(v, n + 1, rest))
    }
}

/// Any byte but zero means held.
pub open spec fn take_modifiers(v: ModifierState, n: int, s: Seq<u8>) -> Taken<ModifierState>
    decreases 8 - n,
{
    if n >= 8 {
        Ok((v, s))
    } else {
        match take_u8(s, WireError::ModifierTruncated) {
            Err(e) => Err(e),
            Ok((b, t)) => take_modifiers(v.with(modifier_at(n), b != 0), n + 1, t),
        }
    }
}

/// The state of Fn and the modifiers.
#[verifier::opaque]
pub open spec fn put_input(v: InputState, rest: Seq<u8>) -> Seq<u8> {
    put_flag(v.fn_active, put_modifiers(v.modifiers, 0, rest))
}

/// Any byte but zero means held.
#[verifier::opaque]
pub open spec fn take_input(s: Seq<u8>) -> Taken<InputState> {
    match take_u8(s, WireError::InputTruncated) {
        Err(e) => Err(e),
        Ok((b, t)) => match take_modifiers(ModifierState::none(), 0, t) {
            Err(e) => Err(e),
            Ok((modifiers, t)) => Ok((InputState { fn_active: b != 0, modifiers }, t)),
        },
    }
}

pub open spec fn put_measure(v: Option<RealBits>, rest: Seq<u8>) -> Seq<u8> {
    match v {
        Some(value) => put_u8(1, put_be64(value.bits as nat, rest)),
        None => put_u8(0, rest),
    }
}

pub open spec fn take_real(s: Seq<u8>, short: WireError) -> Taken<RealBits> {
    match take_be64(s, short) {
        Err(e) => Err(e),
        Ok((bits, t)) => Ok((RealBits { bits }, t)),
    }
}

pub open spec fn take_measure(s: Seq<u8>, short: WireError) -> Taken<Option<RealBits>> {
    match take_flag(s) {
        Err(e) => Err(e),
        Ok((false, t)) => Ok((None, t)),
        Ok((true, t)) => match take_real(t, short) {
            Err(e) => Err(e),
            Ok((v, t)) => Ok((Some(v), t)),
        },
    }
}

pub open spec fn touch_phase_code(v: TouchPhase) -> u8 {
    match v {
        TouchPhase::Down => 0,
        TouchPhase::Move => 1,
        TouchPhase::Up => 2,
        TouchPhase::Cancel => 3,
    }
}

pub open spec fn take_touch_phase(s: Seq<u8>) -> Taken<TouchPhase> {
    match take_u8(s, WireError::TouchTruncated) {
        Err(e) => Err(e),
        Ok((b, t)) => if b == 0 {
            Ok((TouchPhase::Down, t))
        } else if b == 1 {
            Ok((TouchPhase::Move, t))
        } else if b == 2 {
            Ok((TouchPhase::Up, t))
        } else if b == 3 {
            Ok((TouchPhase::Cancel, t))
        } else {
            Err(WireError::UnknownTouchPhase(b))
        },
    }
}

/// One report of a contact. The place of Fn in the input state is always clear.
#[verifier::opaque]
pub open spec fn put_touch(v: TouchEvent, rest: Seq<u8>) -> Seq<u8> {
    let measures = put_measure(v.pressure, put_measure(v.width, put_measure(v.height, rest)));
    let input = put_input(InputState { fn_active: false, modifiers: v.modifiers }, measures);
    let place = put_be64(v.time.bits as nat, put_be64(v.x.bits as nat, put_be64(v.y.bits as nat, input)));
    put_u8(touch_phase_code(v.phase), put_be32(v.id as nat, place))
}

/// The three places of a contact: time, column and row.
pub open spec fn take_place(s: Seq<u8>) -> Taken<(RealBits, RealBits, RealBits)> {
    match take_real(s, WireError::TouchTime) {
        Err(e) => Err(e),
        Ok((time, t)) => match take_real(t, WireError::TouchX) {
            Err(e) => Err(e),
            Ok((x, t)) => match take_real(t, WireError::TouchY) {
                Err(e) => Err(e),
                Ok((y, t)) => Ok(((time, x, y), t)),
            },
        },
    }
}

/// The three optional measurements of a contact.
pub open spec fn take_measures(s: Seq<u8>) -> Taken<
    (Option<RealBits>, Option<RealBits>, Option<RealBits>),
> {
    match take_measure(s, WireError::TouchPressure) {
        Err(e) => Err(e),
        Ok((pressure, t)) => match take_measure(t, WireError::TouchWidth) {
            Err(e) => Err(e),
            Ok((width, t)) => match take_measure(t, WireError::TouchHeight) {
                Err(e) => Err(e),
                Ok((height, t)) => Ok(((pressure, width, height), t)),
            },
        },
    }
}

#[verifier::opaque]
pub open spec fn take_touch(s: Seq<u8>) -> Taken<TouchEvent> {
    match take_touch_phase(s) {
        Err(e) => Err(e),
        Ok((phase, t)) => match take_be32(t, WireError::TouchIdTruncated) {
            Err(e) => Err(e),
            Ok((id, t)) => match take_place(t) {
                Err(e) => Err(e),
                Ok(((time, x, y), t)) => match take_input(t) {
                    Err(e) => Err(e),
                    Ok((state, t)) => match take_measures(t) {
                        Err(e) => Err(e),
                        Ok(((pressure, width, height), t)) => Ok(
                            (
                                TouchEvent {
                                    phase,
                                    id,
                                    time,
                                    x,
                                    y,
                                    modifiers: state.modifiers,
                                    pressure,
                                    width,
                                    height,
                                },
                                t,
                            ),
                        ),
                    },
                },
            },
        },
    }
}

/// What an adapter reported.
#[verifier::opaque]
pub open spec fn put_event(v: HardwareEvent, rest: Seq<u8>) -> Seq<u8> {
    match v {
        HardwareEvent::Fn { active } => put_u8(0, put_flag(active, rest)),
        HardwareEvent::Modifier { modifier, active } => put_u8(
            1,
            put_u8(modifier.position() as u8, put_flag(active, rest)),
        ),
        HardwareEvent::Touch(touch) => put_u8(2, put_touch(touch, rest)),
        HardwareEvent::Device { present } => put_u8(3, put_flag(present, rest)),
        HardwareEvent::Visibility { visible } => put_u8(4, put_flag(visible, rest)),
        HardwareEvent::Capability { capability, present } => put_u8(
            5,
            put_u8(capability.code(), put_flag(present, rest)),
        ),
    }
}

#[verifier::opaque]
pub open spec fn take_event(s: Seq<u8>) -> Taken<HardwareEvent> {
    match take_u8(s, WireError::EventTruncated) {
        Err(e) => Err(e),
        Ok((b, t)) => if b == 0 {
            match take_flag(t) {
                Err(e) => Err(e),
                Ok((active, t)) => Ok((HardwareEvent::Fn { active }, t)),
            }
        } else if b == 1 {
            match take_u8(t, WireError::ModifierEventTruncated) {
                Err(e) => Err(e),
                Ok((m, t)) => if m >= 8 {
                    Err(WireError::InvalidModifier)
                } else {
                    match take_flag(t) {
                        Err(e) => Err(e),
                        Ok((active, t)) => Ok(
                            (HardwareEvent::Modifier { modifier: modifier_at(m as int), active }, t),
                        ),
                    }
                },
            }
        } else if b == 2 {
            match take_touch(t) {
                Err(e) => Err(e),
                Ok((touch, t)) => Ok((HardwareEvent::Touch(touch), t)),
            }
        } else if b == 3 {
            match take_flag(t) {
                Err(e) => Err(e),
                Ok((present, t)) => Ok((HardwareEvent::Device { present }, t)),
            }
        } else if b == 4 {
            match take_flag(t) {
                Err(e) => Err(e),
                Ok((visible, t)) => Ok((HardwareEvent::Visibility { visible }, t)),
            }
        } else if b == 5 {
            match take_u8(t, WireError::CapabilityTruncated) {
                Err(e) => Err(e),
                Ok((c, t)) => if c >= 2 {
                    Err(WireError::UnknownCapability(c))
                } else {
                    match take_flag(t) {
                        Err(e) => Err(e),
                        Ok((present, t)) => Ok(
                            (
                                HardwareEvent::Capability {
                                    capability: if c == 0 {
                                        HardwareCapability::Display
                                    } else {
                                        HardwareCapability::Backlight
                                    },
                                    present,
                                },
                                t,
                            ),
                        ),
                    }
                },
            }
        } else {
            Err(WireError::UnknownEvent(b))
        },
    }
}

/// Events one after another.
pub open spec fn put_event_list(v: Seq<HardwareEvent>, rest: Seq<u8>) -> Seq<u8>
    decreases v.len(),
{
    if v.len() == 0 {
        rest
    } else {
        put_event(v[0], put_event_list(v.drop_first(), rest))
    }
}

pub open spec fn take_event_list(s: Seq<u8>, n: nat) -> Taken<Seq<HardwareEvent>>
    decreases n,
{
    if n == 0 {
        Ok((Seq::empty(), s))
    } else {
        match take_event(s) {
            Err(e) => Err(e),
            Ok((v, t)) => match take_event_list(t, (n - 1) as nat) {
                Err(e) => Err(e),
                Ok((w, t)) => Ok((seq![v] + w, t)),
            },
        }
    }
}

/// A batch of events: how many, and each of them.
pub open spec fn events_payload(v: Seq<HardwareEvent>) -> Seq<u8> {
    put_be32(v.len(), put_event_list(v, Seq::empty()))
}

/// The batch of events that a payload holds, or why it holds none.
pub open spec fn payload_events(s: Seq<u8>) -> Result<Seq<HardwareEvent>, WireError> {
    match take_be32(s, WireError::PayloadTruncated) {
        Err(e) => Err(e),
        Ok((count, t)) => if count > MAX_BATCH {
            Err(WireError::EventBatch)
        } else {
            match take_event_list(t, count as nat) {
                Err(e) => Err(e),
                Ok((v, t)) => if t.len() == 0 {
                    Ok(v)
                } else {
                    Err(WireError::EventTrailing)
                },
            }
        },
    }
}

/// One press or release.
#[verifier::opaque]
pub open spec fn put_key(v: SyntheticKeyEvent, rest: Seq<u8>) -> Seq<u8> {
    match v.key {
        OutputKey::Keyboard(key) => put_u8(0, put_u8(key.code(), put_flag(v.active, rest))),
        OutputKey::Consumer(key) => put_u8(1, put_u8(key.code(), put_flag(v.active, rest))),
    }
}

/// The keyboard key with a wire code.
pub open spec fn keyboard_key_of(code: u8) -> KeyboardKey {
    choose|k: KeyboardKey| k.code() == code
}

/// The media key with a wire code.
pub open spec fn consumer_key_of(code: u8) -> ConsumerKey {
    choose|k: ConsumerKey| k.code() == code
}

pub broadcast proof fn lemma_keyboard_key_of(k: KeyboardKey)
    ensures
        #![trigger k.code()]
        keyboard_key_of(k.code()) == k,
        k.code() <= 20,
{
    let found = keyboard_key_of(k.code());
    assert(found.code() == k.code());
}

pub broadcast proof fn lemma_consumer_key_of(k: ConsumerKey)
    ensures
        #![trigger k.code()]
        consumer_key_of(k.code()) == k,
        k.code() <= 7,
{
    let found = consumer_key_of(k.code());
    assert(found.code() == k.code());
}

/// Three bytes: what sort of key, which key, and its state.
#[verifier::opaque]
pub open spec fn take_key(s: Seq<u8>) -> Taken<SyntheticKeyEvent> {
    if s.len() < 3 {
        Err(WireError::KeyTruncated)
    } else if s[0] > 1 {
        Err(WireError::UnknownKeyKind(s[0]))
    } else if s[0] == 0 && s[1] > 20 {
        Err(WireError::UnknownKeyboardKey(s[1]))
    } else if s[0] == 1 && s[1] > 7 {
        Err(WireError::UnknownConsumerKey(s[1]))
    } else if s[2] > 1 {
        Err(WireError::KeyStateInvalid)
    } else {
        Ok(
            (
                SyntheticKeyEvent {
                    key: if s[0] == 0 {
                        OutputKey::Keyboard(keyboard_key_of(s[1]))
                    } else {
                        OutputKey::Consumer(consumer_key_of(s[1]))
                    },
                    active: s[2] != 0,
                },
                s.skip(3),
            ),
        )
    }
}

/// Keys one after another.
pub open spec fn put_key_list(v: Seq<SyntheticKeyEvent>, rest: Seq<u8>) -> Seq<u8>
    decreases v.len(),
{
    if v.len() == 0 {
        rest
    } else {
        put_key(v[0], put_key_list(v.drop_first(), rest))
    }
}

pub open spec fn take_key_list(s: Seq<u8>, n: nat) -> Taken<Seq<SyntheticKeyEvent>>
    decreases n,
{
    if n == 0 {
        Ok((Seq::empty(), s))
    } else {
        match take_key(s) {
            Err(e) => Err(e),
            Ok((v, t)) => match take_key_list(t, (n - 1) as nat) {
                Err(e) => Err(e),
                Ok((w, t)) => Ok((seq![v] + w, t)),
            },
        }
    }
}

/// A batch of keys: how many, and each of them.
pub open spec fn keys_payload(v: Seq<SyntheticKeyEvent>) -> Seq<u8> {
    put_be32(v.len(), put_key_list(v, Seq::empty()))
}

/// The batch of keys that a payload holds, or why it holds none.
pub open spec fn payload_keys(s: Seq<u8>) -> Result<Seq<SyntheticKeyEvent>, WireError> {
    match take_be32(s, WireError::PayloadTruncated) {
        Err(e) => Err(e),
        Ok((count, t)) => if count > MAX_BATCH {
            Err(WireError::KeyBatch)
        } else {
            match take_key_list(t, count as nat) {
                Err(e) => Err(e),
                Ok((v, t)) => if t.len() == 0 {
                    Ok(v)
                } else {
                    Err(WireError::KeyTrailing)
                },
            }
        },
    }
}

/// A frame: its width, height and stride, and its pixels.
pub open spec fn frame_payload(f: FrameView) -> Seq<u8> {
    put_be32(f.width as nat, put_be32(f.height as nat, put_be32(f.stride as nat, f.pixels)))
}

/// The frame that a payload holds: one of the panel's size, with whole rows.
pub open spec fn payload_frame(s: Seq<u8>) -> Result<FrameView, WireError> {
    match take_be32(s, WireError::PayloadTruncated) {
        Err(e) => Err(e),
        Ok((width, t)) => match take_be32(t, WireError::PayloadTruncated) {
            Err(e) => Err(e),
            Ok((height, t)) => match take_be32(t, WireError::PayloadTruncated) {
                Err(e) => Err(e),
                Ok((stride, t)) => if width != 2008 {
                    Err(WireError::FrameWidth)
                } else if height != 60 {
                    Err(WireError::FrameHeight)
                } else if stride < 8032 {
                    Err(WireError::FrameStride)
                } else if t.len() != stride * 60 {
                    Err(WireError::FramePixels)
                } else {
                    Ok(
                        FrameView {
                            width: width as int,
                            height: height as int,
                            stride: stride as int,
                            pixels: t,
                        },
                    )
                },
            },
        },
    }
}

/// The input state and the backlight level that a claim is answered with.
pub open spec fn claim_payload(input: InputState, backlight: RealBits) -> Seq<u8> {
    put_input(input, be_bytes(backlight.bits as nat, 8))
}

/// The input state and the backlight level that a payload holds.
pub open spec fn payload_claim(s: Seq<u8>) -> Result<(InputState, RealBits), WireError> {
    match take_input(s) {
        Err(e) => Err(e),
        Ok((input, t)) => if t.len() == 8 {
            Ok((input, RealBits { bits: be_value(t) as u64 }))
        } else {
            Err(WireError::ClaimMalformed)
        },
    }
}

/// A message on the wire.
pub open spec fn framed(operation: u8, payload: Seq<u8>) -> Seq<u8> {
    be_bytes((1 + payload.len()) as nat, 4) + (seq![operation] + payload)
}

proof fn lemma_modifiers(v: ModifierState, w: ModifierState, n: int, t: Seq<u8>)
    requires
        0 <= n <= 8,
        forall|i: int| 0 <= i < n ==> v.active(#[trigger] modifier_at(i)) == w.active(modifier_at(i)),
    ensures
        take_modifiers(w, n, put_modifiers(v, n, t)) == Ok::<(ModifierState, Seq<u8>), WireError>(
            (v, t),
        ),
    decreases 8 - n,
{
    broadcast use group_wire;

    if n < 8 {
        let active = v.active(modifier_at(n));
        assert forall|i: int| 0 <= i < n + 1 implies v.active(#[trigger] modifier_at(i)) == w.with(
            modifier_at(n),
            active,
        ).active(modifier_at(i)) by {
            assert(modifier_at(i).position() == i && modifier_at(n).position() == n);
        }
        lemma_modifiers(v, w.with(modifier_at(n), active), n + 1, t);
    } else {
        assert(v.active(modifier_at(0)) == w.active(modifier_at(0)));
        assert(v.active(modifier_at(1)) == w.active(modifier_at(1)));
        assert(v.active(modifier_at(2)) == w.active(modifier_at(2)));
        assert(v.active(modifier_at(3)) == w.active(modifier_at(3)));
        assert(v.active(modifier_at(4)) == w.active(modifier_at(4)));
        assert(v.active(modifier_at(5)) == w.active(modifier_at(5)));
        assert(v.active(modifier_at(6)) == w.active(modifier_at(6)));
        assert(v.active(modifier_at(7)) == w.active(modifier_at(7)));
        assert(v == w);
    }
}

broadcast proof fn lemma_input(v: InputState, t: Seq<u8>)
    ensures
        #![trigger take_input(put_input(v, t))]
        take_input(put_input(v, t)) == Ok::<(InputState, Seq<u8>), WireError>((v, t)),
{
    broadcast use group_wire;

    reveal(put_input);
    reveal(take_input);
    lemma_modifiers(v.modifiers, ModifierState::none(), 0, t);
}

broadcast proof fn lemma_touch(v: TouchEvent, t: Seq<u8>)
    ensures
        #![trigger take_touch(put_touch(v, t))]
        take_touch(put_touch(v, t)) == Ok::<(TouchEvent, Seq<u8>), WireError>((v, t)),
{
    broadcast use {group_wire, lemma_input};

    reveal(put_touch);
    reveal(take_touch);
    let height = put_measure(v.height, t);
    let width = put_measure(v.width, height);
    let measures = put_measure(v.pressure, width);
    assert(take_measure(height, WireError::TouchHeight) == Ok::<
        (Option<RealBits>, Seq<u8>),
        WireError,
    >((v.height, t)));
    assert(take_measure(width, WireError::TouchWidth) == Ok::<(Option<RealBits>, Seq<u8>), WireError>(
        (v.width, height),
    ));
    assert(take_measure(measures, WireError::TouchPressure) == Ok::<
        (Option<RealBits>, Seq<u8>),
        WireError,
    >((v.pressure, width)));
}

broadcast proof fn lemma_event(v: HardwareEvent, t: Seq<u8>)
    ensures
        #![trigger take_event(put_event(v, t))]
        take_event(put_event(v, t)) == Ok::<(HardwareEvent, Seq<u8>), WireError>((v, t)),
{
    broadcast use {group_wire, lemma_touch};

    reveal(put_event);
    reveal(take_event);
}

proof fn lemma_event_list(v: Seq<HardwareEvent>, t: Seq<u8>)
    ensures
        take_event_list(put_event_list(v, t), v.len()) == Ok::<
            (Seq<HardwareEvent>, Seq<u8>),
            WireError,
        >((v, t)),
    decreases v.len(),
{
    broadcast use lemma_event;

    if v.len() > 0 {
        lemma_event_list(v.drop_first(), t);
        assert(seq![v[0]] + v.drop_first() =~= v);
    } else {
        assert(v =~= Seq::empty());
    }
}

broadcast proof fn lemma_key(v: SyntheticKeyEvent, t: Seq<u8>)
    ensures
        #![trigger take_key(put_key(v, t))]
        take_key(put_key(v, t)) == Ok::<(SyntheticKeyEvent, Seq<u8>), WireError>((v, t)),
{
    broadcast use {lemma_keyboard_key_of, lemma_consumer_key_of};

    reveal(put_key);
    reveal(take_key);
    reveal(put_u8);
    assert(put_key(v, t).skip(3) =~= t);
}

proof fn lemma_key_list(v: Seq<SyntheticKeyEvent>, t: Seq<u8>)
    ensures
        take_key_list(put_key_list(v, t), v.len()) == Ok::<
            (Seq<SyntheticKeyEvent>, Seq<u8>),
            WireError,
        >((v, t)),
    decreases v.len(),
{
    broadcast use lemma_key;

    if v.len() > 0 {
        lemma_key_list(v.drop_first(), t);
        assert(seq![v[0]] + v.drop_first() =~= v);
    } else {
        assert(v =~= Seq::empty());
    }
}

/// A batch of events is read back as it was written.
pub proof fn law_events_round_trip(events: Seq<HardwareEvent>)
    requires
        events.len() <= MAX_BATCH,
    ensures
        payload_events(events_payload(events)) == Ok::<Seq<HardwareEvent>, WireError>(events),
{
    broadcast use group_wire;

    lemma_event_list(events, Seq::empty());
}

/// A batch of keys is read back as it was written.
pub proof fn law_keys_round_trip(events: Seq<SyntheticKeyEvent>)
    requires
        events.len() <= MAX_BATCH,
    ensures
        payload_keys(keys_payload(events)) == Ok::<Seq<SyntheticKeyEvent>, WireError>(events),
{
    broadcast use group_wire;

    lemma_key_list(events, Seq::empty());
}

/// A frame of the panel's size with whole rows is read back as it was written.
pub proof fn law_frame_round_trip(f: FrameView)
    requires
        f.width == 2008,
        f.height == 60,
        8032 <= f.stride <= u32::MAX,
        f.pixels.len() == f.stride * 60,
    ensures
        payload_frame(frame_payload(f)) == Ok::<FrameView, WireError>(f),
{
    broadcast use group_wire;

}

/// The answer to a claim is read back as it was written.
pub proof fn law_claim_round_trip(input: InputState, backlight: RealBits)
    ensures
        payload_claim(claim_payload(input, backlight)) == Ok::<(InputState, RealBits), WireError>(
            (input, backlight),
        ),
{
    broadcast use lemma_input;

    lemma_be_bytes_len(backlight.bits as nat, 8);
    lemma_pow256_values();
    lemma_be_round_trip(backlight.bits as nat, 8);
}

} // verus!
