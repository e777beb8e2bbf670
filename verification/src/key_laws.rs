//! What keys, modifiers and their taps are for.
use vstd::prelude::*;

use crate::hardware::{
    held_keys, input_after_all, key_name, mirrored, modifier_at, tap, ConsumerKey,
    HardwareCapability, HardwareEvent, InputState, KeyboardKey, Modifier, ModifierState,
    ObservedKey, OutputKey, RealBits, SyntheticKeyEvent,
};

verus! {

/// Every key has a name of its own, by which a configuration asks for it.
pub proof fn law_each_key_is_asked_for_by_its_name()
    ensures
        key_name(OutputKey::Keyboard(KeyboardKey::Escape)) == "escape"@,
        key_name(OutputKey::Keyboard(KeyboardKey::F1)) == "f1"@,
        key_name(OutputKey::Keyboard(KeyboardKey::F2)) == "f2"@,
        key_name(OutputKey::Keyboard(KeyboardKey::F3)) == "f3"@,
        key_name(OutputKey::Keyboard(KeyboardKey::F4)) == "f4"@,
        key_name(OutputKey::Keyboard(KeyboardKey::F5)) == "f5"@,
        key_name(OutputKey::Keyboard(KeyboardKey::F6)) == "f6"@,
        key_name(OutputKey::Keyboard(KeyboardKey::F7)) == "f7"@,
        key_name(OutputKey::Keyboard(KeyboardKey::F8)) == "f8"@,
        key_name(OutputKey::Keyboard(KeyboardKey::F9)) == "f9"@,
        key_name(OutputKey::Keyboard(KeyboardKey::F10)) == "f10"@,
        key_name(OutputKey::Keyboard(KeyboardKey::F11)) == "f11"@,
        key_name(OutputKey::Keyboard(KeyboardKey::F12)) == "f12"@,
        key_name(OutputKey::Keyboard(KeyboardKey::LeftCtrl)) == "left_ctrl"@,
        key_name(OutputKey::Keyboard(KeyboardKey::RightCtrl)) == "right_ctrl"@,
        key_name(OutputKey::Keyboard(KeyboardKey::LeftAlt)) == "left_alt"@,
        key_name(OutputKey::Keyboard(KeyboardKey::RightAlt)) == "right_alt"@,
        key_name(OutputKey::Keyboard(KeyboardKey::LeftShift)) == "left_shift"@,
        key_name(OutputKey::Keyboard(KeyboardKey::RightShift)) == "right_shift"@,
        key_name(OutputKey::Keyboard(KeyboardKey::LeftSuper)) == "left_super"@,
        key_name(OutputKey::Keyboard(KeyboardKey::RightSuper)) == "right_super"@,
        key_name(OutputKey::Consumer(ConsumerKey::BrightnessDown)) == "brightness_down"@,
        key_name(OutputKey::Consumer(ConsumerKey::BrightnessUp)) == "brightness_up"@,
        key_name(OutputKey::Consumer(ConsumerKey::Previous)) == "previous"@,
        key_name(OutputKey::Consumer(ConsumerKey::PlayPause)) == "play_pause"@,
        key_name(OutputKey::Consumer(ConsumerKey::Next)) == "next"@,
        key_name(OutputKey::Consumer(ConsumerKey::Mute)) == "mute"@,
        key_name(OutputKey::Consumer(ConsumerKey::VolumeDown)) == "volume_down"@,
        key_name(OutputKey::Consumer(ConsumerKey::VolumeUp)) == "volume_up"@,
{
}

/// The bytes that stand for keys, modifiers and capabilities on the wire are numbered in
/// order: Escape, the function keys, the modifiers; the media keys; the modifiers; the
/// display and the backlight.
pub proof fn law_wire_codes_are_numbered_in_order()
    ensures
        KeyboardKey::Escape.code() == 0,
        KeyboardKey::F1.code() == 1,
        KeyboardKey::F2.code() == 2,
        KeyboardKey::F3.code() == 3,
        KeyboardKey::F4.code() == 4,
        KeyboardKey::F5.code() == 5,
        KeyboardKey::F6.code() == 6,
        KeyboardKey::F7.code() == 7,
        KeyboardKey::F8.code() == 8,
        KeyboardKey::F9.code() == 9,
        KeyboardKey::F10.code() == 10,
        KeyboardKey::F11.code() == 11,
        KeyboardKey::F12.code() == 12,
        KeyboardKey::LeftCtrl.code() == 13,
        KeyboardKey::RightCtrl.code() == 14,
        KeyboardKey::LeftAlt.code() == 15,
        KeyboardKey::RightAlt.code() == 16,
        KeyboardKey::LeftShift.code() == 17,
        KeyboardKey::RightShift.code() == 18,
        KeyboardKey::LeftSuper.code() == 19,
        KeyboardKey::RightSuper.code() == 20,
        ConsumerKey::BrightnessDown.code() == 0,
        ConsumerKey::BrightnessUp.code() == 1,
        ConsumerKey::Previous.code() == 2,
        ConsumerKey::PlayPause.code() == 3,
        ConsumerKey::Next.code() == 4,
        ConsumerKey::Mute.code() == 5,
        ConsumerKey::VolumeDown.code() == 6,
        ConsumerKey::VolumeUp.code() == 7,
        Modifier::LeftCtrl.position() == 0 && modifier_at(0) == Modifier::LeftCtrl,
        Modifier::RightCtrl.position() == 1 && modifier_at(1) == Modifier::RightCtrl,
        Modifier::LeftAlt.position() == 2 && modifier_at(2) == Modifier::LeftAlt,
        Modifier::RightAlt.position() == 3 && modifier_at(3) == Modifier::RightAlt,
        Modifier::LeftShift.position() == 4 && modifier_at(4) == Modifier::LeftShift,
        Modifier::RightShift.position() == 5 && modifier_at(5) == Modifier::RightShift,
        Modifier::LeftSuper.position() == 6 && modifier_at(6) == Modifier::LeftSuper,
        Modifier::RightSuper.position() == 7 && modifier_at(7) == Modifier::RightSuper,
        HardwareCapability::Display.code() == 0,
        HardwareCapability::Backlight.code() == 1,
{
}

/// A modifier is mirrored by the virtual key of the same name and side.
pub proof fn law_a_modifier_is_mirrored_by_its_own_key()
    ensures
        mirrored(Modifier::LeftCtrl) == KeyboardKey::LeftCtrl,
        mirrored(Modifier::RightCtrl) == KeyboardKey::RightCtrl,
        mirrored(Modifier::LeftAlt) == KeyboardKey::LeftAlt,
        mirrored(Modifier::RightAlt) == KeyboardKey::RightAlt,
        mirrored(Modifier::LeftShift) == KeyboardKey::LeftShift,
        mirrored(Modifier::RightShift) == KeyboardKey::RightShift,
        mirrored(Modifier::LeftSuper) == KeyboardKey::LeftSuper,
        mirrored(Modifier::RightSuper) == KeyboardKey::RightSuper,
{
}

/// Setting and reading one modifier concerns the flag of that modifier.
pub proof fn law_a_modifier_is_its_own_flag(s: ModifierState, held: bool)
    ensures
        s.active(Modifier::LeftCtrl) == s.left_ctrl,
        s.with(Modifier::LeftCtrl, held) == (ModifierState { left_ctrl: held, ..s }),
        s.active(Modifier::RightCtrl) == s.right_ctrl,
        s.with(Modifier::RightCtrl, held) == (ModifierState { right_ctrl: held, ..s }),
        s.active(Modifier::LeftAlt) == s.left_alt,
        s.with(Modifier::LeftAlt, held) == (ModifierState { left_alt: held, ..s }),
        s.active(Modifier::RightAlt) == s.right_alt,
        s.with(Modifier::RightAlt, held) == (ModifierState { right_alt: held, ..s }),
        s.active(Modifier::LeftShift) == s.left_shift,
        s.with(Modifier::LeftShift, held) == (ModifierState { left_shift: held, ..s }),
        s.active(Modifier::RightShift) == s.right_shift,
        s.with(Modifier::RightShift, held) == (ModifierState { right_shift: held, ..s }),
        s.active(Modifier::LeftSuper) == s.left_super,
        s.with(Modifier::LeftSuper, held) == (ModifierState { left_super: held, ..s }),
        s.active(Modifier::RightSuper) == s.right_super,
        s.with(Modifier::RightSuper, held) == (ModifierState { right_super: held, ..s }),
{
}

proof fn lemma_one_more_held(s: ModifierState, n: int)
    requires
        n > 0,
    ensures
        held_keys(s, n) == held_keys(s, n - 1) + (if s.active(modifier_at(n - 1)) {
            seq![OutputKey::Keyboard(mirrored(modifier_at(n - 1)))]
        } else {
            Seq::empty()
        }),
{
    assert(held_keys(s, n) =~= held_keys(s, n - 1) + (if s.active(modifier_at(n - 1)) {
        seq![OutputKey::Keyboard(mirrored(modifier_at(n - 1)))]
    } else {
        Seq::empty()
    }));
}

/// The keys of the held modifiers are mirrored, each once, and no other key is: the left
/// one of a kind before the right one, and control, alt, shift and super in this order.
pub proof fn law_exactly_the_held_modifiers_are_mirrored(s: ModifierState)
    ensures
        held_keys(s, 8) == (if s.left_ctrl {
            seq![OutputKey::Keyboard(KeyboardKey::LeftCtrl)]
        } else {
            Seq::empty()
        }) + (if s.right_ctrl {
            seq![OutputKey::Keyboard(KeyboardKey::RightCtrl)]
        } else {
            Seq::empty()
        }) + (if s.left_alt {
            seq![OutputKey::Keyboard(KeyboardKey::LeftAlt)]
        } else {
            Seq::empty()
        }) + (if s.right_alt {
            seq![OutputKey::Keyboard(KeyboardKey::RightAlt)]
        } else {
            Seq::empty()
        }) + (if s.left_shift {
            seq![OutputKey::Keyboard(KeyboardKey::LeftShift)]
        } else {
            Seq::empty()
        }) + (if s.right_shift {
            seq![OutputKey::Keyboard(KeyboardKey::RightShift)]
        } else {
            Seq::empty()
        }) + (if s.left_super {
            seq![OutputKey::Keyboard(KeyboardKey::LeftSuper)]
        } else {
            Seq::empty()
        }) + (if s.right_super {
            seq![OutputKey::Keyboard(KeyboardKey::RightSuper)]
        } else {
            Seq::empty()
        }),
{
    lemma_one_more_held(s, 1);
    lemma_one_more_held(s, 2);
    lemma_one_more_held(s, 3);
    lemma_one_more_held(s, 4);
    lemma_one_more_held(s, 5);
    lemma_one_more_held(s, 6);
    lemma_one_more_held(s, 7);
    lemma_one_more_held(s, 8);
    assert(held_keys(s, 1) =~= (if s.left_ctrl {
        seq![OutputKey::Keyboard(KeyboardKey::LeftCtrl)]
    } else {
        Seq::empty()
    }));
}

/// A tap presses the held modifiers in order, then the key, releases the key, and then
/// releases the modifiers in the opposite order: everything that goes down comes up again,
/// and nothing else happens.
pub proof fn law_a_tap_is_a_press_and_a_release(key: OutputKey, modifiers: Seq<OutputKey>, i: int)
    requires
        0 <= i < modifiers.len(),
    ensures
        ({
            let n = modifiers.len() as int;
            let events = tap(key, modifiers);
            &&& events.len() == 2 * n + 2
            &&& events[i] == (SyntheticKeyEvent { key: modifiers[i], active: true })
            &&& events[2 * n + 1 - i] == (SyntheticKeyEvent { key: modifiers[i], active: false })
            &&& events[n] == (SyntheticKeyEvent { key, active: true })
            &&& events[n + 1] == (SyntheticKeyEvent { key, active: false })
        }),
{
}

/// A tap without modifiers is the key alone, down and up.
pub proof fn law_a_plain_tap_is_the_key_alone(key: OutputKey)
    ensures
        tap(key, Seq::empty()) == seq![
            SyntheticKeyEvent { key, active: true },
            SyntheticKeyEvent { key, active: false },
        ],
{
    assert(tap(key, Seq::empty()) =~= seq![
        SyntheticKeyEvent { key, active: true },
        SyntheticKeyEvent { key, active: false },
    ]);
}

/// After a batch of events Fn is held exactly where the last event about it said so.
pub proof fn law_input_is_what_was_last_said_of_fn(
    s: InputState,
    events: Seq<HardwareEvent>,
    i: int,
    active: bool,
)
    requires
        0 <= i < events.len(),
        events[i] == (HardwareEvent::Fn { active }),
        forall|j: int| i < j < events.len() ==> !(#[trigger] events[j] is Fn),
    ensures
        input_after_all(s, events).fn_active == active,
    decreases events.len(),
{
    let less = events.drop_last();
    if i < events.len() - 1 {
        assert forall|j: int| i < j < less.len() implies !(#[trigger] less[j] is Fn) by {
            assert(less[j] == events[j]);
        }
        law_input_is_what_was_last_said_of_fn(s, less, i, active);
        assert(events.last() == events[events.len() - 1]);
    }
}

/// After a batch of events a modifier is held exactly where the last event about that
/// modifier said so, whatever was said of others.
pub proof fn law_input_is_what_was_last_said_of_a_modifier(
    s: InputState,
    events: Seq<HardwareEvent>,
    i: int,
    modifier: Modifier,
    active: bool,
)
    requires
        0 <= i < events.len(),
        events[i] == (HardwareEvent::Modifier { modifier, active }),
        forall|j: int|
            i < j < events.len() ==> !(#[trigger] events[j] matches HardwareEvent::Modifier {
                modifier: other,
                ..
            } && other == modifier),
    ensures
        ({
            let held = input_after_all(s, events).modifiers;
            (match modifier {
                Modifier::LeftCtrl => held.left_ctrl,
                Modifier::RightCtrl => held.right_ctrl,
                Modifier::LeftAlt => held.left_alt,
                Modifier::RightAlt => held.right_alt,
                Modifier::LeftShift => held.left_shift,
                Modifier::RightShift => held.right_shift,
                Modifier::LeftSuper => held.left_super,
                Modifier::RightSuper => held.right_super,
            }) == active
        }),
    decreases events.len(),
{
    let less = events.drop_last();
    if i < events.len() - 1 {
        assert(less[i] == events[i]);
        assert forall|j: int| i < j < less.len() implies !(#[trigger] less[j] matches
            HardwareEvent::Modifier { modifier: other, .. } && other == modifier) by {
            assert(less[j] == events[j]);
        }
        law_input_is_what_was_last_said_of_a_modifier(s, less, i, modifier, active);
        assert(events.last() == events[events.len() - 1]);
    }
}

/// Without an event about a key its state stays, and contacts and the coming and going of
/// hardware are about no key.
pub proof fn law_input_keeps_what_is_not_named(s: InputState, events: Seq<HardwareEvent>)
    ensures
        (forall|j: int| 0 <= j < events.len() ==> !(#[trigger] events[j] is Fn)) ==> input_after_all(
            s,
            events,
        ).fn_active == s.fn_active,
        (forall|j: int| 0 <= j < events.len() ==> !(#[trigger] events[j] is Modifier))
            ==> input_after_all(s, events).modifiers == s.modifiers,
    decreases events.len(),
{
    if events.len() > 0 {
        let less = events.drop_last();
        law_input_keeps_what_is_not_named(s, less);
        assert(forall|j: int| 0 <= j < less.len() ==> #[trigger] less[j] == events[j]);
        assert(events.last() == events[events.len() - 1]);
    }
}

/// The two zeros are one number, a number equals itself, and what is no number equals
/// nothing. A level of light is a number from zero to one, both included.
pub proof fn law_numbers_are_compared_as_numbers(a: RealBits, b: RealBits)
    ensures
        a.same_number(b) == b.same_number(a),
        a.same_number(a) == !a.nan(),
        a.same_number(b) && a != b ==> a.magnitude() == 0 && b.magnitude() == 0,
        a.magnitude() == 0 && b.magnitude() == 0 ==> a.same_number(b),
        a.nan() <==> 0x7ff0_0000_0000_0000 < a.bits < 0x8000_0000_0000_0000 || a.bits
            > 0xfff0_0000_0000_0000,
        a.finite() <==> a.bits < 0x7ff0_0000_0000_0000 || 0x8000_0000_0000_0000 <= a.bits
            < 0xfff0_0000_0000_0000,
        a.non_negative() <==> a.bits <= 0x7ff0_0000_0000_0000 || a.bits == 0x8000_0000_0000_0000,
        a.in_unit_interval() <==> a.bits <= 0x3ff0_0000_0000_0000 || a.bits
            == 0x8000_0000_0000_0000,
{
}

/// Whether a key is held is its own flag, and recording one key changes that flag alone.
pub proof fn law_a_key_that_is_tracked_is_its_own_flag(s: InputState, held: bool)
    ensures
        s.holds(ObservedKey::Fn) == s.fn_active,
        s.with(ObservedKey::Fn, held) == (InputState { fn_active: held, ..s }),
        s.holds(ObservedKey::Modifier(Modifier::LeftCtrl)) == s.modifiers.left_ctrl,
        s.with(ObservedKey::Modifier(Modifier::LeftCtrl), held) == (InputState {
            modifiers: ModifierState { left_ctrl: held, ..s.modifiers },
            ..s
        }),
        s.holds(ObservedKey::Modifier(Modifier::RightCtrl)) == s.modifiers.right_ctrl,
        s.with(ObservedKey::Modifier(Modifier::RightCtrl), held) == (InputState {
            modifiers: ModifierState { right_ctrl: held, ..s.modifiers },
            ..s
        }),
        s.holds(ObservedKey::Modifier(Modifier::LeftAlt)) == s.modifiers.left_alt,
        s.with(ObservedKey::Modifier(Modifier::LeftAlt), held) == (InputState {
            modifiers: ModifierState { left_alt: held, ..s.modifiers },
            ..s
        }),
        s.holds(ObservedKey::Modifier(Modifier::RightAlt)) == s.modifiers.right_alt,
        s.with(ObservedKey::Modifier(Modifier::RightAlt), held) == (InputState {
            modifiers: ModifierState { right_alt: held, ..s.modifiers },
            ..s
        }),
        s.holds(ObservedKey::Modifier(Modifier::LeftShift)) == s.modifiers.left_shift,
        s.with(ObservedKey::Modifier(Modifier::LeftShift), held) == (InputState {
            modifiers: ModifierState { left_shift: held, ..s.modifiers },
            ..s
        }),
        s.holds(ObservedKey::Modifier(Modifier::RightShift)) == s.modifiers.right_shift,
        s.with(ObservedKey::Modifier(Modifier::RightShift), held) == (InputState {
            modifiers: ModifierState { right_shift: held, ..s.modifiers },
            ..s
        }),
        s.holds(ObservedKey::Modifier(Modifier::LeftSuper)) == s.modifiers.left_super,
        s.with(ObservedKey::Modifier(Modifier::LeftSuper), held) == (InputState {
            modifiers: ModifierState { left_super: held, ..s.modifiers },
            ..s
        }),
        s.holds(ObservedKey::Modifier(Modifier::RightSuper)) == s.modifiers.right_super,
        s.with(ObservedKey::Modifier(Modifier::RightSuper), held) == (InputState {
            modifiers: ModifierState { right_super: held, ..s.modifiers },
            ..s
        }),
        !InputState::none().fn_active,
        InputState::none().modifiers == ModifierState::none(),
{
}

} // verus!
