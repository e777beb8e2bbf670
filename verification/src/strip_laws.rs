//! What a strip, the loop around it and its editor are for.
use vstd::prelude::*;

use crate::config::WidgetView;
use crate::daemon::{
    function_row, next_step, reply_line, tick_format, DaemonAction, DaemonEvent, DaemonView,
    Press, RunStep,
};
use crate::editor::{
    above_zero, at_least_flex, color_set, color_value, flex_set, reply_accepts, row_index,
    rows_of, summary_of, text_set, width_set, Palette,
};
use crate::hardware::{Modifier, ModifierState, RealBits};
use crate::local_time::{time_text, LocalTime};
use crate::text::{trimmed, white_space};

verus! {

/// The loop after some events, each with the time at which it came.
pub open spec fn after_all(d: DaemonView, events: Seq<(DaemonEvent, u64)>) -> DaemonView
    decreases events.len(),
{
    if events.len() == 0 {
        d
    } else {
        after_all(d, events.drop_last()).after(events.last().0, events.last().1).0
    }
}

/// An event about one modifier sets that modifier and leaves every other modifier, and
/// everything else that the loop remembers, as it was.
pub proof fn law_a_modifier_event_changes_one_modifier(
    d: DaemonView,
    modifier: Modifier,
    active: bool,
    now_ns: u64,
)
    ensures
        ({
            let (after, action) = d.after(DaemonEvent::Modifier { modifier, active }, now_ns);
            let old_held = d.modifiers;
            let held = after.modifiers;
            &&& action == DaemonAction::Nothing
            &&& after.cfg == d.cfg
            &&& after.pressed == d.pressed
            &&& after.fn_active == d.fn_active
            &&& after.last_tick == d.last_tick
            &&& after.dirty == d.dirty
            &&& held.left_ctrl == (if modifier is LeftCtrl { active } else { old_held.left_ctrl })
            &&& held.right_ctrl == (if modifier is RightCtrl {
                active
            } else {
                old_held.right_ctrl
            })
            &&& held.left_alt == (if modifier is LeftAlt { active } else { old_held.left_alt })
            &&& held.right_alt == (if modifier is RightAlt { active } else { old_held.right_alt })
            &&& held.left_shift == (if modifier is LeftShift {
                active
            } else {
                old_held.left_shift
            })
            &&& held.right_shift == (if modifier is RightShift {
                active
            } else {
                old_held.right_shift
            })
            &&& held.left_super == (if modifier is LeftSuper {
                active
            } else {
                old_held.left_super
            })
            &&& held.right_super == (if modifier is RightSuper {
                active
            } else {
                old_held.right_super
            })
        }),
{
}

/// A new loop has nothing held.
pub proof fn law_nothing_is_held_at_first()
    ensures
        ({
            let held = ModifierState::none();
            &&& !held.left_ctrl && !held.right_ctrl
            &&& !held.left_alt && !held.right_alt
            &&& !held.left_shift && !held.right_shift
            &&& !held.left_super && !held.right_super
        }),
{
}

/// A function key is tapped with a modifier exactly where the last event about that
/// modifier said that it is active, whatever events about other things came between.
pub proof fn law_a_tap_carries_what_was_last_said_of_a_modifier(
    d: DaemonView,
    events: Seq<(DaemonEvent, u64)>,
    i: int,
    modifier: Modifier,
    active: bool,
    index: usize,
    now_ns: u64,
)
    requires
        0 <= i < events.len(),
        events[i].0 == (DaemonEvent::Modifier { modifier, active }),
        forall|j: int|
            i < j < events.len() ==> !((#[trigger] events[j]).0 matches DaemonEvent::Modifier {
                modifier: other,
                ..
            } && other == modifier),
        after_all(d, events).fn_active,
    ensures
        after_all(d, events).after(DaemonEvent::Tap { hit: Some(index) }, now_ns).1 matches
            DaemonAction::TapFunctionKey { index: tapped, modifiers: held } && tapped == index
            && (match modifier {
            Modifier::LeftCtrl => held.left_ctrl,
            Modifier::RightCtrl => held.right_ctrl,
            Modifier::LeftAlt => held.left_alt,
            Modifier::RightAlt => held.right_alt,
            Modifier::LeftShift => held.left_shift,
            Modifier::RightShift => held.right_shift,
            Modifier::LeftSuper => held.left_super,
            Modifier::RightSuper => held.right_super,
        }) == active,
{
    lemma_last_said(d, events, i, modifier, active);
}

/// A function key is tapped without a modifier of which nothing was said since the loop
/// began.
pub proof fn law_a_tap_carries_no_modifier_that_was_not_named(
    d: DaemonView,
    events: Seq<(DaemonEvent, u64)>,
    modifier: Modifier,
    index: usize,
    now_ns: u64,
)
    requires
        d.modifiers == ModifierState::none(),
        forall|j: int|
            0 <= j < events.len() ==> !((#[trigger] events[j]).0 matches DaemonEvent::Modifier {
                modifier: other,
                ..
            } && other == modifier),
        after_all(d, events).fn_active,
    ensures
        after_all(d, events).after(DaemonEvent::Tap { hit: Some(index) }, now_ns).1 matches
            DaemonAction::TapFunctionKey { index: tapped, modifiers: held } && tapped == index
            && !(match modifier {
            Modifier::LeftCtrl => held.left_ctrl,
            Modifier::RightCtrl => held.right_ctrl,
            Modifier::LeftAlt => held.left_alt,
            Modifier::RightAlt => held.right_alt,
            Modifier::LeftShift => held.left_shift,
            Modifier::RightShift => held.right_shift,
            Modifier::LeftSuper => held.left_super,
            Modifier::RightSuper => held.right_super,
        }),
{
    lemma_never_said(d, events, modifier);
}

proof fn lemma_last_said(
    d: DaemonView,
    events: Seq<(DaemonEvent, u64)>,
    i: int,
    modifier: Modifier,
    active: bool,
)
    requires
        0 <= i < events.len(),
        events[i].0 == (DaemonEvent::Modifier { modifier, active }),
        forall|j: int|
            i < j < events.len() ==> !((#[trigger] events[j]).0 matches DaemonEvent::Modifier {
                modifier: other,
                ..
            } && other == modifier),
    ensures
        after_all(d, events).modifiers.active(modifier) == active,
    decreases events.len(),
{
    let less = events.drop_last();
    if i < events.len() - 1 {
        assert(less[i] == events[i]);
        assert forall|j: int| i < j < less.len() implies !((#[trigger] less[j]).0 matches
            DaemonEvent::Modifier { modifier: other, .. } && other == modifier) by {
            assert(less[j] == events[j]);
        }
        lemma_last_said(d, less, i, modifier, active);
        assert(events.last() == events[events.len() - 1]);
    }
}

proof fn lemma_never_said(d: DaemonView, events: Seq<(DaemonEvent, u64)>, modifier: Modifier)
    requires
        forall|j: int|
            0 <= j < events.len() ==> !((#[trigger] events[j]).0 matches DaemonEvent::Modifier {
                modifier: other,
                ..
            } && other == modifier),
    ensures
        after_all(d, events).modifiers.active(modifier) == d.modifiers.active(modifier),
    decreases events.len(),
{
    if events.len() > 0 {
        let less = events.drop_last();
        assert forall|j: int| 0 <= j < less.len() implies !((#[trigger] less[j]).0 matches
            DaemonEvent::Modifier { modifier: other, .. } && other == modifier) by {
            assert(less[j] == events[j]);
        }
        lemma_never_said(d, less, modifier);
        assert(events.last() == events[events.len() - 1]);
    }
}

/// The layer of the function keys is up exactly where the last event about Fn said that
/// it is held.
pub proof fn law_fn_is_what_was_last_said_of_it(
    d: DaemonView,
    events: Seq<(DaemonEvent, u64)>,
    i: int,
    active: bool,
)
    requires
        0 <= i < events.len(),
        events[i].0 == (DaemonEvent::Fn { active }),
        forall|j: int| i < j < events.len() ==> !((#[trigger] events[j]).0 is Fn),
    ensures
        after_all(d, events).fn_active == active,
    decreases events.len(),
{
    let less = events.drop_last();
    if i < events.len() - 1 {
        assert(less[i] == events[i]);
        assert forall|j: int| i < j < less.len() implies !((#[trigger] less[j]).0 is Fn) by {
            assert(less[j] == events[j]);
        }
        law_fn_is_what_was_last_said_of_it(d, less, i, active);
        assert(events.last() == events[events.len() - 1]);
    }
}

/// Without an event about Fn the layer stays as it is, and no event changes the strip
/// itself or the time that was last looked at.
pub proof fn law_events_leave_the_strip_alone(d: DaemonView, events: Seq<(DaemonEvent, u64)>)
    ensures
        after_all(d, events).cfg == d.cfg,
        after_all(d, events).last_tick == d.last_tick,
        d.dirty ==> after_all(d, events).dirty,
        (forall|j: int| 0 <= j < events.len() ==> !((#[trigger] events[j]).0 is Fn)) ==> after_all(
            d,
            events,
        ).fn_active == d.fn_active,
    decreases events.len(),
{
    if events.len() > 0 {
        let less = events.drop_last();
        law_events_leave_the_strip_alone(d, less);
        if forall|j: int| 0 <= j < events.len() ==> !((#[trigger] events[j]).0 is Fn) {
            assert forall|j: int| 0 <= j < less.len() implies !((#[trigger] less[j]).0 is Fn) by {
                assert(less[j] == events[j]);
            }
            assert(events.last() == events[events.len() - 1]);
        }
    }
}

/// A tap on a widget runs the action of that widget, or taps that function key while Fn
/// is held, and lights it from that moment on. It changes nothing else, and a tap beside
/// every widget changes nothing at all.
pub proof fn law_a_tap_acts_on_the_widget_it_hits(d: DaemonView, index: usize, now_ns: u64)
    ensures
        ({
            let (after, action) = d.after(DaemonEvent::Tap { hit: Some(index) }, now_ns);
            &&& d.fn_active ==> action == (DaemonAction::TapFunctionKey {
                index,
                modifiers: d.modifiers,
            })
            &&& !d.fn_active ==> action == (DaemonAction::RunWidgetAction { index })
            &&& after.pressed == Some(Press { index, since_ns: now_ns })
            &&& after.dirty
            &&& after.cfg == d.cfg && after.fn_active == d.fn_active && after.modifiers
                == d.modifiers && after.last_tick == d.last_tick
        }),
        d.after(DaemonEvent::Tap { hit: None }, now_ns) == (d, DaemonAction::Nothing),
{
}

/// Fn that goes down or comes up puts out what was lit and paints the strip again. Fn
/// that stays as it is, and the coming and going of the device or of the strip, change
/// nothing.
pub proof fn law_fn_puts_out_what_was_lit(d: DaemonView, active: bool, now_ns: u64)
    ensures
        ({
            let (after, action) = d.after(DaemonEvent::Fn { active }, now_ns);
            &&& action == DaemonAction::Nothing
            &&& after.fn_active == active
            &&& after.modifiers == d.modifiers && after.cfg == d.cfg && after.last_tick
                == d.last_tick
            &&& active != d.fn_active ==> after.pressed is None && after.dirty
            &&& active == d.fn_active ==> after == d
        }),
        d.after(DaemonEvent::Device { present: active }, now_ns) == (d, DaemonAction::Nothing),
        d.after(DaemonEvent::Visibility { visible: active }, now_ns) == (d, DaemonAction::Nothing),
{
}

/// A step keeps a lit widget lit for two hundred and twenty milliseconds and puts it out
/// after that. It remembers the time of day, and the strip is to be painted where it was
/// before, where something went out, or where the time of day changed.
pub proof fn law_a_step_puts_out_and_ticks(d: DaemonView, now_ns: u64, tick: Seq<char>)
    ensures
        ({
            let after = d.stepped(now_ns, tick);
            let out = d.pressed matches Some(press) && now_ns > press.since_ns + 220_000_000;
            &&& after.pressed == (if out { None } else { d.pressed })
            &&& after.last_tick == tick
            &&& after.dirty == (d.dirty || out || tick != d.last_tick)
            &&& after.cfg == d.cfg && after.fn_active == d.fn_active && after.modifiers
                == d.modifiers
        }),
{
}

/// The time of day is looked at by the second.
pub proof fn law_the_time_is_looked_at_by_the_second()
    ensures
        tick_format() == "%H:%M:%S"@,
{
}

/// The function row shows the twelve function keys in order, each as a plain label, on
/// black.
pub proof fn law_the_function_row_is_in_order()
    ensures
        ({
            let row = function_row();
            &&& row.background == "#000000"@
            &&& row.widgets == seq![
                WidgetView::Label { text: "F1"@, color: None, width: None },
                WidgetView::Label { text: "F2"@, color: None, width: None },
                WidgetView::Label { text: "F3"@, color: None, width: None },
                WidgetView::Label { text: "F4"@, color: None, width: None },
                WidgetView::Label { text: "F5"@, color: None, width: None },
                WidgetView::Label { text: "F6"@, color: None, width: None },
                WidgetView::Label { text: "F7"@, color: None, width: None },
                WidgetView::Label { text: "F8"@, color: None, width: None },
                WidgetView::Label { text: "F9"@, color: None, width: None },
                WidgetView::Label { text: "F10"@, color: None, width: None },
                WidgetView::Label { text: "F11"@, color: None, width: None },
                WidgetView::Label { text: "F12"@, color: None, width: None },
            ]
        }),
{
    assert(function_row().widgets =~= seq![
        WidgetView::Label { text: "F1"@, color: None, width: None },
        WidgetView::Label { text: "F2"@, color: None, width: None },
        WidgetView::Label { text: "F3"@, color: None, width: None },
        WidgetView::Label { text: "F4"@, color: None, width: None },
        WidgetView::Label { text: "F5"@, color: None, width: None },
        WidgetView::Label { text: "F6"@, color: None, width: None },
        WidgetView::Label { text: "F7"@, color: None, width: None },
        WidgetView::Label { text: "F8"@, color: None, width: None },
        WidgetView::Label { text: "F9"@, color: None, width: None },
        WidgetView::Label { text: "F10"@, color: None, width: None },
        WidgetView::Label { text: "F11"@, color: None, width: None },
        WidgetView::Label { text: "F12"@, color: None, width: None },
    ]);
}

/// A run claims the strip, paints it, steps for as long as it goes on and nothing fails,
/// and lets go. Its end says both whether anything failed before and whether letting go
/// failed.
pub proof fn law_a_run_steps_while_all_is_well(now: RunStep, failed: bool, ok: bool, running: bool)
    ensures
        ({
            let next = next_step(now, failed, ok, running);
            &&& now is Claim && ok ==> next is Paint
            &&& now is Claim && !ok ==> next is Release
            &&& now is Paint || now is Step ==> next is Step || next is Release
            &&& now is Paint || now is Step ==> (next is Step <==> ok && running)
            &&& now is Release ==> (next matches RunStep::Ended(end) && (end is Clean <==> !failed
                && ok) && (end is Failed <==> failed && ok) && (end is Held <==> !failed && !ok)
                && (end is FailedAndHeld <==> failed && !ok))
            &&& now is Ended ==> next == now
        }),
{
}

proof fn lemma_trimmed_keeps_the_middle(s: Seq<char>)
    requires
        s.len() > 0,
        !white_space(s[0]),
    ensures
        trimmed(s).len() > 0,
        trimmed(s)[0] == s[0],
    decreases s.len(),
{
    if white_space(s.last()) {
        assert(s.len() > 1);
        lemma_trimmed_keeps_the_middle(s.drop_last());
    }
}

/// The answer to a strip is taken for success exactly where it was taken.
pub proof fn law_the_answer_to_a_strip_is_understood(failure: Option<Seq<char>>)
    ensures
        reply_accepts(reply_line(failure)) == (failure is None),
        failure is None ==> reply_line(failure) == "ok\n"@,
        failure matches Some(words) ==> reply_line(failure) == "error: "@ + words + "\n"@,
        forall|reply: Seq<char>| #[trigger] reply_accepts(reply) <==> trimmed(reply) == "ok"@,
{
    reveal_strlit("ok");
    reveal_strlit("ok\n");
    reveal_strlit("error: ");
    reveal_strlit("\n");
    match failure {
        None => {
            let line = "ok\n"@;
            assert(line.drop_last() =~= "ok"@);
            reveal_with_fuel(trimmed, 3);
        },
        Some(words) => {
            let line = "error: "@ + words + "\n"@;
            assert(line[0] == 'e');
            lemma_trimmed_keeps_the_middle(line);
            assert("ok"@[0] == 'o');
        },
    }
}

/// The text or format that is set is read back, of a label, a clock and a battery alike,
/// and the kind, the color and the width stay. A spacer stays as it is.
pub proof fn law_a_text_that_is_set_is_read_back(w: WidgetView, value: Seq<char>)
    ensures
        w matches WidgetView::Label { color, width, .. } ==> (text_set(w, value) matches
            WidgetView::Label { text, color: c, width: n } && text == value && c == color && n
            == width),
        w matches WidgetView::Clock { color, width, .. } ==> (text_set(w, value) matches
            WidgetView::Clock { format, color: c, width: n } && format == value && c == color && n
            == width),
        w matches WidgetView::Battery { color, width, .. } ==> (text_set(w, value) matches
            WidgetView::Battery { format, color: c, width: n } && format == value && c == color
            && n == width),
        w is Spacer ==> text_set(w, value) == w,
{
}

/// The color that is set is read back, or none, of a label, a clock and a battery alike,
/// and everything else stays. A spacer stays as it is.
pub proof fn law_a_color_that_is_set_is_read_back(w: WidgetView, value: Option<Seq<char>>)
    ensures
        w matches WidgetView::Label { text, width, .. } ==> (color_set(w, value) matches
            WidgetView::Label { text: t, color, width: n } && color == value && t == text && n
            == width),
        w matches WidgetView::Clock { format, width, .. } ==> (color_set(w, value) matches
            WidgetView::Clock { format: f, color, width: n } && color == value && f == format && n
            == width),
        w matches WidgetView::Battery { format, width, .. } ==> (color_set(w, value) matches
            WidgetView::Battery { format: f, color, width: n } && color == value && f == format
            && n == width),
        w is Spacer ==> color_set(w, value) == w,
{
}

/// The width that is set is read back, or none, of a label, a clock and a battery alike,
/// and everything else stays. A spacer stays as it is.
pub proof fn law_a_width_that_is_set_is_read_back(w: WidgetView, value: Option<RealBits>)
    ensures
        w matches WidgetView::Label { text, color, .. } ==> (width_set(w, value) matches
            WidgetView::Label { text: t, color: c, width } && width == value && t == text && c
            == color),
        w matches WidgetView::Clock { format, color, .. } ==> (width_set(w, value) matches
            WidgetView::Clock { format: f, color: c, width } && width == value && f == format && c
            == color),
        w matches WidgetView::Battery { format, color, .. } ==> (width_set(w, value) matches
            WidgetView::Battery { format: f, color: c, width } && width == value && f == format
            && c == color),
        w is Spacer ==> width_set(w, value) == w,
{
}

/// The share that is set is read back of a spacer, and every other widget stays as it is.
pub proof fn law_a_share_that_is_set_is_read_back(w: WidgetView, value: RealBits)
    ensures
        w is Spacer ==> (flex_set(w, value) matches WidgetView::Spacer { flex } && flex == value),
        !(w is Spacer) ==> flex_set(w, value) == w,
{
}

proof fn lemma_trimmed_away(s: Seq<char>)
    ensures
        trimmed(s).len() == 0 <==> (forall|i: int| 0 <= i < s.len() ==> white_space(
            #[trigger] s[i],
        )),
    decreases s.len(),
{
    if s.len() > 0 {
        if white_space(s.first()) {
            let rest = s.drop_first();
            lemma_trimmed_away(rest);
            if trimmed(s).len() == 0 {
                assert forall|i: int| 0 <= i < s.len() implies white_space(#[trigger] s[i]) by {
                    if i > 0 {
                        assert(white_space(rest[i - 1]));
                    }
                }
            }
            if forall|i: int| 0 <= i < s.len() ==> white_space(#[trigger] s[i]) {
                assert forall|i: int| 0 <= i < rest.len() implies white_space(
                    #[trigger] rest[i],
                ) by {
                    assert(white_space(s[i + 1]));
                }
            }
        } else {
            lemma_trimmed_keeps_the_middle(s);
            assert(!white_space(s[0]));
        }
    }
}

/// A text takes a color away exactly where it holds nothing but white space. Any other
/// text is the color, as it was typed.
pub proof fn law_a_blank_color_is_none(raw: Seq<char>)
    ensures
        color_value(raw) is None <==> (forall|i: int| 0 <= i < raw.len() ==> white_space(
            #[trigger] raw[i],
        )),
        color_value(raw) matches Some(color) ==> color == raw,
{
    lemma_trimmed_away(raw);
}

/// A width counts exactly where it is a number above zero, infinity among them. A share
/// is never below one tenth, is kept where it is at least that, and what is no number or
/// below gives one tenth.
pub proof fn law_widths_and_shares_are_in_range(v: RealBits)
    ensures
        above_zero(v) <==> v.non_negative() && v.magnitude() != 0,
        at_least_flex(v).bits >= 0x3fb9_9999_9999_999a,
        at_least_flex(v).bits <= 0x7ff0_0000_0000_0000,
        above_zero(v) && v.bits >= 0x3fb9_9999_9999_999a ==> at_least_flex(v) == v,
        !above_zero(v) || v.bits < 0x3fb9_9999_9999_999a ==> at_least_flex(v).bits
            == 0x3fb9_9999_9999_999a,
{
}

/// What is added is of the kind that was asked for, with the text, width and share of a
/// new widget and no color of its own.
pub proof fn law_a_new_widget_is_of_its_kind(kind: Palette)
    ensures
        kind is Label ==> kind.fresh() == (WidgetView::Label {
            text: "new label"@,
            color: None,
            width: Some(RealBits { bits: 0x4064_0000_0000_0000 }),
        }),
        kind is Clock ==> kind.fresh() == (WidgetView::Clock {
            format: "%H:%M"@,
            color: None,
            width: Some(RealBits { bits: 0x4064_0000_0000_0000 }),
        }),
        kind is Battery ==> kind.fresh() == (WidgetView::Battery {
            format: "{capacity}%"@,
            color: None,
            width: Some(RealBits { bits: 0x4064_0000_0000_0000 }),
        }),
        kind is Spacer ==> kind.fresh() == (WidgetView::Spacer {
            flex: RealBits { bits: 0x3ff0_0000_0000_0000 },
        }),
{
}

/// Every widget but a spacer shows its text or format, its color and its width, in this
/// order; a spacer shows its share alone. The captions say which is which.
pub proof fn law_every_property_has_its_row(w: WidgetView)
    ensures
        w is Spacer ==> rows_of(w).len() == 1 && rows_of(w)[0].text() == "flex"@,
        !(w is Spacer) ==> rows_of(w).len() == 3 && rows_of(w)[1].text() == "color"@
            && rows_of(w)[2].text() == "width px (0 = flex)"@,
        w is Label ==> rows_of(w)[0].text() == "text"@,
        w is Clock ==> rows_of(w)[0].text() == "format (strftime)"@,
        w is Battery ==> rows_of(w)[0].text() == "format ({capacity})"@,
        w is Spacer ==> rows_of(w)[0] is Flex,
        !(w is Spacer) ==> rows_of(w)[1] is Color && rows_of(w)[2] is Width,
        w is Label ==> rows_of(w)[0] is Text,
        w is Clock ==> rows_of(w)[0] is ClockFormat,
        w is Battery ==> rows_of(w)[0] is BatteryFormat,
{
}

/// The line about a widget names its kind and then what it shows, or the share of a
/// spacer.
pub proof fn law_a_summary_names_kind_and_content(w: WidgetView, flex: Seq<char>)
    ensures
        w matches WidgetView::Label { text, .. } ==> summary_of(w, flex) == "label — “"@ + text
            + "”"@,
        w matches WidgetView::Clock { format, .. } ==> summary_of(w, flex) == "clock — "@ + format,
        w matches WidgetView::Battery { format, .. } ==> summary_of(w, flex) == "battery — "@
            + format,
        w is Spacer ==> summary_of(w, flex) == "spacer — flex "@ + flex,
{
}

/// A row of the list that is counted from zero is the widget with that number, and one
/// from below zero is beyond every strip that memory can hold.
pub proof fn law_a_row_is_its_widget(row: i32)
    ensures
        row >= 0 ==> row_index(row) == row,
        row < 0 ==> row_index(row) > usize::MAX / 2,
{
}

/// A step at a moment looks at the hours, minutes and seconds of that moment.
pub proof fn law_a_step_looks_at_the_second_of_its_moment(
    d: DaemonView,
    now_ns: u64,
    time: LocalTime,
)
    ensures
        d.stepped_at(now_ns, time) == d.stepped(
            now_ns,
            time_text(time.seconds, time.nanos, time.offset, "%H:%M:%S"@)->Some_0,
        ),
{
}

} // verus!
