//! What the widgets of a strip show, and why.
use vstd::prelude::*;

use crate::config::{
    all_digits, bare_color, broken_clock, charge_of, chars_value, color_channels, digit_chars,
    first_charge, hex_channel, hex_digit, level_of, number_chars, replaced, shown, shown_at,
    WidgetView,
};
use crate::local_time::{time_text, LocalTime};
use crate::text::trimmed;

verus! {

/// A label shows its own text in its own color, whatever the time and the battery are. A
/// clock shows the time that it is given in its own color. A spacer shows nothing.
pub proof fn law_labels_and_clocks_show_themselves(
    w: WidgetView,
    clock: Seq<char>,
    level: Option<i64>,
)
    ensures
        w matches WidgetView::Label { text, color, .. } ==> shown(w, clock, level) == Some(
            (text, color),
        ),
        w matches WidgetView::Clock { color, .. } ==> shown(w, clock, level) == Some((clock, color)),
        w is Spacer ==> shown(w, clock, level) is None,
{
}

/// A battery shows nothing where no level is known. Where one is known, it shows its
/// format with the level in its place, in its own color, or else in one that says how full
/// it is: green above fifty percent, amber above twenty, and red below.
pub proof fn law_a_battery_shows_its_level(
    format: Seq<char>,
    color: Option<Seq<char>>,
    w: WidgetView,
    clock: Seq<char>,
    level: i64,
)
    requires
        w matches WidgetView::Battery { format: f, color: c, .. } && f == format && c == color,
    ensures
        shown(w, clock, None) is None,
        shown(w, clock, Some(level)) matches Some((text, own)) && text == replaced(
            format,
            "{capacity}"@,
            number_chars(level),
        ) && own is Some,
        shown(w, clock, Some(level)) matches Some((_, own)) && (color is Some ==> own == color),
        shown(w, clock, Some(level)) matches Some((_, own)) && (color is None && 50 < level <= 100
            ==> own == Some("#88ffcc"@)),
        shown(w, clock, Some(level)) matches Some((_, own)) && (color is None && 20 < level <= 50
            ==> own == Some("#ffcc66"@)),
        shown(w, clock, Some(level)) matches Some((_, own)) && (color is None && (level <= 20 || level
            > 100) ==> own == Some("#ff6677"@)),
{
}

/// What a clock shows at a moment is that moment in the format of the clock. Only a clock
/// can fail, and only by its format.
pub proof fn law_a_clock_shows_the_moment_in_its_format(
    w: WidgetView,
    time: LocalTime,
    level: Option<i64>,
)
    ensures
        w matches WidgetView::Clock { format, color, .. } ==> shown_at(w, time, level) == Some(
            (time_text(time.seconds, time.nanos, time.offset, format)->Some_0, color),
        ),
        !(w is Clock) ==> forall|clock: Seq<char>| shown_at(w, time, level) == #[trigger] shown(
            w,
            clock,
            level,
        ),
        broken_clock(w) <==> (w matches WidgetView::Clock { format, .. } && time_text(
            0,
            0,
            0,
            format,
        ) is None),
{
}

/// A text without the pattern stays as it is.
pub proof fn law_a_text_without_the_pattern_stays(s: Seq<char>, pattern: Seq<char>, by: Seq<char>)
    requires
        pattern.len() > 0,
        forall|i: int|
            0 <= i <= s.len() - pattern.len() ==> #[trigger] s.subrange(i, i + pattern.len())
                != pattern,
    ensures
        replaced(s, pattern, by) == s,
    decreases s.len(),
{
    if s.len() >= pattern.len() {
        assert(s.take(pattern.len() as int) =~= s.subrange(0, 0int + pattern.len()));
        let rest = s.drop_first();
        assert forall|i: int| 0 <= i <= rest.len() - pattern.len() implies #[trigger] rest.subrange(
            i,
            i + pattern.len(),
        ) != pattern by {
            assert(rest.subrange(i, i + pattern.len()) =~= s.subrange(i + 1, i + 1 + pattern.len()));
        }
        law_a_text_without_the_pattern_stays(rest, pattern, by);
        assert(seq![s[0]] + rest =~= s);
    }
}

/// The first occurrence of the pattern gives way to what replaces it: what stands before it
/// stays, and behind it the same goes on.
pub proof fn law_the_first_occurrence_is_replaced(
    before: Seq<char>,
    rest: Seq<char>,
    pattern: Seq<char>,
    by: Seq<char>,
)
    requires
        pattern.len() > 0,
        forall|i: int|
            0 <= i < before.len() ==> #[trigger] (before + pattern + rest).subrange(
                i,
                i + pattern.len(),
            ) != pattern,
    ensures
        replaced(before + pattern + rest, pattern, by) == before + by + replaced(rest, pattern, by),
    decreases before.len(),
{
    let s = before + pattern + rest;
    if before.len() == 0 {
        assert(s.take(pattern.len() as int) =~= pattern);
        assert(s.skip(pattern.len() as int) =~= rest);
        assert(before + by + replaced(rest, pattern, by) =~= by + replaced(rest, pattern, by));
    } else {
        assert(s.take(pattern.len() as int) =~= s.subrange(0, 0int + pattern.len()));
        let less = before.drop_first();
        let tail = less + pattern + rest;
        assert(s.drop_first() =~= tail);
        assert forall|i: int| 0 <= i < less.len() implies #[trigger] tail.subrange(
            i,
            i + pattern.len(),
        ) != pattern by {
            assert(tail.subrange(i, i + pattern.len()) =~= s.subrange(i + 1, i + 1 + pattern.len()));
        }
        law_the_first_occurrence_is_replaced(less, rest, pattern, by);
        assert(seq![s[0]] + (less + by + replaced(rest, pattern, by)) =~= before + by + replaced(
            rest,
            pattern,
            by,
        ));
    }
}

proof fn lemma_digit_chars(n: nat)
    ensures
        digit_chars(n).len() > 0,
        all_digits(digit_chars(n)),
        chars_value(digit_chars(n)) == n,
        n > 0 ==> digit_chars(n)[0] != '0',
    decreases n,
{
    if n < 10 {
        let s = digit_chars(n);
        assert(s.drop_last() =~= Seq::<char>::empty());
        assert(s.last() as u32 == 0x30 + n);
        assert(chars_value(s.drop_last()) == 0);
    } else {
        lemma_digit_chars(n / 10);
        let s = digit_chars(n);
        assert(s.drop_last() =~= digit_chars(n / 10));
        assert(s.last() as u32 == 0x30 + n % 10);
        assert forall|i: int| 0 <= i < s.len() implies '0' <= #[trigger] s[i] <= '9' by {
            if i < s.len() - 1 {
                assert(s[i] == digit_chars(n / 10)[i]);
            }
        }
        assert(s[0] == digit_chars(n / 10)[0]);
    }
}

/// A number is written with a minus sign exactly where it is below zero, with digits and
/// nothing else behind it, without leading zeros; and what is written is read back as the
/// same number.
pub proof fn law_a_level_that_is_written_is_read_back(n: i64)
    ensures
        level_of(number_chars(n)) == Some(n),
        number_chars(n)[0] == '-' <==> n < 0,
        n > 0 ==> number_chars(n)[0] != '0',
        n < 0 ==> number_chars(n)[1] != '0',
        n == 0 ==> number_chars(n) == seq!['0'],
{
    if n < 0 {
        let m = (-n) as nat;
        lemma_digit_chars(m);
        let s = number_chars(n);
        assert(s[0] == '-');
        assert(s.drop_first() =~= digit_chars(m));
        assert(s[1] == digit_chars(m)[0]);
    } else {
        lemma_digit_chars(n as nat);
        let s = number_chars(n);
        assert('0' <= s[0] <= '9');
    }
}

/// Digits denote a number in tens: one more digit behind them counts ten times as much in
/// front.
pub proof fn law_digits_count_in_tens(s: Seq<char>, c: char)
    requires
        '0' <= c <= '9',
    ensures
        chars_value(s.push(c)) == 10 * chars_value(s) + (c as u32 - '0' as u32),
        chars_value(Seq::empty()) == 0,
{
    assert(s.push(c).drop_last() =~= s);
}

/// A charge is a level from nothing to one hundred percent. Any other level, and any text
/// that is no level, is no charge.
pub proof fn law_a_charge_is_a_percentage(s: Seq<char>)
    ensures
        match level_of(s) {
            Some(level) => if 0 <= level <= 100 {
                charge_of(s) == Some(level)
            } else {
                charge_of(s) is None
            },
            None => charge_of(s) is None,
        },
{
}

/// A level is digits, with at most one sign in front. Nothing else is one.
pub proof fn law_a_level_is_digits_behind_a_sign(s: Seq<char>)
    ensures
        level_of(s) is Some ==> s.len() > 0 && (forall|i: int|
            1 <= i < s.len() ==> '0' <= #[trigger] s[i] <= '9') && (('0' <= s[0] <= '9') || (s.len()
            > 1 && (s[0] == '-' || s[0] == '+'))),
        level_of(s) matches Some(level) ==> (s[0] == '-' ==> level == -(chars_value(s.drop_first())
            as int)),
        level_of(s) matches Some(level) ==> (s[0] == '+' ==> level == chars_value(s.drop_first())),
        level_of(s) matches Some(level) ==> ('0' <= s[0] <= '9' ==> level == chars_value(s)),
{
    if level_of(s) is Some {
        if s[0] == '-' || s[0] == '+' {
            let rest = s.drop_first();
            assert forall|i: int| 1 <= i < s.len() implies '0' <= #[trigger] s[i] <= '9' by {
                assert('0' <= rest[i - 1] <= '9');
            }
        } else {
            assert('0' <= s[0] <= '9');
        }
    }
}

/// The charge is that of the first power supply whose type is a battery. Supplies of
/// another type before it do not count, and neither does anything behind it, even where
/// its own charge cannot be read.
pub proof fn law_the_first_battery_counts(supplies: Seq<(String, Option<String>)>, i: int)
    requires
        0 <= i < supplies.len(),
        trimmed(supplies[i].0@) == "Battery"@,
        forall|j: int| 0 <= j < i ==> trimmed((#[trigger] supplies[j]).0@) != "Battery"@,
    ensures
        match supplies[i].1 {
            Some(text) => first_charge(supplies) == charge_of(trimmed(text@)),
            None => first_charge(supplies) is None,
        },
    decreases supplies.len(),
{
    if i > 0 {
        assert(trimmed(supplies[0].0@) != "Battery"@);
        let rest = supplies.drop_first();
        assert(rest[i - 1] == supplies[i]);
        assert forall|j: int| 0 <= j < i - 1 implies trimmed((#[trigger] rest[j]).0@)
            != "Battery"@ by {
            assert(rest[j] == supplies[j + 1]);
        }
        law_the_first_battery_counts(rest, i - 1);
    }
}

/// Without a battery there is no charge.
pub proof fn law_without_a_battery_there_is_no_charge(supplies: Seq<(String, Option<String>)>)
    requires
        forall|j: int|
            0 <= j < supplies.len() ==> trimmed((#[trigger] supplies[j]).0@) != "Battery"@,
    ensures
        first_charge(supplies) is None,
    decreases supplies.len(),
{
    if supplies.len() > 0 {
        assert(trimmed(supplies[0].0@) != "Battery"@);
        let rest = supplies.drop_first();
        assert forall|j: int| 0 <= j < rest.len() implies trimmed((#[trigger] rest[j]).0@)
            != "Battery"@ by {
            assert(rest[j] == supplies[j + 1]);
        }
        law_without_a_battery_there_is_no_charge(rest);
    }
}

/// A digit below sixteen as a character, with small or with capital letters.
pub open spec fn hex_character(d: int, capital: bool) -> u8 {
    if d < 10 {
        (0x30 + d) as u8
    } else if capital {
        (0x41 + d - 10) as u8
    } else {
        (0x61 + d - 10) as u8
    }
}

/// A color that spells red, green and blue in two digits each has these channels, with
/// small or with capital letters, and with any number of number signs in front or none.
pub proof fn law_a_color_is_red_green_and_blue(
    color: Seq<u8>,
    r: u8,
    g: u8,
    b: u8,
    capital: bool,
    signs: int,
)
    requires
        0 <= signs,
        color.len() == signs + 6,
        forall|i: int| 0 <= i < signs ==> #[trigger] color[i] == 0x23,
        color[signs] == hex_character(r as int / 16, capital),
        color[signs + 1] == hex_character(r as int % 16, capital),
        color[signs + 2] == hex_character(g as int / 16, capital),
        color[signs + 3] == hex_character(g as int % 16, capital),
        color[signs + 4] == hex_character(b as int / 16, capital),
        color[signs + 5] == hex_character(b as int % 16, capital),
    ensures
        color_channels(color) == (r, g, b),
    decreases signs,
{
    if signs > 0 {
        let rest = color.drop_first();
        assert(color[0] == 0x23);
        assert forall|i: int| 0 <= i < signs - 1 implies #[trigger] rest[i] == 0x23 by {
            assert(rest[i] == color[i + 1]);
        }
        law_a_color_is_red_green_and_blue(rest, r, g, b, capital, signs - 1);
    } else {
        assert(color[0] != 0x23);
        assert(bare_color(color) == color);
    }
}

/// What is not six bytes long without the number signs in front is white.
pub proof fn law_a_color_of_another_length_is_white(color: Seq<u8>)
    ensures
        color.len() < 6 ==> color_channels(color) == (0xffu8, 0xffu8, 0xffu8),
        color.len() > 6 && color[0] != 0x23 ==> color_channels(color) == (0xffu8, 0xffu8, 0xffu8),
        color_channels(seq![0x23u8] + color) == color_channels(color),
{
    lemma_bare_is_no_longer(color);
    let more = seq![0x23u8] + color;
    assert(more[0] == 0x23);
    assert(more.drop_first() =~= color);
}

proof fn lemma_bare_is_no_longer(color: Seq<u8>)
    ensures
        bare_color(color).len() <= color.len(),
    decreases color.len(),
{
    if color.len() > 0 && color[0] == 0x23 {
        lemma_bare_is_no_longer(color.drop_first());
    }
}

/// A channel that its two characters do not spell is full. A plus sign may stand in front
/// of a single digit.
pub proof fn law_a_channel_that_is_not_spelled_is_full(a: u8, b: u8)
    ensures
        hex_digit(b) is None ==> hex_channel(a, b) == 0xff,
        a != 0x2b && hex_digit(a) is None ==> hex_channel(a, b) == 0xff,
        a == 0x2b ==> (hex_digit(b) matches Some(low) ==> hex_channel(a, b) == low),
        hex_digit(a) is Some <==> (0x30 <= a <= 0x39 || 0x41 <= a <= 0x46 || 0x61 <= a <= 0x66),
{
}

} // verus!
