//! The widgets of a strip, and what each of them shows.
use vstd::prelude::*;
use vstd::string::{StrSliceExecFns, StringExecFns, StringSliceAdditionalSpecFns};

use crate::hardware::RealBits;
use crate::local_time::{is_time_format, local_now, write_time, LocalTime};
use crate::text::trimmed;

verus! {

/// A widget of the strip.
pub enum WidgetCfg {
    /// Fixed text.
    Label { text: String, color: Option<String>, width: Option<RealBits> },
    /// The time of day in a format.
    Clock { format: String, color: Option<String>, width: Option<RealBits> },
    /// The level of the battery in a format.
    Battery { format: String, color: Option<String>, width: Option<RealBits> },
    /// Empty space, which takes its share of the width that is left over.
    Spacer { flex: RealBits },
}

/// A strip: a background and the widgets on it, from left to right.
pub struct Config {
    pub background: String,
    pub widgets: Vec<WidgetCfg>,
}

/// What a widget holds.
pub enum WidgetView {
    Label { text: Seq<char>, color: Option<Seq<char>>, width: Option<RealBits> },
    Clock { format: Seq<char>, color: Option<Seq<char>>, width: Option<RealBits> },
    Battery { format: Seq<char>, color: Option<Seq<char>>, width: Option<RealBits> },
    Spacer { flex: RealBits },
}

/// What a strip holds.
pub struct ConfigView {
    pub background: Seq<char>,
    pub widgets: Seq<WidgetView>,
}

/// The characters of a text, where there is one.
pub open spec fn optional_text(s: Option<String>) -> Option<Seq<char>> {
    match s {
        Some(text) => Some(text@),
        None => None,
    }
}

impl View for WidgetCfg {
    type V = WidgetView;

    open spec fn view(&self) -> WidgetView {
        match *self {
            WidgetCfg::Label { text, color, width } => WidgetView::Label {
                text: text@,
                color: optional_text(color),
                width,
            },
            WidgetCfg::Clock { format, color, width } => WidgetView::Clock {
                format: format@,
                color: optional_text(color),
                width,
            },
            WidgetCfg::Battery { format, color, width } => WidgetView::Battery {
                format: format@,
                color: optional_text(color),
                width,
            },
            WidgetCfg::Spacer { flex } => WidgetView::Spacer { flex },
        }
    }
}

/// What some widgets hold.
pub open spec fn widget_views(widgets: Seq<WidgetCfg>) -> Seq<WidgetView> {
    widgets.map_values(|w: WidgetCfg| w@)
}

impl View for Config {
    type V = ConfigView;

    open spec fn view(&self) -> ConfigView {
        ConfigView { background: self.background@, widgets: widget_views(self.widgets@) }
    }
}

/// The bits of the number one.
pub const ONE_BITS: u64 = 0x3ff0_0000_0000_0000;

/// The background of a strip that names none.
pub fn default_bg() -> (s: String)
    ensures
        s@ == "#000000"@,
{
    "#000000".to_owned()
}

/// The format of a clock that names none.
pub fn default_clock_fmt() -> (s: String)
    ensures
        s@ == "%H:%M"@,
{
    "%H:%M".to_owned()
}

/// The format of a battery that names none.
pub fn default_battery_fmt() -> (s: String)
    ensures
        s@ == "{capacity}%"@,
{
    "{capacity}%".to_owned()
}

/// The share of a spacer that names none.
pub fn one() -> (flex: RealBits)
    ensures
        flex.bits == ONE_BITS,
{
    RealBits { bits: ONE_BITS }
}

/// The value of a hexadecimal digit.
pub open spec fn hex_digit(b: u8) -> Option<u8> {
    if 0x30 <= b <= 0x39 {
        Some((b - 0x30) as u8)
    } else if 0x61 <= b <= 0x66 {
        Some((b - 0x57) as u8)
    } else if 0x41 <= b <= 0x46 {
        Some((b - 0x37) as u8)
    } else {
        None
    }
}

/// The channel that two characters spell, and full where they spell none. A plus sign
/// may stand in front of a single digit.
pub open spec fn hex_channel(a: u8, b: u8) -> u8 {
    match hex_digit(b) {
        None => 0xff,
        Some(low) => if a == 0x2b {
            low
        } else {
            match hex_digit(a) {
                Some(high) => (16 * high + low) as u8,
                None => 0xff,
            }
        },
    }
}

/// A color without the number signs in front.
pub open spec fn bare_color(s: Seq<u8>) -> Seq<u8>
    decreases s.len(),
{
    if s.len() > 0 && s[0] == 0x23 {
        bare_color(s.drop_first())
    } else {
        s
    }
}

/// The three channels of a color. What is not six bytes long is white.
pub open spec fn color_channels(s: Seq<u8>) -> (u8, u8, u8) {
    let c = bare_color(s);
    if c.len() == 6 {
        (hex_channel(c[0], c[1]), hex_channel(c[2], c[3]), hex_channel(c[4], c[5]))
    } else {
        (0xff, 0xff, 0xff)
    }
}

/// A byte inside a character of several bytes.
pub open spec fn inside_character(b: u8) -> bool {
    0x80 <= b < 0xc0
}

/// A color whose channels begin where characters do.
pub open spec fn readable_color(s: Seq<u8>) -> bool {
    let c = bare_color(s);
    c.len() == 6 ==> !inside_character(c[2]) && !inside_character(c[4])
}

fn digit_value(b: u8) -> (r: Option<u8>)
    ensures
        r == hex_digit(b),
        r matches Some(v) ==> v < 16,
{
    if b >= 0x30 && b <= 0x39 {
        Some(b - 0x30)
    } else if b >= 0x61 && b <= 0x66 {
        Some(b - 0x57)
    } else if b >= 0x41 && b <= 0x46 {
        Some(b - 0x37)
    } else {
        None
    }
}

fn channel(a: u8, b: u8) -> (v: u8)
    ensures
        v == hex_channel(a, b),
{
    match digit_value(b) {
        None => 0xff,
        Some(low) => if a == 0x2b {
            low
        } else {
            match digit_value(a) {
                Some(high) => 16 * high + low,
                None => 0xff,
            }
        },
    }
}

/// The three channels of a color, from nothing to full.
pub fn hex(color: &str) -> (r: (u8, u8, u8))
    requires
        readable_color(color.spec_bytes()),
    ensures
        r == color_channels(color.spec_bytes()),
{
    let s: &[u8] = color.as_bytes();
    let mut from: usize = 0;
    assert(s@.skip(0) =~= s@);
    while from < s.len() && s[from] == 0x23
        invariant
            from <= s@.len(),
            bare_color(s@) == bare_color(s@.skip(from as int)),
        decreases s@.len() - from,
    {
        assert(s@.skip(from as int).drop_first() =~= s@.skip(from + 1));
        from += 1;
    }
    let ghost c = s@.skip(from as int);
    assert(bare_color(s@) == c);
    if s.len() - from == 6 {
        (
            channel(s[from], s[from + 1]),
            channel(s[from + 2], s[from + 3]),
            channel(s[from + 4], s[from + 5]),
        )
    } else {
        (0xff, 0xff, 0xff)
    }
}

/// The color of a battery at a level: green, amber, or red.
pub open spec fn battery_color(level: i64) -> Seq<char> {
    if 51 <= level <= 100 {
        "#88ffcc"@
    } else if 21 <= level <= 50 {
        "#ffcc66"@
    } else {
        "#ff6677"@
    }
}

/// The digits of a number as characters.
pub open spec fn digit_chars(n: nat) -> Seq<char>
    decreases n,
{
    if n < 10 {
        seq![(0x30 + n) as u8 as char]
    } else {
        digit_chars(n / 10).push((0x30 + n % 10) as u8 as char)
    }
}

/// A number in decimal, with a minus sign in front where it is negative.
pub open spec fn number_chars(n: i64) -> Seq<char> {
    if n < 0 {
        seq!['-'] + digit_chars((-n) as nat)
    } else {
        digit_chars(n as nat)
    }
}

/// The place that a format keeps for the level.
pub open spec fn level_place() -> Seq<char> {
    "{capacity}"@
}

/// A text with every occurrence of a pattern replaced, from left to right.
pub open spec fn replaced(s: Seq<char>, pattern: Seq<char>, by: Seq<char>) -> Seq<char>
    decreases s.len(),
{
    if pattern.len() == 0 || s.len() < pattern.len() {
        s
    } else if s.take(pattern.len() as int) == pattern {
        by + replaced(s.skip(pattern.len() as int), pattern, by)
    } else {
        seq![s[0]] + replaced(s.drop_first(), pattern, by)
    }
}

/// What a widget shows, and its color where it has one. The time is given as text, and
/// the level where one is known.
pub open spec fn shown(w: WidgetView, clock: Seq<char>, level: Option<i64>) -> Option<
    (Seq<char>, Option<Seq<char>>),
> {
    match w {
        WidgetView::Label { text, color, .. } => Some((text, color)),
        WidgetView::Clock { color, .. } => Some((clock, color)),
        WidgetView::Battery { format, color, .. } => match level {
            None => None,
            Some(level) => Some(
                (
                    replaced(format, level_place(), number_chars(level)),
                    match color {
                        Some(own) => Some(own),
                        None => Some(battery_color(level)),
                    },
                ),
            ),
        },
        WidgetView::Spacer { .. } => None,
    }
}

fn digit_text(d: u8) -> (s: &'static str)
    requires
        d < 10,
    ensures
        s@ == seq![(0x30 + d) as u8 as char],
{
    proof {
        reveal_strlit("0");
        reveal_strlit("1");
        reveal_strlit("2");
        reveal_strlit("3");
        reveal_strlit("4");
        reveal_strlit("5");
        reveal_strlit("6");
        reveal_strlit("7");
        reveal_strlit("8");
        reveal_strlit("9");
    }
    let s: &'static str = match d {
        0 => "0",
        1 => "1",
        2 => "2",
        3 => "3",
        4 => "4",
        5 => "5",
        6 => "6",
        7 => "7",
        8 => "8",
        _ => "9",
    };
    assert(s@ =~= seq![(0x30 + d) as u8 as char]);
    s
}

fn append_digits(s: &mut String, n: u64)
    ensures
        final(s)@ == old(s)@ + digit_chars(n as nat),
    decreases n,
{
    if n < 10 {
        s.append(digit_text(n as u8));
    } else {
        append_digits(s, n / 10);
        s.append(digit_text((n % 10) as u8));
        assert(s@ =~= old(s)@ + digit_chars(n as nat));
    }
}

/// A number in decimal.
pub fn number_text(n: i64) -> (s: String)
    ensures
        s@ == number_chars(n),
{
    let mut s: String = String::new();
    if n < 0 {
        proof {
            reveal_strlit("-");
        }
        s.append("-");
        let size: u64 = (-(n as i128)) as u64;
        append_digits(&mut s, size);
        assert(s@ =~= number_chars(n));
    } else {
        append_digits(&mut s, n as u64);
        assert(s@ =~= number_chars(n));
    }
    s
}

/// Whether the characters of `s` from `at` on begin with a pattern.
fn begins_with(s: &str, at: usize, pattern: &str) -> (r: bool)
    requires
        at <= s@.len(),
    ensures
        r == (s@.len() - at >= pattern@.len() && s@.skip(at as int).take(pattern@.len() as int)
            == pattern@),
{
    let n: usize = s.unicode_len();
    let m: usize = pattern.unicode_len();
    if n - at < m {
        return false;
    }
    let ghost part = s@.skip(at as int).take(m as int);
    let mut i: usize = 0;
    while i < m
        invariant
            i <= m,
            m == pattern@.len(),
            n == s@.len(),
            at + m <= n,
            part == s@.skip(at as int).take(m as int),
            forall|j: int| 0 <= j < i ==> #[trigger] part[j] == pattern@[j],
        decreases m - i,
    {
        if s.get_char(at + i) != pattern.get_char(i) {
            assert(part[i as int] != pattern@[i as int]);
            return false;
        }
        i += 1;
    }
    assert(part =~= pattern@);
    true
}

/// A text with every occurrence of a pattern replaced.
pub fn replace_all(s: &str, pattern: &str, by: &str) -> (r: String)
    ensures
        r@ == replaced(s@, pattern@, by@),
{
    let n: usize = s.unicode_len();
    let m: usize = pattern.unicode_len();
    let mut r: String = String::new();
    let mut i: usize = 0;
    assert(s@.skip(0) =~= s@);
    assert(r@ + replaced(s@, pattern@, by@) =~= replaced(s@, pattern@, by@));
    while i < n && m > 0 && n - i >= m
        invariant
            i <= n,
            n == s@.len(),
            m == pattern@.len(),
            r@ + replaced(s@.skip(i as int), pattern@, by@) == replaced(s@, pattern@, by@),
        decreases n - i,
    {
        let ghost rest = s@.skip(i as int);
        let ghost before = r@;
        if begins_with(s, i, pattern) {
            r.append(by);
            assert(rest.skip(m as int) =~= s@.skip(i + m));
            assert(before + (by@ + replaced(s@.skip(i + m), pattern@, by@)) =~= r@ + replaced(
                s@.skip(i + m),
                pattern@,
                by@,
            ));
            i = i + m;
        } else {
            r.append(s.substring_char(i, i + 1));
            assert(s@.subrange(i as int, i + 1) =~= seq![rest[0]]);
            assert(rest.drop_first() =~= s@.skip(i + 1));
            assert(before + (seq![rest[0]] + replaced(s@.skip(i + 1), pattern@, by@)) =~= r@
                + replaced(s@.skip(i + 1), pattern@, by@));
            i = i + 1;
        }
    }
    r.append(s.substring_char(i, n));
    assert(s@.subrange(i as int, n as int) =~= s@.skip(i as int));
    r
}

/// What a widget shows, and its color where it has one.
pub fn widget_text(w: &WidgetCfg, clock: &str, level: Option<i64>) -> (r: Option<
    (String, Option<String>),
>)
    ensures
        match r {
            Some((text, color)) => shown(w@, clock@, level) == Some((text@, optional_text(color))),
            None => shown(w@, clock@, level) is None,
        },
{
    match w {
        WidgetCfg::Label { text, color, .. } => Some((text.clone(), copy_text(color))),
        WidgetCfg::Clock { color, .. } => Some((clock.to_owned(), copy_text(color))),
        WidgetCfg::Battery { format, color, .. } => match level {
            None => None,
            Some(level) => {
                let number: String = number_text(level);
                let text: String = replace_all(format.as_str(), "{capacity}", number.as_str());
                let own: Option<String> = match color {
                    Some(own) => Some(own.clone()),
                    None => Some(
                        if level >= 51 && level <= 100 {
                            "#88ffcc".to_owned()
                        } else if level >= 21 && level <= 50 {
                            "#ffcc66".to_owned()
                        } else {
                            "#ff6677".to_owned()
                        },
                    ),
                };
                Some((text, own))
            },
        },
        WidgetCfg::Spacer { .. } => None,
    }
}

/// The format of a clock is none.
#[derive(Clone, Copy, Debug, PartialEq, Eq, Structural)]
pub struct BadTimeFormat;

/// A clock whose format is none.
pub open spec fn broken_clock(w: WidgetView) -> bool {
    w matches WidgetView::Clock { format, .. } && !is_time_format(format)
}

/// The text of a clock at a moment. Nothing else has one.
pub open spec fn clock_text(w: WidgetView, time: LocalTime) -> Seq<char> {
    match w {
        WidgetView::Clock { format, .. } => time.written(format)->Some_0,
        _ => Seq::empty(),
    }
}

/// What a widget shows at a moment.
pub open spec fn shown_at(w: WidgetView, time: LocalTime, level: Option<i64>) -> Option<
    (Seq<char>, Option<Seq<char>>),
> {
    shown(w, clock_text(w, time), level)
}

/// The texts of what a widget shows.
pub open spec fn seen(r: Option<(String, Option<String>)>) -> Option<
    (Seq<char>, Option<Seq<char>>),
> {
    match r {
        Some((text, color)) => Some((text@, optional_text(color))),
        None => None,
    }
}

/// What a widget shows at a moment. A clock shows the time, and only a clock whose format
/// is none fails.
pub fn widget_text_at(w: &WidgetCfg, time: LocalTime, level: Option<i64>) -> (r: Result<
    Option<(String, Option<String>)>,
    BadTimeFormat,
>)
    requires
        time.valid(),
    ensures
        match r {
            Ok(r) => !broken_clock(w@) && seen(r) == shown_at(w@, time, level),
            Err(_) => broken_clock(w@),
        },
{
    let clock: String = match w {
        WidgetCfg::Clock { format, .. } => match write_time(time, format.as_str()) {
            Some(text) => text,
            None => {
                return Err(BadTimeFormat);
            },
        },
        _ => String::new(),
    };
    assert(!(w@ is Clock) ==> clock@ =~= Seq::empty());
    Ok(widget_text(w, clock.as_str(), level))
}

/// What a widget shows now: what it shows at the moment that the clock of the machine
/// gives.
pub fn widget_text_now(w: &WidgetCfg, level: Option<i64>) -> (r: Result<
    Option<(String, Option<String>)>,
    BadTimeFormat,
>)
    ensures
        match r {
            Ok(r) => !broken_clock(w@) && exists|time: LocalTime|
                time.valid() && seen(r) == #[trigger] shown_at(w@, time, level),
            Err(_) => broken_clock(w@),
        },
{
    widget_text_at(w, local_now(), level)
}

/// The same text, where there is one.
pub(crate) fn copy_text(s: &Option<String>) -> (r: Option<String>)
    ensures
        optional_text(r) == optional_text(*s),
{
    match s {
        Some(text) => Some(text.clone()),
        None => None,
    }
}

/// The level that a text spells: digits, with a sign in front where there is one.
pub open spec fn level_of(s: Seq<char>) -> Option<i64> {
    if s.len() == 0 {
        None
    } else {
        let signed = s[0] == '-' || s[0] == '+';
        let digits = if signed {
            s.drop_first()
        } else {
            s
        };
        let value = chars_value(digits);
        if digits.len() == 0 || !all_digits(digits) {
            None
        } else if s[0] == '-' {
            if value <= 0x8000_0000_0000_0000 {
                Some((-(value as int)) as i64)
            } else {
                None
            }
        } else if value <= i64::MAX {
            Some(value as i64)
        } else {
            None
        }
    }
}

/// Nothing but digits.
pub open spec fn all_digits(s: Seq<char>) -> bool {
    forall|i: int| 0 <= i < s.len() ==> '0' <= #[trigger] s[i] <= '9'
}

/// The number that digits denote.
pub open spec fn chars_value(s: Seq<char>) -> nat
    decreases s.len(),
{
    if s.len() == 0 {
        0
    } else {
        10 * chars_value(s.drop_last()) + (s.last() as u32 - 0x30) as nat
    }
}

proof fn lemma_prefix_value(s: Seq<char>, n: int)
    requires
        0 <= n <= s.len(),
    ensures
        chars_value(s.take(n)) <= chars_value(s),
    decreases s.len(),
{
    if n < s.len() {
        assert(s.drop_last().take(n) =~= s.take(n));
        lemma_prefix_value(s.drop_last(), n);
    } else {
        assert(s.take(n) =~= s);
    }
}

/// Reads a level.
pub fn parse_level(s: &str) -> (r: Option<i64>)
    ensures
        r == level_of(s@),
{
    let n: usize = s.unicode_len();
    if n == 0 {
        return None;
    }
    let first: char = s.get_char(0);
    let negative: bool = first == '-';
    let from: usize = if negative || first == '+' {
        1
    } else {
        0
    };
    let ghost digits = s@.skip(from as int);
    assert(from == 0 ==> digits =~= s@);
    assert(from == 1 ==> digits =~= s@.drop_first());
    if from == n {
        return None;
    }
    let limit: u64 = if negative {
        0x8000_0000_0000_0000
    } else {
        0x7fff_ffff_ffff_ffff
    };
    let mut value: u64 = 0;
    let mut i: usize = from;
    assert(digits.take(0) =~= Seq::empty());
    while i < n
        invariant
            from <= i <= n,
            n == s@.len(),
            digits == s@.skip(from as int),
            value == chars_value(digits.take(i - from)),
            value <= limit,
            n > 0,
            negative == (s@[0] == '-'),
            digits == (if s@[0] == '-' || s@[0] == '+' {
                s@.drop_first()
            } else {
                s@
            }),
            digits.len() > 0,
            limit == (if negative {
                0x8000_0000_0000_0000u64
            } else {
                0x7fff_ffff_ffff_ffffu64
            }),
            forall|j: int| 0 <= j < i - from ==> '0' <= #[trigger] digits[j] <= '9',
        decreases n - i,
    {
        let c: char = s.get_char(i);
        assert(digits[i - from] == c);
        if c < '0' || c > '9' {
            assert(!all_digits(digits));
            return None;
        }
        proof {
            assert(digits.take(i - from + 1).drop_last() =~= digits.take(i - from));
            assert(digits.take(i - from + 1).last() == c);
            lemma_prefix_value(digits, i - from + 1);
        }
        let d: u64 = (c as u32 - 0x30) as u64;
        let wide: u128 = value as u128 * 10 + d as u128;
        if wide > limit as u128 {
            return None;
        }
        value = wide as u64;
        i += 1;
    }
    assert(digits.take(i - from) =~= digits);
    assert(all_digits(digits));
    if negative {
        Some((-(value as i128)) as i64)
    } else {
        Some(value as i64)
    }
}

/// Whether the type of a power supply, as the system gives it, is a battery.
pub fn is_battery(kind: &str) -> (r: bool)
    ensures
        r == (trimmed(kind@) == "Battery"@),
{
    same_text(kind.trim(), "Battery")
}

/// The charge that a text spells: a level in percent.
pub open spec fn charge_of(s: Seq<char>) -> Option<i64> {
    match level_of(s) {
        Some(level) if 0 <= level <= 100 => Some(level),
        _ => None,
    }
}

/// The charge of a battery in percent, as the system gives it. A number that is no
/// percentage is no charge.
pub fn battery_level(text: &str) -> (r: Option<i64>)
    ensures
        r == charge_of(trimmed(text@)),
        r matches Some(level) ==> 0 <= level <= 100,
{
    match parse_level(text.trim()) {
        Some(level) if 0 <= level && level <= 100 => Some(level),
        _ => None,
    }
}

/// The charge of the first battery among power supplies, each with its type and, where it
/// can be read, its charge. The batteries behind the first are not looked at.
pub open spec fn first_charge(supplies: Seq<(String, Option<String>)>) -> Option<i64>
    decreases supplies.len(),
{
    if supplies.len() == 0 {
        None
    } else if trimmed(supplies[0].0@) == "Battery"@ {
        match supplies[0].1 {
            Some(text) => charge_of(trimmed(text@)),
            None => None,
        }
    } else {
        first_charge(supplies.drop_first())
    }
}

/// The charge of the first battery, of 0 to 100 percent.
pub fn battery_capacity(supplies: &Vec<(String, Option<String>)>) -> (r: Option<i64>)
    ensures
        r == first_charge(supplies@),
        r matches Some(level) ==> 0 <= level <= 100,
{
    let mut i: usize = 0;
    assert(supplies@.skip(0) =~= supplies@);
    while i < supplies.len()
        invariant
            i <= supplies@.len(),
            first_charge(supplies@) == first_charge(supplies@.skip(i as int)),
        decreases supplies@.len() - i,
    {
        assert(supplies@.skip(i as int)[0] == supplies@[i as int]);
        if is_battery(supplies[i].0.as_str()) {
            return match &supplies[i].1 {
                Some(text) => battery_level(text.as_str()),
                None => None,
            };
        }
        assert(supplies@.skip(i as int).drop_first() =~= supplies@.skip(i + 1));
        i += 1;
    }
    None
}

/// Whether two texts are the same.
pub fn same_text(a: &str, b: &str) -> (r: bool)
    ensures
        r == (a@ == b@),
{
    let n: usize = a.unicode_len();
    if n != b.unicode_len() {
        return false;
    }
    let mut i: usize = 0;
    while i < n
        invariant
            i <= n,
            n == a@.len(),
            n == b@.len(),
            forall|j: int| 0 <= j < i ==> #[trigger] a@[j] == b@[j],
        decreases n - i,
    {
        if a.get_char(i) != b.get_char(i) {
            return false;
        }
        i += 1;
    }
    assert(a@ =~= b@);
    true
}

} // verus!
