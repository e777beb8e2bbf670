//! What crosses the hardware seam: keys, contacts, lifecycle events and frames.
use vstd::prelude::*;

use crate::events::FrameCorrelation;

verus! {

/// A double as its IEEE-754 bits. The library orders and compares such values
/// only through the predicates below; the bits themselves are never rounded.
#[derive(Clone, Copy, Debug, PartialEq, Eq, Structural)]
pub struct RealBits {
    pub bits: u64,
}

/// The bits of `1.0`.
pub const ONE_BITS: u64 = 0x3ff0_0000_0000_0000;

/// The bits of positive infinity: every smaller magnitude is finite.
pub const INFINITY_BITS: u64 = 0x7ff0_0000_0000_0000;

/// The sign bit.
pub const SIGN_BIT: u64 = 0x8000_0000_0000_0000;

impl RealBits {
    /// The bits of the absolute value.
    pub open spec fn magnitude(self) -> int {
        self.bits as int % SIGN_BIT as int
    }

    /// Neither an infinity nor a NaN.
    pub open spec fn finite(self) -> bool {
        self.magnitude() < INFINITY_BITS
    }

    pub open spec fn nan(self) -> bool {
        self.magnitude() > INFINITY_BITS
    }

    /// At least zero. Negative zero equals zero.
    pub open spec fn non_negative(self) -> bool {
        !self.nan() && (self.bits < SIGN_BIT || self.magnitude() == 0)
    }

    /// Equality of the numbers: the two zeros are equal, a NaN equals nothing.
    pub open spec fn same_number(self, other: RealBits) -> bool {
        !self.nan() && !other.nan() && (self.bits == other.bits || (self.magnitude() == 0
            && other.magnitude() == 0))
    }

    /// Between zero and one, both included.
    pub open spec fn in_unit_interval(self) -> bool {
        self.non_negative() && self.magnitude() <= ONE_BITS
    }

    /// Whether the value is finite and at least zero.
    pub fn is_finite_non_negative(self) -> (r: bool)
        ensures
            r == (self.finite() && self.non_negative()),
    {
        self.bits < INFINITY_BITS || self.bits == SIGN_BIT
    }

    /// Whether the value lies between zero and one.
    pub fn is_in_unit_interval(self) -> (r: bool)
        ensures
            r == self.in_unit_interval(),
    {
        self.bits <= ONE_BITS || self.bits == SIGN_BIT
    }

    /// Whether two values are equal as numbers.
    pub fn equals(self, other: RealBits) -> (r: bool)
        ensures
            r == self.same_number(other),
    {
        let a: u64 = if self.bits < SIGN_BIT {
            self.bits
        } else {
            self.bits - SIGN_BIT
        };
        let b: u64 = if other.bits < SIGN_BIT {
            other.bits
        } else {
            other.bits - SIGN_BIT
        };
        a <= INFINITY_BITS && b <= INFINITY_BITS && (self.bits == other.bits || (a == 0 && b == 0))
    }
}

/// Equality of two optional numbers.
pub open spec fn same_optional(a: Option<RealBits>, b: Option<RealBits>) -> bool {
    match (a, b) {
        (None, None) => true,
        (Some(x), Some(y)) => x.same_number(y),
        _ => false,
    }
}

fn equal_optional(a: Option<RealBits>, b: Option<RealBits>) -> (r: bool)
    ensures
        r == same_optional(a, b),
{
    match (a, b) {
        (None, None) => true,
        (Some(x), Some(y)) => x.equals(y),
        _ => false,
    }
}

/// A physical modifier key.
#[derive(Clone, Copy, Debug, PartialEq, Eq, Structural)]
pub enum Modifier {
    LeftCtrl,
    RightCtrl,
    LeftAlt,
    RightAlt,
    LeftShift,
    RightShift,
    LeftSuper,
    RightSuper,
}

/// How many modifiers there are.
pub const MODIFIER_COUNT: usize = 8;

impl Modifier {
    /// The position of a modifier in wire order.
    pub open spec fn position(self) -> int {
        match self {
            Modifier::LeftCtrl => 0,
            Modifier::RightCtrl => 1,
            Modifier::LeftAlt => 2,
            Modifier::RightAlt => 3,
            Modifier::LeftShift => 4,
            Modifier::RightShift => 5,
            Modifier::LeftSuper => 6,
            Modifier::RightSuper => 7,
        }
    }

    /// The position of this modifier in wire order.
    pub fn index(self) -> (i: usize)
        ensures
            i == self.position(),
            i < MODIFIER_COUNT,
    {
        match self {
            Modifier::LeftCtrl => 0,
            Modifier::RightCtrl => 1,
            Modifier::LeftAlt => 2,
            Modifier::RightAlt => 3,
            Modifier::LeftShift => 4,
            Modifier::RightShift => 5,
            Modifier::LeftSuper => 6,
            Modifier::RightSuper => 7,
        }
    }

    /// The modifier at a position in wire order, if there is one.
    pub fn from_index(index: u8) -> (m: Option<Modifier>)
        ensures
            m is Some == (index < 8),
            m matches Some(found) ==> found.position() == index,
    {
        match index {
            0 => Some(Modifier::LeftCtrl),
            1 => Some(Modifier::RightCtrl),
            2 => Some(Modifier::LeftAlt),
            3 => Some(Modifier::RightAlt),
            4 => Some(Modifier::LeftShift),
            5 => Some(Modifier::RightShift),
            6 => Some(Modifier::LeftSuper),
            7 => Some(Modifier::RightSuper),
            _ => None,
        }
    }
}

/// The modifier at a position in wire order.
pub open spec fn modifier_at(position: int) -> Modifier {
    if position == 0 {
        Modifier::LeftCtrl
    } else if position == 1 {
        Modifier::RightCtrl
    } else if position == 2 {
        Modifier::LeftAlt
    } else if position == 3 {
        Modifier::RightAlt
    } else if position == 4 {
        Modifier::LeftShift
    } else if position == 5 {
        Modifier::RightShift
    } else if position == 6 {
        Modifier::LeftSuper
    } else {
        Modifier::RightSuper
    }
}

/// Which modifiers are held.
#[derive(Clone, Copy, Debug, PartialEq, Eq, Structural)]
pub struct ModifierState {
    pub left_ctrl: bool,
    pub right_ctrl: bool,
    pub left_alt: bool,
    pub right_alt: bool,
    pub left_shift: bool,
    pub right_shift: bool,
    pub left_super: bool,
    pub right_super: bool,
}

impl ModifierState {
    /// Whether `modifier` is held.
    pub open spec fn active(self, modifier: Modifier) -> bool {
        match modifier {
            Modifier::LeftCtrl => self.left_ctrl,
            Modifier::RightCtrl => self.right_ctrl,
            Modifier::LeftAlt => self.left_alt,
            Modifier::RightAlt => self.right_alt,
            Modifier::LeftShift => self.left_shift,
            Modifier::RightShift => self.right_shift,
            Modifier::LeftSuper => self.left_super,
            Modifier::RightSuper => self.right_super,
        }
    }

    /// The state in which `modifier` is held or not, and every other is as before.
    pub open spec fn with(self, modifier: Modifier, active: bool) -> ModifierState {
        match modifier {
            Modifier::LeftCtrl => ModifierState { left_ctrl: active, ..self },
            Modifier::RightCtrl => ModifierState { right_ctrl: active, ..self },
            Modifier::LeftAlt => ModifierState { left_alt: active, ..self },
            Modifier::RightAlt => ModifierState { right_alt: active, ..self },
            Modifier::LeftShift => ModifierState { left_shift: active, ..self },
            Modifier::RightShift => ModifierState { right_shift: active, ..self },
            Modifier::LeftSuper => ModifierState { left_super: active, ..self },
            Modifier::RightSuper => ModifierState { right_super: active, ..self },
        }
    }

    /// No modifier is held.
    pub open spec fn none() -> ModifierState {
        ModifierState {
            left_ctrl: false,
            right_ctrl: false,
            left_alt: false,
            right_alt: false,
            left_shift: false,
            right_shift: false,
            left_super: false,
            right_super: false,
        }
    }

    /// The state in which no modifier is held.
    pub fn empty() -> (s: ModifierState)
        ensures
            s == ModifierState::none(),
    {
        ModifierState {
            left_ctrl: false,
            right_ctrl: false,
            left_alt: false,
            right_alt: false,
            left_shift: false,
            right_shift: false,
            left_super: false,
            right_super: false,
        }
    }

    /// Records that `modifier` is held or released.
    pub fn set(&mut self, modifier: Modifier, active: bool)
        ensures
            *final(self) == old(self).with(modifier, active),
    {
        match modifier {
            Modifier::LeftCtrl => self.left_ctrl = active,
            Modifier::RightCtrl => self.right_ctrl = active,
            Modifier::LeftAlt => self.left_alt = active,
            Modifier::RightAlt => self.right_alt = active,
            Modifier::LeftShift => self.left_shift = active,
            Modifier::RightShift => self.right_shift = active,
            Modifier::LeftSuper => self.left_super = active,
            Modifier::RightSuper => self.right_super = active,
        }
    }

    /// Whether `modifier` is held.
    pub fn is_active(self, modifier: Modifier) -> (r: bool)
        ensures
            r == self.active(modifier),
    {
        match modifier {
            Modifier::LeftCtrl => self.left_ctrl,
            Modifier::RightCtrl => self.right_ctrl,
            Modifier::LeftAlt => self.left_alt,
            Modifier::RightAlt => self.right_alt,
            Modifier::LeftShift => self.left_shift,
            Modifier::RightShift => self.right_shift,
            Modifier::LeftSuper => self.left_super,
            Modifier::RightSuper => self.right_super,
        }
    }
}

/// Setting one modifier changes that modifier and no other.
pub proof fn law_set_changes_one_modifier(s: ModifierState, m: Modifier, active: bool, other: Modifier)
    ensures
        s.with(m, active).active(m) == active,
        other != m ==> s.with(m, active).active(other) == s.active(other),
{
}

/// The observed state of Fn and the modifiers.
#[derive(Clone, Copy, Debug, PartialEq, Eq, Structural)]
pub struct InputState {
    pub fn_active: bool,
    pub modifiers: ModifierState,
}

/// A key whose held state is tracked.
#[derive(Clone, Copy, Debug, PartialEq, Eq, Structural)]
pub enum ObservedKey {
    Fn,
    Modifier(Modifier),
}

/// One change of a tracked key, with the state that results.
#[derive(Clone, Copy, Debug, PartialEq, Eq, Structural)]
pub struct InputTransition {
    pub key: ObservedKey,
    pub active: bool,
    pub state: InputState,
}

impl InputState {
    /// Nothing is held.
    pub open spec fn none() -> InputState {
        InputState { fn_active: false, modifiers: ModifierState::none() }
    }

    /// Whether `key` is held.
    pub open spec fn holds(self, key: ObservedKey) -> bool {
        match key {
            ObservedKey::Fn => self.fn_active,
            ObservedKey::Modifier(modifier) => self.modifiers.active(modifier),
        }
    }

    /// The state in which `key` is held or not, and every other key is as before.
    pub open spec fn with(self, key: ObservedKey, active: bool) -> InputState {
        match key {
            ObservedKey::Fn => InputState { fn_active: active, ..self },
            ObservedKey::Modifier(modifier) => InputState {
                modifiers: self.modifiers.with(modifier, active),
                ..self
            },
        }
    }

    /// The state in which nothing is held.
    pub fn empty() -> (s: InputState)
        ensures
            s == InputState::none(),
    {
        InputState { fn_active: false, modifiers: ModifierState::empty() }
    }

    /// Records a key and reports whether its state changed.
    pub fn apply(&mut self, key: ObservedKey, active: bool) -> (changed: bool)
        ensures
            changed == (old(self).holds(key) != active),
            *final(self) == old(self).with(key, active),
    {
        let before: bool = match key {
            ObservedKey::Fn => self.fn_active,
            ObservedKey::Modifier(modifier) => self.modifiers.is_active(modifier),
        };
        if before == active {
            return false;
        }
        match key {
            ObservedKey::Fn => self.fn_active = active,
            ObservedKey::Modifier(modifier) => self.modifiers.set(modifier, active),
        }
        true
    }
}

/// A key of the virtual keyboard.
#[derive(Clone, Copy, Debug, PartialEq, Eq, Structural)]
pub enum KeyboardKey {
    Escape,
    F1,
    F2,
    F3,
    F4,
    F5,
    F6,
    F7,
    F8,
    F9,
    F10,
    F11,
    F12,
    LeftCtrl,
    RightCtrl,
    LeftAlt,
    RightAlt,
    LeftShift,
    RightShift,
    LeftSuper,
    RightSuper,
}

/// A media key of the virtual keyboard.
#[derive(Clone, Copy, Debug, PartialEq, Eq, Structural)]
pub enum ConsumerKey {
    BrightnessDown,
    BrightnessUp,
    Previous,
    PlayPause,
    Next,
    Mute,
    VolumeDown,
    VolumeUp,
}

impl KeyboardKey {
    /// The byte that stands for a key on the wire.
    pub open spec fn code(self) -> u8 {
        match self {
            KeyboardKey::Escape => 0,
            KeyboardKey::F1 => 1,
            KeyboardKey::F2 => 2,
            KeyboardKey::F3 => 3,
            KeyboardKey::F4 => 4,
            KeyboardKey::F5 => 5,
            KeyboardKey::F6 => 6,
            KeyboardKey::F7 => 7,
            KeyboardKey::F8 => 8,
            KeyboardKey::F9 => 9,
            KeyboardKey::F10 => 10,
            KeyboardKey::F11 => 11,
            KeyboardKey::F12 => 12,
            KeyboardKey::LeftCtrl => 13,
            KeyboardKey::RightCtrl => 14,
            KeyboardKey::LeftAlt => 15,
            KeyboardKey::RightAlt => 16,
            KeyboardKey::LeftShift => 17,
            KeyboardKey::RightShift => 18,
            KeyboardKey::LeftSuper => 19,
            KeyboardKey::RightSuper => 20,
        }
    }

    /// The byte that stands for this key on the wire.
    pub fn to_wire(self) -> (b: u8)
        ensures
            b == self.code(),
            b <= 20,
    {
        match self {
            KeyboardKey::Escape => 0,
            KeyboardKey::F1 => 1,
            KeyboardKey::F2 => 2,
            KeyboardKey::F3 => 3,
            KeyboardKey::F4 => 4,
            KeyboardKey::F5 => 5,
            KeyboardKey::F6 => 6,
            KeyboardKey::F7 => 7,
            KeyboardKey::F8 => 8,
            KeyboardKey::F9 => 9,
            KeyboardKey::F10 => 10,
            KeyboardKey::F11 => 11,
            KeyboardKey::F12 => 12,
            KeyboardKey::LeftCtrl => 13,
            KeyboardKey::RightCtrl => 14,
            KeyboardKey::LeftAlt => 15,
            KeyboardKey::RightAlt => 16,
            KeyboardKey::LeftShift => 17,
            KeyboardKey::RightShift => 18,
            KeyboardKey::LeftSuper => 19,
            KeyboardKey::RightSuper => 20,
        }
    }

    /// The key that a byte stands for; the byte itself where it stands for none.
    pub fn from_wire(value: u8) -> (r: Result<KeyboardKey, u8>)
        ensures
            r is Ok == (value <= 20),
            r matches Ok(key) ==> key.code() == value,
            r matches Err(unknown) ==> unknown == value,
    {
        match value {
            0 => Ok(KeyboardKey::Escape),
            1 => Ok(KeyboardKey::F1),
            2 => Ok(KeyboardKey::F2),
            3 => Ok(KeyboardKey::F3),
            4 => Ok(KeyboardKey::F4),
            5 => Ok(KeyboardKey::F5),
            6 => Ok(KeyboardKey::F6),
            7 => Ok(KeyboardKey::F7),
            8 => Ok(KeyboardKey::F8),
            9 => Ok(KeyboardKey::F9),
            10 => Ok(KeyboardKey::F10),
            11 => Ok(KeyboardKey::F11),
            12 => Ok(KeyboardKey::F12),
            13 => Ok(KeyboardKey::LeftCtrl),
            14 => Ok(KeyboardKey::RightCtrl),
            15 => Ok(KeyboardKey::LeftAlt),
            16 => Ok(KeyboardKey::RightAlt),
            17 => Ok(KeyboardKey::LeftShift),
            18 => Ok(KeyboardKey::RightShift),
            19 => Ok(KeyboardKey::LeftSuper),
            20 => Ok(KeyboardKey::RightSuper),
            _ => Err(value),
        }
    }
}

impl ConsumerKey {
    /// The byte that stands for a key on the wire.
    pub open spec fn code(self) -> u8 {
        match self {
            ConsumerKey::BrightnessDown => 0,
            ConsumerKey::BrightnessUp => 1,
            ConsumerKey::Previous => 2,
            ConsumerKey::PlayPause => 3,
            ConsumerKey::Next => 4,
            ConsumerKey::Mute => 5,
            ConsumerKey::VolumeDown => 6,
            ConsumerKey::VolumeUp => 7,
        }
    }

    /// The byte that stands for this key on the wire.
    pub fn to_wire(self) -> (b: u8)
        ensures
            b == self.code(),
            b <= 7,
    {
        match self {
            ConsumerKey::BrightnessDown => 0,
            ConsumerKey::BrightnessUp => 1,
            ConsumerKey::Previous => 2,
            ConsumerKey::PlayPause => 3,
            ConsumerKey::Next => 4,
            ConsumerKey::Mute => 5,
            ConsumerKey::VolumeDown => 6,
            ConsumerKey::VolumeUp => 7,
        }
    }

    /// The key that a byte stands for; the byte itself where it stands for none.
    pub fn from_wire(value: u8) -> (r: Result<ConsumerKey, u8>)
        ensures
            r is Ok == (value <= 7),
            r matches Ok(key) ==> key.code() == value,
            r matches Err(unknown) ==> unknown == value,
    {
        match value {
            0 => Ok(ConsumerKey::BrightnessDown),
            1 => Ok(ConsumerKey::BrightnessUp),
            2 => Ok(ConsumerKey::Previous),
            3 => Ok(ConsumerKey::PlayPause),
            4 => Ok(ConsumerKey::Next),
            5 => Ok(ConsumerKey::Mute),
            6 => Ok(ConsumerKey::VolumeDown),
            7 => Ok(ConsumerKey::VolumeUp),
            _ => Err(value),
        }
    }
}

/// A key that the virtual keyboard can emit.
#[derive(Clone, Copy, Debug, PartialEq, Eq, Structural)]
pub enum OutputKey {
    Keyboard(KeyboardKey),
    Consumer(ConsumerKey),
}

/// One press or release on the virtual keyboard.
#[derive(Clone, Copy, Debug, PartialEq, Eq, Structural)]
pub struct SyntheticKeyEvent {
    pub key: OutputKey,
    pub active: bool,
}

/// The events that press, or release, each key of `keys` in order.
pub open spec fn each_key(keys: Seq<OutputKey>, active: bool) -> Seq<SyntheticKeyEvent> {
    Seq::new(keys.len(), |i: int| SyntheticKeyEvent { key: keys[i], active })
}

/// A tap of `key` under `modifiers`: the modifiers go down in order, the key goes
/// down and up, and the modifiers come up in the opposite order.
pub open spec fn tap(key: OutputKey, modifiers: Seq<OutputKey>) -> Seq<SyntheticKeyEvent> {
    each_key(modifiers, true) + seq![
        SyntheticKeyEvent { key, active: true },
        SyntheticKeyEvent { key, active: false },
    ] + each_key(modifiers.reverse(), false)
}

/// The events of one tap of `key` while `modifiers` are held.
pub fn tap_key_events(key: OutputKey, modifiers: &[OutputKey]) -> (events: Vec<SyntheticKeyEvent>)
    ensures
        events@ == tap(key, modifiers@),
{
    let mut events: Vec<SyntheticKeyEvent> = Vec::new();
    let n: usize = modifiers.len();
    let mut i: usize = 0;
    while i < n
        invariant
            i <= n == modifiers@.len(),
            events@ == each_key(modifiers@.subrange(0, i as int), true),
        decreases n - i,
    {
        events.push(SyntheticKeyEvent { key: modifiers[i], active: true });
        i += 1;
        assert(events@ =~= each_key(modifiers@.subrange(0, i as int), true));
    }
    assert(modifiers@.subrange(0, n as int) =~= modifiers@);
    events.push(SyntheticKeyEvent { key, active: true });
    events.push(SyntheticKeyEvent { key, active: false });
    let ghost head = events@;
    let mut j: usize = n;
    while j > 0
        invariant
            j <= n == modifiers@.len(),
            events@ == head + each_key(modifiers@.reverse().subrange(0, n - j), false),
        decreases j,
    {
        j -= 1;
        events.push(SyntheticKeyEvent { key: modifiers[j], active: false });
        assert(events@ =~= head + each_key(modifiers@.reverse().subrange(0, n - j), false));
    }
    assert(modifiers@.reverse().subrange(0, n as int) =~= modifiers@.reverse());
    assert(events@ =~= tap(key, modifiers@));
    events
}

/// What is known of a key that the virtual keyboard can emit.
#[derive(Clone, Copy, Debug)]
pub struct OutputKeyMetadata {
    pub name: &'static str,
    pub key: OutputKey,
    pub function_row: Option<usize>,
    pub modifier: Option<Modifier>,
}

impl OutputKeyMetadata {
    /// A plain keyboard key.
    pub fn keyboard(name: &'static str, key: KeyboardKey) -> (r: OutputKeyMetadata)
        ensures
            r.name == name,
            r.key == OutputKey::Keyboard(key),
            r.function_row is None,
            r.modifier is None,
    {
        OutputKeyMetadata { name, key: OutputKey::Keyboard(key), function_row: None, modifier: None }
    }

    /// A key of the function row.
    pub fn function_row(name: &'static str, key: KeyboardKey, row: usize) -> (r: OutputKeyMetadata)
        ensures
            r.name == name,
            r.key == OutputKey::Keyboard(key),
            r.function_row == Some(row),
            r.modifier is None,
    {
        OutputKeyMetadata {
            name,
            key: OutputKey::Keyboard(key),
            function_row: Some(row),
            modifier: None,
        }
    }

    /// A key that mirrors a physical modifier.
    pub fn modifier_key(name: &'static str, key: KeyboardKey, modifier: Modifier) -> (r:
        OutputKeyMetadata)
        ensures
            r.name == name,
            r.key == OutputKey::Keyboard(key),
            r.function_row is None,
            r.modifier == Some(modifier),
    {
        OutputKeyMetadata {
            name,
            key: OutputKey::Keyboard(key),
            function_row: None,
            modifier: Some(modifier),
        }
    }

    /// A media key.
    pub fn consumer(name: &'static str, key: ConsumerKey) -> (r: OutputKeyMetadata)
        ensures
            r.name == name,
            r.key == OutputKey::Consumer(key),
            r.function_row is None,
            r.modifier is None,
    {
        OutputKeyMetadata { name, key: OutputKey::Consumer(key), function_row: None, modifier: None }
    }
}

/// The virtual key that mirrors a physical modifier.
pub open spec fn mirrored(modifier: Modifier) -> KeyboardKey {
    match modifier {
        Modifier::LeftCtrl => KeyboardKey::LeftCtrl,
        Modifier::RightCtrl => KeyboardKey::RightCtrl,
        Modifier::LeftAlt => KeyboardKey::LeftAlt,
        Modifier::RightAlt => KeyboardKey::RightAlt,
        Modifier::LeftShift => KeyboardKey::LeftShift,
        Modifier::RightShift => KeyboardKey::RightShift,
        Modifier::LeftSuper => KeyboardKey::LeftSuper,
        Modifier::RightSuper => KeyboardKey::RightSuper,
    }
}

/// The name under which a configuration asks for a key.
pub open spec fn key_name(key: OutputKey) -> Seq<char> {
    match key {
        OutputKey::Keyboard(KeyboardKey::Escape) => "escape"@,
        OutputKey::Keyboard(KeyboardKey::F1) => "f1"@,
        OutputKey::Keyboard(KeyboardKey::F2) => "f2"@,
        OutputKey::Keyboard(KeyboardKey::F3) => "f3"@,
        OutputKey::Keyboard(KeyboardKey::F4) => "f4"@,
        OutputKey::Keyboard(KeyboardKey::F5) => "f5"@,
        OutputKey::Keyboard(KeyboardKey::F6) => "f6"@,
        OutputKey::Keyboard(KeyboardKey::F7) => "f7"@,
        OutputKey::Keyboard(KeyboardKey::F8) => "f8"@,
        OutputKey::Keyboard(KeyboardKey::F9) => "f9"@,
        OutputKey::Keyboard(KeyboardKey::F10) => "f10"@,
        OutputKey::Keyboard(KeyboardKey::F11) => "f11"@,
        OutputKey::Keyboard(KeyboardKey::F12) => "f12"@,
        OutputKey::Keyboard(KeyboardKey::LeftCtrl) => "left_ctrl"@,
        OutputKey::Keyboard(KeyboardKey::RightCtrl) => "right_ctrl"@,
        OutputKey::Keyboard(KeyboardKey::LeftAlt) => "left_alt"@,
        OutputKey::Keyboard(KeyboardKey::RightAlt) => "right_alt"@,
        OutputKey::Keyboard(KeyboardKey::LeftShift) => "left_shift"@,
        OutputKey::Keyboard(KeyboardKey::RightShift) => "right_shift"@,
        OutputKey::Keyboard(KeyboardKey::LeftSuper) => "left_super"@,
        OutputKey::Keyboard(KeyboardKey::RightSuper) => "right_super"@,
        OutputKey::Consumer(ConsumerKey::BrightnessDown) => "brightness_down"@,
        OutputKey::Consumer(ConsumerKey::BrightnessUp) => "brightness_up"@,
        OutputKey::Consumer(ConsumerKey::Previous) => "previous"@,
        OutputKey::Consumer(ConsumerKey::PlayPause) => "play_pause"@,
        OutputKey::Consumer(ConsumerKey::Next) => "next"@,
        OutputKey::Consumer(ConsumerKey::Mute) => "mute"@,
        OutputKey::Consumer(ConsumerKey::VolumeDown) => "volume_down"@,
        OutputKey::Consumer(ConsumerKey::VolumeUp) => "volume_up"@,
    }
}

/// The place of a key in the list of all keys: keyboard keys first, by wire code.
pub open spec fn key_place(key: OutputKey) -> int {
    match key {
        OutputKey::Keyboard(k) => k.code() as int,
        OutputKey::Consumer(k) => 21 + k.code(),
    }
}

/// An entry names its key, gives the place of a function key in its row, and
/// the modifier that a modifier key mirrors.
pub open spec fn describes(entry: OutputKeyMetadata) -> bool {
    &&& entry.name@ == key_name(entry.key)
    &&& entry.function_row == (match entry.key {
        OutputKey::Keyboard(k) => if 1 <= k.code() <= 12 {
            Some((k.code() - 1) as usize)
        } else {
            None
        },
        OutputKey::Consumer(_) => None,
    })
    &&& entry.modifier == (match entry.key {
        OutputKey::Keyboard(k) => if 13 <= k.code() <= 20 {
            Some(modifier_at(k.code() - 13))
        } else {
            None
        },
        OutputKey::Consumer(_) => None,
    })
}

/// Every key that the virtual keyboard can emit, each once, in key order.
pub fn output_key_metadata() -> (table: Vec<OutputKeyMetadata>)
    ensures
        table@.len() == 29,
        forall|i: int|
            0 <= i < 29 ==> describes(#[trigger] table@[i]) && key_place(table@[i].key) == i,
        table@[0].name@ == "escape"@ && table@[0].key == OutputKey::Keyboard(
            KeyboardKey::Escape,
        ),
        table@[1].name@ == "f1"@ && table@[1].key == OutputKey::Keyboard(
            KeyboardKey::F1,
        ),
        table@[2].name@ == "f2"@ && table@[2].key == OutputKey::Keyboard(
            KeyboardKey::F2,
        ),
        table@[3].name@ == "f3"@ && table@[3].key == OutputKey::Keyboard(
            KeyboardKey::F3,
        ),
        table@[4].name@ == "f4"@ && table@[4].key == OutputKey::Keyboard(
            KeyboardKey::F4,
        ),
        table@[5].name@ == "f5"@ && table@[5].key == OutputKey::Keyboard(
            KeyboardKey::F5,
        ),
        table@[6].name@ == "f6"@ && table@[6].key == OutputKey::Keyboard(
            KeyboardKey::F6,
        ),
        table@[7].name@ == "f7"@ && table@[7].key == OutputKey::Keyboard(
            KeyboardKey::F7,
        ),
        table@[8].name@ == "f8"@ && table@[8].key == OutputKey::Keyboard(
            KeyboardKey::F8,
        ),
        table@[9].name@ == "f9"@ && table@[9].key == OutputKey::Keyboard(
            KeyboardKey::F9,
        ),
        table@[10].name@ == "f10"@ && table@[10].key == OutputKey::Keyboard(
            KeyboardKey::F10,
        ),
        table@[11].name@ == "f11"@ && table@[11].key == OutputKey::Keyboard(
            KeyboardKey::F11,
        ),
        table@[12].name@ == "f12"@ && table@[12].key == OutputKey::Keyboard(
            KeyboardKey::F12,
        ),
        table@[13].name@ == "left_ctrl"@ && table@[13].key == OutputKey::Keyboard(
            KeyboardKey::LeftCtrl,
        ),
        table@[14].name@ == "right_ctrl"@ && table@[14].key == OutputKey::Keyboard(
            KeyboardKey::RightCtrl,
        ),
        table@[15].name@ == "left_alt"@ && table@[15].key == OutputKey::Keyboard(
            KeyboardKey::LeftAlt,
        ),
        table@[16].name@ == "right_alt"@ && table@[16].key == OutputKey::Keyboard(
            KeyboardKey::RightAlt,
        ),
        table@[17].name@ == "left_shift"@ && table@[17].key == OutputKey::Keyboard(
            KeyboardKey::LeftShift,
        ),
        table@[18].name@ == "right_shift"@ && table@[18].key == OutputKey::Keyboard(
            KeyboardKey::RightShift,
        ),
        table@[19].name@ == "left_super"@ && table@[19].key == OutputKey::Keyboard(
            KeyboardKey::LeftSuper,
        ),
        table@[20].name@ == "right_super"@ && table@[20].key == OutputKey::Keyboard(
            KeyboardKey::RightSuper,
        ),
        table@[21].name@ == "brightness_down"@ && table@[21].key == OutputKey::Consumer(
            ConsumerKey::BrightnessDown,
        ),
        table@[22].name@ == "brightness_up"@ && table@[22].key == OutputKey::Consumer(
            ConsumerKey::BrightnessUp,
        ),
        table@[23].name@ == "previous"@ && table@[23].key == OutputKey::Consumer(
            ConsumerKey::Previous,
        ),
        table@[24].name@ == "play_pause"@ && table@[24].key == OutputKey::Consumer(
            ConsumerKey::PlayPause,
        ),
        table@[25].name@ == "next"@ && table@[25].key == OutputKey::Consumer(
            ConsumerKey::Next,
        ),
        table@[26].name@ == "mute"@ && table@[26].key == OutputKey::Consumer(
            ConsumerKey::Mute,
        ),
        table@[27].name@ == "volume_down"@ && table@[27].key == OutputKey::Consumer(
            ConsumerKey::VolumeDown,
        ),
        table@[28].name@ == "volume_up"@ && table@[28].key == OutputKey::Consumer(
            ConsumerKey::VolumeUp,
        ),
        table@[13].modifier == Some(Modifier::LeftCtrl),
        table@[14].modifier == Some(Modifier::RightCtrl),
        table@[15].modifier == Some(Modifier::LeftAlt),
        table@[16].modifier == Some(Modifier::RightAlt),
        table@[17].modifier == Some(Modifier::LeftShift),
        table@[18].modifier == Some(Modifier::RightShift),
        table@[19].modifier == Some(Modifier::LeftSuper),
        table@[20].modifier == Some(Modifier::RightSuper),
        forall|i: int|
            0 <= i < 29 ==> ((#[trigger] table@[i]).function_row == (if 1 <= i <= 12 {
                Some((i - 1) as usize)
            } else {
                None
            })),
        forall|i: int|
            0 <= i < 29 ==> ((#[trigger] table@[i]).modifier is Some <==> 13 <= i <= 20),
{
    let mut table: Vec<OutputKeyMetadata> = Vec::new();
    table.push(OutputKeyMetadata::keyboard("escape", KeyboardKey::Escape));
    table.push(OutputKeyMetadata::function_row("f1", KeyboardKey::F1, 0));
    table.push(OutputKeyMetadata::function_row("f2", KeyboardKey::F2, 1));
    table.push(OutputKeyMetadata::function_row("f3", KeyboardKey::F3, 2));
    table.push(OutputKeyMetadata::function_row("f4", KeyboardKey::F4, 3));
    table.push(OutputKeyMetadata::function_row("f5", KeyboardKey::F5, 4));
    table.push(OutputKeyMetadata::function_row("f6", KeyboardKey::F6, 5));
    table.push(OutputKeyMetadata::function_row("f7", KeyboardKey::F7, 6));
    table.push(OutputKeyMetadata::function_row("f8", KeyboardKey::F8, 7));
    table.push(OutputKeyMetadata::function_row("f9", KeyboardKey::F9, 8));
    table.push(OutputKeyMetadata::function_row("f10", KeyboardKey::F10, 9));
    table.push(OutputKeyMetadata::function_row("f11", KeyboardKey::F11, 10));
    table.push(OutputKeyMetadata::function_row("f12", KeyboardKey::F12, 11));
    table.push(
        OutputKeyMetadata::modifier_key("left_ctrl", KeyboardKey::LeftCtrl, Modifier::LeftCtrl),
    );
    table.push(
        OutputKeyMetadata::modifier_key("right_ctrl", KeyboardKey::RightCtrl, Modifier::RightCtrl),
    );
    table.push(OutputKeyMetadata::modifier_key("left_alt", KeyboardKey::LeftAlt, Modifier::LeftAlt));
    table.push(
        OutputKeyMetadata::modifier_key("right_alt", KeyboardKey::RightAlt, Modifier::RightAlt),
    );
    table.push(
        OutputKeyMetadata::modifier_key("left_shift", KeyboardKey::LeftShift, Modifier::LeftShift),
    );
    table.push(
        OutputKeyMetadata::modifier_key(
            "right_shift",
            KeyboardKey::RightShift,
            Modifier::RightShift,
        ),
    );
    table.push(
        OutputKeyMetadata::modifier_key("left_super", KeyboardKey::LeftSuper, Modifier::LeftSuper),
    );
    table.push(
        OutputKeyMetadata::modifier_key(
            "right_super",
            KeyboardKey::RightSuper,
            Modifier::RightSuper,
        ),
    );
    table.push(OutputKeyMetadata::consumer("brightness_down", ConsumerKey::BrightnessDown));
    table.push(OutputKeyMetadata::consumer("brightness_up", ConsumerKey::BrightnessUp));
    table.push(OutputKeyMetadata::consumer("previous", ConsumerKey::Previous));
    table.push(OutputKeyMetadata::consumer("play_pause", ConsumerKey::PlayPause));
    table.push(OutputKeyMetadata::consumer("next", ConsumerKey::Next));
    table.push(OutputKeyMetadata::consumer("mute", ConsumerKey::Mute));
    table.push(OutputKeyMetadata::consumer("volume_down", ConsumerKey::VolumeDown));
    table.push(OutputKeyMetadata::consumer("volume_up", ConsumerKey::VolumeUp));
    table
}

/// The entry of the key that mirrors a modifier.
pub fn modifier_metadata(modifier: Modifier) -> (entry: OutputKeyMetadata)
    ensures
        describes(entry),
        entry.modifier == Some(modifier),
        entry.key == OutputKey::Keyboard(mirrored(modifier)),
{
    let table: Vec<OutputKeyMetadata> = output_key_metadata();
    let i: usize = 13 + modifier.index();
    table[i]
}

/// The virtual key that mirrors a physical modifier.
pub fn modifier_output_key(modifier: Modifier) -> (key: OutputKey)
    ensures
        key == OutputKey::Keyboard(mirrored(modifier)),
        modifier is LeftCtrl ==> key == OutputKey::Keyboard(KeyboardKey::LeftCtrl),
        modifier is RightCtrl ==> key == OutputKey::Keyboard(KeyboardKey::RightCtrl),
        modifier is LeftAlt ==> key == OutputKey::Keyboard(KeyboardKey::LeftAlt),
        modifier is RightAlt ==> key == OutputKey::Keyboard(KeyboardKey::RightAlt),
        modifier is LeftShift ==> key == OutputKey::Keyboard(KeyboardKey::LeftShift),
        modifier is RightShift ==> key == OutputKey::Keyboard(KeyboardKey::RightShift),
        modifier is LeftSuper ==> key == OutputKey::Keyboard(KeyboardKey::LeftSuper),
        modifier is RightSuper ==> key == OutputKey::Keyboard(KeyboardKey::RightSuper),
{
    modifier_metadata(modifier).key
}

/// The virtual keys of the modifiers held in `state` among the first `n`, in wire order.
pub open spec fn held_keys(state: ModifierState, n: int) -> Seq<OutputKey>
    decreases n,
{
    if n <= 0 {
        Seq::empty()
    } else if state.active(modifier_at(n - 1)) {
        held_keys(state, n - 1).push(OutputKey::Keyboard(mirrored(modifier_at(n - 1))))
    } else {
        held_keys(state, n - 1)
    }
}

/// The virtual keys of the modifiers that are held, in wire order.
pub fn modifier_output_keys(state: ModifierState) -> (keys: Vec<OutputKey>)
    ensures
        keys@ == held_keys(state, 8),
{
    let mut keys: Vec<OutputKey> = Vec::new();
    let mut i: u8 = 0;
    while i < 8
        invariant
            i <= 8,
            keys@ == held_keys(state, i as int),
        decreases 8 - i,
    {
        match Modifier::from_index(i) {
            Some(modifier) => {
                assert(modifier == modifier_at(i as int));
                if state.is_active(modifier) {
                    keys.push(modifier_output_key(modifier));
                }
            },
            None => {},
        }
        i += 1;
    }
    keys
}

/// The function key at a place in the function row, if there is one.
pub fn function_key_output(index: usize) -> (key: Option<OutputKey>)
    ensures
        key is Some == (index < 12),
        key matches Some(k) ==> (k matches OutputKey::Keyboard(f) && f.code() == index + 1),
        index == 0 ==> key == Some(OutputKey::Keyboard(KeyboardKey::F1)),
        index == 1 ==> key == Some(OutputKey::Keyboard(KeyboardKey::F2)),
        index == 2 ==> key == Some(OutputKey::Keyboard(KeyboardKey::F3)),
        index == 3 ==> key == Some(OutputKey::Keyboard(KeyboardKey::F4)),
        index == 4 ==> key == Some(OutputKey::Keyboard(KeyboardKey::F5)),
        index == 5 ==> key == Some(OutputKey::Keyboard(KeyboardKey::F6)),
        index == 6 ==> key == Some(OutputKey::Keyboard(KeyboardKey::F7)),
        index == 7 ==> key == Some(OutputKey::Keyboard(KeyboardKey::F8)),
        index == 8 ==> key == Some(OutputKey::Keyboard(KeyboardKey::F9)),
        index == 9 ==> key == Some(OutputKey::Keyboard(KeyboardKey::F10)),
        index == 10 ==> key == Some(OutputKey::Keyboard(KeyboardKey::F11)),
        index == 11 ==> key == Some(OutputKey::Keyboard(KeyboardKey::F12)),
{
    if index >= 12 {
        return None;
    }
    let table: Vec<OutputKeyMetadata> = output_key_metadata();
    Some(table[index + 1].key)
}

/// Identifies a finger for as long as it touches.
pub type ContactId = u32;

/// Where a contact is in its life.
#[derive(Clone, Copy, Debug, PartialEq, Eq, Structural)]
pub enum TouchPhase {
    Down,
    Move,
    Up,
    Cancel,
}

/// One report of a contact.
#[derive(Clone, Copy, Debug, PartialEq, Eq, Structural)]
pub struct TouchEvent {
    pub phase: TouchPhase,
    pub id: ContactId,
    pub time: RealBits,
    pub x: RealBits,
    pub y: RealBits,
    pub modifiers: ModifierState,
    pub pressure: Option<RealBits>,
    pub width: Option<RealBits>,
    pub height: Option<RealBits>,
}

impl TouchEvent {
    /// Equality of two reports, with their measurements compared as numbers.
    pub open spec fn same_event(self, other: TouchEvent) -> bool {
        &&& self.phase == other.phase
        &&& self.id == other.id
        &&& self.time.same_number(other.time)
        &&& self.x.same_number(other.x)
        &&& self.y.same_number(other.y)
        &&& self.modifiers == other.modifiers
        &&& same_optional(self.pressure, other.pressure)
        &&& same_optional(self.width, other.width)
        &&& same_optional(self.height, other.height)
    }

    /// Whether two reports are equal.
    pub fn equals(&self, other: &TouchEvent) -> (r: bool)
        ensures
            r == self.same_event(*other),
    {
        self.phase == other.phase && self.id == other.id && self.time.equals(other.time)
            && self.x.equals(other.x) && self.y.equals(other.y) && self.modifiers
            == other.modifiers && equal_optional(self.pressure, other.pressure) && equal_optional(
            self.width,
            other.width,
        ) && equal_optional(self.height, other.height)
    }
}

/// A part of the hardware that can be missing on its own.
#[derive(Clone, Copy, Debug, PartialEq, Eq, Structural)]
pub enum HardwareCapability {
    Display,
    Backlight,
}

impl HardwareCapability {
    /// The byte that stands for a capability on the wire.
    pub open spec fn code(self) -> u8 {
        match self {
            HardwareCapability::Display => 0,
            HardwareCapability::Backlight => 1,
        }
    }

    /// The byte that stands for this capability on the wire.
    pub fn to_wire(self) -> (b: u8)
        ensures
            b == self.code(),
            b <= 1,
    {
        match self {
            HardwareCapability::Display => 0,
            HardwareCapability::Backlight => 1,
        }
    }

    /// The capability that a byte stands for; the byte itself where it stands for none.
    pub fn from_wire(value: u8) -> (r: Result<HardwareCapability, u8>)
        ensures
            r is Ok == (value <= 1),
            r matches Ok(capability) ==> capability.code() == value,
            r matches Err(unknown) ==> unknown == value,
    {
        match value {
            0 => Ok(HardwareCapability::Display),
            1 => Ok(HardwareCapability::Backlight),
            _ => Err(value),
        }
    }

    /// The name of a capability in messages.
    pub open spec fn text(self) -> Seq<char> {
        match self {
            HardwareCapability::Display => "display"@,
            HardwareCapability::Backlight => "backlight"@,
        }
    }

    /// The name of this capability in messages.
    pub fn name(self) -> (s: &'static str)
        ensures
            s@ == self.text(),
    {
        match self {
            HardwareCapability::Display => "display",
            HardwareCapability::Backlight => "backlight",
        }
    }
}

/// What a hardware adapter reports.
#[derive(Clone, Copy, Debug, PartialEq, Eq, Structural)]
pub enum HardwareEvent {
    Touch(TouchEvent),
    Fn { active: bool },
    Modifier { modifier: Modifier, active: bool },
    Device { present: bool },
    Visibility { visible: bool },
    Capability { capability: HardwareCapability, present: bool },
}

/// The tracked key that an event is about, if any.
pub open spec fn observed_by(event: HardwareEvent) -> Option<(ObservedKey, bool)> {
    match event {
        HardwareEvent::Fn { active } => Some((ObservedKey::Fn, active)),
        HardwareEvent::Modifier { modifier, active } => Some(
            (ObservedKey::Modifier(modifier), active),
        ),
        _ => None,
    }
}

/// The input state after one event.
pub open spec fn input_after(state: InputState, event: HardwareEvent) -> InputState {
    match observed_by(event) {
        Some((key, active)) => state.with(key, active),
        None => state,
    }
}

/// The input state after a batch of events.
pub open spec fn input_after_all(state: InputState, events: Seq<HardwareEvent>) -> InputState
    decreases events.len(),
{
    if events.len() == 0 {
        state
    } else {
        input_after(input_after_all(state, events.drop_last()), events.last())
    }
}

/// Applies one event to an input state.
pub fn observe_event(state: &mut InputState, event: HardwareEvent)
    ensures
        *final(state) == input_after(*old(state), event),
{
    match event {
        HardwareEvent::Fn { active } => {
            let _changed: bool = state.apply(ObservedKey::Fn, active);
        },
        HardwareEvent::Modifier { modifier, active } => {
            let _changed: bool = state.apply(ObservedKey::Modifier(modifier), active);
        },
        _ => {},
    }
}

/// Applies a batch of events to an input state, in order.
pub fn observe_events(state: &mut InputState, events: &[HardwareEvent])
    ensures
        *final(state) == input_after_all(*old(state), events@),
{
    let ghost before = *state;
    let mut i: usize = 0;
    while i < events.len()
        invariant
            i <= events@.len(),
            *state == input_after_all(before, events@.subrange(0, i as int)),
        decreases events@.len() - i,
    {
        observe_event(state, events[i]);
        i += 1;
        assert(events@.subrange(0, i as int).drop_last() =~= events@.subrange(0, i - 1));
    }
    assert(events@.subrange(0, i as int) =~= events@);
}

/// A complete picture for the panel.
#[derive(Clone, Debug)]
pub struct LogicalFrame {
    width: usize,
    height: usize,
    stride: usize,
    pixels: Vec<u8>,
    fixture_correlation: Option<FrameCorrelation>,
}

/// What a frame holds.
pub struct FrameView {
    pub width: int,
    pub height: int,
    pub stride: int,
    pub pixels: Seq<u8>,
}

impl View for LogicalFrame {
    type V = FrameView;

    closed spec fn view(&self) -> FrameView {
        FrameView {
            width: self.width as int,
            height: self.height as int,
            stride: self.stride as int,
            pixels: self.pixels@,
        }
    }
}

impl LogicalFrame {
    /// Pixels per row.
    pub fn width(&self) -> (r: usize)
        ensures
            r == self@.width,
    {
        self.width
    }

    /// Rows.
    pub fn height(&self) -> (r: usize)
        ensures
            r == self@.height,
    {
        self.height
    }

    /// Bytes from one row to the next.
    pub fn stride(&self) -> (r: usize)
        ensures
            r == self@.stride,
    {
        self.stride
    }

    /// The bytes of all rows.
    pub fn pixels(&self) -> (r: &[u8])
        ensures
            r@ == self@.pixels,
    {
        self.pixels.as_slice()
    }

    /// The publication that the frame came from, if it carries a fixture's allocation.
    pub closed spec fn correlation(self) -> Option<FrameCorrelation> {
        self.fixture_correlation
    }

    /// The publication that the frame came from, if it carries a fixture's allocation.
    pub fn fixture_correlation(&self) -> (r: Option<FrameCorrelation>)
        ensures
            r == self.correlation(),
    {
        self.fixture_correlation
    }

    /// A frame made of these parts, as they are.
    pub fn from_parts(width: usize, height: usize, stride: usize, pixels: Vec<u8>) -> (r:
        LogicalFrame)
        ensures
            r@ == (FrameView {
                width: width as int,
                height: height as int,
                stride: stride as int,
                pixels: pixels@,
            }),
            r.correlation() is None,
    {
        LogicalFrame { width, height, stride, pixels, fixture_correlation: None }
    }

    /// The same frame, known to come from a publication.
    pub fn correlated(self, fixture_correlation: Option<FrameCorrelation>) -> (r: LogicalFrame)
        ensures
            r@ == self@,
            r.correlation() == fixture_correlation,
    {
        LogicalFrame {
            width: self.width,
            height: self.height,
            stride: self.stride,
            pixels: self.pixels,
            fixture_correlation,
        }
    }

    /// The pixel at column `x` of row `y` as red, green, blue and alpha, from
    /// native-endian ARGB words of a little-endian machine.
    pub fn rgba_at(&self, x: usize, y: usize) -> (p: [u8; 4])
        requires
            x < self@.width,
            y < self@.height,
            self@.width * 4 <= self@.stride,
            self@.stride * self@.height <= self@.pixels.len(),
        ensures
            ({
                let at = y * self@.stride + x * 4;
                p@ == seq![
                    self@.pixels[at + 2],
                    self@.pixels[at + 1],
                    self@.pixels[at],
                    self@.pixels[at + 3],
                ]
            }),
    {
        let n: usize = self.pixels.len();
        assert((y + 1) * self.stride <= self.height * self.stride) by (nonlinear_arith)
            requires
                y + 1 <= self.height,
        ;
        assert((y + 1) * self.stride == y * self.stride + self.stride) by (nonlinear_arith);
        assert(self.height * self.stride == self.stride * self.height) by (nonlinear_arith);
        let at: usize = y * self.stride + x * 4;
        [self.pixels[at + 2], self.pixels[at + 1], self.pixels[at], self.pixels[at + 3]]
    }
}

/// A backlight level is refused unless it lies between zero and one.
#[derive(Clone, Copy, Debug, PartialEq, Eq, Structural)]
pub struct BacklightOutOfRange;

/// Accepts a backlight level between zero and one, both included.
pub fn validate_backlight(level: RealBits) -> (r: Result<(), BacklightOutOfRange>)
    ensures
        r is Ok == level.in_unit_interval(),
{
    if level.is_in_unit_interval() {
        Ok(())
    } else {
        Err(BacklightOutOfRange)
    }
}

} // verus!
