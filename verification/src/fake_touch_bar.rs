//! A Touch Bar in memory: it takes what the real one takes, remembers it, and gives
//! back the events that were put in.
use vstd::prelude::*;

use crate::broker_client::CapabilitySet;
use crate::bytes::copy_bytes;
use crate::hardware::{
    function_key_output, held_keys, input_after_all, modifier_output_keys,
    observe_events, tap, tap_key_events, validate_backlight, ConsumerKey, FrameView,
    HardwareCapability, HardwareEvent, InputState, KeyboardKey, LogicalFrame, Modifier, ModifierState, OutputKey, RealBits,
    SyntheticKeyEvent,
};
use crate::observer::plus_one;

verus! {

/// Why the Touch Bar in memory refuses.
#[derive(Clone, Copy, Debug, PartialEq, Eq, Structural)]
pub enum FakeError {
    AlreadyClaimed,
    NotClaimed,
    BacklightOutOfRange,
    FunctionKeyOutOfRange,
}

impl FakeError {
    /// The words of an error.
    pub open spec fn text(self) -> Seq<char> {
        match self {
            FakeError::AlreadyClaimed => "fake Touch Bar is already claimed"@,
            FakeError::NotClaimed => "fake Touch Bar is not claimed"@,
            FakeError::BacklightOutOfRange => "backlight level must be between 0.0 and 1.0"@,
            FakeError::FunctionKeyOutOfRange => "function-key index is out of range"@,
        }
    }

    /// The words of this error.
    pub fn message(self) -> (s: &'static str)
        ensures
            s@ == self.text(),
    {
        match self {
            FakeError::AlreadyClaimed => "fake Touch Bar is already claimed",
            FakeError::NotClaimed => "fake Touch Bar is not claimed",
            FakeError::BacklightOutOfRange => "backlight level must be between 0.0 and 1.0",
            FakeError::FunctionKeyOutOfRange => "function-key index is out of range",
        }
    }
}

/// A key that was pressed or released.
#[derive(Clone, Copy, Debug, PartialEq, Eq, Structural)]
pub enum FakeKey {
    Function(usize),
    Modifier(Modifier),
    Keyboard(KeyboardKey),
    Consumer(ConsumerKey),
}

/// A press or release of a key.
#[derive(Clone, Copy, Debug, PartialEq, Eq, Structural)]
pub struct FakeKeyEvent {
    pub key: FakeKey,
    pub active: bool,
}

/// Something that was done to the Touch Bar.
#[derive(Clone, Copy, Debug, PartialEq, Eq, Structural)]
pub enum FakeAction {
    Grab,
    Present,
    SyntheticKey(FakeKeyEvent),
    Backlight(RealBits),
    Release,
}

/// A frame as it was presented.
#[derive(Debug, PartialEq, Eq)]
pub struct FrameSnapshot {
    pub width: usize,
    pub height: usize,
    pub stride: usize,
    pub pixels: Vec<u8>,
}

impl View for FrameSnapshot {
    type V = FrameView;

    open spec fn view(&self) -> FrameView {
        FrameView {
            width: self.width as int,
            height: self.height as int,
            stride: self.stride as int,
            pixels: self.pixels@,
        }
    }
}

/// An event to be given at a poll.
#[derive(Clone, Copy, Debug)]
pub struct ScheduledEvent {
    pub poll: u64,
    pub event: HardwareEvent,
}

/// The events that are due at a poll, in order.
pub open spec fn due(scheduled: Seq<ScheduledEvent>, poll: u64) -> Seq<HardwareEvent>
    decreases scheduled.len(),
{
    if scheduled.len() == 0 {
        Seq::empty()
    } else if scheduled.last().poll == poll {
        due(scheduled.drop_last(), poll).push(scheduled.last().event)
    } else {
        due(scheduled.drop_last(), poll)
    }
}

/// The events that are not due at a poll, in order.
pub open spec fn not_due(scheduled: Seq<ScheduledEvent>, poll: u64) -> Seq<ScheduledEvent>
    decreases scheduled.len(),
{
    if scheduled.len() == 0 {
        Seq::empty()
    } else if scheduled.last().poll != poll {
        not_due(scheduled.drop_last(), poll).push(scheduled.last())
    } else {
        not_due(scheduled.drop_last(), poll)
    }
}

/// The capabilities that are missing after some events.
pub open spec fn missing_after(missing: CapabilitySet, events: Seq<HardwareEvent>) -> CapabilitySet
    decreases events.len(),
{
    if events.len() == 0 {
        missing
    } else {
        let before = missing_after(missing, events.drop_last());
        match events.last() {
            HardwareEvent::Capability { capability, present } => before.with(capability, !present),
            _ => before,
        }
    }
}

/// A key as it is remembered.
pub open spec fn remembered(event: SyntheticKeyEvent) -> FakeKeyEvent {
    FakeKeyEvent {
        key: match event.key {
            OutputKey::Keyboard(key) => FakeKey::Keyboard(key),
            OutputKey::Consumer(key) => FakeKey::Consumer(key),
        },
        active: event.active,
    }
}

/// Keys as they are remembered.
pub open spec fn remembered_all(events: Seq<SyntheticKeyEvent>) -> Seq<FakeKeyEvent> {
    events.map_values(|e: SyntheticKeyEvent| remembered(e))
}

/// Key events as actions.
pub open spec fn key_actions(events: Seq<FakeKeyEvent>) -> Seq<FakeAction> {
    events.map_values(|e: FakeKeyEvent| FakeAction::SyntheticKey(e))
}

/// A key of a function-key tap, as it is remembered.
pub open spec fn tapped(event: SyntheticKeyEvent, index: usize) -> FakeKeyEvent {
    FakeKeyEvent {
        key: match event.key {
            OutputKey::Keyboard(KeyboardKey::LeftCtrl) => FakeKey::Modifier(Modifier::LeftCtrl),
            OutputKey::Keyboard(KeyboardKey::RightCtrl) => FakeKey::Modifier(Modifier::RightCtrl),
            OutputKey::Keyboard(KeyboardKey::LeftAlt) => FakeKey::Modifier(Modifier::LeftAlt),
            OutputKey::Keyboard(KeyboardKey::RightAlt) => FakeKey::Modifier(Modifier::RightAlt),
            OutputKey::Keyboard(KeyboardKey::LeftShift) => FakeKey::Modifier(Modifier::LeftShift),
            OutputKey::Keyboard(KeyboardKey::RightShift) => FakeKey::Modifier(Modifier::RightShift),
            OutputKey::Keyboard(KeyboardKey::LeftSuper) => FakeKey::Modifier(Modifier::LeftSuper),
            OutputKey::Keyboard(KeyboardKey::RightSuper) => FakeKey::Modifier(Modifier::RightSuper),
            _ => FakeKey::Function(index),
        },
        active: event.active,
    }
}

/// The key events of a function-key tap, as they are remembered.
pub open spec fn tapped_all(events: Seq<SyntheticKeyEvent>, index: usize) -> Seq<FakeKeyEvent> {
    events.map_values(|e: SyntheticKeyEvent| tapped(e, index))
}

/// A Touch Bar in memory.
pub struct FakeTouchBar {
    claimed: bool,
    events: Vec<HardwareEvent>,
    scheduled: Vec<ScheduledEvent>,
    polls: u64,
    actions: Vec<FakeAction>,
    frames: Vec<FrameSnapshot>,
    backlight: RealBits,
    input: InputState,
    keyboard: bool,
    creations: u64,
    keys: Vec<FakeKeyEvent>,
    transactions: Vec<Vec<FakeKeyEvent>>,
    missing: CapabilitySet,
}

/// What the Touch Bar in memory remembers.
pub struct FakeView {
    pub claimed: bool,
    pub events: Seq<HardwareEvent>,
    pub scheduled: Seq<ScheduledEvent>,
    pub polls: u64,
    pub actions: Seq<FakeAction>,
    pub frames: Seq<FrameView>,
    pub backlight: RealBits,
    pub input: InputState,
    pub keyboard: bool,
    pub creations: u64,
    pub keys: Seq<FakeKeyEvent>,
    pub transactions: Seq<Seq<FakeKeyEvent>>,
    pub missing: CapabilitySet,
}

impl View for FakeTouchBar {
    type V = FakeView;

    closed spec fn view(&self) -> FakeView {
        FakeView {
            claimed: self.claimed,
            events: self.events@,
            scheduled: self.scheduled@,
            polls: self.polls,
            actions: self.actions@,
            frames: self.frames@.map_values(|f: FrameSnapshot| f@),
            backlight: self.backlight,
            input: self.input,
            keyboard: self.keyboard,
            creations: self.creations,
            keys: self.keys@,
            transactions: self.transactions@.map_values(|t: Vec<FakeKeyEvent>| t@),
            missing: self.missing,
        }
    }
}

impl FakeTouchBar {
    /// A Touch Bar that nobody has claimed, dark, with no key held.
    pub fn new() -> (h: FakeTouchBar)
        ensures
            h@ == (FakeView {
                claimed: false,
                events: Seq::empty(),
                scheduled: Seq::empty(),
                polls: 0,
                actions: Seq::empty(),
                frames: Seq::empty(),
                backlight: RealBits { bits: 0 },
                input: InputState::none(),
                keyboard: false,
                creations: 0,
                keys: Seq::empty(),
                transactions: Seq::empty(),
                missing: CapabilitySet::none(),
            }),
    {
        let h = FakeTouchBar {
            claimed: false,
            events: Vec::new(),
            scheduled: Vec::new(),
            polls: 0,
            actions: Vec::new(),
            frames: Vec::new(),
            backlight: RealBits { bits: 0 },
            input: InputState::empty(),
            keyboard: false,
            creations: 0,
            keys: Vec::new(),
            transactions: Vec::new(),
            missing: CapabilitySet { display: false, backlight: false },
        };
        assert(h@.events =~= Seq::empty());
        assert(h@.scheduled =~= Seq::empty());
        assert(h@.actions =~= Seq::empty());
        assert(h@.frames =~= Seq::empty());
        assert(h@.keys =~= Seq::empty());
        assert(h@.transactions =~= Seq::empty());
        h
    }

    /// Puts in an event, to be given at the next poll.
    pub fn inject(&mut self, event: HardwareEvent)
        ensures
            final(self)@ == (FakeView { events: old(self)@.events.push(event), ..old(self)@ }),
    {
        self.events.push(event);
    }

    /// Puts in an event, to be given at a poll.
    pub fn inject_on_poll(&mut self, poll: u64, event: HardwareEvent)
        ensures
            final(self)@ == (FakeView {
                scheduled: old(self)@.scheduled.push(ScheduledEvent { poll, event }),
                ..old(self)@
            }),
    {
        self.scheduled.push(ScheduledEvent { poll, event });
    }

    /// What was done, in order.
    pub fn actions(&self) -> (r: &Vec<FakeAction>)
        ensures
            r@ == self@.actions,
    {
        &self.actions
    }

    /// The frames that were presented, in order.
    pub fn presented_frames(&self) -> (r: &Vec<FrameSnapshot>)
        ensures
            r@.map_values(|f: FrameSnapshot| f@) == self@.frames,
    {
        &self.frames
    }

    /// The level of the backlight.
    pub fn backlight_level(&self) -> (r: RealBits)
        ensures
            r == self@.backlight,
    {
        self.backlight
    }

    /// The keys that were pressed and released, one batch after the other.
    pub fn synthetic_transactions(&self) -> (r: &Vec<Vec<FakeKeyEvent>>)
        ensures
            r@.map_values(|t: Vec<FakeKeyEvent>| t@) == self@.transactions,
    {
        &self.transactions
    }

    /// Claims the Touch Bar. Its keyboard is made at the first claim and kept.
    pub fn claim(&mut self) -> (r: Result<(), FakeError>)
        ensures
            if old(self)@.claimed {
                r == Err::<(), FakeError>(FakeError::AlreadyClaimed) && final(self)@ == old(self)@
            } else {
                r is Ok && final(self)@ == (FakeView {
                    claimed: true,
                    keyboard: true,
                    creations: if old(self)@.keyboard {
                        old(self)@.creations
                    } else {
                        plus_one(old(self)@.creations)
                    },
                    actions: old(self)@.actions.push(FakeAction::Grab),
                    ..old(self)@
                })
            },
    {
        if self.claimed {
            return Err(FakeError::AlreadyClaimed);
        }
        self.claimed = true;
        if !self.keyboard {
            self.keyboard = true;
            self.creations = self.creations.saturating_add(1);
        }
        self.actions.push(FakeAction::Grab);
        Ok(())
    }

    fn note_capabilities(&mut self, events: &Vec<HardwareEvent>)
        ensures
            final(self)@ == (FakeView {
                missing: missing_after(old(self)@.missing, events@),
                ..old(self)@
            }),
    {
        let ghost before = self@;
        let mut i: usize = 0;
        assert(events@.take(0) =~= Seq::empty());
        while i < events.len()
            invariant
                i <= events@.len(),
                self@ == (FakeView {
                    missing: missing_after(before.missing, events@.take(i as int)),
                    ..before
                }),
            decreases events@.len() - i,
        {
            assert(events@.take(i + 1).drop_last() =~= events@.take(i as int));
            if let HardwareEvent::Capability { capability, present } = events[i] {
                self.missing.set(capability, !present);
            }
            i += 1;
        }
        assert(events@.take(i as int) =~= events@);
    }

    /// Whether every capability is there.
    pub fn is_available(&self) -> (r: bool)
        ensures
            r == (self@.missing == CapabilitySet::none()),
    {
        !self.missing.display && !self.missing.backlight
    }

    /// The first capability that is missing.
    pub fn unavailable_capability(&self) -> (r: Option<HardwareCapability>)
        ensures
            r == self@.missing.first(),
    {
        self.missing.lowest()
    }

    /// Claims the Touch Bar again, with every capability back.
    pub fn reacquire(&mut self) -> (r: Result<(), FakeError>)
        ensures
            if old(self)@.claimed {
                r == Err::<(), FakeError>(FakeError::AlreadyClaimed) && final(self)@ == old(self)@
            } else {
                r is Ok && final(self)@ == (FakeView {
                    claimed: true,
                    keyboard: true,
                    creations: if old(self)@.keyboard {
                        old(self)@.creations
                    } else {
                        plus_one(old(self)@.creations)
                    },
                    actions: old(self)@.actions.push(FakeAction::Grab),
                    missing: CapabilitySet::none(),
                    ..old(self)@
                })
            },
    {
        self.claim()?;
        self.missing = CapabilitySet { display: false, backlight: false };
        Ok(())
    }

    /// Gives the events that were put in and those that are due.
    pub fn poll(&mut self) -> (r: Result<Vec<HardwareEvent>, FakeError>)
        ensures
            if !old(self)@.claimed {
                r == Err::<Vec<HardwareEvent>, FakeError>(FakeError::NotClaimed) && final(self)@
                    == old(self)@
            } else {
                let poll = plus_one(old(self)@.polls);
                let events = old(self)@.events + due(old(self)@.scheduled, poll);
                &&& r matches Ok(batch) && batch@ == events
                &&& final(self)@ == (FakeView {
                    events: Seq::empty(),
                    scheduled: not_due(old(self)@.scheduled, poll),
                    polls: poll,
                    input: input_after_all(old(self)@.input, events),
                    missing: missing_after(old(self)@.missing, events),
                    ..old(self)@
                })
            },
    {
        if !self.claimed {
            return Err(FakeError::NotClaimed);
        }
        self.polls = self.polls.saturating_add(1);
        let poll: u64 = self.polls;
        let ghost before = self@;
        let mut events: Vec<HardwareEvent> = Vec::new();
        events.append(&mut self.events);
        let ghost first = events@;
        assert(first =~= before.events);
        let mut later: Vec<ScheduledEvent> = Vec::new();
        let mut i: usize = 0;
        assert(self.scheduled@.take(0) =~= Seq::empty());
        assert(events@ =~= first + due(self.scheduled@.take(0), poll));
        assert(later@ =~= not_due(self.scheduled@.take(0), poll));
        while i < self.scheduled.len()
            invariant
                i <= self.scheduled@.len(),
                events@ == first + due(self.scheduled@.take(i as int), poll),
                later@ == not_due(self.scheduled@.take(i as int), poll),
            decreases self.scheduled@.len() - i,
        {
            let s: ScheduledEvent = self.scheduled[i];
            assert(self.scheduled@.take(i + 1).drop_last() =~= self.scheduled@.take(i as int));
            if s.poll == poll {
                events.push(s.event);
            } else {
                later.push(s);
            }
            i += 1;
            assert(events@ =~= first + due(self.scheduled@.take(i as int), poll));
        }
        assert(self.scheduled@.take(i as int) =~= self.scheduled@);
        self.scheduled = later;
        observe_events(&mut self.input, events.as_slice());
        self.note_capabilities(&events);
        assert(self@.events =~= Seq::empty());
        Ok(events)
    }

    /// The keys that are held.
    pub fn input_state(&self) -> (r: InputState)
        ensures
            r == self@.input,
    {
        self.input
    }

    /// Presents a frame.
    pub fn present(&mut self, frame: &LogicalFrame) -> (r: Result<(), FakeError>)
        ensures
            if !old(self)@.claimed {
                r == Err::<(), FakeError>(FakeError::NotClaimed) && final(self)@ == old(self)@
            } else {
                r is Ok && final(self)@ == (FakeView {
                    frames: old(self)@.frames.push(frame@),
                    actions: old(self)@.actions.push(FakeAction::Present),
                    ..old(self)@
                })
            },
    {
        if !self.claimed {
            return Err(FakeError::NotClaimed);
        }
        let ghost before = self@;
        let snapshot = FrameSnapshot {
            width: frame.width(),
            height: frame.height(),
            stride: frame.stride(),
            pixels: copy_bytes(frame.pixels()),
        };
        assert(snapshot@ == frame@);
        self.frames.push(snapshot);
        self.actions.push(FakeAction::Present);
        assert(self@.frames =~= before.frames.push(frame@));
        Ok(())
    }

    /// Presses and releases keys as one batch.
    pub fn emit_key_events(&mut self, events: &[SyntheticKeyEvent]) -> (r: Result<(), FakeError>)
        ensures
            if !old(self)@.claimed {
                r == Err::<(), FakeError>(FakeError::NotClaimed) && final(self)@ == old(self)@
            } else {
                let batch = remembered_all(events@);
                r is Ok && final(self)@ == (FakeView {
                    keys: old(self)@.keys + batch,
                    transactions: old(self)@.transactions.push(batch),
                    actions: old(self)@.actions + key_actions(batch),
                    ..old(self)@
                })
            },
    {
        if !self.claimed {
            return Err(FakeError::NotClaimed);
        }
        let ghost before = self@;
        let ghost batch = remembered_all(events@);
        let mut transaction: Vec<FakeKeyEvent> = Vec::new();
        let mut i: usize = 0;
        assert(transaction@ =~= batch.take(0));
        assert(self.keys@ =~= before.keys + batch.take(0));
        assert(self.actions@ =~= before.actions + key_actions(batch.take(0)));
        while i < events.len()
            invariant
                i <= events@.len(),
                batch == remembered_all(events@),
                transaction@ == batch.take(i as int),
                self.keys@ == before.keys + batch.take(i as int),
                self.actions@ == before.actions + key_actions(batch.take(i as int)),
                self@ == (FakeView { keys: self.keys@, actions: self.actions@, ..before }),
            decreases events@.len() - i,
        {
            let event: SyntheticKeyEvent = events[i];
            let key: FakeKey = match event.key {
                OutputKey::Keyboard(key) => FakeKey::Keyboard(key),
                OutputKey::Consumer(key) => FakeKey::Consumer(key),
            };
            let done = FakeKeyEvent { key, active: event.active };
            assert(batch[i as int] == done);
            assert(batch.take(i + 1) =~= batch.take(i as int).push(done));
            self.keys.push(done);
            transaction.push(done);
            self.actions.push(FakeAction::SyntheticKey(done));
            i += 1;
            assert(self.keys@ =~= before.keys + batch.take(i as int));
            assert(self.actions@ =~= before.actions + key_actions(batch.take(i as int)));
        }
        assert(batch.take(i as int) =~= batch);
        self.transactions.push(transaction);
        assert(self@.transactions =~= before.transactions.push(batch));
        Ok(())
    }

    /// Taps a function key with modifiers held.
    pub fn tap_function_key(&mut self, index: usize, modifiers: ModifierState) -> (r: Result<
        (),
        FakeError,
    >)
        ensures
            if !old(self)@.claimed {
                r == Err::<(), FakeError>(FakeError::NotClaimed) && final(self)@ == old(self)@
            } else if index >= 12 {
                r == Err::<(), FakeError>(FakeError::FunctionKeyOutOfRange) && final(self)@ == old(
                    self,
                )@
            } else {
                r is Ok && exists|key: OutputKey|
                    {
                        &&& key matches OutputKey::Keyboard(f) && f.code() == index + 1
                        &&& final(self)@ == (FakeView {
                            actions: old(self)@.actions + key_actions(
                                tapped_all(#[trigger] tap(key, held_keys(modifiers, 8)), index),
                            ),
                            ..old(self)@
                        })
                    }
            },
    {
        if !self.claimed {
            return Err(FakeError::NotClaimed);
        }
        let key: OutputKey = match function_key_output(index) {
            Some(key) => key,
            None => {
                return Err(FakeError::FunctionKeyOutOfRange);
            },
        };
        let held: Vec<OutputKey> = modifier_output_keys(modifiers);
        let events: Vec<SyntheticKeyEvent> = tap_key_events(key, held.as_slice());
        let ghost before = self@;
        let ghost all = tapped_all(events@, index);
        let mut i: usize = 0;
        assert(self.actions@ =~= before.actions + key_actions(all.take(0)));
        while i < events.len()
            invariant
                i <= events@.len(),
                all == tapped_all(events@, index),
                self.actions@ == before.actions + key_actions(all.take(i as int)),
                self@ == (FakeView { actions: self.actions@, ..before }),
            decreases events@.len() - i,
        {
            let event: SyntheticKeyEvent = events[i];
            let name: FakeKey = match event.key {
                OutputKey::Keyboard(KeyboardKey::LeftCtrl) => FakeKey::Modifier(Modifier::LeftCtrl),
                OutputKey::Keyboard(KeyboardKey::RightCtrl) => FakeKey::Modifier(
                    Modifier::RightCtrl,
                ),
                OutputKey::Keyboard(KeyboardKey::LeftAlt) => FakeKey::Modifier(Modifier::LeftAlt),
                OutputKey::Keyboard(KeyboardKey::RightAlt) => FakeKey::Modifier(Modifier::RightAlt),
                OutputKey::Keyboard(KeyboardKey::LeftShift) => FakeKey::Modifier(
                    Modifier::LeftShift,
                ),
                OutputKey::Keyboard(KeyboardKey::RightShift) => FakeKey::Modifier(
                    Modifier::RightShift,
                ),
                OutputKey::Keyboard(KeyboardKey::LeftSuper) => FakeKey::Modifier(
                    Modifier::LeftSuper,
                ),
                OutputKey::Keyboard(KeyboardKey::RightSuper) => FakeKey::Modifier(
                    Modifier::RightSuper,
                ),
                _ => FakeKey::Function(index),
            };
            let done = FakeKeyEvent { key: name, active: event.active };
            assert(all[i as int] == done);
            assert(all.take(i + 1) =~= all.take(i as int).push(done));
            self.actions.push(FakeAction::SyntheticKey(done));
            i += 1;
            assert(self.actions@ =~= before.actions + key_actions(all.take(i as int)));
        }
        assert(all.take(i as int) =~= all);
        assert(events@ == tap(key, held_keys(modifiers, 8)));
        Ok(())
    }

    /// The level of the backlight.
    pub fn get_backlight(&self) -> (r: Result<RealBits, FakeError>)
        ensures
            r == (if self@.claimed {
                Ok::<RealBits, FakeError>(self@.backlight)
            } else {
                Err(FakeError::NotClaimed)
            }),
    {
        if !self.claimed {
            return Err(FakeError::NotClaimed);
        }
        Ok(self.backlight)
    }

    /// Sets the level of the backlight, between zero and one.
    pub fn set_backlight(&mut self, level: RealBits) -> (r: Result<(), FakeError>)
        ensures
            if !old(self)@.claimed {
                r == Err::<(), FakeError>(FakeError::NotClaimed) && final(self)@ == old(self)@
            } else if !level.in_unit_interval() {
                r == Err::<(), FakeError>(FakeError::BacklightOutOfRange) && final(self)@ == old(
                    self,
                )@
            } else {
                r is Ok && final(self)@ == (FakeView {
                    backlight: level,
                    actions: old(self)@.actions.push(FakeAction::Backlight(level)),
                    ..old(self)@
                })
            },
    {
        if !self.claimed {
            return Err(FakeError::NotClaimed);
        }
        if validate_backlight(level).is_err() {
            return Err(FakeError::BacklightOutOfRange);
        }
        self.backlight = level;
        self.actions.push(FakeAction::Backlight(level));
        Ok(())
    }

    /// Releases the Touch Bar. Releasing it again does nothing.
    pub fn release(&mut self)
        ensures
            final(self)@ == (if old(self)@.claimed {
                FakeView {
                    claimed: false,
                    actions: old(self)@.actions.push(FakeAction::Release),
                    ..old(self)@
                }
            } else {
                old(self)@
            }),
    {
        if self.claimed {
            self.claimed = false;
            self.actions.push(FakeAction::Release);
        }
    }
}

} // verus!
