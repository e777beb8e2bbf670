//! The loop that keeps a strip alive: what each event changes, when it is painted
//! again, and how a run ends.
use vstd::prelude::*;
use vstd::string::StringExecFns;

use crate::config::{same_text, Config, ConfigView, WidgetCfg, WidgetView};
use crate::hardware::{
    function_key_output, held_keys, modifier_output_keys, tap, tap_key_events, Modifier,
    ModifierState, OutputKey, SyntheticKeyEvent,
};
use crate::local_time::{is_time_format, local_now, write_time, LocalTime};

verus! {

/// How long a tapped widget stays lit.
pub const FLASH_NS: u64 = 220_000_000;

/// How long the loop waits for events.
pub const POLL_MS: u64 = 50;

/// The format in which the time of day is looked at.
pub open spec fn tick_format() -> Seq<char> {
    "%H:%M:%S"@
}

/// Key `i` of the function row.
pub open spec fn function_label(i: int) -> Seq<char> {
    if i == 0 {
        "F1"@
    } else if i == 1 {
        "F2"@
    } else if i == 2 {
        "F3"@
    } else if i == 3 {
        "F4"@
    } else if i == 4 {
        "F5"@
    } else if i == 5 {
        "F6"@
    } else if i == 6 {
        "F7"@
    } else if i == 7 {
        "F8"@
    } else if i == 8 {
        "F9"@
    } else if i == 9 {
        "F10"@
    } else if i == 10 {
        "F11"@
    } else {
        "F12"@
    }
}

/// The strip of the function keys: twelve labels of equal width on black.
pub open spec fn function_row() -> ConfigView {
    ConfigView {
        background: "#000000"@,
        widgets: Seq::new(
            12,
            |i: int| WidgetView::Label { text: function_label(i), color: None, width: None },
        ),
    }
}

/// The strip of the function keys.
pub fn function_row_config() -> (c: Config)
    ensures
        c@ == function_row(),
{
    let mut widgets: Vec<WidgetCfg> = Vec::new();
    let mut i: usize = 0;
    while i < 12
        invariant
            i <= 12,
            widgets@.len() == i,
            forall|j: int| 0 <= j < i ==> (#[trigger] widgets@[j])@ == function_row().widgets[j],
        decreases 12 - i,
    {
        let label: &'static str = match i {
            0 => "F1",
            1 => "F2",
            2 => "F3",
            3 => "F4",
            4 => "F5",
            5 => "F6",
            6 => "F7",
            7 => "F8",
            8 => "F9",
            9 => "F10",
            10 => "F11",
            _ => "F12",
        };
        widgets.push(WidgetCfg::Label { text: label.to_owned(), color: None, width: None });
        i += 1;
    }
    let c = Config { background: "#000000".to_owned(), widgets };
    assert(c@.widgets =~= function_row().widgets);
    c
}

/// The key events of a tapped function key, with the held modifiers around it.
pub fn function_key_tap(index: usize, modifiers: ModifierState) -> (r: Option<
    Vec<SyntheticKeyEvent>,
>)
    ensures
        match r {
            Some(events) => index < 12 && exists|key: OutputKey|
                (key matches OutputKey::Keyboard(f) && f.code() == index + 1) && events@
                    == #[trigger] tap(key, held_keys(modifiers, 8)),
            None => index >= 12,
        },
{
    match function_key_output(index) {
        Some(key) => {
            let held: Vec<OutputKey> = modifier_output_keys(modifiers);
            Some(tap_key_events(key, held.as_slice()))
        },
        None => None,
    }
}

/// Something that happened to the strip. A tap names the widget that it hit, on the layer
/// that is shown.
#[derive(Clone, Copy, Debug, PartialEq, Eq, Structural)]
pub enum DaemonEvent {
    Fn { active: bool },
    Modifier { modifier: Modifier, active: bool },
    Tap { hit: Option<usize> },
    Device { present: bool },
    Visibility { visible: bool },
}

/// What is to be done about an event.
#[derive(Clone, Copy, Debug, PartialEq, Eq, Structural)]
pub enum DaemonAction {
    Nothing,
    TapFunctionKey { index: usize, modifiers: ModifierState },
    RunWidgetAction { index: usize },
}

/// A widget that was tapped, and when.
#[derive(Clone, Copy, Debug, PartialEq, Eq, Structural)]
pub struct Press {
    pub index: usize,
    pub since_ns: u64,
}

/// What the loop remembers besides the strip itself.
pub struct DaemonView {
    pub cfg: ConfigView,
    pub pressed: Option<Press>,
    pub fn_active: bool,
    pub modifiers: ModifierState,
    pub last_tick: Seq<char>,
    pub dirty: bool,
}

/// The loop that keeps a strip alive.
pub struct Daemon {
    pub cfg: Config,
    pub fn_layer: Config,
    pub pressed: Option<Press>,
    pub fn_active: bool,
    pub modifiers: ModifierState,
    pub last_tick: String,
    pub dirty: bool,
}

impl View for Daemon {
    type V = DaemonView;

    open spec fn view(&self) -> DaemonView {
        DaemonView {
            cfg: self.cfg@,
            pressed: self.pressed,
            fn_active: self.fn_active,
            modifiers: self.modifiers,
            last_tick: self.last_tick@,
            dirty: self.dirty,
        }
    }
}

impl DaemonView {
    /// The loop after an event, and what is to be done about it.
    pub open spec fn after(self, event: DaemonEvent, now_ns: u64) -> (DaemonView, DaemonAction) {
        match event {
            DaemonEvent::Fn { active } => if active != self.fn_active {
                (
                    DaemonView { fn_active: active, pressed: None, dirty: true, ..self },
                    DaemonAction::Nothing,
                )
            } else {
                (self, DaemonAction::Nothing)
            },
            DaemonEvent::Modifier { modifier, active } => (
                DaemonView { modifiers: self.modifiers.with(modifier, active), ..self },
                DaemonAction::Nothing,
            ),
            DaemonEvent::Tap { hit: Some(index) } => (
                DaemonView {
                    pressed: Some(Press { index, since_ns: now_ns }),
                    dirty: true,
                    ..self
                },
                if self.fn_active {
                    DaemonAction::TapFunctionKey { index, modifiers: self.modifiers }
                } else {
                    DaemonAction::RunWidgetAction { index }
                },
            ),
            _ => (self, DaemonAction::Nothing),
        }
    }

    /// The press fades when it is older than the flash.
    pub open spec fn faded(self, now_ns: u64) -> DaemonView {
        match self.pressed {
            Some(press) => if now_ns - press.since_ns > FLASH_NS {
                DaemonView { pressed: None, dirty: true, ..self }
            } else {
                self
            },
            None => self,
        }
    }

    /// The loop at a time of day: what fades, fades, and every second is painted.
    pub open spec fn stepped(self, now_ns: u64, tick: Seq<char>) -> DaemonView {
        let faded = self.faded(now_ns);
        if tick != self.last_tick {
            DaemonView { last_tick: tick, dirty: true, ..faded }
        } else {
            faded
        }
    }

    /// The loop at a moment, whose second counts.
    pub open spec fn stepped_at(self, now_ns: u64, time: LocalTime) -> DaemonView {
        self.stepped(now_ns, time.written(tick_format())->Some_0)
    }
}

impl Daemon {
    /// A loop that has everything still to paint.
    pub fn new(cfg: Config) -> (d: Daemon)
        ensures
            d.fn_layer@ == function_row(),
            d@ == (DaemonView {
                cfg: cfg@,
                pressed: None,
                fn_active: false,
                modifiers: ModifierState::none(),
                last_tick: Seq::empty(),
                dirty: true,
            }),
    {
        Daemon {
            cfg,
            fn_layer: function_row_config(),
            pressed: None,
            fn_active: false,
            modifiers: ModifierState::empty(),
            last_tick: String::new(),
            dirty: true,
        }
    }

    /// The layer that is shown: the function keys while Fn is held.
    pub fn shown_layer(&self) -> (c: &Config)
        ensures
            c@ == (if self@.fn_active {
                self.fn_layer@
            } else {
                self@.cfg
            }),
    {
        if self.fn_active {
            &self.fn_layer
        } else {
            &self.cfg
        }
    }

    /// The widget that is lit, where one is.
    pub fn lit(&self) -> (r: Option<usize>)
        ensures
            r == (match self@.pressed {
                Some(press) => Some(press.index),
                None => None,
            }),
    {
        match self.pressed {
            Some(press) => Some(press.index),
            None => None,
        }
    }

    /// Takes an event and says what is to be done about it.
    pub fn handle(&mut self, event: DaemonEvent, now_ns: u64) -> (action: DaemonAction)
        ensures
            final(self).fn_layer == old(self).fn_layer,
            (final(self)@, action) == old(self)@.after(event, now_ns),
    {
        match event {
            DaemonEvent::Fn { active } => {
                if active != self.fn_active {
                    self.fn_active = active;
                    self.pressed = None;
                    self.dirty = true;
                }
                DaemonAction::Nothing
            },
            DaemonEvent::Modifier { modifier, active } => {
                self.modifiers.set(modifier, active);
                DaemonAction::Nothing
            },
            DaemonEvent::Tap { hit: Some(index) } => {
                self.pressed = Some(Press { index, since_ns: now_ns });
                self.dirty = true;
                if self.fn_active {
                    DaemonAction::TapFunctionKey { index, modifiers: self.modifiers }
                } else {
                    DaemonAction::RunWidgetAction { index }
                }
            },
            _ => DaemonAction::Nothing,
        }
    }

    /// Takes another strip, which replaces the one that is shown.
    pub fn apply(&mut self, cfg: Config)
        ensures
            final(self).fn_layer == old(self).fn_layer,
            final(self)@ == (DaemonView { cfg: cfg@, pressed: None, dirty: true, ..old(self)@ }),
    {
        self.cfg = cfg;
        self.pressed = None;
        self.dirty = true;
    }

    /// Ends a step at a time of day and says whether the strip is to be painted.
    pub fn finish_step(&mut self, now_ns: u64, tick: &str) -> (paint: bool)
        ensures
            final(self).fn_layer == old(self).fn_layer,
            final(self)@ == old(self)@.stepped(now_ns, tick@),
            paint == final(self)@.dirty,
    {
        if let Some(press) = self.pressed {
            if now_ns > press.since_ns && now_ns - press.since_ns > FLASH_NS {
                self.pressed = None;
                self.dirty = true;
            }
        }
        if !same_text(tick, self.last_tick.as_str()) {
            self.last_tick = tick.to_owned();
            self.dirty = true;
        }
        self.dirty
    }

    /// Ends a step at a moment, and says whether the strip is to be painted. The time of
    /// day is looked at by the second.
    pub fn finish_step_at(&mut self, now_ns: u64, time: LocalTime) -> (paint: Option<bool>)
        requires
            time.valid(),
        ensures
            final(self).fn_layer == old(self).fn_layer,
            match paint {
                Some(paint) => {
                    &&& is_time_format(tick_format())
                    &&& final(self)@ == old(self)@.stepped_at(now_ns, time)
                    &&& paint == final(self)@.dirty
                },
                None => !is_time_format(tick_format()) && *final(self) == *old(self),
            },
    {
        match write_time(time, "%H:%M:%S") {
            Some(tick) => Some(self.finish_step(now_ns, tick.as_str())),
            None => None,
        }
    }

    /// Ends a step now: at the moment that the clock of the machine gives.
    pub fn finish_step_now(&mut self, now_ns: u64) -> (paint: Option<bool>)
        ensures
            final(self).fn_layer == old(self).fn_layer,
            match paint {
                Some(paint) => {
                    &&& is_time_format(tick_format())
                    &&& exists|time: LocalTime|
                        time.valid() && final(self)@ == #[trigger] old(self)@.stepped_at(
                            now_ns,
                            time,
                        )
                    &&& paint == final(self)@.dirty
                },
                None => !is_time_format(tick_format()) && *final(self) == *old(self),
            },
    {
        self.finish_step_at(now_ns, local_now())
    }

    /// The strip was painted.
    pub fn painted(&mut self)
        ensures
            final(self).fn_layer == old(self).fn_layer,
            final(self)@ == (DaemonView { dirty: false, ..old(self)@ }),
    {
        self.dirty = false;
    }
}

/// The line that answers a strip that was sent: one word, or the words of an error.
pub open spec fn reply_line(failure: Option<Seq<char>>) -> Seq<char> {
    match failure {
        None => "ok\n"@,
        Some(words) => "error: "@ + words + "\n"@,
    }
}

/// Answers a strip that was sent.
pub fn apply_reply(failure: Option<&str>) -> (line: String)
    ensures
        line@ == reply_line(
            match failure {
                None => None,
                Some(words) => Some(words@),
            },
        ),
{
    match failure {
        None => "ok\n".to_owned(),
        Some(words) => {
            let mut line: String = "error: ".to_owned();
            line.append(words);
            line.append("\n");
            line
        },
    }
}

/// How a run ended: what failed first, and whether letting go of the strip failed too.
#[derive(Clone, Copy, Debug, PartialEq, Eq, Structural)]
pub enum RunEnd {
    Clean,
    Failed,
    FailedAndHeld,
    Held,
}

/// How a run ends. The strip is let go of in any case, and a failure of the run counts
/// before a failure to let go.
pub fn end_run(run_failed: bool, release_failed: bool) -> (end: RunEnd)
    ensures
        end == (match (run_failed, release_failed) {
            (true, true) => RunEnd::FailedAndHeld,
            (true, false) => RunEnd::Failed,
            (false, true) => RunEnd::Held,
            (false, false) => RunEnd::Clean,
        }),
{
    match (run_failed, release_failed) {
        (true, true) => RunEnd::FailedAndHeld,
        (true, false) => RunEnd::Failed,
        (false, true) => RunEnd::Held,
        (false, false) => RunEnd::Clean,
    }
}

/// What the loop does next.
#[derive(Clone, Copy, Debug, PartialEq, Eq, Structural)]
pub enum RunStep {
    /// Claim the strip.
    Claim,
    /// Paint the strip for the first time.
    Paint,
    /// Wait for events, take what was sent, end the step, and paint where needed.
    Step,
    /// Let go of the strip.
    Release,
    /// Nothing more: the run ended.
    Ended(RunEnd),
}

/// A run of the loop.
pub struct Run {
    pub daemon: Daemon,
    pub next: RunStep,
    pub failed: bool,
}

/// What follows a step of a run, given whether it worked and whether the run goes on.
/// Any failure leads to letting go of the strip, and that ends the run.
pub open spec fn next_step(now: RunStep, failed: bool, ok: bool, running: bool) -> RunStep {
    match now {
        RunStep::Claim => if ok {
            RunStep::Paint
        } else {
            RunStep::Release
        },
        RunStep::Paint => if ok && running {
            RunStep::Step
        } else {
            RunStep::Release
        },
        RunStep::Step => if ok && running {
            RunStep::Step
        } else {
            RunStep::Release
        },
        RunStep::Release => RunStep::Ended(
            match (failed, ok) {
                (true, false) => RunEnd::FailedAndHeld,
                (true, true) => RunEnd::Failed,
                (false, false) => RunEnd::Held,
                (false, true) => RunEnd::Clean,
            },
        ),
        RunStep::Ended(end) => RunStep::Ended(end),
    }
}

/// Begins a run with a strip: the strip is to be claimed first.
pub fn run(cfg: Config) -> (r: Run)
    ensures
        r.next == RunStep::Claim,
        !r.failed,
        r.daemon.fn_layer@ == function_row(),
        r.daemon@ == (DaemonView {
            cfg: cfg@,
            pressed: None,
            fn_active: false,
            modifiers: ModifierState::none(),
            last_tick: Seq::empty(),
            dirty: true,
        }),
{
    Run { daemon: Daemon::new(cfg), next: RunStep::Claim, failed: false }
}

impl Run {
    /// A step was taken: says what is next.
    pub fn advance(&mut self, ok: bool, running: bool) -> (next: RunStep)
        ensures
            next == next_step(old(self).next, old(self).failed, ok, running),
            final(self).next == next,
            final(self).failed == (old(self).failed || (!ok && (old(self).next == RunStep::Claim
                || old(self).next == RunStep::Paint || old(self).next == RunStep::Step))),
            final(self).daemon == old(self).daemon,
    {
        let next: RunStep = match self.next {
            RunStep::Claim => if ok {
                RunStep::Paint
            } else {
                RunStep::Release
            },
            RunStep::Paint => if ok && running {
                RunStep::Step
            } else {
                RunStep::Release
            },
            RunStep::Step => if ok && running {
                RunStep::Step
            } else {
                RunStep::Release
            },
            RunStep::Release => RunStep::Ended(end_run(self.failed, !ok)),
            RunStep::Ended(end) => RunStep::Ended(end),
        };
        let working: bool = match self.next {
            RunStep::Claim => true,
            RunStep::Paint => true,
            RunStep::Step => true,
            _ => false,
        };
        if working && !ok {
            self.failed = true;
        }
        self.next = next;
        next
    }
}

/// Pressing Fn and releasing it brings the strip back as it was, to be painted again
/// and with nothing lit.
pub proof fn law_fn_layer_is_momentary(d: DaemonView, first: u64, second: u64)
    requires
        !d.fn_active,
    ensures
        d.after(DaemonEvent::Fn { active: true }, first).0.after(
            DaemonEvent::Fn { active: false },
            second,
        ).0 == (DaemonView { pressed: None, dirty: true, ..d }),
{
}

/// A run ends by letting go of the strip and in no other way.
pub proof fn law_a_run_ends_by_letting_go(now: RunStep, failed: bool, ok: bool, running: bool)
    ensures
        next_step(now, failed, ok, running) is Ended ==> now is Release || now is Ended,
        !ok && !(now is Ended) && !(now is Release) ==> next_step(now, failed, ok, running)
            is Release,
{
}

} // verus!
