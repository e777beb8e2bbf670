use sliver::config::{
    battery_capacity, battery_level, default_battery_fmt, default_bg, default_clock_fmt, hex,
    is_battery, number_text, one, parse_level, replace_all, same_text, widget_text, widget_text_at,
    widget_text_now, BadTimeFormat, Config, WidgetCfg,
};
use sliver::daemon::{
    apply_reply, end_run, function_key_tap, function_row_config, run, Daemon, DaemonAction,
    DaemonEvent, RunEnd, RunStep, FLASH_NS,
};
use sliver::editor::{
    default_config, property_rows, read_daemon_reply, summarize, Editor, Palette, PropertyRow,
};
use sliver::fake_touch_bar::{FakeAction, FakeError, FakeKey, FakeKeyEvent, FakeTouchBar};
use sliver::hardware::{
    HardwareEvent, KeyboardKey, LogicalFrame, Modifier, ModifierState, OutputKey, RealBits,
    SyntheticKeyEvent, TouchEvent, TouchPhase,
};
use sliver::local_time::{LocalTime, LAST_SECOND};

fn number(value: f64) -> RealBits {
    RealBits {
        bits: value.to_bits(),
    }
}

fn label(text: &str, width: Option<f64>) -> WidgetCfg {
    WidgetCfg::Label {
        text: text.to_string(),
        color: None,
        width: width.map(number),
    }
}

/// Paints the background of the layer that is shown, and a white dot for a lit widget.
fn paint(daemon: &Daemon) -> LogicalFrame {
    let (r, g, b) = hex(&daemon.shown_layer().background);
    let mut pixels = Vec::new();
    for _ in 0..2008 * 60 {
        pixels.extend([b, g, r, 255]);
    }
    if let Some(index) = daemon.lit() {
        pixels[8032 * 30 + 400 * (index + 1)..][..4].fill(255);
    }
    LogicalFrame::from_parts(2008, 60, 8032, pixels)
}

fn repaint(daemon: &mut Daemon, hardware: &mut FakeTouchBar) {
    hardware.present(&paint(daemon)).unwrap();
    daemon.painted();
}

fn finish_step(daemon: &mut Daemon, hardware: &mut FakeTouchBar, now_ns: u64) {
    if daemon.finish_step(now_ns, "12:00:00") {
        repaint(daemon, hardware);
    }
}

fn rgba(hardware: &FakeTouchBar) -> [u8; 4] {
    let p = &hardware.presented_frames().last().unwrap().pixels;
    [p[2], p[1], p[0], p[3]]
}

#[test]
fn live_toml_apply_and_widget_press_cross_the_hardware_seam() {
    let strip = |background: &str, text: &str| Config {
        background: background.to_string(),
        widgets: vec![label(text, Some(300.0))],
    };
    let mut daemon = Daemon::new(strip("#ff0000", "first"));
    let mut hardware = FakeTouchBar::new();
    hardware.claim().unwrap();
    repaint(&mut daemon, &mut hardware);
    assert_eq!(rgba(&hardware), [255, 0, 0, 255]);

    daemon.apply(strip("#0000ff", "updated"));
    let reply = apply_reply(None);
    finish_step(&mut daemon, &mut hardware, 1);
    assert_eq!(read_daemon_reply(&reply), Ok(()));
    assert_eq!(rgba(&hardware), [0, 0, 255, 255]);

    // A tap at 100 hits the first widget, which starts at 16 and is 300 wide.
    let action = daemon.handle(DaemonEvent::Tap { hit: Some(0) }, 2);
    assert_eq!(action, DaemonAction::RunWidgetAction { index: 0 });
    finish_step(&mut daemon, &mut hardware, 3);
    let frames = hardware.presented_frames();
    assert_ne!(frames[frames.len() - 2], frames[frames.len() - 1]);
    hardware.release();
}

#[test]
fn current_function_row_crosses_the_hardware_seam() {
    let mut daemon = Daemon::new(Config {
        background: "#ff0000".to_string(),
        widgets: vec![],
    });
    let mut hardware = FakeTouchBar::new();
    hardware.claim().unwrap();
    repaint(&mut daemon, &mut hardware);
    let first = &hardware.presented_frames()[0];
    assert_eq!((first.width, first.height), (2008, 60));
    assert_eq!(rgba(&hardware), [255, 0, 0, 255]);

    let modifier = DaemonEvent::Modifier {
        modifier: Modifier::LeftCtrl,
        active: true,
    };
    assert_eq!(daemon.handle(modifier, 1), DaemonAction::Nothing);
    daemon.handle(DaemonEvent::Fn { active: true }, 1);
    finish_step(&mut daemon, &mut hardware, 2);
    assert_eq!(rgba(&hardware), [0, 0, 0, 255]);

    // Twelve keys share the strip: a tap at 260 hits the second of them.
    let action = daemon.handle(DaemonEvent::Tap { hit: Some(1) }, 3);
    let DaemonAction::TapFunctionKey { index, modifiers } = action else {
        panic!("a tap on the function row is a function key");
    };
    hardware.tap_function_key(index, modifiers).unwrap();
    finish_step(&mut daemon, &mut hardware, 4);
    let frames = hardware.presented_frames();
    assert_ne!(frames[frames.len() - 2], frames[frames.len() - 1]);
    let key_events: Vec<_> = hardware
        .actions()
        .iter()
        .filter_map(|action| match action {
            FakeAction::SyntheticKey(event) => Some(*event),
            _ => None,
        })
        .collect();
    let ctrl = FakeKey::Modifier(Modifier::LeftCtrl);
    let event = |key, active| FakeKeyEvent { key, active };
    assert_eq!(
        key_events,
        vec![
            event(ctrl, true),
            event(FakeKey::Function(1), true),
            event(FakeKey::Function(1), false),
            event(ctrl, false),
        ]
    );

    daemon.handle(DaemonEvent::Fn { active: false }, 5);
    finish_step(&mut daemon, &mut hardware, 6);
    assert_eq!(rgba(&hardware), [255, 0, 0, 255]);

    daemon.handle(DaemonEvent::Device { present: true }, 7);
    daemon.handle(DaemonEvent::Visibility { visible: true }, 7);
    finish_step(&mut daemon, &mut hardware, 8);
    hardware.set_backlight(number(0.5)).unwrap();
    assert!(hardware.actions().contains(&FakeAction::Backlight(number(0.5))));
    hardware.release();
    assert_eq!(hardware.actions().first(), Some(&FakeAction::Grab));
    let releases = hardware
        .actions()
        .iter()
        .filter(|action| matches!(action, FakeAction::Release))
        .count();
    assert_eq!(releases, 1);
}

#[test]
fn fake_round_trips_lifecycle_touch_snapshots() {
    let mut hardware = FakeTouchBar::new();
    hardware.claim().unwrap();
    let mut modifiers = ModifierState::empty();
    modifiers.set(Modifier::LeftCtrl, true);
    let touch = TouchEvent {
        phase: TouchPhase::Down,
        id: 7,
        time: number(1.25),
        x: number(100.0),
        y: number(20.0),
        modifiers,
        pressure: Some(number(0.5)),
        width: Some(number(0.25)),
        height: None,
    };
    hardware.inject(HardwareEvent::Touch(touch));
    assert_eq!(hardware.poll().unwrap(), vec![HardwareEvent::Touch(touch)]);
    hardware.release();
}

#[test]
fn fake_key_batch_preserves_one_ordered_transaction() {
    let mut hardware = FakeTouchBar::new();
    hardware.claim().unwrap();
    let keys = [
        (KeyboardKey::LeftCtrl, true),
        (KeyboardKey::F2, true),
        (KeyboardKey::F2, false),
        (KeyboardKey::LeftCtrl, false),
    ];
    hardware
        .emit_key_events(&keys.map(|(key, active)| SyntheticKeyEvent {
            key: OutputKey::Keyboard(key),
            active,
        }))
        .unwrap();
    let expected = keys.map(|(key, active)| FakeKeyEvent {
        key: FakeKey::Keyboard(key),
        active,
    });
    assert_eq!(hardware.synthetic_transactions(), &vec![expected.to_vec()]);
    hardware.release();
}

#[test]
fn fake_backlight_tracks_validated_writes() {
    let mut hardware = FakeTouchBar::new();
    hardware.claim().unwrap();
    assert_eq!(hardware.get_backlight(), Ok(number(0.0)));
    hardware.set_backlight(number(0.75)).unwrap();
    assert_eq!(hardware.get_backlight(), Ok(number(0.75)));
    assert_eq!(
        hardware.actions(),
        &vec![FakeAction::Grab, FakeAction::Backlight(number(0.75))]
    );
    assert_eq!(
        hardware.set_backlight(number(1.01)),
        Err(FakeError::BacklightOutOfRange)
    );
    assert_eq!(hardware.backlight_level(), number(0.75));
}

#[test]
fn an_unclaimed_touch_bar_refuses_everything() {
    let mut hardware = FakeTouchBar::new();
    let frame = LogicalFrame::from_parts(2, 1, 8, vec![0; 8]);
    assert_eq!(hardware.poll(), Err(FakeError::NotClaimed));
    assert_eq!(hardware.present(&frame), Err(FakeError::NotClaimed));
    assert_eq!(hardware.emit_key_events(&[]), Err(FakeError::NotClaimed));
    assert_eq!(hardware.get_backlight(), Err(FakeError::NotClaimed));
    assert_eq!(hardware.set_backlight(number(0.5)), Err(FakeError::NotClaimed));
    assert_eq!(
        hardware.tap_function_key(0, ModifierState::empty()),
        Err(FakeError::NotClaimed)
    );
    hardware.release();
    assert!(hardware.actions().is_empty());
    hardware.claim().unwrap();
    assert_eq!(hardware.claim(), Err(FakeError::AlreadyClaimed));
    assert_eq!(
        hardware.tap_function_key(12, ModifierState::empty()),
        Err(FakeError::FunctionKeyOutOfRange)
    );
    hardware.inject_on_poll(2, HardwareEvent::Fn { active: true });
    assert!(hardware.poll().unwrap().is_empty());
    assert_eq!(hardware.poll().unwrap(), vec![HardwareEvent::Fn { active: true }]);
    assert!(hardware.poll().unwrap().is_empty());
}

#[test]
fn a_press_fades_and_every_second_is_painted() {
    let mut daemon = Daemon::new(default_config());
    assert!(daemon.finish_step(0, "a"));
    daemon.painted();
    assert!(!daemon.finish_step(1, "a"));
    assert!(daemon.finish_step(2, "b"));
    daemon.painted();
    daemon.handle(DaemonEvent::Tap { hit: Some(2) }, 10);
    assert_eq!(daemon.lit(), Some(2));
    daemon.painted();
    assert!(!daemon.finish_step(10 + FLASH_NS, "b"));
    assert!(daemon.finish_step(11 + FLASH_NS, "b"));
    assert_eq!(daemon.lit(), None);
    daemon.painted();
    assert_eq!(daemon.handle(DaemonEvent::Tap { hit: None }, 20), DaemonAction::Nothing);
    assert_eq!(daemon.handle(DaemonEvent::Fn { active: false }, 20), DaemonAction::Nothing);
    assert!(!daemon.finish_step(21, "b"));
}

#[test]
fn the_function_row_has_twelve_keys() {
    let row = function_row_config();
    assert_eq!(row.background, "#000000");
    let texts: Vec<_> = row
        .widgets
        .iter()
        .map(|w| widget_text(w, "", None).unwrap().0)
        .collect();
    let expected: Vec<String> = (1..=12).map(|n| format!("F{n}")).collect();
    assert_eq!(texts, expected);
    let mut modifiers = ModifierState::empty();
    modifiers.set(Modifier::RightAlt, true);
    let events = function_key_tap(11, modifiers).unwrap();
    let keys: Vec<_> = events.iter().map(|e| (e.key, e.active)).collect();
    let (alt, f12) = (
        OutputKey::Keyboard(KeyboardKey::RightAlt),
        OutputKey::Keyboard(KeyboardKey::F12),
    );
    assert_eq!(keys, vec![(alt, true), (f12, true), (f12, false), (alt, false)]);
    assert!(function_key_tap(12, modifiers).is_none());
}

#[test]
fn a_run_lets_go_of_the_strip_however_it_ends() {
    let script = |steps: &[(bool, bool)]| {
        let mut run = run(default_config());
        assert_eq!(run.next, RunStep::Claim);
        steps.iter().map(|(ok, running)| run.advance(*ok, *running)).collect::<Vec<_>>()
    };
    assert_eq!(
        script(&[(true, true), (true, true), (true, true), (true, false), (true, false)]),
        vec![
            RunStep::Paint,
            RunStep::Step,
            RunStep::Step,
            RunStep::Release,
            RunStep::Ended(RunEnd::Clean),
        ]
    );
    assert_eq!(
        script(&[(false, true), (true, true), (true, true)]),
        vec![
            RunStep::Release,
            RunStep::Ended(RunEnd::Failed),
            RunStep::Ended(RunEnd::Failed),
        ]
    );
    assert_eq!(end_run(true, true), RunEnd::FailedAndHeld);
    assert_eq!(end_run(false, true), RunEnd::Held);
    assert_eq!(apply_reply(Some("no such widget")), "error: no such widget\n");
    assert_eq!(
        read_daemon_reply("error: no such widget\n"),
        Err("error: no such widget".to_string())
    );
}

#[test]
fn colors_are_read_leniently() {
    assert_eq!(hex("#88ffcc"), (0x88, 0xff, 0xcc));
    assert_eq!(hex("ABCDEF"), (0xab, 0xcd, 0xef));
    assert_eq!(hex("##102030"), (0x10, 0x20, 0x30));
    assert_eq!(hex("#zz0011"), (0xff, 0x00, 0x11));
    assert_eq!(hex("#+f-1 2"), (0x0f, 0xff, 0xff));
    assert_eq!(hex("#fff"), (255, 255, 255));
    assert_eq!(hex(""), (255, 255, 255));
}

#[test]
fn widgets_say_what_they_show() {
    let battery = |format: &str, color: Option<&str>| WidgetCfg::Battery {
        format: format.to_string(),
        color: color.map(str::to_string),
        width: None,
    };
    let shown = |w: &WidgetCfg, level| widget_text(w, "12:34", level);
    let some = |text: &str, color: Option<&str>| {
        Some((text.to_string(), color.map(str::to_string)))
    };
    let plain = battery("{capacity}% {capacity}", None);
    assert_eq!(shown(&plain, Some(100)), some("100% 100", Some("#88ffcc")));
    assert_eq!(shown(&plain, Some(51)), some("51% 51", Some("#88ffcc")));
    assert_eq!(shown(&plain, Some(50)), some("50% 50", Some("#ffcc66")));
    assert_eq!(shown(&plain, Some(20)), some("20% 20", Some("#ff6677")));
    assert_eq!(shown(&plain, Some(101)), some("101% 101", Some("#ff6677")));
    assert_eq!(shown(&plain, Some(-5)), some("-5% -5", Some("#ff6677")));
    assert_eq!(shown(&battery("x", Some("#123456")), Some(80)), some("x", Some("#123456")));
    assert_eq!(shown(&plain, None), None);
    assert_eq!(shown(&label("hi", None), None), some("hi", None));
    let clock = WidgetCfg::Clock {
        format: default_clock_fmt(),
        color: Some("#aaddff".to_string()),
        width: None,
    };
    assert_eq!(shown(&clock, None), some("12:34", Some("#aaddff")));
    assert_eq!(shown(&WidgetCfg::Spacer { flex: one() }, None), None);
    assert_eq!(default_bg(), "#000000");
    assert_eq!(default_battery_fmt(), "{capacity}%");
    assert_eq!(one(), number(1.0));
}

#[test]
fn the_first_battery_is_the_one_that_counts() {
    let supply = |kind: &str, charge: Option<&str>| (kind.to_string(), charge.map(str::to_string));
    let mains = supply("Mains\n", Some("55"));
    let battery = supply("Battery\n", Some(" 41\n"));
    let other = supply("Battery\n", Some("90\n"));
    assert_eq!(battery_capacity(&vec![]), None);
    assert_eq!(battery_capacity(&vec![mains.clone()]), None);
    assert_eq!(
        battery_capacity(&vec![mains.clone(), battery.clone(), other.clone()]),
        Some(41)
    );
    assert_eq!(battery_capacity(&vec![other.clone(), battery]), Some(90));
    for unknown in [None, Some(""), Some("full"), Some("101"), Some("-1")] {
        let first = supply("Battery", unknown);
        assert_eq!(battery_capacity(&vec![mains.clone(), first, other.clone()]), None);
    }
}

#[test]
fn levels_are_read_from_the_system() {
    assert!(is_battery("Battery\n"));
    assert!(!is_battery("Mains\n"));
    assert_eq!(battery_level(" 87\n"), Some(87));
    assert_eq!(battery_level("\n"), None);
    assert_eq!(battery_level("0"), Some(0));
    assert_eq!(battery_level("100"), Some(100));
    assert_eq!(battery_level("101"), None);
    assert_eq!(battery_level("-1"), None);
    assert_eq!(parse_level("+7"), Some(7));
    assert_eq!(parse_level("-"), None);
    assert_eq!(parse_level("8 7"), None);
    assert_eq!(parse_level("9223372036854775807"), Some(i64::MAX));
    assert_eq!(parse_level("9223372036854775808"), None);
    assert_eq!(parse_level("-9223372036854775808"), Some(i64::MIN));
    assert_eq!(number_text(i64::MIN), i64::MIN.to_string());
    assert_eq!(number_text(0), "0");
    assert_eq!(replace_all("aaa", "aa", "b"), "ba");
    assert_eq!(replace_all("åb", "b", "ü"), "åü");
    assert!(same_text("ok", "ok") && !same_text("ok", "okay") && !same_text("ok", "on"));
}

fn texts(editor: &Editor) -> Vec<String> {
    editor.cfg.widgets.iter().map(|w| summarize(w, "?")).collect()
}

#[test]
fn a_strip_is_edited_widget_by_widget() {
    let mut editor = Editor {
        cfg: default_config(),
        selected: None,
    };
    assert_eq!(editor.cfg.background, "#111111");
    assert_eq!(texts(&editor), vec!["label — “sliver”", "spacer — flex ?", "clock — %a %H:%M"]);
    assert!(!editor.move_selected(true) && !editor.delete_selected());
    for kind in [Palette::Label, Palette::Clock, Palette::Battery, Palette::Spacer] {
        editor.add_widget(kind);
    }
    assert_eq!(editor.selected, Some(6));
    assert_eq!(
        texts(&editor)[3..],
        ["label — “new label”", "clock — %H:%M", "battery — {capacity}%", "spacer — flex ?"]
    );
    assert!(!editor.move_selected(true), "nothing moves beyond the end");
    assert!(editor.move_selected(false));
    assert_eq!(editor.selected, Some(5));
    assert_eq!(texts(&editor)[5..], ["spacer — flex ?", "battery — {capacity}%"]);
    assert!(editor.move_selected(true));
    assert_eq!(texts(&editor)[5..], ["battery — {capacity}%", "spacer — flex ?"]);
    assert!(editor.delete_selected());
    assert_eq!(editor.selected, None);
    assert_eq!(editor.cfg.widgets.len(), 6);
    editor.select(Some(0));
    assert!(!editor.move_selected(false), "nothing moves before the start");
    editor.select(Some(-1));
    assert_eq!(editor.selected, Some(usize::MAX));
    assert!(!editor.move_selected(false) && !editor.delete_selected());
    editor.select(Some(i32::MIN));
    assert_eq!(editor.selected, Some(i32::MIN as usize));
    assert!(!editor.move_selected(true));
    editor.select(None);
    assert_eq!(editor.selected, None);
    editor.select(Some(99));
    assert!(!editor.delete_selected());
}

#[test]
fn properties_change_what_they_name() {
    let mut editor = Editor {
        cfg: default_config(),
        selected: None,
    };
    editor.set_text(0, "hello");
    editor.set_color(0, "  ");
    editor.set_width(0, number(0.0));
    assert!(matches!(&editor.cfg.widgets[0],
        WidgetCfg::Label { text, color: None, width: None } if text == "hello"));
    editor.set_color(0, "#010203");
    editor.set_width(0, number(12.5));
    assert!(matches!(&editor.cfg.widgets[0],
        WidgetCfg::Label { color: Some(c), width: Some(w), .. }
            if c == "#010203" && *w == number(12.5)));
    editor.set_width(0, number(-1.0));
    assert!(matches!(&editor.cfg.widgets[0], WidgetCfg::Label { width: None, .. }));
    editor.set_flex(1, number(2.5));
    assert!(matches!(&editor.cfg.widgets[1], WidgetCfg::Spacer { flex } if *flex == number(2.5)));
    for low in [0.0, -3.0, f64::NAN] {
        editor.set_flex(1, number(low));
        assert!(
            matches!(&editor.cfg.widgets[1], WidgetCfg::Spacer { flex } if *flex == number(0.1))
        );
    }
    // A property that a widget does not have is left alone, and so is a missing widget.
    editor.set_text(1, "x");
    editor.set_color(1, "x");
    editor.set_width(1, number(3.0));
    editor.set_flex(2, number(9.0));
    editor.set_text(9, "x");
    assert_eq!(texts(&editor), vec!["label — “hello”", "spacer — flex ?", "clock — %a %H:%M"]);
    assert_eq!(
        property_rows(&editor.cfg.widgets[0]),
        vec![PropertyRow::Text, PropertyRow::Color, PropertyRow::Width]
    );
    assert_eq!(property_rows(&editor.cfg.widgets[1]), vec![PropertyRow::Flex]);
    assert_eq!(property_rows(&editor.cfg.widgets[2])[0].caption(), "format (strftime)");
}

#[test]
fn a_clock_shows_the_local_time() {
    let clock = |format: &str| WidgetCfg::Clock {
        format: format.into(),
        color: Some("#010203".into()),
        width: None,
    };
    let literal = widget_text_now(&clock("100%% at"), None).unwrap().unwrap();
    assert_eq!(literal, ("100% at".into(), Some("#010203".into())));
    let (year, _) = widget_text_now(&clock("%Y"), None).unwrap().unwrap();
    assert!(year.len() == 4 && year.bytes().all(|b| b.is_ascii_digit()), "{year}");
    for broken in ["%", "%?", "foo%", "%-Z", "%#z"] {
        assert_eq!(widget_text_now(&clock(broken), None), Err(BadTimeFormat));
    }
    let battery = WidgetCfg::Battery {
        format: "{capacity}%".into(),
        color: None,
        width: None,
    };
    assert_eq!(
        widget_text_now(&battery, Some(7)),
        Ok(Some(("7%".into(), Some("#ff6677".into()))))
    );
    assert_eq!(widget_text_now(&battery, None), Ok(None));
}

#[test]
fn a_clock_shows_the_moment_it_is_given() {
    let clock = |format: &str| WidgetCfg::Clock {
        format: format.into(),
        color: None,
        width: None,
    };
    let at = |format: &str, time| widget_text_at(&clock(format), time, None).unwrap().unwrap().0;
    let time = LocalTime {
        seconds: 1_700_000_000,
        nanos: 120_000_000,
        offset: 5400,
    };
    assert_eq!(at("%Y-%m-%d %H:%M:%S%.3f %z", time), "2023-11-14 23:43:20.120 +0130");
    assert_eq!(at("%s", time), "1700000000");
    assert_eq!(at("%Z", time), "+01:30");
    let start = LocalTime {
        seconds: 0,
        nanos: 0,
        offset: -1,
    };
    assert_eq!(at("%F %T", start), "1969-12-31 23:59:59");
    let end = LocalTime {
        seconds: LAST_SECOND,
        nanos: 999_999_999,
        offset: 86_399,
    };
    for format in ["%+", "%c", "%G %V %j %C %y %s", "%v %r %x %X %D %e %k %l %P %p %f"] {
        assert!(!at(format, end).is_empty());
    }
    assert_eq!(at("%Y %T", LocalTime { offset: 0, ..end }), "+262142 23:59:59");
    for broken in ["%", "%?", "foo%", "%-Z", "%#z"] {
        assert_eq!(widget_text_at(&clock(broken), end, None), Err(BadTimeFormat));
    }
}

#[test]
fn the_second_of_a_moment_is_painted_once() {
    let mut daemon = Daemon::new(default_config());
    let time = LocalTime {
        seconds: 3_661,
        nanos: 0,
        offset: 3_600,
    };
    assert_eq!(daemon.finish_step_at(0, time), Some(true));
    assert_eq!(daemon.last_tick, "02:01:01");
    daemon.painted();
    let later = LocalTime {
        nanos: 999_999_999,
        ..time
    };
    assert_eq!(daemon.finish_step_at(0, later), Some(false));
    let next = LocalTime {
        seconds: 3_662,
        ..time
    };
    assert_eq!(daemon.finish_step_at(0, next), Some(true));
    assert_eq!(daemon.last_tick, "02:01:02");
}

#[test]
fn the_time_of_day_is_looked_at_by_the_second() {
    let mut daemon = Daemon::new(default_config());
    assert_eq!(daemon.finish_step_now(0), Some(true));
    let tick = daemon.last_tick.clone().into_bytes();
    assert_eq!((tick.len(), tick[2], tick[5]), (8, b':', b':'));
    assert!([0, 1, 3, 4, 6, 7].iter().all(|i| tick[*i].is_ascii_digit()));
    daemon.painted();
    assert_eq!(daemon.finish_step_now(1).map(|paint| paint || daemon.last_tick.len() == 8), Some(true));
}

#[test]
fn white_space_around_a_text_is_dropped_and_nothing_else() {
    let blank = |c: u32| {
        (0x09..=0x0d).contains(&c)
            || (0x2000..=0x200a).contains(&c)
            || [0x20, 0x85, 0xa0, 0x1680, 0x2028, 0x2029, 0x202f, 0x205f, 0x3000].contains(&c)
    };
    for code in 0..=0x10ffff {
        let Some(c) = char::from_u32(code) else {
            continue;
        };
        assert_eq!(is_battery(&format!("{c}Battery{c}")), blank(code), "{code:#x}");
    }
    assert!(is_battery("\u{2003}\t\r\n Battery \u{3000}\n"));
    assert!(!is_battery("Bat tery"));
    assert!(!is_battery(" \n"));
}
