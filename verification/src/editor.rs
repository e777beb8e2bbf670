//! Editing a strip: adding, moving, deleting and changing its widgets.
use vstd::prelude::*;
use vstd::string::StringExecFns;

use crate::config::{copy_text, same_text, Config, ConfigView, WidgetCfg, WidgetView, ONE_BITS};
use crate::hardware::RealBits;
use crate::text::trimmed;

verus! {

/// The width of a new widget: one hundred and sixty.
pub const NEW_WIDTH_BITS: u64 = 0x4064_0000_0000_0000;

/// The width of the first clock: two hundred and sixty.
pub const CLOCK_WIDTH_BITS: u64 = 0x4070_4000_0000_0000;

/// The least share of a spacer: one tenth.
pub const LEAST_FLEX_BITS: u64 = 0x3fb9_9999_9999_999a;

/// Positive infinity.
pub const INFINITY_BITS: u64 = 0x7ff0_0000_0000_0000;

/// A value above zero.
pub open spec fn above_zero(v: RealBits) -> bool {
    0 < v.bits <= INFINITY_BITS
}

/// The larger of a value and the least share. What is no number gives the least share.
pub open spec fn at_least_flex(v: RealBits) -> RealBits {
    if LEAST_FLEX_BITS <= v.bits <= INFINITY_BITS {
        v
    } else {
        RealBits { bits: LEAST_FLEX_BITS }
    }
}

/// The strip that is edited where none could be loaded.
pub fn default_config() -> (c: Config)
    ensures
        c@ == (ConfigView {
            background: "#111111"@,
            widgets: seq![
                WidgetView::Label {
                    text: "sliver"@,
                    color: Some("#ff88aa"@),
                    width: Some(RealBits { bits: NEW_WIDTH_BITS }),
                },
                WidgetView::Spacer { flex: RealBits { bits: ONE_BITS } },
                WidgetView::Clock {
                    format: "%a %H:%M"@,
                    color: Some("#aaddff"@),
                    width: Some(RealBits { bits: CLOCK_WIDTH_BITS }),
                },
            ],
        }),
{
    let mut widgets: Vec<WidgetCfg> = Vec::new();
    widgets.push(
        WidgetCfg::Label {
            text: "sliver".to_owned(),
            color: Some("#ff88aa".to_owned()),
            width: Some(RealBits { bits: NEW_WIDTH_BITS }),
        },
    );
    widgets.push(WidgetCfg::Spacer { flex: RealBits { bits: ONE_BITS } });
    widgets.push(
        WidgetCfg::Clock {
            format: "%a %H:%M".to_owned(),
            color: Some("#aaddff".to_owned()),
            width: Some(RealBits { bits: CLOCK_WIDTH_BITS }),
        },
    );
    let c = Config { background: "#111111".to_owned(), widgets };
    assert(c@.widgets =~= seq![
        WidgetView::Label {
            text: "sliver"@,
            color: Some("#ff88aa"@),
            width: Some(RealBits { bits: NEW_WIDTH_BITS }),
        },
        WidgetView::Spacer { flex: RealBits { bits: ONE_BITS } },
        WidgetView::Clock {
            format: "%a %H:%M"@,
            color: Some("#aaddff"@),
            width: Some(RealBits { bits: CLOCK_WIDTH_BITS }),
        },
    ]);
    c
}

/// What can be added.
#[derive(Clone, Copy, Debug, PartialEq, Eq, Structural)]
pub enum Palette {
    Label,
    Clock,
    Battery,
    Spacer,
}

impl Palette {
    /// A new widget.
    pub open spec fn fresh(self) -> WidgetView {
        let width = Some(RealBits { bits: NEW_WIDTH_BITS });
        match self {
            Palette::Label => WidgetView::Label { text: "new label"@, color: None, width },
            Palette::Clock => WidgetView::Clock { format: "%H:%M"@, color: None, width },
            Palette::Battery => WidgetView::Battery { format: "{capacity}%"@, color: None, width },
            Palette::Spacer => WidgetView::Spacer { flex: RealBits { bits: ONE_BITS } },
        }
    }

    /// A new widget.
    pub fn make(self) -> (w: WidgetCfg)
        ensures
            w@ == self.fresh(),
    {
        let width: Option<RealBits> = Some(RealBits { bits: NEW_WIDTH_BITS });
        match self {
            Palette::Label => WidgetCfg::Label { text: "new label".to_owned(), color: None, width },
            Palette::Clock => WidgetCfg::Clock { format: "%H:%M".to_owned(), color: None, width },
            Palette::Battery => WidgetCfg::Battery {
                format: "{capacity}%".to_owned(),
                color: None,
                width,
            },
            Palette::Spacer => WidgetCfg::Spacer { flex: RealBits { bits: ONE_BITS } },
        }
    }
}

/// A widget with another text or format. A spacer has none.
pub open spec fn text_set(w: WidgetView, value: Seq<char>) -> WidgetView {
    match w {
        WidgetView::Label { color, width, .. } => WidgetView::Label { text: value, color, width },
        WidgetView::Clock { color, width, .. } => WidgetView::Clock { format: value, color, width },
        WidgetView::Battery { color, width, .. } => WidgetView::Battery {
            format: value,
            color,
            width,
        },
        WidgetView::Spacer { flex } => WidgetView::Spacer { flex },
    }
}

/// A widget with another color, or none of its own. A spacer has none.
pub open spec fn color_set(w: WidgetView, color: Option<Seq<char>>) -> WidgetView {
    match w {
        WidgetView::Label { text, width, .. } => WidgetView::Label { text, color, width },
        WidgetView::Clock { format, width, .. } => WidgetView::Clock { format, color, width },
        WidgetView::Battery { format, width, .. } => WidgetView::Battery { format, color, width },
        WidgetView::Spacer { flex } => WidgetView::Spacer { flex },
    }
}

/// A widget with another width, or none of its own. A spacer has none.
pub open spec fn width_set(w: WidgetView, width: Option<RealBits>) -> WidgetView {
    match w {
        WidgetView::Label { text, color, .. } => WidgetView::Label { text, color, width },
        WidgetView::Clock { format, color, .. } => WidgetView::Clock { format, color, width },
        WidgetView::Battery { format, color, .. } => WidgetView::Battery { format, color, width },
        WidgetView::Spacer { flex } => WidgetView::Spacer { flex },
    }
}

/// A spacer with another share. Nothing else has one.
pub open spec fn flex_set(w: WidgetView, flex: RealBits) -> WidgetView {
    match w {
        WidgetView::Spacer { .. } => WidgetView::Spacer { flex },
        _ => w,
    }
}

/// The color that a text stands for: a blank one stands for none.
pub open spec fn color_value(raw: Seq<char>) -> Option<Seq<char>> {
    if trimmed(raw).len() == 0 {
        None
    } else {
        Some(raw)
    }
}

/// One property that can be changed.
#[derive(Clone, Copy, Debug, PartialEq, Eq, Structural)]
pub enum PropertyRow {
    Text,
    ClockFormat,
    BatteryFormat,
    Color,
    Width,
    Flex,
}

impl PropertyRow {
    /// The caption of a property.
    pub open spec fn text(self) -> Seq<char> {
        match self {
            PropertyRow::Text => "text"@,
            PropertyRow::ClockFormat => "format (strftime)"@,
            PropertyRow::BatteryFormat => "format ({capacity})"@,
            PropertyRow::Color => "color"@,
            PropertyRow::Width => "width px (0 = flex)"@,
            PropertyRow::Flex => "flex"@,
        }
    }

    /// The caption of this property.
    pub fn caption(self) -> (s: &'static str)
        ensures
            s@ == self.text(),
    {
        match self {
            PropertyRow::Text => "text",
            PropertyRow::ClockFormat => "format (strftime)",
            PropertyRow::BatteryFormat => "format ({capacity})",
            PropertyRow::Color => "color",
            PropertyRow::Width => "width px (0 = flex)",
            PropertyRow::Flex => "flex",
        }
    }
}

/// The properties of a widget, from top to bottom.
pub open spec fn rows_of(w: WidgetView) -> Seq<PropertyRow> {
    match w {
        WidgetView::Label { .. } => seq![PropertyRow::Text, PropertyRow::Color, PropertyRow::Width],
        WidgetView::Clock { .. } => seq![
            PropertyRow::ClockFormat,
            PropertyRow::Color,
            PropertyRow::Width,
        ],
        WidgetView::Battery { .. } => seq![
            PropertyRow::BatteryFormat,
            PropertyRow::Color,
            PropertyRow::Width,
        ],
        WidgetView::Spacer { .. } => seq![PropertyRow::Flex],
    }
}

/// The properties of a widget.
pub fn property_rows(w: &WidgetCfg) -> (rows: Vec<PropertyRow>)
    ensures
        rows@ == rows_of(w@),
{
    let mut rows: Vec<PropertyRow> = Vec::new();
    match w {
        WidgetCfg::Label { .. } => {
            rows.push(PropertyRow::Text);
        },
        WidgetCfg::Clock { .. } => {
            rows.push(PropertyRow::ClockFormat);
        },
        WidgetCfg::Battery { .. } => {
            rows.push(PropertyRow::BatteryFormat);
        },
        WidgetCfg::Spacer { .. } => {
            rows.push(PropertyRow::Flex);
            assert(rows@ =~= rows_of(w@));
            return rows;
        },
    }
    rows.push(PropertyRow::Color);
    rows.push(PropertyRow::Width);
    assert(rows@ =~= rows_of(w@));
    rows
}

/// One line that says what a widget is. A spacer's share is given as text.
pub open spec fn summary_of(w: WidgetView, flex: Seq<char>) -> Seq<char> {
    match w {
        WidgetView::Label { text, .. } => "label — “"@ + text + "”"@,
        WidgetView::Clock { format, .. } => "clock — "@ + format,
        WidgetView::Battery { format, .. } => "battery — "@ + format,
        WidgetView::Spacer { .. } => "spacer — flex "@ + flex,
    }
}

/// One line that says what a widget is.
pub fn summarize(w: &WidgetCfg, flex: &str) -> (s: String)
    ensures
        s@ == summary_of(w@, flex@),
{
    match w {
        WidgetCfg::Label { text, .. } => {
            let mut s: String = "label — “".to_owned();
            s.append(text.as_str());
            s.append("”");
            s
        },
        WidgetCfg::Clock { format, .. } => {
            let mut s: String = "clock — ".to_owned();
            s.append(format.as_str());
            s
        },
        WidgetCfg::Battery { format, .. } => {
            let mut s: String = "battery — ".to_owned();
            s.append(format.as_str());
            s
        },
        WidgetCfg::Spacer { .. } => {
            let mut s: String = "spacer — flex ".to_owned();
            s.append(flex);
            s
        },
    }
}

/// A strip that is being edited, and the widget that is selected.
pub struct Editor {
    pub cfg: Config,
    pub selected: Option<usize>,
}

/// The index that a row of the list stands for: its own number, or the one with the same
/// bits.
pub open spec fn row_index(row: i32) -> int {
    if row >= 0 {
        row as int
    } else {
        usize::MAX + 1 + row
    }
}

impl Editor {
    fn replace(&mut self, i: usize, w: WidgetCfg)
        requires
            i < old(self).cfg.widgets@.len(),
        ensures
            final(self).selected == old(self).selected,
            final(self).cfg@ == (ConfigView {
                widgets: old(self).cfg@.widgets.update(i as int, w@),
                ..old(self).cfg@
            }),
    {
        let ghost before = self.cfg@.widgets;
        self.cfg.widgets.set(i, w);
        assert(self.cfg@.widgets =~= before.update(i as int, w@));
    }

    /// Adds a widget at the right and selects it.
    pub fn add_widget(&mut self, kind: Palette)
        ensures
            final(self).cfg@ == (ConfigView {
                widgets: old(self).cfg@.widgets.push(kind.fresh()),
                ..old(self).cfg@
            }),
            final(self).selected == Some(old(self).cfg.widgets.len()),
    {
        let ghost before = self.cfg@.widgets;
        let n: usize = self.cfg.widgets.len();
        self.cfg.widgets.push(kind.make());
        self.selected = Some(n);
        assert(self.cfg@.widgets =~= before.push(kind.fresh()));
    }

    /// Selects a row of the list, or none. A row that is counted from below zero is taken
    /// for the index with the same bits, which lies beyond every strip.
    pub fn select(&mut self, row: Option<i32>)
        ensures
            final(self).cfg == old(self).cfg,
            match row {
                Some(i) => final(self).selected matches Some(n) && n == row_index(i),
                None => final(self).selected is None,
            },
    {
        self.selected = match row {
            Some(i) => Some(
                if i >= 0 {
                    i as usize
                } else {
                    usize::MAX - (-(i + 1)) as usize
                },
            ),
            None => None,
        };
    }

    /// Moves the selected widget one place and keeps it selected. At the end of the strip
    /// nothing moves.
    pub fn move_selected(&mut self, right: bool) -> (moved: bool)
        requires
            !right ==> old(self).selected != Some(old(self).cfg.widgets.len()),
            right && old(self).cfg.widgets.len() > 0 ==> old(self).selected != Some(usize::MAX),
        ensures
            ({
                let n = old(self).cfg@.widgets.len();
                let widgets = old(self).cfg@.widgets;
                match old(self).selected {
                    Some(i) => {
                        let j = if right {
                            i + 1
                        } else {
                            i - 1
                        };
                        if 0 <= j < n {
                            &&& moved
                            &&& final(self).selected == Some(j as usize)
                            &&& final(self).cfg@ == (ConfigView {
                                widgets: widgets.update(i as int, widgets[j]).update(
                                    j,
                                    widgets[i as int],
                                ),
                                ..old(self).cfg@
                            })
                        } else {
                            !moved && *final(self) == *old(self)
                        }
                    },
                    None => !moved && *final(self) == *old(self),
                }
            }),
    {
        let i: usize = match self.selected {
            Some(i) => i,
            None => {
                return false;
            },
        };
        let n: usize = self.cfg.widgets.len();
        let ghost before = self.cfg@.widgets;
        let ghost held = self.cfg.widgets@;
        let j: usize = if right {
            if i >= n || n - i == 1 {
                return false;
            }
            i + 1
        } else {
            if i == 0 || i > n {
                return false;
            }
            i - 1
        };
        let w: WidgetCfg = self.cfg.widgets.remove(i);
        self.cfg.widgets.insert(j, w);
        self.selected = Some(j);
        assert(self.cfg.widgets@ =~= held.update(i as int, held[j as int]).update(
            j as int,
            held[i as int],
        ));
        assert(self.cfg@.widgets =~= before.update(i as int, before[j as int]).update(
            j as int,
            before[i as int],
        ));
        true
    }

    /// Deletes the selected widget and selects none.
    pub fn delete_selected(&mut self) -> (deleted: bool)
        ensures
            final(self).selected is None,
            ({
                let widgets = old(self).cfg@.widgets;
                match old(self).selected {
                    Some(i) => if i < widgets.len() {
                        deleted && final(self).cfg@ == (ConfigView {
                            widgets: widgets.remove(i as int),
                            ..old(self).cfg@
                        })
                    } else {
                        !deleted && final(self).cfg == old(self).cfg
                    },
                    None => !deleted && final(self).cfg == old(self).cfg,
                }
            }),
    {
        let i: usize = match self.selected {
            Some(i) => i,
            None => {
                return false;
            },
        };
        self.selected = None;
        if i >= self.cfg.widgets.len() {
            return false;
        }
        let ghost before = self.cfg@.widgets;
        let _ = self.cfg.widgets.remove(i);
        assert(self.cfg@.widgets =~= before.remove(i as int));
        true
    }

    /// Changes the text or the format of a widget.
    pub fn set_text(&mut self, i: usize, value: &str)
        ensures
            final(self).selected == old(self).selected,
            ({
                let widgets = old(self).cfg@.widgets;
                final(self).cfg@ == (if i < widgets.len() {
                    ConfigView {
                        widgets: widgets.update(i as int, text_set(widgets[i as int], value@)),
                        ..old(self).cfg@
                    }
                } else {
                    old(self).cfg@
                })
            }),
    {
        if i >= self.cfg.widgets.len() {
            return ;
        }
        let w: WidgetCfg = match &self.cfg.widgets[i] {
            WidgetCfg::Label { color, width, .. } => WidgetCfg::Label {
                text: value.to_owned(),
                color: copy_text(color),
                width: *width,
            },
            WidgetCfg::Clock { color, width, .. } => WidgetCfg::Clock {
                format: value.to_owned(),
                color: copy_text(color),
                width: *width,
            },
            WidgetCfg::Battery { color, width, .. } => WidgetCfg::Battery {
                format: value.to_owned(),
                color: copy_text(color),
                width: *width,
            },
            WidgetCfg::Spacer { flex } => WidgetCfg::Spacer { flex: *flex },
        };
        self.replace(i, w);
    }

    /// Changes the color of a widget. A blank text takes its own color away.
    pub fn set_color(&mut self, i: usize, raw: &str)
        ensures
            final(self).selected == old(self).selected,
            ({
                let widgets = old(self).cfg@.widgets;
                final(self).cfg@ == (if i < widgets.len() {
                    ConfigView {
                        widgets: widgets.update(
                            i as int,
                            color_set(widgets[i as int], color_value(raw@)),
                        ),
                        ..old(self).cfg@
                    }
                } else {
                    old(self).cfg@
                })
            }),
    {
        if i >= self.cfg.widgets.len() {
            return ;
        }
        let value: Option<String> = if raw.trim().is_empty() {
            None
        } else {
            Some(raw.to_owned())
        };
        let w: WidgetCfg = match &self.cfg.widgets[i] {
            WidgetCfg::Label { text, width, .. } => WidgetCfg::Label {
                text: text.clone(),
                color: value,
                width: *width,
            },
            WidgetCfg::Clock { format, width, .. } => WidgetCfg::Clock {
                format: format.clone(),
                color: value,
                width: *width,
            },
            WidgetCfg::Battery { format, width, .. } => WidgetCfg::Battery {
                format: format.clone(),
                color: value,
                width: *width,
            },
            WidgetCfg::Spacer { flex } => WidgetCfg::Spacer { flex: *flex },
        };
        self.replace(i, w);
    }

    /// Changes the width of a widget. A width that is not above zero takes its own width
    /// away.
    pub fn set_width(&mut self, i: usize, v: RealBits)
        ensures
            final(self).selected == old(self).selected,
            ({
                let widgets = old(self).cfg@.widgets;
                let width = if above_zero(v) {
                    Some(v)
                } else {
                    None
                };
                final(self).cfg@ == (if i < widgets.len() {
                    ConfigView {
                        widgets: widgets.update(i as int, width_set(widgets[i as int], width)),
                        ..old(self).cfg@
                    }
                } else {
                    old(self).cfg@
                })
            }),
    {
        if i >= self.cfg.widgets.len() {
            return ;
        }
        let own: Option<RealBits> = if v.bits > 0 && v.bits <= INFINITY_BITS {
            Some(v)
        } else {
            None
        };
        let w: WidgetCfg = match &self.cfg.widgets[i] {
            WidgetCfg::Label { text, color, .. } => WidgetCfg::Label {
                text: text.clone(),
                color: copy_text(color),
                width: own,
            },
            WidgetCfg::Clock { format, color, .. } => WidgetCfg::Clock {
                format: format.clone(),
                color: copy_text(color),
                width: own,
            },
            WidgetCfg::Battery { format, color, .. } => WidgetCfg::Battery {
                format: format.clone(),
                color: copy_text(color),
                width: own,
            },
            WidgetCfg::Spacer { flex } => WidgetCfg::Spacer { flex: *flex },
        };
        self.replace(i, w);
    }

    /// Changes the share of a spacer, which is never below one tenth.
    pub fn set_flex(&mut self, i: usize, v: RealBits)
        ensures
            final(self).selected == old(self).selected,
            ({
                let widgets = old(self).cfg@.widgets;
                final(self).cfg@ == (if i < widgets.len() {
                    ConfigView {
                        widgets: widgets.update(
                            i as int,
                            flex_set(widgets[i as int], at_least_flex(v)),
                        ),
                        ..old(self).cfg@
                    }
                } else {
                    old(self).cfg@
                })
            }),
    {
        if i >= self.cfg.widgets.len() {
            return ;
        }
        let flex: RealBits = if v.bits >= LEAST_FLEX_BITS && v.bits <= INFINITY_BITS {
            v
        } else {
            RealBits { bits: LEAST_FLEX_BITS }
        };
        let ghost widgets = self.cfg@.widgets;
        let spacer: bool = match &self.cfg.widgets[i] {
            WidgetCfg::Spacer { .. } => true,
            _ => false,
        };
        if spacer {
            self.replace(i, WidgetCfg::Spacer { flex });
        }
        assert(self.cfg@.widgets =~= widgets.update(
            i as int,
            flex_set(widgets[i as int], at_least_flex(v)),
        ));
    }
}

/// What the reply to an applied strip says: one word for success, anything else is an
/// error.
pub open spec fn reply_accepts(reply: Seq<char>) -> bool {
    trimmed(reply) == "ok"@
}

/// Whether the reply to an applied strip accepts it; the words of an error are returned.
pub fn read_daemon_reply(reply: &str) -> (r: Result<(), String>)
    ensures
        match r {
            Ok(()) => reply_accepts(reply@),
            Err(words) => !reply_accepts(reply@) && words@ == trimmed(reply@),
        },
{
    let words: &str = reply.trim();
    if same_text(words, "ok") {
        Ok(())
    } else {
        Err(words.to_owned())
    }
}

/// Moving a widget one place and back again leaves the strip as it was.
pub proof fn law_moving_back_restores(widgets: Seq<WidgetView>, i: int, j: int)
    requires
        0 <= i < widgets.len(),
        0 <= j < widgets.len(),
    ensures
        ({
            let moved = widgets.update(i, widgets[j]).update(j, widgets[i]);
            moved.update(j, moved[i]).update(i, moved[j]) == widgets
        }),
{
    let moved = widgets.update(i, widgets[j]).update(j, widgets[i]);
    assert(moved.update(j, moved[i]).update(i, moved[j]) =~= widgets);
}

/// Adding a widget and deleting it again leaves the strip as it was.
pub proof fn law_deleting_undoes_adding(widgets: Seq<WidgetView>, kind: Palette)
    ensures
        widgets.push(kind.fresh()).remove(widgets.len() as int) == widgets,
{
    assert(widgets.push(kind.fresh()).remove(widgets.len() as int) =~= widgets);
}

} // verus!
