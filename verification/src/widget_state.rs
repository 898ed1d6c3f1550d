//! The editable state of the widgets: what the property editor can change
//! (capabilities), reads (settings) and writes back (apply_settings).
use vstd::prelude::*;

use crate::widgets::DEFAULT_FONT;

verus! {

/// Which properties of a widget the editor offers.
#[derive(Debug, Clone, Copy, PartialEq, Eq, Structural)]
pub struct WidgetCapabilities {
    pub color: bool,
    pub font: bool,
    pub text: bool,
}

impl Default for WidgetCapabilities {
    fn default() -> (c: Self)
        ensures
            c == (WidgetCapabilities { color: false, font: false, text: false }),
    {
        WidgetCapabilities { color: false, font: false, text: false }
    }
}

/// The editable properties of a widget; `None` for what it does not have
/// (in settings read from a widget) or what is left unchanged (in settings
/// applied to one).
#[derive(Debug)]
pub struct WidgetSettings {
    pub text: Option<String>,
    pub color: Option<[u8; 4]>,
    pub font_name: Option<String>,
    pub thickness: Option<u32>,
}

/// The view of optional text.
pub open spec fn opt_view(o: Option<String>) -> Option<Seq<char>> {
    match o {
        Some(s) => Some(s@),
        None => None,
    }
}

/// A copy of optional text.
pub fn clone_opt(o: &Option<String>) -> (c: Option<String>)
    ensures
        opt_view(c) == opt_view(*o),
{
    match o {
        Some(s) => Some(s.clone()),
        None => None,
    }
}

impl Default for WidgetSettings {
    fn default() -> (s: Self)
        ensures
            s.text is None,
            s.color is None,
            s.font_name is None,
            s.thickness is None,
    {
        WidgetSettings { text: None, color: None, font_name: None, thickness: None }
    }
}

impl Clone for WidgetSettings {
    fn clone(&self) -> (c: Self)
        ensures
            opt_view(c.text) == opt_view(self.text),
            c.color == self.color,
            opt_view(c.font_name) == opt_view(self.font_name),
            c.thickness == self.thickness,
    {
        WidgetSettings {
            text: clone_opt(&self.text),
            color: self.color,
            font_name: clone_opt(&self.font_name),
            thickness: self.thickness,
        }
    }
}

/// The text field after applying optional new text.
pub open spec fn updated(current: Seq<char>, new: Option<String>) -> Seq<char> {
    match new {
        Some(t) => t@,
        None => current,
    }
}

/// The color after applying an optional new color.
pub open spec fn updated_color(current: [u8; 4], new: Option<[u8; 4]>) -> [u8; 4] {
    match new {
        Some(c) => c,
        None => current,
    }
}

fn apply_text(current: &mut String, new: &Option<String>)
    ensures
        final(current)@ == updated(old(current)@, *new),
{
    if let Some(t) = new {
        *current = t.clone();
    }
}

/// The state shared by text widgets: text, color and font.
#[derive(Debug)]
pub struct TextState {
    text: String,
    color: [u8; 4],
    font_name: String,
}

impl TextState {
    pub closed spec fn spec_text(&self) -> Seq<char> {
        self.text@
    }

    pub closed spec fn spec_color(&self) -> [u8; 4] {
        self.color
    }

    pub closed spec fn spec_font(&self) -> Seq<char> {
        self.font_name@
    }

    /// Text in `color`, in the default font.
    pub fn new(text: String, color: [u8; 4]) -> (s: Self)
        ensures
            s.spec_text() == text@,
            s.spec_color() == color,
            s.spec_font() == DEFAULT_FONT@,
    {
        TextState { text, color, font_name: DEFAULT_FONT.to_owned() }
    }

    pub fn text(&self) -> (t: &str)
        ensures
            t@ == self.spec_text(),
    {
        self.text.as_str()
    }

    pub fn color(&self) -> (c: [u8; 4])
        ensures
            c == self.spec_color(),
    {
        self.color
    }

    pub fn font_name(&self) -> (f: &str)
        ensures
            f@ == self.spec_font(),
    {
        self.font_name.as_str()
    }

    /// The settings: color and font, and the text when it is editable.
    pub fn settings(&self, include_text: bool) -> (s: WidgetSettings)
        ensures
            opt_view(s.text) == (if include_text {
                Some(self.spec_text())
            } else {
                None
            }),
            s.color == Some(self.spec_color()),
            opt_view(s.font_name) == Some(self.spec_font()),
            s.thickness is None,
    {
        WidgetSettings {
            text: if include_text {
                Some(self.text.clone())
            } else {
                None
            },
            color: Some(self.color),
            font_name: Some(self.font_name.clone()),
            thickness: None,
        }
    }

    /// Take over the given color and font, and the text when it is editable.
    pub fn apply_settings(&mut self, settings: &WidgetSettings, allow_text: bool)
        ensures
            final(self).spec_text() == (if allow_text {
                updated(old(self).spec_text(), settings.text)
            } else {
                old(self).spec_text()
            }),
            final(self).spec_color() == updated_color(old(self).spec_color(), settings.color),
            final(self).spec_font() == updated(old(self).spec_font(), settings.font_name),
    {
        if allow_text {
            apply_text(&mut self.text, &settings.text);
        }
        if let Some(color) = settings.color {
            self.color = color;
        }
        apply_text(&mut self.font_name, &settings.font_name);
    }

    /// Replace the text; tells whether it changed.
    pub fn set_text(&mut self, text: String) -> (changed: bool)
        ensures
            final(self).spec_text() == text@,
            changed == (text@ != old(self).spec_text()),
            final(self).spec_color() == old(self).spec_color(),
            final(self).spec_font() == old(self).spec_font(),
    {
        if text == self.text {
            false
        } else {
            self.text = text;
            true
        }
    }
}

/// The free text widget.
#[derive(Debug)]
pub struct FreeText {
    state: TextState,
}

impl FreeText {
    pub closed spec fn spec_state(&self) -> TextState {
        self.state
    }

    /// White "Text" in the default font.
    pub fn new() -> (w: Self)
        ensures
            w.spec_state().spec_text() == "Text"@,
            w.spec_state().spec_color() == [255u8, 255u8, 255u8, 255u8],
            w.spec_state().spec_font() == DEFAULT_FONT@,
    {
        FreeText { state: TextState::new("Text".to_owned(), [255, 255, 255, 255]) }
    }

    pub fn state(&self) -> (s: &TextState)
        ensures
            *s == self.spec_state(),
    {
        &self.state
    }

    /// Color, font and text can all be edited.
    pub fn capabilities(&self) -> (c: WidgetCapabilities)
        ensures
            c == (WidgetCapabilities { color: true, font: true, text: true }),
    {
        WidgetCapabilities { color: true, font: true, text: true }
    }

    pub fn settings(&self) -> (s: WidgetSettings)
        ensures
            opt_view(s.text) == Some(self.spec_state().spec_text()),
            s.color == Some(self.spec_state().spec_color()),
            opt_view(s.font_name) == Some(self.spec_state().spec_font()),
            s.thickness is None,
    {
        self.state.settings(true)
    }

    pub fn apply_settings(&mut self, settings: &WidgetSettings)
        ensures
            final(self).spec_state().spec_text() == updated(
                old(self).spec_state().spec_text(),
                settings.text,
            ),
            final(self).spec_state().spec_color() == updated_color(
                old(self).spec_state().spec_color(),
                settings.color,
            ),
            final(self).spec_state().spec_font() == updated(
                old(self).spec_state().spec_font(),
                settings.font_name,
            ),
    {
        self.state.apply_settings(settings, true);
    }
}

/// The settings of a widget whose only property is its color.
pub open spec fn color_only_settings(s: WidgetSettings, color: [u8; 4]) -> bool {
    s.text is None && s.color == Some(color) && s.font_name is None && s.thickness is None
}

fn color_settings(color: [u8; 4]) -> (s: WidgetSettings)
    ensures
        color_only_settings(s, color),
{
    WidgetSettings { text: None, color: Some(color), font_name: None, thickness: None }
}

/// A horizontal line across the widget's middle.
#[derive(Debug, Clone, Copy)]
pub struct HorizontalLine {
    pub color: [u8; 4],
}

impl HorizontalLine {
    pub fn new() -> (w: Self)
        ensures
            w.color == [255u8, 255u8, 255u8, 200u8],
    {
        HorizontalLine { color: [255, 255, 255, 200] }
    }

    pub fn capabilities(&self) -> (c: WidgetCapabilities)
        ensures
            c == (WidgetCapabilities { color: true, font: false, text: false }),
    {
        WidgetCapabilities { color: true, font: false, text: false }
    }

    pub fn settings(&self) -> (s: WidgetSettings)
        ensures
            color_only_settings(s, self.color),
    {
        color_settings(self.color)
    }

    pub fn apply_settings(&mut self, settings: &WidgetSettings)
        ensures
            final(self).color == updated_color(old(self).color, settings.color),
    {
        if let Some(color) = settings.color {
            self.color = color;
        }
    }
}

/// A vertical line down the widget's middle.
#[derive(Debug, Clone, Copy)]
pub struct VerticalLine {
    pub color: [u8; 4],
}

impl VerticalLine {
    pub fn new() -> (w: Self)
        ensures
            w.color == [255u8, 255u8, 255u8, 200u8],
    {
        VerticalLine { color: [255, 255, 255, 200] }
    }

    pub fn capabilities(&self) -> (c: WidgetCapabilities)
        ensures
            c == (WidgetCapabilities { color: true, font: false, text: false }),
    {
        WidgetCapabilities { color: true, font: false, text: false }
    }

    pub fn settings(&self) -> (s: WidgetSettings)
        ensures
            color_only_settings(s, self.color),
    {
        color_settings(self.color)
    }

    pub fn apply_settings(&mut self, settings: &WidgetSettings)
        ensures
            final(self).color == updated_color(old(self).color, settings.color),
    {
        if let Some(color) = settings.color {
            self.color = color;
        }
    }
}

/// A ring of concentric circles.
#[derive(Debug, Clone, Copy)]
pub struct CircleGauge {
    pub color: [u8; 4],
    pub thickness: u32,
}

impl CircleGauge {
    pub fn new() -> (w: Self)
        ensures
            w.color == [0u8, 180u8, 255u8, 220u8],
            w.thickness == 3,
    {
        CircleGauge { color: [0, 180, 255, 220], thickness: 3 }
    }

    pub fn capabilities(&self) -> (c: WidgetCapabilities)
        ensures
            c == (WidgetCapabilities { color: true, font: false, text: false }),
    {
        WidgetCapabilities { color: true, font: false, text: false }
    }

    pub fn settings(&self) -> (s: WidgetSettings)
        ensures
            s.text is None,
            s.color == Some(self.color),
            s.font_name is None,
            s.thickness == Some(self.thickness),
    {
        WidgetSettings {
            text: None,
            color: Some(self.color),
            font_name: None,
            thickness: Some(self.thickness),
        }
    }

    pub fn apply_settings(&mut self, settings: &WidgetSettings)
        ensures
            final(self).color == updated_color(old(self).color, settings.color),
            final(self).thickness == match settings.thickness {
                Some(t) => t,
                None => old(self).thickness,
            },
    {
        if let Some(color) = settings.color {
            self.color = color;
        }
        if let Some(thickness) = settings.thickness {
            self.thickness = thickness;
        }
    }
}

/// A filled circle (dot).
#[derive(Debug, Clone, Copy)]
pub struct FilledCircle {
    pub color: [u8; 4],
}

impl FilledCircle {
    pub fn new() -> (w: Self)
        ensures
            w.color == [255u8, 255u8, 255u8, 200u8],
    {
        FilledCircle { color: [255, 255, 255, 200] }
    }

    pub fn capabilities(&self) -> (c: WidgetCapabilities)
        ensures
            c == (WidgetCapabilities { color: true, font: false, text: false }),
    {
        WidgetCapabilities { color: true, font: false, text: false }
    }

    pub fn settings(&self) -> (s: WidgetSettings)
        ensures
            color_only_settings(s, self.color),
    {
        color_settings(self.color)
    }

    pub fn apply_settings(&mut self, settings: &WidgetSettings)
        ensures
            final(self).color == updated_color(old(self).color, settings.color),
    {
        if let Some(color) = settings.color {
            self.color = color;
        }
    }
}

/// Whether `s[i]` and `s[i + 1]` are ASCII digits whose two-digit number
/// lies in `lo..=hi`.
pub open spec fn two_digits_within(s: Seq<char>, i: int, lo: int, hi: int) -> bool {
    &&& '0' <= s[i] <= '9'
    &&& '0' <= s[i + 1] <= '9'
    &&& lo <= (s[i] as int - '0' as int) * 10 + (s[i + 1] as int - '0' as int) <= hi
}

/// A time of day as `HH:MM:SS`: hour 00-23, minute 00-59, second 00-60 (60
/// for a leap second).
pub open spec fn is_clock_text(s: Seq<char>) -> bool {
    &&& s.len() == 8
    &&& two_digits_within(s, 0, 0, 23)
    &&& s[2] == ':'
    &&& two_digits_within(s, 3, 0, 59)
    &&& s[5] == ':'
    &&& two_digits_within(s, 6, 0, 60)
}

/// The English abbreviations of the months.
pub open spec fn month_abbreviations() -> Seq<Seq<char>> {
    seq![
        "Jan"@, "Feb"@, "Mar"@, "Apr"@, "May"@, "Jun"@, "Jul"@, "Aug"@, "Sep"@, "Oct"@, "Nov"@,
        "Dec"@,
    ]
}

/// A date as `Mon DD, YYYY`: a month abbreviation, the day 01-31, and the
/// year in at least four digits (with a sign before years outside
/// 0-9999).
pub open spec fn is_date_text(s: Seq<char>) -> bool {
    &&& s.len() >= 12
    &&& month_abbreviations().contains(s.take(3))
    &&& s[3] == ' '
    &&& two_digits_within(s, 4, 1, 31)
    &&& s[6] == ','
    &&& s[7] == ' '
    &&& forall|k: int|
        8 <= k < s.len() ==> ('0' <= #[trigger] s[k] <= '9' || (k == 8 && (s[k] == '+' || s[k]
            == '-')))
}

/// The local time as `HH:MM:SS`.
///
/// Trusted: `chrono::Local::now().format("%H:%M:%S")` writes the hour, the
/// minute and the second (a leap second as 60) of the current local time,
/// each as two zero-padded digits, separated by colons. Which time it is
/// depends on the clock and the time zone and is left unsaid.
#[verifier::external_body]
fn local_time_text() -> (text: String)
    ensures
        is_clock_text(text@),
{
    chrono::Local::now().format("%H:%M:%S").to_string()
}

/// The local date as `Mon DD, YYYY`.
///
/// Trusted: `chrono::Local::now().format("%b %d, %Y")` writes the English
/// month abbreviation (no locale feature is enabled), a space, the day as
/// two zero-padded digits, a comma and a space, and the year: four
/// zero-padded digits for years 0-9999, otherwise a sign and at least four
/// digits. Which day it is depends on the clock and the time zone and is
/// left unsaid.
#[verifier::external_body]
fn local_date_text() -> (text: String)
    ensures
        is_date_text(text@),
{
    chrono::Local::now().format("%b %d, %Y").to_string()
}

/// The clock widget: the local time, refreshed on every tick.
#[derive(Debug)]
pub struct Clock {
    text: TextState,
}

impl Clock {
    pub closed spec fn spec_state(&self) -> TextState {
        self.text
    }

    /// A clock showing the current local time, as `HH:MM:SS`, in white.
    pub fn new() -> (w: Self)
        ensures
            is_clock_text(w.spec_state().spec_text()),
            w.spec_state().spec_color() == [255u8, 255u8, 255u8, 255u8],
            w.spec_state().spec_font() == DEFAULT_FONT@,
    {
        Clock { text: TextState::new(local_time_text(), [255, 255, 255, 255]) }
    }

    pub fn state(&self) -> (s: &TextState)
        ensures
            *s == self.spec_state(),
    {
        &self.text
    }

    /// Clocks change with time.
    pub fn is_dynamic(&self) -> (b: bool)
        ensures
            b,
    {
        true
    }

    /// Color and font are editable, the text is not.
    pub fn settings(&self) -> (s: WidgetSettings)
        ensures
            s.text is None,
            s.color == Some(self.spec_state().spec_color()),
            opt_view(s.font_name) == Some(self.spec_state().spec_font()),
    {
        self.text.settings(false)
    }

    pub fn apply_settings(&mut self, settings: &WidgetSettings)
        ensures
            final(self).spec_state().spec_text() == old(self).spec_state().spec_text(),
            final(self).spec_state().spec_color() == updated_color(
                old(self).spec_state().spec_color(),
                settings.color,
            ),
            final(self).spec_state().spec_font() == updated(
                old(self).spec_state().spec_font(),
                settings.font_name,
            ),
    {
        self.text.apply_settings(settings, false);
    }

    /// Show the current time, as `HH:MM:SS`; tells whether the text
    /// changed.
    pub fn tick(&mut self) -> (changed: bool)
        ensures
            is_clock_text(final(self).spec_state().spec_text()),
            changed == (final(self).spec_state().spec_text() != old(self).spec_state().spec_text()),
            final(self).spec_state().spec_color() == old(self).spec_state().spec_color(),
            final(self).spec_state().spec_font() == old(self).spec_state().spec_font(),
    {
        let now = local_time_text();
        self.show(now)
    }

    /// Show `text` (the current time the host read); tells whether the
    /// text changed.
    pub fn show(&mut self, text: String) -> (changed: bool)
        ensures
            final(self).spec_state().spec_text() == text@,
            changed == (text@ != old(self).spec_state().spec_text()),
            final(self).spec_state().spec_color() == old(self).spec_state().spec_color(),
            final(self).spec_state().spec_font() == old(self).spec_state().spec_font(),
    {
        self.text.set_text(text)
    }
}

/// The date widget: the local date, refreshed on every tick.
#[derive(Debug)]
pub struct DateWidget {
    text: TextState,
}

impl DateWidget {
    pub closed spec fn spec_state(&self) -> TextState {
        self.text
    }

    /// A date showing today, as `Mon DD, YYYY`, in light grey.
    pub fn new() -> (w: Self)
        ensures
            is_date_text(w.spec_state().spec_text()),
            w.spec_state().spec_color() == [220u8, 220u8, 220u8, 255u8],
            w.spec_state().spec_font() == DEFAULT_FONT@,
    {
        DateWidget { text: TextState::new(local_date_text(), [220, 220, 220, 255]) }
    }

    pub fn state(&self) -> (s: &TextState)
        ensures
            *s == self.spec_state(),
    {
        &self.text
    }

    /// Dates change with time.
    pub fn is_dynamic(&self) -> (b: bool)
        ensures
            b,
    {
        true
    }

    /// Color and font are editable, the text is not.
    pub fn settings(&self) -> (s: WidgetSettings)
        ensures
            s.text is None,
            s.color == Some(self.spec_state().spec_color()),
            opt_view(s.font_name) == Some(self.spec_state().spec_font()),
    {
        self.text.settings(false)
    }

    pub fn apply_settings(&mut self, settings: &WidgetSettings)
        ensures
            final(self).spec_state().spec_text() == old(self).spec_state().spec_text(),
            final(self).spec_state().spec_color() == updated_color(
                old(self).spec_state().spec_color(),
                settings.color,
            ),
            final(self).spec_state().spec_font() == updated(
                old(self).spec_state().spec_font(),
                settings.font_name,
            ),
    {
        self.text.apply_settings(settings, false);
    }

    /// Show today's date, as `Mon DD, YYYY`; tells whether the text
    /// changed.
    pub fn tick(&mut self) -> (changed: bool)
        ensures
            is_date_text(final(self).spec_state().spec_text()),
            changed == (final(self).spec_state().spec_text() != old(self).spec_state().spec_text()),
            final(self).spec_state().spec_color() == old(self).spec_state().spec_color(),
            final(self).spec_state().spec_font() == old(self).spec_state().spec_font(),
    {
        let now = local_date_text();
        self.show(now)
    }

    /// Show `text` (the current date the host read); tells whether the
    /// text changed.
    pub fn show(&mut self, text: String) -> (changed: bool)
        ensures
            final(self).spec_state().spec_text() == text@,
            changed == (text@ != old(self).spec_state().spec_text()),
            final(self).spec_state().spec_color() == old(self).spec_state().spec_color(),
            final(self).spec_state().spec_font() == old(self).spec_state().spec_font(),
    {
        self.text.set_text(text)
    }
}

/// Which system reading a metric widget shows.
#[derive(Debug, Clone, Copy, PartialEq, Eq, Structural)]
pub enum MetricKind {
    CpuUsage,
    CpuTemp,
    RamUsage,
    GpuTemp,
    GpuUsage,
}

/// The color a metric widget starts with.
pub open spec fn metric_color(kind: MetricKind) -> [u8; 4] {
    match kind {
        MetricKind::CpuUsage => [80u8, 255u8, 80u8, 255u8],
        MetricKind::CpuTemp => [255u8, 80u8, 60u8, 255u8],
        MetricKind::RamUsage => [255u8, 200u8, 50u8, 255u8],
        MetricKind::GpuTemp | MetricKind::GpuUsage => [0u8, 180u8, 255u8, 255u8],
    }
}

/// The text a metric widget shows before its first reading.
pub open spec fn metric_initial_text(kind: MetricKind) -> Seq<char> {
    match kind {
        MetricKind::RamUsage => "--/--"@,
        _ => "--"@,
    }
}

/// A system metric widget: CPU or GPU usage or temperature, or RAM usage,
/// shown as text in its color and font.
#[derive(Debug)]
pub struct MetricWidget {
    kind: MetricKind,
    text: TextState,
}

impl MetricWidget {
    pub closed spec fn spec_kind(&self) -> MetricKind {
        self.kind
    }

    pub closed spec fn spec_state(&self) -> TextState {
        self.text
    }

    /// A metric widget of `kind` in its starting color and text.
    pub fn new(kind: MetricKind) -> (w: Self)
        ensures
            w.spec_kind() == kind,
            w.spec_state().spec_text() == metric_initial_text(kind),
            w.spec_state().spec_color() == metric_color(kind),
            w.spec_state().spec_font() == DEFAULT_FONT@,
    {
        proof {
            reveal_strlit("--/--");
            reveal_strlit("--");
        }
        let (text, color) = match kind {
            MetricKind::CpuUsage => ("--", [80u8, 255u8, 80u8, 255u8]),
            MetricKind::CpuTemp => ("--", [255u8, 80u8, 60u8, 255u8]),
            MetricKind::RamUsage => ("--/--", [255u8, 200u8, 50u8, 255u8]),
            MetricKind::GpuTemp => ("--", [0u8, 180u8, 255u8, 255u8]),
            MetricKind::GpuUsage => ("--", [0u8, 180u8, 255u8, 255u8]),
        };
        MetricWidget { kind, text: TextState::new(text.to_owned(), color) }
    }

    pub fn kind(&self) -> (k: MetricKind)
        ensures
            k == self.spec_kind(),
    {
        self.kind
    }

    pub fn state(&self) -> (s: &TextState)
        ensures
            *s == self.spec_state(),
    {
        &self.text
    }

    /// Metrics change with the system.
    pub fn is_dynamic(&self) -> (b: bool)
        ensures
            b,
    {
        true
    }

    /// Color and font can be edited, the text cannot.
    pub fn capabilities(&self) -> (c: WidgetCapabilities)
        ensures
            c == (WidgetCapabilities { color: true, font: true, text: false }),
    {
        WidgetCapabilities { color: true, font: true, text: false }
    }

    pub fn settings(&self) -> (s: WidgetSettings)
        ensures
            s.text is None,
            s.color == Some(self.spec_state().spec_color()),
            opt_view(s.font_name) == Some(self.spec_state().spec_font()),
            s.thickness is None,
    {
        self.text.settings(false)
    }

    pub fn apply_settings(&mut self, settings: &WidgetSettings)
        ensures
            final(self).spec_kind() == old(self).spec_kind(),
            final(self).spec_state().spec_text() == old(self).spec_state().spec_text(),
            final(self).spec_state().spec_color() == updated_color(
                old(self).spec_state().spec_color(),
                settings.color,
            ),
            final(self).spec_state().spec_font() == updated(
                old(self).spec_state().spec_font(),
                settings.font_name,
            ),
    {
        self.text.apply_settings(settings, false);
    }

    /// Show a new reading, formatted by the host (`None` when the sensor
    /// gave none, shown as `N/A`); tells whether the text changed.
    pub fn show_reading(&mut self, reading: Option<String>) -> (changed: bool)
        ensures
            final(self).spec_state().spec_text() == match reading {
                Some(r) => r@,
                None => "N/A"@,
            },
            changed == (final(self).spec_state().spec_text() != old(self).spec_state().spec_text()),
            final(self).spec_kind() == old(self).spec_kind(),
            final(self).spec_state().spec_color() == old(self).spec_state().spec_color(),
            final(self).spec_state().spec_font() == old(self).spec_state().spec_font(),
    {
        let text = match reading {
            Some(r) => r,
            None => "N/A".to_owned(),
        };
        self.text.set_text(text)
    }
}

/// Applying the settings a text widget reports leaves its text, color and
/// font as they were; so does applying empty settings.
pub proof fn lemma_text_settings_round_trip(
    text: Seq<char>,
    color: [u8; 4],
    font: Seq<char>,
    s: WidgetSettings,
)
    requires
        opt_view(s.text) == Some(text) || s.text is None,
        s.color == Some(color) || s.color is None,
        opt_view(s.font_name) == Some(font) || s.font_name is None,
    ensures
        updated(text, s.text) == text,
        updated_color(color, s.color) == color,
        updated(font, s.font_name) == font,
{
}

/// Applying the settings a gauge reports leaves its color and thickness as
/// they were.
pub proof fn lemma_gauge_settings_round_trip(color: [u8; 4], thickness: u32, s: WidgetSettings)
    requires
        s.color == Some(color),
        s.thickness == Some(thickness),
    ensures
        updated_color(color, s.color) == color,
        match s.thickness {
            Some(t) => t,
            None => thickness,
        } == thickness,
{
}

} // verus!
