//! Drawing the settings page.
//!
//! Everything positional comes from [`crate::settings::layout`], and everything
//! interactive from [`crate::settings::controls`], so this module only decides what a
//! control looks like given its rectangle and state. The result is a list of strokes and
//! fills that a device carries out in order.

use vstd::prelude::*;
use vstd::string::StringExecFns;

use crate::color::Rgb;
use crate::settings::access::{
    reading, small_integers_are_exact, Node, Tree, Value, ValueModel,
};
use crate::settings::controls::{centred, parts_of, Part, Parts};
use crate::settings::geom::{half, larger, max, min, near, rect, smaller, Rect, PIXEL, REACH};
use crate::settings::layout::{CardLayout, Content, Heading, Layout, Metrics, NavItem, Page, Row};
use crate::settings::palette::{Palette, Rgba};
use crate::settings::schema::{
    a_label_stands_beside_its_value, find_label, held, label_of, nearest, whole, Button, Choice,
    Field, InfoKey, Kind, Slider, StatusKind, ONE,
};
use crate::text::{decimal, push_decimal, same_text};

verus! {

/// What the pointer and the keyboard are doing, which is all that the painter needs to
/// know about interaction.
pub struct Interaction {
    /// The row under the pointer.
    pub hover_row: Option<usize>,
    /// The part of that row under the pointer.
    pub hover_part: Option<Part>,
    /// The row that a slider is being dragged on, if any.
    pub dragging_row: Option<usize>,
    /// The row whose dropdown is open.
    pub open_dropdown: Option<usize>,
    /// The highlighted entry of that dropdown.
    pub dropdown_highlight: usize,
    /// The row whose colour palette is open.
    pub open_color: Option<usize>,
    /// The palette cell under the pointer, as row and column.
    pub color_highlight: Option<(usize, usize)>,
    /// The row whose text box has focus.
    pub focused_row: Option<usize>,
    /// The text that is typed into the box that has focus.
    pub editing: String,
    /// The row whose hotkey field is recording, with what has been pressed so far, so
    /// that the field can show the combination as it is built.
    pub recording: Option<usize>,
    pub recording_text: String,
    /// The sidebar entry under the pointer.
    pub hover_nav: Option<usize>,
    /// The title-bar button under the pointer, if any.
    pub hover_window: Option<WindowButton>,
}

impl Interaction {
    /// Nothing is going on.
    pub fn new() -> (r: Interaction)
        ensures
            r.hover_row is None,
            r.hover_part is None,
            r.dragging_row is None,
            r.open_dropdown is None,
            r.dropdown_highlight == 0,
            r.open_color is None,
            r.color_highlight is None,
            r.focused_row is None,
            r.editing@ == Seq::<char>::empty(),
            r.recording is None,
            r.recording_text@ == Seq::<char>::empty(),
            r.hover_nav is None,
            r.hover_window is None,
    {
        let editing: String = String::new();
        let recording_text: String = String::new();
        proof {
            reveal_strlit("");
            assert(editing@ =~= Seq::<char>::empty());
            assert(recording_text@ =~= Seq::<char>::empty());
        }
        Interaction {
            hover_row: None,
            hover_part: None,
            dragging_row: None,
            open_dropdown: None,
            dropdown_highlight: 0,
            open_color: None,
            color_highlight: None,
            focused_row: None,
            editing,
            recording: None,
            recording_text,
            hover_nav: None,
            hover_window: None,
        }
    }
}

/// What the colour of a status pill says.
#[derive(Clone, Copy, Debug, PartialEq, Eq, Structural)]
pub enum Tone {
    Off,
    On,
    Warn,
}

impl Default for Tone {
    fn default() -> (r: Tone)
        ensures
            r == Tone::Off,
    {
        Tone::Off
    }
}

/// Live values that the status rows show.
pub struct StatusText {
    pub taskbar: String,
    pub taskbar_tone: Tone,
    pub spectrum: String,
    pub spectrum_tone: Tone,
    pub clipboard: String,
    pub clipboard_tone: Tone,
    /// Live values for the read-only rows of the about page.
    pub info: Vec<(InfoKey, String)>,
}

/// The recorded values, as a value.
pub open spec fn info_models(info: Seq<(InfoKey, String)>) -> Seq<(InfoKey, Seq<char>)> {
    info.map_values(|entry: (InfoKey, String)| (entry.0, entry.1@))
}

/// Where a key was recorded first.
pub open spec fn info_place(info: Seq<(InfoKey, Seq<char>)>, key: InfoKey) -> Option<int>
    decreases info.len(),
{
    if info.len() == 0 {
        None
    } else {
        match info_place(info.drop_last(), key) {
            Some(i) => Some(i),
            None => if info.last().0 == key {
                Some(info.len() - 1)
            } else {
                None
            },
        }
    }
}

/// What is recorded under a key: nothing, where it is not recorded.
pub open spec fn info_of(info: Seq<(InfoKey, Seq<char>)>, key: InfoKey) -> Seq<char> {
    match info_place(info, key) {
        Some(i) => info[i].1,
        None => Seq::empty(),
    }
}

/// The recorded values once another is recorded: in place of the earlier one for the same
/// key, or behind the others.
pub open spec fn with_info(
    info: Seq<(InfoKey, Seq<char>)>,
    key: InfoKey,
    value: Seq<char>,
) -> Seq<(InfoKey, Seq<char>)> {
    match info_place(info, key) {
        Some(i) => info.update(i, (key, value)),
        None => info.push((key, value)),
    }
}

proof fn lemma_info_place(info: Seq<(InfoKey, Seq<char>)>, key: InfoKey)
    ensures
        match info_place(info, key) {
            Some(i) => 0 <= i < info.len() && info[i].0 == key && (forall|j: int|
                0 <= j < i ==> (#[trigger] info[j]).0 != key),
            None => forall|j: int| 0 <= j < info.len() ==> (#[trigger] info[j]).0 != key,
        },
    decreases info.len(),
{
    if info.len() > 0 {
        let before = info.drop_last();
        lemma_info_place(before, key);
        assert forall|j: int| 0 <= j < before.len() implies #[trigger] info[j] == before[j] by {
        }
    }
}

proof fn lemma_info_place_is(info: Seq<(InfoKey, Seq<char>)>, key: InfoKey, at: int)
    requires
        0 <= at < info.len(),
        info[at].0 == key,
        forall|j: int| 0 <= j < at ==> (#[trigger] info[j]).0 != key,
    ensures
        info_place(info, key) == Some(at),
{
    lemma_info_place(info, key);
    match info_place(info, key) {
        Some(i) => {
            if i < at {
                assert(info[i].0 != key);
            }
        },
        None => {},
    }
}

impl StatusText {
    /// Nothing to report.
    pub fn new() -> (r: StatusText)
        ensures
            r.taskbar@ == Seq::<char>::empty(),
            r.taskbar_tone == Tone::Off,
            r.spectrum@ == Seq::<char>::empty(),
            r.spectrum_tone == Tone::Off,
            r.clipboard@ == Seq::<char>::empty(),
            r.clipboard_tone == Tone::Off,
            info_models(r.info@) == Seq::<(InfoKey, Seq<char>)>::empty(),
    {
        let r: StatusText = StatusText {
            taskbar: String::new(),
            taskbar_tone: Tone::Off,
            spectrum: String::new(),
            spectrum_tone: Tone::Off,
            clipboard: String::new(),
            clipboard_tone: Tone::Off,
            info: Vec::new(),
        };
        proof {
            reveal_strlit("");
            assert(r.taskbar@ =~= Seq::<char>::empty());
            assert(info_models(r.info@) =~= Seq::<(InfoKey, Seq<char>)>::empty());
        }
        r
    }

    fn find_info(&self, key: InfoKey) -> (r: Option<usize>)
        ensures
            match info_place(info_models(self.info@), key) {
                Some(i) => r is Some && r->0 == i && 0 <= i < self.info@.len(),
                None => r is None,
            },
    {
        let ghost info = info_models(self.info@);
        let mut i: usize = 0;
        while i < self.info.len()
            invariant
                info == info_models(self.info@),
                0 <= i <= self.info@.len(),
                forall|j: int| 0 <= j < i ==> (#[trigger] info[j]).0 != key,
            decreases self.info@.len() - i,
        {
            assert(info[i as int].0 == self.info@[i as int].0);
            if self.info[i].0 == key {
                proof {
                    lemma_info_place_is(info, key, i as int);
                }
                return Some(i);
            }
            i = i + 1;
        }
        proof {
            lemma_info_place(info, key);
        }
        None
    }

    /// The value that a row of the about page shows, or an empty text when the host had
    /// nothing to say.
    pub fn info(&self, key: InfoKey) -> (r: &str)
        ensures
            r@ == info_of(info_models(self.info@), key),
    {
        match self.find_info(key) {
            Some(i) => self.info[i].1.as_str(),
            None => {
                proof {
                    reveal_strlit("");
                    assert(""@ =~= Seq::<char>::empty());
                }
                ""
            },
        }
    }

    /// Record one value, replacing any earlier one for the same key.
    pub fn set_info(&mut self, key: InfoKey, value: String)
        ensures
            info_models(final(self).info@) == with_info(info_models(old(self).info@), key, value@),
            final(self).taskbar == old(self).taskbar,
            final(self).taskbar_tone == old(self).taskbar_tone,
            final(self).spectrum == old(self).spectrum,
            final(self).spectrum_tone == old(self).spectrum_tone,
            final(self).clipboard == old(self).clipboard,
            final(self).clipboard_tone == old(self).clipboard_tone,
    {
        match self.find_info(key) {
            Some(i) => {
                self.info.set(i, (key, value));
            },
            None => {
                self.info.push((key, value));
            },
        }
        assert(info_models(self.info@) =~= with_info(info_models(old(self).info@), key, value@));
    }
}

/// What is recorded last is what is shown, and the other keys show what they did.
pub proof fn a_recorded_value_is_shown(
    info: Seq<(InfoKey, Seq<char>)>,
    key: InfoKey,
    value: Seq<char>,
    other: InfoKey,
)
    ensures
        info_of(with_info(info, key, value), key) == value,
        other != key ==> info_of(with_info(info, key, value), other) == info_of(info, other),
{
    let after = with_info(info, key, value);
    lemma_info_place(info, key);
    lemma_info_place(info, other);
    let at = match info_place(info, key) {
        Some(i) => i,
        None => info.len() as int,
    };
    assert forall|j: int| 0 <= j < at implies (#[trigger] after[j]).0 != key by {
        assert(after[j] == info[j]);
    }
    lemma_info_place_is(after, key, at);
    if other != key {
        match info_place(info, other) {
            Some(i) => {
                assert(i != at);
                assert forall|j: int| 0 <= j < i implies (#[trigger] after[j]).0 != other by {
                    if j != at {
                        assert(after[j] == info[j]);
                    }
                }
                lemma_info_place_is(after, other, i);
            },
            None => {
                lemma_info_place(after, other);
                match info_place(after, other) {
                    Some(j) => {
                        if j != at {
                            assert(after[j] == info[j]);
                        }
                    },
                    None => {},
                }
            },
        }
    }
}

/// How a text is set.
#[derive(Clone, Copy, Debug, PartialEq, Eq, Structural)]
pub struct TextStyle {
    /// The font size, in ticks.
    pub size: i64,
    pub semi_bold: bool,
    /// Centred in its rectangle, or at its left edge?
    pub centred: bool,
}

/// One step of drawing. Lengths are in ticks.
pub enum Op {
    Clear(Rgba),
    FillRect(Rect, Rgba),
    /// With the radius of the corners.
    FillRounded(Rect, i64, Rgba),
    /// With the radius of the corners and the width of the stroke.
    StrokeRounded(Rect, i64, Rgba, i64),
    /// One line of text.
    Text(Rect, String, TextStyle, Rgba),
    /// Text that is wrapped to its rectangle.
    Wrapped(Rect, &'static str, TextStyle, Rgba),
    Triangle((i64, i64), (i64, i64), (i64, i64), Rgba),
    /// Three points joined by a stroke, and its width.
    Tick((i64, i64), (i64, i64), (i64, i64), Rgba, i64),
    /// A bar through a point that rises or falls at half a right angle.
    TiltedBar { centre: (i64, i64), arm: i64, thickness: i64, falls: bool, ink: Rgba },
    /// Clip what follows to a rectangle, until [`Op::PopClip`].
    PushClip(Rect),
    PopClip,
}

/// An [`Op`], as a value.
#[verifier::ext_equal]
pub ghost enum OpModel {
    Clear(Rgba),
    FillRect(Rect, Rgba),
    FillRounded(Rect, i64, Rgba),
    StrokeRounded(Rect, i64, Rgba, i64),
    Text(Rect, Seq<char>, TextStyle, Rgba),
    Wrapped(Rect, Seq<char>, TextStyle, Rgba),
    Triangle((i64, i64), (i64, i64), (i64, i64), Rgba),
    Tick((i64, i64), (i64, i64), (i64, i64), Rgba, i64),
    TiltedBar { centre: (i64, i64), arm: i64, thickness: i64, falls: bool, ink: Rgba },
    PushClip(Rect),
    PopClip,
}

impl View for Op {
    type V = OpModel;

    open spec fn view(&self) -> OpModel {
        match self {
            Op::Clear(c) => OpModel::Clear(*c),
            Op::FillRect(r, c) => OpModel::FillRect(*r, *c),
            Op::FillRounded(r, radius, c) => OpModel::FillRounded(*r, *radius, *c),
            Op::StrokeRounded(r, radius, c, w) => OpModel::StrokeRounded(*r, *radius, *c, *w),
            Op::Text(r, text, style, c) => OpModel::Text(*r, text@, *style, *c),
            Op::Wrapped(r, text, style, c) => OpModel::Wrapped(*r, text@, *style, *c),
            Op::Triangle(a, b, d, c) => OpModel::Triangle(*a, *b, *d, *c),
            Op::Tick(a, b, d, c, w) => OpModel::Tick(*a, *b, *d, *c, *w),
            Op::TiltedBar { centre, arm, thickness, falls, ink } => OpModel::TiltedBar {
                centre: *centre,
                arm: *arm,
                thickness: *thickness,
                falls: *falls,
                ink: *ink,
            },
            Op::PushClip(r) => OpModel::PushClip(*r),
            Op::PopClip => OpModel::PopClip,
        }
    }
}

pub open spec fn op_models(ops: Seq<Op>) -> Seq<OpModel> {
    ops.map_values(|op: Op| op@)
}

/// Put one step behind the others.
fn push_op(ops: &mut Vec<Op>, op: Op)
    ensures
        op_models(final(ops)@) == op_models(old(ops)@).push(op@),
{
    ops.push(op);
    assert(op_models(ops@) =~= op_models(old(ops)@).push(op@));
}

/// A line of text, unless there is none.
pub open spec fn text_ops(r: Rect, text: Seq<char>, style: TextStyle, colour: Rgba) -> Seq<OpModel> {
    if text.len() == 0 {
        Seq::empty()
    } else {
        seq![OpModel::Text(r, text, style, colour)]
    }
}

fn text_in(ops: &mut Vec<Op>, r: Rect, text: &str, style: TextStyle, colour: Rgba)
    ensures
        op_models(final(ops)@) == op_models(old(ops)@) + text_ops(r, text@, style, colour),
{
    if text.is_empty() {
        assert(op_models(ops@) + Seq::<OpModel>::empty() =~= op_models(ops@));
        return;
    }
    push_op(ops, Op::Text(r, text.to_owned(), style, colour));
    assert(op_models(ops@) =~= op_models(old(ops)@) + text_ops(r, text@, style, colour));
}

/// Text in a column: labels, values and entries of lists.
pub open spec fn small_style(m: Metrics) -> TextStyle {
    TextStyle { size: m.at(11_000) as i64, semi_bold: false, centred: false }
}

/// Text that sits inside a drawn box.
pub open spec fn box_style(m: Metrics) -> TextStyle {
    TextStyle { size: m.at(11_000) as i64, semi_bold: false, centred: true }
}

fn small_text(metrics: &Metrics) -> (r: TextStyle)
    ensures
        r == small_style(*metrics),
{
    TextStyle { size: metrics.px(11_000), semi_bold: false, centred: false }
}

fn box_text(metrics: &Metrics) -> (r: TextStyle)
    ensures
        r == box_style(*metrics),
{
    TextStyle { size: metrics.px(11_000), semi_bold: false, centred: true }
}

/// A box with the border of a control.
pub open spec fn frame_ops(r: Rect, m: Metrics, p: Palette) -> Seq<OpModel> {
    seq![
        OpModel::FillRounded(r, m.at(5_000) as i64, p.control),
        OpModel::StrokeRounded(r, m.at(5_000) as i64, p.control_border, PIXEL),
    ]
}

fn draw_box(ops: &mut Vec<Op>, r: Rect, metrics: &Metrics, palette: &Palette)
    ensures
        op_models(final(ops)@) == op_models(old(ops)@) + frame_ops(r, *metrics, *palette),
{
    push_op(ops, Op::FillRounded(r, metrics.px(5_000), palette.control));
    push_op(ops, Op::StrokeRounded(r, metrics.px(5_000), palette.control_border, PIXEL));
    assert(op_models(ops@) =~= op_models(old(ops)@) + frame_ops(r, *metrics, *palette));
}

/// The contents of an editable box, with a caret while it has focus. `typed` is how wide
/// the text that is being typed is.
pub open spec fn box_text_ops(
    r: Rect,
    stored: Seq<char>,
    placeholder: Seq<char>,
    p: Palette,
    m: Metrics,
    typing: Option<Seq<char>>,
    typed: int,
) -> Seq<OpModel> {
    let inner = r.shrunk(m.at(9_000), 0);
    match typing {
        Some(text) => {
            let x = smaller(
                inner.left + smaller(typed, inner.wide()),
                inner.right - m.at(1_000),
            );
            text_ops(inner, text, small_style(m), p.text) + seq![
                OpModel::FillRect(
                    rect(
                        x,
                        inner.top + m.at(4_000),
                        x + m.at(1_500),
                        inner.bottom - m.at(4_000),
                    ),
                    p.accent,
                ),
            ]
        },
        None => if stored.len() == 0 {
            text_ops(inner, placeholder, small_style(m), p.text_faint)
        } else {
            text_ops(inner, stored, small_style(m), p.text)
        },
    }
}

/// How far a rectangle that is drawn on may reach, in ticks.
pub open spec fn drawable(r: Rect) -> bool {
    let reach = REACH / 2;
    -reach <= r.left <= reach && -reach <= r.top <= reach && -reach <= r.right <= reach && -reach
        <= r.bottom <= reach
}

fn draw_box_text(
    ops: &mut Vec<Op>,
    r: &Rect,
    stored: &str,
    placeholder: &str,
    palette: &Palette,
    metrics: &Metrics,
    typing: Option<&str>,
    typed: i64,
)
    requires
        r.wf(),
        near(typed as int),
    ensures
        op_models(final(ops)@) == op_models(old(ops)@) + box_text_ops(
            *r,
            stored@,
            placeholder@,
            *palette,
            *metrics,
            match typing {
                Some(text) => Some(text@),
                None => None,
            },
            typed as int,
        ),
{
    let ghost m = *metrics;
    let inner: Rect = r.inset(metrics.px(9_000), 0);
    let small: TextStyle = small_text(metrics);
    match typing {
        Some(text) => {
            text_in(ops, inner, text, small, palette.text);
            let width: i64 = min(typed, inner.right - inner.left);
            let x: i64 = min(inner.left + width, inner.right - metrics.px(1_000));
            push_op(
                ops,
                Op::FillRect(
                    Rect::new(
                        x,
                        inner.top + metrics.px(4_000),
                        x + metrics.px(1_500),
                        inner.bottom - metrics.px(4_000),
                    ),
                    palette.accent,
                ),
            );
            assert(op_models(ops@) =~= op_models(old(ops)@) + box_text_ops(
                *r,
                stored@,
                placeholder@,
                *palette,
                m,
                Some(text@),
                typed as int,
            ));
        },
        None => {
            if stored.is_empty() {
                text_in(ops, inner, placeholder, small, palette.text_faint);
            } else {
                text_in(ops, inner, stored, small, palette.text);
            }
        },
    }
}

/// How wide some texts are that only the device can measure, in ticks.
#[derive(Clone, Copy, Debug, PartialEq, Eq, Structural)]
pub struct Measured {
    /// The text that is being typed.
    pub typed: i64,
    /// The texts of the status rows.
    pub taskbar: i64,
    pub spectrum: i64,
    pub clipboard: i64,
}

impl Measured {
    pub open spec fn wf(self) -> bool {
        near(self.typed as int) && near(self.taskbar as int) && near(self.spectrum as int) && near(
            self.clipboard as int,
        )
    }
}

/// An on/off pill.
pub open spec fn switch_ops(r: Rect, on: bool, m: Metrics, p: Palette) -> Seq<OpModel> {
    let radius = (r.tall() / 2) as i64;
    let knob = r.tall() - m.at(5_000);
    let knob_left = if on {
        r.right - m.at(2_500) - knob
    } else {
        r.left + m.at(2_500)
    };
    seq![
        OpModel::FillRounded(
            r,
            radius,
            if on {
                p.accent
            } else {
                p.control
            },
        ),
    ] + (if on {
        Seq::<OpModel>::empty()
    } else {
        seq![OpModel::StrokeRounded(r, radius, p.control_border, PIXEL)]
    }) + seq![
        OpModel::FillRounded(
            rect(knob_left, r.top + m.at(2_500), knob_left + knob, r.bottom - m.at(2_500)),
            (knob / 2) as i64,
            p.on_accent,
        ),
    ]
}

fn draw_switch(ops: &mut Vec<Op>, r: &Rect, on: bool, metrics: &Metrics, palette: &Palette)
    requires
        r.wf(),
    ensures
        op_models(final(ops)@) == op_models(old(ops)@) + switch_ops(*r, on, *metrics, *palette),
{
    let radius: i64 = half(r.height());
    let track: Rgba = if on {
        palette.accent
    } else {
        palette.control
    };
    push_op(ops, Op::FillRounded(*r, radius, track));
    if !on {
        push_op(ops, Op::StrokeRounded(*r, radius, palette.control_border, PIXEL));
    }
    let knob: i64 = r.height() - metrics.px(5_000);
    let knob_left: i64 = if on {
        r.right - metrics.px(2_500) - knob
    } else {
        r.left + metrics.px(2_500)
    };
    let knob_rect: Rect = Rect::new(
        knob_left,
        r.top + metrics.px(2_500),
        knob_left + knob,
        r.bottom - metrics.px(2_500),
    );
    push_op(ops, Op::FillRounded(knob_rect, half(knob), palette.on_accent));
    assert(op_models(ops@) =~= op_models(old(ops)@) + switch_ops(*r, on, *metrics, *palette));
}

/// How far along a track a value is.
pub open spec fn filled_to(track: Rect, slider: Slider, current: int) -> int {
    let span = larger(slider.max - slider.min, 1);
    let done = crate::settings::geom::clamped(current - slider.min, 0, span);
    track.left + track.wide() * done / span
}

/// A slider: its line, the part of it that is filled, the knob and the read-out.
pub open spec fn slider_ops(
    track: Rect,
    readout: Rect,
    slider: Slider,
    current: int,
    m: Metrics,
    p: Palette,
) -> Seq<OpModel> {
    let line_top = centred(track, m.at(4_000));
    let line_bottom = line_top + m.at(4_000);
    let radius = (m.at(4_000) / 2) as i64;
    let at = filled_to(track, slider, current);
    let knob_top = centred(track, m.at(11_000));
    let knob_left = at - m.at(11_000) / 2;
    let knob = rect(knob_left, knob_top, knob_left + m.at(11_000), knob_top + m.at(11_000));
    let knob_radius = (m.at(11_000) / 2) as i64;
    seq![
        OpModel::FillRounded(
            rect(track.left as int, line_top, track.right as int, line_bottom),
            radius,
            p.control,
        ),
        OpModel::FillRounded(
            rect(track.left as int, line_top, at, line_bottom),
            radius,
            p.accent,
        ),
        OpModel::FillRounded(knob, knob_radius, p.accent),
        OpModel::StrokeRounded(knob, knob_radius, p.card, 144_000),
    ] + text_ops(
        readout.shrunk(m.at(6_000), 0),
        slider.format.rendered(current),
        small_style(m),
        p.text_dim,
    )
}

fn fill_end(track: &Rect, slider: &Slider, current: i128) -> (r: i64)
    requires
        track.wf(),
        track.wide() >= 0,
    ensures
        r == filled_to(*track, *slider, current as int),
        track.left <= r <= track.right,
{
    let reach: i128 = slider.max as i128 - slider.min as i128;
    let span: i128 = if reach > 1 {
        reach
    } else {
        1
    };
    let done: i128 = if current < slider.min as i128 {
        0
    } else if current > slider.min as i128 + span {
        span
    } else {
        current - slider.min as i128
    };
    let width: i64 = track.width();
    proof {
        let (w, d, s) = (width as int, done as int, span as int);
        assert(0 <= w * d <= 0x2000_0000_0000_0000 * 0x1_0000_0000_0000_0000) by (nonlinear_arith)
            requires
                0 <= w <= 0x2000_0000_0000_0000,
                0 <= d <= 0x1_0000_0000_0000_0000,
        ;
        assert(0 <= w * d / s <= w) by (nonlinear_arith)
            requires
                0 <= w,
                0 <= d <= s,
                s > 0,
        ;
    }
    track.left + (width as i128 * done / span) as i64
}

fn draw_slider(
    ops: &mut Vec<Op>,
    track: &Rect,
    readout: &Rect,
    slider: &Slider,
    current: i128,
    metrics: &Metrics,
    palette: &Palette,
)
    requires
        track.wf(),
        track.wide() >= 0,
        readout.wf(),
    ensures
        op_models(final(ops)@) == op_models(old(ops)@) + slider_ops(
            *track,
            *readout,
            *slider,
            current as int,
            *metrics,
            *palette,
        ),
{
    let line_height: i64 = metrics.px(4_000);
    let line_top: i64 = half(track.top + track.bottom - line_height);
    let radius: i64 = half(line_height);
    push_op(
        ops,
        Op::FillRounded(
            Rect::new(track.left, line_top, track.right, line_top + line_height),
            radius,
            palette.control,
        ),
    );
    let at: i64 = fill_end(track, slider, current);
    push_op(
        ops,
        Op::FillRounded(
            Rect::new(track.left, line_top, at, line_top + line_height),
            radius,
            palette.accent,
        ),
    );
    let knob: i64 = metrics.px(11_000);
    let knob_left: i64 = at - half(knob);
    let knob_top: i64 = half(track.top + track.bottom - knob);
    let knob_rect: Rect = Rect::new(knob_left, knob_top, knob_left + knob, knob_top + knob);
    push_op(ops, Op::FillRounded(knob_rect, half(knob), palette.accent));
    push_op(ops, Op::StrokeRounded(knob_rect, half(knob), palette.card, 144_000));
    let text: String = slider.format.render(current);
    text_in(
        ops,
        readout.inset(metrics.px(6_000), 0),
        text.as_str(),
        small_text(metrics),
        palette.text_dim,
    );
    assert(op_models(ops@) =~= op_models(old(ops)@) + slider_ops(
        *track,
        *readout,
        *slider,
        current as int,
        *metrics,
        *palette,
    ));
}

/// A closed dropdown, with what is chosen and a chevron.
pub open spec fn select_ops(r: Rect, label: Seq<char>, m: Metrics, p: Palette) -> Seq<OpModel> {
    let cx = r.right - m.at(11_000);
    let cy = r.middle();
    frame_ops(r, m, p) + text_ops(
        rect(r.left + m.at(9_000), r.top as int, r.right - m.at(20_000), r.bottom as int),
        label,
        small_style(m),
        p.text,
    ) + seq![
        OpModel::Triangle(
            ((cx - m.at(4_000)) as i64, (cy - m.at(1_600)) as i64),
            ((cx + m.at(4_000)) as i64, (cy - m.at(1_600)) as i64),
            (cx as i64, (cy + m.at(2_800)) as i64),
            p.text_dim,
        ),
    ]
}

fn draw_select(ops: &mut Vec<Op>, r: &Rect, label: &str, metrics: &Metrics, palette: &Palette)
    requires
        r.wf(),
    ensures
        op_models(final(ops)@) == op_models(old(ops)@) + select_ops(
            *r,
            label@,
            *metrics,
            *palette,
        ),
{
    draw_box(ops, *r, metrics, palette);
    let text_rect: Rect = Rect::new(
        r.left + metrics.px(9_000),
        r.top,
        r.right - metrics.px(20_000),
        r.bottom,
    );
    text_in(ops, text_rect, label, small_text(metrics), palette.text);
    let cx: i64 = r.right - metrics.px(11_000);
    let cy: i64 = r.center_y();
    let size: i64 = metrics.px(4_000);
    push_op(
        ops,
        Op::Triangle(
            (cx - size, cy - metrics.px(1_600)),
            (cx + size, cy - metrics.px(1_600)),
            (cx, cy + metrics.px(2_800)),
            palette.text_dim,
        ),
    );
    assert(op_models(ops@) =~= op_models(old(ops)@) + select_ops(*r, label@, *metrics, *palette));
}

/// A colour: its swatch, and the box that it can be typed into.
pub open spec fn color_ops(
    swatch: Rect,
    hex: Rect,
    stored: Seq<char>,
    colour: Option<Rgb>,
    typing: Option<Seq<char>>,
    typed: int,
    m: Metrics,
    p: Palette,
) -> Seq<OpModel> {
    seq![OpModel::FillRounded(swatch, m.at(5_000) as i64, p.control)] + (match colour {
        Some(colour) => seq![
            OpModel::FillRounded(
                swatch.shrunk(m.at(3_000), m.at(3_000)),
                m.at(3_000) as i64,
                Rgba::from_color(colour),
            ),
        ],
        None => Seq::<OpModel>::empty(),
    }) + seq![OpModel::StrokeRounded(swatch, m.at(5_000) as i64, p.control_border, PIXEL)]
        + frame_ops(hex, m, p) + box_text_ops(
        hex,
        stored,
        Seq::<char>::empty(),
        p,
        m,
        typing,
        typed,
    )
}

fn draw_color(
    ops: &mut Vec<Op>,
    swatch: &Rect,
    hex: &Rect,
    stored: &str,
    colour: Option<Rgb>,
    typing: Option<&str>,
    typed: i64,
    metrics: &Metrics,
    palette: &Palette,
)
    requires
        swatch.wf(),
        hex.wf(),
        near(typed as int),
    ensures
        op_models(final(ops)@) == op_models(old(ops)@) + color_ops(
            *swatch,
            *hex,
            stored@,
            colour,
            match typing {
                Some(text) => Some(text@),
                None => None,
            },
            typed as int,
            *metrics,
            *palette,
        ),
{
    push_op(ops, Op::FillRounded(*swatch, metrics.px(5_000), palette.control));
    match colour {
        Some(colour) => {
            push_op(
                ops,
                Op::FillRounded(
                    swatch.inset(metrics.px(3_000), metrics.px(3_000)),
                    metrics.px(3_000),
                    Rgba::from_color(colour),
                ),
            );
        },
        None => {},
    }
    push_op(ops, Op::StrokeRounded(*swatch, metrics.px(5_000), palette.control_border, PIXEL));
    draw_box(ops, *hex, metrics, palette);
    proof {
        reveal_strlit("");
        assert(""@ =~= Seq::<char>::empty());
    }
    draw_box_text(ops, hex, stored, "", palette, metrics, typing, typed);
    assert(op_models(ops@) =~= op_models(old(ops)@) + color_ops(
        *swatch,
        *hex,
        stored@,
        colour,
        match typing {
            Some(text) => Some(text@),
            None => None,
        },
        typed as int,
        *metrics,
        *palette,
    ));
}

/// The colour of a tone.
pub open spec fn tone_colour(tone: Tone, p: Palette) -> Rgba {
    match tone {
        Tone::On => p.ok,
        Tone::Warn => p.warn,
        Tone::Off => p.text_dim,
    }
}

/// A status pill, sized to its text but never wider than its slot.
pub open spec fn pill_ops(
    slot: Rect,
    text: Seq<char>,
    width: int,
    tone: Tone,
    m: Metrics,
    p: Palette,
) -> Seq<OpModel> {
    let right = slot.left + smaller(larger(width, 0) + m.at(20_000), slot.wide());
    let pill = rect(slot.left as int, slot.top as int, right, slot.bottom as int);
    let colour = tone_colour(tone, p);
    seq![OpModel::FillRounded(pill, (pill.tall() / 2) as i64, colour.with_alpha(16))] + text_ops(
        pill,
        text,
        box_style(m),
        colour,
    )
}

fn draw_pill(
    ops: &mut Vec<Op>,
    slot: &Rect,
    text: &str,
    width: i64,
    tone: Tone,
    metrics: &Metrics,
    palette: &Palette,
)
    requires
        slot.wf(),
        near(width as int),
    ensures
        op_models(final(ops)@) == op_models(old(ops)@) + pill_ops(
            *slot,
            text@,
            width as int,
            tone,
            *metrics,
            *palette,
        ),
{
    let colour: Rgba = match tone {
        Tone::On => palette.ok,
        Tone::Warn => palette.warn,
        Tone::Off => palette.text_dim,
    };
    let wide: i64 = min(max(width, 0) + metrics.px(20_000), slot.width());
    let pill: Rect = Rect::new(slot.left, slot.top, slot.left + wide, slot.bottom);
    push_op(ops, Op::FillRounded(pill, half(slot.height()), colour.with_alpha(16)));
    text_in(ops, pill, text, box_text(metrics), colour);
    assert(op_models(ops@) =~= op_models(old(ops)@) + pill_ops(
        *slot,
        text@,
        width as int,
        tone,
        *metrics,
        *palette,
    ));
}

/// A hotkey field. Its border is the whole affordance that a recorder has: it says
/// whether the field is listening.
pub open spec fn hotkey_ops(
    r: Rect,
    stored: Seq<char>,
    recording: Option<Seq<char>>,
    m: Metrics,
    p: Palette,
) -> Seq<OpModel> {
    let inner = r.shrunk(m.at(9_000), 0);
    seq![OpModel::FillRounded(r, m.at(5_000) as i64, p.control)] + (match recording {
        Some(text) => seq![OpModel::StrokeRounded(r, m.at(5_000) as i64, p.accent, 192_000)]
            + text_ops(inner, text, small_style(m), p.accent),
        None => seq![OpModel::StrokeRounded(r, m.at(5_000) as i64, p.control_border, PIXEL)]
            + (if stored.len() == 0 {
            text_ops(inner, "点击后按组合键"@, small_style(m), p.text_faint)
        } else {
            text_ops(inner, stored, small_style(m), p.text)
        }),
    })
}

fn draw_hotkey(
    ops: &mut Vec<Op>,
    r: &Rect,
    stored: &str,
    recording: Option<&str>,
    metrics: &Metrics,
    palette: &Palette,
)
    requires
        r.wf(),
    ensures
        op_models(final(ops)@) == op_models(old(ops)@) + hotkey_ops(
            *r,
            stored@,
            match recording {
                Some(text) => Some(text@),
                None => None,
            },
            *metrics,
            *palette,
        ),
{
    let small: TextStyle = small_text(metrics);
    let inner: Rect = r.inset(metrics.px(9_000), 0);
    push_op(ops, Op::FillRounded(*r, metrics.px(5_000), palette.control));
    match recording {
        Some(text) => {
            push_op(ops, Op::StrokeRounded(*r, metrics.px(5_000), palette.accent, 192_000));
            text_in(ops, inner, text, small, palette.accent);
        },
        None => {
            push_op(ops, Op::StrokeRounded(*r, metrics.px(5_000), palette.control_border, PIXEL));
            if stored.is_empty() {
                text_in(ops, inner, "点击后按组合键", small, palette.text_faint);
            } else {
                text_in(ops, inner, stored, small, palette.text);
            }
        },
    }
    assert(op_models(ops@) =~= op_models(old(ops)@) + hotkey_ops(
        *r,
        stored@,
        match recording {
            Some(text) => Some(text@),
            None => None,
        },
        *metrics,
        *palette,
    ));
}

/// The buttons of an action row, as many as there was room for. `lit` is the one under
/// the pointer.
pub open spec fn button_ops(
    list: Seq<Button>,
    rects: Seq<Rect>,
    lit: Option<int>,
    n: nat,
    m: Metrics,
    p: Palette,
) -> Seq<OpModel>
    decreases n,
{
    if n == 0 {
        Seq::empty()
    } else {
        let i = n - 1;
        let colour = if list[i].danger {
            p.danger
        } else {
            p.accent
        };
        button_ops(list, rects, lit, (n - 1) as nat, m, p) + seq![
            OpModel::FillRounded(
                rects[i],
                m.at(5_000) as i64,
                colour.with_alpha(
                    if lit == Some(i) {
                        24
                    } else {
                        14
                    },
                ),
            ),
        ] + text_ops(rects[i], list[i].label@, box_style(m), colour)
    }
}

/// How many buttons are drawn.
pub open spec fn button_count(list: Seq<Button>, rects: Seq<Rect>) -> nat {
    if list.len() <= rects.len() {
        list.len()
    } else {
        rects.len()
    }
}

fn draw_buttons(
    ops: &mut Vec<Op>,
    list: &'static [Button],
    rects: &Vec<Rect>,
    lit: Option<usize>,
    metrics: &Metrics,
    palette: &Palette,
)
    ensures
        op_models(final(ops)@) == op_models(old(ops)@) + button_ops(
            list@,
            rects@,
            match lit {
                Some(i) => Some(i as int),
                None => None,
            },
            button_count(list@, rects@),
            *metrics,
            *palette,
        ),
{
    let ghost lit_at: Option<int> = match lit {
        Some(i) => Some(i as int),
        None => None,
    };
    let ghost before = op_models(ops@);
    let mut i: usize = 0;
    assert(before + Seq::<OpModel>::empty() =~= before);
    while i < list.len() && i < rects.len()
        invariant
            0 <= i <= list@.len(),
            i <= rects@.len(),
            lit_at == (match lit {
                Some(i) => Some(i as int),
                None => None,
            }),
            op_models(ops@) == before + button_ops(
                list@,
                rects@,
                lit_at,
                i as nat,
                *metrics,
                *palette,
            ),
        decreases list@.len() - i,
    {
        let button: Button = list[i];
        let colour: Rgba = if button.danger {
            palette.danger
        } else {
            palette.accent
        };
        let is_lit: bool = match lit {
            Some(at) => at == i,
            None => false,
        };
        let alpha: u8 = if is_lit {
            24
        } else {
            14
        };
        push_op(ops, Op::FillRounded(rects[i], metrics.px(5_000), colour.with_alpha(alpha)));
        text_in(ops, rects[i], button.label, box_text(metrics), colour);
        assert(op_models(ops@) =~= before + button_ops(
            list@,
            rects@,
            lit_at,
            (i + 1) as nat,
            *metrics,
            *palette,
        ));
        i = i + 1;
    }
}

/// The text of a stored value; none where it is no text.
pub open spec fn stored_text(value: Option<ValueModel>) -> Seq<char> {
    match value {
        Some(ValueModel::Text(text)) => text,
        _ => Seq::empty(),
    }
}

/// The text that is being typed into a row, when it is the focused one.
pub open spec fn typing(ui: Interaction, index: int) -> Option<Seq<char>> {
    match ui.focused_row {
        Some(row) => if row == index {
            Some(ui.editing@)
        } else {
            None
        },
        None => None,
    }
}

/// The button under the pointer, in the row under the pointer.
pub open spec fn lit_button(ui: Interaction, hovered: bool) -> Option<int> {
    match ui.hover_part {
        Some(Part::Button(i)) => if hovered {
            Some(i as int)
        } else {
            None
        },
        _ => None,
    }
}

/// The text, tone and width of a status row.
pub open spec fn status_of(kind: StatusKind, status: StatusText, measured: Measured) -> (
    Seq<char>,
    Tone,
    int,
) {
    match kind {
        StatusKind::Taskbar => (status.taskbar@, status.taskbar_tone, measured.taskbar as int),
        StatusKind::Spectrum => (status.spectrum@, status.spectrum_tone, measured.spectrum as int),
        StatusKind::Clipboard => (
            status.clipboard@,
            status.clipboard_tone,
            measured.clipboard as int,
        ),
    }
}

/// What the box of a dropdown shows: the label of the stored choice, or that of the first
/// one when none matches.
pub open spec fn chosen_label(list: Seq<Choice>, stored: Seq<char>) -> Seq<char> {
    match label_of(list, stored) {
        Some(label) => label@,
        None => if list.len() > 0 {
            list[0].label@
        } else {
            stored
        },
    }
}

/// The control of a row.
pub open spec fn control_ops(
    row: Row,
    m: Metrics,
    p: Palette,
    value: Option<ValueModel>,
    colour: Option<Rgb>,
    hovered: bool,
    ui: Interaction,
    status: StatusText,
    index: int,
    measured: Measured,
) -> Seq<OpModel> {
    let parts = parts_of(row.field.kind, row.control, m);
    match row.field.kind {
        Kind::Switch => switch_ops(
            parts.boxes[0],
            value == Some(ValueModel::Bool(true)),
            m,
            p,
        ),
        Kind::Slider(slider) => match parts.slider {
            Some(track) => slider_ops(
                track,
                parts.boxes[0],
                slider,
                match value {
                    Some(value) => match value.number() {
                        Some(number) => number,
                        None => slider.min as int,
                    },
                    None => slider.min as int,
                },
                m,
                p,
            ),
            None => Seq::empty(),
        },
        Kind::Select(list) => select_ops(
            parts.boxes[0],
            chosen_label(list.list(), stored_text(value)),
            m,
            p,
        ),
        Kind::Color => color_ops(
            parts.boxes[0],
            parts.boxes[1],
            stored_text(value),
            colour,
            typing(ui, index),
            measured.typed as int,
            m,
            p,
        ),
        Kind::Number { min, max, suffix } => {
            let number = match value {
                Some(value) => match value.number() {
                    Some(number) => number,
                    None => 0,
                },
                None => 0,
            };
            frame_ops(parts.boxes[0], m, p) + box_text_ops(
                parts.boxes[0],
                decimal(held(nearest(number, ONE as int))) + " "@ + suffix@,
                Seq::<char>::empty(),
                p,
                m,
                typing(ui, index),
                measured.typed as int,
            )
        },
        Kind::Text { placeholder } => frame_ops(parts.boxes[0], m, p) + box_text_ops(
            parts.boxes[0],
            stored_text(value),
            placeholder@,
            p,
            m,
            typing(ui, index),
            measured.typed as int,
        ),
        Kind::Status(kind) => {
            let (text, tone, width) = status_of(kind, status, measured);
            pill_ops(parts.boxes[0], text, width, tone, m, p)
        },
        Kind::Hotkey => hotkey_ops(
            parts.boxes[0],
            stored_text(value),
            match ui.recording {
                Some(row) => if row == index {
                    Some(ui.recording_text@)
                } else {
                    None
                },
                None => None,
            },
            m,
            p,
        ),
        Kind::Info(key) => text_ops(
            row.control,
            info_of(info_models(status.info@), key),
            small_style(m),
            p.text_dim,
        ),
        Kind::Action(list) => button_ops(
            list.list(),
            parts.buttons,
            lit_button(ui, hovered),
            button_count(list.list(), parts.buttons),
            m,
            p,
        ),
    }
}

/// Can the control of a row be drawn? It is within reach, and there is room for it where
/// it needs a box.
pub open spec fn drawable_row(row: Row) -> bool {
    &&& drawable(row.rect)
    &&& drawable(row.label)
    &&& drawable(row.hint)
    &&& drawable(row.control)
    &&& row.control.void() ==> row.field.kind is Slider || row.field.kind is Info
        || row.field.kind is Action
}

fn typed_text<'a>(interaction: &'a Interaction, row: usize) -> (r: Option<&'a str>)
    ensures
        match typing(*interaction, row as int) {
            Some(text) => r is Some && r->0@ == text,
            None => r is None,
        },
{
    match interaction.focused_row {
        Some(focused) => if focused == row {
            Some(interaction.editing.as_str())
        } else {
            None
        },
        None => None,
    }
}

fn text_of<'a>(value: &'a Option<Value>) -> (r: &'a str)
    ensures
        r@ == stored_text(
            match value {
                Some(value) => Some(value@),
                None => None,
            },
        ),
{
    proof {
        reveal_strlit("");
        assert(""@ =~= Seq::<char>::empty());
    }
    match value {
        Some(value) => match value.as_text() {
            Some(text) => text,
            None => "",
        },
        None => "",
    }
}

#[verifier::spinoff_prover]
fn draw_control(
    ops: &mut Vec<Op>,
    row: &Row,
    metrics: &Metrics,
    palette: &Palette,
    value: &Option<Value>,
    colour: Option<Rgb>,
    hovered: bool,
    interaction: &Interaction,
    status: &StatusText,
    row_index: usize,
    measured: &Measured,
)
    requires
        drawable_row(*row),
        measured.wf(),
    ensures
        op_models(final(ops)@) == op_models(old(ops)@) + control_ops(
            *row,
            *metrics,
            *palette,
            match value {
                Some(value) => Some(value@),
                None => None,
            },
            colour,
            hovered,
            *interaction,
            *status,
            row_index as int,
            *measured,
        ),
{
    let ghost m = *metrics;
    let ghost model: Option<ValueModel> = match value {
        Some(value) => Some(value@),
        None => None,
    };
    let parts: Parts = crate::settings::controls::parts(&row.field, &row.control, metrics);
    proof {
        lemma_parts_near(row.field.kind, row.control, m);
    }
    match row.field.kind {
        Kind::Switch => {
            let on: bool = match value {
                Some(value) => match value.as_bool() {
                    Some(on) => on,
                    None => false,
                },
                None => false,
            };
            draw_switch(ops, &parts.boxes[0], on, metrics, palette);
        },
        Kind::Slider(slider) => {
            match parts.slider {
                Some(track) => {
                    let current: i128 = match value {
                        Some(value) => match value.as_number() {
                            Some(number) => number,
                            None => slider.min as i128,
                        },
                        None => slider.min as i128,
                    };
                    draw_slider(ops, &track, &parts.boxes[0], &slider, current, metrics, palette);
                },
                None => {
                    assert(op_models(ops@) + Seq::<OpModel>::empty() =~= op_models(ops@));
                },
            }
        },
        Kind::Select(list) => {
            let selected: &str = text_of(value);
            let choices: &'static [Choice] = list.choices();
            let label: &str = match find_label(choices, selected) {
                Some(label) => label,
                None => if choices.len() > 0 {
                    choices[0].label
                } else {
                    selected
                },
            };
            draw_select(ops, &parts.boxes[0], label, metrics, palette);
        },
        Kind::Color => {
            draw_color(
                ops,
                &parts.boxes[0],
                &parts.boxes[1],
                text_of(value),
                colour,
                typed_text(interaction, row_index),
                measured.typed,
                metrics,
                palette,
            );
        },
        Kind::Number { min, max, suffix } => {
            let number: i128 = match value {
                Some(value) => match value.as_number() {
                    Some(number) => number,
                    None => 0,
                },
                None => 0,
            };
            let mut stored: String = String::new();
            push_decimal(&mut stored, whole(number));
            stored.append(" ");
            stored.append(suffix);
            proof {
                reveal_strlit("");
                assert(""@ =~= Seq::<char>::empty());
                assert(stored@ =~= decimal(held(nearest(number as int, ONE as int))) + " "@ + suffix@);
            }
            let ghost before = op_models(ops@);
            draw_box(ops, parts.boxes[0], metrics, palette);
            draw_box_text(
                ops,
                &parts.boxes[0],
                stored.as_str(),
                "",
                palette,
                metrics,
                typed_text(interaction, row_index),
                measured.typed,
            );
            assert(op_models(ops@) =~= before + control_ops(
                *row,
                m,
                *palette,
                model,
                colour,
                hovered,
                *interaction,
                *status,
                row_index as int,
                *measured,
            ));
        },
        Kind::Text { placeholder } => {
            let ghost before = op_models(ops@);
            draw_box(ops, parts.boxes[0], metrics, palette);
            draw_box_text(
                ops,
                &parts.boxes[0],
                text_of(value),
                placeholder,
                palette,
                metrics,
                typed_text(interaction, row_index),
                measured.typed,
            );
            assert(op_models(ops@) =~= before + control_ops(
                *row,
                m,
                *palette,
                model,
                colour,
                hovered,
                *interaction,
                *status,
                row_index as int,
                *measured,
            ));
        },
        Kind::Status(kind) => {
            let (text, tone, width): (&str, Tone, i64) = match kind {
                StatusKind::Taskbar => (
                    status.taskbar.as_str(),
                    status.taskbar_tone,
                    measured.taskbar,
                ),
                StatusKind::Spectrum => (
                    status.spectrum.as_str(),
                    status.spectrum_tone,
                    measured.spectrum,
                ),
                StatusKind::Clipboard => (
                    status.clipboard.as_str(),
                    status.clipboard_tone,
                    measured.clipboard,
                ),
            };
            draw_pill(ops, &parts.boxes[0], text, width, tone, metrics, palette);
        },
        Kind::Hotkey => {
            let recording: Option<&str> = match interaction.recording {
                Some(at) => if at == row_index {
                    Some(interaction.recording_text.as_str())
                } else {
                    None
                },
                None => None,
            };
            draw_hotkey(ops, &parts.boxes[0], text_of(value), recording, metrics, palette);
        },
        // The label column already says what it is, so this is just the text, and it is
        // deliberately not styled like a control.
        Kind::Info(key) => {
            text_in(ops, row.control, status.info(key), small_text(metrics), palette.text_dim);
        },
        Kind::Action(list) => {
            let lit: Option<usize> = match interaction.hover_part {
                Some(Part::Button(i)) => if hovered {
                    Some(i)
                } else {
                    None
                },
                _ => None,
            };
            draw_buttons(ops, list.buttons(), &parts.buttons, lit, metrics, palette);
        },
    }
}

/// The parts of a control that can be drawn are within reach.
proof fn lemma_parts_near(kind: Kind, control: Rect, m: Metrics)
    requires
        drawable(control),
    ensures
        forall|i: int|
            0 <= i < parts_of(kind, control, m).boxes.len() ==> (#[trigger] parts_of(
                kind,
                control,
                m,
            ).boxes[i]).wf(),
        match parts_of(kind, control, m).slider {
            Some(track) => track.wf() && track.wide() >= 0,
            None => true,
        },
{
    assert(0 <= m.at(28_000) <= 28_000 * 0xffff_ffff && 0 <= m.at(42_000) <= 42_000 * 0xffff_ffff
        && 0 <= m.at(8_000) <= 8_000 * 0xffff_ffff && 0 <= m.at(46_000) <= 46_000 * 0xffff_ffff
        && 0 <= m.at(56_000) <= 56_000 * 0xffff_ffff && 0 <= m.at(22_960) <= 22_960 * 0xffff_ffff
        && 0 <= m.at(23_000) <= 23_000 * 0xffff_ffff) by (nonlinear_arith)
        requires
            0 <= m.dpi <= 0xffff_ffff,
    ;
}

/// The style of a sidebar entry.
pub open spec fn nav_style(m: Metrics) -> TextStyle {
    TextStyle { size: (m.at(12_500) + 48_000) as i64, semi_bold: true, centred: false }
}

/// One sidebar entry.
pub open spec fn nav_entry_ops(item: NavItem, hovered: bool, m: Metrics, p: Palette) -> Seq<OpModel> {
    let r = item.rect.shrunk(m.at(5_500), 0);
    (if item.active {
        seq![OpModel::FillRounded(r, m.at(6_000) as i64, p.accent.with_alpha(18))]
    } else if hovered {
        seq![OpModel::FillRounded(r, m.at(6_000) as i64, p.hover)]
    } else {
        Seq::<OpModel>::empty()
    }) + text_ops(
        rect(r.left + m.at(12_000), r.top as int, r.right - m.at(6_000), r.bottom as int),
        item.section.title@,
        nav_style(m),
        if item.active {
            p.accent
        } else {
            p.text_dim
        },
    )
}

/// The first `n` sidebar entries.
pub open spec fn nav_ops(
    nav: Seq<NavItem>,
    hover: Option<usize>,
    n: nat,
    m: Metrics,
    p: Palette,
) -> Seq<OpModel>
    decreases n,
{
    if n == 0 {
        Seq::empty()
    } else {
        nav_ops(nav, hover, (n - 1) as nat, m, p) + nav_entry_ops(
            nav[n - 1],
            hover is Some && hover->0 == n - 1,
            m,
            p,
        )
    }
}

fn draw_nav(
    ops: &mut Vec<Op>,
    layout: &Layout,
    metrics: &Metrics,
    palette: &Palette,
    interaction: &Interaction,
)
    requires
        forall|i: int| 0 <= i < layout.nav@.len() ==> drawable((#[trigger] layout.nav@[i]).rect),
    ensures
        op_models(final(ops)@) == op_models(old(ops)@) + nav_ops(
            layout.nav@,
            interaction.hover_nav,
            layout.nav@.len(),
            *metrics,
            *palette,
        ),
{
    let ghost before = op_models(ops@);
    let style: TextStyle = TextStyle {
        size: metrics.px(12_500) + 48_000,
        semi_bold: true,
        centred: false,
    };
    let mut i: usize = 0;
    assert(before + Seq::<OpModel>::empty() =~= before);
    while i < layout.nav.len()
        invariant
            forall|i: int|
                0 <= i < layout.nav@.len() ==> drawable((#[trigger] layout.nav@[i]).rect),
            style == nav_style(*metrics),
            0 <= i <= layout.nav@.len(),
            op_models(ops@) == before + nav_ops(
                layout.nav@,
                interaction.hover_nav,
                i as nat,
                *metrics,
                *palette,
            ),
        decreases layout.nav@.len() - i,
    {
        let item: NavItem = layout.nav[i];
        assert(drawable(layout.nav@[i as int].rect));
        let r: Rect = item.rect.inset(metrics.px(5_500), 0);
        let hovered: bool = match interaction.hover_nav {
            Some(at) => at == i,
            None => false,
        };
        if item.active {
            push_op(ops, Op::FillRounded(r, metrics.px(6_000), palette.accent.with_alpha(18)));
        } else if hovered {
            push_op(ops, Op::FillRounded(r, metrics.px(6_000), palette.hover));
        }
        let colour: Rgba = if item.active {
            palette.accent
        } else {
            palette.text_dim
        };
        let text_rect: Rect = Rect::new(
            r.left + metrics.px(12_000),
            r.top,
            r.right - metrics.px(6_000),
            r.bottom,
        );
        text_in(ops, text_rect, item.section.title, style, colour);
        assert(op_models(ops@) =~= before + nav_ops(
            layout.nav@,
            interaction.hover_nav,
            (i + 1) as nat,
            *metrics,
            *palette,
        ));
        i = i + 1;
    }
}

/// A positioned window button.
#[derive(Clone, Copy, Debug, PartialEq, Eq, Structural)]
pub struct PositionedButton {
    pub kind: WindowButton,
    pub rect: Rect,
}

/// The window buttons of a title bar, from right to left: close sits at the corner.
pub open spec fn buttons_of(titlebar: Rect, m: Metrics) -> Seq<PositionedButton> {
    let size = m.at(22_000);
    let top = centred(titlebar, size);
    let right = titlebar.right - m.at(10_000);
    seq![
        PositionedButton {
            kind: WindowButton::Close,
            rect: rect(right - size, top, right, top + size),
        },
        PositionedButton {
            kind: WindowButton::Minimize,
            rect: rect(
                right - 2 * size - m.at(4_000),
                top,
                right - size - m.at(4_000),
                top + size,
            ),
        },
    ]
}

/// Lay out the minimise and close buttons.
pub fn window_buttons(layout: &Layout, metrics: &Metrics) -> (r: Vec<PositionedButton>)
    requires
        drawable(layout.titlebar),
    ensures
        r@ == buttons_of(layout.titlebar, *metrics),
{
    let size: i64 = metrics.px(22_000);
    let gap: i64 = metrics.px(4_000);
    let top: i64 = half(layout.titlebar.top + layout.titlebar.bottom - size);
    let right: i64 = layout.titlebar.right - metrics.px(10_000);
    let mut buttons: Vec<PositionedButton> = Vec::new();
    buttons.push(
        PositionedButton {
            kind: WindowButton::Close,
            rect: Rect::new(right - size, top, right, top + size),
        },
    );
    buttons.push(
        PositionedButton {
            kind: WindowButton::Minimize,
            rect: Rect::new(right - size * 2 - gap, top, right - size - gap, top + size),
        },
    );
    assert(buttons@ =~= buttons_of(layout.titlebar, *metrics));
    buttons
}

/// The stroke inside a window button: a bar for minimise, a cross for close.
pub open spec fn glyph_ops(button: PositionedButton, m: Metrics, ink: Rgba) -> Seq<OpModel> {
    let x = (button.rect.left + button.rect.right) / 2;
    let y = button.rect.middle();
    let arm = m.at(5_000);
    let thickness = m.at(1_400);
    match button.kind {
        WindowButton::Minimize => seq![
            OpModel::FillRect(
                rect(x - arm, y - thickness / 2, x + arm, y - thickness / 2 + thickness),
                ink,
            ),
        ],
        WindowButton::Close => seq![
            OpModel::TiltedBar {
                centre: (x as i64, y as i64),
                arm: arm as i64,
                thickness: thickness as i64,
                falls: false,
                ink,
            },
            OpModel::TiltedBar {
                centre: (x as i64, y as i64),
                arm: arm as i64,
                thickness: thickness as i64,
                falls: true,
                ink,
            },
        ],
    }
}

fn draw_window_glyph(ops: &mut Vec<Op>, button: &PositionedButton, metrics: &Metrics, ink: Rgba)
    requires
        button.rect.wf(),
    ensures
        op_models(final(ops)@) == op_models(old(ops)@) + glyph_ops(*button, *metrics, ink),
{
    let x: i64 = button.rect.center_x();
    let y: i64 = button.rect.center_y();
    let arm: i64 = metrics.px(5_000);
    let thickness: i64 = metrics.px(1_400);
    match button.kind {
        WindowButton::Minimize => {
            let top: i64 = y - half(thickness);
            push_op(ops, Op::FillRect(Rect::new(x - arm, top, x + arm, top + thickness), ink));
        },
        WindowButton::Close => {
            push_op(ops, Op::TiltedBar { centre: (x, y), arm, thickness, falls: false, ink });
            push_op(ops, Op::TiltedBar { centre: (x, y), arm, thickness, falls: true, ink });
        },
    }
    assert(op_models(ops@) =~= op_models(old(ops)@) + glyph_ops(*button, *metrics, ink));
}

/// A window button: a wash while the pointer is on it, and its stroke.
pub open spec fn window_button_ops(
    button: PositionedButton,
    hovered: bool,
    m: Metrics,
    p: Palette,
) -> Seq<OpModel> {
    if hovered {
        let (wash, ink) = match button.kind {
            WindowButton::Close => (p.danger, p.on_accent),
            WindowButton::Minimize => (p.hover, p.text),
        };
        (if wash.a > 0 {
            seq![OpModel::FillRounded(button.rect, m.at(4_000) as i64, wash)]
        } else {
            Seq::<OpModel>::empty()
        }) + glyph_ops(button, m, ink)
    } else {
        glyph_ops(button, m, p.text_dim)
    }
}

fn draw_window_button(
    ops: &mut Vec<Op>,
    button: &PositionedButton,
    hovered: bool,
    metrics: &Metrics,
    palette: &Palette,
)
    requires
        button.rect.wf(),
    ensures
        op_models(final(ops)@) == op_models(old(ops)@) + window_button_ops(
            *button,
            hovered,
            *metrics,
            *palette,
        ),
{
    if hovered {
        let (wash, ink): (Rgba, Rgba) = match button.kind {
            WindowButton::Close => (palette.danger, palette.on_accent),
            WindowButton::Minimize => (palette.hover, palette.text),
        };
        if wash.a > 0 {
            push_op(ops, Op::FillRounded(button.rect, metrics.px(4_000), wash));
        }
        draw_window_glyph(ops, button, metrics, ink);
        assert(op_models(ops@) =~= op_models(old(ops)@) + window_button_ops(
            *button,
            hovered,
            *metrics,
            *palette,
        ));
    } else {
        draw_window_glyph(ops, button, metrics, palette.text_dim);
    }
}

/// The title bar: the name of the window and its buttons.
pub open spec fn titlebar_ops(
    titlebar: Rect,
    hover: Option<WindowButton>,
    m: Metrics,
    p: Palette,
) -> Seq<OpModel> {
    let buttons = buttons_of(titlebar, m);
    text_ops(
        rect(
            titlebar.left + m.at(22_000),
            titlebar.top as int,
            titlebar.right - m.at(58_000),
            titlebar.bottom as int,
        ),
        "WinBeautify 设置"@,
        TextStyle { size: m.at(12_500) as i64, semi_bold: true, centred: false },
        p.text,
    ) + window_button_ops(buttons[0], hover == Some(WindowButton::Close), m, p)
        + window_button_ops(buttons[1], hover == Some(WindowButton::Minimize), m, p)
}

fn draw_titlebar(
    ops: &mut Vec<Op>,
    layout: &Layout,
    metrics: &Metrics,
    palette: &Palette,
    interaction: &Interaction,
)
    requires
        drawable(layout.titlebar),
    ensures
        op_models(final(ops)@) == op_models(old(ops)@) + titlebar_ops(
            layout.titlebar,
            interaction.hover_window,
            *metrics,
            *palette,
        ),
{
    let r: Rect = Rect::new(
        layout.titlebar.left + metrics.px(22_000),
        layout.titlebar.top,
        layout.titlebar.right - metrics.px(58_000),
        layout.titlebar.bottom,
    );
    let style: TextStyle = TextStyle {
        size: metrics.px(12_500),
        semi_bold: true,
        centred: false,
    };
    text_in(ops, r, "WinBeautify 设置", style, palette.text);
    let buttons: Vec<PositionedButton> = window_buttons(layout, metrics);
    let on_close: bool = match interaction.hover_window {
        Some(WindowButton::Close) => true,
        _ => false,
    };
    let on_minimize: bool = match interaction.hover_window {
        Some(WindowButton::Minimize) => true,
        _ => false,
    };
    draw_window_button(ops, &buttons[0], on_close, metrics, palette);
    draw_window_button(ops, &buttons[1], on_minimize, metrics, palette);
    assert(op_models(ops@) =~= op_models(old(ops)@) + titlebar_ops(
        layout.titlebar,
        interaction.hover_window,
        *metrics,
        *palette,
    ));
}

/// The heading of the section that is shown.
pub open spec fn active_heading(nav: Seq<NavItem>) -> Option<Heading>
    decreases nav.len(),
{
    if nav.len() == 0 {
        None
    } else {
        match active_heading(nav.drop_last()) {
            Some(heading) => Some(heading),
            None => if nav.last().active {
                Some(nav.last().section)
            } else {
                None
            },
        }
    }
}

fn current_heading(layout: &Layout) -> (r: Option<Heading>)
    ensures
        r == active_heading(layout.nav@),
{
    let mut found: Option<Heading> = None;
    let mut i: usize = 0;
    assert(layout.nav@.take(0) =~= Seq::<NavItem>::empty());
    while i < layout.nav.len()
        invariant
            0 <= i <= layout.nav@.len(),
            found == active_heading(layout.nav@.take(i as int)),
        decreases layout.nav@.len() - i,
    {
        proof {
            let next = layout.nav@.take(i + 1);
            assert(next.drop_last() =~= layout.nav@.take(i as int));
            assert(next.last() == layout.nav@[i as int]);
        }
        if found.is_none() && layout.nav[i].active {
            found = Some(layout.nav[i].section);
        }
        i = i + 1;
    }
    assert(layout.nav@.take(i as int) =~= layout.nav@);
    found
}

/// The title of the section being shown, for the page heading.
pub fn current_section_title(layout: &Layout) -> (r: &'static str)
    ensures
        r == (match active_heading(layout.nav@) {
            Some(heading) => heading.title,
            None => "",
        }),
{
    match current_heading(layout) {
        Some(heading) => heading.title,
        None => "",
    }
}

/// The active section's own explanation, drawn under the page heading.
pub fn current_section_description(layout: &Layout) -> (r: &'static str)
    ensures
        r == (match active_heading(layout.nav@) {
            Some(heading) => heading.description,
            None => "",
        }),
{
    match current_heading(layout) {
        Some(heading) => heading.description,
        None => "",
    }
}

/// The field that a row belongs to, for callers that only have the index of the row.
pub fn field_of(layout: &Layout, row_index: usize) -> (r: Option<Field>)
    ensures
        r == (if row_index < layout.content@.rows().len() {
            Some(layout.content@.rows()[row_index as int].field)
        } else {
            None
        }),
{
    let rows: Vec<Row> = layout.content.rows();
    if row_index < rows.len() {
        Some(rows[row_index].field)
    } else {
        None
    }
}

/// How many lines of a wrapped text are drawn, and where: each as tall as the line
/// spacing, as long as they end at the bottom of the rectangle, give or take a pixel.
pub open spec fn line_rects(r: Rect, m: Metrics, lines: nat) -> Seq<Rect>
    decreases lines,
{
    if lines == 0 {
        Seq::empty()
    } else {
        let before = line_rects(r, m, (lines - 1) as nat);
        let top = r.top + (lines - 1) * m.at(15_525);
        if before.len() == lines - 1 && top + m.at(15_525) <= r.bottom + PIXEL {
            before.push(rect(r.left as int, top, r.right as int, top + m.at(15_525)))
        } else {
            before
        }
    }
}

/// Where the lines of a wrapped text are drawn. Every line is, because the layout reserved
/// the height that they need; what would run past the reserved height is cut.
pub fn draw_wrapped(r: &Rect, metrics: &Metrics, lines: usize) -> (out: Vec<Rect>)
    requires
        r.wf(),
    ensures
        out@ == line_rects(*r, *metrics, lines as nat),
        out@.len() <= lines,
{
    let line_height: i64 = metrics.px(15_525);
    let ghost m = *metrics;
    let mut out: Vec<Rect> = Vec::new();
    let mut top: i128 = r.top as i128;
    let mut i: usize = 0;
    let mut cut: bool = false;
    while i < lines
        invariant
            r.wf(),
            m == *metrics,
            line_height == m.at(15_525),
            0 <= line_height <= 15_525 * 0xffff_ffff,
            0 <= i <= lines,
            top == r.top + i * line_height,
            -REACH <= top <= REACH + i * 0x1_0000_0000_0000,
            out@ == line_rects(*r, m, i as nat),
            out@.len() <= i,
            cut == (out@.len() < i),
        decreases lines - i,
    {
        let bottom: i128 = top + line_height as i128;
        assert(i * line_height == i * m.at(15_525));
        if !cut && bottom <= r.bottom as i128 + PIXEL as i128 {
            out.push(Rect::new(r.left, top as i64, r.right, bottom as i64));
        } else {
            cut = true;
        }
        assert((i + 1) * line_height == i * line_height + line_height) by (nonlinear_arith);
        top = bottom;
        i = i + 1;
    }
    out
}

/// What a row's control shows: the stored value at its path.
pub open spec fn shown_value(values: Tree, field: Field) -> Option<ValueModel> {
    if field.path@.len() == 0 {
        None
    } else {
        reading(values, field.path@)
    }
}

/// One row: its divider, label, hint and control.
pub open spec fn row_ops(
    row: Row,
    index: int,
    m: Metrics,
    p: Palette,
    values: Tree,
    colours: Seq<Option<Rgb>>,
    ui: Interaction,
    status: StatusText,
    measured: Measured,
) -> Seq<OpModel> {
    let divider = if row.divider {
        seq![
            OpModel::FillRect(
                rect(
                    row.rect.left + m.at(14_000),
                    row.rect.top as int,
                    row.rect.right - m.at(14_000),
                    row.rect.top + PIXEL,
                ),
                p.divider,
            ),
        ]
    } else {
        Seq::<OpModel>::empty()
    };
    let label = if row.label.void() {
        Seq::<OpModel>::empty()
    } else {
        text_ops(row.label, row.field.label@, label_style(m), p.text)
    };
    let hint = match row.field.hint {
        Some(hint) => if row.hint.void() {
            Seq::<OpModel>::empty()
        } else {
            seq![OpModel::Wrapped(row.hint, hint@, hint_style(m), p.text_faint)]
        },
        None => Seq::<OpModel>::empty(),
    };
    divider + label + hint + control_ops(
        row,
        m,
        p,
        shown_value(values, row.field),
        colours[index],
        ui.hover_row is Some && ui.hover_row->0 == index,
        ui,
        status,
        index,
        measured,
    )
}

pub open spec fn label_style(m: Metrics) -> TextStyle {
    TextStyle { size: m.at(12_500) as i64, semi_bold: false, centred: false }
}

pub open spec fn hint_style(m: Metrics) -> TextStyle {
    TextStyle { size: m.at(11_500) as i64, semi_bold: false, centred: false }
}

pub open spec fn title_style(m: Metrics) -> TextStyle {
    TextStyle { size: m.at(19_000) as i64, semi_bold: true, centred: false }
}

/// The first `n` rows of a card, of which the first has index `from` on the page.
pub open spec fn rows_ops(
    rows: Seq<Row>,
    from: int,
    n: nat,
    m: Metrics,
    p: Palette,
    values: Tree,
    colours: Seq<Option<Rgb>>,
    ui: Interaction,
    status: StatusText,
    measured: Measured,
) -> Seq<OpModel>
    decreases n,
{
    if n == 0 {
        Seq::empty()
    } else {
        rows_ops(rows, from, (n - 1) as nat, m, p, values, colours, ui, status, measured)
            + row_ops(
            rows[n - 1],
            from + n - 1,
            m,
            p,
            values,
            colours,
            ui,
            status,
            measured,
        )
    }
}

/// A card without its rows: its panel and its title.
pub open spec fn panel_ops(card: CardLayout, m: Metrics, p: Palette) -> Seq<OpModel> {
    seq![
        OpModel::FillRounded(card.rect, m.at(8_000) as i64, p.card),
        OpModel::StrokeRounded(card.rect, m.at(8_000) as i64, p.card_border, PIXEL),
    ] + (match card.heading {
        Some(title) => text_ops(card.title, title@, small_style(m), p.text_dim),
        None => Seq::<OpModel>::empty(),
    })
}

/// How many rows some cards have.
pub open spec fn row_count(cards: Seq<CardLayout>) -> int {
    crate::settings::layout::rows_of(cards).len() as int
}

/// Some cards, from the top of the page.
pub open spec fn cards_ops(
    cards: Seq<CardLayout>,
    m: Metrics,
    p: Palette,
    values: Tree,
    colours: Seq<Option<Rgb>>,
    ui: Interaction,
    status: StatusText,
    measured: Measured,
) -> Seq<OpModel>
    decreases cards.len(),
{
    if cards.len() == 0 {
        Seq::empty()
    } else {
        let before = cards.drop_last();
        cards_ops(before, m, p, values, colours, ui, status, measured) + panel_ops(
            cards.last(),
            m,
            p,
        ) + rows_ops(
            cards.last().rows,
            row_count(before),
            cards.last().rows.len(),
            m,
            p,
            values,
            colours,
            ui,
            status,
            measured,
        )
    }
}

/// The page: its heading, its explanation and its cards.
pub open spec fn content_ops(
    page: Page,
    nav: Seq<NavItem>,
    m: Metrics,
    p: Palette,
    values: Tree,
    colours: Seq<Option<Rgb>>,
    ui: Interaction,
    status: StatusText,
    measured: Measured,
) -> Seq<OpModel> {
    let title = match active_heading(nav) {
        Some(heading) => heading.title,
        None => "",
    };
    let description = match active_heading(nav) {
        Some(heading) => heading.description,
        None => "",
    };
    text_ops(page.title, title@, title_style(m), p.text) + (if page.description.void() {
        Seq::<OpModel>::empty()
    } else {
        seq![OpModel::Wrapped(page.description, description@, hint_style(m), p.text_faint)]
    }) + cards_ops(page.cards, m, p, values, colours, ui, status, measured)
}

/// Can every row of some cards be drawn?
pub open spec fn drawable_cards(cards: Seq<CardLayout>) -> bool {
    forall|k: int, j: int|
        0 <= k < cards.len() && 0 <= j < cards[k].rows.len() ==> drawable_row(
            #[trigger] cards[k].rows[j],
        )
}

fn draw_row(
    ops: &mut Vec<Op>,
    row: &Row,
    row_index: usize,
    metrics: &Metrics,
    palette: &Palette,
    values: &Node,
    colours: &Vec<Option<Rgb>>,
    interaction: &Interaction,
    status: &StatusText,
    measured: &Measured,
)
    requires
        drawable_row(*row),
        measured.wf(),
        row_index < colours@.len(),
    ensures
        op_models(final(ops)@) == op_models(old(ops)@) + row_ops(
            *row,
            row_index as int,
            *metrics,
            *palette,
            values.model(),
            colours@,
            *interaction,
            *status,
            *measured,
        ),
{
    let ghost before = op_models(ops@);
    let ghost m = *metrics;
    let ghost p = *palette;
    if row.divider {
        let line: Rect = Rect::new(
            row.rect.left + metrics.px(14_000),
            row.rect.top,
            row.rect.right - metrics.px(14_000),
            row.rect.top + PIXEL,
        );
        push_op(ops, Op::FillRect(line, palette.divider));
    }
    let hovered: bool = match interaction.hover_row {
        Some(at) => at == row_index,
        None => false,
    };
    if !row.label.is_empty() {
        let style: TextStyle = TextStyle {
            size: metrics.px(12_500),
            semi_bold: false,
            centred: false,
        };
        text_in(ops, row.label, row.field.label, style, palette.text);
    }
    match row.field.hint {
        Some(hint) => {
            if !row.hint.is_empty() {
                let style: TextStyle = TextStyle {
                    size: metrics.px(11_500),
                    semi_bold: false,
                    centred: false,
                };
                push_op(ops, Op::Wrapped(row.hint, hint, style, palette.text_faint));
            }
        },
        None => {},
    }
    let value: Option<Value> = if row.field.path.is_empty() {
        None
    } else {
        crate::settings::access::read(values, row.field.path)
    };
    assert(shown_value(values.model(), row.field) == (match value {
        Some(value) => Some(value@),
        None => None,
    }));
    draw_control(
        ops,
        row,
        metrics,
        palette,
        &value,
        colours[row_index],
        hovered,
        interaction,
        status,
        row_index,
        measured,
    );
    assert(op_models(ops@) =~= before + row_ops(
        *row,
        row_index as int,
        m,
        p,
        values.model(),
        colours@,
        *interaction,
        *status,
        *measured,
    ));
}

proof fn lemma_row_count(cards: Seq<CardLayout>, k: int)
    requires
        0 <= k < cards.len(),
    ensures
        row_count(cards.take(k + 1)) == row_count(cards.take(k)) + cards[k].rows.len(),
        row_count(cards.take(k + 1)) <= row_count(cards),
    decreases cards.len(),
{
    let next = cards.take(k + 1);
    assert(next.drop_last() =~= cards.take(k));
    if k + 1 < cards.len() {
        let before = cards.drop_last();
        lemma_row_count(before, k);
        assert(before.take(k + 1) =~= next);
    } else {
        assert(next =~= cards);
    }
}

/// Draw the page. `colours` holds, for each row, the colour that its stored text stands
/// for, if it stands for one.
fn draw_content(
    ops: &mut Vec<Op>,
    layout: &Layout,
    metrics: &Metrics,
    palette: &Palette,
    values: &Node,
    colours: &Vec<Option<Rgb>>,
    interaction: &Interaction,
    status: &StatusText,
    measured: &Measured,
)
    requires
        drawable_cards(layout.content@.cards),
        measured.wf(),
        colours@.len() == layout.content@.rows().len(),
    ensures
        op_models(final(ops)@) == op_models(old(ops)@) + content_ops(
            layout.content@,
            layout.nav@,
            *metrics,
            *palette,
            values.model(),
            colours@,
            *interaction,
            *status,
            *measured,
        ),
{
    let ghost start = op_models(ops@);
    let ghost m = *metrics;
    let ghost p = *palette;
    let ghost page = layout.content@;
    let ghost cards = page.cards;
    let title_format: TextStyle = TextStyle {
        size: metrics.px(19_000),
        semi_bold: true,
        centred: false,
    };
    let hint_format: TextStyle = TextStyle {
        size: metrics.px(11_500),
        semi_bold: false,
        centred: false,
    };
    // The section's own heading, where the layout put it.
    text_in(
        ops,
        layout.content.title,
        current_section_title(layout),
        title_format,
        palette.text,
    );
    // The section's own explanation, in the space that the layout reserved for it.
    if !layout.content.description.is_empty() {
        push_op(
            ops,
            Op::Wrapped(
                layout.content.description,
                current_section_description(layout),
                hint_format,
                palette.text_faint,
            ),
        );
    }
    let ghost headed = op_models(ops@);
    let total: usize = colours.len();
    let mut row_index: usize = 0;
    let mut k: usize = 0;
    assert(cards.take(0) =~= Seq::<CardLayout>::empty());
    assert(headed + Seq::<OpModel>::empty() =~= headed);
    while k < layout.content.cards.len()
        invariant
            page == layout.content@,
            cards == page.cards,
            cards.len() == layout.content.cards@.len(),
            drawable_cards(cards),
            measured.wf(),
            m == *metrics,
            p == *palette,
            total == colours@.len() == row_count(cards),
            0 <= k <= cards.len(),
            row_index == row_count(cards.take(k as int)),
            op_models(ops@) == headed + cards_ops(
                cards.take(k as int),
                m,
                p,
                values.model(),
                colours@,
                *interaction,
                *status,
                *measured,
            ),
        decreases cards.len() - k,
    {
        let ghost before = op_models(ops@);
        let ghost card = layout.content.cards@[k as int]@;
        let ghost from = row_index as int;
        proof {
            lemma_row_count(cards, k as int);
            assert(cards[k as int] == card);
        }
        push_op(
            ops,
            Op::FillRounded(layout.content.cards[k].rect, metrics.px(8_000), palette.card),
        );
        push_op(
            ops,
            Op::StrokeRounded(
                layout.content.cards[k].rect,
                metrics.px(8_000),
                palette.card_border,
                PIXEL,
            ),
        );
        match layout.content.cards[k].heading {
            Some(title) => {
                text_in(
                    ops,
                    layout.content.cards[k].title,
                    title,
                    small_text(metrics),
                    palette.text_dim,
                );
            },
            None => {},
        }
        let ghost panelled = op_models(ops@);
        assert(panelled =~= before + panel_ops(card, m, p));
        let mut j: usize = 0;
        assert(panelled + Seq::<OpModel>::empty() =~= panelled);
        while j < layout.content.cards[k].rows.len()
            invariant
                k < layout.content.cards@.len(),
                page == layout.content@,
                cards == page.cards,
                cards.len() == layout.content.cards@.len(),
                card == layout.content.cards@[k as int]@,
                cards[k as int] == card,
                drawable_cards(cards),
                measured.wf(),
                m == *metrics,
                p == *palette,
                total == colours@.len() == row_count(cards),
                from + card.rows.len() <= row_count(cards),
                0 <= j <= card.rows.len(),
                row_index == from + j,
                op_models(ops@) == panelled + rows_ops(
                    card.rows,
                    from,
                    j as nat,
                    m,
                    p,
                    values.model(),
                    colours@,
                    *interaction,
                    *status,
                    *measured,
                ),
            decreases card.rows.len() - j,
        {
            assert(drawable_row(cards[k as int].rows[j as int]));
            let ghost so_far = op_models(ops@);
            draw_row(
                ops,
                &layout.content.cards[k].rows[j],
                row_index,
                metrics,
                palette,
                values,
                colours,
                interaction,
                status,
                measured,
            );
            let ghost this = row_ops(
                card.rows[j as int],
                row_index as int,
                m,
                p,
                values.model(),
                colours@,
                *interaction,
                *status,
                *measured,
            );
            let ghost rows_before = rows_ops(
                card.rows,
                from,
                j as nat,
                m,
                p,
                values.model(),
                colours@,
                *interaction,
                *status,
                *measured,
            );
            assert((panelled + rows_before) + this =~= panelled + (rows_before + this));
            row_index = row_index + 1;
            j = j + 1;
        }
        proof {
            let next = cards.take(k + 1);
            assert(next.drop_last() =~= cards.take(k as int));
            assert(next.last() == card);
            let done = cards_ops(
                cards.take(k as int),
                m,
                p,
                values.model(),
                colours@,
                *interaction,
                *status,
                *measured,
            );
            let rows = rows_ops(
                card.rows,
                from,
                card.rows.len(),
                m,
                p,
                values.model(),
                colours@,
                *interaction,
                *status,
                *measured,
            );
            assert(((headed + done) + panel_ops(card, m, p)) + rows =~= headed + (done + panel_ops(
                card,
                m,
                p,
            ) + rows));
        }
        k = k + 1;
    }
    proof {
        assert(cards.take(k as int) =~= cards);
        assert(op_models(ops@) =~= start + content_ops(
            page,
            layout.nav@,
            m,
            p,
            values.model(),
            colours@,
            *interaction,
            *status,
            *measured,
        ));
    }
}

/// Where a palette `height` tall appears that belongs to a control: above it where the
/// window has the room, and below it otherwise.
pub open spec fn popup_top(control: Rect, height: int, m: Metrics) -> int {
    if control.top > height {
        control.top - m.at(2_000) - height
    } else {
        control.bottom + m.at(2_000)
    }
}

/// Where a list `height` tall appears that belongs to a control: below it, or above it when
/// there is not enough room down to `bottom`.
pub open spec fn list_top(control: Rect, height: int, bottom: int, m: Metrics) -> int {
    let below = control.bottom + m.at(2_000);
    if below + height <= bottom {
        below
    } else {
        control.top - m.at(2_000) - height
    }
}

/// The list of a dropdown with so many entries, on a page that ends at `bottom`.
pub open spec fn list_rect(control: Rect, entries: int, bottom: int, m: Metrics) -> Option<Rect> {
    let height = entries * m.at(26_000) + m.at(6_000);
    if height <= 0 {
        None
    } else {
        let top = list_top(control, height, bottom, m);
        Some(rect(control.left as int, top, control.right as int, top + height))
    }
}

/// The tallest list that can be placed, in ticks.
pub const LIST_REACH: i64 = 0x0300_0000_0000_0000;

/// Where the list of a dropdown appears, and how tall it is: below the box, or above it when
/// there is not enough room down to `bottom`.
pub fn dropdown_rect(row: &Row, entries: usize, bottom: i64, metrics: &Metrics) -> (r: Option<Rect>)
    requires
        drawable(row.control),
        entries * metrics.at(26_000) <= LIST_REACH,
    ensures
        r == list_rect(row.control, entries as int, bottom as int, *metrics),
        r is Some ==> r->0.wf() && -0x0C00_0000_0000_0000 <= r->0.top <= r->0.bottom
            <= 0x0C00_0000_0000_0000,
{
    let entry: i64 = metrics.px(26_000);
    if entry == 0 {
        assert(entries * metrics.at(26_000) + metrics.at(6_000) == 0) by (nonlinear_arith)
            requires
                metrics.at(26_000) == 26_000 * metrics.dpi,
                metrics.at(6_000) == 6_000 * metrics.dpi,
                metrics.at(26_000) == 0,
        ;
        return None;
    }
    assert(entries <= entries * entry) by (nonlinear_arith)
        requires
            0 <= entries,
            1 <= entry,
    ;
    let height: i64 = entries as i64 * entry + metrics.px(6_000);
    let below: i64 = row.control.bottom + metrics.px(2_000);
    let above: i64 = row.control.top - metrics.px(2_000) - height;
    let top: i64 = if below + height <= bottom {
        below
    } else {
        above
    };
    Some(Rect::new(row.control.left, top, row.control.right, top + height))
}

/// A list of a few entries can always be placed.
pub proof fn a_short_list_fits(entries: int, m: Metrics)
    requires
        0 <= entries <= 100,
    ensures
        entries * m.at(26_000) <= LIST_REACH,
{
    assert(entries * m.at(26_000) <= 100 * (26_000 * 0xffff_ffff)) by (nonlinear_arith)
        requires
            0 <= entries <= 100,
            m.at(26_000) == 26_000 * m.dpi,
            0 <= m.dpi <= 0xffff_ffff,
    ;
}

/// The entries of an open dropdown.
pub open spec fn entry_rect(list: Rect, i: int, m: Metrics) -> Rect {
    rect(
        list.left as int,
        list.top + i * m.at(26_000),
        list.right as int,
        list.top + (i + 1) * m.at(26_000),
    )
}

/// One entry: marked while the pointer is on it, and, separately, while it is what the
/// setting is set to, with a tick.
pub open spec fn entry_ops(
    entry: Rect,
    label: Seq<char>,
    highlighted: bool,
    chosen: bool,
    m: Metrics,
    p: Palette,
) -> Seq<OpModel> {
    let cx = entry.right - m.at(14_000);
    let cy = entry.middle();
    (if highlighted {
        seq![OpModel::FillRect(entry.shrunk(m.at(3_000), 0), p.accent.with_alpha(18))]
    } else {
        Seq::<OpModel>::empty()
    }) + (if chosen {
        seq![OpModel::FillRect(entry.shrunk(m.at(3_000), 0), p.accent.with_alpha(10))]
    } else {
        Seq::<OpModel>::empty()
    }) + text_ops(
        entry.shrunk(m.at(10_000), 0),
        label,
        small_style(m),
        if chosen {
            p.accent
        } else {
            p.text
        },
    ) + (if chosen {
        seq![
            OpModel::Tick(
                ((cx - m.at(3_200)) as i64, cy as i64),
                ((cx - m.at(600)) as i64, (cy + m.at(2_800)) as i64),
                ((cx + m.at(4_000)) as i64, (cy - m.at(3_200)) as i64),
                p.accent,
                m.at(1_600) as i64,
            ),
        ]
    } else {
        Seq::<OpModel>::empty()
    })
}

/// The first `n` entries of an open dropdown.
pub open spec fn entries_ops(
    list: Rect,
    choices: Seq<Choice>,
    highlight: int,
    current: Seq<char>,
    n: nat,
    m: Metrics,
    p: Palette,
) -> Seq<OpModel>
    decreases n,
{
    if n == 0 {
        Seq::empty()
    } else {
        entries_ops(list, choices, highlight, current, (n - 1) as nat, m, p) + entry_ops(
            entry_rect(list, n - 1, m),
            choices[n - 1].label@,
            highlight == n - 1,
            choices[n - 1].value@ == current,
            m,
            p,
        )
    }
}

/// An open dropdown, drawn over the page.
pub open spec fn dropdown_ops(
    row: Row,
    highlight: int,
    current: Seq<char>,
    bottom: int,
    m: Metrics,
    p: Palette,
) -> Seq<OpModel> {
    match row.field.kind {
        Kind::Select(list) => match list_rect(row.control, list.list().len() as int, bottom, m) {
            Some(r) => seq![
                OpModel::FillRounded(r, m.at(6_000) as i64, p.card),
                OpModel::StrokeRounded(r, m.at(6_000) as i64, p.control_border, PIXEL),
            ] + entries_ops(r, list.list(), highlight, current, list.list().len(), m, p),
            None => Seq::empty(),
        },
        _ => Seq::empty(),
    }
}

fn draw_entry(
    ops: &mut Vec<Op>,
    entry: &Rect,
    label: &str,
    highlighted: bool,
    chosen: bool,
    metrics: &Metrics,
    palette: &Palette,
)
    requires
        entry.wf(),
    ensures
        op_models(final(ops)@) == op_models(old(ops)@) + entry_ops(
            *entry,
            label@,
            highlighted,
            chosen,
            *metrics,
            *palette,
        ),
{
    if highlighted {
        push_op(
            ops,
            Op::FillRect(entry.inset(metrics.px(3_000), 0), palette.accent.with_alpha(18)),
        );
    }
    if chosen {
        push_op(
            ops,
            Op::FillRect(entry.inset(metrics.px(3_000), 0), palette.accent.with_alpha(10)),
        );
    }
    let colour: Rgba = if chosen {
        palette.accent
    } else {
        palette.text
    };
    text_in(ops, entry.inset(metrics.px(10_000), 0), label, small_text(metrics), colour);
    if chosen {
        // A tick, because the accent alone would also be a hover colour as soon as the
        // pointer is on another entry.
        let cx: i64 = entry.right - metrics.px(14_000);
        let cy: i64 = entry.center_y();
        push_op(
            ops,
            Op::Tick(
                (cx - metrics.px(3_200), cy),
                (cx - metrics.px(600), cy + metrics.px(2_800)),
                (cx + metrics.px(4_000), cy - metrics.px(3_200)),
                palette.accent,
                metrics.px(1_600),
            ),
        );
    }
    assert(op_models(ops@) =~= op_models(old(ops)@) + entry_ops(
        *entry,
        label@,
        highlighted,
        chosen,
        *metrics,
        *palette,
    ));
}

fn draw_dropdown(
    ops: &mut Vec<Op>,
    row: &Row,
    metrics: &Metrics,
    palette: &Palette,
    highlight: usize,
    current: &str,
    bottom: i64,
)
    requires
        drawable(row.control),
    ensures
        op_models(final(ops)@) == op_models(old(ops)@) + dropdown_ops(
            *row,
            highlight as int,
            current@,
            bottom as int,
            *metrics,
            *palette,
        ),
{
    let ghost before = op_models(ops@);
    let ghost m = *metrics;
    let ghost p = *palette;
    match row.field.kind {
        Kind::Select(list) => {
            let choices: &'static [Choice] = list.choices();
            proof {
                a_short_list_fits(choices@.len() as int, m);
            }
            match dropdown_rect(row, choices.len(), bottom, metrics) {
                Some(r) => {
                    push_op(ops, Op::FillRounded(r, metrics.px(6_000), palette.card));
                    push_op(
                        ops,
                        Op::StrokeRounded(r, metrics.px(6_000), palette.control_border, PIXEL),
                    );
                    let ghost framed = op_models(ops@);
                    let row_height: i64 = metrics.px(26_000);
                    let mut i: usize = 0;
                    assert(framed + Seq::<OpModel>::empty() =~= framed);
                    while i < choices.len()
                        invariant
                            r.wf(),
                            m == *metrics,
                            p == *palette,
                            choices@ == list.list(),
                            choices@.len() <= 6,
                            row_height == m.at(26_000),
                            0 <= row_height <= 26_000 * 0xffff_ffff,
                            r.bottom <= 0x0C00_0000_0000_0000,
                            r.top >= -0x0C00_0000_0000_0000,
                            r.top <= r.bottom,
                            0 <= i <= choices@.len(),
                            op_models(ops@) == framed + entries_ops(
                                r,
                                list.list(),
                                highlight as int,
                                current@,
                                i as nat,
                                m,
                                p,
                            ),
                        decreases choices@.len() - i,
                    {
                        let at: i64 = i as i64;
                        assert(0 <= at * row_height <= 7 * (26_000 * 0xffff_ffff) && 0 <= (at + 1)
                            * row_height <= 7 * (26_000 * 0xffff_ffff)) by (nonlinear_arith)
                            requires
                                0 <= at < 6,
                                0 <= row_height <= 26_000 * 0xffff_ffff,
                        ;
                        let entry: Rect = Rect::new(
                            r.left,
                            r.top + at * row_height,
                            r.right,
                            r.top + (at + 1) * row_height,
                        );
                        let choice: Choice = choices[i];
                        let chosen: bool = same_text(choice.value, current);
                        let ghost so_far = op_models(ops@);
                        draw_entry(
                            ops,
                            &entry,
                            choice.label,
                            highlight == i,
                            chosen,
                            metrics,
                            palette,
                        );
                        proof {
                            let done = entries_ops(
                                r,
                                list.list(),
                                highlight as int,
                                current@,
                                i as nat,
                                m,
                                p,
                            );
                            let this = entry_ops(
                                entry_rect(r, i as int, m),
                                choices@[i as int].label@,
                                highlight == i,
                                choices@[i as int].value@ == current@,
                                m,
                                p,
                            );
                            assert((framed + done) + this =~= framed + (done + this));
                        }
                        i = i + 1;
                    }
                    assert(op_models(ops@) =~= before + dropdown_ops(
                        *row,
                        highlight as int,
                        current@,
                        bottom as int,
                        m,
                        p,
                    ));
                },
                None => {
                    assert(before + Seq::<OpModel>::empty() =~= before);
                },
            }
        },
        _ => {
            assert(before + Seq::<OpModel>::empty() =~= before);
        },
    }
}

/// The grid of a colour palette. Lengths are in ticks.
pub struct SwatchGrid {
    pub rows: usize,
    pub columns: usize,
    pub cell: i64,
    pub gap: i64,
    /// The room around the cells.
    pub padding: i64,
    /// The colours, row by row.
    pub colors: Vec<Rgb>,
}

/// How many cells a side of the grid may have.
pub const GRID_SIDE: usize = 1_000;

/// How long a side of a cell, a gap or the padding may be, in ticks.
pub const CELL_REACH: i64 = 0x1_0000_0000_0000;

impl SwatchGrid {
    pub open spec fn wf(&self) -> bool {
        &&& 0 < self.rows <= GRID_SIDE
        &&& 0 < self.columns <= GRID_SIDE
        &&& 0 < self.cell <= CELL_REACH
        &&& 0 <= self.gap <= CELL_REACH
        &&& 0 <= self.padding <= CELL_REACH
        &&& self.colors@.len() == self.rows * self.columns
    }

    /// The distance from one cell to the next.
    pub open spec fn stride(&self) -> int {
        self.cell + self.gap
    }

    /// How long a side with so many cells is.
    pub open spec fn side(&self, cells: int) -> int {
        cells * self.cell + (cells - 1) * self.gap + 2 * self.padding
    }
}

fn grid_side(grid: &SwatchGrid, cells: usize) -> (r: i64)
    requires
        grid.wf(),
        0 < cells <= GRID_SIDE,
    ensures
        r == grid.side(cells as int),
        0 < r <= 0x1000_0000_0000_0000,
{
    let n: i64 = cells as i64;
    assert(0 < n * grid.cell <= 1_000 * 0x1_0000_0000_0000 && 0 <= (n - 1) * grid.gap <= 1_000
        * 0x1_0000_0000_0000) by (nonlinear_arith)
        requires
            0 < n <= 1_000,
            0 < grid.cell <= 0x1_0000_0000_0000,
            0 <= grid.gap <= 0x1_0000_0000_0000,
    ;
    n * grid.cell + (n - 1) * grid.gap + grid.padding * 2
}

/// The size of the palette, from the grid that it holds.
pub fn color_popup_size(grid: &SwatchGrid) -> (r: (i64, i64))
    requires
        grid.wf(),
    ensures
        r.0 == grid.side(grid.columns as int),
        r.1 == grid.side(grid.rows as int),
        0 < r.0 <= 0x1000_0000_0000_0000,
        0 < r.1 <= 0x1000_0000_0000_0000,
{
    (grid_side(grid, grid.columns), grid_side(grid, grid.rows))
}

/// Where the palette of a control appears: at the trailing edge of its column, grown
/// leftwards, but not past the left edge of the window.
pub open spec fn popup_rect(control: Rect, grid: SwatchGrid, m: Metrics) -> Rect {
    let width = grid.side(grid.columns as int);
    let height = grid.side(grid.rows as int);
    let top = popup_top(control, height, m);
    rect(larger(control.right - width, 0), top, control.right as int, top + height)
}

/// Where the palette of a colour swatch appears. Only a palette with no area has no place,
/// and a grid always has an area.
pub fn color_popup_rect(row: &Row, grid: &SwatchGrid, metrics: &Metrics) -> (r: Option<Rect>)
    requires
        drawable(row.control),
        grid.wf(),
    ensures
        r == Some(popup_rect(row.control, *grid, *metrics)),
{
    let (width, height): (i64, i64) = color_popup_size(grid);
    if width <= 0 || height <= 0 {
        return None;
    }
    let below: i64 = row.control.bottom + metrics.px(2_000);
    let top: i64 = if row.control.top > height {
        row.control.top - metrics.px(2_000) - height
    } else {
        below
    };
    let right: i64 = row.control.right;
    Some(Rect::new(max(right - width, 0), top, right, top + height))
}

/// The rectangle of one palette cell.
pub open spec fn cell_rect(popup: Rect, row: int, column: int, grid: SwatchGrid) -> Rect {
    let left = popup.left + grid.padding + column * grid.stride();
    let top = popup.top + grid.padding + row * grid.stride();
    rect(left, top, left + grid.cell, top + grid.cell)
}

/// The rectangle of one palette cell: the single place where the cells are positioned, so
/// that the painter and the hit tester cannot disagree about where a colour is.
pub fn swatch_cell_rect(popup: &Rect, row: usize, column: usize, grid: &SwatchGrid) -> (r: Rect)
    requires
        popup.wf(),
        grid.wf(),
        row < grid.rows,
        column < grid.columns,
    ensures
        r == cell_rect(*popup, row as int, column as int, *grid),
{
    let stride: i64 = grid.cell + grid.gap;
    let (i, j): (i64, i64) = (row as i64, column as i64);
    assert(0 <= i * stride <= 1_000 * 0x2_0000_0000_0000 && 0 <= j * stride <= 1_000
        * 0x2_0000_0000_0000) by (nonlinear_arith)
        requires
            0 <= i <= 1_000,
            0 <= j <= 1_000,
            0 <= stride <= 0x2_0000_0000_0000,
    ;
    let left: i64 = popup.left + grid.padding + j * stride;
    let top: i64 = popup.top + grid.padding + i * stride;
    Rect::new(left, top, left + grid.cell, top + grid.cell)
}

/// The palette cell that a point is on. The gaps between cells are not cells: a click
/// that lands in one is a miss rather than a guess at the nearest colour.
pub open spec fn cell_at(popup: Rect, x: int, y: int, grid: SwatchGrid) -> Option<(int, int)> {
    let dx = x - (popup.left + grid.padding);
    let dy = y - (popup.top + grid.padding);
    let column = dx / grid.stride();
    let row = dy / grid.stride();
    if dx < 0 || dy < 0 || column >= grid.columns || row >= grid.rows {
        None
    } else if dx - column * grid.stride() > grid.cell || dy - row * grid.stride() > grid.cell {
        None
    } else {
        Some((row, column))
    }
}

/// Which palette cell `(x, y)` is on, if any.
pub fn swatch_at(popup: &Rect, x: i64, y: i64, grid: &SwatchGrid) -> (r: Option<(usize, usize)>)
    requires
        popup.wf(),
        near(x as int),
        near(y as int),
        grid.wf(),
    ensures
        match cell_at(*popup, x as int, y as int, *grid) {
            Some(cell) => r matches Some(at) && at.0 == cell.0 && at.1 == cell.1,
            None => r is None,
        },
        r matches Some(at) ==> at.0 < grid.rows && at.1 < grid.columns,
{
    let stride: i64 = grid.cell + grid.gap;
    let offset_x: i64 = x - (popup.left + grid.padding);
    let offset_y: i64 = y - (popup.top + grid.padding);
    if offset_x < 0 || offset_y < 0 {
        return None;
    }
    let column: i64 = offset_x / stride;
    let row: i64 = offset_y / stride;
    if column >= grid.columns as i64 || row >= grid.rows as i64 {
        return None;
    }
    assert(0 <= column * stride <= offset_x && 0 <= row * stride <= offset_y) by (nonlinear_arith)
        requires
            column == offset_x / stride,
            row == offset_y / stride,
            offset_x >= 0,
            offset_y >= 0,
            stride > 0,
    ;
    if offset_x - column * stride > grid.cell || offset_y - row * stride > grid.cell {
        return None;
    }
    Some((row as usize, column as usize))
}

/// A swatch is hit where it is drawn: every point of a cell is on that cell.
pub proof fn a_swatch_is_hit_where_it_is_drawn(
    popup: Rect,
    grid: SwatchGrid,
    row: int,
    column: int,
    x: int,
    y: int,
)
    requires
        popup.wf(),
        grid.wf(),
        0 <= row < grid.rows,
        0 <= column < grid.columns,
        cell_rect(popup, row, column, grid).holds(x, y),
    ensures
        cell_at(popup, x, y, grid) == Some((row, column)),
{
    let stride = grid.stride();
    assert(0 <= row * stride <= 1_000 * 0x2_0000_0000_0000 && 0 <= column * stride <= 1_000
        * 0x2_0000_0000_0000) by (nonlinear_arith)
        requires
            0 <= row < 1_000,
            0 <= column < 1_000,
            0 <= stride <= 0x2_0000_0000_0000,
    ;
    let dx = x - (popup.left + grid.padding);
    let dy = y - (popup.top + grid.padding);
    assert(dx / stride == column) by (nonlinear_arith)
        requires
            column * stride <= dx < column * stride + grid.cell,
            grid.cell <= stride,
            stride > 0,
    ;
    assert(dy / stride == row) by (nonlinear_arith)
        requires
            row * stride <= dy < row * stride + grid.cell,
            grid.cell <= stride,
            stride > 0,
    ;
}

/// A gap between two cells, and the padding before the first, belong to no cell.
pub proof fn the_gaps_are_misses(popup: Rect, grid: SwatchGrid, x: int, y: int, column: int)
    requires
        grid.wf(),
        0 <= column < grid.columns,
        ({
            let dx = x - (popup.left + grid.padding);
            dx < 0 || column * grid.stride() + grid.cell < dx < (column + 1) * grid.stride()
        }),
    ensures
        cell_at(popup, x, y, grid) is None,
{
    let stride = grid.stride();
    let dx = x - (popup.left + grid.padding);
    if dx >= 0 {
        assert(dx / stride == column) by (nonlinear_arith)
            requires
                column * stride <= dx < (column + 1) * stride,
                stride > 0,
                0 <= column * stride,
        ;
    }
}

/// How a cell is marked: under the pointer, as what is stored, or not at all.
pub open spec fn cell_border(highlighted: bool, current: bool, p: Palette) -> (Rgba, i64) {
    if highlighted {
        (p.text, 192_000)
    } else if current {
        (p.text, 144_000)
    } else {
        (p.card_border, PIXEL)
    }
}

/// One cell of the palette.
pub open spec fn cell_ops(
    popup: Rect,
    grid: SwatchGrid,
    row: int,
    column: int,
    highlight: Option<(usize, usize)>,
    current: Option<Rgb>,
    m: Metrics,
    p: Palette,
) -> Seq<OpModel> {
    let colour = grid.colors@[row * grid.columns + column];
    let cell = cell_rect(popup, row, column, grid);
    let (border, width) = cell_border(
        highlight matches Some(at) && at.0 == row && at.1 == column,
        current == Some(colour),
        p,
    );
    seq![
        OpModel::FillRounded(cell, m.at(3_000) as i64, Rgba::from_color(colour)),
        OpModel::StrokeRounded(cell, m.at(3_000) as i64, border, width),
    ]
}

/// The first `n` cells of the palette, row by row.
pub open spec fn cells_ops(
    popup: Rect,
    grid: SwatchGrid,
    n: int,
    highlight: Option<(usize, usize)>,
    current: Option<Rgb>,
    m: Metrics,
    p: Palette,
) -> Seq<OpModel>
    decreases n,
{
    if n <= 0 {
        Seq::empty()
    } else {
        cells_ops(popup, grid, n - 1, highlight, current, m, p) + cell_ops(
            popup,
            grid,
            (n - 1) / grid.columns as int,
            (n - 1) % grid.columns as int,
            highlight,
            current,
            m,
            p,
        )
    }
}

/// The open palette, drawn over the page.
pub open spec fn palette_ops(
    row: Row,
    grid: SwatchGrid,
    highlight: Option<(usize, usize)>,
    current: Option<Rgb>,
    m: Metrics,
    p: Palette,
) -> Seq<OpModel> {
    let popup = popup_rect(row.control, grid, m);
    seq![
        OpModel::FillRounded(popup, m.at(6_000) as i64, p.card),
        OpModel::StrokeRounded(popup, m.at(6_000) as i64, p.control_border, PIXEL),
    ] + cells_ops(popup, grid, grid.rows * grid.columns, highlight, current, m, p)
}

fn same_color(a: Option<Rgb>, b: Rgb) -> (r: bool)
    ensures
        r == (a == Some(b)),
{
    match a {
        Some(a) => a == b,
        None => false,
    }
}

fn draw_color_popup(
    ops: &mut Vec<Op>,
    row: &Row,
    grid: &SwatchGrid,
    metrics: &Metrics,
    palette: &Palette,
    highlight: Option<(usize, usize)>,
    current: Option<Rgb>,
)
    requires
        drawable(row.control),
        grid.wf(),
        popup_rect(row.control, *grid, *metrics).wf(),
    ensures
        op_models(final(ops)@) == op_models(old(ops)@) + palette_ops(
            *row,
            *grid,
            highlight,
            current,
            *metrics,
            *palette,
        ),
{
    let ghost before = op_models(ops@);
    let ghost m = *metrics;
    let ghost p = *palette;
    let popup: Rect = match color_popup_rect(row, grid, metrics) {
        Some(popup) => popup,
        None => {
            return;
        },
    };
    push_op(ops, Op::FillRounded(popup, metrics.px(6_000), palette.card));
    push_op(ops, Op::StrokeRounded(popup, metrics.px(6_000), palette.control_border, PIXEL));
    let ghost framed = op_models(ops@);
    let total: usize = grid.colors.len();
    let mut n: usize = 0;
    let mut grid_row: usize = 0;
    assert(framed + Seq::<OpModel>::empty() =~= framed);
    while grid_row < grid.rows
        invariant
            popup.wf(),
            grid.wf(),
            m == *metrics,
            p == *palette,
            total == grid.rows * grid.columns,
            0 <= grid_row <= grid.rows,
            n == grid_row * grid.columns,
            op_models(ops@) == framed + cells_ops(
                popup,
                *grid,
                n as int,
                highlight,
                current,
                m,
                p,
            ),
        decreases grid.rows - grid_row,
    {
        let mut column: usize = 0;
        while column < grid.columns
            invariant
                popup.wf(),
                grid.wf(),
                m == *metrics,
                p == *palette,
                total == grid.rows * grid.columns,
                0 <= grid_row < grid.rows,
                0 <= column <= grid.columns,
                n == grid_row * grid.columns + column,
                op_models(ops@) == framed + cells_ops(
                    popup,
                    *grid,
                    n as int,
                    highlight,
                    current,
                    m,
                    p,
                ),
            decreases grid.columns - column,
        {
            proof {
                let (r, w, c) = (grid_row as int, grid.columns as int, column as int);
                assert(r * w + c < grid.rows * w) by (nonlinear_arith)
                    requires
                        0 <= c < w,
                        0 <= r < grid.rows,
                ;
                assert((r * w + c) / w == r && (r * w + c) % w == c) by (nonlinear_arith)
                    requires
                        0 <= c < w,
                        0 <= r,
                ;
            }
            let colour: Rgb = grid.colors[n];
            let cell: Rect = swatch_cell_rect(&popup, grid_row, column, grid);
            let ghost so_far = op_models(ops@);
            push_op(ops, Op::FillRounded(cell, metrics.px(3_000), Rgba::from_color(colour)));
            // Every cell gets an edge: without one, the white end of the grayscale row
            // disappears into a light card.
            let highlighted: bool = match highlight {
                Some(at) => at.0 == grid_row && at.1 == column,
                None => false,
            };
            let (border, width): (Rgba, i64) = if highlighted {
                (palette.text, 192_000)
            } else if same_color(current, colour) {
                (palette.text, 144_000)
            } else {
                (palette.card_border, PIXEL)
            };
            push_op(ops, Op::StrokeRounded(cell, metrics.px(3_000), border, width));
            proof {
                let done = cells_ops(popup, *grid, n as int, highlight, current, m, p);
                let this = cell_ops(
                    popup,
                    *grid,
                    grid_row as int,
                    column as int,
                    highlight,
                    current,
                    m,
                    p,
                );
                assert(op_models(ops@) =~= framed + (done + this));
            }
            n = n + 1;
            column = column + 1;
        }
        proof {
            let (r, w) = (grid_row as int, grid.columns as int);
            assert((r + 1) * w == r * w + w) by (nonlinear_arith);
        }
        grid_row = grid_row + 1;
    }
    assert(op_models(ops@) =~= before + palette_ops(*row, *grid, highlight, current, m, p));
}

/// The thumb of the scrollbar, where there is something to scroll.
pub open spec fn scrollbar_ops(thumb: Rect, scroll_max: int, p: Palette) -> Seq<OpModel> {
    if scroll_max <= 0 {
        Seq::empty()
    } else {
        seq![OpModel::FillRounded(thumb, (thumb.wide() / 2) as i64, p.text_faint.with_alpha(50))]
    }
}

fn draw_scrollbar(ops: &mut Vec<Op>, layout: &Layout, palette: &Palette)
    requires
        layout.scrollbar.wf(),
    ensures
        op_models(final(ops)@) == op_models(old(ops)@) + scrollbar_ops(
            layout.scrollbar,
            layout.scroll_max as int,
            *palette,
        ),
{
    if layout.scroll_max <= 0 {
        assert(op_models(ops@) + Seq::<OpModel>::empty() =~= op_models(ops@));
        return;
    }
    push_op(
        ops,
        Op::FillRounded(
            layout.scrollbar,
            half(layout.scrollbar.width()),
            palette.text_faint.with_alpha(50),
        ),
    );
    assert(op_models(ops@) =~= op_models(old(ops)@) + scrollbar_ops(
        layout.scrollbar,
        layout.scroll_max as int,
        *palette,
    ));
}

/// A row by its index on the page.
pub open spec fn row_of(page: Page, index: Option<usize>) -> Option<Row> {
    match index {
        Some(i) => if i < page.rows().len() {
            Some(page.rows()[i as int])
        } else {
            None
        },
        None => None,
    }
}

fn nth_row(content: &Content, index: Option<usize>) -> (r: Option<Row>)
    ensures
        r == row_of(content@, index),
{
    match index {
        Some(i) => {
            let rows: Vec<Row> = content.rows();
            if i < rows.len() {
                Some(rows[i])
            } else {
                None
            }
        },
        None => None,
    }
}

/// Can a layout be drawn?
pub open spec fn drawable_layout(layout: Layout, grid: SwatchGrid, m: Metrics) -> bool {
    &&& drawable(layout.titlebar)
    &&& layout.scrollbar.wf()
    &&& forall|i: int| 0 <= i < layout.nav@.len() ==> drawable((#[trigger] layout.nav@[i]).rect)
    &&& drawable_cards(layout.content@.cards)
    &&& forall|i: int|
        0 <= i < layout.content@.rows().len() ==> drawable(
            (#[trigger] layout.content@.rows()[i]).control,
        ) && popup_rect(layout.content@.rows()[i].control, grid, m).wf()
}

/// A frame, from back to front. The page is clipped to its viewport, so that a row that
/// scrolls up disappears under the header instead of over it; an open dropdown or palette
/// floats above everything.
pub open spec fn frame_of(
    layout: Layout,
    m: Metrics,
    p: Palette,
    values: Tree,
    colours: Seq<Option<Rgb>>,
    ui: Interaction,
    status: StatusText,
    measured: Measured,
    grid: SwatchGrid,
) -> Seq<OpModel> {
    let page = layout.content@;
    seq![
        OpModel::Clear(p.window),
        OpModel::FillRect(layout.sidebar, p.sidebar),
        OpModel::FillRect(layout.titlebar, p.titlebar),
    ] + nav_ops(layout.nav@, ui.hover_nav, layout.nav@.len(), m, p) + titlebar_ops(
        layout.titlebar,
        ui.hover_window,
        m,
        p,
    ) + seq![OpModel::PushClip(layout.viewport)] + content_ops(
        page,
        layout.nav@,
        m,
        p,
        values,
        colours,
        ui,
        status,
        measured,
    ) + seq![OpModel::PopClip] + scrollbar_ops(layout.scrollbar, layout.scroll_max as int, p) + (
    match row_of(page, ui.open_dropdown) {
        Some(row) => dropdown_ops(
            row,
            ui.dropdown_highlight as int,
            stored_text(reading(values, row.field.path@)),
            layout.viewport.bottom as int,
            m,
            p,
        ),
        None => Seq::<OpModel>::empty(),
    }) + (match row_of(page, ui.open_color) {
        Some(row) => palette_ops(
            row,
            grid,
            ui.color_highlight,
            colours[ui.open_color->0 as int],
            m,
            p,
        ),
        None => Seq::<OpModel>::empty(),
    })
}

/// Draw one frame. `colours` holds, for each row of the page, the colour that its stored
/// text stands for, if it stands for one.
#[verifier::rlimit(40)]
pub fn draw_frame(
    layout: &Layout,
    metrics: &Metrics,
    palette: &Palette,
    values: &Node,
    colours: &Vec<Option<Rgb>>,
    interaction: &Interaction,
    status: &StatusText,
    measured: &Measured,
    grid: &SwatchGrid,
) -> (r: Vec<Op>)
    requires
        drawable_layout(*layout, *grid, *metrics),
        measured.wf(),
        grid.wf(),
        colours@.len() == layout.content@.rows().len(),
    ensures
        op_models(r@) == frame_of(
            *layout,
            *metrics,
            *palette,
            values.model(),
            colours@,
            *interaction,
            *status,
            *measured,
            *grid,
        ),
{
    let ghost m = *metrics;
    let ghost p = *palette;
    let ghost page = layout.content@;
    let mut ops: Vec<Op> = Vec::new();
    assert(op_models(ops@) =~= Seq::<OpModel>::empty());
    push_op(&mut ops, Op::Clear(palette.window));
    push_op(&mut ops, Op::FillRect(layout.sidebar, palette.sidebar));
    push_op(&mut ops, Op::FillRect(layout.titlebar, palette.titlebar));
    assert(op_models(ops@) =~= seq![
        OpModel::Clear(p.window),
        OpModel::FillRect(layout.sidebar, p.sidebar),
        OpModel::FillRect(layout.titlebar, p.titlebar),
    ]);
    draw_nav(&mut ops, layout, metrics, palette, interaction);
    draw_titlebar(&mut ops, layout, metrics, palette, interaction);
    let ghost chrome = op_models(ops@);
    push_op(&mut ops, Op::PushClip(layout.viewport));
    assert(op_models(ops@) =~= chrome + seq![OpModel::PushClip(layout.viewport)]);
    draw_content(
        &mut ops,
        layout,
        metrics,
        palette,
        values,
        colours,
        interaction,
        status,
        measured,
    );
    let ghost clipped = op_models(ops@);
    push_op(&mut ops, Op::PopClip);
    assert(op_models(ops@) =~= clipped + seq![OpModel::PopClip]);
    draw_scrollbar(&mut ops, layout, palette);
    let ghost barred = op_models(ops@);
    match nth_row(&layout.content, interaction.open_dropdown) {
        Some(row) => {
            // The row's current value, so that the list can show which entry that is.
            let stored: Option<Value> = crate::settings::access::read(values, row.field.path);
            assert(drawable(page.rows()[interaction.open_dropdown->0 as int].control));
            draw_dropdown(
                &mut ops,
                &row,
                metrics,
                palette,
                interaction.dropdown_highlight,
                text_of(&stored),
                layout.viewport.bottom,
            );
        },
        None => {
            assert(barred + Seq::<OpModel>::empty() =~= barred);
        },
    }
    let ghost listed = op_models(ops@);
    match nth_row(&layout.content, interaction.open_color) {
        Some(row) => {
            let current: Option<Rgb> = match interaction.open_color {
                Some(i) => colours[i],
                None => None,
            };
            assert(drawable(page.rows()[interaction.open_color->0 as int].control));
            draw_color_popup(
                &mut ops,
                &row,
                grid,
                metrics,
                palette,
                interaction.color_highlight,
                current,
            );
        },
        None => {
            assert(listed + Seq::<OpModel>::empty() =~= listed);
        },
    }
    ops
}

/// What attaching to a window comes to.
#[derive(Clone, Copy, Debug, PartialEq, Eq, Structural)]
pub enum Attach {
    /// The target already has this size.
    Keep,
    Resize,
    /// There is no target yet.
    Create,
}

/// Attach to a window, or resize the target that is there. `current` is its size.
pub fn attach(current: Option<(u32, u32)>, width: u32, height: u32) -> (r: Attach)
    ensures
        r == (match current {
            Some(size) => if size.0 == width && size.1 == height {
                Attach::Keep
            } else {
                Attach::Resize
            },
            None => Attach::Create,
        }),
{
    match current {
        Some(size) => if size.0 == width && size.1 == height {
            Attach::Keep
        } else {
            Attach::Resize
        },
        None => Attach::Create,
    }
}

/// A frame begins by clearing the window, whatever was on it.
pub proof fn a_frame_clears_the_window(
    layout: Layout,
    m: Metrics,
    p: Palette,
    values: Tree,
    colours: Seq<Option<Rgb>>,
    ui: Interaction,
    status: StatusText,
    measured: Measured,
    grid: SwatchGrid,
)
    ensures
        frame_of(layout, m, p, values, colours, ui, status, measured, grid)[0]
            == OpModel::Clear(p.window),
{
}

/// The close button sits right of the minimise button, and neither leaves the title bar.
pub proof fn close_sits_at_the_corner(titlebar: Rect, m: Metrics)
    requires
        drawable(titlebar),
        m.dpi > 0,
    ensures
        buttons_of(titlebar, m)[0].kind == WindowButton::Close,
        buttons_of(titlebar, m)[1].rect.right < buttons_of(titlebar, m)[0].rect.left,
        buttons_of(titlebar, m)[0].rect.right <= titlebar.right,
{
    assert(0 < m.at(22_000) <= 22_000 * 0xffff_ffff && 0 < m.at(4_000) <= 4_000 * 0xffff_ffff && 0
        < m.at(10_000) <= 10_000 * 0xffff_ffff) by (nonlinear_arith)
        requires
            0 < m.dpi <= 0xffff_ffff,
    ;
}

/// The palette never runs off the left edge of the window, and ends where its control
/// column ends.
pub proof fn the_palette_stays_inside(control: Rect, grid: SwatchGrid, m: Metrics)
    requires
        drawable(control),
        grid.wf(),
        grid.side(grid.columns as int) <= 0x1000_0000_0000_0000,
    ensures
        popup_rect(control, grid, m).left >= 0,
        popup_rect(control, grid, m).right == control.right,
{
    assert(grid.side(grid.columns as int) > 0) by (nonlinear_arith)
        requires
            grid.columns >= 1,
            grid.cell > 0,
            grid.gap >= 0,
            grid.padding >= 0,
            grid.side(grid.columns as int) == grid.columns * grid.cell + (grid.columns - 1)
                * grid.gap + 2 * grid.padding,
    ;
}

/// The window buttons, in the title bar.
#[derive(Clone, Copy, Debug, PartialEq, Eq, Structural)]
pub enum WindowButton {
    Minimize,
    Close,
}

/// A switch that is on is filled with the accent and has its knob at the right end; one that is
/// off has the colour of a control and its knob at the left end.
pub proof fn a_switch_shows_its_state(r: Rect, on: bool, m: Metrics, p: Palette)
    requires
        r.wf(),
        5_000 * m.dpi <= r.bottom - r.top <= r.right - r.left,
    ensures
        ({
            let ops = switch_ops(r, on, m, p);
            &&& ops[0] matches OpModel::FillRounded(body, radius, ink) && body == r && ink == (if on {
                p.accent
            } else {
                p.control
            })
            &&& ops.last() matches OpModel::FillRounded(knob, radius, ink) && {
                &&& ink == p.on_accent
                &&& on ==> knob.right == r.right - 2_500 * m.dpi
                &&& !on ==> knob.left == r.left + 2_500 * m.dpi
                &&& knob.right - knob.left == knob.bottom - knob.top
                &&& r.left <= knob.left && knob.right <= r.right
            }
        }),
{
    assert(0 <= m.dpi <= 0xffff_ffff);
}

/// A slider is filled in proportion: from the left end of its track at the least value to the
/// right end at the greatest, and never less for more. Values beyond the ends stay there.
#[verifier::spinoff_prover]
pub proof fn a_slider_is_filled_in_proportion(track: Rect, slider: Slider, current: int, more: int)
    requires
        track.left <= track.right,
        slider.min < slider.max,
        current <= more,
    ensures
        ({
            let span = slider.max - slider.min;
            let wide = track.right - track.left;
            let end = filled_to(track, slider, current);
            &&& current <= slider.min ==> end == track.left
            &&& current >= slider.max ==> end == track.right
            &&& track.left <= end <= filled_to(track, slider, more) <= track.right
            &&& slider.min <= current <= slider.max ==> (end - track.left) * span <= wide * (current
                - slider.min) < (end - track.left) * span + span
        }),
{
    let span = slider.max - slider.min;
    let wide = track.right - track.left;
    let (a, b) = (
        crate::settings::geom::clamped(current - slider.min, 0, span),
        crate::settings::geom::clamped(more - slider.min, 0, span),
    );
    let (x, y) = (wide * a, wide * b);
    assert(0 <= x <= y <= wide * span) by (nonlinear_arith)
        requires
            x == wide * a,
            y == wide * b,
            0 <= wide,
            0 <= a <= b <= span,
    ;
    assert(0 <= x / span <= y / span <= wide && (x / span) * span <= x < (x / span) * span + span)
        by (nonlinear_arith)
        requires
            0 <= x <= y <= wide * span,
            span > 0,
    ;
    if a == 0 {
        assert(x == 0) by (nonlinear_arith)
            requires
                x == wide * a,
                a == 0,
        ;
    }
    if a == span {
        assert(x / span == wide) by (nonlinear_arith)
            requires
                x == wide * span,
                span > 0,
        ;
    }
}

/// Is there a step that draws this text?
pub open spec fn says(ops: Seq<OpModel>, text: Seq<char>) -> bool {
    exists|i: int|
        0 <= i < ops.len() && (#[trigger] ops[i] matches OpModel::Text(place, drawn, style, ink)
            && drawn == text)
}

/// A slider fills its line from the left to where its value is, in the accent colour, puts the
/// knob there and says the value.
#[verifier::spinoff_prover]
pub proof fn a_slider_says_its_value(
    track: Rect,
    readout: Rect,
    slider: Slider,
    current: int,
    m: Metrics,
    p: Palette,
)
    requires
        slider.format.rendered(current).len() > 0,
        near(filled_to(track, slider, current)),
        track.wf(),
    ensures
        ({
            let ops = slider_ops(track, readout, slider, current, m, p);
            let end = filled_to(track, slider, current);
            &&& ops[1] matches OpModel::FillRounded(line, radius, ink) && ink == p.accent && line.left
                == track.left && line.right == end
            &&& ops[0] matches OpModel::FillRounded(line, radius, ink) && ink == p.control
                && line.left == track.left && line.right == track.right
            &&& ops[2] matches OpModel::FillRounded(knob, radius, ink) && ink == p.accent
                && knob.left == end - 11_000 * m.dpi / 2 && knob.right == knob.left + 11_000 * m.dpi
            &&& says(ops, slider.format.rendered(current))
        }),
{
    assert(0 <= m.dpi <= 0xffff_ffff);
    let ops = slider_ops(track, readout, slider, current, m, p);
    let text = slider.format.rendered(current);
    assert(ops[4] matches OpModel::Text(place, drawn, style, ink) && drawn == text);
}

/// A closed dropdown says the label of the entry that is stored, or of the first entry where no
/// entry is.
pub proof fn a_dropdown_says_what_is_stored(list: Seq<Choice>, stored: Seq<char>, i: int)
    requires
        0 <= i < list.len(),
        forall|k: int| 0 <= k < i ==> (#[trigger] list[k]).value@ != stored,
    ensures
        list[i].value@ == stored ==> chosen_label(list, stored) == list[i].label@,
        i == list.len() - 1 && list[i].value@ != stored ==> chosen_label(list, stored)
            == list[0].label@,
{
    a_label_stands_beside_its_value(list, stored);
    match label_of(list, stored) {
        Some(label) => {
            let k = choose|k: int|
                #![trigger list[k]]
                0 <= k < list.len() && list[k].value@ == stored && list[k].label == label && forall|
                    j: int,
                |
                    0 <= j < k ==> (#[trigger] list[j]).value@ != stored;
            if list[i].value@ == stored {
                assert(k == i);
            }
        },
        None => {
            assert(list[i].value@ != stored);
        },
    }
}

/// The control of a row says what the row holds: a dropdown the label of its entry, a number
/// the nearest whole one with its unit, a text itself, a status what there is to report. A row
/// that is being edited says what has been typed instead, and no other row does.
#[verifier::spinoff_prover]
pub proof fn a_control_says_what_its_row_holds(
    row: Row,
    m: Metrics,
    p: Palette,
    value: Option<ValueModel>,
    colour: Option<Rgb>,
    hovered: bool,
    ui: Interaction,
    status: StatusText,
    index: int,
    measured: Measured,
)
    ensures
        ({
            let ops = control_ops(row, m, p, value, colour, hovered, ui, status, index, measured);
            let editing = ui.focused_row matches Some(at) && at == index;
            let typed = editing && ui.editing@.len() > 0;
            &&& row.field.kind is Text || row.field.kind is Number || row.field.kind is Color ==> (
            typed ==> says(ops, ui.editing@))
            &&& row.field.kind is Text || row.field.kind is Color ==> (!editing ==> (value matches Some(
                ValueModel::Text(text),
            ) ==> (text.len() > 0 ==> says(ops, text))))
            &&& row.field.kind matches Kind::Select(list) ==> (value matches Some(
                ValueModel::Text(text),
            ) ==> (chosen_label(list.list(), text).len() > 0 ==> says(
                ops,
                chosen_label(list.list(), text),
            )))
            &&& row.field.kind matches Kind::Number { min, max, suffix } ==> (value matches Some(
                ValueModel::Integer(n),
            ) ==> (!editing && -0x20_0000_0000_0000 <= n <= 0x20_0000_0000_0000 ==> says(
                ops,
                decimal(n) + " "@ + suffix@,
            )))
            &&& row.field.kind is Status ==> (row.field.kind->Status_0 is Taskbar
                && status.taskbar@.len() > 0 ==> says(ops, status.taskbar@)) && (
            row.field.kind->Status_0 is Spectrum && status.spectrum@.len() > 0 ==> says(
                ops,
                status.spectrum@,
            )) && (row.field.kind->Status_0 is Clipboard && status.clipboard@.len() > 0 ==> says(
                ops,
                status.clipboard@,
            ))
            &&& row.field.kind is Hotkey && ui.recording == Some(index as usize) && index == index
                as usize && ui.recording_text@.len() > 0 ==> says(ops, ui.recording_text@)
            &&& row.field.kind is Hotkey && ui.recording is None ==> (value matches Some(
                ValueModel::Text(text),
            ) ==> (text.len() > 0 ==> says(ops, text)))
        }),
{
    let ops = control_ops(row, m, p, value, colour, hovered, ui, status, index, measured);
    let parts = parts_of(row.field.kind, row.control, m);
    let typing = typing(ui, index);
    reveal_strlit(" ");
    match row.field.kind {
        Kind::Text { placeholder } => {
            lemma_box_says(
                frame_ops(parts.boxes[0], m, p),
                parts.boxes[0],
                stored_text(value),
                placeholder@,
                p,
                m,
                typing,
                measured.typed as int,
            );
        },
        Kind::Color => {
            let head = ops.take(
                ops.len() - box_text_ops(
                    parts.boxes[1],
                    stored_text(value),
                    Seq::<char>::empty(),
                    p,
                    m,
                    typing,
                    measured.typed as int,
                ).len(),
            );
            lemma_box_says(
                head,
                parts.boxes[1],
                stored_text(value),
                Seq::<char>::empty(),
                p,
                m,
                typing,
                measured.typed as int,
            );
            assert(ops =~= head + box_text_ops(
                parts.boxes[1],
                stored_text(value),
                Seq::<char>::empty(),
                p,
                m,
                typing,
                measured.typed as int,
            ));
        },
        Kind::Number { min, max, suffix } => {
            let number = match value {
                Some(value) => match value.number() {
                    Some(number) => number,
                    None => 0,
                },
                None => 0,
            };
            let text = decimal(held(nearest(number, ONE as int))) + " "@ + suffix@;
            lemma_box_says(
                frame_ops(parts.boxes[0], m, p),
                parts.boxes[0],
                text,
                Seq::<char>::empty(),
                p,
                m,
                typing,
                measured.typed as int,
            );
            if value is Some && value->0 is Integer {
                let n = value->0->Integer_0;
                if -0x20_0000_0000_0000 <= n <= 0x20_0000_0000_0000 {
                    small_integers_are_exact(n);
                    assert(nearest(n * 1_000_000, 1_000_000) == n);
                }
            }
        },
        Kind::Select(list) => {
            let label = chosen_label(list.list(), stored_text(value));
            if label.len() > 0 {
                assert(ops[2] matches OpModel::Text(place, drawn, style, ink) && drawn == label);
            }
        },
        Kind::Status(kind) => {
            let text = status_of(kind, status, measured).0;
            if text.len() > 0 {
                assert(ops[1] matches OpModel::Text(place, drawn, style, ink) && drawn == text);
            }
        },
        Kind::Hotkey => {
            if ui.recording == Some(index as usize) && index == index as usize
                && ui.recording_text@.len() > 0 {
                assert(ops[2] matches OpModel::Text(place, drawn, style, ink) && drawn
                    == ui.recording_text@);
            }
            if ui.recording is None && stored_text(value).len() > 0 {
                assert(ops[2] matches OpModel::Text(place, drawn, style, ink) && drawn
                    == stored_text(value));
            }
        },
        _ => {},
    }
}

proof fn lemma_box_says(
    head: Seq<OpModel>,
    r: Rect,
    stored: Seq<char>,
    placeholder: Seq<char>,
    p: Palette,
    m: Metrics,
    typing: Option<Seq<char>>,
    typed: int,
)
    ensures
        ({
            let ops = head + box_text_ops(r, stored, placeholder, p, m, typing, typed);
            &&& typing matches Some(text) ==> (text.len() > 0 ==> says(ops, text))
            &&& typing is None && stored.len() > 0 ==> says(ops, stored)
            &&& typing is None && stored.len() == 0 && placeholder.len() > 0 ==> says(
                ops,
                placeholder,
            )
        }),
{
    let tail = box_text_ops(r, stored, placeholder, p, m, typing, typed);
    let ops = head + tail;
    let at = head.len() as int;
    if tail.len() > 0 {
        assert(ops[at] == tail[0]);
    }
}

/// A status is green while it is on, amber when it warns, and dim while it is off; each kind of
/// status has its own text and tone.
pub proof fn a_tone_has_its_colour(p: Palette, status: StatusText, measured: Measured)
    ensures
        tone_colour(Tone::On, p) == p.ok,
        tone_colour(Tone::Warn, p) == p.warn,
        tone_colour(Tone::Off, p) == p.text_dim,
        status_of(StatusKind::Taskbar, status, measured).0 == status.taskbar@,
        status_of(StatusKind::Taskbar, status, measured).1 == status.taskbar_tone,
        status_of(StatusKind::Spectrum, status, measured).0 == status.spectrum@,
        status_of(StatusKind::Spectrum, status, measured).1 == status.spectrum_tone,
        status_of(StatusKind::Clipboard, status, measured).0 == status.clipboard@,
        status_of(StatusKind::Clipboard, status, measured).1 == status.clipboard_tone,
{
}

/// A hotkey field that listens has a border of two pixels in the accent colour, and one of a
/// pixel otherwise.
pub proof fn a_listening_field_is_framed(
    r: Rect,
    stored: Seq<char>,
    recorded: Seq<char>,
    m: Metrics,
    p: Palette,
)
    ensures
        hotkey_ops(r, stored, Some(recorded), m, p)[1] matches OpModel::StrokeRounded(
            frame,
            radius,
            ink,
            width,
        ) && frame == r && ink == p.accent && width == 2 * 96_000,
        hotkey_ops(r, stored, None, m, p)[1] matches OpModel::StrokeRounded(
            frame,
            radius,
            ink,
            width,
        ) && frame == r && ink == p.control_border && width == 96_000,
{
}

/// Each button is drawn in its own rectangle with its own label: a destructive one in the
/// colour of danger, any other in the accent, and washed more strongly under the pointer.
pub proof fn a_button_is_drawn_as_what_it_is(
    list: Seq<Button>,
    rects: Seq<Rect>,
    lit: Option<int>,
    n: nat,
    m: Metrics,
    p: Palette,
)
    requires
        0 < n <= list.len(),
        n <= rects.len(),
        list[n - 1].label@.len() > 0,
    ensures
        ({
            let ops = button_ops(list, rects, lit, n, m, p);
            let last = list[n - 1];
            let at = ops.len() as int;
            &&& at >= 2
            &&& ops.take(at - 2) == button_ops(list, rects, lit, (n - 1) as nat, m, p)
            &&& ops[at - 2] matches OpModel::FillRounded(body, radius, wash) && body == rects[n - 1]
                && wash.a == (if lit == Some(n - 1) {
                24int
            } else {
                14
            }) && (last.danger ==> wash.r == p.danger.r && wash.g == p.danger.g && wash.b
                == p.danger.b) && (!last.danger ==> wash.r == p.accent.r && wash.g == p.accent.g
                && wash.b == p.accent.b)
            &&& ops[at - 1] matches OpModel::Text(place, label, style, ink) && place == rects[n - 1]
                && label == last.label@ && ink == (if last.danger {
                p.danger
            } else {
                p.accent
            })
        }),
{
    let before = button_ops(list, rects, lit, (n - 1) as nat, m, p);
    let ops = button_ops(list, rects, lit, n, m, p);
    assert(ops.take(ops.len() - 2) =~= before);
}

/// The entry of the page that is shown stands out in the accent colour, the entry under the
/// pointer has a wash, and every entry says the title of its section.
pub proof fn the_shown_entry_stands_out(item: NavItem, hovered: bool, m: Metrics, p: Palette)
    requires
        item.section.title@.len() > 0,
    ensures
        ({
            let ops = nav_entry_ops(item, hovered, m, p);
            &&& says(ops, item.section.title@)
            &&& ops.last() matches OpModel::Text(place, title, style, ink) && ink == (if item.active {
                p.accent
            } else {
                p.text_dim
            })
            &&& item.active || hovered ==> ops.len() == 2 && (ops[0] matches OpModel::FillRounded(
                body,
                radius,
                wash,
            ) && (item.active ==> wash == p.accent.with_alpha(18)) && (!item.active ==> wash
                == p.hover))
            &&& !item.active && !hovered ==> ops.len() == 1
        }),
{
    let ops = nav_entry_ops(item, hovered, m, p);
    assert(ops[ops.len() - 1] matches OpModel::Text(place, title, style, ink) && title
        == item.section.title@);
}

/// The button that closes the window turns to the colour of danger under the pointer, the other
/// one only gets a wash; a button that the pointer is not on gets none.
pub proof fn the_close_button_warns(button: PositionedButton, m: Metrics, p: Palette)
    requires
        p.danger.a > 0,
    ensures
        button.kind == WindowButton::Close ==> (window_button_ops(button, true, m, p)[0] matches
            OpModel::FillRounded(body, radius, wash) && body == button.rect && wash == p.danger),
        window_button_ops(button, false, m, p) == glyph_ops(button, m, p.text_dim),
        button.kind == WindowButton::Close ==> glyph_ops(button, m, p.text_dim).len() == 2 && glyph_ops(
            button,
            m,
            p.text_dim,
        )[0] is TiltedBar && glyph_ops(button, m, p.text_dim)[1] is TiltedBar && glyph_ops(
            button,
            m,
            p.text_dim,
        )[0]->falls != glyph_ops(button, m, p.text_dim)[1]->falls,
        button.kind == WindowButton::Minimize ==> glyph_ops(button, m, p.text_dim).len() == 1
            && glyph_ops(button, m, p.text_dim)[0] is FillRect,
{
}

/// The two buttons of the title bar are twenty-two units wide and tall, in the middle of its
/// height: closing ten units from its right end, minimising four units to the left of that.
#[verifier::spinoff_prover]
pub proof fn the_window_buttons_lie_at_the_right(titlebar: Rect, m: Metrics)
    requires
        drawable(titlebar),
    ensures
        ({
            let buttons = buttons_of(titlebar, m);
            let (close, minimize) = (buttons[0], buttons[1]);
            &&& buttons.len() == 2
            &&& close.kind == WindowButton::Close && minimize.kind == WindowButton::Minimize
            &&& close.rect.right == titlebar.right - 10_000 * m.dpi
            &&& close.rect.right - close.rect.left == 22_000 * m.dpi
            &&& minimize.rect.right == close.rect.left - 4_000 * m.dpi
            &&& minimize.rect.right - minimize.rect.left == 22_000 * m.dpi
            &&& close.rect.bottom - close.rect.top == 22_000 * m.dpi
            &&& close.rect.top == minimize.rect.top && close.rect.bottom == minimize.rect.bottom
            &&& -1 <= (close.rect.top - titlebar.top) - (titlebar.bottom - close.rect.bottom) <= 1
        }),
{
    assert(0 <= m.dpi <= 0xffff_ffff);
}

/// An open list hangs two units below its box, or above it where there is no room down to the
/// bottom of the page. It is as wide as the box, twenty-six units tall for each entry and six
/// more; the entries follow one another from its top.
#[verifier::spinoff_prover]
pub proof fn a_list_hangs_at_its_box(control: Rect, entries: int, bottom: int, m: Metrics, i: int)
    requires
        drawable(control),
        m.dpi > 0,
        0 <= i < entries <= 100,
    ensures
        list_rect(control, entries, bottom, m) matches Some(r) && {
            let tall = 26_000 * (entries * m.dpi) + 6_000 * m.dpi;
            let entry = entry_rect(r, i, m);
            &&& r.left == control.left && r.right == control.right
            &&& r.bottom - r.top == tall
            &&& control.bottom + 2_000 * m.dpi + tall <= bottom ==> r.top == control.bottom + 2_000
                * m.dpi
            &&& control.bottom + 2_000 * m.dpi + tall > bottom ==> r.bottom == control.top - 2_000
                * m.dpi
            &&& entry.top == r.top + 26_000 * (i * m.dpi)
            &&& entry.bottom == entry.top + 26_000 * m.dpi
            &&& entry.left == r.left && entry.right == r.right
        },
{
    assert(0 < m.dpi <= 0xffff_ffff);
    let d = m.dpi as int;
    assert(entries * (26_000 * d) == 26_000 * (entries * d) && i * (26_000 * d) == 26_000 * (i * d)
        && (i + 1) * (26_000 * d) == 26_000 * (i * d) + 26_000 * d && 0 <= i * d <= entries * d
        <= 100 * 0xffff_ffff) by (nonlinear_arith)
        requires
            0 <= i < entries <= 100,
            0 < d <= 0xffff_ffff,
    ;
}

/// An entry of an open list says its label. The one that is set has a tick and the accent
/// colour, the one under the pointer a wash.
pub proof fn a_set_entry_is_ticked(
    entry: Rect,
    label: Seq<char>,
    highlighted: bool,
    chosen: bool,
    m: Metrics,
    p: Palette,
)
    requires
        label.len() > 0,
    ensures
        ({
            let ops = entry_ops(entry, label, highlighted, chosen, m, p);
            &&& says(ops, label)
            &&& chosen <==> ops.last() is Tick
            &&& ops.len() == 1 + (if highlighted {
                1int
            } else {
                0
            }) + (if chosen {
                2int
            } else {
                0
            })
            &&& highlighted ==> (ops[0] matches OpModel::FillRect(body, wash) && wash
                == p.accent.with_alpha(18))
            &&& !chosen ==> (ops.last() matches OpModel::Text(place, drawn, style, ink) && ink
                == p.text)
            &&& chosen ==> (ops[ops.len() - 2] matches OpModel::Text(place, drawn, style, ink) && ink
                == p.accent)
        }),
{
    let ops = entry_ops(entry, label, highlighted, chosen, m, p);
    let at = if chosen {
        ops.len() - 2
    } else {
        ops.len() - 1
    };
    assert(ops[at] matches OpModel::Text(place, drawn, style, ink) && drawn == label);
}

/// Each entry of an open list is on its own line with its own label; it is highlighted when it
/// has the highlight, and ticked when its value is the stored one.
pub proof fn entries_are_drawn_one_by_one(
    list: Rect,
    choices: Seq<Choice>,
    highlight: int,
    current: Seq<char>,
    n: nat,
    m: Metrics,
    p: Palette,
)
    requires
        0 < n <= choices.len(),
        choices[n - 1].label@.len() > 0,
    ensures
        ({
            let ops = entries_ops(list, choices, highlight, current, n, m, p);
            let before = entries_ops(list, choices, highlight, current, (n - 1) as nat, m, p);
            let own = ops.skip(before.len() as int);
            &&& ops.take(before.len() as int) == before
            &&& says(own, choices[n - 1].label@)
            &&& own.last() is Tick <==> choices[n - 1].value@ == current
            &&& own.len() == 1 + (if highlight == n - 1 {
                1int
            } else {
                0
            }) + (if choices[n - 1].value@ == current {
                2int
            } else {
                0
            })
        }),
{
    let ops = entries_ops(list, choices, highlight, current, n, m, p);
    let before = entries_ops(list, choices, highlight, current, (n - 1) as nat, m, p);
    let own = entry_ops(
        entry_rect(list, n - 1, m),
        choices[n - 1].label@,
        highlight == n - 1,
        choices[n - 1].value@ == current,
        m,
        p,
    );
    assert(ops.take(before.len() as int) =~= before);
    assert(ops.skip(before.len() as int) =~= own);
    a_set_entry_is_ticked(
        entry_rect(list, n - 1, m),
        choices[n - 1].label@,
        highlight == n - 1,
        choices[n - 1].value@ == current,
        m,
        p,
    );
}

/// A cell of the palette is filled with its own colour, row by row, and framed most strongly
/// under the pointer and next where it is the stored one.
pub proof fn a_cell_shows_its_colour(
    popup: Rect,
    grid: SwatchGrid,
    row: int,
    column: int,
    highlight: Option<(usize, usize)>,
    current: Option<Rgb>,
    m: Metrics,
    p: Palette,
)
    ensures
        ({
            let ops = cell_ops(popup, grid, row, column, highlight, current, m, p);
            let colour = grid.colors@[row * grid.columns + column];
            let lit = highlight matches Some(at) && at.0 == row && at.1 == column;
            &&& ops.len() == 2
            &&& ops[0] matches OpModel::FillRounded(cell, radius, ink) && ink.r == colour.r && ink.g
                == colour.g && ink.b == colour.b && ink.a == 100 && cell == cell_rect(
                popup,
                row,
                column,
                grid,
            )
            &&& ops[1] matches OpModel::StrokeRounded(cell, radius, ink, width) && (lit ==> ink
                == p.text && width == 192_000) && (!lit && current == Some(colour) ==> ink == p.text
                && width == 144_000) && (!lit && current != Some(colour) ==> ink == p.card_border
                && width == 96_000)
        }),
{
}

/// The scrollbar is drawn exactly where there is something to scroll.
pub proof fn a_short_page_has_no_scrollbar(bar: Rect, scroll_max: int, p: Palette)
    ensures
        scroll_max <= 0 ==> scrollbar_ops(bar, scroll_max, p).len() == 0,
        scroll_max > 0 ==> scrollbar_ops(bar, scroll_max, p).len() == 1 && (scrollbar_ops(
            bar,
            scroll_max,
            p,
        )[0] matches OpModel::FillRounded(body, radius, ink) && body == bar),
{
}

/// The heading of a page is that of the entry that is shown in the sidebar.
pub proof fn a_page_is_headed_by_its_entry(
    page: Page,
    nav: Seq<NavItem>,
    i: int,
    m: Metrics,
    p: Palette,
    values: Tree,
    colours: Seq<Option<Rgb>>,
    ui: Interaction,
    status: StatusText,
    measured: Measured,
)
    requires
        0 <= i < nav.len(),
        nav[i].active,
        forall|k: int| 0 <= k < i ==> !(#[trigger] nav[k]).active,
        nav[i].section.title@.len() > 0,
    ensures
        active_heading(nav) == Some(nav[i].section),
        content_ops(page, nav, m, p, values, colours, ui, status, measured)[0] matches OpModel::Text(
            place,
            title,
            style,
            ink,
        ) && place == page.title && title == nav[i].section.title@,
{
    lemma_active_heading(nav, i);
}

proof fn lemma_active_heading(nav: Seq<NavItem>, i: int)
    requires
        0 <= i < nav.len(),
        nav[i].active,
        forall|k: int| 0 <= k < i ==> !(#[trigger] nav[k]).active,
    ensures
        active_heading(nav) == Some(nav[i].section),
    decreases nav.len(),
{
    let before = nav.drop_last();
    if i < before.len() {
        assert forall|k: int| 0 <= k < i implies !(#[trigger] before[k]).active by {
            assert(before[k] == nav[k]);
        }
        assert(before[i] == nav[i]);
        lemma_active_heading(before, i);
    } else {
        assert forall|k: int| 0 <= k < before.len() implies !(#[trigger] before[k]).active by {
            assert(before[k] == nav[k]);
        }
        lemma_no_heading(before);
    }
}

proof fn lemma_no_heading(nav: Seq<NavItem>)
    requires
        forall|k: int| 0 <= k < nav.len() ==> !(#[trigger] nav[k]).active,
    ensures
        active_heading(nav) is None,
    decreases nav.len(),
{
    if nav.len() > 0 {
        assert forall|k: int| 0 <= k < nav.drop_last().len() implies !(
        #[trigger] nav.drop_last()[k]).active by {
            assert(nav.drop_last()[k] == nav[k]);
        }
        lemma_no_heading(nav.drop_last());
    }
}

/// A switch row shows what is stored at its own path: the last thing that is drawn of it is the
/// knob, at the right end when it is on and at the left end when it is not.
pub proof fn a_switch_row_shows_what_is_stored(
    row: Row,
    index: int,
    m: Metrics,
    p: Palette,
    values: Tree,
    colours: Seq<Option<Rgb>>,
    ui: Interaction,
    status: StatusText,
    measured: Measured,
    on: bool,
)
    requires
        row.field.kind is Switch,
        row.field.path@.len() > 0,
        reading(values, row.field.path@) == Some(ValueModel::Bool(on)),
        parts_of(row.field.kind, row.control, m).boxes.len() == 1,
        ({
            let r = parts_of(row.field.kind, row.control, m).boxes[0];
            r.wf() && 5_000 * m.dpi <= r.bottom - r.top <= r.right - r.left
        }),
    ensures
        ({
            let r = parts_of(row.field.kind, row.control, m).boxes[0];
            let ops = row_ops(row, index, m, p, values, colours, ui, status, measured);
            ops.last() matches OpModel::FillRounded(knob, radius, ink) && (on ==> knob.right == r.right
                - 2_500 * m.dpi) && (!on ==> knob.left == r.left + 2_500 * m.dpi)
        }),
{
    let r = parts_of(row.field.kind, row.control, m).boxes[0];
    a_switch_shows_its_state(r, on, m, p);
    let ops = row_ops(row, index, m, p, values, colours, ui, status, measured);
    let own = switch_ops(r, on, m, p);
    assert(ops.last() == own.last());
}

/// A row says its label, and its hint where it has one; a row that does not come first has a
/// line above it.
pub proof fn a_row_says_its_label(
    row: Row,
    index: int,
    m: Metrics,
    p: Palette,
    values: Tree,
    colours: Seq<Option<Rgb>>,
    ui: Interaction,
    status: StatusText,
    measured: Measured,
)
    requires
        row.field.label@.len() > 0,
        !row.label.void(),
    ensures
        ({
            let ops = row_ops(row, index, m, p, values, colours, ui, status, measured);
            let first = if row.divider {
                1int
            } else {
                0
            };
            &&& row.divider ==> (ops[0] matches OpModel::FillRect(line, ink) && ink == p.divider
                && line.top == row.rect.top)
            &&& ops[first] matches OpModel::Text(place, label, style, ink) && place == row.label
                && label == row.field.label@ && ink == p.text
            &&& row.field.hint matches Some(hint) ==> (!row.hint.void() ==> (ops[first + 1] matches
                OpModel::Wrapped(place, text, style, ink) && place == row.hint && text == hint@))
        }),
{
}

/// Every row of a card is drawn with its own index on the page, one after the other.
pub proof fn rows_are_drawn_one_by_one(
    rows: Seq<Row>,
    from: int,
    n: nat,
    m: Metrics,
    p: Palette,
    values: Tree,
    colours: Seq<Option<Rgb>>,
    ui: Interaction,
    status: StatusText,
    measured: Measured,
)
    requires
        0 < n <= rows.len(),
    ensures
        ({
            let ops = rows_ops(rows, from, n, m, p, values, colours, ui, status, measured);
            let before = rows_ops(
                rows,
                from,
                (n - 1) as nat,
                m,
                p,
                values,
                colours,
                ui,
                status,
                measured,
            );
            &&& ops.take(before.len() as int) == before
            &&& ops.skip(before.len() as int) == row_ops(
                rows[n - 1],
                from + n - 1,
                m,
                p,
                values,
                colours,
                ui,
                status,
                measured,
            )
        }),
{
    let ops = rows_ops(rows, from, n, m, p, values, colours, ui, status, measured);
    let before = rows_ops(rows, from, (n - 1) as nat, m, p, values, colours, ui, status, measured);
    let own = row_ops(
        rows[n - 1],
        from + n - 1,
        m,
        p,
        values,
        colours,
        ui,
        status,
        measured,
    );
    assert(ops.take(before.len() as int) =~= before);
    assert(ops.skip(before.len() as int) =~= own);
}

/// The lines of a wrapped text follow one another at a pitch of fifteen and a half units, and
/// all of them are drawn where there is room.
pub proof fn wrapped_lines_follow_each_other(r: Rect, m: Metrics, lines: nat, i: int)
    requires
        drawable(r),
        lines <= 1_000_000,
        0 <= i < line_rects(r, m, lines).len(),
    ensures
        line_rects(r, m, lines).len() <= lines,
        ({
            let line = line_rects(r, m, lines)[i];
            let pitch = 15_525 * m.dpi;
            &&& line.left == r.left && line.right == r.right
            &&& line.top == r.top + i * pitch
            &&& line.bottom == line.top + pitch
            &&& line.bottom <= r.bottom + 96_000
        }),
    decreases lines,
{
    let before = line_rects(r, m, (lines - 1) as nat);
    let pitch = 15_525 * m.dpi;
    if i < before.len() {
        wrapped_lines_follow_each_other(r, m, (lines - 1) as nat, i);
    } else {
        assert(before.len() == lines - 1);
        assert(i == lines - 1);
        let top = r.top + (lines - 1) * m.at(15_525);
        assert(0 <= (lines - 1) * pitch) by (nonlinear_arith)
            requires
                lines >= 1,
                pitch >= 0,
        ;
    }
    if before.len() > 0 && i >= before.len() {
        wrapped_lines_follow_each_other(r, m, (lines - 1) as nat, 0);
    }
}

/// What floats above the page is drawn last, and the page itself inside its viewport: a frame
/// with an open list ends with that list, and the scrollbar is drawn once the page is done.
#[verifier::spinoff_prover]
pub proof fn an_open_list_is_drawn_last(
    layout: Layout,
    m: Metrics,
    p: Palette,
    values: Tree,
    colours: Seq<Option<Rgb>>,
    ui: Interaction,
    status: StatusText,
    measured: Measured,
    grid: SwatchGrid,
    row: usize,
)
    requires
        ui.open_dropdown == Some(row),
        ui.open_color is None,
        row < layout.content@.rows().len(),
    ensures
        ({
            let ops = frame_of(layout, m, p, values, colours, ui, status, measured, grid);
            let own = layout.content@.rows()[row as int];
            let stored = match reading(values, own.field.path@) {
                Some(ValueModel::Text(text)) => text,
                _ => Seq::empty(),
            };
            let list = dropdown_ops(
                own,
                ui.dropdown_highlight as int,
                stored,
                layout.viewport.bottom as int,
                m,
                p,
            );
            ops.skip(ops.len() - list.len()) == list
        }),
{
    let ops = frame_of(layout, m, p, values, colours, ui, status, measured, grid);
    let own = layout.content@.rows()[row as int];
    let list = dropdown_ops(
        own,
        ui.dropdown_highlight as int,
        stored_text(reading(values, own.field.path@)),
        layout.viewport.bottom as int,
        m,
        p,
    );
    assert(ops.skip(ops.len() - list.len()) =~= list);
}

/// The entries of the sidebar are drawn one after the other, each highlighted when it is the one
/// under the pointer.
pub proof fn sidebar_entries_are_drawn_one_by_one(
    nav: Seq<NavItem>,
    hover: Option<usize>,
    n: nat,
    m: Metrics,
    p: Palette,
)
    requires
        0 < n <= nav.len(),
    ensures
        ({
            let ops = nav_ops(nav, hover, n, m, p);
            let before = nav_ops(nav, hover, (n - 1) as nat, m, p);
            &&& ops.take(before.len() as int) == before
            &&& ops.skip(before.len() as int) == nav_entry_ops(
                nav[n - 1],
                hover matches Some(at) && at == n - 1,
                m,
                p,
            )
        }),
{
    let ops = nav_ops(nav, hover, n, m, p);
    let before = nav_ops(nav, hover, (n - 1) as nat, m, p);
    let own = nav_entry_ops(nav[n - 1], hover matches Some(at) && at == n - 1, m, p);
    assert(ops.take(before.len() as int) =~= before);
    assert(ops.skip(before.len() as int) =~= own);
}

/// The title bar says the name of the window and ends with its two buttons, of which the one
/// under the pointer is highlighted.
pub proof fn the_title_bar_has_its_buttons(
    titlebar: Rect,
    hover: Option<WindowButton>,
    m: Metrics,
    p: Palette,
)
    ensures
        ({
            let ops = titlebar_ops(titlebar, hover, m, p);
            let buttons = buttons_of(titlebar, m);
            let close = window_button_ops(buttons[0], hover == Some(WindowButton::Close), m, p);
            let minimize = window_button_ops(
                buttons[1],
                hover == Some(WindowButton::Minimize),
                m,
                p,
            );
            &&& says(ops, "WinBeautify 设置"@)
            &&& ops.skip(1) == close + minimize
        }),
{
    reveal_strlit("WinBeautify 设置");
    let ops = titlebar_ops(titlebar, hover, m, p);
    let buttons = buttons_of(titlebar, m);
    let close = window_button_ops(buttons[0], hover == Some(WindowButton::Close), m, p);
    let minimize = window_button_ops(buttons[1], hover == Some(WindowButton::Minimize), m, p);
    assert("WinBeautify 设置"@.len() > 0);
    assert(ops[0] matches OpModel::Text(place, drawn, style, ink) && drawn
        == "WinBeautify 设置"@);
    assert(ops.skip(1) =~= close + minimize);
}

/// A card is a panel in its own colour with its title, and its rows are drawn on it.
pub proof fn a_card_is_drawn_under_its_rows(
    cards: Seq<CardLayout>,
    card: CardLayout,
    m: Metrics,
    p: Palette,
    values: Tree,
    colours: Seq<Option<Rgb>>,
    ui: Interaction,
    status: StatusText,
    measured: Measured,
)
    ensures
        panel_ops(card, m, p)[0] matches OpModel::FillRounded(body, radius, ink) && body == card.rect
            && ink == p.card,
        card.heading matches Some(title) ==> (title@.len() > 0 ==> says(
            panel_ops(card, m, p),
            title@,
        )),
        ({
            let rows = rows_ops(
                card.rows,
                crate::settings::layout::rows_of(cards).len() as int,
                card.rows.len(),
                m,
                p,
                values,
                colours,
                ui,
                status,
                measured,
            );
            cards_ops(cards.push(card), m, p, values, colours, ui, status, measured) == cards_ops(
                cards,
                m,
                p,
                values,
                colours,
                ui,
                status,
                measured,
            ) + panel_ops(card, m, p) + rows
        }),
{
    assert(cards.push(card).drop_last() =~= cards);
    if card.heading is Some && card.heading->0@.len() > 0 {
        let title = card.heading->0@;
        assert(panel_ops(card, m, p)[2] matches OpModel::Text(place, drawn, style, ink) && drawn
            == title);
    }
}

/// A status pill is as wide as its text and twenty units more, but no wider than its slot; it is
/// in the colour of its tone.
pub proof fn a_pill_fits_its_text(
    slot: Rect,
    text: Seq<char>,
    width: int,
    tone: Tone,
    m: Metrics,
    p: Palette,
)
    requires
        slot.wf(),
        slot.left <= slot.right,
        0 <= width <= REACH,
        text.len() > 0,
    ensures
        ({
            let ops = pill_ops(slot, text, width, tone, m, p);
            let room = slot.right - slot.left;
            &&& ops[0] matches OpModel::FillRounded(pill, radius, wash) && pill.left == slot.left
                && pill.top == slot.top && pill.bottom == slot.bottom && (width + 20_000 * m.dpi
                <= room ==> pill.right - pill.left == width + 20_000 * m.dpi) && (width + 20_000
                * m.dpi > room ==> pill.right == slot.right)
            &&& says(ops, text)
            &&& ops.last() matches OpModel::Text(place, drawn, style, ink) && ink == tone_colour(
                tone,
                p,
            )
        }),
{
    assert(0 <= m.dpi <= 0xffff_ffff);
    let ops = pill_ops(slot, text, width, tone, m, p);
    assert(ops[1] matches OpModel::Text(place, drawn, style, ink) && drawn == text);
}

/// A colour row fills its swatch with the colour that its text stands for, and leaves it empty
/// where that is none.
pub proof fn a_swatch_shows_the_stored_colour(
    swatch: Rect,
    hex: Rect,
    stored: Seq<char>,
    colour: Rgb,
    typing: Option<Seq<char>>,
    typed: int,
    m: Metrics,
    p: Palette,
)
    ensures
        color_ops(swatch, hex, stored, Some(colour), typing, typed, m, p)[1] matches
            OpModel::FillRounded(body, radius, ink) && ink.r == colour.r && ink.g == colour.g && ink.b
            == colour.b && ink.a == 100 && body == swatch.shrunk(3_000 * m.dpi, 3_000 * m.dpi),
        color_ops(swatch, hex, stored, None, typing, typed, m, p)[1] is StrokeRounded,
{
}

/// The palette of a swatch ends at the right edge of its row, above it where there is room for
/// it and otherwise below.
#[verifier::spinoff_prover]
pub proof fn a_palette_hangs_at_its_row(control: Rect, grid: SwatchGrid, m: Metrics)
    requires
        drawable(control),
        grid.wf(),
        popup_rect(control, grid, m).wf(),
        grid.side(grid.columns as int) <= control.right,
        grid.side(grid.rows as int) <= 0x0800_0000_0000_0000,
        0 <= grid.side(grid.columns as int),
        0 <= grid.side(grid.rows as int),
    ensures
        ({
            let popup = popup_rect(control, grid, m);
            let (wide, tall) = (
                grid.columns * grid.cell + (grid.columns - 1) * grid.gap + 2 * grid.padding,
                grid.rows * grid.cell + (grid.rows - 1) * grid.gap + 2 * grid.padding,
            );
            &&& popup.right == control.right
            &&& popup.right - popup.left == wide
            &&& popup.bottom - popup.top == tall
            &&& control.top > tall ==> popup.bottom == control.top - 2_000 * m.dpi
            &&& control.top <= tall ==> popup.top == control.bottom + 2_000 * m.dpi
        }),
{
    assert(0 <= m.dpi <= 0xffff_ffff);
}

/// A read-only row says what the host recorded for it, and a row of actions draws as many of its
/// buttons as there is room for.
pub proof fn a_read_only_row_says_what_was_recorded(
    row: Row,
    m: Metrics,
    p: Palette,
    value: Option<ValueModel>,
    colour: Option<Rgb>,
    hovered: bool,
    ui: Interaction,
    status: StatusText,
    index: int,
    measured: Measured,
    list: Seq<Button>,
    rects: Seq<Rect>,
)
    ensures
        row.field.kind matches Kind::Info(key) ==> (info_of(info_models(status.info@), key).len() > 0
            ==> says(
            control_ops(row, m, p, value, colour, hovered, ui, status, index, measured),
            info_of(info_models(status.info@), key),
        )),
        button_count(list, rects) <= list.len() && button_count(list, rects) <= rects.len(),
        button_count(list, rects) == list.len() || button_count(list, rects) == rects.len(),
        hovered ==> (ui.hover_part matches Some(Part::Button(i)) ==> lit_button(ui, hovered) == Some(
            i as int,
        )),
        !hovered ==> lit_button(ui, hovered) is None,
{
    if row.field.kind is Info {
        let text = info_of(info_models(status.info@), row.field.kind->Info_0);
        let ops = control_ops(row, m, p, value, colour, hovered, ui, status, index, measured);
        if text.len() > 0 {
            assert(ops[0] matches OpModel::Text(place, drawn, style, ink) && drawn == text);
        }
    }
}

} // verus!
