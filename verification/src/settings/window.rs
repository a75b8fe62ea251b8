//! The settings window: its state, and what input does to it.
//!
//! There is no widget tree and no retained state per control. Every event runs the same
//! three steps: ask the layout what is under the pointer, ask the controls which part of
//! that row it is, and act on the field that the row came from. What has to be done
//! outside, such as storing a value, is handed out as a list of actions, in order.

use vstd::prelude::*;
use vstd::string::StrSliceExecFns;
use vstd::string::StringExecFns;

use crate::config::Config;
use crate::geometry::{a_half_gives_its_number_back, point_of, signed_half, size_of};
use crate::settings::access::{
    a_value_of_the_same_type_comes_back, a_write_leaves_the_others, coerced, decimal_text, plain,
    plain_text, reading, segments, staged, written, Node, Tree, Value, ValueModel,
};
use crate::settings::controls::{
    a_track_maps_onto_its_range, parts, parts_of, Fraction, Part, Parts,
};
use crate::settings::geom::{clamp, clamped, larger, max, near, rect, Rect, PIXEL, REACH};
use crate::settings::layout::{
    a_hit_row_holds_the_point, every_row_comes_from_a_field, hit_nav, hit_row, is_page, layout, measures, scroll_end,
    scrolling_moves_every_row, sidebar_of, small, titlebar_of, viewport_of, Layout, Metrics,
    NavItem, Page, Row,
};
use crate::settings::paint::{
    a_short_list_fits, buttons_of, drawable, dropdown_rect, list_rect, window_buttons, Interaction,
    StatusText, WindowButton,
};
use crate::settings::palette::Palette;
use crate::settings::schema::{
    nearest, nearest_is_within_half, whole, ActionId, Choice, Kind, Section, Slider, ONE,
};
use crate::text::{
    char_of, decimal, decimals_read_back, first_line, head_line, is_control, is_scalar, number_read, push_char, push_decimal,
    the_first_line_ends_at_the_first_feed, trim, trimmed, upper, uppercase,
};

verus! {

/// Posted to make the window repaint and read the configuration again.
pub const WM_APP_REFRESH: u32 = 0x8051;

/// Posted to close the window from another thread.
pub const WM_APP_CLOSE: u32 = 0x8052;

/// The window's size limits, in logical pixels.
pub const MIN_WIDTH: i32 = 620;

pub const MIN_HEIGHT: i32 = 420;

pub const DEFAULT_WIDTH: i32 = 880;

pub const DEFAULT_HEIGHT: i32 = 620;

pub const VK_BACK: u32 = 0x08;

pub const VK_RETURN: u32 = 0x0D;

pub const VK_ESCAPE: u32 = 0x1B;

pub const VK_UP: u32 = 0x26;

pub const VK_DOWN: u32 = 0x28;

pub const VK_V: u32 = 0x56;

/// The modifier keys that are held down.
#[derive(Clone, Copy, Debug, PartialEq, Eq, Structural)]
pub struct Modifiers {
    pub control: bool,
    pub alt: bool,
    pub shift: bool,
    pub windows: bool,
}

impl Modifiers {
    /// How a key combination with these keys begins.
    pub open spec fn prefix(self) -> Seq<char> {
        (if self.control {
            "Ctrl+"@
        } else {
            Seq::empty()
        }) + (if self.alt {
            "Alt+"@
        } else {
            Seq::empty()
        }) + (if self.shift {
            "Shift+"@
        } else {
            Seq::empty()
        }) + (if self.windows {
            "Win+"@
        } else {
            Seq::empty()
        })
    }

    pub fn none() -> (r: Modifiers)
        ensures
            !r.control && !r.alt && !r.shift && !r.windows,
    {
        Modifiers { control: false, alt: false, shift: false, windows: false }
    }

    fn prefix_text(&self) -> (r: String)
        ensures
            r@ == self.prefix(),
    {
        let mut text: String = String::new();
        proof {
            reveal_strlit("");
            assert(text@ =~= Seq::<char>::empty());
        }
        if self.control {
            text.append("Ctrl+");
        }
        if self.alt {
            text.append("Alt+");
        }
        if self.shift {
            text.append("Shift+");
        }
        if self.windows {
            text.append("Win+");
        }
        assert(text@ =~= self.prefix());
        text
    }
}

/// The name of a key that can end a combination: a letter, a digit or a function key.
pub open spec fn key_name(key: u32) -> Option<Seq<char>> {
    if 0x30 <= key <= 0x39 || 0x41 <= key <= 0x5A {
        Some(seq![key as char])
    } else if 0x70 <= key <= 0x87 {
        Some("F"@ + decimal(key - 0x6F))
    } else {
        None
    }
}

/// Put the name of a key behind `out`, if it has one.
fn push_key_name(out: &mut String, key: u32) -> (r: bool)
    ensures
        r == (key_name(key) is Some),
        final(out)@ == (match key_name(key) {
            Some(name) => old(out)@ + name,
            None => old(out)@,
        }),
{
    if (0x30 <= key && key <= 0x39) || (0x41 <= key && key <= 0x5A) {
        match char_of(key) {
            Some(c) => {
                push_char(out, c);
                assert(out@ =~= old(out)@ + seq![key as char]);
            },
            None => {},
        }
        true
    } else if 0x70 <= key && key <= 0x87 {
        out.append("F");
        push_decimal(out, key as i64 - 0x6F);
        assert(out@ =~= old(out)@ + key_name(key)->0);
        true
    } else {
        false
    }
}

/// What the application makes of the text that is being typed.
#[derive(Clone, Copy, Debug, PartialEq, Eq, Structural)]
pub struct EditReading {
    /// Is it, in capital letters, a colour that the configuration takes?
    pub is_color: bool,
    /// The number that it stands for, in millionths.
    pub number: Option<i128>,
}

/// Something that the window asks for.
pub enum WindowAction {
    /// Lay the page out again, and draw it.
    Repaint,
    Minimize,
    Close,
    /// Take the pointer until the button is released.
    Capture,
    ReleaseCapture,
    /// Make settings of this tree and store them, if it can be done, and report what was
    /// stored.
    Store(Node),
    /// Run an action row button.
    Run(ActionId),
    /// Read the configuration again.
    Reload,
    /// Show the hand, or the arrow.
    Cursor(bool),
}

/// A [`WindowAction`], as a value.
#[verifier::ext_equal]
pub ghost enum Act {
    Repaint,
    Minimize,
    Close,
    Capture,
    ReleaseCapture,
    Store(Tree),
    Run(ActionId),
    Reload,
    Cursor(bool),
}

impl View for WindowAction {
    type V = Act;

    open spec fn view(&self) -> Act {
        match self {
            WindowAction::Repaint => Act::Repaint,
            WindowAction::Minimize => Act::Minimize,
            WindowAction::Close => Act::Close,
            WindowAction::Capture => Act::Capture,
            WindowAction::ReleaseCapture => Act::ReleaseCapture,
            WindowAction::Store(node) => Act::Store(node.model()),
            WindowAction::Run(action) => Act::Run(*action),
            WindowAction::Reload => Act::Reload,
            WindowAction::Cursor(hand) => Act::Cursor(*hand),
        }
    }
}

pub open spec fn acts(actions: Seq<WindowAction>) -> Seq<Act> {
    actions.map_values(|action: WindowAction| action@)
}

fn push_act(actions: &mut Vec<WindowAction>, action: WindowAction)
    ensures
        acts(final(actions)@) == acts(old(actions)@).push(action@),
{
    actions.push(action);
    assert(acts(actions@) =~= acts(old(actions)@).push(action@));
}

/// All of the window's state.
pub struct Window {
    pub config: Config,
    /// The settings, in the shape in which they are stored.
    pub values: Node,
    pub metrics: Metrics,
    pub palette: Palette,
    /// The page that is shown, by its place in the sidebar.
    pub section: usize,
    pub layout: Option<Layout>,
    pub interaction: Interaction,
    pub scroll: i64,
    pub status: StatusText,
    /// The row whose slider the pointer holds.
    pub drag_row: Option<usize>,
}

/// What input changes.
#[verifier::ext_equal]
pub ghost struct Ui {
    pub open_dropdown: Option<usize>,
    pub highlight: int,
    pub focused: Option<usize>,
    pub editing: Seq<char>,
    pub scroll: int,
    pub section: int,
    pub drag: Option<usize>,
    pub hover_row: Option<usize>,
    pub hover_part: Option<Part>,
    pub hover_nav: Option<usize>,
    pub hover_window: Option<WindowButton>,
    pub recording: Option<usize>,
    pub recorded: Seq<char>,
}

/// What input goes by.
#[verifier::ext_equal]
pub ghost struct Scene {
    /// Was the page laid out yet?
    pub laid: bool,
    pub rows: Seq<Row>,
    pub nav: Seq<NavItem>,
    pub titlebar: Rect,
    pub viewport: Rect,
    pub scrollbar: Rect,
    pub scroll_max: int,
    pub values: Tree,
    pub m: Metrics,
}

/// What input comes to: the state after it, and what has to be done.
#[verifier::ext_equal]
pub ghost struct Turn {
    pub ui: Ui,
    pub acts: Seq<Act>,
}

/// Does a slider go up, in steps?
pub open spec fn slides(kind: Kind) -> bool {
    match kind {
        Kind::Slider(slider) => slider.min <= slider.max && slider.step > 0,
        _ => true,
    }
}

/// Can a layout be acted on?
pub open spec fn usable(layout: Layout) -> bool {
    &&& drawable(layout.titlebar)
    &&& drawable(layout.viewport)
    &&& 0 <= layout.scroll_max <= REACH
    &&& forall|i: int|
        0 <= i < layout.content@.rows().len() ==> drawable(
            (#[trigger] layout.content@.rows()[i]).control,
        ) && slides(layout.content@.rows()[i].field.kind)
}

impl Window {
    pub open spec fn ui(&self) -> Ui {
        Ui {
            open_dropdown: self.interaction.open_dropdown,
            highlight: self.interaction.dropdown_highlight as int,
            focused: self.interaction.focused_row,
            editing: self.interaction.editing@,
            scroll: self.scroll as int,
            section: self.section as int,
            drag: self.drag_row,
            hover_row: self.interaction.hover_row,
            hover_part: self.interaction.hover_part,
            hover_nav: self.interaction.hover_nav,
            hover_window: self.interaction.hover_window,
            recording: self.interaction.recording,
            recorded: self.interaction.recording_text@,
        }
    }

    pub open spec fn scene(&self) -> Scene {
        match self.layout {
            Some(layout) => Scene {
                laid: true,
                rows: layout.content@.rows(),
                nav: layout.nav@,
                titlebar: layout.titlebar,
                viewport: layout.viewport,
                scrollbar: layout.scrollbar,
                scroll_max: layout.scroll_max as int,
                values: self.values.model(),
                m: self.metrics,
            },
            None => Scene {
                laid: false,
                rows: Seq::empty(),
                nav: Seq::empty(),
                titlebar: rect(0, 0, 0, 0),
                viewport: rect(0, 0, 0, 0),
                scrollbar: rect(0, 0, 0, 0),
                scroll_max: 0,
                values: self.values.model(),
                m: self.metrics,
            },
        }
    }

    pub open spec fn wf(&self) -> bool {
        &&& near(self.scroll as int)
        &&& self.layout is Some ==> usable(self.layout->0)
        &&& self.interaction.dragging_row == self.drag_row
    }

    /// Is everything but what input changes as in `other`?
    pub open spec fn kept(&self, other: Window) -> bool {
        &&& self.config == other.config
        &&& self.values == other.values
        &&& self.metrics == other.metrics
        &&& self.palette == other.palette
        &&& self.layout == other.layout
        &&& self.status == other.status
        &&& self.interaction.open_color == other.interaction.open_color
        &&& self.interaction.color_highlight == other.interaction.color_highlight
    }

    /// Where the window stands before it is shown for the first time.
    pub fn new(config: Config, values: Node, dpi: u32, system_is_light: bool) -> (r: Window)
        ensures
            r.wf(),
            r.config == config,
            r.values == values,
            r.metrics.dpi == dpi,
            r.palette == Palette::of(config, system_is_light),
            r.layout is None,
            r.ui() == (Ui {
                open_dropdown: None,
                highlight: 0,
                focused: None,
                editing: Seq::empty(),
                scroll: 0,
                section: 0,
                drag: None,
                hover_row: None,
                hover_part: None,
                hover_nav: None,
                hover_window: None,
                recording: None,
                recorded: Seq::empty(),
            }),
    {
        Window {
            palette: Palette::resolve(&config, system_is_light),
            config,
            values,
            metrics: Metrics::new(dpi),
            section: 0,
            layout: None,
            interaction: Interaction::new(),
            scroll: 0,
            status: StatusText::new(),
            drag_row: None,
        }
    }

    /// Take what the host stored, or holds now.
    pub fn stored(&mut self, config: Config, values: Node, system_is_light: bool)
        requires
            old(self).wf(),
        ensures
            final(self).wf(),
            final(self).config == config,
            final(self).values == values,
            final(self).palette == Palette::of(config, system_is_light),
            final(self).ui() == old(self).ui(),
            final(self).interaction == old(self).interaction,
            final(self).metrics == old(self).metrics,
            final(self).layout == old(self).layout,
            final(self).status == old(self).status,
    {
        self.palette = Palette::resolve(&config, system_is_light);
        self.config = config;
        self.values = values;
    }

    /// Take everything the host knows afresh.
    pub fn refresh(&mut self, config: Config, values: Node, system_is_light: bool, status: StatusText)
        requires
            old(self).wf(),
        ensures
            final(self).wf(),
            final(self).config == config,
            final(self).values == values,
            final(self).palette == Palette::of(config, system_is_light),
            final(self).status == status,
            final(self).ui() == old(self).ui(),
            final(self).interaction == old(self).interaction,
            final(self).metrics == old(self).metrics,
            final(self).layout == old(self).layout,
    {
        self.stored(config, values, system_is_light);
        self.status = status;
    }

    /// Lay the page out in a window of this size, in pixels. The scroll offset becomes the
    /// one that the layout could give.
    pub fn relayout<F: Fn(&str, i64) -> i64>(
        &mut self,
        width: u32,
        height: u32,
        section: &Section,
        measure_hint: &F,
    )
        requires
            old(self).wf(),
            measures(*measure_hint),
            small(section@),
            forall|i: int, j: int|
                0 <= i < section@.cards.len() && 0 <= j < section@.cards[i].fields.len() ==> slides(
                    (#[trigger] section@.cards[i].fields[j]).kind,
                ),
        ensures
            final(self).wf(),
            final(self).layout is Some,
            final(self).scroll == final(self).layout->0.scroll,
            final(self).config == old(self).config,
            final(self).values == old(self).values,
            final(self).metrics == old(self).metrics,
            final(self).palette == old(self).palette,
            final(self).section == old(self).section,
            final(self).interaction == old(self).interaction,
            final(self).status == old(self).status,
            final(self).drag_row == old(self).drag_row,
            ({
                let r = final(self).layout->0;
                let m = old(self).metrics;
                let w = larger(width as int, 1);
                let h = larger(height as int, 1);
                let area = rect(0, 0, w * PIXEL, h * PIXEL);
                &&& r.titlebar == titlebar_of(area, m)
                &&& r.sidebar == sidebar_of(area, m)
                &&& r.viewport == viewport_of(area, m)
                &&& exists|page: Page|
                    #[trigger] is_page(
                        page,
                        r.viewport,
                        m,
                        section@,
                        old(self).config,
                        *measure_hint,
                    ) && r.content@ == page.moved(-(r.scroll as int))
                &&& r.scroll_max == scroll_end(
                    r.viewport,
                    r.content.height as int,
                )
                &&& r.scroll == clamped(old(self).scroll as int, 0, r.scroll_max as int)
            }),
    {
        let w: i64 = max(width as i64, 1);
        let h: i64 = max(height as i64, 1);
        let area: Rect = Rect::new(0, 0, w * PIXEL, h * PIXEL);
        let next: Layout = layout(
            &area,
            &self.metrics,
            section,
            &self.config,
            self.scroll,
            measure_hint,
        );
        proof {
            let dy = -(next.scroll as int);
            let page = choose|page: Page|
                #[trigger] is_page(
                    page,
                    viewport_of(area, self.metrics),
                    self.metrics,
                    section@,
                    self.config,
                    *measure_hint,
                ) && page.wf() && next.content@ == page.moved(dy);
            scrolling_moves_every_row(page, dy);
            assert forall|i: int| 0 <= i < next.content@.rows().len() implies drawable(
                (#[trigger] next.content@.rows()[i]).control,
            ) && slides(next.content@.rows()[i].field.kind) by {
                every_row_comes_from_a_field(
                    page,
                    viewport_of(area, self.metrics),
                    self.metrics,
                    section@,
                    self.config,
                    *measure_hint,
                    i,
                );
                assert(next.content@.rows()[i] == page.rows()[i].moved(dy));
            }
        }
        self.scroll = next.scroll;
        self.layout = Some(next);
    }
}

/// What storing `value` at a row comes to: nothing, where the row has no path or does not
/// take the value.
pub open spec fn storing(scene: Scene, row: int, value: ValueModel) -> Seq<Act> {
    if row >= scene.rows.len() {
        Seq::empty()
    } else {
        let path = scene.rows[row].field.path@;
        if path.len() == 0 {
            Seq::empty()
        } else {
            match written(scene.values, path, value) {
                Some(tree) => seq![Act::Store(tree)],
                None => Seq::empty(),
            }
        }
    }
}

/// A typed number within the limits of its row, in whole units.
pub open spec fn limited(number: int, min: int, max: int) -> int {
    if max < min || number < min * ONE {
        min
    } else if number > max * ONE {
        max
    } else {
        nearest(number, ONE as int)
    }
}

/// What writing an edit back comes to, if one is in progress. A typo does not become the
/// stored colour, nor the stored number.
pub open spec fn committed(ui: Ui, scene: Scene, read: EditReading) -> Turn {
    match ui.focused {
        None => Turn { ui, acts: Seq::empty() },
        Some(row) => {
            let done = Ui { focused: None, editing: Seq::empty(), ..ui };
            let text = trimmed(ui.editing);
            if row >= scene.rows.len() {
                Turn { ui: done, acts: Seq::empty() }
            } else {
                Turn {
                    ui: done,
                    acts: match scene.rows[row as int].field.kind {
                        Kind::Color => if read.is_color {
                            storing(
                                scene,
                                row as int,
                                ValueModel::Text(text.map_values(|c: char| upper(c))),
                            )
                        } else {
                            seq![Act::Repaint]
                        },
                        Kind::Number { min, max, suffix } => match read.number {
                            Some(number) => storing(
                                scene,
                                row as int,
                                ValueModel::Integer(
                                    limited(number as int, min as int, max as int),
                                ),
                            ),
                            None => seq![Act::Repaint],
                        },
                        _ => storing(scene, row as int, ValueModel::Text(text)),
                    },
                }
            }
        },
    }
}

/// The text with which editing a value begins.
pub open spec fn edit_text(value: Option<ValueModel>) -> Seq<char> {
    match value {
        Some(ValueModel::Text(text)) => text,
        Some(ValueModel::Integer(number)) => decimal(number),
        Some(ValueModel::Float(number)) => plain(number),
        _ => Seq::empty(),
    }
}

/// What beginning to edit a row comes to. An edit in progress is written back first.
pub open spec fn begun(ui: Ui, scene: Scene, read: EditReading, row: usize) -> Turn {
    if row >= scene.rows.len() {
        Turn { ui, acts: Seq::empty() }
    } else {
        let text = edit_text(reading(scene.values, scene.rows[row as int].field.path@));
        let turn = committed(ui, scene, read);
        Turn {
            ui: Ui { focused: Some(row), editing: text, ..turn.ui },
            acts: turn.acts.push(Act::Repaint),
        }
    }
}

/// What running an action comes to. Editing closes before an action runs, so that the
/// configuration that it sees is the one on screen.
pub open spec fn running(ui: Ui, scene: Scene, read: EditReading, action: ActionId) -> Turn {
    let turn = committed(ui, scene, read);
    Turn {
        ui: turn.ui,
        acts: turn.acts + (if action == ActionId::Quit {
            seq![Act::Close]
        } else {
            Seq::<Act>::empty()
        }) + seq![Act::Run(action), Act::Reload, Act::Repaint],
    }
}

/// What choosing another page comes to: nothing, if it is the one that is shown.
pub open spec fn switched(ui: Ui, scene: Scene, read: EditReading, section: int) -> Turn {
    if ui.section == section {
        Turn { ui, acts: Seq::empty() }
    } else {
        let turn = committed(Ui { scroll: 0, ..ui }, scene, read);
        Turn { ui: Ui { section, ..turn.ui }, acts: turn.acts.push(Act::Repaint) }
    }
}

/// The value that a share of a slider's track stands for, to the nearest millionth.
pub open spec fn slid(slider: Slider, at: Fraction) -> int {
    slider.min + nearest((slider.max - slider.min) * at.numerator, at.denominator as int)
}

/// The same, snapped to the steps of the slider, so that the read-out shows the value that
/// will be stored.
pub open spec fn snapped(slider: Slider, at: Fraction) -> int {
    let steps = nearest(
        (slider.max - slider.min) * at.numerator,
        at.denominator * slider.step,
    );
    clamped(slider.min + steps * slider.step, slider.min as int, slider.max as int)
}

impl Window {
    /// The index of the row under a point, if any.
    pub open spec fn row_under(scene: Scene, x: int, y: int) -> Option<int> {
        if scene.viewport.holds(x, y) {
            hit_row(scene.rows, x, y)
        } else {
            None
        }
    }

    fn row_at(&self, x: i64, y: i64) -> (r: Option<usize>)
        ensures
            match Window::row_under(self.scene(), x as int, y as int) {
                Some(i) => r is Some && r->0 == i && 0 <= i < self.scene().rows.len(),
                None => r is None,
            },
    {
        match &self.layout {
            Some(layout) => layout.row_index_at(x, y),
            None => None,
        }
    }

    /// The row with an index.
    pub fn row(&self, index: usize) -> (r: Option<Row>)
        ensures
            r == (if index < self.scene().rows.len() {
                Some(self.scene().rows[index as int])
            } else {
                None
            }),
    {
        match &self.layout {
            Some(layout) => {
                let rows: Vec<Row> = layout.content.rows();
                if index < rows.len() {
                    Some(rows[index])
                } else {
                    None
                }
            },
            None => None,
        }
    }

    /// Ask for a value to be stored.
    fn write_value(&self, row_index: usize, value: &Value, actions: &mut Vec<WindowAction>)
        ensures
            acts(final(actions)@) == acts(old(actions)@) + storing(
                self.scene(),
                row_index as int,
                value@,
            ),
    {
        let ghost before = acts(actions@);
        match self.row(row_index) {
            Some(row) => {
                if !row.field.path.is_empty() {
                    match staged(&self.values, row.field.path, value) {
                        Some(next) => {
                            push_act(actions, WindowAction::Store(next));
                            assert(acts(actions@) =~= before + storing(
                                self.scene(),
                                row_index as int,
                                value@,
                            ));
                        },
                        None => {
                            assert(before + Seq::<Act>::empty() =~= before);
                        },
                    }
                } else {
                    assert(before + Seq::<Act>::empty() =~= before);
                }
            },
            None => {
                assert(before + Seq::<Act>::empty() =~= before);
            },
        }
    }

    /// Write an edit back, if one is in progress.
    fn commit_edit(&mut self, read: &EditReading, actions: &mut Vec<WindowAction>)
        requires
            old(self).wf(),
        ensures
            final(self).wf(),
            final(self).kept(*old(self)),
            final(self).ui() == committed(old(self).ui(), old(self).scene(), *read).ui,
            acts(final(actions)@) == acts(old(actions)@) + committed(
                old(self).ui(),
                old(self).scene(),
                *read,
            ).acts,
    {
        let ghost before = acts(actions@);
        let row_index: usize = match self.interaction.focused_row {
            Some(row) => row,
            None => {
                assert(before + Seq::<Act>::empty() =~= before);
                return;
            },
        };
        self.interaction.focused_row = None;
        let mut text: String = String::new();
        proof {
            reveal_strlit("");
            assert(text@ =~= Seq::<char>::empty());
        }
        std::mem::swap(&mut text, &mut self.interaction.editing);
        assert(self.scene() == old(self).scene());
        match self.row(row_index) {
            None => {
                assert(before + Seq::<Act>::empty() =~= before);
            },
            Some(row) => match row.field.kind {
                Kind::Color => {
                    if read.is_color {
                        let capital: String = uppercase(trim(text.as_str()));
                        self.write_value(row_index, &Value::Text(capital), actions);
                    } else {
                        push_act(actions, WindowAction::Repaint);
                        assert(before.push(Act::Repaint) =~= before + seq![Act::Repaint]);
                    }
                },
                Kind::Number { min, max, suffix } => {
                    match read.number {
                        Some(number) => {
                            let value: i64 = limit(number, min, max);
                            self.write_value(row_index, &Value::Integer(value), actions);
                        },
                        None => {
                            push_act(actions, WindowAction::Repaint);
                            assert(before.push(Act::Repaint) =~= before + seq![Act::Repaint]);
                        },
                    }
                },
                _ => {
                    let value: Value = Value::Text(trim(text.as_str()).to_owned());
                    self.write_value(row_index, &value, actions);
                },
            },
        }
    }

    /// Start editing the text of a row.
    fn begin_edit(&mut self, row_index: usize, read: &EditReading, actions: &mut Vec<WindowAction>)
        requires
            old(self).wf(),
        ensures
            final(self).wf(),
            final(self).kept(*old(self)),
            final(self).ui() == begun(old(self).ui(), old(self).scene(), *read, row_index).ui,
            acts(final(actions)@) == acts(old(actions)@) + begun(
                old(self).ui(),
                old(self).scene(),
                *read,
                row_index,
            ).acts,
    {
        let ghost before = acts(actions@);
        let row: Row = match self.row(row_index) {
            Some(row) => row,
            None => {
                assert(before + Seq::<Act>::empty() =~= before);
                return;
            },
        };
        let current: String = match crate::settings::access::read(&self.values, row.field.path) {
            Some(Value::Text(text)) => text,
            Some(Value::Integer(number)) => decimal_text(number),
            Some(Value::Float(number)) => plain_text(number),
            _ => {
                let empty: String = String::new();
                proof {
                    reveal_strlit("");
                    assert(empty@ =~= Seq::<char>::empty());
                }
                empty
            },
        };
        self.commit_edit(read, actions);
        let ghost turn = committed(old(self).ui(), old(self).scene(), *read);
        self.interaction.focused_row = Some(row_index);
        self.interaction.editing = current;
        push_act(actions, WindowAction::Repaint);
        assert((before + turn.acts).push(Act::Repaint) =~= before + turn.acts.push(Act::Repaint));
    }

    /// Run an action row button.
    fn run_action(&mut self, action: ActionId, read: &EditReading, actions: &mut Vec<WindowAction>)
        requires
            old(self).wf(),
        ensures
            final(self).wf(),
            final(self).kept(*old(self)),
            final(self).ui() == running(old(self).ui(), old(self).scene(), *read, action).ui,
            acts(final(actions)@) == acts(old(actions)@) + running(
                old(self).ui(),
                old(self).scene(),
                *read,
                action,
            ).acts,
    {
        let ghost before = acts(actions@);
        self.commit_edit(read, actions);
        if action == ActionId::Quit {
            push_act(actions, WindowAction::Close);
        }
        push_act(actions, WindowAction::Run(action));
        push_act(actions, WindowAction::Reload);
        push_act(actions, WindowAction::Repaint);
        assert(acts(actions@) =~= before + running(
            old(self).ui(),
            old(self).scene(),
            *read,
            action,
        ).acts);
    }

    /// Choose another page.
    fn switch_section(&mut self, section: usize, read: &EditReading, actions: &mut Vec<WindowAction>)
        requires
            old(self).wf(),
        ensures
            final(self).wf(),
            final(self).kept(*old(self)),
            final(self).ui() == switched(
                old(self).ui(),
                old(self).scene(),
                *read,
                section as int,
            ).ui,
            acts(final(actions)@) == acts(old(actions)@) + switched(
                old(self).ui(),
                old(self).scene(),
                *read,
                section as int,
            ).acts,
    {
        let ghost before = acts(actions@);
        if self.section == section {
            assert(before + Seq::<Act>::empty() =~= before);
            return;
        }
        self.scroll = 0;
        assert(self.scene() == old(self).scene());
        let ghost turn = committed(Ui { scroll: 0, ..old(self).ui() }, old(self).scene(), *read);
        assert(self.ui() == (Ui { scroll: 0, ..old(self).ui() }));
        self.commit_edit(read, actions);
        self.section = section;
        push_act(actions, WindowAction::Repaint);
        assert((before + turn.acts).push(Act::Repaint) =~= before + turn.acts.push(Act::Repaint));
    }
}

fn limit(number: i128, min: i64, max: i64) -> (r: i64)
    ensures
        r == limited(number as int, min as int, max as int),
{
    if max < min || number < min as i128 * 1_000_000 {
        min
    } else if number > max as i128 * 1_000_000 {
        max
    } else {
        proof {
            let n = number as int;
            assert(min * 1_000_000 <= n <= max * 1_000_000);
            if n >= 0 {
                assert(min <= (2 * n + 1_000_000) / 2_000_000 <= max);
            } else {
                assert(min <= -((2 * (-n) + 1_000_000) / 2_000_000) <= max);
            }
            assert(min <= nearest(n, ONE as int) <= max);
        }
        whole(number)
    }
}

/// The entry of the open dropdown that a point is on, with the row that it belongs to.
pub open spec fn picked(ui: Ui, scene: Scene, x: int, y: int) -> Option<(usize, int)> {
    match ui.open_dropdown {
        Some(row) => if row < scene.rows.len() {
            match scene.rows[row as int].field.kind {
                Kind::Select(list) => match list_rect(
                    scene.rows[row as int].control,
                    list.list().len() as int,
                    scene.viewport.bottom as int,
                    scene.m,
                ) {
                    Some(r) => if r.holds(x, y) {
                        Some((row, (y - r.top) / scene.m.at(26_000)))
                    } else {
                        None
                    },
                    None => None,
                },
                _ => None,
            }
        } else {
            None
        },
        None => None,
    }
}

/// The entries that the dropdown of a row offers.
pub open spec fn offered(scene: Scene, row: int) -> Seq<Choice> {
    if 0 <= row < scene.rows.len() {
        match scene.rows[row].field.kind {
            Kind::Select(list) => list.list(),
            _ => Seq::empty(),
        }
    } else {
        Seq::empty()
    }
}

/// What storing an entry of a dropdown comes to; nothing, where there is no such entry.
pub open spec fn choosing(scene: Scene, row: int, entry: int) -> Seq<Act> {
    let list = offered(scene, row);
    if 0 <= entry < list.len() {
        storing(scene, row, ValueModel::Text(list[entry].value@))
    } else {
        Seq::empty()
    }
}

/// What flipping the switch of a row comes to.
pub open spec fn flipping(scene: Scene, row: int) -> Seq<Act> {
    let path = scene.rows[row].field.path@;
    match reading(scene.values, path) {
        Some(ValueModel::Bool(on)) => match written(scene.values, path, ValueModel::Bool(!on)) {
            Some(tree) => seq![Act::Store(tree)],
            None => Seq::empty(),
        },
        _ => Seq::empty(),
    }
}

/// What a click on a part of a row comes to.
pub open spec fn acted(ui: Ui, scene: Scene, read: EditReading, row: usize, part: Part, x: int) -> Turn {
    let field = scene.rows[row as int].field;
    let nothing = Turn { ui, acts: Seq::empty() };
    match field.kind {
        Kind::Switch => Turn { ui, acts: flipping(scene, row as int) },
        Kind::Slider(slider) => match part {
            Part::SliderTrack => match parts_of(
                field.kind,
                scene.rows[row as int].control,
                scene.m,
            ).fraction(x) {
                Some(at) => Turn {
                    ui: Ui { drag: Some(row), ..ui },
                    acts: seq![Act::Capture] + storing(
                        scene,
                        row as int,
                        ValueModel::Float(slid(slider, at)),
                    ),
                },
                None => nothing,
            },
            _ => nothing,
        },
        Kind::Select(_) => Turn {
            ui: Ui { open_dropdown: Some(row), highlight: 0, ..ui },
            acts: seq![Act::Repaint],
        },
        // The swatch and the hex box both put the caret in the text, so that the value can
        // be typed or corrected by hand.
        Kind::Color => match part {
            Part::Box(_) => begun(ui, scene, read, row),
            _ => nothing,
        },
        Kind::Number { .. } => begun(ui, scene, read, row),
        Kind::Text { .. } => begun(ui, scene, read, row),
        Kind::Action(list) => match part {
            Part::Button(i) => if i < list.list().len() {
                running(ui, scene, read, list.list()[i as int].action)
            } else {
                nothing
            },
            _ => nothing,
        },
        Kind::Hotkey => listening(ui, scene, read, row),
        _ => nothing,
    }
}

/// What starting to record a key combination comes to. An edit in progress is written back
/// first.
pub open spec fn listening(ui: Ui, scene: Scene, read: EditReading, row: usize) -> Turn {
    let turn = committed(ui, scene, read);
    Turn {
        ui: Ui { recording: Some(row), recorded: Seq::empty(), ..turn.ui },
        acts: turn.acts.push(Act::Repaint),
    }
}

/// What a click on the page comes to. A click on empty space writes back any edit in
/// progress.
pub open spec fn clicked_row(ui: Ui, scene: Scene, read: EditReading, x: int, y: int) -> Turn {
    match Window::row_under(scene, x, y) {
        Some(i) => match parts_of(
            scene.rows[i].field.kind,
            scene.rows[i].control,
            scene.m,
        ).part(x, y) {
            Some(part) => acted(ui, scene, read, i as usize, part, x),
            None => committed(ui, scene, read),
        },
        None => committed(ui, scene, read),
    }
}

/// No key combination is recorded any more.
pub open spec fn unheard(ui: Ui) -> Ui {
    Ui { recording: None, recorded: Seq::empty(), ..ui }
}

/// Where a click on the track of the scrollbar scrolls to, in proportion.
pub open spec fn jumped(scene: Scene, y: int) -> int {
    let tall = larger(scene.viewport.tall(), PIXEL as int);
    clamped(y - scene.viewport.top, 0, tall) * scene.scroll_max / tall
}

/// What a left click comes to. An open dropdown swallows the next click, wherever it lands,
/// and so does a row that records a key combination.
pub open spec fn clicked(ui: Ui, scene: Scene, read: EditReading, x: int, y: int) -> Turn {
    if !scene.laid {
        clicked_row(ui, scene, read, x, y)
    } else {
        let buttons = buttons_of(scene.titlebar, scene.m);
        let closed = Ui { open_dropdown: None, ..ui };
        // The window buttons first: they sit above the page.
        if buttons[0].rect.holds(x, y) {
            Turn { ui, acts: seq![Act::Close] }
        } else if buttons[1].rect.holds(x, y) {
            Turn { ui, acts: seq![Act::Minimize] }
        } else {
            match picked(ui, scene, x, y) {
                Some(entry) => Turn {
                    ui: closed,
                    acts: choosing(scene, entry.0 as int, entry.1).push(Act::Repaint),
                },
                None => if ui.open_dropdown is Some {
                    Turn { ui: closed, acts: seq![Act::Repaint] }
                } else if ui.recording is Some {
                    Turn { ui: unheard(ui), acts: seq![Act::Repaint] }
                } else {
                    match hit_nav(scene.nav, x, y) {
                        Some(i) => switched(ui, scene, read, i),
                        None => if scene.scroll_max > 0 && scene.scrollbar.holds(x, y) {
                            Turn {
                                ui: Ui { scroll: jumped(scene, y), ..ui },
                                acts: seq![Act::Repaint],
                            }
                        } else {
                            clicked_row(ui, scene, read, x, y)
                        },
                    }
                },
            }
        }
    }
}

/// `n / d` rounded to the nearest integer, for `n` that is not negative.
fn nearest_of(n: i128, d: i128) -> (r: i128)
    requires
        0 <= n <= 0x2000_0000_0000_0000_0000_0000_0000_0000,
        0 < d <= 0x2000_0000_0000_0000_0000_0000_0000_0000,
    ensures
        r == nearest(n as int, d as int),
        0 <= r,
{
    proof {
        let (a, b) = (n as int, d as int);
        assert((2 * a + b) / (2 * b) >= 0) by (nonlinear_arith)
            requires
                0 <= a,
                0 < b,
        ;
    }
    (2 * n + d) / (2 * d)
}

fn slide(slider: &Slider, at: &Fraction) -> (r: i64)
    requires
        slider.min <= slider.max,
        at.wf(),
        at.denominator <= 0x2000_0000_0000_0000,
    ensures
        r == slid(*slider, *at),
{
    let span: i128 = slider.max as i128 - slider.min as i128;
    let num: i128 = at.numerator as i128;
    let den: i128 = at.denominator as i128;
    proof {
        let (s, n, d) = (span as int, num as int, den as int);
        assert(0 <= s * n <= 0x1_0000_0000_0000_0000 * 0x2000_0000_0000_0000) by (nonlinear_arith)
            requires
                0 <= s <= 0x1_0000_0000_0000_0000,
                0 <= n <= 0x2000_0000_0000_0000,
        ;
        assert((2 * (s * n) + d) / (2 * d) <= s) by (nonlinear_arith)
            requires
                0 <= s,
                0 <= n <= d,
                0 < d,
        ;
    }
    let along: i128 = nearest_of(span * num, den);
    (slider.min as i128 + along) as i64
}

fn snap(slider: &Slider, at: &Fraction) -> (r: i64)
    requires
        slider.min <= slider.max,
        slider.step > 0,
        at.wf(),
        at.denominator <= 0x2000_0000_0000_0000,
    ensures
        r == snapped(*slider, *at),
{
    let span: i128 = slider.max as i128 - slider.min as i128;
    let num: i128 = at.numerator as i128;
    let den: i128 = at.denominator as i128;
    let step: i128 = slider.step as i128;
    proof {
        let (s, n, d, t) = (span as int, num as int, den as int, step as int);
        assert(0 <= s * n <= 0x1_0000_0000_0000_0000 * 0x2000_0000_0000_0000 && 0 < d * t
            <= 0x2000_0000_0000_0000 * 0x8000_0000_0000_0000) by (nonlinear_arith)
            requires
                0 <= s <= 0x1_0000_0000_0000_0000,
                0 <= n <= 0x2000_0000_0000_0000,
                0 < d <= 0x2000_0000_0000_0000,
                0 < t <= 0x8000_0000_0000_0000,
        ;
    }
    let steps: i128 = nearest_of(span * num, den * step);
    proof {
        let (s, n, d, t, k) = (span as int, num as int, den as int, step as int, steps as int);
        let whole_d = d * t;
        assert(k * (2 * whole_d) <= 2 * (s * n) + whole_d) by (nonlinear_arith)
            requires
                k == (2 * (s * n) + whole_d) / (2 * whole_d),
                whole_d > 0,
        ;
        assert(d * (2 * (k * t)) <= d * (2 * s + t)) by (nonlinear_arith)
            requires
                k * (2 * (d * t)) <= 2 * (s * n) + d * t,
                0 <= n <= d,
                0 <= s,
        ;
        assert(2 * (k * t) <= 2 * s + t) by (nonlinear_arith)
            requires
                d * (2 * (k * t)) <= d * (2 * s + t),
                d > 0,
        ;
        assert(0 <= k * t) by (nonlinear_arith)
            requires
                0 <= k,
                0 < t,
        ;
    }
    let value: i128 = slider.min as i128 + steps * step;
    if value > slider.max as i128 {
        slider.max
    } else {
        value as i64
    }
}

impl Window {
    /// The entry of the open dropdown that a point is on.
    fn picked_at(&self, x: i64, y: i64) -> (r: Option<(usize, usize)>)
        requires
            self.wf(),
        ensures
            match picked(self.ui(), self.scene(), x as int, y as int) {
                Some(entry) => r matches Some(at) && at.0 == entry.0 && at.1 == entry.1,
                None => r is None,
            },
    {
        let row_index: usize = match self.interaction.open_dropdown {
            Some(row) => row,
            None => {
                return None;
            },
        };
        match self.row(row_index) {
            Some(row) => match row.field.kind {
                Kind::Select(list) => {
                    assert(drawable(self.scene().rows[row_index as int].control));
                    let bottom: i64 = match &self.layout {
                        Some(layout) => layout.viewport.bottom,
                        None => 0,
                    };
                    proof {
                        a_short_list_fits(list.list().len() as int, self.metrics);
                    }
                    match dropdown_rect(&row, list.choices().len(), bottom, &self.metrics) {
                        Some(r) => {
                            if r.contains(x, y) {
                                let entry: i64 = self.metrics.dropdown_row_height();
                                proof {
                                    let n = list.list().len() as int;
                                    let m = self.metrics;
                                    assert(m.at(26_000) > 0) by (nonlinear_arith)
                                        requires
                                            n * m.at(26_000) + m.at(6_000) > 0,
                                            m.at(26_000) == 26_000 * m.dpi,
                                            m.at(6_000) == 6_000 * m.dpi,
                                            0 <= m.dpi,
                                            0 <= n,
                                    ;
                                    let gap = y - r.top;
                                    let tall = m.at(26_000);
                                    assert(0 <= gap / tall <= n) by (nonlinear_arith)
                                        requires
                                            0 <= gap < n * tall + m.at(6_000),
                                            0 < tall,
                                            m.at(6_000) <= tall,
                                    ;
                                }
                                Some((row_index, ((y - r.top) / entry) as usize))
                            } else {
                                None
                            }
                        },
                        None => None,
                    }
                },
                _ => None,
            },
            None => None,
        }
    }

    /// Store an entry of a dropdown.
    fn choose_entry(&self, row_index: usize, entry: usize, actions: &mut Vec<WindowAction>)
        ensures
            acts(final(actions)@) == acts(old(actions)@) + choosing(
                self.scene(),
                row_index as int,
                entry as int,
            ),
    {
        let ghost before = acts(actions@);
        match self.row(row_index) {
            Some(row) => match row.field.kind {
                Kind::Select(list) => {
                    let choices: &'static [Choice] = list.choices();
                    if entry < choices.len() {
                        let value: Value = Value::Text(choices[entry].value.to_owned());
                        self.write_value(row_index, &value, actions);
                    } else {
                        assert(before + Seq::<Act>::empty() =~= before);
                    }
                },
                _ => {
                    assert(before + Seq::<Act>::empty() =~= before);
                },
            },
            None => {
                assert(before + Seq::<Act>::empty() =~= before);
            },
        }
    }

    /// Act on a click on a part of a row.
    fn act(
        &mut self,
        row_index: usize,
        part: Part,
        x: i64,
        read: &EditReading,
        actions: &mut Vec<WindowAction>,
    )
        requires
            old(self).wf(),
            row_index < old(self).scene().rows.len(),
            near(x as int),
        ensures
            final(self).wf(),
            final(self).kept(*old(self)),
            final(self).ui() == acted(
                old(self).ui(),
                old(self).scene(),
                *read,
                row_index,
                part,
                x as int,
            ).ui,
            acts(final(actions)@) == acts(old(actions)@) + acted(
                old(self).ui(),
                old(self).scene(),
                *read,
                row_index,
                part,
                x as int,
            ).acts,
    {
        let ghost before = acts(actions@);
        let ghost scene = self.scene();
        assert(before + Seq::<Act>::empty() =~= before);
        let row: Row = match self.row(row_index) {
            Some(row) => row,
            None => {
                return;
            },
        };
        assert(drawable(scene.rows[row_index as int].control));
        assert(slides(scene.rows[row_index as int].field.kind));
        match row.field.kind {
            Kind::Switch => {
                match crate::settings::access::read(&self.values, row.field.path) {
                    Some(Value::Bool(on)) => {
                        match staged(&self.values, row.field.path, &Value::Bool(!on)) {
                            Some(next) => {
                                push_act(actions, WindowAction::Store(next));
                                assert(acts(actions@) =~= before + flipping(
                                    scene,
                                    row_index as int,
                                ));
                            },
                            None => {},
                        }
                    },
                    _ => {},
                }
            },
            Kind::Slider(slider) => match part {
                Part::SliderTrack => {
                    let found: Parts = parts(&row.field, &row.control, &self.metrics);
                    proof {
                        lemma_track(row.field.kind, row.control, self.metrics);
                    }
                    match found.slider_fraction(x) {
                        Some(at) => {
                            let value: i128 = slide(&slider, &at) as i128;
                            self.drag_row = Some(row_index);
                            self.interaction.dragging_row = Some(row_index);
                            push_act(actions, WindowAction::Capture);
                            assert(self.scene() == scene);
                            self.write_value(row_index, &Value::Float(value), actions);
                            proof {
                                let stored = storing(
                                    scene,
                                    row_index as int,
                                    ValueModel::Float(value as int),
                                );
                                assert(before.push(Act::Capture) + stored =~= before + (seq![
                                    Act::Capture,
                                ] + stored));
                            }
                        },
                        None => {},
                    }
                },
                _ => {},
            },
            Kind::Select(_) => {
                self.interaction.open_dropdown = Some(row_index);
                self.interaction.dropdown_highlight = 0;
                push_act(actions, WindowAction::Repaint);
                assert(before.push(Act::Repaint) =~= before + seq![Act::Repaint]);
            },
            Kind::Color => match part {
                Part::Box(_) => {
                    self.begin_edit(row_index, read, actions);
                },
                _ => {},
            },
            Kind::Number { .. } => {
                self.begin_edit(row_index, read, actions);
            },
            Kind::Text { .. } => {
                self.begin_edit(row_index, read, actions);
            },
            Kind::Action(list) => match part {
                Part::Button(i) => {
                    if i < list.buttons().len() {
                        let action: ActionId = list.buttons()[i].action;
                        self.run_action(action, read, actions);
                    }
                },
                _ => {},
            },
            Kind::Hotkey => {
                self.listen(row_index, read, actions);
            },
            _ => {},
        }
    }

    /// Start recording a key combination.
    fn listen(&mut self, row_index: usize, read: &EditReading, actions: &mut Vec<WindowAction>)
        requires
            old(self).wf(),
        ensures
            final(self).wf(),
            final(self).kept(*old(self)),
            final(self).ui() == listening(old(self).ui(), old(self).scene(), *read, row_index).ui,
            acts(final(actions)@) == acts(old(actions)@) + listening(
                old(self).ui(),
                old(self).scene(),
                *read,
                row_index,
            ).acts,
    {
        let ghost before = acts(actions@);
        let ghost turn = committed(self.ui(), self.scene(), *read);
        self.commit_edit(read, actions);
        self.stop_listening();
        self.interaction.recording = Some(row_index);
        push_act(actions, WindowAction::Repaint);
        assert((before + turn.acts).push(Act::Repaint) =~= before + turn.acts.push(Act::Repaint));
    }

    /// Record no key combination any more.
    fn stop_listening(&mut self)
        requires
            old(self).wf(),
        ensures
            final(self).wf(),
            final(self).kept(*old(self)),
            final(self).ui() == unheard(old(self).ui()),
    {
        self.interaction.recording = None;
        self.interaction.recording_text = String::new();
        proof {
            reveal_strlit("");
            assert(self.interaction.recording_text@ =~= Seq::<char>::empty());
        }
    }

    fn click_row(&mut self, x: i64, y: i64, read: &EditReading, actions: &mut Vec<WindowAction>)
        requires
            old(self).wf(),
            near(x as int),
        ensures
            final(self).wf(),
            final(self).kept(*old(self)),
            final(self).ui() == clicked_row(
                old(self).ui(),
                old(self).scene(),
                *read,
                x as int,
                y as int,
            ).ui,
            acts(final(actions)@) == acts(old(actions)@) + clicked_row(
                old(self).ui(),
                old(self).scene(),
                *read,
                x as int,
                y as int,
            ).acts,
    {
        let found: Option<Part> = match self.row_at(x, y) {
            Some(row_index) => match self.row(row_index) {
                Some(row) => {
                    assert(drawable(self.scene().rows[row_index as int].control));
                    let found: Parts = parts(&row.field, &row.control, &self.metrics);
                    found.part_at(x, y)
                },
                None => None,
            },
            None => None,
        };
        match (self.row_at(x, y), found) {
            (Some(row_index), Some(part)) => {
                self.act(row_index, part, x, read, actions);
            },
            _ => {
                self.commit_edit(read, actions);
            },
        }
    }

    /// Handle a left click.
    pub fn click(&mut self, x: i64, y: i64, read: &EditReading) -> (actions: Vec<WindowAction>)
        requires
            old(self).wf(),
            near(x as int),
            near(y as int),
        ensures
            final(self).wf(),
            final(self).kept(*old(self)),
            final(self).ui() == clicked(
                old(self).ui(),
                old(self).scene(),
                *read,
                x as int,
                y as int,
            ).ui,
            acts(actions@) == clicked(
                old(self).ui(),
                old(self).scene(),
                *read,
                x as int,
                y as int,
            ).acts,
    {
        let mut actions: Vec<WindowAction> = Vec::new();
        let ghost scene = self.scene();
        let ghost ui = self.ui();
        let ghost none = Seq::<Act>::empty();
        assert(acts(actions@) =~= none);
        let buttons: Option<(Rect, Rect)> = match &self.layout {
            Some(layout) => {
                let placed = window_buttons(layout, &self.metrics);
                Some((placed[0].rect, placed[1].rect))
            },
            None => None,
        };
        match buttons {
            Some(placed) => {
                if placed.0.contains(x, y) {
                    push_act(&mut actions, WindowAction::Close);
                    assert(acts(actions@) =~= seq![Act::Close]);
                    return actions;
                }
                if placed.1.contains(x, y) {
                    push_act(&mut actions, WindowAction::Minimize);
                    assert(acts(actions@) =~= seq![Act::Minimize]);
                    return actions;
                }
                match self.picked_at(x, y) {
                    Some(entry) => {
                        self.choose_entry(entry.0, entry.1, &mut actions);
                        self.interaction.open_dropdown = None;
                        push_act(&mut actions, WindowAction::Repaint);
                        proof {
                            let chosen = choosing(scene, entry.0 as int, entry.1 as int);
                            assert((none + chosen).push(Act::Repaint) =~= chosen.push(
                                Act::Repaint,
                            ));
                        }
                        return actions;
                    },
                    None => {},
                }
                if self.interaction.open_dropdown.is_some() {
                    self.interaction.open_dropdown = None;
                    push_act(&mut actions, WindowAction::Repaint);
                    assert(acts(actions@) =~= seq![Act::Repaint]);
                    return actions;
                }
                if self.interaction.recording.is_some() {
                    self.stop_listening();
                    push_act(&mut actions, WindowAction::Repaint);
                    assert(acts(actions@) =~= seq![Act::Repaint]);
                    return actions;
                }
                let on_nav: Option<usize> = match &self.layout {
                    Some(layout) => layout.nav_index_at(x, y),
                    None => None,
                };
                match on_nav {
                    Some(i) => {
                        self.switch_section(i, read, &mut actions);
                        proof {
                            let turn = switched(ui, scene, *read, i as int);
                            assert(none + turn.acts =~= turn.acts);
                        }
                        return actions;
                    },
                    None => {},
                }
                let jump: Option<i64> = match &self.layout {
                    Some(layout) => {
                        if layout.scroll_max > 0 && layout.scrollbar.contains(x, y) {
                            let tall: i64 = max(layout.viewport.height(), PIXEL);
                            let along: i64 = clamp(y - layout.viewport.top, 0, tall);
                            proof {
                                let (a, s, t) = (
                                    along as int,
                                    layout.scroll_max as int,
                                    tall as int,
                                );
                                assert(0 <= a * s <= 0x2000_0000_0000_0000 * 0x1000_0000_0000_0000)
                                    by (nonlinear_arith)
                                    requires
                                        0 <= a <= 0x2000_0000_0000_0000,
                                        0 <= s <= 0x1000_0000_0000_0000,
                                ;
                                assert(0 <= a * s / t <= s) by (nonlinear_arith)
                                    requires
                                        0 <= a <= t,
                                        0 <= s,
                                        t > 0,
                                ;
                            }
                            Some(
                                (along as i128 * layout.scroll_max as i128 / tall as i128) as i64,
                            )
                        } else {
                            None
                        }
                    },
                    None => None,
                };
                match jump {
                    Some(scroll) => {
                        self.scroll = scroll;
                        push_act(&mut actions, WindowAction::Repaint);
                        assert(acts(actions@) =~= seq![Act::Repaint]);
                        return actions;
                    },
                    None => {},
                }
            },
            None => {},
        }
        let ghost turn = clicked_row(self.ui(), scene, *read, x as int, y as int);
        assert(none + turn.acts =~= turn.acts);
        self.click_row(x, y, read, &mut actions);
        actions
    }
}

/// The track of a slider in a control that can be drawn is short enough to divide.
proof fn lemma_track(kind: Kind, control: Rect, m: Metrics)
    requires
        drawable(control),
    ensures
        match parts_of(kind, control, m).slider {
            Some(track) => track.wf() && track.wide() <= 0x2000_0000_0000_0000,
            None => true,
        },
{
    assert(0 <= m.at(8_000) <= 8_000 * 0xffff_ffff && 0 <= m.at(56_000) <= 56_000 * 0xffff_ffff)
        by (nonlinear_arith)
        requires
            0 <= m.dpi <= 0xffff_ffff,
    ;
}

/// The row that a point is on, when it is one that the pointer can act on.
pub open spec fn live_row(scene: Scene, x: int, y: int) -> Option<int> {
    match Window::row_under(scene, x, y) {
        Some(i) => if scene.rows[i].field.kind is Info {
            None
        } else {
            Some(i)
        },
        None => None,
    }
}

/// The button of the title bar that a point is on.
pub open spec fn button_under(scene: Scene, x: int, y: int) -> Option<WindowButton> {
    let buttons = buttons_of(scene.titlebar, scene.m);
    if !scene.laid {
        None
    } else if buttons[0].rect.holds(x, y) {
        Some(buttons[0].kind)
    } else if buttons[1].rect.holds(x, y) {
        Some(buttons[1].kind)
    } else {
        None
    }
}

/// What the pointer is on: the row, its part, the sidebar entry and the button of the title
/// bar. A row that only shows something offers no hover state.
pub open spec fn hovered(ui: Ui, scene: Scene, x: int, y: int, inside: bool) -> Ui {
    if !inside {
        Ui { hover_row: None, hover_part: None, hover_nav: None, hover_window: None, ..ui }
    } else {
        let row = live_row(scene, x, y);
        Ui {
            hover_row: match row {
                Some(i) => Some(i as usize),
                None => None,
            },
            hover_part: match row {
                Some(i) => parts_of(
                    scene.rows[i].field.kind,
                    scene.rows[i].control,
                    scene.m,
                ).part(x, y),
                None => None,
            },
            hover_nav: match hit_nav(scene.nav, x, y) {
                Some(i) => Some(i as usize),
                None => None,
            },
            hover_window: button_under(scene, x, y),
            highlight: match picked(ui, scene, x, y) {
                Some(entry) => entry.1,
                None => ui.highlight,
            },
            ..ui
        }
    }
}

/// What moving the pointer comes to. The page is drawn again when something else is under
/// it, and the hand shows over anything that can be clicked.
pub open spec fn moved_to(ui: Ui, scene: Scene, x: int, y: int, inside: bool) -> Turn {
    let next = hovered(ui, scene, x, y, inside);
    let changed = ui.hover_row != next.hover_row || ui.hover_part != next.hover_part
        || ui.hover_nav != next.hover_nav || ui.hover_window != next.hover_window;
    Turn {
        ui: next,
        acts: (if changed {
            seq![Act::Repaint]
        } else {
            Seq::<Act>::empty()
        }).push(Act::Cursor(next.hover_part is Some || next.hover_nav is Some)),
    }
}

/// What dragging the slider that the pointer holds comes to.
pub open spec fn dragged(ui: Ui, scene: Scene, x: int) -> Seq<Act> {
    match ui.drag {
        Some(row) => if row < scene.rows.len() {
            let field = scene.rows[row as int].field;
            match field.kind {
                Kind::Slider(slider) => match parts_of(
                    field.kind,
                    scene.rows[row as int].control,
                    scene.m,
                ).fraction(x) {
                    Some(at) => storing(
                        scene,
                        row as int,
                        ValueModel::Float(snapped(slider, at)),
                    ),
                    None => Seq::empty(),
                },
                _ => Seq::empty(),
            }
        } else {
            Seq::empty()
        },
        None => Seq::empty(),
    }
}

/// What turning the wheel comes to: three least rows for each notch of a hundred and
/// twenty.
pub open spec fn wheeled(ui: Ui, scene: Scene, delta: int) -> Turn {
    if scene.scroll_max <= 0 {
        Turn { ui, acts: Seq::empty() }
    } else {
        Turn {
            ui: Ui { scroll: clamped(ui.scroll - delta * scene.m.at(950), 0, scene.scroll_max), ..ui },
            acts: seq![Act::Repaint],
        }
    }
}

/// What a key comes to while a dropdown is open. It consumes the keyboard.
pub open spec fn key_in_list(ui: Ui, scene: Scene, key: u32) -> Turn {
    let row = ui.open_dropdown->0;
    let list = offered(scene, row as int);
    if key == VK_UP {
        Turn {
            ui: Ui { highlight: larger(ui.highlight - 1, 0), ..ui },
            acts: seq![Act::Repaint],
        }
    } else if key == VK_DOWN {
        let last = larger(list.len() - 1, 0);
        Turn {
            ui: Ui {
                highlight: if ui.highlight + 1 <= last {
                    ui.highlight + 1
                } else {
                    last
                },
                ..ui
            },
            acts: seq![Act::Repaint],
        }
    } else if key == VK_RETURN {
        Turn {
            ui: Ui { open_dropdown: None, ..ui },
            acts: if 0 <= ui.highlight < list.len() {
                choosing(scene, row as int, ui.highlight)
            } else {
                seq![Act::Repaint]
            },
        }
    } else if key == VK_ESCAPE {
        Turn { ui: Ui { open_dropdown: None, ..ui }, acts: seq![Act::Repaint] }
    } else {
        Turn { ui, acts: Seq::empty() }
    }
}

/// What a key comes to while a text field has focus. Escape abandons the edit rather than
/// storing it; pasting takes the first line of what is pasted.
pub open spec fn key_in_edit(
    ui: Ui,
    scene: Scene,
    read: EditReading,
    key: u32,
    control: bool,
    pasted: Option<Seq<char>>,
) -> Turn {
    if key == VK_BACK {
        Turn {
            ui: Ui {
                editing: if ui.editing.len() > 0 {
                    ui.editing.drop_last()
                } else {
                    ui.editing
                },
                ..ui
            },
            acts: seq![Act::Repaint],
        }
    } else if key == VK_RETURN {
        committed(ui, scene, read)
    } else if key == VK_ESCAPE {
        Turn {
            ui: Ui { focused: None, editing: Seq::empty(), ..ui },
            acts: seq![Act::Repaint],
        }
    } else if key == VK_V && control {
        Turn {
            ui: Ui {
                editing: match pasted {
                    Some(text) => ui.editing + first_line(trimmed(text)),
                    None => ui.editing,
                },
                ..ui
            },
            acts: seq![Act::Repaint],
        }
    } else {
        Turn { ui, acts: Seq::empty() }
    }
}

/// What a key comes to while a row records a key combination. Escape abandons it, Backspace
/// clears the field, and a key with a name ends the combination and stores it; the modifiers
/// that are held show meanwhile.
pub open spec fn key_heard(ui: Ui, scene: Scene, key: u32, held: Modifiers) -> Turn {
    let row = ui.recording->0 as int;
    if key == VK_ESCAPE {
        Turn { ui: unheard(ui), acts: seq![Act::Repaint] }
    } else if key == VK_BACK {
        Turn {
            ui: unheard(ui),
            acts: storing(scene, row, ValueModel::Text(Seq::empty())).push(Act::Repaint),
        }
    } else {
        match key_name(key) {
            Some(name) => Turn {
                ui: unheard(ui),
                acts: storing(scene, row, ValueModel::Text(held.prefix() + name)).push(
                    Act::Repaint,
                ),
            },
            None => Turn { ui: Ui { recorded: held.prefix(), ..ui }, acts: seq![Act::Repaint] },
        }
    }
}

/// What a key press comes to.
pub open spec fn pressed(
    ui: Ui,
    scene: Scene,
    read: EditReading,
    key: u32,
    held: Modifiers,
    pasted: Option<Seq<char>>,
) -> Turn {
    if ui.open_dropdown is Some {
        key_in_list(ui, scene, key)
    } else if ui.recording is Some {
        key_heard(ui, scene, key, held)
    } else if ui.focused is Some {
        key_in_edit(ui, scene, read, key, held.control, pasted)
    } else if key == VK_ESCAPE {
        Turn { ui, acts: seq![Act::Close] }
    } else {
        Turn { ui, acts: Seq::empty() }
    }
}

/// What a typed character comes to. Control characters are keys, not text.
pub open spec fn typed(ui: Ui, c: char) -> Turn {
    if ui.focused is None || is_control(c) {
        Turn { ui, acts: Seq::empty() }
    } else {
        Turn { ui: Ui { editing: ui.editing.push(c), ..ui }, acts: seq![Act::Repaint] }
    }
}

fn same_part(a: Option<Part>, b: Option<Part>) -> (r: bool)
    ensures
        r == (a == b),
{
    match (a, b) {
        (Some(a), Some(b)) => a == b,
        (None, None) => true,
        _ => false,
    }
}

fn same_index(a: Option<usize>, b: Option<usize>) -> (r: bool)
    ensures
        r == (a == b),
{
    match (a, b) {
        (Some(a), Some(b)) => a == b,
        (None, None) => true,
        _ => false,
    }
}

fn same_button(a: Option<WindowButton>, b: Option<WindowButton>) -> (r: bool)
    ensures
        r == (a == b),
{
    match (a, b) {
        (Some(a), Some(b)) => a == b,
        (None, None) => true,
        _ => false,
    }
}

impl Window {
    fn live_row_at(&self, x: i64, y: i64) -> (r: Option<usize>)
        requires
            self.wf(),
        ensures
            match live_row(self.scene(), x as int, y as int) {
                Some(i) => r matches Some(at) && at == i && 0 <= i < self.scene().rows.len(),
                None => r is None,
            },
    {
        match self.row_at(x, y) {
            Some(index) => match self.row(index) {
                Some(row) => {
                    if row.field.kind.is_interactive() {
                        Some(index)
                    } else {
                        None
                    }
                },
                None => None,
            },
            None => None,
        }
    }

    fn button_at(&self, x: i64, y: i64) -> (r: Option<WindowButton>)
        requires
            self.wf(),
        ensures
            r == button_under(self.scene(), x as int, y as int),
    {
        match &self.layout {
            Some(layout) => {
                let placed = window_buttons(layout, &self.metrics);
                if placed[0].rect.contains(x, y) {
                    Some(placed[0].kind)
                } else if placed[1].rect.contains(x, y) {
                    Some(placed[1].kind)
                } else {
                    None
                }
            },
            None => None,
        }
    }

    /// The part of a row that a point is on.
    fn part_under(&self, row_index: Option<usize>, x: i64, y: i64) -> (r: Option<Part>)
        requires
            self.wf(),
            row_index is Some ==> row_index->0 < self.scene().rows.len(),
        ensures
            r == (match row_index {
                Some(i) => parts_of(
                    self.scene().rows[i as int].field.kind,
                    self.scene().rows[i as int].control,
                    self.metrics,
                ).part(x as int, y as int),
                None => None,
            }),
    {
        match row_index {
            Some(i) => match self.row(i) {
                Some(row) => {
                    assert(drawable(self.scene().rows[i as int].control));
                    let found: Parts = parts(&row.field, &row.control, &self.metrics);
                    found.part_at(x, y)
                },
                None => None,
            },
            None => None,
        }
    }

    /// Move the pointer, or take it off the window.
    pub fn hover(&mut self, x: i64, y: i64, inside: bool) -> (actions: Vec<WindowAction>)
        requires
            old(self).wf(),
            near(x as int),
            near(y as int),
        ensures
            final(self).wf(),
            final(self).kept(*old(self)),
            final(self).ui() == moved_to(
                old(self).ui(),
                old(self).scene(),
                x as int,
                y as int,
                inside,
            ).ui,
            acts(actions@) == moved_to(
                old(self).ui(),
                old(self).scene(),
                x as int,
                y as int,
                inside,
            ).acts,
    {
        let mut actions: Vec<WindowAction> = Vec::new();
        assert(acts(actions@) =~= Seq::<Act>::empty());
        let previous_row: Option<usize> = self.interaction.hover_row;
        let previous_part: Option<Part> = self.interaction.hover_part;
        let previous_nav: Option<usize> = self.interaction.hover_nav;
        let previous_window: Option<WindowButton> = self.interaction.hover_window;
        if !inside {
            self.interaction.hover_row = None;
            self.interaction.hover_part = None;
            self.interaction.hover_nav = None;
            self.interaction.hover_window = None;
        } else {
            let row: Option<usize> = self.live_row_at(x, y);
            let button: Option<WindowButton> = self.button_at(x, y);
            let part: Option<Part> = self.part_under(row, x, y);
            let nav: Option<usize> = match &self.layout {
                Some(layout) => layout.nav_index_at(x, y),
                None => None,
            };
            let entry: Option<(usize, usize)> = self.picked_at(x, y);
            self.interaction.hover_row = row;
            self.interaction.hover_part = part;
            self.interaction.hover_nav = nav;
            self.interaction.hover_window = button;
            // Highlight whichever dropdown entry is under the pointer.
            match entry {
                Some(at) => {
                    self.interaction.dropdown_highlight = at.1;
                },
                None => {},
            }
        }
        let changed: bool = !same_index(previous_row, self.interaction.hover_row) || !same_part(
            previous_part,
            self.interaction.hover_part,
        ) || !same_index(previous_nav, self.interaction.hover_nav) || !same_button(
            previous_window,
            self.interaction.hover_window,
        );
        if changed {
            push_act(&mut actions, WindowAction::Repaint);
            assert(acts(actions@) =~= seq![Act::Repaint]);
        }
        let clickable: bool = self.interaction.hover_part.is_some()
            || self.interaction.hover_nav.is_some();
        push_act(&mut actions, WindowAction::Cursor(clickable));
        actions
    }

    /// Drag the slider that the pointer holds.
    pub fn drag_to(&self, x: i64) -> (actions: Vec<WindowAction>)
        requires
            self.wf(),
            near(x as int),
        ensures
            acts(actions@) == dragged(self.ui(), self.scene(), x as int),
    {
        let mut actions: Vec<WindowAction> = Vec::new();
        assert(acts(actions@) =~= Seq::<Act>::empty());
        let row_index: usize = match self.drag_row {
            Some(row) => row,
            None => {
                return actions;
            },
        };
        match self.row(row_index) {
            Some(row) => match row.field.kind {
                Kind::Slider(slider) => {
                    assert(drawable(self.scene().rows[row_index as int].control));
                    assert(slides(self.scene().rows[row_index as int].field.kind));
                    let found: Parts = parts(&row.field, &row.control, &self.metrics);
                    proof {
                        lemma_track(row.field.kind, row.control, self.metrics);
                    }
                    match found.slider_fraction(x) {
                        Some(at) => {
                            let value: i128 = snap(&slider, &at) as i128;
                            self.write_value(row_index, &Value::Float(value), &mut actions);
                            proof {
                                let stored = dragged(self.ui(), self.scene(), x as int);
                                assert(Seq::<Act>::empty() + stored =~= stored);
                            }
                        },
                        None => {},
                    }
                },
                _ => {},
            },
            None => {},
        }
        actions
    }

    /// Release the left button: a slider that the pointer held is let go.
    pub fn release(&mut self) -> (actions: Vec<WindowAction>)
        requires
            old(self).wf(),
        ensures
            final(self).wf(),
            final(self).kept(*old(self)),
            final(self).ui() == (Ui { drag: None, ..old(self).ui() }),
            acts(actions@) == (if old(self).drag_row is Some {
                seq![Act::ReleaseCapture]
            } else {
                Seq::<Act>::empty()
            }),
    {
        let mut actions: Vec<WindowAction> = Vec::new();
        assert(acts(actions@) =~= Seq::<Act>::empty());
        if self.drag_row.is_some() {
            self.drag_row = None;
            self.interaction.dragging_row = None;
            push_act(&mut actions, WindowAction::ReleaseCapture);
            assert(acts(actions@) =~= seq![Act::ReleaseCapture]);
        }
        actions
    }

    /// Scroll by what the wheel was turned.
    pub fn scroll_by(&mut self, delta: i16) -> (actions: Vec<WindowAction>)
        requires
            old(self).wf(),
        ensures
            final(self).wf(),
            final(self).kept(*old(self)),
            final(self).ui() == wheeled(old(self).ui(), old(self).scene(), delta as int).ui,
            acts(actions@) == wheeled(old(self).ui(), old(self).scene(), delta as int).acts,
    {
        let mut actions: Vec<WindowAction> = Vec::new();
        assert(acts(actions@) =~= Seq::<Act>::empty());
        let end: i64 = match &self.layout {
            Some(layout) => layout.scroll_max,
            None => 0,
        };
        if end <= 0 {
            return actions;
        }
        let step: i64 = self.metrics.px(950);
        let turned: i64 = delta as i64;
        assert(-0x8000 * (950 * 0xffff_ffff) <= turned * step <= 0x8000 * (950 * 0xffff_ffff))
            by (nonlinear_arith)
            requires
                -0x8000 <= turned <= 0x8000,
                0 <= step <= 950 * 0xffff_ffff,
        ;
        self.scroll = clamp(self.scroll - turned * step, 0, end);
        push_act(&mut actions, WindowAction::Repaint);
        assert(acts(actions@) =~= seq![Act::Repaint]);
        actions
    }

    /// A key press while a dropdown is open.
    fn key_in_dropdown(&mut self, row_index: usize, key: u32, actions: &mut Vec<WindowAction>)
        requires
            old(self).wf(),
            old(self).interaction.open_dropdown == Some(row_index),
            acts(old(actions)@) == Seq::<Act>::empty(),
        ensures
            final(self).wf(),
            final(self).kept(*old(self)),
            final(self).ui() == key_in_list(old(self).ui(), old(self).scene(), key).ui,
            acts(final(actions)@) == key_in_list(old(self).ui(), old(self).scene(), key).acts,
    {
        let count: usize = match self.row(row_index) {
            Some(row) => match row.field.kind {
                Kind::Select(list) => list.choices().len(),
                _ => 0,
            },
            None => 0,
        };
        assert(count == offered(self.scene(), row_index as int).len());
        if key == VK_UP {
            if self.interaction.dropdown_highlight > 0 {
                self.interaction.dropdown_highlight = self.interaction.dropdown_highlight - 1;
            }
            push_act(actions, WindowAction::Repaint);
            assert(acts(actions@) =~= seq![Act::Repaint]);
        } else if key == VK_DOWN {
            let last: usize = if count > 0 {
                count - 1
            } else {
                0
            };
            if self.interaction.dropdown_highlight < last {
                self.interaction.dropdown_highlight = self.interaction.dropdown_highlight + 1;
            } else {
                self.interaction.dropdown_highlight = last;
            }
            push_act(actions, WindowAction::Repaint);
            assert(acts(actions@) =~= seq![Act::Repaint]);
        } else if key == VK_RETURN {
            let entry: usize = self.interaction.dropdown_highlight;
            let ghost scene = self.scene();
            self.interaction.open_dropdown = None;
            assert(self.scene() == scene);
            if entry < count {
                self.choose_entry(row_index, entry, actions);
                proof {
                    let chosen = choosing(scene, row_index as int, entry as int);
                    assert(Seq::<Act>::empty() + chosen =~= chosen);
                }
            } else {
                push_act(actions, WindowAction::Repaint);
                assert(acts(actions@) =~= seq![Act::Repaint]);
            }
        } else if key == VK_ESCAPE {
            self.interaction.open_dropdown = None;
            push_act(actions, WindowAction::Repaint);
            assert(acts(actions@) =~= seq![Act::Repaint]);
        }
    }

    /// A key press while a text field has focus.
    fn key_in_text(
        &mut self,
        key: u32,
        control: bool,
        pasted: Option<&str>,
        read: &EditReading,
        actions: &mut Vec<WindowAction>,
    )
        requires
            old(self).wf(),
            acts(old(actions)@) == Seq::<Act>::empty(),
        ensures
            final(self).wf(),
            final(self).kept(*old(self)),
            ({
                let turn = key_in_edit(
                    old(self).ui(),
                    old(self).scene(),
                    *read,
                    key,
                    control,
                    match pasted {
                        Some(text) => Some(text@),
                        None => None,
                    },
                );
                &&& final(self).ui() == turn.ui
                &&& acts(final(actions)@) == turn.acts
            }),
    {
        if key == VK_BACK {
            let text: &str = self.interaction.editing.as_str();
            let n: usize = text.unicode_len();
            if n > 0 {
                let shorter: String = text.substring_char(0, n - 1).to_owned();
                assert(shorter@ =~= old(self).interaction.editing@.drop_last());
                self.interaction.editing = shorter;
            }
            push_act(actions, WindowAction::Repaint);
            assert(acts(actions@) =~= seq![Act::Repaint]);
        } else if key == VK_RETURN {
            self.commit_edit(read, actions);
            proof {
                let turn = committed(old(self).ui(), old(self).scene(), *read);
                assert(Seq::<Act>::empty() + turn.acts =~= turn.acts);
            }
        } else if key == VK_ESCAPE {
            self.interaction.focused_row = None;
            self.interaction.editing = String::new();
            proof {
                reveal_strlit("");
                assert(self.interaction.editing@ =~= Seq::<char>::empty());
            }
            push_act(actions, WindowAction::Repaint);
            assert(acts(actions@) =~= seq![Act::Repaint]);
        } else if key == VK_V && control {
            match pasted {
                Some(text) => {
                    self.interaction.editing.append(head_line(trim(text)));
                },
                None => {},
            }
            push_act(actions, WindowAction::Repaint);
            assert(acts(actions@) =~= seq![Act::Repaint]);
        }
    }

    /// A key press while a row records a key combination.
    fn hear(
        &mut self,
        row_index: usize,
        key: u32,
        held: Modifiers,
        actions: &mut Vec<WindowAction>,
    )
        requires
            old(self).wf(),
            old(self).interaction.recording == Some(row_index),
            acts(old(actions)@) == Seq::<Act>::empty(),
        ensures
            final(self).wf(),
            final(self).kept(*old(self)),
            final(self).ui() == key_heard(old(self).ui(), old(self).scene(), key, held).ui,
            acts(final(actions)@) == key_heard(
                old(self).ui(),
                old(self).scene(),
                key,
                held,
            ).acts,
    {
        let ghost scene = self.scene();
        let ghost none = Seq::<Act>::empty();
        if key == VK_ESCAPE {
            self.stop_listening();
            push_act(actions, WindowAction::Repaint);
            assert(acts(actions@) =~= seq![Act::Repaint]);
            return;
        }
        if key == VK_BACK {
            let empty: String = String::new();
            proof {
                reveal_strlit("");
                assert(empty@ =~= Seq::<char>::empty());
            }
            self.write_value(row_index, &Value::Text(empty), actions);
            self.stop_listening();
            push_act(actions, WindowAction::Repaint);
            proof {
                let stored = storing(scene, row_index as int, ValueModel::Text(Seq::empty()));
                assert(none + stored =~= stored);
            }
            return;
        }
        let mut text: String = held.prefix_text();
        if push_key_name(&mut text, key) {
            let ghost name = text@;
            self.write_value(row_index, &Value::Text(text), actions);
            self.stop_listening();
            push_act(actions, WindowAction::Repaint);
            proof {
                let stored = storing(scene, row_index as int, ValueModel::Text(name));
                assert(none + stored =~= stored);
            }
        } else {
            self.interaction.recording_text = text;
            push_act(actions, WindowAction::Repaint);
            assert(acts(actions@) =~= seq![Act::Repaint]);
        }
    }

    /// A key press. `pasted` is what the clipboard holds.
    pub fn key(
        &mut self,
        key: u32,
        held: Modifiers,
        pasted: Option<&str>,
        read: &EditReading,
    ) -> (actions: Vec<WindowAction>)
        requires
            old(self).wf(),
        ensures
            final(self).wf(),
            final(self).kept(*old(self)),
            ({
                let turn = pressed(
                    old(self).ui(),
                    old(self).scene(),
                    *read,
                    key,
                    held,
                    match pasted {
                        Some(text) => Some(text@),
                        None => None,
                    },
                );
                &&& final(self).ui() == turn.ui
                &&& acts(actions@) == turn.acts
            }),
    {
        let mut actions: Vec<WindowAction> = Vec::new();
        assert(acts(actions@) =~= Seq::<Act>::empty());
        match self.interaction.open_dropdown {
            Some(row_index) => {
                self.key_in_dropdown(row_index, key, &mut actions);
                return actions;
            },
            None => {},
        }
        match self.interaction.recording {
            Some(row_index) => {
                self.hear(row_index, key, held, &mut actions);
                return actions;
            },
            None => {},
        }
        if self.interaction.focused_row.is_some() {
            self.key_in_text(key, held.control, pasted, read, &mut actions);
            return actions;
        }
        if key == VK_ESCAPE {
            push_act(&mut actions, WindowAction::Close);
            assert(acts(actions@) =~= seq![Act::Close]);
        }
        actions
    }

    /// A typed character, for the focused text field.
    pub fn character(&mut self, ch: char) -> (actions: Vec<WindowAction>)
        requires
            old(self).wf(),
        ensures
            final(self).wf(),
            final(self).kept(*old(self)),
            final(self).ui() == typed(old(self).ui(), ch).ui,
            acts(actions@) == typed(old(self).ui(), ch).acts,
    {
        let mut actions: Vec<WindowAction> = Vec::new();
        assert(acts(actions@) =~= Seq::<Act>::empty());
        if self.interaction.focused_row.is_none() {
            return actions;
        }
        let code: u32 = ch as u32;
        if code <= 0x1F || (0x7F <= code && code <= 0x9F) {
            return actions;
        }
        push_char(&mut self.interaction.editing, ch);
        push_act(&mut actions, WindowAction::Repaint);
        assert(acts(actions@) =~= seq![Act::Repaint]);
        actions
    }
}

/// Where a point of the window lies, for the system.
#[derive(Clone, Copy, Debug, PartialEq, Eq, Structural)]
pub enum HitCode {
    Client,
    Caption,
    Left,
    Right,
    Top,
    TopLeft,
    TopRight,
    Bottom,
    BottomLeft,
    BottomRight,
}

/// The code that the system knows a place by.
pub fn hit_code(code: HitCode) -> (r: isize)
    ensures
        r == code_of(code),
{
    match code {
        HitCode::Client => 1,
        HitCode::Caption => 2,
        HitCode::Left => 10,
        HitCode::Right => 11,
        HitCode::Top => 12,
        HitCode::TopLeft => 13,
        HitCode::TopRight => 14,
        HitCode::Bottom => 15,
        HitCode::BottomLeft => 16,
        HitCode::BottomRight => 17,
    }
}

/// The border that a point lies on, in pixels of a client area of `width` by `height`. Where
/// two borders meet, the corner resizes both ways.
pub open spec fn edge_of(x: int, y: int, width: int, height: int, m: Metrics) -> Option<HitCode> {
    let edge = m.at(6_000);
    let left = x * PIXEL < edge;
    let right = x * PIXEL >= width * PIXEL - edge;
    let top = y * PIXEL < edge;
    let bottom = y * PIXEL >= height * PIXEL - edge;
    if left && top {
        Some(HitCode::TopLeft)
    } else if right && top {
        Some(HitCode::TopRight)
    } else if left && bottom {
        Some(HitCode::BottomLeft)
    } else if right && bottom {
        Some(HitCode::BottomRight)
    } else if left {
        Some(HitCode::Left)
    } else if right {
        Some(HitCode::Right)
    } else if top {
        Some(HitCode::Top)
    } else if bottom {
        Some(HitCode::Bottom)
    } else {
        None
    }
}

/// Edges resize, the strip of the title bar drags, and everything else is client area.
pub open spec fn place_of(x: int, y: int, width: int, height: int, titlebar: Rect, m: Metrics) -> HitCode {
    let buttons = buttons_of(titlebar, m);
    match edge_of(x, y, width, height, m) {
        Some(edge) => edge,
        None => if y * PIXEL < titlebar.bottom && !buttons[0].rect.holds(x * PIXEL, y * PIXEL)
            && !buttons[1].rect.holds(x * PIXEL, y * PIXEL) {
            HitCode::Caption
        } else {
            HitCode::Client
        },
    }
}

/// The border that a point lies on, if it lies on one.
pub fn edge_hit(metrics: &Metrics, x: i32, y: i32, width: i32, height: i32) -> (r: Option<HitCode>)
    ensures
        r == edge_of(x as int, y as int, width as int, height as int, *metrics),
{
    let edge: i64 = metrics.px(6_000);
    let px: i64 = x as i64 * PIXEL;
    let py: i64 = y as i64 * PIXEL;
    let left: bool = px < edge;
    let right: bool = px >= width as i64 * PIXEL - edge;
    let top: bool = py < edge;
    let bottom: bool = py >= height as i64 * PIXEL - edge;
    if left && top {
        Some(HitCode::TopLeft)
    } else if right && top {
        Some(HitCode::TopRight)
    } else if left && bottom {
        Some(HitCode::BottomLeft)
    } else if right && bottom {
        Some(HitCode::BottomRight)
    } else if left {
        Some(HitCode::Left)
    } else if right {
        Some(HitCode::Right)
    } else if top {
        Some(HitCode::Top)
    } else if bottom {
        Some(HitCode::Bottom)
    } else {
        None
    }
}

/// Where a point lies, in pixels of the client area, which is `width` by `height`.
pub fn non_client_hit(
    layout: &Layout,
    metrics: &Metrics,
    x: i32,
    y: i32,
    width: i32,
    height: i32,
) -> (r: HitCode)
    requires
        drawable(layout.titlebar),
    ensures
        r == place_of(
            x as int,
            y as int,
            width as int,
            height as int,
            layout.titlebar,
            *metrics,
        ),
{
    if let Some(edge) = edge_hit(metrics, x, y, width, height) {
        return edge;
    }
    let px: i64 = x as i64 * PIXEL;
    let py: i64 = y as i64 * PIXEL;
    let buttons = window_buttons(layout, metrics);
    let on_button: bool = buttons[0].rect.contains(px, py) || buttons[1].rect.contains(px, py);
    if py < layout.titlebar.bottom && !on_button {
        HitCode::Caption
    } else {
        HitCode::Client
    }
}

/// A design length in pixels at a DPI, as far as an `i32` can hold it.
pub open spec fn track(design: int, dpi: int) -> int {
    if design * dpi / 96 <= i32::MAX {
        design * dpi / 96
    } else {
        i32::MAX as int
    }
}

fn tracked_length(design: i32, dpi: u32) -> (r: i32)
    requires
        0 <= design <= 0x1_0000,
    ensures
        r == track(design as int, dpi as int),
{
    assert(0 <= design * dpi <= 0x1_0000 * 0x1_0000_0000) by (nonlinear_arith)
        requires
            0 <= design <= 0x1_0000,
            0 <= dpi <= 0x1_0000_0000,
    ;
    let length: i64 = design as i64 * dpi as i64 / 96;
    if length <= i32::MAX as i64 {
        length as i32
    } else {
        i32::MAX
    }
}

/// The least size of the window, in pixels.
pub fn min_track_size(metrics: &Metrics) -> (r: (i32, i32))
    ensures
        r.0 == track(MIN_WIDTH as int, metrics.dpi as int),
        r.1 == track(MIN_HEIGHT as int, metrics.dpi as int),
{
    (tracked_length(MIN_WIDTH, metrics.dpi), tracked_length(MIN_HEIGHT, metrics.dpi))
}

/// What opening the settings comes to.
#[derive(Clone, Copy, Debug, PartialEq, Eq, Structural)]
pub enum OpenAction {
    /// Show the window that is there, bring it to the front and make it read the
    /// configuration again.
    Focus(isize),
    /// Start a window on a thread of its own.
    Start,
}

/// Handle to a settings window. Zero while there is none.
#[derive(Clone, Copy, Debug, PartialEq, Eq, Structural)]
pub struct SettingsWindow {
    pub hwnd: isize,
}

impl SettingsWindow {
    pub fn new() -> (r: SettingsWindow)
        ensures
            r.hwnd == 0,
    {
        SettingsWindow { hwnd: 0 }
    }

    /// Bring the window up, or focus it if it is already open.
    pub fn open(&self) -> (r: OpenAction)
        ensures
            r == (if self.hwnd != 0 {
                OpenAction::Focus(self.hwnd)
            } else {
                OpenAction::Start
            }),
    {
        if self.hwnd != 0 {
            OpenAction::Focus(self.hwnd)
        } else {
            OpenAction::Start
        }
    }

    /// The window that is to be told to close, if there is one.
    pub fn close(&self) -> (r: Option<isize>)
        ensures
            r == (if self.hwnd != 0 {
                Some(self.hwnd)
            } else {
                None
            }),
    {
        if self.hwnd != 0 {
            Some(self.hwnd)
        } else {
            None
        }
    }

    pub fn is_open(&self) -> (r: bool)
        ensures
            r == (self.hwnd != 0),
    {
        self.hwnd != 0
    }
}

/// A dragged slider stores a value within its range that is a whole number of steps above
/// its least, or its greatest value.
pub proof fn a_dragged_slider_stays_on_its_steps(slider: Slider, at: Fraction)
    requires
        slider.min <= slider.max,
        slider.step > 0,
        at.wf(),
    ensures
        slider.min <= snapped(slider, at) <= slider.max,
        snapped(slider, at) == slider.max || (snapped(slider, at) - slider.min) % (
        slider.step as int) == 0,
        at.numerator == 0 ==> snapped(slider, at) == slider.min,
{
    let span = slider.max - slider.min;
    let d = at.denominator * slider.step;
    let n = span * at.numerator;
    let steps = nearest(n, d);
    assert(0 <= n && 0 < d) by (nonlinear_arith)
        requires
            0 <= span,
            0 <= at.numerator,
            0 < at.denominator,
            0 < slider.step,
            n == span * at.numerator,
            d == at.denominator * slider.step,
    ;
    assert(0 <= steps) by (nonlinear_arith)
        requires
            steps == (2 * n + d) / (2 * d),
            0 <= n,
            0 < d,
    ;
    assert(0 <= steps * slider.step && (steps * slider.step) % (slider.step as int) == 0)
        by (nonlinear_arith)
        requires
            0 <= steps,
            0 < slider.step,
    ;
    if at.numerator == 0 {
        assert(n == 0) by (nonlinear_arith)
            requires
                n == span * at.numerator,
                at.numerator == 0,
        ;
        assert(steps == 0) by (nonlinear_arith)
            requires
                steps == (2 * n + d) / (2 * d),
                n == 0,
                0 < d,
        ;
        assert(steps * slider.step == 0) by (nonlinear_arith)
            requires
                steps == 0,
        ;
    }
}

/// A typed number is stored within the limits of its row.
pub proof fn a_typed_number_stays_in_its_limits(number: int, min: int, max: int)
    requires
        min <= max,
    ensures
        min <= limited(number, min, max) <= max,
{
    if min * ONE <= number <= max * ONE {
        assert(min <= nearest(number, 1_000_000) <= max) by (nonlinear_arith)
            requires
                min * 1_000_000 <= number <= max * 1_000_000,
                nearest(number, 1_000_000) == (if number >= 0 {
                    (2 * number + 1_000_000) / 2_000_000
                } else {
                    -((2 * (-number) + 1_000_000) / 2_000_000)
                }),
        ;
    }
}

/// Abandoning an edit stores nothing.
pub proof fn an_abandoned_edit_stores_nothing(ui: Ui, scene: Scene, read: EditReading, held: Modifiers, pasted: Option<Seq<char>>)
    requires
        ui.focused is Some,
        ui.recording is None,
        ui.open_dropdown is None,
    ensures
        ({
            let turn = pressed(ui, scene, read, VK_ESCAPE, held, pasted);
            &&& turn.ui.focused is None
            &&& turn.acts == seq![Act::Repaint]
        }),
{
}

/// Typing a character and taking it back leaves the text as it was.
pub proof fn backspace_undoes_a_character(ui: Ui, scene: Scene, read: EditReading, c: char, held: Modifiers, pasted: Option<Seq<char>>)
    requires
        ui.focused is Some,
        ui.recording is None,
        ui.open_dropdown is None,
        !is_control(c),
    ensures
        pressed(typed(ui, c).ui, scene, read, VK_BACK, held, pasted).ui == ui,
{
    assert(ui.editing.push(c).drop_last() =~= ui.editing);
}

/// However far the wheel is turned, the page stays between its ends.
pub proof fn the_wheel_stays_on_the_page(ui: Ui, scene: Scene, delta: int)
    requires
        scene.scroll_max > 0,
    ensures
        0 <= wheeled(ui, scene, delta).ui.scroll <= scene.scroll_max,
{
}

/// Every slider of the settings goes up in steps.
pub proof fn every_slider_goes_up_in_steps()
    ensures
        forall|s: int, i: int, j: int|
            0 <= s < crate::settings::schema::all_sections().len() && 0 <= i
                < crate::settings::schema::all_sections()[s].cards.len() && 0 <= j
                < crate::settings::schema::all_sections()[s].cards[i].fields.len() ==> slides(
                (#[trigger] crate::settings::schema::all_sections()[s].cards[i].fields[j]).kind,
            ),
{
}

/// The size message of a window that was maximised.
pub const SIZE_MAXIMIZED: u32 = 2;

pub const WM_DESTROY: u32 = 0x0002;

pub const WM_SIZE: u32 = 0x0005;

pub const WM_PAINT: u32 = 0x000F;

pub const WM_CLOSE: u32 = 0x0010;

pub const WM_ERASEBKGND: u32 = 0x0014;

pub const WM_SETCURSOR: u32 = 0x0020;

pub const WM_GETMINMAXINFO: u32 = 0x0024;

pub const WM_NCCALCSIZE: u32 = 0x0083;

pub const WM_NCHITTEST: u32 = 0x0084;

pub const WM_KEYDOWN: u32 = 0x0100;

pub const WM_CHAR: u32 = 0x0102;

pub const WM_SYSKEYDOWN: u32 = 0x0104;

pub const WM_MOUSEMOVE: u32 = 0x0200;

pub const WM_LBUTTONDOWN: u32 = 0x0201;

pub const WM_LBUTTONUP: u32 = 0x0202;

pub const WM_MOUSEWHEEL: u32 = 0x020A;

pub const WM_MOUSELEAVE: u32 = 0x02A3;

pub const WM_DPICHANGED: u32 = 0x02E0;

/// What a message says besides its number, as far as the window goes by it.
pub struct Input<'a> {
    /// The two parameters.
    pub wparam: u64,
    pub lparam: i64,
    /// For a hit test: the point, in pixels of the client area.
    pub x: i32,
    pub y: i32,
    /// The size of the client area, in pixels.
    pub width: i32,
    pub height: i32,
    /// The DPI that the window has now.
    pub dpi: u32,
    pub held: Modifiers,
    /// What the clipboard holds.
    pub pasted: Option<&'a str>,
    pub read: EditReading,
}

/// What the system is answered.
#[derive(Clone, Copy, Debug, PartialEq, Eq, Structural)]
pub enum Reply {
    Answer(isize),
    /// Leave the message to the system.
    Default,
    /// Carry out the paint request, and then answer.
    Validated,
    /// Fill in the least size of the window, and answer.
    MinSize(i32, i32),
    /// Size the drawing surface to the client area, and answer.
    Attach(u32, u32),
    /// Make the drawing surface anew, and answer.
    NewSurface,
    /// Drop the drawing surface and end the message loop.
    Destroyed,
    /// Take everything that the host knows afresh, and answer.
    Refresh,
}

/// The frames that a change of size asks for.
pub open spec fn resize_acts(how: int) -> Seq<Act> {
    if how != SIZE_MAXIMIZED {
        seq![Act::Repaint, Act::Repaint]
    } else {
        seq![Act::Repaint]
    }
}

/// The answer to a change of size: a surface with no area is left alone.
pub open spec fn attaching(lparam: int) -> Reply {
    let wide = lparam % 65536;
    let tall = lparam / 65536 % 65536;
    if wide > 0 && tall > 0 {
        Reply::Attach(wide as u32, tall as u32)
    } else {
        Reply::Answer(0)
    }
}

/// What a message comes to: the state after it, what has to be done and what the system is
/// answered.
pub open spec fn handled(ui: Ui, scene: Scene, message: u32, input: Input) -> (Turn, Reply) {
    let idle = Turn { ui, acts: Seq::empty() };
    let repaint = Turn { ui, acts: seq![Act::Repaint] };
    let x = signed_half(input.lparam as int) * PIXEL;
    let y = signed_half(input.lparam as int / 65536) * PIXEL;
    if message == WM_NCCALCSIZE && input.wparam != 0 {
        // Without a non-client area the thick frame keeps its resize borders while the
        // window draws its own title bar.
        (idle, Reply::Answer(0))
    } else if message == WM_GETMINMAXINFO {
        (
            idle,
            Reply::MinSize(
                track(MIN_WIDTH as int, scene.m.dpi as int) as i32,
                track(MIN_HEIGHT as int, scene.m.dpi as int) as i32,
            ),
        )
    } else if message == WM_NCHITTEST {
        (
            idle,
            Reply::Answer(
                code_of(
                    place_of(
                        input.x as int,
                        input.y as int,
                        input.width as int,
                        input.height as int,
                        scene.titlebar,
                        scene.m,
                    ),
                ),
            ),
        )
    } else if message == WM_SETCURSOR {
        // The cursor is set while the pointer moves; this keeps the system from setting it
        // back.
        (idle, Reply::Answer(1))
    } else if message == WM_SIZE {
        // The layout depends on the size, so it is made anew, and twice unless the window was
        // maximised.
        (
            Turn { ui, acts: resize_acts(input.wparam as int % 0x1_0000_0000) },
            attaching(input.lparam as int),
        )
    } else if message == WM_DPICHANGED {
        (repaint, Reply::NewSurface)
    } else if message == WM_PAINT {
        (repaint, Reply::Validated)
    } else if message == WM_ERASEBKGND {
        (idle, Reply::Answer(1))
    } else if message == WM_MOUSEMOVE {
        if ui.drag is Some {
            (Turn { ui, acts: dragged(ui, scene, x) }, Reply::Answer(0))
        } else {
            (moved_to(ui, scene, x, y, true), Reply::Answer(0))
        }
    } else if message == WM_MOUSELEAVE {
        (moved_to(ui, scene, 0, 0, false), Reply::Answer(0))
    } else if message == WM_LBUTTONDOWN {
        (clicked(ui, scene, input.read, x, y), Reply::Answer(0))
    } else if message == WM_LBUTTONUP {
        (
            Turn {
                ui: Ui { drag: None, ..ui },
                acts: if ui.drag is Some {
                    seq![Act::ReleaseCapture]
                } else {
                    Seq::<Act>::empty()
                },
            },
            Reply::Answer(0),
        )
    } else if message == WM_MOUSEWHEEL {
        (
            wheeled(
                ui,
                scene,
                signed_half(input.wparam as int / 65536),
            ),
            Reply::Answer(0),
        )
    } else if message == WM_KEYDOWN || (message == WM_SYSKEYDOWN && ui.recording is Some) {
        // A combination with Alt comes as a system key; elsewhere those are the system's.
        (
            pressed(
                ui,
                scene,
                input.read,
                ((input.wparam as int) % 0x1_0000_0000) as u32,
                input.held,
                match input.pasted {
                    Some(text) => Some(text@),
                    None => None,
                },
            ),
            Reply::Answer(0),
        )
    } else if message == WM_CHAR {
        let code = input.wparam as int % 0x1_0000_0000;
        if is_scalar(code) {
            (typed(ui, code as char), Reply::Answer(0))
        } else {
            (idle, Reply::Answer(0))
        }
    } else if message == WM_APP_REFRESH {
        (repaint, Reply::Refresh)
    } else if message == WM_APP_CLOSE || message == WM_CLOSE {
        (Turn { ui, acts: seq![Act::Close] }, Reply::Answer(0))
    } else if message == WM_DESTROY {
        (idle, Reply::Destroyed)
    } else {
        (idle, Reply::Default)
    }
}

/// The code that the system knows a place by.
pub open spec fn code_of(code: HitCode) -> isize {
    match code {
        HitCode::Client => 1,
        HitCode::Caption => 2,
        HitCode::Left => 10,
        HitCode::Right => 11,
        HitCode::Top => 12,
        HitCode::TopLeft => 13,
        HitCode::TopRight => 14,
        HitCode::Bottom => 15,
        HitCode::BottomLeft => 16,
        HitCode::BottomRight => 17,
    }
}

fn one(action: WindowAction) -> (r: Vec<WindowAction>)
    ensures
        acts(r@) == seq![action@],
{
    let mut actions: Vec<WindowAction> = Vec::new();
    push_act(&mut actions, action);
    assert(acts(actions@) =~= seq![action@]);
    actions
}

fn no_actions() -> (r: Vec<WindowAction>)
    ensures
        acts(r@) == Seq::<Act>::empty(),
{
    let actions: Vec<WindowAction> = Vec::new();
    assert(acts(actions@) =~= Seq::<Act>::empty());
    actions
}

fn resized(how: u32) -> (r: Vec<WindowAction>)
    ensures
        acts(r@) == resize_acts(how as int),
{
    let mut actions: Vec<WindowAction> = one(WindowAction::Repaint);
    if how != SIZE_MAXIMIZED {
        push_act(&mut actions, WindowAction::Repaint);
        assert(acts(actions@) =~= seq![Act::Repaint, Act::Repaint]);
    }
    actions
}

fn size_reply(lparam: i64) -> (r: Reply)
    ensures
        r == attaching(lparam as int),
{
    let size: (u32, u32) = size_of(lparam);
    if size.0 > 0 && size.1 > 0 {
        Reply::Attach(size.0, size.1)
    } else {
        Reply::Answer(0)
    }
}

/// How far the wheel turned: the upper half of the parameter's lower word.
fn wheel_delta(wparam: u64) -> (r: i16)
    ensures
        r == signed_half(wparam as int / 65536),
{
    let half: u64 = wparam / 65536 % 65536;
    if half >= 32768 {
        (half as i64 - 65536) as i16
    } else {
        half as i16
    }
}

impl Window {
    /// The window procedure: what a message does to the window, what it asks for, and what
    /// the system is answered.
    ///
    /// A hit test inside the borders needs a page that was laid out.
    #[verifier::rlimit(60)]
    pub fn window_proc(&mut self, message: u32, input: &Input) -> (r: (Vec<WindowAction>, Reply))
        requires
            old(self).wf(),
            message == WM_NCHITTEST && edge_of(
                input.x as int,
                input.y as int,
                input.width as int,
                input.height as int,
                old(self).metrics,
            ) is None ==> old(self).layout is Some,
        ensures
            final(self).wf(),
            final(self).config == old(self).config,
            final(self).values == old(self).values,
            final(self).palette == old(self).palette,
            final(self).layout == old(self).layout,
            final(self).status == old(self).status,
            final(self).interaction.open_color == old(self).interaction.open_color,
            final(self).interaction.color_highlight == old(self).interaction.color_highlight,
            final(self).metrics.dpi == (if message == WM_DPICHANGED {
                input.dpi
            } else {
                old(self).metrics.dpi
            }),
            ({
                let (turn, reply) = handled(
                    old(self).ui(),
                    old(self).scene(),
                    message,
                    *input,
                );
                &&& final(self).ui() == turn.ui
                &&& acts(r.0@) == turn.acts
                &&& r.1 == reply
            }),
    {
        let point: (i32, i32) = point_of(input.lparam);
        let x: i64 = point.0 as i64 * PIXEL;
        let y: i64 = point.1 as i64 * PIXEL;
        let low: u32 = (input.wparam % 0x1_0000_0000) as u32;
        if message == WM_NCCALCSIZE && input.wparam != 0 {
            (no_actions(), Reply::Answer(0))
        } else if message == WM_GETMINMAXINFO {
            let least: (i32, i32) = min_track_size(&self.metrics);
            (no_actions(), Reply::MinSize(least.0, least.1))
        } else if message == WM_NCHITTEST {
            let place: HitCode = match &self.layout {
                Some(layout) => non_client_hit(
                    layout,
                    &self.metrics,
                    input.x,
                    input.y,
                    input.width,
                    input.height,
                ),
                None => match edge_hit(
                    &self.metrics,
                    input.x,
                    input.y,
                    input.width,
                    input.height,
                ) {
                    Some(edge) => edge,
                    None => HitCode::Client,
                },
            };
            (no_actions(), Reply::Answer(hit_code(place)))
        } else if message == WM_SETCURSOR {
            (no_actions(), Reply::Answer(1))
        } else if message == WM_SIZE {
            (resized(low), size_reply(input.lparam))
        } else if message == WM_DPICHANGED {
            self.metrics = Metrics::new(input.dpi);
            (one(WindowAction::Repaint), Reply::NewSurface)
        } else if message == WM_PAINT {
            (one(WindowAction::Repaint), Reply::Validated)
        } else if message == WM_ERASEBKGND {
            (no_actions(), Reply::Answer(1))
        } else if message == WM_MOUSEMOVE {
            if self.drag_row.is_some() {
                (self.drag_to(x), Reply::Answer(0))
            } else {
                (self.hover(x, y, true), Reply::Answer(0))
            }
        } else if message == WM_MOUSELEAVE {
            (self.hover(0, 0, false), Reply::Answer(0))
        } else if message == WM_LBUTTONDOWN {
            (self.click(x, y, &input.read), Reply::Answer(0))
        } else if message == WM_LBUTTONUP {
            (self.release(), Reply::Answer(0))
        } else if message == WM_MOUSEWHEEL {
            let delta: i16 = wheel_delta(input.wparam);
            (self.scroll_by(delta), Reply::Answer(0))
        } else if message == WM_KEYDOWN || (message == WM_SYSKEYDOWN
            && self.interaction.recording.is_some()) {
            (self.key(low, input.held, input.pasted, &input.read), Reply::Answer(0))
        } else if message == WM_CHAR {
            match char_of(low) {
                Some(c) => (self.character(c), Reply::Answer(0)),
                None => (no_actions(), Reply::Answer(0)),
            }
        } else if message == WM_APP_REFRESH {
            (one(WindowAction::Repaint), Reply::Refresh)
        } else if message == WM_APP_CLOSE || message == WM_CLOSE {
            (one(WindowAction::Close), Reply::Answer(0))
        } else if message == WM_DESTROY {
            (no_actions(), Reply::Destroyed)
        } else {
            (no_actions(), Reply::Default)
        }
    }
}

/// An open dropdown swallows the next click, wherever it lands: the list closes, and nothing
/// else happens.
pub proof fn an_open_list_swallows_the_next_click(
    ui: Ui,
    scene: Scene,
    read: EditReading,
    x: int,
    y: int,
)
    requires
        scene.laid,
        ui.open_dropdown is Some,
        button_under(scene, x, y) is None,
        picked(ui, scene, x, y) is None,
    ensures
        clicked(ui, scene, read, x, y) == (Turn {
            ui: Ui { open_dropdown: None, ..ui },
            acts: seq![Act::Repaint],
        }),
{
}

/// A row that only shows something offers no hover state.
pub proof fn a_read_only_row_offers_no_hover(ui: Ui, scene: Scene, x: int, y: int)
    requires
        Window::row_under(scene, x, y) matches Some(i) && scene.rows[i].field.kind is Info,
    ensures
        hovered(ui, scene, x, y, true).hover_row is None,
        hovered(ui, scene, x, y, true).hover_part is None,
{
}

/// What the pointer was on is forgotten once it leaves the window.
pub proof fn leaving_clears_the_hover(ui: Ui, scene: Scene, input: Input)
    ensures
        ({
            let next = handled(ui, scene, WM_MOUSELEAVE, input).0.ui;
            &&& next.hover_row is None && next.hover_part is None
            &&& next.hover_nav is None && next.hover_window is None
        }),
{
}

/// A click on a slider's track stores its least value at the left end and its greatest at the
/// right end. In between the value is as far up the range as the place is along the track, to
/// the nearest millionth, halves upwards.
pub proof fn a_click_stores_its_place_on_the_track(slider: Slider, at: Fraction)
    requires
        slider.min <= slider.max,
        at.wf(),
    ensures
        ({
            let (n, d) = (at.numerator as int, at.denominator as int);
            let value = slid(slider, at);
            &&& n == 0 ==> value == slider.min
            &&& n == d ==> value == slider.max
            &&& slider.min <= value <= slider.max
            &&& -d < 2 * ((value - slider.min) * d - (slider.max - slider.min) * n) <= d
        }),
{
    let (n, d) = (at.numerator as int, at.denominator as int);
    let span = slider.max - slider.min;
    let q = nearest(span * n, d);
    assert(0 <= span * n <= span * d) by (nonlinear_arith)
        requires
            0 <= span,
            0 <= n <= d,
    ;
    nearest_is_within_half(span * n, d);
    let p = span * n;
    assert(0 <= q <= span) by (nonlinear_arith)
        requires
            -d < 2 * (q * d - p) <= d,
            0 <= p <= span * d,
            d > 0,
    ;
    assert(p == 0 ==> q == 0) by (nonlinear_arith)
        requires
            -d < 2 * (q * d - p) <= d,
            d > 0,
    ;
    assert(p == span * d ==> q == span) by (nonlinear_arith)
        requires
            -d < 2 * (q * d - p) <= d,
            d > 0,
    ;
    assert(n == 0 ==> p == 0) by (nonlinear_arith)
        requires
            p == span * n,
    ;
}

/// A drag stores the step of the slider that is nearest to the place on the track, and never
/// more than the greatest value.
#[verifier::spinoff_prover]
pub proof fn a_drag_stores_the_nearest_step(slider: Slider, at: Fraction)
    requires
        slider.min <= slider.max,
        slider.step > 0,
        at.wf(),
    ensures
        ({
            let (n, d) = (at.numerator as int, at.denominator as int);
            let value = snapped(slider, at);
            let off = 2 * ((value - slider.min) * d - (slider.max - slider.min) * n);
            &&& slider.min <= value <= slider.max
            &&& -(d * slider.step) <= off <= d * slider.step
            &&& n == 0 ==> value == slider.min
            &&& value == slider.max || exists|k: int|
                value == slider.min + #[trigger] (k * slider.step)
        }),
{
    let (n, d) = (at.numerator as int, at.denominator as int);
    let span = slider.max - slider.min;
    let step = slider.step as int;
    a_dragged_slider_stays_on_its_steps(slider, at);
    let p = span * n;
    let whole = d * step;
    assert(0 <= p <= span * d && 0 < whole) by (nonlinear_arith)
        requires
            p == span * n,
            whole == d * step,
            0 <= span,
            0 <= n <= d,
            0 < d,
            0 < step,
    ;
    let k = nearest(p, whole);
    nearest_is_within_half(p, whole);
    let up = k * step;
    assert(k * whole == up * d) by (nonlinear_arith)
        requires
            whole == d * step,
            up == k * step,
    ;
    assert(0 <= up) by (nonlinear_arith)
        requires
            up == k * step,
            k >= 0,
            step > 0,
    ;
    let value = snapped(slider, at);
    if up > span {
        assert(value == slider.max);
        assert(p <= span * d < up * d) by (nonlinear_arith)
            requires
                p <= span * d,
                span < up,
                d > 0,
        ;
    } else {
        assert(value == slider.min + k * slider.step);
    }
}

/// Further right is never less, for a click as for a drag, and at one place the two differ by
/// at most half a step, to the millionth.
#[verifier::spinoff_prover]
pub proof fn further_right_is_never_less(slider: Slider, at: Fraction, right: Fraction)
    requires
        slider.min <= slider.max,
        slider.step > 0,
        at.wf(),
        right.wf(),
        at.denominator == right.denominator,
        at.numerator <= right.numerator,
    ensures
        slid(slider, at) <= slid(slider, right),
        snapped(slider, at) <= snapped(slider, right),
        -(slider.step + 1) <= 2 * (slid(slider, at) - snapped(slider, at)) <= slider.step + 1,
{
    let (n, m, d) = (at.numerator as int, right.numerator as int, at.denominator as int);
    let span = slider.max - slider.min;
    let step = slider.step as int;
    let (p, q) = (span * n, span * m);
    assert(0 <= p <= q) by (nonlinear_arith)
        requires
            p == span * n,
            q == span * m,
            0 <= span,
            0 <= n <= m,
    ;
    let (a, b) = (nearest(p, d), nearest(q, d));
    nearest_is_within_half(p, d);
    nearest_is_within_half(q, d);
    assert(a <= b) by (nonlinear_arith)
        requires
            -d < 2 * (a * d - p) <= d,
            -d < 2 * (b * d - q) <= d,
            p <= q,
            d > 0,
    ;
    let whole = d * step;
    assert(whole > 0) by (nonlinear_arith)
        requires
            whole == d * step,
            d > 0,
            step > 0,
    ;
    let (k, l) = (nearest(p, whole), nearest(q, whole));
    nearest_is_within_half(p, whole);
    nearest_is_within_half(q, whole);
    assert(k <= l) by (nonlinear_arith)
        requires
            -whole < 2 * (k * whole - p) <= whole,
            -whole < 2 * (l * whole - q) <= whole,
            p <= q,
            whole > 0,
    ;
    assert(k * step <= l * step) by (nonlinear_arith)
        requires
            k <= l,
            step > 0,
    ;
    a_click_stores_its_place_on_the_track(slider, at);
    a_drag_stores_the_nearest_step(slider, at);
    let (u, v) = (slid(slider, at) - slider.min, snapped(slider, at) - slider.min);
    assert(2 * (u - v) * d <= (step + 1) * d && -((step + 1) * d) <= 2 * (u - v) * d)
        by (nonlinear_arith)
        requires
            -d < 2 * (u * d - p) <= d,
            -(d * step) <= 2 * (v * d - p) <= d * step,
    ;
    assert(2 * (u - v) <= step + 1 && -(step + 1) <= 2 * (u - v)) by (nonlinear_arith)
        requires
            2 * (u - v) * d <= (step + 1) * d,
            -((step + 1) * d) <= 2 * (u - v) * d,
            d > 0,
    ;
}

/// Is exactly one thing asked for, which is to store a tree that reads as `value` at `path`?
pub open spec fn stores(acts: Seq<Act>, path: Seq<char>, value: ValueModel) -> bool {
    &&& acts.len() == 1
    &&& acts[0] matches Act::Store(tree) && reading(tree, path) == Some(value)
}

/// Do two values have the same type?
pub open spec fn alike(one: Option<ValueModel>, other: ValueModel) -> bool {
    match (one, other) {
        (Some(ValueModel::Bool(_)), ValueModel::Bool(_)) => true,
        (Some(ValueModel::Integer(_)), ValueModel::Integer(_)) => true,
        (Some(ValueModel::Float(_)), ValueModel::Float(_)) => true,
        (Some(ValueModel::Text(_)), ValueModel::Text(_)) => true,
        _ => false,
    }
}

/// What a row stores is read back at the path of that row, and no other setting changes.
pub proof fn a_row_stores_at_its_own_path(
    scene: Scene,
    row: int,
    value: ValueModel,
    other: Seq<char>,
)
    requires
        0 <= row < scene.rows.len(),
        scene.rows[row].field.path@.len() > 0,
        alike(reading(scene.values, scene.rows[row].field.path@), value),
    ensures
        stores(storing(scene, row, value), scene.rows[row].field.path@, value),
        ({
            let here = segments(scene.rows[row].field.path@);
            let there = segments(other);
            !here.is_prefix_of(there) && !there.is_prefix_of(here) ==> reading(
                storing(scene, row, value)[0]->Store_0,
                other,
            ) == reading(scene.values, other)
        }),
{
    let path = scene.rows[row].field.path@;
    a_value_of_the_same_type_comes_back(scene.values, path, value);
    let leaf = coerced(scene.values.at(segments(path))->0, value)->0;
    if !segments(path).is_prefix_of(segments(other)) && !segments(other).is_prefix_of(
        segments(path),
    ) {
        a_write_leaves_the_others(scene.values, segments(path), leaf, segments(other));
    }
}

/// A click on a slider's track and a drag along it store a value that fits the place: with the
/// pointer at the left end of the track or beyond it the least value, at the right end of it
/// the greatest for a click, and in between in proportion. The click takes the pointer, so
/// that a drag can follow.
#[verifier::spinoff_prover]
pub proof fn a_slider_stores_where_the_pointer_is(
    ui: Ui,
    scene: Scene,
    read: EditReading,
    row: usize,
    slider: Slider,
    x: int,
)
    requires
        row < scene.rows.len(),
        scene.rows[row as int].field.kind == Kind::Slider(slider),
        slider.min <= slider.max,
        slider.step > 0,
        scene.rows[row as int].field.path@.len() > 0,
        reading(scene.values, scene.rows[row as int].field.path@) is Some,
        reading(scene.values, scene.rows[row as int].field.path@)->0 is Float,
        ({
            let track = parts_of(Kind::Slider(slider), scene.rows[row as int].control, scene.m).slider;
            track is Some && track->0.wf() && track->0.left < track->0.right
        }),
        near(x),
    ensures
        ({
            let path = scene.rows[row as int].field.path@;
            let track = parts_of(
                Kind::Slider(slider),
                scene.rows[row as int].control,
                scene.m,
            ).slider->0;
            let wide = track.right - track.left;
            let span = slider.max - slider.min;
            let turn = acted(ui, scene, read, row, Part::SliderTrack, x);
            &&& turn.ui == (Ui { drag: Some(row), ..ui })
            &&& turn.acts.len() == 2
            &&& turn.acts[0] is Capture
            &&& turn.acts[1] matches Act::Store(tree) && (reading(tree, path) matches Some(
                ValueModel::Float(value),
            ) && {
                &&& x <= track.left ==> value == slider.min
                &&& x >= track.right ==> value == slider.max
                &&& track.left <= x <= track.right ==> -wide < 2 * ((value - slider.min) * wide
                    - span * (x - track.left)) <= wide
            })
        }),
        ui.drag == Some(row) ==> ({
            let path = scene.rows[row as int].field.path@;
            let track = parts_of(
                Kind::Slider(slider),
                scene.rows[row as int].control,
                scene.m,
            ).slider->0;
            let wide = track.right - track.left;
            let span = slider.max - slider.min;
            let acts = dragged(ui, scene, x);
            &&& acts.len() == 1
            &&& acts[0] matches Act::Store(tree) && (reading(tree, path) matches Some(
                ValueModel::Float(value),
            ) && {
                &&& slider.min <= value <= slider.max
                &&& x <= track.left ==> value == slider.min
                &&& track.left <= x <= track.right ==> -(wide * slider.step) <= 2 * ((value
                    - slider.min) * wide - span * (x - track.left)) <= wide * slider.step
            })
        }),
{
    let kind = Kind::Slider(slider);
    let parts = parts_of(kind, scene.rows[row as int].control, scene.m);
    a_track_maps_onto_its_range(parts, x);
    let at = parts.fraction(x)->0;
    let track = parts.slider->0;
    assert(at.denominator == track.right - track.left);
    assert(track.left <= x <= track.right ==> at.numerator == x - track.left);
    let path = scene.rows[row as int].field.path@;
    let clicked = ValueModel::Float(slid(slider, at));
    let held = ValueModel::Float(snapped(slider, at));
    a_click_stores_its_place_on_the_track(slider, at);
    a_drag_stores_the_nearest_step(slider, at);
    a_row_stores_at_its_own_path(scene, row as int, clicked, path);
    a_row_stores_at_its_own_path(scene, row as int, held, path);
    let turn = acted(ui, scene, read, row, Part::SliderTrack, x);
    assert(turn.acts == seq![Act::Capture] + storing(scene, row as int, clicked));
    assert(turn.acts[1] == storing(scene, row as int, clicked)[0]);
}

/// A click on a switch stores the opposite of what it shows, and does nothing else.
pub proof fn a_clicked_switch_flips(
    ui: Ui,
    scene: Scene,
    read: EditReading,
    row: usize,
    part: Part,
    x: int,
    on: bool,
)
    requires
        row < scene.rows.len(),
        scene.rows[row as int].field.kind is Switch,
        reading(scene.values, scene.rows[row as int].field.path@) == Some(ValueModel::Bool(on)),
    ensures
        ({
            let turn = acted(ui, scene, read, row, part, x);
            &&& turn.ui == ui
            &&& stores(turn.acts, scene.rows[row as int].field.path@, ValueModel::Bool(!on))
        }),
{
    a_value_of_the_same_type_comes_back(
        scene.values,
        scene.rows[row as int].field.path@,
        ValueModel::Bool(!on),
    );
}

/// A click on a dropdown opens its list, and stores nothing; a click on an entry of the list
/// stores that entry's value and closes the list. The entry is the one whose line of
/// twenty-six units the pointer is on.
#[verifier::spinoff_prover]
pub proof fn a_picked_entry_is_stored(
    ui: Ui,
    scene: Scene,
    read: EditReading,
    row: usize,
    part: Part,
    x: int,
    y: int,
)
    requires
        row < scene.rows.len(),
        scene.rows[row as int].field.kind is Select,
        scene.rows[row as int].field.path@.len() > 0,
        reading(scene.values, scene.rows[row as int].field.path@) is Some,
        reading(scene.values, scene.rows[row as int].field.path@)->0 is Text,
        scene.laid,
        scene.m.dpi > 0,
    ensures
        ({
            let opened = acted(ui, scene, read, row, part, x);
            &&& opened.ui.open_dropdown == Some(row)
            &&& opened.ui.highlight == 0
            &&& opened.acts == seq![Act::Repaint]
        }),
        ui.open_dropdown == Some(row) && button_under(scene, x, y) is None ==> ({
            let list = scene.rows[row as int].field.kind->Select_0.list();
            let place = list_rect(
                scene.rows[row as int].control,
                list.len() as int,
                scene.viewport.bottom as int,
                scene.m,
            );
            let line = 26_000 * scene.m.dpi;
            let turn = clicked(ui, scene, read, x, y);
            &&& turn.ui.open_dropdown is None
            &&& turn.acts.last() is Repaint
            &&& place matches Some(r) ==> forall|entry: int|
                0 <= entry < list.len() && r.left <= x < r.right && r.top <= y < r.bottom && r.top
                    + #[trigger] (entry * line) <= y < r.top + entry * line + line ==> stores(
                    turn.acts.drop_last(),
                    scene.rows[row as int].field.path@,
                    ValueModel::Text(list[entry].value@),
                )
        }),
{
    let list = scene.rows[row as int].field.kind->Select_0.list();
    let path = scene.rows[row as int].field.path@;
    let line = 26_000 * scene.m.dpi;
    if ui.open_dropdown == Some(row) && button_under(scene, x, y) is None {
        let place = list_rect(
            scene.rows[row as int].control,
            list.len() as int,
            scene.viewport.bottom as int,
            scene.m,
        );
        let turn = clicked(ui, scene, read, x, y);
        if place is Some {
            let r = place->0;
            assert forall|entry: int|
                0 <= entry < list.len() && r.left <= x < r.right && r.top <= y < r.bottom && r.top
                    + #[trigger] (entry * line) <= y < r.top + entry * line + line implies stores(
                turn.acts.drop_last(),
                path,
                ValueModel::Text(list[entry].value@),
            ) by {
                let off = y - r.top;
                assert(off / line == entry) by (nonlinear_arith)
                    requires
                        entry * line <= off < entry * line + line,
                        line > 0,
                ;
                assert(picked(ui, scene, x, y) == Some((row, entry)));
                let value = ValueModel::Text(list[entry].value@);
                a_row_stores_at_its_own_path(scene, row as int, value, path);
                assert(turn.acts.drop_last() =~= storing(scene, row as int, value));
            }
        }
    }
}

/// The arrow keys move the highlight of an open list by one entry and stop at its ends, Enter
/// stores the entry that is highlighted, Escape stores nothing, and either closes the list.
#[verifier::spinoff_prover]
pub proof fn an_open_list_is_driven_by_keys(
    ui: Ui,
    scene: Scene,
    read: EditReading,
    held: Modifiers,
    pasted: Option<Seq<char>>,
    row: usize,
)
    requires
        ui.open_dropdown == Some(row),
        row < scene.rows.len(),
        scene.rows[row as int].field.kind is Select,
        scene.rows[row as int].field.path@.len() > 0,
        reading(scene.values, scene.rows[row as int].field.path@) is Some,
        reading(scene.values, scene.rows[row as int].field.path@)->0 is Text,
        0 <= ui.highlight < scene.rows[row as int].field.kind->Select_0.list().len(),
    ensures
        ({
            let list = scene.rows[row as int].field.kind->Select_0.list();
            let up = pressed(ui, scene, read, 0x26, held, pasted);
            let down = pressed(ui, scene, read, 0x28, held, pasted);
            let enter = pressed(ui, scene, read, 0x0D, held, pasted);
            let escape = pressed(ui, scene, read, 0x1B, held, pasted);
            &&& up.ui.highlight == (if ui.highlight == 0 {
                0
            } else {
                ui.highlight - 1
            })
            &&& down.ui.highlight == (if ui.highlight == list.len() - 1 {
                ui.highlight
            } else {
                ui.highlight + 1
            })
            &&& up.ui.open_dropdown == Some(row) && down.ui.open_dropdown == Some(row)
            &&& up.acts == seq![Act::Repaint] && down.acts == seq![Act::Repaint]
            &&& enter.ui.open_dropdown is None && escape.ui.open_dropdown is None
            &&& stores(
                enter.acts,
                scene.rows[row as int].field.path@,
                ValueModel::Text(list[ui.highlight].value@),
            )
            &&& escape.acts == seq![Act::Repaint]
        }),
{
    let list = scene.rows[row as int].field.kind->Select_0.list();
    let path = scene.rows[row as int].field.path@;
    let value = ValueModel::Text(list[ui.highlight].value@);
    a_row_stores_at_its_own_path(scene, row as int, value, path);
}

/// Editing a row begins with the text of the value that it holds, and Enter stores what has
/// been typed by then, without the blanks at its ends. A number and a colour are checked
/// first: what is neither is not stored.
#[verifier::spinoff_prover]
pub proof fn an_edit_stores_what_was_typed(
    ui: Ui,
    scene: Scene,
    read: EditReading,
    held: Modifiers,
    pasted: Option<Seq<char>>,
    row: usize,
)
    requires
        row < scene.rows.len(),
        scene.rows[row as int].field.path@.len() > 0,
        ui.focused == Some(row),
        ui.open_dropdown is None,
        ui.recording is None,
    ensures
        ({
            let path = scene.rows[row as int].field.path@;
            let now = reading(scene.values, path);
            let enter = pressed(ui, scene, read, 0x0D, held, pasted);
            &&& enter.ui.focused is None
            &&& enter.ui.editing.len() == 0
            &&& match scene.rows[row as int].field.kind {
                Kind::Text { .. } => now is Some && now->0 is Text ==> stores(
                    enter.acts,
                    path,
                    ValueModel::Text(trimmed(ui.editing)),
                ),
                Kind::Color => {
                    &&& !read.is_color ==> enter.acts == seq![Act::Repaint]
                    &&& read.is_color && now is Some && now->0 is Text ==> stores(
                        enter.acts,
                        path,
                        ValueModel::Text(trimmed(ui.editing).map_values(|c: char| upper(c))),
                    )
                },
                Kind::Number { min, max, suffix } => {
                    &&& read.number is None ==> enter.acts == seq![Act::Repaint]
                    &&& read.number is Some && now is Some && now->0 is Integer && min <= max
                        ==> exists|value: int|
                        {
                            let number = read.number->0;
                            &&& #[trigger] stores(enter.acts, path, ValueModel::Integer(value))
                            &&& min <= value <= max
                            &&& number <= min * 1_000_000 ==> value == min
                            &&& number >= max * 1_000_000 ==> value == max
                            &&& min * 1_000_000 <= number <= max * 1_000_000 ==> -1_000_000 <= 2 * (
                            value * 1_000_000 - number) <= 1_000_000
                        }
                },
                _ => true,
            }
        }),
{
    let path = scene.rows[row as int].field.path@;
    let now = reading(scene.values, path);
    match scene.rows[row as int].field.kind {
        Kind::Text { .. } => {
            if now is Some && now->0 is Text {
                let value = ValueModel::Text(trimmed(ui.editing));
                a_row_stores_at_its_own_path(scene, row as int, value, path);
            }
        },
        Kind::Color => {
            if now is Some && now->0 is Text {
                let value = ValueModel::Text(trimmed(ui.editing).map_values(|c: char| upper(c)));
                a_row_stores_at_its_own_path(scene, row as int, value, path);
            }
        },
        Kind::Number { min, max, suffix } => {
            if read.number is Some && now is Some && now->0 is Integer && min <= max {
                let number = read.number->0 as int;
                let value = limited(number, min as int, max as int);
                a_typed_number_is_rounded_into_its_limits(number, min as int, max as int);
                a_row_stores_at_its_own_path(scene, row as int, ValueModel::Integer(value), path);
                let enter = pressed(ui, scene, read, 0x0D, held, pasted);
                assert(stores(enter.acts, path, ValueModel::Integer(value)));
            }
        },
        _ => {},
    }
}

/// A typed number is stored as the nearest whole one between the limits of its row; below them
/// it is the lower limit and above them the upper.
pub proof fn a_typed_number_is_rounded_into_its_limits(number: int, min: int, max: int)
    requires
        min <= max,
    ensures
        ({
            let value = limited(number, min, max);
            &&& min <= value <= max
            &&& number <= min * 1_000_000 ==> value == min
            &&& number >= max * 1_000_000 ==> value == max
            &&& min * 1_000_000 <= number <= max * 1_000_000 ==> -1_000_000 <= 2 * (value
                * 1_000_000 - number) <= 1_000_000
        }),
{
    a_typed_number_stays_in_its_limits(number, min, max);
    nearest_is_within_half(number, 1_000_000);
}

/// What a row is edited from is what it holds: a text as it is, a whole number in decimal.
/// Clicking a box of text, a number or a colour puts the caret there.
pub proof fn an_edit_begins_with_the_value(
    ui: Ui,
    scene: Scene,
    read: EditReading,
    row: usize,
    x: int,
    i: usize,
)
    requires
        row < scene.rows.len(),
        scene.rows[row as int].field.kind is Text || scene.rows[row as int].field.kind is Number
            || scene.rows[row as int].field.kind is Color,
        ui.focused is None,
    ensures
        ({
            let turn = acted(ui, scene, read, row, Part::Box(i), x);
            let value = reading(scene.values, scene.rows[row as int].field.path@);
            &&& turn.ui.focused == Some(row)
            &&& turn.acts == seq![Act::Repaint]
            &&& value matches Some(ValueModel::Text(text)) ==> turn.ui.editing == text
            &&& value matches Some(ValueModel::Integer(number)) ==> (number >= 0 ==> number_read(
                turn.ui.editing,
            ) == number) && (number < 0 ==> turn.ui.editing[0] == '-' && number_read(
                turn.ui.editing.skip(1),
            ) == -number)
            &&& value is None ==> turn.ui.editing.len() == 0
        }),
{
    let value = reading(scene.values, scene.rows[row as int].field.path@);
    if value is Some && value->0 is Integer {
        decimals_read_back(value->0->Integer_0);
    }
    assert(Seq::<Act>::empty().push(Act::Repaint) =~= seq![Act::Repaint]);
}

/// A row that records a key combination stores it when a letter, a digit or a function key
/// ends it: the held modifiers first, then the key. Backspace stores no combination at all and
/// Escape stores nothing; all of them end the recording. Any other key only shows what is held.
#[verifier::spinoff_prover]
pub proof fn a_heard_combination_is_stored(
    ui: Ui,
    scene: Scene,
    read: EditReading,
    key: u32,
    held: Modifiers,
    pasted: Option<Seq<char>>,
    row: usize,
)
    requires
        row < scene.rows.len(),
        scene.rows[row as int].field.path@.len() > 0,
        reading(scene.values, scene.rows[row as int].field.path@) is Some,
        reading(scene.values, scene.rows[row as int].field.path@)->0 is Text,
        ui.recording == Some(row),
        ui.open_dropdown is None,
    ensures
        ({
            let path = scene.rows[row as int].field.path@;
            let turn = pressed(ui, scene, read, key, held, pasted);
            let letter = 0x30 <= key <= 0x39 || 0x41 <= key <= 0x5A;
            let function = 0x70 <= key <= 0x87;
            &&& turn.acts.last() is Repaint
            &&& letter || function || key == 0x08 || key == 0x1B ==> turn.ui.recording is None
                && turn.ui.recorded.len() == 0
            &&& key == 0x1B ==> turn.acts.len() == 1
            &&& key == 0x08 ==> stores(turn.acts.drop_last(), path, ValueModel::Text(Seq::empty()))
            &&& letter ==> stores(
                turn.acts.drop_last(),
                path,
                ValueModel::Text(held.prefix().push(key as char)),
            )
            &&& function ==> stores(
                turn.acts.drop_last(),
                path,
                ValueModel::Text(held.prefix().push('F') + decimal(key - 111)),
            )
            &&& !letter && !function && key != 0x08 && key != 0x1B ==> turn.acts.len() == 1
                && turn.ui.recording == Some(row) && turn.ui.recorded == held.prefix()
        }),
{
    reveal_strlit("F");
    let path = scene.rows[row as int].field.path@;
    let turn = pressed(ui, scene, read, key, held, pasted);
    let text = if key == 0x08 {
        Seq::empty()
    } else {
        held.prefix() + key_name(key)->0
    };
    if 0x30 <= key <= 0x39 || 0x41 <= key <= 0x5A {
        assert(text =~= held.prefix().push(key as char));
    } else if 0x70 <= key <= 0x87 {
        assert(text =~= held.prefix().push('F') + decimal(key - 111));
    }
    a_row_stores_at_its_own_path(scene, row as int, ValueModel::Text(text), path);
    let stored = storing(scene, row as int, ValueModel::Text(text));
    assert(stored.push(Act::Repaint).drop_last() =~= stored);
}

/// A combination names the modifiers that are held, each once and in a fixed order: control,
/// alt, shift, windows.
#[verifier::spinoff_prover]
pub proof fn modifiers_come_in_order(held: Modifiers)
    ensures
        ({
            let c = if held.control {
                5int
            } else {
                0
            };
            let a = if held.alt {
                c + 4
            } else {
                c
            };
            let s = if held.shift {
                a + 6
            } else {
                a
            };
            let w = if held.windows {
                s + 4
            } else {
                s
            };
            let text = held.prefix();
            &&& text.len() == w
            &&& held.control ==> text.subrange(0, c) == "Ctrl+"@
            &&& held.alt ==> text.subrange(c, a) == "Alt+"@
            &&& held.shift ==> text.subrange(a, s) == "Shift+"@
            &&& held.windows ==> text.subrange(s, w) == "Win+"@
        }),
{
    reveal_strlit("Ctrl+");
    reveal_strlit("Alt+");
    reveal_strlit("Shift+");
    reveal_strlit("Win+");
    let text = held.prefix();
    let c = if held.control {
        5int
    } else {
        0
    };
    let a = if held.alt {
        c + 4
    } else {
        c
    };
    let s = if held.shift {
        a + 6
    } else {
        a
    };
    let w = if held.windows {
        s + 4
    } else {
        s
    };
    if held.control {
        assert(text.subrange(0, c) =~= "Ctrl+"@);
    }
    if held.alt {
        assert(text.subrange(c, a) =~= "Alt+"@);
    }
    if held.shift {
        assert(text.subrange(a, s) =~= "Shift+"@);
    }
    if held.windows {
        assert(text.subrange(s, w) =~= "Win+"@);
    }
}

/// A click on a hotkey row starts to record on that row, and stores nothing by itself.
pub proof fn a_clicked_hotkey_listens(
    ui: Ui,
    scene: Scene,
    read: EditReading,
    row: usize,
    part: Part,
    x: int,
)
    requires
        row < scene.rows.len(),
        scene.rows[row as int].field.kind is Hotkey,
        ui.focused is None,
    ensures
        ({
            let turn = acted(ui, scene, read, row, part, x);
            &&& turn.ui.recording == Some(row)
            &&& turn.ui.recorded.len() == 0
            &&& turn.acts == seq![Act::Repaint]
        }),
{
    assert(Seq::<Act>::empty().push(Act::Repaint) =~= seq![Act::Repaint]);
}

/// A notch of the wheel, a hundred and twenty, moves the page by three rows of thirty-eight
/// units: towards the top when it is turned away from the user. The page stops at its ends,
/// and a page that has no end to reach does not move.
pub proof fn a_notch_scrolls_three_rows(ui: Ui, scene: Scene, delta: int)
    requires
        0 <= ui.scroll,
    ensures
        ({
            let turn = wheeled(ui, scene, delta);
            let by = delta * (3 * 38_000 * scene.m.dpi);
            let unbound = 120 * ui.scroll - by;
            &&& scene.scroll_max <= 0 ==> turn.ui == ui && turn.acts.len() == 0
            &&& scene.scroll_max > 0 ==> turn.acts == seq![Act::Repaint] && turn.ui == (Ui {
                scroll: turn.ui.scroll,
                ..ui
            })
            &&& scene.scroll_max > 0 && 0 <= unbound <= 120 * scene.scroll_max ==> 120
                * turn.ui.scroll == unbound
            &&& scene.scroll_max > 0 && unbound < 0 ==> turn.ui.scroll == 0
            &&& scene.scroll_max > 0 && unbound > 120 * scene.scroll_max ==> turn.ui.scroll
                == scene.scroll_max
        }),
{
    let by = delta * scene.m.at(950);
    assert(120 * by == delta * (3 * 38_000 * scene.m.dpi)) by (nonlinear_arith)
        requires
            by == delta * (950 * scene.m.dpi),
    ;
}

/// A click on the scrollbar jumps in proportion: its top to the top of the page, its bottom to
/// the end, and further down never less far.
pub proof fn a_jump_is_in_proportion(scene: Scene, y: int, lower: int)
    requires
        scene.scroll_max >= 0,
        scene.viewport.bottom - scene.viewport.top >= 96_000,
        y <= lower,
    ensures
        y <= scene.viewport.top ==> jumped(scene, y) == 0,
        y >= scene.viewport.bottom ==> jumped(scene, y) == scene.scroll_max,
        0 <= jumped(scene, y) <= jumped(scene, lower) <= scene.scroll_max,
        scene.viewport.top <= y <= scene.viewport.bottom ==> ({
            let tall = scene.viewport.bottom - scene.viewport.top;
            let exact = (y - scene.viewport.top) * scene.scroll_max;
            jumped(scene, y) * tall <= exact < jumped(scene, y) * tall + tall
        }),
{
    let tall = scene.viewport.bottom - scene.viewport.top;
    let (a, b) = (
        clamped(y - scene.viewport.top, 0, tall),
        clamped(lower - scene.viewport.top, 0, tall),
    );
    let end = scene.scroll_max;
    let (p, q) = (a * end, b * end);
    assert(0 <= p <= q <= tall * end) by (nonlinear_arith)
        requires
            p == a * end,
            q == b * end,
            0 <= a <= b <= tall,
            0 <= end,
    ;
    assert(0 <= p / tall <= q / tall <= end && (p / tall) * tall <= p < (p / tall) * tall + tall)
        by (nonlinear_arith)
        requires
            0 <= p <= q <= tall * end,
            tall > 0,
    ;
    if a == 0 {
        assert(p == 0) by (nonlinear_arith)
            requires
                p == a * end,
                a == 0,
        ;
    }
    if a == tall {
        assert(p / tall == end) by (nonlinear_arith)
            requires
                p == tall * end,
                tall > 0,
        ;
    }
}

/// Choosing another page shows it from its top and writes back what was being edited; choosing
/// the page that is shown does nothing.
pub proof fn a_chosen_page_is_shown_from_its_top(
    ui: Ui,
    scene: Scene,
    read: EditReading,
    section: int,
)
    ensures
        ({
            let turn = switched(ui, scene, read, section);
            &&& turn.ui.section == section
            &&& section == ui.section ==> turn.ui == ui && turn.acts.len() == 0
            &&& section != ui.section ==> turn.ui.scroll == 0 && turn.ui.focused is None
                && turn.acts.last() is Repaint
            &&& section != ui.section ==> turn.acts.drop_last() == committed(ui, scene, read).acts
        }),
{
    let turn = switched(ui, scene, read, section);
    if section != ui.section {
        let acts = committed(Ui { scroll: 0, ..ui }, scene, read).acts;
        assert(turn.acts.drop_last() =~= acts);
    }
}

/// A button of an action row runs its own action, once the edit in progress was written back;
/// then the configuration is read again and drawn. Only quitting closes the window, and that
/// before it is run.
pub proof fn a_button_runs_its_action(
    ui: Ui,
    scene: Scene,
    read: EditReading,
    row: usize,
    i: usize,
    x: int,
)
    requires
        row < scene.rows.len(),
        scene.rows[row as int].field.kind is Action,
        i < scene.rows[row as int].field.kind->Action_0.list().len(),
        ui.focused is None,
    ensures
        ({
            let action = scene.rows[row as int].field.kind->Action_0.list()[i as int].action;
            let acts = acted(ui, scene, read, row, Part::Button(i), x).acts;
            &&& action == ActionId::Quit ==> acts == seq![
                Act::Close,
                Act::Run(action),
                Act::Reload,
                Act::Repaint,
            ]
            &&& action != ActionId::Quit ==> acts == seq![
                Act::Run(action),
                Act::Reload,
                Act::Repaint,
            ]
        }),
{
    let action = scene.rows[row as int].field.kind->Action_0.list()[i as int].action;
    let acts = acted(ui, scene, read, row, Part::Button(i), x).acts;
    if action == ActionId::Quit {
        assert(acts =~= seq![Act::Close, Act::Run(action), Act::Reload, Act::Repaint]);
    } else {
        assert(acts =~= seq![Act::Run(action), Act::Reload, Act::Repaint]);
    }
}

/// The buttons of the title bar come before everything else: a click on one of them closes or
/// minimises the window, whatever is open or being edited, and stores nothing.
pub proof fn the_window_buttons_come_first(
    ui: Ui,
    scene: Scene,
    read: EditReading,
    x: int,
    y: int,
)
    requires
        button_under(scene, x, y) is Some,
    ensures
        clicked(ui, scene, read, x, y).ui == ui,
        button_under(scene, x, y) == Some(WindowButton::Close) ==> clicked(
            ui,
            scene,
            read,
            x,
            y,
        ).acts == seq![Act::Close],
        button_under(scene, x, y) == Some(WindowButton::Minimize) ==> clicked(
            ui,
            scene,
            read,
            x,
            y,
        ).acts == seq![Act::Minimize],
{
}

/// With nothing open, a click goes to the sidebar first, then to the scrollbar, then to the
/// row under it; a click on nothing writes back what was being edited.
pub proof fn a_click_finds_what_is_under_it(
    ui: Ui,
    scene: Scene,
    read: EditReading,
    x: int,
    y: int,
)
    requires
        scene.laid,
        button_under(scene, x, y) is None,
        ui.open_dropdown is None,
        ui.recording is None,
    ensures
        ({
            let turn = clicked(ui, scene, read, x, y);
            let entry = hit_nav(scene.nav, x, y);
            let bar = scene.scroll_max > 0 && scene.scrollbar.holds(x, y);
            let row = Window::row_under(scene, x, y);
            &&& entry is Some ==> turn == switched(ui, scene, read, entry->0)
            &&& entry is None && bar ==> turn.ui == (Ui { scroll: jumped(scene, y), ..ui })
                && turn.acts == seq![Act::Repaint]
            &&& entry is None && !bar && row is None ==> turn == committed(ui, scene, read)
            &&& entry is None && !bar ==> (row matches Some(i) ==> {
                let part = parts_of(
                    scene.rows[i].field.kind,
                    scene.rows[i].control,
                    scene.m,
                ).part(x, y);
                &&& part is None ==> turn == committed(ui, scene, read)
                &&& part is Some ==> turn == acted(ui, scene, read, i as usize, part->0, x)
            })
        }),
{
}

/// A click while a row records a combination ends the recording and does nothing else.
pub proof fn a_click_ends_a_recording(ui: Ui, scene: Scene, read: EditReading, x: int, y: int)
    requires
        scene.laid,
        button_under(scene, x, y) is None,
        ui.open_dropdown is None,
        ui.recording is Some,
    ensures
        ({
            let turn = clicked(ui, scene, read, x, y);
            &&& turn.ui == (Ui { recording: None, recorded: Seq::empty(), ..ui })
            &&& turn.acts == seq![Act::Repaint]
        }),
{
}

/// Moving the pointer changes nothing but what it is on. The page is drawn again exactly when
/// that changed, and the hand shows exactly over a part of a row or an entry of the sidebar.
pub proof fn hovering_stores_nothing(ui: Ui, scene: Scene, x: int, y: int, inside: bool)
    ensures
        ({
            let turn = moved_to(ui, scene, x, y, inside);
            let next = turn.ui;
            &&& next.open_dropdown == ui.open_dropdown && next.focused == ui.focused
                && next.editing == ui.editing && next.scroll == ui.scroll && next.section
                == ui.section && next.drag == ui.drag && next.recording == ui.recording
                && next.recorded == ui.recorded
            &&& turn.acts.last() == Act::Cursor(next.hover_part is Some || next.hover_nav is Some)
            &&& turn.acts.len() == (if next.hover_row == ui.hover_row && next.hover_part
                == ui.hover_part && next.hover_nav == ui.hover_nav && next.hover_window
                == ui.hover_window {
                1int
            } else {
                2
            })
            &&& turn.acts.len() == 2 ==> turn.acts[0] is Repaint
            &&& inside ==> next.hover_window == button_under(scene, x, y)
            &&& inside ==> (next.hover_nav is Some <==> hit_nav(scene.nav, x, y) is Some)
        }),
{
}

/// The border of the window is six units wide. On it the window is resized the way that the
/// border lies, in the corners both ways; inside it the strip of the title bar drags the
/// window, except on its buttons, and the rest is the window's own. The numbers are those that
/// the system knows the places by.
#[verifier::spinoff_prover]
pub proof fn a_border_resizes_its_way(
    x: int,
    y: int,
    width: int,
    height: int,
    titlebar: Rect,
    m: Metrics,
)
    requires
        12_000 * m.dpi <= 96_000 * width,
        12_000 * m.dpi <= 96_000 * height,
    ensures
        ({
            let edge = 6_000 * m.dpi;
            let (px, py) = (96_000 * x, 96_000 * y);
            let (left, top) = (px < edge, py < edge);
            let (right, bottom) = (px >= 96_000 * width - edge, py >= 96_000 * height - edge);
            let (free_x, free_y) = (!left && !right, !top && !bottom);
            let code = code_of(place_of(x, y, width, height, titlebar, m));
            let buttons = buttons_of(titlebar, m);
            let on_button = buttons[0].rect.holds(px, py) || buttons[1].rect.holds(px, py);
            &&& left && free_y ==> code == 10
            &&& right && free_y ==> code == 11
            &&& free_x && top ==> code == 12
            &&& left && top ==> code == 13
            &&& right && top && !left ==> code == 14
            &&& free_x && bottom ==> code == 15
            &&& left && bottom && !top ==> code == 16
            &&& right && bottom && !left && !top ==> code == 17
            &&& free_x && free_y && py < titlebar.bottom && !on_button ==> code == 2
            &&& free_x && free_y && (py >= titlebar.bottom || on_button) ==> code == 1
        }),
{
    let edge = edge_of(x, y, width, height, m);
    let buttons = buttons_of(titlebar, m);
    assert(m.at(6_000) == 6_000 * m.dpi);
    assert(x * PIXEL == 96_000 * x && y * PIXEL == 96_000 * y);
    assert(width * PIXEL == 96_000 * width && height * PIXEL == 96_000 * height);
    assert(buttons[0].rect.holds(x * PIXEL, y * PIXEL) == buttons[0].rect.holds(
        96_000 * x,
        96_000 * y,
    ));
    assert(buttons[1].rect.holds(x * PIXEL, y * PIXEL) == buttons[1].rect.holds(
        96_000 * x,
        96_000 * y,
    ));
}

/// A design length scales with the DPI, from ninety-six on: it is rounded down to whole pixels
/// and held back only by what a coordinate can be.
pub proof fn a_length_scales_with_the_dpi(design: int, dpi: int)
    requires
        0 <= design,
        0 <= dpi,
    ensures
        track(design, 96) == design || design > i32::MAX,
        track(design, dpi) <= i32::MAX,
        track(design, dpi) < i32::MAX ==> 96 * track(design, dpi) <= design * dpi < 96 * track(
            design,
            dpi,
        ) + 96,
{
    let p = design * dpi;
    assert(design * 96 / 96 == design);
}

/// Each message of the system has its effect. The point of a mouse message is in the halves of
/// its second parameter, with their signs; the turn of the wheel is in the upper half of the
/// first; the code of a key or a character is the lower half of the first.
#[verifier::spinoff_prover]
pub proof fn each_message_has_its_effect(ui: Ui, scene: Scene, input: Input, x: int, y: int)
    requires
        -32768 <= x <= 32767,
        0 <= y <= 32767,
        input.lparam == (if x < 0 {
            x + 65536
        } else {
            x
        }) + 65536 * y,
    ensures
        ({
            let (px, py) = (x * 96_000, y * 96_000);
            &&& handled(ui, scene, 0x0201, input) == (
                clicked(ui, scene, input.read, px, py),
                Reply::Answer(0),
            )
            &&& ui.drag is Some ==> handled(ui, scene, 0x0200, input) == (
                Turn { ui, acts: dragged(ui, scene, px) },
                Reply::Answer(0),
            )
            &&& ui.drag is None ==> handled(ui, scene, 0x0200, input) == (
                moved_to(ui, scene, px, py, true),
                Reply::Answer(0),
            )
            &&& handled(ui, scene, 0x0202, input).0.ui == (Ui { drag: None, ..ui })
            &&& ui.drag is Some ==> handled(ui, scene, 0x0202, input).0.acts == seq![
                Act::ReleaseCapture,
            ]
            &&& ui.drag is None ==> handled(ui, scene, 0x0202, input).0.acts.len() == 0
            &&& input.wparam < 0x8000_0000 ==> handled(ui, scene, 0x020A, input).0 == wheeled(
                ui,
                scene,
                input.wparam as int / 65536,
            )
            &&& input.wparam < 0x1_0000_0000 && input.pasted is None ==> handled(
                ui,
                scene,
                0x0100,
                input,
            ).0 == pressed(ui, scene, input.read, input.wparam as u32, input.held, None)
            &&& input.wparam < 0x80 ==> handled(ui, scene, 0x0102, input).0 == typed(
                ui,
                input.wparam as char,
            )
            &&& handled(ui, scene, 0x0010, input).0 == (Turn { ui, acts: seq![Act::Close] })
            &&& handled(ui, scene, 0x000F, input) == (
                Turn { ui, acts: seq![Act::Repaint] },
                Reply::Validated,
            )
            &&& handled(ui, scene, 0x0002, input) == (
                Turn { ui, acts: Seq::empty() },
                Reply::Destroyed,
            )
            &&& handled(ui, scene, 0x02E0, input) == (
                Turn { ui, acts: seq![Act::Repaint] },
                Reply::NewSurface,
            )
        }),
        ({
            let (wide, tall) = (x % 65536, y % 65536);
            let reply = handled(ui, scene, 0x0005, input).1;
            &&& wide > 0 && tall > 0 ==> reply == Reply::Attach(wide as u32, tall as u32)
            &&& wide == 0 || tall == 0 ==> reply == Reply::Answer(0)
        }),
{
    a_half_gives_its_number_back(x, if x < 0 {
        y + 1
    } else {
        y
    });
    assert(input.lparam as int / 65536 == y);
    a_half_gives_its_number_back(y, 0);
}

/// Starting on another row first writes back what was being edited: the row that is clicked, the
/// recording that starts and the action that runs all find it stored.
pub proof fn an_edit_in_progress_is_written_back(
    ui: Ui,
    scene: Scene,
    read: EditReading,
    row: usize,
    action: ActionId,
)
    requires
        row < scene.rows.len(),
    ensures
        ({
            let first = committed(ui, scene, read).acts;
            let n = first.len() as int;
            &&& begun(ui, scene, read, row).acts.take(n) == first
            &&& begun(ui, scene, read, row).ui.focused == Some(row)
            &&& listening(ui, scene, read, row).acts.take(n) == first
            &&& listening(ui, scene, read, row).ui.focused is None
            &&& running(ui, scene, read, action).acts.take(n) == first
            &&& running(ui, scene, read, action).ui.focused is None
        }),
{
    let first = committed(ui, scene, read).acts;
    let n = first.len() as int;
    assert(begun(ui, scene, read, row).acts.take(n) =~= first);
    assert(listening(ui, scene, read, row).acts.take(n) =~= first);
    assert(running(ui, scene, read, action).acts.take(n) =~= first);
}

/// What is typed goes behind the text of the row that is edited, and nowhere when none is.
/// What is pasted goes there too: a text of one line without blanks at its ends as it is.
pub proof fn typing_adds_to_the_text(
    ui: Ui,
    scene: Scene,
    read: EditReading,
    c: char,
    held: Modifiers,
    text: Seq<char>,
)
    ensures
        ui.focused is Some && !is_control(c) ==> typed(ui, c).ui == (Ui {
            editing: ui.editing.push(c),
            ..ui
        }) && typed(ui, c).acts == seq![Act::Repaint],
        ui.focused is None || is_control(c) ==> typed(ui, c).ui == ui && typed(ui, c).acts.len()
            == 0,
        ui.focused is Some && ui.open_dropdown is None && ui.recording is None && held.control
            && trimmed(text) == text && !text.contains('\n') ==> pressed(
            ui,
            scene,
            read,
            0x56,
            held,
            Some(text),
        ).ui.editing == ui.editing + text,
        ui.focused is Some && ui.open_dropdown is None && ui.recording is None && ui.editing.len()
            > 0 ==> pressed(ui, scene, read, 0x08, held, None).ui.editing == ui.editing.drop_last(),
{
    the_first_line_ends_at_the_first_feed(text);
}

/// With nothing open and nothing edited, Escape closes the window and no other key does
/// anything.
pub proof fn escape_closes_an_idle_window(
    ui: Ui,
    scene: Scene,
    read: EditReading,
    key: u32,
    held: Modifiers,
    pasted: Option<Seq<char>>,
)
    requires
        ui.open_dropdown is None,
        ui.recording is None,
        ui.focused is None,
    ensures
        pressed(ui, scene, read, key, held, pasted).ui == ui,
        key == 0x1B ==> pressed(ui, scene, read, key, held, pasted).acts == seq![Act::Close],
        key != 0x1B ==> pressed(ui, scene, read, key, held, pasted).acts.len() == 0,
{
}

/// The pointer is on the row and the part that a click there would act on.
pub proof fn the_pointer_is_on_what_a_click_acts_on(ui: Ui, scene: Scene, x: int, y: int)
    ensures
        ({
            let next = hovered(ui, scene, x, y, true);
            let row = Window::row_under(scene, x, y);
            &&& row is None ==> next.hover_row is None && next.hover_part is None
            &&& row matches Some(i) ==> (!(scene.rows[i].field.kind is Info) ==> next.hover_row
                == Some(i as usize) && next.hover_part == parts_of(
                scene.rows[i].field.kind,
                scene.rows[i].control,
                scene.m,
            ).part(x, y))
            &&& hit_nav(scene.nav, x, y) matches Some(i) ==> next.hover_nav == Some(i as usize)
            &&& picked(ui, scene, x, y) is None ==> next.highlight == ui.highlight
            &&& picked(ui, scene, x, y) matches Some(entry) ==> next.highlight == entry.1
        }),
{
}

/// A row can only be acted on where it can be seen.
pub proof fn a_row_is_found_inside_the_viewport(scene: Scene, x: int, y: int)
    ensures
        !(scene.viewport.left <= x < scene.viewport.right && scene.viewport.top <= y
            < scene.viewport.bottom) ==> Window::row_under(scene, x, y) is None,
        Window::row_under(scene, x, y) matches Some(i) ==> 0 <= i < scene.rows.len()
            && scene.rows[i].rect.left <= x < scene.rows[i].rect.right && scene.rows[i].rect.top <= y
            < scene.rows[i].rect.bottom,
{
    a_hit_row_holds_the_point(scene.rows, x, y);
}

/// What the system asks of the window besides input: it is never smaller than 620 by 420 units,
/// it draws its own frame and background, its places are told by their codes, and a change of
/// size is drawn.
#[verifier::spinoff_prover]
pub proof fn the_system_is_answered(ui: Ui, scene: Scene, input: Input)
    ensures
        620 * scene.m.dpi / 96 <= i32::MAX ==> (handled(ui, scene, 0x0024, input).1 matches
            Reply::MinSize(w, h) && w == 620 * scene.m.dpi / 96 && h == 420 * scene.m.dpi / 96),
        input.wparam != 0 ==> handled(ui, scene, 0x0083, input).1 == Reply::Answer(0),
        handled(ui, scene, 0x0020, input).1 == Reply::Answer(1),
        handled(ui, scene, 0x0014, input).1 == Reply::Answer(1),
        handled(ui, scene, 0x0084, input).1 == Reply::Answer(
            code_of(
                place_of(
                    input.x as int,
                    input.y as int,
                    input.width as int,
                    input.height as int,
                    scene.titlebar,
                    scene.m,
                ),
            ),
        ),
        handled(ui, scene, 0x0005, input).0.acts.len() >= 1,
        handled(ui, scene, 0x0005, input).0.acts[0] is Repaint,
        handled(ui, scene, 0x0005, input).0.ui == ui,
        handled(ui, scene, 0x8051, input).1 == Reply::Refresh,
        handled(ui, scene, 0x8052, input).0.acts == seq![Act::Close],
{
}

/// Does a number have a range that makes sense? A slider has room between its ends and reaches
/// the upper one in whole steps, and one that is shown in percent lies between none and all.
pub open spec fn ranges(kind: Kind) -> bool {
    match kind {
        Kind::Slider(slider) => {
            &&& slider.min < slider.max
            &&& slider.step > 0
            &&& (slider.max - slider.min) % (slider.step as int) == 0
            &&& slider.format is Percent ==> slider.min == 0 && slider.max <= 1_000_000
            &&& slider.format is Decimal ==> slider.min >= 0 && slider.max < 1_000_000
            &&& slider.format is Multiplier ==> slider.min > 0 && slider.min < 1_000_000
                < slider.max
            &&& slider.format is SignedMilliseconds ==> slider.min == -slider.max
            &&& slider.format is Milliseconds || slider.format is Pixels || slider.format
                is PixelsOrSquare ==> slider.min >= 0
        },
        Kind::Number { min, max, suffix } => min < max,
        _ => true,
    }
}

/// Every number of the settings has a range that makes sense, so that a drag to the end of a
/// slider stores its greatest value.
#[verifier::spinoff_prover]
#[verifier::rlimit(40)]
pub proof fn every_number_has_a_range()
    ensures
        forall|s: int, i: int, j: int|
            0 <= s < crate::settings::schema::all_sections().len() && 0 <= i
                < crate::settings::schema::all_sections()[s].cards.len() && 0 <= j
                < crate::settings::schema::all_sections()[s].cards[i].fields.len() ==> ranges(
                (#[trigger] crate::settings::schema::all_sections()[s].cards[i].fields[j]).kind,
            ),
{
}

/// At the right end of its track a dragged slider stores its greatest value, where its steps
/// reach it.
pub proof fn a_drag_reaches_the_end(slider: Slider, at: Fraction)
    requires
        slider.min < slider.max,
        slider.step > 0,
        (slider.max - slider.min) % (slider.step as int) == 0,
        at.wf(),
        at.numerator == at.denominator,
    ensures
        snapped(slider, at) == slider.max,
{
    let span = slider.max - slider.min;
    let (d, step) = (at.denominator as int, slider.step as int);
    let k = span / step;
    assert(span == k * step) by (nonlinear_arith)
        requires
            span % step == 0,
            k == span / step,
            step > 0,
    ;
    let whole = d * step;
    let n = span * d;
    assert(n == k * whole && whole > 0 && n >= 0) by (nonlinear_arith)
        requires
            n == span * d,
            span == k * step,
            whole == d * step,
            d > 0,
            step > 0,
            span >= 0,
    ;
    nearest_is_within_half(n, whole);
    let q = nearest(n, whole);
    assert(q == k) by (nonlinear_arith)
        requires
            -whole < 2 * (q * whole - k * whole) <= whole,
            whole > 0,
    ;
}

} // verus!
