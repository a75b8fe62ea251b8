//! The settings window.

use winbeautify::color::Rgb;
use winbeautify::config::{
    ClipboardConfig, Config, LyricProvider, MediaConfig, SnipConfig, TaskbarConfig, TaskbarMode,
    Theme, TodoConfig, UiConfig, WidgetConfig,
};
use winbeautify::number::Factor;
use winbeautify::settings::access::{read, Entry, Node, Value};
use winbeautify::settings::controls::{parts, Part};
use winbeautify::settings::geom::PIXEL;
use winbeautify::settings::layout::{Metrics, Row};
use winbeautify::settings::paint::{dropdown_rect, window_buttons, StatusText, WindowButton};
use winbeautify::settings::schema::{sections, ActionId, ChoiceList, Kind, Section, ONE};
use winbeautify::settings::window::{
    edge_hit, hit_code, min_track_size, EditReading, HitCode, Input, Modifiers, OpenAction, Reply,
    SettingsWindow, Window, WindowAction, DEFAULT_HEIGHT, DEFAULT_WIDTH, MIN_HEIGHT, MIN_WIDTH,
    SIZE_MAXIMIZED, VK_BACK, VK_DOWN, VK_ESCAPE, VK_RETURN, VK_UP, VK_V, WM_APP_CLOSE,
    WM_APP_REFRESH, WM_CHAR, WM_CLOSE, WM_DESTROY, WM_DPICHANGED, WM_ERASEBKGND,
    WM_GETMINMAXINFO, WM_KEYDOWN, WM_LBUTTONDOWN, WM_LBUTTONUP, WM_MOUSELEAVE, WM_MOUSEMOVE,
    WM_MOUSEWHEEL, WM_SYSKEYDOWN, WM_NCCALCSIZE, WM_NCHITTEST, WM_PAINT, WM_SETCURSOR, WM_SIZE,
};

fn default_config() -> Config {
    Config {
        ui: UiConfig { theme: Theme::Auto, accent: Rgb { r: 0x4F, g: 0x8C, b: 0xFF }, file_logging: true },
        taskbar: TaskbarConfig {
            enabled: true,
            mode: TaskbarMode::Acrylic,
            color: Rgb { r: 0, g: 0, b: 0 },
            opacity: Factor { numerator: 1, denominator: 2 },
            apply_to_secondary: true,
            dynamic_mode: false,
            dynamic_mode_override: TaskbarMode::Opaque,
            hide_on_fullscreen: true,
            restore_on_exit: true,
        },
        widget: WidgetConfig { enabled: true },
        media: MediaConfig {
            enabled: true,
            show_lyrics: true,
            show_spectrum: true,
            lyric_provider: LyricProvider::Custom,
        },
        clipboard: ClipboardConfig { enabled: true, capture_images: true },
        todo: TodoConfig { enabled: true },
        snip: SnipConfig { enabled: true },
    }
}

fn flat(_: &str, _: i64) -> i64 {
    14 * PIXEL
}

fn put(root: &mut Vec<Entry>, path: &str, leaf: Node) {
    match path.split_once('.') {
        None => root.push(Entry { key: path.to_string(), node: leaf }),
        Some((group, rest)) => {
            let at = match root.iter().position(|entry| entry.key == group) {
                Some(at) => at,
                None => {
                    root.push(Entry { key: group.to_string(), node: Node::Table(Vec::new()) });
                    root.len() - 1
                }
            };
            if let Node::Table(entries) = &mut root[at].node {
                put(entries, rest, leaf);
            }
        }
    }
}

fn tree() -> Node {
    let mut root: Vec<Entry> = Vec::new();
    for section in sections() {
        for card in section.cards {
            for field in card.fields {
                let leaf = match field.kind {
                    Kind::Switch => Node::Boolean(false),
                    Kind::Number { min, .. } => Node::Integer(min),
                    Kind::Slider(slider) => Node::Float(slider.min as i128),
                    Kind::Select(choices) => Node::Text(choices.choices()[0].value.to_string()),
                    Kind::Color => Node::Text("#4F8CFF".to_string()),
                    Kind::Text { .. } | Kind::Hotkey => Node::Text("abc".to_string()),
                    _ => continue,
                };
                put(&mut root, field.path, leaf);
            }
        }
    }
    Node::Table(root)
}

fn page(id: &str) -> (usize, Section) {
    let all = sections();
    let at = all.iter().position(|section| section.id == id).unwrap();
    (at, all.into_iter().nth(at).unwrap())
}

/// A window that shows a page.
fn shown(id: &str) -> Window {
    let mut window = Window::new(default_config(), tree(), 96, false);
    let (at, section) = page(id);
    window.section = at;
    window.relayout(880, 2000, &section, &flat);
    window
}

fn nothing() -> EditReading {
    EditReading { is_color: false, number: None }
}

fn rows(window: &Window) -> Vec<Row> {
    window.layout.as_ref().unwrap().content.rows()
}

fn row_of(window: &Window, path: &str) -> (usize, Row) {
    let rows = rows(window);
    let at = rows.iter().position(|row| row.field.path == path).unwrap();
    (at, rows[at])
}

/// The middle of a part of a row.
fn middle(row: &Row, part: Part) -> (i64, i64) {
    let parts = parts(&row.field, &row.control, &Metrics::new(96));
    let rect = match part {
        Part::Box(i) => parts.boxes[i],
        Part::Button(i) => parts.buttons[i],
        Part::SliderTrack => parts.slider.unwrap(),
    };
    (rect.center_x(), rect.center_y())
}

fn stored(actions: &[WindowAction], path: &str) -> Option<Value> {
    for action in actions {
        if let WindowAction::Store(node) = action {
            return read(node, path);
        }
    }
    None
}

#[test]
fn the_window_has_sane_limits() {
    assert!(MIN_WIDTH > 400, "the page cannot lay out narrower than this");
    assert!(MIN_HEIGHT > 300);
    assert!(DEFAULT_WIDTH > MIN_WIDTH && DEFAULT_HEIGHT > MIN_HEIGHT);
}

#[test]
fn a_click_on_a_switch_flips_it() {
    let mut window = shown("taskbar");
    let (_, row) = row_of(&window, "taskbar.enabled");
    let (x, y) = middle(&row, Part::Box(0));
    let actions = window.click(x, y, &nothing());
    assert_eq!(stored(&actions, "taskbar.enabled"), Some(Value::Bool(true)));
}

#[test]
fn a_dragged_slider_snaps_to_its_steps() {
    let mut window = shown("appearance");
    let (at, row) = row_of(&window, "widget.opacity");
    let Kind::Slider(slider) = row.field.kind else { panic!("opacity is a slider") };
    let (x, y) = middle(&row, Part::SliderTrack);
    let actions = window.click(x, y, &nothing());
    assert!(matches!(actions[0], WindowAction::Capture));
    assert_eq!(window.drag_row, Some(at));
    assert_eq!(window.interaction.dragging_row, Some(at));
    let track = parts(&row.field, &row.control, &Metrics::new(96)).slider.unwrap();
    let actions = window.drag_to(track.left + track.width() / 3);
    let Some(Value::Float(value)) = stored(&actions, "widget.opacity") else {
        panic!("a drag stores a number")
    };
    assert_eq!((value - slider.min as i128) % slider.step as i128, 0);
    assert!(slider.min as i128 <= value && value <= slider.max as i128);
    let actions = window.drag_to(track.right + 300 * PIXEL);
    assert_eq!(stored(&actions, "widget.opacity"), Some(Value::Float(slider.max as i128)));
    let actions = window.release();
    assert!(matches!(actions[0], WindowAction::ReleaseCapture));
    assert_eq!(window.drag_row, None);
    assert_eq!(window.interaction.dragging_row, None);
    assert!(window.release().is_empty());
}

#[test]
fn an_entry_of_an_open_list_is_stored() {
    let mut window = shown("taskbar");
    let (at, row) = row_of(&window, "taskbar.mode");
    let (x, y) = middle(&row, Part::Box(0));
    window.click(x, y, &nothing());
    assert_eq!(window.interaction.open_dropdown, Some(at));
    window.key(VK_DOWN, Modifiers::none(), None, &nothing());
    window.key(VK_DOWN, Modifiers::none(), None, &nothing());
    window.key(VK_UP, Modifiers::none(), None, &nothing());
    assert_eq!(window.interaction.dropdown_highlight, 1);
    let actions = window.key(VK_RETURN, Modifiers::none(), None, &nothing());
    let second = ChoiceList::Modes.choices()[1].value;
    assert_eq!(stored(&actions, "taskbar.mode"), Some(Value::Text(second.to_string())));
    assert_eq!(window.interaction.open_dropdown, None);
    // With the pointer.
    window.click(x, y, &nothing());
    let entries = ChoiceList::Modes.choices().len();
    let bottom = window.layout.as_ref().unwrap().viewport.bottom;
    let list = dropdown_rect(&row, entries, bottom, &Metrics::new(96)).unwrap();
    let actions = window.click(list.center_x(), list.top + PIXEL, &nothing());
    let first = ChoiceList::Modes.choices()[0].value;
    assert_eq!(stored(&actions, "taskbar.mode"), Some(Value::Text(first.to_string())));
    // Escape closes the list and stores nothing.
    window.click(x, y, &nothing());
    let actions = window.key(VK_ESCAPE, Modifiers::none(), None, &nothing());
    assert_eq!(stored(&actions, "taskbar.mode"), None);
    assert_eq!(window.interaction.open_dropdown, None);
}

#[test]
fn a_typed_colour_is_stored_in_capitals() {
    let mut window = shown("appearance");
    let (at, row) = row_of(&window, "ui.accent");
    let (x, y) = middle(&row, Part::Box(1));
    window.click(x, y, &nothing());
    assert_eq!(window.interaction.focused_row, Some(at));
    assert_eq!(window.interaction.editing, "#4F8CFF");
    for _ in 0..7 {
        window.key(VK_BACK, Modifiers::none(), None, &nothing());
    }
    assert_eq!(window.interaction.editing, "");
    for c in "#aabbcé".chars() {
        window.character(c);
    }
    window.character('\u{7}');
    assert_eq!(window.interaction.editing, "#aabbcé", "control characters are keys, not text");
    window.key(VK_BACK, Modifiers::none(), None, &nothing());
    let mut other = shown("appearance");
    other.click(x, y, &nothing());
    // A typo does not become the stored colour.
    let refused = other.key(VK_RETURN, Modifiers::none(), None, &nothing());
    assert_eq!(stored(&refused, "ui.accent"), None);
    window.character('d');
    let taken =
        window.key(VK_RETURN, Modifiers::none(), None, &EditReading { is_color: true, number: None });
    assert_eq!(stored(&taken, "ui.accent"), Some(Value::Text("#AABBCD".to_string())));
    assert_eq!(window.interaction.focused_row, None);
}

#[test]
fn a_typed_number_is_kept_in_its_limits() {
    for (number, expected) in [(12_000_000, 12), (-900_000_000, -400), (2_500_000, 3)] {
        let mut window = shown("widget");
        let (_, row) = row_of(&window, "widget.offset_x");
        let (x, y) = middle(&row, Part::Box(0));
        window.click(x, y, &nothing());
        assert_eq!(window.interaction.editing, "-400");
        let read = EditReading { is_color: false, number: Some(number) };
        let actions = window.key(VK_RETURN, Modifiers::none(), None, &read);
        assert_eq!(stored(&actions, "widget.offset_x"), Some(Value::Integer(expected)));
    }
}

#[test]
fn pasting_takes_the_first_line() {
    let mut window = shown("widget");
    let (_, row) = row_of(&window, "widget.offset_x");
    let (x, y) = middle(&row, Part::Box(0));
    window.click(x, y, &nothing());
    window.key(VK_V, Modifiers { control: true, ..Modifiers::none() }, Some("  12\nrest"), &nothing());
    assert_eq!(window.interaction.editing, "-40012");
    window.key(VK_V, Modifiers::none(), Some("9"), &nothing());
    assert_eq!(window.interaction.editing, "-40012", "a bare key is not a paste");
    let actions = window.key(VK_ESCAPE, Modifiers::none(), None, &nothing());
    assert_eq!(stored(&actions, "widget.offset_x"), None, "an abandoned edit stores nothing");
    assert_eq!(window.interaction.editing, "");
    let actions = window.key(VK_ESCAPE, Modifiers::none(), None, &nothing());
    assert!(matches!(actions[0], WindowAction::Close));
}

#[test]
fn an_action_runs_after_the_edit_is_closed() {
    let mut window = shown("snip");
    let rows = rows(&window);
    let row = rows
        .iter()
        .find(|row| matches!(row.field.kind, Kind::Action(_)))
        .expect("an action row");
    let Kind::Action(list) = row.field.kind else { panic!("an action row") };
    let (x, y) = middle(row, Part::Button(0));
    let actions = window.click(x, y, &nothing());
    assert!(matches!(actions[0], WindowAction::Run(id) if id == list.buttons()[0].action));
    assert!(matches!(actions[1], WindowAction::Reload));
    assert!(matches!(actions[2], WindowAction::Repaint));
    assert_ne!(list.buttons()[0].action, ActionId::Quit);
}

#[test]
fn the_sidebar_and_the_title_bar_come_before_the_page() {
    let mut window = shown("media");
    let layout = window.layout.as_ref().unwrap();
    let nav = layout.nav[0].rect;
    let close = window_buttons(layout, &window.metrics)
        .into_iter()
        .find(|button| button.kind == WindowButton::Close)
        .unwrap()
        .rect;
    let actions = window.click(close.center_x(), close.center_y(), &nothing());
    assert!(matches!(actions[0], WindowAction::Close));
    window.scroll = 5 * PIXEL;
    let actions = window.click(nav.center_x(), nav.center_y(), &nothing());
    assert!(matches!(actions[0], WindowAction::Repaint));
    assert_eq!((window.section, window.scroll), (0, 0));
    assert!(window.click(nav.center_x(), nav.center_y(), &nothing()).is_empty());
}

#[test]
fn the_wheel_scrolls_three_rows_a_notch() {
    let mut window = Window::new(default_config(), tree(), 96, false);
    let (at, section) = page("media");
    window.section = at;
    window.relayout(880, 500, &section, &flat);
    let end = window.layout.as_ref().unwrap().scroll_max;
    assert!(end > 0);
    window.scroll_by(-120);
    assert_eq!(window.scroll, 114 * PIXEL);
    window.scroll_by(120);
    assert_eq!(window.scroll, 0);
    window.scroll_by(120);
    assert_eq!(window.scroll, 0, "not above the page");
    window.scroll_by(-32_768);
    assert_eq!(window.scroll, end, "not below it");
}

#[test]
fn the_pointer_shows_what_it_is_on() {
    let mut window = shown("taskbar");
    let (at, row) = row_of(&window, "taskbar.enabled");
    let (x, y) = middle(&row, Part::Box(0));
    let actions = window.hover(x, y, true);
    assert!(matches!(actions[0], WindowAction::Repaint));
    assert!(matches!(actions[1], WindowAction::Cursor(true)));
    assert_eq!(window.interaction.hover_row, Some(at));
    assert_eq!(window.interaction.hover_part, Some(Part::Box(0)));
    let actions = window.hover(x, y, true);
    assert_eq!(actions.len(), 1, "nothing changed, so nothing is drawn");
    window.hover(0, 0, false);
    assert_eq!(window.interaction.hover_row, None);
}

fn input() -> Input<'static> {
    Input {
        wparam: 0,
        lparam: 0,
        x: 0,
        y: 0,
        width: 880,
        height: 2000,
        dpi: 96,
        held: Modifiers::none(),
        pasted: None,
        read: nothing(),
    }
}

#[test]
fn the_borders_resize_and_the_title_bar_drags() {
    let mut window = shown("taskbar");
    let mut at = |x: i32, y: i32| {
        window.window_proc(WM_NCHITTEST, &Input { x, y, ..input() }).1
    };
    assert_eq!(at(2, 2), Reply::Answer(13));
    assert_eq!(at(878, 2), Reply::Answer(14));
    assert_eq!(at(2, 1998), Reply::Answer(16));
    assert_eq!(at(878, 1998), Reply::Answer(17));
    assert_eq!(at(2, 900), Reply::Answer(10));
    assert_eq!(at(878, 900), Reply::Answer(11));
    assert_eq!(at(400, 2), Reply::Answer(12));
    assert_eq!(at(400, 1998), Reply::Answer(15));
    assert_eq!(at(400, 20), Reply::Answer(2));
    assert_eq!(at(400, 900), Reply::Answer(1));
    assert_eq!(edge_hit(&Metrics::new(192), 10, 900, 880, 2000), Some(HitCode::Left));
    assert_eq!(edge_hit(&Metrics::new(96), 10, 900, 880, 2000), None);
    assert_eq!(hit_code(HitCode::BottomRight), 17);
    assert_eq!(min_track_size(&Metrics::new(144)), (930, 630));
    assert_eq!(min_track_size(&Metrics::new(u32::MAX)), (i32::MAX, i32::MAX));
}

#[test]
fn the_window_answers_its_messages() {
    let mut window = shown("taskbar");
    let (_, row) = row_of(&window, "taskbar.enabled");
    let (x, y) = middle(&row, Part::Box(0));
    let point = ((y / PIXEL) << 16) | (x / PIXEL);
    let mouse = Input { lparam: point, ..input() };
    let moved = window.window_proc(WM_MOUSEMOVE, &mouse);
    assert_eq!(moved.1, Reply::Answer(0));
    assert_eq!(window.interaction.hover_part, Some(Part::Box(0)));
    window.window_proc(WM_MOUSELEAVE, &input());
    assert_eq!(window.interaction.hover_part, None);
    let clicked = window.window_proc(WM_LBUTTONDOWN, &mouse);
    assert_eq!(stored(&clicked.0, "taskbar.enabled"), Some(Value::Bool(true)));
    window.drag_row = Some(0);
    window.window_proc(WM_LBUTTONUP, &input());
    assert_eq!(window.drag_row, None);

    assert_eq!(window.window_proc(WM_NCCALCSIZE, &input()).1, Reply::Default);
    let frameless = Input { wparam: 1, ..input() };
    assert_eq!(window.window_proc(WM_NCCALCSIZE, &frameless).1, Reply::Answer(0));
    assert_eq!(window.window_proc(WM_GETMINMAXINFO, &input()).1, Reply::MinSize(620, 420));
    assert_eq!(window.window_proc(WM_SETCURSOR, &input()).1, Reply::Answer(1));
    assert_eq!(window.window_proc(WM_ERASEBKGND, &input()).1, Reply::Answer(1));
    assert_eq!(window.window_proc(WM_PAINT, &input()).1, Reply::Validated);
    let size = Input { lparam: (600 << 16) | 40_000, ..input() };
    let sized = window.window_proc(WM_SIZE, &size);
    assert_eq!((sized.0.len(), sized.1), (2, Reply::Attach(40_000, 600)));
    let maximized = Input { wparam: SIZE_MAXIMIZED as u64, ..input() };
    let sized = window.window_proc(WM_SIZE, &maximized);
    assert_eq!((sized.0.len(), sized.1), (1, Reply::Answer(0)));
    assert_eq!(window.window_proc(WM_APP_REFRESH, &input()).1, Reply::Refresh);
    for message in [WM_APP_CLOSE, WM_CLOSE] {
        assert!(matches!(window.window_proc(message, &input()).0[0], WindowAction::Close));
    }
    assert_eq!(window.window_proc(WM_DESTROY, &input()).1, Reply::Destroyed);
    assert_eq!(window.window_proc(0x0400, &input()).1, Reply::Default);
    let scaled = Input { dpi: 192, ..input() };
    assert_eq!(window.window_proc(WM_DPICHANGED, &scaled).1, Reply::NewSurface);
    assert_eq!(window.metrics.dpi, 192);
}

#[test]
fn keys_and_characters_reach_the_edit() {
    let mut window = shown("widget");
    let (_, row) = row_of(&window, "widget.offset_x");
    let (x, y) = middle(&row, Part::Box(0));
    window.click(x, y, &nothing());
    window.window_proc(WM_CHAR, &Input { wparam: 0x37, ..input() });
    assert_eq!(window.interaction.editing, "-4007");
    window.window_proc(WM_CHAR, &Input { wparam: 0x4E2D, ..input() });
    assert_eq!(window.interaction.editing, "-4007中");
    // Half of a surrogate pair is no character.
    window.window_proc(WM_CHAR, &Input { wparam: 0xD83D, ..input() });
    assert_eq!(window.interaction.editing, "-4007中");
    window.window_proc(WM_KEYDOWN, &Input { wparam: VK_BACK as u64, ..input() });
    assert_eq!(window.interaction.editing, "-4007");
    let mut short = Window::new(default_config(), tree(), 96, false);
    let (at, section) = page("media");
    short.section = at;
    short.relayout(880, 500, &section, &flat);
    short.window_proc(WM_MOUSEWHEEL, &Input { wparam: 0xFF88_0000, ..input() });
    assert_eq!(short.scroll, 114 * PIXEL);
}

#[test]
fn what_the_host_stores_is_shown() {
    let mut window = Window::new(default_config(), tree(), 96, false);
    assert!(window.row(0).is_none());
    let mut light = default_config();
    light.ui.theme = Theme::Light;
    window.stored(light, tree(), false);
    assert!(window.palette.light);
    let mut status = StatusText::new();
    status.taskbar = "on".to_string();
    window.refresh(default_config(), tree(), true, status);
    assert_eq!(window.status.taskbar, "on");
    assert!(window.palette.light, "the system's theme decides");
    assert_eq!(window.scroll, 0);
    assert_eq!(ONE, 1_000_000);
}

#[test]
fn only_one_settings_window_is_open() {
    let mut window = SettingsWindow::new();
    assert!(!window.is_open());
    assert!(matches!(window.open(), OpenAction::Start));
    assert_eq!(window.close(), None);
    window.hwnd = 5;
    assert!(window.is_open());
    assert!(matches!(window.open(), OpenAction::Focus(5)));
    assert_eq!(window.close(), Some(5));
}

#[test]
fn an_open_list_swallows_the_next_click() {
    let mut window = shown("taskbar");
    let before = window.section;
    let (_, row) = row_of(&window, "taskbar.mode");
    let (x, y) = middle(&row, Part::Box(0));
    window.click(x, y, &nothing());
    let layout = window.layout.as_ref().unwrap();
    let other = layout.nav.iter().find(|item| !item.active).unwrap().rect;
    let actions = window.click(other.center_x(), other.center_y(), &nothing());
    assert_eq!(actions.len(), 1);
    assert!(matches!(actions[0], WindowAction::Repaint));
    assert_eq!(window.interaction.open_dropdown, None);
    assert_eq!(window.section, before, "the sidebar did not hear of it");
    window.click(other.center_x(), other.center_y(), &nothing());
    assert_ne!(window.section, before);
}

#[test]
fn a_key_combination_is_recorded_by_pressing_it() {
    let mut window = shown("snip");
    let (at, row) = row_of(&window, "snip.hotkey");
    let (x, y) = middle(&row, Part::Box(0));
    window.click(x, y, &nothing());
    assert_eq!(window.interaction.recording, Some(at));
    let held = Modifiers { control: true, alt: true, ..Modifiers::none() };
    // The modifiers show while nothing else is pressed.
    window.window_proc(WM_SYSKEYDOWN, &Input { wparam: 0x12, held, ..input() });
    assert_eq!(window.interaction.recording_text, "Ctrl+Alt+");
    let (actions, _) =
        window.window_proc(WM_SYSKEYDOWN, &Input { wparam: 0x41, held, ..input() });
    assert_eq!(stored(&actions, "snip.hotkey"), Some(Value::Text("Ctrl+Alt+A".to_string())));
    assert_eq!(window.interaction.recording, None);
    assert_eq!(window.interaction.recording_text, "");
    // A function key does without modifiers, and Backspace clears the field.
    window.click(x, y, &nothing());
    let actions = window.key(0x72, Modifiers::none(), None, &nothing());
    assert_eq!(stored(&actions, "snip.hotkey"), Some(Value::Text("F3".to_string())));
    window.click(x, y, &nothing());
    let actions = window.key(VK_BACK, Modifiers::none(), None, &nothing());
    assert_eq!(stored(&actions, "snip.hotkey"), Some(Value::Text(String::new())));
    // Escape abandons it, and so does a click.
    window.click(x, y, &nothing());
    let actions = window.key(VK_ESCAPE, Modifiers::none(), None, &nothing());
    assert!(matches!(actions[0], WindowAction::Repaint) && actions.len() == 1);
    window.click(x, y, &nothing());
    assert_eq!(window.click(x, y, &nothing()).len(), 1);
    assert_eq!(window.interaction.recording, None);
    let (_, reply) = window.window_proc(WM_SYSKEYDOWN, &Input { wparam: 0x73, ..input() });
    assert_eq!(reply, Reply::Default, "system keys are the system's otherwise");
}

#[test]
fn a_read_only_row_offers_no_hover() {
    let mut window = shown("about");
    let row = rows(&window).into_iter().find(|row| matches!(row.field.kind, Kind::Info(_))).unwrap();
    let actions = window.hover(row.control.center_x(), row.control.center_y(), true);
    assert_eq!(window.interaction.hover_row, None);
    assert_eq!(window.interaction.hover_part, None);
    assert!(matches!(actions[0], WindowAction::Cursor(false)));
    let buttons = window_buttons(window.layout.as_ref().unwrap(), &Metrics::new(96));
    for button in buttons {
        let actions = window.hover(button.rect.center_x(), button.rect.center_y(), true);
        assert_eq!(window.interaction.hover_window, Some(button.kind));
        assert!(matches!(actions[0], WindowAction::Repaint));
    }
    window.hover(0, 0, false);
    assert_eq!(window.interaction.hover_window, None);
}
