//! Drawing the settings page.

use winbeautify::color::Rgb;
use winbeautify::config::{
    ClipboardConfig, Config, LyricProvider, MediaConfig, SnipConfig, TaskbarConfig, TaskbarMode,
    Theme, TodoConfig, UiConfig, WidgetConfig,
};
use winbeautify::number::Factor;
use winbeautify::settings::access::{Entry, Node};
use winbeautify::settings::geom::{Rect, PIXEL};
use winbeautify::settings::layout::{layout, Layout, Metrics};
use winbeautify::settings::paint::{
    attach, color_popup_rect, color_popup_size, current_section_description,
    current_section_title, draw_frame, draw_wrapped, dropdown_rect, field_of, swatch_at,
    swatch_cell_rect, window_buttons, Attach, Interaction, Measured, Op, StatusText, SwatchGrid,
    Tone, WindowButton,
};
use winbeautify::settings::palette::{Palette, Rgba};
use winbeautify::settings::schema::{section, InfoKey, Kind};

fn default_config() -> Config {
    Config {
        ui: UiConfig { theme: Theme::Auto, accent: Rgb { r: 0x4F, g: 0x8C, b: 0xFF }, file_logging: true },
        taskbar: TaskbarConfig {
            enabled: true,
            mode: TaskbarMode::Acrylic,
            color: Rgb { r: 0, g: 0, b: 0 },
            opacity: Factor { numerator: 1, denominator: 2 },
            apply_to_secondary: true,
            dynamic_mode: false,
            dynamic_mode_override: TaskbarMode::Opaque,
            hide_on_fullscreen: true,
            restore_on_exit: true,
        },
        widget: WidgetConfig { enabled: true },
        media: MediaConfig {
            enabled: true,
            show_lyrics: true,
            show_spectrum: true,
            lyric_provider: LyricProvider::Custom,
        },
        clipboard: ClipboardConfig { enabled: true, capture_images: true },
        todo: TodoConfig { enabled: true },
        snip: SnipConfig { enabled: true },
    }
}

fn flat(_: &str, _: i64) -> i64 {
    14 * PIXEL
}

fn page(id: &str, width: i64, height: i64) -> Layout {
    layout(
        &Rect::new(0, 0, width * PIXEL, height * PIXEL),
        &Metrics::new(96),
        &section(id).unwrap(),
        &default_config(),
        0,
        &flat,
    )
}

fn grid() -> SwatchGrid {
    let (rows, columns) = (5, 12);
    let mut colors = Vec::new();
    for i in 0..rows * columns {
        colors.push(Rgb { r: i as u8, g: 0, b: 0 });
    }
    SwatchGrid { rows, columns, cell: 20 * PIXEL, gap: 4 * PIXEL, padding: 8 * PIXEL, colors }
}

#[test]
fn window_buttons_are_ordered_close_last() {
    let metrics = Metrics::new(96);
    let layout = page("appearance", 900, 640);
    let buttons = window_buttons(&layout, &metrics);
    assert_eq!(buttons.len(), 2);
    let close = buttons.iter().find(|b| b.kind == WindowButton::Close).unwrap();
    let minimize = buttons.iter().find(|b| b.kind == WindowButton::Minimize).unwrap();
    assert!(close.rect.left > minimize.rect.right, "close is at the corner");
    assert!(close.rect.right <= layout.titlebar.right);
    assert!(minimize.rect.left > 0);
}

/// The palette has to be clickable where it is drawn: the hit test and the paint have to
/// read the same rectangles.
#[test]
fn every_swatch_is_hit_testable_where_it_is_drawn() {
    let metrics = Metrics::new(96);
    let grid = grid();
    let layout = page("appearance", 900, 640);
    let row = layout
        .content
        .cards
        .iter()
        .flat_map(|card| card.rows.iter())
        .find(|row| matches!(row.field.kind, Kind::Color))
        .expect("a colour row");
    let popup = color_popup_rect(row, &grid, &metrics).expect("a palette");

    for grid_row in 0..grid.rows {
        for column in 0..grid.columns {
            let cell = swatch_cell_rect(&popup, grid_row, column, &grid);
            assert!(cell.width() > 0 && cell.height() > 0);
            assert!(
                popup.contains(cell.center_x(), cell.center_y()),
                "cell ({grid_row}, {column}) is drawn outside the palette"
            );
            assert_eq!(
                swatch_at(&popup, cell.center_x(), cell.center_y(), &grid),
                Some((grid_row, column)),
                "cell ({grid_row}, {column}) is not where it is drawn"
            );
        }
    }

    // The gaps and the padding are misses, not a guess at the nearest colour — otherwise
    // clicking the border would silently pick something.
    assert_eq!(swatch_at(&popup, popup.left + PIXEL, popup.top + PIXEL, &grid), None);
    let first = swatch_cell_rect(&popup, 0, 0, &grid);
    let second = swatch_cell_rect(&popup, 0, 1, &grid);
    assert_eq!(
        swatch_at(&popup, (first.right + second.left) / 2, first.center_y(), &grid),
        None
    );
    assert_eq!(swatch_at(&popup, popup.right - PIXEL, popup.bottom - PIXEL, &grid), None);
}

/// The palette is wider than the control column, so it grows leftwards from the column's
/// trailing edge; growing rightwards would push it off the window it is drawn in.
#[test]
fn the_palette_stays_inside_the_window_it_floats_over() {
    let metrics = Metrics::new(96);
    let layout = page("appearance", 880, 620);
    for row in layout.content.cards.iter().flat_map(|card| card.rows.iter()) {
        let Some(popup) = color_popup_rect(row, &grid(), &metrics) else {
            continue;
        };
        assert!(popup.left >= 0, "the palette ran off the left edge");
        assert!(
            popup.right <= 880 * PIXEL,
            "the palette ran off the right edge: {popup:?}"
        );
    }
}

#[test]
fn the_theme_setting_picks_the_surface() {
    let mut config = default_config();
    config.ui.theme = Theme::Dark;
    assert!(!Palette::resolve(&config, true).light, "an explicit dark wins");

    config.ui.theme = Theme::Light;
    assert!(Palette::resolve(&config, false).light, "an explicit light wins");

    config.ui.theme = Theme::Auto;
    assert!(Palette::resolve(&config, true).light);
    assert!(!Palette::resolve(&config, false).light);
}

fn luminance(color: Rgba) -> f64 {
    (0.2126 * color.r as f64 + 0.7152 * color.g as f64 + 0.0722 * color.b as f64) / 255.0
}

#[test]
fn text_contrasts_with_the_surface_it_sits_on() {
    for light in [true, false] {
        let mut config = default_config();
        config.ui.theme = if light { Theme::Light } else { Theme::Dark };
        let palette = Palette::resolve(&config, light);
        let text = luminance(palette.text);
        let surface = luminance(palette.card);
        assert!(
            (text - surface).abs() > 0.5,
            "text {text} on card {surface} is not readable"
        );
        // Hints are dimmer than the label but still not the same tone.
        assert!(luminance(palette.text_dim) != text);
    }
}

#[test]
fn the_accent_comes_from_the_config() {
    let mut config = default_config();
    config.ui.accent = Rgb::rgb(0xFF, 0x00, 0x00);
    let palette = Palette::resolve(&config, false);
    assert_eq!(palette.accent.r, 0xFF);
    assert_eq!(palette.accent.g, 0x00);
}

#[test]
fn the_danger_tone_is_distinguishable_from_the_accent() {
    let palette = Palette::resolve(&default_config(), false);
    assert!((palette.danger.r as f64 - palette.accent.r as f64).abs() / 255.0 > 0.1);
}

#[test]
fn a_frame_is_clipped_to_its_viewport() {
    let layout = page("appearance", 900, 640);
    let metrics = Metrics::new(96);
    let palette = Palette::resolve(&default_config(), false);
    let rows = layout.content.rows().len();
    let ops = draw_frame(
        &layout,
        &metrics,
        &palette,
        &Node::Table(Vec::new()),
        &vec![None; rows],
        &Interaction::new(),
        &StatusText::new(),
        &Measured { typed: 0, taskbar: 0, spectrum: 0, clipboard: 0 },
        &grid(),
    );
    assert!(matches!(ops[0], Op::Clear(color) if color == palette.window));
    let push = ops.iter().position(|op| matches!(op, Op::PushClip(_))).unwrap();
    let pop = ops.iter().position(|op| matches!(op, Op::PopClip)).unwrap();
    assert!(push < pop);
    assert!(matches!(ops[push], Op::PushClip(rect) if rect == layout.viewport));
    // Every label is written inside the clip.
    for row in layout.content.rows() {
        if row.label.is_empty() {
            continue;
        }
        let at = ops
            .iter()
            .position(|op| matches!(op, Op::Text(_, text, _, _) if text == row.field.label))
            .unwrap_or_else(|| panic!("{} is not drawn", row.field.label));
        assert!(push < at && at < pop);
    }
}

#[test]
fn an_open_palette_floats_above_the_page() {
    let layout = page("appearance", 900, 640);
    let metrics = Metrics::new(96);
    let palette = Palette::resolve(&default_config(), false);
    let rows = layout.content.rows();
    let at = rows.iter().position(|row| matches!(row.field.kind, Kind::Color)).unwrap();
    let mut interaction = Interaction::new();
    interaction.open_color = Some(at);
    interaction.color_highlight = Some((0, 1));
    let ops = draw_frame(
        &layout,
        &metrics,
        &palette,
        &Node::Table(Vec::new()),
        &vec![None; rows.len()],
        &interaction,
        &StatusText::new(),
        &Measured { typed: 0, taskbar: 0, spectrum: 0, clipboard: 0 },
        &grid(),
    );
    let pop = ops.iter().position(|op| matches!(op, Op::PopClip)).unwrap();
    let popup = color_popup_rect(&rows[at], &grid(), &metrics).unwrap();
    let framed = ops
        .iter()
        .position(|op| matches!(op, Op::FillRounded(rect, _, _) if *rect == popup))
        .unwrap();
    assert!(pop < framed);
    // A fill and a border for each of sixty cells.
    assert_eq!(ops.len() - framed, 2 + 120);
    assert_eq!(color_popup_size(&grid()), (300 * PIXEL, 132 * PIXEL));
}

#[test]
fn headings_and_fields_are_found_in_the_layout() {
    let layout = page("appearance", 900, 640);
    let appearance = section("appearance").unwrap();
    assert_eq!(current_section_title(&layout), appearance.title);
    assert_eq!(current_section_description(&layout), appearance.description);
    let rows = layout.content.rows();
    assert_eq!(field_of(&layout, 1).unwrap().label, rows[1].field.label);
    assert!(field_of(&layout, rows.len()).is_none());
    let metrics = Metrics::new(96);
    let list = dropdown_rect(&rows[0], 3, layout.viewport.bottom, &metrics).unwrap();
    assert_eq!(list.height(), (3 * 26 + 6) * PIXEL);
    assert_eq!(list.top, rows[0].control.bottom + 2 * PIXEL, "there is room below");
    let tight = rows[0].control.bottom + 80 * PIXEL;
    let list = dropdown_rect(&rows[0], 3, tight, &metrics).unwrap();
    assert_eq!(list.bottom, rows[0].control.top - 2 * PIXEL, "and above where there is none");
    let lines = draw_wrapped(&Rect::new(0, 0, 90 * PIXEL, 40 * PIXEL), &metrics, 5);
    assert_eq!(lines.len(), 2, "lines that do not fit are not drawn");
    assert_eq!(lines[0].top, 0);
    assert_eq!(lines[1].top, 15_525 * 96);
}

#[test]
fn a_recorded_value_is_the_last_one() {
    let mut status = StatusText::new();
    assert_eq!(status.info(InfoKey::Version), "");
    status.set_info(InfoKey::Version, "1.0".to_string());
    status.set_info(InfoKey::Build, "abc".to_string());
    status.set_info(InfoKey::Version, "1.1".to_string());
    assert_eq!(status.info(InfoKey::Version), "1.1");
    assert_eq!(status.info(InfoKey::Build), "abc");
    assert_eq!(status.taskbar_tone, Tone::default());
}

#[test]
fn a_surface_is_made_once_and_then_resized() {
    assert!(matches!(attach(None, 10, 10), Attach::Create));
    assert!(matches!(attach(Some((10, 10)), 10, 10), Attach::Keep));
    assert!(matches!(attach(Some((10, 10)), 10, 11), Attach::Resize));
}

#[test]
fn a_dropdown_shows_its_first_choice_when_none_matches() {
    let layout = page("taskbar", 900, 900);
    let rows = layout.content.rows();
    let row = rows.iter().find(|row| row.field.path == "taskbar.mode").unwrap();
    let Kind::Select(list) = row.field.kind else { panic!("the mode is a choice") };
    let shown = |text: &str| {
        let mode = Entry { key: "mode".to_string(), node: Node::Text(text.to_string()) };
        let group = Entry { key: "taskbar".to_string(), node: Node::Table(vec![mode]) };
        let ops = draw_frame(
            &layout,
            &Metrics::new(96),
            &Palette::resolve(&default_config(), false),
            &Node::Table(vec![group]),
            &vec![None; rows.len()],
            &Interaction::new(),
            &StatusText::new(),
            &Measured { typed: 0, taskbar: 0, spectrum: 0, clipboard: 0 },
            &grid(),
        );
        let inside = |rect: &Rect| {
            row.control.left <= rect.left && rect.right <= row.control.right
                && row.control.top <= rect.top && rect.bottom <= row.control.bottom
        };
        ops.iter()
            .find_map(|op| match op {
                Op::Text(rect, text, _, _) if inside(rect) => Some(text.clone()),
                _ => None,
            })
            .unwrap()
    };
    assert_eq!(shown("nonsense"), list.choices()[0].label);
    assert_eq!(shown(list.choices()[1].value), list.choices()[1].label);
}
