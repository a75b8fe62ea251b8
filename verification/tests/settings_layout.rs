//! Laying a settings page out.

use winbeautify::color::Rgb;
use winbeautify::config::{
    ClipboardConfig, Config, LyricProvider, MediaConfig, SnipConfig, TaskbarConfig, TaskbarMode,
    Theme, TodoConfig, UiConfig, WidgetConfig,
};
use winbeautify::number::Factor;
use winbeautify::settings::geom::{Rect, PIXEL};
use winbeautify::settings::layout::{layout, Layout, Metrics, NavItem, Row, LINE_SPACING};
use winbeautify::settings::schema::{section, sections, Kind};

fn default_config() -> Config {
    Config {
        ui: UiConfig { theme: Theme::Auto, accent: Rgb { r: 0x4F, g: 0x8C, b: 0xFF }, file_logging: true },
        taskbar: TaskbarConfig {
            enabled: true,
            mode: TaskbarMode::Acrylic,
            color: Rgb { r: 0, g: 0, b: 0 },
            opacity: Factor { numerator: 1, denominator: 2 },
            apply_to_secondary: true,
            dynamic_mode: false,
            dynamic_mode_override: TaskbarMode::Opaque,
            hide_on_fullscreen: true,
            restore_on_exit: true,
        },
        widget: WidgetConfig { enabled: true },
        media: MediaConfig {
            enabled: true,
            show_lyrics: true,
            show_spectrum: true,
            lyric_provider: LyricProvider::Custom,
        },
        clipboard: ClipboardConfig { enabled: true, capture_images: true },
        todo: TodoConfig { enabled: true },
        snip: SnipConfig { enabled: true },
    }
}

/// A stand-in for font metrics: one line per so many characters, so wrapping is observable
/// without a font.
fn fake_measure(text: &str, width: i64) -> i64 {
    let per_line = ((width / (6 * PIXEL)) as usize).max(1);
    let lines = text.chars().count().div_ceil(per_line).max(1);
    lines as i64 * 14 * PIXEL
}

/// A window from the origin, in pixels.
fn sized(width: i64, height: i64) -> Rect {
    Rect::new(0, 0, width * PIXEL, height * PIXEL)
}

fn window() -> Rect {
    sized(900, 640)
}

fn build(id: &str, config: &Config, scroll: i64) -> Layout {
    let metrics = Metrics::new(96);
    layout(&window(), &metrics, &section(id).unwrap(), config, scroll * PIXEL, &fake_measure)
}

#[test]
fn every_section_lays_out_without_panicking() {
    for section in sections() {
        let metrics = Metrics::new(96);
        let layout = layout(&window(), &metrics, &section, &default_config(), 0, &fake_measure);
        assert_eq!(layout.nav.len(), sections().len());
        if !section.is_about {
            assert!(!layout.content.cards.is_empty(), "{} produced no cards", section.id);
        }
    }
}

#[test]
fn the_sidebar_keeps_the_about_entry_at_the_bottom() {
    let layout = build("appearance", &default_config(), 0);
    let about = layout.nav.iter().find(|item| item.section.is_about).expect("about entry");
    let others: Vec<&NavItem> = layout.nav.iter().filter(|i| !i.section.is_about).collect();
    assert!(
        others.iter().all(|item| item.rect.bottom < about.rect.top),
        "关于 should sit below the spacer, not inline with the rest"
    );
    assert!(!layout.nav_spacer.is_empty(), "the spacer should have height");
}

#[test]
fn rows_stack_without_gaps_or_overlap() {
    let layout = build("taskbar", &default_config(), 0);
    for card in &layout.content.cards {
        for pair in card.rows.windows(2) {
            assert_eq!(
                pair[0].rect.bottom, pair[1].rect.top,
                "rows must meet exactly, or the divider lands in the wrong place"
            );
        }
        if let (Some(first), Some(last)) = (card.rows.first(), card.rows.last()) {
            assert!(first.rect.top >= card.rect.top);
            assert!(last.rect.bottom <= card.rect.bottom, "rows overflow their card");
        }
    }
}

#[test]
fn cards_do_not_overlap_and_leave_a_gap() {
    let metrics = Metrics::new(96);
    let layout = build("widget", &default_config(), 0);
    for pair in layout.content.cards.windows(2) {
        assert_eq!(pair[0].rect.bottom + metrics.card_gap(), pair[1].rect.top);
    }
}

#[test]
fn the_label_column_ends_where_the_control_column_begins() {
    let layout = build("appearance", &default_config(), 0);
    for card in &layout.content.cards {
        for row in &card.rows {
            if row.label.is_empty() || row.control.is_empty() {
                continue;
            }
            assert!(
                row.label.right < row.control.left,
                "label {:?} collides with control {:?}",
                row.label,
                row.control
            );
            assert!(row.control.right <= card.rect.right);
        }
    }
}

#[test]
fn a_row_with_a_hint_is_taller_than_one_without() {
    let config = default_config();
    let layout = build("appearance", &config, 0);
    let rows: Vec<&Row> = layout.content.cards.iter().flat_map(|c| c.rows.iter()).collect();
    let with_hint = rows.iter().find(|r| !r.hint.is_empty()).expect("a hinted row");
    let without = rows.iter().find(|r| r.hint.is_empty()).expect("an unhinted row");
    assert!(with_hint.rect.height() > without.rect.height());
}

/// The label's box has to be exactly one line tall: text is drawn centred in its rectangle,
/// so a label handed the whole row would be centred on top of its own hint.
#[test]
fn a_label_gets_one_line_and_its_hint_the_next() {
    let metrics = Metrics::new(96);
    let layout = build("appearance", &default_config(), 0);
    let line = metrics.label_size() * LINE_SPACING / 1_000;
    let rows: Vec<&Row> = layout.content.cards.iter().flat_map(|c| c.rows.iter()).collect();
    for row in rows.iter().filter(|row| !row.hint.is_empty()) {
        assert_eq!(
            row.label.height(),
            line,
            "{:?} label box is {} tall, not one line ({line})",
            row.field.label,
            row.label.height()
        );
        assert_eq!(
            row.hint.top - row.label.bottom,
            metrics.hint_gap(),
            "{:?} hint is not one gap below the label",
            row.field.label
        );
    }
}

#[test]
fn status_and_action_rows_use_the_whole_width() {
    let layout = build("clipboard", &default_config(), 0);
    let status = layout
        .content
        .cards
        .iter()
        .flat_map(|c| c.rows.iter())
        .find(|r| matches!(r.field.kind, Kind::Status(_)))
        .expect("a status row");
    assert!(status.label.is_empty(), "status rows have no label column");
    assert!(status.control.width() > 400 * PIXEL, "the control spans the row");
}

#[test]
fn scrolling_moves_the_page_and_bounds_itself() {
    let config = default_config();
    let top = build("media", &config, 0);
    assert!(top.scroll_max > 0, "the media page should overflow");

    let scrolled = build("media", &config, 60);
    let first_top = top.content.cards[0].rows[0].rect.top;
    let first_scrolled = scrolled.content.cards[0].rows[0].rect.top;
    assert_eq!(
        first_top - first_scrolled,
        60 * PIXEL,
        "scrolling by 60 must move the page by exactly 60"
    );
    assert_eq!(
        scrolled.content.height, top.content.height,
        "the page height does not depend on the scroll offset"
    );
    assert_eq!(scrolled.scroll, 60 * PIXEL, "an offset inside the range is kept");

    // Past the end it clamps, so the scrollbar cannot be dragged off.
    let over = build("media", &config, 100_000);
    let last = over.content.cards.last().unwrap().rows.last().unwrap();
    assert!(
        last.rect.bottom <= over.viewport.bottom,
        "clamped scrolling should stop at the end of the page"
    );
    assert_eq!(
        over.scroll, over.scroll_max,
        "the layout has to report the offset it clamped to, or the thumb lies"
    );
}

#[test]
fn the_scrollbar_thumb_shrinks_with_a_longer_page() {
    let config = default_config();
    let short = build("appearance", &config, 0);
    let long = build("media", &config, 0);
    assert!(long.content.height > short.content.height);
    assert!(
        long.scrollbar.height() <= short.scrollbar.height(),
        "a longer page gets a shorter thumb"
    );
    assert!(short.scrollbar.height() > 0);
}

#[test]
fn a_narrow_window_does_not_produce_negative_columns() {
    let metrics = Metrics::new(96);
    let narrow = sized(260, 400);
    let layout = layout(
        &narrow,
        &metrics,
        &section("widget").unwrap(),
        &default_config(),
        0,
        &fake_measure,
    );
    for card in &layout.content.cards {
        assert!(card.rect.width() >= 0);
        for row in &card.rows {
            assert!(row.label.width() >= 0);
            assert!(row.control.width() >= 0);
        }
    }
}

#[test]
fn hit_testing_respects_the_viewport() {
    let layout = build("media", &default_config(), 0);
    let first = layout.content.cards[0].rows[0];
    let center = (
        (first.rect.left + first.rect.right) / 2,
        (first.rect.top + first.rect.bottom) / 2,
    );
    assert!(layout.row_at(center.0, center.1).is_some());

    // A point over the sidebar is not a row, however the rows are laid out.
    assert!(layout.row_at(10 * PIXEL, center.1).is_none());
    // Neither is one above the viewport.
    assert!(layout.row_at(center.0, layout.viewport.top - 5 * PIXEL).is_none());
}

#[test]
fn hit_testing_finds_the_active_nav_entry() {
    let layout = build("media", &default_config(), 0);
    let active = layout.nav.iter().find(|item| item.active).unwrap();
    assert_eq!(active.section.id, "media");
    let center = (
        (active.rect.left + active.rect.right) / 2,
        (active.rect.top + active.rect.bottom) / 2,
    );
    assert_eq!(layout.nav_at(center.0, center.1).unwrap().section.id, "media");
}

#[test]
fn dpi_scales_every_dimension() {
    let config = default_config();
    let normal = build("appearance", &config, 0);
    let metrics = Metrics::new(192);
    let scaled = layout(
        &sized(1800, 1280),
        &metrics,
        &section("appearance").unwrap(),
        &config,
        0,
        &fake_measure,
    );
    assert_eq!(
        scaled.titlebar.height(),
        2 * normal.titlebar.height(),
        "200% DPI doubles the chrome"
    );
    assert!(scaled.sidebar.width() > normal.sidebar.width());
}

#[test]
fn hidden_rows_take_no_space() {
    let mut config = default_config();
    config.taskbar.enabled = true;
    let expanded = build("taskbar", &config, 0);
    config.taskbar.enabled = false;
    let collapsed = build("taskbar", &config, 0);
    assert!(
        collapsed.content.height < expanded.content.height,
        "hiding rows must shorten the page"
    );
}

#[test]
fn a_row_index_counts_over_all_cards() {
    let layout = build("taskbar", &default_config(), 0);
    let rows = layout.content.rows();
    for (i, row) in rows.iter().enumerate() {
        let (x, y) = (row.rect.center_x(), row.rect.center_y());
        if layout.viewport.contains(x, y) {
            assert_eq!(layout.row_index_at(x, y), Some(i));
            assert_eq!(layout.row_at(x, y).unwrap().rect, row.rect);
        } else {
            assert_eq!(layout.row_index_at(x, y), None);
        }
    }
    assert_eq!(layout.nav_index_at(PIXEL, layout.nav[2].rect.center_y()), None);
    assert_eq!(
        layout.nav_index_at(layout.nav[2].rect.center_x(), layout.nav[2].rect.center_y()),
        Some(2)
    );
}

#[test]
fn design_lengths_scale_with_the_dpi() {
    assert_eq!(Metrics::new(96).px(38_000), 38 * PIXEL);
    assert_eq!(Metrics::new(144).titlebar_height(), 57 * PIXEL);
    assert_eq!(Metrics::new(96).label_line(), 16_875 * 96);
}

#[test]
fn the_about_entry_is_pinned_and_the_heading_has_air() {
    let layout = build("appearance", &default_config(), 0);
    let about = layout.nav.iter().find(|item| item.section.is_about).unwrap();
    assert_eq!(about.rect.bottom, layout.sidebar.bottom - 22 * PIXEL);
    assert_eq!(layout.content.title.top, layout.viewport.top + 8 * PIXEL);
}

#[test]
fn two_offsets_show_one_page() {
    let top = build("appearance", &default_config(), 0);
    let down = build("appearance", &default_config(), 37 * PIXEL);
    let past = build("appearance", &default_config(), i64::MAX);
    assert_eq!((top.scroll, past.scroll), (0, past.scroll_max));
    for other in [&down, &past] {
        assert_eq!(other.content.height, top.content.height);
        assert_eq!(other.scroll_max, top.scroll_max);
        let pairs = top.content.rows().into_iter().zip(other.content.rows());
        for (a, b) in pairs {
            assert_eq!(b.rect.top, a.rect.top - other.scroll);
            assert_eq!(b.control.bottom, a.control.bottom - other.scroll);
        }
    }
}
