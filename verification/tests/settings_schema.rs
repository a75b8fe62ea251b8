//! The table of settings.

use winbeautify::color::Rgb;
use winbeautify::config::{
    ClipboardConfig, Config, LyricProvider, MediaConfig, SnipConfig, TaskbarConfig, TaskbarMode,
    Theme, TodoConfig, UiConfig, WidgetAnchor, WidgetConfig,
};
use winbeautify::number::Factor;
use winbeautify::settings::schema::{
    anchor_from_id, mode_from_id, mode_label, modes, section, sections, theme_from_id, ChoiceList,
    Format, Kind, Rule,
};

fn default_config() -> Config {
    Config {
        ui: UiConfig { theme: Theme::Auto, accent: Rgb { r: 0x4F, g: 0x8C, b: 0xFF }, file_logging: true },
        taskbar: TaskbarConfig {
            enabled: true,
            mode: TaskbarMode::Acrylic,
            color: Rgb { r: 0, g: 0, b: 0 },
            opacity: Factor { numerator: 1, denominator: 2 },
            apply_to_secondary: true,
            dynamic_mode: false,
            dynamic_mode_override: TaskbarMode::Opaque,
            hide_on_fullscreen: true,
            restore_on_exit: true,
        },
        widget: WidgetConfig { enabled: true },
        media: MediaConfig {
            enabled: true,
            show_lyrics: true,
            show_spectrum: true,
            lyric_provider: LyricProvider::Custom,
        },
        clipboard: ClipboardConfig { enabled: true, capture_images: true },
        todo: TodoConfig { enabled: true },
        snip: SnipConfig { enabled: true },
    }
}

#[test]
fn every_editable_field_names_a_config_path() {
    for section in sections() {
        for (_, field) in section.visible_fields(&default_config()) {
            let needs_path = field.kind.holds_value();
            assert_eq!(
                needs_path,
                !field.path.is_empty(),
                "section {} field {:?} has path {:?} but kind {:?}",
                section.id,
                field.label,
                field.path,
                field.kind,
            );
        }
    }
}

#[test]
fn paths_are_unique() {
    let mut seen = std::collections::HashSet::new();
    for section in sections() {
        for card in section.cards {
            for field in card.fields {
                if field.path.is_empty() {
                    continue;
                }
                assert!(seen.insert(field.path), "duplicate path {}", field.path);
            }
        }
    }
    assert!(seen.len() > 45, "expected the full page, found {}", seen.len());
}

#[test]
fn every_label_is_filled_in() {
    for section in sections() {
        if section.is_about {
            continue;
        }
        assert!(!section.title.is_empty());
        for card in section.cards {
            assert!(!card.fields.is_empty(), "empty card in {}", section.id);
            for field in card.fields {
                assert!(!field.label.is_empty(), "unlabelled field in {}", section.id);
            }
        }
    }
}

#[test]
fn an_off_module_hides_its_dependent_rows() {
    let mut config = default_config();
    config.taskbar.enabled = false;
    let section = section("taskbar").unwrap();
    let titles: Vec<&str> =
        section.visible_fields(&config).into_iter().map(|(_, field)| field.label).collect();
    assert_eq!(titles, vec!["启用任务栏美化", "当前状态"]);

    config.taskbar.enabled = true;
    assert!(
        section.visible_fields(&config).len() > titles.len(),
        "switching the module on must reveal its settings"
    );
}

#[test]
fn the_tint_rows_follow_the_mode() {
    let mut config = default_config();
    config.taskbar.mode = TaskbarMode::Normal;
    let section = section("taskbar").unwrap();
    let shows_tint = |c: &Config| {
        section.visible_fields(c).iter().any(|(_, field)| field.path == "taskbar.color")
    };
    assert!(!shows_tint(&config), "no tint to configure in normal mode");
    config.taskbar.mode = TaskbarMode::Acrylic;
    assert!(shows_tint(&config));
}

#[test]
fn the_dynamic_override_only_shows_for_the_dynamic_mode() {
    let mut config = default_config();
    config.taskbar.enabled = true;
    config.taskbar.dynamic_mode = false;
    let section = section("taskbar").unwrap();
    let shows = |c: &Config| {
        section
            .visible_fields(c)
            .iter()
            .any(|(_, field)| field.path == "taskbar.dynamic_mode_override")
    };
    assert!(!shows(&config));
    config.taskbar.dynamic_mode = true;
    assert!(shows(&config));
}

#[test]
fn the_snip_section_collapses_to_its_switch() {
    let mut config = default_config();
    config.snip.enabled = true;
    let section = section("snip").unwrap();
    let expanded: Vec<&str> =
        section.visible_fields(&config).into_iter().map(|(_, f)| f.label).collect();
    assert!(expanded.len() >= 5, "the feature's rows should be visible");

    config.snip.enabled = false;
    let collapsed: Vec<&str> =
        section.visible_fields(&config).into_iter().map(|(_, f)| f.label).collect();
    assert!(
        collapsed.contains(&"启用截图"),
        "the switch that turns it back on must never hide itself"
    );
    assert!(
        !collapsed.contains(&"立即截图"),
        "a trigger for a disabled feature is a dead control"
    );
    // The one row that stays is the pin housekeeping: pins left over from a previous
    // session still have to be dismissible.
    assert!(collapsed.contains(&"屏幕上可能有之前留下的贴图"));
}

#[test]
fn the_about_page_has_something_to_show() {
    let about = section("about").unwrap();
    assert!(about.is_about, "the sidebar pins this entry to the bottom");
    assert!(!about.cards.is_empty(), "an empty 关于 page is a blank screen, not a page");
    // Its rows are read-only, so none of them may claim a config path.
    for card in &about.cards {
        for field in &card.fields {
            assert!(
                !field.kind.holds_value() || !field.path.is_empty(),
                "关于 field {:?} binds a value but names no path",
                field.label
            );
        }
    }
    assert!(
        about
            .cards
            .iter()
            .flat_map(|card| card.fields.iter())
            .any(|field| matches!(field.kind, Kind::Info(_))),
        "the about page is where the live values go"
    );
}

/// Numbers are in millionths.
#[test]
fn formats_render_the_way_the_old_page_did() {
    assert_eq!(Format::Percent.render(780_000), "78%");
    assert_eq!(Format::Percent.render(0), "0%");
    assert_eq!(Format::Milliseconds.render(150_000_000), "150 ms");
    assert_eq!(Format::SignedMilliseconds.render(250_000_000), "+250 ms");
    assert_eq!(Format::SignedMilliseconds.render(-250_000_000), "-250 ms");
    assert_eq!(Format::SignedMilliseconds.render(0), "0 ms");
    assert_eq!(Format::Multiplier.render(2_500_000), "2.5×");
    assert_eq!(Format::Decimal.render(650_000), "0.65");
    assert_eq!(Format::PixelsOrSquare.render(8_000_000), "8 px");
    assert_eq!(Format::PixelsOrSquare.render(0), "直角");
    assert_eq!(Format::Pixels.render(120_000_000), "120 px");
}

#[test]
fn mode_ids_round_trip_through_the_label_table() {
    for choice in modes() {
        assert_eq!(mode_from_id(choice.value).id(), choice.value);
        assert_ne!(mode_label(choice.value), "未知");
    }
}

#[test]
fn the_schema_helpers_agree_with_the_config_enums() {
    assert_eq!(mode_from_id("acrylic"), TaskbarMode::Acrylic);
    assert_eq!(mode_from_id("mica").id(), "mica");
    assert_eq!(theme_from_id("auto"), Theme::Auto);
    assert_eq!(anchor_from_id("bottom-center"), WidgetAnchor::BottomCenter);
    assert_eq!(anchor_from_id("taskbar-right"), WidgetAnchor::TaskbarRight);
}

#[test]
fn an_unknown_id_falls_back() {
    assert_eq!(mode_label("no such mode"), "未知");
    assert!(section("no such page").is_none());
    for theme in [Theme::Dark, Theme::Light, Theme::Auto] {
        assert_eq!(theme_from_id(theme.id()), theme);
    }
    for mode in [
        TaskbarMode::Normal,
        TaskbarMode::Opaque,
        TaskbarMode::Clear,
        TaskbarMode::Blur,
        TaskbarMode::Acrylic,
        TaskbarMode::Mica,
    ] {
        assert_eq!(mode_from_id(mode.id()), mode);
    }
    for anchor in [
        WidgetAnchor::TaskbarLeft,
        WidgetAnchor::TaskbarCenter,
        WidgetAnchor::TaskbarRight,
        WidgetAnchor::BottomLeft,
        WidgetAnchor::BottomCenter,
        WidgetAnchor::BottomRight,
    ] {
        assert_eq!(anchor_from_id(anchor.id()), anchor);
    }
}

#[test]
fn halves_round_like_the_formatter() {
    // A percentage rounds halves away from zero before it is printed.
    assert_eq!(Format::Percent.render(995_000), "100%");
    assert_eq!(Format::Percent.render(994_999), "99%");
    // A printed fraction rounds an exact half to the even digit.
    assert_eq!(Format::Multiplier.render(250_000), "0.2×");
    assert_eq!(Format::Multiplier.render(750_000), "0.8×");
    assert_eq!(Format::Decimal.render(-125_000), "-0.12");
    // A large value keeps its digits, and a whole one stops at the last integer.
    assert_eq!(Format::Multiplier.render(20_000_000_000_000_000_000), "20000000000000.0×");
    assert_eq!(Format::Decimal.render(-20_000_000_000_000_250_000), "-20000000000000.25");
    assert_eq!(Format::Pixels.render(20_000_000_000_000_000_000), "20000000000000 px");
    assert_eq!(Format::Milliseconds.render(i128::MAX), format!("{} ms", i64::MAX));
    assert_eq!(Format::Percent.render(i128::MIN), format!("{}%", i64::MIN));
}

#[test]
fn read_only_rows_hold_no_value() {
    for section in sections() {
        for card in &section.cards {
            for field in &card.fields {
                match field.kind {
                    Kind::Info(_) => {
                        assert!(!field.kind.holds_value());
                        assert!(!field.kind.is_interactive());
                    }
                    Kind::Status(_) => {
                        assert!(!field.kind.holds_value());
                        assert!(field.kind.is_interactive());
                    }
                    Kind::Action(list) => {
                        assert!(!field.kind.holds_value());
                        assert!(field.kind.is_interactive());
                        assert!(!list.buttons().is_empty());
                    }
                    _ => assert!(field.kind.holds_value() && field.kind.is_interactive()),
                }
            }
        }
    }
    assert_eq!(ChoiceList::Modes.choices().len(), modes().len());
}

#[test]
fn every_rule_reads_its_own_switches() {
    let on = default_config();
    for rule in [
        Rule::TaskbarOn,
        Rule::TaskbarTinted,
        Rule::WidgetOn,
        Rule::WidgetLyrics,
        Rule::MediaOn,
        Rule::MediaSpectrum,
        Rule::MediaLyrics,
        Rule::MediaCustom,
        Rule::ClipboardOn,
        Rule::ClipboardImages,
        Rule::TodoOn,
        Rule::SnipOn,
        Rule::FileLogging,
    ] {
        assert!(rule.holds(&on), "{rule:?}");
    }
    assert!(!Rule::TaskbarDynamic.holds(&on));

    let mut off = on;
    off.media.enabled = false;
    assert!(!Rule::MediaCustom.holds(&off) && !Rule::MediaLyrics.holds(&off));
    // The widget's lyrics row asks for lyrics, not for the media module.
    assert!(Rule::WidgetLyrics.holds(&off));
    off.clipboard.enabled = false;
    assert!(!Rule::ClipboardImages.holds(&off));
    off.ui.file_logging = false;
    assert!(!Rule::FileLogging.holds(&off));
}
