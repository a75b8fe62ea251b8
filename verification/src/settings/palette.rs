//! Colours for the settings window.
//!
//! Resolved from the theme and the accent, so the window matches the widget bar and
//! follows a theme change without being told twice.

use vstd::prelude::*;

use crate::color::Rgb;
use crate::config::{Config, Theme};

verus! {

/// A colour and an opacity in hundredths.
#[derive(Clone, Copy, Debug, PartialEq, Eq, Structural)]
pub struct Rgba {
    pub r: u8,
    pub g: u8,
    pub b: u8,
    pub a: u8,
}

/// A colour and an opacity in hundredths.
#[verifier::allow_in_spec]
pub fn rgba(r: u8, g: u8, b: u8, a: u8) -> Rgba
    returns
        (Rgba { r, g, b, a }),
{
    Rgba { r, g, b, a }
}

impl Rgba {
    /// The colour with another opacity, in hundredths.
    #[verifier::allow_in_spec]
    pub fn with_alpha(self, a: u8) -> Rgba
        returns
            (Rgba { r: self.r, g: self.g, b: self.b, a }),
    {
        Rgba { r: self.r, g: self.g, b: self.b, a }
    }

    /// An opaque colour.
    #[verifier::allow_in_spec]
    pub fn from_color(color: Rgb) -> Rgba
        returns
            (Rgba { r: color.r, g: color.g, b: color.b, a: 100 }),
    {
        Rgba { r: color.r, g: color.g, b: color.b, a: 100 }
    }
}

/// The colour set that the painter draws from.
#[derive(Clone, Copy, Debug, PartialEq, Eq, Structural)]
pub struct Palette {
    /// Behind everything, the gutter of the sidebar too.
    pub window: Rgba,
    pub sidebar: Rgba,
    /// The card panels that the rows sit on.
    pub card: Rgba,
    pub card_border: Rgba,
    /// The separator between rows inside a card.
    pub divider: Rgba,
    pub text: Rgba,
    /// Hints and secondary labels.
    pub text_dim: Rgba,
    /// Placeholders and disabled text.
    pub text_faint: Rgba,
    pub accent: Rgba,
    /// Text on top of the accent.
    pub on_accent: Rgba,
    /// Input controls: boxes, switches that are off, slider tracks.
    pub control: Rgba,
    pub control_border: Rgba,
    /// The title bar strip.
    pub titlebar: Rgba,
    /// The wash over a control under the pointer.
    pub hover: Rgba,
    /// Destructive buttons.
    pub danger: Rgba,
    /// Status pill tones.
    pub ok: Rgba,
    pub warn: Rgba,
    /// Does the surface read light, so that text goes dark?
    pub light: bool,
}

/// Does a theme come out light? `system_is_light` counts when it follows the system.
pub open spec fn is_light(theme: Theme, system_is_light: bool) -> bool {
    match theme {
        Theme::Light => true,
        Theme::Dark => false,
        Theme::Auto => system_is_light,
    }
}

/// The light colours.
pub open spec fn light_palette(accent: Rgb) -> Palette {
    Palette {
        window: rgba(0xF4, 0xF5, 0xF8, 100),
        sidebar: rgba(0xEA, 0xEC, 0xF1, 100),
        card: rgba(0xFF, 0xFF, 0xFF, 100),
        card_border: rgba(0x00, 0x00, 0x00, 8),
        divider: rgba(0x00, 0x00, 0x00, 7),
        text: rgba(0x1B, 0x1F, 0x2A, 100),
        text_dim: rgba(0x5A, 0x63, 0x76, 100),
        text_faint: rgba(0x8B, 0x93, 0xA5, 100),
        accent: Rgba::from_color(accent),
        on_accent: rgba(0xFF, 0xFF, 0xFF, 100),
        control: rgba(0xFF, 0xFF, 0xFF, 100),
        control_border: rgba(0x00, 0x00, 0x00, 16),
        titlebar: rgba(0xEA, 0xEC, 0xF1, 100),
        hover: rgba(0x00, 0x00, 0x00, 6),
        danger: rgba(0xD1, 0x3B, 0x3B, 100),
        ok: rgba(0x1F, 0x8A, 0x4C, 100),
        warn: rgba(0xB4, 0x7A, 0x0B, 100),
        light: true,
    }
}

/// The dark colours.
pub open spec fn dark_palette(accent: Rgb) -> Palette {
    Palette {
        window: rgba(0x1B, 0x1D, 0x23, 100),
        sidebar: rgba(0x16, 0x18, 0x1D, 100),
        card: rgba(0x24, 0x27, 0x2E, 100),
        card_border: rgba(0xFF, 0xFF, 0xFF, 7),
        divider: rgba(0xFF, 0xFF, 0xFF, 6),
        text: rgba(0xE9, 0xEB, 0xF2, 100),
        text_dim: rgba(0x9B, 0xA3, 0xB7, 100),
        text_faint: rgba(0x6E, 0x76, 0x88, 100),
        accent: Rgba::from_color(accent),
        on_accent: rgba(0xFF, 0xFF, 0xFF, 100),
        control: rgba(0x2E, 0x32, 0x3B, 100),
        control_border: rgba(0xFF, 0xFF, 0xFF, 12),
        titlebar: rgba(0x16, 0x18, 0x1D, 100),
        hover: rgba(0xFF, 0xFF, 0xFF, 7),
        danger: rgba(0xE0, 0x5A, 0x5A, 100),
        ok: rgba(0x4C, 0xC0, 0x7A, 100),
        warn: rgba(0xE0, 0xA9, 0x4B, 100),
        light: false,
    }
}

impl Palette {
    /// The colours for a configuration.
    pub open spec fn of(config: Config, system_is_light: bool) -> Palette {
        if is_light(config.ui.theme, system_is_light) {
            light_palette(config.ui.accent)
        } else {
            dark_palette(config.ui.accent)
        }
    }

    /// Resolve for the configured theme. `system_is_light` is the Windows app theme, used
    /// when the configuration says to follow the system.
    pub fn resolve(config: &Config, system_is_light: bool) -> (r: Palette)
        ensures
            r == Palette::of(*config, system_is_light),
    {
        let light: bool = match config.ui.theme {
            Theme::Light => true,
            Theme::Dark => false,
            Theme::Auto => system_is_light,
        };
        let accent: Rgba = Rgba::from_color(config.ui.accent);
        if light {
            Palette {
                window: rgba(0xF4, 0xF5, 0xF8, 100),
                sidebar: rgba(0xEA, 0xEC, 0xF1, 100),
                card: rgba(0xFF, 0xFF, 0xFF, 100),
                card_border: rgba(0x00, 0x00, 0x00, 8),
                divider: rgba(0x00, 0x00, 0x00, 7),
                text: rgba(0x1B, 0x1F, 0x2A, 100),
                text_dim: rgba(0x5A, 0x63, 0x76, 100),
                text_faint: rgba(0x8B, 0x93, 0xA5, 100),
                accent,
                on_accent: rgba(0xFF, 0xFF, 0xFF, 100),
                control: rgba(0xFF, 0xFF, 0xFF, 100),
                control_border: rgba(0x00, 0x00, 0x00, 16),
                titlebar: rgba(0xEA, 0xEC, 0xF1, 100),
                hover: rgba(0x00, 0x00, 0x00, 6),
                danger: rgba(0xD1, 0x3B, 0x3B, 100),
                ok: rgba(0x1F, 0x8A, 0x4C, 100),
                warn: rgba(0xB4, 0x7A, 0x0B, 100),
                light: true,
            }
        } else {
            Palette {
                window: rgba(0x1B, 0x1D, 0x23, 100),
                sidebar: rgba(0x16, 0x18, 0x1D, 100),
                card: rgba(0x24, 0x27, 0x2E, 100),
                card_border: rgba(0xFF, 0xFF, 0xFF, 7),
                divider: rgba(0xFF, 0xFF, 0xFF, 6),
                text: rgba(0xE9, 0xEB, 0xF2, 100),
                text_dim: rgba(0x9B, 0xA3, 0xB7, 100),
                text_faint: rgba(0x6E, 0x76, 0x88, 100),
                accent,
                on_accent: rgba(0xFF, 0xFF, 0xFF, 100),
                control: rgba(0x2E, 0x32, 0x3B, 100),
                control_border: rgba(0xFF, 0xFF, 0xFF, 12),
                titlebar: rgba(0x16, 0x18, 0x1D, 100),
                hover: rgba(0xFF, 0xFF, 0xFF, 7),
                danger: rgba(0xE0, 0x5A, 0x5A, 100),
                ok: rgba(0x4C, 0xC0, 0x7A, 100),
                warn: rgba(0xE0, 0xA9, 0x4B, 100),
                light: false,
            }
        }
    }
}

/// An explicit theme wins over the system's, and the accent is the configured one
/// whatever the theme.
pub proof fn an_explicit_theme_wins(config: Config, system_is_light: bool)
    ensures
        config.ui.theme == Theme::Dark ==> !Palette::of(config, system_is_light).light,
        config.ui.theme == Theme::Light ==> Palette::of(config, system_is_light).light,
        config.ui.theme == Theme::Auto ==> Palette::of(config, system_is_light).light
            == system_is_light,
        Palette::of(config, system_is_light).accent == Rgba::from_color(config.ui.accent),
{
}

/// Is every channel of one colour below that of another?
pub open spec fn darker(one: Rgba, other: Rgba) -> bool {
    one.r < other.r && one.g < other.g && one.b < other.b
}

/// Text can be read on every surface: it is dark on the light colours and light on the dark
/// ones, the dimmer texts lie between it and the window, and the accent is the configured
/// colour.
pub proof fn text_stands_out(config: Config, system_is_light: bool)
    ensures
        ({
            let p = Palette::of(config, system_is_light);
            &&& p.light ==> darker(p.text, p.text_dim) && darker(p.text_dim, p.text_faint) && darker(
                p.text_faint,
                p.window,
            ) && darker(p.window, p.card) && darker(p.text, p.sidebar) && darker(p.text, p.control)
                && darker(p.text, p.titlebar)
            &&& !p.light ==> darker(p.text_dim, p.text) && darker(p.text_faint, p.text_dim)
                && darker(p.window, p.text_faint) && darker(p.window, p.card) && darker(
                p.sidebar,
                p.text,
            ) && darker(p.control, p.text) && darker(p.titlebar, p.text)
            &&& p.accent.r == config.ui.accent.r && p.accent.g == config.ui.accent.g && p.accent.b
                == config.ui.accent.b && p.accent.a == 100
            &&& p.danger.r > p.danger.g && p.danger.r > p.danger.b
            &&& p.ok.g > p.ok.r && p.ok.g > p.ok.b
            &&& p.warn.r > p.warn.g && p.warn.g > p.warn.b
            &&& p.window.a == 100 && p.card.a == 100 && p.sidebar.a == 100 && p.text.a == 100
            &&& is_light(Theme::Light, system_is_light) && !is_light(Theme::Dark, system_is_light)
                && is_light(Theme::Auto, system_is_light) == system_is_light
        }),
{
}

} // verus!
