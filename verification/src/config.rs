//! The configuration, as far as the rules read it.

use vstd::prelude::*;

use crate::color::Rgb;
use crate::number::Factor;

verus! {

/// How the taskbar is painted.
#[derive(Clone, Copy, Debug, PartialEq, Eq, Structural)]
pub enum TaskbarMode {
    /// Left to Windows.
    Normal,
    Opaque,
    Clear,
    Blur,
    Acrylic,
    Mica,
}

impl TaskbarMode {
    /// The name under which the mode is stored.
    pub open spec fn name(self) -> Seq<char> {
        match self {
            TaskbarMode::Normal => "normal"@,
            TaskbarMode::Opaque => "opaque"@,
            TaskbarMode::Clear => "clear"@,
            TaskbarMode::Blur => "blur"@,
            TaskbarMode::Acrylic => "acrylic"@,
            TaskbarMode::Mica => "mica"@,
        }
    }

    pub fn id(self) -> (r: &'static str)
        ensures
            r@ == self.name(),
    {
        match self {
            TaskbarMode::Normal => "normal",
            TaskbarMode::Opaque => "opaque",
            TaskbarMode::Clear => "clear",
            TaskbarMode::Blur => "blur",
            TaskbarMode::Acrylic => "acrylic",
            TaskbarMode::Mica => "mica",
        }
    }
}

/// The application's theme.
#[derive(Clone, Copy, Debug, PartialEq, Eq, Structural)]
pub enum Theme {
    Dark,
    Light,
    /// Whatever Windows uses.
    Auto,
}

impl Theme {
    pub open spec fn name(self) -> Seq<char> {
        match self {
            Theme::Dark => "dark"@,
            Theme::Light => "light"@,
            Theme::Auto => "auto"@,
        }
    }

    pub fn id(self) -> (r: &'static str)
        ensures
            r@ == self.name(),
    {
        match self {
            Theme::Dark => "dark",
            Theme::Light => "light",
            Theme::Auto => "auto",
        }
    }
}

/// Where the widget bar sits.
#[derive(Clone, Copy, Debug, PartialEq, Eq, Structural)]
pub enum WidgetAnchor {
    TaskbarLeft,
    TaskbarCenter,
    TaskbarRight,
    BottomLeft,
    BottomCenter,
    BottomRight,
}

impl WidgetAnchor {
    pub open spec fn name(self) -> Seq<char> {
        match self {
            WidgetAnchor::TaskbarLeft => "taskbar-left"@,
            WidgetAnchor::TaskbarCenter => "taskbar-center"@,
            WidgetAnchor::TaskbarRight => "taskbar-right"@,
            WidgetAnchor::BottomLeft => "bottom-left"@,
            WidgetAnchor::BottomCenter => "bottom-center"@,
            WidgetAnchor::BottomRight => "bottom-right"@,
        }
    }

    pub fn id(self) -> (r: &'static str)
        ensures
            r@ == self.name(),
    {
        match self {
            WidgetAnchor::TaskbarLeft => "taskbar-left",
            WidgetAnchor::TaskbarCenter => "taskbar-center",
            WidgetAnchor::TaskbarRight => "taskbar-right",
            WidgetAnchor::BottomLeft => "bottom-left",
            WidgetAnchor::BottomCenter => "bottom-center",
            WidgetAnchor::BottomRight => "bottom-right",
        }
    }
}

/// Where lyrics are looked up.
#[derive(Clone, Copy, Debug, PartialEq, Eq, Structural)]
pub enum LyricProvider {
    Off,
    Netease,
    Qq,
    Kugou,
    Lrclib,
    Custom,
}

/// What the taskbar is asked to look like.
#[derive(Clone, Copy, Debug, PartialEq, Eq, Structural)]
pub struct TaskbarConfig {
    pub enabled: bool,
    pub mode: TaskbarMode,
    pub color: Rgb,
    pub opacity: Factor,
    pub apply_to_secondary: bool,
    pub dynamic_mode: bool,
    pub dynamic_mode_override: TaskbarMode,
    pub hide_on_fullscreen: bool,
    pub restore_on_exit: bool,
}

/// The settings that decide which others are shown, and in what colours.
#[derive(Clone, Copy, Debug, PartialEq, Eq, Structural)]
pub struct Config {
    pub ui: UiConfig,
    pub taskbar: TaskbarConfig,
    pub widget: WidgetConfig,
    pub media: MediaConfig,
    pub clipboard: ClipboardConfig,
    pub todo: TodoConfig,
    pub snip: SnipConfig,
}

#[derive(Clone, Copy, Debug, PartialEq, Eq, Structural)]
pub struct UiConfig {
    pub theme: Theme,
    pub accent: Rgb,
    pub file_logging: bool,
}

#[derive(Clone, Copy, Debug, PartialEq, Eq, Structural)]
pub struct WidgetConfig {
    pub enabled: bool,
}

#[derive(Clone, Copy, Debug, PartialEq, Eq, Structural)]
pub struct MediaConfig {
    pub enabled: bool,
    pub show_lyrics: bool,
    pub show_spectrum: bool,
    pub lyric_provider: LyricProvider,
}

#[derive(Clone, Copy, Debug, PartialEq, Eq, Structural)]
pub struct ClipboardConfig {
    pub enabled: bool,
    pub capture_images: bool,
}

#[derive(Clone, Copy, Debug, PartialEq, Eq, Structural)]
pub struct TodoConfig {
    pub enabled: bool,
}

#[derive(Clone, Copy, Debug, PartialEq, Eq, Structural)]
pub struct SnipConfig {
    pub enabled: bool,
}

} // verus!
