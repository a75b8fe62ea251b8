//! The settings page, as data.
//!
//! Every control that the settings window draws comes from the tables in this file. The
//! only code per setting is a row in a table; the drawing, the layout and the interaction
//! are shared.

use vstd::prelude::*;
use vstd::string::StringExecFns;

use crate::config::{Config, LyricProvider, TaskbarMode, Theme, WidgetAnchor};
use crate::text::{
    decimal, digit_value, digits, digits_read_back, number_read, push_decimal, push_digits,
    push_long_digits, same_text,
};

verus! {

/// How many parts a whole number is divided into. Settings with a fraction are held in
/// millionths.
pub const ONE: i64 = 1_000_000;

/// How a numeric value is rendered next to its slider.
#[derive(Clone, Copy, Debug, PartialEq, Eq, Structural)]
pub enum Format {
    /// `0.78` → `78%`
    Percent,
    /// `150` → `150 ms`
    Milliseconds,
    /// `-250` → `-250 ms`, with an explicit sign so "earlier" reads as positive.
    SignedMilliseconds,
    /// `2.5` → `2.5×`
    Multiplier,
    /// `0.65` → `0.65`
    Decimal,
    /// `8` → `8 px`, and `0` → `直角`
    PixelsOrSquare,
    /// `120` → `120 px`
    Pixels,
}

/// The closest number that an integer setting can hold.
pub open spec fn held(value: int) -> int {
    if value > i64::MAX {
        i64::MAX as int
    } else if value < i64::MIN {
        i64::MIN as int
    } else {
        value
    }
}

/// `n / d` rounded to the nearest integer, halves away from zero.
pub open spec fn nearest(n: int, d: int) -> int
    recommends
        d > 0,
{
    if n >= 0 {
        (2 * n + d) / (2 * d)
    } else {
        -((2 * (-n) + d) / (2 * d))
    }
}

/// `n / d` rounded to the nearest integer, halves to the even one. For `n` that is not
/// negative.
pub open spec fn nearest_even(n: int, d: int) -> int
    recommends
        n >= 0,
        d > 0,
{
    let q = n / d;
    let r = n % d;
    if 2 * r < d || (2 * r == d && q % 2 == 0) {
        q
    } else {
        q + 1
    }
}

/// The last `places` digits of a number, with zeros in front where it is shorter.
pub open spec fn padded(n: nat, places: nat) -> Seq<char>
    decreases places,
{
    if places == 0 {
        Seq::empty()
    } else {
        padded(n / 10, (places - 1) as nat).push(crate::text::digit_char((n % 10) as int))
    }
}

/// A number of millionths in decimal, with one digit behind the point.
pub open spec fn one_place(value: int) -> Seq<char> {
    let tenths = nearest_even(if value < 0 {
        -value
    } else {
        value
    }, 100_000);
    (if value < 0 {
        seq!['-']
    } else {
        Seq::<char>::empty()
    }) + digits((tenths / 10) as nat) + seq!['.'] + padded((tenths % 10) as nat, 1)
}

/// A number of millionths in decimal, with two digits behind the point.
pub open spec fn two_places(value: int) -> Seq<char> {
    let hundredths = nearest_even(if value < 0 {
        -value
    } else {
        value
    }, 10_000);
    (if value < 0 {
        seq!['-']
    } else {
        Seq::<char>::empty()
    }) + digits((hundredths / 100) as nat) + seq!['.'] + padded((hundredths % 100) as nat, 2)
}

/// `value` millionths rounded to a whole number.
pub fn whole(value: i128) -> (r: i64)
    ensures
        r == held(nearest(value as int, ONE as int)),
{
    let size: u128 = magnitude(value);
    let up: u128 = if size % 1_000_000 >= 500_000 {
        1
    } else {
        0
    };
    signed(value < 0, size / 1_000_000 + up)
}

/// `value` millionths in hundredths, rounded to a whole number.
fn percent(value: i128) -> (r: i64)
    ensures
        r == held(nearest(value * 100, ONE as int)),
{
    let size: u128 = magnitude(value);
    let up: u128 = if size % 10_000 >= 5_000 {
        1
    } else {
        0
    };
    signed(value < 0, size / 10_000 + up)
}

/// A number with a sign, as far as an integer setting goes.
fn signed(negative: bool, size: u128) -> (r: i64)
    ensures
        r == held(if negative {
            -size
        } else {
            size as int
        }),
{
    if negative {
        if size >= 0x8000_0000_0000_0000 {
            i64::MIN
        } else {
            -(size as i64)
        }
    } else if size > 0x7fff_ffff_ffff_ffff {
        i64::MAX
    } else {
        size as i64
    }
}

pub(crate) fn magnitude(value: i128) -> (r: u128)
    ensures
        r == (if value < 0 {
            -value
        } else {
            value as int
        }),
{
    if value == i128::MIN {
        0x8000_0000_0000_0000_0000_0000_0000_0000
    } else if value < 0 {
        (-value) as u128
    } else {
        value as u128
    }
}

pub(crate) fn round_even(n: u128, d: u128) -> (r: u128)
    requires
        1 < d < 0x1_0000_0000,
    ensures
        r == nearest_even(n as int, d as int),
        r <= n / d + 1,
{
    let q: u128 = n / d;
    let rest: u128 = n % d;
    assert(q < u128::MAX) by (nonlinear_arith)
        requires
            q == n / d,
            d > 1,
            n <= u128::MAX,
    ;
    if 2 * rest < d || (2 * rest == d && q % 2 == 0) {
        q
    } else {
        q + 1
    }
}

impl Format {
    /// How a value, in millionths, is shown.
    pub open spec fn rendered(self, value: int) -> Seq<char> {
        match self {
            Format::Percent => decimal(held(nearest(value * 100, ONE as int))) + "%"@,
            Format::Milliseconds => decimal(held(nearest(value, ONE as int))) + " ms"@,
            Format::SignedMilliseconds => {
                let ms = held(nearest(value, ONE as int));
                if ms > 0 {
                    "+"@ + decimal(ms) + " ms"@
                } else {
                    decimal(ms) + " ms"@
                }
            },
            Format::Multiplier => one_place(value) + "×"@,
            Format::Decimal => two_places(value),
            Format::PixelsOrSquare => if nearest(value, ONE as int) == 0 {
                "直角"@
            } else {
                decimal(held(nearest(value, ONE as int))) + " px"@
            },
            Format::Pixels => decimal(held(nearest(value, ONE as int))) + " px"@,
        }
    }

    /// Render `value`, in millionths, the way the row shows it.
    pub fn render(self, value: i128) -> (r: String)
        ensures
            r@ == self.rendered(value as int),
    {
        let mut out: String = String::new();
        match self {
            Format::Percent => {
                push_decimal(&mut out, percent(value));
                out.append("%");
                assert(out@ =~= self.rendered(value as int));
            },
            Format::Milliseconds => {
                push_decimal(&mut out, whole(value));
                out.append(" ms");
                assert(out@ =~= self.rendered(value as int));
            },
            Format::SignedMilliseconds => {
                let ms: i64 = whole(value);
                if ms > 0 {
                    out.append("+");
                }
                push_decimal(&mut out, ms);
                out.append(" ms");
                assert(out@ =~= self.rendered(value as int));
            },
            Format::Multiplier => {
                push_sign(&mut out, value);
                let tenths: u128 = round_even(magnitude(value), 100_000);
                push_long_digits(&mut out, tenths / 10);
                out.append(".");
                push_padded(&mut out, (tenths % 10) as u64, 1);
                out.append("×");
                proof {
                    reveal_strlit(".");
                    assert("."@ =~= seq!['.']);
                    assert(out@ =~= self.rendered(value as int));
                }
            },
            Format::Decimal => {
                push_sign(&mut out, value);
                let hundredths: u128 = round_even(magnitude(value), 10_000);
                push_long_digits(&mut out, hundredths / 100);
                out.append(".");
                push_padded(&mut out, (hundredths % 100) as u64, 2);
                proof {
                    reveal_strlit(".");
                    assert("."@ =~= seq!['.']);
                    assert(out@ =~= self.rendered(value as int));
                }
            },
            Format::PixelsOrSquare => {
                let px: i64 = whole(value);
                if px == 0 {
                    out.append("直角");
                } else {
                    push_decimal(&mut out, px);
                    out.append(" px");
                }
                assert(out@ =~= self.rendered(value as int));
            },
            Format::Pixels => {
                push_decimal(&mut out, whole(value));
                out.append(" px");
                assert(out@ =~= self.rendered(value as int));
            },
        }
        out
    }
}

pub(crate) fn push_sign(out: &mut String, value: i128)
    ensures
        final(out)@ == old(out)@ + (if value < 0 {
            seq!['-']
        } else {
            Seq::<char>::empty()
        }),
{
    if value < 0 {
        proof {
            reveal_strlit("-");
        }
        out.append("-");
        assert("-"@ =~= seq!['-']);
    } else {
        assert(out@ =~= old(out)@ + Seq::<char>::empty());
    }
}

pub(crate) fn push_padded(out: &mut String, n: u64, places: u8)
    ensures
        final(out)@ == old(out)@ + padded(n as nat, places as nat),
    decreases places,
{
    if places > 0 {
        push_padded(out, n / 10, places - 1);
        push_digits(out, n % 10);
        assert(digits((n % 10) as nat) =~= seq![crate::text::digit_char((n % 10) as int)]);
    }
    assert(out@ =~= old(out)@ + padded(n as nat, places as nat));
}

/// A numeric slider. Its numbers are in millionths.
#[derive(Clone, Copy, Debug, PartialEq, Eq, Structural)]
pub struct Slider {
    pub min: i64,
    pub max: i64,
    pub step: i64,
    pub format: Format,
}

/// One entry of a dropdown.
#[derive(Clone, Copy, Debug)]
pub struct Choice {
    /// The stored value.
    pub value: &'static str,
    /// What the row displays.
    pub label: &'static str,
}

/// Something a button does. The window turns these into calls of its host.
#[derive(Clone, Copy, Debug, PartialEq, Eq, Structural)]
pub enum ActionId {
    TestLyricProvider,
    OpenLyricsDir,
    OpenDataDir,
    OpenLogsDir,
    ClearClipboardUnpinned,
    ClearClipboardAll,
    ExportTodosMarkdown,
    ExportTodosJson,
    /// Start a region capture.
    StartSnip,
    /// Dismiss every pinned image.
    CloseAllPins,
    Quit,
}

/// A live value that the about page reports but cannot change. Only the key is static;
/// the value comes from the host when the page is painted.
#[derive(Clone, Copy, Debug, PartialEq, Eq, Structural)]
pub enum InfoKey {
    Version,
    Renderer,
    Build,
    ConfigPath,
    DataDir,
    LogsDir,
    /// What the last action row did, so a button that reports a result has somewhere to
    /// report it.
    LastAction,
}

/// A button under an action row.
#[derive(Clone, Copy, Debug)]
pub struct Button {
    pub label: &'static str,
    pub action: ActionId,
    /// Styled as destructive.
    pub danger: bool,
}

/// Which live value a status row shows.
#[derive(Clone, Copy, Debug, PartialEq, Eq, Structural)]
pub enum StatusKind {
    Taskbar,
    Spectrum,
    Clipboard,
}

/// The lists that dropdowns offer.
#[derive(Clone, Copy, Debug, PartialEq, Eq, Structural)]
pub enum ChoiceList {
    /// The taskbar's backdrop modes, for the mode itself and for the dynamic override.
    Modes,
    Themes,
    Anchors,
    LyricProviders,
    LogLevels,
}

impl ChoiceList {
    pub open spec fn list(self) -> Seq<Choice> {
        match self {
            ChoiceList::Modes => seq![
                Choice { value: "normal", label: "跟随系统（不做修改）" },
                Choice { value: "clear", label: "全透明" },
                Choice { value: "blur", label: "模糊" },
                Choice { value: "acrylic", label: "亚克力 Acrylic" },
                Choice { value: "mica", label: "云母 Mica（Win11 22H2+）" },
                Choice { value: "opaque", label: "纯色不透明" },
            ],
            ChoiceList::Themes => seq![
                Choice { value: "dark", label: "深色" },
                Choice { value: "light", label: "浅色" },
                Choice { value: "auto", label: "跟随系统" },
            ],
            ChoiceList::Anchors => seq![
                Choice { value: "taskbar-right", label: "任务栏 · 通知区域左侧" },
                Choice { value: "taskbar-center", label: "任务栏 · 居中" },
                Choice { value: "taskbar-left", label: "任务栏 · 左侧" },
                Choice { value: "bottom-right", label: "屏幕 · 右下" },
                Choice { value: "bottom-center", label: "屏幕 · 底部居中" },
                Choice { value: "bottom-left", label: "屏幕 · 左下" },
            ],
            ChoiceList::LyricProviders => seq![
                Choice { value: "off", label: "关闭（只读本地 .lrc）" },
                Choice { value: "netease", label: "网易云音乐" },
                Choice { value: "qq", label: "QQ 音乐" },
                Choice { value: "kugou", label: "酷狗音乐" },
                Choice { value: "lrclib", label: "LRCLIB（国际曲库）" },
                Choice { value: "custom", label: "自定义接口" },
            ],
            ChoiceList::LogLevels => seq![
                Choice { value: "error", label: "仅错误" },
                Choice { value: "warn", label: "警告及以上" },
                Choice { value: "info", label: "常规" },
                Choice { value: "debug", label: "调试" },
            ],
        }
    }

    /// The entries, in the order in which they are shown.
    pub fn choices(self) -> (r: &'static [Choice])
        ensures
            r@ == self.list(),
            r@.len() <= 6,
    {
        match self {
            ChoiceList::Modes => &[
                Choice { value: "normal", label: "跟随系统（不做修改）" },
                Choice { value: "clear", label: "全透明" },
                Choice { value: "blur", label: "模糊" },
                Choice { value: "acrylic", label: "亚克力 Acrylic" },
                Choice { value: "mica", label: "云母 Mica（Win11 22H2+）" },
                Choice { value: "opaque", label: "纯色不透明" },
            ],
            ChoiceList::Themes => &[
                Choice { value: "dark", label: "深色" },
                Choice { value: "light", label: "浅色" },
                Choice { value: "auto", label: "跟随系统" },
            ],
            ChoiceList::Anchors => &[
                Choice { value: "taskbar-right", label: "任务栏 · 通知区域左侧" },
                Choice { value: "taskbar-center", label: "任务栏 · 居中" },
                Choice { value: "taskbar-left", label: "任务栏 · 左侧" },
                Choice { value: "bottom-right", label: "屏幕 · 右下" },
                Choice { value: "bottom-center", label: "屏幕 · 底部居中" },
                Choice { value: "bottom-left", label: "屏幕 · 左下" },
            ],
            ChoiceList::LyricProviders => &[
                Choice { value: "off", label: "关闭（只读本地 .lrc）" },
                Choice { value: "netease", label: "网易云音乐" },
                Choice { value: "qq", label: "QQ 音乐" },
                Choice { value: "kugou", label: "酷狗音乐" },
                Choice { value: "lrclib", label: "LRCLIB（国际曲库）" },
                Choice { value: "custom", label: "自定义接口" },
            ],
            ChoiceList::LogLevels => &[
                Choice { value: "error", label: "仅错误" },
                Choice { value: "warn", label: "警告及以上" },
                Choice { value: "info", label: "常规" },
                Choice { value: "debug", label: "调试" },
            ],
        }
    }
}

/// The sets of buttons that action rows offer.
#[derive(Clone, Copy, Debug, PartialEq, Eq, Structural)]
pub enum ButtonList {
    LyricChecks,
    LyricFolders,
    ClipboardCleaning,
    TodoExport,
    OpenFolders,
    Quit,
    SnipStart,
    PinCleaning,
}

impl ButtonList {
    pub open spec fn list(self) -> Seq<Button> {
        match self {
            ButtonList::LyricChecks => seq![
                Button {
                    label: "测试当前来源",
                    action: ActionId::TestLyricProvider,
                    danger: false,
                },
                Button { label: "打开歌词目录", action: ActionId::OpenLyricsDir, danger: false },
            ],
            ButtonList::LyricFolders => seq![
                Button { label: "打开歌词目录", action: ActionId::OpenLyricsDir, danger: false },
                Button { label: "打开数据目录", action: ActionId::OpenDataDir, danger: false },
            ],
            ButtonList::ClipboardCleaning => seq![
                Button {
                    label: "清空未收藏",
                    action: ActionId::ClearClipboardUnpinned,
                    danger: true,
                },
                Button { label: "全部清空", action: ActionId::ClearClipboardAll, danger: true },
            ],
            ButtonList::TodoExport => seq![
                Button {
                    label: "复制 Markdown",
                    action: ActionId::ExportTodosMarkdown,
                    danger: false,
                },
                Button { label: "复制 JSON", action: ActionId::ExportTodosJson, danger: false },
            ],
            ButtonList::OpenFolders => seq![
                Button { label: "打开数据目录", action: ActionId::OpenDataDir, danger: false },
                Button { label: "打开日志目录", action: ActionId::OpenLogsDir, danger: false },
            ],
            ButtonList::Quit => seq![
                Button { label: "退出 WinBeautify", action: ActionId::Quit, danger: true },
            ],
            ButtonList::SnipStart => seq![
                Button { label: "开始截图", action: ActionId::StartSnip, danger: false },
            ],
            ButtonList::PinCleaning => seq![
                Button { label: "关闭全部贴图", action: ActionId::CloseAllPins, danger: true },
            ],
        }
    }

    /// The buttons, in the order in which they are placed.
    pub fn buttons(self) -> (r: &'static [Button])
        ensures
            r@ == self.list(),
            1 <= r@.len() <= 2,
    {
        match self {
            ButtonList::LyricChecks => &[
                Button {
                    label: "测试当前来源",
                    action: ActionId::TestLyricProvider,
                    danger: false,
                },
                Button { label: "打开歌词目录", action: ActionId::OpenLyricsDir, danger: false },
            ],
            ButtonList::LyricFolders => &[
                Button { label: "打开歌词目录", action: ActionId::OpenLyricsDir, danger: false },
                Button { label: "打开数据目录", action: ActionId::OpenDataDir, danger: false },
            ],
            ButtonList::ClipboardCleaning => &[
                Button {
                    label: "清空未收藏",
                    action: ActionId::ClearClipboardUnpinned,
                    danger: true,
                },
                Button { label: "全部清空", action: ActionId::ClearClipboardAll, danger: true },
            ],
            ButtonList::TodoExport => &[
                Button {
                    label: "复制 Markdown",
                    action: ActionId::ExportTodosMarkdown,
                    danger: false,
                },
                Button { label: "复制 JSON", action: ActionId::ExportTodosJson, danger: false },
            ],
            ButtonList::OpenFolders => &[
                Button { label: "打开数据目录", action: ActionId::OpenDataDir, danger: false },
                Button { label: "打开日志目录", action: ActionId::OpenLogsDir, danger: false },
            ],
            ButtonList::Quit => &[
                Button { label: "退出 WinBeautify", action: ActionId::Quit, danger: true },
            ],
            ButtonList::SnipStart => &[
                Button { label: "开始截图", action: ActionId::StartSnip, danger: false },
            ],
            ButtonList::PinCleaning => &[
                Button { label: "关闭全部贴图", action: ActionId::CloseAllPins, danger: true },
            ],
        }
    }
}

/// The control that a field renders as.
#[derive(Clone, Copy, Debug)]
pub enum Kind {
    /// An on/off pill.
    Switch,
    Slider(Slider),
    /// A dropdown. The first choice is the default when nothing matches.
    Select(ChoiceList),
    /// `#RRGGBB`, with a colour picker and a hex box.
    Color,
    /// A text box whose contents are a number.
    Number { min: i64, max: i64, suffix: &'static str },
    Text { placeholder: &'static str },
    /// A key combination, recorded by pressing it rather than typed.
    Hotkey,
    /// A live read-out; not editable.
    Status(StatusKind),
    /// A read-only line whose value the host supplies.
    Info(InfoKey),
    Action(ButtonList),
}

impl Kind {
    /// Does this control bind to a stored value? Status and info rows only report, and
    /// action rows only run something.
    pub open spec fn binds(self) -> bool {
        !(self is Status || self is Info || self is Action)
    }

    pub fn holds_value(&self) -> (r: bool)
        ensures
            r == self.binds(),
    {
        match self {
            Kind::Status(_) | Kind::Info(_) | Kind::Action(_) => false,
            _ => true,
        }
    }

    /// Is this control something the pointer can act on? A read-only row still occupies
    /// a rectangle, but there is nothing to click and nothing to type, so it gets no hover
    /// state.
    pub fn is_interactive(&self) -> (r: bool)
        ensures
            r == !(self is Info),
    {
        match self {
            Kind::Info(_) => false,
            _ => true,
        }
    }
}

/// When a row is shown, beyond always.
#[derive(Clone, Copy, Debug, PartialEq, Eq, Structural)]
pub enum Rule {
    TaskbarOn,
    TaskbarTinted,
    TaskbarDynamic,
    WidgetOn,
    WidgetLyrics,
    MediaOn,
    MediaSpectrum,
    MediaLyrics,
    MediaCustom,
    ClipboardOn,
    ClipboardImages,
    TodoOn,
    SnipOn,
    FileLogging,
}

impl Rule {
    pub open spec fn met(self, c: Config) -> bool {
        match self {
            Rule::TaskbarOn => c.taskbar.enabled,
            Rule::TaskbarTinted => c.taskbar.enabled && c.taskbar.mode != TaskbarMode::Normal,
            Rule::TaskbarDynamic => c.taskbar.enabled && c.taskbar.dynamic_mode,
            Rule::WidgetOn => c.widget.enabled,
            Rule::WidgetLyrics => c.widget.enabled && c.media.show_lyrics,
            Rule::MediaOn => c.media.enabled,
            Rule::MediaSpectrum => c.media.enabled && c.media.show_spectrum,
            Rule::MediaLyrics => c.media.enabled && c.media.show_lyrics,
            Rule::MediaCustom => c.media.enabled && c.media.lyric_provider
                == LyricProvider::Custom,
            Rule::ClipboardOn => c.clipboard.enabled,
            Rule::ClipboardImages => c.clipboard.enabled && c.clipboard.capture_images,
            Rule::TodoOn => c.todo.enabled,
            Rule::SnipOn => c.snip.enabled,
            Rule::FileLogging => c.ui.file_logging,
        }
    }

    pub fn holds(self, c: &Config) -> (r: bool)
        ensures
            r == self.met(*c),
    {
        match self {
            Rule::TaskbarOn => c.taskbar.enabled,
            Rule::TaskbarTinted => c.taskbar.enabled && c.taskbar.mode != TaskbarMode::Normal,
            Rule::TaskbarDynamic => c.taskbar.enabled && c.taskbar.dynamic_mode,
            Rule::WidgetOn => c.widget.enabled,
            Rule::WidgetLyrics => c.widget.enabled && c.media.show_lyrics,
            Rule::MediaOn => c.media.enabled,
            Rule::MediaSpectrum => c.media.enabled && c.media.show_spectrum,
            Rule::MediaLyrics => c.media.enabled && c.media.show_lyrics,
            Rule::MediaCustom => c.media.enabled && c.media.lyric_provider
                == LyricProvider::Custom,
            Rule::ClipboardOn => c.clipboard.enabled,
            Rule::ClipboardImages => c.clipboard.enabled && c.clipboard.capture_images,
            Rule::TodoOn => c.todo.enabled,
            Rule::SnipOn => c.snip.enabled,
            Rule::FileLogging => c.ui.file_logging,
        }
    }
}

/// One row.
#[derive(Clone, Copy, Debug)]
pub struct Field {
    /// Where the value is stored, such as `widget.opacity`. Empty for status, info and
    /// action rows.
    pub path: &'static str,
    pub label: &'static str,
    pub hint: Option<&'static str>,
    pub kind: Kind,
    /// When the row is shown; always, if there is no rule.
    pub when: Option<Rule>,
}

impl Field {
    /// Is this row shown?
    pub open spec fn shown(self, config: Config) -> bool {
        match self.when {
            Some(rule) => rule.met(config),
            None => true,
        }
    }
}

/// A group of rows under an optional heading.
#[derive(Clone, Debug)]
pub struct Card {
    pub title: Option<&'static str>,
    pub fields: Vec<Field>,
}

/// A [`Card`], as a value.
#[verifier::ext_equal]
pub ghost struct CardModel {
    pub title: Option<&'static str>,
    pub fields: Seq<Field>,
}

impl View for Card {
    type V = CardModel;

    open spec fn view(&self) -> CardModel {
        CardModel { title: self.title, fields: self.fields@ }
    }
}

pub open spec fn card_models(cards: Seq<Card>) -> Seq<CardModel> {
    cards.map_values(|card: Card| card@)
}

/// One page of the sidebar.
#[derive(Clone, Debug)]
pub struct Section {
    pub id: &'static str,
    pub title: &'static str,
    pub description: &'static str,
    pub cards: Vec<Card>,
    /// The about page is pinned to the bottom of the sidebar.
    pub is_about: bool,
}

/// A [`Section`], as a value.
#[verifier::ext_equal]
pub ghost struct SectionModel {
    pub id: &'static str,
    pub title: &'static str,
    pub description: &'static str,
    pub cards: Seq<CardModel>,
    pub is_about: bool,
}

impl View for Section {
    type V = SectionModel;

    open spec fn view(&self) -> SectionModel {
        SectionModel {
            id: self.id,
            title: self.title,
            description: self.description,
            cards: card_models(self.cards@),
            is_about: self.is_about,
        }
    }
}

pub open spec fn section_models(sections: Seq<Section>) -> Seq<SectionModel> {
    sections.map_values(|section: Section| section@)
}

/// A switch row.
#[verifier::allow_in_spec]
pub fn switch(path: &'static str, label: &'static str) -> Field
    returns
        (Field { path, label, hint: None, kind: Kind::Switch, when: None }),
{
    Field { path, label, hint: None, kind: Kind::Switch, when: None }
}

/// A switch row with a hint.
#[verifier::allow_in_spec]
pub fn switch_hint(path: &'static str, label: &'static str, hint: &'static str) -> Field
    returns
        (Field { path, label, hint: Some(hint), kind: Kind::Switch, when: None }),
{
    Field { path, label, hint: Some(hint), kind: Kind::Switch, when: None }
}

/// A number row.
#[verifier::allow_in_spec]
pub fn number(
    path: &'static str,
    label: &'static str,
    min: i64,
    max: i64,
    suffix: &'static str,
) -> Field
    returns
        (Field { path, label, hint: None, kind: Kind::Number { min, max, suffix }, when: None }),
{
    Field { path, label, hint: None, kind: Kind::Number { min, max, suffix }, when: None }
}

/// A slider row. The numbers are in millionths.
#[verifier::allow_in_spec]
pub fn slider(
    path: &'static str,
    label: &'static str,
    hint: Option<&'static str>,
    min: i64,
    max: i64,
    step: i64,
    format: Format,
) -> Field
    returns
        (Field {
            path,
            label,
            hint,
            kind: Kind::Slider(Slider { min, max, step, format }),
            when: None,
        }),
{
    Field { path, label, hint, kind: Kind::Slider(Slider { min, max, step, format }), when: None }
}

/// A dropdown row.
#[verifier::allow_in_spec]
pub fn select(path: &'static str, label: &'static str, options: ChoiceList) -> Field
    returns
        (Field { path, label, hint: None, kind: Kind::Select(options), when: None }),
{
    Field { path, label, hint: None, kind: Kind::Select(options), when: None }
}

/// A colour row.
#[verifier::allow_in_spec]
pub fn color(path: &'static str, label: &'static str) -> Field
    returns
        (Field { path, label, hint: None, kind: Kind::Color, when: None }),
{
    Field { path, label, hint: None, kind: Kind::Color, when: None }
}

/// A text row.
#[verifier::allow_in_spec]
pub fn text(
    path: &'static str,
    label: &'static str,
    hint: &'static str,
    placeholder: &'static str,
) -> Field
    returns
        (Field { path, label, hint: Some(hint), kind: Kind::Text { placeholder }, when: None }),
{
    Field { path, label, hint: Some(hint), kind: Kind::Text { placeholder }, when: None }
}

/// A hotkey row.
#[verifier::allow_in_spec]
pub fn hotkey(path: &'static str, label: &'static str, hint: &'static str) -> Field
    returns
        (Field { path, label, hint: Some(hint), kind: Kind::Hotkey, when: None }),
{
    Field { path, label, hint: Some(hint), kind: Kind::Hotkey, when: None }
}

/// A read-only row.
#[verifier::allow_in_spec]
pub fn info(key: InfoKey, label: &'static str) -> Field
    returns
        (Field { path: "", label, hint: None, kind: Kind::Info(key), when: None }),
{
    Field { path: "", label, hint: None, kind: Kind::Info(key), when: None }
}

/// A status row.
#[verifier::allow_in_spec]
pub fn status(kind: StatusKind, label: &'static str, hint: Option<&'static str>) -> Field
    returns
        (Field { path: "", label, hint, kind: Kind::Status(kind), when: None }),
{
    Field { path: "", label, hint, kind: Kind::Status(kind), when: None }
}

/// An action row.
#[verifier::allow_in_spec]
pub fn action(label: &'static str, hint: Option<&'static str>, buttons: ButtonList) -> Field
    returns
        (Field { path: "", label, hint, kind: Kind::Action(buttons), when: None }),
{
    Field { path: "", label, hint, kind: Kind::Action(buttons), when: None }
}

/// Attach a visibility rule.
#[verifier::allow_in_spec]
pub fn when(field: Field, rule: Rule) -> Field
    returns
        (Field { when: Some(rule), ..field }),
{
    Field { when: Some(rule), ..field }
}

/// Attach a hint.
#[verifier::allow_in_spec]
pub fn hint(field: Field, text: &'static str) -> Field
    returns
        (Field { hint: Some(text), ..field }),
{
    Field { hint: Some(text), ..field }
}

fn card(title: Option<&'static str>, fields: Vec<Field>) -> (r: Card)
    ensures
        r@ == (CardModel { title, fields: fields@ }),
{
    Card { title, fields }
}

/// The appearance page.
pub open spec fn appearance_page() -> Seq<CardModel> {
    seq![
        CardModel {
            title: None,
            fields: seq![
                select("ui.theme", "主题", ChoiceList::Themes),
                hint(
                    color("ui.accent", "强调色"),
                    "用于选中项、开关与焦点框。",
                ),
            ],
        },
        CardModel {
            title: Some("小组件"),
            fields: seq![
                color("widget.background", "背景色"),
                slider(
                    "widget.opacity",
                    "背景不透明度",
                    None,
                    0,
                    1_000_000,
                    10_000,
                    Format::Percent,
                ),
                hint(
                    slider(
                        "widget.corner_radius",
                        "圆角",
                        Some("窗口圆角由 Windows 绘制，最大 8px。"),
                        0,
                        8_000_000,
                        1_000_000,
                        Format::PixelsOrSquare,
                    ),
                    "窗口圆角由 Windows 绘制，最大 8px。",
                ),
                slider(
                    "widget.animation_ms",
                    "宽度过渡时长",
                    Some("组件宽度会跟随歌词长度变化，这里控制变化的动画时长，建议 120–180ms。"),
                    60_000_000,
                    400_000_000,
                    10_000_000,
                    Format::Milliseconds,
                ),
            ],
        },
    ]
}

fn appearance_cards() -> (r: Vec<Card>)
    ensures
        card_models(r@) == appearance_page(),
{
    let r: Vec<Card> = vec![
        card(
            None,
            vec![
                select("ui.theme", "主题", ChoiceList::Themes),
                hint(
                    color("ui.accent", "强调色"),
                    "用于选中项、开关与焦点框。",
                ),
            ],
        ),
        card(
            Some("小组件"),
            vec![
                color("widget.background", "背景色"),
                slider(
                    "widget.opacity",
                    "背景不透明度",
                    None,
                    0,
                    1_000_000,
                    10_000,
                    Format::Percent,
                ),
                hint(
                    slider(
                        "widget.corner_radius",
                        "圆角",
                        Some("窗口圆角由 Windows 绘制，最大 8px。"),
                        0,
                        8_000_000,
                        1_000_000,
                        Format::PixelsOrSquare,
                    ),
                    "窗口圆角由 Windows 绘制，最大 8px。",
                ),
                slider(
                    "widget.animation_ms",
                    "宽度过渡时长",
                    Some("组件宽度会跟随歌词长度变化，这里控制变化的动画时长，建议 120–180ms。"),
                    60_000_000,
                    400_000_000,
                    10_000_000,
                    Format::Milliseconds,
                ),
            ],
        ),
    ];
    proof {
        let page = appearance_page();
        assert(r@[0]@.fields =~= page[0].fields);
        assert(r@[1]@.fields =~= page[1].fields);
        assert(card_models(r@) =~= page);
    }
    r
}

/// The taskbar page.
pub open spec fn taskbar_page() -> Seq<CardModel> {
    seq![
        CardModel {
            title: None,
            fields: seq![
                switch("taskbar.enabled", "启用任务栏美化"),
                status(StatusKind::Taskbar, "当前状态", Some("实时反映任务栏模块正在做什么。")),
            ],
        },
        CardModel {
            title: Some("效果"),
            fields: seq![
                when(select("taskbar.mode", "背景模式", ChoiceList::Modes), Rule::TaskbarOn),
                when(color("taskbar.color", "着色"), Rule::TaskbarTinted),
                when(slider(
                    "taskbar.opacity",
                    "着色不透明度",
                    None,
                    0,
                    1_000_000,
                    10_000,
                    Format::Percent,
                ), Rule::TaskbarTinted),
                when(switch("taskbar.apply_to_secondary", "应用到副屏任务栏"), Rule::TaskbarOn),
            ],
        },
        CardModel {
            title: Some("行为"),
            fields: seq![
                when(switch_hint(
                    "taskbar.dynamic_mode",
                    "动态模式",
                    "当显示器上有窗口最大化时切换为指定效果，窗口还原后恢复。",
                ), Rule::TaskbarOn),
                when(select("taskbar.dynamic_mode_override", "最大化时使用", ChoiceList::Modes), Rule::TaskbarDynamic),
                when(switch_hint(
                    "taskbar.hide_on_fullscreen",
                    "全屏应用时还原为系统默认",
                    "避免在游戏或全屏视频上叠加异常的背景。",
                ), Rule::TaskbarOn),
                when(switch_hint(
                    "taskbar.restore_on_exit",
                    "退出时还原任务栏",
                    "强烈建议保持开启；关闭后退出程序会保留当前效果直到注销。",
                ), Rule::TaskbarOn),
            ],
        },
    ]
}

fn taskbar_cards() -> (r: Vec<Card>)
    ensures
        card_models(r@) == taskbar_page(),
{
    let r: Vec<Card> = vec![
        card(
            None,
            vec![
                switch("taskbar.enabled", "启用任务栏美化"),
                status(StatusKind::Taskbar, "当前状态", Some("实时反映任务栏模块正在做什么。")),
            ],
        ),
        card(
            Some("效果"),
            vec![
                when(select("taskbar.mode", "背景模式", ChoiceList::Modes), Rule::TaskbarOn),
                when(color("taskbar.color", "着色"), Rule::TaskbarTinted),
                when(slider(
                    "taskbar.opacity",
                    "着色不透明度",
                    None,
                    0,
                    1_000_000,
                    10_000,
                    Format::Percent,
                ), Rule::TaskbarTinted),
                when(switch("taskbar.apply_to_secondary", "应用到副屏任务栏"), Rule::TaskbarOn),
            ],
        ),
        card(
            Some("行为"),
            vec![
                when(switch_hint(
                    "taskbar.dynamic_mode",
                    "动态模式",
                    "当显示器上有窗口最大化时切换为指定效果，窗口还原后恢复。",
                ), Rule::TaskbarOn),
                when(select("taskbar.dynamic_mode_override", "最大化时使用", ChoiceList::Modes), Rule::TaskbarDynamic),
                when(switch_hint(
                    "taskbar.hide_on_fullscreen",
                    "全屏应用时还原为系统默认",
                    "避免在游戏或全屏视频上叠加异常的背景。",
                ), Rule::TaskbarOn),
                when(switch_hint(
                    "taskbar.restore_on_exit",
                    "退出时还原任务栏",
                    "强烈建议保持开启；关闭后退出程序会保留当前效果直到注销。",
                ), Rule::TaskbarOn),
            ],
        ),
    ];
    proof {
        let page = taskbar_page();
        assert(r@[0]@.fields =~= page[0].fields);
        assert(r@[1]@.fields =~= page[1].fields);
        assert(r@[2]@.fields =~= page[2].fields);
        assert(card_models(r@) =~= page);
    }
    r
}

/// The widget bar page.
pub open spec fn widget_page() -> Seq<CardModel> {
    seq![
        CardModel {
            title: None,
            fields: seq![
                switch("widget.enabled", "显示小组件栏"),
                when(switch_hint(
                    "widget.hide_with_autohide",
                    "任务栏自动隐藏时一并隐藏",
                    "任务栏收起时小组件栏也一起消失。",
                ), Rule::WidgetOn),
            ],
        },
        CardModel {
            title: Some("位置"),
            fields: seq![
                when(hint(
                    select("widget.anchor", "锚点", ChoiceList::Anchors),
                    "任务栏内锚点会贴住开始按钮或通知区域；屏幕锚点则使用工作区底部。",
                ), Rule::WidgetOn),
                when(number("widget.offset_x", "水平偏移", (-400) as i64, 400, "px"), Rule::WidgetOn),
                when(number("widget.offset_y", "垂直偏移", (-60) as i64, 60, "px"), Rule::WidgetOn),
                when(hint(
                    number("widget.margin", "边距", 0, 40, "px"),
                    "小组件与任务栏上下边缘之间留出的空隙。",
                ), Rule::WidgetOn),
            ],
        },
        CardModel {
            title: Some("音频组件宽度"),
            fields: seq![
                when(number("widget.audio_min_width", "最小宽度", 96, 900, "px"), Rule::WidgetOn),
                when(number("widget.audio_max_width", "最大宽度", 96, 1600, "px"), Rule::WidgetOn),
                when(number("widget.lyric_min_width", "歌词最小宽度", 0, 1200, "px"), Rule::WidgetLyrics),
                when(number("widget.lyric_max_width", "歌词最大宽度", 0, 1600, "px"), Rule::WidgetLyrics),
            ],
        },
        CardModel {
            title: Some("Flyout"),
            fields: seq![
                when(number("widget.flyout_width", "宽度", 260, 900, "px"), Rule::WidgetOn),
                when(number("widget.flyout_height", "高度", 240, 1200, "px"), Rule::WidgetOn),
                when(switch("widget.flyout_flip", "空间不足时向上展开"), Rule::WidgetOn),
                when(switch("widget.remember_tab", "记住上次打开的标签页"), Rule::WidgetOn),
            ],
        },
    ]
}

fn widget_cards() -> (r: Vec<Card>)
    ensures
        card_models(r@) == widget_page(),
{
    let r: Vec<Card> = vec![
        card(
            None,
            vec![
                switch("widget.enabled", "显示小组件栏"),
                when(switch_hint(
                    "widget.hide_with_autohide",
                    "任务栏自动隐藏时一并隐藏",
                    "任务栏收起时小组件栏也一起消失。",
                ), Rule::WidgetOn),
            ],
        ),
        card(
            Some("位置"),
            vec![
                when(hint(
                    select("widget.anchor", "锚点", ChoiceList::Anchors),
                    "任务栏内锚点会贴住开始按钮或通知区域；屏幕锚点则使用工作区底部。",
                ), Rule::WidgetOn),
                when(number("widget.offset_x", "水平偏移", (-400) as i64, 400, "px"), Rule::WidgetOn),
                when(number("widget.offset_y", "垂直偏移", (-60) as i64, 60, "px"), Rule::WidgetOn),
                when(hint(
                    number("widget.margin", "边距", 0, 40, "px"),
                    "小组件与任务栏上下边缘之间留出的空隙。",
                ), Rule::WidgetOn),
            ],
        ),
        card(
            Some("音频组件宽度"),
            vec![
                when(number("widget.audio_min_width", "最小宽度", 96, 900, "px"), Rule::WidgetOn),
                when(number("widget.audio_max_width", "最大宽度", 96, 1600, "px"), Rule::WidgetOn),
                when(number("widget.lyric_min_width", "歌词最小宽度", 0, 1200, "px"), Rule::WidgetLyrics),
                when(number("widget.lyric_max_width", "歌词最大宽度", 0, 1600, "px"), Rule::WidgetLyrics),
            ],
        ),
        card(
            Some("Flyout"),
            vec![
                when(number("widget.flyout_width", "宽度", 260, 900, "px"), Rule::WidgetOn),
                when(number("widget.flyout_height", "高度", 240, 1200, "px"), Rule::WidgetOn),
                when(switch("widget.flyout_flip", "空间不足时向上展开"), Rule::WidgetOn),
                when(switch("widget.remember_tab", "记住上次打开的标签页"), Rule::WidgetOn),
            ],
        ),
    ];
    proof {
        let page = widget_page();
        assert(r@[0]@.fields =~= page[0].fields);
        assert(r@[1]@.fields =~= page[1].fields);
        assert(r@[2]@.fields =~= page[2].fields);
        assert(r@[3]@.fields =~= page[3].fields);
        assert(card_models(r@) =~= page);
    }
    r
}

/// The media and lyrics page.
pub open spec fn media_page() -> Seq<CardModel> {
    seq![
        CardModel {
            title: None,
            fields: seq![
                switch("media.enabled", "启用媒体模块"),
                status(StatusKind::Spectrum, "频谱采集", Some("频谱来自默认播放设备的回环捕获，不需要任何虚拟声卡。")),
            ],
        },
        CardModel {
            title: Some("显示"),
            fields: seq![
                when(switch("media.show_lyrics", "显示歌词"), Rule::MediaOn),
                when(switch("media.show_spectrum", "显示频谱"), Rule::MediaOn),
                when(slider(
                    "media.spectrum_sensitivity",
                    "灵敏度",
                    None,
                    200_000,
                    4_000_000,
                    100_000,
                    Format::Multiplier,
                ), Rule::MediaSpectrum),
                when(slider(
                    "media.spectrum_smoothing",
                    "回落平滑",
                    Some("数值越大，频谱柱回落越慢。"),
                    0,
                    950_000,
                    50_000,
                    Format::Decimal,
                ), Rule::MediaSpectrum),
            ],
        },
        CardModel {
            title: Some("歌词来源"),
            fields: seq![
                when(hint(
                    select("media.lyric_provider", "歌词来源", ChoiceList::LyricProviders),
                    "除「关闭」外都会把当前歌曲的名称与歌手发送给对应平台以查询歌词，找不到时会自动尝试其它平台。查询结果只存在内存里，不会写入磁盘；介意联网就选「关闭」。",
                ), Rule::MediaOn),
                when(text(
                    "media.online_api",
                    "自定义接口地址",
                    "支持 {title} / {artist} / {album} 占位符；返回 LRC，或带 lyric/lrc 字段的 JSON。",
                    "https://example.com/lrc?title={title}&artist={artist}",
                ), Rule::MediaCustom),
                when(action("歌词排错", Some("歌词目录里的 .lrc 文件名需为「歌手 - 歌名.lrc」，优先于在线结果。点「测试当前来源」会用正在播放的歌实际请求一次并告诉你结果。"), ButtonList::LyricChecks), Rule::MediaOn),
                when(slider(
                    "media.lyric_offset_ms",
                    "歌词偏移",
                    Some("正值让歌词提前显示；用于补偿不同平台的进度上报延迟。"),
                    (-5_000_000_000) as i64,
                    5_000_000_000,
                    50_000_000,
                    Format::SignedMilliseconds,
                ), Rule::MediaLyrics),
                when(slider(
                    "media.poll_interval_ms",
                    "兜底刷新间隔",
                    Some("播放状态由系统事件推送，这里只是防止遗漏的兜底轮询。"),
                    500_000_000,
                    10_000_000_000,
                    250_000_000,
                    Format::Milliseconds,
                ), Rule::MediaOn),
            ],
        },
        CardModel {
            title: Some("预览"),
            fields: seq![
                when(switch_hint(
                    "media.demo_mode",
                    "预览模式",
                    "显示一段演示曲目、歌词与频谱，用来在没有播放任何内容时调整外观。",
                ), Rule::MediaOn),
                action("歌词文件", Some("歌词目录中的 .lrc 文件会被优先使用；在线获取的歌词不会写入这里。"), ButtonList::LyricFolders),
            ],
        },
    ]
}

fn media_cards() -> (r: Vec<Card>)
    ensures
        card_models(r@) == media_page(),
{
    let r: Vec<Card> = vec![
        card(
            None,
            vec![
                switch("media.enabled", "启用媒体模块"),
                status(StatusKind::Spectrum, "频谱采集", Some("频谱来自默认播放设备的回环捕获，不需要任何虚拟声卡。")),
            ],
        ),
        card(
            Some("显示"),
            vec![
                when(switch("media.show_lyrics", "显示歌词"), Rule::MediaOn),
                when(switch("media.show_spectrum", "显示频谱"), Rule::MediaOn),
                when(slider(
                    "media.spectrum_sensitivity",
                    "灵敏度",
                    None,
                    200_000,
                    4_000_000,
                    100_000,
                    Format::Multiplier,
                ), Rule::MediaSpectrum),
                when(slider(
                    "media.spectrum_smoothing",
                    "回落平滑",
                    Some("数值越大，频谱柱回落越慢。"),
                    0,
                    950_000,
                    50_000,
                    Format::Decimal,
                ), Rule::MediaSpectrum),
            ],
        ),
        card(
            Some("歌词来源"),
            vec![
                when(hint(
                    select("media.lyric_provider", "歌词来源", ChoiceList::LyricProviders),
                    "除「关闭」外都会把当前歌曲的名称与歌手发送给对应平台以查询歌词，找不到时会自动尝试其它平台。查询结果只存在内存里，不会写入磁盘；介意联网就选「关闭」。",
                ), Rule::MediaOn),
                when(text(
                    "media.online_api",
                    "自定义接口地址",
                    "支持 {title} / {artist} / {album} 占位符；返回 LRC，或带 lyric/lrc 字段的 JSON。",
                    "https://example.com/lrc?title={title}&artist={artist}",
                ), Rule::MediaCustom),
                when(action("歌词排错", Some("歌词目录里的 .lrc 文件名需为「歌手 - 歌名.lrc」，优先于在线结果。点「测试当前来源」会用正在播放的歌实际请求一次并告诉你结果。"), ButtonList::LyricChecks), Rule::MediaOn),
                when(slider(
                    "media.lyric_offset_ms",
                    "歌词偏移",
                    Some("正值让歌词提前显示；用于补偿不同平台的进度上报延迟。"),
                    (-5_000_000_000) as i64,
                    5_000_000_000,
                    50_000_000,
                    Format::SignedMilliseconds,
                ), Rule::MediaLyrics),
                when(slider(
                    "media.poll_interval_ms",
                    "兜底刷新间隔",
                    Some("播放状态由系统事件推送，这里只是防止遗漏的兜底轮询。"),
                    500_000_000,
                    10_000_000_000,
                    250_000_000,
                    Format::Milliseconds,
                ), Rule::MediaOn),
            ],
        ),
        card(
            Some("预览"),
            vec![
                when(switch_hint(
                    "media.demo_mode",
                    "预览模式",
                    "显示一段演示曲目、歌词与频谱，用来在没有播放任何内容时调整外观。",
                ), Rule::MediaOn),
                action("歌词文件", Some("歌词目录中的 .lrc 文件会被优先使用；在线获取的歌词不会写入这里。"), ButtonList::LyricFolders),
            ],
        ),
    ];
    proof {
        let page = media_page();
        assert(r@[0]@.fields =~= page[0].fields);
        assert(r@[1]@.fields =~= page[1].fields);
        assert(r@[2]@.fields =~= page[2].fields);
        assert(r@[3]@.fields =~= page[3].fields);
        assert(card_models(r@) =~= page);
    }
    r
}

/// The clipboard page.
pub open spec fn clipboard_page() -> Seq<CardModel> {
    seq![
        CardModel {
            title: None,
            fields: seq![
                switch("clipboard.enabled", "启用剪贴板历史"),
                status(StatusKind::Clipboard, "占用", None),
            ],
        },
        CardModel {
            title: Some("记录规则"),
            fields: seq![
                when(hint(
                    number("clipboard.max_entries", "最多保存条数", 10, 5000, "条"),
                    "收藏的条目不会被自动清除。",
                ), Rule::ClipboardOn),
                when(switch("clipboard.capture_images", "保存图片"), Rule::ClipboardOn),
                when(hint(
                    number("clipboard.max_image_bytes", "图片大小上限", 0, 67108864, "字节"),
                    "超过上限的图片会被忽略。0 表示不限制。",
                ), Rule::ClipboardImages),
                when(switch_hint(
                    "clipboard.capture_sensitive",
                    "记录被标记为「不记录」的内容",
                    "密码管理器等程序会主动标记这类内容。默认忽略，仅在确实需要时开启。",
                ), Rule::ClipboardOn),
            ],
        },
        CardModel {
            title: Some("数据"),
            fields: seq![
                action("清理历史", Some("收藏的条目默认保留。"), ButtonList::ClipboardCleaning),
            ],
        },
    ]
}

fn clipboard_cards() -> (r: Vec<Card>)
    ensures
        card_models(r@) == clipboard_page(),
{
    let r: Vec<Card> = vec![
        card(
            None,
            vec![
                switch("clipboard.enabled", "启用剪贴板历史"),
                status(StatusKind::Clipboard, "占用", None),
            ],
        ),
        card(
            Some("记录规则"),
            vec![
                when(hint(
                    number("clipboard.max_entries", "最多保存条数", 10, 5000, "条"),
                    "收藏的条目不会被自动清除。",
                ), Rule::ClipboardOn),
                when(switch("clipboard.capture_images", "保存图片"), Rule::ClipboardOn),
                when(hint(
                    number("clipboard.max_image_bytes", "图片大小上限", 0, 67108864, "字节"),
                    "超过上限的图片会被忽略。0 表示不限制。",
                ), Rule::ClipboardImages),
                when(switch_hint(
                    "clipboard.capture_sensitive",
                    "记录被标记为「不记录」的内容",
                    "密码管理器等程序会主动标记这类内容。默认忽略，仅在确实需要时开启。",
                ), Rule::ClipboardOn),
            ],
        ),
        card(
            Some("数据"),
            vec![
                action("清理历史", Some("收藏的条目默认保留。"), ButtonList::ClipboardCleaning),
            ],
        ),
    ];
    proof {
        let page = clipboard_page();
        assert(r@[0]@.fields =~= page[0].fields);
        assert(r@[1]@.fields =~= page[1].fields);
        assert(r@[2]@.fields =~= page[2].fields);
        assert(card_models(r@) =~= page);
    }
    r
}

/// The task list page.
pub open spec fn todo_page() -> Seq<CardModel> {
    seq![
        CardModel {
            title: None,
            fields: seq![
                switch("todo.enabled", "启用任务清单"),
                when(switch("todo.show_badge", "在启动器上显示未完成数量"), Rule::TodoOn),
                when(switch_hint(
                    "todo.carry_over",
                    "启动时把未完成任务顺延到今天",
                    "未完成的旧任务会出现在今天的列表里。",
                ), Rule::TodoOn),
            ],
        },
        CardModel {
            title: Some("导出"),
            fields: seq![
                action("导出任务", Some("复制到剪贴板，方便粘贴进笔记或提交信息。"), ButtonList::TodoExport),
            ],
        },
    ]
}

fn todo_cards() -> (r: Vec<Card>)
    ensures
        card_models(r@) == todo_page(),
{
    let r: Vec<Card> = vec![
        card(
            None,
            vec![
                switch("todo.enabled", "启用任务清单"),
                when(switch("todo.show_badge", "在启动器上显示未完成数量"), Rule::TodoOn),
                when(switch_hint(
                    "todo.carry_over",
                    "启动时把未完成任务顺延到今天",
                    "未完成的旧任务会出现在今天的列表里。",
                ), Rule::TodoOn),
            ],
        ),
        card(
            Some("导出"),
            vec![
                action("导出任务", Some("复制到剪贴板，方便粘贴进笔记或提交信息。"), ButtonList::TodoExport),
            ],
        ),
    ];
    proof {
        let page = todo_page();
        assert(r@[0]@.fields =~= page[0].fields);
        assert(r@[1]@.fields =~= page[1].fields);
        assert(card_models(r@) =~= page);
    }
    r
}

/// The screenshot page.
pub open spec fn snip_page() -> Seq<CardModel> {
    seq![
        CardModel {
            title: None,
            fields: seq![
                switch("snip.enabled", "启用截图"),
                when(hotkey(
                    "snip.hotkey",
                    "截图快捷键",
                    "点一下再按组合键即可记录。按下后在整块桌面上拖出要截取的区域，Esc 或右键取消；                     按 Backspace 清空则不注册。",
                ), Rule::SnipOn),
                when(action("立即截图", Some("等同于按下上面的快捷键。"), ButtonList::SnipStart), Rule::SnipOn),
            ],
        },
        CardModel {
            title: Some("结果"),
            fields: seq![
                when(switch_hint(
                    "snip.copy_to_clipboard",
                    "复制到剪贴板",
                    "以标准 CF_DIB 写入，可直接粘贴到聊天窗口或画图。",
                ), Rule::SnipOn),
                when(switch_hint(
                    "snip.auto_pin",
                    "同时贴到屏幕上",
                    "在截取的原位置生成一张贴图：拖动移动，滚轮缩放，方向键微调，Esc 或双击关闭。",
                ), Rule::SnipOn),
                when(hint(
                    slider(
                        "snip.dim",
                        "选区外遮罩",
                        None,
                        0,
                        850_000,
                        50_000,
                        Format::Percent,
                    ),
                    "遮罩越深，选区越突出；过深会看不清背景。",
                ), Rule::SnipOn),
            ],
        },
        CardModel {
            title: Some("贴图"),
            fields: seq![
                action("屏幕上可能有之前留下的贴图", Some("贴图是独立窗口，会一直留在桌面上直到手动关闭。"), ButtonList::PinCleaning),
            ],
        },
    ]
}

fn snip_cards() -> (r: Vec<Card>)
    ensures
        card_models(r@) == snip_page(),
{
    let r: Vec<Card> = vec![
        card(
            None,
            vec![
                switch("snip.enabled", "启用截图"),
                when(hotkey(
                    "snip.hotkey",
                    "截图快捷键",
                    "点一下再按组合键即可记录。按下后在整块桌面上拖出要截取的区域，Esc 或右键取消；                     按 Backspace 清空则不注册。",
                ), Rule::SnipOn),
                when(action("立即截图", Some("等同于按下上面的快捷键。"), ButtonList::SnipStart), Rule::SnipOn),
            ],
        ),
        card(
            Some("结果"),
            vec![
                when(switch_hint(
                    "snip.copy_to_clipboard",
                    "复制到剪贴板",
                    "以标准 CF_DIB 写入，可直接粘贴到聊天窗口或画图。",
                ), Rule::SnipOn),
                when(switch_hint(
                    "snip.auto_pin",
                    "同时贴到屏幕上",
                    "在截取的原位置生成一张贴图：拖动移动，滚轮缩放，方向键微调，Esc 或双击关闭。",
                ), Rule::SnipOn),
                when(hint(
                    slider(
                        "snip.dim",
                        "选区外遮罩",
                        None,
                        0,
                        850_000,
                        50_000,
                        Format::Percent,
                    ),
                    "遮罩越深，选区越突出；过深会看不清背景。",
                ), Rule::SnipOn),
            ],
        ),
        card(
            Some("贴图"),
            vec![
                action("屏幕上可能有之前留下的贴图", Some("贴图是独立窗口，会一直留在桌面上直到手动关闭。"), ButtonList::PinCleaning),
            ],
        ),
    ];
    proof {
        let page = snip_page();
        assert(r@[0]@.fields =~= page[0].fields);
        assert(r@[1]@.fields =~= page[1].fields);
        assert(r@[2]@.fields =~= page[2].fields);
        assert(card_models(r@) =~= page);
    }
    r
}

/// The system page.
pub open spec fn system_page() -> Seq<CardModel> {
    seq![
        CardModel {
            title: None,
            fields: seq![
                switch_hint(
                    "general.autostart",
                    "开机自动启动",
                    "写入当前用户的启动项，不需要管理员权限。",
                ),
                hotkey(
                    "clipboard.hotkey",
                    "剪贴板快捷键",
                    "打开剪贴板历史。点一下再按组合键即可记录，按 Backspace 清空则不注册。",
                ),
                hotkey(
                    "clipboard.pin_hotkey",
                    "贴图快捷键",
                    "把剪贴板里的图片贴到屏幕最上层（与 Snipaste 的 F3 一致）。再按一次收起。",
                ),
                hotkey(
                    "todo.hotkey",
                    "任务清单快捷键",
                    "打开任务清单。留空则不注册。",
                ),
            ],
        },
        CardModel {
            title: Some("日志"),
            fields: seq![
                switch("ui.file_logging", "写入日志文件"),
                when(hint(
                    select("ui.log_level", "日志级别", ChoiceList::LogLevels),
                    "修改后需要重启 WinBeautify 才会生效。",
                ), Rule::FileLogging),
                action("打开位置", None, ButtonList::OpenFolders),
            ],
        },
        CardModel {
            title: Some("运行"),
            fields: seq![
                action("WinBeautify 在后台托盘运行", Some("小组件栏与全部模块都运行在这个进程里；关闭设置窗口不会退出程序。"), ButtonList::Quit),
            ],
        },
    ]
}

fn system_cards() -> (r: Vec<Card>)
    ensures
        card_models(r@) == system_page(),
{
    let r: Vec<Card> = vec![
        card(
            None,
            vec![
                switch_hint(
                    "general.autostart",
                    "开机自动启动",
                    "写入当前用户的启动项，不需要管理员权限。",
                ),
                hotkey(
                    "clipboard.hotkey",
                    "剪贴板快捷键",
                    "打开剪贴板历史。点一下再按组合键即可记录，按 Backspace 清空则不注册。",
                ),
                hotkey(
                    "clipboard.pin_hotkey",
                    "贴图快捷键",
                    "把剪贴板里的图片贴到屏幕最上层（与 Snipaste 的 F3 一致）。再按一次收起。",
                ),
                hotkey(
                    "todo.hotkey",
                    "任务清单快捷键",
                    "打开任务清单。留空则不注册。",
                ),
            ],
        ),
        card(
            Some("日志"),
            vec![
                switch("ui.file_logging", "写入日志文件"),
                when(hint(
                    select("ui.log_level", "日志级别", ChoiceList::LogLevels),
                    "修改后需要重启 WinBeautify 才会生效。",
                ), Rule::FileLogging),
                action("打开位置", None, ButtonList::OpenFolders),
            ],
        ),
        card(
            Some("运行"),
            vec![
                action("WinBeautify 在后台托盘运行", Some("小组件栏与全部模块都运行在这个进程里；关闭设置窗口不会退出程序。"), ButtonList::Quit),
            ],
        ),
    ];
    proof {
        let page = system_page();
        assert(r@[0]@.fields =~= page[0].fields);
        assert(r@[1]@.fields =~= page[1].fields);
        assert(r@[2]@.fields =~= page[2].fields);
        assert(card_models(r@) =~= page);
    }
    r
}

/// The about page.
pub open spec fn about_page() -> Seq<CardModel> {
    seq![
        CardModel {
            title: Some("运行信息"),
            fields: seq![
                info(InfoKey::Version, "版本"),
                info(InfoKey::Renderer, "小组件渲染"),
                info(InfoKey::Build, "系统版本"),
            ],
        },
        CardModel {
            title: Some("位置"),
            fields: seq![
                hint(
                    info(InfoKey::ConfigPath, "配置文件"),
                    "可以直接用文本编辑器修改。",
                ),
                info(InfoKey::DataDir, "数据目录"),
                info(InfoKey::LogsDir, "日志目录"),
                action("打开位置", None, ButtonList::OpenFolders),
            ],
        },
        CardModel {
            title: Some("最近操作"),
            fields: seq![
                hint(
                    info(InfoKey::LastAction, "结果"),
                    "任务栏效果通过 DWM 与合成 API 实现，不修改任何系统文件，退出时自动还原；全部模块按需加载，空闲时不轮询。",
                ),
            ],
        },
    ]
}

fn about_cards() -> (r: Vec<Card>)
    ensures
        card_models(r@) == about_page(),
{
    let r: Vec<Card> = vec![
        card(
            Some("运行信息"),
            vec![
                info(InfoKey::Version, "版本"),
                info(InfoKey::Renderer, "小组件渲染"),
                info(InfoKey::Build, "系统版本"),
            ],
        ),
        card(
            Some("位置"),
            vec![
                hint(
                    info(InfoKey::ConfigPath, "配置文件"),
                    "可以直接用文本编辑器修改。",
                ),
                info(InfoKey::DataDir, "数据目录"),
                info(InfoKey::LogsDir, "日志目录"),
                action("打开位置", None, ButtonList::OpenFolders),
            ],
        ),
        card(
            Some("最近操作"),
            vec![
                hint(
                    info(InfoKey::LastAction, "结果"),
                    "任务栏效果通过 DWM 与合成 API 实现，不修改任何系统文件，退出时自动还原；全部模块按需加载，空闲时不轮询。",
                ),
            ],
        ),
    ];
    proof {
        let page = about_page();
        assert(r@[0]@.fields =~= page[0].fields);
        assert(r@[1]@.fields =~= page[1].fields);
        assert(r@[2]@.fields =~= page[2].fields);
        assert(card_models(r@) =~= page);
    }
    r
}

/// Every section, in sidebar order.
pub open spec fn all_sections() -> Seq<SectionModel> {
    seq![
        SectionModel {
            id: "appearance",
            title: "外观",
            description: "主题、强调色，以及小组件外观。这些设置只影响 WinBeautify 自己的窗口。",
            cards: appearance_page(),
            is_about: false,
        },
        SectionModel {
            id: "taskbar",
            title: "任务栏",
            description: "通过 DWM 与合成 API 为任务栏叠加透明、模糊或材质背景，不修改任何系统文件。",
            cards: taskbar_page(),
            is_about: false,
        },
        SectionModel {
            id: "widget",
            title: "小组件栏",
            description: "嵌入任务栏的 Widget Bar：启动器、音频组件与 Flyout。",
            cards: widget_page(),
            is_about: false,
        },
        SectionModel {
            id: "media",
            title: "媒体与歌词",
            description: "通过 Windows 媒体会话（GSMTC）读取正在播放的内容，并从系统音频回放中提取频谱。",
            cards: media_page(),
            is_about: false,
        },
        SectionModel {
            id: "clipboard",
            title: "剪贴板",
            description: "监听系统剪贴板变化并保存历史，支持文本、图片与文件列表。",
            cards: clipboard_page(),
            is_about: false,
        },
        SectionModel {
            id: "todo",
            title: "任务清单",
            description: "轻量的待办列表，可从小组件栏的 Flyout 直接查看与勾选。",
            cards: todo_page(),
            is_about: false,
        },
        SectionModel {
            id: "snip",
            title: "截图",
            description: "拖动选择区域后把截图放进剪贴板，或贴回屏幕上继续对照。全程在本进程内完成，不写临时文件。",
            cards: snip_page(),
            is_about: false,
        },
        SectionModel {
            id: "system",
            title: "系统",
            description: "开机启动、快捷键与日志。",
            cards: system_page(),
            is_about: false,
        },
        SectionModel {
            id: "about",
            title: "关于",
            description: "",
            cards: about_page(),
            is_about: true,
        },
    ]
}

/// Every section, in sidebar order.
pub fn sections() -> (r: Vec<Section>)
    ensures
        section_models(r@) == all_sections(),
{
    let r: Vec<Section> = vec![
        Section {
            id: "appearance",
            title: "外观",
            description: "主题、强调色，以及小组件外观。这些设置只影响 WinBeautify 自己的窗口。",
            cards: appearance_cards(),
            is_about: false,
        },
        Section {
            id: "taskbar",
            title: "任务栏",
            description: "通过 DWM 与合成 API 为任务栏叠加透明、模糊或材质背景，不修改任何系统文件。",
            cards: taskbar_cards(),
            is_about: false,
        },
        Section {
            id: "widget",
            title: "小组件栏",
            description: "嵌入任务栏的 Widget Bar：启动器、音频组件与 Flyout。",
            cards: widget_cards(),
            is_about: false,
        },
        Section {
            id: "media",
            title: "媒体与歌词",
            description: "通过 Windows 媒体会话（GSMTC）读取正在播放的内容，并从系统音频回放中提取频谱。",
            cards: media_cards(),
            is_about: false,
        },
        Section {
            id: "clipboard",
            title: "剪贴板",
            description: "监听系统剪贴板变化并保存历史，支持文本、图片与文件列表。",
            cards: clipboard_cards(),
            is_about: false,
        },
        Section {
            id: "todo",
            title: "任务清单",
            description: "轻量的待办列表，可从小组件栏的 Flyout 直接查看与勾选。",
            cards: todo_cards(),
            is_about: false,
        },
        Section {
            id: "snip",
            title: "截图",
            description: "拖动选择区域后把截图放进剪贴板，或贴回屏幕上继续对照。全程在本进程内完成，不写临时文件。",
            cards: snip_cards(),
            is_about: false,
        },
        Section {
            id: "system",
            title: "系统",
            description: "开机启动、快捷键与日志。",
            cards: system_cards(),
            is_about: false,
        },
        Section {
            id: "about",
            title: "关于",
            description: "",
            cards: about_cards(),
            is_about: true,
        },
    ];
    assert(section_models(r@) =~= all_sections());
    r
}
/// Look up a section by id.
pub fn section(id: &str) -> (r: Option<Section>)
    ensures
        match r {
            Some(section) => exists|i: int|
                0 <= i < all_sections().len() && #[trigger] all_sections()[i] == section@
                    && section.id@ == id@ && (forall|j: int|
                    0 <= j < i ==> (#[trigger] all_sections()[j]).id@ != id@),
            None => forall|i: int|
                0 <= i < all_sections().len() ==> (#[trigger] all_sections()[i]).id@ != id@,
        },
{
    let mut left: Vec<Section> = sections();
    let ghost all = left@;
    let mut i: usize = 0;
    while i < left.len()
        invariant
            left@ == all,
            section_models(all) == all_sections(),
            0 <= i <= all.len(),
            forall|j: int| 0 <= j < i ==> (#[trigger] all_sections()[j]).id@ != id@,
        decreases all.len() - i,
    {
        assert(all_sections()[i as int] == all[i as int]@);
        if same_text(left[i].id, id) {
            return Some(left.remove(i));
        }
        i = i + 1;
    }
    None
}

/// The rows of some cards that a configuration shows, each with the card it is on.
pub open spec fn visible_rows(cards: Seq<CardModel>, config: Config) -> Seq<(int, Field)>
    decreases cards.len(),
{
    if cards.len() == 0 {
        Seq::empty()
    } else {
        visible_rows(cards.drop_last(), config) + shown_rows(
            cards.last().fields,
            cards.len() - 1,
            config,
        )
    }
}

/// The rows of one card that a configuration shows.
pub open spec fn shown_rows(fields: Seq<Field>, card: int, config: Config) -> Seq<(int, Field)>
    decreases fields.len(),
{
    if fields.len() == 0 {
        Seq::empty()
    } else if fields.last().shown(config) {
        shown_rows(fields.drop_last(), card, config).push((card, fields.last()))
    } else {
        shown_rows(fields.drop_last(), card, config)
    }
}

/// What [`Section::visible_fields`] gives, as a value.
pub open spec fn row_models(rows: Seq<(usize, Field)>) -> Seq<(int, Field)> {
    rows.map_values(|row: (usize, Field)| (row.0 as int, row.1))
}

impl Section {
    /// Is this field visible for `config`?
    pub fn shows(&self, field: &Field, config: &Config) -> (r: bool)
        ensures
            r == field.shown(*config),
    {
        match field.when {
            Some(rule) => rule.holds(config),
            None => true,
        }
    }

    /// The fields of this section that `config` currently shows, each with the index of
    /// its card.
    pub fn visible_fields(&self, config: &Config) -> (r: Vec<(usize, Field)>)
        ensures
            row_models(r@) == visible_rows(self@.cards, *config),
    {
        let mut rows: Vec<(usize, Field)> = Vec::new();
        let ghost cards = self@.cards;
        let mut c: usize = 0;
        assert(cards.take(0) =~= Seq::<CardModel>::empty());
        assert(row_models(rows@) =~= Seq::<(int, Field)>::empty());
        while c < self.cards.len()
            invariant
                cards == self@.cards,
                cards.len() == self.cards@.len(),
                0 <= c <= self.cards@.len(),
                row_models(rows@) == visible_rows(cards.take(c as int), *config),
            decreases self.cards@.len() - c,
        {
            let ghost before = row_models(rows@);
            let ghost fields = self.cards@[c as int].fields@;
            assert(cards[c as int] == self.cards@[c as int]@);
            let mut f: usize = 0;
            assert(fields.take(0) =~= Seq::<Field>::empty());
            assert(row_models(rows@) =~= before + shown_rows(fields.take(0), c as int, *config));
            while f < self.cards[c].fields.len()
                invariant
                    c < self.cards@.len(),
                    fields == self.cards@[c as int].fields@,
                    0 <= f <= fields.len(),
                    row_models(rows@) == before + shown_rows(
                        fields.take(f as int),
                        c as int,
                        *config,
                    ),
                decreases fields.len() - f,
            {
                let field: Field = self.cards[c].fields[f];
                proof {
                    let next = fields.take(f + 1);
                    assert(next.drop_last() =~= fields.take(f as int));
                    assert(next.last() == field);
                }
                let ghost sofar = rows@;
                if self.shows(&field, config) {
                    rows.push((c, field));
                    assert(row_models(rows@) =~= row_models(sofar).push((c as int, field)));
                }
                f = f + 1;
                assert(row_models(rows@) =~= before + shown_rows(
                    fields.take(f as int),
                    c as int,
                    *config,
                ));
            }
            proof {
                assert(fields.take(f as int) =~= fields);
                let next = cards.take(c + 1);
                assert(next.drop_last() =~= cards.take(c as int));
                assert(next.last() == cards[c as int]);
            }
            c = c + 1;
        }
        assert(cards.take(c as int) =~= cards);
        rows
    }
}

/// The label that is shown for a stored mode.
pub open spec fn label_of(list: Seq<Choice>, id: Seq<char>) -> Option<&'static str>
    decreases list.len(),
{
    if list.len() == 0 {
        None
    } else if list.first().value@ == id {
        Some(list.first().label)
    } else {
        label_of(list.drop_first(), id)
    }
}

/// The label that a list shows for a stored value; that of the first entry that has it.
pub(crate) fn find_label(list: &'static [Choice], id: &str) -> (r: Option<&'static str>)
    ensures
        r == label_of(list@, id@),
{
    let mut i: usize = 0;
    assert(list@.skip(0) =~= list@);
    while i < list.len()
        invariant
            0 <= i <= list@.len(),
            label_of(list@, id@) == label_of(list@.skip(i as int), id@),
        decreases list@.len() - i,
    {
        let choice: Choice = list[i];
        assert(list@.skip(i as int).first() == choice);
        assert(list@.skip(i as int).drop_first() =~= list@.skip(i + 1));
        if same_text(choice.value, id) {
            return Some(choice.label);
        }
        i = i + 1;
    }
    None
}

/// The taskbar's backdrop modes.
pub fn modes() -> (r: &'static [Choice])
    ensures
        r@ == ChoiceList::Modes.list(),
{
    ChoiceList::Modes.choices()
}

/// The label that the list of modes shows for a stored mode, for the status pill.
pub fn mode_label(id: &str) -> (r: &'static str)
    ensures
        r == (match label_of(ChoiceList::Modes.list(), id@) {
            Some(label) => label,
            None => "未知",
        }),
{
    match find_label(modes(), id) {
        Some(label) => label,
        None => "未知",
    }
}

/// The mode that is stored under a name; anything else is left to Windows.
pub open spec fn mode_named(name: Seq<char>) -> TaskbarMode {
    if name == "opaque"@ {
        TaskbarMode::Opaque
    } else if name == "clear"@ {
        TaskbarMode::Clear
    } else if name == "blur"@ {
        TaskbarMode::Blur
    } else if name == "acrylic"@ {
        TaskbarMode::Acrylic
    } else if name == "mica"@ {
        TaskbarMode::Mica
    } else {
        TaskbarMode::Normal
    }
}

/// Parse a mode from its stored id.
pub fn mode_from_id(id: &str) -> (r: TaskbarMode)
    ensures
        r == mode_named(id@),
{
    if same_text(id, "opaque") {
        TaskbarMode::Opaque
    } else if same_text(id, "clear") {
        TaskbarMode::Clear
    } else if same_text(id, "blur") {
        TaskbarMode::Blur
    } else if same_text(id, "acrylic") {
        TaskbarMode::Acrylic
    } else if same_text(id, "mica") {
        TaskbarMode::Mica
    } else {
        TaskbarMode::Normal
    }
}

/// The theme that is stored under a name; anything else is the dark one.
pub open spec fn theme_named(name: Seq<char>) -> Theme {
    if name == "light"@ {
        Theme::Light
    } else if name == "auto"@ {
        Theme::Auto
    } else {
        Theme::Dark
    }
}

/// Parse a theme from its stored id.
pub fn theme_from_id(id: &str) -> (r: Theme)
    ensures
        r == theme_named(id@),
{
    if same_text(id, "light") {
        Theme::Light
    } else if same_text(id, "auto") {
        Theme::Auto
    } else {
        Theme::Dark
    }
}

/// The anchor that is stored under a name; anything else is the left of the taskbar.
pub open spec fn anchor_named(name: Seq<char>) -> WidgetAnchor {
    if name == "taskbar-center"@ {
        WidgetAnchor::TaskbarCenter
    } else if name == "taskbar-right"@ {
        WidgetAnchor::TaskbarRight
    } else if name == "bottom-left"@ {
        WidgetAnchor::BottomLeft
    } else if name == "bottom-center"@ {
        WidgetAnchor::BottomCenter
    } else if name == "bottom-right"@ {
        WidgetAnchor::BottomRight
    } else {
        WidgetAnchor::TaskbarLeft
    }
}

/// Parse an anchor from its stored id.
pub fn anchor_from_id(id: &str) -> (r: WidgetAnchor)
    ensures
        r == anchor_named(id@),
{
    if same_text(id, "taskbar-center") {
        WidgetAnchor::TaskbarCenter
    } else if same_text(id, "taskbar-right") {
        WidgetAnchor::TaskbarRight
    } else if same_text(id, "bottom-left") {
        WidgetAnchor::BottomLeft
    } else if same_text(id, "bottom-center") {
        WidgetAnchor::BottomCenter
    } else if same_text(id, "bottom-right") {
        WidgetAnchor::BottomRight
    } else {
        WidgetAnchor::TaskbarLeft
    }
}

/// Every mode is found again under the name it is stored by.
pub proof fn a_stored_mode_is_found_again(mode: TaskbarMode)
    ensures
        mode_named(mode.name()) == mode,
{
    reveal_strlit("normal");
    reveal_strlit("opaque");
    reveal_strlit("clear");
    reveal_strlit("blur");
    reveal_strlit("acrylic");
    reveal_strlit("mica");
    assert("normal"@[0] == 'n');
    assert("opaque"@[0] == 'o');
    assert("clear"@[0] == 'c');
    assert("blur"@[0] == 'b');
    assert("acrylic"@[0] == 'a');
    assert("mica"@[0] == 'm');
}

/// Every theme is found again under the name it is stored by.
pub proof fn a_stored_theme_is_found_again(theme: Theme)
    ensures
        theme_named(theme.name()) == theme,
{
    reveal_strlit("dark");
    reveal_strlit("light");
    reveal_strlit("auto");
    assert("dark"@[0] == 'd');
    assert("light"@[0] == 'l');
    assert("auto"@[0] == 'a');
}

/// Every anchor is found again under the name it is stored by.
pub proof fn a_stored_anchor_is_found_again(anchor: WidgetAnchor)
    ensures
        anchor_named(anchor.name()) == anchor,
{
    reveal_strlit("taskbar-left");
    reveal_strlit("taskbar-center");
    reveal_strlit("taskbar-right");
    reveal_strlit("bottom-left");
    reveal_strlit("bottom-center");
    reveal_strlit("bottom-right");
    assert("taskbar-left"@.len() == 12 && "taskbar-left"@[0] == 't' && "taskbar-left"@[8] == 'l');
    assert("taskbar-center"@.len() == 14 && "taskbar-center"@[0] == 't');
    assert("taskbar-right"@.len() == 13 && "taskbar-right"@[0] == 't');
    assert("bottom-left"@.len() == 11 && "bottom-left"@[0] == 'b');
    assert("bottom-center"@.len() == 13 && "bottom-center"@[0] == 'b');
    assert("bottom-right"@.len() == 12 && "bottom-right"@[0] == 'b');
}

/// A quotient that is rounded to the nearest integer is within half of the exact one, and a
/// half goes away from zero.
pub proof fn nearest_is_within_half(n: int, d: int)
    requires
        d > 0,
    ensures
        n >= 0 ==> -d < 2 * (nearest(n, d) * d - n) <= d && nearest(n, d) >= 0,
        n <= 0 ==> -d <= 2 * (nearest(n, d) * d - n) < d && nearest(n, d) <= 0,
{
    let m = if n >= 0 {
        n
    } else {
        -n
    };
    let q = (2 * m + d) / (2 * d);
    assert(q * (2 * d) <= 2 * m + d < q * (2 * d) + 2 * d && q >= 0) by (nonlinear_arith)
        requires
            q == (2 * m + d) / (2 * d),
            m >= 0,
            d > 0,
    ;
    assert(q * (2 * d) == 2 * (q * d)) by (nonlinear_arith);
    assert((-q) * d == -(q * d)) by (nonlinear_arith);
    if n == 0 {
        assert(q == 0) by (nonlinear_arith)
            requires
                q == (2 * m + d) / (2 * d),
                m == 0,
                d > 0,
        ;
    }
}

/// A quotient that is rounded with halves to even is within half of the exact one.
pub proof fn nearest_even_is_within_half(n: int, d: int)
    requires
        n >= 0,
        d > 0,
    ensures
        -d <= 2 * (nearest_even(n, d) * d - n) <= d,
        2 * (nearest_even(n, d) * d - n) == d || 2 * (nearest_even(n, d) * d - n) == -d
            ==> nearest_even(n, d) % 2 == 0,
        nearest_even(n, d) >= 0,
{
    let q = n / d;
    assert(n == q * d + n % d && 0 <= n % d < d && q >= 0) by (nonlinear_arith)
        requires
            q == n / d,
            n >= 0,
            d > 0,
    ;
    assert((q + 1) * d == q * d + d) by (nonlinear_arith);
}

/// Is `text` a number in decimal, before a unit?
pub open spec fn reads_as(text: Seq<char>, number: int, unit: Seq<char>) -> bool {
    text == decimal(number) + unit
}

/// The whole formats show the value in their own unit, rounded to the nearest whole one:
/// percent in hundredths, milliseconds and pixels in ones. A delay says its sign when it is
/// positive, and a corner of no pixels is called square.
#[verifier::spinoff_prover]
pub proof fn a_whole_format_shows_the_nearest(value: int)
    requires
        -0x7fff_ffff_ffff_ffff <= value <= 0x7fff_ffff_ffff_ffff,
    ensures
        exists|n: int| #[trigger]
            reads_as(Format::Percent.rendered(value), n, "%"@) && -1_000_000 <= 2 * (n * 1_000_000
                - value * 100) <= 1_000_000,
        exists|n: int| #[trigger]
            reads_as(Format::Milliseconds.rendered(value), n, " ms"@) && -1_000_000 <= 2 * (n
                * 1_000_000 - value) <= 1_000_000,
        exists|n: int| #[trigger]
            reads_as(Format::Pixels.rendered(value), n, " px"@) && -1_000_000 <= 2 * (n * 1_000_000
                - value) <= 1_000_000,
        value < 500_000 ==> Format::SignedMilliseconds.rendered(value)
            == Format::Milliseconds.rendered(value),
        value >= 500_000 ==> Format::SignedMilliseconds.rendered(value) == "+"@
            + Format::Milliseconds.rendered(value),
        -500_000 < value < 500_000 ==> Format::PixelsOrSquare.rendered(value) == "直角"@,
        value <= -500_000 || value >= 500_000 ==> Format::PixelsOrSquare.rendered(value)
            == Format::Pixels.rendered(value),
{
    nearest_is_within_half(value, 1_000_000);
    nearest_is_within_half(value * 100, 1_000_000);
    let whole = nearest(value, 1_000_000);
    let percent = nearest(value * 100, 1_000_000);
    assert(reads_as(Format::Percent.rendered(value), percent, "%"@));
    assert(reads_as(Format::Milliseconds.rendered(value), whole, " ms"@));
    assert(reads_as(Format::Pixels.rendered(value), whole, " px"@));
    if value >= 500_000 {
        assert("+"@ + decimal(whole) + " ms"@ =~= "+"@ + (decimal(whole) + " ms"@));
    }
}

/// The formats with a fraction show the nearest tenth or hundredth: the digits before the
/// point are the whole ones of it, and one or two digits behind the point are the rest. A
/// minus sign stands in front of what is below zero.
#[verifier::spinoff_prover]
pub proof fn a_fraction_format_shows_the_nearest(value: int)
    requires
        value >= 0,
    ensures
        ({
            let text = Format::Multiplier.rendered(value);
            let n = text.len() as int;
            let tenths = 10 * number_read(text.take(n - 3)) + digit_value(text[n - 2]);
            &&& text[n - 3] == '.'
            &&& text[n - 1] == '×'
            &&& '0' <= text[n - 2] <= '9'
            &&& -100_000 <= 2 * (tenths * 100_000 - value) <= 100_000
        }),
        ({
            let text = Format::Decimal.rendered(value);
            let n = text.len() as int;
            let hundredths = 100 * number_read(text.take(n - 3)) + 10 * digit_value(text[n - 2])
                + digit_value(text[n - 1]);
            &&& text[n - 3] == '.'
            &&& '0' <= text[n - 2] <= '9'
            &&& '0' <= text[n - 1] <= '9'
            &&& -10_000 <= 2 * (hundredths * 10_000 - value) <= 10_000
        }),
        value > 0 ==> Format::Multiplier.rendered(-value) == seq!['-'] + Format::Multiplier.rendered(
            value,
        ) && Format::Decimal.rendered(-value) == seq!['-'] + Format::Decimal.rendered(value),
{
    nearest_even_is_within_half(value, 100_000);
    nearest_even_is_within_half(value, 10_000);
    lemma_tenths(value);
    lemma_hundredths(value);
    if value > 0 {
        assert(one_place(-value) =~= seq!['-'] + one_place(value));
        assert(two_places(-value) =~= seq!['-'] + two_places(value));
        assert(one_place(-value) + "×"@ =~= seq!['-'] + (one_place(value) + "×"@));
    }
}

proof fn lemma_tenths(value: int)
    requires
        value >= 0,
    ensures
        ({
            let text = one_place(value) + "×"@;
            let n = text.len() as int;
            &&& n >= 3
            &&& text[n - 3] == '.'
            &&& text[n - 1] == '×'
            &&& '0' <= text[n - 2] <= '9'
            &&& 10 * number_read(text.take(n - 3)) + digit_value(text[n - 2]) == nearest_even(
                value,
                100_000,
            )
        }),
{
    reveal_strlit("×");
    nearest_even_is_within_half(value, 100_000);
    let tenths = nearest_even(value, 100_000);
    let head = digits((tenths / 10) as nat);
    let digit = crate::text::digit_char(tenths % 10);
    digits_read_back((tenths / 10) as nat);
    lemma_one_digit((tenths % 10) as nat);
    let text = one_place(value) + "×"@;
    assert(text =~= head + seq!['.'] + seq![digit] + seq!['×']);
    assert(text.take(text.len() - 3) =~= head);
}

proof fn lemma_hundredths(value: int)
    requires
        value >= 0,
    ensures
        ({
            let text = two_places(value);
            let n = text.len() as int;
            &&& n >= 3
            &&& text[n - 3] == '.'
            &&& '0' <= text[n - 2] <= '9'
            &&& '0' <= text[n - 1] <= '9'
            &&& 100 * number_read(text.take(n - 3)) + 10 * digit_value(text[n - 2]) + digit_value(
                text[n - 1],
            ) == nearest_even(value, 10_000)
        }),
{
    nearest_even_is_within_half(value, 10_000);
    let hundredths = nearest_even(value, 10_000);
    let head = digits((hundredths / 100) as nat);
    let rest = (hundredths % 100) as nat;
    let (ten, one) = (
        crate::text::digit_char((rest / 10) as int),
        crate::text::digit_char((rest % 10) as int),
    );
    digits_read_back((hundredths / 100) as nat);
    lemma_one_digit(rest / 10);
    lemma_one_digit(rest % 10);
    assert(padded(rest, 2) =~= padded(rest / 10, 1).push(one));
    let text = two_places(value);
    assert(text =~= head + seq!['.'] + seq![ten] + seq![one]);
    assert(text.take(text.len() - 3) =~= head);
}

proof fn lemma_one_digit(n: nat)
    requires
        n < 10,
    ensures
        padded(n, 1) == seq![crate::text::digit_char(n as int)],
        '0' <= crate::text::digit_char(n as int) <= '9',
        digit_value(crate::text::digit_char(n as int)) == n,
{
    assert(padded(n / 10, 0) =~= Seq::<char>::empty());
    assert(padded(n, 1) =~= seq![crate::text::digit_char(n as int)]);
}

/// The names under which modes, themes and anchors are stored. Anything else is the mode that
/// leaves the taskbar to Windows, the dark theme, and the left of the taskbar.
#[verifier::spinoff_prover]
pub proof fn stored_names_are_fixed(name: Seq<char>)
    ensures
        mode_named("normal"@) == TaskbarMode::Normal,
        mode_named("opaque"@) == TaskbarMode::Opaque,
        mode_named("clear"@) == TaskbarMode::Clear,
        mode_named("blur"@) == TaskbarMode::Blur,
        mode_named("acrylic"@) == TaskbarMode::Acrylic,
        mode_named("mica"@) == TaskbarMode::Mica,
        name != "opaque"@ && name != "clear"@ && name != "blur"@ && name != "acrylic"@ && name
            != "mica"@ ==> mode_named(name) == TaskbarMode::Normal,
        theme_named("dark"@) == Theme::Dark,
        theme_named("light"@) == Theme::Light,
        theme_named("auto"@) == Theme::Auto,
        name != "light"@ && name != "auto"@ ==> theme_named(name) == Theme::Dark,
        anchor_named("taskbar-left"@) == WidgetAnchor::TaskbarLeft,
        anchor_named("taskbar-center"@) == WidgetAnchor::TaskbarCenter,
        anchor_named("taskbar-right"@) == WidgetAnchor::TaskbarRight,
        anchor_named("bottom-left"@) == WidgetAnchor::BottomLeft,
        anchor_named("bottom-center"@) == WidgetAnchor::BottomCenter,
        anchor_named("bottom-right"@) == WidgetAnchor::BottomRight,
        name != "taskbar-center"@ && name != "taskbar-right"@ && name != "bottom-left"@ && name
            != "bottom-center"@ && name != "bottom-right"@ ==> anchor_named(name)
            == WidgetAnchor::TaskbarLeft,
{
    a_stored_mode_is_found_again(TaskbarMode::Normal);
    a_stored_mode_is_found_again(TaskbarMode::Opaque);
    a_stored_mode_is_found_again(TaskbarMode::Clear);
    a_stored_mode_is_found_again(TaskbarMode::Blur);
    a_stored_mode_is_found_again(TaskbarMode::Acrylic);
    a_stored_mode_is_found_again(TaskbarMode::Mica);
    a_stored_theme_is_found_again(Theme::Dark);
    a_stored_theme_is_found_again(Theme::Light);
    a_stored_theme_is_found_again(Theme::Auto);
    a_stored_anchor_is_found_again(WidgetAnchor::TaskbarLeft);
    a_stored_anchor_is_found_again(WidgetAnchor::TaskbarCenter);
    a_stored_anchor_is_found_again(WidgetAnchor::TaskbarRight);
    a_stored_anchor_is_found_again(WidgetAnchor::BottomLeft);
    a_stored_anchor_is_found_again(WidgetAnchor::BottomCenter);
    a_stored_anchor_is_found_again(WidgetAnchor::BottomRight);
}

/// Every entry of the lists of modes, themes and anchors stores a name that stands for itself,
/// and every mode, theme and anchor is on its list.
#[verifier::spinoff_prover]
pub proof fn every_choice_can_be_stored(
    mode: TaskbarMode,
    theme: Theme,
    anchor: WidgetAnchor,
    i: int,
)
    ensures
        0 <= i < ChoiceList::Modes.list().len() ==> mode_named(
            ChoiceList::Modes.list()[i].value@,
        ).name() == ChoiceList::Modes.list()[i].value@,
        0 <= i < ChoiceList::Themes.list().len() ==> theme_named(
            ChoiceList::Themes.list()[i].value@,
        ).name() == ChoiceList::Themes.list()[i].value@,
        0 <= i < ChoiceList::Anchors.list().len() ==> anchor_named(
            ChoiceList::Anchors.list()[i].value@,
        ).name() == ChoiceList::Anchors.list()[i].value@,
        exists|k: int|
            0 <= k < ChoiceList::Modes.list().len() && (
            #[trigger] ChoiceList::Modes.list()[k]).value@ == mode.name(),
        exists|k: int|
            0 <= k < ChoiceList::Themes.list().len() && (
            #[trigger] ChoiceList::Themes.list()[k]).value@ == theme.name(),
        exists|k: int|
            0 <= k < ChoiceList::Anchors.list().len() && (
            #[trigger] ChoiceList::Anchors.list()[k]).value@ == anchor.name(),
{
    stored_names_are_fixed(Seq::empty());
    let modes = ChoiceList::Modes.list();
    let themes = ChoiceList::Themes.list();
    let anchors = ChoiceList::Anchors.list();
    assert(modes[0].value@ == "normal"@ && modes[1].value@ == "clear"@ && modes[2].value@
        == "blur"@ && modes[3].value@ == "acrylic"@ && modes[4].value@ == "mica"@
        && modes[5].value@ == "opaque"@);
    assert(themes[0].value@ == "dark"@ && themes[1].value@ == "light"@ && themes[2].value@
        == "auto"@);
    assert(anchors[0].value@ == "taskbar-right"@ && anchors[1].value@ == "taskbar-center"@
        && anchors[2].value@ == "taskbar-left"@ && anchors[3].value@ == "bottom-right"@
        && anchors[4].value@ == "bottom-center"@ && anchors[5].value@ == "bottom-left"@);
}

/// What depends on a feature is hidden while the feature is off, and what depends on a setting
/// of it too while that is off; otherwise it is shown.
pub proof fn a_rule_follows_its_feature(c: Config)
    ensures
        !c.taskbar.enabled ==> !Rule::TaskbarOn.met(c) && !Rule::TaskbarTinted.met(c)
            && !Rule::TaskbarDynamic.met(c),
        c.taskbar.enabled ==> Rule::TaskbarOn.met(c) && Rule::TaskbarDynamic.met(c)
            == c.taskbar.dynamic_mode && (Rule::TaskbarTinted.met(c) <==> !(c.taskbar.mode
            is Normal)),
        !c.widget.enabled ==> !Rule::WidgetOn.met(c) && !Rule::WidgetLyrics.met(c),
        c.widget.enabled ==> Rule::WidgetOn.met(c) && Rule::WidgetLyrics.met(c)
            == c.media.show_lyrics,
        !c.media.enabled ==> !Rule::MediaOn.met(c) && !Rule::MediaSpectrum.met(c)
            && !Rule::MediaLyrics.met(c) && !Rule::MediaCustom.met(c),
        c.media.enabled ==> Rule::MediaOn.met(c) && Rule::MediaSpectrum.met(c)
            == c.media.show_spectrum && Rule::MediaLyrics.met(c) == c.media.show_lyrics && (
        Rule::MediaCustom.met(c) <==> c.media.lyric_provider is Custom),
        !c.clipboard.enabled ==> !Rule::ClipboardOn.met(c) && !Rule::ClipboardImages.met(c),
        c.clipboard.enabled ==> Rule::ClipboardOn.met(c) && Rule::ClipboardImages.met(c)
            == c.clipboard.capture_images,
        Rule::TodoOn.met(c) == c.todo.enabled,
        Rule::SnipOn.met(c) == c.snip.enabled,
        Rule::FileLogging.met(c) == c.ui.file_logging,
{
}

/// A row without a rule is always shown, and one with a rule while the rule is met. Of the rows
/// of a card exactly those that are shown are listed, each with its card.
pub proof fn only_shown_rows_are_listed(fields: Seq<Field>, card: int, config: Config, field: Field)
    ensures
        field.when is None ==> field.shown(config),
        field.when matches Some(rule) ==> field.shown(config) == rule.met(config),
        forall|i: int|
            0 <= i < fields.len() && (#[trigger] fields[i]).shown(config) ==> shown_rows(
                fields,
                card,
                config,
            ).contains((card, fields[i])),
        forall|k: int|
            0 <= k < shown_rows(fields, card, config).len() ==> {
                let row = #[trigger] shown_rows(fields, card, config)[k];
                row.0 == card && fields.contains(row.1) && row.1.shown(config)
            },
    decreases fields.len(),
{
    if fields.len() > 0 {
        let before = fields.drop_last();
        let earlier = shown_rows(before, card, config);
        let rows = shown_rows(fields, card, config);
        only_shown_rows_are_listed(before, card, config, field);
        assert forall|i: int| 0 <= i < fields.len() && (#[trigger] fields[i]).shown(
            config,
        ) implies rows.contains((card, fields[i])) by {
            if i < before.len() {
                assert(before[i] == fields[i]);
                assert(earlier.contains((card, fields[i])));
                let k = earlier.index_of((card, fields[i]));
                assert(rows[k] == (card, fields[i]));
            } else {
                assert(rows[rows.len() - 1] == (card, fields[i]));
            }
        }
        assert forall|k: int| 0 <= k < rows.len() implies {
            let row = #[trigger] rows[k];
            row.0 == card && fields.contains(row.1) && row.1.shown(config)
        } by {
            if k < earlier.len() {
                assert(rows[k] == earlier[k]);
                let j = before.index_of(earlier[k].1);
                assert(fields[j] == earlier[k].1);
            } else {
                assert(fields[fields.len() - 1] == rows[k].1);
            }
        }
    }
}

/// The label that is shown for a stored value is the one beside it on the list; there is none
/// where the value is not on the list.
pub proof fn a_label_stands_beside_its_value(list: Seq<Choice>, id: Seq<char>)
    ensures
        match label_of(list, id) {
            Some(label) => exists|i: int|
                #![trigger list[i]]
                0 <= i < list.len() && list[i].value@ == id && list[i].label == label && forall|k: int|
                    0 <= k < i ==> (#[trigger] list[k]).value@ != id,
            None => forall|i: int| 0 <= i < list.len() ==> (#[trigger] list[i]).value@ != id,
        },
    decreases list.len(),
{
    if list.len() > 0 {
        let rest = list.drop_first();
        if list.first().value@ == id {
            assert(list[0].value@ == id);
        } else {
            a_label_stands_beside_its_value(rest, id);
            match label_of(rest, id) {
                Some(label) => {
                    let i = choose|i: int|
                        #![trigger rest[i]]
                        0 <= i < rest.len() && rest[i].value@ == id && rest[i].label == label
                            && forall|k: int| 0 <= k < i ==> (#[trigger] rest[k]).value@ != id;
                    assert(list[i + 1] == rest[i]);
                    assert forall|k: int| 0 <= k < i + 1 implies (#[trigger] list[k]).value@
                        != id by {
                        if k > 0 {
                            assert(rest[k - 1] == list[k]);
                        }
                    }
                },
                None => {
                    assert forall|i: int| 0 <= i < list.len() implies (#[trigger] list[i]).value@
                        != id by {
                        if i > 0 {
                            assert(rest[i - 1] == list[i]);
                        }
                    }
                },
            }
        }
    }
}

/// The kinds of rows that hold a value are those that can be changed.
pub proof fn reports_hold_no_value(kind: Kind)
    ensures
        kind is Status || kind is Info || kind is Action ==> !kind.binds(),
        kind is Switch || kind is Slider || kind is Select || kind is Color || kind is Number || kind
            is Text || kind is Hotkey ==> kind.binds(),
{
}

/// A number is held to the range of an integer setting, and left alone inside it.
pub proof fn a_held_number_is_in_range(value: int)
    ensures
        i64::MIN <= held(value) <= i64::MAX,
        i64::MIN <= value <= i64::MAX ==> held(value) == value,
        value > i64::MAX ==> held(value) == i64::MAX,
        value < i64::MIN ==> held(value) == i64::MIN,
{
}

/// The rows that a configuration shows are listed card by card, each with the number of its
/// card.
pub proof fn shown_rows_are_listed_card_by_card(cards: Seq<CardModel>, card: CardModel, config: Config)
    ensures
        visible_rows(cards.push(card), config) == visible_rows(cards, config) + shown_rows(
            card.fields,
            cards.len() as int,
            config,
        ),
        visible_rows(Seq::empty(), config).len() == 0,
        (forall|i: int| 0 <= i < card.fields.len() ==> !(#[trigger] card.fields[i]).shown(config))
            ==> visible_rows(cards.push(card), config) == visible_rows(cards, config),
{
    assert(cards.push(card).drop_last() =~= cards);
    if forall|i: int| 0 <= i < card.fields.len() ==> !(#[trigger] card.fields[i]).shown(config) {
        let rows = shown_rows(card.fields, cards.len() as int, config);
        if card.fields.len() > 0 {
            only_shown_rows_are_listed(card.fields, cards.len() as int, config, card.fields[0]);
            if rows.len() > 0 {
                let row = rows[0];
                let j = card.fields.index_of(row.1);
                assert(card.fields[j] == row.1);
            }
        }
        assert(rows.len() == 0);
        assert(visible_rows(cards, config) + rows =~= visible_rows(cards, config));
    }
}

} // verus!
