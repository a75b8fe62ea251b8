//! Shell geometry: which windows are applications, which are the shell's own, and
//! whether one of them covers the monitor.
//!
//! What a window is like is asked of the system by the application around the
//! library; what follows from the answers is decided here.

use vstd::prelude::*;
use vstd::string::StrSliceExecFns;

use crate::geometry::{covering_is_holding_every_pixel, has_pixel, ScreenRect};

verus! {

/// The extended style of a tool window.
pub const WS_EX_TOOLWINDOW: u32 = 0x80;

/// The style of a maximised window.
pub const WS_MAXIMIZE: u32 = 0x0100_0000;

/// The shell's answer when its taskbars hide themselves.
pub const ABS_AUTOHIDE: u32 = 1;

/// What the system says about a top-level window.
#[derive(Clone, Copy, Debug, PartialEq, Eq, Structural)]
pub struct Probe {
    pub visible: bool,
    /// Length of the title, in characters.
    pub title_length: i32,
    pub style: u32,
    pub ex_style: u32,
    /// What reading the cloaking attribute gave, if it could be read.
    pub cloak: Option<u32>,
    /// Does the system call it maximised?
    pub zoomed: bool,
    /// The visible frame, if it could be read.
    pub frame: Option<ScreenRect>,
    /// The window rectangle, if it could be read.
    pub outline: Option<ScreenRect>,
}

/// The foreground window.
pub struct Foreground {
    pub class: String,
    pub iconic: bool,
    pub frame: Option<ScreenRect>,
    pub outline: Option<ScreenRect>,
}

/// Does a style have any bit of a mask?
pub open spec fn styled(style: u32, mask: u32) -> bool {
    style & mask != 0
}

pub fn has_style(style: u32, mask: u32) -> (r: bool)
    ensures
        r == styled(style, mask),
{
    style & mask != 0
}

/// Is a window cloaked, that is, there but not on screen? Only when the attribute
/// could be read and says so.
pub fn is_cloaked(cloak: Option<u32>) -> (r: bool)
    ensures
        r == (cloak is Some && cloak->0 != 0),
{
    match cloak {
        Some(value) => value != 0,
        None => false,
    }
}

/// Visible, not cloaked, not a tool window, with a title: something the user would call
/// an application window.
pub open spec fn candidate(probe: Probe) -> bool {
    &&& probe.visible
    &&& probe.title_length != 0
    &&& !styled(probe.ex_style, WS_EX_TOOLWINDOW)
    &&& !(probe.cloak is Some && probe.cloak->0 != 0)
}

pub fn is_candidate_window(probe: &Probe) -> (r: bool)
    ensures
        r == candidate(*probe),
{
    if !probe.visible {
        return false;
    }
    if probe.title_length == 0 {
        return false;
    }
    if has_style(probe.ex_style, WS_EX_TOOLWINDOW) {
        return false;
    }
    !is_cloaked(probe.cloak)
}

/// The visible frame of a window, or its rectangle when the frame cannot be read. The
/// rectangle has an invisible resize border that the frame has not.
pub fn extended_frame_bounds(frame: Option<ScreenRect>, outline: Option<ScreenRect>) -> (r: Option<
    ScreenRect,
>)
    ensures
        r == (if frame is Some {
            frame
        } else {
            outline
        }),
{
    match frame {
        Some(rect) => Some(rect),
        None => outline,
    }
}

/// Is this window a maximised application window that takes at least half of `monitor`?
/// The share of the area filters out windows that carry the maximised style while
/// actually restored.
pub open spec fn maximized_on(probe: Probe, monitor: ScreenRect) -> bool {
    let bounds = if probe.frame is Some {
        probe.frame
    } else {
        probe.outline
    };
    &&& candidate(probe)
    &&& probe.zoomed || styled(probe.style, WS_MAXIMIZE)
    &&& bounds is Some
    &&& monitor.wide() * monitor.tall() > 0
    &&& 2 * bounds->0.shared_area(monitor) >= monitor.wide() * monitor.tall()
}

fn is_maximized_on(probe: &Probe, monitor: &ScreenRect) -> (r: bool)
    ensures
        r == maximized_on(*probe, *monitor),
{
    if !is_candidate_window(probe) {
        return false;
    }
    if !(probe.zoomed || has_style(probe.style, WS_MAXIMIZE)) {
        return false;
    }
    match extended_frame_bounds(probe.frame, probe.outline) {
        None => false,
        Some(bounds) => {
            let area: u64 = bounds.intersection_area(monitor);
            let width: i128 = monitor.right as i128 - monitor.left as i128;
            let height: i128 = monitor.bottom as i128 - monitor.top as i128;
            assert(-0x1_0000_0000_0000_0000 <= width * height <= 0x1_0000_0000_0000_0000)
                by (nonlinear_arith)
                requires
                    -0x1_0000_0000 <= width <= 0x1_0000_0000,
                    -0x1_0000_0000 <= height <= 0x1_0000_0000,
            ;
            let monitor_area: i128 = width * height;
            monitor_area > 0 && 2 * (area as i128) >= monitor_area
        },
    }
}

/// Is any window maximised on `monitor`?
pub fn any_maximized_on(monitor: &ScreenRect, windows: &Vec<Probe>) -> (r: bool)
    ensures
        r == (exists|i: int|
            0 <= i < windows@.len() && #[trigger] maximized_on(windows@[i], *monitor)),
{
    let mut i: usize = 0;
    while i < windows.len()
        invariant
            0 <= i <= windows@.len(),
            forall|k: int| 0 <= k < i ==> !#[trigger] maximized_on(windows@[k], *monitor),
        decreases windows@.len() - i,
    {
        if is_maximized_on(&windows[i], monitor) {
            assert(maximized_on(windows@[i as int], *monitor));
            return true;
        }
        i = i + 1;
    }
    false
}

/// A character with capital ASCII letters made small.
pub open spec fn lower(c: char) -> char {
    if 'A' <= c && c <= 'Z' {
        ((c as u32) + 32) as char
    } else {
        c
    }
}

/// A text with capital ASCII letters made small.
pub open spec fn lowered(text: Seq<char>) -> Seq<char> {
    text.map_values(|c: char| lower(c))
}

/// The window classes of the shell itself, in small letters.
pub open spec fn shell_class(class: Seq<char>) -> bool {
    ||| class == "shell_traywnd"@
    ||| class == "shell_secondarytraywnd"@
    ||| class == "progman"@
    ||| class == "workerw"@
    ||| class == "windows.ui.core.corewindow"@
    ||| class == "applicationframewindow"@
}

fn same_letter(c: char, small: char) -> (r: bool)
    ensures
        r == (lower(c) == small),
{
    if 'A' <= c && c <= 'Z' {
        (c as u32) + 32 == small as u32
    } else {
        c == small
    }
}

/// Is `class` the name `small`, whatever the case of its ASCII letters?
fn is_class(class: &str, small: &str) -> (r: bool)
    ensures
        r == (lowered(class@) == small@),
{
    let n: usize = class.unicode_len();
    if n != small.unicode_len() {
        assert(lowered(class@).len() == class@.len());
        return false;
    }
    let mut i: usize = 0;
    while i < n
        invariant
            n == class@.len() == small@.len(),
            0 <= i <= n,
            forall|k: int| 0 <= k < i ==> lower(class@[k]) == small@[k],
        decreases n - i,
    {
        if !same_letter(class.get_char(i), small.get_char(i)) {
            assert(lowered(class@)[i as int] != small@[i as int]);
            return false;
        }
        i = i + 1;
    }
    assert(lowered(class@) =~= small@);
    true
}

/// Does this class belong to the shell?
pub fn is_shell_class(class: &str) -> (r: bool)
    ensures
        r == shell_class(lowered(class@)),
{
    is_class(class, "shell_traywnd") || is_class(class, "shell_secondarytraywnd") || is_class(
        class,
        "progman",
    ) || is_class(class, "workerw") || is_class(class, "windows.ui.core.corewindow") || is_class(
        class,
        "applicationframewindow",
    )
}

/// Does a window cover the whole monitor, and is it a real application?
pub open spec fn fullscreen(window: Foreground, monitor: ScreenRect) -> bool {
    let bounds = if window.frame is Some {
        window.frame
    } else {
        window.outline
    };
    &&& !shell_class(lowered(window.class@))
    &&& !window.iconic
    &&& bounds is Some
    &&& bounds->0.covers_rect(monitor)
}

/// Does the foreground window cover the whole monitor, and is it a real application
/// rather than the shell? Used to suppress the taskbar accent while a game or a video
/// is fullscreen.
pub fn is_fullscreen_foreground(monitor: &ScreenRect, window: &Option<Foreground>) -> (r: bool)
    ensures
        r == (window is Some && fullscreen(window->0, *monitor)),
{
    match window {
        None => false,
        Some(window) => {
            if is_shell_class(window.class.as_str()) {
                return false;
            }
            if window.iconic {
                return false;
            }
            match extended_frame_bounds(window.frame, window.outline) {
                None => false,
                Some(bounds) => bounds.covers(monitor),
            }
        },
    }
}

/// Does the shell hide its taskbars, going by the state it reports?
pub fn is_autohide_enabled(state: u32) -> (r: bool)
    ensures
        r == styled(state, ABS_AUTOHIDE),
{
    state & ABS_AUTOHIDE != 0
}

/// A window that was found, unless the search came back empty-handed.
pub open spec fn found_window(found: Option<isize>) -> Option<isize> {
    match found {
        Some(window) => if window != 0 {
            Some(window)
        } else {
            None
        },
        None => None,
    }
}

/// The primary taskbar, given what the search for it found. `None` while the shell is
/// restarting.
pub fn primary_taskbar(found: Option<isize>) -> (r: Option<isize>)
    ensures
        r == found_window(found),
{
    match found {
        Some(window) => if window != 0 {
            Some(window)
        } else {
            None
        },
        None => None,
    }
}

/// The search for every taskbar: the primary one, and the secondary ones that are found
/// one after the other.
pub struct TaskbarSearch {
    pub bars: Vec<isize>,
    /// The window after which the search goes on.
    pub previous: isize,
    pub done: bool,
}

impl TaskbarSearch {
    /// Begin with what the search for the primary taskbar found.
    pub fn begin(primary: Option<isize>) -> (r: TaskbarSearch)
        ensures
            r.bars@ == (match found_window(primary) {
                Some(window) => seq![window],
                None => Seq::<isize>::empty(),
            }),
            r.previous == 0,
            !r.done,
    {
        let mut bars: Vec<isize> = Vec::new();
        match primary_taskbar(primary) {
            Some(window) => {
                bars.push(window);
            },
            None => {},
        }
        assert(bars@ =~= (match found_window(primary) {
            Some(window) => seq![window],
            None => Seq::<isize>::empty(),
        }));
        TaskbarSearch { bars, previous: 0, done: false }
    }

    /// Take what the search for the next secondary taskbar found. It is over with the
    /// first that finds nothing.
    pub fn see(&mut self, found: Option<isize>)
        ensures
            match found_window(found) {
                Some(window) => {
                    &&& final(self).bars@ == old(self).bars@.push(window)
                    &&& final(self).previous == window
                    &&& final(self).done == old(self).done
                },
                None => {
                    &&& final(self).bars@ == old(self).bars@
                    &&& final(self).previous == old(self).previous
                    &&& final(self).done
                },
            },
    {
        match primary_taskbar(found) {
            Some(window) => {
                self.bars.push(window);
                self.previous = window;
            },
            None => {
                self.done = true;
            },
        }
    }
}

/// A whole monitor and its work area, which is what the taskbar leaves of it.
#[derive(Clone, Copy, Debug, PartialEq, Eq, Structural)]
pub struct MonitorInfo {
    pub monitor: ScreenRect,
    pub work: ScreenRect,
}

/// The whole monitor that hosts a window.
pub fn monitor_rect_of(info: Option<MonitorInfo>) -> (r: Option<ScreenRect>)
    ensures
        r == (match info {
            Some(info) => Some(info.monitor),
            None => None,
        }),
{
    match info {
        Some(info) => Some(info.monitor),
        None => None,
    }
}

/// The work area of the monitor that hosts a window.
pub fn work_area_of(info: Option<MonitorInfo>) -> (r: Option<ScreenRect>)
    ensures
        r == (match info {
            Some(info) => Some(info.work),
            None => None,
        }),
{
    match info {
        Some(info) => Some(info.work),
        None => None,
    }
}

/// A desktop with the shell in front is never taken for a fullscreen application,
/// whatever its size.
pub proof fn the_shell_is_never_fullscreen(window: Foreground, monitor: ScreenRect)
    requires
        shell_class(lowered(window.class@)),
    ensures
        !fullscreen(window, monitor),
{
}

/// A window that covers its monitor and is maximised counts as maximised there.
pub proof fn a_covering_window_is_maximized(probe: Probe, monitor: ScreenRect)
    requires
        candidate(probe),
        probe.zoomed,
        probe.frame is Some,
        probe.frame->0.covers_rect(monitor),
        !monitor.empty(),
    ensures
        maximized_on(probe, monitor),
{
    let bounds = probe.frame->0;
    assert(bounds.shared_area(monitor) == monitor.wide() * monitor.tall());
    assert(monitor.wide() * monitor.tall() > 0) by (nonlinear_arith)
        requires
            monitor.wide() > 0,
            monitor.tall() > 0,
    ;
}

/// A window is what the user would call an application when it can be seen, has a title, is
/// no tool window and is not cloaked.
pub proof fn an_application_can_be_seen(probe: Probe)
    ensures
        candidate(probe) <==> probe.visible && probe.title_length != 0 && probe.ex_style & 0x80u32
            == 0 && (probe.cloak is None || probe.cloak == Some(0u32)),
{
}

/// A window counts as maximised on a monitor when it is an application, is maximised by the
/// system's word or by its own style, and takes at least half of the monitor's pixels: by its
/// visible frame, or by its outline where the frame cannot be read.
pub proof fn a_maximized_window_takes_half_the_monitor(probe: Probe, monitor: ScreenRect)
    requires
        monitor.left < monitor.right,
        monitor.top < monitor.bottom,
    ensures
        ({
            let bounds = match probe.frame {
                Some(rect) => Some(rect),
                None => probe.outline,
            };
            let area = (monitor.right - monitor.left) * (monitor.bottom - monitor.top);
            maximized_on(probe, monitor) <==> candidate(probe) && (probe.zoomed || probe.style
                & 0x0100_0000u32 != 0) && (bounds matches Some(rect) && 2 * rect.shared_area(monitor)
                >= area)
        }),
{
    let (w, h) = (monitor.right - monitor.left, monitor.bottom - monitor.top);
    assert(w * h > 0) by (nonlinear_arith)
        requires
            w > 0,
            h > 0,
    ;
}

/// A window is fullscreen when it is a real application, is not minimised and holds every pixel
/// of the monitor.
pub proof fn a_fullscreen_window_holds_every_pixel(window: Foreground, monitor: ScreenRect)
    requires
        monitor.left < monitor.right,
        monitor.top < monitor.bottom,
    ensures
        ({
            let bounds = match window.frame {
                Some(rect) => Some(rect),
                None => window.outline,
            };
            fullscreen(window, monitor) <==> !window.iconic && !shell_class(lowered(window.class@))
                && (bounds matches Some(rect) && forall|x: int, y: int| #[trigger]
                has_pixel(monitor, x, y) ==> has_pixel(rect, x, y))
        }),
{
    if window.frame is Some {
        covering_is_holding_every_pixel(window.frame->0, monitor);
    } else if window.outline is Some {
        covering_is_holding_every_pixel(window.outline->0, monitor);
    }
}

/// The shell's own windows are told by their class, in any case: the taskbars, the desktop and
/// the frames that it hosts applications in.
pub proof fn the_shell_is_told_by_its_classes(class: Seq<char>)
    ensures
        shell_class("shell_traywnd"@),
        shell_class("shell_secondarytraywnd"@),
        shell_class("progman"@),
        shell_class("workerw"@),
        shell_class("windows.ui.core.corewindow"@),
        shell_class("applicationframewindow"@),
        class != "shell_traywnd"@ && class != "shell_secondarytraywnd"@ && class != "progman"@
            && class != "workerw"@ && class != "windows.ui.core.corewindow"@ && class
            != "applicationframewindow"@ ==> !shell_class(class),
        lowered(lowered(class)) == lowered(class),
        forall|i: int| 0 <= i < class.len() ==> ('A' <= #[trigger] class[i] <= 'Z' ==> lowered(
            class,
        )[i] as u32 == class[i] as u32 + 32) && (!('A' <= class[i] <= 'Z') ==> lowered(class)[i]
            == class[i]),
        lowered(class).len() == class.len(),
{
    assert(lowered(lowered(class)) =~= lowered(class));
}

/// A search that came back with the null window found nothing.
pub proof fn the_null_window_is_none(window: isize)
    ensures
        window != 0 ==> found_window(Some(window)) == Some(window),
        found_window(Some(0)) is None,
        found_window(None) is None,
{
}

} // verus!
