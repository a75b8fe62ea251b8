//! Taskbar transparency, from outside the shell.
//!
//! A dedicated thread with a hidden window listens to what the shell's windows do.
//! Moves of windows arrive in torrents, so they only arm a short one-shot timer; the
//! recomputation happens once the user stops moving things. What is decided at each
//! such moment stands here, and so does what each message makes the thread do.

pub mod accent;
pub mod accent_state;
pub mod ffi;
pub mod inject;
pub mod shell;
pub mod theme;
pub mod winver;

use vstd::prelude::*;

use crate::color::Rgb;
use crate::config::{TaskbarConfig, TaskbarMode};
use crate::geometry::ScreenRect;
use crate::number::Factor;
use crate::taskbar::accent::{
    alpha_is_the_share_of_255, alpha_of, apply_calls, each_mode_asks_for_its_namesake, kept,
    reset_calls, AccentApplicator, AccentCall, Backdrop,
};
use crate::taskbar::ffi::AccentPolicy;
use crate::taskbar::shell::{
    any_maximized_on, fullscreen, is_fullscreen_foreground, lowered, maximized_on, shell_class,
    Foreground, Probe,
};
use crate::taskbar::winver::{taskbar_ignores_composition_requests, XAML_TASKBAR_BUILD};

verus! {

/// Posted when the configuration changed and the backdrop should be looked at again
/// right away.
pub const WM_APP_REAPPLY: u32 = 0x8001;

/// Posted to tear the thread down.
pub const WM_APP_SHUTDOWN: u32 = 0x8002;

pub const WM_CLOSE: u32 = 0x0010;

pub const WM_NCCREATE: u32 = 0x0081;

pub const WM_TIMER: u32 = 0x0113;

/// The one-shot debounce timer.
pub const TIMER_DEBOUNCE: usize = 1;

/// The safety-net timer that catches shell changes for which there is no hook.
pub const TIMER_SAFETY: usize = 2;

pub const DEBOUNCE_MS: u32 = 120;

pub const SAFETY_MS: u32 = 3000;

pub const EVENT_SYSTEM_FOREGROUND: u32 = 0x0003;

pub const EVENT_SYSTEM_MINIMIZESTART: u32 = 0x0016;

pub const EVENT_SYSTEM_MINIMIZEEND: u32 = 0x0017;

/// What the thread works from.
#[derive(Clone, Copy, Debug, PartialEq, Eq, Structural)]
pub struct Desired {
    pub enabled: bool,
    pub mode: TaskbarMode,
    pub color: Rgb,
    pub opacity: Factor,
    pub apply_secondary: bool,
    pub dynamic_mode: bool,
    pub dynamic_override: TaskbarMode,
    pub hide_on_fullscreen: bool,
    pub restore_on_exit: bool,
}

impl Desired {
    /// What a configuration asks for.
    pub open spec fn asked(config: TaskbarConfig) -> Desired {
        Desired {
            enabled: config.enabled,
            mode: config.mode,
            color: config.color,
            opacity: config.opacity,
            apply_secondary: config.apply_to_secondary,
            dynamic_mode: config.dynamic_mode,
            dynamic_override: config.dynamic_mode_override,
            hide_on_fullscreen: config.hide_on_fullscreen,
            restore_on_exit: config.restore_on_exit,
        }
    }

    pub fn from_config(config: &TaskbarConfig) -> (r: Desired)
        ensures
            r == Desired::asked(*config),
    {
        Desired {
            enabled: config.enabled,
            mode: config.mode,
            color: config.color,
            opacity: config.opacity,
            apply_secondary: config.apply_to_secondary,
            dynamic_mode: config.dynamic_mode,
            dynamic_override: config.dynamic_mode_override,
            hide_on_fullscreen: config.hide_on_fullscreen,
            restore_on_exit: config.restore_on_exit,
        }
    }

    /// What is worked from before anything was asked for: the defaults, switched off.
    pub fn idle(defaults: &TaskbarConfig) -> (r: Desired)
        ensures
            r == (Desired { enabled: false, ..Desired::asked(*defaults) }),
    {
        Desired {
            enabled: false,
            mode: defaults.mode,
            color: defaults.color,
            opacity: defaults.opacity,
            apply_secondary: defaults.apply_to_secondary,
            dynamic_mode: defaults.dynamic_mode,
            dynamic_override: defaults.dynamic_mode_override,
            hide_on_fullscreen: defaults.hide_on_fullscreen,
            restore_on_exit: defaults.restore_on_exit,
        }
    }
}

/// What the taskbar shows at a moment, and why.
#[derive(Clone, Copy, Debug, PartialEq, Eq, Structural)]
pub enum TaskbarVisualState {
    Disabled,
    Applied,
    /// A window is maximised on the taskbar's monitor.
    Dynamic,
    /// An application covers the monitor.
    Fullscreen,
    /// The taskbar has slid out of sight.
    Hidden,
}

/// What the shell is like at a moment.
pub struct Surroundings {
    /// Every taskbar, the primary one first.
    pub bars: Vec<isize>,
    /// Where the primary taskbar is.
    pub geometry: Option<ScreenRect>,
    /// The monitor of the primary taskbar.
    pub monitor: Option<ScreenRect>,
    pub autohide: bool,
    pub foreground: Option<Foreground>,
    /// Every top-level window.
    pub windows: Vec<Probe>,
    /// For each window that was touched so far, whether it still exists.
    pub touched_exist: Vec<bool>,
    /// Would the material be honoured on the primary taskbar?
    pub mica: bool,
    /// The build of Windows, if it is known.
    pub build: Option<u32>,
}

/// The monitor of the primary taskbar, or an empty one when there is none or it is
/// unknown.
pub open spec fn monitor_of(around: Surroundings) -> ScreenRect {
    match around.monitor {
        Some(rect) if around.bars@.len() > 0 => rect,
        _ => ScreenRect { left: 0, top: 0, right: 0, bottom: 0 },
    }
}

/// The taskbars that are worked on: all of them, or the primary one alone.
pub open spec fn worked_on(bars: Seq<isize>, apply_secondary: bool) -> Seq<isize> {
    if apply_secondary || bars.len() == 0 {
        bars
    } else {
        bars.take(1)
    }
}

/// The mode that is in effect, why, and whether the window is left alone.
///
/// The fullscreen guard and the dynamic mode override whatever the user picked. While
/// the taskbar is retracted it is left alone: an accent that is put on now would show
/// as a flash when it slides back out.
pub open spec fn resolved(desired: Desired, around: Surroundings) -> (
    TaskbarMode,
    TaskbarVisualState,
    bool,
) {
    let monitor = monitor_of(around);
    if !desired.enabled {
        (TaskbarMode::Normal, TaskbarVisualState::Disabled, false)
    } else if desired.hide_on_fullscreen && !monitor.empty() && around.foreground is Some
        && fullscreen(around.foreground->0, monitor) {
        (TaskbarMode::Normal, TaskbarVisualState::Fullscreen, false)
    } else if around.autohide && worked_on(around.bars@, desired.apply_secondary).len() > 0
        && around.geometry is Some && around.geometry->0.top >= monitor.bottom {
        (desired.mode, TaskbarVisualState::Hidden, true)
    } else if desired.dynamic_mode && !monitor.empty() && (exists|i: int|
        0 <= i < around.windows@.len() && #[trigger] maximized_on(around.windows@[i], monitor)) {
        (desired.dynamic_override, TaskbarVisualState::Dynamic, false)
    } else {
        (desired.mode, TaskbarVisualState::Applied, false)
    }
}

/// What was decided at a moment, kept so that the safety timer can skip work when
/// nothing moved.
#[derive(Clone, Copy, Debug, PartialEq, Eq, Structural)]
pub struct Applied {
    pub backdrop: Backdrop,
    pub state: TaskbarVisualState,
    pub geometry: Option<ScreenRect>,
    pub bars: usize,
}

/// What the rest of the application hears of a change.
#[derive(Clone, Copy, Debug, PartialEq, Eq, Structural)]
pub struct TaskbarState {
    pub state: TaskbarVisualState,
    pub mode: TaskbarMode,
    pub secondary_bars: u32,
    pub rect: Option<ScreenRect>,
    pub autohide: bool,
    /// Does the shell draw the taskbar itself, ignoring what was asked?
    pub shell_managed: bool,
}

/// What an evaluation makes the thread do.
pub struct Evaluation {
    /// Calls on the taskbars, in order.
    pub calls: Vec<AccentCall>,
    /// What to publish; `None` when nothing changed.
    pub publish: Option<TaskbarState>,
    /// Say in the log that the shell ignores the request.
    pub warn: bool,
}

/// The state of the thread.
pub struct Pump {
    /// What was decided last, unless it was dropped to force a new evaluation.
    pub last: Option<Applied>,
    pub applicator: AccentApplicator,
    /// Is the material honoured here? Asked once.
    pub mica: Option<bool>,
    /// Was the log told that the shell ignores the request?
    pub warned: bool,
}

/// What is decided at a moment.
pub open spec fn decided(desired: Desired, around: Surroundings) -> Applied {
    let (mode, state, skip) = resolved(desired, around);
    Applied {
        backdrop: Backdrop { mode, color: desired.color, alpha: alpha_of(desired.opacity) as u8 },
        state,
        geometry: if worked_on(around.bars@, desired.apply_secondary).len() > 0 {
            around.geometry
        } else {
            None
        },
        bars: worked_on(around.bars@, desired.apply_secondary).len() as usize,
    }
}

/// The calls that put a decision on the taskbars, one after the other.
pub open spec fn bar_calls(
    bars: Seq<isize>,
    backdrop: Backdrop,
    dark: bool,
    mica: bool,
) -> Seq<AccentCall>
    decreases bars.len(),
{
    if bars.len() == 0 {
        Seq::empty()
    } else {
        bar_calls(bars.drop_last(), backdrop, dark, mica) + (if bars.last() == 0 {
            Seq::<AccentCall>::empty()
        } else if backdrop.mode == TaskbarMode::Normal {
            reset_calls(bars.last())
        } else {
            apply_calls(bars.last(), backdrop, dark, mica)
        })
    }
}

/// The windows that are recorded once a backdrop was put on some more.
pub open spec fn recorded(touched: Seq<isize>, bars: Seq<isize>) -> Seq<isize>
    decreases bars.len(),
{
    if bars.len() == 0 {
        touched
    } else {
        let before = recorded(touched, bars.drop_last());
        if bars.last() == 0 || before.contains(bars.last()) {
            before
        } else {
            before.push(bars.last())
        }
    }
}

/// Is the request made of a shell that ignores it?
pub open spec fn ignored(mode: TaskbarMode, build: Option<u32>) -> bool {
    mode != TaskbarMode::Normal && (match build {
        Some(build) => build >= XAML_TASKBAR_BUILD,
        None => true,
    })
}

/// What is decided at a moment, and whether the taskbars are left alone.
fn decide(desired: &Desired, around: &Surroundings) -> (r: (Applied, bool))
    requires
        desired.opacity.wf(),
    ensures
        r.0 == decided(*desired, *around),
        r.1 == resolved(*desired, *around).2,
{
    let count: usize = if desired.apply_secondary || around.bars.len() == 0 {
        around.bars.len()
    } else {
        1
    };
    assert(count == worked_on(around.bars@, desired.apply_secondary).len());
    let geometry: Option<ScreenRect> = if count > 0 {
        around.geometry
    } else {
        None
    };
    let (mode, state, skip) = effective(desired, around);
    let backdrop: Backdrop = Backdrop::new(mode, desired.color, desired.opacity);
    (Applied { backdrop, state, geometry, bars: count }, skip)
}

impl Pump {
    pub open spec fn wf(&self) -> bool {
        self.applicator.wf()
    }

    pub fn new() -> (r: Pump)
        ensures
            r.wf(),
            r.last is None,
            r.applicator.touched@ == Seq::<isize>::empty(),
            r.mica is None,
            !r.warned,
    {
        Pump { last: None, applicator: AccentApplicator::new(), mica: None, warned: false }
    }

    /// Does an evaluation have to know whether the material is honoured? Only the first one
    /// that changes something and puts it on the taskbars.
    pub fn needs_mica(&self, desired: &Desired, around: &Surroundings) -> (r: bool)
        requires
            desired.opacity.wf(),
        ensures
            r == (self.mica is None && self.last != Some(decided(*desired, *around)) && !resolved(
                *desired,
                *around,
            ).2),
    {
        if self.mica.is_some() {
            return false;
        }
        let (applied, skip) = decide(desired, around);
        match self.last {
            Some(last) => !skip && last != applied,
            None => !skip,
        }
    }

    /// Recompute what the taskbars should look like, and what has to be done about it.
    pub fn evaluate_and_apply(
        &mut self,
        desired: &Desired,
        dark: bool,
        around: &Surroundings,
    ) -> (r: Evaluation)
        requires
            old(self).wf(),
            desired.opacity.wf(),
            around.touched_exist@.len() == old(self).applicator.touched@.len(),
            around.bars@.len() <= u32::MAX,
        ensures
            final(self).wf(),
            ({
                let applied = decided(*desired, *around);
                let (mode, state, skip) = resolved(*desired, *around);
                let bars = worked_on(around.bars@, desired.apply_secondary);
                let asked = if old(self).mica is Some {
                    old(self).mica->0
                } else {
                    bars.len() > 0 && around.mica
                };
                let left = kept(old(self).applicator.touched@, around.touched_exist@);
                if old(self).last == Some(applied) {
                    &&& final(self).last == old(self).last
                    &&& final(self).applicator.touched@ == old(self).applicator.touched@
                    &&& final(self).mica == old(self).mica
                    &&& final(self).warned == old(self).warned
                    &&& r.calls@ == Seq::<AccentCall>::empty()
                    &&& r.publish is None
                    &&& !r.warn
                } else {
                    &&& final(self).last == Some(applied)
                    &&& final(self).mica == (if skip {
                        old(self).mica
                    } else {
                        Some(asked)
                    })
                    &&& final(self).applicator.touched@ == (if skip {
                        old(self).applicator.touched@
                    } else if mode == TaskbarMode::Normal {
                        left
                    } else {
                        recorded(left, bars)
                    })
                    &&& r.calls@ == (if skip {
                        Seq::<AccentCall>::empty()
                    } else {
                        bar_calls(bars, applied.backdrop, dark, asked)
                    })
                    &&& r.publish == Some(
                        TaskbarState {
                            state,
                            mode,
                            secondary_bars: if bars.len() == 0 {
                                0
                            } else {
                                (bars.len() - 1) as u32
                            },
                            rect: applied.geometry,
                            autohide: around.autohide,
                            shell_managed: match around.build {
                                Some(build) => build >= XAML_TASKBAR_BUILD,
                                None => true,
                            },
                        },
                    )
                    &&& r.warn == (ignored(mode, around.build) && !old(self).warned)
                    &&& final(self).warned == (old(self).warned || ignored(mode, around.build))
                }
            }),
    {
        let count: usize = if desired.apply_secondary || around.bars.len() == 0 {
            around.bars.len()
        } else {
            1
        };
        let ghost bars = worked_on(around.bars@, desired.apply_secondary);
        assert(bars =~= around.bars@.take(count as int));
        let (applied, skip) = decide(desired, around);
        let geometry: Option<ScreenRect> = applied.geometry;
        let backdrop: Backdrop = applied.backdrop;
        let mode: TaskbarMode = backdrop.mode;
        let state: TaskbarVisualState = applied.state;

        let unchanged: bool = match self.last {
            Some(last) => last == applied,
            None => false,
        };
        if unchanged {
            return Evaluation { calls: Vec::new(), publish: None, warn: false };
        }
        let mut calls: Vec<AccentCall> = Vec::new();
        if !skip {
            let mica: bool = match self.mica {
                Some(known) => known,
                None => count > 0 && around.mica,
            };
            self.mica = Some(mica);
            self.applicator.prune(&around.touched_exist);
            let ghost left = self.applicator.touched@;
            let normal: bool = match mode {
                TaskbarMode::Normal => true,
                _ => false,
            };
            let mut i: usize = 0;
            assert(bars.take(0) =~= Seq::<isize>::empty());
            while i < count
                invariant
                    0 <= i <= count,
                    count <= around.bars@.len(),
                    bars == around.bars@.take(count as int),
                    self.applicator.wf(),
                    normal == (mode == TaskbarMode::Normal),
                    backdrop.mode == mode,
                    calls@ == bar_calls(bars.take(i as int), backdrop, dark, mica),
                    self.applicator.touched@ == (if normal {
                        left
                    } else {
                        recorded(left, bars.take(i as int))
                    }),
                    self.last == old(self).last,
                    self.mica == Some(mica),
                    self.warned == old(self).warned,
                decreases count - i,
            {
                let bar: isize = around.bars[i];
                proof {
                    let next = bars.take(i + 1);
                    assert(next.drop_last() =~= bars.take(i as int));
                    assert(next.last() == bar);
                }
                let mut more: Vec<AccentCall> = if normal {
                    self.applicator.reset(bar)
                } else {
                    self.applicator.apply(bar, &backdrop, dark, mica)
                };
                calls.append(&mut more);
                i = i + 1;
            }
            assert(bars.take(i as int) =~= bars);
        }
        self.last = Some(applied);
        let shell_managed: bool = taskbar_ignores_composition_requests(around.build);
        let warn: bool = self.warn_if_ignored(mode, around.build);
        let publish: TaskbarState = TaskbarState {
            state,
            mode,
            secondary_bars: if count == 0 {
                0
            } else {
                (count - 1) as u32
            },
            rect: geometry,
            autohide: around.autohide,
            shell_managed,
        };
        Evaluation { calls, publish: Some(publish), warn }
    }

    /// Say once, in the log, that the shell ignores the request.
    fn warn_if_ignored(&mut self, mode: TaskbarMode, build: Option<u32>) -> (r: bool)
        ensures
            r == (ignored(mode, build) && !old(self).warned),
            final(self).warned == (old(self).warned || ignored(mode, build)),
            final(self).last == old(self).last,
            final(self).applicator == old(self).applicator,
            final(self).mica == old(self).mica,
    {
        let normal: bool = match mode {
            TaskbarMode::Normal => true,
            _ => false,
        };
        if normal || !taskbar_ignores_composition_requests(build) {
            return false;
        }
        if self.warned {
            return false;
        }
        self.warned = true;
        true
    }

    /// What a message to the hidden window makes the thread do. `pumping` says whether
    /// the thread is up. A request to look again drops what was decided last.
    pub fn wndproc(&mut self, message: u32, wparam: usize, pumping: bool) -> (r: PumpAction)
        ensures
            r == pump_action(message, wparam, pumping),
            final(self).last == (if message == WM_APP_REAPPLY && pumping {
                None
            } else {
                old(self).last
            }),
            final(self).applicator == old(self).applicator,
            final(self).mica == old(self).mica,
            final(self).warned == old(self).warned,
    {
        if message == WM_NCCREATE {
            PumpAction::Created
        } else if message == WM_TIMER {
            if !pumping {
                PumpAction::Nothing
            } else if wparam == TIMER_DEBOUNCE {
                PumpAction::EvaluateAfterDebounce
            } else if wparam == TIMER_SAFETY {
                PumpAction::Evaluate
            } else {
                PumpAction::Nothing
            }
        } else if message == WM_APP_REAPPLY {
            if pumping {
                self.last = None;
                PumpAction::Evaluate
            } else {
                PumpAction::Nothing
            }
        } else if message == WM_APP_SHUTDOWN || message == WM_CLOSE {
            PumpAction::Quit
        } else {
            PumpAction::Default
        }
    }

    /// Leave the loop: the calls that hand the taskbars back, unless the user asked to
    /// keep the effect. What was decided is dropped, as a restart evaluates from
    /// scratch.
    pub fn shut_down(&mut self, restore_on_exit: bool) -> (calls: Vec<AccentCall>)
        requires
            old(self).wf(),
        ensures
            final(self).wf(),
            final(self).last is None,
            final(self).mica == old(self).mica,
            final(self).warned == old(self).warned,
            calls@ == (if restore_on_exit {
                crate::taskbar::accent::resets(old(self).applicator.touched@)
            } else {
                Seq::<AccentCall>::empty()
            }),
            final(self).applicator.touched@ == (if restore_on_exit {
                Seq::<isize>::empty()
            } else {
                old(self).applicator.touched@
            }),
    {
        self.last = None;
        if restore_on_exit {
            self.applicator.reset_all()
        } else {
            Vec::new()
        }
    }
}

/// [`resolved`].
fn effective(desired: &Desired, around: &Surroundings) -> (r: (
    TaskbarMode,
    TaskbarVisualState,
    bool,
))
    ensures
        r == resolved(*desired, *around),
{
    let monitor: ScreenRect = match around.monitor {
        Some(rect) if around.bars.len() > 0 => rect,
        _ => ScreenRect { left: 0, top: 0, right: 0, bottom: 0 },
    };
    assert(monitor == monitor_of(*around));
    if !desired.enabled {
        return (TaskbarMode::Normal, TaskbarVisualState::Disabled, false);
    }
    if desired.hide_on_fullscreen && !monitor.is_empty() && is_fullscreen_foreground(
        &monitor,
        &around.foreground,
    ) {
        return (TaskbarMode::Normal, TaskbarVisualState::Fullscreen, false);
    }
    let retracted: bool = match around.geometry {
        Some(rect) => around.bars.len() > 0 && rect.top >= monitor.bottom,
        None => false,
    };
    if around.autohide && retracted {
        return (desired.mode, TaskbarVisualState::Hidden, true);
    }
    if desired.dynamic_mode && !monitor.is_empty() && any_maximized_on(&monitor, &around.windows) {
        proof {
            let i = choose|i: int|
                0 <= i < around.windows@.len() && #[trigger] maximized_on(
                    around.windows@[i],
                    monitor,
                );
            assert(maximized_on(around.windows@[i], monitor_of(*around)));
        }
        return (desired.dynamic_override, TaskbarVisualState::Dynamic, false);
    }
    (desired.mode, TaskbarVisualState::Applied, false)
}

/// What a message makes the thread do.
#[derive(Clone, Copy, Debug, PartialEq, Eq, Structural)]
pub enum PumpAction {
    /// Mark the window as ours and let its creation go on.
    Created,
    Nothing,
    Evaluate,
    /// Stop the debounce timer, and evaluate.
    EvaluateAfterDebounce,
    Quit,
    /// Leave the message to the system.
    Default,
}

pub open spec fn pump_action(message: u32, wparam: usize, pumping: bool) -> PumpAction {
    if message == WM_NCCREATE {
        PumpAction::Created
    } else if message == WM_TIMER && pumping && wparam == TIMER_DEBOUNCE {
        PumpAction::EvaluateAfterDebounce
    } else if message == WM_TIMER && pumping && wparam == TIMER_SAFETY {
        PumpAction::Evaluate
    } else if message == WM_APP_REAPPLY && pumping {
        PumpAction::Evaluate
    } else if message == WM_TIMER || message == WM_APP_REAPPLY {
        PumpAction::Nothing
    } else if message == WM_APP_SHUTDOWN || message == WM_CLOSE {
        PumpAction::Quit
    } else {
        PumpAction::Default
    }
}

/// What a window event makes the thread do.
#[derive(Clone, Copy, Debug, PartialEq, Eq, Structural)]
pub enum EventAction {
    Nothing,
    /// Stop the debounce timer, and evaluate.
    Evaluate,
    /// Start the debounce timer over.
    ArmDebounce,
}

/// Only events of a window itself count, which drops the torrent of cursor and
/// child-object notifications. A change of the foreground is decisive enough to act on
/// at once; a mere move only arms the debounce.
pub fn win_event_proc(event: u32, id_object: i32, id_child: i32, pumping: bool) -> (r: EventAction)
    ensures
        r == (if id_object != 0 || id_child != 0 || !pumping {
            EventAction::Nothing
        } else if event == EVENT_SYSTEM_FOREGROUND || event == EVENT_SYSTEM_MINIMIZESTART || event
            == EVENT_SYSTEM_MINIMIZEEND {
            EventAction::Evaluate
        } else {
            EventAction::ArmDebounce
        }),
{
    if id_object != 0 || id_child != 0 || !pumping {
        return EventAction::Nothing;
    }
    if event == EVENT_SYSTEM_FOREGROUND || event == EVENT_SYSTEM_MINIMIZESTART || event
        == EVENT_SYSTEM_MINIMIZEEND {
        EventAction::Evaluate
    } else {
        EventAction::ArmDebounce
    }
}

/// The module as the application sees it.
pub struct TaskbarModule {
    pub desired: Desired,
    /// The hidden window of the thread; zero while there is none.
    pub pump_window: isize,
    pub dark_theme: bool,
    /// Set once the thread has finished its teardown.
    pub stopped: bool,
    /// Was a thread started that was not joined yet?
    pub started: bool,
}

impl TaskbarModule {
    pub fn new(defaults: &TaskbarConfig) -> (r: TaskbarModule)
        ensures
            r.desired == (Desired { enabled: false, ..Desired::asked(*defaults) }),
            r.pump_window == 0,
            r.dark_theme,
            !r.stopped,
            !r.started,
    {
        TaskbarModule {
            desired: Desired::idle(defaults),
            pump_window: 0,
            dark_theme: true,
            stopped: false,
            started: false,
        }
    }

    /// Where the message goes that makes the thread look again: nowhere while it has no
    /// window.
    pub open spec fn poke(self) -> Option<isize> {
        if self.pump_window != 0 {
            Some(self.pump_window)
        } else {
            None
        }
    }

    fn post(&self) -> (r: Option<isize>)
        ensures
            r == self.poke(),
    {
        if self.pump_window != 0 {
            Some(self.pump_window)
        } else {
            None
        }
    }

    /// The current taskbar rectangle, for the widget bar to position against.
    pub fn taskbar_rect(primary: Option<isize>, rect: Option<ScreenRect>) -> (r: Option<ScreenRect>)
        ensures
            r == (if crate::taskbar::shell::found_window(primary) is Some {
                rect
            } else {
                None
            }),
    {
        match crate::taskbar::shell::primary_taskbar(primary) {
            Some(_) => rect,
            None => None,
        }
    }

    /// Windows switched between light and dark. The window to tell, if there is one.
    pub fn set_dark_theme(&mut self, dark: bool) -> (r: Option<isize>)
        ensures
            *final(self) == (TaskbarModule { dark_theme: dark, ..*old(self) }),
            r == old(self).poke(),
    {
        self.dark_theme = dark;
        self.post()
    }

    /// Is the thread up, with the accent being managed?
    pub fn is_running(&self) -> (r: bool)
        ensures
            r == (self.pump_window != 0),
    {
        self.pump_window != 0
    }

    pub fn is_enabled(config: &TaskbarConfig) -> (r: bool)
        ensures
            r == config.enabled,
    {
        config.enabled
    }

    /// Start, unless a thread is there already. `true` when a thread has to be spawned.
    pub fn start(&mut self, config: &TaskbarConfig) -> (r: bool)
        ensures
            r == !old(self).started,
            *final(self) == (if old(self).started {
                *old(self)
            } else {
                TaskbarModule {
                    desired: Desired::asked(*config),
                    stopped: false,
                    started: true,
                    ..*old(self)
                }
            }),
    {
        if self.started {
            return false;
        }
        self.desired = Desired::from_config(config);
        self.stopped = false;
        self.started = true;
        true
    }

    /// The spawn failed: nothing was started.
    pub fn spawn_failed(&mut self)
        ensures
            *final(self) == (TaskbarModule { started: false, ..*old(self) }),
    {
        self.started = false;
    }

    /// Take a new configuration. The window to tell, when it asks for something else
    /// than before and there is one.
    pub fn apply(&mut self, config: &TaskbarConfig) -> (r: Option<isize>)
        ensures
            *final(self) == (TaskbarModule { desired: Desired::asked(*config), ..*old(self) }),
            r == (if old(self).desired == Desired::asked(*config) {
                None
            } else {
                old(self).poke()
            }),
    {
        let next: Desired = Desired::from_config(config);
        let changed: bool = self.desired != next;
        self.desired = next;
        if changed {
            self.post()
        } else {
            None
        }
    }

    /// Stop. `None` when there is no thread to join; otherwise the window to tell, if it
    /// has one.
    pub fn stop(&mut self) -> (r: Option<Option<isize>>)
        ensures
            *final(self) == (TaskbarModule { started: false, ..*old(self) }),
            r == (if old(self).started {
                Some(old(self).poke())
            } else {
                None
            }),
    {
        if !self.started {
            return None;
        }
        self.started = false;
        Some(self.post())
    }

    /// The thread has its window.
    pub fn pump_ready(&mut self, window: isize)
        ensures
            *final(self) == (TaskbarModule { pump_window: window, ..*old(self) }),
    {
        self.pump_window = window;
    }

    /// The thread finished its teardown.
    pub fn pump_stopped(&mut self)
        ensures
            *final(self) == (TaskbarModule { pump_window: 0, stopped: true, ..*old(self) }),
    {
        self.pump_window = 0;
        self.stopped = true;
    }
}

/// An evaluation that finds what the last one found does nothing, says nothing and
/// changes nothing. So the safety timer costs no call on a quiet desktop.
pub proof fn a_quiet_desktop_is_left_alone(desired: Desired, around: Surroundings, later: Surroundings)
    requires
        around.bars@ == later.bars@,
        around.geometry == later.geometry,
        resolved(desired, around) == resolved(desired, later),
    ensures
        decided(desired, around) == decided(desired, later),
{
}

/// A taskbar that is switched off, or under a fullscreen application that it is to make
/// room for, is always handed back to Windows.
pub proof fn a_suspended_taskbar_is_handed_back(desired: Desired, around: Surroundings)
    requires
        !desired.enabled || (desired.hide_on_fullscreen && !monitor_of(around).empty()
            && around.foreground is Some && fullscreen(around.foreground->0, monitor_of(around))),
    ensures
        resolved(desired, around).0 == TaskbarMode::Normal,
        !resolved(desired, around).2,
{
}

/// A retracted taskbar is left alone: nothing flashes when it slides back out.
pub proof fn a_retracted_taskbar_is_left_alone(desired: Desired, around: Surroundings)
    requires
        resolved(desired, around).1 == TaskbarVisualState::Hidden,
    ensures
        resolved(desired, around).2,
{
}

/// Every window that got a backdrop is recorded, so that it will be handed back.
pub proof fn every_painted_bar_is_recorded(touched: Seq<isize>, bars: Seq<isize>)
    ensures
        forall|i: int|
            0 <= i < bars.len() && bars[i] != 0 ==> recorded(touched, bars).contains(
                #[trigger] bars[i],
            ),
        forall|w: isize| touched.contains(w) ==> #[trigger] recorded(touched, bars).contains(w),
    decreases bars.len(),
{
    if bars.len() > 0 {
        let before = bars.drop_last();
        every_painted_bar_is_recorded(touched, before);
        let old_record = recorded(touched, before);
        let record = recorded(touched, bars);
        assert forall|w: isize| old_record.contains(w) implies #[trigger] record.contains(w) by {
            let k = choose|k: int| 0 <= k < old_record.len() && old_record[k] == w;
            assert(record[k] == w);
        }
        assert forall|i: int| 0 <= i < bars.len() && bars[i] != 0 implies record.contains(
            #[trigger] bars[i],
        ) by {
            if i < before.len() {
                assert(before[i] == bars[i]);
                assert(old_record.contains(before[i]));
            } else if !old_record.contains(bars[i]) {
                assert(record[record.len() - 1] == bars[i]);
            }
        }
    }
}

/// Does the window in front cover every pixel of the monitor, by its visible frame, or by its
/// outline where the frame cannot be read?
pub open spec fn covered_by(window: Foreground, monitor: ScreenRect) -> bool {
    let bounds = match window.frame {
        Some(rect) => Some(rect),
        None => window.outline,
    };
    bounds matches Some(rect) && rect.left <= monitor.left && rect.top <= monitor.top && rect.right
        >= monitor.right && rect.bottom >= monitor.bottom
}

/// The taskbar gets the mode that was chosen unless something overrides it. Switched off, it is
/// normal. Under a real application that covers the monitor it is normal, where that guard is
/// on. With a window maximised on its monitor it has the mode for that, where the dynamic mode
/// is on. While it has slid out of sight it is left alone. With no guard on, nothing that
/// happens on the desktop changes the mode.
#[verifier::spinoff_prover]
pub proof fn the_chosen_mode_is_in_effect(desired: Desired, around: Surroundings, i: int)
    requires
        around.bars@.len() > 0,
        around.monitor is Some,
        around.monitor->0.left < around.monitor->0.right,
        around.monitor->0.top < around.monitor->0.bottom,
    ensures
        ({
            let monitor = around.monitor->0;
            let (mode, state, skip) = resolved(desired, around);
            let covered = around.foreground matches Some(window) && covered_by(window, monitor)
                && !window.iconic && !shell_class(lowered(window.class@));
            let retracted = around.autohide && (around.geometry matches Some(rect) && rect.top
                >= monitor.bottom);
            &&& !desired.enabled ==> mode == TaskbarMode::Normal && state
                == TaskbarVisualState::Disabled && !skip
            &&& desired.enabled && desired.hide_on_fullscreen && covered ==> mode
                == TaskbarMode::Normal && state == TaskbarVisualState::Fullscreen && !skip
            &&& desired.enabled && !(desired.hide_on_fullscreen && covered) && retracted ==> skip
                && state == TaskbarVisualState::Hidden && mode == desired.mode
            &&& desired.enabled && !(desired.hide_on_fullscreen && covered) && !retracted
                && desired.dynamic_mode && 0 <= i < around.windows@.len() && maximized_on(
                around.windows@[i],
                monitor,
            ) ==> mode == desired.dynamic_override && state == TaskbarVisualState::Dynamic && !skip
            &&& desired.enabled && !desired.hide_on_fullscreen && !desired.dynamic_mode
                && !around.autohide ==> mode == desired.mode && state
                == TaskbarVisualState::Applied && !skip
            &&& desired.enabled && !covered && !retracted && (forall|k: int|
                0 <= k < around.windows@.len() ==> !#[trigger] maximized_on(
                    around.windows@[k],
                    monitor,
                )) ==> mode == desired.mode && state == TaskbarVisualState::Applied && !skip
            &&& skip ==> retracted && desired.enabled
        }),
{
    if around.foreground is Some {
        let window = around.foreground->0;
        assert(fullscreen(window, around.monitor->0) == (covered_by(window, around.monitor->0)
            && !window.iconic && !shell_class(lowered(window.class@))));
    }
}

/// What is decided keeps the colour that was asked for, and the share of 255 that the opacity
/// is; it is for every taskbar, or for the first one alone.
pub proof fn a_decision_keeps_what_was_asked(desired: Desired, around: Surroundings)
    requires
        desired.opacity.wf(),
        around.bars@.len() <= usize::MAX,
    ensures
        ({
            let applied = decided(desired, around);
            let (n, d) = (desired.opacity.numerator as int, desired.opacity.denominator as int);
            &&& applied.backdrop.color == desired.color
            &&& applied.backdrop.mode == resolved(desired, around).0
            &&& applied.state == resolved(desired, around).1
            &&& n >= d ==> applied.backdrop.alpha == 255
            &&& n < d ==> -d < 2 * (applied.backdrop.alpha * d - 255 * n) <= d
            &&& applied.bars == worked_on(around.bars@, desired.apply_secondary).len()
            &&& desired.apply_secondary ==> applied.bars == around.bars@.len()
            &&& !desired.apply_secondary && around.bars@.len() > 0 ==> applied.bars == 1
            &&& around.bars@.len() > 0 ==> applied.geometry == around.geometry
        }),
{
    alpha_is_the_share_of_255(desired.opacity, desired.opacity);
}

/// Without the other monitors only the primary taskbar, which is the first, is worked on.
pub proof fn the_primary_taskbar_comes_first(bars: Seq<isize>)
    ensures
        worked_on(bars, true) == bars,
        bars.len() > 0 ==> worked_on(bars, false) == seq![bars[0]],
        bars.len() == 0 ==> worked_on(bars, false).len() == 0,
{
    if bars.len() > 0 {
        assert(worked_on(bars, false) =~= seq![bars[0]]);
    }
}

/// Is the call on one of the bars, with this accent where it is one and this dark mode where it
/// is that?
pub open spec fn is_call_on(call: AccentCall, bars: Seq<isize>, accent: AccentPolicy, dark: bool) -> bool {
    match call {
        AccentCall::Accent(window, policy) => bars.contains(window) && policy == accent,
        AccentCall::DarkColors(window, value) => bars.contains(window) && value == dark,
        AccentCall::ImmersiveDark(window, value) => bars.contains(window) && value == dark,
        AccentCall::SystemBackdrop(window, material) => bars.contains(window),
    }
}

/// The accent that a backdrop ends up as: that of its mode, or none.
pub open spec fn accent_of(backdrop: Backdrop, mica: bool) -> AccentPolicy {
    match backdrop.policy(mica) {
        Some(policy) => policy,
        None => AccentPolicy {
            accent_state: 0,
            accent_flags: 0,
            gradient_color: 0,
            animation_id: 0,
        },
    }
}

/// Every taskbar that is worked on ends up with the accent of the mode, or, in the normal
/// mode, with none: that call is among the calls. No other window is called on, and no other
/// accent is put on any.
#[verifier::spinoff_prover]
pub proof fn every_bar_gets_the_accent(
    bars: Seq<isize>,
    backdrop: Backdrop,
    dark: bool,
    mica: bool,
)
    ensures
        forall|i: int|
            0 <= i < bars.len() && bars[i] != 0 ==> bar_calls(bars, backdrop, dark, mica).contains(
                AccentCall::Accent(#[trigger] bars[i], accent_of(backdrop, mica)),
            ),
        forall|k: int|
            0 <= k < bar_calls(bars, backdrop, dark, mica).len() ==> is_call_on(
                #[trigger] bar_calls(bars, backdrop, dark, mica)[k],
                bars,
                accent_of(backdrop, mica),
                dark,
            ),
    decreases bars.len(),
{
    let calls = bar_calls(bars, backdrop, dark, mica);
    let accent = accent_of(backdrop, mica);
    if bars.len() > 0 {
        let before = bars.drop_last();
        let head = bar_calls(before, backdrop, dark, mica);
        let last = bars.last();
        let tail = calls_on(last, backdrop, dark, mica);
        every_bar_gets_the_accent(before, backdrop, dark, mica);
        lemma_calls_on(last, backdrop, dark, mica);
        assert(calls == head + tail);
        assert(bars[bars.len() - 1] == last);
        assert forall|i: int| 0 <= i < bars.len() && bars[i] != 0 implies calls.contains(
            AccentCall::Accent(#[trigger] bars[i], accent),
        ) by {
            if i < before.len() {
                assert(before[i] == bars[i]);
                let call = AccentCall::Accent(bars[i], accent);
                assert(head.contains(call));
                let k = head.index_of(call);
                assert(calls[k] == call);
            } else {
                assert(calls[calls.len() - 1] == tail.last());
            }
        }
        assert forall|k: int| 0 <= k < calls.len() implies is_call_on(
            #[trigger] calls[k],
            bars,
            accent,
            dark,
        ) by {
            if k < head.len() {
                assert(calls[k] == head[k]);
                lemma_more_bars(head[k], before, last, accent, dark);
                assert(before.push(last) =~= bars);
            } else {
                assert(calls[k] == tail[k - head.len()]);
                lemma_own_bar(tail[k - head.len()], last, bars, accent, dark);
            }
        }
    }
}

spec fn calls_on(bar: isize, backdrop: Backdrop, dark: bool, mica: bool) -> Seq<AccentCall> {
    if bar == 0 {
        Seq::<AccentCall>::empty()
    } else if backdrop.mode == TaskbarMode::Normal {
        reset_calls(bar)
    } else {
        apply_calls(bar, backdrop, dark, mica)
    }
}

proof fn lemma_calls_on(bar: isize, backdrop: Backdrop, dark: bool, mica: bool)
    ensures
        ({
            let calls = calls_on(bar, backdrop, dark, mica);
            let accent = accent_of(backdrop, mica);
            &&& bar != 0 ==> calls.len() > 0 && calls.last() == AccentCall::Accent(bar, accent)
            &&& forall|k: int|
                0 <= k < calls.len() ==> is_call_on(#[trigger] calls[k], seq![bar], accent, dark)
        }),
{
    each_mode_asks_for_its_namesake(backdrop.color, backdrop.alpha, mica);
    assert(seq![bar][0] == bar);
}

proof fn lemma_more_bars(
    call: AccentCall,
    bars: Seq<isize>,
    bar: isize,
    accent: AccentPolicy,
    dark: bool,
)
    requires
        is_call_on(call, bars, accent, dark),
    ensures
        is_call_on(call, bars.push(bar), accent, dark),
{
    assert forall|w: isize| bars.contains(w) implies bars.push(bar).contains(w) by {
        let j = bars.index_of(w);
        assert(bars.push(bar)[j] == w);
    }
}

proof fn lemma_own_bar(
    call: AccentCall,
    bar: isize,
    bars: Seq<isize>,
    accent: AccentPolicy,
    dark: bool,
)
    requires
        is_call_on(call, seq![bar], accent, dark),
        bars.contains(bar),
    ensures
        is_call_on(call, bars, accent, dark),
{
    assert forall|w: isize| seq![bar].contains(w) implies w == bar by {}
}

/// The shell is said to ignore a request from build 22621 on, or when the build is not known;
/// the normal mode requests nothing.
pub proof fn a_newer_shell_ignores_requests(mode: TaskbarMode, build: u32)
    ensures
        ignored(mode, Some(build)) <==> mode != TaskbarMode::Normal && build >= 22_621,
        ignored(mode, None) <==> mode != TaskbarMode::Normal,
{
}

/// The timers and the request to look again make a running thread evaluate; the requests to
/// close and to shut down end it, running or not. Every other message is the system's.
pub proof fn each_message_drives_the_thread(message: u32, wparam: usize, pumping: bool)
    ensures
        ({
            let action = pump_action(message, wparam, pumping);
            &&& message == 0x0113 && pumping && wparam == 1 ==> action
                == PumpAction::EvaluateAfterDebounce
            &&& message == 0x0113 && pumping && wparam == 2 ==> action == PumpAction::Evaluate
            &&& message == 0x8001 && pumping ==> action == PumpAction::Evaluate
            &&& message == 0x8002 || message == 0x0010 ==> action == PumpAction::Quit
            &&& message == 0x0081 ==> action == PumpAction::Created
            &&& (message == 0x0113 || message == 0x8001) && !pumping ==> action
                == PumpAction::Nothing
            &&& message == 0x0113 && wparam != 1 && wparam != 2 ==> action == PumpAction::Nothing
            &&& message != 0x0113 && message != 0x8001 && message != 0x8002 && message != 0x0010
                && message != 0x0081 ==> action == PumpAction::Default
        }),
{
}

/// What a configuration asks for is what it says, setting by setting.
pub proof fn every_setting_is_asked_for(config: TaskbarConfig)
    ensures
        ({
            let desired = Desired::asked(config);
            &&& desired.enabled == config.enabled
            &&& desired.mode == config.mode
            &&& desired.color == config.color
            &&& desired.opacity == config.opacity
            &&& desired.apply_secondary == config.apply_to_secondary
            &&& desired.dynamic_mode == config.dynamic_mode
            &&& desired.dynamic_override == config.dynamic_mode_override
            &&& desired.hide_on_fullscreen == config.hide_on_fullscreen
            &&& desired.restore_on_exit == config.restore_on_exit
        }),
{
}

/// A window is recorded once, and only if it was recorded before or was one of the bars.
pub proof fn nothing_else_is_recorded(touched: Seq<isize>, bars: Seq<isize>)
    requires
        touched.no_duplicates(),
    ensures
        recorded(touched, bars).no_duplicates(),
        forall|w: isize| #[trigger]
            recorded(touched, bars).contains(w) ==> touched.contains(w) || (w != 0
                && bars.contains(w)),
    decreases bars.len(),
{
    if bars.len() > 0 {
        let before = bars.drop_last();
        nothing_else_is_recorded(touched, before);
        let earlier = recorded(touched, before);
        let record = recorded(touched, bars);
        assert forall|w: isize| before.contains(w) implies bars.contains(w) by {
            let j = before.index_of(w);
            assert(bars[j] == w);
        }
        assert(bars[bars.len() - 1] == bars.last());
        assert forall|w: isize| #[trigger] record.contains(w) implies touched.contains(w) || (w != 0
            && bars.contains(w)) by {
            let k = record.index_of(w);
            if k < earlier.len() {
                assert(earlier[k] == w);
                assert(earlier.contains(w));
            }
        }
        assert forall|i: int, j: int| 0 <= i < record.len() && 0 <= j < record.len() && i
            != j implies record[i] != record[j] by {
            if i < earlier.len() {
                assert(earlier.contains(record[i]));
            }
            if j < earlier.len() {
                assert(earlier.contains(record[j]));
            }
        }
    }
}

/// What was recorded before stays recorded, in its place.
pub proof fn a_record_only_grows(touched: Seq<isize>, bars: Seq<isize>)
    ensures
        recorded(touched, bars).len() >= touched.len(),
        recorded(touched, bars).take(touched.len() as int) == touched,
    decreases bars.len(),
{
    if bars.len() > 0 {
        a_record_only_grows(touched, bars.drop_last());
        let before = recorded(touched, bars.drop_last());
        assert(recorded(touched, bars).take(touched.len() as int) =~= before.take(
            touched.len() as int,
        ));
    } else {
        assert(touched.take(touched.len() as int) =~= touched);
    }
}

/// A thread is told through its window, and one without a window is not.
pub proof fn a_thread_is_told_through_its_window(module: TaskbarModule)
    ensures
        module.pump_window != 0 ==> module.poke() == Some(module.pump_window),
        module.pump_window == 0 ==> module.poke() is None,
{
}

/// A move of a window is acted on once nothing has moved for a hundred and twenty milliseconds,
/// and every three seconds the shell is looked at in any case. A change of what is in front, and
/// a window that is minimised or comes back, are acted on at once.
pub proof fn the_thread_keeps_its_times()
    ensures
        DEBOUNCE_MS == 120,
        SAFETY_MS == 3000,
        TIMER_DEBOUNCE != TIMER_SAFETY,
        EVENT_SYSTEM_FOREGROUND == 3,
        EVENT_SYSTEM_MINIMIZESTART == 22,
        EVENT_SYSTEM_MINIMIZEEND == 23,
{
}

/// Where there is no taskbar, or its monitor is not known, no window can override the mode that
/// was chosen.
pub proof fn without_a_monitor_nothing_overrides(desired: Desired, around: Surroundings)
    requires
        around.bars@.len() == 0 || around.monitor is None,
    ensures
        resolved(desired, around).1 != TaskbarVisualState::Fullscreen,
        resolved(desired, around).1 != TaskbarVisualState::Dynamic,
        desired.enabled ==> resolved(desired, around).0 == desired.mode,
        !desired.enabled ==> resolved(desired, around).0 == TaskbarMode::Normal,
{
}

} // verus!
