//! Painting the taskbar from outside the shell.

use winbeautify::color::Rgb;
use winbeautify::config::{TaskbarConfig, TaskbarMode};
use winbeautify::geometry::ScreenRect;
use winbeautify::number::Factor;
use winbeautify::taskbar::accent::{
    AccentApplicator, AccentCall, Backdrop, DWMSBT_MAINWINDOW, DWMSBT_NONE,
};
use winbeautify::taskbar::accent_state;
use winbeautify::taskbar::ffi::{available, pack_gradient, AccentPolicy};
use winbeautify::taskbar::inject::{
    find_channel, inject, send, InjectError, Stage, StepOutcome, WAIT_TIMEOUT,
};
use winbeautify::taskbar::shell::{
    any_maximized_on, extended_frame_bounds, has_style, is_autohide_enabled, is_candidate_window,
    is_cloaked, is_fullscreen_foreground, is_shell_class, monitor_rect_of, primary_taskbar,
    work_area_of, Foreground, MonitorInfo, Probe, TaskbarSearch, WS_EX_TOOLWINDOW,
};
use winbeautify::taskbar::theme::{apps_use_light_theme, cached, read_apps_use_light_theme};
use winbeautify::taskbar::winver::{build_number, taskbar_ignores_composition_requests};
use winbeautify::taskbar::{
    win_event_proc, Desired, EventAction, Pump, PumpAction, Surroundings, TaskbarModule,
    TaskbarVisualState, EVENT_SYSTEM_FOREGROUND, TIMER_DEBOUNCE, TIMER_SAFETY, WM_APP_REAPPLY,
    WM_APP_SHUTDOWN, WM_CLOSE, WM_NCCREATE, WM_TIMER,
};

/// An opacity, in hundredths.
fn share(hundredths: u32) -> Factor {
    Factor { numerator: hundredths, denominator: 100 }
}

fn backdrop(mode: TaskbarMode, opacity: Factor) -> Backdrop {
    Backdrop::new(mode, Rgb::rgb(0x10, 0x20, 0x30), opacity)
}

#[test]
fn normal_mode_requests_no_accent() {
    assert!(backdrop(TaskbarMode::Normal, share(100)).to_accent_policy(true).is_none());
}

#[test]
fn opaque_mode_forces_full_alpha() {
    let p = backdrop(TaskbarMode::Opaque, share(10)).to_accent_policy(true).unwrap();
    assert_eq!(p.accent_state, accent_state::ENABLE_GRADIENT);
    assert_eq!(p.gradient_color >> 24, 0xFF);
}

#[test]
fn opacity_becomes_the_gradient_alpha() {
    let p = backdrop(TaskbarMode::Acrylic, share(50)).to_accent_policy(true).unwrap();
    assert_eq!(p.accent_state, accent_state::ENABLE_ACRYLICBLURBEHIND);
    assert_eq!(p.gradient_color >> 24, 0x80);
    // BGR ordering of the tint
    assert_eq!(p.gradient_color & 0x00FF_FFFF, 0x0030_2010);
}

#[test]
fn clear_mode_is_fully_transparent() {
    let p = backdrop(TaskbarMode::Clear, share(90)).to_accent_policy(true).unwrap();
    assert_eq!(p.accent_state, accent_state::ENABLE_TRANSPARENTGRADIENT);
    assert_eq!(p.gradient_color >> 24, 0x00);
}

#[test]
fn mica_falls_back_to_acrylic_without_dwm_support() {
    let p = backdrop(TaskbarMode::Mica, share(40)).to_accent_policy(false).unwrap();
    assert_eq!(p.accent_state, accent_state::ENABLE_ACRYLICBLURBEHIND);
    let p = backdrop(TaskbarMode::Mica, share(40)).to_accent_policy(true).unwrap();
    assert_eq!(p.accent_state, accent_state::ENABLE_HOSTBACKDROP);
}

#[test]
fn backdrop_equality_ignores_nothing() {
    assert_eq!(backdrop(TaskbarMode::Blur, share(50)), backdrop(TaskbarMode::Blur, share(50)));
    assert_ne!(backdrop(TaskbarMode::Blur, share(50)), backdrop(TaskbarMode::Blur, share(60)));
}

#[test]
fn gradient_packing_is_abgr() {
    assert_eq!(pack_gradient(0x80, 0x11, 0x22, 0x33), 0x8033_2211);
    assert_eq!(pack_gradient(0xFF, 0, 0, 0), 0xFF00_0000);
    assert_eq!(pack_gradient(0x00, 0xFF, 0xFF, 0xFF), 0x00FF_FFFF);
}

/// Whatever the machine is set to, the answer has to be stable across the calls the widget
/// bar makes in a second.
#[test]
fn the_answer_is_memoised() {
    let mut cache = None;
    let first = apps_use_light_theme(&mut cache, 5_000, true);
    for i in 0..100 {
        assert_eq!(apps_use_light_theme(&mut cache, 5_000 + 9 * i, i % 2 == 0), first);
    }
}

#[test]
fn an_old_answer_is_read_again() {
    let mut cache = None;
    assert!(apps_use_light_theme(&mut cache, 5_000, true));
    assert_eq!(cached(&cache, 5_999), Some(true));
    assert_eq!(cached(&cache, 6_000), None);
    assert!(!apps_use_light_theme(&mut cache, 6_000, false));
    assert!(!apps_use_light_theme(&mut cache, 6_999, true));
    assert!(read_apps_use_light_theme(true, 1));
    assert!(!read_apps_use_light_theme(true, 0));
    assert!(!read_apps_use_light_theme(false, 1));
}

/// The boundary is a hard cut in Windows, not a range, so it is the only part worth
/// pinning.
#[test]
fn the_xaml_taskbar_starts_at_22621() {
    let xaml = |build: u32| taskbar_ignores_composition_requests(Some(build));
    assert!(!xaml(19_045), "Windows 10 2004 still honours the accent API");
    assert!(!xaml(22_620), "21H2 is the last build that does");
    assert!(xaml(22_621), "22H2 moved the taskbar into XAML");
    assert!(xaml(26_100), "and it has stayed there since");
}

fn wide(text: &str) -> Vec<u16> {
    text.encode_utf16().collect()
}

#[test]
fn the_build_number_is_readable_on_this_machine() {
    let build = build_number(Some(&wide("22631"))).expect("CurrentBuildNumber should be readable");
    assert!(build > 1_000, "implausible build number: {build}");
    assert_eq!(build, 22_631);
}

#[test]
fn an_unreadable_build_counts_as_new() {
    assert_eq!(build_number(None), None);
    assert_eq!(build_number(Some(&wide(""))), None);
    assert_eq!(build_number(Some(&wide("22a"))), None);
    assert_eq!(build_number(Some(&wide("4294967296"))), None);
    assert_eq!(build_number(Some(&wide(" 19045 "))), Some(19_045));
    assert_eq!(build_number(Some(&wide("+7"))), Some(7));
    assert!(taskbar_ignores_composition_requests(None));
}

fn rect(left: i32, top: i32, right: i32, bottom: i32) -> ScreenRect {
    ScreenRect { left, top, right, bottom }
}

fn maximized() -> Probe {
    Probe {
        visible: true,
        title_length: 5,
        style: 0,
        ex_style: 0,
        cloak: Some(0),
        zoomed: true,
        frame: Some(rect(0, 0, 1920, 1040)),
        outline: Some(rect(-8, -8, 1928, 1048)),
    }
}

#[test]
fn shell_queries_do_not_panic() {
    assert!(is_autohide_enabled(1) && !is_autohide_enabled(2));
    assert_eq!(primary_taskbar(None), None);
    assert_eq!(primary_taskbar(Some(0)), None);
    assert_eq!(primary_taskbar(Some(77)), Some(77));
    let mut search = TaskbarSearch::begin(Some(77));
    search.see(Some(78));
    assert_eq!(search.previous, 78);
    assert!(!search.done);
    search.see(None);
    assert!(search.done);
    assert_eq!(search.bars, vec![77, 78]);
}

#[test]
fn only_real_windows_count_as_maximised() {
    let monitor = rect(0, 0, 1920, 1080);
    assert!(any_maximized_on(&monitor, &vec![maximized()]));
    assert!(!any_maximized_on(&monitor, &Vec::new()));
    for probe in [
        Probe { visible: false, ..maximized() },
        Probe { title_length: 0, ..maximized() },
        Probe { ex_style: WS_EX_TOOLWINDOW, ..maximized() },
        Probe { cloak: Some(2), ..maximized() },
        Probe { zoomed: false, ..maximized() },
        // On the other monitor.
        Probe { frame: Some(rect(1920, 0, 3840, 1040)), ..maximized() },
    ] {
        assert!(!any_maximized_on(&monitor, &vec![probe]), "{probe:?}");
    }
    assert!(is_candidate_window(&maximized()));
    assert!(is_cloaked(Some(1)) && !is_cloaked(Some(0)) && !is_cloaked(None));
    assert!(has_style(0x81, WS_EX_TOOLWINDOW));
    assert_eq!(extended_frame_bounds(None, Some(monitor)), Some(monitor));
    let info = MonitorInfo { monitor, work: rect(0, 0, 1920, 1040) };
    assert_eq!(monitor_rect_of(Some(info)), Some(monitor));
    assert_eq!(work_area_of(Some(info)), Some(rect(0, 0, 1920, 1040)));
    assert_eq!(work_area_of(None), None);
}

fn foreground(class: &str, frame: ScreenRect) -> Option<Foreground> {
    Some(Foreground { class: class.to_string(), iconic: false, frame: Some(frame), outline: None })
}

#[test]
fn the_shell_itself_is_never_fullscreen() {
    let monitor = rect(0, 0, 1920, 1080);
    assert!(is_fullscreen_foreground(&monitor, &foreground("Game", monitor)));
    assert!(!is_fullscreen_foreground(&monitor, &foreground("WorkerW", monitor)));
    assert!(!is_fullscreen_foreground(&monitor, &foreground("Game", rect(0, 0, 1920, 1040))));
    assert!(!is_fullscreen_foreground(&monitor, &None));
    assert!(is_shell_class("SHELL_TRAYWND") && !is_shell_class("Notepad"));
}

#[test]
fn applying_records_the_window_and_ends_in_an_accent() {
    let mut applicator = AccentApplicator::new();
    let acrylic = backdrop(TaskbarMode::Acrylic, share(50));
    let calls = applicator.apply(11, &acrylic, true, true);
    let policy = acrylic.to_accent_policy(true).unwrap();
    assert_eq!(
        calls,
        vec![
            AccentCall::DarkColors(11, true),
            AccentCall::ImmersiveDark(11, true),
            AccentCall::SystemBackdrop(11, DWMSBT_NONE),
            AccentCall::Accent(11, policy),
        ]
    );
    applicator.apply(11, &acrylic, true, true);
    applicator.apply(12, &backdrop(TaskbarMode::Mica, share(50)), false, true);
    assert_eq!(applicator.touched_count(), 2);
    assert!(applicator.apply(0, &acrylic, true, true).is_empty());
    let mica = applicator.apply(12, &backdrop(TaskbarMode::Mica, share(50)), false, true);
    assert_eq!(mica[2], AccentCall::SystemBackdrop(12, DWMSBT_MAINWINDOW));
    // Without the material nothing is asked of the compositor.
    let plain = applicator.apply(12, &acrylic, false, false);
    assert_eq!(plain.len(), 3);
    applicator.prune(&vec![false, true]);
    assert_eq!(applicator.touched, vec![12]);
    assert_eq!(
        applicator.reset_all(),
        vec![
            AccentCall::SystemBackdrop(12, DWMSBT_NONE),
            AccentCall::Accent(12, AccentPolicy::default()),
        ]
    );
    assert_eq!(applicator.touched_count(), 0);
    assert!(applicator.reset(0).is_empty());
    assert!(AccentApplicator::probe_mica(true, Some(DWMSBT_MAINWINDOW)));
    assert!(!AccentApplicator::probe_mica(true, Some(DWMSBT_NONE)));
    assert!(!AccentApplicator::probe_mica(false, Some(DWMSBT_MAINWINDOW)));
    assert!(available(Some(1)) && !available(None));
}

fn config() -> TaskbarConfig {
    TaskbarConfig {
        enabled: true,
        mode: TaskbarMode::Acrylic,
        color: Rgb { r: 1, g: 2, b: 3 },
        opacity: share(50),
        apply_to_secondary: true,
        dynamic_mode: true,
        dynamic_mode_override: TaskbarMode::Opaque,
        hide_on_fullscreen: true,
        restore_on_exit: true,
    }
}

fn around() -> Surroundings {
    Surroundings {
        bars: vec![21, 22],
        geometry: Some(rect(0, 1040, 1920, 1080)),
        monitor: Some(rect(0, 0, 1920, 1080)),
        autohide: false,
        foreground: None,
        windows: Vec::new(),
        touched_exist: Vec::new(),
        mica: false,
        build: Some(19_045),
    }
}

#[test]
fn the_thread_paints_once_and_then_rests() {
    let desired = Desired::from_config(&config());
    let mut pump = Pump::new();
    assert!(pump.needs_mica(&desired, &around()));
    let first = pump.evaluate_and_apply(&desired, true, &around());
    assert_eq!(first.publish.unwrap().state, TaskbarVisualState::Applied);
    assert_eq!(first.publish.unwrap().secondary_bars, 1);
    assert_eq!(first.calls.len(), 6, "three calls on each of two bars");
    assert!(!first.warn);
    assert!(!pump.needs_mica(&desired, &around()));
    assert_eq!(pump.applicator.touched, vec![21, 22]);
    let mut same = around();
    same.touched_exist = vec![true, true];
    let second = pump.evaluate_and_apply(&desired, true, &same);
    assert!(second.calls.is_empty() && second.publish.is_none());
    // A forced evaluation paints again.
    assert_eq!(pump.wndproc(WM_APP_REAPPLY, 0, true), PumpAction::Evaluate);
    let third = pump.evaluate_and_apply(&desired, true, &same);
    assert_eq!(third.calls.len(), 6);
    let calls = pump.shut_down(true);
    assert_eq!(calls.len(), 4, "both bars are handed back");
    assert_eq!(pump.applicator.touched_count(), 0);
}

#[test]
fn the_guards_override_the_chosen_mode() {
    let desired = Desired::from_config(&config());
    let mut game = around();
    game.foreground = foreground("Game", rect(0, 0, 1920, 1080));
    let state = Pump::new().evaluate_and_apply(&desired, true, &game).publish.unwrap();
    assert_eq!((state.state, state.mode), (TaskbarVisualState::Fullscreen, TaskbarMode::Normal));

    let mut dynamic = around();
    dynamic.windows = vec![maximized()];
    let state = Pump::new().evaluate_and_apply(&desired, true, &dynamic).publish.unwrap();
    assert_eq!((state.state, state.mode), (TaskbarVisualState::Dynamic, TaskbarMode::Opaque));

    let mut hidden = around();
    hidden.autohide = true;
    hidden.geometry = Some(rect(0, 1080, 1920, 1120));
    let evaluation = Pump::new().evaluate_and_apply(&desired, true, &hidden);
    assert_eq!(evaluation.publish.unwrap().state, TaskbarVisualState::Hidden);
    assert!(evaluation.calls.is_empty(), "a retracted taskbar is left alone");

    let off = Desired::idle(&config());
    let state = Pump::new().evaluate_and_apply(&off, true, &around()).publish.unwrap();
    assert_eq!((state.state, state.mode), (TaskbarVisualState::Disabled, TaskbarMode::Normal));

    let mut new_shell = around();
    new_shell.build = Some(22_621);
    let evaluation = Pump::new().evaluate_and_apply(&desired, true, &new_shell);
    assert!(evaluation.warn && evaluation.publish.unwrap().shell_managed);
}

#[test]
fn the_threads_window_answers_its_messages() {
    let mut pump = Pump::new();
    assert_eq!(pump.wndproc(WM_NCCREATE, 0, true), PumpAction::Created);
    assert_eq!(pump.wndproc(WM_TIMER, TIMER_DEBOUNCE, true), PumpAction::EvaluateAfterDebounce);
    assert_eq!(pump.wndproc(WM_TIMER, TIMER_SAFETY, true), PumpAction::Evaluate);
    assert_eq!(pump.wndproc(WM_TIMER, TIMER_SAFETY, false), PumpAction::Nothing);
    assert_eq!(pump.wndproc(WM_APP_SHUTDOWN, 0, true), PumpAction::Quit);
    assert_eq!(pump.wndproc(WM_CLOSE, 0, true), PumpAction::Quit);
    assert_eq!(pump.wndproc(0x0005, 0, true), PumpAction::Default);
    assert_eq!(win_event_proc(EVENT_SYSTEM_FOREGROUND, 0, 0, true), EventAction::Evaluate);
    assert_eq!(win_event_proc(0x800B, 0, 0, true), EventAction::ArmDebounce);
    assert_eq!(win_event_proc(0x800B, -9, 0, true), EventAction::Nothing);
    assert_eq!(win_event_proc(0x800B, 0, 0, false), EventAction::Nothing);
}

#[test]
fn a_module_starts_once_and_tells_its_thread() {
    let mut module = TaskbarModule::new(&config());
    assert!(!module.is_running() && !module.desired.enabled);
    assert!(TaskbarModule::is_enabled(&config()));
    assert!(module.start(&config()));
    assert!(!module.start(&config()), "a second start does nothing");
    module.pump_ready(900);
    assert!(module.is_running());
    assert_eq!(module.apply(&config()), None, "nothing new to tell");
    let mut next = config();
    next.mode = TaskbarMode::Clear;
    assert_eq!(module.apply(&next), Some(900));
    assert_eq!(module.set_dark_theme(false), Some(900));
    assert_eq!(module.stop(), Some(Some(900)));
    assert_eq!(module.stop(), None);
    module.pump_stopped();
    assert!(!module.is_running() && module.stopped);
    assert!(module.start(&config()));
    module.spawn_failed();
    assert!(module.start(&config()));
    assert_eq!(TaskbarModule::taskbar_rect(Some(0), Some(rect(0, 0, 1, 1))), None);
    assert_eq!(
        TaskbarModule::taskbar_rect(Some(5), Some(rect(0, 0, 1, 1))),
        Some(rect(0, 0, 1, 1))
    );
}

fn ok() -> StepOutcome {
    StepOutcome { done: true, code: 0 }
}

fn bad() -> StepOutcome {
    StepOutcome { done: false, code: 0 }
}

#[test]
fn loading_goes_step_by_step() {
    let order = [
        (Stage::Locate, InjectError::NoDirectory),
        (Stage::CheckFile, InjectError::Missing),
        (Stage::Load, InjectError::NotLoaded),
        (Stage::FindExport, InjectError::NoExport),
        (Stage::FindThread, InjectError::TaskbarGone),
        (Stage::CreateEvent, InjectError::NoEvent),
        (Stage::InstallHook, InjectError::NoHook),
    ];
    let mut stage = Stage::Locate;
    for (expected, error) in order {
        assert_eq!(stage, expected);
        assert_eq!(inject(stage, bad()), Stage::Failed(error));
        stage = inject(stage, ok());
    }
    assert_eq!(stage, Stage::AwaitReady);
    assert_eq!(inject(inject(stage, ok()), ok()), Stage::Loaded);
    let late = inject(stage, StepOutcome { done: false, code: WAIT_TIMEOUT });
    assert_eq!(late, Stage::CleanUp(WAIT_TIMEOUT));
    assert_eq!(inject(late, ok()), Stage::Failed(InjectError::NotReady));
    assert_eq!(
        inject(Stage::CleanUp(7), ok()),
        Stage::Failed(InjectError::WaitFailed(7))
    );
    assert!(send(1, 1) && !send(1, 0) && !send(0, 1));
    assert_eq!(find_channel(Some(0)), None);
    assert_eq!(find_channel(Some(4)), Some(4));
}
