//! Turning a [`TaskbarMode`] into an actual composition state.
//!
//! Two mechanisms are involved and they are not interchangeable: an accent policy puts
//! a blur or acrylic backdrop behind the window, and the system-backdrop attribute asks
//! the compositor for one of its materials. The mica mode prefers the second and falls
//! back to acrylic where it is not honoured, so the user always ends up with something.

use vstd::prelude::*;

use crate::color::Rgb;
use crate::config::TaskbarMode;
use crate::number::{rounded, Factor};
use crate::taskbar::accent_state;
use crate::taskbar::ffi::{a_packed_tint_keeps_its_channels, pack_gradient, packed, AccentPolicy};

verus! {

/// The flag that the shell itself passes when it wants the tint honoured.
pub const ACCENT_FLAG_TINTED: u32 = 2;

/// The system backdrop that is none.
pub const DWMSBT_NONE: i32 = 1;

/// The system backdrop that is the mica material.
pub const DWMSBT_MAINWINDOW: i32 = 2;

/// A fully resolved backdrop request.
#[derive(Clone, Copy, Debug, PartialEq, Eq, Structural)]
pub struct Backdrop {
    pub mode: TaskbarMode,
    pub color: Rgb,
    pub alpha: u8,
}

/// An opacity as an alpha value: nothing below none, nothing above full, rounded to the
/// nearest of the 256 steps.
pub open spec fn alpha_of(opacity: Factor) -> int {
    if opacity.numerator >= opacity.denominator {
        255
    } else {
        rounded(opacity.numerator * 255, opacity.denominator as int)
    }
}

/// The policy that asks for a state, with a tint.
pub open spec fn tinted(state: u32, alpha: u8, color: Rgb) -> AccentPolicy {
    AccentPolicy {
        accent_state: state,
        accent_flags: ACCENT_FLAG_TINTED,
        gradient_color: packed(alpha, color.r, color.g, color.b) as u32,
        animation_id: 0,
    }
}

/// The policy that hands a window back.
pub open spec fn disabled() -> AccentPolicy {
    AccentPolicy { accent_state: 0, accent_flags: 0, gradient_color: 0, animation_id: 0 }
}

impl Backdrop {
    /// The policy that a backdrop comes to, or `None` when the mode hands the window
    /// back to Windows.
    pub open spec fn policy(self, mica_supported: bool) -> Option<AccentPolicy> {
        match self.mode {
            TaskbarMode::Normal => None,
            TaskbarMode::Opaque => Some(tinted(accent_state::ENABLE_GRADIENT, 0xFF, self.color)),
            TaskbarMode::Clear => Some(
                tinted(accent_state::ENABLE_TRANSPARENTGRADIENT, 0, self.color),
            ),
            TaskbarMode::Blur => Some(
                tinted(accent_state::ENABLE_BLURBEHIND, self.alpha, self.color),
            ),
            TaskbarMode::Acrylic => Some(
                tinted(accent_state::ENABLE_ACRYLICBLURBEHIND, self.alpha, self.color),
            ),
            TaskbarMode::Mica => Some(
                tinted(
                    if mica_supported {
                        accent_state::ENABLE_HOSTBACKDROP
                    } else {
                        accent_state::ENABLE_ACRYLICBLURBEHIND
                    },
                    self.alpha,
                    self.color,
                ),
            ),
        }
    }

    pub fn new(mode: TaskbarMode, color: Rgb, opacity: Factor) -> (r: Backdrop)
        requires
            opacity.wf(),
        ensures
            r.mode == mode,
            r.color == color,
            r.alpha == alpha_of(opacity),
    {
        let alpha: u8 = if opacity.numerator >= opacity.denominator {
            255
        } else {
            let n: u64 = opacity.numerator as u64;
            let d: u64 = opacity.denominator as u64;
            proof {
                let n = opacity.numerator as int;
                let d = opacity.denominator as int;
                assert((2 * (n * 255) + d) / (2 * d) <= 255) by (nonlinear_arith)
                    requires
                        0 <= n < d,
                ;
            }
            ((2 * (n * 255) + d) / (2 * d)) as u8
        };
        Backdrop { mode, color, alpha }
    }

    /// Turn the requested mode into an accent policy, or `None` when the mode means
    /// "hand the window back to Windows".
    pub fn to_accent_policy(&self, mica_supported: bool) -> (r: Option<AccentPolicy>)
        ensures
            r == self.policy(mica_supported),
    {
        match self.mode {
            TaskbarMode::Normal => None,
            TaskbarMode::Opaque => Some(
                tinted_policy(accent_state::ENABLE_GRADIENT, 0xFF, self.color),
            ),
            TaskbarMode::Clear => Some(
                tinted_policy(accent_state::ENABLE_TRANSPARENTGRADIENT, 0, self.color),
            ),
            TaskbarMode::Blur => Some(
                tinted_policy(accent_state::ENABLE_BLURBEHIND, self.alpha, self.color),
            ),
            TaskbarMode::Acrylic => Some(
                tinted_policy(accent_state::ENABLE_ACRYLICBLURBEHIND, self.alpha, self.color),
            ),
            TaskbarMode::Mica => {
                // With the material in play the compositor owns it; the accent only keeps
                // the window from painting its own opaque background over it.
                let state: u32 = if mica_supported {
                    accent_state::ENABLE_HOSTBACKDROP
                } else {
                    accent_state::ENABLE_ACRYLICBLURBEHIND
                };
                Some(tinted_policy(state, self.alpha, self.color))
            },
        }
    }
}

fn tinted_policy(state: u32, alpha: u8, color: Rgb) -> (r: AccentPolicy)
    ensures
        r == tinted(state, alpha, color),
{
    AccentPolicy {
        accent_state: state,
        accent_flags: ACCENT_FLAG_TINTED,
        gradient_color: pack_gradient(alpha, color.r, color.g, color.b),
        animation_id: 0,
    }
}

/// One call on a window.
#[derive(Clone, Copy, Debug, PartialEq, Eq)]
pub enum AccentCall {
    /// Switch the shell's dark-mode colours, so that the taskbar's own glyphs stay
    /// readable against the new backdrop.
    DarkColors(isize, bool),
    /// Switch the compositor's dark mode.
    ImmersiveDark(isize, bool),
    /// Ask for a system backdrop.
    SystemBackdrop(isize, i32),
    /// Push an accent policy. Its success is the success of the whole.
    Accent(isize, AccentPolicy),
}

/// The calls that hand a window back to Windows.
pub open spec fn reset_calls(window: isize) -> Seq<AccentCall> {
    seq![
        AccentCall::SystemBackdrop(window, DWMSBT_NONE),
        AccentCall::Accent(window, disabled()),
    ]
}

/// The calls that put a backdrop on a window.
pub open spec fn apply_calls(
    window: isize,
    backdrop: Backdrop,
    dark: bool,
    mica_supported: bool,
) -> Seq<AccentCall> {
    let dark_mode = seq![
        AccentCall::DarkColors(window, dark),
        AccentCall::ImmersiveDark(window, dark),
    ];
    // Leaving mica for another mode clears the material first, or it keeps compositing
    // underneath the accent.
    let material = if !mica_supported {
        Seq::<AccentCall>::empty()
    } else if backdrop.mode == TaskbarMode::Mica {
        seq![AccentCall::SystemBackdrop(window, DWMSBT_MAINWINDOW)]
    } else {
        seq![AccentCall::SystemBackdrop(window, DWMSBT_NONE)]
    };
    let accent = match backdrop.policy(mica_supported) {
        Some(policy) => seq![AccentCall::Accent(window, policy)],
        None => reset_calls(window),
    };
    dark_mode + material + accent
}

/// Every call that resets a list of windows.
pub open spec fn resets(windows: Seq<isize>) -> Seq<AccentCall>
    decreases windows.len(),
{
    if windows.len() == 0 {
        Seq::empty()
    } else {
        resets(windows.drop_last()) + reset_calls(windows.last())
    }
}

/// The windows of a list for which the answer beside them is yes.
pub open spec fn kept(windows: Seq<isize>, exist: Seq<bool>) -> Seq<isize>
    decreases windows.len(),
{
    if windows.len() == 0 || windows.len() != exist.len() {
        Seq::empty()
    } else if exist.last() {
        kept(windows.drop_last(), exist.drop_last()).push(windows.last())
    } else {
        kept(windows.drop_last(), exist.drop_last())
    }
}

fn push_reset(calls: &mut Vec<AccentCall>, window: isize)
    ensures
        final(calls)@ == old(calls)@ + reset_calls(window),
{
    calls.push(AccentCall::SystemBackdrop(window, DWMSBT_NONE));
    calls.push(
        AccentCall::Accent(
            window,
            AccentPolicy {
                accent_state: accent_state::DISABLED,
                accent_flags: 0,
                gradient_color: 0,
                animation_id: 0,
            },
        ),
    );
    assert(calls@ =~= old(calls)@ + reset_calls(window));
}

/// Puts backdrops on taskbar windows and records which, so that they can be undone.
pub struct AccentApplicator {
    /// The windows that were touched, in the order in which they first were.
    pub touched: Vec<isize>,
}

impl AccentApplicator {
    /// Each window is recorded once, and none is the null window.
    pub open spec fn wf(&self) -> bool {
        &&& self.touched@.no_duplicates()
        &&& !self.touched@.contains(0)
    }

    pub fn new() -> (r: AccentApplicator)
        ensures
            r.wf(),
            r.touched@ == Seq::<isize>::empty(),
    {
        AccentApplicator { touched: Vec::new() }
    }

    /// Is the system-backdrop attribute honoured here?
    ///
    /// Read back rather than trusting the setter: a setter that succeeds proves only
    /// that the attribute exists, not that it is visible.
    pub fn probe_mica(set: bool, observed: Option<i32>) -> (r: bool)
        ensures
            r == (set && observed == Some(DWMSBT_MAINWINDOW)),
    {
        if !set {
            return false;
        }
        match observed {
            Some(value) => value == DWMSBT_MAINWINDOW,
            None => false,
        }
    }

    fn is_touched(&self, window: isize) -> (r: bool)
        ensures
            r == self.touched@.contains(window),
    {
        let mut i: usize = 0;
        while i < self.touched.len()
            invariant
                0 <= i <= self.touched@.len(),
                forall|k: int| 0 <= k < i ==> self.touched@[k] != window,
            decreases self.touched@.len() - i,
        {
            if self.touched[i] == window {
                assert(self.touched@[i as int] == window);
                return true;
            }
            i = i + 1;
        }
        false
    }

    /// The calls that put `backdrop` on `window`, which is recorded. There are none for
    /// the null window; otherwise the last one is an accent, and its success says whether
    /// something changed on the window.
    pub fn apply(
        &mut self,
        window: isize,
        backdrop: &Backdrop,
        dark: bool,
        mica_supported: bool,
    ) -> (calls: Vec<AccentCall>)
        requires
            old(self).wf(),
        ensures
            final(self).wf(),
            final(self).touched@ == (if window == 0 || old(self).touched@.contains(window) {
                old(self).touched@
            } else {
                old(self).touched@.push(window)
            }),
            calls@ == (if window == 0 {
                Seq::<AccentCall>::empty()
            } else {
                apply_calls(window, *backdrop, dark, mica_supported)
            }),
    {
        let mut calls: Vec<AccentCall> = Vec::new();
        if window == 0 {
            return calls;
        }
        if !self.is_touched(window) {
            self.touched.push(window);
            proof {
                let before = old(self).touched@;
                let after = self.touched@;
                assert(after == before.push(window));
                assert forall|i: int, j: int| 0 <= i < after.len() && 0 <= j < after.len() && i
                    != j implies after[i] != after[j] by {
                    if i == before.len() {
                        assert(before[j] == after[j]);
                    } else if j == before.len() {
                        assert(before[i] == after[i]);
                    }
                }
                assert(!after.contains(0)) by {
                    if after.contains(0) {
                        let k = choose|k: int| 0 <= k < after.len() && after[k] == 0;
                        assert(k < before.len());
                        assert(before[k] == 0);
                    }
                }
            }
        }
        calls.push(AccentCall::DarkColors(window, dark));
        calls.push(AccentCall::ImmersiveDark(window, dark));
        let mica: bool = match backdrop.mode {
            TaskbarMode::Mica => true,
            _ => false,
        };
        if mica && mica_supported {
            calls.push(AccentCall::SystemBackdrop(window, DWMSBT_MAINWINDOW));
        } else if mica_supported {
            calls.push(AccentCall::SystemBackdrop(window, DWMSBT_NONE));
        }
        match backdrop.to_accent_policy(mica_supported) {
            Some(policy) => {
                calls.push(AccentCall::Accent(window, policy));
            },
            None => {
                push_reset(&mut calls, window);
            },
        }
        assert(calls@ =~= apply_calls(window, *backdrop, dark, mica_supported));
        calls
    }

    /// The calls that hand a window back to Windows. The record is kept.
    pub fn reset(&self, window: isize) -> (calls: Vec<AccentCall>)
        ensures
            calls@ == (if window == 0 {
                Seq::<AccentCall>::empty()
            } else {
                reset_calls(window)
            }),
    {
        let mut calls: Vec<AccentCall> = Vec::new();
        if window != 0 {
            push_reset(&mut calls, window);
            assert(calls@ =~= reset_calls(window));
        }
        calls
    }

    /// The calls that undo every window that was touched. Made on stopping and on exit,
    /// so that the taskbar is never left in a broken state.
    pub fn reset_all(&mut self) -> (calls: Vec<AccentCall>)
        requires
            old(self).wf(),
        ensures
            final(self).wf(),
            final(self).touched@ == Seq::<isize>::empty(),
            calls@ == resets(old(self).touched@),
    {
        let mut calls: Vec<AccentCall> = Vec::new();
        let ghost windows = self.touched@;
        let mut i: usize = 0;
        assert(windows.take(0) =~= Seq::<isize>::empty());
        while i < self.touched.len()
            invariant
                self.touched@ == windows,
                0 <= i <= windows.len(),
                calls@ == resets(windows.take(i as int)),
            decreases windows.len() - i,
        {
            proof {
                let next = windows.take(i + 1);
                assert(next.drop_last() =~= windows.take(i as int));
                assert(next.last() == windows[i as int]);
            }
            push_reset(&mut calls, self.touched[i]);
            i = i + 1;
        }
        assert(windows.take(i as int) =~= windows);
        self.touched = Vec::new();
        calls
    }

    /// Drop windows that no longer exist, after the shell restarted. `exist` holds the
    /// answer for each recorded window, in order.
    pub fn prune(&mut self, exist: &Vec<bool>)
        requires
            old(self).wf(),
            exist@.len() == old(self).touched@.len(),
        ensures
            final(self).wf(),
            final(self).touched@ == kept(old(self).touched@, exist@),
    {
        let mut left: Vec<isize> = Vec::new();
        let ghost windows = self.touched@;
        let mut i: usize = 0;
        assert(windows.take(0) =~= Seq::<isize>::empty());
        while i < self.touched.len()
            invariant
                self.touched@ == windows,
                exist@.len() == windows.len(),
                0 <= i <= windows.len(),
                left@ == kept(windows.take(i as int), exist@.take(i as int)),
            decreases windows.len() - i,
        {
            proof {
                let next = windows.take(i + 1);
                let answers = exist@.take(i + 1);
                assert(next.drop_last() =~= windows.take(i as int));
                assert(answers.drop_last() =~= exist@.take(i as int));
                assert(next.last() == windows[i as int]);
                assert(answers.last() == exist@[i as int]);
            }
            if exist[i] {
                left.push(self.touched[i]);
            }
            i = i + 1;
        }
        proof {
            assert(windows.take(i as int) =~= windows);
            assert(exist@.take(i as int) =~= exist@);
            lemma_kept(windows, exist@);
        }
        self.touched = left;
    }

    pub fn touched_count(&self) -> (r: usize)
        ensures
            r == self.touched@.len(),
    {
        self.touched.len()
    }
}

/// What is kept was there, once, and exists.
proof fn lemma_kept(windows: Seq<isize>, exist: Seq<bool>)
    requires
        windows.len() == exist.len(),
        windows.no_duplicates(),
    ensures
        kept(windows, exist).no_duplicates(),
        forall|w: isize| #[trigger]
            kept(windows, exist).contains(w) <==> exists|i: int|
                0 <= i < windows.len() && windows[i] == w && #[trigger] exist[i],
    decreases windows.len(),
{
    let all = kept(windows, exist);
    if windows.len() > 0 {
        let before = windows.drop_last();
        let answers = exist.drop_last();
        let rest = kept(before, answers);
        lemma_kept(before, answers);
        let last = windows.len() - 1;
        assert forall|w: isize| #[trigger] all.contains(w) implies exists|i: int|
            0 <= i < windows.len() && windows[i] == w && #[trigger] exist[i] by {
            if rest.contains(w) {
                let i = choose|i: int|
                    0 <= i < before.len() && before[i] == w && #[trigger] answers[i];
                assert(windows[i] == w && exist[i]);
            } else {
                assert(exist[last] && windows[last] == w);
            }
        }
        assert forall|w: isize|
            (exists|i: int| 0 <= i < windows.len() && windows[i] == w && #[trigger] exist[i])
            implies #[trigger] all.contains(w) by {
            let i = choose|i: int| 0 <= i < windows.len() && windows[i] == w && #[trigger] exist[i];
            if i < last {
                assert(before[i] == w && answers[i]);
                assert(rest.contains(w));
                let k = choose|k: int| 0 <= k < rest.len() && rest[k] == w;
                assert(all[k] == w);
            } else {
                assert(all[all.len() - 1] == w);
            }
        }
        if exist[last] {
            assert(!rest.contains(windows[last])) by {
                if rest.contains(windows[last]) {
                    let i = choose|i: int|
                        0 <= i < before.len() && before[i] == windows[last] && #[trigger] answers[i];
                    assert(windows[i] == windows[last]);
                }
            }
        }
    }
}

/// Undoing everything hands every recorded window back, and nothing else.
pub proof fn every_touched_window_is_handed_back(windows: Seq<isize>)
    ensures
        resets(windows).len() == 2 * windows.len(),
        forall|i: int|
            0 <= i < windows.len() ==> #[trigger] resets(windows)[2 * i]
                == AccentCall::SystemBackdrop(windows[i], DWMSBT_NONE),
        forall|i: int|
            0 <= i < windows.len() ==> #[trigger] resets(windows)[2 * i + 1] == AccentCall::Accent(
                windows[i],
                disabled(),
            ),
    decreases windows.len(),
{
    if windows.len() > 0 {
        let rest = windows.drop_last();
        every_touched_window_is_handed_back(rest);
        let n = rest.len() as int;
        assert(resets(windows) == resets(rest) + reset_calls(windows[n]));
        assert forall|i: int| 0 <= i < windows.len() implies #[trigger] resets(windows)[2 * i]
            == AccentCall::SystemBackdrop(windows[i], DWMSBT_NONE) by {
            if i < n {
                assert(resets(rest)[2 * i] == AccentCall::SystemBackdrop(rest[i], DWMSBT_NONE));
            }
        }
        assert forall|i: int| 0 <= i < windows.len() implies #[trigger] resets(windows)[2 * i + 1]
            == AccentCall::Accent(windows[i], disabled()) by {
            if i < n {
                assert(resets(rest)[2 * i + 1] == AccentCall::Accent(rest[i], disabled()));
            }
        }
    }
}

/// Whatever the mode, the last call on a window is the accent that it ends up with: the
/// one of the mode, or the disabled one when the mode hands the window back.
pub proof fn an_applied_window_ends_with_its_accent(
    window: isize,
    backdrop: Backdrop,
    dark: bool,
    mica_supported: bool,
)
    ensures
        apply_calls(window, backdrop, dark, mica_supported).last() == AccentCall::Accent(
            window,
            match backdrop.policy(mica_supported) {
                Some(policy) => policy,
                None => disabled(),
            },
        ),
{
}

/// Without the material, mica asks for what acrylic asks for.
pub proof fn mica_falls_back_to_acrylic(color: Rgb, alpha: u8)
    ensures
        (Backdrop { mode: TaskbarMode::Mica, color, alpha }).policy(false) == (Backdrop {
            mode: TaskbarMode::Acrylic,
            color,
            alpha,
        }).policy(false),
{
}

/// Does a policy carry this tint, in its bytes from the highest: alpha, blue, green, red?
pub open spec fn carries(policy: AccentPolicy, alpha: int, color: Rgb) -> bool {
    let tint = policy.gradient_color as int;
    &&& tint / 0x100_0000 == alpha
    &&& tint / 0x1_0000 % 0x100 == color.b
    &&& tint / 0x100 % 0x100 == color.g
    &&& tint % 0x100 == color.r
}

/// Each mode asks for the composition that it is named for, in the numbers of the system's
/// interface: opaque for a solid colour without any transparency, clear for a see-through
/// one without any tint, blur for the blur, acrylic for the acrylic, and mica for the host's
/// own backdrop where the material is honoured and for the acrylic elsewhere. The last three
/// keep the alpha of the backdrop. The normal mode asks for nothing.
#[verifier::spinoff_prover]
pub proof fn each_mode_asks_for_its_namesake(color: Rgb, alpha: u8, mica_supported: bool)
    ensures
        (Backdrop { mode: TaskbarMode::Normal, color, alpha }).policy(mica_supported) is None,
        (Backdrop { mode: TaskbarMode::Opaque, color, alpha }).policy(mica_supported) matches Some(
            policy,
        ) && policy.accent_state == 1 && carries(policy, 255, color),
        (Backdrop { mode: TaskbarMode::Clear, color, alpha }).policy(mica_supported) matches Some(
            policy,
        ) && policy.accent_state == 2 && carries(policy, 0, color),
        (Backdrop { mode: TaskbarMode::Blur, color, alpha }).policy(mica_supported) matches Some(
            policy,
        ) && policy.accent_state == 3 && carries(policy, alpha as int, color),
        (Backdrop { mode: TaskbarMode::Acrylic, color, alpha }).policy(mica_supported) matches Some(
            policy,
        ) && policy.accent_state == 4 && carries(policy, alpha as int, color),
        (Backdrop { mode: TaskbarMode::Mica, color, alpha }).policy(mica_supported) matches Some(
            policy,
        ) && policy.accent_state == (if mica_supported {
            5int
        } else {
            4
        }) && carries(policy, alpha as int, color),
{
    a_packed_tint_keeps_its_channels(255, color.r, color.g, color.b);
    a_packed_tint_keeps_its_channels(0, color.r, color.g, color.b);
    a_packed_tint_keeps_its_channels(alpha, color.r, color.g, color.b);
}

/// Where the material is honoured, no two modes ask for the same composition: a backdrop's
/// mode can be told from the policy that it comes to, and so can its colour.
pub proof fn modes_look_different(one: Backdrop, other: Backdrop)
    ensures
        one.mode != other.mode && one.policy(true) is Some && other.policy(true) is Some
            ==> one.policy(true)->0.accent_state != other.policy(true)->0.accent_state,
        one.mode != other.mode ==> one.policy(true) != other.policy(true),
        one.mode != TaskbarMode::Normal && one.policy(true) == other.policy(true) ==> one.color
            == other.color,
{
    each_mode_asks_for_its_namesake(one.color, one.alpha, true);
    each_mode_asks_for_its_namesake(other.color, other.alpha, true);
}

/// Every policy of a mode asks for its tint to be honoured, and for no animation.
pub proof fn a_tint_is_honoured(backdrop: Backdrop, mica_supported: bool)
    ensures
        backdrop.policy(mica_supported) matches Some(policy) ==> policy.accent_flags == 2
            && policy.animation_id == 0,
{
}

/// The alpha of an opacity is its share of 255, to the nearest whole step, halves upwards.
/// Full opacity, and anything beyond it, is 255; more opacity is never less alpha.
#[verifier::spinoff_prover]
pub proof fn alpha_is_the_share_of_255(opacity: Factor, more: Factor)
    requires
        opacity.wf(),
        more.wf(),
        opacity.numerator * more.denominator <= more.numerator * opacity.denominator,
    ensures
        opacity.numerator >= opacity.denominator ==> alpha_of(opacity) == 255,
        opacity.numerator < opacity.denominator ==> -opacity.denominator < 2 * (alpha_of(opacity)
            * opacity.denominator - 255 * opacity.numerator) <= opacity.denominator,
        0 <= alpha_of(opacity) <= alpha_of(more) <= 255,
{
    let (n, d) = (opacity.numerator as int, opacity.denominator as int);
    let (m, e) = (more.numerator as int, more.denominator as int);
    if n < d {
        lemma_nearest_share(n, d);
    } else {
        assert(m >= e) by (nonlinear_arith)
            requires
                n >= d,
                d > 0,
                e > 0,
                n * e <= m * d,
        ;
    }
    if m < e {
        lemma_nearest_share(m, e);
        let (a, b) = (alpha_of(opacity), alpha_of(more));
        assert(a <= b) by (nonlinear_arith)
            requires
                -d < 2 * (a * d - 255 * n) <= d,
                -e < 2 * (b * e - 255 * m) <= e,
                d > 0,
                e > 0,
                n * e <= m * d,
        ;
    }
}

proof fn lemma_nearest_share(n: int, d: int)
    requires
        0 <= n < d,
    ensures
        -d < 2 * (rounded(n * 255, d) * d - 255 * n) <= d,
        0 <= rounded(n * 255, d) <= 255,
{
    let a = rounded(n * 255, d);
    assert(a * (2 * d) <= 2 * (n * 255) + d < a * (2 * d) + 2 * d) by (nonlinear_arith)
        requires
            a == (2 * (n * 255) + d) / (2 * d),
            d > 0,
    ;
    assert(a * (2 * d) == 2 * (a * d)) by (nonlinear_arith);
    assert(0 <= a <= 255) by (nonlinear_arith)
        requires
            a * (2 * d) <= 2 * (n * 255) + d < a * (2 * d) + 2 * d,
            0 <= n < d,
    ;
}

/// Every call of an application is on the window itself, both dark-mode switches are set to
/// what was asked for, the material is asked for by mica alone and only where it is honoured,
/// and where it is honoured every other mode takes it away before the accent goes on.
#[verifier::spinoff_prover]
pub proof fn an_application_sets_its_window_up(
    window: isize,
    backdrop: Backdrop,
    dark: bool,
    mica_supported: bool,
)
    ensures
        ({
            let calls = apply_calls(window, backdrop, dark, mica_supported);
            &&& calls[0] == AccentCall::DarkColors(window, dark)
            &&& calls[1] == AccentCall::ImmersiveDark(window, dark)
            &&& forall|i: int| 0 <= i < calls.len() ==> (match #[trigger] calls[i] {
                AccentCall::DarkColors(on, value) => i == 0 && on == window,
                AccentCall::ImmersiveDark(on, value) => i == 1 && on == window,
                AccentCall::SystemBackdrop(on, material) => on == window && (material == 2 || material
                    == 1) && (material == 2 <==> mica_supported && backdrop.mode
                    == TaskbarMode::Mica),
                AccentCall::Accent(on, policy) => i == calls.len() - 1 && on == window,
            })
            &&& mica_supported ==> calls.len() >= 4 && calls[2] is SystemBackdrop
            &&& calls.last() is Accent
            &&& backdrop.mode == TaskbarMode::Normal ==> calls.last() == AccentCall::Accent(
                window,
                AccentPolicy { accent_state: 0, accent_flags: 0, gradient_color: 0, animation_id: 0 },
            ) && calls[calls.len() - 2] == AccentCall::SystemBackdrop(window, 1)
        }),
{
}

/// After the shell restarted, exactly the recorded windows that still exist are recorded, in
/// the order in which they were.
pub proof fn a_window_is_forgotten_when_it_is_gone(windows: Seq<isize>, exist: Seq<bool>)
    requires
        windows.len() == exist.len(),
        windows.no_duplicates(),
    ensures
        kept(windows, exist).no_duplicates(),
        forall|w: isize| #[trigger]
            kept(windows, exist).contains(w) <==> exists|i: int|
                0 <= i < windows.len() && windows[i] == w && #[trigger] exist[i],
        (forall|i: int| 0 <= i < exist.len() ==> exist[i]) ==> kept(windows, exist) == windows,
        kept(windows, exist).len() <= windows.len(),
    decreases windows.len(),
{
    lemma_kept(windows, exist);
    if windows.len() > 0 {
        a_window_is_forgotten_when_it_is_gone(windows.drop_last(), exist.drop_last());
        assert(windows.drop_last().push(windows.last()) =~= windows);
    } else {
        assert(kept(windows, exist) =~= windows);
    }
}

} // verus!
