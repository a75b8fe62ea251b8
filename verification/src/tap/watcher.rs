//! Watching the shell's visual tree: where taskbar islands and their background
//! rectangles are discovered.
//!
//! Sizes are in thousandths of a device-independent pixel.

use std::collections::HashSet;

use vstd::prelude::*;
use vstd::string::StringExecFns;

use crate::geometry::ScreenRect;
use crate::tap::com::{ParentChildRelation, VISUAL_MUTATION_ADD};
use crate::text::same_text;

verus! {

/// Class names the shell uses for the taskbar islands, matched verbatim against what
/// the framework reports.
pub const XAML_SOURCE_TYPE: &'static str = "Windows.UI.Xaml.Hosting.DesktopWindowXamlSource";

pub const TASKBAR_FRAME_TYPE: &'static str = "Taskbar.TaskbarFrame";

pub const RECTANGLE_TYPE: &'static str = "Windows.UI.Xaml.Shapes.Rectangle";

pub const BORDER_TYPE: &'static str = "Windows.UI.Xaml.Controls.Border";

/// The frame-sized border of the taskbar template, whose brush paints the hairline
/// along the taskbar's top edge.
pub const HAIRLINE_BORDER_NAME: &'static str = "BackgroundElement";

/// The rectangles whose fill the shell repaints.
pub const BACKGROUND_FILL_NAME: &'static str = "BackgroundFill";

pub const BACKGROUND_STROKE_NAME: &'static str = "BackgroundStroke";

/// Tallest a rectangle may be and still be taken for the shell's hairline. The line is
/// one physical pixel; the slack covers a scaled display.
pub const HAIRLINE_MAX_HEIGHT: i64 = 3000;

/// Tallest a *border* may be and still count as a hairline strip. Borders that are
/// frame-sized are also accepted, but a strip beats a full-size one.
pub const HAIRLINE_BORDER_STRIP_HEIGHT: i64 = 6000;

/// Elements at least this wide count as frame-wide in the delayed walk.
pub const FRAME_WIDE_MIN: i64 = 1_000_000;

/// Upper bound on the diagnostic border log.
pub const BORDER_LOG_LIMIT: usize = 40;

/// Most elements a claim walk visits.
pub const WALK_LIMIT: usize = 4000;

/// Most elements a delayed walk visits.
pub const REWALK_LIMIT: usize = 6000;

/// How far above an element its frame is looked for.
pub const CLAIM_CLIMB_LIMIT: u32 = 40;

/// How far above a frame its island is looked for.
pub const ISLAND_CLIMB_LIMIT: u32 = 16;

/// Events at the start that are all worth a walk.
pub const CLAIM_BURST: u32 = 30;

/// How often the walk may run once the burst is over, in milliseconds.
pub const CLAIM_INTERVAL_MS: u64 = 500;

/// A taskbar that cannot be claimed must not keep the walk alive for ever.
pub const CLAIM_GIVE_UP_AFTER: u32 = 120;

/// Claims whose ancestry is reported.
pub const CLAIM_VERBOSE: u32 = 3;

/// The classes that the watcher tells apart.
#[derive(Clone, Copy, Debug, PartialEq, Eq, Structural)]
pub enum ElementClass {
    XamlSource,
    TaskbarFrame,
    Rectangle,
    Border,
    Other,
}

/// The class that a class name stands for.
pub open spec fn class_named(name: Seq<char>) -> ElementClass {
    if name == XAML_SOURCE_TYPE@ {
        ElementClass::XamlSource
    } else if name == TASKBAR_FRAME_TYPE@ {
        ElementClass::TaskbarFrame
    } else if name == RECTANGLE_TYPE@ {
        ElementClass::Rectangle
    } else if name == BORDER_TYPE@ {
        ElementClass::Border
    } else {
        ElementClass::Other
    }
}

pub fn classify(name: &str) -> (r: ElementClass)
    ensures
        r == class_named(name@),
{
    if same_text(name, XAML_SOURCE_TYPE) {
        ElementClass::XamlSource
    } else if same_text(name, TASKBAR_FRAME_TYPE) {
        ElementClass::TaskbarFrame
    } else if same_text(name, RECTANGLE_TYPE) {
        ElementClass::Rectangle
    } else if same_text(name, BORDER_TYPE) {
        ElementClass::Border
    } else {
        ElementClass::Other
    }
}

/// What is to be done about an element that was added.
#[derive(Clone, Copy, Debug, PartialEq, Eq, Structural)]
pub enum Added {
    Nothing,
    /// A frame: find the island whose content `root` is, and take the taskbar it hangs
    /// under.
    Frame { frame: u64, root: u64 },
    /// A background or border rectangle of the frame above `below`.
    Rectangle { rectangle: u64, below: u64, background: bool },
    /// The background border of the frame above `below`.
    Border { border: u64, below: u64 },
}

/// What is to be done about a tree mutation.
#[derive(Clone, Copy, Debug, PartialEq, Eq, Structural)]
pub enum TreeChange {
    Added(Added),
    /// The element is gone: drop it from the registry.
    Removed { handle: u64 },
}

/// The watcher's own state.
pub struct Watcher {
    /// Sources seen before their taskbar content arrives: a new island is created
    /// empty and only later gains a frame, so the two are matched up from this set.
    pub pending_sources: HashSet<u64>,
    /// How often taskbars that predate the watcher were looked for.
    pub claim_attempts: u32,
    /// When that walk last ran, in milliseconds.
    pub last_claim: Option<u64>,
}

/// What an added element asks for.
pub open spec fn added_action(
    relation: ParentChildRelation,
    handle: u64,
    class: Seq<char>,
    name: Seq<char>,
) -> Added {
    match class_named(class) {
        ElementClass::TaskbarFrame => Added::Frame { frame: handle, root: relation.parent },
        ElementClass::Rectangle => if name == BACKGROUND_FILL_NAME@ {
            Added::Rectangle { rectangle: handle, below: relation.parent, background: true }
        } else if name == BACKGROUND_STROKE_NAME@ {
            Added::Rectangle { rectangle: handle, below: relation.parent, background: false }
        } else {
            Added::Nothing
        },
        ElementClass::Border => if name == HAIRLINE_BORDER_NAME@ {
            Added::Border { border: handle, below: relation.parent }
        } else {
            Added::Nothing
        },
        _ => Added::Nothing,
    }
}

impl Watcher {
    /// A watcher that has seen nothing.
    pub fn new() -> (r: Watcher)
        ensures
            r.pending_sources@ == Set::<u64>::empty(),
            r.claim_attempts == 0,
            r.last_claim is None,
    {
        Watcher { pending_sources: HashSet::new(), claim_attempts: 0, last_claim: None }
    }

    fn remember_source(&mut self, handle: u64)
        ensures
            final(self).claim_attempts == old(self).claim_attempts,
            final(self).last_claim == old(self).last_claim,
            final(self).pending_sources@ == old(self).pending_sources@.insert(handle),
    {
        broadcast use vstd::std_specs::hash::group_hash_axioms;

        self.pending_sources.insert(handle);
    }

    fn forget_source(&mut self, handle: u64)
        ensures
            final(self).claim_attempts == old(self).claim_attempts,
            final(self).last_claim == old(self).last_claim,
            final(self).pending_sources@ == old(self).pending_sources@.remove(handle),
    {
        broadcast use vstd::std_specs::hash::group_hash_axioms;

        self.pending_sources.remove(&handle);
        assert(self.pending_sources@ =~= old(self).pending_sources@.remove(handle));
    }

    /// An element was added.
    pub fn on_added(&mut self, relation: ParentChildRelation, handle: u64, class: &str, name: &str)
        -> (r: Added)
        ensures
            final(self).claim_attempts == old(self).claim_attempts,
            final(self).last_claim == old(self).last_claim,
            final(self).pending_sources@ == (if class_named(class@) == ElementClass::XamlSource {
                old(self).pending_sources@.insert(handle)
            } else {
                old(self).pending_sources@
            }),
            r == added_action(relation, handle, class@, name@),
    {
        match classify(class) {
            ElementClass::XamlSource => {
                // The island cannot be checked for taskbar content yet: it starts
                // empty and the frame arrives in a later mutation.
                self.remember_source(handle);
                Added::Nothing
            },
            ElementClass::TaskbarFrame => Added::Frame { frame: handle, root: relation.parent },
            ElementClass::Rectangle => {
                if same_text(name, BACKGROUND_FILL_NAME) {
                    Added::Rectangle { rectangle: handle, below: relation.parent, background: true }
                } else if same_text(name, BACKGROUND_STROKE_NAME) {
                    Added::Rectangle {
                        rectangle: handle,
                        below: relation.parent,
                        background: false,
                    }
                } else {
                    Added::Nothing
                }
            },
            ElementClass::Border => {
                // The name recurs in taskbar-button templates, so the caller accepts
                // only a frame-sized one.
                if same_text(name, HAIRLINE_BORDER_NAME) {
                    Added::Border { border: handle, below: relation.parent }
                } else {
                    Added::Nothing
                }
            },
            ElementClass::Other => Added::Nothing,
        }
    }

    /// The tree has changed. Only the handle is valid on a removal.
    pub fn handle_tree_change(
        &mut self,
        relation: ParentChildRelation,
        handle: u64,
        class: &str,
        name: &str,
        mutation: i32,
    ) -> (r: TreeChange)
        ensures
            final(self).claim_attempts == old(self).claim_attempts,
            final(self).last_claim == old(self).last_claim,
            mutation == VISUAL_MUTATION_ADD ==> {
                &&& r == TreeChange::Added(added_action(relation, handle, class@, name@))
                &&& final(self).pending_sources@ == (if class_named(class@)
                    == ElementClass::XamlSource {
                    old(self).pending_sources@.insert(handle)
                } else {
                    old(self).pending_sources@
                })
            },
            mutation != VISUAL_MUTATION_ADD ==> {
                &&& r == TreeChange::Removed { handle }
                &&& final(self).pending_sources@ == old(self).pending_sources@.remove(handle)
            },
    {
        if mutation == VISUAL_MUTATION_ADD {
            TreeChange::Added(self.on_added(relation, handle, class, name))
        } else {
            self.forget_source(handle);
            TreeChange::Removed { handle }
        }
    }

    /// Is the rate limit open at `now`?
    pub open spec fn claim_open(self, now: u64) -> bool {
        &&& self.claim_attempts < CLAIM_GIVE_UP_AFTER
        &&& self.claim_attempts >= CLAIM_BURST && self.last_claim is Some ==> now
            - self.last_claim->0 >= CLAIM_INTERVAL_MS
    }

    /// Is it worth walking the tree looking for an unclaimed taskbar?
    ///
    /// The framework replays a handful of tree events on connecting, and those are the
    /// best chance of finding a taskbar that predates the watcher, so the first few are
    /// all tried. After that the walk is rate-limited, and it stops altogether once
    /// every taskbar of the session is registered. Nothing claimed yet counts too: that
    /// is the start-up case.
    pub fn claim_is_due(&mut self, now: u64, unclaimed: bool, has_bars: bool) -> (r: bool)
        ensures
            r == (old(self).claim_open(now) && (unclaimed || !has_bars)),
            *final(self) == (if old(self).claim_open(now) && old(self).claim_attempts
                >= CLAIM_BURST {
                Watcher { last_claim: Some(now), ..*old(self) }
            } else {
                *old(self)
            }),
    {
        if self.claim_attempts >= CLAIM_GIVE_UP_AFTER {
            return false;
        }
        if self.claim_attempts >= CLAIM_BURST {
            match self.last_claim {
                None => {},
                Some(last) => {
                    if now < last || now - last < CLAIM_INTERVAL_MS {
                        return false;
                    }
                },
            }
            self.last_claim = Some(now);
        }
        unclaimed || !has_bars
    }

    /// Count a walk; is its ancestry to be reported?
    pub fn begin_claim(&mut self) -> (verbose: bool)
        ensures
            verbose == (old(self).claim_attempts < CLAIM_VERBOSE),
            *final(self) == (Watcher {
                claim_attempts: if old(self).claim_attempts == u32::MAX {
                    0
                } else {
                    (old(self).claim_attempts + 1) as u32
                },
                ..*old(self)
            }),
    {
        let attempt: u32 = self.claim_attempts;
        self.claim_attempts = if attempt == u32::MAX {
            0
        } else {
            attempt + 1
        };
        attempt < CLAIM_VERBOSE
    }

    /// The pending source whose root content was asked for, out of those that were
    /// compared: the first that matched. It is pending no more, and its window comes
    /// back.
    pub fn find_source_for(&mut self, compared: &Vec<SourceMatch>) -> (r: Option<isize>)
        ensures
            final(self).claim_attempts == old(self).claim_attempts,
            final(self).last_claim == old(self).last_claim,
            match first_match(compared@) {
                None => r is None && final(self).pending_sources@ == old(self).pending_sources@,
                Some(i) => {
                    &&& r == compared@[i].window
                    &&& final(self).pending_sources@ == old(self).pending_sources@.remove(
                        compared@[i].source,
                    )
                },
            },
    {
        let mut i: usize = 0;
        assert(compared@.take(0) =~= Seq::empty());
        while i < compared.len()
            invariant
                *self == *old(self),
                0 <= i <= compared@.len(),
                first_match(compared@.take(i as int)) is None,
            decreases compared@.len() - i,
        {
            proof {
                let next = compared@.take(i + 1);
                assert(next.drop_last() =~= compared@.take(i as int));
                assert(next.last() == compared@[i as int]);
            }
            if compared[i].matched {
                proof {
                    lemma_first_match(compared@, i + 1);
                }
                let found = compared[i];
                self.forget_source(found.source);
                return found.window;
            }
            i = i + 1;
        }
        assert(compared@.take(i as int) =~= compared@);
        None
    }
}

/// A pending source that was compared with an element: is the element its content, and
/// what is its window?
#[derive(Clone, Copy, Debug, PartialEq, Eq, Structural)]
pub struct SourceMatch {
    pub source: u64,
    pub matched: bool,
    pub window: Option<isize>,
}

/// Which of the compared sources is the first that matched?
pub open spec fn first_match(compared: Seq<SourceMatch>) -> Option<int>
    decreases compared.len(),
{
    if compared.len() == 0 {
        None
    } else {
        match first_match(compared.drop_last()) {
            Some(i) => Some(i),
            None => if compared.last().matched {
                Some(compared.len() - 1)
            } else {
                None
            },
        }
    }
}

proof fn lemma_first_match(compared: Seq<SourceMatch>, n: int)
    requires
        0 <= n <= compared.len(),
        first_match(compared.take(n)) is Some,
    ensures
        first_match(compared) == first_match(compared.take(n)),
    decreases compared.len() - n,
{
    if n < compared.len() {
        let next = compared.take(n + 1);
        assert(next.drop_last() =~= compared.take(n));
        lemma_first_match(compared, n + 1);
    } else {
        assert(compared.take(n) =~= compared);
    }
}

/// What a climb through the ancestors of an element does next.
#[derive(Clone, Copy, Debug, PartialEq, Eq, Structural)]
pub enum ClimbStep {
    /// This is the element that was looked for.
    Found,
    /// Go on with the parent.
    Up,
    /// Not found within reach.
    GiveUp,
}

/// A climb from an element to its ancestors, looking for one of a class.
pub struct Climb {
    pub target: ElementClass,
    /// How many more elements may be looked at.
    pub left: u32,
    /// Is the ancestry collected?
    pub verbose: bool,
    /// The classes that were passed, for the report.
    pub chain: String,
}

/// The ancestry with one more class behind it.
pub open spec fn chained(chain: Seq<char>, class: Seq<char>) -> Seq<char> {
    let separated = if chain.len() == 0 {
        chain
    } else {
        chain + " <- "@
    };
    separated + (if class.len() == 0 {
        "?"@
    } else {
        class
    })
}

impl Climb {
    /// A climb that looks at no more than `limit` elements.
    pub fn new(target: ElementClass, limit: u32, verbose: bool) -> (r: Climb)
        ensures
            r.target == target,
            r.left == limit,
            r.verbose == verbose,
            r.chain@ == Seq::<char>::empty(),
    {
        Climb { target, left: limit, verbose, chain: String::new() }
    }

    /// Look at one element.
    pub fn look(&mut self, class: &str) -> (r: ClimbStep)
        ensures
            final(self).target == old(self).target,
            final(self).verbose == old(self).verbose,
            final(self).chain@ == (if old(self).verbose && old(self).left > 0 {
                chained(old(self).chain@, class@)
            } else {
                old(self).chain@
            }),
            final(self).left == (if r is Up {
                old(self).left - 1
            } else {
                old(self).left as int
            }),
            r == (if old(self).left == 0 {
                ClimbStep::GiveUp
            } else if class_named(class@) == old(self).target {
                ClimbStep::Found
            } else if old(self).left == 1 {
                ClimbStep::GiveUp
            } else {
                ClimbStep::Up
            }),
    {
        if self.left == 0 {
            return ClimbStep::GiveUp;
        }
        if self.verbose {
            let ghost before = self.chain@;
            let first = same_text(self.chain.as_str(), "");
            proof {
                reveal_strlit("");
                assert(before == ""@ <==> before.len() == 0) by {
                    if before.len() == 0 {
                        assert(before =~= ""@);
                    }
                }
                assert(class@ == ""@ <==> class@.len() == 0) by {
                    if class@.len() == 0 {
                        assert(class@ =~= ""@);
                    }
                }
            }
            if !first {
                self.chain.append(" <- ");
            }
            if same_text(class, "") {
                self.chain.append("?");
            } else {
                self.chain.append(class);
            }
            assert(self.chain@ =~= chained(before, class@));
        }
        let found = classify(class);
        if found == self.target {
            return ClimbStep::Found;
        }
        if self.left == 1 {
            return ClimbStep::GiveUp;
        }
        self.left = self.left - 1;
        ClimbStep::Up
    }
}

/// What to do about a frame that a climb found.
#[derive(Clone, Copy, Debug, PartialEq, Eq, Structural)]
pub enum Claim {
    /// It has no handle, or it is known already.
    Nothing,
    /// Register it for this taskbar, with the frame itself and its children, and
    /// schedule the delayed walk.
    Register { frame: u64, taskbar: isize },
    /// No taskbar window matches.
    NoTaskbar,
}

/// What to do about a frame that a climb found.
///
/// A frame that is already claimed is left alone: registering it again would re-run the
/// frame walk and arm the re-walk timer on every attempt.
pub fn claim_frame(handle: Option<u64>, registered: bool, taskbar: Option<isize>) -> (r: Claim)
    ensures
        r == (match handle {
            None => Claim::Nothing,
            Some(frame) => if registered {
                Claim::Nothing
            } else {
                match taskbar {
                    Some(taskbar) => Claim::Register { frame, taskbar },
                    None => Claim::NoTaskbar,
                }
            },
        }),
{
    match handle {
        None => Claim::Nothing,
        Some(frame) => if registered {
            Claim::Nothing
        } else {
            match taskbar {
                Some(taskbar) => Claim::Register { frame, taskbar },
                None => Claim::NoTaskbar,
            }
        },
    }
}

/// The taskbar that an island's window hangs under; a window without a parent hangs
/// under none.
pub fn taskbar_of_window(parent: isize) -> (r: Option<isize>)
    ensures
        r == (if parent != 0 {
            Some(parent)
        } else {
            None
        }),
{
    if parent != 0 {
        Some(parent)
    } else {
        None
    }
}

/// Which taskbar window a claimed frame belongs to: the one its island's window hangs
/// under, or else the one that its size fits.
pub fn taskbar_for_frame(of_island: Option<isize>, by_size: Option<isize>) -> (r: Option<isize>)
    ensures
        r == (if of_island is Some {
            of_island
        } else {
            by_size
        }),
{
    match of_island {
        Some(taskbar) => Some(taskbar),
        None => by_size,
    }
}

/// A taskbar window of the session, with the rectangles of its children that could be
/// read.
pub struct TaskbarWindow {
    pub handle: isize,
    /// The window's resolution; zero where it is not known.
    pub dpi: u32,
    pub children: Vec<ScreenRect>,
}

pub open spec fn distance(a: int, b: int) -> int {
    if a >= b {
        a - b
    } else {
        b - a
    }
}

/// The resolution to reckon with: an unknown one counts as the usual one.
pub open spec fn dpi_used(dpi: u32) -> int {
    if dpi == 0 {
        96
    } else {
        dpi as int
    }
}

/// Is a child window as large as a frame, up to eight physical pixels in all?
pub open spec fn fits_frame(child: ScreenRect, width: int, height: int, dpi: int) -> bool {
    distance((child.right - child.left) * 96000, width * dpi) + distance(
        (child.bottom - child.top) * 96000,
        height * dpi,
    ) <= 8 * 96000
}

impl TaskbarWindow {
    /// Is one of the children as large as a frame?
    pub open spec fn fits(self, width: int, height: int) -> bool {
        exists|i: int|
            0 <= i < self.children@.len() && fits_frame(
                #[trigger] self.children@[i],
                width,
                height,
                dpi_used(self.dpi),
            )
    }
}

fn child_fits(child: ScreenRect, width: i64, height: i64, dpi: u32) -> (r: bool)
    ensures
        r == fits_frame(child, width as int, height as int, dpi as int),
{
    let w: i128 = (child.right as i128 - child.left as i128) * 96000;
    let h: i128 = (child.bottom as i128 - child.top as i128) * 96000;
    assert(-0x8000_0000_0000_0000 * 0xffff_ffff <= width * dpi <= 0x7fff_ffff_ffff_ffff
        * 0xffff_ffff) by (nonlinear_arith)
        requires
            -0x8000_0000_0000_0000 <= width <= 0x7fff_ffff_ffff_ffff,
            0 <= dpi <= 0xffff_ffff,
    ;
    assert(-0x8000_0000_0000_0000 * 0xffff_ffff <= height * dpi <= 0x7fff_ffff_ffff_ffff
        * 0xffff_ffff) by (nonlinear_arith)
        requires
            -0x8000_0000_0000_0000 <= height <= 0x7fff_ffff_ffff_ffff,
            0 <= dpi <= 0xffff_ffff,
    ;
    let fw: i128 = width as i128 * dpi as i128;
    let fh: i128 = height as i128 * dpi as i128;
    assert(fw == width * dpi && fh == height * dpi);
    let dw: i128 = if w >= fw {
        w - fw
    } else {
        fw - w
    };
    let dh: i128 = if h >= fh {
        h - fh
    } else {
        fh - h
    };
    dw + dh <= 8 * 96000
}

fn window_fits(window: &TaskbarWindow, width: i64, height: i64) -> (r: bool)
    ensures
        r == window.fits(width as int, height as int),
{
    let dpi: u32 = if window.dpi == 0 {
        96
    } else {
        window.dpi
    };
    let mut i: usize = 0;
    while i < window.children.len()
        invariant
            0 <= i <= window.children@.len(),
            dpi == dpi_used(window.dpi),
            forall|k: int|
                0 <= k < i ==> !fits_frame(
                    #[trigger] window.children@[k],
                    width as int,
                    height as int,
                    dpi as int,
                ),
        decreases window.children@.len() - i,
    {
        if child_fits(window.children[i], width, height, dpi) {
            assert(fits_frame(
                window.children@[i as int],
                width as int,
                height as int,
                dpi_used(window.dpi),
            ));
            return true;
        }
        i = i + 1;
    }
    false
}

/// Is this the handle of a taskbar that fits the frame?
pub open spec fn fitting(windows: Seq<TaskbarWindow>, width: int, height: int, handle: isize) -> bool {
    exists|i: int|
        0 <= i < windows.len() && (#[trigger] windows[i]).handle == handle && windows[i].fits(
            width,
            height,
        )
}

/// The only taskbar that fits.
pub open spec fn only_fit(windows: Seq<TaskbarWindow>, width: int, height: int, handle: isize)
    -> bool {
    fitting(windows, width, height, handle) && forall|other: isize|
        fitting(windows, width, height, other) ==> other == handle
}

/// The only taskbar that fits and has no island yet.
pub open spec fn only_free_fit(
    windows: Seq<TaskbarWindow>,
    width: int,
    height: int,
    claimed: Seq<isize>,
    handle: isize,
) -> bool {
    fitting(windows, width, height, handle) && !claimed.contains(handle) && forall|other: isize|
        fitting(windows, width, height, other) && !claimed.contains(other) ==> other == handle
}

fn list_contains(list: &Vec<isize>, value: isize) -> (r: bool)
    ensures
        r == list@.contains(value),
{
    let mut i: usize = 0;
    while i < list.len()
        invariant
            0 <= i <= list@.len(),
            forall|k: int| 0 <= k < i ==> list@[k] != value,
        decreases list@.len() - i,
    {
        if list[i] == value {
            return true;
        }
        i = i + 1;
    }
    false
}

/// The taskbar whose island is the size of a frame, when that is a single candidate.
///
/// Two monitors of the same size are indistinguishable by size alone. When more than
/// one taskbar matches, the frame is attributed by elimination: if exactly one of them
/// still has no island, the frame is that one's. Nothing is claimed when even that
/// cannot tell them apart.
pub fn taskbar_by_size(
    windows: &Vec<TaskbarWindow>,
    width: i64,
    height: i64,
    claimed: &Vec<isize>,
) -> (r: Option<isize>)
    ensures
        match r {
            Some(handle) => only_fit(windows@, width as int, height as int, handle)
                || only_free_fit(windows@, width as int, height as int, claimed@, handle),
            None => forall|handle: isize|
                !only_fit(windows@, width as int, height as int, handle) && !only_free_fit(
                    windows@,
                    width as int,
                    height as int,
                    claimed@,
                    handle,
                ),
        },
{
    let ghost w = width as int;
    let ghost h = height as int;
    let mut matched: Vec<isize> = Vec::new();
    let mut i: usize = 0;
    while i < windows.len()
        invariant
            0 <= i <= windows@.len(),
            w == width,
            h == height,
            matched@.no_duplicates(),
            forall|handle: isize|
                matched@.contains(handle) <==> exists|k: int|
                    0 <= k < i && (#[trigger] windows@[k]).handle == handle && windows@[k].fits(
                        w,
                        h,
                    ),
        decreases windows@.len() - i,
    {
        let ghost before = matched@;
        if window_fits(&windows[i], width, height) && !list_contains(&matched, windows[i].handle) {
            matched.push(windows[i].handle);
        }
        proof {
            let added = windows@[i as int].handle;
            assert forall|handle: isize|
                matched@.contains(handle) <==> exists|k: int|
                    0 <= k < i + 1 && (#[trigger] windows@[k]).handle == handle
                        && windows@[k].fits(w, h) by {
                if matched@.contains(handle) {
                    let at = matched@.index_of(handle);
                    if at < before.len() {
                        assert(before[at] == handle);
                        assert(before.contains(handle));
                        let k = choose|k: int|
                            0 <= k < i && (#[trigger] windows@[k]).handle == handle
                                && windows@[k].fits(w, h);
                        assert(windows@[k].handle == handle);
                    } else {
                        assert(windows@[i as int].handle == handle);
                    }
                }
                if exists|k: int|
                    0 <= k < i + 1 && (#[trigger] windows@[k]).handle == handle
                        && windows@[k].fits(w, h) {
                    let k = choose|k: int|
                        0 <= k < i + 1 && (#[trigger] windows@[k]).handle == handle
                            && windows@[k].fits(w, h);
                    if k < i {
                        assert(before.contains(handle));
                        let at = before.index_of(handle);
                        assert(matched@[at] == handle);
                    } else if before.contains(handle) {
                        let at = before.index_of(handle);
                        assert(matched@[at] == handle);
                    } else {
                        assert(matched@[before.len() as int] == handle);
                    }
                }
            }
        }
        i = i + 1;
    }
    proof {
        assert forall|handle: isize| matched@.contains(handle) <==> fitting(windows@, w, h, handle) by {}
    }
    if matched.len() == 1 {
        let only: isize = matched[0];
        proof {
            assert(matched@.contains(only));
            assert forall|other: isize| fitting(windows@, w, h, other) implies other == only by {
                assert(matched@.contains(other));
            }
        }
        return Some(only);
    }
    let mut free: Vec<isize> = Vec::new();
    let mut j: usize = 0;
    while j < matched.len()
        invariant
            0 <= j <= matched@.len(),
            matched@.no_duplicates(),
            free@.no_duplicates(),
            forall|handle: isize|
                free@.contains(handle) <==> !claimed@.contains(handle) && exists|k: int|
                    0 <= k < j && #[trigger] matched@[k] == handle,
        decreases matched@.len() - j,
    {
        let ghost before = free@;
        if !list_contains(claimed, matched[j]) {
            assert(!before.contains(matched@[j as int]));
            free.push(matched[j]);
        }
        proof {
            assert forall|handle: isize|
                free@.contains(handle) <==> !claimed@.contains(handle) && exists|k: int|
                    0 <= k < j + 1 && #[trigger] matched@[k] == handle by {
                if free@.contains(handle) {
                    let at = free@.index_of(handle);
                    if at < before.len() {
                        assert(before[at] == handle);
                        assert(before.contains(handle));
                        let k = choose|k: int| 0 <= k < j && #[trigger] matched@[k] == handle;
                        assert(matched@[k] == handle);
                    } else {
                        assert(matched@[j as int] == handle);
                    }
                }
                if !claimed@.contains(handle) && exists|k: int|
                    0 <= k < j + 1 && #[trigger] matched@[k] == handle {
                    let k = choose|k: int| 0 <= k < j + 1 && #[trigger] matched@[k] == handle;
                    if k < j {
                        assert(before.contains(handle));
                        let at = before.index_of(handle);
                        assert(free@[at] == handle);
                    } else {
                        assert(free@[before.len() as int] == handle);
                    }
                }
            }
        }
        j = j + 1;
    }
    proof {
        assert forall|handle: isize|
            free@.contains(handle) <==> fitting(windows@, w, h, handle) && !claimed@.contains(
                handle,
            ) by {
            if fitting(windows@, w, h, handle) {
                assert(matched@.contains(handle));
                let k = matched@.index_of(handle);
                assert(matched@[k] == handle);
            }
            if free@.contains(handle) {
                let k = choose|k: int| 0 <= k < j && #[trigger] matched@[k] == handle;
                assert(matched@.contains(handle));
            }
        }
        assert forall|handle: isize| !only_fit(windows@, w, h, handle) by {
            if only_fit(windows@, w, h, handle) {
                assert(matched@.contains(handle));
                let k = matched@.index_of(handle);
                if matched@.len() > 1 {
                    let other = matched@[if k == 0 {
                        1
                    } else {
                        0
                    }];
                    assert(matched@.contains(other));
                    assert(fitting(windows@, w, h, other));
                }
            }
        }
    }
    if free.len() == 1 {
        let only: isize = free[0];
        proof {
            assert(free@.contains(only));
            assert forall|other: isize|
                fitting(windows@, w, h, other) && !claimed@.contains(other) implies other == only by {
                assert(free@.contains(other));
            }
        }
        return Some(only);
    }
    proof {
        assert forall|handle: isize| !only_free_fit(windows@, w, h, claimed@, handle) by {
            if only_free_fit(windows@, w, h, claimed@, handle) {
                assert(free@.contains(handle));
                let k = free@.index_of(handle);
                let other = free@[if k == 0 {
                    1
                } else {
                    0
                }];
                assert(free@.contains(other));
            }
        }
    }
    None
}

/// What a walk reads of an element.
#[derive(Clone, Copy, Debug, PartialEq, Eq, Structural)]
pub struct Element {
    /// The walk's own number for the element, to come back to it.
    pub token: usize,
    /// The framework's number for it, if it has one.
    pub handle: Option<u64>,
    pub class: ElementClass,
    /// Its size; zero where it cannot be read.
    pub width: i64,
    pub height: i64,
    /// For a border, the thickness of its top edge; zero where it cannot be read.
    pub top: i64,
}

impl Element {
    pub open spec fn area(self) -> int {
        self.width * self.height
    }

    /// Does the element span the frame? A frame of unknown size disqualifies every
    /// candidate.
    pub open spec fn spans(self, frame_width: Option<i64>) -> bool {
        match frame_width {
            Some(frame) => self.width * 10 >= frame * 8,
            None => false,
        }
    }

    /// Is it a full-width, hair-tall rectangle?
    pub open spec fn is_hairline(self, frame_width: Option<i64>) -> bool {
        &&& self.class == ElementClass::Rectangle
        &&& 0 < self.height <= HAIRLINE_MAX_HEIGHT
        &&& self.spans(frame_width)
    }

    /// Is it a full-width border with a top edge?
    pub open spec fn is_hairline_border(self, frame_width: Option<i64>) -> bool {
        self.class == ElementClass::Border && self.top > 0 && self.spans(frame_width)
    }

    /// Is it too tall to be a strip?
    pub open spec fn is_tall(self) -> bool {
        self.height > HAIRLINE_BORDER_STRIP_HEIGHT
    }
}

fn spans_frame(width: i64, frame_width: Option<i64>) -> (r: bool)
    ensures
        r == (match frame_width {
            Some(frame) => width * 10 >= frame * 8,
            None => false,
        }),
{
    match frame_width {
        None => false,
        Some(frame) => width as i128 * 10 >= frame as i128 * 8,
    }
}

/// The background candidate: the area of the largest rectangle so far, and its handle.
#[derive(Clone, Copy, Debug, PartialEq, Eq, Structural)]
pub struct Largest {
    pub area: i128,
    pub handle: u64,
}

/// The hairline border candidate: strips before frame-sized, lower height first within
/// each.
#[derive(Clone, Copy, Debug, PartialEq, Eq, Structural)]
pub struct Thinnest {
    pub tall: bool,
    pub height: i64,
    pub handle: u64,
}

/// The background candidate after one more element.
pub open spec fn larger(best: Option<Largest>, element: Element) -> Option<Largest> {
    if element.class == ElementClass::Rectangle && element.handle is Some && (best is None
        || element.area() > best->0.area) {
        Some(Largest { area: element.area() as i128, handle: element.handle->0 })
    } else {
        best
    }
}

/// Does this border beat the candidate?
pub open spec fn beats(element: Element, best: Option<Thinnest>) -> bool {
    match best {
        None => true,
        Some(other) => (!element.is_tall() && other.tall) || (element.is_tall() == other.tall
            && element.height < other.height),
    }
}

/// The hairline border candidate after one more element.
pub open spec fn thinner(
    best: Option<Thinnest>,
    element: Element,
    frame_width: Option<i64>,
) -> Option<Thinnest> {
    if element.is_hairline_border(frame_width) && element.handle is Some && beats(element, best) {
        Some(
            Thinnest {
                tall: element.is_tall(),
                height: element.height,
                handle: element.handle->0,
            },
        )
    } else {
        best
    }
}

/// The walk of a frame's children that looks for its background rectangle and its
/// hairline.
///
/// The taskbar paints its background with one big rectangle; the other shapes in the
/// island are small. Picking is by size rather than by name, because the name property
/// cannot be read from outside without faulting inside the shell. A null fill does not
/// disqualify: the shell has usually not painted the background yet.
pub struct FrameWalk {
    /// Only a sanity bound on the hairline candidates; without it no hairline is
    /// claimed at all rather than a small rectangle being taken for one.
    pub frame_width: Option<i64>,
    pub queue: Vec<usize>,
    pub visited: usize,
    pub best: Option<Largest>,
    pub border: Option<Thinnest>,
    pub border_logs: usize,
}

/// What an element that a walk has looked at asks for.
#[derive(Clone, Copy, Debug, PartialEq, Eq, Structural)]
pub struct Seen {
    /// Register this rectangle as a hairline carrier.
    pub carrier: Option<u64>,
    /// Report this border.
    pub log: bool,
}

impl FrameWalk {
    pub open spec fn wf(self) -> bool {
        self.border_logs <= BORDER_LOG_LIMIT
    }

    /// A walk that starts at the frame itself.
    pub fn new(frame: usize, frame_width: Option<i64>) -> (r: FrameWalk)
        ensures
            r.wf(),
            r.queue@ == seq![frame],
            r.visited == 0,
            r.best is None,
            r.border is None,
            r.border_logs == 0,
            r.frame_width == (match frame_width {
                Some(width) if width > 0 => Some(width),
                _ => None,
            }),
    {
        let mut queue: Vec<usize> = Vec::new();
        queue.push(frame);
        assert(queue@ =~= seq![frame]);
        let frame_width = match frame_width {
            Some(width) => if width > 0 {
                Some(width)
            } else {
                None
            },
            None => None,
        };
        FrameWalk {
            frame_width,
            queue,
            visited: 0,
            best: None,
            border: None,
            border_logs: 0,
        }
    }

    /// The next element whose children are to be looked at. The walk ends when nothing
    /// is left, or at the element with which the tree turns out larger than expected; that
    /// one is counted too.
    pub fn next(&mut self) -> (r: Option<usize>)
        requires
            old(self).wf(),
            old(self).visited < usize::MAX,
        ensures
            final(self).wf(),
            old(self).queue@.len() == 0 ==> {
                &&& r is None
                &&& final(self).queue@ == old(self).queue@
                &&& final(self).visited == old(self).visited
            },
            old(self).queue@.len() > 0 ==> {
                &&& r == (if old(self).visited < WALK_LIMIT {
                    Some(old(self).queue@.last())
                } else {
                    None
                })
                &&& final(self).queue@ == old(self).queue@.drop_last()
                &&& final(self).visited == old(self).visited + 1
            },
            final(self).frame_width == old(self).frame_width,
            final(self).best == old(self).best,
            final(self).border == old(self).border,
            final(self).border_logs == old(self).border_logs,
    {
        match self.queue.pop() {
            None => None,
            Some(element) => {
                self.visited = self.visited + 1;
                if self.visited > WALK_LIMIT {
                    return None;
                }
                Some(element)
            },
        }
    }

    /// Has the walk come upon more elements than it looks at?
    pub fn too_large(&self) -> (r: bool)
        ensures
            r == (self.visited > WALK_LIMIT),
    {
        self.visited > WALK_LIMIT
    }

    /// Look at one child of the current element.
    pub fn see(&mut self, element: Element) -> (r: Seen)
        requires
            old(self).wf(),
        ensures
            final(self).wf(),
            final(self).frame_width == old(self).frame_width,
            final(self).visited == old(self).visited,
            final(self).best == larger(old(self).best, element),
            final(self).border == thinner(old(self).border, element, old(self).frame_width),
            final(self).queue@ == (if element.class == ElementClass::Rectangle {
                old(self).queue@
            } else {
                old(self).queue@.push(element.token)
            }),
            r.carrier == (if element.is_hairline(old(self).frame_width) {
                element.handle
            } else {
                None
            }),
            r.log == (element.class == ElementClass::Border && element.top > 0 && old(
                self,
            ).border_logs < BORDER_LOG_LIMIT),
            final(self).border_logs == (if r.log {
                old(self).border_logs + 1
            } else {
                old(self).border_logs as int
            }),
    {
        let mut seen = Seen { carrier: None, log: false };
        match element.class {
            ElementClass::Rectangle => {
                let w: i128 = element.width as i128;
                let h: i128 = element.height as i128;
                assert(-0x8000_0000_0000_0000 * 0x8000_0000_0000_0000 <= w * h
                    <= 0x8000_0000_0000_0000 * 0x8000_0000_0000_0000) by (nonlinear_arith)
                    requires
                        -0x8000_0000_0000_0000 <= w <= 0x7fff_ffff_ffff_ffff,
                        -0x8000_0000_0000_0000 <= h <= 0x7fff_ffff_ffff_ffff,
                ;
                let area: i128 = w * h;
                assert(area == element.area());
                let larger = match self.best {
                    None => true,
                    Some(best) => area > best.area,
                };
                if larger {
                    match element.handle {
                        None => {},
                        Some(handle) => {
                            self.best = Some(Largest { area, handle });
                        },
                    }
                }
                // Every full-width, hair-tall rectangle is a carrier, not just the
                // widest one.
                if element.height > 0 && element.height <= HAIRLINE_MAX_HEIGHT && spans_frame(
                    element.width,
                    self.frame_width,
                ) {
                    seen.carrier = element.handle;
                }
            },
            ElementClass::Border => {
                if element.top > 0 && spans_frame(element.width, self.frame_width) {
                    match element.handle {
                        None => {},
                        Some(handle) => {
                            let tall = element.height > HAIRLINE_BORDER_STRIP_HEIGHT;
                            let better = match self.border {
                                None => true,
                                Some(best) => (!tall && best.tall) || (tall == best.tall
                                    && element.height < best.height),
                            };
                            if better {
                                self.border = Some(
                                    Thinnest { tall, height: element.height, handle },
                                );
                            }
                        },
                    }
                }
                if element.top > 0 && self.border_logs < BORDER_LOG_LIMIT {
                    self.border_logs = self.border_logs + 1;
                    seen.log = true;
                }
                self.queue.push(element.token);
            },
            _ => {
                self.queue.push(element.token);
            },
        }
        seen
    }

    /// What the walk has found: the background rectangle and the hairline border.
    pub fn register_frame_children(&self) -> (r: (Option<u64>, Option<u64>))
        ensures
            r.0 == (match self.best {
                Some(best) => Some(best.handle),
                None => None,
            }),
            r.1 == (match self.border {
                Some(border) => Some(border.handle),
                None => None,
            }),
    {
        (
            match self.best {
                Some(best) => Some(best.handle),
                None => None,
            },
            match self.border {
                Some(border) => Some(border.handle),
                None => None,
            },
        )
    }
}

/// The background candidate after a number of elements.
pub open spec fn largest_of(elements: Seq<Element>) -> Option<Largest>
    decreases elements.len(),
{
    if elements.len() == 0 {
        None
    } else {
        larger(largest_of(elements.drop_last()), elements.last())
    }
}

/// The hairline border candidate after a number of elements.
pub open spec fn thinnest_of(elements: Seq<Element>, frame_width: Option<i64>) -> Option<Thinnest>
    decreases elements.len(),
{
    if elements.len() == 0 {
        None
    } else {
        thinner(thinnest_of(elements.drop_last(), frame_width), elements.last(), frame_width)
    }
}

/// The background is a rectangle that was seen, and none that was seen is larger.
pub proof fn the_background_is_the_largest_rectangle(elements: Seq<Element>)
    ensures
        match largest_of(elements) {
            None => forall|i: int|
                0 <= i < elements.len() ==> !((#[trigger] elements[i]).class
                    == ElementClass::Rectangle && elements[i].handle is Some),
            Some(best) => {
                &&& exists|i: int|
                    0 <= i < elements.len() && (#[trigger] elements[i]).class
                        == ElementClass::Rectangle && elements[i].handle == Some(best.handle)
                        && elements[i].area() == best.area
                &&& forall|i: int|
                    0 <= i < elements.len() && (#[trigger] elements[i]).class
                        == ElementClass::Rectangle && elements[i].handle is Some
                        ==> elements[i].area() <= best.area
            },
        },
    decreases elements.len(),
{
    if elements.len() > 0 {
        let before = elements.drop_last();
        let last = elements.last();
        the_background_is_the_largest_rectangle(before);
        assert forall|i: int| 0 <= i < before.len() implies before[i] == elements[i] by {}
        lemma_area_fits(last);
        if larger(largest_of(before), last) != largest_of(before) {
            assert(elements[elements.len() - 1] == last);
        } else if largest_of(before) is Some {
            let best = largest_of(before)->0;
            let i = choose|i: int|
                0 <= i < before.len() && (#[trigger] before[i]).class == ElementClass::Rectangle
                    && before[i].handle == Some(best.handle) && before[i].area() == best.area;
            assert(elements[i] == before[i]);
        }
    }
}

proof fn lemma_area_fits(element: Element)
    ensures
        element.area() as i128 == element.area(),
{
    let w = element.width as int;
    let h = element.height as int;
    assert(-0x8000_0000_0000_0000 * 0x8000_0000_0000_0000 <= w * h <= 0x8000_0000_0000_0000
        * 0x8000_0000_0000_0000) by (nonlinear_arith)
        requires
            -0x8000_0000_0000_0000 <= w <= 0x7fff_ffff_ffff_ffff,
            -0x8000_0000_0000_0000 <= h <= 0x7fff_ffff_ffff_ffff,
    ;
}

/// The hairline border is one that was seen: a strip if there was any, and no taller than
/// any other of its kind.
pub proof fn the_hairline_border_is_the_thinnest(elements: Seq<Element>, frame_width: Option<i64>)
    ensures
        match thinnest_of(elements, frame_width) {
            None => forall|i: int|
                0 <= i < elements.len() ==> !((#[trigger] elements[i]).is_hairline_border(
                    frame_width,
                ) && elements[i].handle is Some),
            Some(best) => {
                &&& exists|i: int|
                    0 <= i < elements.len() && (#[trigger] elements[i]).is_hairline_border(
                        frame_width,
                    ) && elements[i].handle == Some(best.handle) && elements[i].height
                        == best.height && elements[i].is_tall() == best.tall
                &&& forall|i: int|
                    0 <= i < elements.len() && (#[trigger] elements[i]).is_hairline_border(
                        frame_width,
                    ) && elements[i].handle is Some ==> (best.tall ==> elements[i].is_tall()) && (
                    elements[i].is_tall() == best.tall ==> best.height <= elements[i].height)
            },
        },
    decreases elements.len(),
{
    if elements.len() > 0 {
        let before = elements.drop_last();
        let last = elements.last();
        the_hairline_border_is_the_thinnest(before, frame_width);
        assert forall|i: int| 0 <= i < before.len() implies before[i] == elements[i] by {}
        let held = thinnest_of(before, frame_width);
        if last.is_hairline_border(frame_width) && last.handle is Some && beats(last, held) {
            assert(elements[elements.len() - 1] == last);
        } else if held is Some {
            let best = held->0;
            let i = choose|i: int|
                0 <= i < before.len() && (#[trigger] before[i]).is_hairline_border(frame_width)
                    && before[i].handle == Some(best.handle) && before[i].height == best.height
                    && before[i].is_tall() == best.tall;
            assert(elements[i] == before[i]);
        }
    }
}

/// The delayed walk of the claimed frames, once the layout has settled.
///
/// The claim-time walk runs while the shell is still building the island, where
/// frame-wide elements still read as empty; by now every element has its real size.
pub struct Rewalk {
    pub queue: Vec<usize>,
    pub visited: usize,
    pub seen: usize,
}

/// What the delayed walk makes of an element.
#[derive(Clone, Copy, Debug, PartialEq, Eq, Structural)]
pub struct FrameWide {
    /// It spans a taskbar: report it.
    pub report: bool,
    /// It is a border to be registered.
    pub border: bool,
    /// It is a hairline rectangle to be registered.
    pub rectangle: bool,
}

impl Rewalk {
    pub open spec fn wf(self) -> bool {
        self.seen <= self.visited
    }

    pub fn new() -> (r: Rewalk)
        ensures
            r.wf(),
            r.queue@ == Seq::<usize>::empty(),
            r.visited == 0,
            r.seen == 0,
    {
        Rewalk { queue: Vec::new(), visited: 0, seen: 0 }
    }

    /// Go on with another frame.
    pub fn begin_frame(&mut self, frame: usize)
        requires
            old(self).wf(),
        ensures
            final(self).wf(),
            final(self).queue@ == seq![frame],
            final(self).visited == old(self).visited,
            final(self).seen == old(self).seen,
    {
        let mut queue: Vec<usize> = Vec::new();
        queue.push(frame);
        assert(queue@ =~= seq![frame]);
        self.queue = queue;
    }

    /// The next element to be looked at. A frame's walk ends when nothing is left, or at
    /// the element with which the trees turn out larger than expected; that one is counted
    /// too.
    pub fn next(&mut self) -> (r: Option<usize>)
        requires
            old(self).wf(),
            old(self).visited < usize::MAX,
        ensures
            final(self).wf(),
            final(self).seen == old(self).seen,
            old(self).queue@.len() == 0 ==> {
                &&& r is None
                &&& final(self).queue@ == old(self).queue@
                &&& final(self).visited == old(self).visited
            },
            old(self).queue@.len() > 0 ==> {
                &&& r == (if old(self).visited < REWALK_LIMIT {
                    Some(old(self).queue@.last())
                } else {
                    None
                })
                &&& final(self).queue@ == old(self).queue@.drop_last()
                &&& final(self).visited == old(self).visited + 1
            },
    {
        match self.queue.pop() {
            None => None,
            Some(element) => {
                self.visited = self.visited + 1;
                if self.visited > REWALK_LIMIT {
                    return None;
                }
                Some(element)
            },
        }
    }

    /// Has the walk come upon more elements than it looks at?
    pub fn too_large(&self) -> (r: bool)
        ensures
            r == (self.visited > REWALK_LIMIT),
    {
        self.visited > REWALK_LIMIT
    }

    /// Look at the current element.
    pub fn look(&mut self, class: ElementClass, width: i64, height: i64) -> (r: FrameWide)
        requires
            old(self).wf(),
            old(self).seen < old(self).visited,
        ensures
            final(self).wf(),
            final(self).queue@ == old(self).queue@,
            final(self).visited == old(self).visited,
            r.report == (width >= FRAME_WIDE_MIN),
            r.border == (r.report && class == ElementClass::Border),
            r.rectangle == (r.report && class == ElementClass::Rectangle && 0 < height
                <= HAIRLINE_MAX_HEIGHT),
            final(self).seen == (if r.report {
                old(self).seen + 1
            } else {
                old(self).seen as int
            }),
    {
        if width < FRAME_WIDE_MIN {
            return FrameWide { report: false, border: false, rectangle: false };
        }
        self.seen = self.seen + 1;
        FrameWide {
            report: true,
            border: class == ElementClass::Border,
            rectangle: class == ElementClass::Rectangle && height > 0 && height
                <= HAIRLINE_MAX_HEIGHT,
        }
    }

    /// Go on with a child of the current element later.
    pub fn enqueue(&mut self, child: usize)
        requires
            old(self).wf(),
        ensures
            final(self).wf(),
            final(self).queue@ == old(self).queue@.push(child),
            final(self).visited == old(self).visited,
            final(self).seen == old(self).seen,
    {
        self.queue.push(child);
    }

    /// Has the walk seen anything at all?
    pub fn rewalk(&self) -> (r: bool)
        ensures
            r == (self.visited > 0),
    {
        self.visited > 0
    }
}

/// Is a background border the frame's own? The name also appears in taskbar-button
/// templates, so only a frame-sized one is.
pub fn register_background_border(width: i64, frame_width: Option<i64>) -> (r: bool)
    ensures
        r == (match frame_width {
            Some(frame) => width * 10 >= frame * 8,
            None => false,
        }),
{
    spans_frame(width, frame_width)
}

/// What becomes of a rectangle that was found.
#[derive(Clone, Copy, Debug, PartialEq, Eq, Structural)]
pub enum RectangleUse {
    Nothing,
    Background,
    Border,
}

/// What becomes of a rectangle that was found. Names repeat across unrelated trees;
/// only shapes are interesting.
pub fn register_rectangle(found: bool, is_shape: bool, background: bool) -> (r: RectangleUse)
    ensures
        r == (if !found || !is_shape {
            RectangleUse::Nothing
        } else if background {
            RectangleUse::Background
        } else {
            RectangleUse::Border
        }),
{
    if !found || !is_shape {
        RectangleUse::Nothing
    } else if background {
        RectangleUse::Background
    } else {
        RectangleUse::Border
    }
}

/// What follows a connection attempt: the command window goes up at once, because the
/// host looks for it right after injecting, and the ready event, if there is one, is
/// signalled.
pub fn advised(ok: bool, ready_event: isize) -> (r: (bool, bool))
    ensures
        r.0 == ok,
        r.1 == (ok && ready_event != 0),
{
    (ok, ok && ready_event != 0)
}

/// A class is told by its full name, and any other name is none of them.
pub proof fn a_class_is_told_by_its_name(name: Seq<char>)
    ensures
        class_named("Windows.UI.Xaml.Hosting.DesktopWindowXamlSource"@)
            == ElementClass::XamlSource,
        class_named("Taskbar.TaskbarFrame"@) == ElementClass::TaskbarFrame,
        class_named("Windows.UI.Xaml.Shapes.Rectangle"@) == ElementClass::Rectangle,
        class_named("Windows.UI.Xaml.Controls.Border"@) == ElementClass::Border,
        name != "Windows.UI.Xaml.Hosting.DesktopWindowXamlSource"@ && name
            != "Taskbar.TaskbarFrame"@ && name != "Windows.UI.Xaml.Shapes.Rectangle"@ && name
            != "Windows.UI.Xaml.Controls.Border"@ ==> class_named(name) == ElementClass::Other,
{
    reveal_strlit("Windows.UI.Xaml.Hosting.DesktopWindowXamlSource");
    reveal_strlit("Taskbar.TaskbarFrame");
    reveal_strlit("Windows.UI.Xaml.Shapes.Rectangle");
    reveal_strlit("Windows.UI.Xaml.Controls.Border");
    assert("Windows.UI.Xaml.Hosting.DesktopWindowXamlSource"@.len() == 47);
    assert("Taskbar.TaskbarFrame"@.len() == 20);
    assert("Windows.UI.Xaml.Shapes.Rectangle"@.len() == 32);
    assert("Windows.UI.Xaml.Controls.Border"@.len() == 31);
}

/// An added element asks for what it is: a frame to be claimed with the parent as the root of
/// its island, a rectangle of the background by one of its two names, a border by its name. An
/// element of another name or class asks for nothing.
pub proof fn an_added_element_asks_for_what_it_is(
    relation: ParentChildRelation,
    handle: u64,
    class: Seq<char>,
    name: Seq<char>,
)
    ensures
        ({
            let added = added_action(relation, handle, class, name);
            let kind = class_named(class);
            &&& kind == ElementClass::TaskbarFrame ==> added == (Added::Frame {
                frame: handle,
                root: relation.parent,
            })
            &&& kind == ElementClass::Rectangle && name == "BackgroundFill"@ ==> added
                == (Added::Rectangle {
                rectangle: handle,
                below: relation.parent,
                background: true,
            })
            &&& kind == ElementClass::Rectangle && name == "BackgroundStroke"@ ==> added
                == (Added::Rectangle {
                rectangle: handle,
                below: relation.parent,
                background: false,
            })
            &&& kind == ElementClass::Border && name == "BackgroundElement"@ ==> added
                == (Added::Border { border: handle, below: relation.parent })
            &&& kind == ElementClass::XamlSource || kind == ElementClass::Other ==> added
                is Nothing
            &&& kind == ElementClass::Rectangle && name != "BackgroundFill"@ && name
                != "BackgroundStroke"@ ==> added is Nothing
            &&& kind == ElementClass::Border && name != "BackgroundElement"@ ==> added is Nothing
        }),
{
    reveal_strlit("BackgroundFill");
    reveal_strlit("BackgroundStroke");
    assert("BackgroundFill"@.len() == 14);
    assert("BackgroundStroke"@.len() == 16);
}

/// The first thirty events may all look for a taskbar; after them one in half a second may,
/// and after a hundred and twenty walks none.
pub proof fn claims_are_spaced_out(watcher: Watcher, now: u64)
    ensures
        watcher.claim_attempts < 30 ==> watcher.claim_open(now),
        30 <= watcher.claim_attempts < 120 && watcher.last_claim is None ==> watcher.claim_open(now),
        30 <= watcher.claim_attempts < 120 ==> (watcher.last_claim matches Some(last) ==> (
        watcher.claim_open(now) <==> now >= last + 500)),
        watcher.claim_attempts >= 120 ==> !watcher.claim_open(now),
{
}

/// The source that is found is the first one that matched, and none is found only where none
/// matched.
pub proof fn the_first_matching_source_is_found(compared: Seq<SourceMatch>)
    ensures
        match first_match(compared) {
            Some(i) => {
                &&& 0 <= i < compared.len()
                &&& compared[i].matched
                &&& forall|k: int| 0 <= k < i ==> !(#[trigger] compared[k]).matched
            },
            None => forall|k: int| 0 <= k < compared.len() ==> !(#[trigger] compared[k]).matched,
        },
    decreases compared.len(),
{
    if compared.len() > 0 {
        let before = compared.drop_last();
        the_first_matching_source_is_found(before);
        assert forall|k: int| 0 <= k < before.len() implies before[k] == compared[k] by {}
    }
}

/// A child window of a taskbar fits a frame when its two sides are off by eight pixels at most,
/// taken together; the frame's size in thousandths is scaled by the resolution first, and an
/// unknown resolution counts as ninety-six.
pub proof fn a_fitting_child_is_as_large_as_the_frame(
    child: ScreenRect,
    width: int,
    height: int,
    dpi: u32,
)
    ensures
        ({
            let used = if dpi == 0 {
                96
            } else {
                dpi as int
            };
            let wide = (child.right - child.left) * 96_000;
            let tall = (child.bottom - child.top) * 96_000;
            let off_w = wide - width * used;
            let off_h = tall - height * used;
            fits_frame(child, width, height, dpi_used(dpi)) <==> off_w + off_h <= 768_000 && off_w
                - off_h <= 768_000 && -off_w + off_h <= 768_000 && -off_w - off_h <= 768_000
        }),
{
}

/// An element spans a frame when it is at least eight tenths as wide; a hairline is such a
/// rectangle of up to three units, a hairline border such a border with a top edge, and a
/// border is a strip up to six units.
pub proof fn a_hairline_spans_its_frame(element: Element, frame: i64)
    ensures
        element.spans(Some(frame)) <==> 10 * element.width >= 8 * frame,
        !element.spans(None),
        element.is_hairline(Some(frame)) <==> element.class == ElementClass::Rectangle && 1
            <= element.height <= 3000 && 10 * element.width >= 8 * frame,
        element.is_hairline_border(Some(frame)) <==> element.class == ElementClass::Border
            && element.top > 0 && 10 * element.width >= 8 * frame,
        !element.is_hairline(None) && !element.is_hairline_border(None),
        element.is_tall() <==> element.height > 6000,
{
}

/// The ancestry reads from the element upwards, with an arrow between two classes and a mark
/// for a class without a name.
pub proof fn an_ancestry_reads_upwards(chain: Seq<char>, class: Seq<char>)
    ensures
        chain.len() == 0 && class.len() > 0 ==> chained(chain, class) == class,
        chain.len() > 0 && class.len() > 0 ==> chained(chain, class) == chain + " <- "@ + class,
        chain.len() > 0 && class.len() == 0 ==> chained(chain, class) == chain + " <- "@ + "?"@,
        chain.len() == 0 && class.len() == 0 ==> chained(chain, class) == "?"@,
{
    if chain.len() == 0 {
        assert(chain + class =~= class);
        assert(chain + "?"@ =~= "?"@);
    }
}

/// A walk looks at four thousand elements at most and a delayed one at six thousand; a climb
/// goes up forty elements to a frame and sixteen to an island. An element counts as wide as a
/// frame from a thousand units on.
pub proof fn walks_have_an_end()
    ensures
        WALK_LIMIT == 4000,
        REWALK_LIMIT == 6000,
        CLAIM_CLIMB_LIMIT == 40,
        ISLAND_CLIMB_LIMIT == 16,
        FRAME_WIDE_MIN == 1000 * 1000,
        HAIRLINE_MAX_HEIGHT == 3 * 1000,
        BORDER_LOG_LIMIT == 40,
        CLAIM_VERBOSE == 3,
{
}

/// A frame is given to a taskbar by its size only when that leaves no doubt: of two that fit,
/// neither is the only one, and of two that fit and have no island yet, neither is the only free
/// one. A taskbar that alone fits is the one, and one that has an island already is never free.
pub proof fn an_ambiguous_frame_is_left_alone(
    windows: Seq<TaskbarWindow>,
    width: int,
    height: int,
    claimed: Seq<isize>,
    i: int,
    j: int,
)
    requires
        0 <= i < windows.len(),
        0 <= j < windows.len(),
        windows[i].handle != windows[j].handle,
        windows[i].fits(width, height),
    ensures
        ({
            let (one, other) = (windows[i].handle, windows[j].handle);
            &&& windows[j].fits(width, height) ==> !only_fit(windows, width, height, one)
                && !only_fit(windows, width, height, other)
            &&& windows[j].fits(width, height) && !claimed.contains(one) && !claimed.contains(other)
                ==> !only_free_fit(windows, width, height, claimed, one) && !only_free_fit(
                windows,
                width,
                height,
                claimed,
                other,
            )
            &&& claimed.contains(one) ==> !only_free_fit(windows, width, height, claimed, one)
            &&& (forall|k: int|
                0 <= k < windows.len() && (#[trigger] windows[k]).handle != one
                    ==> !windows[k].fits(width, height)) ==> only_fit(windows, width, height, one)
        }),
{
    let (one, other) = (windows[i].handle, windows[j].handle);
    assert(fitting(windows, width, height, one));
    if windows[j].fits(width, height) {
        assert(fitting(windows, width, height, other));
    }
}

} // verus!
