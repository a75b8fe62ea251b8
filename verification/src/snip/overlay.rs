//! The full-screen region selector.
//!
//! A borderless window covering the whole virtual desktop, showing a darkened copy
//! of the screen. Dragging punches the original pixels back through, so the
//! selection reads as "the part that will be taken".
//!
//! A session ends with the button coming up, Enter, Escape or a right-click, and
//! all of them funnel into [`Session::finish`], which records the answer. The
//! caller, which still owns the undimmed shot, then crops it. Cropping after the
//! window is gone is what guarantees the overlay is never part of the picture it
//! delivers.

use vstd::prelude::*;
use vstd::string::StringExecFns;

use crate::geometry::ScreenRect;
use crate::number::{clamp_i32, clamped_to};
use crate::snip::area::{
    all_inside, badge_origin, badge_position, border_bands, changed_strips, crosses, fits,
    frame_bands, greater, intersects, lesser, max_i32, min_i32, overlap, strips_between,
    strips_cover_the_difference, Area,
};
use crate::snip::capture::Shot;
use crate::snip::frame::pixel_at;
use crate::snip::Options;
use crate::text::{
    decimal, digit_value, hex_byte, hex_reads_back, lemma_append_five, push_decimal, push_hex_byte,
};

verus! {

/// The far edge of the coordinates that a session works with. Mouse messages carry
/// sixteen bits, so every coordinate that occurs is far closer.
pub const REACH: i32 = 0x00ff_ffff;

/// Is a coordinate one that a session works with?
pub open spec fn reachable(value: int) -> bool {
    -REACH <= value <= REACH
}

pub open spec fn reachable_rect(rect: ScreenRect) -> bool {
    reachable(rect.left as int) && reachable(rect.top as int) && reachable(rect.right as int)
        && reachable(rect.bottom as int)
}

/// How much of the surrounding screen the magnifier shows.
pub const MAGNIFIER_SOURCE: i32 = 21;

/// How far each source pixel is blown up.
pub const MAGNIFIER_ZOOM: i32 = 8;

/// Height of the read-out under the magnified patch.
pub const MAGNIFIER_STRIP: i32 = 18;

/// The distance between the pointer and the magnifier.
pub const MAGNIFIER_GAP: i32 = 18;

/// Thickness of the crosshair lines.
pub const CROSSHAIR: i32 = 1;

/// Size of the prompt, and its distance from the pointer.
pub const HINT_WIDTH: i32 = 360;

pub const HINT_HEIGHT: i32 = 30;

pub const HINT_GAP: i32 = 22;

/// How far a changed strip is grown, to take the selection's frame with it.
pub const STRIP_PAD: i32 = 8;

/// White, for the crosshair and the outlines.
pub const INK_WHITE: u32 = 0x00FF_FFFF;

/// The plate under the badge and the prompt.
pub const INK_PLATE: u32 = 0x0018_1818;

/// The strip under the magnifier.
pub const INK_STRIP: u32 = 0x0010_1010;

/// The virtual key that abandons a session.
pub const KEY_ESCAPE: u32 = 0x1B;

/// The virtual key that takes the selection as it stands.
pub const KEY_RETURN: u32 = 0x0D;

/// The timer that re-asserts the mask on top.
pub const TIMER_ASSERT: usize = 1;

/// Everything one selection session owns.
pub struct Session {
    /// The screen as captured, at full brightness.
    pub screen: Shot,
    /// The same screen, darkened, for everything not selected.
    pub dimmed: Shot,
    /// Where the window sits in virtual-screen coordinates.
    pub origin: (i32, i32),
    /// Where the drag started, in window coordinates.
    pub anchor: (i32, i32),
    pub selection: Option<Area>,
    pub dragging: bool,
    /// Where the pointer is, in window coordinates. The crosshair, the magnifier
    /// and the prompt all hang off it.
    pub cursor: Option<(i32, i32)>,
    pub options: Options,
    /// What ended the session: the chosen area, or `None` for a cancel.
    pub result: Option<Area>,
    pub finished: bool,
    /// Is the window still there to be answered for?
    pub attached: bool,
}

/// What a finished session produced: the crop, and whether it should also be
/// pinned back where it came from.
pub struct Captured {
    pub shot: Shot,
    pub pin_at: Option<(i32, i32)>,
}

/// How a request to capture ended.
pub enum Finished {
    /// A session was already running, so this request did nothing at all.
    Refused,
    /// The user backed out.
    Cancelled,
    /// The screen could not be captured or the window could not be created.
    Failed,
    Captured(Captured),
}

/// Why a selection ended without a capture.
#[derive(Clone, Copy, Debug, PartialEq, Eq, Structural)]
pub enum Failure {
    /// The user backed out.
    Cancelled,
    /// The screen could not be captured, or the window could not be created.
    /// Reported separately from a cancel so a real failure is not filed as the
    /// user changing their mind.
    Unavailable,
}

/// Ask for the one selector there may be. A second window would dim the first
/// one's dimmed screen and the two would fight over the mouse.
pub fn begin(active: &mut bool) -> (granted: bool)
    ensures
        granted == !*old(active),
        *final(active),
{
    let granted = !*active;
    *active = true;
    granted
}

/// How a request ended: refused when it was not granted, else whatever the
/// selection came to.
pub fn run(granted: bool, selected: Result<Captured, Failure>) -> (r: Finished)
    ensures
        r == (if !granted {
            Finished::Refused
        } else {
            match selected {
                Ok(captured) => Finished::Captured(captured),
                Err(Failure::Cancelled) => Finished::Cancelled,
                Err(Failure::Unavailable) => Finished::Failed,
            }
        }),
{
    if !granted {
        return Finished::Refused;
    }
    match selected {
        Ok(captured) => Finished::Captured(captured),
        Err(Failure::Cancelled) => Finished::Cancelled,
        Err(Failure::Unavailable) => Finished::Failed,
    }
}

/// A rectangle of the virtual screen, in the coordinates of a window at `origin`.
pub open spec fn in_window(rect: ScreenRect, origin: (i32, i32)) -> Area {
    Area {
        left: (rect.left - origin.0) as i32,
        top: (rect.top - origin.1) as i32,
        right: (rect.right - origin.0) as i32,
        bottom: (rect.bottom - origin.1) as i32,
    }
}

/// Where the magnifier patch goes: next to the pointer, flipped near an edge.
///
/// `monitor` is the monitor of the pointer, in window coordinates.
pub open spec fn magnifier_plate(monitor: Area, cursor: (i32, i32), width: int, height: int) -> Area {
    let plate_width = MAGNIFIER_SOURCE * MAGNIFIER_ZOOM;
    let plate_height = MAGNIFIER_SOURCE * MAGNIFIER_ZOOM + MAGNIFIER_STRIP;
    let left = if cursor.0 + MAGNIFIER_GAP + plate_width > monitor.right {
        cursor.0 - MAGNIFIER_GAP - plate_width
    } else {
        cursor.0 + MAGNIFIER_GAP
    };
    let top = if cursor.1 + MAGNIFIER_GAP + plate_height > monitor.bottom {
        cursor.1 - MAGNIFIER_GAP - plate_height
    } else {
        cursor.1 + MAGNIFIER_GAP
    };
    let left = greater(left, monitor.left as int);
    let top = greater(top, monitor.top as int);
    Area {
        left: left as i32,
        top: top as i32,
        right: (left + plate_width) as i32,
        bottom: (top + plate_height) as i32,
    }.clamp_into(width, height)
}

/// Are all edges far enough from the ends of the number line for the furniture's
/// arithmetic?
pub open spec fn roomy(monitor: Area) -> bool {
    &&& -4 * REACH <= monitor.left <= 4 * REACH
    &&& -4 * REACH <= monitor.top <= 4 * REACH
    &&& -4 * REACH <= monitor.right <= 4 * REACH
    &&& -4 * REACH <= monitor.bottom <= 4 * REACH
}

pub fn magnifier_area(monitor: Area, cursor: (i32, i32), width: i32, height: i32) -> (r: Area)
    requires
        roomy(monitor),
        reachable(cursor.0 as int),
        reachable(cursor.1 as int),
        0 <= width,
        0 <= height,
    ensures
        r == magnifier_plate(monitor, cursor, width as int, height as int),
        r.inside(width as int, height as int),
        r.right - r.left <= MAGNIFIER_SOURCE * MAGNIFIER_ZOOM,
{
    let plate_width: i32 = MAGNIFIER_SOURCE * MAGNIFIER_ZOOM;
    let plate_height: i32 = MAGNIFIER_SOURCE * MAGNIFIER_ZOOM + MAGNIFIER_STRIP;
    // Prefer down-right of the pointer, which is where a right-handed user is not
    // about to drag a selection.
    let mut left: i32 = cursor.0 + MAGNIFIER_GAP;
    let mut top: i32 = cursor.1 + MAGNIFIER_GAP;
    if left + plate_width > monitor.right {
        left = cursor.0 - MAGNIFIER_GAP - plate_width;
    }
    if top + plate_height > monitor.bottom {
        top = cursor.1 - MAGNIFIER_GAP - plate_height;
    }
    let left: i32 = max_i32(left, monitor.left);
    let top: i32 = max_i32(top, monitor.top);
    Area { left, top, right: left + plate_width, bottom: top + plate_height }.clamped(width, height)
}

/// The corner of the patch that the magnifier samples, along one side: around the
/// pointer, held to the picture so a corner does not read outside it.
pub open spec fn magnifier_corner(cursor: int, length: int) -> int {
    clamped_to(cursor - MAGNIFIER_SOURCE / 2, 0, greater(length - MAGNIFIER_SOURCE, 0))
}

/// Where the magnifier samples from.
pub open spec fn magnifier_source(cursor: (i32, i32), width: int, height: int) -> Area {
    let x = magnifier_corner(cursor.0 as int, width);
    let y = magnifier_corner(cursor.1 as int, height);
    Area {
        left: x as i32,
        top: y as i32,
        right: (x + MAGNIFIER_SOURCE) as i32,
        bottom: (y + MAGNIFIER_SOURCE) as i32,
    }
}

/// Where the magnified pixels go: the plate without its read-out.
pub open spec fn magnifier_patch(plate: Area) -> Area {
    Area { bottom: (plate.bottom - MAGNIFIER_STRIP) as i32, ..plate }
}

fn corner(cursor: i32, length: i32) -> (r: i32)
    requires
        reachable(cursor as int),
        0 <= length <= REACH,
    ensures
        r == magnifier_corner(cursor as int, length as int),
        0 <= r <= REACH,
{
    clamp_i32(cursor - MAGNIFIER_SOURCE / 2, 0, max_i32(length - MAGNIFIER_SOURCE, 0))
}

/// Where the magnifier samples from, and where its patch goes.
///
/// The patch is next to the pointer, flipped near an edge; the source is the
/// 21×21 patch around the pointer, clamped to the picture so a corner does not
/// read outside it.
pub fn magnifier_source_and_patch(
    monitor: Area,
    cursor: (i32, i32),
    width: i32,
    height: i32,
) -> (r: (Area, Area))
    requires
        roomy(monitor),
        reachable(cursor.0 as int),
        reachable(cursor.1 as int),
        0 <= width <= REACH,
        0 <= height <= REACH,
    ensures
        r.0 == magnifier_source(cursor, width as int, height as int),
        r.1 == magnifier_patch(magnifier_plate(monitor, cursor, width as int, height as int)),
{
    let plate = magnifier_area(monitor, cursor, width, height);
    let patch = Area {
        left: plate.left,
        top: plate.top,
        right: plate.right,
        bottom: plate.bottom - MAGNIFIER_STRIP,
    };
    let source_x: i32 = corner(cursor.0, width);
    let source_y: i32 = corner(cursor.1, height);
    let source = Area {
        left: source_x,
        top: source_y,
        right: source_x + MAGNIFIER_SOURCE,
        bottom: source_y + MAGNIFIER_SOURCE,
    };
    (source, patch)
}

/// On a picture that is large enough, the magnifier samples inside the picture,
/// and the pixel under the pointer is among its samples.
pub proof fn the_magnifier_samples_the_pointer(cursor: (i32, i32), width: int, height: int)
    requires
        MAGNIFIER_SOURCE <= width <= REACH,
        MAGNIFIER_SOURCE <= height <= REACH,
        0 <= cursor.0 < width,
        0 <= cursor.1 < height,
    ensures
        magnifier_source(cursor, width, height).inside(width, height),
        magnifier_source(cursor, width, height).covers(cursor.0 as int, cursor.1 as int),
{
}

/// Where the "drag to select" prompt goes.
pub open spec fn hint_plate(monitor: Area, cursor: (i32, i32), width: int, height: int) -> Area {
    let beside = cursor.0 - HINT_GAP - HINT_WIDTH;
    let wanted = if beside < monitor.left {
        cursor.0 - HINT_WIDTH / 2
    } else {
        beside
    };
    let left = greater(
        lesser(greater(wanted, monitor.left as int), monitor.right - HINT_WIDTH),
        0,
    );
    let top = greater(
        lesser(cursor.1 + HINT_GAP, monitor.bottom - HINT_HEIGHT),
        monitor.top as int,
    );
    Area {
        left: left as i32,
        top: top as i32,
        right: (left + HINT_WIDTH) as i32,
        bottom: (top + HINT_HEIGHT) as i32,
    }.clamp_into(width, height)
}

/// Where the "drag to select" prompt goes, anchored to the pointer.
///
/// To the *left* of the pointer, because the magnifier takes the right: the two
/// would otherwise be drawn on top of each other, and the magnifier wins.
pub fn hint_area(monitor: Area, cursor: (i32, i32), width: i32, height: i32) -> (r: Area)
    requires
        roomy(monitor),
        reachable(cursor.0 as int),
        reachable(cursor.1 as int),
        0 <= width,
        0 <= height,
    ensures
        r == hint_plate(monitor, cursor, width as int, height as int),
        r.inside(width as int, height as int),
{
    let mut left: i32 = cursor.0 - HINT_GAP - HINT_WIDTH;
    if left < monitor.left {
        // Not enough room on the left; the magnifier flips in that case too, so
        // above the pointer is the one place that is always free.
        left = cursor.0 - HINT_WIDTH / 2;
    }
    let left: i32 = max_i32(
        min_i32(max_i32(left, monitor.left), monitor.right - HINT_WIDTH),
        0,
    );
    let top: i32 = max_i32(
        min_i32(cursor.1 + HINT_GAP, monitor.bottom - HINT_HEIGHT),
        monitor.top,
    );
    Area { left, top, right: left + HINT_WIDTH, bottom: top + HINT_HEIGHT }.clamped(width, height)
}

/// The size that a measured label takes: never lower than the smallest legible
/// line.
pub fn measured_text(bounds: ScreenRect) -> (r: (i32, i32))
    requires
        fits(bounds.right - bounds.left),
        fits(bounds.bottom - bounds.top),
    ensures
        r.0 == bounds.right - bounds.left,
        r.1 == greater(bounds.bottom - bounds.top, 14),
{
    (bounds.right - bounds.left, max_i32(bounds.bottom - bounds.top, 14))
}

/// The plate of the size badge of a selection whose label is `text` pixels large.
pub open spec fn badge_rect(selection: Area, text: (i32, i32), width: int, height: int) -> Area {
    let plate = ((text.0 + 16) as i32, (text.1 + 10) as i32);
    let origin = badge_position(selection, plate, (width as i32, height as i32));
    Area {
        left: origin.0 as i32,
        top: origin.1 as i32,
        right: (origin.0 + plate.0) as i32,
        bottom: (origin.1 + plate.1) as i32,
    }
}

/// Is this a size that a label can have?
pub open spec fn label_sized(text: (i32, i32)) -> bool {
    0 <= text.0 <= REACH && 0 <= text.1 <= REACH
}

/// Where the size badge goes.
pub fn badge_plate(selection: Area, text: (i32, i32), width: i32, height: i32) -> (r: Area)
    requires
        label_sized(text),
        0 <= width <= REACH,
        0 <= height <= REACH,
    ensures
        r == badge_rect(selection, text, width as int, height as int),
        !r.empty(),
{
    let plate: (i32, i32) = (text.0 + 16, text.1 + 10);
    let origin: (i32, i32) = badge_origin(selection, plate, (width, height));
    Area {
        left: origin.0,
        top: origin.1,
        right: origin.0 + plate.0,
        bottom: origin.1 + plate.1,
    }
}

/// The two lines of the crosshair: one across the monitor's width and one down its
/// height.
pub open spec fn crosshair_lines(monitor: Area, cursor: (i32, i32)) -> Seq<Area> {
    seq![
        Area {
            left: monitor.left,
            top: cursor.1,
            right: monitor.right,
            bottom: (cursor.1 + CROSSHAIR) as i32,
        },
        Area {
            left: cursor.0,
            top: monitor.top,
            right: (cursor.0 + CROSSHAIR) as i32,
            bottom: monitor.bottom,
        },
    ]
}

pub fn crosshair(monitor: Area, cursor: (i32, i32)) -> (r: [Area; 2])
    requires
        reachable(cursor.0 as int),
        reachable(cursor.1 as int),
    ensures
        r@ == crosshair_lines(monitor, cursor),
{
    let lines: [Area; 2] = [
        Area {
            left: monitor.left,
            top: cursor.1,
            right: monitor.right,
            bottom: cursor.1 + CROSSHAIR,
        },
        Area {
            left: cursor.0,
            top: monitor.top,
            right: cursor.0 + CROSSHAIR,
            bottom: monitor.bottom,
        },
    ];
    assert(lines@ =~= crosshair_lines(monitor, cursor));
    lines
}

/// The area itself, unless it covers nothing.
pub open spec fn kept(area: Area) -> Seq<Area> {
    if area.empty() {
        Seq::empty()
    } else {
        seq![area]
    }
}

fn push_kept(areas: &mut Vec<Area>, area: Area)
    ensures
        final(areas)@ == old(areas)@ + kept(area),
{
    if !area.is_empty() {
        areas.push(area);
    }
    assert(areas@ =~= old(areas)@ + kept(area));
}

/// Hold each area to the screen and drop what is left of none.
pub open spec fn on_screen(areas: Seq<Area>, width: int, height: int) -> Seq<Area>
    decreases areas.len(),
{
    if areas.len() == 0 {
        Seq::empty()
    } else {
        on_screen(areas.drop_last(), width, height) + kept(
            areas.last().clamp_into(width, height),
        )
    }
}

/// The areas that a repaint composes and pushes, one at a time.
///
/// As strips rather than the box around them: the crosshair alone runs the width
/// and the height of the monitor, so the box around "the crosshair moved" is the
/// whole screen.
pub fn repaint(areas: &Vec<Area>, width: i32, height: i32) -> (r: Vec<Area>)
    requires
        0 <= width,
        0 <= height,
    ensures
        r@ == on_screen(areas@, width as int, height as int),
        all_inside(r@, width as int, height as int),
{
    let mut pushed: Vec<Area> = Vec::new();
    let mut i: usize = 0;
    assert(areas@.take(0) =~= Seq::empty());
    while i < areas.len()
        invariant
            0 <= width,
            0 <= height,
            0 <= i <= areas@.len(),
            pushed@ == on_screen(areas@.take(i as int), width as int, height as int),
            all_inside(pushed@, width as int, height as int),
        decreases areas@.len() - i,
    {
        let ghost before = pushed@;
        let area = areas[i].clamped(width, height);
        push_kept(&mut pushed, area);
        proof {
            let next = areas@.take(i + 1);
            assert(next.drop_last() =~= areas@.take(i as int));
            assert(next.last() == areas@[i as int]);
            assert forall|k: int| 0 <= k < pushed@.len() implies (#[trigger] pushed@[k]).inside(
                width as int,
                height as int,
            ) by {
                if k < before.len() {
                    assert(pushed@[k] == before[k]);
                }
            }
        }
        i = i + 1;
    }
    assert(areas@.take(i as int) =~= areas@);
    pushed
}

/// A pixel that some area covers and that is on screen is pushed.
pub proof fn a_repaint_pushes_every_visible_pixel(
    areas: Seq<Area>,
    width: int,
    height: int,
    i: int,
    x: int,
    y: int,
)
    requires
        0 <= width <= i32::MAX,
        0 <= height <= i32::MAX,
        0 <= i < areas.len(),
        areas[i].covers(x, y),
        0 <= x < width,
        0 <= y < height,
    ensures
        crate::snip::area::any_covers(on_screen(areas, width, height), x, y),
    decreases areas.len(),
{
    let rest = on_screen(areas.drop_last(), width, height);
    let last = kept(areas.last().clamp_into(width, height));
    if i == areas.len() - 1 {
        areas.last().clamping_keeps_what_is_inside(width, height, x, y);
        assert((rest + last)[rest.len() as int].covers(x, y));
    } else {
        assert(areas.drop_last()[i] == areas[i]);
        a_repaint_pushes_every_visible_pixel(areas.drop_last(), width, height, i, x, y);
        let k = choose|k: int| 0 <= k < rest.len() && (#[trigger] rest[k]).covers(x, y);
        assert((rest + last)[k] == rest[k]);
    }
}

/// What the system says about the surroundings of the pointer while a message is
/// handled: the monitor under the pointer before and after the message, if there
/// is one, and the measured size of the current selection's label.
#[derive(Clone, Copy, Debug, PartialEq, Eq)]
pub struct Surroundings {
    pub before: Option<ScreenRect>,
    pub after: Option<ScreenRect>,
    pub text: (i32, i32),
}

impl Surroundings {
    pub open spec fn wf(self) -> bool {
        &&& self.before is Some ==> reachable_rect(self.before->0)
        &&& self.after is Some ==> reachable_rect(self.after->0)
        &&& label_sized(self.text)
    }
}

/// A window message, as far as the selector tells them apart.
#[derive(Clone, Copy, Debug, PartialEq, Eq, Structural)]
pub enum Message {
    /// Part of the window was exposed.
    Paint { target: Area },
    ButtonDown { x: i32, y: i32 },
    MouseMove { x: i32, y: i32 },
    ButtonUp,
    RightButtonDown,
    KeyDown { key: u32 },
    Timer { id: usize },
    SetCursor,
    Close,
    Destroy,
    Other,
}

/// What the window does about a message.
pub struct Reaction {
    /// Compose this area and copy it to the exposed window.
    pub composed: Option<Area>,
    /// Compose and push these areas.
    pub pushed: Vec<Area>,
    /// Show the crosshair.
    pub crosshair: bool,
    /// Take the mouse capture.
    pub capture: bool,
    /// Give the mouse capture back.
    pub release: bool,
    /// Put the mask back on top.
    pub topmost: bool,
    /// Destroy the window.
    pub destroy: bool,
    /// Detach the session from the window and leave the message loop.
    pub quit: bool,
    /// The answer to the message; `None` hands it to the default procedure.
    pub answer: Option<i32>,
}

/// A message's point is one that a session works with.
pub open spec fn message_wf(message: Message) -> bool {
    match message {
        Message::ButtonDown { x, y } => reachable(x as int) && reachable(y as int),
        Message::MouseMove { x, y } => reachable(x as int) && reachable(y as int),
        _ => true,
    }
}

impl Session {
    pub open spec fn wf(self) -> bool {
        &&& self.screen.wf()
        &&& self.dimmed.wf()
        &&& self.dimmed.width == self.screen.width
        &&& self.dimmed.height == self.screen.height
        &&& self.options.dim.wf()
        &&& self.screen.width <= REACH
        &&& self.screen.height <= REACH
        &&& reachable(self.origin.0 as int)
        &&& reachable(self.origin.1 as int)
        &&& reachable(self.anchor.0 as int)
        &&& reachable(self.anchor.1 as int)
        &&& self.cursor matches Some(at) ==> reachable(at.0 as int) && reachable(at.1 as int)
        &&& self.selection is Some ==> self.selection->0.inside(
            self.screen.width as int,
            self.screen.height as int,
        )
        &&& self.result is Some ==> self.result->0.inside(
            self.screen.width as int,
            self.screen.height as int,
        ) && self.result->0.usable()
        &&& self.result is Some ==> self.finished
    }

    pub open spec fn width(self) -> int {
        self.screen.width as int
    }

    pub open spec fn height(self) -> int {
        self.screen.height as int
    }

    /// A new session over a captured screen whose corner is at `origin`.
    ///
    /// Nothing is selected and the pointer is not known yet.
    pub fn new(screen: Shot, origin: (i32, i32), options: Options) -> (r: Session)
        requires
            screen.wf(),
            options.dim.wf(),
            screen.width <= REACH,
            screen.height <= REACH,
            reachable(origin.0 as int),
            reachable(origin.1 as int),
        ensures
            r.wf(),
            r.screen == screen,
            r.origin == origin,
            r.options == options,
            r.anchor == (0i32, 0i32),
            r.selection is None,
            !r.dragging,
            r.cursor is None,
            r.result is None,
            !r.finished,
            r.attached,
            forall|k: int|
                0 <= k < screen.bgra@.len() ==> #[trigger] r.dimmed.bgra@[k] == (if k % 4 == 3 {
                    Shot::dim_alpha(options.dim)
                } else {
                    screen.bgra@[k] * Shot::dim_alpha(options.dim) / 255
                }),
    {
        let dimmed = screen.dim(options.dim);
        Session {
            screen,
            dimmed,
            origin,
            anchor: (0, 0),
            selection: None,
            dragging: false,
            cursor: None,
            options,
            result: None,
            finished: false,
            attached: true,
        }
    }

    /// The monitor the pointer is on: the one the system found, or the whole
    /// desktop when it found none.
    pub open spec fn monitor(self, found: Option<ScreenRect>) -> ScreenRect {
        match found {
            Some(rect) => rect,
            None => ScreenRect {
                left: self.origin.0,
                top: self.origin.1,
                right: (self.origin.0 + self.screen.width) as i32,
                bottom: (self.origin.1 + self.screen.height) as i32,
            },
        }
    }

    pub open spec fn local_monitor(self, found: Option<ScreenRect>) -> Area {
        in_window(self.monitor(found), self.origin)
    }

    /// Where to look for the monitor that the pointer is on.
    pub fn monitor_point(&self) -> (r: (i32, i32))
        requires
            self.wf(),
        ensures
            r == (match self.cursor {
                Some(cursor) => (
                    (self.origin.0 + cursor.0) as i32,
                    (self.origin.1 + cursor.1) as i32,
                ),
                None => self.origin,
            }),
    {
        match self.cursor {
            Some(cursor) => (self.origin.0 + cursor.0, self.origin.1 + cursor.1),
            None => self.origin,
        }
    }

    /// The monitor the pointer is on.
    pub fn cursor_monitor(&self, found: Option<ScreenRect>) -> (r: ScreenRect)
        requires
            self.wf(),
        ensures
            r == self.monitor(found),
    {
        match found {
            Some(rect) => rect,
            None => ScreenRect {
                left: self.origin.0,
                top: self.origin.1,
                right: self.origin.0 + self.screen.width,
                bottom: self.origin.1 + self.screen.height,
            },
        }
    }

    fn monitor_in_window(&self, found: Option<ScreenRect>) -> (r: Area)
        requires
            self.wf(),
            found is Some ==> reachable_rect(found->0),
        ensures
            r == self.local_monitor(found),
            roomy(r),
    {
        let monitor = self.cursor_monitor(found);
        Area {
            left: monitor.left - self.origin.0,
            top: monitor.top - self.origin.1,
            right: monitor.right - self.origin.0,
            bottom: monitor.bottom - self.origin.1,
        }
    }

    /// What hangs off the pointer at `cursor`.
    pub open spec fn pointer_furniture(self, monitor: Area, cursor: (i32, i32)) -> Seq<Area> {
        let lines = crosshair_lines(monitor, cursor);
        let hint = if self.selection is None && !self.dragging {
            kept(hint_plate(monitor, cursor, self.width(), self.height()))
        } else {
            Seq::empty()
        };
        kept(lines[0]) + kept(lines[1]) + hint + kept(
            magnifier_plate(monitor, cursor, self.width(), self.height()),
        )
    }

    /// Everything drawn on top of the screen picture.
    pub open spec fn furniture_areas(
        self,
        cursor: Option<(i32, i32)>,
        monitor: Area,
        text: (i32, i32),
    ) -> Seq<Area> {
        let pointer = match cursor {
            Some(at) => self.pointer_furniture(monitor, at),
            None => Seq::empty(),
        };
        let badge = match self.selection {
            Some(selection) => kept(badge_rect(selection, text, self.width(), self.height())),
            None => Seq::empty(),
        };
        pointer + badge
    }

    /// Everything drawn on top of the screen picture, anchored to the pointer or
    /// to the selection.
    ///
    /// These live in the frame buffer rather than being painted straight to the
    /// window, so a strip repaint restores exactly the pixels that were there,
    /// including erasing furniture that has moved away.
    pub fn furniture(&self, found: Option<ScreenRect>, text: (i32, i32)) -> (r: Vec<Area>)
        requires
            self.wf(),
            found is Some ==> reachable_rect(found->0),
            label_sized(text),
        ensures
            r@ == self.furniture_areas(self.cursor, self.local_monitor(found), text),
    {
        let mut areas: Vec<Area> = Vec::new();
        let monitor = self.monitor_in_window(found);
        match self.cursor {
            None => {},
            Some(cursor) => {
                let lines = crosshair(monitor, cursor);
                push_kept(&mut areas, lines[0]);
                push_kept(&mut areas, lines[1]);
                if self.selection.is_none() && !self.dragging {
                    let hint = hint_area(monitor, cursor, self.screen.width, self.screen.height);
                    push_kept(&mut areas, hint);
                }
                let plate = magnifier_area(
                    monitor,
                    cursor,
                    self.screen.width,
                    self.screen.height,
                );
                push_kept(&mut areas, plate);
                assert(areas@ =~= self.pointer_furniture(monitor, cursor));
            },
        }
        match self.selection {
            None => {},
            Some(selection) => {
                push_kept(
                    &mut areas,
                    badge_plate(selection, text, self.screen.width, self.screen.height),
                );
            },
        }
        assert(areas@ =~= self.furniture_areas(self.cursor, self.local_monitor(found), text));
        areas
    }

    /// Remember where the pointer is, and repaint the whole screen: what happens
    /// once, when the window has just been shown.
    pub fn place_cursor(&mut self, x: i32, y: i32) -> (r: Vec<Area>)
        requires
            old(self).wf(),
            reachable(x - old(self).origin.0),
            reachable(y - old(self).origin.1),
        ensures
            final(self).wf(),
            *final(self) == (Session {
                cursor: Some(
                    ((x - old(self).origin.0) as i32, (y - old(self).origin.1) as i32),
                ),
                ..*old(self)
            }),
            r@ == kept(
                Area {
                    left: 0,
                    top: 0,
                    right: old(self).screen.width,
                    bottom: old(self).screen.height,
                },
            ),
    {
        self.cursor = Some((x - self.origin.0, y - self.origin.1));
        let full = Area { left: 0, top: 0, right: self.screen.width, bottom: self.screen.height };
        let mut areas: Vec<Area> = Vec::new();
        push_kept(&mut areas, full);
        assert(areas@ =~= kept(full));
        areas
    }

    /// Record how the session ended. The window is to be taken down exactly when
    /// this is the first end of the session.
    pub fn finish(&mut self, selection: Option<Area>) -> (destroy: bool)
        requires
            old(self).wf(),
            selection is Some ==> selection->0.inside(old(self).width(), old(self).height())
                && selection->0.usable(),
        ensures
            final(self).wf(),
            destroy == !old(self).finished,
            *final(self) == old(self).finish_with(selection),
    {
        if self.finished {
            return false;
        }
        self.finished = true;
        self.result = selection;
        true
    }

    /// The session after an attempt to end it with `selection`.
    pub open spec fn finish_with(self, selection: Option<Area>) -> Session {
        if self.finished {
            self
        } else {
            Session { finished: true, result: selection, ..self }
        }
    }

    /// The selection, if it is big enough to be meant.
    pub open spec fn usable_selection(self) -> Option<Area> {
        match self.selection {
            Some(area) => if area.usable() {
                Some(area)
            } else {
                None
            },
            None => None,
        }
    }

    fn selected(&self) -> (r: Option<Area>)
        requires
            self.wf(),
        ensures
            r == self.usable_selection(),
    {
        match self.selection {
            Some(area) => if area.is_usable() {
                Some(area)
            } else {
                None
            },
            None => None,
        }
    }

    /// The session after a message.
    pub open spec fn after(self, message: Message) -> Session {
        if !self.attached {
            self
        } else {
            match message {
                Message::ButtonDown { x, y } => Session {
                    dragging: true,
                    anchor: (x, y),
                    cursor: Some((x, y)),
                    selection: None,
                    ..self
                },
                Message::MouseMove { x, y } => Session {
                    cursor: Some((x, y)),
                    selection: if self.dragging {
                        Some(
                            Area::between(self.anchor, (x, y)).clamp_into(
                                self.width(),
                                self.height(),
                            ),
                        )
                    } else {
                        self.selection
                    },
                    ..self
                },
                Message::ButtonUp => if self.dragging {
                    Session { dragging: false, ..self }.finish_with(self.usable_selection())
                } else {
                    self
                },
                Message::RightButtonDown => self.finish_with(None),
                Message::KeyDown { key } => if key == KEY_RETURN {
                    self.finish_with(self.usable_selection())
                } else if key == KEY_ESCAPE {
                    self.finish_with(None)
                } else {
                    self
                },
                Message::Close => self.finish_with(None),
                Message::Destroy => Session { attached: false, ..self },
                _ => self,
            }
        }
    }

    /// The areas that have changed because of a message, before they are held to
    /// the screen.
    pub open spec fn dirty(self, message: Message, around: Surroundings) -> Seq<Area> {
        match message {
            Message::ButtonDown { x, y } => {
                let held = Session { dragging: true, anchor: (x, y), cursor: Some((x, y)), ..self };
                let wiped = match self.selection {
                    Some(previous) => strips_between(
                        previous,
                        Area::nothing(),
                        STRIP_PAD as int,
                        self.width(),
                        self.height(),
                    ),
                    None => Seq::empty(),
                };
                self.furniture_areas(self.cursor, self.local_monitor(around.before), around.text)
                    + held.furniture_areas(
                    held.cursor,
                    self.local_monitor(around.after),
                    around.text,
                ) + wiped + seq![Area { left: x, top: y, right: x, bottom: y }]
            },
            Message::MouseMove { x, y } => {
                let strips = if self.dragging {
                    strips_between(
                        match self.selection {
                            Some(previous) => previous,
                            None => Area::nothing(),
                        },
                        Area::between(self.anchor, (x, y)).clamp_into(
                            self.width(),
                            self.height(),
                        ),
                        STRIP_PAD as int,
                        self.width(),
                        self.height(),
                    )
                } else {
                    Seq::empty()
                };
                self.furniture_areas(self.cursor, self.local_monitor(around.before), around.text)
                    + self.furniture_areas(
                    Some((x, y)),
                    self.local_monitor(around.after),
                    around.text,
                ) + strips
            },
            _ => Seq::empty(),
        }
    }

    /// Handle one window message.
    pub fn window_proc(&mut self, message: Message, around: Surroundings) -> (r: Reaction)
        requires
            old(self).wf(),
            around.wf(),
            message_wf(message),
        ensures
            final(self).wf(),
            *final(self) == old(self).after(message),
            r.composed == (match message {
                Message::Paint { target } if old(self).attached => Some(target),
                _ => None,
            }),
            r.pushed@ == (if old(self).attached {
                on_screen(
                    old(self).dirty(message, around),
                    old(self).width(),
                    old(self).height(),
                )
            } else {
                Seq::empty()
            }),
            r.crosshair == (message is MouseMove || message is SetCursor),
            r.capture == (message is ButtonDown),
            r.destroy == (final(self).finished && !old(self).finished),
            r.release == (message is ButtonUp || r.destroy),
            r.topmost == (message is Timer && message->id == TIMER_ASSERT),
            r.quit == (message is Destroy),
            r.answer == (match message {
                Message::Other => None,
                Message::SetCursor => Some(1i32),
                _ => Some(0i32),
            }),
    {
        let mut reaction = Reaction {
            composed: None,
            pushed: Vec::new(),
            crosshair: false,
            capture: false,
            release: false,
            topmost: false,
            destroy: false,
            quit: false,
            answer: Some(0),
        };
        assert(reaction.pushed@ =~= Seq::empty());
        assert(on_screen(Seq::empty(), old(self).width(), old(self).height()) =~= Seq::empty());
        match message {
            Message::Paint { target } => {
                if self.attached {
                    reaction.composed = Some(target);
                }
            },
            Message::ButtonDown { x, y } => {
                if self.attached {
                    reaction.pushed = self.press(x, y, around);
                }
                reaction.capture = true;
            },
            Message::MouseMove { x, y } => {
                reaction.crosshair = true;
                if self.attached {
                    reaction.pushed = self.drag(x, y, around);
                }
            },
            Message::ButtonUp => {
                reaction.release = true;
                if self.attached && self.dragging {
                    self.dragging = false;
                    let selection = self.selected();
                    reaction.destroy = self.finish(selection);
                }
            },
            Message::RightButtonDown => {
                if self.attached {
                    reaction.destroy = self.finish(None);
                }
                reaction.release = reaction.destroy;
            },
            Message::KeyDown { key } => {
                if self.attached {
                    if key == KEY_RETURN {
                        let selection = self.selected();
                        reaction.destroy = self.finish(selection);
                    } else if key == KEY_ESCAPE {
                        reaction.destroy = self.finish(None);
                    }
                }
                reaction.release = reaction.destroy;
            },
            Message::Timer { id } => {
                reaction.topmost = id == TIMER_ASSERT;
            },
            Message::SetCursor => {
                reaction.crosshair = true;
                reaction.answer = Some(1);
            },
            Message::Close => {
                if self.attached {
                    reaction.destroy = self.finish(None);
                }
                reaction.release = reaction.destroy;
            },
            Message::Destroy => {
                self.attached = false;
                reaction.quit = true;
            },
            Message::Other => {
                reaction.answer = None;
            },
        }
        reaction
    }

    #[verifier::spinoff_prover]
    #[verifier::rlimit(40)]
    fn press(&mut self, x: i32, y: i32, around: Surroundings) -> (pushed: Vec<Area>)
        requires
            old(self).wf(),
            old(self).attached,
            around.wf(),
            reachable(x as int),
            reachable(y as int),
        ensures
            final(self).wf(),
            *final(self) == old(self).after(Message::ButtonDown { x, y }),
            pushed@ == on_screen(
                old(self).dirty(Message::ButtonDown { x, y }, around),
                old(self).width(),
                old(self).height(),
            ),
    {
        let ghost origin = *self;
        // The prompt only shows before the first drag, so where it was has to be
        // repainted along with the new selection. The pointer furniture moves with
        // the click, too.
        let mut dirty = self.furniture(around.before, around.text);
        self.dragging = true;
        self.anchor = (x, y);
        self.cursor = Some((x, y));
        let mut moved = self.furniture(around.after, around.text);
        dirty.append(&mut moved);
        let width: i32 = self.screen.width;
        let height: i32 = self.screen.height;
        // Wipe the previous selection's frame even if the new drag never grows:
        // the first frame of a drag has no area yet.
        match self.selection {
            None => {},
            Some(previous) => {
                let mut strips = changed_strips(
                    previous,
                    Area::nowhere(),
                    STRIP_PAD,
                    width,
                    height,
                );
                dirty.append(&mut strips);
            },
        }
        self.selection = None;
        dirty.push(Area { left: x, top: y, right: x, bottom: y });
        assert(dirty@ =~= origin.dirty(Message::ButtonDown { x, y }, around));
        repaint(&dirty, width, height)
    }

    #[verifier::spinoff_prover]
    #[verifier::rlimit(40)]
    fn drag(&mut self, x: i32, y: i32, around: Surroundings) -> (pushed: Vec<Area>)
        requires
            old(self).wf(),
            old(self).attached,
            around.wf(),
            reachable(x as int),
            reachable(y as int),
        ensures
            final(self).wf(),
            *final(self) == old(self).after(Message::MouseMove { x, y }),
            pushed@ == on_screen(
                old(self).dirty(Message::MouseMove { x, y }, around),
                old(self).width(),
                old(self).height(),
            ),
    {
        let ghost origin = *self;
        // The crosshair, the magnifier and the prompt all follow the pointer, so
        // the strips they covered a moment ago are pushed along with the strips
        // they cover now.
        let mut dirty = self.furniture(around.before, around.text);
        self.cursor = Some((x, y));
        let mut moved = self.furniture(around.after, around.text);
        dirty.append(&mut moved);
        let width: i32 = self.screen.width;
        let height: i32 = self.screen.height;
        if self.dragging {
            let next = Area::from_drag(self.anchor, (x, y)).clamped(width, height);
            let previous = match self.selection {
                Some(previous) => previous,
                None => Area::nowhere(),
            };
            self.selection = Some(next);
            // Only where the two differ: the inside of the selection is the same
            // bright screen it was a moment ago.
            let mut strips = changed_strips(previous, next, STRIP_PAD, width, height);
            dirty.append(&mut strips);
        }
        assert(dirty@ =~= origin.dirty(Message::MouseMove { x, y }, around));
        repaint(&dirty, width, height)
    }

    /// Once a session has ended, no message changes how it ended.
    pub proof fn an_end_is_final(self, message: Message)
        requires
            self.finished,
        ensures
            self.after(message).finished,
            self.after(message).result == self.result,
    {
    }

    /// Only the five ways out end a session: the button coming up after a drag,
    /// Enter, Escape, a right-click and a close.
    pub proof fn only_these_end_a_session(self, message: Message)
        requires
            !self.finished,
            self.after(message).finished,
        ensures
            (message is ButtonUp && self.dragging) || message is RightButtonDown
                || message is Close || (message is KeyDown && (message->key == KEY_RETURN
                || message->key == KEY_ESCAPE)),
            message is RightButtonDown || message is Close || (message is KeyDown && message->key
                == KEY_ESCAPE) ==> self.after(message).result is None,
    {
    }

    /// What the session delivers, once the window is gone.
    ///
    /// The area that was selected, cropped out of the undimmed screen and made
    /// opaque: a screen has no alpha channel, so every captured pixel came back
    /// with an alpha of zero, and everything that presents the image needs it set.
    pub fn select(&self) -> (r: Result<Captured, Failure>)
        requires
            self.wf(),
        ensures
            match r {
                Err(failure) => self.result is None && failure == Failure::Cancelled,
                Ok(captured) => {
                    let area = self.result->0;
                    &&& self.result is Some
                    &&& captured.shot.wf()
                    &&& captured.shot.width == area.right - area.left
                    &&& captured.shot.height == area.bottom - area.top
                    &&& forall|i: int, j: int, c: int|
                        captured.shot.has(i, j) && 0 <= c < 4 ==> #[trigger] captured.shot.at(
                            i,
                            j,
                            c,
                        ) == (if c == 3 {
                            0xFFu8
                        } else {
                            self.screen.at(area.left + i, area.top + j, c)
                        })
                    &&& captured.pin_at == (if self.options.auto_pin {
                        Some(
                            (
                                (self.origin.0 + area.left) as i32,
                                (self.origin.1 + area.top) as i32,
                            ),
                        )
                    } else {
                        None
                    })
                },
            },
    {
        match self.result {
            None => Err(Failure::Cancelled),
            Some(area) => {
                match self.screen.crop(area.left, area.top, area.width(), area.height()) {
                    None => {
                        assert(false);
                        Err(Failure::Cancelled)
                    },
                    Some(cropped) => {
                        let mut shot = cropped;
                        shot.opaque();
                        proof {
                            assert forall|i: int, j: int, c: int|
                                shot.has(i, j) && 0 <= c < 4 implies #[trigger] shot.at(i, j, c)
                                == (if c == 3 {
                                0xFFu8
                            } else {
                                self.screen.at(area.left + i, area.top + j, c)
                            }) by {
                                crate::snip::capture::lemma_offset_bounds(
                                    shot.width as int,
                                    shot.height as int,
                                    i,
                                    j,
                                    c,
                                );
                                assert(cropped.has(i, j));
                                assert(cropped.at(i, j, c) == self.screen.at(
                                    area.left + i,
                                    area.top + j,
                                    c,
                                ));
                            }
                        }
                        let pin_at = if self.options.auto_pin {
                            Some((self.origin.0 + area.left, self.origin.1 + area.top))
                        } else {
                            None
                        };
                        Ok(Captured { shot, pin_at })
                    },
                }
            },
        }
    }
}

/// A line of text on the overlay.
#[derive(Clone, Copy, Debug, PartialEq, Eq, Structural)]
pub enum Label {
    /// The prompt before the first drag.
    Hint,
    /// The size of the selection.
    Size { width: i32, height: i32 },
    /// Where the pointer is, and the colour under it.
    Readout { x: i32, y: i32, red: u8, green: u8, blue: u8 },
}

/// The characters of a label.
pub open spec fn label_chars(label: Label) -> Seq<char> {
    match label {
        Label::Hint => "拖动选择区域 · Esc 或右键取消"@,
        Label::Size { width, height } => decimal(width as int) + " × "@ + decimal(height as int),
        Label::Readout { x, y, red, green, blue } => decimal(x as int) + " × "@ + decimal(y as int)
            + "   #"@ + hex_byte(red as int) + hex_byte(green as int) + hex_byte(blue as int),
    }
}

/// The text of a label.
pub fn label_text(label: Label) -> (r: String)
    ensures
        r@ == label_chars(label),
{
    let mut out = String::new();
    match label {
        Label::Hint => {
            out.append("拖动选择区域 · Esc 或右键取消");
        },
        Label::Size { width, height } => {
            push_decimal(&mut out, width as i64);
            out.append(" × ");
            push_decimal(&mut out, height as i64);
        },
        Label::Readout { x, y, red, green, blue } => {
            push_decimal(&mut out, x as i64);
            out.append(" × ");
            push_decimal(&mut out, y as i64);
            out.append("   #");
            push_hex_byte(&mut out, red);
            push_hex_byte(&mut out, green);
            push_hex_byte(&mut out, blue);
        },
    }
    assert(out@ =~= label_chars(label));
    out
}

/// One step of composing an area of the frame. Every step is clipped to that area.
#[derive(Clone, Copy, Debug, PartialEq, Eq, Structural)]
pub enum DrawOp {
    /// The dimmed screen with the bright selection over it.
    Picture,
    /// A rectangle of one colour.
    Fill { area: Area, ink: u32 },
    /// The one-pixel outline of a rectangle.
    Outline { area: Area, ink: u32 },
    /// The source's pixels blown up into the patch.
    Magnify { source: Area, patch: Area },
    /// One line of white text, centred.
    Text { area: Area, label: Label },
}

/// A fill of the part of `shape` that lies in `area`.
pub open spec fn fill_inside(shape: Area, area: Area, ink: u32) -> Seq<DrawOp> {
    if shape.meet(area).empty() {
        Seq::empty()
    } else {
        seq![DrawOp::Fill { area: shape.meet(area), ink }]
    }
}

fn push_fill(ops: &mut Vec<DrawOp>, shape: Area, area: Area, ink: u32)
    ensures
        final(ops)@ == old(ops)@ + fill_inside(shape, area, ink),
{
    match overlap(shape, area) {
        None => {},
        Some(clipped) => {
            ops.push(DrawOp::Fill { area: clipped, ink });
        },
    }
    assert(ops@ =~= old(ops)@ + fill_inside(shape, area, ink));
}

/// A plate with a line of text on it, drawn only where it touches `area`.
pub open spec fn plate_inside(plate: Area, area: Area, label: Label) -> Seq<DrawOp> {
    if crosses(plate, area) {
        seq![DrawOp::Fill { area: plate, ink: INK_PLATE }, DrawOp::Text { area: plate, label }]
    } else {
        Seq::empty()
    }
}

fn push_plate(ops: &mut Vec<DrawOp>, plate: Area, area: Area, label: Label)
    ensures
        final(ops)@ == old(ops)@ + plate_inside(plate, area, label),
{
    if intersects(plate, area) {
        ops.push(DrawOp::Fill { area: plate, ink: INK_PLATE });
        ops.push(DrawOp::Text { area: plate, label });
    }
    assert(ops@ =~= old(ops)@ + plate_inside(plate, area, label));
}

/// Thickness of the selection's frame on a screen `width` pixels wide.
pub open spec fn frame_thickness(width: int) -> int {
    clamped_to(width / 1000, 1, 3)
}

impl Session {
    /// The cell of the magnified patch that shows the pixel under the pointer.
    pub open spec fn pointer_cell(self, patch: Area, cursor: (i32, i32)) -> Area {
        let zoom = (patch.right - patch.left) / MAGNIFIER_SOURCE as int;
        let x = patch.left + (cursor.0 - magnifier_corner(cursor.0 as int, self.width())) * zoom;
        let y = patch.top + (cursor.1 - magnifier_corner(cursor.1 as int, self.height())) * zoom;
        Area {
            left: x as i32,
            top: y as i32,
            right: (x + zoom) as i32,
            bottom: (y + zoom) as i32,
        }
    }

    /// The read-out for the pixel under the pointer.
    pub open spec fn readout(self, cursor: (i32, i32)) -> Label {
        let inside = self.screen.has(cursor.0 as int, cursor.1 as int);
        Label::Readout {
            x: (self.origin.0 + cursor.0) as i32,
            y: (self.origin.1 + cursor.1) as i32,
            red: if inside {
                self.screen.at(cursor.0 as int, cursor.1 as int, 2)
            } else {
                0
            },
            green: if inside {
                self.screen.at(cursor.0 as int, cursor.1 as int, 1)
            } else {
                0
            },
            blue: if inside {
                self.screen.at(cursor.0 as int, cursor.1 as int, 0)
            } else {
                0
            },
        }
    }

    /// The magnifier's chrome: the pixel under the pointer outlined inside the
    /// patch, a border around the whole plate, and the coordinate and colour
    /// read-out underneath.
    pub open spec fn magnifier_chrome(self, monitor: Area, cursor: (i32, i32), area: Area) -> Seq<
        DrawOp,
    > {
        let plate = magnifier_plate(monitor, cursor, self.width(), self.height());
        let patch = magnifier_patch(plate);
        let strip = Area { top: patch.bottom, ..plate };
        if crosses(plate, area) {
            seq![
                DrawOp::Outline { area: self.pointer_cell(patch, cursor), ink: INK_WHITE },
                DrawOp::Outline { area: plate, ink: INK_WHITE },
                DrawOp::Fill { area: strip, ink: INK_STRIP },
                DrawOp::Text { area: strip, label: self.readout(cursor) },
            ]
        } else {
            Seq::empty()
        }
    }

    /// The frame around the selection, as fills.
    pub open spec fn frame_ops(self, selection: Area, area: Area) -> Seq<DrawOp> {
        let bands = frame_bands(selection, frame_thickness(self.width()));
        let ink = self.options.accent.bgr() as u32;
        fill_inside(bands[0], area, ink) + fill_inside(bands[1], area, ink) + fill_inside(
            bands[2],
            area,
            ink,
        ) + fill_inside(bands[3], area, ink)
    }

    /// The pointer furniture: where the pointer is and what is under it.
    pub open spec fn pointer_ops(self, monitor: Area, cursor: (i32, i32), area: Area) -> Seq<
        DrawOp,
    > {
        let lines = crosshair_lines(monitor, cursor);
        let hint = if self.selection is None && !self.dragging {
            plate_inside(
                hint_plate(monitor, cursor, self.width(), self.height()),
                area,
                Label::Hint,
            )
        } else {
            Seq::empty()
        };
        let magnified = DrawOp::Magnify {
            source: magnifier_source(cursor, self.width(), self.height()),
            patch: magnifier_patch(magnifier_plate(monitor, cursor, self.width(), self.height())),
        };
        fill_inside(lines[0], area, INK_WHITE) + fill_inside(lines[1], area, INK_WHITE) + hint
            + seq![magnified] + self.magnifier_chrome(monitor, cursor, area)
    }

    /// The steps that compose `area`, in the order in which they are drawn.
    pub open spec fn compose_ops(self, area: Area, monitor: Area, text: (i32, i32)) -> Seq<DrawOp> {
        let frame = match self.selection {
            Some(selection) => self.frame_ops(selection, area),
            None => Seq::empty(),
        };
        let pointer = match self.cursor {
            Some(cursor) => self.pointer_ops(monitor, cursor, area),
            None => Seq::empty(),
        };
        let badge = match self.selection {
            Some(selection) => plate_inside(
                badge_rect(selection, text, self.width(), self.height()),
                area,
                Label::Size {
                    width: (selection.right - selection.left) as i32,
                    height: (selection.bottom - selection.top) as i32,
                },
            ),
            None => Seq::empty(),
        };
        seq![DrawOp::Picture] + frame + pointer + badge
    }

    /// Draw `area` of the frame: the dimmed screen, the bright selection over it,
    /// the selection's frame, then the pointer furniture and the badge.
    pub fn compose(&self, area: Area, found: Option<ScreenRect>, text: (i32, i32)) -> (r: Vec<
        DrawOp,
    >)
        requires
            self.wf(),
            found is Some ==> reachable_rect(found->0),
            label_sized(text),
        ensures
            r@ == self.compose_ops(area, self.local_monitor(found), text),
    {
        let mut ops: Vec<DrawOp> = Vec::new();
        let monitor = self.monitor_in_window(found);
        ops.push(DrawOp::Picture);
        match self.selection {
            None => {},
            Some(selection) => self.draw_frame(&mut ops, selection, area),
        }
        match self.cursor {
            None => {},
            Some(cursor) => self.draw_pointer(&mut ops, monitor, cursor, area),
        }
        match self.selection {
            None => {},
            Some(selection) => {
                let badge = badge_plate(
                    selection,
                    text,
                    self.screen.width,
                    self.screen.height,
                );
                push_plate(
                    &mut ops,
                    badge,
                    area,
                    Label::Size { width: selection.width(), height: selection.height() },
                );
            },
        }
        assert(ops@ =~= self.compose_ops(area, monitor, text));
        ops
    }

    fn draw_frame(&self, ops: &mut Vec<DrawOp>, selection: Area, area: Area)
        requires
            self.wf(),
            selection.inside(self.width(), self.height()),
        ensures
            final(ops)@ == old(ops)@ + self.frame_ops(selection, area),
    {
        let thickness: i32 = clamp_i32(self.screen.width / 1000, 1, 3);
        let ink: u32 = self.options.accent.to_bgr_u32();
        let bands = border_bands(selection, thickness);
        push_fill(ops, bands[0], area, ink);
        push_fill(ops, bands[1], area, ink);
        push_fill(ops, bands[2], area, ink);
        push_fill(ops, bands[3], area, ink);
        assert(ops@ =~= old(ops)@ + self.frame_ops(selection, area));
    }

    fn draw_pointer(&self, ops: &mut Vec<DrawOp>, monitor: Area, cursor: (i32, i32), area: Area)
        requires
            self.wf(),
            roomy(monitor),
            reachable(cursor.0 as int),
            reachable(cursor.1 as int),
        ensures
            final(ops)@ == old(ops)@ + self.pointer_ops(monitor, cursor, area),
    {
        let lines = crosshair(monitor, cursor);
        push_fill(ops, lines[0], area, INK_WHITE);
        push_fill(ops, lines[1], area, INK_WHITE);
        if self.selection.is_none() && !self.dragging {
            let hint = hint_area(monitor, cursor, self.screen.width, self.screen.height);
            push_plate(ops, hint, area, Label::Hint);
        }
        let ghost prompted = ops@;
        let (source, patch) = magnifier_source_and_patch(
            monitor,
            cursor,
            self.screen.width,
            self.screen.height,
        );
        // The magnified patch is pixels, so it is written before the chrome around
        // it is drawn over it.
        ops.push(DrawOp::Magnify { source, patch });
        assert(ops@ =~= prompted + seq![DrawOp::Magnify { source, patch }]);
        self.draw_magnifier_chrome(ops, monitor, cursor, area);
        proof {
            let hint = if self.selection is None && !self.dragging {
                plate_inside(
                    hint_plate(monitor, cursor, self.width(), self.height()),
                    area,
                    Label::Hint,
                )
            } else {
                Seq::empty()
            };
            lemma_append_five(
                old(ops)@,
                fill_inside(lines[0], area, INK_WHITE),
                fill_inside(lines[1], area, INK_WHITE),
                hint,
                seq![DrawOp::Magnify { source, patch }],
                self.magnifier_chrome(monitor, cursor, area),
            );
        }
    }

    fn draw_magnifier_chrome(
        &self,
        ops: &mut Vec<DrawOp>,
        monitor: Area,
        cursor: (i32, i32),
        area: Area,
    )
        requires
            self.wf(),
            roomy(monitor),
            reachable(cursor.0 as int),
            reachable(cursor.1 as int),
        ensures
            final(ops)@ == old(ops)@ + self.magnifier_chrome(monitor, cursor, area),
    {
        let plate = magnifier_area(monitor, cursor, self.screen.width, self.screen.height);
        if !intersects(plate, area) {
            assert(ops@ =~= old(ops)@ + self.magnifier_chrome(monitor, cursor, area));
            return;
        }
        let (source, patch) = magnifier_source_and_patch(
            monitor,
            cursor,
            self.screen.width,
            self.screen.height,
        );
        let zoom: i32 = patch.width() / MAGNIFIER_SOURCE;
        assert(0 <= zoom <= MAGNIFIER_ZOOM);
        let off_x: i32 = cursor.0 - source.left;
        let off_y: i32 = cursor.1 - source.top;
        assert(-0x1000_0000 <= off_x * zoom <= 0x1000_0000 && -0x1000_0000 <= off_y * zoom
            <= 0x1000_0000) by (nonlinear_arith)
            requires
                -0x0200_0000 <= off_x <= 0x0200_0000,
                -0x0200_0000 <= off_y <= 0x0200_0000,
                0 <= zoom <= 8,
        ;
        let centre_x: i32 = patch.left + off_x * zoom;
        let centre_y: i32 = patch.top + off_y * zoom;
        let cell = Area {
            left: centre_x,
            top: centre_y,
            right: centre_x + zoom,
            bottom: centre_y + zoom,
        };
        ops.push(DrawOp::Outline { area: cell, ink: INK_WHITE });
        ops.push(DrawOp::Outline { area: plate, ink: INK_WHITE });
        let strip = Area {
            left: plate.left,
            top: patch.bottom,
            right: plate.right,
            bottom: plate.bottom,
        };
        ops.push(DrawOp::Fill { area: strip, ink: INK_STRIP });
        let (red, green, blue) = pixel_at(&self.screen, cursor.0, cursor.1);
        let label = Label::Readout {
            x: self.origin.0 + cursor.0,
            y: self.origin.1 + cursor.1,
            red,
            green,
            blue,
        };
        ops.push(DrawOp::Text { area: strip, label });
        assert(ops@ =~= old(ops)@ + self.magnifier_chrome(monitor, cursor, area));
    }

    /// The frame around the selection never covers a pixel that will be taken: what
    /// is shown bright is exactly what the session delivers.
    pub proof fn the_frame_leaves_the_selection_alone(
        self,
        selection: Area,
        area: Area,
        i: int,
        x: int,
        y: int,
    )
        requires
            self.wf(),
            selection.inside(self.width(), self.height()),
            selection.covers(x, y),
            0 <= i < self.frame_ops(selection, area).len(),
        ensures
            self.frame_ops(selection, area)[i] matches DrawOp::Fill { area: filled, ink }
                && !filled.covers(x, y),
    {
        let bands = frame_bands(selection, frame_thickness(self.width()));
        let ink = self.options.accent.bgr() as u32;
        assert(!bands[0].covers(x, y) && !bands[1].covers(x, y) && !bands[2].covers(x, y)
            && !bands[3].covers(x, y));
        let f0 = fill_inside(bands[0], area, ink);
        let f1 = fill_inside(bands[1], area, ink);
        let f2 = fill_inside(bands[2], area, ink);
        let f3 = fill_inside(bands[3], area, ink);
        let all = f0 + f1 + f2 + f3;
        if i < f0.len() {
            assert(all[i] == f0[i]);
        } else if i < (f0 + f1).len() {
            assert(all[i] == f1[i - f0.len()]);
        } else if i < (f0 + f1 + f2).len() {
            assert(all[i] == f2[i - (f0 + f1).len()]);
        } else {
            assert(all[i] == f3[i - (f0 + f1 + f2).len()]);
        }
    }
}

/// Start a selection: the desktop's rectangle and its pixels have to be there.
pub fn open(rect: Option<ScreenRect>, screen: Option<Shot>, options: Options) -> (r: Result<
    Session,
    Failure,
>)
    requires
        options.dim.wf(),
        rect is Some ==> reachable_rect(rect->0),
        screen is Some ==> screen->0.wf() && screen->0.width <= REACH && screen->0.height <= REACH,
    ensures
        match r {
            Err(failure) => failure == Failure::Unavailable && (rect is None || screen is None),
            Ok(session) => {
                &&& rect is Some
                &&& screen is Some
                &&& session.wf()
                &&& session.screen == screen->0
                &&& session.origin == (rect->0.left, rect->0.top)
                &&& session.options == options
                &&& session.selection is None && session.cursor is None && session.result is None
                &&& session.anchor == (0i32, 0i32)
                &&& !session.dragging && !session.finished && session.attached
                &&& forall|k: int|
                    0 <= k < screen->0.bgra@.len() ==> #[trigger] session.dimmed.bgra@[k] == (if k
                        % 4 == 3 {
                        Shot::dim_alpha(options.dim)
                    } else {
                        screen->0.bgra@[k] * Shot::dim_alpha(options.dim) / 255
                    })
            },
        },
{
    match rect {
        None => Err(Failure::Unavailable),
        Some(rect) => match screen {
            None => Err(Failure::Unavailable),
            Some(screen) => Ok(Session::new(screen, (rect.left, rect.top), options)),
        },
    }
}

/// What the keyboard hook does about a key.
#[derive(Clone, Copy, Debug, PartialEq, Eq, Structural)]
pub enum HookAction {
    /// Not ours: hand it on.
    Pass,
    /// Swallow it and ask the window to close.
    Close,
    /// Swallow it and hand the window the key.
    Take,
}

/// Swallow the two keys that end a session, Escape and Enter.
///
/// The overlay deliberately does not take the foreground, so keyboard messages
/// follow the focus to whatever application the user was in. This is how the mask
/// hears them anyway: while there is a session, and only then, these two are its
/// own.
pub fn keyboard_hook(key_down: bool, key: Option<u32>, session_up: bool) -> (r: HookAction)
    ensures
        r == (if !key_down || !session_up {
            HookAction::Pass
        } else if key == Some(KEY_ESCAPE) {
            HookAction::Close
        } else if key == Some(KEY_RETURN) {
            HookAction::Take
        } else {
            HookAction::Pass
        }),
{
    if key_down {
        match key {
            None => HookAction::Pass,
            Some(code) => if (code == KEY_ESCAPE || code == KEY_RETURN) && session_up {
                if code == KEY_ESCAPE {
                    HookAction::Close
                } else {
                    HookAction::Take
                }
            } else {
                HookAction::Pass
            },
        }
    } else {
        HookAction::Pass
    }
}

/// The read-out that is drawn for a pointer on the screen says where the pointer is on the
/// virtual screen and names the colour of the pixel under it: of its four bytes, the third is
/// the red, the second the green and the first the blue. Off the screen the colour is black.
#[verifier::spinoff_prover]
#[verifier::rlimit(40)]
pub proof fn the_readout_names_the_pixel_under_the_pointer(
    session: Session,
    area: Area,
    monitor: Area,
    text: (i32, i32),
    i: int,
)
    requires
        session.wf(),
        session.cursor is Some,
        0 <= i < session.compose_ops(area, monitor, text).len(),
    ensures
        session.compose_ops(area, monitor, text)[i] matches DrawOp::Text { area: plate, label }
            ==> (label matches Label::Readout { x, y, red, green, blue } ==> {
            let (px, py) = session.cursor->0;
            let at = 4 * (py * session.screen.width + px);
            let on_screen = 0 <= px < session.screen.width && 0 <= py < session.screen.height;
            &&& x == session.origin.0 + px
            &&& y == session.origin.1 + py
            &&& on_screen ==> red == session.screen.bgra@[at + 2] && green
                == session.screen.bgra@[at + 1] && blue == session.screen.bgra@[at]
            &&& !on_screen ==> red == 0 && green == 0 && blue == 0
        }),
{
    let cursor = session.cursor->0;
    let (px, py) = cursor;
    let w = session.screen.width as int;
    let ops = session.compose_ops(area, monitor, text);
    assert(py * (w * 4) + px * 4 == 4 * (py * w + px)) by (nonlinear_arith);
    let pointer = session.pointer_ops(monitor, cursor, area);
    let chrome = session.magnifier_chrome(monitor, cursor, area);
    let frame = match session.selection {
        Some(selection) => session.frame_ops(selection, area),
        None => Seq::empty(),
    };
    let head = seq![DrawOp::Picture] + frame;
    if ops[i] is Text && ops[i]->label is Readout {
        if i < head.len() {
            assert(ops[i] == head[i]);
            if i >= 1 {
                assert(head[i] == frame[i - 1]);
                let selection = session.selection->0;
                lemma_frame_is_fills(session, selection, area, i - 1);
            }
        } else if i < head.len() + pointer.len() {
            let k = i - head.len();
            assert(ops[i] == pointer[k]);
            let rest = pointer.len() - chrome.len();
            if k >= rest {
                assert(pointer[k] == chrome[k - rest]);
            } else {
                lemma_pointer_head(session, monitor, cursor, area, k);
            }
        } else {
            let selection = session.selection->0;
            let badge = plate_inside(
                badge_rect(selection, text, session.width(), session.height()),
                area,
                Label::Size {
                    width: (selection.right - selection.left) as i32,
                    height: (selection.bottom - selection.top) as i32,
                },
            );
            assert(ops == head + pointer + badge);
            assert(ops[i] == badge[i - head.len() - pointer.len()]);
        }
    }
}

#[verifier::spinoff_prover]
#[verifier::rlimit(40)]
proof fn lemma_frame_is_fills(session: Session, selection: Area, area: Area, i: int)
    requires
        0 <= i < session.frame_ops(selection, area).len(),
    ensures
        session.frame_ops(selection, area)[i] is Fill,
        session.frame_ops(selection, area)[i]->Fill_ink == session.options.accent.bgr() as u32,
{
    let bands = frame_bands(selection, frame_thickness(session.width()));
    let ink = session.options.accent.bgr() as u32;
    let f0 = fill_inside(bands[0], area, ink);
    let f1 = fill_inside(bands[1], area, ink);
    let f2 = fill_inside(bands[2], area, ink);
    let f3 = fill_inside(bands[3], area, ink);
    let all = f0 + f1 + f2 + f3;
    if i < f0.len() {
        assert(all[i] == f0[i]);
    } else if i < (f0 + f1).len() {
        assert(all[i] == f1[i - f0.len()]);
    } else if i < (f0 + f1 + f2).len() {
        assert(all[i] == f2[i - (f0 + f1).len()]);
    } else {
        assert(all[i] == f3[i - (f0 + f1 + f2).len()]);
    }
}

#[verifier::spinoff_prover]
#[verifier::rlimit(40)]
proof fn lemma_pointer_head(
    session: Session,
    monitor: Area,
    cursor: (i32, i32),
    area: Area,
    k: int,
)
    requires
        0 <= k < session.pointer_ops(monitor, cursor, area).len() - session.magnifier_chrome(
            monitor,
            cursor,
            area,
        ).len(),
    ensures
        session.pointer_ops(monitor, cursor, area)[k] matches DrawOp::Text { area: plate, label }
            ==> label is Hint,
{
    let lines = crosshair_lines(monitor, cursor);
    let f0 = fill_inside(lines[0], area, INK_WHITE);
    let f1 = fill_inside(lines[1], area, INK_WHITE);
    let hint = if session.selection is None && !session.dragging {
        plate_inside(
            hint_plate(monitor, cursor, session.width(), session.height()),
            area,
            Label::Hint,
        )
    } else {
        Seq::empty()
    };
    let all = session.pointer_ops(monitor, cursor, area);
    if k < f0.len() {
        assert(all[k] == f0[k]);
    } else if k < (f0 + f1).len() {
        assert(all[k] == f1[k - f0.len()]);
    } else if k < (f0 + f1 + hint).len() {
        assert(all[k] == hint[k - (f0 + f1).len()]);
    } else {
        assert(all[k] is Magnify);
    }
}

/// Where the magnifier is composed, its read-out is: a step draws the text on the plate's
/// lowest eighteen rows, after the magnified pixels.
#[verifier::spinoff_prover]
#[verifier::rlimit(40)]
pub proof fn a_shown_magnifier_has_its_readout(
    session: Session,
    area: Area,
    monitor: Area,
    text: (i32, i32),
)
    requires
        session.wf(),
        session.cursor is Some,
        crosses(
            magnifier_plate(monitor, session.cursor->0, session.width(), session.height()),
            area,
        ),
    ensures
        exists|i: int|
            #![trigger session.compose_ops(area, monitor, text)[i]]
            {
                let ops = session.compose_ops(area, monitor, text);
                let plate = magnifier_plate(
                    monitor,
                    session.cursor->0,
                    session.width(),
                    session.height(),
                );
                &&& 4 <= i < ops.len()
                &&& ops[i] matches DrawOp::Text { area: strip, label } && label is Readout
                    && strip == (Area { top: (plate.bottom - 18) as i32, ..plate })
                &&& ops[i - 4] matches DrawOp::Magnify { source, patch } && patch == (Area {
                    bottom: (plate.bottom - 18) as i32,
                    ..plate
                }) && source == magnifier_source(
                    session.cursor->0,
                    session.width(),
                    session.height(),
                )
            },
{
    let cursor = session.cursor->0;
    let ops = session.compose_ops(area, monitor, text);
    let pointer = session.pointer_ops(monitor, cursor, area);
    let chrome = session.magnifier_chrome(monitor, cursor, area);
    let frame = match session.selection {
        Some(selection) => session.frame_ops(selection, area),
        None => Seq::empty(),
    };
    let head = seq![DrawOp::Picture] + frame;
    let rest = pointer.len() - chrome.len();
    let i = head.len() + rest + 3;
    assert(chrome.len() == 4);
    assert(pointer[rest + 3] == chrome[3]);
    assert(pointer[rest - 1] is Magnify);
    assert(ops[i] == pointer[rest + 3]);
    assert(ops[i - 4] == pointer[rest - 1]);
}

/// The text of a read-out ends in the colour as `#RRGGBB`, and begins with the column that the
/// pointer is on; the text of a size begins with the width and ends with the height.
#[verifier::spinoff_prover]
#[verifier::rlimit(40)]
pub proof fn a_label_reads_as_it_should(
    x: i32,
    y: i32,
    red: u8,
    green: u8,
    blue: u8,
    width: i32,
    height: i32,
)
    ensures
        ({
            let t = label_chars(Label::Readout { x, y, red, green, blue });
            let n = t.len() as int;
            let at = decimal(x as int).len() as int;
            &&& n > 7
            &&& t[n - 7] == '#'
            &&& 16 * digit_value(t[n - 6]) + digit_value(t[n - 5]) == red
            &&& 16 * digit_value(t[n - 4]) + digit_value(t[n - 3]) == green
            &&& 16 * digit_value(t[n - 2]) + digit_value(t[n - 1]) == blue
            &&& t.take(at) == decimal(x as int)
            &&& t.subrange(at, at + 3) == " × "@
            &&& t.subrange(at + 3, n - 10) == decimal(y as int)
        }),
        ({
            let t = label_chars(Label::Size { width, height });
            let at = decimal(width as int).len() as int;
            &&& t.take(at) == decimal(width as int)
            &&& t.subrange(at, at + 3) == " × "@
            &&& t.skip(at + 3) == decimal(height as int)
        }),
{
    reveal_strlit(" × ");
    reveal_strlit("   #");
    hex_reads_back(red as int);
    hex_reads_back(green as int);
    hex_reads_back(blue as int);
    let t = label_chars(Label::Readout { x, y, red, green, blue });
    let n = t.len() as int;
    let at = decimal(x as int).len() as int;
    assert(t.take(at) =~= decimal(x as int));
    assert(t.subrange(at, at + 3) =~= " × "@);
    assert(t.subrange(at + 3, n - 10) =~= decimal(y as int));
    let s = label_chars(Label::Size { width, height });
    let to = decimal(width as int).len() as int;
    assert(s.take(to) =~= decimal(width as int));
    assert(s.subrange(to, to + 3) =~= " × "@);
    assert(s.skip(to + 3) =~= decimal(height as int));
}

/// A composition starts with the picture and, where the badge is in sight, ends with the size
/// of the selection on it.
#[verifier::spinoff_prover]
#[verifier::rlimit(40)]
pub proof fn a_composition_ends_with_the_size(
    session: Session,
    area: Area,
    monitor: Area,
    text: (i32, i32),
)
    requires
        session.wf(),
    ensures
        ({
            let ops = session.compose_ops(area, monitor, text);
            &&& ops[0] is Picture
            &&& session.selection matches Some(selection) ==> {
                let badge = badge_rect(selection, text, session.width(), session.height());
                crosses(badge, area) ==> ops.last() == (DrawOp::Text {
                    area: badge,
                    label: Label::Size {
                        width: (selection.right - selection.left) as i32,
                        height: (selection.bottom - selection.top) as i32,
                    },
                })
            }
            &&& session.selection is None && session.cursor is None ==> ops.len() == 1
        }),
{
}

/// The frame of a selection is drawn in the accent colour, red in the lowest byte.
#[verifier::spinoff_prover]
#[verifier::rlimit(40)]
pub proof fn the_frame_has_the_accent_colour(
    session: Session,
    selection: Area,
    area: Area,
    i: int,
)
    requires
        0 <= i < session.frame_ops(selection, area).len(),
    ensures
        session.frame_ops(selection, area)[i] matches DrawOp::Fill { area: filled, ink } && ink
            as int % 256 == session.options.accent.r && ink as int / 256 % 256
            == session.options.accent.g && ink as int / 65536 == session.options.accent.b,
{
    lemma_frame_is_fills(session, selection, area, i);
}

/// A drag selects the pixels between where the button went down and where the pointer is, as
/// far as they are on the screen; a move without a button held selects nothing new. Either way
/// the pointer is remembered.
#[verifier::spinoff_prover]
#[verifier::rlimit(40)]
pub proof fn a_drag_selects_what_it_spans(session: Session, x: i32, y: i32, px: int, py: int)
    requires
        session.wf(),
        session.attached,
    ensures
        ({
            let after = session.after(Message::MouseMove { x, y });
            &&& after.cursor == Some((x, y))
            &&& after.dragging == session.dragging
            &&& after.anchor == session.anchor
            &&& !session.dragging ==> after.selection == session.selection
            &&& session.dragging ==> after.selection is Some && (after.selection->0.covers(px, py)
                <==> {
                &&& 0 <= px < session.screen.width
                &&& 0 <= py < session.screen.height
                &&& session.anchor.0 <= px < x || x <= px < session.anchor.0
                &&& session.anchor.1 <= py < y || y <= py < session.anchor.1
            })
        }),
{
}

/// A press starts a drag at the pointer, with nothing selected.
#[verifier::spinoff_prover]
#[verifier::rlimit(40)]
pub proof fn a_press_starts_over(session: Session, x: i32, y: i32)
    requires
        session.attached,
    ensures
        ({
            let after = session.after(Message::ButtonDown { x, y });
            &&& after.dragging
            &&& after.anchor == (x, y)
            &&& after.cursor == Some((x, y))
            &&& after.selection is None
            &&& after.finished == session.finished
            &&& after.result == session.result
        }),
{
}

/// Letting go of the button and pressing Enter take the selection as it stands, provided it is
/// at least two pixels on either side; anything smaller ends the session with nothing. Escape,
/// a right-click and a close end it with nothing whatever is selected.
#[verifier::spinoff_prover]
#[verifier::rlimit(40)]
pub proof fn a_session_ends_with_its_selection(session: Session, key: u32)
    requires
        session.wf(),
        session.attached,
        !session.finished,
    ensures
        ({
            let chosen = match session.selection {
                Some(area) if area.right - area.left >= 2 && area.bottom - area.top >= 2 => Some(
                    area,
                ),
                _ => None,
            };
            let up = session.after(Message::ButtonUp);
            let struck = session.after(Message::KeyDown { key });
            &&& session.dragging ==> up.finished && up.result == chosen && !up.dragging
            &&& !session.dragging ==> up == session
            &&& key == 13 ==> struck.finished && struck.result == chosen
            &&& key == 27 ==> struck.finished && struck.result is None
            &&& key != 13 && key != 27 ==> struck == session
            &&& session.after(Message::RightButtonDown).finished
            &&& session.after(Message::RightButtonDown).result is None
            &&& session.after(Message::Close).finished
            &&& session.after(Message::Close).result is None
        }),
{
}

/// The captured screen, and where it lies, never change while a session runs.
#[verifier::spinoff_prover]
#[verifier::rlimit(40)]
pub proof fn the_screen_is_never_touched(session: Session, message: Message)
    ensures
        session.after(message).screen == session.screen,
        session.after(message).dimmed == session.dimmed,
        session.after(message).origin == session.origin,
        session.after(message).options == session.options,
        session.after(message).attached == (session.attached && !(message is Destroy)),
        !session.attached ==> session.after(message) == session,
{
}

/// The crosshair is the row and the column of the pointer across its monitor.
#[verifier::spinoff_prover]
#[verifier::rlimit(40)]
pub proof fn the_crosshair_meets_at_the_pointer(monitor: Area, cursor: (i32, i32), x: int, y: int)
    requires
        reachable(cursor.0 as int),
        reachable(cursor.1 as int),
    ensures
        crosshair_lines(monitor, cursor).len() == 2,
        crosshair_lines(monitor, cursor)[0].covers(x, y) <==> y == cursor.1 && monitor.left <= x
            < monitor.right,
        crosshair_lines(monitor, cursor)[1].covers(x, y) <==> x == cursor.0 && monitor.top <= y
            < monitor.bottom,
{
}

/// The magnifier samples twenty-one pixels on a side, with ten before the pointer wherever the
/// picture allows it.
#[verifier::spinoff_prover]
#[verifier::rlimit(40)]
pub proof fn the_magnifier_is_centred_on_the_pointer(
    cursor: (i32, i32),
    width: int,
    height: int,
)
    requires
        reachable(cursor.0 as int),
        reachable(cursor.1 as int),
        0 <= width <= REACH,
        0 <= height <= REACH,
    ensures
        ({
            let source = magnifier_source(cursor, width, height);
            &&& source.right - source.left == 21
            &&& source.bottom - source.top == 21
            &&& 10 <= cursor.0 <= width - 11 ==> source.left == cursor.0 - 10
            &&& 10 <= cursor.1 <= height - 11 ==> source.top == cursor.1 - 10
            &&& 0 <= source.left && (width >= 21 ==> source.right <= width)
            &&& 0 <= source.top && (height >= 21 ==> source.bottom <= height)
        }),
{
}

/// The magnifier is eighteen pixels from the pointer: below and to the right of it where the
/// monitor has room there, and otherwise above or to the left, where the monitor has room for
/// that. With room on the screen it is 168 pixels wide and 186 tall, and never under the
/// pointer.
#[verifier::spinoff_prover]
#[verifier::rlimit(40)]
pub proof fn the_magnifier_keeps_off_the_pointer(
    monitor: Area,
    cursor: (i32, i32),
    width: int,
    height: int,
)
    requires
        roomy(monitor),
        reachable(cursor.0 as int),
        reachable(cursor.1 as int),
        0 <= monitor.left,
        0 <= monitor.top,
        monitor.right <= width <= REACH,
        monitor.bottom <= height <= REACH,
        monitor.covers(cursor.0 as int, cursor.1 as int),
    ensures
        ({
            let plate = magnifier_plate(monitor, cursor, width, height);
            let (right, below) = (
                cursor.0 + 18 + 168 <= monitor.right,
                cursor.1 + 18 + 186 <= monitor.bottom,
            );
            let (left, above) = (
                cursor.0 - 18 - 168 >= monitor.left,
                cursor.1 - 18 - 186 >= monitor.top,
            );
            &&& right ==> plate.left == cursor.0 + 18 && plate.right == cursor.0 + 186
            &&& !right && left ==> plate.right == cursor.0 - 18 && plate.left == cursor.0 - 186
            &&& !right && !left ==> plate.left == monitor.left
            &&& below ==> plate.top == cursor.1 + 18 && plate.bottom == cursor.1 + 204
            &&& !below && above ==> plate.bottom == cursor.1 - 18 && plate.top == cursor.1 - 204
            &&& !below && !above ==> plate.top == monitor.top
            &&& right || left || below || above ==> !plate.covers(cursor.0 as int, cursor.1 as int)
            &&& monitor.right - monitor.left >= 168 ==> plate.right - plate.left == 168
            &&& monitor.bottom - monitor.top >= 186 ==> plate.bottom - plate.top == 186
        }),
{
}

/// The cell that the magnifier outlines is the one that the pixel under the pointer is blown
/// up into: eight pixels on a side, eight for each sampled pixel before it.
#[verifier::spinoff_prover]
#[verifier::rlimit(40)]
pub proof fn the_outlined_cell_shows_the_pointer(session: Session, patch: Area, cursor: (i32, i32))
    requires
        session.wf(),
        reachable(cursor.0 as int),
        reachable(cursor.1 as int),
        -REACH <= patch.left <= REACH,
        -REACH <= patch.top <= REACH,
        patch.right - patch.left == 168,
    ensures
        ({
            let source = magnifier_source(cursor, session.width(), session.height());
            let cell = session.pointer_cell(patch, cursor);
            &&& cell.left == patch.left + 8 * (cursor.0 - source.left)
            &&& cell.top == patch.top + 8 * (cursor.1 - source.top)
            &&& cell.right == cell.left + 8
            &&& cell.bottom == cell.top + 8
        }),
{
    assert((patch.right - patch.left) / 21 == 8);
    let x = cursor.0 - magnifier_corner(cursor.0 as int, session.width());
    let y = cursor.1 - magnifier_corner(cursor.1 as int, session.height());
    assert(x * 8 == 8 * x && y * 8 == 8 * y);
}

/// The prompt is as large as it is wherever the screen has room for it, on the monitor, and to
/// the left of the pointer where there is room, so that the magnifier does not cover it.
#[verifier::spinoff_prover]
#[verifier::rlimit(40)]
pub proof fn the_prompt_is_left_of_the_pointer(
    monitor: Area,
    cursor: (i32, i32),
    width: int,
    height: int,
)
    requires
        roomy(monitor),
        reachable(cursor.0 as int),
        reachable(cursor.1 as int),
        0 <= monitor.left,
        0 <= monitor.top,
        monitor.right <= width <= REACH,
        monitor.bottom <= height <= REACH,
        monitor.right - monitor.left >= 360,
        monitor.bottom - monitor.top >= 30,
        monitor.covers(cursor.0 as int, cursor.1 as int),
    ensures
        ({
            let plate = hint_plate(monitor, cursor, width, height);
            &&& plate.right - plate.left == 360
            &&& plate.bottom - plate.top == 30
            &&& monitor.left <= plate.left && plate.right <= monitor.right
            &&& monitor.top <= plate.top && plate.bottom <= monitor.bottom
            &&& cursor.0 - 382 >= monitor.left ==> plate.right == cursor.0 - 22
            &&& cursor.1 + 52 <= monitor.bottom ==> plate.top == cursor.1 + 22
        }),
{
}

/// A monitor that the system found is seen from the window: its pixels are those of the
/// virtual screen less the window's own corner. Without one it is the whole captured screen.
#[verifier::spinoff_prover]
#[verifier::rlimit(40)]
pub proof fn a_monitor_is_seen_from_the_window(session: Session, found: ScreenRect, x: int, y: int)
    requires
        session.wf(),
        reachable_rect(found),
    ensures
        session.local_monitor(Some(found)).covers(x, y) <==> found.left <= x + session.origin.0
            < found.right && found.top <= y + session.origin.1 < found.bottom,
        session.local_monitor(None).covers(x, y) <==> 0 <= x < session.screen.width && 0 <= y
            < session.screen.height,
{
}

/// Moving the pointer repaints where the furniture was and where it is now: every one of those
/// areas is among the ones that have changed.
#[verifier::spinoff_prover]
#[verifier::rlimit(40)]
pub proof fn furniture_is_wiped_and_drawn(session: Session, x: i32, y: i32, around: Surroundings, i: int)
    requires
        session.wf(),
    ensures
        ({
            let message = Message::MouseMove { x, y };
            let was = session.furniture_areas(
                session.cursor,
                session.local_monitor(around.before),
                around.text,
            );
            let now = session.furniture_areas(
                Some((x, y)),
                session.local_monitor(around.after),
                around.text,
            );
            let dirty = session.dirty(message, around);
            &&& 0 <= i < was.len() ==> dirty.contains(was[i])
            &&& 0 <= i < now.len() ==> dirty.contains(now[i])
        }),
        ({
            let message = Message::ButtonDown { x, y };
            let was = session.furniture_areas(
                session.cursor,
                session.local_monitor(around.before),
                around.text,
            );
            0 <= i < was.len() ==> session.dirty(message, around).contains(was[i])
        }),
{
    let was = session.furniture_areas(
        session.cursor,
        session.local_monitor(around.before),
        around.text,
    );
    let now = session.furniture_areas(
        Some((x, y)),
        session.local_monitor(around.after),
        around.text,
    );
    let moved = session.dirty(Message::MouseMove { x, y }, around);
    let pressed = session.dirty(Message::ButtonDown { x, y }, around);
    if 0 <= i < was.len() {
        assert(moved[i] == was[i]);
        assert(pressed[i] == was[i]);
    }
    if 0 <= i < now.len() {
        assert(moved[was.len() + i] == now[i]);
    }
}

/// Everything that hangs off the pointer or the selection is furniture: the two lines of the
/// crosshair, the magnifier, the prompt before the first drag, and the badge of a selection.
#[verifier::spinoff_prover]
#[verifier::rlimit(40)]
pub proof fn the_furniture_is_complete(
    session: Session,
    cursor: (i32, i32),
    monitor: Area,
    text: (i32, i32),
)
    requires
        session.wf(),
    ensures
        ({
            let all = session.furniture_areas(Some(cursor), monitor, text);
            let lines = crosshair_lines(monitor, cursor);
            let plate = magnifier_plate(monitor, cursor, session.width(), session.height());
            let hint = hint_plate(monitor, cursor, session.width(), session.height());
            &&& !lines[0].empty() ==> all.contains(lines[0])
            &&& !lines[1].empty() ==> all.contains(lines[1])
            &&& !plate.empty() ==> all.contains(plate)
            &&& !hint.empty() && session.selection is None && !session.dragging ==> all.contains(
                hint,
            )
            &&& session.selection matches Some(selection) ==> {
                let badge = badge_rect(selection, text, session.width(), session.height());
                !badge.empty() ==> all.contains(badge)
            }
        }),
{
    let lines = crosshair_lines(monitor, cursor);
    let plate = magnifier_plate(monitor, cursor, session.width(), session.height());
    let hint = hint_plate(monitor, cursor, session.width(), session.height());
    let all = session.furniture_areas(Some(cursor), monitor, text);
    let (a, b, d) = (kept(lines[0]), kept(lines[1]), kept(plate));
    let c = if session.selection is None && !session.dragging {
        kept(hint)
    } else {
        Seq::empty()
    };
    let pointer = session.pointer_furniture(monitor, cursor);
    if !lines[0].empty() {
        assert(all[0] == lines[0]);
    }
    if !lines[1].empty() {
        assert(all[a.len() as int] == lines[1]);
    }
    if c.len() > 0 {
        assert(all[(a + b).len() as int] == hint);
    }
    if !plate.empty() {
        assert(all[(a + b + c).len() as int] == plate);
    }
    if session.selection is Some {
        let badge = badge_rect(session.selection->0, text, session.width(), session.height());
        if !badge.empty() {
            assert(all[pointer.len() as int] == badge);
        }
    }
}

/// The frame is one pixel thick on an ordinary screen, and up to three on a wide one: one for
/// each full thousand pixels of its width.
#[verifier::spinoff_prover]
#[verifier::rlimit(40)]
pub proof fn the_frame_grows_with_the_screen(width: int)
    ensures
        width < 2000 ==> frame_thickness(width) == 1,
        2000 <= width < 3000 ==> frame_thickness(width) == 2,
        width >= 3000 ==> frame_thickness(width) == 3,
{
}

/// The badge leaves eight pixels beside its text and five above and below it, and sits where a
/// badge of that size goes.
#[verifier::spinoff_prover]
#[verifier::rlimit(40)]
pub proof fn the_badge_has_room_for_its_text(
    selection: Area,
    text: (i32, i32),
    width: int,
    height: int,
)
    requires
        label_sized(text),
        0 <= width <= REACH,
        0 <= height <= REACH,
        selection.inside(width, height),
        text.0 + 16 <= width,
        text.1 + 10 <= height,
    ensures
        ({
            let plate = badge_rect(selection, text, width, height);
            &&& plate.right - plate.left == text.0 + 16
            &&& plate.bottom - plate.top == text.1 + 10
            &&& 0 <= plate.left && plate.right <= width
            &&& 0 <= plate.top && plate.bottom <= height
            &&& selection.top >= text.1 + 16 ==> plate.bottom == selection.top - 6
            &&& selection.top < text.1 + 16 && selection.bottom + text.1 + 16 <= height
                ==> plate.top == selection.bottom + 6
        }),
{
}

/// Every pixel that a drag makes brighter or darker is among what has changed; and so is the
/// selection of before, with eight pixels round it for its frame, when a new drag begins.
#[verifier::spinoff_prover]
#[verifier::rlimit(40)]
pub proof fn what_a_drag_changes_is_drawn_again(
    session: Session,
    x: i32,
    y: i32,
    around: Surroundings,
    px: int,
    py: int,
)
    requires
        session.wf(),
        reachable(x as int),
        reachable(y as int),
        0 <= px < session.screen.width,
        0 <= py < session.screen.height,
    ensures
        session.attached && session.dragging && (session.selection is Some
            && session.selection->0.covers(px, py)) != session.after(
            Message::MouseMove { x, y },
        ).selection->0.covers(px, py) ==> crate::snip::area::any_covers(
            session.dirty(Message::MouseMove { x, y }, around),
            px,
            py,
        ),
        session.selection matches Some(area) ==> (area.left < area.right && area.top < area.bottom
            && area.left - 8 <= px < area.right + 8 && area.top - 8 <= py < area.bottom + 8
            ==> crate::snip::area::any_covers(
            session.dirty(Message::ButtonDown { x, y }, around),
            px,
            py,
        )),
{
    let (w, h) = (session.width(), session.height());
    let moved = session.dirty(Message::MouseMove { x, y }, around);
    let was = session.furniture_areas(
        session.cursor,
        session.local_monitor(around.before),
        around.text,
    );
    if session.attached && session.dragging {
        let previous = match session.selection {
            Some(previous) => previous,
            None => Area::nothing(),
        };
        let next = Area::between(session.anchor, (x, y)).clamp_into(w, h);
        let now = session.furniture_areas(
            Some((x, y)),
            session.local_monitor(around.after),
            around.text,
        );
        let strips = strips_between(previous, next, 8, w, h);
        if previous.covers(px, py) != next.covers(px, py) {
            strips_cover_the_difference(previous, next, 8, w, h, px, py);
            let k = choose|k: int| 0 <= k < strips.len() && (#[trigger] strips[k]).covers(px, py);
            assert(moved[was.len() + now.len() + k] == strips[k]);
        }
    }
    if session.selection is Some {
        let area = session.selection->0;
        let held = Session { dragging: true, anchor: (x, y), cursor: Some((x, y)), ..session };
        let now = held.furniture_areas(
            held.cursor,
            session.local_monitor(around.after),
            around.text,
        );
        let pressed = session.dirty(Message::ButtonDown { x, y }, around);
        if area.left < area.right && area.top < area.bottom && area.left - 8 <= px < area.right + 8
            && area.top - 8 <= py < area.bottom + 8 {
            let grown = area.inflate_into(8, w, h);
            assert(grown.covers(px, py));
            assert(strips_between(area, Area::nothing(), 8, w, h)[0] == grown);
            assert(pressed[was.len() + now.len() as int] == grown);
        }
    }
}

/// Is there a step that fills the pixel with this ink?
pub open spec fn inked(ops: Seq<DrawOp>, ink: u32, x: int, y: int) -> bool {
    exists|i: int|
        0 <= i < ops.len() && (#[trigger] ops[i] matches DrawOp::Fill { area, ink: with } && with == ink
            && area.covers(x, y))
}

/// The crosshair is drawn in white through the pointer, across its monitor, in whatever part of
/// it is composed.
#[verifier::spinoff_prover]
#[verifier::rlimit(40)]
pub proof fn the_crosshair_is_drawn(
    session: Session,
    area: Area,
    monitor: Area,
    text: (i32, i32),
    x: int,
    y: int,
)
    requires
        session.wf(),
        session.cursor is Some,
        area.covers(x, y),
        monitor.covers(x, y),
        x == (session.cursor->0).0 || y == (session.cursor->0).1,
    ensures
        inked(session.compose_ops(area, monitor, text), 0x00FF_FFFF, x, y),
{
    let cursor = session.cursor->0;
    let ops = session.compose_ops(area, monitor, text);
    let frame = match session.selection {
        Some(selection) => session.frame_ops(selection, area),
        None => Seq::empty(),
    };
    let lines = crosshair_lines(monitor, cursor);
    let (f0, f1) = (
        fill_inside(lines[0], area, INK_WHITE),
        fill_inside(lines[1], area, INK_WHITE),
    );
    let pointer = session.pointer_ops(monitor, cursor, area);
    let at = 1 + frame.len() as int;
    if y == cursor.1 {
        assert(lines[0].meet(area).covers(x, y));
        assert(pointer[0] == f0[0]);
        assert(ops[at] == pointer[0]);
    } else {
        assert(lines[1].meet(area).covers(x, y));
        assert(pointer[f0.len() as int] == f1[0]);
        assert(ops[at + f0.len()] == pointer[f0.len() as int]);
    }
}

/// The frame of a selection is drawn in the accent colour all round it, in whatever part of it
/// is composed.
#[verifier::spinoff_prover]
#[verifier::rlimit(40)]
pub proof fn the_frame_is_drawn(
    session: Session,
    area: Area,
    monitor: Area,
    text: (i32, i32),
    x: int,
    y: int,
)
    requires
        session.wf(),
        session.selection is Some,
        area.covers(x, y),
        !session.selection->0.covers(x, y),
        session.selection->0.left - 1 <= x < session.selection->0.right + 1,
        session.selection->0.top - 1 <= y < session.selection->0.bottom + 1,
    ensures
        inked(
            session.compose_ops(area, monitor, text),
            session.options.accent.bgr() as u32,
            x,
            y,
        ),
{
    let selection = session.selection->0;
    let thickness = frame_thickness(session.width());
    let ink = session.options.accent.bgr() as u32;
    let bands = frame_bands(selection, thickness);
    crate::snip::area::the_frame_is_the_ring_around_the_selection(selection, thickness, x, y);
    let k = choose|k: int| 0 <= k < bands.len() && (#[trigger] bands[k]).covers(x, y);
    let (f0, f1, f2, f3) = (
        fill_inside(bands[0], area, ink),
        fill_inside(bands[1], area, ink),
        fill_inside(bands[2], area, ink),
        fill_inside(bands[3], area, ink),
    );
    let frame = session.frame_ops(selection, area);
    let ops = session.compose_ops(area, monitor, text);
    assert(bands[k].meet(area).covers(x, y));
    let at = if k == 0 {
        0
    } else if k == 1 {
        f0.len() as int
    } else if k == 2 {
        (f0 + f1).len() as int
    } else {
        (f0 + f1 + f2).len() as int
    };
    assert(frame[at] == (DrawOp::Fill { area: bands[k].meet(area), ink }));
    assert(ops[1 + at] == frame[at]);
}

/// The prompt is shown before the first drag and never once there is a selection or a drag.
#[verifier::spinoff_prover]
#[verifier::rlimit(40)]
pub proof fn the_prompt_is_shown_before_the_first_drag(
    session: Session,
    area: Area,
    monitor: Area,
    text: (i32, i32),
)
    requires
        session.wf(),
        session.cursor is Some,
        crosses(
            hint_plate(monitor, session.cursor->0, session.width(), session.height()),
            area,
        ),
    ensures
        (exists|i: int|
            0 <= i < session.compose_ops(area, monitor, text).len() && (
            #[trigger] session.compose_ops(area, monitor, text)[i] matches DrawOp::Text {
                area: plate,
                label,
            } && label is Hint)) <==> session.selection is None && !session.dragging,
{
    let cursor = session.cursor->0;
    let ops = session.compose_ops(area, monitor, text);
    let frame = match session.selection {
        Some(selection) => session.frame_ops(selection, area),
        None => Seq::empty(),
    };
    let head = seq![DrawOp::Picture] + frame;
    let lines = crosshair_lines(monitor, cursor);
    let (f0, f1) = (
        fill_inside(lines[0], area, INK_WHITE),
        fill_inside(lines[1], area, INK_WHITE),
    );
    let pointer = session.pointer_ops(monitor, cursor, area);
    let chrome = session.magnifier_chrome(monitor, cursor, area);
    let shown = session.selection is None && !session.dragging;
    if shown {
        let at = (f0 + f1).len() as int + 1;
        assert(pointer[at] is Text && pointer[at]->label is Hint);
        assert(ops[head.len() + at] == pointer[at]);
    } else {
        assert forall|i: int| 0 <= i < ops.len() implies !(#[trigger] ops[i] matches DrawOp::Text {
            area: plate,
            label,
        } && label is Hint) by {
            if i < head.len() {
                assert(ops[i] == head[i]);
                if i >= 1 {
                    assert(head[i] == frame[i - 1]);
                    lemma_frame_is_fills(session, session.selection->0, area, i - 1);
                }
            } else if i < head.len() + pointer.len() {
                let k = i - head.len();
                assert(ops[i] == pointer[k]);
                let rest = pointer.len() - chrome.len();
                if k >= rest {
                    assert(pointer[k] == chrome[k - rest]);
                } else if k < f0.len() {
                    assert(pointer[k] == f0[k]);
                } else if k < (f0 + f1).len() {
                    assert(pointer[k] == f1[k - f0.len()]);
                } else {
                    assert(pointer[k] is Magnify);
                }
            } else {
                let selection = session.selection->0;
                let badge = plate_inside(
                    badge_rect(selection, text, session.width(), session.height()),
                    area,
                    Label::Size {
                        width: (selection.right - selection.left) as i32,
                        height: (selection.bottom - selection.top) as i32,
                    },
                );
                assert(ops == head + pointer + badge);
                assert(ops[i] == badge[i - head.len() - pointer.len()]);
            }
        }
    }
}

/// The crosshair and the outlines are white, the plates nearly black, and the two keys that end
/// a session are Escape and Enter.
#[verifier::spinoff_prover]
#[verifier::rlimit(40)]
pub proof fn the_furniture_has_its_colours()
    ensures
        INK_WHITE == 0x00FF_FFFF,
        INK_PLATE == 0x0018_1818,
        INK_STRIP == 0x0010_1010,
        KEY_ESCAPE == 27,
        KEY_RETURN == 13,
        TIMER_ASSERT == 1,
{
}

} // verus!
