//! Pinned images.
//!
//! A pin is a small borderless topmost window showing a captured region, and it
//! stays on the desktop until it is dismissed. One window and one message loop per
//! pin: they can be moved and zoomed independently, and closing one cannot disturb
//! the others.
//!
//! Zooming changes the size of the window and the picture is scaled to fill it,
//! nearest neighbour, so a magnified screenshot shows the pixel grid it actually
//! has rather than a smoothed guess at it. The capture itself is never resampled.

use vstd::prelude::*;

use crate::number::{clamped_to, rounded, rounding_is_to_the_nearest, Factor};
use crate::snip::area::{greater, lesser, max_i32, min_i32, Area};
use crate::snip::capture::Shot;
use crate::snip::overlay::{reachable, KEY_ESCAPE, REACH};

verus! {

/// The close button in the corner of a pin, in pixels.
///
/// A pin is a window a user has to be able to get rid of without knowing that
/// Escape works, and without a click that also happens to start a drag.
pub const CLOSE_SIZE: i32 = 22;

/// How far the close button sits from the corner.
pub const CLOSE_INSET: i32 = 4;

/// A zoom of one, in the unit of the zoom limits.
pub const SCALE_ONE: u32 = 1_000_000;

/// Smallest and largest zoom, as a multiple of the original pixels.
pub const MIN_SCALE: u32 = 100_000;

pub const MAX_SCALE: u32 = 8_000_000;

/// One wheel notch multiplies the zoom by this.
pub const ZOOM_STEP: u32 = 1_100_000;

/// The border of a pin.
pub const INK_BORDER: u32 = 0x00A0_A0A0;

pub const KEY_DELETE: u32 = 0x2E;

pub const KEY_LEFT: u32 = 0x25;

pub const KEY_UP: u32 = 0x26;

pub const KEY_RIGHT: u32 = 0x27;

pub const KEY_DOWN: u32 = 0x28;

pub const KEY_C: u32 = 0x43;

/// One image currently shown as a pin.
#[derive(Clone, Copy, Debug, PartialEq, Eq, Structural)]
pub struct Live {
    /// Content fingerprint of the image, so a list of clipboard entries can tell
    /// which of them is already on screen.
    pub fingerprint: u64,
    /// The window handle, as a plain integer.
    pub hwnd: isize,
}

/// The live pins, and whoever wants to hear about them changing.
pub struct Registry {
    pub live: Vec<Live>,
    /// The one that is told, by the number it was given.
    pub listener: Option<u64>,
}

impl View for Registry {
    type V = Seq<Live>;

    open spec fn view(&self) -> Seq<Live> {
        self.live@
    }
}

/// Does one of the pins show this image?
pub open spec fn shows(live: Seq<Live>, fingerprint: u64) -> bool {
    exists|i: int| 0 <= i < live.len() && (#[trigger] live[i]).fingerprint == fingerprint
}

/// The pins without the windows called `hwnd`, in their order.
pub open spec fn without_window(live: Seq<Live>, hwnd: isize) -> Seq<Live>
    decreases live.len(),
{
    if live.len() == 0 {
        Seq::empty()
    } else {
        let rest = without_window(live.drop_last(), hwnd);
        if live.last().hwnd == hwnd {
            rest
        } else {
            rest.push(live.last())
        }
    }
}

impl Registry {
    /// No pins, and nobody listening.
    pub fn new() -> (r: Registry)
        ensures
            r@ == Seq::<Live>::empty(),
            r.listener is None,
    {
        Registry { live: Vec::new(), listener: None }
    }

    /// A pin has been opened.
    pub fn opened(&mut self, fingerprint: u64, hwnd: isize)
        ensures
            final(self)@ == old(self)@.push(Live { fingerprint, hwnd }),
            final(self).listener == old(self).listener,
    {
        self.live.push(Live { fingerprint, hwnd });
    }

    /// A pin's window is gone.
    pub fn closed(&mut self, hwnd: isize)
        ensures
            final(self)@ == without_window(old(self)@, hwnd),
            final(self).listener == old(self).listener,
    {
        let mut kept: Vec<Live> = Vec::new();
        let mut i: usize = 0;
        assert(self.live@.take(0) =~= Seq::empty());
        while i < self.live.len()
            invariant
                0 <= i <= self.live@.len(),
                *self == *old(self),
                kept@ == without_window(self.live@.take(i as int), hwnd),
            decreases self.live@.len() - i,
        {
            let pin = self.live[i];
            if pin.hwnd != hwnd {
                kept.push(pin);
            }
            proof {
                let next = self.live@.take(i + 1);
                assert(next.drop_last() =~= self.live@.take(i as int));
                assert(next.last() == self.live@[i as int]);
            }
            i = i + 1;
        }
        assert(self.live@.take(i as int) =~= self.live@);
        self.live = kept;
    }

    /// Whom to tell that the set of pins has changed.
    pub fn announce(&self) -> (r: Option<u64>)
        ensures
            r == self.listener,
    {
        self.listener
    }
}

impl Default for Registry {
    fn default() -> (r: Registry)
        ensures
            r@ == Seq::<Live>::empty(),
            r.listener is None,
    {
        Registry::new()
    }
}

/// Tell this listener whenever the set of pinned images changes.
///
/// One listener at a time, and the newest wins: there is a single clipboard list,
/// and a stale listener would be a leak.
pub fn on_change(registry: &mut Registry, listener: u64)
    ensures
        final(registry)@ == old(registry)@,
        final(registry).listener == Some(listener),
{
    registry.listener = Some(listener);
}

/// Fingerprints of every image on screen right now.
pub fn pinned(registry: &Registry) -> (r: Vec<u64>)
    ensures
        r@ == registry@.map_values(|pin: Live| pin.fingerprint),
{
    let mut fingerprints: Vec<u64> = Vec::new();
    let mut i: usize = 0;
    while i < registry.live.len()
        invariant
            0 <= i <= registry.live@.len(),
            fingerprints@.len() == i,
            forall|k: int| 0 <= k < i ==> fingerprints@[k] == registry.live@[k].fingerprint,
        decreases registry.live@.len() - i,
    {
        fingerprints.push(registry.live[i].fingerprint);
        i = i + 1;
    }
    assert(fingerprints@ =~= registry@.map_values(|pin: Live| pin.fingerprint));
    fingerprints
}

/// The first pin that shows this image.
fn position(live: &Vec<Live>, fingerprint: u64) -> (r: Option<usize>)
    ensures
        match r {
            None => !shows(live@, fingerprint),
            Some(i) => {
                &&& i < live@.len()
                &&& live@[i as int].fingerprint == fingerprint
                &&& forall|k: int| 0 <= k < i ==> live@[k].fingerprint != fingerprint
            },
        },
{
    let mut i: usize = 0;
    while i < live.len()
        invariant
            0 <= i <= live@.len(),
            forall|k: int| 0 <= k < i ==> live@[k].fingerprint != fingerprint,
        decreases live@.len() - i,
    {
        if live[i].fingerprint == fingerprint {
            return Some(i);
        }
        i = i + 1;
    }
    None
}

/// Is an image with this fingerprint already pinned?
pub fn is_pinned(registry: &Registry, fingerprint: u64) -> (r: bool)
    ensures
        r == shows(registry@, fingerprint),
{
    match position(&registry.live, fingerprint) {
        None => false,
        Some(i) => {
            assert(registry@[i as int].fingerprint == fingerprint);
            true
        },
    }
}

/// Dismiss the pin showing this image, if there is one: it leaves the list, and
/// the handle of its window, which has to be closed, comes back.
pub fn close_fingerprint(registry: &mut Registry, fingerprint: u64) -> (r: Option<isize>)
    ensures
        final(registry).listener == old(registry).listener,
        match r {
            None => !shows(old(registry)@, fingerprint) && final(registry)@ == old(registry)@,
            Some(hwnd) => exists|i: int|
                #![trigger old(registry)@[i]]
                {
                    &&& 0 <= i < old(registry)@.len()
                    &&& old(registry)@[i] == (Live { fingerprint, hwnd })
                    &&& forall|k: int| 0 <= k < i ==> old(registry)@[k].fingerprint != fingerprint
                    &&& final(registry)@ == old(registry)@.remove(i)
                },
        },
{
    match position(&registry.live, fingerprint) {
        None => None,
        Some(index) => {
            let pin = registry.live.remove(index);
            assert(old(registry)@[index as int] == pin);
            Some(pin.hwnd)
        },
    }
}

/// Close every pinned image. Safe to call when there are none. The handles of the
/// windows, which have to be closed, come back.
pub fn close_all(registry: &mut Registry) -> (r: Vec<isize>)
    ensures
        final(registry)@ == Seq::<Live>::empty(),
        final(registry).listener == old(registry).listener,
        r@ == old(registry)@.map_values(|pin: Live| pin.hwnd),
{
    let mut handles: Vec<isize> = Vec::new();
    let mut i: usize = 0;
    while i < registry.live.len()
        invariant
            *registry == *old(registry),
            0 <= i <= registry.live@.len(),
            handles@.len() == i,
            forall|k: int| 0 <= k < i ==> handles@[k] == registry.live@[k].hwnd,
        decreases registry.live@.len() - i,
    {
        handles.push(registry.live[i].hwnd);
        i = i + 1;
    }
    assert(handles@ =~= old(registry)@.map_values(|pin: Live| pin.hwnd));
    registry.live.clear();
    handles
}

/// An image is pinned from the moment its pin is opened.
pub proof fn an_opened_pin_is_pinned(live: Seq<Live>, fingerprint: u64, hwnd: isize)
    ensures
        shows(live.push(Live { fingerprint, hwnd }), fingerprint),
        forall|other: u64| shows(live, other) ==> shows(live.push(Live { fingerprint, hwnd }), other),
{
    let after = live.push(Live { fingerprint, hwnd });
    assert(after[live.len() as int].fingerprint == fingerprint);
    assert forall|other: u64| shows(live, other) implies shows(after, other) by {
        let i = choose|i: int| 0 <= i < live.len() && (#[trigger] live[i]).fingerprint == other;
        assert(after[i].fingerprint == other);
    }
}

/// A window that is gone is in the list no more, and every other pin stays.
pub proof fn a_closed_window_leaves_the_others(live: Seq<Live>, hwnd: isize)
    ensures
        forall|i: int|
            0 <= i < without_window(live, hwnd).len() ==> (#[trigger] without_window(
                live,
                hwnd,
            )[i]).hwnd != hwnd,
        forall|pin: Live|
            pin.hwnd != hwnd ==> (live.contains(pin) <==> #[trigger] without_window(
                live,
                hwnd,
            ).contains(pin)),
    decreases live.len(),
{
    if live.len() > 0 {
        a_closed_window_leaves_the_others(live.drop_last(), hwnd);
        let rest = without_window(live.drop_last(), hwnd);
        let after = without_window(live, hwnd);
        assert forall|pin: Live| pin.hwnd != hwnd implies (live.contains(pin)
            <==> #[trigger] after.contains(pin)) by {
            if live.contains(pin) {
                let i = live.index_of(pin);
                if i < live.len() - 1 {
                    assert(live.drop_last()[i] == pin);
                    assert(live.drop_last().contains(pin));
                    assert(rest.contains(pin));
                    let k = rest.index_of(pin);
                    assert(after[k] == pin);
                } else {
                    assert(after[after.len() - 1] == pin);
                }
            }
            if after.contains(pin) {
                let k = after.index_of(pin);
                if k < rest.len() {
                    assert(rest[k] == pin);
                    assert(rest.contains(pin));
                    assert(live.drop_last().contains(pin));
                    let i = live.drop_last().index_of(pin);
                    assert(live[i] == pin);
                } else {
                    assert(live[live.len() - 1] == pin);
                }
            }
        }
    }
}

/// Everything one pinned image owns.
pub struct Pin {
    /// The capture at its original size. Zooming only ever reads it.
    pub shot: Shot,
    /// The zoom, in millionths.
    pub scale: u32,
    /// The size of the cached backing store, if there is one. It is rebuilt only
    /// when the window changes size.
    pub frame: Option<(i32, i32)>,
    /// The client size the frame was built for.
    pub frame_size: (i32, i32),
    /// Whether the frame holds the picture at the current zoom.
    pub image_drawn: bool,
    /// Where inside the window the drag started, in client coordinates.
    pub dragging: Option<(i32, i32)>,
    /// Is the pointer over the close button? Drives its colour.
    pub hover_close: bool,
    /// Is the window still there to be answered for?
    pub attached: bool,
}

/// Where and how large a pin's window is opened.
#[derive(Clone, Copy, Debug, PartialEq, Eq, Structural)]
pub struct Placement {
    pub x: i32,
    pub y: i32,
    pub width: i32,
    pub height: i32,
}

/// Pin `shot` to the desktop at `at`, or at the cursor when that is `None`.
pub fn pin(shot: Shot, at: Option<(i32, i32)>, cursor: (i32, i32)) -> (r: (Pin, Placement))
    requires
        shot.wf(),
        shot.width <= REACH,
        shot.height <= REACH,
    ensures
        r.0.wf(),
        r.0.shot == shot,
        r.0.scale == SCALE_ONE,
        r.0.frame is None,
        r.0.frame_size == (0i32, 0i32),
        !r.0.image_drawn,
        r.0.dragging is None,
        !r.0.hover_close,
        r.0.attached,
        r.1 == (Placement {
            x: match at {
                Some(point) => point.0,
                None => cursor.0,
            },
            y: match at {
                Some(point) => point.1,
                None => cursor.1,
            },
            width: greater(shot.width as int, 1) as i32,
            height: greater(shot.height as int, 1) as i32,
        }),
{
    let (x, y) = match at {
        Some(point) => point,
        None => cursor,
    };
    let placement = Placement {
        x,
        y,
        width: max_i32(shot.width, 1),
        height: max_i32(shot.height, 1),
    };
    (
        Pin {
            shot,
            scale: SCALE_ONE,
            frame: None,
            frame_size: (0, 0),
            image_drawn: false,
            dragging: None,
            hover_close: false,
            attached: true,
        },
        placement,
    )
}

/// `numerator / denominator` rounded to the nearest integer, halves away from zero.
pub open spec fn rounded_signed(numerator: int, denominator: int) -> int {
    if numerator < 0 {
        -rounded(-numerator, denominator)
    } else {
        rounded(numerator, denominator)
    }
}

fn round_signed(numerator: i64, denominator: i64) -> (r: i64)
    requires
        0 < denominator <= 0x1000_0000,
        -0x0400_0000_0000_0000 <= numerator <= 0x0400_0000_0000_0000,
    ensures
        r == rounded_signed(numerator as int, denominator as int),
        numerator >= 0 ==> r >= 0,
        -0x0400_0000_0000_0001 <= r <= 0x0400_0000_0000_0001,
{
    let n: i64 = if numerator < 0 {
        -numerator
    } else {
        numerator
    };
    let q: i64 = (2 * n + denominator) / (2 * denominator);
    assert(0 <= q <= n + 1) by (nonlinear_arith)
        requires
            q == (2 * n + denominator) / (2 * denominator),
            n >= 0,
            denominator > 0,
    ;
    if numerator < 0 {
        -q
    } else {
        q
    }
}

/// The zoom after multiplying by `factor`, held to the limits.
pub open spec fn zoomed(scale: int, factor: Factor) -> int {
    clamped_to(
        rounded(scale * factor.numerator, factor.denominator as int),
        MIN_SCALE as int,
        MAX_SCALE as int,
    )
}

/// The length of a side of `length` pixels at a zoom.
pub open spec fn zoomed_length(length: int, scale: int) -> int {
    greater(rounded(length * scale, SCALE_ONE as int), 1)
}

/// One step of drawing a pin.
#[derive(Clone, Copy, Debug, PartialEq, Eq, Structural)]
pub enum PinOp {
    /// The whole picture, scaled to fill the frame.
    Image { width: i32, height: i32 },
    Outline { area: Area, ink: u32 },
    Fill { area: Area, ink: u32 },
    Line { from_x: i32, from_y: i32, to_x: i32, to_y: i32, ink: u32 },
}

/// A window message, as far as a pin tells them apart.
#[derive(Clone, Copy, Debug, PartialEq, Eq)]
pub enum PinMessage {
    ButtonDown { x: i32, y: i32 },
    MouseMove { x: i32, y: i32 },
    ButtonUp,
    DoubleClick,
    RightButtonUp,
    /// The wheel turned: by what the zoom is multiplied, and where the pointer and
    /// the window are on the screen.
    Wheel { factor: Factor, cursor: (i32, i32), origin: (i32, i32) },
    KeyDown { key: u32, shift: bool, control: bool },
    SetCursor,
    Close,
    Destroy,
    Other,
}

/// The pointer shapes of a pin.
#[derive(Clone, Copy, Debug, PartialEq, Eq, Structural)]
pub enum PinCursor {
    Arrow,
    Hand,
    SizeAll,
}

/// What a pin's window does about a message.
#[derive(Clone, Copy, Debug, PartialEq, Eq)]
pub struct PinReaction {
    /// Take the keyboard focus.
    pub focus: bool,
    /// Take the mouse capture.
    pub capture: bool,
    /// Give the mouse capture back.
    pub release: bool,
    /// Draw the window again.
    pub invalidate: bool,
    /// Move the window by this much.
    pub move_by: Option<(i32, i32)>,
    /// Move and resize the window.
    pub place: Option<Placement>,
    /// Put the capture, as it was taken, on the clipboard.
    pub copy: bool,
    /// Show this pointer.
    pub cursor: Option<PinCursor>,
    /// Destroy the window.
    pub close: bool,
    /// Detach the pin from the window and leave the message loop.
    pub quit: bool,
    /// The answer to the message; `None` hands it to the default procedure.
    pub answer: Option<i32>,
}

/// A message's points are ones that a pin works with.
pub open spec fn pin_message_wf(message: PinMessage) -> bool {
    match message {
        PinMessage::ButtonDown { x, y } => reachable(x as int) && reachable(y as int),
        PinMessage::MouseMove { x, y } => reachable(x as int) && reachable(y as int),
        PinMessage::Wheel { factor, cursor, origin } => {
            &&& factor.wf()
            &&& reachable(cursor.0 as int) && reachable(cursor.1 as int)
            &&& reachable(origin.0 as int) && reachable(origin.1 as int)
        },
        _ => true,
    }
}

impl Pin {
    pub open spec fn wf(self) -> bool {
        &&& self.shot.wf()
        &&& self.shot.width <= REACH
        &&& self.shot.height <= REACH
        &&& MIN_SCALE <= self.scale <= MAX_SCALE
        &&& 0 <= self.frame_size.0 <= REACH
        &&& 0 <= self.frame_size.1 <= REACH
        &&& self.dragging matches Some(grab) ==> reachable(grab.0 as int) && reachable(
            grab.1 as int,
        )
    }

    pub open spec fn size(self) -> (int, int) {
        (
            zoomed_length(self.shot.width as int, self.scale as int),
            zoomed_length(self.shot.height as int, self.scale as int),
        )
    }

    /// The window size the current zoom calls for.
    pub fn wanted_size(&self) -> (r: (i32, i32))
        requires
            self.wf(),
        ensures
            (r.0 as int, r.1 as int) == self.size(),
            1 <= r.0 <= 0x0fff_ffff,
            1 <= r.1 <= 0x0fff_ffff,
    {
        (length_at(self.shot.width, self.scale), length_at(self.shot.height, self.scale))
    }

    /// The close button of a pin whose client area is `width` by `height`.
    pub open spec fn close_area(width: int, height: int) -> Area {
        let size = lesser(lesser(CLOSE_SIZE as int, width), height);
        let inset = lesser(
            lesser(CLOSE_INSET as int, greater(width - size, 0)),
            greater(height - size, 0),
        );
        Area {
            left: (width - size - inset) as i32,
            top: inset as i32,
            right: (width - inset) as i32,
            bottom: (inset + size) as i32,
        }
    }

    /// The close button, in client coordinates.
    ///
    /// It stays inside the picture: a pin a few pixels across would otherwise put
    /// its only control outside itself.
    pub fn close_button(&self) -> (r: Area)
        requires
            self.wf(),
        ensures
            r == Self::close_area(self.frame_size.0 as int, self.frame_size.1 as int),
            r.inside(self.frame_size.0 as int, self.frame_size.1 as int),
            self.frame_size.0 > 0 && self.frame_size.1 > 0 ==> !r.empty(),
    {
        let (width, height) = self.frame_size;
        let size: i32 = min_i32(min_i32(CLOSE_SIZE, width), height);
        let inset: i32 = min_i32(
            min_i32(CLOSE_INSET, max_i32(width - size, 0)),
            max_i32(height - size, 0),
        );
        Area {
            left: width - size - inset,
            top: inset,
            right: width - inset,
            bottom: inset + size,
        }
    }

    /// The size of the backing store that a client area calls for.
    pub open spec fn frame_for(client: (i32, i32)) -> (i32, i32) {
        (greater(client.0 as int, 1) as i32, greater(client.1 as int, 1) as i32)
    }

    /// Does the backing store have to be rebuilt for this client area?
    pub fn needs_frame(&self, client: (i32, i32)) -> (r: bool)
        ensures
            r == (self.frame != Some(Self::frame_for(client))),
    {
        let width: i32 = max_i32(client.0, 1);
        let height: i32 = max_i32(client.1, 1);
        match self.frame {
            None => true,
            Some(size) => size.0 != width || size.1 != height,
        }
    }

    /// Make sure the backing store matches the client area. `built` says whether a
    /// new one could be made, where one is needed.
    pub fn frame(&mut self, client: (i32, i32), built: bool) -> (r: Option<(i32, i32)>)
        requires
            old(self).wf(),
            client.0 <= REACH,
            client.1 <= REACH,
        ensures
            final(self).wf(),
            r == final(self).frame,
            *final(self) == (if old(self).frame == Some(Self::frame_for(client)) {
                Pin { frame_size: Self::frame_for(client), ..*old(self) }
            } else {
                Pin {
                    frame: if built {
                        Some(Self::frame_for(client))
                    } else {
                        None
                    },
                    frame_size: Self::frame_for(client),
                    // A fresh buffer holds nothing, so the picture has to go in again.
                    image_drawn: false,
                    ..*old(self)
                }
            }),
    {
        let width: i32 = max_i32(client.0, 1);
        let height: i32 = max_i32(client.1, 1);
        if self.needs_frame(client) {
            self.frame = if built {
                Some((width, height))
            } else {
                None
            };
            self.image_drawn = false;
        }
        self.frame_size = (width, height);
        self.frame
    }

    /// The strokes of the close button, over a wash that lets it read against
    /// whatever the image happens to be.
    pub open spec fn close_ops(button: Area, hover: bool) -> Seq<PinOp> {
        let wash = if hover {
            0x0030_3030u32
        } else {
            0x0018_1818u32
        };
        let ink = if hover {
            0x6080_80FFu32
        } else {
            0x00D0_D0D0u32
        };
        if button.empty() {
            Seq::empty()
        } else {
            seq![
                PinOp::Fill { area: button, ink: wash },
                PinOp::Line {
                    from_x: (button.left + 6) as i32,
                    from_y: (button.top + 6) as i32,
                    to_x: (button.right - 6) as i32,
                    to_y: (button.bottom - 6) as i32,
                    ink,
                },
                PinOp::Line {
                    from_x: (button.right - 6) as i32,
                    from_y: (button.top + 6) as i32,
                    to_x: (button.left + 6) as i32,
                    to_y: (button.bottom - 6) as i32,
                    ink,
                },
            ]
        }
    }

    /// The steps that draw a pin into its backing store of `width` by `height`.
    pub open spec fn paint_ops(self, width: i32, height: i32) -> Seq<PinOp> {
        let image = if self.image_drawn {
            Seq::empty()
        } else {
            seq![PinOp::Image { width, height }]
        };
        image + seq![
            PinOp::Outline {
                area: Area { left: 0, top: 0, right: width, bottom: height },
                ink: INK_BORDER,
            },
        ] + Self::close_ops(
            Self::close_area(self.frame_size.0 as int, self.frame_size.1 as int),
            self.hover_close,
        )
    }

    /// Draw the image and its border into the backing store. The picture itself is
    /// drawn once per zoom or resize rather than once per repaint: scaling it is
    /// the expensive part of a frame.
    pub fn paint(&mut self) -> (r: Vec<PinOp>)
        requires
            old(self).wf(),
        ensures
            final(self).wf(),
            match old(self).frame {
                None => r@ == Seq::<PinOp>::empty() && *final(self) == *old(self),
                Some(size) => {
                    &&& r@ == old(self).paint_ops(size.0, size.1)
                    &&& *final(self) == (Pin { image_drawn: true, ..*old(self) })
                },
            },
    {
        let mut ops: Vec<PinOp> = Vec::new();
        let (width, height) = match self.frame {
            None => return ops,
            Some(size) => size,
        };
        let ghost origin = *self;
        if !self.image_drawn {
            ops.push(PinOp::Image { width, height });
            self.image_drawn = true;
        }
        ops.push(
            PinOp::Outline {
                area: Area { left: 0, top: 0, right: width, bottom: height },
                ink: INK_BORDER,
            },
        );
        self.draw_close_button(&mut ops);
        assert(ops@ =~= origin.paint_ops(width, height));
        ops
    }

    /// The little cross in the corner.
    ///
    /// Drawn as two strokes rather than as a glyph so it needs no icon font and
    /// stays crisp: it is the one control a pinned image has.
    fn draw_close_button(&self, ops: &mut Vec<PinOp>)
        requires
            self.wf(),
        ensures
            final(ops)@ == old(ops)@ + Self::close_ops(
                Self::close_area(self.frame_size.0 as int, self.frame_size.1 as int),
                self.hover_close,
            ),
    {
        let button = self.close_button();
        if !button.is_empty() {
            let wash: u32 = if self.hover_close {
                0x0030_3030
            } else {
                0x0018_1818
            };
            let ink: u32 = if self.hover_close {
                0x6080_80FF
            } else {
                0x00D0_D0D0
            };
            ops.push(PinOp::Fill { area: button, ink: wash });
            ops.push(
                PinOp::Line {
                    from_x: button.left + 6,
                    from_y: button.top + 6,
                    to_x: button.right - 6,
                    to_y: button.bottom - 6,
                    ink,
                },
            );
            ops.push(
                PinOp::Line {
                    from_x: button.right - 6,
                    from_y: button.top + 6,
                    to_x: button.left + 6,
                    to_y: button.bottom - 6,
                    ink,
                },
            );
        }
        assert(ops@ =~= old(ops)@ + Self::close_ops(
            Self::close_area(self.frame_size.0 as int, self.frame_size.1 as int),
            self.hover_close,
        ));
    }

    /// The pin after a zoom.
    pub open spec fn after_zoom(self, factor: Factor) -> Pin {
        if zoomed(self.scale as int, factor) == self.scale {
            self
        } else {
            Pin { scale: zoomed(self.scale as int, factor) as u32, image_drawn: false, ..self }
        }
    }

    /// The focus of a zoom: the given point, or the middle of the window.
    pub open spec fn zoom_focus(self, focus: Option<(i32, i32)>) -> (int, int) {
        match focus {
            Some(point) => (point.0 as int, point.1 as int),
            None => (self.size().0 / 2, self.size().1 / 2),
        }
    }

    /// Where one edge of the window goes: the image pixel under the focus stays
    /// where it is on the screen.
    pub open spec fn zoom_edge(origin: int, focus: int, next: int, previous: int) -> int {
        clamped_to(
            origin + focus - rounded_signed(focus * next, previous),
            i32::MIN as int,
            i32::MAX as int,
        )
    }

    /// Where and how large the window is to be after a zoom; `None` when the zoom
    /// is already at its limit.
    pub open spec fn zoom_place(
        self,
        factor: Factor,
        focus: Option<(i32, i32)>,
        origin: (i32, i32),
    ) -> Option<Placement> {
        let next = zoomed(self.scale as int, factor);
        let at = self.zoom_focus(focus);
        if next == self.scale {
            None
        } else {
            Some(
                Placement {
                    x: Self::zoom_edge(origin.0 as int, at.0, next, self.scale as int) as i32,
                    y: Self::zoom_edge(origin.1 as int, at.1, next, self.scale as int) as i32,
                    width: zoomed_length(self.shot.width as int, next) as i32,
                    height: zoomed_length(self.shot.height as int, next) as i32,
                },
            )
        }
    }

    /// Rescale about a point in client coordinates; `origin` is where the window is
    /// on the screen. Nothing happens when the zoom is already at its limit.
    ///
    /// The image pixel under that point stays under it, which is what makes
    /// wheel-zoom feel like magnifying the thing under the pointer rather than
    /// dragging the window around.
    pub fn zoom(&mut self, factor: Factor, focus: Option<(i32, i32)>, origin: (i32, i32)) -> (r:
        Option<Placement>)
        requires
            old(self).wf(),
            factor.wf(),
            reachable(origin.0 as int),
            reachable(origin.1 as int),
            focus matches Some(point) ==> -2 * REACH <= point.0 <= 2 * REACH && -2 * REACH
                <= point.1 <= 2 * REACH,
        ensures
            final(self).wf(),
            *final(self) == old(self).after_zoom(factor),
            r == old(self).zoom_place(factor, focus, origin),
    {
        let previous: u32 = self.scale;
        let next: u32 = zoom_scale(previous, factor);
        if next == previous {
            return None;
        }
        let (old_width, old_height) = self.wanted_size();
        let (focus_x, focus_y) = match focus {
            Some(point) => point,
            None => (old_width / 2, old_height / 2),
        };
        self.scale = next;
        // The window is about to be a different size; the picture in the frame is
        // at the old zoom until it is drawn again.
        self.image_drawn = false;
        let (width, height) = self.wanted_size();
        let x: i32 = keep_focus(origin.0, focus_x, next, previous);
        let y: i32 = keep_focus(origin.1, focus_y, next, previous);
        Some(Placement { x, y, width, height })
    }

    /// The pin after a message.
    pub open spec fn after(self, message: PinMessage) -> Pin {
        if !self.attached {
            self
        } else {
            let button = Self::close_area(self.frame_size.0 as int, self.frame_size.1 as int);
            match message {
                PinMessage::ButtonDown { x, y } => if button.covers(x as int, y as int) {
                    self
                } else {
                    Pin { dragging: Some((x, y)), ..self }
                },
                PinMessage::MouseMove { x, y } => Pin {
                    hover_close: button.covers(x as int, y as int),
                    ..self
                },
                PinMessage::ButtonUp => Pin { dragging: None, ..self },
                PinMessage::Wheel { factor, .. } => self.after_zoom(factor),
                PinMessage::Destroy => Pin { attached: false, ..self },
                _ => self,
            }
        }
    }

    /// How far a key moves a pin.
    pub open spec fn key_move(key: u32, shift: bool) -> Option<(i32, i32)> {
        let step = if shift {
            10i32
        } else {
            1i32
        };
        if key == KEY_LEFT {
            Some(((-step) as i32, 0i32))
        } else if key == KEY_RIGHT {
            Some((step, 0i32))
        } else if key == KEY_UP {
            Some((0i32, (-step) as i32))
        } else if key == KEY_DOWN {
            Some((0i32, step))
        } else {
            None
        }
    }

    /// Handle one window message.
    pub fn window_proc(&mut self, message: PinMessage) -> (r: PinReaction)
        requires
            old(self).wf(),
            pin_message_wf(message),
        ensures
            final(self).wf(),
            *final(self) == old(self).after(message),
            r.focus == (message is ButtonDown),
            r.release == (message is ButtonUp),
            r.close == (old(self).attached && (match message {
                PinMessage::ButtonDown { x, y } => Self::close_area(
                    old(self).frame_size.0 as int,
                    old(self).frame_size.1 as int,
                ).covers(x as int, y as int),
                PinMessage::DoubleClick => true,
                PinMessage::RightButtonUp => true,
                PinMessage::KeyDown { key, .. } => key == KEY_ESCAPE || key == KEY_DELETE,
                PinMessage::Close => true,
                _ => false,
            })),
            r.capture == (message is ButtonDown && !r.close),
            r.invalidate == (message is MouseMove && final(self).hover_close != old(
                self,
            ).hover_close),
            r.move_by == (if !old(self).attached {
                None
            } else {
                match message {
                    PinMessage::MouseMove { x, y } => match old(self).dragging {
                        Some(grab) => if x == grab.0 && y == grab.1 {
                            None
                        } else {
                            Some(((x - grab.0) as i32, (y - grab.1) as i32))
                        },
                        None => None,
                    },
                    PinMessage::KeyDown { key, shift, .. } => Self::key_move(key, shift),
                    _ => None,
                }
            }),
            r.place == (match message {
                PinMessage::Wheel { factor, cursor, origin } if old(self).attached => old(
                    self,
                ).zoom_place(
                    factor,
                    Some(((cursor.0 - origin.0) as i32, (cursor.1 - origin.1) as i32)),
                    origin,
                ),
                _ => None,
            }),
            r.copy == (old(self).attached && (match message {
                PinMessage::KeyDown { key, control, .. } => key == KEY_C && control,
                _ => false,
            })),
            r.cursor == (if message is SetCursor {
                Some(
                    if old(self).attached && old(self).hover_close {
                        PinCursor::Hand
                    } else if old(self).attached && old(self).dragging is Some {
                        PinCursor::SizeAll
                    } else {
                        PinCursor::Arrow
                    },
                )
            } else {
                None
            }),
            r.quit == (message is Destroy),
            r.answer == (match message {
                PinMessage::Other => None,
                PinMessage::SetCursor => Some(1i32),
                _ => Some(0i32),
            }),
    {
        let mut reaction = PinReaction {
            focus: false,
            capture: false,
            release: false,
            invalidate: false,
            move_by: None,
            place: None,
            copy: false,
            cursor: None,
            close: false,
            quit: false,
            answer: Some(0),
        };
        match message {
            PinMessage::ButtonDown { x, y } => {
                // Take the focus so Escape and the arrow keys reach the pin.
                reaction.focus = true;
                if self.attached {
                    if self.close_button().contains(x, y) {
                        reaction.close = true;
                    } else {
                        self.dragging = Some((x, y));
                    }
                }
                reaction.capture = !reaction.close;
            },
            PinMessage::MouseMove { x, y } => {
                if self.attached {
                    // Light the close button up as the pointer reaches it, which is
                    // the only thing that makes a cross in a corner discoverable.
                    let over_close = self.close_button().contains(x, y);
                    if over_close != self.hover_close {
                        self.hover_close = over_close;
                        reaction.invalidate = true;
                    }
                    match self.dragging {
                        None => {},
                        Some(grab) => {
                            // Move by the delta rather than to the cursor, so the
                            // image cannot jump under the pointer.
                            let dx: i32 = x - grab.0;
                            let dy: i32 = y - grab.1;
                            if dx != 0 || dy != 0 {
                                reaction.move_by = Some((dx, dy));
                            }
                        },
                    }
                }
            },
            PinMessage::ButtonUp => {
                reaction.release = true;
                if self.attached {
                    self.dragging = None;
                }
            },
            PinMessage::DoubleClick => {
                reaction.close = self.attached;
            },
            PinMessage::RightButtonUp => {
                reaction.close = self.attached;
            },
            PinMessage::Wheel { factor, cursor, origin } => {
                if self.attached {
                    let focus: (i32, i32) = (cursor.0 - origin.0, cursor.1 - origin.1);
                    reaction.place = self.zoom(factor, Some(focus), origin);
                }
            },
            PinMessage::KeyDown { key, shift, control } => {
                if self.attached {
                    let step: i32 = if shift {
                        10
                    } else {
                        1
                    };
                    if key == KEY_ESCAPE || key == KEY_DELETE {
                        reaction.close = true;
                    } else if key == KEY_LEFT {
                        reaction.move_by = Some((-step, 0));
                    } else if key == KEY_RIGHT {
                        reaction.move_by = Some((step, 0));
                    } else if key == KEY_UP {
                        reaction.move_by = Some((0, -step));
                    } else if key == KEY_DOWN {
                        reaction.move_by = Some((0, step));
                    } else if key == KEY_C && control {
                        // Copies the original capture, not the zoomed view.
                        reaction.copy = true;
                    }
                }
            },
            PinMessage::SetCursor => {
                reaction.answer = Some(1);
                reaction.cursor = Some(
                    if self.attached && self.hover_close {
                        PinCursor::Hand
                    } else if self.attached && self.dragging.is_some() {
                        PinCursor::SizeAll
                    } else {
                        PinCursor::Arrow
                    },
                );
            },
            PinMessage::Close => {
                reaction.close = self.attached;
            },
            PinMessage::Destroy => {
                if self.attached {
                    self.attached = false;
                }
                reaction.quit = true;
            },
            PinMessage::Other => {
                reaction.answer = None;
            },
        }
        reaction
    }

    /// The image pixel under the focus stays under it: where it was `focus` into the window
    /// at the old zoom, it is within half a pixel of as far into the moved window at the new
    /// one. Only an edge beyond the last coordinate is held back.
    pub proof fn the_pixel_under_the_focus_stays(
        origin: int,
        focus: int,
        next: int,
        previous: int,
    )
        requires
            previous > 0,
            i32::MIN <= origin + focus - rounded_signed(focus * next, previous) <= i32::MAX,
        ensures
            ({
                let into = origin + focus - Self::zoom_edge(origin, focus, next, previous);
                -previous <= 2 * (into * previous - focus * next) <= previous
            }),
    {
        let n = focus * next;
        let d = previous;
        let into = rounded_signed(n, d);
        assert(origin + focus - Self::zoom_edge(origin, focus, next, previous) == into);
        let size = if n < 0 { -n } else { n };
        let r = (2 * size + d) / (2 * d);
        assert(r * (2 * d) <= 2 * size + d < r * (2 * d) + 2 * d) by (nonlinear_arith)
            requires
                r == (2 * size + d) / (2 * d),
                d > 0,
        ;
        assert(r * (2 * d) == 2 * (r * d)) by (nonlinear_arith);
        assert((-r) * d == -(r * d)) by (nonlinear_arith);
    }

    /// However a pin is moved, zoomed or drawn, the capture it shows stays exactly
    /// as it was taken.
    pub proof fn the_capture_is_never_touched(self, message: PinMessage)
        ensures
            self.after(message).shot == self.shot,
    {
    }
}

/// One side of a pin's window at a zoom: [`zoomed_length`].
fn length_at(length: i32, scale: u32) -> (r: i32)
    requires
        0 <= length <= REACH,
        scale <= MAX_SCALE,
    ensures
        r == zoomed_length(length as int, scale as int),
        1 <= r <= 0x0fff_ffff,
{
    let l: u64 = length as u64;
    let s: u64 = scale as u64;
    assert(l * s <= 0x00ff_ffff * 8_000_000) by (nonlinear_arith)
        requires
            l <= 0x00ff_ffff,
            s <= 8_000_000,
    ;
    let r: u64 = (2 * (l * s) + SCALE_ONE as u64) / (2 * SCALE_ONE as u64);
    assert(length * scale == l * s);
    assert(r == rounded(length * scale, SCALE_ONE as int));
    let p: u64 = l * s;
    assert(r <= 0x0fff_ffff) by (nonlinear_arith)
        requires
            r == (2 * p + 1_000_000) / 2_000_000,
            p <= 0x00ff_ffff * 8_000_000,
    ;
    if r < 1 {
        1
    } else {
        r as i32
    }
}

/// The zoom after multiplying by `factor`: [`zoomed`].
fn zoom_scale(scale: u32, factor: Factor) -> (r: u32)
    requires
        MIN_SCALE <= scale <= MAX_SCALE,
        factor.wf(),
    ensures
        r == zoomed(scale as int, factor),
        MIN_SCALE <= r <= MAX_SCALE,
{
    let s: u64 = scale as u64;
    let n: u64 = factor.numerator as u64;
    let d: u64 = factor.denominator as u64;
    assert(s * n <= 8_000_000 * 0xffff_ffff) by (nonlinear_arith)
        requires
            s <= 8_000_000,
            n <= 0xffff_ffff,
    ;
    let next: u64 = (2 * (s * n) + d) / (2 * d);
    assert(scale * factor.numerator == s * n);
    if next < MIN_SCALE as u64 {
        MIN_SCALE
    } else if next > MAX_SCALE as u64 {
        MAX_SCALE
    } else {
        next as u32
    }
}

/// Where one edge of a window goes so that the point under the focus stays put,
/// held to what a coordinate can be.
fn keep_focus(origin: i32, focus: i32, next: u32, previous: u32) -> (r: i32)
    requires
        reachable(origin as int),
        -0x0fff_ffff <= focus <= 0x0fff_ffff,
        MIN_SCALE <= next <= MAX_SCALE,
        MIN_SCALE <= previous <= MAX_SCALE,
    ensures
        r == Pin::zoom_edge(origin as int, focus as int, next as int, previous as int),
{
    let f: i64 = focus as i64;
    let n: i64 = next as i64;
    assert(-0x0fff_ffff * 8_000_000 <= f * n <= 0x0fff_ffff * 8_000_000) by (nonlinear_arith)
        requires
            -0x0fff_ffff <= f <= 0x0fff_ffff,
            0 <= n <= 8_000_000,
    ;
    assert(focus * next == f * n);
    let moved: i64 = round_signed(f * n, previous as i64);
    let edge: i64 = origin as i64 + f - moved;
    crate::snip::area::clamp_to_i32(edge, i32::MIN, i32::MAX)
}

/// A zoom multiplies. Where the product of the zoom and the factor lies between a tenth and
/// eight times the original pixels, the new zoom is that product to the nearest millionth,
/// halves upwards, for a factor below one as well as above; beyond them it is the limit that
/// was met.
#[verifier::spinoff_prover]
pub proof fn a_zoom_multiplies(scale: int, factor: Factor)
    requires
        factor.wf(),
        scale >= 0,
    ensures
        ({
            let (n, d) = (factor.numerator as int, factor.denominator as int);
            let next = zoomed(scale, factor);
            &&& 100_000 * d <= scale * n <= 8_000_000 * d ==> -d < 2 * (next * d - scale * n) <= d
            &&& scale * n < 100_000 * d ==> next == 100_000
            &&& scale * n > 8_000_000 * d ==> next == 8_000_000
            &&& 100_000 <= next <= 8_000_000
        }),
{
    let (n, d) = (factor.numerator as int, factor.denominator as int);
    let p = scale * n;
    let q = rounded(p, d);
    rounding_is_to_the_nearest(p, d);
    assert(p <= 8_000_000 * d ==> q <= 8_000_000) by (nonlinear_arith)
        requires
            -d < 2 * (q * d - p) <= d,
            d > 0,
    ;
    assert(p >= 100_000 * d ==> q >= 100_000) by (nonlinear_arith)
        requires
            -d < 2 * (q * d - p) <= d,
            d > 0,
    ;
    assert(p < 100_000 * d ==> q <= 100_000) by (nonlinear_arith)
        requires
            -d < 2 * (q * d - p) <= d,
            d > 0,
    ;
    assert(p > 8_000_000 * d ==> q >= 8_000_000) by (nonlinear_arith)
        requires
            -d < 2 * (q * d - p) <= d,
            d > 0,
    ;
}

/// Zooming back undoes a zoom, within rounding: by `n / d` and then by `d / n`, with no limit
/// met, the zoom is at most `(n + d) / 2n` millionths from where it was.
pub proof fn zooming_back_undoes_a_zoom(scale: int, factor: Factor, back: Factor)
    requires
        factor.wf(),
        back.wf(),
        back.numerator == factor.denominator,
        back.denominator == factor.numerator,
        scale >= 0,
        100_000 * factor.denominator <= scale * factor.numerator <= 8_000_000
            * factor.denominator,
        100_000 * back.denominator <= zoomed(scale, factor) * back.numerator <= 8_000_000
            * back.denominator,
    ensures
        ({
            let (n, d) = (factor.numerator as int, factor.denominator as int);
            let again = zoomed(zoomed(scale, factor), back);
            -(n + d) <= 2 * n * (again - scale) <= n + d
        }),
{
    let (n, d) = (factor.numerator as int, factor.denominator as int);
    let next = zoomed(scale, factor);
    a_zoom_multiplies(scale, factor);
    a_zoom_multiplies(next, back);
    let again = zoomed(next, back);
    assert(2 * n * (again - scale) == 2 * (again * n - next * d) + 2 * (next * d - scale * n))
        by (nonlinear_arith);
}

/// A larger factor never zooms to less, and a factor of one changes nothing.
#[verifier::spinoff_prover]
pub proof fn zooming_is_monotone(scale: int, factor: Factor, more: Factor)
    requires
        factor.wf(),
        more.wf(),
        100_000 <= scale <= 8_000_000,
        factor.numerator * more.denominator <= more.numerator * factor.denominator,
    ensures
        zoomed(scale, factor) <= zoomed(scale, more),
        factor.numerator == factor.denominator ==> zoomed(scale, factor) == scale,
        factor.numerator <= factor.denominator ==> zoomed(scale, factor) <= scale,
        factor.numerator >= factor.denominator ==> zoomed(scale, factor) >= scale,
{
    let (n, d) = (factor.numerator as int, factor.denominator as int);
    let (m, e) = (more.numerator as int, more.denominator as int);
    let (p, q) = (rounded(scale * n, d), rounded(scale * m, e));
    rounding_is_to_the_nearest(scale * n, d);
    rounding_is_to_the_nearest(scale * m, e);
    assert(scale * n * e <= scale * m * d) by (nonlinear_arith)
        requires
            n * e <= m * d,
            scale >= 0,
    ;
    let (a, b) = (scale * n, scale * m);
    assert(p <= q) by (nonlinear_arith)
        requires
            -d < 2 * (p * d - a) <= d,
            -e < 2 * (q * e - b) <= e,
            a * e <= b * d,
            d > 0,
            e > 0,
    ;
    assert(n <= d ==> p <= scale) by (nonlinear_arith)
        requires
            -d < 2 * (p * d - scale * n) <= d,
            d > 0,
            scale >= 0,
    ;
    assert(n >= d ==> p >= scale) by (nonlinear_arith)
        requires
            -d < 2 * (p * d - scale * n) <= d,
            d > 0,
            scale >= 0,
    ;
}

/// A side of a pin's window is its length in the picture times the zoom, to the nearest pixel
/// and never below one: at a zoom of one it is the length itself, and at a larger zoom it is
/// never shorter.
pub proof fn a_side_grows_with_the_zoom(length: int, scale: int, more: int)
    requires
        length >= 0,
        0 <= scale <= more,
    ensures
        zoomed_length(length, scale) >= 1,
        zoomed_length(length, scale) > 1 || 2 * length * scale >= 1_000_000 ==> -1_000_000 < 2 * (
        zoomed_length(length, scale) * 1_000_000 - length * scale) <= 1_000_000,
        2 * length * scale < 1_000_000 ==> zoomed_length(length, scale) == 1,
        length >= 1 ==> zoomed_length(length, 1_000_000) == length,
        zoomed_length(length, scale) <= zoomed_length(length, more),
{
    let (a, b) = (length * scale, length * more);
    rounding_is_to_the_nearest(a, 1_000_000);
    rounding_is_to_the_nearest(b, 1_000_000);
    rounding_is_to_the_nearest(length * 1_000_000, 1_000_000);
    assert(0 <= a <= b) by (nonlinear_arith)
        requires
            a == length * scale,
            b == length * more,
            length >= 0,
            0 <= scale <= more,
    ;
    assert(2 * length * scale == 2 * a) by (nonlinear_arith)
        requires
            a == length * scale,
    ;
}

/// Turning the wheel changes the zoom of the pin as a zoom does, asks for the window that the
/// new zoom calls for, and has the picture drawn again. At a limit nothing happens at all.
pub proof fn a_zoomed_pin_gets_the_window_it_needs(
    pin: Pin,
    factor: Factor,
    focus: Option<(i32, i32)>,
    origin: (i32, i32),
)
    requires
        pin.wf(),
        factor.wf(),
    ensures
        ({
            let after = pin.after_zoom(factor);
            &&& after.scale == zoomed(pin.scale as int, factor)
            &&& after.scale == pin.scale ==> after == pin && pin.zoom_place(
                factor,
                focus,
                origin,
            ) is None
            &&& after.scale != pin.scale ==> {
                &&& !after.image_drawn
                &&& after.shot == pin.shot
                &&& after.dragging == pin.dragging
                &&& after.hover_close == pin.hover_close
                &&& after.attached == pin.attached
                &&& after.frame == pin.frame && after.frame_size == pin.frame_size
                &&& pin.zoom_place(factor, focus, origin) matches Some(place) && (
                place.width as int,
                place.height as int,
                ) == after.size()
            }
        }),
{
    a_zoom_multiplies(pin.scale as int, factor);
    let next = zoomed(pin.scale as int, factor);
    lemma_side_fits(pin.shot.width as int, next);
    lemma_side_fits(pin.shot.height as int, next);
}

proof fn lemma_side_fits(length: int, scale: int)
    requires
        0 <= length <= REACH,
        0 <= scale <= 8_000_000,
    ensures
        1 <= zoomed_length(length, scale) <= 0x0fff_ffff,
{
    a_side_grows_with_the_zoom(length, scale, scale);
    assert(0 <= length * scale <= 0x00ff_ffff * 8_000_000) by (nonlinear_arith)
        requires
            0 <= length <= 0x00ff_ffff,
            0 <= scale <= 8_000_000,
    ;
}

/// Zooming from the keyboard is about the middle of the window; the wheel zooms about the
/// pointer. Either way the picture under that point does not move: on each axis the point is
/// as far into the new window as it was into the old one, times the change of the zoom.
#[verifier::spinoff_prover]
pub proof fn the_focus_of_a_zoom_stays(
    pin: Pin,
    factor: Factor,
    focus: Option<(i32, i32)>,
    origin: (i32, i32),
)
    requires
        pin.wf(),
        factor.wf(),
        reachable(origin.0 as int),
        reachable(origin.1 as int),
        focus matches Some(point) ==> -2 * REACH <= point.0 <= 2 * REACH && -2 * REACH <= point.1
            <= 2 * REACH,
        pin.after_zoom(factor).scale != pin.scale,
    ensures
        ({
            let at = match focus {
                Some(point) => (point.0 as int, point.1 as int),
                None => (pin.size().0 / 2, pin.size().1 / 2),
            };
            let place = pin.zoom_place(factor, focus, origin)->0;
            let (was, now) = (pin.scale as int, pin.after_zoom(factor).scale as int);
            let into = (origin.0 + at.0 - place.x, origin.1 + at.1 - place.y);
            &&& pin.zoom_place(factor, focus, origin) is Some
            &&& i32::MIN < place.x < i32::MAX ==> -was <= 2 * (into.0 * was - at.0 * now) <= was
            &&& i32::MIN < place.y < i32::MAX ==> -was <= 2 * (into.1 * was - at.1 * now) <= was
        }),
{
    a_zoom_multiplies(pin.scale as int, factor);
    let next = zoomed(pin.scale as int, factor);
    let at = pin.zoom_focus(focus);
    let was = pin.scale as int;
    let (ex, ey) = (
        origin.0 + at.0 - rounded_signed(at.0 * next, was),
        origin.1 + at.1 - rounded_signed(at.1 * next, was),
    );
    if i32::MIN <= ex <= i32::MAX {
        Pin::the_pixel_under_the_focus_stays(origin.0 as int, at.0, next, was);
    }
    if i32::MIN <= ey <= i32::MAX {
        Pin::the_pixel_under_the_focus_stays(origin.1 as int, at.1, next, was);
    }
}

/// Each message changes its own part of a pin, and nothing else does: the wheel the zoom, the
/// button the drag, the pointer the highlight of the close button, the end of the window its
/// attachment. A pin whose window is gone does not change.
pub proof fn each_message_changes_its_own_part(pin: Pin, message: PinMessage)
    requires
        pin.wf(),
    ensures
        ({
            let after = pin.after(message);
            &&& !pin.attached ==> after == pin
            &&& !(message is Wheel) ==> after.scale == pin.scale && after.image_drawn
                == pin.image_drawn
            &&& !(message is ButtonDown) && !(message is ButtonUp) ==> after.dragging
                == pin.dragging
            &&& !(message is MouseMove) ==> after.hover_close == pin.hover_close
            &&& !(message is Destroy) ==> after.attached == pin.attached
            &&& after.frame == pin.frame && after.frame_size == pin.frame_size
            &&& message is ButtonUp && pin.attached ==> after.dragging is None
            &&& message is Destroy ==> !after.attached
            &&& pin.attached ==> (message matches PinMessage::Wheel { factor, cursor, origin }
                ==> after.scale == zoomed(pin.scale as int, factor))
        }),
{
    if message is Wheel {
        let factor = message->factor;
        assert(100_000 <= zoomed(pin.scale as int, factor) <= 8_000_000);
    }
}

/// The close button is in the top right corner: twenty-two pixels on a side, four from either
/// edge. On a pin that is too small for that it takes what there is.
pub proof fn the_close_button_is_in_the_corner(width: int, height: int)
    requires
        0 <= width <= REACH,
        0 <= height <= REACH,
    ensures
        ({
            let button = Pin::close_area(width, height);
            &&& width >= 26 && height >= 26 ==> button == (Area {
                left: (width - 26) as i32,
                top: 4,
                right: (width - 4) as i32,
                bottom: 26,
            })
            &&& 0 <= button.left <= button.right <= width
            &&& 0 <= button.top <= button.bottom <= height
            &&& button.right - button.left == button.bottom - button.top
            &&& width - button.right == button.top
            &&& width > 0 && height > 0 ==> button.left < button.right
        }),
{
}

/// A press on the close button closes and starts no drag; a press anywhere else starts a drag
/// from there and closes nothing. The close button lights up exactly while the pointer is
/// on it.
pub proof fn a_press_drags_or_closes(pin: Pin, x: i32, y: i32)
    requires
        pin.wf(),
        pin.attached,
        pin.frame_size.0 >= 26,
        pin.frame_size.1 >= 26,
    ensures
        ({
            let on_close = pin.frame_size.0 - 26 <= x < pin.frame_size.0 - 4 && 4 <= y < 26;
            let pressed = pin.after(PinMessage::ButtonDown { x, y });
            &&& pressed.dragging == (if on_close {
                pin.dragging
            } else {
                Some((x, y))
            })
            &&& pin.after(PinMessage::MouseMove { x, y }).hover_close == on_close
        }),
{
    the_close_button_is_in_the_corner(pin.frame_size.0 as int, pin.frame_size.1 as int);
}

/// The arrow keys nudge a pin by one pixel their own way, and by ten with shift held. No
/// other key moves it.
pub proof fn an_arrow_key_nudges_its_way(key: u32, shift: bool)
    ensures
        ({
            let step = if shift {
                10int
            } else {
                1
            };
            match Pin::key_move(key, shift) {
                Some(by) => (key == 0x25 && by.0 == -step && by.1 == 0) || (key == 0x26 && by.0 == 0
                    && by.1 == -step) || (key == 0x27 && by.0 == step && by.1 == 0) || (key == 0x28
                    && by.0 == 0 && by.1 == step),
                None => !(0x25 <= key <= 0x28),
            }
        }),
{
}

/// A repaint draws the border round the whole store, and the close button where a press finds
/// it. The picture goes in first, filling the store, and only when it is not there already.
#[verifier::spinoff_prover]
pub proof fn a_repaint_draws_the_whole_pin(pin: Pin, width: i32, height: i32)
    requires
        pin.wf(),
    ensures
        ({
            let ops = pin.paint_ops(width, height);
            let first = if pin.image_drawn {
                0int
            } else {
                1
            };
            let button = Pin::close_area(pin.frame_size.0 as int, pin.frame_size.1 as int);
            &&& !pin.image_drawn ==> ops[0] == (PinOp::Image { width, height })
            &&& forall|i: int| first <= i < ops.len() ==> !(#[trigger] ops[i] is Image)
            &&& ops[first] matches PinOp::Outline { area, ink } && area == (Area {
                left: 0,
                top: 0,
                right: width,
                bottom: height,
            })
            &&& button.left < button.right && button.top < button.bottom ==> ops.len() == first + 4
                && (ops[first + 1] matches PinOp::Fill { area, ink } && area == button)
                && ops[first + 2] is Line && ops[first + 3] is Line
                && ops[first + 2]->Line_ink == ops[first + 3]->Line_ink
            &&& !(button.left < button.right && button.top < button.bottom) ==> ops.len() == first
                + 1
        }),
{
    the_close_button_is_in_the_corner(pin.frame_size.0 as int, pin.frame_size.1 as int);
}

/// A list without a window keeps every pin in its place when the window was not in it, and a
/// pin that is opened later stays behind the others.
pub proof fn the_other_pins_keep_their_order(live: Seq<Live>, hwnd: isize, pin: Live)
    ensures
        (forall|i: int| 0 <= i < live.len() ==> (#[trigger] live[i]).hwnd != hwnd)
            ==> without_window(live, hwnd) == live,
        pin.hwnd != hwnd ==> without_window(live.push(pin), hwnd) == without_window(
            live,
            hwnd,
        ).push(pin),
        pin.hwnd == hwnd ==> without_window(live.push(pin), hwnd) == without_window(live, hwnd),
        without_window(live, hwnd).len() <= live.len(),
    decreases live.len(),
{
    assert(live.push(pin).drop_last() =~= live);
    if live.len() > 0 {
        let before = live.drop_last();
        the_other_pins_keep_their_order(before, hwnd, pin);
        if forall|i: int| 0 <= i < live.len() ==> (#[trigger] live[i]).hwnd != hwnd {
            assert forall|i: int| 0 <= i < before.len() implies (#[trigger] before[i]).hwnd
                != hwnd by {
                assert(before[i] == live[i]);
            }
            assert(live[live.len() - 1].hwnd != hwnd);
            assert(before.push(live.last()) =~= live);
        }
    } else {
        assert(without_window(live, hwnd) =~= live);
    }
}

/// A picture is shown when one of the pins has its fingerprint, and only then.
pub proof fn a_pin_is_told_by_its_picture(live: Seq<Live>, fingerprint: u64)
    ensures
        shows(live, fingerprint) <==> live.map_values(|pin: Live| pin.fingerprint).contains(
            fingerprint,
        ),
{
    let prints = live.map_values(|pin: Live| pin.fingerprint);
    if shows(live, fingerprint) {
        let i = choose|i: int|
            0 <= i < live.len() && (#[trigger] live[i]).fingerprint == fingerprint;
        assert(prints[i] == fingerprint);
    }
    if prints.contains(fingerprint) {
        let i = prints.index_of(fingerprint);
        assert(live[i].fingerprint == fingerprint);
    }
}

/// A backing store is as large as the client area, and at least one pixel each way.
pub proof fn a_store_fits_its_window(client: (i32, i32))
    ensures
        Pin::frame_for(client).0 >= 1 && Pin::frame_for(client).1 >= 1,
        client.0 >= 1 ==> Pin::frame_for(client).0 == client.0,
        client.1 >= 1 ==> Pin::frame_for(client).1 == client.1,
{
}

/// The two strokes of the close button cross between its corners, six pixels in from each.
pub proof fn the_close_button_is_a_cross(button: Area, hover: bool)
    requires
        button.left < button.right,
        button.top < button.bottom,
        0 <= button.left,
        0 <= button.top,
        button.right <= REACH,
        button.bottom <= REACH,
    ensures
        ({
            let ops = Pin::close_ops(button, hover);
            &&& ops.len() == 3
            &&& ops[1] matches PinOp::Line { from_x, from_y, to_x, to_y, ink } && from_x == button.left
                + 6 && from_y == button.top + 6 && to_x == button.right - 6 && to_y == button.bottom
                - 6
            &&& ops[2] matches PinOp::Line { from_x, from_y, to_x, to_y, ink } && from_x
                == button.right - 6 && from_y == button.top + 6 && to_x == button.left + 6 && to_y
                == button.bottom - 6
            &&& Pin::close_ops(button, true)[0] != Pin::close_ops(button, false)[0]
        }),
{
}

/// A notch of the wheel is a tenth more, a zoom of one is a million, and the keys are those of
/// the system.
pub proof fn the_notch_is_a_tenth()
    ensures
        10 * ZOOM_STEP == 11 * SCALE_ONE,
        SCALE_ONE == 1_000_000,
        MIN_SCALE * 10 == SCALE_ONE,
        MAX_SCALE == 8 * SCALE_ONE,
        KEY_ESCAPE == 27,
        KEY_DELETE == 46,
        KEY_LEFT == 37,
        KEY_UP == 38,
        KEY_RIGHT == 39,
        KEY_DOWN == 40,
        KEY_C == 67,
{
}

} // verus!
