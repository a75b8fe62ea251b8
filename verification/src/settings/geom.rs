//! Rectangles of the settings window.
//!
//! A layout that is scaled by the DPI has fractions of pixels, and rounding at every step
//! would accumulate into visibly misaligned text. So lengths are held in fine ticks: a
//! pixel has so many of them that a design length in thousandths of a unit scales to any
//! DPI without rounding.

use vstd::prelude::*;

verus! {

/// How many ticks a pixel has: the design DPI times a thousand.
pub const PIXEL: i64 = 96_000;

/// How far from the origin a coordinate may be, in ticks.
pub const REACH: i64 = 0x1000_0000_0000_0000;

/// Is a length or a coordinate within reach?
pub open spec fn near(v: int) -> bool {
    -REACH <= v <= REACH
}

/// A rectangle, in ticks.
#[derive(Clone, Copy, Debug, PartialEq, Eq, Structural)]
pub struct Rect {
    pub left: i64,
    pub top: i64,
    pub right: i64,
    pub bottom: i64,
}

/// The rectangle with these edges.
pub open spec fn rect(left: int, top: int, right: int, bottom: int) -> Rect {
    Rect { left: left as i64, top: top as i64, right: right as i64, bottom: bottom as i64 }
}

pub open spec fn larger(a: int, b: int) -> int {
    if a >= b {
        a
    } else {
        b
    }
}

pub open spec fn smaller(a: int, b: int) -> int {
    if a <= b {
        a
    } else {
        b
    }
}

/// The larger of two.
pub fn max(a: i64, b: i64) -> (r: i64)
    ensures
        r == larger(a as int, b as int),
{
    if a >= b {
        a
    } else {
        b
    }
}

/// The smaller of two.
pub fn min(a: i64, b: i64) -> (r: i64)
    ensures
        r == smaller(a as int, b as int),
{
    if a <= b {
        a
    } else {
        b
    }
}

impl Rect {
    /// Is every edge within reach?
    pub open spec fn wf(self) -> bool {
        near(self.left as int) && near(self.top as int) && near(self.right as int) && near(
            self.bottom as int,
        )
    }

    pub open spec fn wide(self) -> int {
        self.right - self.left
    }

    pub open spec fn tall(self) -> int {
        self.bottom - self.top
    }

    pub open spec fn void(self) -> bool {
        self.wide() <= 0 || self.tall() <= 0
    }

    /// Is a point inside? Half-open on the right and bottom edges, so that two adjacent
    /// rectangles never both claim the line between them.
    pub open spec fn holds(self, x: int, y: int) -> bool {
        &&& !self.void()
        &&& self.left <= x < self.right
        &&& self.top <= y < self.bottom
    }

    /// The middle between top and bottom, in whole ticks.
    pub open spec fn middle(self) -> int {
        (self.top + self.bottom) / 2
    }

    /// Shrunk on every side, but never inside out.
    pub open spec fn shrunk(self, dx: int, dy: int) -> Rect {
        rect(
            self.left + dx,
            self.top + dy,
            larger(self.right - dx, self.left + dx),
            larger(self.bottom - dy, self.top + dy),
        )
    }

    /// Moved down.
    pub open spec fn moved(self, dy: int) -> Rect {
        rect(self.left as int, self.top + dy, self.right as int, self.bottom + dy)
    }

    pub fn new(left: i64, top: i64, right: i64, bottom: i64) -> (r: Rect)
        ensures
            r == (Rect { left, top, right, bottom }),
    {
        Rect { left, top, right, bottom }
    }

    /// An empty rectangle at the origin, for "no such element".
    pub fn nowhere() -> (r: Rect)
        ensures
            r == rect(0, 0, 0, 0),
            r.void(),
    {
        Rect { left: 0, top: 0, right: 0, bottom: 0 }
    }

    pub fn width(&self) -> (r: i64)
        requires
            self.wf(),
        ensures
            r == self.wide(),
    {
        self.right - self.left
    }

    pub fn height(&self) -> (r: i64)
        requires
            self.wf(),
        ensures
            r == self.tall(),
    {
        self.bottom - self.top
    }

    pub fn is_empty(&self) -> (r: bool)
        ensures
            r == self.void(),
    {
        self.right <= self.left || self.bottom <= self.top
    }

    pub fn center_y(&self) -> (r: i64)
        requires
            self.wf(),
        ensures
            r == self.middle(),
    {
        half(self.top + self.bottom)
    }

    pub fn center_x(&self) -> (r: i64)
        requires
            self.wf(),
        ensures
            r == (self.left + self.right) / 2,
    {
        half(self.left + self.right)
    }

    /// Is `(x, y)` inside?
    pub fn contains(&self, x: i64, y: i64) -> (r: bool)
        ensures
            r == self.holds(x as int, y as int),
    {
        !self.is_empty() && x >= self.left && x < self.right && y >= self.top && y < self.bottom
    }

    /// Shrink on every side.
    pub fn inset(&self, dx: i64, dy: i64) -> (r: Rect)
        requires
            self.wf(),
            near(dx as int),
            near(dy as int),
        ensures
            r == self.shrunk(dx as int, dy as int),
    {
        Rect::new(
            self.left + dx,
            self.top + dy,
            max(self.right - dx, self.left + dx),
            max(self.bottom - dy, self.top + dy),
        )
    }

    /// Move down by `dy`; a negative one moves up.
    pub fn shifted(&self, dy: i64) -> (r: Rect)
        requires
            self.wf(),
            near(dy as int),
        ensures
            r == self.moved(dy as int),
    {
        Rect::new(self.left, self.top + dy, self.right, self.bottom + dy)
    }

    /// The strip of width `width` at the left edge.
    pub fn take_left(&self, width: i64) -> (r: Rect)
        requires
            self.wf(),
            near(width as int),
        ensures
            r == rect(
                self.left as int,
                self.top as int,
                smaller(self.left + width, self.right as int),
                self.bottom as int,
            ),
    {
        Rect::new(self.left, self.top, min(self.left + width, self.right), self.bottom)
    }

    /// The right-hand `width` of this rectangle.
    pub fn right_part(&self, width: i64) -> (r: Rect)
        requires
            self.wf(),
            near(width as int),
        ensures
            r == rect(
                larger(self.right - width, self.left as int),
                self.top as int,
                self.right as int,
                self.bottom as int,
            ),
    {
        Rect::new(max(self.right - width, self.left), self.top, self.right, self.bottom)
    }

    /// A horizontal slice of height `height` from the top.
    pub fn take_top(&self, height: i64) -> (r: Rect)
        requires
            self.wf(),
            near(height as int),
        ensures
            r == rect(
                self.left as int,
                self.top as int,
                self.right as int,
                smaller(self.top + height, self.bottom as int),
            ),
    {
        Rect::new(self.left, self.top, self.right, min(self.top + height, self.bottom))
    }

    /// The part of this rectangle that is in `other`.
    pub open spec fn clip(self, other: Rect) -> Rect {
        rect(
            larger(self.left as int, other.left as int),
            larger(self.top as int, other.top as int),
            smaller(self.right as int, other.right as int),
            smaller(self.bottom as int, other.bottom as int),
        )
    }

    /// Clamp to `other`, for deciding what is on screen.
    pub fn clipped_to(&self, other: &Rect) -> (r: Rect)
        ensures
            r == self.clip(*other),
    {
        Rect::new(
            max(self.left, other.left),
            max(self.top, other.top),
            min(self.right, other.right),
            min(self.bottom, other.bottom),
        )
    }
}

/// Half of a number, in whole ticks, downwards.
pub fn half(v: i64) -> (r: i64)
    ensures
        r == (v as int) / 2,
{
    if v >= 0 {
        v / 2
    } else if v == i64::MIN {
        -0x4000_0000_0000_0000
    } else {
        let n: i64 = -v;
        -(n / 2 + n % 2)
    }
}

/// `a / b` in whole numbers, downwards.
pub fn floor_div(a: i128, b: i128) -> (r: i128)
    requires
        b > 0,
        -0x7fff_ffff_ffff_ffff_ffff_ffff_ffff_ffff <= a,
    ensures
        r == (a as int) / (b as int),
{
    if a >= 0 {
        a / b
    } else {
        let n: i128 = -a;
        let q: i128 = n / b;
        let rest: i128 = n % b;
        proof {
            let (ai, bi, ni) = (a as int, b as int, n as int);
            assert(ni == bi * (ni / bi) + ni % bi && 0 <= ni % bi < bi && 0 <= ni / bi <= ni)
                by (nonlinear_arith)
                requires
                    ni > 0,
                    bi > 0,
            ;
            if ni % bi == 0 {
                assert(ai / bi == -(ni / bi)) by (nonlinear_arith)
                    requires
                        ai == -ni,
                        ni == bi * (ni / bi) + ni % bi,
                        ni % bi == 0,
                        bi > 0,
                ;
            } else {
                assert(ai / bi == -(ni / bi) - 1) by (nonlinear_arith)
                    requires
                        ai == -ni,
                        ni == bi * (ni / bi) + ni % bi,
                        0 < ni % bi < bi,
                        bi > 0,
                ;
            }
        }
        if rest == 0 {
            -q
        } else {
            -q - 1
        }
    }
}

/// The value in a range that is closest to another; the lower end, if the range is
/// inverted.
pub open spec fn clamped(value: int, min: int, max: int) -> int {
    if max < min || value < min {
        min
    } else if value > max {
        max
    } else {
        value
    }
}

/// Clip a value into a range.
pub fn clamp(value: i64, min: i64, max: i64) -> (r: i64)
    ensures
        r == clamped(value as int, min as int, max as int),
{
    if max < min || value < min {
        min
    } else if value > max {
        max
    } else {
        value
    }
}

/// Two rectangles that meet at a vertical line never both hold a point.
pub proof fn neighbours_share_no_point(a: Rect, b: Rect, x: int, y: int)
    requires
        a.right <= b.left || a.bottom <= b.top,
    ensures
        !(a.holds(x, y) && b.holds(x, y)),
{
}

/// Shrinking never turns a rectangle inside out.
pub proof fn shrinking_never_inverts(r: Rect, dx: int, dy: int)
    requires
        r.wf(),
        near(dx),
        near(dy),
    ensures
        r.shrunk(dx, dy).wide() >= 0,
        r.shrunk(dx, dy).tall() >= 0,
{
}

/// What is left of a rectangle on screen is in both, and it is empty where they share
/// nothing.
pub proof fn clipping_keeps_what_is_shared(a: Rect, b: Rect, x: int, y: int)
    ensures
        a.clip(b).holds(x, y) <==> a.holds(x, y) && b.holds(x, y),
{
}

/// A clamped number is inside the range, and the number itself where that is; of a range that
/// is inside out it is the lower end.
pub proof fn clamping_is_nearest(value: int, min: int, max: int)
    ensures
        min <= max ==> min <= clamped(value, min, max) <= max,
        min <= value <= max ==> clamped(value, min, max) == value,
        min <= max && value < min ==> clamped(value, min, max) == min,
        min <= max && value > max ==> clamped(value, min, max) == max,
        max < min ==> clamped(value, min, max) == min,
{
}

/// A rectangle holds the points from its left and its top edge up to, and not on, the others.
pub proof fn a_rectangle_is_half_open(r: Rect, x: int, y: int)
    ensures
        r.holds(x, y) <==> r.left <= x < r.right && r.top <= y < r.bottom,
        r.void() <==> r.right <= r.left || r.bottom <= r.top,
{
}

/// A move down moves both edges, and shrinking takes the same off either side.
pub proof fn a_move_keeps_the_size(r: Rect, dx: int, dy: int)
    requires
        r.wf(),
        near(dx),
        near(dy),
    ensures
        r.moved(dy).left == r.left && r.moved(dy).right == r.right,
        r.moved(dy).top == r.top + dy && r.moved(dy).bottom == r.bottom + dy,
        2 * dx <= r.right - r.left ==> r.shrunk(dx, dy).left == r.left + dx && r.shrunk(
            dx,
            dy,
        ).right == r.right - dx,
        2 * dy <= r.bottom - r.top ==> r.shrunk(dx, dy).top == r.top + dy && r.shrunk(
            dx,
            dy,
        ).bottom == r.bottom - dy,
{
}

} // verus!
