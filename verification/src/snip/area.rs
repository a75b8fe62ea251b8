//! Rectangles on the overlay: what a drag selects, what has to be drawn again
//! when it changes, and where the things beside it go.

use vstd::prelude::*;

use crate::number::{clamp_i32, clamped_to};

verus! {

/// The smaller of two numbers.
pub open spec fn lesser(a: int, b: int) -> int {
    if a <= b {
        a
    } else {
        b
    }
}

/// The larger of two numbers.
pub open spec fn greater(a: int, b: int) -> int {
    if a >= b {
        a
    } else {
        b
    }
}

pub(crate) fn min_i32(a: i32, b: i32) -> (r: i32)
    ensures
        r == lesser(a as int, b as int),
{
    if a <= b {
        a
    } else {
        b
    }
}

pub(crate) fn max_i32(a: i32, b: i32) -> (r: i32)
    ensures
        r == greater(a as int, b as int),
{
    if a >= b {
        a
    } else {
        b
    }
}

/// A long coordinate, held into a range of ordinary ones.
pub(crate) fn clamp_to_i32(value: i64, low: i32, high: i32) -> (r: i32)
    requires
        low <= high,
    ensures
        r == clamped_to(value as int, low as int, high as int),
{
    if value < low as i64 {
        low
    } else if value > high as i64 {
        high
    } else {
        value as i32
    }
}

/// Does `value` fit a screen coordinate?
pub open spec fn fits(value: int) -> bool {
    i32::MIN <= value <= i32::MAX
}

/// A rectangle dragged out on screen, already normalised.
///
/// Its right and bottom edges are exclusive.
#[derive(Clone, Copy, Debug, PartialEq, Eq, Structural)]
pub struct Area {
    pub left: i32,
    pub top: i32,
    pub right: i32,
    pub bottom: i32,
}

impl Area {
    /// Is the pixel at `(x, y)` covered?
    pub open spec fn covers(self, x: int, y: int) -> bool {
        self.left <= x < self.right && self.top <= y < self.bottom
    }

    /// Does the area cover no pixel at all?
    pub open spec fn empty(self) -> bool {
        self.right <= self.left || self.bottom <= self.top
    }

    /// Both sides have lengths that fit a coordinate.
    pub open spec fn measurable(self) -> bool {
        fits(self.right - self.left) && fits(self.bottom - self.top)
    }

    /// All four edges still fit a coordinate after a move by `n` either way.
    pub open spec fn inflatable(self, n: int) -> bool {
        &&& fits(self.left - n) && fits(self.left + n)
        &&& fits(self.top - n) && fits(self.top + n)
        &&& fits(self.right - n) && fits(self.right + n)
        &&& fits(self.bottom - n) && fits(self.bottom + n)
    }

    /// Lies in a `width` by `height` box and is not inverted.
    pub open spec fn inside(self, width: int, height: int) -> bool {
        0 <= self.left <= self.right <= width && 0 <= self.top <= self.bottom <= height
    }

    /// Big enough to be meant: at least two pixels on each side.
    pub open spec fn usable(self) -> bool {
        self.right - self.left >= 2 && self.bottom - self.top >= 2
    }

    /// The rectangle between two drag points, whichever way round they are.
    pub open spec fn between(from: (i32, i32), to: (i32, i32)) -> Area {
        Area {
            left: lesser(from.0 as int, to.0 as int) as i32,
            top: lesser(from.1 as int, to.1 as int) as i32,
            right: greater(from.0 as int, to.0 as int) as i32,
            bottom: greater(from.1 as int, to.1 as int) as i32,
        }
    }

    /// The area held into a `width` by `height` box.
    pub open spec fn clamp_into(self, width: int, height: int) -> Area {
        let left = clamped_to(self.left as int, 0, width);
        let top = clamped_to(self.top as int, 0, height);
        Area {
            left: left as i32,
            top: top as i32,
            right: clamped_to(self.right as int, left, width) as i32,
            bottom: clamped_to(self.bottom as int, top, height) as i32,
        }
    }

    /// The area grown by `n` on every side, then held into the box.
    pub open spec fn inflate_into(self, n: int, width: int, height: int) -> Area {
        Area {
            left: (self.left - n) as i32,
            top: (self.top - n) as i32,
            right: (self.right + n) as i32,
            bottom: (self.bottom + n) as i32,
        }.clamp_into(width, height)
    }

    /// The pixels that both areas cover, as an area; inverted or of no thickness
    /// where there are none.
    pub open spec fn meet(self, other: Area) -> Area {
        Area {
            left: greater(self.left as int, other.left as int) as i32,
            top: greater(self.top as int, other.top as int) as i32,
            right: lesser(self.right as int, other.right as int) as i32,
            bottom: lesser(self.bottom as int, other.bottom as int) as i32,
        }
    }

    /// "No selection here".
    pub open spec fn nothing() -> Area {
        Area { left: 0, top: 0, right: 0, bottom: 0 }
    }

    /// The rectangle between two drag points, whichever way round they are.
    pub fn from_drag(from: (i32, i32), to: (i32, i32)) -> (r: Area)
        ensures
            r == Self::between(from, to),
            r.left <= r.right,
            r.top <= r.bottom,
    {
        Area {
            left: min_i32(from.0, to.0),
            top: min_i32(from.1, to.1),
            right: max_i32(from.0, to.0),
            bottom: max_i32(from.1, to.1),
        }
    }

    pub fn width(&self) -> (r: i32)
        requires
            fits(self.right - self.left),
        ensures
            r == self.right - self.left,
    {
        self.right - self.left
    }

    pub fn height(&self) -> (r: i32)
        requires
            fits(self.bottom - self.top),
        ensures
            r == self.bottom - self.top,
    {
        self.bottom - self.top
    }

    /// A click with no drag is not a selection, and neither is a one-pixel
    /// sliver: both are what a cancelled attempt looks like.
    pub fn is_usable(&self) -> (r: bool)
        requires
            self.measurable(),
        ensures
            r == self.usable(),
    {
        self.width() >= 2 && self.height() >= 2
    }

    /// "No selection here", for the arithmetic on selections.
    pub fn nowhere() -> (r: Area)
        ensures
            r == Self::nothing(),
            r.empty(),
    {
        Area { left: 0, top: 0, right: 0, bottom: 0 }
    }

    pub fn contains(&self, x: i32, y: i32) -> (r: bool)
        ensures
            r == self.covers(x as int, y as int),
    {
        x >= self.left && x < self.right && y >= self.top && y < self.bottom
    }

    /// Does this cover no pixels at all?
    pub fn is_empty(&self) -> (r: bool)
        ensures
            r == self.empty(),
            r == (forall|x: int, y: int| !self.covers(x, y)),
    {
        let r = self.right <= self.left || self.bottom <= self.top;
        proof {
            if !r {
                assert(self.covers(self.left as int, self.top as int));
            }
        }
        r
    }

    /// Clamp into a `width` by `height` box, keeping it non-inverted.
    pub fn clamped(self, width: i32, height: i32) -> (r: Area)
        requires
            0 <= width,
            0 <= height,
        ensures
            r == self.clamp_into(width as int, height as int),
            r.inside(width as int, height as int),
    {
        let left: i32 = clamp_i32(self.left, 0, width);
        let top: i32 = clamp_i32(self.top, 0, height);
        Area {
            left,
            top,
            right: clamp_i32(self.right, left, width),
            bottom: clamp_i32(self.bottom, top, height),
        }
    }

    /// Grow by `n` on every side, clamped to the box.
    pub fn inflated(self, n: i32, width: i32, height: i32) -> (r: Area)
        requires
            fits(self.left - n),
            fits(self.top - n),
            fits(self.right + n),
            fits(self.bottom + n),
            0 <= width,
            0 <= height,
        ensures
            r == self.inflate_into(n as int, width as int, height as int),
            r.inside(width as int, height as int),
    {
        Area {
            left: self.left - n,
            top: self.top - n,
            right: self.right + n,
            bottom: self.bottom + n,
        }.clamped(width, height)
    }

    /// Which way a drag went makes no difference to what it selects.
    pub proof fn a_drag_has_no_direction(from: (i32, i32), to: (i32, i32))
        ensures
            Self::between(from, to) == Self::between(to, from),
    {
    }

    /// Clamping keeps exactly the pixels of the area that lie in the box.
    pub proof fn clamping_keeps_what_is_inside(self, width: int, height: int, x: int, y: int)
        requires
            0 <= width <= i32::MAX,
            0 <= height <= i32::MAX,
        ensures
            self.clamp_into(width, height).covers(x, y) <==> self.covers(x, y) && 0 <= x < width
                && 0 <= y < height,
    {
    }

    /// An area that already lies in the box is left alone, so clamping twice is
    /// clamping once.
    pub proof fn clamping_is_idempotent(self, width: int, height: int)
        requires
            0 <= width <= i32::MAX,
            0 <= height <= i32::MAX,
        ensures
            self.inside(width, height) ==> self.clamp_into(width, height) == self,
            self.clamp_into(width, height).inside(width, height),
            self.clamp_into(width, height).clamp_into(width, height) == self.clamp_into(
                width,
                height,
            ),
    {
    }
}

/// The four bands between the pairs of edges of two selections.
pub open spec fn edge_bands(previous: Area, next: Area) -> Seq<Area> {
    let left = lesser(previous.left as int, next.left as int) as i32;
    let right = greater(previous.right as int, next.right as int) as i32;
    let top = lesser(previous.top as int, next.top as int) as i32;
    let bottom = greater(previous.bottom as int, next.bottom as int) as i32;
    seq![
        Area { left, top, right: greater(previous.left as int, next.left as int) as i32, bottom },
        Area { left: lesser(previous.right as int, next.right as int) as i32, top, right, bottom },
        Area { left, top, right, bottom: greater(previous.top as int, next.top as int) as i32 },
        Area { left, top: lesser(previous.bottom as int, next.bottom as int) as i32, right, bottom },
    ]
}

/// What one band contributes: nothing when no edge moved or nothing of it is on
/// screen, else the band grown by `pad`.
pub open spec fn strip_of(band: Area, pad: int, width: int, height: int) -> Seq<Area> {
    if band.empty() || band.inflate_into(pad, width, height).empty() {
        Seq::empty()
    } else {
        seq![band.inflate_into(pad, width, height)]
    }
}

/// The strips where one selection differs from another, in the order in which
/// they are drawn.
pub open spec fn strips_between(
    previous: Area,
    next: Area,
    pad: int,
    width: int,
    height: int,
) -> Seq<Area> {
    if previous.empty() {
        seq![next.inflate_into(pad, width, height)]
    } else if next.empty() {
        seq![previous.inflate_into(pad, width, height)]
    } else {
        let bands = edge_bands(previous, next);
        strip_of(bands[0], pad, width, height) + strip_of(bands[1], pad, width, height)
            + strip_of(bands[2], pad, width, height) + strip_of(bands[3], pad, width, height)
    }
}

fn push_strip(strips: &mut Vec<Area>, band: Area, pad: i32, width: i32, height: i32)
    requires
        band.inflatable(pad as int),
        0 <= width,
        0 <= height,
    ensures
        final(strips)@ == old(strips)@ + strip_of(band, pad as int, width as int, height as int),
{
    if !band.is_empty() {
        let strip = band.inflated(pad, width, height);
        if !strip.is_empty() {
            strips.push(strip);
        }
    }
    assert(strips@ =~= old(strips)@ + strip_of(band, pad as int, width as int, height as int));
}

/// The strips where one selection differs from another.
///
/// Dragging a corner moves two of a selection's four edges; everything inside
/// both rectangles is the same bright screen as it was a moment ago, so nothing
/// there has to be composed again. The symmetric difference of two rectangles is
/// at most four strips, the bands between the pairs of edges, and each is as thin
/// as the pointer actually moved. `pad` grows every strip by the width of the
/// selection's own frame, which is drawn outside the selection and so has to be
/// repainted on both the old and the new position.
pub fn changed_strips(previous: Area, next: Area, pad: i32, width: i32, height: i32) -> (r: Vec<
    Area,
>)
    requires
        previous.inflatable(pad as int),
        next.inflatable(pad as int),
        0 <= width,
        0 <= height,
    ensures
        r@ == strips_between(previous, next, pad as int, width as int, height as int),
{
    let mut strips: Vec<Area> = Vec::new();
    if previous.is_empty() {
        strips.push(next.inflated(pad, width, height));
        assert(strips@ =~= strips_between(
            previous,
            next,
            pad as int,
            width as int,
            height as int,
        ));
        return strips;
    }
    if next.is_empty() {
        strips.push(previous.inflated(pad, width, height));
        assert(strips@ =~= strips_between(
            previous,
            next,
            pad as int,
            width as int,
            height as int,
        ));
        return strips;
    }
    let left: i32 = min_i32(previous.left, next.left);
    let right: i32 = max_i32(previous.right, next.right);
    let top: i32 = min_i32(previous.top, next.top);
    let bottom: i32 = max_i32(previous.bottom, next.bottom);
    push_strip(
        &mut strips,
        Area { left, top, right: max_i32(previous.left, next.left), bottom },
        pad,
        width,
        height,
    );
    push_strip(
        &mut strips,
        Area { left: min_i32(previous.right, next.right), top, right, bottom },
        pad,
        width,
        height,
    );
    push_strip(
        &mut strips,
        Area { left, top, right, bottom: max_i32(previous.top, next.top) },
        pad,
        width,
        height,
    );
    push_strip(
        &mut strips,
        Area { left, top: min_i32(previous.bottom, next.bottom), right, bottom },
        pad,
        width,
        height,
    );
    assert(strips@ =~= strips_between(previous, next, pad as int, width as int, height as int));
    strips
}

/// Is the pixel covered by one of the areas?
pub open spec fn any_covers(areas: Seq<Area>, x: int, y: int) -> bool {
    exists|i: int| 0 <= i < areas.len() && (#[trigger] areas[i]).covers(x, y)
}

proof fn lemma_any_covers_in_part(a: Seq<Area>, b: Seq<Area>, c: Seq<Area>, x: int, y: int)
    requires
        any_covers(b, x, y),
    ensures
        any_covers(a + b + c, x, y),
{
    let i = choose|i: int| 0 <= i < b.len() && (#[trigger] b[i]).covers(x, y);
    assert((a + b + c)[a.len() + i] == b[i]);
}

proof fn lemma_strip_covers(band: Area, pad: int, width: int, height: int, x: int, y: int)
    requires
        0 <= pad,
        0 <= width <= i32::MAX,
        0 <= height <= i32::MAX,
        band.inflatable(pad),
        0 <= x < width,
        0 <= y < height,
        band.covers(x, y),
    ensures
        any_covers(strip_of(band, pad, width, height), x, y),
{
    let strip = band.inflate_into(pad, width, height);
    assert(strip.covers(x, y));
    assert(strip_of(band, pad, width, height)[0] == strip);
}

proof fn lemma_some_band_covers(previous: Area, next: Area, x: int, y: int)
    requires
        !previous.empty(),
        !next.empty(),
        previous.covers(x, y) != next.covers(x, y),
    ensures
        ({
            let bands = edge_bands(previous, next);
            bands[0].covers(x, y) || bands[1].covers(x, y) || bands[2].covers(x, y)
                || bands[3].covers(x, y)
        }),
{
}

/// Every pixel on screen that belongs to exactly one of two selections lies in one
/// of the strips between them: nothing that changed is left undrawn.
pub proof fn strips_cover_the_difference(
    previous: Area,
    next: Area,
    pad: int,
    width: int,
    height: int,
    x: int,
    y: int,
)
    requires
        0 <= pad,
        0 <= width <= i32::MAX,
        0 <= height <= i32::MAX,
        previous.inflatable(pad),
        next.inflatable(pad),
        0 <= x < width,
        0 <= y < height,
        previous.covers(x, y) != next.covers(x, y),
    ensures
        any_covers(strips_between(previous, next, pad, width, height), x, y),
{
    let strips = strips_between(previous, next, pad, width, height);
    if previous.empty() {
        assert(strips[0].covers(x, y));
    } else if next.empty() {
        assert(strips[0].covers(x, y));
    } else {
        let bands = edge_bands(previous, next);
        let s0 = strip_of(bands[0], pad, width, height);
        let s1 = strip_of(bands[1], pad, width, height);
        let s2 = strip_of(bands[2], pad, width, height);
        let s3 = strip_of(bands[3], pad, width, height);
        let none = Seq::<Area>::empty();
        lemma_some_band_covers(previous, next, x, y);
        if bands[0].covers(x, y) {
            lemma_strip_covers(bands[0], pad, width, height, x, y);
            lemma_any_covers_in_part(none, s0, s1 + s2 + s3, x, y);
            assert(none + s0 + (s1 + s2 + s3) =~= strips);
        } else if bands[1].covers(x, y) {
            lemma_strip_covers(bands[1], pad, width, height, x, y);
            lemma_any_covers_in_part(s0, s1, s2 + s3, x, y);
            assert(s0 + s1 + (s2 + s3) =~= strips);
        } else if bands[2].covers(x, y) {
            lemma_strip_covers(bands[2], pad, width, height, x, y);
            lemma_any_covers_in_part(s0 + s1, s2, s3, x, y);
        } else {
            lemma_strip_covers(bands[3], pad, width, height, x, y);
            lemma_any_covers_in_part(s0 + s1 + s2, s3, none, x, y);
            assert(s0 + s1 + s2 + s3 + none =~= strips);
        }
    }
}

/// A selection that did not change has no strips at all.
pub proof fn an_unchanged_selection_has_no_strips(same: Area, pad: int, width: int, height: int)
    requires
        !same.empty(),
    ensures
        strips_between(same, same, pad, width, height) == Seq::<Area>::empty(),
{
    assert(strips_between(same, same, pad, width, height) =~= Seq::<Area>::empty());
}

/// Does every one of the areas lie in a `width` by `height` box?
pub open spec fn all_inside(areas: Seq<Area>, width: int, height: int) -> bool {
    forall|i: int| 0 <= i < areas.len() ==> (#[trigger] areas[i]).inside(width, height)
}

proof fn lemma_inflated_inside(area: Area, pad: int, width: int, height: int)
    requires
        0 <= width <= i32::MAX,
        0 <= height <= i32::MAX,
    ensures
        area.inflate_into(pad, width, height).inside(width, height),
        strip_of(area, pad, width, height).len() <= 1,
        all_inside(strip_of(area, pad, width, height), width, height),
{
}

proof fn lemma_all_inside_both(a: Seq<Area>, b: Seq<Area>, width: int, height: int)
    requires
        all_inside(a, width, height),
        all_inside(b, width, height),
    ensures
        all_inside(a + b, width, height),
{
    assert forall|i: int| 0 <= i < (a + b).len() implies (#[trigger] (a + b)[i]).inside(
        width,
        height,
    ) by {
        if i < a.len() {
            assert((a + b)[i] == a[i]);
        } else {
            assert((a + b)[i] == b[i - a.len()]);
        }
    }
}

/// There are never more than four strips, and each lies on screen.
pub proof fn strips_are_few_and_on_screen(
    previous: Area,
    next: Area,
    pad: int,
    width: int,
    height: int,
)
    requires
        0 <= width <= i32::MAX,
        0 <= height <= i32::MAX,
    ensures
        strips_between(previous, next, pad, width, height).len() <= 4,
        all_inside(strips_between(previous, next, pad, width, height), width, height),
{
    lemma_inflated_inside(previous, pad, width, height);
    lemma_inflated_inside(next, pad, width, height);
    let bands = edge_bands(previous, next);
    lemma_inflated_inside(bands[0], pad, width, height);
    lemma_inflated_inside(bands[1], pad, width, height);
    lemma_inflated_inside(bands[2], pad, width, height);
    lemma_inflated_inside(bands[3], pad, width, height);
    let s0 = strip_of(bands[0], pad, width, height);
    let s1 = strip_of(bands[1], pad, width, height);
    let s2 = strip_of(bands[2], pad, width, height);
    let s3 = strip_of(bands[3], pad, width, height);
    lemma_all_inside_both(s0, s1, width, height);
    lemma_all_inside_both(s0 + s1, s2, width, height);
    lemma_all_inside_both(s0 + s1 + s2, s3, width, height);
}

/// The intersection of two areas, or `None` when they do not overlap.
pub fn overlap(area: Area, clip: Area) -> (r: Option<Area>)
    ensures
        r == (if area.meet(clip).empty() {
            None
        } else {
            Some(area.meet(clip))
        }),
{
    let clipped = Area {
        left: max_i32(area.left, clip.left),
        top: max_i32(area.top, clip.top),
        right: min_i32(area.right, clip.right),
        bottom: min_i32(area.bottom, clip.bottom),
    };
    if clipped.is_empty() {
        None
    } else {
        Some(clipped)
    }
}

/// The overlap of two areas covers exactly the pixels that both cover.
pub proof fn overlap_is_the_intersection(area: Area, clip: Area, x: int, y: int)
    ensures
        area.meet(clip).covers(x, y) <==> area.covers(x, y) && clip.covers(x, y),
{
}

/// Do two areas share a pixel? For areas that are not inverted, the same as having
/// an overlap.
pub open spec fn crosses(area: Area, target: Area) -> bool {
    area.right > target.left && area.left < target.right && area.bottom > target.top && area.top
        < target.bottom
}

pub fn intersects(area: Area, target: Area) -> (r: bool)
    ensures
        r == crosses(area, target),
        !area.empty() && !target.empty() ==> r == !area.meet(target).empty(),
{
    area.right > target.left && area.left < target.right && area.bottom > target.top && area.top
        < target.bottom
}

/// The four bands of a selection's frame: above, below, left and right of it.
pub open spec fn frame_bands(selection: Area, thickness: int) -> Seq<Area> {
    let left = (selection.left - thickness) as i32;
    let top = (selection.top - thickness) as i32;
    let right = (selection.right + thickness) as i32;
    let bottom = (selection.bottom + thickness) as i32;
    seq![
        Area { left, top, right, bottom: selection.top },
        Area { left, top: selection.bottom, right, bottom },
        Area { left, top: selection.top, right: selection.left, bottom: selection.bottom },
        Area { left: selection.right, top: selection.top, right, bottom: selection.bottom },
    ]
}

/// The four bands of a selection's frame.
///
/// Drawn *outside* the selection, so the bright area in the overlay is exactly the
/// region that will be captured. Drawn inside, the part that looks selected would
/// be smaller than the part that is taken by the width of the frame.
pub fn border_bands(selection: Area, thickness: i32) -> (r: [Area; 4])
    requires
        fits(selection.left - thickness),
        fits(selection.top - thickness),
        fits(selection.right + thickness),
        fits(selection.bottom + thickness),
    ensures
        r@ == frame_bands(selection, thickness as int),
{
    let left: i32 = selection.left - thickness;
    let top: i32 = selection.top - thickness;
    let right: i32 = selection.right + thickness;
    let bottom: i32 = selection.bottom + thickness;
    let bands: [Area; 4] = [
        Area { left, top, right, bottom: selection.top },
        Area { left, top: selection.bottom, right, bottom },
        Area { left, top: selection.top, right: selection.left, bottom: selection.bottom },
        Area { left: selection.right, top: selection.top, right, bottom: selection.bottom },
    ];
    assert(bands@ =~= frame_bands(selection, thickness as int));
    bands
}

/// The frame is exactly the ring of the given thickness around the selection: no
/// band covers a pixel of the selection, and together they cover every pixel
/// around it that is at most `thickness` away.
pub proof fn the_frame_is_the_ring_around_the_selection(
    selection: Area,
    thickness: int,
    x: int,
    y: int,
)
    requires
        0 <= thickness,
        selection.left <= selection.right,
        selection.top <= selection.bottom,
        fits(selection.left - thickness),
        fits(selection.top - thickness),
        fits(selection.right + thickness),
        fits(selection.bottom + thickness),
    ensures
        any_covers(frame_bands(selection, thickness), x, y) <==> (!selection.covers(x, y)
            && selection.left - thickness <= x < selection.right + thickness && selection.top
            - thickness <= y < selection.bottom + thickness),
{
    let bands = frame_bands(selection, thickness);
    if !selection.covers(x, y) && selection.left - thickness <= x < selection.right + thickness
        && selection.top - thickness <= y < selection.bottom + thickness {
        if y < selection.top {
            assert(bands[0].covers(x, y));
        } else if y >= selection.bottom {
            assert(bands[1].covers(x, y));
        } else if x < selection.left {
            assert(bands[2].covers(x, y));
        } else {
            assert(bands[3].covers(x, y));
        }
    }
}

/// The distance between the selection and its badge.
pub const BADGE_GAP: i32 = 6;

/// Where the badge goes: above the selection, or below when there is no room; and
/// held inside the window.
pub open spec fn badge_position(selection: Area, badge: (i32, i32), window: (i32, i32)) -> (
    int,
    int,
) {
    let above = selection.top - BADGE_GAP - badge.1;
    let top = if above >= 0 {
        above
    } else {
        selection.bottom + BADGE_GAP
    };
    let left = if selection.left + badge.0 > window.0 {
        selection.right - badge.0
    } else {
        selection.left as int
    };
    (
        clamped_to(left, 0, greater(window.0 - badge.0, 0)),
        clamped_to(top, 0, greater(window.1 - badge.1, 0)),
    )
}

/// Where the badge goes: above the selection, or below when there is no room.
///
/// Also used to keep it inside the window horizontally, so a selection at the
/// screen edge does not push it out of sight.
pub fn badge_origin(selection: Area, badge: (i32, i32), window: (i32, i32)) -> (r: (i32, i32))
    requires
        fits(window.0 - badge.0),
        fits(window.1 - badge.1),
    ensures
        (r.0 as int, r.1 as int) == badge_position(selection, badge, window),
{
    let above: i64 = selection.top as i64 - BADGE_GAP as i64 - badge.1 as i64;
    let top: i64 = if above >= 0 {
        above
    } else {
        selection.bottom as i64 + BADGE_GAP as i64
    };
    let mut left: i64 = selection.left as i64;
    if left + badge.0 as i64 > window.0 as i64 {
        left = selection.right as i64 - badge.0 as i64;
    }
    (
        clamp_to_i32(left, 0, max_i32(window.0 - badge.0, 0)),
        clamp_to_i32(top, 0, max_i32(window.1 - badge.1, 0)),
    )
}

/// A badge that is no larger than the window lies wholly inside it.
pub proof fn the_badge_stays_inside(selection: Area, badge: (i32, i32), window: (i32, i32))
    requires
        0 <= badge.0 <= window.0,
        0 <= badge.1 <= window.1,
    ensures
        0 <= badge_position(selection, badge, window).0,
        badge_position(selection, badge, window).0 + badge.0 <= window.0,
        0 <= badge_position(selection, badge, window).1,
        badge_position(selection, badge, window).1 + badge.1 <= window.1,
{
}

/// A badge with room above the selection, or else below it, covers no pixel of the
/// selection.
pub proof fn the_badge_stays_off_the_selection(
    selection: Area,
    badge: (i32, i32),
    window: (i32, i32),
)
    requires
        0 <= badge.0,
        0 <= badge.1,
        selection.inside(window.0 as int, window.1 as int),
        selection.top - BADGE_GAP - badge.1 >= 0 || selection.bottom + BADGE_GAP + badge.1
            <= window.1,
    ensures
        ({
            let top = badge_position(selection, badge, window).1;
            top + badge.1 <= selection.top || top >= selection.bottom
        }),
{
}

/// The badge is six pixels above the selection where there is room for it on the window, and
/// six below it otherwise; it begins where the selection begins, or ends where it ends when it
/// would run off the window.
pub proof fn the_badge_sits_at_the_selection(
    selection: Area,
    badge: (i32, i32),
    window: (i32, i32),
)
    requires
        0 <= badge.0 <= window.0,
        0 <= badge.1 <= window.1,
        selection.inside(window.0 as int, window.1 as int),
    ensures
        ({
            let (left, top) = badge_position(selection, badge, window);
            &&& selection.top - 6 - badge.1 >= 0 ==> top + badge.1 + 6 == selection.top
            &&& selection.top - 6 - badge.1 < 0 && selection.bottom + 6 + badge.1 <= window.1
                ==> top == selection.bottom + 6
            &&& selection.left + badge.0 <= window.0 ==> left == selection.left
            &&& selection.left + badge.0 > window.0 && selection.right >= badge.0 ==> left
                + badge.0 == selection.right
        }),
{
}

/// Two areas with pixels cross exactly when they share one.
pub proof fn crossing_is_sharing_a_pixel(area: Area, target: Area)
    requires
        area.left < area.right && area.top < area.bottom,
        target.left < target.right && target.top < target.bottom,
    ensures
        crosses(area, target) <==> exists|x: int, y: int|
            #![trigger area.covers(x, y)]
            area.covers(x, y) && target.covers(x, y),
{
    if crosses(area, target) {
        let x = greater(area.left as int, target.left as int);
        let y = greater(area.top as int, target.top as int);
        assert(area.covers(x, y) && target.covers(x, y));
    }
}

/// Growing an area takes in every pixel of the box at most so far from it, sideways and up and
/// down.
pub proof fn growing_takes_in_the_neighbours(
    area: Area,
    n: int,
    width: int,
    height: int,
    x: int,
    y: int,
)
    requires
        area.inflatable(n),
        0 <= n,
        0 <= width <= i32::MAX,
        0 <= height <= i32::MAX,
    ensures
        area.inflate_into(n, width, height).covers(x, y) <==> {
            &&& area.left - n <= x < area.right + n
            &&& area.top - n <= y < area.bottom + n
            &&& 0 <= x < width && 0 <= y < height
        },
{
}

/// A click or a sliver is no selection: it takes two pixels each way.
pub proof fn a_sliver_is_no_selection(area: Area)
    ensures
        area.usable() <==> area.right >= area.left + 2 && area.bottom >= area.top + 2,
        Area::nothing().empty(),
        area.empty() <==> forall|x: int, y: int| !area.covers(x, y),
        forall|x: int, y: int| #[trigger]
            area.covers(x, y) <==> area.left <= x < area.right && area.top <= y < area.bottom,
{
    if !area.empty() {
        assert(area.covers(area.left as int, area.top as int));
    }
}

/// The rectangle of a drag runs from the smaller to the larger coordinate on both axes.
pub proof fn a_drag_spans_both_points(from: (i32, i32), to: (i32, i32), x: int, y: int)
    ensures
        Area::between(from, to).covers(x, y) <==> {
            &&& from.0 <= x < to.0 || to.0 <= x < from.0
            &&& from.1 <= y < to.1 || to.1 <= y < from.1
        },
{
}

} // verus!
