//! The interactive rectangles inside the control area of a row.
//!
//! One function decides where a switch, the track of a slider, a colour swatch or a set of
//! buttons lives, and both the painter and the hit tester read its output. Deriving those
//! rectangles twice is how a control ends up drawn in one place and clickable in another.

use vstd::prelude::*;

use crate::settings::geom::{
    clamp, clamped, half, larger, max, min, near, rect, smaller, Rect,
};
use crate::settings::layout::Metrics;
use crate::settings::schema::{Field, Kind};

verus! {

/// The parts of a row that respond to the mouse.
pub struct Parts {
    /// Boxes in reading order: the switch, the dropdown, the number box, the colour
    /// swatch, the hex box, the status pill.
    pub boxes: Vec<Rect>,
    /// The draggable track of a slider, when the row has one.
    pub slider: Option<Rect>,
    /// Action buttons, in the order in which the table lists them.
    pub buttons: Vec<Rect>,
}

/// [`Parts`], as a value.
#[verifier::ext_equal]
pub ghost struct PartsModel {
    pub boxes: Seq<Rect>,
    pub slider: Option<Rect>,
    pub buttons: Seq<Rect>,
}

impl View for Parts {
    type V = PartsModel;

    open spec fn view(&self) -> PartsModel {
        PartsModel { boxes: self.boxes@, slider: self.slider, buttons: self.buttons@ }
    }
}

/// Which part is under a point.
#[derive(Clone, Copy, Debug, PartialEq, Eq, Structural)]
pub enum Part {
    /// A box, by index into [`Parts::boxes`].
    Box(usize),
    /// The slider's track; the x position sets the value.
    SliderTrack,
    /// An action button, by index.
    Button(usize),
}

/// A share of a whole, from none to all of it.
#[derive(Clone, Copy, Debug, PartialEq, Eq, Structural)]
pub struct Fraction {
    pub numerator: i64,
    pub denominator: i64,
}

impl Fraction {
    pub open spec fn wf(self) -> bool {
        0 <= self.numerator <= self.denominator && 0 < self.denominator
    }
}

/// The first of some rectangles that a point is in.
pub open spec fn hit(rects: Seq<Rect>, x: int, y: int) -> Option<int>
    decreases rects.len(),
{
    if rects.len() == 0 {
        None
    } else {
        match hit(rects.drop_last(), x, y) {
            Some(i) => Some(i),
            None => if rects.last().holds(x, y) {
                Some(rects.len() - 1)
            } else {
                None
            },
        }
    }
}

fn hit_index(rects: &Vec<Rect>, x: i64, y: i64) -> (r: Option<usize>)
    ensures
        match hit(rects@, x as int, y as int) {
            Some(i) => r is Some && r->0 == i && 0 <= i < rects@.len(),
            None => r is None,
        },
{
    let mut i: usize = 0;
    let mut found: Option<usize> = None;
    assert(rects@.take(0) =~= Seq::<Rect>::empty());
    while i < rects.len()
        invariant
            0 <= i <= rects@.len(),
            match hit(rects@.take(i as int), x as int, y as int) {
                Some(k) => found is Some && found->0 == k && 0 <= k < i,
                None => found is None,
            },
        decreases rects@.len() - i,
    {
        proof {
            let next = rects@.take(i + 1);
            assert(next.drop_last() =~= rects@.take(i as int));
            assert(next.last() == rects@[i as int]);
        }
        if found.is_none() && rects[i].contains(x, y) {
            found = Some(i);
        }
        i = i + 1;
    }
    assert(rects@.take(i as int) =~= rects@);
    found
}

impl PartsModel {
    /// The part under a point. The slider is tested first: its hit area is the full row
    /// height, so it would otherwise be swallowed by a box that shares those rows.
    pub open spec fn part(self, x: int, y: int) -> Option<Part> {
        if self.slider is Some && self.slider->0.holds(x, y) {
            Some(Part::SliderTrack)
        } else {
            match hit(self.buttons, x, y) {
                Some(i) => Some(Part::Button(i as usize)),
                None => match hit(self.boxes, x, y) {
                    Some(i) => Some(Part::Box(i as usize)),
                    None => None,
                },
            }
        }
    }

    /// The position of `x` on the track of the slider.
    pub open spec fn fraction(self, x: int) -> Option<Fraction> {
        match self.slider {
            Some(track) => if track.wide() <= 0 {
                None
            } else {
                Some(
                    Fraction {
                        numerator: clamped(x - track.left, 0, track.wide()) as i64,
                        denominator: track.wide() as i64,
                    },
                )
            },
            None => None,
        }
    }
}

impl Parts {
    /// The part under `(x, y)`, if any.
    pub fn part_at(&self, x: i64, y: i64) -> (r: Option<Part>)
        ensures
            r == self@.part(x as int, y as int),
    {
        match self.slider {
            Some(track) => {
                if track.contains(x, y) {
                    return Some(Part::SliderTrack);
                }
            },
            None => {},
        }
        match hit_index(&self.buttons, x, y) {
            Some(i) => {
                return Some(Part::Button(i));
            },
            None => {},
        }
        match hit_index(&self.boxes, x, y) {
            Some(i) => Some(Part::Box(i)),
            None => None,
        }
    }

    /// The drag position of a slider, as a share of its track. Dragging past an end stays
    /// at that end.
    pub fn slider_fraction(&self, x: i64) -> (r: Option<Fraction>)
        requires
            self.slider is Some ==> self.slider->0.wf(),
            near(x as int),
        ensures
            r == self@.fraction(x as int),
            r is Some ==> r->0.wf(),
    {
        match self.slider {
            Some(track) => {
                let width: i64 = track.width();
                if width <= 0 {
                    return None;
                }
                Some(
                    Fraction {
                        numerator: clamp(x - track.left, 0, width),
                        denominator: width,
                    },
                )
            },
            None => None,
        }
    }
}

/// The top of something `height` tall that is centred in `control`.
pub open spec fn centred(control: Rect, height: int) -> int {
    (control.top + control.bottom - height) / 2
}

/// A box of a fixed height, centred in the row, but never above it.
pub open spec fn boxed(control: Rect, height: int) -> Rect {
    let top = larger(centred(control, height), control.top as int);
    rect(control.left as int, top, control.right as int, top + height)
}

/// The buttons of an action row, from right to left: the first sits at the trailing edge
/// and the row grows leftwards. There are no more than there is room for.
pub open spec fn button_row(control: Rect, m: Metrics, right: int, n: nat) -> Seq<Rect>
    decreases n,
{
    if n == 0 || right <= control.left {
        Seq::empty()
    } else {
        let top = larger(centred(control, m.at(28_000)), control.top as int);
        let left = larger(right - m.at(112_000), control.left as int);
        seq![rect(left, top, right, top + m.at(28_000))] + button_row(
            control,
            m,
            left - m.at(8_000),
            (n - 1) as nat,
        )
    }
}

/// The track of a slider. Its hit area is the full row height even though it is drawn
/// thin.
pub open spec fn track_of(control: Rect, m: Metrics) -> Rect {
    rect(
        control.left as int,
        control.top as int,
        larger(control.right - m.at(56_000) - m.at(8_000), control.left as int),
        control.bottom as int,
    )
}

/// The parts of a row whose control area is `control`.
pub open spec fn parts_of(kind: Kind, control: Rect, m: Metrics) -> PartsModel {
    let none = Seq::<Rect>::empty();
    if control.void() {
        PartsModel { boxes: none, slider: None, buttons: none }
    } else {
        match kind {
            Kind::Switch => {
                let top = larger(centred(control, m.at(23_000)), control.top as int);
                PartsModel {
                    boxes: seq![
                        rect(
                            larger(control.right - m.at(42_000), control.left as int),
                            top,
                            control.right as int,
                            top + m.at(23_000),
                        ),
                    ],
                    slider: None,
                    buttons: none,
                }
            },
            Kind::Slider(_) => {
                let track = track_of(control, m);
                PartsModel {
                    boxes: seq![
                        rect(
                            track.right as int,
                            control.top as int,
                            control.right as int,
                            control.bottom as int,
                        ),
                    ],
                    slider: Some(track),
                    buttons: none,
                }
            },
            Kind::Color => {
                let top = centred(control, m.at(28_000));
                let bottom = top + m.at(28_000);
                let swatch_right = control.left + smaller(m.at(46_000), control.wide());
                PartsModel {
                    boxes: seq![
                        rect(control.left as int, top, swatch_right, bottom),
                        rect(
                            smaller(swatch_right + m.at(8_000), control.right as int),
                            top,
                            control.right as int,
                            bottom,
                        ),
                    ],
                    slider: None,
                    buttons: none,
                }
            },
            Kind::Status(_) => PartsModel {
                boxes: seq![boxed(control, m.at(22_960))],
                slider: None,
                buttons: none,
            },
            Kind::Action(buttons) => PartsModel {
                boxes: none,
                slider: None,
                buttons: button_row(control, m, control.right as int, buttons.list().len()),
            },
            _ => PartsModel {
                boxes: seq![boxed(control, m.at(28_000))],
                slider: None,
                buttons: none,
            },
        }
    }
}

fn centred_top(control: &Rect, height: i64) -> (r: i64)
    requires
        control.wf(),
        0 <= height <= 0x8_0000_0000_0000,
    ensures
        r == centred(*control, height as int),
        -0x1100_0000_0000_0000 <= r <= 0x1100_0000_0000_0000,
{
    half(control.top + control.bottom - height)
}

fn boxed_rect(control: &Rect, height: i64) -> (r: Rect)
    requires
        control.wf(),
        0 <= height <= 0x8_0000_0000_0000,
    ensures
        r == boxed(*control, height as int),
{
    let top: i64 = max(centred_top(control, height), control.top);
    Rect::new(control.left, top, control.right, top + height)
}

/// Work out the interactive rectangles for one row.
pub fn parts(field: &Field, control: &Rect, metrics: &Metrics) -> (r: Parts)
    requires
        control.wf(),
    ensures
        r@ == parts_of(field.kind, *control, *metrics),
{
    let ghost m = *metrics;
    let mut boxes: Vec<Rect> = Vec::new();
    let mut slider: Option<Rect> = None;
    let mut buttons: Vec<Rect> = Vec::new();
    if control.is_empty() {
        return Parts { boxes, slider, buttons };
    }
    match field.kind {
        Kind::Switch => {
            // Right-aligned and only as wide as a switch, so a column of switches lines
            // up down the page.
            let width: i64 = metrics.px(42_000);
            let height: i64 = metrics.px(23_000);
            let top: i64 = max(centred_top(control, height), control.top);
            boxes.push(
                Rect::new(
                    max(control.right - width, control.left),
                    top,
                    control.right,
                    top + height,
                ),
            );
            assert(boxes@ =~= parts_of(field.kind, *control, m).boxes);
        },
        Kind::Slider(_) => {
            // The read-out takes the right, the track the rest.
            let readout: i64 = metrics.px(56_000);
            let track: Rect = Rect::new(
                control.left,
                control.top,
                max(control.right - readout - metrics.px(8_000), control.left),
                control.bottom,
            );
            slider = Some(track);
            boxes.push(Rect::new(track.right, control.top, control.right, control.bottom));
            assert(boxes@ =~= parts_of(field.kind, *control, m).boxes);
        },
        Kind::Color => {
            let height: i64 = metrics.px(28_000);
            let top: i64 = centred_top(control, height);
            // The swatch is clamped to the room available, and the hex box hangs off its
            // actual right edge.
            let swatch: i64 = min(metrics.px(46_000), control.width());
            let swatch_rect: Rect = Rect::new(
                control.left,
                top,
                control.left + swatch,
                top + height,
            );
            boxes.push(swatch_rect);
            let hex_left: i64 = min(swatch_rect.right + metrics.px(8_000), control.right);
            boxes.push(Rect::new(hex_left, top, control.right, top + height));
            assert(boxes@ =~= parts_of(field.kind, *control, m).boxes);
        },
        Kind::Status(_) => {
            // The pill is sized to its own text when it is painted; this box is the space
            // that it has to sit in.
            boxes.push(boxed_rect(control, metrics.px(22_960)));
            assert(boxes@ =~= parts_of(field.kind, *control, m).boxes);
        },
        Kind::Action(list) => {
            let height: i64 = metrics.px(28_000);
            let top: i64 = max(centred_top(control, height), control.top);
            let width: i64 = metrics.px(112_000);
            let gap: i64 = metrics.px(8_000);
            let n: usize = list.buttons().len();
            let mut right: i64 = control.right;
            let mut i: usize = 0;
            assert(buttons@ + button_row(*control, m, right as int, n as nat) =~= button_row(
                *control,
                m,
                right as int,
                n as nat,
            ));
            while i < n && right > control.left
                invariant
                    control.wf(),
                    m == *metrics,
                    height == m.at(28_000),
                    width == m.at(112_000),
                    gap == m.at(8_000),
                    0 <= height <= 28_000 * 0xffff_ffff,
                    0 <= width <= 112_000 * 0xffff_ffff,
                    0 <= gap <= 8_000 * 0xffff_ffff,
                    top == larger(centred(*control, m.at(28_000)), control.top as int),
                    -0x1100_0000_0000_0000 <= top <= 0x1100_0000_0000_0000,
                    0 <= i <= n,
                    control.left - gap <= right <= control.right,
                    buttons@ + button_row(*control, m, right as int, (n - i) as nat) == button_row(
                        *control,
                        m,
                        control.right as int,
                        n as nat,
                    ),
                decreases n - i,
            {
                let left: i64 = max(right - width, control.left);
                let ghost before = buttons@;
                let ghost rest = button_row(*control, m, left - gap, (n - i - 1) as nat);
                let button: Rect = Rect::new(left, top, right, top + height);
                assert(button_row(*control, m, right as int, (n - i) as nat) == seq![button] + rest);
                buttons.push(button);
                assert(before + (seq![button] + rest) =~= buttons@ + rest);
                right = left - gap;
                i = i + 1;
            }
            assert(buttons@ + Seq::<Rect>::empty() =~= buttons@);
        },
        _ => {
            boxes.push(boxed_rect(control, metrics.px(28_000)));
            assert(boxes@ =~= parts_of(field.kind, *control, m).boxes);
        },
    }
    let r: Parts = Parts { boxes, slider, buttons };
    assert(r@ =~= parts_of(field.kind, *control, m));
    r
}

/// Is a rectangle in the column of another, and not inside out?
pub open spec fn in_column(part: Rect, control: Rect) -> bool {
    &&& control.left <= part.left <= part.right <= control.right
    &&& part.top <= part.bottom
}

/// Every button is in the column, and all of them are left of `right`.
proof fn lemma_buttons(control: Rect, m: Metrics, right: int, n: nat)
    requires
        control.wf(),
        control.left - m.at(8_000) <= right <= control.right,
    ensures
        forall|i: int|
            0 <= i < button_row(control, m, right, n).len() ==> in_column(
                #[trigger] button_row(control, m, right, n)[i],
                control,
            ) && button_row(control, m, right, n)[i].right <= right && button_row(
                control,
                m,
                right,
                n,
            )[i].wide() > 0 || m.dpi == 0,
        button_row(control, m, right, n).len() <= n,
    decreases n,
{
    assert(0 <= m.at(28_000) <= 28_000 * 0xffff_ffff && 0 <= m.at(112_000) <= 112_000
        * 0xffff_ffff && 0 <= m.at(8_000) <= 8_000 * 0xffff_ffff && (m.dpi > 0 ==> m.at(112_000)
        > 0)) by (nonlinear_arith)
        requires
            0 <= m.dpi <= 0xffff_ffff,
    ;
    if n > 0 && right > control.left {
        let left = larger(right - m.at(112_000), control.left as int);
        let rest = button_row(control, m, left - m.at(8_000), (n - 1) as nat);
        let all = button_row(control, m, right, n);
        lemma_buttons(control, m, left - m.at(8_000), (n - 1) as nat);
        assert forall|i: int| 0 <= i < all.len() implies in_column(#[trigger] all[i], control)
            && all[i].right <= right && all[i].wide() > 0 || m.dpi == 0 by {
            if i > 0 {
                assert(all[i] == rest[i - 1]);
            }
        }
    }
}

/// No part escapes the control column, however narrow it is, and none is inside out.
pub proof fn no_part_escapes_its_column(kind: Kind, control: Rect, m: Metrics)
    requires
        control.wf(),
        m.dpi > 0,
    ensures
        forall|i: int|
            0 <= i < parts_of(kind, control, m).boxes.len() ==> in_column(
                #[trigger] parts_of(kind, control, m).boxes[i],
                control,
            ),
        forall|i: int|
            0 <= i < parts_of(kind, control, m).buttons.len() ==> in_column(
                #[trigger] parts_of(kind, control, m).buttons[i],
                control,
            ),
        match parts_of(kind, control, m).slider {
            Some(track) => in_column(track, control),
            None => true,
        },
{
    assert(0 <= m.at(28_000) <= 28_000 * 0xffff_ffff && 0 <= m.at(42_000) <= 42_000 * 0xffff_ffff
        && 0 <= m.at(8_000) <= 8_000 * 0xffff_ffff && 0 <= m.at(46_000) <= 46_000 * 0xffff_ffff
        && 0 <= m.at(56_000) <= 56_000 * 0xffff_ffff && 0 <= m.at(22_960) <= 22_960 * 0xffff_ffff
        && 0 <= m.at(23_000) <= 23_000 * 0xffff_ffff) by (nonlinear_arith)
        requires
            0 <= m.dpi <= 0xffff_ffff,
    ;
    match kind {
        Kind::Action(buttons) => {
            if !control.void() {
                lemma_buttons(control, m, control.right as int, buttons.list().len());
            }
        },
        _ => {},
    }
}

/// The track of a slider ends before its read-out begins, and a point on the track is on
/// the track, never on the read-out.
pub proof fn the_slider_wins_over_its_readout(control: Rect, m: Metrics, kind: Kind, x: int, y: int)
    requires
        control.wf(),
        !control.void(),
        kind is Slider,
        parts_of(kind, control, m).slider->0.holds(x, y),
    ensures
        parts_of(kind, control, m).slider->0.right <= parts_of(kind, control, m).boxes[0].left,
        parts_of(kind, control, m).part(x, y) == Some(Part::SliderTrack),
        !parts_of(kind, control, m).boxes[0].holds(x, y),
{
}

/// Buttons never overlap: each ends a gap before the one to its right begins.
pub proof fn buttons_never_overlap(control: Rect, m: Metrics, right: int, n: nat, i: int, j: int)
    requires
        control.wf(),
        m.dpi > 0,
        control.left - m.at(8_000) <= right <= control.right,
        0 <= i < j < button_row(control, m, right, n).len(),
    ensures
        button_row(control, m, right, n)[j].right + m.at(8_000) <= button_row(
            control,
            m,
            right,
            n,
        )[i].left,
    decreases n,
{
    assert(0 <= m.at(112_000) <= 112_000 * 0xffff_ffff && 0 < m.at(8_000) <= 8_000 * 0xffff_ffff)
        by (nonlinear_arith)
        requires
            0 < m.dpi <= 0xffff_ffff,
    ;
    let left = larger(right - m.at(112_000), control.left as int);
    let rest = button_row(control, m, left - m.at(8_000), (n - 1) as nat);
    let all = button_row(control, m, right, n);
    if i == 0 {
        lemma_buttons(control, m, left - m.at(8_000), (n - 1) as nat);
        assert(all[j] == rest[j - 1]);
    } else {
        buttons_never_overlap(control, m, left - m.at(8_000), (n - 1) as nat, i - 1, j - 1);
        assert(all[i] == rest[i - 1]);
        assert(all[j] == rest[j - 1]);
    }
}

/// The ends of a track are none and all of it, and dragging past them stays there.
pub proof fn a_track_maps_onto_its_range(parts: PartsModel, x: int)
    requires
        parts.slider is Some,
        parts.slider->0.wf(),
        parts.slider->0.wide() > 0,
        near(x),
    ensures
        parts.fraction(x) is Some,
        parts.fraction(x)->0.wf(),
        x <= parts.slider->0.left ==> parts.fraction(x)->0.numerator == 0,
        x >= parts.slider->0.right ==> parts.fraction(x)->0.numerator == parts.fraction(
            x,
        )->0.denominator,
{
}

/// Every row has something where a part can be: a row of any kind in a control area that
/// is not empty.
pub proof fn every_row_has_a_part(kind: Kind, control: Rect, m: Metrics)
    requires
        !control.void(),
        kind is Action ==> kind->Action_0.list().len() > 0,
    ensures
        ({
            let parts = parts_of(kind, control, m);
            parts.boxes.len() > 0 || parts.slider is Some || parts.buttons.len() > 0
        }),
{
}

/// The rectangle that is hit is the first that holds the point; where none is hit, none holds
/// it.
pub proof fn the_first_holder_is_hit(rects: Seq<Rect>, x: int, y: int)
    ensures
        match hit(rects, x, y) {
            Some(i) => {
                &&& 0 <= i < rects.len()
                &&& rects[i].left <= x < rects[i].right && rects[i].top <= y < rects[i].bottom
                &&& forall|k: int| 0 <= k < i ==> !(#[trigger] rects[k]).holds(x, y)
            },
            None => forall|k: int| 0 <= k < rects.len() ==> !(#[trigger] rects[k]).holds(x, y),
        },
    decreases rects.len(),
{
    if rects.len() > 0 {
        let before = rects.drop_last();
        the_first_holder_is_hit(before, x, y);
        assert forall|k: int| 0 <= k < before.len() implies before[k] == rects[k] by {}
    }
}

/// The place of a point on a track is how far it is from the left end, of the whole length.
pub proof fn a_place_is_measured_from_the_left(parts: PartsModel, x: int)
    requires
        parts.slider is Some,
        parts.slider->0.wf(),
        parts.slider->0.left < parts.slider->0.right,
        parts.slider->0.left <= x <= parts.slider->0.right,
    ensures
        parts.fraction(x) matches Some(at) && at.numerator == x - parts.slider->0.left
            && at.denominator == parts.slider->0.right - parts.slider->0.left,
{
}

/// Where the parts of a row lie, in a control column that has room for them: a switch at its
/// right end, forty-two by twenty-three; the track of a slider from its left end, the read-out
/// in the last fifty-six units; the swatch of a colour at its left end with the box beside it;
/// any other box across the whole column, twenty-eight tall and in the middle.
#[verifier::spinoff_prover]
pub proof fn parts_lie_in_their_column(kind: Kind, control: Rect, m: Metrics)
    requires
        control.wf(),
        m.dpi > 0,
        control.right - control.left >= 200_000 * m.dpi,
        control.bottom - control.top >= 28_000 * m.dpi,
    ensures
        ({
            let parts = parts_of(kind, control, m);
            let unit = 1_000 * m.dpi;
            &&& kind is Switch ==> parts.boxes.len() == 1 && parts.boxes[0].right == control.right
                && parts.boxes[0].left == control.right - 42 * unit && parts.boxes[0].bottom
                - parts.boxes[0].top == 23 * unit && parts.slider is None
            &&& kind is Slider ==> (parts.slider matches Some(track) && track.left == control.left
                && track.right == control.right - 64 * unit && track.top == control.top
                && track.bottom == control.bottom && parts.boxes.len() == 1 && parts.boxes[0].left
                == track.right && parts.boxes[0].right == control.right)
            &&& kind is Color ==> parts.boxes.len() == 2 && parts.boxes[0].left == control.left
                && parts.boxes[0].right == control.left + 46 * unit && parts.boxes[1].left
                == parts.boxes[0].right + 8 * unit && parts.boxes[1].right == control.right
                && parts.slider is None
            &&& kind is Select || kind is Number || kind is Text || kind is Hotkey
                ==> parts.boxes.len() == 1 && parts.boxes[0].left == control.left
                && parts.boxes[0].right == control.right && parts.boxes[0].bottom
                - parts.boxes[0].top == 28 * unit && parts.slider is None
            &&& !(kind is Action) ==> parts.buttons.len() == 0
            &&& kind is Action ==> parts.boxes.len() == 0 && parts.slider is None
        }),
{
    assert(0 < m.dpi <= 0xffff_ffff);
}

/// The buttons of an action row are a hundred and twelve wide and twenty-eight tall, the first
/// at the right end of the column and each other one eight units to the left of the one
/// before.
pub proof fn buttons_grow_leftwards(control: Rect, m: Metrics, right: int, n: nat)
    requires
        control.wf(),
        m.dpi > 0,
        n > 0,
        control.left + 112_000 * m.dpi <= right <= control.right,
    ensures
        ({
            let all = button_row(control, m, right, n);
            &&& all.len() >= 1
            &&& all[0].right == right
            &&& all[0].left == right - 112_000 * m.dpi
            &&& all[0].bottom - all[0].top == 28_000 * m.dpi
            &&& n > 1 && control.left + 232_000 * m.dpi <= right ==> all.len() >= 2 && all[1].right
                == all[0].left - 8_000 * m.dpi
        }),
{
    let left = right - 112_000 * m.dpi;
    let rest = button_row(control, m, left - m.at(8_000), (n - 1) as nat);
    assert(button_row(control, m, right, n).drop_first() =~= rest);
    if n > 1 && control.left + 232_000 * m.dpi <= right {
        assert(rest.len() >= 1);
        assert(button_row(control, m, right, n)[1] == rest[0]);
    }
}

} // verus!
