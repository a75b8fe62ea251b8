//! Rectangles, and the parts of a row that input can land on.

use winbeautify::settings::controls::{parts, Fraction, Part};
use winbeautify::settings::geom::{clamp, Rect, PIXEL};
use winbeautify::settings::layout::Metrics;
use winbeautify::settings::schema::{sections, Field, Kind};

/// A rectangle, in pixels.
fn rect(left: i64, top: i64, right: i64, bottom: i64) -> Rect {
    Rect::new(left * PIXEL, top * PIXEL, right * PIXEL, bottom * PIXEL)
}

fn metrics() -> Metrics {
    Metrics::new(96)
}

fn control() -> Rect {
    rect(500, 100, 740, 128)
}

fn all_fields() -> Vec<Field> {
    let mut out = Vec::new();
    for section in sections() {
        for card in section.cards {
            for field in card.fields {
                out.push(field);
            }
        }
    }
    out
}

fn field_with_path(path: &str) -> Field {
    all_fields()
        .into_iter()
        .find(|field| field.path == path)
        .unwrap_or_else(|| panic!("no field for {path}"))
}

#[test]
fn every_row_produces_something_to_click() {
    let (m, control) = (metrics(), control());
    for field in all_fields() {
        let parts = parts(&field, &control, &m);
        assert!(
            !parts.boxes.is_empty() || parts.slider.is_some() || !parts.buttons.is_empty(),
            "field {:?} produced no interactive area",
            field.label
        );
    }
}

#[test]
fn no_part_escapes_the_control_column() {
    let (m, control) = (metrics(), control());
    for field in all_fields() {
        let parts = parts(&field, &control, &m);
        for rect in parts.boxes.iter().chain(parts.buttons.iter()) {
            assert!(rect.width() > 0 && rect.height() > 0, "{:?}", field.path);
            assert!(rect.right <= control.right, "{:?} overflows", field.path);
            assert!(rect.left >= control.left, "{:?} underflows", field.path);
        }
    }
}

#[test]
fn a_switch_is_switch_sized_and_right_aligned() {
    let (m, control) = (metrics(), control());
    let parts = parts(&field_with_path("taskbar.enabled"), &control, &m);
    assert_eq!(parts.boxes.len(), 1);
    assert_eq!(parts.boxes[0].width(), m.switch_width());
    assert_eq!(parts.boxes[0].height(), m.switch_height());
    assert_eq!(parts.boxes[0].right, control.right);
}

#[test]
fn a_slider_track_and_readout_do_not_overlap() {
    let (m, control) = (metrics(), control());
    let parts = parts(&field_with_path("widget.opacity"), &control, &m);
    let track = parts.slider.expect("a track");
    assert!(track.right <= parts.boxes[0].left);
    assert!(track.width() > parts.boxes[0].width());
    // The hit area is the row height, not the drawn line.
    assert_eq!(track.height(), control.height());
}

#[test]
fn a_colour_row_has_a_swatch_and_a_hex_box() {
    let (m, control) = (metrics(), control());
    let parts = parts(&field_with_path("ui.accent"), &control, &m);
    assert_eq!(parts.boxes.len(), 2);
    assert_eq!(parts.boxes[0].width(), m.color_swatch_width());
    assert!(parts.boxes[1].left > parts.boxes[0].right);
}

#[test]
fn action_buttons_do_not_overlap_and_can_be_hit() {
    let (m, control) = (metrics(), control());
    let action = all_fields()
        .into_iter()
        .find(|field| matches!(field.kind, Kind::Action(_)))
        .expect("an action row");
    let parts = parts(&action, &control, &m);
    let expected = match action.kind {
        Kind::Action(buttons) => buttons.buttons().len(),
        _ => 0,
    };
    assert_eq!(parts.buttons.len(), expected);
    assert_eq!(parts.buttons[0].right, control.right);
    for pair in parts.buttons.windows(2) {
        assert!(pair[1].right < pair[0].left, "buttons must not overlap");
    }

    let first = parts.buttons[0];
    let center = ((first.left + first.right) / 2, first.center_y());
    assert_eq!(parts.part_at(center.0, center.1), Some(Part::Button(0)));
}

#[test]
fn the_slider_wins_over_boxes_that_share_its_rows() {
    let (m, control) = (metrics(), control());
    let parts = parts(&field_with_path("widget.opacity"), &control, &m);
    let track = parts.slider.unwrap();
    assert_eq!(
        parts.part_at(track.left + 5 * PIXEL, track.center_y()),
        Some(Part::SliderTrack)
    );
    assert_eq!(parts.part_at(control.left - 40 * PIXEL, control.center_y()), None);
}

fn share(fraction: Option<Fraction>) -> Option<f64> {
    fraction.map(|f| f.numerator as f64 / f.denominator as f64)
}

#[test]
fn a_slider_fraction_maps_the_track_ends_to_zero_and_one() {
    let (m, control) = (metrics(), control());
    let parts = parts(&field_with_path("widget.opacity"), &control, &m);
    let track = parts.slider.unwrap();
    assert_eq!(share(parts.slider_fraction(track.left)), Some(0.0));
    assert_eq!(share(parts.slider_fraction(track.right)), Some(1.0));
    assert!(
        (share(parts.slider_fraction((track.left + track.right) / 2)).unwrap() - 0.5).abs() < 0.01
    );
    // Dragging past the end clamps rather than overshooting the range.
    assert_eq!(share(parts.slider_fraction(track.left - 500 * PIXEL)), Some(0.0));
    assert_eq!(share(parts.slider_fraction(track.right + 500 * PIXEL)), Some(1.0));
}

#[test]
fn a_squeezed_control_lays_out_without_inverting() {
    let m = metrics();
    let tiny = rect(0, 0, 10, 20);
    for field in all_fields() {
        let parts = parts(&field, &tiny, &m);
        for rect in parts.boxes.iter().chain(parts.buttons.iter()) {
            assert!(rect.width() >= 0 && rect.height() >= 0, "{:?}", field.path);
        }
        if let Some(track) = parts.slider {
            assert!(track.width() >= 0);
        }
    }
}

#[test]
fn an_empty_control_yields_nothing() {
    let parts = parts(&field_with_path("ui.accent"), &Rect::nowhere(), &metrics());
    assert!(parts.boxes.is_empty() && parts.slider.is_none() && parts.buttons.is_empty());
}

#[test]
fn a_squeezed_track_has_no_share() {
    let parts = parts(&field_with_path("widget.opacity"), &rect(0, 0, 10, 20), &metrics());
    assert_eq!(parts.slider_fraction(3 * PIXEL), None);
    // The read-out is then the whole box.
    assert_eq!(parts.boxes[0], rect(0, 0, 10, 20));
    assert_eq!(parts.part_at(3 * PIXEL, 4 * PIXEL), Some(Part::Box(0)));
}

#[test]
fn contains_is_half_open() {
    let r = rect(10, 10, 20, 20);
    let tenth = PIXEL / 10;
    assert!(r.contains(10 * PIXEL, 10 * PIXEL));
    assert!(r.contains(199 * tenth, 199 * tenth));
    assert!(!r.contains(20 * PIXEL, 15 * PIXEL), "the right edge belongs to the next cell");
    assert!(!r.contains(15 * PIXEL, 20 * PIXEL));
    assert!(!r.contains(99 * tenth, 15 * PIXEL));
}

#[test]
fn an_empty_rectangle_contains_nothing() {
    assert!(!Rect::nowhere().contains(0, 0));
    assert!(Rect::nowhere().is_empty());
    assert!(rect(0, 0, 0, 10).is_empty());
}

#[test]
fn insetting_cannot_turn_a_rectangle_inside_out() {
    let r = rect(0, 0, 4, 4);
    let squashed = r.inset(10 * PIXEL, 10 * PIXEL);
    assert_eq!(squashed.width(), 0);
    assert!(squashed.height() >= 0);
}

#[test]
fn taking_a_strip_leaves_the_rest_alone() {
    let r = rect(0, 0, 100, 50);
    let left = r.take_left(30 * PIXEL);
    assert_eq!(left.right, 30 * PIXEL);
    assert_eq!(left.height(), 50 * PIXEL);
    let right = r.right_part(40 * PIXEL);
    assert_eq!(right.left, 60 * PIXEL);
    assert_eq!(right.right, 100 * PIXEL);
    // Asking for more than there is clamps rather than inverting.
    assert_eq!(r.take_left(500 * PIXEL).right, 100 * PIXEL);
    assert_eq!(r.right_part(500 * PIXEL).left, 0);
}

#[test]
fn clipping_bounds_a_row_to_the_viewport() {
    let row = rect(0, -20, 100, 30);
    let viewport = rect(0, 0, 100, 200);
    let visible = row.clipped_to(&viewport);
    assert_eq!(visible.top, 0);
    assert_eq!(visible.bottom, 30 * PIXEL);
    // A row entirely above the viewport has no visible area.
    assert!(rect(0, -50, 100, -10).clipped_to(&viewport).is_empty());
}

#[test]
fn clamping_handles_an_inverted_range() {
    assert_eq!(clamp(5, 10, 0), 10);
    assert_eq!(clamp(-5, 0, 10), 0);
    assert_eq!(clamp(15, 0, 10), 10);
    assert_eq!(clamp(5, 0, 10), 5);
}

#[test]
fn neighbouring_rectangles_share_no_point() {
    let left = rect(0, 0, 10, 10);
    let right = rect(10, 0, 20, 10);
    assert!(!left.contains(10 * PIXEL, 5 * PIXEL));
    assert!(right.contains(10 * PIXEL, 5 * PIXEL));
    assert_eq!(left.shifted(3 * PIXEL), rect(0, 3, 10, 13));
    assert_eq!(left.center_x(), 5 * PIXEL);
    assert_eq!(left.take_top(4 * PIXEL), rect(0, 0, 10, 4));
}
