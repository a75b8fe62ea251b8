//! Pinned images.

use winbeautify::number::Factor;
use winbeautify::snip::capture::Shot;
use winbeautify::snip::pin::{
    close_all, close_fingerprint, is_pinned, on_change, pin, pinned, Pin, PinMessage, PinOp,
    Registry, CLOSE_SIZE, KEY_C, KEY_DELETE, KEY_RIGHT, MAX_SCALE, MIN_SCALE, SCALE_ONE,
    ZOOM_STEP,
};

fn shot(width: i32, height: i32) -> Shot {
    Shot { width, height, bgra: vec![0; width as usize * height as usize * 4] }
}

fn pin_with(scale: u32, width: i32, height: i32) -> Pin {
    Pin {
        shot: shot(width, height),
        scale,
        frame: None,
        frame_size: (0, 0),
        image_drawn: false,
        dragging: None,
        hover_close: false,
        attached: true,
    }
}

#[test]
fn the_zoom_limits_are_sane() {
    assert!(MIN_SCALE > 0 && MIN_SCALE < SCALE_ONE);
    assert!(MAX_SCALE > SCALE_ONE);
    assert!(ZOOM_STEP > SCALE_ONE);
}

#[test]
fn dismissing_with_no_pins_is_harmless() {
    let mut registry = Registry::new();
    close_all(&mut registry);
    assert!(pinned(&registry).is_empty());
    assert!(close_fingerprint(&mut registry, 1234).is_none());
    assert!(!is_pinned(&registry, 1234));
}

#[test]
fn the_window_size_follows_the_zoom() {
    assert_eq!(pin_with(SCALE_ONE, 100, 50).wanted_size(), (100, 50));
    assert_eq!(pin_with(2 * SCALE_ONE, 100, 50).wanted_size(), (200, 100));
    assert_eq!(pin_with(SCALE_ONE / 2, 100, 50).wanted_size(), (50, 25));
    // A tiny zoom on a tiny capture must still leave a window to draw in.
    let smallest = pin_with(MIN_SCALE, 4, 4).wanted_size();
    assert!(smallest.0 >= 1 && smallest.1 >= 1);
}

#[test]
fn the_close_button_sits_in_the_corner_and_shrinks_to_fit() {
    let mut pin = pin_with(SCALE_ONE, 400, 300);
    pin.frame_size = (400, 300);
    let button = pin.close_button();
    assert!(button.right <= 400 && button.top >= 0);
    assert!(button.right - button.left > 8, "it has to be clickable");
    // A pin of a few pixels still gets a button that fits inside it.
    pin.frame_size = (12, 12);
    let tiny = pin.close_button();
    assert!(tiny.right <= 12 && tiny.bottom <= 12);
}

#[test]
fn the_capture_is_never_resampled_in_place() {
    // Scaling happens at blit time, so the stored pixels stay exactly as captured however
    // far the zoom is pushed.
    let mut pin = pin_with(3 * SCALE_ONE, 8, 4);
    assert_eq!((pin.shot.width, pin.shot.height), (8, 4));
    assert_eq!(pin.shot.bgra.len(), 8 * 4 * 4);
    pin.zoom(Factor { numerator: 11, denominator: 10 }, None, (0, 0));
    assert_eq!(pin.shot.bgra.len(), 8 * 4 * 4);
}

#[test]
fn the_registry_knows_what_is_on_screen() {
    let mut registry = Registry::default();
    registry.opened(7, 70);
    registry.opened(8, 80);
    registry.opened(7, 71);
    assert_eq!(pinned(&registry), vec![7, 8, 7]);
    assert!(is_pinned(&registry, 8));
    // The first pin of an image goes first.
    assert_eq!(close_fingerprint(&mut registry, 7), Some(70));
    assert_eq!(pinned(&registry), vec![8, 7]);
    registry.closed(80);
    assert_eq!(pinned(&registry), vec![7]);
    assert_eq!(registry.announce(), None);
    on_change(&mut registry, 5);
    assert_eq!(registry.announce(), Some(5));
    assert_eq!(close_all(&mut registry), vec![71]);
    assert!(pinned(&registry).is_empty());
}

#[test]
fn a_pin_opens_at_its_own_size() {
    let (opened, place) = pin(shot(30, 20), Some((-5, 8)), (100, 100));
    assert_eq!((place.x, place.y, place.width, place.height), (-5, 8, 30, 20));
    assert_eq!(opened.scale, SCALE_ONE);
    let (_, place) = pin(shot(30, 20), None, (100, 90));
    assert_eq!((place.width, place.height), (30, 20));
}

#[test]
fn the_zoom_stays_in_its_limits() {
    let mut pin = pin_with(MAX_SCALE, 10, 10);
    assert_eq!(pin.zoom(Factor { numerator: 2, denominator: 1 }, None, (0, 0)), None);
    assert_eq!(pin.scale, MAX_SCALE);
    let mut pin = pin_with(SCALE_ONE, 100, 100);
    let place = pin.zoom(Factor { numerator: 2, denominator: 1 }, Some((50, 50)), (0, 0)).unwrap();
    assert_eq!(pin.scale, 2 * SCALE_ONE);
    assert_eq!((place.width, place.height), (200, 200));
    // What was under the pointer stays there.
    assert_eq!((place.x, place.y), (-50, -50));
}

#[test]
fn the_frame_is_rebuilt_only_when_the_size_changes() {
    let mut pin = pin_with(SCALE_ONE, 40, 30);
    assert!(pin.needs_frame((40, 30)));
    assert!(pin.paint().is_empty(), "nothing to draw in yet");
    assert_eq!(pin.frame((40, 30), true), Some((40, 30)));
    assert!(!pin.needs_frame((40, 30)));
    let ops = pin.paint();
    assert_eq!(ops[0], PinOp::Image { width: 40, height: 30 });
    assert!(pin.image_drawn);
    let ops = pin.paint();
    assert!(!ops.contains(&PinOp::Image { width: 40, height: 30 }), "the picture is still there");
}

#[test]
fn the_pins_window_answers_its_messages() {
    let mut pin = pin_with(SCALE_ONE, 100, 80);
    pin.frame((100, 80), true);
    let button = pin.close_button();
    assert_eq!(button.right - button.left, CLOSE_SIZE);
    assert!(pin.window_proc(PinMessage::ButtonDown { x: button.left, y: button.top }).close);
    let down = pin.window_proc(PinMessage::ButtonDown { x: 10, y: 40 });
    assert!(down.capture && !down.close);
    let moved = pin.window_proc(PinMessage::MouseMove { x: 13, y: 38 });
    assert_eq!(moved.move_by, Some((3, -2)));
    assert!(pin.window_proc(PinMessage::ButtonUp).release);
    assert_eq!(pin.dragging, None);
    let copied =
        pin.window_proc(PinMessage::KeyDown { key: KEY_C, shift: false, control: true });
    assert!(copied.copy);
    let nudged =
        pin.window_proc(PinMessage::KeyDown { key: KEY_RIGHT, shift: false, control: false });
    assert_eq!(nudged.move_by, Some((1, 0)));
    let deleted =
        pin.window_proc(PinMessage::KeyDown { key: KEY_DELETE, shift: false, control: false });
    assert!(deleted.close);
    assert!(pin.window_proc(PinMessage::DoubleClick).close);
    let gone = pin.window_proc(PinMessage::Destroy);
    assert!(gone.quit && !pin.attached);
}
