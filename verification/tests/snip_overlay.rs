//! The region selector.

use winbeautify::geometry::{point_of, size_of, ScreenRect};
use winbeautify::snip::area::{
    badge_origin, border_bands, changed_strips, intersects, overlap, Area,
};
use winbeautify::snip::capture::Shot;
use winbeautify::snip::frame::{compose_picture, copy_rows, expand, pixel_at};
use winbeautify::snip::overlay::{
    badge_plate, begin, crosshair, hint_area, keyboard_hook, label_text, magnifier_area,
    magnifier_source_and_patch, measured_text, open, repaint, run, Captured, DrawOp, Failure,
    Finished, HookAction, Label, Message, Session, Surroundings, KEY_ESCAPE, KEY_RETURN,
    TIMER_ASSERT,
};
use winbeautify::snip::Options;

fn box_at(l: i32, t: i32, r: i32, b: i32) -> Area {
    Area { left: l, top: t, right: r, bottom: b }
}

/// A region copy has to land on the rows that were asked for.
#[test]
fn a_region_copy_lands_on_the_rows_it_was_asked_for() {
    const W: i32 = 8;
    const H: i32 = 16;
    // Every row carries its own index in the blue channel.
    let mut shot = Shot { width: W, height: H, bgra: vec![0; (W * H * 4) as usize] };
    for y in 0..H {
        for x in 0..W {
            let at = ((y * W + x) * 4) as usize;
            shot.bgra[at] = y as u8;
            shot.bgra[at + 3] = 0xFF;
        }
    }

    let mut frame = vec![0u8; (W * H * 4) as usize];
    let area = Area { left: 0, top: 4, right: W, bottom: 12 };
    copy_rows(&shot, area, &mut frame, W, Area { left: 0, top: 0, right: W, bottom: H });

    let blue = |y: i32| frame[(y * W * 4) as usize];
    for y in area.top..area.bottom {
        assert_eq!(blue(y), y as u8, "row {y} of the frame holds row {} of the shot", blue(y));
    }
    // Rows the copy did not ask for stay untouched.
    assert_eq!(blue(0), 0);
    assert_eq!(blue(15), 0);
}

/// A copy clipped to a strip only touches that strip.
#[test]
fn a_copy_stays_inside_its_clip() {
    let shot = Shot { width: 4, height: 4, bgra: vec![0xAA; (4 * 4 * 4) as usize] };
    let mut frame = vec![0u8; (4 * 4 * 4) as usize];
    copy_rows(&shot, box_at(0, 0, 4, 4), &mut frame, 4, box_at(1, 2, 3, 4));
    let at = |x: i32, y: i32| frame[((y * 4 + x) * 4) as usize];
    assert_eq!(at(0, 0), 0, "outside the clip");
    assert_eq!(at(1, 2), 0xAA, "inside the clip");
    assert_eq!(at(2, 2), 0xAA);
    assert_eq!(at(3, 3), 0, "the clip's right edge is exclusive");
    assert_eq!(at(0, 3), 0);
}

/// The magnifier blows up exactly the pixels it was asked for, in order.
#[test]
fn the_magnifier_expands_the_sampled_patch_in_order() {
    const W: i32 = 4;
    let mut shot = Shot { width: W, height: W, bgra: vec![0; (W * W * 4) as usize] };
    for y in 0..W {
        for x in 0..W {
            let at = ((y * W + x) * 4) as usize;
            shot.bgra[at] = y as u8;
            shot.bgra[at + 1] = x as u8;
            shot.bgra[at + 3] = 0xFF;
        }
    }
    // 2×2 source (1,1)..(3,3) blown up 4× into an 8×8 frame.
    let mut frame = vec![0u8; (8 * 8 * 4) as usize];
    expand(
        &shot,
        box_at(1, 1, 3, 3),
        box_at(0, 0, 8, 8),
        &mut frame,
        8,
        box_at(0, 0, 8, 8),
    );
    let at = |x: i32, y: i32| {
        (frame[((y * 8 + x) * 4) as usize], frame[((y * 8 + x) * 4 + 1) as usize])
    };
    assert_eq!(at(0, 0), (1, 1), "top-left is the source's top-left");
    assert_eq!(at(7, 0), (1, 2), "top-right is the source's top-right");
    assert_eq!(at(0, 7), (2, 1), "bottom-left is the source's bottom-left");
    assert_eq!(at(7, 7), (2, 2));
    assert_eq!(at(4, 6), (2, 2), "the middle switches where the samples do");
}

/// A magnifier patch clipped by the strip it is being composed into shows the part of the
/// picture that belongs at those coordinates, not the patch's own top-left corner.
#[test]
fn an_expansion_clipped_at_the_top_keeps_its_sample_mapping() {
    const W: i32 = 2;
    let mut shot = Shot { width: W, height: W, bgra: vec![0; (W * W * 4) as usize] };
    for y in 0..W {
        for x in 0..W {
            let at = ((y * W + x) * 4) as usize;
            shot.bgra[at] = y as u8;
            shot.bgra[at + 1] = x as u8;
        }
    }
    // 2×2 source into a 4×4 destination, but only the destination's bottom half is
    // composed.
    let mut frame = vec![0u8; (4 * 4 * 4) as usize];
    expand(
        &shot,
        box_at(0, 0, 2, 2),
        box_at(0, 0, 4, 4),
        &mut frame,
        4,
        box_at(0, 2, 4, 4),
    );
    let at = |x: i32, y: i32| {
        (frame[((y * 4 + x) * 4) as usize], frame[((y * 4 + x) * 4 + 1) as usize])
    };
    assert_eq!(at(0, 2), (1, 0), "destination row 2 samples source row 1");
    assert_eq!(at(2, 3), (1, 1));
    assert_eq!(at(0, 0), (0, 0), "the clipped-off half stays untouched");
}

/// Every pixel of `a` and `b` that belongs to only one of them has to be inside one of the
/// strips.
fn covered_by(strips: &[Area], a: Area, b: Area) -> usize {
    let mut missed = 0;
    for y in 0..40 {
        for x in 0..40 {
            let in_a = a.contains(x, y);
            let in_b = b.contains(x, y);
            if in_a == in_b {
                continue;
            }
            if !strips.iter().any(|s| s.contains(x, y)) {
                missed += 1;
            }
        }
    }
    missed
}

#[test]
fn the_strips_cover_where_two_selections_differ() {
    let cases = [
        // Growing down-right, one step at a time.
        (box_at(10, 10, 20, 20), box_at(10, 10, 22, 22)),
        // Growing up-left (the drag went the other way).
        (box_at(10, 10, 20, 20), box_at(6, 7, 20, 20)),
        // Shrinking back.
        (box_at(6, 7, 20, 20), box_at(10, 10, 20, 20)),
        // Disjoint: a drag that jumped.
        (box_at(2, 2, 8, 8), box_at(20, 20, 30, 30)),
        // Unchanged: nothing to compose.
        (box_at(10, 10, 20, 20), box_at(10, 10, 20, 20)),
        // One of them empty, both ways.
        (box_at(10, 10, 20, 20), Area::nowhere()),
        (Area::nowhere(), box_at(10, 10, 20, 20)),
    ];
    for (a, b) in cases {
        // No padding: the question is only about the difference itself.
        let strips = changed_strips(a, b, 0, 100, 100);
        assert_eq!(
            covered_by(&strips, a, b),
            0,
            "{a:?} -> {b:?} left pixels uncovered: {strips:?}"
        );
    }
}

#[test]
fn a_small_drag_only_composes_the_edge_that_moved() {
    let big = box_at(0, 0, 1400, 900);
    let nudged = box_at(0, 0, 1410, 900);
    let strips = changed_strips(big, nudged, 8, 4000, 2000);
    let composed: i64 = strips.iter().map(|s| s.width() as i64 * s.height() as i64).sum();
    let whole = big.width() as i64 * big.height() as i64;
    assert!(
        composed * 20 < whole,
        "a ten-pixel nudge composed {composed} of {whole} pixels"
    );
}

#[test]
fn an_unchanged_selection_composes_nothing() {
    let same = box_at(10, 10, 200, 200);
    assert!(changed_strips(same, same, 8, 1000, 1000).is_empty());
}

#[test]
fn a_drag_normalises_whichever_way_it_went() {
    let down = Area::from_drag((100, 80), (20, 10));
    let up = Area::from_drag((20, 10), (100, 80));
    assert_eq!(down, up);
    assert_eq!((down.left, down.top, down.right, down.bottom), (20, 10, 100, 80));
    assert_eq!((down.width(), down.height()), (80, 70));
}

#[test]
fn a_click_without_a_drag_is_not_a_selection() {
    assert!(!Area::from_drag((50, 50), (50, 50)).is_usable());
    assert!(!Area::from_drag((50, 50), (51, 50)).is_usable());
    assert!(Area::from_drag((50, 50), (52, 52)).is_usable());
}

#[test]
fn a_drag_past_the_edge_is_clamped_not_inverted() {
    let area = Area::from_drag((10, 10), (-40, -40)).clamped(200, 100);
    assert_eq!((area.left, area.top, area.right, area.bottom), (0, 0, 10, 10));
    let area = Area::from_drag((190, 90), (900, 900)).clamped(200, 100);
    assert_eq!((area.left, area.top, area.right, area.bottom), (190, 90, 200, 100));
}

#[test]
fn the_frame_is_four_bands_that_leave_the_middle_alone() {
    let selection = box_at(10, 20, 110, 90);
    let bands = border_bands(selection, 2);
    // The middle of the selection is in none of them, so the captured pixels there are
    // never overdrawn by our own chrome.
    assert!(bands.iter().all(|band| !band.contains(60, 50)));
    // …but every edge is: the frame is drawn outside the selection, so the bright area
    // equals what will be captured.
    assert!(bands.iter().any(|band| band.contains(8, 50)), "left band");
    assert!(bands.iter().any(|band| band.contains(111, 50)), "right band");
    assert!(bands.iter().any(|band| band.contains(60, 18)), "top band");
    assert!(bands.iter().any(|band| band.contains(60, 91)), "bottom band");
    assert!(
        bands.iter().all(|band| {
            band.right <= selection.left
                || band.left >= selection.right
                || band.bottom <= selection.top
                || band.top >= selection.bottom
        }),
        "no band may cover a pixel of the selection"
    );
}

#[test]
fn the_badge_flips_above_or_below_whichever_fits() {
    let roomy = box_at(100, 300, 400, 500);
    let (_, top) = badge_origin(roomy, (70, 24), (1920, 1080));
    assert!(top < roomy.top, "there is room above, so it goes there");

    let at_the_top = box_at(100, 4, 400, 200);
    let (_, top) = badge_origin(at_the_top, (70, 24), (1920, 1080));
    assert!(top > at_the_top.bottom, "no room above, so it flips below");
}

#[test]
fn the_badge_stays_inside_the_window() {
    let at_the_edge = box_at(1880, 100, 1920, 200);
    let (left, _) = badge_origin(at_the_edge, (70, 24), (1920, 1080));
    assert!(left + 70 <= 1920, "the badge must not run off the right edge");
    assert!(left >= 0);
}

#[test]
fn areas_meet_where_they_overlap() {
    assert_eq!(overlap(box_at(0, 0, 10, 10), box_at(5, 6, 20, 20)), Some(box_at(5, 6, 10, 10)));
    assert_eq!(overlap(box_at(0, 0, 10, 10), box_at(10, 0, 20, 10)), None);
    assert!(intersects(box_at(0, 0, 10, 10), box_at(9, 9, 20, 20)));
    assert!(!intersects(box_at(0, 0, 10, 10), box_at(10, 9, 20, 20)));
    assert_eq!(box_at(5, 5, 8, 8).inflated(10, 12, 100), box_at(0, 0, 12, 18));
    assert!(Area::nowhere().is_empty());
    let strips = vec![box_at(-5, -5, 3, 3), box_at(20, 20, 30, 30)];
    assert_eq!(repaint(&strips, 10, 10), vec![box_at(0, 0, 3, 3)]);
}

#[test]
fn a_mouse_message_carries_signed_halves() {
    assert_eq!(point_of(0x0005_0003), (3, 5));
    assert_eq!(point_of(0xFFFF_FFFE), (-2, -1));
    assert_eq!(point_of(-1), (-1, -1));
    assert_eq!(size_of(0xFFFF_8000), (0x8000, 0xFFFF));
}

#[test]
fn only_one_selector_runs_at_a_time() {
    let mut active = false;
    assert!(begin(&mut active));
    assert!(!begin(&mut active));
    assert!(matches!(run(false, Err(Failure::Cancelled)), Finished::Refused));
    assert!(matches!(run(true, Err(Failure::Cancelled)), Finished::Cancelled));
    assert!(matches!(run(true, Err(Failure::Unavailable)), Finished::Failed));
    let shot = Shot { width: 1, height: 1, bgra: vec![1, 2, 3, 4] };
    assert!(matches!(
        run(true, Ok(Captured { shot, pin_at: None })),
        Finished::Captured(_)
    ));
    assert!(matches!(open(None, None, Options::default()), Err(Failure::Unavailable)));
}

#[test]
fn the_hook_takes_two_keys_and_only_in_a_session() {
    assert_eq!(keyboard_hook(true, Some(KEY_ESCAPE), true), HookAction::Close);
    assert_eq!(keyboard_hook(true, Some(KEY_RETURN), true), HookAction::Take);
    assert_eq!(keyboard_hook(true, Some(0x41), true), HookAction::Pass);
    assert_eq!(keyboard_hook(true, Some(KEY_ESCAPE), false), HookAction::Pass);
    assert_eq!(keyboard_hook(false, Some(KEY_ESCAPE), true), HookAction::Pass);
    assert_eq!(keyboard_hook(true, None, true), HookAction::Pass);
}

#[test]
fn labels_are_written_out() {
    assert_eq!(label_text(Label::Hint), "拖动选择区域 · Esc 或右键取消");
    assert_eq!(label_text(Label::Size { width: 640, height: 7 }), "640 × 7");
    assert_eq!(
        label_text(Label::Readout { x: -12, y: 40, red: 0x0A, green: 0xFF, blue: 0x00 }),
        "-12 × 40   #0AFF00"
    );
    assert_eq!(
        measured_text(ScreenRect { left: 2, top: 3, right: 82, bottom: 9 }),
        (80, 14)
    );
}

fn screen(width: i32, height: i32) -> Shot {
    let mut shot =
        Shot { width, height, bgra: vec![0; width as usize * height as usize * 4] };
    for y in 0..height {
        for x in 0..width {
            let at = ((y * width + x) * 4) as usize;
            shot.bgra[at] = x as u8;
            shot.bgra[at + 1] = y as u8;
            shot.bgra[at + 2] = 0x55;
            shot.bgra[at + 3] = 0xFF;
        }
    }
    shot
}

fn around() -> Surroundings {
    Surroundings { before: None, after: None, text: (60, 14) }
}

#[test]
fn a_drag_ends_in_the_crop_that_was_framed() {
    let mut session = Session::new(screen(120, 90), (-20, 10), Options::default());
    let down = session.window_proc(Message::ButtonDown { x: 30, y: 20 }, around());
    assert!(down.capture && down.crosshair == false);
    assert!(session.dragging && session.anchor == (30, 20));
    let moved = session.window_proc(Message::MouseMove { x: 70, y: 50 }, around());
    assert!(!moved.pushed.is_empty());
    assert_eq!(session.selection, Some(box_at(30, 20, 70, 50)));
    let up = session.window_proc(Message::ButtonUp, around());
    assert!(up.release && up.destroy);
    assert!(session.finished);
    let captured = session.select().unwrap();
    assert_eq!((captured.shot.width, captured.shot.height), (40, 30));
    assert_eq!(&captured.shot.bgra[0..3], &[30, 20, 0x55], "the crop starts where the drag did");
    assert_eq!(captured.pin_at, None);
    // Once finished, the answer does not change.
    let again = session.window_proc(Message::RightButtonDown, around());
    assert!(!again.destroy);
    assert!(session.result.is_some());
}

#[test]
fn a_pin_lands_where_the_region_was_taken() {
    let options = Options { auto_pin: true, ..Options::default() };
    let mut session = Session::new(screen(120, 90), (-20, 10), options);
    session.window_proc(Message::ButtonDown { x: 30, y: 20 }, around());
    session.window_proc(Message::MouseMove { x: 70, y: 50 }, around());
    session.window_proc(Message::ButtonUp, around());
    assert_eq!(session.select().unwrap().pin_at, Some((10, 30)));
}

#[test]
fn backing_out_captures_nothing() {
    for message in [
        Message::RightButtonDown,
        Message::KeyDown { key: KEY_ESCAPE },
        Message::Close,
    ] {
        let mut session = Session::new(screen(60, 40), (0, 0), Options::default());
        let reaction = session.window_proc(message, around());
        assert!(reaction.destroy, "{message:?}");
        assert!(matches!(session.select(), Err(Failure::Cancelled)));
    }
    // A click without a drag is a cancel too.
    let mut session = Session::new(screen(60, 40), (0, 0), Options::default());
    session.window_proc(Message::ButtonDown { x: 5, y: 5 }, around());
    let reaction = session.window_proc(Message::ButtonUp, around());
    assert!(reaction.destroy);
    assert!(session.select().is_err());
    let gone = session.window_proc(Message::Destroy, around());
    assert!(gone.quit && !session.attached);
    // A detached window still keeps its pointer, and nothing else.
    let after = session.window_proc(Message::SetCursor, around());
    assert!(after.crosshair && after.answer == Some(1));
    let late = session.window_proc(Message::ButtonDown { x: 5, y: 5 }, around());
    assert!(late.pushed.is_empty() && !session.dragging);
}

#[test]
fn the_mask_is_put_back_on_top() {
    let mut session = Session::new(screen(60, 40), (0, 0), Options::default());
    let tick = session.window_proc(Message::Timer { id: TIMER_ASSERT }, around());
    assert!(tick.topmost);
    let other = session.window_proc(Message::Timer { id: TIMER_ASSERT + 1 }, around());
    assert!(!other.topmost);
    let painted = session.window_proc(Message::Paint { target: box_at(0, 0, 5, 5) }, around());
    assert_eq!(painted.composed, Some(box_at(0, 0, 5, 5)));
}

#[test]
fn the_pointer_is_magnified_beside_itself() {
    let monitor = box_at(0, 0, 1920, 1080);
    let plate = magnifier_area(monitor, (100, 100), 1920, 1080);
    assert_eq!(plate, box_at(118, 118, 118 + 168, 118 + 186));
    // Near the far corner it flips to the other side.
    let flipped = magnifier_area(monitor, (1900, 1060), 1920, 1080);
    assert!(flipped.right <= 1900 && flipped.bottom <= 1060);
    let (source, patch) = magnifier_source_and_patch(monitor, (100, 100), 1920, 1080);
    assert_eq!((source.width(), source.height()), (21, 21));
    assert!(source.contains(100, 100));
    assert_eq!((patch.width(), patch.height()), (168, 168));
    let lines = crosshair(monitor, (100, 200));
    assert_eq!(lines[0], box_at(0, 200, 1920, 201));
    assert_eq!(lines[1], box_at(100, 0, 101, 1080));
    let hint = hint_area(monitor, (1000, 500), 1920, 1080);
    assert!(!hint.is_empty() && hint.right <= 1000);
    let badge = badge_plate(box_at(100, 300, 400, 500), (60, 14), 1920, 1080);
    assert_eq!((badge.width(), badge.height()), (76, 24));
}

#[test]
fn a_frame_starts_with_the_picture() {
    let mut session = Session::new(screen(400, 300), (0, 0), Options::default());
    session.place_cursor(50, 60);
    let ops = session.compose(box_at(0, 0, 400, 300), None, (60, 14));
    assert_eq!(ops[0], DrawOp::Picture);
    assert!(ops.iter().any(|op| matches!(op, DrawOp::Text { label: Label::Hint, .. })));
    assert!(ops.iter().any(|op| matches!(op, DrawOp::Magnify { .. })));
    session.window_proc(Message::ButtonDown { x: 30, y: 20 }, around());
    session.window_proc(Message::MouseMove { x: 70, y: 50 }, around());
    let ops = session.compose(box_at(0, 0, 400, 300), None, (60, 14));
    assert!(ops
        .iter()
        .any(|op| matches!(op, DrawOp::Text { label: Label::Size { width: 40, height: 30 }, .. })));
    assert!(!ops.iter().any(|op| matches!(op, DrawOp::Text { label: Label::Hint, .. })));
}

#[test]
fn the_selection_is_bright_and_the_rest_is_dimmed() {
    let bright = Shot { width: 4, height: 4, bgra: vec![200; 64] };
    let dimmed = Shot { width: 4, height: 4, bgra: vec![100; 64] };
    let mut bits = vec![0u8; 64];
    compose_picture(&bright, &dimmed, Some(box_at(1, 1, 3, 3)), &mut bits, box_at(0, 0, 4, 4));
    let at = |x: usize, y: usize| bits[(y * 4 + x) * 4];
    assert_eq!(at(0, 0), 100);
    assert_eq!(at(1, 1), 200);
    assert_eq!(at(2, 2), 200);
    assert_eq!(at(3, 3), 100);
    assert_eq!(pixel_at(&screen(8, 8), 3, 5), (0x55, 5, 3));
    assert_eq!(pixel_at(&bright, 9, 0), (0, 0, 0));
}
