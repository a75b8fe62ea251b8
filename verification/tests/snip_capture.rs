//! The pixel layer, and what a capture comes to.

use winbeautify::color::Rgb;
use winbeautify::geometry::ScreenRect;
use winbeautify::number::Factor;
use winbeautify::snip::capture::{grab, virtual_screen, virtual_screen_rect, Shot};
use winbeautify::snip::overlay::{Captured, Finished};
use winbeautify::snip::{capture, delivery, Delivery, Options, Outcome};

fn shot(width: i32, height: i32, fill: u8) -> Shot {
    Shot { width, height, bgra: vec![fill; width as usize * height as usize * 4] }
}

fn factor(numerator: u32, denominator: u32) -> Factor {
    Factor { numerator, denominator }
}

#[test]
fn cropping_takes_the_requested_corner() {
    let mut source = shot(4, 3, 0);
    // Mark the pixel at (1, 1) so the crop can be checked.
    let stride = source.stride();
    source.bgra[stride + 4] = 0xAB;

    let cropped = source.crop(1, 1, 2, 2).unwrap();
    assert_eq!((cropped.width, cropped.height), (2, 2));
    assert_eq!(cropped.bgra[0], 0xAB, "top-left of the crop is (1,1)");
    assert_eq!(cropped.stride(), 8);
}

#[test]
fn a_selection_dragged_off_screen_is_clamped() {
    let source = shot(4, 3, 7);
    let cropped = source.crop(-2, -1, 4, 4).unwrap();
    assert_eq!((cropped.width, cropped.height), (2, 3));
    assert!(source.crop(4, 0, 5, 5).is_none(), "fully outside");
    assert!(source.crop(0, 0, 0, 5).is_none(), "empty");
}

#[test]
fn dimming_is_premultiplied() {
    let source = shot(1, 1, 200);
    let dimmed = source.dim(factor(1, 2));
    // Colour and alpha both come down, so the composite is a darker pixel rather than a
    // bright ghost.
    assert_eq!(dimmed.bgra[3], 128);
    assert!(dimmed.bgra[0] <= 101 && dimmed.bgra[0] >= 99, "got {}", dimmed.bgra[0]);
}

#[test]
fn scaling_doubles_and_keeps_the_corners() {
    let mut source = shot(2, 2, 0);
    let stride = source.stride();
    source.bgra[0] = 0x11; // (0,0)
    source.bgra[4] = 0x22; // (1,0)
    source.bgra[stride] = 0x33; // (0,1)

    let doubled = source.scaled(factor(2, 1));
    assert_eq!((doubled.width, doubled.height), (4, 4));
    let at = |x: usize, y: usize| doubled.bgra[y * doubled.stride() + x * 4];
    assert_eq!(at(0, 0), 0x11);
    assert_eq!(at(1, 1), 0x11, "nearest-neighbour repeats the source pixel");
    assert_eq!(at(2, 0), 0x22);
    assert_eq!(at(0, 2), 0x33);
}

#[test]
fn scaling_never_produces_an_empty_image() {
    let scaled = shot(10, 10, 1).scaled(factor(1, 100));
    assert!(scaled.width >= 1 && scaled.height >= 1);
}

#[test]
fn opaque_fills_the_alpha_channel() {
    let mut source = shot(2, 2, 0);
    source.opaque();
    assert!(source.bgra.chunks_exact(4).all(|p| p[3] == 0xFF));
}

#[test]
fn blitting_replaces_a_region() {
    let mut base = shot(4, 4, 10);
    let patch = shot(2, 2, 99);
    base.blit(&patch, 1, 1);

    let stride = base.stride();
    let at = |x: usize, y: usize| base.bgra[y * stride + x * 4];
    assert_eq!(at(0, 0), 10, "outside the patch");
    assert_eq!(at(1, 1), 99, "inside the patch");
    assert_eq!(at(2, 2), 99);
    assert_eq!(at(3, 3), 10);
}

#[test]
fn the_bmp_header_describes_a_top_down_image() {
    let source = shot(3, 2, 0x40);
    let bmp = source.to_bmp().expect("a valid BMP");
    assert_eq!(&bmp[0..2], b"BM");
    // biHeight sits 8 bytes into the DIB header, which starts at offset 14.
    let height = i32::from_le_bytes(bmp[14 + 8..14 + 12].try_into().unwrap());
    assert_eq!(height, -2, "negative height means top-down");
    let width = i32::from_le_bytes(bmp[14 + 4..14 + 8].try_into().unwrap());
    assert_eq!(width, 3);
}

#[test]
fn the_clipboard_dib_is_bottom_up() {
    let mut source = shot(2, 2, 0);
    let stride = source.stride();
    // Mark the top row and the bottom row differently.
    for byte in &mut source.bgra[0..stride] {
        *byte = 0x11;
    }
    for byte in &mut source.bgra[stride..2 * stride] {
        *byte = 0x22;
    }

    let dib = source.to_dib();
    let height = i32::from_le_bytes(dib[8..12].try_into().unwrap());
    assert_eq!(height, 2, "CF_DIB is stored bottom-up");
    assert_eq!(dib[40], 0x22, "the first row in the file is the bottom one");
    assert_eq!(dib[40 + stride], 0x11);
    // The header is the only thing in front of the pixels.
    assert_eq!(dib.len(), 40 + source.bgra.len());
}

#[test]
fn the_default_options_actually_deliver_something() {
    let options = Options::default();
    assert!(options.copy_to_clipboard, "a capture nobody can paste is a bug");
    let dim = options.dim.numerator as f64 / options.dim.denominator as f64;
    assert!((0.0..0.9).contains(&dim));
    assert!(!options.auto_pin);
    assert_eq!(options.accent, Rgb { r: 0x6C, g: 0x8C, b: 0xFF });
}

#[test]
fn the_outcome_distinguishes_cancel_from_delivery() {
    assert_ne!(
        Outcome::Cancelled,
        Outcome::Captured { width: 1, height: 1, copied: true, pinned: false }
    );
}

#[test]
fn a_capture_is_reported_with_what_actually_happened() {
    let options = Options { auto_pin: true, ..Options::default() };
    let taken = Finished::Captured(Captured { shot: shot(3, 2, 0), pin_at: Some((40, 50)) });
    assert_eq!(delivery(&taken, options), Delivery { copy: true, pin_at: Some((40, 50)) });
    assert_eq!(
        delivery(&taken, Options::default()),
        Delivery { copy: true, pin_at: None },
        "pinning is only done when it was asked for"
    );
    // A clipboard that refused the image is not claimed as a success.
    assert_eq!(
        capture(&taken, options, false, true),
        Some(Outcome::Captured { width: 3, height: 2, copied: false, pinned: true })
    );
    assert_eq!(capture(&Finished::Cancelled, options, true, true), Some(Outcome::Cancelled));
    assert_eq!(capture(&Finished::Refused, options, true, true), None);
    assert_eq!(capture(&Finished::Failed, options, true, true), None);
}

#[test]
fn a_grab_needs_an_area_and_the_right_number_of_bytes() {
    assert!(grab(2, 2, Some(vec![5; 16])).is_some());
    assert!(grab(2, 2, Some(vec![5; 15])).is_none());
    assert!(grab(2, 2, None).is_none());
    assert!(grab(0, 2, Some(Vec::new())).is_none());
}

#[test]
fn the_virtual_screen_reaches_left_of_the_origin() {
    assert_eq!(
        virtual_screen_rect(-1920, 0, 3840, 1080),
        Some(ScreenRect { left: -1920, top: 0, right: 1920, bottom: 1080 })
    );
    assert_eq!(virtual_screen(-1920, 0, 3840, 1080), Some((-1920, 0, 3840, 1080)));
    assert_eq!(virtual_screen(0, 0, 0, 1080), None);
}

#[test]
fn the_headers_are_exact() {
    let bmp = shot(3, 2, 0x40).to_bmp().unwrap();
    assert_eq!(bmp.len(), 54 + 24);
    assert_eq!(u32::from_le_bytes(bmp[2..6].try_into().unwrap()), 78, "the file's size");
    assert_eq!(u32::from_le_bytes(bmp[10..14].try_into().unwrap()), 54, "where the pixels start");
    assert_eq!(u32::from_le_bytes(bmp[14..18].try_into().unwrap()), 40);
    assert_eq!(u16::from_le_bytes(bmp[26..28].try_into().unwrap()), 1, "one plane");
    assert_eq!(u16::from_le_bytes(bmp[28..30].try_into().unwrap()), 32, "bits a pixel");
    assert_eq!(u32::from_le_bytes(bmp[34..38].try_into().unwrap()), 24, "bytes of pixels");
    assert!(bmp[54..].iter().all(|byte| *byte == 0x40));
}

#[test]
fn a_dimmed_screen_keeps_its_size() {
    let dimmed = shot(3, 2, 100).dim(factor(45, 100));
    assert_eq!((dimmed.width, dimmed.height), (3, 2));
    assert_eq!(dimmed.bgra[3], 115);
    assert_eq!(dimmed.bgra[0], 45);
    // A factor above one leaves the colours alone.
    assert_eq!(shot(1, 1, 100).dim(factor(3, 1)).bgra, vec![100, 100, 100, 255]);
}

#[test]
fn a_patch_that_hangs_over_the_edge_is_cut() {
    let mut base = shot(3, 3, 0);
    base.blit(&shot(2, 2, 9), 0, 2);
    assert_eq!(base.bgra.iter().filter(|byte| **byte == 9).count(), 8, "one row fits");
    assert_eq!(base.bgra[24], 9);
    let mut untouched = shot(3, 3, 0);
    untouched.blit(&shot(2, 2, 9), 0, 3);
    assert!(untouched.bgra.iter().all(|byte| *byte == 0));
}

#[test]
fn a_patch_is_cut_at_the_sides_too() {
    let pair = Shot { width: 2, height: 1, bgra: vec![1, 1, 1, 1, 2, 2, 2, 2] };
    let mut base = shot(2, 1, 0);
    base.blit(&pair, -1, 0);
    assert_eq!(base.bgra, vec![2, 2, 2, 2, 0, 0, 0, 0]);
    let mut base = shot(2, 2, 0);
    base.blit(&pair, 1, 0);
    assert_eq!(&base.bgra[..8], &[0, 0, 0, 0, 1, 1, 1, 1]);
    assert!(base.bgra[8..].iter().all(|byte| *byte == 0), "nothing runs into the next row");
    base.blit(&pair, i32::MAX, i32::MIN);
    assert_eq!(base.bgra.iter().filter(|byte| **byte == 1).count(), 4);
}
