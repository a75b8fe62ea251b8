//! Taking a region of the screen and pinning the result to the desktop.
//!
//! * [`capture`]: the pixel layer, cropping, dimming, scaling and encoding.
//! * [`area`]: the geometry of selections.
//! * [`frame`]: composing the overlay's frame buffer.
//! * [`overlay`]: the full-screen region selector.
//! * [`pin`]: the pinned image windows.

use vstd::prelude::*;

use crate::color::Rgb;
use crate::number::Factor;
use crate::snip::overlay::Finished;

pub mod area;
pub mod capture;
pub mod frame;
pub mod overlay;
pub mod pin;

verus! {

/// How a capture should behave.
#[derive(Clone, Copy, Debug, PartialEq, Eq, Structural)]
pub struct Options {
    /// How far the unselected area is darkened, 0.0 .. 0.85.
    pub dim: Factor,
    /// Border, badge and selection-frame colour.
    pub accent: Rgb,
    /// Put the finished capture on the clipboard.
    pub copy_to_clipboard: bool,
    /// Pin the capture to the desktop as well, where it was taken.
    pub auto_pin: bool,
}

impl Default for Options {
    fn default() -> (r: Options)
        ensures
            r == (Options {
                dim: Factor { numerator: 45, denominator: 100 },
                accent: Rgb { r: 0x6C, g: 0x8C, b: 0xFF },
                copy_to_clipboard: true,
                auto_pin: false,
            }),
    {
        Options {
            dim: Factor { numerator: 45, denominator: 100 },
            accent: Rgb { r: 0x6C, g: 0x8C, b: 0xFF },
            copy_to_clipboard: true,
            auto_pin: false,
        }
    }
}

/// What came of a capture.
#[derive(Clone, Copy, Debug, PartialEq, Eq, Structural)]
pub enum Outcome {
    /// Escape, a right-click, or a click without a drag.
    Cancelled,
    /// The region was taken. `copied` and `pinned` say which of the delivery steps
    /// actually happened, so that a clipboard that refused the image is reported
    /// rather than claimed as a success.
    Captured { width: i32, height: i32, copied: bool, pinned: bool },
}

/// What has to be done with a finished session before it can be reported.
#[derive(Clone, Copy, Debug, PartialEq, Eq)]
pub struct Delivery {
    /// Put the image on the clipboard.
    pub copy: bool,
    /// Pin the image here.
    pub pin_at: Option<(i32, i32)>,
}

/// The delivery steps that `finished` asks for under `options`.
pub fn delivery(finished: &Finished, options: Options) -> (r: Delivery)
    ensures
        r == (match *finished {
            Finished::Captured(captured) => Delivery {
                copy: options.copy_to_clipboard,
                pin_at: if options.auto_pin {
                    captured.pin_at
                } else {
                    None
                },
            },
            _ => Delivery { copy: false, pin_at: None },
        }),
{
    match finished {
        Finished::Captured(captured) => Delivery {
            copy: options.copy_to_clipboard,
            pin_at: if options.auto_pin {
                captured.pin_at
            } else {
                None
            },
        },
        _ => Delivery { copy: false, pin_at: None },
    }
}

/// What the caller of a capture is told, given whether the clipboard took the
/// image and whether a pin could be opened. Nothing at all when the request was
/// refused or the screen could not be captured.
pub fn capture(finished: &Finished, options: Options, clipboard_took: bool, pin_opened: bool) -> (r:
    Option<Outcome>)
    ensures
        r == (match *finished {
            Finished::Refused => None,
            Finished::Failed => None,
            Finished::Cancelled => Some(Outcome::Cancelled),
            Finished::Captured(captured) => Some(
                Outcome::Captured {
                    width: captured.shot.width,
                    height: captured.shot.height,
                    copied: options.copy_to_clipboard && clipboard_took,
                    pinned: options.auto_pin && captured.pin_at is Some && pin_opened,
                },
            ),
        }),
{
    match finished {
        Finished::Refused => None,
        Finished::Failed => None,
        Finished::Cancelled => Some(Outcome::Cancelled),
        Finished::Captured(captured) => {
            let steps = delivery(finished, options);
            let pinned = match steps.pin_at {
                Some(_) => pin_opened,
                None => false,
            };
            Some(
                Outcome::Captured {
                    width: captured.shot.width,
                    height: captured.shot.height,
                    copied: steps.copy && clipboard_took,
                    pinned,
                },
            )
        },
    }
}

} // verus!
