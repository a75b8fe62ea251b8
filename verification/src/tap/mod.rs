//! The part that lives inside the shell and repaints its taskbar.
//!
//! The taskbar is a XAML island inside the shell, so its background cannot be
//! changed from outside the process. The host forces a module into the shell, the
//! module watches the taskbar's visual tree and repaints the background rectangles
//! on demand. Control travels over a message-only window; commands are single
//! fixed-size records (see [`protocol`]).

pub mod com;
pub mod effects;
pub mod logging;
pub mod protocol;
pub mod service;
pub mod site;
pub mod sprites;
pub mod watcher;
