//! The verified core of a Windows desktop beautifier: the screenshot overlay,
//! the settings window, the taskbar backdrop and the in-shell taskbar painter.
//!
//! Everything that touches the operating system lives in the application around
//! this library. What stands here is the part that decides: pixel work, geometry,
//! state machines, registries and encodings, each with a contract that pins its
//! result down.

pub mod color;
pub mod config;
pub mod geometry;
pub mod number;
pub mod settings;
pub mod snip;
pub mod tap;
pub mod taskbar;
pub mod text;
