//! The settings window: its pages, their layout, their drawing and their behaviour.

pub mod access;
pub mod controls;
pub mod geom;
pub mod layout;
pub mod paint;
pub mod palette;
pub mod schema;
pub mod window;
