//! The composition states that are asked for.

use vstd::prelude::*;

verus! {

pub const DISABLED: u32 = 0;

pub const ENABLE_GRADIENT: u32 = 1;

pub const ENABLE_TRANSPARENTGRADIENT: u32 = 2;

pub const ENABLE_BLURBEHIND: u32 = 3;

pub const ENABLE_ACRYLICBLURBEHIND: u32 = 4;

pub const ENABLE_HOSTBACKDROP: u32 = 5;

} // verus!
