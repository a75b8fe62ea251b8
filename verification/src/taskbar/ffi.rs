//! The records of the shell's private composition interface.

use vstd::prelude::*;

verus! {

/// The attribute that carries an accent policy.
pub const WCA_ACCENT_POLICY: u32 = 19;

/// The attribute that switches the dark-mode colours.
pub const WCA_USEDARKMODECOLORS: u32 = 26;

/// What a window's backdrop is asked to be.
#[derive(Clone, Copy, Debug, PartialEq, Eq, Structural)]
pub struct AccentPolicy {
    pub accent_state: u32,
    /// Bit flags. `2` is what the shell itself passes for a tinted backdrop.
    pub accent_flags: u32,
    /// Tint colour packed as `0xAABBGGRR`; note the byte order.
    pub gradient_color: u32,
    pub animation_id: u32,
}

impl Default for AccentPolicy {
    fn default() -> (r: AccentPolicy)
        ensures
            r == (AccentPolicy {
                accent_state: 0,
                accent_flags: 0,
                gradient_color: 0,
                animation_id: 0,
            }),
    {
        AccentPolicy { accent_state: 0, accent_flags: 0, gradient_color: 0, animation_id: 0 }
    }
}

/// Is the private interface there on this machine? It is when its entry point could be
/// resolved.
pub fn available(entry_point: Option<usize>) -> (r: bool)
    ensures
        r == (entry_point is Some),
{
    entry_point.is_some()
}

/// A tint as `0xAABBGGRR`.
pub open spec fn packed(alpha: u8, r: u8, g: u8, b: u8) -> int {
    alpha * 0x100_0000 + b * 0x1_0000 + g * 0x100 + r
}

/// Pack a tint into the `0xAABBGGRR` layout that [`AccentPolicy`] expects.
pub fn pack_gradient(alpha: u8, r: u8, g: u8, b: u8) -> (v: u32)
    ensures
        v == packed(alpha, r, g, b),
{
    alpha as u32 * 0x100_0000 + b as u32 * 0x1_0000 + g as u32 * 0x100 + r as u32
}

/// The channels of a packed tint can be read back: alpha is the high byte and red the
/// low one.
pub proof fn a_packed_tint_keeps_its_channels(alpha: u8, r: u8, g: u8, b: u8)
    ensures
        packed(alpha, r, g, b) / 0x100_0000 == alpha,
        packed(alpha, r, g, b) / 0x1_0000 % 0x100 == b,
        packed(alpha, r, g, b) / 0x100 % 0x100 == g,
        packed(alpha, r, g, b) % 0x100 == r,
{
    let v = packed(alpha, r, g, b);
    assert(v == 0x100 * (alpha * 0x1_0000 + b * 0x100 + g) + r);
    assert(v / 0x100 == alpha * 0x1_0000 + b * 0x100 + g);
    assert(v == 0x1_0000 * (alpha * 0x100 + b) + (g * 0x100 + r));
    assert(v / 0x1_0000 == alpha * 0x100 + b);
}

} // verus!
