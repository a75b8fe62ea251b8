//! Rectangles of the screen, as the shell reports them.

use vstd::prelude::*;

verus! {

/// A rectangle of the virtual screen, in physical pixels.
#[derive(Clone, Copy, Debug, PartialEq, Eq, Structural)]
pub struct ScreenRect {
    pub left: i32,
    pub top: i32,
    pub right: i32,
    pub bottom: i32,
}

impl ScreenRect {
    pub open spec fn wide(self) -> int {
        self.right - self.left
    }

    pub open spec fn tall(self) -> int {
        self.bottom - self.top
    }

    /// Does it hold no pixel?
    pub open spec fn empty(self) -> bool {
        self.wide() <= 0 || self.tall() <= 0
    }

    /// Is every pixel of `other` within these edges?
    pub open spec fn covers_rect(self, other: ScreenRect) -> bool {
        &&& self.left <= other.left
        &&& self.top <= other.top
        &&& self.right >= other.right
        &&& self.bottom >= other.bottom
    }

    /// How many pixels two rectangles share.
    pub open spec fn shared_area(self, other: ScreenRect) -> int {
        shared_length(self.left as int, self.right as int, other.left as int, other.right as int)
            * shared_length(self.top as int, self.bottom as int, other.top as int, other.bottom as int)
    }

    pub fn new(left: i32, top: i32, right: i32, bottom: i32) -> (r: ScreenRect)
        ensures
            r == (ScreenRect { left, top, right, bottom }),
    {
        ScreenRect { left, top, right, bottom }
    }

    pub fn is_empty(&self) -> (r: bool)
        ensures
            r == self.empty(),
    {
        self.right <= self.left || self.bottom <= self.top
    }

    pub fn covers(&self, other: &ScreenRect) -> (r: bool)
        ensures
            r == self.covers_rect(*other),
    {
        self.left <= other.left && self.top <= other.top && self.right >= other.right
            && self.bottom >= other.bottom
    }

    /// The number of pixels that this rectangle shares with `other`.
    pub fn intersection_area(&self, other: &ScreenRect) -> (r: u64)
        ensures
            r == self.shared_area(*other),
    {
        let width: u64 = overlap_length(self.left, self.right, other.left, other.right);
        let height: u64 = overlap_length(self.top, self.bottom, other.top, other.bottom);
        assert(width * height <= 0xffff_ffff * 0xffff_ffff) by (nonlinear_arith)
            requires
                0 <= width <= 0xffff_ffff,
                0 <= height <= 0xffff_ffff,
        ;
        width * height
    }
}

/// How long the overlap of `from..to` and `other_from..other_to` is.
pub open spec fn shared_length(from: int, to: int, other_from: int, other_to: int) -> int {
    let start = if from > other_from {
        from
    } else {
        other_from
    };
    let end = if to < other_to {
        to
    } else {
        other_to
    };
    if end > start {
        end - start
    } else {
        0
    }
}

fn overlap_length(from: i32, to: i32, other_from: i32, other_to: i32) -> (r: u64)
    ensures
        r == shared_length(from as int, to as int, other_from as int, other_to as int),
        r <= 0xffff_ffff,
{
    let start: i32 = if from > other_from {
        from
    } else {
        other_from
    };
    let end: i32 = if to < other_to {
        to
    } else {
        other_to
    };
    if end > start {
        (end as i64 - start as i64) as u64
    } else {
        0
    }
}

/// The sixteen-bit number that the low half of `bits` holds, with its sign.
pub open spec fn signed_half(bits: int) -> int {
    let low = bits % 65536;
    if low >= 32768 {
        low - 65536
    } else {
        low
    }
}

/// The window coordinates in a mouse message: two signed sixteen-bit halves.
pub fn point_of(lparam: i64) -> (r: (i32, i32))
    ensures
        r.0 == signed_half(lparam as int),
        r.1 == signed_half(lparam as int / 65536),
        -32768 <= r.0 <= 32767,
        -32768 <= r.1 <= 32767,
{
    let bits: i128 = lparam as i128 + 0x1_0000_0000_0000_0000;
    let low: i128 = bits % 65536;
    let high: i128 = bits / 65536 % 65536;
    proof {
        let l = lparam as int;
        assert((l + 0x1_0000_0000_0000_0000) % 65536 == l % 65536);
        assert((l + 0x1_0000_0000_0000_0000) / 65536 == l / 65536 + 0x1_0000_0000_0000);
    }
    (
        if low >= 32768 {
            (low - 65536) as i32
        } else {
            low as i32
        },
        if high >= 32768 {
            (high - 65536) as i32
        } else {
            high as i32
        },
    )
}

/// The window size in a size message: two sixteen-bit halves.
pub fn size_of(lparam: i64) -> (r: (u32, u32))
    ensures
        r.0 == lparam as int % 65536,
        r.1 == lparam as int / 65536 % 65536,
{
    let bits: i128 = lparam as i128 + 0x1_0000_0000_0000_0000;
    proof {
        let l = lparam as int;
        assert((l + 0x1_0000_0000_0000_0000) % 65536 == l % 65536);
        assert((l + 0x1_0000_0000_0000_0000) / 65536 == l / 65536 + 0x1_0000_0000_0000);
    }
    ((bits % 65536) as u32, (bits / 65536 % 65536) as u32)
}

/// A coordinate survives its trip through half of a parameter: the low sixteen bits of it are
/// read as the number from -32768 to 32767 that they stand for.
pub proof fn a_half_gives_its_number_back(value: int, above: int)
    requires
        -32768 <= value <= 32767,
    ensures
        signed_half(value + 65536 * above) == value,
{
}

/// Is `(x, y)` one of the rectangle's pixels?
pub open spec fn has_pixel(rect: ScreenRect, x: int, y: int) -> bool {
    rect.left <= x < rect.right && rect.top <= y < rect.bottom
}

/// Two rectangles share a block of pixels, and the number of them is its width times its
/// height: a pixel is in the block exactly when it is in both.
pub proof fn shared_pixels_are_counted(one: ScreenRect, other: ScreenRect)
    ensures
        exists|block: ScreenRect|
            {
                &&& block.left <= block.right && block.top <= block.bottom
                &&& one.shared_area(other) == (block.right - block.left) * (block.bottom
                    - block.top)
                &&& forall|x: int, y: int| #[trigger]
                    has_pixel(block, x, y) <==> has_pixel(one, x, y) && has_pixel(other, x, y)
            },
        one.shared_area(other) == other.shared_area(one),
{
    let left = if one.left > other.left {
        one.left
    } else {
        other.left
    };
    let top = if one.top > other.top {
        one.top
    } else {
        other.top
    };
    let right = if one.right < other.right {
        one.right
    } else {
        other.right
    };
    let bottom = if one.bottom < other.bottom {
        one.bottom
    } else {
        other.bottom
    };
    let block = ScreenRect {
        left,
        top,
        right: if right > left {
            right
        } else {
            left
        },
        bottom: if bottom > top {
            bottom
        } else {
            top
        },
    };
    assert forall|x: int, y: int| #[trigger]
        has_pixel(block, x, y) <==> has_pixel(one, x, y) && has_pixel(other, x, y) by {}
    assert(one.shared_area(other) == (block.right - block.left) * (block.bottom - block.top));
}

/// A rectangle covers another that holds any pixel exactly when it holds all of its pixels.
pub proof fn covering_is_holding_every_pixel(one: ScreenRect, other: ScreenRect)
    requires
        other.left < other.right,
        other.top < other.bottom,
    ensures
        one.covers_rect(other) <==> (forall|x: int, y: int| #[trigger]
            has_pixel(other, x, y) ==> has_pixel(one, x, y)),
        !other.empty(),
{
    if forall|x: int, y: int| #[trigger] has_pixel(other, x, y) ==> has_pixel(one, x, y) {
        assert(has_pixel(other, other.left as int, other.top as int));
        assert(has_pixel(other, other.right - 1, other.bottom - 1));
    }
}

} // verus!
