//! The pixel layer of the screenshot feature: cropping, dimming, scaling and
//! encoding of captured pixels.
//!
//! A screen device context has no alpha channel, so a captured buffer is BGRA with
//! an alpha of zero. Presenting it through a layered window needs that fixed up,
//! which is what [`Shot::opaque`] and [`Shot::dim`] are for.

use vstd::prelude::*;

use crate::geometry::ScreenRect;
use crate::number::{
    clamp_i32, clamped_to, rounded, rounding_is_to_the_nearest, Factor,
};

verus! {

/// A rectangle of pixels, top-down, BGRA.
#[derive(Clone)]
pub struct Shot {
    pub width: i32,
    pub height: i32,
    pub bgra: Vec<u8>,
}

/// Where channel `c` of the pixel at `(x, y)` is stored in an image `width` wide.
pub open spec fn offset(width: int, x: int, y: int, c: int) -> int {
    y * (width * 4) + (x * 4 + c)
}

/// Every channel of every pixel of a `width` by `height` image has its own place
/// in the buffer.
pub proof fn lemma_offset_bounds(width: int, height: int, x: int, y: int, c: int)
    requires
        0 <= x < width,
        0 <= y < height,
        0 <= c < 4,
    ensures
        0 <= offset(width, x, y, c) < height * (width * 4),
        offset(width, x, y, c) + (3 - c) < height * (width * 4),
        offset(width, x, y, c) % 4 == c,
        offset(width, x, y, c) / 4 == y * width + x,
{
    assert(y * (width * 4) == 4 * (y * width)) by (nonlinear_arith);
    assert(height * (width * 4) == 4 * (height * width)) by (nonlinear_arith);
    assert(y * width + width <= height * width) by (nonlinear_arith)
        requires
            0 <= y < height,
            0 < width,
    ;
    assert(0 <= y * width) by (nonlinear_arith)
        requires
            0 <= y,
            0 < width,
    ;
}

/// Two different channels never share a place in the buffer.
pub proof fn lemma_offset_distinct(width: int, x: int, y: int, c: int, u: int, v: int, d: int)
    requires
        0 <= x < width,
        0 <= u < width,
        0 <= c < 4,
        0 <= d < 4,
        offset(width, x, y, c) == offset(width, u, v, d),
    ensures
        x == u,
        y == v,
        c == d,
{
    let a = x * 4 + c;
    let b = u * 4 + d;
    assert((y - v) * (width * 4) == b - a) by (nonlinear_arith)
        requires
            y * (width * 4) + a == v * (width * 4) + b,
    ;
    assert(y == v) by (nonlinear_arith)
        requires
            (y - v) * (width * 4) == b - a,
            -(width * 4) < b - a < width * 4,
            width > 0,
    ;
}

/// Put `count` bytes of `source`, from `from` on, behind `out`.
pub(crate) fn append_range(out: &mut Vec<u8>, source: &Vec<u8>, from: usize, count: usize)
    requires
        from + count <= source@.len(),
    ensures
        final(out)@ == old(out)@ + source@.subrange(from as int, from + count),
{
    let end: usize = source.len();
    let mut k: usize = 0;
    while k < count
        invariant
            end == source@.len(),
            from + count <= end,
            0 <= k <= count,
            out@ == old(out)@ + source@.subrange(from as int, from + k),
        decreases count - k,
    {
        out.push(source[from + k]);
        proof {
            assert(source@.subrange(from as int, from + k + 1) =~= source@.subrange(
                from as int,
                from + k,
            ).push(source@[from + k]));
        }
        k = k + 1;
    }
}

/// Which channels a run of pixels of one row holds.
pub proof fn lemma_pixel_in_run(
    width: int,
    x: int,
    y: int,
    c: int,
    row: int,
    left: int,
    right: int,
)
    requires
        0 <= x < width,
        0 <= c < 4,
        0 <= left <= right <= width,
    ensures
        offset(width, left, row, 0) <= offset(width, x, y, c) < offset(width, left, row, 0) + (
        right - left) * 4 <==> y == row && left <= x < right,
{
    let k = offset(width, x, y, c);
    let start = offset(width, left, row, 0);
    if start <= k < start + (right - left) * 4 {
        let r = k - row * (width * 4);
        let u = r / 4;
        assert(0 <= u < width);
        assert(k == offset(width, u, row, r % 4));
        lemma_offset_distinct(width, x, y, c, u, row, r % 4);
    }
}

/// Overwrite `count` bytes of `bits` from `target` on with those of `source` from
/// `from` on.
pub(crate) fn copy_run(bits: &mut Vec<u8>, target: usize, source: &Vec<u8>, from: usize, count: usize)
    requires
        target + count <= old(bits)@.len(),
        from + count <= source@.len(),
    ensures
        final(bits)@.len() == old(bits)@.len(),
        forall|k: int|
            0 <= k < old(bits)@.len() ==> #[trigger] final(bits)@[k] == (if target <= k < target
                + count {
                source@[from + (k - target)]
            } else {
                old(bits)@[k]
            }),
{
    let room: usize = bits.len();
    let have: usize = source.len();
    let mut i: usize = 0;
    while i < count
        invariant
            room == bits@.len(),
            room == old(bits)@.len(),
            have == source@.len(),
            target + count <= room,
            from + count <= have,
            0 <= i <= count,
            forall|k: int|
                0 <= k < room ==> #[trigger] bits@[k] == (if target <= k < target + i {
                    source@[from + (k - target)]
                } else {
                    old(bits)@[k]
                }),
        decreases count - i,
    {
        bits[target + i] = source[from + i];
        i = i + 1;
    }
}

/// Where channel 0 of the pixel at `(x, y)` is stored, for a pixel that a buffer of
/// `len` bytes holds.
pub(crate) fn byte_offset(width: i32, x: i32, y: i32, len: usize) -> (r: usize)
    requires
        0 <= x < width,
        0 <= y,
        offset(width as int, x as int, y as int, 0) < len,
    ensures
        r == offset(width as int, x as int, y as int, 0),
{
    assert(0 <= y * (width * 4)) by (nonlinear_arith)
        requires
            0 <= y,
            0 < width,
    ;
    assert(y == 0 || width * 4 <= y * (width * 4)) by (nonlinear_arith)
        requires
            0 <= y,
            0 < width,
    ;
    if y == 0 {
        assert(y * (width * 4) == 0) by (nonlinear_arith)
            requires
                y == 0,
        ;
        x as usize * 4
    } else {
        y as usize * (width as usize * 4) + x as usize * 4
    }
}

impl Shot {
    /// The buffer holds exactly the pixels that the size promises.
    pub open spec fn wf(self) -> bool {
        &&& self.width >= 0
        &&& self.height >= 0
        &&& self.bgra@.len() == self.height * (self.width * 4)
    }

    /// Is `(x, y)` a pixel of this shot?
    pub open spec fn has(self, x: int, y: int) -> bool {
        0 <= x < self.width && 0 <= y < self.height
    }

    /// Channel `c` of the pixel at `(x, y)`.
    pub open spec fn at(self, x: int, y: int, c: int) -> u8 {
        self.bgra@[offset(self.width as int, x, y, c)]
    }

    /// Bytes per row.
    pub fn stride(&self) -> (r: usize)
        requires
            self.width >= 0,
            self.width * 4 <= usize::MAX,
        ensures
            r == self.width * 4,
    {
        self.width as usize * 4
    }

    /// The left, top, right and bottom edge of `(x, y, width, height)` after it
    /// has been clamped to this shot.
    pub open spec fn crop_edges(self, x: int, y: int, width: int, height: int) -> (
        int,
        int,
        int,
        int,
    ) {
        let left = clamped_to(x, 0, self.width as int);
        let top = clamped_to(y, 0, self.height as int);
        (
            left,
            top,
            clamped_to(x + width, left, self.width as int),
            clamped_to(y + height, top, self.height as int),
        )
    }

    /// A rectangle `(x, y, w, h)` inside this shot, clamped to its bounds.
    ///
    /// Clamping rather than refusing: a selection dragged past the edge of the
    /// screen is a normal thing to do, and the user means "as far as it goes".
    pub fn crop(&self, x: i32, y: i32, width: i32, height: i32) -> (r: Option<Shot>)
        requires
            self.wf(),
            i32::MIN <= x + width <= i32::MAX,
            i32::MIN <= y + height <= i32::MAX,
        ensures
            ({
                let (left, top, right, bottom) = self.crop_edges(
                    x as int,
                    y as int,
                    width as int,
                    height as int,
                );
                match r {
                    None => right <= left || bottom <= top,
                    Some(shot) => {
                        &&& left < right && top < bottom
                        &&& shot.wf()
                        &&& shot.width == right - left
                        &&& shot.height == bottom - top
                        &&& forall|i: int, j: int, c: int|
                            shot.has(i, j) && 0 <= c < 4 ==> #[trigger] shot.at(i, j, c) == self.at(
                                left + i,
                                top + j,
                                c,
                            )
                    },
                }
            }),
    {
        let left: i32 = clamp_i32(x, 0, self.width);
        let top: i32 = clamp_i32(y, 0, self.height);
        let right: i32 = clamp_i32(x + width, left, self.width);
        let bottom: i32 = clamp_i32(y + height, top, self.height);
        let w: i32 = right - left;
        let h: i32 = bottom - top;
        if w <= 0 || h <= 0 {
            return None;
        }
        let total: usize = self.bgra.len();
        assert(self.width * 4 <= self.height * (self.width * 4)) by (nonlinear_arith)
            requires
                self.height >= 1,
                self.width >= 0,
        ;
        let stride: usize = self.stride();
        let row_bytes: usize = w as usize * 4;
        let mut bgra: Vec<u8> = Vec::new();
        let mut row: usize = 0;
        while row < h as usize
            invariant
                self.wf(),
                total == self.bgra@.len(),
                0 <= left < right <= self.width,
                0 <= top < bottom <= self.height,
                w == right - left,
                h == bottom - top,
                stride == self.width * 4,
                row_bytes == w * 4,
                0 <= row <= h,
                bgra@.len() == row * row_bytes,
                forall|j: int, k: int|
                    0 <= j < row && 0 <= k < row_bytes ==> #[trigger] bgra@[j * row_bytes + k]
                        == self.bgra@[(top + j) * stride + left * 4 + k],
            decreases h - row,
        {
            proof {
                assert((top + row) * stride + stride <= self.height * stride) by (nonlinear_arith)
                    requires
                        top + row < self.height,
                        stride >= 0,
                ;
                assert((top + row) * stride >= 0) by (nonlinear_arith)
                    requires
                        top + row >= 0,
                        stride >= 0,
                ;
                assert(self.height * stride == total);
            }
            let src: usize = (top as usize + row) * stride + left as usize * 4;
            let ghost before = bgra@;
            append_range(&mut bgra, &self.bgra, src, row_bytes);
            proof {
                assert((row + 1) * row_bytes == row * row_bytes + row_bytes) by (nonlinear_arith);
                assert forall|j: int, k: int|
                    0 <= j < row + 1 && 0 <= k < row_bytes implies #[trigger] bgra@[j * row_bytes
                    + k] == self.bgra@[(top + j) * stride + left * 4 + k] by {
                    if j < row {
                        assert(j * row_bytes + row_bytes <= row * row_bytes) by (nonlinear_arith)
                            requires
                                0 <= j < row,
                                row_bytes >= 0,
                        ;
                        assert(0 <= j * row_bytes) by (nonlinear_arith)
                            requires
                                0 <= j,
                                row_bytes >= 0,
                        ;
                        assert(bgra@[j * row_bytes + k] == before[j * row_bytes + k]);
                    } else {
                        assert(bgra@[before.len() + k] == self.bgra@[src + k]);
                    }
                }
            }
            row = row + 1;
        }
        let shot = Shot { width: w, height: h, bgra };
        proof {
            assert forall|i: int, j: int, c: int| shot.has(i, j) && 0 <= c < 4 implies
                #[trigger] shot.at(i, j, c) == self.at(left + i, top + j, c) by {
                let k = i * 4 + c;
                assert(0 <= k < row_bytes);
                assert(bgra@[j * row_bytes + k] == self.bgra@[(top + j) * stride + left * 4 + k]);
                assert(offset(w as int, i, j, c) == j * row_bytes + k);
                assert(offset(self.width as int, left + i, top + j, c) == (top + j) * stride + left
                    * 4 + k);
            }
        }
        Some(shot)
    }

    /// Force every pixel opaque.
    pub fn opaque(&mut self)
        ensures
            final(self).width == old(self).width,
            final(self).height == old(self).height,
            final(self).bgra@.len() == old(self).bgra@.len(),
            forall|k: int|
                0 <= k < old(self).bgra@.len() ==> #[trigger] final(self).bgra@[k] == (if k % 4
                    == 3 {
                    0xFFu8
                } else {
                    old(self).bgra@[k]
                }),
    {
        let mut k: usize = 0;
        let n: usize = self.bgra.len();
        while k < n
            invariant
                0 <= k <= n,
                n == self.bgra@.len(),
                n == old(self).bgra@.len(),
                self.width == old(self).width,
                self.height == old(self).height,
                forall|m: int|
                    0 <= m < n ==> #[trigger] self.bgra@[m] == (if m < k && m % 4 == 3 {
                        0xFFu8
                    } else {
                        old(self).bgra@[m]
                    }),
            decreases n - k,
        {
            if k % 4 == 3 {
                self.bgra[k] = 0xFF;
            }
            k = k + 1;
        }
    }

    /// The alpha that a dimming factor stands for: the factor, held to
    /// `0.0..=1.0`, in 255ths.
    pub open spec fn dim_alpha(factor: Factor) -> int {
        if factor.numerator > factor.denominator {
            255
        } else {
            rounded(factor.numerator * 255, factor.denominator as int)
        }
    }

    /// Premultiplied `(colour * factor, alpha = factor)`, for dimming.
    ///
    /// Premultiplied because that is what a layered window expects: writing a
    /// straight colour with a low alpha produces a bright halo instead of a darker
    /// pixel.
    pub fn dim(&self, factor: Factor) -> (r: Shot)
        requires
            self.wf(),
            factor.wf(),
        ensures
            r.wf(),
            r.width == self.width,
            r.height == self.height,
            0 <= Self::dim_alpha(factor) <= 255,
            forall|k: int|
                0 <= k < self.bgra@.len() ==> #[trigger] r.bgra@[k] == (if k % 4 == 3 {
                    Self::dim_alpha(factor)
                } else {
                    self.bgra@[k] * Self::dim_alpha(factor) / 255
                }),
    {
        let alpha: u32 = if factor.numerator > factor.denominator {
            255
        } else {
            let n: u64 = factor.numerator as u64;
            let d: u64 = factor.denominator as u64;
            assert((2 * n * 255 + d) / (2 * d) <= 255) by (nonlinear_arith)
                requires
                    n <= d,
                    d > 0,
            ;
            let a: u64 = (2 * n * 255 + d) / (2 * d);
            a as u32
        };
        assert(alpha == Self::dim_alpha(factor));
        let mut bgra: Vec<u8> = Vec::new();
        let n: usize = self.bgra.len();
        let mut k: usize = 0;
        while k < n
            invariant
                0 <= k <= n,
                n == self.bgra@.len(),
                bgra@.len() == k,
                alpha <= 255,
                forall|m: int|
                    0 <= m < k ==> #[trigger] bgra@[m] == (if m % 4 == 3 {
                        alpha as int
                    } else {
                        self.bgra@[m] * alpha / 255
                    }),
            decreases n - k,
        {
            if k % 4 == 3 {
                bgra.push(alpha as u8);
            } else {
                let channel: u32 = self.bgra[k] as u32;
                assert(channel * alpha <= 255 * 255 && channel * alpha / 255 <= 255)
                    by (nonlinear_arith)
                    requires
                        channel <= 255,
                        alpha <= 255,
                ;
                bgra.push((channel * alpha / 255) as u8);
            }
            k = k + 1;
        }
        Shot { width: self.width, height: self.height, bgra }
    }

    /// Channel `c` at `(i, j)` once `patch` lies at `(x, y)`: the patch's where the patch
    /// covers the pixel, and this shot's own everywhere else.
    pub open spec fn patched(self, patch: Shot, x: int, y: int, i: int, j: int, c: int) -> u8 {
        if patch.has(i - x, j - y) {
            patch.at(i - x, j - y, c)
        } else {
            self.at(i, j, c)
        }
    }

    /// Copy `patch` into this shot at `(x, y)`, replacing what is there.
    ///
    /// Used to punch the selection out of the dimmed overlay: the patch is the
    /// snapshot of the same region at full brightness. What of the patch falls outside
    /// is left out.
    pub fn blit(&mut self, patch: &Shot, x: i32, y: i32)
        requires
            old(self).wf(),
            patch.wf(),
        ensures
            final(self).wf(),
            final(self).width == old(self).width,
            final(self).height == old(self).height,
            forall|i: int, j: int, c: int|
                old(self).has(i, j) && 0 <= c < 4 ==> #[trigger] final(self).at(i, j, c)
                    == old(self).patched(*patch, x as int, y as int, i, j, c),
    {
        let ghost origin = *self;
        let left: i32 = if x < 0 {
            0
        } else {
            x
        };
        let top: i32 = if y < 0 {
            0
        } else {
            y
        };
        let patch_right: i64 = x as i64 + patch.width as i64;
        let patch_bottom: i64 = y as i64 + patch.height as i64;
        let right: i32 = if patch_right < self.width as i64 {
            patch_right as i32
        } else {
            self.width
        };
        let bottom: i32 = if patch_bottom < self.height as i64 {
            patch_bottom as i32
        } else {
            self.height
        };
        if left >= right {
            return;
        }
        let room: usize = self.bgra.len();
        let have: usize = patch.bgra.len();
        let ghost w = origin.width as int;
        let ghost pw = patch.width as int;
        let mut row: i32 = top;
        while row < bottom
            invariant
                origin == *old(self),
                origin.wf(),
                patch.wf(),
                w == origin.width,
                pw == patch.width,
                self.width == origin.width,
                self.height == origin.height,
                self.bgra@.len() == origin.bgra@.len(),
                room == self.bgra@.len(),
                have == patch.bgra@.len(),
                left == (if x < 0 {
                    0
                } else {
                    x as int
                }),
                top == (if y < 0 {
                    0
                } else {
                    y as int
                }),
                right == (if x + pw < w {
                    x + pw
                } else {
                    w
                }),
                bottom == (if y + patch.height < origin.height {
                    y + patch.height
                } else {
                    origin.height as int
                }),
                left < right,
                top <= row,
                row <= bottom || row == top,
                forall|i: int, j: int, c: int|
                    origin.has(i, j) && 0 <= c < 4 ==> #[trigger] self.bgra@[offset(w, i, j, c)]
                        == (if j < row {
                        origin.patched(*patch, x as int, y as int, i, j, c)
                    } else {
                        origin.at(i, j, c)
                    }),
            decreases bottom - row,
        {
            let ghost before = self.bgra@;
            let ghost start = offset(w, left as int, row as int, 0);
            let ghost source = offset(pw, left - x, row - y, 0);
            proof {
                lemma_offset_bounds(w, origin.height as int, left as int, row as int, 0);
                lemma_offset_bounds(w, origin.height as int, right - 1, row as int, 3);
                lemma_offset_bounds(pw, patch.height as int, left - x, row - y, 0);
                lemma_offset_bounds(pw, patch.height as int, right - 1 - x, row - y, 3);
            }
            let to: usize = byte_offset(self.width, left, row, room);
            let from: usize = byte_offset(
                patch.width,
                (left as i64 - x as i64) as i32,
                (row as i64 - y as i64) as i32,
                have,
            );
            let count: usize = (right - left) as usize * 4;
            copy_run(&mut self.bgra, to, &patch.bgra, from, count);
            proof {
                assert forall|i: int, j: int, c: int| origin.has(i, j) && 0 <= c < 4 implies
                    #[trigger] self.bgra@[offset(w, i, j, c)] == (if j < row + 1 {
                    origin.patched(*patch, x as int, y as int, i, j, c)
                } else {
                    origin.at(i, j, c)
                }) by {
                    let k = offset(w, i, j, c);
                    lemma_offset_bounds(w, origin.height as int, i, j, c);
                    assert(before[k] == before[offset(w, i, j, c)]);
                    lemma_pixel_in_run(w, i, j, c, row as int, left as int, right as int);
                    if j == row && left <= i < right {
                        assert(k - start == (i - left) * 4 + c);
                        assert(source + (k - start) == offset(pw, i - x, j - y, c));
                    }
                }
            }
            row = row + 1;
        }
    }

    /// The factor that a zoom really uses: at least a twentieth.
    pub open spec fn scale_used(factor: Factor) -> (int, int) {
        if factor.numerator * 20 < factor.denominator {
            (1, 20)
        } else {
            (factor.numerator as int, factor.denominator as int)
        }
    }

    /// The length that `length` pixels have after scaling: never zero.
    pub open spec fn scaled_length(length: int, factor: Factor) -> int {
        let (n, d) = Self::scale_used(factor);
        let r = rounded(length * n, d);
        if r < 1 {
            1
        } else {
            r
        }
    }

    /// The source position that position `i` of a scaled side of `length` pixels
    /// shows.
    pub open spec fn scaled_source(i: int, length: int, factor: Factor) -> int {
        let (n, d) = Self::scale_used(factor);
        let s = i * d / n;
        if s < length - 1 {
            s
        } else {
            length - 1
        }
    }

    /// Nearest-neighbour scale, used by the pin window's zoom.
    ///
    /// Nearest rather than a filter: the source is pixel art as often as it is a
    /// photograph, and a pixel that is a copy of its neighbour is what the user
    /// expects when they zoom into a screenshot to read small text.
    pub fn scaled(&self, factor: Factor) -> (r: Shot)
        requires
            self.wf(),
            self.width > 0,
            self.height > 0,
            factor.wf(),
            Self::scaled_length(self.width as int, factor) <= i32::MAX,
            Self::scaled_length(self.height as int, factor) <= i32::MAX,
            Self::scaled_length(self.height as int, factor) * (Self::scaled_length(
                self.width as int,
                factor,
            ) * 4) <= usize::MAX,
        ensures
            r.wf(),
            r.width == Self::scaled_length(self.width as int, factor),
            r.height == Self::scaled_length(self.height as int, factor),
            forall|i: int, j: int, c: int|
                r.has(i, j) && 0 <= c < 4 ==> #[trigger] r.at(i, j, c) == self.at(
                    Self::scaled_source(i, self.width as int, factor),
                    Self::scaled_source(j, self.height as int, factor),
                    c,
                ),
    {
        let width: i32 = scale_length(self.width, factor);
        let height: i32 = scale_length(self.height, factor);
        assert(self.width * 4 <= self.height * (self.width * 4)) by (nonlinear_arith)
            requires
                self.height >= 1,
                self.width >= 0,
        ;
        let total: usize = self.bgra.len();
        let stride: usize = self.stride();
        let mut bgra: Vec<u8> = Vec::new();
        let mut row: i32 = 0;
        let ghost line = width * 4;
        while row < height
            invariant
                self.wf(),
                self.width > 0,
                self.height > 0,
                factor.wf(),
                0 < width,
                0 < height,
                line == width * 4,
                stride == self.width * 4,
                total == self.bgra@.len(),
                0 <= row <= height,
                bgra@.len() == row * line,
                forall|i: int, j: int, c: int|
                    0 <= i < width && 0 <= j < row && 0 <= c < 4 ==> #[trigger] bgra@[offset(
                        width as int,
                        i,
                        j,
                        c,
                    )] == self.at(
                        Self::scaled_source(i, self.width as int, factor),
                        Self::scaled_source(j, self.height as int, factor),
                        c,
                    ),
            decreases height - row,
        {
            let src_y: usize = scale_source(row, self.height, factor);
            let mut column: i32 = 0;
            while column < width
                invariant
                    self.wf(),
                    self.width > 0,
                    self.height > 0,
                    factor.wf(),
                    0 < width,
                    line == width * 4,
                    stride == self.width * 4,
                    total == self.bgra@.len(),
                    0 <= row < height,
                    0 <= column <= width,
                    src_y == Self::scaled_source(row as int, self.height as int, factor),
                    0 <= src_y < self.height,
                    bgra@.len() == row * line + column * 4,
                    forall|i: int, j: int, c: int|
                        0 <= i < width && 0 <= j <= row && 0 <= c < 4 && (j < row || i < column)
                            ==> #[trigger] bgra@[offset(width as int, i, j, c)] == self.at(
                            Self::scaled_source(i, self.width as int, factor),
                            Self::scaled_source(j, self.height as int, factor),
                            c,
                        ),
                decreases width - column,
            {
                let src_x: usize = scale_source(column, self.width, factor);
                proof {
                    lemma_offset_bounds(
                        self.width as int,
                        self.height as int,
                        src_x as int,
                        src_y as int,
                        0,
                    );
                    assert(0 <= src_y * stride <= total) by (nonlinear_arith)
                        requires
                            0 <= src_y < self.height,
                            total == self.height * stride,
                            stride >= 0,
                    ;
                }
                let src: usize = src_y * stride + src_x * 4;
                let ghost before = bgra@;
                append_range(&mut bgra, &self.bgra, src, 4);
                proof {
                    assert forall|i: int, j: int, c: int|
                        0 <= i < width && 0 <= j <= row && 0 <= c < 4 && (j < row || i < column
                            + 1) implies #[trigger] bgra@[offset(width as int, i, j, c)]
                        == self.at(
                        Self::scaled_source(i, self.width as int, factor),
                        Self::scaled_source(j, self.height as int, factor),
                        c,
                    ) by {
                        let k = offset(width as int, i, j, c);
                        if j == row && i == column {
                            assert(bgra@[k] == self.bgra@[src + c]);
                        } else {
                            assert(k < before.len() && 0 <= k) by (nonlinear_arith)
                                requires
                                    k == j * line + (i * 4 + c),
                                    before.len() == row * line + column * 4,
                                    0 <= i < width,
                                    0 <= column,
                                    0 <= c < 4,
                                    0 <= j <= row,
                                    line == width * 4,
                                    j < row || (j == row && i < column),
                            ;
                            assert(bgra@[k] == before[k]);
                        }
                    }
                }
                column = column + 1;
            }
            assert((row + 1) * line == row * line + line) by (nonlinear_arith);
            row = row + 1;
        }
        Shot { width, height, bgra }
    }

    /// Encode as a BMP: a `BITMAPFILEHEADER` in front of a `CF_DIB`.
    ///
    /// Top-down (negative height) to match how the pixels are already stored, so
    /// nothing has to be flipped. `None` when the file would be too long for the
    /// format's 32-bit size field.
    pub fn to_bmp(&self) -> (r: Option<Vec<u8>>)
        requires
            self.wf(),
        ensures
            match r {
                None => self.bgra@.len() + 54 > u32::MAX,
                Some(bmp) => {
                    &&& self.bgra@.len() + 54 <= u32::MAX
                    &&& bmp@ == bmp_file_header((self.bgra@.len() + 54) as int) + dib_header(
                        self.width as int,
                        -(self.height as int),
                        self.bgra@.len() as int,
                    ) + self.bgra@
                },
            },
    {
        let pixels: usize = self.bgra.len();
        if pixels as u64 > 0xffff_ffff - 54 {
            return None;
        }
        let mut bmp: Vec<u8> = Vec::new();
        bmp.push(0x42);
        bmp.push(0x4d);
        push_u32(&mut bmp, (pixels as u64 + 54) as u32);
        push_u32(&mut bmp, 0);
        push_u32(&mut bmp, 54);
        assert(bmp@ =~= bmp_file_header((self.bgra@.len() + 54) as int));
        let height: u32 = if self.height == 0 {
            0
        } else {
            (0x1_0000_0000u64 - self.height as u64) as u32
        };
        push_dib_header(&mut bmp, self.width as u32, height, pixels as u32);
        proof {
            let two32 = 0x1_0000_0000int;
            assert((-(self.height as int)) % two32 == height);
        }
        append_range(&mut bmp, &self.bgra, 0, pixels);
        assert(self.bgra@.subrange(0, pixels as int) =~= self.bgra@);
        Some(bmp)
    }

    /// Encode as a `CF_DIB` payload ready for the clipboard.
    ///
    /// Bottom-up (positive height), unlike [`Self::to_bmp`]: `CF_DIB` is an
    /// interchange format and plenty of consumers still assume the original
    /// bottom-up layout. The rows are written in reverse rather than flipping the
    /// buffer, so the stored shot is untouched.
    pub fn to_dib(&self) -> (r: Vec<u8>)
        requires
            self.wf(),
            self.width * 4 <= usize::MAX,
            self.bgra@.len() + 40 <= usize::MAX,
        ensures
            r@.len() == 40 + self.bgra@.len(),
            r@.subrange(0, 40) == dib_header(
                self.width as int,
                self.height as int,
                self.bgra@.len() as int,
            ),
            forall|x: int, y: int, c: int|
                self.has(x, y) && 0 <= c < 4 ==> r@[40 + #[trigger] offset(
                    self.width as int,
                    x,
                    y,
                    c,
                )] == self.at(x, self.height - 1 - y, c),
    {
        let mut dib: Vec<u8> = Vec::new();
        let pixels: usize = self.bgra.len();
        let stride: usize = self.stride();
        push_dib_header(
            &mut dib,
            self.width as u32,
            self.height as u32,
            (pixels as u64 % 0x1_0000_0000) as u32,
        );
        let ghost header = dib@;
        let ghost height = self.height as int;
        let mut row: usize = self.height as usize;
        assert((height - row) * stride == 0) by (nonlinear_arith)
            requires
                height - row == 0,
        ;
        while row > 0
            invariant
                self.wf(),
                height == self.height,
                0 <= row <= height,
                stride == self.width * 4,
                pixels == self.bgra@.len(),
                header.len() == 40,
                dib@.len() == 40 + (height - row) * stride,
                dib@.subrange(0, 40) =~= header,
                forall|j: int, k: int|
                    0 <= j < height - row && 0 <= k < stride ==> #[trigger] dib@[40 + j * stride
                        + k] == self.bgra@[(height - 1 - j) * stride + k],
            decreases row,
        {
            row = row - 1;
            assert(row * stride + stride <= pixels && 0 <= row * stride) by (nonlinear_arith)
                requires
                    0 <= row < height,
                    pixels == height * stride,
                    stride >= 0,
            ;
            let ghost before = dib@;
            append_range(&mut dib, &self.bgra, row * stride, stride);
            proof {
                let done = height - 1 - row;
                assert((done + 1) * stride == done * stride + stride) by (nonlinear_arith);
                assert forall|j: int, k: int|
                    0 <= j < height - row && 0 <= k < stride implies #[trigger] dib@[40 + j
                    * stride + k] == self.bgra@[(height - 1 - j) * stride + k] by {
                    if j < done {
                        assert(j * stride + stride <= done * stride && 0 <= j * stride)
                            by (nonlinear_arith)
                            requires
                                0 <= j < done,
                                stride >= 0,
                        ;
                        assert(dib@[40 + j * stride + k] == before[40 + j * stride + k]);
                    } else {
                        assert(dib@[before.len() + k] == self.bgra@[row * stride + k]);
                    }
                }
                assert(dib@.subrange(0, 40) =~= before.subrange(0, 40)) by {
                    assert(0 <= done * stride) by (nonlinear_arith)
                        requires
                            0 <= done,
                            stride >= 0,
                    ;
                }
            }
        }
        proof {
            assert forall|x: int, y: int, c: int| self.has(x, y) && 0 <= c < 4 implies dib@[40
                + #[trigger] offset(self.width as int, x, y, c)] == self.at(x, height - 1 - y, c) by {
                let k = x * 4 + c;
                assert(dib@[40 + y * stride + k] == self.bgra@[(height - 1 - y) * stride + k]);
            }
        }
        dib
    }
}

/// The four bytes of `value`, least significant first, in two's complement.
pub open spec fn le32(value: int) -> Seq<u8> {
    let v = value % 0x1_0000_0000;
    seq![
        (v % 256) as u8,
        (v / 256 % 256) as u8,
        (v / 65536 % 256) as u8,
        (v / 16777216) as u8,
    ]
}

/// The `BITMAPINFOHEADER` of an uncompressed image with 32 bits per pixel.
pub open spec fn dib_header(width: int, height: int, size: int) -> Seq<u8> {
    le32(40) + le32(width) + le32(height) + seq![1u8, 0u8, 32u8, 0u8] + le32(0) + le32(size)
        + le32(0) + le32(0) + le32(0) + le32(0)
}

/// The `BITMAPFILEHEADER` of a file of `size` bytes whose pixels start behind the
/// two headers.
pub open spec fn bmp_file_header(size: int) -> Seq<u8> {
    seq![0x42u8, 0x4du8] + le32(size) + le32(0) + le32(54)
}

fn push_u32(out: &mut Vec<u8>, value: u32)
    ensures
        final(out)@ == old(out)@ + le32(value as int),
{
    out.push((value % 256) as u8);
    out.push((value / 256 % 256) as u8);
    out.push((value / 65536 % 256) as u8);
    out.push((value / 16777216) as u8);
    assert(out@ =~= old(out)@ + le32(value as int));
}

fn push_dib_header(out: &mut Vec<u8>, width: u32, height: u32, size: u32)
    ensures
        final(out)@ == old(out)@ + dib_header(width as int, height as int, size as int),
        dib_header(width as int, height as int, size as int).len() == 40,
{
    push_u32(out, 40);
    push_u32(out, width);
    push_u32(out, height);
    out.push(1);
    out.push(0);
    out.push(32);
    out.push(0);
    push_u32(out, 0);
    push_u32(out, size);
    push_u32(out, 0);
    push_u32(out, 0);
    push_u32(out, 0);
    push_u32(out, 0);
    assert(out@ =~= old(out)@ + dib_header(width as int, height as int, size as int));
}

/// What a screen grab of `width` by `height` pixels comes to, given the pixels
/// that were copied, if the copy went through.
///
/// `None` when the rectangle is empty or nothing could be copied.
pub fn grab(width: i32, height: i32, copied: Option<Vec<u8>>) -> (r: Option<Shot>)
    ensures
        match r {
            None => width <= 0 || height <= 0 || copied is None || copied->0@.len() != height * (
            width * 4),
            Some(shot) => {
                &&& width > 0 && height > 0
                &&& copied is Some
                &&& shot.wf()
                &&& shot.width == width
                &&& shot.height == height
                &&& shot.bgra@ == copied->0@
            },
        },
{
    if width <= 0 || height <= 0 {
        return None;
    }
    match copied {
        None => None,
        Some(bgra) => {
            assert(0 <= width * 4 <= 0x1_ffff_fffc);
            assert(0 <= height * (width * 4) <= 0x7fff_ffff * 0x1_ffff_fffc) by (nonlinear_arith)
                requires
                    0 <= height <= 0x7fff_ffff,
                    0 <= width * 4 <= 0x1_ffff_fffc,
            ;
            if bgra.len() as u128 != height as u128 * (width as u128 * 4) {
                return None;
            }
            Some(Shot { width, height, bgra })
        },
    }
}

/// The whole desktop, from the system's metrics for its corner and its size.
/// `None` when the system reports no screen at all.
pub fn virtual_screen_rect(left: i32, top: i32, width: i32, height: i32) -> (r: Option<ScreenRect>)
    requires
        width > 0 && height > 0 ==> left + width <= i32::MAX && top + height <= i32::MAX,
    ensures
        r == (if width <= 0 || height <= 0 {
            None
        } else {
            Some(
                ScreenRect {
                    left,
                    top,
                    right: (left + width) as i32,
                    bottom: (top + height) as i32,
                },
            )
        }),
{
    if width <= 0 || height <= 0 {
        return None;
    }
    Some(ScreenRect { left, top, right: left + width, bottom: top + height })
}

/// The grab that takes the bounding box of every monitor: its corner and size in
/// virtual-screen coordinates, from the system's metrics.
pub fn virtual_screen(left: i32, top: i32, width: i32, height: i32) -> (r: Option<
    (i32, i32, i32, i32),
>)
    requires
        width > 0 && height > 0 ==> left + width <= i32::MAX && top + height <= i32::MAX,
    ensures
        r == (if width <= 0 || height <= 0 {
            None
        } else {
            Some((left, top, width, height))
        }),
{
    match virtual_screen_rect(left, top, width, height) {
        None => None,
        Some(rect) => Some((rect.left, rect.top, rect.right - rect.left, rect.bottom - rect.top)),
    }
}

/// One side of a scaled shot: [`Shot::scaled_length`].
fn scale_length(length: i32, factor: Factor) -> (r: i32)
    requires
        length > 0,
        factor.wf(),
        Shot::scaled_length(length as int, factor) <= i32::MAX,
    ensures
        r == Shot::scaled_length(length as int, factor),
        r > 0,
{
    let (n, d): (u128, u128) = if factor.numerator as u64 * 20 < factor.denominator as u64 {
        (1, 20)
    } else {
        (factor.numerator as u128, factor.denominator as u128)
    };
    let l: u128 = length as u128;
    assert(l * n <= 0x7fff_ffff * 0xffff_ffff) by (nonlinear_arith)
        requires
            l <= 0x7fff_ffff,
            n <= 0xffff_ffff,
    ;
    let r: u128 = (2 * (l * n) + d) / (2 * d);
    assert(r == rounded(length * n, d as int));
    if r < 1 {
        1
    } else {
        r as i32
    }
}

/// One coordinate of the pixel that a scaled position shows:
/// [`Shot::scaled_source`].
fn scale_source(i: i32, length: i32, factor: Factor) -> (r: usize)
    requires
        0 <= i,
        length > 0,
        factor.wf(),
    ensures
        r == Shot::scaled_source(i as int, length as int, factor),
        0 <= r < length,
{
    let (n, d): (u128, u128) = if factor.numerator as u64 * 20 < factor.denominator as u64 {
        (1, 20)
    } else {
        (factor.numerator as u128, factor.denominator as u128)
    };
    let p: u128 = i as u128;
    assert(p * d <= 0x7fff_ffff * 0xffff_ffff) by (nonlinear_arith)
        requires
            p <= 0x7fff_ffff,
            d <= 0xffff_ffff,
    ;
    let s: u128 = p * d / n;
    let last: u128 = (length - 1) as u128;
    if s < last {
        s as usize
    } else {
        last as usize
    }
}

/// A picture is stored row by row from the top, pixel by pixel from the left, four bytes to a
/// pixel.
pub proof fn pixels_are_stored_in_reading_order(width: int, x: int, y: int, c: int)
    ensures
        offset(width, x, y, c) == 4 * (y * width + x) + c,
        offset(width, x + 1, y, c) == offset(width, x, y, c) + 4,
        offset(width, x, y + 1, c) == offset(width, x, y, c) + 4 * width,
        offset(width, x, y, c + 1) == offset(width, x, y, c) + 1,
{
    assert(y * (width * 4) + (x * 4 + c) == 4 * (y * width + x) + c) by (nonlinear_arith);
    assert((y + 1) * (width * 4) == y * (width * 4) + 4 * width) by (nonlinear_arith);
}

/// A crop takes exactly the pixels of the asked rectangle that the picture has.
pub proof fn a_crop_takes_what_there_is(
    shot: Shot,
    x: int,
    y: int,
    width: int,
    height: int,
    px: int,
    py: int,
)
    requires
        shot.wf(),
    ensures
        ({
            let (left, top, right, bottom) = shot.crop_edges(x, y, width, height);
            &&& left <= px < right && top <= py < bottom <==> x <= px < x + width && y <= py < y
                + height && 0 <= px < shot.width && 0 <= py < shot.height
            &&& 0 <= left <= right <= shot.width
            &&& 0 <= top <= bottom <= shot.height
        }),
{
}

/// The alpha of a dimming is its share of 255 to the nearest step, halves upwards, and full
/// from one on. A brighter factor never dims more.
#[verifier::spinoff_prover]
pub proof fn dimming_is_the_share_of_255(factor: Factor, more: Factor)
    requires
        factor.wf(),
        more.wf(),
        factor.numerator * more.denominator <= more.numerator * factor.denominator,
    ensures
        factor.numerator >= factor.denominator ==> Shot::dim_alpha(factor) == 255,
        factor.numerator < factor.denominator ==> -factor.denominator < 2 * (Shot::dim_alpha(factor)
            * factor.denominator - 255 * factor.numerator) <= factor.denominator,
        0 <= Shot::dim_alpha(factor) <= Shot::dim_alpha(more) <= 255,
{
    let (n, d) = (factor.numerator as int, factor.denominator as int);
    let (m, e) = (more.numerator as int, more.denominator as int);
    rounding_is_to_the_nearest(n * 255, d);
    rounding_is_to_the_nearest(m * 255, e);
    let (a, b) = (rounded(n * 255, d), rounded(m * 255, e));
    assert(a <= b) by (nonlinear_arith)
        requires
            -d < 2 * (a * d - n * 255) <= d,
            -e < 2 * (b * e - m * 255) <= e,
            d > 0,
            e > 0,
            n * e <= m * d,
    ;
    assert(n <= d ==> 0 <= a <= 255) by (nonlinear_arith)
        requires
            -d < 2 * (a * d - n * 255) <= d,
            d > 0,
            n >= 0,
    ;
    assert(m <= e ==> 0 <= b <= 255) by (nonlinear_arith)
        requires
            -e < 2 * (b * e - m * 255) <= e,
            e > 0,
            m >= 0,
    ;
    assert(n == d ==> a == 255) by (nonlinear_arith)
        requires
            -d < 2 * (a * d - n * 255) <= d,
            d > 0,
    ;
    assert(n > d ==> m > e) by (nonlinear_arith)
        requires
            n * e <= m * d,
            d > 0,
            e > 0,
    ;
}

/// A patch shows where it lies, pixel for pixel, and the picture shows everywhere else.
pub proof fn a_patch_lies_where_it_was_put(
    shot: Shot,
    patch: Shot,
    x: int,
    y: int,
    i: int,
    j: int,
    c: int,
)
    ensures
        x <= i < x + patch.width && y <= j < y + patch.height ==> shot.patched(
            patch,
            x,
            y,
            i,
            j,
            c,
        ) == patch.bgra@[4 * ((j - y) * patch.width + (i - x)) + c],
        !(x <= i < x + patch.width && y <= j < y + patch.height) ==> shot.patched(
            patch,
            x,
            y,
            i,
            j,
            c,
        ) == shot.bgra@[4 * (j * shot.width + i) + c],
{
    pixels_are_stored_in_reading_order(patch.width as int, i - x, j - y, c);
    pixels_are_stored_in_reading_order(shot.width as int, i, j, c);
}

/// A scaled side is its length times the factor, to the nearest pixel and never below one; a
/// factor below a twentieth counts as a twentieth. Each scaled pixel shows the original one
/// that it falls on, the last one at the end. A factor of one changes nothing.
#[verifier::spinoff_prover]
pub proof fn scaling_copies_the_nearest_pixel(length: int, i: int, factor: Factor)
    requires
        factor.wf(),
        length > 0,
        i >= 0,
    ensures
        ({
            let small = factor.numerator * 20 < factor.denominator;
            let n = if small {
                1
            } else {
                factor.numerator as int
            };
            let d = if small {
                20
            } else {
                factor.denominator as int
            };
            let scaled = Shot::scaled_length(length, factor);
            let from = Shot::scaled_source(i, length, factor);
            &&& scaled >= 1
            &&& 2 * length * n >= d ==> -d < 2 * (scaled * d - length * n) <= d
            &&& 2 * length * n < d ==> scaled == 1
            &&& 0 <= from < length
            &&& from < length - 1 ==> from * n <= i * d < (from + 1) * n
            &&& from == length - 1 ==> i * d >= (length - 1) * n
            &&& factor.numerator == factor.denominator ==> scaled == length && (i < length ==> from
                == i)
        }),
{
    let (n, d) = Shot::scale_used(factor);
    let p = length * n;
    rounding_is_to_the_nearest(p, d);
    let q = rounded(p, d);
    assert(2 * length * n == 2 * p) by (nonlinear_arith)
        requires
            p == length * n,
    ;
    assert(2 * p >= d ==> q >= 1) by (nonlinear_arith)
        requires
            -d < 2 * (q * d - p) <= d,
            d > 0,
    ;
    assert(2 * p < d ==> q <= 0) by (nonlinear_arith)
        requires
            -d < 2 * (q * d - p) <= d,
            d > 0,
    ;
    let t = i * d;
    let s = t / n;
    assert(0 <= t) by (nonlinear_arith)
        requires
            t == i * d,
            i >= 0,
            d > 0,
    ;
    assert(s * n <= t < (s + 1) * n && s >= 0) by (nonlinear_arith)
        requires
            s == t / n,
            n > 0,
            t >= 0,
    ;
    if s >= length - 1 {
        assert((length - 1) * n <= s * n) by (nonlinear_arith)
            requires
                length - 1 <= s,
                n > 0,
        ;
    }
    if factor.numerator == factor.denominator {
        assert(q == length) by (nonlinear_arith)
            requires
                -d < 2 * (q * d - length * d) <= d,
                d > 0,
        ;
        assert(s == i) by (nonlinear_arith)
            requires
                s * n <= i * n < (s + 1) * n,
                n > 0,
        ;
    }
}

/// The number in four bytes from `at` on, least significant first.
pub open spec fn read32(bytes: Seq<u8>, at: int) -> int {
    bytes[at] + 0x100 * bytes[at + 1] + 0x1_0000 * bytes[at + 2] + 0x100_0000 * bytes[at + 3]
}

proof fn lemma_le32(value: int)
    requires
        0 <= value < 0x1_0000_0000,
    ensures
        le32(value).len() == 4,
        read32(le32(value), 0) == value,
{
    let v = value % 0x1_0000_0000;
    let (a, b, c, d) = (v % 256, v / 256 % 256, v / 65536 % 256, v / 16777216);
    assert(v == a + 256 * b + 65536 * c + 16777216 * d);
}

/// The headers of a bitmap say what is behind them: forty bytes of information header, the
/// width, the height, one plane of thirty-two bits, no compression and the size of the pixels;
/// and before them in a file the letters `BM`, the size of the file and where its pixels begin.
#[verifier::spinoff_prover]
pub proof fn the_headers_describe_the_picture(width: int, height: int, size: int)
    requires
        0 <= width < 0x1_0000_0000,
        0 <= height < 0x1_0000_0000,
        0 <= size < 0x1_0000_0000,
    ensures
        ({
            let info = dib_header(width, height, size);
            &&& info.len() == 40
            &&& read32(info, 0) == 40
            &&& read32(info, 4) == width
            &&& read32(info, 8) == height
            &&& info[12] == 1 && info[13] == 0
            &&& info[14] == 32 && info[15] == 0
            &&& read32(info, 16) == 0
            &&& read32(info, 20) == size
        }),
        ({
            let file = bmp_file_header(size);
            &&& file.len() == 14
            &&& file[0] == 0x42 && file[1] == 0x4D
            &&& read32(file, 2) == size
            &&& read32(file, 10) == 54
        }),
{
    lemma_le32(width);
    lemma_le32(height);
    lemma_le32(size);
    lemma_le32(40);
    lemma_le32(54);
    lemma_le32(0);
    let info = dib_header(width, height, size);
    let head = le32(40) + le32(width) + le32(height);
    let depth = seq![1u8, 0u8, 32u8, 0u8];
    let rest = le32(0) + le32(0) + le32(0) + le32(0);
    assert(info =~= head + depth + le32(0) + le32(size) + rest);
    lemma_read_part(Seq::empty(), le32(40), info.skip(4));
    assert(Seq::<u8>::empty() + le32(40) + info.skip(4) =~= info);
    lemma_read_part(le32(40), le32(width), info.skip(8));
    assert(le32(40) + le32(width) + info.skip(8) =~= info);
    lemma_read_part(le32(40) + le32(width), le32(height), info.skip(12));
    assert(le32(40) + le32(width) + le32(height) + info.skip(12) =~= info);
    lemma_read_part(head + depth, le32(0), info.skip(20));
    assert(head + depth + le32(0) + info.skip(20) =~= info);
    lemma_read_part(head + depth + le32(0), le32(size), rest);
    let file = bmp_file_header(size);
    let mark = seq![0x42u8, 0x4du8];
    lemma_read_part(mark, le32(size), file.skip(6));
    assert(mark + le32(size) + file.skip(6) =~= file);
    lemma_read_part(mark + le32(size) + le32(0), le32(54), Seq::empty());
    assert(mark + le32(size) + le32(0) + le32(54) + Seq::<u8>::empty() =~= file);
}

proof fn lemma_read_part(before: Seq<u8>, part: Seq<u8>, behind: Seq<u8>)
    requires
        part.len() == 4,
    ensures
        read32(before + part + behind, before.len() as int) == read32(part, 0),
{
    let all = before + part + behind;
    let at = before.len() as int;
    assert(all[at] == part[0] && all[at + 1] == part[1] && all[at + 2] == part[2] && all[at + 3]
        == part[3]);
}

} // verus!
