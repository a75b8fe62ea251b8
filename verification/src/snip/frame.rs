//! Composing the overlay's frame buffer: plain copies of regions of the captured
//! screen, and the magnifier's enlarged patch.
//!
//! The buffer is top-down BGRA, like a [`Shot`]. Writing it directly has exactly
//! one behaviour on every machine, which is what the contracts here state.

use vstd::prelude::*;

use crate::snip::area::{overlap, Area};
use crate::snip::capture::{
    byte_offset, copy_run, lemma_offset_bounds, lemma_pixel_in_run, offset,
    pixels_are_stored_in_reading_order, Shot,
};

verus! {

/// Is `(x, y)` a pixel of a buffer of `len` bytes whose rows are `width` wide?
pub open spec fn in_buffer(len: int, width: int, x: int, y: int) -> bool {
    0 <= x < width && 0 <= y && offset(width, x, y, 3) < len
}

/// Does a buffer of `len` bytes whose rows are `width` wide hold every pixel of
/// `area`?
pub open spec fn buffer_holds(len: int, width: int, area: Area) -> bool {
    area.empty() || (0 <= area.left && 0 <= area.top && area.right <= width && offset(
        width,
        area.right - 1,
        area.bottom - 1,
        3,
    ) < len)
}

/// Does byte `k` of a buffer whose rows are `width` wide belong to a pixel of `area`?
pub open spec fn byte_of(width: int, area: Area, k: int) -> bool {
    0 < width && area.covers(k / 4 % width, k / 4 / width)
}

/// Every byte of a buffer is a channel of one of its pixels, or lies behind the last one.
proof fn lemma_byte_is_pixel(len: int, width: int, k: int)
    requires
        0 < width,
        0 <= k < len - len % 4,
    ensures
        k == offset(width, k / 4 % width, k / 4 / width, k % 4),
        in_buffer(len, width, k / 4 % width, k / 4 / width),
{
    let n = k / 4;
    let x = n % width;
    let y = n / width;
    assert(n == y * width + x && 0 <= x < width && 0 <= y) by (nonlinear_arith)
        requires
            0 <= n,
            0 < width,
            x == n % width,
            y == n / width,
    ;
    assert(y * (width * 4) == 4 * (y * width)) by (nonlinear_arith);
}

/// A run of whole pixels ends before the bytes that make up no pixel.
proof fn lemma_run_ends(len: int, width: int, x: int, y: int, count: int)
    requires
        0 <= len,
        offset(width, x, y, 0) + count * 4 <= len,
    ensures
        offset(width, x, y, 0) + count * 4 <= len - len % 4,
{
    assert(y * (width * 4) == 4 * (y * width)) by (nonlinear_arith);
}

/// The part of `area` that a region copy from `shot` draws.
pub open spec fn copied_area(shot: Shot, area: Area, clip: Area) -> Area {
    area.clamp_into(shot.width as int, shot.height as int).meet(clip)
}

/// Every pixel of an area that the buffer holds has its place in it.
proof fn lemma_held_pixel(len: int, width: int, area: Area, x: int, y: int)
    requires
        buffer_holds(len, width, area),
        area.covers(x, y),
    ensures
        in_buffer(len, width, x, y),
        0 <= offset(width, x, y, 0),
        offset(width, x, y, 3) < len,
{
    let last = offset(width, area.right - 1, area.bottom - 1, 3);
    assert(y * (width * 4) <= (area.bottom - 1) * (width * 4)) by (nonlinear_arith)
        requires
            y <= area.bottom - 1,
            width >= 0,
    ;
    assert(0 <= y * (width * 4)) by (nonlinear_arith)
        requires
            0 <= y,
            width >= 0,
    ;
}

/// Copy `area` of `shot` into a top-down BGRA buffer `width` pixels wide, limited
/// to `clip`.
pub fn copy_rows(shot: &Shot, area: Area, bits: &mut Vec<u8>, width: i32, clip: Area)
    requires
        shot.wf(),
        0 <= width,
        buffer_holds(old(bits)@.len() as int, width as int, copied_area(*shot, area, clip)),
    ensures
        final(bits)@.len() == old(bits)@.len(),
        forall|x: int, y: int, c: int|
            in_buffer(old(bits)@.len() as int, width as int, x, y) && 0 <= c < 4
                ==> #[trigger] final(bits)@[offset(width as int, x, y, c)] == (if copied_area(
                *shot,
                area,
                clip,
            ).covers(x, y) {
                shot.at(x, y, c)
            } else {
                old(bits)@[offset(width as int, x, y, c)]
            }),
        forall|k: int|
            0 <= k < old(bits)@.len() && !byte_of(width as int, copied_area(*shot, area, clip), k)
                ==> #[trigger] final(bits)@[k] == old(bits)@[k],
{
    let drawn = match overlap(area.clamped(shot.width, shot.height), clip) {
        None => return,
        Some(drawn) => drawn,
    };
    let ghost len = bits@.len() as int;
    let ghost w = width as int;
    let ghost initial = bits@;
    let ghost sw = shot.width as int;
    let ghost sh = shot.height as int;
    let room: usize = bits.len();
    let have: usize = shot.bgra.len();
    proof {
        lemma_held_pixel(len, w, drawn, drawn.right - 1, drawn.bottom - 1);
        lemma_offset_bounds(sw, sh, drawn.right - 1, drawn.bottom - 1, 3);
        assert((drawn.bottom - 1) * (w * 4) >= 0) by (nonlinear_arith)
            requires
                drawn.bottom >= 1,
                w >= 0,
        ;
        assert((drawn.bottom - 1) * (sw * 4) >= 0) by (nonlinear_arith)
            requires
                drawn.bottom >= 1,
                sw >= 0,
        ;
        assert(sw * 4 <= sh * (sw * 4)) by (nonlinear_arith)
            requires
                sh >= 1,
                sw >= 0,
        ;
    }
    let bytes: usize = (drawn.right - drawn.left) as usize * 4;
    let mut row: i32 = drawn.top;
    while row < drawn.bottom
        invariant
            shot.wf(),
            sw == shot.width,
            sh == shot.height,
            w == width,
            len == bits@.len(),
            len == initial.len(),
            room == len,
            have == shot.bgra@.len(),
            drawn == copied_area(*shot, area, clip),
            drawn.inside(sw, sh),
            !drawn.empty(),
            drawn.right <= w,
            buffer_holds(len, w, drawn),
            bytes == (drawn.right - drawn.left) * 4,
            drawn.top <= row <= drawn.bottom,
            forall|x: int, y: int, c: int|
                in_buffer(len, w, x, y) && 0 <= c < 4 ==> #[trigger] bits@[offset(w, x, y, c)]
                    == (if drawn.covers(x, y) && y < row {
                    shot.at(x, y, c)
                } else {
                    initial[offset(w, x, y, c)]
                }),
            forall|k: int| len - len % 4 <= k < len ==> #[trigger] bits@[k] == initial[k],
        decreases drawn.bottom - row,
    {
        let ghost before = bits@;
        let ghost start = offset(w, drawn.left as int, row as int, 0);
        let ghost origin = offset(sw, drawn.left as int, row as int, 0);
        proof {
            lemma_held_pixel(len, w, drawn, drawn.right - 1, row as int);
            lemma_held_pixel(len, w, drawn, drawn.left as int, row as int);
            lemma_offset_bounds(sw, sh, drawn.right - 1, row as int, 3);
            lemma_offset_bounds(sw, sh, drawn.left as int, row as int, 0);
            lemma_run_ends(len, w, drawn.left as int, row as int, drawn.right - drawn.left);
        }
        let source: usize = byte_offset(shot.width, drawn.left, row, have);
        let target: usize = byte_offset(width, drawn.left, row, room);
        copy_run(bits, target, &shot.bgra, source, bytes);
        proof {
            assert forall|x: int, y: int, c: int|
                in_buffer(len, w, x, y) && 0 <= c < 4 implies #[trigger] bits@[offset(w, x, y, c)]
                == (if drawn.covers(x, y) && y < row + 1 {
                shot.at(x, y, c)
            } else {
                initial[offset(w, x, y, c)]
            }) by {
                let k = offset(w, x, y, c);
                assert(0 <= y * (w * 4)) by (nonlinear_arith)
                    requires
                        0 <= y,
                        w >= 0,
                ;
                assert(0 <= k < len);
                assert(before[k] == before[offset(w, x, y, c)]);
                lemma_pixel_in_run(
                    w,
                    x,
                    y,
                    c,
                    row as int,
                    drawn.left as int,
                    drawn.right as int,
                );
                if y == row && drawn.left <= x < drawn.right {
                    assert(k - start == (x - drawn.left) * 4 + c);
                    assert(origin + (k - start) == offset(sw, x, y, c));
                }
            }
        }
        row = row + 1;
    }
    proof {
        assert forall|k: int| 0 <= k < len && !byte_of(w, drawn, k) implies #[trigger] bits@[k]
            == initial[k] by {
            if k < len - len % 4 {
                lemma_byte_is_pixel(len, w, k);
                let (x, y) = (k / 4 % w, k / 4 / w);
                assert(bits@[offset(w, x, y, k % 4)] == initial[offset(w, x, y, k % 4)]);
            }
        }
    }
}

/// The source position that position `i` of an enlarged side shows.
pub open spec fn sampled(i: int, to: int, to_length: int, from: int, from_length: int) -> int {
    from + (i - to) * from_length / to_length
}

proof fn lemma_sampled_bounds(i: int, to: int, to_length: int, from: int, from_length: int)
    requires
        to <= i < to + to_length,
        0 < from_length,
    ensures
        from <= sampled(i, to, to_length, from, from_length) < from + from_length,
{
    assert(0 <= (i - to) * from_length / to_length < from_length) by (nonlinear_arith)
        requires
            0 <= i - to < to_length,
            0 < from_length,
    ;
}

/// [`sampled`], for lengths that a screen can have.
fn sample(i: i32, to: i32, to_length: i64, from: i32, from_length: i64) -> (r: i32)
    requires
        to <= i < to + to_length,
        0 < from_length,
        to_length <= 0xffff_ffff,
        from + from_length <= i32::MAX,
        from_length <= 0x7fff_ffff,
    ensures
        r == sampled(i as int, to as int, to_length as int, from as int, from_length as int),
        from <= r < from + from_length,
{
    let step: i64 = i as i64 - to as i64;
    proof {
        lemma_sampled_bounds(
            i as int,
            to as int,
            to_length as int,
            from as int,
            from_length as int,
        );
        assert(0 <= step * from_length <= 0xffff_ffff * 0x7fff_ffff) by (nonlinear_arith)
            requires
                0 <= step <= 0xffff_ffff,
                0 < from_length <= 0x7fff_ffff,
        ;
    }
    (from as i64 + step * from_length / to_length) as i32
}

/// Does the magnifier draw anything at all? Only from a source that lies wholly
/// inside the picture.
pub open spec fn expandable(shot: Shot, source: Area, destination: Area) -> bool {
    &&& !source.empty()
    &&& !destination.empty()
    &&& 0 <= source.left
    &&& 0 <= source.top
    &&& source.right <= shot.width
    &&& source.bottom <= shot.height
}

/// Blow `source` up into `destination` on a top-down BGRA buffer `width` wide,
/// limited to `clip`.
///
/// Nearest-neighbour, because a screenshot tool is expected to show the pixel grid
/// rather than a smoothed guess at it. Sample positions come from the unclipped
/// `destination`, so a clip at the top or left edge shows the part of the picture
/// that belongs there rather than the top-left corner of the whole patch.
pub fn expand(
    shot: &Shot,
    source: Area,
    destination: Area,
    bits: &mut Vec<u8>,
    width: i32,
    clip: Area,
)
    requires
        shot.wf(),
        0 <= width,
        expandable(*shot, source, destination) ==> buffer_holds(
            old(bits)@.len() as int,
            width as int,
            destination.meet(clip),
        ),
    ensures
        final(bits)@.len() == old(bits)@.len(),
        forall|x: int, y: int, c: int|
            in_buffer(old(bits)@.len() as int, width as int, x, y) && 0 <= c < 4
                ==> #[trigger] final(bits)@[offset(width as int, x, y, c)] == (if expandable(
                *shot,
                source,
                destination,
            ) && destination.covers(x, y) && clip.covers(x, y) {
                shot.at(
                    sampled(
                        x,
                        destination.left as int,
                        destination.right - destination.left,
                        source.left as int,
                        source.right - source.left,
                    ),
                    sampled(
                        y,
                        destination.top as int,
                        destination.bottom - destination.top,
                        source.top as int,
                        source.bottom - source.top,
                    ),
                    c,
                )
            } else {
                old(bits)@[offset(width as int, x, y, c)]
            }),
        forall|k: int|
            0 <= k < old(bits)@.len() && !byte_of(width as int, destination.meet(clip), k)
                ==> #[trigger] final(bits)@[k] == old(bits)@[k],
        !expandable(*shot, source, destination) ==> final(bits)@ == old(bits)@,
{
    if source.is_empty() || destination.is_empty() {
        return;
    }
    if source.left < 0 || source.top < 0 || source.right > shot.width || source.bottom
        > shot.height {
        return;
    }
    let drawn = match overlap(destination, clip) {
        None => return,
        Some(drawn) => drawn,
    };
    let ghost len = bits@.len() as int;
    let ghost w = width as int;
    let ghost initial = bits@;
    let ghost sw = shot.width as int;
    let ghost sh = shot.height as int;
    let room: usize = bits.len();
    let have: usize = shot.bgra.len();
    let to_width: i64 = destination.right as i64 - destination.left as i64;
    let to_height: i64 = destination.bottom as i64 - destination.top as i64;
    let from_width: i64 = source.right as i64 - source.left as i64;
    let from_height: i64 = source.bottom as i64 - source.top as i64;
    let mut row: i32 = drawn.top;
    while row < drawn.bottom
        invariant
            shot.wf(),
            expandable(*shot, source, destination),
            sw == shot.width,
            sh == shot.height,
            w == width,
            len == bits@.len(),
            len == initial.len(),
            room == len,
            have == shot.bgra@.len(),
            drawn == destination.meet(clip),
            !drawn.empty(),
            buffer_holds(len, w, drawn),
            to_width == destination.right - destination.left,
            to_height == destination.bottom - destination.top,
            from_width == source.right - source.left,
            from_height == source.bottom - source.top,
            drawn.top <= row <= drawn.bottom,
            forall|x: int, y: int, c: int|
                in_buffer(len, w, x, y) && 0 <= c < 4 ==> #[trigger] bits@[offset(w, x, y, c)]
                    == (if drawn.covers(x, y) && y < row {
                    shot.at(
                        sampled(
                            x,
                            destination.left as int,
                            to_width as int,
                            source.left as int,
                            from_width as int,
                        ),
                        sampled(
                            y,
                            destination.top as int,
                            to_height as int,
                            source.top as int,
                            from_height as int,
                        ),
                        c,
                    )
                } else {
                    initial[offset(w, x, y, c)]
                }),
            forall|k: int| len - len % 4 <= k < len ==> #[trigger] bits@[k] == initial[k],
        decreases drawn.bottom - row,
    {
        let source_row: i32 = sample(row, destination.top, to_height, source.top, from_height);
        let mut column: i32 = drawn.left;
        while column < drawn.right
            invariant
                shot.wf(),
                expandable(*shot, source, destination),
                sw == shot.width,
                sh == shot.height,
                w == width,
                len == bits@.len(),
                len == initial.len(),
                room == len,
                have == shot.bgra@.len(),
                drawn == destination.meet(clip),
                !drawn.empty(),
                buffer_holds(len, w, drawn),
                to_width == destination.right - destination.left,
                to_height == destination.bottom - destination.top,
                from_width == source.right - source.left,
                from_height == source.bottom - source.top,
                drawn.top <= row < drawn.bottom,
                drawn.left <= column <= drawn.right,
                source.top <= source_row < source.bottom,
                source_row == sampled(
                    row as int,
                    destination.top as int,
                    to_height as int,
                    source.top as int,
                    from_height as int,
                ),
                forall|x: int, y: int, c: int|
                    in_buffer(len, w, x, y) && 0 <= c < 4 ==> #[trigger] bits@[offset(w, x, y, c)]
                        == (if drawn.covers(x, y) && (y < row || (y == row && x < column)) {
                        shot.at(
                            sampled(
                                x,
                                destination.left as int,
                                to_width as int,
                                source.left as int,
                                from_width as int,
                            ),
                            sampled(
                                y,
                                destination.top as int,
                                to_height as int,
                                source.top as int,
                                from_height as int,
                            ),
                            c,
                        )
                    } else {
                        initial[offset(w, x, y, c)]
                    }),
                forall|k: int| len - len % 4 <= k < len ==> #[trigger] bits@[k] == initial[k],
            decreases drawn.right - column,
        {
            let source_column: i32 = sample(
                column,
                destination.left,
                to_width,
                source.left,
                from_width,
            );
            let ghost before = bits@;
            proof {
                lemma_offset_bounds(sw, sh, source_column as int, source_row as int, 3);
                lemma_offset_bounds(sw, sh, source_column as int, source_row as int, 0);
                lemma_held_pixel(len, w, drawn, column as int, row as int);
                lemma_run_ends(len, w, column as int, row as int, 1);
            }
            let from: usize = byte_offset(shot.width, source_column, source_row, have);
            let to: usize = byte_offset(width, column, row, room);
            copy_run(bits, to, &shot.bgra, from, 4);
            proof {
                assert forall|x: int, y: int, c: int|
                    in_buffer(len, w, x, y) && 0 <= c < 4 implies #[trigger] bits@[offset(
                    w,
                    x,
                    y,
                    c,
                )] == (if drawn.covers(x, y) && (y < row || (y == row && x < column + 1)) {
                    shot.at(
                        sampled(
                            x,
                            destination.left as int,
                            to_width as int,
                            source.left as int,
                            from_width as int,
                        ),
                        sampled(
                            y,
                            destination.top as int,
                            to_height as int,
                            source.top as int,
                            from_height as int,
                        ),
                        c,
                    )
                } else {
                    initial[offset(w, x, y, c)]
                }) by {
                    let k = offset(w, x, y, c);
                    assert(0 <= y * (w * 4)) by (nonlinear_arith)
                        requires
                            0 <= y,
                            w >= 0,
                    ;
                    assert(0 <= k < len);
                    assert(before[k] == before[offset(w, x, y, c)]);
                    lemma_pixel_in_run(w, x, y, c, row as int, column as int, column + 1);
                    if y == row && x == column {
                        assert(k - to == c);
                        assert(from + c == offset(sw, source_column as int, source_row as int, c));
                    }
                }
            }
            column = column + 1;
        }
        row = row + 1;
    }
    proof {
        assert forall|k: int| 0 <= k < len && !byte_of(w, drawn, k) implies #[trigger] bits@[k]
            == initial[k] by {
            if k < len - len % 4 {
                lemma_byte_is_pixel(len, w, k);
                let (x, y) = (k / 4 % w, k / 4 / w);
                assert(bits@[offset(w, x, y, k % 4)] == initial[offset(w, x, y, k % 4)]);
            }
        }
    }
}

/// The colour of one pixel of a shot, as `(r, g, b)`; black outside it.
pub fn pixel_at(shot: &Shot, x: i32, y: i32) -> (r: (u8, u8, u8))
    requires
        shot.wf(),
    ensures
        r == (if shot.has(x as int, y as int) {
            (
                shot.at(x as int, y as int, 2),
                shot.at(x as int, y as int, 1),
                shot.at(x as int, y as int, 0),
            )
        } else {
            (0u8, 0u8, 0u8)
        }),
{
    if x < 0 || y < 0 || x >= shot.width || y >= shot.height {
        return (0, 0, 0);
    }
    proof {
        lemma_offset_bounds(shot.width as int, shot.height as int, x as int, y as int, 0);
    }
    let len: usize = shot.bgra.len();
    let index: usize = byte_offset(shot.width, x, y, len);
    // Stored BGRA.
    (shot.bgra[index + 2], shot.bgra[index + 1], shot.bgra[index])
}

/// The channel that the composed picture shows at a pixel, before anything is
/// drawn on top: the screen where it is selected, the dimmed screen elsewhere.
pub open spec fn picture(
    screen: Shot,
    dimmed: Shot,
    selection: Option<Area>,
    x: int,
    y: int,
    c: int,
) -> u8 {
    if selection is Some && selection->0.covers(x, y) {
        screen.at(x, y, c)
    } else {
        dimmed.at(x, y, c)
    }
}

/// Compose `area` of the picture into the frame buffer: the dimmed screen, so that
/// anything the selection no longer covers goes back to reading as "not taken",
/// and the selection at full brightness over it.
pub fn compose_picture(
    screen: &Shot,
    dimmed: &Shot,
    selection: Option<Area>,
    bits: &mut Vec<u8>,
    area: Area,
)
    requires
        screen.wf(),
        dimmed.wf(),
        dimmed.width == screen.width,
        dimmed.height == screen.height,
        old(bits)@.len() == screen.bgra@.len(),
    ensures
        final(bits)@.len() == old(bits)@.len(),
        forall|x: int, y: int, c: int|
            screen.has(x, y) && 0 <= c < 4 ==> #[trigger] final(bits)@[offset(
                screen.width as int,
                x,
                y,
                c,
            )] == (if area.covers(x, y) {
                picture(*screen, *dimmed, selection, x, y, c)
            } else {
                old(bits)@[offset(screen.width as int, x, y, c)]
            }),
{
    let width: i32 = screen.width;
    let ghost w = width as int;
    let ghost h = screen.height as int;
    let ghost initial = bits@;
    proof {
        lemma_screen_holds(*screen, copied_area(*dimmed, area, area));
        assert forall|x: int, y: int| screen.has(x, y) implies #[trigger] in_buffer(
            initial.len() as int,
            w,
            x,
            y,
        ) by {
            lemma_offset_bounds(w, h, x, y, 3);
        }
    }
    copy_rows(dimmed, area, bits, width, area);
    match selection {
        None => {},
        Some(selected) => {
            match overlap(selected, area) {
                None => {},
                Some(bright) => {
                    proof {
                        lemma_screen_holds(*screen, copied_area(*screen, bright, area));
                    }
                    copy_rows(screen, bright, bits, width, area);
                },
            }
        },
    }
    proof {
        assert forall|x: int, y: int, c: int| screen.has(x, y) && 0 <= c < 4 implies
            #[trigger] bits@[offset(w, x, y, c)] == (if area.covers(x, y) {
            picture(*screen, *dimmed, selection, x, y, c)
        } else {
            initial[offset(w, x, y, c)]
        }) by {
            assert(in_buffer(initial.len() as int, w, x, y));
        }
    }
}

/// A buffer of the screen's size holds whatever part of the screen is drawn.
proof fn lemma_screen_holds(screen: Shot, area: Area)
    requires
        screen.wf(),
        area.empty() || area.inside(screen.width as int, screen.height as int),
    ensures
        buffer_holds(screen.bgra@.len() as int, screen.width as int, area),
{
    if !area.empty() {
        lemma_offset_bounds(
            screen.width as int,
            screen.height as int,
            area.right - 1,
            area.bottom - 1,
            3,
        );
    }
}

/// An enlarged side shows each source position on as many positions as it is enlarged by, in
/// order: position `i` of it is `i / zoom` of the source.
pub proof fn an_enlarged_pixel_is_repeated(i: int, to: int, from: int, from_length: int, zoom: int)
    requires
        to <= i,
        0 < from_length,
        0 < zoom,
    ensures
        sampled(i, to, from_length * zoom, from, from_length) == from + (i - to) / zoom,
{
    let step = i - to;
    assert(step * from_length / (from_length * zoom) == step / zoom) by (nonlinear_arith)
        requires
            0 <= step,
            0 < from_length,
            0 < zoom,
    ;
}

/// The selection is shown at full brightness and everything else dimmed, each pixel in its own
/// place.
pub proof fn only_the_selection_is_bright(
    screen: Shot,
    dimmed: Shot,
    selection: Area,
    x: int,
    y: int,
    c: int,
)
    requires
        dimmed.width == screen.width,
    ensures
        ({
            let at = 4 * (y * screen.width + x) + c;
            &&& selection.left <= x < selection.right && selection.top <= y < selection.bottom
                ==> picture(screen, dimmed, Some(selection), x, y, c) == screen.bgra@[at]
            &&& !(selection.left <= x < selection.right && selection.top <= y < selection.bottom)
                ==> picture(screen, dimmed, Some(selection), x, y, c) == dimmed.bgra@[at]
            &&& picture(screen, dimmed, None, x, y, c) == dimmed.bgra@[at]
        }),
{
    pixels_are_stored_in_reading_order(screen.width as int, x, y, c);
}

/// A copy draws the pixels of the area that the picture has and that the clip lets through.
pub proof fn a_copy_draws_what_is_asked(shot: Shot, area: Area, clip: Area, x: int, y: int)
    requires
        shot.wf(),
    ensures
        copied_area(shot, area, clip).covers(x, y) <==> {
            &&& area.left <= x < area.right && area.top <= y < area.bottom
            &&& clip.left <= x < clip.right && clip.top <= y < clip.bottom
            &&& 0 <= x < shot.width && 0 <= y < shot.height
        },
{
}

/// The magnifier draws from any source with a pixel that lies wholly inside the picture, into
/// any destination with a pixel.
pub proof fn a_source_inside_the_picture_is_drawn(shot: Shot, source: Area, destination: Area)
    ensures
        expandable(shot, source, destination) <==> {
            &&& 0 <= source.left < source.right <= shot.width
            &&& 0 <= source.top < source.bottom <= shot.height
            &&& destination.left < destination.right && destination.top < destination.bottom
        },
{
}

} // verus!
