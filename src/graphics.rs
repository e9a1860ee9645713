//! Drawing primitives, the frame-rate overlay and the render cache.
use vstd::prelude::*;
use crate::ball::{Ball, BALL_COLOR, BALL_RADIUS, BALL_X_MAX, BALL_Y_MAX, in_ball};
use crate::packets::GamestatePacket;
use crate::racket::{Racket, RACKET_COLOR, RACKET_Y_MAX, RACKET_Y_MIN, clamped, in_racket};
use crate::framebuffer::{Framebuffer, on_surface, painted, lemma_set_pixel_painted, lemma_painted_union, lemma_paint_step};

verus! {

/// Column `i`, row `j` lies in the rectangle with the given inclusive bounds.
pub open spec fn in_rect(x_left: int, x_right: int, y_top: int, y_bottom: int, i: int, j: int) -> bool {
    x_left <= i <= x_right && y_top <= j <= y_bottom
}

/// Sets every pixel with `x_left <= x <= x_right` and `y_top <= y <= y_bottom`
/// to `color`.
pub fn draw_rectangle<F: Framebuffer>(
    buffer: &mut F,
    x_left: u16,
    x_right: u16,
    y_top: u16,
    y_bottom: u16,
    color: u8,
)
    ensures
        painted(
            *old(buffer),
            *final(buffer),
            |i: int, j: int| in_rect(x_left as int, x_right as int, y_top as int, y_bottom as int, i, j),
            color,
        ),
{
    let ghost start = *buffer;
    let ghost (xl, xr, yt, yb) = (x_left as int, x_right as int, y_top as int, y_bottom as int);
    let mut y: u32 = y_top as u32;
    while y <= y_bottom as u32
        invariant
            xl == x_left,
            xr == x_right,
            yt == y_top,
            yb == y_bottom,
            yt <= y <= if yb + 1 > yt { yb + 1 } else { yt },
            painted(start, *buffer, |i: int, j: int| in_rect(xl, xr, yt, y - 1, i, j), color),
        decreases yb + 1 - y,
    {
        let mut x: u32 = x_left as u32;
        while x <= x_right as u32
            invariant
                xl == x_left,
                xr == x_right,
                yt == y_top,
                yb == y_bottom,
                xl <= x <= if xr + 1 > xl { xr + 1 } else { xl },
                yt <= y <= yb,
                painted(
                    start,
                    *buffer,
                    |i: int, j: int| in_rect(xl, xr, yt, y - 1, i, j) || (j == y && xl <= i < x),
                    color,
                ),
            decreases xr + 1 - x,
        {
            let ghost before = *buffer;
            buffer.set_pixel(x as usize, y as usize, color);
            proof {
                lemma_set_pixel_painted(before, *buffer, x as usize, y as usize, color);
                lemma_painted_union(
                    start,
                    before,
                    *buffer,
                    |i: int, j: int| in_rect(xl, xr, yt, y - 1, i, j) || (j == y && xl <= i < x),
                    |i: int, j: int| i == x as usize && j == y as usize,
                    |i: int, j: int| in_rect(xl, xr, yt, y - 1, i, j) || (j == y && xl <= i < x + 1),
                    color,
                );
            }
            x = x + 1;
        }
        proof {
            let r1 = |i: int, j: int| in_rect(xl, xr, yt, y - 1, i, j) || (j == y && xl <= i < x);
            let r2 = |i: int, j: int| in_rect(xl, xr, yt, y as int, i, j);
            assert forall|i: int, j: int| #[trigger] r2(i, j) == r1(i, j) by {}
        }
        y = y + 1;
    }
}

/// Column `i`, row `j` lies in the disc of radius `r` around `(cx, cy)`.
pub open spec fn in_disc(cx: int, cy: int, r: int, i: int, j: int) -> bool {
    &&& in_rect(cx - r, cx + r, cy - r, cy + r, i, j)
    &&& (i - cx) * (i - cx) + (j - cy) * (j - cy) <= r * r
}

/// The square of the distance between `a` and `b`, computed without overflow.
fn dist_squared(a: u32, b: u32, c: u32, d: u32) -> (r: u128)
    ensures
        r == (a - b) * (a - b) + (c - d) * (c - d),
{
    let dx: u128 = if a >= b { (a - b) as u128 } else { (b - a) as u128 };
    let dy: u128 = if c >= d { (c - d) as u128 } else { (d - c) as u128 };
    proof {
        assert(dx * dx == (a - b) * (a - b)) by (nonlinear_arith)
            requires
                dx == a - b || dx == b - a,
        ;
        assert(dy * dy == (c - d) * (c - d)) by (nonlinear_arith)
            requires
                dy == c - d || dy == d - c,
        ;
        assert(dx * dx <= 0xffff_ffff * 0xffff_ffff) by (nonlinear_arith)
            requires
                dx <= 0xffff_ffff,
        ;
        assert(dy * dy <= 0xffff_ffff * 0xffff_ffff) by (nonlinear_arith)
            requires
                dy <= 0xffff_ffff,
        ;
    }
    dx * dx + dy * dy
}

/// Sets every pixel of the disc of radius `radius` around
/// `(x_pos_centre, y_pos_centre)` to `color`.
pub fn draw_circle<F: Framebuffer>(
    buffer: &mut F,
    x_pos_centre: u32,
    y_pos_centre: u32,
    radius: u32,
    color: u8,
)
    requires
        radius <= x_pos_centre <= u32::MAX - radius,
        radius <= y_pos_centre <= u32::MAX - radius,
    ensures
        painted(
            *old(buffer),
            *final(buffer),
            |i: int, j: int| in_disc(x_pos_centre as int, y_pos_centre as int, radius as int, i, j),
            color,
        ),
{
    let ghost start = *buffer;
    let ghost shape = |i: int, j: int| in_disc(x_pos_centre as int, y_pos_centre as int, radius as int, i, j);
    let ghost x0 = x_pos_centre - radius;
    let ghost y0 = y_pos_centre - radius;
    assert(radius * radius <= 0xffff_ffff * 0xffff_ffff) by (nonlinear_arith)
        requires
            radius <= 0xffff_ffff,
    ;
    let rr: u128 = radius as u128 * radius as u128;
    let mut y: u64 = (y_pos_centre - radius) as u64;
    while y <= y_pos_centre as u64 + radius as u64
        invariant
            radius <= x_pos_centre <= u32::MAX - radius,
            radius <= y_pos_centre <= u32::MAX - radius,
            rr == radius * radius,
            y0 == y_pos_centre - radius,
            x0 == x_pos_centre - radius,
            shape == (|i: int, j: int| in_disc(x_pos_centre as int, y_pos_centre as int, radius as int, i, j)),
            y0 <= y <= y_pos_centre + radius + 1,
            painted(start, *buffer, |i: int, j: int| shape(i, j) && j < y, color),
        decreases y_pos_centre + radius + 1 - y,
    {
        let mut x: u64 = (x_pos_centre - radius) as u64;
        while x <= x_pos_centre as u64 + radius as u64
            invariant
                radius <= x_pos_centre <= u32::MAX - radius,
                radius <= y_pos_centre <= u32::MAX - radius,
                rr == radius * radius,
                x0 == x_pos_centre - radius,
                y0 == y_pos_centre - radius,
                shape == (|i: int, j: int| in_disc(x_pos_centre as int, y_pos_centre as int, radius as int, i, j)),
                y0 <= y <= y_pos_centre + radius,
                x0 <= x <= x_pos_centre + radius + 1,
                painted(start, *buffer, |i: int, j: int| shape(i, j) && (j < y || (j == y && i < x)), color),
            decreases x_pos_centre + radius + 1 - x,
        {
            let ghost before = *buffer;
            let inside = dist_squared(x as u32, x_pos_centre, y as u32, y_pos_centre) <= rr;
            assert(inside == shape(x as int, y as int));
            if inside {
                buffer.set_pixel(x as usize, y as usize, color);
                proof {
                    lemma_set_pixel_painted(before, *buffer, x as usize, y as usize, color);
                }
            }
            proof {
                lemma_paint_step(
                    start,
                    before,
                    *buffer,
                    |i: int, j: int| shape(i, j) && (j < y || (j == y && i < x)),
                    |i: int, j: int| shape(i, j) && (j < y || (j == y && i < x + 1)),
                    shape,
                    x as int,
                    y as int,
                    color,
                );
            }
            x = x + 1;
        }
        proof {
            assert forall|i: int, j: int|
                #[trigger] shape(i, j) implies (j < y + 1 <==> (j < y || (j == y && i < x))) by {}
        }
        y = y + 1;
    }
    proof {
        assert forall|i: int, j: int| #[trigger] shape(i, j) implies j < y by {}
    }
}

/// Column `i`, row `j` lies in the disc of radius `r` around `(cx, cy)` and
/// strictly outside the disc of radius `rp` around `(xp, yp)`.
pub open spec fn in_partial_disc(cx: int, cy: int, xp: int, yp: int, r: int, rp: int, i: int, j: int) -> bool {
    &&& in_disc(cx, cy, r, i, j)
    &&& (i - xp) * (i - xp) + (j - yp) * (j - yp) > rp * rp
}

/// Sets to `color` the pixels of the disc of radius `radius` around
/// `(x_pos_centre, y_pos_centre)` that the disc of radius `radius_part` around
/// `(x_pos_centre_part, y_pos_centre_part)` does not cover. A pixel outside
/// the part disc's rows is drawn without computing its distance to the part
/// disc.
pub fn draw_partial_circle<F: Framebuffer>(
    buffer: &mut F,
    x_pos_centre: u32,
    y_pos_centre: u32,
    x_pos_centre_part: u32,
    y_pos_centre_part: u32,
    radius: u32,
    radius_part: u32,
    color: u8,
)
    requires
        radius <= x_pos_centre <= u32::MAX - radius,
        radius <= y_pos_centre <= u32::MAX - radius,
        radius_part <= x_pos_centre_part,
        x_pos_centre <= u32::MAX - radius_part,
        radius_part <= y_pos_centre_part <= u32::MAX - radius_part,
    ensures
        painted(
            *old(buffer),
            *final(buffer),
            |i: int, j: int|
                in_partial_disc(
                    x_pos_centre as int,
                    y_pos_centre as int,
                    x_pos_centre_part as int,
                    y_pos_centre_part as int,
                    radius as int,
                    radius_part as int,
                    i,
                    j,
                ),
            color,
        ),
{
    let ghost start = *buffer;
    let ghost shape = |i: int, j: int|
        in_partial_disc(
            x_pos_centre as int,
            y_pos_centre as int,
            x_pos_centre_part as int,
            y_pos_centre_part as int,
            radius as int,
            radius_part as int,
            i,
            j,
        );
    let ghost x0 = x_pos_centre - radius;
    let ghost y0 = y_pos_centre - radius;
    assert(radius * radius <= 0xffff_ffff * 0xffff_ffff) by (nonlinear_arith)
        requires
            radius <= 0xffff_ffff,
    ;
    assert(radius_part * radius_part <= 0xffff_ffff * 0xffff_ffff) by (nonlinear_arith)
        requires
            radius_part <= 0xffff_ffff,
    ;
    let rr: u128 = radius as u128 * radius as u128;
    let rpp: u128 = radius_part as u128 * radius_part as u128;
    let mut y: u64 = (y_pos_centre - radius) as u64;
    while y <= y_pos_centre as u64 + radius as u64
        invariant
            radius <= x_pos_centre <= u32::MAX - radius,
            radius <= y_pos_centre <= u32::MAX - radius,
            radius_part <= x_pos_centre_part,
            x_pos_centre <= u32::MAX - radius_part,
            radius_part <= y_pos_centre_part <= u32::MAX - radius_part,
            rpp == radius_part * radius_part,
            rr == radius * radius,
            y0 == y_pos_centre - radius,
            x0 == x_pos_centre - radius,
            shape == (|i: int, j: int|
                    in_partial_disc(
                        x_pos_centre as int,
                        y_pos_centre as int,
                        x_pos_centre_part as int,
                        y_pos_centre_part as int,
                        radius as int,
                        radius_part as int,
                        i,
                        j,
                    )),
            y0 <= y <= y_pos_centre + radius + 1,
            painted(start, *buffer, |i: int, j: int| shape(i, j) && j < y, color),
        decreases y_pos_centre + radius + 1 - y,
    {
        let mut x: u64 = (x_pos_centre - radius) as u64;
        while x <= x_pos_centre as u64 + radius as u64
            invariant
                radius <= x_pos_centre <= u32::MAX - radius,
                radius <= y_pos_centre <= u32::MAX - radius,
                radius_part <= x_pos_centre_part,
                x_pos_centre <= u32::MAX - radius_part,
                radius_part <= y_pos_centre_part <= u32::MAX - radius_part,
                rpp == radius_part * radius_part,
                rr == radius * radius,
                x0 == x_pos_centre - radius,
                y0 == y_pos_centre - radius,
                shape == (|i: int, j: int|
                    in_partial_disc(
                        x_pos_centre as int,
                        y_pos_centre as int,
                        x_pos_centre_part as int,
                        y_pos_centre_part as int,
                        radius as int,
                        radius_part as int,
                        i,
                        j,
                    )),
                y0 <= y <= y_pos_centre + radius,
                x0 <= x <= x_pos_centre + radius + 1,
                painted(start, *buffer, |i: int, j: int| shape(i, j) && (j < y || (j == y && i < x)), color),
            decreases x_pos_centre + radius + 1 - x,
        {
            let ghost before = *buffer;
            let (xs, ys) = (x as u32, y as u32);
            let in_circle = dist_squared(xs, x_pos_centre, ys, y_pos_centre) <= rr;
            let clear_of_box = (xs < x_pos_centre_part - radius_part || xs > x_pos_centre
                + radius_part) && (ys < y_pos_centre_part - radius_part || ys > y_pos_centre_part
                + radius_part);
            let inside = if clear_of_box {
                in_circle
            } else {
                dist_squared(xs, x_pos_centre_part, ys, y_pos_centre_part) > rpp && in_circle
            };
            proof {
                if clear_of_box {
                    let (i, j, xp, yp, rp) = (
                        xs as int,
                        ys as int,
                        x_pos_centre_part as int,
                        y_pos_centre_part as int,
                        radius_part as int,
                    );
                    assert((i - xp) * (i - xp) + (j - yp) * (j - yp) > rp * rp) by (nonlinear_arith)
                        requires
                            j < yp - rp || j > yp + rp,
                            rp >= 0,
                    ;
                }
            }
            assert(inside == shape(x as int, y as int));
            if inside {
                buffer.set_pixel(x as usize, y as usize, color);
                proof {
                    lemma_set_pixel_painted(before, *buffer, x as usize, y as usize, color);
                }
            }
            proof {
                lemma_paint_step(
                    start,
                    before,
                    *buffer,
                    |i: int, j: int| shape(i, j) && (j < y || (j == y && i < x)),
                    |i: int, j: int| shape(i, j) && (j < y || (j == y && i < x + 1)),
                    shape,
                    x as int,
                    y as int,
                    color,
                );
            }
            x = x + 1;
        }
        proof {
            assert forall|i: int, j: int|
                #[trigger] shape(i, j) implies (j < y + 1 <==> (j < y || (j == y && i < x))) by {}
        }
        y = y + 1;
    }
    proof {
        assert forall|i: int, j: int| #[trigger] shape(i, j) implies j < y by {}
    }
}

/// Sets to `color` every pixel of the `size` by `size` square whose top left
/// corner is `(x, y)`.
pub fn quad<F: Framebuffer>(x: usize, y: usize, size: usize, color: &u8, framebuffer: &mut F)
    requires
        x + size <= usize::MAX,
        y + size <= usize::MAX,
    ensures
        painted(
            *old(framebuffer),
            *final(framebuffer),
            |i: int, j: int| in_rect(x as int, x + size - 1, y as int, y + size - 1, i, j),
            *color,
        ),
{
    let ghost start = *framebuffer;
    let mut row: usize = y;
    while row < y + size
        invariant
            x + size <= usize::MAX,
            y + size <= usize::MAX,
            y <= row <= y + size,
            painted(start, *framebuffer, |i: int, j: int| in_rect(x as int, x + size - 1, y as int, row - 1, i, j), *color),
        decreases y + size - row,
    {
        let mut col: usize = x;
        while col < x + size
            invariant
                x + size <= usize::MAX,
                y + size <= usize::MAX,
                y <= row < y + size,
                x <= col <= x + size,
                painted(
                    start,
                    *framebuffer,
                    |i: int, j: int| in_rect(x as int, x + size - 1, y as int, row - 1, i, j) || (j == row && x <= i < col),
                    *color,
                ),
            decreases x + size - col,
        {
            let ghost before = *framebuffer;
            framebuffer.set_pixel(col, row, *color);
            proof {
                lemma_set_pixel_painted(before, *framebuffer, col, row, *color);
                lemma_painted_union(
                    start,
                    before,
                    *framebuffer,
                    |i: int, j: int| in_rect(x as int, x + size - 1, y as int, row - 1, i, j) || (j == row && x <= i < col),
                    |i: int, j: int| i == col && j == row,
                    |i: int, j: int| in_rect(x as int, x + size - 1, y as int, row - 1, i, j) || (j == row && x <= i < col + 1),
                    *color,
                );
            }
            col = col + 1;
        }
        proof {
            let r1 = |i: int, j: int| in_rect(x as int, x + size - 1, y as int, row - 1, i, j) || (j == row && x <= i < col);
            let r2 = |i: int, j: int| in_rect(x as int, x + size - 1, y as int, row as int, i, j);
            assert forall|i: int, j: int| #[trigger] r2(i, j) == r1(i, j) by {}
        }
        row = row + 1;
    }
}

/// Column `i`, row `j` lies on one of the guide lines of a 480 by 272 screen:
/// the vertical lines at columns 120, 240 and 360 and the horizontal line at
/// row 136.
pub open spec fn on_guidelines(i: int, j: int) -> bool {
    (0 <= j < 272 && (i == 120 || i == 240 || i == 360)) || (j == 136 && 0 <= i < 480)
}

/// The colour of a guide line pixel: the centre cross is brighter than the
/// quarter lines.
pub open spec fn guideline_color(i: int, j: int) -> u8 {
    if j == 136 || i == 240 {
        128
    } else {
        64
    }
}

/// Draws the guide lines that `on_guidelines` and `guideline_color` describe.
pub fn draw_guidelines<F: Framebuffer>(framebuffer: &mut F)
    ensures
        final(framebuffer).width() == old(framebuffer).width(),
        final(framebuffer).height() == old(framebuffer).height(),
        forall|i: int, j: int|
            #[trigger] final(framebuffer).pixel(i, j) == if on_guidelines(i, j) && on_surface(
                old(framebuffer).width(),
                old(framebuffer).height(),
                i,
                j,
            ) {
                guideline_color(i, j)
            } else {
                old(framebuffer).pixel(i, j)
            },
{
    let ghost start = *framebuffer;
    let mut y: usize = 0;
    while y < 272
        invariant
            y <= 272,
            framebuffer.width() == start.width(),
            framebuffer.height() == start.height(),
            forall|i: int, j: int|
                #[trigger] framebuffer.pixel(i, j) == if 0 <= j < y && (i == 120 || i == 240 || i
                    == 360) && on_surface(start.width(), start.height(), i, j) {
                    if i == 240 {
                        128u8
                    } else {
                        64u8
                    }
                } else {
                    start.pixel(i, j)
                },
        decreases 272 - y,
    {
        framebuffer.set_pixel(480 / 4, y, 64);
        framebuffer.set_pixel(480 / 2, y, 128);
        framebuffer.set_pixel(480 / 4 * 3, y, 64);
        y = y + 1;
    }
    let ghost middle = *framebuffer;
    let mut x: usize = 0;
    while x < 480
        invariant
            x <= 480,
            framebuffer.width() == start.width(),
            framebuffer.height() == start.height(),
            middle.width() == start.width(),
            middle.height() == start.height(),
            forall|i: int, j: int|
                #[trigger] middle.pixel(i, j) == if 0 <= j < 272 && (i == 120 || i == 240 || i
                    == 360) && on_surface(start.width(), start.height(), i, j) {
                    if i == 240 {
                        128u8
                    } else {
                        64u8
                    }
                } else {
                    start.pixel(i, j)
                },
            forall|i: int, j: int|
                #[trigger] framebuffer.pixel(i, j) == if j == 136 && 0 <= i < x && on_surface(
                    start.width(),
                    start.height(),
                    i,
                    j,
                ) {
                    128u8
                } else {
                    middle.pixel(i, j)
                },
        decreases 480 - x,
    {
        framebuffer.set_pixel(x, 272 / 2, 128);
        x = x + 1;
    }
}

/// The segment of a seven-segment glyph that the cell `dx` columns right of and
/// `dy` rows below the glyph's top left corner belongs to: 0 top, 1 top left,
/// 2 top right, 3 centre, 4 bottom left, 5 bottom right, 6 bottom; -1 for a cell
/// the glyph leaves alone. A glyph is three columns wide and seven rows high.
pub open spec fn segment_at(dx: int, dy: int) -> int {
    if dy == 0 || dy == 3 || dy == 6 {
        if 0 <= dx <= 2 {
            if dy == 0 {
                0
            } else if dy == 3 {
                3
            } else {
                6
            }
        } else {
            -1
        }
    } else if dy == 1 || dy == 2 {
        if dx == 0 {
            1
        } else if dx == 2 {
            2
        } else {
            -1
        }
    } else if dy == 4 || dy == 5 {
        if dx == 0 {
            4
        } else if dx == 2 {
            5
        } else {
            -1
        }
    } else {
        -1
    }
}

/// The colour of a glyph cell: white where its segment is lit, black where not.
pub open spec fn segment_color(lit: bool) -> u8 {
    if lit {
        255
    } else {
        0
    }
}

/// `after` is `before` with the seven-segment glyph `segs` (in the order of
/// `segment_at`) drawn with its top left corner at `(x, y)`.
pub open spec fn glyph_drawn<F: Framebuffer>(before: F, after: F, x: int, y: int, segs: Seq<bool>) -> bool {
    &&& after.width() == before.width()
    &&& after.height() == before.height()
    &&& forall|i: int, j: int|
        #[trigger] after.pixel(i, j) == if segment_at(i - x, j - y) >= 0 && on_surface(
            before.width(),
            before.height(),
            i,
            j,
        ) {
            segment_color(segs[segment_at(i - x, j - y)])
        } else {
            before.pixel(i, j)
        }
}

/// Draws a seven-segment glyph with its top left corner at `(x, y)`.
pub fn draw_seven_segment<F: Framebuffer>(
    framebuffer: &mut F,
    x: usize,
    y: usize,
    top: bool,
    top_left: bool,
    top_right: bool,
    center: bool,
    bottom_left: bool,
    bottom_right: bool,
    bottom: bool,
)
    requires
        x + 2 <= usize::MAX,
        y + 6 <= usize::MAX,
    ensures
        glyph_drawn(
            *old(framebuffer),
            *final(framebuffer),
            x as int,
            y as int,
            seq![top, top_left, top_right, center, bottom_left, bottom_right, bottom],
        ),
{
    let black: u8 = 0;
    let white: u8 = 255;
    framebuffer.set_pixel(x + 0, y + 0, if top { white } else { black });
    framebuffer.set_pixel(x + 1, y + 0, if top { white } else { black });
    framebuffer.set_pixel(x + 2, y + 0, if top { white } else { black });
    framebuffer.set_pixel(x + 0, y + 1, if top_left { white } else { black });
    framebuffer.set_pixel(x + 2, y + 1, if top_right { white } else { black });
    framebuffer.set_pixel(x + 0, y + 2, if top_left { white } else { black });
    framebuffer.set_pixel(x + 2, y + 2, if top_right { white } else { black });
    framebuffer.set_pixel(x + 0, y + 3, if center { white } else { black });
    framebuffer.set_pixel(x + 1, y + 3, if center { white } else { black });
    framebuffer.set_pixel(x + 2, y + 3, if center { white } else { black });
    framebuffer.set_pixel(x + 0, y + 4, if bottom_left { white } else { black });
    framebuffer.set_pixel(x + 2, y + 4, if bottom_right { white } else { black });
    framebuffer.set_pixel(x + 0, y + 5, if bottom_left { white } else { black });
    framebuffer.set_pixel(x + 2, y + 5, if bottom_right { white } else { black });
    framebuffer.set_pixel(x + 0, y + 6, if bottom { white } else { black });
    framebuffer.set_pixel(x + 1, y + 6, if bottom { white } else { black });
    framebuffer.set_pixel(x + 2, y + 6, if bottom { white } else { black });
}

/// The lit segments of decimal digit `n`, in the order of `segment_at`.
pub open spec fn digit_segments(n: int) -> Seq<bool> {
    if n == 0 {
        seq![true, true, true, false, true, true, true]
    } else if n == 1 {
        seq![false, false, true, false, false, true, false]
    } else if n == 2 {
        seq![true, false, true, true, true, false, true]
    } else if n == 3 {
        seq![true, false, true, true, false, true, true]
    } else if n == 4 {
        seq![false, true, true, true, false, true, false]
    } else if n == 5 {
        seq![true, true, false, true, false, true, true]
    } else if n == 6 {
        seq![true, true, false, true, true, true, true]
    } else if n == 7 {
        seq![true, false, true, false, false, true, false]
    } else if n == 8 {
        seq![true, true, true, true, true, true, true]
    } else {
        seq![true, true, true, true, false, true, true]
    }
}

/// Draws decimal digit `number` as a seven-segment glyph with its top left
/// corner at `(x, y)`; any other number draws nothing.
pub fn draw_number<F: Framebuffer>(framebuffer: &mut F, x: usize, y: usize, number: usize)
    requires
        x + 2 <= usize::MAX,
        y + 6 <= usize::MAX,
    ensures
        number < 10 ==> glyph_drawn(
            *old(framebuffer),
            *final(framebuffer),
            x as int,
            y as int,
            digit_segments(number as int),
        ),
        number >= 10 ==> *final(framebuffer) == *old(framebuffer),
{
    if number == 0 {
        draw_seven_segment(framebuffer, x, y, true, true, true, false, true, true, true);
    } else if number == 1 {
        draw_seven_segment(framebuffer, x, y, false, false, true, false, false, true, false);
    } else if number == 2 {
        draw_seven_segment(framebuffer, x, y, true, false, true, true, true, false, true);
    } else if number == 3 {
        draw_seven_segment(framebuffer, x, y, true, false, true, true, false, true, true);
    } else if number == 4 {
        draw_seven_segment(framebuffer, x, y, false, true, true, true, false, true, false);
    } else if number == 5 {
        draw_seven_segment(framebuffer, x, y, true, true, false, true, false, true, true);
    } else if number == 6 {
        draw_seven_segment(framebuffer, x, y, true, true, false, true, true, true, true);
    } else if number == 7 {
        draw_seven_segment(framebuffer, x, y, true, false, true, false, false, true, false);
    } else if number == 8 {
        draw_seven_segment(framebuffer, x, y, true, true, true, true, true, true, true);
    } else if number == 9 {
        draw_seven_segment(framebuffer, x, y, true, true, true, true, false, true, true);
    }
}

/// The value the frame-rate overlay shows: the rate, clamped to 99.
pub open spec fn shown_fps(fps: int) -> int {
    if fps > 99 {
        99
    } else {
        fps
    }
}

/// `after` is `before` with the frame-rate overlay for `fps` drawn: the tens
/// digit of `shown_fps(fps)` at the top left corner of the screen and its ones
/// digit five columns to the right.
pub open spec fn fps_drawn<F: Framebuffer>(before: F, after: F, fps: int) -> bool {
    let tens = digit_segments(shown_fps(fps) / 10);
    let ones = digit_segments(shown_fps(fps) % 10);
    &&& after.width() == before.width()
    &&& after.height() == before.height()
    &&& forall|i: int, j: int|
        #[trigger] after.pixel(i, j) == if segment_at(i, j) >= 0 && on_surface(
            before.width(),
            before.height(),
            i,
            j,
        ) {
            segment_color(tens[segment_at(i, j)])
        } else if segment_at(i - 5, j) >= 0 && on_surface(before.width(), before.height(), i, j) {
            segment_color(ones[segment_at(i - 5, j)])
        } else {
            before.pixel(i, j)
        }
}

/// Draws the frame-rate overlay: a two-digit decimal counter, clamped to 99.
pub fn draw_fps<F: Framebuffer>(framebuffer: &mut F, last_fps: usize)
    ensures
        fps_drawn(*old(framebuffer), *final(framebuffer), last_fps as int),
{
    let mut number = last_fps;
    if number > 99 {
        number = 99;
    }
    draw_number(framebuffer, 0, 0, number / 10);
    draw_number(framebuffer, 5, 0, number % 10);
}

/// A score is redrawn once this many time units have passed since the last
/// score redraw, even when it did not change.
pub const SCORE_STALE_AFTER: usize = 1000;

/// Whether a score must be drawn: it differs from the one on screen, or more
/// than `SCORE_STALE_AFTER` time units have passed since scores were last drawn.
pub open spec fn score_needs_redraw(shown: u8, score: u8, last_redraw: int, now: int) -> bool {
    shown != score || now > last_redraw + SCORE_STALE_AFTER
}

/// What is on screen of the scores: the score shown for each player and when
/// scores were last drawn.
pub struct GraphicsCache {
    score: [u8; 2],
    last_score_redraw: usize,
}

impl GraphicsCache {
    /// The score shown for player `k`.
    pub closed spec fn shown_score(self, k: int) -> u8 {
        self.score[k]
    }

    /// The time of the last score redraw.
    pub closed spec fn last_redraw(self) -> usize {
        self.last_score_redraw
    }

    /// A cache that shows no real score yet (99 for both players, a value a
    /// game never reaches first), so the first frame draws both scores.
    pub fn new() -> (r: GraphicsCache)
        ensures
            r.shown_score(0) == 99,
            r.shown_score(1) == 99,
            r.last_redraw() == 0,
    {
        GraphicsCache { score: [99, 99], last_score_redraw: 0 }
    }

    /// The score shown for player `player` (0 or 1).
    pub fn score(&self, player: usize) -> (r: u8)
        requires
            player < 2,
        ensures
            r == self.shown_score(player as int),
    {
        self.score[player]
    }

    /// The time of the last score redraw.
    pub fn last_score_redraw(&self) -> (r: usize)
        ensures
            r == self.last_redraw(),
    {
        self.last_score_redraw
    }

    /// Whether a frame at time `now` with `score` draws the score of player `k`.
    pub open spec fn redraws(self, score: [u8; 2], now: int, k: int) -> bool {
        score_needs_redraw(self.shown_score(k), score[k], self.last_redraw() as int, now)
    }

    /// The cache after a frame at time `now` with `score`.
    pub closed spec fn after_frame(self, score: [u8; 2], now: usize) -> GraphicsCache {
        let r0 = self.redraws(score, now as int, 0);
        let r1 = self.redraws(score, now as int, 1);
        GraphicsCache {
            score: [if r0 { score[0] } else { self.score[0] }, if r1 { score[1] } else { self.score[1] }],
            last_score_redraw: if r0 || r1 { now } else { self.last_score_redraw },
        }
    }

    /// Decides which scores this frame draws and records them as shown: a score
    /// is drawn when `score_needs_redraw` says so; when any is drawn, the redraw
    /// time becomes `total_time`.
    pub fn plan_score_redraw(&mut self, score: [u8; 2], total_time: usize) -> (r: [bool; 2])
        ensures
            forall|k: int| 0 <= k < 2 ==> #[trigger] r[k] == old(self).redraws(score, total_time as int, k),
            *final(self) == old(self).after_frame(score, total_time),
            !r[0] && !r[1] ==> *final(self) == *old(self),
            forall|k: int|
                0 <= k < 2 ==> #[trigger] final(self).shown_score(k) == if r[k] {
                    score[k]
                } else {
                    old(self).shown_score(k)
                },
            final(self).last_redraw() == if r[0] || r[1] {
                total_time
            } else {
                old(self).last_redraw()
            },
    {
        let stale = total_time > self.last_score_redraw && total_time - self.last_score_redraw
            > SCORE_STALE_AFTER;
        let redraw_score_1 = score[0] != self.score[0] || stale;
        let redraw_score_2 = score[1] != self.score[1] || stale;
        if redraw_score_1 || redraw_score_2 {
            self.last_score_redraw = total_time;
        }
        if redraw_score_1 {
            self.score[0] = score[0];
        }
        if redraw_score_2 {
            self.score[1] = score[1];
        }
        let r = [redraw_score_1, redraw_score_2];
        assert(self.score =~= old(self).after_frame(score, total_time).score);
        assert(!r[0] && !r[1] ==> self.score =~= old(self).score);
        r
    }
}

/// Where the score of player `player` (0 or 1) is written on a 480 by 272
/// screen: either side of the centre line, above the middle.
pub fn score_position(player: usize) -> (r: (usize, usize))
    requires
        player < 2,
    ensures
        r == if player == 0 {
            (215usize, 116usize)
        } else {
            (250usize, 116usize)
        },
{
    if player == 0 {
        (480 / 2 - 10 - 15, 272 / 2 - 20)
    } else {
        (480 / 2 + 10, 272 / 2 - 20)
    }
}

/// Draws both rackets and the ball at their positions: each pixel of the ball
/// is in the ball's colour, each other pixel of a racket in the racket colour,
/// and no other pixel changes.
pub fn draw_initial<F: Framebuffer>(framebuffer: &mut F, rackets: &[Racket; 2], ball: &Ball)
    requires
        rackets[0].wf(),
        rackets[1].wf(),
        ball.wf(),
    ensures
        final(framebuffer).width() == old(framebuffer).width(),
        final(framebuffer).height() == old(framebuffer).height(),
        forall|i: int, j: int|
            #[trigger] final(framebuffer).pixel(i, j) == if !on_surface(
                old(framebuffer).width(),
                old(framebuffer).height(),
                i,
                j,
            ) {
                old(framebuffer).pixel(i, j)
            } else if in_ball(ball.x() as int, ball.y() as int, i, j) {
                BALL_COLOR
            } else if in_racket(rackets[0].x() as int, rackets[0].y() as int, i, j) || in_racket(
                rackets[1].x() as int,
                rackets[1].y() as int,
                i,
                j,
            ) {
                RACKET_COLOR
            } else {
                old(framebuffer).pixel(i, j)
            },
{
    rackets[0].draw_racket(framebuffer);
    rackets[1].draw_racket(framebuffer);
    ball.draw_ball(framebuffer);
}

/// Composes one frame from `gamestate`: both rackets and the ball move to the
/// snapshot's positions, clamped to the screen, and are drawn there; the
/// render cache decides which scores this frame draws, and the result says
/// which (the caller writes those scores at `score_position`).
pub fn update_graphics<F: Framebuffer>(
    framebuffer: &mut F,
    gamestate: &GamestatePacket,
    rackets: &mut [Racket; 2],
    ball: &mut Ball,
    cache: &mut GraphicsCache,
    total_time: usize,
) -> (r: [bool; 2])
    requires
        old(rackets)[0].wf(),
        old(rackets)[1].wf(),
        old(ball).wf(),
    ensures
        forall|k: int|
            0 <= k < 2 ==> {
                &&& (#[trigger] final(rackets)[k]).wf()
                &&& final(rackets)[k].x() == old(rackets)[k].x()
                &&& final(rackets)[k].y() == clamped(
                    gamestate.rackets[k].y as int,
                    RACKET_Y_MIN as int,
                    RACKET_Y_MAX as int,
                )
                &&& final(rackets)[k].y_old() == old(rackets)[k].y()
            },
        final(ball).wf(),
        final(ball).x() == clamped(gamestate.ball.x as int, BALL_RADIUS as int, BALL_X_MAX as int),
        final(ball).y() == clamped(gamestate.ball.y as int, BALL_RADIUS as int, BALL_Y_MAX as int),
        forall|k: int| 0 <= k < 2 ==> #[trigger] r[k] == old(cache).redraws(gamestate.score, total_time as int, k),
        *final(cache) == old(cache).after_frame(gamestate.score, total_time),
        forall|k: int|
            0 <= k < 2 ==> #[trigger] final(cache).shown_score(k) == if r[k] {
                gamestate.score[k]
            } else {
                old(cache).shown_score(k)
            },
        final(cache).last_redraw() == if r[0] || r[1] {
            total_time
        } else {
            old(cache).last_redraw()
        },
        !r[0] && !r[1] ==> *final(cache) == *old(cache),
        final(cache).shown_score(0) == gamestate.score[0],
        final(cache).shown_score(1) == gamestate.score[1],
        final(framebuffer).width() == old(framebuffer).width(),
        final(framebuffer).height() == old(framebuffer).height(),
        forall|i: int, j: int|
            in_ball(final(ball).x() as int, final(ball).y() as int, i, j) && on_surface(
                old(framebuffer).width(),
                old(framebuffer).height(),
                i,
                j,
            ) ==> #[trigger] final(framebuffer).pixel(i, j) == BALL_COLOR,
        forall|i: int, j: int|
            on_surface(old(framebuffer).width(), old(framebuffer).height(), i, j)
                && in_racket(final(rackets)[1].x() as int, final(rackets)[1].y() as int, i, j)
                && !in_ball(old(ball).x() as int, old(ball).y() as int, i, j)
                && !in_ball(final(ball).x() as int, final(ball).y() as int, i, j)
                ==> #[trigger] final(framebuffer).pixel(i, j) == RACKET_COLOR,
        forall|i: int, j: int|
            on_surface(old(framebuffer).width(), old(framebuffer).height(), i, j)
                && in_racket(final(rackets)[0].x() as int, final(rackets)[0].y() as int, i, j)
                && !in_racket(old(rackets)[1].x() as int, old(rackets)[1].y() as int, i, j)
                && !in_ball(old(ball).x() as int, old(ball).y() as int, i, j)
                && !in_ball(final(ball).x() as int, final(ball).y() as int, i, j)
                ==> #[trigger] final(framebuffer).pixel(i, j) == RACKET_COLOR,
        forall|i: int, j: int|
            !in_racket(old(rackets)[0].x() as int, old(rackets)[0].y() as int, i, j)
                && !in_racket(final(rackets)[0].x() as int, final(rackets)[0].y() as int, i, j)
                && !in_racket(old(rackets)[1].x() as int, old(rackets)[1].y() as int, i, j)
                && !in_racket(final(rackets)[1].x() as int, final(rackets)[1].y() as int, i, j)
                && !in_ball(old(ball).x() as int, old(ball).y() as int, i, j)
                && !in_ball(final(ball).x() as int, final(ball).y() as int, i, j)
                ==> #[trigger] final(framebuffer).pixel(i, j) == old(framebuffer).pixel(i, j),
{
    let mut left = rackets[0];
    left.update_racket_pos(framebuffer, gamestate.rackets[0].y);
    rackets[0] = left;
    let mut right = rackets[1];
    right.update_racket_pos(framebuffer, gamestate.rackets[1].y);
    rackets[1] = right;
    ball.update_ball_pos(framebuffer, gamestate.ball);
    cache.plan_score_redraw(gamestate.score, total_time)
}

/// What a frame leaves in the cache: each score it redraws is recorded as
/// shown, and the redraw time moves to the frame's time when it redrew any.
pub proof fn lemma_after_frame(cache: GraphicsCache, score: [u8; 2], now: usize)
    ensures
        forall|k: int|
            0 <= k < 2 ==> #[trigger] cache.after_frame(score, now).shown_score(k) == if cache.redraws(
                score,
                now as int,
                k,
            ) {
                score[k]
            } else {
                cache.shown_score(k)
            },
        cache.after_frame(score, now).last_redraw() == if cache.redraws(score, now as int, 0)
            || cache.redraws(score, now as int, 1) {
            now
        } else {
            cache.last_redraw()
        },
{
}

/// After any frame the cache shows exactly the frame's scores. A next frame
/// with the same score, within the staleness window of the last score redraw,
/// draws no score and leaves the cache as it is.
pub proof fn lemma_unchanged_score_not_redrawn(
    cache: GraphicsCache,
    score: [u8; 2],
    first: usize,
    second: usize,
)
    requires
        second <= cache.after_frame(score, first).last_redraw() + SCORE_STALE_AFTER,
    ensures
        cache.after_frame(score, first).shown_score(0) == score[0],
        cache.after_frame(score, first).shown_score(1) == score[1],
        !cache.after_frame(score, first).redraws(score, second as int, 0),
        !cache.after_frame(score, first).redraws(score, second as int, 1),
        cache.after_frame(score, first).after_frame(score, second) == cache.after_frame(score, first),
{
    let c1 = cache.after_frame(score, first);
    assert(c1.after_frame(score, second).score =~= c1.score);
}

/// Once more than the staleness window has passed since the last score
/// redraw, a frame draws both scores, changed or not, records them as shown
/// and moves the redraw time to the frame's time.
pub proof fn lemma_stale_score_redrawn(cache: GraphicsCache, score: [u8; 2], now: usize)
    requires
        now > cache.last_redraw() + SCORE_STALE_AFTER,
    ensures
        cache.redraws(score, now as int, 0),
        cache.redraws(score, now as int, 1),
        cache.after_frame(score, now).shown_score(0) == score[0],
        cache.after_frame(score, now).shown_score(1) == score[1],
        cache.after_frame(score, now).last_redraw() == now,
{
}

} // verus!
