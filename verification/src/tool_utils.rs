//! Tool selection, the coordinate mapper from widget space to pixel space,
//! the line rasteriser that turns a pointer segment into grid points, and the
//! strokes stamped on them.

use vstd::prelude::*;
use crate::bitmap::{
    color_channel, draw_filled_circle, filled_circle, overwritten_with, Bitmap, COORD_LIMIT,
    RADIUS_LIMIT,
};

verus! {

/// The editing tool that pointer drags are routed to.
#[derive(Clone, Copy, PartialEq, Eq, Structural, Debug)]
pub enum Tool {
    NoTool,
    Pen,
    Crop,
}

/// One axis of the coordinate mapping: the pointer coordinate scaled by the
/// ratio of the true size to the displayed size, the fraction dropped.
pub open spec fn scale_axis(pointer: int, displayed: int, actual: int) -> int {
    if pointer >= 0 {
        (pointer * actual) / displayed
    } else {
        -(((-pointer) * actual) / displayed)
    }
}

/// A pointer inside the displayed image points at a pixel inside the bitmap:
/// there the mapping needs no clamping.
pub proof fn lemma_inside_maps_inside(pointer: int, displayed: int, actual: int)
    requires
        0 <= pointer < displayed,
        0 <= actual,
    ensures
        0 <= scale_axis(pointer, displayed, actual),
        actual > 0 ==> scale_axis(pointer, displayed, actual) < actual,
{
    assert(0 <= pointer * actual) by (nonlinear_arith)
        requires
            0 <= pointer,
            0 <= actual,
    ;
    lemma_div_bracket(pointer * actual, displayed);
    let q = (pointer * actual) / displayed;
    assert(q >= 0) by (nonlinear_arith)
        requires
            displayed > 0,
            0 <= pointer * actual,
            pointer * actual < q * displayed + displayed,
    ;
    if actual > 0 {
        assert(q < actual) by (nonlinear_arith)
            requires
                displayed > 0,
                0 <= pointer < displayed,
                actual > 0,
                q * displayed <= pointer * actual,
        ;
    }
}

/// Scales one pointer coordinate from widget space to pixel space.
fn scale_coordinate(pointer: i32, displayed: u32, actual: u32) -> (res: i64)
    requires
        displayed > 0,
    ensures
        res == scale_axis(pointer as int, displayed as int, actual as int),
{
    let magnitude: u64 = if pointer >= 0 { pointer as u64 } else { (-(pointer as i64)) as u64 };
    assert(0 <= magnitude * actual <= 0x8000_0000 * 0xffff_ffff) by (nonlinear_arith)
        requires
            0 <= magnitude <= 0x8000_0000,
            0 <= actual <= 0xffff_ffff,
    ;
    let scaled: u64 = (magnitude * (actual as u64)) / (displayed as u64);
    assert(scaled <= magnitude * actual) by {
        vstd::arithmetic::div_mod::lemma_div_is_ordered_by_denominator(
            (magnitude * actual) as int,
            1,
            displayed as int,
        );
        vstd::arithmetic::div_mod::lemma_div_basics((magnitude * actual) as int);
    }
    if pointer >= 0 {
        scaled as i64
    } else {
        -(scaled as i64)
    }
}

/// Maps a pointer position on the displayed image to the pixel it points at.
///
/// `pos` is relative to the top-left corner of the displayed image and in the
/// same unit as `image_rect_size`, the displayed size; `real_image_size` is
/// the bitmap's size in pixels. Each axis is scaled on its own by the ratio
/// of true to displayed size. The result is not clamped: it lies outside the
/// bitmap when the pointer lies outside the displayed image.
pub fn get_real_image_pos(
    pos: (i32, i32),
    image_rect_size: (u32, u32),
    real_image_size: (u32, u32),
) -> (res: (i64, i64))
    requires
        image_rect_size.0 > 0,
        image_rect_size.1 > 0,
    ensures
        res.0 == scale_axis(pos.0 as int, image_rect_size.0 as int, real_image_size.0 as int),
        res.1 == scale_axis(pos.1 as int, image_rect_size.1 as int, real_image_size.1 as int),
{
    (
        scale_coordinate(pos.0, image_rect_size.0, real_image_size.0),
        scale_coordinate(pos.1, image_rect_size.1, real_image_size.1),
    )
}

/// Distance between two integers.
pub open spec fn abs_diff(a: int, b: int) -> int {
    if a <= b {
        b - a
    } else {
        a - b
    }
}

/// The larger of two integers.
pub open spec fn max_of(a: int, b: int) -> int {
    if a >= b {
        a
    } else {
        b
    }
}

/// `p / q` rounded to the nearest integer, a tie going to the smaller one
/// (for `p >= 0` and `q > 0`).
pub open spec fn round_half_down(p: int, q: int) -> int {
    (2 * p + q - 1) / (2 * q)
}

/// Direction of travel along one axis: `1` towards larger coordinates, `-1` otherwise.
pub open spec fn step_sign(from: int, to: int) -> int {
    if from < to {
        1
    } else {
        -1
    }
}

/// Number of steps of the digital line between two grid points: the extent
/// along its dominant axis.
pub open spec fn line_steps(x0: int, y0: int, x1: int, y1: int) -> int {
    max_of(abs_diff(x0, x1), abs_diff(y0, y1))
}

/// The `k`-th point of the digital line from `(x0, y0)` to `(x1, y1)`.
///
/// The dominant axis advances by one per step; the other axis follows the
/// ideal line, rounded to the nearest grid row (ties staying behind).
pub open spec fn line_point(x0: int, y0: int, x1: int, y1: int, k: int) -> (int, int) {
    let n = line_steps(x0, y0, x1, y1);
    if n == 0 {
        (x0, y0)
    } else {
        (
            x0 + step_sign(x0, x1) * round_half_down(k * abs_diff(x0, x1), n),
            y0 + step_sign(y0, y1) * round_half_down(k * abs_diff(y0, y1), n),
        )
    }
}

/// The digital line from `(x0, y0)` to `(x1, y1)`, both endpoints included.
pub open spec fn line_points(x0: int, y0: int, x1: int, y1: int) -> Seq<(int, int)> {
    Seq::new(
        (line_steps(x0, y0, x1, y1) + 1) as nat,
        |k: int| line_point(x0, y0, x1, y1, k),
    )
}

/// Grid points as mathematical integers.
pub open spec fn points_view(points: Seq<(i32, i32)>) -> Seq<(int, int)> {
    points.map_values(|p: (i32, i32)| (p.0 as int, p.1 as int))
}

/// Distributes a product over one more step: `(k + 1) * d == k * d + d`.
proof fn lemma_mul_succ(k: int, d: int)
    ensures
        (k + 1) * d == k * d + d,
{
    assert((k + 1) * d == k * d + d) by (nonlinear_arith);
}

/// A quotient is pinned by the multiple of the divisor just below the dividend.
proof fn lemma_div_between(p: int, d: int, c: int)
    requires
        d > 0,
        c * d <= p < c * d + d,
    ensures
        p / d == c,
{
    vstd::arithmetic::div_mod::lemma_fundamental_div_mod_converse(p, d, c, p - c * d);
}

/// A quotient and the multiples of the divisor around the dividend.
proof fn lemma_div_bracket(p: int, d: int)
    requires
        d > 0,
    ensures
        (p / d) * d <= p < (p / d) * d + d,
{
    vstd::arithmetic::div_mod::lemma_fundamental_div_mod(p, d);
    vstd::arithmetic::div_mod::lemma_mod_bound(p, d);
    assert(d * (p / d) == (p / d) * d) by (nonlinear_arith);
}

/// The dominant axis of a digital line advances by exactly one per step.
proof fn lemma_round_major(k: int, n: int)
    requires
        n > 0,
    ensures
        round_half_down(k * n, n) == k,
{
    assert(k * (2 * n) == 2 * (k * n)) by (nonlinear_arith);
    lemma_div_between(2 * (k * n) + n - 1, 2 * n, k);
}

/// The other axis has taken `c` steps after `k` iterations when `c` is the
/// nearest integer to `k * m / n`.
proof fn lemma_round_minor(k: int, m: int, n: int, c: int)
    requires
        n > 0,
        2 * (c * n) - n < 2 * (k * m) <= 2 * (c * n) + n,
    ensures
        round_half_down(k * m, n) == c,
{
    assert(c * (2 * n) == 2 * (c * n)) by (nonlinear_arith);
    lemma_div_between(2 * (k * m) + n - 1, 2 * n, c);
}

/// Bounds the minor-axis step count by the minor extent.
proof fn lemma_minor_bounded(k: int, m: int, n: int, c: int)
    requires
        n > 0,
        0 <= m <= n,
        0 <= k <= n,
        2 * (c * n) - n < 2 * (k * m) <= 2 * (c * n) + n,
    ensures
        0 <= c <= m,
        k == n ==> c == m,
{
    assert(0 <= c <= m && (k == n ==> c == m)) by (nonlinear_arith)
        requires
            n > 0,
            0 <= m <= n,
            0 <= k <= n,
            2 * (c * n) - n < 2 * (k * m) <= 2 * (c * n) + n,
    ;
}

/// After `k` of `n` steps an axis of extent `m` has advanced by between `0` and `m`.
proof fn lemma_round_within(k: int, m: int, n: int)
    requires
        n > 0,
        0 <= m <= n,
        0 <= k <= n,
    ensures
        0 <= round_half_down(k * m, n) <= m,
{
    assert(0 <= k * m <= n * m) by (nonlinear_arith)
        requires
            0 <= m,
            0 <= k <= n,
    ;
    assert(2 * (m * n) - n < 2 * (n * m) <= 2 * (m * n) + n) by (nonlinear_arith)
        requires
            n > 0,
    ;
    lemma_round_minor(n, m, n, m);
    vstd::arithmetic::div_mod::lemma_div_is_ordered(
        2 * (k * m) + n - 1,
        2 * (n * m) + n - 1,
        2 * n,
    );
    vstd::arithmetic::div_mod::lemma_div_is_ordered(0, 2 * (k * m) + n - 1, 2 * n);
}

/// From one step to the next an axis of extent `m <= n` stays or advances by
/// one.
proof fn lemma_round_step(k: int, m: int, n: int)
    requires
        n > 0,
        0 <= m <= n,
    ensures
        round_half_down(k * m, n) <= round_half_down((k + 1) * m, n) <= round_half_down(k * m, n)
            + 1,
{
    let c = round_half_down(k * m, n);
    let p = 2 * (k * m) + n - 1;
    lemma_div_bracket(p, 2 * n);
    lemma_mul_succ(k, m);
    let q = 2 * ((k + 1) * m) + n - 1;
    assert(q == p + 2 * m);
    assert((c + 1) * (2 * n) == c * (2 * n) + 2 * n) by (nonlinear_arith);
    if q < c * (2 * n) + 2 * n {
        lemma_div_between(q, 2 * n, c);
    } else {
        lemma_div_between(q, 2 * n, c + 1);
    }
}

/// Rasterises the straight segment from `(x0, y0)` to `(x1, y1)`.
///
/// The result lists the grid points of the digital line in order of travel,
/// starting at `(x0, y0)` and ending at `(x1, y1)`: one point per step along
/// the dominant axis, the other coordinate rounded to the nearest row.
pub fn get_line_points(x0: i32, y0: i32, x1: i32, y1: i32) -> (result: Vec<(i32, i32)>)
    ensures
        points_view(result@) == line_points(x0 as int, y0 as int, x1 as int, y1 as int),
{
    let mut result: Vec<(i32, i32)> = Vec::new();

    let dx: i64 = if x0 < x1 { x1 as i64 - x0 as i64 } else { x0 as i64 - x1 as i64 };
    let dy: i64 = if y0 < y1 { y1 as i64 - y0 as i64 } else { y0 as i64 - y1 as i64 };
    let sx: i64 = if x0 < x1 { 1 } else { -1 };
    let sy: i64 = if y0 < y1 { 1 } else { -1 };
    let mut x: i64 = x0 as i64;
    let mut y: i64 = y0 as i64;
    let mut err: i64 = dx - dy;

    let ghost n: int = line_steps(x0 as int, y0 as int, x1 as int, y1 as int);
    let ghost flat: bool = dx >= dy;
    let ghost m: int = if flat { dy as int } else { dx as int };
    let ghost k: int = 0;
    let ghost c: int = 0;
    // The products `c * n` and `k * m`, kept in step with `c` and `k`.
    let ghost cn: int = 0;
    let ghost km: int = 0;

    proof {
        assert(0 * n == 0) by (nonlinear_arith);
        assert(0 * m == 0) by (nonlinear_arith);
    }

    loop
        invariant_except_break
            0 <= k <= n,
            result@.len() == k,
        invariant
            dx == abs_diff(x0 as int, x1 as int),
            dy == abs_diff(y0 as int, y1 as int),
            sx == step_sign(x0 as int, x1 as int),
            sy == step_sign(y0 as int, y1 as int),
            n == max_of(dx as int, dy as int),
            n == line_steps(x0 as int, y0 as int, x1 as int, y1 as int),
            flat == (dx >= dy),
            m == (if flat { dy as int } else { dx as int }),
            0 <= k <= n,
            0 <= c <= m,
            cn == c * n,
            km == k * m,
            n > 0 ==> 2 * cn - n < 2 * km <= 2 * cn + n,
            n == 0 ==> c == 0 && k == 0,
            m == n ==> c == k,
            flat ==> x == x0 + sx * k && y == y0 + sy * c && err == cn + n - km - m,
            !flat ==> x == x0 + sx * c && y == y0 + sy * k && err == km + m - cn - n,
            forall|i: int|
                0 <= i < result@.len() ==> (result@[i].0 as int, result@[i].1 as int)
                    == #[trigger] line_point(x0 as int, y0 as int, x1 as int, y1 as int, i),
        ensures
            result@.len() == n + 1,
        decreases n - k,
    {
        proof {
            // The point about to be recorded is the `k`-th point of the line.
            if n > 0 {
                lemma_round_major(k, n);
                lemma_round_minor(k, m, n, c);
                lemma_minor_bounded(k, m, n, c);
            }
            assert(sx * k == (if x0 < x1 { k } else { -k })) by (nonlinear_arith)
                requires
                    sx == step_sign(x0 as int, x1 as int),
            ;
            assert(sy * k == (if y0 < y1 { k } else { -k })) by (nonlinear_arith)
                requires
                    sy == step_sign(y0 as int, y1 as int),
            ;
            assert(sx * c == (if x0 < x1 { c } else { -c })) by (nonlinear_arith)
                requires
                    sx == step_sign(x0 as int, x1 as int),
            ;
            assert(sy * c == (if y0 < y1 { c } else { -c })) by (nonlinear_arith)
                requires
                    sy == step_sign(y0 as int, y1 as int),
            ;
            assert((x as int, y as int) == line_point(
                x0 as int,
                y0 as int,
                x1 as int,
                y1 as int,
                k,
            ));
        }
        result.push((x as i32, y as i32));

        if x == x1 as i64 && y == y1 as i64 {
            proof {
                // The end point is only reached on the last step.
                assert(k == n);
            }
            break ;
        }
        proof {
            assert(k < n);
            lemma_mul_succ(k, m);
            lemma_mul_succ(c, n);
        }

        let e2: i64 = 2 * err;
        if e2 > -dy {
            err = err - dy;
            x = x + sx;
        }
        if e2 < dx {
            err = err + dx;
            y = y + sy;
        }

        proof {
            let stepped_minor = if flat { e2 < dx } else { e2 > -dy };
            k = k + 1;
            km = km + m;
            if stepped_minor {
                c = c + 1;
                cn = cn + n;
            }
            assert(sx * (k - 1) + sx == sx * k) by (nonlinear_arith);
            assert(sy * (k - 1) + sy == sy * k) by (nonlinear_arith);
            assert(sx * (c - 1) + sx == sx * c) by (nonlinear_arith);
            assert(sy * (c - 1) + sy == sy * c) by (nonlinear_arith);
            lemma_minor_bounded(k, m, n, c);
        }
    }
    proof {
        assert(points_view(result@) =~= line_points(
            x0 as int,
            y0 as int,
            x1 as int,
            y1 as int,
        ));
    }
    result
}

/// A digital line has one point more than it has steps, starts at its first
/// endpoint and ends at its second.
pub proof fn lemma_line_ends(x0: int, y0: int, x1: int, y1: int)
    ensures
        line_points(x0, y0, x1, y1).len() == line_steps(x0, y0, x1, y1) + 1,
        line_points(x0, y0, x1, y1).first() == (x0, y0),
        line_points(x0, y0, x1, y1).last() == (x1, y1),
{
    let n = line_steps(x0, y0, x1, y1);
    let dx = abs_diff(x0, x1);
    let dy = abs_diff(y0, y1);
    if n > 0 {
        assert(0 * dx == 0 && 0 * dy == 0) by (nonlinear_arith);
        lemma_div_between(n - 1, 2 * n, 0);
        assert(2 * (dx * n) - n < 2 * (n * dx) <= 2 * (dx * n) + n) by (nonlinear_arith)
            requires
                n > 0,
        ;
        assert(2 * (dy * n) - n < 2 * (n * dy) <= 2 * (dy * n) + n) by (nonlinear_arith)
            requires
                n > 0,
        ;
        lemma_round_minor(n, dx, n, dx);
        lemma_round_minor(n, dy, n, dy);
        assert(step_sign(x0, x1) * dx == x1 - x0) by (nonlinear_arith)
            requires
                dx == abs_diff(x0, x1),
        ;
        assert(step_sign(y0, y1) * dy == y1 - y0) by (nonlinear_arith)
            requires
                dy == abs_diff(y0, y1),
        ;
        assert(step_sign(x0, x1) * 0 == 0 && step_sign(y0, y1) * 0 == 0) by (nonlinear_arith);
    }
}

/// A digital line has no gaps and no repeats: each point is a neighbour of
/// the one before it, a step of one along the dominant axis and of at most
/// one along the other.
pub proof fn lemma_line_connected(x0: int, y0: int, x1: int, y1: int, k: int)
    requires
        0 <= k < line_steps(x0, y0, x1, y1),
    ensures
        ({
            let p = line_point(x0, y0, x1, y1, k);
            let q = line_point(x0, y0, x1, y1, k + 1);
            &&& -1 <= q.0 - p.0 <= 1
            &&& -1 <= q.1 - p.1 <= 1
            &&& p != q
        }),
{
    let n = line_steps(x0, y0, x1, y1);
    let dx = abs_diff(x0, x1);
    let dy = abs_diff(y0, y1);
    lemma_round_step(k, dx, n);
    lemma_round_step(k, dy, n);
    let a0 = round_half_down(k * dx, n);
    let a1 = round_half_down((k + 1) * dx, n);
    let b0 = round_half_down(k * dy, n);
    let b1 = round_half_down((k + 1) * dy, n);
    assert(step_sign(x0, x1) * a1 - step_sign(x0, x1) * a0 == step_sign(x0, x1) * (a1 - a0))
        by (nonlinear_arith);
    assert(step_sign(y0, y1) * b1 - step_sign(y0, y1) * b0 == step_sign(y0, y1) * (b1 - b0))
        by (nonlinear_arith);
    assert(step_sign(x0, x1) * 0 == 0 && step_sign(y0, y1) * 0 == 0) by (nonlinear_arith);
    assert(step_sign(x0, x1) * 1 == step_sign(x0, x1) && step_sign(y0, y1) * 1 == step_sign(y0, y1))
        by (nonlinear_arith);
    if dx == n {
        lemma_round_major(k, n);
        lemma_round_major(k + 1, n);
    } else {
        lemma_round_major(k, n);
        lemma_round_major(k + 1, n);
        assert(dy == n);
    }
}

/// Every point of a digital line lies in the box spanned by its endpoints.
pub proof fn lemma_line_point_in_box(x0: int, y0: int, x1: int, y1: int, k: int)
    requires
        0 <= k <= line_steps(x0, y0, x1, y1),
    ensures
        ({
            let p = line_point(x0, y0, x1, y1, k);
            &&& (x0 <= p.0 <= x1 || x1 <= p.0 <= x0)
            &&& (y0 <= p.1 <= y1 || y1 <= p.1 <= y0)
        }),
{
    let n = line_steps(x0, y0, x1, y1);
    if n > 0 {
        lemma_round_within(k, abs_diff(x0, x1), n);
        lemma_round_within(k, abs_diff(y0, y1), n);
        let a = round_half_down(k * abs_diff(x0, x1), n);
        let b = round_half_down(k * abs_diff(y0, y1), n);
        assert(step_sign(x0, x1) * a == (if x0 < x1 { a } else { -a })) by (nonlinear_arith);
        assert(step_sign(y0, y1) * b == (if y0 < y1 { b } else { -b })) by (nonlinear_arith);
    }
}

/// The bytes of an image after a filled circle has been stamped at each of
/// `points` in turn.
pub open spec fn stroked(
    data: Seq<u8>,
    width: int,
    height: int,
    points: Seq<(int, int)>,
    radius: int,
    color: [u8; 4],
) -> Seq<u8>
    decreases points.len(),
{
    if points.len() == 0 {
        data
    } else {
        filled_circle(
            stroked(data, width, height, points.drop_last(), radius, color),
            width,
            height,
            points.last().0,
            points.last().1,
            radius,
            color_channel(color, 0),
            color_channel(color, 1),
            color_channel(color, 2),
            color_channel(color, 3),
        )
    }
}

/// Draws a stroke segment: a filled circle of radius `t` stamped at every
/// point of the digital line from `start` to `end`.
///
/// The bitmap keeps its dimensions, and each of its bytes is afterwards
/// either what it was or the stroke colour's byte for that channel.
pub fn draw_line(img: &mut Bitmap, start: (i32, i32), end: (i32, i32), t: i32, color: [u8; 4])
    requires
        -COORD_LIMIT <= start.0 <= COORD_LIMIT,
        -COORD_LIMIT <= start.1 <= COORD_LIMIT,
        -COORD_LIMIT <= end.0 <= COORD_LIMIT,
        -COORD_LIMIT <= end.1 <= COORD_LIMIT,
        0 <= t <= RADIUS_LIMIT,
    ensures
        final(img)@.width == old(img)@.width,
        final(img)@.height == old(img)@.height,
        final(img)@.data == stroked(
            old(img)@.data,
            old(img)@.width as int,
            old(img)@.height as int,
            line_points(start.0 as int, start.1 as int, end.0 as int, end.1 as int),
            t as int,
            color,
        ),
        overwritten_with(old(img)@.data, final(img)@.data, color),
{
    let segment = get_line_points(start.0, start.1, end.0, end.1);
    let ghost line = line_points(start.0 as int, start.1 as int, end.0 as int, end.1 as int);
    let ghost width = old(img)@.width as int;
    let ghost height = old(img)@.height as int;
    let ghost before = old(img)@.data;
    assert(points_view(segment@).len() == segment@.len());
    let mut i: usize = 0;
    while i < segment.len()
        invariant
            i <= segment@.len(),
            points_view(segment@) == line,
            line == line_points(start.0 as int, start.1 as int, end.0 as int, end.1 as int),
            segment@.len() == line.len(),
            -COORD_LIMIT <= start.0 <= COORD_LIMIT,
            -COORD_LIMIT <= start.1 <= COORD_LIMIT,
            -COORD_LIMIT <= end.0 <= COORD_LIMIT,
            -COORD_LIMIT <= end.1 <= COORD_LIMIT,
            0 <= t <= RADIUS_LIMIT,
            img@.width == width,
            img@.height == height,
            img@.data == stroked(before, width, height, line.take(i as int), t as int, color),
            overwritten_with(before, img@.data, color),
        decreases segment@.len() - i,
    {
        let point = segment[i];
        proof {
            lemma_line_point_in_box(
                start.0 as int,
                start.1 as int,
                end.0 as int,
                end.1 as int,
                i as int,
            );
            assert(points_view(segment@)[i as int] == (point.0 as int, point.1 as int));
            assert(line[i as int] == line_point(
                start.0 as int,
                start.1 as int,
                end.0 as int,
                end.1 as int,
                i as int,
            ));
            assert(line.take(i as int + 1).drop_last() =~= line.take(i as int));
            assert(line.take(i as int + 1).last() == line[i as int]);
        }
        let ghost mid = img@.data;
        draw_filled_circle(img, point, t, color);
        proof {
            assert forall|j: int| 0 <= j < img@.data.len() implies #[trigger] img@.data[j]
                == before[j] || img@.data[j] == color_channel(color, j % 4) by {
                assert(img@.data[j] == mid[j] || img@.data[j] == color_channel(color, j % 4));
                assert(mid[j] == before[j] || mid[j] == color_channel(color, j % 4));
            }
        }
        i = i + 1;
    }
    proof {
        assert(line.take(i as int) =~= line);
    }
}

} // verus!
