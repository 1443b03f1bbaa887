//! The window a plot of the world is drawn in: the extent of everything
//! that must be visible, padded, and widened or heightened until it is
//! exactly twice as wide as it is high.

use vstd::prelude::*;
use crate::fixed::{floor_div, max_int, LIMIT, SCALE};
use crate::geometry::Vec2;
use crate::model::{Barrier, LaunchConfig, Level, LevelView, Prediction, PredictionView, Projectile};

verus! {

/// Width of the window for each unit of height.
pub const DISTANCE_TO_HEIGHT_RATIO: i64 = 2;

/// Hundredths of the horizontal extent added as padding.
pub const X_PADDING_PERCENT: i64 = 6;

/// Hundredths of the vertical extent added as padding.
pub const Y_PADDING_PERCENT: i64 = 10;

/// Largest extent the 64-bit window accepts.
pub const MAX_EXTENT_64: i64 = 4_000_000_000_000_000_000;

/// Largest extent the 32-bit window accepts.
pub const MAX_EXTENT_32: i32 = 900_000_000;

/// One unit in the thousandths that the 32-bit window counts in.
pub const MILLI: i32 = 1000;

/// An extent with its padding: the extent, floored to one unit, gives the
/// padding; extent and padding together are floored to one unit again.
pub open spec fn padded_span(raw: int, one: int, percent: int) -> int {
    max_int(raw + max_int(raw, one) * percent / 100, one)
}

/// The window for the extents `raw_x` and `raw_y`, where `one` is one unit:
/// the padded spans, with the relatively smaller one enlarged so that the
/// width is exactly twice the height.
pub open spec fn window_spec(raw_x: int, raw_y: int, one: int) -> (int, int) {
    let x = padded_span(raw_x, one, X_PADDING_PERCENT as int);
    let y = padded_span(raw_y, one, Y_PADDING_PERCENT as int);
    if x < 2 * y {
        (2 * y, y)
    } else {
        (2 * ((x + 1) / 2), (x + 1) / 2)
    }
}

fn padded(raw: i128, one: i128, percent: i128) -> (span: i128)
    requires
        -0x8000_0000_0000_0000 <= raw <= MAX_EXTENT_64,
        1 <= one <= 1_000_000,
        0 <= percent <= 10,
    ensures
        span == padded_span(raw as int, one as int, percent as int),
        one <= span <= 4_400_000_000_000_000_000,
{
    let floored: i128 = if raw >= one {
        raw
    } else {
        one
    };
    assert(0 <= floored * percent <= 40_000_000_000_000_000_000) by (nonlinear_arith)
        requires
            1 <= floored <= 4_000_000_000_000_000_000,
            0 <= percent <= 10,
    ;
    let pad: i128 = floor_div(floored * percent, 100);
    let span: i128 = raw + pad;
    if span >= one {
        span
    } else {
        one
    }
}

fn window_of(raw_x: i128, raw_y: i128, one: i128) -> (spans: (i128, i128))
    requires
        -0x8000_0000_0000_0000 <= raw_x <= MAX_EXTENT_64,
        -0x8000_0000_0000_0000 <= raw_y <= MAX_EXTENT_64,
        1 <= one <= 1_000_000,
    ensures
        (spans.0 as int, spans.1 as int) == window_spec(raw_x as int, raw_y as int, one as int),
        spans.0 == 2 * spans.1,
        spans.0 >= padded_span(raw_x as int, one as int, X_PADDING_PERCENT as int),
        spans.1 >= padded_span(raw_y as int, one as int, Y_PADDING_PERCENT as int),
        raw_x <= MAX_EXTENT_32 && raw_y <= MAX_EXTENT_32 ==> spans.0 <= 2_000_000_000,
        2 * one <= spans.0 <= 8_800_000_000_000_000_002,
{
    let x: i128 = padded(raw_x, one, X_PADDING_PERCENT as i128);
    let y: i128 = padded(raw_y, one, Y_PADDING_PERCENT as i128);
    if x < 2 * y {
        (2 * y, y)
    } else {
        let half: i128 = floor_div(x + 1, 2);
        (2 * half, half)
    }
}

/// The window for extents in millionths, on 64-bit fixed point.
pub fn fixed_ratio_axis_window_f64(raw_max_x: i64, raw_max_y: i64) -> (spans: (i64, i64))
    requires
        raw_max_x <= MAX_EXTENT_64,
        raw_max_y <= MAX_EXTENT_64,
    ensures
        (spans.0 as int, spans.1 as int) == window_spec(
            raw_max_x as int,
            raw_max_y as int,
            SCALE as int,
        ),
        spans.0 == DISTANCE_TO_HEIGHT_RATIO * spans.1,
        spans.0 >= padded_span(raw_max_x as int, SCALE as int, X_PADDING_PERCENT as int),
        spans.1 >= padded_span(raw_max_y as int, SCALE as int, Y_PADDING_PERCENT as int),
        spans.1 >= SCALE,
{
    let (x, y) = window_of(raw_max_x as i128, raw_max_y as i128, SCALE as i128);
    (x as i64, y as i64)
}

/// The window for extents in thousandths, on 32-bit fixed point.
pub fn fixed_ratio_axis_window_f32(raw_max_x: i32, raw_max_y: i32) -> (spans: (i32, i32))
    requires
        raw_max_x <= MAX_EXTENT_32,
        raw_max_y <= MAX_EXTENT_32,
    ensures
        (spans.0 as int, spans.1 as int) == window_spec(
            raw_max_x as int,
            raw_max_y as int,
            MILLI as int,
        ),
        spans.0 == DISTANCE_TO_HEIGHT_RATIO * spans.1,
        spans.0 >= padded_span(raw_max_x as int, MILLI as int, X_PADDING_PERCENT as int),
        spans.1 >= padded_span(raw_max_y as int, MILLI as int, Y_PADDING_PERCENT as int),
        spans.1 >= MILLI,
{
    let (x, y) = window_of(raw_max_x as i128, raw_max_y as i128, MILLI as i128);
    (x as i32, y as i32)
}

/// The largest first coordinate among the first `n` points, and at least
/// `floor`.
pub open spec fn greatest_x(points: Seq<(i64, i64)>, n: nat, floor: int) -> int
    decreases n,
{
    if n == 0 {
        floor
    } else {
        max_int(greatest_x(points, (n - 1) as nat, floor), points[n - 1].0 as int)
    }
}

/// The largest second coordinate among the first `n` points, and at least
/// `floor`.
pub open spec fn greatest_y(points: Seq<(i64, i64)>, n: nat, floor: int) -> int
    decreases n,
{
    if n == 0 {
        floor
    } else {
        max_int(greatest_y(points, (n - 1) as nat, floor), points[n - 1].1 as int)
    }
}

/// The axis ranges of a plot of `points`: both start at zero and span the
/// window of the points' largest coordinates.
pub fn axis_bounds(points: &Vec<(i64, i64)>) -> (bounds: ((i64, i64), (i64, i64)))
    requires
        forall|i: int|
            0 <= i < points@.len() ==> (#[trigger] points@[i]).0 <= MAX_EXTENT_64 && points@[i].1
                <= MAX_EXTENT_64,
    ensures
        bounds.0.0 == 0,
        bounds.1.0 == 0,
        (bounds.0.1 as int, bounds.1.1 as int) == window_spec(
            greatest_x(points@, points@.len(), 0),
            greatest_y(points@, points@.len(), 0),
            SCALE as int,
        ),
        bounds.0.1 == 2 * bounds.1.1,
        bounds.1.1 >= SCALE,
{
    let mut max_x: i64 = 0;
    let mut max_y: i64 = 0;
    let mut i: usize = 0;
    while i < points.len()
        invariant
            0 <= i <= points@.len(),
            forall|k: int|
                0 <= k < points@.len() ==> (#[trigger] points@[k]).0 <= MAX_EXTENT_64
                    && points@[k].1 <= MAX_EXTENT_64,
            max_x == greatest_x(points@, i as nat, 0),
            max_y == greatest_y(points@, i as nat, 0),
            0 <= max_x <= MAX_EXTENT_64,
            0 <= max_y <= MAX_EXTENT_64,
        decreases points@.len() - i,
    {
        let point: (i64, i64) = points[i];
        if point.0 > max_x {
            max_x = point.0;
        }
        if point.1 > max_y {
            max_y = point.1;
        }
        i = i + 1;
    }
    let (x_span, y_span) = fixed_ratio_axis_window_f64(max_x, max_y);
    ((0, x_span), (0, y_span))
}

/// The largest height among the first `n` positions, and at least `floor`.
pub open spec fn highest(points: Seq<Vec2>, n: nat, floor: int) -> int
    decreases n,
{
    if n == 0 {
        floor
    } else {
        max_int(highest(points, (n - 1) as nat, floor), points[n - 1].y as int)
    }
}

/// The right edge furthest right among the first `n` barriers, and at least
/// `floor`.
pub open spec fn barriers_right(barriers: Seq<Barrier>, n: nat, floor: int) -> int
    decreases n,
{
    if n == 0 {
        floor
    } else {
        max_int(
            barriers_right(barriers, (n - 1) as nat, floor),
            barriers[n - 1].rect.x + barriers[n - 1].rect.w,
        )
    }
}

/// The top edge furthest up among the first `n` barriers, and at least
/// `floor`.
pub open spec fn barriers_top(barriers: Seq<Barrier>, n: nat, floor: int) -> int
    decreases n,
{
    if n == 0 {
        floor
    } else {
        max_int(
            barriers_top(barriers, (n - 1) as nat, floor),
            barriers[n - 1].rect.y + barriers[n - 1].rect.h,
        )
    }
}

/// The largest of four corners' coordinates along one axis, and at least
/// `floor`.
pub open spec fn corners_extent(c0: int, c1: int, c2: int, c3: int, floor: int) -> int {
    max_int(max_int(max_int(max_int(floor, c0), c1), c2), c3)
}

/// How far right the world reaches: the predicted range, the target, one
/// unit, the bounce surface, the barriers and the shot in flight.
pub open spec fn world_extent_x(
    level: LevelView,
    prediction: PredictionView,
    shot: Option<Projectile>,
) -> int {
    let base = max_int(
        max_int(prediction.range as int, level.target.center.x + level.target.radius),
        SCALE as int,
    );
    let with_surface = match level.bounce_surface {
        Some(s) => corners_extent(
            s.corners@[0].x as int,
            s.corners@[1].x as int,
            s.corners@[2].x as int,
            s.corners@[3].x as int,
            base,
        ),
        None => base,
    };
    let with_barriers = barriers_right(level.barriers, level.barriers.len(), with_surface);
    match shot {
        Some(p) => max_int(with_barriers, p.position.x as int),
        None => with_barriers,
    }
}

/// How far up the world reaches: the predicted path, the launch height,
/// the target, one unit, the bounce surface, the barriers and the shot in
/// flight.
pub open spec fn world_extent_y(
    level: LevelView,
    config: LaunchConfig,
    prediction: PredictionView,
    shot: Option<Projectile>,
) -> int {
    let base = max_int(
        max_int(
            max_int(highest(prediction.points, prediction.points.len(), 0), config.height as int),
            level.target.center.y + level.target.radius,
        ),
        SCALE as int,
    );
    let with_surface = match level.bounce_surface {
        Some(s) => corners_extent(
            s.corners@[0].y as int,
            s.corners@[1].y as int,
            s.corners@[2].y as int,
            s.corners@[3].y as int,
            base,
        ),
        None => base,
    };
    let with_barriers = barriers_top(level.barriers, level.barriers.len(), with_surface);
    match shot {
        Some(p) => max_int(with_barriers, p.position.y as int),
        None => with_barriers,
    }
}

fn larger(a: i64, b: i64) -> (r: i64)
    ensures
        r == max_int(a as int, b as int),
{
    if a >= b {
        a
    } else {
        b
    }
}

/// The window that shows the whole level, the predicted flight and the shot
/// in flight.
pub fn compute_world_window(
    level: &Level,
    config: LaunchConfig,
    prediction: &Prediction,
    shot: Option<Projectile>,
) -> (spans: (i64, i64))
    requires
        level.wf(),
        config.wf(),
        prediction@.wf(),
        shot matches Some(p) ==> p.wf(),
    ensures
        (spans.0 as int, spans.1 as int) == window_spec(
            world_extent_x(level@, prediction@, shot),
            world_extent_y(level@, config, prediction@, shot),
            SCALE as int,
        ),
        spans.0 == 2 * spans.1,
{
    let mut raw_max_x: i64 = larger(
        larger(prediction.range, level.target.center.x + level.target.radius),
        SCALE,
    );
    let mut top: i64 = 0;
    let mut i: usize = 0;
    while i < prediction.points.len()
        invariant
            0 <= i <= prediction.points@.len(),
            prediction@.wf(),
            top == highest(prediction.points@, i as nat, 0),
            0 <= top <= LIMIT,
        decreases prediction.points@.len() - i,
    {
        assert(prediction@.points[i as int].wf());
        top = larger(top, prediction.points[i].y);
        i = i + 1;
    }
    let mut raw_max_y: i64 = larger(
        larger(larger(top, config.height), level.target.center.y + level.target.radius),
        SCALE,
    );
    match level.bounce_surface {
        Some(surface) => {
            assert(surface.corners@[0].wf() && surface.corners@[1].wf() && surface.corners@[2].wf()
                && surface.corners@[3].wf());
            raw_max_x = larger(raw_max_x, surface.corners[0].x);
            raw_max_x = larger(raw_max_x, surface.corners[1].x);
            raw_max_x = larger(raw_max_x, surface.corners[2].x);
            raw_max_x = larger(raw_max_x, surface.corners[3].x);
            raw_max_y = larger(raw_max_y, surface.corners[0].y);
            raw_max_y = larger(raw_max_y, surface.corners[1].y);
            raw_max_y = larger(raw_max_y, surface.corners[2].y);
            raw_max_y = larger(raw_max_y, surface.corners[3].y);
        },
        None => {},
    }
    let ghost surface_x = raw_max_x;
    let ghost surface_y = raw_max_y;
    let mut j: usize = 0;
    while j < level.barriers.len()
        invariant
            0 <= j <= level.barriers@.len(),
            level.wf(),
            raw_max_x == barriers_right(level.barriers@, j as nat, surface_x as int),
            raw_max_y == barriers_top(level.barriers@, j as nat, surface_y as int),
            SCALE <= raw_max_x <= 2 * LIMIT,
            SCALE <= raw_max_y <= 2 * LIMIT,
        decreases level.barriers@.len() - j,
    {
        assert(level@.barriers[j as int].rect.wf());
        let rect = level.barriers[j].rect;
        raw_max_x = larger(raw_max_x, rect.x + rect.w);
        raw_max_y = larger(raw_max_y, rect.y + rect.h);
        j = j + 1;
    }
    match shot {
        Some(p) => {
            raw_max_x = larger(raw_max_x, p.position.x);
            raw_max_y = larger(raw_max_y, p.position.y);
        },
        None => {},
    }
    fixed_ratio_axis_window_f64(raw_max_x, raw_max_y)
}

} // verus!
