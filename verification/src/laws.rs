//! What holds of the engine as a whole, proved from the definitions that the
//! functions' contracts are stated in.

use vstd::prelude::*;
use vstd::arithmetic::div_mod::lemma_fundamental_div_mod;
use crate::fixed::{
    abs_int, in_range, is_floor_sqrt, lemma_floor_div_monotone, lemma_floor_sqrt_exists,
    lemma_product_bound, SCALE,
};
use crate::game::{AppView, FrameActions, GamePhase};
use crate::geometry::{dot, Vec2};
use crate::model::{LaunchConfig, Level, LevelView, Prediction, Projectile, StepOutcome};
use crate::physics::{
    bounce_at, bounce_out, bounce_velocity, damp, edge_hit, edge_length_scaled, edge_normal,
    facing_normal, flight, in_any_barrier, integrate, launch_projectile_spec,
    lemma_component_within_length, lemma_normal_component, moved, predict_spec, reflect,
    resolve_bounce, step_spec, FIXED_STEP, PREDICTION_STEPS, SCALE_SQUARED,
};
use crate::window::{padded_span, window_spec, X_PADDING_PERCENT, Y_PADDING_PERCENT};

verus! {

/// A prediction is a function of the launch settings and the level alone:
/// two levels that agree part by part give the same path, range, flight
/// time, bounce count and outcome for the same settings.
pub proof fn lemma_prediction_is_deterministic(config: LaunchConfig, a: Level, b: Level)
    requires
        a@ == b@,
    ensures
        predict_spec(config, a@) == predict_spec(config, b@),
        predict_spec(config, a@).points == predict_spec(config, b@).points,
{
}

/// Two predictions that `simulate_prediction` returns for the same settings
/// on levels that agree part by part hold the same path, range, flight time,
/// bounce count and outcome.
pub proof fn lemma_predictions_agree(
    config: LaunchConfig,
    a: Level,
    b: Level,
    first: Prediction,
    second: Prediction,
)
    requires
        a@ == b@,
        first@ == predict_spec(config, a@),
        second@ == predict_spec(config, b@),
    ensures
        first@ == second@,
        first.points@ == second.points@,
{
}

/// A step ends in `HitTarget` only with at least the level's required
/// bounces, wherever the projectile is.
pub proof fn lemma_target_needs_required_bounces(p: Projectile, level: LevelView, dt: int)
    ensures
        step_spec(p, level, dt).1 == StepOutcome::HitTarget ==> step_spec(p, level, dt).0.bounces
            >= level.required_bounces,
{
}

/// A flight of any length ends in `HitTarget` only with at least the
/// level's required bounces.
pub proof fn lemma_flight_needs_required_bounces(p: Projectile, level: LevelView, budget: nat)
    ensures
        flight(p, level, budget).outcome == StepOutcome::HitTarget ==> flight(
            p,
            level,
            budget,
        ).last.bounces >= level.required_bounces,
    decreases budget,
{
    if budget > 0 {
        let (next, outcome) = step_spec(p, level, FIXED_STEP as int);
        lemma_target_needs_required_bounces(p, level, FIXED_STEP as int);
        lemma_flight_needs_required_bounces(next, level, (budget - 1) as nat);
    }
}

/// A prediction ends in `HitTarget` only with at least the level's required
/// bounces.
pub proof fn lemma_prediction_needs_required_bounces(config: LaunchConfig, level: LevelView)
    ensures
        predict_spec(config, level).outcome == StepOutcome::HitTarget ==> predict_spec(
            config,
            level,
        ).bounces >= level.required_bounces,
{
    lemma_flight_needs_required_bounces(
        launch_projectile_spec(config),
        level,
        PREDICTION_STEPS as nat,
    );
}

/// A bounce count never falls during a step.
pub proof fn lemma_bounces_only_increase(p: Projectile, level: LevelView, dt: int)
    ensures
        step_spec(p, level, dt).0.bounces >= p.bounces,
{
}

/// A step that brings the projectile into a barrier ends in `HitBarrier`,
/// however close the target is and however many bounces were made; and no
/// other step does.
pub proof fn lemma_barrier_is_absolute(p: Projectile, level: LevelView, dt: int)
    ensures
        in_any_barrier(level.barriers, moved(p, level, dt).position) <==> step_spec(
            p,
            level,
            dt,
        ).1 == StepOutcome::HitBarrier,
{
}

/// The next-level action changes nothing unless the current level lies
/// before the unlock frontier.
pub proof fn lemma_next_level_needs_unlock(s: AppView)
    requires
        s.current_level_idx >= s.highest_unlocked_level,
    ensures
        s.after_actions(
            FrameActions { launch_pause: false, reset: false, prev_level: false, next_level: true },
        ) == (s, false),
{
}

/// Whatever a frame's actions are, the player moves forward only by the
/// next-level action and only from a level before the frontier, by one
/// level; and the frontier stays where it is.
pub proof fn lemma_actions_respect_the_frontier(s: AppView, actions: FrameActions)
    requires
        s.wf(),
    ensures
        s.after_actions(actions).0.highest_unlocked_level == s.highest_unlocked_level,
        s.after_actions(actions).0.current_level_idx <= s.highest_unlocked_level,
        s.after_actions(actions).0.current_level_idx > s.current_level_idx ==> {
            &&& actions.next_level
            &&& s.current_level_idx < s.highest_unlocked_level
            &&& s.after_actions(actions).0.current_level_idx == s.current_level_idx + 1
        },
{
}

/// One step of a flight moves the unlock frontier only by ending in
/// success on the frontier level, and then by one level.
pub proof fn lemma_step_moves_frontier_on_success(s: AppView, dt: int)
    requires
        s.levels.len() <= usize::MAX,
        s.highest_unlocked_level < s.levels.len(),
    ensures
        s.after_step(dt).current_level_idx == s.current_level_idx,
        s.after_step(dt).levels == s.levels,
        s.after_step(dt).highest_unlocked_level >= s.highest_unlocked_level,
        s.after_step(dt).highest_unlocked_level < s.levels.len(),
        s.after_step(dt).highest_unlocked_level != s.highest_unlocked_level ==> {
            &&& s.after_step(dt).game.phase == GamePhase::Success
            &&& s.current_level_idx == s.highest_unlocked_level
            &&& s.after_step(dt).highest_unlocked_level == s.highest_unlocked_level + 1
        },
{
}

/// A flight of any length moves the unlock frontier only by ending in
/// success on the frontier level, and then by one level.
pub proof fn lemma_flight_moves_frontier_on_success(s: AppView, remaining: int)
    requires
        s.levels.len() <= usize::MAX,
        s.highest_unlocked_level < s.levels.len(),
    ensures
        s.after_flight(remaining).current_level_idx == s.current_level_idx,
        s.after_flight(remaining).highest_unlocked_level >= s.highest_unlocked_level,
        s.after_flight(remaining).highest_unlocked_level != s.highest_unlocked_level ==> {
            &&& s.after_flight(remaining).game.phase == GamePhase::Success
            &&& s.current_level_idx == s.highest_unlocked_level
            &&& s.after_flight(remaining).highest_unlocked_level == s.highest_unlocked_level + 1
        },
    decreases remaining,
{
    if remaining > 0 && s.game.phase == GamePhase::Flying {
        let dt = if remaining < FIXED_STEP {
            remaining
        } else {
            FIXED_STEP as int
        };
        lemma_step_moves_frontier_on_success(s, dt);
        lemma_flight_moves_frontier_on_success(s.after_step(dt), remaining - dt);
    }
}

/// The unlock frontier never falls: not by a frame's actions and not by a
/// frame of flight; and it rises only by a success on the frontier level.
pub proof fn lemma_frontier_only_rises_on_success(s: AppView, actions: FrameActions, frame_dt: int)
    requires
        s.wf(),
    ensures
        s.after_actions(actions).0.highest_unlocked_level == s.highest_unlocked_level,
        s.after_frame(frame_dt).highest_unlocked_level >= s.highest_unlocked_level,
        s.after_frame(frame_dt).highest_unlocked_level != s.highest_unlocked_level ==> {
            &&& s.after_frame(frame_dt).game.phase == GamePhase::Success
            &&& s.current_level_idx == s.highest_unlocked_level
            &&& s.after_frame(frame_dt).highest_unlocked_level == s.highest_unlocked_level + 1
        },
{
    lemma_flight_moves_frontier_on_success(s, s.frame_ticks(frame_dt));
}

/// Whatever the extents, the window is exactly twice as wide as it is
/// high, and neither span is smaller than its padded extent.
pub proof fn lemma_window_has_fixed_ratio(raw_x: int, raw_y: int, one: int)
    ensures
        window_spec(raw_x, raw_y, one).0 == 2 * window_spec(raw_x, raw_y, one).1,
        window_spec(raw_x, raw_y, one).0 >= padded_span(raw_x, one, X_PADDING_PERCENT as int),
        window_spec(raw_x, raw_y, one).1 >= padded_span(raw_y, one, Y_PADDING_PERCENT as int),
{
}

/// Slowest approach along the normal, in millionths of a metre per second,
/// for which a bounce is shown never to gain normal speed; below it the
/// rounding of the fixed-point arithmetic is as large as the speed itself.
pub const MIN_NORMAL_SPEED: i64 = 1000;

/// `n` is a unit vector up to the rounding of its coordinates.
pub open spec fn near_unit(n: Vec2) -> bool {
    let square = dot(n.x as int, n.y as int, n.x as int, n.y as int);
    &&& -SCALE <= n.x <= SCALE
    &&& -SCALE <= n.y <= SCALE
    &&& SCALE_SQUARED - 8 * SCALE <= square <= SCALE_SQUARED + 8 * SCALE
}

proof fn lemma_regroup(n: int, c: int, d: int)
    by (nonlinear_arith)
    ensures
        n * ((n * c) * d) == ((n * n) * c) * d,
{
}

proof fn lemma_split_quotient(n: int, k: int, f: int, a: int)
    by (nonlinear_arith)
    requires
        a == 1_000_000_000_000_000_000 * k + f,
    ensures
        1_000_000_000_000_000_000 * (k * n) == n * a - n * f,
{
}

proof fn lemma_along_normal(vx: int, vy: int, nx: int, ny: int, kx: int, ky: int)
    by (nonlinear_arith)
    ensures
        (vx - kx) * nx + (vy - ky) * ny == (vx * nx + vy * ny) - (kx * nx + ky * ny),
{
}

proof fn lemma_sum_of_squares(nx: int, ny: int, c: int, d: int)
    by (nonlinear_arith)
    ensures
        ((nx * nx) * c) * d + ((ny * ny) * c) * d == ((nx * nx + ny * ny) * c) * d,
{
}

proof fn lemma_distribute(d: int, cube: int, m: int)
    by (nonlinear_arith)
    ensures
        d * (cube - m) == d * cube - m * d,
{
}

proof fn lemma_reflected_identity(
    vx: int,
    vy: int,
    nx: int,
    ny: int,
    c: int,
    d: int,
    kx: int,
    ky: int,
    fx: int,
    fy: int,
    square: int,
    r: int,
)
    requires
        d == vx * nx + vy * ny,
        square == nx * nx + ny * ny,
        (nx * c) * d == 1_000_000_000_000_000_000 * kx + fx,
        (ny * c) * d == 1_000_000_000_000_000_000 * ky + fy,
        r == (vx - kx) * nx + (vy - ky) * ny,
    ensures
        r * 1_000_000_000_000_000_000 == d * (1_000_000_000_000_000_000 - square * c) + (nx * fx
            + ny * fy),
{
    lemma_along_normal(vx, vy, nx, ny, kx, ky);
    lemma_split_quotient(nx, kx, fx, (nx * c) * d);
    lemma_split_quotient(ny, ky, fy, (ny * c) * d);
    lemma_regroup(nx, c, d);
    lemma_regroup(ny, c, d);
    lemma_sum_of_squares(nx, ny, c, d);
    lemma_distribute(d, 1_000_000_000_000_000_000, square * c);
}

proof fn lemma_damped_identity(
    rx: int,
    ry: int,
    nx: int,
    ny: int,
    bx: int,
    by: int,
    gx: int,
    gy: int,
    r: int,
    b: int,
)
    by (nonlinear_arith)
    requires
        rx * 995 == 1000 * bx + gx,
        ry * 995 == 1000 * by + gy,
        r == rx * nx + ry * ny,
        b == bx * nx + by * ny,
    ensures
        1000 * b == 995 * r - (nx * gx + ny * gy),
{
    assert((1000 * bx) * nx == (rx * 995) * nx - gx * nx);
    assert((1000 * by) * ny == (ry * 995) * ny - gy * ny);
}

proof fn lemma_remainder_term(n: int, f: int, bound: int)
    by (nonlinear_arith)
    requires
        -1_000_000 <= n <= 1_000_000,
        0 <= f < bound,
    ensures
        -1_000_000 * bound <= n * f <= 1_000_000 * bound,
{
}

proof fn lemma_square_times_factor(square: int, c: int)
    by (nonlinear_arith)
    requires
        1_000_000_000_000 - 8_000_000 <= square <= 1_000_000_000_000 + 8_000_000,
        1_000_000 <= c <= 2_000_000,
    ensures
        999_992_000_000_000_000 <= square * c <= 2_000_016_000_000_000_000,
{
}

proof fn lemma_scaled_by_approach(d: int, m: int)
    by (nonlinear_arith)
    requires
        d <= 0,
        -1_000_016_000_000_000_000 <= m <= 8_000_000_000_000,
    ensures
        d * 8_000_000_000_000 <= d * m <= d * (-1_000_016_000_000_000_000),
{
}

/// Most speed along the normal, in millionths of a metre per second, that
/// the rounding of a bounce can add.
pub const ROUNDING_GAIN: i64 = 4;

/// A bounce adds no speed along the surface normal beyond rounding: for a
/// restitution between zero and one and a projectile that does not move
/// away from the surface, the velocity after the bounce has at most
/// `ROUNDING_GAIN` more speed along the normal than the velocity before it,
/// wherever the velocity after the bounce needs no saturation.
pub proof fn lemma_bounce_gain_is_rounding(v: Vec2, n: Vec2, restitution: int)
    requires
        near_unit(n),
        0 <= restitution <= SCALE,
        dot(v.x as int, v.y as int, n.x as int, n.y as int) <= 0,
        in_range(damp(reflect(v, n, restitution).0)),
        in_range(damp(reflect(v, n, restitution).1)),
    ensures
        abs_int(
            dot(
                bounce_velocity(v, n, restitution).x as int,
                bounce_velocity(v, n, restitution).y as int,
                n.x as int,
                n.y as int,
            ),
        ) <= abs_int(dot(v.x as int, v.y as int, n.x as int, n.y as int)) + ROUNDING_GAIN * SCALE,
        dot(v.x as int, v.y as int, n.x as int, n.y as int) <= -(MIN_NORMAL_SPEED * SCALE)
            ==> abs_int(
            dot(
                bounce_velocity(v, n, restitution).x as int,
                bounce_velocity(v, n, restitution).y as int,
                n.x as int,
                n.y as int,
            ),
        ) <= abs_int(dot(v.x as int, v.y as int, n.x as int, n.y as int)),
{
    let cube: int = 1_000_000_000_000_000_000;
    let vx = v.x as int;
    let vy = v.y as int;
    let nx = n.x as int;
    let ny = n.y as int;
    let c = SCALE + restitution;
    let d = dot(vx, vy, nx, ny);
    let square = dot(nx, ny, nx, ny);
    let ax = (nx * c) * d;
    let ay = (ny * c) * d;
    let kx = ax / cube;
    let ky = ay / cube;
    let fx = ax % cube;
    let fy = ay % cube;
    lemma_fundamental_div_mod(ax, cube);
    lemma_fundamental_div_mod(ay, cube);
    let rx = vx - kx;
    let ry = vy - ky;
    assert(reflect(v, n, restitution) == (rx, ry));
    let r = rx * nx + ry * ny;
    lemma_reflected_identity(vx, vy, nx, ny, c, d, kx, ky, fx, fy, square, r);
    lemma_remainder_term(nx, fx, cube);
    lemma_remainder_term(ny, fy, cube);
    lemma_square_times_factor(square, c);
    lemma_scaled_by_approach(d, cube - square * c);
    let bx = rx * 995 / 1000;
    let by = ry * 995 / 1000;
    let gx = (rx * 995) % 1000;
    let gy = (ry * 995) % 1000;
    lemma_fundamental_div_mod(rx * 995, 1000);
    lemma_fundamental_div_mod(ry * 995, 1000);
    assert(damp(rx) == bx && damp(ry) == by);
    let b = bx * nx + by * ny;
    lemma_damped_identity(rx, ry, nx, ny, bx, by, gx, gy, r, b);
    lemma_remainder_term(nx, gx, 1000);
    lemma_remainder_term(ny, gy, 1000);
    assert(bounce_velocity(v, n, restitution).x == bx);
    assert(bounce_velocity(v, n, restitution).y == by);
    assert(r * cube <= d * (-1_000_016_000_000_000_000) + 2_000_000 * cube);
    assert(r * cube >= d * 8_000_000_000_000 - 2_000_000 * cube);
    assert(1000 * b <= 995 * r + 2_000_000_000);
    assert(1000 * b >= 995 * r - 2_000_000_000);
    assert(b <= -d + 4_000_000);
    assert(b >= d - 4_000_000);
    if d <= -(MIN_NORMAL_SPEED * SCALE) {
        assert(b <= -d);
        assert(b >= d);
    }
}

/// A bounce never gains speed along the surface normal: for a restitution
/// between zero and one and a projectile that approaches the surface at
/// `MIN_NORMAL_SPEED` or faster, the velocity after the bounce has no more
/// speed along the normal than the velocity before it, wherever the
/// velocity after the bounce needs no saturation.
pub proof fn lemma_bounce_never_gains_normal_speed(v: Vec2, n: Vec2, restitution: int)
    requires
        near_unit(n),
        0 <= restitution <= SCALE,
        dot(v.x as int, v.y as int, n.x as int, n.y as int) <= -(MIN_NORMAL_SPEED * SCALE),
        in_range(damp(reflect(v, n, restitution).0)),
        in_range(damp(reflect(v, n, restitution).1)),
    ensures
        abs_int(
            dot(
                bounce_velocity(v, n, restitution).x as int,
                bounce_velocity(v, n, restitution).y as int,
                n.x as int,
                n.y as int,
            ),
        ) <= abs_int(dot(v.x as int, v.y as int, n.x as int, n.y as int)),
{
    lemma_bounce_gain_is_rounding(v, n, restitution);
}

proof fn lemma_length_at_least_one(q: int, len: int)
    by (nonlinear_arith)
    requires
        len > 0,
        is_floor_sqrt(q * 1_000_000_000_000, len),
    ensures
        len >= 1_000_000,
        q >= 1,
        len * len >= 1_000_000 * len,
        q * 1_000_000_000_000 <= len * len + 2 * len,
{
    assert(q >= 1);
    assert(q * 1_000_000_000_000 >= 1_000_000_000_000);
    if len < 1_000_000 {
        assert((len + 1) * (len + 1) <= 1_000_000 * 1_000_000);
    }
}

proof fn lemma_scaled_square(u: int, n: int, e: int, len: int)
    by (nonlinear_arith)
    requires
        u == len * n + e,
    ensures
        (n * n) * (len * len) == u * u - 2 * (u * e) + e * e,
{
    assert(len * n == u - e);
    assert((len * n) * (len * n) == (u - e) * (u - e));
    assert((len * n) * (len * n) == (n * n) * (len * len));
    assert((u - e) * (u - e) == u * u - 2 * (u * e) + e * e);
}

proof fn lemma_cross_term(u: int, e: int, len: int)
    by (nonlinear_arith)
    requires
        0 <= e < len,
        -(1_000_000 * len) <= u <= 1_000_000 * len,
    ensures
        -(1_000_000 * (len * len)) <= u * e <= 1_000_000 * (len * len),
        0 <= e * e <= len * len,
{
    assert(u * e <= (1_000_000 * len) * e);
    assert((1_000_000 * len) * e <= (1_000_000 * len) * len);
    assert(u * e >= -(1_000_000 * len) * e);
    assert((1_000_000 * len) * len == 1_000_000 * (len * len));
}

proof fn lemma_scaled_coordinates(x: int, y: int, q: int)
    by (nonlinear_arith)
    requires
        q == x * x + y * y,
    ensures
        (x * 1_000_000_000_000) * (x * 1_000_000_000_000) + (y * 1_000_000_000_000) * (y
            * 1_000_000_000_000) == (q * 1_000_000_000_000) * 1_000_000_000_000,
{
    assert((x * 1_000_000_000_000) * (x * 1_000_000_000_000) == (x * x) * 1_000_000_000_000
        * 1_000_000_000_000);
    assert((y * 1_000_000_000_000) * (y * 1_000_000_000_000) == (y * y) * 1_000_000_000_000
        * 1_000_000_000_000);
}

proof fn lemma_square_between(
    scaled_square: int,
    radicand: int,
    cross_x: int,
    cross_y: int,
    rest_x: int,
    rest_y: int,
    area: int,
    len: int,
)
    requires
        scaled_square == radicand * 1_000_000_000_000 - 2 * cross_x - 2 * cross_y + rest_x
            + rest_y,
        area <= radicand <= area + 2 * len,
        area >= 1_000_000 * len,
        len >= 1_000_000,
        -(1_000_000 * area) <= cross_x <= 1_000_000 * area,
        -(1_000_000 * area) <= cross_y <= 1_000_000 * area,
        0 <= rest_x <= area,
        0 <= rest_y <= area,
    ensures
        999_996_000_000 * area <= scaled_square,
        scaled_square <= 1_000_006_000_002 * area,
{
    assert(radicand * 1_000_000_000_000 >= area * 1_000_000_000_000);
    assert(radicand * 1_000_000_000_000 <= area * 1_000_000_000_000 + 2_000_000_000_000 * len);
    assert(2_000_000_000_000 * len <= 2_000_000 * area);
}

proof fn lemma_cancel_square(n: int, area: int, low: int, high: int)
    by (nonlinear_arith)
    requires
        area > 0,
        low * area <= n * area <= high * area,
    ensures
        low <= n <= high,
{
}

proof fn lemma_sum_scaled(a: int, b: int, area: int)
    by (nonlinear_arith)
    ensures
        (a + b) * area == a * area + b * area,
{
}

/// The normals the engine bounces off are unit vectors up to rounding, and
/// the one a hit carries never points along the velocity.
pub proof fn lemma_edge_normal_is_near_unit(a: Vec2, b: Vec2, velocity: Vec2)
    requires
        edge_length_scaled(a, b) > 0,
    ensures
        near_unit(edge_normal(a, b)),
        near_unit(facing_normal(edge_normal(a, b), velocity)),
        dot(
            velocity.x as int,
            velocity.y as int,
            facing_normal(edge_normal(a, b), velocity).x as int,
            facing_normal(edge_normal(a, b), velocity).y as int,
        ) <= 0,
{
    let scale2: int = 1_000_000_000_000;
    let x = a.y - b.y;
    let y = b.x - a.x;
    let q = dot(b.x - a.x, b.y - a.y, b.x - a.x, b.y - a.y);
    let len = edge_length_scaled(a, b);
    assert(q == y * y + x * x) by (nonlinear_arith)
        requires
            q == (b.x - a.x) * (b.x - a.x) + (b.y - a.y) * (b.y - a.y),
            x == a.y - b.y,
            y == b.x - a.x,
    ;
    assert(q >= 0) by (nonlinear_arith)
        requires
            q == y * y + x * x,
    ;
    lemma_floor_sqrt_exists(q * scale2);
    lemma_length_at_least_one(q, len);
    lemma_component_within_length(x, y, len);
    lemma_component_within_length(y, x, len);
    lemma_normal_component(x, len);
    lemma_normal_component(y, len);
    let ux = x * scale2;
    let uy = y * scale2;
    let nx = ux / len;
    let ny = uy / len;
    let ex = ux % len;
    let ey = uy % len;
    lemma_fundamental_div_mod(ux, len);
    lemma_fundamental_div_mod(uy, len);
    let area = len * len;
    lemma_scaled_square(ux, nx, ex, len);
    lemma_scaled_square(uy, ny, ey, len);
    assert(ux == (x * 1_000_000) * 1_000_000);
    assert(uy == (y * 1_000_000) * 1_000_000);
    lemma_cross_term(ux, ex, len);
    lemma_cross_term(uy, ey, len);
    lemma_scaled_coordinates(x, y, q);
    let square = nx * nx + ny * ny;
    lemma_sum_scaled(nx * nx, ny * ny, area);
    lemma_square_between(
        square * area,
        q * scale2,
        ux * ex,
        uy * ey,
        ex * ex,
        ey * ey,
        area,
        len,
    );
    lemma_cancel_square(square, area, 999_996_000_000, 1_000_006_000_002);
    let n = edge_normal(a, b);
    assert(n.x == nx && n.y == ny);
    let f = facing_normal(n, velocity);
    if dot(velocity.x as int, velocity.y as int, n.x as int, n.y as int) > 0 {
        assert(f.x == -nx && f.y == -ny);
        assert(dot(f.x as int, f.y as int, f.x as int, f.y as int) == square) by (nonlinear_arith)
            requires
                f.x == -nx,
                f.y == -ny,
                square == nx * nx + ny * ny,
        ;
        assert(dot(velocity.x as int, velocity.y as int, f.x as int, f.y as int) == -dot(
            velocity.x as int,
            velocity.y as int,
            n.x as int,
            n.y as int,
        )) by (nonlinear_arith)
            requires
                f.x == -n.x,
                f.y == -n.y,
        ;
    }
}

/// Largest speed along either axis, a sixth of the stored limit, up to
/// which a bounce is shown to need no saturation.
pub const MODERATE_SPEED: i64 = 166_666_666_666;

/// At speeds up to `MODERATE_SPEED` along each axis, the velocity after a
/// bounce lies within the stored range and needs no saturation.
pub proof fn lemma_moderate_speeds_need_no_saturation(v: Vec2, n: Vec2, restitution: int)
    requires
        -MODERATE_SPEED <= v.x <= MODERATE_SPEED,
        -MODERATE_SPEED <= v.y <= MODERATE_SPEED,
        -SCALE <= n.x <= SCALE,
        -SCALE <= n.y <= SCALE,
        0 <= restitution <= SCALE,
    ensures
        in_range(damp(reflect(v, n, restitution).0)),
        in_range(damp(reflect(v, n, restitution).1)),
{
    let cube: int = 1_000_000_000_000_000_000;
    let c = SCALE + restitution;
    let d = dot(v.x as int, v.y as int, n.x as int, n.y as int);
    lemma_product_bound(v.x as int, n.x as int, 166_666_666_666, 1_000_000);
    lemma_product_bound(v.y as int, n.y as int, 166_666_666_666, 1_000_000);
    lemma_product_bound(n.x as int, c, 1_000_000, 2_000_000);
    lemma_product_bound(n.y as int, c, 1_000_000, 2_000_000);
    lemma_product_bound(n.x * c, d, 2_000_000_000_000, 333_333_333_332_000_000);
    lemma_product_bound(n.y * c, d, 2_000_000_000_000, 333_333_333_332_000_000);
    lemma_floor_div_monotone((n.x * c) * d, 666_666_666_664_000_000_000_000_000_000, cube);
    lemma_floor_div_monotone(-666_666_666_664_000_000_000_000_000_000, (n.x * c) * d, cube);
    lemma_floor_div_monotone((n.y * c) * d, 666_666_666_664_000_000_000_000_000_000, cube);
    lemma_floor_div_monotone(-666_666_666_664_000_000_000_000_000_000, (n.y * c) * d, cube);
    let r = reflect(v, n, restitution);
    assert(-833_333_333_330 <= r.0 <= 833_333_333_330);
    assert(-833_333_333_330 <= r.1 <= 833_333_333_330);
}

/// A bounce off an edge of the surface never gains speed along the edge's
/// normal: for a restitution between zero and one and an approach at
/// `MIN_NORMAL_SPEED` or faster, the projectile leaves the edge with no more
/// normal speed than it met it with, wherever the velocity it leaves with
/// needs no saturation.
pub proof fn lemma_edge_bounce_never_gains_normal_speed(
    prev: Vec2,
    p: Projectile,
    a: Vec2,
    b: Vec2,
    restitution: int,
)
    requires
        edge_hit(prev, p, a, b) is Some,
        0 <= restitution <= SCALE,
        abs_int(
            dot(
                p.velocity.x as int,
                p.velocity.y as int,
                edge_hit(prev, p, a, b)->0.normal.x as int,
                edge_hit(prev, p, a, b)->0.normal.y as int,
            ),
        ) >= MIN_NORMAL_SPEED * SCALE,
        in_range(damp(reflect(p.velocity, edge_hit(prev, p, a, b)->0.normal, restitution).0)),
        in_range(damp(reflect(p.velocity, edge_hit(prev, p, a, b)->0.normal, restitution).1)),
    ensures
        abs_int(
            dot(
                bounce_at(p, edge_hit(prev, p, a, b)->0, restitution).velocity.x as int,
                bounce_at(p, edge_hit(prev, p, a, b)->0, restitution).velocity.y as int,
                edge_hit(prev, p, a, b)->0.normal.x as int,
                edge_hit(prev, p, a, b)->0.normal.y as int,
            ),
        ) <= abs_int(
            dot(
                p.velocity.x as int,
                p.velocity.y as int,
                edge_hit(prev, p, a, b)->0.normal.x as int,
                edge_hit(prev, p, a, b)->0.normal.y as int,
            ),
        ),
{
    let hit = edge_hit(prev, p, a, b)->0;
    lemma_edge_normal_is_near_unit(a, b, p.velocity);
    lemma_bounce_never_gains_normal_speed(p.velocity, hit.normal, restitution);
}

/// A bounce off an edge of the surface adds no speed along the edge's
/// normal beyond rounding, however slowly the projectile meets the edge,
/// wherever the velocity it leaves with needs no saturation.
pub proof fn lemma_edge_bounce_gain_is_rounding(
    prev: Vec2,
    p: Projectile,
    a: Vec2,
    b: Vec2,
    restitution: int,
)
    requires
        edge_hit(prev, p, a, b) is Some,
        0 <= restitution <= SCALE,
        in_range(damp(reflect(p.velocity, edge_hit(prev, p, a, b)->0.normal, restitution).0)),
        in_range(damp(reflect(p.velocity, edge_hit(prev, p, a, b)->0.normal, restitution).1)),
    ensures
        abs_int(
            dot(
                bounce_at(p, edge_hit(prev, p, a, b)->0, restitution).velocity.x as int,
                bounce_at(p, edge_hit(prev, p, a, b)->0, restitution).velocity.y as int,
                edge_hit(prev, p, a, b)->0.normal.x as int,
                edge_hit(prev, p, a, b)->0.normal.y as int,
            ),
        ) <= abs_int(
            dot(
                p.velocity.x as int,
                p.velocity.y as int,
                edge_hit(prev, p, a, b)->0.normal.x as int,
                edge_hit(prev, p, a, b)->0.normal.y as int,
            ),
        ) + ROUNDING_GAIN * SCALE,
{
    let hit = edge_hit(prev, p, a, b)->0;
    lemma_edge_normal_is_near_unit(a, b, p.velocity);
    lemma_bounce_gain_is_rounding(p.velocity, hit.normal, restitution);
}

/// The upward bounce that frees a projectile found inside the surface never
/// gains vertical speed, and leaves the horizontal speed as it was.
pub proof fn lemma_bounce_out_never_gains_speed(p: Projectile, restitution: int)
    requires
        p.wf(),
        0 <= restitution <= SCALE,
    ensures
        0 <= bounce_out(p, restitution).velocity.y <= abs_int(p.velocity.y as int),
        bounce_out(p, restitution).velocity.x == p.velocity.x,
{
    let speed = abs_int(p.velocity.y as int);
    assert(0 <= speed * restitution / 1_000_000 <= speed) by (nonlinear_arith)
        requires
            0 <= speed,
            0 <= restitution <= 1_000_000,
    {
        assert(0 <= speed * restitution <= speed * 1_000_000);
    }
}

/// A launch with valid settings starts with a valid projectile.
pub proof fn lemma_launch_is_valid(config: LaunchConfig)
    requires
        config.wf(),
    ensures
        launch_projectile_spec(config).wf(),
{
    lemma_product_bound(
        config.speed as int,
        config.heading.cos as int,
        1_000_000_000_000,
        1_000_000,
    );
    lemma_product_bound(
        config.speed as int,
        config.heading.sin as int,
        1_000_000_000_000,
        1_000_000,
    );
    lemma_floor_div_monotone(
        config.speed * config.heading.cos,
        1_000_000_000_000_000_000,
        1_000_000,
    );
    lemma_floor_div_monotone(
        -1_000_000_000_000_000_000,
        config.speed * config.heading.cos,
        1_000_000,
    );
    lemma_floor_div_monotone(
        config.speed * config.heading.sin,
        1_000_000_000_000_000_000,
        1_000_000,
    );
    lemma_floor_div_monotone(
        -1_000_000_000_000_000_000,
        config.speed * config.heading.sin,
        1_000_000,
    );
}

/// A step keeps a valid projectile valid, whatever the level holds.
pub proof fn lemma_step_keeps_projectile_valid(p: Projectile, level: LevelView, dt: int)
    requires
        p.wf(),
        level.wf(),
        0 <= dt,
    ensures
        step_spec(p, level, dt).0.wf(),
{
    let flown = integrate(p, level.environment, dt);
    assert(flown.wf());
    match level.bounce_surface {
        Some(surface) => {
            lemma_bounce_out_never_gains_speed(flown, surface.restitution as int);
            assert(resolve_bounce(flown, surface, p.position).wf());
        },
        None => {},
    }
}

/// A flight runs no more steps than its budget, and at least one where the
/// budget allows one.
pub proof fn lemma_flight_is_bounded(p: Projectile, level: LevelView, budget: nat)
    ensures
        flight(p, level, budget).points.len() <= budget,
        budget > 0 ==> flight(p, level, budget).points.len() >= 1,
    decreases budget,
{
    if budget > 0 {
        let next = step_spec(p, level, FIXED_STEP as int).0;
        lemma_flight_is_bounded(next, level, (budget - 1) as nat);
    }
}

/// A predicted path holds the launch point and at least one step, and no
/// more steps than a prediction may run.
pub proof fn lemma_prediction_is_bounded(config: LaunchConfig, level: LevelView)
    ensures
        2 <= predict_spec(config, level).points.len() <= PREDICTION_STEPS + 1,
        predict_spec(config, level).points[0] == launch_projectile_spec(config).position,
        predict_spec(config, level).range >= 0,
{
    lemma_flight_is_bounded(launch_projectile_spec(config), level, PREDICTION_STEPS as nat);
}

/// A frame's actions keep a valid session valid; in particular a projectile
/// exists afterwards exactly if the shot is flying.
pub proof fn lemma_actions_keep_session_valid(s: AppView, actions: FrameActions)
    requires
        s.wf(),
    ensures
        s.after_actions(actions).0.wf(),
        s.after_actions(actions).0.levels == s.levels,
{
    lemma_launch_is_valid(s.config);
}

/// One step of a flight keeps a valid session valid.
pub proof fn lemma_flight_step_keeps_session_valid(s: AppView, dt: int)
    requires
        s.wf(),
        s.game.phase == GamePhase::Flying,
        0 <= dt,
    ensures
        s.after_step(dt).wf(),
{
    lemma_step_keeps_projectile_valid(s.game.shot->0, s.current_level(), dt);
    lemma_step_moves_frontier_on_success(s, dt);
}

/// A flight of any length keeps a valid session valid.
pub proof fn lemma_flight_keeps_session_valid(s: AppView, remaining: int)
    requires
        s.wf(),
    ensures
        s.after_flight(remaining).wf(),
    decreases remaining,
{
    if remaining > 0 && s.game.phase == GamePhase::Flying {
        let dt = if remaining < FIXED_STEP {
            remaining
        } else {
            FIXED_STEP as int
        };
        lemma_flight_step_keeps_session_valid(s, dt);
        lemma_flight_keeps_session_valid(s.after_step(dt), remaining - dt);
    }
}

/// A frame of flight keeps a valid session valid: a projectile exists
/// exactly while the shot is flying, before the frame and after it.
pub proof fn lemma_frame_keeps_session_valid(s: AppView, frame_dt: int)
    requires
        s.wf(),
    ensures
        s.after_frame(frame_dt).wf(),
        s.after_frame(frame_dt).game.shot is Some <==> s.after_frame(frame_dt).game.phase
            == GamePhase::Flying,
{
    lemma_flight_keeps_session_valid(s, s.frame_ticks(frame_dt));
}

/// Pausing and resuming leave the projectile, the trail and the phase as
/// they are, and a paused flight does not advance.
pub proof fn lemma_pause_holds_the_flight(s: AppView, frame_dt: int)
    requires
        s.game.phase == GamePhase::Flying,
    ensures
        s.after_launch_pause().game.shot == s.game.shot,
        s.after_launch_pause().game.trail == s.game.trail,
        s.after_launch_pause().game.phase == GamePhase::Flying,
        s.after_launch_pause().game.paused == !s.game.paused,
        s.game.paused ==> s.after_frame(frame_dt) == s,
{
}

/// A launch and a reset each start the trail afresh: a launch with the
/// launch point alone, a reset with nothing.
pub proof fn lemma_trail_starts_afresh(s: AppView)
    requires
        s.game.phase != GamePhase::Flying,
    ensures
        s.after_launch_pause().game.trail == seq![launch_projectile_spec(s.config).position],
        s.after_launch_pause().game.phase == GamePhase::Flying,
        s.after_reset().game.trail == Seq::<Vec2>::empty(),
        s.after_reset().game.phase == GamePhase::Aiming,
        s.after_reset().game.shot is None,
        !s.after_reset().game.paused,
{
}

} // verus!
